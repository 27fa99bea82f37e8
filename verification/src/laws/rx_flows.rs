//! What a reader finds in the list of received flows.
use vstd::arithmetic::div_mod::*;
use vstd::arithmetic::power2::*;
use vstd::prelude::*;

use crate::arc_server::flow_lists;
use crate::arc_server::rx_flows;
use crate::device_info::{DeviceInfo, RxFlowInfo};
use crate::laws::flow_counts;
use crate::laws::reading;
use crate::laws::tx_flows;
use crate::wire;

verus! {

/// Whether a bit of a number is set, the lowest bit being bit zero.
pub open spec fn bit(number: int, b: int) -> bool {
    number / (pow2(b as nat) as int) % 2 == 1
}

/// The four bytes at `place` hold a mask as two numbers, the channels from sixteen on in the second:
/// a channel's bit is set exactly where the mask holds the channel.
pub open spec fn shows_mask(payload: Seq<u8>, place: int, mask: Seq<bool>) -> bool {
    &&& 0 <= place
    &&& place + 4 <= payload.len()
    &&& forall|channel: int|
        0 <= channel < 16 ==> (#[trigger] bit(reading::number16(payload, place), channel) <==> (
        channel < mask.len() && mask[channel]))
    &&& forall|channel: int|
        16 <= channel < 32 ==> (#[trigger] bit(
            reading::number16(payload, place + 2),
            channel - 16,
        ) <==> (channel < mask.len() && mask[channel]))
}

/// The parameters of the flow in a slot are read from `place` on.
pub open spec fn shows_rx_parameters(
    payload: Seq<u8>,
    place: int,
    info: DeviceInfo,
    slot: int,
    flow: RxFlowInfo,
) -> bool {
    let n = flow.channels_map@.len() as int;
    &&& 0 <= place
    &&& place + 22 + 2 * n <= payload.len()
    &&& reading::number16(payload, place) == (slot + 1) % 0x10000
    &&& reading::number16(payload, place + 2) == 1
    &&& reading::number32(payload, place + 4) == info.sample_rate
    &&& reading::number16(payload, place + 8) == 0
    &&& reading::number16(payload, place + 10) == 0x18
    &&& reading::number16(payload, place + 12) == 1
    &&& reading::number16(payload, place + 14) == n
    &&& reading::number16(payload, place + 16) == 2
    &&& reading::number16(payload, place + 20 + 2 * n) == reading::number16(payload, place + 18) + 8
    &&& forall|k: int|
        0 <= k < n ==> #[trigger] reading::number16(payload, place + 20 + 2 * k)
            == reading::number16(payload, place + 18) + 24 + 4 * k
}

/// The address on which a flow is received, and behind it the latency, are read from `place` on,
/// which is a multiple of four bytes from the start of the packet. The latency is in whole
/// nanoseconds, rounded down.
pub open spec fn shows_rx_address(
    payload: Seq<u8>,
    place: int,
    info: DeviceInfo,
    flow: RxFlowInfo,
) -> bool {
    let latency = reading::number32(payload, place + 16);
    &&& 0 <= place
    &&& place + 24 <= payload.len()
    &&& (place + 10) % 4 == 0
    &&& reading::number16(payload, place) == 0x0802
    &&& reading::number16(payload, place + 2) == flow.rx_port
    &&& payload.subrange(place + 4, place + 8) == info.ip_address@
    &&& reading::number16(payload, place + 8) == 9
    &&& reading::number16(payload, place + 10) == 1
    &&& reading::number16(payload, place + 12) == 0x0800
    &&& reading::number16(payload, place + 14) == 0
    &&& latency * info.sample_rate <= flow.latency_samples * 1_000_000_000
    &&& flow.latency_samples * 1_000_000_000 < (latency + 1) * info.sample_rate
    &&& reading::number32(payload, place + 20) == 0
}

/// Each bit of a mask's number tells of its channel.
#[verifier::rlimit(40)]
#[verifier::spinoff_prover]
proof fn lemma_mask_bit(mask: Seq<bool>, from: int, n: nat, b: nat)
    requires
        b < n,
    ensures
        bit(rx_flows::mask_bits(mask, from, n) as int, b as int) == rx_flows::in_mask(
            mask,
            from + b,
        ),
    decreases n,
{
    let less = rx_flows::mask_bits(mask, from, (n - 1) as nat);
    let top = pow2((n - 1) as nat);
    lemma_pow2_pos((n - 1) as nat);
    lemma_pow2_pos(b);
    rx_flows::lemma_mask_bits(mask, from, (n - 1) as nat);
    if b == n - 1 {
        lemma_fundamental_div_mod_converse(less as int, top as int, 0, less as int);
        lemma_fundamental_div_mod_converse((less + top) as int, top as int, 1, less as int);
    } else {
        lemma_mask_bit(mask, from, (n - 1) as nat, b);
        let rest = (n - 2 - b) as nat;
        lemma_pow2_adds(b, (rest + 1) as nat);
        lemma_pow2_unfold((rest + 1) as nat);
        let q = pow2(rest);
        let d = pow2(b) as int;
        assert(top == 2 * q * d) by (nonlinear_arith)
            requires
                top == d * (2 * q),
        ;
        lemma_hoist_over_denominator(less as int, 2 * q as int, d as nat);
        assert((less as int / d + 2 * q) % 2 == (less as int / d) % 2);
    }
}

/// A mask shows its channels where it stands.
#[verifier::rlimit(40)]
#[verifier::spinoff_prover]
proof fn lemma_mask_shown(payload: Seq<u8>, place: int, mask: Seq<bool>)
    requires
        flow_lists::stands_at(payload, place, rx_flows::mask_bytes(mask)),
    ensures
        shows_mask(payload, place, mask),
{
    let part = rx_flows::mask_bytes(mask);
    let low = rx_flows::mask_bits(mask, 0, 16);
    let high = rx_flows::mask_bits(mask, 16, 16);
    rx_flows::lemma_mask_bits(mask, 0, 16);
    rx_flows::lemma_mask_bits(mask, 16, 16);
    lemma2_to64();
    assert(part.len() == 4);
    reading::lemma_in_part(payload, place, part);
    reading::lemma_read16(part, 0, low as u16);
    reading::lemma_read16(part, 2, high as u16);
    assert(reading::number16(part, 0) == reading::number16(payload, place + 0));
    assert(reading::number16(part, 2) == reading::number16(payload, place + 2));
    assert forall|channel: int| 0 <= channel < 16 implies (#[trigger] bit(
        reading::number16(payload, place),
        channel,
    ) <==> (channel < mask.len() && mask[channel])) by {
        lemma_mask_bit(mask, 0, 16, channel as nat);
    }
    assert forall|channel: int| 16 <= channel < 32 implies (#[trigger] bit(
        reading::number16(payload, place + 2),
        channel - 16,
    ) <==> (channel < mask.len() && mask[channel])) by {
        lemma_mask_bit(mask, 16, 16, (channel - 16) as nat);
    }
}

/// Each mask takes four bytes.
#[verifier::rlimit(40)]
#[verifier::spinoff_prover]
proof fn lemma_mask_stands(masks: Seq<Vec<bool>>, k: int)
    requires
        0 <= k < masks.len(),
    ensures
        flow_lists::stands_at(
            rx_flows::masks_bytes(masks),
            4 * k,
            rx_flows::mask_bytes(masks[k]@),
        ),
    decreases masks.len(),
{
    let some = masks.drop_last();
    rx_flows::lemma_masks_len(masks);
    rx_flows::lemma_masks_len(some);
    let all = rx_flows::masks_bytes(masks);
    let part = rx_flows::mask_bytes(masks[k]@);
    assert(part.len() == 4);
    if k < some.len() {
        lemma_mask_stands(some, k);
        let before = rx_flows::masks_bytes(some);
        assert(all.subrange(4 * k, 4 * k + 4) =~= before.subrange(4 * k, 4 * k + 4));
    } else {
        assert(all.subrange(4 * k, 4 * k + 4) =~= part);
    }
}

/// The parts of the description of a flow.
#[verifier::rlimit(40)]
#[verifier::spinoff_prover]
proof fn lemma_rx_parts(info: DeviceInfo, slot: int, flow: RxFlowInfo, at: nat)
    ensures
        ({
            let block = rx_flows::rx_flow_block(info, slot, flow, at);
            let a = flow_lists::padding(at);
            let masks = rx_flows::masks_bytes(flow.channels_map@);
            &&& masks.len() == 4 * flow.channels_map@.len()
            &&& flow_lists::stands_at(
                block,
                a as int,
                flow_lists::destination_bytes(flow.rx_port, info.ip_address@),
            )
            &&& flow_lists::stands_at(
                block,
                (a + 8) as int,
                rx_flows::rx_latency_bytes(info, flow),
            )
            &&& flow_lists::stands_at(block, (a + 24) as int, masks)
            &&& flow_lists::stands_at(
                block,
                (a + 24 + masks.len()) as int,
                rx_flows::rx_parameters(info, slot, flow, at),
            )
            &&& block.len() == a + 24 + masks.len() + rx_flows::rx_parameters(
                info,
                slot,
                flow,
                at,
            ).len()
            &&& reading::zero_from(block, 0, a as int)
        }),
{
    reveal(rx_flows::rx_flow_block);
    rx_flows::lemma_masks_len(flow.channels_map@);
    let block = rx_flows::rx_flow_block(info, slot, flow, at);
    let a = flow_lists::padding(at) as int;
    let to = flow_lists::destination_bytes(flow.rx_port, info.ip_address@);
    let latency = rx_flows::rx_latency_bytes(info, flow);
    let masks = rx_flows::masks_bytes(flow.channels_map@);
    let parameters = rx_flows::rx_parameters(info, slot, flow, at);
    assert(to.len() == 8);
    assert(latency.len() == 16);
    assert(block.subrange(a, a + 8) =~= to);
    assert(block.subrange(a + 8, a + 24) =~= latency);
    assert(block.subrange(a + 24, a + 24 + masks.len()) =~= masks);
    assert(block.subrange(
        (a + 24 + masks.len()) as int,
        (a + 24 + masks.len() + parameters.len()) as int,
    ) =~= parameters);
    assert(block.len() == a + 24 + masks.len() + parameters.len());
    assert forall|i: int| 0 <= i < a implies #[trigger] block[i] == 0 by {}
}

/// What is read of the latency of a flow.
#[verifier::rlimit(40)]
#[verifier::spinoff_prover]
proof fn lemma_latency_read(info: DeviceInfo, flow: RxFlowInfo, payload: Seq<u8>, place: int)
    requires
        rx_flows::rx_flow_encodable(info, flow),
        flow_lists::stands_at(payload, place, rx_flows::rx_latency_bytes(info, flow)),
    ensures
        ({
            let latency = reading::number32(payload, place + 8);
            &&& place + 16 <= payload.len()
            &&& reading::number16(payload, place) == 9
            &&& reading::number16(payload, place + 2) == 1
            &&& reading::number16(payload, place + 4) == 0x0800
            &&& reading::number16(payload, place + 6) == 0
            &&& latency * info.sample_rate <= flow.latency_samples * 1_000_000_000
            &&& flow.latency_samples * 1_000_000_000 < (latency + 1) * info.sample_rate
            &&& reading::number32(payload, place + 12) == 0
        }),
{
    let part = rx_flows::rx_latency_bytes(info, flow);
    let ns = rx_flows::latency_ns(info, flow);
    let total = flow.latency_samples * 1_000_000_000;
    let rate = info.sample_rate as int;
    assert(part.len() == 16);
    reading::lemma_in_part(payload, place, part);
    lemma_fundamental_div_mod(total, rate);
    lemma_mod_bound(total, rate);
    assert(0 <= ns) by {
        lemma_div_pos_is_pos(total, rate);
    }
    assert(ns * rate <= total < (ns + 1) * rate) by (nonlinear_arith)
        requires
            total == rate * ns + total % rate,
            0 <= total % rate < rate,
    ;
    reading::lemma_read32(part, 8, ns as u32);
    reading::lemma_read32(part, 12, 0);
    assert(reading::number16(part, 0) == reading::number16(payload, place + 0));
    assert(reading::number16(part, 0) == 9);
    assert(reading::number16(part, 2) == 1);
    assert(reading::number16(part, 4) == 0x0800);
    assert(reading::number16(part, 6) == 0);
}

/// The address of a flow is read where its description starts.
#[verifier::rlimit(40)]
#[verifier::spinoff_prover]
proof fn lemma_rx_address_part(
    info: DeviceInfo,
    slot: int,
    flow: RxFlowInfo,
    at: nat,
    payload: Seq<u8>,
)
    requires
        flow_lists::stands_at(
            payload,
            at as int,
            rx_flows::rx_flow_block(info, slot, flow, at),
        ),
    ensures
        ({
            let place = rx_flows::rx_address_at(at) as int;
            &&& reading::number16(payload, place) == 0x0802
            &&& reading::number16(payload, place + 2) == flow.rx_port
            &&& payload.subrange(place + 4, place + 8) == info.ip_address@
        }),
{
    lemma_rx_parts(info, slot, flow, at);
    let block = rx_flows::rx_flow_block(info, slot, flow, at);
    let place = rx_flows::rx_address_at(at) as int;
    let to = flow_lists::destination_bytes(flow.rx_port, info.ip_address@);
    flow_lists::lemma_part(payload, at as int, block, place - at, to);
    tx_flows::lemma_address_read(payload, place, flow.rx_port, info.ip_address@);
}

/// The latency of a flow is read behind its address.
#[verifier::rlimit(40)]
#[verifier::spinoff_prover]
proof fn lemma_rx_latency_part(
    info: DeviceInfo,
    slot: int,
    flow: RxFlowInfo,
    at: nat,
    payload: Seq<u8>,
)
    requires
        rx_flows::rx_flow_encodable(info, flow),
        flow_lists::stands_at(
            payload,
            at as int,
            rx_flows::rx_flow_block(info, slot, flow, at),
        ),
    ensures
        ({
            let place = rx_flows::rx_address_at(at) as int + 8;
            let latency = reading::number32(payload, place + 8);
            &&& place + 16 <= payload.len()
            &&& reading::number16(payload, place) == 9
            &&& reading::number16(payload, place + 2) == 1
            &&& reading::number16(payload, place + 4) == 0x0800
            &&& reading::number16(payload, place + 6) == 0
            &&& latency * info.sample_rate <= flow.latency_samples * 1_000_000_000
            &&& flow.latency_samples * 1_000_000_000 < (latency + 1) * info.sample_rate
            &&& reading::number32(payload, place + 12) == 0
        }),
{
    lemma_rx_parts(info, slot, flow, at);
    let block = rx_flows::rx_flow_block(info, slot, flow, at);
    let place = rx_flows::rx_address_at(at) as int + 8;
    let latency = rx_flows::rx_latency_bytes(info, flow);
    flow_lists::lemma_part(payload, at as int, block, place - at, latency);
    lemma_latency_read(info, flow, payload, place);
}

/// The address and the latency of a flow are read where its description starts.
#[verifier::rlimit(40)]
#[verifier::spinoff_prover]
proof fn lemma_rx_address(
    info: DeviceInfo,
    slot: int,
    flow: RxFlowInfo,
    at: nat,
    payload: Seq<u8>,
)
    requires
        rx_flows::rx_flow_encodable(info, flow),
        flow_lists::stands_at(
            payload,
            at as int,
            rx_flows::rx_flow_block(info, slot, flow, at),
        ),
    ensures
        shows_rx_address(payload, rx_flows::rx_address_at(at) as int, info, flow),
{
    lemma_rx_address_part(info, slot, flow, at, payload);
    lemma_rx_latency_part(info, slot, flow, at, payload);
}

/// What stands in the parameters of a flow.
#[verifier::rlimit(40)]
#[verifier::spinoff_prover]
proof fn lemma_rx_parameters_read(
    info: DeviceInfo,
    slot: int,
    flow: RxFlowInfo,
    at: nat,
    payload: Seq<u8>,
    place: int,
)
    requires
        0 <= slot,
        rx_flows::rx_masks_offset(at) + 4 * flow.channels_map@.len() < 0x10000,
        flow_lists::stands_at(payload, place, rx_flows::rx_parameters(info, slot, flow, at)),
    ensures
        shows_rx_parameters(payload, place, info, slot, flow),
        reading::number16(payload, place + 18) == rx_flows::rx_address_at(at) + 10,
{
    let p = rx_flows::rx_parameters(info, slot, flow, at);
    let n = flow.channels_map@.len() as int;
    let offsets = rx_flows::rx_mask_offsets(flow, at);
    let address = rx_flows::rx_address_at(at) as int;
    wire::lemma_be16s_len(offsets);
    let head = wire::be16(wire::low16(slot + 1)) + wire::be16(1) + wire::be32(info.sample_rate)
        + seq![0x00u8, 0x00, 0x00, 0x18, 0x00, 0x01] + wire::be16(wire::low16(n)) + wire::be16(
        2,
    ) + wire::be16(wire::low16(address + 10));
    let tail = wire::be16(wire::low16(address + 18));
    assert(head.len() == 20);
    assert(p =~= head + wire::be16s(offsets) + tail);
    assert(p.len() == 22 + 2 * n);
    reading::lemma_in_part(payload, place, p);
    assert(reading::number16(p, 0) == (slot + 1) % 0x10000 && reading::number16(p, 2) == 1
        && reading::number32(p, 4) == info.sample_rate && reading::number16(p, 8) == 0
        && reading::number16(p, 10) == 0x18 && reading::number16(p, 12) == 1 && reading::number16(
        p,
        14,
    ) == n && reading::number16(p, 16) == 2 && reading::number16(p, 18) == address + 10) by {
        assert(forall|i: int| 0 <= i < 20 ==> #[trigger] p[i] == head[i]);
        reading::lemma_read16(head, 0, wire::low16(slot + 1));
        reading::lemma_read16(head, 2, 1);
        reading::lemma_read32(head, 4, info.sample_rate);
        reading::lemma_read16(head, 14, wire::low16(n));
        reading::lemma_read16(head, 16, 2);
        reading::lemma_read16(head, 18, wire::low16(address + 10));
    }
    assert(reading::number16(p, 20 + 2 * n) == address + 18) by {
        assert(p[20 + 2 * n] == tail[0] && p[20 + 2 * n + 1] == tail[1]);
        reading::lemma_read16(tail, 0, wire::low16(address + 18));
    }
    assert(reading::number16(p, 0) == reading::number16(payload, place + 0));
    assert forall|k: int| 0 <= k < n implies #[trigger] reading::number16(
        payload,
        place + 20 + 2 * k,
    ) == address + 34 + 4 * k by {
        reading::lemma_read16s(offsets, k);
        assert(p[20 + 2 * k] == wire::be16s(offsets)[2 * k]);
        assert(p[20 + 2 * k + 1] == wire::be16s(offsets)[2 * k + 1]);
        assert(reading::number16(p, 20 + 2 * k) == reading::number16(
            payload,
            place + (20 + 2 * k),
        ));
    }
}

/// The parameters of a flow are read behind its masks.
#[verifier::rlimit(40)]
#[verifier::spinoff_prover]
proof fn lemma_rx_parameters(
    info: DeviceInfo,
    slot: int,
    flow: RxFlowInfo,
    at: nat,
    payload: Seq<u8>,
)
    requires
        0 <= slot,
        payload.len() + 10 < 0x10000,
        flow_lists::stands_at(
            payload,
            at as int,
            rx_flows::rx_flow_block(info, slot, flow, at),
        ),
    ensures
        ({
            let place = rx_flows::rx_flow_position(flow, at) - 10;
            &&& shows_rx_parameters(payload, place, info, slot, flow)
            &&& reading::number16(payload, place + 18) == rx_flows::rx_address_at(at) + 10
        }),
{
    lemma_rx_parts(info, slot, flow, at);
    let block = rx_flows::rx_flow_block(info, slot, flow, at);
    let place = rx_flows::rx_flow_position(flow, at) - 10;
    flow_lists::lemma_part(
        payload,
        at as int,
        block,
        place - at,
        rx_flows::rx_parameters(info, slot, flow, at),
    );
    lemma_rx_parameters_read(info, slot, flow, at, payload, place);
}

/// The masks of a flow are read behind its latency.
#[verifier::rlimit(40)]
#[verifier::spinoff_prover]
proof fn lemma_rx_mask(
    info: DeviceInfo,
    slot: int,
    flow: RxFlowInfo,
    at: nat,
    payload: Seq<u8>,
    k: int,
)
    requires
        flow_lists::stands_at(
            payload,
            at as int,
            rx_flows::rx_flow_block(info, slot, flow, at),
        ),
        0 <= k < flow.channels_map@.len(),
    ensures
        shows_mask(
            payload,
            rx_flows::rx_address_at(at) + 24 + 4 * k,
            flow.channels_map@[k]@,
        ),
{
    lemma_rx_parts(info, slot, flow, at);
    let block = rx_flows::rx_flow_block(info, slot, flow, at);
    let masks = rx_flows::masks_bytes(flow.channels_map@);
    let place = rx_flows::rx_address_at(at) + 24;
    flow_lists::lemma_part(payload, at as int, block, place - at, masks);
    lemma_mask_stands(flow.channels_map@, k);
    flow_lists::lemma_part(
        payload,
        place as int,
        masks,
        4 * k,
        rx_flows::mask_bytes(flow.channels_map@[k]@),
    );
    lemma_mask_shown(payload, place + 4 * k, flow.channels_map@[k]@);
}

/// There are as many positions as flows in the slots.
proof fn lemma_rx_position_count(
    info: DeviceInfo,
    flows: Seq<Option<RxFlowInfo>>,
    start: int,
    end: int,
    at: nat,
)
    requires
        0 <= start <= end <= flows.len(),
    ensures
        rx_flows::rx_positions(info, flows, start, end, at).len() == flow_counts::in_use(
            flows,
            start,
            end,
        ),
    decreases end - start,
{
    if start < end {
        lemma_rx_position_count(info, flows, start, end - 1, at);
        flow_counts::lemma_one_more(flows, start, end - 1);
    } else {
        flow_counts::lemma_none(flows, start);
    }
}

/// The position of a flow is read where it is listed.
#[verifier::rlimit(40)]
#[verifier::spinoff_prover]
proof fn lemma_rx_listed(
    info: DeviceInfo,
    flows: Seq<Option<RxFlowInfo>>,
    start: int,
    slot: int,
    at: nat,
)
    requires
        0 <= start <= slot < start + flow_counts::listed_slots(flows, start),
        flows[slot] is Some,
        at == rx_flows::rx_flow_at(info, flows, start, slot),
        rx_flows::rx_flow_position(flows[slot]->0, at) < 0x10000,
    ensures
        tx_flows::place_of(
            rx_flows::rx_flows_payload(info, flows, start),
            flow_counts::in_use(flows, start, slot) as int,
        ) == rx_flows::rx_flow_position(flows[slot]->0, at) - 10,
{
    flow_counts::lemma_listed(flows, start);
    let payload = rx_flows::rx_flows_payload(info, flows, start);
    let n = flow_counts::listed_slots(flows, start);
    let first = 2 + 2 * n;
    let k = flow_counts::in_use(flows, start, slot) as int;
    rx_flows::rx_flow_position_is_listed(info, flows, start, slot);
    lemma_rx_position_count(info, flows, start, slot, first);
    let positions = rx_flows::rx_positions(info, flows, start, start + n, first);
    rx_flows::lemma_rx_positions(info, flows, start, start + n, first);
    flow_counts::lemma_header_read(n, positions);
    let header = flow_lists::flows_header(n, positions);
    assert(reading::number16(header, 2 + 2 * k) == positions[k]);
    assert(payload[2 + 2 * k] == header[2 + 2 * k]);
    assert(payload[2 + 2 * k + 1] == header[2 + 2 * k + 1]);
}

/// A list of received flows starts with the number of slots that it covers, twice. Behind the
/// positions of the flows stand zeros for the slots that hold none.
#[verifier::rlimit(40)]
#[verifier::spinoff_prover]
pub proof fn rx_list_starts_with_its_size(
    info: DeviceInfo,
    flows: Seq<Option<RxFlowInfo>>,
    start: int,
)
    requires
        0 <= start,
    ensures
        ({
            let payload = rx_flows::rx_flows_payload(info, flows, start);
            let n = flow_counts::listed_slots(flows, start);
            &&& payload.len() >= 2 + 2 * n
            &&& payload[0] == n
            &&& payload[1] == n
            &&& n == 0 ==> payload.len() == 2
            &&& n > 0 && flow_counts::in_use(flows, start, start + n) == 0 ==> payload.len() == 2 + 2
                * n
            &&& forall|k: int|
                flow_counts::in_use(flows, start, start + n) <= k < n
                    ==> #[trigger] reading::number16(payload, 2 + 2 * k) == 0
        }),
{
    flow_counts::lemma_listed(flows, start);
    let n = flow_counts::listed_slots(flows, start);
    let at = 2 + 2 * n;
    let positions = rx_flows::rx_positions(info, flows, start, start + n, at);
    rx_flows::lemma_rx_positions(info, flows, start, start + n, at);
    flow_counts::lemma_header_read(n, positions);
    let header = flow_lists::flows_header(n, positions);
    let payload = rx_flows::rx_flows_payload(info, flows, start);
    assert(payload[0] == header[0] && payload[1] == header[1]);
    if n > 0 {
        lemma_rx_position_count(info, flows, start, start + n, at);
        if flow_counts::in_use(flows, start, start + n) == 0 {
            flow_counts::lemma_none(flows, start);
            lemma_rx_empty_slots(info, flows, start, start, start + n, at);
            lemma_rx_list_len(info, flows, start);
        }
    }
    assert forall|k: int|
        flow_counts::in_use(flows, start, start + n) <= k < n implies #[trigger] reading::number16(
        payload,
        2 + 2 * k,
    ) == 0 by {
        assert(reading::number16(header, 2 + 2 * k) == 0);
        assert(payload[2 + 2 * k] == header[2 + 2 * k]);
        assert(payload[2 + 2 * k + 1] == header[2 + 2 * k + 1]);
    }
}

/// A reader of a list of received flows finds each flow at its listed position: its number, the
/// sample rate of the device, the address, the latency, and, for each place in the flow, the
/// channels that take their audio from it, in the mask whose offset is given for that place.
/// (Offsets have sixteen bits, so a longer list is left out.)
pub proof fn rx_flow_is_found_at_its_listed_position(
    info: DeviceInfo,
    flows: Seq<Option<RxFlowInfo>>,
    start: int,
    slot: int,
)
    requires
        rx_flows::rx_flows_encodable(info, flows, start),
        0 <= start <= slot < start + flow_counts::listed_slots(flows, start),
        flows[slot] is Some,
        rx_flows::rx_flows_payload(info, flows, start).len() + 10 < 0x10000,
    ensures
        ({
            let payload = rx_flows::rx_flows_payload(info, flows, start);
            let flow = flows[slot]->0;
            let place = tx_flows::place_of(
                payload,
                flow_counts::in_use(flows, start, slot) as int,
            );
            &&& shows_rx_parameters(payload, place, info, slot, flow)
            &&& shows_rx_address(
                payload,
                reading::number16(payload, place + 18) - 10,
                info,
                flow,
            )
            &&& forall|k: int|
                0 <= k < flow.channels_map@.len() ==> shows_mask(
                    payload,
                    reading::number16(payload, place + 20 + 2 * k) - 10,
                    #[trigger] flow.channels_map@[k]@,
                )
        }),
{
    flow_counts::lemma_listed(flows, start);
    let at = rx_flows::rx_flow_at(info, flows, start, slot);
    assert(rx_flows::rx_flow_encodable(info, flows[slot]->0));
    rx_flows::lemma_rx_block_stands(info, flows, start, slot);
    lemma_rx_found(info, flows, start, slot, at, rx_flows::rx_flows_payload(info, flows, start));
}

/// The same, from where the description of the flow stands.
#[verifier::rlimit(40)]
#[verifier::spinoff_prover]
proof fn lemma_rx_found(
    info: DeviceInfo,
    flows: Seq<Option<RxFlowInfo>>,
    start: int,
    slot: int,
    at: nat,
    payload: Seq<u8>,
)
    requires
        0 <= start <= slot < start + flow_counts::listed_slots(flows, start),
        flows[slot] is Some,
        rx_flows::rx_flow_encodable(info, flows[slot]->0),
        at == rx_flows::rx_flow_at(info, flows, start, slot),
        payload == rx_flows::rx_flows_payload(info, flows, start),
        payload.len() + 10 < 0x10000,
        flow_lists::stands_at(
            payload,
            at as int,
            rx_flows::rx_flow_block(info, slot, flows[slot]->0, at),
        ),
    ensures
        ({
            let flow = flows[slot]->0;
            let place = tx_flows::place_of(
                payload,
                flow_counts::in_use(flows, start, slot) as int,
            );
            &&& shows_rx_parameters(payload, place, info, slot, flow)
            &&& shows_rx_address(
                payload,
                reading::number16(payload, place + 18) - 10,
                info,
                flow,
            )
            &&& forall|k: int|
                0 <= k < flow.channels_map@.len() ==> shows_mask(
                    payload,
                    reading::number16(payload, place + 20 + 2 * k) - 10,
                    #[trigger] flow.channels_map@[k]@,
                )
        }),
{
    let flow = flows[slot]->0;
    let place = rx_flows::rx_flow_position(flow, at) - 10;
    lemma_rx_address(info, slot, flow, at, payload);
    lemma_rx_parameters(info, slot, flow, at, payload);
    lemma_rx_listed(info, flows, start, slot, at);
    assert forall|k: int| 0 <= k < flow.channels_map@.len() implies shows_mask(
        payload,
        reading::number16(payload, place + 20 + 2 * k) - 10,
        #[trigger] flow.channels_map@[k]@,
    ) by {
        lemma_rx_mask(info, slot, flow, at, payload, k);
    }
}

/// Where the description of a flow ends whose parameters stand at `place`.
pub open spec fn description_end(payload: Seq<u8>, place: int) -> int {
    place + 22 + 2 * reading::number16(payload, place + 14)
}

/// The address of the flow whose parameters stand at `place` stands behind `end`, with fewer than
/// four zero bytes in between.
pub open spec fn follows(payload: Seq<u8>, end: int, place: int) -> bool {
    let address = reading::number16(payload, place + 18) - 10;
    &&& end <= address < end + 4
    &&& reading::zero_from(payload, end, address - end)
}

/// The extent of the description of a flow.
#[verifier::rlimit(40)]
#[verifier::spinoff_prover]
proof fn lemma_rx_gap(
    info: DeviceInfo,
    slot: int,
    flow: RxFlowInfo,
    at: nat,
    payload: Seq<u8>,
)
    requires
        flow_lists::stands_at(
            payload,
            at as int,
            rx_flows::rx_flow_block(info, slot, flow, at),
        ),
    ensures
        ({
            let address = rx_flows::rx_address_at(at) as int;
            &&& at <= address < at + 4
            &&& reading::zero_from(payload, at as int, address - at)
            &&& rx_flows::rx_flow_block(info, slot, flow, at).len() == rx_flows::rx_flow_position(
                flow,
                at,
            ) - 10 - at + 22 + 2 * flow.channels_map@.len()
        }),
{
    lemma_rx_parts(info, slot, flow, at);
    let block = rx_flows::rx_flow_block(info, slot, flow, at);
    let address = rx_flows::rx_address_at(at) as int;
    reading::lemma_in_part(payload, at as int, block);
    wire::lemma_be16s_len(rx_flows::rx_mask_offsets(flow, at));
    assert forall|i: int| at <= i < address implies #[trigger] payload[i] == 0 by {
        assert(block[i - at] == payload[at + (i - at)]);
    }
}

/// Slots that hold no flow add nothing to the list.
proof fn lemma_rx_empty_slots(
    info: DeviceInfo,
    flows: Seq<Option<RxFlowInfo>>,
    start: int,
    middle: int,
    end: int,
    at: nat,
)
    requires
        0 <= start <= middle <= end <= flows.len(),
        flow_counts::in_use(flows, start, middle) == flow_counts::in_use(flows, start, end),
    ensures
        rx_flows::rx_blocks(info, flows, start, end, at) == rx_flows::rx_blocks(
            info,
            flows,
            start,
            middle,
            at,
        ),
    decreases end - middle,
{
    if middle < end {
        flow_counts::lemma_one_more(flows, start, end - 1);
        flow_counts::lemma_in_use_grows(flows, start, middle, end - 1);
        lemma_rx_empty_slots(info, flows, start, middle, end - 1, at);
    }
}

/// Where the description of a flow stands in the list.
#[verifier::rlimit(40)]
#[verifier::spinoff_prover]
proof fn lemma_rx_extent(
    info: DeviceInfo,
    flows: Seq<Option<RxFlowInfo>>,
    start: int,
    slot: int,
)
    requires
        rx_flows::rx_flows_encodable(info, flows, start),
        0 <= start <= slot < start + flow_counts::listed_slots(flows, start),
        flows[slot] is Some,
        rx_flows::rx_flows_payload(info, flows, start).len() + 10 < 0x10000,
    ensures
        ({
            let payload = rx_flows::rx_flows_payload(info, flows, start);
            let first = 2 + 2 * flow_counts::listed_slots(flows, start);
            let place = tx_flows::place_of(
                payload,
                flow_counts::in_use(flows, start, slot) as int,
            );
            &&& follows(
                payload,
                (first + rx_flows::rx_blocks(info, flows, start, slot, first).len()) as int,
                place,
            )
            &&& description_end(payload, place) == first + rx_flows::rx_blocks(
                info,
                flows,
                start,
                slot + 1,
                first,
            ).len()
        }),
{
    flow_counts::lemma_listed(flows, start);
    let payload = rx_flows::rx_flows_payload(info, flows, start);
    let flow = flows[slot]->0;
    let at = rx_flows::rx_flow_at(info, flows, start, slot);
    assert(rx_flows::rx_flow_encodable(info, flow));
    rx_flows::lemma_rx_block_stands(info, flows, start, slot);
    lemma_rx_parameters(info, slot, flow, at, payload);
    lemma_rx_listed(info, flows, start, slot, at);
    lemma_rx_gap(info, slot, flow, at, payload);
}

/// The list is its header and the descriptions.
#[verifier::rlimit(40)]
#[verifier::spinoff_prover]
proof fn lemma_rx_list_len(info: DeviceInfo, flows: Seq<Option<RxFlowInfo>>, start: int)
    requires
        0 <= start,
    ensures
        ({
            let n = flow_counts::listed_slots(flows, start);
            rx_flows::rx_flows_payload(info, flows, start).len() == 2 + 2 * n
                + rx_flows::rx_blocks(info, flows, start, start + n, 2 + 2 * n).len()
        }),
{
    flow_counts::lemma_listed(flows, start);
    let n = flow_counts::listed_slots(flows, start);
    rx_flows::lemma_rx_positions(info, flows, start, start + n, 2 + 2 * n);
    flow_counts::lemma_header_read(
        n,
        rx_flows::rx_positions(info, flows, start, start + n, 2 + 2 * n),
    );
}

/// The descriptions of received flows follow each other from behind the positions to the end of the
/// list, with fewer than four zero bytes in front of each.
#[verifier::rlimit(40)]
#[verifier::spinoff_prover]
pub proof fn rx_descriptions_follow_each_other(
    info: DeviceInfo,
    flows: Seq<Option<RxFlowInfo>>,
    start: int,
    slot: int,
)
    requires
        rx_flows::rx_flows_encodable(info, flows, start),
        0 <= start <= slot < start + flow_counts::listed_slots(flows, start),
        flows[slot] is Some,
        rx_flows::rx_flows_payload(info, flows, start).len() + 10 < 0x10000,
    ensures
        ({
            let payload = rx_flows::rx_flows_payload(info, flows, start);
            let n = flow_counts::listed_slots(flows, start) as int;
            let k = flow_counts::in_use(flows, start, slot) as int;
            let place = tx_flows::place_of(payload, k);
            &&& k == 0 ==> follows(payload, 2 + 2 * n, place)
            &&& k > 0 ==> follows(
                payload,
                description_end(payload, tx_flows::place_of(payload, k - 1)),
                place,
            )
            &&& k + 1 == flow_counts::in_use(flows, start, start + n) ==> description_end(
                payload,
                place,
            ) == payload.len()
        }),
{
    flow_counts::lemma_listed(flows, start);
    let n = flow_counts::listed_slots(flows, start) as int;
    let first = (2 + 2 * n) as nat;
    let k = flow_counts::in_use(flows, start, slot) as int;
    lemma_rx_extent(info, flows, start, slot);
    if k == 0 {
        flow_counts::lemma_none(flows, start);
        lemma_rx_empty_slots(info, flows, start, start, slot, first);
    } else {
        let before = flow_counts::lemma_last_used(flows, start, slot);
        lemma_rx_extent(info, flows, start, before);
        flow_counts::lemma_one_more(flows, start, before);
        lemma_rx_empty_slots(info, flows, start, before + 1, slot, first);
    }
    if k + 1 == flow_counts::in_use(flows, start, start + n) {
        flow_counts::lemma_one_more(flows, start, slot);
        lemma_rx_empty_slots(info, flows, start, slot + 1, start + n, first);
        lemma_rx_list_len(info, flows, start);
    }
}

} // verus!
