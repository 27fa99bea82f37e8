//! What a reader finds in the list of transmitted flows.
use vstd::prelude::*;
use vstd::utf8::*;

use crate::arc_server::flow_lists;
use crate::arc_server::tx_flows;
use crate::device_info::{DeviceInfo, TxFlowInfo};
use crate::laws::flow_counts;
use crate::laws::reading;
use crate::text;
use crate::wire;

verus! {

/// The number of the channel in a place of a flow, counted from one; zero where there is none.
pub open spec fn channel_number(channel: Option<usize>) -> int {
    match channel {
        Some(index) => index + 1,
        None => 0,
    }
}

/// Where in the payload the `k`th listed flow is described.
pub open spec fn place_of(payload: Seq<u8>, k: int) -> int {
    reading::number16(payload, 2 + 2 * k) - 10
}

/// The parameters of the flow in a slot are read from `place` on.
pub open spec fn shows_tx_parameters(
    payload: Seq<u8>,
    place: int,
    info: DeviceInfo,
    slot: int,
    flow: TxFlowInfo,
) -> bool {
    let n = flow.local_channel_indices@.len() as int;
    &&& 0 <= place
    &&& place + 20 + 2 * n <= payload.len()
    &&& reading::number16(payload, place) == slot + 1
    &&& reading::number16(payload, place + 2) == 0x11
    &&& reading::number32(payload, place + 4) == info.sample_rate
    &&& reading::number16(payload, place + 8) == 0
    &&& reading::number16(payload, place + 10) == 0x18
    &&& reading::number16(payload, place + 12) == 1
    &&& reading::number16(payload, place + 14) == n
    &&& forall|i: int|
        0 <= i < n ==> #[trigger] reading::number16(payload, place + 18 + 2 * i) == channel_number(
            flow.local_channel_indices@[i],
        )
    &&& reading::number16(payload, place + 18 + 2 * n) == reading::number16(payload, place + 16) - 2
}

/// Where a flow is sent to, and the offsets of its names, are read from `place` on, which is a
/// multiple of four bytes from the start of the packet.
pub open spec fn shows_tx_destination(
    payload: Seq<u8>,
    place: int,
    slot: int,
    process_id: u16,
    flow: TxFlowInfo,
) -> bool {
    &&& 0 <= place
    &&& place + 28 <= payload.len()
    &&& (place + 10) % 4 == 0
    &&& reading::number16(payload, place) == 0x0802
    &&& reading::number16(payload, place + 2) == flow.rx_port
    &&& payload.subrange(place + 4, place + 8) == flow.rx_addr@
    &&& payload[place + 8] == 0x0a
    &&& payload[place + 9] == 0
    &&& payload[place + 10] == 0
    &&& payload[place + 11] == 1
    &&& reading::spells(payload, reading::number16(payload, place + 12) - 10, flow.rx_hostname@)
    &&& reading::spells(payload, reading::number16(payload, place + 14) - 10, flow.rx_flow_name@)
    &&& reading::number16(payload, place + 16) == 0x10
    &&& reading::spells(
        payload,
        reading::number16(payload, place + 18) - 10,
        text::decimal((slot + 1) as nat) + seq!['_'] + text::decimal(process_id as nat),
    )
    &&& reading::zero_from(payload, place + 20, 8)
}

/// The parts of the description of a flow.
#[verifier::rlimit(40)]
#[verifier::spinoff_prover]
proof fn lemma_tx_parts(info: DeviceInfo, slot: int, flow: TxFlowInfo, at: nat)
    ensures
        ({
            let block = tx_flows::tx_flow_block(info, slot, flow, at);
            let own = text::zero_terminated(tx_flows::tx_flow_name(info, slot));
            let host = text::zero_terminated(flow.rx_hostname@);
            let remote = text::zero_terminated(flow.rx_flow_name@);
            let names = (own.len() + host.len() + remote.len()) as nat;
            let d = names + flow_lists::padding(at + names);
            let parameters = tx_flows::tx_parameters(info, slot, flow, at + d);
            &&& tx_flows::tx_destination_at(info, slot, flow, at) == at + d
            &&& flow_lists::stands_at(block, 0, own)
            &&& flow_lists::stands_at(block, own.len() as int, host)
            &&& flow_lists::stands_at(block, (own.len() + host.len()) as int, remote)
            &&& flow_lists::stands_at(
                block,
                d as int,
                flow_lists::destination_bytes(flow.rx_port, flow.rx_addr@),
            )
            &&& flow_lists::stands_at(
                block,
                (d + 8) as int,
                tx_flows::tx_name_offsets(info, slot, flow, at),
            )
            &&& flow_lists::stands_at(block, (d + 28) as int, parameters)
            &&& block.len() == d + 28 + parameters.len()
            &&& reading::zero_from(block, names as int, d - names)
        }),
{
    reveal(tx_flows::tx_flow_block);
    let block = tx_flows::tx_flow_block(info, slot, flow, at);
    let own = text::zero_terminated(tx_flows::tx_flow_name(info, slot));
    let host = text::zero_terminated(flow.rx_hostname@);
    let remote = text::zero_terminated(flow.rx_flow_name@);
    let names = tx_flows::tx_flow_names(info, slot, flow);
    let d = (names.len() + flow_lists::padding(at + names.len())) as int;
    let to = flow_lists::destination_bytes(flow.rx_port, flow.rx_addr@);
    let offsets = tx_flows::tx_name_offsets(info, slot, flow, at);
    let parameters = tx_flows::tx_parameters(info, slot, flow, (at + d) as nat);
    assert(to.len() == 8);
    assert(offsets.len() == 20);
    assert(names == own + host + remote);
    assert(forall|i: int| 0 <= i < names.len() ==> block[i] == names[i]);
    assert(block.subrange(0, own.len() as int) =~= own);
    assert(block.subrange(own.len() as int, (own.len() + host.len()) as int) =~= host);
    assert(block.subrange((own.len() + host.len()) as int, names.len() as int) =~= remote);
    assert(block.subrange(d, d + 8) =~= to);
    assert(block.subrange(d + 8, d + 28) =~= offsets);
    assert(block.subrange(d + 28, d + 28 + parameters.len()) =~= parameters);
    assert(block.len() == d + 28 + parameters.len());
    assert forall|i: int| names.len() <= i < d implies #[trigger] block[i] == 0 by {}
}

/// What stands in the parameters of a flow.
#[verifier::rlimit(40)]
#[verifier::spinoff_prover]
proof fn lemma_tx_parameters_read(
    info: DeviceInfo,
    slot: int,
    flow: TxFlowInfo,
    destination: nat,
    payload: Seq<u8>,
    place: int,
)
    requires
        tx_flows::tx_flow_encodable(slot, flow),
        0 <= slot,
        destination + 10 < 0x10000,
        flow_lists::stands_at(
            payload,
            place,
            tx_flows::tx_parameters(info, slot, flow, destination),
        ),
    ensures
        shows_tx_parameters(payload, place, info, slot, flow),
        reading::number16(payload, place + 16) == destination + 10,
{
    let p = tx_flows::tx_parameters(info, slot, flow, destination);
    let n = flow.local_channel_indices@.len() as int;
    let numbers = tx_flows::tx_channel_numbers(flow);
    wire::lemma_be16s_len(numbers);
    let head = wire::be16((slot + 1) as u16) + wire::be16(0x11) + wire::be32(info.sample_rate)
        + wire::be16(0) + wire::be16(0x18) + wire::be16(1) + wire::be16(n as u16) + wire::be16(
        wire::low16((destination + 10) as int),
    );
    let tail = wire::be16(wire::low16((destination + 8) as int));
    assert(head.len() == 18);
    assert(p =~= head + wire::be16s(numbers) + tail);
    assert(p.len() == 20 + 2 * n);
    reading::lemma_in_part(payload, place, p);
    assert(reading::number16(p, 0) == slot + 1 && reading::number16(p, 2) == 0x11
        && reading::number32(p, 4) == info.sample_rate && reading::number16(p, 8) == 0
        && reading::number16(p, 10) == 0x18 && reading::number16(p, 12) == 1 && reading::number16(
        p,
        14,
    ) == n && reading::number16(p, 16) == destination + 10) by {
        assert(forall|i: int| 0 <= i < 18 ==> #[trigger] p[i] == head[i]);
        reading::lemma_read16(head, 0, (slot + 1) as u16);
        reading::lemma_read16(head, 2, 0x11);
        reading::lemma_read32(head, 4, info.sample_rate);
        reading::lemma_read16(head, 8, 0);
        reading::lemma_read16(head, 10, 0x18);
        reading::lemma_read16(head, 12, 1);
        reading::lemma_read16(head, 14, n as u16);
        reading::lemma_read16(head, 16, wire::low16((destination + 10) as int));
    }
    assert(reading::number16(p, 18 + 2 * n) == destination + 8) by {
        assert(p[18 + 2 * n] == tail[0] && p[18 + 2 * n + 1] == tail[1]);
        reading::lemma_read16(tail, 0, wire::low16((destination + 8) as int));
    }
    assert forall|i: int| 0 <= i < n implies #[trigger] reading::number16(
        payload,
        place + 18 + 2 * i,
    ) == channel_number(flow.local_channel_indices@[i]) by {
        reading::lemma_read16s(numbers, i);
        assert(p[18 + 2 * i] == wire::be16s(numbers)[2 * i]);
        assert(p[18 + 2 * i + 1] == wire::be16s(numbers)[2 * i + 1]);
        assert(reading::number16(p, 18 + 2 * i) == reading::number16(
            payload,
            place + (18 + 2 * i),
        ));
    }
    assert(reading::number16(p, 0) == reading::number16(payload, place + 0));
}

/// What is read of the address that a flow goes to.
#[verifier::rlimit(40)]
#[verifier::spinoff_prover]
pub(crate) proof fn lemma_address_read(payload: Seq<u8>, place: int, port: u16, addr: Seq<u8>)
    requires
        addr.len() == 4,
        flow_lists::stands_at(payload, place, flow_lists::destination_bytes(port, addr)),
    ensures
        place + 8 <= payload.len(),
        reading::number16(payload, place) == 0x0802,
        reading::number16(payload, place + 2) == port,
        payload.subrange(place + 4, place + 8) == addr,
{
    let to = flow_lists::destination_bytes(port, addr);
    assert(to.len() == 8);
    reading::lemma_in_part(payload, place, to);
    reading::lemma_read16(to, 0, 0x0802);
    reading::lemma_read16(to, 2, port);
    assert(reading::number16(to, 0) == reading::number16(payload, place + 0));
    assert forall|i: int| 0 <= i < 4 implies payload[place + 4 + i] == addr[i] by {
        assert(to[4 + i] == addr[i]);
        assert(to[4 + i] == payload[place + (4 + i)]);
    }
    assert(payload.subrange(place + 4, place + 8) =~= addr);
}

/// What is read of the offsets of the names of a flow.
#[verifier::rlimit(40)]
#[verifier::spinoff_prover]
proof fn lemma_name_offsets_read(
    info: DeviceInfo,
    slot: int,
    flow: TxFlowInfo,
    at: nat,
    payload: Seq<u8>,
    place: int,
)
    requires
        flow_lists::stands_at(payload, place, tx_flows::tx_name_offsets(info, slot, flow, at)),
        at + text::zero_terminated(tx_flows::tx_flow_name(info, slot)).len()
            + text::zero_terminated(flow.rx_hostname@).len() + 10 < 0x10000,
    ensures
        ({
            let own = text::zero_terminated(tx_flows::tx_flow_name(info, slot));
            let host = text::zero_terminated(flow.rx_hostname@);
            &&& place + 20 <= payload.len()
            &&& payload[place] == 0x0a
            &&& payload[place + 1] == 0
            &&& payload[place + 2] == 0
            &&& payload[place + 3] == 1
            &&& reading::number16(payload, place + 4) == at + own.len() + 10
            &&& reading::number16(payload, place + 6) == at + own.len() + host.len() + 10
            &&& reading::number16(payload, place + 8) == 0x10
            &&& reading::number16(payload, place + 10) == at + 10
            &&& reading::zero_from(payload, place + 12, 8)
        }),
{
    let own = text::zero_terminated(tx_flows::tx_flow_name(info, slot));
    let host = text::zero_terminated(flow.rx_hostname@);
    let offsets = tx_flows::tx_name_offsets(info, slot, flow, at);
    assert(offsets.len() == 20);
    reading::lemma_in_part(payload, place, offsets);
    reading::lemma_read16(offsets, 4, wire::low16((at + 10 + own.len()) as int));
    reading::lemma_read16(offsets, 6, wire::low16((at + 10 + own.len() + host.len()) as int));
    reading::lemma_read16(offsets, 8, 0x10);
    reading::lemma_read16(offsets, 10, wire::low16((at + 10) as int));
    assert(offsets[0] == payload[place + 0]);
    assert(offsets[1] == payload[place + 1]);
    assert(offsets[2] == payload[place + 2]);
    assert(offsets[3] == payload[place + 3]);
    assert forall|i: int| place + 12 <= i < place + 20 implies #[trigger] payload[i] == 0 by {
        assert(offsets[i - place] == payload[place + (i - place)]);
        assert(offsets[i - place] == 0);
    }
}

/// The names of a flow are spelled where its description starts.
#[verifier::rlimit(40)]
#[verifier::spinoff_prover]
proof fn lemma_tx_names(
    info: DeviceInfo,
    slot: int,
    flow: TxFlowInfo,
    at: nat,
    payload: Seq<u8>,
)
    requires
        flow_lists::stands_at(
            payload,
            at as int,
            tx_flows::tx_flow_block(info, slot, flow, at),
        ),
    ensures
        ({
            let own = text::zero_terminated(tx_flows::tx_flow_name(info, slot));
            let host = text::zero_terminated(flow.rx_hostname@);
            &&& reading::spells(payload, at as int, tx_flows::tx_flow_name(info, slot))
            &&& reading::spells(payload, (at + own.len()) as int, flow.rx_hostname@)
            &&& reading::spells(payload, (at + own.len() + host.len()) as int, flow.rx_flow_name@)
        }),
{
    lemma_tx_parts(info, slot, flow, at);
    let block = tx_flows::tx_flow_block(info, slot, flow, at);
    let own = text::zero_terminated(tx_flows::tx_flow_name(info, slot));
    let host = text::zero_terminated(flow.rx_hostname@);
    let remote = text::zero_terminated(flow.rx_flow_name@);
    flow_lists::lemma_part(payload, at as int, block, 0, own);
    flow_lists::lemma_part(payload, at as int, block, own.len() as int, host);
    flow_lists::lemma_part(payload, at as int, block, (own.len() + host.len()) as int, remote);
    reading::lemma_spells(payload, at as int, tx_flows::tx_flow_name(info, slot));
    reading::lemma_spells(payload, (at + own.len()) as int, flow.rx_hostname@);
    reading::lemma_spells(payload, (at + own.len() + host.len()) as int, flow.rx_flow_name@);
}

/// The address of a flow is read behind its names.
#[verifier::rlimit(40)]
#[verifier::spinoff_prover]
proof fn lemma_tx_address(
    info: DeviceInfo,
    slot: int,
    flow: TxFlowInfo,
    at: nat,
    payload: Seq<u8>,
)
    requires
        flow_lists::stands_at(
            payload,
            at as int,
            tx_flows::tx_flow_block(info, slot, flow, at),
        ),
    ensures
        ({
            let place = tx_flows::tx_destination_at(info, slot, flow, at) as int;
            &&& place + 8 <= payload.len()
            &&& reading::number16(payload, place) == 0x0802
            &&& reading::number16(payload, place + 2) == flow.rx_port
            &&& payload.subrange(place + 4, place + 8) == flow.rx_addr@
        }),
{
    lemma_tx_parts(info, slot, flow, at);
    let place = tx_flows::tx_destination_at(info, slot, flow, at) as int;
    let to = flow_lists::destination_bytes(flow.rx_port, flow.rx_addr@);
    let block = tx_flows::tx_flow_block(info, slot, flow, at);
    flow_lists::lemma_part(payload, at as int, block, place - at, to);
    lemma_address_read(payload, place, flow.rx_port, flow.rx_addr@);
}

/// The offsets of the names of a flow are read behind its address.
#[verifier::rlimit(40)]
#[verifier::spinoff_prover]
proof fn lemma_tx_offsets(
    info: DeviceInfo,
    slot: int,
    flow: TxFlowInfo,
    at: nat,
    payload: Seq<u8>,
)
    requires
        flow_lists::stands_at(
            payload,
            at as int,
            tx_flows::tx_flow_block(info, slot, flow, at),
        ),
        payload.len() + 10 < 0x10000,
    ensures
        ({
            let own = text::zero_terminated(tx_flows::tx_flow_name(info, slot));
            let host = text::zero_terminated(flow.rx_hostname@);
            let place = tx_flows::tx_destination_at(info, slot, flow, at) as int + 8;
            &&& place + 20 <= payload.len()
            &&& payload[place] == 0x0a
            &&& payload[place + 1] == 0
            &&& payload[place + 2] == 0
            &&& payload[place + 3] == 1
            &&& reading::number16(payload, place + 4) == at + own.len() + 10
            &&& reading::number16(payload, place + 6) == at + own.len() + host.len() + 10
            &&& reading::number16(payload, place + 8) == 0x10
            &&& reading::number16(payload, place + 10) == at + 10
            &&& reading::zero_from(payload, place + 12, 8)
        }),
{
    lemma_tx_parts(info, slot, flow, at);
    let place = tx_flows::tx_destination_at(info, slot, flow, at) as int + 8;
    let offsets = tx_flows::tx_name_offsets(info, slot, flow, at);
    let block = tx_flows::tx_flow_block(info, slot, flow, at);
    flow_lists::lemma_part(payload, at as int, block, place - at, offsets);
    lemma_name_offsets_read(info, slot, flow, at, payload, place);
}

/// What stands around the destination of a flow.
#[verifier::rlimit(40)]
#[verifier::spinoff_prover]
proof fn lemma_tx_destination_read(
    info: DeviceInfo,
    slot: int,
    flow: TxFlowInfo,
    at: nat,
    payload: Seq<u8>,
)
    requires
        0 <= slot,
        flow_lists::stands_at(
            payload,
            at as int,
            tx_flows::tx_flow_block(info, slot, flow, at),
        ),
        payload.len() + 10 < 0x10000,
    ensures
        shows_tx_destination(
            payload,
            tx_flows::tx_destination_at(info, slot, flow, at) as int,
            slot,
            info.process_id,
            flow,
        ),
{
    lemma_tx_names(info, slot, flow, at, payload);
    lemma_tx_address(info, slot, flow, at, payload);
    lemma_tx_offsets(info, slot, flow, at, payload);
}

/// There are as many positions as flows in the slots.
pub(crate) proof fn lemma_tx_position_count(
    info: DeviceInfo,
    flows: Seq<Option<TxFlowInfo>>,
    start: int,
    end: int,
    at: nat,
)
    requires
        0 <= start <= end <= flows.len(),
    ensures
        tx_flows::tx_positions(info, flows, start, end, at).len() == flow_counts::in_use(
            flows,
            start,
            end,
        ),
    decreases end - start,
{
    if start < end {
        lemma_tx_position_count(info, flows, start, end - 1, at);
        flow_counts::lemma_one_more(flows, start, end - 1);
    } else {
        flow_counts::lemma_none(flows, start);
    }
}

/// A list of transmitted flows starts with the number of slots that it covers, twice. Behind the
/// positions of the flows stand zeros for the slots that hold none.
#[verifier::rlimit(40)]
#[verifier::spinoff_prover]
pub proof fn tx_list_starts_with_its_size(
    info: DeviceInfo,
    flows: Seq<Option<TxFlowInfo>>,
    start: int,
)
    requires
        0 <= start,
    ensures
        ({
            let payload = tx_flows::tx_flows_payload(info, flows, start);
            let n = flow_counts::listed_slots(flows, start);
            &&& payload.len() >= 2 + 2 * n
            &&& payload[0] == n
            &&& payload[1] == n
            &&& n == 0 ==> payload.len() == 2
            &&& n > 0 && flow_counts::in_use(flows, start, start + n) == 0 ==> payload.len() == 2 + 2
                * n
            &&& forall|k: int|
                flow_counts::in_use(flows, start, start + n) <= k < n
                    ==> #[trigger] reading::number16(payload, 2 + 2 * k) == 0
        }),
{
    flow_counts::lemma_listed(flows, start);
    let n = flow_counts::listed_slots(flows, start);
    let at = 2 + 2 * n;
    let positions = tx_flows::tx_positions(info, flows, start, start + n, at);
    tx_flows::lemma_tx_positions(info, flows, start, start + n, at);
    flow_counts::lemma_header_read(n, positions);
    let header = flow_lists::flows_header(n, positions);
    let payload = tx_flows::tx_flows_payload(info, flows, start);
    assert(payload[0] == header[0] && payload[1] == header[1]);
    if n > 0 {
        lemma_tx_position_count(info, flows, start, start + n, at);
        if flow_counts::in_use(flows, start, start + n) == 0 {
            flow_counts::lemma_none(flows, start);
            lemma_tx_empty_slots(info, flows, start, start, start + n, at);
            lemma_tx_list_len(info, flows, start);
        }
    }
    assert forall|k: int|
        flow_counts::in_use(flows, start, start + n) <= k < n implies #[trigger] reading::number16(
        payload,
        2 + 2 * k,
    ) == 0 by {
        assert(reading::number16(header, 2 + 2 * k) == 0);
        assert(payload[2 + 2 * k] == header[2 + 2 * k]);
        assert(payload[2 + 2 * k + 1] == header[2 + 2 * k + 1]);
    }
}

/// The parameters of a flow are read behind the offsets of its names.
#[verifier::rlimit(40)]
#[verifier::spinoff_prover]
proof fn lemma_tx_parameters(
    info: DeviceInfo,
    slot: int,
    flow: TxFlowInfo,
    at: nat,
    payload: Seq<u8>,
)
    requires
        0 <= slot,
        tx_flows::tx_flow_encodable(slot, flow),
        flow_lists::stands_at(
            payload,
            at as int,
            tx_flows::tx_flow_block(info, slot, flow, at),
        ),
        payload.len() + 10 < 0x10000,
    ensures
        ({
            let d = tx_flows::tx_destination_at(info, slot, flow, at) as int;
            &&& shows_tx_parameters(payload, d + 28, info, slot, flow)
            &&& reading::number16(payload, d + 28 + 16) == d + 10
        }),
{
    lemma_tx_parts(info, slot, flow, at);
    let block = tx_flows::tx_flow_block(info, slot, flow, at);
    let d = tx_flows::tx_destination_at(info, slot, flow, at);
    let parameters = tx_flows::tx_parameters(info, slot, flow, d);
    flow_lists::lemma_part(payload, at as int, block, d + 28 - at, parameters);
    lemma_tx_parameters_read(info, slot, flow, d, payload, (d + 28) as int);
}

/// The position of a flow is read where it is listed.
#[verifier::rlimit(40)]
#[verifier::spinoff_prover]
proof fn lemma_tx_listed(
    info: DeviceInfo,
    flows: Seq<Option<TxFlowInfo>>,
    start: int,
    slot: int,
    at: nat,
)
    requires
        0 <= start <= slot < start + flow_counts::listed_slots(flows, start),
        flows[slot] is Some,
        at == tx_flows::tx_flow_at(info, flows, start, slot),
        tx_flows::tx_flow_position(info, slot, flows[slot]->0, at) < 0x10000,
    ensures
        place_of(
            tx_flows::tx_flows_payload(info, flows, start),
            flow_counts::in_use(flows, start, slot) as int,
        ) == tx_flows::tx_flow_position(info, slot, flows[slot]->0, at) - 10,
{
    flow_counts::lemma_listed(flows, start);
    let payload = tx_flows::tx_flows_payload(info, flows, start);
    let n = flow_counts::listed_slots(flows, start);
    let first = 2 + 2 * n;
    let k = flow_counts::in_use(flows, start, slot) as int;
    tx_flows::tx_flow_position_is_listed(info, flows, start, slot);
    lemma_tx_position_count(info, flows, start, slot, first);
    let positions = tx_flows::tx_positions(info, flows, start, start + n, first);
    tx_flows::lemma_tx_positions(info, flows, start, start + n, first);
    flow_counts::lemma_header_read(n, positions);
    let header = flow_lists::flows_header(n, positions);
    assert(reading::number16(header, 2 + 2 * k) == positions[k]);
    assert(payload[2 + 2 * k] == header[2 + 2 * k]);
    assert(payload[2 + 2 * k + 1] == header[2 + 2 * k + 1]);
}

/// A reader of a list of transmitted flows finds each flow at its listed position: its number, the
/// sample rate of the device, its channels, and through the offset that stands there its
/// destination and its names. The position of a flow is listed behind those of the flows in the
/// slots before it. (Offsets have sixteen bits, so a longer list is left out.)
#[verifier::rlimit(40)]
#[verifier::spinoff_prover]
pub proof fn tx_flow_is_found_at_its_listed_position(
    info: DeviceInfo,
    flows: Seq<Option<TxFlowInfo>>,
    start: int,
    slot: int,
)
    requires
        tx_flows::tx_flows_encodable(flows, start),
        0 <= start <= slot < start + flow_counts::listed_slots(flows, start),
        flows[slot] is Some,
        tx_flows::tx_flows_payload(info, flows, start).len() + 10 < 0x10000,
    ensures
        ({
            let payload = tx_flows::tx_flows_payload(info, flows, start);
            let flow = flows[slot]->0;
            let place = place_of(payload, flow_counts::in_use(flows, start, slot) as int);
            let destination = reading::number16(payload, place + 16) - 10;
            &&& shows_tx_parameters(payload, place, info, slot, flow)
            &&& shows_tx_destination(payload, destination, slot, info.process_id, flow)
            &&& place == destination + 28
        }),
{
    flow_counts::lemma_listed(flows, start);
    let payload = tx_flows::tx_flows_payload(info, flows, start);
    let flow = flows[slot]->0;
    let at = tx_flows::tx_flow_at(info, flows, start, slot);
    assert(tx_flows::tx_flow_encodable(slot, flow));
    tx_flows::lemma_tx_block_stands(info, flows, start, slot);
    lemma_tx_found(info, flows, start, slot, at, payload);
}

/// The same, from where the description of the flow stands.
#[verifier::rlimit(40)]
#[verifier::spinoff_prover]
proof fn lemma_tx_found(
    info: DeviceInfo,
    flows: Seq<Option<TxFlowInfo>>,
    start: int,
    slot: int,
    at: nat,
    payload: Seq<u8>,
)
    requires
        0 <= start <= slot < start + flow_counts::listed_slots(flows, start),
        flows[slot] is Some,
        tx_flows::tx_flow_encodable(slot, flows[slot]->0),
        at == tx_flows::tx_flow_at(info, flows, start, slot),
        payload == tx_flows::tx_flows_payload(info, flows, start),
        payload.len() + 10 < 0x10000,
        flow_lists::stands_at(
            payload,
            at as int,
            tx_flows::tx_flow_block(info, slot, flows[slot]->0, at),
        ),
    ensures
        ({
            let flow = flows[slot]->0;
            let place = place_of(payload, flow_counts::in_use(flows, start, slot) as int);
            let destination = reading::number16(payload, place + 16) - 10;
            &&& shows_tx_parameters(payload, place, info, slot, flow)
            &&& shows_tx_destination(payload, destination, slot, info.process_id, flow)
            &&& place == destination + 28
        }),
{
    let flow = flows[slot]->0;
    lemma_tx_destination_read(info, slot, flow, at, payload);
    lemma_tx_parameters(info, slot, flow, at, payload);
    lemma_tx_listed(info, flows, start, slot, at);
}

/// Where the description of a flow starts whose parameters stand at `place`: with the flow's own name.
pub open spec fn description_start(payload: Seq<u8>, place: int) -> int {
    reading::number16(payload, reading::number16(payload, place + 16) - 10 + 18) - 10
}

/// Where the description of a flow ends whose parameters stand at `place`.
pub open spec fn description_end(payload: Seq<u8>, place: int) -> int {
    place + 20 + 2 * reading::number16(payload, place + 14)
}

/// The size of a text with its zero byte.
pub open spec fn size_of(t: Seq<char>) -> int {
    encode_utf8(t).len() as int + 1
}

/// The names of a flow follow each other from the start of its description on: its own, that of the
/// other device, that of the flow there. Fewer than four zero bytes bring the packet to a multiple of
/// four bytes, where the destination stands.
pub open spec fn is_packed(payload: Seq<u8>, place: int, flow: TxFlowInfo, own: Seq<char>) -> bool {
    let destination = reading::number16(payload, place + 16) - 10;
    let start = description_start(payload, place);
    let end = start + size_of(own) + size_of(flow.rx_hostname@) + size_of(flow.rx_flow_name@);
    &&& reading::number16(payload, destination + 12) == start + 10 + size_of(own)
    &&& reading::number16(payload, destination + 14) == start + 10 + size_of(own) + size_of(
        flow.rx_hostname@,
    )
    &&& end <= destination < end + 4
    &&& reading::zero_from(payload, end, destination - end)
}

#[verifier::rlimit(40)]
#[verifier::spinoff_prover]
proof fn lemma_tx_packed(
    info: DeviceInfo,
    slot: int,
    flow: TxFlowInfo,
    at: nat,
    payload: Seq<u8>,
)
    requires
        0 <= slot,
        tx_flows::tx_flow_encodable(slot, flow),
        flow_lists::stands_at(
            payload,
            at as int,
            tx_flows::tx_flow_block(info, slot, flow, at),
        ),
        payload.len() + 10 < 0x10000,
    ensures
        ({
            let place = tx_flows::tx_destination_at(info, slot, flow, at) + 28;
            &&& is_packed(payload, place as int, flow, tx_flows::tx_flow_name(info, slot))
            &&& description_start(payload, place as int) == at
            &&& description_end(payload, place as int) == at + tx_flows::tx_flow_block(
                info,
                slot,
                flow,
                at,
            ).len()
        }),
{
    lemma_tx_parameters(info, slot, flow, at, payload);
    lemma_tx_offsets(info, slot, flow, at, payload);
    lemma_tx_gap(info, slot, flow, at, payload);
}

/// The bytes between the names and the destination of a flow are zero.
#[verifier::rlimit(40)]
#[verifier::spinoff_prover]
proof fn lemma_tx_gap(
    info: DeviceInfo,
    slot: int,
    flow: TxFlowInfo,
    at: nat,
    payload: Seq<u8>,
)
    requires
        flow_lists::stands_at(
            payload,
            at as int,
            tx_flows::tx_flow_block(info, slot, flow, at),
        ),
    ensures
        ({
            let end = at + size_of(tx_flows::tx_flow_name(info, slot)) + size_of(flow.rx_hostname@)
                + size_of(flow.rx_flow_name@);
            let destination = tx_flows::tx_destination_at(info, slot, flow, at) as int;
            &&& end <= destination < end + 4
            &&& reading::zero_from(payload, end, destination - end)
            &&& tx_flows::tx_flow_block(info, slot, flow, at).len() == destination - at + 28 + 20 + 2
                * flow.local_channel_indices@.len()
        }),
{
    lemma_tx_parts(info, slot, flow, at);
    let block = tx_flows::tx_flow_block(info, slot, flow, at);
    let end = at + size_of(tx_flows::tx_flow_name(info, slot)) + size_of(flow.rx_hostname@)
        + size_of(flow.rx_flow_name@);
    let destination = tx_flows::tx_destination_at(info, slot, flow, at) as int;
    reading::lemma_in_part(payload, at as int, block);
    wire::lemma_be16s_len(tx_flows::tx_channel_numbers(flow));
    assert forall|i: int| end <= i < destination implies #[trigger] payload[i] == 0 by {
        assert(block[i - at] == payload[at + (i - at)]);
    }
}

/// Slots that hold no flow add nothing to the list.
proof fn lemma_tx_empty_slots(
    info: DeviceInfo,
    flows: Seq<Option<TxFlowInfo>>,
    start: int,
    middle: int,
    end: int,
    at: nat,
)
    requires
        0 <= start <= middle <= end <= flows.len(),
        flow_counts::in_use(flows, start, middle) == flow_counts::in_use(flows, start, end),
    ensures
        tx_flows::tx_blocks(info, flows, start, end, at) == tx_flows::tx_blocks(
            info,
            flows,
            start,
            middle,
            at,
        ),
    decreases end - middle,
{
    if middle < end {
        flow_counts::lemma_one_more(flows, start, end - 1);
        flow_counts::lemma_in_use_grows(flows, start, middle, end - 1);
        lemma_tx_empty_slots(info, flows, start, middle, end - 1, at);
    }
}

/// The descriptions of transmitted flows follow each other without a gap, from behind the positions
/// to the end of the list: the description of a flow starts where that of the flow before it ends.
#[verifier::rlimit(40)]
#[verifier::spinoff_prover]
pub proof fn tx_descriptions_follow_each_other(
    info: DeviceInfo,
    flows: Seq<Option<TxFlowInfo>>,
    start: int,
    slot: int,
)
    requires
        tx_flows::tx_flows_encodable(flows, start),
        0 <= start <= slot < start + flow_counts::listed_slots(flows, start),
        flows[slot] is Some,
        tx_flows::tx_flows_payload(info, flows, start).len() + 10 < 0x10000,
    ensures
        ({
            let payload = tx_flows::tx_flows_payload(info, flows, start);
            let n = flow_counts::listed_slots(flows, start) as int;
            let k = flow_counts::in_use(flows, start, slot) as int;
            let place = place_of(payload, k);
            &&& is_packed(
                payload,
                place,
                flows[slot]->0,
                text::decimal((slot + 1) as nat) + seq!['_'] + text::decimal(
                    info.process_id as nat,
                ),
            )
            &&& k == 0 ==> description_start(payload, place) == 2 + 2 * n
            &&& k > 0 ==> description_start(payload, place) == description_end(
                payload,
                place_of(payload, k - 1),
            )
            &&& k + 1 == flow_counts::in_use(flows, start, start + n) ==> description_end(
                payload,
                place,
            ) == payload.len()
        }),
{
    flow_counts::lemma_listed(flows, start);
    let payload = tx_flows::tx_flows_payload(info, flows, start);
    let n = flow_counts::listed_slots(flows, start) as int;
    let first = (2 + 2 * n) as nat;
    let k = flow_counts::in_use(flows, start, slot) as int;
    lemma_tx_extent(info, flows, start, slot);
    if k == 0 {
        flow_counts::lemma_none(flows, start);
        lemma_tx_empty_slots(info, flows, start, start, slot, first);
    } else {
        let before = flow_counts::lemma_last_used(flows, start, slot);
        lemma_tx_extent(info, flows, start, before);
        flow_counts::lemma_one_more(flows, start, before);
        lemma_tx_empty_slots(info, flows, start, before + 1, slot, first);
    }
    if k + 1 == flow_counts::in_use(flows, start, start + n) {
        flow_counts::lemma_one_more(flows, start, slot);
        lemma_tx_empty_slots(info, flows, start, slot + 1, start + n, first);
        lemma_tx_list_len(info, flows, start);
    }
}

/// Where the description of a flow stands in the list.
#[verifier::rlimit(40)]
#[verifier::spinoff_prover]
proof fn lemma_tx_extent(
    info: DeviceInfo,
    flows: Seq<Option<TxFlowInfo>>,
    start: int,
    slot: int,
)
    requires
        tx_flows::tx_flows_encodable(flows, start),
        0 <= start <= slot < start + flow_counts::listed_slots(flows, start),
        flows[slot] is Some,
        tx_flows::tx_flows_payload(info, flows, start).len() + 10 < 0x10000,
    ensures
        ({
            let payload = tx_flows::tx_flows_payload(info, flows, start);
            let first = 2 + 2 * flow_counts::listed_slots(flows, start);
            let place = place_of(payload, flow_counts::in_use(flows, start, slot) as int);
            &&& is_packed(payload, place, flows[slot]->0, tx_flows::tx_flow_name(info, slot))
            &&& description_start(payload, place) == first + tx_flows::tx_blocks(
                info,
                flows,
                start,
                slot,
                first,
            ).len()
            &&& description_end(payload, place) == first + tx_flows::tx_blocks(
                info,
                flows,
                start,
                slot + 1,
                first,
            ).len()
        }),
{
    flow_counts::lemma_listed(flows, start);
    let payload = tx_flows::tx_flows_payload(info, flows, start);
    let flow = flows[slot]->0;
    let at = tx_flows::tx_flow_at(info, flows, start, slot);
    assert(tx_flows::tx_flow_encodable(slot, flow));
    tx_flows::lemma_tx_block_stands(info, flows, start, slot);
    lemma_tx_found(info, flows, start, slot, at, payload);
    lemma_tx_destination_read(info, slot, flow, at, payload);
    lemma_tx_parameters(info, slot, flow, at, payload);
    lemma_tx_listed(info, flows, start, slot, at);
    lemma_tx_packed(info, slot, flow, at, payload);
}

/// The list is its header and the descriptions.
#[verifier::rlimit(40)]
#[verifier::spinoff_prover]
proof fn lemma_tx_list_len(info: DeviceInfo, flows: Seq<Option<TxFlowInfo>>, start: int)
    requires
        0 <= start,
    ensures
        ({
            let n = flow_counts::listed_slots(flows, start);
            tx_flows::tx_flows_payload(info, flows, start).len() == 2 + 2 * n
                + tx_flows::tx_blocks(info, flows, start, start + n, 2 + 2 * n).len()
        }),
{
    flow_counts::lemma_listed(flows, start);
    let n = flow_counts::listed_slots(flows, start);
    tx_flows::lemma_tx_positions(info, flows, start, start + n, 2 + 2 * n);
    flow_counts::lemma_header_read(
        n,
        tx_flows::tx_positions(info, flows, start, start + n, 2 + 2 * n),
    );
}

} // verus!
