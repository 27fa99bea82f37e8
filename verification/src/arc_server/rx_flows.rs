//! The list of received flows.
use bytebuffer::ByteBuffer;
use vstd::arithmetic::power2::*;
use vstd::prelude::*;
use vstd::slice::slice_to_vec;

use crate::arc_server::flow_lists;
use crate::device_info::{DeviceInfo, RxFlowInfo};
use crate::packet_buffer;
use crate::protocol::proto_arc::{Reply, CODE_MORE};
use crate::protocol::req_resp::{CODE_OK, HEADER_LENGTH};
use crate::wire;

verus! {

/// A channel mask takes this many 16-bit words.
pub const WORDS_PER_BITMASK: usize = 2;

/// Whether a channel is in a mask. A mask is false beyond its end.
pub open spec fn in_mask(mask: Seq<bool>, channel: int) -> bool {
    0 <= channel < mask.len() && mask[channel]
}

/// The number whose `n` lowest bits tell which of the `n` channels from `from` on are in the mask.
pub open spec fn mask_bits(mask: Seq<bool>, from: int, n: nat) -> nat
    decreases n,
{
    if n == 0 {
        0
    } else {
        mask_bits(mask, from, (n - 1) as nat) + if in_mask(mask, from + n - 1) {
            pow2((n - 1) as nat)
        } else {
            0
        }
    }
}

/// A mask as two words, the first sixteen channels in the first, the lowest channel in the lowest
/// bit.
pub open spec fn mask_bytes(mask: Seq<bool>) -> Seq<u8> {
    wire::be16(mask_bits(mask, 0, 16) as u16) + wire::be16(mask_bits(mask, 16, 16) as u16)
}

/// All masks of a flow, one after the other.
pub open spec fn masks_bytes(masks: Seq<Vec<bool>>) -> Seq<u8>
    decreases masks.len(),
{
    if masks.len() == 0 {
        Seq::empty()
    } else {
        masks_bytes(masks.drop_last()) + mask_bytes(masks.last()@)
    }
}

/// The latency of a received flow in nanoseconds.
pub open spec fn latency_ns(info: DeviceInfo, flow: RxFlowInfo) -> int {
    flow.latency_samples * 1_000_000_000 / info.sample_rate as int
}

/// The latency of a received flow can be computed and fits its field.
pub open spec fn rx_flow_encodable(info: DeviceInfo, flow: RxFlowInfo) -> bool {
    &&& info.sample_rate > 0
    &&& flow.latency_samples * 1_000_000_000 <= u64::MAX
    &&& latency_ns(info, flow) <= u32::MAX
}

/// Where in the payload the address on which a flow is received stands, if its description starts
/// at `at`.
pub open spec fn rx_address_at(at: nat) -> nat {
    at + flow_lists::padding(at)
}

/// Where in the packet the masks of a received flow start.
pub open spec fn rx_masks_offset(at: nat) -> nat {
    rx_address_at(at) + 24 + HEADER_LENGTH as nat
}

/// The position that a response gives for a received flow: where in the packet its parameters
/// stand, if its description starts at `at` in the payload.
pub open spec fn rx_flow_position(flow: RxFlowInfo, at: nat) -> nat {
    rx_masks_offset(at) + 4 * flow.channels_map@.len()
}

/// The offsets of the masks of a received flow, four bytes apart.
pub open spec fn rx_mask_offsets(flow: RxFlowInfo, at: nat) -> Seq<u16> {
    Seq::new(
        flow.channels_map@.len(),
        |i: int| wire::low16(rx_masks_offset(at) + 4 * i),
    )
}

/// The latency of a received flow, with what stands around it.
pub open spec fn rx_latency_bytes(info: DeviceInfo, flow: RxFlowInfo) -> Seq<u8> {
    seq![0x00u8, 0x09, 0x00, 0x01, 0x08, 0x00, 0x00, 0x00] + wire::be32(
        latency_ns(info, flow) as u32,
    ) + wire::be32(0)
}

/// The parameters of a received flow whose description starts at `at` in the payload.
pub open spec fn rx_parameters(info: DeviceInfo, flow_index: int, flow: RxFlowInfo, at: nat) -> Seq<
    u8,
> {
    wire::be16(wire::low16(flow_index + 1)) + wire::be16(1) + wire::be32(info.sample_rate)
        + seq![0x00u8, 0x00, 0x00, 0x18, 0x00, 0x01] + wire::be16(
        wire::low16(flow.channels_map@.len() as int),
    ) + wire::be16(WORDS_PER_BITMASK as u16) + wire::be16(
        wire::low16((rx_address_at(at) + HEADER_LENGTH) as int),
    ) + wire::be16s(rx_mask_offsets(flow, at)) + wire::be16(
        wire::low16((rx_address_at(at) + 8 + HEADER_LENGTH) as int),
    )
}

/// The description of a received flow that starts at `at` in the payload: the address on which it
/// is received, its latency, its channel masks, its parameters.
#[verifier::opaque]
pub open spec fn rx_flow_block(info: DeviceInfo, flow_index: int, flow: RxFlowInfo, at: nat) -> Seq<
    u8,
> {
    wire::zeros(flow_lists::padding(at)) + flow_lists::destination_bytes(
        flow.rx_port,
        info.ip_address@,
    ) + rx_latency_bytes(info, flow) + masks_bytes(flow.channels_map@) + rx_parameters(
        info,
        flow_index,
        flow,
        at,
    )
}

/// So many bits give a number below the next power of two.
pub(crate) proof fn lemma_mask_bits(mask: Seq<bool>, from: int, n: nat)
    ensures
        mask_bits(mask, from, n) < pow2(n),
    decreases n,
{
    if n > 0 {
        lemma_mask_bits(mask, from, (n - 1) as nat);
        lemma_pow2_unfold(n);
    } else {
        lemma2_to64();
    }
}

/// The word for the sixteen channels from `from` on.
fn mask_word(mask: &Vec<bool>, from: usize) -> (word: u16)
    requires
        from <= 0x1000,
    ensures
        word == mask_bits(mask@, from as int, 16),
{
    let mut word: u32 = 0;
    let mut single_bit: u32 = 1;
    let mut n: usize = 0;
    proof {
        lemma2_to64();
    }
    while n < 16
        invariant
            n <= 16,
            from <= 0x1000,
            single_bit == pow2(n as nat),
            single_bit <= 0x10000,
            word == mask_bits(mask@, from as int, n as nat),
            word < single_bit,
            pow2(16) == 0x10000,
        decreases 16 - n,
    {
        if from + n < mask.len() && mask[from + n] {
            word = word + single_bit;
        }
        proof {
            lemma_pow2_unfold((n + 1) as nat);
            lemma_mask_bits(mask@, from as int, (n + 1) as nat);
            if n + 1 < 16 {
                lemma_pow2_strictly_increases((n + 1) as nat, 16);
            }
        }
        single_bit = single_bit * 2;
        n = n + 1;
    }
    word as u16
}

/// Four bytes for each mask.
pub(crate) proof fn lemma_masks_len(masks: Seq<Vec<bool>>)
    ensures
        masks_bytes(masks).len() == 4 * masks.len(),
    decreases masks.len(),
{
    if masks.len() > 0 {
        lemma_masks_len(masks.drop_last());
    }
}

/// Appends the masks of a flow.
fn put_masks(response: &mut ByteBuffer, masks: &Vec<Vec<bool>>)
    requires
        packet_buffer::at_end(*old(response)),
    ensures
        packet_buffer::at_end(*final(response)),
        packet_buffer::buffer_bytes(*final(response)) == packet_buffer::buffer_bytes(*old(response))
            + masks_bytes(masks@),
{
    let ghost before = packet_buffer::buffer_bytes(*response);
    let mut i: usize = 0;
    assert(masks@.take(0) =~= Seq::empty());
    while i < masks.len()
        invariant
            i <= masks@.len(),
            packet_buffer::at_end(*response),
            packet_buffer::buffer_bytes(*response) == before + masks_bytes(masks@.take(i as int)),
        decreases masks@.len() - i,
    {
        let ghost now = packet_buffer::buffer_bytes(*response);
        packet_buffer::put_u16(response, mask_word(&masks[i], 0));
        packet_buffer::put_u16(response, mask_word(&masks[i], 16));
        proof {
            assert(masks@.take(i + 1).drop_last() =~= masks@.take(i as int));
            assert(packet_buffer::buffer_bytes(*response) =~= now + mask_bytes(masks@[i as int]@));
            wire::lemma_concat(
                before,
                masks_bytes(masks@.take(i as int)),
                mask_bytes(masks@[i as int]@),
            );
        }
        i = i + 1;
    }
    assert(masks@.take(i as int) =~= masks@);
}

/// The latency of a received flow in nanoseconds.
fn compute_latency(info: &DeviceInfo, flow: &RxFlowInfo) -> (ns: u32)
    requires
        rx_flow_encodable(*info, *flow),
    ensures
        ns == latency_ns(*info, *flow),
{
    (flow.latency_samples as u64 * 1_000_000_000u64 / info.sample_rate as u64) as u32
}

/// Appends the parameters of a received flow whose description starts at `at` in the payload.
fn put_rx_parameters(
    response: &mut ByteBuffer,
    info: &DeviceInfo,
    flow_index: usize,
    flow: &RxFlowInfo,
    address: usize,
    Ghost(at): Ghost<nat>,
)
    requires
        packet_buffer::at_end(*old(response)),
        address == rx_address_at(at),
        flow_index < usize::MAX,
        address + 34 + 4 * flow.channels_map@.len() <= usize::MAX,
    ensures
        packet_buffer::at_end(*final(response)),
        packet_buffer::buffer_bytes(*final(response)) == packet_buffer::buffer_bytes(*old(response))
            + rx_parameters(*info, flow_index as int, *flow, at),
{
    let ghost before = packet_buffer::buffer_bytes(*response);
    let bitmasks_start: usize = address + 24 + HEADER_LENGTH;
    packet_buffer::put_u16(response, flow_lists::offset16(flow_index + 1));
    packet_buffer::put_u16(response, 1);
    packet_buffer::put_u32(response, info.sample_rate);
    packet_buffer::put_bytes(response, [0x00u8, 0x00, 0x00, 0x18, 0x00, 0x01].as_slice());
    packet_buffer::put_u16(response, flow_lists::offset16(flow.channels_map.len()));
    packet_buffer::put_u16(response, WORDS_PER_BITMASK as u16);
    packet_buffer::put_u16(response, flow_lists::offset16(address + HEADER_LENGTH));
    let ghost head = packet_buffer::buffer_bytes(*response);
    let ghost offsets = rx_mask_offsets(*flow, at);
    assert(offsets.take(0) =~= Seq::empty());
    let mut i: usize = 0;
    while i < flow.channels_map.len()
        invariant
            packet_buffer::at_end(*response),
            address == rx_address_at(at),
            bitmasks_start == rx_masks_offset(at),
            bitmasks_start + 4 * flow.channels_map@.len() <= usize::MAX,
            offsets == rx_mask_offsets(*flow, at),
            i <= flow.channels_map@.len(),
            packet_buffer::buffer_bytes(*response) == head + wire::be16s(offsets.take(i as int)),
        decreases flow.channels_map@.len() - i,
    {
        packet_buffer::put_u16(
            response,
            flow_lists::offset16(bitmasks_start + i * 2 * WORDS_PER_BITMASK),
        );
        proof {
            assert(offsets.take(i + 1).drop_last() =~= offsets.take(i as int));
            wire::lemma_concat(
                head,
                wire::be16s(offsets.take(i as int)),
                wire::be16(offsets[i as int]),
            );
        }
        i = i + 1;
    }
    assert(offsets.take(i as int) =~= offsets);
    packet_buffer::put_u16(response, flow_lists::offset16(address + 8 + HEADER_LENGTH));
    assert([0x00u8, 0x00, 0x00, 0x18, 0x00, 0x01]@ =~= seq![0x00u8, 0x00, 0x00, 0x18, 0x00, 0x01]);
    assert(packet_buffer::buffer_bytes(*response) =~= before + rx_parameters(
        *info,
        flow_index as int,
        *flow,
        at,
    ));
}

/// Appends the description of a received flow and returns its position.
fn put_rx_flow(response: &mut ByteBuffer, info: &DeviceInfo, flow_index: usize, flow: &RxFlowInfo)
    -> (position: usize)
    requires
        packet_buffer::at_end(*old(response)),
        rx_flow_encodable(*info, *flow),
        flow_index < usize::MAX,
    ensures
        packet_buffer::at_end(*final(response)),
        packet_buffer::buffer_bytes(*final(response)) == packet_buffer::buffer_bytes(*old(response))
            + rx_flow_block(
            *info,
            flow_index as int,
            *flow,
            packet_buffer::buffer_bytes(*old(response)).len(),
        ),
        position == rx_flow_position(*flow, packet_buffer::buffer_bytes(*old(response)).len()),
{
    let ghost before = packet_buffer::buffer_bytes(*response);
    let ghost at = before.len();
    flow_lists::pad(response);
    let address: usize = response.get_wpos();
    flow_lists::put_destination(response, flow.rx_port, &info.ip_address);
    let ghost head = packet_buffer::buffer_bytes(*response);
    packet_buffer::put_bytes(
        response,
        [0x00u8, 0x09, 0x00, 0x01, 0x08, 0x00, 0x00, 0x00].as_slice(),
    );
    packet_buffer::put_u32(response, compute_latency(info, flow));
    packet_buffer::put_u32(response, 0);
    assert([0x00u8, 0x09, 0x00, 0x01, 0x08, 0x00, 0x00, 0x00]@ =~= seq![
        0x00u8,
        0x09,
        0x00,
        0x01,
        0x08,
        0x00,
        0x00,
        0x00,
    ]);
    assert(packet_buffer::buffer_bytes(*response) =~= head + rx_latency_bytes(*info, *flow));
    put_masks(response, &flow.channels_map);
    proof {
        lemma_masks_len(flow.channels_map@);
    }
    let ghost masked = packet_buffer::buffer_bytes(*response);
    flow_lists::pad(response);
    assert(packet_buffer::buffer_bytes(*response) =~= masked);
    let wpos: usize = response.get_wpos();
    let position: usize = wpos + HEADER_LENGTH;
    put_rx_parameters(response, info, flow_index, flow, address, Ghost(at));
    reveal(rx_flow_block);
    assert(packet_buffer::buffer_bytes(*response) =~= before + rx_flow_block(
        *info,
        flow_index as int,
        *flow,
        at,
    ));
    position
}

/// The descriptions of the received flows in the slots from `start` to `end`, the first of
/// which stands at `at` in the payload.
pub open spec fn rx_blocks(
    info: DeviceInfo,
    flows: Seq<Option<RxFlowInfo>>,
    start: int,
    end: int,
    at: nat,
) -> Seq<u8>
    decreases end - start,
{
    if end <= start {
        Seq::empty()
    } else {
        let before = rx_blocks(info, flows, start, end - 1, at);
        match flows[end - 1] {
            None => before,
            Some(flow) => before + rx_flow_block(info, end - 1, flow, at + before.len()),
        }
    }
}

/// The positions of the received flows in the slots from `start` to `end`.
pub open spec fn rx_positions(
    info: DeviceInfo,
    flows: Seq<Option<RxFlowInfo>>,
    start: int,
    end: int,
    at: nat,
) -> Seq<u16>
    decreases end - start,
{
    if end <= start {
        Seq::empty()
    } else {
        let before = rx_positions(info, flows, start, end - 1, at);
        match flows[end - 1] {
            None => before,
            Some(flow) => before.push(
                wire::low16(
                    rx_flow_position(
                        flow,
                        at + rx_blocks(info, flows, start, end - 1, at).len(),
                    ) as int,
                ),
            ),
        }
    }
}

/// The payload that lists the received flows from slot `start` on.
pub open spec fn rx_flows_payload(
    info: DeviceInfo,
    flows: Seq<Option<RxFlowInfo>>,
    start: int,
) -> Seq<u8> {
    let n = flow_lists::covered(flows, start);
    let at = 2 + 2 * n;
    flow_lists::flows_header(n, rx_positions(info, flows, start, start + n, at)) + rx_blocks(
        info,
        flows,
        start,
        start + n,
        at,
    )
}

/// Where in the payload the description of the flow in a slot starts.
pub open spec fn rx_flow_at(
    info: DeviceInfo,
    flows: Seq<Option<RxFlowInfo>>,
    start: int,
    slot: int,
) -> nat {
    let first = 2 + 2 * flow_lists::covered(flows, start);
    first + rx_blocks(info, flows, start, slot, first).len()
}

/// Every received flow that a response from slot `start` on covers can be described.
pub open spec fn rx_flows_encodable(
    info: DeviceInfo,
    flows: Seq<Option<RxFlowInfo>>,
    start: int,
) -> bool {
    forall|i: int|
        start <= i < start + flow_lists::covered(flows, start) ==> (
        #[trigger] flows[i] matches Some(flow) ==> rx_flow_encodable(info, flow))
}

/// Whether the latency of a received flow can be computed and fits its field.
fn is_rx_flow_encodable(info: &DeviceInfo, flow: &RxFlowInfo) -> (ok: bool)
    ensures
        ok == rx_flow_encodable(*info, *flow),
{
    if info.sample_rate == 0 {
        return false;
    }
    match (flow.latency_samples as u64).checked_mul(1_000_000_000) {
        None => false,
        Some(product) => product / info.sample_rate as u64 <= 0xffff_ffff,
    }
}

/// Whether every received flow that a response from slot `start` on covers can be described.
pub fn are_rx_flows_encodable(
    info: &DeviceInfo,
    flows: &Vec<Option<RxFlowInfo>>,
    start: usize,
) -> (ok: bool)
    ensures
        ok == rx_flows_encodable(*info, flows@, start as int),
{
    let used: usize = flow_lists::count_used(flows, start);
    let n: usize = if used < flow_lists::MAX_FLOWS_IN_RESPONSE {
        used
    } else {
        flow_lists::MAX_FLOWS_IN_RESPONSE
    };
    proof {
        flow_lists::lemma_used(flows@, start as int);
    }
    let total: usize = flows.len();
    let mut i: usize = 0;
    while i < n
        invariant
            n == flow_lists::covered(flows@, start as int),
            total == flows@.len(),
            n > 0 ==> start + n <= flows@.len(),
            i <= n,
            forall|j: int|
                start <= j < start + i ==> (#[trigger] flows@[j] matches Some(flow)
                    ==> rx_flow_encodable(*info, flow)),
        decreases n - i,
    {
        match &flows[start + i] {
            Some(flow) => {
                if !is_rx_flow_encodable(info, flow) {
                    assert(!(flows@[start + i] matches Some(flow) ==> rx_flow_encodable(
                        *info,
                        flow,
                    )));
                    return false;
                }
            },
            None => {},
        }
        i = i + 1;
    }
    true
}

/// No more flows are described than slots are covered.
pub(crate) proof fn lemma_rx_positions(
    info: DeviceInfo,
    flows: Seq<Option<RxFlowInfo>>,
    start: int,
    end: int,
    at: nat,
)
    ensures
        start <= end ==> rx_positions(info, flows, start, end, at).len() <= end - start,
    decreases end - start,
{
    if start < end {
        lemma_rx_positions(info, flows, start, end - 1, at);
    }
}

/// Lists the received flows from slot `start` on.
pub fn query_rx_flows(info: &DeviceInfo, flows: &Vec<Option<RxFlowInfo>>, start: usize) -> (reply:
    Reply)
    requires
        rx_flows_encodable(*info, flows@, start as int),
    ensures
        reply.code == flow_lists::flows_code(flows@, start as int),
        reply.payload@ == rx_flows_payload(*info, flows@, start as int),
{
    let remaining: usize = flow_lists::count_used(flows, start);
    let in_this_response: usize = if flow_lists::MAX_FLOWS_IN_RESPONSE < remaining {
        flow_lists::MAX_FLOWS_IN_RESPONSE
    } else {
        remaining
    };
    proof {
        flow_lists::lemma_used(flows@, start as int);
    }
    let mut response = ByteBuffer::new();
    flow_lists::put_flows_header(&mut response, in_this_response);
    let ghost header = packet_buffer::buffer_bytes(response);
    let ghost at = (2 + 2 * in_this_response) as nat;
    let mut flow_positions: Vec<u16> = Vec::new();
    let total: usize = flows.len();
    let mut i: usize = 0;
    assert(header =~= header + rx_blocks(*info, flows@, start as int, start as int, at));
    while i < in_this_response
        invariant
            rx_flows_encodable(*info, flows@, start as int),
            in_this_response == flow_lists::covered(flows@, start as int),
            total == flows@.len(),
            in_this_response > 0 ==> start + in_this_response <= flows@.len(),
            i <= in_this_response,
            at == 2 + 2 * in_this_response,
            header.len() == at,
            packet_buffer::at_end(response),
            packet_buffer::buffer_bytes(response) == header + rx_blocks(
                *info,
                flows@,
                start as int,
                start + i,
                at,
            ),
            flow_positions@ == rx_positions(*info, flows@, start as int, start + i, at),
        decreases in_this_response - i,
    {
        let flow_index: usize = start + i;
        match &flows[flow_index] {
            Some(flow_info) => {
                assert(flows@[flow_index as int] matches Some(flow) ==> rx_flow_encodable(
                    *info,
                    flow,
                ));
                let ghost before = rx_blocks(*info, flows@, start as int, start + i, at);
                let position: usize = put_rx_flow(&mut response, info, flow_index, flow_info);
                flow_positions.push(flow_lists::offset16(position));
                proof {
                    wire::lemma_concat(
                        header,
                        before,
                        rx_flow_block(*info, flow_index as int, *flow_info, at + before.len()),
                    );
                }
            },
            None => {},
        }
        i = i + 1;
    }
    proof {
        lemma_rx_positions(*info, flows@, start as int, start + in_this_response, at);
        flow_lists::lemma_flows_header(
            in_this_response as nat,
            flow_positions@,
            rx_blocks(*info, flows@, start as int, start + in_this_response, at),
        );
    }
    flow_lists::put_positions(&mut response, &flow_positions);
    let code: u16 = if remaining > in_this_response {
        CODE_MORE
    } else {
        CODE_OK
    };
    Reply { code, payload: slice_to_vec(response.as_bytes()) }
}

/// What stands in front of a slot does not depend on the slots behind it.
proof fn lemma_rx_prefix(
    info: DeviceInfo,
    flows: Seq<Option<RxFlowInfo>>,
    start: int,
    middle: int,
    end: int,
    at: nat,
)
    requires
        start <= middle <= end,
    ensures
        rx_blocks(info, flows, start, middle, at).is_prefix_of(
            rx_blocks(info, flows, start, end, at),
        ),
        rx_positions(info, flows, start, middle, at).is_prefix_of(
            rx_positions(info, flows, start, end, at),
        ),
    decreases end - middle,
{
    if middle < end {
        lemma_rx_prefix(info, flows, start, middle, end - 1, at);
        let some = rx_blocks(info, flows, start, end - 1, at);
        let all = rx_blocks(info, flows, start, end, at);
        assert(some.is_prefix_of(all));
        assert(rx_positions(info, flows, start, end - 1, at).is_prefix_of(
            rx_positions(info, flows, start, end, at),
        ));
    }
}

/// A list of flows holds, for each flow that it covers, the description of the flow, where the
/// flows before it end.
pub(crate) proof fn lemma_rx_block_stands(
    info: DeviceInfo,
    flows: Seq<Option<RxFlowInfo>>,
    start: int,
    slot: int,
)
    requires
        0 <= start <= slot < start + flow_lists::covered(flows, start),
        flows[slot] is Some,
    ensures
        ({
            let at = rx_flow_at(info, flows, start, slot);
            let block = rx_flow_block(info, slot, flows[slot]->0, at);
            let payload = rx_flows_payload(info, flows, start);
            flow_lists::stands_at(payload, at as int, block)
        }),
{
    let n = flow_lists::covered(flows, start);
    let first = 2 + 2 * n;
    let before = rx_blocks(info, flows, start, slot, first);
    let at = first + before.len();
    let block = rx_flow_block(info, slot, flows[slot]->0, at);
    let all = rx_blocks(info, flows, start, start + n, first);
    lemma_rx_prefix(info, flows, start, slot + 1, start + n, first);
    lemma_rx_positions(info, flows, start, start + n, first);
    let positions = rx_positions(info, flows, start, start + n, first);
    wire::lemma_be16s_len(positions);
    let header = flow_lists::flows_header(n, positions);
    assert(header.len() == first);
    assert(rx_blocks(info, flows, start, slot + 1, first) == before + block);
    assert((before + block).is_prefix_of(all));
    assert(all.subrange(before.len() as int, (before.len() + block.len()) as int) =~= block) by {
        assert forall|i: int| 0 <= i < block.len() implies all[before.len() + i] == block[i] by {
            assert((before + block)[before.len() + i] == block[i]);
        }
    }
    assert(rx_flows_payload(info, flows, start).subrange(at as int, (at + block.len()) as int)
        =~= all.subrange(before.len() as int, (before.len() + block.len()) as int));
}

/// The masks and the parameters of a received flow are the last parts of its description.
proof fn lemma_rx_parameters_in_block(info: DeviceInfo, slot: int, flow: RxFlowInfo, at: nat)
    ensures
        ({
            let block = rx_flow_block(info, slot, flow, at);
            let parameters = rx_parameters(info, slot, flow, at);
            let masks = masks_bytes(flow.channels_map@);
            let inside = block.len() - parameters.len();
            &&& masks.len() == 4 * flow.channels_map@.len()
            &&& at + inside == rx_flow_position(flow, at) - HEADER_LENGTH
            &&& flow_lists::stands_at(block, inside, parameters)
            &&& flow_lists::stands_at(block, inside - masks.len(), masks)
        }),
{
    reveal(rx_flow_block);
    lemma_masks_len(flow.channels_map@);
    let block = rx_flow_block(info, slot, flow, at);
    let parameters = rx_parameters(info, slot, flow, at);
    let masks = masks_bytes(flow.channels_map@);
    let inside = block.len() - parameters.len();
    assert(block.subrange(inside, block.len() as int) =~= parameters);
    assert(block.subrange(inside - masks.len(), inside) =~= masks);
}

/// For each received flow that a list covers, the list gives its position.
pub proof fn rx_flow_position_is_listed(
    info: DeviceInfo,
    flows: Seq<Option<RxFlowInfo>>,
    start: int,
    slot: int,
)
    requires
        0 <= start <= slot < start + flow_lists::covered(flows, start),
        flows[slot] is Some,
    ensures
        ({
            let flow = flows[slot]->0;
            let n = flow_lists::covered(flows, start);
            let at = rx_flow_at(info, flows, start, slot);
            let positions = rx_positions(info, flows, start, start + n, 2 + 2 * n);
            let before = rx_positions(info, flows, start, slot, 2 + 2 * n).len();
            &&& before < positions.len()
            &&& positions[before as int] == wire::low16(rx_flow_position(flow, at) as int)
        }),
{
    let n = flow_lists::covered(flows, start);
    lemma_rx_prefix(info, flows, start, slot + 1, start + n, 2 + 2 * n);
    let positions = rx_positions(info, flows, start, start + n, 2 + 2 * n);
    let some = rx_positions(info, flows, start, slot + 1, 2 + 2 * n);
    let before = rx_positions(info, flows, start, slot, 2 + 2 * n).len() as int;
    assert(some.len() == before + 1);
    assert(positions.subrange(0, some.len() as int)[before] == some[before]);
}

/// The parameters of each received flow that a list covers stand at its position, and its masks
/// stand where the parameters say.
pub proof fn rx_flow_stands_at_its_position(
    info: DeviceInfo,
    flows: Seq<Option<RxFlowInfo>>,
    start: int,
    slot: int,
)
    requires
        0 <= start <= slot < start + flow_lists::covered(flows, start),
        flows[slot] is Some,
    ensures
        ({
            let flow = flows[slot]->0;
            let at = rx_flow_at(info, flows, start, slot);
            let position = rx_flow_position(flow, at);
            let parameters = rx_parameters(info, slot, flow, at);
            let payload = rx_flows_payload(info, flows, start);
            let place = position - HEADER_LENGTH;
            let masks = rx_masks_offset(at) - HEADER_LENGTH;
            &&& flow_lists::stands_at(payload, place, parameters)
            &&& flow_lists::stands_at(payload, masks, masks_bytes(flow.channels_map@))
        }),
{
    let flow = flows[slot]->0;
    let at = rx_flow_at(info, flows, start, slot);
    lemma_rx_block_stands(info, flows, start, slot);
    lemma_rx_parameters_in_block(info, slot, flow, at);
    let block = rx_flow_block(info, slot, flow, at);
    let payload = rx_flows_payload(info, flows, start);
    let parameters = rx_parameters(info, slot, flow, at);
    let masks = masks_bytes(flow.channels_map@);
    let inside = block.len() - parameters.len();
    flow_lists::lemma_part(payload, at as int, block, inside, parameters);
    flow_lists::lemma_part(payload, at as int, block, inside - masks.len(), masks);
}

} // verus!
