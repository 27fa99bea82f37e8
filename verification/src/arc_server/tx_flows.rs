//! The list of transmitted flows.
use bytebuffer::ByteBuffer;
use vstd::prelude::*;
use vstd::slice::slice_to_vec;

use crate::arc_server::channel_lists;
use crate::arc_server::flow_lists;
use crate::device_info::{DeviceInfo, TxFlowInfo};
use crate::packet_buffer;
use crate::protocol::proto_arc::{Reply, CODE_MORE};
use crate::protocol::req_resp::{CODE_OK, HEADER_LENGTH};
use crate::text;
use crate::wire;

verus! {

/// The name that the device gives to the flow in a slot.
pub open spec fn tx_flow_name(info: DeviceInfo, flow_index: int) -> Seq<char> {
    text::decimal((flow_index + 1) as nat) + seq!['_'] + text::decimal(info.process_id as nat)
}

/// The numbers of the channels in a flow, counted from one; zero for an unused place.
pub open spec fn tx_channel_numbers(flow: TxFlowInfo) -> Seq<u16> {
    Seq::new(
        flow.local_channel_indices@.len(),
        |i: int|
            match flow.local_channel_indices@[i] {
                Some(channel) => (channel + 1) as u16,
                None => 0u16,
            },
    )
}

/// The names in the description of a transmitted flow.
pub open spec fn tx_flow_names(info: DeviceInfo, flow_index: int, flow: TxFlowInfo) -> Seq<u8> {
    text::zero_terminated(tx_flow_name(info, flow_index)) + text::zero_terminated(flow.rx_hostname@)
        + text::zero_terminated(flow.rx_flow_name@)
}

/// Where in the payload the destination of a transmitted flow stands, if its description starts
/// at `at`.
pub open spec fn tx_destination_at(
    info: DeviceInfo,
    flow_index: int,
    flow: TxFlowInfo,
    at: nat,
) -> nat {
    let end = at + tx_flow_names(info, flow_index, flow).len();
    end + flow_lists::padding(end)
}

/// The position that a response gives for a transmitted flow: where in the packet its parameters
/// stand, if its description starts at `at` in the payload.
pub open spec fn tx_flow_position(
    info: DeviceInfo,
    flow_index: int,
    flow: TxFlowInfo,
    at: nat,
) -> nat {
    tx_destination_at(info, flow_index, flow, at) + 28 + HEADER_LENGTH as nat
}

/// The offsets, from the start of the packet, of the names of a transmitted flow whose description
/// starts at `at` in the payload.
pub open spec fn tx_name_offsets(
    info: DeviceInfo,
    flow_index: int,
    flow: TxFlowInfo,
    at: nat,
) -> Seq<u8> {
    let local_name = at + HEADER_LENGTH;
    let hostname = local_name + text::zero_terminated(tx_flow_name(info, flow_index)).len();
    let remote_name = hostname + text::zero_terminated(flow.rx_hostname@).len();
    seq![0x0au8, 0x00, 0x00, 0x01] + wire::be16(wire::low16(hostname)) + wire::be16(
        wire::low16(remote_name),
    ) + wire::be16(0x10) + wire::be16(wire::low16(local_name)) + wire::zeros(8)
}

/// The parameters of a transmitted flow whose destination stands at `destination` in the payload.
pub open spec fn tx_parameters(
    info: DeviceInfo,
    flow_index: int,
    flow: TxFlowInfo,
    destination: nat,
) -> Seq<u8> {
    wire::be16((flow_index + 1) as u16) + wire::be16(0x11) + wire::be32(info.sample_rate)
        + wire::be16(0) + wire::be16(0x18) + wire::be16(1) + wire::be16(
        flow.local_channel_indices@.len() as u16,
    ) + wire::be16(wire::low16((destination + HEADER_LENGTH) as int)) + wire::be16s(
        tx_channel_numbers(flow),
    ) + wire::be16(wire::low16((destination + 8) as int))
}

/// The description of a transmitted flow that starts at `at` in the payload: its names, where it
/// is sent to, the offsets of the names, its parameters.
#[verifier::opaque]
pub open spec fn tx_flow_block(
    info: DeviceInfo,
    flow_index: int,
    flow: TxFlowInfo,
    at: nat,
) -> Seq<u8> {
    let names = tx_flow_names(info, flow_index, flow);
    names + wire::zeros(flow_lists::padding(at + names.len())) + flow_lists::destination_bytes(
        flow.rx_port,
        flow.rx_addr@,
    ) + tx_name_offsets(info, flow_index, flow, at) + tx_parameters(
        info,
        flow_index,
        flow,
        tx_destination_at(info, flow_index, flow, at),
    )
}

/// The numbers of the slot and of the channels of a transmitted flow fit their fields.
pub open spec fn tx_flow_encodable(flow_index: int, flow: TxFlowInfo) -> bool {
    &&& flow_index + 1 <= u16::MAX
    &&& flow.local_channel_indices@.len() <= u16::MAX
    &&& forall|i: int|
        0 <= i < flow.local_channel_indices@.len() ==> (
        #[trigger] flow.local_channel_indices@[i] matches Some(channel) ==> channel + 1 <= u16::MAX)
}

/// Appends the parameters of a transmitted flow.
fn put_tx_parameters(
    response: &mut ByteBuffer,
    info: &DeviceInfo,
    flow_index: usize,
    flow: &TxFlowInfo,
    destination: usize,
)
    requires
        packet_buffer::at_end(*old(response)),
        tx_flow_encodable(flow_index as int, *flow),
        destination <= isize::MAX,
    ensures
        packet_buffer::at_end(*final(response)),
        packet_buffer::buffer_bytes(*final(response)) == packet_buffer::buffer_bytes(*old(response))
            + tx_parameters(*info, flow_index as int, *flow, destination as nat),
{
    let ghost before = packet_buffer::buffer_bytes(*response);
    packet_buffer::put_u16(response, (flow_index + 1) as u16);
    packet_buffer::put_u16(response, 0x11);
    packet_buffer::put_u32(response, info.sample_rate);
    packet_buffer::put_u16(response, 0);
    packet_buffer::put_u16(response, 0x18);
    packet_buffer::put_u16(response, 1);
    packet_buffer::put_u16(response, flow.local_channel_indices.len() as u16);
    packet_buffer::put_u16(response, flow_lists::offset16(destination + HEADER_LENGTH));
    let ghost head = packet_buffer::buffer_bytes(*response);
    let ghost numbers = tx_channel_numbers(*flow);
    assert(numbers.take(0) =~= Seq::empty());
    let mut i: usize = 0;
    while i < flow.local_channel_indices.len()
        invariant
            packet_buffer::at_end(*response),
            tx_flow_encodable(flow_index as int, *flow),
            numbers == tx_channel_numbers(*flow),
            i <= flow.local_channel_indices@.len(),
            packet_buffer::buffer_bytes(*response) == head + wire::be16s(numbers.take(i as int)),
        decreases flow.local_channel_indices@.len() - i,
    {
        let number: u16 = match flow.local_channel_indices[i] {
            Some(channel) => (channel + 1) as u16,
            None => 0,
        };
        packet_buffer::put_u16(response, number);
        proof {
            assert(numbers.take(i + 1).drop_last() =~= numbers.take(i as int));
            assert(packet_buffer::buffer_bytes(*response) =~= head + wire::be16s(
                numbers.take(i + 1),
            ));
        }
        i = i + 1;
    }
    assert(numbers.take(i as int) =~= numbers);
    packet_buffer::put_u16(response, flow_lists::offset16(destination + 8));
    assert(packet_buffer::buffer_bytes(*response) =~= before + tx_parameters(
        *info,
        flow_index as int,
        *flow,
        destination as nat,
    ));
}

/// Appends the description of a transmitted flow and returns its position.
fn put_tx_flow(response: &mut ByteBuffer, info: &DeviceInfo, flow_index: usize, flow: &TxFlowInfo)
    -> (position: usize)
    requires
        packet_buffer::at_end(*old(response)),
        tx_flow_encodable(flow_index as int, *flow),
    ensures
        packet_buffer::at_end(*final(response)),
        packet_buffer::buffer_bytes(*final(response)) == packet_buffer::buffer_bytes(*old(response))
            + tx_flow_block(
            *info,
            flow_index as int,
            *flow,
            packet_buffer::buffer_bytes(*old(response)).len(),
        ),
        position == tx_flow_position(
            *info,
            flow_index as int,
            *flow,
            packet_buffer::buffer_bytes(*old(response)).len(),
        ),
{
    let ghost before = packet_buffer::buffer_bytes(*response);
    let flow_id: usize = flow_index + 1;
    let local_name_offset: usize = response.get_wpos() + HEADER_LENGTH;
    let flow_name = text::joined(
        text::joined(text::decimal_text(flow_id as u64).as_str(), "_").as_str(),
        text::decimal_text(info.process_id as u64).as_str(),
    );
    proof {
        reveal_strlit("_");
        assert(flow_name@ =~= tx_flow_name(*info, flow_index as int));
    }
    packet_buffer::put_text(response, flow_name.as_str());
    let hostname_offset: usize = response.get_wpos() + HEADER_LENGTH;
    packet_buffer::put_text(response, flow.rx_hostname.as_str());
    let remote_name_offset: usize = response.get_wpos() + HEADER_LENGTH;
    packet_buffer::put_text(response, flow.rx_flow_name.as_str());
    let ghost names = tx_flow_names(*info, flow_index as int, *flow);
    assert(packet_buffer::buffer_bytes(*response) =~= before + names);
    flow_lists::pad(response);
    let destination: usize = response.get_wpos();
    flow_lists::put_destination(response, flow.rx_port, &flow.rx_addr);
    let ghost head = packet_buffer::buffer_bytes(*response);
    packet_buffer::put_bytes(response, [0x0au8, 0x00, 0x00, 0x01].as_slice());
    packet_buffer::put_u16(response, flow_lists::offset16(hostname_offset));
    packet_buffer::put_u16(response, flow_lists::offset16(remote_name_offset));
    packet_buffer::put_u16(response, 0x10);
    packet_buffer::put_u16(response, flow_lists::offset16(local_name_offset));
    packet_buffer::put_bytes(response, wire::zero_bytes(8).as_slice());
    assert([0x0au8, 0x00, 0x00, 0x01]@ =~= seq![0x0au8, 0x00, 0x00, 0x01]);
    assert(packet_buffer::buffer_bytes(*response) =~= head + tx_name_offsets(
        *info,
        flow_index as int,
        *flow,
        before.len(),
    ));
    let position: usize = response.get_wpos() + HEADER_LENGTH;
    put_tx_parameters(response, info, flow_index, flow, destination);
    reveal(tx_flow_block);
    assert(packet_buffer::buffer_bytes(*response) =~= before + tx_flow_block(
        *info,
        flow_index as int,
        *flow,
        before.len(),
    ));
    position
}

/// The descriptions of the transmitted flows in the slots from `start` to `end`, the first of
/// which stands at `at` in the payload.
pub open spec fn tx_blocks(
    info: DeviceInfo,
    flows: Seq<Option<TxFlowInfo>>,
    start: int,
    end: int,
    at: nat,
) -> Seq<u8>
    decreases end - start,
{
    if end <= start {
        Seq::empty()
    } else {
        let before = tx_blocks(info, flows, start, end - 1, at);
        match flows[end - 1] {
            None => before,
            Some(flow) => before + tx_flow_block(info, end - 1, flow, at + before.len()),
        }
    }
}

/// The positions of the transmitted flows in the slots from `start` to `end`.
pub open spec fn tx_positions(
    info: DeviceInfo,
    flows: Seq<Option<TxFlowInfo>>,
    start: int,
    end: int,
    at: nat,
) -> Seq<u16>
    decreases end - start,
{
    if end <= start {
        Seq::empty()
    } else {
        let before = tx_positions(info, flows, start, end - 1, at);
        match flows[end - 1] {
            None => before,
            Some(flow) => before.push(
                wire::low16(
                    tx_flow_position(
                        info,
                        end - 1,
                        flow,
                        at + tx_blocks(info, flows, start, end - 1, at).len(),
                    ) as int,
                ),
            ),
        }
    }
}

/// The payload that lists the transmitted flows from slot `start` on.
pub open spec fn tx_flows_payload(
    info: DeviceInfo,
    flows: Seq<Option<TxFlowInfo>>,
    start: int,
) -> Seq<u8> {
    let n = flow_lists::covered(flows, start);
    let at = 2 + 2 * n;
    flow_lists::flows_header(n, tx_positions(info, flows, start, start + n, at)) + tx_blocks(
        info,
        flows,
        start,
        start + n,
        at,
    )
}

/// Where in the payload the description of the flow in a slot starts.
pub open spec fn tx_flow_at(
    info: DeviceInfo,
    flows: Seq<Option<TxFlowInfo>>,
    start: int,
    slot: int,
) -> nat {
    let first = 2 + 2 * flow_lists::covered(flows, start);
    first + tx_blocks(info, flows, start, slot, first).len()
}

/// Every transmitted flow that a response from slot `start` on covers can be described.
pub open spec fn tx_flows_encodable(flows: Seq<Option<TxFlowInfo>>, start: int) -> bool {
    forall|i: int|
        start <= i < start + flow_lists::covered(flows, start) ==> (
        #[trigger] flows[i] matches Some(flow) ==> tx_flow_encodable(i, flow))
}

/// Whether the numbers of the slot and of the channels of a transmitted flow fit their fields.
fn is_tx_flow_encodable(flow_index: usize, flow: &TxFlowInfo) -> (ok: bool)
    ensures
        ok == tx_flow_encodable(flow_index as int, *flow),
{
    if flow_index >= 0xffff || flow.local_channel_indices.len() > 0xffff {
        return false;
    }
    let mut i: usize = 0;
    while i < flow.local_channel_indices.len()
        invariant
            flow_index < 0xffff,
            flow.local_channel_indices@.len() <= 0xffff,
            i <= flow.local_channel_indices@.len(),
            forall|j: int|
                0 <= j < i ==> (#[trigger] flow.local_channel_indices@[j] matches Some(channel)
                    ==> channel + 1 <= u16::MAX),
        decreases flow.local_channel_indices@.len() - i,
    {
        match flow.local_channel_indices[i] {
            Some(channel) => {
                if channel >= 0xffff {
                    assert(!(flow.local_channel_indices@[i as int] matches Some(channel) ==> channel
                        + 1 <= u16::MAX));
                    return false;
                }
            },
            None => {},
        }
        i = i + 1;
    }
    true
}

/// Whether every transmitted flow that a response from slot `start` on covers can be described.
pub fn are_tx_flows_encodable(flows: &Vec<Option<TxFlowInfo>>, start: usize) -> (ok: bool)
    ensures
        ok == tx_flows_encodable(flows@, start as int),
{
    let used: usize = flow_lists::count_used(flows, start);
    let n: usize = if used < flow_lists::MAX_FLOWS_IN_RESPONSE {
        used
    } else {
        flow_lists::MAX_FLOWS_IN_RESPONSE
    };
    proof {
        flow_lists::lemma_used(flows@, start as int);
    }
    let total: usize = flows.len();
    let mut i: usize = 0;
    while i < n
        invariant
            n == flow_lists::covered(flows@, start as int),
            total == flows@.len(),
            n > 0 ==> start + n <= flows@.len(),
            i <= n,
            forall|j: int|
                start <= j < start + i ==> (#[trigger] flows@[j] matches Some(flow)
                    ==> tx_flow_encodable(j, flow)),
        decreases n - i,
    {
        match &flows[start + i] {
            Some(flow) => {
                if !is_tx_flow_encodable(start + i, flow) {
                    assert(!(flows@[start + i] matches Some(flow) ==> tx_flow_encodable(
                        start + i,
                        flow,
                    )));
                    return false;
                }
            },
            None => {},
        }
        i = i + 1;
    }
    true
}

/// No more flows are described than slots are covered.
pub(crate) proof fn lemma_tx_positions(
    info: DeviceInfo,
    flows: Seq<Option<TxFlowInfo>>,
    start: int,
    end: int,
    at: nat,
)
    ensures
        start <= end ==> tx_positions(info, flows, start, end, at).len() <= end - start,
    decreases end - start,
{
    if start < end {
        lemma_tx_positions(info, flows, start, end - 1, at);
    }
}

/// Lists the transmitted flows from slot `start` on.
pub fn query_tx_flows(info: &DeviceInfo, flows: &Vec<Option<TxFlowInfo>>, start: usize) -> (reply:
    Reply)
    requires
        tx_flows_encodable(flows@, start as int),
    ensures
        reply.code == flow_lists::flows_code(flows@, start as int),
        reply.payload@ == tx_flows_payload(*info, flows@, start as int),
{
    let remaining: usize = flow_lists::count_used(flows, start);
    let in_this_response: usize = if flow_lists::MAX_FLOWS_IN_RESPONSE < remaining {
        flow_lists::MAX_FLOWS_IN_RESPONSE
    } else {
        remaining
    };
    proof {
        flow_lists::lemma_used(flows@, start as int);
    }
    let mut response = ByteBuffer::new();
    flow_lists::put_flows_header(&mut response, in_this_response);
    let ghost header = packet_buffer::buffer_bytes(response);
    let ghost at = (2 + 2 * in_this_response) as nat;
    let mut flow_positions: Vec<u16> = Vec::new();
    let total: usize = flows.len();
    let mut i: usize = 0;
    assert(header =~= header + tx_blocks(*info, flows@, start as int, start as int, at));
    while i < in_this_response
        invariant
            tx_flows_encodable(flows@, start as int),
            in_this_response == flow_lists::covered(flows@, start as int),
            total == flows@.len(),
            in_this_response > 0 ==> start + in_this_response <= flows@.len(),
            i <= in_this_response,
            at == 2 + 2 * in_this_response,
            header.len() == at,
            packet_buffer::at_end(response),
            packet_buffer::buffer_bytes(response) == header + tx_blocks(
                *info,
                flows@,
                start as int,
                start + i,
                at,
            ),
            flow_positions@ == tx_positions(*info, flows@, start as int, start + i, at),
        decreases in_this_response - i,
    {
        let flow_index: usize = start + i;
        match &flows[flow_index] {
            Some(flow_info) => {
                assert(flows@[flow_index as int] matches Some(flow) ==> tx_flow_encodable(
                    flow_index as int,
                    flow,
                ));
                let ghost before = tx_blocks(*info, flows@, start as int, start + i, at);
                let position: usize = put_tx_flow(&mut response, info, flow_index, flow_info);
                flow_positions.push(flow_lists::offset16(position));
                proof {
                    wire::lemma_concat(
                        header,
                        before,
                        tx_flow_block(*info, flow_index as int, *flow_info, at + before.len()),
                    );
                }
            },
            None => {},
        }
        i = i + 1;
    }
    proof {
        lemma_tx_positions(*info, flows@, start as int, start + in_this_response, at);
        flow_lists::lemma_flows_header(
            in_this_response as nat,
            flow_positions@,
            tx_blocks(*info, flows@, start as int, start + in_this_response, at),
        );
    }
    flow_lists::put_positions(&mut response, &flow_positions);
    let code: u16 = if remaining > in_this_response {
        CODE_MORE
    } else {
        CODE_OK
    };
    Reply { code, payload: slice_to_vec(response.as_bytes()) }
}

/// What stands in front of a slot does not depend on the slots behind it.
proof fn lemma_tx_prefix(
    info: DeviceInfo,
    flows: Seq<Option<TxFlowInfo>>,
    start: int,
    middle: int,
    end: int,
    at: nat,
)
    requires
        start <= middle <= end,
    ensures
        tx_blocks(info, flows, start, middle, at).is_prefix_of(
            tx_blocks(info, flows, start, end, at),
        ),
        tx_positions(info, flows, start, middle, at).is_prefix_of(
            tx_positions(info, flows, start, end, at),
        ),
    decreases end - middle,
{
    if middle < end {
        lemma_tx_prefix(info, flows, start, middle, end - 1, at);
        let some = tx_blocks(info, flows, start, end - 1, at);
        let all = tx_blocks(info, flows, start, end, at);
        assert(some.is_prefix_of(all));
        assert(tx_positions(info, flows, start, end - 1, at).is_prefix_of(
            tx_positions(info, flows, start, end, at),
        ));
    }
}

/// A list of flows holds, for each flow that it covers, the description of the flow, where the
/// flows before it end.
pub(crate) proof fn lemma_tx_block_stands(
    info: DeviceInfo,
    flows: Seq<Option<TxFlowInfo>>,
    start: int,
    slot: int,
)
    requires
        0 <= start <= slot < start + flow_lists::covered(flows, start),
        flows[slot] is Some,
    ensures
        ({
            let at = tx_flow_at(info, flows, start, slot);
            let block = tx_flow_block(info, slot, flows[slot]->0, at);
            let payload = tx_flows_payload(info, flows, start);
            flow_lists::stands_at(payload, at as int, block)
        }),
{
    let n = flow_lists::covered(flows, start);
    let first = 2 + 2 * n;
    let before = tx_blocks(info, flows, start, slot, first);
    let at = first + before.len();
    let block = tx_flow_block(info, slot, flows[slot]->0, at);
    let all = tx_blocks(info, flows, start, start + n, first);
    lemma_tx_prefix(info, flows, start, slot + 1, start + n, first);
    lemma_tx_positions(info, flows, start, start + n, first);
    let positions = tx_positions(info, flows, start, start + n, first);
    wire::lemma_be16s_len(positions);
    let header = flow_lists::flows_header(n, positions);
    assert(header.len() == first);
    assert(tx_blocks(info, flows, start, slot + 1, first) == before + block);
    assert((before + block).is_prefix_of(all));
    assert(all.subrange(before.len() as int, (before.len() + block.len()) as int) =~= block) by {
        assert forall|i: int| 0 <= i < block.len() implies all[before.len() + i] == block[i] by {
            assert((before + block)[before.len() + i] == block[i]);
        }
    }
    assert(tx_flows_payload(info, flows, start).subrange(at as int, (at + block.len()) as int)
        =~= all.subrange(before.len() as int, (before.len() + block.len()) as int));
}

/// The parameters of a transmitted flow are the last part of its description.
proof fn lemma_tx_parameters_in_block(info: DeviceInfo, slot: int, flow: TxFlowInfo, at: nat)
    ensures
        ({
            let block = tx_flow_block(info, slot, flow, at);
            let parameters = tx_parameters(
                info,
                slot,
                flow,
                tx_destination_at(info, slot, flow, at),
            );
            let inside = block.len() - parameters.len();
            &&& at + inside == tx_flow_position(info, slot, flow, at) - HEADER_LENGTH
            &&& flow_lists::stands_at(block, inside, parameters)
        }),
{
    reveal(tx_flow_block);
    let block = tx_flow_block(info, slot, flow, at);
    let parameters = tx_parameters(info, slot, flow, tx_destination_at(info, slot, flow, at));
    assert(block.subrange(block.len() - parameters.len(), block.len() as int) =~= parameters);
}

/// For each transmitted flow that a list covers, the list gives its position.
pub proof fn tx_flow_position_is_listed(
    info: DeviceInfo,
    flows: Seq<Option<TxFlowInfo>>,
    start: int,
    slot: int,
)
    requires
        0 <= start <= slot < start + flow_lists::covered(flows, start),
        flows[slot] is Some,
    ensures
        ({
            let flow = flows[slot]->0;
            let n = flow_lists::covered(flows, start);
            let at = tx_flow_at(info, flows, start, slot);
            let positions = tx_positions(info, flows, start, start + n, 2 + 2 * n);
            let before = tx_positions(info, flows, start, slot, 2 + 2 * n).len();
            &&& before < positions.len()
            &&& positions[before as int] == wire::low16(
                tx_flow_position(info, slot, flow, at) as int,
            )
        }),
{
    let n = flow_lists::covered(flows, start);
    lemma_tx_prefix(info, flows, start, slot + 1, start + n, 2 + 2 * n);
    let positions = tx_positions(info, flows, start, start + n, 2 + 2 * n);
    let some = tx_positions(info, flows, start, slot + 1, 2 + 2 * n);
    let before = tx_positions(info, flows, start, slot, 2 + 2 * n).len() as int;
    assert(some.len() == before + 1);
    assert(positions.subrange(0, some.len() as int)[before] == some[before]);
}

/// The parameters of each transmitted flow that a list covers stand at its position.
pub proof fn tx_flow_stands_at_its_position(
    info: DeviceInfo,
    flows: Seq<Option<TxFlowInfo>>,
    start: int,
    slot: int,
)
    requires
        0 <= start <= slot < start + flow_lists::covered(flows, start),
        flows[slot] is Some,
    ensures
        ({
            let flow = flows[slot]->0;
            let at = tx_flow_at(info, flows, start, slot);
            let position = tx_flow_position(info, slot, flow, at);
            let parameters = tx_parameters(
                info,
                slot,
                flow,
                tx_destination_at(info, slot, flow, at),
            );
            let payload = tx_flows_payload(info, flows, start);
            let place = position - HEADER_LENGTH;
            flow_lists::stands_at(payload, place, parameters)
        }),
{
    let flow = flows[slot]->0;
    let at = tx_flow_at(info, flows, start, slot);
    lemma_tx_block_stands(info, flows, start, slot);
    lemma_tx_parameters_in_block(info, slot, flow, at);
    let block = tx_flow_block(info, slot, flow, at);
    let parameters = tx_parameters(info, slot, flow, tx_destination_at(info, slot, flow, at));
    flow_lists::lemma_part(
        tx_flows_payload(info, flows, start),
        at as int,
        block,
        block.len() - parameters.len(),
        parameters,
    );
}

/// The names of each transmitted flow that a list covers, unless they hold a zero character, are
/// read back from the offsets in its description.
pub proof fn tx_flow_names_are_read_back(
    info: DeviceInfo,
    flows: Seq<Option<TxFlowInfo>>,
    start: int,
    slot: int,
)
    requires
        0 <= start <= slot < start + flow_lists::covered(flows, start),
        flows[slot] is Some,
    ensures
        ({
            let flow = flows[slot]->0;
            let payload = tx_flows_payload(info, flows, start);
            let local_name = tx_flow_at(info, flows, start, slot) + HEADER_LENGTH as nat;
            let hostname = local_name + channel_lists::name_len(tx_flow_name(info, slot));
            let remote_name = hostname + channel_lists::name_len(flow.rx_hostname@);
            &&& channel_lists::found(payload, local_name, tx_flow_name(info, slot))
            &&& channel_lists::found(payload, hostname, flow.rx_hostname@)
            &&& channel_lists::found(payload, remote_name, flow.rx_flow_name@)
        }),
{
    let flow = flows[slot]->0;
    let at = tx_flow_at(info, flows, start, slot);
    lemma_tx_block_stands(info, flows, start, slot);
    let block = tx_flow_block(info, slot, flow, at);
    let payload = tx_flows_payload(info, flows, start);
    let own = text::zero_terminated(tx_flow_name(info, slot));
    let host = text::zero_terminated(flow.rx_hostname@);
    let remote = text::zero_terminated(flow.rx_flow_name@);
    let second = own.len() as int;
    let third = second + host.len();
    let end = third + remote.len();
    assert(end <= block.len() && block.subrange(0, second) =~= own && block.subrange(second, third)
        =~= host && block.subrange(third, end) =~= remote) by {
        reveal(tx_flow_block);
        let names = tx_flow_names(info, slot, flow);
        assert(names == own + host + remote);
        assert(forall|i: int| 0 <= i < names.len() ==> block[i] == names[i]);
    }
    if !tx_flow_name(info, slot).contains('\0') {
        channel_lists::lemma_text_in_payload(
            payload,
            at as int,
            block,
            0,
            tx_flow_name(info, slot),
        );
    }
    if !flow.rx_hostname@.contains('\0') {
        channel_lists::lemma_text_in_payload(payload, at as int, block, second, flow.rx_hostname@);
    }
    if !flow.rx_flow_name@.contains('\0') {
        channel_lists::lemma_text_in_payload(payload, at as int, block, third, flow.rx_flow_name@);
    }
}

} // verus!
