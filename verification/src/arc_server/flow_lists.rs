//! What the lists of transmitted and received flows have in common.
use bytebuffer::ByteBuffer;
use vstd::prelude::*;

use crate::packet_buffer;
use crate::protocol::proto_arc::CODE_MORE;
use crate::protocol::req_resp::{CODE_OK, HEADER_LENGTH};
use crate::wire;

verus! {

/// A response lists at most this many flows.
pub const MAX_FLOWS_IN_RESPONSE: usize = 12;

/// How many flow slots from `start` on are in use.
pub open spec fn used_from<F>(flows: Seq<Option<F>>, start: int) -> nat
    decreases flows.len() - start,
{
    if start < 0 || start >= flows.len() {
        0
    } else if flows[start] is Some {
        1 + used_from(flows, start + 1)
    } else {
        used_from(flows, start + 1)
    }
}

/// How many slots from `start` on a response covers.
pub open spec fn covered<F>(flows: Seq<Option<F>>, start: int) -> nat {
    if used_from(flows, start) < MAX_FLOWS_IN_RESPONSE {
        used_from(flows, start)
    } else {
        MAX_FLOWS_IN_RESPONSE as nat
    }
}

/// The code of a response: it tells whether more flows are in use than the response covers slots.
pub open spec fn flows_code<F>(flows: Seq<Option<F>>, start: int) -> u16 {
    if used_from(flows, start) > covered(flows, start) {
        CODE_MORE
    } else {
        CODE_OK
    }
}

/// How many zero bytes behind `at` bytes of payload bring the packet to a multiple of four bytes.
pub open spec fn padding(at: nat) -> nat {
    ((4 - (at + HEADER_LENGTH) % 4) % 4) as nat
}

/// The start of a response that covers `n` slots: their number, twice, then the positions of the
/// flows, then zeros in place of the positions of slots not in use.
pub open spec fn flows_header(n: nat, positions: Seq<u16>) -> Seq<u8> {
    seq![n as u8, n as u8] + wire::be16s(positions) + wire::zeros(
        (2 * (n - positions.len())) as nat,
    )
}

/// There are at most as many flows in use as slots.
pub(crate) proof fn lemma_used<F>(flows: Seq<Option<F>>, start: int)
    ensures
        start <= flows.len() ==> used_from(flows, start) <= flows.len() - start,
        start >= flows.len() ==> used_from(flows, start) == 0,
    decreases flows.len() - start,
{
    if 0 <= start < flows.len() {
        lemma_used(flows, start + 1);
    }
}

/// Counts the flow slots from `start` on that are in use.
pub(crate) fn count_used<F>(flows: &Vec<Option<F>>, start: usize) -> (n: usize)
    ensures
        n == used_from(flows@, start as int),
        n <= flows@.len(),
{
    let mut n: usize = 0;
    let mut i: usize = start;
    while i < flows.len()
        invariant
            start <= i,
            n <= i - start,
            i <= flows@.len() || i == start,
            used_from(flows@, start as int) == n + used_from(flows@, i as int),
        decreases flows@.len() - i,
    {
        if flows[i].is_some() {
            n = n + 1;
        }
        i = i + 1;
    }
    n
}

/// Writes the positions of the flows over the room that was left for them.
pub(crate) fn put_positions(response: &mut ByteBuffer, positions: &Vec<u16>)
    requires
        packet_buffer::at_end(*old(response)),
        2 + 2 * positions@.len() <= packet_buffer::buffer_bytes(*old(response)).len(),
    ensures
        packet_buffer::buffer_bytes(*final(response)) == packet_buffer::buffer_bytes(
            *old(response),
        ).take(2) + wire::be16s(positions@) + packet_buffer::buffer_bytes(*old(response)).skip(
            (2 + 2 * positions@.len()) as int,
        ),
{
    let ghost before = packet_buffer::buffer_bytes(*response);
    response.set_wpos(2);
    let mut i: usize = 0;
    assert(positions@.take(0) =~= Seq::empty());
    assert(before =~= before.take(2) + wire::be16s(positions@.take(0)) + before.skip(2));
    while i < positions.len()
        invariant
            i <= positions@.len(),
            2 + 2 * positions@.len() <= before.len(),
            packet_buffer::buffer_cursor(*response) == Some((2 + 2 * i) as nat),
            packet_buffer::buffer_bytes(*response) == before.take(2) + wire::be16s(
                positions@.take(i as int),
            ) + before.skip(2 + 2 * i),
        decreases positions@.len() - i,
    {
        let ghost now = packet_buffer::buffer_bytes(*response);
        proof {
            wire::lemma_be16s_len(positions@.take(i as int));
        }
        response.write_u16(positions[i]);
        proof {
            let v = wire::be16(positions@[i as int]);
            assert(positions@.take(i + 1).drop_last() =~= positions@.take(i as int));
            assert(wire::be16s(positions@.take(i + 1)) == wire::be16s(positions@.take(i as int))
                + v);
            let at = (2 + 2 * i) as nat;
            assert(now.take(at as int) =~= before.take(2) + wire::be16s(positions@.take(i as int)));
            assert(now.skip((at + 2) as int) =~= before.skip(2 + 2 * (i + 1)));
            assert(packet_buffer::overwritten(now, at, v) =~= now.take(at as int) + v + now.skip(
                (at + 2) as int,
            ));
        }
        i = i + 1;
    }
    assert(positions@.take(i as int) =~= positions@);
}

/// Where a flow is sent to.
pub open spec fn destination_bytes(port: u16, addr: Seq<u8>) -> Seq<u8> {
    wire::be16(0x0802) + wire::be16(port) + addr
}

/// Appends zero bytes until the packet is a multiple of four bytes long.
pub(crate) fn pad(response: &mut ByteBuffer)
    requires
        packet_buffer::at_end(*old(response)),
    ensures
        packet_buffer::at_end(*final(response)),
        packet_buffer::buffer_bytes(*final(response)) == packet_buffer::buffer_bytes(*old(response))
            + wire::zeros(padding(packet_buffer::buffer_bytes(*old(response)).len())),
{
    let ghost before = packet_buffer::buffer_bytes(*response);
    let mut wpos: usize = response.get_wpos();
    assert(before =~= before + wire::zeros(0));
    while (wpos + HEADER_LENGTH) % 4 != 0
        invariant
            packet_buffer::at_end(*response),
            wpos == packet_buffer::buffer_bytes(*response).len(),
            wpos <= isize::MAX,
            before.len() <= wpos <= before.len() + padding(before.len()),
            packet_buffer::buffer_bytes(*response) == before + wire::zeros(
                (wpos - before.len()) as nat,
            ),
        decreases before.len() + padding(before.len()) - wpos,
    {
        packet_buffer::put_u8(response, 0);
        assert(packet_buffer::buffer_bytes(*response) =~= before + wire::zeros(
            (wpos + 1 - before.len()) as nat,
        ));
        wpos = response.get_wpos();
    }
}

/// The low sixteen bits of an offset.
pub(crate) fn offset16(n: usize) -> (v: u16)
    ensures
        v == wire::low16(n as int),
{
    (n % 0x10000) as u16
}

/// Appends where a flow is sent to.
pub(crate) fn put_destination(response: &mut ByteBuffer, port: u16, addr: &[u8; 4])
    requires
        packet_buffer::at_end(*old(response)),
    ensures
        packet_buffer::at_end(*final(response)),
        packet_buffer::buffer_bytes(*final(response)) == packet_buffer::buffer_bytes(*old(response))
            + destination_bytes(port, addr@),
{
    packet_buffer::put_u16(response, 0x0802);
    packet_buffer::put_u16(response, port);
    packet_buffer::put_bytes(response, addr.as_slice());
    assert(packet_buffer::buffer_bytes(*response) =~= packet_buffer::buffer_bytes(*old(response))
        + destination_bytes(port, addr@));
}

/// Appends the start of a response that covers `n` slots, with room for the positions.
pub(crate) fn put_flows_header(response: &mut ByteBuffer, n: usize)
    requires
        n <= 255,
        packet_buffer::at_end(*old(response)),
        packet_buffer::buffer_bytes(*old(response)).len() == 0,
    ensures
        packet_buffer::at_end(*final(response)),
        packet_buffer::buffer_bytes(*final(response)) == seq![n as u8, n as u8] + wire::zeros(
            (2 * n) as nat,
        ),
{
    packet_buffer::put_u8(response, n as u8);
    packet_buffer::put_u8(response, n as u8);
    let mut i: usize = 0;
    while i < n
        invariant
            i <= n <= 255,
            packet_buffer::at_end(*response),
            packet_buffer::buffer_bytes(*response) == seq![n as u8, n as u8] + wire::zeros(
                (2 * i) as nat,
            ),
        decreases n - i,
    {
        packet_buffer::put_u16(response, 0);
        assert(packet_buffer::buffer_bytes(*response) =~= seq![n as u8, n as u8] + wire::zeros(
            (2 * (i + 1)) as nat,
        ));
        i = i + 1;
    }
}

/// The response with the positions filled in.
pub(crate) proof fn lemma_flows_header(n: nat, positions: Seq<u16>, blocks: Seq<u8>)
    requires
        positions.len() <= n,
    ensures
        ({
            let room = seq![n as u8, n as u8] + wire::zeros(2 * n) + blocks;
            room.take(2) + wire::be16s(positions) + room.skip((2 + 2 * positions.len()) as int)
                == flows_header(n, positions) + blocks
        }),
{
    wire::lemma_be16s_len(positions);
    let room = seq![n as u8, n as u8] + wire::zeros(2 * n) + blocks;
    assert(room.skip((2 + 2 * positions.len()) as int) =~= wire::zeros(
        (2 * (n - positions.len())) as nat,
    ) + blocks);
    assert(room.take(2) =~= seq![n as u8, n as u8]);
    assert(room.take(2) + wire::be16s(positions) + room.skip((2 + 2 * positions.len()) as int)
        =~= flows_header(n, positions) + blocks);
}

/// `part` stands in `payload` from `at` on.
pub open spec fn stands_at(payload: Seq<u8>, at: int, part: Seq<u8>) -> bool {
    &&& 0 <= at
    &&& at + part.len() <= payload.len()
    &&& payload.subrange(at, at + part.len()) == part
}

/// What stands in a stretch of a payload stands in the payload.
pub(crate) proof fn lemma_part(
    payload: Seq<u8>,
    at: int,
    block: Seq<u8>,
    from: int,
    part: Seq<u8>,
)
    requires
        stands_at(payload, at, block),
        stands_at(block, from, part),
    ensures
        stands_at(payload, at + from, part),
{
    assert(payload.subrange(at + from, at + from + part.len()) =~= payload.subrange(
        at,
        at + block.len(),
    ).subrange(from, from + part.len()));
}

} // verus!
