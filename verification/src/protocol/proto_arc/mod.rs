//! The audio routing control protocol: its messages, and lists that are sent page by page.
use bytebuffer::ByteBuffer;
use vstd::prelude::*;
use vstd::slice::{slice_subrange, slice_to_vec};

use crate::packet_buffer;
use crate::protocol::req_resp::{CODE_OK, HEADER_LENGTH};
use crate::wire;

pub mod channels_and_flows_count;
pub mod get_device_names;
pub mod get_receive_channels;
pub mod get_transmit_channels;
pub mod get_transmit_channels_friendly_names;
pub mod rename_tx_channel;

verus! {

/// A page is closed once it has grown to this many bytes, header included.
pub const PACKET_SIZE_SOFT_LIMIT: usize = 800;

/// The UDP port of the protocol.
pub const PORT: u16 = 4440;

/// Asks for the name of the device.
pub const GET_DEVICE_NAME_OPCODE: u16 = 0x1002;

/// The response code that tells that more items follow on another page.
pub const CODE_MORE: u16 = 0x8112;

/// A list that is sent page by page. Each item has a descriptor of fixed size, and data that the
/// descriptor refers to by offsets from the start of the packet.
pub trait ItemSource {
    /// How many items the list has.
    spec fn count(&self) -> nat;

    /// The size of each descriptor, in bytes.
    spec fn descriptor_size() -> nat;

    /// The data of an item. The first item on a page also brings what the whole page shares.
    spec fn data(&self, index: int, first: bool) -> Seq<u8>;

    /// The descriptor of an item whose data starts at offset `at`, on a page where the data of
    /// the first item starts at offset `base`.
    spec fn descriptor(&self, index: int, first: bool, base: nat, at: nat) -> Seq<u8>;

    /// Every number in the descriptor fits its field.
    spec fn encodable(&self, index: int, first: bool, base: nat, at: nat) -> bool;

    proof fn lemma_descriptor_len(&self, index: int, first: bool, base: nat, at: nat)
        ensures
            self.descriptor(index, first, base, at).len() == Self::descriptor_size(),
    ;

    fn item_count(&self) -> (n: usize)
        ensures
            n == self.count(),
    ;

    fn item_size() -> (n: usize)
        ensures
            n == Self::descriptor_size(),
    ;

    /// Whether every number in the descriptor fits its field.
    fn is_encodable(&self, index: usize, first: bool, base: usize, at: usize) -> (ok: bool)
        requires
            index < self.count(),
        ensures
            ok == self.encodable(index as int, first, base as nat, at as nat),
    ;

    /// The length of the data of an item, or `cap` if it is longer.
    fn data_len(&self, index: usize, first: bool, cap: usize) -> (n: usize)
        requires
            index < self.count(),
            cap <= 0x7fff,
        ensures
            n == cap <==> self.data(index as int, first).len() >= cap,
            n < cap ==> n == self.data(index as int, first).len(),
            n <= cap,
    ;

    /// Appends the data of an item and returns its descriptor.
    fn write_item(&self, index: usize, first: bool, base: usize, bytes: &mut ByteBuffer) -> (out:
        Vec<u8>)
        requires
            index < self.count(),
            packet_buffer::at_end(*old(bytes)),
            self.encodable(
                index as int,
                first,
                base as nat,
                packet_buffer::buffer_bytes(*old(bytes)).len(),
            ),
        ensures
            packet_buffer::at_end(*final(bytes)),
            packet_buffer::buffer_bytes(*final(bytes)) == packet_buffer::buffer_bytes(*old(bytes))
                + self.data(index as int, first),
            out@ == self.descriptor(
                index as int,
                first,
                base as nat,
                packet_buffer::buffer_bytes(*old(bytes)).len(),
            ),
    ;
}

/// The offset of the first data byte on a page with room for `space` descriptors.
pub open spec fn data_base<I: ItemSource>(space: nat) -> nat {
    HEADER_LENGTH as nat + 2 + space * I::descriptor_size()
}

/// The data of the first `n` items of the page that starts with item `start`.
pub open spec fn data_of_first<I: ItemSource>(items: I, start: nat, n: nat) -> Seq<u8>
    decreases n,
{
    if n == 0 {
        Seq::empty()
    } else {
        data_of_first(items, start, (n - 1) as nat) + items.data(start + n - 1, n == 1)
    }
}

/// The offset of the data of item `start + n` on a page with room for `space` descriptors.
pub open spec fn data_offset<I: ItemSource>(items: I, start: nat, space: nat, n: nat) -> nat {
    data_base::<I>(space) + data_of_first(items, start, n).len()
}

/// The descriptors of the first `n` items of the page that starts with item `start`.
pub open spec fn descriptors_of_first<I: ItemSource>(
    items: I,
    start: nat,
    space: nat,
    n: nat,
) -> Seq<u8>
    decreases n,
{
    if n == 0 {
        Seq::empty()
    } else {
        descriptors_of_first(items, start, space, (n - 1) as nat) + items.descriptor(
            start + n - 1,
            n == 1,
            data_base::<I>(space),
            data_offset(items, start, space, (n - 1) as nat),
        )
    }
}

/// How a page ends.
pub struct PageEnd {
    /// The number of items written to the page.
    pub written: nat,
    /// The number of items that the page announces. The item that makes the page grow to the
    /// limit is written but not announced.
    pub announced: nat,
    /// Whether the page announces that more items follow.
    pub more: bool,
}

/// How the page that starts with item `start` ends, given that its first `n` items left it below
/// the size limit.
pub open spec fn page_end_after<I: ItemSource>(items: I, start: nat, space: nat, n: nat) -> PageEnd
    decreases space - n,
{
    if start + n >= items.count() {
        PageEnd { written: n, announced: n, more: false }
    } else if n >= space {
        PageEnd { written: n, announced: n, more: true }
    } else if data_offset(items, start, space, n + 1) >= PACKET_SIZE_SOFT_LIMIT {
        PageEnd { written: n + 1, announced: n, more: true }
    } else {
        page_end_after(items, start, space, n + 1)
    }
}

/// How the page that starts with item `start` ends. A page without room for items announces no
/// more.
pub open spec fn page_end<I: ItemSource>(items: I, start: nat, space: nat) -> PageEnd {
    if space == 0 {
        PageEnd { written: 0, announced: 0, more: false }
    } else {
        page_end_after(items, start, space, 0)
    }
}

/// The payload of the page that starts with item `start`: the number of descriptors it has room
/// for, the number of items it announces, the descriptors, unused room, the data.
pub open spec fn page_payload<I: ItemSource>(items: I, start: nat, space: nat) -> Seq<u8> {
    let end = page_end(items, start, space);
    seq![space as u8, end.announced as u8] + descriptors_of_first(items, start, space, end.written)
        + wire::zeros(((space - end.written) * I::descriptor_size()) as nat) + data_of_first(
        items,
        start,
        end.written,
    )
}

/// The room for the descriptors can be addressed, and every item that the page holds can be written
/// to it.
pub open spec fn page_encodable<I: ItemSource>(items: I, start: nat, space: nat) -> bool {
    &&& data_base::<I>(space) <= usize::MAX
    &&& forall|n: nat|
        n < page_end(items, start, space).written ==> items.encodable(
            (start + n) as int,
            n == 0,
            data_base::<I>(space),
            #[trigger] data_offset(items, start, space, n),
        )
}

/// A page holds at most as many items as it has room for and as there are.
pub(crate) proof fn lemma_page_end<I: ItemSource>(items: I, start: nat, space: nat, n: nat)
    requires
        n <= space,
        start + n <= items.count() || n == 0,
    ensures
        ({
            let end = page_end_after(items, start, space, n);
            &&& n <= end.announced <= end.written <= space
            &&& start + end.written <= items.count() || end.written == 0
        }),
    decreases space - n,
{
    if start + n < items.count() && n < space && data_offset(items, start, space, n + 1)
        < PACKET_SIZE_SOFT_LIMIT {
        lemma_page_end(items, start, space, n + 1);
    }
}

/// The bytes of a packet while the page is filled: the header and the counters, `n` descriptors,
/// room for the others, the data of `n` items.
#[verifier::opaque]
spec fn packet_after<I: ItemSource>(items: I, start: nat, space: nat, n: nat) -> Seq<u8> {
    wire::zeros(HEADER_LENGTH as nat) + seq![space as u8, 0u8] + descriptors_of_first(
        items,
        start,
        space,
        n,
    ) + wire::zeros(((space - n) * I::descriptor_size()) as nat) + data_of_first(items, start, n)
}

pub(crate) proof fn lemma_descriptors_len<I: ItemSource>(items: I, start: nat, space: nat, n: nat)
    ensures
        descriptors_of_first(items, start, space, n).len() == n * I::descriptor_size(),
    decreases n,
{
    if n > 0 {
        let k = (n - 1) as nat;
        lemma_descriptors_len(items, start, space, k);
        items.lemma_descriptor_len(
            start + n - 1,
            n == 1,
            data_base::<I>(space),
            data_offset(items, start, space, k),
        );
        assert(k * I::descriptor_size() + I::descriptor_size() == n * I::descriptor_size())
            by (nonlinear_arith)
            requires
                n == k + 1,
        ;
    } else {
        assert(n * I::descriptor_size() == 0) by (nonlinear_arith)
            requires
                n == 0,
        ;
    }
}

/// The data of the next item starts behind the packet filled so far.
proof fn lemma_packet_len<I: ItemSource>(items: I, start: nat, space: nat, n: nat)
    requires
        n <= space,
    ensures
        packet_after(items, start, space, n).len() == data_offset(items, start, space, n),
        descriptors_of_first(items, start, space, n).len() == n * I::descriptor_size(),
        n * I::descriptor_size() + (space - n) * I::descriptor_size() == space
            * I::descriptor_size(),
        (space - n) * I::descriptor_size() >= 0,
{
    reveal(packet_after);
    lemma_descriptors_len(items, start, space, n);
    let size = I::descriptor_size();
    assert(n * size + (space - n) * size == space * size) by (nonlinear_arith);
    assert((space - n) * size >= 0) by (nonlinear_arith)
        requires
            n <= space,
            size >= 0,
    ;
}

/// Adding the data of the next item at the end and its descriptor in the first free slot gives
/// the packet with one item more.
proof fn lemma_slot<I: ItemSource>(items: I, start: nat, space: nat, n: nat, descriptor: Seq<u8>)
    requires
        n < space,
        descriptor == items.descriptor(
            (start + n) as int,
            n == 0,
            data_base::<I>(space),
            data_offset(items, start, space, n),
        ),
    ensures
        packet_buffer::overwritten(
            packet_after(items, start, space, n) + items.data((start + n) as int, n == 0),
            12 + n * I::descriptor_size(),
            descriptor,
        ) == packet_after(items, start, space, n + 1),
{
    reveal(packet_after);
    let size = I::descriptor_size();
    lemma_packet_len(items, start, space, n);
    lemma_packet_len(items, start, space, n + 1);
    items.lemma_descriptor_len(
        (start + n) as int,
        n == 0,
        data_base::<I>(space),
        data_offset(items, start, space, n),
    );
    assert(n * size + size == (n + 1) * size) by (nonlinear_arith);
    let data = items.data((start + n) as int, n == 0);
    let before = packet_after(items, start, space, n) + data;
    let after = packet_after(items, start, space, n + 1);
    assert(descriptors_of_first(items, start, space, n + 1) == descriptors_of_first(
        items,
        start,
        space,
        n,
    ) + descriptor);
    assert(data_of_first(items, start, n + 1) == data_of_first(items, start, n) + data);
    assert(before.take((12 + n * size) as int) + descriptor + before.skip(
        (12 + n * size + size) as int,
    ) =~= after);
    assert(before.len() == after.len());
    if before.len() == 12 + n * size + size {
        assert(before.skip((12 + n * size + size) as int) =~= Seq::<u8>::empty());
        assert(before.take((12 + n * size) as int) + descriptor =~= after);
    }
}

/// Whether the room for the descriptors can be addressed, and every item that the page holds can be
/// written to it.
pub fn is_page_encodable<I: ItemSource>(items: &I, start: usize, space_items: u8) -> (ok: bool)
    ensures
        ok == page_encodable(*items, start as nat, space_items as nat),
{
    let space: usize = space_items as usize;
    let count: usize = items.item_count();
    let size: usize = I::item_size();
    if space == 0 {
        assert(space * size == 0) by (nonlinear_arith)
            requires
                space == 0,
        ;
        return true;
    }
    let room: usize = match space.checked_mul(size) {
        Some(room) => room,
        None => {
            return false;
        },
    };
    if room > usize::MAX - HEADER_LENGTH - 2 {
        return false;
    }
    let base: usize = HEADER_LENGTH + 2 + room;
    let mut at: usize = base;
    let mut n: usize = 0;
    while start < count && n < count - start && n < space
        invariant
            space == space_items,
            0 < space <= 255,
            count == items.count(),
            n <= space,
            start + n <= count || n == 0,
            base == data_base::<I>(space as nat),
            at == data_offset(*items, start as nat, space as nat, n as nat),
            at == base || at < PACKET_SIZE_SOFT_LIMIT,
            page_end(*items, start as nat, space as nat) == page_end_after(
                *items,
                start as nat,
                space as nat,
                n as nat,
            ),
            forall|k: nat|
                k < n ==> items.encodable(
                    (start + k) as int,
                    k == 0,
                    data_base::<I>(space as nat),
                    #[trigger] data_offset(*items, start as nat, space as nat, k),
                ),
        decreases space - n,
    {
        proof {
            lemma_page_end(*items, start as nat, space as nat, n as nat);
            lemma_page_end(*items, start as nat, space as nat, (n + 1) as nat);
        }
        if !items.is_encodable(start + n, n == 0, base, at) {
            assert(!items.encodable(
                (start + n) as int,
                n == 0,
                data_base::<I>(space as nat),
                data_offset(*items, start as nat, space as nat, n as nat),
            ));
            return false;
        }
        if at >= PACKET_SIZE_SOFT_LIMIT {
            return true;
        }
        let grown: usize = items.data_len(start + n, n == 0, PACKET_SIZE_SOFT_LIMIT);
        if at + grown >= PACKET_SIZE_SOFT_LIMIT {
            return true;
        }
        at = at + grown;
        n = n + 1;
    }
    true
}

/// Setting the counter of announced items finishes the page.
proof fn lemma_payload<I: ItemSource>(items: I, start: nat, space: nat)
    requires
        0 < space <= 255,
    ensures
        ({
            let end = page_end(items, start, space);
            let packet = packet_after(items, start, space, end.written);
            &&& end.announced <= end.written <= space
            &&& packet.len() >= 12
            &&& packet_buffer::overwritten(packet, 11, seq![end.announced as u8]).skip(10)
                == page_payload(items, start, space)
        }),
{
    reveal(packet_after);
    lemma_page_end(items, start, space, 0);
    let end = page_end(items, start, space);
    lemma_packet_len(items, start, space, end.written);
    let packet = packet_after(items, start, space, end.written);
    assert(packet_buffer::overwritten(packet, 11, seq![end.announced as u8]).skip(10)
        =~= page_payload(items, start, space));
}

/// Adds the next item to a page that holds `n` items. Returns the size of the packet.
fn add_item<I: ItemSource>(
    items: &I,
    start: usize,
    space: usize,
    n: usize,
    base: usize,
    bytes: &mut ByteBuffer,
) -> (size: usize)
    requires
        n < space <= 255,
        start + n < items.count(),
        base == data_base::<I>(space as nat),
        items.encodable(
            start + n,
            n == 0,
            base as nat,
            data_offset(*items, start as nat, space as nat, n as nat),
        ),
        packet_buffer::at_end(*old(bytes)),
        packet_buffer::buffer_bytes(*old(bytes)) == packet_after(
            *items,
            start as nat,
            space as nat,
            n as nat,
        ),
    ensures
        packet_buffer::at_end(*final(bytes)),
        packet_buffer::buffer_bytes(*final(bytes)) == packet_after(
            *items,
            start as nat,
            space as nat,
            (n + 1) as nat,
        ),
        size == data_offset(*items, start as nat, space as nat, (n + 1) as nat),
{
    let count: usize = items.item_count();
    let item_size: usize = I::item_size();
    proof {
        lemma_packet_len(*items, start as nat, space as nat, n as nat);
        lemma_packet_len(*items, start as nat, space as nat, (n + 1) as nat);
        items.lemma_descriptor_len(
            start + n,
            n == 0,
            base as nat,
            data_offset(*items, start as nat, space as nat, n as nat),
        );
    }
    assert((n + 1) * item_size <= space * item_size && n * item_size + item_size == (n + 1)
        * item_size) by (nonlinear_arith)
        requires
            n < space,
    ;
    let descriptor: Vec<u8> = items.write_item(start + n, n == 0, base, bytes);
    let prev_pos: usize = bytes.get_wpos();
    bytes.set_wpos(2 + HEADER_LENGTH + n * item_size);
    bytes.write_bytes(descriptor.as_slice());
    bytes.set_wpos(prev_pos);
    proof {
        lemma_slot(*items, start as nat, space as nat, n as nat, descriptor@);
    }
    prev_pos
}

/// Fills the page that starts with item `start` of the list. Returns whether it announces that
/// more items follow, and its payload.
pub fn serialize_items<I: ItemSource>(space_items: u8, items: &I, start: usize) -> (page: (
    bool,
    Vec<u8>,
))
    requires
        page_encodable(*items, start as nat, space_items as nat),
    ensures
        page.0 == page_end(*items, start as nat, space_items as nat).more,
        page.1@ == page_payload(*items, start as nat, space_items as nat),
{
    let mut bytes = ByteBuffer::new();
    let header: Vec<u8> = wire::zero_bytes(HEADER_LENGTH);
    packet_buffer::put_bytes(&mut bytes, header.as_slice());
    packet_buffer::put_u8(&mut bytes, space_items);
    packet_buffer::put_u8(&mut bytes, 0);
    let ghost items_g = *items;
    let ghost start_g = start as nat;
    let ghost space_g = space_items as nat;
    if space_items == 0 {
        let all = bytes.as_bytes();
        let payload: Vec<u8> = slice_to_vec(slice_subrange(all, HEADER_LENGTH, all.len()));
        assert(space_g * I::descriptor_size() == 0) by (nonlinear_arith)
            requires
                space_g == 0,
        ;
        assert(payload@ =~= page_payload(items_g, start_g, space_g));
        return (false, payload);
    }
    let space: usize = space_items as usize;
    let count: usize = items.item_count();
    let size: usize = I::item_size();
    let room: Vec<u8> = wire::zero_bytes(space * size);
    packet_buffer::put_bytes(&mut bytes, room.as_slice());
    let base: usize = HEADER_LENGTH + 2 + space * size;
    let mut actual_items: usize = 0;
    let mut have_more: bool = false;
    proof {
        reveal(packet_after);
        assert(packet_buffer::buffer_bytes(bytes) =~= packet_after(items_g, start_g, space_g, 0));
    }
    let mut open: bool = true;
    while open && start < count && actual_items < count - start
        invariant
            items_g == *items,
            start_g == start,
            space_g == space,
            space_g == space_items,
            0 < space <= 255,
            count == items.count(),
            page_encodable(items_g, start_g, space_g),
            base == data_base::<I>(space_g),
            packet_buffer::at_end(bytes),
            actual_items <= space,
            open ==> !have_more,
            open ==> packet_buffer::buffer_bytes(bytes) == packet_after(
                items_g,
                start_g,
                space_g,
                actual_items as nat,
            ),
            open ==> page_end(items_g, start_g, space_g) == page_end_after(
                items_g,
                start_g,
                space_g,
                actual_items as nat,
            ),
            open ==> start + actual_items <= count || actual_items == 0,
            !open ==> page_end(items_g, start_g, space_g).more == have_more,
            !open ==> page_end(items_g, start_g, space_g).announced == actual_items,
            !open ==> packet_buffer::buffer_bytes(bytes) == packet_after(
                items_g,
                start_g,
                space_g,
                page_end(items_g, start_g, space_g).written,
            ),
        decreases
                (if open {
                    1 + space - actual_items
                } else {
                    0
                }),
    {
        if actual_items >= space {
            have_more = true;
            open = false;
        } else {
            let ghost n = actual_items as nat;
            proof {
                lemma_page_end(items_g, start_g, space_g, n);
                lemma_page_end(items_g, start_g, space_g, n + 1);
                assert(items_g.encodable(
                    (start_g + n) as int,
                    n == 0,
                    data_base::<I>(space_g),
                    data_offset(items_g, start_g, space_g, n),
                ));
            }
            let packet_size: usize = add_item(items, start, space, actual_items, base, &mut bytes);
            if packet_size >= PACKET_SIZE_SOFT_LIMIT {
                have_more = true;
                open = false;
            } else {
                actual_items = actual_items + 1;
            }
        }
    }
    proof {
        lemma_payload(items_g, start_g, space_g);
    }
    bytes.set_wpos(1 + HEADER_LENGTH);
    bytes.write_u8(actual_items as u8);
    let all = bytes.as_bytes();
    let payload: Vec<u8> = slice_to_vec(slice_subrange(all, HEADER_LENGTH, all.len()));
    assert(payload@ =~= all@.skip(10));
    (have_more, payload)
}

/// The index of the item with which the requested page starts: a request carries the number of
/// that item, counted from one, behind two other bytes.
pub open spec fn start_index(request_payload: Seq<u8>) -> Option<nat> {
    if request_payload.len() < 4 || (request_payload[2] == 0 && request_payload[3] == 0) {
        None
    } else {
        Some((wire::u16_of(request_payload[2], request_payload[3]) - 1) as nat)
    }
}

/// Reads from a request the index of the item with which the page is to start.
pub fn extract_start_index(request_payload: &[u8]) -> (start: Option<usize>)
    ensures
        match start {
            Some(index) => start_index(request_payload@) == Some(index as nat),
            None => start_index(request_payload@) is None,
        },
{
    if request_payload.len() < 4 {
        return None;
    }
    let number: u16 = wire::make_u16(request_payload[2], request_payload[3]);
    if number == 0 {
        return None;
    }
    Some((number - 1) as usize)
}

/// A response: its code and its payload.
#[derive(Debug)]
pub struct Reply {
    pub code: u16,
    pub payload: Vec<u8>,
}

/// The code of a page.
pub open spec fn page_code(more: bool) -> u16 {
    if more {
        CODE_MORE
    } else {
        CODE_OK
    }
}

/// Answers a request for a page of the list. A request that names no item gets no answer.
pub fn paginate_respond<I: ItemSource>(
    request_payload: &[u8],
    space_items: u8,
    items: &I,
) -> (reply: Option<Reply>)
    requires
        start_index(request_payload@) matches Some(start) ==> page_encodable(
            *items,
            start,
            space_items as nat,
        ),
    ensures
        match start_index(request_payload@) {
            None => reply is None,
            Some(start) => {
                &&& reply is Some
                &&& reply->0.code == page_code(page_end(*items, start, space_items as nat).more)
                &&& reply->0.payload@ == page_payload(*items, start, space_items as nat)
            },
        },
{
    match extract_start_index(request_payload) {
        None => None,
        Some(start) => {
            let (have_more, payload) = serialize_items(space_items, items, start);
            let code: u16 = if have_more {
                CODE_MORE
            } else {
                CODE_OK
            };
            Some(Reply { code, payload })
        },
    }
}

/// A page with room for items announces that more follow exactly when some item from its start on
/// is not announced. So a client that asks for the page behind the announced items, until no more
/// are promised, gets to the end of the list.
pub proof fn more_is_announced_exactly_while_items_remain<I: ItemSource>(
    items: I,
    start: nat,
    space: nat,
)
    requires
        space > 0,
    ensures
        page_end(items, start, space).more <==> start + page_end(items, start, space).announced
            < items.count(),
        page_end(items, start, space).announced <= space,
        start <= items.count() ==> start + page_end(items, start, space).announced <= items.count(),
{
    lemma_more(items, start, space, 0);
}

proof fn lemma_more<I: ItemSource>(items: I, start: nat, space: nat, n: nat)
    requires
        n <= space,
        start + n <= items.count() || n == 0,
    ensures
        ({
            let end = page_end_after(items, start, space, n);
            &&& end.more <==> start + end.announced < items.count()
            &&& end.announced <= space
            &&& start <= items.count() ==> start + end.announced <= items.count()
        }),
    decreases space - n,
{
    if start + n < items.count() && n < space && data_offset(items, start, space, n + 1)
        < PACKET_SIZE_SOFT_LIMIT {
        lemma_more(items, start, space, n + 1);
    }
}

/// A page that starts inside the list announces at least one item, unless that item alone makes the
/// packet grow to the size limit.
pub proof fn page_makes_progress<I: ItemSource>(items: I, start: nat, space: nat)
    requires
        space > 0,
        start < items.count(),
        data_offset(items, start, space, 1) < PACKET_SIZE_SOFT_LIMIT,
    ensures
        page_end(items, start, space).announced >= 1,
{
    lemma_page_end(items, start, space, 1);
    assert(page_end_after(items, start, space, 0) == page_end_after(items, start, space, 1));
}

/// The announced items of a page end below the size limit, and at most one more is written.
pub proof fn announced_items_stay_below_the_limit<I: ItemSource>(items: I, start: nat, space: nat)
    ensures
        page_end(items, start, space).announced > 0 ==> data_offset(
            items,
            start,
            space,
            page_end(items, start, space).announced,
        ) < PACKET_SIZE_SOFT_LIMIT,
        page_end(items, start, space).announced <= page_end(items, start, space).written
            <= page_end(items, start, space).announced + 1,
{
    lemma_below_limit(items, start, space, 0);
}

proof fn lemma_below_limit<I: ItemSource>(items: I, start: nat, space: nat, n: nat)
    requires
        n > 0 ==> data_offset(items, start, space, n) < PACKET_SIZE_SOFT_LIMIT,
    ensures
        ({
            let end = page_end_after(items, start, space, n);
            &&& end.announced > 0 ==> data_offset(items, start, space, end.announced)
                < PACKET_SIZE_SOFT_LIMIT
            &&& end.announced <= end.written <= end.announced + 1
        }),
    decreases space - n,
{
    if start + n < items.count() && n < space && data_offset(items, start, space, n + 1)
        < PACKET_SIZE_SOFT_LIMIT {
        lemma_below_limit(items, start, space, n + 1);
    }
}

pub(crate) proof fn lemma_data_split<I: ItemSource>(items: I, start: nat, n: nat, m: nat)
    requires
        n < m,
    ensures
        data_of_first(items, start, m).len() >= data_of_first(items, start, n + 1).len(),
        data_of_first(items, start, m).take(data_of_first(items, start, n + 1).len() as int)
            == data_of_first(items, start, n + 1),
    decreases m - n,
{
    if m == n + 1 {
        assert(data_of_first(items, start, m).take(data_of_first(items, start, m).len() as int)
            =~= data_of_first(items, start, m));
    } else {
        lemma_data_split(items, start, n, (m - 1) as nat);
        let whole = data_of_first(items, start, m);
        let part = data_of_first(items, start, n + 1);
        let most = data_of_first(items, start, (m - 1) as nat);
        assert(whole.take(part.len() as int) =~= most.take(part.len() as int));
    }
}

/// The offsets that descriptors hold are counted from the start of the packet, so the data of an
/// item is found in the payload that many bytes minus the header from its start.
pub proof fn data_stands_at_its_offset<I: ItemSource>(items: I, start: nat, space: nat, n: nat)
    requires
        space <= 255,
        n < page_end(items, start, space).written,
    ensures
        ({
            let at = data_offset(items, start, space, n) - HEADER_LENGTH;
            let data = items.data((start + n) as int, n == 0);
            &&& 0 <= at
            &&& at + data.len() <= page_payload(items, start, space).len()
            &&& page_payload(items, start, space).subrange(at, at + data.len()) == data
        }),
{
    let end = page_end(items, start, space);
    lemma_page_end(items, start, space, 0);
    lemma_packet_len(items, start, space, end.written);
    lemma_data_split(items, start, n, end.written);
    let at = data_offset(items, start, space, n) - HEADER_LENGTH;
    let data = items.data((start + n) as int, n == 0);
    let before = data_of_first(items, start, n);
    let whole = data_of_first(items, start, end.written);
    assert(data_of_first(items, start, n + 1) == before + data);
    assert(whole.take((before.len() + data.len()) as int) == before + data);
    assert forall|i: int| 0 <= i < data.len() implies whole[before.len() + i] == data[i] by {
        assert(whole.take((before.len() + data.len()) as int)[before.len() + i] == (before + data)[
        before.len() + i]);
    }
    assert(page_payload(items, start, space).subrange(at, at + data.len()) =~= data);
}

/// The descriptor of each item stands in its slot of the payload.
pub proof fn descriptor_stands_in_its_slot<I: ItemSource>(items: I, start: nat, space: nat, n: nat)
    requires
        space <= 255,
        n < page_end(items, start, space).written,
    ensures
        ({
            let size = I::descriptor_size();
            let at = 2 + n * size;
            &&& at + size <= page_payload(items, start, space).len()
            &&& page_payload(items, start, space).subrange(at as int, (at + size) as int)
                == items.descriptor(
                (start + n) as int,
                n == 0,
                data_base::<I>(space),
                data_offset(items, start, space, n),
            )
        }),
{
    let end = page_end(items, start, space);
    let size = I::descriptor_size();
    lemma_page_end(items, start, space, 0);
    lemma_packet_len(items, start, space, end.written);
    lemma_descriptor_split(items, start, space, n, end.written);
    let all = descriptors_of_first(items, start, space, end.written);
    let at: int = (n * size) as int;
    assert(page_payload(items, start, space).subrange(2 + at, 2 + at + size) =~= all.subrange(
        at as int,
        (at + size) as int,
    ));
}

proof fn lemma_descriptor_split<I: ItemSource>(items: I, start: nat, space: nat, n: nat, m: nat)
    requires
        n < m,
    ensures
        ({
            let size = I::descriptor_size();
            let all = descriptors_of_first(items, start, space, m);
            &&& n * size + size <= all.len()
            &&& all.subrange((n * size) as int, (n * size + size) as int) == items.descriptor(
                (start + n) as int,
                n == 0,
                data_base::<I>(space),
                data_offset(items, start, space, n),
            )
        }),
    decreases m,
{
    let size = I::descriptor_size();
    let k = (m - 1) as nat;
    lemma_descriptors_len(items, start, space, m);
    lemma_descriptors_len(items, start, space, k);
    assert(n * size + size <= m * size) by (nonlinear_arith)
        requires
            n + 1 <= m,
    ;
    let all = descriptors_of_first(items, start, space, m);
    if n == k {
        assert(m * size == n * size + size) by (nonlinear_arith)
            requires
                m == n + 1,
        ;
        assert(all.subrange((n * size) as int, (n * size + size) as int) =~= items.descriptor(
            (start + n) as int,
            n == 0,
            data_base::<I>(space),
            data_offset(items, start, space, n),
        ));
    } else {
        lemma_descriptor_split(items, start, space, n, k);
        assert(all.subrange((n * size) as int, (n * size + size) as int) =~= descriptors_of_first(
            items,
            start,
            space,
            k,
        ).subrange((n * size) as int, (n * size + size) as int));
    }
}

} // verus!
