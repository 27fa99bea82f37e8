//! What a reader finds on the pages of the channel lists.
use vstd::prelude::*;
use vstd::utf8::*;

use crate::arc_server::channel_lists;
use crate::arc_server::channel_lists::{ReceiveChannels, TransmitChannels, TransmitFriendlyNames};
use crate::arc_server::flow_lists;
use crate::device_info::DeviceInfo;
use crate::laws::messages;
use crate::laws::reading;
use crate::protocol::proto_arc;
use crate::protocol::proto_arc::get_receive_channels;
use crate::protocol::proto_arc::get_receive_channels::CommonDescriptor;
use crate::protocol::proto_arc::get_transmit_channels;
use crate::protocol::proto_arc::get_transmit_channels_friendly_names;
use crate::protocol::proto_arc::ItemSource;
use crate::text;
use crate::wire;

verus! {

/// A request names the first item of the page by its number, counted from one, in its second pair
/// of bytes; one that is too short, or where the number is zero, names none.
pub proof fn page_starts_where_the_request_says(content: Seq<u8>)
    ensures
        match proto_arc::start_index(content) {
            Some(start) => content.len() >= 4 && start + 1 == reading::number16(content, 2),
            None => content.len() < 4 || reading::number16(content, 2) == 0,
        },
{
}

/// A page starts with the number of descriptors that it has room for and the number of items that it
/// announces. It announces items until the list ends, the room is used up, or the packet has grown
/// to 800 bytes. Its code tells whether items are left over. Behind the item that made the packet
/// grow, the room for descriptors stays zero.
pub open spec fn shows_page(
    payload: Seq<u8>,
    code: u16,
    count: int,
    start: int,
    space: int,
    size: int,
) -> bool {
    let announced = payload[1] as int;
    &&& payload.len() >= 2
    &&& payload[0] == space
    &&& space == 0 ==> payload.len() == 2 && announced == 0 && code == 1
    &&& space > 0 ==> {
        &&& payload.len() >= 2 + space * size
        &&& announced <= space
        &&& start + announced <= count || announced == 0
        &&& start + announced >= count || announced == space || payload.len() + 10 >= 800
        &&& code == if start + announced < count {
            0x8112u16
        } else {
            1
        }
        &&& reading::zero_from(
            payload,
            2 + (announced + 1) * size,
            (space - announced - 1) * size,
        )
    }
}

/// A page of any list announces what it holds, and its packet ends where the data of the last item
/// ends.
#[verifier::rlimit(40)]
#[verifier::spinoff_prover]
pub proof fn page_of_any_list_announces_its_items<I: ItemSource>(items: I, start: nat, space: nat)
    requires
        space <= 255,
    ensures
        ({
            let end = proto_arc::page_end(items, start, space);
            let payload = proto_arc::page_payload(items, start, space);
            &&& shows_page(
                payload,
                proto_arc::page_code(end.more),
                items.count() as int,
                start as int,
                space as int,
                I::descriptor_size() as int,
            )
            &&& payload[1] == end.announced
            &&& end.announced <= end.written
            &&& payload.len() + 10 == proto_arc::data_offset(items, start, space, end.written)
        }),
{
    let end = proto_arc::page_end(items, start, space);
    let payload = proto_arc::page_payload(items, start, space);
    let size = I::descriptor_size();
    let room = ((space - end.written) * size) as nat;
    lemma_end(items, start, space);
    proto_arc::announced_items_stay_below_the_limit(items, start, space);
    proto_arc::lemma_descriptors_len(items, start, space, end.written);
    let descriptors = proto_arc::descriptors_of_first(items, start, space, end.written);
    let data = proto_arc::data_of_first(items, start, end.written);
    assert(room == (space - end.written) * size) by {
        assert((space - end.written) * size >= 0) by (nonlinear_arith)
            requires
                end.written <= space,
        ;
    }
    assert(end.written * size + (space - end.written) * size == space * size) by (nonlinear_arith);
    assert(payload == seq![space as u8, end.announced as u8] + descriptors + wire::zeros(room)
        + data);
    assert(payload.len() == 2 + space * size + data.len());
    assert(space == 0 ==> space * size == 0) by (nonlinear_arith);
    if space == 0 {
        assert(data =~= Seq::empty());
    } else {
        proto_arc::more_is_announced_exactly_while_items_remain(items, start, space);
        let from = 2 + (end.announced + 1) * size;
        let n = (space - end.announced - 1) * size;
        assert(end.announced < space ==> from + n == 2 + space * size && from >= 2 + end.written
            * size) by (nonlinear_arith)
            requires
                from == 2 + (end.announced + 1) * size,
                n == (space - end.announced - 1) * size,
                end.written <= end.announced + 1,
        ;
        assert(end.announced == space ==> n <= 0) by (nonlinear_arith)
            requires
                n == (space - end.announced - 1) * size,
        ;
        assert forall|i: int| from <= i < from + n implies #[trigger] payload[i] == 0 by {
            assert(2 + end.written * size <= i < 2 + space * size);
        }
    }
}

/// Where a page ends.
proof fn lemma_end<I: ItemSource>(items: I, start: nat, space: nat)
    ensures
        ({
            let end = proto_arc::page_end(items, start, space);
            &&& end.announced <= end.written <= space
            &&& start + end.written <= items.count() || end.written == 0
            &&& space > 0 ==> start + end.announced >= items.count() || end.announced == space
                || proto_arc::data_offset(items, start, space, end.written) >= 800
        }),
{
    if space > 0 {
        proto_arc::lemma_page_end(items, start, space, 0);
        lemma_closed(items, start, space, 0);
    }
}

proof fn lemma_closed<I: ItemSource>(items: I, start: nat, space: nat, n: nat)
    requires
        n <= space,
    ensures
        ({
            let end = proto_arc::page_end_after(items, start, space, n);
            start + end.announced >= items.count() || end.announced == space
                || proto_arc::data_offset(items, start, space, end.written) >= 800
        }),
    decreases space - n,
{
    if start + n < items.count() && n < space && proto_arc::data_offset(items, start, space, n + 1)
        < 800 {
        lemma_closed(items, start, space, n + 1);
    }
}

/// The data of an announced item ends below 800 bytes.
#[verifier::rlimit(40)]
#[verifier::spinoff_prover]
proof fn lemma_announced<I: ItemSource>(items: I, start: nat, space: nat, n: nat)
    requires
        n < proto_arc::page_end(items, start, space).announced,
    ensures
        n < proto_arc::page_end(items, start, space).written,
        proto_arc::data_offset(items, start, space, n) + items.data(
            (start + n) as int,
            n == 0,
        ).len() < 800,
{
    let end = proto_arc::page_end(items, start, space);
    proto_arc::announced_items_stay_below_the_limit(items, start, space);
    proto_arc::lemma_data_split(items, start, n, end.announced);
    assert(proto_arc::data_of_first(items, start, n + 1) == proto_arc::data_of_first(
        items,
        start,
        n,
    ) + items.data((start + n) as int, n == 0));
}

/// What all channels share is read at `place`.
pub open spec fn shows_common(payload: Seq<u8>, place: int, info: DeviceInfo) -> bool {
    &&& 0 <= place
    &&& place + 16 <= payload.len()
    &&& reading::number32(payload, place) == info.sample_rate
    &&& payload[place + 4] == 1
    &&& payload[place + 5] == 1
    &&& reading::number16(payload, place + 6) == info.bits_per_sample
    &&& reading::number16(payload, place + 8) == 0x400
    &&& reading::number16(payload, place + 10) == info.bits_per_sample
    &&& reading::number16(payload, place + 12) == info.bits_per_sample
    &&& reading::number16(payload, place + 14) == info.pcm_type
}

#[verifier::rlimit(40)]
#[verifier::spinoff_prover]
proof fn lemma_common(payload: Seq<u8>, place: int, info: DeviceInfo)
    requires
        flow_lists::stands_at(payload, place, CommonDescriptor::of_device(info).encoded()),
    ensures
        shows_common(payload, place, info),
{
    let d = CommonDescriptor::of_device(info);
    messages::common_fields_are_read(d);
    let part = d.encoded();
    reading::lemma_in_part(payload, place, part);
    assert(reading::number32(part, 0) == reading::number32(payload, place + 0));
    assert(reading::number16(part, 6) == reading::number16(payload, place + 6));
    assert(reading::number16(part, 8) == reading::number16(payload, place + 8));
    assert(reading::number16(part, 10) == reading::number16(payload, place + 10));
    assert(reading::number16(part, 12) == reading::number16(payload, place + 12));
    assert(reading::number16(part, 14) == reading::number16(payload, place + 14));
    assert(part[4] == payload[place + 4]);
    assert(part[5] == payload[place + 5]);
}

/// A text is spelled at an offset that is counted from the start of the packet, and ends below 800
/// bytes.
pub open spec fn shows_name(payload: Seq<u8>, offset: int, name: Seq<char>) -> bool {
    &&& reading::spells(payload, offset - 10, name)
    &&& offset + encode_utf8(name).len() + 1 < 800
}

/// The text behind `before` bytes of the data of an item is spelled there.
proof fn lemma_name_in_data(
    payload: Seq<u8>,
    at: int,
    data: Seq<u8>,
    before: int,
    name: Seq<char>,
)
    requires
        flow_lists::stands_at(payload, at, data),
        0 <= before,
        before + text::zero_terminated(name).len() <= data.len(),
        data.subrange(before, before + text::zero_terminated(name).len()) == text::zero_terminated(
            name,
        ),
    ensures
        reading::spells(payload, at + before, name),
{
    flow_lists::lemma_part(payload, at, data, before, text::zero_terminated(name));
    reading::lemma_spells(payload, at + before, name);
}

/// The descriptor in slot `k` describes the transmit channel with the index.
pub open spec fn shows_transmit_channel(
    payload: Seq<u8>,
    k: int,
    info: DeviceInfo,
    index: int,
) -> bool {
    let at = 2 + 8 * k;
    &&& reading::number16(payload, at) == index + 1
    &&& reading::number16(payload, at + 2) == 7
    &&& shows_common(payload, reading::number16(payload, at + 4) - 10, info)
    &&& shows_name(
        payload,
        reading::number16(payload, at + 6),
        info.tx_channels@[index].factory_name@,
    )
}

/// What the descriptor in a slot says.
#[verifier::rlimit(40)]
#[verifier::spinoff_prover]
proof fn lemma_transmit_descriptor<'a>(
    items: TransmitChannels<'a>,
    start: nat,
    space: nat,
    k: nat,
)
    requires
        proto_arc::page_encodable(items, start, space),
        space <= 255,
        k < proto_arc::page_end(items, start, space).written,
    ensures
        ({
            let payload = proto_arc::page_payload(items, start, space);
            let at = (2 + 8 * k) as int;
            let name = items.name_offset(
                k == 0,
                proto_arc::data_offset(items, start, space, k),
            );
            &&& reading::number16(payload, at) == start + k + 1
            &&& reading::number16(payload, at + 2) == 7
            &&& reading::number16(payload, at + 4) == 12 + 8 * space
            &&& reading::number16(payload, at + 6) == name
        }),
{
    let payload = proto_arc::page_payload(items, start, space);
    let at = (2 + 8 * k) as int;
    let base = proto_arc::data_base::<TransmitChannels<'a>>(space);
    let offset = proto_arc::data_offset(items, start, space, k);
    proto_arc::descriptor_stands_in_its_slot(items, start, space, k);
    let d = get_transmit_channels::ChannelDescriptor {
        channel_id: (start + k + 1) as u16,
        unknown1_7: 7,
        common_descriptor_offset: base as u16,
        name_offset: items.name_offset(k == 0, offset) as u16,
    };
    assert(items.encodable((start + k) as int, k == 0, base, offset));
    messages::transmit_channel_fields_are_read(d);
    let part = d.encoded();
    assert(flow_lists::stands_at(payload, at, part));
    reading::lemma_in_part(payload, at, part);
    assert(reading::number16(part, 0) == reading::number16(payload, at + 0));
    assert(reading::number16(part, 2) == reading::number16(payload, at + 2));
    assert(reading::number16(part, 4) == reading::number16(payload, at + 4));
    assert(reading::number16(part, 6) == reading::number16(payload, at + 6));
}

/// The name of a transmit channel stands in its data.
#[verifier::rlimit(40)]
#[verifier::spinoff_prover]
proof fn lemma_transmit_name<'a>(items: TransmitChannels<'a>, start: nat, space: nat, k: nat)
    requires
        space <= 255,
        k < proto_arc::page_end(items, start, space).announced,
    ensures
        ({
            let payload = proto_arc::page_payload(items, start, space);
            let name = items.name_offset(
                k == 0,
                proto_arc::data_offset(items, start, space, k),
            );
            shows_name(
                payload,
                name as int,
                items.info.tx_channels@[(start + k) as int].factory_name@,
            )
        }),
{
    let payload = proto_arc::page_payload(items, start, space);
    let index = (start + k) as int;
    let offset = proto_arc::data_offset(items, start, space, k);
    let name = items.info.tx_channels@[index].factory_name@;
    let data = items.data(index, k == 0);
    let before = items.shared(k == 0).len() as int;
    lemma_announced(items, start, space, k);
    proto_arc::data_stands_at_its_offset(items, start, space, k);
    assert(data.subrange(before, before + text::zero_terminated(name).len())
        =~= text::zero_terminated(name));
    lemma_name_in_data(payload, offset - 10, data, before, name);
}

/// What all channels share stands in front of the data of the first item.
#[verifier::rlimit(40)]
#[verifier::spinoff_prover]
proof fn lemma_transmit_common<'a>(items: TransmitChannels<'a>, start: nat, space: nat)
    requires
        space <= 255,
        0 < proto_arc::page_end(items, start, space).announced,
    ensures
        shows_common(
            proto_arc::page_payload(items, start, space),
            (2 + 8 * space) as int,
            *items.info,
        ),
{
    let payload = proto_arc::page_payload(items, start, space);
    lemma_announced(items, start, space, 0);
    proto_arc::data_stands_at_its_offset(items, start, space, 0);
    let first = items.data(start as int, true);
    let common = CommonDescriptor::of_device(*items.info).encoded();
    assert(first.subrange(0, common.len() as int) =~= common);
    assert(proto_arc::data_offset(items, start, space, 0) == 12 + 8 * space);
    flow_lists::lemma_part(payload, (2 + 8 * space) as int, first, 0, common);
    lemma_common(payload, (2 + 8 * space) as int, *items.info);
}

/// A page of transmit channels announces the channels from its start on, in order: for each its
/// number, the name it was made with, and what all channels share, through offsets from the start of
/// the packet.
#[verifier::rlimit(40)]
#[verifier::spinoff_prover]
pub proof fn transmit_channels_are_found_on_their_page<'a>(
    items: TransmitChannels<'a>,
    start: nat,
    space: nat,
)
    requires
        proto_arc::page_encodable(items, start, space),
        space <= 255,
    ensures
        ({
            let payload = proto_arc::page_payload(items, start, space);
            let code = proto_arc::page_code(proto_arc::page_end(items, start, space).more);
            &&& shows_page(
                payload,
                code,
                items.info.tx_channels@.len() as int,
                start as int,
                space as int,
                8,
            )
            &&& forall|k: int|
                0 <= k < payload[1] ==> #[trigger] shows_transmit_channel(
                    payload,
                    k,
                    *items.info,
                    start + k,
                )
        }),
{
    page_of_any_list_announces_its_items(items, start, space);
    let payload = proto_arc::page_payload(items, start, space);
    assert forall|k: int| 0 <= k < payload[1] implies #[trigger] shows_transmit_channel(
        payload,
        k,
        *items.info,
        start + k,
    ) by {
        lemma_transmit_shown(items, start, space, k as nat);
    }
}

/// What is read of a transmit channel on a page.
proof fn lemma_transmit_shown<'a>(items: TransmitChannels<'a>, start: nat, space: nat, k: nat)
    requires
        proto_arc::page_encodable(items, start, space),
        space <= 255,
        k < proto_arc::page_end(items, start, space).announced,
    ensures
        shows_transmit_channel(
            proto_arc::page_payload(items, start, space),
            k as int,
            *items.info,
            (start + k) as int,
        ),
{
    proto_arc::announced_items_stay_below_the_limit(items, start, space);
    lemma_transmit_name(items, start, space, k);
    lemma_transmit_common(items, start, space);
    lemma_transmit_descriptor(items, start, space, k);
}

/// The descriptor in slot `k` describes the transmit channel with the index.
pub open spec fn shows_friendly_name(
    payload: Seq<u8>,
    k: int,
    info: DeviceInfo,
    index: int,
) -> bool {
    let at = 2 + 6 * k;
    &&& reading::number16(payload, at) == index + 1
    &&& reading::number16(payload, at + 2) == index + 1
    &&& shows_name(
        payload,
        reading::number16(payload, at + 4),
        info.tx_channels@[index].friendly_name@,
    )
}

#[verifier::rlimit(40)]
#[verifier::spinoff_prover]
proof fn lemma_friendly<'a>(items: TransmitFriendlyNames<'a>, start: nat, space: nat, k: nat)
    requires
        proto_arc::page_encodable(items, start, space),
        space <= 255,
        k < proto_arc::page_end(items, start, space).announced,
    ensures
        shows_friendly_name(
            proto_arc::page_payload(items, start, space),
            k as int,
            *items.info,
            (start + k) as int,
        ),
{
    let payload = proto_arc::page_payload(items, start, space);
    let at = (2 + 6 * k) as int;
    let index = (start + k) as int;
    let base = proto_arc::data_base::<TransmitFriendlyNames<'a>>(space);
    let offset = proto_arc::data_offset(items, start, space, k);
    let name = items.info.tx_channels@[index].friendly_name@;
    let data = items.data(index, k == 0);
    let before = items.shared(k == 0).len() as int;
    lemma_announced(items, start, space, k);
    proto_arc::data_stands_at_its_offset(items, start, space, k);
    assert(data.subrange(before, before + text::zero_terminated(name).len())
        =~= text::zero_terminated(name));
    lemma_name_in_data(payload, offset - 10, data, before, name);
    proto_arc::descriptor_stands_in_its_slot(items, start, space, k);
    let d = get_transmit_channels_friendly_names::ChannelDescriptor {
        channel_id_1: (index + 1) as u16,
        channel_id_2: (index + 1) as u16,
        friendly_name_offset: items.name_offset(k == 0, offset) as u16,
    };
    assert(items.encodable(index, k == 0, base, offset));
    messages::friendly_name_fields_are_read(d);
    let part = d.encoded();
    assert(flow_lists::stands_at(payload, at, part));
    reading::lemma_in_part(payload, at, part);
    assert(reading::number16(part, 0) == reading::number16(payload, at + 0));
    assert(reading::number16(part, 2) == reading::number16(payload, at + 2));
    assert(reading::number16(part, 4) == reading::number16(payload, at + 4));
}

/// A page of the names that the user gave transmit channels announces the channels from its start
/// on, in order: for each its number, twice, and the name, through an offset from the start of the
/// packet. Four zero bytes stand in front of the first name.
#[verifier::rlimit(40)]
#[verifier::spinoff_prover]
pub proof fn friendly_names_are_found_on_their_page<'a>(
    items: TransmitFriendlyNames<'a>,
    start: nat,
    space: nat,
)
    requires
        proto_arc::page_encodable(items, start, space),
        space <= 255,
    ensures
        ({
            let payload = proto_arc::page_payload(items, start, space);
            let code = proto_arc::page_code(proto_arc::page_end(items, start, space).more);
            &&& shows_page(
                payload,
                code,
                items.info.tx_channels@.len() as int,
                start as int,
                space as int,
                6,
            )
            &&& forall|k: int|
                0 <= k < payload[1] ==> #[trigger] shows_friendly_name(
                    payload,
                    k,
                    *items.info,
                    start + k,
                )
            &&& payload[1] > 0 ==> reading::zero_from(payload, (2 + 6 * space) as int, 4)
                && reading::number16(payload, 6) == 12 + 6 * space + 4
        }),
{
    page_of_any_list_announces_its_items(items, start, space);
    let payload = proto_arc::page_payload(items, start, space);
    assert forall|k: int| 0 <= k < payload[1] implies #[trigger] shows_friendly_name(
        payload,
        k,
        *items.info,
        start + k,
    ) by {
        lemma_friendly(items, start, space, k as nat);
    }
    if payload[1] > 0 {
        lemma_friendly_start(items, start, space);
    }
}

#[verifier::rlimit(40)]
#[verifier::spinoff_prover]
proof fn lemma_friendly_start<'a>(items: TransmitFriendlyNames<'a>, start: nat, space: nat)
    requires
        proto_arc::page_encodable(items, start, space),
        space <= 255,
        0 < proto_arc::page_end(items, start, space).written,
    ensures
        ({
            let payload = proto_arc::page_payload(items, start, space);
            &&& reading::zero_from(payload, (2 + 6 * space) as int, 4)
            &&& reading::number16(payload, 6) == 12 + 6 * space + 4
        }),
{
    let payload = proto_arc::page_payload(items, start, space);
    let base = proto_arc::data_base::<TransmitFriendlyNames<'a>>(space);
    proto_arc::data_stands_at_its_offset(items, start, space, 0);
    let first = items.data(start as int, true);
    let place = (2 + 6 * space) as int;
    assert(proto_arc::data_offset(items, start, space, 0) == base);
    assert(base == 12 + 6 * space);
    assert(flow_lists::stands_at(payload, place, first));
    reading::lemma_in_part(payload, place, first);
    assert(items.shared(true).len() == 4);
    assert forall|i: int| place <= i < place + 4 implies #[trigger] payload[i] == 0 by {
        assert(first[i - place] == items.shared(true)[i - place]);
        assert(first[i - place] == payload[place + (i - place)]);
    }
    proto_arc::descriptor_stands_in_its_slot(items, start, space, 0);
    let d = get_transmit_channels_friendly_names::ChannelDescriptor {
        channel_id_1: (start + 1) as u16,
        channel_id_2: (start + 1) as u16,
        friendly_name_offset: items.name_offset(true, base) as u16,
    };
    assert(items.encodable(start as int, true, base, base)) by {
        assert(items.encodable(
            (start + 0) as int,
            true,
            base,
            proto_arc::data_offset(items, start, space, 0),
        ));
    }
    messages::friendly_name_fields_are_read(d);
    let part = d.encoded();
    assert(flow_lists::stands_at(payload, 2, part));
    reading::lemma_in_part(payload, 2, part);
    assert(reading::number16(part, 4) == reading::number16(payload, 2int + 4));
}

/// The descriptor in slot `k` describes the receive channel with the index, and what it is
/// subscribed to.
pub open spec fn shows_receive_channel<'a>(
    payload: Seq<u8>,
    k: int,
    items: ReceiveChannels<'a>,
    index: int,
) -> bool {
    let at = 2 + 20 * k;
    &&& reading::number16(payload, at) == index + 1
    &&& reading::number16(payload, at + 2) == 6
    &&& shows_common(payload, reading::number16(payload, at + 4) - 10, *items.info)
    &&& shows_name(
        payload,
        reading::number16(payload, at + 10),
        items.info.rx_channels@[index].friendly_name@,
    )
    &&& if index < items.subscriptions@.len() && items.subscriptions@[index] is Some {
        let status = items.subscriptions@[index]->0;
        &&& shows_name(payload, reading::number16(payload, at + 6), status.tx_channel_name@)
        &&& shows_name(payload, reading::number16(payload, at + 8), status.tx_hostname@)
        &&& reading::number32(payload, at + 12) == status.status
    } else {
        &&& reading::number16(payload, at + 6) == 0
        &&& reading::number16(payload, at + 8) == 0
        &&& reading::number32(payload, at + 12) == 0
    }
    &&& reading::number32(payload, at + 16) == 0
}

/// What the descriptor in a slot says.
#[verifier::rlimit(40)]
#[verifier::spinoff_prover]
proof fn lemma_receive_descriptor<'a>(
    items: ReceiveChannels<'a>,
    start: nat,
    space: nat,
    k: nat,
)
    requires
        proto_arc::page_encodable(items, start, space),
        space <= 255,
        k < proto_arc::page_end(items, start, space).written,
    ensures
        ({
            let payload = proto_arc::page_payload(items, start, space);
            let at = (2 + 20 * k) as int;
            let index = (start + k) as int;
            let first = k == 0;
            let offset = proto_arc::data_offset(items, start, space, k);
            &&& reading::number16(payload, at) == index + 1
            &&& reading::number16(payload, at + 2) == 6
            &&& reading::number16(payload, at + 4) == 12 + 20 * space
            &&& reading::number16(payload, at + 6) == items.tx_channel_name_offset(
                index,
                first,
                offset,
            )
            &&& reading::number16(payload, at + 8) == items.tx_hostname_offset(
                index,
                first,
                offset,
            )
            &&& reading::number16(payload, at + 10) == items.friendly_name_offset(
                index,
                first,
                offset,
            )
            &&& reading::number32(payload, at + 12) == match items.subscription(index) {
                None => 0u32,
                Some(status) => status.status,
            }
            &&& reading::number32(payload, at + 16) == 0
        }),
{
    let payload = proto_arc::page_payload(items, start, space);
    let at = (2 + 20 * k) as int;
    let index = (start + k) as int;
    let base = proto_arc::data_base::<ReceiveChannels<'a>>(space);
    let offset = proto_arc::data_offset(items, start, space, k);
    proto_arc::descriptor_stands_in_its_slot(items, start, space, k);
    let d = get_receive_channels::ChannelDescriptor {
        channel_id: (index + 1) as u16,
        unknown1_6: 6,
        common_descriptor_offset: base as u16,
        tx_channel_name_offset: items.tx_channel_name_offset(index, k == 0, offset) as u16,
        tx_hostname_offset: items.tx_hostname_offset(index, k == 0, offset) as u16,
        friendly_name_offset: items.friendly_name_offset(index, k == 0, offset) as u16,
        subscription_status: match items.subscription(index) {
            None => 0,
            Some(status) => status.status,
        },
        unknown2_0: 0,
    };
    assert(items.encodable(index, k == 0, base, offset));
    messages::receive_channel_fields_are_read(d);
    let part = d.encoded();
    assert(flow_lists::stands_at(payload, at, part));
    reading::lemma_in_part(payload, at, part);
    assert(reading::number16(part, 0) == reading::number16(payload, at + 0));
    assert(reading::number16(part, 2) == reading::number16(payload, at + 2));
    assert(reading::number16(part, 4) == reading::number16(payload, at + 4));
    assert(reading::number16(part, 6) == reading::number16(payload, at + 6));
    assert(reading::number16(part, 8) == reading::number16(payload, at + 8));
    assert(reading::number16(part, 10) == reading::number16(payload, at + 10));
    assert(reading::number32(part, 12) == reading::number32(payload, at + 12));
    assert(reading::number32(part, 16) == reading::number32(payload, at + 16));
}

/// The names of a receive channel are spelled in any payload that holds its data.
#[verifier::rlimit(40)]
#[verifier::spinoff_prover]
proof fn lemma_receive_spelled<'a>(
    items: ReceiveChannels<'a>,
    index: int,
    first: bool,
    payload: Seq<u8>,
    offset: nat,
)
    requires
        flow_lists::stands_at(payload, offset - 10, items.data(index, first)),
        offset + items.data(index, first).len() < 800,
    ensures
        shows_name(
            payload,
            items.friendly_name_offset(index, first, offset) as int,
            items.info.rx_channels@[index].friendly_name@,
        ),
        items.subscription(index) matches Some(status) ==> {
            &&& shows_name(
                payload,
                items.tx_channel_name_offset(index, first, offset) as int,
                status.tx_channel_name@,
            )
            &&& shows_name(
                payload,
                items.tx_hostname_offset(index, first, offset) as int,
                status.tx_hostname@,
            )
        },
{
    channel_lists::lemma_receive_data(items, index, first);
    let data = items.data(index, first);
    let shared = items.shared(first).len() as int;
    let own = items.info.rx_channels@[index].friendly_name@;
    let last = shared + items.remote_names(index).len();
    lemma_name_in_data(payload, offset - 10, data, last, own);
    if let Some(status) = items.subscription(index) {
        let second = shared + channel_lists::name_len(status.tx_channel_name@);
        lemma_name_in_data(payload, offset - 10, data, shared, status.tx_channel_name@);
        lemma_name_in_data(payload, offset - 10, data, second, status.tx_hostname@);
    }
}

/// The names of a receive channel stand in its data.
#[verifier::rlimit(40)]
#[verifier::spinoff_prover]
proof fn lemma_receive_names<'a>(items: ReceiveChannels<'a>, start: nat, space: nat, k: nat)
    requires
        space <= 255,
        k < proto_arc::page_end(items, start, space).announced,
    ensures
        ({
            let payload = proto_arc::page_payload(items, start, space);
            let index = (start + k) as int;
            let first = k == 0;
            let offset = proto_arc::data_offset(items, start, space, k);
            &&& shows_name(
                payload,
                items.friendly_name_offset(index, first, offset) as int,
                items.info.rx_channels@[index].friendly_name@,
            )
            &&& items.subscription(index) matches Some(status) ==> {
                &&& shows_name(
                    payload,
                    items.tx_channel_name_offset(index, first, offset) as int,
                    status.tx_channel_name@,
                )
                &&& shows_name(
                    payload,
                    items.tx_hostname_offset(index, first, offset) as int,
                    status.tx_hostname@,
                )
            }
        }),
{
    let payload = proto_arc::page_payload(items, start, space);
    let index = (start + k) as int;
    let offset = proto_arc::data_offset(items, start, space, k);
    lemma_announced(items, start, space, k);
    proto_arc::data_stands_at_its_offset(items, start, space, k);
    lemma_receive_spelled(items, index, k == 0, payload, offset);
}

/// What all channels share stands in front of the data of the first item.
#[verifier::rlimit(40)]
#[verifier::spinoff_prover]
proof fn lemma_receive_common<'a>(items: ReceiveChannels<'a>, start: nat, space: nat)
    requires
        space <= 255,
        0 < proto_arc::page_end(items, start, space).announced,
    ensures
        shows_common(
            proto_arc::page_payload(items, start, space),
            (2 + 20 * space) as int,
            *items.info,
        ),
{
    let payload = proto_arc::page_payload(items, start, space);
    lemma_announced(items, start, space, 0);
    proto_arc::data_stands_at_its_offset(items, start, space, 0);
    let first = items.data(start as int, true);
    let common = CommonDescriptor::of_device(*items.info).encoded();
    assert(first.subrange(0, common.len() as int) =~= common);
    assert(proto_arc::data_offset(items, start, space, 0) == 12 + 20 * space);
    flow_lists::lemma_part(payload, (2 + 20 * space) as int, first, 0, common);
    lemma_common(payload, (2 + 20 * space) as int, *items.info);
}

/// A page of receive channels announces the channels from its start on, in order: for each its
/// number, its name, what all channels share, and, if it is subscribed to a channel, the names of
/// that channel and its device and the state of the subscription, and otherwise zeros.
#[verifier::rlimit(40)]
#[verifier::spinoff_prover]
pub proof fn receive_channels_are_found_on_their_page<'a>(
    items: ReceiveChannels<'a>,
    start: nat,
    space: nat,
)
    requires
        proto_arc::page_encodable(items, start, space),
        space <= 255,
    ensures
        ({
            let payload = proto_arc::page_payload(items, start, space);
            let code = proto_arc::page_code(proto_arc::page_end(items, start, space).more);
            &&& shows_page(
                payload,
                code,
                items.info.rx_channels@.len() as int,
                start as int,
                space as int,
                20,
            )
            &&& forall|k: int|
                0 <= k < payload[1] ==> #[trigger] shows_receive_channel(
                    payload,
                    k,
                    items,
                    start + k,
                )
        }),
{
    page_of_any_list_announces_its_items(items, start, space);
    let payload = proto_arc::page_payload(items, start, space);
    assert forall|k: int| 0 <= k < payload[1] implies #[trigger] shows_receive_channel(
        payload,
        k,
        items,
        start + k,
    ) by {
        lemma_receive_shown(items, start, space, k as nat);
    }
}

/// What is read of a receive channel on a page.
proof fn lemma_receive_shown<'a>(items: ReceiveChannels<'a>, start: nat, space: nat, k: nat)
    requires
        proto_arc::page_encodable(items, start, space),
        space <= 255,
        k < proto_arc::page_end(items, start, space).announced,
    ensures
        shows_receive_channel(
            proto_arc::page_payload(items, start, space),
            k as int,
            items,
            (start + k) as int,
        ),
{
    proto_arc::announced_items_stay_below_the_limit(items, start, space);
    lemma_receive_names(items, start, space, k);
    lemma_receive_common(items, start, space);
    lemma_receive_descriptor(items, start, space, k);
}

/// How many items a page holds: those that it announces, and one more where it was closed because
/// of its size.
pub open spec fn held(payload: Seq<u8>, code: u16) -> int {
    payload[1] + if code == 0x8112 && payload[1] < payload[0] {
        1int
    } else {
        0
    }
}

proof fn lemma_held_after<I: ItemSource>(items: I, start: nat, space: nat, n: nat)
    requires
        n <= space,
    ensures
        ({
            let end = proto_arc::page_end_after(items, start, space, n);
            end.written == end.announced + if end.more && end.announced < space {
                1int
            } else {
                0
            }
        }),
    decreases space - n,
{
    if start + n < items.count() && n < space && proto_arc::data_offset(items, start, space, n + 1)
        < 800 {
        lemma_held_after(items, start, space, n + 1);
    }
}

/// The items that a page holds are those that were written to it.
proof fn lemma_held<I: ItemSource>(items: I, start: nat, space: nat)
    requires
        space <= 255,
    ensures
        ({
            let end = proto_arc::page_end(items, start, space);
            let payload = proto_arc::page_payload(items, start, space);
            &&& held(payload, proto_arc::page_code(end.more)) == end.written
            &&& payload.len() + 10 == proto_arc::data_offset(items, start, space, end.written)
            &&& end.written <= space
        }),
{
    page_of_any_list_announces_its_items(items, start, space);
    lemma_end(items, start, space);
    if space > 0 {
        lemma_held_after(items, start, space, 0);
    }
}

/// The size of a text with its zero byte.
pub open spec fn size_of(t: Seq<char>) -> int {
    encode_utf8(t).len() as int + 1
}

/// The offset of the name in descriptor `k` of a page of transmit channels.
pub open spec fn transmit_name_offset(payload: Seq<u8>, k: int) -> int {
    reading::number16(payload, 2 + 8 * k + 6)
}

/// The names on a page of transmit channels follow each other without a gap, behind what all
/// channels share, which stands behind the descriptors, to the end of the page.
#[verifier::rlimit(40)]
#[verifier::spinoff_prover]
pub proof fn transmit_page_has_no_gaps<'a>(
    items: TransmitChannels<'a>,
    start: nat,
    space: nat,
    k: int,
)
    requires
        proto_arc::page_encodable(items, start, space),
        space <= 255,
    ensures
        ({
            let payload = proto_arc::page_payload(items, start, space);
            let code = proto_arc::page_code(proto_arc::page_end(items, start, space).more);
            let n = held(payload, code);
            let offset = transmit_name_offset(payload, k);
            let name = items.info.tx_channels@[start + k].factory_name@;
            &&& space > 0 && n == 0 ==> payload.len() == 2 + 8 * space
            &&& 0 <= k < n ==> {
                &&& reading::number16(payload, 2 + 8 * k) == start + k + 1
                &&& reading::spells(payload, offset - 10, name)
                &&& k == 0 ==> offset == 12 + 8 * space + 16
                &&& k > 0 ==> offset == transmit_name_offset(payload, k - 1) + size_of(
                    items.info.tx_channels@[start + k - 1].factory_name@,
                )
                &&& k == n - 1 ==> offset + size_of(name) == payload.len() + 10
            }
        }),
{
    lemma_held(items, start, space);
    let payload = proto_arc::page_payload(items, start, space);
    let end = proto_arc::page_end(items, start, space);
    if 0 <= k < end.written {
        let index = start + k;
        let offset = proto_arc::data_offset(items, start, space, k as nat);
        let name = items.info.tx_channels@[index].factory_name@;
        let data = items.data(index, k == 0);
        let before = items.shared(k == 0).len() as int;
        lemma_transmit_descriptor(items, start, space, k as nat);
        proto_arc::data_stands_at_its_offset(items, start, space, k as nat);
        CommonDescriptor::of_device(*items.info).lemma_len();
        assert(data.subrange(before, before + text::zero_terminated(name).len())
            =~= text::zero_terminated(name));
        lemma_name_in_data(payload, offset - 10, data, before, name);
        assert(data.len() == before + size_of(name));
        lemma_next_offset(items, start, space, k as nat);
        if k > 0 {
            lemma_transmit_descriptor(items, start, space, (k - 1) as nat);
            lemma_next_offset(items, start, space, (k - 1) as nat);
        }
    }
}

/// The data of the next item starts where that of this item ends.
proof fn lemma_next_offset<I: ItemSource>(items: I, start: nat, space: nat, n: nat)
    ensures
        proto_arc::data_offset(items, start, space, n + 1) == proto_arc::data_offset(
            items,
            start,
            space,
            n,
        ) + items.data((start + n) as int, n == 0).len(),
        proto_arc::data_offset(items, start, space, 0) == 12 + space * I::descriptor_size(),
{
}

/// The offset of the name in descriptor `k` of a page of the names that the user gave channels.
pub open spec fn friendly_name_offset(payload: Seq<u8>, k: int) -> int {
    reading::number16(payload, 2 + 6 * k + 4)
}

/// What the descriptor in a slot says.
#[verifier::rlimit(40)]
#[verifier::spinoff_prover]
proof fn lemma_friendly_descriptor<'a>(
    items: TransmitFriendlyNames<'a>,
    start: nat,
    space: nat,
    k: nat,
)
    requires
        proto_arc::page_encodable(items, start, space),
        space <= 255,
        k < proto_arc::page_end(items, start, space).written,
    ensures
        ({
            let payload = proto_arc::page_payload(items, start, space);
            let offset = proto_arc::data_offset(items, start, space, k);
            &&& reading::number16(payload, (2 + 6 * k) as int) == start + k + 1
            &&& friendly_name_offset(payload, k as int) == items.name_offset(k == 0, offset)
        }),
{
    let payload = proto_arc::page_payload(items, start, space);
    let at = (2 + 6 * k) as int;
    let index = (start + k) as int;
    let base = proto_arc::data_base::<TransmitFriendlyNames<'a>>(space);
    let offset = proto_arc::data_offset(items, start, space, k);
    proto_arc::descriptor_stands_in_its_slot(items, start, space, k);
    let d = get_transmit_channels_friendly_names::ChannelDescriptor {
        channel_id_1: (index + 1) as u16,
        channel_id_2: (index + 1) as u16,
        friendly_name_offset: items.name_offset(k == 0, offset) as u16,
    };
    assert(items.encodable(index, k == 0, base, offset));
    messages::friendly_name_fields_are_read(d);
    let part = d.encoded();
    assert(flow_lists::stands_at(payload, at, part));
    reading::lemma_in_part(payload, at, part);
    assert(reading::number16(part, 0) == reading::number16(payload, at + 0));
    assert(reading::number16(part, 4) == reading::number16(payload, at + 4));
}

/// The names that the user gave channels follow each other on a page without a gap, behind four zero
/// bytes, to the end of the page.
#[verifier::rlimit(40)]
#[verifier::spinoff_prover]
pub proof fn friendly_names_page_has_no_gaps<'a>(
    items: TransmitFriendlyNames<'a>,
    start: nat,
    space: nat,
    k: int,
)
    requires
        proto_arc::page_encodable(items, start, space),
        space <= 255,
    ensures
        ({
            let payload = proto_arc::page_payload(items, start, space);
            let code = proto_arc::page_code(proto_arc::page_end(items, start, space).more);
            let n = held(payload, code);
            let offset = friendly_name_offset(payload, k);
            let name = items.info.tx_channels@[start + k].friendly_name@;
            &&& space > 0 && n == 0 ==> payload.len() == 2 + 6 * space
            &&& 0 <= k < n ==> {
                &&& reading::number16(payload, 2 + 6 * k) == start + k + 1
                &&& reading::spells(payload, offset - 10, name)
                &&& k == 0 ==> offset == 12 + 6 * space + 4
                &&& k > 0 ==> offset == friendly_name_offset(payload, k - 1) + size_of(
                    items.info.tx_channels@[start + k - 1].friendly_name@,
                )
                &&& k == n - 1 ==> offset + size_of(name) == payload.len() + 10
            }
        }),
{
    lemma_held(items, start, space);
    let payload = proto_arc::page_payload(items, start, space);
    let end = proto_arc::page_end(items, start, space);
    if 0 <= k < end.written {
        let index = start + k;
        let offset = proto_arc::data_offset(items, start, space, k as nat);
        let name = items.info.tx_channels@[index].friendly_name@;
        let data = items.data(index, k == 0);
        let before = items.shared(k == 0).len() as int;
        lemma_friendly_descriptor(items, start, space, k as nat);
        proto_arc::data_stands_at_its_offset(items, start, space, k as nat);
        assert(data.subrange(before, before + text::zero_terminated(name).len())
            =~= text::zero_terminated(name));
        lemma_name_in_data(payload, offset - 10, data, before, name);
        assert(data.len() == before + size_of(name));
        assert(items.shared(true).len() == 4);
        lemma_next_offset(items, start, space, k as nat);
        if k > 0 {
            lemma_friendly_descriptor(items, start, space, (k - 1) as nat);
            lemma_next_offset(items, start, space, (k - 1) as nat);
        }
    }
}

/// The offset of the first text of item `k` on a page of receive channels: the name of the remote
/// channel, if there is one, and otherwise the channel's own.
pub open spec fn receive_texts_offset(payload: Seq<u8>, k: int) -> int {
    if reading::number16(payload, 2 + 20 * k + 6) > 0 {
        reading::number16(payload, 2 + 20 * k + 6)
    } else {
        reading::number16(payload, 2 + 20 * k + 10)
    }
}

/// The texts on a page of receive channels follow each other without a gap, behind what all channels
/// share, to the end of the page: of each channel the names of what it is subscribed to, if it is,
/// and its own name.
#[verifier::rlimit(40)]
#[verifier::spinoff_prover]
pub proof fn receive_page_has_no_gaps<'a>(
    items: ReceiveChannels<'a>,
    start: nat,
    space: nat,
    k: int,
)
    requires
        proto_arc::page_encodable(items, start, space),
        space <= 255,
    ensures
        ({
            let payload = proto_arc::page_payload(items, start, space);
            let code = proto_arc::page_code(proto_arc::page_end(items, start, space).more);
            let n = held(payload, code);
            let at = 2 + 20 * k;
            let own = reading::number16(payload, at + 10);
            let name = items.info.rx_channels@[start + k].friendly_name@;
            &&& space > 0 && n == 0 ==> payload.len() == 2 + 20 * space
            &&& 0 <= k < n ==> {
                &&& reading::number16(payload, at) == start + k + 1
                &&& start + k < items.subscriptions@.len() && items.subscriptions@[start + k] is Some
                    ==> {
                    let status = items.subscriptions@[start + k]->0;
                    let remote = reading::number16(payload, at + 6);
                    let host = reading::number16(payload, at + 8);
                    &&& remote > 0
                    &&& host == remote + size_of(status.tx_channel_name@)
                    &&& own == host + size_of(status.tx_hostname@)
                }
                &&& k == 0 ==> receive_texts_offset(payload, k) == 12 + 20 * space + 16
                &&& k > 0 ==> receive_texts_offset(payload, k) == reading::number16(
                    payload,
                    2 + 20 * (k - 1) + 10,
                ) + size_of(items.info.rx_channels@[start + k - 1].friendly_name@)
                &&& k == n - 1 ==> own + size_of(name) == payload.len() + 10
            }
        }),
{
    lemma_held(items, start, space);
    let end = proto_arc::page_end(items, start, space);
    CommonDescriptor::of_device(*items.info).lemma_len();
    if 0 <= k < end.written {
        lemma_receive_descriptor(items, start, space, k as nat);
        channel_lists::lemma_receive_data(items, start + k, k == 0);
        lemma_next_offset(items, start, space, k as nat);
        if k > 0 {
            lemma_receive_descriptor(items, start, space, (k - 1) as nat);
            channel_lists::lemma_receive_data(items, start + k - 1, k == 1);
            lemma_next_offset(items, start, space, (k - 1) as nat);
        }
    }
}

} // verus!
