//! The channels of the device, as lists that are sent page by page.
use bytebuffer::ByteBuffer;
use vstd::prelude::*;
use vstd::utf8::*;

use crate::device_info::{ChannelStatus, DeviceInfo};
use crate::packet_buffer;
use crate::protocol::proto_arc::get_receive_channels::{ChannelDescriptor, CommonDescriptor};
use crate::protocol::proto_arc;
use crate::protocol::proto_arc::ItemSource;
use crate::protocol::proto_arc::{get_transmit_channels, get_transmit_channels_friendly_names};
use crate::protocol::req_resp::HEADER_LENGTH;
use crate::text;
use crate::wire;

verus! {

/// The length of the bytes of `name` with their terminating zero.
pub open spec fn name_len(name: Seq<char>) -> nat {
    encode_utf8(name).len() + 1
}

/// `name`, unless it holds a zero character, is what stands in `payload` at `offset`, which is
/// counted from the start of the packet.
pub open spec fn found(payload: Seq<u8>, offset: nat, name: Seq<char>) -> bool {
    !name.contains('\0') ==> text::text_at(payload, offset - HEADER_LENGTH) == Ok::<
        Seq<char>,
        text::ReadTextError,
    >(name)
}

/// The length of the bytes of `name` with their terminating zero, or `cap` if that is longer.
fn capped_name_len(name: &String, cap: usize) -> (n: usize)
    ensures
        name_len(name@) >= cap ==> n == cap,
        name_len(name@) < cap ==> n == name_len(name@),
{
    let len: usize = name.as_str().as_bytes().len();
    if len >= cap || len + 1 >= cap {
        cap
    } else {
        len + 1
    }
}

/// The transmit channels, under the names they were made with.
pub struct TransmitChannels<'a> {
    pub info: &'a DeviceInfo,
}

impl<'a> TransmitChannels<'a> {
    /// What the first item on a page brings for the whole page.
    pub open spec fn shared(&self, first: bool) -> Seq<u8> {
        if first {
            CommonDescriptor::of_device(*self.info).encoded()
        } else {
            Seq::empty()
        }
    }

    /// The offset of the name of an item whose data starts at `at`.
    pub open spec fn name_offset(&self, first: bool, at: nat) -> nat {
        at + self.shared(first).len()
    }
}

impl<'a> ItemSource for TransmitChannels<'a> {
    open spec fn count(&self) -> nat {
        self.info.tx_channels@.len()
    }

    open spec fn descriptor_size() -> nat {
        8
    }

    open spec fn data(&self, index: int, first: bool) -> Seq<u8> {
        self.shared(first) + text::zero_terminated(self.info.tx_channels@[index].factory_name@)
    }

    open spec fn descriptor(&self, index: int, first: bool, base: nat, at: nat) -> Seq<u8> {
        get_transmit_channels::ChannelDescriptor {
            channel_id: (index + 1) as u16,
            unknown1_7: 7,
            common_descriptor_offset: base as u16,
            name_offset: self.name_offset(first, at) as u16,
        }.encoded()
    }

    open spec fn encodable(&self, index: int, first: bool, base: nat, at: nat) -> bool {
        &&& index + 1 <= u16::MAX
        &&& base <= u16::MAX
        &&& self.name_offset(first, at) <= u16::MAX
    }

    proof fn lemma_descriptor_len(&self, index: int, first: bool, base: nat, at: nat) {
    }

    fn item_count(&self) -> (n: usize) {
        self.info.tx_channels.len()
    }

    fn item_size() -> (n: usize) {
        8
    }

    fn is_encodable(&self, index: usize, first: bool, base: usize, at: usize) -> (ok: bool) {
        proof {
            CommonDescriptor::of_device(*self.info).lemma_len();
        }
        let shared: usize = if first {
            16
        } else {
            0
        };
        index < 0xffff && base <= 0xffff && at <= 0xffff && at + shared <= 0xffff
    }

    fn data_len(&self, index: usize, first: bool, cap: usize) -> (n: usize) {
        proof {
            CommonDescriptor::of_device(*self.info).lemma_len();
        }
        let name: usize = capped_name_len(&self.info.tx_channels[index].factory_name, cap);
        let shared: usize = if first {
            16
        } else {
            0
        };
        if name + shared >= cap {
            cap
        } else {
            name + shared
        }
    }

    fn write_item(&self, index: usize, first: bool, base: usize, bytes: &mut ByteBuffer) -> (out:
        Vec<u8>) {
        let ghost start = *bytes;
        if first {
            let shared = CommonDescriptor::new(self.info).serialize();
            packet_buffer::put_bytes(bytes, shared.as_slice());
        }
        assert(packet_buffer::buffer_bytes(*bytes) =~= packet_buffer::buffer_bytes(start)
            + self.shared(first));
        let name_offset: u16 = packet_buffer::write_0term_str_to_bytebuffer(
            bytes,
            self.info.tx_channels[index].factory_name.as_str(),
        );
        assert(packet_buffer::buffer_bytes(*bytes) =~= packet_buffer::buffer_bytes(start)
            + self.data(index as int, first));
        let descriptor = get_transmit_channels::ChannelDescriptor {
            channel_id: (index + 1) as u16,
            unknown1_7: 7,
            common_descriptor_offset: base as u16,
            name_offset,
        };
        descriptor.serialize()
    }
}

/// The transmit channels, under the names that their user gave them.
pub struct TransmitFriendlyNames<'a> {
    pub info: &'a DeviceInfo,
}

impl<'a> TransmitFriendlyNames<'a> {
    /// What the first item on a page brings for the whole page.
    pub open spec fn shared(&self, first: bool) -> Seq<u8> {
        if first {
            wire::be32(0)
        } else {
            Seq::empty()
        }
    }

    /// The offset of the name of an item whose data starts at `at`.
    pub open spec fn name_offset(&self, first: bool, at: nat) -> nat {
        at + self.shared(first).len()
    }
}

impl<'a> ItemSource for TransmitFriendlyNames<'a> {
    open spec fn count(&self) -> nat {
        self.info.tx_channels@.len()
    }

    open spec fn descriptor_size() -> nat {
        6
    }

    open spec fn data(&self, index: int, first: bool) -> Seq<u8> {
        self.shared(first) + text::zero_terminated(self.info.tx_channels@[index].friendly_name@)
    }

    open spec fn descriptor(&self, index: int, first: bool, base: nat, at: nat) -> Seq<u8> {
        get_transmit_channels_friendly_names::ChannelDescriptor {
            channel_id_1: (index + 1) as u16,
            channel_id_2: (index + 1) as u16,
            friendly_name_offset: self.name_offset(first, at) as u16,
        }.encoded()
    }

    open spec fn encodable(&self, index: int, first: bool, base: nat, at: nat) -> bool {
        &&& index + 1 <= u16::MAX
        &&& self.name_offset(first, at) <= u16::MAX
    }

    proof fn lemma_descriptor_len(&self, index: int, first: bool, base: nat, at: nat) {
    }

    fn item_count(&self) -> (n: usize) {
        self.info.tx_channels.len()
    }

    fn item_size() -> (n: usize) {
        6
    }

    fn is_encodable(&self, index: usize, first: bool, base: usize, at: usize) -> (ok: bool) {
        let shared: usize = if first {
            4
        } else {
            0
        };
        index < 0xffff && at <= 0xffff && at + shared <= 0xffff
    }

    fn data_len(&self, index: usize, first: bool, cap: usize) -> (n: usize) {
        let name: usize = capped_name_len(&self.info.tx_channels[index].friendly_name, cap);
        let shared: usize = if first {
            4
        } else {
            0
        };
        if name + shared >= cap {
            cap
        } else {
            name + shared
        }
    }

    fn write_item(&self, index: usize, first: bool, base: usize, bytes: &mut ByteBuffer) -> (out:
        Vec<u8>) {
        let ghost start = *bytes;
        if first {
            packet_buffer::put_u32(bytes, 0);
        }
        assert(packet_buffer::buffer_bytes(*bytes) =~= packet_buffer::buffer_bytes(start)
            + self.shared(first));
        let friendly_name_offset: u16 = packet_buffer::write_0term_str_to_bytebuffer(
            bytes,
            self.info.tx_channels[index].friendly_name.as_str(),
        );
        assert(packet_buffer::buffer_bytes(*bytes) =~= packet_buffer::buffer_bytes(start)
            + self.data(index as int, first));
        let channel_id: u16 = (index + 1) as u16;
        let descriptor = get_transmit_channels_friendly_names::ChannelDescriptor {
            channel_id_1: channel_id,
            channel_id_2: channel_id,
            friendly_name_offset,
        };
        descriptor.serialize()
    }
}

/// The receive channels and what they are subscribed to.
pub struct ReceiveChannels<'a> {
    pub info: &'a DeviceInfo,
    /// The subscription of each channel; a channel beyond the end has none.
    pub subscriptions: &'a Vec<Option<ChannelStatus>>,
}

impl<'a> ReceiveChannels<'a> {
    /// What the first item on a page brings for the whole page.
    pub open spec fn shared(&self, first: bool) -> Seq<u8> {
        if first {
            CommonDescriptor::of_device(*self.info).encoded()
        } else {
            Seq::empty()
        }
    }

    /// The subscription of a channel.
    pub open spec fn subscription(&self, index: int) -> Option<ChannelStatus> {
        if 0 <= index < self.subscriptions@.len() {
            self.subscriptions@[index]
        } else {
            None
        }
    }

    /// The names that a subscription refers to.
    pub open spec fn remote_names(&self, index: int) -> Seq<u8> {
        match self.subscription(index) {
            None => Seq::empty(),
            Some(status) => text::zero_terminated(status.tx_channel_name@) + text::zero_terminated(
                status.tx_hostname@,
            ),
        }
    }

    /// The offset of the name of the remote channel, zero for a channel without a subscription.
    pub open spec fn tx_channel_name_offset(&self, index: int, first: bool, at: nat) -> nat {
        match self.subscription(index) {
            None => 0,
            Some(status) => at + self.shared(first).len(),
        }
    }

    /// The offset of the name of the remote device, zero for a channel without a subscription.
    pub open spec fn tx_hostname_offset(&self, index: int, first: bool, at: nat) -> nat {
        match self.subscription(index) {
            None => 0,
            Some(status) => at + self.shared(first).len() + name_len(status.tx_channel_name@),
        }
    }

    /// The offset of the name of the channel itself.
    pub open spec fn friendly_name_offset(&self, index: int, first: bool, at: nat) -> nat {
        at + self.shared(first).len() + self.remote_names(index).len()
    }

    /// Each name of the channel, unless it holds a zero character, is what stands in `payload` at
    /// the offset that the descriptor gives for it.
    pub open spec fn names_found(
        &self,
        index: int,
        first: bool,
        payload: Seq<u8>,
        at: nat,
    ) -> bool {
        &&& found(
            payload,
            self.friendly_name_offset(index, first, at),
            self.info.rx_channels@[index].friendly_name@,
        )
        &&& self.subscription(index) matches Some(status) ==> {
            &&& found(
                payload,
                self.tx_channel_name_offset(index, first, at),
                status.tx_channel_name@,
            )
            &&& found(payload, self.tx_hostname_offset(index, first, at), status.tx_hostname@)
        }
    }

    fn find_subscription(&self, index: usize) -> (status: Option<&ChannelStatus>)
        ensures
            match status {
                Some(s) => self.subscription(index as int) == Some(*s),
                None => self.subscription(index as int) is None,
            },
    {
        if index < self.subscriptions.len() {
            match &self.subscriptions[index] {
                Some(status) => Some(status),
                None => None,
            }
        } else {
            None
        }
    }
}

impl<'a> ItemSource for ReceiveChannels<'a> {
    open spec fn count(&self) -> nat {
        self.info.rx_channels@.len()
    }

    open spec fn descriptor_size() -> nat {
        20
    }

    open spec fn data(&self, index: int, first: bool) -> Seq<u8> {
        self.shared(first) + self.remote_names(index) + text::zero_terminated(
            self.info.rx_channels@[index].friendly_name@,
        )
    }

    open spec fn descriptor(&self, index: int, first: bool, base: nat, at: nat) -> Seq<u8> {
        ChannelDescriptor {
            channel_id: (index + 1) as u16,
            unknown1_6: 6,
            common_descriptor_offset: base as u16,
            tx_channel_name_offset: self.tx_channel_name_offset(index, first, at) as u16,
            tx_hostname_offset: self.tx_hostname_offset(index, first, at) as u16,
            friendly_name_offset: self.friendly_name_offset(index, first, at) as u16,
            subscription_status: match self.subscription(index) {
                None => 0,
                Some(status) => status.status,
            },
            unknown2_0: 0,
        }.encoded()
    }

    open spec fn encodable(&self, index: int, first: bool, base: nat, at: nat) -> bool {
        &&& index + 1 <= u16::MAX
        &&& base <= u16::MAX
        &&& self.friendly_name_offset(index, first, at) <= u16::MAX
    }

    proof fn lemma_descriptor_len(&self, index: int, first: bool, base: nat, at: nat) {
    }

    fn item_count(&self) -> (n: usize) {
        self.info.rx_channels.len()
    }

    fn item_size() -> (n: usize) {
        20
    }

    fn is_encodable(&self, index: usize, first: bool, base: usize, at: usize) -> (ok: bool) {
        proof {
            CommonDescriptor::of_device(*self.info).lemma_len();
        }
        let shared: usize = if first {
            16
        } else {
            0
        };
        let names: usize = match self.find_subscription(index) {
            None => 0,
            Some(status) => {
                let cap: usize = 0x10000;
                capped_name_len(&status.tx_channel_name, cap) + capped_name_len(
                    &status.tx_hostname,
                    cap,
                )
            },
        };
        index < 0xffff && base <= 0xffff && at <= 0xffff && at + shared + names <= 0xffff
    }

    fn data_len(&self, index: usize, first: bool, cap: usize) -> (n: usize) {
        proof {
            CommonDescriptor::of_device(*self.info).lemma_len();
        }
        let name: usize = capped_name_len(&self.info.rx_channels[index].friendly_name, cap);
        let shared: usize = if first {
            16
        } else {
            0
        };
        let names: usize = match self.find_subscription(index) {
            None => 0,
            Some(status) => capped_name_len(&status.tx_channel_name, cap) + capped_name_len(
                &status.tx_hostname,
                cap,
            ),
        };
        if name + shared + names >= cap {
            cap
        } else {
            name + shared + names
        }
    }

    fn write_item(&self, index: usize, first: bool, base: usize, bytes: &mut ByteBuffer) -> (out:
        Vec<u8>) {
        let ghost start = packet_buffer::buffer_bytes(*bytes);
        if first {
            let shared = CommonDescriptor::new(self.info).serialize();
            packet_buffer::put_bytes(bytes, shared.as_slice());
        }
        assert(packet_buffer::buffer_bytes(*bytes) =~= start + self.shared(first));
        let mut tx_channel_name_offset: u16 = 0;
        let mut tx_hostname_offset: u16 = 0;
        let mut subscription_status: u32 = 0;
        match self.find_subscription(index) {
            None => {},
            Some(status) => {
                tx_channel_name_offset =
                packet_buffer::write_0term_str_to_bytebuffer(
                    bytes,
                    status.tx_channel_name.as_str(),
                );
                tx_hostname_offset =
                packet_buffer::write_0term_str_to_bytebuffer(bytes, status.tx_hostname.as_str());
                subscription_status = status.status;
            },
        }
        assert(packet_buffer::buffer_bytes(*bytes) =~= start + self.shared(first)
            + self.remote_names(index as int));
        let friendly_name_offset: u16 = packet_buffer::write_0term_str_to_bytebuffer(
            bytes,
            self.info.rx_channels[index].friendly_name.as_str(),
        );
        assert(packet_buffer::buffer_bytes(*bytes) =~= start + self.data(index as int, first));
        let descriptor = ChannelDescriptor {
            channel_id: (index + 1) as u16,
            unknown1_6: 6,
            common_descriptor_offset: base as u16,
            tx_channel_name_offset,
            tx_hostname_offset,
            friendly_name_offset,
            subscription_status,
            unknown2_0: 0,
        };
        descriptor.serialize()
    }
}

/// Text inside a stretch of a payload is read back from its place in the payload.
pub(crate) proof fn lemma_text_in_payload(
    payload: Seq<u8>,
    at: int,
    data: Seq<u8>,
    before: int,
    name: Seq<char>,
)
    requires
        0 <= at,
        at + data.len() <= payload.len(),
        payload.subrange(at, at + data.len()) == data,
        0 <= before,
        before + name_len(name) <= data.len(),
        data.subrange(before, before + name_len(name)) == text::zero_terminated(name),
        !name.contains('\0'),
    ensures
        text::text_at(payload, at + before) == Ok::<Seq<char>, text::ReadTextError>(name),
{
    let head = payload.take(at + before);
    let tail = payload.skip(at + before + name_len(name));
    assert(payload =~= head + text::zero_terminated(name) + tail) by {
        assert forall|i: int| 0 <= i < name_len(name) implies payload[at + before + i]
            == text::zero_terminated(name)[i] by {
            assert(payload.subrange(at, at + data.len())[before + i] == data[before + i]);
            assert(data.subrange(before, before + name_len(name))[i] == data[before + i]);
        }
    }
    text::written_text_is_read_back(head, name, tail);
}

/// The name of each transmit channel on a page is read back from the offset in its descriptor.
pub proof fn transmit_channel_name_is_read_back<'a>(
    items: TransmitChannels<'a>,
    start: nat,
    space: nat,
    n: nat,
)
    requires
        space <= 255,
        n < proto_arc::page_end(items, start, space).written,
    ensures
        found(
            proto_arc::page_payload(items, start, space),
            items.name_offset(n == 0, proto_arc::data_offset(items, start, space, n)),
            items.info.tx_channels@[(start + n) as int].factory_name@,
        ),
{
    proto_arc::data_stands_at_its_offset(items, start, space, n);
    let name = items.info.tx_channels@[(start + n) as int].factory_name@;
    let data = items.data((start + n) as int, n == 0);
    let before = items.shared(n == 0).len() as int;
    assert(data.subrange(before, before + name_len(name)) =~= text::zero_terminated(name));
    if !name.contains('\0') {
        lemma_text_in_payload(
            proto_arc::page_payload(items, start, space),
            proto_arc::data_offset(items, start, space, n) - HEADER_LENGTH,
            data,
            before,
            name,
        );
    }
}

/// The name that the user gave each transmit channel on a page is read back from the offset in its
/// descriptor.
pub proof fn transmit_friendly_name_is_read_back<'a>(
    items: TransmitFriendlyNames<'a>,
    start: nat,
    space: nat,
    n: nat,
)
    requires
        space <= 255,
        n < proto_arc::page_end(items, start, space).written,
    ensures
        found(
            proto_arc::page_payload(items, start, space),
            items.name_offset(n == 0, proto_arc::data_offset(items, start, space, n)),
            items.info.tx_channels@[(start + n) as int].friendly_name@,
        ),
{
    proto_arc::data_stands_at_its_offset(items, start, space, n);
    let name = items.info.tx_channels@[(start + n) as int].friendly_name@;
    let data = items.data((start + n) as int, n == 0);
    let before = items.shared(n == 0).len() as int;
    assert(data.subrange(before, before + name_len(name)) =~= text::zero_terminated(name));
    if !name.contains('\0') {
        lemma_text_in_payload(
            proto_arc::page_payload(items, start, space),
            proto_arc::data_offset(items, start, space, n) - HEADER_LENGTH,
            data,
            before,
            name,
        );
    }
}

/// Where the names stand in the data of a receive channel.
pub(crate) proof fn lemma_receive_data<'a>(items: ReceiveChannels<'a>, index: int, first: bool)
    ensures
        ({
            let data = items.data(index, first);
            let shared = items.shared(first).len() as int;
            let friendly_name = items.info.rx_channels@[index].friendly_name@;
            let last = shared + items.remote_names(index).len();
            &&& last + name_len(friendly_name) == data.len()
            &&& data.subrange(last, last + name_len(friendly_name)) == text::zero_terminated(
                friendly_name,
            )
            &&& items.subscription(index) matches Some(status) ==> {
                let second = shared + name_len(status.tx_channel_name@);
                &&& second + name_len(status.tx_hostname@) == last
                &&& data.subrange(shared, second) == text::zero_terminated(status.tx_channel_name@)
                &&& data.subrange(second, last) == text::zero_terminated(status.tx_hostname@)
            }
        }),
{
    let data = items.data(index, first);
    let shared = items.shared(first);
    let names = items.remote_names(index);
    let own = text::zero_terminated(items.info.rx_channels@[index].friendly_name@);
    assert(data == shared + names + own);
    assert(data.subrange((shared.len() + names.len()) as int, data.len() as int) =~= own);
    if let Some(status) = items.subscription(index) {
        let channel = text::zero_terminated(status.tx_channel_name@);
        let host = text::zero_terminated(status.tx_hostname@);
        assert(names == channel + host);
        let second = (shared.len() + channel.len()) as int;
        assert(data.subrange(shared.len() as int, second) =~= channel);
        assert(data.subrange(second, (shared.len() + names.len()) as int) =~= host);
    }
}

/// The names of a receive channel are read back from any payload that holds its data at `at`.
proof fn lemma_receive_names<'a>(
    items: ReceiveChannels<'a>,
    index: int,
    first: bool,
    payload: Seq<u8>,
    at: int,
)
    requires
        0 <= at,
        at + items.data(index, first).len() <= payload.len(),
        payload.subrange(at, at + items.data(index, first).len()) == items.data(index, first),
    ensures
        items.names_found(index, first, payload, (at + HEADER_LENGTH) as nat),
{
    lemma_receive_data(items, index, first);
    let data = items.data(index, first);
    let shared = items.shared(first).len() as int;
    let friendly_name = items.info.rx_channels@[index].friendly_name@;
    let last = shared + items.remote_names(index).len();
    if !friendly_name.contains('\0') {
        lemma_text_in_payload(payload, at, data, last, friendly_name);
    }
    if let Some(status) = items.subscription(index) {
        let channel = status.tx_channel_name@;
        let host = status.tx_hostname@;
        if !channel.contains('\0') {
            lemma_text_in_payload(payload, at, data, shared, channel);
        }
        if !host.contains('\0') {
            lemma_text_in_payload(payload, at, data, shared + name_len(channel), host);
        }
    }
}

/// The name of each receive channel on a page, and the names of what it is subscribed to, are read
/// back from the offsets in its descriptor.
pub proof fn receive_channel_names_are_read_back<'a>(
    items: ReceiveChannels<'a>,
    start: nat,
    space: nat,
    n: nat,
)
    requires
        space <= 255,
        n < proto_arc::page_end(items, start, space).written,
    ensures
        items.names_found(
            (start + n) as int,
            n == 0,
            proto_arc::page_payload(items, start, space),
            proto_arc::data_offset(items, start, space, n),
        ),
{
    proto_arc::data_stands_at_its_offset(items, start, space, n);
    lemma_receive_names(
        items,
        (start + n) as int,
        n == 0,
        proto_arc::page_payload(items, start, space),
        proto_arc::data_offset(items, start, space, n) - HEADER_LENGTH,
    );
}

} // verus!
