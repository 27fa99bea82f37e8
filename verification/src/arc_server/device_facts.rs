//! What the device tells of itself: its names, and how many channels and flows it has.
use bytebuffer::ByteBuffer;
use vstd::prelude::*;
use vstd::slice::slice_to_vec;
use vstd::utf8::*;

use crate::arc_server::channel_lists;
use crate::device_info::{DeviceInfo, FlowLimits};
use crate::packet_buffer;
use crate::protocol::proto_arc::channels_and_flows_count;
use crate::protocol::proto_arc::get_device_names;
use crate::protocol::req_resp::HEADER_LENGTH;
use crate::text;
use crate::wire;

verus! {

/// The numbers of channels and flows fit their fields.
pub open spec fn counts_served(info: DeviceInfo, limits: FlowLimits) -> bool {
    &&& info.tx_channels@.len() + info.rx_channels@.len() <= u16::MAX
    &&& limits.max_tx_flows <= u16::MAX
    &&& limits.max_rx_flows <= u16::MAX
}

/// The payload that tells how many channels and flows the device has.
pub open spec fn counts_payload(info: DeviceInfo, limits: FlowLimits) -> Seq<u8> {
    seq![0x00u8, 0x10] + wire::be16(info.tx_channels@.len() as u16) + wire::be16(
        info.rx_channels@.len() as u16,
    ) + wire::be16(4) + wire::be16(4) + wire::be16(8) + wire::be16(limits.max_tx_flows as u16)
        + wire::be16(limits.max_rx_flows as u16) + wire::be16(
        (info.tx_channels@.len() + info.rx_channels@.len()) as u16,
    ) + wire::be16(1) + wire::be16(1) + wire::zeros(12)
}

/// Whether the numbers of channels and flows fit their fields.
pub fn are_counts_served(info: &DeviceInfo, limits: &FlowLimits) -> (ok: bool)
    ensures
        ok == counts_served(*info, *limits),
{
    let tx: usize = info.tx_channels.len();
    let rx: usize = info.rx_channels.len();
    tx <= 0xffff && rx <= 0xffff && tx + rx <= 0xffff && limits.max_tx_flows <= 0xffff
        && limits.max_rx_flows <= 0xffff
}

/// Tells how many channels and flows the device has.
pub fn channels_and_flows_count(info: &DeviceInfo, limits: &FlowLimits) -> (payload: Vec<u8>)
    requires
        counts_served(*info, *limits),
    ensures
        payload@ == counts_payload(*info, *limits),
{
    let total_channels: usize = info.tx_channels.len() + info.rx_channels.len();
    let response = channels_and_flows_count::Response {
        unknown1_0: 0,
        flags2: channels_and_flows_count::Flags2 {
            unknown1_0: 0,
            supports_tx_channel_rename: true,
            unknown2_0: 0,
        },
        tx_channels_count: info.tx_channels.len() as u16,
        rx_channels_count: info.rx_channels.len() as u16,
        unknown2_4: 4,
        unknown3_4: 4,
        unknown4_8: 8,
        max_tx_flows: limits.max_tx_flows as u16,
        max_rx_flows: limits.max_rx_flows as u16,
        unknown5_total_channels: total_channels as u16,
        unknown6_1: 1,
        unknown7_1: 1,
        unknown8_0: [0; 6],
    };
    proof {
        wire::lemma_be16s_zeros(response.unknown8_0@);
    }
    response.serialize()
}

/// Tells the name of the device.
pub fn device_name(info: &DeviceInfo) -> (payload: Vec<u8>)
    ensures
        payload@ == text::zero_terminated(info.friendly_hostname@),
{
    let mut buff = ByteBuffer::new();
    packet_buffer::put_text(&mut buff, info.friendly_hostname.as_str());
    let payload: Vec<u8> = slice_to_vec(buff.as_bytes());
    assert(payload@ =~= text::zero_terminated(info.friendly_hostname@));
    payload
}

/// The names that the device tells of itself, each with its terminating zero.
pub open spec fn device_names(info: DeviceInfo) -> Seq<u8> {
    text::zero_terminated(info.friendly_hostname@) + text::zero_terminated(info.factory_hostname@)
        + text::zero_terminated(info.board_name@)
}

/// The revision: `:705` and a terminating zero.
pub open spec fn revision() -> Seq<u8> {
    seq![0x3au8, 0x37, 0x30, 0x35, 0x00]
}

/// The offset of the name that the user gave the device, from the start of the packet.
pub open spec fn friendly_hostname_offset() -> nat {
    48
}

/// The offset of the name that the device was made with.
pub open spec fn factory_hostname_offset(info: DeviceInfo) -> nat {
    friendly_hostname_offset() + channel_lists::name_len(info.friendly_hostname@)
}

/// The offset of the name of the board.
pub open spec fn board_name_offset(info: DeviceInfo) -> nat {
    factory_hostname_offset(info) + channel_lists::name_len(info.factory_hostname@)
}

/// The offset of the revision.
pub open spec fn revision_offset(info: DeviceInfo) -> nat {
    board_name_offset(info) + channel_lists::name_len(info.board_name@)
}

/// The offsets of the names fit their fields.
pub open spec fn names_served(info: DeviceInfo) -> bool {
    revision_offset(info) <= u16::MAX
}

/// The offsets in front of the names.
pub open spec fn names_header(info: DeviceInfo) -> Seq<u8> {
    wire::zeros(6) + wire::be16(board_name_offset(info) as u16) + wire::be16(
        revision_offset(info) as u16,
    ) + wire::zeros(2) + wire::be16(friendly_hostname_offset() as u16) + wire::be16(
        factory_hostname_offset(info) as u16,
    ) + wire::be16(friendly_hostname_offset() as u16) + wire::zeros(12) + wire::be16(0x2729)
        + wire::zeros(2) + wire::be16(0x1102) + wire::zeros(2)
}

/// The payload that tells the names of the device and of its board.
pub open spec fn names_payload(info: DeviceInfo) -> Seq<u8> {
    names_header(info) + device_names(info) + revision()
}

/// Whether the offsets of the names fit their fields.
pub fn are_names_served(info: &DeviceInfo) -> (ok: bool)
    ensures
        ok == names_served(*info),
{
    let friendly: usize = info.friendly_hostname.as_str().as_bytes().len();
    let factory: usize = info.factory_hostname.as_str().as_bytes().len();
    let board: usize = info.board_name.as_str().as_bytes().len();
    friendly <= 0xffff && factory <= 0xffff && board <= 0xffff && friendly + factory + board + 51
        <= 0xffff
}

/// The offsets in front of the names, as bytes.
fn make_names_header(
    info: &DeviceInfo,
    friendly_hostname_offset: u16,
    factory_hostname_offset: u16,
    board_name_offset: u16,
    revision_string_offset: u16,
) -> (out: Vec<u8>)
    requires
        friendly_hostname_offset == self::friendly_hostname_offset(),
        factory_hostname_offset == self::factory_hostname_offset(*info),
        board_name_offset == self::board_name_offset(*info),
        revision_string_offset == self::revision_offset(*info),
    ensures
        out@ == names_header(*info),
        out@.len() == 38,
{
    let response = get_device_names::ResponseHeader {
        unknown1_0: 0,
        unknown2_0: 0,
        unknown3_0: 0,
        board_name_offset,
        revision_string_offset,
        unknown4_0: 0,
        friendly_hostname_offset1: friendly_hostname_offset,
        factory_hostname_offset,
        friendly_hostname_offset2: friendly_hostname_offset,
        unknown5_0: [0; 6],
        start_code: 0x2729,
        unknown6_0: 0,
        unknown_opcode_1102: 0x1102,
        unknown7_0: 0,
    };
    let out: Vec<u8> = response.serialize();
    proof {
        wire::lemma_be16s_zeros(response.unknown5_0@);
        assert(wire::be16(0) =~= wire::zeros(2));
        assert(wire::zeros(2) + wire::zeros(2) + wire::zeros(2) =~= wire::zeros(6));
        assert(out@ =~= names_header(*info));
    }
    out
}

/// Tells the names of the device and of its board.
pub fn names(info: &DeviceInfo) -> (payload: Vec<u8>)
    requires
        names_served(*info),
    ensures
        payload@ == names_payload(*info),
{
    let mut bytes = ByteBuffer::new();
    packet_buffer::put_bytes(&mut bytes, wire::zero_bytes(38).as_slice());
    let friendly_hostname_offset: u16 = (bytes.get_wpos() + HEADER_LENGTH) as u16;
    packet_buffer::put_text(&mut bytes, info.friendly_hostname.as_str());
    let factory_hostname_offset: u16 = (bytes.get_wpos() + HEADER_LENGTH) as u16;
    packet_buffer::put_text(&mut bytes, info.factory_hostname.as_str());
    let board_name_offset: u16 = (bytes.get_wpos() + HEADER_LENGTH) as u16;
    packet_buffer::put_text(&mut bytes, info.board_name.as_str());
    let revision_string_offset: u16 = (bytes.get_wpos() + HEADER_LENGTH) as u16;
    packet_buffer::put_bytes(&mut bytes, [0x3au8, 0x37, 0x30, 0x35, 0x00].as_slice());
    let header: Vec<u8> = make_names_header(
        info,
        friendly_hostname_offset,
        factory_hostname_offset,
        board_name_offset,
        revision_string_offset,
    );
    let ghost filled = packet_buffer::buffer_bytes(bytes);
    bytes.set_wpos(0);
    bytes.write_bytes(header.as_slice());
    let payload: Vec<u8> = slice_to_vec(bytes.as_bytes());
    proof {
        assert([0x3au8, 0x37, 0x30, 0x35, 0x00]@ =~= revision());
        assert(filled =~= wire::zeros(38) + device_names(*info) + revision());
        assert(payload@ =~= names_payload(*info));
    }
    payload
}

/// Each name, unless it holds a zero character, and the revision are read back from the offsets
/// that the header gives for them.
pub proof fn device_names_are_read_back(info: DeviceInfo)
    ensures
        channel_lists::found(
            names_payload(info),
            friendly_hostname_offset(),
            info.friendly_hostname@,
        ),
        channel_lists::found(
            names_payload(info),
            factory_hostname_offset(info),
            info.factory_hostname@,
        ),
        channel_lists::found(names_payload(info), board_name_offset(info), info.board_name@),
        text::text_at(names_payload(info), revision_offset(info) - HEADER_LENGTH) == Ok::<
            Seq<char>,
            text::ReadTextError,
        >(":705"@),
{
    let header = names_header(info);
    let friendly = text::zero_terminated(info.friendly_hostname@);
    let factory = text::zero_terminated(info.factory_hostname@);
    let board = text::zero_terminated(info.board_name@);
    let payload = names_payload(info);
    assert(payload =~= header + friendly + (factory + board + revision()));
    assert(payload =~= (header + friendly) + factory + (board + revision()));
    assert(payload =~= (header + friendly + factory) + board + revision());
    if !info.friendly_hostname@.contains('\0') {
        text::written_text_is_read_back(
            header,
            info.friendly_hostname@,
            factory + board + revision(),
        );
    }
    if !info.factory_hostname@.contains('\0') {
        text::written_text_is_read_back(
            header + friendly,
            info.factory_hostname@,
            board + revision(),
        );
    }
    if !info.board_name@.contains('\0') {
        text::written_text_is_read_back(header + friendly + factory, info.board_name@, revision());
    }
    lemma_revision();
    let front = header + friendly + factory + board;
    assert(payload =~= front + text::zero_terminated(":705"@) + Seq::<u8>::empty());
    text::written_text_is_read_back(front, ":705"@, Seq::empty());
}

/// The bytes of the revision are its text.
pub(crate) proof fn lemma_revision()
    ensures
        text::zero_terminated(":705"@) == revision(),
        !":705"@.contains('\0'),
{
    reveal_strlit(":705");
    let revision_text = ":705"@;
    assert(is_ascii_chars(revision_text));
    is_ascii_chars_encode_utf8(revision_text);
    let bytes = encode_utf8(revision_text);
    assert(bytes[0] == revision_text[0] as u8);
    assert(bytes[1] == revision_text[1] as u8);
    assert(bytes[2] == revision_text[2] as u8);
    assert(bytes[3] == revision_text[3] as u8);
    assert(text::zero_terminated(":705"@) =~= revision());
}

} // verus!
