//! The numbered messages that the device multicasts.
use vstd::prelude::*;

use crate::device_info::DeviceInfo;
use crate::info_mcast_server::contents;
use crate::info_mcast_server::contents::HeartbeatFacts;
use crate::text;
use crate::wire;

verus! {

pub const DST_PORT_HEARTBEAT: u16 = 8708;

pub const DST_PORT_DEVICE_INFO: u16 = 8702;

/// A message that another part of the device wants to be multicast.
#[derive(Debug)]
pub struct MulticastMessage {
    pub start_code: u16,
    pub opcode: [u8; 8],
    pub content: Vec<u8>,
}

/// An IPv4 address and a UDP port.
#[derive(Debug, Clone, Copy, PartialEq, Eq)]
pub struct Destination {
    pub addr: [u8; 4],
    pub port: u16,
}

/// A packet to be sent.
#[derive(Debug)]
pub struct OutgoingPacket {
    pub destination: Destination,
    pub start_code: u16,
    pub seqnum: u16,
    pub process_id: u16,
    pub factory_device_id: [u8; 8],
    pub vendor: [u8; 8],
    pub opcode: [u8; 8],
    pub content: Vec<u8>,
}

/// What a packet holds.
pub struct Packet {
    pub addr: Seq<u8>,
    pub port: u16,
    pub start_code: u16,
    pub seqnum: u16,
    pub process_id: u16,
    pub factory_device_id: Seq<u8>,
    pub vendor: Seq<u8>,
    pub opcode: Seq<u8>,
    pub content: Seq<u8>,
}

impl View for OutgoingPacket {
    type V = Packet;

    open spec fn view(&self) -> Packet {
        Packet {
            addr: self.destination.addr@,
            port: self.destination.port,
            start_code: self.start_code,
            seqnum: self.seqnum,
            process_id: self.process_id,
            factory_device_id: self.factory_device_id@,
            vendor: self.vendor@,
            opcode: self.opcode@,
            content: self.content@,
        }
    }
}

/// What a list of packets holds.
pub open spec fn packets(outgoing: Seq<OutgoingPacket>) -> Seq<Packet> {
    outgoing.map_values(|p: OutgoingPacket| p@)
}

/// A message before it gets its number and the marks of the device.
pub struct Message {
    /// Whether it goes to the heartbeat group, or to the one for device information.
    pub to_heartbeat: bool,
    pub start_code: u16,
    pub opcode: Seq<u8>,
    pub content: Seq<u8>,
}

/// Makes the packets of one device, and numbers them.
pub struct Multicaster<'s> {
    pub self_info: &'s DeviceInfo,
    /// The number of the next packet.
    pub seqnum: u16,
    pub vendor: [u8; 8],
    pub firmware_version_bytes: [u8; 4],
    pub product_version_bytes: [u8; 4],
    pub device_info_destination: Destination,
    pub heartbeat_destination: Destination,
}

/// What a request to the multicast port asks for.
#[derive(Debug, Clone, Copy, PartialEq, Eq, Structural)]
pub enum InfoRequest {
    /// The packet is too short to hold an opcode.
    TooShort,
    BoardInfo,
    ProductInfo,
    Unknown,
}

/// The opcode of a request asks for the information whose number is `subject`.
pub open spec fn asks_for(packet: Seq<u8>, subject: u8) -> bool {
    &&& packet[24] == 0x07
    &&& packet[26] == 0
    &&& packet[27] == subject
    &&& packet[28] == 0
    &&& packet[29] == 0
    &&& packet[30] == 0
    &&& packet[31] == 0
}

/// What a packet that arrived at the multicast port asks for.
pub open spec fn info_request(packet: Seq<u8>) -> InfoRequest {
    if packet.len() < 32 {
        InfoRequest::TooShort
    } else if asks_for(packet, 0x61) {
        InfoRequest::BoardInfo
    } else if asks_for(packet, 0xc1) {
        InfoRequest::ProductInfo
    } else {
        InfoRequest::Unknown
    }
}

/// Tells what a packet that arrived at the multicast port asks for.
pub fn classify_request(packet: &[u8]) -> (request: InfoRequest)
    ensures
        request == info_request(packet@),
{
    if packet.len() < 32 {
        return InfoRequest::TooShort;
    }
    if packet[24] != 0x07 || packet[26] != 0 || packet[28] != 0 || packet[29] != 0 || packet[30]
        != 0 || packet[31] != 0 {
        return InfoRequest::Unknown;
    }
    match packet[27] {
        0x61 => InfoRequest::BoardInfo,
        0xc1 => InfoRequest::ProductInfo,
        _ => InfoRequest::Unknown,
    }
}

/// The message that describes the board.
pub open spec fn board_info_message(info: DeviceInfo) -> Message {
    Message {
        to_heartbeat: false,
        start_code: 0xffff,
        opcode: seq![0x07u8, 0x2a, 0x00, 0x60, 0x00, 0x00, 0x00, 0x00],
        content: contents::board_info_content(info),
    }
}

/// The message that describes the product.
pub open spec fn product_info_message(info: DeviceInfo, version: Seq<u8>) -> Message {
    Message {
        to_heartbeat: false,
        start_code: 0xffff,
        opcode: seq![0x07u8, 0x2a, 0x00, 0xc0, 0x00, 0x00, 0x00, 0x00],
        content: contents::product_info_content(info, version),
    }
}

/// The messages that are sent before any request is looked at.
pub open spec fn greetings(info: DeviceInfo, version: Seq<u8>) -> Seq<Message> {
    seq![board_info_message(info), product_info_message(info, version)]
}

/// The message that tells the state of the clock, if there is a clock and its master is known.
pub open spec fn clock_status_messages(info: DeviceInfo, facts: HeartbeatFacts) -> Seq<Message> {
    match (facts.freq_offset, facts.master_clock) {
        (Some(freq_offset), Some(master_clock)) => seq![
            Message {
                to_heartbeat: false,
                start_code: 0xffff,
                opcode: seq![0x07u8, 0x2a, 0x00, 0x20, 0x00, 0x00, 0x00, 0x00],
                content: contents::clock_status_content(info, freq_offset, master_clock@),
            },
        ],
        _ => Seq::empty(),
    }
}

/// The messages that are sent once a second. `ctr` is the number of the first of them.
pub open spec fn heartbeat_messages(info: DeviceInfo, ctr: u16, facts: HeartbeatFacts) -> Seq<
    Message,
> {
    clock_status_messages(info, facts) + seq![
        Message {
            to_heartbeat: true,
            start_code: 0xfffe,
            opcode: seq![0x00u8, 0x08, 0x00, 0x01, 0x10, 0x00, 0x00, 0x00],
            content: contents::heartbeat_content(info, ctr, facts),
        },
        Message {
            to_heartbeat: false,
            start_code: 0xffff,
            opcode: seq![0x07u8, 0x2a, 0x00, 0x78, 0x00, 0x00, 0x00, 0x00],
            content: seq![0x00u8, 0x00, 0x00, 0x03, 0x00, 0x00, 0x00, 0x00],
        },
        Message {
            to_heartbeat: false,
            start_code: 0xffff,
            opcode: seq![0x07u8, 0x2a, 0x10, 0x07, 0x00, 0x00, 0x00, 0x00],
            content: wire::zeros(4),
        },
        Message {
            to_heartbeat: false,
            start_code: 0xffff,
            opcode: seq![0x07u8, 0x2a, 0x00, 0x11, 0x00, 0x00, 0x00, 0x00],
            content: contents::network_content(info),
        },
    ]
}

impl<'s> Multicaster<'s> {
    /// The packets go to the groups of the protocol, under the vendor of the device.
    pub open spec fn well_formed(&self) -> bool {
        &&& self.vendor@ == text::with_text(
            Seq::new(8, |i: int| 32u8),
            0,
            8,
            self.self_info.vendor_string@,
        )
        &&& self.device_info_destination.addr@ == seq![224u8, 0, 0, 231]
        &&& self.device_info_destination.port == DST_PORT_DEVICE_INFO
        &&& self.heartbeat_destination.addr@ == seq![224u8, 0, 0, 233]
        &&& self.heartbeat_destination.port == DST_PORT_HEARTBEAT
    }

    /// The number of the packet that is sent when `k` others have been sent from now on.
    pub open spec fn number(&self, k: nat) -> u16 {
        ((self.seqnum + k) % 0x10000) as u16
    }

    /// The state when `k` packets have been sent.
    pub open spec fn after(&self, k: nat) -> Multicaster<'s> {
        Multicaster { seqnum: self.number(k), ..*self }
    }

    /// The packet that carries a message when `k` others have been sent from now on.
    pub open spec fn packet(&self, k: nat, message: Message) -> Packet {
        let destination = if message.to_heartbeat {
            self.heartbeat_destination
        } else {
            self.device_info_destination
        };
        Packet {
            addr: destination.addr@,
            port: destination.port,
            start_code: message.start_code,
            seqnum: self.number(k),
            process_id: self.self_info.process_id,
            factory_device_id: self.self_info.factory_device_id@,
            vendor: self.vendor@,
            opcode: message.opcode,
            content: message.content,
        }
    }

    /// The packets that carry `messages`, numbered in order.
    pub open spec fn packets_of(&self, messages: Seq<Message>) -> Seq<Packet> {
        Seq::new(messages.len(), |k: int| self.packet(k as nat, messages[k]))
    }

    /// Starts numbering at one. The version of the product has a major, a minor and a patch number.
    pub fn new(self_info: &'s DeviceInfo, major: u8, minor: u8, patch: u16) -> (r: Multicaster<'s>)
        ensures
            r.well_formed(),
            r.self_info == self_info,
            r.seqnum == 1,
            r.firmware_version_bytes@ == seq![4u8, 1, 6, 2],
            r.product_version_bytes@ == seq![major, minor] + wire::be16(patch),
    {
        let mut vendor: Vec<u8> = vec![32, 32, 32, 32, 32, 32, 32, 32];
        assert(vendor@ =~= Seq::new(8, |i: int| 32u8));
        text::write_str_to_buffer(&mut vendor, 0, 8, self_info.vendor_string.as_str());
        let r = Multicaster {
            self_info,
            seqnum: 1,
            vendor: [
                vendor[0],
                vendor[1],
                vendor[2],
                vendor[3],
                vendor[4],
                vendor[5],
                vendor[6],
                vendor[7],
            ],
            firmware_version_bytes: [4, 1, 6, 2],
            product_version_bytes: [major, minor, wire::H(patch), wire::L(patch)],
            device_info_destination: Destination {
                addr: [224, 0, 0, 231],
                port: DST_PORT_DEVICE_INFO,
            },
            heartbeat_destination: Destination { addr: [224, 0, 0, 233], port: DST_PORT_HEARTBEAT },
        };
        proof {
            assert(r.vendor@ =~= vendor@);
            assert(r.firmware_version_bytes@ =~= seq![4u8, 1, 6, 2]);
            assert(r.product_version_bytes@ =~= seq![major, minor] + wire::be16(patch));
            assert(r.device_info_destination.addr@ =~= seq![224u8, 0, 0, 231]);
            assert(r.heartbeat_destination.addr@ =~= seq![224u8, 0, 0, 233]);
        }
        r
    }

    /// Makes the next packet and takes its number.
    pub fn send(
        &mut self,
        dst: Destination,
        start_code: u16,
        opcode: [u8; 8],
        content: Vec<u8>,
    ) -> (out: OutgoingPacket)
        ensures
            out.destination == dst,
            out.start_code == start_code,
            out.seqnum == old(self).seqnum,
            out.process_id == old(self).self_info.process_id,
            out.factory_device_id == old(self).self_info.factory_device_id,
            out.vendor == old(self).vendor,
            out.opcode == opcode,
            out.content == content,
            *final(self) == old(self).after(1),
    {
        let packet = OutgoingPacket {
            destination: dst,
            start_code,
            seqnum: self.seqnum,
            process_id: self.self_info.process_id,
            factory_device_id: self.self_info.factory_device_id,
            vendor: self.vendor,
            opcode,
            content,
        };
        self.seqnum = self.seqnum.wrapping_add(1);
        packet
    }

    /// Multicasts a message for another part of the device.
    pub fn forward(&mut self, message: MulticastMessage) -> (out: OutgoingPacket)
        ensures
            out@ == old(self).packet(
                0,
                (Message {
                    to_heartbeat: false,
                    start_code: message.start_code,
                    opcode: message.opcode@,
                    content: message.content@,
                }),
            ),
            *final(self) == old(self).after(1),
    {
        let destination = self.device_info_destination;
        self.send(destination, message.start_code, message.opcode, message.content)
    }

    /// Describes the board.
    pub fn send_board_info(&mut self) -> (out: OutgoingPacket)
        ensures
            out@ == old(self).packet(0, board_info_message(*old(self).self_info)),
            *final(self) == old(self).after(1),
    {
        let content = contents::make_board_info(self.self_info);
        let destination = self.device_info_destination;
        let out = self.send(
            destination,
            0xffff,
            [0x07, 0x2a, 0x00, 0x60, 0, 0, 0, 0],
            content,
        );
        assert(out.opcode@ =~= seq![0x07u8, 0x2a, 0x00, 0x60, 0x00, 0x00, 0x00, 0x00]);
        out
    }

    /// Describes the product.
    pub fn send_product_info(&mut self) -> (out: OutgoingPacket)
        ensures
            out@ == old(self).packet(
                0,
                product_info_message(*old(self).self_info, old(self).product_version_bytes@),
            ),
            *final(self) == old(self).after(1),
    {
        let content = contents::make_product_info(self.self_info, &self.product_version_bytes);
        let destination = self.device_info_destination;
        let out = self.send(
            destination,
            0xffff,
            [0x07, 0x2a, 0x00, 0xc0, 0, 0, 0, 0],
            content,
        );
        assert(out.opcode@ =~= seq![0x07u8, 0x2a, 0x00, 0xc0, 0x00, 0x00, 0x00, 0x00]);
        out
    }

    /// Answers a packet that arrived at the multicast port, if it asks for something known.
    pub fn answer(&mut self, packet: &[u8]) -> (out: Option<OutgoingPacket>)
        ensures
            match info_request(packet@) {
                InfoRequest::BoardInfo => {
                    &&& out is Some
                    &&& out->0@ == old(self).packet(0, board_info_message(*old(self).self_info))
                    &&& *final(self) == old(self).after(1)
                },
                InfoRequest::ProductInfo => {
                    &&& out is Some
                    &&& out->0@ == old(self).packet(
                        0,
                        product_info_message(
                            *old(self).self_info,
                            old(self).product_version_bytes@,
                        ),
                    )
                    &&& *final(self) == old(self).after(1)
                },
                _ => out is None && *final(self) == *old(self),
            },
    {
        match classify_request(packet) {
            InfoRequest::BoardInfo => Some(self.send_board_info()),
            InfoRequest::ProductInfo => Some(self.send_product_info()),
            _ => None,
        }
    }

    /// Adds the packet that carries the next message.
    fn send_next(
        &mut self,
        out: &mut Vec<OutgoingPacket>,
        to_heartbeat: bool,
        start_code: u16,
        opcode: [u8; 8],
        content: Vec<u8>,
        Ghost(first): Ghost<Multicaster<'s>>,
        Ghost(messages): Ghost<Seq<Message>>,
    )
        requires
            packets(old(out)@) == first.packets_of(messages),
            *old(self) == first.after(messages.len()),
        ensures
            packets(final(out)@) == first.packets_of(
                messages.push(
                    (Message { to_heartbeat, start_code, opcode: opcode@, content: content@ }),
                ),
            ),
            *final(self) == first.after(messages.len() + 1),
    {
        let destination = if to_heartbeat {
            self.heartbeat_destination
        } else {
            self.device_info_destination
        };
        let packet = self.send(destination, start_code, opcode, content);
        out.push(packet);
        proof {
            let message = Message { to_heartbeat, start_code, opcode: opcode@, content: content@ };
            assert(packet@ == first.packet(messages.len(), message));
            assert(packets(out@) =~= packets(old(out)@).push(packet@));
            assert(first.packets_of(messages.push(message)) =~= first.packets_of(messages).push(
                first.packet(messages.len(), message),
            ));
        }
    }

    /// Makes the packets that are sent before any request is looked at: the board is described
    /// first, then the product.
    pub fn send_greetings(&mut self) -> (out: Vec<OutgoingPacket>)
        ensures
            packets(out@) == old(self).packets_of(
                greetings(*old(self).self_info, old(self).product_version_bytes@),
            ),
            *final(self) == old(self).after(2),
    {
        let ghost first = *self;
        let mut out: Vec<OutgoingPacket> = Vec::new();
        out.push(self.send_board_info());
        out.push(self.send_product_info());
        proof {
            let messages = greetings(*first.self_info, first.product_version_bytes@);
            assert(out@[1]@ == first.packet(1, messages[1]));
            assert(packets(out@) =~= first.packets_of(messages));
        }
        out
    }

    /// Starts to multicast. The messages about the board and the product come with the first
    /// numbers, so that every other packet is made after them.
    pub fn start(self_info: &'s DeviceInfo, major: u8, minor: u8, patch: u16) -> (r: (
        Multicaster<'s>,
        Vec<OutgoingPacket>,
    ))
        ensures
            r.0.well_formed(),
            r.0.self_info == self_info,
            r.0.seqnum == 3,
            r.0.firmware_version_bytes@ == seq![4u8, 1, 6, 2],
            r.0.product_version_bytes@ == seq![major, minor] + wire::be16(patch),
            packets(r.1@) == (Multicaster { seqnum: 1, ..r.0 }).packets_of(
                greetings(*self_info, r.0.product_version_bytes@),
            ),
    {
        let mut m = Multicaster::new(self_info, major, minor, patch);
        let ghost fresh = m;
        let out = m.send_greetings();
        assert((Multicaster { seqnum: 1, ..m }) == fresh);
        (m, out)
    }

    /// Makes the packets that are sent once a second.
    pub fn send_heartbeat(&mut self, facts: &HeartbeatFacts) -> (out: Vec<OutgoingPacket>)
        requires
            contents::heartbeat_served(*facts),
        ensures
            packets(out@) == old(self).packets_of(
                heartbeat_messages(*old(self).self_info, old(self).seqnum, *facts),
            ),
            *final(self) == old(self).after(
                heartbeat_messages(*old(self).self_info, old(self).seqnum, *facts).len(),
            ),
    {
        let ctr: u16 = self.seqnum;
        let info = self.self_info;
        let ghost first = *self;
        let ghost mut messages: Seq<Message> = Seq::empty();
        let mut out: Vec<OutgoingPacket> = Vec::new();
        proof {
            assert(packets(out@) =~= first.packets_of(messages));
            assert(first.after(0) == first);
        }
        match (facts.freq_offset, &facts.master_clock) {
            (Some(freq_offset), Some(master_clock)) => {
                let content = contents::make_clock_status(info, freq_offset, master_clock);
                let opcode: [u8; 8] = [0x07, 0x2a, 0x00, 0x20, 0x00, 0x00, 0x00, 0x00];
                assert(opcode@ =~= seq![0x07u8, 0x2a, 0x00, 0x20, 0x00, 0x00, 0x00, 0x00]);
                self.send_next(
                    &mut out,
                    false,
                    0xffff,
                    opcode,
                    content,
                    Ghost(first),
                    Ghost(messages),
                );
                proof {
                    messages = messages.push(
                        Message {
                            to_heartbeat: false,
                            start_code: 0xffff,
                            opcode: opcode@,
                            content: content@,
                        },
                    );
                }
            },
            _ => {},
        }
        assert(messages =~= clock_status_messages(*info, *facts));
        let content = contents::make_heartbeat(info, ctr, facts);
        let opcode: [u8; 8] = [0, 8, 0, 1, 0x10, 0, 0, 0];
        assert(opcode@ =~= seq![0x00u8, 0x08, 0x00, 0x01, 0x10, 0x00, 0x00, 0x00]);
        self.send_next(&mut out, true, 0xfffe, opcode, content, Ghost(first), Ghost(messages));
        proof {
            messages = messages.push(
                Message {
                    to_heartbeat: true,
                    start_code: 0xfffe,
                    opcode: opcode@,
                    content: content@,
                },
            );
        }
        let content: Vec<u8> = vec![0, 0, 0, 3, 0, 0, 0, 0];
        let opcode: [u8; 8] = [0x07, 0x2a, 0x00, 0x78, 0, 0, 0, 0];
        assert(content@ =~= seq![0x00u8, 0x00, 0x00, 0x03, 0x00, 0x00, 0x00, 0x00]);
        assert(opcode@ =~= seq![0x07u8, 0x2a, 0x00, 0x78, 0x00, 0x00, 0x00, 0x00]);
        self.send_next(&mut out, false, 0xffff, opcode, content, Ghost(first), Ghost(messages));
        proof {
            messages = messages.push(
                Message {
                    to_heartbeat: false,
                    start_code: 0xffff,
                    opcode: opcode@,
                    content: content@,
                },
            );
        }
        let content: Vec<u8> = wire::zero_bytes(4);
        let opcode: [u8; 8] = [0x07, 0x2a, 0x10, 0x07, 0, 0, 0, 0];
        assert(opcode@ =~= seq![0x07u8, 0x2a, 0x10, 0x07, 0x00, 0x00, 0x00, 0x00]);
        self.send_next(&mut out, false, 0xffff, opcode, content, Ghost(first), Ghost(messages));
        proof {
            messages = messages.push(
                Message {
                    to_heartbeat: false,
                    start_code: 0xffff,
                    opcode: opcode@,
                    content: content@,
                },
            );
        }
        let content: Vec<u8> = contents::make_network(info);
        let opcode: [u8; 8] = [0x07, 0x2a, 0x00, 0x11, 0x00, 0x00, 0x00, 0x00];
        assert(opcode@ =~= seq![0x07u8, 0x2a, 0x00, 0x11, 0x00, 0x00, 0x00, 0x00]);
        self.send_next(&mut out, false, 0xffff, opcode, content, Ghost(first), Ghost(messages));
        proof {
            messages = messages.push(
                Message {
                    to_heartbeat: false,
                    start_code: 0xffff,
                    opcode: opcode@,
                    content: content@,
                },
            );
            assert(messages =~= heartbeat_messages(*info, ctr, *facts));
        }
        out
    }
}

/// However many packets are sent, they go to the groups of the protocol and are numbered one after
/// the other, from zero again behind the highest number.
pub proof fn packets_are_numbered_in_order<'s>(m: Multicaster<'s>, messages: Seq<Message>, k: int)
    requires
        m.well_formed(),
        0 <= k < messages.len(),
    ensures
        m.after(messages.len()).well_formed(),
        m.packets_of(messages)[k].seqnum == (m.seqnum + k) % 0x10000,
        k > 0 ==> m.packets_of(messages)[k].seqnum == (m.packets_of(messages)[k - 1].seqnum + 1)
            % 0x10000,
        m.after(messages.len()).seqnum == (m.packets_of(messages).last().seqnum + 1) % 0x10000,
{
}

/// Of a series of packets, each carries the number behind that of the one before it: when `k`
/// packets have been sent, the next one carries the number `k` steps on, and the highest number is
/// followed by zero.
pub proof fn each_send_takes_the_next_number<'s>(m: Multicaster<'s>, k: nat)
    ensures
        m.after(k).seqnum == (m.seqnum + k) % 0x10000,
        m.after(k).after(1) == m.after(k + 1),
        m.after(k + 1).seqnum == if m.after(k).seqnum == 0xffff {
            0
        } else {
            m.after(k).seqnum + 1
        },
{
}

/// Sending some messages and then others is sending them all.
#[verifier::rlimit(40)]
#[verifier::spinoff_prover]
pub proof fn sending_in_parts<'s>(m: Multicaster<'s>, some: Seq<Message>, others: Seq<Message>)
    ensures
        m.packets_of(some + others) == m.packets_of(some) + m.after(some.len()).packets_of(others),
        m.after((some + others).len()) == m.after(some.len()).after(others.len()),
{
    assert(m.packets_of(some + others) =~= m.packets_of(some) + m.after(some.len()).packets_of(
        others,
    ));
}

} // verus!
