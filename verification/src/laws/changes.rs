//! What the functions of the library change, as their callers see it.
use vstd::prelude::*;
use vstd::utf8::*;

use crate::arc_server::renames;
use crate::arc_server::startup;
use crate::device_info::{Channel, DeviceInfo, FlowLimits};
use crate::device_server::lifecycle::{Lifecycle, StopStep};
use crate::device_server::tx_multicasts::{Activation, Event, MulticastDestination, NewFlow};
use crate::device_server::tx_multicasts::{Phase, Todo, TransmitMulticasts};
use crate::info_mcast_server::contents;
use crate::info_mcast_server::contents::HeartbeatFacts;
use crate::info_mcast_server::multicaster;
use crate::info_mcast_server::multicaster::{
    Destination,
    MulticastMessage,
    Multicaster,
    OutgoingPacket,
};
use crate::laws::multicasts;
use crate::laws::services;
use crate::mdns_server;
use crate::mdns_server::ServiceDescription;
use crate::media_clock::MediaClock;
use crate::state_storage;
use crate::state_storage::{ChannelSettings, SavedChannels, SavedChannelsSettings};
use crate::text;

verus! {

/// A side of the device runs from its start to its stop, and the other side is not touched. The
/// servers are told before the receiving side stops.
pub proof fn sides_start_and_stop()
    ensures
        forall|l: &mut Lifecycle, r: ()| #[trigger]
            call_ensures(Lifecycle::receive, (l,), r) ==> final(l).receiving
                && final(l).transmitting == l.transmitting,
        forall|l: &mut Lifecycle, r: ()| #[trigger]
            call_ensures(Lifecycle::transmit, (l,), r) ==> final(l).transmitting
                && final(l).receiving == l.receiving,
        forall|l: &mut Lifecycle, steps: Vec<StopStep>| #[trigger]
            call_ensures(Lifecycle::stop_receiver, (l,), steps) ==> !final(l).receiving
                && final(l).transmitting == l.transmitting && steps@.len() == 2 && steps@[0]
                == StopStep::DetachReceiver && steps@[1] == StopStep::StopReceiver,
        forall|l: &mut Lifecycle, steps: Vec<StopStep>| #[trigger]
            call_ensures(Lifecycle::stop_transmitter, (l,), steps) ==> !final(l).transmitting
                && final(l).receiving == l.receiving && steps@.len() == 1 && steps@[0]
                == StopStep::StopTransmitter,
        forall|l: Lifecycle, steps: Vec<StopStep>| #[trigger]
            call_ensures(Lifecycle::shutdown, (l,), steps) ==> steps@.len() >= 2 && steps@.last()
                == StopStep::StopClock && steps@[steps@.len() - 2] == StopStep::StopServers,
        forall|l: Lifecycle| #[trigger]
            call_ensures(Lifecycle::start, (), l) ==> !l.receiving && !l.transmitting,
{
}

/// A clock that is given an overlay has it.
pub proof fn clock_takes_its_overlay<O>()
    ensures
        forall|c: &mut MediaClock<O>, overlay: O, r: ()| #[trigger]
            call_ensures(MediaClock::<O>::update_overlay, (c, overlay), r) ==> final(c).overlay
                == Some(overlay),
        forall|c: MediaClock<O>, ready: bool| #[trigger]
            call_ensures(MediaClock::<O>::is_ready, (&c,), ready) ==> (ready <==> c.overlay is Some),
{
}

/// A text that is written to a buffer fills its room as far as it goes, and no other byte changes.
pub proof fn text_is_written_into_its_room(i: int)
    ensures
        forall|b: &mut Vec<u8>, offset: usize, max_len: usize, t: &str, r: ()|
            #[trigger] call_ensures(text::write_str_to_buffer, (b, offset, max_len, t), r) && offset
                + max_len <= b@.len() ==> final(b)@.len() == b@.len() && (0 <= i < b@.len()
                ==> final(b)@[i] == if offset <= i < offset + max_len && i - offset < encode_utf8(
                t@,
            ).len() {
                encode_utf8(t@)[i - offset]
            } else {
                b@[i]
            }),
{
}

/// The packet carries the marks of the device and the next number.
pub open spec fn carries<'s>(
    packet: OutgoingPacket,
    before: Multicaster<'s>,
    start_code: u16,
    opcode: Seq<u8>,
    content: Seq<u8>,
) -> bool {
    &&& packet.start_code == start_code
    &&& packet.seqnum == before.seqnum
    &&& packet.process_id == before.self_info.process_id
    &&& packet.factory_device_id@ == before.self_info.factory_device_id@
    &&& packet.vendor@ == before.vendor@
    &&& packet.opcode@ == opcode
    &&& packet.content@ == content
}

/// Only the number moves on, by one, and from the highest to zero.
pub open spec fn moves_on<'s>(before: Multicaster<'s>, after: Multicaster<'s>) -> bool {
    &&& after.self_info == before.self_info
    &&& after.vendor == before.vendor
    &&& after.firmware_version_bytes == before.firmware_version_bytes
    &&& after.product_version_bytes == before.product_version_bytes
    &&& after.device_info_destination == before.device_info_destination
    &&& after.heartbeat_destination == before.heartbeat_destination
    &&& after.seqnum == if before.seqnum == 0xffff {
        0
    } else {
        before.seqnum + 1
    }
}

/// A packet that is sent goes to its destination with its opcode and content, and takes the next
/// number.
pub proof fn each_packet_is_sent_as_it_is<'s>()
    ensures
        forall|
            m: &mut Multicaster<'s>,
            dst: Destination,
            start_code: u16,
            opcode: [u8; 8],
            content: Vec<u8>,
            out: OutgoingPacket,
        | #[trigger]
            call_ensures(Multicaster::<'s>::send, (m, dst, start_code, opcode, content), out)
                ==> out.destination == dst && carries(out, *m, start_code, opcode@, content@)
                && moves_on(*m, *final(m)),
        forall|m: &mut Multicaster<'s>, message: MulticastMessage, out: OutgoingPacket| #[trigger]
            call_ensures(Multicaster::<'s>::forward, (m, message), out) ==> out.destination.addr@
                == m.device_info_destination.addr@ && out.destination.port
                == m.device_info_destination.port && carries(
                out,
                *m,
                message.start_code,
                message.opcode@,
                message.content@,
            ) && moves_on(*m, *final(m)),
{
}

/// The descriptions of board and product are sent with their own opcodes to the group for device
/// information.
#[verifier::rlimit(40)]
#[verifier::spinoff_prover]
pub proof fn descriptions_are_sent<'s>()
    ensures
        forall|m: &mut Multicaster<'s>, out: OutgoingPacket| #[trigger]
            call_ensures(Multicaster::<'s>::send_board_info, (m,), out) && m.well_formed()
                ==> multicasts::informs(
                out@,
                *m.self_info,
                m.seqnum as int,
                seq![7u8, 42, 0, 0x60, 0, 0, 0, 0],
                contents::board_info_content(*m.self_info),
            ) && moves_on(*m, *final(m)),
        forall|m: &mut Multicaster<'s>, out: OutgoingPacket| #[trigger]
            call_ensures(Multicaster::<'s>::send_product_info, (m,), out) && m.well_formed()
                ==> multicasts::informs(
                out@,
                *m.self_info,
                m.seqnum as int,
                seq![7u8, 42, 0, 0xc0, 0, 0, 0, 0],
                contents::product_info_content(*m.self_info, m.product_version_bytes@),
            ) && moves_on(*m, *final(m)),
{
    assert forall|m: &mut Multicaster<'s>, out: OutgoingPacket| #[trigger]
        call_ensures(Multicaster::<'s>::send_board_info, (m,), out)
            && m.well_formed() implies multicasts::informs(
        out@,
        *m.self_info,
        m.seqnum as int,
        seq![7u8, 42, 0, 0x60, 0, 0, 0, 0],
        contents::board_info_content(*m.self_info),
    ) && moves_on(*m, *final(m)) by {
        multicasts::greetings_describe_board_and_product(*m);
    }
    assert forall|m: &mut Multicaster<'s>, out: OutgoingPacket| #[trigger]
        call_ensures(Multicaster::<'s>::send_product_info, (m,), out)
            && m.well_formed() implies multicasts::informs(
        out@,
        *m.self_info,
        m.seqnum as int,
        seq![7u8, 42, 0, 0xc0, 0, 0, 0, 0],
        contents::product_info_content(*m.self_info, m.product_version_bytes@),
    ) && moves_on(*m, *final(m)) by {
        multicasts::greetings_describe_board_and_product(*m);
    }
}

/// The opcode of a request, without its second byte.
pub open spec fn asked(packet: Seq<u8>) -> Seq<u8> {
    packet.subrange(24, 32).update(1, 0)
}

/// A request for the description of the board or of the product is answered with it; any other
/// packet gets no answer, and takes no number.
#[verifier::rlimit(40)]
#[verifier::spinoff_prover]
pub proof fn requests_for_descriptions_are_answered<'s>()
    ensures
        forall|m: &mut Multicaster<'s>, packet: &[u8], out: Option<OutgoingPacket>| #[trigger]
            call_ensures(Multicaster::<'s>::answer, (m, packet), out) && m.well_formed() ==> {
                let board = packet@.len() >= 32 && asked(packet@) == seq![
                    7u8,
                    0,
                    0,
                    0x61,
                    0,
                    0,
                    0,
                    0,
                ];
                let product = packet@.len() >= 32 && asked(packet@) == seq![
                    7u8,
                    0,
                    0,
                    0xc1,
                    0,
                    0,
                    0,
                    0,
                ];
                &&& out is Some <==> board || product
                &&& board ==> out->0.opcode@ == seq![7u8, 42, 0, 0x60, 0, 0, 0, 0]
                    && out->0.content@ == contents::board_info_content(*m.self_info)
                    && out->0.destination.addr@ == seq![224u8, 0, 0, 231]
                &&& product ==> out->0.opcode@ == seq![7u8, 42, 0, 0xc0, 0, 0, 0, 0]
                    && out->0.content@ == contents::product_info_content(
                    *m.self_info,
                    m.product_version_bytes@,
                ) && out->0.destination.addr@ == seq![224u8, 0, 0, 231]
                &&& out is Some ==> moves_on(*m, *final(m)) && out->0.seqnum == m.seqnum
                &&& out is None ==> *final(m) == *m
            },
{
    assert forall|m: &mut Multicaster<'s>, packet: &[u8], out: Option<OutgoingPacket>| #[trigger]
        call_ensures(Multicaster::<'s>::answer, (m, packet), out) && m.well_formed() implies ({
        let board = packet@.len() >= 32 && asked(packet@) == seq![7u8, 0, 0, 0x61, 0, 0, 0, 0];
        let product = packet@.len() >= 32 && asked(packet@) == seq![7u8, 0, 0, 0xc1, 0, 0, 0, 0];
        &&& out is Some <==> board || product
        &&& board ==> out->0.opcode@ == seq![7u8, 42, 0, 0x60, 0, 0, 0, 0] && out->0.content@
            == contents::board_info_content(*m.self_info) && out->0.destination.addr@ == seq![
            224u8,
            0,
            0,
            231,
        ]
        &&& product ==> out->0.opcode@ == seq![7u8, 42, 0, 0xc0, 0, 0, 0, 0] && out->0.content@
            == contents::product_info_content(*m.self_info, m.product_version_bytes@)
            && out->0.destination.addr@ == seq![224u8, 0, 0, 231]
        &&& out is Some ==> moves_on(*m, *final(m)) && out->0.seqnum == m.seqnum
        &&& out is None ==> *final(m) == *m
    }) by {
        multicasts::request_is_in_its_opcode(packet@);
        multicasts::greetings_describe_board_and_product(*m);
        assert(seq![7u8, 0, 0, 0x61, 0, 0, 0, 0][3] == 0x61);
        assert(seq![7u8, 0, 0, 0xc1, 0, 0, 0, 0][3] == 0xc1);
    }
}

/// Once a second four packets are sent, and a fifth, before them, where there is a clock with a known
/// master; the numbers move on by as many.
#[verifier::rlimit(40)]
#[verifier::spinoff_prover]
pub proof fn heartbeat_is_sent<'s>()
    ensures
        forall|m: &mut Multicaster<'s>, facts: &HeartbeatFacts, out: Vec<OutgoingPacket>| #[trigger]
            call_ensures(Multicaster::<'s>::send_heartbeat, (m, facts), out) && m.well_formed()
                ==> {
                let c = if facts.freq_offset is Some && facts.master_clock is Some {
                    1int
                } else {
                    0
                };
                &&& out@.len() == c + 4
                &&& final(m).seqnum == (m.seqnum + c + 4) % 0x10000
                &&& multicasts::beats(
                    out@[c]@,
                    *m.self_info,
                    m.seqnum + c,
                    contents::heartbeat_content(*m.self_info, m.seqnum, *facts),
                )
                &&& multicasts::informs(
                    out@[c + 3]@,
                    *m.self_info,
                    m.seqnum + c + 3,
                    seq![7u8, 42, 0, 0x11, 0, 0, 0, 0],
                    contents::network_content(*m.self_info),
                )
                &&& c == 1 ==> multicasts::informs(
                    out@[0]@,
                    *m.self_info,
                    m.seqnum as int,
                    seq![7u8, 42, 0, 0x20, 0, 0, 0, 0],
                    contents::clock_status_content(
                        *m.self_info,
                        facts.freq_offset->0,
                        facts.master_clock->0@,
                    ),
                )
            },
{
    assert forall|m: &mut Multicaster<'s>, facts: &HeartbeatFacts, out: Vec<OutgoingPacket>|
        #[trigger] call_ensures(Multicaster::<'s>::send_heartbeat, (m, facts), out)
            && m.well_formed() implies ({
        let c = if facts.freq_offset is Some && facts.master_clock is Some {
            1int
        } else {
            0
        };
        &&& out@.len() == c + 4
        &&& final(m).seqnum == (m.seqnum + c + 4) % 0x10000
        &&& multicasts::beats(
            out@[c]@,
            *m.self_info,
            m.seqnum + c,
            contents::heartbeat_content(*m.self_info, m.seqnum, *facts),
        )
        &&& multicasts::informs(
            out@[c + 3]@,
            *m.self_info,
            m.seqnum + c + 3,
            seq![7u8, 42, 0, 0x11, 0, 0, 0, 0],
            contents::network_content(*m.self_info),
        )
        &&& c == 1 ==> multicasts::informs(
            out@[0]@,
            *m.self_info,
            m.seqnum as int,
            seq![7u8, 42, 0, 0x20, 0, 0, 0, 0],
            contents::clock_status_content(
                *m.self_info,
                facts.freq_offset->0,
                facts.master_clock->0@,
            ),
        )
    }) by {
        let c = if facts.freq_offset is Some && facts.master_clock is Some {
            1int
        } else {
            0
        };
        multicasts::heartbeat_packets_come_in_order(*m, *facts);
        let p = multicaster::packets(out@);
        assert(p.len() == out@.len());
        assert(p[0] == out@[0]@);
        assert(p[c] == out@[c]@);
        assert(p[c + 3] == out@[c + 3]@);
    }
}

/// Channel `i` has its new name if it is the renamed one, and the names it had otherwise.
pub open spec fn shows_renaming(
    before: Seq<Channel>,
    after: Seq<Channel>,
    index: int,
    name: Seq<char>,
    i: int,
) -> bool {
    &&& after.len() == before.len()
    &&& after[i].factory_name@ == before[i].factory_name@
    &&& after[i].friendly_name@ == if i == index {
        name
    } else {
        before[i].friendly_name@
    }
}

/// The name of channel `i` is kept with its number if it is the renamed one, and what is kept of it
/// stays otherwise.
pub open spec fn keeps_renaming(
    before: Seq<ChannelSettings>,
    after: Seq<ChannelSettings>,
    index: int,
    name: Seq<char>,
    i: int,
) -> bool {
    &&& after.len() == before.len()
    &&& i == index ==> after[i].id == i + 1 && after[i].friendly_name@ == name
    &&& i != index ==> after[i].id == before[i].id && after[i].friendly_name@
        == before[i].friendly_name@
}

/// What the contracts say of the names is what the fields hold.
proof fn lemma_renaming(
    before: Seq<Channel>,
    after: Seq<Channel>,
    saved: Seq<ChannelSettings>,
    resaved: Seq<ChannelSettings>,
    index: int,
    name: Seq<char>,
    i: int,
)
    requires
        0 <= index < before.len(),
        0 <= i < before.len(),
        before.len() <= saved.len(),
        state_storage::names(after) == state_storage::renamed(
            state_storage::names(before),
            index,
            name,
        ),
        state_storage::settings(resaved) == state_storage::resaved(
            state_storage::settings(saved),
            index,
            name,
        ),
    ensures
        shows_renaming(before, after, index, name, i),
        keeps_renaming(saved, resaved, index, name, i),
{
    services::names_are_those_of_the_channels(before, saved, i);
    services::names_are_those_of_the_channels(before, saved, index);
    services::names_are_those_of_the_channels(after, resaved, i);
    services::one_channel_is_renamed(state_storage::names(before), index, name, i);
    services::one_name_is_kept(state_storage::settings(saved), index, name, i);
}

/// A renaming changes the name of one channel of its own direction, keeps it, and touches nothing of
/// the other direction.
#[verifier::rlimit(40)]
#[verifier::spinoff_prover]
pub proof fn renaming_touches_one_channel(i: int)
    ensures
        forall|
            s: &mut SavedChannelsSettings,
            info: &mut DeviceInfo,
            index: usize,
            name: String,
            r: (),
        | #[trigger]
            call_ensures(SavedChannelsSettings::rename_rx_channel, (s, info, index, name), r)
                && s.well_formed(*info) && index < info.rx_channels@.len() && 0 <= i
                < info.rx_channels@.len() ==> {
                &&& shows_renaming(
                    info.rx_channels@,
                    final(info).rx_channels@,
                    index as int,
                    name@,
                    i,
                )
                &&& keeps_renaming(
                    s.rx_channels.channels@,
                    final(s).rx_channels.channels@,
                    index as int,
                    name@,
                    i,
                )
                &&& final(info).tx_channels == info.tx_channels
                &&& final(s).tx_channels == s.tx_channels
                &&& final(info).friendly_hostname == info.friendly_hostname
            },
        forall|
            s: &mut SavedChannelsSettings,
            info: &mut DeviceInfo,
            index: usize,
            name: String,
            r: (),
        | #[trigger]
            call_ensures(SavedChannelsSettings::rename_tx_channel, (s, info, index, name), r)
                && s.well_formed(*info) && index < info.tx_channels@.len() && 0 <= i
                < info.tx_channels@.len() ==> {
                &&& shows_renaming(
                    info.tx_channels@,
                    final(info).tx_channels@,
                    index as int,
                    name@,
                    i,
                )
                &&& keeps_renaming(
                    s.tx_channels.channels@,
                    final(s).tx_channels.channels@,
                    index as int,
                    name@,
                    i,
                )
                &&& final(info).rx_channels == info.rx_channels
                &&& final(s).rx_channels == s.rx_channels
                &&& final(info).friendly_hostname == info.friendly_hostname
            },
{
    assert forall|
        s: &mut SavedChannelsSettings,
        info: &mut DeviceInfo,
        index: usize,
        name: String,
        r: (),
    | #[trigger]
        call_ensures(SavedChannelsSettings::rename_rx_channel, (s, info, index, name), r)
            && s.well_formed(*info) && index < info.rx_channels@.len() && 0 <= i
            < info.rx_channels@.len() implies shows_renaming(
        info.rx_channels@,
        final(info).rx_channels@,
        index as int,
        name@,
        i,
    ) && keeps_renaming(
        s.rx_channels.channels@,
        final(s).rx_channels.channels@,
        index as int,
        name@,
        i,
    ) by {
        lemma_renaming(
            info.rx_channels@,
            final(info).rx_channels@,
            s.rx_channels.channels@,
            final(s).rx_channels.channels@,
            index as int,
            name@,
            i,
        );
    }
    assert forall|
        s: &mut SavedChannelsSettings,
        info: &mut DeviceInfo,
        index: usize,
        name: String,
        r: (),
    | #[trigger]
        call_ensures(SavedChannelsSettings::rename_tx_channel, (s, info, index, name), r)
            && s.well_formed(*info) && index < info.tx_channels@.len() && 0 <= i
            < info.tx_channels@.len() implies shows_renaming(
        info.tx_channels@,
        final(info).tx_channels@,
        index as int,
        name@,
        i,
    ) && keeps_renaming(
        s.tx_channels.channels@,
        final(s).tx_channels.channels@,
        index as int,
        name@,
        i,
    ) by {
        lemma_renaming(
            info.tx_channels@,
            final(info).tx_channels@,
            s.tx_channels.channels@,
            final(s).tx_channels.channels@,
            index as int,
            name@,
            i,
        );
    }
}

/// A renaming that is to be advertised gives the names to be withdrawn, which are those before it,
/// and the services to be advertised, which are those after it.
#[verifier::rlimit(40)]
#[verifier::spinoff_prover]
pub proof fn renaming_is_advertised(i: int)
    ensures
        forall|
            s: &mut SavedChannelsSettings,
            info: &mut DeviceInfo,
            limits: &FlowLimits,
            index: usize,
            name: String,
            r: (Vec<String>, Vec<ServiceDescription>),
        | #[trigger]
            call_ensures(renames::rename_and_readvertise, (s, info, limits, index, name), r)
                && s.well_formed(*info) && index < info.tx_channels@.len() && 0 <= i
                < info.tx_channels@.len() ==> {
                let host = info.friendly_hostname@;
                let channel = info.tx_channels@[index as int];
                &&& shows_renaming(
                    info.tx_channels@,
                    final(info).tx_channels@,
                    index as int,
                    name@,
                    i,
                )
                &&& keeps_renaming(
                    s.tx_channels.channels@,
                    final(s).tx_channels.channels@,
                    index as int,
                    name@,
                    i,
                )
                &&& final(s).rx_channels == s.rx_channels
                &&& final(info).rx_channels == info.rx_channels
                &&& r.0@.len() >= 1
                &&& r.0@[0]@ == channel.factory_name@ + "@"@ + host
                &&& channel.factory_name@ != channel.friendly_name@ ==> r.0@.len() == 2
                    && r.0@[1]@ == channel.friendly_name@ + "@"@ + host
                &&& channel.factory_name@ == channel.friendly_name@ ==> r.0@.len() == 1
                &&& r.1@.len() >= 1
                &&& r.1@[0].name@ == channel.factory_name@ + "@"@ + host
                &&& name@ != channel.factory_name@ ==> r.1@.len() == 2 && r.1@[1].name@ == name@
                    + "@"@ + host
                &&& name@ == channel.factory_name@ ==> r.1@.len() == 1
                &&& r.1@[0].port == info.flows_control_port
            },
{
    assert forall|
        s: &mut SavedChannelsSettings,
        info: &mut DeviceInfo,
        limits: &FlowLimits,
        index: usize,
        name: String,
        r: (Vec<String>, Vec<ServiceDescription>),
    | #[trigger]
        call_ensures(renames::rename_and_readvertise, (s, info, limits, index, name), r)
            && s.well_formed(*info) && index < info.tx_channels@.len() && 0 <= i
            < info.tx_channels@.len() implies ({
        let host = info.friendly_hostname@;
        let channel = info.tx_channels@[index as int];
        &&& shows_renaming(
            info.tx_channels@,
            final(info).tx_channels@,
            index as int,
            name@,
            i,
        )
        &&& keeps_renaming(
            s.tx_channels.channels@,
            final(s).tx_channels.channels@,
            index as int,
            name@,
            i,
        )
        &&& final(s).rx_channels == s.rx_channels
        &&& final(info).rx_channels == info.rx_channels
        &&& r.0@.len() >= 1
        &&& r.0@[0]@ == channel.factory_name@ + "@"@ + host
        &&& channel.factory_name@ != channel.friendly_name@ ==> r.0@.len() == 2 && r.0@[1]@
            == channel.friendly_name@ + "@"@ + host
        &&& channel.factory_name@ == channel.friendly_name@ ==> r.0@.len() == 1
        &&& r.1@.len() >= 1
        &&& r.1@[0].name@ == channel.factory_name@ + "@"@ + host
        &&& name@ != channel.factory_name@ ==> r.1@.len() == 2 && r.1@[1].name@ == name@ + "@"@
            + host
        &&& name@ == channel.factory_name@ ==> r.1@.len() == 1
        &&& r.1@[0].port == info.flows_control_port
    }) by {
        lemma_renaming(
            info.tx_channels@,
            final(info).tx_channels@,
            s.tx_channels.channels@,
            final(s).tx_channels.channels@,
            index as int,
            name@,
            i,
        );
        lemma_renaming(
            info.tx_channels@,
            final(info).tx_channels@,
            s.tx_channels.channels@,
            final(s).tx_channels.channels@,
            index as int,
            name@,
            index as int,
        );
        services::channel_service_names_are_its_names(*info, index as int);
        services::channel_services_are_described(*final(info), *limits, index as int);
        let names = mdns_server::texts(r.0@);
        let told = mdns_server::services(r.1@);
        assert(names.len() == r.0@.len());
        assert(told.len() == r.1@.len());
        assert(names[0] == r.0@[0]@);
        assert(told[0] == r.1@[0]@);
        if names.len() > 1 {
            assert(names[1] == r.0@[1]@);
        }
        if told.len() > 1 {
            assert(told[1] == r.1@[1]@);
        }
    }
}

/// Channel `i` has the name that was kept for it, if one was kept under its number that is not
/// empty, and the name it had otherwise.
pub open spec fn shows_kept_name(
    kept: Option<SavedChannels>,
    before: Seq<Channel>,
    after: Seq<Channel>,
    i: int,
) -> bool {
    &&& after.len() == before.len()
    &&& after[i].factory_name@ == before[i].factory_name@
    &&& after[i].friendly_name@ == if kept is Some && i < kept->0.channels@.len()
        && kept->0.channels@[i].id == i + 1 && kept->0.channels@[i].friendly_name@.len() > 0 {
        kept->0.channels@[i].friendly_name@
    } else {
        before[i].friendly_name@
    }
}

#[verifier::rlimit(40)]
#[verifier::spinoff_prover]
proof fn lemma_kept_name(
    kept: Option<SavedChannels>,
    before: Seq<Channel>,
    after: Seq<Channel>,
    i: int,
)
    requires
        0 <= i < before.len(),
        state_storage::names(after) == state_storage::loaded(
            state_storage::kept(kept),
            state_storage::names(before),
        ),
    ensures
        shows_kept_name(kept, before, after, i),
{
    let list = if kept is Some {
        kept->0.channels@
    } else {
        Seq::empty()
    };
    services::names_are_those_of_the_channels(before, list, i);
    services::names_are_those_of_the_channels(after, list, i);
    services::kept_names_are_given_by_number(
        state_storage::kept(kept),
        state_storage::names(before),
        i,
    );
}

/// Loading gives each channel the name that was kept for it in the file of its own direction, and
/// changes nothing else of the device.
#[verifier::rlimit(40)]
#[verifier::spinoff_prover]
pub proof fn loading_gives_the_kept_names(i: int)
    ensures
        forall|
            rx: Option<SavedChannels>,
            tx: Option<SavedChannels>,
            info: &mut DeviceInfo,
            r: SavedChannelsSettings,
        | #[trigger]
            call_ensures(SavedChannelsSettings::load, (rx, tx, info), r) ==> {
                &&& 0 <= i < info.rx_channels@.len() ==> shows_kept_name(
                    rx,
                    info.rx_channels@,
                    final(info).rx_channels@,
                    i,
                )
                &&& 0 <= i < info.tx_channels@.len() ==> shows_kept_name(
                    tx,
                    info.tx_channels@,
                    final(info).tx_channels@,
                    i,
                )
                &&& final(info).friendly_hostname == info.friendly_hostname
                &&& final(info).sample_rate == info.sample_rate
                &&& r.rx_channels.channels@.len() >= final(info).rx_channels@.len()
                &&& r.tx_channels.channels@.len() >= final(info).tx_channels@.len()
            },
{
    assert forall|
        rx: Option<SavedChannels>,
        tx: Option<SavedChannels>,
        info: &mut DeviceInfo,
        r: SavedChannelsSettings,
    | #[trigger] call_ensures(SavedChannelsSettings::load, (rx, tx, info), r) implies (0 <= i
        < info.rx_channels@.len() ==> shows_kept_name(
        rx,
        info.rx_channels@,
        final(info).rx_channels@,
        i,
    )) && (0 <= i < info.tx_channels@.len() ==> shows_kept_name(
        tx,
        info.tx_channels@,
        final(info).tx_channels@,
        i,
    )) by {
        if 0 <= i < info.rx_channels@.len() {
            lemma_kept_name(rx, info.rx_channels@, final(info).rx_channels@, i);
        }
        if 0 <= i < info.tx_channels@.len() {
            lemma_kept_name(tx, info.tx_channels@, final(info).tx_channels@, i);
        }
    }
}

/// The server starts with the names that were kept, and advertises each transmit channel under them,
/// in the order of the channels.
#[verifier::rlimit(40)]
#[verifier::spinoff_prover]
pub proof fn server_starts_with_the_kept_names(i: int)
    ensures
        forall|
            rx: Option<SavedChannels>,
            tx: Option<SavedChannels>,
            info: &mut DeviceInfo,
            limits: &FlowLimits,
            r: (SavedChannelsSettings, Vec<Vec<ServiceDescription>>),
        | #[trigger]
            call_ensures(startup::load_and_advertise, (rx, tx, info, limits), r) ==> {
                &&& 0 <= i < info.rx_channels@.len() ==> shows_kept_name(
                    rx,
                    info.rx_channels@,
                    final(info).rx_channels@,
                    i,
                )
                &&& r.1@.len() == info.tx_channels@.len()
                &&& 0 <= i < info.tx_channels@.len() ==> shows_kept_name(
                    tx,
                    info.tx_channels@,
                    final(info).tx_channels@,
                    i,
                ) && r.1@[i]@.len() >= 1 && r.1@[i]@[0].name@ == info.tx_channels@[i].factory_name@
                    + "@"@ + info.friendly_hostname@ && r.1@[i]@.last().name@
                    == final(info).tx_channels@[i].friendly_name@ + "@"@ + info.friendly_hostname@
            },
{
    assert forall|
        rx: Option<SavedChannels>,
        tx: Option<SavedChannels>,
        info: &mut DeviceInfo,
        limits: &FlowLimits,
        r: (SavedChannelsSettings, Vec<Vec<ServiceDescription>>),
    | #[trigger] call_ensures(startup::load_and_advertise, (rx, tx, info, limits), r) implies (0
        <= i < info.rx_channels@.len() ==> shows_kept_name(
        rx,
        info.rx_channels@,
        final(info).rx_channels@,
        i,
    )) && (0 <= i < info.tx_channels@.len() ==> shows_kept_name(
        tx,
        info.tx_channels@,
        final(info).tx_channels@,
        i,
    ) && r.1@[i]@.len() >= 1 && r.1@[i]@[0].name@ == info.tx_channels@[i].factory_name@ + "@"@
        + info.friendly_hostname@ && r.1@[i]@.last().name@ == final(info).tx_channels@[i].friendly_name@ + "@"@ + info.friendly_hostname@) by {
        if 0 <= i < info.rx_channels@.len() {
            lemma_kept_name(rx, info.rx_channels@, final(info).rx_channels@, i);
        }
        if 0 <= i < info.tx_channels@.len() {
            lemma_kept_name(tx, info.tx_channels@, final(info).tx_channels@, i);
            services::channel_services_are_described(*final(info), *limits, i);
            let list = r.1@[i]@;
            let told = mdns_server::services(list);
            assert(told.len() == list.len());
            assert(told[0] == list[0]@);
            assert(told[told.len() - 1] == list.last()@);
        }
    }
}

/// What is kept of channel `i` once loading has made room for `n` channels: what was kept, and no
/// name behind that.
pub open spec fn keeps_what_was_kept(
    kept: Seq<ChannelSettings>,
    n: int,
    after: Seq<ChannelSettings>,
    i: int,
) -> bool {
    &&& after.len() == if kept.len() < n {
        n
    } else {
        kept.len() as int
    }
    &&& 0 <= i < kept.len() ==> after[i].id == kept[i].id && after[i].friendly_name@
        == kept[i].friendly_name@
    &&& kept.len() <= i < after.len() ==> after[i].id == 0 && after[i].friendly_name@.len() == 0
}

proof fn lemma_kept(kept: Seq<ChannelSettings>, n: nat, after: Seq<ChannelSettings>, i: int)
    requires
        state_storage::settings(after) == state_storage::grown(state_storage::settings(kept), n),
    ensures
        keeps_what_was_kept(kept, n as int, after, i),
{
    services::names_are_those_of_the_channels(Seq::empty(), kept, i);
    services::names_are_those_of_the_channels(Seq::empty(), after, i);
    services::room_is_made_behind_what_was_kept(state_storage::settings(kept), n, i);
}

/// The settings in a file; none where it could not be read.
pub open spec fn settings_in(file: Option<SavedChannels>) -> Seq<ChannelSettings> {
    match file {
        Some(saved) => saved.channels@,
        None => Seq::empty(),
    }
}

/// Loading keeps what was kept, and makes room for every channel.
#[verifier::rlimit(40)]
#[verifier::spinoff_prover]
pub proof fn loading_keeps_what_was_kept(i: int)
    ensures
        forall|
            rx: Option<SavedChannels>,
            tx: Option<SavedChannels>,
            info: &mut DeviceInfo,
            r: SavedChannelsSettings,
        | #[trigger]
            call_ensures(SavedChannelsSettings::load, (rx, tx, info), r) ==> {
                &&& keeps_what_was_kept(
                    settings_in(rx),
                    info.rx_channels@.len() as int,
                    r.rx_channels.channels@,
                    i,
                )
                &&& keeps_what_was_kept(
                    settings_in(tx),
                    info.tx_channels@.len() as int,
                    r.tx_channels.channels@,
                    i,
                )
            },
        forall|
            rx: Option<SavedChannels>,
            tx: Option<SavedChannels>,
            info: &mut DeviceInfo,
            limits: &FlowLimits,
            r: (SavedChannelsSettings, Vec<Vec<ServiceDescription>>),
        | #[trigger]
            call_ensures(startup::load_and_advertise, (rx, tx, info, limits), r) ==> {
                &&& keeps_what_was_kept(
                    settings_in(rx),
                    info.rx_channels@.len() as int,
                    r.0.rx_channels.channels@,
                    i,
                )
                &&& keeps_what_was_kept(
                    settings_in(tx),
                    info.tx_channels@.len() as int,
                    r.0.tx_channels.channels@,
                    i,
                )
            },
{
    assert forall|
        rx: Option<SavedChannels>,
        tx: Option<SavedChannels>,
        info: &mut DeviceInfo,
        r: SavedChannelsSettings,
    | #[trigger]
        call_ensures(SavedChannelsSettings::load, (rx, tx, info), r) implies keeps_what_was_kept(
        settings_in(rx),
        info.rx_channels@.len() as int,
        r.rx_channels.channels@,
        i,
    ) && keeps_what_was_kept(
        settings_in(tx),
        info.tx_channels@.len() as int,
        r.tx_channels.channels@,
        i,
    ) by {
        lemma_settings_in(rx);
        lemma_settings_in(tx);
        lemma_kept(settings_in(rx), info.rx_channels@.len(), r.rx_channels.channels@, i);
        lemma_kept(settings_in(tx), info.tx_channels@.len(), r.tx_channels.channels@, i);
    }
    assert forall|
        rx: Option<SavedChannels>,
        tx: Option<SavedChannels>,
        info: &mut DeviceInfo,
        limits: &FlowLimits,
        r: (SavedChannelsSettings, Vec<Vec<ServiceDescription>>),
    | #[trigger]
        call_ensures(
            startup::load_and_advertise,
            (rx, tx, info, limits),
            r,
        ) implies keeps_what_was_kept(
        settings_in(rx),
        info.rx_channels@.len() as int,
        r.0.rx_channels.channels@,
        i,
    ) && keeps_what_was_kept(
        settings_in(tx),
        info.tx_channels@.len() as int,
        r.0.tx_channels.channels@,
        i,
    ) by {
        lemma_settings_in(rx);
        lemma_settings_in(tx);
        lemma_kept(settings_in(rx), info.rx_channels@.len(), r.0.rx_channels.channels@, i);
        lemma_kept(settings_in(tx), info.tx_channels@.len(), r.0.tx_channels.channels@, i);
    }
}

proof fn lemma_settings_in(file: Option<SavedChannels>)
    ensures
        state_storage::kept(file) == state_storage::settings(settings_in(file)),
{
    if file is None {
        assert(state_storage::settings(settings_in(file)) =~= Seq::empty());
    }
}

/// The same holds of channels and of what is kept of them on their own: loading names them and makes
/// room, and renaming changes one.
#[verifier::rlimit(40)]
#[verifier::spinoff_prover]
pub proof fn channels_are_loaded_and_renamed(i: int)
    ensures
        forall|src: &mut Vec<ChannelSettings>, dst: &mut Vec<Channel>, r: ()| #[trigger]
            call_ensures(SavedChannelsSettings::load_and_init, (src, dst), r) ==> {
                &&& keeps_what_was_kept(src@, dst@.len() as int, final(src)@, i)
                &&& 0 <= i < dst@.len() ==> shows_kept_name(
                    Some(SavedChannels { channels: *src }),
                    dst@,
                    final(dst)@,
                    i,
                )
            },
        forall|
            local: &mut Vec<ChannelSettings>,
            channels: &mut Vec<Channel>,
            index: usize,
            name: String,
            r: (),
        | #[trigger]
            call_ensures(SavedChannelsSettings::rename, (local, channels, index, name), r) && index
                < channels@.len() && channels@.len() <= local@.len() && 0 <= i < channels@.len()
                ==> shows_renaming(channels@, final(channels)@, index as int, name@, i)
                && keeps_renaming(local@, final(local)@, index as int, name@, i),
{
    assert forall|src: &mut Vec<ChannelSettings>, dst: &mut Vec<Channel>, r: ()| #[trigger]
        call_ensures(SavedChannelsSettings::load_and_init, (src, dst), r) implies
        keeps_what_was_kept(src@, dst@.len() as int, final(src)@, i) && (0 <= i < dst@.len()
        ==> shows_kept_name(
        Some(SavedChannels { channels: *src }),
        dst@,
        final(dst)@,
        i,
    )) by {
        lemma_kept(src@, dst@.len(), final(src)@, i);
        if 0 <= i < dst@.len() {
            lemma_kept_name(Some(SavedChannels { channels: *src }), dst@, final(dst)@, i);
        }
    }
    assert forall|
        local: &mut Vec<ChannelSettings>,
        channels: &mut Vec<Channel>,
        index: usize,
        name: String,
        r: (),
    | #[trigger]
        call_ensures(SavedChannelsSettings::rename, (local, channels, index, name), r) && index
            < channels@.len() && channels@.len() <= local@.len() && 0 <= i
            < channels@.len() implies shows_renaming(
        channels@,
        final(channels)@,
        index as int,
        name@,
        i,
    ) && keeps_renaming(local@, final(local)@, index as int, name@, i) by {
        lemma_renaming(
            channels@,
            final(channels)@,
            local@,
            final(local)@,
            index as int,
            name@,
            i,
        );
    }
}

/// The flow that the transmitter is to set up.
pub open spec fn describes_flow(
    flow: NewFlow,
    info: DeviceInfo,
    limits: FlowLimits,
    flow_index: usize,
    channels: Seq<Option<usize>>,
    destination: MulticastDestination,
) -> bool {
    &&& flow.destination == destination
    &&& flow.local_channel_indices@ == channels
    &&& flow.fpp == limits.fpp_max_advertised
    &&& 8 * flow.bytes_per_sample <= info.bits_per_sample < 8 * (flow.bytes_per_sample + 1)
    &&& flow.flow_index == flow_index
}

/// A flow that is added fills its slot and no other, and is described to the transmitter if there is
/// one. Its address is checked unless it is 0.0.0.0. A flow that is removed empties its slot and no
/// other.
pub proof fn slots_are_filled_and_emptied(i: int)
    ensures
        forall|
            t: &mut TransmitMulticasts,
            info: &DeviceInfo,
            limits: &FlowLimits,
            flow_index: usize,
            channels: Vec<Option<usize>>,
            destination: Option<MulticastDestination>,
            out: (Option<NewFlow>, bool),
        | #[trigger]
            call_ensures(
                TransmitMulticasts::add_flow,
                (t, info, limits, flow_index, channels, destination),
                out,
            ) && flow_index < t.slots().len() && 0 <= i < t.slots().len() ==> {
                &&& final(t).slots().len() == t.slots().len()
                &&& final(t).slots()[i] == (if i == flow_index {
                    Some(channels@)
                } else {
                    t.slots()[i]
                })
                &&& final(t).should_work == t.should_work
                &&& out.0 is Some <==> destination is Some
                &&& destination matches Some(dst) ==> describes_flow(
                    out.0->0,
                    *info,
                    *limits,
                    flow_index,
                    channels@,
                    dst,
                ) && (out.1 <==> !(dst.addr@[0] == 0 && dst.addr@[1] == 0 && dst.addr@[2] == 0
                    && dst.addr@[3] == 0))
                &&& destination is None ==> !out.1
            },
        forall|t: &mut TransmitMulticasts, flow_index: usize, r: ()| #[trigger]
            call_ensures(TransmitMulticasts::remove_flow, (t, flow_index), r) && flow_index
                < t.slots().len() && 0 <= i < t.slots().len() ==> {
                &&& final(t).slots().len() == t.slots().len()
                &&& final(t).slots()[i] == (if i == flow_index {
                    None
                } else {
                    t.slots()[i]
                })
                &&& final(t).should_work == t.should_work
            },
        forall|t: &mut TransmitMulticasts, r: ()| #[trigger]
            call_ensures(TransmitMulticasts::shutdown, (t,), r) ==> !final(t).should_work && final(t).bundles == t.bundles,
{
}

/// What a check of an address does next. An address counts as in use where that could not be found
/// out. A free address is reserved and asked for again, and if it is then still free and the
/// transmitter works, the flow transmits. One that is in use is replaced.
pub proof fn check_does_what_its_answers_ask()
    ensures
        forall|
            a: &mut Activation,
            info: &DeviceInfo,
            limits: &FlowLimits,
            event: Event,
            todo: Todo,
        | #[trigger]
            call_ensures(Activation::next, (a, info, limits, event), todo) ==> {
                &&& final(a).flow_index == a.flow_index
                &&& final(a).channel_indices@ == a.channel_indices@
                &&& (a.phase is FirstAnswer && event == Event::InUse(Some(false))) ==> todo
                    == Todo::ReserveAndAsk(a.destination) && final(a).phase is SecondAnswer
                    && final(a).destination == a.destination
                &&& (a.phase is FirstAnswer && (event == Event::InUse(Some(true)) || event
                    == Event::InUse(None))) ==> todo is LookAtTransmitter && final(a).phase
                    == (Phase::Transmitter { free: false }) && final(a).destination
                    == a.destination
                &&& (a.phase is SecondAnswer && event == Event::InUse(Some(false))) ==> todo
                    is LookAtTransmitter && final(a).phase == (Phase::Transmitter { free: true })
                    && final(a).destination == a.destination
                &&& (a.phase is SecondAnswer && (event == Event::InUse(Some(true)) || event
                    == Event::InUse(None))) ==> todo is LookAtTransmitter && final(a).phase
                    == (Phase::Transmitter { free: false }) && final(a).destination
                    == a.destination
                &&& (a.phase == (Phase::Transmitter { free: true }) && event
                    == (Event::TransmitterState { present: true, should_work: true })) ==> todo
                    == Todo::Activate(a.flow_index) && final(a).phase is Done
                &&& (a.phase == (Phase::Transmitter { free: false }) && event
                    == (Event::TransmitterState { present: true, should_work: true })) ==> todo
                    == Todo::Replace(a.flow_index) && final(a).phase is Address
                &&& (a.phase is Transmitter && (event matches Event::TransmitterState {
                    present,
                    should_work,
                } && !(present && should_work))) ==> todo is Stop && final(a).phase is Done
                &&& (a.phase is Address && event is NewDestination) ==> (todo matches
                    Todo::AddAndAsk(flow) && describes_flow(
                    flow,
                    *info,
                    *limits,
                    a.flow_index,
                    a.channel_indices@,
                    event->NewDestination_0,
                )) && final(a).phase is FirstAnswer && final(a).destination
                    == event->NewDestination_0
            },
{
}

} // verus!
