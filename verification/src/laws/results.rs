//! What the functions of the library hand back, as their callers see it.
use vstd::arithmetic::div_mod::*;
use vstd::prelude::*;
use vstd::utf8::*;

use crate::arc_server::actions;
use crate::arc_server::actions::{Action, Step};
use crate::arc_server::device_facts;
use crate::arc_server::dispatch;
use crate::arc_server::dispatch::ServerState;
use crate::arc_server::renames;
use crate::arc_server::rx_flows;
use crate::arc_server::subscriptions;
use crate::arc_server::tx_flows;
use crate::device_info::{DeviceInfo, FlowLimits, RxFlowInfo, TxFlowInfo};
use crate::device_server::tx_multicasts;
use crate::device_server::tx_multicasts::{Activation, Bundles, SavedFlows, TransmitMulticasts};
use crate::device_server::tx_multicasts::{MulticastDestination, Todo};
use crate::info_mcast_server::clock_stats;
use crate::info_mcast_server::multicaster;
use crate::info_mcast_server::multicaster::{Multicaster, OutgoingPacket};
use crate::laws::clocks;
use crate::laws::device_facts as device_laws;
use crate::laws::flow_counts;
use crate::laws::multicasts;
use crate::laws::reading;
use crate::laws::requests;
use crate::laws::rx_flows as rx_laws;
use crate::laws::services;
use crate::laws::texts;
use crate::laws::tx_flows as tx_laws;
use crate::mdns_server;
use crate::mdns_server::ServiceDescription;
use crate::media_clock;
use crate::media_clock::MediaClock;
use crate::protocol::proto_arc;
use crate::protocol::proto_arc::Reply;
use crate::state_storage::StateStorage;
use crate::text;
use crate::text::ReadTextError;
use crate::wire;

verus! {

/// The wait is what remains behind the correction, and never negative.
pub proof fn wait_is_what_remains(remaining: i64, corr: i64, wait: u64)
    requires
        call_ensures(media_clock::wait_after_correction, (remaining, corr), wait),
    ensures
        wait >= remaining - corr,
        wait > 0 ==> wait == remaining - corr,
{
}

/// A system time is its nanoseconds, up to a multiple of 2^64.
#[verifier::rlimit(40)]
#[verifier::spinoff_prover]
pub proof fn clock_value_counts_nanoseconds(seconds: i64, nanos: u32, v: u64)
    requires
        call_ensures(media_clock::timestamp_to_clock_value, (seconds, nanos), v),
    ensures
        (seconds * 1_000_000_000 + nanos - v) % 0x1_0000_0000_0000_0000 == 0,
        0 <= seconds * 1_000_000_000 + nanos < 0x1_0000_0000_0000_0000 ==> v == seconds
            * 1_000_000_000 + nanos,
{
    let total = seconds * 1_000_000_000 + nanos;
    let m: int = 0x1_0000_0000_0000_0000;
    lemma_fundamental_div_mod(total, m);
    lemma_mod_multiples_basic(total / m, m);
    assert(total - v == (total / m) * m) by (nonlinear_arith)
        requires
            total == m * (total / m) + v,
    ;
    if 0 <= total < m {
        lemma_small_mod(total as nat, m as nat);
    }
}

/// A count of units that fits is the last whole unit that has passed.
pub proof fn count_of_units_has_passed(ns: u64, timebase_hz: u64, v: usize)
    requires
        call_ensures(media_clock::nanos_to_timebase, (ns, timebase_hz), v),
        ns * timebase_hz < (usize::MAX + 1) * 1_000_000_000,
    ensures
        v * 1_000_000_000 <= ns * timebase_hz < (v + 1) * 1_000_000_000,
{
    clocks::whole_units_have_passed(ns as nat, timebase_hz as nat);
}

/// The time until a timestamp, where 64 bits hold it, is the whole nanoseconds of the timestamp less
/// those that have passed.
#[verifier::rlimit(40)]
#[verifier::spinoff_prover]
pub proof fn remaining_time_is_a_difference(
    timestamp: usize,
    timebase_hz: u64,
    now_ns: u64,
    remaining: i64,
)
    requires
        call_ensures(media_clock::remaining_until, (timestamp, timebase_hz, now_ns), remaining),
        timebase_hz > 0,
        timestamp * 1_000_000_000 < (now_ns + 0x8000_0000_0000_0000) * timebase_hz,
        (now_ns - 0x8000_0000_0000_0000) * timebase_hz <= timestamp * 1_000_000_000,
    ensures
        (now_ns + remaining) * timebase_hz <= timestamp * 1_000_000_000,
        timestamp * 1_000_000_000 < (now_ns + remaining + 1) * timebase_hz,
{
    let ns = media_clock::in_nanos(timestamp as nat, timebase_hz as nat) as int;
    let hz = timebase_hz as int;
    let total = timestamp * 1_000_000_000;
    let now = now_ns as int;
    clocks::whole_nanoseconds_have_passed(timestamp as nat, timebase_hz as nat);
    assert(ns < now + 0x8000_0000_0000_0000) by (nonlinear_arith)
        requires
            ns * hz <= total,
            total < (now + 0x8000_0000_0000_0000) * hz,
            hz > 0,
    ;
    assert(now - 0x8000_0000_0000_0000 <= ns) by (nonlinear_arith)
        requires
            total < (ns + 1) * hz,
            (now - 0x8000_0000_0000_0000) * hz <= total,
            hz > 0,
    ;
    media_clock::near_times_differ_by_their_distance(ns, now);
}

/// A clock tells a time exactly once it has an overlay.
pub proof fn clock_tells_time_with_an_overlay<O>(
    clock: MediaClock<O>,
    reading: u64,
    now: Option<u64>,
    fresh: MediaClock<O>,
)
    requires
        call_ensures(MediaClock::<O>::now_ns, (&clock, reading), now),
        call_ensures(MediaClock::<O>::new, (), fresh),
    ensures
        now is Some <==> clock.overlay is Some,
        now matches Some(v) ==> v == reading,
        fresh.overlay is None,
{
}

/// Two bytes are joined with the first counting 256 times, and taken apart again.
pub proof fn bytes_are_joined_and_taken_apart(h: u8, l: u8, v: u16, high: u8, low: u8)
    requires
        call_ensures(wire::make_u16, (h, l), v),
        call_ensures(wire::H, (v,), high),
        call_ensures(wire::L, (v,), low),
    ensures
        v == h * 256 + l,
        high == h,
        low == l,
{
}

/// A number that was written is read back, in base ten and in others.
pub proof fn number_text_is_read_back(n: u64, base: u64, t: String, d: String)
    requires
        2 <= base <= 16,
        call_ensures(text::number_text, (n, base), t),
        call_ensures(text::decimal_text, (n,), d),
    ensures
        texts::number_in(t@, base as int) == n,
        texts::number_in(d@, 10) == n,
{
    texts::written_number_is_read_back(n as nat, base as nat);
    texts::decimal_text_is_read_back(n as nat);
}

/// A text is read exactly where it is spelled.
#[verifier::rlimit(40)]
#[verifier::spinoff_prover]
pub proof fn text_is_read_from_a_buffer(
    buffer: &[u8],
    offset: usize,
    r: Result<String, ReadTextError>,
)
    requires
        call_ensures(text::read_0term_str_from_buffer, (buffer, offset), r),
    ensures
        match r {
            Ok(s) => texts::reads(buffer@, offset as int, s@),
            Err(ReadTextError::Unterminated) => !texts::zero_follows(buffer@, offset as int),
            Err(ReadTextError::NotUtf8) => texts::zero_follows(buffer@, offset as int)
                && !texts::has_text(buffer@, offset as int),
        },
{
    match r {
        Ok(s) => {
            texts::text_is_read_where_it_is_spelled(buffer@, offset as int, s@);
        },
        Err(_) => {
            texts::refusal_to_read_tells_why(buffer@, offset as int);
        },
    }
}

/// The name of the device is the whole answer to the question for it.
pub proof fn device_name_is_told(info: &DeviceInfo, payload: Vec<u8>)
    requires
        call_ensures(device_facts::device_name, (info,), payload),
    ensures
        reading::spells(payload@, 0, info.friendly_hostname@),
        payload@.len() == encode_utf8(info.friendly_hostname@).len() + 1,
{
    device_laws::device_name_is_the_name_its_user_gave(*info);
}

/// The numbers of transmit and of receive channels are told in this order.
pub proof fn counts_are_told(info: &DeviceInfo, limits: &FlowLimits, payload: Vec<u8>)
    requires
        device_facts::counts_served(*info, *limits),
        call_ensures(device_facts::channels_and_flows_count, (info, limits), payload),
    ensures
        reading::number16(payload@, 2) == info.tx_channels@.len(),
        reading::number16(payload@, 4) == info.rx_channels@.len(),
        reading::number16(payload@, 12) == limits.max_tx_flows,
        reading::number16(payload@, 14) == limits.max_rx_flows,
{
    device_laws::counts_are_read_from_their_places(*info, *limits);
}

/// The names of the device are told through their offsets.
pub proof fn names_are_told(info: &DeviceInfo, payload: Vec<u8>)
    requires
        device_facts::names_served(*info),
        call_ensures(device_facts::names, (info,), payload),
    ensures
        ({
            let p = payload@;
            &&& reading::spells(p, reading::number16(p, 6) - 10, info.board_name@)
            &&& reading::spells(p, reading::number16(p, 12) - 10, info.friendly_hostname@)
            &&& reading::spells(p, reading::number16(p, 14) - 10, info.factory_hostname@)
            &&& reading::spells(p, reading::number16(p, 16) - 10, info.friendly_hostname@)
        }),
{
    device_laws::names_are_found_through_their_offsets(*info);
}

/// A list of transmitted flows tells the sample rate of the device for each flow, at the flow's
/// listed position, with the flow's number, channels, destination and names.
pub proof fn transmitted_flows_are_told(
    info: &DeviceInfo,
    flows: &Vec<Option<TxFlowInfo>>,
    start: usize,
    reply: Reply,
    slot: int,
)
    requires
        tx_flows::tx_flows_encodable(flows@, start as int),
        call_ensures(tx_flows::query_tx_flows, (info, flows, start), reply),
        start <= slot < start + flow_counts::listed_slots(flows@, start as int),
        flows@[slot] is Some,
        reply.payload@.len() + 10 < 0x10000,
    ensures
        ({
            let p = reply.payload@;
            let flow = flows@[slot]->0;
            let k = flow_counts::in_use(flows@, start as int, slot) as int;
            let place = reading::number16(p, 2 + 2 * k) - 10;
            &&& reading::number32(p, place + 4) == info.sample_rate
            &&& tx_laws::shows_tx_parameters(p, place, *info, slot, flow)
            &&& tx_laws::shows_tx_destination(
                p,
                reading::number16(p, place + 16) - 10,
                slot,
                info.process_id,
                flow,
            )
        }),
{
    tx_laws::tx_flow_is_found_at_its_listed_position(*info, flows@, start as int, slot);
}

/// A list of received flows tells, for each place of each flow, which channels take their audio from
/// it.
pub proof fn received_flows_are_told(
    info: &DeviceInfo,
    flows: &Vec<Option<RxFlowInfo>>,
    start: usize,
    reply: Reply,
    slot: int,
    k: int,
)
    requires
        rx_flows::rx_flows_encodable(*info, flows@, start as int),
        call_ensures(rx_flows::query_rx_flows, (info, flows, start), reply),
        start <= slot < start + flow_counts::listed_slots(flows@, start as int),
        flows@[slot] is Some,
        reply.payload@.len() + 10 < 0x10000,
        0 <= k < flows@[slot]->0.channels_map@.len(),
    ensures
        ({
            let p = reply.payload@;
            let flow = flows@[slot]->0;
            let before = flow_counts::in_use(flows@, start as int, slot) as int;
            let place = reading::number16(p, 2 + 2 * before) - 10;
            &&& rx_laws::shows_mask(
                p,
                reading::number16(p, place + 20 + 2 * k) - 10,
                flow.channels_map@[k]@,
            )
            &&& rx_laws::shows_rx_parameters(p, place, *info, slot, flow)
            &&& rx_laws::shows_rx_address(p, reading::number16(p, place + 18) - 10, *info, flow)
        }),
{
    rx_laws::rx_flow_is_found_at_its_listed_position(*info, flows@, start as int, slot);
}

/// The step that an action takes is the action's own.
pub open spec fn takes_step(action: Action, step: Step) -> bool {
    match action {
        Action::Respond(reply) => step == (Step::Respond {
            code: reply.code,
            payload: reply.payload@,
        }),
        Action::WithdrawTx { index } => step == (Step::WithdrawTx { index: index as nat }),
        Action::RenameTx { index, name } => step == (Step::RenameTx {
            index: index as nat,
            name: name@,
        }),
        Action::AdvertiseTx { index } => step == (Step::AdvertiseTx { index: index as nat }),
        Action::RenameRx { index, name } => step == (Step::RenameRx {
            index: index as nat,
            name: name@,
        }),
        Action::NotifyChannelChange { indices } => step == (Step::NotifyChannelChange {
            indices: indices@,
        }),
        Action::Subscribe { local_channel_index, tx_channel_name, tx_hostname } => step == (
        Step::Subscribe {
            local_channel_index: local_channel_index as nat,
            tx_channel_name: tx_channel_name@,
            tx_hostname: tx_hostname@,
        }),
        Action::Unsubscribe { local_channel_index } => step == (Step::Unsubscribe {
            local_channel_index: local_channel_index as nat,
        }),
    }
}

/// Actions are taken as they are, in order.
pub proof fn actions_are_taken_as_they_are(list: Seq<Action>, i: int)
    requires
        0 <= i < list.len(),
    ensures
        actions::steps(list).len() == list.len(),
        takes_step(list[i], actions::steps(list)[i]),
{
}

/// A request to subscribe leads to one action for each of its items that leads to something, for the
/// channel that the item names.
pub proof fn subscription_requests_are_carried_out(content: &[u8], out: Vec<Action>, i: int)
    requires
        subscriptions::subscribe_served(content@),
        call_ensures(subscriptions::subscribe, (content,), out),
        0 <= i < content@[1],
        requests::acts(content@, i),
    ensures
        out@.len() == requests::acting(content@, content@[1] as int) + 1,
        0 <= requests::acting(content@, i) < out@.len() - 1,
        match out@[requests::acting(content@, i)] {
            Action::Subscribe { local_channel_index, tx_channel_name, tx_hostname } => {
                &&& local_channel_index + 1 == reading::number16(content@, 2 + 6 * i)
                &&& texts::reads(
                    content@,
                    reading::number16(content@, 4 + 6 * i) - 10,
                    tx_channel_name@,
                )
                &&& texts::reads(
                    content@,
                    reading::number16(content@, 6 + 6 * i) - 10,
                    tx_hostname@,
                )
            },
            Action::Unsubscribe { local_channel_index } => local_channel_index + 1
                == reading::number16(content@, 2 + 6 * i),
            _ => false,
        },
{
    requests::subscriptions_follow_their_items(content@);
    let at = requests::acting(content@, i);
    assert(actions::steps(out@).len() == out@.len());
    actions_are_taken_as_they_are(out@, at);
    assert(requests::does_item(content@, i, actions::steps(out@)[at]));
}

/// A request to end a subscription leads to the end of that of the channel it names, and an answer.
pub proof fn ends_of_subscriptions_are_carried_out(content: &[u8], out: Vec<Action>)
    requires
        subscriptions::unsubscribe_served(content@),
        call_ensures(subscriptions::unsubscribe, (content,), out),
    ensures
        out@.len() == 2,
        out@[0] matches Action::Unsubscribe { local_channel_index } && local_channel_index + 1
            == reading::number16(content@, 4),
        out@[1] matches Action::Respond(reply) && reply.code == 1 && reply.payload@.len() == 0,
{
    requests::end_of_subscription_names_its_channel(content@);
    assert(actions::steps(out@).len() == out@.len());
    actions_are_taken_as_they_are(out@, 0);
    actions_are_taken_as_they_are(out@, 1);
}

/// A request to rename a receive channel leads to the renaming of the channel it names, and the
/// network is told of exactly that channel.
pub proof fn receive_channels_are_renamed(info: &DeviceInfo, content: &[u8], out: Vec<Action>)
    requires
        renames::rx_rename_served(content@),
        call_ensures(renames::rename_rx, (info, content), out),
        requests::readable(content@, reading::number16(content@, 4)),
        reading::number16(content@, 2) <= info.rx_channels@.len(),
    ensures
        out@.len() == 3,
        out@[0] matches Action::RenameRx { index, name } && index + 1 == reading::number16(
            content@,
            2,
        ) && texts::reads(content@, reading::number16(content@, 4) - 10, name@),
        out@[1] matches Action::Respond(reply) && reply.code == 1 && reply.payload@.len() == 0,
        out@[2] matches Action::NotifyChannelChange { indices } && indices@.len() == 1
            && indices@[0] + 1 == reading::number16(content@, 2),
{
    requests::rx_rename_names_its_channel(*info, content@);
    assert(actions::steps(out@).len() == out@.len());
    actions_are_taken_as_they_are(out@, 0);
    actions_are_taken_as_they_are(out@, 1);
    actions_are_taken_as_they_are(out@, 2);
}

/// A request to rename transmit channels leads to three actions for each of its items that names a
/// channel of the device, for that channel.
#[verifier::rlimit(40)]
#[verifier::spinoff_prover]
pub proof fn transmit_channels_are_renamed(
    info: &DeviceInfo,
    content: &[u8],
    out: Vec<Action>,
    i: int,
)
    requires
        renames::tx_renames_served(content@),
        call_ensures(renames::rename_tx, (info, content), out),
        0 <= i < requests::rename_items(content@),
        requests::gives_name(*info, content@, i),
    ensures
        ({
            let at = 3 * requests::giving(*info, content@, i);
            let number = reading::number16(content@, 2 + 4 * i);
            &&& 0 <= at
            &&& at + 4 <= out@.len()
            &&& out@[at] matches Action::WithdrawTx { index } && index + 11 == number
            &&& out@[at + 1] matches Action::RenameTx { index, name } && index + 11 == number
                && texts::reads(content@, reading::number16(content@, 4 + 4 * i) - 20, name@)
            &&& out@[at + 2] matches Action::AdvertiseTx { index } && index + 11 == number
            &&& out@.last() matches Action::Respond(reply) && reply.code == 0
                && reply.payload@.len() == 0
        }),
{
    requests::tx_renames_follow_their_items(*info, content@);
    let steps = actions::steps(out@);
    let at = 3 * requests::giving(*info, content@, i);
    assert(steps.len() == out@.len());
    assert(requests::does_rename(content@, i, steps, at));
    lemma_giving_grows(*info, content@, i, requests::rename_items(content@));
    actions_are_taken_as_they_are(out@, at);
    actions_are_taken_as_they_are(out@, at + 1);
    actions_are_taken_as_they_are(out@, at + 2);
    actions_are_taken_as_they_are(out@, out@.len() - 1);
}

proof fn lemma_giving_grows(info: DeviceInfo, content: Seq<u8>, i: int, n: int)
    requires
        0 <= i < n,
        requests::gives_name(info, content, i),
    ensures
        0 <= requests::giving(info, content, i) < requests::giving(info, content, n),
    decreases n,
{
    if i < n - 1 {
        lemma_giving_grows(info, content, i, n - 1);
    } else {
        lemma_giving_positive(info, content, i);
    }
}

proof fn lemma_giving_positive(info: DeviceInfo, content: Seq<u8>, n: int)
    ensures
        0 <= requests::giving(info, content, n),
    decreases n,
{
    if n > 0 {
        lemma_giving_positive(info, content, n - 1);
    }
}

/// A request is answered by the actions of its reaction, and can be if it is served.
pub proof fn requests_are_answered<'a>(
    state: &ServerState<'a>,
    opcode1: u16,
    opcode2: u16,
    content: &[u8],
    out: Vec<Action>,
    ok: bool,
)
    requires
        call_ensures(dispatch::handle_request, (state, opcode1, opcode2, content), out),
        call_ensures(dispatch::can_serve, (state, opcode1, opcode2, content), ok),
    ensures
        actions::steps(out@) == dispatch::reaction(*state, opcode1, opcode2, content@),
        ok == dispatch::served(*state, opcode1, opcode2, content@),
{
}

/// The number of the first item of a page, counted from one, stands in the request.
pub proof fn start_of_page_is_read(content: &[u8], start: Option<usize>)
    requires
        call_ensures(proto_arc::extract_start_index, (content,), start),
    ensures
        match start {
            Some(index) => content@.len() >= 4 && index + 1 == reading::number16(content@, 2),
            None => content@.len() < 4 || reading::number16(content@, 2) == 0,
        },
{
}

/// A packet is told apart by the eight bytes of its opcode.
pub proof fn packets_are_told_apart(packet: &[u8], request: multicaster::InfoRequest)
    requires
        call_ensures(multicaster::classify_request, (packet,), request),
    ensures
        request is TooShort <==> packet@.len() < 32,
        request is BoardInfo <==> packet@.len() >= 32 && packet@.subrange(24, 32).update(1, 0)
            == seq![7u8, 0, 0, 0x61, 0, 0, 0, 0],
        request is ProductInfo <==> packet@.len() >= 32 && packet@.subrange(24, 32).update(1, 0)
            == seq![7u8, 0, 0, 0xc1, 0, 0, 0, 0],
{
    multicasts::request_is_in_its_opcode(packet@);
}

/// The device starts to multicast with its greetings, which carry the first two numbers, and with
/// the version in the product's description.
#[verifier::rlimit(40)]
#[verifier::spinoff_prover]
pub proof fn multicast_starts_with_greetings<'s>(
    info: &'s DeviceInfo,
    major: u8,
    minor: u8,
    patch: u16,
    r: (Multicaster<'s>, Vec<OutgoingPacket>),
)
    requires
        call_ensures(Multicaster::<'s>::start, (info, major, minor, patch), r),
    ensures
        r.0.seqnum == 3,
        r.0.self_info == info,
        r.0.product_version_bytes@[0] == major,
        r.0.product_version_bytes@[1] == minor,
        reading::number16(r.0.product_version_bytes@, 2) == patch,
        r.0.firmware_version_bytes@ == seq![4u8, 1, 6, 2],
        r.1@.len() == 2,
        ({
            let version = r.0.product_version_bytes@;
            &&& multicasts::informs(
                r.1@[0]@,
                *info,
                1,
                seq![7u8, 42, 0, 0x60, 0, 0, 0, 0],
                crate::info_mcast_server::contents::board_info_content(*info),
            )
            &&& multicasts::informs(
                r.1@[1]@,
                *info,
                2,
                seq![7u8, 42, 0, 0xc0, 0, 0, 0, 0],
                crate::info_mcast_server::contents::product_info_content(*info, version),
            )
        }),
{
    let version = r.0.product_version_bytes@;
    reading::lemma_read16(version, 2, patch);
    let fresh = Multicaster { seqnum: 1, ..r.0 };
    multicasts::greetings_describe_board_and_product(fresh);
    assert(multicaster::packets(r.1@).len() == r.1@.len());
    assert(multicaster::packets(r.1@)[0] == r.1@[0]@);
    assert(multicaster::packets(r.1@)[1] == r.1@[1]@);
}

/// The packets of a device start at number one and go to the groups of the protocol, under its vendor
/// and version.
pub proof fn numbering_starts_at_one<'s>(
    info: &'s DeviceInfo,
    major: u8,
    minor: u8,
    patch: u16,
    m: Multicaster<'s>,
)
    requires
        call_ensures(Multicaster::<'s>::new, (info, major, minor, patch), m),
    ensures
        m.seqnum == 1,
        m.self_info == info,
        m.product_version_bytes@[0] == major,
        m.product_version_bytes@[1] == minor,
        reading::number16(m.product_version_bytes@, 2) == patch,
        m.firmware_version_bytes@ == seq![4u8, 1, 6, 2],
        m.device_info_destination.addr@ == seq![224u8, 0, 0, 231],
        m.device_info_destination.port == 8702,
        m.heartbeat_destination.addr@ == seq![224u8, 0, 0, 233],
        m.heartbeat_destination.port == 8708,
        multicasts::fills_field(m.vendor@, 0, 8, info.vendor_string@, 32),
{
    reading::lemma_read16(m.product_version_bytes@, 2, patch);
    multicasts::greetings_describe_board_and_product(m);
}

/// A file tells of this device's clock exactly where its name starts with the device's prefix.
pub proof fn clock_files_are_recognised(
    info: &DeviceInfo,
    file_name: &str,
    ok: bool,
    prefix: String,
)
    requires
        call_ensures(clock_stats::is_clock_stats_file, (info, file_name), ok),
        call_ensures(clock_stats::required_prefix, (info,), prefix),
    ensures
        ok <==> encode_utf8(prefix@).is_prefix_of(encode_utf8(file_name@)),
        prefix@.len() == 28,
        prefix@.take(12) == "clock-stats."@,
        forall|i: int|
            0 <= i < 6 ==> #[trigger] info.mac_address@[i] == 16 * texts::digit_value(
                prefix@[12 + 2 * i],
            ) + texts::digit_value(prefix@[12 + 2 * i + 1]),
        forall|i: int| 24 <= i < 28 ==> #[trigger] prefix@[i] == '0',
{
    clocks::clock_files_are_named_by_the_address(*info);
}

/// The identity of the master clock is made of the first sixteen digits of the text.
pub proof fn master_clock_is_read(content: &str, id: Option<Vec<u8>>)
    requires
        clock_stats::clock_stats_served(content@),
        call_ensures(clock_stats::master_clock_id, (content,), id),
    ensures
        ({
            let t = clock_stats::trimmed(encode_utf8(content@));
            match id {
                Some(bytes) => bytes@.len() == 8 && t.len() >= 16 && forall|i: int|
                    0 <= i < 8 ==> #[trigger] bytes@[i] == clocks::hex_digit(t[2 * i]) * 16
                        + clocks::hex_digit(t[2 * i + 1]),
                None => t.len() < 16 || exists|i: int|
                    0 <= i < 16 && clocks::hex_digit(#[trigger] t[i]) < 0,
            }
        }),
{
    clocks::identity_is_read_from_its_digits(content@);
}

/// The paths of the storage: a directory for the device, and in it files that end in `.toml`. What is
/// written first does not take the place of what is there.
pub proof fn files_are_found(
    state_dir: &str,
    separator: &str,
    info: &DeviceInfo,
    storage: StateStorage,
    name: &str,
    full: String,
    tmp: String,
)
    requires
        call_ensures(StateStorage::new, (state_dir, separator, info), storage),
        call_ensures(StateStorage::full_path, (&storage, name), full),
        call_ensures(StateStorage::tmp_path, (&storage, name), tmp),
    ensures
        full@ == state_dir@ + separator@ + crate::hex_text::hex_chars(info.factory_device_id@)
            + separator@ + name@ + ".toml"@,
        tmp@ == state_dir@ + separator@ + crate::hex_text::hex_chars(info.factory_device_id@)
            + separator@ + "tmp."@ + name@ + ".toml"@,
        full@ != tmp@,
{
    services::files_do_not_meet(storage, name@, "tmp."@ + name@);
    services::devices_have_their_own_directories(state_dir@, separator@, *info, *info);
    let front = state_dir@ + separator@ + crate::hex_text::hex_chars(info.factory_device_id@)
        + separator@;
    assert(tmp@ =~= front + "tmp."@ + name@ + ".toml"@);
}

/// The device advertises two services from its start on: routing control, then control and
/// monitoring.
pub proof fn device_services_are_advertised(info: &DeviceInfo, out: Vec<ServiceDescription>)
    requires
        call_ensures(mdns_server::device_services, (info,), out),
    ensures
        out@.len() == 2,
        services::reached_at(
            out@[0]@,
            *info,
            "_netaudio-arc"@,
            info.friendly_hostname@,
            info.arc_port,
        ),
        services::reached_at(
            out@[1]@,
            *info,
            "_netaudio-cmc"@,
            info.friendly_hostname@,
            info.cmc_port,
        ),
{
    services::routing_control_is_described(*info);
    services::control_and_monitoring_is_described(*info);
    assert(mdns_server::services(out@).len() == out@.len());
    assert(mdns_server::services(out@)[0] == out@[0]@);
    assert(mdns_server::services(out@)[1] == out@[1]@);
}

/// What a description of a service tells is what its fields hold.
pub proof fn service_tells_its_fields(d: ServiceDescription, i: int)
    ensures
        d@.name == d.name@,
        d@.port == d.port,
        d@.ip_address == d.ip_address@,
        d@.ttl == d.ttl,
        d@.service_type.len() == d.service_type@.len(),
        0 <= i < d.service_type@.len() ==> d@.service_type[i] == d.service_type@[i]@,
        d@.txt.len() == d.txt@.len(),
        0 <= i < d.txt@.len() ==> d@.txt[i] == d.txt@[i]@,
{
}

/// A channel is advertised at the port for flow control, and withdrawn under the names and the type
/// under which it was advertised.
#[verifier::rlimit(40)]
#[verifier::spinoff_prover]
pub proof fn channels_are_advertised_and_withdrawn(
    info: &DeviceInfo,
    limits: &FlowLimits,
    index: usize,
    out: Vec<ServiceDescription>,
    withdrawn: Vec<String>,
    labels: Vec<String>,
    i: int,
)
    requires
        index < info.tx_channels@.len(),
        call_ensures(mdns_server::add_tx_channel, (info, limits, index), out),
        call_ensures(mdns_server::remove_tx_channel, (info, index), withdrawn),
        call_ensures(mdns_server::channel_service_type, (), labels),
        0 <= i < out@.len(),
    ensures
        out@.len() == withdrawn@.len(),
        out@[i].name@ == withdrawn@[i]@,
        mdns_server::texts(out@[i].service_type@) == mdns_server::texts(labels@),
        services::reached_at(
            out@[i]@,
            *info,
            "_netaudio-chan"@,
            withdrawn@[i]@,
            info.flows_control_port,
        ),
        withdrawn@[i]@ == (if i == 0 {
            info.tx_channels@[index as int].factory_name@
        } else {
            info.tx_channels@[index as int].friendly_name@
        }) + "@"@ + info.friendly_hostname@,
        services::tells_channel(out@[i]@.txt, *info, *limits, index as int),
{
    services::channel_services_are_described(*info, *limits, index as int);
    services::channel_service_names_are_its_names(*info, index as int);
    mdns_server::what_is_advertised_can_be_withdrawn(*info, *limits, index as int);
    assert(mdns_server::services(out@).len() == out@.len());
    assert(mdns_server::texts(withdrawn@).len() == withdrawn@.len());
    assert(mdns_server::services(out@)[i] == out@[i]@);
    assert(mdns_server::texts(withdrawn@)[i] == withdrawn@[i]@);
}

/// Flows that are written and read back are in the same slots with the same channels.
pub proof fn flows_are_kept(bundles: &Bundles, saved: SavedFlows, again: Bundles)
    requires
        call_ensures(Bundles::to_saved, (bundles,), saved),
        call_ensures(Bundles::from_saved, (&saved,), again),
    ensures
        tx_multicasts::channels(again.bundles@) == tx_multicasts::channels(bundles.bundles@),
{
    tx_multicasts::saved_flows_are_read_back(tx_multicasts::channels(bundles.bundles@));
}

/// The flows that were kept are taken up in their slots, and the others are empty.
pub proof fn flows_are_taken_up(kept: Option<Bundles>, max_flows: usize, r: TransmitMulticasts)
    requires
        call_ensures(TransmitMulticasts::new, (kept, max_flows), r),
    ensures
        r.should_work,
        r.bundles.bundles@.len() >= max_flows,
        forall|i: int|
            0 <= i < r.slots().len() ==> #[trigger] r.slots()[i] == (if kept is Some && i
                < kept->0.bundles@.len() {
                tx_multicasts::channels(kept->0.bundles@)[i]
            } else {
                None
            }),
{
    if kept is Some {
        assert(tx_multicasts::channels(kept->0.bundles@).len() == kept->0.bundles@.len());
    }
}

/// A check starts with the question whether the address of the flow is in use.
pub proof fn check_starts_with_a_question(
    flow_index: usize,
    channel_indices: Vec<Option<usize>>,
    destination: MulticastDestination,
    r: (Activation, Todo),
)
    requires
        call_ensures(Activation::start, (flow_index, channel_indices, destination), r),
    ensures
        r.0.flow_index == flow_index,
        r.0.channel_indices@ == channel_indices@,
        r.0.destination == destination,
        r.0.phase is FirstAnswer,
        r.1 matches Todo::Ask(asked) && asked == destination,
{
}

} // verus!
