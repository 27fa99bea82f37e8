//! The bytes that messages are made into, and which requests and facts are accepted.
use vstd::prelude::*;
use vstd::utf8::*;

use crate::arc_server::device_facts;
use crate::arc_server::renames;
use crate::arc_server::rx_flows;
use crate::arc_server::subscriptions;
use crate::arc_server::tx_flows;
use crate::device_info::{DeviceInfo, FlowLimits, RxFlowInfo, TxFlowInfo};
use crate::info_mcast_server::clock_stats;
use crate::info_mcast_server::clock_stats::ClockFile;
use crate::info_mcast_server::contents;
use crate::info_mcast_server::contents::HeartbeatFacts;
use crate::laws::answers;
use crate::laws::clocks;
use crate::laws::device_facts as device_laws;
use crate::laws::flow_counts;
use crate::laws::messages;
use crate::laws::multicasts;
use crate::laws::pages;
use crate::laws::reading;
use crate::laws::requests;
use crate::mdns_server;
use crate::media_clock::MediaClock;
use crate::protocol::proto_arc;
use crate::protocol::proto_arc::channels_and_flows_count;
use crate::protocol::proto_arc::get_device_names;
use crate::protocol::proto_arc::get_receive_channels;
use crate::protocol::proto_arc::get_transmit_channels;
use crate::protocol::proto_arc::get_transmit_channels_friendly_names;
use crate::protocol::proto_arc::rename_tx_channel;
use crate::protocol::proto_arc::rename_tx_channel::SingleChannelRenameRequest;
use crate::protocol::proto_arc::{ItemSource, Reply};
use crate::state_storage;
use crate::state_storage::ChannelSettings;

verus! {

/// Descriptors of channels are made into bytes field by field.
pub proof fn descriptors_are_encoded(
    t: &get_transmit_channels::ChannelDescriptor,
    n: &get_transmit_channels_friendly_names::ChannelDescriptor,
    r: &get_receive_channels::ChannelDescriptor,
    tb: Vec<u8>,
    nb: Vec<u8>,
    rb: Vec<u8>,
)
    requires
        call_ensures(get_transmit_channels::ChannelDescriptor::serialize, (t,), tb),
        call_ensures(get_transmit_channels_friendly_names::ChannelDescriptor::serialize, (n,), nb),
        call_ensures(get_receive_channels::ChannelDescriptor::serialize, (r,), rb),
    ensures
        tb@.len() == 8,
        reading::number16(tb@, 0) == t.channel_id,
        reading::number16(tb@, 2) == t.unknown1_7,
        reading::number16(tb@, 4) == t.common_descriptor_offset,
        reading::number16(tb@, 6) == t.name_offset,
        nb@.len() == 6,
        reading::number16(nb@, 0) == n.channel_id_1,
        reading::number16(nb@, 2) == n.channel_id_2,
        reading::number16(nb@, 4) == n.friendly_name_offset,
        rb@.len() == 20,
        reading::number16(rb@, 0) == r.channel_id,
        reading::number16(rb@, 2) == r.unknown1_6,
        reading::number16(rb@, 4) == r.common_descriptor_offset,
        reading::number16(rb@, 6) == r.tx_channel_name_offset,
        reading::number16(rb@, 8) == r.tx_hostname_offset,
        reading::number16(rb@, 10) == r.friendly_name_offset,
        reading::number32(rb@, 12) == r.subscription_status,
        reading::number32(rb@, 16) == r.unknown2_0,
{
    messages::transmit_channel_fields_are_read(*t);
    messages::friendly_name_fields_are_read(*n);
    messages::receive_channel_fields_are_read(*r);
}

/// What all channels share is taken from the device and made into bytes field by field.
pub proof fn common_descriptor_is_encoded(
    info: &DeviceInfo,
    d: get_receive_channels::CommonDescriptor,
    b: Vec<u8>,
)
    requires
        call_ensures(get_receive_channels::CommonDescriptor::new, (info,), d),
        call_ensures(get_receive_channels::CommonDescriptor::serialize, (&d,), b),
    ensures
        b@.len() == 16,
        reading::number32(b@, 0) == info.sample_rate,
        b@[4] == 1,
        b@[5] == 1,
        reading::number16(b@, 6) == info.bits_per_sample,
        reading::number16(b@, 8) == 0x400,
        reading::number16(b@, 10) == info.bits_per_sample,
        reading::number16(b@, 12) == info.bits_per_sample,
        reading::number16(b@, 14) == info.pcm_type,
{
    messages::common_fields_are_read(d);
}

/// The counts are made into bytes field by field.
#[verifier::rlimit(40)]
#[verifier::spinoff_prover]
pub proof fn counts_are_encoded(
    r: &channels_and_flows_count::Response,
    b: Vec<u8>,
    f: &channels_and_flows_count::Flags2,
    byte: u8,
)
    requires
        call_ensures(channels_and_flows_count::Response::serialize, (r,), b),
        call_ensures(channels_and_flows_count::Flags2::serialize, (f,), byte),
    ensures
        byte % 16 == f.unknown1_0 % 16,
        (byte / 16) % 2 == 1 <==> f.supports_tx_channel_rename,
        byte / 32 == f.unknown2_0 % 8,
        b@.len() == 34,
        b@[0] == r.unknown1_0,
        (b@[1] / 16) % 2 == 1 <==> r.flags2.supports_tx_channel_rename,
        reading::number16(b@, 2) == r.tx_channels_count,
        reading::number16(b@, 4) == r.rx_channels_count,
        reading::number16(b@, 6) == r.unknown2_4,
        reading::number16(b@, 8) == r.unknown3_4,
        reading::number16(b@, 10) == r.unknown4_8,
        reading::number16(b@, 12) == r.max_tx_flows,
        reading::number16(b@, 14) == r.max_rx_flows,
        reading::number16(b@, 16) == r.unknown5_total_channels,
        reading::number16(b@, 18) == r.unknown6_1,
        reading::number16(b@, 20) == r.unknown7_1,
{
    messages::counts_fields_are_read(*r);
    messages::flags_are_read_from_their_bits(*f);
    messages::flags_are_read_from_their_bits(r.flags2);
}

/// The offsets of the device's names are made into bytes field by field.
#[verifier::rlimit(40)]
#[verifier::spinoff_prover]
pub proof fn names_header_is_encoded(r: &get_device_names::ResponseHeader, b: Vec<u8>)
    requires
        call_ensures(get_device_names::ResponseHeader::serialize, (r,), b),
    ensures
        b@.len() == 38,
        reading::number16(b@, 6) == r.board_name_offset,
        reading::number16(b@, 8) == r.revision_string_offset,
        reading::number16(b@, 12) == r.friendly_hostname_offset1,
        reading::number16(b@, 14) == r.factory_hostname_offset,
        reading::number16(b@, 16) == r.friendly_hostname_offset2,
        reading::number16(b@, 30) == r.start_code,
        reading::number16(b@, 34) == r.unknown_opcode_1102,
{
    messages::names_fields_are_read(*r);
}

/// The items of a request to rename transmit channels are read, as many as it announces and holds.
pub proof fn rename_requests_are_decoded(
    payload: &[u8],
    out: Vec<SingleChannelRenameRequest>,
    i: int,
)
    requires
        call_ensures(rename_tx_channel::deserialize_items, (payload,), out),
    ensures
        out@.len() == requests::rename_items(payload@),
        0 <= i < out@.len() ==> out@[i].channel_id == reading::number16(payload@, 2 + 4 * i)
            && out@[i].new_name_offset == reading::number16(payload@, 4 + 4 * i),
{
}

/// A request for a page is answered with the page, and with a code that tells whether items are left
/// over.
pub proof fn pages_are_made<I: ItemSource>(
    content: &[u8],
    space: u8,
    items: &I,
    reply: Option<Reply>,
)
    requires
        call_ensures(proto_arc::paginate_respond, (content, space, items), reply),
    ensures
        reply is Some <==> content@.len() >= 4 && reading::number16(content@, 2) >= 1,
        reply is Some ==> pages::shows_page(
            reply->0.payload@,
            reply->0.code,
            items.count() as int,
            reading::number16(content@, 2) - 1,
            space as int,
            I::descriptor_size() as int,
        ),
{
    if let Some(start) = proto_arc::start_index(content@) {
        pages::page_of_any_list_announces_its_items(*items, start, space as nat);
    }
}

/// A page that is filled tells whether items are left over, in its result as by its code.
pub proof fn filled_pages_tell_of_more<I: ItemSource>(
    space: u8,
    items: &I,
    start: usize,
    page: (bool, Vec<u8>),
)
    requires
        call_ensures(proto_arc::serialize_items, (space, items, start), page),
    ensures
        pages::shows_page(
            page.1@,
            if page.0 {
                0x8112u16
            } else {
                1
            },
            items.count() as int,
            start as int,
            space as int,
            I::descriptor_size() as int,
        ),
{
    pages::page_of_any_list_announces_its_items(*items, start as nat, space as nat);
}

/// The descriptions of board and product.
pub proof fn descriptions_are_made(
    info: &DeviceInfo,
    version: &[u8; 4],
    board: Vec<u8>,
    product: Vec<u8>,
)
    requires
        call_ensures(contents::make_board_info, (info,), board),
        call_ensures(contents::make_product_info, (info, version), product),
    ensures
        board@.len() == 200,
        multicasts::fills_field(board@, 12, 8, info.board_name@, 0),
        multicasts::fills_field(board@, 56, 16, info.board_name@, 0),
        product@.len() == 336,
        multicasts::fills_field(product@, 0, 8, info.manufacturer@, 0),
        multicasts::fills_field(product@, 8, 8, info.board_name@, 0),
        multicasts::fills_field(product@, 44, 16, info.manufacturer@, 0),
        multicasts::fills_field(product@, 172, 16, info.model_name@, 0),
        product@.subrange(300, 304) == version@,
{
    multicasts::board_is_described(*info);
    multicasts::product_is_described(*info, version@);
}

/// The contents of the messages that are sent once a second.
pub proof fn regular_messages_are_made(
    info: &DeviceInfo,
    ctr: u16,
    facts: &HeartbeatFacts,
    heartbeat: Vec<u8>,
    freq_offset: i32,
    master: &Vec<u8>,
    status: Vec<u8>,
    network: Vec<u8>,
)
    requires
        contents::heartbeat_served(*facts),
        master@.len() == 8,
        call_ensures(contents::make_heartbeat, (info, ctr, facts), heartbeat),
        call_ensures(contents::make_clock_status, (info, freq_offset, master), status),
        call_ensures(contents::make_network, (info,), network),
    ensures
        facts.freq_offset is None ==> heartbeat@.len() == 0,
        facts.freq_offset matches Some(f) ==> multicasts::shows_frequency(heartbeat@, ctr, f)
            && multicasts::shows_meters(heartbeat@, 16, ctr) && (
        facts.rx_latencies matches Some(latencies) ==> multicasts::shows_latencies(
            heartbeat@,
            56,
            ctr,
            info.sample_rate,
            latencies@,
        )),
        reading::signed32(status@, 8) == freq_offset,
        status@.subrange(12, 18) == info.mac_address@,
        status@.subrange(20, 28) == master@,
        status@.subrange(28, 36) == master@,
        network@.subrange(10, 16) == info.mac_address@,
        network@.subrange(16, 20) == info.ip_address@,
        network@.subrange(20, 24) == info.netmask@,
        network@.subrange(24, 28) == info.gateway@,
        network@.subrange(28, 32) == info.gateway@,
{
    if facts.freq_offset is Some {
        multicasts::heartbeat_tells_its_facts(*info, ctr, *facts);
    }
    multicasts::clock_status_is_told(*info, freq_offset, master@);
    multicasts::network_is_told(*info);
}

/// A key and its value are joined by a sign of equality. The type of a service has three labels.
#[verifier::rlimit(40)]
#[verifier::spinoff_prover]
pub proof fn records_are_joined(
    key: &str,
    value: &str,
    joined: String,
    st: &str,
    labels: Vec<String>,
)
    requires
        call_ensures(mdns_server::kv, (key, value), joined),
        call_ensures(mdns_server::service_type, (st,), labels),
    ensures
        joined@ == key@ + "="@ + value@,
        labels@.len() == 3,
        labels@[0]@ == st@,
        labels@[1]@ == "_udp"@,
        labels@[2]@ == "local"@,
{
    reveal_strlit("=");
    assert("="@ =~= seq!['=']);
    let t = mdns_server::texts(labels@);
    assert(t.len() == labels@.len());
    assert(t[0] == labels@[0]@);
    assert(t[1] == labels@[1]@);
    assert(t[2] == labels@[2]@);
}

/// Each device has a directory that is named by its identity.
pub proof fn directory_is_named_by_the_identity(
    state_dir: &str,
    separator: &str,
    info: &DeviceInfo,
    dir: String,
)
    requires
        call_ensures(state_storage::state_directory, (state_dir, separator, info), dir),
    ensures
        dir@ == state_dir@ + separator@ + crate::hex_text::hex_chars(info.factory_device_id@),
{
}

/// The search among files gives the first identity.
#[verifier::rlimit(40)]
#[verifier::spinoff_prover]
pub proof fn first_identity_is_found(
    info: &DeviceInfo,
    files: &Vec<ClockFile>,
    id: Option<Vec<u8>>,
    ok: bool,
)
    requires
        call_ensures(clock_stats::find_master_clock, (info, files), id),
        call_ensures(clock_stats::is_search_served, (info, files), ok),
    ensures
        match id {
            Some(bytes) => exists|k: int|
                0 <= k < files@.len() && clocks::none_before(*info, files@, k)
                    && #[trigger] clock_stats::identity_in(*info, files@[k]) == Some(bytes@),
            None => clocks::none_before(*info, files@, files@.len() as int),
        },
        ok <==> forall|k: int|
            0 <= k < files@.len() && clocks::none_before(*info, files@, k) ==> clocks::searchable(
                *info,
                #[trigger] files@[k],
            ),
{
    clocks::search_finds_the_first_identity(*info, files@);
    clocks::search_is_made(*info, files@);
    if let Some(bytes) = id {
        let k = choose|k: int|
            0 <= k < files@.len() && #[trigger] clock_stats::identity_in(*info, files@[k]) == Some(
                bytes@,
            ) && forall|j: int|
                0 <= j < k ==> #[trigger] clock_stats::identity_in(*info, files@[j]) is None;
        assert(clocks::none_before(*info, files@, k));
        assert(clock_stats::identity_in(*info, files@[k]) == Some(bytes@));
    }
}

/// Facts about the device are told exactly where their numbers fit.
pub proof fn facts_are_accepted(
    info: &DeviceInfo,
    limits: &FlowLimits,
    counts: bool,
    names: bool,
    facts: &HeartbeatFacts,
    heartbeat: bool,
)
    requires
        call_ensures(device_facts::are_counts_served, (info, limits), counts),
        call_ensures(device_facts::are_names_served, (info,), names),
        call_ensures(contents::is_heartbeat_served, (facts,), heartbeat),
    ensures
        counts <==> info.tx_channels@.len() + info.rx_channels@.len() < 0x10000
            && limits.max_tx_flows < 0x10000 && limits.max_rx_flows < 0x10000,
        names <==> 51 + encode_utf8(info.friendly_hostname@).len() + encode_utf8(
            info.factory_hostname@,
        ).len() + encode_utf8(info.board_name@).len() < 0x10000,
        heartbeat <==> (facts.freq_offset is Some ==> (
        facts.rx_latencies matches Some(latencies) ==> 24 + 4 * (latencies@.len() as int % 0x10000)
            < 0x10000) && (facts.master_clock matches Some(id) ==> id@.len() == 8)),
{
    device_laws::counts_are_told_where_they_fit(*info, *limits);
    device_laws::names_are_told_where_they_fit(*info);
    multicasts::heartbeat_is_told_where_it_fits(*info, 0, *facts);
}

/// Requests that change something are accepted exactly where they are complete.
pub proof fn complete_requests_are_accepted(
    content: &[u8],
    subscribe: bool,
    unsubscribe: bool,
    rename_rx: bool,
    rename_tx: bool,
)
    requires
        call_ensures(subscriptions::is_subscribe_served, (content,), subscribe),
        call_ensures(subscriptions::is_unsubscribe_served, (content,), unsubscribe),
        call_ensures(renames::is_rx_rename_served, (content,), rename_rx),
        call_ensures(renames::are_tx_renames_served, (content,), rename_tx),
    ensures
        subscribe <==> content@.len() >= 2 && content@.len() >= 2 + 6 * content@[1]
            && forall|i: int|
            0 <= i < content@[1] ==> #[trigger] requests::subscription_field(content@, i, 0) >= 1,
        unsubscribe <==> content@.len() >= 6 && reading::number16(content@, 4) >= 1,
        rename_rx <==> content@.len() >= 6 && reading::number16(content@, 4) >= 10 && (
        requests::readable(content@, reading::number16(content@, 4)) ==> reading::number16(
            content@,
            2,
        ) >= 1),
        rename_tx <==> forall|i: int|
            0 <= i < requests::rename_items(content@) ==> requests::renamed_channel(content@, i)
                <= 10 || #[trigger] requests::renamed_offset(content@, i) <= 10
                || requests::renamed_offset(content@, i) >= 20,
{
    requests::subscription_request_is_complete(content@);
    requests::end_of_subscription_names_its_channel(content@);
    requests::rx_rename_request_is_complete(content@);
    requests::tx_rename_request_is_complete(content@);
}

/// Lists of flows are told exactly where every listed flow fits.
pub proof fn fitting_flows_are_accepted(
    info: &DeviceInfo,
    tx: &Vec<Option<TxFlowInfo>>,
    rx: &Vec<Option<RxFlowInfo>>,
    start: usize,
    tx_ok: bool,
    rx_ok: bool,
)
    requires
        call_ensures(tx_flows::are_tx_flows_encodable, (tx, start), tx_ok),
        call_ensures(rx_flows::are_rx_flows_encodable, (info, rx, start), rx_ok),
    ensures
        tx_ok <==> forall|slot: int|
            start <= slot < start + flow_counts::listed_slots(tx@, start as int) ==> (
            #[trigger] tx@[slot] matches Some(flow) ==> {
                &&& slot + 1 < 0x10000
                &&& flow.local_channel_indices@.len() < 0x10000
                &&& forall|i: int|
                    0 <= i < flow.local_channel_indices@.len() ==> (
                    #[trigger] flow.local_channel_indices@[i] matches Some(channel) ==> channel + 1
                        < 0x10000)
            }),
        rx_ok <==> forall|slot: int|
            start <= slot < start + flow_counts::listed_slots(rx@, start as int) ==> (
            #[trigger] rx@[slot] matches Some(flow) ==> rx_flows::rx_flow_encodable(*info, flow)),
{
    answers::tx_flows_are_told_where_they_fit(tx@, start as int);
    answers::rx_flows_are_told_where_they_fit(*info, rx@, start as int);
}

/// A clock with an overlay counts its time in units, and tells how long it is until a timestamp; one
/// without tells neither.
#[verifier::rlimit(40)]
#[verifier::spinoff_prover]
pub proof fn clock_counts_with_an_overlay<O>(
    clock: &MediaClock<O>,
    reading: u64,
    timebase_hz: u64,
    now: Option<usize>,
    timestamp: usize,
    remaining: Option<i64>,
)
    requires
        timebase_hz > 0,
        call_ensures(MediaClock::<O>::now_in_timebase, (clock, reading, timebase_hz), now),
        call_ensures(
            MediaClock::<O>::remaining,
            (clock, timestamp, timebase_hz, reading),
            remaining,
        ),
    ensures
        now is Some <==> clock.overlay is Some,
        remaining is Some <==> clock.overlay is Some,
        now is Some && reading * timebase_hz < (usize::MAX + 1) * 1_000_000_000 ==> now->0
            * 1_000_000_000 <= reading * timebase_hz < (now->0 + 1) * 1_000_000_000,
        remaining is Some && timestamp * 1_000_000_000 < 0x8000_0000_0000_0000 * timebase_hz
            && reading < 0x8000_0000_0000_0000 ==> (reading + remaining->0) * timebase_hz
            <= timestamp * 1_000_000_000 < (reading + remaining->0 + 1) * timebase_hz,
{
    if clock.overlay is Some {
        clocks::whole_units_have_passed(reading as nat, timebase_hz as nat);
        if reading * timebase_hz < (usize::MAX + 1) * 1_000_000_000 {
            let v = crate::media_clock::in_timebase(reading as nat, timebase_hz as nat);
            assert(v <= usize::MAX);
            vstd::arithmetic::div_mod::lemma_small_mod(
                v,
                crate::media_clock::clock_modulus() as nat,
            );
        }
        if timestamp * 1_000_000_000 < 0x8000_0000_0000_0000 * timebase_hz && reading
            < 0x8000_0000_0000_0000 {
            let ns = crate::media_clock::in_nanos(timestamp as nat, timebase_hz as nat) as int;
            let hz = timebase_hz as int;
            let total = timestamp * 1_000_000_000;
            clocks::whole_nanoseconds_have_passed(timestamp as nat, timebase_hz as nat);
            assert(ns < 0x8000_0000_0000_0000) by (nonlinear_arith)
                requires
                    ns * hz <= total,
                    total < 0x8000_0000_0000_0000 * hz,
                    hz > 0,
            ;
            crate::media_clock::near_times_differ_by_their_distance(ns, reading as int);
        }
    }
}

/// Messages that nothing was put into hold zeros, and settings that nothing was put into no name.
pub proof fn defaults_are_empty(
    counts: channels_and_flows_count::Response,
    names: get_device_names::ResponseHeader,
    channel: get_receive_channels::ChannelDescriptor,
    common: get_receive_channels::CommonDescriptor,
    setting: ChannelSettings,
    i: int,
)
    requires
        call_ensures(channels_and_flows_count::Response::default, (), counts),
        call_ensures(get_device_names::ResponseHeader::default, (), names),
        call_ensures(get_receive_channels::ChannelDescriptor::default, (), channel),
        call_ensures(get_receive_channels::CommonDescriptor::default, (), common),
        call_ensures(ChannelSettings::default, (), setting),
    ensures
        0 <= i < 11 ==> reading::number16(counts.encoded(), 2 * i) == 0,
        0 <= i < 6 ==> counts.unknown8_0@[i] == 0,
        0 <= i < 9 || 15 <= i < 19 ==> reading::number16(names.encoded(), 2 * i) == 0,
        0 <= i < 6 ==> names.unknown5_0@[i] == 0,
        0 <= i < 5 ==> reading::number32(channel.encoded(), 4 * i) == 0,
        0 <= i < 4 ==> reading::number32(common.encoded(), 4 * i) == 0,
        setting.id == 0,
        setting.friendly_name@.len() == 0,
{
    messages::counts_fields_are_read(counts);
    messages::names_fields_are_read(names);
    messages::receive_channel_fields_are_read(channel);
    messages::common_fields_are_read(common);
}

/// The protocol is spoken at port 4440.
pub proof fn protocol_has_its_port()
    ensures
        proto_arc::PORT == 4440,
        proto_arc::PACKET_SIZE_SOFT_LIMIT == 800,
{
}

} // verus!
