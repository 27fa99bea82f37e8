//! What the network is told of the services of the device, and what is kept of its channels.
use vstd::prelude::*;

use crate::device_info::{Channel, DeviceInfo, FlowLimits};
use crate::hex_text;
use crate::mdns_server;
use crate::mdns_server::Service;
use crate::state_storage;
use crate::state_storage::{ChannelSettings, Names, SavedChannels, Setting, StateStorage};
use crate::text;

verus! {

/// The service is of the type, over UDP in the local network, on the port of the device's address.
pub open spec fn reached_at(
    service: Service,
    info: DeviceInfo,
    st: Seq<char>,
    name: Seq<char>,
    port: u16,
) -> bool {
    &&& service.service_type.len() == 3
    &&& service.service_type[0] == st
    &&& service.service_type[1] == "_udp"@
    &&& service.service_type[2] == "local"@
    &&& service.name == name
    &&& service.port == port
    &&& service.ip_address == info.ip_address@
}

/// The service for audio routing control is found under the name of the device, at its own port,
/// and tells board, manufacturer and model.
#[verifier::rlimit(40)]
#[verifier::spinoff_prover]
pub proof fn routing_control_is_described(info: DeviceInfo)
    ensures
        ({
            let s = mdns_server::arc_service(info);
            &&& reached_at(
                s,
                info,
                "_netaudio-arc"@,
                info.friendly_hostname@,
                info.arc_port,
            )
            &&& s.ttl == Some(4500u32)
            &&& s.txt.len() == 6
            &&& s.txt[0] == "arcp_vers=2.7.41"@
            &&& s.txt[1] == "arcp_min=0.2.4"@
            &&& s.txt[2] == "router_vers=4.0.2"@
            &&& s.txt[3] == "router_info="@ + info.board_name@
            &&& s.txt[4] == "mf="@ + info.manufacturer@
            &&& s.txt[5] == "model="@ + info.model_number@
        }),
{
    reveal_strlit("router_info");
    reveal_strlit("router_info=");
    reveal_strlit("mf");
    reveal_strlit("mf=");
    reveal_strlit("model");
    reveal_strlit("model=");
    let s = mdns_server::arc_service(info);
    assert(s.txt[3] =~= "router_info="@ + info.board_name@);
    assert(s.txt[4] =~= "mf="@ + info.manufacturer@);
    assert(s.txt[5] =~= "model="@ + info.model_number@);
}

/// The service for control and monitoring is found under the name of the device, at its own port,
/// and tells the identity and the process of the device, manufacturer and model.
#[verifier::rlimit(40)]
#[verifier::spinoff_prover]
pub proof fn control_and_monitoring_is_described(info: DeviceInfo)
    ensures
        ({
            let s = mdns_server::cmc_service(info);
            &&& reached_at(
                s,
                info,
                "_netaudio-cmc"@,
                info.friendly_hostname@,
                info.cmc_port,
            )
            &&& s.ttl is None
            &&& s.txt.len() == 10
            &&& s.txt[0] == "id="@ + hex_text::hex_chars(info.factory_device_id@)
            &&& s.txt[1] == "process="@ + text::decimal(info.process_id as nat)
            &&& s.txt[2] == "cmcp_vers=1.2.0"@
            &&& s.txt[3] == "cmcp_min=1.0.0"@
            &&& s.txt[4] == "server_vers=4.0.2"@
            &&& s.txt[5] == "channels=0x6000004d"@
            &&& s.txt[6] == "mf="@ + info.manufacturer@
            &&& s.txt[7] == "model="@ + info.model_number@
            &&& s.txt[8].len() == 0
            &&& s.txt[9].len() == 0
        }),
{
    reveal_strlit("id");
    reveal_strlit("id=");
    reveal_strlit("process");
    reveal_strlit("process=");
    reveal_strlit("mf");
    reveal_strlit("mf=");
    reveal_strlit("model");
    reveal_strlit("model=");
    reveal_strlit("");
    let s = mdns_server::cmc_service(info);
    assert(s.txt[0] =~= "id="@ + hex_text::hex_chars(info.factory_device_id@));
    assert(s.txt[1] =~= "process="@ + text::decimal(info.process_id as nat));
    assert(s.txt[6] =~= "mf="@ + info.manufacturer@);
    assert(s.txt[7] =~= "model="@ + info.model_number@);
}

/// What every service of a channel tells: the number of the channel, the sample rate, the size and
/// the coding of samples, the latency, how many frames a packet may hold, and how many channels a
/// flow may have.
pub open spec fn tells_channel(
    txt: Seq<Seq<char>>,
    info: DeviceInfo,
    limits: FlowLimits,
    index: int,
) -> bool {
    let channels = info.tx_channels@.len() as int % 0x10000;
    let nchan = if channels <= limits.max_channels_in_flow {
        channels
    } else {
        limits.max_channels_in_flow as int
    };
    &&& txt[0] == "txtvers=2"@
    &&& txt[1] == "dbcp1=0x1102"@
    &&& txt[2] == "dbcp=0x1004"@
    &&& txt[3] == "id="@ + text::decimal((index + 1) as nat)
    &&& txt[4] == "rate="@ + text::decimal(info.sample_rate as nat)
    &&& txt[5] == "pcm="@ + text::decimal((info.bits_per_sample / 8) as nat) + " "@ + text::in_base(
        info.pcm_type as nat,
        16,
    )
    &&& txt[6] == "enc="@ + text::decimal(info.bits_per_sample as nat)
    &&& txt[7] == "en="@ + text::decimal(info.bits_per_sample as nat)
    &&& txt[8] == "latency_ns="@ + text::decimal(info.latency_ns as nat)
    &&& txt[9] == "fpp="@ + text::decimal(limits.fpp_max_advertised as nat) + ","@ + text::decimal(
        limits.fpp_min as nat,
    )
    &&& txt[10] == "nchan="@ + text::decimal(nchan as nat)
}

#[verifier::rlimit(40)]
#[verifier::spinoff_prover]
proof fn lemma_channel_txt(info: DeviceInfo, limits: FlowLimits, index: int)
    ensures
        mdns_server::channel_txt(info, limits, index).len() == 11,
        tells_channel(mdns_server::channel_txt(info, limits, index), info, limits, index),
{
    reveal_strlit("id");
    reveal_strlit("id=");
    reveal_strlit("rate");
    reveal_strlit("rate=");
    reveal_strlit("pcm");
    reveal_strlit("pcm=");
    reveal_strlit(" ");
    reveal_strlit("enc");
    reveal_strlit("enc=");
    reveal_strlit("en");
    reveal_strlit("en=");
    reveal_strlit("latency_ns");
    reveal_strlit("latency_ns=");
    reveal_strlit("fpp");
    reveal_strlit("fpp=");
    reveal_strlit(",");
    reveal_strlit("nchan");
    reveal_strlit("nchan=");
    let txt = mdns_server::channel_txt(info, limits, index);
    let bits = text::decimal(info.bits_per_sample as nat);
    assert(txt[3] =~= "id="@ + text::decimal((index + 1) as nat));
    assert(txt[4] =~= "rate="@ + text::decimal(info.sample_rate as nat));
    assert(txt[5] =~= "pcm="@ + text::decimal((info.bits_per_sample / 8) as nat) + " "@
        + text::in_base(info.pcm_type as nat, 16));
    assert(txt[6] =~= "enc="@ + bits);
    assert(txt[7] =~= "en="@ + bits);
    assert(txt[8] =~= "latency_ns="@ + text::decimal(info.latency_ns as nat));
    assert(txt[9] =~= "fpp="@ + text::decimal(limits.fpp_max_advertised as nat) + ","@
        + text::decimal(limits.fpp_min as nat));
    assert(txt[10] =~= "nchan="@ + text::decimal(
        mdns_server::channels_in_flow(info, limits) as nat,
    ));
}

/// A transmit channel is advertised under the name it was made with, marked as the default, and, if
/// its user gave it another, under that name too. Both are joined with the name of the device, and
/// both are reached at the port for flow control.
pub proof fn channel_services_are_described(info: DeviceInfo, limits: FlowLimits, index: int)
    requires
        0 <= index < info.tx_channels@.len(),
    ensures
        ({
            let s = mdns_server::channel_services(info, limits, index);
            let factory = info.tx_channels@[index].factory_name@;
            let friendly = info.tx_channels@[index].friendly_name@;
            &&& s.len() == if factory == friendly {
                1int
            } else {
                2
            }
            &&& reached_at(
                s[0],
                info,
                "_netaudio-chan"@,
                factory + "@"@ + info.friendly_hostname@,
                info.flows_control_port,
            )
            &&& s[0].ttl is None
            &&& s[0].txt.len() == 12
            &&& tells_channel(s[0].txt, info, limits, index)
            &&& s[0].txt[11] == "default"@
            &&& factory != friendly ==> {
                &&& reached_at(
                    s[1],
                    info,
                    "_netaudio-chan"@,
                    friendly + "@"@ + info.friendly_hostname@,
                    info.flows_control_port,
                )
                &&& s[1].ttl is None
                &&& s[1].txt.len() == 11
                &&& tells_channel(s[1].txt, info, limits, index)
            }
        }),
{
    reveal_strlit("@");
    assert("@"@ =~= seq!['@']);
    lemma_channel_txt(info, limits, index);
    let txt = mdns_server::channel_txt(info, limits, index);
    let marked = txt.push("default"@);
    assert(forall|i: int| 0 <= i < 11 ==> #[trigger] marked[i] == txt[i]);
}

/// The names under which a channel is withdrawn.
pub proof fn channel_service_names_are_its_names(info: DeviceInfo, index: int)
    requires
        0 <= index < info.tx_channels@.len(),
    ensures
        ({
            let n = mdns_server::channel_service_names(info, index);
            let factory = info.tx_channels@[index].factory_name@;
            let friendly = info.tx_channels@[index].friendly_name@;
            &&& n.len() == if factory == friendly {
                1int
            } else {
                2
            }
            &&& n[0] == factory + "@"@ + info.friendly_hostname@
            &&& factory != friendly ==> n[1] == friendly + "@"@ + info.friendly_hostname@
        }),
{
    reveal_strlit("@");
    assert("@"@ =~= seq!['@']);
}

/// A renamed channel has its new name and the one it was made with; no other channel changes.
pub proof fn one_channel_is_renamed(
    channels: Seq<Names>,
    index: int,
    name: Seq<char>,
    i: int,
)
    requires
        0 <= index < channels.len(),
        0 <= i < channels.len(),
    ensures
        ({
            let after = state_storage::renamed(channels, index, name);
            &&& after.len() == channels.len()
            &&& after[i].factory == channels[i].factory
            &&& after[i].friendly == if i == index {
                name
            } else {
                channels[i].friendly
            }
        }),
{
}

/// The new name of a channel is kept with the number of the channel, counted from one; what is kept
/// of other channels does not change.
pub proof fn one_name_is_kept(saved: Seq<Setting>, index: int, name: Seq<char>, i: int)
    requires
        0 <= index < saved.len(),
        0 <= i < saved.len(),
    ensures
        ({
            let after = state_storage::resaved(saved, index, name);
            &&& after.len() == saved.len()
            &&& i != index ==> after[i] == saved[i]
            &&& i == index ==> after[i].id == i + 1 && after[i].friendly_name == name
        }),
{
}

/// A channel is given the name that was kept in its place if that name is not empty and was kept
/// under the number of the channel; otherwise its name stays.
pub proof fn kept_names_are_given_by_number(saved: Seq<Setting>, channels: Seq<Names>, i: int)
    requires
        0 <= i < channels.len(),
    ensures
        ({
            let after = state_storage::loaded(saved, channels);
            &&& after.len() == channels.len()
            &&& after[i].factory == channels[i].factory
            &&& after[i].friendly == if i < saved.len() && saved[i].id == i + 1
                && saved[i].friendly_name != Seq::<char>::empty() {
                saved[i].friendly_name
            } else {
                channels[i].friendly
            }
        }),
{
    if i < saved.len() {
        assert(saved[i].friendly_name =~= Seq::<char>::empty() <==> saved[i].friendly_name.len()
            == 0);
    }
}

/// What was kept stays when room is made, and the room holds no names.
pub proof fn room_is_made_behind_what_was_kept(saved: Seq<Setting>, n: nat, i: int)
    ensures
        ({
            let after = state_storage::grown(saved, n);
            &&& after.len() >= n
            &&& after.len() >= saved.len()
            &&& after.len() == n || after.len() == saved.len()
            &&& 0 <= i < saved.len() ==> after[i] == saved[i]
            &&& saved.len() <= i < after.len() ==> after[i].id == 0 && after[i].friendly_name.len()
                == 0
        }),
{
}

/// The names of channels, and what is kept of them, are what their fields say, in order.
pub proof fn names_are_those_of_the_channels(
    channels: Seq<Channel>,
    saved: Seq<ChannelSettings>,
    i: int,
)
    ensures
        state_storage::names(channels).len() == channels.len(),
        0 <= i < channels.len() ==> state_storage::names(channels)[i].factory
            == channels[i].factory_name@ && state_storage::names(channels)[i].friendly
            == channels[i].friendly_name@,
        state_storage::settings(saved).len() == saved.len(),
        0 <= i < saved.len() ==> state_storage::settings(saved)[i].id == saved[i].id
            && state_storage::settings(saved)[i].friendly_name == saved[i].friendly_name@,
{
}

/// A file that could not be read counts as one without names.
pub proof fn unread_file_counts_as_empty(saved: SavedChannels)
    ensures
        state_storage::kept(None).len() == 0,
        state_storage::kept(Some(saved)) == state_storage::settings(saved.channels@),
{
}

/// Each device keeps its state in a directory of its own: devices with different identities have
/// different directories.
#[verifier::rlimit(40)]
#[verifier::spinoff_prover]
pub proof fn devices_have_their_own_directories(
    state_dir: Seq<char>,
    separator: Seq<char>,
    a: DeviceInfo,
    b: DeviceInfo,
)
    ensures
        state_storage::directory(state_dir, separator, a) == state_dir + separator
            + hex_text::hex_chars(a.factory_device_id@),
        a.factory_device_id@ != b.factory_device_id@ ==> state_storage::directory(
            state_dir,
            separator,
            a,
        ) != state_storage::directory(state_dir, separator, b),
{
    let front = state_dir + separator;
    let x = hex_text::hex_chars(a.factory_device_id@);
    let y = hex_text::hex_chars(b.factory_device_id@);
    if state_storage::directory(state_dir, separator, a) == state_storage::directory(
        state_dir,
        separator,
        b,
    ) {
        crate::laws::clocks::hexadecimal_text_is_read_back(a.factory_device_id@);
        crate::laws::clocks::hexadecimal_text_is_read_back(b.factory_device_id@);
        assert forall|i: int| 0 <= i < 16 implies x[i] == y[i] by {
            assert((front + x)[front.len() + i] == (front + y)[front.len() + i]);
        }
        assert forall|i: int| 0 <= i < 8 implies a.factory_device_id@[i]
            == b.factory_device_id@[i] by {
            assert(x[2 * i] == y[2 * i]);
            assert(x[2 * i + 1] == y[2 * i + 1]);
        }
        assert(a.factory_device_id@ =~= b.factory_device_id@);
    }
}

/// A file is found behind the prefix of the storage, and files of different names do not meet.
pub proof fn files_do_not_meet(storage: StateStorage, a: Seq<char>, b: Seq<char>)
    ensures
        storage.path(a) == storage.path_prefix@ + a + ".toml"@,
        a != b ==> storage.path(a) != storage.path(b),
        storage.path("tmp."@ + a) != storage.path(a),
{
    lemma_paths(storage, a, b);
    lemma_paths(storage, "tmp."@ + a, a);
    reveal_strlit("tmp.");
    assert(("tmp."@ + a).len() == a.len() + 4);
}

#[verifier::rlimit(40)]
#[verifier::spinoff_prover]
proof fn lemma_paths(storage: StateStorage, a: Seq<char>, b: Seq<char>)
    ensures
        a != b ==> storage.path(a) != storage.path(b),
{
    let p = storage.path_prefix@;
    let x = storage.path(a);
    let y = storage.path(b);
    let end = ".toml"@;
    assert(x.len() == p.len() + a.len() + end.len());
    assert(y.len() == p.len() + b.len() + end.len());
    if x == y {
        assert forall|i: int| 0 <= i < a.len() implies a[i] == b[i] by {
            assert(x[p.len() + i] == a[i]);
            assert(y[p.len() + i] == b[i]);
        }
        assert(a =~= b);
    }
}

} // verus!
