//! The services that the device advertises by multicast DNS.
use vstd::prelude::*;

use crate::device_info::{DeviceInfo, FlowLimits};
use crate::hex_text;
use crate::text;
use crate::wire;

verus! {

/// A service to be advertised.
#[derive(Debug)]
pub struct ServiceDescription {
    /// The labels of the type of the service.
    pub service_type: Vec<String>,
    pub name: String,
    pub port: u16,
    pub ip_address: [u8; 4],
    pub txt: Vec<String>,
    /// For how many seconds the advertisement holds, where that is not left to the responder.
    pub ttl: Option<u32>,
}

/// What is told of a service.
pub struct Service {
    pub service_type: Seq<Seq<char>>,
    pub name: Seq<char>,
    pub port: u16,
    pub ip_address: Seq<u8>,
    pub txt: Seq<Seq<char>>,
    pub ttl: Option<u32>,
}

impl View for ServiceDescription {
    type V = Service;

    open spec fn view(&self) -> Service {
        Service {
            service_type: texts(self.service_type@),
            name: self.name@,
            port: self.port,
            ip_address: self.ip_address@,
            txt: texts(self.txt@),
            ttl: self.ttl,
        }
    }
}

/// What the strings say.
pub open spec fn texts(strings: Seq<String>) -> Seq<Seq<char>> {
    strings.map_values(|s: String| s@)
}

/// What is told of services.
pub open spec fn services(descriptions: Seq<ServiceDescription>) -> Seq<Service> {
    descriptions.map_values(|d: ServiceDescription| d@)
}

/// A key and its value.
pub open spec fn pair(key: Seq<char>, value: Seq<char>) -> Seq<char> {
    key + seq!['='] + value
}

/// A key and its value, as one text.
pub fn kv(key: &str, value: &str) -> (text: String)
    ensures
        text@ == pair(key@, value@),
{
    let text = text::joined(text::joined(key, "=").as_str(), value);
    proof {
        reveal_strlit("=");
        assert(text@ =~= pair(key@, value@));
    }
    text
}

/// A key and a number.
fn kv_number(key: &str, value: u64) -> (text: String)
    ensures
        text@ == pair(key@, text::decimal(value as nat)),
{
    kv(key, text::decimal_text(value).as_str())
}

/// Adds a text to a list.
fn push_text(list: &mut Vec<String>, text: String)
    ensures
        texts(final(list)@) == texts(old(list)@).push(text@),
{
    list.push(text);
    assert(texts(list@) =~= texts(old(list)@).push(text@));
}

/// The labels of the type of a service that runs over UDP in the local network.
pub open spec fn service_labels(st: Seq<char>) -> Seq<Seq<char>> {
    seq![st, "_udp"@, "local"@]
}

/// The labels of the type of a service that runs over UDP in the local network.
pub fn service_type(st: &str) -> (labels: Vec<String>)
    ensures
        texts(labels@) == service_labels(st@),
{
    let mut labels: Vec<String> = Vec::new();
    push_text(&mut labels, st.to_owned());
    push_text(&mut labels, "_udp".to_owned());
    push_text(&mut labels, "local".to_owned());
    assert(texts(labels@) =~= service_labels(st@));
    labels
}

/// What is told of the service for audio routing control.
pub open spec fn arc_service(info: DeviceInfo) -> Service {
    Service {
        service_type: service_labels("_netaudio-arc"@),
        name: info.friendly_hostname@,
        port: info.arc_port,
        ip_address: info.ip_address@,
        txt: seq![
            "arcp_vers=2.7.41"@,
            "arcp_min=0.2.4"@,
            "router_vers=4.0.2"@,
            pair("router_info"@, info.board_name@),
            pair("mf"@, info.manufacturer@),
            pair("model"@, info.model_number@),
        ],
        ttl: Some(4500u32),
    }
}

/// What is told of the service for control and monitoring.
pub open spec fn cmc_service(info: DeviceInfo) -> Service {
    Service {
        service_type: service_labels("_netaudio-cmc"@),
        name: info.friendly_hostname@,
        port: info.cmc_port,
        ip_address: info.ip_address@,
        txt: seq![
            pair("id"@, hex_text::hex_chars(info.factory_device_id@)),
            pair("process"@, text::decimal(info.process_id as nat)),
            "cmcp_vers=1.2.0"@,
            "cmcp_min=1.0.0"@,
            "server_vers=4.0.2"@,
            "channels=0x6000004d"@,
            pair("mf"@, info.manufacturer@),
            pair("model"@, info.model_number@),
            ""@,
            ""@,
        ],
        ttl: None,
    }
}

/// Describes the service for audio routing control.
fn describe_arc(info: &DeviceInfo) -> (d: ServiceDescription)
    ensures
        d@ == arc_service(*info),
{
    let mut txt: Vec<String> = Vec::new();
    push_text(&mut txt, "arcp_vers=2.7.41".to_owned());
    push_text(&mut txt, "arcp_min=0.2.4".to_owned());
    push_text(&mut txt, "router_vers=4.0.2".to_owned());
    push_text(&mut txt, kv("router_info", info.board_name.as_str()));
    push_text(&mut txt, kv("mf", info.manufacturer.as_str()));
    push_text(&mut txt, kv("model", info.model_number.as_str()));
    let d = ServiceDescription {
        service_type: service_type("_netaudio-arc"),
        name: info.friendly_hostname.clone(),
        port: info.arc_port,
        ip_address: info.ip_address,
        txt,
        ttl: Some(4500),
    };
    assert(texts(d.txt@) =~= arc_service(*info).txt);
    d
}

/// Describes the service for control and monitoring.
fn describe_cmc(info: &DeviceInfo) -> (d: ServiceDescription)
    ensures
        d@ == cmc_service(*info),
{
    let id = hex_text::hex_encode(info.factory_device_id.as_slice());
    let mut txt: Vec<String> = Vec::new();
    push_text(&mut txt, kv("id", id.as_str()));
    push_text(&mut txt, kv_number("process", info.process_id as u64));
    push_text(&mut txt, "cmcp_vers=1.2.0".to_owned());
    push_text(&mut txt, "cmcp_min=1.0.0".to_owned());
    push_text(&mut txt, "server_vers=4.0.2".to_owned());
    push_text(&mut txt, "channels=0x6000004d".to_owned());
    push_text(&mut txt, kv("mf", info.manufacturer.as_str()));
    push_text(&mut txt, kv("model", info.model_number.as_str()));
    push_text(&mut txt, "".to_owned());
    push_text(&mut txt, "".to_owned());
    let d = ServiceDescription {
        service_type: service_type("_netaudio-cmc"),
        name: info.friendly_hostname.clone(),
        port: info.cmc_port,
        ip_address: info.ip_address,
        txt,
        ttl: None,
    };
    assert(texts(d.txt@) =~= cmc_service(*info).txt);
    d
}

/// Describes the services that the device advertises from its start on.
pub fn device_services(info: &DeviceInfo) -> (out: Vec<ServiceDescription>)
    ensures
        services(out@) == seq![arc_service(*info), cmc_service(*info)],
{
    let mut out: Vec<ServiceDescription> = Vec::new();
    out.push(describe_arc(info));
    out.push(describe_cmc(info));
    assert(services(out@) =~= seq![arc_service(*info), cmc_service(*info)]);
    out
}

/// The labels of the type of the services that advertise channels.
pub fn channel_service_type() -> (labels: Vec<String>)
    ensures
        texts(labels@) == service_labels("_netaudio-chan"@),
{
    service_type("_netaudio-chan")
}

/// The name under which a channel is advertised.
pub open spec fn channel_service_name(info: DeviceInfo, channel: Seq<char>) -> Seq<char> {
    channel + seq!['@'] + info.friendly_hostname@
}

/// How many channels a flow of the device may have.
pub open spec fn channels_in_flow(info: DeviceInfo, limits: FlowLimits) -> u16 {
    if limits.max_channels_in_flow < wire::low16(info.tx_channels@.len() as int) {
        limits.max_channels_in_flow
    } else {
        wire::low16(info.tx_channels@.len() as int)
    }
}

/// What is told of every advertised channel.
pub open spec fn channel_txt(info: DeviceInfo, limits: FlowLimits, index: int) -> Seq<Seq<char>> {
    let bits = text::decimal(info.bits_per_sample as nat);
    seq![
        "txtvers=2"@,
        "dbcp1=0x1102"@,
        "dbcp=0x1004"@,
        pair("id"@, text::decimal((index + 1) as nat)),
        pair("rate"@, text::decimal(info.sample_rate as nat)),
        pair(
            "pcm"@,
            text::decimal((info.bits_per_sample / 8) as nat) + seq![' '] + text::in_base(
                info.pcm_type as nat,
                16,
            ),
        ),
        pair("enc"@, bits),
        pair("en"@, bits),
        pair("latency_ns"@, text::decimal(info.latency_ns as nat)),
        pair(
            "fpp"@,
            text::decimal(limits.fpp_max_advertised as nat) + seq![','] + text::decimal(
                limits.fpp_min as nat,
            ),
        ),
        pair("nchan"@, text::decimal(channels_in_flow(info, limits) as nat)),
    ]
}

/// What is told of a channel that is advertised under a name. The one it was made with is marked
/// as the default.
pub open spec fn channel_service(
    info: DeviceInfo,
    limits: FlowLimits,
    index: int,
    channel: Seq<char>,
    default: bool,
) -> Service {
    Service {
        service_type: service_labels("_netaudio-chan"@),
        name: channel_service_name(info, channel),
        port: info.flows_control_port,
        ip_address: info.ip_address@,
        txt: if default {
            channel_txt(info, limits, index).push("default"@)
        } else {
            channel_txt(info, limits, index)
        },
        ttl: None,
    }
}

/// The services that advertise a channel: one under the name it was made with, and one under the
/// name that its user gave it, if that is another.
pub open spec fn channel_services(info: DeviceInfo, limits: FlowLimits, index: int) -> Seq<
    Service,
> {
    let channel = info.tx_channels@[index];
    let own = channel_service(info, limits, index, channel.factory_name@, true);
    if channel.factory_name@ == channel.friendly_name@ {
        seq![own]
    } else {
        seq![own, channel_service(info, limits, index, channel.friendly_name@, false)]
    }
}

/// The names under which a channel is advertised.
pub open spec fn channel_service_names(info: DeviceInfo, index: int) -> Seq<Seq<char>> {
    let channel = info.tx_channels@[index];
    let own = channel_service_name(info, channel.factory_name@);
    if channel.factory_name@ == channel.friendly_name@ {
        seq![own]
    } else {
        seq![own, channel_service_name(info, channel.friendly_name@)]
    }
}

/// The name under which a channel is advertised.
fn make_channel_service_name(info: &DeviceInfo, channel: &str) -> (name: String)
    ensures
        name@ == channel_service_name(*info, channel@),
{
    let name = text::joined(text::joined(channel, "@").as_str(), info.friendly_hostname.as_str());
    proof {
        reveal_strlit("@");
        assert(name@ =~= channel_service_name(*info, channel@));
    }
    name
}

/// Lists what is told of every advertised channel.
fn make_channel_txt(info: &DeviceInfo, limits: &FlowLimits, index: usize) -> (txt: Vec<String>)
    requires
        index < info.tx_channels@.len(),
    ensures
        texts(txt@) == channel_txt(*info, *limits, index as int),
{
    let len: usize = info.tx_channels.len();
    assert(index < len);
    let channels: u16 = (len % 0x10000) as u16;
    let nchan: u16 = if limits.max_channels_in_flow < channels {
        limits.max_channels_in_flow
    } else {
        channels
    };
    let bits: u64 = info.bits_per_sample as u64;
    let bytes_text = text::decimal_text((info.bits_per_sample / 8) as u64);
    let type_text = text::number_text(info.pcm_type as u64, 16);
    let pcm = text::joined(text::joined(bytes_text.as_str(), " ").as_str(), type_text.as_str());
    let max_text = text::decimal_text(limits.fpp_max_advertised as u64);
    let min_text = text::decimal_text(limits.fpp_min as u64);
    let fpp = text::joined(text::joined(max_text.as_str(), ",").as_str(), min_text.as_str());
    proof {
        reveal_strlit(" ");
        reveal_strlit(",");
        assert(" "@ =~= seq![' ']);
        assert(","@ =~= seq![',']);
    }
    let mut txt: Vec<String> = Vec::new();
    push_text(&mut txt, "txtvers=2".to_owned());
    push_text(&mut txt, "dbcp1=0x1102".to_owned());
    push_text(&mut txt, "dbcp=0x1004".to_owned());
    push_text(&mut txt, kv_number("id", index as u64 + 1));
    push_text(&mut txt, kv_number("rate", info.sample_rate as u64));
    push_text(&mut txt, kv("pcm", pcm.as_str()));
    push_text(&mut txt, kv_number("enc", bits));
    push_text(&mut txt, kv_number("en", bits));
    push_text(&mut txt, kv_number("latency_ns", info.latency_ns));
    push_text(&mut txt, kv("fpp", fpp.as_str()));
    push_text(&mut txt, kv_number("nchan", nchan as u64));
    assert(texts(txt@) =~= channel_txt(*info, *limits, index as int));
    txt
}

/// Describes the service that advertises a channel under a name.
fn describe_channel(
    info: &DeviceInfo,
    limits: &FlowLimits,
    index: usize,
    channel: &str,
    default: bool,
) -> (d: ServiceDescription)
    requires
        index < info.tx_channels@.len(),
    ensures
        d@ == channel_service(*info, *limits, index as int, channel@, default),
{
    let mut txt = make_channel_txt(info, limits, index);
    if default {
        push_text(&mut txt, "default".to_owned());
    }
    ServiceDescription {
        service_type: channel_service_type(),
        name: make_channel_service_name(info, channel),
        port: info.flows_control_port,
        ip_address: info.ip_address,
        txt,
        ttl: None,
    }
}

/// Describes the services that advertise a channel.
pub fn add_tx_channel(info: &DeviceInfo, limits: &FlowLimits, index: usize) -> (out: Vec<
    ServiceDescription,
>)
    requires
        index < info.tx_channels@.len(),
    ensures
        services(out@) == channel_services(*info, *limits, index as int),
{
    let txch = &info.tx_channels[index];
    let mut out: Vec<ServiceDescription> = Vec::new();
    out.push(describe_channel(info, limits, index, txch.factory_name.as_str(), true));
    if txch.factory_name != txch.friendly_name {
        out.push(describe_channel(info, limits, index, txch.friendly_name.as_str(), false));
    }
    assert(services(out@) =~= channel_services(*info, *limits, index as int));
    out
}

/// Lists the names under which a channel is advertised, for its services to be withdrawn. Their
/// type is what `channel_service_type` gives.
pub fn remove_tx_channel(info: &DeviceInfo, index: usize) -> (out: Vec<String>)
    requires
        index < info.tx_channels@.len(),
    ensures
        texts(out@) == channel_service_names(*info, index as int),
{
    let txch = &info.tx_channels[index];
    let mut out: Vec<String> = Vec::new();
    push_text(&mut out, make_channel_service_name(info, txch.factory_name.as_str()));
    if txch.factory_name != txch.friendly_name {
        push_text(&mut out, make_channel_service_name(info, txch.friendly_name.as_str()));
    }
    assert(texts(out@) =~= channel_service_names(*info, index as int));
    out
}

/// A channel is withdrawn under exactly the names under which it was advertised, and all its
/// services are of the one type under which they are withdrawn.
pub proof fn what_is_advertised_can_be_withdrawn(info: DeviceInfo, limits: FlowLimits, index: int)
    ensures
        channel_services(info, limits, index).len() == channel_service_names(info, index).len(),
        forall|i: int|
            0 <= i < channel_services(info, limits, index).len() ==> {
                let service = #[trigger] channel_services(info, limits, index)[i];
                &&& service.name == channel_service_names(info, index)[i]
                &&& service.service_type == service_labels("_netaudio-chan"@)
            },
{
}

/// A channel is found under the name that its user gave it and under the one it was made with, and
/// only the latter is marked as the default.
pub proof fn channel_is_advertised_under_its_names(info: DeviceInfo, limits: FlowLimits, index: int)
    ensures
        channel_service_names(info, index).contains(
            channel_service_name(info, info.tx_channels@[index].factory_name@),
        ),
        channel_service_names(info, index).contains(
            channel_service_name(info, info.tx_channels@[index].friendly_name@),
        ),
        channel_services(info, limits, index)[0].txt == channel_txt(info, limits, index).push(
            "default"@,
        ),
        channel_services(info, limits, index).len() > 1 ==> channel_services(
            info,
            limits,
            index,
        )[1].txt == channel_txt(info, limits, index),
{
    let names = channel_service_names(info, index);
    assert(names[0] == channel_service_name(info, info.tx_channels@[index].factory_name@));
    if names.len() > 1 {
        assert(names[1] == channel_service_name(info, info.tx_channels@[index].friendly_name@));
    }
}

} // verus!
