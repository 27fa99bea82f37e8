use inferno_aoip::arc_server::renames::rename_and_readvertise;
use inferno_aoip::arc_server::startup::load_and_advertise;
use inferno_aoip::device_info::{Channel, DeviceInfo, FlowLimits};
use inferno_aoip::mdns_server::{
    add_tx_channel, channel_service_type, device_services, kv, remove_tx_channel, service_type,
};
use inferno_aoip::state_storage::{ChannelSettings, SavedChannels, SavedChannelsSettings};

fn channel(factory: &str, friendly: &str) -> Channel {
    Channel { factory_name: factory.to_string(), friendly_name: friendly.to_string() }
}

fn device() -> DeviceInfo {
    DeviceInfo {
        ip_address: [192, 168, 1, 20],
        netmask: [255, 255, 255, 0],
        gateway: [192, 168, 1, 1],
        mac_address: [0x00, 0x1d, 0xc1, 0xaa, 0xbb, 0xcc],
        friendly_hostname: "studio".to_string(),
        factory_hostname: "inferno-1".to_string(),
        board_name: "Inferno".to_string(),
        manufacturer: "Acme".to_string(),
        model_name: "Model".to_string(),
        model_number: "M1".to_string(),
        vendor_string: "Audinate Dante".to_string(),
        factory_device_id: [0, 1, 2, 3, 0xfc, 0xfd, 0xfe, 0xff],
        process_id: 7,
        sample_rate: 48000,
        bits_per_sample: 24,
        pcm_type: 0x0e,
        latency_ns: 10_000_000,
        arc_port: 4440,
        cmc_port: 8800,
        flows_control_port: 4455,
        info_request_port: 8700,
        rx_channels: vec![channel("RX 1", "Left"), channel("RX 2", "RX 2")],
        tx_channels: vec![channel("TX 1", "Mic"), channel("TX 2", "TX 2")],
    }
}

fn limits() -> FlowLimits {
    FlowLimits {
        max_tx_flows: 32,
        max_rx_flows: 128,
        fpp_min: 2,
        fpp_max_advertised: 32,
        max_channels_in_flow: 8,
    }
}

#[test]
fn keys_and_values_are_joined() {
    assert_eq!(kv("mf", "Acme"), "mf=Acme");
    assert_eq!(kv("", ""), "=");
    assert_eq!(kv("a", "b=c"), "a=b=c");
}

#[test]
fn service_types_run_over_udp() {
    assert_eq!(service_type("_netaudio-arc"), vec!["_netaudio-arc", "_udp", "local"]);
}

#[test]
fn device_is_advertised() {
    let services = device_services(&device());
    assert_eq!(services.len(), 2);
    assert_eq!(services[0].service_type[0], "_netaudio-arc");
    assert_eq!(services[0].name, "studio");
    assert_eq!(services[0].port, 4440);
    assert_eq!(services[0].ip_address, [192, 168, 1, 20]);
    assert_eq!(services[0].ttl, Some(4500));
    assert_eq!(
        services[0].txt,
        vec![
            "arcp_vers=2.7.41",
            "arcp_min=0.2.4",
            "router_vers=4.0.2",
            "router_info=Inferno",
            "mf=Acme",
            "model=M1"
        ]
    );
    assert_eq!(services[1].service_type[0], "_netaudio-cmc");
    assert_eq!(services[1].port, 8800);
    assert_eq!(services[1].ttl, None);
    assert_eq!(
        services[1].txt,
        vec![
            "id=00010203fcfdfeff",
            "process=7",
            "cmcp_vers=1.2.0",
            "cmcp_min=1.0.0",
            "server_vers=4.0.2",
            "channels=0x6000004d",
            "mf=Acme",
            "model=M1",
            "",
            ""
        ]
    );
}

#[test]
fn renamed_channel_is_advertised_twice() {
    let services = add_tx_channel(&device(), &limits(), 0);
    assert_eq!(services.len(), 2);
    assert_eq!(services[0].name, "TX 1@studio");
    assert_eq!(services[1].name, "Mic@studio");
    assert_eq!(services[0].service_type, vec!["_netaudio-chan", "_udp", "local"]);
    assert_eq!(services[0].port, 4455);
    let mut txt = vec![
        "txtvers=2",
        "dbcp1=0x1102",
        "dbcp=0x1004",
        "id=1",
        "rate=48000",
        "pcm=3 e",
        "enc=24",
        "en=24",
        "latency_ns=10000000",
        "fpp=32,2",
        "nchan=2",
    ];
    assert_eq!(services[1].txt, txt);
    txt.push("default");
    assert_eq!(services[0].txt, txt);
}

#[test]
fn channel_with_its_first_name_is_advertised_once() {
    let services = add_tx_channel(&device(), &limits(), 1);
    assert_eq!(services.len(), 1);
    assert_eq!(services[0].name, "TX 2@studio");
    assert_eq!(services[0].txt[3], "id=2");
    assert_eq!(services[0].txt[11], "default");
}

#[test]
fn channels_in_a_flow_are_limited() {
    let mut info = device();
    info.tx_channels = (0..20).map(|_| channel("a", "a")).collect();
    assert_eq!(add_tx_channel(&info, &limits(), 19)[0].txt[10], "nchan=8");
}

#[test]
fn channel_is_withdrawn_under_the_names_it_was_advertised_under() {
    let info = device();
    assert_eq!(remove_tx_channel(&info, 0), vec!["TX 1@studio", "Mic@studio"]);
    assert_eq!(remove_tx_channel(&info, 1), vec!["TX 2@studio"]);
    for index in 0..2 {
        let added: Vec<String> =
            add_tx_channel(&info, &limits(), index).into_iter().map(|s| s.name).collect();
        assert_eq!(remove_tx_channel(&info, index), added);
        for service in add_tx_channel(&info, &limits(), index) {
            assert_eq!(service.service_type, channel_service_type());
        }
    }
}

#[test]
fn renaming_replaces_the_advertisements() {
    let mut info = device();
    let mut saved = SavedChannelsSettings::load(None, None, &mut info);
    let (withdrawn, advertised) =
        rename_and_readvertise(&mut saved, &mut info, &limits(), 0, "Vox".to_string());
    assert_eq!(withdrawn, vec!["TX 1@studio", "Mic@studio"]);
    let names: Vec<&str> = advertised.iter().map(|s| s.name.as_str()).collect();
    assert_eq!(names, vec!["TX 1@studio", "Vox@studio"]);
    assert_eq!(info.tx_channels[0].friendly_name, "Vox");
    assert_eq!(saved.tx_channels.channels[0].id, 1);
    assert_eq!(saved.tx_channels.channels[0].friendly_name, "Vox");
    let (withdrawn, advertised) =
        rename_and_readvertise(&mut saved, &mut info, &limits(), 0, "TX 1".to_string());
    assert_eq!(withdrawn, vec!["TX 1@studio", "Vox@studio"]);
    assert_eq!(advertised.len(), 1);
}

#[test]
fn channels_are_advertised_under_the_kept_names() {
    let mut info = device();
    let kept = SavedChannels {
        channels: vec![
            ChannelSettings { id: 0, friendly_name: String::new() },
            ChannelSettings { id: 2, friendly_name: "Drums".to_string() },
        ],
    };
    let (saved, services) = load_and_advertise(None, Some(kept), &mut info, &limits());
    let names: Vec<Vec<&str>> =
        services.iter().map(|c| c.iter().map(|s| s.name.as_str()).collect()).collect();
    assert_eq!(
        names,
        vec![vec!["TX 1@studio", "Mic@studio"], vec!["TX 2@studio", "Drums@studio"]]
    );
    assert_eq!(saved.tx_channels.channels.len(), 2);
    assert_eq!(saved.rx_channels.channels.len(), 2);
    assert_eq!(info.tx_channels[1].friendly_name, "Drums");
}
