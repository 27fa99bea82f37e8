use inferno_aoip::device_info::{Channel, DeviceInfo};
use inferno_aoip::state_storage::{
    state_directory, ChannelSettings, SavedChannels, SavedChannelsSettings, StateStorage,
};

fn channel(factory: &str, friendly: &str) -> Channel {
    Channel { factory_name: factory.to_string(), friendly_name: friendly.to_string() }
}

fn device() -> DeviceInfo {
    DeviceInfo {
        ip_address: [192, 168, 1, 20],
        netmask: [255, 255, 255, 0],
        gateway: [192, 168, 1, 1],
        mac_address: [0x00, 0x1d, 0xc1, 0xaa, 0xbb, 0xcc],
        friendly_hostname: "studio".to_string(),
        factory_hostname: "inferno-1".to_string(),
        board_name: "Inferno".to_string(),
        manufacturer: "Acme".to_string(),
        model_name: "Model".to_string(),
        model_number: "M1".to_string(),
        vendor_string: "Audinate Dante".to_string(),
        factory_device_id: [0, 1, 2, 3, 0xfc, 0xfd, 0xfe, 0xff],
        process_id: 7,
        sample_rate: 48000,
        bits_per_sample: 24,
        pcm_type: 0x0e,
        latency_ns: 10_000_000,
        arc_port: 4440,
        cmc_port: 8800,
        flows_control_port: 4455,
        info_request_port: 8700,
        rx_channels: vec![channel("RX 1", "Left"), channel("RX 2", "RX 2")],
        tx_channels: vec![channel("TX 1", "Mic"), channel("TX 2", "TX 2")],
    }
}

fn setting(id: usize, name: &str) -> ChannelSettings {
    ChannelSettings { id, friendly_name: name.to_string() }
}

fn friendly(channels: &[Channel]) -> Vec<&str> {
    channels.iter().map(|c| c.friendly_name.as_str()).collect()
}

fn kept(saved: &SavedChannels) -> Vec<(usize, &str)> {
    saved.channels.iter().map(|s| (s.id, s.friendly_name.as_str())).collect()
}

#[test]
fn files_lie_in_a_directory_of_the_device() {
    let info = device();
    assert_eq!(state_directory("/var/state", "/", &info), "/var/state/00010203fcfdfeff");
    let storage = StateStorage::new("/var/state", "/", &info);
    assert_eq!(storage.path_prefix, "/var/state/00010203fcfdfeff/");
    assert_eq!(
        storage.full_path("rx_channels"),
        "/var/state/00010203fcfdfeff/rx_channels.toml"
    );
    assert_eq!(
        storage.tmp_path("rx_channels"),
        "/var/state/00010203fcfdfeff/tmp.rx_channels.toml"
    );
}

#[test]
fn settings_start_empty() {
    let settings = ChannelSettings::default();
    assert_eq!(settings.id, 0);
    assert_eq!(settings.friendly_name, "");
}

#[test]
fn without_files_the_names_stay() {
    let mut info = device();
    let saved = SavedChannelsSettings::load(None, None, &mut info);
    assert_eq!(friendly(&info.rx_channels), vec!["Left", "RX 2"]);
    assert_eq!(friendly(&info.tx_channels), vec!["Mic", "TX 2"]);
    assert_eq!(kept(&saved.rx_channels), vec![(0, ""), (0, "")]);
    assert_eq!(kept(&saved.tx_channels), vec![(0, ""), (0, "")]);
}

#[test]
fn kept_names_are_loaded() {
    let mut info = device();
    let rx = SavedChannels { channels: vec![setting(1, "A"), setting(2, "B"), setting(3, "C")] };
    let tx = SavedChannels { channels: vec![setting(0, "ignored")] };
    let saved = SavedChannelsSettings::load(Some(rx), Some(tx), &mut info);
    assert_eq!(friendly(&info.rx_channels), vec!["A", "B"]);
    assert_eq!(friendly(&info.tx_channels), vec!["Mic", "TX 2"]);
    assert_eq!(kept(&saved.rx_channels), vec![(1, "A"), (2, "B"), (3, "C")]);
    assert_eq!(kept(&saved.tx_channels), vec![(0, "ignored"), (0, "")]);
    assert_eq!(info.rx_channels[0].factory_name, "RX 1");
}

#[test]
fn corrupted_and_empty_settings_are_skipped() {
    let mut info = device();
    let rx = SavedChannels { channels: vec![setting(2, "wrong place"), setting(2, "")] };
    SavedChannelsSettings::load(Some(rx), None, &mut info);
    assert_eq!(friendly(&info.rx_channels), vec!["Left", "RX 2"]);
}

#[test]
fn renaming_is_kept() {
    let mut info = device();
    let mut saved = SavedChannelsSettings::load(None, None, &mut info);
    saved.rename_tx_channel(&mut info, 1, "Drums".to_string());
    saved.rename_rx_channel(&mut info, 0, "Out".to_string());
    assert_eq!(friendly(&info.tx_channels), vec!["Mic", "Drums"]);
    assert_eq!(friendly(&info.rx_channels), vec!["Out", "RX 2"]);
    assert_eq!(kept(&saved.tx_channels), vec![(0, ""), (2, "Drums")]);
    assert_eq!(kept(&saved.rx_channels), vec![(1, "Out"), (0, "")]);
    assert_eq!(info.tx_channels[1].factory_name, "TX 2");
}

#[test]
fn renamed_channel_keeps_its_name_over_a_restart() {
    let mut info = device();
    let mut saved = SavedChannelsSettings::load(None, None, &mut info);
    saved.rename_tx_channel(&mut info, 1, "Drums".to_string());
    saved.rename_tx_channel(&mut info, 1, "Bass".to_string());
    let mut restarted = device();
    SavedChannelsSettings::load(
        Some(saved.rx_channels),
        Some(saved.tx_channels),
        &mut restarted,
    );
    assert_eq!(friendly(&restarted.tx_channels), friendly(&info.tx_channels));
    assert_eq!(friendly(&restarted.tx_channels), vec!["Mic", "Bass"]);
}

#[test]
fn empty_name_does_not_survive_a_restart() {
    let mut info = device();
    let mut saved = SavedChannelsSettings::load(None, None, &mut info);
    saved.rename_tx_channel(&mut info, 0, String::new());
    assert_eq!(info.tx_channels[0].friendly_name, "");
    let mut restarted = device();
    SavedChannelsSettings::load(None, Some(saved.tx_channels), &mut restarted);
    assert_eq!(restarted.tx_channels[0].friendly_name, "Mic");
}

#[test]
fn loading_twice_makes_no_difference() {
    let kept_names = || SavedChannels { channels: vec![setting(1, "A"), setting(7, "B")] };
    let mut once = device();
    let first = SavedChannelsSettings::load(Some(kept_names()), None, &mut once);
    let mut twice = device();
    SavedChannelsSettings::load(Some(kept_names()), None, &mut twice);
    let second = SavedChannelsSettings::load(Some(kept_names()), None, &mut twice);
    assert_eq!(friendly(&once.rx_channels), friendly(&twice.rx_channels));
    assert_eq!(kept(&first.rx_channels), kept(&second.rx_channels));
}
