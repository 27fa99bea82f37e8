use inferno_aoip::device_info::{Channel, DeviceInfo, FlowLimits};
use inferno_aoip::device_server::lifecycle::{Lifecycle, StopStep};
use inferno_aoip::device_server::tx_multicasts::{
    Activation, Bundle, Bundles, Event, MulticastDestination, Phase, SavedBundle, SavedFlows,
    SavedPlace, Todo, TransmitMulticasts,
};

fn channel(factory: &str, friendly: &str) -> Channel {
    Channel { factory_name: factory.to_string(), friendly_name: friendly.to_string() }
}

fn device() -> DeviceInfo {
    DeviceInfo {
        ip_address: [192, 168, 1, 20],
        netmask: [255, 255, 255, 0],
        gateway: [192, 168, 1, 1],
        mac_address: [0x00, 0x1d, 0xc1, 0xaa, 0xbb, 0xcc],
        friendly_hostname: "studio".to_string(),
        factory_hostname: "inferno-1".to_string(),
        board_name: "Inferno".to_string(),
        manufacturer: "Acme".to_string(),
        model_name: "Model".to_string(),
        model_number: "M1".to_string(),
        vendor_string: "Audinate Dante".to_string(),
        factory_device_id: [0, 1, 2, 3, 0xfc, 0xfd, 0xfe, 0xff],
        process_id: 7,
        sample_rate: 48000,
        bits_per_sample: 24,
        pcm_type: 0x0e,
        latency_ns: 10_000_000,
        arc_port: 4440,
        cmc_port: 8800,
        flows_control_port: 4455,
        info_request_port: 8700,
        rx_channels: vec![channel("RX 1", "Left"), channel("RX 2", "RX 2")],
        tx_channels: vec![channel("TX 1", "Mic"), channel("TX 2", "TX 2")],
    }
}

fn limits() -> FlowLimits {
    FlowLimits {
        max_tx_flows: 32,
        max_rx_flows: 128,
        fpp_min: 2,
        fpp_max_advertised: 32,
        max_channels_in_flow: 8,
    }
}

fn destination(last: u8) -> MulticastDestination {
    MulticastDestination { addr: [239, 255, 0, last], port: 4321 }
}

fn slots(multicasts: &TransmitMulticasts) -> Vec<Option<Vec<Option<usize>>>> {
    multicasts
        .bundles
        .bundles
        .iter()
        .map(|b| b.as_ref().map(|b| b.local_channel_indices.clone()))
        .collect()
}

#[test]
fn slots_are_empty_at_first() {
    let multicasts = TransmitMulticasts::new(None, 3);
    assert_eq!(slots(&multicasts), vec![None, None, None]);
    assert!(multicasts.should_work);
}

#[test]
fn kept_slots_are_taken_up() {
    let kept = || Bundles {
        bundles: vec![None, Some(Bundle { local_channel_indices: vec![Some(1), None] })],
    };
    let multicasts = TransmitMulticasts::new(Some(kept()), 3);
    assert_eq!(slots(&multicasts), vec![None, Some(vec![Some(1), None]), None]);
    let multicasts = TransmitMulticasts::new(Some(kept()), 1);
    assert_eq!(slots(&multicasts), vec![None, Some(vec![Some(1), None])]);
}

#[test]
fn flow_is_added_and_removed() {
    let mut multicasts = TransmitMulticasts::new(None, 2);
    let (flow, check) =
        multicasts.add_flow(&device(), &limits(), 1, vec![Some(0), None], Some(destination(9)));
    let flow = flow.unwrap();
    assert!(check);
    assert_eq!(flow.destination, destination(9));
    assert_eq!(flow.local_channel_indices, vec![Some(0), None]);
    assert_eq!(flow.fpp, 32);
    assert_eq!(flow.bytes_per_sample, 3);
    assert_eq!(flow.flow_index, 1);
    assert_eq!(slots(&multicasts), vec![None, Some(vec![Some(0), None])]);
    multicasts.remove_flow(1);
    assert_eq!(slots(&multicasts), vec![None, None]);
}

#[test]
fn flow_without_a_transmitter_is_only_kept() {
    let mut multicasts = TransmitMulticasts::new(None, 1);
    let (flow, check) = multicasts.add_flow(&device(), &limits(), 0, vec![], None);
    assert!(flow.is_none());
    assert!(!check);
    assert_eq!(slots(&multicasts), vec![Some(vec![])]);
}

#[test]
fn no_address_is_not_checked() {
    let mut multicasts = TransmitMulticasts::new(None, 1);
    let nowhere = MulticastDestination { addr: [0, 0, 0, 0], port: 1 };
    let (flow, check) = multicasts.add_flow(&device(), &limits(), 0, vec![], Some(nowhere));
    assert!(flow.is_some());
    assert!(!check);
}

#[test]
fn shutdown_is_remembered() {
    let mut multicasts = TransmitMulticasts::new(None, 1);
    multicasts.shutdown();
    assert!(!multicasts.should_work);
    assert_eq!(slots(&multicasts), vec![None]);
}

fn ready() -> Event {
    Event::TransmitterState { present: true, should_work: true }
}

#[test]
fn free_address_is_activated() {
    let (mut check, todo) = Activation::start(4, vec![Some(0)], destination(1));
    assert!(matches!(todo, Todo::Ask(d) if d == destination(1)));
    let todo = check.next(&device(), &limits(), Event::InUse(Some(false)));
    assert!(matches!(todo, Todo::ReserveAndAsk(d) if d == destination(1)));
    let todo = check.next(&device(), &limits(), Event::InUse(Some(false)));
    assert!(matches!(todo, Todo::LookAtTransmitter));
    let todo = check.next(&device(), &limits(), ready());
    assert!(matches!(todo, Todo::Activate(4)));
    assert_eq!(check.phase, Phase::Done);
}

#[test]
fn used_address_is_replaced() {
    let (mut check, _) = Activation::start(4, vec![Some(0), None], destination(1));
    check.next(&device(), &limits(), Event::InUse(Some(false)));
    check.next(&device(), &limits(), Event::InUse(Some(true)));
    let todo = check.next(&device(), &limits(), ready());
    assert!(matches!(todo, Todo::Replace(4)));
    let todo = check.next(&device(), &limits(), Event::NewDestination(destination(2)));
    match todo {
        Todo::AddAndAsk(flow) => {
            assert_eq!(flow.destination, destination(2));
            assert_eq!(flow.local_channel_indices, vec![Some(0), None]);
            assert_eq!(flow.fpp, 32);
            assert_eq!(flow.bytes_per_sample, 3);
            assert_eq!(flow.flow_index, 4);
        }
        other => panic!("no new flow: {other:?}"),
    }
    assert_eq!(check.phase, Phase::FirstAnswer);
    assert_eq!(check.destination, destination(2));
}

#[test]
fn unknown_counts_as_used() {
    let (mut check, _) = Activation::start(0, vec![], destination(1));
    let todo = check.next(&device(), &limits(), Event::InUse(None));
    assert!(matches!(todo, Todo::LookAtTransmitter));
    assert_eq!(check.phase, Phase::Transmitter { free: false });
    let todo = check.next(&device(), &limits(), ready());
    assert!(matches!(todo, Todo::Replace(0)));
}

#[test]
fn check_gives_up_without_a_transmitter() {
    for (present, should_work) in [(false, true), (true, false), (false, false)] {
        for answer in [Some(true), Some(false)] {
            let (mut check, _) = Activation::start(0, vec![], destination(1));
            check.next(&device(), &limits(), Event::InUse(Some(false)));
            check.next(&device(), &limits(), Event::InUse(answer));
            let event = Event::TransmitterState { present, should_work };
            assert!(matches!(check.next(&device(), &limits(), event), Todo::Stop));
            assert_eq!(check.phase, Phase::Done);
        }
    }
}

#[test]
fn parts_are_stopped_in_order() {
    let mut parts = Lifecycle::start();
    assert_eq!(parts.shutdown(), vec![StopStep::StopServers, StopStep::StopClock]);
    parts.transmit();
    parts.receive();
    assert_eq!(
        parts.shutdown(),
        vec![
            StopStep::StopReceiver,
            StopStep::StopTransmitter,
            StopStep::StopServers,
            StopStep::StopClock
        ]
    );
    assert_eq!(parts.stop_receiver(), vec![StopStep::DetachReceiver, StopStep::StopReceiver]);
    assert_eq!(
        parts.shutdown(),
        vec![StopStep::StopTransmitter, StopStep::StopServers, StopStep::StopClock]
    );
    assert_eq!(parts.stop_transmitter(), vec![StopStep::StopTransmitter]);
    assert_eq!(parts, Lifecycle::start());
}

#[test]
fn flows_survive_a_restart() {
    let mut multicasts = TransmitMulticasts::new(None, 3);
    multicasts.add_flow(&device(), &limits(), 1, vec![Some(4), None, Some(0)], None);
    let kept = multicasts.bundles.to_saved();
    let saved = match &kept {
        SavedFlows::Marked(saved) => saved,
        other => panic!("nothing is marked as absent: {other:?}"),
    };
    let used: Vec<bool> = saved.slots.iter().map(|s| s.used).collect();
    assert_eq!(used, vec![false, true, false]);
    assert!(saved.slots[0].places.is_empty());
    assert_eq!(
        saved.slots[1].places,
        vec![
            SavedPlace { used: true, channel: 4 },
            SavedPlace { used: false, channel: 0 },
            SavedPlace { used: true, channel: 0 },
        ]
    );
    let restarted = TransmitMulticasts::new(Some(Bundles::from_saved(&kept)), 3);
    assert_eq!(slots(&restarted), slots(&multicasts));
}

#[test]
fn flows_without_gaps_are_kept_as_plain_lists() {
    let mut multicasts = TransmitMulticasts::new(None, 2);
    multicasts.add_flow(&device(), &limits(), 0, vec![Some(4), Some(0)], None);
    multicasts.add_flow(&device(), &limits(), 1, vec![], None);
    let kept = multicasts.bundles.to_saved();
    match &kept {
        SavedFlows::Plain(bundles) => {
            assert_eq!(bundles.len(), 2);
            assert_eq!(bundles[0].local_channel_indices, vec![4, 0]);
            assert!(bundles[1].local_channel_indices.is_empty());
        }
        other => panic!("no plain lists: {other:?}"),
    }
    let restarted = TransmitMulticasts::new(Some(Bundles::from_saved(&kept)), 2);
    assert_eq!(slots(&restarted), slots(&multicasts));
}

#[test]
fn plain_lists_are_read() {
    let kept = SavedFlows::Plain(vec![SavedBundle { local_channel_indices: vec![2, 1] }]);
    let multicasts = TransmitMulticasts::new(Some(Bundles::from_saved(&kept)), 2);
    assert_eq!(slots(&multicasts), vec![Some(vec![Some(2), Some(1)]), None]);
}

#[test]
fn an_unused_place_or_slot_is_marked() {
    let bundle = |indices: Vec<Option<usize>>| Some(Bundle { local_channel_indices: indices });
    let with_place = Bundles { bundles: vec![bundle(vec![Some(1), None])] };
    assert!(matches!(with_place.to_saved(), SavedFlows::Marked(_)));
    let with_slot = Bundles { bundles: vec![bundle(vec![Some(1)]), None] };
    assert!(matches!(with_slot.to_saved(), SavedFlows::Marked(_)));
    let without = Bundles { bundles: Vec::new() };
    assert!(matches!(without.to_saved(), SavedFlows::Plain(_)));
}
