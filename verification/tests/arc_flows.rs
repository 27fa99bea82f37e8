use inferno_aoip::arc_server::actions::Action;
use inferno_aoip::arc_server::dispatch::{can_serve, handle_request, ServerState};
use inferno_aoip::arc_server::rx_flows::query_rx_flows;
use inferno_aoip::arc_server::tx_flows::{are_tx_flows_encodable, query_tx_flows};
use inferno_aoip::device_info::{
    Channel, DeviceInfo, FlowLimits, RxFlowInfo, SubscriberState, TxFlowInfo,
};
use inferno_aoip::text::read_0term_str_from_buffer;

fn channel(factory: &str, friendly: &str) -> Channel {
    Channel { factory_name: factory.to_string(), friendly_name: friendly.to_string() }
}

fn device() -> DeviceInfo {
    DeviceInfo {
        ip_address: [192, 168, 1, 20],
        netmask: [255, 255, 255, 0],
        gateway: [192, 168, 1, 1],
        mac_address: [0x00, 0x1d, 0xc1, 0xaa, 0xbb, 0xcc],
        friendly_hostname: "studio".to_string(),
        factory_hostname: "inferno-1".to_string(),
        board_name: "Inferno".to_string(),
        manufacturer: "Acme".to_string(),
        model_name: "Model".to_string(),
        model_number: "M1".to_string(),
        vendor_string: "Audinate Dante".to_string(),
        factory_device_id: [0, 1, 2, 3, 0xfc, 0xfd, 0xfe, 0xff],
        process_id: 7,
        sample_rate: 48000,
        bits_per_sample: 24,
        pcm_type: 0x0e,
        latency_ns: 10_000_000,
        arc_port: 4440,
        cmc_port: 8800,
        flows_control_port: 4455,
        info_request_port: 8700,
        rx_channels: vec![channel("RX 1", "Left"), channel("RX 2", "RX 2")],
        tx_channels: vec![channel("TX 1", "Mic"), channel("TX 2", "TX 2")],
    }
}

fn limits() -> FlowLimits {
    FlowLimits {
        max_tx_flows: 32,
        max_rx_flows: 128,
        fpp_min: 2,
        fpp_max_advertised: 32,
        max_channels_in_flow: 8,
    }
}

fn be(bytes: &[u8], at: usize) -> usize {
    bytes[at] as usize * 256 + bytes[at + 1] as usize
}

fn text_at(payload: &[u8], offset: usize) -> String {
    read_0term_str_from_buffer(payload, offset - 10).unwrap()
}

fn tx_flow(hostname: &str, indices: Vec<Option<usize>>) -> TxFlowInfo {
    TxFlowInfo {
        rx_hostname: hostname.to_string(),
        rx_flow_name: "3_9".to_string(),
        rx_addr: [10, 0, 0, 5],
        rx_port: 0x1234,
        local_channel_indices: indices,
    }
}

fn rx_flow(latency_samples: usize, channels_map: Vec<Vec<bool>>) -> RxFlowInfo {
    RxFlowInfo { rx_port: 0x3801, latency_samples, channels_map }
}

#[test]
fn no_flows_give_an_empty_list() {
    let reply = query_tx_flows(&device(), &vec![None, None], 0);
    assert_eq!(reply.code, 1);
    assert_eq!(reply.payload, vec![0, 0]);
    let reply = query_rx_flows(&device(), &Vec::new(), 5);
    assert_eq!(reply.code, 1);
    assert_eq!(reply.payload, vec![0, 0]);
}

#[test]
fn transmitted_flow_is_described() {
    let flows = vec![Some(tx_flow("desk", vec![Some(0), None, Some(4)]))];
    let reply = query_tx_flows(&device(), &flows, 0);
    let p = reply.payload;
    assert_eq!(reply.code, 1);
    assert_eq!(&p[..2], &[1, 1]);
    let at = be(&p, 2) - 10;
    // slot, kind, sample rate, fixed, number of channels
    assert_eq!(&p[at..at + 4], &[0, 1, 0, 0x11]);
    assert_eq!(&p[at + 4..at + 8], &[0, 0, 0xbb, 0x80]);
    assert_eq!(&p[at + 8..at + 14], &[0, 0, 0, 0x18, 0, 1]);
    assert_eq!(&p[at + 14..at + 16], &[0, 3]);
    let destination = be(&p, at + 16);
    assert_eq!(&p[at + 18..at + 24], &[0, 1, 0, 0, 0, 5]);
    assert_eq!(be(&p, at + 24), destination - 10 + 8);
    assert_eq!(at + 26, p.len());
    assert_eq!(destination % 4, 0);
    let d = destination - 10;
    assert_eq!(&p[d..d + 8], &[0x08, 0x02, 0x12, 0x34, 10, 0, 0, 5]);
    assert_eq!(&p[d + 8..d + 12], &[0x0a, 0, 0, 1]);
    assert_eq!(text_at(&p, be(&p, d + 12)), "desk");
    assert_eq!(text_at(&p, be(&p, d + 14)), "3_9");
    assert_eq!(be(&p, d + 16), 0x10);
    assert_eq!(text_at(&p, be(&p, d + 18)), "1_7");
    assert_eq!(&p[d + 20..d + 28], &[0; 8]);
    assert_eq!(d + 28, at);
}

#[test]
fn empty_slots_take_room_but_no_description() {
    let flows = vec![None, Some(tx_flow("a", vec![])), Some(tx_flow("b", vec![]))];
    // Two flows are in use, so two slots are covered: the empty one and the first flow.
    let reply = query_tx_flows(&device(), &flows, 0);
    assert_eq!(reply.code, 1);
    assert_eq!(&reply.payload[..2], &[2, 2]);
    assert_eq!(&reply.payload[4..6], &[0, 0]);
    let at = be(&reply.payload, 2) - 10;
    assert_eq!(be(&reply.payload, at), 2);
    assert_eq!(text_at(&reply.payload, 10 + 6), "2_7");
}

#[test]
fn long_lists_promise_more() {
    let flows: Vec<_> = (0..14).map(|_| Some(tx_flow("x", vec![Some(1)]))).collect();
    let reply = query_tx_flows(&device(), &flows, 0);
    assert_eq!(reply.code, 0x8112);
    assert_eq!(&reply.payload[..2], &[12, 12]);
    for k in 0..12 {
        let at = be(&reply.payload, 2 + 2 * k) - 10;
        assert_eq!(be(&reply.payload, at), k + 1);
    }
    let reply = query_tx_flows(&device(), &flows, 12);
    assert_eq!(reply.code, 1);
    assert_eq!(&reply.payload[..2], &[2, 2]);
}

#[test]
fn channel_numbers_have_to_fit() {
    let flows = vec![Some(tx_flow("x", vec![Some(65535)]))];
    assert!(!are_tx_flows_encodable(&flows, 0));
    let flows = vec![Some(tx_flow("x", vec![Some(65534)]))];
    assert!(are_tx_flows_encodable(&flows, 0));
}

#[test]
fn received_flow_is_described() {
    let mut first = vec![false; 20];
    first[0] = true;
    first[3] = true;
    first[17] = true;
    let flows = vec![Some(rx_flow(480, vec![first, vec![]]))];
    let reply = query_rx_flows(&device(), &flows, 0);
    let p = reply.payload;
    assert_eq!(reply.code, 1);
    assert_eq!(
        p,
        vec![
            1, 1, 0, 0x30, 0, 0, // one flow, its position, two bytes to a multiple of four
            0x08, 0x02, 0x38, 0x01, 192, 168, 1, 20, // where it is received
            0, 9, 0, 1, 8, 0, 0, 0, 0x00, 0x98, 0x96, 0x80, 0, 0, 0, 0, // ten milliseconds
            0, 9, 0, 2, 0, 0, 0, 0, // masks
            0, 1, 0, 1, 0, 0, 0xbb, 0x80, 0, 0, 0, 0x18, 0, 1, 0, 2, 0, 2, // parameters
            0, 0x10, 0, 0x28, 0, 0x2c, 0, 0x18, // where its parts stand
        ]
    );
}

#[test]
fn latency_has_to_be_computable() {
    let mut info = device();
    let none: Vec<Option<TxFlowInfo>> = Vec::new();
    let ask = |info: &DeviceInfo, latency: usize| {
        let subscriber = Some(SubscriberState {
            channels: Vec::new(),
            flows: vec![Some(rx_flow(latency, vec![]))],
        });
        let state = ServerState {
            info,
            limits: limits(),
            subscriber: &subscriber,
            tx_flows: &none,
        };
        can_serve(&state, 0x3200, 0, &[0, 1, 0, 1])
    };
    assert!(ask(&info, 480));
    assert!(ask(&info, 206_158));
    assert!(!ask(&info, 206_159));
    info.sample_rate = 0;
    assert!(!ask(&info, 480));
}

#[test]
fn lists_of_flows_are_requested_by_number() {
    let info = device();
    let tx_flows = vec![Some(tx_flow("x", vec![])), Some(tx_flow("y", vec![]))];
    let subscriber = None;
    let state =
        ServerState { info: &info, limits: limits(), subscriber: &subscriber, tx_flows: &tx_flows };
    assert!(!can_serve(&state, 0x2200, 0, &[0, 1, 0]));
    assert!(!can_serve(&state, 0x2200, 0, &[0, 1, 0, 0]));
    assert!(can_serve(&state, 0x2200, 0, &[0, 1, 0, 2]));
    let actions = handle_request(&state, 0x2200, 0, &[0, 1, 0, 2]);
    match &actions[..] {
        [Action::Respond(reply)] => {
            assert_eq!(reply.code, 1);
            assert_eq!(reply.payload, query_tx_flows(&info, &tx_flows, 1).payload);
            assert_eq!(text_at(&reply.payload, 10 + 4), "2_7");
        }
        other => panic!("not a single response: {other:?}"),
    }
    assert!(can_serve(&state, 0x3200, 0, &[]));
    let actions = handle_request(&state, 0x3200, 0, &[]);
    match &actions[..] {
        [Action::Respond(reply)] => {
            assert_eq!(reply.code, 1);
            assert_eq!(reply.payload, vec![0; 6]);
        }
        other => panic!("not a single response: {other:?}"),
    }
}

#[test]
fn received_flows_are_listed_on_request() {
    let info = device();
    let tx_flows: Vec<Option<TxFlowInfo>> = Vec::new();
    let subscriber = Some(SubscriberState {
        channels: Vec::new(),
        flows: vec![None, Some(rx_flow(48, vec![vec![true]]))],
    });
    let state =
        ServerState { info: &info, limits: limits(), subscriber: &subscriber, tx_flows: &tx_flows };
    assert!(!can_serve(&state, 0x3200, 0, &[0, 1, 0, 0]));
    let actions = handle_request(&state, 0x3200, 0, &[0, 1, 0, 2]);
    match &actions[..] {
        [Action::Respond(reply)] => {
            assert_eq!(reply.code, 1);
            let at = be(&reply.payload, 2) - 10;
            assert_eq!(be(&reply.payload, at), 2);
            assert_eq!(&reply.payload[at - 4..at], &[0, 1, 0, 0]);
        }
        other => panic!("not a single response: {other:?}"),
    }
}
