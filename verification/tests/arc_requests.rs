use inferno_aoip::arc_server::actions::Action;
use inferno_aoip::arc_server::channel_lists::{
    ReceiveChannels, TransmitChannels, TransmitFriendlyNames,
};
use inferno_aoip::arc_server::dispatch::{can_serve, handle_request, ServerState};
use inferno_aoip::device_info::{
    Channel, ChannelStatus, DeviceInfo, FlowLimits, SubscriberState, TxFlowInfo,
};
use inferno_aoip::protocol::proto_arc::channels_and_flows_count::{Flags2, Response};
use inferno_aoip::protocol::proto_arc::get_device_names::ResponseHeader;
use inferno_aoip::protocol::proto_arc::get_receive_channels::{ChannelDescriptor, CommonDescriptor};
use inferno_aoip::protocol::proto_arc::rename_tx_channel::{
    deserialize_items, SingleChannelRenameRequest,
};
use inferno_aoip::protocol::proto_arc::{
    extract_start_index, is_page_encodable, paginate_respond, serialize_items, CODE_MORE,
};
use inferno_aoip::state_storage::SavedChannelsSettings;
use inferno_aoip::text::read_0term_str_from_buffer;

fn channel(factory: &str, friendly: &str) -> Channel {
    Channel { factory_name: factory.to_string(), friendly_name: friendly.to_string() }
}

fn device() -> DeviceInfo {
    DeviceInfo {
        ip_address: [192, 168, 1, 20],
        netmask: [255, 255, 255, 0],
        gateway: [192, 168, 1, 1],
        mac_address: [0x00, 0x1d, 0xc1, 0xaa, 0xbb, 0xcc],
        friendly_hostname: "studio".to_string(),
        factory_hostname: "inferno-1".to_string(),
        board_name: "Inferno".to_string(),
        manufacturer: "Acme".to_string(),
        model_name: "Model".to_string(),
        model_number: "M1".to_string(),
        vendor_string: "Audinate Dante".to_string(),
        factory_device_id: [0, 1, 2, 3, 0xfc, 0xfd, 0xfe, 0xff],
        process_id: 7,
        sample_rate: 48000,
        bits_per_sample: 24,
        pcm_type: 0x0e,
        latency_ns: 10_000_000,
        arc_port: 4440,
        cmc_port: 8800,
        flows_control_port: 4455,
        info_request_port: 8700,
        rx_channels: vec![channel("RX 1", "Left"), channel("RX 2", "RX 2")],
        tx_channels: vec![channel("TX 1", "Mic"), channel("TX 2", "TX 2")],
    }
}

fn limits() -> FlowLimits {
    FlowLimits {
        max_tx_flows: 32,
        max_rx_flows: 128,
        fpp_min: 2,
        fpp_max_advertised: 32,
        max_channels_in_flow: 8,
    }
}

fn be(bytes: &[u8], at: usize) -> usize {
    bytes[at] as usize * 256 + bytes[at + 1] as usize
}

/// The text at an offset that is counted from the start of the packet.
fn text_at(payload: &[u8], offset: usize) -> String {
    read_0term_str_from_buffer(payload, offset - 10).unwrap()
}

fn ask(
    info: &DeviceInfo,
    subscriber: Option<SubscriberState>,
    opcode1: u16,
    content: &[u8],
) -> Vec<Action> {
    let tx_flows: Vec<Option<TxFlowInfo>> = Vec::new();
    let state =
        ServerState { info, limits: limits(), subscriber: &subscriber, tx_flows: &tx_flows };
    assert!(can_serve(&state, opcode1, 0, content));
    handle_request(&state, opcode1, 0, content)
}

fn refused(
    info: &DeviceInfo,
    subscriber: Option<SubscriberState>,
    opcode1: u16,
    content: &[u8],
) -> bool {
    let tx_flows: Vec<Option<TxFlowInfo>> = Vec::new();
    let state =
        ServerState { info, limits: limits(), subscriber: &subscriber, tx_flows: &tx_flows };
    !can_serve(&state, opcode1, 0, content)
}

fn single_reply(actions: Vec<Action>) -> (u16, Vec<u8>) {
    assert_eq!(actions.len(), 1);
    match actions.into_iter().next().unwrap() {
        Action::Respond(reply) => (reply.code, reply.payload),
        other => panic!("not a response: {other:?}"),
    }
}

fn subscriber() -> SubscriberState {
    SubscriberState {
        channels: vec![
            None,
            Some(ChannelStatus {
                tx_channel_name: "Ch 5".to_string(),
                tx_hostname: "mixer".to_string(),
                status: 0x01010009,
            }),
        ],
        flows: Vec::new(),
    }
}

#[test]
fn start_index_counts_from_one() {
    assert_eq!(extract_start_index(&[0, 1, 0, 1]), Some(0));
    assert_eq!(extract_start_index(&[0, 1, 1, 0, 9]), Some(255));
    assert_eq!(extract_start_index(&[0, 1, 0xff, 0xff]), Some(0xfffe));
}

#[test]
fn start_index_needs_a_number() {
    assert_eq!(extract_start_index(&[]), None);
    assert_eq!(extract_start_index(&[0, 1, 0]), None);
    assert_eq!(extract_start_index(&[0, 1, 0, 0]), None);
}

#[test]
fn flags_share_a_byte() {
    assert_eq!(Flags2::default().serialize(), 0);
    let flags = Flags2 { unknown1_0: 0x0f, supports_tx_channel_rename: false, unknown2_0: 5 };
    assert_eq!(flags.serialize(), 0xaf);
    let flags = Flags2 { unknown1_0: 0, supports_tx_channel_rename: true, unknown2_0: 0 };
    assert_eq!(flags.serialize(), 0x10);
}

#[test]
fn structures_have_their_size_on_the_wire() {
    assert_eq!(Response::default().serialize(), vec![0; 34]);
    assert_eq!(ResponseHeader::default().serialize(), vec![0; 38]);
    assert_eq!(ChannelDescriptor::default().serialize(), vec![0; 20]);
    assert_eq!(CommonDescriptor::default().serialize(), vec![0; 16]);
}

#[test]
fn fields_are_big_endian_and_in_order() {
    let descriptor = ChannelDescriptor {
        channel_id: 0x0102,
        unknown1_6: 6,
        common_descriptor_offset: 0x0304,
        tx_channel_name_offset: 0x0506,
        tx_hostname_offset: 0x0708,
        friendly_name_offset: 0x090a,
        subscription_status: 0x0b0c0d0e,
        unknown2_0: 0,
    };
    assert_eq!(
        descriptor.serialize(),
        vec![1, 2, 0, 6, 3, 4, 5, 6, 7, 8, 9, 10, 11, 12, 13, 14, 0, 0, 0, 0]
    );
    assert_eq!(
        CommonDescriptor::new(&device()).serialize(),
        vec![0, 0, 0xbb, 0x80, 1, 1, 0, 24, 4, 0, 0, 24, 0, 24, 0, 0x0e]
    );
}

#[test]
fn counts_are_told() {
    let (code, payload) = single_reply(ask(&device(), None, 0x1000, &[]));
    assert_eq!(code, 1);
    assert_eq!(
        payload,
        vec![
            0, 0x10, 0, 2, 0, 2, 0, 4, 0, 4, 0, 8, 0, 32, 0, 128, 0, 4, 0, 1, 0, 1, 0, 0, 0, 0, 0,
            0, 0, 0, 0, 0, 0, 0
        ]
    );
}

#[test]
fn counts_that_do_not_fit_are_refused() {
    let mut info = device();
    info.tx_channels = (0..65535).map(|_| channel("a", "a")).collect();
    assert!(refused(&info, None, 0x1000, &[]));
}

#[test]
fn device_name_is_told() {
    let (code, payload) = single_reply(ask(&device(), None, 0x1002, &[]));
    assert_eq!(code, 1);
    assert_eq!(payload, b"studio\0");
}

#[test]
fn device_names_are_told() {
    let (code, payload) = single_reply(ask(&device(), None, 0x1003, &[]));
    assert_eq!(code, 1);
    assert_eq!(payload.len(), 38 + 7 + 10 + 8 + 5);
    assert_eq!(&payload[..6], &[0; 6]);
    assert_eq!(text_at(&payload, be(&payload, 6)), "Inferno");
    assert_eq!(text_at(&payload, be(&payload, 8)), ":705");
    assert_eq!(text_at(&payload, be(&payload, 12)), "studio");
    assert_eq!(text_at(&payload, be(&payload, 14)), "inferno-1");
    assert_eq!(be(&payload, 16), be(&payload, 12));
    assert_eq!(be(&payload, 12), 48);
    assert_eq!(&payload[18..30], &[0; 12]);
    assert_eq!(&payload[30..38], &[0x27, 0x29, 0, 0, 0x11, 0x02, 0, 0]);
}

#[test]
fn device_names_that_do_not_fit_are_refused() {
    let mut info = device();
    info.board_name = "x".repeat(65535);
    assert!(refused(&info, None, 0x1003, &[]));
}

#[test]
fn transmit_channels_are_listed() {
    let info = device();
    let (code, payload) = single_reply(ask(&info, None, 0x2000, &[0, 1, 0, 1]));
    assert_eq!(code, 1);
    assert_eq!(&payload[..2], &[2, 2]);
    assert_eq!(&payload[2..6], &[0, 1, 0, 7]);
    assert_eq!(&payload[10..14], &[0, 2, 0, 7]);
    let common = be(&payload, 6);
    assert_eq!(common, 10 + 2 + 16);
    assert_eq!(be(&payload, 14), common);
    assert_eq!(&payload[common - 10..common - 6], &[0, 0, 0xbb, 0x80]);
    assert_eq!(text_at(&payload, be(&payload, 8)), "TX 1");
    assert_eq!(text_at(&payload, be(&payload, 16)), "TX 2");
}

#[test]
fn friendly_names_are_listed() {
    let info = device();
    let (code, payload) = single_reply(ask(&info, None, 0x2010, &[0, 1, 0, 1]));
    assert_eq!(code, 1);
    assert_eq!(&payload[..6], &[2, 2, 0, 1, 0, 1]);
    assert_eq!(text_at(&payload, be(&payload, 6)), "Mic");
    assert_eq!(text_at(&payload, be(&payload, 12)), "TX 2");
    assert_eq!(&payload[14..18], &[0, 0, 0, 0]);
}

#[test]
fn receive_channels_are_listed_with_subscriptions() {
    let info = device();
    let (code, payload) = single_reply(ask(&info, Some(subscriber()), 0x3000, &[0, 1, 0, 1]));
    assert_eq!(code, 1);
    assert_eq!(&payload[..6], &[2, 2, 0, 1, 0, 6]);
    assert_eq!(&payload[8..12], &[0, 0, 0, 0]);
    assert_eq!(text_at(&payload, be(&payload, 12)), "Left");
    assert_eq!(&payload[14..22], &[0; 8]);
    assert_eq!(text_at(&payload, be(&payload, 28)), "Ch 5");
    assert_eq!(text_at(&payload, be(&payload, 30)), "mixer");
    assert_eq!(text_at(&payload, be(&payload, 32)), "RX 2");
    assert_eq!(&payload[34..38], &[1, 1, 0, 9]);
}

#[test]
fn receive_channels_without_subscriber_are_an_empty_page() {
    let (code, payload) = single_reply(ask(&device(), None, 0x3000, &[0, 1, 0, 1]));
    assert_eq!(code, 1);
    assert_eq!(payload, vec![0, 0]);
}

#[test]
fn page_without_a_start_is_not_answered() {
    for opcode in [0x2000, 0x2010, 0x3000] {
        assert!(ask(&device(), Some(subscriber()), opcode, &[0, 1, 0, 0]).is_empty());
        assert!(ask(&device(), None, opcode, &[]).is_empty());
    }
}

#[test]
fn page_starts_where_asked() {
    let info = device();
    let items = TransmitChannels { info: &info };
    let (more, payload) = serialize_items(2, &items, 1);
    assert!(!more);
    assert_eq!(&payload[..6], &[2, 1, 0, 2, 0, 7]);
    assert_eq!(&payload[10..18], &[0; 8]);
    let (more, payload) = serialize_items(2, &items, 2);
    assert!(!more);
    assert_eq!(payload[..2], [2, 0]);
    assert_eq!(payload.len(), 18);
}

#[test]
fn page_without_room_promises_nothing() {
    let info = device();
    let (more, payload) = serialize_items(0, &TransmitChannels { info: &info }, 0);
    assert!(!more);
    assert_eq!(payload, vec![0, 0]);
}

#[test]
fn page_that_is_full_promises_more() {
    let mut info = device();
    info.tx_channels = (0..40).map(|i| channel(&format!("{i}"), &format!("{i}"))).collect();
    let (code, payload) = single_reply(ask(&info, None, 0x2010, &[0, 1, 0, 1]));
    assert_eq!(code, CODE_MORE);
    assert_eq!(&payload[..2], &[32, 32]);
    let (code, payload) = single_reply(ask(&info, None, 0x2010, &[0, 1, 0, 33]));
    assert_eq!(code, 1);
    assert_eq!(&payload[..2], &[32, 8]);
    assert_eq!(text_at(&payload, be(&payload, 6)), "32");
}

#[test]
fn page_closes_when_it_grows_too_long() {
    let mut info = device();
    let long = "n".repeat(200);
    info.tx_channels = (0..8).map(|_| channel("t", &long)).collect();
    let (more, payload) = serialize_items(8, &TransmitFriendlyNames { info: &info }, 0);
    assert!(more);
    // 10 + 2 + 8 * 6 + 4 bytes in front of the names, 201 bytes for each name: the fourth one
    // brings the packet to 868 bytes. It is written, but not announced.
    assert_eq!(&payload[..2], &[8, 3]);
    assert_eq!(payload.len(), 858);
    assert_eq!(be(&payload, 2 + 3 * 6), 4);
    assert_eq!(be(&payload, 2 + 4 * 6), 0);
}

#[test]
fn walking_the_pages_visits_every_channel() {
    let mut info = device();
    info.tx_channels = (0..100)
        .map(|i| channel("t", &format!("{}{}", "name".repeat(i % 40), i)))
        .collect();
    let items = TransmitFriendlyNames { info: &info };
    let mut seen: Vec<String> = Vec::new();
    loop {
        let number = seen.len() + 1;
        let request = [0, 1, (number / 256) as u8, (number % 256) as u8];
        let reply = paginate_respond(&request, 32, &items).unwrap();
        let announced = reply.payload[1] as usize;
        for n in 0..announced {
            assert_eq!(be(&reply.payload, 2 + 6 * n), seen.len() + 1);
            seen.push(text_at(&reply.payload, be(&reply.payload, 6 + 6 * n)));
        }
        if reply.code == 1 {
            break;
        }
        assert_eq!(reply.code, CODE_MORE);
        assert!(announced > 0);
    }
    let names: Vec<String> = info.tx_channels.iter().map(|c| c.friendly_name.clone()).collect();
    assert_eq!(seen, names);
}

#[test]
fn page_whose_offsets_do_not_fit_is_refused() {
    let info = device();
    let subscriptions = vec![Some(ChannelStatus {
        tx_channel_name: "x".repeat(70000),
        tx_hostname: "h".to_string(),
        status: 1,
    })];
    let items = ReceiveChannels { info: &info, subscriptions: &subscriptions };
    assert!(!is_page_encodable(&items, 0, 2));
    assert!(is_page_encodable(&items, 1, 2));
}

fn rename_payload(requests: &[(u16, u16)], names: &[u8]) -> Vec<u8> {
    let mut payload = vec![requests.len() as u8, requests.len() as u8];
    for (id, offset) in requests {
        payload.extend(id.to_be_bytes());
        payload.extend(offset.to_be_bytes());
    }
    payload.extend(names);
    payload
}

#[test]
fn rename_requests_are_read_back() {
    let payload = rename_payload(&[(1, 2), (0xffff, 0x8000)], b"rest");
    assert_eq!(
        deserialize_items(&payload),
        vec![
            SingleChannelRenameRequest { channel_id: 1, new_name_offset: 2 },
            SingleChannelRenameRequest { channel_id: 0xffff, new_name_offset: 0x8000 },
        ]
    );
}

#[test]
fn rename_requests_end_with_the_payload() {
    assert!(deserialize_items(&[]).is_empty());
    assert!(deserialize_items(&[9]).is_empty());
    assert_eq!(deserialize_items(&[9, 9, 0, 1, 0, 2, 0, 3, 0]).len(), 1);
}

#[test]
fn transmit_channel_is_renamed() {
    // The name stands at byte 6 of the content; both fields carry ten more than what they mean,
    // and the offset counts the header of the packet once more.
    let payload = rename_payload(&[(12, 26)], b"Vox\0");
    let actions = ask(&device(), None, 0x2013, &payload);
    assert_eq!(actions.len(), 4);
    assert!(matches!(&actions[0], Action::WithdrawTx { index: 1 }));
    match &actions[1] {
        Action::RenameTx { index, name } => {
            assert_eq!(*index, 1);
            assert_eq!(name, "Vox");
        }
        other => panic!("not a renaming: {other:?}"),
    }
    assert!(matches!(&actions[2], Action::AdvertiseTx { index: 1 }));
    match &actions[3] {
        Action::Respond(reply) => {
            assert_eq!(reply.code, 0);
            assert!(reply.payload.is_empty());
        }
        other => panic!("not a response: {other:?}"),
    }
}

#[test]
fn several_transmit_channels_are_renamed() {
    // The names start at byte 18 of the content.
    let payload = rename_payload(&[(11, 38), (10, 38), (12, 40), (13, 38)], b"A\0B\0");
    let actions = ask(&device(), None, 0x2013, &payload);
    assert_eq!(actions.len(), 7);
    assert!(matches!(&actions[0], Action::WithdrawTx { index: 0 }));
    assert!(matches!(&actions[1], Action::RenameTx { index: 0, name } if name == "A"));
    assert!(matches!(&actions[2], Action::AdvertiseTx { index: 0 }));
    assert!(matches!(&actions[3], Action::WithdrawTx { index: 1 }));
    assert!(matches!(&actions[4], Action::RenameTx { index: 1, name } if name == "B"));
    assert!(matches!(&actions[5], Action::AdvertiseTx { index: 1 }));
    assert!(matches!(&actions[6], Action::Respond(reply) if reply.code == 0));
}

#[test]
fn renaming_nothing_is_told() {
    for requests in [vec![], vec![(10, 26)], vec![(12, 10)], vec![(13, 26)], vec![(12, 28)]] {
        let payload = rename_payload(&requests, b"V\0");
        let (code, reply) = single_reply(ask(&device(), None, 0x2013, &payload));
        assert_eq!(code, 1);
        assert_eq!(reply, vec![0, 0]);
    }
}

#[test]
fn rename_with_an_offset_inside_the_header_is_refused() {
    assert!(refused(&device(), None, 0x2013, &rename_payload(&[(12, 19)], b"Vox\0")));
    assert!(!refused(&device(), None, 0x2013, &rename_payload(&[(12, 20)], b"Vox\0")));
}

#[test]
fn receive_channel_is_renamed() {
    let content = [0, 1, 0, 1, 0, 16, b'H', b'i', 0];
    let actions = ask(&device(), None, 0x3001, &content);
    assert_eq!(actions.len(), 3);
    assert!(matches!(&actions[0], Action::RenameRx { index: 0, name } if name == "Hi"));
    assert!(matches!(&actions[1], Action::Respond(r) if r.code == 1 && r.payload.is_empty()));
    assert!(matches!(&actions[2], Action::NotifyChannelChange { indices } if *indices == vec![0]));
}

#[test]
fn renaming_of_an_unknown_receive_channel_is_refused_politely() {
    let (code, payload) = single_reply(ask(&device(), None, 0x3001, &[0, 1, 0, 3, 0, 16, b'H', 0]));
    assert_eq!(code, 0);
    assert!(payload.is_empty());
    let (code, _) = single_reply(ask(&device(), None, 0x3001, &[0, 1, 0, 1, 0, 16, b'H']));
    assert_eq!(code, 0);
}

#[test]
fn malformed_receive_rename_is_refused() {
    assert!(refused(&device(), None, 0x3001, &[0, 1, 0, 1, 0]));
    assert!(refused(&device(), None, 0x3001, &[0, 1, 0, 1, 0, 9, b'H', 0]));
    assert!(refused(&device(), None, 0x3001, &[0, 1, 0, 0, 0, 16, b'H', 0]));
    assert!(!refused(&device(), None, 0x3001, &[0, 1, 0, 0, 0, 16, b'H']));
}

#[test]
fn channels_are_subscribed_and_unsubscribed() {
    let mut content = vec![0, 4];
    content.extend([0, 1, 0, 36, 0, 39]);
    content.extend([0, 2, 0, 0, 0, 39]);
    content.extend([0, 3, 0, 9, 0, 39]);
    content.extend([1, 0, 0, 36, 0, 200]);
    content.extend(b"Mi\0desk\0");
    let actions = ask(&device(), Some(subscriber()), 0x3010, &content);
    assert_eq!(actions.len(), 3);
    match &actions[0] {
        Action::Subscribe { local_channel_index, tx_channel_name, tx_hostname } => {
            assert_eq!(*local_channel_index, 0);
            assert_eq!(tx_channel_name, "Mi");
            assert_eq!(tx_hostname, "desk");
        }
        other => panic!("not a subscription: {other:?}"),
    }
    assert!(matches!(&actions[1], Action::Unsubscribe { local_channel_index: 1 }));
    assert!(matches!(&actions[2], Action::Respond(r) if r.code == 1 && r.payload.is_empty()));
}

#[test]
fn malformed_subscription_is_refused() {
    assert!(refused(&device(), Some(subscriber()), 0x3010, &[0]));
    assert!(refused(&device(), Some(subscriber()), 0x3010, &[0, 1, 0, 1, 0, 0, 0]));
    assert!(refused(&device(), Some(subscriber()), 0x3010, &[0, 1, 0, 0, 0, 0, 0, 0]));
    assert!(!refused(&device(), Some(subscriber()), 0x3010, &[0, 0]));
}

#[test]
fn subscription_is_ended() {
    let actions = ask(&device(), Some(subscriber()), 0x3014, &[0, 1, 0, 0, 0, 2]);
    assert_eq!(actions.len(), 2);
    assert!(matches!(&actions[0], Action::Unsubscribe { local_channel_index: 1 }));
    assert!(matches!(&actions[1], Action::Respond(r) if r.code == 1 && r.payload.is_empty()));
    assert!(refused(&device(), Some(subscriber()), 0x3014, &[0, 1, 0, 0, 0, 0]));
    assert!(refused(&device(), Some(subscriber()), 0x3014, &[0, 1, 0, 0, 0]));
}

#[test]
fn no_subscription_while_nothing_is_received() {
    assert!(ask(&device(), None, 0x3010, &[]).is_empty());
    assert!(ask(&device(), None, 0x3014, &[]).is_empty());
}

#[test]
fn fixed_answers() {
    assert_eq!(single_reply(ask(&device(), None, 0x2320, &[])), (0x30, vec![]));
    assert_eq!(single_reply(ask(&device(), None, 0x1100, &[])), (1, vec![0; 110]));
    assert_eq!(single_reply(ask(&device(), None, 0x1102, &[])), (1, vec![0; 94]));
    assert_eq!(
        single_reply(ask(&device(), None, 0x3300, &[])),
        (1, vec![0x38, 0x00, 0x38, 0xfd, 0x38, 0xfe, 0x38, 0xff])
    );
}

#[test]
fn unknown_requests_are_not_answered() {
    let info = device();
    assert!(ask(&info, None, 0x2201, &[1, 2, 3]).is_empty());
    assert!(ask(&info, None, 0x4242, &[1, 2, 3]).is_empty());
    let tx_flows: Vec<Option<TxFlowInfo>> = Vec::new();
    let none = None;
    let state =
        ServerState { info: &info, limits: limits(), subscriber: &none, tx_flows: &tx_flows };
    assert!(can_serve(&state, 0x3001, 1, &[]));
    assert!(handle_request(&state, 0x1002, 1, &[]).is_empty());
}

#[test]
fn renamed_channels_are_listed_under_their_new_names() {
    let mut info = device();
    let mut saved = SavedChannelsSettings::load(None, None, &mut info);
    let content = rename_payload(&[(12, 26)], "Kl\u{e1}vesy\0".as_bytes());
    for action in ask(&device(), None, 0x2013, &content) {
        if let Action::RenameTx { index, name } = action {
            saved.rename_tx_channel(&mut info, index, name);
        }
    }
    let (_, payload) = single_reply(ask(&info, None, 0x2010, &[0, 1, 0, 2]));
    assert_eq!(text_at(&payload, be(&payload, 6)), "Kl\u{e1}vesy");
    let (_, payload) = single_reply(ask(&info, None, 0x2000, &[0, 1, 0, 2]));
    assert_eq!(text_at(&payload, be(&payload, 8)), "TX 2");
    saved.rename_rx_channel(&mut info, 0, "Out".to_string());
    let (_, payload) = single_reply(ask(&info, Some(subscriber()), 0x3000, &[0, 1, 0, 1]));
    assert_eq!(text_at(&payload, be(&payload, 12)), "Out");
}
