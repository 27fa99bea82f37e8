use inferno_aoip::device_info::{Channel, DeviceInfo};
use inferno_aoip::info_mcast_server::clock_stats::{
    find_master_clock, is_clock_stats_file, is_clock_stats_served, is_search_served,
    master_clock_id, required_prefix, ClockFile,
};
use inferno_aoip::info_mcast_server::contents::{
    is_heartbeat_served, make_board_info, make_product_info, HeartbeatFacts,
};
use inferno_aoip::info_mcast_server::multicaster::{
    classify_request, Destination, InfoRequest, MulticastMessage, Multicaster,
};

fn channel(factory: &str, friendly: &str) -> Channel {
    Channel { factory_name: factory.to_string(), friendly_name: friendly.to_string() }
}

fn device() -> DeviceInfo {
    DeviceInfo {
        ip_address: [192, 168, 1, 20],
        netmask: [255, 255, 255, 0],
        gateway: [192, 168, 1, 1],
        mac_address: [0x00, 0x1d, 0xc1, 0xaa, 0xbb, 0xcc],
        friendly_hostname: "studio".to_string(),
        factory_hostname: "inferno-1".to_string(),
        board_name: "Inferno".to_string(),
        manufacturer: "Acme".to_string(),
        model_name: "Model".to_string(),
        model_number: "M1".to_string(),
        vendor_string: "Audinate Dante".to_string(),
        factory_device_id: [0, 1, 2, 3, 0xfc, 0xfd, 0xfe, 0xff],
        process_id: 7,
        sample_rate: 48000,
        bits_per_sample: 24,
        pcm_type: 0x0e,
        latency_ns: 10_000_000,
        arc_port: 4440,
        cmc_port: 8800,
        flows_control_port: 4455,
        info_request_port: 8700,
        rx_channels: vec![channel("RX 1", "Left"), channel("RX 2", "RX 2")],
        tx_channels: vec![channel("TX 1", "Mic"), channel("TX 2", "TX 2")],
    }
}

fn request(opcode: [u8; 8]) -> Vec<u8> {
    let mut packet = vec![0xee; 24];
    packet.extend(opcode);
    packet
}

#[test]
fn requests_are_told_apart() {
    assert_eq!(classify_request(&[7; 31]), InfoRequest::TooShort);
    assert_eq!(classify_request(&request([7, 0x38, 0, 0x61, 0, 0, 0, 0])), InfoRequest::BoardInfo);
    assert_eq!(classify_request(&request([7, 0, 0, 0xc1, 0, 0, 0, 0])), InfoRequest::ProductInfo);
    assert_eq!(classify_request(&request([7, 0, 0, 0x62, 0, 0, 0, 0])), InfoRequest::Unknown);
    assert_eq!(classify_request(&request([8, 0, 0, 0x61, 0, 0, 0, 0])), InfoRequest::Unknown);
    assert_eq!(classify_request(&request([7, 0, 1, 0x61, 0, 0, 0, 0])), InfoRequest::Unknown);
    assert_eq!(classify_request(&request([7, 0, 0, 0x61, 0, 0, 0, 1])), InfoRequest::Unknown);
    let mut long = request([7, 0, 0, 0xc1, 0, 0, 0, 0]);
    long.push(9);
    assert_eq!(classify_request(&long), InfoRequest::ProductInfo);
}

#[test]
fn multicaster_starts_with_number_one() {
    let info = device();
    let m = Multicaster::new(&info, 1, 2, 0x0304);
    assert_eq!(m.seqnum, 1);
    assert_eq!(m.vendor, *b"Audinate");
    assert_eq!(m.firmware_version_bytes, [4, 1, 6, 2]);
    assert_eq!(m.product_version_bytes, [1, 2, 3, 4]);
    assert_eq!(m.device_info_destination.addr, [224, 0, 0, 231]);
    assert_eq!(m.device_info_destination.port, 8702);
    assert_eq!(m.heartbeat_destination.addr, [224, 0, 0, 233]);
    assert_eq!(m.heartbeat_destination.port, 8708);
}

#[test]
fn short_vendor_is_filled_with_spaces() {
    let mut info = device();
    info.vendor_string = "Ab".to_string();
    assert_eq!(Multicaster::new(&info, 0, 0, 0).vendor, *b"Ab      ");
}

#[test]
fn board_is_described() {
    let content = make_board_info(&device());
    let mut expected = vec![0u8; 200];
    expected[..8].copy_from_slice(&[4, 1, 0, 6, 4, 1, 0, 3]);
    expected[12..19].copy_from_slice(b"Inferno");
    expected[0x16] = 0x10;
    expected[0x23] = 2;
    expected[0x27] = 1;
    expected[0x28] = 1;
    expected[0x38..0x3f].copy_from_slice(b"Inferno");
    expected[0xbb] = 0x1f;
    assert_eq!(content, expected);
}

#[test]
fn product_is_described() {
    let mut info = device();
    info.manufacturer = "Acme Audio Works Inc.".to_string();
    let content = make_product_info(&info, &[1, 2, 3, 4]);
    let mut expected = vec![0u8; 336];
    expected[..8].copy_from_slice(b"Acme Aud");
    expected[8..15].copy_from_slice(b"Inferno");
    expected[0x2c..0x3c].copy_from_slice(b"Acme Audio Works");
    expected[0xac..0xb1].copy_from_slice(b"Model");
    expected[0x12c..0x130].copy_from_slice(&[1, 2, 3, 4]);
    assert_eq!(content, expected);
}

#[test]
fn requests_are_answered() {
    let info = device();
    let mut m = Multicaster::new(&info, 0, 4, 0);
    let packet = m.answer(&request([7, 0x38, 0, 0x61, 0, 0, 0, 0])).unwrap();
    assert_eq!(packet.start_code, 0xffff);
    assert_eq!(packet.seqnum, 1);
    assert_eq!(packet.process_id, 7);
    assert_eq!(packet.factory_device_id, info.factory_device_id);
    assert_eq!(packet.vendor, *b"Audinate");
    assert_eq!(packet.opcode, [0x07, 0x2a, 0x00, 0x60, 0, 0, 0, 0]);
    assert_eq!(packet.content, make_board_info(&info));
    assert_eq!(packet.destination.port, 8702);
    let packet = m.answer(&request([7, 0x38, 0, 0xc1, 0, 0, 0, 0])).unwrap();
    assert_eq!(packet.seqnum, 2);
    assert_eq!(packet.opcode, [0x07, 0x2a, 0x00, 0xc0, 0, 0, 0, 0]);
    assert_eq!(packet.content, make_product_info(&info, &[0, 4, 0, 0]));
    assert!(m.answer(&request([9; 8])).is_none());
    assert!(m.answer(&[]).is_none());
    assert_eq!(m.seqnum, 3);
}

#[test]
fn messages_are_forwarded() {
    let info = device();
    let mut m = Multicaster::new(&info, 0, 0, 0);
    m.seqnum = 0xffff;
    let packet = m.forward(MulticastMessage {
        start_code: 0x1234,
        opcode: [1, 2, 3, 4, 5, 6, 7, 8],
        content: vec![9, 8],
    });
    assert_eq!(packet.destination.addr, [224, 0, 0, 231]);
    assert_eq!(packet.start_code, 0x1234);
    assert_eq!(packet.seqnum, 0xffff);
    assert_eq!(packet.opcode, [1, 2, 3, 4, 5, 6, 7, 8]);
    assert_eq!(packet.content, vec![9, 8]);
    assert_eq!(m.seqnum, 0);
}

#[test]
fn heartbeat_without_a_clock_is_empty() {
    let info = device();
    let mut m = Multicaster::new(&info, 0, 0, 0);
    let facts = HeartbeatFacts {
        freq_offset: None,
        rx_latencies: Some(vec![Some(5)]),
        master_clock: Some(vec![1; 8]),
    };
    let packets = m.send_heartbeat(&facts);
    assert_eq!(packets.len(), 4);
    assert_eq!(packets[0].destination.port, 8708);
    assert_eq!(packets[0].start_code, 0xfffe);
    assert_eq!(packets[0].opcode, [0, 8, 0, 1, 0x10, 0, 0, 0]);
    assert!(packets[0].content.is_empty());
    assert_eq!(packets[1].opcode, [0x07, 0x2a, 0x00, 0x78, 0, 0, 0, 0]);
    assert_eq!(packets[1].content, vec![0, 0, 0, 3, 0, 0, 0, 0]);
    assert_eq!(packets[2].opcode, [0x07, 0x2a, 0x10, 0x07, 0, 0, 0, 0]);
    assert_eq!(packets[2].content, vec![0; 4]);
    assert_eq!(packets[3].opcode, [0x07, 0x2a, 0x00, 0x11, 0, 0, 0, 0]);
    let mut network = vec![0, 1, 0, 0, 0, 0, 0, 0x64, 0, 1, 0x00, 0x1d, 0xc1, 0xaa, 0xbb, 0xcc];
    network.extend([192, 168, 1, 20, 255, 255, 255, 0, 192, 168, 1, 1, 192, 168, 1, 1]);
    network.extend([0, 0x18, 0, 0x30]);
    network.extend([0; 28]);
    assert_eq!(packets[3].content, network);
    assert!(packets[1..].iter().all(|p| p.start_code == 0xffff && p.destination.port == 8702));
}

#[test]
fn heartbeat_tells_clock_and_latencies() {
    let info = device();
    let mut m = Multicaster::new(&info, 0, 0, 0);
    m.seqnum = 0x0102;
    let facts = HeartbeatFacts {
        freq_offset: Some(-2),
        rx_latencies: Some(vec![Some(0x01020304), None, Some(-7)]),
        master_clock: Some(vec![1, 2, 3, 4, 5, 6, 7, 8]),
    };
    assert!(is_heartbeat_served(&facts));
    let packets = m.send_heartbeat(&facts);
    assert_eq!(packets.len(), 5);
    let numbers: Vec<u16> = packets.iter().map(|p| p.seqnum).collect();
    assert_eq!(numbers, vec![0x0102, 0x0103, 0x0104, 0x0105, 0x0106]);
    assert_eq!(m.seqnum, 0x0107);

    assert_eq!(packets[0].opcode, [0x07, 0x2a, 0x00, 0x20, 0, 0, 0, 0]);
    let mut status = vec![0, 3, 0, 3, 0, 0, 0, 0x9f, 0xff, 0xff, 0xff, 0xfe];
    status.extend([0x00, 0x1d, 0xc1, 0xaa, 0xbb, 0xcc, 0, 0]);
    status.extend([1, 2, 3, 4, 5, 6, 7, 8, 1, 2, 3, 4, 5, 6, 7, 8]);
    status.extend([0; 76]);
    assert_eq!(packets[0].content, status);

    let mut content = vec![0, 16, 0x80, 1, 0, 4, 0, 4, 1, 2, 0, 0, 0xff, 0xff, 0xff, 0xfe];
    content.extend([0, 0x28, 0x80, 2, 0, 4, 0, 0x1c, 1, 2, 0, 0]);
    content.extend([0, 8, 0, 0, 0, 8, 0, 0, 0, 0x18, 0, 0]);
    content.extend([0xc1; 9]);
    content.push(0xa1);
    content.extend([0xc1; 6]);
    content.extend([0, 36, 0x80, 3, 0, 4, 0, 24, 1, 2, 0, 0, 0, 3, 0, 0, 0, 24, 0, 0]);
    content.extend([0, 0, 0xbb, 0x80, 1, 2, 3, 4, 0, 0, 0, 0, 0, 0, 0, 0]);
    assert_eq!(packets[1].content, content);
}

#[test]
fn heartbeat_without_receiver_has_no_latencies() {
    let info = device();
    let mut m = Multicaster::new(&info, 0, 0, 0);
    let facts = HeartbeatFacts { freq_offset: Some(3), rx_latencies: None, master_clock: None };
    let packets = m.send_heartbeat(&facts);
    assert_eq!(packets.len(), 4);
    assert_eq!(packets[0].content.len(), 16 + 40);
    assert_eq!(&packets[0].content[12..16], &[0, 0, 0, 3]);
}

#[test]
fn heartbeat_that_does_not_fit_is_refused() {
    let facts = |flows: usize, clock: usize, freq_offset: Option<i32>| HeartbeatFacts {
        freq_offset,
        rx_latencies: Some(vec![None; flows]),
        master_clock: Some(vec![0; clock]),
    };
    assert!(is_heartbeat_served(&facts(16377, 8, Some(0))));
    assert!(!is_heartbeat_served(&facts(16378, 8, Some(0))));
    assert!(!is_heartbeat_served(&facts(1, 7, Some(0))));
    assert!(is_heartbeat_served(&facts(16378, 7, None)));
}

#[test]
fn clock_files_are_recognised_by_the_address() {
    let info = device();
    assert_eq!(required_prefix(&info), "clock-stats.001dc1aabbcc0000");
    assert!(is_clock_stats_file(&info, "clock-stats.001dc1aabbcc0000"));
    assert!(is_clock_stats_file(&info, "clock-stats.001dc1aabbcc0000.txt"));
    assert!(!is_clock_stats_file(&info, "clock-stats.001dc1aabbcc000"));
    assert!(!is_clock_stats_file(&info, "clock-stats.001dc1aabbcd0000"));
    assert!(!is_clock_stats_file(&info, ""));
}

#[test]
fn master_clock_is_read() {
    let id = vec![0x00, 0x1d, 0xc1, 0xff, 0xfe, 0x11, 0x22, 0x33];
    assert_eq!(master_clock_id("001dc1fffe112233"), Some(id.clone()));
    assert_eq!(master_clock_id(" \t\r\n001DC1FFFE112233 rest\n"), Some(id));
    assert_eq!(master_clock_id("001dc1fffe11223x"), None);
    assert_eq!(master_clock_id("001dc1fffe1"), None);
    assert_eq!(master_clock_id("   \n"), None);
}

#[test]
fn clock_file_that_cannot_be_cut_is_refused() {
    assert!(!is_clock_stats_served("001dc1fffe112"));
    assert!(!is_clock_stats_served("001dc1fffe11223\u{e9}"));
    assert!(is_clock_stats_served("001dc1fffe1122\u{e9}"));
    assert!(is_clock_stats_served("short"));
    assert_eq!(master_clock_id("001dc1fffe1122\u{e9}"), None);
}

#[test]
fn numbers_go_on_from_one_message_to_the_next() {
    let info = device();
    let mut m = Multicaster::new(&info, 0, 0, 0);
    m.seqnum = 0xfffe;
    let facts = HeartbeatFacts { freq_offset: None, rx_latencies: None, master_clock: None };
    let mut numbers: Vec<u16> = m.send_heartbeat(&facts).iter().map(|p| p.seqnum).collect();
    numbers.push(m.send_board_info().seqnum);
    numbers.extend(m.send_heartbeat(&facts).iter().map(|p| p.seqnum));
    assert_eq!(numbers, vec![0xfffe, 0xffff, 0, 1, 2, 3, 4, 5, 6]);
}

#[test]
fn board_and_product_are_described_first() {
    let info = device();
    let (m, packets) = Multicaster::start(&info, 1, 2, 3);
    assert_eq!(packets.len(), 2);
    assert_eq!(packets[0].seqnum, 1);
    assert_eq!(packets[0].opcode, [0x07, 0x2a, 0x00, 0x60, 0, 0, 0, 0]);
    assert_eq!(packets[0].content, make_board_info(&info));
    assert_eq!(packets[1].seqnum, 2);
    assert_eq!(packets[1].opcode, [0x07, 0x2a, 0x00, 0xc0, 0, 0, 0, 0]);
    assert_eq!(packets[1].content, make_product_info(&info, &[1, 2, 0, 3]));
    assert_eq!(m.seqnum, 3);
    let mut later = Multicaster::new(&info, 1, 2, 3);
    later.seqnum = 0xffff;
    let numbers: Vec<u16> = later.send_greetings().iter().map(|p| p.seqnum).collect();
    assert_eq!(numbers, vec![0xffff, 0]);
    assert_eq!(later.seqnum, 1);
}

#[test]
fn packets_carry_what_is_sent() {
    let info = device();
    let mut m = Multicaster::new(&info, 0, 0, 0);
    let dst = Destination { addr: [10, 1, 2, 3], port: 99 };
    let packet = m.send(dst, 0x2729, [8, 7, 6, 5, 4, 3, 2, 1], vec![1, 2]);
    assert_eq!(packet.destination, dst);
    assert_eq!(packet.start_code, 0x2729);
    assert_eq!(packet.seqnum, 1);
    assert_eq!(packet.process_id, 7);
    assert_eq!(packet.factory_device_id, info.factory_device_id);
    assert_eq!(packet.vendor, *b"Audinate");
    assert_eq!(packet.opcode, [8, 7, 6, 5, 4, 3, 2, 1]);
    assert_eq!(packet.content, vec![1, 2]);
    assert_eq!(m.seqnum, 2);
}

fn clock_file(name: &str, content: Option<&str>) -> ClockFile {
    ClockFile { name: name.to_string(), content: content.map(str::to_string) }
}

#[test]
fn first_file_with_an_identity_is_taken() {
    let info = device();
    let ours = "clock-stats.001dc1aabbcc0000.1";
    let files = vec![
        clock_file("clock-stats.ffffffffffff0000", Some("ffffffffffffffff")),
        clock_file(ours, None),
        clock_file(ours, Some("short")),
        clock_file(ours, Some("not sixteen hexadecimal digits")),
        clock_file(ours, Some("0102030405060708")),
        clock_file(ours, Some("1112131415161718")),
        clock_file(ours, Some("0102030405060")),
    ];
    assert!(is_search_served(&info, &files));
    assert_eq!(find_master_clock(&info, &files), Some(vec![1, 2, 3, 4, 5, 6, 7, 8]));
    assert_eq!(find_master_clock(&info, &Vec::new()), None);
}

#[test]
fn search_stops_at_a_file_that_cannot_be_cut() {
    let info = device();
    let ours = "clock-stats.001dc1aabbcc0000";
    let files = vec![
        clock_file(ours, Some("0102030405060")),
        clock_file(ours, Some("0102030405060708")),
    ];
    assert!(!is_search_served(&info, &files));
    let files = vec![clock_file("other", Some("0102030405060"))];
    assert!(is_search_served(&info, &files));
    assert_eq!(find_master_clock(&info, &files), None);
}
