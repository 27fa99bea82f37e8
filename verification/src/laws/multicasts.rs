//! What a listener finds in the messages that the device multicasts.
use vstd::prelude::*;
use vstd::utf8::*;

use crate::device_info::DeviceInfo;
use crate::info_mcast_server::contents;
use crate::info_mcast_server::contents::HeartbeatFacts;
use crate::info_mcast_server::multicaster;
use crate::info_mcast_server::multicaster::{Multicaster, OutgoingPacket, Packet};
use crate::laws::reading;
use crate::wire;

verus! {

/// The bytes of `text`, as far as there is room for them, stand in a field of `room` bytes that is
/// filled up with `filler`.
pub open spec fn fills_field(
    bytes: Seq<u8>,
    at: int,
    room: int,
    text: Seq<char>,
    filler: u8,
) -> bool {
    let raw = encode_utf8(text);
    forall|i: int|
        0 <= i < room ==> #[trigger] bytes[at + i] == if i < raw.len() {
            raw[i]
        } else {
            filler
        }
}

/// What describes the board: fixed numbers, and its name in two fields.
#[verifier::rlimit(40)]
#[verifier::spinoff_prover]
pub proof fn board_is_described(info: DeviceInfo)
    ensures
        ({
            let b = contents::board_info_content(info);
            &&& b.len() == 200
            &&& fills_field(b, 12, 8, info.board_name@, 0)
            &&& fills_field(b, 56, 16, info.board_name@, 0)
            &&& forall|i: int|
                0 <= i < 200 && !(12 <= i < 20) && !(56 <= i < 72) ==> #[trigger] b[i] == if i == 0
                    || i == 4 {
                    4u8
                } else if i == 1 || i == 5 || i == 39 || i == 40 {
                    1
                } else if i == 3 {
                    6
                } else if i == 7 {
                    3
                } else if i == 22 {
                    16
                } else if i == 35 {
                    2
                } else if i == 187 {
                    31
                } else {
                    0
                }
        }),
{
}

/// What describes the product: the manufacturer and the board in short fields, the manufacturer and
/// the model in long ones, the version, and zeros.
#[verifier::rlimit(40)]
#[verifier::spinoff_prover]
pub proof fn product_is_described(info: DeviceInfo, version: Seq<u8>)
    requires
        version.len() == 4,
    ensures
        ({
            let b = contents::product_info_content(info, version);
            &&& b.len() == 336
            &&& fills_field(b, 0, 8, info.manufacturer@, 0)
            &&& fills_field(b, 8, 8, info.board_name@, 0)
            &&& fills_field(b, 44, 16, info.manufacturer@, 0)
            &&& fills_field(b, 172, 16, info.model_name@, 0)
            &&& b.subrange(300, 304) == version
            &&& reading::zero_from(b, 16, 28)
            &&& reading::zero_from(b, 60, 112)
            &&& reading::zero_from(b, 188, 112)
            &&& reading::zero_from(b, 304, 32)
        }),
{
}

/// The first part of a heartbeat tells how fast the clock runs.
pub open spec fn shows_frequency(b: Seq<u8>, ctr: u16, freq_offset: i32) -> bool {
    &&& b.len() >= 16
    &&& reading::number16(b, 0) == 16
    &&& reading::number16(b, 2) == 0x8001
    &&& reading::number16(b, 4) == 4
    &&& reading::number16(b, 6) == 4
    &&& reading::number16(b, 8) == ctr
    &&& reading::number16(b, 10) == 0
    &&& reading::signed32(b, 12) == freq_offset
}

/// The second part of a heartbeat tells the levels of eight channels of either direction.
pub open spec fn shows_meters(b: Seq<u8>, at: int, ctr: u16) -> bool {
    &&& b.len() >= at + 40
    &&& reading::number16(b, at) == 40
    &&& reading::number16(b, at + 2) == 0x8002
    &&& reading::number16(b, at + 4) == 4
    &&& reading::number16(b, at + 6) == 28
    &&& reading::number16(b, at + 8) == ctr
    &&& reading::number16(b, at + 10) == 0
    &&& reading::number16(b, at + 12) == 8
    &&& reading::number16(b, at + 14) == 0
    &&& reading::number16(b, at + 16) == 8
    &&& reading::number16(b, at + 18) == 0
    &&& reading::number16(b, at + 20) == 24
    &&& reading::number16(b, at + 22) == 0
    &&& forall|i: int|
        0 <= i < 16 ==> #[trigger] b[at + 24 + i] == if i == 9 {
            0xa1u8
        } else {
            0xc1
        }
}

/// What is told of the latency of a slot.
pub open spec fn latency_shown(latency: Option<i32>) -> int {
    match latency {
        Some(samples) => if samples > 0 {
            samples as int
        } else {
            0
        },
        None => 0,
    }
}

/// The third part of a heartbeat tells the sample rate and the latency of each received flow.
pub open spec fn shows_latencies(
    b: Seq<u8>,
    at: int,
    ctr: u16,
    sample_rate: u32,
    latencies: Seq<Option<i32>>,
) -> bool {
    let n = latencies.len() as int % 0x10000;
    &&& b.len() == at + 24 + 4 * latencies.len()
    &&& reading::number16(b, at) == 24 + 4 * n
    &&& reading::number16(b, at + 2) == 0x8003
    &&& reading::number16(b, at + 4) == 4
    &&& reading::number16(b, at + 6) == 12 + 4 * n
    &&& reading::number16(b, at + 8) == ctr
    &&& reading::number16(b, at + 10) == 0
    &&& reading::number16(b, at + 12) == n
    &&& reading::number16(b, at + 14) == 0
    &&& reading::number16(b, at + 16) == 24
    &&& reading::number16(b, at + 18) == 0
    &&& reading::number32(b, at + 20) == sample_rate
    &&& forall|i: int|
        0 <= i < latencies.len() ==> #[trigger] reading::number32(b, at + 24 + 4 * i)
            == latency_shown(latencies[i])
}

#[verifier::rlimit(40)]
#[verifier::spinoff_prover]
proof fn lemma_frequency(ctr: u16, freq_offset: i32)
    ensures
        contents::frequency_part(ctr, freq_offset).len() == 16,
        shows_frequency(contents::frequency_part(ctr, freq_offset), ctr, freq_offset),
{
    let b = contents::frequency_part(ctr, freq_offset);
    reading::lemma_read16(b, 0, 16);
    reading::lemma_read16(b, 2, 0x8001);
    reading::lemma_read16(b, 4, 4);
    reading::lemma_read16(b, 6, 4);
    reading::lemma_read16(b, 8, ctr);
    reading::lemma_read16(b, 10, 0);
    reading::four_bytes_read_as_their_signed_number(freq_offset);
    let s = wire::be32(wire::bits32(freq_offset));
    assert(b[12] == s[0] && b[13] == s[1] && b[14] == s[2] && b[15] == s[3]);
}

#[verifier::rlimit(40)]
#[verifier::spinoff_prover]
proof fn lemma_meters(ctr: u16)
    ensures
        contents::meters_part(ctr).len() == 40,
        shows_meters(contents::meters_part(ctr), 0, ctr),
{
    let b = contents::meters_part(ctr);
    reading::lemma_read16(b, 8, ctr);
    assert(reading::number16(b, 0) == 40);
    assert(reading::number16(b, 2) == 0x8002);
    assert(reading::number16(b, 4) == 4);
    assert(reading::number16(b, 6) == 28);
    assert(reading::number16(b, 10) == 0);
    assert(reading::number16(b, 12) == 8);
    assert(reading::number16(b, 14) == 0);
    assert(reading::number16(b, 16) == 8);
    assert(reading::number16(b, 18) == 0);
    assert(reading::number16(b, 20) == 24);
    assert(reading::number16(b, 22) == 0);
}

#[verifier::rlimit(40)]
#[verifier::spinoff_prover]
proof fn lemma_latency_bytes(latencies: Seq<Option<i32>>, i: int)
    ensures
        contents::latency_bytes(latencies).len() == 4 * latencies.len(),
        0 <= i < latencies.len() ==> reading::number32(contents::latency_bytes(latencies), 4 * i)
            == latency_shown(latencies[i]),
    decreases latencies.len(),
{
    if latencies.len() > 0 {
        let some = latencies.drop_last();
        lemma_latency_bytes(some, i);
        let before = contents::latency_bytes(some);
        let all = contents::latency_bytes(latencies);
        if 0 <= i < some.len() {
            assert(all[4 * i] == before[4 * i]);
            assert(all[4 * i + 1] == before[4 * i + 1]);
            assert(all[4 * i + 2] == before[4 * i + 2]);
            assert(all[4 * i + 3] == before[4 * i + 3]);
        } else if i == some.len() {
            let told = contents::told_latency(latencies[i]);
            assert(all[4 * i] == wire::be32(told)[0]);
            assert(all[4 * i + 1] == wire::be32(told)[1]);
            assert(all[4 * i + 2] == wire::be32(told)[2]);
            assert(all[4 * i + 3] == wire::be32(told)[3]);
            reading::lemma_read32(all, 4 * i, told);
        }
    }
}

#[verifier::rlimit(40)]
#[verifier::spinoff_prover]
proof fn lemma_latencies(ctr: u16, sample_rate: u32, latencies: Seq<Option<i32>>)
    requires
        latencies.len() % 0x10000 <= 16377,
    ensures
        shows_latencies(
            contents::latency_part(ctr, sample_rate, latencies),
            0,
            ctr,
            sample_rate,
            latencies,
        ),
{
    let b = contents::latency_part(ctr, sample_rate, latencies);
    let n = contents::slot_count(latencies);
    let rest = contents::latency_bytes(latencies);
    lemma_latency_bytes(latencies, 0);
    let head = wire::be16((24 + 4 * n) as u16) + wire::be16(0x8003) + wire::be16(4) + wire::be16(
        (12 + 4 * n) as u16,
    ) + wire::be16(ctr) + wire::be16(0) + wire::be16(n) + wire::be16(0) + wire::be16(24)
        + wire::be16(0) + wire::be32(sample_rate);
    assert(head.len() == 24);
    assert(b == head + rest);
    assert(forall|i: int| 0 <= i < 24 ==> #[trigger] b[i] == head[i]);
    reading::lemma_read16(head, 0, (24 + 4 * n) as u16);
    reading::lemma_read16(head, 2, 0x8003);
    reading::lemma_read16(head, 4, 4);
    reading::lemma_read16(head, 6, (12 + 4 * n) as u16);
    reading::lemma_read16(head, 8, ctr);
    reading::lemma_read16(head, 10, 0);
    reading::lemma_read16(head, 12, n);
    reading::lemma_read16(head, 14, 0);
    reading::lemma_read16(head, 16, 24);
    reading::lemma_read16(head, 18, 0);
    reading::lemma_read32(head, 20, sample_rate);
    assert forall|i: int| 0 <= i < latencies.len() implies #[trigger] reading::number32(
        b,
        0 + 24 + 4 * i,
    ) == latency_shown(latencies[i]) by {
        lemma_latency_bytes(latencies, i);
        assert(b[24 + 4 * i] == rest[4 * i]);
        assert(b[24 + 4 * i + 1] == rest[4 * i + 1]);
        assert(b[24 + 4 * i + 2] == rest[4 * i + 2]);
        assert(b[24 + 4 * i + 3] == rest[4 * i + 3]);
    }
}

/// A part of a heartbeat is read alike wherever it stands.
#[verifier::rlimit(40)]
#[verifier::spinoff_prover]
proof fn lemma_shifted_meters(b: Seq<u8>, at: int, part: Seq<u8>, ctr: u16)
    requires
        shows_meters(part, 0, ctr),
        part.len() == 40,
        0 <= at,
        at + 40 <= b.len(),
        forall|i: int| 0 <= i < 40 ==> #[trigger] part[i] == b[at + i],
    ensures
        shows_meters(b, at, ctr),
{
    assert(b[at] == part[0]);
    assert forall|i: int| 0 <= i < 16 implies #[trigger] b[at + 24 + i] == if i == 9 {
        0xa1u8
    } else {
        0xc1
    } by {
        assert(part[0 + 24 + i] == b[at + (24 + i)]);
    }
    assert(part[0] == b[at + 0] && part[1] == b[at + 1] && part[2] == b[at + 2] && part[3] == b[at
        + 3] && part[4] == b[at + 4] && part[5] == b[at + 5] && part[6] == b[at + 6] && part[7]
        == b[at + 7]);
    assert(part[8] == b[at + 8] && part[9] == b[at + 9] && part[10] == b[at + 10] && part[11] == b[
    at + 11] && part[12] == b[at + 12] && part[13] == b[at + 13] && part[14] == b[at + 14]
        && part[15] == b[at + 15]);
    assert(part[16] == b[at + 16] && part[17] == b[at + 17] && part[18] == b[at + 18] && part[19]
        == b[at + 19] && part[20] == b[at + 20] && part[21] == b[at + 21] && part[22] == b[at + 22]
        && part[23] == b[at + 23]);
}

#[verifier::rlimit(40)]
#[verifier::spinoff_prover]
proof fn lemma_shifted_latencies(
    b: Seq<u8>,
    at: int,
    part: Seq<u8>,
    ctr: u16,
    sample_rate: u32,
    latencies: Seq<Option<i32>>,
)
    requires
        shows_latencies(part, 0, ctr, sample_rate, latencies),
        0 <= at,
        at + part.len() == b.len(),
        forall|i: int| 0 <= i < part.len() ==> #[trigger] part[i] == b[at + i],
    ensures
        shows_latencies(b, at, ctr, sample_rate, latencies),
{
    assert(part[0] == b[at + 0] && part[1] == b[at + 1] && part[2] == b[at + 2] && part[3] == b[at
        + 3] && part[4] == b[at + 4] && part[5] == b[at + 5] && part[6] == b[at + 6] && part[7]
        == b[at + 7]);
    assert(part[8] == b[at + 8] && part[9] == b[at + 9] && part[10] == b[at + 10] && part[11] == b[
    at + 11] && part[12] == b[at + 12] && part[13] == b[at + 13] && part[14] == b[at + 14]
        && part[15] == b[at + 15]);
    assert(part[16] == b[at + 16] && part[17] == b[at + 17] && part[18] == b[at + 18] && part[19]
        == b[at + 19] && part[20] == b[at + 20] && part[21] == b[at + 21] && part[22] == b[at + 22]
        && part[23] == b[at + 23]);
    assert forall|i: int| 0 <= i < latencies.len() implies #[trigger] reading::number32(
        b,
        at + 24 + 4 * i,
    ) == latency_shown(latencies[i]) by {
        let k = 24 + 4 * i;
        assert(reading::number32(part, 0 + 24 + 4 * i) == latency_shown(latencies[i]));
        assert(part[k] == b[at + k]);
        assert(part[k + 1] == b[at + (k + 1)]);
        assert(part[k + 2] == b[at + (k + 2)]);
        assert(part[k + 3] == b[at + (k + 3)]);
    }
}

/// A heartbeat of a device with a clock tells, part behind part, how fast the clock runs, the levels
/// of channels, and, while the receiving side runs, the latencies of the received flows. Each part
/// starts with its own size.
#[verifier::rlimit(40)]
#[verifier::spinoff_prover]
pub proof fn heartbeat_tells_its_facts(info: DeviceInfo, ctr: u16, facts: HeartbeatFacts)
    requires
        contents::heartbeat_served(facts),
        facts.freq_offset is Some,
    ensures
        ({
            let b = contents::heartbeat_content(info, ctr, facts);
            &&& shows_frequency(b, ctr, facts.freq_offset->0)
            &&& shows_meters(b, 16, ctr)
            &&& match facts.rx_latencies {
                Some(latencies) => shows_latencies(b, 56, ctr, info.sample_rate, latencies@),
                None => b.len() == 56,
            }
        }),
{
    let freq_offset = facts.freq_offset->0;
    let first = contents::frequency_part(ctr, freq_offset);
    let second = contents::meters_part(ctr);
    let b = contents::heartbeat_content(info, ctr, facts);
    lemma_frequency(ctr, freq_offset);
    lemma_meters(ctr);
    match facts.rx_latencies {
        Some(latencies) => {
            let third = contents::latency_part(ctr, info.sample_rate, latencies@);
            lemma_latencies(ctr, info.sample_rate, latencies@);
            lemma_heartbeat_start(b, first, second, third, ctr, freq_offset);
            assert forall|i: int| 0 <= i < third.len() implies #[trigger] third[i] == b[56 + i] by {
                assert(b[56 + i] == (first + second + third)[56 + i]);
            }
            lemma_shifted_latencies(b, 56, third, ctr, info.sample_rate, latencies@);
        },
        None => {
            lemma_heartbeat_start(b, first, second, Seq::empty(), ctr, freq_offset);
        },
    }
}

proof fn lemma_heartbeat_start(
    b: Seq<u8>,
    first: Seq<u8>,
    second: Seq<u8>,
    third: Seq<u8>,
    ctr: u16,
    freq_offset: i32,
)
    requires
        first.len() == 16,
        second.len() == 40,
        b == first + second + third,
        shows_frequency(first, ctr, freq_offset),
        shows_meters(second, 0, ctr),
    ensures
        shows_frequency(b, ctr, freq_offset),
        shows_meters(b, 16, ctr),
{
    assert(forall|i: int| 0 <= i < 16 ==> #[trigger] b[i] == first[i]);
    assert forall|i: int| 0 <= i < 40 implies #[trigger] second[i] == b[16 + i] by {}
    lemma_shifted_meters(b, 16, second, ctr);
}

/// Without a clock a heartbeat is empty. It can be told exactly where its sizes fit two bytes and the
/// identity of the master clock has eight bytes.
pub proof fn heartbeat_is_told_where_it_fits(info: DeviceInfo, ctr: u16, facts: HeartbeatFacts)
    ensures
        facts.freq_offset is None ==> contents::heartbeat_content(info, ctr, facts).len() == 0,
        contents::heartbeat_served(facts) <==> (facts.freq_offset is Some ==> (
        facts.rx_latencies matches Some(latencies) ==> 24 + 4 * (latencies@.len() as int % 0x10000)
            < 0x10000) && (facts.master_clock matches Some(id) ==> id@.len() == 8)),
{
}

/// The state of the clock: how fast it runs, the address of the device, and the identity of the
/// master clock, twice.
#[verifier::rlimit(40)]
#[verifier::spinoff_prover]
pub proof fn clock_status_is_told(info: DeviceInfo, freq_offset: i32, master_clock: Seq<u8>)
    requires
        master_clock.len() == 8,
    ensures
        ({
            let b = contents::clock_status_content(info, freq_offset, master_clock);
            &&& b.len() == 112
            &&& reading::number16(b, 0) == 3
            &&& reading::number16(b, 2) == 3
            &&& reading::number32(b, 4) == 0x9f
            &&& reading::signed32(b, 8) == freq_offset
            &&& b.subrange(12, 18) == info.mac_address@
            &&& reading::number16(b, 18) == 0
            &&& b.subrange(20, 28) == master_clock
            &&& b.subrange(28, 36) == master_clock
            &&& reading::zero_from(b, 36, 76)
        }),
{
    let b = contents::clock_status_content(info, freq_offset, master_clock);
    reading::four_bytes_read_as_their_signed_number(freq_offset);
    let s = wire::be32(wire::bits32(freq_offset));
    assert(b.len() == 112);
    assert(b[8] == s[0] && b[9] == s[1] && b[10] == s[2] && b[11] == s[3]);
    reading::lemma_read16(b, 18, 0);
    assert(b.subrange(12, 18) =~= info.mac_address@);
    assert(b.subrange(20, 28) =~= master_clock);
    assert(b.subrange(28, 36) =~= master_clock);
}

/// The network settings: the hardware address, the address, the mask, and the gateway, twice.
#[verifier::rlimit(40)]
#[verifier::spinoff_prover]
pub proof fn network_is_told(info: DeviceInfo)
    ensures
        ({
            let b = contents::network_content(info);
            &&& b.len() == 64
            &&& b.subrange(0, 10) == seq![0u8, 1, 0, 0, 0, 0, 0, 0x64, 0, 1]
            &&& b.subrange(10, 16) == info.mac_address@
            &&& b.subrange(16, 20) == info.ip_address@
            &&& b.subrange(20, 24) == info.netmask@
            &&& b.subrange(24, 28) == info.gateway@
            &&& b.subrange(28, 32) == info.gateway@
            &&& b.subrange(32, 36) == seq![0u8, 0x18, 0, 0x30]
            &&& reading::zero_from(b, 36, 28)
        }),
{
    let b = contents::network_content(info);
    assert(b.subrange(0, 10) =~= seq![0u8, 1, 0, 0, 0, 0, 0, 0x64, 0, 1]);
    assert(b.subrange(10, 16) =~= info.mac_address@);
    assert(b.subrange(16, 20) =~= info.ip_address@);
    assert(b.subrange(20, 24) =~= info.netmask@);
    assert(b.subrange(24, 28) =~= info.gateway@);
    assert(b.subrange(28, 32) =~= info.gateway@);
    assert(b.subrange(32, 36) =~= seq![0u8, 0x18, 0, 0x30]);
}

/// What a packet asks for is in its eight bytes from 24 on, the second of which does not matter.
#[verifier::rlimit(40)]
#[verifier::spinoff_prover]
pub proof fn request_is_in_its_opcode(packet: Seq<u8>)
    ensures
        multicaster::info_request(packet) is TooShort <==> packet.len() < 32,
        multicaster::info_request(packet) is BoardInfo <==> packet.len() >= 32 && packet.subrange(
            24,
            32,
        ).update(1, 0) == seq![7u8, 0, 0, 0x61, 0, 0, 0, 0],
        multicaster::info_request(packet) is ProductInfo <==> packet.len() >= 32 && packet.subrange(
            24,
            32,
        ).update(1, 0) == seq![7u8, 0, 0, 0xc1, 0, 0, 0, 0],
{
    if packet.len() >= 32 {
        let opcode = packet.subrange(24, 32).update(1, 0);
        let board = seq![7u8, 0, 0, 0x61, 0, 0, 0, 0];
        let product = seq![7u8, 0, 0, 0xc1, 0, 0, 0, 0];
        assert(opcode[0] == packet[24] && opcode[2] == packet[26] && opcode[3] == packet[27]
            && opcode[4] == packet[28] && opcode[5] == packet[29] && opcode[6] == packet[30]
            && opcode[7] == packet[31]);
        if multicaster::info_request(packet) is BoardInfo {
            assert(opcode =~= board);
        }
        if multicaster::info_request(packet) is ProductInfo {
            assert(opcode =~= product);
        }
        assert(board[3] == 0x61);
        assert(product[3] == 0xc1);
    }
}

/// The packet goes to the group for device information, with the marks of the device.
pub open spec fn informs(
    packet: Packet,
    info: DeviceInfo,
    seqnum: int,
    opcode: Seq<u8>,
    content: Seq<u8>,
) -> bool {
    &&& packet.addr == seq![224u8, 0, 0, 231]
    &&& packet.port == 8702
    &&& packet.start_code == 0xffff
    &&& packet.seqnum == seqnum % 0x10000
    &&& packet.process_id == info.process_id
    &&& packet.factory_device_id == info.factory_device_id@
    &&& packet.vendor.len() == 8
    &&& fills_field(packet.vendor, 0, 8, info.vendor_string@, 32)
    &&& packet.opcode == opcode
    &&& packet.content == content
}

/// The packet goes to the heartbeat group, with the marks of the device.
pub open spec fn beats(packet: Packet, info: DeviceInfo, seqnum: int, content: Seq<u8>) -> bool {
    &&& packet.addr == seq![224u8, 0, 0, 233]
    &&& packet.port == 8708
    &&& packet.start_code == 0xfffe
    &&& packet.seqnum == seqnum % 0x10000
    &&& packet.process_id == info.process_id
    &&& packet.factory_device_id == info.factory_device_id@
    &&& packet.vendor.len() == 8
    &&& fills_field(packet.vendor, 0, 8, info.vendor_string@, 32)
    &&& packet.opcode == seq![0u8, 8, 0, 1, 16, 0, 0, 0]
    &&& packet.content == content
}

/// The device greets with the description of the board and then that of the product.
pub proof fn greetings_describe_board_and_product<'s>(m: Multicaster<'s>)
    requires
        m.well_formed(),
    ensures
        ({
            let version = m.product_version_bytes@;
            let p = m.packets_of(multicaster::greetings(*m.self_info, version));
            &&& p.len() == 2
            &&& informs(
                p[0],
                *m.self_info,
                m.seqnum as int,
                seq![7u8, 42, 0, 0x60, 0, 0, 0, 0],
                contents::board_info_content(*m.self_info),
            )
            &&& informs(
                p[1],
                *m.self_info,
                m.seqnum + 1,
                seq![7u8, 42, 0, 0xc0, 0, 0, 0, 0],
                contents::product_info_content(*m.self_info, version),
            )
        }),
{
}

/// Once a second the device sends, in order: the state of the clock, if there is a clock with a known
/// master; the heartbeat, which carries the number of the first of these packets; two fixed messages;
/// the network settings.
pub proof fn heartbeat_packets_come_in_order<'s>(m: Multicaster<'s>, facts: HeartbeatFacts)
    requires
        m.well_formed(),
    ensures
        ({
            let info = *m.self_info;
            let p = m.packets_of(multicaster::heartbeat_messages(info, m.seqnum, facts));
            let c = if facts.freq_offset is Some && facts.master_clock is Some {
                1int
            } else {
                0
            };
            &&& p.len() == c + 4
            &&& c == 1 ==> informs(
                p[0],
                info,
                m.seqnum as int,
                seq![7u8, 42, 0, 0x20, 0, 0, 0, 0],
                contents::clock_status_content(
                    info,
                    facts.freq_offset->0,
                    facts.master_clock->0@,
                ),
            )
            &&& beats(
                p[c],
                info,
                m.seqnum + c,
                contents::heartbeat_content(info, m.seqnum, facts),
            )
            &&& informs(
                p[c + 1],
                info,
                m.seqnum + c + 1,
                seq![7u8, 42, 0, 0x78, 0, 0, 0, 0],
                seq![0u8, 0, 0, 3, 0, 0, 0, 0],
            )
            &&& informs(
                p[c + 2],
                info,
                m.seqnum + c + 2,
                seq![7u8, 42, 16, 7, 0, 0, 0, 0],
                seq![0u8, 0, 0, 0],
            )
            &&& informs(
                p[c + 3],
                info,
                m.seqnum + c + 3,
                seq![7u8, 42, 0, 0x11, 0, 0, 0, 0],
                contents::network_content(info),
            )
        }),
{
    assert(wire::zeros(4) =~= seq![0u8, 0, 0, 0]);
}

/// What is told of a packet is what its fields hold, and packets are told of in order.
pub proof fn packets_tell_their_fields(outgoing: Seq<OutgoingPacket>, i: int)
    requires
        0 <= i < outgoing.len(),
    ensures
        multicaster::packets(outgoing).len() == outgoing.len(),
        ({
            let told = multicaster::packets(outgoing)[i];
            let p = outgoing[i];
            &&& told.addr == p.destination.addr@
            &&& told.port == p.destination.port
            &&& told.start_code == p.start_code
            &&& told.seqnum == p.seqnum
            &&& told.process_id == p.process_id
            &&& told.factory_device_id == p.factory_device_id@
            &&& told.vendor == p.vendor@
            &&& told.opcode == p.opcode@
            &&& told.content == p.content@
            &&& told == p@
        }),
{
}

} // verus!
