//! The contents of the messages that the device multicasts.
use bytebuffer::ByteBuffer;
use vstd::prelude::*;
use vstd::slice::slice_to_vec;

use crate::device_info::DeviceInfo;
use crate::packet_buffer;
use crate::text;
use crate::wire;

verus! {

/// What a heartbeat tells, as far as it changes from one to the next.
#[derive(Debug)]
pub struct HeartbeatFacts {
    /// How much faster the clock runs than the system clock, in units of a thousandth of a part
    /// per million. None while there is no clock.
    pub freq_offset: Option<i32>,
    /// The latency of the flow in each slot of the receiving side, while that runs.
    pub rx_latencies: Option<Vec<Option<i32>>>,
    /// The identity of the master clock.
    pub master_clock: Option<Vec<u8>>,
}

/// The content of the message that describes the board: versions, features, and its name in two
/// places.
pub open spec fn board_info_content(info: DeviceInfo) -> Seq<u8> {
    let fixed = wire::zeros(200).update(0, 4).update(1, 1).update(3, 6).update(4, 4).update(
        5,
        1,
    ).update(7, 3).update(0x16, 0x10).update(0x23, 2).update(0x27, 1).update(0x28, 1).update(
        0xbb,
        0x1f,
    );
    text::with_text(
        text::with_text(fixed, 12, 8, info.board_name@),
        0x38,
        16,
        info.board_name@,
    )
}

/// The content of the message that describes the product: names and the version.
pub open spec fn product_info_content(info: DeviceInfo, version: Seq<u8>) -> Seq<u8> {
    let names = text::with_text(
        text::with_text(
            text::with_text(
                text::with_text(wire::zeros(336), 0, 8, info.manufacturer@),
                8,
                8,
                info.board_name@,
            ),
            0x2c,
            16,
            info.manufacturer@,
        ),
        0xac,
        16,
        info.model_name@,
    );
    names.update(0x12c, version[0]).update(0x12d, version[1]).update(0x12e, version[2]).update(
        0x12f,
        version[3],
    )
}

/// Describes the board.
pub fn make_board_info(info: &DeviceInfo) -> (content: Vec<u8>)
    ensures
        content@ == board_info_content(*info),
        content@.len() == 200,
{
    let mut content: Vec<u8> = wire::zero_bytes(200);
    content.set(0, 4);
    content.set(1, 1);
    content.set(3, 6);
    content.set(4, 4);
    content.set(5, 1);
    content.set(7, 3);
    content.set(0x16, 0x10);
    content.set(0x23, 2);
    content.set(0x27, 1);
    content.set(0x28, 1);
    content.set(0xbb, 0x1f);
    text::write_str_to_buffer(&mut content, 12, 8, info.board_name.as_str());
    text::write_str_to_buffer(&mut content, 0x38, 16, info.board_name.as_str());
    content
}

/// Describes the product.
pub fn make_product_info(info: &DeviceInfo, version: &[u8; 4]) -> (content: Vec<u8>)
    ensures
        content@ == product_info_content(*info, version@),
        content@.len() == 336,
{
    let mut content: Vec<u8> = wire::zero_bytes(336);
    text::write_str_to_buffer(&mut content, 0, 8, info.manufacturer.as_str());
    text::write_str_to_buffer(&mut content, 8, 8, info.board_name.as_str());
    text::write_str_to_buffer(&mut content, 0x2c, 16, info.manufacturer.as_str());
    text::write_str_to_buffer(&mut content, 0xac, 16, info.model_name.as_str());
    content.set(0x12c, version[0]);
    content.set(0x12d, version[1]);
    content.set(0x12e, version[2]);
    content.set(0x12f, version[3]);
    content
}

/// The part of a heartbeat that tells the frequency offset of the clock.
pub open spec fn frequency_part(ctr: u16, freq_offset: i32) -> Seq<u8> {
    wire::be16(16) + wire::be16(0x8001) + wire::be16(4) + wire::be16(4) + wire::be16(ctr)
        + wire::be16(0) + wire::be32(wire::bits32(freq_offset))
}

/// The part of a heartbeat that tells the peak levels of eight transmit and eight receive channels,
/// which it gives as fixed values.
pub open spec fn meters_part(ctr: u16) -> Seq<u8> {
    seq![0x00u8, 0x28, 0x80, 0x02, 0x00, 0x04, 0x00, 0x1c] + wire::be16(ctr) + seq![
        0x00u8,
        0x00,
        0x00,
        0x08,
        0x00,
        0x00,
        0x00,
        0x08,
        0x00,
        0x00,
        0x00,
        0x18,
        0x00,
        0x00,
    ] + Seq::new(
        16,
        |i: int|
            if i == 9 {
                0xa1u8
            } else {
                0xc1u8
            },
    )
}

/// The latency that a heartbeat tells for a slot: zero for an empty slot and for a negative number.
pub open spec fn told_latency(latency: Option<i32>) -> u32 {
    match latency {
        Some(samples) => if samples < 0 {
            0
        } else {
            samples as u32
        },
        None => 0,
    }
}

/// The latencies one after the other, four bytes each.
pub open spec fn latency_bytes(latencies: Seq<Option<i32>>) -> Seq<u8>
    decreases latencies.len(),
{
    if latencies.len() == 0 {
        Seq::empty()
    } else {
        latency_bytes(latencies.drop_last()) + wire::be32(told_latency(latencies.last()))
    }
}

/// The number of slots, as far as its field holds it.
pub open spec fn slot_count(latencies: Seq<Option<i32>>) -> u16 {
    wire::low16(latencies.len() as int)
}

/// The part of a heartbeat that tells the latencies of the received flows.
pub open spec fn latency_part(
    ctr: u16,
    sample_rate: u32,
    latencies: Seq<Option<i32>>,
) -> Seq<u8> {
    let n = slot_count(latencies);
    wire::be16((24 + 4 * n) as u16) + wire::be16(0x8003) + wire::be16(4) + wire::be16(
        (12 + 4 * n) as u16,
    ) + wire::be16(ctr) + wire::be16(0) + wire::be16(n) + wire::be16(0) + wire::be16(24)
        + wire::be16(0) + wire::be32(sample_rate) + latency_bytes(latencies)
}

/// The length of the part with the latencies fits its field, and the identity of the master clock
/// has eight bytes.
pub open spec fn heartbeat_served(facts: HeartbeatFacts) -> bool {
    facts.freq_offset is Some ==> {
        &&& facts.rx_latencies matches Some(latencies) ==> 24 + 4 * slot_count(latencies@)
            <= u16::MAX
        &&& facts.master_clock matches Some(id) ==> id@.len() == 8
    }
}

/// The content of a heartbeat. It is empty while there is no clock.
pub open spec fn heartbeat_content(info: DeviceInfo, ctr: u16, facts: HeartbeatFacts) -> Seq<u8> {
    match facts.freq_offset {
        None => Seq::empty(),
        Some(freq_offset) => frequency_part(ctr, freq_offset) + meters_part(ctr) + (
        match facts.rx_latencies {
            None => Seq::empty(),
            Some(latencies) => latency_part(ctr, info.sample_rate, latencies@),
        }),
    }
}

/// The content of the message that tells the state of the clock.
pub open spec fn clock_status_content(
    info: DeviceInfo,
    freq_offset: i32,
    master_clock: Seq<u8>,
) -> Seq<u8> {
    seq![0x00u8, 0x03, 0x00, 0x03, 0x00, 0x00, 0x00, 0x9f] + wire::be32(wire::bits32(freq_offset))
        + info.mac_address@ + wire::be16(0) + master_clock + master_clock + wire::zeros(76)
}

/// The content of the message that tells the network settings.
pub open spec fn network_content(info: DeviceInfo) -> Seq<u8> {
    seq![0x00u8, 0x01, 0x00, 0x00, 0x00, 0x00, 0x00, 0x64, 0x00, 0x01] + info.mac_address@
        + info.ip_address@ + info.netmask@ + info.gateway@ + info.gateway@ + seq![
        0x00u8,
        0x18,
        0x00,
        0x30,
    ] + wire::zeros(28)
}

/// Whether the length of the part with the latencies fits its field, and the identity of the master
/// clock has eight bytes.
pub fn is_heartbeat_served(facts: &HeartbeatFacts) -> (ok: bool)
    ensures
        ok == heartbeat_served(*facts),
{
    if facts.freq_offset.is_none() {
        return true;
    }
    let latencies_ok = match &facts.rx_latencies {
        Some(latencies) => latencies.len() % 0x10000 <= 16377,
        None => true,
    };
    let master_ok = match &facts.master_clock {
        Some(id) => id.len() == 8,
        None => true,
    };
    latencies_ok && master_ok
}

/// Appends the part that tells the frequency offset of the clock.
fn put_frequency(bytes: &mut ByteBuffer, ctr: u16, freq_offset: i32)
    requires
        packet_buffer::at_end(*old(bytes)),
    ensures
        packet_buffer::at_end(*final(bytes)),
        packet_buffer::buffer_bytes(*final(bytes)) == packet_buffer::buffer_bytes(*old(bytes))
            + frequency_part(ctr, freq_offset),
{
    let ghost before = packet_buffer::buffer_bytes(*bytes);
    packet_buffer::put_u16(bytes, 16);
    packet_buffer::put_u16(bytes, 0x8001);
    packet_buffer::put_u16(bytes, 4);
    packet_buffer::put_u16(bytes, 4);
    packet_buffer::put_u16(bytes, ctr);
    packet_buffer::put_u16(bytes, 0);
    packet_buffer::put_i32(bytes, freq_offset);
    assert(packet_buffer::buffer_bytes(*bytes) =~= before + frequency_part(ctr, freq_offset));
}

/// Appends the part that tells the peak levels.
fn put_meters(bytes: &mut ByteBuffer, ctr: u16)
    requires
        packet_buffer::at_end(*old(bytes)),
    ensures
        packet_buffer::at_end(*final(bytes)),
        packet_buffer::buffer_bytes(*final(bytes)) == packet_buffer::buffer_bytes(*old(bytes))
            + meters_part(ctr),
{
    let ghost before = packet_buffer::buffer_bytes(*bytes);
    let part: [u8; 40] = [
        0x00,
        0x28,
        0x80,
        0x02,
        0x00,
        0x04,
        0x00,
        0x1c,
        wire::H(ctr),
        wire::L(ctr),
        0x00,
        0x00,
        0x00,
        0x08,
        0x00,
        0x00,
        0x00,
        0x08,
        0x00,
        0x00,
        0x00,
        0x18,
        0x00,
        0x00,
        0xc1,
        0xc1,
        0xc1,
        0xc1,
        0xc1,
        0xc1,
        0xc1,
        0xc1,
        0xc1,
        0xa1,
        0xc1,
        0xc1,
        0xc1,
        0xc1,
        0xc1,
        0xc1,
    ];
    packet_buffer::put_bytes(bytes, part.as_slice());
    assert(part@ =~= meters_part(ctr));
}

/// Appends the part that tells the latencies of the received flows.
fn put_latencies(bytes: &mut ByteBuffer, ctr: u16, sample_rate: u32, latencies: &Vec<Option<i32>>)
    requires
        packet_buffer::at_end(*old(bytes)),
        24 + 4 * slot_count(latencies@) <= u16::MAX,
    ensures
        packet_buffer::at_end(*final(bytes)),
        packet_buffer::buffer_bytes(*final(bytes)) == packet_buffer::buffer_bytes(*old(bytes))
            + latency_part(ctr, sample_rate, latencies@),
{
    let ghost before = packet_buffer::buffer_bytes(*bytes);
    let flows_count: u16 = (latencies.len() % 0x10000) as u16;
    packet_buffer::put_u16(bytes, 24 + flows_count * 4);
    packet_buffer::put_u16(bytes, 0x8003);
    packet_buffer::put_u16(bytes, 4);
    packet_buffer::put_u16(bytes, 12 + flows_count * 4);
    packet_buffer::put_u16(bytes, ctr);
    packet_buffer::put_u16(bytes, 0);
    packet_buffer::put_u16(bytes, flows_count);
    packet_buffer::put_u16(bytes, 0);
    packet_buffer::put_u16(bytes, 24);
    packet_buffer::put_u16(bytes, 0);
    packet_buffer::put_u32(bytes, sample_rate);
    let ghost head = packet_buffer::buffer_bytes(*bytes);
    assert(latencies@.take(0) =~= Seq::empty());
    assert(head =~= head + latency_bytes(latencies@.take(0)));
    let mut i: usize = 0;
    while i < latencies.len()
        invariant
            packet_buffer::at_end(*bytes),
            i <= latencies@.len(),
            packet_buffer::buffer_bytes(*bytes) == head + latency_bytes(latencies@.take(i as int)),
        decreases latencies@.len() - i,
    {
        let latency: u32 = match latencies[i] {
            Some(samples) => if samples < 0 {
                0
            } else {
                samples as u32
            },
            None => 0,
        };
        packet_buffer::put_u32(bytes, latency);
        proof {
            assert(latencies@.take(i + 1).drop_last() =~= latencies@.take(i as int));
            wire::lemma_concat(
                head,
                latency_bytes(latencies@.take(i as int)),
                wire::be32(latency),
            );
        }
        i = i + 1;
    }
    assert(latencies@.take(i as int) =~= latencies@);
    assert(packet_buffer::buffer_bytes(*bytes) =~= before + latency_part(
        ctr,
        sample_rate,
        latencies@,
    ));
}

/// Makes the content of a heartbeat.
pub fn make_heartbeat(info: &DeviceInfo, ctr: u16, facts: &HeartbeatFacts) -> (content: Vec<u8>)
    requires
        heartbeat_served(*facts),
    ensures
        content@ == heartbeat_content(*info, ctr, *facts),
{
    let mut bytes = ByteBuffer::new();
    match facts.freq_offset {
        Some(freq_offset) => {
            put_frequency(&mut bytes, ctr, freq_offset);
            put_meters(&mut bytes, ctr);
            match &facts.rx_latencies {
                Some(latencies) => {
                    put_latencies(&mut bytes, ctr, info.sample_rate, latencies);
                },
                None => {},
            }
        },
        None => {},
    }
    let content: Vec<u8> = slice_to_vec(bytes.as_bytes());
    assert(content@ =~= heartbeat_content(*info, ctr, *facts));
    content
}

/// Makes the content of the message that tells the state of the clock.
pub fn make_clock_status(info: &DeviceInfo, freq_offset: i32, master_clock: &Vec<u8>) -> (content:
    Vec<u8>)
    ensures
        content@ == clock_status_content(*info, freq_offset, master_clock@),
{
    let mut clkstatus = ByteBuffer::new();
    packet_buffer::put_bytes(
        &mut clkstatus,
        [0x00u8, 0x03, 0x00, 0x03, 0x00, 0x00, 0x00, 0x9f].as_slice(),
    );
    packet_buffer::put_i32(&mut clkstatus, freq_offset);
    packet_buffer::put_bytes(&mut clkstatus, info.mac_address.as_slice());
    packet_buffer::put_u16(&mut clkstatus, 0);
    packet_buffer::put_bytes(&mut clkstatus, master_clock.as_slice());
    packet_buffer::put_bytes(&mut clkstatus, master_clock.as_slice());
    packet_buffer::put_bytes(&mut clkstatus, wire::zero_bytes(76).as_slice());
    let content: Vec<u8> = slice_to_vec(clkstatus.as_bytes());
    proof {
        assert([0x00u8, 0x03, 0x00, 0x03, 0x00, 0x00, 0x00, 0x9f]@ =~= seq![
            0x00u8,
            0x03,
            0x00,
            0x03,
            0x00,
            0x00,
            0x00,
            0x9f,
        ]);
        assert(content@ =~= clock_status_content(*info, freq_offset, master_clock@));
    }
    content
}

/// Makes the content of the message that tells the network settings.
pub fn make_network(info: &DeviceInfo) -> (content: Vec<u8>)
    ensures
        content@ == network_content(*info),
{
    let mut bytes = ByteBuffer::new();
    packet_buffer::put_bytes(
        &mut bytes,
        [0x00u8, 0x01, 0x00, 0x00, 0x00, 0x00, 0x00, 0x64, 0x00, 0x01].as_slice(),
    );
    packet_buffer::put_bytes(&mut bytes, info.mac_address.as_slice());
    packet_buffer::put_bytes(&mut bytes, info.ip_address.as_slice());
    packet_buffer::put_bytes(&mut bytes, info.netmask.as_slice());
    packet_buffer::put_bytes(&mut bytes, info.gateway.as_slice());
    packet_buffer::put_bytes(&mut bytes, info.gateway.as_slice());
    packet_buffer::put_bytes(&mut bytes, [0x00u8, 0x18, 0x00, 0x30].as_slice());
    packet_buffer::put_bytes(&mut bytes, wire::zero_bytes(28).as_slice());
    let content: Vec<u8> = slice_to_vec(bytes.as_bytes());
    proof {
        assert([0x00u8, 0x01, 0x00, 0x00, 0x00, 0x00, 0x00, 0x64, 0x00, 0x01]@ =~= seq![
            0x00u8,
            0x01,
            0x00,
            0x00,
            0x00,
            0x00,
            0x00,
            0x64,
            0x00,
            0x01,
        ]);
        assert([0x00u8, 0x18, 0x00, 0x30]@ =~= seq![0x00u8, 0x18, 0x00, 0x30]);
        assert(content@ =~= network_content(*info));
    }
    content
}

} // verus!
