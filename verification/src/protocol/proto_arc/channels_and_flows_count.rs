//! How many channels and flows the device has.
use vstd::prelude::*;

use crate::wire;

verus! {

pub const OPCODE: u16 = 0x1000;

/// A byte of flags, the first field in its lowest bits.
#[derive(Debug, Clone, Copy, PartialEq, Eq, Structural)]
pub struct Flags2 {
    /// Four bits.
    pub unknown1_0: u8,
    pub supports_tx_channel_rename: bool,
    /// Three bits.
    pub unknown2_0: u8,
}

impl Flags2 {
    /// The byte that carries the flags: four bits, one bit and three bits, from the lowest bit up.
    pub open spec fn encoded(&self) -> u8 {
        (self.unknown1_0 % 16 + (if self.supports_tx_channel_rename {
            16int
        } else {
            0
        }) + (self.unknown2_0 % 8) * 32) as u8
    }

    pub fn serialize(&self) -> (byte: u8)
        ensures
            byte == self.encoded(),
    {
        self.unknown1_0 % 16 + (if self.supports_tx_channel_rename {
            16u8
        } else {
            0
        }) + (self.unknown2_0 % 8) * 32
    }
}

impl Default for Flags2 {
    fn default() -> (r: Self)
        ensures
            r.unknown1_0 == 0,
            !r.supports_tx_channel_rename,
            r.unknown2_0 == 0,
    {
        Flags2 { unknown1_0: 0, supports_tx_channel_rename: false, unknown2_0: 0 }
    }
}

#[derive(Debug, Clone, Copy, PartialEq, Eq)]
pub struct Response {
    pub unknown1_0: u8,
    pub flags2: Flags2,
    pub tx_channels_count: u16,
    pub rx_channels_count: u16,
    pub unknown2_4: u16,
    pub unknown3_4: u16,
    pub unknown4_8: u16,
    pub max_tx_flows: u16,
    pub max_rx_flows: u16,
    pub unknown5_total_channels: u16,
    pub unknown6_1: u16,
    pub unknown7_1: u16,
    pub unknown8_0: [u16; 6],
}

impl Response {
    /// The fields in order, big-endian.
    pub open spec fn encoded(&self) -> Seq<u8> {
        seq![self.unknown1_0, self.flags2.encoded()] + wire::be16(self.tx_channels_count)
            + wire::be16(self.rx_channels_count) + wire::be16(self.unknown2_4) + wire::be16(
            self.unknown3_4,
        ) + wire::be16(self.unknown4_8) + wire::be16(self.max_tx_flows) + wire::be16(
            self.max_rx_flows,
        ) + wire::be16(self.unknown5_total_channels) + wire::be16(self.unknown6_1) + wire::be16(
            self.unknown7_1,
        ) + wire::be16s(self.unknown8_0@)
    }

    pub fn serialize(&self) -> (out: Vec<u8>)
        ensures
            out@ == self.encoded(),
    {
        let mut out: Vec<u8> = Vec::new();
        out.push(self.unknown1_0);
        out.push(self.flags2.serialize());
        assert(out@ =~= seq![self.unknown1_0, self.flags2.encoded()]);
        wire::push16(&mut out, self.tx_channels_count);
        wire::push16(&mut out, self.rx_channels_count);
        wire::push16(&mut out, self.unknown2_4);
        wire::push16(&mut out, self.unknown3_4);
        wire::push16(&mut out, self.unknown4_8);
        wire::push16(&mut out, self.max_tx_flows);
        wire::push16(&mut out, self.max_rx_flows);
        wire::push16(&mut out, self.unknown5_total_channels);
        wire::push16(&mut out, self.unknown6_1);
        wire::push16(&mut out, self.unknown7_1);
        wire::push16s(&mut out, self.unknown8_0.as_slice());
        out
    }
}

impl Default for Response {
    fn default() -> (r: Self)
        ensures
            r.unknown1_0 == 0,
            r.flags2.encoded() == 0,
            r.tx_channels_count == 0,
            r.rx_channels_count == 0,
            r.unknown2_4 == 0,
            r.unknown3_4 == 0,
            r.unknown4_8 == 0,
            r.max_tx_flows == 0,
            r.max_rx_flows == 0,
            r.unknown5_total_channels == 0,
            r.unknown6_1 == 0,
            r.unknown7_1 == 0,
            forall|i: int| 0 <= i < 6 ==> r.unknown8_0@[i] == 0,
    {
        Response {
            unknown1_0: 0,
            flags2: Flags2::default(),
            tx_channels_count: 0,
            rx_channels_count: 0,
            unknown2_4: 0,
            unknown3_4: 0,
            unknown4_8: 0,
            max_tx_flows: 0,
            max_rx_flows: 0,
            unknown5_total_channels: 0,
            unknown6_1: 0,
            unknown7_1: 0,
            unknown8_0: [0; 6],
        }
    }
}

} // verus!
