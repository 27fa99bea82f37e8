//! Receive channels and what they are subscribed to.
use vstd::prelude::*;

use crate::device_info::DeviceInfo;
use crate::wire;

verus! {

pub const OPCODE: u16 = 0x3000;

/// A receive channel.
#[derive(Debug, Clone, Copy, PartialEq, Eq)]
pub struct ChannelDescriptor {
    pub channel_id: u16,
    pub unknown1_6: u16,
    pub common_descriptor_offset: u16,
    pub tx_channel_name_offset: u16,
    pub tx_hostname_offset: u16,
    pub friendly_name_offset: u16,
    pub subscription_status: u32,
    pub unknown2_0: u32,
}

impl ChannelDescriptor {
    /// The fields in order, big-endian.
    pub open spec fn encoded(&self) -> Seq<u8> {
        wire::be16(self.channel_id)
            + wire::be16(self.unknown1_6)
            + wire::be16(self.common_descriptor_offset)
            + wire::be16(self.tx_channel_name_offset)
            + wire::be16(self.tx_hostname_offset)
            + wire::be16(self.friendly_name_offset)
            + wire::be32(self.subscription_status)
            + wire::be32(self.unknown2_0)
    }

    pub fn serialize(&self) -> (out: Vec<u8>)
        ensures
            out@ == self.encoded(),
            out@.len() == 20,
    {
        let mut out: Vec<u8> = Vec::new();
        wire::push16(&mut out, self.channel_id);
        assert(out@ =~= wire::be16(self.channel_id));
        wire::push16(&mut out, self.unknown1_6);
        wire::push16(&mut out, self.common_descriptor_offset);
        wire::push16(&mut out, self.tx_channel_name_offset);
        wire::push16(&mut out, self.tx_hostname_offset);
        wire::push16(&mut out, self.friendly_name_offset);
        wire::push32(&mut out, self.subscription_status);
        wire::push32(&mut out, self.unknown2_0);
        proof {
            self.lemma_len();
        }
        out
    }

    /// The size of the encoding.
    pub proof fn lemma_len(&self)
        ensures
            self.encoded().len() == 20,
    {
    }
}

impl Default for ChannelDescriptor {
    fn default() -> (r: Self)
        ensures
            r.channel_id == 0,
            r.unknown1_6 == 0,
            r.common_descriptor_offset == 0,
            r.tx_channel_name_offset == 0,
            r.tx_hostname_offset == 0,
            r.friendly_name_offset == 0,
            r.subscription_status == 0,
            r.unknown2_0 == 0,
    {
        ChannelDescriptor {
            channel_id: 0,
            unknown1_6: 0,
            common_descriptor_offset: 0,
            tx_channel_name_offset: 0,
            tx_hostname_offset: 0,
            friendly_name_offset: 0,
            subscription_status: 0,
            unknown2_0: 0,
        }
    }
}

/// What all channels of the device share.
#[derive(Debug, Clone, Copy, PartialEq, Eq)]
pub struct CommonDescriptor {
    pub sample_rate: u32,
    pub unknown1_1: u8,
    pub unknown2_1: u8,
    pub bits_per_sample_1: u16,
    pub unknown3_400: u16,
    pub bits_per_sample_2: u16,
    pub bits_per_sample_3: u16,
    pub pcm_type: u16,
}

impl CommonDescriptor {
    /// The descriptor of the channels of the device.
    pub open spec fn of_device(info: DeviceInfo) -> CommonDescriptor {
        CommonDescriptor {
            sample_rate: info.sample_rate,
            unknown1_1: 1,
            unknown2_1: 1,
            bits_per_sample_1: info.bits_per_sample as u16,
            unknown3_400: 0x400,
            bits_per_sample_2: info.bits_per_sample as u16,
            bits_per_sample_3: info.bits_per_sample as u16,
            pcm_type: info.pcm_type as u16,
        }
    }

    pub fn new(self_info: &DeviceInfo) -> (r: Self)
        ensures
            r == Self::of_device(*self_info),
    {
        CommonDescriptor {
            sample_rate: self_info.sample_rate,
            unknown1_1: 1,
            unknown2_1: 1,
            bits_per_sample_1: self_info.bits_per_sample as u16,
            unknown3_400: 0x400,
            bits_per_sample_2: self_info.bits_per_sample as u16,
            bits_per_sample_3: self_info.bits_per_sample as u16,
            pcm_type: self_info.pcm_type as u16,
        }
    }

    /// The fields in order, big-endian.
    pub open spec fn encoded(&self) -> Seq<u8> {
        wire::be32(self.sample_rate)
            + seq![self.unknown1_1]
            + seq![self.unknown2_1]
            + wire::be16(self.bits_per_sample_1)
            + wire::be16(self.unknown3_400)
            + wire::be16(self.bits_per_sample_2)
            + wire::be16(self.bits_per_sample_3)
            + wire::be16(self.pcm_type)
    }

    pub fn serialize(&self) -> (out: Vec<u8>)
        ensures
            out@ == self.encoded(),
            out@.len() == 16,
    {
        let mut out: Vec<u8> = Vec::new();
        wire::push32(&mut out, self.sample_rate);
        assert(out@ =~= wire::be32(self.sample_rate));
        out.push(self.unknown1_1);
        assert(out@ =~= wire::be32(self.sample_rate) + seq![self.unknown1_1]);
        out.push(self.unknown2_1);
        assert(out@ =~= wire::be32(self.sample_rate) + seq![self.unknown1_1] + seq![
            self.unknown2_1,
        ]);
        wire::push16(&mut out, self.bits_per_sample_1);
        wire::push16(&mut out, self.unknown3_400);
        wire::push16(&mut out, self.bits_per_sample_2);
        wire::push16(&mut out, self.bits_per_sample_3);
        wire::push16(&mut out, self.pcm_type);
        proof {
            self.lemma_len();
        }
        out
    }

    /// The size of the encoding.
    pub proof fn lemma_len(&self)
        ensures
            self.encoded().len() == 16,
    {
    }
}

impl Default for CommonDescriptor {
    fn default() -> (r: Self)
        ensures
            r.sample_rate == 0,
            r.unknown1_1 == 0,
            r.unknown2_1 == 0,
            r.bits_per_sample_1 == 0,
            r.unknown3_400 == 0,
            r.bits_per_sample_2 == 0,
            r.bits_per_sample_3 == 0,
            r.pcm_type == 0,
    {
        CommonDescriptor {
            sample_rate: 0,
            unknown1_1: 0,
            unknown2_1: 0,
            bits_per_sample_1: 0,
            unknown3_400: 0,
            bits_per_sample_2: 0,
            bits_per_sample_3: 0,
            pcm_type: 0,
        }
    }
}

} // verus!
