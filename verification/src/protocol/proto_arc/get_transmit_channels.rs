//! Transmit channels under the names they were made with.
use vstd::prelude::*;

use crate::wire;

verus! {

pub const OPCODE: u16 = 0x2000;

/// A transmit channel.
#[derive(Debug, Clone, Copy, PartialEq, Eq)]
pub struct ChannelDescriptor {
    pub channel_id: u16,
    pub unknown1_7: u16,
    pub common_descriptor_offset: u16,
    pub name_offset: u16,
}

impl ChannelDescriptor {
    /// The fields in order, big-endian.
    pub open spec fn encoded(&self) -> Seq<u8> {
        wire::be16(self.channel_id)
            + wire::be16(self.unknown1_7)
            + wire::be16(self.common_descriptor_offset)
            + wire::be16(self.name_offset)
    }

    pub fn serialize(&self) -> (out: Vec<u8>)
        ensures
            out@ == self.encoded(),
            out@.len() == 8,
    {
        let mut out: Vec<u8> = Vec::new();
        wire::push16(&mut out, self.channel_id);
        assert(out@ =~= wire::be16(self.channel_id));
        wire::push16(&mut out, self.unknown1_7);
        wire::push16(&mut out, self.common_descriptor_offset);
        wire::push16(&mut out, self.name_offset);
        proof {
            self.lemma_len();
        }
        out
    }

    /// The size of the encoding.
    pub proof fn lemma_len(&self)
        ensures
            self.encoded().len() == 8,
    {
    }
}

} // verus!
