//! Transmit channels under the names their user gave them.
use vstd::prelude::*;

use crate::wire;

verus! {

pub const OPCODE: u16 = 0x2010;

/// A transmit channel.
#[derive(Debug, Clone, Copy, PartialEq, Eq)]
pub struct ChannelDescriptor {
    pub channel_id_1: u16,
    pub channel_id_2: u16,
    pub friendly_name_offset: u16,
}

impl ChannelDescriptor {
    /// The fields in order, big-endian.
    pub open spec fn encoded(&self) -> Seq<u8> {
        wire::be16(self.channel_id_1)
            + wire::be16(self.channel_id_2)
            + wire::be16(self.friendly_name_offset)
    }

    pub fn serialize(&self) -> (out: Vec<u8>)
        ensures
            out@ == self.encoded(),
            out@.len() == 6,
    {
        let mut out: Vec<u8> = Vec::new();
        wire::push16(&mut out, self.channel_id_1);
        assert(out@ =~= wire::be16(self.channel_id_1));
        wire::push16(&mut out, self.channel_id_2);
        wire::push16(&mut out, self.friendly_name_offset);
        proof {
            self.lemma_len();
        }
        out
    }

    /// The size of the encoding.
    pub proof fn lemma_len(&self)
        ensures
            self.encoded().len() == 6,
    {
    }
}

} // verus!
