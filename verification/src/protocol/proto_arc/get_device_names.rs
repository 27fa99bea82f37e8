//! The names of the device and of its board.
use vstd::prelude::*;

use crate::wire;

verus! {

pub const OPCODE: u16 = 0x1003;

/// Offsets of the names, from the start of the packet.
#[derive(Debug, Clone, Copy, PartialEq, Eq)]
pub struct ResponseHeader {
    pub unknown1_0: u16,
    pub unknown2_0: u16,
    pub unknown3_0: u16,
    pub board_name_offset: u16,
    pub revision_string_offset: u16,
    pub unknown4_0: u16,
    pub friendly_hostname_offset1: u16,
    pub factory_hostname_offset: u16,
    pub friendly_hostname_offset2: u16,
    pub unknown5_0: [u16; 6],
    pub start_code: u16,
    pub unknown6_0: u16,
    pub unknown_opcode_1102: u16,
    pub unknown7_0: u16,
}

impl ResponseHeader {
    /// The fields in order, big-endian.
    pub open spec fn encoded(&self) -> Seq<u8> {
        wire::be16(self.unknown1_0)
            + wire::be16(self.unknown2_0)
            + wire::be16(self.unknown3_0)
            + wire::be16(self.board_name_offset)
            + wire::be16(self.revision_string_offset)
            + wire::be16(self.unknown4_0)
            + wire::be16(self.friendly_hostname_offset1)
            + wire::be16(self.factory_hostname_offset)
            + wire::be16(self.friendly_hostname_offset2)
            + wire::be16s(self.unknown5_0@)
            + wire::be16(self.start_code)
            + wire::be16(self.unknown6_0)
            + wire::be16(self.unknown_opcode_1102)
            + wire::be16(self.unknown7_0)
    }

    pub fn serialize(&self) -> (out: Vec<u8>)
        ensures
            out@ == self.encoded(),
            out@.len() == 38,
    {
        let mut out: Vec<u8> = Vec::new();
        wire::push16(&mut out, self.unknown1_0);
        assert(out@ =~= wire::be16(self.unknown1_0));
        wire::push16(&mut out, self.unknown2_0);
        wire::push16(&mut out, self.unknown3_0);
        wire::push16(&mut out, self.board_name_offset);
        wire::push16(&mut out, self.revision_string_offset);
        wire::push16(&mut out, self.unknown4_0);
        wire::push16(&mut out, self.friendly_hostname_offset1);
        wire::push16(&mut out, self.factory_hostname_offset);
        wire::push16(&mut out, self.friendly_hostname_offset2);
        wire::push16s(&mut out, self.unknown5_0.as_slice());
        wire::push16(&mut out, self.start_code);
        wire::push16(&mut out, self.unknown6_0);
        wire::push16(&mut out, self.unknown_opcode_1102);
        wire::push16(&mut out, self.unknown7_0);
        proof {
            self.lemma_len();
        }
        out
    }

    /// The size of the encoding.
    pub proof fn lemma_len(&self)
        ensures
            self.encoded().len() == 38,
    {
        wire::lemma_be16s_len(self.unknown5_0@);
    }
}

impl Default for ResponseHeader {
    fn default() -> (r: Self)
        ensures
            r.unknown1_0 == 0,
            r.unknown2_0 == 0,
            r.unknown3_0 == 0,
            r.board_name_offset == 0,
            r.revision_string_offset == 0,
            r.unknown4_0 == 0,
            r.friendly_hostname_offset1 == 0,
            r.factory_hostname_offset == 0,
            r.friendly_hostname_offset2 == 0,
            forall|i: int| 0 <= i < 6 ==> r.unknown5_0@[i] == 0,
            r.start_code == 0,
            r.unknown6_0 == 0,
            r.unknown_opcode_1102 == 0,
            r.unknown7_0 == 0,
    {
        ResponseHeader {
            unknown1_0: 0,
            unknown2_0: 0,
            unknown3_0: 0,
            board_name_offset: 0,
            revision_string_offset: 0,
            unknown4_0: 0,
            friendly_hostname_offset1: 0,
            factory_hostname_offset: 0,
            friendly_hostname_offset2: 0,
            unknown5_0: [0; 6],
            start_code: 0,
            unknown6_0: 0,
            unknown_opcode_1102: 0,
            unknown7_0: 0,
        }
    }
}

} // verus!
