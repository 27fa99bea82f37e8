//! Numbers in bytes, as a reader computes them.
use vstd::prelude::*;
use vstd::utf8::*;

use crate::arc_server::flow_lists;
use crate::text;
use crate::wire;

verus! {

/// The number in the two bytes at `at`, the first byte counting 256 times.
pub open spec fn number16(bytes: Seq<u8>, at: int) -> int {
    bytes[at] * 256 + bytes[at + 1]
}

/// The number in the four bytes at `at`, the first byte counting most.
pub open spec fn number32(bytes: Seq<u8>, at: int) -> int {
    bytes[at] * 0x100_0000 + bytes[at + 1] * 0x1_0000 + bytes[at + 2] * 0x100 + bytes[at + 3]
}

/// The number in the four bytes at `at`, where the upper half of the range stands for negative
/// numbers.
pub open spec fn signed32(bytes: Seq<u8>, at: int) -> int {
    if bytes[at] >= 0x80 {
        number32(bytes, at) - 0x1_0000_0000
    } else {
        number32(bytes, at)
    }
}

/// All `n` bytes from `at` on are zero.
pub open spec fn zero_from(bytes: Seq<u8>, at: int, n: int) -> bool {
    forall|i: int| at <= i < at + n ==> #[trigger] bytes[i] == 0
}

/// The bytes of `text`, with a zero byte behind them, stand at `at`.
pub open spec fn spells(bytes: Seq<u8>, at: int, text: Seq<char>) -> bool {
    let raw = encode_utf8(text);
    &&& 0 <= at
    &&& at + raw.len() < bytes.len()
    &&& bytes.subrange(at, at + raw.len()) == raw
    &&& bytes[at + raw.len()] == 0
}

/// A zero-terminated text spells itself where it stands.
pub(crate) proof fn lemma_spells(bytes: Seq<u8>, at: int, text: Seq<char>)
    requires
        flow_lists::stands_at(bytes, at, text::zero_terminated(text)),
    ensures
        spells(bytes, at, text),
{
    let raw = encode_utf8(text);
    let part = text::zero_terminated(text);
    assert(part.len() == raw.len() + 1);
    lemma_in_part(bytes, at, part);
    assert forall|j: int| 0 <= j < raw.len() implies bytes[at + j] == raw[j] by {
        assert(part[j] == bytes[at + j]);
    }
    assert(bytes.subrange(at, at + raw.len()) =~= raw);
    assert(part[raw.len() as int] == bytes[at + raw.len()]);
}

/// What was encoded in two bytes is the number that they are read as.
pub proof fn two_bytes_read_as_their_number(v: u16)
    ensures
        wire::be16(v).len() == 2,
        number16(wire::be16(v), 0) == v,
{
}

/// What was encoded in four bytes is the number that they are read as.
pub proof fn four_bytes_read_as_their_number(v: u32)
    ensures
        wire::be32(v).len() == 4,
        number32(wire::be32(v), 0) == v,
{
    let hi = (v / 0x10000) as u16;
    let lo = (v % 0x10000) as u16;
    assert(wire::be32(v) =~= seq![
        (hi / 256) as u8,
        (hi % 256) as u8,
        (lo / 256) as u8,
        (lo % 256) as u8,
    ]);
    assert(v == hi * 0x10000 + lo);
}

/// A signed number is read as what it is.
pub proof fn four_bytes_read_as_their_signed_number(v: i32)
    ensures
        signed32(wire::be32(wire::bits32(v)), 0) == v,
{
    four_bytes_read_as_their_number(wire::bits32(v));
    let b = wire::be32(wire::bits32(v));
    assert(number32(b, 0) < 0x8000_0000 <==> b[0] < 0x80);
}

/// Two bytes that were encoded are read as their number wherever they stand.
pub(crate) proof fn lemma_read16(bytes: Seq<u8>, at: int, v: u16)
    requires
        bytes[at] == wire::be16(v)[0],
        bytes[at + 1] == wire::be16(v)[1],
    ensures
        number16(bytes, at) == v,
{
}

/// Four bytes that were encoded are read as their number wherever they stand.
pub(crate) proof fn lemma_read32(bytes: Seq<u8>, at: int, v: u32)
    requires
        bytes[at] == wire::be32(v)[0],
        bytes[at + 1] == wire::be32(v)[1],
        bytes[at + 2] == wire::be32(v)[2],
        bytes[at + 3] == wire::be32(v)[3],
    ensures
        number32(bytes, at) == v,
{
    four_bytes_read_as_their_number(v);
}

/// What is read in a part is read where the part stands.
pub(crate) proof fn lemma_in_part(bytes: Seq<u8>, at: int, part: Seq<u8>)
    requires
        flow_lists::stands_at(bytes, at, part),
    ensures
        forall|j: int| 0 <= j < part.len() ==> #[trigger] part[j] == bytes[at + j],
        forall|j: int|
            0 <= j && j + 2 <= part.len() ==> #[trigger] number16(part, j) == number16(
                bytes,
                at + j,
            ),
        forall|j: int|
            0 <= j && j + 4 <= part.len() ==> #[trigger] number32(part, j) == number32(
                bytes,
                at + j,
            ),
{
    assert forall|j: int| 0 <= j < part.len() implies #[trigger] part[j] == bytes[at + j] by {
        assert(bytes.subrange(at, at + part.len())[j] == bytes[at + j]);
    }
}

/// Numbers of two bytes each are read one after the other.
pub(crate) proof fn lemma_read16s(values: Seq<u16>, i: int)
    requires
        0 <= i < values.len(),
    ensures
        wire::be16s(values).len() == 2 * values.len(),
        number16(wire::be16s(values), 2 * i) == values[i],
    decreases values.len(),
{
    wire::lemma_be16s_len(values);
    let some = values.drop_last();
    wire::lemma_be16s_len(some);
    if i < some.len() {
        lemma_read16s(some, i);
        assert(wire::be16s(values)[2 * i] == wire::be16s(some)[2 * i]);
        assert(wire::be16s(values)[2 * i + 1] == wire::be16s(some)[2 * i + 1]);
    } else {
        assert(wire::be16s(values)[2 * i] == wire::be16(values[i])[0]);
        assert(wire::be16s(values)[2 * i + 1] == wire::be16(values[i])[1]);
    }
}

} // verus!
