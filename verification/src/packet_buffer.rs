//! What `bytebuffer::ByteBuffer` does, as far as this crate relies on it.
//!
//! The buffer comes from an outside crate and its code is not verified here: each
//! `assume_specification` below is believed.
use bytebuffer::ByteBuffer;
use vstd::prelude::*;

use crate::text;
use crate::wire;

verus! {

/// `bytebuffer::ByteBuffer`, opaque: a growing byte array with a write position.
#[verifier::external_type_specification]
#[verifier::external_body]
pub struct ExByteBuffer(ByteBuffer);

/// The bytes that a buffer holds.
pub uninterp spec fn buffer_bytes(buffer: ByteBuffer) -> Seq<u8>;

/// Where the next write goes, for a buffer with big-endian byte order that is not in
/// the middle of a bitwise write; `None` for any other.
pub uninterp spec fn buffer_cursor(buffer: ByteBuffer) -> Option<nat>;

/// The buffer accepts writes and its write position lies within its bytes.
pub open spec fn writable(buffer: ByteBuffer) -> bool {
    buffer_cursor(buffer) matches Some(at) && at <= buffer_bytes(buffer).len()
}

/// The buffer accepts writes and its write position is behind its last byte.
pub open spec fn at_end(buffer: ByteBuffer) -> bool {
    buffer_cursor(buffer) == Some(buffer_bytes(buffer).len())
}

/// `bytes` with what stands from `at` on replaced by `data`, grown where `data` reaches
/// beyond the end.
pub open spec fn overwritten(bytes: Seq<u8>, at: nat, data: Seq<u8>) -> Seq<u8> {
    if at + data.len() >= bytes.len() {
        bytes.take(at as int) + data
    } else {
        bytes.take(at as int) + data + bytes.skip((at + data.len()) as int)
    }
}

/// `after` is `before` once `data` is written at its write position.
pub open spec fn wrote(before: ByteBuffer, after: ByteBuffer, data: Seq<u8>) -> bool {
    &&& buffer_bytes(after) == overwritten(buffer_bytes(before), buffer_cursor(before)->0, data)
    &&& buffer_cursor(after) == Some((buffer_cursor(before)->0 + data.len()) as nat)
}

/// `ByteBuffer::new` gives an empty big-endian buffer.
pub assume_specification[ ByteBuffer::new ]() -> (buffer: ByteBuffer)
    ensures
        buffer_bytes(buffer) == Seq::<u8>::empty(),
        buffer_cursor(buffer) == Some(0nat),
;

/// `ByteBuffer::write_bytes` puts the bytes at the write position, growing the buffer where
/// they reach beyond its end, and moves the position behind them.
pub assume_specification[ ByteBuffer::write_bytes ](buffer: &mut ByteBuffer, bytes: &[u8])
    requires
        writable(*old(buffer)),
    ensures
        wrote(*old(buffer), *final(buffer), bytes@),
;

/// `ByteBuffer::write_u8` writes one byte.
pub assume_specification[ ByteBuffer::write_u8 ](buffer: &mut ByteBuffer, val: u8)
    requires
        writable(*old(buffer)),
    ensures
        wrote(*old(buffer), *final(buffer), seq![val]),
;

/// `ByteBuffer::write_u16` writes two bytes, most significant first in a big-endian buffer.
pub assume_specification[ ByteBuffer::write_u16 ](buffer: &mut ByteBuffer, val: u16)
    requires
        writable(*old(buffer)),
    ensures
        wrote(*old(buffer), *final(buffer), wire::be16(val)),
;

/// `ByteBuffer::write_u32` writes four bytes, most significant first in a big-endian buffer.
pub assume_specification[ ByteBuffer::write_u32 ](buffer: &mut ByteBuffer, val: u32)
    requires
        writable(*old(buffer)),
    ensures
        wrote(*old(buffer), *final(buffer), wire::be32(val)),
;

/// `ByteBuffer::write_i32` writes the two's complement pattern of the number as `write_u32` does.
pub assume_specification[ ByteBuffer::write_i32 ](buffer: &mut ByteBuffer, val: i32)
    requires
        writable(*old(buffer)),
    ensures
        wrote(*old(buffer), *final(buffer), wire::be32(wire::bits32(val))),
;

/// `ByteBuffer::get_wpos` gives the write position. It is at most the length of the vector that
/// holds the bytes, and no vector is longer than `isize::MAX` bytes.
pub assume_specification[ ByteBuffer::get_wpos ](buffer: &ByteBuffer) -> (at: usize)
    requires
        writable(*buffer),
    ensures
        Some(at as nat) == buffer_cursor(*buffer),
        at <= isize::MAX,
;

/// `ByteBuffer::set_wpos` moves the write position, but not beyond the end, and keeps the bytes.
pub assume_specification[ ByteBuffer::set_wpos ](buffer: &mut ByteBuffer, wpos: usize)
    requires
        writable(*old(buffer)),
    ensures
        buffer_bytes(*final(buffer)) == buffer_bytes(*old(buffer)),
        buffer_cursor(*final(buffer)) == Some(
            if wpos <= buffer_bytes(*old(buffer)).len() {
                wpos as nat
            } else {
                buffer_bytes(*old(buffer)).len()
            },
        ),
;

/// `ByteBuffer::as_bytes` shows the bytes.
pub assume_specification[ ByteBuffer::as_bytes ](buffer: &ByteBuffer) -> (bytes: &[u8])
    ensures
        bytes@ == buffer_bytes(*buffer),
;

/// Writing at the end appends.
pub proof fn lemma_append(before: ByteBuffer, after: ByteBuffer, data: Seq<u8>)
    requires
        at_end(before),
        wrote(before, after, data),
    ensures
        at_end(after),
        buffer_bytes(after) == buffer_bytes(before) + data,
{
    assert(buffer_bytes(before).take(buffer_bytes(before).len() as int) =~= buffer_bytes(before));
}

/// Appends `bytes`.
pub(crate) fn put_bytes(buffer: &mut ByteBuffer, bytes: &[u8])
    requires
        at_end(*old(buffer)),
    ensures
        at_end(*final(buffer)),
        buffer_bytes(*final(buffer)) == buffer_bytes(*old(buffer)) + bytes@,
{
    buffer.write_bytes(bytes);
    proof {
        lemma_append(*old(buffer), *buffer, bytes@);
    }
}

/// Appends one byte.
pub(crate) fn put_u8(buffer: &mut ByteBuffer, val: u8)
    requires
        at_end(*old(buffer)),
    ensures
        at_end(*final(buffer)),
        buffer_bytes(*final(buffer)) == buffer_bytes(*old(buffer)) + seq![val],
{
    buffer.write_u8(val);
    proof {
        lemma_append(*old(buffer), *buffer, seq![val]);
    }
}

/// Appends a number as two bytes.
pub(crate) fn put_u16(buffer: &mut ByteBuffer, val: u16)
    requires
        at_end(*old(buffer)),
    ensures
        at_end(*final(buffer)),
        buffer_bytes(*final(buffer)) == buffer_bytes(*old(buffer)) + wire::be16(val),
{
    buffer.write_u16(val);
    proof {
        lemma_append(*old(buffer), *buffer, wire::be16(val));
    }
}

/// Appends a number as four bytes.
pub(crate) fn put_u32(buffer: &mut ByteBuffer, val: u32)
    requires
        at_end(*old(buffer)),
    ensures
        at_end(*final(buffer)),
        buffer_bytes(*final(buffer)) == buffer_bytes(*old(buffer)) + wire::be32(val),
{
    buffer.write_u32(val);
    proof {
        lemma_append(*old(buffer), *buffer, wire::be32(val));
    }
}

/// Appends a signed number as four bytes.
pub(crate) fn put_i32(buffer: &mut ByteBuffer, val: i32)
    requires
        at_end(*old(buffer)),
    ensures
        at_end(*final(buffer)),
        buffer_bytes(*final(buffer)) == buffer_bytes(*old(buffer)) + wire::be32(wire::bits32(val)),
{
    buffer.write_i32(val);
    proof {
        lemma_append(*old(buffer), *buffer, wire::be32(wire::bits32(val)));
    }
}

/// Appends `text` and a zero byte.
pub(crate) fn put_text(buffer: &mut ByteBuffer, text: &str)
    requires
        at_end(*old(buffer)),
    ensures
        at_end(*final(buffer)),
        buffer_bytes(*final(buffer)) == buffer_bytes(*old(buffer)) + text::zero_terminated(text@),
{
    put_bytes(buffer, text.as_bytes());
    put_u8(buffer, 0);
    assert(buffer_bytes(*buffer) =~= buffer_bytes(*old(buffer)) + text::zero_terminated(text@));
}

/// Appends `text` and a zero byte, and returns the offset at which the text starts.
pub(crate) fn write_0term_str_to_bytebuffer(buffer: &mut ByteBuffer, text: &str) -> (offset: u16)
    requires
        at_end(*old(buffer)),
        buffer_bytes(*old(buffer)).len() <= u16::MAX,
    ensures
        at_end(*final(buffer)),
        buffer_bytes(*final(buffer)) == buffer_bytes(*old(buffer)) + text::zero_terminated(text@),
        offset == buffer_bytes(*old(buffer)).len(),
{
    let offset: usize = buffer.get_wpos();
    put_text(buffer, text);
    offset as u16
}

} // verus!
