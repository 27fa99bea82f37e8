//! Big-endian integers as byte sequences.
use vstd::prelude::*;

verus! {

/// The two bytes of `v`, most significant first.
pub open spec fn be16(v: u16) -> Seq<u8> {
    seq![(v / 256) as u8, (v % 256) as u8]
}

/// The four bytes of `v`, most significant first.
pub open spec fn be32(v: u32) -> Seq<u8> {
    be16((v / 0x10000) as u16) + be16((v % 0x10000) as u16)
}

/// The two's complement bit pattern of `v`.
pub open spec fn bits32(v: i32) -> u32 {
    if v < 0 {
        (v + 0x1_0000_0000) as u32
    } else {
        v as u32
    }
}

/// The low sixteen bits of `n`, which is what a truncating cast keeps.
pub open spec fn low16(n: int) -> u16 {
    (n % 0x10000) as u16
}

/// `n` zero bytes.
pub open spec fn zeros(n: nat) -> Seq<u8> {
    Seq::new(n, |i: int| 0u8)
}

/// The number that the two bytes `h` and `l` stand for, most significant first.
pub open spec fn u16_of(h: u8, l: u8) -> u16 {
    (h * 256 + l) as u16
}

/// Two bytes as a number, most significant first.
pub fn make_u16(h: u8, l: u8) -> (v: u16)
    ensures
        v == u16_of(h, l),
        v == h * 256 + l,
{
    h as u16 * 256 + l as u16
}

/// The high byte of `v`.
#[allow(non_snake_case)]
pub fn H(v: u16) -> (b: u8)
    ensures
        b == be16(v)[0],
{
    (v / 256) as u8
}

/// The low byte of `v`.
#[allow(non_snake_case)]
pub fn L(v: u16) -> (b: u8)
    ensures
        b == be16(v)[1],
{
    (v % 256) as u8
}

/// Splitting a number into two bytes and joining them gives the number back.
pub proof fn u16_survives_be16(v: u16)
    ensures
        u16_of(be16(v)[0], be16(v)[1]) == v,
{
}

/// The numbers of `values` one after the other, two bytes each.
pub open spec fn be16s(values: Seq<u16>) -> Seq<u8>
    decreases values.len(),
{
    if values.len() == 0 {
        Seq::empty()
    } else {
        be16s(values.drop_last()) + be16(values.last())
    }
}

/// Appends the two bytes of `v`.
pub(crate) fn push16(out: &mut Vec<u8>, v: u16)
    ensures
        final(out)@ == old(out)@ + be16(v),
{
    out.push((v / 256) as u8);
    out.push((v % 256) as u8);
}

/// Appends the four bytes of `v`.
pub(crate) fn push32(out: &mut Vec<u8>, v: u32)
    ensures
        final(out)@ == old(out)@ + be32(v),
{
    push16(out, (v / 0x10000) as u16);
    push16(out, (v % 0x10000) as u16);
}

/// Appends the numbers of `values`, two bytes each.
pub(crate) fn push16s(out: &mut Vec<u8>, values: &[u16])
    ensures
        final(out)@ == old(out)@ + be16s(values@),
{
    let mut i: usize = 0;
    while i < values.len()
        invariant
            i <= values@.len(),
            out@ == old(out)@ + be16s(values@.take(i as int)),
        decreases values@.len() - i,
    {
        push16(out, values[i]);
        assert(values@.take(i + 1).drop_last() =~= values@.take(i as int));
        i = i + 1;
    }
    assert(values@.take(i as int) =~= values@);
}

/// Two bytes for each number.
pub proof fn lemma_be16s_len(values: Seq<u16>)
    ensures
        be16s(values).len() == 2 * values.len(),
    decreases values.len(),
{
    if values.len() > 0 {
        lemma_be16s_len(values.drop_last());
    }
}

/// Zeros encode to zero bytes.
pub(crate) proof fn lemma_be16s_zeros(values: Seq<u16>)
    requires
        forall|i: int| 0 <= i < values.len() ==> values[i] == 0,
    ensures
        be16s(values) == zeros(2 * values.len()),
    decreases values.len(),
{
    if values.len() > 0 {
        lemma_be16s_zeros(values.drop_last());
    }
    assert(be16s(values) =~= zeros(2 * values.len()));
}

/// `n` zero bytes.
pub(crate) fn zero_bytes(n: usize) -> (out: Vec<u8>)
    ensures
        out@ == zeros(n as nat),
{
    let mut out: Vec<u8> = Vec::new();
    while out.len() < n
        invariant
            out@ == zeros(out@.len()),
            out@.len() <= n,
        decreases n - out@.len(),
    {
        out.push(0);
    }
    out
}

/// Concatenation is associative.
pub(crate) proof fn lemma_concat(a: Seq<u8>, b: Seq<u8>, c: Seq<u8>)
    ensures
        (a + b) + c == a + (b + c),
{
    assert((a + b) + c =~= a + (b + c));
}

} // verus!
