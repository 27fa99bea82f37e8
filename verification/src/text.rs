//! Numbers as text, and text inside packets.
use vstd::prelude::*;
use vstd::string::*;
use vstd::utf8::*;

verus! {

/// The lower-case digit for `d`, as hexadecimal and every smaller base write it.
pub open spec fn digit_char(d: nat) -> char {
    if d < 10 {
        (48 + d) as char
    } else {
        (87 + d) as char
    }
}

/// `n` written in `base`, most significant digit first, without leading zeros.
pub open spec fn in_base(n: nat, base: nat) -> Seq<char>
    decreases n,
{
    if base < 2 || n < base {
        seq![digit_char(n)]
    } else {
        proof {
            assert(n / base < n) by (nonlinear_arith)
                requires
                    n >= base,
                    base >= 2,
            ;
        }
        in_base(n / base, base).push(digit_char(n % base))
    }
}

/// `n` written in base ten.
pub open spec fn decimal(n: nat) -> Seq<char> {
    in_base(n, 10)
}

fn digit_text(d: u64) -> (text: &'static str)
    requires
        d < 16,
    ensures
        text@ == seq![digit_char(d as nat)],
{
    proof {
        reveal_strlit("0");
        reveal_strlit("1");
        reveal_strlit("2");
        reveal_strlit("3");
        reveal_strlit("4");
        reveal_strlit("5");
        reveal_strlit("6");
        reveal_strlit("7");
        reveal_strlit("8");
        reveal_strlit("9");
        reveal_strlit("a");
        reveal_strlit("b");
        reveal_strlit("c");
        reveal_strlit("d");
        reveal_strlit("e");
        reveal_strlit("f");
    }
    match d {
        0 => "0",
        1 => "1",
        2 => "2",
        3 => "3",
        4 => "4",
        5 => "5",
        6 => "6",
        7 => "7",
        8 => "8",
        9 => "9",
        10 => "a",
        11 => "b",
        12 => "c",
        13 => "d",
        14 => "e",
        _ => "f",
    }
}

/// Writes `n` in `base`.
pub fn number_text(n: u64, base: u64) -> (text: String)
    requires
        2 <= base <= 16,
    ensures
        text@ == in_base(n as nat, base as nat),
    decreases n,
{
    if n < base {
        digit_text(n).to_owned()
    } else {
        assert(n / base < n) by (nonlinear_arith)
            requires
                n >= base,
                base >= 2,
        ;
        let mut text = number_text(n / base, base);
        assert(n % base < base) by (nonlinear_arith)
            requires
                base >= 2,
        ;
        text.append(digit_text(n % base));
        text
    }
}

/// Writes `n` in base ten.
pub fn decimal_text(n: u64) -> (text: String)
    ensures
        text@ == decimal(n as nat),
{
    number_text(n, 10)
}

/// `a` followed by `b`.
pub(crate) fn joined(a: &str, b: &str) -> (text: String)
    ensures
        text@ == a@ + b@,
{
    let mut text = a.to_owned();
    text.append(b);
    text
}

/// Why no text could be read from a packet.
#[derive(Debug, Clone, Copy, PartialEq, Eq, Structural)]
pub enum ReadTextError {
    /// No zero byte stands at the offset or behind it.
    Unterminated,
    /// The bytes up to the zero byte are not UTF-8.
    NotUtf8,
}

/// The position of the first zero byte at `from` or behind it.
pub open spec fn first_nul(bytes: Seq<u8>, from: int) -> Option<int>
    decreases bytes.len() - from,
{
    if from < 0 || from >= bytes.len() {
        None
    } else if bytes[from] == 0 {
        Some(from)
    } else {
        first_nul(bytes, from + 1)
    }
}

/// The zero-terminated text that starts at `offset`.
pub open spec fn text_at(bytes: Seq<u8>, offset: int) -> Result<Seq<char>, ReadTextError> {
    match first_nul(bytes, offset) {
        None => Err(ReadTextError::Unterminated),
        Some(end) => if valid_utf8(bytes.subrange(offset, end)) {
            Ok(decode_utf8(bytes.subrange(offset, end)))
        } else {
            Err(ReadTextError::NotUtf8)
        },
    }
}

/// `text` as the bytes that stand for it in a packet, with the terminating zero byte.
pub open spec fn zero_terminated(text: Seq<char>) -> Seq<u8> {
    encode_utf8(text).push(0)
}

/// `std::string::String::from_utf8` gives the text that the bytes encode, and fails exactly on
/// bytes that are not UTF-8.
#[verifier::external_body]
fn string_from_utf8(bytes: Vec<u8>) -> (text: Option<String>)
    ensures
        text is Some <==> valid_utf8(bytes@),
        text matches Some(s) ==> s@ == decode_utf8(bytes@),
{
    String::from_utf8(bytes).ok()
}

/// Reads the zero-terminated text that starts at `offset`.
pub fn read_0term_str_from_buffer(buffer: &[u8], offset: usize) -> (text: Result<
    String,
    ReadTextError,
>)
    ensures
        match text {
            Ok(s) => text_at(buffer@, offset as int) == Ok::<Seq<char>, ReadTextError>(s@),
            Err(e) => text_at(buffer@, offset as int) == Err::<Seq<char>, ReadTextError>(e),
        },
{
    let mut taken: Vec<u8> = Vec::new();
    let mut at: usize = offset;
    while at < buffer.len() && buffer[at] != 0
        invariant
            offset <= at,
            at <= buffer.len() || at == offset,
            at > buffer.len() ==> taken@.len() == 0,
            at <= buffer.len() ==> taken@ == buffer@.subrange(offset as int, at as int),
            first_nul(buffer@, offset as int) == first_nul(buffer@, at as int),
        decreases buffer.len() - at,
    {
        taken.push(buffer[at]);
        at = at + 1;
    }
    if at >= buffer.len() {
        return Err(ReadTextError::Unterminated);
    }
    match string_from_utf8(taken) {
        Some(s) => Ok(s),
        None => Err(ReadTextError::NotUtf8),
    }
}

/// Puts the bytes of `text` at `offset`, at most `max_len` of them; the other bytes stay.
pub open spec fn with_text(bytes: Seq<u8>, offset: int, max_len: int, text: Seq<char>) -> Seq<u8> {
    Seq::new(
        bytes.len(),
        |i: int|
            if offset <= i < offset + max_len && i - offset < encode_utf8(text).len() {
                encode_utf8(text)[i - offset]
            } else {
                bytes[i]
            },
    )
}

/// Puts the bytes of `text` into `buffer` from `offset` on, at most `max_len` of them.
pub fn write_str_to_buffer(buffer: &mut Vec<u8>, offset: usize, max_len: usize, text: &str)
    requires
        offset + max_len <= old(buffer)@.len(),
    ensures
        final(buffer)@ == with_text(old(buffer)@, offset as int, max_len as int, text@),
{
    let size: usize = buffer.len();
    let bytes = text.as_bytes();
    let mut i: usize = 0;
    while i < max_len && i < bytes.len()
        invariant
            offset + max_len <= buffer@.len(),
            buffer@.len() == old(buffer)@.len(),
            buffer@.len() == size,
            bytes@ == encode_utf8(text@),
            i <= max_len,
            i <= bytes@.len(),
            forall|j: int|
                0 <= j < buffer@.len() ==> #[trigger] buffer@[j] == if offset <= j < offset + i {
                    bytes@[j - offset]
                } else {
                    old(buffer)@[j]
                },
        decreases max_len - i,
    {
        buffer.set(offset + i, bytes[i]);
        i = i + 1;
    }
}

/// Text without a zero character is read back from where it was written, whatever stands
/// before and behind it.
pub proof fn written_text_is_read_back(before: Seq<u8>, text: Seq<char>, after: Seq<u8>)
    requires
        !text.contains('\0'),
    ensures
        text_at(before + zero_terminated(text) + after, before.len() as int) == Ok::<
            Seq<char>,
            ReadTextError,
        >(text),
{
    let all = before + zero_terminated(text) + after;
    let start = before.len() as int;
    let end = start + encode_utf8(text).len();
    lemma_no_nul_byte(text);
    assert forall|i: int| start <= i < end implies all[i] != 0 by {
        assert(all[i] == encode_utf8(text)[i - start]);
    }
    assert(all[end] == 0);
    lemma_first_nul(all, start, end);
    assert(all.subrange(start, end) =~= encode_utf8(text));
    encode_utf8_valid_utf8(text);
    encode_utf8_decode_utf8(text);
}

/// The first zero byte is found by walking over bytes that are not zero.
pub(crate) proof fn lemma_first_nul(bytes: Seq<u8>, from: int, end: int)
    requires
        0 <= from <= end < bytes.len(),
        forall|i: int| from <= i < end ==> bytes[i] != 0,
        bytes[end] == 0,
    ensures
        first_nul(bytes, from) == Some(end),
    decreases end - from,
{
    if from < end {
        lemma_first_nul(bytes, from + 1, end);
    }
}

/// UTF-8 uses the zero byte for the zero character alone.
pub(crate) proof fn lemma_no_nul_byte(text: Seq<char>)
    requires
        !text.contains('\0'),
    ensures
        forall|i: int| 0 <= i < encode_utf8(text).len() ==> encode_utf8(text)[i] != 0,
    decreases text.len(),
{
    if text.len() > 0 {
        let rest = text.drop_first();
        assert(!rest.contains('\0')) by {
            if rest.contains('\0') {
                let i = choose|i: int| 0 <= i < rest.len() && rest[i] == '\0';
                assert(text[i + 1] == '\0');
            }
        }
        lemma_no_nul_byte(rest);
        assert(text[0] != '\0');
        let c = text[0] as u32;
        char_is_scalar(text[0]);
        char_u32_cast(text[0], c);
        assert(c != 0) by {
            if c == 0 {
                assert(text[0] as int == 0);
            }
        }
        lemma_scalar_bytes(c);
        assert(encode_utf8(text) == encode_scalar(c) + encode_utf8(rest));
    }
}

proof fn lemma_scalar_bytes(c: u32)
    requires
        c != 0,
        is_scalar(c),
    ensures
        forall|i: int| 0 <= i < encode_scalar(c).len() ==> encode_scalar(c)[i] != 0,
{
    assert(c <= 0x7F ==> (c & 0x7F) as u8 == c) by (bit_vector);
    assert(0xC0 <= (0xC0u8 | (((c >> 6) & 0x1F) as u8))) by (bit_vector);
    assert(0xE0 <= (0xE0u8 | (((c >> 12) & 0x0F) as u8))) by (bit_vector);
    assert(0xF0 <= (0xF0u8 | (((c >> 18) & 0x7) as u8))) by (bit_vector);
    assert(0x80 <= (0x80u8 | ((c & 0x3F) as u8))) by (bit_vector);
    assert(0x80 <= (0x80u8 | (((c >> 6) & 0x3F) as u8))) by (bit_vector);
    assert(0x80 <= (0x80u8 | (((c >> 12) & 0x3F) as u8))) by (bit_vector);
}

} // verus!
