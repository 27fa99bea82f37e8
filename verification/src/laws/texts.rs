//! Texts in packets and numbers in texts, as a reader takes them.
use vstd::arithmetic::div_mod::*;
use vstd::prelude::*;
use vstd::utf8::*;

use crate::laws::reading;
use crate::text;
use crate::text::ReadTextError;

verus! {

/// A reader who stops at the first zero byte takes `text` at `at`.
pub open spec fn reads(bytes: Seq<u8>, at: int, text: Seq<char>) -> bool {
    reading::spells(bytes, at, text) && !text.contains('\0')
}

/// A reader takes some text at `at`.
pub open spec fn has_text(bytes: Seq<u8>, at: int) -> bool {
    exists|t: Seq<char>| reads(bytes, at, t)
}

/// A zero byte stands at `at` or behind it.
pub open spec fn zero_follows(bytes: Seq<u8>, at: int) -> bool {
    exists|i: int| at <= i < bytes.len() && #[trigger] bytes[i] == 0
}

/// The zero character is encoded as a zero byte.
#[verifier::rlimit(40)]
#[verifier::spinoff_prover]
proof fn lemma_nul_byte(text: Seq<char>)
    requires
        text.contains('\0'),
    ensures
        encode_utf8(text).contains(0u8),
    decreases text.len(),
{
    let rest = text.drop_first();
    let c = text[0] as u32;
    let first = encode_scalar(c);
    let all = encode_utf8(text);
    assert(all == first + encode_utf8(rest));
    if text[0] == '\0' {
        assert(c == 0);
        assert((0u32 & 0x7F) as u8 == 0) by (bit_vector);
        assert(first[0] == 0);
        assert(all[0] == 0);
    } else {
        let i = choose|i: int| 0 <= i < text.len() && text[i] == '\0';
        assert(rest[i - 1] == '\0');
        lemma_nul_byte(rest);
        let k = choose|k: int| 0 <= k < encode_utf8(rest).len() && encode_utf8(rest)[k] == 0;
        assert(all[first.len() + k] == 0);
    }
}

/// What the search for a zero byte finds.
proof fn lemma_found_nul(bytes: Seq<u8>, from: int)
    requires
        0 <= from,
    ensures
        match text::first_nul(bytes, from) {
            None => !zero_follows(bytes, from),
            Some(end) => from <= end < bytes.len() && bytes[end] == 0 && forall|i: int|
                from <= i < end ==> #[trigger] bytes[i] != 0,
        },
    decreases bytes.len() - from,
{
    if from < bytes.len() && bytes[from] != 0 {
        lemma_found_nul(bytes, from + 1);
    }
}

/// A text is read at a place exactly where its bytes stand there with a zero byte behind them, and
/// it holds no zero character.
#[verifier::rlimit(40)]
#[verifier::spinoff_prover]
pub proof fn text_is_read_where_it_is_spelled(bytes: Seq<u8>, at: int, t: Seq<char>)
    requires
        0 <= at,
    ensures
        text::text_at(bytes, at) == Ok::<Seq<char>, ReadTextError>(t) <==> reads(bytes, at, t),
{
    lemma_found_nul(bytes, at);
    if reads(bytes, at, t) {
        let raw = encode_utf8(t);
        let end = at + raw.len();
        text::lemma_no_nul_byte(t);
        assert forall|i: int| at <= i < end implies bytes[i] != 0 by {
            assert(bytes.subrange(at, end)[i - at] == bytes[i]);
        }
        text::lemma_first_nul(bytes, at, end);
        encode_utf8_valid_utf8(t);
        encode_utf8_decode_utf8(t);
    }
    if text::text_at(bytes, at) == Ok::<Seq<char>, ReadTextError>(t) {
        let end = text::first_nul(bytes, at)->0;
        let raw = bytes.subrange(at, end);
        decode_utf8_encode_utf8(raw);
        assert(encode_utf8(t) == raw);
        if t.contains('\0') {
            lemma_nul_byte(t);
            let k = choose|k: int| 0 <= k < raw.len() && raw[k] == 0;
            assert(bytes[at + k] == 0);
        }
    }
}

/// No text is read exactly where no zero byte follows, or the bytes up to the first one are not
/// UTF-8, and the two are told apart.
#[verifier::rlimit(40)]
#[verifier::spinoff_prover]
pub proof fn refusal_to_read_tells_why(bytes: Seq<u8>, at: int)
    requires
        0 <= at,
    ensures
        text::text_at(bytes, at) == Err::<Seq<char>, ReadTextError>(ReadTextError::Unterminated)
            <==> !zero_follows(bytes, at),
        text::text_at(bytes, at) == Err::<Seq<char>, ReadTextError>(ReadTextError::NotUtf8)
            <==> zero_follows(bytes, at) && forall|t: Seq<char>| !reads(bytes, at, t),
{
    lemma_found_nul(bytes, at);
    match text::text_at(bytes, at) {
        Ok(t) => {
            text_is_read_where_it_is_spelled(bytes, at, t);
        },
        Err(_) => {
            assert forall|t: Seq<char>| !reads(bytes, at, t) by {
                text_is_read_where_it_is_spelled(bytes, at, t);
            }
        },
    }
}

/// What a written text leaves behind: its bytes as far as there is room, and everything else as it
/// was.
pub proof fn written_text_changes_only_its_room(
    bytes: Seq<u8>,
    offset: int,
    max_len: int,
    t: Seq<char>,
)
    requires
        0 <= offset,
        0 <= max_len,
        offset + max_len <= bytes.len(),
    ensures
        ({
            let after = text::with_text(bytes, offset, max_len, t);
            let raw = encode_utf8(t);
            let n = if raw.len() < max_len {
                raw.len() as int
            } else {
                max_len
            };
            &&& after.len() == bytes.len()
            &&& after.take(offset) == bytes.take(offset)
            &&& after.subrange(offset, offset + n) == raw.take(n)
            &&& after.skip(offset + n) == bytes.skip(offset + n)
        }),
{
}

/// The value of a digit.
pub open spec fn digit_value(c: char) -> int {
    if '0' <= c <= '9' {
        c as int - 48
    } else if 'a' <= c <= 'f' {
        c as int - 87
    } else {
        -1
    }
}

/// The number that a text stands for in a base.
pub open spec fn number_in(t: Seq<char>, base: int) -> int
    decreases t.len(),
{
    if t.len() == 0 {
        0
    } else {
        number_in(t.drop_last(), base) * base + digit_value(t.last())
    }
}

/// A number that was written in a base is read back, every character being a digit of the base,
/// and the first one zero for the number zero alone.
#[verifier::rlimit(40)]
#[verifier::spinoff_prover]
pub proof fn written_number_is_read_back(n: nat, base: nat)
    requires
        2 <= base <= 16,
    ensures
        ({
            let t = text::in_base(n, base);
            &&& t.len() > 0
            &&& number_in(t, base as int) == n
            &&& forall|i: int|
                0 <= i < t.len() ==> 0 <= digit_value(#[trigger] t[i]) < base
            &&& t[0] == '0' <==> n == 0
        }),
    decreases n,
{
    let t = text::in_base(n, base);
    reveal_with_fuel(number_in, 2);
    if n < base {
        assert(t.drop_last() =~= Seq::empty());
        assert(digit_value(t[0]) == n);
    } else {
        assert(n / base < n && n / base > 0) by (nonlinear_arith)
            requires
                n >= base,
                base >= 2,
        ;
        written_number_is_read_back(n / base, base);
        let some = text::in_base(n / base, base);
        lemma_fundamental_div_mod(n as int, base as int);
        lemma_mod_bound(n as int, base as int);
        assert(t.drop_last() =~= some);
        assert(digit_value(t.last()) == n % base);
        assert((n / base) * base == base * (n / base)) by (nonlinear_arith);
        assert forall|i: int| 0 <= i < t.len() implies 0 <= digit_value(#[trigger] t[i])
            < base by {
            if i < some.len() {
                assert(t[i] == some[i]);
            }
        }
        assert(t[0] == some[0]);
    }
}

/// A decimal text is a number written in base ten.
pub proof fn decimal_text_is_read_back(n: nat)
    ensures
        ({
            let t = text::decimal(n);
            &&& t.len() > 0
            &&& number_in(t, 10) == n
            &&& forall|i: int| 0 <= i < t.len() ==> '0' <= #[trigger] t[i] <= '9'
            &&& t[0] == '0' <==> n == 0
        }),
{
    written_number_is_read_back(n, 10);
    let t = text::decimal(n);
    assert forall|i: int| 0 <= i < t.len() implies '0' <= #[trigger] t[i] <= '9' by {
        assert(0 <= digit_value(t[i]) < 10);
    }
}

} // verus!
