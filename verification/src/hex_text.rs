//! Bytes as hexadecimal text, by the `hex` crate.
use vstd::prelude::*;

use crate::text;

verus! {

/// Two lower-case digits for each byte, the high one first.
pub open spec fn hex_chars(bytes: Seq<u8>) -> Seq<char> {
    Seq::new(
        2 * bytes.len(),
        |i: int|
            text::digit_char(
                if i % 2 == 0 {
                    (bytes[i / 2] / 16) as nat
                } else {
                    (bytes[i / 2] % 16) as nat
                },
            ),
    )
}

/// The value of a hexadecimal digit of either case, given as its byte.
pub open spec fn digit_value(c: u8) -> Option<nat> {
    if 48 <= c <= 57 {
        Some((c - 48) as nat)
    } else if 65 <= c <= 70 {
        Some((c - 55) as nat)
    } else if 97 <= c <= 102 {
        Some((c - 87) as nat)
    } else {
        None
    }
}

/// The text is a sequence of pairs of hexadecimal digits.
pub open spec fn is_hex(text: Seq<u8>) -> bool {
    &&& text.len() % 2 == 0
    &&& forall|i: int| 0 <= i < text.len() ==> digit_value(#[trigger] text[i]) is Some
}

/// The bytes that pairs of hexadecimal digits stand for.
pub open spec fn hex_bytes(text: Seq<u8>) -> Seq<u8> {
    Seq::new(
        text.len() / 2,
        |i: int| (digit_value(text[2 * i])->0 * 16 + digit_value(text[2 * i + 1])->0) as u8,
    )
}

/// `hex::encode` writes two lower-case digits for each byte, the high one first.
#[verifier::external_body]
pub(crate) fn hex_encode(data: &[u8]) -> (text: String)
    ensures
        text@ == hex_chars(data@),
{
    hex::encode(data)
}

/// `hex::decode` reads pairs of hexadecimal digits of either case, and fails exactly on text that
/// is not made of such pairs.
#[verifier::external_body]
pub(crate) fn hex_decode(text: &[u8]) -> (bytes: Option<Vec<u8>>)
    ensures
        bytes is Some <==> is_hex(text@),
        bytes matches Some(b) ==> b@ == hex_bytes(text@),
{
    hex::decode(text).ok()
}

} // verus!
