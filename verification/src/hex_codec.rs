use vstd::prelude::*;

verus! {

/// Whether `c` is one of the sixteen hexadecimal digits, in either case.
pub open spec fn is_hex_digit(c: char) -> bool {
    ('0' <= c && c <= '9') || ('a' <= c && c <= 'f') || ('A' <= c && c <= 'F')
}

/// The value of a hexadecimal digit.
pub open spec fn hex_digit_value(c: char) -> u8 {
    if '0' <= c && c <= '9' {
        (c as u32 - '0' as u32) as u8
    } else if 'a' <= c && c <= 'f' {
        (c as u32 - 'a' as u32 + 10) as u8
    } else {
        (c as u32 - 'A' as u32 + 10) as u8
    }
}

/// The bytes that a hexadecimal text stands for: two digits per byte, the
/// high half first. `None` where the text has an odd length or a character
/// that is not a hexadecimal digit.
pub open spec fn hex_decoded(s: Seq<char>) -> Option<Seq<u8>> {
    if s.len() % 2 == 0 && (forall|i: int| 0 <= i < s.len() ==> is_hex_digit(#[trigger] s[i])) {
        Some(
            Seq::new(
                s.len() / 2,
                |i: int| (hex_digit_value(s[2 * i]) * 16 + hex_digit_value(s[2 * i + 1])) as u8,
            ),
        )
    } else {
        None
    }
}

/// Whether `s` is a valid hexadecimal text.
pub open spec fn is_hex(s: Seq<char>) -> bool {
    hex_decoded(s) is Some
}

/// The bytes of a text that `is_hex` accepts.
pub open spec fn hex_bytes(s: Seq<char>) -> Seq<u8> {
    hex_decoded(s).unwrap()
}

/// Calls `hex::decode` on the bytes of `s`. The contract claims what the
/// crate's `FromHex for Vec<u8>` does: an odd length or any byte outside
/// `0-9`, `a-f`, `A-F` is an error, and otherwise each pair of digits gives
/// one byte, high half first. A character outside ASCII is never a digit, so
/// stating the rule over characters is the same as over the UTF-8 bytes.
#[verifier::external_body]
pub(crate) fn decode_hex(s: &str) -> (r: Option<Vec<u8>>)
    ensures
        match r {
            Some(b) => hex_decoded(s@) == Some(b@),
            None => hex_decoded(s@) is None,
        },
{
    hex::decode(s).ok()
}

} // verus!
