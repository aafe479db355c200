//! The canonical text form of a 16-byte unique identifier.

use vstd::prelude::*;

verus! {

/// The lower-case hexadecimal digit for a value in `0..16`.
pub open spec fn hex_digit(nibble: int) -> char {
    seq![
        '0', '1', '2', '3', '4', '5', '6', '7', '8', '9', 'a', 'b', 'c', 'd', 'e', 'f',
    ][nibble]
}

/// Two lower-case hexadecimal digits per byte, high nibble first.
pub open spec fn lower_hex(bytes: Seq<u8>) -> Seq<char>
    decreases bytes.len(),
{
    if bytes.len() == 0 {
        Seq::empty()
    } else {
        lower_hex(bytes.drop_last()).push(hex_digit(bytes.last() as int / 16)).push(
            hex_digit(bytes.last() as int % 16),
        )
    }
}

/// The hyphenated form of an identifier: its bytes in hexadecimal, in groups
/// of 4, 2, 2, 2 and 6 bytes joined by `-`.
pub open spec fn hyphenated(id: Seq<u8>) -> Seq<char> {
    lower_hex(id.subrange(0, 4)) + seq!['-'] + lower_hex(id.subrange(4, 6)) + seq!['-']
        + lower_hex(id.subrange(6, 8)) + seq!['-'] + lower_hex(id.subrange(8, 10)) + seq!['-']
        + lower_hex(id.subrange(10, 16))
}

/// Formats an identifier with `uuid::Uuid::from_bytes(..).hyphenated()`.
///
/// Trusted: the text that `uuid` writes is taken to be [`hyphenated`] of the
/// bytes, which is what `uuid`'s lower-case hyphenated formatter produces.
#[verifier::external_body]
pub(crate) fn hyphenated_string(id: &[u8; 16]) -> (text: String)
    ensures
        text@ == hyphenated(id@),
{
    uuid::Uuid::from_bytes(*id).hyphenated().to_string()
}

} // verus!
