use vstd::prelude::*;

verus! {

/// Whether `c` is one of `0-9`, `a-f`, `A-F`.
pub open spec fn is_hex_digit(c: char) -> bool {
    ('0' <= c && c <= '9') || ('a' <= c && c <= 'f') || ('A' <= c && c <= 'F')
}

/// The value of a hex digit.
pub open spec fn hex_value(c: char) -> int {
    if '0' <= c && c <= '9' {
        c as int - '0' as int
    } else if 'a' <= c && c <= 'f' {
        c as int - 'a' as int + 10
    } else {
        c as int - 'A' as int + 10
    }
}

/// Whether every character of `s` is a hex digit.
pub open spec fn all_hex(s: Seq<char>) -> bool {
    forall|i: int| 0 <= i < s.len() ==> is_hex_digit(#[trigger] s[i])
}

/// The byte written by the two hex digits `hi` and `lo`.
pub open spec fn byte_of(hi: char, lo: char) -> int {
    16 * hex_value(hi) + hex_value(lo)
}

/// The lowercase hex digit of a value below sixteen.
pub open spec fn lower_digit(n: int) -> char {
    seq!['0', '1', '2', '3', '4', '5', '6', '7', '8', '9', 'a', 'b', 'c', 'd', 'e', 'f'][n]
}

/// Two lowercase hex digits for a byte, high nibble first.
pub open spec fn hex_pair(b: u8) -> Seq<char> {
    seq![lower_digit(b as int / 16), lower_digit(b as int % 16)]
}

#[verifier::external_type_specification]
#[verifier::external_body]
pub struct ExFromHexError(hex::FromHexError);

/// Relies on `hex::decode_to_slice` into a three-byte buffer: it succeeds exactly
/// when the text is six hex digits, and then each byte is read from a pair of
/// digits, high nibble first.
#[verifier::external_body]
pub(crate) fn decode_rgb(text: &str) -> (r: Result<[u8; 3], hex::FromHexError>)
    ensures
        r is Ok <==> (text@.len() == 6 && all_hex(text@)),
        r is Ok ==> r->Ok_0[0] as int == byte_of(text@[0], text@[1]),
        r is Ok ==> r->Ok_0[1] as int == byte_of(text@[2], text@[3]),
        r is Ok ==> r->Ok_0[2] as int == byte_of(text@[4], text@[5]),
{
    let mut c = [0u8; 3];
    match hex::decode_to_slice(text, &mut c) {
        Ok(()) => Ok(c),
        Err(e) => Err(e),
    }
}

/// Relies on `hex::encode`: two lowercase digits for each byte, in order.
#[verifier::external_body]
pub(crate) fn encode_rgb(c: [u8; 3]) -> (r: String)
    ensures
        r@ == hex_pair(c[0]) + hex_pair(c[1]) + hex_pair(c[2]),
{
    hex::encode(c)
}

} // verus!
