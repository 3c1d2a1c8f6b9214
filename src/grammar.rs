use vstd::prelude::*;
use crate::color::{ColorError, ColorModel, Rgb8};
use crate::hex_text::{all_hex, byte_of, hex_value};

verus! {

/// Whitespace allowed around the numbers of a bracketed triplet.
pub open spec fn is_space(c: char) -> bool {
    c == ' ' || c == '\t' || c == '\n' || c == '\r' || c == '\x0B' || c == '\x0C'
}

pub open spec fn is_digit(c: char) -> bool {
    '0' <= c && c <= '9'
}

pub open spec fn all_digits(s: Seq<char>) -> bool {
    forall|i: int| 0 <= i < s.len() ==> is_digit(#[trigger] s[i])
}

/// Digits, optionally followed by a point and more digits.
pub open spec fn is_unsigned_decimal(s: Seq<char>) -> bool {
    (s.len() > 0 && all_digits(s)) || exists|p: int|
        0 < p < s.len() - 1 && #[trigger] s[p] == '.' && all_digits(s.take(p)) && all_digits(
            s.skip(p + 1),
        )
}

/// An optional minus sign and an unsigned decimal.
pub open spec fn is_decimal(s: Seq<char>) -> bool {
    if s.len() > 0 && s[0] == '-' {
        is_unsigned_decimal(s.skip(1))
    } else {
        is_unsigned_decimal(s)
    }
}

pub open spec fn trim_start(s: Seq<char>) -> Seq<char>
    decreases s.len(),
{
    if s.len() > 0 && is_space(s[0]) {
        trim_start(s.skip(1))
    } else {
        s
    }
}

pub open spec fn trim_end(s: Seq<char>) -> Seq<char>
    decreases s.len(),
{
    if s.len() > 0 && is_space(s.last()) {
        trim_end(s.drop_last())
    } else {
        s
    }
}

/// `s` without the whitespace at either end.
pub open spec fn trim(s: Seq<char>) -> Seq<char> {
    trim_end(trim_start(s))
}

/// `t` holds exactly two commas, at `p` and `q`.
pub open spec fn commas_at(t: Seq<char>, p: int, q: int) -> bool {
    &&& 0 <= p < q < t.len()
    &&& t[p] == ','
    &&& t[q] == ','
    &&& forall|k: int| 0 <= k < t.len() && k != p && k != q ==> #[trigger] t[k] != ','
}

pub open spec fn first_field(t: Seq<char>, p: int) -> Seq<char> {
    trim(t.take(p))
}

pub open spec fn second_field(t: Seq<char>, p: int, q: int) -> Seq<char> {
    trim(t.subrange(p + 1, q))
}

pub open spec fn third_field(t: Seq<char>, q: int) -> Seq<char> {
    trim(t.skip(q + 1))
}

/// `t` is three decimals separated by the commas at `p` and `q`.
pub open spec fn triplet_at(t: Seq<char>, p: int, q: int) -> bool {
    &&& commas_at(t, p, q)
    &&& is_decimal(first_field(t, p))
    &&& is_decimal(second_field(t, p, q))
    &&& is_decimal(third_field(t, q))
}

pub open spec fn is_triplet(t: Seq<char>) -> bool {
    exists|p: int, q: int| triplet_at(t, p, q)
}

/// The three trimmed fields of a triplet.
pub open spec fn triplet_fields(t: Seq<char>) -> ColorModel {
    let (p, q) = choose|p: int, q: int| triplet_at(t, p, q);
    ColorModel::Oklab(first_field(t, p), second_field(t, p, q), third_field(t, q))
}

/// A text holds its two commas at one place only, so the fields of a triplet
/// are the ones cut at any commas that split it.
pub proof fn lemma_triplet_fields_at(t: Seq<char>, p: int, q: int)
    requires
        triplet_at(t, p, q),
    ensures
        is_triplet(t),
        triplet_fields(t) == ColorModel::Oklab(first_field(t, p), second_field(t, p, q), third_field(t, q)),
{
    assert forall|p2: int, q2: int| commas_at(t, p2, q2) implies p2 == p && q2 == q by {
        assert(t[p2] == ',');
        assert(t[q2] == ',');
        assert(t[p] == ',');
        assert(t[q] == ',');
    }
}

pub open spec fn is_bracketed(s: Seq<char>) -> bool {
    s.len() >= 2 && s[0] == '[' && s.last() == ']'
}

/// The hex digits of a colour: the text without one optional leading `#`.
pub open spec fn hex_body(s: Seq<char>) -> Seq<char> {
    if s.len() > 0 && s[0] == '#' {
        s.skip(1)
    } else {
        s
    }
}

/// Three hex digits, each standing for a byte that repeats it.
pub open spec fn short_hex_color(h: Seq<char>) -> Rgb8 {
    Rgb8 {
        r: byte_of(h[0], h[0]) as u8,
        g: byte_of(h[1], h[1]) as u8,
        b: byte_of(h[2], h[2]) as u8,
    }
}

/// Six hex digits, two for each byte.
pub open spec fn long_hex_color(h: Seq<char>) -> Rgb8 {
    Rgb8 {
        r: byte_of(h[0], h[1]) as u8,
        g: byte_of(h[2], h[3]) as u8,
        b: byte_of(h[4], h[5]) as u8,
    }
}

/// What a colour text means: a bracketed Oklab triplet of decimals, or an
/// sRGB colour written as three or six hex digits after an optional `#`.
pub open spec fn parse_spec(s: Seq<char>) -> Result<ColorModel, ColorError> {
    if is_bracketed(s) {
        let t = s.subrange(1, s.len() - 1);
        if is_triplet(t) {
            Ok(triplet_fields(t))
        } else {
            Err(ColorError::InvalidColorFormat)
        }
    } else {
        let h = hex_body(s);
        if h.len() == 3 && all_hex(h) {
            Ok(ColorModel::Srgb(short_hex_color(h)))
        } else if h.len() == 6 && all_hex(h) {
            Ok(ColorModel::Srgb(long_hex_color(h)))
        } else {
            Err(ColorError::InvalidColorFormat)
        }
    }
}

} // verus!
