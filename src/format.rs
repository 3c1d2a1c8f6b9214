use vstd::prelude::*;
use crate::color::Rgb8;
use crate::hex_text::{encode_rgb, hex_pair};

verus! {

pub open spec fn decimal_digit(n: int) -> char {
    seq!['0', '1', '2', '3', '4', '5', '6', '7', '8', '9'][n]
}

/// A byte in decimal, right-aligned in three columns.
pub open spec fn padded3(n: u8) -> Seq<char> {
    let hundreds = decimal_digit(n as int / 100);
    let tens = decimal_digit(n as int / 10 % 10);
    let ones = decimal_digit(n as int % 10);
    if n < 10 {
        seq![' ', ' ', ones]
    } else if n < 100 {
        seq![' ', tens, ones]
    } else {
        seq![hundreds, tens, ones]
    }
}

/// `#` and six lowercase hex digits.
pub open spec fn hex_code_text(c: Rgb8) -> Seq<char> {
    seq!['#'] + hex_pair(c.r) + hex_pair(c.g) + hex_pair(c.b)
}

/// The hex code, a tab, and the decimal triplet `rgb(r,g,b)`.
pub open spec fn rgb_text(c: Rgb8) -> Seq<char> {
    hex_code_text(c) + seq!['\t', 'r', 'g', 'b', '('] + padded3(c.r) + seq![','] + padded3(c.g)
        + seq![','] + padded3(c.b) + seq![')']
}

/// The digit `d` as a one-character string.
fn digit_str(d: u8) -> (r: &'static str)
    requires
        d < 10,
    ensures
        r@ == seq![decimal_digit(d as int)],
{
    let digits = "0123456789";
    proof {
        reveal_strlit("0123456789");
    }
    let r = digits.substring_char(d as usize, d as usize + 1);
    assert(r@ =~= seq![decimal_digit(d as int)]);
    r
}

fn push_padded(s: &mut String, n: u8)
    ensures
        final(s)@ == old(s)@ + padded3(n),
{
    proof {
        reveal_strlit(" ");
    }
    if n < 100 {
        s.append(" ");
    } else {
        s.append(digit_str(n / 100));
    }
    if n < 10 {
        s.append(" ");
    } else {
        s.append(digit_str(n / 10 % 10));
    }
    s.append(digit_str(n % 10));
    assert(final(s)@ =~= old(s)@ + padded3(n));
}

/// The colour as `#` and six lowercase hex digits.
pub fn hex_code(c: Rgb8) -> (r: String)
    ensures
        r@ == hex_code_text(c),
{
    let digits = encode_rgb([c.r, c.g, c.b]);
    let mut r = String::new();
    proof {
        reveal_strlit("#");
    }
    r.append("#");
    r.append(digits.as_str());
    assert(r@ =~= hex_code_text(c));
    r
}

/// The colour as its hex code and its decimal triplet, `#0080ff\trgb(  0,128,255)`.
pub fn format_rgb(c: Rgb8) -> (r: String)
    ensures
        r@ == rgb_text(c),
{
    let mut r = hex_code(c);
    proof {
        reveal_strlit("\trgb(");
        reveal_strlit(",");
        reveal_strlit(")");
    }
    r.append("\trgb(");
    push_padded(&mut r, c.r);
    r.append(",");
    push_padded(&mut r, c.g);
    r.append(",");
    push_padded(&mut r, c.b);
    r.append(")");
    assert(r@ =~= rgb_text(c));
    r
}

} // verus!
