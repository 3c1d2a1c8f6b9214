use vstd::prelude::*;
use vstd::arithmetic::div_mod::lemma_fundamental_div_mod_converse;
use crate::color::{ColorError, ColorModel, Rgb8};
use crate::format::hex_code_text;
use crate::grammar::{hex_body, is_bracketed, parse_spec};
use crate::hex_text::{all_hex, byte_of, hex_pair, hex_value, is_hex_digit, lower_digit};
use crate::quantize::{plan_step, step_fraction};

verus! {

/// A three-digit hex colour means the same as the six-digit colour that writes
/// each of its digits twice.
pub proof fn lemma_short_hex_expands(x: char, y: char, z: char)
    requires
        is_hex_digit(x),
        is_hex_digit(y),
        is_hex_digit(z),
    ensures
        parse_spec(seq!['#', x, y, z]) == parse_spec(seq!['#', x, x, y, y, z, z]),
        parse_spec(seq!['#', x, y, z]) is Ok,
{
    let s = seq!['#', x, y, z];
    let t = seq!['#', x, x, y, y, z, z];
    assert(!is_bracketed(s));
    assert(!is_bracketed(t));
    assert(hex_body(s) =~= seq![x, y, z]);
    assert(hex_body(t) =~= seq![x, x, y, y, z, z]);
    assert(all_hex(hex_body(s)));
    assert(all_hex(hex_body(t)));
}

/// The lowercase digit of a value below sixteen reads back as that value.
proof fn lemma_digit_reads_back(n: int)
    requires
        0 <= n < 16,
    ensures
        is_hex_digit(lower_digit(n)),
        hex_value(lower_digit(n)) == n,
{
    let digits = seq!['0', '1', '2', '3', '4', '5', '6', '7', '8', '9', 'a', 'b', 'c', 'd', 'e', 'f'];
    assert(lower_digit(n) == digits[n]);
}

/// The two digits written for a byte read back as that byte.
proof fn lemma_pair_reads_back(b: u8)
    ensures
        is_hex_digit(hex_pair(b)[0]),
        is_hex_digit(hex_pair(b)[1]),
        byte_of(hex_pair(b)[0], hex_pair(b)[1]) == b,
{
    lemma_digit_reads_back(b as int / 16);
    lemma_digit_reads_back(b as int % 16);
}

/// Writing a colour as a hex code and parsing that code gives the colour back.
pub proof fn lemma_hex_code_round_trip(c: Rgb8)
    ensures
        parse_spec(hex_code_text(c)) == Ok::<ColorModel, ColorError>(ColorModel::Srgb(c)),
{
    let s = hex_code_text(c);
    lemma_pair_reads_back(c.r);
    lemma_pair_reads_back(c.g);
    lemma_pair_reads_back(c.b);
    let h = hex_pair(c.r) + hex_pair(c.g) + hex_pair(c.b);
    assert(!is_bracketed(s));
    assert(hex_body(s) =~= h);
    assert(h[0] == hex_pair(c.r)[0] && h[1] == hex_pair(c.r)[1]);
    assert(h[2] == hex_pair(c.g)[0] && h[3] == hex_pair(c.g)[1]);
    assert(h[4] == hex_pair(c.b)[0] && h[5] == hex_pair(c.b)[1]);
    assert(all_hex(h));
}

/// The first step of an interpolation sits exactly at the start (fraction
/// zero) and the last exactly at the end (fraction one).
pub proof fn lemma_quantize_endpoints(steps: int)
    requires
        2 <= steps <= usize::MAX,
    ensures
        step_fraction(0, steps).num == 0,
        step_fraction(0, steps).den > 0,
        step_fraction(steps - 1, steps).num == step_fraction(steps - 1, steps).den,
{
}

/// In a plan over a list of colours, pair `p` starts at colour `p` with
/// fraction zero and ends at colour `p + 1` with fraction one.
pub proof fn lemma_plan_endpoints(colors: int, steps: int, p: int)
    requires
        2 <= steps <= usize::MAX,
        0 <= p < colors - 1,
        (colors - 1) * steps <= usize::MAX,
    ensures
        plan_step(p * steps, steps).start == p,
        plan_step(p * steps, steps).end == p + 1,
        plan_step(p * steps, steps).fraction.num == 0,
        plan_step(p * steps + steps - 1, steps).start == p,
        plan_step(p * steps + steps - 1, steps).end == p + 1,
        plan_step(p * steps + steps - 1, steps).fraction.num == plan_step(
            p * steps + steps - 1,
            steps,
        ).fraction.den,
{
    lemma_fundamental_div_mod_converse(p * steps, steps, p, 0);
    lemma_fundamental_div_mod_converse(p * steps + steps - 1, steps, p, steps - 1);
    assert(p * steps + steps <= (colors - 1) * steps) by (nonlinear_arith)
        requires
            p < colors - 1,
            steps >= 0,
    ;
}

/// With three steps the middle one sits exactly half way.
pub proof fn lemma_quantize_midpoint()
    ensures
        step_fraction(1, 3).is_half(),
{
}

} // verus!
