use vstd::prelude::*;
use crate::color::{result_view, ColorError, ColorModel, ColorSpec, OklabText, Rgb8};
use crate::grammar::{
    commas_at, first_field, hex_body, lemma_triplet_fields_at, is_bracketed, is_triplet, long_hex_color, parse_spec,
    second_field, short_hex_color, third_field, triplet_at, triplet_fields,
};
use crate::hex_text::{all_hex, decode_rgb, is_hex_digit};
use crate::scan::{is_decimal_text, trim_text};

verus! {

/// The first position at or after `from` that holds `c`, or the length of `t`.
fn find_char(t: &str, c: char, from: usize) -> (r: usize)
    requires
        from <= t@.len(),
    ensures
        from <= r <= t@.len(),
        forall|k: int| from <= k < r ==> #[trigger] t@[k] != c,
        r < t@.len() ==> t@[r as int] == c,
{
    let n = t.unicode_len();
    let mut i: usize = from;
    while i < n && t.get_char(i) != c
        invariant
            from <= i <= n,
            n == t@.len(),
            forall|k: int| from <= k < i ==> #[trigger] t@[k] != c,
        decreases n - i,
    {
        i += 1;
    }
    i
}

/// The three trimmed decimals of the text between the brackets of an Oklab triplet.
fn parse_triplet(t: &str) -> (r: Result<OklabText, ColorError>)
    ensures
        match r {
            Ok(o) => is_triplet(t@) && triplet_fields(t@) == ColorModel::Oklab(o.l@, o.a@, o.b@),
            Err(e) => !is_triplet(t@) && e == ColorError::InvalidColorFormat,
        },
{
    let n = t.unicode_len();
    let p = find_char(t, ',', 0);
    if p == n {
        return Err(ColorError::InvalidColorFormat);
    }
    let q = find_char(t, ',', p + 1);
    if q == n {
        return Err(ColorError::InvalidColorFormat);
    }
    let z = find_char(t, ',', q + 1);
    if z != n {
        assert forall|p2: int, q2: int| !commas_at(t@, p2, q2) by {
            if commas_at(t@, p2, q2) {
                assert(t@[p as int] == ',');
                assert(t@[q as int] == ',');
                assert(t@[z as int] == ',');
            }
        }
        return Err(ColorError::InvalidColorFormat);
    }
    assert(commas_at(t@, p as int, q as int));
    let l = trim_text(t.substring_char(0, p));
    let a = trim_text(t.substring_char(p + 1, q));
    let b = trim_text(t.substring_char(q + 1, n));
    assert(t@.take(p as int) =~= t@.subrange(0, p as int));
    assert(t@.skip(q + 1) =~= t@.subrange(q + 1, n as int));
    assert(l@ == first_field(t@, p as int));
    assert(a@ == second_field(t@, p as int, q as int));
    assert(b@ == third_field(t@, q as int));
    if is_decimal_text(l) && is_decimal_text(a) && is_decimal_text(b) {
        proof {
            lemma_triplet_fields_at(t@, p as int, q as int);
        }
        Ok(OklabText { l: l.to_owned(), a: a.to_owned(), b: b.to_owned() })
    } else {
        assert forall|p2: int, q2: int| !triplet_at(t@, p2, q2) by {
            if triplet_at(t@, p2, q2) {
                lemma_triplet_fields_at(t@, p2, q2);
                assert(t@[p2] == ',' && t@[q2] == ',');
                assert(t@[p as int] == ',' && t@[q as int] == ',');
            }
        }
        Err(ColorError::InvalidColorFormat)
    }
}

/// Three hex digits written out twice each, as six.
fn expand_short_hex(h: &str) -> (r: String)
    requires
        h@.len() == 3,
    ensures
        r@ == seq![h@[0], h@[0], h@[1], h@[1], h@[2], h@[2]],
{
    let mut r = String::new();
    let mut i: usize = 0;
    while i < 3
        invariant
            i <= 3,
            h@.len() == 3,
            r@.len() == 2 * i,
            forall|k: int| 0 <= k < 2 * i ==> #[trigger] r@[k] == h@[k / 2],
        decreases 3 - i,
    {
        let d = h.substring_char(i, i + 1);
        r.append(d);
        r.append(d);
        i += 1;
    }
    assert(r@ =~= seq![h@[0], h@[0], h@[1], h@[1], h@[2], h@[2]]);
    r
}

/// An sRGB colour from three or six hex digits.
fn parse_hex(h: &str) -> (r: Result<Rgb8, ColorError>)
    ensures
        match r {
            Ok(c) => (h@.len() == 3 && all_hex(h@) && c == short_hex_color(h@)) || (h@.len() == 6
                && all_hex(h@) && c == long_hex_color(h@)),
            Err(e) => !((h@.len() == 3 || h@.len() == 6) && all_hex(h@)) && e
                == ColorError::InvalidColorFormat,
        },
{
    let n = h.unicode_len();
    if n == 3 {
        let t = expand_short_hex(h);
        assert(all_hex(t@) <==> all_hex(h@)) by {
            if all_hex(h@) {
                assert forall|k: int| 0 <= k < 6 implies is_hex_digit(#[trigger] t@[k]) by {
                    assert(t@[k] == h@[k / 2]);
                }
            }
            if all_hex(t@) {
                assert forall|k: int| 0 <= k < 3 implies is_hex_digit(#[trigger] h@[k]) by {
                    assert(t@[2 * k] == h@[k]);
                }
            }
        }
        match decode_rgb(t.as_str()) {
            Ok(c) => Ok(Rgb8 { r: c[0], g: c[1], b: c[2] }),
            Err(_) => Err(ColorError::InvalidColorFormat),
        }
    } else if n == 6 {
        match decode_rgb(h) {
            Ok(c) => Ok(Rgb8 { r: c[0], g: c[1], b: c[2] }),
            Err(_) => Err(ColorError::InvalidColorFormat),
        }
    } else {
        Err(ColorError::InvalidColorFormat)
    }
}

/// Parses one colour: `#rgb`, `#rrggbb` (the `#` is optional) or an Oklab
/// triplet `[l, a, b]` of decimals.
pub fn parse_color(s: &str) -> (r: Result<ColorSpec, ColorError>)
    ensures
        result_view(r) == parse_spec(s@),
{
    let n = s.unicode_len();
    if n >= 2 && s.get_char(0) == '[' && s.get_char(n - 1) == ']' {
        match parse_triplet(s.substring_char(1, n - 1)) {
            Ok(o) => Ok(ColorSpec::Oklab(o)),
            Err(e) => Err(e),
        }
    } else {
        assert(!is_bracketed(s@));
        let h = if n > 0 && s.get_char(0) == '#' {
            s.substring_char(1, n)
        } else {
            s
        };
        assert(h@ =~= hex_body(s@));
        match parse_hex(h) {
            Ok(c) => Ok(ColorSpec::Srgb(c)),
            Err(e) => Err(e),
        }
    }
}

} // verus!
