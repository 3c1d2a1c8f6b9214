use vstd::prelude::*;
use crate::grammar::{all_digits, is_decimal, is_digit, is_space, is_unsigned_decimal, trim, trim_end, trim_start};

verus! {

fn is_space_char(c: char) -> (b: bool)
    ensures
        b == is_space(c),
{
    c == ' ' || c == '\t' || c == '\n' || c == '\r' || c == '\x0B' || c == '\x0C'
}

fn is_digit_char(c: char) -> (b: bool)
    ensures
        b == is_digit(c),
{
    '0' <= c && c <= '9'
}

/// The text without the whitespace at either end.
pub fn trim_text(t: &str) -> (r: &str)
    ensures
        r@ == trim(t@),
{
    let n = t.unicode_len();
    let mut i: usize = 0;
    assert(t@.skip(0) =~= t@);
    while i < n && is_space_char(t.get_char(i))
        invariant
            i <= n,
            n == t@.len(),
            trim_start(t@) == trim_start(t@.skip(i as int)),
        decreases n - i,
    {
        assert(t@.skip(i as int).skip(1) =~= t@.skip(i + 1));
        i += 1;
    }
    assert(trim_start(t@) == t@.skip(i as int)) by {
        if i == n {
            assert(t@.skip(i as int).len() == 0);
        }
    }
    let mut j: usize = n;
    while j > i && is_space_char(t.get_char(j - 1))
        invariant
            i <= j <= n,
            n == t@.len(),
            trim(t@) == trim_end(t@.subrange(i as int, j as int)),
        decreases j,
    {
        assert(t@.subrange(i as int, j as int).drop_last() =~= t@.subrange(i as int, j - 1));
        j -= 1;
    }
    assert(trim_end(t@.subrange(i as int, j as int)) == t@.subrange(i as int, j as int));
    assert(t@.skip(i as int) =~= t@.subrange(i as int, n as int));
    t.substring_char(i, j)
}

/// Whether `t` is an unsigned decimal: digits, then optionally a point and digits.
fn is_unsigned_decimal_text(t: &str, start: usize) -> (b: bool)
    requires
        start <= t@.len(),
    ensures
        b == is_unsigned_decimal(t@.skip(start as int)),
{
    let ghost u = t@.skip(start as int);
    let n = t.unicode_len();
    let mut i: usize = start;
    while i < n && is_digit_char(t.get_char(i))
        invariant
            start <= i <= n,
            n == t@.len(),
            u == t@.skip(start as int),
            forall|k: int| 0 <= k < i - start ==> is_digit(#[trigger] u[k]),
        decreases n - i,
    {
        i += 1;
    }
    let ghost d = i - start;
    if i == n {
        return i > start;
    }
    assert(!is_digit(u[d]));
    assert(!all_digits(u));
    if i == start || t.get_char(i) != '.' {
        assert forall|p: int| 0 < p < u.len() - 1 && #[trigger] u[p] == '.' implies !all_digits(
            u.take(p),
        ) by {
            assert(p > d);
            assert(u.take(p)[d] == u[d]);
        }
        return false;
    }
    let mut j: usize = i + 1;
    while j < n && is_digit_char(t.get_char(j))
        invariant
            start < i,
            i + 1 <= j <= n,
            n == t@.len(),
            u == t@.skip(start as int),
            d == i - start,
            u.len() == n - start,
            forall|k: int| d < k < j - start ==> is_digit(#[trigger] u[k]),
        decreases n - j,
    {
        assert(u[j - start] == t@[j as int]);
        j += 1;
    }
    assert forall|p: int| 0 < p < u.len() - 1 && #[trigger] u[p] == '.' && p != d implies !all_digits(
        u.take(p),
    ) || !all_digits(u.skip(p + 1)) by {
        if p > d {
            assert(u.take(p)[d] == u[d]);
        } else {
            assert(u.skip(p + 1)[d - p - 1] == u[d]);
        }
    }
    if j == n && j > i + 1 {
        assert(all_digits(u.take(d)));
        assert(all_digits(u.skip(d + 1)));
        true
    } else {
        if j < n {
            assert(u.skip(d + 1)[j - start - d - 1] == u[j - start]);
        }
        false
    }
}

/// Whether `t` is a decimal: an optional minus sign and an unsigned decimal.
pub fn is_decimal_text(t: &str) -> (b: bool)
    ensures
        b == is_decimal(t@),
{
    let n = t.unicode_len();
    if n > 0 && t.get_char(0) == '-' {
        is_unsigned_decimal_text(t, 1)
    } else {
        assert(t@.skip(0) =~= t@);
        is_unsigned_decimal_text(t, 0)
    }
}

} // verus!
