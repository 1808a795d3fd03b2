//! Counts written for people: plain decimal, grouped by thousands, and
//! compact with a unit suffix.

use vstd::prelude::*;
use vstd::string::{StrSliceExecFns, StringExecFns};
use crate::text::push_char;

verus! {

pub open spec fn digit_char(d: nat) -> char {
    if d == 0 {
        '0'
    } else if d == 1 {
        '1'
    } else if d == 2 {
        '2'
    } else if d == 3 {
        '3'
    } else if d == 4 {
        '4'
    } else if d == 5 {
        '5'
    } else if d == 6 {
        '6'
    } else if d == 7 {
        '7'
    } else if d == 8 {
        '8'
    } else {
        '9'
    }
}

/// The decimal digits of `n`, most significant first, without leading zeros.
pub open spec fn dec_digits(n: nat) -> Seq<char>
    decreases n,
{
    if n < 10 {
        seq![digit_char(n)]
    } else {
        dec_digits(n / 10).push(digit_char(n % 10))
    }
}

fn digit(d: usize) -> (c: char)
    requires
        d < 10,
    ensures
        c == digit_char(d as nat),
{
    if d == 0 {
        '0'
    } else if d == 1 {
        '1'
    } else if d == 2 {
        '2'
    } else if d == 3 {
        '3'
    } else if d == 4 {
        '4'
    } else if d == 5 {
        '5'
    } else if d == 6 {
        '6'
    } else if d == 7 {
        '7'
    } else if d == 8 {
        '8'
    } else {
        '9'
    }
}

/// Append the decimal digits of `n` to `s`.
pub fn push_decimal(s: &mut String, n: usize)
    ensures
        final(s)@ == old(s)@ + dec_digits(n as nat),
    decreases n,
{
    if n >= 10 {
        push_decimal(s, n / 10);
    }
    push_char(s, digit(n % 10));
    assert(final(s)@ =~= old(s)@ + dec_digits(n as nat));
}

/// `d` with a comma before every group of three digits counted from the right,
/// as far as its first `i` characters go.
pub open spec fn grouped_prefix(d: Seq<char>, i: nat) -> Seq<char>
    decreases i,
{
    if i == 0 {
        Seq::empty()
    } else {
        let k = (i - 1) as nat;
        let sep = if k > 0 && (d.len() - k) % 3 == 0 {
            seq![',']
        } else {
            Seq::empty()
        };
        grouped_prefix(d, k) + sep + seq![d[k as int]]
    }
}

/// `n` in decimal with thousands separated by commas.
pub open spec fn grouped(n: nat) -> Seq<char> {
    let d = dec_digits(n);
    grouped_prefix(d, d.len())
}

proof fn lemma_dec_digits_len(n: nat)
    ensures
        1 <= dec_digits(n).len() <= n + 1,
    decreases n,
{
    if n >= 10 {
        lemma_dec_digits_len(n / 10);
    }
}

/// `n` in decimal with thousands separated by commas.
pub fn format_count(n: usize) -> (r: String)
    ensures
        r@ == grouped(n as nat),
{
    let mut digits = String::new();
    push_decimal(&mut digits, n);
    assert(digits@ =~= dec_digits(n as nat));
    proof {
        lemma_dec_digits_len(n as nat);
    }
    let len = digits.as_str().unicode_len();
    let mut r = String::new();
    let mut i: usize = 0;
    while i < len
        invariant
            len == digits@.len(),
            digits@ == dec_digits(n as nat),
            i <= len,
            r@ == grouped_prefix(digits@, i as nat),
        decreases len - i,
    {
        if i > 0 && (len - i) % 3 == 0 {
            push_char(&mut r, ',');
        }
        push_char(&mut r, digits.as_str().get_char(i));
        i = i + 1;
        assert(r@ =~= grouped_prefix(digits@, i as nat));
    }
    r
}

/// `n` in units of `threshold`, with one decimal of `frac_divisor` when it is
/// not zero, followed by `suffix`.
pub open spec fn in_unit(n: nat, threshold: nat, frac_divisor: nat, suffix: Seq<char>) -> Seq<char> {
    let whole = n / threshold;
    let frac = (n % threshold) / frac_divisor;
    if frac == 0 {
        dec_digits(whole) + suffix
    } else {
        dec_digits(whole) + seq!['.'] + dec_digits(frac) + suffix
    }
}

/// `n` in units of `threshold`, written as `format_unit` does.
pub fn format_unit(n: usize, threshold: usize, frac_divisor: usize, suffix: &str) -> (r: String)
    requires
        threshold > 0,
        frac_divisor > 0,
    ensures
        r@ == in_unit(n as nat, threshold as nat, frac_divisor as nat, suffix@),
{
    let whole = n / threshold;
    let frac = (n % threshold) / frac_divisor;
    let mut r = String::new();
    push_decimal(&mut r, whole);
    if frac != 0 {
        push_char(&mut r, '.');
        push_decimal(&mut r, frac);
    }
    r.append(suffix);
    assert(r@ =~= in_unit(n as nat, threshold as nat, frac_divisor as nat, suffix@));
    r
}

/// `n` as a count people read at a glance: millions with `M`, thousands with
/// `K`, one decimal where it is not zero, smaller counts grouped by commas.
pub open spec fn compact(n: nat) -> Seq<char> {
    if n >= 1_000_000 {
        in_unit(n, 1_000_000, 100_000, "M"@)
    } else if n >= 1_000 {
        in_unit(n, 1_000, 100, "K"@)
    } else {
        grouped(n)
    }
}

pub fn format_compact(n: usize) -> (r: String)
    ensures
        r@ == compact(n as nat),
{
    if n >= 1_000_000 {
        format_unit(n, 1_000_000, 100_000, "M")
    } else if n >= 1_000 {
        format_unit(n, 1_000, 100, "K")
    } else {
        format_count(n)
    }
}

} // verus!
