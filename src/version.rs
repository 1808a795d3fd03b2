//! Comparison of `major.minor.patch` version strings.

use vstd::prelude::*;
use vstd::string::StrSliceExecFns;

verus! {

/// The first position at or after `a` that holds a dot, or the length of `s`.
pub open spec fn next_dot(s: Seq<char>, a: int) -> int
    decreases s.len() - a,
{
    if a >= s.len() {
        s.len() as int
    } else if s[a] == '.' {
        a
    } else {
        next_dot(s, a + 1)
    }
}

/// Where the `k`-th dot-separated field of `s` starts, if `s` has that many fields.
pub open spec fn field_start(s: Seq<char>, k: nat) -> Option<int>
    decreases k,
{
    if k == 0 {
        Some(0)
    } else {
        match field_start(s, (k - 1) as nat) {
            Some(a) => if next_dot(s, a) < s.len() {
                Some(next_dot(s, a) + 1)
            } else {
                None
            },
            None => None,
        }
    }
}

pub open spec fn is_digit(c: char) -> bool {
    '0' <= c && c <= '9'
}

/// The value of a string of decimal digits.
pub open spec fn dec_value(d: Seq<char>) -> nat
    decreases d.len(),
{
    if d.len() == 0 {
        0
    } else {
        dec_value(d.drop_last()) * 10 + (d.last() as nat - '0' as nat) as nat
    }
}

/// The digits of a number field: without one leading `+`.
pub open spec fn digits_of(f: Seq<char>) -> Seq<char> {
    if f.len() > 0 && f[0] == '+' {
        f.subrange(1, f.len() as int)
    } else {
        f
    }
}

/// `u64::from_str`: an optional `+` and at least one decimal digit, of a value that fits.
pub open spec fn parse_u64(f: Seq<char>) -> Option<u64> {
    let d = digits_of(f);
    if d.len() > 0 && (forall|k: int| 0 <= k < d.len() ==> is_digit(#[trigger] d[k])) && dec_value(
        d,
    ) <= u64::MAX {
        Some(dec_value(d) as u64)
    } else {
        None
    }
}

/// The number in the `k`-th field of `s`, 0 where the field is missing or not a number.
pub open spec fn version_part(s: Seq<char>, k: nat) -> u64 {
    match field_start(s, k) {
        Some(a) => match parse_u64(s.subrange(a, next_dot(s, a))) {
            Some(v) => v,
            None => 0,
        },
        None => 0,
    }
}

/// `latest` is strictly newer than `current`, comparing major, minor and patch in turn.
pub open spec fn newer(latest: Seq<char>, current: Seq<char>) -> bool {
    let (a, b, c) = (version_part(latest, 0), version_part(latest, 1), version_part(latest, 2));
    let (x, y, z) = (version_part(current, 0), version_part(current, 1), version_part(current, 2));
    a > x || (a == x && (b > y || (b == y && c > z)))
}

proof fn lemma_next_dot_bounds(s: Seq<char>, a: int)
    requires
        0 <= a <= s.len(),
    ensures
        a <= next_dot(s, a) <= s.len(),
        next_dot(s, a) < s.len() ==> s[next_dot(s, a)] == '.',
        forall|k: int| a <= k < next_dot(s, a) ==> s[k] != '.',
    decreases s.len() - a,
{
    if a < s.len() && s[a] != '.' {
        lemma_next_dot_bounds(s, a + 1);
    }
}

proof fn lemma_no_more_fields(s: Seq<char>, t: nat, k: nat)
    requires
        t <= k,
        field_start(s, t) is None,
    ensures
        field_start(s, k) is None,
    decreases k - t,
{
    if t < k {
        lemma_no_more_fields(s, t + 1, k);
    }
}

/// The position of the first dot at or after `a`, or the length.
fn find_dot(s: &str, n: usize, a: usize) -> (r: usize)
    requires
        n == s@.len(),
        a <= n,
    ensures
        r == next_dot(s@, a as int),
{
    let mut i = a;
    while i < n && s.get_char(i) != '.'
        invariant
            n == s@.len(),
            a <= i <= n,
            next_dot(s@, i as int) == next_dot(s@, a as int),
        decreases n - i,
    {
        i = i + 1;
    }
    i
}

/// The field `s[a..b]` read as `u64::from_str` reads it.
fn parse_field(s: &str, a: usize, b: usize) -> (r: Option<u64>)
    requires
        a <= b <= s@.len(),
    ensures
        r == parse_u64(s@.subrange(a as int, b as int)),
{
    let ghost f = s@.subrange(a as int, b as int);
    let start = if a < b && s.get_char(a) == '+' {
        a + 1
    } else {
        a
    };
    let ghost d = s@.subrange(start as int, b as int);
    assert(d =~= digits_of(f));
    if start == b {
        return None;
    }
    let mut value: u64 = 0;
    let mut overflow = false;
    let mut i = start;
    while i < b
        invariant
            a <= start <= i <= b <= s@.len(),
            d == s@.subrange(start as int, b as int),
            f == s@.subrange(a as int, b as int),
            d == digits_of(f),
            forall|k: int| start <= k < i ==> is_digit(#[trigger] s@[k]),
            !overflow ==> value as nat == dec_value(s@.subrange(start as int, i as int)),
            overflow ==> dec_value(s@.subrange(start as int, i as int)) > u64::MAX,
        decreases b - i,
    {
        let c = s.get_char(i);
        if !('0' <= c && c <= '9') {
            proof {
                let j = i - start;
                assert(d[j] == c);
                assert(!is_digit(d[j]));
                assert(!(forall|k: int| 0 <= k < d.len() ==> is_digit(#[trigger] d[k])));
                assert(parse_u64(f) is None);
            }
            return None;
        }
        let digit = (c as u32 - '0' as u32) as u64;
        let ghost prev = s@.subrange(start as int, i as int);
        assert(s@.subrange(start as int, i + 1).drop_last() =~= prev);
        if !overflow {
            if value > (u64::MAX - digit) / 10 {
                overflow = true;
            } else {
                value = value * 10 + digit;
            }
        }
        i = i + 1;
    }
    assert(s@.subrange(start as int, b as int) =~= d);
    assert forall|k: int| 0 <= k < d.len() implies is_digit(#[trigger] d[k]) by {
        assert(d[k] == s@[start + k]);
    }
    if overflow {
        None
    } else {
        Some(value)
    }
}

/// The `k`-th numeric part of the version `s`.
fn part(s: &str, n: usize, k: usize) -> (r: u64)
    requires
        n == s@.len(),
        k <= 2,
    ensures
        r == version_part(s@, k as nat),
{
    let mut a: usize = 0;
    let mut j: usize = 0;
    while j < k
        invariant
            n == s@.len(),
            j <= k,
            a <= n,
            field_start(s@, j as nat) == Some(a as int),
        decreases k - j,
    {
        let e = find_dot(s, n, a);
        proof {
            lemma_next_dot_bounds(s@, a as int);
        }
        if e >= n {
            proof {
                assert(field_start(s@, (j + 1) as nat) is None);
                lemma_no_more_fields(s@, (j + 1) as nat, k as nat);
            }
            return 0;
        }
        a = e + 1;
        j = j + 1;
    }
    let e = find_dot(s, n, a);
    proof {
        lemma_next_dot_bounds(s@, a as int);
    }
    match parse_field(s, a, e) {
        Some(v) => v,
        None => 0,
    }
}

/// Whether the version `latest` is strictly newer than `current`.
pub fn is_newer(latest: &str, current: &str) -> (r: bool)
    ensures
        r == newer(latest@, current@),
{
    let ln = latest.unicode_len();
    let cn = current.unicode_len();
    let a = part(latest, ln, 0);
    let b = part(latest, ln, 1);
    let c = part(latest, ln, 2);
    let x = part(current, cn, 0);
    let y = part(current, cn, 1);
    let z = part(current, cn, 2);
    a > x || (a == x && (b > y || (b == y && c > z)))
}

} // verus!
