//! Validation of a rule's path: the text is trimmed and expanded here, the
//! filesystem is asked by the caller, and its answer is classified here.

use vstd::prelude::*;
use vstd::string::StrSliceExecFns;
use crate::home::{expand_home, expand_tilde};
use crate::rules::PathStatus;

verus! {

/// Characters with the Unicode property White_Space (`char::is_whitespace`).
pub open spec fn is_white(c: char) -> bool {
    c == ' ' || ('\t' <= c && c <= '\r') || c == '\u{85}' || c == '\u{a0}' || c == '\u{1680}' || (
    '\u{2000}' <= c && c <= '\u{200a}') || c == '\u{2028}' || c == '\u{2029}' || c == '\u{202f}'
        || c == '\u{205f}' || c == '\u{3000}'
}

/// `r` is `s` without its leading and trailing white space.
pub open spec fn is_trim_of(s: Seq<char>, r: Seq<char>) -> bool {
    exists|i: int, j: int|
        0 <= i <= j <= s.len() && r == s.subrange(i, j) && (forall|k: int|
            0 <= k < i ==> is_white(#[trigger] s[k])) && (forall|k: int|
            j <= k < s.len() ==> is_white(#[trigger] s[k])) && (i < j ==> !is_white(s[i])
            && !is_white(s[j - 1]))
}

fn white(c: char) -> (r: bool)
    ensures
        r == is_white(c),
{
    c == ' ' || ('\t' <= c && c <= '\r') || c == '\u{85}' || c == '\u{a0}' || c == '\u{1680}' || (
    '\u{2000}' <= c && c <= '\u{200a}') || c == '\u{2028}' || c == '\u{2029}' || c == '\u{202f}'
        || c == '\u{205f}' || c == '\u{3000}'
}

/// `s` without leading and trailing white space.
pub fn trim(s: &str) -> (r: &str)
    ensures
        is_trim_of(s@, r@),
{
    let n = s.unicode_len();
    let mut i: usize = 0;
    while i < n && white(s.get_char(i))
        invariant
            n == s@.len(),
            i <= n,
            forall|k: int| 0 <= k < i ==> is_white(#[trigger] s@[k]),
        decreases n - i,
    {
        i = i + 1;
    }
    let mut j: usize = n;
    while j > i && white(s.get_char(j - 1))
        invariant
            n == s@.len(),
            i <= j <= n,
            forall|k: int| j <= k < n ==> is_white(#[trigger] s@[k]),
        decreases j,
    {
        j = j - 1;
    }
    let r = s.substring_char(i, j);
    assert(i < j ==> !is_white(s@[i as int]) && !is_white(s@[j - 1]));
    r
}

/// The path to canonicalize for the rule text `path_str`, or none when the
/// text is blank (such a rule is not found).
pub fn validation_target(path_str: &str, home: &str) -> (r: Option<String>)
    ensures
        exists|t: Seq<char>|
            is_trim_of(path_str@, t) && match r {
                None => t.len() == 0,
                Some(p) => t.len() > 0 && p@ == expand_home(t, home@),
            },
{
    let t = trim(path_str);
    if t.unicode_len() == 0 {
        None
    } else {
        Some(expand_tilde(t, home))
    }
}

/// The kind of a failed filesystem query, as far as validation tells kinds apart.
#[derive(Debug, Clone, Copy, PartialEq, Eq, Structural)]
pub enum IoFailure {
    NotFound,
    PermissionDenied,
    Other,
}

/// What the filesystem said about a validation target.
#[derive(Debug, Clone)]
pub enum PathProbe {
    /// Canonicalization failed.
    CanonicalizeFailed(IoFailure),
    /// The canonical path was found, reading its metadata failed.
    MetadataFailed(IoFailure),
    /// The canonical path and whether it is a directory.
    Resolved { canonical: Vec<u8>, is_dir: bool },
}

/// The status of a rule whose path could not be queried.
pub fn io_error_to_status(e: IoFailure) -> (r: PathStatus)
    ensures
        r == failure_status(e),
{
    match e {
        IoFailure::PermissionDenied => PathStatus::PermissionDenied,
        _ => PathStatus::NotFound,
    }
}

/// The validation outcome for a rule whose text was blank.
pub fn blank_validation() -> (r: (Option<Vec<u8>>, PathStatus))
    ensures
        r.0 is None,
        r.1 == PathStatus::NotFound,
{
    (None, PathStatus::NotFound)
}

/// The status of a rule whose path query failed with `e`.
pub open spec fn failure_status(e: IoFailure) -> PathStatus {
    match e {
        IoFailure::PermissionDenied => PathStatus::PermissionDenied,
        _ => PathStatus::NotFound,
    }
}

/// The canonical path and status that validation gives for `probe`.
pub open spec fn classified(probe: PathProbe) -> (Option<Vec<u8>>, PathStatus) {
    match probe {
        PathProbe::CanonicalizeFailed(e) => (None, failure_status(e)),
        PathProbe::MetadataFailed(e) => (None, failure_status(e)),
        PathProbe::Resolved { canonical, is_dir } => if is_dir {
            (Some(canonical), PathStatus::Active)
        } else {
            (None, PathStatus::NotADirectory)
        },
    }
}

/// The validation outcome of a rule given what the filesystem said: an
/// existing directory is (tentatively) active with its canonical path, all
/// else is a status without a path.
pub fn classify_probe(probe: PathProbe) -> (r: (Option<Vec<u8>>, PathStatus))
    ensures
        r == classified(probe),
{
    match probe {
        PathProbe::CanonicalizeFailed(e) => (None, io_error_to_status(e)),
        PathProbe::MetadataFailed(e) => (None, io_error_to_status(e)),
        PathProbe::Resolved { canonical, is_dir } => {
            if is_dir {
                (Some(canonical), PathStatus::Active)
            } else {
                (None, PathStatus::NotADirectory)
            }
        },
    }
}

/// Validating a path that is already canonical asks the filesystem about that
/// very path, and when the filesystem confirms it as an existing directory the
/// rule keeps that path and is active. (A canonical path is absolute, and its
/// last character is taken not to be white space, which trimming would drop.)
pub proof fn lemma_validation_of_canonical_is_fixed(
    p: Seq<char>,
    t: Seq<char>,
    home: Seq<char>,
    canonical: Vec<u8>,
)
    requires
        p.len() > 0,
        p[0] == '/',
        !is_white(p.last()),
        is_trim_of(p, t),
    ensures
        t == p,
        t.len() > 0,
        expand_home(t, home) == p,
        classified(PathProbe::Resolved { canonical, is_dir: true }) == (
            Some(canonical),
            PathStatus::Active,
        ),
{
    let (i, j) = choose|i: int, j: int|
        0 <= i <= j <= p.len() && t == p.subrange(i, j) && (forall|k: int|
            0 <= k < i ==> is_white(#[trigger] p[k])) && (forall|k: int|
            j <= k < p.len() ==> is_white(#[trigger] p[k])) && (i < j ==> !is_white(p[i])
            && !is_white(p[j - 1]));
    if i > 0 {
        assert(is_white(p[0]));
    }
    if j < p.len() {
        assert(is_white(p[p.len() - 1]));
    }
    assert(t =~= p);
}

} // verus!
