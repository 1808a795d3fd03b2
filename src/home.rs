//! Paths written relative to the home directory: `~/` expansion, the reverse
//! abbreviation for display, and paths derived from the home directory.
//!
//! The home directory is handed in by the caller, resolved once at start.

use vstd::prelude::*;
use vstd::string::StrSliceExecFns;

verus! {

/// `PathBuf::join` on strings: an absolute `rest` replaces `base`, otherwise
/// it is appended after one separator.
pub open spec fn join(base: Seq<char>, rest: Seq<char>) -> Seq<char> {
    if rest.len() > 0 && rest[0] == '/' {
        rest
    } else if base.len() == 0 {
        rest
    } else if base.last() == '/' {
        base + rest
    } else {
        base + seq!['/'] + rest
    }
}

/// `p` starts with `~/`.
pub open spec fn is_home_relative(p: Seq<char>) -> bool {
    p.len() >= 2 && p[0] == '~' && p[1] == '/'
}

/// `p` with a leading `~/` replaced by the home directory.
pub open spec fn expand_home(p: Seq<char>, home: Seq<char>) -> Seq<char> {
    if is_home_relative(p) {
        join(home, p.subrange(2, p.len() as int))
    } else {
        p
    }
}

/// `p` begins with the characters of `prefix`.
pub open spec fn has_prefix(p: Seq<char>, prefix: Seq<char>) -> bool {
    prefix.len() <= p.len() && p.subrange(0, prefix.len() as int) == prefix
}

/// `p` equals `base` or continues it after a component boundary.
pub open spec fn is_below(p: Seq<char>, base: Seq<char>) -> bool {
    p == base || (has_prefix(p, base) && base.len() < p.len() && ((base.len() > 0 && base.last()
        == '/') || p[base.len() as int] == '/'))
}

/// What remains of `p` below `base` (for `p` below `base`).
pub open spec fn rest_below(p: Seq<char>, base: Seq<char>) -> Seq<char> {
    if p == base {
        Seq::empty()
    } else if base.len() > 0 && base.last() == '/' {
        p.subrange(base.len() as int, p.len() as int)
    } else {
        p.subrange((base.len() + 1) as int, p.len() as int)
    }
}

/// How a path is shown: below the home directory as `~/rest`, otherwise as it is.
pub open spec fn abbreviated_path(p: Seq<char>, home: Seq<char>) -> Seq<char> {
    if is_below(p, home) {
        seq!['~', '/'] + rest_below(p, home)
    } else {
        p
    }
}

fn starts_with_chars(s: &str, prefix: &str) -> (r: bool)
    ensures
        r == has_prefix(s@, prefix@),
{
    let n = s.unicode_len();
    let m = prefix.unicode_len();
    if m > n {
        return false;
    }
    let mut i: usize = 0;
    while i < m
        invariant
            m == prefix@.len(),
            n == s@.len(),
            m <= n,
            i <= m,
            forall|k: int| 0 <= k < i ==> s@[k] == prefix@[k],
        decreases m - i,
    {
        if s.get_char(i) != prefix.get_char(i) {
            assert(s@.subrange(0, m as int)[i as int] != prefix@[i as int]);
            return false;
        }
        i = i + 1;
    }
    assert(s@.subrange(0, m as int) =~= prefix@);
    true
}

fn ends_with_sep(s: &str) -> (r: bool)
    ensures
        r == (s@.len() > 0 && s@.last() == '/'),
{
    let n = s.unicode_len();
    n > 0 && s.get_char(n - 1) == '/'
}

/// `base` joined with `rest`, as `PathBuf::join` does.
pub fn join_path(base: &str, rest: &str) -> (r: String)
    ensures
        r@ == join(base@, rest@),
{
    let rn = rest.unicode_len();
    if rn > 0 && rest.get_char(0) == '/' {
        return rest.to_owned();
    }
    let bn = base.unicode_len();
    if bn == 0 {
        return rest.to_owned();
    }
    let mut r = base.to_owned();
    if !ends_with_sep(base) {
        r.append("/");
        proof {
            reveal_strlit("/");
        }
    }
    r.append(rest);
    proof {
        if !(base@.last() == '/') {
            assert(r@ =~= base@ + seq!['/'] + rest@);
        }
    }
    r
}

/// `path` with a leading `~/` replaced by `home`.
pub fn expand_tilde(path: &str, home: &str) -> (r: String)
    ensures
        r@ == expand_home(path@, home@),
{
    let n = path.unicode_len();
    if n >= 2 && path.get_char(0) == '~' && path.get_char(1) == '/' {
        let rest = path.substring_char(2, n);
        join_path(home, rest)
    } else {
        path.to_owned()
    }
}

/// `path_str` with a leading `home` (compared as text) shown as `~`.
pub fn abbreviate_home(path_str: &str, home: &str) -> (r: String)
    ensures
        has_prefix(path_str@, home@) ==> r@ == seq!['~'] + path_str@.subrange(
            home@.len() as int,
            path_str@.len() as int,
        ),
        !has_prefix(path_str@, home@) ==> r@ == path_str@,
{
    if starts_with_chars(path_str, home) {
        let n = path_str.unicode_len();
        let rest = path_str.substring_char(home.unicode_len(), n);
        let mut r = "~".to_owned();
        proof {
            reveal_strlit("~");
        }
        r.append(rest);
        assert(r@ =~= seq!['~'] + path_str@.subrange(home@.len() as int, path_str@.len() as int));
        r
    } else {
        path_str.to_owned()
    }
}

/// `path` shown relative to `home` when it lies below it (compared by components).
pub fn abbreviate_home_path(path: &str, home: &str) -> (r: String)
    ensures
        r@ == abbreviated_path(path@, home@),
{
    let n = path.unicode_len();
    let hn = home.unicode_len();
    let mut r = "~/".to_owned();
    proof {
        reveal_strlit("~/");
    }
    if starts_with_chars(path, home) {
        if n == hn {
            assert(path@ =~= home@);
            return r;
        }
        if ends_with_sep(home) {
            r.append(path.substring_char(hn, n));
            assert(r@ =~= seq!['~', '/'] + rest_below(path@, home@));
            return r;
        }
        if path.get_char(hn) == '/' {
            r.append(path.substring_char(hn + 1, n));
            assert(r@ =~= seq!['~', '/'] + rest_below(path@, home@));
            return r;
        }
    }
    proof {
        if path@ == home@ {
            assert(path@.subrange(0, home@.len() as int) =~= home@);
        }
    }
    path.to_owned()
}

/// The name of the background service.
pub const SERVICE_LABEL: &'static str = "homebrew.mxcl.nfd2nfc";

/// Where the service definition of the background service lives below `home`.
pub fn plist_path(home: &str) -> (r: String)
    ensures
        r@ == join(join(home@, "Library/LaunchAgents"@), "homebrew.mxcl.nfd2nfc.plist"@),
{
    let dir = join_path(home, "Library/LaunchAgents");
    let mut file = SERVICE_LABEL.to_owned();
    file.append(".plist");
    proof {
        reveal_strlit("homebrew.mxcl.nfd2nfc");
        reveal_strlit(".plist");
        reveal_strlit("homebrew.mxcl.nfd2nfc.plist");
        assert(file@ =~= "homebrew.mxcl.nfd2nfc.plist"@);
    }
    join_path(dir.as_str(), file.as_str())
}

} // verus!
