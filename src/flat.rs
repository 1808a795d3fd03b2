//! The flat configuration format: three lists of paths (recursive watch,
//! non-recursive watch, recursive ignore), refined into a consistent set by
//! removing duplicates, paths already covered within a list, and paths that
//! conflict with another list.

use vstd::prelude::*;
use crate::order::{is_sorted, sort_paths, views};
use crate::paths::{copy_path, is_within, path_within, same_path};

verus! {

/// The sorted paths `s` with repeats dropped.
pub open spec fn dedup_sorted(s: Seq<Seq<u8>>) -> Seq<Seq<u8>>
    decreases s.len(),
{
    if s.len() == 0 {
        s
    } else {
        let r = dedup_sorted(s.drop_last());
        if r.len() > 0 && r.last() == s.last() {
            r
        } else {
            r.push(s.last())
        }
    }
}

/// The sorted paths `s`, each dropped that lies within the last path kept before it.
pub open spec fn skip_subpaths(s: Seq<Seq<u8>>) -> Seq<Seq<u8>>
    decreases s.len(),
{
    if s.len() == 0 {
        s
    } else {
        let r = skip_subpaths(s.drop_last());
        if r.len() > 0 && is_within(s.last(), r.last()) {
            r
        } else {
            r.push(s.last())
        }
    }
}

/// `p` lies within one of `prefixes`.
pub open spec fn under_any(p: Seq<u8>, prefixes: Seq<Seq<u8>>) -> bool {
    exists|k: int| 0 <= k < prefixes.len() && is_within(p, #[trigger] prefixes[k])
}

/// The paths of `s`, in order, that lie within none of `prefixes`.
pub open spec fn outside(s: Seq<Seq<u8>>, prefixes: Seq<Seq<u8>>) -> Seq<Seq<u8>>
    decreases s.len(),
{
    if s.len() == 0 {
        s
    } else {
        let r = outside(s.drop_last(), prefixes);
        if under_any(s.last(), prefixes) {
            r
        } else {
            r.push(s.last())
        }
    }
}

/// `s` holds the paths of `paths` in sorted order.
pub open spec fn sorted_from(s: Seq<Seq<u8>>, paths: Seq<Seq<u8>>) -> bool {
    is_sorted(s) && s.to_multiset() == paths.to_multiset()
}

/// `out` is `paths` sorted, without repeats.
pub open spec fn deduplicated(paths: Seq<Seq<u8>>, out: Seq<Seq<u8>>) -> bool {
    exists|t: Seq<Seq<u8>>| sorted_from(t, paths) && out == dedup_sorted(t)
}

/// `out` is `paths` sorted, without the paths within the path kept before them.
pub open spec fn subpaths_removed(paths: Seq<Seq<u8>>, out: Seq<Seq<u8>>) -> bool {
    exists|t: Seq<Seq<u8>>| sorted_from(t, paths) && out == skip_subpaths(t)
}

/// Whether `p` lies within one of `prefixes`.
fn within_any(p: &Vec<u8>, prefixes: &Vec<Vec<u8>>) -> (r: bool)
    ensures
        r == under_any(p@, views(prefixes@)),
{
    let mut k: usize = 0;
    while k < prefixes.len()
        invariant
            k <= prefixes@.len(),
            forall|j: int| 0 <= j < k ==> !is_within(p@, #[trigger] views(prefixes@)[j]),
        decreases prefixes@.len() - k,
    {
        if path_within(p.as_slice(), prefixes[k].as_slice()) {
            assert(is_within(p@, views(prefixes@)[k as int]));
            return true;
        }
        k = k + 1;
    }
    false
}

/// The paths sorted, with repeats dropped.
pub fn remove_duplicates(paths: Vec<Vec<u8>>) -> (r: Vec<Vec<u8>>)
    ensures
        deduplicated(views(paths@), views(r@)),
{
    let ghost pv = views(paths@);
    let sorted = sort_paths(paths);
    let ghost t = views(sorted@);
    let mut out: Vec<Vec<u8>> = Vec::new();
    let mut i: usize = 0;
    while i < sorted.len()
        invariant
            t == views(sorted@),
            i <= sorted@.len(),
            views(out@) == dedup_sorted(t.subrange(0, i as int)),
        decreases sorted@.len() - i,
    {
        assert(t.subrange(0, i + 1).drop_last() =~= t.subrange(0, i as int));
        let ghost before = views(out@);
        let n = out.len();
        let repeat = n > 0 && same_path(out[n - 1].as_slice(), sorted[i].as_slice());
        if !repeat {
            out.push(copy_path(&sorted[i]));
            assert(views(out@) =~= before.push(t[i as int]));
        }
        i = i + 1;
    }
    assert(t.subrange(0, t.len() as int) =~= t);
    out
}

/// The paths sorted, each dropped that lies within the path kept just before it.
pub fn remove_subpaths(paths: Vec<Vec<u8>>) -> (r: Vec<Vec<u8>>)
    ensures
        subpaths_removed(views(paths@), views(r@)),
{
    let sorted = sort_paths(paths);
    let ghost t = views(sorted@);
    let mut out: Vec<Vec<u8>> = Vec::new();
    let mut i: usize = 0;
    while i < sorted.len()
        invariant
            t == views(sorted@),
            i <= sorted@.len(),
            views(out@) == skip_subpaths(t.subrange(0, i as int)),
        decreases sorted@.len() - i,
    {
        assert(t.subrange(0, i + 1).drop_last() =~= t.subrange(0, i as int));
        let ghost before = views(out@);
        let n = out.len();
        let covered = n > 0 && path_within(sorted[i].as_slice(), out[n - 1].as_slice());
        if !covered {
            out.push(copy_path(&sorted[i]));
            assert(views(out@) =~= before.push(t[i as int]));
        }
        i = i + 1;
    }
    assert(t.subrange(0, t.len() as int) =~= t);
    out
}

/// The paths, in order, that lie within none of `prefixes`.
pub fn filter_by_prefixes(paths: Vec<Vec<u8>>, prefixes: &Vec<Vec<u8>>) -> (r: Vec<Vec<u8>>)
    ensures
        views(r@) == outside(views(paths@), views(prefixes@)),
{
    let ghost s = views(paths@);
    let mut out: Vec<Vec<u8>> = Vec::new();
    let mut i: usize = 0;
    while i < paths.len()
        invariant
            s == views(paths@),
            i <= paths@.len(),
            views(out@) == outside(s.subrange(0, i as int), views(prefixes@)),
        decreases paths@.len() - i,
    {
        assert(s.subrange(0, i + 1).drop_last() =~= s.subrange(0, i as int));
        let ghost before = views(out@);
        if !within_any(&paths[i], prefixes) {
            out.push(copy_path(&paths[i]));
            assert(views(out@) =~= before.push(s[i as int]));
        }
        i = i + 1;
    }
    assert(s.subrange(0, s.len() as int) =~= s);
    out
}

/// `p` lies within another path of `s`.
pub open spec fn inside_other(p: Seq<u8>, s: Seq<Seq<u8>>) -> bool {
    exists|k: int| 0 <= k < s.len() && #[trigger] s[k] != p && is_within(p, s[k])
}

/// The paths of `s`, in order, that lie within no other path of `s`.
pub open spec fn outermost(s: Seq<Seq<u8>>, all: Seq<Seq<u8>>) -> Seq<Seq<u8>>
    decreases s.len(),
{
    if s.len() == 0 {
        s
    } else {
        let r = outermost(s.drop_last(), all);
        if inside_other(s.last(), all) {
            r
        } else {
            r.push(s.last())
        }
    }
}

/// Whether `p` lies within another path of `set`.
fn within_other(p: &Vec<u8>, set: &Vec<Vec<u8>>) -> (r: bool)
    ensures
        r == inside_other(p@, views(set@)),
{
    let mut k: usize = 0;
    while k < set.len()
        invariant
            k <= set@.len(),
            forall|j: int|
                0 <= j < k ==> !(#[trigger] views(set@)[j] != p@ && is_within(p@, views(set@)[j])),
        decreases set@.len() - k,
    {
        if !same_path(set[k].as_slice(), p.as_slice()) && path_within(p.as_slice(), set[k].as_slice()) {
            assert(views(set@)[k as int] != p@ && is_within(p@, views(set@)[k as int]));
            return true;
        }
        k = k + 1;
    }
    false
}

/// The paths of `set` that lie within no other path of it, in order.
pub fn remove_included_paths(set: &Vec<Vec<u8>>) -> (r: Vec<Vec<u8>>)
    ensures
        views(r@) == outermost(views(set@), views(set@)),
{
    let ghost s = views(set@);
    let mut out: Vec<Vec<u8>> = Vec::new();
    let mut i: usize = 0;
    while i < set.len()
        invariant
            s == views(set@),
            i <= set@.len(),
            views(out@) == outermost(s.subrange(0, i as int), s),
        decreases set@.len() - i,
    {
        assert(s.subrange(0, i + 1).drop_last() =~= s.subrange(0, i as int));
        let ghost before = views(out@);
        if !within_other(&set[i], set) {
            out.push(copy_path(&set[i]));
            assert(views(out@) =~= before.push(s[i as int]));
        }
        i = i + 1;
    }
    assert(s.subrange(0, s.len() as int) =~= s);
    out
}

/// The path lists as written in a flat configuration file.
#[derive(Debug, Clone)]
pub struct RawConfig {
    pub recursive_watch_paths: Vec<String>,
    pub non_recursive_watch_paths: Vec<String>,
    pub recursive_ignore_paths: Vec<String>,
}

/// Which list of a flat configuration a path goes to.
#[derive(Debug, Clone, Copy, PartialEq, Eq, Structural)]
pub enum WatchMode {
    Recursive,
    NonRecursive,
    Ignore,
}

/// The texts of `s`, in order, other than `p`.
pub open spec fn without(s: Seq<Seq<char>>, p: Seq<char>) -> Seq<Seq<char>>
    decreases s.len(),
{
    if s.len() == 0 {
        s
    } else {
        let r = without(s.drop_last(), p);
        if s.last() == p {
            r
        } else {
            r.push(s.last())
        }
    }
}

pub open spec fn texts(v: Seq<String>) -> Seq<Seq<char>> {
    v.map_values(|s: String| s@)
}

/// Remove every occurrence of `p` from `paths`; whether there was one.
fn remove_text(paths: &mut Vec<String>, p: &String) -> (found: bool)
    ensures
        texts(final(paths)@) == without(texts(old(paths)@), p@),
        found == texts(old(paths)@).contains(p@),
{
    let ghost s = texts(paths@);
    let mut kept: Vec<String> = Vec::new();
    let mut found = false;
    let mut i: usize = 0;
    while i < paths.len()
        invariant
            s == texts(paths@),
            i <= paths@.len(),
            texts(kept@) == without(s.subrange(0, i as int), p@),
            found == s.subrange(0, i as int).contains(p@),
        decreases paths@.len() - i,
    {
        let ghost before = texts(kept@);
        assert(s.subrange(0, i + 1).drop_last() =~= s.subrange(0, i as int));
        assert(s.subrange(0, i + 1) =~= s.subrange(0, i as int).push(s[i as int]));
        if paths[i] == *p {
            found = true;
            assert(s.subrange(0, i + 1)[i as int] == p@);
        } else {
            kept.push(paths[i].clone());
            assert(texts(kept@) =~= before.push(s[i as int]));
            proof {
                let t = s.subrange(0, i + 1);
                if t.contains(p@) {
                    let k = choose|k: int| 0 <= k < t.len() && t[k] == p@;
                    assert(s.subrange(0, i as int)[k] == p@);
                }
            }
        }
        i = i + 1;
    }
    assert(s.subrange(0, s.len() as int) =~= s);
    *paths = kept;
    found
}

impl RawConfig {
    /// Append the canonical path `p` to the list of `mode`.
    pub fn add_path(&mut self, p: String, mode: WatchMode)
        ensures
            final(self).recursive_watch_paths@ == (if mode == WatchMode::Recursive {
                old(self).recursive_watch_paths@.push(p)
            } else {
                old(self).recursive_watch_paths@
            }),
            final(self).non_recursive_watch_paths@ == (if mode == WatchMode::NonRecursive {
                old(self).non_recursive_watch_paths@.push(p)
            } else {
                old(self).non_recursive_watch_paths@
            }),
            final(self).recursive_ignore_paths@ == (if mode == WatchMode::Ignore {
                old(self).recursive_ignore_paths@.push(p)
            } else {
                old(self).recursive_ignore_paths@
            }),
    {
        match mode {
            WatchMode::Recursive => self.recursive_watch_paths.push(p),
            WatchMode::NonRecursive => self.non_recursive_watch_paths.push(p),
            WatchMode::Ignore => self.recursive_ignore_paths.push(p),
        }
    }

    /// Remove the path `p` from every list; whether any list held it.
    pub fn remove_path(&mut self, p: &String) -> (found: bool)
        ensures
            texts(final(self).recursive_watch_paths@) == without(
                texts(old(self).recursive_watch_paths@),
                p@,
            ),
            texts(final(self).non_recursive_watch_paths@) == without(
                texts(old(self).non_recursive_watch_paths@),
                p@,
            ),
            texts(final(self).recursive_ignore_paths@) == without(
                texts(old(self).recursive_ignore_paths@),
                p@,
            ),
            found == (texts(old(self).recursive_watch_paths@).contains(p@) || texts(
                old(self).non_recursive_watch_paths@,
            ).contains(p@) || texts(old(self).recursive_ignore_paths@).contains(p@)),
    {
        let a = remove_text(&mut self.recursive_watch_paths, p);
        let b = remove_text(&mut self.non_recursive_watch_paths, p);
        let c = remove_text(&mut self.recursive_ignore_paths, p);
        a || b || c
    }
}

/// The refined lists: canonical, without repeats, covered paths or conflicts.
#[derive(Debug, Clone)]
pub struct Config {
    pub recursive_watch_paths: Vec<Vec<u8>>,
    pub non_recursive_watch_paths: Vec<Vec<u8>>,
    pub recursive_ignore_paths: Vec<Vec<u8>>,
}

impl Config {
    /// Refine the canonical paths of the three lists: repeats go; within the
    /// recursive lists, paths covered by another go; recursive watch paths
    /// under an ignore path go; non-recursive watch paths under a recursive
    /// watch path or an ignore path go.
    pub fn refine(watch: Vec<Vec<u8>>, non_recursive: Vec<Vec<u8>>, ignore: Vec<Vec<u8>>) -> (r:
        Self)
        ensures
            exists|w1: Seq<Seq<u8>>, w2: Seq<Seq<u8>>, n1: Seq<Seq<u8>>, i1: Seq<Seq<u8>>|
                #![trigger deduplicated(views(watch@), w1), subpaths_removed(w1, w2), deduplicated(views(non_recursive@), n1), deduplicated(views(ignore@), i1)]
                {
                    &&& deduplicated(views(watch@), w1)
                    &&& subpaths_removed(w1, w2)
                    &&& deduplicated(views(non_recursive@), n1)
                    &&& deduplicated(views(ignore@), i1)
                    &&& subpaths_removed(i1, views(r.recursive_ignore_paths@))
                    &&& views(r.recursive_watch_paths@) == outside(
                        w2,
                        views(r.recursive_ignore_paths@),
                    )
                    &&& views(r.non_recursive_watch_paths@) == outside(
                        outside(n1, views(r.recursive_watch_paths@)),
                        views(r.recursive_ignore_paths@),
                    )
                },
    {
        let w = remove_duplicates(watch);
        let ghost w1 = views(w@);
        let w = remove_subpaths(w);
        let ghost w2 = views(w@);
        let n = remove_duplicates(non_recursive);
        let ghost n1 = views(n@);
        let i = remove_duplicates(ignore);
        let ghost i1 = views(i@);
        let i = remove_subpaths(i);
        let w = filter_by_prefixes(w, &i);
        let n = filter_by_prefixes(n, &w);
        let n = filter_by_prefixes(n, &i);
        Config { recursive_watch_paths: w, non_recursive_watch_paths: n, recursive_ignore_paths: i }
    }

    /// Refine the canonical paths of the three lists as sets: repeats go;
    /// within the recursive lists, every path inside another path of the same
    /// list goes; recursive watch paths under an ignore path go; non-recursive
    /// watch paths under a recursive watch path or an ignore path go. Each list
    /// comes out sorted.
    pub fn refine_by_inclusion(
        watch: Vec<Vec<u8>>,
        non_recursive: Vec<Vec<u8>>,
        ignore: Vec<Vec<u8>>,
    ) -> (r: Self)
        ensures
            exists|w1: Seq<Seq<u8>>, n1: Seq<Seq<u8>>, i1: Seq<Seq<u8>>|
                #![trigger deduplicated(views(watch@), w1), deduplicated(views(non_recursive@), n1), deduplicated(views(ignore@), i1)]
                {
                    &&& deduplicated(views(watch@), w1)
                    &&& deduplicated(views(non_recursive@), n1)
                    &&& deduplicated(views(ignore@), i1)
                    &&& views(r.recursive_ignore_paths@) == outermost(i1, i1)
                    &&& views(r.recursive_watch_paths@) == outside(
                        outermost(w1, w1),
                        views(r.recursive_ignore_paths@),
                    )
                    &&& views(r.non_recursive_watch_paths@) == outside(
                        outside(n1, views(r.recursive_watch_paths@)),
                        views(r.recursive_ignore_paths@),
                    )
                },
    {
        let w = remove_duplicates(watch);
        let ghost w1 = views(w@);
        let n = remove_duplicates(non_recursive);
        let ghost n1 = views(n@);
        let i = remove_duplicates(ignore);
        let ghost i1 = views(i@);
        let w = remove_included_paths(&w);
        let i = remove_included_paths(&i);
        let w = filter_by_prefixes(w, &i);
        let n = filter_by_prefixes(n, &w);
        let n = filter_by_prefixes(n, &i);
        Config { recursive_watch_paths: w, non_recursive_watch_paths: n, recursive_ignore_paths: i }
    }
}

} // verus!
