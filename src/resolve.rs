//! Resolution of the rule sequence: which rules are in effect, which repeat
//! the effect of another rule, and which deliberately reverse an ancestor.
//!
//! Rules are processed from the shortest canonical path to the longest, ties
//! by position, so that every ancestor of a rule is final before the rule
//! itself is decided.

use vstd::prelude::*;
use crate::paths::{is_strictly_within, lemma_within_len, path_within, same_path};
use crate::rules::{PathAction, PathEntry, PathMode, PathStatus};

verus! {

/// The length that orders processing: that of the canonical path, 0 without one.
pub open spec fn key_len(e: PathEntry) -> nat {
    match e.canon() {
        Some(c) => c.len(),
        None => 0,
    }
}

/// Rule `a` is processed before rule `b`.
pub open spec fn processed_before(es: Seq<PathEntry>, a: int, b: int) -> bool {
    key_len(es[a]) < key_len(es[b]) || (key_len(es[a]) == key_len(es[b]) && a < b)
}

/// `j` is an earlier rule, active in `s`, with the same canonical path as `i`.
pub open spec fn is_duplicate(es: Seq<PathEntry>, s: Seq<PathStatus>, i: int, j: int) -> bool {
    &&& 0 <= j < i
    &&& es[j].canon() is Some
    &&& es[j].canon() == es[i].canon()
    &&& s[j] == PathStatus::Active
}

/// `j` is another recursive rule, active in `s`, whose path strictly contains that of `i`.
pub open spec fn is_fallback(es: Seq<PathEntry>, s: Seq<PathStatus>, i: int, j: int) -> bool {
    &&& 0 <= j < es.len()
    &&& j != i
    &&& s[j] == PathStatus::Active
    &&& es[j].mode == PathMode::Recursive
    &&& es[i].canon() is Some
    &&& es[j].canon() is Some
    &&& is_strictly_within(es[i].canon()->0, es[j].canon()->0)
}

/// `j` is the duplicate of `i` at the lowest position.
pub open spec fn is_first_duplicate(es: Seq<PathEntry>, s: Seq<PathStatus>, i: int, j: int) -> bool {
    is_duplicate(es, s, i, j) && forall|k: int| 0 <= k < j ==> !is_duplicate(es, s, i, k)
}

/// `j` is the fallback of `i` with the longest path, ties by the lowest position.
pub open spec fn is_nearest_fallback(es: Seq<PathEntry>, s: Seq<PathStatus>, i: int, j: int) -> bool {
    &&& is_fallback(es, s, i, j)
    &&& forall|k: int| #[trigger]
        is_fallback(es, s, i, k) ==> key_len(es[k]) < key_len(es[j]) || (key_len(es[k])
            == key_len(es[j]) && j <= k)
}

/// Rule `i` has the status `s[i]` and override `o[i]` that resolution gives it,
/// given the statuses `s` of the other rules.
pub open spec fn rule_resolved(
    es: Seq<PathEntry>,
    s: Seq<PathStatus>,
    o: Seq<Option<usize>>,
    i: int,
) -> bool {
    match es[i].canon() {
        None => o[i] is None,
        Some(_) => if exists|j: int| is_duplicate(es, s, i, j) {
            exists|j: int|
                is_first_duplicate(es, s, i, j) && s[i] == PathStatus::Redundant(j as usize)
                    && o[i] is None
        } else if exists|j: int| is_fallback(es, s, i, j) {
            exists|j: int|
                #![trigger is_nearest_fallback(es, s, i, j)]
                is_nearest_fallback(es, s, i, j) && if es[j].action == es[i].action {
                    s[i] == PathStatus::Redundant(j as usize) && o[i] is None
                } else {
                    s[i] == PathStatus::Active && o[i] == Some(j as usize)
                }
        } else {
            s[i] == PathStatus::Active && o[i] is None
        },
    }
}

pub open spec fn statuses_of(es: Seq<PathEntry>) -> Seq<PathStatus> {
    es.map_values(|e: PathEntry| e.status)
}

pub open spec fn overrides_of(es: Seq<PathEntry>) -> Seq<Option<usize>> {
    es.map_values(|e: PathEntry| e.overrides)
}

/// Every rule of the sequence carries the status and override that resolution gives it.
pub open spec fn resolved(es: Seq<PathEntry>) -> bool {
    forall|i: int|
        0 <= i < es.len() ==> #[trigger] rule_resolved(es, statuses_of(es), overrides_of(es), i)
}

/// The two sequences hold the same rules: paths, actions and modes agree.
pub open spec fn same_rules(a: Seq<PathEntry>, b: Seq<PathEntry>) -> bool {
    &&& a.len() == b.len()
    &&& forall|i: int|
        #![trigger a[i]]
        #![trigger b[i]]
        0 <= i < a.len() ==> a[i].canon() == b[i].canon() && a[i].action == b[i].action
            && a[i].mode == b[i].mode
}

/// What a user states of a rule, and what validation found of it.
pub open spec fn rule_view(e: PathEntry) -> (Seq<char>, PathAction, PathMode, Option<Seq<u8>>) {
    (e.raw@, e.action, e.mode, e.canon())
}

pub open spec fn rules_of(es: Seq<PathEntry>) -> Seq<(Seq<char>, PathAction, PathMode, Option<Seq<u8>>)> {
    es.map_values(|e: PathEntry| rule_view(e))
}

/// `new` holds the rules of `src`, in the same order, with the statuses of
/// the invalid ones, resolved anew.
pub open spec fn re_resolved(new: Seq<PathEntry>, src: Seq<PathEntry>) -> bool {
    &&& rules_of(new) == rules_of(src)
    &&& forall|i: int|
        #![trigger new[i]]
        0 <= i < src.len() && src[i].canon() is None ==> new[i].status == src[i].status
    &&& resolved(new)
}

/// Rule `j` is one whose status the resolution of rule `i` reads.
pub open spec fn depends_on(es: Seq<PathEntry>, i: int, j: int) -> bool {
    &&& 0 <= j < es.len()
    &&& j != i
    &&& es[i].canon() is Some
    &&& es[j].canon() is Some
    &&& ((j < i && es[j].canon() == es[i].canon()) || is_strictly_within(
        es[i].canon()->0,
        es[j].canon()->0,
    ))
}

proof fn lemma_dependency_processed_first(es: Seq<PathEntry>, i: int, j: int)
    requires
        0 <= i < es.len(),
        depends_on(es, i, j),
    ensures
        processed_before(es, j, i),
{
    lemma_within_len(es[i].canon()->0, es[j].canon()->0);
}

/// Where two rule sequences agree on the rules and on the statuses that rule
/// `i` depends on, the duplicates and fallbacks of rule `i` are the same.
proof fn lemma_candidates_agree(
    es: Seq<PathEntry>,
    s: Seq<PathStatus>,
    es2: Seq<PathEntry>,
    s2: Seq<PathStatus>,
    i: int,
)
    requires
        0 <= i < es.len(),
        same_rules(es, es2),
        s.len() == es.len(),
        s2.len() == es.len(),
        forall|j: int| depends_on(es, i, j) ==> s[j] == s2[j],
    ensures
        es[i].canon() == es2[i].canon(),
        es[i].action == es2[i].action,
        forall|j: int| 0 <= j < es.len() ==> #[trigger] es[j].action == es2[j].action,
        forall|j: int| is_duplicate(es, s, i, j) == is_duplicate(es2, s2, i, j),
        forall|j: int| is_fallback(es, s, i, j) == is_fallback(es2, s2, i, j),
        forall|j: int| is_first_duplicate(es, s, i, j) == is_first_duplicate(es2, s2, i, j),
        forall|j: int| is_nearest_fallback(es, s, i, j) == is_nearest_fallback(es2, s2, i, j),
{
    assert forall|j: int| is_duplicate(es, s, i, j) == is_duplicate(es2, s2, i, j) by {
        if 0 <= j < i {
            assert(es[j].canon() == es2[j].canon());
            if es[j].canon() is Some && es[j].canon() == es[i].canon() {
                assert(depends_on(es, i, j));
            }
        }
    }
    assert forall|j: int| is_fallback(es, s, i, j) == is_fallback(es2, s2, i, j) by {
        if 0 <= j < es.len() && j != i {
            assert(es[j].canon() == es2[j].canon());
            if es[i].canon() is Some && es[j].canon() is Some && is_strictly_within(
                es[i].canon()->0,
                es[j].canon()->0,
            ) {
                assert(depends_on(es, i, j));
            }
        }
    }
    assert forall|j: int| 0 <= j < es.len() implies key_len(es[j]) == key_len(es2[j]) by {
        assert(es[j].canon() == es2[j].canon());
    }
    assert forall|j: int|
        is_first_duplicate(es, s, i, j) == is_first_duplicate(es2, s2, i, j) by {
        if is_first_duplicate(es, s, i, j) {
            assert forall|k: int| 0 <= k < j implies !is_duplicate(es2, s2, i, k) by {
                assert(!is_duplicate(es, s, i, k));
            }
        }
        if is_first_duplicate(es2, s2, i, j) {
            assert forall|k: int| 0 <= k < j implies !is_duplicate(es, s, i, k) by {
                assert(!is_duplicate(es2, s2, i, k));
            }
        }
    }
    assert forall|j: int|
        is_nearest_fallback(es, s, i, j) == is_nearest_fallback(es2, s2, i, j) by {
        if is_nearest_fallback(es, s, i, j) {
            assert forall|k: int| #[trigger] is_fallback(es2, s2, i, k) implies key_len(es2[k]) < key_len(es2[j]) || (key_len(es2[k])
            == key_len(es2[j]) && j <= k) by {
                assert(is_fallback(es, s, i, k));
            }
        }
        if is_nearest_fallback(es2, s2, i, j) {
            assert forall|k: int| #[trigger] is_fallback(es, s, i, k) implies key_len(es[k]) < key_len(es[j]) || (key_len(es[k])
            == key_len(es[j]) && j <= k) by {
                assert(is_fallback(es2, s2, i, k));
            }
        }
    }
    assert(es[i].canon() == es2[i].canon());
    assert forall|j: int| 0 <= j < es.len() implies #[trigger] es[j].action == es2[j].action by {
        assert(es[j].action == es2[j].action);
    }
}

/// Resolution of rule `i` reads the statuses of its dependencies only, and the
/// paths, actions and modes of the rules.
proof fn lemma_rule_resolved_frame(
    es: Seq<PathEntry>,
    s: Seq<PathStatus>,
    o: Seq<Option<usize>>,
    es2: Seq<PathEntry>,
    s2: Seq<PathStatus>,
    o2: Seq<Option<usize>>,
    i: int,
)
    requires
        0 <= i < es.len(),
        same_rules(es, es2),
        s.len() == es.len(),
        s2.len() == es.len(),
        o.len() == es.len(),
        o2.len() == es.len(),
        s[i] == s2[i],
        o[i] == o2[i],
        forall|j: int| depends_on(es, i, j) ==> s[j] == s2[j],
    ensures
        rule_resolved(es, s, o, i) == rule_resolved(es2, s2, o2, i),
{
    lemma_candidates_agree(es, s, es2, s2, i);
}

/// The resolution of rule `i` does not read the status of rule `i` itself.
proof fn lemma_own_status_ignored(es: Seq<PathEntry>, s: Seq<PathStatus>, s2: Seq<PathStatus>, i: int)
    requires
        0 <= i < es.len(),
        s.len() == es.len(),
        s2.len() == es.len(),
        forall|j: int| 0 <= j < es.len() && j != i ==> s[j] == s2[j],
    ensures
        forall|j: int| is_duplicate(es, s, i, j) == is_duplicate(es, s2, i, j),
        forall|j: int| is_fallback(es, s, i, j) == is_fallback(es, s2, i, j),
        forall|j: int| is_first_duplicate(es, s, i, j) == is_first_duplicate(es, s2, i, j),
        forall|j: int| is_nearest_fallback(es, s, i, j) == is_nearest_fallback(es, s2, i, j),
{
    assert forall|j: int| is_duplicate(es, s, i, j) == is_duplicate(es, s2, i, j) by {}
    assert forall|j: int| is_fallback(es, s, i, j) == is_fallback(es, s2, i, j) by {}
    assert forall|j: int| is_first_duplicate(es, s, i, j) == is_first_duplicate(es, s2, i, j) by {
        if is_first_duplicate(es, s, i, j) {
            assert forall|k: int| 0 <= k < j implies !is_duplicate(es, s2, i, k) by {
                assert(!is_duplicate(es, s, i, k));
            }
        }
        if is_first_duplicate(es, s2, i, j) {
            assert forall|k: int| 0 <= k < j implies !is_duplicate(es, s, i, k) by {
                assert(!is_duplicate(es, s2, i, k));
            }
        }
    }
    assert forall|j: int| is_nearest_fallback(es, s, i, j) == is_nearest_fallback(es, s2, i, j) by {
        if is_nearest_fallback(es, s, i, j) {
            assert forall|k: int| #[trigger] is_fallback(es, s2, i, k) implies key_len(es[k]) < key_len(es[j]) || (key_len(es[k])
            == key_len(es[j]) && j <= k) by {
                assert(is_fallback(es, s, i, k));
            }
        }
        if is_nearest_fallback(es, s2, i, j) {
            assert forall|k: int| #[trigger] is_fallback(es, s, i, k) implies key_len(es[k]) < key_len(es[j]) || (key_len(es[k])
            == key_len(es[j]) && j <= k) by {
                assert(is_fallback(es, s2, i, k));
            }
        }
    }
}

/// Position `x` occurs in `order`.
pub open spec fn lists(order: Seq<usize>, x: int) -> bool {
    exists|a: int| 0 <= a < order.len() && order[a] == x
}

/// `order` lists every position of `es` once, in processing order.
pub open spec fn is_processing_order(es: Seq<PathEntry>, order: Seq<usize>) -> bool {
    &&& order.len() == es.len()
    &&& forall|a: int| 0 <= a < order.len() ==> order[a] < es.len()
    &&& forall|a: int, b: int|
        0 <= a < b < order.len() ==> processed_before(es, order[a] as int, order[b] as int)
    &&& forall|x: int| 0 <= x < es.len() ==> #[trigger] lists(order, x)
}

fn canon_len(e: &PathEntry) -> (r: usize)
    ensures
        r == key_len(*e),
{
    match &e.canonical {
        Some(c) => c.len(),
        None => 0,
    }
}

/// The positions of `entries` sorted by canonical path length, ties by position.
fn build_processing_order(entries: &Vec<PathEntry>) -> (order: Vec<usize>)
    ensures
        is_processing_order(entries@, order@),
{
    let ghost es = entries@;
    let mut order: Vec<usize> = Vec::new();
    let mut i: usize = 0;
    while i < entries.len()
        invariant
            es == entries@,
            i <= es.len(),
            order@.len() == i,
            forall|a: int| 0 <= a < order@.len() ==> order@[a] < i,
            forall|a: int, b: int|
                0 <= a < b < order@.len() ==> processed_before(es, order@[a] as int, order@[b] as int),
            forall|x: int| 0 <= x < i ==> #[trigger] lists(order@, x),
        decreases es.len() - i,
    {
        let len_i = canon_len(&entries[i]);
        let mut pos: usize = 0;
        while pos < order.len() && canon_len(&entries[order[pos]]) <= len_i
            invariant
                es == entries@,
                i < es.len(),
                len_i == key_len(es[i as int]),
                pos <= order@.len(),
                forall|a: int| 0 <= a < order@.len() ==> order@[a] < i,
                forall|a: int| 0 <= a < pos ==> key_len(es[order@[a] as int]) <= len_i,
            decreases order@.len() - pos,
        {
            pos = pos + 1;
        }
        let ghost old_order = order@;
        order.insert(pos, i);
        proof {
            assert(order@ == old_order.insert(pos as int, i));
            assert forall|a: int| 0 <= a < order@.len() implies order@[a] <= i by {}
            assert forall|a: int, b: int|
                0 <= a < b < order@.len() implies processed_before(
                es,
                order@[a] as int,
                order@[b] as int,
            ) by {
                if b < pos {
                } else if b == pos {
                } else if a < pos {
                    if pos < old_order.len() {
                        assert(processed_before(es, old_order[a] as int, old_order[pos as int] as int));
                    }
                } else if a == pos {
                    if pos < old_order.len() {
                        assert(processed_before(es, old_order[pos as int] as int, old_order[b - 1] as int)
                            || b - 1 == pos);
                    }
                } else {
                    assert(processed_before(es, old_order[a - 1] as int, old_order[b - 1] as int));
                }
            }
            assert forall|x: int| 0 <= x < i + 1 implies #[trigger] lists(order@, x) by {
                if x == i {
                    assert(order@[pos as int] == x);
                } else {
                    assert(lists(old_order, x));
                    let a = choose|a: int| 0 <= a < old_order.len() && old_order[a] == x;
                    if a < pos {
                        assert(order@[a] == x);
                    } else {
                        assert(order@[a + 1] == x);
                    }
                }
            }
        }
        i = i + 1;
    }
    order
}

/// The first earlier active rule with the same canonical path as rule `idx`.
fn find_duplicate(entries: &Vec<PathEntry>, statuses: &Vec<PathStatus>, idx: usize) -> (r: Option<
    usize,
>)
    requires
        idx < entries@.len(),
        statuses@.len() == entries@.len(),
        entries@[idx as int].canon() is Some,
    ensures
        match r {
            Some(j) => is_first_duplicate(entries@, statuses@, idx as int, j as int),
            None => forall|j: int| !is_duplicate(entries@, statuses@, idx as int, j),
        },
{
    let ci = entries[idx].canonical.as_ref().unwrap();
    let mut j: usize = 0;
    while j < idx
        invariant
            idx < entries@.len(),
            statuses@.len() == entries@.len(),
            entries@[idx as int].canon() == Some(ci@),
            j <= idx,
            forall|k: int| 0 <= k < j ==> !is_duplicate(entries@, statuses@, idx as int, k),
        decreases idx - j,
    {
        if let Some(cj) = &entries[j].canonical {
            if same_path(cj.as_slice(), ci.as_slice()) && statuses[j] == PathStatus::Active {
                return Some(j);
            }
        }
        j = j + 1;
    }
    None
}

/// The active recursive rule with the longest path that strictly contains
/// that of rule `idx`.
fn find_fallback_parent(entries: &Vec<PathEntry>, statuses: &Vec<PathStatus>, idx: usize) -> (r:
    Option<usize>)
    requires
        idx < entries@.len(),
        statuses@.len() == entries@.len(),
        entries@[idx as int].canon() is Some,
    ensures
        match r {
            Some(j) => is_nearest_fallback(entries@, statuses@, idx as int, j as int),
            None => forall|j: int| !is_fallback(entries@, statuses@, idx as int, j),
        },
{
    let ghost es = entries@;
    let ghost s = statuses@;
    let ci = entries[idx].canonical.as_ref().unwrap();
    let mut best: Option<usize> = None;
    let mut best_len: usize = 0;
    let mut j: usize = 0;
    while j < entries.len()
        invariant
            es == entries@,
            s == statuses@,
            idx < es.len(),
            s.len() == es.len(),
            es[idx as int].canon() == Some(ci@),
            j <= es.len(),
            match best {
                Some(b) => {
                    &&& b < j
                    &&& is_fallback(es, s, idx as int, b as int)
                    &&& best_len == key_len(es[b as int])
                    &&& forall|k: int|
                        0 <= k < j && #[trigger] is_fallback(es, s, idx as int, k) ==> key_len(es[k])
                            < best_len || (key_len(es[k]) == best_len && b <= k)
                },
                None => forall|k: int| 0 <= k < j ==> !is_fallback(es, s, idx as int, k),
            },
        decreases es.len() - j,
    {
        if j != idx && statuses[j] == PathStatus::Active && entries[j].mode == PathMode::Recursive {
            if let Some(cj) = &entries[j].canonical {
                if path_within(ci.as_slice(), cj.as_slice()) && !same_path(ci.as_slice(), cj.as_slice()) {
                    let jlen = cj.len();
                    let better = match best {
                        None => true,
                        Some(_) => jlen > best_len,
                    };
                    if better {
                        best = Some(j);
                        best_len = jlen;
                    }
                }
            }
        }
        j = j + 1;
    }
    best
}

/// Resolve every rule of `entries` in place.
///
/// A rule without a canonical path keeps the status its validation gave it.
/// A valid rule becomes redundant to an earlier active rule with the same
/// path; otherwise it is compared with the nearest active recursive rule above
/// it: the same action makes it redundant to that rule, another action makes
/// it an active override of it, and with no such rule it is active.
pub fn compute_statuses(entries: &mut Vec<PathEntry>)
    ensures
        same_rules(old(entries)@, final(entries)@),
        forall|i: int|
            #![trigger final(entries)@[i]]
            0 <= i < old(entries)@.len() ==> final(entries)@[i].raw == old(entries)@[i].raw
                && final(entries)@[i].canonical == old(entries)@[i].canonical,
        forall|i: int|
            #![trigger final(entries)@[i]]
            0 <= i < old(entries)@.len() && old(entries)@[i].canonical is None
                ==> final(entries)@[i].status == old(entries)@[i].status,
        resolved(final(entries)@),
        re_resolved(final(entries)@, old(entries)@),
{
    let ghost es = entries@;
    let n = entries.len();
    let order = build_processing_order(entries);
    let mut statuses: Vec<PathStatus> = Vec::new();
    let mut overrides: Vec<Option<usize>> = Vec::new();
    let mut i: usize = 0;
    while i < n
        invariant
            es == entries@,
            n == es.len(),
            i <= n,
            statuses@.len() == i,
            overrides@.len() == i,
            forall|k: int|
                0 <= k < i ==> #[trigger] statuses@[k] == (if es[k].canon() is Some {
                    PathStatus::Active
                } else {
                    es[k].status
                }) && overrides@[k] is None,
        decreases n - i,
    {
        let tentative = if entries[i].canonical.is_some() {
            PathStatus::Active
        } else {
            entries[i].status
        };
        statuses.push(tentative);
        overrides.push(None);
        i = i + 1;
    }
    let mut k: usize = 0;
    while k < n
        invariant
            es == entries@,
            n == es.len(),
            is_processing_order(es, order@),
            k <= n,
            statuses@.len() == n,
            overrides@.len() == n,
            forall|a: int|
                0 <= a < k ==> #[trigger] rule_resolved(es, statuses@, overrides@, order@[a] as int),
            forall|a: int|
                k <= a < n && es[order@[a] as int].canon() is Some ==> statuses@[#[trigger] order@[a] as int]
                    == PathStatus::Active && overrides@[order@[a] as int] is None,
            forall|x: int|
                0 <= x < n && es[x].canon() is None ==> #[trigger] statuses@[x] == es[x].status
                    && overrides@[x] is None,
        decreases n - k,
    {
        let idx = order[k];
        let ghost s0 = statuses@;
        let ghost o0 = overrides@;
        if entries[idx].canonical.is_some() {
            match find_duplicate(entries, &statuses, idx) {
                Some(d) => {
                    statuses.set(idx, PathStatus::Redundant(d));
                    assert(is_duplicate(es, statuses@, idx as int, d as int));
                },
                None => {
                    let fallback = find_fallback_parent(entries, &statuses, idx);
                    assert forall|j: int| !is_duplicate(es, statuses@, idx as int, j) by {
                        assert(!is_duplicate(es, s0, idx as int, j));
                    }
                    match fallback {
                        Some(f) => {
                            if entries[f].action == entries[idx].action {
                                statuses.set(idx, PathStatus::Redundant(f));
                            } else {
                                overrides.set(idx, Some(f));
                            }
                            assert(is_fallback(es, statuses@, idx as int, f as int));
                        },
                        None => {
                            assert forall|j: int| !is_fallback(es, statuses@, idx as int, j) by {
                                assert(!is_fallback(es, s0, idx as int, j));
                            }
                        },
                    }
                },
            }
        }
        proof {
            lemma_own_status_ignored(es, s0, statuses@, idx as int);
            assert(rule_resolved(es, statuses@, overrides@, idx as int));
            assert forall|a: int| 0 <= a < k + 1 implies #[trigger] rule_resolved(
                es,
                statuses@,
                overrides@,
                order@[a] as int,
            ) by {
                if a < k {
                    let x = order@[a] as int;
                    assert(processed_before(es, x, idx as int));
                    assert forall|j: int| depends_on(es, x, j) implies s0[j] == statuses@[j] by {
                        lemma_dependency_processed_first(es, x, j);
                    }
                    lemma_rule_resolved_frame(es, s0, o0, es, statuses@, overrides@, x);
                }
            }
            assert forall|a: int|
                k + 1 <= a < n && es[order@[a] as int].canon() is Some implies statuses@[#[trigger] order@[a] as int]
                    == PathStatus::Active && overrides@[order@[a] as int] is None by {
                assert(processed_before(es, idx as int, order@[a] as int));
            }
        }
        k = k + 1;
    }
    proof {
        assert forall|x: int| 0 <= x < n implies #[trigger] rule_resolved(es, statuses@, overrides@, x) by {
            assert(lists(order@, x));
            let a = choose|a: int| 0 <= a < order@.len() && order@[a] == x;
            assert(rule_resolved(es, statuses@, overrides@, order@[a] as int));
        }
    }
    let mut i: usize = 0;
    while i < n
        invariant
            n == es.len(),
            entries@.len() == n,
            statuses@.len() == n,
            overrides@.len() == n,
            i <= n,
            forall|x: int| 0 <= x < n ==> #[trigger] rule_resolved(es, statuses@, overrides@, x),
            forall|x: int|
                0 <= x < n && es[x].canon() is None ==> #[trigger] statuses@[x] == es[x].status,
            forall|x: int|
                #![trigger entries@[x]]
                0 <= x < n ==> entries@[x].raw == es[x].raw && entries@[x].canonical
                    == es[x].canonical && entries@[x].action == es[x].action && entries@[x].mode
                    == es[x].mode,
            forall|x: int|
                #![trigger entries@[x]]
                0 <= x < i ==> entries@[x].status == statuses@[x] && entries@[x].overrides
                    == overrides@[x],
        decreases n - i,
    {
        entries[i].status = statuses[i];
        entries[i].overrides = overrides[i];
        i = i + 1;
    }
    proof {
        let fs = entries@;
        assert(statuses_of(fs) =~= statuses@);
        assert(overrides_of(fs) =~= overrides@);
        assert(same_rules(es, fs));
        assert forall|x: int| 0 <= x < n implies #[trigger] rule_resolved(
            fs,
            statuses_of(fs),
            overrides_of(fs),
            x,
        ) by {
            lemma_rule_resolved_frame(es, statuses@, overrides@, fs, statuses@, overrides@, x);
        }
        assert(rules_of(fs) =~= rules_of(es)) by {
            assert forall|x: int| 0 <= x < n implies rules_of(fs)[x] == rules_of(es)[x] by {
                assert(fs[x].canonical == es[x].canonical);
            }
        }
    }
}

/// The status and override of rule `i` agree in two resolved sequences of the
/// same rules, given that the invalid rules carry the same statuses.
proof fn lemma_resolved_agree_at(a: Seq<PathEntry>, b: Seq<PathEntry>, i: int)
    requires
        resolved(a),
        resolved(b),
        same_rules(a, b),
        forall|x: int| 0 <= x < a.len() && a[x].canon() is None ==> #[trigger] a[x].status == b[x].status,
        0 <= i < a.len(),
    ensures
        a[i].status == b[i].status,
        a[i].overrides == b[i].overrides,
    decreases key_len(a[i]), i,
{
    let sa = statuses_of(a);
    let sb = statuses_of(b);
    let oa = overrides_of(a);
    let ob = overrides_of(b);
    assert forall|j: int| depends_on(a, i, j) implies sa[j] == sb[j] by {
        lemma_dependency_processed_first(a, i, j);
        lemma_resolved_agree_at(a, b, j);
    }
    lemma_candidates_agree(a, sa, b, sb, i);
    assert(rule_resolved(a, sa, oa, i));
    assert(rule_resolved(b, sb, ob, i));
    if a[i].canon() is None {
        assert(a[i].status == b[i].status);
    } else if exists|j: int| is_duplicate(a, sa, i, j) {
        let j1 = choose|j: int|
            is_first_duplicate(a, sa, i, j) && sa[i] == PathStatus::Redundant(j as usize) && oa[i] is None;
        let j2 = choose|j: int|
            is_first_duplicate(b, sb, i, j) && sb[i] == PathStatus::Redundant(j as usize) && ob[i] is None;
        assert(is_first_duplicate(a, sa, i, j2));
        if j1 < j2 {
            assert(!is_duplicate(a, sa, i, j1));
        }
        if j2 < j1 {
            assert(!is_duplicate(a, sa, i, j2));
        }
    } else if exists|j: int| is_fallback(a, sa, i, j) {
        let j1 = choose|j: int|
            #![trigger is_nearest_fallback(a, sa, i, j)]
            is_nearest_fallback(a, sa, i, j) && if a[j].action == a[i].action {
                sa[i] == PathStatus::Redundant(j as usize) && oa[i] is None
            } else {
                sa[i] == PathStatus::Active && oa[i] == Some(j as usize)
            };
        assert(exists|j: int| is_fallback(b, sb, i, j));
        let j2 = choose|j: int|
            #![trigger is_nearest_fallback(b, sb, i, j)]
            is_nearest_fallback(b, sb, i, j) && if b[j].action == b[i].action {
                sb[i] == PathStatus::Redundant(j as usize) && ob[i] is None
            } else {
                sb[i] == PathStatus::Active && ob[i] == Some(j as usize)
            };
        assert(is_nearest_fallback(a, sa, i, j2));
        assert(is_fallback(a, sa, i, j1));
        assert(is_fallback(a, sa, i, j2));
        assert(j1 == j2);
    } else {
        assert(!exists|j: int| is_duplicate(b, sb, i, j));
        assert(!exists|j: int| is_fallback(b, sb, i, j));
    }
}

/// Resolution is a function of the rules: two resolved sequences that hold the
/// same rules, and the same statuses on the rules that failed validation, carry
/// the same statuses and overrides. Running the resolution again on its own
/// output therefore changes nothing.
pub proof fn lemma_resolution_deterministic(a: Seq<PathEntry>, b: Seq<PathEntry>)
    requires
        resolved(a),
        resolved(b),
        same_rules(a, b),
        forall|x: int| 0 <= x < a.len() && a[x].canon() is None ==> #[trigger] a[x].status == b[x].status,
    ensures
        forall|i: int|
            0 <= i < a.len() ==> #[trigger] a[i].status == b[i].status && a[i].overrides == b[i].overrides,
{
    assert forall|i: int| 0 <= i < a.len() implies #[trigger] a[i].status == b[i].status && a[i].overrides
        == b[i].overrides by {
        lemma_resolved_agree_at(a, b, i);
    }
}

/// No two rules of a resolved sequence are active on the same canonical path.
pub proof fn lemma_active_paths_distinct(es: Seq<PathEntry>, i: int, j: int)
    requires
        resolved(es),
        0 <= i < j < es.len(),
        es[i].canon() is Some,
        es[i].canon() == es[j].canon(),
        es[i].status == PathStatus::Active,
    ensures
        es[j].status != PathStatus::Active,
{
    let s = statuses_of(es);
    assert(rule_resolved(es, s, overrides_of(es), j));
    assert(is_duplicate(es, s, j, i));
}

/// Of two rules with the same canonical path, the later one is redundant to the
/// earlier one once the earlier one is active, whatever their actions.
pub proof fn lemma_same_path_later_redundant(es: Seq<PathEntry>, i: int, j: int)
    requires
        resolved(es),
        0 <= i < j < es.len(),
        es[i].canon() is Some,
        es[i].canon() == es[j].canon(),
        es[i].status == PathStatus::Active,
    ensures
        es[j].status == PathStatus::Redundant(i as usize),
        es[j].overrides is None,
{
    let s = statuses_of(es);
    let o = overrides_of(es);
    assert(rule_resolved(es, s, o, j));
    assert(is_duplicate(es, s, j, i));
    let d = choose|d: int| is_first_duplicate(es, s, j, d) && s[j] == PathStatus::Redundant(d as usize) && o[j] is None;
    if d < i {
        lemma_active_paths_distinct(es, d, i);
    }
    if i < d {
        assert(!is_duplicate(es, s, j, i));
    }
}

} // verus!
