//! The runtime pipeline's decisions: which active rule governs an event's
//! path, whether the event goes on to conversion, and the debouncing of bursts
//! of events per path.

use vstd::prelude::*;
use crate::normalize::{in_target_form, NormalizationTarget};
use crate::paths::{copy_path, is_child_of, is_within, path_child_of, path_within};
use crate::rules::{ActiveEntry, PathAction, PathMode};

verus! {

/// At most this many conversions run at once.
pub const MAX_CONCURRENT_CONVERSIONS: usize = 200;

/// Events for one path that arrive within this many milliseconds collapse into one.
pub const DEBOUNCE_WINDOW_MS: u64 = 100;

/// Capacity of the channel from the watcher to the processing loop.
pub const EVENT_CHANNEL_CAPACITY: usize = 100;

/// The active rule `e` reaches the path `p`.
pub open spec fn rule_matches(e: (Seq<u8>, PathAction, PathMode), p: Seq<u8>) -> bool {
    match e.2 {
        PathMode::Recursive => is_within(p, e.0),
        PathMode::Children => is_child_of(p, e.0),
    }
}

/// Rule `i` of `es` governs `p`: it reaches `p`, and no rule that reaches `p`
/// has a longer path, nor one as long at an earlier position.
pub open spec fn governs(es: Seq<ActiveEntry>, p: Seq<u8>, i: int) -> bool {
    &&& 0 <= i < es.len()
    &&& rule_matches(es[i]@, p)
    &&& forall|k: int|
        0 <= k < es.len() && #[trigger] rule_matches(es[k]@, p) ==> es[k].canonical@.len()
            < es[i].canonical@.len() || (es[k].canonical@.len() == es[i].canonical@.len() && i
            <= k)
}

/// An event on `p` goes on to conversion: a Watch rule governs it.
pub open spec fn is_watched(es: Seq<ActiveEntry>, p: Seq<u8>) -> bool {
    exists|i: int| governs(es, p, i) && es[i].action == PathAction::Watch
}

fn matches_rule(e: &ActiveEntry, p: &[u8]) -> (r: bool)
    ensures
        r == rule_matches(e@, p@),
{
    match e.mode {
        PathMode::Recursive => path_within(p, e.canonical.as_slice()),
        PathMode::Children => path_child_of(p, e.canonical.as_slice()),
    }
}

/// The position of the rule that governs `path`: the deepest rule that reaches it.
pub fn effective_rule(entries: &Vec<ActiveEntry>, path: &[u8]) -> (r: Option<usize>)
    ensures
        match r {
            Some(i) => governs(entries@, path@, i as int),
            None => forall|k: int| 0 <= k < entries@.len() ==> !rule_matches(entries@[k]@, path@),
        },
{
    let mut best: Option<usize> = None;
    let mut i: usize = 0;
    while i < entries.len()
        invariant
            i <= entries@.len(),
            match best {
                Some(b) => b < i && rule_matches(entries@[b as int]@, path@) && forall|k: int|
                    0 <= k < i && #[trigger] rule_matches(entries@[k]@, path@)
                        ==> entries@[k].canonical@.len() < entries@[b as int].canonical@.len() || (
                    entries@[k].canonical@.len() == entries@[b as int].canonical@.len() && b <= k),
                None => forall|k: int| 0 <= k < i ==> !rule_matches(entries@[k]@, path@),
            },
        decreases entries@.len() - i,
    {
        if matches_rule(&entries[i], path) {
            let better = match best {
                None => true,
                Some(b) => entries[i].canonical.len() > entries[b].canonical.len(),
            };
            if better {
                best = Some(i);
            }
        }
        i = i + 1;
    }
    best
}

/// Whether an event on `path` goes on to conversion: some rule governs it,
/// and that rule watches. Events that no rule reaches, or whose governing
/// rule ignores them, are dropped.
pub fn should_dispatch(entries: &Vec<ActiveEntry>, path: &[u8]) -> (r: bool)
    ensures
        r == is_watched(entries@, path@),
{
    match effective_rule(entries, path) {
        Some(i) => {
            let watch = entries[i].action == PathAction::Watch;
            proof {
                if !watch {
                    assert forall|j: int| governs(entries@, path@, j) implies entries@[j].action
                        != PathAction::Watch by {
                        assert(j == i);
                    }
                }
            }
            watch
        },
        None => false,
    }
}

/// Whether a raw event is worth a debounce slot: a Watch rule governs its path
/// and the name it reports is not already in the target form.
pub fn admit_event(
    entries: &Vec<ActiveEntry>,
    path: &[u8],
    reported_name: &str,
    target: NormalizationTarget,
) -> (r: bool)
    ensures
        r == (is_watched(entries@, path@) && !in_target_form(target, reported_name@)),
{
    should_dispatch(entries, path) && target.needs_conversion(reported_name)
}

/// The native watches for the active rules `es`, in order: one per Watch rule,
/// recursive for a recursive rule. Ignore rules get none.
pub open spec fn watch_plan(es: Seq<(Seq<u8>, PathAction, PathMode)>) -> Seq<(Seq<u8>, bool)>
    decreases es.len(),
{
    if es.len() == 0 {
        Seq::empty()
    } else {
        let rest = watch_plan(es.drop_last());
        let e = es.last();
        if e.1 == PathAction::Watch {
            rest.push((e.0, e.2 == PathMode::Recursive))
        } else {
            rest
        }
    }
}

/// The native watches to register for the active rules: each Watch rule's
/// path, with whether the watch is recursive.
pub fn watch_registrations(entries: &Vec<ActiveEntry>) -> (r: Vec<(Vec<u8>, bool)>)
    ensures
        r@.map_values(|w: (Vec<u8>, bool)| (w.0@, w.1)) == watch_plan(
            entries@.map_values(|e: ActiveEntry| e@),
        ),
{
    let ghost es = entries@.map_values(|e: ActiveEntry| e@);
    let mut out: Vec<(Vec<u8>, bool)> = Vec::new();
    let mut i: usize = 0;
    while i < entries.len()
        invariant
            es == entries@.map_values(|e: ActiveEntry| e@),
            i <= entries@.len(),
            out@.map_values(|w: (Vec<u8>, bool)| (w.0@, w.1)) == watch_plan(es.subrange(0, i as int)),
        decreases entries@.len() - i,
    {
        assert(es.subrange(0, i + 1).drop_last() =~= es.subrange(0, i as int));
        let ghost before = out@.map_values(|w: (Vec<u8>, bool)| (w.0@, w.1));
        let e = &entries[i];
        if e.action == PathAction::Watch {
            let recursive = e.mode == PathMode::Recursive;
            out.push((copy_path(&e.canonical), recursive));
            assert(out@.map_values(|w: (Vec<u8>, bool)| (w.0@, w.1)) =~= before.push(
                (es[i as int].0, recursive),
            ));
        }
        i = i + 1;
    }
    assert(es.subrange(0, es.len() as int) =~= es);
    out
}

/// The pending events after one more event `ev` on `p`: it takes the place of
/// the pending event on `p`, or joins the end.
pub open spec fn after_record<T>(pending: Seq<(Seq<u8>, T)>, p: Seq<u8>, ev: T) -> Seq<(Seq<u8>, T)> {
    if exists|i: int| 0 <= i < pending.len() && pending[i].0 == p {
        let i = choose|i: int| 0 <= i < pending.len() && pending[i].0 == p;
        pending.update(i, (p, ev))
    } else {
        pending.push((p, ev))
    }
}

/// No path occurs twice among the pending events.
pub open spec fn distinct_paths<T>(pending: Seq<(Seq<u8>, T)>) -> bool {
    forall|i: int, j: int|
        0 <= i < j < pending.len() ==> #[trigger] pending[i].0 != #[trigger] pending[j].0
}

/// The most recent event per path, held until the next tick.
pub struct Debouncer<T> {
    pending: Vec<(Vec<u8>, T)>,
}

impl<T> Debouncer<T> {
    /// The pending events, in the order their paths first arrived.
    pub closed spec fn view(&self) -> Seq<(Seq<u8>, T)> {
        self.pending@.map_values(|e: (Vec<u8>, T)| (e.0@, e.1))
    }

    pub closed spec fn wf(&self) -> bool {
        distinct_paths(self.view())
    }

    pub fn new() -> (r: Self)
        ensures
            r.wf(),
            r.view().len() == 0,
    {
        let r = Debouncer { pending: Vec::new() };
        assert(r.view() =~= Seq::empty());
        r
    }

    /// Take in an event on `path`, replacing any pending event on that path.
    pub fn record(&mut self, path: Vec<u8>, ev: T)
        requires
            old(self).wf(),
        ensures
            final(self).wf(),
            final(self).view() == after_record(old(self).view(), path@, ev),
    {
        let ghost v = self.view();
        let mut i: usize = 0;
        while i < self.pending.len()
            invariant
                v == self.view(),
                v == old(self).view(),
                distinct_paths(v),
                v.len() == self.pending@.len(),
                i <= self.pending@.len(),
                forall|k: int| 0 <= k < i ==> v[k].0 != path@,
            decreases self.pending@.len() - i,
        {
            if crate::paths::same_path(self.pending[i].0.as_slice(), path.as_slice()) {
                let ghost p = path@;
                self.pending.set(i, (path, ev));
                proof {
                    assert(v[i as int].0 == p);
                    assert forall|k: int| 0 <= k < v.len() && v[k].0 == p implies k == i by {
                        if k != i {
                            if k < i {
                                assert(v[k].0 != p);
                            } else {
                                assert(v[i as int].0 != v[k].0);
                            }
                        }
                    }
                    assert(self.view() =~= v.update(i as int, (p, ev)));
                    assert(distinct_paths(self.view()));
                    assert(exists|k: int| 0 <= k < v.len() && v[k].0 == p);
                    let c = choose|k: int| 0 <= k < v.len() && v[k].0 == p;
                    assert(c == i);

                }
                return;
            }
            i = i + 1;
        }
        let ghost p = path@;
        self.pending.push((path, ev));
        assert(self.view() =~= v.push((p, ev)));
    }

    /// Hand out every pending event, one per distinct path, and start a new window.
    pub fn drain(&mut self) -> (r: Vec<(Vec<u8>, T)>)
        requires
            old(self).wf(),
        ensures
            final(self).wf(),
            final(self).view().len() == 0,
            r@.map_values(|e: (Vec<u8>, T)| (e.0@, e.1)) == old(self).view(),
            distinct_paths(old(self).view()),
    {
        let mut out: Vec<(Vec<u8>, T)> = Vec::new();
        std::mem::swap(&mut out, &mut self.pending);
        assert(self.view() =~= Seq::empty());
        out
    }

    /// How many distinct paths are pending.
    pub fn len(&self) -> (r: usize)
        ensures
            r == self.view().len(),
    {
        self.pending.len()
    }
}

/// The pending events after the events `evs`, in order, starting from `pending`.
pub open spec fn after_all<T>(pending: Seq<(Seq<u8>, T)>, evs: Seq<(Seq<u8>, T)>) -> Seq<(Seq<u8>, T)>
    decreases evs.len(),
{
    if evs.len() == 0 {
        pending
    } else {
        after_record(after_all(pending, evs.drop_last()), evs.last().0, evs.last().1)
    }
}

/// A burst of events on one path within one window leaves exactly one pending
/// event, the last of the burst: one conversion is dispatched for it.
pub proof fn lemma_burst_yields_one<T>(evs: Seq<(Seq<u8>, T)>, p: Seq<u8>)
    requires
        evs.len() > 0,
        forall|k: int| 0 <= k < evs.len() ==> #[trigger] evs[k].0 == p,
    ensures
        after_all(Seq::empty(), evs) == seq![(p, evs.last().1)],
    decreases evs.len(),
{
    let rest = evs.drop_last();
    if rest.len() == 0 {
        assert(after_all(Seq::<(Seq<u8>, T)>::empty(), rest) == Seq::<(Seq<u8>, T)>::empty());
        assert(seq![(p, evs.last().1)] =~= Seq::<(Seq<u8>, T)>::empty().push((p, evs.last().1)));
    } else {
        assert forall|k: int| 0 <= k < rest.len() implies #[trigger] rest[k].0 == p by {
            assert(rest[k] == evs[k]);
        }
        lemma_burst_yields_one(rest, p);
        let before = after_all(Seq::<(Seq<u8>, T)>::empty(), rest);
        assert(before[0].0 == p);
        let i = choose|i: int| 0 <= i < before.len() && before[i].0 == p;
        assert(i == 0);
        assert(before.update(0, (p, evs.last().1)) =~= seq![(p, evs.last().1)]);
    }
}

} // verus!
