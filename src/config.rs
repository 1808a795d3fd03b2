//! The configuration as a whole: building it from validated rules, refreshing
//! it after a new validation, and projecting its active rules.

use vstd::prelude::*;
use crate::resolve::{compute_statuses, resolved, same_rules};
use crate::paths::copy_path;
use crate::rules::{ActiveEntry, PathAction, PathEntry, PathMode, PathStatus};

verus! {

/// The active rules of `es`, in order, as (canonical path, action, mode).
pub open spec fn active_projection(es: Seq<PathEntry>) -> Seq<(Seq<u8>, PathAction, PathMode)>
    decreases es.len(),
{
    if es.len() == 0 {
        Seq::empty()
    } else {
        let rest = active_projection(es.drop_last());
        let e = es.last();
        match e.canon() {
            Some(c) => if e.status == PathStatus::Active {
                rest.push((c, e.action, e.mode))
            } else {
                rest
            },
            None => rest,
        }
    }
}

/// The ordered rule sequence of the configuration.
#[derive(Debug, Clone)]
pub struct Config {
    pub paths: Vec<PathEntry>,
}

impl Config {
    /// A configuration with no rules.
    pub fn empty() -> (r: Self)
        ensures
            r.paths@.len() == 0,
    {
        Config { paths: Vec::new() }
    }

    /// The configuration of the validated rules `paths`, resolved.
    pub fn from_entries(paths: Vec<PathEntry>) -> (r: Self)
        ensures
            same_rules(paths@, r.paths@),
            forall|i: int|
                #![trigger r.paths@[i]]
                0 <= i < paths@.len() ==> r.paths@[i].raw == paths@[i].raw && r.paths@[i].canonical
                    == paths@[i].canonical,
            forall|i: int|
                #![trigger r.paths@[i]]
                0 <= i < paths@.len() && paths@[i].canonical is None ==> r.paths@[i].status
                    == paths@[i].status,
            resolved(r.paths@),
    {
        let mut paths = paths;
        compute_statuses(&mut paths);
        Config { paths }
    }

    /// Take in a new validation of every rule, `validations[i]` being the
    /// canonical path and status found for rule `i`, and resolve again.
    pub fn refresh_statuses(&mut self, validations: Vec<(Option<Vec<u8>>, PathStatus)>)
        requires
            validations@.len() == old(self).paths@.len(),
        ensures
            final(self).paths@.len() == old(self).paths@.len(),
            forall|i: int|
                #![trigger final(self).paths@[i]]
                0 <= i < old(self).paths@.len() ==> {
                    &&& final(self).paths@[i].raw == old(self).paths@[i].raw
                    &&& final(self).paths@[i].action == old(self).paths@[i].action
                    &&& final(self).paths@[i].mode == old(self).paths@[i].mode
                    &&& final(self).paths@[i].canonical == validations@[i].0
                    &&& (validations@[i].0 is None ==> final(self).paths@[i].status
                        == validations@[i].1)
                },
            resolved(final(self).paths@),
    {
        let ghost es = self.paths@;
        let ghost vs = validations@;
        let mut validations = validations;
        let mut k: usize = validations.len();
        while k > 0
            invariant
                k <= es.len(),
                validations@ == vs.subrange(0, k as int),
                vs.len() == es.len(),
                self.paths@.len() == es.len(),
                forall|i: int|
                    #![trigger self.paths@[i]]
                    0 <= i < es.len() ==> self.paths@[i].raw == es[i].raw && self.paths@[i].action
                        == es[i].action && self.paths@[i].mode == es[i].mode,
                forall|i: int|
                    #![trigger self.paths@[i]]
                    k <= i < es.len() ==> self.paths@[i].canonical == vs[i].0
                        && self.paths@[i].status == vs[i].1,
            decreases k,
        {
            let (canonical, status) = validations.pop().unwrap();
            k = k - 1;
            assert(validations@ =~= vs.subrange(0, k as int));
            self.paths[k].canonical = canonical;
            self.paths[k].status = status;
            self.paths[k].overrides = None;
        }
        let ghost mid = self.paths@;
        compute_statuses(&mut self.paths);
        proof {
            assert forall|i: int| 0 <= i < es.len() implies #[trigger] self.paths@[i].canonical == vs[i].0 by {
                assert(mid[i].canonical == vs[i].0);
            }
        }
    }

    /// The active rules, in order, for the watcher.
    pub fn active_entries(&self) -> (r: Vec<ActiveEntry>)
        ensures
            r@.map_values(|a: ActiveEntry| a@) == active_projection(self.paths@),
    {
        let ghost es = self.paths@;
        let mut out: Vec<ActiveEntry> = Vec::new();
        let mut i: usize = 0;
        while i < self.paths.len()
            invariant
                es == self.paths@,
                i <= es.len(),
                out@.map_values(|a: ActiveEntry| a@) == active_projection(es.subrange(0, i as int)),
            decreases es.len() - i,
        {
            let ghost before = out@;
            let e = &self.paths[i];
            assert(es.subrange(0, i + 1).drop_last() =~= es.subrange(0, i as int));
            if let Some(c) = &e.canonical {
                if e.status == PathStatus::Active {
                    out.push(ActiveEntry { canonical: copy_path(c), action: e.action, mode: e.mode });
                    assert(out@.map_values(|a: ActiveEntry| a@) =~= before.map_values(
                        |a: ActiveEntry| a@,
                    ).push((c@, e.action, e.mode)));
                }
            }
            i = i + 1;
        }
        assert(es.subrange(0, es.len() as int) =~= es);
        out
    }
}

} // verus!
