//! The interactive editor's operations on the rule sequence: selection,
//! reordering, toggling, adding and deleting rules. Every change that touches
//! the sequence resolves it anew, since positions and statuses depend on it.

use vstd::prelude::*;
use crate::config::Config;
use crate::resolve::{compute_statuses, re_resolved};
use crate::numbers::{dec_digits, push_decimal};
use crate::rules::{PathAction, PathEntry, PathMode, PathStatus};
use vstd::string::StringExecFns;

verus! {

/// The rule `e` with its action toggled; a rule that becomes an Ignore rule
/// becomes recursive as well.
pub open spec fn with_action_toggled(e: PathEntry) -> PathEntry {
    let a = if e.action == PathAction::Watch {
        PathAction::Ignore
    } else {
        PathAction::Watch
    };
    PathEntry { action: a, mode: if a == PathAction::Ignore { PathMode::Recursive } else { e.mode }, ..e }
}

/// The rule `e` with its mode toggled.
pub open spec fn with_mode_toggled(e: PathEntry) -> PathEntry {
    PathEntry {
        mode: if e.mode == PathMode::Recursive {
            PathMode::Children
        } else {
            PathMode::Recursive
        },
        ..e
    }
}

/// The rule sequence being edited, the selected rule, and whether there are
/// unsaved changes.
#[derive(Debug)]
pub struct ConfigState {
    pub config: Config,
    pub selected: Option<usize>,
    pub has_changes: bool,
}

impl ConfigState {
    /// The selection, if any, names a rule.
    pub open spec fn wf(&self) -> bool {
        match self.selected {
            Some(i) => i < self.config.paths@.len(),
            None => true,
        }
    }

    /// Edit `config`, with its first rule selected, if it has one.
    pub fn from_config(config: Config) -> (r: Self)
        ensures
            r.wf(),
            r.config == config,
            r.selected == (if config.paths@.len() == 0 {
                None::<usize>
            } else {
                Some(0usize)
            }),
            !r.has_changes,
    {
        let selected = if config.paths.len() == 0 {
            None
        } else {
            Some(0)
        };
        ConfigState { config, selected, has_changes: false }
    }

    /// Select the next rule, staying on the last one.
    pub fn select_next(&mut self)
        requires
            old(self).wf(),
        ensures
            final(self).wf(),
            final(self).config == old(self).config,
            final(self).has_changes == old(self).has_changes,
            final(self).selected == (if old(self).config.paths@.len() == 0 {
                old(self).selected
            } else {
                match old(self).selected {
                    Some(i) => Some(
                        if i + 1 < old(self).config.paths@.len() {
                            (i + 1) as usize
                        } else {
                            i
                        },
                    ),
                    None => Some(0usize),
                }
            }),
    {
        let n = self.config.paths.len();
        if n == 0 {
            return;
        }
        self.selected = match self.selected {
            Some(i) => Some(
                if i + 1 < n {
                    i + 1
                } else {
                    i
                },
            ),
            None => Some(0),
        };
    }

    /// Select the previous rule, staying on the first one.
    pub fn select_previous(&mut self)
        requires
            old(self).wf(),
        ensures
            final(self).wf(),
            final(self).config == old(self).config,
            final(self).has_changes == old(self).has_changes,
            final(self).selected == (if old(self).config.paths@.len() == 0 {
                old(self).selected
            } else {
                match old(self).selected {
                    Some(i) => Some(
                        if i > 0 {
                            (i - 1) as usize
                        } else {
                            0usize
                        },
                    ),
                    None => Some(0usize),
                }
            }),
    {
        if self.config.paths.len() == 0 {
            return;
        }
        self.selected = match self.selected {
            Some(i) => Some(
                if i > 0 {
                    i - 1
                } else {
                    0
                },
            ),
            None => Some(0),
        };
    }

    /// Move the selected rule one place up, keeping it selected.
    pub fn move_up(&mut self)
        requires
            old(self).wf(),
        ensures
            final(self).wf(),
            match old(self).selected {
                Some(i) if i > 0 => {
                    let es = old(self).config.paths@;
                    &&& re_resolved(
                        final(self).config.paths@,
                        es.update(i as int, es[i - 1]).update(i - 1, es[i as int]),
                    )
                    &&& final(self).selected == Some((i - 1) as usize)
                    &&& final(self).has_changes
                },
                _ => *final(self) == *old(self),
            },
    {
        if let Some(i) = self.selected {
            if i > 0 {
                let ghost es = self.config.paths@;
                let e = self.config.paths.remove(i);
                self.config.paths.insert(i - 1, e);
                assert(self.config.paths@ =~= es.update(i as int, es[i - 1]).update(
                    i - 1,
                    es[i as int],
                ));
                compute_statuses(&mut self.config.paths);
                self.selected = Some(i - 1);
                self.has_changes = true;
            }
        }
    }

    /// Move the selected rule one place down, keeping it selected.
    pub fn move_down(&mut self)
        requires
            old(self).wf(),
        ensures
            final(self).wf(),
            match old(self).selected {
                Some(i) if i + 1 < old(self).config.paths@.len() => {
                    let es = old(self).config.paths@;
                    &&& re_resolved(
                        final(self).config.paths@,
                        es.update(i as int, es[i + 1]).update(i + 1, es[i as int]),
                    )
                    &&& final(self).selected == Some((i + 1) as usize)
                    &&& final(self).has_changes
                },
                _ => *final(self) == *old(self),
            },
    {
        let n = self.config.paths.len();
        if let Some(i) = self.selected {
            if i + 1 < n {
                let ghost es = self.config.paths@;
                let e = self.config.paths.remove(i);
                self.config.paths.insert(i + 1, e);
                assert(self.config.paths@ =~= es.update(i as int, es[i + 1]).update(
                    i + 1,
                    es[i as int],
                ));
                compute_statuses(&mut self.config.paths);
                self.selected = Some(i + 1);
                self.has_changes = true;
            }
        }
    }

    /// Toggle the action of the selected rule; an Ignore rule is always recursive.
    pub fn toggle_action(&mut self)
        requires
            old(self).wf(),
        ensures
            final(self).wf(),
            match old(self).selected {
                Some(i) => {
                    let es = old(self).config.paths@;
                    &&& re_resolved(
                        final(self).config.paths@,
                        es.update(i as int, with_action_toggled(es[i as int])),
                    )
                    &&& final(self).selected == old(self).selected
                    &&& final(self).has_changes
                },
                None => *final(self) == *old(self),
            },
    {
        if let Some(i) = self.selected {
            let ghost es = self.config.paths@;
            let a = self.config.paths[i].action.toggle();
            self.config.paths[i].action = a;
            if a == PathAction::Ignore {
                self.config.paths[i].mode = PathMode::Recursive;
            }
            assert(self.config.paths@[i as int] == with_action_toggled(es[i as int]));
            assert(self.config.paths@ =~= es.update(i as int, with_action_toggled(es[i as int])));
            compute_statuses(&mut self.config.paths);
            self.has_changes = true;
        }
    }

    /// Toggle the mode of the selected rule, unless it is an Ignore rule.
    pub fn toggle_mode(&mut self)
        requires
            old(self).wf(),
        ensures
            final(self).wf(),
            match old(self).selected {
                Some(i) if old(self).config.paths@[i as int].action == PathAction::Watch => {
                    let es = old(self).config.paths@;
                    &&& re_resolved(
                        final(self).config.paths@,
                        es.update(i as int, with_mode_toggled(es[i as int])),
                    )
                    &&& final(self).selected == old(self).selected
                    &&& final(self).has_changes
                },
                _ => *final(self) == *old(self),
            },
    {
        if let Some(i) = self.selected {
            if self.config.paths[i].action == PathAction::Ignore {
                return;
            }
            let m = self.config.paths[i].mode.toggle();
            self.config.paths[i].mode = m;
            compute_statuses(&mut self.config.paths);
            self.has_changes = true;
        }
    }

    /// Delete the selected rule; the selection stays at its place, or moves to
    /// the last rule, or disappears with the last rule.
    pub fn delete_selected(&mut self)
        requires
            old(self).wf(),
        ensures
            final(self).wf(),
            match old(self).selected {
                Some(i) => {
                    let es = old(self).config.paths@;
                    let n = (es.len() - 1) as int;
                    &&& re_resolved(final(self).config.paths@, es.remove(i as int))
                    &&& final(self).selected == (if n == 0 {
                        None::<usize>
                    } else if i >= n {
                        Some((n - 1) as usize)
                    } else {
                        Some(i)
                    })
                    &&& final(self).has_changes
                },
                None => *final(self) == *old(self),
            },
    {
        if let Some(i) = self.selected {
            self.config.paths.remove(i);
            let n = self.config.paths.len();
            if n == 0 {
                self.selected = None;
            } else if i >= n {
                self.selected = Some(n - 1);
            }
            compute_statuses(&mut self.config.paths);
            self.has_changes = true;
        }
    }

    /// Append a validated rule and select it.
    pub fn add_path(&mut self, entry: PathEntry)
        requires
            old(self).wf(),
            old(self).config.paths@.len() < usize::MAX,
        ensures
            final(self).wf(),
            re_resolved(final(self).config.paths@, old(self).config.paths@.push(entry)),
            final(self).selected == Some(old(self).config.paths@.len() as usize),
            final(self).has_changes,
    {
        self.config.paths.push(entry);
        compute_statuses(&mut self.config.paths);
        self.selected = Some(self.config.paths.len() - 1);
        self.has_changes = true;
    }

    /// The edits have been saved.
    pub fn mark_saved(&mut self)
        ensures
            final(self).config == old(self).config,
            final(self).selected == old(self).selected,
            !final(self).has_changes,
    {
        self.has_changes = false;
    }
}

/// What the rule's action and mode do, for an active rule.
pub open spec fn effect_text(e: PathEntry) -> Seq<char> {
    match (e.action, e.mode) {
        (PathAction::Watch, PathMode::Recursive) => "Watches for changes and auto-converts NFD names to NFC in this directory and all subdirectories."@,
        (PathAction::Watch, PathMode::Children) => "Watches for changes and auto-converts NFD names to NFC in this directory only, not subdirectories."@,
        (PathAction::Ignore, _) => "Excludes this directory and all subdirectories from watching."@,
    }
}

/// The explanation shown for a rule: its text, then on a second line what its
/// status means, rule positions counted from 1.
pub open spec fn description_of(e: PathEntry) -> Seq<char> {
    let desc = match e.status {
        PathStatus::Active => match e.overrides {
            Some(p) => "Overrides #"@ + dec_digits((p + 1) as nat) + ". "@ + effect_text(e),
            None => effect_text(e),
        },
        PathStatus::Redundant(n) => "Redundant: same action as #"@ + dec_digits((n + 1) as nat) + "."@,
        PathStatus::NotFound => "Path not found: this rule is not applied."@,
        PathStatus::NotADirectory => "Not a directory: this rule is not applied."@,
        PathStatus::PermissionDenied => "Permission denied: this rule is not applied."@,
    };
    e.raw@ + "\n"@ + desc
}

fn effect(e: &PathEntry) -> (r: &'static str)
    ensures
        r@ == effect_text(*e),
{
    match (e.action, e.mode) {
        (PathAction::Watch, PathMode::Recursive) => "Watches for changes and auto-converts NFD names to NFC in this directory and all subdirectories.",
        (PathAction::Watch, PathMode::Children) => "Watches for changes and auto-converts NFD names to NFC in this directory only, not subdirectories.",
        (PathAction::Ignore, _) => "Excludes this directory and all subdirectories from watching.",
    }
}

/// The explanation shown for rule `idx`.
pub fn path_description(idx: usize, entries: &Vec<PathEntry>) -> (r: String)
    requires
        idx < entries@.len(),
        entries@[idx as int].overrides matches Some(p) ==> p < usize::MAX,
        entries@[idx as int].status matches PathStatus::Redundant(n) ==> n < usize::MAX,
    ensures
        r@ == description_of(entries@[idx as int]),
{
    let e = &entries[idx];
    let mut r = e.raw.clone();
    r.append("\n");
    match e.status {
        PathStatus::Active => match e.overrides {
            Some(p) => {
                r.append("Overrides #");
                push_decimal(&mut r, p + 1);
                r.append(". ");
                r.append(effect(e));
            },
            None => {
                r.append(effect(e));
            },
        },
        PathStatus::Redundant(n) => {
            r.append("Redundant: same action as #");
            push_decimal(&mut r, n + 1);
            r.append(".");
        },
        PathStatus::NotFound => {
            r.append("Path not found: this rule is not applied.");
        },
        PathStatus::NotADirectory => {
            r.append("Not a directory: this rule is not applied.");
        },
        PathStatus::PermissionDenied => {
            r.append("Permission denied: this rule is not applied.");
        },
    }
    assert(r@ =~= description_of(*e));
    r
}

} // verus!
