//! Short notices shown by the editor, at most a few at once.

use vstd::prelude::*;
use crate::timing::now;

verus! {

/// How many notices may be on display before the oldest starts to leave.
pub const MAX_TOASTS: usize = 5;

#[derive(Debug, Clone, Copy, PartialEq, Eq, Structural)]
pub enum ToastLevel {
    Success,
    Error,
}

/// Whether a notice is shown in place or sliding away since an instant.
#[derive(Debug, Clone, Copy)]
pub enum ToastPhase {
    Display,
    SlideOut { started_at: std::time::Instant },
}

#[derive(Debug)]
pub struct Toast {
    pub message: String,
    pub level: ToastLevel,
    pub created_at: std::time::Instant,
    pub phase: ToastPhase,
}

impl View for Toast {
    /// The message, its level, and whether it is sliding away.
    type V = (Seq<char>, ToastLevel, bool);

    open spec fn view(&self) -> (Seq<char>, ToastLevel, bool) {
        (self.message@, self.level, self.phase is SlideOut)
    }
}

/// The notices `s` with the first one still on display set sliding away.
pub open spec fn retire_first_shown(s: Seq<(Seq<char>, ToastLevel, bool)>) -> Seq<(Seq<char>, ToastLevel, bool)> {
    if exists|i: int| 0 <= i < s.len() && !s[i].2 {
        let i = choose|i: int| 0 <= i < s.len() && !s[i].2 && forall|k: int| 0 <= k < i ==> #[trigger] s[k].2;
        s.update(i, (s[i].0, s[i].1, true))
    } else {
        s
    }
}

/// The notices on screen, oldest first.
#[derive(Debug)]
pub struct ToastState {
    toasts: Vec<Toast>,
}

impl ToastState {
    pub closed spec fn view(&self) -> Seq<(Seq<char>, ToastLevel, bool)> {
        self.toasts@.map_values(|t: Toast| t@)
    }

    pub fn new() -> (r: Self)
        ensures
            r.view().len() == 0,
    {
        let r = ToastState { toasts: Vec::new() };
        assert(r.view() =~= Seq::empty());
        r
    }

    /// How many notices there are.
    pub fn len(&self) -> (r: usize)
        ensures
            r == self.view().len(),
    {
        self.toasts.len()
    }

    /// Whether notice `i` is sliding away.
    pub fn is_leaving(&self, i: usize) -> (r: bool)
        requires
            i < self.view().len(),
        ensures
            r == self.view()[i as int].2,
    {
        match self.toasts[i].phase {
            ToastPhase::Display => false,
            ToastPhase::SlideOut { .. } => true,
        }
    }

    /// Show a new notice; when the screen already holds the most notices, the
    /// oldest one still on display starts to leave.
    pub fn push(&mut self, message: String, level: ToastLevel)
        ensures
            final(self).view() == (if old(self).view().len() >= MAX_TOASTS {
                retire_first_shown(old(self).view())
            } else {
                old(self).view()
            }).push((message@, level, false)),
    {
        let ghost s = self.view();
        if self.toasts.len() >= MAX_TOASTS {
            let mut i: usize = 0;
            while i < self.toasts.len()
                invariant_except_break
                    s == self.view(),
                    forall|k: int| 0 <= k < i ==> #[trigger] s[k].2,
                invariant
                    s == old(self).view(),
                    s.len() == self.toasts@.len(),
                    i <= s.len(),
                ensures
                    self.view() == retire_first_shown(s),
                decreases s.len() - i,
            {
                let shown = match self.toasts[i].phase {
                    ToastPhase::Display => true,
                    ToastPhase::SlideOut { .. } => false,
                };
                if shown {
                    self.toasts[i].phase = ToastPhase::SlideOut { started_at: now() };
                    proof {
                        assert(!s[i as int].2);
                        let c = choose|c: int| 0 <= c < s.len() && !s[c].2 && forall|k: int| 0 <= k < c ==> #[trigger] s[k].2;
                        if c < i {
                            assert(s[c].2);
                        }
                        if i < c {
                            assert(s[i as int].2);
                        }
                        assert(self.view() =~= retire_first_shown(s));
                    }
                    break;
                }
                i = i + 1;
            }
        }
        proof {
            if s.len() >= MAX_TOASTS {
                assert(self.view() == retire_first_shown(s));
            }
        }
        let ghost mid = self.view();
        let ghost mv = message@;
        self.toasts.push(Toast { message, level, created_at: now(), phase: ToastPhase::Display });
        assert(self.view() =~= mid.push((mv, level, false)));
    }
}

} // verus!
