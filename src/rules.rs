//! The watch rules of the configuration: what each rule says, what became of
//! it once validated and resolved, and the active projection the watcher uses.

use vstd::prelude::*;

verus! {

/// What a rule does with the names below its path.
#[derive(Debug, Clone, Copy, PartialEq, Eq, Structural)]
pub enum PathAction {
    Watch,
    Ignore,
}

impl PathAction {
    pub open spec fn label(&self) -> Seq<char> {
        match self {
            PathAction::Watch => "Watch"@,
            PathAction::Ignore => "Ignore"@,
        }
    }

    pub fn as_str(&self) -> (r: &'static str)
        ensures
            r@ == self.label(),
    {
        match self {
            PathAction::Watch => "Watch",
            PathAction::Ignore => "Ignore",
        }
    }

    pub fn toggle(&self) -> (r: Self)
        ensures
            r != *self,
    {
        match self {
            PathAction::Watch => PathAction::Ignore,
            PathAction::Ignore => PathAction::Watch,
        }
    }
}

/// How far below its path a rule reaches.
#[derive(Debug, Clone, Copy, PartialEq, Eq, Structural)]
pub enum PathMode {
    /// The directory and everything below it.
    Recursive,
    /// Only the entries directly inside the directory.
    Children,
}

impl PathMode {
    pub open spec fn label(&self) -> Seq<char> {
        match self {
            PathMode::Recursive => "Recursive"@,
            PathMode::Children => "Children"@,
        }
    }

    pub fn as_str(&self) -> (r: &'static str)
        ensures
            r@ == self.label(),
    {
        match self {
            PathMode::Recursive => "Recursive",
            PathMode::Children => "Children",
        }
    }

    pub fn toggle(&self) -> (r: Self)
        ensures
            r != *self,
    {
        match self {
            PathMode::Recursive => PathMode::Children,
            PathMode::Children => PathMode::Recursive,
        }
    }
}

/// The state of a rule after validation and resolution.
#[derive(Debug, Clone, Copy, PartialEq, Eq, Structural)]
pub enum PathStatus {
    Active,
    NotFound,
    NotADirectory,
    PermissionDenied,
    /// Its effect is already given by the rule at this position.
    Redundant(usize),
}

impl PathStatus {
    pub open spec fn label(&self) -> Seq<char> {
        match self {
            PathStatus::Active => "Active"@,
            PathStatus::NotFound => "Not Found"@,
            PathStatus::NotADirectory => "Not a Dir"@,
            PathStatus::PermissionDenied => "No Access"@,
            PathStatus::Redundant(_) => "Redundant"@,
        }
    }

    pub open spec fn mark(&self) -> Seq<char> {
        match self {
            PathStatus::Active => "\u{2713}"@,
            PathStatus::Redundant(_) => "~"@,
            _ => "\u{2717}"@,
        }
    }

    pub fn as_str(&self) -> (r: &'static str)
        ensures
            r@ == self.label(),
    {
        match self {
            PathStatus::Active => "Active",
            PathStatus::NotFound => "Not Found",
            PathStatus::NotADirectory => "Not a Dir",
            PathStatus::PermissionDenied => "No Access",
            PathStatus::Redundant(_) => "Redundant",
        }
    }

    pub fn symbol(&self) -> (r: &'static str)
        ensures
            r@ == self.mark(),
    {
        match self {
            PathStatus::Active => "\u{2713}",
            PathStatus::Redundant(_) => "~",
            PathStatus::NotFound => "\u{2717}",
            PathStatus::NotADirectory => "\u{2717}",
            PathStatus::PermissionDenied => "\u{2717}",
        }
    }
}

/// One rule of the configuration.
#[derive(Debug, Clone)]
pub struct PathEntry {
    /// The path as the user wrote it.
    pub raw: String,
    pub action: PathAction,
    pub mode: PathMode,
    /// The absolute, symlink-free path, when the rule names an existing directory.
    pub canonical: Option<Vec<u8>>,
    pub status: PathStatus,
    /// The position of the ancestor rule whose action this rule reverses.
    pub overrides: Option<usize>,
}

impl PathEntry {
    /// The canonical path as a byte sequence, when there is one.
    pub open spec fn canon(&self) -> Option<Seq<u8>> {
        match self.canonical {
            Some(c) => Some(c@),
            None => None,
        }
    }

    /// A rule for `raw`, carrying the outcome of validating that path.
    pub fn new(
        raw: String,
        action: PathAction,
        mode: PathMode,
        validated: (Option<Vec<u8>>, PathStatus),
    ) -> (r: Self)
        ensures
            r.raw@ == raw@,
            r.action == action,
            r.mode == mode,
            r.canonical == validated.0,
            r.status == validated.1,
            r.overrides is None,
    {
        let (canonical, status) = validated;
        PathEntry { raw, action, mode, canonical, status, overrides: None }
    }
}

/// What the watcher needs of an active rule.
#[derive(Debug, Clone)]
pub struct ActiveEntry {
    pub canonical: Vec<u8>,
    pub action: PathAction,
    pub mode: PathMode,
}

impl View for ActiveEntry {
    type V = (Seq<u8>, PathAction, PathMode);

    open spec fn view(&self) -> (Seq<u8>, PathAction, PathMode) {
        (self.canonical@, self.action, self.mode)
    }
}

} // verus!
