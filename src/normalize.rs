//! The normalization engine's decisions: which form a name should take, whether
//! a rename is due, which directory entry is the file on disk, where a walk
//! goes next, and which failures are benign.

use vstd::prelude::*;
use vstd::string::StrSliceExecFns;
use unicode_normalization::UnicodeNormalization;
use crate::validate::IoFailure;

verus! {

/// The canonical composition (NFC) of a text.
pub uninterp spec fn nfc_of(s: Seq<char>) -> Seq<char>;

/// The canonical decomposition (NFD) of a text.
pub uninterp spec fn nfd_of(s: Seq<char>) -> Seq<char>;

/// Relies on `UnicodeNormalization::nfc` of unicode_normalization, collected
/// into a `String`: the NFC form of the text.
#[verifier::external_body]
fn compose(s: &str) -> (r: String)
    ensures
        r@ == nfc_of(s@),
{
    s.nfc().collect()
}

/// Relies on `UnicodeNormalization::nfd` of unicode_normalization, collected
/// into a `String`: the NFD form of the text.
#[verifier::external_body]
fn decompose(s: &str) -> (r: String)
    ensures
        r@ == nfd_of(s@),
{
    s.nfd().collect()
}

/// Relies on `unicode_normalization::is_nfc`, the authoritative check that a
/// text is in NFC, that is, equal to its composition.
#[verifier::external_body]
fn in_nfc(s: &str) -> (r: bool)
    ensures
        r == (s@ == nfc_of(s@)),
{
    unicode_normalization::is_nfc(s)
}

/// Relies on `unicode_normalization::is_nfd`, the authoritative check that a
/// text is in NFD, that is, equal to its decomposition.
#[verifier::external_body]
fn in_nfd(s: &str) -> (r: bool)
    ensures
        r == (s@ == nfd_of(s@)),
{
    unicode_normalization::is_nfd(s)
}

/// The normalization form that names are converted to.
#[derive(Debug, Clone, Copy, PartialEq, Eq, Structural)]
pub enum NormalizationTarget {
    NFC,
    NFD,
}

/// `name` in the form `target`.
pub open spec fn target_form(target: NormalizationTarget, name: Seq<char>) -> Seq<char> {
    match target {
        NormalizationTarget::NFC => nfc_of(name),
        NormalizationTarget::NFD => nfd_of(name),
    }
}

/// `name` is already in the form `target`.
pub open spec fn in_target_form(target: NormalizationTarget, name: Seq<char>) -> bool {
    name == target_form(target, name)
}

impl NormalizationTarget {
    pub open spec fn label(&self) -> Seq<char> {
        match self {
            NormalizationTarget::NFC => "NFC"@,
            NormalizationTarget::NFD => "NFD"@,
        }
    }

    pub fn as_str(&self) -> (r: &'static str)
        ensures
            r@ == self.label(),
    {
        match self {
            NormalizationTarget::NFC => "NFC",
            NormalizationTarget::NFD => "NFD",
        }
    }

    /// `name` converted to this form.
    pub fn convert(&self, name: &str) -> (r: String)
        ensures
            r@ == target_form(*self, name@),
    {
        match self {
            NormalizationTarget::NFC => compose(name),
            NormalizationTarget::NFD => decompose(name),
        }
    }

    /// Whether `name` differs from its form under this target.
    pub fn needs_conversion(&self, name: &str) -> (r: bool)
        ensures
            r == !in_target_form(*self, name@),
    {
        match self {
            NormalizationTarget::NFC => !in_nfc(name),
            NormalizationTarget::NFD => !in_nfd(name),
        }
    }
}

/// The new name for an entry whose name on disk is `actual_name`: none when
/// the name is already in the target form (nothing is renamed, and the
/// operation succeeds), otherwise the name converted to that form.
pub fn plan_rename(actual_name: &str, target: NormalizationTarget) -> (r: Option<String>)
    ensures
        r is None <==> in_target_form(target, actual_name@),
        r matches Some(n) ==> n@ == target_form(target, actual_name@),
{
    if !target.needs_conversion(actual_name) {
        None
    } else {
        Some(target.convert(actual_name))
    }
}

/// The rename that converts a name to `target` without asking the directory
/// which form it stores: from the other form of the name to the target form;
/// none when both forms of the name are the same text.
pub fn heuristic_rename_plan(name: &str, target: NormalizationTarget) -> (r: Option<(String, String)>)
    ensures
        r is None <==> nfc_of(name@) == nfd_of(name@),
        r matches Some(p) ==> (match target {
            NormalizationTarget::NFC => p.0@ == nfd_of(name@) && p.1@ == nfc_of(name@),
            NormalizationTarget::NFD => p.0@ == nfc_of(name@) && p.1@ == nfd_of(name@),
        }),
{
    let composed = compose(name);
    let decomposed = decompose(name);
    if composed == decomposed {
        return None;
    }
    match target {
        NormalizationTarget::NFC => Some((decomposed, composed)),
        NormalizationTarget::NFD => Some((composed, decomposed)),
    }
}

/// Why a normalization failed.
#[derive(Debug, Clone)]
pub enum NormalizerError {
    InvalidName(String),
    RenameError { from: String, to: String, kind: IoFailure },
    ReadDirError(String, IoFailure),
    OpenError(String, IoFailure),
    FcntlError,
    Utf8Error,
}

impl NormalizerError {
    /// The entry had vanished: it was deleted or already renamed before it
    /// could be opened or renamed. Such a failure is benign.
    pub open spec fn vanished(&self) -> bool {
        match self {
            NormalizerError::OpenError(_, IoFailure::NotFound) => true,
            NormalizerError::RenameError { kind: IoFailure::NotFound, .. } => true,
            _ => false,
        }
    }

    pub fn is_not_found(&self) -> (r: bool)
        ensures
            r == self.vanished(),
    {
        match self {
            NormalizerError::OpenError(_, IoFailure::NotFound) => true,
            NormalizerError::RenameError { kind: IoFailure::NotFound, .. } => true,
            _ => false,
        }
    }
}

/// What identifies a file on disk: its device and inode numbers.
#[derive(Debug, Clone, Copy, PartialEq, Eq, Structural)]
pub struct FileIdentity {
    pub dev: u64,
    pub ino: u64,
}

/// The first directory entry that is the same file as `target`: the entry
/// whose name the directory actually stores for it.
pub fn find_same_file(entries: &Vec<FileIdentity>, target: FileIdentity) -> (r: Option<usize>)
    ensures
        match r {
            Some(i) => i < entries@.len() && entries@[i as int] == target && forall|k: int|
                0 <= k < i ==> entries@[k] != target,
            None => forall|k: int| 0 <= k < entries@.len() ==> entries@[k] != target,
        },
{
    let mut i: usize = 0;
    while i < entries.len()
        invariant
            i <= entries@.len(),
            forall|k: int| 0 <= k < i ==> entries@[k] != target,
        decreases entries@.len() - i,
    {
        if entries[i].dev == target.dev && entries[i].ino == target.ino {
            return Some(i);
        }
        i = i + 1;
    }
    None
}

/// Whether a directory walk enters a subdirectory: only when recursing, into a
/// real directory (not a symbolic link) on the device the walk started on.
pub fn should_descend(recursive: bool, is_dir: bool, is_symlink: bool, same_device: bool) -> (r:
    bool)
    ensures
        r == (recursive && is_dir && !is_symlink && same_device),
{
    recursive && is_dir && !is_symlink && same_device
}

/// The entries `.` and `..`, which a walk skips.
pub open spec fn is_dot_name(name: Seq<char>) -> bool {
    name == seq!['.'] || name == seq!['.', '.']
}

pub fn is_dot_entry(name: &str) -> (r: bool)
    ensures
        r == is_dot_name(name@),
{
    let n = name.unicode_len();
    if n == 1 {
        name.get_char(0) == '.' && {
            assert(name@ =~= seq![name@[0]]);
            true
        }
    } else if n == 2 {
        name.get_char(0) == '.' && name.get_char(1) == '.' && {
            assert(name@ =~= seq![name@[0], name@[1]]);
            true
        }
    } else {
        false
    }
}

/// The directories a one-shot conversion still has to process, first in first
/// out, so that a tree is processed level by level.
pub struct DirectoryWalk {
    queue: std::collections::VecDeque<Vec<u8>>,
    recursive: bool,
}

impl DirectoryWalk {
    /// The directories still to process, in order.
    pub closed spec fn view(&self) -> Seq<Seq<u8>> {
        self.queue@.map_values(|d: Vec<u8>| d@)
    }

    pub closed spec fn is_recursive(&self) -> bool {
        self.recursive
    }

    /// A walk that starts at `root`.
    pub fn new(root: Vec<u8>, recursive: bool) -> (r: Self)
        ensures
            r.view() == seq![root@],
            r.is_recursive() == recursive,
    {
        let ghost rv = root@;
        let mut queue = std::collections::VecDeque::new();
        queue.push_back(root);
        let r = DirectoryWalk { queue, recursive };
        assert(r.view() =~= seq![rv]);
        r
    }

    /// The next directory to process, the one queued first.
    pub fn next_dir(&mut self) -> (r: Option<Vec<u8>>)
        ensures
            final(self).is_recursive() == old(self).is_recursive(),
            old(self).view().len() == 0 ==> r is None && final(self).view() == old(self).view(),
            old(self).view().len() > 0 ==> (r matches Some(d) && d@ == old(self).view()[0])
                && final(self).view() == old(self).view().drop_first(),
    {
        let ghost before = self.queue@;
        let r = self.queue.pop_front();
        proof {
            if before.len() > 0 {
                assert(self.view() =~= before.map_values(|d: Vec<u8>| d@).drop_first());
            } else {
                assert(self.view() =~= before.map_values(|d: Vec<u8>| d@));
            }
        }
        r
    }

    /// Report an entry met in the current directory, after any rename, at
    /// `path`. It is queued, and `true` returned, when the walk descends into
    /// it: when recursing, into a real directory (never a symbolic link) on
    /// the device the walk started on.
    pub fn found(&mut self, path: Vec<u8>, is_dir: bool, is_symlink: bool, same_device: bool) -> (r:
        bool)
        ensures
            r == (old(self).is_recursive() && is_dir && !is_symlink && same_device),
            final(self).is_recursive() == old(self).is_recursive(),
            final(self).view() == if r {
                old(self).view().push(path@)
            } else {
                old(self).view()
            },
    {
        let descend = should_descend(self.recursive, is_dir, is_symlink, same_device);
        if descend {
            let ghost before = self.queue@;
            let ghost pv = path@;
            self.queue.push_back(path);
            assert(self.view() =~= before.map_values(|d: Vec<u8>| d@).push(pv));
        }
        descend
    }
}

} // verus!
