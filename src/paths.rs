//! Canonical filesystem paths as byte strings, and the component-wise
//! relations between them that the watch rules are built on.

use vstd::prelude::*;

verus! {

/// The byte that separates path components.
pub const SEP: u8 = 0x2f;

/// `p` equals `base`, or continues it past a component boundary
/// (the relation of `Path::starts_with` on canonical paths).
pub open spec fn is_within(p: Seq<u8>, base: Seq<u8>) -> bool {
    p == base || (base.len() < p.len() && p.subrange(0, base.len() as int) == base && ((
    base.len() > 0 && base.last() == SEP) || p[base.len() as int] == SEP))
}

/// `p` lies below `base` and is not `base` itself.
pub open spec fn is_strictly_within(p: Seq<u8>, base: Seq<u8>) -> bool {
    is_within(p, base) && p != base
}

/// Index at which the last component of `p` below `dir` starts.
pub open spec fn name_start(dir: Seq<u8>) -> int {
    if dir.len() > 0 && dir.last() == SEP {
        dir.len() as int
    } else {
        (dir.len() + 1) as int
    }
}

/// `p` names an entry directly inside `dir`: its parent directory is `dir`.
pub open spec fn is_child_of(p: Seq<u8>, dir: Seq<u8>) -> bool {
    &&& is_strictly_within(p, dir)
    &&& name_start(dir) < p.len()
    &&& forall|k: int| name_start(dir) <= k < p.len() ==> p[k] != SEP
}

/// Whether two paths are the same byte string.
pub fn same_path(a: &[u8], b: &[u8]) -> (r: bool)
    ensures
        r == (a@ == b@),
{
    if a.len() != b.len() {
        return false;
    }
    let mut i: usize = 0;
    while i < a.len()
        invariant
            a@.len() == b@.len(),
            i <= a@.len(),
            forall|k: int| 0 <= k < i ==> a@[k] == b@[k],
        decreases a@.len() - i,
    {
        if a[i] != b[i] {
            return false;
        }
        i = i + 1;
    }
    assert(a@ =~= b@);
    true
}

/// A copy of a path.
pub fn copy_path(p: &Vec<u8>) -> (r: Vec<u8>)
    ensures
        r@ == p@,
{
    let mut r: Vec<u8> = Vec::new();
    let mut i: usize = 0;
    while i < p.len()
        invariant
            i <= p@.len(),
            r@ == p@.subrange(0, i as int),
        decreases p@.len() - i,
    {
        r.push(p[i]);
        i = i + 1;
        assert(r@ =~= p@.subrange(0, i as int));
    }
    assert(r@ =~= p@);
    r
}

/// Whether the first `base.len()` bytes of `p` are `base`.
fn has_prefix(p: &[u8], base: &[u8]) -> (r: bool)
    ensures
        r == (base@.len() <= p@.len() && p@.subrange(0, base@.len() as int) == base@),
{
    if base.len() > p.len() {
        return false;
    }
    let mut i: usize = 0;
    while i < base.len()
        invariant
            base@.len() <= p@.len(),
            i <= base@.len(),
            forall|k: int| 0 <= k < i ==> p@[k] == base@[k],
        decreases base@.len() - i,
    {
        if p[i] != base[i] {
            assert(p@.subrange(0, base@.len() as int)[i as int] != base@[i as int]);
            return false;
        }
        i = i + 1;
    }
    assert(p@.subrange(0, base@.len() as int) =~= base@);
    true
}

/// Whether `p` equals `base` or lies below it.
pub fn path_within(p: &[u8], base: &[u8]) -> (r: bool)
    ensures
        r == is_within(p@, base@),
{
    if same_path(p, base) {
        return true;
    }
    if base.len() >= p.len() || !has_prefix(p, base) {
        return false;
    }
    (base.len() > 0 && base[base.len() - 1] == SEP) || p[base.len()] == SEP
}

/// Whether `p` names an entry directly inside `dir`.
pub fn path_child_of(p: &[u8], dir: &[u8]) -> (r: bool)
    ensures
        r == is_child_of(p@, dir@),
{
    if !path_within(p, dir) || same_path(p, dir) {
        return false;
    }
    if dir.len() >= p.len() {
        return false;
    }
    let start: usize = if dir.len() > 0 && dir[dir.len() - 1] == SEP {
        dir.len()
    } else {
        dir.len() + 1
    };
    if start >= p.len() {
        return false;
    }
    let mut k: usize = start;
    while k < p.len()
        invariant
            start <= k <= p@.len(),
            start == name_start(dir@),
            forall|m: int| start <= m < k ==> p@[m] != SEP,
        decreases p@.len() - k,
    {
        if p[k] == SEP {
            return false;
        }
        k = k + 1;
    }
    true
}

/// A path within another is at least as long.
pub proof fn lemma_within_len(p: Seq<u8>, base: Seq<u8>)
    ensures
        is_within(p, base) ==> base.len() <= p.len(),
        is_strictly_within(p, base) ==> base.len() < p.len(),
{
}

} // verus!
