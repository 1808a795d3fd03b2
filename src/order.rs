//! Lexicographic order on paths, and sorting by it.

use vstd::prelude::*;

verus! {

broadcast use vstd::seq_lib::to_multiset_insert, vstd::seq_lib::to_multiset_build;

/// `a` comes no later than `b` in byte-wise lexicographic order.
pub open spec fn lex_le(a: Seq<u8>, b: Seq<u8>) -> bool
    decreases a.len(),
{
    if a.len() == 0 {
        true
    } else if b.len() == 0 {
        false
    } else if a[0] != b[0] {
        a[0] < b[0]
    } else {
        lex_le(a.drop_first(), b.drop_first())
    }
}

/// Every path comes no later than the ones after it.
pub open spec fn is_sorted(s: Seq<Seq<u8>>) -> bool {
    forall|i: int, j: int| 0 <= i < j < s.len() ==> lex_le(#[trigger] s[i], #[trigger] s[j])
}

pub open spec fn views(v: Seq<Vec<u8>>) -> Seq<Seq<u8>> {
    v.map_values(|p: Vec<u8>| p@)
}

pub proof fn lemma_lex_total(a: Seq<u8>, b: Seq<u8>)
    ensures
        lex_le(a, b) || lex_le(b, a),
    decreases a.len(),
{
    if a.len() > 0 && b.len() > 0 && a[0] == b[0] {
        lemma_lex_total(a.drop_first(), b.drop_first());
    }
}

pub proof fn lemma_lex_transitive(a: Seq<u8>, b: Seq<u8>, c: Seq<u8>)
    requires
        lex_le(a, b),
        lex_le(b, c),
    ensures
        lex_le(a, c),
    decreases a.len(),
{
    if a.len() > 0 && b.len() > 0 && c.len() > 0 && a[0] == b[0] && b[0] == c[0] {
        lemma_lex_transitive(a.drop_first(), b.drop_first(), c.drop_first());
    }
}

/// Whether `a` comes no later than `b`.
pub fn path_le(a: &[u8], b: &[u8]) -> (r: bool)
    ensures
        r == lex_le(a@, b@),
{
    let mut i: usize = 0;
    assert(a@.subrange(0, a@.len() as int) =~= a@);
    assert(b@.subrange(0, b@.len() as int) =~= b@);
    while i < a.len() && i < b.len() && a[i] == b[i]
        invariant
            i <= a@.len(),
            i <= b@.len(),
            lex_le(a@, b@) == lex_le(a@.subrange(i as int, a@.len() as int), b@.subrange(i as int, b@.len() as int)),
        decreases a@.len() - i,
    {
        assert(a@.subrange(i as int, a@.len() as int).drop_first() =~= a@.subrange(i + 1, a@.len() as int));
        assert(b@.subrange(i as int, b@.len() as int).drop_first() =~= b@.subrange(i + 1, b@.len() as int));
        i = i + 1;
    }
    if i == a.len() {
        true
    } else if i == b.len() {
        false
    } else {
        a[i] < b[i]
    }
}

/// `paths` in lexicographic order.
pub fn sort_paths(paths: Vec<Vec<u8>>) -> (r: Vec<Vec<u8>>)
    ensures
        is_sorted(views(r@)),
        views(r@).to_multiset() == views(paths@).to_multiset(),
{
    let ghost vs = views(paths@);
    let n = paths.len();
    let mut rest = paths;
    let mut out: Vec<Vec<u8>> = Vec::new();
    let mut k: usize = n;
    assert(views(out@) =~= vs.subrange(n as int, n as int));
    while k > 0
        invariant
            k <= n,
            vs.len() == n,
            views(rest@) == vs.subrange(0, k as int),
            is_sorted(views(out@)),
            views(out@).to_multiset() == vs.subrange(k as int, n as int).to_multiset(),
        decreases k,
    {
        let ghost old_rest = rest@;
        assert(views(old_rest).len() == old_rest.len());
        let x = rest.pop().unwrap();
        k = k - 1;
        assert(rest@ == old_rest.drop_last());
        assert(views(rest@) =~= views(old_rest).drop_last());
        assert(views(rest@) =~= vs.subrange(0, k as int));
        assert(x == old_rest.last());
        assert(views(old_rest)[k as int] == old_rest[k as int]@);
        assert(x@ == vs[k as int]);
        let ghost before = views(out@);
        let mut pos: usize = 0;
        while pos < out.len() && path_le(out[pos].as_slice(), x.as_slice())
            invariant
                before == views(out@),
                pos <= out@.len(),
                forall|q: int| 0 <= q < pos ==> lex_le(#[trigger] before[q], x@),
            decreases out@.len() - pos,
        {
            pos = pos + 1;
        }
        let ghost xv = x@;
        out.insert(pos, x);
        proof {
            assert(views(out@) =~= before.insert(pos as int, xv));
            let after = views(out@);
            if pos < before.len() {
                lemma_lex_total(before[pos as int], xv);
            }
            assert forall|i: int, j: int| 0 <= i < j < after.len() implies lex_le(
                #[trigger] after[i],
                #[trigger] after[j],
            ) by {
                if j < pos {
                } else if j == pos {
                } else if i < pos {
                    if i + 1 < j {
                        assert(lex_le(before[i], before[j - 1]));
                    }
                    lemma_lex_transitive(before[i], xv, before[pos as int]);
                    if pos < j - 1 {
                        assert(lex_le(before[pos as int], before[j - 1]));
                        lemma_lex_transitive(before[i], before[pos as int], before[j - 1]);
                    }
                } else if i == pos {
                    if pos < j - 1 {
                        assert(lex_le(before[pos as int], before[j - 1]));
                        lemma_lex_transitive(xv, before[pos as int], before[j - 1]);
                    }
                } else {
                    assert(lex_le(before[i - 1], before[j - 1]));
                }
            }
            assert(vs.subrange(k as int, n as int) =~= vs.subrange(k + 1, n as int).insert(0, xv));
        }
    }
    assert(vs.subrange(0, n as int) =~= vs);
    out
}

} // verus!
