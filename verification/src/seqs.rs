//! Facts about filtered sequences that the ledger's proofs share.

use vstd::prelude::*;

verus! {

/// Whether `rel` holds of every two elements of `s`, the earlier one first.
pub open spec fn pairwise<A>(s: Seq<A>, rel: spec_fn(A, A) -> bool) -> bool {
    forall|i: int, j: int| #![trigger s[i], s[j]] 0 <= i < j < s.len() ==> rel(s[i], s[j])
}

/// Whether `rel` holds of every element of `s` with every element of `t`.
pub open spec fn across<A>(s: Seq<A>, t: Seq<A>, rel: spec_fn(A, A) -> bool) -> bool {
    forall|i: int, j: int|
        #![trigger s[i], t[j]]
        0 <= i < s.len() && 0 <= j < t.len() ==> rel(s[i], t[j])
}

/// A filtered sequence holds exactly the elements that pass the test.
pub proof fn lemma_filter_members<A>(s: Seq<A>, p: spec_fn(A) -> bool)
    ensures
        forall|k: int|
            0 <= k < s.filter(p).len() ==> p(#[trigger] s.filter(p)[k]) && s.contains(
                s.filter(p)[k],
            ),
        forall|i: int| 0 <= i < s.len() && p(s[i]) ==> s.filter(p).contains(#[trigger] s[i]),
    decreases s.len(),
{
    reveal(Seq::filter);
    if s.len() > 0 {
        let head = s.drop_last();
        let f = s.filter(p);
        lemma_filter_members(head, p);
        assert forall|k: int| 0 <= k < f.len() implies p(#[trigger] f[k]) && s.contains(f[k]) by {
            if k < head.filter(p).len() {
                let x = head.filter(p)[k];
                assert(f[k] == x);
                assert(head.contains(x));
                let i = choose|i: int| 0 <= i < head.len() && head[i] == x;
                assert(s[i] == x);
            } else {
                assert(f[k] == s[s.len() - 1]);
            }
        }
        assert forall|i: int| 0 <= i < s.len() && p(s[i]) implies f.contains(#[trigger] s[i]) by {
            if i < head.len() {
                assert(head[i] == s[i]);
                assert(head.filter(p).contains(head[i]));
                let k = choose|k: int| 0 <= k < head.filter(p).len() && head.filter(p)[k] == s[i];
                assert(f[k] == s[i]);
            } else {
                assert(f[f.len() - 1] == s[i]);
            }
        }
    }
}

/// Filtering keeps a relation that holds of every ordered pair.
pub proof fn lemma_filter_pairwise<A>(s: Seq<A>, p: spec_fn(A) -> bool, rel: spec_fn(A, A) -> bool)
    requires
        pairwise(s, rel),
    ensures
        pairwise(s.filter(p), rel),
    decreases s.len(),
{
    reveal(Seq::filter);
    if s.len() > 0 {
        let head = s.drop_last();
        let f = s.filter(p);
        assert(pairwise(head, rel)) by {
            assert forall|i: int, j: int| 0 <= i < j < head.len() implies rel(
                #[trigger] head[i],
                #[trigger] head[j],
            ) by {
                assert(rel(s[i], s[j]));
            }
        }
        lemma_filter_pairwise(head, p, rel);
        lemma_filter_members(head, p);
        assert forall|i: int, j: int| 0 <= i < j < f.len() implies rel(
            #[trigger] f[i],
            #[trigger] f[j],
        ) by {
            let g = head.filter(p);
            if j < g.len() {
                assert(rel(g[i], g[j]));
            } else {
                assert(f[j] == s[s.len() - 1]);
                assert(head.contains(g[i]));
                let i0 = choose|i0: int| 0 <= i0 < head.len() && head[i0] == g[i];
                assert(rel(s[i0], s[s.len() - 1]));
            }
        }
    }
}

/// Two sequences that each keep a relation, and keep it across, keep it
/// when joined.
pub proof fn lemma_concat_pairwise<A>(s: Seq<A>, t: Seq<A>, rel: spec_fn(A, A) -> bool)
    requires
        pairwise(s, rel),
        pairwise(t, rel),
        across(s, t, rel),
    ensures
        pairwise(s + t, rel),
{
    let u = s + t;
    assert forall|i: int, j: int| 0 <= i < j < u.len() implies rel(
        #[trigger] u[i],
        #[trigger] u[j],
    ) by {
        if j < s.len() {
            assert(rel(s[i], s[j]));
        } else if i < s.len() {
            assert(rel(s[i], t[j - s.len()]));
        } else {
            assert(rel(t[i - s.len()], t[j - s.len()]));
        }
    }
}

/// Two tests that agree place by place on two sequences of one length let
/// equally many elements pass.
pub proof fn lemma_filter_len_agree<A>(
    s: Seq<A>,
    t: Seq<A>,
    p: spec_fn(A) -> bool,
    q: spec_fn(A) -> bool,
)
    requires
        s.len() == t.len(),
        forall|i: int| 0 <= i < s.len() ==> p(#[trigger] s[i]) == q(t[i]),
    ensures
        s.filter(p).len() == t.filter(q).len(),
    decreases s.len(),
{
    reveal(Seq::filter);
    if s.len() > 0 {
        let hs = s.drop_last();
        let ht = t.drop_last();
        assert forall|i: int| 0 <= i < hs.len() implies p(#[trigger] hs[i]) == q(ht[i]) by {
            assert(p(s[i]) == q(t[i]));
        }
        lemma_filter_len_agree(hs, ht, p, q);
        assert(p(s[s.len() - 1]) == q(t[s.len() - 1]));
    }
}

/// Filtering by a weaker test first changes nothing.
pub proof fn lemma_filter_twice<A>(s: Seq<A>, weak: spec_fn(A) -> bool, strong: spec_fn(A) -> bool)
    requires
        forall|x: A| #[trigger] strong(x) ==> weak(x),
    ensures
        s.filter(weak).filter(strong) == s.filter(strong),
    decreases s.len(),
{
    reveal(Seq::filter);
    if s.len() > 0 {
        let head = s.drop_last();
        let last = s.last();
        lemma_filter_twice(head, weak, strong);
        if weak(last) {
            assert(s.filter(weak) == head.filter(weak).push(last));
            assert(head.filter(weak).push(last).drop_last() == head.filter(weak));
        }
    } else {
        assert(s.filter(weak) == s);
    }
}

/// No element passes a test that every element fails.
pub proof fn lemma_filter_none<A>(s: Seq<A>, p: spec_fn(A) -> bool)
    requires
        forall|i: int| 0 <= i < s.len() ==> !p(#[trigger] s[i]),
    ensures
        s.filter(p) == Seq::<A>::empty(),
    decreases s.len(),
{
    reveal(Seq::filter);
    if s.len() > 0 {
        let head = s.drop_last();
        assert forall|i: int| 0 <= i < head.len() implies !p(#[trigger] head[i]) by {
            assert(!p(s[i]));
        }
        lemma_filter_none(head, p);
        assert(!p(s[s.len() - 1]));
    }
}

/// Every element passes a test that no element fails.
pub proof fn lemma_filter_all<A>(s: Seq<A>, p: spec_fn(A) -> bool)
    requires
        forall|i: int| 0 <= i < s.len() ==> p(#[trigger] s[i]),
    ensures
        s.filter(p) == s,
    decreases s.len(),
{
    reveal(Seq::filter);
    if s.len() > 0 {
        let head = s.drop_last();
        assert forall|i: int| 0 <= i < head.len() implies p(#[trigger] head[i]) by {
            assert(p(s[i]));
        }
        lemma_filter_all(head, p);
        assert(p(s[s.len() - 1]));
        assert(head.push(s.last()) =~= s);
    }
}

} // verus!
