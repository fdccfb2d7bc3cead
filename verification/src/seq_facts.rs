//! Facts about `Seq::filter` used to carry the store's invariants across the
//! operations that delete rows: filtering keeps every per-element property
//! and every pairwise property (uniqueness of identifiers, at most one open
//! session per group, at most one mark per pair).

use vstd::prelude::*;

verus! {

/// Every element of a filtered sequence stands somewhere in the unfiltered
/// sequence.
pub proof fn lemma_filter_element_index<A>(s: Seq<A>, pred: spec_fn(A) -> bool, i: int)
    requires
        0 <= i < s.filter(pred).len(),
    ensures
        exists|k: int| 0 <= k < s.len() && s[k] == s.filter(pred)[i],
    decreases s.len(),
{
    reveal(Seq::filter);
    let butlast = s.drop_last();
    let fb = butlast.filter(pred);
    if pred(s.last()) {
        if i < fb.len() {
            lemma_filter_element_index(butlast, pred, i);
            let k = choose|k: int| 0 <= k < butlast.len() && butlast[k] == fb[i];
            assert(s[k] == s.filter(pred)[i]);
        } else {
            assert(s[s.len() - 1] == s.filter(pred)[i]);
        }
    } else {
        lemma_filter_element_index(butlast, pred, i);
        let k = choose|k: int| 0 <= k < butlast.len() && butlast[k] == fb[i];
        assert(s[k] == s.filter(pred)[i]);
    }
}

/// A property holding of every element still holds of every element after a
/// filter.
pub proof fn lemma_filter_preserves_each<A>(s: Seq<A>, pred: spec_fn(A) -> bool, p: spec_fn(A) -> bool)
    requires
        forall|i: int| 0 <= i < s.len() ==> p(#[trigger] s[i]),
    ensures
        forall|i: int| 0 <= i < s.filter(pred).len() ==> p(#[trigger] s.filter(pred)[i]),
{
    assert forall|i: int| 0 <= i < s.filter(pred).len() implies p(#[trigger] s.filter(pred)[i]) by {
        lemma_filter_element_index(s, pred, i);
        let k = choose|k: int| 0 <= k < s.len() && s[k] == s.filter(pred)[i];
        assert(p(s[k]));
    }
}

/// A property holding of every pair of distinct elements still holds of every
/// pair of distinct elements after a filter.
pub proof fn lemma_filter_preserves_pairwise<A>(
    s: Seq<A>,
    pred: spec_fn(A) -> bool,
    r: spec_fn(A, A) -> bool,
)
    requires
        forall|i: int, j: int|
            0 <= i < s.len() && 0 <= j < s.len() && i != j ==> r(#[trigger] s[i], #[trigger] s[j]),
    ensures
        forall|i: int, j: int|
            0 <= i < s.filter(pred).len() && 0 <= j < s.filter(pred).len() && i != j ==> r(
                #[trigger] s.filter(pred)[i],
                #[trigger] s.filter(pred)[j],
            ),
    decreases s.len(),
{
    reveal(Seq::filter);
    if s.len() == 0 {
    } else {
        let butlast = s.drop_last();
        let f = s.filter(pred);
        let fb = butlast.filter(pred);
        assert forall|i: int, j: int|
            0 <= i < butlast.len() && 0 <= j < butlast.len() && i != j implies r(
            #[trigger] butlast[i],
            #[trigger] butlast[j],
        ) by {
            assert(butlast[i] == s[i] && butlast[j] == s[j]);
        }
        lemma_filter_preserves_pairwise(butlast, pred, r);
        if pred(s.last()) {
            assert(f == fb.push(s.last()));
            assert forall|i: int, j: int|
                0 <= i < f.len() && 0 <= j < f.len() && i != j implies r(
                #[trigger] f[i],
                #[trigger] f[j],
            ) by {
                if i < fb.len() && j < fb.len() {
                    assert(f[i] == fb[i] && f[j] == fb[j]);
                } else if i < fb.len() && j == fb.len() {
                    lemma_filter_element_index(butlast, pred, i);
                    let k = choose|k: int| 0 <= k < butlast.len() && butlast[k] == fb[i];
                    assert(s[k] == fb[i] && s[s.len() - 1] == s.last());
                    assert(r(s[k], s[s.len() - 1]));
                } else if j < fb.len() && i == fb.len() {
                    lemma_filter_element_index(butlast, pred, j);
                    let k = choose|k: int| 0 <= k < butlast.len() && butlast[k] == fb[j];
                    assert(s[k] == fb[j] && s[s.len() - 1] == s.last());
                    assert(r(s[s.len() - 1], s[k]));
                }
            }
        }
    }
}

/// One step of filtering a growing prefix: extending the prefix by element
/// `i` extends the filtered result by that element exactly when it passes.
pub proof fn lemma_filter_step<A>(s: Seq<A>, pred: spec_fn(A) -> bool, i: int)
    requires
        0 <= i < s.len(),
    ensures
        pred(s[i]) ==> s.subrange(0, i + 1).filter(pred) == s.subrange(0, i).filter(pred).push(
            s[i],
        ),
        !pred(s[i]) ==> s.subrange(0, i + 1).filter(pred) == s.subrange(0, i).filter(pred),
{
    reveal(Seq::filter);
    let prefix = s.subrange(0, i);
    let nxt = s.subrange(0, i + 1);
    assert(nxt.drop_last() =~= prefix);
    assert(nxt.last() == s[i]);
}

/// A property holding of every element still holds of every element after
/// removing one.
pub proof fn lemma_remove_preserves_each<A>(s: Seq<A>, k: int, p: spec_fn(A) -> bool)
    requires
        0 <= k < s.len(),
        forall|i: int| 0 <= i < s.len() ==> p(#[trigger] s[i]),
    ensures
        forall|i: int| 0 <= i < s.remove(k).len() ==> p(#[trigger] s.remove(k)[i]),
{
    assert forall|i: int| 0 <= i < s.remove(k).len() implies p(#[trigger] s.remove(k)[i]) by {
        if i < k {
            assert(s.remove(k)[i] == s[i]);
        } else {
            assert(s.remove(k)[i] == s[i + 1]);
        }
    }
}

/// A property holding of every pair of distinct elements still holds of every
/// pair of distinct elements after removing one.
pub proof fn lemma_remove_preserves_pairwise<A>(s: Seq<A>, k: int, r: spec_fn(A, A) -> bool)
    requires
        0 <= k < s.len(),
        forall|i: int, j: int|
            0 <= i < s.len() && 0 <= j < s.len() && i != j ==> r(#[trigger] s[i], #[trigger] s[j]),
    ensures
        forall|i: int, j: int|
            0 <= i < s.remove(k).len() && 0 <= j < s.remove(k).len() && i != j ==> r(
                #[trigger] s.remove(k)[i],
                #[trigger] s.remove(k)[j],
            ),
{
    assert forall|i: int, j: int|
        0 <= i < s.remove(k).len() && 0 <= j < s.remove(k).len() && i != j implies r(
        #[trigger] s.remove(k)[i],
        #[trigger] s.remove(k)[j],
    ) by {
        let oi: int = if i < k {
            i
        } else {
            i + 1
        };
        let oj: int = if j < k {
            j
        } else {
            j + 1
        };
        assert(s.remove(k)[i] == s[oi]);
        assert(s.remove(k)[j] == s[oj]);
        assert(r(s[oi], s[oj]));
    }
}

} // verus!
