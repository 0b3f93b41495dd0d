//! Selection of a subsequence by a predicate, kept transparent so that
//! loop proofs can unfold it one element at a time.

use vstd::prelude::*;

verus! {

/// The subsequence of `s`, in order, of the elements satisfying `pred`.
pub open spec fn selected<T>(s: Seq<T>, pred: spec_fn(T) -> bool) -> Seq<T>
    decreases s.len(),
{
    if s.len() == 0 {
        Seq::empty()
    } else if pred(s.last()) {
        selected(s.drop_last(), pred).push(s.last())
    } else {
        selected(s.drop_last(), pred)
    }
}

/// Every selected element satisfies the predicate and occurs in the source
/// sequence; no more elements are selected than the source holds.
pub proof fn lemma_selected_in_source<T>(s: Seq<T>, pred: spec_fn(T) -> bool)
    ensures
        selected(s, pred).len() <= s.len(),
        forall|k: int|
            0 <= k < selected(s, pred).len() ==> pred(#[trigger] selected(s, pred)[k])
                && exists|i: int| 0 <= i < s.len() && s[i] == selected(s, pred)[k],
    decreases s.len(),
{
    if s.len() > 0 {
        lemma_selected_in_source(s.drop_last(), pred);
        let sel = selected(s, pred);
        let sub = selected(s.drop_last(), pred);
        assert forall|k: int| 0 <= k < sel.len() implies pred(#[trigger] sel[k]) && exists|i: int|
            0 <= i < s.len() && s[i] == sel[k] by {
            if pred(s.last()) && k == sel.len() - 1 {
                assert(sel[k] == s.last());
                assert(s[s.len() - 1] == sel[k]);
            } else {
                assert(sel[k] == sub[k]);
                let i = choose|i: int| 0 <= i < s.drop_last().len() && s.drop_last()[i] == sub[k];
                assert(s[i] == sel[k]);
            }
        }
    }
}

} // verus!
