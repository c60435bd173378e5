//! What it means for a sequence to be the elements of another that satisfy
//! a condition, in order, and the proof that `Seq::filter` is such a
//! sequence.

use vstd::prelude::*;

verus! {

/// `out` is `s`'s elements that satisfy `pred`, in order, through the
/// positions `idx`: each element of `out` is the element of `s` at its
/// position and satisfies `pred`; the positions increase; and every
/// position of `s` whose element satisfies `pred` is among them.
pub open spec fn picks_at<A>(out: Seq<A>, s: Seq<A>, pred: spec_fn(A) -> bool, idx: Seq<int>) -> bool {
    &&& idx.len() == out.len()
    &&& forall|i: int|
        0 <= i < idx.len() ==> 0 <= #[trigger] idx[i] < s.len() && out[i] == s[idx[i]] && pred(out[i])
    &&& forall|i: int, j: int| 0 <= i < j < idx.len() ==> #[trigger] idx[i] < #[trigger] idx[j]
    &&& forall|j: int| 0 <= j < s.len() && pred(#[trigger] s[j]) ==> exists|i: int| 0 <= i < idx.len() && idx[i] == j
}

/// `out` is exactly `s`'s elements that satisfy `pred`, in order.
pub open spec fn picks<A>(out: Seq<A>, s: Seq<A>, pred: spec_fn(A) -> bool) -> bool {
    exists|idx: Seq<int>| #[trigger] picks_at(out, s, pred, idx)
}

/// Filtering a sequence keeps exactly its elements that satisfy the
/// condition, in order.
pub proof fn lemma_filter_picks<A>(s: Seq<A>, pred: spec_fn(A) -> bool)
    ensures
        picks(s.filter(pred), s, pred),
    decreases s.len(),
{
    reveal(Seq::filter);
    if s.len() == 0 {
        let idx = Seq::<int>::empty();
        assert(picks_at(s.filter(pred), s, pred, idx));
    } else {
        let init = s.drop_last();
        lemma_filter_picks(init, pred);
        let idx0 = choose|idx: Seq<int>| #[trigger] picks_at(init.filter(pred), init, pred, idx);
        let out = s.filter(pred);
        let last = s.len() - 1;
        if pred(s.last()) {
            let idx = idx0.push(last);
            assert(out == init.filter(pred).push(s.last()));
            assert forall|i: int| 0 <= i < idx.len() implies 0 <= #[trigger] idx[i] < s.len() && out[i] == s[idx[i]]
                && pred(out[i]) by {
                if i < idx0.len() {
                    assert(idx[i] == idx0[i]);
                    assert(init[idx0[i]] == s[idx0[i]]);
                }
            }
            assert forall|i: int, j: int| 0 <= i < j < idx.len() implies #[trigger] idx[i] < #[trigger] idx[j] by {
                if j < idx0.len() {
                    assert(idx0[i] < idx0[j]);
                } else {
                    assert(idx[i] == idx0[i]);
                    assert(0 <= idx0[i] < init.len());
                }
            }
            assert forall|j: int| 0 <= j < s.len() && pred(#[trigger] s[j]) implies exists|i: int|
                0 <= i < idx.len() && idx[i] == j by {
                if j < last {
                    assert(init[j] == s[j]);
                    let i = choose|i: int| 0 <= i < idx0.len() && idx0[i] == j;
                    assert(idx[i] == j);
                } else {
                    assert(idx[idx.len() - 1] == j);
                }
            }
            assert(picks_at(out, s, pred, idx));
        } else {
            assert(out == init.filter(pred));
            assert forall|i: int| 0 <= i < idx0.len() implies 0 <= #[trigger] idx0[i] < s.len() && out[i] == s[idx0[i]]
                && pred(out[i]) by {
                assert(init[idx0[i]] == s[idx0[i]]);
            }
            assert forall|j: int| 0 <= j < s.len() && pred(#[trigger] s[j]) implies exists|i: int|
                0 <= i < idx0.len() && idx0[i] == j by {
                assert(j < last);
                assert(init[j] == s[j]);
            }
            assert(picks_at(out, s, pred, idx0));
        }
    }
}

} // verus!
