//! Order-preserving filtering of sequences, shared by the round diff and the
//! inventory pruning.

use vstd::prelude::*;

verus! {

/// The elements of `s` satisfying `p`, in order.
pub open spec fn filtered<A>(s: Seq<A>, p: spec_fn(A) -> bool) -> Seq<A>
    decreases s.len(),
{
    if s.len() == 0 {
        Seq::empty()
    } else {
        let rest = filtered(s.drop_last(), p);
        if p(s.last()) {
            rest.push(s.last())
        } else {
            rest
        }
    }
}

/// Filtering never lengthens a sequence.
pub proof fn lemma_filtered_len<A>(s: Seq<A>, p: spec_fn(A) -> bool)
    ensures
        filtered(s, p).len() <= s.len(),
    decreases s.len(),
{
    if s.len() > 0 {
        lemma_filtered_len(s.drop_last(), p);
    }
}

pub proof fn lemma_filtered_contains<A>(s: Seq<A>, p: spec_fn(A) -> bool)
    ensures
        forall|x: A| #[trigger] filtered(s, p).contains(x) <==> s.contains(x) && p(x),
    decreases s.len(),
{
    if s.len() > 0 {
        lemma_filtered_contains(s.drop_last(), p);
        assert forall|x: A| #[trigger] filtered(s, p).contains(x) implies s.contains(x) && p(
            x,
        ) by {
            if p(s.last()) && x == s.last() {
                assert(s.contains(x));
            } else {
                let f = filtered(s, p);
                let rest = filtered(s.drop_last(), p);
                if f.contains(x) {
                    if p(s.last()) {
                        let i = choose|i: int| 0 <= i < f.len() && f[i] == x;
                        if i < f.len() - 1 {
                            assert(rest.contains(x));
                        }
                    } else {
                        assert(rest.contains(x));
                    }
                    if rest.contains(x) {
                        assert(s.drop_last().contains(x));
                        let j = choose|j: int|
                            0 <= j < s.drop_last().len() && s.drop_last()[j] == x;
                        assert(s[j] == x);
                        assert(s.contains(x));
                    }
                }
            }
        }
        assert forall|x: A| s.contains(x) && p(x) implies #[trigger] filtered(s, p).contains(
            x,
        ) by {
            let i = choose|i: int| 0 <= i < s.len() && s[i] == x;
            let rest = filtered(s.drop_last(), p);
            if i < s.len() - 1 {
                assert(s.drop_last()[i] == x);
                assert(s.drop_last().contains(x));
                assert(rest.contains(x));
                let j = choose|j: int| 0 <= j < rest.len() && rest[j] == x;
                assert(filtered(s, p)[j] == x);
                assert(filtered(s, p).contains(x));
            } else {
                assert(s.last() == x);
                assert(filtered(s, p).last() == x);
                assert(filtered(s, p).contains(x));
            }
        }
    }
}

} // verus!
