//! A small sequence lemma shared by the filtering loops of discovery,
//! healthcheck and the fleet registry.

use vstd::prelude::*;

verus! {

/// One unfolding of `Seq::filter`: filtering a sequence extended by one
/// element keeps the element exactly when the predicate holds of it.
pub proof fn lemma_filter_push<A>(s: Seq<A>, pred: spec_fn(A) -> bool, e: A)
    ensures
        s.push(e).filter(pred) == if pred(e) {
            s.filter(pred).push(e)
        } else {
            s.filter(pred)
        },
{
    reveal(Seq::filter);
    assert(s.push(e).drop_last() =~= s);
    assert(s.push(e).last() == e);
}

/// Every element of a filtered sequence is an element of the original.
pub proof fn lemma_filter_origin<A>(s: Seq<A>, pred: spec_fn(A) -> bool, j: int)
    requires
        0 <= j < s.filter(pred).len(),
    ensures
        exists|k: int| 0 <= k < s.len() && s[k] == s.filter(pred)[j],
    decreases s.len(),
{
    reveal(Seq::filter);
    if s.len() > 0 {
        let f = s.filter(pred);
        let fd = s.drop_last().filter(pred);
        if pred(s.last()) && j == f.len() - 1 {
            assert(s[s.len() - 1] == f[j]);
        } else {
            assert(f[j] == fd[j]);
            lemma_filter_origin(s.drop_last(), pred, j);
            let k = choose|k: int| 0 <= k < s.drop_last().len() && s.drop_last()[k] == fd[j];
            assert(s[k] == f[j]);
        }
    }
}

} // verus!
