use vstd::prelude::*;

verus! {

/// The index of the first element of `s` that satisfies `pred`.
pub open spec fn first_index<A>(s: Seq<A>, pred: spec_fn(A) -> bool) -> Option<int>
    decreases s.len(),
{
    if s.len() == 0 {
        None
    } else {
        match first_index(s.drop_last(), pred) {
            Some(i) => Some(i),
            None => if pred(s.last()) {
                Some(s.len() - 1)
            } else {
                None
            },
        }
    }
}

/// `first_index` gives the first element that satisfies `pred`, or says
/// that none does.
pub proof fn lemma_first_index<A>(s: Seq<A>, pred: spec_fn(A) -> bool)
    ensures
        match first_index(s, pred) {
            Some(i) => 0 <= i < s.len() && pred(s[i]) && forall|j: int| 0 <= j < i ==> !pred(#[trigger] s[j]),
            None => forall|j: int| 0 <= j < s.len() ==> !pred(#[trigger] s[j]),
        },
    decreases s.len(),
{
    if s.len() > 0 {
        let pre = s.drop_last();
        lemma_first_index(pre, pred);
        assert(forall|j: int| 0 <= j < pre.len() ==> pre[j] == s[j]);
    }
}

/// Appending an element that satisfies `pred` to a sequence with none makes
/// it the first.
pub proof fn lemma_first_index_push<A>(s: Seq<A>, x: A, pred: spec_fn(A) -> bool)
    requires
        first_index(s, pred) is None,
        pred(x),
    ensures
        first_index(s.push(x), pred) == Some(s.len() as int),
{
    assert(s.push(x).drop_last() =~= s);
}

} // verus!
