//! Small facts about filtering sequences, shared by the listener and task
//! registries: both remove entries by identity and need the result related
//! to `Seq::filter`.

use vstd::prelude::*;

verus! {

/// Filtering a sequence whose elements all satisfy the predicate returns the
/// sequence unchanged.
pub proof fn lemma_filter_keeps_everything<A>(s: Seq<A>, pred: spec_fn(A) -> bool)
    requires
        forall|i: int| 0 <= i < s.len() ==> pred(#[trigger] s[i]),
    ensures
        s.filter(pred) == s,
    decreases s.len(),
{
    reveal(Seq::filter);
    if s.len() > 0 {
        assert(s.drop_last() =~= s.subrange(0, s.len() - 1));
        lemma_filter_keeps_everything(s.drop_last(), pred);
        assert(s.drop_last().push(s.last()) =~= s);
    } else {
        assert(s.filter(pred) =~= s);
    }
}

/// Filtering a sequence whose one failing element stands at position `j`
/// removes exactly that element.
pub proof fn lemma_filter_removes_one<A>(s: Seq<A>, j: int, pred: spec_fn(A) -> bool)
    requires
        0 <= j < s.len(),
        !pred(s[j]),
        forall|i: int| 0 <= i < s.len() && i != j ==> pred(#[trigger] s[i]),
    ensures
        s.filter(pred) == s.remove(j),
{
    let a = s.subrange(0, j);
    let m = s.subrange(j, j + 1);
    let b = s.subrange(j + 1, s.len() as int);
    assert(s =~= (a + m) + b);
    Seq::filter_distributes_over_add(a + m, b, pred);
    Seq::filter_distributes_over_add(a, m, pred);
    lemma_filter_keeps_everything(a, pred);
    lemma_filter_keeps_everything(b, pred);
    reveal_with_fuel(Seq::filter, 3);
    assert(m.drop_last() =~= Seq::<A>::empty());
    assert(m.filter(pred) =~= Seq::<A>::empty());
    assert(s.filter(pred) =~= s.remove(j));
}

/// Filtering distributes over a trailing push: the pushed element stays
/// exactly when it satisfies the predicate.
pub proof fn lemma_filter_push<A>(s: Seq<A>, x: A, pred: spec_fn(A) -> bool)
    ensures
        s.push(x).filter(pred) == if pred(x) {
            s.filter(pred).push(x)
        } else {
            s.filter(pred)
        },
{
    reveal(Seq::filter);
    assert(s.push(x).drop_last() =~= s);
    assert(s.push(x).last() == x);
}

} // verus!
