//! Small sequence lemmas shared by the visitor, the codec and the engine:
//! how `filter` and `map_values` behave when one element is appended.

use vstd::prelude::*;

verus! {

/// Appending an element extends a filtered sequence by that element
/// exactly when the element satisfies the predicate.
pub proof fn lemma_filter_push<A>(s: Seq<A>, pred: spec_fn(A) -> bool, x: A)
    ensures
        s.push(x).filter(pred) == if pred(x) {
            s.filter(pred).push(x)
        } else {
            s.filter(pred)
        },
{
    reveal(Seq::filter);
    assert(s.push(x).drop_last() =~= s);
    assert(s.push(x).last() == x);
}

/// Appending an element extends a mapped sequence by the image of that
/// element.
pub proof fn lemma_map_values_push<A, B>(s: Seq<A>, f: spec_fn(A) -> B, x: A)
    ensures
        s.push(x).map_values(f) == s.map_values(f).push(f(x)),
{
    assert(s.push(x).map_values(f) =~= s.map_values(f).push(f(x)));
}

/// Appending an element extends a filtered-and-mapped sequence by the
/// image of that element exactly when it satisfies the predicate.
pub proof fn lemma_filter_map_push<A, B>(s: Seq<A>, pred: spec_fn(A) -> bool, f: spec_fn(A) -> B, x: A)
    ensures
        s.push(x).filter(pred).map_values(f) == if pred(x) {
            s.filter(pred).map_values(f).push(f(x))
        } else {
            s.filter(pred).map_values(f)
        },
{
    lemma_filter_push(s, pred, x);
    if pred(x) {
        lemma_map_values_push(s.filter(pred), f, x);
    }
}

/// A sequence none of whose elements satisfies the predicate filters to
/// the empty sequence.
pub proof fn lemma_filter_none<A>(s: Seq<A>, pred: spec_fn(A) -> bool)
    requires
        forall|i: int| 0 <= i < s.len() ==> !pred(#[trigger] s[i]),
    ensures
        s.filter(pred) == Seq::<A>::empty(),
    decreases s.len(),
{
    reveal(Seq::filter);
    if s.len() > 0 {
        lemma_filter_none(s.drop_last(), pred);
    }
}

/// A sequence equals its full take.
pub proof fn lemma_take_all<A>(s: Seq<A>)
    ensures
        s.take(s.len() as int) == s,
{
    assert(s.take(s.len() as int) =~= s);
}

/// Taking one more element appends exactly that element.
pub proof fn lemma_take_push<A>(s: Seq<A>, i: int)
    requires
        0 <= i < s.len(),
    ensures
        s.take(i + 1) == s.take(i).push(s[i]),
{
    assert(s.take(i + 1) =~= s.take(i).push(s[i]));
}

/// Filtering a concatenation whose second part holds no matching element
/// filters only the first part.
pub proof fn lemma_filter_add_none<A>(x: Seq<A>, y: Seq<A>, pred: spec_fn(A) -> bool)
    requires
        forall|i: int| 0 <= i < y.len() ==> !pred(#[trigger] y[i]),
    ensures
        (x + y).filter(pred) == x.filter(pred),
{
    Seq::filter_distributes_over_add(x, y, pred);
    lemma_filter_none(y, pred);
    assert((x + y).filter(pred) =~= x.filter(pred));
}


/// Mapping distributes over concatenation.
pub proof fn lemma_map_values_add<A, B>(x: Seq<A>, y: Seq<A>, f: spec_fn(A) -> B)
    ensures
        (x + y).map_values(f) == x.map_values(f) + y.map_values(f),
{
    assert((x + y).map_values(f) =~= x.map_values(f) + y.map_values(f));
}

} // verus!
