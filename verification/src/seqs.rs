use vstd::prelude::*;

verus! {

/// Filtering a sequence extended by one element keeps the filtered prefix and
/// appends the new element exactly when it satisfies the predicate.
pub proof fn lemma_filter_push<A>(s: Seq<A>, pred: spec_fn(A) -> bool, x: A)
    ensures
        s.push(x).filter(pred) == if pred(x) {
            s.filter(pred).push(x)
        } else {
            s.filter(pred)
        },
{
    reveal(Seq::filter);
    assert(s.push(x).drop_last() =~= s);
}

/// A predicate and its complement split a sequence without loss: the two
/// filtered parts together have exactly the length of the original.
pub proof fn lemma_filter_complement_len<A>(s: Seq<A>, p: spec_fn(A) -> bool, q: spec_fn(A) -> bool)
    requires
        forall|x: A| #[trigger] q(x) == !p(x),
    ensures
        s.filter(p).len() + s.filter(q).len() == s.len(),
    decreases s.len(),
{
    reveal(Seq::filter);
    if s.len() > 0 {
        lemma_filter_complement_len(s.drop_last(), p, q);
    }
}

/// Filtering by pointwise-equal predicates yields the same sequence.
pub proof fn lemma_filter_equiv<A>(s: Seq<A>, p: spec_fn(A) -> bool, q: spec_fn(A) -> bool)
    requires
        forall|x: A| #[trigger] p(x) == q(x),
    ensures
        s.filter(p) == s.filter(q),
    decreases s.len(),
{
    reveal(Seq::filter);
    if s.len() > 0 {
        lemma_filter_equiv(s.drop_last(), p, q);
    }
}

/// Every element of a filtered sequence is an element of the original.
pub proof fn lemma_filter_subset<A>(s: Seq<A>, pred: spec_fn(A) -> bool)
    ensures
        forall|i: int|
            0 <= i < s.filter(pred).len() ==> s.contains(#[trigger] s.filter(pred)[i]),
    decreases s.len(),
{
    reveal(Seq::filter);
    if s.len() > 0 {
        lemma_filter_subset(s.drop_last(), pred);
        assert forall|i: int| 0 <= i < s.filter(pred).len() implies s.contains(
            #[trigger] s.filter(pred)[i],
        ) by {
            let x = s.filter(pred)[i];
            if i < s.drop_last().filter(pred).len() {
                assert(s.drop_last().contains(x));
                let j = choose|j: int| 0 <= j < s.drop_last().len() && s.drop_last()[j] == x;
                assert(s[j] == x);
            } else {
                assert(x == s.last());
            }
        }
    }
}

/// Appending one element to a sequence inserts exactly that element into the
/// set of its members.
pub proof fn lemma_to_set_push<A>(s: Seq<A>, x: A)
    ensures
        s.push(x).to_set() == s.to_set().insert(x),
{
    assert forall|a: A| #[trigger] s.push(x).to_set().contains(a) implies s.to_set().insert(
        x,
    ).contains(a) by {
        let i = choose|i: int| 0 <= i < s.push(x).len() && s.push(x)[i] == a;
        if i < s.len() {
            assert(s[i] == a);
            assert(s.contains(a));
        }
    }
    assert forall|a: A| #[trigger] s.to_set().insert(x).contains(a) implies s.push(x).to_set()
        .contains(a) by {
        if a == x {
            assert(s.push(x)[s.len() as int] == a);
        } else {
            let i = choose|i: int| 0 <= i < s.len() && s[i] == a;
            assert(s.push(x)[i] == a);
        }
        assert(s.push(x).contains(a));
    }
    assert(s.push(x).to_set() =~= s.to_set().insert(x));
}

} // verus!
