//! Facts about sequence concatenation, used where code is emitted piece by
//! piece: they rewrite a concatenation nested to the right into the
//! left-nested form in which output accumulates.
use vstd::prelude::*;

verus! {

pub broadcast proof fn lemma_concat_assoc<A>(a: Seq<A>, b: Seq<A>, c: Seq<A>)
    ensures
        #[trigger] (a + (b + c)) == (a + b) + c,
{
    assert(((a + b) + c) =~= a + (b + c));
}

pub broadcast proof fn lemma_concat_push<A>(a: Seq<A>, b: Seq<A>, x: A)
    ensures
        #[trigger] (a + b.push(x)) == (a + b).push(x),
{
    assert((a + b).push(x) =~= a + b.push(x));
}

pub broadcast proof fn lemma_concat_empty<A>(a: Seq<A>)
    ensures
        #[trigger] (a + Seq::<A>::empty()) == a,
{
    assert(a + Seq::<A>::empty() =~= a);
}

pub broadcast proof fn lemma_empty_concat<A>(a: Seq<A>)
    ensures
        #[trigger] (Seq::<A>::empty() + a) == a,
{
    assert(Seq::<A>::empty() + a =~= a);
}

pub broadcast group group_concat {
    lemma_concat_assoc,
    lemma_concat_push,
    lemma_concat_empty,
    lemma_empty_concat,
}

} // verus!
