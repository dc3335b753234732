use vstd::prelude::*;

verus! {

/// How deep a sequence of building instructions leaves the builder: the sum of what each
/// instruction opens (+1) or closes (-1).
pub open spec fn nesting<A>(s: Seq<A>, delta: spec_fn(A) -> int) -> int
    decreases s.len(),
{
    if s.len() == 0 {
        0
    } else {
        nesting(s.drop_last(), delta) + delta(s.last())
    }
}

/// Every container that the instructions open they close, after opening it: no prefix closes
/// more than it opened, and the whole closes all it opened.
pub open spec fn balanced<A>(s: Seq<A>, delta: spec_fn(A) -> int) -> bool {
    &&& nesting(s, delta) == 0
    &&& forall|i: int| 0 <= i <= s.len() ==> nesting(#[trigger] s.take(i), delta) >= 0
}

pub proof fn lemma_nesting_add<A>(a: Seq<A>, b: Seq<A>, delta: spec_fn(A) -> int)
    ensures
        nesting(a + b, delta) == nesting(a, delta) + nesting(b, delta),
    decreases b.len(),
{
    if b.len() == 0 {
        assert(a + b =~= a);
    } else {
        lemma_nesting_add(a, b.drop_last(), delta);
        assert((a + b).drop_last() =~= a + b.drop_last());
        assert((a + b).last() == b.last());
    }
}

pub proof fn lemma_balanced_empty<A>(delta: spec_fn(A) -> int)
    ensures
        balanced(Seq::<A>::empty(), delta),
{
    assert forall|i: int| 0 <= i <= 0 implies nesting(#[trigger] Seq::<A>::empty().take(i), delta) >= 0 by {
        assert(Seq::<A>::empty().take(i) =~= Seq::<A>::empty());
    }
}

pub proof fn lemma_balanced_single<A>(x: A, delta: spec_fn(A) -> int)
    requires
        delta(x) == 0,
    ensures
        balanced(seq![x], delta),
{
    assert(seq![x].drop_last() =~= Seq::<A>::empty());
    assert(nesting(Seq::<A>::empty(), delta) == 0);
    assert(seq![x].last() == x);
    assert(nesting(seq![x], delta) == 0);
    assert forall|i: int| 0 <= i <= 1 implies nesting(#[trigger] seq![x].take(i), delta) >= 0 by {
        if i == 0 {
            assert(seq![x].take(i) =~= Seq::<A>::empty());
        } else {
            assert(seq![x].take(i) =~= seq![x]);
            assert(nesting(Seq::<A>::empty(), delta) == 0);
        }
    }
}

pub proof fn lemma_balanced_concat<A>(a: Seq<A>, b: Seq<A>, delta: spec_fn(A) -> int)
    requires
        balanced(a, delta),
        balanced(b, delta),
    ensures
        balanced(a + b, delta),
{
    lemma_nesting_add(a, b, delta);
    assert forall|i: int| 0 <= i <= (a + b).len() implies nesting(#[trigger] (a + b).take(i), delta) >= 0 by {
        if i <= a.len() {
            assert((a + b).take(i) =~= a.take(i));
        } else {
            assert((a + b).take(i) =~= a + b.take(i - a.len()));
            lemma_nesting_add(a, b.take(i - a.len()), delta);
            assert(a.take(a.len() as int) =~= a);
        }
    }
}

/// Wrapping balanced instructions in an opening and a closing one keeps everything in
/// between inside that container.
pub proof fn lemma_wrap<A>(open: A, b: Seq<A>, close: A, delta: spec_fn(A) -> int)
    requires
        delta(open) == 1,
        delta(close) == -1,
        balanced(b, delta),
    ensures
        balanced(seq![open] + b + seq![close], delta),
        forall|i: int| 1 <= i < b.len() + 2 ==> nesting(#[trigger] (seq![open] + b + seq![close]).take(i), delta) >= 1,
{
    let w = seq![open] + b + seq![close];
    assert(nesting(Seq::<A>::empty(), delta) == 0);
    assert(seq![open].drop_last() =~= Seq::<A>::empty());
    assert(seq![open].last() == open);
    assert(nesting(seq![open], delta) == 1);
    assert(seq![close].drop_last() =~= Seq::<A>::empty());
    assert(seq![close].last() == close);
    assert(nesting(seq![close], delta) == -1);
    lemma_nesting_add(seq![open], b, delta);
    lemma_nesting_add(seq![open] + b, seq![close], delta);
    assert forall|i: int| 1 <= i < b.len() + 2 implies nesting(#[trigger] w.take(i), delta) >= 1 by {
        assert(w.take(i) =~= seq![open] + b.take(i - 1));
        lemma_nesting_add(seq![open], b.take(i - 1), delta);
    }
    assert forall|i: int| 0 <= i <= w.len() implies nesting(#[trigger] w.take(i), delta) >= 0 by {
        if i == 0 {
            assert(w.take(i) =~= Seq::<A>::empty());
        } else if i == w.len() {
            assert(w.take(i) =~= w);
        }
    }
}

} // verus!
