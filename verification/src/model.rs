//! The mathematical model of the list operations, over sequences.

use vstd::prelude::*;

verus! {

/// The sequence with `elem` put in front of `s`.
pub open spec fn with_front<T>(s: Seq<T>, elem: T) -> Seq<T> {
    seq![elem] + s
}

/// What is left of `s` once its first `n` elements are gone: nothing, if
/// `s` has no more than `n` elements.
pub open spec fn without_first<T>(s: Seq<T>, n: nat) -> Seq<T> {
    if n >= s.len() {
        Seq::empty()
    } else {
        s.skip(n as int)
    }
}

/// The last `n` elements of `s`: all of `s`, if it has no more than `n`.
pub open spec fn only_last<T>(s: Seq<T>, n: nat) -> Seq<T> {
    if n >= s.len() {
        s
    } else {
        s.skip(s.len() - n)
    }
}

/// What is left of `s` after `k` steps of a cursor, each of which passes one
/// element where there is one.
pub open spec fn after_steps<T>(s: Seq<T>, k: nat) -> Seq<T>
    decreases k,
{
    if k == 0 {
        s
    } else {
        after_steps(without_first(s, 1), (k - 1) as nat)
    }
}

/// The sequence that front-insertion of `items`, one after the other, makes
/// of `s`.
pub open spec fn with_all_in_front<T>(s: Seq<T>, items: Seq<T>) -> Seq<T>
    decreases items.len(),
{
    if items.len() == 0 {
        s
    } else {
        with_all_in_front(with_front(s, items[0]), items.drop_first())
    }
}

/// One more front-insertion after those of `items` is the front-insertion of
/// `items` with the new element at its end.
pub proof fn lemma_all_in_front_step<T>(s: Seq<T>, items: Seq<T>, elem: T)
    ensures
        with_all_in_front(s, items.push(elem)) == with_front(with_all_in_front(s, items), elem),
    decreases items.len(),
{
    let longer = items.push(elem);
    if items.len() == 0 {
        assert(longer.drop_first() =~= items);
        assert(with_all_in_front(s, longer) == with_all_in_front(
            with_front(s, elem),
            longer.drop_first(),
        ));
    } else {
        assert(longer.drop_first() =~= items.drop_first().push(elem));
        assert(longer[0] == items[0]);
        lemma_all_in_front_step(with_front(s, items[0]), items.drop_first(), elem);
    }
}

/// Front-insertion of `items`, one after the other, leaves them in reverse
/// order in front of what was there.
pub proof fn lemma_all_in_front_reverses<T>(s: Seq<T>, items: Seq<T>)
    ensures
        with_all_in_front(s, items) == items.reverse() + s,
    decreases items.len(),
{
    if items.len() == 0 {
        assert(items.reverse() + s =~= s);
    } else {
        lemma_all_in_front_reverses(with_front(s, items[0]), items.drop_first());
        assert(items.drop_first().reverse() + with_front(s, items[0]) =~= items.reverse() + s);
    }
}

/// After `k` front-insertions into the empty list there are `k` elements, and
/// the first of them is the one inserted last.
pub proof fn lemma_count_and_head_after_insertions<T>(items: Seq<T>)
    ensures
        with_all_in_front(Seq::empty(), items).len() == items.len(),
        items.len() > 0 ==> with_all_in_front(Seq::empty(), items)[0] == items.last(),
{
    lemma_all_in_front_reverses(Seq::empty(), items);
}

/// Removing no element changes nothing, removing as many as there are or
/// more leaves nothing, and removing `a` and then `b` removes `a + b`.
pub proof fn lemma_without_first<T>(s: Seq<T>, a: nat, b: nat)
    ensures
        without_first(s, 0) == s,
        a >= s.len() ==> without_first(s, a) == Seq::<T>::empty(),
        without_first(without_first(s, a), b) == without_first(s, a + b),
{
    assert(without_first(s, 0) =~= s);
    assert(without_first(without_first(s, a), b) =~= without_first(s, a + b));
}

/// A cursor that has made `k` steps has passed the first `k` elements, or
/// all of them where there are fewer.
pub proof fn lemma_after_steps<T>(s: Seq<T>, k: nat)
    ensures
        after_steps(s, k) == without_first(s, k),
    decreases k,
{
    if k == 0 {
        assert(without_first(s, 0) =~= s);
    } else {
        lemma_after_steps(without_first(s, 1), (k - 1) as nat);
        assert(without_first(without_first(s, 1), (k - 1) as nat) =~= without_first(s, k));
    }
}

/// Keeping as many elements as there are keeps them all, keeping none leaves
/// nothing, and keeping the last `n` of more than `n` is removing the others
/// from the front.
pub proof fn lemma_only_last<T>(s: Seq<T>, n: nat)
    ensures
        only_last(s, s.len()) == s,
        only_last(s, 0) == Seq::<T>::empty(),
        n < s.len() ==> only_last(s, n) == without_first(s, (s.len() - n) as nat),
{
    assert(only_last(s, 0) =~= Seq::<T>::empty());
}

} // verus!
