//! Equality and lexicographic order of lists, element by element.

use crate::list::ConsList;
use std::cmp::Ordering;
use vstd::prelude::*;
use vstd::std_specs::cmp::{PartialEqSpec, PartialOrdIs, PartialOrdSpec};

verus! {

/// Two sequences are equal when they are equally long and equal at every
/// position, by the elements' own equality.
pub open spec fn same_elements<T: PartialEq>(a: Seq<T>, b: Seq<T>) -> bool {
    &&& a.len() == b.len()
    &&& forall|i: int| 0 <= i < a.len() ==> (#[trigger] a[i]).eq_spec(&b[i])
}

/// Every pair of elements at one position was compared and found equal.
pub open spec fn found_equal<T: PartialEq>(a: Seq<T>, b: Seq<T>) -> bool {
    &&& a.len() == b.len()
    &&& forall|i: int| 0 <= i < a.len() ==> call_ensures(T::eq, (&#[trigger] a[i], &b[i]), true)
}

/// The lengths differ, or a pair of elements at one position was compared and
/// found unequal.
pub open spec fn found_unequal<T: PartialEq>(a: Seq<T>, b: Seq<T>) -> bool {
    ||| a.len() != b.len()
    ||| exists|i: int| 0 <= i < a.len() && call_ensures(T::eq, (&#[trigger] a[i], &b[i]), false)
}

/// The lexicographic order of two sequences, by the elements' own order: the
/// first pair that is not equal decides, an incomparable pair included; where
/// every pair is equal the shorter sequence comes first.
pub open spec fn lex_order<T: PartialOrd>(a: Seq<T>, b: Seq<T>) -> Option<Ordering>
    decreases a.len(),
{
    if a.len() == 0 {
        if b.len() == 0 {
            Some(Ordering::Equal)
        } else {
            Some(Ordering::Less)
        }
    } else if b.len() == 0 {
        Some(Ordering::Greater)
    } else {
        match a[0].partial_cmp_spec(&b[0]) {
            Some(Ordering::Equal) => lex_order(a.drop_first(), b.drop_first()),
            decided => decided,
        }
    }
}

/// The first `k` pairs of elements were compared and found equal.
pub open spec fn level_before<T: PartialOrd>(a: Seq<T>, b: Seq<T>, k: int) -> bool {
    forall|i: int|
        0 <= i < k ==> call_ensures(
            T::partial_cmp,
            (&#[trigger] a[i], &b[i]),
            Some(Ordering::Equal),
        )
}

/// `order` is what a walk along both sequences finds at position `k`, the
/// pairs before it having been found equal: the end of one or both sequences,
/// or a pair that was compared and not found equal.
pub open spec fn decided_at<T: PartialOrd>(
    a: Seq<T>,
    b: Seq<T>,
    k: int,
    order: Option<Ordering>,
) -> bool {
    &&& 0 <= k <= a.len()
    &&& k <= b.len()
    &&& level_before(a, b, k)
    &&& if k == a.len() && k == b.len() {
        order == Some(Ordering::Equal)
    } else if k == a.len() {
        order == Some(Ordering::Less)
    } else if k == b.len() {
        order == Some(Ordering::Greater)
    } else {
        order != Some(Ordering::Equal) && call_ensures(T::partial_cmp, (&a[k], &b[k]), order)
    }
}

impl<T: PartialEq> vstd::std_specs::cmp::PartialEqSpecImpl for ConsList<T> {
    open spec fn obeys_eq_spec() -> bool {
        T::obeys_eq_spec()
    }

    open spec fn eq_spec(&self, other: &ConsList<T>) -> bool {
        same_elements(self@, other@)
    }
}

impl<T: PartialEq> PartialEq for ConsList<T> {
    /// Whether the lists are equally long and equal element by element. The
    /// walk ends at the first pair that is found unequal.
    fn eq(&self, other: &ConsList<T>) -> (equal: bool)
        ensures
            equal ==> found_equal(self@, other@),
            !equal ==> found_unequal(self@, other@),
    {
        if self.len() != other.len() {
            return false;
        }
        let mut a = self.iter();
        let mut b = other.iter();
        loop
            invariant
                self@.len() == other@.len(),
                a@.len() == b@.len(),
                a@.len() <= self@.len(),
                a@ == self@.skip(self@.len() - a@.len()),
                b@ == other@.skip(other@.len() - b@.len()),
                T::obeys_eq_spec() ==> forall|i: int|
                    0 <= i < self@.len() - a@.len() ==> (#[trigger] self@[i]).eq_spec(&other@[i]),
                forall|i: int|
                    0 <= i < self@.len() - a@.len() ==> call_ensures(
                        T::eq,
                        (&#[trigger] self@[i], &other@[i]),
                        true,
                    ),
            decreases a@.len(),
        {
            match (a.next(), b.next()) {
                (Some(x), Some(y)) => {
                    if !x.eq(y) {
                        return false;
                    }
                },
                _ => {
                    return true;
                },
            }
        }
    }

    /// The negation of `eq`.
    fn ne(&self, other: &ConsList<T>) -> (unequal: bool)
        ensures
            unequal ==> found_unequal(self@, other@),
            !unequal ==> found_equal(self@, other@),
    {
        !self.eq(other)
    }
}

impl<T: PartialOrd> vstd::std_specs::cmp::PartialOrdSpecImpl for ConsList<T> {
    open spec fn obeys_partial_cmp_spec() -> bool {
        T::obeys_partial_cmp_spec()
    }

    open spec fn partial_cmp_spec(&self, other: &ConsList<T>) -> Option<Ordering> {
        lex_order(self@, other@)
    }
}

impl<T: PartialOrd> PartialOrd for ConsList<T> {
    /// Compares the lists lexicographically, front to back. A pair of
    /// elements that is not found equal decides, whatever its comparison gave:
    /// an incomparable pair makes the lists incomparable.
    fn partial_cmp(&self, other: &ConsList<T>) -> (order: Option<Ordering>)
        ensures
            exists|k: int| decided_at(self@, other@, k, order),
    {
        let mut a = self.iter();
        let mut b = other.iter();
        let ghost mut k: int = 0;
        loop
            invariant
                T::obeys_partial_cmp_spec() ==> lex_order(a@, b@) == lex_order(self@, other@),
                0 <= k <= self@.len(),
                k <= other@.len(),
                a@ == self@.skip(k),
                b@ == other@.skip(k),
                level_before(self@, other@, k),
            decreases a@.len(),
        {
            let ghost ahead = (a@, b@);
            match (a.next(), b.next()) {
                (None, None) => {
                    assert(decided_at(self@, other@, k, Some(Ordering::Equal)));
                    return Some(Ordering::Equal);
                },
                (None, _) => {
                    assert(decided_at(self@, other@, k, Some(Ordering::Less)));
                    return Some(Ordering::Less);
                },
                (_, None) => {
                    assert(decided_at(self@, other@, k, Some(Ordering::Greater)));
                    return Some(Ordering::Greater);
                },
                (Some(x), Some(y)) => {
                    assert(a@ =~= ahead.0.drop_first());
                    assert(b@ =~= ahead.1.drop_first());
                    match x.partial_cmp(y) {
                        Some(Ordering::Equal) => (),
                        non_eq => {
                            assert(decided_at(self@, other@, k, non_eq));
                            return non_eq;
                        },
                    }
                },
            }
            proof {
                k = k + 1;
            }
        }
    }
}

/// Lists with the same elements in the same places are equal, whatever the
/// order of the insertions that made them, where every element equals itself.
pub proof fn lemma_same_sequence_equal<T: PartialEq>(x: ConsList<T>, y: ConsList<T>)
    requires
        x@ == y@,
        forall|i: int| 0 <= i < x@.len() ==> (#[trigger] x@[i]).eq_spec(&x@[i]),
    ensures
        x.eq_spec(&y),
{
}

/// Lists of different lengths are never equal.
pub proof fn lemma_lengths_differ<T: PartialEq>(x: ConsList<T>, y: ConsList<T>)
    requires
        x@.len() != y@.len(),
    ensures
        !x.eq_spec(&y),
{
}

/// The empty list comes before every list that has an element.
pub proof fn lemma_empty_is_least<T: PartialOrd>(x: ConsList<T>, y: ConsList<T>)
    requires
        x@.len() == 0,
        y@.len() > 0,
    ensures
        x.partial_cmp_spec(&y) == Some(Ordering::Less),
        y.partial_cmp_spec(&x) == Some(Ordering::Greater),
{
}

/// A list comes before every longer list that continues it: one whose
/// elements are, place by place, equal to its own.
pub proof fn lemma_prefix_is_less<T: PartialOrd>(x: ConsList<T>, y: ConsList<T>)
    requires
        x@.len() < y@.len(),
        forall|i: int|
            0 <= i < x@.len() ==> (#[trigger] x@[i]).partial_cmp_spec(&y@[i]) == Some(
                Ordering::Equal,
            ),
    ensures
        x.partial_cmp_spec(&y) == Some(Ordering::Less),
{
    lemma_lex_prefix(x@, y@);
}

/// An incomparable pair of elements makes the two lists incomparable, where
/// every pair before it is equal: none of `<`, `<=`, `>`, `>=` holds of them.
pub proof fn lemma_incomparable_pair<T: PartialOrd>(x: ConsList<T>, y: ConsList<T>, k: int)
    requires
        0 <= k < x@.len(),
        k < y@.len(),
        forall|i: int|
            0 <= i < k ==> (#[trigger] x@[i]).partial_cmp_spec(&y@[i]) == Some(Ordering::Equal),
        x@[k].partial_cmp_spec(&y@[k]) is None,
    ensures
        x.partial_cmp_spec(&y) is None,
        !x.is_lt(&y),
        !x.is_le(&y),
        !x.is_gt(&y),
        !x.is_ge(&y),
{
    lemma_lex_first_difference(x@, y@, k);
}

/// A sequence comes before every longer one that continues it.
pub proof fn lemma_lex_prefix<T: PartialOrd>(a: Seq<T>, b: Seq<T>)
    requires
        a.len() < b.len(),
        forall|i: int|
            0 <= i < a.len() ==> (#[trigger] a[i]).partial_cmp_spec(&b[i]) == Some(Ordering::Equal),
    ensures
        lex_order(a, b) == Some(Ordering::Less),
    decreases a.len(),
{
    if a.len() > 0 {
        assert forall|i: int| 0 <= i < a.drop_first().len() implies (#[trigger] a.drop_first()[i]).partial_cmp_spec(
            &b.drop_first()[i],
        ) == Some(Ordering::Equal) by {
            assert(a.drop_first()[i] == a[i + 1]);
            assert(b.drop_first()[i] == b[i + 1]);
        }
        lemma_lex_prefix(a.drop_first(), b.drop_first());
    }
}

/// Where the first `k` pairs are equal, the order is decided at position `k`.
pub proof fn lemma_lex_first_difference<T: PartialOrd>(a: Seq<T>, b: Seq<T>, k: int)
    requires
        0 <= k <= a.len(),
        k <= b.len(),
        forall|i: int|
            0 <= i < k ==> (#[trigger] a[i]).partial_cmp_spec(&b[i]) == Some(Ordering::Equal),
    ensures
        lex_order(a, b) == lex_order(a.skip(k), b.skip(k)),
    decreases k,
{
    if k == 0 {
        assert(a.skip(0) =~= a);
        assert(b.skip(0) =~= b);
    } else {
        lemma_lex_first_difference(a.drop_first(), b.drop_first(), k - 1);
        assert(a.drop_first().skip(k - 1) =~= a.skip(k));
        assert(b.drop_first().skip(k - 1) =~= b.skip(k));
    }
}

} // verus!
