//! A borrowing cursor over the elements of a list.

use crate::model::{after_steps, lemma_after_steps, without_first};
use crate::node::Node;
use vstd::prelude::*;

verus! {

/// An iterator over the items of a `ConsList`. Its view is the sequence of
/// the elements that it has yet to yield.
pub struct Iter<'a, T: 'a> {
    head: Option<&'a Node<T>>,
    nelem: usize,
}

impl<'a, T> View for Iter<'a, T> {
    type V = Seq<T>;

    closed spec fn view(&self) -> Seq<T> {
        match self.head {
            None => Seq::empty(),
            Some(node) => node.run(),
        }
    }
}

impl<'a, T> Iter<'a, T> {
    #[verifier::type_invariant]
    spec fn counted(self) -> bool {
        self.nelem == self@.len()
    }

    /// A cursor at `head` with `nelem` elements to go.
    pub(crate) fn starting_at(head: Option<&'a Node<T>>, nelem: usize) -> (it: Iter<'a, T>)
        requires
            nelem == (match head {
                None => Seq::<T>::empty(),
                Some(node) => node.run(),
            }).len(),
        ensures
            it@ == (match head {
                None => Seq::<T>::empty(),
                Some(node) => node.run(),
            }),
    {
        Iter { head: head, nelem: nelem }
    }

    /// Yields the element under the cursor and moves on; `None` at the end.
    pub fn next(&mut self) -> (item: Option<&'a T>)
        ensures
            item == (if old(self)@.len() == 0 {
                None
            } else {
                Some(&old(self)@[0])
            }),
            final(self)@ == without_first(old(self)@, 1),
    {
        proof {
            use_type_invariant(&*self);
        }
        match self.head {
            None => None,
            Some(head) => {
                let rest: Option<&'a Node<T>> = match &head.next {
                    None => None,
                    Some(next) => Some(&**next),
                };
                assert(head.run().skip(1) =~= Node::chain(head.next));
                *self = Iter { head: rest, nelem: self.nelem - 1 };
                Some(&head.elem)
            },
        }
    }

    /// The number of elements left, as both bounds: the count is exact.
    pub fn size_hint(&self) -> (hint: (usize, Option<usize>))
        ensures
            hint.0 == self@.len(),
            hint.1 == Some(hint.0),
    {
        proof {
            use_type_invariant(self);
        }
        (self.nelem, Some(self.nelem))
    }
}

impl<'a, T> Clone for Iter<'a, T> {
    /// An independent cursor at the same position.
    fn clone(&self) -> (res: Self)
        ensures
            res@ == self@,
    {
        proof {
            use_type_invariant(self);
        }
        Iter { head: self.head, nelem: self.nelem }
    }
}

/// A cursor and its clone stay in step: advanced independently by `k` steps
/// from the position that they shared, both have the same elements ahead,
/// namely all but the first `k` of those that lay ahead there.
pub proof fn lemma_clone_stays_in_step<'a, T>(it: Iter<'a, T>, jt: Iter<'a, T>, k: nat)
    requires
        jt@ == it@,
    ensures
        after_steps(jt@, k) == after_steps(it@, k),
        after_steps(it@, k) == without_first(it@, k),
{
    lemma_after_steps(it@, k);
}

} // verus!
