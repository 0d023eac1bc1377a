//! The list handle and its core operations.

use crate::iter::Iter;
use crate::model::{
    lemma_all_in_front_reverses, lemma_all_in_front_step, only_last, with_all_in_front, with_front,
    without_first,
};
use crate::node::{rc_try_unwrap, share, Link, Node};
use std::rc::Rc;
use vstd::prelude::*;
use vstd::std_specs::iter::IteratorSpec;

verus! {

/// The two fields of a handle, kept in one record so that teardown can detach
/// both in a single step.
struct Handle<T> {
    front: Link<T>,
    length: usize,
}

/// An immutable singly-linked list. Its view is the sequence of its elements,
/// front to back.
pub struct ConsList<T> {
    handle: Handle<T>,
}

impl<T> View for ConsList<T> {
    type V = Seq<T>;

    closed spec fn view(&self) -> Seq<T> {
        Node::chain(self.handle.front)
    }
}

impl<T> ConsList<T> {
    /// The cached length is the number of nodes reachable from the front.
    #[verifier::type_invariant]
    spec fn counted(self) -> bool {
        self.handle.length == Node::chain(self.handle.front).len()
    }

    /// Constructs a new, empty `ConsList`.
    pub fn new() -> (list: ConsList<T>)
        ensures
            list@ == Seq::<T>::empty(),
    {
        ConsList { handle: Handle { front: None, length: 0 } }
    }

    /// Returns a copy of the list, with `elem` appended to the front.
    pub fn append(&self, elem: T) -> (list: ConsList<T>)
        requires
            self@.len() < usize::MAX,
        ensures
            list@ == with_front(self@, elem),
            list@.len() == self@.len() + 1,
            list@[0] == elem,
    {
        let mut new_node = Node::new(elem);
        new_node.next = share(&self.handle.front);
        ConsList { handle: Handle { front: Some(Rc::new(new_node)), length: self.len() + 1 } }
    }

    /// Builds a list by front-insertion of the items of `iter`, one after the
    /// other: the list holds them in the reverse of the order in which `iter`
    /// yields them.
    pub fn from_iter<I: Iterator<Item = T>>(iter: I) -> (list: ConsList<T>)
        requires
            iter.obeys_prophetic_iter_laws(),
            iter.decrease() is Some,
            iter.remaining().len() <= usize::MAX,
        ensures
            list@ == with_all_in_front(Seq::empty(), iter.remaining()),
            list@ == iter.remaining().reverse(),
    {
        let mut rest = iter;
        let ghost items = iter.remaining();
        let mut list = ConsList::new();
        loop
            invariant
                rest.obeys_prophetic_iter_laws(),
                rest.decrease() is Some,
                items == iter.remaining(),
                items.len() <= usize::MAX,
                list@.len() + rest.remaining().len() == items.len(),
                rest.remaining() == items.skip(list@.len() as int),
                list@ == with_all_in_front(Seq::empty(), items.take(list@.len() as int)),
            decreases rest.decrease()->0,
        {
            match rest.next() {
                None => {
                    assert(items.take(list@.len() as int) =~= items);
                    proof {
                        lemma_all_in_front_reverses(Seq::empty(), items);
                    }
                    return list;
                },
                Some(elem) => {
                    proof {
                        lemma_all_in_front_step(Seq::empty(), items.take(list@.len() as int), elem);
                        assert(items.take(list@.len() as int).push(elem) =~= items.take(
                            list@.len() as int + 1,
                        ));
                    }
                    list = list.append(elem);
                },
            }
        }
    }

    /// Returns a reference to the first element in the list.
    pub fn head(&self) -> (first: Option<&T>)
        ensures
            first == (if self@.len() == 0 {
                None
            } else {
                Some(&self@[0])
            }),
    {
        match &self.handle.front {
            None => None,
            Some(node) => Some(&node.elem),
        }
    }

    /// Returns a copy of the list, with the first element removed.
    pub fn tail(&self) -> (list: ConsList<T>)
        ensures
            list@ == without_first(self@, 1),
    {
        self.tailn(1)
    }

    /// Returns a copy of the list, with the first `n` elements removed.
    pub fn tailn(&self, n: usize) -> (list: ConsList<T>)
        ensures
            list@ == without_first(self@, n as nat),
    {
        if self.len() <= n {
            ConsList::new()
        } else {
            let len = self.len() - n;
            let mut head: &Link<T> = &self.handle.front;
            let mut i: usize = 0;
            while i < n
                invariant
                    i <= n < self@.len(),
                    Node::chain(*head) == self@.skip(i as int),
                decreases n - i,
            {
                let node = head.as_ref().unwrap();
                assert(Node::chain(node.next) =~= self@.skip(i as int).drop_first());
                assert(self@.skip(i as int).drop_first() =~= self@.skip(i + 1));
                head = &node.next;
                i = i + 1;
            }
            ConsList { handle: Handle { front: share(head), length: len } }
        }
    }

    /// Returns the last element in the list.
    pub fn last(&self) -> (last: Option<&T>)
        ensures
            last == (if self@.len() == 0 {
                None
            } else {
                Some(&self@[self@.len() - 1])
            }),
    {
        let mut it = self.iter();
        let mut last: Option<&T> = None;
        loop
            invariant
                it@.len() <= self@.len(),
                it@ == self@.skip(self@.len() - it@.len()),
                last == (if it@.len() == self@.len() {
                    None
                } else {
                    Some(&self@[self@.len() - it@.len() - 1])
                }),
            decreases it@.len(),
        {
            match it.next() {
                None => {
                    return last;
                },
                Some(item) => {
                    last = Some(item);
                },
            }
        }
    }

    /// Returns a copy of the list, with only the last `n` elements remaining.
    pub fn lastn(&self, n: usize) -> (list: ConsList<T>)
        ensures
            list@ == only_last(self@, n as nat),
    {
        if n >= self.len() {
            self.clone()
        } else {
            self.tailn(self.len() - n)
        }
    }

    /// Returns an iterator over references to the elements of the list in
    /// order.
    pub fn iter<'a>(&'a self) -> (it: Iter<'a, T>)
        ensures
            it@ == self@,
    {
        let head: Option<&'a Node<T>> = match &self.handle.front {
            None => None,
            Some(node) => Some(&**node),
        };
        Iter::starting_at(head, self.len())
    }

    /// The number of elements.
    pub fn len(&self) -> (n: usize)
        ensures
            n == self@.len(),
    {
        proof {
            use_type_invariant(self);
        }
        self.handle.length
    }

    /// Whether the list has no element.
    pub fn is_empty(&self) -> (empty: bool)
        ensures
            empty == (self@.len() == 0),
    {
        return self.len() == 0;
    }
}

impl<T> Clone for ConsList<T> {
    /// A second handle on the same chain.
    fn clone(&self) -> (list: ConsList<T>)
        ensures
            list@ == self@,
    {
        proof {
            use_type_invariant(self);
        }
        ConsList { handle: Handle { front: share(&self.handle.front), length: self.handle.length } }
    }
}

/// Walks the chain behind `front` and releases every node that nothing else
/// owns, one after the other. It stops at the first node that is shared, and
/// hands back the link to it: what is left is a suffix of the chain.
fn release<T>(front: Link<T>) -> (kept: Link<T>)
    ensures
        exists|k: int|
            0 <= k <= Node::chain(front).len() && Node::chain(kept) == #[trigger] Node::chain(
                front,
            ).skip(k),
    opens_invariants none
    no_unwind
{
    let mut head = front;
    let ghost mut k: int = 0;
    proof {
        assert(Node::chain(front).skip(0) =~= Node::chain(front));
    }
    loop
        invariant
            0 <= k <= Node::chain(front).len(),
            Node::chain(head) == Node::chain(front).skip(k),
        decreases head,
    {
        let temp = head;
        match temp {
            Some(node) => {
                let ghost ahead = Node::chain(Some(node));
                match rc_try_unwrap(node) {
                    Ok(node) => {
                        proof {
                            assert(ahead == node.run());
                            assert(Node::chain(node.next) =~= ahead.skip(1));
                            assert(ahead.skip(1) =~= Node::chain(front).skip(k + 1));
                            k = k + 1;
                        }
                        let Node { elem: _, next } = node;
                        head = next;
                    },
                    Err(shared) => return Some(shared),
                }
            },
            None => return None,
        }
    }
}

impl<T> Drop for ConsList<T> {
    /// Clears the handle and releases the chain node by node, in a loop, for
    /// as long as this handle was the only owner of the node at hand.
    fn drop(&mut self)
        ensures
            final(self)@ == Seq::<T>::empty(),
        opens_invariants none
        no_unwind
    {
        let mut detached = Handle { front: None, length: 0 };
        std::mem::swap(&mut detached, &mut self.handle);
        let _kept = release(detached.front);
    }
}

} // verus!
