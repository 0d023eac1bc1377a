//! The shared chain of nodes behind every list handle.

use std::rc::Rc;
use vstd::prelude::*;

verus! {

/// One element and the shared link to the rest of the chain. A node is never
/// changed once it is shared.
pub(crate) struct Node<T> {
    pub(crate) elem: T,
    pub(crate) next: Option<Rc<Node<T>>>,
}

pub(crate) type Link<T> = Option<Rc<Node<T>>>;

impl<T> Node<T> {
    /// The elements reachable from `link`, front to back.
    pub(crate) open spec fn chain(link: Link<T>) -> Seq<T>
        decreases link,
    {
        match link {
            None => Seq::empty(),
            Some(node) => node.run(),
        }
    }

    /// The elements from this node to the end of its chain.
    pub(crate) open spec fn run(self) -> Seq<T>
        decreases self,
    {
        seq![self.elem] + Self::chain(self.next)
    }

    pub(crate) fn new(elem: T) -> (node: Node<T>)
        ensures
            node.elem == elem,
            node.next is None,
    {
        Node { elem: elem, next: None }
    }
}

/// `Rc::clone`: the new pointer leads to the same allocation, so the value
/// behind it is the value behind `rc`.
#[verifier::external_body]
pub(crate) fn rc_clone<T>(rc: &Rc<T>) -> (res: Rc<T>)
    ensures
        res == *rc,
{
    Rc::clone(rc)
}

/// `Rc::try_unwrap`: the value itself where `rc` was the only strong pointer
/// to it, else `rc` handed back. It never panics.
#[verifier::external_body]
pub(crate) fn rc_try_unwrap<T>(rc: Rc<T>) -> (res: Result<T, Rc<T>>)
    ensures
        match res {
            Ok(inner) => inner == rc,
            Err(shared) => shared == rc,
        },
    opens_invariants none
    no_unwind
{
    Rc::try_unwrap(rc)
}

/// A second handle on the chain behind `link`. No node is copied.
pub(crate) fn share<T>(link: &Link<T>) -> (res: Link<T>)
    ensures
        res == *link,
{
    match link {
        None => None,
        Some(rc) => Some(rc_clone(rc)),
    }
}

} // verus!
