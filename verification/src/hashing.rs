//! Hashing of a list: its length, then its elements, front to back.

use crate::list::ConsList;
use std::hash::{Hash, Hasher};
use vstd::prelude::*;

verus! {

/// `Hash::hash` of a `usize`. What it does to the hasher is up to the hasher.
#[verifier::external_body]
fn feed_len<H: Hasher>(n: usize, state: &mut H) {
    n.hash(state)
}

/// `Hash::hash` of an element. What it does to the hasher is up to the
/// element's impl and to the hasher.
#[verifier::external_body]
fn feed_elem<A: Hash, H: Hasher>(elem: &A, state: &mut H) {
    elem.hash(state)
}

/// The length `n` was fed to the hasher behind `m`: `m` stands for the hasher
/// from just before that feed to just after it.
pub closed spec fn fed_len<H: Hasher>(n: usize, m: &mut H) -> bool {
    call_ensures(feed_len::<H>, (n, m), ())
}

/// The element `elem` was fed to the hasher behind `m`: `m` stands for the
/// hasher from just before that feed to just after it.
pub closed spec fn fed_elem<A: Hash, H: Hasher>(elem: A, m: &mut H) -> bool {
    call_ensures(feed_elem::<A, H>, (&elem, m), ())
}

impl<A: Hash> Hash for ConsList<A> {
    /// Feeds the hasher the length and then every element, front to back, and
    /// nothing else: each feed starts from the state that the feed before it
    /// left, the first from the state given and the last leaves the state
    /// handed back.
    fn hash<H: Hasher>(&self, state: &mut H)
        ensures
            exists|ms: Seq<&mut H>|
                {
                    &&& ms.len() == self@.len() + 1
                    &&& *ms[0] == *old(state)
                    &&& fed_len(self@.len() as usize, #[trigger] ms[0])
                    &&& forall|i: int|
                        0 <= i < self@.len() ==> *ms[i + 1] == *final(ms[i]) && fed_elem(
                            self@[i],
                            #[trigger] ms[i + 1],
                        )
                    &&& *final(ms[self@.len() as int]) == *final(state)
                },
    {
        let n = self.len();
        let ghost given = *state;
        feed_len(n, state);
        let ghost first = choose|m: &mut H|
            *m == given && *final(m) == *state && call_ensures(feed_len::<H>, (n, m), ());
        let ghost mut ms: Seq<&mut H> = seq![first];
        assert(fed_len(n, first));
        let mut it = self.iter();
        loop
            invariant
                n == self@.len(),
                1 <= ms.len() <= self@.len() + 1,
                it@ == self@.skip(ms.len() - 1),
                *ms[0] == *old(state),
                fed_len(n, ms[0]),
                forall|i: int|
                    0 <= i < ms.len() - 1 ==> *ms[i + 1] == *final(ms[i]) && fed_elem(
                        self@[i],
                        #[trigger] ms[i + 1],
                    ),
                *final(ms.last()) == *state,
            decreases it@.len(),
        {
            match it.next() {
                None => return ,
                Some(elt) => {
                    let ghost before = *state;
                    feed_elem(elt, state);
                    proof {
                        let m = choose|m: &mut H|
                            *m == before && *final(m) == *state && call_ensures(
                                feed_elem::<A, H>,
                                (elt, m),
                                (),
                            );
                        assert(*elt == self@[ms.len() - 1]);
                        assert(fed_elem(self@[ms.len() - 1], m));
                        ms = ms.push(m);
                    }
                },
            }
        }
    }
}

} // verus!
