//! The text of a list: its elements' own renderings between brackets.

use crate::list::ConsList;
use std::fmt::{Debug, Write};
use vstd::prelude::*;
use vstd::string::StringExecFns;

verus! {

/// The pieces of `parts`, in order, with a comma and a space between each two.
pub open spec fn joined(parts: Seq<Seq<char>>) -> Seq<char>
    decreases parts.len(),
{
    if parts.len() == 0 {
        Seq::empty()
    } else if parts.len() == 1 {
        parts[0]
    } else {
        joined(parts.drop_last()) + seq![',', ' '] + parts.last()
    }
}

/// The joined pieces between an opening and a closing bracket.
pub open spec fn bracketed(parts: Seq<Seq<char>>) -> Seq<char> {
    seq!['['] + joined(parts) + seq![']']
}

/// The texts held by `parts`.
pub open spec fn texts(parts: Seq<String>) -> Seq<Seq<char>> {
    parts.map_values(|part: String| part@)
}

/// `write!` of `{:?}` into a fresh `String`: the text that the element's own
/// `Debug` gives, or `None` where that impl reports an error. What the text
/// holds is up to the impl, so nothing is claimed of it.
#[verifier::external_body]
fn debug_text<T: Debug>(elem: &T) -> Option<String> {
    let mut text = String::new();
    match write!(text, "{:?}", elem) {
        Ok(()) => Some(text),
        Err(_) => None,
    }
}

/// `part` is what the rendering of `elem` gave: its text, or `None` where the
/// element's `Debug` reported an error.
pub closed spec fn rendered<T: Debug>(elem: T, part: Option<String>) -> bool {
    call_ensures(debug_text::<T>, (&elem,), part)
}

/// Writes the renderings `parts` of a list's elements as the list's text.
pub fn bracket(parts: &Vec<String>) -> (text: String)
    ensures
        text@ == bracketed(texts(parts@)),
{
    let mut text = String::from_str("[");
    proof {
        reveal_strlit("[");
    }
    let mut i: usize = 0;
    while i < parts.len()
        invariant
            i <= parts.len(),
            text@ == seq!['['] + joined(texts(parts@).take(i as int)),
        decreases parts.len() - i,
    {
        proof {
            reveal_strlit(", ");
            let before = texts(parts@).take(i as int);
            let now = texts(parts@).take(i + 1);
            assert(now.drop_last() =~= before);
            assert(now.last() == parts[i as int]@);
            assert(", "@ =~= seq![',', ' ']);
            if i == 0 {
                assert(seq!['['] + joined(before) + parts[i as int]@ =~= seq!['['] + joined(now));
            } else {
                assert(seq!['['] + joined(before) + seq![',', ' '] + parts[i as int]@ =~= seq!['[']
                    + joined(now));
            }
        }
        if i != 0 {
            text.append(", ");
        }
        text.append(parts[i].as_str());
        i = i + 1;
    }
    proof {
        reveal_strlit("]");
        assert(texts(parts@).take(i as int) =~= texts(parts@));
        assert("]"@ =~= seq![']']);
    }
    text.append("]");
    text
}

impl<T: Debug> ConsList<T> {
    /// The list as text: `[e0, e1, ..., en]`, each element rendered by its own
    /// `Debug`, front to back; `[]` for the empty list. `None` as soon as the
    /// rendering of an element fails.
    pub fn to_debug_string(&self) -> (text: Option<String>)
        ensures
            text matches Some(t) ==> exists|parts: Seq<String>|
                {
                    &&& parts.len() == self@.len()
                    &&& forall|i: int|
                        0 <= i < self@.len() ==> rendered(self@[i], Some(#[trigger] parts[i]))
                    &&& t@ == bracketed(texts(parts))
                },
            text is None ==> exists|i: int|
                0 <= i < self@.len() && rendered(#[trigger] self@[i], None::<String>),
    {
        let mut parts: Vec<String> = Vec::new();
        let mut it = self.iter();
        loop
            invariant
                parts.len() + it@.len() == self@.len(),
                it@ == self@.skip(parts.len() as int),
                forall|i: int|
                    0 <= i < parts.len() ==> rendered(self@[i], Some(#[trigger] parts@[i])),
            decreases it@.len(),
        {
            match it.next() {
                None => {
                    let text = bracket(&parts);
                    return Some(text);
                },
                Some(elem) => {
                    assert(*elem == self@[parts.len() as int]);
                    match debug_text(elem) {
                        None => {
                            assert(rendered(self@[parts.len() as int], None::<String>));
                            return None;
                        },
                        Some(part) => {
                            assert(rendered(self@[parts.len() as int], Some(part)));
                            parts.push(part);
                        },
                    }
                },
            }
        }
    }
}

} // verus!
