//! A persistent singly-linked list.
//!
//! Every operation that looks like a modification returns a new handle that
//! shares the nodes of the list it was made from. A list is modelled by the
//! sequence of its elements, front to back.

pub mod compare;
pub mod hashing;
pub mod iter;
pub mod list;
pub mod model;
mod node;
pub mod render;
