//! A stack of values kept in a singly linked chain of boxed nodes, with
//! consuming, borrowing and mutably borrowing cursors that walk it from the
//! top down.
pub mod laws;
pub mod render;
pub mod stack;

pub use stack::{GenericStack, IntoIter, Iter, IterMut, Iterators};
