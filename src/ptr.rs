//! The owning pointer that links the nodes of the syntax tree.
use vstd::prelude::*;

verus! {

/// An owning pointer to a heap-allocated node: each node has exactly one
/// owner, so the syntax tree is a tree.
#[derive(Debug, PartialEq)]
pub struct Ptr<T> {
    pub ptr: Box<T>,
}

impl<T> Ptr<T> {
    /// The value pointed to.
    pub open spec fn inner(&self) -> T {
        *self.ptr
    }

    /// A pointer to `value`.
    pub fn new(value: T) -> (r: Ptr<T>)
        ensures
            r.inner() == value,
    {
        Ptr { ptr: Box::new(value) }
    }

    /// The value pointed to, taken out of the pointer.
    pub fn into_inner(self) -> (r: T)
        ensures
            r == self.inner(),
    {
        *self.ptr
    }

    /// A reference to the value pointed to.
    pub fn get(&self) -> (r: &T)
        ensures
            *r == self.inner(),
            decreases_to!(*self => *r),
    {
        &self.ptr
    }
}

} // verus!
