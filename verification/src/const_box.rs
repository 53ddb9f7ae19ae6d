//! An exclusive-ownership container for a single value.  It backs the
//! byte storage of the arbitrary-precision unsigned integer; the
//! consumer sees only the owned value, never the backing strategy.

use vstd::prelude::*;

verus! {

/// A box owning exactly one value of `T`.  Its abstract content is the
/// value itself.
#[derive(Debug)]
pub struct ConstBox<T> {
    value: T,
}

impl<T> View for ConstBox<T> {
    type V = T;

    closed spec fn view(&self) -> T {
        self.value
    }
}

impl<T> ConstBox<T> {
    /// Take ownership of a value.
    pub fn new(value: T) -> (r: ConstBox<T>)
        ensures
            r@ == value,
    {
        ConstBox { value }
    }

    /// Borrow the owned value.
    pub fn as_ref(&self) -> (r: &T)
        ensures
            *r == self@,
    {
        &self.value
    }

    /// Give the owned value back, consuming the box.
    pub fn into_inner(self) -> (r: T)
        ensures
            r == self@,
    {
        self.value
    }
}

} // verus!
