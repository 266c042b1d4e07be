//! A plain wrapper that hands out its content.

use vstd::prelude::*;

verus! {

/// A value kept in place.
pub struct PinWrapper<T>(T);

impl<T> PinWrapper<T> {
    /// The wrapped value.
    pub closed spec fn inner(&self) -> T {
        self.0
    }

    /// Wraps `data`.
    pub fn new(data: T) -> (r: PinWrapper<T>)
        ensures
            r.inner() == data,
    {
        PinWrapper(data)
    }

    /// The wrapped value.
    pub fn deref(&self) -> (r: &T)
        ensures
            *r == self.inner(),
    {
        &self.0
    }

    /// The wrapped value, to change.
    pub fn deref_mut(&mut self) -> (r: &mut T)
        ensures
            *r == old(self).inner(),
            final(self).inner() == *final(r),
    {
        &mut self.0
    }
}

} // verus!
