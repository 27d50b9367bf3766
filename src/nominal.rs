use vstd::prelude::*;

use std::marker::PhantomData;

verus! {

/// A value tagged with a marker type, so that values of one representation but different
/// meanings do not mix.
pub struct Nominal<T, N> {
    inner: T,
    marker: PhantomData<N>,
}

impl<T, N> Nominal<T, N> {
    /// The wrapped value.
    pub closed spec fn value(&self) -> T {
        self.inner
    }

    pub fn new(inner: T) -> (r: Self)
        ensures
            r.value() == inner,
    {
        Nominal { inner, marker: PhantomData }
    }

    pub fn as_ref(&self) -> (r: &T)
        ensures
            *r == self.value(),
    {
        &self.inner
    }

    pub fn as_mut(&mut self) -> (r: &mut T)
        ensures
            *r == old(self).value(),
            final(self).value() == *final(r),
    {
        &mut self.inner
    }
}

} // verus!
