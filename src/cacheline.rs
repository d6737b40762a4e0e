use vstd::prelude::*;

verus! {

/// A value that is meant to sit on a cache line of its own, so that stores
/// to it do not invalidate a neighbour's line. The host program gives the
/// wrapper its 128-byte alignment when it lays out shared words.
pub struct CacheLineAligned<T> {
    value: T,
}

impl<T> CacheLineAligned<T> {
    pub closed spec fn view(&self) -> T {
        self.value
    }

    pub fn new(x: T) -> (r: Self)
        ensures
            r@ == x,
    {
        CacheLineAligned { value: x }
    }

    pub fn get(&self) -> (r: &T)
        ensures
            *r == self@,
    {
        &self.value
    }

    pub fn get_mut(&mut self) -> (r: &mut T)
        ensures
            *r == old(self)@,
            final(self)@ == *final(r),
    {
        &mut self.value
    }

    pub fn into_inner(self) -> (r: T)
        ensures
            r == self@,
    {
        self.value
    }
}

} // verus!
