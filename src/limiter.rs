//! A counting limit on the tasks in flight at one stage of the pipeline.
//! Page fetches and chapter fetches each have their own limiter, so that
//! neither stage can starve the other.

use vstd::prelude::*;

verus! {

/// The default number of page fetches in flight.
pub const DEFAULT_CONCURRENT_MAX: usize = 100;

/// The default number of chapter fetches in flight.
pub const DEFAULT_SECTION_CONCURRENT_MAX: usize = 50;

/// A counting semaphore: at most `capacity` permits are out at once.
pub struct ConcurrencyLimiter {
    capacity: usize,
    in_use: usize,
}

impl ConcurrencyLimiter {
    pub closed spec fn spec_capacity(self) -> nat {
        self.capacity as nat
    }

    pub closed spec fn spec_in_use(self) -> nat {
        self.in_use as nat
    }

    pub closed spec fn wf(self) -> bool {
        self.in_use <= self.capacity
    }

    /// A limiter with `capacity` slots, all free.
    pub fn new(capacity: usize) -> (r: Self)
        ensures
            r.wf(),
            r.spec_capacity() == capacity,
            r.spec_in_use() == 0,
    {
        ConcurrencyLimiter { capacity, in_use: 0 }
    }

    /// Takes a slot if one is free.
    pub fn try_acquire(&mut self) -> (r: bool)
        requires
            old(self).wf(),
        ensures
            final(self).wf(),
            final(self).spec_capacity() == old(self).spec_capacity(),
            r == (old(self).spec_in_use() < old(self).spec_capacity()),
            r ==> final(self).spec_in_use() == old(self).spec_in_use() + 1,
            !r ==> final(self).spec_in_use() == old(self).spec_in_use(),
    {
        if self.in_use < self.capacity {
            self.in_use = self.in_use + 1;
            true
        } else {
            false
        }
    }

    /// Frees a slot taken earlier.
    pub fn release(&mut self)
        requires
            old(self).wf(),
            old(self).spec_in_use() > 0,
        ensures
            final(self).wf(),
            final(self).spec_capacity() == old(self).spec_capacity(),
            final(self).spec_in_use() == old(self).spec_in_use() - 1,
    {
        self.in_use = self.in_use - 1;
    }

    /// The number of slots taken.
    pub fn in_use(&self) -> (r: usize)
        ensures
            r == self.spec_in_use(),
    {
        self.in_use
    }

    /// The number of free slots.
    pub fn available(&self) -> (r: usize)
        requires
            self.wf(),
        ensures
            r == self.spec_capacity() - self.spec_in_use(),
    {
        self.capacity - self.in_use
    }
}

} // verus!
