//! Identifier allocation for states and transitions.
//!
//! States and transitions carry a numeric identity: equality and hashing go
//! by the identifier alone, never by the carried data.  Identifiers come
//! from an explicit allocator that hands out consecutive numbers, so every
//! identifier drawn from one allocator is distinct from every other.

use vstd::prelude::*;

verus! {

/// Hands out monotonically increasing identifiers.
///
/// Construction goes through [`IdAllocator::new`], so the caller decides the
/// allocator's scope: one allocator per process gives process-wide unique
/// identities, one per test keeps tests deterministic.
pub struct IdAllocator {
    next: usize,
}

impl IdAllocator {
    /// The identifier the next call to [`IdAllocator::fresh`] will hand out.
    pub closed spec fn spec_next(self) -> usize {
        self.next
    }

    /// A fresh allocator, starting at identifier 0.
    pub fn new() -> (r: Self)
        ensures
            r.spec_next() == 0,
    {
        IdAllocator { next: 0 }
    }

    /// Hands out the next identifier and advances the counter.
    pub fn fresh(&mut self) -> (id: usize)
        requires
            old(self).spec_next() < usize::MAX,
        ensures
            id == old(self).spec_next(),
            final(self).spec_next() == old(self).spec_next() + 1,
    {
        let id = self.next;
        self.next = self.next + 1;
        id
    }
}

} // verus!
