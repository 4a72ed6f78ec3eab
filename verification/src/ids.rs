//! Connection identifiers.

use vstd::prelude::*;

verus! {

/// The first identifier a fresh allocator hands out.
pub const FIRST_ID: usize = 1;

/// Issues connection identifiers in increasing order, starting at `FIRST_ID`.
pub struct IdAllocator {
    next: usize,
}

impl IdAllocator {
    /// The identifier that the next call of `next_id` returns.
    pub closed spec fn upcoming(&self) -> usize {
        self.next
    }

    /// The identifier that follows `id`. The counter wraps to zero after
    /// `usize::MAX`, so identifiers are distinct until that many were issued.
    pub open spec fn successor(id: usize) -> usize {
        if id == usize::MAX {
            0
        } else {
            (id + 1) as usize
        }
    }

    pub fn new() -> (ids: Self)
        ensures
            ids.upcoming() == FIRST_ID,
    {
        IdAllocator { next: FIRST_ID }
    }

    /// Hands out the upcoming identifier and advances the counter by one.
    pub fn next_id(&mut self) -> (id: usize)
        ensures
            id == old(self).upcoming(),
            final(self).upcoming() == Self::successor(id),
            id < usize::MAX ==> id < final(self).upcoming(),
    {
        let id: usize = self.next;
        self.next = id.wrapping_add(1);
        id
    }
}

} // verus!
