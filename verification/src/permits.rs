//! Bounded permits: places in the queue, and bytes in flight.

use vstd::prelude::*;

verus! {

/// A number of permits, some of which are held.
#[derive(Clone, Copy, Debug, PartialEq, Eq, Structural)]
pub struct Permits {
    /// Permits in all.
    pub capacity: usize,
    /// Permits held.
    pub taken: usize,
}

impl Permits {
    /// No more are held than there are.
    pub open spec fn wf(self) -> bool {
        self.taken <= self.capacity
    }

    /// All are free.
    pub fn new(capacity: usize) -> (permits: Self)
        ensures
            permits.wf(),
            permits == (Permits { capacity, taken: 0 }),
    {
        Permits { capacity, taken: 0 }
    }

    /// Takes so many, if they are free. Whoever does not get them waits.
    pub fn take(&mut self, count: usize) -> (taken: bool)
        requires
            old(self).wf(),
        ensures
            final(self).wf(),
            taken == (old(self).taken + count <= old(self).capacity),
            *final(self) == if taken {
                Permits { taken: (old(self).taken + count) as usize, ..*old(self) }
            } else {
                *old(self)
            },
    {
        if count <= self.capacity - self.taken {
            self.taken = self.taken + count;
            true
        } else {
            false
        }
    }

    /// Gives so many back.
    pub fn give_back(&mut self, count: usize)
        requires
            old(self).wf(),
            count <= old(self).taken,
        ensures
            final(self).wf(),
            *final(self) == (Permits { taken: (old(self).taken - count) as usize, ..*old(self) }),
    {
        self.taken = self.taken - count;
    }

    /// Permits that are free.
    pub fn available(&self) -> (free: usize)
        requires
            self.wf(),
        ensures
            free == self.capacity - self.taken,
    {
        self.capacity - self.taken
    }
}

/// Permits are taken only if they are free, all or none, and giving them back
/// undoes the taking: held and free ones always make up the capacity.
pub proof fn law_permits_are_conserved(
    permits: &mut Permits,
    count: usize,
    taken: bool,
    returned: &mut Permits,
    before: usize,
    after: usize,
)
    requires
        old(permits).wf(),
        call_ensures(Permits::available, (&*old(permits),), before),
        call_ensures(Permits::take, (permits, count), taken),
        call_ensures(Permits::available, (&*final(permits),), after),
        *old(returned) == *final(permits),
        call_ensures(Permits::give_back, (returned, count), ()),
    ensures
        taken <==> count <= before,
        taken ==> after == before - count,
        !taken ==> after == before,
        taken ==> *final(returned) == *old(permits),
        after + final(permits).taken == old(permits).capacity,
        final(permits).capacity == old(permits).capacity,
{
}

/// All permits of a new budget are free.
pub proof fn law_new_permits_are_free(capacity: usize, permits: Permits)
    requires
        call_ensures(Permits::new, (capacity,), permits),
    ensures
        permits.taken == 0,
        permits.capacity == capacity,
{
}

} // verus!
