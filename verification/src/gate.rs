//! The flow-control gate: a counter of permits that bounds how many commands
//! may be in flight before the peer has acknowledged one.
//!
//! A gate never blocks by itself. [`Gate::try_acquire`] says whether a permit
//! was there; a caller that gets `false` waits for a release and asks again.

use vstd::prelude::*;

verus! {

/// The state of a gate as a pair of numbers.
pub struct GateModel {
    /// Permits that can be acquired now.
    pub permits: nat,
    /// The number of permits that it was made with.
    pub capacity: nat,
}

impl GateModel {
    /// A gate with all of its `capacity` permits available.
    pub open spec fn new(capacity: nat) -> GateModel {
        GateModel { permits: capacity, capacity }
    }

    /// Whether an acquire can go through; it has to wait while this is false.
    pub open spec fn can_acquire(self) -> bool {
        self.permits > 0
    }

    /// This gate after one permit was taken.
    pub open spec fn acquire(self) -> GateModel
        recommends
            self.can_acquire(),
    {
        GateModel { permits: (self.permits - 1) as nat, capacity: self.capacity }
    }

    /// This gate after one permit was given back. Nothing clamps the count at
    /// the capacity: more permits than that show a release too many.
    pub open spec fn release(self) -> GateModel {
        GateModel { permits: self.permits + 1, capacity: self.capacity }
    }
}

/// A counting gate.
#[derive(Debug)]
pub struct Gate {
    permits: usize,
    capacity: usize,
}

impl View for Gate {
    type V = GateModel;

    closed spec fn view(&self) -> GateModel {
        GateModel { permits: self.permits as nat, capacity: self.capacity as nat }
    }
}

impl Gate {
    /// A gate that lets `capacity` commands through before it needs a
    /// release.
    pub fn new(capacity: usize) -> (gate: Gate)
        ensures
            gate@ == GateModel::new(capacity as nat),
    {
        Gate { permits: capacity, capacity }
    }

    /// Take one permit if there is one.
    ///
    /// Returns whether a permit was taken. If none was there nothing
    /// changes, and the caller has to wait for a release.
    pub fn try_acquire(&mut self) -> (granted: bool)
        ensures
            granted == old(self)@.can_acquire(),
            granted ==> final(self)@ == old(self)@.acquire(),
            !granted ==> final(self)@ == old(self)@,
    {
        if self.permits > 0 {
            self.permits = self.permits - 1;
            true
        } else {
            false
        }
    }

    /// Give one permit back; after that an acquire goes through.
    ///
    /// The count of permits is a machine integer, so a gate that already
    /// holds `usize::MAX` of them cannot take another.
    pub fn release(&mut self)
        requires
            old(self)@.permits < usize::MAX,
        ensures
            final(self)@ == old(self)@.release(),
            final(self)@.can_acquire(),
    {
        self.permits = self.permits + 1;
    }

    /// Permits that can be acquired now.
    pub fn available(&self) -> (permits: usize)
        ensures
            permits == self@.permits,
    {
        self.permits
    }

    /// The number of permits that this gate was made with.
    pub fn capacity(&self) -> (capacity: usize)
        ensures
            capacity == self@.capacity,
    {
        self.capacity
    }
}

} // verus!
