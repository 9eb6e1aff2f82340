//! Process-wide Lamport clock.
//!
//! The clock is a single 64-bit counter. `tick` hands out the current value
//! and advances by one; `observe` raises the counter above a timestamp seen
//! on a remote operation, so that later local ticks dominate it.

use vstd::prelude::*;

verus! {

/// Monotonic logical clock backing the positions of emitted operations.
pub struct LamportClock {
    counter: u64,
}

impl LamportClock {
    /// Spec view of the counter.
    pub closed spec fn value(&self) -> u64 {
        self.counter
    }

    pub fn new() -> (r: Self)
        ensures
            r.value() == 0,
    {
        LamportClock { counter: 0 }
    }

    /// Returns the current value and advances the counter by one.
    pub fn tick(&mut self) -> (r: u64)
        requires
            old(self).value() < u64::MAX,
        ensures
            r == old(self).value(),
            final(self).value() == old(self).value() + 1,
    {
        let r = self.counter;
        self.counter = self.counter + 1;
        r
    }

    /// Raises the counter to `max(current, t) + 1`.
    pub fn observe(&mut self, t: u64) -> (r: u64)
        requires
            old(self).value() < u64::MAX,
            t < u64::MAX,
        ensures
            final(self).value() == if t >= old(self).value() {
                t + 1
            } else {
                old(self).value() + 1
            },
            r == final(self).value(),
            final(self).value() > t,
            final(self).value() > old(self).value(),
    {
        let base = if t >= self.counter {
            t
        } else {
            self.counter
        };
        self.counter = base + 1;
        self.counter
    }
}

} // verus!
