//! The event pump's bounded queue and its backpressure policy.
//!
//! Incoming filesystem notifications pass through a queue bounded at
//! `QUEUE_CAPACITY`. When the queue is full the incoming event is dropped
//! and a counter advanced; a warning fires at most once per cycle when
//! occupancy crosses `BACKLOG_WARN_THRESHOLD`, and the warning rearms only
//! when occupancy falls back below half that threshold.

use vstd::prelude::*;

verus! {

/// Most events the queue will hold.
pub const QUEUE_CAPACITY: usize = 10000;

/// Occupancy at which the overload warning fires.
pub const BACKLOG_WARN_THRESHOLD: usize = 8000;

/// Bounded FIFO with a drop counter and a rearming overload warning.
pub struct EventQueue<T> {
    items: Vec<T>,
    dropped: u64,
    warn_armed: bool,
}

impl<T> EventQueue<T> {
    /// Events waiting.
    pub closed spec fn backlog(&self) -> Seq<T> {
        self.items@
    }

    /// Events dropped so far for want of room.
    pub closed spec fn dropped_count(&self) -> u64 {
        self.dropped
    }

    /// Whether the next threshold crossing will warn.
    pub closed spec fn warning_armed(&self) -> bool {
        self.warn_armed
    }

    /// The queue never exceeds its capacity.
    pub open spec fn wf(&self) -> bool {
        self.backlog().len() <= QUEUE_CAPACITY
    }

    pub fn new() -> (r: Self)
        ensures
            r.wf(),
            r.backlog() == Seq::<T>::empty(),
            r.dropped_count() == 0,
            r.warning_armed(),
    {
        EventQueue { items: Vec::new(), dropped: 0, warn_armed: true }
    }

    pub fn len(&self) -> (r: usize)
        ensures
            r == self.backlog().len(),
    {
        self.items.len()
    }

    pub fn dropped(&self) -> (r: u64)
        ensures
            r == self.dropped_count(),
    {
        self.dropped
    }

    /// Accepts `ev` when there is room, drops it otherwise. The second
    /// result is true exactly when this call crosses the warn threshold
    /// while the warning is armed; the warning then disarms until
    /// occupancy falls below half the threshold again.
    pub fn offer(&mut self, ev: T) -> (r: (bool, bool))
        requires
            old(self).wf(),
        ensures
            final(self).wf(),
            r.0 == (old(self).backlog().len() < QUEUE_CAPACITY),
            r.0 ==> final(self).backlog() == old(self).backlog().push(ev)
                && final(self).dropped_count() == old(self).dropped_count(),
            !r.0 ==> final(self).backlog() == old(self).backlog() && final(self).dropped_count()
                as int == if old(self).dropped_count() < u64::MAX {
                old(self).dropped_count() + 1
            } else {
                old(self).dropped_count() as int
            },
            r.1 == (old(self).warning_armed() && final(self).backlog().len()
                >= BACKLOG_WARN_THRESHOLD),
            final(self).warning_armed() == (old(self).warning_armed() && !r.1),
    {
        let accepted: bool;
        if self.items.len() < QUEUE_CAPACITY {
            self.items.push(ev);
            accepted = true;
        } else {
            if self.dropped < u64::MAX {
                self.dropped = self.dropped + 1;
            }
            accepted = false;
        }
        let warn = self.warn_armed && self.items.len() >= BACKLOG_WARN_THRESHOLD;
        if warn {
            self.warn_armed = false;
        }
        (accepted, warn)
    }

    /// Hands out the oldest event. Once occupancy falls below half the
    /// warn threshold, the warning rearms.
    pub fn take_next(&mut self) -> (r: Option<T>)
        requires
            old(self).wf(),
        ensures
            final(self).wf(),
            final(self).dropped_count() == old(self).dropped_count(),
            match r {
                Some(ev) => {
                    &&& old(self).backlog().len() > 0
                    &&& ev == old(self).backlog()[0]
                    &&& final(self).backlog() == old(self).backlog().drop_first()
                },
                None => {
                    &&& old(self).backlog().len() == 0
                    &&& final(self).backlog() == old(self).backlog()
                },
            },
            final(self).warning_armed() == (old(self).warning_armed()
                || final(self).backlog().len() < BACKLOG_WARN_THRESHOLD / 2),
    {
        let r: Option<T>;
        if self.items.len() > 0 {
            let ev = self.items.remove(0);
            proof {
                assert(self.items@ =~= old(self).items@.drop_first());
            }
            r = Some(ev);
        } else {
            r = None;
        }
        if self.items.len() < BACKLOG_WARN_THRESHOLD / 2 {
            self.warn_armed = true;
        }
        r
    }
}

} // verus!
