//! The timer of one polling domain: ticks run one at a time, and the next one is
//! armed only when the current one has finished.

use vstd::prelude::*;

verus! {

/// When the next tick of a domain is due, in seconds, and whether one is running.
pub struct TickSchedule {
    pub next_due: u64,
    pub in_flight: bool,
}

pub open spec fn saturating_sum(a: u64, b: u64) -> u64 {
    if a + b > u64::MAX {
        u64::MAX
    } else {
        (a + b) as u64
    }
}

impl TickSchedule {
    /// A schedule whose first tick is due at `now`.
    pub fn new(now: u64) -> (r: Self)
        ensures
            r.next_due == now,
            !r.in_flight,
    {
        TickSchedule { next_due: now, in_flight: false }
    }

    /// Starts a tick if one is due at `now` and none is running.
    pub fn try_start(&mut self, now: u64) -> (started: bool)
        ensures
            started == (!old(self).in_flight && now >= old(self).next_due),
            final(self).in_flight == (old(self).in_flight || started),
            final(self).next_due == old(self).next_due,
    {
        if self.in_flight || now < self.next_due {
            false
        } else {
            self.in_flight = true;
            true
        }
    }

    /// Ends the running tick at `now`; the next one is due `delay` seconds later.
    pub fn finish(&mut self, now: u64, delay: u64)
        requires
            old(self).in_flight,
        ensures
            !final(self).in_flight,
            final(self).next_due == saturating_sum(now, delay),
    {
        self.in_flight = false;
        self.next_due = if delay > u64::MAX - now {
            u64::MAX
        } else {
            now + delay
        };
    }

    /// Seconds from `now` until the next tick is due; zero when it already is.
    pub fn wait(&self, now: u64) -> (r: u64)
        ensures
            now >= self.next_due ==> r == 0,
            now < self.next_due ==> r == self.next_due - now,
    {
        if now >= self.next_due {
            0
        } else {
            self.next_due - now
        }
    }
}

} // verus!
