//! Delta-timestamp accounting over a wrapping 32-bit tick counter.
//!
//! The tracer does not put absolute times on the wire; each record carries
//! the ticks elapsed since the previous record.  This state remembers the
//! last sampled counter value.  The embedding is expected to sample the
//! hardware counter and call in under its interrupt-safe lock, so the
//! read-modify-write here stays a handful of instructions.

use vstd::prelude::*;

verus! {

/// The last-sampled raw clock value, plus whether any sample was taken yet.
#[derive(Debug, Clone, Copy)]
pub struct TimestampClock {
    /// The counter value seen by the most recent sample.
    pub last: u32,
    /// False until the first sample: the first delta is defined as zero,
    /// since no prior sample exists to measure from.
    pub primed: bool,
}

/// The delta a sample at counter value `now` yields: zero on the first
/// sample, otherwise the wrapping (modulo `2^32`) difference to the
/// previous sample.
pub open spec fn delta_spec(c: TimestampClock, now: u32) -> u32 {
    if !c.primed {
        0
    } else if now >= c.last {
        (now - c.last) as u32
    } else {
        (now - c.last + 0x1_0000_0000) as u32
    }
}

impl TimestampClock {
    /// A clock that has not sampled yet.
    pub fn new() -> (c: Self)
        ensures
            !c.primed,
    {
        TimestampClock { last: 0, primed: false }
    }

    /// Record the current counter value `now` and return the elapsed ticks
    /// since the previous sample: zero on the first call, then the wrapping
    /// difference, so a counter wraparound between samples still yields the
    /// true distance.
    pub fn sample_and_delta(&mut self, now: u32) -> (d: u32)
        ensures
            d == delta_spec(*old(self), now),
            final(self).last == now,
            final(self).primed,
    {
        let d = if self.primed {
            now.wrapping_sub(self.last)
        } else {
            0
        };
        self.last = now;
        self.primed = true;
        d
    }
}

} // verus!
