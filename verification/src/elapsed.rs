//! Monotonic stopwatch over caller-supplied millisecond timestamps.
//!
//! The caller reads its clock and passes the current time in milliseconds;
//! the stopwatch only remembers the time of its last update and reports how
//! much has passed since.

use vstd::prelude::*;

verus! {

/// Stopwatch remembering the millisecond timestamp of its last update.
pub struct Elapsed {
    last: u64,
}

impl View for Elapsed {
    type V = u64;

    /// The timestamp of the last update, in milliseconds.
    closed spec fn view(&self) -> u64 {
        self.last
    }
}

impl Elapsed {
    /// A stopwatch updated at `now_ms`.
    pub fn new(now_ms: u64) -> (e: Elapsed)
        ensures
            e@ == now_ms,
    {
        Elapsed { last: now_ms }
    }

    /// Milliseconds passed since the last update; zero if the supplied
    /// clock value runs behind the last update.
    pub fn elapsed(&self, now_ms: u64) -> (d: u64)
        ensures
            d == if now_ms >= self@ {
                now_ms - self@
            } else {
                0
            },
    {
        if now_ms >= self.last {
            now_ms - self.last
        } else {
            0
        }
    }

    /// Restart the stopwatch at `now_ms`.
    pub fn update(&mut self, now_ms: u64)
        ensures
            final(self)@ == now_ms,
    {
        self.last = now_ms;
    }
}

} // verus!
