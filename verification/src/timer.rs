//! Timing one part of the work.

use vstd::prelude::*;

verus! {

/// Measures how long a named part of the work takes. The clock is read by
/// whoever holds the timer: once when the part starts and once when it ends,
/// as a count of nanoseconds that never runs backwards.
#[derive(Clone, Copy, Debug)]
pub struct Timer {
    start: u64,
    title: &'static str,
}

/// The time from `start` to `now`; zero if the clock was read in the wrong
/// order.
pub open spec fn elapsed_between(start: u64, now: u64) -> u64 {
    if now >= start {
        (now - start) as u64
    } else {
        0
    }
}

impl Timer {
    /// When the part started.
    pub closed spec fn started(&self) -> u64 {
        self.start
    }

    /// What the part is called.
    pub closed spec fn named(&self) -> &'static str {
        self.title
    }

    /// Starts timing the part called `title` at the time `now`.
    pub fn new(title: &'static str, now: u64) -> (timer: Timer)
        ensures
            timer.started() == now,
            timer.named() == title,
    {
        Timer { start: now, title }
    }

    /// What the part is called.
    pub fn title(&self) -> (title: &'static str)
        ensures
            title == self.named(),
    {
        self.title
    }

    /// How long the part has taken at the time `now`.
    pub fn elapsed(&self, now: u64) -> (took: u64)
        ensures
            took == elapsed_between(self.started(), now),
    {
        if now >= self.start {
            now - self.start
        } else {
            0
        }
    }
}

} // verus!
