use vstd::prelude::*;

verus! {

/// The outcome of one call that was let through.
#[derive(Clone, Copy, Debug, PartialEq, Eq, Structural)]
pub enum Outcome {
    Success,
    Failure,
}

/// Success and failure tallies of one destination over the current window.
#[derive(Clone, Copy, Debug, PartialEq, Eq, Structural)]
pub struct HealthCounter {
    pub success_count: u32,
    pub failure_count: u32,
    /// Time (in milliseconds) at which the current window began.
    pub window_start: u64,
}

/// Milliseconds from `from` to `now`; zero when `now` is earlier.
pub open spec fn elapsed(from: u64, now: u64) -> int {
    if now >= from {
        now - from
    } else {
        0
    }
}

/// Executable form of `elapsed`.
pub fn elapsed_ms(from: u64, now: u64) -> (r: u64)
    ensures
        r == elapsed(from, now),
{
    if now >= from {
        now - from
    } else {
        0
    }
}

impl HealthCounter {
    pub open spec fn total(self) -> int {
        self.success_count + self.failure_count
    }

    /// The counter after one more outcome.
    pub open spec fn tallied(self, outcome: Outcome) -> HealthCounter {
        match outcome {
            Outcome::Success => HealthCounter { success_count: (self.success_count + 1) as u32, ..self },
            Outcome::Failure => HealthCounter { failure_count: (self.failure_count + 1) as u32, ..self },
        }
    }

    /// A counter with both tallies at zero and a window that starts at `now`.
    pub open spec fn fresh(now: u64) -> HealthCounter {
        HealthCounter { success_count: 0, failure_count: 0, window_start: now }
    }

    pub fn new(now: u64) -> (r: HealthCounter)
        ensures
            r == HealthCounter::fresh(now),
    {
        HealthCounter { success_count: 0, failure_count: 0, window_start: now }
    }

    /// Counts one outcome.
    pub fn record(&mut self, outcome: Outcome)
        requires
            old(self).total() < u32::MAX,
        ensures
            *final(self) == old(self).tallied(outcome),
    {
        match outcome {
            Outcome::Success => self.success_count = self.success_count + 1,
            Outcome::Failure => self.failure_count = self.failure_count + 1,
        }
    }

    /// Successes, failures, and the age of the window at `now`.
    pub fn snapshot(&self, now: u64) -> (r: (u32, u32, u64))
        ensures
            r.0 == self.success_count,
            r.1 == self.failure_count,
            r.2 == elapsed(self.window_start, now),
    {
        (self.success_count, self.failure_count, elapsed_ms(self.window_start, now))
    }

    /// Zeroes both tallies and restarts the window at `now`.
    pub fn reset(&mut self, now: u64)
        ensures
            *final(self) == HealthCounter::fresh(now),
    {
        self.success_count = 0;
        self.failure_count = 0;
        self.window_start = now;
    }
}

} // verus!
