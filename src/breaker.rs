use vstd::prelude::*;

use crate::config::BreakerConfig;
use crate::counter::{elapsed, elapsed_ms, HealthCounter, Outcome};

verus! {

/// Where a destination's breaker stands.
#[derive(Clone, Copy, Debug, PartialEq, Eq, Structural)]
pub enum Phase {
    /// Calls are let through and their outcomes tallied.
    Closed,
    /// Calls are refused until the cool-down has passed.
    Open,
    /// One trial call is out; every other call is refused.
    HalfOpen,
}

/// The verdict on one call, given before it is dispatched.
#[derive(Clone, Copy, Debug, PartialEq, Eq, Structural)]
pub enum Decision {
    /// Let through while closed; its outcome feeds the tally.
    Admitted,
    /// Let through as the single trial that probes recovery; holds the time at
    /// which the trial claimed its slot, so that its outcome can be told apart
    /// from that of an earlier trial that timed out.
    TrialAdmitted(u64),
    /// Refused; the inner target is not called.
    Rejected,
}

/// The breaker of one destination.
#[derive(Clone, Copy, Debug, PartialEq, Eq, Structural)]
pub struct BreakerState {
    pub phase: Phase,
    pub counter: HealthCounter,
    /// When the breaker last opened; set exactly when it is not closed.
    pub opened_at: Option<u64>,
    /// When the outstanding trial claimed its slot; set exactly when half-open.
    pub trial_started: Option<u64>,
    /// Time of the last admission check or recorded outcome.
    pub last_access: u64,
}

/// Whether a full window of `failures` out of `total` calls opens the breaker:
/// the failure ratio reaches `threshold_percent`.
pub open spec fn trips(failures: int, total: int, threshold_percent: int) -> bool {
    failures * 100 >= threshold_percent * total
}

/// A fresh breaker is well-formed under every valid configuration.
pub proof fn lemma_fresh_wf(cfg: BreakerConfig, now: u64)
    requires
        cfg.valid(),
    ensures
        BreakerState::fresh(now).wf(cfg),
{
}

impl BreakerState {
    pub open spec fn wf(self, cfg: BreakerConfig) -> bool {
        &&& (self.opened_at is Some <==> self.phase != Phase::Closed)
        &&& (self.trial_started is Some <==> self.phase == Phase::HalfOpen)
        &&& self.counter.total() < cfg.window_size
        &&& (self.phase != Phase::Closed ==> self.counter.total() == 0)
    }

    /// A closed breaker with empty tallies.
    pub open spec fn fresh(now: u64) -> BreakerState {
        BreakerState {
            phase: Phase::Closed,
            counter: HealthCounter::fresh(now),
            opened_at: None,
            trial_started: None,
            last_access: now,
        }
    }

    /// An open breaker whose cool-down starts at `now`.
    pub open spec fn opened(now: u64) -> BreakerState {
        BreakerState {
            phase: Phase::Open,
            counter: HealthCounter::fresh(now),
            opened_at: Some(now),
            trial_started: None,
            last_access: now,
        }
    }

    /// The state after an admission check at `now`, and its verdict.
    pub open spec fn decide_spec(self, cfg: BreakerConfig, now: u64) -> (BreakerState, Decision) {
        match self.phase {
            Phase::Closed => (BreakerState { last_access: now, ..self }, Decision::Admitted),
            Phase::Open => {
                if elapsed(self.opened_at->Some_0, now) >= cfg.cooldown_ms {
                    (
                        BreakerState {
                            phase: Phase::HalfOpen,
                            trial_started: Some(now),
                            last_access: now,
                            ..self
                        },
                        Decision::TrialAdmitted(now),
                    )
                } else {
                    (BreakerState { last_access: now, ..self }, Decision::Rejected)
                }
            },
            Phase::HalfOpen => {
                if elapsed(self.trial_started->Some_0, now) >= cfg.trial_timeout_ms {
                    (
                        BreakerState { trial_started: Some(now), last_access: now, ..self },
                        Decision::TrialAdmitted(now),
                    )
                } else {
                    (BreakerState { last_access: now, ..self }, Decision::Rejected)
                }
            },
        }
    }

    /// The state after the outcome of a call that got `decision` is recorded at `now`.
    /// An outcome that no longer matches the phase or the outstanding trial (a trial
    /// whose slot was released after it timed out, a tallied call that finished
    /// after the breaker opened) changes nothing but the access time.
    pub open spec fn record_spec(
        self,
        cfg: BreakerConfig,
        decision: Decision,
        outcome: Outcome,
        now: u64,
    ) -> BreakerState {
        if decision == Decision::Admitted && self.phase == Phase::Closed {
            let c = self.counter.tallied(outcome);
            if c.total() >= cfg.window_size {
                if trips(c.failure_count as int, c.total(), cfg.trip_threshold_percent as int) {
                    BreakerState::opened(now)
                } else {
                    BreakerState::fresh(now)
                }
            } else {
                BreakerState { counter: c, last_access: now, ..self }
            }
        } else if decision is TrialAdmitted && self.phase == Phase::HalfOpen
            && self.trial_started == Some(decision->TrialAdmitted_0) {
            match outcome {
                Outcome::Success => BreakerState::fresh(now),
                Outcome::Failure => BreakerState::opened(now),
            }
        } else {
            BreakerState { last_access: now, ..self }
        }
    }

    pub fn new(now: u64) -> (r: BreakerState)
        ensures
            r == BreakerState::fresh(now),
    {
        BreakerState {
            phase: Phase::Closed,
            counter: HealthCounter::new(now),
            opened_at: None,
            trial_started: None,
            last_access: now,
        }
    }

    fn new_opened(now: u64) -> (r: BreakerState)
        ensures
            r == BreakerState::opened(now),
    {
        BreakerState {
            phase: Phase::Open,
            counter: HealthCounter::new(now),
            opened_at: Some(now),
            trial_started: None,
            last_access: now,
        }
    }

    /// Decides whether a call at `now` may go through, moving an open breaker whose
    /// cool-down has passed to half-open and claiming its single trial slot. A slot
    /// whose trial has been out for the trial timeout is released and claimed anew.
    pub fn decide(&mut self, cfg: &BreakerConfig, now: u64) -> (d: Decision)
        requires
            cfg.valid(),
            old(self).wf(*cfg),
        ensures
            (*final(self), d) == old(self).decide_spec(*cfg, now),
            final(self).wf(*cfg),
    {
        match self.phase {
            Phase::Closed => {
                self.last_access = now;
                Decision::Admitted
            },
            Phase::Open => {
                let opened_at = self.opened_at.unwrap();
                self.last_access = now;
                if elapsed_ms(opened_at, now) >= cfg.cooldown_ms {
                    self.phase = Phase::HalfOpen;
                    self.trial_started = Some(now);
                    Decision::TrialAdmitted(now)
                } else {
                    Decision::Rejected
                }
            },
            Phase::HalfOpen => {
                let started = self.trial_started.unwrap();
                self.last_access = now;
                if elapsed_ms(started, now) >= cfg.trial_timeout_ms {
                    self.trial_started = Some(now);
                    Decision::TrialAdmitted(now)
                } else {
                    Decision::Rejected
                }
            },
        }
    }

    /// Records the outcome of a call that got `decision`, opening or closing the
    /// breaker where the tally or the trial calls for it.
    pub fn record(&mut self, cfg: &BreakerConfig, decision: Decision, outcome: Outcome, now: u64)
        requires
            cfg.valid(),
            old(self).wf(*cfg),
        ensures
            *final(self) == old(self).record_spec(*cfg, decision, outcome, now),
            final(self).wf(*cfg),
    {
        let current_trial = match (decision, self.trial_started) {
            (Decision::TrialAdmitted(claimed), Some(started)) => claimed == started
                && self.phase == Phase::HalfOpen,
            _ => false,
        };
        if decision == Decision::Admitted && self.phase == Phase::Closed {
            self.counter.record(outcome);
            let total: u32 = self.counter.success_count + self.counter.failure_count;
            if total >= cfg.window_size {
                let failures: u64 = self.counter.failure_count as u64;
                assert((cfg.trip_threshold_percent as u64) * (total as u64) <= 255 * 0xffff_ffffu64)
                    by (nonlinear_arith)
                    requires
                        cfg.trip_threshold_percent <= 255,
                        total <= 0xffff_ffffu32,
                ;
                if failures * 100 >= (cfg.trip_threshold_percent as u64) * (total as u64) {
                    *self = BreakerState::new_opened(now);
                } else {
                    *self = BreakerState::new(now);
                }
            } else {
                self.last_access = now;
            }
        } else if current_trial {
            match outcome {
                Outcome::Success => *self = BreakerState::new(now),
                Outcome::Failure => *self = BreakerState::new_opened(now),
            }
        } else {
            self.last_access = now;
        }
    }
}

} // verus!
