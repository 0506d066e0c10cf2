use vstd::prelude::*;

use crate::breaker::{trips, BreakerState, Decision, Phase};
use crate::config::BreakerConfig;
use crate::counter::{elapsed, Outcome};
use crate::registry::{after_decide, after_record, decision_of};

verus! {

/// The number of failures among `calls`, each a (time, outcome) pair.
pub open spec fn failures_in(calls: Seq<(u64, Outcome)>) -> int
    decreases calls.len(),
{
    if calls.len() == 0 {
        0
    } else {
        failures_in(calls.drop_last()) + if calls.last().1 == Outcome::Failure {
            1int
        } else {
            0int
        }
    }
}

/// One breaker after each of `calls` is checked at its time and, if let through,
/// has its outcome recorded, in turn.
pub open spec fn run_calls(s: BreakerState, cfg: BreakerConfig, calls: Seq<(u64, Outcome)>) -> BreakerState
    decreases calls.len(),
{
    if calls.len() == 0 {
        s
    } else {
        let p = run_calls(s, cfg, calls.drop_last());
        let (t, o) = calls.last();
        let (q, d) = p.decide_spec(cfg, t);
        if d == Decision::Rejected {
            q
        } else {
            q.record_spec(cfg, d, o, t)
        }
    }
}

/// A registry after each of `calls` to `key` is checked and, if let through, has
/// its outcome recorded, in turn.
pub open spec fn traffic(
    m: Map<Seq<char>, BreakerState>,
    cfg: BreakerConfig,
    key: Seq<char>,
    calls: Seq<(u64, Outcome)>,
) -> Map<Seq<char>, BreakerState>
    decreases calls.len(),
{
    if calls.len() == 0 {
        m
    } else {
        let p = traffic(m, cfg, key, calls.drop_last());
        let (t, o) = calls.last();
        let d = decision_of(p, cfg, key, t);
        let q = after_decide(p, cfg, key, t);
        if d == Decision::Rejected {
            q
        } else {
            after_record(q, cfg, key, d, o, t)
        }
    }
}

/// How many of the checks at `times`, made in turn, let their call through.
pub open spec fn admitted_count(s: BreakerState, cfg: BreakerConfig, times: Seq<u64>) -> int
    decreases times.len(),
{
    if times.len() == 0 {
        0
    } else {
        let (q, d) = s.decide_spec(cfg, times[0]);
        (if d == Decision::Rejected {
            0int
        } else {
            1int
        }) + admitted_count(q, cfg, times.drop_first())
    }
}

/// Calls that do not fill the tally of a closed breaker leave it closed, with
/// their successes and failures added to the tally.
proof fn lemma_partial_window(s: BreakerState, cfg: BreakerConfig, calls: Seq<(u64, Outcome)>)
    requires
        cfg.valid(),
        s.wf(cfg),
        s.phase == Phase::Closed,
        s.counter.total() + calls.len() < cfg.window_size,
    ensures
        run_calls(s, cfg, calls).wf(cfg),
        run_calls(s, cfg, calls).phase == Phase::Closed,
        run_calls(s, cfg, calls).counter.failure_count == s.counter.failure_count + failures_in(
            calls,
        ),
        run_calls(s, cfg, calls).counter.success_count == s.counter.success_count + calls.len()
            - failures_in(calls),
        0 <= failures_in(calls) <= calls.len(),
    decreases calls.len(),
{
    if calls.len() > 0 {
        lemma_partial_window(s, cfg, calls.drop_last());
    }
}

/// On a closed breaker, the calls that fill its tally window end it. Where the
/// failures of the whole window (those already tallied and those of the calls)
/// reach the threshold ratio, the breaker is open from the last call's time, so
/// that it refuses every call until the cool-down has passed.
pub proof fn lemma_trip(s: BreakerState, cfg: BreakerConfig, calls: Seq<(u64, Outcome)>)
    requires
        cfg.valid(),
        s.wf(cfg),
        s.phase == Phase::Closed,
        s.counter.total() + calls.len() == cfg.window_size,
        trips(
            s.counter.failure_count + failures_in(calls),
            cfg.window_size as int,
            cfg.trip_threshold_percent as int,
        ),
    ensures
        run_calls(s, cfg, calls).phase == Phase::Open,
        run_calls(s, cfg, calls).opened_at == Some(calls.last().0),
        forall|t: u64|
            elapsed(calls.last().0, t) < cfg.cooldown_ms ==> (#[trigger] run_calls(
                s,
                cfg,
                calls,
            ).decide_spec(cfg, t)).1 == Decision::Rejected,
{
    lemma_partial_window(s, cfg, calls.drop_last());
}

/// On a closed breaker, the calls that fill its tally window end it. Where the
/// failures of the whole window stay below the threshold ratio, the breaker is
/// still closed and its tally is reset.
pub proof fn lemma_no_trip(s: BreakerState, cfg: BreakerConfig, calls: Seq<(u64, Outcome)>)
    requires
        cfg.valid(),
        s.wf(cfg),
        s.phase == Phase::Closed,
        s.counter.total() + calls.len() == cfg.window_size,
        !trips(
            s.counter.failure_count + failures_in(calls),
            cfg.window_size as int,
            cfg.trip_threshold_percent as int,
        ),
    ensures
        run_calls(s, cfg, calls).phase == Phase::Closed,
        run_calls(s, cfg, calls).counter.success_count == 0,
        run_calls(s, cfg, calls).counter.failure_count == 0,
{
    lemma_partial_window(s, cfg, calls.drop_last());
}

/// An open breaker refuses every call before its cool-down has passed, and stays
/// open with its tally untouched.
pub proof fn lemma_fast_reject(s: BreakerState, cfg: BreakerConfig, now: u64)
    requires
        s.wf(cfg),
        s.phase == Phase::Open,
        elapsed(s.opened_at->Some_0, now) < cfg.cooldown_ms,
    ensures
        s.decide_spec(cfg, now).1 == Decision::Rejected,
        s.decide_spec(cfg, now).0.phase == Phase::Open,
        s.decide_spec(cfg, now).0.opened_at == s.opened_at,
        s.decide_spec(cfg, now).0.counter == s.counter,
{
}

proof fn lemma_trial_outstanding(h: BreakerState, cfg: BreakerConfig, t0: u64, times: Seq<u64>)
    requires
        h.phase == Phase::HalfOpen,
        h.trial_started == Some(t0),
        forall|i: int| 0 <= i < times.len() ==> elapsed(t0, #[trigger] times[i]) < cfg.trial_timeout_ms,
    ensures
        admitted_count(h, cfg, times) == 0,
    decreases times.len(),
{
    if times.len() > 0 {
        let rest = times.drop_first();
        assert forall|i: int| 0 <= i < rest.len() implies elapsed(t0, #[trigger] rest[i])
            < cfg.trial_timeout_ms by {
            assert(rest[i] == times[i + 1]);
        }
        lemma_trial_outstanding(h.decide_spec(cfg, times[0]).0, cfg, t0, rest);
    }
}

/// Once the cool-down of an open breaker has passed, of any run of checks that
/// starts then and ends before the trial times out, exactly one lets its call
/// through, as the trial: the first.
pub proof fn lemma_single_trial(s: BreakerState, cfg: BreakerConfig, times: Seq<u64>)
    requires
        s.wf(cfg),
        s.phase == Phase::Open,
        times.len() > 0,
        elapsed(s.opened_at->Some_0, times[0]) >= cfg.cooldown_ms,
        forall|i: int|
            0 <= i < times.len() ==> elapsed(times[0], #[trigger] times[i]) < cfg.trial_timeout_ms,
    ensures
        s.decide_spec(cfg, times[0]).1 == Decision::TrialAdmitted(times[0]),
        admitted_count(s, cfg, times) == 1,
{
    let rest = times.drop_first();
    assert forall|i: int| 0 <= i < rest.len() implies elapsed(times[0], #[trigger] rest[i])
        < cfg.trial_timeout_ms by {
        assert(rest[i] == times[i + 1]);
    }
    lemma_trial_outstanding(s.decide_spec(cfg, times[0]).0, cfg, times[0], rest);
}

/// Once its cool-down has passed an open breaker lets one trial through and goes
/// half-open. A successful trial closes it with an empty tally; a failed one opens
/// it again, with a cool-down that starts when the failure is recorded.
pub proof fn lemma_recovery(s: BreakerState, cfg: BreakerConfig, t1: u64, t2: u64)
    requires
        s.wf(cfg),
        s.phase == Phase::Open,
        elapsed(s.opened_at->Some_0, t1) >= cfg.cooldown_ms,
    ensures
        s.decide_spec(cfg, t1).1 == Decision::TrialAdmitted(t1),
        s.decide_spec(cfg, t1).0.phase == Phase::HalfOpen,
        ({
            let h = s.decide_spec(cfg, t1).0;
            let ok = h.record_spec(cfg, Decision::TrialAdmitted(t1), Outcome::Success, t2);
            &&& ok.phase == Phase::Closed
            &&& ok.opened_at is None
            &&& ok.counter.success_count == 0
            &&& ok.counter.failure_count == 0
        }),
        ({
            let h = s.decide_spec(cfg, t1).0;
            let bad = h.record_spec(cfg, Decision::TrialAdmitted(t1), Outcome::Failure, t2);
            &&& bad.phase == Phase::Open
            &&& bad.opened_at == Some(t2)
            &&& bad.counter.success_count == 0
            &&& bad.counter.failure_count == 0
        }),
{
}

/// While a trial is out, a check is let through exactly when the trial has been
/// out for the trial timeout; it then claims the released slot as a new trial and
/// the cool-down is not restarted. Any other check is refused and leaves the
/// breaker as it was but for its access time.
pub proof fn lemma_trial_timeout(s: BreakerState, cfg: BreakerConfig, now: u64)
    requires
        cfg.valid(),
        s.wf(cfg),
        s.phase == Phase::HalfOpen,
    ensures
        s.decide_spec(cfg, now).1 != Decision::Rejected <==> now >= s.trial_started->Some_0
            + cfg.trial_timeout_ms,
        s.decide_spec(cfg, now).1 == Decision::Rejected ==> s.decide_spec(cfg, now).0 == (
        BreakerState { last_access: now, ..s }),
        s.decide_spec(cfg, now).1 != Decision::Rejected ==> {
            &&& s.decide_spec(cfg, now).1 == Decision::TrialAdmitted(now)
            &&& s.decide_spec(cfg, now).0.phase == Phase::HalfOpen
            &&& s.decide_spec(cfg, now).0.trial_started == Some(now)
            &&& s.decide_spec(cfg, now).0.opened_at == s.opened_at
        },
{
}

/// The outcome of a trial other than the outstanding one (one whose slot was
/// released after it timed out) changes nothing but the access time.
pub proof fn lemma_stale_trial_ignored(
    s: BreakerState,
    cfg: BreakerConfig,
    claimed: u64,
    outcome: Outcome,
    now: u64,
)
    requires
        s.wf(cfg),
        s.trial_started != Some(claimed),
    ensures
        s.record_spec(cfg, Decision::TrialAdmitted(claimed), outcome, now) == (BreakerState {
            last_access: now,
            ..s
        }),
{
}

/// A refused call changes neither tally, and nothing that is recorded under a
/// refusal does either.
pub proof fn lemma_rejected_not_counted(
    s: BreakerState,
    cfg: BreakerConfig,
    now: u64,
    outcome: Outcome,
    later: u64,
)
    requires
        s.wf(cfg),
        s.decide_spec(cfg, now).1 == Decision::Rejected,
    ensures
        s.decide_spec(cfg, now).0.counter.success_count == s.counter.success_count,
        s.decide_spec(cfg, now).0.counter.failure_count == s.counter.failure_count,
        s.record_spec(cfg, Decision::Rejected, outcome, later).counter == s.counter,
{
}

/// Any amount of traffic to one destination leaves the breaker of every other
/// destination as it was, present or absent alike.
pub proof fn lemma_isolation(
    m: Map<Seq<char>, BreakerState>,
    cfg: BreakerConfig,
    a: Seq<char>,
    b: Seq<char>,
    calls: Seq<(u64, Outcome)>,
)
    requires
        a != b,
    ensures
        traffic(m, cfg, b, calls).contains_key(a) == m.contains_key(a),
        m.contains_key(a) ==> traffic(m, cfg, b, calls)[a] == m[a],
    decreases calls.len(),
{
    if calls.len() > 0 {
        lemma_isolation(m, cfg, a, b, calls.drop_last());
    }
}

} // verus!
