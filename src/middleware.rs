use vstd::prelude::*;

use crate::breaker::Decision;
use crate::counter::Outcome;
use crate::registry::{after_decide, after_record, decision_of, BreakerRegistry};

verus! {

/// The key under which calls without a usable host are tracked.
pub open spec fn fallback_key() -> Seq<char> {
    "unknown-destination"@
}

/// The destination key of a call whose host field is `host`.
pub open spec fn key_of(host: Option<Seq<char>>) -> Seq<char> {
    match host {
        Some(h) => if h.len() > 0 {
            h
        } else {
            fallback_key()
        },
        None => fallback_key(),
    }
}

/// The destination key of a call: its host, or the fallback key when the host
/// is missing or empty.
pub fn destination_key(host: Option<&str>) -> (r: String)
    ensures
        r@ == key_of(
            match host {
                Some(h) => Some(h@),
                None => None,
            },
        ),
{
    match host {
        Some(h) => {
            if !h.is_empty() {
                h.to_owned()
            } else {
                fallback()
            }
        },
        None => fallback(),
    }
}

fn fallback() -> (r: String)
    ensures
        r@ == fallback_key(),
{
    let r = "unknown-destination".to_owned();
    proof {
        reveal_strlit("unknown-destination");
    }
    r
}

/// How a finished call counts: `None` stands for an error from the inner target
/// (or a call dropped before it finished); a response with a server-error status
/// counts as a failure too.
pub open spec fn outcome_of(status: Option<u16>) -> Outcome {
    match status {
        Some(code) => if code >= 500 {
            Outcome::Failure
        } else {
            Outcome::Success
        },
        None => Outcome::Failure,
    }
}

pub fn classify(status: Option<u16>) -> (r: Outcome)
    ensures
        r == outcome_of(status),
{
    match status {
        Some(code) => if code >= 500 {
            Outcome::Failure
        } else {
            Outcome::Success
        },
        None => Outcome::Failure,
    }
}

/// The failure handed back for a call that the breaker refused; the inner target
/// was not called.
#[derive(Debug)]
pub struct CircuitBreakerOpenError {
    pub destination: String,
}

impl CircuitBreakerOpenError {
    pub fn destination(&self) -> (r: &String)
        ensures
            r == &self.destination,
    {
        &self.destination
    }
}

/// The admission step of a call to `key` at `now`. A refused call gets an error
/// that names its destination; an admitted one gets the decision that its outcome
/// is later recorded under.
pub fn begin_call(registry: &mut BreakerRegistry, key: &String, now: u64) -> (r: Result<
    Decision,
    CircuitBreakerOpenError,
>)
    requires
        old(registry).wf(),
    ensures
        final(registry).wf(),
        final(registry).cfg() == old(registry).cfg(),
        final(registry)@ == after_decide(old(registry)@, old(registry).cfg(), key@, now),
        r is Err <==> decision_of(old(registry)@, old(registry).cfg(), key@, now)
            == Decision::Rejected,
        r matches Err(e) ==> e.destination@ == key@,
        r matches Ok(d) ==> d == decision_of(old(registry)@, old(registry).cfg(), key@, now),
{
    let d = registry.decide(key, now);
    match d {
        Decision::Rejected => Err(CircuitBreakerOpenError { destination: key.clone() }),
        _ => Ok(d),
    }
}

/// The recording step of an admitted call to `key`, with the status of its
/// response, or `None` where the inner target failed or the call was dropped.
pub fn finish_call(
    registry: &mut BreakerRegistry,
    key: &String,
    decision: Decision,
    status: Option<u16>,
    now: u64,
)
    requires
        old(registry).wf(),
    ensures
        final(registry).wf(),
        final(registry).cfg() == old(registry).cfg(),
        final(registry)@ == after_record(
            old(registry)@,
            old(registry).cfg(),
            key@,
            decision,
            outcome_of(status),
            now,
        ),
{
    let outcome = classify(status);
    registry.record(key, decision, outcome, now);
}

} // verus!
