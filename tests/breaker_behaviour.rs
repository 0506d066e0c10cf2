use circuit_breaker::breaker::{BreakerState, Decision, Phase};
use circuit_breaker::config::{BreakerConfig, ConfigError};
use circuit_breaker::counter::{HealthCounter, Outcome};
use circuit_breaker::middleware::{begin_call, classify, destination_key, finish_call};
use circuit_breaker::registry::{sweep_due, BreakerRegistry};

const SEC: u64 = 1000;

fn example_config() -> BreakerConfig {
    BreakerConfig::new(10, 30, 30 * SEC, 600 * SEC, 5 * SEC).unwrap()
}

fn call(reg: &mut BreakerRegistry, key: &str, status: u16, now: u64) -> Result<Decision, String> {
    let key = key.to_string();
    match begin_call(reg, &key, now) {
        Ok(d) => {
            finish_call(reg, &key, d, Some(status), now);
            Ok(d)
        }
        Err(e) => Err(e.destination().clone()),
    }
}

#[test]
fn config_rejects_zero_window() {
    assert_eq!(BreakerConfig::new(0, 30, 1000, 1000, 1000), Err(ConfigError::ZeroWindowSize));
}

#[test]
fn config_rejects_zero_cooldown() {
    assert_eq!(BreakerConfig::new(10, 30, 0, 1000, 1000), Err(ConfigError::ZeroCooldown));
}

#[test]
fn config_rejects_zero_idle_eviction() {
    assert_eq!(BreakerConfig::new(10, 30, 1000, 0, 1000), Err(ConfigError::ZeroIdleEviction));
}

#[test]
fn config_rejects_zero_trial_timeout() {
    assert_eq!(BreakerConfig::new(10, 30, 1000, 1000, 0), Err(ConfigError::ZeroTrialTimeout));
}

#[test]
fn sweep_due_after_idle_period() {
    assert!(!sweep_due(1000, 1999, 1000));
    assert!(sweep_due(1000, 2000, 1000));
    assert!(!sweep_due(5000, 100, 1000));
}

#[test]
fn same_instant_checks_admit_one_trial() {
    let cfg = BreakerConfig::new(1, 100, 100, 1000, 1).unwrap();
    let mut s = BreakerState::new(0);
    s.record(&cfg, Decision::Admitted, Outcome::Failure, 0);
    assert_eq!(s.phase, Phase::Open);
    assert_eq!(s.decide(&cfg, 100), Decision::TrialAdmitted(100));
    assert_eq!(s.decide(&cfg, 100), Decision::Rejected);
    assert_eq!(s.decide(&cfg, 100), Decision::Rejected);
    // A clock reading earlier than the claim does not release the slot.
    assert_eq!(s.decide(&cfg, 50), Decision::Rejected);
    assert_eq!(s.decide(&cfg, 101), Decision::TrialAdmitted(101));
}

#[test]
fn config_accepts_valid_values() {
    let cfg = BreakerConfig::new(10, 30, 30000, 600000, 5000).unwrap();
    assert_eq!(cfg.window_size, 10);
    assert_eq!(cfg.trip_threshold_percent, 30);
    assert_eq!(cfg.cooldown_ms, 30000);
    assert_eq!(cfg.idle_eviction_ms, 600000);
    assert_eq!(cfg.trial_timeout_ms, 5000);
}

#[test]
fn counter_records_and_resets() {
    let mut c = HealthCounter::new(100);
    c.record(Outcome::Success);
    c.record(Outcome::Failure);
    c.record(Outcome::Failure);
    assert_eq!(c.snapshot(350), (1, 2, 250));
    assert_eq!(c.snapshot(50), (1, 2, 0));
    c.reset(400);
    assert_eq!(c.snapshot(400), (0, 0, 0));
}

#[test]
fn classify_statuses() {
    assert_eq!(classify(Some(200)), Outcome::Success);
    assert_eq!(classify(Some(499)), Outcome::Success);
    assert_eq!(classify(Some(500)), Outcome::Failure);
    assert_eq!(classify(Some(503)), Outcome::Failure);
    assert_eq!(classify(None), Outcome::Failure);
}

#[test]
fn destination_key_uses_host_or_fallback() {
    assert_eq!(destination_key(Some("users:8080")), "users:8080");
    assert_eq!(destination_key(Some("")), "unknown-destination");
    assert_eq!(destination_key(None), "unknown-destination");
}

// 7 successes and 3 failures open the breaker on the tenth call; the eleventh is
// refused, and another destination is served in between.
#[test]
fn example_trip_at_thirty_percent() {
    let mut reg = BreakerRegistry::new(example_config());
    let a = "svc-a".to_string();
    for i in 0..7u64 {
        assert_eq!(call(&mut reg, "svc-a", 200, i), Ok(Decision::Admitted));
    }
    for i in 7..9u64 {
        assert_eq!(call(&mut reg, "svc-a", 500, i), Ok(Decision::Admitted));
    }
    assert_eq!(call(&mut reg, "svc-b", 200, 9), Ok(Decision::Admitted));
    assert_eq!(reg.state_of(&a).unwrap().phase, Phase::Closed);
    assert_eq!(call(&mut reg, "svc-a", 500, 10), Ok(Decision::Admitted));
    assert_eq!(reg.state_of(&a).unwrap().phase, Phase::Open);
    assert_eq!(call(&mut reg, "svc-a", 200, 11), Err("svc-a".to_string()));
    assert_eq!(call(&mut reg, "svc-b", 200, 12), Ok(Decision::Admitted));
    assert_eq!(reg.state_of(&"svc-b".to_string()).unwrap().phase, Phase::Closed);
}

// After 31 s open, the next call is the trial; once it succeeds the breaker is
// closed with empty tallies.
#[test]
fn example_recovery_after_cooldown() {
    let mut reg = BreakerRegistry::new(example_config());
    let a = "svc-a".to_string();
    for i in 0..10u64 {
        assert!(call(&mut reg, "svc-a", 500, i).is_ok());
    }
    let opened = reg.state_of(&a).unwrap();
    assert_eq!(opened.phase, Phase::Open);
    assert_eq!(opened.opened_at, Some(9));
    let trial_time = 9 + 31 * SEC;
    assert_eq!(call(&mut reg, "svc-a", 200, trial_time), Ok(Decision::TrialAdmitted(trial_time)));
    let closed = reg.state_of(&a).unwrap();
    assert_eq!(closed.phase, Phase::Closed);
    assert_eq!((closed.counter.success_count, closed.counter.failure_count), (0, 0));
    assert_eq!(closed.opened_at, None);
    assert_eq!(call(&mut reg, "svc-a", 200, trial_time + 1), Ok(Decision::Admitted));
}

#[test]
fn below_threshold_stays_closed_and_resets() {
    let mut reg = BreakerRegistry::new(example_config());
    let a = "svc-a".to_string();
    for i in 0..8u64 {
        assert!(call(&mut reg, "svc-a", 200, i).is_ok());
    }
    assert!(call(&mut reg, "svc-a", 502, 8).is_ok());
    assert!(call(&mut reg, "svc-a", 502, 9).is_ok());
    let s = reg.state_of(&a).unwrap();
    assert_eq!(s.phase, Phase::Closed);
    assert_eq!((s.counter.success_count, s.counter.failure_count), (0, 0));
    assert_eq!(s.counter.window_start, 9);
}

#[test]
fn open_rejects_until_cooldown() {
    let mut reg = BreakerRegistry::new(example_config());
    let a = "svc-a".to_string();
    for i in 0..10u64 {
        assert!(call(&mut reg, "svc-a", 500, i).is_ok());
    }
    for t in [10, 1000, 9 + 30 * SEC - 1] {
        assert_eq!(call(&mut reg, "svc-a", 200, t), Err("svc-a".to_string()));
        let s = reg.state_of(&a).unwrap();
        assert_eq!(s.phase, Phase::Open);
        assert_eq!((s.counter.success_count, s.counter.failure_count), (0, 0));
    }
}

#[test]
fn single_trial_among_many_checks() {
    let mut reg = BreakerRegistry::new(example_config());
    let a = "svc-a".to_string();
    for i in 0..10u64 {
        assert!(call(&mut reg, "svc-a", 500, i).is_ok());
    }
    let t = 9 + 30 * SEC;
    let mut admitted = 0;
    let mut trial = None;
    for k in 0..8u64 {
        match begin_call(&mut reg, &a, t + k) {
            Ok(d) => {
                admitted += 1;
                trial = Some(d);
            }
            Err(e) => assert_eq!(e.destination(), &a),
        }
    }
    assert_eq!(admitted, 1);
    assert_eq!(trial, Some(Decision::TrialAdmitted(t)));
    assert_eq!(reg.state_of(&a).unwrap().phase, Phase::HalfOpen);
}

#[test]
fn failed_trial_reopens_with_fresh_cooldown() {
    let mut reg = BreakerRegistry::new(example_config());
    let a = "svc-a".to_string();
    for i in 0..10u64 {
        assert!(call(&mut reg, "svc-a", 500, i).is_ok());
    }
    let t = 9 + 30 * SEC;
    let d = begin_call(&mut reg, &a, t).unwrap();
    assert_eq!(d, Decision::TrialAdmitted(t));
    finish_call(&mut reg, &a, d, None, t + 100);
    let s = reg.state_of(&a).unwrap();
    assert_eq!(s.phase, Phase::Open);
    assert_eq!(s.opened_at, Some(t + 100));
    assert!(begin_call(&mut reg, &a, t + 100 + 30 * SEC - 1).is_err());
    assert_eq!(
        begin_call(&mut reg, &a, t + 100 + 30 * SEC).unwrap(),
        Decision::TrialAdmitted(t + 100 + 30 * SEC)
    );
}

#[test]
fn abandoned_trial_releases_its_slot() {
    let mut reg = BreakerRegistry::new(example_config());
    let a = "svc-a".to_string();
    for i in 0..10u64 {
        assert!(call(&mut reg, "svc-a", 500, i).is_ok());
    }
    let t = 9 + 30 * SEC;
    assert_eq!(begin_call(&mut reg, &a, t).unwrap(), Decision::TrialAdmitted(t));
    assert!(begin_call(&mut reg, &a, t + 5 * SEC - 1).is_err());
    assert_eq!(reg.state_of(&a).unwrap().phase, Phase::HalfOpen);
    // The trial has been out for the trial timeout: its slot goes to this call.
    let retry = t + 5 * SEC;
    assert_eq!(begin_call(&mut reg, &a, retry).unwrap(), Decision::TrialAdmitted(retry));
    let s = reg.state_of(&a).unwrap();
    assert_eq!(s.phase, Phase::HalfOpen);
    assert_eq!(s.trial_started, Some(retry));
    assert_eq!(s.opened_at, Some(9));
    assert!(begin_call(&mut reg, &a, retry + 1).is_err());
    // The late outcome of the abandoned trial changes nothing.
    finish_call(&mut reg, &a, Decision::TrialAdmitted(t), Some(200), retry + 2);
    let s = reg.state_of(&a).unwrap();
    assert_eq!(s.phase, Phase::HalfOpen);
    assert_eq!(s.trial_started, Some(retry));
    // The outcome of the outstanding trial decides.
    finish_call(&mut reg, &a, Decision::TrialAdmitted(retry), Some(200), retry + 3);
    assert_eq!(reg.state_of(&a).unwrap().phase, Phase::Closed);
}

#[test]
fn trip_with_window_started_before() {
    let cfg = BreakerConfig::new(4, 50, 100, 1000, 10).unwrap();
    let mut s = BreakerState::new(0);
    s.record(&cfg, Decision::Admitted, Outcome::Failure, 1);
    s.record(&cfg, Decision::Admitted, Outcome::Success, 2);
    s.record(&cfg, Decision::Admitted, Outcome::Success, 3);
    assert_eq!(s.phase, Phase::Closed);
    s.record(&cfg, Decision::Admitted, Outcome::Failure, 4);
    assert_eq!(s.phase, Phase::Open);
    assert_eq!(s.opened_at, Some(4));
}

#[test]
fn rejected_outcome_not_counted() {
    let cfg = example_config();
    let mut s = BreakerState::new(0);
    s.record(&cfg, Decision::Admitted, Outcome::Failure, 1);
    s.record(&cfg, Decision::Rejected, Outcome::Failure, 2);
    s.record(&cfg, Decision::Rejected, Outcome::Success, 3);
    assert_eq!((s.counter.success_count, s.counter.failure_count), (0, 1));
    assert_eq!(s.last_access, 3);
}

#[test]
fn isolation_between_destinations() {
    let mut reg = BreakerRegistry::new(example_config());
    let a = "svc-a".to_string();
    assert!(call(&mut reg, "svc-a", 500, 0).is_ok());
    let before = reg.state_of(&a).unwrap();
    for i in 1..100u64 {
        let _ = call(&mut reg, "svc-b", 500, i);
    }
    assert_eq!(reg.state_of(&"svc-b".to_string()).unwrap().phase, Phase::Open);
    assert_eq!(reg.state_of(&a).unwrap(), before);
    assert_eq!(reg.state_of(&"svc-c".to_string()), None);
}

#[test]
fn state_machine_direct() {
    let cfg = BreakerConfig::new(2, 50, 100, 1000, 10).unwrap();
    let mut s = BreakerState::new(0);
    assert_eq!(s.decide(&cfg, 1), Decision::Admitted);
    s.record(&cfg, Decision::Admitted, Outcome::Success, 1);
    assert_eq!(s.decide(&cfg, 2), Decision::Admitted);
    s.record(&cfg, Decision::Admitted, Outcome::Failure, 2);
    assert_eq!(s.phase, Phase::Open);
    assert_eq!(s.decide(&cfg, 101), Decision::Rejected);
    assert_eq!(s.decide(&cfg, 102), Decision::TrialAdmitted(102));
    s.record(&cfg, Decision::TrialAdmitted(102), Outcome::Success, 103);
    assert_eq!(s, BreakerState::new(103));
}

#[test]
fn idle_entries_are_evicted() {
    let mut reg = BreakerRegistry::new(example_config());
    let a = "svc-a".to_string();
    let b = "svc-b".to_string();
    assert!(call(&mut reg, "svc-a", 500, 0).is_ok());
    assert!(call(&mut reg, "svc-b", 200, 500 * SEC).is_ok());
    reg.evict_idle(600 * SEC);
    assert_eq!(reg.state_of(&a), None);
    assert!(reg.state_of(&b).is_some());
    // A destination that comes back starts closed and empty.
    assert_eq!(call(&mut reg, "svc-a", 200, 601 * SEC), Ok(Decision::Admitted));
    let s = reg.state_of(&a).unwrap();
    assert_eq!((s.counter.success_count, s.counter.failure_count), (1, 0));
}
