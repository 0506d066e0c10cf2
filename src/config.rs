use vstd::prelude::*;

verus! {

/// Settings of one breaker instance. Durations are in milliseconds.
#[derive(Clone, Copy, Debug, PartialEq, Eq, Structural)]
pub struct BreakerConfig {
    /// Number of calls per tally window.
    pub window_size: u32,
    /// Failure ratio, in percent, at or above which a full window opens the breaker.
    pub trip_threshold_percent: u8,
    /// Time an open breaker waits before it lets a trial call through.
    pub cooldown_ms: u64,
    /// Time without calls after which a destination's entry may be dropped.
    pub idle_eviction_ms: u64,
    /// Time after which an unfinished trial call counts as failed.
    pub trial_timeout_ms: u64,
}

/// Why a configuration was refused.
#[derive(Clone, Copy, Debug, PartialEq, Eq, Structural)]
pub enum ConfigError {
    ZeroWindowSize,
    ZeroCooldown,
    ZeroIdleEviction,
    ZeroTrialTimeout,
}

impl BreakerConfig {
    pub open spec fn valid(self) -> bool {
        &&& self.window_size > 0
        &&& self.cooldown_ms > 0
        &&& self.idle_eviction_ms > 0
        &&& self.trial_timeout_ms > 0
    }

    /// Builds a configuration. A zero window size, cool-down, idle period or trial
    /// timeout is refused, the first of them that is zero in that order.
    pub fn new(
        window_size: u32,
        trip_threshold_percent: u8,
        cooldown_ms: u64,
        idle_eviction_ms: u64,
        trial_timeout_ms: u64,
    ) -> (r: Result<BreakerConfig, ConfigError>)
        ensures
            window_size == 0 ==> r == Err::<BreakerConfig, ConfigError>(ConfigError::ZeroWindowSize),
            window_size > 0 && cooldown_ms == 0 ==> r == Err::<BreakerConfig, ConfigError>(
                ConfigError::ZeroCooldown,
            ),
            window_size > 0 && cooldown_ms > 0 && idle_eviction_ms == 0 ==> r == Err::<
                BreakerConfig,
                ConfigError,
            >(ConfigError::ZeroIdleEviction),
            window_size > 0 && cooldown_ms > 0 && idle_eviction_ms > 0 && trial_timeout_ms == 0
                ==> r == Err::<BreakerConfig, ConfigError>(ConfigError::ZeroTrialTimeout),
            window_size > 0 && cooldown_ms > 0 && idle_eviction_ms > 0 && trial_timeout_ms > 0
                ==> r == Ok::<BreakerConfig, ConfigError>(
                (BreakerConfig {
                    window_size,
                    trip_threshold_percent,
                    cooldown_ms,
                    idle_eviction_ms,
                    trial_timeout_ms,
                }),
            ),
            r is Ok ==> r->Ok_0.valid(),
    {
        if window_size == 0 {
            Err(ConfigError::ZeroWindowSize)
        } else if cooldown_ms == 0 {
            Err(ConfigError::ZeroCooldown)
        } else if idle_eviction_ms == 0 {
            Err(ConfigError::ZeroIdleEviction)
        } else if trial_timeout_ms == 0 {
            Err(ConfigError::ZeroTrialTimeout)
        } else {
            Ok(
                BreakerConfig {
                    window_size,
                    trip_threshold_percent,
                    cooldown_ms,
                    idle_eviction_ms,
                    trial_timeout_ms,
                },
            )
        }
    }
}

} // verus!
