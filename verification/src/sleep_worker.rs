//! Scheduling of the sleep worker: its configuration and how long it waits
//! after each cycle.
use vstd::prelude::*;

use crate::backoff::{double_capped, doubling_backoff, lemma_doubling_backoff_bounded};
use crate::interval::Interval;
use crate::initiative_worker::{saturating_inc, valid_intervals};
use crate::sleep::SleepOnceStatus;

verus! {

/// The settings the sleep worker reads from the runtime configuration, in
/// whole seconds.
pub struct Config {
    pub sleep_worker_idle_seconds: u64,
    pub sleep_worker_completed_seconds: u64,
    pub sleep_worker_deferred_seconds: u64,
    pub sleep_worker_initial_backoff_seconds: u64,
    pub sleep_worker_max_backoff_seconds: u64,
}

/// The waits of the sleep worker.
pub struct SleepWorkerConfig {
    pub idle_interval: Interval,
    pub completed_interval: Interval,
    pub deferred_interval: Interval,
    pub initial_error_backoff: Interval,
    pub max_error_backoff: Interval,
}

/// Why the sleep worker cannot start.
pub enum SleepWorkerError {
    InvalidConfig(String),
    Signal(String),
}

/// Every wait is positive.
pub open spec fn all_positive(
    idle: Interval,
    completed: Interval,
    deferred: Interval,
    initial: Interval,
    maximum: Interval,
) -> bool {
    idle.spec_nanos() > 0 && completed.spec_nanos() > 0 && deferred.spec_nanos() > 0
        && initial.spec_nanos() > 0 && maximum.spec_nanos() > 0
}

impl SleepWorkerConfig {
    pub open spec fn valid(&self) -> bool {
        valid_intervals(
            self.idle_interval,
            self.completed_interval,
            self.deferred_interval,
            self.initial_error_backoff,
            self.max_error_backoff,
        )
    }

    /// The configuration the runtime settings describe.
    pub fn from_config(config: &Config) -> (r: Result<SleepWorkerConfig, SleepWorkerError>)
        ensures
            match r {
                Ok(c) => c.valid() && c.idle_interval.spec_nanos()
                    == config.sleep_worker_idle_seconds * 1_000_000_000
                    && c.completed_interval.spec_nanos()
                    == config.sleep_worker_completed_seconds * 1_000_000_000
                    && c.deferred_interval.spec_nanos()
                    == config.sleep_worker_deferred_seconds * 1_000_000_000
                    && c.initial_error_backoff.spec_nanos()
                    == config.sleep_worker_initial_backoff_seconds * 1_000_000_000
                    && c.max_error_backoff.spec_nanos()
                    == config.sleep_worker_max_backoff_seconds * 1_000_000_000,
                Err(SleepWorkerError::InvalidConfig(message)) => if !(config.sleep_worker_idle_seconds > 0
                    && config.sleep_worker_completed_seconds > 0
                    && config.sleep_worker_deferred_seconds > 0
                    && config.sleep_worker_initial_backoff_seconds > 0
                    && config.sleep_worker_max_backoff_seconds > 0) {
                    message@ == "sleep worker intervals and backoff must be greater than zero"@
                } else {
                    config.sleep_worker_max_backoff_seconds < config.sleep_worker_initial_backoff_seconds
                        && message@
                        == "sleep worker max error backoff must be at least the initial backoff"@
                },
                Err(SleepWorkerError::Signal(_)) => false,
            },
    {
        let r = Self::new(
            Interval::from_secs(config.sleep_worker_idle_seconds),
            Interval::from_secs(config.sleep_worker_completed_seconds),
            Interval::from_secs(config.sleep_worker_deferred_seconds),
            Interval::from_secs(config.sleep_worker_initial_backoff_seconds),
            Interval::from_secs(config.sleep_worker_max_backoff_seconds),
        );
        proof {
            let a = config.sleep_worker_initial_backoff_seconds;
            let b = config.sleep_worker_max_backoff_seconds;
            assert((a * 1_000_000_000 <= b * 1_000_000_000) == (a <= b)) by (nonlinear_arith);
        }
        r
    }

    /// A configuration from its five waits. Refused with "sleep worker
    /// intervals and backoff must be greater than zero" when a wait is zero,
    /// else with "sleep worker max error backoff must be at least the
    /// initial backoff" when the ceiling is below the start.
    pub fn new(
        idle_interval: Interval,
        completed_interval: Interval,
        deferred_interval: Interval,
        initial_error_backoff: Interval,
        max_error_backoff: Interval,
    ) -> (r: Result<SleepWorkerConfig, SleepWorkerError>)
        ensures
            match r {
                Ok(config) => config.idle_interval == idle_interval && config.completed_interval
                    == completed_interval && config.deferred_interval == deferred_interval
                    && config.initial_error_backoff == initial_error_backoff
                    && config.max_error_backoff == max_error_backoff && config.valid(),
                Err(SleepWorkerError::InvalidConfig(message)) => if !all_positive(
                    idle_interval,
                    completed_interval,
                    deferred_interval,
                    initial_error_backoff,
                    max_error_backoff,
                ) {
                    message@ == "sleep worker intervals and backoff must be greater than zero"@
                } else {
                    max_error_backoff.spec_nanos() < initial_error_backoff.spec_nanos()
                        && message@
                        == "sleep worker max error backoff must be at least the initial backoff"@
                },
                Err(SleepWorkerError::Signal(_)) => false,
            },
    {
        let config = SleepWorkerConfig {
            idle_interval,
            completed_interval,
            deferred_interval,
            initial_error_backoff,
            max_error_backoff,
        };
        match config.validate() {
            Ok(()) => Ok(config),
            Err(error) => Err(error),
        }
    }

    /// Checks that every wait is positive and the ceiling covers the start.
    pub fn validate(&self) -> (r: Result<(), SleepWorkerError>)
        ensures
            match r {
                Ok(()) => self.valid(),
                Err(SleepWorkerError::InvalidConfig(message)) => if !all_positive(
                    self.idle_interval,
                    self.completed_interval,
                    self.deferred_interval,
                    self.initial_error_backoff,
                    self.max_error_backoff,
                ) {
                    message@ == "sleep worker intervals and backoff must be greater than zero"@
                } else {
                    self.max_error_backoff.spec_nanos() < self.initial_error_backoff.spec_nanos()
                        && message@
                        == "sleep worker max error backoff must be at least the initial backoff"@
                },
                Err(SleepWorkerError::Signal(_)) => false,
            },
    {
        if self.idle_interval.is_zero() || self.completed_interval.is_zero()
            || self.deferred_interval.is_zero() || self.initial_error_backoff.is_zero()
            || self.max_error_backoff.is_zero() {
            return Err(
                SleepWorkerError::InvalidConfig(
                    "sleep worker intervals and backoff must be greater than zero".to_owned(),
                ),
            );
        }
        if self.max_error_backoff.lt(&self.initial_error_backoff) {
            return Err(
                SleepWorkerError::InvalidConfig(
                    "sleep worker max error backoff must be at least the initial backoff".to_owned(),
                ),
            );
        }
        Ok(())
    }

    /// The default waits: 300 s idle, 30 s after a pass, 60 s after
    /// deferring, and an error backoff from 30 s up to 900 s.
    pub fn default_config() -> (r: SleepWorkerConfig)
        ensures
            r.idle_interval.spec_nanos() == 300 * 1_000_000_000,
            r.completed_interval.spec_nanos() == 30 * 1_000_000_000,
            r.deferred_interval.spec_nanos() == 60 * 1_000_000_000,
            r.initial_error_backoff.spec_nanos() == 30 * 1_000_000_000,
            r.max_error_backoff.spec_nanos() == 900 * 1_000_000_000,
            r.valid(),
    {
        SleepWorkerConfig {
            idle_interval: Interval::from_secs(300),
            completed_interval: Interval::from_secs(30),
            deferred_interval: Interval::from_secs(60),
            initial_error_backoff: Interval::from_secs(30),
            max_error_backoff: Interval::from_secs(900),
        }
    }
}

/// What one sleep-worker cycle came to.
pub enum CycleOutcome {
    /// The pass's status, error kind and number of candidates created.
    Status(SleepOnceStatus, Option<String>, u32),
    /// The pass could not run; the failure's kind.
    Error(String),
}

/// The outcome of a cycle: deferred while the foreground is active, else
/// the pass's report, or the failure of either step.
pub fn cycle_outcome(
    foreground: Result<bool, String>,
    pass: Option<Result<(SleepOnceStatus, Option<String>, u32), String>>,
) -> (r: Option<CycleOutcome>)
    ensures
        match foreground {
            Ok(true) => r matches Some(CycleOutcome::Status(SleepOnceStatus::Deferred, None, 0)),
            Err(kind) => r == Some(CycleOutcome::Error(kind)),
            Ok(false) => match pass {
                Some(Ok((status, error_kind, created))) => r == Some(
                    CycleOutcome::Status(status, error_kind, created),
                ),
                Some(Err(kind)) => r == Some(CycleOutcome::Error(kind)),
                None => r is None,
            },
        },
{
    match foreground {
        Ok(true) => Some(CycleOutcome::Status(SleepOnceStatus::Deferred, None, 0)),
        Err(kind) => Some(CycleOutcome::Error(kind)),
        Ok(false) => match pass {
            Some(Ok((status, error_kind, created))) => Some(
                CycleOutcome::Status(status, error_kind, created),
            ),
            Some(Err(kind)) => Some(CycleOutcome::Error(kind)),
            None => None,
        },
    }
}

/// Whether the cycle failed: an error, or a pass that ended failed.
pub open spec fn cycle_failed(outcome: &CycleOutcome) -> bool {
    match outcome {
        CycleOutcome::Error(_) => true,
        CycleOutcome::Status(status, _, _) => status == SleepOnceStatus::Failed,
    }
}

/// The wait a cycle outcome calls for, given the failures just before it.
pub open spec fn sleep_delay_for(outcome: &CycleOutcome, config: &SleepWorkerConfig, failures: u32) -> nat {
    match outcome {
        CycleOutcome::Error(_) => doubling_backoff(
            config.initial_error_backoff.spec_nanos(),
            config.max_error_backoff.spec_nanos(),
            failures as nat,
        ),
        CycleOutcome::Status(status, _, _) => match status {
            SleepOnceStatus::Failed => doubling_backoff(
                config.initial_error_backoff.spec_nanos(),
                config.max_error_backoff.spec_nanos(),
                failures as nat,
            ),
            SleepOnceStatus::Idle => config.idle_interval.spec_nanos(),
            SleepOnceStatus::Completed => config.completed_interval.spec_nanos(),
            SleepOnceStatus::RunningResumed => config.completed_interval.spec_nanos(),
            SleepOnceStatus::Deferred => config.deferred_interval.spec_nanos(),
            SleepOnceStatus::Interrupted => config.deferred_interval.spec_nanos(),
        },
    }
}

/// Counts consecutive failed cycles to size the error backoff.
pub struct SleepDelayPolicy {
    pub consecutive_failures: u32,
}

impl SleepDelayPolicy {
    /// A policy that has seen no failure.
    pub fn new() -> (r: SleepDelayPolicy)
        ensures
            r.consecutive_failures == 0,
    {
        SleepDelayPolicy { consecutive_failures: 0 }
    }

    /// The wait after `outcome`: the error backoff after a failure (which
    /// counts one more failure), else the configured wait for the pass's
    /// status (which clears the failure count).
    pub fn next_delay(&mut self, outcome: &CycleOutcome, config: &SleepWorkerConfig) -> (r:
        Interval)
        ensures
            r.spec_nanos() == sleep_delay_for(outcome, config, old(self).consecutive_failures),
            final(self).consecutive_failures == if cycle_failed(outcome) {
                saturating_inc(old(self).consecutive_failures)
            } else {
                0
            },
    {
        let failed = match outcome {
            CycleOutcome::Error(_) => true,
            CycleOutcome::Status(status, _, _) => *status == SleepOnceStatus::Failed,
        };
        if failed {
            let exponent = self.consecutive_failures;
            self.consecutive_failures = self.consecutive_failures.saturating_add(1);
            return bounded_backoff(config.initial_error_backoff, config.max_error_backoff, exponent);
        }
        self.consecutive_failures = 0;
        match outcome {
            CycleOutcome::Status(SleepOnceStatus::Idle, _, _) => config.idle_interval,
            CycleOutcome::Status(SleepOnceStatus::Completed, _, _) => config.completed_interval,
            CycleOutcome::Status(SleepOnceStatus::RunningResumed, _, _) => config.completed_interval,
            CycleOutcome::Status(SleepOnceStatus::Deferred, _, _) => config.deferred_interval,
            CycleOutcome::Status(SleepOnceStatus::Interrupted, _, _) => config.deferred_interval,
            _ => config.idle_interval,
        }
    }
}

/// Law: with a valid configuration every wait of the sleep worker is
/// positive, and an error backoff stays between its start and its ceiling.
pub proof fn lemma_sleep_delay_bounded(outcome: &CycleOutcome, config: &SleepWorkerConfig, failures: u32)
    requires
        config.valid(),
    ensures
        sleep_delay_for(outcome, config, failures) > 0,
        cycle_failed(outcome) ==> config.initial_error_backoff.spec_nanos() <= sleep_delay_for(
            outcome,
            config,
            failures,
        ) <= config.max_error_backoff.spec_nanos(),
{
    lemma_doubling_backoff_bounded(
        config.initial_error_backoff.spec_nanos(),
        config.max_error_backoff.spec_nanos(),
        failures as nat,
    );
}

/// The sleep worker's error backoff: `initial` doubled once per earlier
/// consecutive failure while below `maximum`, never above `maximum`.
pub fn bounded_backoff(initial: Interval, maximum: Interval, exponent: u32) -> (r: Interval)
    ensures
        r.spec_nanos() == doubling_backoff(
            initial.spec_nanos(),
            maximum.spec_nanos(),
            exponent as nat,
        ),
{
    let mut delay = initial;
    let mut remaining = exponent;
    while remaining > 0 && delay.lt(&maximum)
        invariant
            doubling_backoff(delay.spec_nanos(), maximum.spec_nanos(), remaining as nat)
                == doubling_backoff(initial.spec_nanos(), maximum.spec_nanos(), exponent as nat),
        decreases remaining,
    {
        delay = double_capped(delay, maximum);
        remaining = remaining - 1;
    }
    delay
}

} // verus!
