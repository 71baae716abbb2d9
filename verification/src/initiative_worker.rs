//! Scheduling of the initiative worker: how long it waits after each cycle.
use vstd::prelude::*;

use crate::backoff::{
    capped_backoff, double_capped, lemma_capped_backoff_bounded, lemma_capped_backoff_stays,
};
use crate::initiative::{InitiativeRunResult, InitiativeService};
use crate::interval::Interval;

verus! {

/// The waits of a worker: after an idle cycle, after completed work, after
/// yielding to the foreground, and the error backoff's start and ceiling.
pub struct InitiativeWorkerConfig {
    pub idle_interval: Interval,
    pub completed_interval: Interval,
    pub deferred_interval: Interval,
    pub initial_error_backoff: Interval,
    pub max_error_backoff: Interval,
}

/// Every wait is positive and the backoff ceiling covers its start.
pub open spec fn valid_intervals(
    idle: Interval,
    completed: Interval,
    deferred: Interval,
    initial: Interval,
    maximum: Interval,
) -> bool {
    &&& idle.spec_nanos() > 0
    &&& completed.spec_nanos() > 0
    &&& deferred.spec_nanos() > 0
    &&& initial.spec_nanos() > 0
    &&& maximum.spec_nanos() > 0
    &&& initial.spec_nanos() <= maximum.spec_nanos()
}

impl InitiativeWorkerConfig {
    pub open spec fn valid(&self) -> bool {
        valid_intervals(
            self.idle_interval,
            self.completed_interval,
            self.deferred_interval,
            self.initial_error_backoff,
            self.max_error_backoff,
        )
    }

    /// A configuration from its five waits, refused unless every wait is
    /// positive and the backoff ceiling covers its start.
    pub fn new(
        idle_interval: Interval,
        completed_interval: Interval,
        deferred_interval: Interval,
        initial_error_backoff: Interval,
        max_error_backoff: Interval,
    ) -> (r: Result<InitiativeWorkerConfig, InitiativeWorkerError>)
        ensures
            match r {
                Ok(config) => config.idle_interval == idle_interval && config.completed_interval
                    == completed_interval && config.deferred_interval == deferred_interval
                    && config.initial_error_backoff == initial_error_backoff
                    && config.max_error_backoff == max_error_backoff && config.valid(),
                Err(InitiativeWorkerError::InvalidConfig) => !valid_intervals(
                    idle_interval,
                    completed_interval,
                    deferred_interval,
                    initial_error_backoff,
                    max_error_backoff,
                ),
            },
    {
        let config = InitiativeWorkerConfig {
            idle_interval,
            completed_interval,
            deferred_interval,
            initial_error_backoff,
            max_error_backoff,
        };
        match config.validate() {
            Ok(()) => Ok(config),
            Err(error) => Err(error),
        }
    }

    /// Checks that every wait is positive and the backoff ceiling covers its
    /// start.
    pub fn validate(&self) -> (r: Result<(), InitiativeWorkerError>)
        ensures
            r is Ok <==> self.valid(),
    {
        if self.idle_interval.is_zero() || self.completed_interval.is_zero()
            || self.deferred_interval.is_zero() || self.initial_error_backoff.is_zero()
            || self.max_error_backoff.is_zero() || self.max_error_backoff.lt(
            &self.initial_error_backoff,
        ) {
            return Err(InitiativeWorkerError::InvalidConfig);
        }
        Ok(())
    }

    /// The default waits: 300 s idle, 30 s after work, 60 s after yielding,
    /// and an error backoff from 30 s up to 900 s.
    pub fn default_config() -> (r: InitiativeWorkerConfig)
        ensures
            r.idle_interval.spec_nanos() == 300 * 1_000_000_000,
            r.completed_interval.spec_nanos() == 30 * 1_000_000_000,
            r.deferred_interval.spec_nanos() == 60 * 1_000_000_000,
            r.initial_error_backoff.spec_nanos() == 30 * 1_000_000_000,
            r.max_error_backoff.spec_nanos() == 900 * 1_000_000_000,
            r.valid(),
    {
        InitiativeWorkerConfig {
            idle_interval: Interval::from_secs(300),
            completed_interval: Interval::from_secs(30),
            deferred_interval: Interval::from_secs(60),
            initial_error_backoff: Interval::from_secs(30),
            max_error_backoff: Interval::from_secs(900),
        }
    }
}

/// A configuration the initiative worker refuses.
#[derive(Clone, Copy, Debug, PartialEq, Eq, Structural)]
pub enum InitiativeWorkerError {
    InvalidConfig,
}

/// The worker that runs the initiative service between waits.
pub struct InitiativeWorker {
    pub service: InitiativeService,
    pub config: InitiativeWorkerConfig,
}

impl InitiativeWorker {
    /// A worker for `service`, refused when the configuration is not valid.
    pub fn new(service: InitiativeService, config: InitiativeWorkerConfig) -> (r: Result<
        InitiativeWorker,
        InitiativeWorkerError,
    >)
        ensures
            match r {
                Ok(worker) => worker.config == config && worker.service == service
                    && config.valid(),
                Err(_) => !config.valid(),
            },
    {
        match config.validate() {
            Ok(()) => Ok(InitiativeWorker { service, config }),
            Err(error) => Err(error),
        }
    }
}

/// What one worker cycle came to.
pub enum InitiativeWorkerOutcome {
    /// The user was active, so the service did not run.
    DeferredForeground,
    /// The service ran with this result.
    Ran(InitiativeRunResult),
    /// The service failed with this message.
    Failed(String),
}

/// The outcome of a cycle: deferred while the foreground is active, else
/// the service's result, or the failure of either step.
pub fn cycle_outcome(
    foreground: Result<bool, String>,
    run: Option<Result<InitiativeRunResult, String>>,
) -> (r: Option<InitiativeWorkerOutcome>)
    ensures
        match foreground {
            Ok(true) => r matches Some(InitiativeWorkerOutcome::DeferredForeground),
            Err(message) => r == Some(InitiativeWorkerOutcome::Failed(message)),
            Ok(false) => match run {
                Some(Ok(result)) => r == Some(InitiativeWorkerOutcome::Ran(result)),
                Some(Err(message)) => r == Some(InitiativeWorkerOutcome::Failed(message)),
                None => r is None,
            },
        },
{
    match foreground {
        Ok(true) => Some(InitiativeWorkerOutcome::DeferredForeground),
        Err(message) => Some(InitiativeWorkerOutcome::Failed(message)),
        Ok(false) => match run {
            Some(Ok(result)) => Some(InitiativeWorkerOutcome::Ran(result)),
            Some(Err(message)) => Some(InitiativeWorkerOutcome::Failed(message)),
            None => None,
        },
    }
}

/// The kind of wait an outcome calls for.
pub open spec fn is_failure(outcome: &InitiativeWorkerOutcome) -> bool {
    outcome is Failed
}

/// `value + 1`, saturating at `u32::MAX`.
pub open spec fn saturating_inc(value: u32) -> u32 {
    if value == u32::MAX {
        u32::MAX
    } else {
        (value + 1) as u32
    }
}

/// The wait an outcome calls for, given the failures just before it.
pub open spec fn delay_for(
    outcome: &InitiativeWorkerOutcome,
    config: &InitiativeWorkerConfig,
    failures: u32,
) -> nat {
    match outcome {
        InitiativeWorkerOutcome::Failed(_) => capped_backoff(
            config.initial_error_backoff.spec_nanos(),
            config.max_error_backoff.spec_nanos(),
            failures as nat,
        ),
        InitiativeWorkerOutcome::DeferredForeground => config.deferred_interval.spec_nanos(),
        InitiativeWorkerOutcome::Ran(result) => match result {
            InitiativeRunResult::Deferred => config.deferred_interval.spec_nanos(),
            InitiativeRunResult::Proposed { .. } => config.completed_interval.spec_nanos(),
            InitiativeRunResult::Dismissed { .. } => config.completed_interval.spec_nanos(),
            InitiativeRunResult::NoCandidate => config.idle_interval.spec_nanos(),
            InitiativeRunResult::Duplicate { .. } => config.idle_interval.spec_nanos(),
        },
    }
}

/// Counts consecutive failed cycles to size the error backoff.
pub struct DelayPolicy {
    pub consecutive_failures: u32,
}

impl DelayPolicy {
    /// A policy that has seen no failure.
    pub fn new() -> (r: DelayPolicy)
        ensures
            r.consecutive_failures == 0,
    {
        DelayPolicy { consecutive_failures: 0 }
    }

    /// The wait after `outcome`: the error backoff after a failure (which
    /// counts one more failure), else the configured wait for the outcome
    /// (which clears the failure count).
    pub fn next_delay(&mut self, outcome: &InitiativeWorkerOutcome, config: &InitiativeWorkerConfig) -> (r:
        Interval)
        ensures
            r.spec_nanos() == delay_for(outcome, config, old(self).consecutive_failures),
            final(self).consecutive_failures == if is_failure(outcome) {
                saturating_inc(old(self).consecutive_failures)
            } else {
                0
            },
    {
        match outcome {
            InitiativeWorkerOutcome::Failed(_) => {
                let exponent = self.consecutive_failures;
                self.consecutive_failures = self.consecutive_failures.saturating_add(1);
                bounded_backoff(config.initial_error_backoff, config.max_error_backoff, exponent)
            },
            InitiativeWorkerOutcome::DeferredForeground => {
                self.consecutive_failures = 0;
                config.deferred_interval
            },
            InitiativeWorkerOutcome::Ran(result) => {
                self.consecutive_failures = 0;
                match result {
                    InitiativeRunResult::Deferred => config.deferred_interval,
                    InitiativeRunResult::Proposed { .. } => config.completed_interval,
                    InitiativeRunResult::Dismissed { .. } => config.completed_interval,
                    InitiativeRunResult::NoCandidate => config.idle_interval,
                    InitiativeRunResult::Duplicate { .. } => config.idle_interval,
                }
            },
        }
    }
}

/// Law: with a valid configuration every wait is positive and no wait
/// exceeds the longest configured one, so the worker neither spins nor
/// stalls beyond its configuration.
pub proof fn lemma_delay_bounded(
    outcome: &InitiativeWorkerOutcome,
    config: &InitiativeWorkerConfig,
    failures: u32,
)
    requires
        config.valid(),
    ensures
        delay_for(outcome, config, failures) > 0,
        is_failure(outcome) ==> config.initial_error_backoff.spec_nanos() <= delay_for(
            outcome,
            config,
            failures,
        ) <= config.max_error_backoff.spec_nanos(),
{
    if is_failure(outcome) {
        lemma_capped_backoff_bounded(
            config.initial_error_backoff.spec_nanos(),
            config.max_error_backoff.spec_nanos(),
            failures as nat,
        );
        lemma_capped_backoff_floor(
            config.initial_error_backoff.spec_nanos(),
            config.max_error_backoff.spec_nanos(),
            failures as nat,
        );
    }
}

proof fn lemma_capped_backoff_floor(initial: nat, maximum: nat, exponent: nat)
    requires
        initial <= maximum,
    ensures
        initial <= capped_backoff(initial, maximum, exponent),
    decreases exponent,
{
    if exponent > 0 {
        lemma_capped_backoff_floor(initial, maximum, (exponent - 1) as nat);
    }
}

/// The initiative worker's error backoff: `initial` doubled once per
/// earlier consecutive failure, never above `maximum`.
pub fn bounded_backoff(initial: Interval, maximum: Interval, exponent: u32) -> (r: Interval)
    ensures
        r.spec_nanos() == capped_backoff(
            initial.spec_nanos(),
            maximum.spec_nanos(),
            exponent as nat,
        ),
{
    let mut delay = initial;
    let mut i: u32 = 0;
    while i < exponent
        invariant_except_break
            i <= exponent,
            delay.spec_nanos() == capped_backoff(initial.spec_nanos(), maximum.spec_nanos(), i as nat),
        ensures
            delay.spec_nanos() == capped_backoff(
                initial.spec_nanos(),
                maximum.spec_nanos(),
                exponent as nat,
            ),
        decreases exponent - i,
    {
        delay = double_capped(delay, maximum);
        i = i + 1;
        if delay.same(&maximum) {
            proof {
                lemma_capped_backoff_stays(
                    initial.spec_nanos(),
                    maximum.spec_nanos(),
                    i as nat,
                    exponent as nat,
                );
            }
            break;
        }
    }
    delay
}

} // verus!
