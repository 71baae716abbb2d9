use hekate::backoff::double_capped;
use hekate::interval::Interval;
use hekate::sleep::SleepOnceStatus;
use hekate::sleep_worker::{
    bounded_backoff, cycle_outcome, Config, CycleOutcome, SleepDelayPolicy, SleepWorkerConfig,
    SleepWorkerError,
};

fn config_message(r: Result<SleepWorkerConfig, SleepWorkerError>) -> String {
    match r {
        Err(SleepWorkerError::InvalidConfig(m)) => m,
        _ => panic!("expected an invalid configuration"),
    }
}

#[test]
fn sleep_worker_defaults() {
    let c = SleepWorkerConfig::default_config();
    assert_eq!(c.idle_interval, Interval::from_secs(300));
    assert_eq!(c.completed_interval, Interval::from_secs(30));
    assert_eq!(c.deferred_interval, Interval::from_secs(60));
    assert_eq!(c.initial_error_backoff, Interval::from_secs(30));
    assert_eq!(c.max_error_backoff, Interval::from_secs(900));
    assert!(c.validate().is_ok());
}

#[test]
fn sleep_worker_refuses_zero_waits() {
    let m = config_message(SleepWorkerConfig::new(
        Interval::from_secs(0),
        Interval::from_secs(1),
        Interval::from_secs(1),
        Interval::from_secs(1),
        Interval::from_secs(1),
    ));
    assert_eq!(m, "sleep worker intervals and backoff must be greater than zero");
}

#[test]
fn sleep_worker_refuses_a_ceiling_below_the_start() {
    let m = config_message(SleepWorkerConfig::new(
        Interval::from_secs(1),
        Interval::from_secs(1),
        Interval::from_secs(1),
        Interval::from_secs(10),
        Interval::from_secs(5),
    ));
    assert_eq!(m, "sleep worker max error backoff must be at least the initial backoff");
}

#[test]
fn sleep_worker_reads_runtime_settings_in_seconds() {
    let c = SleepWorkerConfig::from_config(&Config {
        sleep_worker_idle_seconds: 7,
        sleep_worker_completed_seconds: 3,
        sleep_worker_deferred_seconds: 5,
        sleep_worker_initial_backoff_seconds: 2,
        sleep_worker_max_backoff_seconds: 20,
    })
    .ok()
    .expect("valid");
    assert_eq!(c.idle_interval, Interval::from_secs(7));
    assert_eq!(c.max_error_backoff, Interval::from_secs(20));
}

#[test]
fn sleep_delays_follow_the_outcome_and_back_off_on_failure() {
    let c = SleepWorkerConfig::default_config();
    let mut policy = SleepDelayPolicy::new();
    let failed = CycleOutcome::Error("storage".to_string());
    assert_eq!(policy.next_delay(&failed, &c), Interval::from_secs(30));
    assert_eq!(policy.next_delay(&failed, &c), Interval::from_secs(60));
    assert_eq!(policy.next_delay(&failed, &c), Interval::from_secs(120));
    assert_eq!(policy.consecutive_failures, 3);
    let idle = CycleOutcome::Status(SleepOnceStatus::Idle, None, 0);
    assert_eq!(policy.next_delay(&idle, &c), Interval::from_secs(300));
    assert_eq!(policy.consecutive_failures, 0);
    let deferred = CycleOutcome::Status(SleepOnceStatus::Deferred, None, 0);
    assert_eq!(policy.next_delay(&deferred, &c), Interval::from_secs(60));
    let done = CycleOutcome::Status(SleepOnceStatus::Completed, None, 2);
    assert_eq!(policy.next_delay(&done, &c), Interval::from_secs(30));
}

#[test]
fn sleep_backoff_never_exceeds_its_ceiling() {
    let c = SleepWorkerConfig::default_config();
    let mut policy = SleepDelayPolicy::new();
    let failed = CycleOutcome::Status(SleepOnceStatus::Failed, Some("model".to_string()), 0);
    for _ in 0..70 {
        let d = policy.next_delay(&failed, &c);
        assert!(!c.max_error_backoff.lt(&d));
    }
    assert_eq!(policy.next_delay(&failed, &c), Interval::from_secs(900));
}

#[test]
fn sleep_bounded_backoff_exact_values() {
    assert_eq!(bounded_backoff(Interval::from_secs(3), Interval::from_secs(100), 0), Interval::from_secs(3));
    assert_eq!(bounded_backoff(Interval::from_secs(3), Interval::from_secs(100), 3), Interval::from_secs(24));
    assert_eq!(bounded_backoff(Interval::from_secs(3), Interval::from_secs(100), 6), Interval::from_secs(100));
    assert_eq!(bounded_backoff(Interval::from_secs(3), Interval::from_secs(100), u32::MAX), Interval::from_secs(100));
}

#[test]
fn doubling_is_capped() {
    assert_eq!(double_capped(Interval::from_secs(4), Interval::from_secs(100)), Interval::from_secs(8));
    assert_eq!(double_capped(Interval::from_secs(60), Interval::from_secs(100)), Interval::from_secs(100));
    assert_eq!(double_capped(Interval::from_parts(0, 600_000_000), Interval::from_secs(100)), Interval::from_parts(1, 200_000_000));
}

#[test]
fn foreground_work_defers_a_sleep_pass() {
    match cycle_outcome(Ok(true), None) {
        Some(CycleOutcome::Status(SleepOnceStatus::Deferred, None, 0)) => {},
        _ => panic!("expected a deferred pass"),
    }
    match cycle_outcome(Err("lease".to_string()), None) {
        Some(CycleOutcome::Error(kind)) => assert_eq!(kind, "lease"),
        _ => panic!("expected an error"),
    }
    assert!(cycle_outcome(Ok(false), None).is_none());
}

#[test]
fn interval_arithmetic() {
    let a = Interval::from_parts(1, 999_999_999);
    let b = Interval::from_parts(0, 1);
    assert_eq!(a.checked_add(b), Some(Interval::from_secs(2)));
    assert_eq!(Interval::from_parts(u64::MAX, 999_999_999).checked_add(b), None);
    assert_eq!(a.as_secs(), 1);
    assert_eq!(a.subsec_nanos(), 999_999_999);
    assert!(Interval::from_secs(0).is_zero());
    assert_eq!(Interval::from_secs(5).min(Interval::from_secs(3)), Interval::from_secs(3));
}

fn test_config() -> SleepWorkerConfig {
    SleepWorkerConfig::new(
        Interval::from_secs(5),
        Interval::from_secs(3),
        Interval::from_secs(4),
        Interval::from_secs(2),
        Interval::from_secs(5),
    )
    .ok()
    .expect("worker config")
}

#[test]
fn cycle_policy_and_backoff_are_bounded() {
    let config = test_config();
    let mut policy = SleepDelayPolicy::new();

    let outcome = cycle_outcome(Ok(true), None).expect("deferred");
    assert_eq!(policy.next_delay(&outcome, &config), Interval::from_secs(4));

    let outcome = cycle_outcome(Ok(false), Some(Ok((SleepOnceStatus::Completed, None, 1)))).expect("completed");
    assert_eq!(policy.next_delay(&outcome, &config), Interval::from_secs(3));

    let timeout = CycleOutcome::Error("timeout".to_string());
    assert_eq!(policy.next_delay(&timeout, &config), Interval::from_secs(2));
    assert_eq!(policy.next_delay(&timeout, &config), Interval::from_secs(4));
    assert_eq!(policy.next_delay(&timeout, &config), Interval::from_secs(5));
    assert_eq!(
        policy.next_delay(&CycleOutcome::Status(SleepOnceStatus::Idle, None, 0), &config),
        Interval::from_secs(5)
    );
    assert_eq!(policy.next_delay(&timeout, &config), Interval::from_secs(2));
}
