use hekate::model::{
    Approval, ApprovalStatus, Attempt, AttemptStatus, EntityKind, EntityRef, Operation,
    OperationStatus, Principal, PrincipalKind, Run, RunStatus, SleepRun, SleepRunStatus,
};
use hekate::projector::Projector;
use hekate::recovery::{recover, RecoveryError};
use hekate::sleep::sleep_status;
use hekate::state::{CurrentState, EventKind, ExperienceEvent, Payload};

const HASH: &str = "0000000000000000000000000000000000000000000000000000000000000000";
const USER: u128 = 0x11;
const HEKATE: u128 = 0x22;

fn event(id: u128, actor: u128, kind: EventKind, subject: Option<EntityRef>, payload: Payload) -> ExperienceEvent {
    ExperienceEvent {
        event_id: id,
        actor_id: actor,
        event_kind: kind,
        subject,
        source_type: "test".to_string(),
        source_ref: None,
        correlation_id: None,
        causation_id: None,
        integrity_hash: String::new(),
        canonical_hash: HASH.to_string(),
        payload,
    }
}

fn principal(id: u128, kind: PrincipalKind) -> Payload {
    Payload::Principal(Principal { id, kind, name: "p".to_string(), identity_version_id: None })
}

fn run(id: u128, status: RunStatus) -> Payload {
    Payload::Run(Run { id, task_id: None, status, started_at: "2024-01-01T00:00:00Z".to_string() })
}

fn ledger() -> Vec<ExperienceEvent> {
    vec![
        event(1, USER, EventKind::PrincipalCreated, None, principal(USER, PrincipalKind::User)),
        event(2, HEKATE, EventKind::PrincipalCreated, None, principal(HEKATE, PrincipalKind::Hekate)),
        event(3, USER, EventKind::RunStarted, None, run(0x31, RunStatus::Running)),
        event(4, USER, EventKind::RunStarted, None, run(0x32, RunStatus::Completed)),
        event(5, USER, EventKind::RunSuspended, None, run(0x30, RunStatus::Suspended)),
        event(
            6,
            USER,
            EventKind::ApprovalRequested,
            None,
            Payload::Approval(Approval { id: 0x41, operation_id: 0x51, status: ApprovalStatus::Pending, resolved_by: None }),
        ),
        event(
            7,
            USER,
            EventKind::OperationStarted,
            None,
            Payload::Operation(Operation { id: 0x51, intent_id: 0x61, status: OperationStatus::Started, approval_id: Some(0x41) }),
        ),
        event(
            8,
            USER,
            EventKind::AttemptStarted,
            None,
            Payload::Attempt(Attempt { id: 0x71, run_id: 0x31, status: AttemptStatus::Started }),
        ),
        event(
            9,
            USER,
            EventKind::AttemptCompleted,
            None,
            Payload::Attempt(Attempt { id: 0x72, run_id: 0x31, status: AttemptStatus::Succeeded }),
        ),
    ]
}

fn replayed(events: Vec<ExperienceEvent>) -> CurrentState {
    match Projector::replay(events) {
        Ok(s) => s,
        Err(e) => panic!("ledger refused: {}", e.message()),
    }
}

#[test]
fn recovery_reports_the_open_work_of_a_verified_projection() {
    let stored = replayed(ledger());
    let report = match recover(&stored, ledger()) {
        Ok(report) => report,
        Err(e) => panic!("recovery refused: {}", e.message()),
    };
    assert_eq!(report.revision, 9);
    assert_eq!(report.active_runs, vec![0x30, 0x31]);
    assert_eq!(report.pending_approvals, vec![0x41]);
    assert_eq!(report.incomplete_attempts, vec![0x71]);
    assert_eq!(report.unknown_operations, vec![0x51]);
    assert!(report.projection_verified);
}

#[test]
fn recovery_refuses_a_projection_at_another_revision() {
    let mut shorter = ledger();
    shorter.pop();
    let stored = replayed(shorter);
    match recover(&stored, ledger()) {
        Err(RecoveryError::RevisionMismatch { stored, ledger }) => {
            assert_eq!(stored, 8);
            assert_eq!(ledger, 9);
        },
        _ => panic!("expected a revision mismatch"),
    }
    let e = recover(&stored, ledger()).err().expect("refused");
    assert_eq!(e.message(), "stored projection revision 8 does not match event ledger revision 9");
}

#[test]
fn recovery_refuses_a_projection_that_differs_from_its_ledger() {
    let mut stored = replayed(ledger());
    stored.runs[0].status = RunStatus::Failed;
    match recover(&stored, ledger()) {
        Err(RecoveryError::ProjectionMismatch) => {},
        _ => panic!("expected a projection mismatch"),
    }
}

#[test]
fn recovery_refuses_a_ledger_that_does_not_replay() {
    let stored = replayed(ledger());
    let mut events = ledger();
    events.push(event(1, USER, EventKind::PrincipalCreated, None, principal(0x99, PrincipalKind::User)));
    match recover(&stored, events) {
        Err(RecoveryError::Projection(e)) => {
            assert!(e.message().ends_with("has already been projected"));
        },
        _ => panic!("expected the replay to be refused"),
    }
}

fn sleep_run(id: u128, started_at: &str, status: SleepRunStatus, cursor_before: u64, cursor_after: Option<u64>) -> SleepRun {
    SleepRun {
        id,
        status,
        high_water_revision: 2,
        cursor_before,
        cursor_after,
        seed_event_ids: vec![],
        processed_observation_count: 0,
        created_candidate_count: 0,
        started_at: started_at.to_string(),
        finished_at: if cursor_after.is_some() { Some("2024-01-03T00:00:00Z".to_string()) } else { None },
        error_kind: None,
    }
}

fn sleep_ledger() -> Vec<ExperienceEvent> {
    vec![
        event(1, USER, EventKind::PrincipalCreated, None, principal(USER, PrincipalKind::User)),
        event(2, HEKATE, EventKind::PrincipalCreated, None, principal(HEKATE, PrincipalKind::Hekate)),
        event(
            3,
            HEKATE,
            EventKind::SleepRunStarted,
            Some(EntityRef { kind: EntityKind::SleepRun, id: 0x81 }),
            Payload::SleepRun(sleep_run(0x81, "2024-01-01T00:00:00Z", SleepRunStatus::Running, 0, None)),
        ),
        event(
            4,
            HEKATE,
            EventKind::SleepRunCompleted,
            Some(EntityRef { kind: EntityKind::SleepRun, id: 0x81 }),
            Payload::SleepRun(sleep_run(0x81, "2024-01-01T00:00:00Z", SleepRunStatus::Completed, 0, Some(2))),
        ),
        event(
            5,
            HEKATE,
            EventKind::SleepRunStarted,
            Some(EntityRef { kind: EntityKind::SleepRun, id: 0x82 }),
            Payload::SleepRun(SleepRun {
                high_water_revision: 4,
                ..sleep_run(0x82, "2024-01-02T00:00:00Z", SleepRunStatus::Running, 2, None)
            }),
        ),
    ]
}

#[test]
fn sleep_status_lists_latest_runs_first() {
    let state = replayed(sleep_ledger());
    let status = sleep_status(&state, sleep_ledger());
    assert_eq!(status.cursor, 2);
    assert_eq!(status.active_run.as_ref().map(|r| r.id), Some(0x82));
    let order: Vec<u128> = status.recent_runs.iter().map(|r| r.id).collect();
    assert_eq!(order, vec![0x82, 0x81]);
    assert_eq!(status.pending_candidates, 0);
    assert!(status.projection_verified);
}

#[test]
fn sleep_status_reports_an_unverified_projection() {
    let mut state = replayed(sleep_ledger());
    state.sleep_cursor = 0;
    let status = sleep_status(&state, sleep_ledger());
    assert_eq!(status.cursor, 0);
    assert!(!status.projection_verified);
}
