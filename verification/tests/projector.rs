use hekate::model::{
    CompletionClaim, VerificationDisposition, EntityKind, EntityRef, Goal, GoalStatus, Principal, PrincipalKind, SleepRun, SleepRunStatus,
    Task, TaskStatus,
};
use hekate::projector::{ProjectionError, Projector, Rejection};
use hekate::state::{CurrentState, EventKind, ExperienceEvent, Payload};

const HASH: &str = "0000000000000000000000000000000000000000000000000000000000000000";
const USER: u128 = 0x11;
const HEKATE: u128 = 0x22;

fn event(id: u128, actor: u128, kind: EventKind, subject: Option<EntityRef>, payload: Payload) -> ExperienceEvent {
    ExperienceEvent {
        event_id: id,
        actor_id: actor,
        event_kind: kind,
        subject,
        source_type: "test".to_string(),
        source_ref: None,
        correlation_id: None,
        causation_id: None,
        integrity_hash: String::new(),
        canonical_hash: HASH.to_string(),
        payload,
    }
}

fn principal_event(id: u128, principal: u128, kind: PrincipalKind) -> ExperienceEvent {
    event(
        id,
        principal,
        EventKind::PrincipalCreated,
        Some(EntityRef { kind: EntityKind::Principal, id: principal }),
        Payload::Principal(Principal {
            id: principal,
            kind,
            name: "someone".to_string(),
            identity_version_id: None,
        }),
    )
}

fn goal_event(id: u128, goal: u128) -> ExperienceEvent {
    event(
        id,
        USER,
        EventKind::GoalCreated,
        Some(EntityRef { kind: EntityKind::Goal, id: goal }),
        Payload::Goal(Goal {
            id: goal,
            owner_principal_id: USER,
            participants: vec![USER, HEKATE],
            title: "Ship the release".to_string(),
            status: GoalStatus::Active,
        }),
    )
}

fn task_event(id: u128, task: u128, goal: u128) -> ExperienceEvent {
    event(
        id,
        USER,
        EventKind::TaskCreated,
        Some(EntityRef { kind: EntityKind::Task, id: task }),
        Payload::Task(Task {
            id: task,
            goal_id: Some(goal),
            title: "Write notes".to_string(),
            status: TaskStatus::InProgress,
        }),
    )
}

#[test]
fn replay_counts_every_event_once_in_order() {
    let events = vec![
        principal_event(1, USER, PrincipalKind::User),
        principal_event(2, HEKATE, PrincipalKind::Hekate),
        goal_event(3, 0x100),
        task_event(4, 0x200, 0x100),
    ];
    let state = Projector::replay(events).ok().expect("ledger replays");
    assert_eq!(state.revision, 4);
    assert_eq!(state.applied_events, vec![1, 2, 3, 4]);
    assert_eq!(state.principals.len(), 2);
    assert_eq!(state.goals.len(), 1);
    assert_eq!(state.tasks.len(), 1);
    assert_eq!(state.tasks[0].goal_id, Some(0x100));
}

#[test]
fn replay_of_empty_ledger_is_empty_state() {
    let state = Projector::replay(Vec::new()).ok().expect("empty ledger replays");
    assert_eq!(state.revision, 0);
    assert!(state.applied_events.is_empty());
    assert!(state.principals.is_empty());
    assert_eq!(state.sleep_cursor, 0);
}

#[test]
fn tables_stay_in_key_order() {
    let events = vec![goal_event(1, 0x300), goal_event(2, 0x100), goal_event(3, 0x200)];
    let state = Projector::replay(events).ok().expect("ledger replays");
    let ids: Vec<u128> = state.goals.iter().map(|g| g.id).collect();
    assert_eq!(ids, vec![0x100, 0x200, 0x300]);
}

#[test]
fn an_event_applies_once() {
    let mut state = CurrentState::empty();
    assert!(Projector::apply(&mut state, goal_event(7, 0x100)).is_ok());
    let again = Projector::apply(&mut state, goal_event(7, 0x100));
    assert!(matches!(again, Err(ProjectionError::Duplicate(7))));
    assert_eq!(state.revision, 1);
    assert_eq!(state.applied_events, vec![7]);
}

#[test]
fn replay_refuses_a_repeated_event() {
    let events = vec![goal_event(7, 0x100), goal_event(7, 0x100)];
    assert!(matches!(Projector::replay(events), Err(ProjectionError::Duplicate(7))));
}

#[test]
fn wrong_payload_is_refused_and_state_kept() {
    let mut state = CurrentState::empty();
    let bad = event(
        9,
        USER,
        EventKind::PrincipalCreated,
        None,
        Payload::Goal(Goal {
            id: 1,
            owner_principal_id: USER,
            participants: vec![],
            title: "x".to_string(),
            status: GoalStatus::Active,
        }),
    );
    let r = Projector::apply(&mut state, bad);
    match r {
        Err(ProjectionError::InvalidPayload { event_kind, reason }) => {
            assert_eq!(event_kind, EventKind::PrincipalCreated);
            assert!(matches!(reason, Rejection::WrongPayload));
        },
        _ => panic!("expected an invalid payload"),
    }
    assert_eq!(state.revision, 0);
    assert!(state.applied_events.is_empty());
}

#[test]
fn malformed_payload_keeps_decoder_message() {
    let mut state = CurrentState::empty();
    let bad = event(9, USER, EventKind::GoalCreated, None, Payload::Malformed("missing field `id`".to_string()));
    let e = Projector::apply(&mut state, bad).err().expect("refused");
    assert_eq!(e.message(), "invalid payload for GoalCreated: missing field `id`");
}

#[test]
fn unread_payloads_still_advance_the_revision() {
    let mut state = CurrentState::empty();
    let e = event(5, USER, EventKind::ResponseProduced, None, Payload::Empty);
    assert!(Projector::apply(&mut state, e).is_ok());
    assert_eq!(state.revision, 1);
    assert_eq!(state.applied_events, vec![5]);
}

#[test]
fn duplicate_message_names_the_event() {
    let e = ProjectionError::Duplicate(0x0102030405060708090a0b0c0d0e0f10);
    assert_eq!(e.message(), "event 01020304-0506-0708-090a-0b0c0d0e0f10 has already been projected");
}

#[test]
fn stale_batch_is_refused_with_both_revisions() {
    let state = CurrentState::empty();
    let r = Projector::project_batch(state, vec![goal_event(1, 0x100)], Some(3));
    match r {
        Err(ProjectionError::StaleContext { expected, actual }) => {
            assert_eq!(expected, 3);
            assert_eq!(actual, 0);
        },
        _ => panic!("expected a stale context"),
    }
    let e = ProjectionError::StaleContext { expected: 3, actual: 0 };
    assert_eq!(e.message(), "stale thought context: expected base revision 3, actual 0");
}

#[test]
fn batch_on_current_revision_applies_all() {
    let state = CurrentState::empty();
    let r = Projector::project_batch(state, vec![goal_event(1, 0x100), task_event(2, 0x200, 0x100)], Some(0));
    let s = r.ok().expect("batch applies");
    assert_eq!(s.revision, 2);
}

fn sleep_run(id: u128, status: SleepRunStatus, high_water: u64, cursor_after: Option<u64>) -> SleepRun {
    SleepRun {
        id,
        status,
        high_water_revision: high_water,
        cursor_before: 0,
        cursor_after,
        seed_event_ids: vec![],
        processed_observation_count: 0,
        created_candidate_count: 0,
        started_at: "2024-01-01T00:00:00Z".to_string(),
        finished_at: None,
        error_kind: None,
    }
}

#[test]
fn sleep_cursor_never_passes_the_revision() {
    let run = 0x500;
    let events = vec![
        goal_event(1, 0x100),
        event(
            2,
            HEKATE,
            EventKind::SleepRunStarted,
            Some(EntityRef { kind: EntityKind::SleepRun, id: run }),
            Payload::SleepRun(sleep_run(run, SleepRunStatus::Running, 1, None)),
        ),
        event(
            3,
            HEKATE,
            EventKind::SleepRunCompleted,
            Some(EntityRef { kind: EntityKind::SleepRun, id: run }),
            Payload::SleepRun(sleep_run(run, SleepRunStatus::Completed, 1, Some(1))),
        ),
    ];
    match Projector::replay(events) {
        Ok(state) => {
            assert!(state.sleep_cursor <= state.revision);
            assert_eq!(state.sleep_cursor, 1);
        },
        Err(e) => panic!("replay refused: {}", e.message()),
    }
}

#[test]
fn model_principal_cannot_create_claims() {
    let events = vec![
        principal_event(1, HEKATE, PrincipalKind::Hekate),
        goal_event(2, 0x100),
        task_event(3, 0x200, 0x100),
    ];
    let mut state = Projector::replay(events).ok().expect("replays");
    let claim = event(
        4,
        HEKATE,
        EventKind::CompletionClaimCreated,
        Some(EntityRef { kind: EntityKind::CompletionClaim, id: 0x700 }),
        Payload::Claim(CompletionClaim {
            id: 0x700,
            task_id: 0x200,
            criterion_id: 0x600,
            disposition: VerificationDisposition::NeedsValidation,
            confidence: 50,
            evidence_refs: vec![],
            blocker: None,
            fingerprint: String::new(),
            as_of_sequence: 3,
            supersedes: None,
        }),
    );
    match Projector::apply(&mut state, claim) {
        Err(ProjectionError::InvalidPayload { reason, .. }) => {
            assert!(matches!(reason, Rejection::ModelCannotCreateClaims));
        },
        _ => panic!("the model's claim must be refused"),
    }
    assert_eq!(state.revision, 3);
}
