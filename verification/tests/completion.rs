use hekate::completion::{
    completion_fingerprint, evaluate_task_completion_in, non_empty, plan_criterion,
    valid_sha256_hex, CompletionError, CompletionGateResult,
};
use hekate::model::{
    CompletionCriterion, EntityKind, EntityRef, EvidenceRef, Goal, GoalStatus, Principal,
    PrincipalKind, Task, TaskStatus,
};
use hekate::projector::Projector;
use hekate::state::{CurrentState, EventKind, ExperienceEvent, Payload};
use sha2::{Digest, Sha256};

const HASH: &str = "0000000000000000000000000000000000000000000000000000000000000000";
const USER: u128 = 0x11;
const HEKATE: u128 = 0x22;
const GOAL: u128 = 0x100;
const TASK: u128 = 0x200;
const CRITERION: u128 = 0x300;

fn event(id: u128, actor: u128, kind: EventKind, subject: Option<EntityRef>, payload: Payload) -> ExperienceEvent {
    ExperienceEvent {
        event_id: id,
        actor_id: actor,
        event_kind: kind,
        subject,
        source_type: "test".to_string(),
        source_ref: None,
        correlation_id: None,
        causation_id: None,
        integrity_hash: String::new(),
        canonical_hash: HASH.to_string(),
        payload,
    }
}

fn base_ledger() -> Vec<ExperienceEvent> {
    vec![
        event(
            1,
            USER,
            EventKind::PrincipalCreated,
            None,
            Payload::Principal(Principal { id: USER, kind: PrincipalKind::User, name: "User".to_string(), identity_version_id: None }),
        ),
        event(
            2,
            HEKATE,
            EventKind::PrincipalCreated,
            None,
            Payload::Principal(Principal { id: HEKATE, kind: PrincipalKind::Hekate, name: "HEKATE".to_string(), identity_version_id: None }),
        ),
        event(
            3,
            USER,
            EventKind::GoalCreated,
            Some(EntityRef { kind: EntityKind::Goal, id: GOAL }),
            Payload::Goal(Goal { id: GOAL, owner_principal_id: USER, participants: vec![USER, HEKATE], title: "Release".to_string(), status: GoalStatus::Active }),
        ),
        event(
            4,
            USER,
            EventKind::TaskCreated,
            Some(EntityRef { kind: EntityKind::Task, id: TASK }),
            Payload::Task(Task { id: TASK, goal_id: Some(GOAL), title: "Write notes".to_string(), status: TaskStatus::InProgress }),
        ),
    ]
}

fn state_of(events: &[ExperienceEvent]) -> CurrentState {
    let mut state = CurrentState::empty();
    for e in events {
        let copy = event(e.event_id, e.actor_id, e.event_kind, e.subject, clone_payload(&e.payload));
        assert!(Projector::apply(&mut state, copy).is_ok());
    }
    state
}

fn clone_payload(p: &Payload) -> Payload {
    match p {
        Payload::Principal(x) => Payload::Principal(Principal { id: x.id, kind: x.kind, name: x.name.clone(), identity_version_id: x.identity_version_id }),
        Payload::Goal(x) => Payload::Goal(Goal { id: x.id, owner_principal_id: x.owner_principal_id, participants: x.participants.clone(), title: x.title.clone(), status: x.status }),
        Payload::Task(x) => Payload::Task(Task { id: x.id, goal_id: x.goal_id, title: x.title.clone(), status: x.status }),
        Payload::Criterion(x) => Payload::Criterion(CompletionCriterion { id: x.id, task_id: x.task_id, description: x.description.clone(), required: x.required }),
        _ => Payload::Empty,
    }
}

fn hex(bytes: &[u8]) -> String {
    bytes.iter().map(|b| format!("{b:02x}")).collect()
}

#[test]
fn criterion_is_trimmed_and_owned_by_the_task() {
    let state = state_of(&base_ledger());
    let c = plan_criterion(&state, USER, TASK, "  Tests pass  ", true, CRITERION).ok().expect("defined");
    assert_eq!(c.description, "Tests pass");
    assert_eq!(c.task_id, TASK);
    assert_eq!(c.id, CRITERION);
    assert!(c.required);
}

#[test]
fn criterion_errors() {
    let state = state_of(&base_ledger());
    assert!(matches!(plan_criterion(&state, USER, 0x999, "x", true, CRITERION), Err(CompletionError::UnknownTask(0x999))));
    assert!(matches!(plan_criterion(&state, HEKATE, TASK, "x", true, CRITERION), Err(CompletionError::ModelCannotVerify)));
    assert!(matches!(plan_criterion(&state, USER, TASK, "   ", true, CRITERION), Err(CompletionError::EmptyCriterionDescription)));
}

#[test]
fn duplicate_criterion_ignores_case_and_space() {
    let mut events = base_ledger();
    events.push(event(
        5,
        USER,
        EventKind::CompletionCriterionDefined,
        Some(EntityRef { kind: EntityKind::CompletionCriterion, id: CRITERION }),
        Payload::Criterion(CompletionCriterion { id: CRITERION, task_id: TASK, description: "Tests pass".to_string(), required: true }),
    ));
    let state = state_of(&events);
    assert!(matches!(plan_criterion(&state, USER, TASK, " TESTS PASS ", true, 0x301), Err(CompletionError::DuplicateCriterion)));
}

#[test]
fn gate_blocks_a_required_criterion_without_claim() {
    let mut events = base_ledger();
    events.push(event(
        5,
        USER,
        EventKind::CompletionCriterionDefined,
        Some(EntityRef { kind: EntityKind::CompletionCriterion, id: CRITERION }),
        Payload::Criterion(CompletionCriterion { id: CRITERION, task_id: TASK, description: "Tests pass".to_string(), required: true }),
    ));
    let state = state_of(&events);
    match evaluate_task_completion_in(&state, &events, TASK) {
        Ok(CompletionGateResult::Blocked { missing_criterion_ids, blockers, .. }) => {
            assert_eq!(missing_criterion_ids, vec![CRITERION]);
            assert_eq!(blockers, vec!["criterion 00000000-0000-0000-0000-000000000300 has no active claim".to_string()]);
        },
        _ => panic!("completion must be blocked"),
    }
}

#[test]
fn gate_is_ready_with_no_required_criteria() {
    let events = base_ledger();
    let state = state_of(&events);
    match evaluate_task_completion_in(&state, &events, TASK) {
        Ok(CompletionGateResult::Ready { verified_claim_ids }) => assert!(verified_claim_ids.is_empty()),
        _ => panic!("completion must be ready"),
    }
    assert!(matches!(evaluate_task_completion_in(&state, &events, 0x999), Err(CompletionError::UnknownTask(0x999))));
}

#[test]
fn fingerprint_is_sha256_of_canonical_text() {
    let evidence = vec![EvidenceRef { event_id: 4, artifact_id: None, source_hash: HASH.to_string(), as_of_sequence: 4 }];
    let text = format!(
        "completion:00000000-0000-0000-0000-000000000200:00000000-0000-0000-0000-000000000300:00000000-0000-0000-0000-000000000004/-/{HASH}/4"
    );
    let expected = hex(&Sha256::digest(text.as_bytes()));
    assert_eq!(completion_fingerprint(TASK, CRITERION, &evidence), expected);
    assert_ne!(completion_fingerprint(TASK, CRITERION, &evidence), text);
}

#[test]
fn sha256_hex_is_64_lower_hex_digits() {
    assert!(valid_sha256_hex(HASH));
    assert!(!valid_sha256_hex("ABC"));
    assert!(!valid_sha256_hex(&"A".repeat(64)));
}

#[test]
fn non_empty_trims() {
    assert_eq!(non_empty("  done "), Some("done".to_string()));
    assert_eq!(non_empty(" \t "), None);
}

#[test]
fn error_messages() {
    assert_eq!(CompletionError::UnknownTask(TASK).message(), "unknown task 00000000-0000-0000-0000-000000000200");
    assert_eq!(CompletionError::InvalidConfidence(120).message(), "confidence must be between 0 and 100");
    assert_eq!(
        CompletionError::StaleRevision { expected: 4, actual: 7 }.message(),
        "stale revision: expected 4, actual 7"
    );
}
