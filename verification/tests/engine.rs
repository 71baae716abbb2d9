use hekate::engine::{
    capability_gate, check_memory_candidate, plan_approval_resolution, plan_execution,
    plan_memory_rejection, plan_memory_status, plan_promotion, settle_execution,
    CapabilityOutcome, Engine, EngineError, ExecutionPlan, PolicyDecision, next_working_state,
    plan_action, repeated_answer, BootstrapStep, PolicyEngine, WorkingState,
};
use hekate::recovery::RecoveryError;
use hekate::model::{
    ActionIntent, ActiveMemory, ActiveMemoryStatus, Approval, ApprovalStatus, EntityKind,
    EntityRef, MemoryCandidate, MemoryCandidateStatus, MemoryKind, Observation, Operation,
    OperationStatus, Record, VerificationStatus, IdentityVersion, PrincipalKind,
};
use hekate::projector::Projector;
use hekate::state::{CurrentState, EventKind, ExperienceEvent, Payload};

const HASH: &str = "0000000000000000000000000000000000000000000000000000000000000000";
const USER: u128 = 0x11;
const HEKATE: u128 = 0x22;

fn event(id: u128, kind: EventKind, subject: Option<EntityRef>, payload: Payload) -> ExperienceEvent {
    ExperienceEvent {
        event_id: id,
        actor_id: USER,
        event_kind: kind,
        subject,
        source_type: "test".to_string(),
        source_ref: None,
        correlation_id: None,
        causation_id: None,
        integrity_hash: String::new(),
        canonical_hash: HASH.to_string(),
        payload,
    }
}

fn apply(state: &mut CurrentState, e: ExperienceEvent) {
    if let Err(err) = Projector::apply(state, e) {
        panic!("refused: {}", err.message());
    }
}

fn observation(actor: u128, content: &str) -> Observation {
    Observation {
        id: 0x777,
        actor_id: actor,
        content: content.to_string(),
        thread_id: None,
        message_id: None,
        source_type: "cli".to_string(),
        source_ref: None,
    }
}

fn policy(allowed: bool, requires_approval: bool) -> PolicyDecision {
    PolicyDecision { allowed, requires_approval, reason: "writes need approval".to_string() }
}

fn with_operation(status: OperationStatus, approval: Option<(u128, ApprovalStatus)>) -> CurrentState {
    let mut state = CurrentState::empty();
    apply(&mut state, event(1, EventKind::ActionIntentCreated, None, Payload::Record(Record { id: 0x40, body: "{}".to_string() })));
    apply(
        &mut state,
        event(
            2,
            EventKind::OperationPlanned,
            Some(EntityRef { kind: EntityKind::Operation, id: 0x50 }),
            Payload::Operation(Operation { id: 0x50, intent_id: 0x40, status, approval_id: approval.map(|a| a.0) }),
        ),
    );
    if let Some((id, status)) = approval {
        apply(
            &mut state,
            event(3, EventKind::ApprovalRequested, None, Payload::Approval(Approval { id, operation_id: 0x50, status, resolved_by: None })),
        );
    }
    state
}

#[test]
fn observations_must_come_from_the_user_with_content() {
    let engine = Engine::new(HEKATE, USER);
    assert!(engine.check_observation(&observation(USER, "hi")).is_ok());
    match engine.check_observation(&observation(HEKATE, "hi")) {
        Err(EngineError::InvalidObservation(m)) => assert_eq!(m, "observation actor is not the configured user"),
        _ => panic!("expected a refusal"),
    }
    match engine.check_observation(&observation(USER, "   ")) {
        Err(EngineError::InvalidObservation(m)) => assert_eq!(m, "observation content cannot be empty"),
        _ => panic!("expected a refusal"),
    }
    match Engine::new(USER, USER).check_observation(&observation(USER, "hi")) {
        Err(EngineError::InvalidObservation(m)) => assert_eq!(m, "user and HEKATE must be different principals"),
        _ => panic!("expected a refusal"),
    }
}

#[test]
fn planned_operation_is_authorized_then_started() {
    let state = with_operation(OperationStatus::Planned, None);
    match plan_execution(&state, 0x50, &policy(true, false)) {
        Ok(ExecutionPlan::Start { authorize_first, intent_id }) => {
            assert!(authorize_first);
            assert_eq!(intent_id, 0x40);
        },
        _ => panic!("expected a start"),
    }
}

#[test]
fn execution_refusals() {
    let state = with_operation(OperationStatus::Started, None);
    match plan_execution(&state, 0x50, &policy(true, false)) {
        Err(EngineError::InvalidOperation(m)) => assert_eq!(m, "started or unknown operations require reconciliation before execution"),
        _ => panic!("expected a refusal"),
    }
    let state = with_operation(OperationStatus::Planned, None);
    match plan_execution(&state, 0x51, &policy(true, false)) {
        Err(EngineError::NotFound(m)) => assert_eq!(m, "operation 00000000-0000-0000-0000-000000000051"),
        _ => panic!("expected not found"),
    }
    match plan_execution(&state, 0x50, &policy(false, false)) {
        Err(EngineError::PolicyDenied(m)) => assert_eq!(m, "writes need approval"),
        _ => panic!("expected a denial"),
    }
    match plan_execution(&state, 0x50, &policy(true, true)) {
        Err(EngineError::InvalidOperation(m)) => assert_eq!(m, "operation has no approval"),
        _ => panic!("expected a refusal"),
    }
    let pending = with_operation(OperationStatus::Planned, Some((0x60, ApprovalStatus::Pending)));
    match plan_execution(&pending, 0x50, &policy(true, true)) {
        Err(EngineError::InvalidOperation(m)) => assert_eq!(m, "operation requires an approved request"),
        _ => panic!("expected a refusal"),
    }
    let approved = with_operation(OperationStatus::Authorized, Some((0x60, ApprovalStatus::Approved)));
    assert!(matches!(
        plan_execution(&approved, 0x50, &policy(true, true)),
        Ok(ExecutionPlan::Start { authorize_first: false, .. })
    ));
    let mut done = with_operation(OperationStatus::Succeeded, None);
    match plan_execution(&done, 0x50, &policy(false, false)) {
        Err(EngineError::InvalidOperation(m)) => assert_eq!(m, "operation has no receipt"),
        _ => panic!("a finished operation without a receipt is refused"),
    }
    let body = r#"{"operation_id":"00000000-0000-0000-0000-000000000050","output":"ok"}"#;
    apply(&mut done, event(9, EventKind::ReceiptRecorded, None, Payload::Record(Record { id: 0x70, body: body.to_string() })));
    match plan_execution(&done, 0x50, &policy(false, false)) {
        Ok(ExecutionPlan::Finished { receipt }) => {
            assert_eq!(receipt.id, 0x70);
            assert_eq!(receipt.body, body);
        },
        _ => panic!("a finished operation returns its receipt"),
    }
}

#[test]
fn approval_releases_or_fails_its_operation() {
    let state = with_operation(OperationStatus::Planned, Some((0x60, ApprovalStatus::Pending)));
    let yes = plan_approval_resolution(&state, 0x60, true, USER).ok().expect("resolves");
    assert_eq!(yes.approval.status, ApprovalStatus::Approved);
    assert_eq!(yes.approval.resolved_by, Some(USER));
    assert_eq!(yes.operation.status, OperationStatus::Authorized);
    assert_eq!(yes.operation_event, EventKind::OperationAuthorized);
    let no = plan_approval_resolution(&state, 0x60, false, USER).ok().expect("resolves");
    assert_eq!(no.approval.status, ApprovalStatus::Denied);
    assert_eq!(no.operation.status, OperationStatus::Failed);
    assert_eq!(no.operation_event, EventKind::OperationFailed);
    let resolved = with_operation(OperationStatus::Planned, Some((0x60, ApprovalStatus::Approved)));
    match plan_approval_resolution(&resolved, 0x60, true, USER) {
        Err(EngineError::InvalidOperation(m)) => assert_eq!(m, "approval is already resolved"),
        _ => panic!("expected a refusal"),
    }
    let started = with_operation(OperationStatus::Started, Some((0x60, ApprovalStatus::Pending)));
    assert!(matches!(
        plan_approval_resolution(&started, 0x60, true, USER),
        Err(EngineError::Transition { from: OperationStatus::Started, to: OperationStatus::Authorized })
    ));
}

#[test]
fn settlements() {
    let ok = settle_execution(CapabilityOutcome::Completed { verified: true });
    assert_eq!(ok.status, OperationStatus::Succeeded);
    assert_eq!(ok.verification, Some(VerificationStatus::Verified));
    assert!(ok.artifact_from_output);
    let unverified = settle_execution(CapabilityOutcome::Completed { verified: false });
    assert_eq!(unverified.status, OperationStatus::Unknown);
    assert_eq!(unverified.outcome_event, EventKind::OperationStateUnknown);
    let unknown = settle_execution(CapabilityOutcome::OutcomeUnknown);
    assert!(!unknown.finished);
    let failed = settle_execution(CapabilityOutcome::Failed);
    assert_eq!(failed.status, OperationStatus::Failed);
    assert_eq!(failed.verification, Some(VerificationStatus::Failed));
}

#[test]
fn capability_gate_needs_a_matching_operation_and_no_approval() {
    let intent = ActionIntent {
        id: 1,
        capability: "fs".to_string(),
        operation: "write".to_string(),
        target: "notes.md".to_string(),
        arguments: "{}".to_string(),
        expected_effect: "a file".to_string(),
        preconditions: vec![],
        proposed_by_event: None,
    };
    assert!(capability_gate(&intent, Some("write"), &policy(true, false)).is_ok());
    assert!(matches!(capability_gate(&intent, Some("read"), &policy(true, false)), Err(EngineError::InvalidOperation(_))));
    match capability_gate(&intent, Some("write"), &policy(true, true)) {
        Err(EngineError::PolicyDenied(m)) => assert_eq!(m, "explicit approval is required before capability execution"),
        _ => panic!("expected a denial"),
    }
}

fn with_memories() -> CurrentState {
    let mut state = CurrentState::empty();
    apply(
        &mut state,
        event(
            1,
            EventKind::MemoryCandidateCreated,
            None,
            Payload::MemoryCandidate(MemoryCandidate {
                id: 0x70,
                kind: MemoryKind::ExplicitPreference,
                content: "likes green tea".to_string(),
                subject_principal_id: Some(USER),
                status: MemoryCandidateStatus::Candidate,
                source_event_ids: vec![],
            }),
        ),
    );
    apply(
        &mut state,
        event(
            2,
            EventKind::MemoryPromoted,
            None,
            Payload::Memory(ActiveMemory {
                id: 0x80,
                candidate_id: 0x71,
                kind: MemoryKind::InferredPreference,
                content: "likes tea".to_string(),
                subject_principal_id: Some(USER),
                status: ActiveMemoryStatus::Active,
                source_event_ids: vec![],
            }),
        ),
    );
    state
}

#[test]
fn explicit_preference_supersedes_inferred_one() {
    let state = with_memories();
    let p = plan_promotion(&state, 0x70, 0x81).ok().expect("promotes");
    assert_eq!(p.memory.id, 0x81);
    assert_eq!(p.memory.candidate_id, 0x70);
    assert_eq!(p.memory.status, ActiveMemoryStatus::Active);
    let old = p.superseded.expect("supersedes");
    assert_eq!(old.id, 0x80);
    assert_eq!(old.status, ActiveMemoryStatus::Superseded);
    match plan_promotion(&state, 0x99, 0x81) {
        Err(EngineError::NotFound(m)) => assert_eq!(m, "memory candidate 00000000-0000-0000-0000-000000000099"),
        _ => panic!("expected not found"),
    }
}

#[test]
fn memory_lifecycle_refusals() {
    let state = with_memories();
    let rejected = plan_memory_rejection(&state, 0x70).ok().expect("rejects");
    assert_eq!(rejected.status, MemoryCandidateStatus::Rejected);
    let expired = plan_memory_status(&state, 0x80, ActiveMemoryStatus::Expired).ok().expect("expires");
    assert_eq!(expired.status, ActiveMemoryStatus::Expired);
    match plan_memory_status(&state, 0x81, ActiveMemoryStatus::Expired) {
        Err(EngineError::NotFound(m)) => assert_eq!(m, "memory 00000000-0000-0000-0000-000000000081"),
        _ => panic!("expected not found"),
    }
    assert!(check_memory_candidate("tea", 50).is_ok());
    match check_memory_candidate("tea", 101) {
        Err(EngineError::InvalidObservation(m)) => assert_eq!(m, "memory confidence must be between 0 and 100"),
        _ => panic!("expected a refusal"),
    }
    match check_memory_candidate(" ", 50) {
        Err(EngineError::InvalidObservation(m)) => assert_eq!(m, "memory content cannot be empty"),
        _ => panic!("expected a refusal"),
    }
}

#[test]
fn new_focus_titles_from_the_message() {
    let engine = Engine::new(HEKATE, USER);
    let f = engine.plan_new_focus(&observation(USER, ""), 1, 2, 3, 4, "now");
    assert_eq!(f.goal.title, "Untitled goal");
    assert_eq!(f.task.title, "");
    let long = "x".repeat(90);
    let f = engine.plan_new_focus(&observation(USER, &long), 1, 2, 3, 4, "now");
    assert_eq!(f.task.title.chars().count(), 80);
    assert_eq!(f.goal.participants, vec![USER, HEKATE]);
    assert_eq!(f.focus.run_id, Some(3));
    assert_eq!(f.attempt.run_id, 3);
}

fn write_intent() -> ActionIntent {
    ActionIntent {
        id: 0x61,
        capability: "workspace".to_string(),
        operation: "write".to_string(),
        target: "notes.md".to_string(),
        arguments: "{}".to_string(),
        expected_effect: "a note".to_string(),
        preconditions: vec![],
        proposed_by_event: None,
    }
}

#[test]
fn a_proposed_action_is_planned_under_the_policy() {
    let denied = plan_action(&write_intent(), &PolicyDecision { allowed: false, requires_approval: false, reason: "read only".to_string() }, 0x51, 0x41);
    match denied {
        Err(EngineError::PolicyDenied(m)) => assert_eq!(m, "read only"),
        _ => panic!("expected a denial"),
    }
    let direct = plan_action(&write_intent(), &PolicyDecision { allowed: true, requires_approval: false, reason: "ok".to_string() }, 0x51, 0x41)
        .ok()
        .expect("planned");
    assert_eq!(direct.operation.id, 0x51);
    assert_eq!(direct.operation.intent_id, 0x61);
    assert_eq!(direct.operation.status, OperationStatus::Planned);
    assert_eq!(direct.operation.approval_id, None);
    assert!(direct.approval.is_none());
    let gated = plan_action(&write_intent(), &PolicyDecision { allowed: true, requires_approval: true, reason: "writes need approval".to_string() }, 0x51, 0x41)
        .ok()
        .expect("planned");
    assert_eq!(gated.operation.approval_id, Some(0x41));
    let approval = gated.approval.expect("approval");
    assert_eq!(approval.id, 0x41);
    assert_eq!(approval.operation_id, 0x51);
    assert_eq!(approval.status, ApprovalStatus::Pending);
    assert_eq!(gated.approval_reason, Some("writes need approval".to_string()));
}

#[test]
fn the_working_state_advances_once_per_interaction() {
    let first = next_working_state(None, 0x90, 0x30, 0x700, "book the train");
    assert_eq!(first.id, 0x90);
    assert_eq!(first.run_id, 0x30);
    assert_eq!(first.revision, 1);
    assert_eq!(first.completed_observations, vec![0x700]);
    assert_eq!(first.next_action, Some("book the train".to_string()));
    let again = next_working_state(Some(&first), 0x91, 0x30, 0x700, "pack");
    assert_eq!(again.id, 0x90);
    assert_eq!(again.revision, 2);
    assert_eq!(again.completed_observations, vec![0x700]);
    let next = next_working_state(Some(&again), 0x92, 0x30, 0x701, "go");
    assert_eq!(next.completed_observations, vec![0x700, 0x701]);
    let _unused: Option<WorkingState> = None;
}

struct FixedPolicy;

impl PolicyEngine for FixedPolicy {
    fn decision(&self, actor_id: u128, intent: ActionIntent) -> Result<PolicyDecision, String> {
        self.evaluate(actor_id, &intent)
    }

    fn evaluate(&self, _actor_id: u128, intent: &ActionIntent) -> Result<PolicyDecision, String> {
        if intent.operation == "write" {
            Ok(PolicyDecision { allowed: true, requires_approval: true, reason: "writes need approval".to_string() })
        } else {
            Err("unknown operation".to_string())
        }
    }
}

#[test]
fn authorization_asks_the_policy() {
    let engine = Engine::new(HEKATE, USER);
    let d = engine.authorize(&FixedPolicy, HEKATE, &write_intent()).ok().expect("decided");
    assert!(d.allowed && d.requires_approval);
    let mut other = write_intent();
    other.operation = "delete".to_string();
    match engine.authorize(&FixedPolicy, HEKATE, &other) {
        Err(EngineError::Policy(m)) => assert_eq!(m, "unknown operation"),
        _ => panic!("expected a policy failure"),
    }
}

#[test]
fn the_engine_reports_recovery_refusals_as_its_own() {
    let engine = Engine::new(HEKATE, USER);
    let mut stored = CurrentState::empty();
    stored.revision = 1;
    match engine.recovery_report(&stored, vec![]) {
        Err(EngineError::Recovery(RecoveryError::RevisionMismatch { stored, ledger })) => {
            assert_eq!(stored, 1);
            assert_eq!(ledger, 0);
        },
        _ => panic!("expected a revision mismatch"),
    }
    let report = engine.recovery_report(&CurrentState::empty(), vec![]).ok().expect("verified");
    assert_eq!(report.revision, 0);
    assert!(report.active_runs.is_empty());
}

#[test]
fn bootstrap_creates_principals_identity_and_relationship_in_order() {
    let engine = Engine::new(HEKATE, USER);
    let mut state = CurrentState::empty();
    let mut id: u128 = 100;
    let mut steps: Vec<&str> = Vec::new();
    while let Some(step) = engine.next_bootstrap_step(&state, 0x900) {
        id += 1;
        match step {
            BootstrapStep::HekatePrincipal(p) => {
                assert_eq!((p.id, p.kind, p.name.as_str(), p.identity_version_id), (HEKATE, PrincipalKind::Hekate, "HEKATE", None));
                steps.push("hekate");
                apply(&mut state, event(id, EventKind::PrincipalCreated, Some(EntityRef { kind: EntityKind::Principal, id: p.id }), Payload::Principal(p)));
            }
            BootstrapStep::UserPrincipal(p) => {
                assert_eq!((p.id, p.kind, p.name.as_str()), (USER, PrincipalKind::User, "User"));
                steps.push("user");
                apply(&mut state, event(id, EventKind::PrincipalCreated, Some(EntityRef { kind: EntityKind::Principal, id: p.id }), Payload::Principal(p)));
            }
            BootstrapStep::Identity { id: iv, principal_id } => {
                assert_eq!((iv, principal_id), (0x900, HEKATE));
                steps.push("identity");
                let version = IdentityVersion { id: iv, principal_id, body: "{}".to_string() };
                apply(&mut state, event(id, EventKind::IdentityVersionCreated, Some(EntityRef { kind: EntityKind::IdentityVersion, id: iv }), Payload::IdentityVersion(version)));
            }
            BootstrapStep::Relationship(r) => {
                assert_eq!((r.id, r.participants.clone()), (0x900, vec![USER, HEKATE]));
                steps.push("relationship");
                apply(&mut state, event(id, EventKind::RelationshipCreated, Some(EntityRef { kind: EntityKind::Relationship, id: r.id }), Payload::Relationship(r)));
            }
        }
        assert!(steps.len() <= 4);
    }
    assert_eq!(steps, vec!["hekate", "user", "identity", "relationship"]);
}

#[test]
fn a_repeated_message_gets_the_earlier_decision() {
    fn message(id: u128, source_ref: &str) -> Observation {
        let mut o = observation(USER, "hello");
        o.id = id;
        o.message_id = Some("m-1".to_string());
        o.source_ref = Some(source_ref.to_string());
        o
    }
    fn recorded() -> ExperienceEvent {
        event(1, EventKind::ObservationRecorded, Some(EntityRef { kind: EntityKind::Observation, id: 0x701 }), Payload::Observation(message(0x701, "chat-1")))
    }
    fn decided() -> ExperienceEvent {
        let mut e = event(2, EventKind::DecisionCreated, None, Payload::Record(Record { id: 0x900, body: "{}".to_string() }));
        e.correlation_id = Some("00000000-0000-0000-0000-000000000701".to_string());
        e
    }
    let mut state = CurrentState::empty();
    apply(&mut state, recorded());
    let again = message(0x702, "chat-1");
    match repeated_answer(&state, &[recorded()], &again) {
        Some(Err(EngineError::InvalidObservation(m))) => assert_eq!(m, "duplicate external message has no completed decision"),
        _ => panic!("no decision yet"),
    }
    apply(&mut state, decided());
    let ledger = vec![recorded(), decided()];
    match repeated_answer(&state, &ledger, &again) {
        Some(Ok(a)) => {
            assert_eq!((a.observation_id, a.decision.id, a.revision), (0x701, 0x900, 2));
            assert!(a.operation_id.is_none() && a.approval_id.is_none());
        },
        _ => panic!("the earlier decision answers"),
    }
    assert!(repeated_answer(&state, &ledger, &message(0x703, "chat-2")).is_none());
}
