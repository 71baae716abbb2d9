use hekate::deliberation::{validate_judgment, JudgmentValidationError};
use hekate::model::{
    ActionIntent, Conflict, ConflictStatus, Decision, DecisionKind, Focus, Observation, Position,
    PositionStatus, Stance, ThoughtContext,
};
use hekate::state::CurrentState;

const USER: u128 = 0x11;
const HEKATE: u128 = 0x22;

fn observation() -> Observation {
    Observation {
        id: 0x700,
        actor_id: USER,
        content: "should we take the train?".to_string(),
        thread_id: None,
        message_id: None,
        source_type: "cli".to_string(),
        source_ref: None,
    }
}

fn context() -> ThoughtContext {
    ThoughtContext {
        event_sequence: 3,
        observation: observation(),
        focus: Focus::unattached(),
        positions: vec![],
        user_positions: vec![],
        conflicts: vec![],
        recent_event_ids: vec![1, 2, 3],
        recalled_event_ids: vec![],
        identity: None,
        relationship: None,
        goal: None,
        task: None,
        run: None,
        memories: vec![],
        memory_candidates: vec![],
        pending_approvals: vec![],
        artifacts: vec![],
        available_capabilities: vec![],
        output_schema: String::new(),
        context_snapshot: None,
        snapshot_hash: "hash".to_string(),
    }
}

fn decision() -> Decision {
    Decision {
        id: 0x900,
        kind: DecisionKind::Respond,
        message: "Yes, the train.".to_string(),
        target_principal_id: Some(USER),
        request: "should we take the train?".to_string(),
        context_hash: "hash".to_string(),
        confidence: 70,
        reasons: vec!["cheaper".to_string()],
        evidence_refs: vec![3],
        alternatives: vec![],
        reconsideration_conditions: vec![],
        unresolved_questions: vec![],
        related_position_ids: vec![],
        user_position: None,
        cognitive_trace_id: None,
        position: None,
        conflict: None,
        action: None,
    }
}

fn position(id: u128, principal: u128, stance: Stance) -> Position {
    Position {
        id,
        principal_id: principal,
        subject: "travel".to_string(),
        stance,
        status: PositionStatus::Active,
        version: 1,
        supersedes: None,
        confidence: 60,
        evidence_refs: vec![3],
        reasons: vec!["reason".to_string()],
        reconsideration_conditions: vec![],
    }
}

fn check(d: &Decision) -> Result<(), JudgmentValidationError> {
    validate_judgment(&context(), &CurrentState::empty(), &vec![1, 2, 3], d, HEKATE)
}

#[test]
fn a_grounded_decision_is_accepted() {
    assert_eq!(check(&decision()), Ok(()));
}

#[test]
fn decision_refusals_in_order() {
    let mut d = decision();
    d.target_principal_id = Some(HEKATE);
    assert_eq!(check(&d), Err(JudgmentValidationError::InvalidTarget));
    let mut d = decision();
    d.context_hash = "other".to_string();
    assert_eq!(check(&d), Err(JudgmentValidationError::ContextHashMismatch));
    let mut d = decision();
    d.message = "   ".to_string();
    assert_eq!(check(&d), Err(JudgmentValidationError::EmptyResponse));
    let mut d = decision();
    d.confidence = 101;
    assert_eq!(check(&d), Err(JudgmentValidationError::ConfidenceOutOfRange));
    let mut d = decision();
    d.evidence_refs = vec![3, 9, 8];
    assert_eq!(check(&d), Err(JudgmentValidationError::UnknownEvent(9)));
    let mut d = decision();
    d.related_position_ids = vec![0x55];
    assert_eq!(check(&d), Err(JudgmentValidationError::UnknownPosition(0x55)));
}

#[test]
fn positions_must_belong_to_their_principal_and_be_new_or_revisions() {
    let mut d = decision();
    d.position = Some(position(0x400, USER, Stance::Support));
    assert_eq!(check(&d), Err(JudgmentValidationError::WrongPositionPrincipal));
    let mut d = decision();
    let mut p = position(0x400, HEKATE, Stance::Support);
    p.version = 2;
    d.position = Some(p);
    assert_eq!(check(&d), Err(JudgmentValidationError::InvalidPositionRevision));
    let mut d = decision();
    d.position = Some(position(0x400, HEKATE, Stance::Support));
    assert_eq!(check(&d), Ok(()));
}

fn conflict(status: ConflictStatus) -> Conflict {
    Conflict {
        id: 0x600,
        subject: "travel".to_string(),
        status,
        revision: 1,
        participant_positions: vec![0x400, 0x401],
        evidence_refs: vec![3],
        reasons: vec!["cost".to_string()],
        reconsideration_conditions: vec!["new prices".to_string()],
        unresolved_questions: vec!["budget?".to_string()],
        resolution: None,
    }
}

#[test]
fn conflicts_need_both_sides_and_complete_records() {
    let mut d = decision();
    d.position = Some(position(0x400, HEKATE, Stance::Support));
    d.user_position = Some(position(0x401, USER, Stance::Oppose));
    d.conflict = Some(conflict(ConflictStatus::Open));
    assert_eq!(check(&d), Ok(()));

    let mut c = conflict(ConflictStatus::Open);
    c.participant_positions = vec![0x400];
    d.conflict = Some(c);
    assert_eq!(check(&d), Err(JudgmentValidationError::ConflictParticipants));

    let mut c = conflict(ConflictStatus::Open);
    c.participant_positions = vec![0x400, 0x402];
    d.conflict = Some(c);
    assert_eq!(check(&d), Err(JudgmentValidationError::ConflictUnknownPosition(0x402)));

    let mut c = conflict(ConflictStatus::Open);
    c.unresolved_questions = vec![];
    d.conflict = Some(c);
    assert_eq!(check(&d), Err(JudgmentValidationError::IncompleteConflict));

    d.conflict = Some(conflict(ConflictStatus::AcceptedDisagreement));
    assert_eq!(check(&d), Err(JudgmentValidationError::IncompleteResolution));

    d.conflict = Some(conflict(ConflictStatus::Resolved));
    assert_eq!(check(&d), Err(JudgmentValidationError::InvalidConflictRevision));
}

#[test]
fn actions_need_a_capability_operation_and_target() {
    let mut d = decision();
    d.action = Some(ActionIntent {
        id: 0x61,
        capability: "workspace".to_string(),
        operation: " ".to_string(),
        target: "notes.md".to_string(),
        arguments: "{}".to_string(),
        expected_effect: "a note".to_string(),
        preconditions: vec![],
        proposed_by_event: None,
    });
    assert_eq!(check(&d), Err(JudgmentValidationError::IncompleteAction));
}
