use hekate::integration::candidate_fingerprint;
use hekate::memory_integration::plan_integration_transition;
use hekate::model::{
    EntityKind, EntityRef, EvidenceRef, IntegrationCandidate, IntegrationCandidateKind,
    IntegrationVerification, Observation, Position, PositionIntegrationActionKind,
    PositionIntegrationMaterialization, PositionIntegrationOperation, PositionStatus, Principal,
    PrincipalKind, SleepRun, SleepRunStatus, Stance, VerificationDisposition,
};
use hekate::position_integration::apply_position_integration;
use hekate::projector::Projector;
use hekate::state::{CurrentState, EventKind, ExperienceEvent, Payload};

const HASH: &str = "0000000000000000000000000000000000000000000000000000000000000000";
const USER: u128 = 0x11;
const HEKATE: u128 = 0x22;
const RUN: u128 = 0x500;
const CANDIDATE: u128 = 0x600;
const POSITION: u128 = 0x900;
const CONTENT: &str = "establish: tea is better than coffee";

fn event(id: u128, actor: u128, kind: EventKind, subject: Option<EntityRef>, payload: Payload) -> ExperienceEvent {
    ExperienceEvent {
        event_id: id,
        actor_id: actor,
        event_kind: kind,
        subject,
        source_type: "test".to_string(),
        source_ref: None,
        correlation_id: None,
        causation_id: None,
        integrity_hash: String::new(),
        canonical_hash: HASH.to_string(),
        payload,
    }
}

fn candidate() -> IntegrationCandidate {
    let sources = vec![3u128];
    let counters: Vec<u128> = vec![];
    IntegrationCandidate {
        id: CANDIDATE,
        sleep_run_id: RUN,
        kind: IntegrationCandidateKind::Position,
        disposition: VerificationDisposition::NeedsValidation,
        content: CONTENT.to_string(),
        rationale: "argued twice".to_string(),
        fingerprint: candidate_fingerprint(IntegrationCandidateKind::Position, CONTENT, &sources, &counters),
        source_event_ids: sources,
        counterevidence_event_ids: counters,
        confidence: 70,
        as_of_revision: 3,
    }
}

fn ledger() -> Vec<ExperienceEvent> {
    vec![
        event(1, USER, EventKind::PrincipalCreated, None, Payload::Principal(Principal { id: USER, kind: PrincipalKind::User, name: "User".to_string(), identity_version_id: None })),
        event(2, HEKATE, EventKind::PrincipalCreated, None, Payload::Principal(Principal { id: HEKATE, kind: PrincipalKind::Hekate, name: "HEKATE".to_string(), identity_version_id: None })),
        event(
            3,
            USER,
            EventKind::ObservationRecorded,
            Some(EntityRef { kind: EntityKind::Observation, id: 0x700 }),
            Payload::Observation(Observation {
                id: 0x700,
                actor_id: USER,
                content: "tea is better".to_string(),
                thread_id: None,
                message_id: None,
                source_type: "cli".to_string(),
                source_ref: None,
            }),
        ),
        event(
            4,
            HEKATE,
            EventKind::SleepRunStarted,
            Some(EntityRef { kind: EntityKind::SleepRun, id: RUN }),
            Payload::SleepRun(SleepRun {
                id: RUN,
                status: SleepRunStatus::Running,
                high_water_revision: 3,
                cursor_before: 0,
                cursor_after: None,
                seed_event_ids: vec![3],
                processed_observation_count: 0,
                created_candidate_count: 0,
                started_at: "2024-01-01T00:00:00Z".to_string(),
                finished_at: None,
                error_kind: None,
            }),
        ),
        event(
            5,
            HEKATE,
            EventKind::IntegrationCandidateCreated,
            Some(EntityRef { kind: EntityKind::IntegrationCandidate, id: CANDIDATE }),
            Payload::IntegrationCandidate(candidate()),
        ),
    ]
}

fn copy_evidence(evidence: &[EvidenceRef]) -> Vec<EvidenceRef> {
    evidence
        .iter()
        .map(|e| EvidenceRef { event_id: e.event_id, artifact_id: e.artifact_id, source_hash: e.source_hash.clone(), as_of_sequence: e.as_of_sequence })
        .collect()
}

fn copy_verdict(v: &IntegrationVerification) -> IntegrationVerification {
    IntegrationVerification {
        candidate_id: v.candidate_id,
        previous_disposition: v.previous_disposition,
        new_disposition: v.new_disposition,
        actor_id: v.actor_id,
        reason: v.reason.clone(),
        evidence_refs: copy_evidence(&v.evidence_refs),
        as_of_revision: v.as_of_revision,
    }
}

/// The state with the Position candidate verified by the user, and the
/// evidence of that verification.
fn verified() -> (CurrentState, Vec<EvidenceRef>) {
    let mut state = match Projector::replay(ledger()) {
        Ok(s) => s,
        Err(e) => panic!("ledger refused: {}", e.message()),
    };
    let t = plan_integration_transition(&state, &ledger(), CANDIDATE, USER, VerificationDisposition::Verified, "agreed", None)
        .ok()
        .expect("planned");
    let evidence = copy_evidence(&t.verification.evidence_refs);
    let verdict = event(
        6,
        USER,
        t.event_kind,
        Some(EntityRef { kind: EntityKind::IntegrationCandidate, id: CANDIDATE }),
        Payload::IntegrationVerification(copy_verdict(&t.verification)),
    );
    match Projector::apply(&mut state, verdict) {
        Ok(()) => {},
        Err(e) => panic!("verdict refused: {}", e.message()),
    }
    (state, evidence)
}

fn position() -> Position {
    Position {
        id: POSITION,
        principal_id: HEKATE,
        subject: "tea".to_string(),
        stance: Stance::Support,
        status: PositionStatus::Active,
        version: 1,
        supersedes: None,
        confidence: 70,
        evidence_refs: vec![3],
        reasons: vec!["it is calmer".to_string()],
        reconsideration_conditions: vec!["new evidence".to_string()],
    }
}

fn materialization(evidence: Vec<EvidenceRef>, position_event_id: u128) -> PositionIntegrationMaterialization {
    let c = candidate();
    PositionIntegrationMaterialization {
        candidate_id: CANDIDATE,
        position_id: POSITION,
        position_event_id,
        verification_event_id: 6,
        action: PositionIntegrationActionKind::Establish,
        prior_position: None,
        source_event_ids: c.source_event_ids,
        counterevidence_event_ids: c.counterevidence_event_ids,
        evidence_refs: evidence,
        fingerprint: c.fingerprint,
        as_of_revision: 3,
    }
}

fn establish(stance: Stance) -> Option<PositionIntegrationOperation> {
    Some(PositionIntegrationOperation::Establish {
        subject: "  tea ".to_string(),
        stance,
        reasons: vec![" it is calmer".to_string()],
        reconsideration_conditions: vec!["new evidence  ".to_string()],
    })
}

fn integration_event(id: u128, actor: u128) -> ExperienceEvent {
    let reference = uuid_text(CANDIDATE);
    ExperienceEvent {
        source_type: "position_integration".to_string(),
        source_ref: Some(reference.clone()),
        correlation_id: Some(reference),
        causation_id: Some(6),
        ..event(
            id,
            actor,
            EventKind::PositionEstablished,
            Some(EntityRef { kind: EntityKind::Position, id: POSITION }),
            Payload::Empty,
        )
    }
}

fn refusal(state: &mut CurrentState, e: &ExperienceEvent, evidence: Vec<EvidenceRef>, proposal: Option<PositionIntegrationOperation>, blocked: bool) -> String {
    let revision = state.revision;
    let m = materialization(evidence, e.event_id);
    let r = apply_position_integration(state, e, position(), m, &proposal, blocked);
    assert_eq!(state.revision, revision);
    match r {
        Ok(()) => panic!("the integration was applied"),
        Err(err) => err.message(),
    }
}

#[test]
fn verified_candidate_establishes_a_position() {
    let (mut state, evidence) = verified();
    let e = integration_event(7, USER);
    let m = materialization(evidence, 7);
    match apply_position_integration(&mut state, &e, position(), m, &establish(Stance::Support), false) {
        Ok(()) => {},
        Err(err) => panic!("integration refused: {}", err.message()),
    }
    assert_eq!(state.revision, 7);
    assert_eq!(state.applied_events.last().copied(), Some(7));
    assert_eq!(state.positions.len(), 1);
    assert_eq!(state.positions[0].subject, "tea");
    assert_eq!(state.position_integration_materializations.len(), 1);
    assert_eq!(state.position_integration_materializations[0].candidate_id, CANDIDATE);
}

#[test]
fn a_candidate_is_integrated_once() {
    let (mut state, evidence) = verified();
    let e = integration_event(7, USER);
    let m = materialization(copy_evidence(&evidence), 7);
    assert!(apply_position_integration(&mut state, &e, position(), m, &establish(Stance::Support), false).is_ok());
    let again = integration_event(8, USER);
    let message = refusal(&mut state, &again, evidence, establish(Stance::Support), false);
    assert_eq!(message, "invalid payload for PositionEstablished: Position candidate has already been materialized");
}

#[test]
fn the_model_cannot_integrate_a_position() {
    let (mut state, evidence) = verified();
    let e = integration_event(7, HEKATE);
    let message = refusal(&mut state, &e, evidence, establish(Stance::Support), false);
    assert_eq!(message, "invalid payload for PositionEstablished: model or unknown actor cannot materialize a Position");
}

#[test]
fn position_must_match_its_proposal() {
    let (mut state, evidence) = verified();
    let e = integration_event(7, USER);
    let message = refusal(&mut state, &e, evidence, establish(Stance::Oppose), false);
    assert_eq!(message, "invalid payload for PositionEstablished: Position does not match its typed proposal");
}

#[test]
fn an_undecodable_proposal_is_refused() {
    let (mut state, evidence) = verified();
    let e = integration_event(7, USER);
    let message = refusal(&mut state, &e, evidence, None, false);
    assert_eq!(message, "invalid payload for PositionEstablished: Position does not match its typed proposal");
}

#[test]
fn an_open_conflict_blocks_the_integration() {
    let (mut state, evidence) = verified();
    let e = integration_event(7, USER);
    let message = refusal(&mut state, &e, evidence, establish(Stance::Support), true);
    assert_eq!(message, "invalid payload for PositionEstablished: an active Position conflict blocks materialization");
}

#[test]
fn integration_provenance_must_name_the_candidate() {
    let (mut state, evidence) = verified();
    let mut e = integration_event(7, USER);
    e.correlation_id = Some("something else".to_string());
    let message = refusal(&mut state, &e, evidence, establish(Stance::Support), false);
    assert_eq!(message, "invalid payload for PositionEstablished: Position integration event provenance does not match candidate");
}

#[test]
fn an_unverified_candidate_cannot_be_integrated() {
    let mut state = match Projector::replay(ledger()) {
        Ok(s) => s,
        Err(e) => panic!("ledger refused: {}", e.message()),
    };
    let e = integration_event(7, USER);
    let message = refusal(&mut state, &e, vec![], establish(Stance::Support), false);
    assert_eq!(message, "invalid payload for PositionEstablished: only a verified Position candidate can be materialized");
}

fn uuid_text(id: u128) -> String {
    uuid::Uuid::from_u128(id).to_string()
}
