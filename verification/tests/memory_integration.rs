use hekate::integration::candidate_fingerprint;
use hekate::memory_integration::{
    commit_materialization, materialization_events, materialization_plan, plan_integration_transition, IntegrationError, MemoryIntegration,
};
use hekate::model::{
    EntityKind, EntityRef, EvidenceRef, IntegrationCandidate, IntegrationCandidateKind,
    IntegrationVerification, MemoryKind, Observation, Principal, PrincipalKind, SleepRun,
    SleepRunStatus, VerificationDisposition,
};
use hekate::projector::Projector;
use hekate::state::{CurrentState, EventKind, ExperienceEvent, Payload};
use sha2::{Digest, Sha256};

const HASH: &str = "0000000000000000000000000000000000000000000000000000000000000000";
const USER: u128 = 0x11;
const HEKATE: u128 = 0x22;
const RUN: u128 = 0x500;
const CANDIDATE: u128 = 0x600;

fn event(id: u128, actor: u128, kind: EventKind, subject: Option<EntityRef>, payload: Payload) -> ExperienceEvent {
    ExperienceEvent {
        event_id: id,
        actor_id: actor,
        event_kind: kind,
        subject,
        source_type: "test".to_string(),
        source_ref: None,
        correlation_id: None,
        causation_id: None,
        integrity_hash: String::new(),
        canonical_hash: HASH.to_string(),
        payload,
    }
}

fn candidate() -> IntegrationCandidate {
    let sources = vec![3u128];
    let counters: Vec<u128> = vec![];
    IntegrationCandidate {
        id: CANDIDATE,
        sleep_run_id: RUN,
        kind: IntegrationCandidateKind::Memory,
        disposition: VerificationDisposition::NeedsValidation,
        content: "Prefers tea".to_string(),
        rationale: "said so twice".to_string(),
        fingerprint: candidate_fingerprint(IntegrationCandidateKind::Memory, "Prefers tea", &sources, &counters),
        source_event_ids: sources,
        counterevidence_event_ids: counters,
        confidence: 80,
        as_of_revision: 3,
    }
}

fn ledger() -> Vec<ExperienceEvent> {
    vec![
        event(1, USER, EventKind::PrincipalCreated, None, Payload::Principal(Principal { id: USER, kind: PrincipalKind::User, name: "User".to_string(), identity_version_id: None })),
        event(2, HEKATE, EventKind::PrincipalCreated, None, Payload::Principal(Principal { id: HEKATE, kind: PrincipalKind::Hekate, name: "HEKATE".to_string(), identity_version_id: None })),
        event(
            3,
            USER,
            EventKind::ObservationRecorded,
            Some(EntityRef { kind: EntityKind::Observation, id: 0x700 }),
            Payload::Observation(Observation {
                id: 0x700,
                actor_id: USER,
                content: "I prefer tea".to_string(),
                thread_id: None,
                message_id: None,
                source_type: "cli".to_string(),
                source_ref: None,
            }),
        ),
        event(
            4,
            HEKATE,
            EventKind::SleepRunStarted,
            Some(EntityRef { kind: EntityKind::SleepRun, id: RUN }),
            Payload::SleepRun(SleepRun {
                id: RUN,
                status: SleepRunStatus::Running,
                high_water_revision: 3,
                cursor_before: 0,
                cursor_after: None,
                seed_event_ids: vec![3],
                processed_observation_count: 0,
                created_candidate_count: 0,
                started_at: "2024-01-01T00:00:00Z".to_string(),
                finished_at: None,
                error_kind: None,
            }),
        ),
        event(
            5,
            HEKATE,
            EventKind::IntegrationCandidateCreated,
            Some(EntityRef { kind: EntityKind::IntegrationCandidate, id: CANDIDATE }),
            Payload::IntegrationCandidate(candidate()),
        ),
    ]
}

fn state() -> CurrentState {
    match Projector::replay(ledger()) {
        Ok(s) => s,
        Err(e) => panic!("ledger refused: {}", e.message()),
    }
}

fn copy_verdict(v: &IntegrationVerification) -> IntegrationVerification {
    IntegrationVerification {
        candidate_id: v.candidate_id,
        previous_disposition: v.previous_disposition,
        new_disposition: v.new_disposition,
        actor_id: v.actor_id,
        reason: v.reason.clone(),
        evidence_refs: v
            .evidence_refs
            .iter()
            .map(|e| EvidenceRef { event_id: e.event_id, artifact_id: e.artifact_id, source_hash: e.source_hash.clone(), as_of_sequence: e.as_of_sequence })
            .collect(),
        as_of_revision: v.as_of_revision,
    }
}

#[test]
fn fingerprint_is_sha256_of_candidate_text() {
    let text = "integration:memory:Prefers tea:source/00000000-0000-0000-0000-000000000003";
    let expected: String = Sha256::digest(text.as_bytes()).iter().map(|b| format!("{b:02x}")).collect();
    assert_eq!(candidate().fingerprint, expected);
}

#[test]
fn verification_cites_the_provenance_by_default() {
    let s = state();
    let events = ledger();
    let t = plan_integration_transition(&s, &events, CANDIDATE, USER, VerificationDisposition::Verified, "  checked with the user ", None)
        .ok()
        .expect("planned");
    assert_eq!(t.verification.reason, "checked with the user");
    assert_eq!(t.verification.previous_disposition, VerificationDisposition::NeedsValidation);
    assert_eq!(t.verification.new_disposition, VerificationDisposition::Verified);
    assert_eq!(t.verification.evidence_refs.len(), 1);
    assert_eq!(t.verification.evidence_refs[0].event_id, 3);
    assert_eq!(t.verification.evidence_refs[0].source_hash, HASH);
    assert_eq!(t.verification.evidence_refs[0].as_of_sequence, 3);
    assert_eq!(t.event_kind, EventKind::IntegrationCandidateVerified);
    assert_eq!(t.causation_id, Some(5));
}

#[test]
fn planned_verdict_is_accepted_by_the_projector() {
    let mut s = state();
    let events = ledger();
    let service = MemoryIntegration::new();
    let t = service.verify_candidate(&s, &events, CANDIDATE, USER, "checked").ok().expect("planned");
    let verdict = event(
        6,
        USER,
        t.event_kind,
        Some(EntityRef { kind: EntityKind::IntegrationCandidate, id: CANDIDATE }),
        Payload::IntegrationVerification(copy_verdict(&t.verification)),
    );
    match Projector::apply(&mut s, verdict) {
        Ok(()) => {},
        Err(e) => panic!("projection error: {}", e.message()),
    }
    let inspected = service.inspect(&s, CANDIDATE).ok().expect("known");
    assert_eq!(inspected.candidate.disposition, VerificationDisposition::Verified);
    assert!(inspected.verification.is_some());
    assert!(inspected.materialization.is_none());
    assert_eq!(service.list(&s).len(), 1);
}

#[test]
fn verified_memory_candidate_becomes_a_lesson() {
    let mut s = state();
    let mut events = ledger();
    let t = plan_integration_transition(&s, &events, CANDIDATE, USER, VerificationDisposition::Verified, "ok", None).ok().expect("planned");
    let verdict = event(
        6,
        USER,
        t.event_kind,
        Some(EntityRef { kind: EntityKind::IntegrationCandidate, id: CANDIDATE }),
        Payload::IntegrationVerification(copy_verdict(&t.verification)),
    );
    assert!(Projector::apply(&mut s, verdict).is_ok());
    events.push(event(
        6,
        USER,
        t.event_kind,
        Some(EntityRef { kind: EntityKind::IntegrationCandidate, id: CANDIDATE }),
        Payload::IntegrationVerification(copy_verdict(&t.verification)),
    ));
    let plan = materialization_plan(&s, &events, CANDIDATE, USER, 0x801, 0x802).ok().expect("materializes");
    assert_eq!(plan.memory_candidate.id, 0x801);
    assert_eq!(plan.memory_candidate.kind, MemoryKind::Lesson);
    assert_eq!(plan.memory_candidate.content, "Prefers tea");
    assert_eq!(plan.memory.id, 0x802);
    assert_eq!(plan.memory.candidate_id, 0x801);
    assert_eq!(plan.memory.source_event_ids, vec![3]);
    assert_eq!(plan.materialization.candidate_id, CANDIDATE);
    assert_eq!(plan.materialization.fingerprint, candidate().fingerprint);
    assert_eq!(plan.materialization.evidence_refs.len(), 1);
    let seals = (HASH.to_string(), HASH.to_string(), HASH.to_string());
    let batch = materialization_events(&plan, USER, (7, 8, 9), seals.clone());
    let kinds: Vec<EventKind> = batch.iter().map(|e| e.event_kind).collect();
    assert_eq!(kinds, vec![EventKind::MemoryCandidateCreated, EventKind::MemoryPromoted, EventKind::IntegrationCandidateMaterialized]);
    assert_eq!(batch[1].causation_id, Some(7));
    assert_eq!(batch[2].correlation_id.as_deref(), Some("00000000-0000-0000-0000-000000000600"));
    let before = s.revision;
    let committed = match commit_materialization(s, &plan, USER, (7, 8, 9), seals) {
        Ok(c) => c,
        Err(_) => panic!("the materialization commits"),
    };
    assert_eq!(committed.state.revision, before + 3);
    assert_eq!(committed.result.memory.id, 0x802);
    assert_eq!(committed.result.materialization.memory_id, 0x802);
}

#[test]
fn verdict_errors() {
    let s = state();
    let events = ledger();
    assert!(matches!(
        plan_integration_transition(&s, &events, 0x999, USER, VerificationDisposition::Verified, "r", None),
        Err(IntegrationError::UnknownCandidate(0x999))
    ));
    assert!(matches!(
        plan_integration_transition(&s, &events, CANDIDATE, HEKATE, VerificationDisposition::Verified, "r", None),
        Err(IntegrationError::ModelCannotVerify)
    ));
    assert!(matches!(
        plan_integration_transition(&s, &events, CANDIDATE, 0x33, VerificationDisposition::Verified, "r", None),
        Err(IntegrationError::UnknownActor(0x33))
    ));
    assert!(matches!(
        plan_integration_transition(&s, &events, CANDIDATE, USER, VerificationDisposition::Verified, "  ", None),
        Err(IntegrationError::InvalidReason)
    ));
    assert!(matches!(
        plan_integration_transition(&s, &events, CANDIDATE, USER, VerificationDisposition::NeedsValidation, "r", None),
        Err(IntegrationError::InvalidDispositionTransition { .. })
    ));
    let bad_hash = vec![EvidenceRef { event_id: 3, artifact_id: None, source_hash: "xyz".to_string(), as_of_sequence: 3 }];
    match plan_integration_transition(&s, &events, CANDIDATE, USER, VerificationDisposition::Rejected, "r", Some(bad_hash)) {
        Err(IntegrationError::InvalidEvidenceHash(h)) => assert_eq!(h, "xyz"),
        _ => panic!("expected an invalid evidence hash"),
    }
    let outside = vec![EvidenceRef { event_id: 1, artifact_id: None, source_hash: HASH.to_string(), as_of_sequence: 3 }];
    assert!(matches!(
        plan_integration_transition(&s, &events, CANDIDATE, USER, VerificationDisposition::Rejected, "r", Some(outside)),
        Err(IntegrationError::EvidenceOutsideCandidate(1))
    ));
    let newer = vec![EvidenceRef { event_id: 3, artifact_id: None, source_hash: HASH.to_string(), as_of_sequence: 9 }];
    assert!(matches!(
        plan_integration_transition(&s, &events, CANDIDATE, USER, VerificationDisposition::Rejected, "r", Some(newer)),
        Err(IntegrationError::FutureEvidenceSequence { sequence: 9, as_of: 3 })
    ));
    assert!(matches!(
        plan_integration_transition(&s, &events, CANDIDATE, USER, VerificationDisposition::Rejected, "r", Some(vec![])),
        Err(IntegrationError::MissingEvidence)
    ));
    let truncated: Vec<ExperienceEvent> = ledger().into_iter().take(2).collect();
    assert!(matches!(
        plan_integration_transition(&s, &truncated, CANDIDATE, USER, VerificationDisposition::Verified, "r", None),
        Err(IntegrationError::UnknownEvidenceEvent(3))
    ));
}

#[test]
fn materialization_needs_a_verified_candidate() {
    let s = state();
    let events = ledger();
    assert!(matches!(
        materialization_plan(&s, &events, CANDIDATE, USER, 1, 2),
        Err(IntegrationError::CandidateNotVerified(CANDIDATE))
    ));
    assert!(matches!(materialization_plan(&s, &events, CANDIDATE, 0x33, 1, 2), Err(IntegrationError::UnknownActor(0x33))));
    assert!(matches!(materialization_plan(&s, &events, 0x999, USER, 1, 2), Err(IntegrationError::UnknownCandidate(0x999))));
}

#[test]
fn stale_commit_is_reported() {
    let s = state();
    let r = hekate::memory_integration::commit_batch(s, Vec::new(), 2);
    assert!(matches!(r, Err(IntegrationError::StaleRevision { expected: 2, actual: 5 })));
}

#[test]
fn an_undated_candidate_takes_its_runs_high_water_revision() {
    let mut events = ledger();
    let mut undated = candidate();
    undated.as_of_revision = 0;
    events[4] = event(
        5,
        HEKATE,
        EventKind::IntegrationCandidateCreated,
        Some(EntityRef { kind: EntityKind::IntegrationCandidate, id: CANDIDATE }),
        Payload::UndatedIntegrationCandidate(undated),
    );
    let s = match Projector::replay(events) {
        Ok(s) => s,
        Err(e) => panic!("projection error: {}", e.message()),
    };
    assert_eq!(s.integration_candidates.len(), 1);
    assert_eq!(s.integration_candidates[0].as_of_revision, 3);
    let mut dated_zero = ledger();
    let mut zero = candidate();
    zero.as_of_revision = 0;
    dated_zero[4] = event(
        5,
        HEKATE,
        EventKind::IntegrationCandidateCreated,
        Some(EntityRef { kind: EntityKind::IntegrationCandidate, id: CANDIDATE }),
        Payload::IntegrationCandidate(zero),
    );
    assert!(Projector::replay(dated_zero).is_err());
}
