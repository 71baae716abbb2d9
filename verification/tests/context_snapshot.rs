use hekate::context_builder::{build_anchors, validate_profile, ContextBuildRequest, ContextBuilderError, ContextItemKind};
use hekate::context_middle::build_middle;
use hekate::context_recent::{build_recent, check_recalled, drop_for_hard_limit, RecentItem};
use hekate::context_sources::{source_refs, Citation};
use hekate::model::{
    ActiveMemory, ActiveMemoryStatus, Artifact, EntityKind, EntityRef, MemoryKind, Observation,
    Position, PositionStatus, Principal, PrincipalKind, Run, RunStatus, Stance,
};
use hekate::projector::Projector;
use hekate::response_profile::resolve_response_profile;
use hekate::state::{CurrentState, EventKind, ExperienceEvent, Payload};

const HASH: &str = "0000000000000000000000000000000000000000000000000000000000000000";
const USER: u128 = 0x11;
const HEKATE: u128 = 0x22;

fn event(id: u128, actor: u128, kind: EventKind, subject: Option<EntityRef>, payload: Payload) -> ExperienceEvent {
    ExperienceEvent {
        event_id: id,
        actor_id: actor,
        event_kind: kind,
        subject,
        source_type: "test".to_string(),
        source_ref: None,
        correlation_id: None,
        causation_id: None,
        integrity_hash: String::new(),
        canonical_hash: HASH.to_string(),
        payload,
    }
}

fn observation(id: u128, content: &str) -> Payload {
    Payload::Observation(Observation {
        id,
        actor_id: USER,
        content: content.to_string(),
        thread_id: None,
        message_id: None,
        source_type: "cli".to_string(),
        source_ref: None,
    })
}

fn ledger() -> Vec<ExperienceEvent> {
    vec![
        event(1, USER, EventKind::PrincipalCreated, None, Payload::Principal(Principal { id: USER, kind: PrincipalKind::User, name: "User".to_string(), identity_version_id: None })),
        event(2, HEKATE, EventKind::PrincipalCreated, None, Payload::Principal(Principal { id: HEKATE, kind: PrincipalKind::Hekate, name: "HEKATE".to_string(), identity_version_id: None })),
        event(3, USER, EventKind::ObservationRecorded, Some(EntityRef { kind: EntityKind::Observation, id: 0x700 }), observation(0x700, "I prefer tea")),
        event(4, USER, EventKind::RunStarted, Some(EntityRef { kind: EntityKind::Run, id: 0x300 }), Payload::Run(Run { id: 0x300, task_id: None, status: RunStatus::Running, started_at: "2024-01-01T00:00:00Z".to_string() })),
        event(5, USER, EventKind::ObservationRecorded, Some(EntityRef { kind: EntityKind::Observation, id: 0x701 }), observation(0x701, "what now?")),
    ]
}

fn state() -> CurrentState {
    let mut s = match Projector::replay(ledger()) {
        Ok(s) => s,
        Err(e) => panic!("ledger refused: {}", e.message()),
    };
    s.active_memories.push(ActiveMemory {
        id: 0x800,
        candidate_id: 0x801,
        kind: MemoryKind::Lesson,
        content: "tea helps".to_string(),
        subject_principal_id: None,
        status: ActiveMemoryStatus::Active,
        source_event_ids: vec![3],
    });
    s.positions.push(Position {
        id: 0x400,
        principal_id: HEKATE,
        subject: "tea".to_string(),
        stance: Stance::Support,
        status: PositionStatus::Superseded,
        version: 2,
        supersedes: None,
        confidence: 50,
        evidence_refs: vec![3],
        reasons: vec!["calm".to_string()],
        reconsideration_conditions: vec![],
    });
    s.artifacts.push(Artifact {
        id: 0x900,
        path: "notes.md".to_string(),
        content_hash: HASH.to_string(),
        size: 3,
        media_type: "text/markdown".to_string(),
        provenance_event_id: 4,
    });
    s
}

fn request() -> ContextBuildRequest {
    ContextBuildRequest {
        principal_id: USER,
        relationship_id: None,
        task_id: None,
        run_id: Some(0x300),
        current_observation_id: Some(0x701),
        as_of_revision: 5,
    }
}

#[test]
fn the_middle_ranks_by_authority_scope_and_revision() {
    let items = build_middle(&state(), &request(), &ledger()).ok().expect("built");
    let ids: Vec<u128> = items.iter().map(|i| i.entity.id).collect();
    assert_eq!(ids, vec![0x400, 0x800, 0x900]);
    assert_eq!(items[0].kind, ContextItemKind::Position);
    assert_eq!(items[0].revision, 2);
    assert_eq!(items[1].kind, ContextItemKind::Memory);
    assert_eq!(items[1].authority, 3);
    assert_eq!(items[1].scope, 0);
    assert_eq!(items[1].revision, 3);
    assert_eq!(items[1].text, Some("tea helps".to_string()));
    assert_eq!(items[2].kind, ContextItemKind::Artifact);
    assert_eq!(items[2].relevance, 2);
    assert_eq!(items[2].source_event_ids, vec![4]);
    assert!(items[2].text.is_none());
}

#[test]
fn a_missing_source_refuses_the_middle() {
    let mut s = state();
    s.active_memories[0].source_event_ids = vec![9];
    match build_middle(&s, &request(), &ledger()) {
        Err(ContextBuilderError::MissingSourceEvent { event_id }) => assert_eq!(event_id, 9),
        _ => panic!("expected a missing source"),
    }
}

#[test]
fn recent_events_leave_out_the_current_observation() {
    let items = build_recent(&request(), &ledger()).ok().expect("built");
    assert_eq!(items.len(), 2);
    assert_eq!(items[0].kind, ContextItemKind::RecentObservation);
    assert_eq!(items[0].text, Some("I prefer tea".to_string()));
    assert_eq!(items[0].source_event_ids, vec![3]);
    assert_eq!(items[1].kind, ContextItemKind::RecentEvent);
    assert_eq!(items[1].entity, Some(EntityRef { kind: EntityKind::Run, id: 0x300 }));
    assert!(items[1].text.is_none());
}

#[test]
fn source_references_are_unique_and_ordered() {
    let cites = vec![
        Citation { entity: Some(EntityRef { kind: EntityKind::Run, id: 0x300 }), event_id: 4 },
        Citation { entity: None, event_id: 3 },
        Citation { entity: Some(EntityRef { kind: EntityKind::Memory, id: 0x800 }), event_id: 4 },
    ];
    let refs = source_refs(&cites, 5, &ledger()).ok().expect("refs");
    assert_eq!(refs.len(), 2);
    assert_eq!(refs[0].event_id, 3);
    assert!(refs[0].entity.is_none());
    assert_eq!(refs[1].event_id, 4);
    assert_eq!(refs[1].entity, Some(EntityRef { kind: EntityKind::Run, id: 0x300 }));
    assert_eq!(refs[1].source_hash, HASH);
    assert_eq!(refs[1].as_of_revision, 5);
    match source_refs(&vec![Citation { entity: None, event_id: 5 }], 4, &ledger()) {
        Err(ContextBuilderError::FutureEvent { event_id, sequence, as_of }) => {
            assert_eq!((event_id, sequence, as_of), (5, 5, 4));
        },
        _ => panic!("expected a future event"),
    }
}

#[test]
fn recalled_items_are_checked_against_the_ledger() {
    let events = ledger();
    assert!(check_recalled(&events, 3, 3, HASH, 5).is_ok());
    match check_recalled(&events, 3, 3, "ff", 5) {
        Err(ContextBuilderError::SourceHashMismatch { event_id }) => assert_eq!(event_id, 3),
        _ => panic!("expected a hash mismatch"),
    }
    match check_recalled(&events, 3, 2, HASH, 5) {
        Err(ContextBuilderError::InvalidRecallAsOf { event_id, item_as_of }) => assert_eq!((event_id, item_as_of), (3, 2)),
        _ => panic!("expected an invalid as-of"),
    }
    match check_recalled(&events, 4, 4, HASH, 3) {
        Err(ContextBuilderError::FutureRecallSource { event_id, sequence, as_of }) => assert_eq!((event_id, sequence, as_of), (4, 4, 3)),
        _ => panic!("expected a future recall source"),
    }
    match check_recalled(&events, 9, 1, HASH, 5) {
        Err(ContextBuilderError::MissingSourceEvent { event_id }) => assert_eq!(event_id, 9),
        _ => panic!("expected a missing source"),
    }
}

#[test]
fn a_profile_newer_than_the_request_is_refused() {
    let mut profile = resolve_response_profile(&CurrentState::empty(), &[], USER, None, None, 0);
    assert!(validate_profile(&profile, 5, &ledger()).is_ok());
    profile.as_of_revision = 9;
    match validate_profile(&profile, 5, &ledger()) {
        Err(ContextBuilderError::FutureResponseProfile { profile_revision, request_revision }) => {
            assert_eq!((profile_revision, request_revision), (9, 5));
        },
        _ => panic!("expected a future profile"),
    }
}

#[test]
fn the_hard_limit_drops_recall_first() {
    let mut middle = build_middle(&state(), &request(), &ledger()).ok().expect("built");
    let mut active = build_recent(&request(), &ledger()).ok().expect("built");
    active.push(RecentItem { kind: ContextItemKind::Recall, entity: None, text: Some("old".to_string()), source_event_ids: vec![3] });
    let (mut dm, mut da) = (0usize, 0usize);
    assert!(drop_for_hard_limit(&mut middle, &mut active, &mut dm, &mut da));
    assert_eq!((active.len(), middle.len(), dm, da), (2, 3, 0, 1));
    assert!(drop_for_hard_limit(&mut middle, &mut active, &mut dm, &mut da));
    assert_eq!((active.len(), middle.len(), dm, da), (2, 2, 1, 1));
    let mut empty_middle = Vec::new();
    assert!(drop_for_hard_limit(&mut empty_middle, &mut active, &mut dm, &mut da));
    assert_eq!(active.len(), 1);
    assert_eq!(active[0].source_event_ids, vec![4]);
}

#[test]
fn anchors_are_distinct_and_rest_on_ordered_sources_as_of_the_request() {
    let anchors = build_anchors(&state(), &request(), &ledger()).ok().expect("built");
    assert!(!anchors.is_empty());
    for (i, a) in anchors.iter().enumerate() {
        assert_eq!(a.as_of_revision, 5);
        for b in &anchors[i + 1..] {
            assert!(!(a.kind == b.kind && a.entity == b.entity));
        }
        let mut last = 0u128;
        for id in &a.source_event_ids {
            assert!(*id > last && *id <= 5);
            last = *id;
        }
    }
    let run = anchors.iter().find(|a| a.kind == ContextItemKind::Run).expect("run anchor");
    assert_eq!(run.source_event_ids, vec![4]);
}
