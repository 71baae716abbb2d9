use hekate::embedding::{position_text, EmbeddingEntityKind};
use hekate::model::{
    EntityKind, EntityRef, Observation, Position, PositionStatus, Principal, PrincipalKind, Stance,
};
use hekate::projector::Projector;
use hekate::recall::restore_item;
use hekate::state::{CurrentState, EventKind, ExperienceEvent, Payload};

const HASH: &str = "0000000000000000000000000000000000000000000000000000000000000000";
const USER: u128 = 0x11;
const HEKATE: u128 = 0x22;

fn event(id: u128, actor: u128, kind: EventKind, subject: Option<EntityRef>, payload: Payload) -> ExperienceEvent {
    ExperienceEvent {
        event_id: id,
        actor_id: actor,
        event_kind: kind,
        subject,
        source_type: "test".to_string(),
        source_ref: None,
        correlation_id: None,
        causation_id: None,
        integrity_hash: String::new(),
        canonical_hash: HASH.to_string(),
        payload,
    }
}

fn position(version: u32) -> Position {
    Position {
        id: 0x400,
        principal_id: HEKATE,
        subject: "tea".to_string(),
        stance: Stance::Support,
        status: PositionStatus::Active,
        version,
        supersedes: None,
        confidence: 60,
        evidence_refs: vec![3],
        reasons: vec!["calm".to_string()],
        reconsideration_conditions: vec![],
    }
}

fn ledger() -> Vec<ExperienceEvent> {
    vec![
        event(1, USER, EventKind::PrincipalCreated, None, Payload::Principal(Principal { id: USER, kind: PrincipalKind::User, name: "User".to_string(), identity_version_id: None })),
        event(2, HEKATE, EventKind::PrincipalCreated, None, Payload::Principal(Principal { id: HEKATE, kind: PrincipalKind::Hekate, name: "HEKATE".to_string(), identity_version_id: None })),
        event(
            3,
            USER,
            EventKind::ObservationRecorded,
            Some(EntityRef { kind: EntityKind::Observation, id: 0x700 }),
            Payload::Observation(Observation {
                id: 0x700,
                actor_id: USER,
                content: "I prefer tea".to_string(),
                thread_id: None,
                message_id: None,
                source_type: "cli".to_string(),
                source_ref: None,
            }),
        ),
        event(4, HEKATE, EventKind::PositionEstablished, Some(EntityRef { kind: EntityKind::Position, id: 0x400 }), Payload::Position(position(1))),
        event(5, HEKATE, EventKind::PositionMaintained, Some(EntityRef { kind: EntityKind::Position, id: 0x400 }), Payload::Position(position(1))),
    ]
}

fn state() -> CurrentState {
    match Projector::replay(ledger()) {
        Ok(s) => s,
        Err(e) => panic!("ledger refused: {}", e.message()),
    }
}

#[test]
fn an_observation_match_is_restored_from_its_event() {
    let s = state();
    let item = restore_item(3, EmbeddingEntityKind::Observation, &uuid_text(0x700), None, &vec![], &s, &ledger())
        .expect("restored");
    assert_eq!(item.entity, EntityRef { kind: EntityKind::Observation, id: 0x700 });
    assert_eq!(item.source_event_id, 3);
    assert_eq!(item.source_hash, HASH);
    assert_eq!(item.as_of_sequence, 5);
    assert_eq!(item.text, "I prefer tea");
}

#[test]
fn excluded_newer_or_unknown_matches_are_dropped() {
    let s = state();
    let id = uuid_text(0x700);
    assert!(restore_item(3, EmbeddingEntityKind::Observation, &id, None, &vec![3], &s, &ledger()).is_none());
    assert!(restore_item(3, EmbeddingEntityKind::Observation, &id, Some(2), &vec![], &s, &ledger()).is_none());
    assert!(restore_item(9, EmbeddingEntityKind::Observation, &id, None, &vec![], &s, &ledger()).is_none());
    assert!(restore_item(3, EmbeddingEntityKind::Observation, "not a uuid", None, &vec![], &s, &ledger()).is_none());
    assert!(restore_item(3, EmbeddingEntityKind::Observation, &uuid_text(0x701), None, &vec![], &s, &ledger()).is_none());
}

#[test]
fn a_tampered_event_is_not_restored() {
    let s = state();
    let mut events = ledger();
    events[2].integrity_hash = "ff".to_string();
    assert!(restore_item(3, EmbeddingEntityKind::Observation, &uuid_text(0x700), None, &vec![], &s, &events).is_none());
}

#[test]
fn only_the_latest_event_of_a_position_restores_it() {
    let s = state();
    let id = uuid_text(0x400);
    let item = restore_item(5, EmbeddingEntityKind::Position, &id, None, &vec![], &s, &ledger()).expect("latest");
    assert_eq!(item.text, position_text(&position(1)));
    assert!(restore_item(4, EmbeddingEntityKind::Position, &id, None, &vec![], &s, &ledger()).is_none());
    assert!(restore_item(5, EmbeddingEntityKind::Position, &id, Some(4), &vec![], &s, &ledger()).is_none());
}

fn uuid_text(id: u128) -> String {
    uuid::Uuid::from_u128(id).to_string()
}
