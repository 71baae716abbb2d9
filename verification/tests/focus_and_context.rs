use hekate::context::{build_context, build_context_with_recall, build_context_with_recall_and_snapshot};
use hekate::snapshot::context_text;
use hekate::focus::{focus_for_run, resolve_focus};
use hekate::model::{
    EntityKind, EntityRef, Focus, Goal, GoalStatus, Observation, Position, PositionStatus,
    Principal, PrincipalKind, Run, RunStatus, Stance, Task, TaskStatus,
};
use hekate::projector::Projector;
use hekate::state::{CurrentState, EventKind, ExperienceEvent, Payload};

const HASH: &str = "0000000000000000000000000000000000000000000000000000000000000000";
const USER: u128 = 0x11;
const HEKATE: u128 = 0x22;

fn event(id: u128, actor: u128, kind: EventKind, subject: Option<EntityRef>, payload: Payload) -> ExperienceEvent {
    ExperienceEvent {
        event_id: id,
        actor_id: actor,
        event_kind: kind,
        subject,
        source_type: "test".to_string(),
        source_ref: None,
        correlation_id: None,
        causation_id: None,
        integrity_hash: String::new(),
        canonical_hash: HASH.to_string(),
        payload,
    }
}

fn observation(id: u128, content: &str) -> Observation {
    Observation {
        id,
        actor_id: USER,
        content: content.to_string(),
        thread_id: None,
        message_id: None,
        source_type: "cli".to_string(),
        source_ref: None,
    }
}

fn ledger() -> Vec<ExperienceEvent> {
    vec![
        event(1, USER, EventKind::PrincipalCreated, None, Payload::Principal(Principal { id: USER, kind: PrincipalKind::User, name: "User".to_string(), identity_version_id: None })),
        event(2, HEKATE, EventKind::PrincipalCreated, None, Payload::Principal(Principal { id: HEKATE, kind: PrincipalKind::Hekate, name: "HEKATE".to_string(), identity_version_id: None })),
        event(3, USER, EventKind::GoalCreated, Some(EntityRef { kind: EntityKind::Goal, id: 0x100 }), Payload::Goal(Goal { id: 0x100, owner_principal_id: USER, participants: vec![USER, HEKATE], title: "Trip".to_string(), status: GoalStatus::Active })),
        event(4, USER, EventKind::TaskCreated, Some(EntityRef { kind: EntityKind::Task, id: 0x200 }), Payload::Task(Task { id: 0x200, goal_id: Some(0x100), title: "Book train".to_string(), status: TaskStatus::InProgress })),
        event(5, USER, EventKind::RunStarted, Some(EntityRef { kind: EntityKind::Run, id: 0x300 }), Payload::Run(Run { id: 0x300, task_id: Some(0x200), status: RunStatus::Running, started_at: "2024-01-01T00:00:00Z".to_string() })),
        event(6, USER, EventKind::RunStarted, Some(EntityRef { kind: EntityKind::Run, id: 0x301 }), Payload::Run(Run { id: 0x301, task_id: None, status: RunStatus::Running, started_at: "2024-01-02T00:00:00Z".to_string() })),
        event(7, USER, EventKind::RunCompleted, Some(EntityRef { kind: EntityKind::Run, id: 0x302 }), Payload::Run(Run { id: 0x302, task_id: Some(0x200), status: RunStatus::Completed, started_at: "2024-01-03T00:00:00Z".to_string() })),
        event(
            8,
            HEKATE,
            EventKind::PositionEstablished,
            Some(EntityRef { kind: EntityKind::Position, id: 0x400 }),
            Payload::Position(Position {
                id: 0x400,
                principal_id: HEKATE,
                subject: "train travel".to_string(),
                stance: Stance::Support,
                status: PositionStatus::Active,
                version: 1,
                supersedes: None,
                confidence: 60,
                evidence_refs: vec![3],
                reasons: vec!["cheaper".to_string()],
                reconsideration_conditions: vec![],
            }),
        ),
        event(9, USER, EventKind::ObservationRecorded, Some(EntityRef { kind: EntityKind::Observation, id: 0x500 }), Payload::Observation(observation(0x500, "How is the trip going?"))),
    ]
}

fn state() -> CurrentState {
    match Projector::replay(ledger()) {
        Ok(s) => s,
        Err(e) => panic!("ledger refused: {}", e.message()),
    }
}

#[test]
fn a_run_focuses_its_task_and_goal() {
    let s = state();
    assert_eq!(focus_for_run(&s, 0x300), Some(Focus { goal_id: Some(0x100), task_id: Some(0x200), run_id: Some(0x300) }));
    assert_eq!(focus_for_run(&s, 0x301), Some(Focus { goal_id: None, task_id: None, run_id: Some(0x301) }));
    assert_eq!(focus_for_run(&s, 0x999), None);
}

#[test]
fn observations_join_the_latest_open_run() {
    let s = state();
    let focus = resolve_focus(&s, &observation(0x501, "and the hotel?"));
    assert_eq!(focus, Focus { goal_id: None, task_id: None, run_id: Some(0x301) });
}

#[test]
fn asking_for_new_work_leaves_the_observation_unattached() {
    let s = state();
    assert_eq!(resolve_focus(&s, &observation(0x502, "  New task: plan dinner")), Focus::unattached());
    assert_eq!(resolve_focus(&s, &observation(0x503, "새 작업: 저녁")), Focus::unattached());
}

#[test]
fn nothing_open_leaves_the_observation_unattached() {
    let s = CurrentState::empty();
    assert_eq!(resolve_focus(&s, &observation(0x504, "hello")), Focus::unattached());
}

#[test]
fn context_holds_hekates_positions_and_the_observation_event() {
    let s = state();
    let o = observation(0x500, "How is the trip going?");
    let focus = Focus { goal_id: Some(0x100), task_id: Some(0x200), run_id: Some(0x300) };
    let c = build_context(&s, &o, &focus, &ledger(), vec!["read_file".to_string()]);
    assert_eq!(c.event_sequence, 9);
    assert_eq!(c.focus, focus);
    assert_eq!(c.positions.len(), 1);
    assert_eq!(c.positions[0].id, 0x400);
    assert!(c.user_positions.is_empty());
    assert!(c.conflicts.is_empty());
    assert!(c.recent_event_ids.contains(&9));
    assert!(c.recalled_event_ids.is_empty());
    assert_eq!(c.context_snapshot, None);
    assert_eq!(c.available_capabilities, vec!["read_file".to_string()]);
    assert!(c.output_schema.starts_with("thought_cycle("));
    assert_eq!(c.goal.as_ref().map(|g| g.id), Some(0x100));
    assert_eq!(c.task.as_ref().map(|t| t.id), Some(0x200));
    assert_eq!(c.run.as_ref().map(|r| r.id), Some(0x300));
    assert_eq!(c.snapshot_hash.len(), 64);
    assert!(c.snapshot_hash.chars().all(|ch| ch.is_ascii_digit() || ('a'..='f').contains(&ch)));
}

#[test]
fn the_snapshot_hash_seals_the_context() {
    let s = state();
    let o = observation(0x500, "How is the trip going?");
    let focus = Focus { goal_id: Some(0x100), task_id: Some(0x200), run_id: Some(0x300) };
    let plain = build_context(&s, &o, &focus, &ledger(), vec![]);
    let same = build_context_with_recall_and_snapshot(&s, &o, &focus, &ledger(), vec![], vec![], None);
    assert_eq!(plain.snapshot_hash, same.snapshot_hash);
    let recalled = build_context_with_recall(&s, &o, &focus, &ledger(), vec![], vec![9]);
    assert_ne!(plain.snapshot_hash, recalled.snapshot_hash);
    let snap = build_context_with_recall_and_snapshot(&s, &o, &focus, &ledger(), vec![], vec![], Some("{}".to_string()));
    assert_eq!(snap.context_snapshot.as_deref(), Some("{}"));
    assert_ne!(plain.snapshot_hash, snap.snapshot_hash);
    let text = context_text(&plain);
    assert!(text.starts_with("9,O"));
    assert!(text.ends_with("conflict, action))"));
}

