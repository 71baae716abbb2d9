use hekate::continuity::{
    has_continuation_intent, has_new_work_intent, is_social_message, parse_reference, plan_focus,
    resolve, task_title, title_cuttable, words, FocusBasis, FocusOutcome, FocusResolution,
    FreshIds, WorkReference,
};
use hekate::model::{
    EntityKind, EntityRef, Goal, GoalStatus, Observation, Principal, PrincipalKind, Run, RunStatus,
    Task, TaskStatus,
};
use hekate::projector::Projector;
use hekate::state::{CurrentState, EventKind, ExperienceEvent, Payload};

const HASH: &str = "0000000000000000000000000000000000000000000000000000000000000000";
const USER: u128 = 0x11;
const HEKATE: u128 = 0x22;
const GOAL: u128 = 0x100;
const TASK: u128 = 0x200;
const RUN: u128 = 0x250;
const FRESH: FreshIds = FreshIds { goal_id: 0x901, task_id: 0x902, run_id: 0x903 };

fn event(id: u128, actor: u128, kind: EventKind, subject: Option<EntityRef>, payload: Payload) -> ExperienceEvent {
    ExperienceEvent {
        event_id: id,
        actor_id: actor,
        event_kind: kind,
        subject,
        source_type: "test".to_string(),
        source_ref: None,
        correlation_id: None,
        causation_id: None,
        integrity_hash: String::new(),
        canonical_hash: HASH.to_string(),
        payload,
    }
}

fn ledger(task_status: TaskStatus, run_status: RunStatus) -> Vec<ExperienceEvent> {
    vec![
        event(1, USER, EventKind::PrincipalCreated, None, Payload::Principal(Principal { id: USER, kind: PrincipalKind::User, name: "User".to_string(), identity_version_id: None })),
        event(2, HEKATE, EventKind::PrincipalCreated, None, Payload::Principal(Principal { id: HEKATE, kind: PrincipalKind::Hekate, name: "HEKATE".to_string(), identity_version_id: None })),
        event(3, USER, EventKind::GoalCreated, Some(EntityRef { kind: EntityKind::Goal, id: GOAL }), Payload::Goal(Goal { id: GOAL, owner_principal_id: USER, participants: vec![USER, HEKATE], title: "Release".to_string(), status: GoalStatus::Active })),
        event(4, USER, EventKind::TaskCreated, Some(EntityRef { kind: EntityKind::Task, id: TASK }), Payload::Task(Task { id: TASK, goal_id: Some(GOAL), title: "Write notes".to_string(), status: task_status })),
        event(5, USER, EventKind::RunStarted, Some(EntityRef { kind: EntityKind::Run, id: RUN }), Payload::Run(Run { id: RUN, task_id: Some(TASK), status: run_status, started_at: "2024-01-01T00:00:00Z".to_string() })),
    ]
}

fn state_and_events(task_status: TaskStatus, run_status: RunStatus) -> (CurrentState, Vec<ExperienceEvent>) {
    let state = Projector::replay(ledger(task_status, run_status)).ok().expect("replays");
    (state, ledger(task_status, run_status))
}

fn observation(content: &str) -> Observation {
    Observation {
        id: 0x777,
        actor_id: USER,
        content: content.to_string(),
        thread_id: None,
        message_id: None,
        source_type: "cli".to_string(),
        source_ref: None,
    }
}

#[test]
fn new_work_creates_goal_task_and_run() {
    let (state, events) = state_and_events(TaskStatus::InProgress, RunStatus::Running);
    let no_resolutions: Vec<FocusResolution> = Vec::new();
    let obs = observation("New task:   Draft the report  ");
    let plan = resolve(&state, &no_resolutions, &events, &obs, USER, HEKATE, FRESH, "2024-02-02T00:00:00Z");
    assert_eq!(plan.resolution.outcome, FocusOutcome::NewWork);
    assert_eq!(plan.resolution.basis, FocusBasis::ExplicitNewWork);
    assert_eq!(plan.resolution.focus.goal_id, Some(0x901));
    assert_eq!(plan.resolution.focus.task_id, Some(0x902));
    assert_eq!(plan.resolution.focus.run_id, Some(0x903));
    let goal = plan.goal.expect("goal");
    assert_eq!(goal.title, "Draft the report");
    assert_eq!(goal.participants, vec![USER, HEKATE]);
    let task = plan.task.expect("task");
    assert_eq!(task.title, "Draft the report");
    assert_eq!(task.goal_id, Some(0x901));
    let run = plan.run.expect("run");
    assert_eq!(run.task_id, Some(0x902));
    assert_eq!(run.started_at, "2024-02-02T00:00:00Z");
    assert_eq!(plan.resolution.candidates.len(), 1);
    assert_eq!(plan.resolution.as_of_revision, 5);
}

#[test]
fn greeting_is_conversation() {
    let (state, events) = state_and_events(TaskStatus::InProgress, RunStatus::Running);
    let none: Vec<FocusResolution> = Vec::new();
    let plan = resolve(&state, &none, &events, &observation("  Hello!! "), USER, HEKATE, FRESH, "t");
    assert_eq!(plan.resolution.outcome, FocusOutcome::Conversation);
    assert_eq!(plan.resolution.basis, FocusBasis::GeneralConversation);
    assert_eq!(plan.resolution.focus.task_id, None);
    assert_eq!(plan.resolution.focus.run_id, Some(0x903));
    assert!(plan.goal.is_none());
    assert!(plan.task.is_none());
}

#[test]
fn task_reference_continues_the_live_run() {
    let (state, events) = state_and_events(TaskStatus::InProgress, RunStatus::Running);
    let none: Vec<FocusResolution> = Vec::new();
    let obs = observation("please look at task 00000000-0000-0000-0000-000000000200 again");
    let plan = resolve(&state, &none, &events, &obs, USER, HEKATE, FRESH, "t");
    assert_eq!(plan.resolution.outcome, FocusOutcome::Continue);
    assert_eq!(plan.resolution.basis, FocusBasis::ExplicitTask);
    assert_eq!(plan.resolution.focus.task_id, Some(TASK));
    assert_eq!(plan.resolution.focus.run_id, Some(RUN));
    assert!(plan.run.is_none());
    assert_eq!(plan.resolution.candidates[0].evidence_event_ids, vec![3, 4, 5]);
}

#[test]
fn unknown_task_reference_asks() {
    let (state, events) = state_and_events(TaskStatus::InProgress, RunStatus::Running);
    let none: Vec<FocusResolution> = Vec::new();
    let obs = observation("task 00000000-0000-0000-0000-000000000999");
    let plan = resolve(&state, &none, &events, &obs, USER, HEKATE, FRESH, "t");
    assert_eq!(plan.resolution.outcome, FocusOutcome::Clarification);
    assert_eq!(plan.resolution.basis, FocusBasis::InvalidReference);
    assert_eq!(plan.resolution.clarification, Some("I can't verify that task ID. Which active task should I continue?".to_string()));
    assert_eq!(plan.resolution.focus.run_id, None);
}

#[test]
fn completed_task_reference_asks_to_reopen() {
    let (state, events) = state_and_events(TaskStatus::Completed, RunStatus::Completed);
    let none: Vec<FocusResolution> = Vec::new();
    let obs = observation("task 00000000-0000-0000-0000-000000000200");
    let plan = resolve(&state, &none, &events, &obs, USER, HEKATE, FRESH, "t");
    assert_eq!(plan.resolution.basis, FocusBasis::ClosedWorkReference);
    assert_eq!(
        plan.resolution.clarification,
        Some("Task 'Write notes' is Completed. Should it be reopened, or should I start a new task?".to_string())
    );
}

#[test]
fn closed_run_reference_names_its_status() {
    let (state, events) = state_and_events(TaskStatus::InProgress, RunStatus::Suspended);
    let none: Vec<FocusResolution> = Vec::new();
    let obs = observation("run 00000000-0000-0000-0000-000000000250");
    let plan = resolve(&state, &none, &events, &obs, USER, HEKATE, FRESH, "t");
    assert_eq!(plan.resolution.outcome, FocusOutcome::Clarification);
    assert_eq!(
        plan.resolution.clarification,
        Some("Run 00000000-0000-0000-0000-000000000250 is Suspended. Should I start a new run for task 'Write notes'?".to_string())
    );
}

#[test]
fn strong_text_match_continues() {
    let (state, events) = state_and_events(TaskStatus::InProgress, RunStatus::Running);
    let none: Vec<FocusResolution> = Vec::new();
    let plan = resolve(&state, &none, &events, &observation("write the release notes"), USER, HEKATE, FRESH, "t");
    assert_eq!(plan.resolution.outcome, FocusOutcome::Continue);
    assert_eq!(plan.resolution.basis, FocusBasis::StrongTextMatch);
    assert_eq!(plan.resolution.focus.run_id, Some(RUN));
}

#[test]
fn weak_text_match_asks_which_task() {
    let (state, events) = state_and_events(TaskStatus::InProgress, RunStatus::Running);
    let none: Vec<FocusResolution> = Vec::new();
    let plan = resolve(&state, &none, &events, &observation("update those notes"), USER, HEKATE, FRESH, "t");
    assert_eq!(plan.resolution.outcome, FocusOutcome::Clarification);
    assert_eq!(plan.resolution.basis, FocusBasis::AmbiguousCandidates);
    assert_eq!(
        plan.resolution.clarification,
        Some("Which task should I continue: 'Write notes' (00000000-0000-0000-0000-000000000200)? Reply with a task ID or say 'new task: ...'.".to_string())
    );
}

#[test]
fn continuation_with_one_live_task_continues_it() {
    let (state, events) = state_and_events(TaskStatus::InProgress, RunStatus::Running);
    let none: Vec<FocusResolution> = Vec::new();
    let plan = resolve(&state, &none, &events, &observation("let's continue"), USER, HEKATE, FRESH, "t");
    assert_eq!(plan.resolution.outcome, FocusOutcome::Continue);
    assert_eq!(plan.resolution.basis, FocusBasis::ExplicitContinuation);
}

#[test]
fn continuation_without_live_tasks_asks() {
    let (state, events) = state_and_events(TaskStatus::Completed, RunStatus::Completed);
    let none: Vec<FocusResolution> = Vec::new();
    let plan = resolve(&state, &none, &events, &observation("resume please"), USER, HEKATE, FRESH, "t");
    assert_eq!(plan.resolution.basis, FocusBasis::ClosedWorkReference);
    assert_eq!(
        plan.resolution.clarification,
        Some("I couldn't identify an active task to continue. Name its task ID or say 'new task: ...'.".to_string())
    );
}

#[test]
fn plan_focus_draws_fresh_identifiers() {
    let (state, events) = state_and_events(TaskStatus::InProgress, RunStatus::Running);
    let none: Vec<FocusResolution> = Vec::new();
    let plan = plan_focus(&state, &none, &events, &observation("new task: x"), USER, HEKATE, "t").expect("plans");
    assert_eq!(plan.resolution.outcome, FocusOutcome::NewWork);
    assert_ne!(plan.resolution.focus.goal_id, plan.resolution.focus.task_id);
}

#[test]
fn words_are_distinct_lowercase_and_skip_stop_words() {
    assert_eq!(words("Hello, HELLO World-wide is a test Über"), vec!["hello", "world", "wide", "test", "über"]);
}

#[test]
fn intents() {
    assert!(has_new_work_intent("  NEW TASK: plan"));
    assert!(has_new_work_intent("새 작업: 계획"));
    assert!(!has_new_work_intent("what is a new task?"));
    assert!(has_continuation_intent("Let's CONTINUE where we were"));
    assert!(has_continuation_intent("이어서 해줘"));
    assert!(!has_continuation_intent("stop"));
    assert!(is_social_message("  Hello!! "));
    assert!(is_social_message("안녕하세요"));
    assert!(!is_social_message("hello there"));
}

#[test]
fn references_need_a_keyword_and_a_uuid() {
    assert_eq!(
        parse_reference("go to Goal 00000000-0000-0000-0000-000000000100 now"),
        Some(WorkReference::Goal(GOAL))
    );
    assert_eq!(parse_reference("run 00000000-0000-0000-0000-000000000250"), Some(WorkReference::Run(RUN)));
    assert_eq!(parse_reference("thing 00000000-0000-0000-0000-000000000250"), None);
    assert_eq!(parse_reference("task not-a-uuid"), None);
}

#[test]
fn titles() {
    assert_eq!(task_title("NEW TASK:   Plan trip  "), "Plan trip");
    assert_eq!(task_title("new task:   "), "new task:");
    assert_eq!(task_title("   "), "Untitled task");
    let long = "a".repeat(100);
    assert_eq!(task_title(&long).chars().count(), 80);
    assert!(title_cuttable("new task: x"));
    assert!(!title_cuttable("new tas\u{212A}: x"));
}
