//! The projected current state and the events of the ledger it is built from.
use vstd::prelude::*;

use crate::model::{
    ActiveMemory, Approval, IdentityVersion, IntegrationCandidate, IntegrationMaterialization,
    IntegrationVerification, Artifact, Attempt, CompletionClaim, CompletionClaimTransition,
    CompletionCriterion, Conflict, EntityRef, EventId, Goal, MemoryCandidate, Observation,
    Operation, Position, PositionIntegrationMaterialization, Principal, PrincipalId, PrincipalKind, Record, Relationship, Run,
    SleepRun, Task, Verification,
};
use crate::table::{get, lookup, sorted_keys};

verus! {

/// The kind of a ledger event.
#[derive(Clone, Copy, Debug, PartialEq, Eq, Structural)]
pub enum EventKind {
    PrincipalCreated,
    IdentityVersionCreated,
    RelationshipCreated,
    ObservationRecorded,
    UserMessageReceived,
    FocusResolved,
    GoalCreated,
    TaskCreated,
    TaskCompleted,
    RunStarted,
    RunSuspended,
    RunCompleted,
    AttemptStarted,
    AttemptCompleted,
    WorkingStateUpdated,
    DecisionCreated,
    PositionEstablished,
    PositionMaintained,
    PositionRecorded,
    PositionRevised,
    PositionRetracted,
    ConflictOpened,
    ConflictRecorded,
    ConflictUpdated,
    ConflictResolved,
    CommitmentCreated,
    CommitmentFulfilled,
    ActionIntentCreated,
    OperationPlanned,
    OperationAuthorized,
    OperationStarted,
    OperationSucceeded,
    OperationFailed,
    OperationStateUnknown,
    ArtifactCreated,
    CompletionCriterionDefined,
    CompletionClaimCreated,
    CompletionClaimVerified,
    CompletionClaimRejected,
    ApprovalRequested,
    ApprovalResolved,
    ReceiptRecorded,
    VerificationRecorded,
    MemoryCandidateCreated,
    MemoryRejected,
    MemoryPromoted,
    MemorySuperseded,
    MemoryExpired,
    SleepRunStarted,
    SleepRunCompleted,
    SleepRunInterrupted,
    SleepRunFailed,
    IntegrationCandidateCreated,
    IntegrationCandidateVerified,
    IntegrationCandidateRejected,
    IntegrationCandidateMaterialized,
    ResponseProduced,
    StateChanged,
}

/// The decoded payload of an event.
pub enum Payload {
    Principal(Principal),
    IdentityVersion(IdentityVersion),
    Relationship(Relationship),
    Observation(Observation),
    Goal(Goal),
    Task(Task),
    Run(Run),
    Attempt(Attempt),
    Position(Position),
    Conflict(Conflict),
    Approval(Approval),
    Operation(Operation),
    Verification(Verification),
    Artifact(Artifact),
    Criterion(CompletionCriterion),
    Claim(CompletionClaim),
    ClaimTransition(CompletionClaimTransition),
    Memory(ActiveMemory),
    MemoryCandidate(MemoryCandidate),
    SleepRun(SleepRun),
    IntegrationCandidate(IntegrationCandidate),
    /// A candidate recorded without its revision field; it takes the high
    /// water revision of its sleep run.
    UndatedIntegrationCandidate(IntegrationCandidate),
    IntegrationVerification(IntegrationVerification),
    IntegrationMaterialization(IntegrationMaterialization),
    /// An entity the projection stores without reading it.
    Record(Record),
    /// No payload the projection reads.
    Empty,
    /// A payload that could not be decoded, with the decoder's message.
    Malformed(String),
}

/// An event of the ledger.
pub struct ExperienceEvent {
    pub event_id: EventId,
    pub actor_id: PrincipalId,
    pub event_kind: EventKind,
    pub subject: Option<EntityRef>,
    /// What produced the event, and the reference it gave, if any.
    pub source_type: String,
    pub source_ref: Option<String>,
    pub correlation_id: Option<String>,
    /// The event this one follows from, if any.
    pub causation_id: Option<EventId>,
    /// The hash recorded with the event when it was committed (may be empty).
    pub integrity_hash: String,
    /// The SHA-256 of the event's canonical encoding.
    pub canonical_hash: String,
    pub payload: Payload,
}

/// The projection of the ledger: every table is kept in key order.
pub struct CurrentState {
    pub revision: u64,
    pub applied_events: Vec<EventId>,
    pub sleep_cursor: u64,
    pub principals: Vec<Principal>,
    pub identity_versions: Vec<IdentityVersion>,
    pub relationships: Vec<Relationship>,
    pub observations: Vec<Observation>,
    pub goals: Vec<Goal>,
    pub tasks: Vec<Task>,
    pub runs: Vec<Run>,
    pub attempts: Vec<Attempt>,
    pub positions: Vec<Position>,
    pub conflicts: Vec<Conflict>,
    pub approvals: Vec<Approval>,
    pub operations: Vec<Operation>,
    pub verifications: Vec<Verification>,
    pub artifacts: Vec<Artifact>,
    pub completion_criteria: Vec<CompletionCriterion>,
    pub completion_claims: Vec<CompletionClaim>,
    pub memory_candidates: Vec<MemoryCandidate>,
    pub active_memories: Vec<ActiveMemory>,
    pub sleep_runs: Vec<SleepRun>,
    pub integration_candidates: Vec<IntegrationCandidate>,
    pub integration_verifications: Vec<IntegrationVerification>,
    pub integration_materializations: Vec<IntegrationMaterialization>,
    pub position_integration_materializations: Vec<PositionIntegrationMaterialization>,
    pub decisions: Vec<Record>,
    pub commitments: Vec<Record>,
    pub action_intents: Vec<Record>,
    pub receipts: Vec<Record>,
    pub working_states: Vec<Record>,
}

impl CurrentState {
    /// Every table is in strictly increasing key order.
    pub open spec fn wf(&self) -> bool {
        &&& sorted_keys(self.principals@)
        &&& sorted_keys(self.identity_versions@)
        &&& sorted_keys(self.relationships@)
        &&& sorted_keys(self.observations@)
        &&& sorted_keys(self.goals@)
        &&& sorted_keys(self.tasks@)
        &&& sorted_keys(self.runs@)
        &&& sorted_keys(self.attempts@)
        &&& sorted_keys(self.positions@)
        &&& sorted_keys(self.conflicts@)
        &&& sorted_keys(self.approvals@)
        &&& sorted_keys(self.operations@)
        &&& sorted_keys(self.verifications@)
        &&& sorted_keys(self.artifacts@)
        &&& sorted_keys(self.completion_criteria@)
        &&& sorted_keys(self.completion_claims@)
        &&& sorted_keys(self.memory_candidates@)
        &&& sorted_keys(self.active_memories@)
        &&& sorted_keys(self.sleep_runs@)
        &&& sorted_keys(self.integration_candidates@)
        &&& sorted_keys(self.integration_verifications@)
        &&& sorted_keys(self.integration_materializations@)
        &&& sorted_keys(self.position_integration_materializations@)
        &&& sorted_keys(self.decisions@)
        &&& sorted_keys(self.commitments@)
        &&& sorted_keys(self.action_intents@)
        &&& sorted_keys(self.receipts@)
        &&& sorted_keys(self.working_states@)
    }

    /// The state before any event: empty tables, revision and cursor 0.
    pub open spec fn is_empty_projection(&self) -> bool {
        &&& self.revision == 0
        &&& self.applied_events@.len() == 0
        &&& self.sleep_cursor == 0
        &&& self.principals@.len() == 0
        &&& self.identity_versions@.len() == 0
        &&& self.relationships@.len() == 0
        &&& self.observations@.len() == 0
        &&& self.goals@.len() == 0
        &&& self.tasks@.len() == 0
        &&& self.runs@.len() == 0
        &&& self.attempts@.len() == 0
        &&& self.positions@.len() == 0
        &&& self.conflicts@.len() == 0
        &&& self.approvals@.len() == 0
        &&& self.operations@.len() == 0
        &&& self.verifications@.len() == 0
        &&& self.artifacts@.len() == 0
        &&& self.completion_criteria@.len() == 0
        &&& self.completion_claims@.len() == 0
        &&& self.memory_candidates@.len() == 0
        &&& self.active_memories@.len() == 0
        &&& self.sleep_runs@.len() == 0
        &&& self.integration_candidates@.len() == 0
        &&& self.integration_verifications@.len() == 0
        &&& self.integration_materializations@.len() == 0
        &&& self.position_integration_materializations@.len() == 0
        &&& self.decisions@.len() == 0
        &&& self.commitments@.len() == 0
        &&& self.action_intents@.len() == 0
        &&& self.receipts@.len() == 0
        &&& self.working_states@.len() == 0
    }

    /// The empty projection.
    pub fn empty() -> (r: CurrentState)
        ensures
            r.wf(),
            r.is_empty_projection(),
    {
        CurrentState {
            revision: 0,
            applied_events: Vec::new(),
            sleep_cursor: 0,
            principals: Vec::new(),
            identity_versions: Vec::new(),
            relationships: Vec::new(),
            observations: Vec::new(),
            goals: Vec::new(),
            tasks: Vec::new(),
            runs: Vec::new(),
            attempts: Vec::new(),
            positions: Vec::new(),
            conflicts: Vec::new(),
            approvals: Vec::new(),
            operations: Vec::new(),
            verifications: Vec::new(),
            artifacts: Vec::new(),
            completion_criteria: Vec::new(),
            completion_claims: Vec::new(),
            memory_candidates: Vec::new(),
            active_memories: Vec::new(),
            sleep_runs: Vec::new(),
            integration_candidates: Vec::new(),
            integration_verifications: Vec::new(),
            integration_materializations: Vec::new(),
            position_integration_materializations: Vec::new(),
            decisions: Vec::new(),
            commitments: Vec::new(),
            action_intents: Vec::new(),
            receipts: Vec::new(),
            working_states: Vec::new(),
        }
    }
}

/// Whether the principal is registered as HEKATE itself (the model).
pub open spec fn is_model_actor(state: &CurrentState, actor_id: PrincipalId) -> bool {
    match lookup(state.principals@, actor_id) {
        Some(principal) => principal.kind == PrincipalKind::Hekate,
        None => false,
    }
}

/// Whether the principal is registered as HEKATE itself (the model).
pub fn model_actor(state: &CurrentState, actor_id: PrincipalId) -> (r: bool)
    requires
        state.wf(),
    ensures
        r == is_model_actor(state, actor_id),
{
    match get(&state.principals, actor_id) {
        Some(principal) => principal.kind == PrincipalKind::Hekate,
        None => false,
    }
}


/// The name of an event kind, as its `Debug` form.
pub open spec fn event_kind_name(kind: EventKind) -> Seq<char> {
    match kind {
        EventKind::PrincipalCreated => "PrincipalCreated"@,
        EventKind::IdentityVersionCreated => "IdentityVersionCreated"@,
        EventKind::RelationshipCreated => "RelationshipCreated"@,
        EventKind::ObservationRecorded => "ObservationRecorded"@,
        EventKind::UserMessageReceived => "UserMessageReceived"@,
        EventKind::FocusResolved => "FocusResolved"@,
        EventKind::GoalCreated => "GoalCreated"@,
        EventKind::TaskCreated => "TaskCreated"@,
        EventKind::TaskCompleted => "TaskCompleted"@,
        EventKind::RunStarted => "RunStarted"@,
        EventKind::RunSuspended => "RunSuspended"@,
        EventKind::RunCompleted => "RunCompleted"@,
        EventKind::AttemptStarted => "AttemptStarted"@,
        EventKind::AttemptCompleted => "AttemptCompleted"@,
        EventKind::WorkingStateUpdated => "WorkingStateUpdated"@,
        EventKind::DecisionCreated => "DecisionCreated"@,
        EventKind::PositionEstablished => "PositionEstablished"@,
        EventKind::PositionMaintained => "PositionMaintained"@,
        EventKind::PositionRecorded => "PositionRecorded"@,
        EventKind::PositionRevised => "PositionRevised"@,
        EventKind::PositionRetracted => "PositionRetracted"@,
        EventKind::ConflictOpened => "ConflictOpened"@,
        EventKind::ConflictRecorded => "ConflictRecorded"@,
        EventKind::ConflictUpdated => "ConflictUpdated"@,
        EventKind::ConflictResolved => "ConflictResolved"@,
        EventKind::CommitmentCreated => "CommitmentCreated"@,
        EventKind::CommitmentFulfilled => "CommitmentFulfilled"@,
        EventKind::ActionIntentCreated => "ActionIntentCreated"@,
        EventKind::OperationPlanned => "OperationPlanned"@,
        EventKind::OperationAuthorized => "OperationAuthorized"@,
        EventKind::OperationStarted => "OperationStarted"@,
        EventKind::OperationSucceeded => "OperationSucceeded"@,
        EventKind::OperationFailed => "OperationFailed"@,
        EventKind::OperationStateUnknown => "OperationStateUnknown"@,
        EventKind::ArtifactCreated => "ArtifactCreated"@,
        EventKind::CompletionCriterionDefined => "CompletionCriterionDefined"@,
        EventKind::CompletionClaimCreated => "CompletionClaimCreated"@,
        EventKind::CompletionClaimVerified => "CompletionClaimVerified"@,
        EventKind::CompletionClaimRejected => "CompletionClaimRejected"@,
        EventKind::ApprovalRequested => "ApprovalRequested"@,
        EventKind::ApprovalResolved => "ApprovalResolved"@,
        EventKind::ReceiptRecorded => "ReceiptRecorded"@,
        EventKind::VerificationRecorded => "VerificationRecorded"@,
        EventKind::MemoryCandidateCreated => "MemoryCandidateCreated"@,
        EventKind::MemoryRejected => "MemoryRejected"@,
        EventKind::MemoryPromoted => "MemoryPromoted"@,
        EventKind::MemorySuperseded => "MemorySuperseded"@,
        EventKind::MemoryExpired => "MemoryExpired"@,
        EventKind::SleepRunStarted => "SleepRunStarted"@,
        EventKind::SleepRunCompleted => "SleepRunCompleted"@,
        EventKind::SleepRunInterrupted => "SleepRunInterrupted"@,
        EventKind::SleepRunFailed => "SleepRunFailed"@,
        EventKind::IntegrationCandidateCreated => "IntegrationCandidateCreated"@,
        EventKind::IntegrationCandidateVerified => "IntegrationCandidateVerified"@,
        EventKind::IntegrationCandidateRejected => "IntegrationCandidateRejected"@,
        EventKind::IntegrationCandidateMaterialized => "IntegrationCandidateMaterialized"@,
        EventKind::ResponseProduced => "ResponseProduced"@,
        EventKind::StateChanged => "StateChanged"@,
    }
}

/// The name of an event kind.
pub fn event_kind_text(kind: EventKind) -> (r: String)
    ensures
        r@ == event_kind_name(kind),
{
    match kind {
        EventKind::PrincipalCreated => "PrincipalCreated".to_owned(),
        EventKind::IdentityVersionCreated => "IdentityVersionCreated".to_owned(),
        EventKind::RelationshipCreated => "RelationshipCreated".to_owned(),
        EventKind::ObservationRecorded => "ObservationRecorded".to_owned(),
        EventKind::UserMessageReceived => "UserMessageReceived".to_owned(),
        EventKind::FocusResolved => "FocusResolved".to_owned(),
        EventKind::GoalCreated => "GoalCreated".to_owned(),
        EventKind::TaskCreated => "TaskCreated".to_owned(),
        EventKind::TaskCompleted => "TaskCompleted".to_owned(),
        EventKind::RunStarted => "RunStarted".to_owned(),
        EventKind::RunSuspended => "RunSuspended".to_owned(),
        EventKind::RunCompleted => "RunCompleted".to_owned(),
        EventKind::AttemptStarted => "AttemptStarted".to_owned(),
        EventKind::AttemptCompleted => "AttemptCompleted".to_owned(),
        EventKind::WorkingStateUpdated => "WorkingStateUpdated".to_owned(),
        EventKind::DecisionCreated => "DecisionCreated".to_owned(),
        EventKind::PositionEstablished => "PositionEstablished".to_owned(),
        EventKind::PositionMaintained => "PositionMaintained".to_owned(),
        EventKind::PositionRecorded => "PositionRecorded".to_owned(),
        EventKind::PositionRevised => "PositionRevised".to_owned(),
        EventKind::PositionRetracted => "PositionRetracted".to_owned(),
        EventKind::ConflictOpened => "ConflictOpened".to_owned(),
        EventKind::ConflictRecorded => "ConflictRecorded".to_owned(),
        EventKind::ConflictUpdated => "ConflictUpdated".to_owned(),
        EventKind::ConflictResolved => "ConflictResolved".to_owned(),
        EventKind::CommitmentCreated => "CommitmentCreated".to_owned(),
        EventKind::CommitmentFulfilled => "CommitmentFulfilled".to_owned(),
        EventKind::ActionIntentCreated => "ActionIntentCreated".to_owned(),
        EventKind::OperationPlanned => "OperationPlanned".to_owned(),
        EventKind::OperationAuthorized => "OperationAuthorized".to_owned(),
        EventKind::OperationStarted => "OperationStarted".to_owned(),
        EventKind::OperationSucceeded => "OperationSucceeded".to_owned(),
        EventKind::OperationFailed => "OperationFailed".to_owned(),
        EventKind::OperationStateUnknown => "OperationStateUnknown".to_owned(),
        EventKind::ArtifactCreated => "ArtifactCreated".to_owned(),
        EventKind::CompletionCriterionDefined => "CompletionCriterionDefined".to_owned(),
        EventKind::CompletionClaimCreated => "CompletionClaimCreated".to_owned(),
        EventKind::CompletionClaimVerified => "CompletionClaimVerified".to_owned(),
        EventKind::CompletionClaimRejected => "CompletionClaimRejected".to_owned(),
        EventKind::ApprovalRequested => "ApprovalRequested".to_owned(),
        EventKind::ApprovalResolved => "ApprovalResolved".to_owned(),
        EventKind::ReceiptRecorded => "ReceiptRecorded".to_owned(),
        EventKind::VerificationRecorded => "VerificationRecorded".to_owned(),
        EventKind::MemoryCandidateCreated => "MemoryCandidateCreated".to_owned(),
        EventKind::MemoryRejected => "MemoryRejected".to_owned(),
        EventKind::MemoryPromoted => "MemoryPromoted".to_owned(),
        EventKind::MemorySuperseded => "MemorySuperseded".to_owned(),
        EventKind::MemoryExpired => "MemoryExpired".to_owned(),
        EventKind::SleepRunStarted => "SleepRunStarted".to_owned(),
        EventKind::SleepRunCompleted => "SleepRunCompleted".to_owned(),
        EventKind::SleepRunInterrupted => "SleepRunInterrupted".to_owned(),
        EventKind::SleepRunFailed => "SleepRunFailed".to_owned(),
        EventKind::IntegrationCandidateCreated => "IntegrationCandidateCreated".to_owned(),
        EventKind::IntegrationCandidateVerified => "IntegrationCandidateVerified".to_owned(),
        EventKind::IntegrationCandidateRejected => "IntegrationCandidateRejected".to_owned(),
        EventKind::IntegrationCandidateMaterialized => "IntegrationCandidateMaterialized".to_owned(),
        EventKind::ResponseProduced => "ResponseProduced".to_owned(),
        EventKind::StateChanged => "StateChanged".to_owned(),
    }
}

} // verus!
