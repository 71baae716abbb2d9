//! The projected entities the runtime reads, held as plain values.
//! Identifiers are the 128-bit values of the entities' UUIDs.
use vstd::prelude::*;

use crate::table::Keyed;

verus! {

pub type PrincipalId = u128;

pub type IdentityVersionId = u128;

pub type RelationshipId = u128;

pub type ObservationId = u128;

pub type GoalId = u128;

pub type TaskId = u128;

pub type RunId = u128;

pub type AttemptId = u128;

pub type EventId = u128;

pub type PositionId = u128;

pub type ConflictId = u128;

pub type ApprovalId = u128;

pub type OperationId = u128;

pub type ArtifactId = u128;

pub type CompletionCriterionId = u128;

pub type CompletionClaimId = u128;

pub type MemoryId = u128;

pub type MemoryCandidateId = u128;

pub type SleepRunId = u128;

/// A copy of a list of identifiers.
pub fn clone_ids(ids: &Vec<u128>) -> (r: Vec<u128>)
    ensures
        r@ == ids@,
{
    let mut out: Vec<u128> = Vec::new();
    let mut i: usize = 0;
    while i < ids.len()
        invariant
            i <= ids@.len(),
            out@ == ids@.subrange(0, i as int),
        decreases ids@.len() - i,
    {
        out.push(ids[i]);
        i = i + 1;
    }
    proof {
        assert(ids@.subrange(0, ids@.len() as int) =~= ids@);
    }
    out
}

/// A copy of a list of strings.
pub fn clone_strings(items: &Vec<String>) -> (r: Vec<String>)
    ensures
        r@ == items@,
{
    let mut out: Vec<String> = Vec::new();
    let mut i: usize = 0;
    while i < items.len()
        invariant
            i <= items@.len(),
            out@ == items@.subrange(0, i as int),
        decreases items@.len() - i,
    {
        out.push(items[i].clone());
        i = i + 1;
    }
    proof {
        assert(items@.subrange(0, items@.len() as int) =~= items@);
    }
    out
}

/// A copy of an optional string.
pub fn clone_opt_string(value: &Option<String>) -> (r: Option<String>)
    ensures
        r == *value,
{
    match value {
        Some(text) => Some(text.clone()),
        None => None,
    }
}

/// Whether `id` occurs in `ids`.
pub fn contains_id(ids: &Vec<u128>, id: u128) -> (r: bool)
    ensures
        r == ids@.contains(id),
{
    let mut i: usize = 0;
    while i < ids.len()
        invariant
            i <= ids@.len(),
            forall|j: int| 0 <= j < i ==> ids@[j] != id,
        decreases ids@.len() - i,
    {
        if ids[i] == id {
            return true;
        }
        i = i + 1;
    }
    false
}

#[derive(Clone, Copy, Debug, PartialEq, Eq, Structural)]
pub enum PrincipalKind {
    Hekate,
    User,
}

pub struct Principal {
    pub id: PrincipalId,
    pub kind: PrincipalKind,
    pub name: String,
    /// The identity version the principal currently holds, if any.
    pub identity_version_id: Option<IdentityVersionId>,
}

/// A version of a principal's identity, kept as recorded.
pub struct IdentityVersion {
    pub id: IdentityVersionId,
    pub principal_id: PrincipalId,
    pub body: String,
}

pub struct Relationship {
    pub id: RelationshipId,
    pub participants: Vec<PrincipalId>,
    pub unresolved_conflicts: Vec<ConflictId>,
}

pub struct Observation {
    pub id: ObservationId,
    pub actor_id: PrincipalId,
    pub content: String,
    pub thread_id: Option<String>,
    /// The identifier the external channel gave the message, if any.
    pub message_id: Option<String>,
    pub source_type: String,
    pub source_ref: Option<String>,
}

#[derive(Clone, Copy, Debug, PartialEq, Eq, Structural)]
pub enum GoalStatus {
    Active,
    Completed,
    Abandoned,
}

pub struct Goal {
    pub id: GoalId,
    pub owner_principal_id: PrincipalId,
    pub participants: Vec<PrincipalId>,
    pub title: String,
    pub status: GoalStatus,
}

#[derive(Clone, Copy, Debug, PartialEq, Eq, Structural)]
pub enum TaskStatus {
    Pending,
    InProgress,
    Blocked,
    Completed,
    Cancelled,
}

pub struct Task {
    pub id: TaskId,
    pub goal_id: Option<GoalId>,
    pub title: String,
    pub status: TaskStatus,
}

#[derive(Clone, Copy, Debug, PartialEq, Eq, Structural)]
pub enum RunStatus {
    Pending,
    Running,
    Suspended,
    NeedsAttention,
    Completed,
    Failed,
}

pub struct Run {
    pub id: RunId,
    pub task_id: Option<TaskId>,
    pub status: RunStatus,
    /// RFC 3339 timestamp; later runs compare greater.
    pub started_at: String,
}

#[derive(Clone, Copy, Debug, PartialEq, Eq, Structural)]
pub enum AttemptStatus {
    Started,
    Succeeded,
    Failed,
}

pub struct Attempt {
    pub id: AttemptId,
    pub run_id: RunId,
    pub status: AttemptStatus,
}

/// The goal, task and run an interaction is attached to.
#[derive(Clone, Copy, Debug, PartialEq, Eq, Structural)]
pub struct Focus {
    pub goal_id: Option<GoalId>,
    pub task_id: Option<TaskId>,
    pub run_id: Option<RunId>,
}

impl Focus {
    /// A focus attached to no work.
    pub fn unattached() -> (r: Focus)
        ensures
            r.goal_id is None && r.task_id is None && r.run_id is None,
    {
        Focus { goal_id: None, task_id: None, run_id: None }
    }
}

#[derive(Clone, Copy, Debug, PartialEq, Eq, Structural)]
pub enum Stance {
    Support,
    Oppose,
    Uncertain,
    Neutral,
}

#[derive(Clone, Copy, Debug, PartialEq, Eq, Structural)]
pub enum PositionStatus {
    Active,
    Superseded,
    Retracted,
}

pub struct Position {
    pub id: PositionId,
    pub principal_id: PrincipalId,
    pub subject: String,
    pub stance: Stance,
    pub status: PositionStatus,
    pub version: u32,
    pub supersedes: Option<PositionId>,
    pub confidence: u8,
    pub evidence_refs: Vec<EventId>,
    pub reasons: Vec<String>,
    pub reconsideration_conditions: Vec<String>,
}

#[derive(Clone, Copy, Debug, PartialEq, Eq, Structural)]
pub enum ConflictStatus {
    Open,
    Negotiating,
    Resolved,
    AcceptedDisagreement,
}

pub struct Conflict {
    pub id: ConflictId,
    pub subject: String,
    pub status: ConflictStatus,
    pub revision: u32,
    pub participant_positions: Vec<PositionId>,
    pub evidence_refs: Vec<EventId>,
    pub reasons: Vec<String>,
    pub reconsideration_conditions: Vec<String>,
    pub unresolved_questions: Vec<String>,
    pub resolution: Option<String>,
}

#[derive(Clone, Copy, Debug, PartialEq, Eq, Structural)]
pub enum ApprovalStatus {
    Pending,
    Approved,
    Denied,
}

pub struct Approval {
    pub id: ApprovalId,
    pub operation_id: OperationId,
    pub status: ApprovalStatus,
    /// The principal who approved or denied the request, once resolved.
    pub resolved_by: Option<PrincipalId>,
}

#[derive(Clone, Copy, Debug, PartialEq, Eq, Structural)]
pub enum OperationStatus {
    Planned,
    Authorized,
    Started,
    Succeeded,
    Verified,
    Failed,
    Disputed,
    Unknown,
}

pub struct Operation {
    pub id: OperationId,
    /// The action intent the operation carries out.
    pub intent_id: u128,
    pub status: OperationStatus,
    /// The approval the operation waits for, where policy asks for one.
    pub approval_id: Option<ApprovalId>,
}

#[derive(Clone, Copy, Debug, PartialEq, Eq, Structural)]
pub enum VerificationStatus {
    Verified,
    Disputed,
    Failed,
}

pub struct Verification {
    pub id: u128,
    pub operation_id: OperationId,
    pub status: VerificationStatus,
}

pub struct Artifact {
    pub id: ArtifactId,
    pub path: String,
    pub content_hash: String,
    pub size: u64,
    pub media_type: String,
    pub provenance_event_id: EventId,
}

#[derive(Clone, Copy, Debug, PartialEq, Eq, Structural)]
pub enum VerificationDisposition {
    NeedsValidation,
    Verified,
    Rejected,
}

pub struct CompletionCriterion {
    pub id: CompletionCriterionId,
    pub task_id: TaskId,
    pub description: String,
    pub required: bool,
}

/// Evidence for a completion claim: an event of the ledger, optionally an
/// artifact it produced, and the hash the claimant saw.
pub struct EvidenceRef {
    pub event_id: EventId,
    pub artifact_id: Option<ArtifactId>,
    pub source_hash: String,
    pub as_of_sequence: u64,
}

pub struct CompletionClaim {
    pub id: CompletionClaimId,
    pub task_id: TaskId,
    pub criterion_id: CompletionCriterionId,
    pub disposition: VerificationDisposition,
    pub confidence: u8,
    pub evidence_refs: Vec<EvidenceRef>,
    pub blocker: Option<String>,
    pub fingerprint: String,
    pub as_of_sequence: u64,
    pub supersedes: Option<CompletionClaimId>,
}

pub struct CompletionClaimTransition {
    pub claim_id: CompletionClaimId,
    pub task_id: TaskId,
    pub criterion_id: CompletionCriterionId,
    pub previous_disposition: VerificationDisposition,
    pub disposition: VerificationDisposition,
    pub reason: String,
    pub evidence_refs: Vec<EvidenceRef>,
}

#[derive(Clone, Copy, Debug, PartialEq, Eq, Structural)]
pub enum MemoryKind {
    ExplicitPreference,
    VerifiedFact,
    Lesson,
    Episode,
    InferredPreference,
}

#[derive(Clone, Copy, Debug, PartialEq, Eq, Structural)]
pub enum ActiveMemoryStatus {
    Active,
    Superseded,
    Expired,
}

pub struct ActiveMemory {
    pub id: MemoryId,
    pub candidate_id: MemoryCandidateId,
    pub kind: MemoryKind,
    pub content: String,
    pub subject_principal_id: Option<PrincipalId>,
    pub status: ActiveMemoryStatus,
    pub source_event_ids: Vec<EventId>,
}

#[derive(Clone, Copy, Debug, PartialEq, Eq, Structural)]
pub enum MemoryCandidateStatus {
    Candidate,
    Promoted,
    Rejected,
    Superseded,
    Expired,
}

pub struct MemoryCandidate {
    pub id: MemoryCandidateId,
    pub kind: MemoryKind,
    pub content: String,
    pub subject_principal_id: Option<PrincipalId>,
    pub status: MemoryCandidateStatus,
    pub source_event_ids: Vec<EventId>,
}

#[derive(Clone, Copy, Debug, PartialEq, Eq, Structural)]
pub enum SleepRunStatus {
    Running,
    Completed,
    Interrupted,
    Failed,
}

pub struct SleepRun {
    pub id: SleepRunId,
    pub status: SleepRunStatus,
    pub high_water_revision: u64,
    pub cursor_before: u64,
    pub cursor_after: Option<u64>,
    pub seed_event_ids: Vec<EventId>,
    pub processed_observation_count: u32,
    pub created_candidate_count: u32,
    pub started_at: String,
    pub finished_at: Option<String>,
    pub error_kind: Option<String>,
}

pub type IntegrationCandidateId = u128;

/// What an integration candidate proposes to change.
#[derive(Clone, Copy, Debug, PartialEq, Eq, Structural)]
pub enum IntegrationCandidateKind {
    Memory,
    Association,
    Position,
    Conflict,
    Relationship,
    Identity,
    Goal,
}

/// A change to HEKATE's long-term state that a sleep pass proposes, with
/// the events it rests on and those that speak against it.
pub struct IntegrationCandidate {
    pub id: IntegrationCandidateId,
    pub sleep_run_id: SleepRunId,
    pub kind: IntegrationCandidateKind,
    pub disposition: VerificationDisposition,
    pub content: String,
    pub rationale: String,
    pub source_event_ids: Vec<EventId>,
    pub counterevidence_event_ids: Vec<EventId>,
    pub confidence: u8,
    pub as_of_revision: u64,
    pub fingerprint: String,
}

/// The verdict on an integration candidate.
pub struct IntegrationVerification {
    pub candidate_id: IntegrationCandidateId,
    pub previous_disposition: VerificationDisposition,
    pub new_disposition: VerificationDisposition,
    pub actor_id: PrincipalId,
    pub reason: String,
    pub evidence_refs: Vec<EvidenceRef>,
    pub as_of_revision: u64,
}

/// The memory a verified candidate became.
pub struct IntegrationMaterialization {
    pub candidate_id: IntegrationCandidateId,
    pub memory_candidate_id: MemoryCandidateId,
    pub memory_id: MemoryId,
    pub source_event_ids: Vec<EventId>,
    pub counterevidence_event_ids: Vec<EventId>,
    pub evidence_refs: Vec<EvidenceRef>,
    pub fingerprint: String,
    pub as_of_revision: u64,
}

/// An entity whose content the runtime stores but does not read here
/// (decisions, commitments, action intents, receipts, working states).
/// What a Position integration does to HEKATE's Positions.
#[derive(Clone, Copy, Debug, PartialEq, Eq, Structural)]
pub enum PositionIntegrationActionKind {
    Establish,
    Revise,
    Withdraw,
}

/// The typed proposal a Position candidate carries in its content.
pub enum PositionIntegrationOperation {
    Establish {
        subject: String,
        stance: Stance,
        reasons: Vec<String>,
        reconsideration_conditions: Vec<String>,
    },
    Revise {
        position_id: PositionId,
        expected_version: u32,
        stance: Stance,
        reasons: Vec<String>,
        reconsideration_conditions: Vec<String>,
    },
    Withdraw { position_id: PositionId, expected_version: u32, reason: String },
}

/// The record of a verified Position candidate turned into a Position.
pub struct PositionIntegrationMaterialization {
    pub candidate_id: IntegrationCandidateId,
    pub position_id: PositionId,
    pub position_event_id: EventId,
    pub verification_event_id: EventId,
    pub action: PositionIntegrationActionKind,
    pub prior_position: Option<Position>,
    pub source_event_ids: Vec<EventId>,
    pub counterevidence_event_ids: Vec<EventId>,
    pub evidence_refs: Vec<EvidenceRef>,
    pub fingerprint: String,
    pub as_of_revision: u64,
}

pub struct Record {
    pub id: u128,
    pub body: String,
}

#[derive(Clone, Copy, Debug, PartialEq, Eq, Structural)]
pub enum DecisionKind {
    Respond,
    Ask,
    Act,
    Suspend,
    Complete,
}

/// An action HEKATE intends to take through a capability.
pub struct ActionIntent {
    pub id: u128,
    pub capability: String,
    pub operation: String,
    pub target: String,
    pub arguments: String,
    pub expected_effect: String,
    pub preconditions: Vec<String>,
    pub proposed_by_event: Option<EventId>,
}

/// An action as the model proposes it, before it is given an identity.
pub struct ActionProposal {
    pub capability: String,
    pub operation: String,
    pub target: String,
    pub arguments: String,
    pub expected_effect: String,
    pub preconditions: Vec<String>,
}

/// HEKATE's judgment on an observation.
pub struct Decision {
    pub id: u128,
    pub kind: DecisionKind,
    pub message: String,
    pub target_principal_id: Option<PrincipalId>,
    pub request: String,
    pub context_hash: String,
    pub confidence: u8,
    pub reasons: Vec<String>,
    pub evidence_refs: Vec<EventId>,
    pub alternatives: Vec<String>,
    pub reconsideration_conditions: Vec<String>,
    pub unresolved_questions: Vec<String>,
    pub related_position_ids: Vec<PositionId>,
    pub user_position: Option<Position>,
    pub cognitive_trace_id: Option<String>,
    pub position: Option<Position>,
    pub conflict: Option<Conflict>,
    pub action: Option<ActionIntent>,
}

/// The final step of a thought cycle: what HEKATE commits to.
pub struct CycleCommitment {
    pub final_act: DecisionKind,
    pub response: String,
    pub confidence: u8,
    pub reasons: Vec<String>,
    pub evidence_refs: Vec<EventId>,
    pub alternatives: Vec<String>,
    pub reconsideration_conditions: Vec<String>,
    pub unresolved_questions: Vec<String>,
    pub related_position_ids: Vec<PositionId>,
    pub user_position: Option<Position>,
    pub position: Option<Position>,
    pub conflict: Option<Conflict>,
    pub action: Option<ActionProposal>,
}

/// One thought cycle of the cognitive model.
pub struct ThoughtCycle {
    pub commitment: CycleCommitment,
    pub trace_id: String,
}

/// What HEKATE thinks with during one cycle: the observation, its focus,
/// the positions in play and the events it may cite.
pub struct ThoughtContext {
    pub event_sequence: u64,
    pub observation: Observation,
    pub focus: Focus,
    pub positions: Vec<Position>,
    pub user_positions: Vec<Position>,
    pub conflicts: Vec<Conflict>,
    pub recent_event_ids: Vec<EventId>,
    /// The source events of what recall brought into the context.
    pub recalled_event_ids: Vec<EventId>,
    /// HEKATE's identity, the relationship with HEKATE, and the focus's
    /// goal, task and run, where there are such.
    pub identity: Option<IdentityVersion>,
    pub relationship: Option<Relationship>,
    pub goal: Option<Goal>,
    pub task: Option<Task>,
    pub run: Option<Run>,
    pub memories: Vec<ActiveMemory>,
    pub memory_candidates: Vec<MemoryCandidate>,
    pub pending_approvals: Vec<Approval>,
    pub artifacts: Vec<Artifact>,
    pub available_capabilities: Vec<String>,
    /// The shape the cognitive model answers in.
    pub output_schema: String,
    /// The serialized context snapshot the cycle was given, if any.
    pub context_snapshot: Option<String>,
    /// The seal over everything else the context holds.
    pub snapshot_hash: String,
}

#[derive(Clone, Copy, Debug, PartialEq, Eq, Structural)]
pub enum EntityKind {
    Principal,
    IdentityVersion,
    Relationship,
    Observation,
    Goal,
    Task,
    Run,
    Attempt,
    WorkingState,
    Decision,
    Position,
    Conflict,
    Commitment,
    ActionIntent,
    Operation,
    Approval,
    Receipt,
    Verification,
    Artifact,
    MemoryCandidate,
    Memory,
    CompletionCriterion,
    CompletionClaim,
    SleepRun,
    IntegrationCandidate,
    Initiative,
}

/// A typed reference to an entity.
#[derive(Clone, Copy, Debug, PartialEq, Eq, Structural)]
pub struct EntityRef {
    pub kind: EntityKind,
    pub id: u128,
}

impl Keyed for Principal {
    open spec fn spec_key(&self) -> u128 {
        self.id
    }

    fn key(&self) -> (k: u128) {
        self.id
    }
}

impl Keyed for IdentityVersion {
    open spec fn spec_key(&self) -> u128 {
        self.id
    }

    fn key(&self) -> (k: u128) {
        self.id
    }
}

impl Keyed for Relationship {
    open spec fn spec_key(&self) -> u128 {
        self.id
    }

    fn key(&self) -> (k: u128) {
        self.id
    }
}

impl Keyed for Observation {
    open spec fn spec_key(&self) -> u128 {
        self.id
    }

    fn key(&self) -> (k: u128) {
        self.id
    }
}

impl Keyed for Goal {
    open spec fn spec_key(&self) -> u128 {
        self.id
    }

    fn key(&self) -> (k: u128) {
        self.id
    }
}

impl Keyed for Task {
    open spec fn spec_key(&self) -> u128 {
        self.id
    }

    fn key(&self) -> (k: u128) {
        self.id
    }
}

impl Keyed for Run {
    open spec fn spec_key(&self) -> u128 {
        self.id
    }

    fn key(&self) -> (k: u128) {
        self.id
    }
}

impl Keyed for Attempt {
    open spec fn spec_key(&self) -> u128 {
        self.id
    }

    fn key(&self) -> (k: u128) {
        self.id
    }
}

impl Keyed for Position {
    open spec fn spec_key(&self) -> u128 {
        self.id
    }

    fn key(&self) -> (k: u128) {
        self.id
    }
}

impl Keyed for Conflict {
    open spec fn spec_key(&self) -> u128 {
        self.id
    }

    fn key(&self) -> (k: u128) {
        self.id
    }
}

impl Keyed for Approval {
    open spec fn spec_key(&self) -> u128 {
        self.id
    }

    fn key(&self) -> (k: u128) {
        self.id
    }
}

impl Keyed for Operation {
    open spec fn spec_key(&self) -> u128 {
        self.id
    }

    fn key(&self) -> (k: u128) {
        self.id
    }
}

impl Keyed for Verification {
    open spec fn spec_key(&self) -> u128 {
        self.id
    }

    fn key(&self) -> (k: u128) {
        self.id
    }
}

impl Keyed for Artifact {
    open spec fn spec_key(&self) -> u128 {
        self.id
    }

    fn key(&self) -> (k: u128) {
        self.id
    }
}

impl Keyed for CompletionCriterion {
    open spec fn spec_key(&self) -> u128 {
        self.id
    }

    fn key(&self) -> (k: u128) {
        self.id
    }
}

impl Keyed for CompletionClaim {
    open spec fn spec_key(&self) -> u128 {
        self.id
    }

    fn key(&self) -> (k: u128) {
        self.id
    }
}

impl Keyed for ActiveMemory {
    open spec fn spec_key(&self) -> u128 {
        self.id
    }

    fn key(&self) -> (k: u128) {
        self.id
    }
}

impl Keyed for MemoryCandidate {
    open spec fn spec_key(&self) -> u128 {
        self.id
    }

    fn key(&self) -> (k: u128) {
        self.id
    }
}

impl Keyed for SleepRun {
    open spec fn spec_key(&self) -> u128 {
        self.id
    }

    fn key(&self) -> (k: u128) {
        self.id
    }
}

impl Keyed for IntegrationCandidate {
    open spec fn spec_key(&self) -> u128 {
        self.id
    }

    fn key(&self) -> (k: u128) {
        self.id
    }
}

impl Keyed for IntegrationVerification {
    open spec fn spec_key(&self) -> u128 {
        self.candidate_id
    }

    fn key(&self) -> (k: u128) {
        self.candidate_id
    }
}

impl Keyed for IntegrationMaterialization {
    open spec fn spec_key(&self) -> u128 {
        self.candidate_id
    }

    fn key(&self) -> (k: u128) {
        self.candidate_id
    }
}

impl Keyed for PositionIntegrationMaterialization {
    open spec fn spec_key(&self) -> u128 {
        self.candidate_id
    }

    fn key(&self) -> (k: u128) {
        self.candidate_id
    }
}

impl Keyed for Record {
    open spec fn spec_key(&self) -> u128 {
        self.id
    }

    fn key(&self) -> (k: u128) {
        self.id
    }
}

} // verus!

verus! {

/// Two positions hold the same values.
pub open spec fn same_position(a: Position, b: Position) -> bool {
    &&& a.id == b.id
    &&& a.principal_id == b.principal_id
    &&& a.subject == b.subject
    &&& a.stance == b.stance
    &&& a.status == b.status
    &&& a.version == b.version
    &&& a.supersedes == b.supersedes
    &&& a.confidence == b.confidence
    &&& a.evidence_refs@ == b.evidence_refs@
    &&& a.reasons@ == b.reasons@
    &&& a.reconsideration_conditions@ == b.reconsideration_conditions@
}

/// Two optional positions hold the same values.
pub open spec fn same_opt_position(a: Option<Position>, b: Option<Position>) -> bool {
    match (a, b) {
        (Some(x), Some(y)) => same_position(x, y),
        (None, None) => true,
        _ => false,
    }
}

/// Two conflicts hold the same values.
pub open spec fn same_conflict(a: Conflict, b: Conflict) -> bool {
    &&& a.id == b.id
    &&& a.subject == b.subject
    &&& a.status == b.status
    &&& a.revision == b.revision
    &&& a.participant_positions@ == b.participant_positions@
    &&& a.evidence_refs@ == b.evidence_refs@
    &&& a.reasons@ == b.reasons@
    &&& a.reconsideration_conditions@ == b.reconsideration_conditions@
    &&& a.unresolved_questions@ == b.unresolved_questions@
    &&& a.resolution == b.resolution
}

/// Two optional conflicts hold the same values.
pub open spec fn same_opt_conflict(a: Option<Conflict>, b: Option<Conflict>) -> bool {
    match (a, b) {
        (Some(x), Some(y)) => same_conflict(x, y),
        (None, None) => true,
        _ => false,
    }
}

/// A copy of a position.
pub fn clone_position(p: &Position) -> (r: Position)
    ensures
        same_position(r, *p),
{
    Position {
        id: p.id,
        principal_id: p.principal_id,
        subject: p.subject.clone(),
        stance: p.stance,
        status: p.status,
        version: p.version,
        supersedes: p.supersedes,
        confidence: p.confidence,
        evidence_refs: clone_ids(&p.evidence_refs),
        reasons: clone_strings(&p.reasons),
        reconsideration_conditions: clone_strings(&p.reconsideration_conditions),
    }
}

/// A copy of an optional position.
pub fn clone_opt_position(p: &Option<Position>) -> (r: Option<Position>)
    ensures
        same_opt_position(r, *p),
{
    match p {
        Some(position) => Some(clone_position(position)),
        None => None,
    }
}

/// A copy of a conflict.
pub fn clone_conflict(c: &Conflict) -> (r: Conflict)
    ensures
        same_conflict(r, *c),
{
    Conflict {
        id: c.id,
        subject: c.subject.clone(),
        status: c.status,
        revision: c.revision,
        participant_positions: clone_ids(&c.participant_positions),
        evidence_refs: clone_ids(&c.evidence_refs),
        reasons: clone_strings(&c.reasons),
        reconsideration_conditions: clone_strings(&c.reconsideration_conditions),
        unresolved_questions: clone_strings(&c.unresolved_questions),
        resolution: clone_opt_string(&c.resolution),
    }
}

/// A copy of an optional conflict.
pub fn clone_opt_conflict(c: &Option<Conflict>) -> (r: Option<Conflict>)
    ensures
        same_opt_conflict(r, *c),
{
    match c {
        Some(conflict) => Some(clone_conflict(conflict)),
        None => None,
    }
}

/// A copy of a piece of evidence.
pub fn clone_evidence(e: &EvidenceRef) -> (r: EvidenceRef)
    ensures
        r == *e,
{
    EvidenceRef {
        event_id: e.event_id,
        artifact_id: e.artifact_id,
        source_hash: e.source_hash.clone(),
        as_of_sequence: e.as_of_sequence,
    }
}

/// A copy of a list of evidence.
pub fn clone_evidence_refs(items: &Vec<EvidenceRef>) -> (r: Vec<EvidenceRef>)
    ensures
        r@ == items@,
{
    let mut out: Vec<EvidenceRef> = Vec::new();
    let mut i: usize = 0;
    while i < items.len()
        invariant
            i <= items@.len(),
            out@ == items@.subrange(0, i as int),
        decreases items@.len() - i,
    {
        out.push(clone_evidence(&items[i]));
        proof {
            assert(items@.subrange(0, i + 1) =~= items@.subrange(0, i as int).push(items@[i as int]));
        }
        i = i + 1;
    }
    proof {
        assert(items@.subrange(0, items@.len() as int) =~= items@);
    }
    out
}

/// Two claims hold the same values.
pub open spec fn same_claim(a: CompletionClaim, b: CompletionClaim) -> bool {
    &&& a.id == b.id
    &&& a.task_id == b.task_id
    &&& a.criterion_id == b.criterion_id
    &&& a.disposition == b.disposition
    &&& a.confidence == b.confidence
    &&& a.evidence_refs@ == b.evidence_refs@
    &&& a.blocker == b.blocker
    &&& a.fingerprint == b.fingerprint
    &&& a.as_of_sequence == b.as_of_sequence
    &&& a.supersedes == b.supersedes
}

/// A copy of a claim.
pub fn clone_claim(c: &CompletionClaim) -> (r: CompletionClaim)
    ensures
        same_claim(r, *c),
{
    CompletionClaim {
        id: c.id,
        task_id: c.task_id,
        criterion_id: c.criterion_id,
        disposition: c.disposition,
        confidence: c.confidence,
        evidence_refs: clone_evidence_refs(&c.evidence_refs),
        blocker: clone_opt_string(&c.blocker),
        fingerprint: c.fingerprint.clone(),
        as_of_sequence: c.as_of_sequence,
        supersedes: c.supersedes,
    }
}

/// Two integration candidates hold the same values.
pub open spec fn same_candidate(a: IntegrationCandidate, b: IntegrationCandidate) -> bool {
    &&& a.id == b.id
    &&& a.sleep_run_id == b.sleep_run_id
    &&& a.kind == b.kind
    &&& a.disposition == b.disposition
    &&& a.content == b.content
    &&& a.rationale == b.rationale
    &&& a.source_event_ids@ == b.source_event_ids@
    &&& a.counterevidence_event_ids@ == b.counterevidence_event_ids@
    &&& a.confidence == b.confidence
    &&& a.as_of_revision == b.as_of_revision
    &&& a.fingerprint == b.fingerprint
}

/// A copy of an integration candidate.
pub fn clone_candidate(c: &IntegrationCandidate) -> (r: IntegrationCandidate)
    ensures
        same_candidate(r, *c),
{
    IntegrationCandidate {
        id: c.id,
        sleep_run_id: c.sleep_run_id,
        kind: c.kind,
        disposition: c.disposition,
        content: c.content.clone(),
        rationale: c.rationale.clone(),
        source_event_ids: clone_ids(&c.source_event_ids),
        counterevidence_event_ids: clone_ids(&c.counterevidence_event_ids),
        confidence: c.confidence,
        as_of_revision: c.as_of_revision,
        fingerprint: c.fingerprint.clone(),
    }
}

/// Two verdicts hold the same values.
pub open spec fn same_verification(a: IntegrationVerification, b: IntegrationVerification) -> bool {
    &&& a.candidate_id == b.candidate_id
    &&& a.previous_disposition == b.previous_disposition
    &&& a.new_disposition == b.new_disposition
    &&& a.actor_id == b.actor_id
    &&& a.reason == b.reason
    &&& a.evidence_refs@ == b.evidence_refs@
    &&& a.as_of_revision == b.as_of_revision
}

/// A copy of a verdict.
pub fn clone_verification(v: &IntegrationVerification) -> (r: IntegrationVerification)
    ensures
        same_verification(r, *v),
{
    IntegrationVerification {
        candidate_id: v.candidate_id,
        previous_disposition: v.previous_disposition,
        new_disposition: v.new_disposition,
        actor_id: v.actor_id,
        reason: v.reason.clone(),
        evidence_refs: clone_evidence_refs(&v.evidence_refs),
        as_of_revision: v.as_of_revision,
    }
}

/// Two materializations hold the same values.
pub open spec fn same_materialization(a: IntegrationMaterialization, b: IntegrationMaterialization) -> bool {
    &&& a.candidate_id == b.candidate_id
    &&& a.memory_candidate_id == b.memory_candidate_id
    &&& a.memory_id == b.memory_id
    &&& a.source_event_ids@ == b.source_event_ids@
    &&& a.counterevidence_event_ids@ == b.counterevidence_event_ids@
    &&& a.evidence_refs@ == b.evidence_refs@
    &&& a.fingerprint == b.fingerprint
    &&& a.as_of_revision == b.as_of_revision
}

/// A copy of a materialization.
pub fn clone_materialization(m: &IntegrationMaterialization) -> (r: IntegrationMaterialization)
    ensures
        same_materialization(r, *m),
{
    IntegrationMaterialization {
        candidate_id: m.candidate_id,
        memory_candidate_id: m.memory_candidate_id,
        memory_id: m.memory_id,
        source_event_ids: clone_ids(&m.source_event_ids),
        counterevidence_event_ids: clone_ids(&m.counterevidence_event_ids),
        evidence_refs: clone_evidence_refs(&m.evidence_refs),
        fingerprint: m.fingerprint.clone(),
        as_of_revision: m.as_of_revision,
    }
}

/// Two Memory candidates hold the same values.
pub open spec fn same_memory_candidate(a: MemoryCandidate, b: MemoryCandidate) -> bool {
    &&& a.id == b.id
    &&& a.kind == b.kind
    &&& a.content == b.content
    &&& a.subject_principal_id == b.subject_principal_id
    &&& a.status == b.status
    &&& a.source_event_ids@ == b.source_event_ids@
}

/// A copy of a Memory candidate.
pub fn clone_memory_candidate(m: &MemoryCandidate) -> (r: MemoryCandidate)
    ensures
        same_memory_candidate(r, *m),
{
    MemoryCandidate {
        id: m.id,
        kind: m.kind,
        content: m.content.clone(),
        subject_principal_id: m.subject_principal_id,
        status: m.status,
        source_event_ids: clone_ids(&m.source_event_ids),
    }
}

/// Two Memories hold the same values.
pub open spec fn same_memory(a: ActiveMemory, b: ActiveMemory) -> bool {
    &&& a.id == b.id
    &&& a.candidate_id == b.candidate_id
    &&& a.kind == b.kind
    &&& a.content == b.content
    &&& a.subject_principal_id == b.subject_principal_id
    &&& a.status == b.status
    &&& a.source_event_ids@ == b.source_event_ids@
}

/// A copy of a Memory.
pub fn clone_memory(m: &ActiveMemory) -> (r: ActiveMemory)
    ensures
        same_memory(r, *m),
{
    ActiveMemory {
        id: m.id,
        candidate_id: m.candidate_id,
        kind: m.kind,
        content: m.content.clone(),
        subject_principal_id: m.subject_principal_id,
        status: m.status,
        source_event_ids: clone_ids(&m.source_event_ids),
    }
}

} // verus!
