//! The engine's decisions around one interaction: which observations it
//! accepts, when a cognitive cycle is stale or does not match its context,
//! which event kind records a position or a conflict, and which events a
//! judgment may cite.
use vstd::prelude::*;
use vstd::string::*;

use crate::completion::{CompletionError, CompletionGate};
use crate::deliberation::JudgmentValidationError;
use crate::format::{uuid_hyphenated, uuid_text};
use crate::json::{field_named, field_view, find_field, json_object_fields, parse_json_object, JsonField};
use crate::model::{
    clone_ids, clone_memory, clone_memory_candidate, same_memory, same_memory_candidate,
    ActionIntent, ActiveMemory, ActiveMemoryStatus, Artifact, ArtifactId, Conflict,
    ConflictStatus, Decision, EventId, MemoryCandidate, MemoryCandidateId,
    MemoryCandidateStatus, MemoryId, MemoryKind, Observation, ObservationId, Position,
    PositionStatus, Principal, PrincipalKind, PrincipalId, IdentityVersion, IdentityVersionId, Relationship, ThoughtContext, Approval, ApprovalId, ApprovalStatus, Operation,
    OperationId, OperationStatus, VerificationStatus, Attempt, AttemptId, AttemptStatus, Focus,
    Goal, GoalId, GoalStatus, Run, RunId, RunStatus, Task, TaskId, TaskStatus, Record,
};
use crate::ids::{parse_uuid, parsed_uuid};
use crate::focus::{resolve_focus, spec_resolve_focus};
use crate::projector::{replay_refused, replays, ProjectionError};
use crate::agree::same_state;
use crate::recovery::{recover, reports, RecoveryError, RecoveryReport};
use crate::recall::SemanticRecall;
use crate::state::{CurrentState, EventKind, ExperienceEvent, Payload};
use crate::table::{contains_key, get, has_key, lookup};
use crate::text::{blank, is_blank};
use crate::context::{first_hekate, hekate_principal};
use crate::context_builder::{identity_id_of, identity_of};
use vstd::utf8::encode_utf8;

verus! {

/// Why the engine refused an interaction or an operation.
pub enum EngineError {
    InvalidObservation(String),
    InvalidCognitiveTrace(String),
    StaleContext { expected: u64, actual: u64 },
    NotFound(String),
    InvalidOperation(String),
    PolicyDenied(String),
    Transition { from: OperationStatus, to: OperationStatus },
    Judgment(JudgmentValidationError),
    Completion(CompletionError),
    Projection(ProjectionError),
    /// The policy could not evaluate an intent.
    Policy(String),
    /// Startup recovery refused the stored projection.
    Recovery(RecoveryError),
    /// A stored payload could not be read; the decoder's message.
    Serialization(String),
}

/// The engine of one relationship: HEKATE and its user.
pub struct Engine {
    hekate_id: PrincipalId,
    user_id: PrincipalId,
    recall: Option<SemanticRecall>,
}

impl Engine {
    pub fn new(hekate_id: PrincipalId, user_id: PrincipalId) -> (r: Engine)
        ensures
            r.spec_hekate_id() == hekate_id,
            r.spec_user_id() == user_id,
            r.spec_recall() is None,
    {
        Engine { hekate_id, user_id, recall: None }
    }

    pub closed spec fn spec_hekate_id(&self) -> PrincipalId {
        self.hekate_id
    }

    pub closed spec fn spec_user_id(&self) -> PrincipalId {
        self.user_id
    }

    pub closed spec fn spec_recall(&self) -> Option<SemanticRecall> {
        self.recall
    }

    /// The engine recalling through `recall`.
    pub fn with_semantic_recall(self, recall: SemanticRecall) -> (r: Engine)
        ensures
            r.spec_hekate_id() == self.spec_hekate_id(),
            r.spec_user_id() == self.spec_user_id(),
            r.spec_recall() == Some(recall),
    {
        Engine { hekate_id: self.hekate_id, user_id: self.user_id, recall: Some(recall) }
    }

    pub fn hekate_id(&self) -> (r: PrincipalId)
        ensures
            r == self.spec_hekate_id(),
    {
        self.hekate_id
    }

    pub fn user_id(&self) -> (r: PrincipalId)
        ensures
            r == self.spec_user_id(),
    {
        self.user_id
    }

    /// The semantic recall the engine uses, if any.
    pub fn recall(&self) -> (r: Option<&SemanticRecall>)
        ensures
            match r {
                Some(x) => self.spec_recall() == Some(*x),
                None => self.spec_recall() is None,
            },
    {
        match &self.recall {
            Some(x) => Some(x),
            None => None,
        }
    }

    /// The completion gate over the engine's ledger.
    pub fn completion_gate(&self) -> (r: CompletionGate) {
        CompletionGate::new()
    }

    /// Checks an observation before anything is recorded: HEKATE and the
    /// user are different principals, the observation comes from the user
    /// and has content.
    pub fn check_observation(&self, observation: &Observation) -> (r: Result<(), EngineError>)
        ensures
            self.spec_user_id() == self.spec_hekate_id() ==> (r matches Err(
                EngineError::InvalidObservation(m),
            ) && m@ == "user and HEKATE must be different principals"@),
            self.spec_user_id() != self.spec_hekate_id() && observation.actor_id
                != self.spec_user_id() ==> (r matches Err(EngineError::InvalidObservation(m))
                && m@ == "observation actor is not the configured user"@),
            self.spec_user_id() != self.spec_hekate_id() && observation.actor_id
                == self.spec_user_id() && is_blank(observation.content@) ==> (r matches Err(
                EngineError::InvalidObservation(m),
            ) && m@ == "observation content cannot be empty"@),
            self.spec_user_id() != self.spec_hekate_id() && observation.actor_id
                == self.spec_user_id() && !is_blank(observation.content@) ==> r is Ok,
    {
        if self.user_id == self.hekate_id {
            return Err(
                EngineError::InvalidObservation(
                    "user and HEKATE must be different principals".to_owned(),
                ),
            );
        }
        if observation.actor_id != self.user_id {
            return Err(
                EngineError::InvalidObservation(
                    "observation actor is not the configured user".to_owned(),
                ),
            );
        }
        if blank(observation.content.as_str()) {
            return Err(
                EngineError::InvalidObservation("observation content cannot be empty".to_owned()),
            );
        }
        Ok(())
    }
}

/// Whether a recorded observation repeats an external message: the new one
/// carries a message identifier and both come from the same source.
pub open spec fn repeats(existing: Observation, observation: Observation) -> bool {
    observation.message_id is Some && existing.source_type@ == observation.source_type@
        && opt_text(existing.source_ref) == opt_text(observation.source_ref)
}

/// The characters of an optional text.
pub open spec fn opt_text(s: Option<String>) -> Option<Seq<char>> {
    match s {
        Some(t) => Some(t@),
        None => None,
    }
}

pub fn same_opt_text(a: &Option<String>, b: &Option<String>) -> (r: bool)
    ensures
        r == (opt_text(*a) == opt_text(*b)),
{
    match (a, b) {
        (Some(x), Some(y)) => *x == *y,
        (None, None) => true,
        _ => false,
    }
}

/// The first recorded observation the new one repeats, if any.
pub fn find_duplicate(state: &CurrentState, observation: &Observation) -> (r: Option<ObservationId>)
    ensures
        match r {
            Some(id) => exists|i: int|
                0 <= i < state.observations@.len() && (#[trigger] state.observations@[i]).id == id
                    && repeats(state.observations@[i], *observation) && forall|j: int|
                    0 <= j < i ==> !repeats(#[trigger] state.observations@[j], *observation),
            None => forall|i: int|
                0 <= i < state.observations@.len() ==> !repeats(
                    #[trigger] state.observations@[i],
                    *observation,
                ),
        },
{
    if observation.message_id.is_none() {
        return None;
    }
    let mut i: usize = 0;
    while i < state.observations.len()
        invariant
            observation.message_id is Some,
            i <= state.observations@.len(),
            forall|j: int| 0 <= j < i ==> !repeats(#[trigger] state.observations@[j], *observation),
        decreases state.observations@.len() - i,
    {
        let existing = &state.observations[i];
        if existing.source_type == observation.source_type && same_opt_text(
            &existing.source_ref,
            &observation.source_ref,
        ) {
            return Some(existing.id);
        }
        i = i + 1;
    }
    None
}

/// The position of the last decision recorded for an observation: the
/// last decision event correlated with the observation's identifier.
pub open spec fn last_decision_at(events: Seq<ExperienceEvent>, observation_id: ObservationId, n: int) -> Option<
    int,
>
    decreases n,
{
    if n <= 0 || n > events.len() {
        None
    } else if events[n - 1].event_kind == EventKind::DecisionCreated
        && events[n - 1].correlation_id is Some && events[n - 1].correlation_id->0@
        == uuid_hyphenated(observation_id) {
        Some(n - 1)
    } else {
        last_decision_at(events, observation_id, n - 1)
    }
}

/// The position of the last decision recorded for an observation.
pub fn prior_decision(events: &[ExperienceEvent], observation_id: ObservationId) -> (r: Option<
    usize,
>)
    ensures
        match r {
            Some(i) => i < events@.len() && last_decision_at(events@, observation_id, events@.len() as int) == Some(
                i as int,
            ),
            None => last_decision_at(events@, observation_id, events@.len() as int) is None,
        },
{
    let wanted = uuid_text(observation_id);
    let mut n: usize = events.len();
    while n > 0
        invariant
            n <= events@.len(),
            wanted@ == uuid_hyphenated(observation_id),
            last_decision_at(events@, observation_id, events@.len() as int) == last_decision_at(
                events@,
                observation_id,
                n as int,
            ),
        decreases n,
    {
        let event = &events[n - 1];
        if event.event_kind == EventKind::DecisionCreated {
            match &event.correlation_id {
                Some(c) => {
                    if *c == wanted {
                        return Some(n - 1);
                    }
                },
                None => {},
            }
        }
        n = n - 1;
    }
    None
}

/// Checks a cognitive cycle against its context: the ledger must not have
/// moved since the context was built, and the cycle's trace must name the
/// context's sequence and hash.
pub fn check_cycle(
    latest_revision: u64,
    context_sequence: u64,
    context_hash: &String,
    trace_sequence: u64,
    trace_hash: &String,
) -> (r: Result<(), EngineError>)
    ensures
        latest_revision != context_sequence ==> (r matches Err(
            EngineError::StaleContext { expected, actual },
        ) && expected == context_sequence && actual == latest_revision),
        latest_revision == context_sequence && (trace_sequence != context_sequence || trace_hash@
            != context_hash@) ==> (r matches Err(EngineError::InvalidCognitiveTrace(m)) && m@
            == "cognitive trace does not match its thought context"@),
        latest_revision == context_sequence && trace_sequence == context_sequence && trace_hash@
            == context_hash@ ==> r is Ok,
{
    if latest_revision != context_sequence {
        return Err(EngineError::StaleContext { expected: context_sequence, actual: latest_revision });
    }
    if trace_sequence != context_sequence || *trace_hash != *context_hash {
        return Err(
            EngineError::InvalidCognitiveTrace(
                "cognitive trace does not match its thought context".to_owned(),
            ),
        );
    }
    Ok(())
}

/// The event kind that records a position: retracted, revised when it
/// supersedes another, maintained when already known, else established.
pub open spec fn spec_position_event_kind(state: &CurrentState, position: Position) -> EventKind {
    if position.status == PositionStatus::Retracted {
        EventKind::PositionRetracted
    } else if position.supersedes is Some {
        EventKind::PositionRevised
    } else if has_key(state.positions@, position.id) {
        EventKind::PositionMaintained
    } else {
        EventKind::PositionEstablished
    }
}

/// The event kind that records a position.
pub fn position_event_kind(state: &CurrentState, position: &Position) -> (r: EventKind)
    requires
        state.wf(),
    ensures
        r == spec_position_event_kind(state, *position),
{
    if position.status == PositionStatus::Retracted {
        EventKind::PositionRetracted
    } else if position.supersedes.is_some() {
        EventKind::PositionRevised
    } else if contains_key(&state.positions, position.id) {
        EventKind::PositionMaintained
    } else {
        EventKind::PositionEstablished
    }
}

/// The event kind that records a conflict: resolved once settled or
/// accepted, updated when already known, else opened.
pub open spec fn spec_conflict_event_kind(state: &CurrentState, conflict: Conflict) -> EventKind {
    if conflict.status == ConflictStatus::Resolved || conflict.status
        == ConflictStatus::AcceptedDisagreement {
        EventKind::ConflictResolved
    } else if has_key(state.conflicts@, conflict.id) {
        EventKind::ConflictUpdated
    } else {
        EventKind::ConflictOpened
    }
}

/// The event kind that records a conflict.
pub fn conflict_event_kind(state: &CurrentState, conflict: &Conflict) -> (r: EventKind)
    requires
        state.wf(),
    ensures
        r == spec_conflict_event_kind(state, *conflict),
{
    if conflict.status == ConflictStatus::Resolved || conflict.status
        == ConflictStatus::AcceptedDisagreement {
        EventKind::ConflictResolved
    } else if contains_key(&state.conflicts, conflict.id) {
        EventKind::ConflictUpdated
    } else {
        EventKind::ConflictOpened
    }
}

/// `base` followed by the identifiers of `more` it lacks, in order, each
/// added once.
pub open spec fn merged(base: Seq<EventId>, more: Seq<EventId>) -> Seq<EventId>
    decreases more.len(),
{
    if more.len() == 0 {
        base
    } else {
        let front = merged(base, more.drop_last());
        if front.contains(more.last()) {
            front
        } else {
            front.push(more.last())
        }
    }
}

/// Appends the identifiers of `more` that `ids` lacks.
pub fn merge_ids(ids: &mut Vec<EventId>, more: &Vec<EventId>)
    ensures
        final(ids)@ == merged(old(ids)@, more@),
{
    let ghost base = ids@;
    let mut i: usize = 0;
    while i < more.len()
        invariant
            i <= more@.len(),
            ids@ == merged(base, more@.subrange(0, i as int)),
        decreases more@.len() - i,
    {
        proof {
            let next = more@.subrange(0, i + 1);
            assert(next.drop_last() =~= more@.subrange(0, i as int));
            assert(next.last() == more@[i as int]);
        }
        if !crate::model::contains_id(ids, more[i]) {
            ids.push(more[i]);
        }
        i = i + 1;
    }
    proof {
        assert(more@.subrange(0, more@.len() as int) =~= more@);
    }
}

/// The events a judgment in this context may cite: the recent events, then
/// the sources of what recall brought in.
pub fn evidence_event_ids(context: &ThoughtContext) -> (r: Vec<EventId>)
    ensures
        r@ == merged(context.recent_event_ids@, context.recalled_event_ids@),
{
    let mut ids = crate::model::clone_ids(&context.recent_event_ids);
    merge_ids(&mut ids, &context.recalled_event_ids);
    ids
}

/// The events a trace references once a decision is recorded: the trace's
/// own references, then the evidence of the decision, of its positions and
/// of its conflict.
pub open spec fn decision_references(references: Seq<EventId>, decision: Decision) -> Seq<EventId> {
    let with_decision = merged(references, decision.evidence_refs@);
    let with_position = match decision.position {
        Some(p) => merged(with_decision, p.evidence_refs@),
        None => with_decision,
    };
    let with_user = match decision.user_position {
        Some(p) => merged(with_position, p.evidence_refs@),
        None => with_position,
    };
    match decision.conflict {
        Some(c) => merged(with_user, c.evidence_refs@),
        None => with_user,
    }
}

/// The references of a trace once a decision is recorded.
pub fn trace_references(references: &Vec<EventId>, decision: &Decision) -> (r: Vec<EventId>)
    ensures
        r@ == decision_references(references@, *decision),
{
    let mut ids = crate::model::clone_ids(references);
    merge_ids(&mut ids, &decision.evidence_refs);
    match &decision.position {
        Some(p) => merge_ids(&mut ids, &p.evidence_refs),
        None => {},
    }
    match &decision.user_position {
        Some(p) => merge_ids(&mut ids, &p.evidence_refs),
        None => {},
    }
    match &decision.conflict {
        Some(c) => merge_ids(&mut ids, &c.evidence_refs),
        None => {},
    }
    ids
}

/// Checks that a capability's input names the operation the intent was
/// authorized for.
pub fn ensure_operation_matches(intent: &ActionIntent, input_operation: Option<&str>) -> (r: Result<
    (),
    EngineError,
>)
    ensures
        match input_operation {
            Some(op) if op@ == intent.operation@ => r is Ok,
            _ => r matches Err(EngineError::InvalidOperation(m)) && m@
                == "capability input operation does not match the authorized intent"@,
        },
{
    let matches = match input_operation {
        Some(op) => op.to_owned() == intent.operation,
        None => false,
    };
    if !matches {
        return Err(
            EngineError::InvalidOperation(
                "capability input operation does not match the authorized intent".to_owned(),
            ),
        );
    }
    Ok(())
}

/// The artifact a receipt's output describes, from the JSON object fields:
/// `path` and `content_hash` are required texts; the size is `size` when it
/// is a count, else the length of the `content` text, else 0; the media
/// type is `media_type` when it is a text, else `text/plain`.
pub open spec fn receipt_artifact(output: Seq<char>) -> Option<(Seq<char>, Seq<char>, Option<u64>, Option<Seq<char>>, Option<Seq<char>>)> {
    match json_object_fields(output) {
        None => None,
        Some(fields) => match (field_named(fields, "path"@, 0), field_named(fields, "content_hash"@, 0)) {
            (Some(path), Some(hash)) => if path.1 is Some && hash.1 is Some {
                Some(
                    (
                        path.1->0,
                        hash.1->0,
                        match field_named(fields, "size"@, 0) {
                            Some(f) => f.3,
                            None => None,
                        },
                        match field_named(fields, "content"@, 0) {
                            Some(f) => f.1,
                            None => None,
                        },
                        match field_named(fields, "media_type"@, 0) {
                            Some(f) => f.1,
                            None => None,
                        },
                    ),
                )
            } else {
                None
            },
            _ => None,
        },
    }
}

/// The artifact a receipt's JSON output describes, under the identifier
/// `id`, produced by the event `provenance_event_id`; `None` when the
/// output is not an object with a text `path` and `content_hash`.
pub fn artifact_from_receipt(output: &str, provenance_event_id: EventId, id: ArtifactId) -> (r: Option<
    Artifact,
>)
    ensures
        match receipt_artifact(output@) {
            None => r is None,
            Some((path, hash, size, content, media)) => r matches Some(a) && a.id == id
                && a.path@ == path && a.content_hash@ == hash && a.provenance_event_id
                == provenance_event_id && a.media_type@ == match media {
                Some(m) => m,
                None => "text/plain"@,
            } && a.size == match size {
                Some(n) => n,
                None => match content {
                    Some(c) => (encode_utf8(c).len() as usize) as u64,
                    None => 0,
                },
            },
        },
{
    let fields = match parse_json_object(output) {
        None => {
            return None;
        },
        Some(fields) => fields,
    };
    let path = match find_field(&fields, "path") {
        Some(f) => match &f.text {
            Some(t) => t.clone(),
            None => {
                return None;
            },
        },
        None => {
            return None;
        },
    };
    let content_hash = match find_field(&fields, "content_hash") {
        Some(f) => match &f.text {
            Some(t) => t.clone(),
            None => {
                return None;
            },
        },
        None => {
            return None;
        },
    };
    let size = match find_field(&fields, "size") {
        Some(f) => f.count,
        None => None,
    };
    let size = match size {
        Some(n) => n,
        None => match find_field(&fields, "content") {
            Some(f) => match &f.text {
                Some(t) => t.as_str().len() as u64,
                None => 0,
            },
            None => 0,
        },
    };
    let media_type = match find_field(&fields, "media_type") {
        Some(f) => match &f.text {
            Some(t) => t.clone(),
            None => "text/plain".to_owned(),
        },
        None => "text/plain".to_owned(),
    };
    Some(Artifact { id, path, content_hash, size, media_type, provenance_event_id })
}

/// `label`, a space and the text of `id`, as the engine names what it did
/// not find.
pub open spec fn named(label: Seq<char>, id: u128) -> Seq<char> {
    label + " "@ + uuid_hyphenated(id)
}

fn name_of(label: &str, id: u128) -> (r: String)
    ensures
        r@ == named(label@, id),
{
    let mut text = label.to_owned();
    text.append(" ");
    text.append(uuid_text(id).as_str());
    text
}

/// Checks a Memory candidate the user writes: its content is not blank
/// and its confidence is a percentage.
pub fn check_memory_candidate(content: &str, confidence: u8) -> (r: Result<(), EngineError>)
    ensures
        is_blank(content@) ==> (r matches Err(EngineError::InvalidObservation(m))
            && m@ == "memory content cannot be empty"@),
        !is_blank(content@) && confidence > 100 ==> (r matches Err(
            EngineError::InvalidObservation(m),
        ) && m@ == "memory confidence must be between 0 and 100"@),
        !is_blank(content@) && confidence <= 100 ==> r is Ok,
{
    if blank(content) {
        return Err(EngineError::InvalidObservation("memory content cannot be empty".to_owned()));
    }
    if confidence > 100 {
        return Err(
            EngineError::InvalidObservation(
                "memory confidence must be between 0 and 100".to_owned(),
            ),
        );
    }
    Ok(())
}

/// The first active inferred preference about the subject among the first
/// `n` memories, by position.
pub open spec fn inferred_for(memories: Seq<ActiveMemory>, subject: Option<PrincipalId>, n: int) -> Option<int>
    decreases n,
{
    if n <= 0 {
        None
    } else {
        match inferred_for(memories, subject, n - 1) {
            Some(k) => Some(k),
            None => {
                let m = memories[n - 1];
                if m.status == ActiveMemoryStatus::Active && m.kind == MemoryKind::InferredPreference
                    && m.subject_principal_id == subject {
                    Some(n - 1)
                } else {
                    None
                }
            },
        }
    }
}

/// A promotion: the new Memory and, for an explicit preference, the
/// inferred preference about the same subject it supersedes.
pub struct Promotion {
    pub memory: ActiveMemory,
    pub superseded: Option<ActiveMemory>,
}

/// Why promoting a candidate is refused, if it is: it is unknown, or no
/// longer a candidate.
pub open spec fn promotion_fault(state: &CurrentState, candidate_id: MemoryCandidateId) -> Option<Seq<char>> {
    match lookup(state.memory_candidates@, candidate_id) {
        None => Some(named("memory candidate"@, candidate_id)),
        Some(c) => if c.status != MemoryCandidateStatus::Candidate {
            Some("only a candidate memory can be promoted"@)
        } else {
            None
        },
    }
}

/// Plans promoting a Memory candidate to the active Memory `memory_id`;
/// an explicit preference supersedes the first active inferred preference
/// about the same subject.
pub fn plan_promotion(state: &CurrentState, candidate_id: MemoryCandidateId, memory_id: MemoryId) -> (r: Result<
    Promotion,
    EngineError,
>)
    requires
        state.wf(),
    ensures
        match r {
            Err(EngineError::NotFound(m)) => promotion_fault(state, candidate_id) == Some(m@)
                && lookup(state.memory_candidates@, candidate_id) is None,
            Err(EngineError::InvalidOperation(m)) => promotion_fault(state, candidate_id) == Some(m@)
                && lookup(state.memory_candidates@, candidate_id) is Some,
            Err(_) => false,
            Ok(p) => {
                &&& promotion_fault(state, candidate_id) is None
                &&& lookup(state.memory_candidates@, candidate_id) matches Some(c)
                &&& p.memory.id == memory_id
                &&& p.memory.candidate_id == candidate_id
                &&& p.memory.kind == c.kind
                &&& p.memory.content@ == c.content@
                &&& p.memory.subject_principal_id == c.subject_principal_id
                &&& p.memory.status == ActiveMemoryStatus::Active
                &&& p.memory.source_event_ids@ == c.source_event_ids@
                &&& match (if c.kind == MemoryKind::ExplicitPreference {
                    inferred_for(
                        state.active_memories@,
                        c.subject_principal_id,
                        state.active_memories@.len() as int,
                    )
                } else {
                    None
                }) {
                    Some(k) => p.superseded matches Some(s) && same_memory(
                        s,
                        ActiveMemory {
                            status: ActiveMemoryStatus::Superseded,
                            ..state.active_memories@[k]
                        },
                    ),
                    None => p.superseded is None,
                }
            },
        },
{
    let candidate = match get(&state.memory_candidates, candidate_id) {
        None => {
            return Err(EngineError::NotFound(name_of("memory candidate", candidate_id)));
        },
        Some(c) => c,
    };
    if candidate.status != MemoryCandidateStatus::Candidate {
        return Err(
            EngineError::InvalidOperation("only a candidate memory can be promoted".to_owned()),
        );
    }
    let mut previous: Option<usize> = None;
    if candidate.kind == MemoryKind::ExplicitPreference {
        let mut i: usize = 0;
        while i < state.active_memories.len()
            invariant
                i <= state.active_memories@.len(),
                match previous {
                    Some(k) => k < state.active_memories@.len() && inferred_for(
                        state.active_memories@,
                        candidate.subject_principal_id,
                        i as int,
                    ) == Some(k as int),
                    None => inferred_for(
                        state.active_memories@,
                        candidate.subject_principal_id,
                        i as int,
                    ) is None,
                },
            decreases state.active_memories@.len() - i,
        {
            if previous.is_none() {
                let m = &state.active_memories[i];
                if m.status == ActiveMemoryStatus::Active && m.kind == MemoryKind::InferredPreference
                    && m.subject_principal_id == candidate.subject_principal_id {
                    previous = Some(i);
                }
            }
            i = i + 1;
        }
    }
    let superseded = match previous {
        Some(k) => {
            let mut m = clone_memory(&state.active_memories[k]);
            m.status = ActiveMemoryStatus::Superseded;
            Some(m)
        },
        None => None,
    };
    Ok(
        Promotion {
            memory: ActiveMemory {
                id: memory_id,
                candidate_id,
                kind: candidate.kind,
                content: candidate.content.clone(),
                subject_principal_id: candidate.subject_principal_id,
                status: ActiveMemoryStatus::Active,
                source_event_ids: clone_ids(&candidate.source_event_ids),
            },
            superseded,
        },
    )
}

/// Plans rejecting a Memory candidate: it must exist and still be a
/// candidate; it becomes rejected.
pub fn plan_memory_rejection(state: &CurrentState, candidate_id: MemoryCandidateId) -> (r: Result<
    MemoryCandidate,
    EngineError,
>)
    requires
        state.wf(),
    ensures
        match r {
            Err(EngineError::NotFound(m)) => lookup(state.memory_candidates@, candidate_id) is None
                && m@ == named("memory candidate"@, candidate_id),
            Err(EngineError::InvalidOperation(m)) => lookup(state.memory_candidates@, candidate_id) matches Some(c)
                && c.status != MemoryCandidateStatus::Candidate
                && m@ == "only a candidate memory can be rejected"@,
            Err(_) => false,
            Ok(c) => lookup(state.memory_candidates@, candidate_id) matches Some(old)
                && old.status == MemoryCandidateStatus::Candidate && same_memory_candidate(
                c,
                MemoryCandidate { status: MemoryCandidateStatus::Rejected, ..old },
            ),
        },
{
    let candidate = match get(&state.memory_candidates, candidate_id) {
        None => {
            return Err(EngineError::NotFound(name_of("memory candidate", candidate_id)));
        },
        Some(c) => c,
    };
    if candidate.status != MemoryCandidateStatus::Candidate {
        return Err(
            EngineError::InvalidOperation("only a candidate memory can be rejected".to_owned()),
        );
    }
    let mut c = clone_memory_candidate(candidate);
    c.status = MemoryCandidateStatus::Rejected;
    Ok(c)
}

/// Plans moving an active Memory to another lifecycle status (superseded
/// or expired): it must exist and be active.
pub fn plan_memory_status(state: &CurrentState, memory_id: MemoryId, status: ActiveMemoryStatus) -> (r: Result<
    ActiveMemory,
    EngineError,
>)
    requires
        state.wf(),
    ensures
        match r {
            Err(EngineError::NotFound(m)) => lookup(state.active_memories@, memory_id) is None
                && m@ == named("memory"@, memory_id),
            Err(EngineError::InvalidOperation(m)) => lookup(state.active_memories@, memory_id) matches Some(old)
                && old.status != ActiveMemoryStatus::Active
                && m@ == "only an active memory can change lifecycle"@,
            Err(_) => false,
            Ok(m) => lookup(state.active_memories@, memory_id) matches Some(old) && old.status
                == ActiveMemoryStatus::Active && same_memory(m, ActiveMemory { status, ..old }),
        },
{
    let memory = match get(&state.active_memories, memory_id) {
        None => {
            return Err(EngineError::NotFound(name_of("memory", memory_id)));
        },
        Some(m) => m,
    };
    if memory.status != ActiveMemoryStatus::Active {
        return Err(
            EngineError::InvalidOperation("only an active memory can change lifecycle".to_owned()),
        );
    }
    let mut m = clone_memory(memory);
    m.status = status;
    Ok(m)
}

/// What the policy decided about an action.
pub struct PolicyDecision {
    pub allowed: bool,
    pub requires_approval: bool,
    pub reason: String,
}

/// Whether the engine may move an operation from one status to another:
/// a planned operation is authorized or fails, an authorized one starts or
/// fails, a started one succeeds, fails or ends unknown, an unknown one is
/// settled, and a success is verified or disputed.
pub open spec fn operation_step_allowed(from: OperationStatus, to: OperationStatus) -> bool {
    ||| from == OperationStatus::Planned && (to == OperationStatus::Authorized || to
        == OperationStatus::Failed)
    ||| from == OperationStatus::Authorized && (to == OperationStatus::Started || to
        == OperationStatus::Failed)
    ||| from == OperationStatus::Started && (to == OperationStatus::Succeeded || to
        == OperationStatus::Failed || to == OperationStatus::Unknown)
    ||| from == OperationStatus::Unknown && (to == OperationStatus::Succeeded || to
        == OperationStatus::Failed)
    ||| from == OperationStatus::Succeeded && (to == OperationStatus::Verified || to
        == OperationStatus::Disputed)
}

/// Whether the engine may move an operation from one status to another.
pub fn operation_step(from: OperationStatus, to: OperationStatus) -> (r: bool)
    ensures
        r == operation_step_allowed(from, to),
{
    match from {
        OperationStatus::Planned => to == OperationStatus::Authorized || to == OperationStatus::Failed,
        OperationStatus::Authorized => to == OperationStatus::Started || to == OperationStatus::Failed,
        OperationStatus::Started => to == OperationStatus::Succeeded || to == OperationStatus::Failed
            || to == OperationStatus::Unknown,
        OperationStatus::Unknown => to == OperationStatus::Succeeded || to == OperationStatus::Failed,
        OperationStatus::Succeeded => to == OperationStatus::Verified || to == OperationStatus::Disputed,
        _ => false,
    }
}

/// An approval resolved by the user, the operation it releases or fails,
/// and the kind of event that records the operation's new status.
pub struct ApprovalResolution {
    pub approval: Approval,
    pub operation: Operation,
    pub operation_event: EventKind,
}

/// Plans resolving a pending approval: approved, its operation is
/// authorized; denied, its operation fails. The approval, its operation
/// and that step must exist, be pending and be allowed.
pub fn plan_approval_resolution(
    state: &CurrentState,
    approval_id: ApprovalId,
    approved: bool,
    user_id: PrincipalId,
) -> (r: Result<ApprovalResolution, EngineError>)
    requires
        state.wf(),
    ensures
        match lookup(state.approvals@, approval_id) {
            None => r matches Err(EngineError::NotFound(m)) && m@ == named("approval"@, approval_id),
            Some(a) => if a.status != ApprovalStatus::Pending {
                r matches Err(EngineError::InvalidOperation(m)) && m@
                    == "approval is already resolved"@
            } else {
                match lookup(state.operations@, a.operation_id) {
                    None => r matches Err(EngineError::NotFound(m)) && m@ == named(
                        "operation"@,
                        a.operation_id,
                    ),
                    Some(op) => {
                        let target = if approved {
                            OperationStatus::Authorized
                        } else {
                            OperationStatus::Failed
                        };
                        if !operation_step_allowed(op.status, target) {
                            r == Err::<ApprovalResolution, EngineError>(
                                EngineError::Transition { from: op.status, to: target },
                            )
                        } else {
                            r matches Ok(res) && res.approval == Approval {
                                status: if approved {
                                    ApprovalStatus::Approved
                                } else {
                                    ApprovalStatus::Denied
                                },
                                resolved_by: Some(user_id),
                                ..a
                            } && res.operation == Operation { status: target, ..op }
                                && res.operation_event == if approved {
                                EventKind::OperationAuthorized
                            } else {
                                EventKind::OperationFailed
                            }
                        }
                    },
                }
            },
        },
{
    let approval = match get(&state.approvals, approval_id) {
        None => {
            return Err(EngineError::NotFound(name_of("approval", approval_id)));
        },
        Some(a) => a,
    };
    if approval.status != ApprovalStatus::Pending {
        return Err(EngineError::InvalidOperation("approval is already resolved".to_owned()));
    }
    let operation = match get(&state.operations, approval.operation_id) {
        None => {
            return Err(EngineError::NotFound(name_of("operation", approval.operation_id)));
        },
        Some(op) => op,
    };
    let target = if approved {
        OperationStatus::Authorized
    } else {
        OperationStatus::Failed
    };
    if !operation_step(operation.status, target) {
        return Err(EngineError::Transition { from: operation.status, to: target });
    }
    Ok(
        ApprovalResolution {
            approval: Approval {
                id: approval.id,
                operation_id: approval.operation_id,
                status: if approved {
                    ApprovalStatus::Approved
                } else {
                    ApprovalStatus::Denied
                },
                resolved_by: Some(user_id),
            },
            operation: Operation {
                id: operation.id,
                intent_id: operation.intent_id,
                status: target,
                approval_id: operation.approval_id,
            },
            operation_event: if approved {
                EventKind::OperationAuthorized
            } else {
                EventKind::OperationFailed
            },
        },
    )
}

/// Whether an operation is over: it succeeded, was verified, failed or is
/// disputed.
pub open spec fn operation_finished(status: OperationStatus) -> bool {
    status == OperationStatus::Succeeded || status == OperationStatus::Verified || status
        == OperationStatus::Failed || status == OperationStatus::Disputed
}

/// The operation a stored receipt names: the UUID its `operation_id`
/// field spells, if its body is a JSON object with such a field.
pub open spec fn receipt_operation(r: Record) -> Option<u128> {
    match json_object_fields(r.body@) {
        None => None,
        Some(fields) => match field_named(fields, "operation_id"@, 0) {
            Some(f) => match f.1 {
                Some(t) => parsed_uuid(t),
                None => None,
            },
            None => None,
        },
    }
}

/// The position of the first of the first `n` receipts for the operation.
pub open spec fn first_receipt(receipts: Seq<Record>, operation_id: OperationId, n: int) -> Option<int>
    decreases n,
{
    if n <= 0 {
        None
    } else {
        match first_receipt(receipts, operation_id, n - 1) {
            Some(k) => Some(k),
            None => if receipt_operation(receipts[n - 1]) == Some(operation_id) {
                Some(n - 1)
            } else {
                None
            },
        }
    }
}

fn receipt_names(r: &Record, operation_id: OperationId) -> (b: bool)
    ensures
        b == (receipt_operation(*r) == Some(operation_id)),
{
    let fields = match parse_json_object(r.body.as_str()) {
        None => {
            return false;
        },
        Some(fields) => fields,
    };
    match find_field(&fields, "operation_id") {
        Some(f) => match &f.text {
            Some(t) => match parse_uuid(t.as_str()) {
                Some(id) => id == operation_id,
                None => false,
            },
            None => false,
        },
        None => false,
    }
}

proof fn lemma_first_receipt_stays(receipts: Seq<Record>, operation_id: OperationId, m: int, n: int)
    requires
        0 <= m <= n,
        first_receipt(receipts, operation_id, m) is Some,
    ensures
        first_receipt(receipts, operation_id, n) == first_receipt(receipts, operation_id, m),
    decreases n - m,
{
    if m < n {
        lemma_first_receipt_stays(receipts, operation_id, m, n - 1);
    }
}

/// The first stored receipt for the operation, by position.
pub fn find_receipt(receipts: &Vec<Record>, operation_id: OperationId) -> (r: Option<usize>)
    ensures
        match r {
            Some(k) => k < receipts@.len() && first_receipt(receipts@, operation_id, receipts@.len() as int) == Some(k as int),
            None => first_receipt(receipts@, operation_id, receipts@.len() as int) is None,
        },
{
    let mut i: usize = 0;
    while i < receipts.len()
        invariant
            i <= receipts@.len(),
            first_receipt(receipts@, operation_id, i as int) is None,
        decreases receipts@.len() - i,
    {
        if receipt_names(&receipts[i], operation_id) {
            proof {
                lemma_first_receipt_stays(receipts@, operation_id, i + 1, receipts@.len() as int);
            }
            return Some(i);
        }
        i = i + 1;
    }
    None
}

/// What executing an operation starts with.
pub enum ExecutionPlan {
    /// The operation is over; its stored receipt is returned.
    Finished { receipt: Record },
    /// The operation starts, authorized first when it was only planned.
    Start { authorize_first: bool, intent_id: u128 },
}

/// Why executing an operation is refused, if it is, in the order the
/// checks are made: it is unknown; it started or ended unknown and must be
/// reconciled first; its intent is unknown; the policy denies it; or the
/// policy asks for an approval it lacks, that is unknown or not granted.
/// An operation that is over is not refused here: its receipt is returned,
/// or, where none is stored, that it has none.
pub open spec fn execution_fault(state: &CurrentState, operation_id: OperationId, allowed: bool, requires_approval: bool) -> Option<u8> {
    match lookup(state.operations@, operation_id) {
        None => Some(0),
        Some(op) => if operation_finished(op.status) {
            None
        } else if op.status == OperationStatus::Started || op.status == OperationStatus::Unknown {
            Some(1)
        } else if !has_key(state.action_intents@, op.intent_id) {
            Some(2)
        } else if !allowed {
            Some(3)
        } else if requires_approval && op.approval_id is None {
            Some(4)
        } else if requires_approval && lookup(state.approvals@, op.approval_id->0) is None {
            Some(5)
        } else if requires_approval && lookup(state.approvals@, op.approval_id->0)->0.status
            != ApprovalStatus::Approved {
            Some(6)
        } else {
            None
        },
    }
}

/// Plans executing an operation under the policy's decision about its
/// intent.
pub fn plan_execution(state: &CurrentState, operation_id: OperationId, policy: &PolicyDecision) -> (r: Result<
    ExecutionPlan,
    EngineError,
>)
    requires
        state.wf(),
    ensures
        match execution_fault(state, operation_id, policy.allowed, policy.requires_approval) {
            Some(0) => r matches Err(EngineError::NotFound(m)) && m@ == named("operation"@, operation_id),
            Some(1) => r matches Err(EngineError::InvalidOperation(m)) && m@
                == "started or unknown operations require reconciliation before execution"@,
            Some(2) => r matches Err(EngineError::NotFound(m)) && m@ == named(
                "intent"@,
                lookup(state.operations@, operation_id)->0.intent_id,
            ),
            Some(3) => r matches Err(EngineError::PolicyDenied(m)) && m@ == policy.reason@,
            Some(4) => r matches Err(EngineError::InvalidOperation(m)) && m@
                == "operation has no approval"@,
            Some(5) => r matches Err(EngineError::NotFound(m)) && m@ == named(
                "approval"@,
                lookup(state.operations@, operation_id)->0.approval_id->0,
            ),
            Some(_) => r matches Err(EngineError::InvalidOperation(m)) && m@
                == "operation requires an approved request"@,
            None => match lookup(state.operations@, operation_id) {
                Some(op) => if operation_finished(op.status) {
                    match first_receipt(state.receipts@, operation_id, state.receipts@.len() as int) {
                        Some(k) => r matches Ok(ExecutionPlan::Finished { receipt }) && receipt.id
                            == state.receipts@[k].id && receipt.body@ == state.receipts@[k].body@,
                        None => r matches Err(EngineError::InvalidOperation(m)) && m@
                            == "operation has no receipt"@,
                    }
                } else {
                    r == Ok::<ExecutionPlan, EngineError>(
                        ExecutionPlan::Start {
                            authorize_first: op.status == OperationStatus::Planned,
                            intent_id: op.intent_id,
                        },
                    )
                },
                None => false,
            },
        },
{
    let operation = match get(&state.operations, operation_id) {
        None => {
            return Err(EngineError::NotFound(name_of("operation", operation_id)));
        },
        Some(op) => op,
    };
    let status = operation.status;
    if status == OperationStatus::Succeeded || status == OperationStatus::Verified || status
        == OperationStatus::Failed || status == OperationStatus::Disputed {
        return match find_receipt(&state.receipts, operation_id) {
            Some(k) => Ok(
                ExecutionPlan::Finished {
                    receipt: Record { id: state.receipts[k].id, body: state.receipts[k].body.clone() },
                },
            ),
            None => Err(EngineError::InvalidOperation("operation has no receipt".to_owned())),
        };
    }
    if status == OperationStatus::Started || status == OperationStatus::Unknown {
        return Err(
            EngineError::InvalidOperation(
                "started or unknown operations require reconciliation before execution".to_owned(),
            ),
        );
    }
    if !contains_key(&state.action_intents, operation.intent_id) {
        return Err(EngineError::NotFound(name_of("intent", operation.intent_id)));
    }
    if !policy.allowed {
        return Err(EngineError::PolicyDenied(policy.reason.clone()));
    }
    if policy.requires_approval {
        let approval_id = match operation.approval_id {
            None => {
                return Err(EngineError::InvalidOperation("operation has no approval".to_owned()));
            },
            Some(id) => id,
        };
        match get(&state.approvals, approval_id) {
            None => {
                return Err(EngineError::NotFound(name_of("approval", approval_id)));
            },
            Some(approval) => {
                if approval.status != ApprovalStatus::Approved {
                    return Err(
                        EngineError::InvalidOperation(
                            "operation requires an approved request".to_owned(),
                        ),
                    );
                }
            },
        }
    }
    Ok(
        ExecutionPlan::Start {
            authorize_first: status == OperationStatus::Planned,
            intent_id: operation.intent_id,
        },
    )
}

/// What a capability reported about an execution.
#[derive(Clone, Copy, Debug, PartialEq, Eq, Structural)]
pub enum CapabilityOutcome {
    /// It ran; `verified` when its effect was confirmed.
    Completed { verified: bool },
    /// It may or may not have taken effect.
    OutcomeUnknown,
    /// It failed.
    Failed,
}

/// How an execution settles its operation: the status it ends in, the
/// kind of event recording that, the verification recorded with it, if
/// any, whether the operation is finished, and whether the receipt's
/// output may name an artifact.
#[derive(Clone, Copy, Debug, PartialEq, Eq, Structural)]
pub struct Settlement {
    pub status: OperationStatus,
    pub outcome_event: EventKind,
    pub verification: Option<VerificationStatus>,
    pub finished: bool,
    pub artifact_from_output: bool,
}

/// How an execution with the capability's outcome settles its operation:
/// a verified completion succeeds and is verified, an unverified one ends
/// unknown, an outcome the capability cannot tell ends unknown and
/// unfinished, and a failure fails and is recorded as a failed
/// verification.
pub open spec fn spec_settlement(outcome: CapabilityOutcome) -> Settlement {
    match outcome {
        CapabilityOutcome::Completed { verified } => if verified {
            Settlement {
                status: OperationStatus::Succeeded,
                outcome_event: EventKind::OperationSucceeded,
                verification: Some(VerificationStatus::Verified),
                finished: true,
                artifact_from_output: true,
            }
        } else {
            Settlement {
                status: OperationStatus::Unknown,
                outcome_event: EventKind::OperationStateUnknown,
                verification: None,
                finished: true,
                artifact_from_output: true,
            }
        },
        CapabilityOutcome::OutcomeUnknown => Settlement {
            status: OperationStatus::Unknown,
            outcome_event: EventKind::OperationStateUnknown,
            verification: None,
            finished: false,
            artifact_from_output: false,
        },
        CapabilityOutcome::Failed => Settlement {
            status: OperationStatus::Failed,
            outcome_event: EventKind::OperationFailed,
            verification: Some(VerificationStatus::Failed),
            finished: true,
            artifact_from_output: false,
        },
    }
}

/// How an execution with the capability's outcome settles its operation.
pub fn settle_execution(outcome: CapabilityOutcome) -> (r: Settlement)
    ensures
        r == spec_settlement(outcome),
{
    match outcome {
        CapabilityOutcome::Completed { verified } => {
            if verified {
                Settlement {
                    status: OperationStatus::Succeeded,
                    outcome_event: EventKind::OperationSucceeded,
                    verification: Some(VerificationStatus::Verified),
                    finished: true,
                    artifact_from_output: true,
                }
            } else {
                Settlement {
                    status: OperationStatus::Unknown,
                    outcome_event: EventKind::OperationStateUnknown,
                    verification: None,
                    finished: true,
                    artifact_from_output: true,
                }
            }
        },
        CapabilityOutcome::OutcomeUnknown => Settlement {
            status: OperationStatus::Unknown,
            outcome_event: EventKind::OperationStateUnknown,
            verification: None,
            finished: false,
            artifact_from_output: false,
        },
        CapabilityOutcome::Failed => Settlement {
            status: OperationStatus::Failed,
            outcome_event: EventKind::OperationFailed,
            verification: Some(VerificationStatus::Failed),
            finished: true,
            artifact_from_output: false,
        },
    }
}

/// The policy that decides whether an actor may carry out an intent. It
/// is implemented by the deployment; `decision` names what its evaluation
/// returns for an actor and an intent, or the message of its failure.
pub trait PolicyEngine {
    spec fn decision(&self, actor_id: PrincipalId, intent: ActionIntent) -> Result<
        PolicyDecision,
        String,
    >;

    fn evaluate(&self, actor_id: PrincipalId, intent: &ActionIntent) -> (r: Result<
        PolicyDecision,
        String,
    >)
        ensures
            r == self.decision(actor_id, *intent),
    ;
}

impl Engine {
    /// What the policy decides about an actor carrying out an intent; a
    /// failure of the policy is the engine's `Policy` error.
    pub fn authorize<P: PolicyEngine>(&self, policy: &P, actor_id: PrincipalId, intent: &ActionIntent) -> (r: Result<
        PolicyDecision,
        EngineError,
    >)
        ensures
            r == match policy.decision(actor_id, *intent) {
                Ok(d) => Ok::<PolicyDecision, EngineError>(d),
                Err(m) => Err(EngineError::Policy(m)),
            },
    {
        match policy.evaluate(actor_id, intent) {
            Ok(d) => Ok(d),
            Err(m) => Err(EngineError::Policy(m)),
        }
    }

    /// Checks the stored projection against its ledger at startup and
    /// reports the work left open; a refusal is the engine's `Recovery`
    /// error.
    pub fn recovery_report(&self, stored: &CurrentState, events: Vec<ExperienceEvent>) -> (r: Result<
        RecoveryReport,
        EngineError,
    >)
        requires
            events@.len() < u64::MAX,
        ensures
            match r {
                Ok(report) => reports(report, stored) && exists|s: CurrentState|
                    replays(events@, s) && #[trigger] same_state(stored, &s),
                Err(EngineError::Recovery(RecoveryError::Projection(e))) => replay_refused(
                    events@,
                    e,
                ),
                Err(EngineError::Recovery(RecoveryError::RevisionMismatch { stored: at, ledger })) =>
                    at == stored.revision && at != ledger && exists|s: CurrentState|
                    replays(events@, s) && #[trigger] s.revision == ledger,
                Err(EngineError::Recovery(RecoveryError::ProjectionMismatch)) => exists|
                    s: CurrentState,
                | replays(events@, s) && s.revision == stored.revision && !#[trigger] same_state(
                    stored,
                    &s,
                ),
                _ => false,
            },
    {
        match recover(stored, events) {
            Ok(report) => Ok(report),
            Err(e) => Err(EngineError::Recovery(e)),
        }
    }
}

/// Checks that a capability may run an intent directly: the input names
/// the intent's operation, the policy allows it and asks for no approval.
pub fn capability_gate(intent: &ActionIntent, input_operation: Option<&str>, policy: &PolicyDecision) -> (r: Result<
    (),
    EngineError,
>)
    ensures
        match input_operation {
            Some(op) if op@ == intent.operation@ => if !policy.allowed {
                r matches Err(EngineError::PolicyDenied(m)) && m@ == policy.reason@
            } else if policy.requires_approval {
                r matches Err(EngineError::PolicyDenied(m)) && m@
                    == "explicit approval is required before capability execution"@
            } else {
                r is Ok
            },
            _ => r matches Err(EngineError::InvalidOperation(m)) && m@
                == "capability input operation does not match the authorized intent"@,
        },
{
    match ensure_operation_matches(intent, input_operation) {
        Err(e) => {
            return Err(e);
        },
        Ok(()) => {},
    }
    if !policy.allowed {
        return Err(EngineError::PolicyDenied(policy.reason.clone()));
    }
    if policy.requires_approval {
        return Err(
            EngineError::PolicyDenied(
                "explicit approval is required before capability execution".to_owned(),
            ),
        );
    }
    Ok(())
}

/// The work the engine opens for an observation no run holds: a goal the
/// user owns with HEKATE taking part, a task in progress, a running run and
/// a started attempt, and the focus on them.
pub struct NewFocus {
    pub goal: Goal,
    pub task: Task,
    pub run: Run,
    pub attempt: Attempt,
    pub focus: Focus,
}

/// The first 80 characters of a text.
pub open spec fn first_80(text: Seq<char>) -> Seq<char> {
    if text.len() > 80 {
        text.subrange(0, 80)
    } else {
        text
    }
}

impl Engine {
    /// Plans the work opened for an observation no run holds, under the
    /// given identifiers and start time: the goal and task are titled by
    /// the observation's first 80 characters (the goal "Untitled goal"
    /// when that is empty).
    pub fn plan_new_focus(
        &self,
        observation: &Observation,
        goal_id: GoalId,
        task_id: TaskId,
        run_id: RunId,
        attempt_id: AttemptId,
        now: &str,
    ) -> (r: NewFocus)
        ensures
            r.goal.id == goal_id,
            r.goal.owner_principal_id == self.spec_user_id(),
            r.goal.participants@ == seq![self.spec_user_id(), self.spec_hekate_id()],
            r.goal.title@ == if first_80(observation.content@).len() == 0 {
                "Untitled goal"@
            } else {
                first_80(observation.content@)
            },
            r.goal.status == GoalStatus::Active,
            r.task.id == task_id,
            r.task.goal_id == Some(goal_id),
            r.task.title@ == first_80(observation.content@),
            r.task.status == TaskStatus::InProgress,
            r.run.id == run_id,
            r.run.task_id == Some(task_id),
            r.run.status == RunStatus::Running,
            r.run.started_at@ == now@,
            r.attempt.id == attempt_id,
            r.attempt.run_id == run_id,
            r.attempt.status == AttemptStatus::Started,
            r.focus == (Focus { goal_id: Some(goal_id), task_id: Some(task_id), run_id: Some(run_id) }),
    {
        let count = crate::text::chars_of(observation.content.as_str()).len();
        let title: String = if count > 80 {
            observation.content.as_str().substring_char(0, 80).to_owned()
        } else {
            observation.content.clone()
        };
        let goal_title = if title.as_str().is_empty() {
            "Untitled goal".to_owned()
        } else {
            title.clone()
        };
        let participants = vec![self.user_id, self.hekate_id];
        proof {
            assert(participants@ =~= seq![self.spec_user_id(), self.spec_hekate_id()]);
        }
        NewFocus {
            goal: Goal {
                id: goal_id,
                owner_principal_id: self.user_id,
                participants,
                title: goal_title,
                status: GoalStatus::Active,
            },
            task: Task { id: task_id, goal_id: Some(goal_id), title, status: TaskStatus::InProgress },
            run: Run {
                id: run_id,
                task_id: Some(task_id),
                status: RunStatus::Running,
                started_at: now.to_owned(),
            },
            attempt: Attempt { id: attempt_id, run_id, status: AttemptStatus::Started },
            focus: Focus { goal_id: Some(goal_id), task_id: Some(task_id), run_id: Some(run_id) },
        }
    }
}


/// What an interaction records for the action its decision proposes: the
/// operation planned for the intent, and the approval it waits for when
/// the policy asks for one, with the reason given for it.
pub struct ActionPlan {
    pub operation: Operation,
    pub approval: Option<Approval>,
    pub approval_reason: Option<String>,
}

/// The plan for a proposed action under the policy's decision: refused
/// with the policy's reason when it does not allow the action; otherwise
/// the operation `operation_id` planned for the intent, waiting for the
/// approval `approval_id` (pending, with the policy's reason) when the
/// policy asks for approval.
pub fn plan_action(
    intent: &ActionIntent,
    policy: &PolicyDecision,
    operation_id: OperationId,
    approval_id: ApprovalId,
) -> (r: Result<ActionPlan, EngineError>)
    ensures
        !policy.allowed ==> (r matches Err(EngineError::PolicyDenied(m)) && m@ == policy.reason@),
        policy.allowed ==> (r matches Ok(plan) && plan.operation.id == operation_id
            && plan.operation.intent_id == intent.id && plan.operation.status
            == OperationStatus::Planned && if policy.requires_approval {
            &&& plan.operation.approval_id == Some(approval_id)
            &&& plan.approval matches Some(a) && a.id == approval_id && a.operation_id
                == operation_id && a.status == ApprovalStatus::Pending && a.resolved_by is None
            &&& plan.approval_reason matches Some(reason) && reason@ == policy.reason@
        } else {
            &&& plan.operation.approval_id is None
            &&& plan.approval is None
            &&& plan.approval_reason is None
        }),
{
    if !policy.allowed {
        return Err(EngineError::PolicyDenied(policy.reason.clone()));
    }
    if policy.requires_approval {
        let approval = Approval {
            id: approval_id,
            operation_id,
            status: ApprovalStatus::Pending,
            resolved_by: None,
        };
        Ok(ActionPlan {
            operation: Operation {
                id: operation_id,
                intent_id: intent.id,
                status: OperationStatus::Planned,
                approval_id: Some(approval_id),
            },
            approval: Some(approval),
            approval_reason: Some(policy.reason.clone()),
        })
    } else {
        Ok(ActionPlan {
            operation: Operation {
                id: operation_id,
                intent_id: intent.id,
                status: OperationStatus::Planned,
                approval_id: None,
            },
            approval: None,
            approval_reason: None,
        })
    }
}

/// The working memory of a run: its revision, the observations it has
/// handled, its notes and the next action it settled on.
pub struct WorkingState {
    pub id: u128,
    pub run_id: RunId,
    pub revision: u64,
    pub completed_observations: Vec<ObservationId>,
    pub notes: Vec<String>,
    pub next_action: Option<String>,
}

/// The working state of run `run_id` after an interaction on observation
/// `observation_id` answered with `message`: the current one (or a new one
/// under `fresh_id` at revision 0), one revision later, with the
/// observation recorded once and the message as the next action.
pub fn next_working_state(
    current: Option<&WorkingState>,
    fresh_id: u128,
    run_id: RunId,
    observation_id: ObservationId,
    message: &str,
) -> (r: WorkingState)
    requires
        match current {
            Some(w) => w.revision < u64::MAX,
            None => true,
        },
    ensures
        match current {
            Some(w) => {
                &&& r.id == w.id
                &&& r.run_id == w.run_id
                &&& r.revision == w.revision + 1
                &&& r.completed_observations@ == if w.completed_observations@.contains(observation_id) {
                    w.completed_observations@
                } else {
                    w.completed_observations@.push(observation_id)
                }
                &&& r.notes@ == w.notes@
            },
            None => {
                &&& r.id == fresh_id
                &&& r.run_id == run_id
                &&& r.revision == 1
                &&& r.completed_observations@ == seq![observation_id]
                &&& r.notes@.len() == 0
            },
        },
        r.next_action matches Some(a) && a@ == message@,
{
    let (id, rid, revision, mut completed, notes) = match current {
        Some(w) => (w.id, w.run_id, w.revision, clone_ids(&w.completed_observations), crate::model::clone_strings(&w.notes)),
        None => (fresh_id, run_id, 0u64, Vec::new(), Vec::new()),
    };
    if !crate::model::contains_id(&completed, observation_id) {
        completed.push(observation_id);
    }
    proof {
        if current is None {
            assert(completed@ =~= seq![observation_id]);
        }
    }
    WorkingState {
        id,
        run_id: rid,
        revision: revision + 1,
        completed_observations: completed,
        notes,
        next_action: Some(message.to_owned()),
    }
}

/// The next record the engine creates so that HEKATE, its user, HEKATE's
/// identity and their relationship all exist.
pub enum BootstrapStep {
    /// Register HEKATE as a principal.
    HekatePrincipal(Principal),
    /// Register the user as a principal.
    UserPrincipal(Principal),
    /// Give HEKATE its first identity version under this identifier; its
    /// text and creation time are rendered where it is recorded.
    Identity { id: IdentityVersionId, principal_id: PrincipalId },
    /// Join the user and HEKATE in a relationship.
    Relationship(Relationship),
}

/// The identity version HEKATE holds: that of the first principal
/// registered as HEKATE.
pub open spec fn hekate_identity(state: &CurrentState) -> Option<IdentityVersion> {
    match first_hekate(state.principals@, state.principals@.len() as int) {
        Some(h) => identity_of(state, h),
        None => None,
    }
}

/// Whether some relationship has both principals among its participants.
pub open spec fn joined(rs: Seq<Relationship>, a: PrincipalId, b: PrincipalId) -> bool {
    exists|i: int| 0 <= i < rs.len() && #[trigger] rs[i].participants@.contains(a) && rs[i].participants@.contains(b)
}

fn find_joined(rs: &Vec<Relationship>, a: PrincipalId, b: PrincipalId) -> (r: bool)
    ensures
        r == joined(rs@, a, b),
{
    let mut i: usize = 0;
    while i < rs.len()
        invariant
            i <= rs@.len(),
            forall|k: int| 0 <= k < i ==> !(#[trigger] rs@[k].participants@.contains(a) && rs@[k].participants@.contains(b)),
        decreases rs@.len() - i,
    {
        let ps = &rs[i].participants;
        if crate::model::contains_id(ps, a) && crate::model::contains_id(ps, b) {
            return true;
        }
        i = i + 1;
    }
    false
}

impl Engine {
    /// The record to create next, checked in this order: HEKATE's
    /// principal, the user's principal, HEKATE's identity, the
    /// relationship joining the user and HEKATE; `None` once all exist.
    /// A new identity or relationship takes the identifier `fresh`.
    pub fn next_bootstrap_step(&self, state: &CurrentState, fresh: u128) -> (r: Option<BootstrapStep>)
        requires
            state.wf(),
        ensures
            !has_key(state.principals@, self.spec_hekate_id()) ==> (r matches Some(BootstrapStep::HekatePrincipal(p))
                && p.id == self.spec_hekate_id() && p.kind == PrincipalKind::Hekate && p.name@ == "HEKATE"@
                && p.identity_version_id is None),
            has_key(state.principals@, self.spec_hekate_id()) && !has_key(state.principals@, self.spec_user_id())
                ==> (r matches Some(BootstrapStep::UserPrincipal(p)) && p.id == self.spec_user_id() && p.kind
                == PrincipalKind::User && p.name@ == "User"@ && p.identity_version_id is None),
            has_key(state.principals@, self.spec_hekate_id()) && has_key(state.principals@, self.spec_user_id())
                && hekate_identity(state) is None ==> r == Some(
                BootstrapStep::Identity { id: fresh, principal_id: self.spec_hekate_id() },
            ),
            has_key(state.principals@, self.spec_hekate_id()) && has_key(state.principals@, self.spec_user_id())
                && hekate_identity(state) is Some && !joined(state.relationships@, self.spec_hekate_id(), self.spec_user_id())
                ==> (r matches Some(BootstrapStep::Relationship(rel)) && rel.id == fresh && rel.participants@ == seq![
                self.spec_user_id(),
                self.spec_hekate_id(),
            ] && rel.unresolved_conflicts@.len() == 0),
            r is None <==> (has_key(state.principals@, self.spec_hekate_id()) && has_key(
                state.principals@,
                self.spec_user_id(),
            ) && hekate_identity(state) is Some && joined(state.relationships@, self.spec_hekate_id(), self.spec_user_id())),
    {
        proof {
            reveal_strlit("HEKATE");
            reveal_strlit("User");
        }
        if !contains_key(&state.principals, self.hekate_id) {
            return Some(BootstrapStep::HekatePrincipal(Principal {
                id: self.hekate_id,
                kind: PrincipalKind::Hekate,
                name: "HEKATE".to_owned(),
                identity_version_id: None,
            }));
        }
        if !contains_key(&state.principals, self.user_id) {
            return Some(BootstrapStep::UserPrincipal(Principal {
                id: self.user_id,
                kind: PrincipalKind::User,
                name: "User".to_owned(),
                identity_version_id: None,
            }));
        }
        let identity = match hekate_principal(state) {
            Some(h) => identity_id_of(state, h),
            None => None,
        };
        if identity.is_none() {
            return Some(BootstrapStep::Identity { id: fresh, principal_id: self.hekate_id });
        }
        if find_joined(&state.relationships, self.hekate_id, self.user_id) {
            None
        } else {
            let mut participants: Vec<PrincipalId> = Vec::new();
            participants.push(self.user_id);
            participants.push(self.hekate_id);
            Some(BootstrapStep::Relationship(Relationship {
                id: fresh,
                participants,
                unresolved_conflicts: Vec::new(),
            }))
        }
    }
}

/// What an interaction answered: the observation, its focus, the decision
/// recorded for it, the revision it was answered at, and the operation and
/// approval it opened, if any.
pub struct InteractionResult {
    pub observation_id: ObservationId,
    pub focus: Focus,
    pub decision: Record,
    pub revision: u64,
    pub operation_id: Option<OperationId>,
    pub approval_id: Option<ApprovalId>,
}

/// The position of the first recorded observation the new one repeats.
pub open spec fn first_repeat(obs: Seq<Observation>, o: Observation, n: int) -> Option<int>
    decreases n,
{
    if n <= 0 {
        None
    } else {
        match first_repeat(obs, o, n - 1) {
            Some(k) => Some(k),
            None => if repeats(obs[n - 1], o) {
                Some(n - 1)
            } else {
                None
            },
        }
    }
}

/// The answer to a repeated message: the decision last recorded for the
/// observation it repeats, as of the stored revision, opening nothing; or
/// the refusal when no decision was recorded, or when the decision's
/// payload cannot be read.
pub open spec fn repeated_answer_is(
    state: &CurrentState,
    events: Seq<ExperienceEvent>,
    existing: Observation,
    r: Result<InteractionResult, EngineError>,
) -> bool {
    match last_decision_at(events, existing.id, events.len() as int) {
        None => r matches Err(EngineError::InvalidObservation(m)) && m@
            == "duplicate external message has no completed decision"@,
        Some(k) => match events[k].payload {
            Payload::Record(d) => r matches Ok(a) && a.observation_id == existing.id && a.focus
                == spec_resolve_focus(state, existing.content@) && a.decision.id == d.id
                && a.decision.body@ == d.body@ && a.revision == state.revision
                && a.operation_id is None && a.approval_id is None,
            Payload::Malformed(m) => r matches Err(EngineError::Serialization(t)) && t@ == m@,
            _ => r matches Err(EngineError::Serialization(t)) && t@ == "decision payload is not a decision"@,
        },
    }
}

proof fn lemma_first_repeat_stays(obs: Seq<Observation>, o: Observation, m: int, n: int)
    requires
        0 <= m <= n,
        first_repeat(obs, o, m) is Some,
    ensures
        first_repeat(obs, o, n) == first_repeat(obs, o, m),
    decreases n - m,
{
    if m < n {
        lemma_first_repeat_stays(obs, o, m, n - 1);
    }
}

/// Answers a message the ledger already holds: `None` when the observation
/// repeats no recorded one; else the answer given for the first recorded
/// observation it repeats, which appends nothing.
pub fn repeated_answer(state: &CurrentState, events: &[ExperienceEvent], observation: &Observation) -> (r: Option<
    Result<InteractionResult, EngineError>,
>)
    requires
        state.wf(),
    ensures
        match first_repeat(state.observations@, *observation, state.observations@.len() as int) {
            None => r is None,
            Some(k) => r matches Some(answer) && repeated_answer_is(state, events@, state.observations@[k], answer),
        },
{
    if observation.message_id.is_none() {
        proof {
            assert forall|n: int| 0 <= n <= state.observations@.len() implies first_repeat(state.observations@, *observation, n) is None by {
                lemma_no_repeat(state.observations@, *observation, n);
            }
        }
        return None;
    }
    let mut i: usize = 0;
    while i < state.observations.len()
        invariant
            i <= state.observations@.len(),
            state.wf(),
            observation.message_id is Some,
            first_repeat(state.observations@, *observation, i as int) is None,
        decreases state.observations@.len() - i,
    {
        let existing = &state.observations[i];
        if existing.source_type == observation.source_type && same_opt_text(&existing.source_ref, &observation.source_ref) {
            proof {
                lemma_first_repeat_stays(state.observations@, *observation, i + 1, state.observations@.len() as int);
            }
            let answer = match prior_decision(events, existing.id) {
                None => Err(EngineError::InvalidObservation("duplicate external message has no completed decision".to_owned())),
                Some(k) => match &events[k].payload {
                    Payload::Record(d) => Ok(
                        InteractionResult {
                            observation_id: existing.id,
                            focus: resolve_focus(state, existing),
                            decision: Record { id: d.id, body: d.body.clone() },
                            revision: state.revision,
                            operation_id: None,
                            approval_id: None,
                        },
                    ),
                    Payload::Malformed(m) => Err(EngineError::Serialization(m.clone())),
                    _ => Err(EngineError::Serialization("decision payload is not a decision".to_owned())),
                },
            };
            return Some(answer);
        }
        i = i + 1;
    }
    None
}

proof fn lemma_no_repeat(obs: Seq<Observation>, o: Observation, n: int)
    requires
        o.message_id is None,
        0 <= n <= obs.len(),
    ensures
        first_repeat(obs, o, n) is None,
    decreases n,
{
    if n > 0 {
        lemma_no_repeat(obs, o, n - 1);
    }
}

} // verus!
