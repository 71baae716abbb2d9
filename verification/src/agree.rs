//! Value agreement of stored rows: two rows agree when every field holds
//! the same value (texts by their characters, lists element by element).
use vstd::prelude::*;

use crate::model::{
    ActiveMemory, Approval, Artifact, Attempt, CompletionClaim, CompletionCriterion, Conflict,
    EvidenceRef, Goal, IdentityVersion, IntegrationCandidate, IntegrationMaterialization,
    IntegrationVerification, MemoryCandidate, Observation, Operation, Position,
    PositionIntegrationMaterialization, Principal, Record,
    Relationship, Run, SleepRun, Task, Verification,
};
use crate::state::CurrentState;

verus! {

/// A value that can be compared with another of its type field by field.
pub trait Agree: Sized {
    spec fn agrees(&self, other: &Self) -> bool;

    fn agrees_with(&self, other: &Self) -> (r: bool)
        ensures
            r == self.agrees(other),
    ;
}

/// Two lists agree: same length, and the rows at each index agree.
pub open spec fn rows_agree<T: Agree>(a: Seq<T>, b: Seq<T>) -> bool {
    &&& a.len() == b.len()
    &&& forall|i: int| 0 <= i < a.len() ==> #[trigger] a[i].agrees(&b[i])
}

/// Whether two lists agree row by row.
pub fn lists_agree<T: Agree>(a: &Vec<T>, b: &Vec<T>) -> (r: bool)
    ensures
        r == rows_agree(a@, b@),
{
    if a.len() != b.len() {
        return false;
    }
    let mut i: usize = 0;
    while i < a.len()
        invariant
            a@.len() == b@.len(),
            i <= a@.len(),
            forall|j: int| 0 <= j < i ==> #[trigger] a@[j].agrees(&b@[j]),
        decreases a@.len() - i,
    {
        if !a[i].agrees_with(&b[i]) {
            return false;
        }
        i = i + 1;
    }
    true
}

impl Agree for u128 {
    open spec fn agrees(&self, other: &Self) -> bool {
        *self == *other
    }

    fn agrees_with(&self, other: &Self) -> (r: bool) {
        *self == *other
    }
}

impl Agree for String {
    open spec fn agrees(&self, other: &Self) -> bool {
        self@ == other@
    }

    fn agrees_with(&self, other: &Self) -> (r: bool) {
        *self == *other
    }
}

impl<T: Agree> Agree for Option<T> {
    open spec fn agrees(&self, other: &Self) -> bool {
        match (self, other) {
            (Some(x), Some(y)) => x.agrees(y),
            (None, None) => true,
            _ => false,
        }
    }

    fn agrees_with(&self, other: &Self) -> (r: bool) {
        match (self, other) {
            (Some(x), Some(y)) => x.agrees_with(y),
            (None, None) => true,
            _ => false,
        }
    }
}

impl Agree for EvidenceRef {
    open spec fn agrees(&self, other: &Self) -> bool {
        &&& self.event_id == other.event_id
        &&& self.artifact_id == other.artifact_id
        &&& self.source_hash@ == other.source_hash@
        &&& self.as_of_sequence == other.as_of_sequence
    }

    fn agrees_with(&self, other: &Self) -> (r: bool) {
        self.event_id == other.event_id && self.artifact_id == other.artifact_id
            && self.source_hash == other.source_hash && self.as_of_sequence
            == other.as_of_sequence
    }
}

impl Agree for Principal {
    open spec fn agrees(&self, other: &Self) -> bool {
        &&& self.id == other.id
        &&& self.kind == other.kind
        &&& self.name@ == other.name@
        &&& self.identity_version_id == other.identity_version_id
    }

    fn agrees_with(&self, other: &Self) -> (r: bool) {
        self.id == other.id && self.kind == other.kind && self.name == other.name
            && self.identity_version_id == other.identity_version_id
    }
}

impl Agree for IdentityVersion {
    open spec fn agrees(&self, other: &Self) -> bool {
        &&& self.id == other.id
        &&& self.principal_id == other.principal_id
        &&& self.body@ == other.body@
    }

    fn agrees_with(&self, other: &Self) -> (r: bool) {
        self.id == other.id && self.principal_id == other.principal_id && self.body == other.body
    }
}

impl Agree for Relationship {
    open spec fn agrees(&self, other: &Self) -> bool {
        &&& self.id == other.id
        &&& rows_agree(self.participants@, other.participants@)
        &&& rows_agree(self.unresolved_conflicts@, other.unresolved_conflicts@)
    }

    fn agrees_with(&self, other: &Self) -> (r: bool) {
        self.id == other.id && lists_agree(&self.participants, &other.participants)
            && lists_agree(&self.unresolved_conflicts, &other.unresolved_conflicts)
    }
}

impl Agree for Observation {
    open spec fn agrees(&self, other: &Self) -> bool {
        &&& self.id == other.id
        &&& self.actor_id == other.actor_id
        &&& self.content@ == other.content@
        &&& self.thread_id.agrees(&other.thread_id)
        &&& self.message_id.agrees(&other.message_id)
        &&& self.source_type@ == other.source_type@
        &&& self.source_ref.agrees(&other.source_ref)
    }

    fn agrees_with(&self, other: &Self) -> (r: bool) {
        self.id == other.id && self.actor_id == other.actor_id && self.content == other.content
            && self.thread_id.agrees_with(&other.thread_id) && self.message_id.agrees_with(
            &other.message_id,
        ) && self.source_type == other.source_type && self.source_ref.agrees_with(
            &other.source_ref,
        )
    }
}

impl Agree for Goal {
    open spec fn agrees(&self, other: &Self) -> bool {
        &&& self.id == other.id
        &&& self.owner_principal_id == other.owner_principal_id
        &&& rows_agree(self.participants@, other.participants@)
        &&& self.title@ == other.title@
        &&& self.status == other.status
    }

    fn agrees_with(&self, other: &Self) -> (r: bool) {
        self.id == other.id && self.owner_principal_id == other.owner_principal_id && lists_agree(
            &self.participants,
            &other.participants,
        ) && self.title == other.title && self.status == other.status
    }
}

impl Agree for Task {
    open spec fn agrees(&self, other: &Self) -> bool {
        &&& self.id == other.id
        &&& self.goal_id == other.goal_id
        &&& self.title@ == other.title@
        &&& self.status == other.status
    }

    fn agrees_with(&self, other: &Self) -> (r: bool) {
        self.id == other.id && self.goal_id == other.goal_id && self.title == other.title
            && self.status == other.status
    }
}

impl Agree for Run {
    open spec fn agrees(&self, other: &Self) -> bool {
        &&& self.id == other.id
        &&& self.task_id == other.task_id
        &&& self.status == other.status
        &&& self.started_at@ == other.started_at@
    }

    fn agrees_with(&self, other: &Self) -> (r: bool) {
        self.id == other.id && self.task_id == other.task_id && self.status == other.status
            && self.started_at == other.started_at
    }
}

impl Agree for Attempt {
    open spec fn agrees(&self, other: &Self) -> bool {
        &&& self.id == other.id
        &&& self.run_id == other.run_id
        &&& self.status == other.status
    }

    fn agrees_with(&self, other: &Self) -> (r: bool) {
        self.id == other.id && self.run_id == other.run_id && self.status == other.status
    }
}

impl Agree for Position {
    open spec fn agrees(&self, other: &Self) -> bool {
        &&& self.id == other.id
        &&& self.principal_id == other.principal_id
        &&& self.subject@ == other.subject@
        &&& self.stance == other.stance
        &&& self.status == other.status
        &&& self.version == other.version
        &&& self.supersedes == other.supersedes
        &&& self.confidence == other.confidence
        &&& rows_agree(self.evidence_refs@, other.evidence_refs@)
        &&& rows_agree(self.reasons@, other.reasons@)
        &&& rows_agree(self.reconsideration_conditions@, other.reconsideration_conditions@)
    }

    fn agrees_with(&self, other: &Self) -> (r: bool) {
        self.id == other.id && self.principal_id == other.principal_id && self.subject
            == other.subject && self.stance == other.stance && self.status == other.status
            && self.version == other.version && self.supersedes == other.supersedes
            && self.confidence == other.confidence && lists_agree(
            &self.evidence_refs,
            &other.evidence_refs,
        ) && lists_agree(&self.reasons, &other.reasons) && lists_agree(
            &self.reconsideration_conditions,
            &other.reconsideration_conditions,
        )
    }
}

impl Agree for Conflict {
    open spec fn agrees(&self, other: &Self) -> bool {
        &&& self.id == other.id
        &&& self.subject@ == other.subject@
        &&& self.status == other.status
        &&& self.revision == other.revision
        &&& rows_agree(self.participant_positions@, other.participant_positions@)
        &&& rows_agree(self.evidence_refs@, other.evidence_refs@)
        &&& rows_agree(self.reasons@, other.reasons@)
        &&& rows_agree(self.reconsideration_conditions@, other.reconsideration_conditions@)
        &&& rows_agree(self.unresolved_questions@, other.unresolved_questions@)
        &&& self.resolution.agrees(&other.resolution)
    }

    fn agrees_with(&self, other: &Self) -> (r: bool) {
        self.id == other.id && self.subject == other.subject && self.status == other.status
            && self.revision == other.revision && lists_agree(
            &self.participant_positions,
            &other.participant_positions,
        ) && lists_agree(&self.evidence_refs, &other.evidence_refs) && lists_agree(
            &self.reasons,
            &other.reasons,
        ) && lists_agree(&self.reconsideration_conditions, &other.reconsideration_conditions)
            && lists_agree(&self.unresolved_questions, &other.unresolved_questions)
            && self.resolution.agrees_with(&other.resolution)
    }
}

impl Agree for Approval {
    open spec fn agrees(&self, other: &Self) -> bool {
        &&& self.id == other.id
        &&& self.operation_id == other.operation_id
        &&& self.status == other.status
        &&& self.resolved_by == other.resolved_by
    }

    fn agrees_with(&self, other: &Self) -> (r: bool) {
        self.id == other.id && self.operation_id == other.operation_id && self.status
            == other.status && self.resolved_by == other.resolved_by
    }
}

impl Agree for Operation {
    open spec fn agrees(&self, other: &Self) -> bool {
        &&& self.id == other.id
        &&& self.intent_id == other.intent_id
        &&& self.status == other.status
        &&& self.approval_id == other.approval_id
    }

    fn agrees_with(&self, other: &Self) -> (r: bool) {
        self.id == other.id && self.intent_id == other.intent_id && self.status == other.status
            && self.approval_id == other.approval_id
    }
}

impl Agree for Verification {
    open spec fn agrees(&self, other: &Self) -> bool {
        &&& self.id == other.id
        &&& self.operation_id == other.operation_id
        &&& self.status == other.status
    }

    fn agrees_with(&self, other: &Self) -> (r: bool) {
        self.id == other.id && self.operation_id == other.operation_id && self.status
            == other.status
    }
}

impl Agree for Artifact {
    open spec fn agrees(&self, other: &Self) -> bool {
        &&& self.id == other.id
        &&& self.path@ == other.path@
        &&& self.content_hash@ == other.content_hash@
        &&& self.size == other.size
        &&& self.media_type@ == other.media_type@
        &&& self.provenance_event_id == other.provenance_event_id
    }

    fn agrees_with(&self, other: &Self) -> (r: bool) {
        self.id == other.id && self.path == other.path && self.content_hash == other.content_hash
            && self.size == other.size && self.media_type == other.media_type
            && self.provenance_event_id == other.provenance_event_id
    }
}

impl Agree for CompletionCriterion {
    open spec fn agrees(&self, other: &Self) -> bool {
        &&& self.id == other.id
        &&& self.task_id == other.task_id
        &&& self.description@ == other.description@
        &&& self.required == other.required
    }

    fn agrees_with(&self, other: &Self) -> (r: bool) {
        self.id == other.id && self.task_id == other.task_id && self.description
            == other.description && self.required == other.required
    }
}

impl Agree for CompletionClaim {
    open spec fn agrees(&self, other: &Self) -> bool {
        &&& self.id == other.id
        &&& self.task_id == other.task_id
        &&& self.criterion_id == other.criterion_id
        &&& self.disposition == other.disposition
        &&& self.confidence == other.confidence
        &&& rows_agree(self.evidence_refs@, other.evidence_refs@)
        &&& self.blocker.agrees(&other.blocker)
        &&& self.fingerprint@ == other.fingerprint@
        &&& self.as_of_sequence == other.as_of_sequence
        &&& self.supersedes == other.supersedes
    }

    fn agrees_with(&self, other: &Self) -> (r: bool) {
        self.id == other.id && self.task_id == other.task_id && self.criterion_id
            == other.criterion_id && self.disposition == other.disposition && self.confidence
            == other.confidence && lists_agree(&self.evidence_refs, &other.evidence_refs)
            && self.blocker.agrees_with(&other.blocker) && self.fingerprint == other.fingerprint
            && self.as_of_sequence == other.as_of_sequence && self.supersedes == other.supersedes
    }
}

impl Agree for ActiveMemory {
    open spec fn agrees(&self, other: &Self) -> bool {
        &&& self.id == other.id
        &&& self.candidate_id == other.candidate_id
        &&& self.kind == other.kind
        &&& self.content@ == other.content@
        &&& self.subject_principal_id == other.subject_principal_id
        &&& self.status == other.status
        &&& rows_agree(self.source_event_ids@, other.source_event_ids@)
    }

    fn agrees_with(&self, other: &Self) -> (r: bool) {
        self.id == other.id && self.candidate_id == other.candidate_id && self.kind == other.kind
            && self.content == other.content && self.subject_principal_id
            == other.subject_principal_id && self.status == other.status && lists_agree(
            &self.source_event_ids,
            &other.source_event_ids,
        )
    }
}

impl Agree for MemoryCandidate {
    open spec fn agrees(&self, other: &Self) -> bool {
        &&& self.id == other.id
        &&& self.kind == other.kind
        &&& self.content@ == other.content@
        &&& self.subject_principal_id == other.subject_principal_id
        &&& self.status == other.status
        &&& rows_agree(self.source_event_ids@, other.source_event_ids@)
    }

    fn agrees_with(&self, other: &Self) -> (r: bool) {
        self.id == other.id && self.kind == other.kind && self.content == other.content
            && self.subject_principal_id == other.subject_principal_id && self.status
            == other.status && lists_agree(&self.source_event_ids, &other.source_event_ids)
    }
}

impl Agree for SleepRun {
    open spec fn agrees(&self, other: &Self) -> bool {
        &&& self.id == other.id
        &&& self.status == other.status
        &&& self.high_water_revision == other.high_water_revision
        &&& self.cursor_before == other.cursor_before
        &&& self.cursor_after == other.cursor_after
        &&& rows_agree(self.seed_event_ids@, other.seed_event_ids@)
        &&& self.processed_observation_count == other.processed_observation_count
        &&& self.created_candidate_count == other.created_candidate_count
        &&& self.started_at@ == other.started_at@
        &&& self.finished_at.agrees(&other.finished_at)
        &&& self.error_kind.agrees(&other.error_kind)
    }

    fn agrees_with(&self, other: &Self) -> (r: bool) {
        self.id == other.id && self.status == other.status && self.high_water_revision
            == other.high_water_revision && self.cursor_before == other.cursor_before
            && self.cursor_after == other.cursor_after && lists_agree(
            &self.seed_event_ids,
            &other.seed_event_ids,
        ) && self.processed_observation_count == other.processed_observation_count
            && self.created_candidate_count == other.created_candidate_count && self.started_at
            == other.started_at && self.finished_at.agrees_with(&other.finished_at)
            && self.error_kind.agrees_with(&other.error_kind)
    }
}

impl Agree for IntegrationCandidate {
    open spec fn agrees(&self, other: &Self) -> bool {
        &&& self.id == other.id
        &&& self.sleep_run_id == other.sleep_run_id
        &&& self.kind == other.kind
        &&& self.disposition == other.disposition
        &&& self.content@ == other.content@
        &&& self.rationale@ == other.rationale@
        &&& rows_agree(self.source_event_ids@, other.source_event_ids@)
        &&& rows_agree(self.counterevidence_event_ids@, other.counterevidence_event_ids@)
        &&& self.confidence == other.confidence
        &&& self.as_of_revision == other.as_of_revision
        &&& self.fingerprint@ == other.fingerprint@
    }

    fn agrees_with(&self, other: &Self) -> (r: bool) {
        self.id == other.id && self.sleep_run_id == other.sleep_run_id && self.kind == other.kind
            && self.disposition == other.disposition && self.content == other.content
            && self.rationale == other.rationale && lists_agree(
            &self.source_event_ids,
            &other.source_event_ids,
        ) && lists_agree(&self.counterevidence_event_ids, &other.counterevidence_event_ids)
            && self.confidence == other.confidence && self.as_of_revision == other.as_of_revision
            && self.fingerprint == other.fingerprint
    }
}

impl Agree for IntegrationVerification {
    open spec fn agrees(&self, other: &Self) -> bool {
        &&& self.candidate_id == other.candidate_id
        &&& self.previous_disposition == other.previous_disposition
        &&& self.new_disposition == other.new_disposition
        &&& self.actor_id == other.actor_id
        &&& self.reason@ == other.reason@
        &&& rows_agree(self.evidence_refs@, other.evidence_refs@)
        &&& self.as_of_revision == other.as_of_revision
    }

    fn agrees_with(&self, other: &Self) -> (r: bool) {
        self.candidate_id == other.candidate_id && self.previous_disposition
            == other.previous_disposition && self.new_disposition == other.new_disposition
            && self.actor_id == other.actor_id && self.reason == other.reason && lists_agree(
            &self.evidence_refs,
            &other.evidence_refs,
        ) && self.as_of_revision == other.as_of_revision
    }
}

impl Agree for IntegrationMaterialization {
    open spec fn agrees(&self, other: &Self) -> bool {
        &&& self.candidate_id == other.candidate_id
        &&& self.memory_candidate_id == other.memory_candidate_id
        &&& self.memory_id == other.memory_id
        &&& rows_agree(self.source_event_ids@, other.source_event_ids@)
        &&& rows_agree(self.counterevidence_event_ids@, other.counterevidence_event_ids@)
        &&& rows_agree(self.evidence_refs@, other.evidence_refs@)
        &&& self.fingerprint@ == other.fingerprint@
        &&& self.as_of_revision == other.as_of_revision
    }

    fn agrees_with(&self, other: &Self) -> (r: bool) {
        self.candidate_id == other.candidate_id && self.memory_candidate_id
            == other.memory_candidate_id && self.memory_id == other.memory_id && lists_agree(
            &self.source_event_ids,
            &other.source_event_ids,
        ) && lists_agree(&self.counterevidence_event_ids, &other.counterevidence_event_ids)
            && lists_agree(&self.evidence_refs, &other.evidence_refs) && self.fingerprint
            == other.fingerprint && self.as_of_revision == other.as_of_revision
    }
}

impl Agree for PositionIntegrationMaterialization {
    open spec fn agrees(&self, other: &Self) -> bool {
        &&& self.candidate_id == other.candidate_id
        &&& self.position_id == other.position_id
        &&& self.position_event_id == other.position_event_id
        &&& self.verification_event_id == other.verification_event_id
        &&& self.action == other.action
        &&& self.prior_position.agrees(&other.prior_position)
        &&& rows_agree(self.source_event_ids@, other.source_event_ids@)
        &&& rows_agree(self.counterevidence_event_ids@, other.counterevidence_event_ids@)
        &&& rows_agree(self.evidence_refs@, other.evidence_refs@)
        &&& self.fingerprint@ == other.fingerprint@
        &&& self.as_of_revision == other.as_of_revision
    }

    fn agrees_with(&self, other: &Self) -> (r: bool) {
        self.candidate_id == other.candidate_id && self.position_id == other.position_id
            && self.position_event_id == other.position_event_id && self.verification_event_id
            == other.verification_event_id && self.action == other.action
            && self.prior_position.agrees_with(&other.prior_position) && lists_agree(
            &self.source_event_ids,
            &other.source_event_ids,
        ) && lists_agree(&self.counterevidence_event_ids, &other.counterevidence_event_ids)
            && lists_agree(&self.evidence_refs, &other.evidence_refs) && self.fingerprint
            == other.fingerprint && self.as_of_revision == other.as_of_revision
    }
}

impl Agree for Record {
    open spec fn agrees(&self, other: &Self) -> bool {
        &&& self.id == other.id
        &&& self.body@ == other.body@
    }

    fn agrees_with(&self, other: &Self) -> (r: bool) {
        self.id == other.id && self.body == other.body
    }
}

/// Two projections hold the same values: revision, cursor, the ledger's
/// applied events and every table row by row.
pub open spec fn same_state(a: &CurrentState, b: &CurrentState) -> bool {
    &&& a.revision == b.revision
    &&& a.sleep_cursor == b.sleep_cursor
    &&& rows_agree(a.applied_events@, b.applied_events@)
    &&& rows_agree(a.principals@, b.principals@)
    &&& rows_agree(a.identity_versions@, b.identity_versions@)
    &&& rows_agree(a.relationships@, b.relationships@)
    &&& rows_agree(a.observations@, b.observations@)
    &&& rows_agree(a.goals@, b.goals@)
    &&& rows_agree(a.tasks@, b.tasks@)
    &&& rows_agree(a.runs@, b.runs@)
    &&& rows_agree(a.attempts@, b.attempts@)
    &&& rows_agree(a.positions@, b.positions@)
    &&& rows_agree(a.conflicts@, b.conflicts@)
    &&& rows_agree(a.approvals@, b.approvals@)
    &&& rows_agree(a.operations@, b.operations@)
    &&& rows_agree(a.verifications@, b.verifications@)
    &&& rows_agree(a.artifacts@, b.artifacts@)
    &&& rows_agree(a.completion_criteria@, b.completion_criteria@)
    &&& rows_agree(a.completion_claims@, b.completion_claims@)
    &&& rows_agree(a.memory_candidates@, b.memory_candidates@)
    &&& rows_agree(a.active_memories@, b.active_memories@)
    &&& rows_agree(a.sleep_runs@, b.sleep_runs@)
    &&& rows_agree(a.integration_candidates@, b.integration_candidates@)
    &&& rows_agree(a.integration_verifications@, b.integration_verifications@)
    &&& rows_agree(a.integration_materializations@, b.integration_materializations@)
    &&& rows_agree(
        a.position_integration_materializations@,
        b.position_integration_materializations@,
    )
    &&& rows_agree(a.decisions@, b.decisions@)
    &&& rows_agree(a.commitments@, b.commitments@)
    &&& rows_agree(a.action_intents@, b.action_intents@)
    &&& rows_agree(a.receipts@, b.receipts@)
    &&& rows_agree(a.working_states@, b.working_states@)
}

/// Whether two projections hold the same values.
pub fn states_agree(a: &CurrentState, b: &CurrentState) -> (r: bool)
    ensures
        r == same_state(a, b),
{
    a.revision == b.revision && a.sleep_cursor == b.sleep_cursor && lists_agree(
        &a.applied_events,
        &b.applied_events,
    ) && lists_agree(&a.principals, &b.principals) && lists_agree(
        &a.identity_versions,
        &b.identity_versions,
    ) && lists_agree(&a.relationships, &b.relationships) && lists_agree(
        &a.observations,
        &b.observations,
    ) && lists_agree(&a.goals, &b.goals) && lists_agree(&a.tasks, &b.tasks) && lists_agree(
        &a.runs,
        &b.runs,
    ) && lists_agree(&a.attempts, &b.attempts) && lists_agree(&a.positions, &b.positions)
        && lists_agree(&a.conflicts, &b.conflicts) && lists_agree(&a.approvals, &b.approvals)
        && lists_agree(&a.operations, &b.operations) && lists_agree(
        &a.verifications,
        &b.verifications,
    ) && lists_agree(&a.artifacts, &b.artifacts) && lists_agree(
        &a.completion_criteria,
        &b.completion_criteria,
    ) && lists_agree(&a.completion_claims, &b.completion_claims) && lists_agree(
        &a.memory_candidates,
        &b.memory_candidates,
    ) && lists_agree(&a.active_memories, &b.active_memories) && lists_agree(
        &a.sleep_runs,
        &b.sleep_runs,
    ) && lists_agree(&a.integration_candidates, &b.integration_candidates) && lists_agree(
        &a.integration_verifications,
        &b.integration_verifications,
    ) && lists_agree(&a.integration_materializations, &b.integration_materializations)
        && lists_agree(
        &a.position_integration_materializations,
        &b.position_integration_materializations,
    )
        && lists_agree(&a.decisions, &b.decisions) && lists_agree(&a.commitments, &b.commitments)
        && lists_agree(&a.action_intents, &b.action_intents) && lists_agree(
        &a.receipts,
        &b.receipts,
    ) && lists_agree(&a.working_states, &b.working_states)
}

/// The characters of each text.
pub open spec fn text_views(x: Seq<String>) -> Seq<Seq<char>> {
    x.map_values(|s: String| s@)
}

/// The characters of an optional text.
pub open spec fn opt_view(x: Option<String>) -> Option<Seq<char>> {
    match x {
        Some(s) => Some(s@),
        None => None,
    }
}

/// Each piece of evidence as plain values.
pub open spec fn evidence_views(x: Seq<EvidenceRef>) -> Seq<(u128, Option<u128>, Seq<char>, u64)> {
    x.map_values(|e: EvidenceRef| (e.event_id, e.artifact_id, e.source_hash@, e.as_of_sequence))
}

proof fn lemma_ids_agree(x: Seq<u128>, y: Seq<u128>)
    requires
        rows_agree(x, y),
    ensures
        x == y,
{
    assert forall|i: int| 0 <= i < x.len() implies x[i] == y[i] by {
        assert(x[i].agrees(&y[i]));
    }
    assert(x =~= y);
}

proof fn lemma_texts_agree(x: Seq<String>, y: Seq<String>)
    requires
        rows_agree(x, y),
    ensures
        text_views(x) == text_views(y),
{
    assert forall|i: int| 0 <= i < x.len() implies text_views(x)[i] == text_views(y)[i] by {
        assert(x[i].agrees(&y[i]));
    }
    assert(text_views(x) =~= text_views(y));
}

proof fn lemma_evidence_agree(x: Seq<EvidenceRef>, y: Seq<EvidenceRef>)
    requires
        rows_agree(x, y),
    ensures
        evidence_views(x) == evidence_views(y),
{
    assert forall|i: int| 0 <= i < x.len() implies evidence_views(x)[i] == evidence_views(y)[i] by {
        assert(x[i].agrees(&y[i]));
    }
    assert(evidence_views(x) =~= evidence_views(y));
}

/// The `principals` tables of two projections hold the same rows, field by field.
pub open spec fn same_principals(a: &CurrentState, b: &CurrentState) -> bool {
    &&& a.principals@.len() == b.principals@.len()
    &&& forall|k: int| 0 <= k < a.principals@.len() ==> {
        a.principals@[k].id == b.principals@[k].id
        && a.principals@[k].kind == b.principals@[k].kind
        && a.principals@[k].name@ == b.principals@[k].name@
        && a.principals@[k].identity_version_id == b.principals@[k].identity_version_id
    }
}

proof fn lemma_agree_principals(a: &CurrentState, b: &CurrentState)
    requires
        rows_agree(a.principals@, b.principals@),
    ensures
        same_principals(a, b),
{
    assert forall|k: int| 0 <= k < a.principals@.len() implies {
        a.principals@[k].id == b.principals@[k].id
        && a.principals@[k].kind == b.principals@[k].kind
        && a.principals@[k].name@ == b.principals@[k].name@
        && a.principals@[k].identity_version_id == b.principals@[k].identity_version_id
    } by {
        assert(a.principals@[k].agrees(&b.principals@[k]));
        
    }
}

/// The `identity_versions` tables of two projections hold the same rows, field by field.
pub open spec fn same_identity_versions(a: &CurrentState, b: &CurrentState) -> bool {
    &&& a.identity_versions@.len() == b.identity_versions@.len()
    &&& forall|k: int| 0 <= k < a.identity_versions@.len() ==> {
        a.identity_versions@[k].id == b.identity_versions@[k].id
        && a.identity_versions@[k].principal_id == b.identity_versions@[k].principal_id
        && a.identity_versions@[k].body@ == b.identity_versions@[k].body@
    }
}

proof fn lemma_agree_identity_versions(a: &CurrentState, b: &CurrentState)
    requires
        rows_agree(a.identity_versions@, b.identity_versions@),
    ensures
        same_identity_versions(a, b),
{
    assert forall|k: int| 0 <= k < a.identity_versions@.len() implies {
        a.identity_versions@[k].id == b.identity_versions@[k].id
        && a.identity_versions@[k].principal_id == b.identity_versions@[k].principal_id
        && a.identity_versions@[k].body@ == b.identity_versions@[k].body@
    } by {
        assert(a.identity_versions@[k].agrees(&b.identity_versions@[k]));
        
    }
}

/// The `relationships` tables of two projections hold the same rows, field by field.
pub open spec fn same_relationships(a: &CurrentState, b: &CurrentState) -> bool {
    &&& a.relationships@.len() == b.relationships@.len()
    &&& forall|k: int| 0 <= k < a.relationships@.len() ==> {
        a.relationships@[k].id == b.relationships@[k].id
        && a.relationships@[k].participants@ == b.relationships@[k].participants@
        && a.relationships@[k].unresolved_conflicts@ == b.relationships@[k].unresolved_conflicts@
    }
}

proof fn lemma_agree_relationships(a: &CurrentState, b: &CurrentState)
    requires
        rows_agree(a.relationships@, b.relationships@),
    ensures
        same_relationships(a, b),
{
    assert forall|k: int| 0 <= k < a.relationships@.len() implies {
        a.relationships@[k].id == b.relationships@[k].id
        && a.relationships@[k].participants@ == b.relationships@[k].participants@
        && a.relationships@[k].unresolved_conflicts@ == b.relationships@[k].unresolved_conflicts@
    } by {
        assert(a.relationships@[k].agrees(&b.relationships@[k]));
        lemma_ids_agree(a.relationships@[k].participants@, b.relationships@[k].participants@);
        lemma_ids_agree(a.relationships@[k].unresolved_conflicts@, b.relationships@[k].unresolved_conflicts@);
    }
}

/// The `observations` tables of two projections hold the same rows, field by field.
pub open spec fn same_observations(a: &CurrentState, b: &CurrentState) -> bool {
    &&& a.observations@.len() == b.observations@.len()
    &&& forall|k: int| 0 <= k < a.observations@.len() ==> {
        a.observations@[k].id == b.observations@[k].id
        && a.observations@[k].actor_id == b.observations@[k].actor_id
        && a.observations@[k].content@ == b.observations@[k].content@
        && opt_view(a.observations@[k].thread_id) == opt_view(b.observations@[k].thread_id)
        && opt_view(a.observations@[k].message_id) == opt_view(b.observations@[k].message_id)
        && a.observations@[k].source_type@ == b.observations@[k].source_type@
        && opt_view(a.observations@[k].source_ref) == opt_view(b.observations@[k].source_ref)
    }
}

proof fn lemma_agree_observations(a: &CurrentState, b: &CurrentState)
    requires
        rows_agree(a.observations@, b.observations@),
    ensures
        same_observations(a, b),
{
    assert forall|k: int| 0 <= k < a.observations@.len() implies {
        a.observations@[k].id == b.observations@[k].id
        && a.observations@[k].actor_id == b.observations@[k].actor_id
        && a.observations@[k].content@ == b.observations@[k].content@
        && opt_view(a.observations@[k].thread_id) == opt_view(b.observations@[k].thread_id)
        && opt_view(a.observations@[k].message_id) == opt_view(b.observations@[k].message_id)
        && a.observations@[k].source_type@ == b.observations@[k].source_type@
        && opt_view(a.observations@[k].source_ref) == opt_view(b.observations@[k].source_ref)
    } by {
        assert(a.observations@[k].agrees(&b.observations@[k]));
        
    }
}

/// The `goals` tables of two projections hold the same rows, field by field.
pub open spec fn same_goals(a: &CurrentState, b: &CurrentState) -> bool {
    &&& a.goals@.len() == b.goals@.len()
    &&& forall|k: int| 0 <= k < a.goals@.len() ==> {
        a.goals@[k].id == b.goals@[k].id
        && a.goals@[k].owner_principal_id == b.goals@[k].owner_principal_id
        && a.goals@[k].participants@ == b.goals@[k].participants@
        && a.goals@[k].title@ == b.goals@[k].title@
        && a.goals@[k].status == b.goals@[k].status
    }
}

proof fn lemma_agree_goals(a: &CurrentState, b: &CurrentState)
    requires
        rows_agree(a.goals@, b.goals@),
    ensures
        same_goals(a, b),
{
    assert forall|k: int| 0 <= k < a.goals@.len() implies {
        a.goals@[k].id == b.goals@[k].id
        && a.goals@[k].owner_principal_id == b.goals@[k].owner_principal_id
        && a.goals@[k].participants@ == b.goals@[k].participants@
        && a.goals@[k].title@ == b.goals@[k].title@
        && a.goals@[k].status == b.goals@[k].status
    } by {
        assert(a.goals@[k].agrees(&b.goals@[k]));
        lemma_ids_agree(a.goals@[k].participants@, b.goals@[k].participants@);
    }
}

/// The `tasks` tables of two projections hold the same rows, field by field.
pub open spec fn same_tasks(a: &CurrentState, b: &CurrentState) -> bool {
    &&& a.tasks@.len() == b.tasks@.len()
    &&& forall|k: int| 0 <= k < a.tasks@.len() ==> {
        a.tasks@[k].id == b.tasks@[k].id
        && a.tasks@[k].goal_id == b.tasks@[k].goal_id
        && a.tasks@[k].title@ == b.tasks@[k].title@
        && a.tasks@[k].status == b.tasks@[k].status
    }
}

proof fn lemma_agree_tasks(a: &CurrentState, b: &CurrentState)
    requires
        rows_agree(a.tasks@, b.tasks@),
    ensures
        same_tasks(a, b),
{
    assert forall|k: int| 0 <= k < a.tasks@.len() implies {
        a.tasks@[k].id == b.tasks@[k].id
        && a.tasks@[k].goal_id == b.tasks@[k].goal_id
        && a.tasks@[k].title@ == b.tasks@[k].title@
        && a.tasks@[k].status == b.tasks@[k].status
    } by {
        assert(a.tasks@[k].agrees(&b.tasks@[k]));
        
    }
}

/// The `runs` tables of two projections hold the same rows, field by field.
pub open spec fn same_runs(a: &CurrentState, b: &CurrentState) -> bool {
    &&& a.runs@.len() == b.runs@.len()
    &&& forall|k: int| 0 <= k < a.runs@.len() ==> {
        a.runs@[k].id == b.runs@[k].id
        && a.runs@[k].task_id == b.runs@[k].task_id
        && a.runs@[k].status == b.runs@[k].status
        && a.runs@[k].started_at@ == b.runs@[k].started_at@
    }
}

proof fn lemma_agree_runs(a: &CurrentState, b: &CurrentState)
    requires
        rows_agree(a.runs@, b.runs@),
    ensures
        same_runs(a, b),
{
    assert forall|k: int| 0 <= k < a.runs@.len() implies {
        a.runs@[k].id == b.runs@[k].id
        && a.runs@[k].task_id == b.runs@[k].task_id
        && a.runs@[k].status == b.runs@[k].status
        && a.runs@[k].started_at@ == b.runs@[k].started_at@
    } by {
        assert(a.runs@[k].agrees(&b.runs@[k]));
        
    }
}

/// The `attempts` tables of two projections hold the same rows, field by field.
pub open spec fn same_attempts(a: &CurrentState, b: &CurrentState) -> bool {
    &&& a.attempts@.len() == b.attempts@.len()
    &&& forall|k: int| 0 <= k < a.attempts@.len() ==> {
        a.attempts@[k].id == b.attempts@[k].id
        && a.attempts@[k].run_id == b.attempts@[k].run_id
        && a.attempts@[k].status == b.attempts@[k].status
    }
}

proof fn lemma_agree_attempts(a: &CurrentState, b: &CurrentState)
    requires
        rows_agree(a.attempts@, b.attempts@),
    ensures
        same_attempts(a, b),
{
    assert forall|k: int| 0 <= k < a.attempts@.len() implies {
        a.attempts@[k].id == b.attempts@[k].id
        && a.attempts@[k].run_id == b.attempts@[k].run_id
        && a.attempts@[k].status == b.attempts@[k].status
    } by {
        assert(a.attempts@[k].agrees(&b.attempts@[k]));
        
    }
}

/// The `positions` tables of two projections hold the same rows, field by field.
pub open spec fn same_positions(a: &CurrentState, b: &CurrentState) -> bool {
    &&& a.positions@.len() == b.positions@.len()
    &&& forall|k: int| 0 <= k < a.positions@.len() ==> {
        a.positions@[k].id == b.positions@[k].id
        && a.positions@[k].principal_id == b.positions@[k].principal_id
        && a.positions@[k].subject@ == b.positions@[k].subject@
        && a.positions@[k].stance == b.positions@[k].stance
        && a.positions@[k].status == b.positions@[k].status
        && a.positions@[k].version == b.positions@[k].version
        && a.positions@[k].supersedes == b.positions@[k].supersedes
        && a.positions@[k].confidence == b.positions@[k].confidence
        && a.positions@[k].evidence_refs@ == b.positions@[k].evidence_refs@
        && text_views(a.positions@[k].reasons@) == text_views(b.positions@[k].reasons@)
        && text_views(a.positions@[k].reconsideration_conditions@) == text_views(b.positions@[k].reconsideration_conditions@)
    }
}

proof fn lemma_agree_positions(a: &CurrentState, b: &CurrentState)
    requires
        rows_agree(a.positions@, b.positions@),
    ensures
        same_positions(a, b),
{
    assert forall|k: int| 0 <= k < a.positions@.len() implies {
        a.positions@[k].id == b.positions@[k].id
        && a.positions@[k].principal_id == b.positions@[k].principal_id
        && a.positions@[k].subject@ == b.positions@[k].subject@
        && a.positions@[k].stance == b.positions@[k].stance
        && a.positions@[k].status == b.positions@[k].status
        && a.positions@[k].version == b.positions@[k].version
        && a.positions@[k].supersedes == b.positions@[k].supersedes
        && a.positions@[k].confidence == b.positions@[k].confidence
        && a.positions@[k].evidence_refs@ == b.positions@[k].evidence_refs@
        && text_views(a.positions@[k].reasons@) == text_views(b.positions@[k].reasons@)
        && text_views(a.positions@[k].reconsideration_conditions@) == text_views(b.positions@[k].reconsideration_conditions@)
    } by {
        assert(a.positions@[k].agrees(&b.positions@[k]));
        lemma_ids_agree(a.positions@[k].evidence_refs@, b.positions@[k].evidence_refs@);
        lemma_texts_agree(a.positions@[k].reasons@, b.positions@[k].reasons@);
        lemma_texts_agree(a.positions@[k].reconsideration_conditions@, b.positions@[k].reconsideration_conditions@);
    }
}

/// The `conflicts` tables of two projections hold the same rows, field by field.
pub open spec fn same_conflicts(a: &CurrentState, b: &CurrentState) -> bool {
    &&& a.conflicts@.len() == b.conflicts@.len()
    &&& forall|k: int| 0 <= k < a.conflicts@.len() ==> {
        a.conflicts@[k].id == b.conflicts@[k].id
        && a.conflicts@[k].subject@ == b.conflicts@[k].subject@
        && a.conflicts@[k].status == b.conflicts@[k].status
        && a.conflicts@[k].revision == b.conflicts@[k].revision
        && a.conflicts@[k].participant_positions@ == b.conflicts@[k].participant_positions@
        && a.conflicts@[k].evidence_refs@ == b.conflicts@[k].evidence_refs@
        && text_views(a.conflicts@[k].reasons@) == text_views(b.conflicts@[k].reasons@)
        && text_views(a.conflicts@[k].reconsideration_conditions@) == text_views(b.conflicts@[k].reconsideration_conditions@)
        && text_views(a.conflicts@[k].unresolved_questions@) == text_views(b.conflicts@[k].unresolved_questions@)
        && opt_view(a.conflicts@[k].resolution) == opt_view(b.conflicts@[k].resolution)
    }
}

proof fn lemma_agree_conflicts(a: &CurrentState, b: &CurrentState)
    requires
        rows_agree(a.conflicts@, b.conflicts@),
    ensures
        same_conflicts(a, b),
{
    assert forall|k: int| 0 <= k < a.conflicts@.len() implies {
        a.conflicts@[k].id == b.conflicts@[k].id
        && a.conflicts@[k].subject@ == b.conflicts@[k].subject@
        && a.conflicts@[k].status == b.conflicts@[k].status
        && a.conflicts@[k].revision == b.conflicts@[k].revision
        && a.conflicts@[k].participant_positions@ == b.conflicts@[k].participant_positions@
        && a.conflicts@[k].evidence_refs@ == b.conflicts@[k].evidence_refs@
        && text_views(a.conflicts@[k].reasons@) == text_views(b.conflicts@[k].reasons@)
        && text_views(a.conflicts@[k].reconsideration_conditions@) == text_views(b.conflicts@[k].reconsideration_conditions@)
        && text_views(a.conflicts@[k].unresolved_questions@) == text_views(b.conflicts@[k].unresolved_questions@)
        && opt_view(a.conflicts@[k].resolution) == opt_view(b.conflicts@[k].resolution)
    } by {
        assert(a.conflicts@[k].agrees(&b.conflicts@[k]));
        lemma_ids_agree(a.conflicts@[k].participant_positions@, b.conflicts@[k].participant_positions@);
        lemma_ids_agree(a.conflicts@[k].evidence_refs@, b.conflicts@[k].evidence_refs@);
        lemma_texts_agree(a.conflicts@[k].reasons@, b.conflicts@[k].reasons@);
        lemma_texts_agree(a.conflicts@[k].reconsideration_conditions@, b.conflicts@[k].reconsideration_conditions@);
        lemma_texts_agree(a.conflicts@[k].unresolved_questions@, b.conflicts@[k].unresolved_questions@);
    }
}

/// The `approvals` tables of two projections hold the same rows, field by field.
pub open spec fn same_approvals(a: &CurrentState, b: &CurrentState) -> bool {
    &&& a.approvals@.len() == b.approvals@.len()
    &&& forall|k: int| 0 <= k < a.approvals@.len() ==> {
        a.approvals@[k].id == b.approvals@[k].id
        && a.approvals@[k].operation_id == b.approvals@[k].operation_id
        && a.approvals@[k].status == b.approvals@[k].status
        && a.approvals@[k].resolved_by == b.approvals@[k].resolved_by
    }
}

proof fn lemma_agree_approvals(a: &CurrentState, b: &CurrentState)
    requires
        rows_agree(a.approvals@, b.approvals@),
    ensures
        same_approvals(a, b),
{
    assert forall|k: int| 0 <= k < a.approvals@.len() implies {
        a.approvals@[k].id == b.approvals@[k].id
        && a.approvals@[k].operation_id == b.approvals@[k].operation_id
        && a.approvals@[k].status == b.approvals@[k].status
        && a.approvals@[k].resolved_by == b.approvals@[k].resolved_by
    } by {
        assert(a.approvals@[k].agrees(&b.approvals@[k]));
        
    }
}

/// The `operations` tables of two projections hold the same rows, field by field.
pub open spec fn same_operations(a: &CurrentState, b: &CurrentState) -> bool {
    &&& a.operations@.len() == b.operations@.len()
    &&& forall|k: int| 0 <= k < a.operations@.len() ==> {
        a.operations@[k].id == b.operations@[k].id
        && a.operations@[k].intent_id == b.operations@[k].intent_id
        && a.operations@[k].status == b.operations@[k].status
        && a.operations@[k].approval_id == b.operations@[k].approval_id
    }
}

proof fn lemma_agree_operations(a: &CurrentState, b: &CurrentState)
    requires
        rows_agree(a.operations@, b.operations@),
    ensures
        same_operations(a, b),
{
    assert forall|k: int| 0 <= k < a.operations@.len() implies {
        a.operations@[k].id == b.operations@[k].id
        && a.operations@[k].intent_id == b.operations@[k].intent_id
        && a.operations@[k].status == b.operations@[k].status
        && a.operations@[k].approval_id == b.operations@[k].approval_id
    } by {
        assert(a.operations@[k].agrees(&b.operations@[k]));
        
    }
}

/// The `verifications` tables of two projections hold the same rows, field by field.
pub open spec fn same_verifications(a: &CurrentState, b: &CurrentState) -> bool {
    &&& a.verifications@.len() == b.verifications@.len()
    &&& forall|k: int| 0 <= k < a.verifications@.len() ==> {
        a.verifications@[k].id == b.verifications@[k].id
        && a.verifications@[k].operation_id == b.verifications@[k].operation_id
        && a.verifications@[k].status == b.verifications@[k].status
    }
}

proof fn lemma_agree_verifications(a: &CurrentState, b: &CurrentState)
    requires
        rows_agree(a.verifications@, b.verifications@),
    ensures
        same_verifications(a, b),
{
    assert forall|k: int| 0 <= k < a.verifications@.len() implies {
        a.verifications@[k].id == b.verifications@[k].id
        && a.verifications@[k].operation_id == b.verifications@[k].operation_id
        && a.verifications@[k].status == b.verifications@[k].status
    } by {
        assert(a.verifications@[k].agrees(&b.verifications@[k]));
        
    }
}

/// The `artifacts` tables of two projections hold the same rows, field by field.
pub open spec fn same_artifacts(a: &CurrentState, b: &CurrentState) -> bool {
    &&& a.artifacts@.len() == b.artifacts@.len()
    &&& forall|k: int| 0 <= k < a.artifacts@.len() ==> {
        a.artifacts@[k].id == b.artifacts@[k].id
        && a.artifacts@[k].path@ == b.artifacts@[k].path@
        && a.artifacts@[k].content_hash@ == b.artifacts@[k].content_hash@
        && a.artifacts@[k].size == b.artifacts@[k].size
        && a.artifacts@[k].media_type@ == b.artifacts@[k].media_type@
        && a.artifacts@[k].provenance_event_id == b.artifacts@[k].provenance_event_id
    }
}

proof fn lemma_agree_artifacts(a: &CurrentState, b: &CurrentState)
    requires
        rows_agree(a.artifacts@, b.artifacts@),
    ensures
        same_artifacts(a, b),
{
    assert forall|k: int| 0 <= k < a.artifacts@.len() implies {
        a.artifacts@[k].id == b.artifacts@[k].id
        && a.artifacts@[k].path@ == b.artifacts@[k].path@
        && a.artifacts@[k].content_hash@ == b.artifacts@[k].content_hash@
        && a.artifacts@[k].size == b.artifacts@[k].size
        && a.artifacts@[k].media_type@ == b.artifacts@[k].media_type@
        && a.artifacts@[k].provenance_event_id == b.artifacts@[k].provenance_event_id
    } by {
        assert(a.artifacts@[k].agrees(&b.artifacts@[k]));
        
    }
}

/// The `completion_criteria` tables of two projections hold the same rows, field by field.
pub open spec fn same_completion_criteria(a: &CurrentState, b: &CurrentState) -> bool {
    &&& a.completion_criteria@.len() == b.completion_criteria@.len()
    &&& forall|k: int| 0 <= k < a.completion_criteria@.len() ==> {
        a.completion_criteria@[k].id == b.completion_criteria@[k].id
        && a.completion_criteria@[k].task_id == b.completion_criteria@[k].task_id
        && a.completion_criteria@[k].description@ == b.completion_criteria@[k].description@
        && a.completion_criteria@[k].required == b.completion_criteria@[k].required
    }
}

proof fn lemma_agree_completion_criteria(a: &CurrentState, b: &CurrentState)
    requires
        rows_agree(a.completion_criteria@, b.completion_criteria@),
    ensures
        same_completion_criteria(a, b),
{
    assert forall|k: int| 0 <= k < a.completion_criteria@.len() implies {
        a.completion_criteria@[k].id == b.completion_criteria@[k].id
        && a.completion_criteria@[k].task_id == b.completion_criteria@[k].task_id
        && a.completion_criteria@[k].description@ == b.completion_criteria@[k].description@
        && a.completion_criteria@[k].required == b.completion_criteria@[k].required
    } by {
        assert(a.completion_criteria@[k].agrees(&b.completion_criteria@[k]));
        
    }
}

/// The `completion_claims` tables of two projections hold the same rows, field by field.
pub open spec fn same_completion_claims(a: &CurrentState, b: &CurrentState) -> bool {
    &&& a.completion_claims@.len() == b.completion_claims@.len()
    &&& forall|k: int| 0 <= k < a.completion_claims@.len() ==> {
        a.completion_claims@[k].id == b.completion_claims@[k].id
        && a.completion_claims@[k].task_id == b.completion_claims@[k].task_id
        && a.completion_claims@[k].criterion_id == b.completion_claims@[k].criterion_id
        && a.completion_claims@[k].disposition == b.completion_claims@[k].disposition
        && a.completion_claims@[k].confidence == b.completion_claims@[k].confidence
        && evidence_views(a.completion_claims@[k].evidence_refs@) == evidence_views(b.completion_claims@[k].evidence_refs@)
        && opt_view(a.completion_claims@[k].blocker) == opt_view(b.completion_claims@[k].blocker)
        && a.completion_claims@[k].fingerprint@ == b.completion_claims@[k].fingerprint@
        && a.completion_claims@[k].as_of_sequence == b.completion_claims@[k].as_of_sequence
        && a.completion_claims@[k].supersedes == b.completion_claims@[k].supersedes
    }
}

proof fn lemma_agree_completion_claims(a: &CurrentState, b: &CurrentState)
    requires
        rows_agree(a.completion_claims@, b.completion_claims@),
    ensures
        same_completion_claims(a, b),
{
    assert forall|k: int| 0 <= k < a.completion_claims@.len() implies {
        a.completion_claims@[k].id == b.completion_claims@[k].id
        && a.completion_claims@[k].task_id == b.completion_claims@[k].task_id
        && a.completion_claims@[k].criterion_id == b.completion_claims@[k].criterion_id
        && a.completion_claims@[k].disposition == b.completion_claims@[k].disposition
        && a.completion_claims@[k].confidence == b.completion_claims@[k].confidence
        && evidence_views(a.completion_claims@[k].evidence_refs@) == evidence_views(b.completion_claims@[k].evidence_refs@)
        && opt_view(a.completion_claims@[k].blocker) == opt_view(b.completion_claims@[k].blocker)
        && a.completion_claims@[k].fingerprint@ == b.completion_claims@[k].fingerprint@
        && a.completion_claims@[k].as_of_sequence == b.completion_claims@[k].as_of_sequence
        && a.completion_claims@[k].supersedes == b.completion_claims@[k].supersedes
    } by {
        assert(a.completion_claims@[k].agrees(&b.completion_claims@[k]));
        lemma_evidence_agree(a.completion_claims@[k].evidence_refs@, b.completion_claims@[k].evidence_refs@);
    }
}

/// The `memory_candidates` tables of two projections hold the same rows, field by field.
pub open spec fn same_memory_candidates(a: &CurrentState, b: &CurrentState) -> bool {
    &&& a.memory_candidates@.len() == b.memory_candidates@.len()
    &&& forall|k: int| 0 <= k < a.memory_candidates@.len() ==> {
        a.memory_candidates@[k].id == b.memory_candidates@[k].id
        && a.memory_candidates@[k].kind == b.memory_candidates@[k].kind
        && a.memory_candidates@[k].content@ == b.memory_candidates@[k].content@
        && a.memory_candidates@[k].subject_principal_id == b.memory_candidates@[k].subject_principal_id
        && a.memory_candidates@[k].status == b.memory_candidates@[k].status
        && a.memory_candidates@[k].source_event_ids@ == b.memory_candidates@[k].source_event_ids@
    }
}

proof fn lemma_agree_memory_candidates(a: &CurrentState, b: &CurrentState)
    requires
        rows_agree(a.memory_candidates@, b.memory_candidates@),
    ensures
        same_memory_candidates(a, b),
{
    assert forall|k: int| 0 <= k < a.memory_candidates@.len() implies {
        a.memory_candidates@[k].id == b.memory_candidates@[k].id
        && a.memory_candidates@[k].kind == b.memory_candidates@[k].kind
        && a.memory_candidates@[k].content@ == b.memory_candidates@[k].content@
        && a.memory_candidates@[k].subject_principal_id == b.memory_candidates@[k].subject_principal_id
        && a.memory_candidates@[k].status == b.memory_candidates@[k].status
        && a.memory_candidates@[k].source_event_ids@ == b.memory_candidates@[k].source_event_ids@
    } by {
        assert(a.memory_candidates@[k].agrees(&b.memory_candidates@[k]));
        lemma_ids_agree(a.memory_candidates@[k].source_event_ids@, b.memory_candidates@[k].source_event_ids@);
    }
}

/// The `active_memories` tables of two projections hold the same rows, field by field.
pub open spec fn same_active_memories(a: &CurrentState, b: &CurrentState) -> bool {
    &&& a.active_memories@.len() == b.active_memories@.len()
    &&& forall|k: int| 0 <= k < a.active_memories@.len() ==> {
        a.active_memories@[k].id == b.active_memories@[k].id
        && a.active_memories@[k].candidate_id == b.active_memories@[k].candidate_id
        && a.active_memories@[k].kind == b.active_memories@[k].kind
        && a.active_memories@[k].content@ == b.active_memories@[k].content@
        && a.active_memories@[k].subject_principal_id == b.active_memories@[k].subject_principal_id
        && a.active_memories@[k].status == b.active_memories@[k].status
        && a.active_memories@[k].source_event_ids@ == b.active_memories@[k].source_event_ids@
    }
}

proof fn lemma_agree_active_memories(a: &CurrentState, b: &CurrentState)
    requires
        rows_agree(a.active_memories@, b.active_memories@),
    ensures
        same_active_memories(a, b),
{
    assert forall|k: int| 0 <= k < a.active_memories@.len() implies {
        a.active_memories@[k].id == b.active_memories@[k].id
        && a.active_memories@[k].candidate_id == b.active_memories@[k].candidate_id
        && a.active_memories@[k].kind == b.active_memories@[k].kind
        && a.active_memories@[k].content@ == b.active_memories@[k].content@
        && a.active_memories@[k].subject_principal_id == b.active_memories@[k].subject_principal_id
        && a.active_memories@[k].status == b.active_memories@[k].status
        && a.active_memories@[k].source_event_ids@ == b.active_memories@[k].source_event_ids@
    } by {
        assert(a.active_memories@[k].agrees(&b.active_memories@[k]));
        lemma_ids_agree(a.active_memories@[k].source_event_ids@, b.active_memories@[k].source_event_ids@);
    }
}

/// The `sleep_runs` tables of two projections hold the same rows, field by field.
pub open spec fn same_sleep_runs(a: &CurrentState, b: &CurrentState) -> bool {
    &&& a.sleep_runs@.len() == b.sleep_runs@.len()
    &&& forall|k: int| 0 <= k < a.sleep_runs@.len() ==> {
        a.sleep_runs@[k].id == b.sleep_runs@[k].id
        && a.sleep_runs@[k].status == b.sleep_runs@[k].status
        && a.sleep_runs@[k].high_water_revision == b.sleep_runs@[k].high_water_revision
        && a.sleep_runs@[k].cursor_before == b.sleep_runs@[k].cursor_before
        && a.sleep_runs@[k].cursor_after == b.sleep_runs@[k].cursor_after
        && a.sleep_runs@[k].seed_event_ids@ == b.sleep_runs@[k].seed_event_ids@
        && a.sleep_runs@[k].processed_observation_count == b.sleep_runs@[k].processed_observation_count
        && a.sleep_runs@[k].created_candidate_count == b.sleep_runs@[k].created_candidate_count
        && a.sleep_runs@[k].started_at@ == b.sleep_runs@[k].started_at@
        && opt_view(a.sleep_runs@[k].finished_at) == opt_view(b.sleep_runs@[k].finished_at)
        && opt_view(a.sleep_runs@[k].error_kind) == opt_view(b.sleep_runs@[k].error_kind)
    }
}

proof fn lemma_agree_sleep_runs(a: &CurrentState, b: &CurrentState)
    requires
        rows_agree(a.sleep_runs@, b.sleep_runs@),
    ensures
        same_sleep_runs(a, b),
{
    assert forall|k: int| 0 <= k < a.sleep_runs@.len() implies {
        a.sleep_runs@[k].id == b.sleep_runs@[k].id
        && a.sleep_runs@[k].status == b.sleep_runs@[k].status
        && a.sleep_runs@[k].high_water_revision == b.sleep_runs@[k].high_water_revision
        && a.sleep_runs@[k].cursor_before == b.sleep_runs@[k].cursor_before
        && a.sleep_runs@[k].cursor_after == b.sleep_runs@[k].cursor_after
        && a.sleep_runs@[k].seed_event_ids@ == b.sleep_runs@[k].seed_event_ids@
        && a.sleep_runs@[k].processed_observation_count == b.sleep_runs@[k].processed_observation_count
        && a.sleep_runs@[k].created_candidate_count == b.sleep_runs@[k].created_candidate_count
        && a.sleep_runs@[k].started_at@ == b.sleep_runs@[k].started_at@
        && opt_view(a.sleep_runs@[k].finished_at) == opt_view(b.sleep_runs@[k].finished_at)
        && opt_view(a.sleep_runs@[k].error_kind) == opt_view(b.sleep_runs@[k].error_kind)
    } by {
        assert(a.sleep_runs@[k].agrees(&b.sleep_runs@[k]));
        lemma_ids_agree(a.sleep_runs@[k].seed_event_ids@, b.sleep_runs@[k].seed_event_ids@);
    }
}

/// The `integration_candidates` tables of two projections hold the same rows, field by field.
pub open spec fn same_integration_candidates(a: &CurrentState, b: &CurrentState) -> bool {
    &&& a.integration_candidates@.len() == b.integration_candidates@.len()
    &&& forall|k: int| 0 <= k < a.integration_candidates@.len() ==> {
        a.integration_candidates@[k].id == b.integration_candidates@[k].id
        && a.integration_candidates@[k].sleep_run_id == b.integration_candidates@[k].sleep_run_id
        && a.integration_candidates@[k].kind == b.integration_candidates@[k].kind
        && a.integration_candidates@[k].disposition == b.integration_candidates@[k].disposition
        && a.integration_candidates@[k].content@ == b.integration_candidates@[k].content@
        && a.integration_candidates@[k].rationale@ == b.integration_candidates@[k].rationale@
        && a.integration_candidates@[k].source_event_ids@ == b.integration_candidates@[k].source_event_ids@
        && a.integration_candidates@[k].counterevidence_event_ids@ == b.integration_candidates@[k].counterevidence_event_ids@
        && a.integration_candidates@[k].confidence == b.integration_candidates@[k].confidence
        && a.integration_candidates@[k].as_of_revision == b.integration_candidates@[k].as_of_revision
        && a.integration_candidates@[k].fingerprint@ == b.integration_candidates@[k].fingerprint@
    }
}

proof fn lemma_agree_integration_candidates(a: &CurrentState, b: &CurrentState)
    requires
        rows_agree(a.integration_candidates@, b.integration_candidates@),
    ensures
        same_integration_candidates(a, b),
{
    assert forall|k: int| 0 <= k < a.integration_candidates@.len() implies {
        a.integration_candidates@[k].id == b.integration_candidates@[k].id
        && a.integration_candidates@[k].sleep_run_id == b.integration_candidates@[k].sleep_run_id
        && a.integration_candidates@[k].kind == b.integration_candidates@[k].kind
        && a.integration_candidates@[k].disposition == b.integration_candidates@[k].disposition
        && a.integration_candidates@[k].content@ == b.integration_candidates@[k].content@
        && a.integration_candidates@[k].rationale@ == b.integration_candidates@[k].rationale@
        && a.integration_candidates@[k].source_event_ids@ == b.integration_candidates@[k].source_event_ids@
        && a.integration_candidates@[k].counterevidence_event_ids@ == b.integration_candidates@[k].counterevidence_event_ids@
        && a.integration_candidates@[k].confidence == b.integration_candidates@[k].confidence
        && a.integration_candidates@[k].as_of_revision == b.integration_candidates@[k].as_of_revision
        && a.integration_candidates@[k].fingerprint@ == b.integration_candidates@[k].fingerprint@
    } by {
        assert(a.integration_candidates@[k].agrees(&b.integration_candidates@[k]));
        lemma_ids_agree(a.integration_candidates@[k].source_event_ids@, b.integration_candidates@[k].source_event_ids@);
        lemma_ids_agree(a.integration_candidates@[k].counterevidence_event_ids@, b.integration_candidates@[k].counterevidence_event_ids@);
    }
}

/// The `integration_verifications` tables of two projections hold the same rows, field by field.
pub open spec fn same_integration_verifications(a: &CurrentState, b: &CurrentState) -> bool {
    &&& a.integration_verifications@.len() == b.integration_verifications@.len()
    &&& forall|k: int| 0 <= k < a.integration_verifications@.len() ==> {
        a.integration_verifications@[k].candidate_id == b.integration_verifications@[k].candidate_id
        && a.integration_verifications@[k].previous_disposition == b.integration_verifications@[k].previous_disposition
        && a.integration_verifications@[k].new_disposition == b.integration_verifications@[k].new_disposition
        && a.integration_verifications@[k].actor_id == b.integration_verifications@[k].actor_id
        && a.integration_verifications@[k].reason@ == b.integration_verifications@[k].reason@
        && evidence_views(a.integration_verifications@[k].evidence_refs@) == evidence_views(b.integration_verifications@[k].evidence_refs@)
        && a.integration_verifications@[k].as_of_revision == b.integration_verifications@[k].as_of_revision
    }
}

proof fn lemma_agree_integration_verifications(a: &CurrentState, b: &CurrentState)
    requires
        rows_agree(a.integration_verifications@, b.integration_verifications@),
    ensures
        same_integration_verifications(a, b),
{
    assert forall|k: int| 0 <= k < a.integration_verifications@.len() implies {
        a.integration_verifications@[k].candidate_id == b.integration_verifications@[k].candidate_id
        && a.integration_verifications@[k].previous_disposition == b.integration_verifications@[k].previous_disposition
        && a.integration_verifications@[k].new_disposition == b.integration_verifications@[k].new_disposition
        && a.integration_verifications@[k].actor_id == b.integration_verifications@[k].actor_id
        && a.integration_verifications@[k].reason@ == b.integration_verifications@[k].reason@
        && evidence_views(a.integration_verifications@[k].evidence_refs@) == evidence_views(b.integration_verifications@[k].evidence_refs@)
        && a.integration_verifications@[k].as_of_revision == b.integration_verifications@[k].as_of_revision
    } by {
        assert(a.integration_verifications@[k].agrees(&b.integration_verifications@[k]));
        lemma_evidence_agree(a.integration_verifications@[k].evidence_refs@, b.integration_verifications@[k].evidence_refs@);
    }
}

/// The `integration_materializations` tables of two projections hold the same rows, field by field.
pub open spec fn same_integration_materializations(a: &CurrentState, b: &CurrentState) -> bool {
    &&& a.integration_materializations@.len() == b.integration_materializations@.len()
    &&& forall|k: int| 0 <= k < a.integration_materializations@.len() ==> {
        a.integration_materializations@[k].candidate_id == b.integration_materializations@[k].candidate_id
        && a.integration_materializations@[k].memory_candidate_id == b.integration_materializations@[k].memory_candidate_id
        && a.integration_materializations@[k].memory_id == b.integration_materializations@[k].memory_id
        && a.integration_materializations@[k].source_event_ids@ == b.integration_materializations@[k].source_event_ids@
        && a.integration_materializations@[k].counterevidence_event_ids@ == b.integration_materializations@[k].counterevidence_event_ids@
        && evidence_views(a.integration_materializations@[k].evidence_refs@) == evidence_views(b.integration_materializations@[k].evidence_refs@)
        && a.integration_materializations@[k].fingerprint@ == b.integration_materializations@[k].fingerprint@
        && a.integration_materializations@[k].as_of_revision == b.integration_materializations@[k].as_of_revision
    }
}

proof fn lemma_agree_integration_materializations(a: &CurrentState, b: &CurrentState)
    requires
        rows_agree(a.integration_materializations@, b.integration_materializations@),
    ensures
        same_integration_materializations(a, b),
{
    assert forall|k: int| 0 <= k < a.integration_materializations@.len() implies {
        a.integration_materializations@[k].candidate_id == b.integration_materializations@[k].candidate_id
        && a.integration_materializations@[k].memory_candidate_id == b.integration_materializations@[k].memory_candidate_id
        && a.integration_materializations@[k].memory_id == b.integration_materializations@[k].memory_id
        && a.integration_materializations@[k].source_event_ids@ == b.integration_materializations@[k].source_event_ids@
        && a.integration_materializations@[k].counterevidence_event_ids@ == b.integration_materializations@[k].counterevidence_event_ids@
        && evidence_views(a.integration_materializations@[k].evidence_refs@) == evidence_views(b.integration_materializations@[k].evidence_refs@)
        && a.integration_materializations@[k].fingerprint@ == b.integration_materializations@[k].fingerprint@
        && a.integration_materializations@[k].as_of_revision == b.integration_materializations@[k].as_of_revision
    } by {
        assert(a.integration_materializations@[k].agrees(&b.integration_materializations@[k]));
        lemma_ids_agree(a.integration_materializations@[k].source_event_ids@, b.integration_materializations@[k].source_event_ids@);
        lemma_ids_agree(a.integration_materializations@[k].counterevidence_event_ids@, b.integration_materializations@[k].counterevidence_event_ids@);
        lemma_evidence_agree(a.integration_materializations@[k].evidence_refs@, b.integration_materializations@[k].evidence_refs@);
    }
}

/// The `position_integration_materializations` tables of two projections hold the same rows, field by field.
pub open spec fn same_position_integration_materializations(a: &CurrentState, b: &CurrentState) -> bool {
    &&& a.position_integration_materializations@.len() == b.position_integration_materializations@.len()
    &&& forall|k: int| 0 <= k < a.position_integration_materializations@.len() ==> {
        a.position_integration_materializations@[k].candidate_id == b.position_integration_materializations@[k].candidate_id
        && a.position_integration_materializations@[k].position_id == b.position_integration_materializations@[k].position_id
        && a.position_integration_materializations@[k].position_event_id == b.position_integration_materializations@[k].position_event_id
        && a.position_integration_materializations@[k].verification_event_id == b.position_integration_materializations@[k].verification_event_id
        && a.position_integration_materializations@[k].action == b.position_integration_materializations@[k].action
        && a.position_integration_materializations@[k].source_event_ids@ == b.position_integration_materializations@[k].source_event_ids@
        && a.position_integration_materializations@[k].counterevidence_event_ids@ == b.position_integration_materializations@[k].counterevidence_event_ids@
        && evidence_views(a.position_integration_materializations@[k].evidence_refs@) == evidence_views(b.position_integration_materializations@[k].evidence_refs@)
        && a.position_integration_materializations@[k].fingerprint@ == b.position_integration_materializations@[k].fingerprint@
        && a.position_integration_materializations@[k].as_of_revision == b.position_integration_materializations@[k].as_of_revision
    }
}

proof fn lemma_agree_position_integration_materializations(a: &CurrentState, b: &CurrentState)
    requires
        rows_agree(a.position_integration_materializations@, b.position_integration_materializations@),
    ensures
        same_position_integration_materializations(a, b),
{
    assert forall|k: int| 0 <= k < a.position_integration_materializations@.len() implies {
        a.position_integration_materializations@[k].candidate_id == b.position_integration_materializations@[k].candidate_id
        && a.position_integration_materializations@[k].position_id == b.position_integration_materializations@[k].position_id
        && a.position_integration_materializations@[k].position_event_id == b.position_integration_materializations@[k].position_event_id
        && a.position_integration_materializations@[k].verification_event_id == b.position_integration_materializations@[k].verification_event_id
        && a.position_integration_materializations@[k].action == b.position_integration_materializations@[k].action
        && a.position_integration_materializations@[k].source_event_ids@ == b.position_integration_materializations@[k].source_event_ids@
        && a.position_integration_materializations@[k].counterevidence_event_ids@ == b.position_integration_materializations@[k].counterevidence_event_ids@
        && evidence_views(a.position_integration_materializations@[k].evidence_refs@) == evidence_views(b.position_integration_materializations@[k].evidence_refs@)
        && a.position_integration_materializations@[k].fingerprint@ == b.position_integration_materializations@[k].fingerprint@
        && a.position_integration_materializations@[k].as_of_revision == b.position_integration_materializations@[k].as_of_revision
    } by {
        assert(a.position_integration_materializations@[k].agrees(&b.position_integration_materializations@[k]));
        lemma_ids_agree(a.position_integration_materializations@[k].source_event_ids@, b.position_integration_materializations@[k].source_event_ids@);
        lemma_ids_agree(a.position_integration_materializations@[k].counterevidence_event_ids@, b.position_integration_materializations@[k].counterevidence_event_ids@);
        lemma_evidence_agree(a.position_integration_materializations@[k].evidence_refs@, b.position_integration_materializations@[k].evidence_refs@);
    }
}

/// The `decisions` tables of two projections hold the same rows, field by field.
pub open spec fn same_decisions(a: &CurrentState, b: &CurrentState) -> bool {
    &&& a.decisions@.len() == b.decisions@.len()
    &&& forall|k: int| 0 <= k < a.decisions@.len() ==> {
        a.decisions@[k].id == b.decisions@[k].id
        && a.decisions@[k].body@ == b.decisions@[k].body@
    }
}

proof fn lemma_agree_decisions(a: &CurrentState, b: &CurrentState)
    requires
        rows_agree(a.decisions@, b.decisions@),
    ensures
        same_decisions(a, b),
{
    assert forall|k: int| 0 <= k < a.decisions@.len() implies {
        a.decisions@[k].id == b.decisions@[k].id
        && a.decisions@[k].body@ == b.decisions@[k].body@
    } by {
        assert(a.decisions@[k].agrees(&b.decisions@[k]));
        
    }
}

/// The `commitments` tables of two projections hold the same rows, field by field.
pub open spec fn same_commitments(a: &CurrentState, b: &CurrentState) -> bool {
    &&& a.commitments@.len() == b.commitments@.len()
    &&& forall|k: int| 0 <= k < a.commitments@.len() ==> {
        a.commitments@[k].id == b.commitments@[k].id
        && a.commitments@[k].body@ == b.commitments@[k].body@
    }
}

proof fn lemma_agree_commitments(a: &CurrentState, b: &CurrentState)
    requires
        rows_agree(a.commitments@, b.commitments@),
    ensures
        same_commitments(a, b),
{
    assert forall|k: int| 0 <= k < a.commitments@.len() implies {
        a.commitments@[k].id == b.commitments@[k].id
        && a.commitments@[k].body@ == b.commitments@[k].body@
    } by {
        assert(a.commitments@[k].agrees(&b.commitments@[k]));
        
    }
}

/// The `action_intents` tables of two projections hold the same rows, field by field.
pub open spec fn same_action_intents(a: &CurrentState, b: &CurrentState) -> bool {
    &&& a.action_intents@.len() == b.action_intents@.len()
    &&& forall|k: int| 0 <= k < a.action_intents@.len() ==> {
        a.action_intents@[k].id == b.action_intents@[k].id
        && a.action_intents@[k].body@ == b.action_intents@[k].body@
    }
}

proof fn lemma_agree_action_intents(a: &CurrentState, b: &CurrentState)
    requires
        rows_agree(a.action_intents@, b.action_intents@),
    ensures
        same_action_intents(a, b),
{
    assert forall|k: int| 0 <= k < a.action_intents@.len() implies {
        a.action_intents@[k].id == b.action_intents@[k].id
        && a.action_intents@[k].body@ == b.action_intents@[k].body@
    } by {
        assert(a.action_intents@[k].agrees(&b.action_intents@[k]));
        
    }
}

/// The `receipts` tables of two projections hold the same rows, field by field.
pub open spec fn same_receipts(a: &CurrentState, b: &CurrentState) -> bool {
    &&& a.receipts@.len() == b.receipts@.len()
    &&& forall|k: int| 0 <= k < a.receipts@.len() ==> {
        a.receipts@[k].id == b.receipts@[k].id
        && a.receipts@[k].body@ == b.receipts@[k].body@
    }
}

proof fn lemma_agree_receipts(a: &CurrentState, b: &CurrentState)
    requires
        rows_agree(a.receipts@, b.receipts@),
    ensures
        same_receipts(a, b),
{
    assert forall|k: int| 0 <= k < a.receipts@.len() implies {
        a.receipts@[k].id == b.receipts@[k].id
        && a.receipts@[k].body@ == b.receipts@[k].body@
    } by {
        assert(a.receipts@[k].agrees(&b.receipts@[k]));
        
    }
}

/// The `working_states` tables of two projections hold the same rows, field by field.
pub open spec fn same_working_states(a: &CurrentState, b: &CurrentState) -> bool {
    &&& a.working_states@.len() == b.working_states@.len()
    &&& forall|k: int| 0 <= k < a.working_states@.len() ==> {
        a.working_states@[k].id == b.working_states@[k].id
        && a.working_states@[k].body@ == b.working_states@[k].body@
    }
}

proof fn lemma_agree_working_states(a: &CurrentState, b: &CurrentState)
    requires
        rows_agree(a.working_states@, b.working_states@),
    ensures
        same_working_states(a, b),
{
    assert forall|k: int| 0 <= k < a.working_states@.len() implies {
        a.working_states@[k].id == b.working_states@[k].id
        && a.working_states@[k].body@ == b.working_states@[k].body@
    } by {
        assert(a.working_states@[k].agrees(&b.working_states@[k]));
        
    }
}

/// Two projections hold the same values: the same revision, sleep cursor
/// and applied events, and in every table the same rows in the same order,
/// field by field.
pub open spec fn same_values(a: &CurrentState, b: &CurrentState) -> bool {
    &&& a.revision == b.revision
    &&& a.sleep_cursor == b.sleep_cursor
    &&& a.applied_events@ == b.applied_events@
    &&& same_principals(a, b)
    &&& same_identity_versions(a, b)
    &&& same_relationships(a, b)
    &&& same_observations(a, b)
    &&& same_goals(a, b)
    &&& same_tasks(a, b)
    &&& same_runs(a, b)
    &&& same_attempts(a, b)
    &&& same_positions(a, b)
    &&& same_conflicts(a, b)
    &&& same_approvals(a, b)
    &&& same_operations(a, b)
    &&& same_verifications(a, b)
    &&& same_artifacts(a, b)
    &&& same_completion_criteria(a, b)
    &&& same_completion_claims(a, b)
    &&& same_memory_candidates(a, b)
    &&& same_active_memories(a, b)
    &&& same_sleep_runs(a, b)
    &&& same_integration_candidates(a, b)
    &&& same_integration_verifications(a, b)
    &&& same_integration_materializations(a, b)
    &&& same_position_integration_materializations(a, b)
    &&& same_decisions(a, b)
    &&& same_commitments(a, b)
    &&& same_action_intents(a, b)
    &&& same_receipts(a, b)
    &&& same_working_states(a, b)
}

/// Projections that agree hold the same values: the same revision, sleep
/// cursor and applied events, and in every table the same rows in the same
/// order, field by field. So a projection that startup recovery accepts is
/// its ledger's replay in every table.
pub proof fn lemma_agreeing_projections_are_equal(a: &CurrentState, b: &CurrentState)
    requires
        same_state(a, b),
    ensures
        same_values(a, b),
{
    lemma_ids_agree(a.applied_events@, b.applied_events@);
    lemma_agree_principals(a, b);
    lemma_agree_identity_versions(a, b);
    lemma_agree_relationships(a, b);
    lemma_agree_observations(a, b);
    lemma_agree_goals(a, b);
    lemma_agree_tasks(a, b);
    lemma_agree_runs(a, b);
    lemma_agree_attempts(a, b);
    lemma_agree_positions(a, b);
    lemma_agree_conflicts(a, b);
    lemma_agree_approvals(a, b);
    lemma_agree_operations(a, b);
    lemma_agree_verifications(a, b);
    lemma_agree_artifacts(a, b);
    lemma_agree_completion_criteria(a, b);
    lemma_agree_completion_claims(a, b);
    lemma_agree_memory_candidates(a, b);
    lemma_agree_active_memories(a, b);
    lemma_agree_sleep_runs(a, b);
    lemma_agree_integration_candidates(a, b);
    lemma_agree_integration_verifications(a, b);
    lemma_agree_integration_materializations(a, b);
    lemma_agree_position_integration_materializations(a, b);
    lemma_agree_decisions(a, b);
    lemma_agree_commitments(a, b);
    lemma_agree_action_intents(a, b);
    lemma_agree_receipts(a, b);
    lemma_agree_working_states(a, b);
}

} // verus!
