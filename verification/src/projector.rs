//! The projector: the current state is rebuilt from the event ledger by
//! applying each event in order. An event is applied whole or refused with
//! the state left as it was.
use vstd::prelude::*;

use crate::model::{
    IntegrationCandidate, IntegrationCandidateKind, IntegrationMaterialization,
    IntegrationVerification, MemoryKind, PrincipalId,
    Artifact, Approval, Attempt, Goal, Observation, Record, Run, ActiveMemory, ActiveMemoryStatus, IdentityVersion, Verification, CompletionClaim, CompletionClaimTransition, CompletionCriterion, Conflict,
    ConflictId, ConflictStatus, EntityKind, EntityRef, EventId, EvidenceRef, MemoryCandidate,
    MemoryCandidateStatus, Operation, OperationStatus, Position, PositionStatus, Principal,
    Relationship, SleepRun, SleepRunStatus, Task, TaskStatus, VerificationDisposition,
    VerificationStatus,
};
use crate::completion::{
    completion_fingerprint, duplicate_description, fingerprint_in_use, fingerprint_taken, has_duplicate_description, is_sha256_hex,
    normalize_description, normalized_description, spec_completion_fingerprint, valid_sha256_hex,
};
use crate::text::{blank, is_blank, trim, trimmed};
use crate::integration::{candidate_fingerprint, spec_candidate_fingerprint, MAX_CANDIDATE_SOURCES};
use crate::format::{decimal, decimal_text, uuid_hyphenated, uuid_text};
use crate::state::{event_kind_name, event_kind_text, is_model_actor, model_actor, CurrentState, EventKind, ExperienceEvent, Payload};
use crate::table::{find_index, get, Keyed, lemma_lookup_at, lemma_update_at, lookup, sorted_keys, stored, upsert};

verus! {

/// Why the projection refused an event's payload.
pub enum Rejection {
    /// The payload could not be decoded; the decoder's message.
    Malformed(String),
    /// The payload is not the entity the event kind carries.
    WrongPayload,
    CriterionEmptyDescription,
    CriterionUnknownTask,
    CriterionIdExists,
    CriterionDuplicateDescription,
    ModelCannotCreateClaims,
    ModelCannotVerifyClaims,
    ModelCannotRejectClaims,
    CompletionSubjectMismatch,
    CompletionUnknownTask,
    InvalidTaskCompletion,
    InvalidSleepRunStart,
    SleepRunWithoutStart,
    InvalidSleepRunTransition,
    CompletedSleepRunWithoutCursor,
    InvalidCompletedSleepCursor,
    InvalidInterruptedSleepRun,
    InvalidFailedSleepRun,
    ClaimUnknownTask,
    ClaimUnknownCriterion,
    ClaimCriterionTaskMismatch,
    ClaimNotNeedingValidation,
    ClaimConfidenceOutOfRange,
    ClaimAsOfInFuture,
    ClaimFingerprintMismatch,
    EvidenceHashInvalid,
    EvidenceNewerThanClaim,
    EvidenceUnknownEvent,
    EvidenceEventNewerThanClaim,
    EvidenceUnknownArtifact,
    EvidenceArtifactProvenance,
    EvidenceArtifactHash,
    ClaimIdExists,
    ClaimFingerprintExists,
    ClaimSupersedesUnknown,
    ClaimSupersedesOtherCriterion,
    TransitionUnknownClaim,
    TransitionIdentityMismatch,
    TransitionInvalidDisposition,
    TransitionEmptyReason,
    TransitionEvidenceMismatch,
    TransitionNeedsEvidence,
    TransitionBlocked,
    CandidateInvalid,
    CandidateProvenanceUnknown,
    CandidateWithoutRun,
    CandidateRunNotRunning,
    CandidateRevisionMismatch,
    CandidateFingerprint,
    VerificationSubjectMismatch,
    VerificationActorMismatch,
    VerificationActorIneligible,
    VerificationUnknownCandidate,
    VerificationInvalidTransition,
    VerificationEmptyReason,
    VerificationInvalidAsOf,
    CandidateFingerprintMismatch,
    VerificationNeedsEvidence,
    IntegrationEvidenceHash,
    IntegrationEvidenceNewer,
    IntegrationEvidenceOutside,
    IntegrationEvidenceEventNewer,
    IntegrationArtifactMismatch,
    MaterializationSubjectMismatch,
    MaterializationUnknownCandidate,
    MaterializationNotVerified,
    MaterializationRepeated,
    MaterializationFingerprint,
    MaterializationKind,
    MaterializationProvenance,
    MaterializationNoVerification,
    MaterializationEvidence,
    MaterializationUnknownMemoryCandidate,
    MaterializationMemoryCandidate,
    MaterializationUnknownMemory,
    MaterializationMemory,
    PositionSubjectMismatch,
    PositionProvenanceMismatch,
    PositionActorIneligible,
    PositionUnknownPrincipal,
    PositionNotHekate,
    PositionUnknownCandidate,
    PositionCandidateNotVerified,
    PositionAlreadyMaterialized,
    PositionNoVerification,
    PositionVerificationMismatch,
    PositionCandidateProvenance,
    PositionProposalMismatch,
    PositionConfidenceMismatch,
    PositionInvalidEstablishment,
    PositionRevisionWithoutPrior,
    PositionInvalidRevision,
    PositionWithdrawalWithoutPrior,
    PositionInvalidWithdrawal,
    PositionKindMismatch,
    PositionBlocked,
    PositionInvalidLifecycle,
    PositionEvidenceMismatch,
    PositionEvidenceOmitted,
}

/// The message of a refusal.
pub open spec fn rejection_text(r: Rejection) -> Seq<char> {
    match r {
        Rejection::Malformed(message) => message@,
        Rejection::WrongPayload => "payload is not the entity its event kind carries"@,
        Rejection::CriterionEmptyDescription => "criterion description cannot be empty"@,
        Rejection::CriterionUnknownTask => "criterion references an unknown task"@,
        Rejection::CriterionIdExists => "criterion ID already exists"@,
        Rejection::CriterionDuplicateDescription => "criterion description already exists for task"@,
        Rejection::ModelCannotCreateClaims => "model cannot create completion claims"@,
        Rejection::ModelCannotVerifyClaims => "model cannot verify completion claims"@,
        Rejection::ModelCannotRejectClaims => "model cannot reject completion claims"@,
        Rejection::CompletionSubjectMismatch => "task completion subject does not match payload"@,
        Rejection::CompletionUnknownTask => "completion references an unknown task"@,
        Rejection::InvalidTaskCompletion => "invalid task completion transition"@,
        Rejection::InvalidSleepRunStart => "invalid sleep run start"@,
        Rejection::SleepRunWithoutStart => "sleep run terminal event has no start"@,
        Rejection::InvalidSleepRunTransition => "invalid sleep run transition"@,
        Rejection::CompletedSleepRunWithoutCursor => "completed sleep run has no cursor"@,
        Rejection::InvalidCompletedSleepCursor => "invalid completed sleep cursor"@,
        Rejection::InvalidInterruptedSleepRun => "invalid interrupted sleep run"@,
        Rejection::InvalidFailedSleepRun => "invalid failed sleep run"@,
        Rejection::ClaimUnknownTask => "claim references an unknown task"@,
        Rejection::ClaimUnknownCriterion => "claim references an unknown criterion"@,
        Rejection::ClaimCriterionTaskMismatch => "criterion does not belong to claim task"@,
        Rejection::ClaimNotNeedingValidation => "new claims must require validation"@,
        Rejection::ClaimConfidenceOutOfRange => "claim confidence must be between 0 and 100"@,
        Rejection::ClaimAsOfInFuture => "claim as-of sequence is in the future"@,
        Rejection::ClaimFingerprintMismatch => "claim fingerprint does not match its evidence"@,
        Rejection::EvidenceHashInvalid => "evidence source hash is not lowercase SHA-256 hex"@,
        Rejection::EvidenceNewerThanClaim => "evidence is newer than the claim as-of sequence"@,
        Rejection::EvidenceUnknownEvent => "evidence references an unknown event"@,
        Rejection::EvidenceEventNewerThanClaim =>
            "evidence event is newer than the claim as-of sequence"@,
        Rejection::EvidenceUnknownArtifact => "evidence references an unknown artifact"@,
        Rejection::EvidenceArtifactProvenance => "artifact provenance event does not match evidence"@,
        Rejection::EvidenceArtifactHash => "artifact source hash does not match evidence"@,
        Rejection::ClaimIdExists => "claim ID already exists"@,
        Rejection::ClaimFingerprintExists => "claim fingerprint already exists"@,
        Rejection::ClaimSupersedesUnknown => "claim supersedes an unknown claim"@,
        Rejection::ClaimSupersedesOtherCriterion => "claim supersedes a different task criterion"@,
        Rejection::TransitionUnknownClaim => "transition references an unknown claim"@,
        Rejection::TransitionIdentityMismatch => "claim transition identity does not match claim"@,
        Rejection::TransitionInvalidDisposition => "invalid claim disposition transition"@,
        Rejection::TransitionEmptyReason => "claim transition reason cannot be empty"@,
        Rejection::TransitionEvidenceMismatch => "claim transition evidence does not match claim"@,
        Rejection::TransitionNeedsEvidence => "a claim needs evidence before verification"@,
        Rejection::TransitionBlocked => "a blocked claim cannot be verified"@,
        Rejection::CandidateInvalid => "invalid integration candidate"@,
        Rejection::CandidateProvenanceUnknown => "candidate provenance is not in the applied event ledger"@,
        Rejection::CandidateWithoutRun => "candidate does not belong to a sleep run"@,
        Rejection::CandidateRunNotRunning => "candidate does not belong to a running sleep run"@,
        Rejection::CandidateRevisionMismatch => "candidate revision does not match its sleep run"@,
        Rejection::CandidateFingerprint => "duplicate or invalid candidate fingerprint"@,
        Rejection::VerificationSubjectMismatch => "integration verification subject does not match candidate"@,
        Rejection::VerificationActorMismatch => "integration verification actor does not match event actor"@,
        Rejection::VerificationActorIneligible => "integration verification actor is not an eligible principal"@,
        Rejection::VerificationUnknownCandidate => "integration verification references an unknown candidate"@,
        Rejection::VerificationInvalidTransition => "invalid integration candidate disposition transition"@,
        Rejection::VerificationEmptyReason => "integration verification reason cannot be empty"@,
        Rejection::VerificationInvalidAsOf => "integration verification has an invalid as-of revision"@,
        Rejection::CandidateFingerprintMismatch => "candidate fingerprint does not match its projection"@,
        Rejection::VerificationNeedsEvidence => "integration verification needs evidence"@,
        Rejection::IntegrationEvidenceHash => "evidence source hash is invalid"@,
        Rejection::IntegrationEvidenceNewer => "evidence is newer than candidate as-of revision"@,
        Rejection::IntegrationEvidenceOutside => "evidence is outside candidate provenance"@,
        Rejection::IntegrationEvidenceEventNewer => "evidence event is newer than its as-of revision"@,
        Rejection::IntegrationArtifactMismatch => "artifact evidence provenance does not match"@,
        Rejection::MaterializationSubjectMismatch => "materialization subject does not match candidate"@,
        Rejection::MaterializationUnknownCandidate => "materialization references an unknown candidate"@,
        Rejection::MaterializationNotVerified => "only verified candidates can be materialized"@,
        Rejection::MaterializationRepeated => "candidate has already been materialized"@,
        Rejection::MaterializationFingerprint => "materialization fingerprint does not match candidate"@,
        Rejection::MaterializationKind => "candidate kind cannot be materialized as Memory"@,
        Rejection::MaterializationProvenance => "materialization provenance does not match candidate"@,
        Rejection::MaterializationNoVerification => "materialization has no verification record"@,
        Rejection::MaterializationEvidence => "materialization evidence does not match verification"@,
        Rejection::MaterializationUnknownMemoryCandidate => "materialization references an unknown Memory candidate"@,
        Rejection::MaterializationMemoryCandidate => "Memory candidate does not match materialization"@,
        Rejection::MaterializationUnknownMemory => "materialization references an unknown Memory"@,
        Rejection::MaterializationMemory => "Memory does not match materialization"@,
        Rejection::PositionSubjectMismatch => "Position integration event subject does not match payload"@,
        Rejection::PositionProvenanceMismatch => "Position integration event provenance does not match candidate"@,
        Rejection::PositionActorIneligible => "model or unknown actor cannot materialize a Position"@,
        Rejection::PositionUnknownPrincipal => "Position references an unknown principal"@,
        Rejection::PositionNotHekate => "Position integration can only change HEKATE's Position"@,
        Rejection::PositionUnknownCandidate => "Position materialization references an unknown candidate"@,
        Rejection::PositionCandidateNotVerified => "only a verified Position candidate can be materialized"@,
        Rejection::PositionAlreadyMaterialized => "Position candidate has already been materialized"@,
        Rejection::PositionNoVerification => "Position materialization has no verification record"@,
        Rejection::PositionVerificationMismatch => "Position materialization does not match verification"@,
        Rejection::PositionCandidateProvenance => "Position materialization provenance does not match candidate"@,
        Rejection::PositionProposalMismatch => "Position does not match its typed proposal"@,
        Rejection::PositionConfidenceMismatch => "Position confidence does not match candidate"@,
        Rejection::PositionInvalidEstablishment => "invalid Position establishment"@,
        Rejection::PositionRevisionWithoutPrior => "Position revision has no prior Position"@,
        Rejection::PositionInvalidRevision => "Position changed or revision is invalid"@,
        Rejection::PositionWithdrawalWithoutPrior => "Position withdrawal has no prior Position"@,
        Rejection::PositionInvalidWithdrawal => "Position changed or withdrawal is invalid"@,
        Rejection::PositionKindMismatch => "Position event kind does not match integration operation"@,
        Rejection::PositionBlocked => "an active Position conflict blocks materialization"@,
        Rejection::PositionInvalidLifecycle => "Position transition violates its lifecycle"@,
        Rejection::PositionEvidenceMismatch => "Position evidence does not match candidate sources"@,
        Rejection::PositionEvidenceOmitted => "Position evidence omits candidate sources"@,
    }
}

impl Rejection {
    /// The refusal's message.
    pub fn message(&self) -> (r: String)
        ensures
            r@ == rejection_text(*self),
    {
        match self {
            Rejection::Malformed(message) => message.clone(),
            Rejection::WrongPayload => "payload is not the entity its event kind carries".to_owned(),
            Rejection::CriterionEmptyDescription => "criterion description cannot be empty".to_owned(),
            Rejection::CriterionUnknownTask => "criterion references an unknown task".to_owned(),
            Rejection::CriterionIdExists => "criterion ID already exists".to_owned(),
            Rejection::CriterionDuplicateDescription =>
                "criterion description already exists for task".to_owned(),
            Rejection::ModelCannotCreateClaims => "model cannot create completion claims".to_owned(),
            Rejection::ModelCannotVerifyClaims => "model cannot verify completion claims".to_owned(),
            Rejection::ModelCannotRejectClaims => "model cannot reject completion claims".to_owned(),
            Rejection::CompletionSubjectMismatch =>
                "task completion subject does not match payload".to_owned(),
            Rejection::CompletionUnknownTask => "completion references an unknown task".to_owned(),
            Rejection::InvalidTaskCompletion => "invalid task completion transition".to_owned(),
            Rejection::InvalidSleepRunStart => "invalid sleep run start".to_owned(),
            Rejection::SleepRunWithoutStart => "sleep run terminal event has no start".to_owned(),
            Rejection::InvalidSleepRunTransition => "invalid sleep run transition".to_owned(),
            Rejection::CompletedSleepRunWithoutCursor => "completed sleep run has no cursor".to_owned(),
            Rejection::InvalidCompletedSleepCursor => "invalid completed sleep cursor".to_owned(),
            Rejection::InvalidInterruptedSleepRun => "invalid interrupted sleep run".to_owned(),
            Rejection::InvalidFailedSleepRun => "invalid failed sleep run".to_owned(),
            Rejection::ClaimUnknownTask => "claim references an unknown task".to_owned(),
            Rejection::ClaimUnknownCriterion => "claim references an unknown criterion".to_owned(),
            Rejection::ClaimCriterionTaskMismatch => "criterion does not belong to claim task".to_owned(),
            Rejection::ClaimNotNeedingValidation => "new claims must require validation".to_owned(),
            Rejection::ClaimConfidenceOutOfRange =>
                "claim confidence must be between 0 and 100".to_owned(),
            Rejection::ClaimAsOfInFuture => "claim as-of sequence is in the future".to_owned(),
            Rejection::ClaimFingerprintMismatch =>
                "claim fingerprint does not match its evidence".to_owned(),
            Rejection::EvidenceHashInvalid =>
                "evidence source hash is not lowercase SHA-256 hex".to_owned(),
            Rejection::EvidenceNewerThanClaim =>
                "evidence is newer than the claim as-of sequence".to_owned(),
            Rejection::EvidenceUnknownEvent => "evidence references an unknown event".to_owned(),
            Rejection::EvidenceEventNewerThanClaim =>
                "evidence event is newer than the claim as-of sequence".to_owned(),
            Rejection::EvidenceUnknownArtifact => "evidence references an unknown artifact".to_owned(),
            Rejection::EvidenceArtifactProvenance =>
                "artifact provenance event does not match evidence".to_owned(),
            Rejection::EvidenceArtifactHash => "artifact source hash does not match evidence".to_owned(),
            Rejection::ClaimIdExists => "claim ID already exists".to_owned(),
            Rejection::ClaimFingerprintExists => "claim fingerprint already exists".to_owned(),
            Rejection::ClaimSupersedesUnknown => "claim supersedes an unknown claim".to_owned(),
            Rejection::ClaimSupersedesOtherCriterion =>
                "claim supersedes a different task criterion".to_owned(),
            Rejection::TransitionUnknownClaim => "transition references an unknown claim".to_owned(),
            Rejection::TransitionIdentityMismatch =>
                "claim transition identity does not match claim".to_owned(),
            Rejection::TransitionInvalidDisposition => "invalid claim disposition transition".to_owned(),
            Rejection::TransitionEmptyReason => "claim transition reason cannot be empty".to_owned(),
            Rejection::TransitionEvidenceMismatch =>
                "claim transition evidence does not match claim".to_owned(),
            Rejection::TransitionNeedsEvidence => "a claim needs evidence before verification".to_owned(),
            Rejection::TransitionBlocked => "a blocked claim cannot be verified".to_owned(),
            Rejection::CandidateInvalid => "invalid integration candidate".to_owned(),
            Rejection::CandidateProvenanceUnknown => "candidate provenance is not in the applied event ledger".to_owned(),
            Rejection::CandidateWithoutRun => "candidate does not belong to a sleep run".to_owned(),
            Rejection::CandidateRunNotRunning => "candidate does not belong to a running sleep run".to_owned(),
            Rejection::CandidateRevisionMismatch => "candidate revision does not match its sleep run".to_owned(),
            Rejection::CandidateFingerprint => "duplicate or invalid candidate fingerprint".to_owned(),
            Rejection::VerificationSubjectMismatch => "integration verification subject does not match candidate".to_owned(),
            Rejection::VerificationActorMismatch => "integration verification actor does not match event actor".to_owned(),
            Rejection::VerificationActorIneligible => "integration verification actor is not an eligible principal".to_owned(),
            Rejection::VerificationUnknownCandidate => "integration verification references an unknown candidate".to_owned(),
            Rejection::VerificationInvalidTransition => "invalid integration candidate disposition transition".to_owned(),
            Rejection::VerificationEmptyReason => "integration verification reason cannot be empty".to_owned(),
            Rejection::VerificationInvalidAsOf => "integration verification has an invalid as-of revision".to_owned(),
            Rejection::CandidateFingerprintMismatch => "candidate fingerprint does not match its projection".to_owned(),
            Rejection::VerificationNeedsEvidence => "integration verification needs evidence".to_owned(),
            Rejection::IntegrationEvidenceHash => "evidence source hash is invalid".to_owned(),
            Rejection::IntegrationEvidenceNewer => "evidence is newer than candidate as-of revision".to_owned(),
            Rejection::IntegrationEvidenceOutside => "evidence is outside candidate provenance".to_owned(),
            Rejection::IntegrationEvidenceEventNewer => "evidence event is newer than its as-of revision".to_owned(),
            Rejection::IntegrationArtifactMismatch => "artifact evidence provenance does not match".to_owned(),
            Rejection::MaterializationSubjectMismatch => "materialization subject does not match candidate".to_owned(),
            Rejection::MaterializationUnknownCandidate => "materialization references an unknown candidate".to_owned(),
            Rejection::MaterializationNotVerified => "only verified candidates can be materialized".to_owned(),
            Rejection::MaterializationRepeated => "candidate has already been materialized".to_owned(),
            Rejection::MaterializationFingerprint => "materialization fingerprint does not match candidate".to_owned(),
            Rejection::MaterializationKind => "candidate kind cannot be materialized as Memory".to_owned(),
            Rejection::MaterializationProvenance => "materialization provenance does not match candidate".to_owned(),
            Rejection::MaterializationNoVerification => "materialization has no verification record".to_owned(),
            Rejection::MaterializationEvidence => "materialization evidence does not match verification".to_owned(),
            Rejection::MaterializationUnknownMemoryCandidate => "materialization references an unknown Memory candidate".to_owned(),
            Rejection::MaterializationMemoryCandidate => "Memory candidate does not match materialization".to_owned(),
            Rejection::MaterializationUnknownMemory => "materialization references an unknown Memory".to_owned(),
            Rejection::MaterializationMemory => "Memory does not match materialization".to_owned(),
            Rejection::PositionSubjectMismatch => "Position integration event subject does not match payload".to_owned(),
            Rejection::PositionProvenanceMismatch => "Position integration event provenance does not match candidate".to_owned(),
            Rejection::PositionActorIneligible => "model or unknown actor cannot materialize a Position".to_owned(),
            Rejection::PositionUnknownPrincipal => "Position references an unknown principal".to_owned(),
            Rejection::PositionNotHekate => "Position integration can only change HEKATE's Position".to_owned(),
            Rejection::PositionUnknownCandidate => "Position materialization references an unknown candidate".to_owned(),
            Rejection::PositionCandidateNotVerified => "only a verified Position candidate can be materialized".to_owned(),
            Rejection::PositionAlreadyMaterialized => "Position candidate has already been materialized".to_owned(),
            Rejection::PositionNoVerification => "Position materialization has no verification record".to_owned(),
            Rejection::PositionVerificationMismatch => "Position materialization does not match verification".to_owned(),
            Rejection::PositionCandidateProvenance => "Position materialization provenance does not match candidate".to_owned(),
            Rejection::PositionProposalMismatch => "Position does not match its typed proposal".to_owned(),
            Rejection::PositionConfidenceMismatch => "Position confidence does not match candidate".to_owned(),
            Rejection::PositionInvalidEstablishment => "invalid Position establishment".to_owned(),
            Rejection::PositionRevisionWithoutPrior => "Position revision has no prior Position".to_owned(),
            Rejection::PositionInvalidRevision => "Position changed or revision is invalid".to_owned(),
            Rejection::PositionWithdrawalWithoutPrior => "Position withdrawal has no prior Position".to_owned(),
            Rejection::PositionInvalidWithdrawal => "Position changed or withdrawal is invalid".to_owned(),
            Rejection::PositionKindMismatch => "Position event kind does not match integration operation".to_owned(),
            Rejection::PositionBlocked => "an active Position conflict blocks materialization".to_owned(),
            Rejection::PositionInvalidLifecycle => "Position transition violates its lifecycle".to_owned(),
            Rejection::PositionEvidenceMismatch => "Position evidence does not match candidate sources".to_owned(),
            Rejection::PositionEvidenceOmitted => "Position evidence omits candidate sources".to_owned(),
        }
    }
}

/// Why the projection refused an event.
pub enum ProjectionError {
    InvalidPayload { event_kind: EventKind, reason: Rejection },
    /// The event has already been applied.
    Duplicate(EventId),
    /// A batch was built on a state whose revision has since moved.
    StaleContext { expected: u64, actual: u64 },
}

/// The message of a refusal of an event.
pub open spec fn projection_error_text(e: ProjectionError) -> Seq<char> {
    match e {
        ProjectionError::InvalidPayload { event_kind, reason } => "invalid payload for "@
            + event_kind_name(event_kind) + ": "@ + rejection_text(reason),
        ProjectionError::Duplicate(id) => "event "@ + uuid_hyphenated(id)
            + " has already been projected"@,
        ProjectionError::StaleContext { expected, actual } =>
            "stale thought context: expected base revision "@ + decimal(expected as nat)
            + ", actual "@ + decimal(actual as nat),
    }
}

impl ProjectionError {
    /// The refusal's message.
    pub fn message(&self) -> (r: String)
        ensures
            r@ == projection_error_text(*self),
    {
        match self {
            ProjectionError::InvalidPayload { event_kind, reason } => {
                let mut out = "invalid payload for ".to_owned();
                out.append(event_kind_text(*event_kind).as_str());
                out.append(": ");
                out.append(reason.message().as_str());
                out
            },
            ProjectionError::Duplicate(id) => {
                let mut out = "event ".to_owned();
                out.append(uuid_text(*id).as_str());
                out.append(" has already been projected");
                out
            },
            ProjectionError::StaleContext { expected, actual } => {
                let mut out = "stale thought context: expected base revision ".to_owned();
                out.append(decimal_text(*expected).as_str());
                out.append(", actual ");
                out.append(decimal_text(*actual).as_str());
                out
            },
        }
    }
}

/// The tables of the projection (and the sleep cursor), by name.
#[derive(Clone, Copy, Debug, PartialEq, Eq, Structural)]
pub enum Table {
    Principals,
    IdentityVersions,
    Relationships,
    Observations,
    Goals,
    Tasks,
    Runs,
    Attempts,
    Positions,
    Conflicts,
    Approvals,
    Operations,
    Verifications,
    Artifacts,
    Criteria,
    Claims,
    MemoryCandidates,
    ActiveMemories,
    SleepRuns,
    Decisions,
    Commitments,
    ActionIntents,
    Receipts,
    WorkingStates,
    IntegrationCandidates,
    IntegrationVerifications,
    IntegrationMaterializations,
    PositionIntegrations,
    SleepCursor,
}

/// Every table of `b` not in `touched` is the same as in `a`.
pub open spec fn frame(a: &CurrentState, b: &CurrentState, touched: Set<Table>) -> bool {
    &&& !touched.contains(Table::Principals) ==> b.principals@ == a.principals@
    &&& !touched.contains(Table::IdentityVersions) ==> b.identity_versions@ == a.identity_versions@
    &&& !touched.contains(Table::Relationships) ==> b.relationships@ == a.relationships@
    &&& !touched.contains(Table::Observations) ==> b.observations@ == a.observations@
    &&& !touched.contains(Table::Goals) ==> b.goals@ == a.goals@
    &&& !touched.contains(Table::Tasks) ==> b.tasks@ == a.tasks@
    &&& !touched.contains(Table::Runs) ==> b.runs@ == a.runs@
    &&& !touched.contains(Table::Attempts) ==> b.attempts@ == a.attempts@
    &&& !touched.contains(Table::Positions) ==> b.positions@ == a.positions@
    &&& !touched.contains(Table::Conflicts) ==> b.conflicts@ == a.conflicts@
    &&& !touched.contains(Table::Approvals) ==> b.approvals@ == a.approvals@
    &&& !touched.contains(Table::Operations) ==> b.operations@ == a.operations@
    &&& !touched.contains(Table::Verifications) ==> b.verifications@ == a.verifications@
    &&& !touched.contains(Table::Artifacts) ==> b.artifacts@ == a.artifacts@
    &&& !touched.contains(Table::Criteria) ==> b.completion_criteria@ == a.completion_criteria@
    &&& !touched.contains(Table::Claims) ==> b.completion_claims@ == a.completion_claims@
    &&& !touched.contains(Table::MemoryCandidates) ==> b.memory_candidates@ == a.memory_candidates@
    &&& !touched.contains(Table::ActiveMemories) ==> b.active_memories@ == a.active_memories@
    &&& !touched.contains(Table::SleepRuns) ==> b.sleep_runs@ == a.sleep_runs@
    &&& !touched.contains(Table::Decisions) ==> b.decisions@ == a.decisions@
    &&& !touched.contains(Table::Commitments) ==> b.commitments@ == a.commitments@
    &&& !touched.contains(Table::ActionIntents) ==> b.action_intents@ == a.action_intents@
    &&& !touched.contains(Table::Receipts) ==> b.receipts@ == a.receipts@
    &&& !touched.contains(Table::WorkingStates) ==> b.working_states@ == a.working_states@
    &&& !touched.contains(Table::IntegrationCandidates) ==> b.integration_candidates@
        == a.integration_candidates@
    &&& !touched.contains(Table::IntegrationVerifications) ==> b.integration_verifications@
        == a.integration_verifications@
    &&& !touched.contains(Table::IntegrationMaterializations) ==> b.integration_materializations@
        == a.integration_materializations@
    &&& !touched.contains(Table::PositionIntegrations) ==> b.position_integration_materializations@
        == a.position_integration_materializations@
    &&& !touched.contains(Table::SleepCursor) ==> b.sleep_cursor == a.sleep_cursor
}

/// Whether the projection reads the event's payload.
pub open spec fn reads_payload(kind: EventKind) -> bool {
    !(kind == EventKind::FocusResolved || kind == EventKind::ResponseProduced || kind
        == EventKind::StateChanged)
}

/// Whether the payload is the entity the event kind carries.
pub open spec fn fits(kind: EventKind, payload: Payload) -> bool {
    match kind {
        EventKind::PrincipalCreated => payload is Principal,
        EventKind::IdentityVersionCreated => payload is IdentityVersion,
        EventKind::RelationshipCreated => payload is Relationship,
        EventKind::ObservationRecorded | EventKind::UserMessageReceived => payload is Observation,
        EventKind::GoalCreated => payload is Goal,
        EventKind::TaskCreated | EventKind::TaskCompleted => payload is Task,
        EventKind::RunStarted | EventKind::RunSuspended | EventKind::RunCompleted => payload is Run,
        EventKind::AttemptStarted | EventKind::AttemptCompleted => payload is Attempt,
        EventKind::WorkingStateUpdated | EventKind::DecisionCreated | EventKind::CommitmentCreated
        | EventKind::CommitmentFulfilled | EventKind::ActionIntentCreated
        | EventKind::ReceiptRecorded => payload is Record,
        EventKind::PositionEstablished | EventKind::PositionMaintained
        | EventKind::PositionRecorded | EventKind::PositionRevised
        | EventKind::PositionRetracted => payload is Position,
        EventKind::ConflictOpened | EventKind::ConflictRecorded | EventKind::ConflictUpdated
        | EventKind::ConflictResolved => payload is Conflict,
        EventKind::OperationPlanned | EventKind::OperationAuthorized | EventKind::OperationStarted
        | EventKind::OperationSucceeded | EventKind::OperationFailed
        | EventKind::OperationStateUnknown => payload is Operation,
        EventKind::ArtifactCreated => payload is Artifact,
        EventKind::CompletionCriterionDefined => payload is Criterion,
        EventKind::CompletionClaimCreated => payload is Claim,
        EventKind::CompletionClaimVerified | EventKind::CompletionClaimRejected => payload
            is ClaimTransition,
        EventKind::ApprovalRequested | EventKind::ApprovalResolved => payload is Approval,
        EventKind::VerificationRecorded => payload is Verification,
        EventKind::MemoryCandidateCreated | EventKind::MemoryRejected => payload is MemoryCandidate,
        EventKind::MemoryPromoted | EventKind::MemorySuperseded | EventKind::MemoryExpired =>
            payload is Memory,
        EventKind::SleepRunStarted | EventKind::SleepRunCompleted | EventKind::SleepRunInterrupted
        | EventKind::SleepRunFailed => payload is SleepRun,
        EventKind::IntegrationCandidateCreated => payload is IntegrationCandidate || payload is UndatedIntegrationCandidate,
        EventKind::IntegrationCandidateVerified | EventKind::IntegrationCandidateRejected => payload
            is IntegrationVerification,
        EventKind::IntegrationCandidateMaterialized => payload is IntegrationMaterialization,
        EventKind::FocusResolved | EventKind::ResponseProduced | EventKind::StateChanged => true,
    }
}

/// Why the payload cannot be read as the event kind's entity, if it cannot.
pub open spec fn decode_error(kind: EventKind, payload: Payload) -> Option<Rejection> {
    if !reads_payload(kind) {
        None
    } else {
        match payload {
            Payload::Malformed(message) => Some(Rejection::Malformed(message)),
            _ => if fits(kind, payload) {
                None
            } else {
                Some(Rejection::WrongPayload)
            },
        }
    }
}

/// Checks that the payload can be read as the event kind's entity.
fn check_payload(kind: EventKind, payload: &Payload) -> (r: Result<(), Rejection>)
    ensures
        match r {
            Ok(()) => decode_error(kind, *payload) is None,
            Err(e) => decode_error(kind, *payload) == Some(e),
        },
{
    match kind {
        EventKind::FocusResolved | EventKind::ResponseProduced | EventKind::StateChanged => {
            return Ok(());
        },
        _ => {},
    }
    let fits = match payload {
        Payload::Malformed(message) => {
            return Err(Rejection::Malformed(message.clone()));
        },
        Payload::Principal(_) => kind == EventKind::PrincipalCreated,
        Payload::IdentityVersion(_) => kind == EventKind::IdentityVersionCreated,
        Payload::Relationship(_) => kind == EventKind::RelationshipCreated,
        Payload::Observation(_) => kind == EventKind::ObservationRecorded || kind
            == EventKind::UserMessageReceived,
        Payload::Goal(_) => kind == EventKind::GoalCreated,
        Payload::Task(_) => kind == EventKind::TaskCreated || kind == EventKind::TaskCompleted,
        Payload::Run(_) => kind == EventKind::RunStarted || kind == EventKind::RunSuspended || kind
            == EventKind::RunCompleted,
        Payload::Attempt(_) => kind == EventKind::AttemptStarted || kind
            == EventKind::AttemptCompleted,
        Payload::Record(_) => kind == EventKind::WorkingStateUpdated || kind
            == EventKind::DecisionCreated || kind == EventKind::CommitmentCreated || kind
            == EventKind::CommitmentFulfilled || kind == EventKind::ActionIntentCreated || kind
            == EventKind::ReceiptRecorded,
        Payload::Position(_) => kind == EventKind::PositionEstablished || kind
            == EventKind::PositionMaintained || kind == EventKind::PositionRecorded || kind
            == EventKind::PositionRevised || kind == EventKind::PositionRetracted,
        Payload::Conflict(_) => kind == EventKind::ConflictOpened || kind
            == EventKind::ConflictRecorded || kind == EventKind::ConflictUpdated || kind
            == EventKind::ConflictResolved,
        Payload::Operation(_) => kind == EventKind::OperationPlanned || kind
            == EventKind::OperationAuthorized || kind == EventKind::OperationStarted || kind
            == EventKind::OperationSucceeded || kind == EventKind::OperationFailed || kind
            == EventKind::OperationStateUnknown,
        Payload::Artifact(_) => kind == EventKind::ArtifactCreated,
        Payload::Criterion(_) => kind == EventKind::CompletionCriterionDefined,
        Payload::Claim(_) => kind == EventKind::CompletionClaimCreated,
        Payload::ClaimTransition(_) => kind == EventKind::CompletionClaimVerified || kind
            == EventKind::CompletionClaimRejected,
        Payload::Approval(_) => kind == EventKind::ApprovalRequested || kind
            == EventKind::ApprovalResolved,
        Payload::Verification(_) => kind == EventKind::VerificationRecorded,
        Payload::MemoryCandidate(_) => kind == EventKind::MemoryCandidateCreated || kind
            == EventKind::MemoryRejected,
        Payload::Memory(_) => kind == EventKind::MemoryPromoted || kind
            == EventKind::MemorySuperseded || kind == EventKind::MemoryExpired,
        Payload::SleepRun(_) => kind == EventKind::SleepRunStarted || kind
            == EventKind::SleepRunCompleted || kind == EventKind::SleepRunInterrupted || kind
            == EventKind::SleepRunFailed,
        Payload::IntegrationCandidate(_) => kind == EventKind::IntegrationCandidateCreated,
        Payload::UndatedIntegrationCandidate(_) => kind == EventKind::IntegrationCandidateCreated,
        Payload::IntegrationVerification(_) => kind == EventKind::IntegrationCandidateVerified
            || kind == EventKind::IntegrationCandidateRejected,
        Payload::IntegrationMaterialization(_) => kind == EventKind::IntegrationCandidateMaterialized,
        Payload::Empty => false,
    };
    if fits {
        Ok(())
    } else {
        Err(Rejection::WrongPayload)
    }
}


/// The table an event of this kind is stored in as it stands, for the kinds
/// whose payload is stored without further checks.
pub open spec fn plain_table(kind: EventKind) -> Option<Table> {
    match kind {
        EventKind::PrincipalCreated => Some(Table::Principals),
        EventKind::RelationshipCreated => Some(Table::Relationships),
        EventKind::ObservationRecorded | EventKind::UserMessageReceived => Some(Table::Observations),
        EventKind::GoalCreated => Some(Table::Goals),
        EventKind::TaskCreated => Some(Table::Tasks),
        EventKind::RunStarted | EventKind::RunSuspended | EventKind::RunCompleted => Some(
            Table::Runs,
        ),
        EventKind::AttemptStarted | EventKind::AttemptCompleted => Some(Table::Attempts),
        EventKind::WorkingStateUpdated => Some(Table::WorkingStates),
        EventKind::DecisionCreated => Some(Table::Decisions),
        EventKind::PositionEstablished | EventKind::PositionMaintained
        | EventKind::PositionRecorded | EventKind::PositionRetracted => Some(Table::Positions),
        EventKind::CommitmentCreated | EventKind::CommitmentFulfilled => Some(Table::Commitments),
        EventKind::ActionIntentCreated => Some(Table::ActionIntents),
        EventKind::OperationPlanned | EventKind::OperationAuthorized | EventKind::OperationStarted
        | EventKind::OperationSucceeded | EventKind::OperationFailed
        | EventKind::OperationStateUnknown => Some(Table::Operations),
        EventKind::ArtifactCreated => Some(Table::Artifacts),
        EventKind::ApprovalRequested | EventKind::ApprovalResolved => Some(Table::Approvals),
        EventKind::ReceiptRecorded => Some(Table::Receipts),
        EventKind::MemoryCandidateCreated | EventKind::MemoryRejected => Some(
            Table::MemoryCandidates,
        ),
        _ => None,
    }
}

fn plain_table_of(kind: EventKind) -> (r: Option<Table>)
    ensures
        r == plain_table(kind),
{
    match kind {
        EventKind::PrincipalCreated => Some(Table::Principals),
        EventKind::RelationshipCreated => Some(Table::Relationships),
        EventKind::ObservationRecorded | EventKind::UserMessageReceived => Some(Table::Observations),
        EventKind::GoalCreated => Some(Table::Goals),
        EventKind::TaskCreated => Some(Table::Tasks),
        EventKind::RunStarted | EventKind::RunSuspended | EventKind::RunCompleted => Some(
            Table::Runs,
        ),
        EventKind::AttemptStarted | EventKind::AttemptCompleted => Some(Table::Attempts),
        EventKind::WorkingStateUpdated => Some(Table::WorkingStates),
        EventKind::DecisionCreated => Some(Table::Decisions),
        EventKind::PositionEstablished | EventKind::PositionMaintained
        | EventKind::PositionRecorded | EventKind::PositionRetracted => Some(Table::Positions),
        EventKind::CommitmentCreated | EventKind::CommitmentFulfilled => Some(Table::Commitments),
        EventKind::ActionIntentCreated => Some(Table::ActionIntents),
        EventKind::OperationPlanned | EventKind::OperationAuthorized | EventKind::OperationStarted
        | EventKind::OperationSucceeded | EventKind::OperationFailed
        | EventKind::OperationStateUnknown => Some(Table::Operations),
        EventKind::ArtifactCreated => Some(Table::Artifacts),
        EventKind::ApprovalRequested | EventKind::ApprovalResolved => Some(Table::Approvals),
        EventKind::ReceiptRecorded => Some(Table::Receipts),
        EventKind::MemoryCandidateCreated | EventKind::MemoryRejected => Some(
            Table::MemoryCandidates,
        ),
        _ => None,
    }
}

/// `b` is `a` with the payload stored in `table` under its key.
pub open spec fn stored_in(a: &CurrentState, b: &CurrentState, table: Table, payload: Payload) -> bool {
    match payload {
        Payload::Principal(x) => table == Table::Principals && stored(a.principals@, b.principals@, x),
        Payload::Relationship(x) => table == Table::Relationships && stored(
            a.relationships@,
            b.relationships@,
            x,
        ),
        Payload::Observation(x) => table == Table::Observations && stored(
            a.observations@,
            b.observations@,
            x,
        ),
        Payload::Goal(x) => table == Table::Goals && stored(a.goals@, b.goals@, x),
        Payload::Task(x) => table == Table::Tasks && stored(a.tasks@, b.tasks@, x),
        Payload::Run(x) => table == Table::Runs && stored(a.runs@, b.runs@, x),
        Payload::Attempt(x) => table == Table::Attempts && stored(a.attempts@, b.attempts@, x),
        Payload::Position(x) => table == Table::Positions && stored(a.positions@, b.positions@, x),
        Payload::Operation(x) => table == Table::Operations && stored(
            a.operations@,
            b.operations@,
            x,
        ),
        Payload::Artifact(x) => table == Table::Artifacts && stored(a.artifacts@, b.artifacts@, x),
        Payload::Approval(x) => table == Table::Approvals && stored(a.approvals@, b.approvals@, x),
        Payload::MemoryCandidate(x) => table == Table::MemoryCandidates && stored(
            a.memory_candidates@,
            b.memory_candidates@,
            x,
        ),
        Payload::Record(x) => match table {
            Table::Decisions => stored(a.decisions@, b.decisions@, x),
            Table::Commitments => stored(a.commitments@, b.commitments@, x),
            Table::ActionIntents => stored(a.action_intents@, b.action_intents@, x),
            Table::Receipts => stored(a.receipts@, b.receipts@, x),
            Table::WorkingStates => stored(a.working_states@, b.working_states@, x),
            _ => false,
        },
        _ => false,
    }
}

/// Stores a payload that fits `table` in it.
fn store_plain(state: &mut CurrentState, table: Table, payload: Payload)
    requires
        old(state).wf(),
        exists|kind: EventKind|
            plain_table(kind) == Some(table) && fits(kind, payload) && !(payload is Malformed),
    ensures
        final(state).wf(),
        stored_in(old(state), final(state), table, payload),
        frame(old(state), final(state), set![table]),
        final(state).revision == old(state).revision,
        final(state).applied_events@ == old(state).applied_events@,
{
    match payload {
        Payload::Principal(x) => upsert(&mut state.principals, x),
        Payload::Relationship(x) => upsert(&mut state.relationships, x),
        Payload::Observation(x) => upsert(&mut state.observations, x),
        Payload::Goal(x) => upsert(&mut state.goals, x),
        Payload::Task(x) => upsert(&mut state.tasks, x),
        Payload::Run(x) => upsert(&mut state.runs, x),
        Payload::Attempt(x) => upsert(&mut state.attempts, x),
        Payload::Position(x) => upsert(&mut state.positions, x),
        Payload::Operation(x) => upsert(&mut state.operations, x),
        Payload::Artifact(x) => upsert(&mut state.artifacts, x),
        Payload::Approval(x) => upsert(&mut state.approvals, x),
        Payload::MemoryCandidate(x) => upsert(&mut state.memory_candidates, x),
        Payload::Record(x) => match table {
            Table::Decisions => upsert(&mut state.decisions, x),
            Table::Commitments => upsert(&mut state.commitments, x),
            Table::ActionIntents => upsert(&mut state.action_intents, x),
            Table::Receipts => upsert(&mut state.receipts, x),
            _ => upsert(&mut state.working_states, x),
        },
        _ => {},
    }
}

/// The principal holding the identity version it was given.
pub open spec fn with_identity(p: Principal, identity_version_id: u128) -> Principal {
    Principal { identity_version_id: Some(identity_version_id), ..p }
}

/// A new identity version is stored and its principal, if known, holds it.
pub open spec fn identity_effect(a: &CurrentState, b: &CurrentState, iv: IdentityVersion) -> bool {
    &&& stored(a.identity_versions@, b.identity_versions@, iv)
    &&& match lookup(a.principals@, iv.principal_id) {
        Some(p) => stored(a.principals@, b.principals@, with_identity(p, iv.id)),
        None => b.principals@ == a.principals@,
    }
    &&& frame(a, b, set![Table::Principals, Table::IdentityVersions])
}

fn record_identity(state: &mut CurrentState, iv: IdentityVersion)
    requires
        old(state).wf(),
    ensures
        final(state).wf(),
        identity_effect(old(state), final(state), iv),
        final(state).revision == old(state).revision,
        final(state).applied_events@ == old(state).applied_events@,
{
    match find_index(&state.principals, iv.principal_id) {
        Some(i) => {
            let ghost before = state.principals@;
            let mut p = state.principals.remove(i);
            p.identity_version_id = Some(iv.id);
            state.principals.insert(i, p);
            proof {
                assert(state.principals@ =~= before.update(i as int, with_identity(before[i as int], iv.id)));
                lemma_update_at(before, i as int, with_identity(before[i as int], iv.id));
            }
        },
        None => {},
    }
    upsert(&mut state.identity_versions, iv);
}


/// Whether a task may move to completed from its status.
pub open spec fn may_complete(status: TaskStatus) -> bool {
    status == TaskStatus::Pending || status == TaskStatus::InProgress || status
        == TaskStatus::Blocked
}

/// Whether `completed` is `current` moved to completed and nothing else.
pub open spec fn completes(current: Task, completed: Task) -> bool {
    &&& may_complete(current.status)
    &&& completed.status == TaskStatus::Completed
    &&& completed.goal_id == current.goal_id
    &&& completed.title@ == current.title@
}

/// Why a task completion event is refused, if it is: its subject must be
/// the task, the task must be known and the payload must be that task
/// moved to completed.
pub open spec fn completion_rejection(
    a: &CurrentState,
    subject: Option<EntityRef>,
    completed: Task,
) -> Option<Rejection> {
    if subject != Some(EntityRef { kind: EntityKind::Task, id: completed.id }) {
        Some(Rejection::CompletionSubjectMismatch)
    } else {
        match lookup(a.tasks@, completed.id) {
            None => Some(Rejection::CompletionUnknownTask),
            Some(current) => if completes(current, completed) {
                None
            } else {
                Some(Rejection::InvalidTaskCompletion)
            },
        }
    }
}

fn complete_task(state: &mut CurrentState, subject: Option<EntityRef>, completed: Task) -> (r: Result<
    (),
    Rejection,
>)
    requires
        old(state).wf(),
    ensures
        match r {
            Ok(()) => completion_rejection(old(state), subject, completed) is None && stored(
                old(state).tasks@,
                final(state).tasks@,
                completed,
            ) && frame(old(state), final(state), set![Table::Tasks]),
            Err(e) => completion_rejection(old(state), subject, completed) == Some(e) && *final(state)
                == *old(state),
        },
        final(state).wf(),
        final(state).revision == old(state).revision,
        final(state).applied_events@ == old(state).applied_events@,
{
    match subject {
        Some(s) => {
            if !(s.kind == EntityKind::Task && s.id == completed.id) {
                return Err(Rejection::CompletionSubjectMismatch);
            }
        },
        None => {
            return Err(Rejection::CompletionSubjectMismatch);
        },
    }
    let allowed = match get(&state.tasks, completed.id) {
        None => {
            return Err(Rejection::CompletionUnknownTask);
        },
        Some(current) => (current.status == TaskStatus::Pending || current.status
            == TaskStatus::InProgress || current.status == TaskStatus::Blocked)
            && completed.status == TaskStatus::Completed && completed.goal_id == current.goal_id
            && completed.title == current.title,
    };
    if !allowed {
        return Err(Rejection::InvalidTaskCompletion);
    }
    upsert(&mut state.tasks, completed);
    Ok(())
}

/// The position a revision supersedes, marked superseded.
pub open spec fn superseded(p: Position) -> Position {
    Position { status: PositionStatus::Superseded, ..p }
}

/// `b` is `a` with the revision stored and the position it supersedes, if
/// stored, marked superseded.
pub open spec fn revised(a: Seq<Position>, b: Seq<Position>, p: Position) -> bool {
    &&& sorted_keys(b)
    &&& forall|k: u128|
        #![trigger lookup(b, k)]
        lookup(b, k) == if k == p.id {
            Some(p)
        } else if p.supersedes == Some(k) && lookup(a, k) is Some {
            Some(superseded(lookup(a, k)->0))
        } else {
            lookup(a, k)
        }
}

pub fn revise_position(state: &mut CurrentState, p: Position)
    requires
        old(state).wf(),
    ensures
        final(state).wf(),
        revised(old(state).positions@, final(state).positions@, p),
        frame(old(state), final(state), set![Table::Positions]),
        final(state).revision == old(state).revision,
        final(state).applied_events@ == old(state).applied_events@,
{
    let ghost before = state.positions@;
    match p.supersedes {
        Some(previous_id) => match find_index(&state.positions, previous_id) {
            Some(i) => {
                let mut previous = state.positions.remove(i);
                previous.status = PositionStatus::Superseded;
                state.positions.insert(i, previous);
                proof {
                    assert(state.positions@ =~= before.update(i as int, superseded(before[i as int])));
                    lemma_update_at(before, i as int, superseded(before[i as int]));
                }
            },
            None => {},
        },
        None => {},
    }
    let ghost mid = state.positions@;
    upsert(&mut state.positions, p);
    proof {
        assert forall|k: u128| #[trigger]
            lookup(state.positions@, k) == (if k == p.id {
                Some(p)
            } else if p.supersedes == Some(k) && lookup(before, k) is Some {
                Some(superseded(lookup(before, k)->0))
            } else {
                lookup(before, k)
            }) by {
            assert(lookup(state.positions@, k) == (if k == p.id { Some(p) } else { lookup(mid, k) }));
            assert(lookup(mid, k) == (if p.supersedes == Some(k) && lookup(before, k) is Some {
                Some(superseded(lookup(before, k)->0))
            } else {
                lookup(before, k)
            }));
        }
    }
}

/// The status an operation takes from a verification of it.
pub open spec fn verified_status(status: VerificationStatus) -> OperationStatus {
    match status {
        VerificationStatus::Verified => OperationStatus::Verified,
        VerificationStatus::Disputed => OperationStatus::Disputed,
        VerificationStatus::Failed => OperationStatus::Failed,
    }
}

/// A verification is stored and the operation it verifies, if known, takes
/// its status.
pub open spec fn verification_effect(a: &CurrentState, b: &CurrentState, v: Verification) -> bool {
    &&& stored(a.verifications@, b.verifications@, v)
    &&& match lookup(a.operations@, v.operation_id) {
        Some(op) => stored(
            a.operations@,
            b.operations@,
            Operation { status: verified_status(v.status), ..op },
        ),
        None => b.operations@ == a.operations@,
    }
    &&& frame(a, b, set![Table::Operations, Table::Verifications])
}

fn record_verification(state: &mut CurrentState, v: Verification)
    requires
        old(state).wf(),
    ensures
        final(state).wf(),
        verification_effect(old(state), final(state), v),
        final(state).revision == old(state).revision,
        final(state).applied_events@ == old(state).applied_events@,
{
    let status = match v.status {
        VerificationStatus::Verified => OperationStatus::Verified,
        VerificationStatus::Disputed => OperationStatus::Disputed,
        VerificationStatus::Failed => OperationStatus::Failed,
    };
    match get(&state.operations, v.operation_id) {
        Some(op) => {
            let updated = Operation {
                id: op.id,
                intent_id: op.intent_id,
                status,
                approval_id: op.approval_id,
            };
            proof {
                crate::table::lemma_lookup_key(state.operations@, v.operation_id);
            }
            upsert(&mut state.operations, updated);
        },
        None => {},
    }
    upsert(&mut state.verifications, v);
}

/// The status a memory candidate takes from the memory made of it.
pub open spec fn candidate_status(status: ActiveMemoryStatus) -> MemoryCandidateStatus {
    match status {
        ActiveMemoryStatus::Active => MemoryCandidateStatus::Promoted,
        ActiveMemoryStatus::Superseded => MemoryCandidateStatus::Superseded,
        ActiveMemoryStatus::Expired => MemoryCandidateStatus::Expired,
    }
}

/// A memory is stored and its candidate, if known, takes the matching
/// status.
pub open spec fn memory_effect(a: &CurrentState, b: &CurrentState, m: ActiveMemory) -> bool {
    &&& stored(a.active_memories@, b.active_memories@, m)
    &&& match lookup(a.memory_candidates@, m.candidate_id) {
        Some(c) => stored(
            a.memory_candidates@,
            b.memory_candidates@,
            MemoryCandidate { status: candidate_status(m.status), ..c },
        ),
        None => b.memory_candidates@ == a.memory_candidates@,
    }
    &&& frame(a, b, set![Table::MemoryCandidates, Table::ActiveMemories])
}

fn record_memory(state: &mut CurrentState, m: ActiveMemory)
    requires
        old(state).wf(),
    ensures
        final(state).wf(),
        memory_effect(old(state), final(state), m),
        final(state).revision == old(state).revision,
        final(state).applied_events@ == old(state).applied_events@,
{
    let status = match m.status {
        ActiveMemoryStatus::Active => MemoryCandidateStatus::Promoted,
        ActiveMemoryStatus::Superseded => MemoryCandidateStatus::Superseded,
        ActiveMemoryStatus::Expired => MemoryCandidateStatus::Expired,
    };
    match find_index(&state.memory_candidates, m.candidate_id) {
        Some(i) => {
            let ghost before = state.memory_candidates@;
            let mut c = state.memory_candidates.remove(i);
            c.status = status;
            state.memory_candidates.insert(i, c);
            proof {
                let row = MemoryCandidate { status: candidate_status(m.status), ..before[i as int] };
                assert(state.memory_candidates@ =~= before.update(i as int, row));
                lemma_update_at(before, i as int, row);
            }
        },
        None => {},
    }
    upsert(&mut state.active_memories, m);
}


/// Whether the relationship has a participant holding one of the conflict's
/// positions.
pub open spec fn involves(positions: Seq<Position>, c: Conflict, rel: Relationship) -> bool {
    exists|j: int|
        0 <= j < c.participant_positions@.len() && (#[trigger] lookup(
            positions,
            c.participant_positions@[j],
        )) is Some && rel.participants@.contains(
            lookup(positions, c.participant_positions@[j])->0.principal_id,
        )
}

/// Whether a conflict in this status is still unresolved.
pub open spec fn unresolved(status: ConflictStatus) -> bool {
    status == ConflictStatus::Open || status == ConflictStatus::Negotiating
}

/// The identifiers with every occurrence of `x` removed.
pub open spec fn without(ids: Seq<u128>, x: u128) -> Seq<u128>
    decreases ids.len(),
{
    if ids.len() == 0 {
        ids
    } else {
        let rest = without(ids.drop_last(), x);
        if ids.last() == x {
            rest
        } else {
            rest.push(ids.last())
        }
    }
}

/// A relationship's unresolved conflicts once `conflict_id` is recorded as
/// unresolved or not.
pub open spec fn conflicts_after(ids: Seq<ConflictId>, conflict_id: ConflictId, open: bool) -> Seq<
    ConflictId,
> {
    if open {
        if ids.contains(conflict_id) {
            ids
        } else {
            ids.push(conflict_id)
        }
    } else {
        without(ids, conflict_id)
    }
}

/// `b` is `a` with the conflict's state recorded in every relationship it
/// involves.
pub open spec fn relationships_after(
    a: Seq<Relationship>,
    b: Seq<Relationship>,
    positions: Seq<Position>,
    c: Conflict,
) -> bool {
    &&& b.len() == a.len()
    &&& forall|i: int|
        0 <= i < a.len() ==> if involves(positions, c, #[trigger] a[i]) {
            &&& b[i].id == a[i].id
            &&& b[i].participants@ == a[i].participants@
            &&& b[i].unresolved_conflicts@ == conflicts_after(
                a[i].unresolved_conflicts@,
                c.id,
                unresolved(c.status),
            )
        } else {
            b[i] == a[i]
        }
}

/// A conflict is stored and every relationship it involves lists it among
/// its unresolved conflicts exactly while it is unresolved.
pub open spec fn conflict_effect(a: &CurrentState, b: &CurrentState, c: Conflict) -> bool {
    &&& relationships_after(a.relationships@, b.relationships@, a.positions@, c)
    &&& stored(a.conflicts@, b.conflicts@, c)
    &&& frame(a, b, set![Table::Relationships, Table::Conflicts])
}

/// The identifiers without `x`.
fn remove_id(ids: &Vec<u128>, x: u128) -> (r: Vec<u128>)
    ensures
        r@ == without(ids@, x),
{
    let mut out: Vec<u128> = Vec::new();
    let mut i: usize = 0;
    while i < ids.len()
        invariant
            i <= ids@.len(),
            out@ == without(ids@.subrange(0, i as int), x),
        decreases ids@.len() - i,
    {
        proof {
            let next = ids@.subrange(0, i + 1);
            assert(next.drop_last() =~= ids@.subrange(0, i as int));
            assert(next.last() == ids@[i as int]);
        }
        if ids[i] != x {
            out.push(ids[i]);
        }
        i = i + 1;
    }
    proof {
        assert(ids@.subrange(0, ids@.len() as int) =~= ids@);
    }
    out
}

fn involved(positions: &Vec<Position>, c: &Conflict, rel: &Relationship) -> (r: bool)
    requires
        sorted_keys(positions@),
    ensures
        r == involves(positions@, *c, *rel),
{
    let mut j: usize = 0;
    while j < c.participant_positions.len()
        invariant
            sorted_keys(positions@),
            j <= c.participant_positions@.len(),
            forall|k: int|
                0 <= k < j ==> !((#[trigger] lookup(positions@, c.participant_positions@[k])) is Some
                    && rel.participants@.contains(
                    lookup(positions@, c.participant_positions@[k])->0.principal_id,
                )),
        decreases c.participant_positions@.len() - j,
    {
        match get(positions, c.participant_positions[j]) {
            Some(position) => {
                if crate::model::contains_id(&rel.participants, position.principal_id) {
                    return true;
                }
            },
            None => {},
        }
        j = j + 1;
    }
    false
}

fn store_conflict(state: &mut CurrentState, c: Conflict)
    requires
        old(state).wf(),
    ensures
        final(state).wf(),
        conflict_effect(old(state), final(state), c),
        final(state).revision == old(state).revision,
        final(state).applied_events@ == old(state).applied_events@,
{
    let open = c.status == ConflictStatus::Open || c.status == ConflictStatus::Negotiating;
    let mut rels: Vec<Relationship> = Vec::new();
    std::mem::swap(&mut rels, &mut state.relationships);
    let ghost before = rels@;
    let mut i: usize = 0;
    while i < rels.len()
        invariant
            sorted_keys(state.positions@),
            open == unresolved(c.status),
            rels@.len() == before.len(),
            i <= rels@.len(),
            forall|j: int| i <= j < rels@.len() ==> rels@[j] == before[j],
            forall|j: int|
                0 <= j < i ==> if involves(state.positions@, c, #[trigger] before[j]) {
                    &&& rels@[j].id == before[j].id
                    &&& rels@[j].participants@ == before[j].participants@
                    &&& rels@[j].unresolved_conflicts@ == conflicts_after(
                        before[j].unresolved_conflicts@,
                        c.id,
                        open,
                    )
                } else {
                    rels@[j] == before[j]
                },
        decreases before.len() - i,
    {
        let ghost prior = rels@;
        if involved(&state.positions, &c, &rels[i]) {
            let mut rel = rels.remove(i);
            if open {
                if !crate::model::contains_id(&rel.unresolved_conflicts, c.id) {
                    rel.unresolved_conflicts.push(c.id);
                }
            } else {
                rel.unresolved_conflicts = remove_id(&rel.unresolved_conflicts, c.id);
            }
            rels.insert(i, rel);
            proof {
                assert(rels@ =~= prior.update(i as int, rel));
            }
        }
        i = i + 1;
    }
    proof {
        assert forall|a: int, b: int| 0 <= a < b < rels@.len() implies rels@[a].spec_key()
            < rels@[b].spec_key() by {
            assert(before[a].spec_key() < before[b].spec_key());
            assert(involves(state.positions@, c, before[a]) || rels@[a] == before[a]);
            assert(involves(state.positions@, c, before[b]) || rels@[b] == before[b]);
        }
    }
    state.relationships = rels;
    upsert(&mut state.conflicts, c);
}


/// Why a criterion definition is refused, if it is.
pub open spec fn criterion_rejection(a: &CurrentState, c: CompletionCriterion) -> Option<Rejection> {
    if is_blank(c.description@) {
        Some(Rejection::CriterionEmptyDescription)
    } else if lookup(a.tasks@, c.task_id) is None {
        Some(Rejection::CriterionUnknownTask)
    } else if lookup(a.completion_criteria@, c.id) is Some {
        Some(Rejection::CriterionIdExists)
    } else if duplicate_description(a, c.task_id, normalized_description(c.description@)) {
        Some(Rejection::CriterionDuplicateDescription)
    } else {
        None
    }
}

/// `b` is `a` with the criterion stored under its identifier, its
/// description trimmed.
pub open spec fn criterion_stored(
    a: Seq<CompletionCriterion>,
    b: Seq<CompletionCriterion>,
    c: CompletionCriterion,
) -> bool {
    &&& sorted_keys(b)
    &&& forall|k: u128| #![trigger lookup(b, k)] k != c.id ==> lookup(b, k) == lookup(a, k)
    &&& lookup(b, c.id) is Some
    &&& lookup(b, c.id)->0.id == c.id
    &&& lookup(b, c.id)->0.task_id == c.task_id
    &&& lookup(b, c.id)->0.required == c.required
    &&& lookup(b, c.id)->0.description@ == trim(c.description@)
}

fn define_criterion(state: &mut CurrentState, c: CompletionCriterion) -> (r: Result<(), Rejection>)
    requires
        old(state).wf(),
    ensures
        match r {
            Ok(()) => criterion_rejection(old(state), c) is None && criterion_stored(
                old(state).completion_criteria@,
                final(state).completion_criteria@,
                c,
            ) && frame(old(state), final(state), set![Table::Criteria]),
            Err(e) => criterion_rejection(old(state), c) == Some(e) && *final(state) == *old(state),
        },
        final(state).wf(),
        final(state).revision == old(state).revision,
        final(state).applied_events@ == old(state).applied_events@,
{
    if blank(c.description.as_str()) {
        return Err(Rejection::CriterionEmptyDescription);
    }
    if !crate::table::contains_key(&state.tasks, c.task_id) {
        return Err(Rejection::CriterionUnknownTask);
    }
    if crate::table::contains_key(&state.completion_criteria, c.id) {
        return Err(Rejection::CriterionIdExists);
    }
    let normalized = normalize_description(c.description.as_str());
    if has_duplicate_description(state, c.task_id, &normalized) {
        return Err(Rejection::CriterionDuplicateDescription);
    }
    let row = CompletionCriterion {
        id: c.id,
        task_id: c.task_id,
        description: trimmed(c.description.as_str()),
        required: c.required,
    };
    upsert(&mut state.completion_criteria, row);
    Ok(())
}

/// The position of the first occurrence of `id` at or after `from`.
pub open spec fn first_position(ids: Seq<EventId>, id: EventId, from: int) -> Option<int>
    decreases ids.len() - from,
{
    if from < 0 || from >= ids.len() {
        None
    } else if ids[from] == id {
        Some(from)
    } else {
        first_position(ids, id, from + 1)
    }
}

/// Why a piece of a claim's evidence is refused, if it is: its hash must be
/// SHA-256 hex, it must be an applied event no newer than the claim, and an
/// artifact it names must come from that event with that hash.
pub open spec fn evidence_rejection(a: &CurrentState, ev: EvidenceRef, as_of: u64) -> Option<
    Rejection,
> {
    if !is_sha256_hex(ev.source_hash@) {
        Some(Rejection::EvidenceHashInvalid)
    } else if ev.as_of_sequence > as_of {
        Some(Rejection::EvidenceNewerThanClaim)
    } else {
        match first_position(a.applied_events@, ev.event_id, 0) {
            None => Some(Rejection::EvidenceUnknownEvent),
            Some(i) => if i + 1 > as_of {
                Some(Rejection::EvidenceEventNewerThanClaim)
            } else {
                match ev.artifact_id {
                    None => None,
                    Some(artifact_id) => match lookup(a.artifacts@, artifact_id) {
                        None => Some(Rejection::EvidenceUnknownArtifact),
                        Some(artifact) => if artifact.provenance_event_id != ev.event_id {
                            Some(Rejection::EvidenceArtifactProvenance)
                        } else if artifact.content_hash@ != ev.source_hash@ {
                            Some(Rejection::EvidenceArtifactHash)
                        } else {
                            None
                        },
                    },
                }
            },
        }
    }
}

/// The refusal of the first piece of evidence from `from` on that is
/// refused, if any.
pub open spec fn first_evidence_rejection(
    a: &CurrentState,
    evidence: Seq<EvidenceRef>,
    as_of: u64,
    from: int,
) -> Option<Rejection>
    decreases evidence.len() - from,
{
    if from < 0 || from >= evidence.len() {
        None
    } else {
        match evidence_rejection(a, evidence[from], as_of) {
            Some(r) => Some(r),
            None => first_evidence_rejection(a, evidence, as_of, from + 1),
        }
    }
}

fn event_position(ids: &Vec<EventId>, id: EventId) -> (r: Option<usize>)
    ensures
        match r {
            Some(i) => first_position(ids@, id, 0) == Some(i as int),
            None => first_position(ids@, id, 0) is None,
        },
{
    let mut i: usize = 0;
    while i < ids.len()
        invariant
            i <= ids@.len(),
            first_position(ids@, id, 0) == first_position(ids@, id, i as int),
        decreases ids@.len() - i,
    {
        if ids[i] == id {
            return Some(i);
        }
        i = i + 1;
    }
    None
}

fn check_evidence_ref(state: &CurrentState, ev: &EvidenceRef, as_of: u64) -> (r: Result<
    (),
    Rejection,
>)
    requires
        state.wf(),
    ensures
        match r {
            Ok(()) => evidence_rejection(state, *ev, as_of) is None,
            Err(e) => evidence_rejection(state, *ev, as_of) == Some(e),
        },
{
    if !valid_sha256_hex(ev.source_hash.as_str()) {
        return Err(Rejection::EvidenceHashInvalid);
    }
    if ev.as_of_sequence > as_of {
        return Err(Rejection::EvidenceNewerThanClaim);
    }
    match event_position(&state.applied_events, ev.event_id) {
        None => {
            return Err(Rejection::EvidenceUnknownEvent);
        },
        Some(i) => {
            if i as u64 >= as_of {
                return Err(Rejection::EvidenceEventNewerThanClaim);
            }
        },
    }
    match ev.artifact_id {
        None => Ok(()),
        Some(artifact_id) => match get(&state.artifacts, artifact_id) {
            None => Err(Rejection::EvidenceUnknownArtifact),
            Some(artifact) => if artifact.provenance_event_id != ev.event_id {
                Err(Rejection::EvidenceArtifactProvenance)
            } else if artifact.content_hash != ev.source_hash {
                Err(Rejection::EvidenceArtifactHash)
            } else {
                Ok(())
            },
        },
    }
}

/// Why a new claim is refused, if it is.
pub open spec fn claim_rejection(a: &CurrentState, claim: CompletionClaim) -> Option<Rejection> {
    if lookup(a.tasks@, claim.task_id) is None {
        Some(Rejection::ClaimUnknownTask)
    } else {
        match lookup(a.completion_criteria@, claim.criterion_id) {
            None => Some(Rejection::ClaimUnknownCriterion),
            Some(criterion) => if criterion.task_id != claim.task_id {
                Some(Rejection::ClaimCriterionTaskMismatch)
            } else if claim.disposition != VerificationDisposition::NeedsValidation {
                Some(Rejection::ClaimNotNeedingValidation)
            } else if claim.confidence > 100 {
                Some(Rejection::ClaimConfidenceOutOfRange)
            } else if claim.as_of_sequence > a.revision {
                Some(Rejection::ClaimAsOfInFuture)
            } else if claim.fingerprint@ != spec_completion_fingerprint(
                claim.task_id,
                claim.criterion_id,
                claim.evidence_refs@,
            ) {
                Some(Rejection::ClaimFingerprintMismatch)
            } else if first_evidence_rejection(
                a,
                claim.evidence_refs@,
                claim.as_of_sequence,
                0,
            ) is Some {
                first_evidence_rejection(a, claim.evidence_refs@, claim.as_of_sequence, 0)
            } else if lookup(a.completion_claims@, claim.id) is Some {
                Some(Rejection::ClaimIdExists)
            } else if fingerprint_taken(a.completion_claims@, claim.fingerprint@) {
                Some(Rejection::ClaimFingerprintExists)
            } else {
                match claim.supersedes {
                    None => None,
                    Some(previous_id) => match lookup(a.completion_claims@, previous_id) {
                        None => Some(Rejection::ClaimSupersedesUnknown),
                        Some(previous) => if previous.task_id != claim.task_id
                            || previous.criterion_id != claim.criterion_id {
                            Some(Rejection::ClaimSupersedesOtherCriterion)
                        } else {
                            None
                        },
                    },
                }
            },
        }
    }
}

fn check_claim_evidence(state: &CurrentState, claim: &CompletionClaim) -> (r: Result<(), Rejection>)
    requires
        state.wf(),
    ensures
        match r {
            Ok(()) => first_evidence_rejection(
                state,
                claim.evidence_refs@,
                claim.as_of_sequence,
                0,
            ) is None,
            Err(e) => first_evidence_rejection(
                state,
                claim.evidence_refs@,
                claim.as_of_sequence,
                0,
            ) == Some(e),
        },
{
    let mut i: usize = 0;
    while i < claim.evidence_refs.len()
        invariant
            state.wf(),
            i <= claim.evidence_refs@.len(),
            first_evidence_rejection(state, claim.evidence_refs@, claim.as_of_sequence, 0)
                == first_evidence_rejection(
                state,
                claim.evidence_refs@,
                claim.as_of_sequence,
                i as int,
            ),
        decreases claim.evidence_refs@.len() - i,
    {
        match check_evidence_ref(state, &claim.evidence_refs[i], claim.as_of_sequence) {
            Err(e) => {
                return Err(e);
            },
            Ok(()) => {},
        }
        i = i + 1;
    }
    Ok(())
}

fn create_claim(state: &mut CurrentState, claim: CompletionClaim) -> (r: Result<(), Rejection>)
    requires
        old(state).wf(),
    ensures
        match r {
            Ok(()) => claim_rejection(old(state), claim) is None && stored(
                old(state).completion_claims@,
                final(state).completion_claims@,
                claim,
            ) && frame(old(state), final(state), set![Table::Claims]),
            Err(e) => claim_rejection(old(state), claim) == Some(e) && *final(state) == *old(state),
        },
        final(state).wf(),
        final(state).revision == old(state).revision,
        final(state).applied_events@ == old(state).applied_events@,
{
    if !crate::table::contains_key(&state.tasks, claim.task_id) {
        return Err(Rejection::ClaimUnknownTask);
    }
    match get(&state.completion_criteria, claim.criterion_id) {
        None => {
            return Err(Rejection::ClaimUnknownCriterion);
        },
        Some(criterion) => {
            if criterion.task_id != claim.task_id {
                return Err(Rejection::ClaimCriterionTaskMismatch);
            }
        },
    }
    if claim.disposition != VerificationDisposition::NeedsValidation {
        return Err(Rejection::ClaimNotNeedingValidation);
    }
    if claim.confidence > 100 {
        return Err(Rejection::ClaimConfidenceOutOfRange);
    }
    if claim.as_of_sequence > state.revision {
        return Err(Rejection::ClaimAsOfInFuture);
    }
    let expected = completion_fingerprint(claim.task_id, claim.criterion_id, &claim.evidence_refs);
    if claim.fingerprint != expected {
        return Err(Rejection::ClaimFingerprintMismatch);
    }
    match check_claim_evidence(state, &claim) {
        Err(e) => {
            return Err(e);
        },
        Ok(()) => {},
    }
    if crate::table::contains_key(&state.completion_claims, claim.id) {
        return Err(Rejection::ClaimIdExists);
    }
    if fingerprint_in_use(&state.completion_claims, &claim.fingerprint) {
        return Err(Rejection::ClaimFingerprintExists);
    }
    match claim.supersedes {
        None => {},
        Some(previous_id) => match get(&state.completion_claims, previous_id) {
            None => {
                return Err(Rejection::ClaimSupersedesUnknown);
            },
            Some(previous) => {
                if previous.task_id != claim.task_id || previous.criterion_id != claim.criterion_id {
                    return Err(Rejection::ClaimSupersedesOtherCriterion);
                }
            },
        },
    }
    upsert(&mut state.completion_claims, claim);
    Ok(())
}


/// Two lists of evidence name the same events, artifacts, hashes and
/// sequences in the same order.
pub open spec fn same_evidence(a: Seq<EvidenceRef>, b: Seq<EvidenceRef>) -> bool {
    &&& a.len() == b.len()
    &&& forall|i: int|
        0 <= i < a.len() ==> {
            &&& (#[trigger] a[i]).event_id == b[i].event_id
            &&& a[i].artifact_id == b[i].artifact_id
            &&& a[i].source_hash@ == b[i].source_hash@
            &&& a[i].as_of_sequence == b[i].as_of_sequence
        }
}

pub fn evidence_equal(a: &Vec<EvidenceRef>, b: &Vec<EvidenceRef>) -> (r: bool)
    ensures
        r == same_evidence(a@, b@),
{
    if a.len() != b.len() {
        return false;
    }
    let mut i: usize = 0;
    while i < a.len()
        invariant
            a@.len() == b@.len(),
            i <= a@.len(),
            forall|j: int|
                0 <= j < i ==> {
                    &&& (#[trigger] a@[j]).event_id == b@[j].event_id
                    &&& a@[j].artifact_id == b@[j].artifact_id
                    &&& a@[j].source_hash@ == b@[j].source_hash@
                    &&& a@[j].as_of_sequence == b@[j].as_of_sequence
                },
        decreases a@.len() - i,
    {
        let x = &a[i];
        let y = &b[i];
        if x.event_id != y.event_id || x.artifact_id != y.artifact_id || x.source_hash
            != y.source_hash || x.as_of_sequence != y.as_of_sequence {
            return false;
        }
        i = i + 1;
    }
    true
}

/// The disposition a claim transition event moves a claim to.
pub open spec fn transition_target(kind: EventKind) -> VerificationDisposition {
    if kind == EventKind::CompletionClaimVerified {
        VerificationDisposition::Verified
    } else {
        VerificationDisposition::Rejected
    }
}

/// Why a claim transition to `expected` is refused, if it is: the claim
/// must be known and awaiting validation, the transition must name it, give
/// a reason and carry its evidence; a claim is verified only with evidence
/// and without a blocker.
pub open spec fn transition_rejection(
    a: &CurrentState,
    t: CompletionClaimTransition,
    expected: VerificationDisposition,
) -> Option<Rejection> {
    match lookup(a.completion_claims@, t.claim_id) {
        None => Some(Rejection::TransitionUnknownClaim),
        Some(claim) => if claim.task_id != t.task_id || claim.criterion_id != t.criterion_id {
            Some(Rejection::TransitionIdentityMismatch)
        } else if claim.disposition != t.previous_disposition || t.previous_disposition
            != VerificationDisposition::NeedsValidation || t.disposition != expected {
            Some(Rejection::TransitionInvalidDisposition)
        } else if is_blank(t.reason@) {
            Some(Rejection::TransitionEmptyReason)
        } else if !same_evidence(t.evidence_refs@, claim.evidence_refs@) {
            Some(Rejection::TransitionEvidenceMismatch)
        } else if expected == VerificationDisposition::Verified && claim.evidence_refs@.len() == 0 {
            Some(Rejection::TransitionNeedsEvidence)
        } else if expected == VerificationDisposition::Verified && claim.blocker is Some
            && !is_blank(claim.blocker->0@) {
            Some(Rejection::TransitionBlocked)
        } else {
            None
        },
    }
}

/// The claim moved to a disposition.
pub open spec fn with_disposition(claim: CompletionClaim, d: VerificationDisposition) -> CompletionClaim {
    CompletionClaim { disposition: d, ..claim }
}

fn transition_claim(
    state: &mut CurrentState,
    t: CompletionClaimTransition,
    expected: VerificationDisposition,
) -> (r: Result<(), Rejection>)
    requires
        old(state).wf(),
    ensures
        match r {
            Ok(()) => transition_rejection(old(state), t, expected) is None && stored(
                old(state).completion_claims@,
                final(state).completion_claims@,
                with_disposition(lookup(old(state).completion_claims@, t.claim_id)->0, expected),
            ) && frame(old(state), final(state), set![Table::Claims]),
            Err(e) => transition_rejection(old(state), t, expected) == Some(e) && *final(state)
                == *old(state),
        },
        final(state).wf(),
        final(state).revision == old(state).revision,
        final(state).applied_events@ == old(state).applied_events@,
{
    let i = match find_index(&state.completion_claims, t.claim_id) {
        None => {
            return Err(Rejection::TransitionUnknownClaim);
        },
        Some(i) => i,
    };
    {
        let claim = &state.completion_claims[i];
        if claim.task_id != t.task_id || claim.criterion_id != t.criterion_id {
            return Err(Rejection::TransitionIdentityMismatch);
        }
        if claim.disposition != t.previous_disposition || t.previous_disposition
            != VerificationDisposition::NeedsValidation || t.disposition != expected {
            return Err(Rejection::TransitionInvalidDisposition);
        }
        if blank(t.reason.as_str()) {
            return Err(Rejection::TransitionEmptyReason);
        }
        if !evidence_equal(&t.evidence_refs, &claim.evidence_refs) {
            return Err(Rejection::TransitionEvidenceMismatch);
        }
        if expected == VerificationDisposition::Verified {
            if claim.evidence_refs.len() == 0 {
                return Err(Rejection::TransitionNeedsEvidence);
            }
            match &claim.blocker {
                Some(blocker) => {
                    if !blank(blocker.as_str()) {
                        return Err(Rejection::TransitionBlocked);
                    }
                },
                None => {},
            }
        }
    }
    let ghost before = state.completion_claims@;
    let mut claim = state.completion_claims.remove(i);
    claim.disposition = expected;
    state.completion_claims.insert(i, claim);
    proof {
        let row = with_disposition(before[i as int], expected);
        assert(state.completion_claims@ =~= before.update(i as int, row));
        lemma_update_at(before, i as int, row);
    }
    Ok(())
}

/// Why a sleep run event is refused, if it is. A run starts at the current
/// sleep cursor, at a revision already reached, with no cursor after it; a
/// later event on the run keeps its start and seed and ends it once, with
/// a cursor no further than its high water revision when it completes.
pub open spec fn sleep_rejection(a: &CurrentState, kind: EventKind, run: SleepRun) -> Option<
    Rejection,
> {
    if kind == EventKind::SleepRunStarted {
        if lookup(a.sleep_runs@, run.id) is Some || run.status != SleepRunStatus::Running
            || run.cursor_before != a.sleep_cursor || run.high_water_revision > a.revision
            || run.cursor_after is Some {
            Some(Rejection::InvalidSleepRunStart)
        } else {
            None
        }
    } else {
        match lookup(a.sleep_runs@, run.id) {
            None => Some(Rejection::SleepRunWithoutStart),
            Some(previous) => if previous.status != SleepRunStatus::Running || run.cursor_before
                != previous.cursor_before || run.high_water_revision
                != previous.high_water_revision || run.seed_event_ids@
                != previous.seed_event_ids@ {
                Some(Rejection::InvalidSleepRunTransition)
            } else if kind == EventKind::SleepRunCompleted {
                match run.cursor_after {
                    None => Some(Rejection::CompletedSleepRunWithoutCursor),
                    Some(after) => if run.status != SleepRunStatus::Completed || after
                        < run.cursor_before || after > run.high_water_revision {
                        Some(Rejection::InvalidCompletedSleepCursor)
                    } else {
                        None
                    },
                }
            } else if kind == EventKind::SleepRunInterrupted {
                if run.status != SleepRunStatus::Interrupted || run.cursor_after is Some {
                    Some(Rejection::InvalidInterruptedSleepRun)
                } else {
                    None
                }
            } else if run.status != SleepRunStatus::Failed || run.cursor_after is Some {
                Some(Rejection::InvalidFailedSleepRun)
            } else {
                None
            },
        }
    }
}

/// The run is stored, and a completed run moves the sleep cursor to where
/// it ended.
pub open spec fn sleep_effect(a: &CurrentState, b: &CurrentState, kind: EventKind, run: SleepRun) -> bool {
    &&& stored(a.sleep_runs@, b.sleep_runs@, run)
    &&& b.sleep_cursor == if kind == EventKind::SleepRunCompleted {
        run.cursor_after->0
    } else {
        a.sleep_cursor
    }
    &&& frame(a, b, set![Table::SleepRuns, Table::SleepCursor])
}

pub fn ids_equal(a: &Vec<u128>, b: &Vec<u128>) -> (r: bool)
    ensures
        r == (a@ == b@),
{
    if a.len() != b.len() {
        return false;
    }
    let mut i: usize = 0;
    while i < a.len()
        invariant
            a@.len() == b@.len(),
            i <= a@.len(),
            forall|j: int| 0 <= j < i ==> a@[j] == b@[j],
        decreases a@.len() - i,
    {
        if a[i] != b[i] {
            return false;
        }
        i = i + 1;
    }
    proof {
        assert(a@ =~= b@);
    }
    true
}

fn record_sleep_run(state: &mut CurrentState, kind: EventKind, run: SleepRun) -> (r: Result<
    (),
    Rejection,
>)
    requires
        old(state).wf(),
        kind == EventKind::SleepRunStarted || kind == EventKind::SleepRunCompleted || kind
            == EventKind::SleepRunInterrupted || kind == EventKind::SleepRunFailed,
    ensures
        match r {
            Ok(()) => sleep_rejection(old(state), kind, run) is None && sleep_effect(
                old(state),
                final(state),
                kind,
                run,
            ),
            Err(e) => sleep_rejection(old(state), kind, run) == Some(e) && *final(state)
                == *old(state),
        },
        final(state).wf(),
        final(state).revision == old(state).revision,
        final(state).applied_events@ == old(state).applied_events@,
{
    if kind == EventKind::SleepRunStarted {
        if crate::table::contains_key(&state.sleep_runs, run.id) || run.status
            != SleepRunStatus::Running || run.cursor_before != state.sleep_cursor
            || run.high_water_revision > state.revision || run.cursor_after.is_some() {
            return Err(Rejection::InvalidSleepRunStart);
        }
    } else {
        match get(&state.sleep_runs, run.id) {
            None => {
                return Err(Rejection::SleepRunWithoutStart);
            },
            Some(previous) => {
                if previous.status != SleepRunStatus::Running || run.cursor_before
                    != previous.cursor_before || run.high_water_revision
                    != previous.high_water_revision || !ids_equal(
                    &run.seed_event_ids,
                    &previous.seed_event_ids,
                ) {
                    return Err(Rejection::InvalidSleepRunTransition);
                }
            },
        }
        if kind == EventKind::SleepRunCompleted {
            match run.cursor_after {
                None => {
                    return Err(Rejection::CompletedSleepRunWithoutCursor);
                },
                Some(after) => {
                    if run.status != SleepRunStatus::Completed || after < run.cursor_before
                        || after > run.high_water_revision {
                        return Err(Rejection::InvalidCompletedSleepCursor);
                    }
                    state.sleep_cursor = after;
                },
            }
        } else if kind == EventKind::SleepRunInterrupted {
            if run.status != SleepRunStatus::Interrupted || run.cursor_after.is_some() {
                return Err(Rejection::InvalidInterruptedSleepRun);
            }
        } else {
            if run.status != SleepRunStatus::Failed || run.cursor_after.is_some() {
                return Err(Rejection::InvalidFailedSleepRun);
            }
        }
    }
    upsert(&mut state.sleep_runs, run);
    Ok(())
}


/// Whether every identifier is an applied event.
pub open spec fn all_applied(a: &CurrentState, ids: Seq<EventId>) -> bool {
    forall|i: int| 0 <= i < ids.len() ==> a.applied_events@.contains(#[trigger] ids[i])
}

/// Whether no source is also counterevidence.
pub open spec fn disjoint(sources: Seq<EventId>, counters: Seq<EventId>) -> bool {
    forall|i: int| 0 <= i < sources.len() ==> !counters.contains(#[trigger] sources[i])
}

/// Whether some stored candidate has this fingerprint.
pub open spec fn candidate_fingerprint_taken(
    candidates: Seq<IntegrationCandidate>,
    fingerprint: Seq<char>,
) -> bool {
    exists|i: int| 0 <= i < candidates.len() && (#[trigger] candidates[i]).fingerprint@ == fingerprint
}

/// Why a new integration candidate is refused, if it is: it must await
/// validation, have content, a rationale and 1 to the maximum of sources,
/// at most the maximum of counterevidence and a confidence up to 100; its
/// events must be applied and no source may be counterevidence; it belongs
/// to a running sleep run at that run's high water revision; its
/// fingerprint must be its own and new.
pub open spec fn candidate_rejection(a: &CurrentState, c: IntegrationCandidate) -> Option<Rejection> {
    if c.disposition != VerificationDisposition::NeedsValidation || is_blank(c.content@) || is_blank(
        c.rationale@,
    ) || c.source_event_ids@.len() == 0 || c.source_event_ids@.len() > MAX_CANDIDATE_SOURCES
        || c.counterevidence_event_ids@.len() > MAX_CANDIDATE_SOURCES || c.confidence > 100 {
        Some(Rejection::CandidateInvalid)
    } else if !all_applied(a, c.source_event_ids@) || !all_applied(a, c.counterevidence_event_ids@)
        || !disjoint(c.source_event_ids@, c.counterevidence_event_ids@) {
        Some(Rejection::CandidateProvenanceUnknown)
    } else {
        match lookup(a.sleep_runs@, c.sleep_run_id) {
            None => Some(Rejection::CandidateWithoutRun),
            Some(run) => if run.status != SleepRunStatus::Running {
                Some(Rejection::CandidateRunNotRunning)
            } else if c.as_of_revision != run.high_water_revision {
                Some(Rejection::CandidateRevisionMismatch)
            } else if c.fingerprint@ != spec_candidate_fingerprint(
                c.kind,
                c.content@,
                c.source_event_ids@,
                c.counterevidence_event_ids@,
            ) || candidate_fingerprint_taken(a.integration_candidates@, c.fingerprint@) {
                Some(Rejection::CandidateFingerprint)
            } else {
                None
            },
        }
    }
}

pub fn ids_applied(state: &CurrentState, ids: &Vec<EventId>) -> (r: bool)
    ensures
        r == all_applied(state, ids@),
{
    let mut i: usize = 0;
    while i < ids.len()
        invariant
            i <= ids@.len(),
            forall|j: int| 0 <= j < i ==> state.applied_events@.contains(#[trigger] ids@[j]),
        decreases ids@.len() - i,
    {
        if !crate::model::contains_id(&state.applied_events, ids[i]) {
            return false;
        }
        i = i + 1;
    }
    true
}

fn ids_disjoint(sources: &Vec<EventId>, counters: &Vec<EventId>) -> (r: bool)
    ensures
        r == disjoint(sources@, counters@),
{
    let mut i: usize = 0;
    while i < sources.len()
        invariant
            i <= sources@.len(),
            forall|j: int| 0 <= j < i ==> !counters@.contains(#[trigger] sources@[j]),
        decreases sources@.len() - i,
    {
        if crate::model::contains_id(counters, sources[i]) {
            return false;
        }
        i = i + 1;
    }
    true
}

fn candidate_fingerprint_in_use(candidates: &Vec<IntegrationCandidate>, fingerprint: &String) -> (r: bool)
    ensures
        r == candidate_fingerprint_taken(candidates@, fingerprint@),
{
    let mut i: usize = 0;
    while i < candidates.len()
        invariant
            i <= candidates@.len(),
            forall|j: int| 0 <= j < i ==> (#[trigger] candidates@[j]).fingerprint@ != fingerprint@,
        decreases candidates@.len() - i,
    {
        if candidates[i].fingerprint == *fingerprint {
            proof {
                assert(candidates@[i as int].fingerprint@ == fingerprint@);
            }
            return true;
        }
        i = i + 1;
    }
    false
}

/// An undated candidate as it is stored: one whose revision reads zero
/// takes the high water revision of its sleep run, where the run exists.
pub open spec fn dated(a: &CurrentState, c: IntegrationCandidate) -> IntegrationCandidate {
    if c.as_of_revision == 0 {
        match lookup(a.sleep_runs@, c.sleep_run_id) {
            Some(run) => IntegrationCandidate { as_of_revision: run.high_water_revision, ..c },
            None => c,
        }
    } else {
        c
    }
}

fn date_candidate(state: &CurrentState, c: IntegrationCandidate) -> (r: IntegrationCandidate)
    requires
        state.wf(),
    ensures
        r == dated(state, c),
{
    if c.as_of_revision == 0 {
        match get(&state.sleep_runs, c.sleep_run_id) {
            Some(run) => IntegrationCandidate { as_of_revision: run.high_water_revision, ..c },
            None => c,
        }
    } else {
        c
    }
}

fn create_candidate(state: &mut CurrentState, c: IntegrationCandidate) -> (r: Result<(), Rejection>)
    requires
        old(state).wf(),
    ensures
        match r {
            Ok(()) => candidate_rejection(old(state), c) is None && stored(
                old(state).integration_candidates@,
                final(state).integration_candidates@,
                c,
            ) && frame(old(state), final(state), set![Table::IntegrationCandidates]),
            Err(e) => candidate_rejection(old(state), c) == Some(e) && *final(state) == *old(state),
        },
        final(state).wf(),
        final(state).revision == old(state).revision,
        final(state).applied_events@ == old(state).applied_events@,
{
    if c.disposition != VerificationDisposition::NeedsValidation || blank(c.content.as_str())
        || blank(c.rationale.as_str()) || c.source_event_ids.len() == 0
        || c.source_event_ids.len() > MAX_CANDIDATE_SOURCES || c.counterevidence_event_ids.len()
        > MAX_CANDIDATE_SOURCES || c.confidence > 100 {
        return Err(Rejection::CandidateInvalid);
    }
    if !ids_applied(state, &c.source_event_ids) || !ids_applied(state, &c.counterevidence_event_ids)
        || !ids_disjoint(&c.source_event_ids, &c.counterevidence_event_ids) {
        return Err(Rejection::CandidateProvenanceUnknown);
    }
    match get(&state.sleep_runs, c.sleep_run_id) {
        None => {
            return Err(Rejection::CandidateWithoutRun);
        },
        Some(run) => {
            if run.status != SleepRunStatus::Running {
                return Err(Rejection::CandidateRunNotRunning);
            }
            if c.as_of_revision != run.high_water_revision {
                return Err(Rejection::CandidateRevisionMismatch);
            }
        },
    }
    let expected = candidate_fingerprint(
        c.kind,
        c.content.as_str(),
        &c.source_event_ids,
        &c.counterevidence_event_ids,
    );
    if c.fingerprint != expected || candidate_fingerprint_in_use(
        &state.integration_candidates,
        &c.fingerprint,
    ) {
        return Err(Rejection::CandidateFingerprint);
    }
    upsert(&mut state.integration_candidates, c);
    Ok(())
}

/// Why a piece of evidence for an integration verdict is refused, if it
/// is: its hash is SHA-256 hex, it is no newer than the verdict, it names
/// one of the candidate's events, that event is applied no later than
/// either as-of revision, and an artifact it names comes from that event
/// with that hash.
pub open spec fn integration_evidence_rejection(
    a: &CurrentState,
    c: IntegrationCandidate,
    ev: EvidenceRef,
    as_of: u64,
) -> Option<Rejection> {
    if !is_sha256_hex(ev.source_hash@) {
        Some(Rejection::IntegrationEvidenceHash)
    } else if ev.as_of_sequence > as_of {
        Some(Rejection::IntegrationEvidenceNewer)
    } else if !(c.source_event_ids@.contains(ev.event_id) || c.counterevidence_event_ids@.contains(
        ev.event_id,
    )) {
        Some(Rejection::IntegrationEvidenceOutside)
    } else {
        match first_position(a.applied_events@, ev.event_id, 0) {
            None => Some(Rejection::EvidenceUnknownEvent),
            Some(i) => if i + 1 > ev.as_of_sequence || i + 1 > as_of {
                Some(Rejection::IntegrationEvidenceEventNewer)
            } else {
                match ev.artifact_id {
                    None => None,
                    Some(artifact_id) => match lookup(a.artifacts@, artifact_id) {
                        None => Some(Rejection::EvidenceUnknownArtifact),
                        Some(artifact) => if artifact.provenance_event_id != ev.event_id
                            || artifact.content_hash@ != ev.source_hash@ {
                            Some(Rejection::IntegrationArtifactMismatch)
                        } else {
                            None
                        },
                    },
                }
            },
        }
    }
}

/// The refusal of the first piece of integration evidence from `from` on
/// that is refused, if any.
pub open spec fn first_integration_evidence_rejection(
    a: &CurrentState,
    c: IntegrationCandidate,
    evidence: Seq<EvidenceRef>,
    as_of: u64,
    from: int,
) -> Option<Rejection>
    decreases evidence.len() - from,
{
    if from < 0 || from >= evidence.len() {
        None
    } else {
        match integration_evidence_rejection(a, c, evidence[from], as_of) {
            Some(r) => Some(r),
            None => first_integration_evidence_rejection(a, c, evidence, as_of, from + 1),
        }
    }
}

pub fn check_integration_evidence(
    state: &CurrentState,
    c: &IntegrationCandidate,
    evidence: &Vec<EvidenceRef>,
    as_of: u64,
) -> (r: Result<(), Rejection>)
    requires
        state.wf(),
    ensures
        match r {
            Ok(()) => first_integration_evidence_rejection(state, *c, evidence@, as_of, 0) is None,
            Err(e) => first_integration_evidence_rejection(state, *c, evidence@, as_of, 0) == Some(e),
        },
{
    let mut i: usize = 0;
    while i < evidence.len()
        invariant
            state.wf(),
            i <= evidence@.len(),
            first_integration_evidence_rejection(state, *c, evidence@, as_of, 0)
                == first_integration_evidence_rejection(state, *c, evidence@, as_of, i as int),
        decreases evidence@.len() - i,
    {
        let ev = &evidence[i];
        if !valid_sha256_hex(ev.source_hash.as_str()) {
            return Err(Rejection::IntegrationEvidenceHash);
        }
        if ev.as_of_sequence > as_of {
            return Err(Rejection::IntegrationEvidenceNewer);
        }
        if !(crate::model::contains_id(&c.source_event_ids, ev.event_id)
            || crate::model::contains_id(&c.counterevidence_event_ids, ev.event_id)) {
            return Err(Rejection::IntegrationEvidenceOutside);
        }
        match event_position(&state.applied_events, ev.event_id) {
            None => {
                return Err(Rejection::EvidenceUnknownEvent);
            },
            Some(k) => {
                if k as u64 >= ev.as_of_sequence || k as u64 >= as_of {
                    return Err(Rejection::IntegrationEvidenceEventNewer);
                }
            },
        }
        match ev.artifact_id {
            None => {},
            Some(artifact_id) => match get(&state.artifacts, artifact_id) {
                None => {
                    return Err(Rejection::EvidenceUnknownArtifact);
                },
                Some(artifact) => {
                    if artifact.provenance_event_id != ev.event_id || artifact.content_hash
                        != ev.source_hash {
                        return Err(Rejection::IntegrationArtifactMismatch);
                    }
                },
            },
        }
        i = i + 1;
    }
    Ok(())
}

/// The disposition an integration verdict event moves a candidate to.
pub open spec fn integration_target(kind: EventKind) -> VerificationDisposition {
    if kind == EventKind::IntegrationCandidateVerified {
        VerificationDisposition::Verified
    } else {
        VerificationDisposition::Rejected
    }
}

/// Why an integration verdict is refused, if it is: its subject is the
/// candidate, its actor is the event's and a known principal other than
/// the model, the candidate awaits validation and goes where the event
/// says, the reason is not blank, the verdict is as of the candidate's
/// revision (no newer than the state), the candidate's fingerprint is its
/// own, and the verdict has evidence that holds.
pub open spec fn verification_rejection(
    a: &CurrentState,
    subject: Option<EntityRef>,
    actor_id: PrincipalId,
    v: IntegrationVerification,
    expected: VerificationDisposition,
) -> Option<Rejection> {
    if subject != Some(EntityRef { kind: EntityKind::IntegrationCandidate, id: v.candidate_id }) {
        Some(Rejection::VerificationSubjectMismatch)
    } else if actor_id != v.actor_id {
        Some(Rejection::VerificationActorMismatch)
    } else if lookup(a.principals@, v.actor_id) is None || is_model_actor(a, v.actor_id) {
        Some(Rejection::VerificationActorIneligible)
    } else {
        match lookup(a.integration_candidates@, v.candidate_id) {
            None => Some(Rejection::VerificationUnknownCandidate),
            Some(c) => if c.disposition != v.previous_disposition || v.previous_disposition
                != VerificationDisposition::NeedsValidation || v.new_disposition != expected {
                Some(Rejection::VerificationInvalidTransition)
            } else if is_blank(v.reason@) {
                Some(Rejection::VerificationEmptyReason)
            } else if v.as_of_revision != c.as_of_revision || v.as_of_revision > a.revision {
                Some(Rejection::VerificationInvalidAsOf)
            } else if c.fingerprint@ != spec_candidate_fingerprint(
                c.kind,
                c.content@,
                c.source_event_ids@,
                c.counterevidence_event_ids@,
            ) {
                Some(Rejection::CandidateFingerprintMismatch)
            } else if v.evidence_refs@.len() == 0 {
                Some(Rejection::VerificationNeedsEvidence)
            } else {
                first_integration_evidence_rejection(a, c, v.evidence_refs@, v.as_of_revision, 0)
            },
        }
    }
}

/// The candidate moved to a disposition.
pub open spec fn candidate_with(c: IntegrationCandidate, d: VerificationDisposition) -> IntegrationCandidate {
    IntegrationCandidate { disposition: d, ..c }
}

/// `b` is `a` with the verdict stored under its candidate, its reason
/// trimmed.
pub open spec fn verification_stored(
    a: Seq<IntegrationVerification>,
    b: Seq<IntegrationVerification>,
    v: IntegrationVerification,
) -> bool {
    &&& sorted_keys(b)
    &&& forall|k: u128| #![trigger lookup(b, k)] k != v.candidate_id ==> lookup(b, k) == lookup(a, k)
    &&& lookup(b, v.candidate_id) is Some
    &&& {
        let s = lookup(b, v.candidate_id)->0;
        &&& s.candidate_id == v.candidate_id
        &&& s.previous_disposition == v.previous_disposition
        &&& s.new_disposition == v.new_disposition
        &&& s.actor_id == v.actor_id
        &&& s.reason@ == trim(v.reason@)
        &&& s.evidence_refs@ == v.evidence_refs@
        &&& s.as_of_revision == v.as_of_revision
    }
}

/// A verdict moves its candidate and is stored.
pub open spec fn integration_verdict_effect(
    a: &CurrentState,
    b: &CurrentState,
    v: IntegrationVerification,
    expected: VerificationDisposition,
) -> bool {
    &&& stored(
        a.integration_candidates@,
        b.integration_candidates@,
        candidate_with(lookup(a.integration_candidates@, v.candidate_id)->0, expected),
    )
    &&& verification_stored(a.integration_verifications@, b.integration_verifications@, v)
    &&& frame(a, b, set![Table::IntegrationCandidates, Table::IntegrationVerifications])
}

fn judge_candidate(
    state: &mut CurrentState,
    subject: Option<EntityRef>,
    actor_id: PrincipalId,
    v: IntegrationVerification,
    expected: VerificationDisposition,
) -> (r: Result<(), Rejection>)
    requires
        old(state).wf(),
    ensures
        match r {
            Ok(()) => verification_rejection(old(state), subject, actor_id, v, expected) is None
                && integration_verdict_effect(old(state), final(state), v, expected),
            Err(e) => verification_rejection(old(state), subject, actor_id, v, expected) == Some(e)
                && *final(state) == *old(state),
        },
        final(state).wf(),
        final(state).revision == old(state).revision,
        final(state).applied_events@ == old(state).applied_events@,
{
    match subject {
        Some(s) => {
            if !(s.kind == EntityKind::IntegrationCandidate && s.id == v.candidate_id) {
                return Err(Rejection::VerificationSubjectMismatch);
            }
        },
        None => {
            return Err(Rejection::VerificationSubjectMismatch);
        },
    }
    if actor_id != v.actor_id {
        return Err(Rejection::VerificationActorMismatch);
    }
    if !crate::table::contains_key(&state.principals, v.actor_id) || model_actor(state, v.actor_id) {
        return Err(Rejection::VerificationActorIneligible);
    }
    let i = match find_index(&state.integration_candidates, v.candidate_id) {
        None => {
            return Err(Rejection::VerificationUnknownCandidate);
        },
        Some(i) => i,
    };
    {
        let c = &state.integration_candidates[i];
        if c.disposition != v.previous_disposition || v.previous_disposition
            != VerificationDisposition::NeedsValidation || v.new_disposition != expected {
            return Err(Rejection::VerificationInvalidTransition);
        }
        if blank(v.reason.as_str()) {
            return Err(Rejection::VerificationEmptyReason);
        }
        if v.as_of_revision != c.as_of_revision || v.as_of_revision > state.revision {
            return Err(Rejection::VerificationInvalidAsOf);
        }
        let expected_fingerprint = candidate_fingerprint(
            c.kind,
            c.content.as_str(),
            &c.source_event_ids,
            &c.counterevidence_event_ids,
        );
        if c.fingerprint != expected_fingerprint {
            return Err(Rejection::CandidateFingerprintMismatch);
        }
        if v.evidence_refs.len() == 0 {
            return Err(Rejection::VerificationNeedsEvidence);
        }
        match check_integration_evidence(state, c, &v.evidence_refs, v.as_of_revision) {
            Err(e) => {
                return Err(e);
            },
            Ok(()) => {},
        }
    }
    let ghost before = state.integration_candidates@;
    let mut c = state.integration_candidates.remove(i);
    c.disposition = expected;
    state.integration_candidates.insert(i, c);
    proof {
        let row = candidate_with(before[i as int], expected);
        assert(state.integration_candidates@ =~= before.update(i as int, row));
        lemma_update_at(before, i as int, row);
    }
    let stored_verdict = IntegrationVerification {
        candidate_id: v.candidate_id,
        previous_disposition: v.previous_disposition,
        new_disposition: v.new_disposition,
        actor_id: v.actor_id,
        reason: trimmed(v.reason.as_str()),
        evidence_refs: v.evidence_refs,
        as_of_revision: v.as_of_revision,
    };
    upsert(&mut state.integration_verifications, stored_verdict);
    Ok(())
}

/// Why a materialization is refused, if it is: its subject is a verified
/// Memory candidate not yet materialized, it repeats the candidate's
/// fingerprint and provenance and the verdict's evidence, its Memory
/// candidate and Memory are the promoted lesson made of the candidate, and
/// its evidence holds.
pub open spec fn materialization_rejection(
    a: &CurrentState,
    subject: Option<EntityRef>,
    m: IntegrationMaterialization,
) -> Option<Rejection> {
    if subject != Some(EntityRef { kind: EntityKind::IntegrationCandidate, id: m.candidate_id }) {
        Some(Rejection::MaterializationSubjectMismatch)
    } else {
        match lookup(a.integration_candidates@, m.candidate_id) {
            None => Some(Rejection::MaterializationUnknownCandidate),
            Some(c) => if c.disposition != VerificationDisposition::Verified {
                Some(Rejection::MaterializationNotVerified)
            } else if lookup(a.integration_materializations@, m.candidate_id) is Some {
                Some(Rejection::MaterializationRepeated)
            } else if spec_candidate_fingerprint(
                c.kind,
                c.content@,
                c.source_event_ids@,
                c.counterevidence_event_ids@,
            ) != m.fingerprint@ {
                Some(Rejection::MaterializationFingerprint)
            } else if c.kind != IntegrationCandidateKind::Memory {
                Some(Rejection::MaterializationKind)
            } else if m.source_event_ids@ != c.source_event_ids@ || m.counterevidence_event_ids@
                != c.counterevidence_event_ids@ || m.as_of_revision != c.as_of_revision {
                Some(Rejection::MaterializationProvenance)
            } else {
                match lookup(a.integration_verifications@, m.candidate_id) {
                    None => Some(Rejection::MaterializationNoVerification),
                    Some(v) => if v.new_disposition != VerificationDisposition::Verified
                        || !same_evidence(m.evidence_refs@, v.evidence_refs@) {
                        Some(Rejection::MaterializationEvidence)
                    } else {
                        match lookup(a.memory_candidates@, m.memory_candidate_id) {
                            None => Some(Rejection::MaterializationUnknownMemoryCandidate),
                            Some(mc) => if mc.status != MemoryCandidateStatus::Promoted || mc.kind
                                != MemoryKind::Lesson || mc.content@ != c.content@
                                || mc.source_event_ids@ != c.source_event_ids@ {
                                Some(Rejection::MaterializationMemoryCandidate)
                            } else {
                                match lookup(a.active_memories@, m.memory_id) {
                                    None => Some(Rejection::MaterializationUnknownMemory),
                                    Some(memory) => if memory.status != ActiveMemoryStatus::Active
                                        || memory.candidate_id != m.memory_candidate_id {
                                        Some(Rejection::MaterializationMemory)
                                    } else {
                                        first_integration_evidence_rejection(
                                            a,
                                            c,
                                            m.evidence_refs@,
                                            m.as_of_revision,
                                            0,
                                        )
                                    },
                                }
                            },
                        }
                    },
                }
            },
        }
    }
}

fn materialize(state: &mut CurrentState, subject: Option<EntityRef>, m: IntegrationMaterialization) -> (r:
    Result<(), Rejection>)
    requires
        old(state).wf(),
    ensures
        match r {
            Ok(()) => materialization_rejection(old(state), subject, m) is None && stored(
                old(state).integration_materializations@,
                final(state).integration_materializations@,
                m,
            ) && frame(old(state), final(state), set![Table::IntegrationMaterializations]),
            Err(e) => materialization_rejection(old(state), subject, m) == Some(e) && *final(state)
                == *old(state),
        },
        final(state).wf(),
        final(state).revision == old(state).revision,
        final(state).applied_events@ == old(state).applied_events@,
{
    match subject {
        Some(s) => {
            if !(s.kind == EntityKind::IntegrationCandidate && s.id == m.candidate_id) {
                return Err(Rejection::MaterializationSubjectMismatch);
            }
        },
        None => {
            return Err(Rejection::MaterializationSubjectMismatch);
        },
    }
    let c = match get(&state.integration_candidates, m.candidate_id) {
        None => {
            return Err(Rejection::MaterializationUnknownCandidate);
        },
        Some(c) => c,
    };
    if c.disposition != VerificationDisposition::Verified {
        return Err(Rejection::MaterializationNotVerified);
    }
    if crate::table::contains_key(&state.integration_materializations, m.candidate_id) {
        return Err(Rejection::MaterializationRepeated);
    }
    let expected = candidate_fingerprint(
        c.kind,
        c.content.as_str(),
        &c.source_event_ids,
        &c.counterevidence_event_ids,
    );
    if expected != m.fingerprint {
        return Err(Rejection::MaterializationFingerprint);
    }
    if c.kind != IntegrationCandidateKind::Memory {
        return Err(Rejection::MaterializationKind);
    }
    if !ids_equal(&m.source_event_ids, &c.source_event_ids) || !ids_equal(
        &m.counterevidence_event_ids,
        &c.counterevidence_event_ids,
    ) || m.as_of_revision != c.as_of_revision {
        return Err(Rejection::MaterializationProvenance);
    }
    match get(&state.integration_verifications, m.candidate_id) {
        None => {
            return Err(Rejection::MaterializationNoVerification);
        },
        Some(v) => {
            if v.new_disposition != VerificationDisposition::Verified || !evidence_equal(
                &m.evidence_refs,
                &v.evidence_refs,
            ) {
                return Err(Rejection::MaterializationEvidence);
            }
        },
    }
    match get(&state.memory_candidates, m.memory_candidate_id) {
        None => {
            return Err(Rejection::MaterializationUnknownMemoryCandidate);
        },
        Some(mc) => {
            if mc.status != MemoryCandidateStatus::Promoted || mc.kind != MemoryKind::Lesson
                || mc.content != c.content || !ids_equal(&mc.source_event_ids, &c.source_event_ids) {
                return Err(Rejection::MaterializationMemoryCandidate);
            }
        },
    }
    match get(&state.active_memories, m.memory_id) {
        None => {
            return Err(Rejection::MaterializationUnknownMemory);
        },
        Some(memory) => {
            if memory.status != ActiveMemoryStatus::Active || memory.candidate_id
                != m.memory_candidate_id {
                return Err(Rejection::MaterializationMemory);
            }
        },
    }
    match check_integration_evidence(state, c, &m.evidence_refs, m.as_of_revision) {
        Err(e) => {
            return Err(e);
        },
        Ok(()) => {},
    }
    upsert(&mut state.integration_materializations, m);
    Ok(())
}

/// The refusal the model principal meets on a completion-claim event: the
/// model may not create, verify or reject completion claims.
pub open spec fn model_rejection(kind: EventKind) -> Option<Rejection> {
    match kind {
        EventKind::CompletionClaimCreated => Some(Rejection::ModelCannotCreateClaims),
        EventKind::CompletionClaimVerified => Some(Rejection::ModelCannotVerifyClaims),
        EventKind::CompletionClaimRejected => Some(Rejection::ModelCannotRejectClaims),
        _ => None,
    }
}

fn model_rejection_of(kind: EventKind) -> (r: Option<Rejection>)
    ensures
        r == model_rejection(kind),
{
    match kind {
        EventKind::CompletionClaimCreated => Some(Rejection::ModelCannotCreateClaims),
        EventKind::CompletionClaimVerified => Some(Rejection::ModelCannotVerifyClaims),
        EventKind::CompletionClaimRejected => Some(Rejection::ModelCannotRejectClaims),
        _ => None,
    }
}

/// Why the event's payload is refused against the state, if it is.
pub open spec fn payload_rejection(a: &CurrentState, e: ExperienceEvent) -> Option<Rejection> {
    if model_rejection(e.event_kind) is Some && is_model_actor(a, e.actor_id) {
        model_rejection(e.event_kind)
    } else if decode_error(e.event_kind, e.payload) is Some {
        decode_error(e.event_kind, e.payload)
    } else if !reads_payload(e.event_kind) {
        None
    } else {
        match e.payload {
            Payload::Task(t) => if e.event_kind == EventKind::TaskCompleted {
                completion_rejection(a, e.subject, t)
            } else {
                None
            },
            Payload::Criterion(c) => criterion_rejection(a, c),
            Payload::Claim(c) => claim_rejection(a, c),
            Payload::ClaimTransition(t) => transition_rejection(
                a,
                t,
                transition_target(e.event_kind),
            ),
            Payload::SleepRun(run) => sleep_rejection(a, e.event_kind, run),
            Payload::IntegrationCandidate(c) => candidate_rejection(a, c),
            Payload::UndatedIntegrationCandidate(c) => candidate_rejection(a, dated(a, c)),
            Payload::IntegrationVerification(v) => verification_rejection(
                a,
                e.subject,
                e.actor_id,
                v,
                integration_target(e.event_kind),
            ),
            Payload::IntegrationMaterialization(m) => materialization_rejection(a, e.subject, m),
            _ => None,
        }
    }
}

/// Why the state refuses the event, if it does: an event is applied once,
/// and its payload must pass the checks of its kind.
pub open spec fn rejection(a: &CurrentState, e: ExperienceEvent) -> Option<ProjectionError> {
    if a.applied_events@.contains(e.event_id) {
        Some(ProjectionError::Duplicate(e.event_id))
    } else {
        match payload_rejection(a, e) {
            Some(reason) => Some(ProjectionError::InvalidPayload { event_kind: e.event_kind, reason }),
            None => None,
        }
    }
}

/// What an accepted event does to the tables.
pub open spec fn effect(a: &CurrentState, b: &CurrentState, e: ExperienceEvent) -> bool {
    match plain_table(e.event_kind) {
        Some(t) => stored_in(a, b, t, e.payload) && frame(a, b, set![t]),
        None => if !reads_payload(e.event_kind) {
            frame(a, b, Set::empty())
        } else {
            match e.payload {
                Payload::IdentityVersion(iv) => identity_effect(a, b, iv),
                Payload::Task(t) => stored(a.tasks@, b.tasks@, t) && frame(a, b, set![Table::Tasks]),
                Payload::Position(p) => revised(a.positions@, b.positions@, p) && frame(
                    a,
                    b,
                    set![Table::Positions],
                ),
                Payload::Conflict(c) => conflict_effect(a, b, c),
                Payload::Criterion(c) => criterion_stored(
                    a.completion_criteria@,
                    b.completion_criteria@,
                    c,
                ) && frame(a, b, set![Table::Criteria]),
                Payload::Claim(c) => stored(a.completion_claims@, b.completion_claims@, c) && frame(
                    a,
                    b,
                    set![Table::Claims],
                ),
                Payload::ClaimTransition(t) => stored(
                    a.completion_claims@,
                    b.completion_claims@,
                    with_disposition(
                        lookup(a.completion_claims@, t.claim_id)->0,
                        transition_target(e.event_kind),
                    ),
                ) && frame(a, b, set![Table::Claims]),
                Payload::Verification(v) => verification_effect(a, b, v),
                Payload::Memory(m) => memory_effect(a, b, m),
                Payload::SleepRun(run) => sleep_effect(a, b, e.event_kind, run),
                Payload::IntegrationCandidate(c) => stored(
                    a.integration_candidates@,
                    b.integration_candidates@,
                    c,
                ) && frame(a, b, set![Table::IntegrationCandidates]),
                Payload::UndatedIntegrationCandidate(c) => stored(
                    a.integration_candidates@,
                    b.integration_candidates@,
                    dated(a, c),
                ) && frame(a, b, set![Table::IntegrationCandidates]),
                Payload::IntegrationVerification(v) => integration_verdict_effect(
                    a,
                    b,
                    v,
                    integration_target(e.event_kind),
                ),
                Payload::IntegrationMaterialization(m) => stored(
                    a.integration_materializations@,
                    b.integration_materializations@,
                    m,
                ) && frame(a, b, set![Table::IntegrationMaterializations]),
                _ => false,
            }
        },
    }
}

/// `b` is `a` with the event applied: its effect on the tables, the
/// revision one further and the event recorded as applied.
pub open spec fn applied(a: &CurrentState, b: &CurrentState, e: ExperienceEvent) -> bool {
    &&& b.wf()
    &&& b.revision == a.revision + 1
    &&& b.applied_events@ == a.applied_events@.push(e.event_id)
    &&& effect(a, b, e)
}

/// `states` is the run of `events` from `start`: each state is the one
/// before it with the next event applied, none refused.
pub open spec fn trace(start: CurrentState, events: Seq<ExperienceEvent>, states: Seq<CurrentState>) -> bool {
    &&& states.len() == events.len() + 1
    &&& states[0] == start
    &&& forall|i: int|
        #![trigger events[i]]
        0 <= i < events.len() ==> rejection(&states[i], events[i]) is None && applied(
            &states[i],
            &states[i + 1],
            events[i],
        )
}

/// `s` is `start` with every event applied in order, none refused.
pub open spec fn replays_from(start: CurrentState, events: Seq<ExperienceEvent>, s: CurrentState) -> bool {
    exists|states: Seq<CurrentState>| #[trigger] trace(start, events, states) && states.last() == s
}

/// Applying the events to `start` in order stops at one that is refused
/// with `err`.
pub open spec fn refused_from(start: CurrentState, events: Seq<ExperienceEvent>, err: ProjectionError) -> bool {
    exists|k: int, states: Seq<CurrentState>|
        0 <= k < events.len() && #[trigger] trace(start, events.take(k), states) && rejection(
            &states.last(),
            events[k],
        ) == Some(err)
}

/// `s` is the projection of the ledger `events`.
pub open spec fn replays(events: Seq<ExperienceEvent>, s: CurrentState) -> bool {
    exists|start: CurrentState|
        start.wf() && start.is_empty_projection() && #[trigger] replays_from(start, events, s)
}

/// Rebuilding the projection of the ledger `events` stops at one that is
/// refused with `err`.
pub open spec fn replay_refused(events: Seq<ExperienceEvent>, err: ProjectionError) -> bool {
    exists|start: CurrentState|
        start.wf() && start.is_empty_projection() && #[trigger] refused_from(start, events, err)
}

/// Builds the current state from the event ledger.
pub struct Projector {}

impl Projector {
    pub fn new() -> (r: Projector) {
        Projector {  }
    }

    /// Applies one event to the state, or refuses it and leaves the state
    /// as it was.
    pub fn apply(state: &mut CurrentState, event: ExperienceEvent) -> (r: Result<(), ProjectionError>)
        requires
            old(state).wf(),
            old(state).revision < u64::MAX,
        ensures
            match r {
                Ok(()) => rejection(old(state), event) is None && applied(
                    old(state),
                    final(state),
                    event,
                ),
                Err(e) => rejection(old(state), event) == Some(e) && *final(state) == *old(state),
            },
    {
        if crate::model::contains_id(&state.applied_events, event.event_id) {
            return Err(ProjectionError::Duplicate(event.event_id));
        }
        let ghost e = event;
        let ExperienceEvent { event_id, actor_id, event_kind, subject, payload, .. } = event;
        match model_rejection_of(event_kind) {
            Some(reason) => {
                if model_actor(state, actor_id) {
                    return Err(ProjectionError::InvalidPayload { event_kind, reason });
                }
            },
            None => {},
        }
        match check_payload(event_kind, &payload) {
            Err(reason) => {
                return Err(ProjectionError::InvalidPayload { event_kind, reason });
            },
            Ok(()) => {},
        }
        let reads = !(event_kind == EventKind::FocusResolved || event_kind
            == EventKind::ResponseProduced || event_kind == EventKind::StateChanged);
        let outcome: Result<(), Rejection> = match plain_table_of(event_kind) {
            Some(t) => {
                proof {
                    assert(plain_table(e.event_kind) == Some(t) && fits(e.event_kind, payload));
                }
                store_plain(state, t, payload);
                Ok(())
            },
            None => if !reads {
                Ok(())
            } else {
                match payload {
                    Payload::IdentityVersion(iv) => {
                        record_identity(state, iv);
                        Ok(())
                    },
                    Payload::Task(t) => complete_task(state, subject, t),
                    Payload::Position(p) => {
                        revise_position(state, p);
                        Ok(())
                    },
                    Payload::Conflict(c) => {
                        store_conflict(state, c);
                        Ok(())
                    },
                    Payload::Criterion(c) => define_criterion(state, c),
                    Payload::Claim(c) => create_claim(state, c),
                    Payload::ClaimTransition(t) => {
                        let target = if event_kind == EventKind::CompletionClaimVerified {
                            VerificationDisposition::Verified
                        } else {
                            VerificationDisposition::Rejected
                        };
                        transition_claim(state, t, target)
                    },
                    Payload::Verification(v) => {
                        record_verification(state, v);
                        Ok(())
                    },
                    Payload::Memory(m) => {
                        record_memory(state, m);
                        Ok(())
                    },
                    Payload::SleepRun(run) => record_sleep_run(state, event_kind, run),
                    Payload::IntegrationCandidate(c) => create_candidate(state, c),
                    Payload::UndatedIntegrationCandidate(c) => {
                        let c = date_candidate(state, c);
                        create_candidate(state, c)
                    },
                    Payload::IntegrationVerification(v) => {
                        let target = if event_kind == EventKind::IntegrationCandidateVerified {
                            VerificationDisposition::Verified
                        } else {
                            VerificationDisposition::Rejected
                        };
                        judge_candidate(state, subject, actor_id, v, target)
                    },
                    Payload::IntegrationMaterialization(m) => materialize(state, subject, m),
                    _ => Ok(()),
                }
            },
        };
        match outcome {
            Err(reason) => {
                return Err(ProjectionError::InvalidPayload { event_kind, reason });
            },
            Ok(()) => {},
        }
        state.revision = state.revision + 1;
        state.applied_events.push(event_id);
        Ok(())
    }
}


/// A run extended by an accepted event is the run of the longer ledger.
proof fn lemma_trace_push(
    start: CurrentState,
    events: Seq<ExperienceEvent>,
    states: Seq<CurrentState>,
    e: ExperienceEvent,
    s: CurrentState,
)
    requires
        trace(start, events, states),
        rejection(&states.last(), e) is None,
        applied(&states.last(), &s, e),
    ensures
        trace(start, events.push(e), states.push(s)),
{
    let longer = events.push(e);
    let more = states.push(s);
    assert forall|i: int| #![trigger longer[i]] 0 <= i < longer.len() implies rejection(
        &more[i],
        longer[i],
    ) is None && applied(&more[i], &more[i + 1], longer[i]) by {
        if i < events.len() {
            assert(longer[i] == events[i]);
        }
    }
}

/// Applying an accepted event to a replay of a ledger replays the ledger
/// with that event appended.
pub proof fn lemma_replay_extends(
    start: CurrentState,
    events: Seq<ExperienceEvent>,
    mid: CurrentState,
    e: ExperienceEvent,
    s: CurrentState,
)
    requires
        replays_from(start, events, mid),
        rejection(&mid, e) is None,
        applied(&mid, &s, e),
    ensures
        replays_from(start, events.push(e), s),
{
    let states = choose|states: Seq<CurrentState>| #[trigger] trace(start, events, states) && states.last() == mid;
    lemma_trace_push(start, events, states, e, s);
    assert(states.push(s).last() == s);
}

/// Along a run from a well-formed state, each state is well formed, is
/// `i` revisions on and has the first `i` events recorded as applied.
proof fn lemma_trace_counts(
    start: CurrentState,
    events: Seq<ExperienceEvent>,
    states: Seq<CurrentState>,
    i: int,
)
    requires
        start.wf(),
        trace(start, events, states),
        0 <= i <= events.len(),
    ensures
        states[i].wf(),
        states[i].revision == start.revision + i,
        states[i].applied_events@ == start.applied_events@ + events.take(i).map_values(
            |e: ExperienceEvent| e.event_id,
        ),
    decreases i,
{
    if i == 0 {
        assert(events.take(0).map_values(|e: ExperienceEvent| e.event_id) =~= Seq::<EventId>::empty());
        assert(start.applied_events@ + Seq::<EventId>::empty() =~= start.applied_events@);
    } else {
        lemma_trace_counts(start, events, states, i - 1);
        let e = events[i - 1];
        assert(events.take(i).map_values(|e: ExperienceEvent| e.event_id) =~= events.take(
            i - 1,
        ).map_values(|e: ExperienceEvent| e.event_id).push(e.event_id));
        assert(states[i].applied_events@ =~= start.applied_events@ + events.take(i).map_values(
            |e: ExperienceEvent| e.event_id,
        ));
    }
}

/// Replaying from a well-formed state keeps it well formed, moves the
/// revision one step per event and records the events in order.
pub proof fn lemma_replays_from_counts(
    start: CurrentState,
    events: Seq<ExperienceEvent>,
    s: CurrentState,
)
    requires
        start.wf(),
        replays_from(start, events, s),
    ensures
        s.wf(),
        s.revision == start.revision + events.len(),
        s.applied_events@ == start.applied_events@ + events.map_values(
            |e: ExperienceEvent| e.event_id,
        ),
{
    let states = choose|states: Seq<CurrentState>| #[trigger] trace(start, events, states) && states.last() == s;
    lemma_trace_counts(start, events, states, events.len() as int);
    assert(events.take(events.len() as int) =~= events);
}

/// Applies the events in order, stopping at the first that is refused.
fn apply_all(state: CurrentState, events: Vec<ExperienceEvent>) -> (r: Result<
    CurrentState,
    ProjectionError,
>)
    requires
        state.wf(),
        state.revision + events@.len() < u64::MAX,
    ensures
        match r {
            Ok(s) => replays_from(state, events@, s),
            Err(e) => refused_from(state, events@, e),
        },
{
    let ghost start = state;
    let ghost all = events@;
    let mut rest = events;
    let mut current = state;
    let mut k: usize = 0;
    let ghost mut states: Seq<CurrentState> = seq![state];
    let total = rest.len();
    proof {
        assert(all.take(0) =~= Seq::<ExperienceEvent>::empty());
        assert(all.skip(0) =~= all);
    }
    while rest.len() > 0
        invariant
            start.wf(),
            start == state,
            all == events@,
            all.len() <= usize::MAX,
            start.revision + all.len() < u64::MAX,
            k + rest@.len() == all.len(),
            rest@ == all.skip(k as int),
            trace(start, all.take(k as int), states),
            states.last() == current,
            current.wf(),
            current.revision == start.revision + k,
        decreases rest@.len(),
    {
        let ghost before = current;
        let event = rest.remove(0);
        proof {
            assert(event == all[k as int]);
            assert(rest@ =~= all.skip(k + 1));
        }
        match Projector::apply(&mut current, event) {
            Err(e) => {
                proof {
                    assert(trace(start, all.take(k as int), states));
                    assert(refused_from(start, all, e));
                }
                return Err(e);
            },
            Ok(()) => {
                proof {
                    lemma_trace_push(start, all.take(k as int), states, all[k as int], current);
                    assert(all.take(k as int).push(all[k as int]) =~= all.take(k + 1));
                    states = states.push(current);
                }
            },
        }
        k = k + 1;
    }
    proof {
        assert(all.take(all.len() as int) =~= all);
        assert(trace(start, all, states));
    }
    Ok(current)
}

impl Projector {
    /// The projection of the ledger `events`: the empty state with every
    /// event applied in order, or the refusal of the first event refused.
    pub fn replay(events: Vec<ExperienceEvent>) -> (r: Result<CurrentState, ProjectionError>)
        requires
            events@.len() < u64::MAX,
        ensures
            match r {
                Ok(s) => replays(events@, s),
                Err(e) => replay_refused(events@, e),
            },
    {
        let empty = CurrentState::empty();
        let ghost start = empty;
        let r = apply_all(empty, events);
        proof {
            if r is Ok {
                assert(replays_from(start, events@, r->Ok_0));
            } else {
                assert(refused_from(start, events@, r->Err_0));
            }
        }
        r
    }

    /// The state a batch of events leads to from `state`: refused as stale
    /// when the batch was built on another revision, else every event
    /// applied in order or the refusal of the first event refused.
    pub fn project_batch(
        state: CurrentState,
        events: Vec<ExperienceEvent>,
        expected_base_revision: Option<u64>,
    ) -> (r: Result<CurrentState, ProjectionError>)
        requires
            state.wf(),
            state.revision + events@.len() < u64::MAX,
        ensures
            match expected_base_revision {
                Some(expected) if expected != state.revision => r == Err::<CurrentState, _>(
                    ProjectionError::StaleContext { expected, actual: state.revision },
                ),
                _ => match r {
                    Ok(s) => replays_from(state, events@, s),
                    Err(e) => refused_from(state, events@, e),
                },
            },
    {
        match expected_base_revision {
            Some(expected) => {
                if state.revision != expected {
                    return Err(ProjectionError::StaleContext { expected, actual: state.revision });
                }
            },
            None => {},
        }
        apply_all(state, events)
    }
}


/// The projection of a ledger is well formed, at revision the number of
/// events, and records exactly the ledger's event identifiers in order.
pub proof fn lemma_replay_counts(events: Seq<ExperienceEvent>, s: CurrentState)
    requires
        replays(events, s),
    ensures
        s.wf(),
        s.revision == events.len(),
        s.applied_events@ == events.map_values(|e: ExperienceEvent| e.event_id),
{
    let start = choose|start: CurrentState|
        start.wf() && start.is_empty_projection() && #[trigger] replays_from(start, events, s);
    lemma_replays_from_counts(start, events, s);
    assert(start.applied_events@ + events.map_values(|e: ExperienceEvent| e.event_id)
        =~= events.map_values(|e: ExperienceEvent| e.event_id));
}

/// The empty ledger projects to the empty state, and only to it.
pub proof fn lemma_replay_empty(s: CurrentState)
    ensures
        replays(Seq::<ExperienceEvent>::empty(), s) <==> s.wf() && s.is_empty_projection(),
{
    let none = Seq::<ExperienceEvent>::empty();
    if s.wf() && s.is_empty_projection() {
        assert(trace(s, none, seq![s]));
        assert(replays_from(s, none, s));
    }
    if replays(none, s) {
        let start = choose|start: CurrentState|
            start.wf() && start.is_empty_projection() && #[trigger] replays_from(start, none, s);
        let states = choose|states: Seq<CurrentState>|
            #[trigger] trace(start, none, states) && states.last() == s;
        assert(states.len() == 1);
    }
}

/// The projection of a ledger followed by an accepted event is the
/// projection of the ledger with that event applied.
pub proof fn lemma_replay_step(
    events: Seq<ExperienceEvent>,
    mid: CurrentState,
    e: ExperienceEvent,
    s: CurrentState,
)
    requires
        replays(events, mid),
        rejection(&mid, e) is None,
        applied(&mid, &s, e),
    ensures
        replays(events.push(e), s),
{
    let start = choose|start: CurrentState|
        start.wf() && start.is_empty_projection() && #[trigger] replays_from(start, events, mid);
    lemma_replay_extends(start, events, mid, e, s);
}

/// An event already applied is refused as a duplicate, whatever it holds.
pub proof fn lemma_duplicate_refused(s: &CurrentState, e: ExperienceEvent)
    requires
        s.applied_events@.contains(e.event_id),
    ensures
        rejection(s, e) == Some(ProjectionError::Duplicate(e.event_id)),
{
}

/// The projection of a ledger holds each event identifier once: no event
/// is applied twice.
pub proof fn lemma_replay_applies_once(events: Seq<ExperienceEvent>, s: CurrentState)
    requires
        replays(events, s),
    ensures
        s.applied_events@.no_duplicates(),
{
    let start = choose|start: CurrentState|
        start.wf() && start.is_empty_projection() && #[trigger] replays_from(start, events, s);
    let states = choose|states: Seq<CurrentState>|
        #[trigger] trace(start, events, states) && states.last() == s;
    lemma_trace_no_duplicates(start, events, states, events.len() as int);
}

proof fn lemma_trace_no_duplicates(
    start: CurrentState,
    events: Seq<ExperienceEvent>,
    states: Seq<CurrentState>,
    i: int,
)
    requires
        start.applied_events@.len() == 0,
        trace(start, events, states),
        0 <= i <= events.len(),
    ensures
        states[i].applied_events@.no_duplicates(),
    decreases i,
{
    if i > 0 {
        lemma_trace_no_duplicates(start, events, states, i - 1);
        let e = events[i - 1];
        let before = states[i - 1].applied_events@;
        assert(rejection(&states[i - 1], e) is None);
        assert(!before.contains(e.event_id));
        assert forall|a: int, b: int|
            0 <= a < b < states[i].applied_events@.len() implies states[i].applied_events@[a]
            != states[i].applied_events@[b] by {
            if b == before.len() {
                assert(states[i].applied_events@[a] == before[a]);
            }
        }
    }
}

/// The model principal may not create, verify or reject completion claims:
/// such an event of its own, not yet applied, is refused.
pub proof fn lemma_model_claims_refused(s: &CurrentState, e: ExperienceEvent)
    requires
        model_rejection(e.event_kind) is Some,
        is_model_actor(s, e.actor_id),
        !s.applied_events@.contains(e.event_id),
    ensures
        rejection(s, e) == Some(
            ProjectionError::InvalidPayload {
                event_kind: e.event_kind,
                reason: model_rejection(e.event_kind)->0,
            },
        ),
{
}

/// The sleep cursor and every sleep run's high water revision are within
/// the revision the state has reached.
pub open spec fn sleep_within_revision(s: &CurrentState) -> bool {
    &&& s.sleep_cursor <= s.revision
    &&& forall|i: int|
        0 <= i < s.sleep_runs@.len() ==> (#[trigger] s.sleep_runs@[i]).high_water_revision
            <= s.revision
}

proof fn lemma_row_in_table<T: Keyed>(rows: Seq<T>, k: u128)
    requires
        sorted_keys(rows),
        lookup(rows, k) is Some,
    ensures
        exists|j: int| 0 <= j < rows.len() && rows[j] == lookup(rows, k)->0,
{
    let j = choose|i: int| 0 <= i < rows.len() && rows[i].spec_key() == k;
    lemma_lookup_at(rows, j);
    assert(rows[j] == lookup(rows, k)->0);
}

/// Applying an accepted event keeps the sleep cursor and the sleep runs
/// within the revision.
pub proof fn lemma_apply_keeps_sleep_within_revision(
    a: &CurrentState,
    b: &CurrentState,
    e: ExperienceEvent,
)
    requires
        a.wf(),
        sleep_within_revision(a),
        rejection(a, e) is None,
        applied(a, b, e),
    ensures
        sleep_within_revision(b),
{
    match e.payload {
        Payload::SleepRun(run) => {
            if e.event_kind == EventKind::SleepRunStarted || e.event_kind
                == EventKind::SleepRunCompleted || e.event_kind == EventKind::SleepRunInterrupted
                || e.event_kind == EventKind::SleepRunFailed {
                assert(run.high_water_revision <= a.revision) by {
                    if e.event_kind != EventKind::SleepRunStarted {
                        let previous = lookup(a.sleep_runs@, run.id)->0;
                        lemma_row_in_table(a.sleep_runs@, run.id);
                        let j = choose|j: int|
                            0 <= j < a.sleep_runs@.len() && a.sleep_runs@[j] == previous;
                        assert(a.sleep_runs@[j].high_water_revision <= a.revision);
                    }
                }
                assert forall|i: int| 0 <= i < b.sleep_runs@.len() implies (
                #[trigger] b.sleep_runs@[i]).high_water_revision <= b.revision by {
                    let row = b.sleep_runs@[i];
                    lemma_lookup_at(b.sleep_runs@, i);
                    if row.spec_key() != run.id {
                        lemma_row_in_table(a.sleep_runs@, row.spec_key());
                        let j = choose|j: int|
                            0 <= j < a.sleep_runs@.len() && a.sleep_runs@[j] == lookup(
                                a.sleep_runs@,
                                row.spec_key(),
                            )->0;
                        assert(a.sleep_runs@[j].high_water_revision <= a.revision);
                    }
                }
            } else {
                assert(b.sleep_runs@ == a.sleep_runs@);
            }
        },
        _ => {
            assert(b.sleep_runs@ == a.sleep_runs@);
            assert(b.sleep_cursor == a.sleep_cursor);
        },
    }
}

/// In the projection of any ledger the sleep cursor never runs ahead of
/// the revision.
pub proof fn lemma_replay_sleep_cursor_within_revision(events: Seq<ExperienceEvent>, s: CurrentState)
    requires
        replays(events, s),
    ensures
        s.sleep_cursor <= s.revision,
{
    let start = choose|start: CurrentState|
        start.wf() && start.is_empty_projection() && #[trigger] replays_from(start, events, s);
    let states = choose|states: Seq<CurrentState>|
        #[trigger] trace(start, events, states) && states.last() == s;
    lemma_trace_sleep(start, events, states, events.len() as int);
}

proof fn lemma_trace_sleep(
    start: CurrentState,
    events: Seq<ExperienceEvent>,
    states: Seq<CurrentState>,
    i: int,
)
    requires
        start.wf(),
        start.is_empty_projection(),
        trace(start, events, states),
        0 <= i <= events.len(),
    ensures
        states[i].wf(),
        sleep_within_revision(&states[i]),
    decreases i,
{
    if i > 0 {
        lemma_trace_sleep(start, events, states, i - 1);
        let e = events[i - 1];
        assert(rejection(&states[i - 1], e) is None && applied(&states[i - 1], &states[i], e));
        lemma_apply_keeps_sleep_within_revision(&states[i - 1], &states[i], e);
    }
}

/// A blocked claim is never verified: the projection refuses every event
/// that would verify a claim whose blocker is a non-blank text, and an
/// event it accepts as verifying a claim names one with no such blocker.
pub proof fn lemma_blocked_claim_not_verified(a: &CurrentState, e: ExperienceEvent)
    requires
        e.event_kind == EventKind::CompletionClaimVerified,
        e.payload matches Payload::ClaimTransition(t) && lookup(a.completion_claims@, t.claim_id) matches Some(
            claim,
        ) && claim.blocker matches Some(b) && !is_blank(b@),
    ensures
        rejection(a, e) is Some,
{
}

} // verus!
