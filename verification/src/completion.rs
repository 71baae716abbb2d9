//! The completion gate: a task may only complete once every required
//! criterion has a verified, evidenced claim and no approval or operation
//! is left open.
use vstd::prelude::*;
use vstd::string::*;

use crate::format::{
    decimal, decimal_text, hex_lower, sha256_hex_of_text, sha256_of, uuid_hyphenated, uuid_text,
};
use vstd::utf8::encode_utf8;
use crate::model::{clone_evidence_refs, same_claim, 
    ApprovalId, ApprovalStatus, ArtifactId, CompletionClaimTransition, CompletionClaim, CompletionClaimId,
    CompletionCriterion, CompletionCriterionId, EntityKind, EventId, EvidenceRef, OperationId,
    OperationStatus, PrincipalId, Task, TaskId, TaskStatus, VerificationDisposition,
};
use crate::projector::{projection_error_text, replay_refused, replays, ProjectionError, Projector};
use crate::state::{is_model_actor, model_actor, CurrentState, EventKind, ExperienceEvent, Payload};
use crate::table::{get, lookup};
use crate::text::{ascii_lower, ascii_lowercase, blank, chars_of, is_blank, trim, trimmed};

verus! {

/// Why a completion request was refused.
pub enum CompletionError {
    UnknownTask(TaskId),
    UnknownCriterion(CompletionCriterionId),
    CriterionTaskMismatch { criterion: CompletionCriterionId, task: TaskId },
    UnknownClaim(CompletionClaimId),
    EmptyCriterionDescription,
    DuplicateCriterion,
    InvalidConfidence(u8),
    InvalidSourceHash(String),
    UnknownEventEvidence(EventId),
    UnknownArtifactEvidence(ArtifactId),
    ArtifactProvenanceMismatch { artifact: ArtifactId, event: EventId },
    ArtifactHashMismatch { artifact: ArtifactId },
    EventHashMismatch { event: EventId },
    FutureEvidenceSequence { sequence: u64, as_of: u64 },
    DuplicateFingerprint(String),
    UnknownSupersededClaim(CompletionClaimId),
    SupersededClaimMismatch,
    InvalidDispositionTransition { from: VerificationDisposition, to: VerificationDisposition },
    EvidenceRequired,
    BlockerPresent,
    InvalidReason,
    ModelCannotVerify,
    StaleRevision { expected: u64, actual: u64 },
    /// A claim event whose payload is not a completion claim.
    MalformedClaim(EventId),
    /// Completion is blocked for the task.
    GateBlocked { gate: CompletionGateResult },
    /// The task cannot move between these statuses.
    Transition { from: TaskStatus, to: TaskStatus },
    /// The ledger could not be projected.
    Projection(ProjectionError),
}

/// Whether a text is a SHA-256 digest in lower-case hex: 64 digits 0-9, a-f.
pub open spec fn is_sha256_hex(text: Seq<char>) -> bool {
    text.len() == 64 && forall|i: int|
        0 <= i < 64 ==> ('0' <= #[trigger] text[i] <= '9' || 'a' <= text[i] <= 'f')
}

/// Whether `text` is a SHA-256 digest in lower-case hex.
pub fn valid_sha256_hex(text: &str) -> (r: bool)
    ensures
        r == is_sha256_hex(text@),
{
    let chars = crate::text::chars_of(text);
    if chars.len() != 64 {
        return false;
    }
    let mut i: usize = 0;
    while i < 64
        invariant
            chars@ == text@,
            chars@.len() == 64,
            i <= 64,
            forall|j: int| 0 <= j < i ==> ('0' <= #[trigger] text@[j] <= '9' || 'a' <= text@[j] <= 'f'),
        decreases 64 - i,
    {
        let c = chars[i];
        if !(('0' <= c && c <= '9') || ('a' <= c && c <= 'f')) {
            return false;
        }
        i = i + 1;
    }
    true
}

/// The position of the first event with the given identifier, at or after `from`.
pub open spec fn first_event_at(events: Seq<ExperienceEvent>, id: EventId, from: int) -> Option<int>
    decreases events.len() - from,
{
    if from < 0 || from >= events.len() {
        None
    } else if events[from].event_id == id {
        Some(from)
    } else {
        first_event_at(events, id, from + 1)
    }
}

/// Whether the event records the creation of the artifact.
pub open spec fn creates_artifact(event: ExperienceEvent, artifact_id: ArtifactId) -> bool {
    &&& event.event_kind == EventKind::ArtifactCreated
    &&& event.subject matches Some(subject)
    &&& subject.kind == EntityKind::Artifact
    &&& subject.id == artifact_id
}

/// The position of the first event creating the artifact, at or after `from`.
pub open spec fn first_creation_at(events: Seq<ExperienceEvent>, artifact_id: ArtifactId, from: int) -> Option<int>
    decreases events.len() - from,
{
    if from < 0 || from >= events.len() {
        None
    } else if creates_artifact(events[from], artifact_id) {
        Some(from)
    } else {
        first_creation_at(events, artifact_id, from + 1)
    }
}

/// The smaller of two numbers.
pub open spec fn min_u64(a: u64, b: u64) -> u64 {
    if a <= b {
        a
    } else {
        b
    }
}

/// The verdict on one piece of evidence for a claim made as of
/// `claim_as_of`: its hash is well formed, it is not newer than the claim,
/// its event exists and is not newer than either as-of sequence, and it
/// matches the artifact it names or else its event's hash.
pub open spec fn evidence_verdict(
    state: &CurrentState,
    events: Seq<ExperienceEvent>,
    evidence: EvidenceRef,
    claim_as_of: u64,
) -> Result<(), CompletionError> {
    if !is_sha256_hex(evidence.source_hash@) {
        Err(CompletionError::InvalidSourceHash(evidence.source_hash))
    } else if evidence.as_of_sequence > claim_as_of {
        Err(
            CompletionError::FutureEvidenceSequence {
                sequence: evidence.as_of_sequence,
                as_of: claim_as_of,
            },
        )
    } else {
        match first_event_at(events, evidence.event_id, 0) {
            None => Err(CompletionError::UnknownEventEvidence(evidence.event_id)),
            Some(index) => {
                let sequence = index + 1;
                if sequence > evidence.as_of_sequence || sequence > claim_as_of {
                    Err(
                        CompletionError::FutureEvidenceSequence {
                            sequence: sequence as u64,
                            as_of: min_u64(evidence.as_of_sequence, claim_as_of),
                        },
                    )
                } else {
                    match evidence.artifact_id {
                        Some(artifact_id) => match lookup(state.artifacts@, artifact_id) {
                            None => Err(CompletionError::UnknownArtifactEvidence(artifact_id)),
                            Some(artifact) => match first_creation_at(events, artifact_id, 0) {
                                None => Err(CompletionError::UnknownArtifactEvidence(artifact_id)),
                                Some(created) => if created + 1 > evidence.as_of_sequence {
                                    Err(
                                        CompletionError::FutureEvidenceSequence {
                                            sequence: (created + 1) as u64,
                                            as_of: evidence.as_of_sequence,
                                        },
                                    )
                                } else if artifact.provenance_event_id != evidence.event_id {
                                    Err(
                                        CompletionError::ArtifactProvenanceMismatch {
                                            artifact: artifact_id,
                                            event: evidence.event_id,
                                        },
                                    )
                                } else if artifact.content_hash@ != evidence.source_hash@ {
                                    Err(
                                        CompletionError::ArtifactHashMismatch {
                                            artifact: artifact_id,
                                        },
                                    )
                                } else {
                                    Ok(())
                                },
                            },
                        },
                        None => {
                            let event = events[index];
                            let expected = if event.integrity_hash@.len() == 0 {
                                event.canonical_hash@
                            } else {
                                event.integrity_hash@
                            };
                            if expected != evidence.source_hash@ {
                                Err(CompletionError::EventHashMismatch { event: evidence.event_id })
                            } else {
                                Ok(())
                            }
                        },
                    }
                }
            },
        }
    }
}

/// The verdict on a list of evidence: the first failing piece's error.
pub open spec fn evidence_list_verdict(
    state: &CurrentState,
    events: Seq<ExperienceEvent>,
    evidence: Seq<EvidenceRef>,
    claim_as_of: u64,
) -> Result<(), CompletionError>
    decreases evidence.len(),
{
    if evidence.len() == 0 {
        Ok(())
    } else if evidence_verdict(state, events, evidence[0], claim_as_of) is Err {
        evidence_verdict(state, events, evidence[0], claim_as_of)
    } else {
        evidence_list_verdict(state, events, evidence.drop_first(), claim_as_of)
    }
}

pub fn find_event(events: &[ExperienceEvent], id: EventId) -> (r: Option<usize>)
    ensures
        match r {
            Some(i) => i < events@.len() && first_event_at(events@, id, 0) == Some(i as int),
            None => first_event_at(events@, id, 0) is None,
        },
{
    let mut i: usize = 0;
    while i < events.len()
        invariant
            i <= events@.len(),
            first_event_at(events@, id, 0) == first_event_at(events@, id, i as int),
        decreases events@.len() - i,
    {
        if events[i].event_id == id {
            return Some(i);
        }
        i = i + 1;
    }
    None
}

pub fn find_creation(events: &[ExperienceEvent], artifact_id: ArtifactId) -> (r: Option<usize>)
    ensures
        match r {
            Some(i) => i < events@.len() && first_creation_at(events@, artifact_id, 0) == Some(
                i as int,
            ),
            None => first_creation_at(events@, artifact_id, 0) is None,
        },
{
    let mut i: usize = 0;
    while i < events.len()
        invariant
            i <= events@.len(),
            first_creation_at(events@, artifact_id, 0) == first_creation_at(
                events@,
                artifact_id,
                i as int,
            ),
        decreases events@.len() - i,
    {
        let event = &events[i];
        let creates = event.event_kind == EventKind::ArtifactCreated && match event.subject {
            Some(subject) => subject.kind == EntityKind::Artifact && subject.id == artifact_id,
            None => false,
        };
        if creates {
            return Some(i);
        }
        i = i + 1;
    }
    None
}

fn check_evidence(
    state: &CurrentState,
    events: &[ExperienceEvent],
    evidence: &EvidenceRef,
    claim_as_of: u64,
) -> (r: Result<(), CompletionError>)
    requires
        state.wf(),
    ensures
        r == evidence_verdict(state, events@, *evidence, claim_as_of),
{
    if !valid_sha256_hex(evidence.source_hash.as_str()) {
        return Err(CompletionError::InvalidSourceHash(evidence.source_hash.clone()));
    }
    if evidence.as_of_sequence > claim_as_of {
        return Err(
            CompletionError::FutureEvidenceSequence {
                sequence: evidence.as_of_sequence,
                as_of: claim_as_of,
            },
        );
    }
    let index = match find_event(events, evidence.event_id) {
        Some(i) => i,
        None => {
            return Err(CompletionError::UnknownEventEvidence(evidence.event_id));
        },
    };
    let total = events.len();
    assert(index < total);
    let next: usize = index + 1;
    let sequence = next as u64;
    if sequence > evidence.as_of_sequence || sequence > claim_as_of {
        let as_of = if evidence.as_of_sequence <= claim_as_of {
            evidence.as_of_sequence
        } else {
            claim_as_of
        };
        return Err(CompletionError::FutureEvidenceSequence { sequence, as_of });
    }
    match evidence.artifact_id {
        Some(artifact_id) => {
            let artifact = match get(&state.artifacts, artifact_id) {
                Some(artifact) => artifact,
                None => {
                    return Err(CompletionError::UnknownArtifactEvidence(artifact_id));
                },
            };
            let created = match find_creation(events, artifact_id) {
                Some(i) => i,
                None => {
                    return Err(CompletionError::UnknownArtifactEvidence(artifact_id));
                },
            };
            assert(created < total);
            let created_next: usize = created + 1;
            let created_sequence = created_next as u64;
            if created_sequence > evidence.as_of_sequence {
                return Err(
                    CompletionError::FutureEvidenceSequence {
                        sequence: created_sequence,
                        as_of: evidence.as_of_sequence,
                    },
                );
            }
            if artifact.provenance_event_id != evidence.event_id {
                return Err(
                    CompletionError::ArtifactProvenanceMismatch {
                        artifact: artifact_id,
                        event: evidence.event_id,
                    },
                );
            }
            if artifact.content_hash != evidence.source_hash {
                return Err(CompletionError::ArtifactHashMismatch { artifact: artifact_id });
            }
            Ok(())
        },
        None => {
            let event = &events[index];
            let matches = if event.integrity_hash.as_str().is_empty() {
                event.canonical_hash == evidence.source_hash
            } else {
                event.integrity_hash == evidence.source_hash
            };
            if !matches {
                return Err(CompletionError::EventHashMismatch { event: evidence.event_id });
            }
            Ok(())
        },
    }
}

/// Checks each piece of evidence of a claim made as of `claim_as_of`,
/// reporting the first that fails.
pub fn validate_evidence_refs(
    state: &CurrentState,
    events: &[ExperienceEvent],
    evidence_refs: &Vec<EvidenceRef>,
    claim_as_of_sequence: u64,
) -> (r: Result<(), CompletionError>)
    requires
        state.wf(),
    ensures
        r == evidence_list_verdict(state, events@, evidence_refs@, claim_as_of_sequence),
{
    let mut i: usize = 0;
    proof {
        assert(evidence_refs@.subrange(0, evidence_refs@.len() as int) =~= evidence_refs@);
    }
    while i < evidence_refs.len()
        invariant
            state.wf(),
            i <= evidence_refs@.len(),
            evidence_list_verdict(state, events@, evidence_refs@, claim_as_of_sequence)
                == evidence_list_verdict(
                state,
                events@,
                evidence_refs@.subrange(i as int, evidence_refs@.len() as int),
                claim_as_of_sequence,
            ),
        decreases evidence_refs@.len() - i,
    {
        proof {
            let rest = evidence_refs@.subrange(i as int, evidence_refs@.len() as int);
            assert(rest.drop_first() =~= evidence_refs@.subrange(i + 1, evidence_refs@.len() as int));
            assert(rest[0] == evidence_refs@[i as int]);
        }
        match check_evidence(state, events, &evidence_refs[i], claim_as_of_sequence) {
            Err(error) => {
                return Err(error);
            },
            Ok(()) => {},
        }
        i = i + 1;
    }
    Ok(())
}

/// The text of a disposition, as its `Debug` form.
pub open spec fn disposition_text(d: VerificationDisposition) -> Seq<char> {
    match d {
        VerificationDisposition::NeedsValidation => "NeedsValidation"@,
        VerificationDisposition::Verified => "Verified"@,
        VerificationDisposition::Rejected => "Rejected"@,
    }
}

fn disposition_string(d: VerificationDisposition) -> (r: String)
    ensures
        r@ == disposition_text(d),
{
    match d {
        VerificationDisposition::NeedsValidation => "NeedsValidation".to_owned(),
        VerificationDisposition::Verified => "Verified".to_owned(),
        VerificationDisposition::Rejected => "Rejected".to_owned(),
    }
}

/// The message of an error, as the runtime reports it.
pub open spec fn error_text(e: CompletionError) -> Seq<char> {
    match e {
        CompletionError::UnknownTask(id) => "unknown task "@ + uuid_hyphenated(id),
        CompletionError::UnknownCriterion(id) => "unknown criterion "@ + uuid_hyphenated(id),
        CompletionError::CriterionTaskMismatch { criterion, task } => "criterion "@
            + uuid_hyphenated(criterion) + " does not belong to task "@ + uuid_hyphenated(task),
        CompletionError::UnknownClaim(id) => "unknown claim "@ + uuid_hyphenated(id),
        CompletionError::EmptyCriterionDescription => "criterion description cannot be empty"@,
        CompletionError::DuplicateCriterion => "criterion description already exists for task"@,
        CompletionError::InvalidConfidence(_) => "confidence must be between 0 and 100"@,
        CompletionError::InvalidSourceHash(hash) => "invalid source hash: "@ + hash@,
        CompletionError::UnknownEventEvidence(id) => "unknown event evidence "@ + uuid_hyphenated(id),
        CompletionError::UnknownArtifactEvidence(id) => "unknown artifact evidence "@
            + uuid_hyphenated(id),
        CompletionError::ArtifactProvenanceMismatch { artifact, event } => "artifact "@
            + uuid_hyphenated(artifact) + " is not sourced by event "@ + uuid_hyphenated(event),
        CompletionError::ArtifactHashMismatch { artifact } => "artifact "@ + uuid_hyphenated(
            artifact,
        ) + " source hash does not match evidence"@,
        CompletionError::EventHashMismatch { event } => "event "@ + uuid_hyphenated(event)
            + " source hash does not match evidence"@,
        CompletionError::FutureEvidenceSequence { sequence, as_of } => "evidence sequence "@
            + decimal(sequence as nat) + " is after claim as-of sequence "@ + decimal(as_of as nat),
        CompletionError::DuplicateFingerprint(fingerprint) => "duplicate claim fingerprint "@
            + fingerprint@,
        CompletionError::UnknownSupersededClaim(id) => "claim supersedes an unknown claim "@
            + uuid_hyphenated(id),
        CompletionError::SupersededClaimMismatch => "claim supersedes a different task or criterion"@,
        CompletionError::InvalidDispositionTransition { from, to } =>
            "invalid claim disposition transition from "@ + disposition_text(from) + " to "@
            + disposition_text(to),
        CompletionError::EvidenceRequired => "claim verification requires evidence"@,
        CompletionError::BlockerPresent => "claim has an unresolved blocker"@,
        CompletionError::InvalidReason => "verification reason cannot be empty"@,
        CompletionError::ModelCannotVerify => "the model principal cannot verify completion claims"@,
        CompletionError::StaleRevision { expected, actual } => "stale revision: expected "@
            + decimal(expected as nat) + ", actual "@ + decimal(actual as nat),
        CompletionError::MalformedClaim(id) => "claim event "@ + uuid_hyphenated(id)
            + " does not carry a completion claim"@,
        CompletionError::GateBlocked { .. } => "task completion blocked"@,
        CompletionError::Transition { from, to } => "invalid task transition from "@
            + task_status_name(from) + " to "@ + task_status_name(to),
        CompletionError::Projection(error) => projection_error_text(error),
    }
}

/// The name of a task status, as its `Debug` form.
pub open spec fn task_status_name(status: TaskStatus) -> Seq<char> {
    match status {
        TaskStatus::Pending => "Pending"@,
        TaskStatus::InProgress => "InProgress"@,
        TaskStatus::Blocked => "Blocked"@,
        TaskStatus::Completed => "Completed"@,
        TaskStatus::Cancelled => "Cancelled"@,
    }
}

pub fn task_status_text(status: TaskStatus) -> (r: String)
    ensures
        r@ == task_status_name(status),
{
    match status {
        TaskStatus::Pending => "Pending".to_owned(),
        TaskStatus::InProgress => "InProgress".to_owned(),
        TaskStatus::Blocked => "Blocked".to_owned(),
        TaskStatus::Completed => "Completed".to_owned(),
        TaskStatus::Cancelled => "Cancelled".to_owned(),
    }
}

/// `prefix` followed by the text of `id` and then `suffix`.
fn id_message(prefix: &str, id: u128, suffix: &str) -> (r: String)
    ensures
        r@ == prefix@ + uuid_hyphenated(id) + suffix@,
{
    let mut out = prefix.to_owned();
    let text = uuid_text(id);
    out.append(text.as_str());
    out.append(suffix);
    out
}

impl CompletionError {
    /// The error's message.
    pub fn message(&self) -> (r: String)
        ensures
            r@ == error_text(*self),
    {
        proof {
            reveal_strlit("");
            assert(forall|x: Seq<char>| #[trigger] (x + ""@) == x) by {
                assert forall|x: Seq<char>| #[trigger] (x + ""@) == x by {
                    assert(x + ""@ =~= x);
                }
            }
        }
        match self {
            CompletionError::UnknownTask(id) => id_message("unknown task ", *id, ""),
            CompletionError::UnknownCriterion(id) => id_message("unknown criterion ", *id, ""),
            CompletionError::CriterionTaskMismatch { criterion, task } => {
                let mut out = id_message("criterion ", *criterion, " does not belong to task ");
                out.append(uuid_text(*task).as_str());
                out
            },
            CompletionError::UnknownClaim(id) => id_message("unknown claim ", *id, ""),
            CompletionError::EmptyCriterionDescription => "criterion description cannot be empty".to_owned(),
            CompletionError::DuplicateCriterion => "criterion description already exists for task".to_owned(),
            CompletionError::InvalidConfidence(_) => "confidence must be between 0 and 100".to_owned(),
            CompletionError::InvalidSourceHash(hash) => {
                let mut out = "invalid source hash: ".to_owned();
                out.append(hash.as_str());
                out
            },
            CompletionError::UnknownEventEvidence(id) => id_message("unknown event evidence ", *id, ""),
            CompletionError::UnknownArtifactEvidence(id) => id_message(
                "unknown artifact evidence ",
                *id,
                "",
            ),
            CompletionError::ArtifactProvenanceMismatch { artifact, event } => {
                let mut out = id_message("artifact ", *artifact, " is not sourced by event ");
                out.append(uuid_text(*event).as_str());
                out
            },
            CompletionError::ArtifactHashMismatch { artifact } => id_message(
                "artifact ",
                *artifact,
                " source hash does not match evidence",
            ),
            CompletionError::EventHashMismatch { event } => id_message(
                "event ",
                *event,
                " source hash does not match evidence",
            ),
            CompletionError::FutureEvidenceSequence { sequence, as_of } => {
                let mut out = "evidence sequence ".to_owned();
                out.append(decimal_text(*sequence).as_str());
                out.append(" is after claim as-of sequence ");
                out.append(decimal_text(*as_of).as_str());
                out
            },
            CompletionError::DuplicateFingerprint(fingerprint) => {
                let mut out = "duplicate claim fingerprint ".to_owned();
                out.append(fingerprint.as_str());
                out
            },
            CompletionError::UnknownSupersededClaim(id) => id_message(
                "claim supersedes an unknown claim ",
                *id,
                "",
            ),
            CompletionError::SupersededClaimMismatch => "claim supersedes a different task or criterion".to_owned(),
            CompletionError::InvalidDispositionTransition { from, to } => {
                let mut out = "invalid claim disposition transition from ".to_owned();
                out.append(disposition_string(*from).as_str());
                out.append(" to ");
                out.append(disposition_string(*to).as_str());
                out
            },
            CompletionError::EvidenceRequired => "claim verification requires evidence".to_owned(),
            CompletionError::BlockerPresent => "claim has an unresolved blocker".to_owned(),
            CompletionError::InvalidReason => "verification reason cannot be empty".to_owned(),
            CompletionError::ModelCannotVerify => "the model principal cannot verify completion claims".to_owned(),
            CompletionError::StaleRevision { expected, actual } => {
                let mut out = "stale revision: expected ".to_owned();
                out.append(decimal_text(*expected).as_str());
                out.append(", actual ");
                out.append(decimal_text(*actual).as_str());
                out
            },
            CompletionError::MalformedClaim(id) => id_message(
                "claim event ",
                *id,
                " does not carry a completion claim",
            ),
            CompletionError::GateBlocked { .. } => "task completion blocked".to_owned(),
            CompletionError::Transition { from, to } => {
                let mut out = "invalid task transition from ".to_owned();
                out.append(task_status_text(*from).as_str());
                out.append(" to ");
                out.append(task_status_text(*to).as_str());
                out
            },
            CompletionError::Projection(error) => error.message(),
        }
    }
}

/// The canonical text of one piece of evidence in a claim fingerprint:
/// `:event/artifact-or-dash/hash/as-of`.
pub open spec fn evidence_piece(evidence: EvidenceRef) -> Seq<char> {
    ":"@ + uuid_hyphenated(evidence.event_id) + "/"@ + match evidence.artifact_id {
        Some(artifact_id) => uuid_hyphenated(artifact_id),
        None => "-"@,
    } + "/"@ + evidence.source_hash@ + "/"@ + decimal(evidence.as_of_sequence as nat)
}

/// The canonical text of a list of evidence, piece after piece.
pub open spec fn evidence_pieces(evidence: Seq<EvidenceRef>) -> Seq<char>
    decreases evidence.len(),
{
    if evidence.len() == 0 {
        Seq::empty()
    } else {
        evidence_pieces(evidence.drop_last()) + evidence_piece(evidence.last())
    }
}

/// The canonical text a claim fingerprint is the digest of.
pub open spec fn fingerprint_text(
    task_id: TaskId,
    criterion_id: CompletionCriterionId,
    evidence: Seq<EvidenceRef>,
) -> Seq<char> {
    "completion:"@ + uuid_hyphenated(task_id) + ":"@ + uuid_hyphenated(criterion_id)
        + evidence_pieces(evidence)
}

/// The fingerprint of a claim: the lower-case hex SHA-256 of the UTF-8
/// bytes of its canonical text.
pub open spec fn spec_completion_fingerprint(
    task_id: TaskId,
    criterion_id: CompletionCriterionId,
    evidence: Seq<EvidenceRef>,
) -> Seq<char> {
    hex_lower(sha256_of(encode_utf8(fingerprint_text(task_id, criterion_id, evidence))))
}

fn evidence_piece_text(evidence: &EvidenceRef) -> (r: String)
    ensures
        r@ == evidence_piece(*evidence),
{
    let mut out = ":".to_owned();
    out.append(uuid_text(evidence.event_id).as_str());
    out.append("/");
    match evidence.artifact_id {
        Some(artifact_id) => out.append(uuid_text(artifact_id).as_str()),
        None => out.append("-"),
    }
    out.append("/");
    out.append(evidence.source_hash.as_str());
    out.append("/");
    out.append(decimal_text(evidence.as_of_sequence).as_str());
    out
}

/// The fingerprint of a claim on `criterion_id` of `task_id` with this
/// evidence; two claims with the same fingerprint duplicate each other.
pub fn completion_fingerprint(
    task_id: TaskId,
    criterion_id: CompletionCriterionId,
    evidence_refs: &Vec<EvidenceRef>,
) -> (r: String)
    ensures
        r@ == spec_completion_fingerprint(task_id, criterion_id, evidence_refs@),
{
    let mut text = "completion:".to_owned();
    text.append(uuid_text(task_id).as_str());
    text.append(":");
    text.append(uuid_text(criterion_id).as_str());
    let ghost head = text@;
    let mut i: usize = 0;
    while i < evidence_refs.len()
        invariant
            i <= evidence_refs@.len(),
            head == "completion:"@ + uuid_hyphenated(task_id) + ":"@ + uuid_hyphenated(criterion_id),
            text@ == head + evidence_pieces(evidence_refs@.subrange(0, i as int)),
        decreases evidence_refs@.len() - i,
    {
        let piece = evidence_piece_text(&evidence_refs[i]);
        proof {
            let pre = evidence_refs@.subrange(0, i + 1);
            assert(pre.drop_last() =~= evidence_refs@.subrange(0, i as int));
            assert(pre.last() == evidence_refs@[i as int]);
            assert(head + evidence_pieces(pre) =~= head + evidence_pieces(
                evidence_refs@.subrange(0, i as int),
            ) + piece@);
        }
        text.append(piece.as_str());
        i = i + 1;
    }
    proof {
        assert(evidence_refs@.subrange(0, evidence_refs@.len() as int) =~= evidence_refs@);
    }
    sha256_hex_of_text(text.as_str())
}

/// The outcome of the completion gate for a task.
pub enum CompletionGateResult {
    Ready { verified_claim_ids: Vec<CompletionClaimId> },
    Blocked {
        missing_criterion_ids: Vec<CompletionCriterionId>,
        needs_validation_claim_ids: Vec<CompletionClaimId>,
        rejected_claim_ids: Vec<CompletionClaimId>,
        blockers: Vec<String>,
        pending_approval_ids: Vec<ApprovalId>,
        unknown_operation_ids: Vec<OperationId>,
    },
}

/// The claim most recently created for a criterion among the events.
pub open spec fn latest_claim_for(events: Seq<ExperienceEvent>, criterion_id: CompletionCriterionId) -> Option<
    CompletionClaimId,
>
    decreases events.len(),
{
    if events.len() == 0 {
        None
    } else {
        let event = events.last();
        match event.payload {
            Payload::Claim(claim) => if event.event_kind == EventKind::CompletionClaimCreated
                && claim.criterion_id == criterion_id {
                Some(claim.id)
            } else {
                latest_claim_for(events.drop_last(), criterion_id)
            },
            _ => latest_claim_for(events.drop_last(), criterion_id),
        }
    }
}

/// Whether a claim-creation event lacks its claim.
pub open spec fn malformed_claim_event(event: ExperienceEvent) -> bool {
    event.event_kind == EventKind::CompletionClaimCreated && !(event.payload is Claim)
}

/// The first claim-creation event that does not carry a claim.
pub open spec fn first_malformed_claim(events: Seq<ExperienceEvent>, from: int) -> Option<EventId>
    decreases events.len() - from,
{
    if from < 0 || from >= events.len() {
        None
    } else if malformed_claim_event(events[from]) {
        Some(events[from].event_id)
    } else {
        first_malformed_claim(events, from + 1)
    }
}

/// The tally of completion over required criteria: missing criteria, claims
/// that need validation, rejected claims, blockers and verified claims.
pub type Tally = (Seq<u128>, Seq<u128>, Seq<u128>, Seq<Seq<char>>, Seq<u128>);

/// What one required criterion adds to the completion tally.
pub open spec fn criterion_step(
    state: &CurrentState,
    events: Seq<ExperienceEvent>,
    criterion: CompletionCriterion,
    tally: Tally,
) -> Tally {
    let (missing, needs_validation, rejected, blockers, verified) = tally;
    let claim = match latest_claim_for(events, criterion.id) {
        Some(claim_id) => lookup(state.completion_claims@, claim_id),
        None => None,
    };
    match claim {
        None => (
            missing.push(criterion.id),
            needs_validation,
            rejected,
            blockers.push("criterion "@ + uuid_hyphenated(criterion.id) + " has no active claim"@),
            verified,
        ),
        Some(claim) => match claim.disposition {
            VerificationDisposition::NeedsValidation => (
                missing,
                needs_validation.push(claim.id),
                rejected,
                blockers.push("claim "@ + uuid_hyphenated(claim.id) + " needs validation"@),
                verified,
            ),
            VerificationDisposition::Rejected => (
                missing,
                needs_validation,
                rejected.push(claim.id),
                blockers.push("claim "@ + uuid_hyphenated(claim.id) + " was rejected"@),
                verified,
            ),
            VerificationDisposition::Verified => if claim.blocker is Some && !is_blank(
                claim.blocker->0@,
            ) {
                (missing, needs_validation, rejected, blockers.push(trim(claim.blocker->0@)), verified)
            } else if claim.evidence_refs@.len() == 0 {
                (
                    missing,
                    needs_validation,
                    rejected,
                    blockers.push("claim "@ + uuid_hyphenated(claim.id) + " has no evidence"@),
                    verified,
                )
            } else if claim.fingerprint@ != spec_completion_fingerprint(
                claim.task_id,
                claim.criterion_id,
                claim.evidence_refs@,
            ) {
                (
                    missing,
                    needs_validation,
                    rejected,
                    blockers.push(
                        "claim "@ + uuid_hyphenated(claim.id)
                            + " fingerprint does not match its evidence"@,
                    ),
                    verified,
                )
            } else if evidence_list_verdict(
                state,
                events,
                claim.evidence_refs@,
                claim.as_of_sequence,
            ) is Err {
                (
                    missing,
                    needs_validation,
                    rejected,
                    blockers.push(
                        error_text(
                            evidence_list_verdict(
                                state,
                                events,
                                claim.evidence_refs@,
                                claim.as_of_sequence,
                            )->Err_0,
                        ),
                    ),
                    verified,
                )
            } else {
                (missing, needs_validation, rejected, blockers, verified.push(claim.id))
            },
        },
    }
}

/// The tally over the first `n` criteria of the state, counting only the
/// required criteria of `task_id`.
pub open spec fn tally_over(
    state: &CurrentState,
    events: Seq<ExperienceEvent>,
    task_id: TaskId,
    n: int,
) -> Tally
    decreases n,
{
    if n <= 0 {
        (Seq::empty(), Seq::empty(), Seq::empty(), Seq::empty(), Seq::empty())
    } else {
        let previous = tally_over(state, events, task_id, n - 1);
        let criterion = state.completion_criteria@[n - 1];
        if criterion.task_id == task_id && criterion.required {
            criterion_step(state, events, criterion, previous)
        } else {
            previous
        }
    }
}

/// The pending approvals among the first `n`, in table order.
pub open spec fn pending_approvals(state: &CurrentState, n: int) -> Seq<ApprovalId>
    decreases n,
{
    if n <= 0 {
        Seq::empty()
    } else if state.approvals@[n - 1].status == ApprovalStatus::Pending {
        pending_approvals(state, n - 1).push(state.approvals@[n - 1].id)
    } else {
        pending_approvals(state, n - 1)
    }
}

/// The operations among the first `n` whose effect is not known (started
/// or unknown), in table order.
pub open spec fn unknown_operations(state: &CurrentState, n: int) -> Seq<OperationId>
    decreases n,
{
    if n <= 0 {
        Seq::empty()
    } else if state.operations@[n - 1].status == OperationStatus::Started
        || state.operations@[n - 1].status == OperationStatus::Unknown {
        unknown_operations(state, n - 1).push(state.operations@[n - 1].id)
    } else {
        unknown_operations(state, n - 1)
    }
}

/// The blockers naming pending approvals.
pub open spec fn approval_blockers(ids: Seq<ApprovalId>) -> Seq<Seq<char>> {
    ids.map_values(|id: u128| "approval "@ + uuid_hyphenated(id) + " is pending"@)
}

/// The blockers naming operations of unknown effect.
pub open spec fn operation_blockers(ids: Seq<OperationId>) -> Seq<Seq<char>> {
    ids.map_values(|id: u128| "operation "@ + uuid_hyphenated(id) + " has unknown effect state"@)
}

/// The texts of a list of strings.
pub open spec fn texts(items: Seq<String>) -> Seq<Seq<char>> {
    items.map_values(|s: String| s@)
}

/// Whether the completion result is what the state and events call for: ready
/// with the verified claims when nothing blocks, else blocked with every
/// missing criterion, unvalidated or rejected claim, blocker, pending
/// approval and operation of unknown effect.
pub open spec fn gate_matches(
    state: &CurrentState,
    events: Seq<ExperienceEvent>,
    task_id: TaskId,
    result: CompletionGateResult,
) -> bool {
    let (missing, needs_validation, rejected, blockers, verified) = tally_over(
        state,
        events,
        task_id,
        state.completion_criteria@.len() as int,
    );
    let approvals = pending_approvals(state, state.approvals@.len() as int);
    let operations = unknown_operations(state, state.operations@.len() as int);
    let all_blockers = blockers + approval_blockers(approvals) + operation_blockers(operations);
    if missing.len() == 0 && needs_validation.len() == 0 && rejected.len() == 0
        && all_blockers.len() == 0 && approvals.len() == 0 && operations.len() == 0 {
        result matches CompletionGateResult::Ready { verified_claim_ids } && verified_claim_ids@
            == verified
    } else {
        result matches CompletionGateResult::Blocked {
            missing_criterion_ids,
            needs_validation_claim_ids,
            rejected_claim_ids,
            blockers: listed,
            pending_approval_ids,
            unknown_operation_ids,
        } && missing_criterion_ids@ == missing && needs_validation_claim_ids@ == needs_validation
            && rejected_claim_ids@ == rejected && texts(listed@) == all_blockers
            && pending_approval_ids@ == approvals && unknown_operation_ids@ == operations
    }
}

fn latest_claim(events: &[ExperienceEvent], criterion_id: CompletionCriterionId) -> (r: Option<
    CompletionClaimId,
>)
    ensures
        r == latest_claim_for(events@, criterion_id),
{
    let mut i: usize = events.len();
    proof {
        assert(events@.subrange(0, events@.len() as int) =~= events@);
    }
    while i > 0
        invariant
            i <= events@.len(),
            latest_claim_for(events@, criterion_id) == latest_claim_for(
                events@.subrange(0, i as int),
                criterion_id,
            ),
        decreases i,
    {
        proof {
            let pre = events@.subrange(0, i as int);
            assert(pre.drop_last() =~= events@.subrange(0, i - 1));
            assert(pre.last() == events@[i - 1]);
        }
        let event = &events[i - 1];
        if event.event_kind == EventKind::CompletionClaimCreated {
            match &event.payload {
                Payload::Claim(claim) => {
                    if claim.criterion_id == criterion_id {
                        return Some(claim.id);
                    }
                },
                _ => {},
            }
        }
        i = i - 1;
    }
    None
}

/// Checks that every claim-creation event carries a claim, reporting the
/// first that does not.
fn claim_events_wellformed(events: &[ExperienceEvent]) -> (r: Result<(), CompletionError>)
    ensures
        match first_malformed_claim(events@, 0) {
            Some(id) => r matches Err(CompletionError::MalformedClaim(bad)) && bad == id,
            None => r is Ok,
        },
{
    let mut i: usize = 0;
    while i < events.len()
        invariant
            i <= events@.len(),
            first_malformed_claim(events@, 0) == first_malformed_claim(events@, i as int),
        decreases events@.len() - i,
    {
        let event = &events[i];
        if event.event_kind == EventKind::CompletionClaimCreated {
            match &event.payload {
                Payload::Claim(_) => {},
                _ => {
                    return Err(CompletionError::MalformedClaim(event.event_id));
                },
            }
        }
        i = i + 1;
    }
    Ok(())
}

/// Checks that the task exists.
pub fn ensure_task(state: &CurrentState, task_id: TaskId) -> (r: Result<(), CompletionError>)
    requires
        state.wf(),
    ensures
        match r {
            Ok(()) => lookup(state.tasks@, task_id) is Some,
            Err(e) => lookup(state.tasks@, task_id) is None && e == CompletionError::UnknownTask(
                task_id,
            ),
        },
{
    if get(&state.tasks, task_id).is_some() {
        Ok(())
    } else {
        Err(CompletionError::UnknownTask(task_id))
    }
}

fn step_criterion(
    state: &CurrentState,
    events: &[ExperienceEvent],
    criterion: &CompletionCriterion,
    missing: &mut Vec<CompletionCriterionId>,
    needs_validation: &mut Vec<CompletionClaimId>,
    rejected: &mut Vec<CompletionClaimId>,
    blockers: &mut Vec<String>,
    verified: &mut Vec<CompletionClaimId>,
)
    requires
        state.wf(),
    ensures
        (final(missing)@, final(needs_validation)@, final(rejected)@, texts(final(blockers)@), final(verified)@)
            == criterion_step(
            state,
            events@,
            *criterion,
            (old(missing)@, old(needs_validation)@, old(rejected)@, texts(old(blockers)@), old(verified)@),
        ),
{
    let ghost before = old(blockers)@;
    let claim = match latest_claim(events, criterion.id) {
        Some(claim_id) => get(&state.completion_claims, claim_id),
        None => None,
    };
    match claim {
        None => {
            missing.push(criterion.id);
            blockers.push(id_message("criterion ", criterion.id, " has no active claim"));
            proof {
                assert(texts(blockers@) =~= texts(before).push(
                    "criterion "@ + uuid_hyphenated(criterion.id) + " has no active claim"@,
                ));
            }
        },
        Some(claim) => match claim.disposition {
            VerificationDisposition::NeedsValidation => {
                needs_validation.push(claim.id);
                blockers.push(id_message("claim ", claim.id, " needs validation"));
                proof {
                    assert(texts(blockers@) =~= texts(before).push(
                        "claim "@ + uuid_hyphenated(claim.id) + " needs validation"@,
                    ));
                }
            },
            VerificationDisposition::Rejected => {
                rejected.push(claim.id);
                blockers.push(id_message("claim ", claim.id, " was rejected"));
                proof {
                    assert(texts(blockers@) =~= texts(before).push(
                        "claim "@ + uuid_hyphenated(claim.id) + " was rejected"@,
                    ));
                }
            },
            VerificationDisposition::Verified => {
                let blocked = match &claim.blocker {
                    Some(text) => !blank(text.as_str()),
                    None => false,
                };
                if blocked {
                    let text = match &claim.blocker {
                        Some(text) => trimmed(text.as_str()),
                        None => String::new(),
                    };
                    blockers.push(text);
                    proof {
                        assert(texts(blockers@) =~= texts(before).push(trim(claim.blocker->0@)));
                    }
                } else if claim.evidence_refs.len() == 0 {
                    blockers.push(id_message("claim ", claim.id, " has no evidence"));
                    proof {
                        assert(texts(blockers@) =~= texts(before).push(
                            "claim "@ + uuid_hyphenated(claim.id) + " has no evidence"@,
                        ));
                    }
                } else if claim.fingerprint != completion_fingerprint(
                    claim.task_id,
                    claim.criterion_id,
                    &claim.evidence_refs,
                ) {
                    blockers.push(
                        id_message("claim ", claim.id, " fingerprint does not match its evidence"),
                    );
                    proof {
                        assert(texts(blockers@) =~= texts(before).push(
                            "claim "@ + uuid_hyphenated(claim.id)
                                + " fingerprint does not match its evidence"@,
                        ));
                    }
                } else {
                    match validate_evidence_refs(
                        state,
                        events,
                        &claim.evidence_refs,
                        claim.as_of_sequence,
                    ) {
                        Err(error) => {
                            let text = error.message();
                            blockers.push(text);
                            proof {
                                assert(texts(blockers@) =~= texts(before).push(error_text(error)));
                            }
                        },
                        Ok(()) => {
                            verified.push(claim.id);
                        },
                    }
                }
            },
        },
    }
}

/// The completion gate of a task over the projected state and the events
/// it was projected from: an error for an unknown task or a malformed claim
/// event, else ready or blocked as `gate_matches` states.
pub fn evaluate_task_completion_in(
    state: &CurrentState,
    events: &[ExperienceEvent],
    task_id: TaskId,
) -> (r: Result<CompletionGateResult, CompletionError>)
    requires
        state.wf(),
    ensures
        lookup(state.tasks@, task_id) is None ==> (r matches Err(CompletionError::UnknownTask(id))
            && id == task_id),
        lookup(state.tasks@, task_id) is Some && first_malformed_claim(events@, 0) is Some ==> (r matches Err(
            CompletionError::MalformedClaim(id),
        ) && id == first_malformed_claim(events@, 0)->0),
        lookup(state.tasks@, task_id) is Some && first_malformed_claim(events@, 0) is None ==> (r matches Ok(
            gate,
        ) && gate_matches(state, events@, task_id, gate)),
{
    match ensure_task(state, task_id) {
        Err(error) => {
            return Err(error);
        },
        Ok(()) => {},
    }
    match claim_events_wellformed(events) {
        Err(error) => {
            return Err(error);
        },
        Ok(()) => {},
    }
    let mut missing: Vec<CompletionCriterionId> = Vec::new();
    let mut needs_validation: Vec<CompletionClaimId> = Vec::new();
    let mut rejected: Vec<CompletionClaimId> = Vec::new();
    let mut blockers: Vec<String> = Vec::new();
    let mut verified: Vec<CompletionClaimId> = Vec::new();
    let mut i: usize = 0;
    while i < state.completion_criteria.len()
        invariant
            state.wf(),
            i <= state.completion_criteria@.len(),
            (missing@, needs_validation@, rejected@, texts(blockers@), verified@) == tally_over(
                state,
                events@,
                task_id,
                i as int,
            ),
        decreases state.completion_criteria@.len() - i,
    {
        let criterion = &state.completion_criteria[i];
        if criterion.task_id == task_id && criterion.required {
            step_criterion(
                state,
                events,
                criterion,
                &mut missing,
                &mut needs_validation,
                &mut rejected,
                &mut blockers,
                &mut verified,
            );
        }
        i = i + 1;
    }
    let mut approvals: Vec<ApprovalId> = Vec::new();
    let mut j: usize = 0;
    while j < state.approvals.len()
        invariant
            j <= state.approvals@.len(),
            approvals@ == pending_approvals(state, j as int),
        decreases state.approvals@.len() - j,
    {
        if state.approvals[j].status == ApprovalStatus::Pending {
            approvals.push(state.approvals[j].id);
        }
        j = j + 1;
    }
    let mut operations: Vec<OperationId> = Vec::new();
    let mut k: usize = 0;
    while k < state.operations.len()
        invariant
            k <= state.operations@.len(),
            operations@ == unknown_operations(state, k as int),
        decreases state.operations@.len() - k,
    {
        let status = state.operations[k].status;
        if status == OperationStatus::Started || status == OperationStatus::Unknown {
            operations.push(state.operations[k].id);
        }
        k = k + 1;
    }
    let ghost tally_blockers = texts(blockers@);
    let mut a: usize = 0;
    while a < approvals.len()
        invariant
            a <= approvals@.len(),
            texts(blockers@) == tally_blockers + approval_blockers(approvals@.subrange(0, a as int)),
        decreases approvals@.len() - a,
    {
        let ghost prev = blockers@;
        let line = id_message("approval ", approvals[a], " is pending");
        blockers.push(line);
        proof {
            assert(texts(blockers@) =~= texts(prev).push(line@));
            assert(approval_blockers(approvals@.subrange(0, a + 1)) =~= approval_blockers(
                approvals@.subrange(0, a as int),
            ).push("approval "@ + uuid_hyphenated(approvals@[a as int]) + " is pending"@));
            assert(texts(blockers@) =~= tally_blockers + approval_blockers(
                approvals@.subrange(0, a + 1),
            ));
        }
        a = a + 1;
    }
    proof {
        assert(approvals@.subrange(0, approvals@.len() as int) =~= approvals@);
    }
    let ghost with_approvals = texts(blockers@);
    let mut o: usize = 0;
    while o < operations.len()
        invariant
            o <= operations@.len(),
            texts(blockers@) == with_approvals + operation_blockers(operations@.subrange(0, o as int)),
        decreases operations@.len() - o,
    {
        let ghost prev = blockers@;
        let line = id_message("operation ", operations[o], " has unknown effect state");
        blockers.push(line);
        proof {
            assert(texts(blockers@) =~= texts(prev).push(line@));
            assert(operation_blockers(operations@.subrange(0, o + 1)) =~= operation_blockers(
                operations@.subrange(0, o as int),
            ).push("operation "@ + uuid_hyphenated(operations@[o as int]) + " has unknown effect state"@));
            assert(texts(blockers@) =~= with_approvals + operation_blockers(
                operations@.subrange(0, o + 1),
            ));
        }
        o = o + 1;
    }
    proof {
        assert(operations@.subrange(0, operations@.len() as int) =~= operations@);
    }
    if missing.len() == 0 && needs_validation.len() == 0 && rejected.len() == 0 && blockers.len()
        == 0 && approvals.len() == 0 && operations.len() == 0 {
        Ok(CompletionGateResult::Ready { verified_claim_ids: verified })
    } else {
        Ok(
            CompletionGateResult::Blocked {
                missing_criterion_ids: missing,
                needs_validation_claim_ids: needs_validation,
                rejected_claim_ids: rejected,
                blockers,
                pending_approval_ids: approvals,
                unknown_operation_ids: operations,
            },
        )
    }
}

/// Refuses an actor registered as HEKATE itself: the model may not define,
/// claim or judge completion.
pub fn ensure_non_model_actor(state: &CurrentState, actor_id: PrincipalId) -> (r: Result<
    (),
    CompletionError,
>)
    requires
        state.wf(),
    ensures
        match r {
            Ok(()) => !is_model_actor(state, actor_id),
            Err(e) => is_model_actor(state, actor_id) && e == CompletionError::ModelCannotVerify,
        },
{
    if model_actor(state, actor_id) {
        Err(CompletionError::ModelCannotVerify)
    } else {
        Ok(())
    }
}

/// The verdict on a criterion named for a task: it exists and belongs to
/// the task.
pub open spec fn criterion_verdict(
    state: &CurrentState,
    task_id: TaskId,
    criterion_id: CompletionCriterionId,
) -> Result<(), CompletionError> {
    match lookup(state.completion_criteria@, criterion_id) {
        None => Err(CompletionError::UnknownCriterion(criterion_id)),
        Some(criterion) => if criterion.task_id != task_id {
            Err(CompletionError::CriterionTaskMismatch { criterion: criterion_id, task: task_id })
        } else {
            Ok(())
        },
    }
}

/// Checks that the criterion exists and belongs to the task.
pub fn ensure_criterion(
    state: &CurrentState,
    task_id: TaskId,
    criterion_id: CompletionCriterionId,
) -> (r: Result<(), CompletionError>)
    requires
        state.wf(),
    ensures
        r == criterion_verdict(state, task_id, criterion_id),
{
    match get(&state.completion_criteria, criterion_id) {
        None => Err(CompletionError::UnknownCriterion(criterion_id)),
        Some(criterion) => if criterion.task_id != task_id {
            Err(CompletionError::CriterionTaskMismatch { criterion: criterion_id, task: task_id })
        } else {
            Ok(())
        },
    }
}

/// The verdict on the claim a new claim supersedes: none, or an existing
/// claim on the same task and criterion.
pub open spec fn supersedes_verdict(
    state: &CurrentState,
    task_id: TaskId,
    criterion_id: CompletionCriterionId,
    supersedes: Option<CompletionClaimId>,
) -> Result<(), CompletionError> {
    match supersedes {
        None => Ok(()),
        Some(previous_id) => match lookup(state.completion_claims@, previous_id) {
            None => Err(CompletionError::UnknownSupersededClaim(previous_id)),
            Some(previous) => if previous.task_id != task_id || previous.criterion_id
                != criterion_id {
                Err(CompletionError::SupersededClaimMismatch)
            } else {
                Ok(())
            },
        },
    }
}

/// Checks the claim a new claim supersedes.
pub fn validate_supersedes(
    state: &CurrentState,
    task_id: TaskId,
    criterion_id: CompletionCriterionId,
    supersedes: Option<CompletionClaimId>,
) -> (r: Result<(), CompletionError>)
    requires
        state.wf(),
    ensures
        r == supersedes_verdict(state, task_id, criterion_id, supersedes),
{
    match supersedes {
        None => Ok(()),
        Some(previous_id) => match get(&state.completion_claims, previous_id) {
            None => Err(CompletionError::UnknownSupersededClaim(previous_id)),
            Some(previous) => if previous.task_id != task_id || previous.criterion_id
                != criterion_id {
                Err(CompletionError::SupersededClaimMismatch)
            } else {
                Ok(())
            },
        },
    }
}

/// The text trimmed, or `None` when nothing is left.
pub fn non_empty(value: &str) -> (r: Option<String>)
    ensures
        match r {
            Some(text) => text@ == trim(value@) && trim(value@).len() > 0,
            None => trim(value@).len() == 0,
        },
{
    if blank(value) {
        None
    } else {
        Some(trimmed(value))
    }
}

/// The form under which criterion descriptions are compared for
/// duplicates: trimmed, with ASCII letters in lower case.
pub open spec fn normalized_description(description: Seq<char>) -> Seq<char> {
    ascii_lower(trim(description))
}

/// The normalized form of a criterion description.
pub fn normalize_description(description: &str) -> (r: Vec<char>)
    ensures
        r@ == normalized_description(description@),
{
    let text = trimmed(description);
    ascii_lowercase(&chars_of(text.as_str()))
}

/// Whether some criterion of the task already has this normalized
/// description.
pub open spec fn duplicate_description(
    state: &CurrentState,
    task_id: TaskId,
    normalized: Seq<char>,
) -> bool {
    exists|i: int|
        0 <= i < state.completion_criteria@.len() && state.completion_criteria@[i].task_id
            == task_id && normalized_description(
            #[trigger] state.completion_criteria@[i].description@,
        ) == normalized
}

/// Whether some criterion of the task already has this normalized
/// description.
pub fn has_duplicate_description(
    state: &CurrentState,
    task_id: TaskId,
    normalized: &Vec<char>,
) -> (r: bool)
    ensures
        r == duplicate_description(state, task_id, normalized@),
{
    let mut i: usize = 0;
    while i < state.completion_criteria.len()
        invariant
            i <= state.completion_criteria@.len(),
            forall|j: int|
                0 <= j < i ==> !(state.completion_criteria@[j].task_id == task_id
                    && normalized_description(#[trigger] state.completion_criteria@[j].description@)
                    == normalized@),
        decreases state.completion_criteria@.len() - i,
    {
        let criterion = &state.completion_criteria[i];
        if criterion.task_id == task_id {
            let other = normalize_description(criterion.description.as_str());
            if vec_chars_eq(&other, normalized) {
                proof {
                    let k = i as int;
                    assert(state.completion_criteria@[k].task_id == task_id
                        && normalized_description(state.completion_criteria@[k].description@)
                        == normalized@);
                }
                return true;
            }
        }
        i = i + 1;
    }
    false
}

/// The verdict on defining a criterion: the task exists, the actor is not
/// the model, the trimmed description is not empty and differs from every
/// other criterion of the task once normalized.
pub open spec fn define_verdict(
    state: &CurrentState,
    actor_id: PrincipalId,
    task_id: TaskId,
    description: Seq<char>,
) -> Result<(), CompletionError> {
    if lookup(state.tasks@, task_id) is None {
        Err(CompletionError::UnknownTask(task_id))
    } else if is_model_actor(state, actor_id) {
        Err(CompletionError::ModelCannotVerify)
    } else if trim(description).len() == 0 {
        Err(CompletionError::EmptyCriterionDescription)
    } else if duplicate_description(state, task_id, normalized_description(description)) {
        Err(CompletionError::DuplicateCriterion)
    } else {
        Ok(())
    }
}

/// The criterion `actor_id` defines for a task, under the identifier `id`,
/// with its description trimmed; refused as `define_verdict` states.
pub fn plan_criterion(
    state: &CurrentState,
    actor_id: PrincipalId,
    task_id: TaskId,
    description: &str,
    required: bool,
    id: CompletionCriterionId,
) -> (r: Result<CompletionCriterion, CompletionError>)
    requires
        state.wf(),
    ensures
        match r {
            Ok(criterion) => define_verdict(state, actor_id, task_id, description@) is Ok
                && criterion.id == id && criterion.task_id == task_id && criterion.description@
                == trim(description@) && criterion.required == required,
            Err(e) => define_verdict(state, actor_id, task_id, description@) == Err::<(), _>(e),
        },
{
    match ensure_task(state, task_id) {
        Err(e) => {
            return Err(e);
        },
        Ok(()) => {},
    }
    match ensure_non_model_actor(state, actor_id) {
        Err(e) => {
            return Err(e);
        },
        Ok(()) => {},
    }
    let text = trimmed(description);
    if text.as_str().is_empty() {
        return Err(CompletionError::EmptyCriterionDescription);
    }
    let normalized = normalize_description(description);
    if has_duplicate_description(state, task_id, &normalized) {
        return Err(CompletionError::DuplicateCriterion);
    }
    Ok(CompletionCriterion { id, task_id, description: text, required })
}

/// Whether two character lists are equal.
fn vec_chars_eq(a: &Vec<char>, b: &Vec<char>) -> (r: bool)
    ensures
        r == (a@ == b@),
{
    if a.len() != b.len() {
        return false;
    }
    let mut i: usize = 0;
    while i < a.len()
        invariant
            a@.len() == b@.len(),
            i <= a@.len(),
            forall|j: int| 0 <= j < i ==> a@[j] == b@[j],
        decreases a@.len() - i,
    {
        if a[i] != b[i] {
            return false;
        }
        i = i + 1;
    }
    proof {
        assert(a@ =~= b@);
    }
    true
}


/// Whether some stored claim has this fingerprint.
pub open spec fn fingerprint_taken(claims: Seq<CompletionClaim>, fingerprint: Seq<char>) -> bool {
    exists|i: int| 0 <= i < claims.len() && (#[trigger] claims[i]).fingerprint@ == fingerprint
}

/// Whether some stored claim has this fingerprint.
pub fn fingerprint_in_use(claims: &Vec<CompletionClaim>, fingerprint: &String) -> (r: bool)
    ensures
        r == fingerprint_taken(claims@, fingerprint@),
{
    let mut i: usize = 0;
    while i < claims.len()
        invariant
            i <= claims@.len(),
            forall|j: int| 0 <= j < i ==> (#[trigger] claims@[j]).fingerprint@ != fingerprint@,
        decreases claims@.len() - i,
    {
        if claims[i].fingerprint == *fingerprint {
            proof {
                assert(claims@[i as int].fingerprint@ == fingerprint@);
            }
            return true;
        }
        i = i + 1;
    }
    false
}


/// The checks on a new claim before its fingerprint: the task exists, the
/// actor is not the model, the criterion belongs to the task, the
/// confidence is at most 100 and the evidence holds as of the revision.
pub open spec fn claim_precheck(
    state: &CurrentState,
    events: Seq<ExperienceEvent>,
    actor_id: PrincipalId,
    task_id: TaskId,
    criterion_id: CompletionCriterionId,
    confidence: u8,
    evidence: Seq<EvidenceRef>,
) -> Result<(), CompletionError> {
    if lookup(state.tasks@, task_id) is None {
        Err(CompletionError::UnknownTask(task_id))
    } else if is_model_actor(state, actor_id) {
        Err(CompletionError::ModelCannotVerify)
    } else if criterion_verdict(state, task_id, criterion_id) is Err {
        criterion_verdict(state, task_id, criterion_id)
    } else if confidence > 100 {
        Err(CompletionError::InvalidConfidence(confidence))
    } else {
        evidence_list_verdict(state, events, evidence, state.revision)
    }
}

/// The blocker a claim keeps: the given one trimmed, unless nothing is left.
pub open spec fn kept_blocker(given: Option<String>, kept: Option<String>) -> bool {
    match given {
        None => kept is None,
        Some(text) => if trim(text@).len() == 0 {
            kept is None
        } else {
            kept is Some && kept->0@ == trim(text@)
        },
    }
}

/// The claim `actor_id` makes that a criterion of a task is met, as of the
/// state's revision, awaiting validation, under a fresh identifier; refused
/// by the first check that fails.
pub fn plan_claim(
    state: &CurrentState,
    events: &[ExperienceEvent],
    actor_id: PrincipalId,
    task_id: TaskId,
    criterion_id: CompletionCriterionId,
    confidence: u8,
    evidence_refs: Vec<EvidenceRef>,
    blocker: Option<String>,
    supersedes: Option<CompletionClaimId>,
) -> (r: Result<CompletionClaim, CompletionError>)
    requires
        state.wf(),
    ensures
        claim_precheck(state, events@, actor_id, task_id, criterion_id, confidence, evidence_refs@)
            is Err ==> r == Err::<CompletionClaim, _>(
            claim_precheck(
                state,
                events@,
                actor_id,
                task_id,
                criterion_id,
                confidence,
                evidence_refs@,
            )->Err_0,
        ),
        claim_precheck(state, events@, actor_id, task_id, criterion_id, confidence, evidence_refs@)
            is Ok && fingerprint_taken(
            state.completion_claims@,
            spec_completion_fingerprint(task_id, criterion_id, evidence_refs@),
        ) ==> (r matches Err(CompletionError::DuplicateFingerprint(f)) && f@
            == spec_completion_fingerprint(task_id, criterion_id, evidence_refs@)),
        claim_precheck(state, events@, actor_id, task_id, criterion_id, confidence, evidence_refs@)
            is Ok && !fingerprint_taken(
            state.completion_claims@,
            spec_completion_fingerprint(task_id, criterion_id, evidence_refs@),
        ) ==> match supersedes_verdict(state, task_id, criterion_id, supersedes) {
            Err(e) => r == Err::<CompletionClaim, _>(e),
            Ok(()) => r matches Ok(claim) && claim.task_id == task_id && claim.criterion_id
                == criterion_id && claim.disposition == VerificationDisposition::NeedsValidation
                && claim.confidence == confidence && claim.evidence_refs@ == evidence_refs@
                && kept_blocker(blocker, claim.blocker) && claim.fingerprint@
                == spec_completion_fingerprint(task_id, criterion_id, evidence_refs@)
                && claim.as_of_sequence == state.revision && claim.supersedes == supersedes,
        },
{
    match ensure_task(state, task_id) {
        Err(e) => {
            return Err(e);
        },
        Ok(()) => {},
    }
    match ensure_non_model_actor(state, actor_id) {
        Err(e) => {
            return Err(e);
        },
        Ok(()) => {},
    }
    match ensure_criterion(state, task_id, criterion_id) {
        Err(e) => {
            return Err(e);
        },
        Ok(()) => {},
    }
    if confidence > 100 {
        return Err(CompletionError::InvalidConfidence(confidence));
    }
    match validate_evidence_refs(state, events, &evidence_refs, state.revision) {
        Err(e) => {
            return Err(e);
        },
        Ok(()) => {},
    }
    let fingerprint = completion_fingerprint(task_id, criterion_id, &evidence_refs);
    if fingerprint_in_use(&state.completion_claims, &fingerprint) {
        return Err(CompletionError::DuplicateFingerprint(fingerprint));
    }
    match validate_supersedes(state, task_id, criterion_id, supersedes) {
        Err(e) => {
            return Err(e);
        },
        Ok(()) => {},
    }
    let kept = match blocker {
        Some(text) => non_empty(text.as_str()),
        None => None,
    };
    Ok(
        CompletionClaim {
            id: crate::ids::new_id(),
            task_id,
            criterion_id,
            disposition: VerificationDisposition::NeedsValidation,
            confidence,
            evidence_refs,
            blocker: kept,
            fingerprint,
            as_of_sequence: state.revision,
            supersedes,
        },
    )
}

/// The verdict on moving a claim to `disposition` for `actor_id` with this
/// reason: the claim exists, the actor is not the model, the claim awaits
/// validation and goes to verified or rejected, the reason is not blank, a
/// verified claim has evidence and no blocker, and its evidence still
/// holds as of the claim.
pub open spec fn transition_verdict(
    state: &CurrentState,
    events: Seq<ExperienceEvent>,
    actor_id: PrincipalId,
    claim_id: CompletionClaimId,
    disposition: VerificationDisposition,
    reason: Seq<char>,
) -> Result<(), CompletionError> {
    match lookup(state.completion_claims@, claim_id) {
        None => Err(CompletionError::UnknownClaim(claim_id)),
        Some(claim) => if is_model_actor(state, actor_id) {
            Err(CompletionError::ModelCannotVerify)
        } else if claim.disposition != VerificationDisposition::NeedsValidation || !(disposition
            == VerificationDisposition::Verified || disposition
            == VerificationDisposition::Rejected) {
            Err(
                CompletionError::InvalidDispositionTransition {
                    from: claim.disposition,
                    to: disposition,
                },
            )
        } else if trim(reason).len() == 0 {
            Err(CompletionError::InvalidReason)
        } else if disposition == VerificationDisposition::Verified && claim.evidence_refs@.len()
            == 0 {
            Err(CompletionError::EvidenceRequired)
        } else if disposition == VerificationDisposition::Verified && claim.blocker is Some
            && trim(claim.blocker->0@).len() > 0 {
            Err(CompletionError::BlockerPresent)
        } else {
            evidence_list_verdict(state, events, claim.evidence_refs@, claim.as_of_sequence)
        },
    }
}

/// The transition that moves a claim to `disposition`, with the reason
/// trimmed and the claim's evidence; refused as `transition_verdict` states.
pub fn plan_transition(
    state: &CurrentState,
    events: &[ExperienceEvent],
    actor_id: PrincipalId,
    claim_id: CompletionClaimId,
    disposition: VerificationDisposition,
    reason: &str,
) -> (r: Result<CompletionClaimTransition, CompletionError>)
    requires
        state.wf(),
    ensures
        match r {
            Ok(t) => transition_verdict(state, events@, actor_id, claim_id, disposition, reason@)
                is Ok && t.claim_id == claim_id && t.task_id == lookup(
                state.completion_claims@,
                claim_id,
            )->0.task_id && t.criterion_id == lookup(state.completion_claims@, claim_id)->0.criterion_id
                && t.previous_disposition == VerificationDisposition::NeedsValidation && t.disposition
                == disposition && t.reason@ == trim(reason@) && t.evidence_refs@ == lookup(
                state.completion_claims@,
                claim_id,
            )->0.evidence_refs@,
            Err(e) => transition_verdict(state, events@, actor_id, claim_id, disposition, reason@)
                == Err::<(), _>(e),
        },
{
    let claim = match get(&state.completion_claims, claim_id) {
        None => {
            return Err(CompletionError::UnknownClaim(claim_id));
        },
        Some(claim) => claim,
    };
    proof {
        crate::table::lemma_lookup_key(state.completion_claims@, claim_id);
    }
    match ensure_non_model_actor(state, actor_id) {
        Err(e) => {
            return Err(e);
        },
        Ok(()) => {},
    }
    if claim.disposition != VerificationDisposition::NeedsValidation || !(disposition
        == VerificationDisposition::Verified || disposition == VerificationDisposition::Rejected) {
        return Err(
            CompletionError::InvalidDispositionTransition { from: claim.disposition, to: disposition },
        );
    }
    let reason_text = match non_empty(reason) {
        None => {
            return Err(CompletionError::InvalidReason);
        },
        Some(text) => text,
    };
    if disposition == VerificationDisposition::Verified {
        if claim.evidence_refs.len() == 0 {
            return Err(CompletionError::EvidenceRequired);
        }
        match &claim.blocker {
            Some(text) => {
                if non_empty(text.as_str()).is_some() {
                    return Err(CompletionError::BlockerPresent);
                }
            },
            None => {},
        }
    }
    match validate_evidence_refs(state, events, &claim.evidence_refs, claim.as_of_sequence) {
        Err(e) => {
            return Err(e);
        },
        Ok(()) => {},
    }
    Ok(
        CompletionClaimTransition {
            claim_id: claim.id,
            task_id: claim.task_id,
            criterion_id: claim.criterion_id,
            previous_disposition: claim.disposition,
            disposition,
            reason: reason_text,
            evidence_refs: clone_evidence_refs(&claim.evidence_refs),
        },
    )
}

/// What completing a task comes to: it was already completed, or it is
/// completed now.
pub enum TaskCompletion {
    AlreadyCompleted(Task),
    Completed(Task),
}

/// Whether a task may move to completed from its status.
pub open spec fn completable(status: TaskStatus) -> bool {
    status == TaskStatus::Pending || status == TaskStatus::InProgress || status
        == TaskStatus::Blocked
}

fn copy_task(task: &Task) -> (r: Task)
    ensures
        r == *task,
{
    Task { id: task.id, goal_id: task.goal_id, title: task.title.clone(), status: task.status }
}

/// Completes a task for `actor_id` at `expected_revision`, over the state
/// projected from `events`: a completed task stays as it is; otherwise the
/// revision must be current, completion ready and the task in a status that
/// may complete.
pub fn plan_task_completion(
    state: &CurrentState,
    events: &[ExperienceEvent],
    actor_id: PrincipalId,
    task_id: TaskId,
    expected_revision: u64,
) -> (r: Result<TaskCompletion, CompletionError>)
    requires
        state.wf(),
    ensures
        lookup(state.tasks@, task_id) is None ==> r == Err::<TaskCompletion, _>(
            CompletionError::UnknownTask(task_id),
        ),
        lookup(state.tasks@, task_id) is Some && is_model_actor(state, actor_id) ==> r == Err::<
            TaskCompletion,
            _,
        >(CompletionError::ModelCannotVerify),
        lookup(state.tasks@, task_id) is Some && !is_model_actor(state, actor_id) ==> {
            let current = lookup(state.tasks@, task_id)->0;
            if current.status == TaskStatus::Completed {
                r == Ok::<_, CompletionError>(TaskCompletion::AlreadyCompleted(current))
            } else if expected_revision != state.revision {
                r == Err::<TaskCompletion, _>(
                    CompletionError::StaleRevision {
                        expected: expected_revision,
                        actual: state.revision,
                    },
                )
            } else if first_malformed_claim(events@, 0) is Some {
                r == Err::<TaskCompletion, _>(
                    CompletionError::MalformedClaim(first_malformed_claim(events@, 0)->0),
                )
            } else {
                match r {
                    Err(CompletionError::GateBlocked { gate }) => gate_matches(
                        state,
                        events@,
                        task_id,
                        gate,
                    ) && !(gate is Ready),
                    Err(CompletionError::Transition { from, to }) => !completable(current.status)
                        && from == current.status && to == TaskStatus::Completed,
                    Ok(TaskCompletion::Completed(task)) => completable(current.status)
                        && task == Task { status: TaskStatus::Completed, ..current },
                    _ => false,
                }
            }
        },
{
    match ensure_task(state, task_id) {
        Err(e) => {
            return Err(e);
        },
        Ok(()) => {},
    }
    match ensure_non_model_actor(state, actor_id) {
        Err(e) => {
            return Err(e);
        },
        Ok(()) => {},
    }
    let current = match get(&state.tasks, task_id) {
        Some(task) => copy_task(task),
        None => {
            return Err(CompletionError::UnknownTask(task_id));
        },
    };
    if current.status == TaskStatus::Completed {
        return Ok(TaskCompletion::AlreadyCompleted(current));
    }
    if expected_revision != state.revision {
        return Err(
            CompletionError::StaleRevision { expected: expected_revision, actual: state.revision },
        );
    }
    let gate = match evaluate_task_completion_in(state, events, task_id) {
        Err(e) => {
            return Err(e);
        },
        Ok(gate) => gate,
    };
    match gate {
        CompletionGateResult::Ready { .. } => {},
        CompletionGateResult::Blocked { .. } => {
            return Err(CompletionError::GateBlocked { gate });
        },
    }
    if !(current.status == TaskStatus::Pending || current.status == TaskStatus::InProgress
        || current.status == TaskStatus::Blocked) {
        return Err(CompletionError::Transition { from: current.status, to: TaskStatus::Completed });
    }
    let mut completed = current;
    completed.status = TaskStatus::Completed;
    Ok(TaskCompletion::Completed(completed))
}


/// The projection of the first `as_of_sequence` events of the ledger.
pub fn state_as_of(events: Vec<ExperienceEvent>, as_of_sequence: u64) -> (r: Result<
    CurrentState,
    CompletionError,
>)
    requires
        events@.len() < u64::MAX,
    ensures
        as_of_sequence > events@.len() ==> r == Err::<CurrentState, _>(
            CompletionError::FutureEvidenceSequence {
                sequence: as_of_sequence,
                as_of: events@.len() as u64,
            },
        ),
        as_of_sequence <= events@.len() ==> match r {
            Ok(s) => replays(events@.take(as_of_sequence as int), s),
            Err(CompletionError::Projection(e)) => replay_refused(
                events@.take(as_of_sequence as int),
                e,
            ),
            _ => false,
        },
{
    let n = events.len();
    if as_of_sequence > n as u64 {
        return Err(CompletionError::FutureEvidenceSequence { sequence: as_of_sequence, as_of: n as u64 });
    }
    let mut prefix = events;
    prefix.truncate(as_of_sequence as usize);
    proof {
        assert(prefix@ =~= events@.take(as_of_sequence as int));
    }
    match Projector::replay(prefix) {
        Ok(s) => Ok(s),
        Err(e) => Err(CompletionError::Projection(e)),
    }
}

/// A criterion of a task with the latest claim made on it.
pub struct CompletionCriterionStatus {
    pub criterion_id: CompletionCriterionId,
    pub description: String,
    pub required: bool,
    pub latest_claim: Option<CompletionClaim>,
}

/// Where a task stands on completion as of a sequence: its criteria and
/// whether it may complete.
pub struct CompletionStatusReport {
    pub task_id: TaskId,
    pub as_of_sequence: u64,
    pub criteria: Vec<CompletionCriterionStatus>,
    pub gate: CompletionGateResult,
}

/// The criteria of a task among the first `n` of the state, in table order.
pub open spec fn criteria_of(state: &CurrentState, task_id: TaskId, n: int) -> Seq<
    CompletionCriterion,
>
    decreases n,
{
    if n <= 0 {
        Seq::empty()
    } else if state.completion_criteria@[n - 1].task_id == task_id {
        criteria_of(state, task_id, n - 1).push(state.completion_criteria@[n - 1])
    } else {
        criteria_of(state, task_id, n - 1)
    }
}

/// Whether the status reports the criterion and the latest claim on it.
pub open spec fn status_of(
    state: &CurrentState,
    events: Seq<ExperienceEvent>,
    criterion: CompletionCriterion,
    status: CompletionCriterionStatus,
) -> bool {
    &&& status.criterion_id == criterion.id
    &&& status.description@ == criterion.description@
    &&& status.required == criterion.required
    &&& match latest_claim_for(events, criterion.id) {
        Some(claim_id) => match lookup(state.completion_claims@, claim_id) {
            Some(claim) => status.latest_claim is Some && same_claim(status.latest_claim->0, claim),
            None => status.latest_claim is None,
        },
        None => status.latest_claim is None,
    }
}

/// The completion status of a task over the state projected from
/// `events`, reported as of `as_of_sequence`.
pub fn status_in(
    state: &CurrentState,
    events: &[ExperienceEvent],
    task_id: TaskId,
    as_of_sequence: u64,
) -> (r: Result<CompletionStatusReport, CompletionError>)
    requires
        state.wf(),
    ensures
        lookup(state.tasks@, task_id) is None ==> (r matches Err(CompletionError::UnknownTask(id))
            && id == task_id),
        lookup(state.tasks@, task_id) is Some && first_malformed_claim(events@, 0) is Some ==> (r matches Err(
            CompletionError::MalformedClaim(id),
        ) && id == first_malformed_claim(events@, 0)->0),
        lookup(state.tasks@, task_id) is Some && first_malformed_claim(events@, 0) is None ==> (r matches Ok(
            report,
        ) && report.task_id == task_id && report.as_of_sequence == as_of_sequence
            && report.criteria@.len() == criteria_of(
            state,
            task_id,
            state.completion_criteria@.len() as int,
        ).len() && (forall|i: int|
            0 <= i < report.criteria@.len() ==> status_of(
                state,
                events@,
                criteria_of(state, task_id, state.completion_criteria@.len() as int)[i],
                #[trigger] report.criteria@[i],
            )) && gate_matches(state, events@, task_id, report.gate)),
{
    match ensure_task(state, task_id) {
        Err(e) => {
            return Err(e);
        },
        Ok(()) => {},
    }
    match claim_events_wellformed(events) {
        Err(e) => {
            return Err(e);
        },
        Ok(()) => {},
    }
    let mut criteria: Vec<CompletionCriterionStatus> = Vec::new();
    let mut i: usize = 0;
    while i < state.completion_criteria.len()
        invariant
            state.wf(),
            i <= state.completion_criteria@.len(),
            criteria@.len() == criteria_of(state, task_id, i as int).len(),
            forall|j: int|
                0 <= j < criteria@.len() ==> status_of(
                    state,
                    events@,
                    criteria_of(state, task_id, i as int)[j],
                    #[trigger] criteria@[j],
                ),
        decreases state.completion_criteria@.len() - i,
    {
        let criterion = &state.completion_criteria[i];
        if criterion.task_id == task_id {
            let latest = match latest_claim(events, criterion.id) {
                Some(claim_id) => match get(&state.completion_claims, claim_id) {
                    Some(claim) => Some(crate::model::clone_claim(claim)),
                    None => None,
                },
                None => None,
            };
            let status = CompletionCriterionStatus {
                criterion_id: criterion.id,
                description: criterion.description.clone(),
                required: criterion.required,
                latest_claim: latest,
            };
            criteria.push(status);
        }
        i = i + 1;
    }
    let gate = match evaluate_task_completion_in(state, events, task_id) {
        Err(e) => {
            return Err(e);
        },
        Ok(gate) => gate,
    };
    Ok(CompletionStatusReport { task_id, as_of_sequence, criteria, gate })
}

/// The completion gate: criteria, claims on them, their validation and the
/// completion of tasks.
pub struct CompletionGate {}

impl CompletionGate {
    pub fn new() -> (r: CompletionGate) {
        CompletionGate {  }
    }
}

/// The hash an event carries for evidence to cite: its integrity hash, or
/// its canonical hash when it records no integrity hash.
pub open spec fn recorded_hash(e: ExperienceEvent) -> Seq<char> {
    if e.integrity_hash@.len() == 0 {
        e.canonical_hash@
    } else {
        e.integrity_hash@
    }
}

/// Whether `k` is the position of the first event with the identifier.
pub open spec fn first_with_id(events: Seq<ExperienceEvent>, id: EventId, k: int) -> bool {
    &&& 0 <= k < events.len()
    &&& events[k].event_id == id
    &&& forall|m: int| 0 <= m < k ==> events[m].event_id != id
}

proof fn lemma_first_event_found(events: Seq<ExperienceEvent>, id: EventId, from: int, k: int)
    requires
        0 <= from <= k,
        first_with_id(events, id, k),
    ensures
        first_event_at(events, id, from) == Some(k),
    decreases k - from,
{
    if from < k {
        assert(events[from].event_id != id);
        lemma_first_event_found(events, id, from + 1, k);
    }
}

/// Evidence that names no artifact is accepted only when it cites the
/// recorded hash of the event it names: whenever a list of evidence is
/// accepted, each such piece carries exactly that hash.
pub proof fn lemma_accepted_evidence_cites_event_hash(
    state: &CurrentState,
    events: Seq<ExperienceEvent>,
    refs: Seq<EvidenceRef>,
    claim_as_of: u64,
    j: int,
    k: int,
)
    requires
        evidence_list_verdict(state, events, refs, claim_as_of) is Ok,
        0 <= j < refs.len(),
        refs[j].artifact_id is None,
        first_with_id(events, refs[j].event_id, k),
    ensures
        recorded_hash(events[k]) == refs[j].source_hash@,
    decreases refs.len(),
{
    if j == 0 {
        lemma_first_event_found(events, refs[0].event_id, 0, k);
        assert(evidence_verdict(state, events, refs[0], claim_as_of) is Ok);
    } else {
        assert(refs.drop_first()[j - 1] == refs[j]);
        lemma_accepted_evidence_cites_event_hash(state, events, refs.drop_first(), claim_as_of, j - 1, k);
    }
}

/// Evidence that names no artifact, whose hash is well formed, which is no
/// newer than the claim and whose event comes at or before both as-of
/// sequences, is refused as a hash mismatch when it cites any hash but the
/// event's recorded one.
pub proof fn lemma_forged_event_hash_refused(
    state: &CurrentState,
    events: Seq<ExperienceEvent>,
    evidence: EvidenceRef,
    claim_as_of: u64,
    k: int,
)
    requires
        is_sha256_hex(evidence.source_hash@),
        evidence.as_of_sequence <= claim_as_of,
        evidence.artifact_id is None,
        first_with_id(events, evidence.event_id, k),
        k + 1 <= evidence.as_of_sequence,
        recorded_hash(events[k]) != evidence.source_hash@,
    ensures
        evidence_verdict(state, events, evidence, claim_as_of) == Err::<(), CompletionError>(
            CompletionError::EventHashMismatch { event: evidence.event_id },
        ),
{
    lemma_first_event_found(events, evidence.event_id, 0, k);
}

} // verus!
