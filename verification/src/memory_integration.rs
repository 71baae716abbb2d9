//! Memory integration: the checks a verdict on an integration candidate
//! must pass, the verdict that is recorded, and the Memory a verified
//! candidate becomes.
use vstd::prelude::*;

use crate::completion::{
    find_creation, find_event, first_creation_at, first_event_at, is_sha256_hex, min_u64,
    valid_sha256_hex,
};
use crate::integration::{
    candidate_fingerprint, event_source_hash, intact, source_hash_of, source_hash_text,
    spec_candidate_fingerprint, verify_integrity,
};
use crate::ids::new_id;
use crate::model::{
    clone_candidate, clone_evidence_refs, clone_ids, clone_materialization, clone_memory,
    clone_memory_candidate, clone_verification, same_candidate, same_materialization, same_memory,
    same_memory_candidate, same_verification, ActiveMemory, ActiveMemoryStatus, ArtifactId,
    EntityKind, EntityRef, EventId, EvidenceRef, IntegrationCandidate, IntegrationCandidateId,
    IntegrationCandidateKind, IntegrationMaterialization, IntegrationVerification, MemoryCandidate,
    MemoryCandidateId, MemoryCandidateStatus, MemoryId, MemoryKind, PrincipalId, PrincipalKind,
    VerificationDisposition,
};
use crate::projector::{
    first_integration_evidence_rejection, first_position, refused_from, replays_from,
    verification_rejection, ProjectionError, Projector,
};
use crate::state::{CurrentState, EventKind, ExperienceEvent, Payload};
use crate::format::{uuid_hyphenated, uuid_text};
use crate::table::{get, lemma_lookup_key, lookup};
use crate::text::{blank, is_blank, lemma_trim_not_blank, trim, trimmed};

verus! {

/// Why a Memory could not be made of a candidate.
#[derive(Clone, Copy, Debug, PartialEq, Eq, Structural)]
pub enum MaterializationFailure {
    /// The candidate's content or rationale is blank.
    BlankCandidate,
    /// The committed state lacks the Memory candidate.
    MissingMemoryCandidate,
    /// The committed state lacks the Memory.
    MissingMemory,
    /// The committed state lacks the materialization link.
    MissingLink,
}

/// Why a verdict on, or a materialization of, a candidate is refused.
pub enum IntegrationError {
    UnknownCandidate(IntegrationCandidateId),
    InvalidDispositionTransition { from: VerificationDisposition, to: VerificationDisposition },
    UnsupportedCandidateKind(IntegrationCandidateKind),
    MissingEvidence,
    InvalidEvidenceHash(String),
    UnknownEvidenceEvent(EventId),
    FutureEvidence { event: EventId, as_of: u64 },
    FutureEvidenceSequence { sequence: u64, as_of: u64 },
    EvidenceOutsideCandidate(EventId),
    SourceEventIntegrity(EventId),
    EventHashMismatch { event: EventId },
    UnknownArtifactEvidence(ArtifactId),
    ArtifactProvenanceMismatch { artifact: ArtifactId, event: EventId },
    ArtifactHashMismatch { artifact: ArtifactId },
    CandidateFingerprintMismatch,
    InvalidReason,
    UnknownActor(PrincipalId),
    ModelCannotVerify,
    StaleRevision { expected: u64, actual: u64 },
    MissingVerification(IntegrationCandidateId),
    CandidateNotVerified(IntegrationCandidateId),
    AlreadyMaterialized(IntegrationCandidateId),
    DuplicateFingerprint(String),
    MemoryMaterializationFailure(MaterializationFailure),
    Projection(ProjectionError),
}

/// Why an actor may not act on candidates, if it may not: it is unknown,
/// or it is the model where the model is excluded.
pub open spec fn actor_fault(state: &CurrentState, actor_id: PrincipalId, cannot_be_model: bool) -> Option<
    IntegrationError,
> {
    match lookup(state.principals@, actor_id) {
        None => Some(IntegrationError::UnknownActor(actor_id)),
        Some(p) => if cannot_be_model && p.kind == PrincipalKind::Hekate {
            Some(IntegrationError::ModelCannotVerify)
        } else {
            None
        },
    }
}

/// Refuses an unknown actor, and the model where `cannot_be_model`.
pub fn ensure_actor(state: &CurrentState, actor_id: PrincipalId, cannot_be_model: bool) -> (r: Result<
    (),
    IntegrationError,
>)
    requires
        state.wf(),
    ensures
        match r {
            Ok(()) => actor_fault(state, actor_id, cannot_be_model) is None,
            Err(e) => actor_fault(state, actor_id, cannot_be_model) == Some(e),
        },
{
    match get(&state.principals, actor_id) {
        None => Err(IntegrationError::UnknownActor(actor_id)),
        Some(p) => {
            if cannot_be_model && p.kind == PrincipalKind::Hekate {
                Err(IntegrationError::ModelCannotVerify)
            } else {
                Ok(())
            }
        },
    }
}

/// The events a candidate rests on: its sources, then its counterevidence.
pub open spec fn provenance(c: IntegrationCandidate) -> Seq<EventId> {
    c.source_event_ids@ + c.counterevidence_event_ids@
}

/// What is wrong with one provenance event of a candidate made as of
/// `as_of`, if anything: it is unknown, newer than the candidate, or fails
/// its integrity check.
pub open spec fn source_fault(events: Seq<ExperienceEvent>, as_of: u64, id: EventId) -> Option<
    IntegrationError,
> {
    match first_event_at(events, id, 0) {
        None => Some(IntegrationError::UnknownEvidenceEvent(id)),
        Some(i) => if i + 1 > as_of {
            Some(IntegrationError::FutureEvidence { event: id, as_of })
        } else if !intact(events[i]) {
            Some(IntegrationError::SourceEventIntegrity(id))
        } else {
            None
        },
    }
}

/// The fault of the first provenance event that has one.
pub open spec fn first_source_fault(events: Seq<ExperienceEvent>, as_of: u64, ids: Seq<EventId>) -> Option<
    IntegrationError,
>
    decreases ids.len(),
{
    if ids.len() == 0 {
        None
    } else if source_fault(events, as_of, ids[0]) is Some {
        source_fault(events, as_of, ids[0])
    } else {
        first_source_fault(events, as_of, ids.drop_first())
    }
}

/// What is wrong with one piece of evidence for a verdict on `c`, if
/// anything: a malformed hash, an as-of newer than the candidate, an event
/// outside the candidate's provenance, unknown or newer than either as-of,
/// an event failing its integrity check, an artifact unknown, created too
/// late, from another event or with another hash, or else an event whose
/// hash is not the one named.
pub open spec fn evidence_fault(
    state: &CurrentState,
    events: Seq<ExperienceEvent>,
    c: IntegrationCandidate,
    ev: EvidenceRef,
) -> Option<IntegrationError> {
    if !is_sha256_hex(ev.source_hash@) {
        Some(IntegrationError::InvalidEvidenceHash(ev.source_hash))
    } else if ev.as_of_sequence > c.as_of_revision {
        Some(
            IntegrationError::FutureEvidenceSequence {
                sequence: ev.as_of_sequence,
                as_of: c.as_of_revision,
            },
        )
    } else if !provenance(c).contains(ev.event_id) {
        Some(IntegrationError::EvidenceOutsideCandidate(ev.event_id))
    } else {
        match first_event_at(events, ev.event_id, 0) {
            None => Some(IntegrationError::UnknownEvidenceEvent(ev.event_id)),
            Some(i) => if i + 1 > ev.as_of_sequence || i + 1 > c.as_of_revision {
                Some(
                    IntegrationError::FutureEvidenceSequence {
                        sequence: (i + 1) as u64,
                        as_of: min_u64(ev.as_of_sequence, c.as_of_revision),
                    },
                )
            } else if !intact(events[i]) {
                Some(IntegrationError::SourceEventIntegrity(ev.event_id))
            } else {
                match ev.artifact_id {
                    Some(aid) => match lookup(state.artifacts@, aid) {
                        None => Some(IntegrationError::UnknownArtifactEvidence(aid)),
                        Some(artifact) => match first_creation_at(events, aid, 0) {
                            None => Some(IntegrationError::UnknownArtifactEvidence(aid)),
                            Some(k) => if k + 1 > ev.as_of_sequence {
                                Some(
                                    IntegrationError::FutureEvidenceSequence {
                                        sequence: (k + 1) as u64,
                                        as_of: ev.as_of_sequence,
                                    },
                                )
                            } else if artifact.provenance_event_id != ev.event_id {
                                Some(
                                    IntegrationError::ArtifactProvenanceMismatch {
                                        artifact: aid,
                                        event: ev.event_id,
                                    },
                                )
                            } else if artifact.content_hash@ != ev.source_hash@ {
                                Some(IntegrationError::ArtifactHashMismatch { artifact: aid })
                            } else {
                                None
                            },
                        },
                    },
                    None => if source_hash_of(events[i]) != ev.source_hash@ {
                        Some(IntegrationError::EventHashMismatch { event: ev.event_id })
                    } else {
                        None
                    },
                }
            },
        }
    }
}

/// The fault of the first piece of evidence that has one.
pub open spec fn first_evidence_fault(
    state: &CurrentState,
    events: Seq<ExperienceEvent>,
    c: IntegrationCandidate,
    evidence: Seq<EvidenceRef>,
) -> Option<IntegrationError>
    decreases evidence.len(),
{
    if evidence.len() == 0 {
        None
    } else if evidence_fault(state, events, c, evidence[0]) is Some {
        evidence_fault(state, events, c, evidence[0])
    } else {
        first_evidence_fault(state, events, c, evidence.drop_first())
    }
}

/// What is wrong with a candidate and the evidence for a verdict on it, if
/// anything, in the order the checks are made: blank content or rationale,
/// no sources, an as-of newer than the state, a fingerprint that is not
/// its own, a provenance event at fault, no evidence, or evidence at fault.
pub open spec fn candidate_fault(
    state: &CurrentState,
    events: Seq<ExperienceEvent>,
    c: IntegrationCandidate,
    evidence: Seq<EvidenceRef>,
) -> Option<IntegrationError> {
    if is_blank(c.content@) || is_blank(c.rationale@) {
        Some(IntegrationError::MemoryMaterializationFailure(MaterializationFailure::BlankCandidate))
    } else if c.source_event_ids@.len() == 0 {
        Some(IntegrationError::MissingEvidence)
    } else if c.as_of_revision > state.revision {
        Some(
            IntegrationError::FutureEvidenceSequence {
                sequence: c.as_of_revision,
                as_of: state.revision,
            },
        )
    } else if spec_candidate_fingerprint(
        c.kind,
        c.content@,
        c.source_event_ids@,
        c.counterevidence_event_ids@,
    ) != c.fingerprint@ {
        Some(IntegrationError::CandidateFingerprintMismatch)
    } else if first_source_fault(events, c.as_of_revision, provenance(c)) is Some {
        first_source_fault(events, c.as_of_revision, provenance(c))
    } else if evidence.len() == 0 {
        Some(IntegrationError::MissingEvidence)
    } else {
        first_evidence_fault(state, events, c, evidence)
    }
}

/// The candidate's sources followed by its counterevidence.
pub fn provenance_ids(c: &IntegrationCandidate) -> (r: Vec<EventId>)
    ensures
        r@ == provenance(*c),
{
    let mut out: Vec<EventId> = Vec::new();
    let mut i: usize = 0;
    while i < c.source_event_ids.len()
        invariant
            i <= c.source_event_ids@.len(),
            out@ == c.source_event_ids@.subrange(0, i as int),
        decreases c.source_event_ids@.len() - i,
    {
        out.push(c.source_event_ids[i]);
        i = i + 1;
    }
    let mut j: usize = 0;
    while j < c.counterevidence_event_ids.len()
        invariant
            j <= c.counterevidence_event_ids@.len(),
            out@ == c.source_event_ids@ + c.counterevidence_event_ids@.subrange(0, j as int),
        decreases c.counterevidence_event_ids@.len() - j,
    {
        out.push(c.counterevidence_event_ids[j]);
        proof {
            assert(c.counterevidence_event_ids@.subrange(0, j + 1)
                =~= c.counterevidence_event_ids@.subrange(0, j as int).push(
                c.counterevidence_event_ids@[j as int],
            ));
        }
        j = j + 1;
    }
    proof {
        assert(c.counterevidence_event_ids@.subrange(0, c.counterevidence_event_ids@.len() as int)
            =~= c.counterevidence_event_ids@);
    }
    out
}

fn check_source(events: &[ExperienceEvent], as_of: u64, id: EventId) -> (r: Result<(), IntegrationError>)
    ensures
        match r {
            Ok(()) => source_fault(events@, as_of, id) is None,
            Err(e) => source_fault(events@, as_of, id) == Some(e),
        },
{
    let index = match find_event(events, id) {
        None => {
            return Err(IntegrationError::UnknownEvidenceEvent(id));
        },
        Some(i) => i,
    };
    let total = events.len();
    assert(index < total);
    let next: usize = index + 1;
    if next as u64 > as_of {
        return Err(IntegrationError::FutureEvidence { event: id, as_of });
    }
    if !verify_integrity(&events[index]) {
        return Err(IntegrationError::SourceEventIntegrity(id));
    }
    Ok(())
}

fn check_sources(events: &[ExperienceEvent], as_of: u64, ids: &Vec<EventId>) -> (r: Result<
    (),
    IntegrationError,
>)
    ensures
        match r {
            Ok(()) => first_source_fault(events@, as_of, ids@) is None,
            Err(e) => first_source_fault(events@, as_of, ids@) == Some(e),
        },
{
    let mut i: usize = 0;
    proof {
        assert(ids@.subrange(0, ids@.len() as int) =~= ids@);
    }
    while i < ids.len()
        invariant
            i <= ids@.len(),
            first_source_fault(events@, as_of, ids@) == first_source_fault(
                events@,
                as_of,
                ids@.subrange(i as int, ids@.len() as int),
            ),
        decreases ids@.len() - i,
    {
        proof {
            let rest = ids@.subrange(i as int, ids@.len() as int);
            assert(rest.drop_first() =~= ids@.subrange(i + 1, ids@.len() as int));
            assert(rest[0] == ids@[i as int]);
        }
        match check_source(events, as_of, ids[i]) {
            Err(e) => {
                return Err(e);
            },
            Ok(()) => {},
        }
        i = i + 1;
    }
    Ok(())
}

fn check_evidence_piece(
    state: &CurrentState,
    events: &[ExperienceEvent],
    c: &IntegrationCandidate,
    ids: &Vec<EventId>,
    ev: &EvidenceRef,
) -> (r: Result<(), IntegrationError>)
    requires
        state.wf(),
        ids@ == provenance(*c),
    ensures
        match r {
            Ok(()) => evidence_fault(state, events@, *c, *ev) is None,
            Err(e) => evidence_fault(state, events@, *c, *ev) == Some(e),
        },
{
    if !valid_sha256_hex(ev.source_hash.as_str()) {
        return Err(IntegrationError::InvalidEvidenceHash(ev.source_hash.clone()));
    }
    if ev.as_of_sequence > c.as_of_revision {
        return Err(
            IntegrationError::FutureEvidenceSequence {
                sequence: ev.as_of_sequence,
                as_of: c.as_of_revision,
            },
        );
    }
    if !crate::model::contains_id(ids, ev.event_id) {
        return Err(IntegrationError::EvidenceOutsideCandidate(ev.event_id));
    }
    let index = match find_event(events, ev.event_id) {
        None => {
            return Err(IntegrationError::UnknownEvidenceEvent(ev.event_id));
        },
        Some(i) => i,
    };
    let total = events.len();
    assert(index < total);
    let next: usize = index + 1;
    let sequence = next as u64;
    if sequence > ev.as_of_sequence || sequence > c.as_of_revision {
        let as_of = if ev.as_of_sequence <= c.as_of_revision {
            ev.as_of_sequence
        } else {
            c.as_of_revision
        };
        return Err(IntegrationError::FutureEvidenceSequence { sequence, as_of });
    }
    if !verify_integrity(&events[index]) {
        return Err(IntegrationError::SourceEventIntegrity(ev.event_id));
    }
    match ev.artifact_id {
        Some(aid) => {
            let artifact = match get(&state.artifacts, aid) {
                None => {
                    return Err(IntegrationError::UnknownArtifactEvidence(aid));
                },
                Some(a) => a,
            };
            let created = match find_creation(events, aid) {
                None => {
                    return Err(IntegrationError::UnknownArtifactEvidence(aid));
                },
                Some(k) => k,
            };
            assert(created < total);
            let created_next: usize = created + 1;
            if created_next as u64 > ev.as_of_sequence {
                return Err(
                    IntegrationError::FutureEvidenceSequence {
                        sequence: created_next as u64,
                        as_of: ev.as_of_sequence,
                    },
                );
            }
            if artifact.provenance_event_id != ev.event_id {
                return Err(
                    IntegrationError::ArtifactProvenanceMismatch {
                        artifact: aid,
                        event: ev.event_id,
                    },
                );
            }
            if artifact.content_hash != ev.source_hash {
                return Err(IntegrationError::ArtifactHashMismatch { artifact: aid });
            }
            Ok(())
        },
        None => {
            let expected = event_source_hash(&events[index]);
            if expected != ev.source_hash {
                return Err(IntegrationError::EventHashMismatch { event: ev.event_id });
            }
            Ok(())
        },
    }
}

/// Checks a candidate and the evidence for a verdict on it against the
/// state and the ledger `events` (sequence `k + 1` is `events[k]`),
/// reporting the first fault.
pub fn validate_candidate(
    state: &CurrentState,
    events: &[ExperienceEvent],
    candidate: &IntegrationCandidate,
    evidence_refs: &Vec<EvidenceRef>,
) -> (r: Result<(), IntegrationError>)
    requires
        state.wf(),
    ensures
        match r {
            Ok(()) => candidate_fault(state, events@, *candidate, evidence_refs@) is None,
            Err(e) => candidate_fault(state, events@, *candidate, evidence_refs@) == Some(e),
        },
{
    if blank(candidate.content.as_str()) || blank(candidate.rationale.as_str()) {
        return Err(
            IntegrationError::MemoryMaterializationFailure(MaterializationFailure::BlankCandidate),
        );
    }
    if candidate.source_event_ids.len() == 0 {
        return Err(IntegrationError::MissingEvidence);
    }
    if candidate.as_of_revision > state.revision {
        return Err(
            IntegrationError::FutureEvidenceSequence {
                sequence: candidate.as_of_revision,
                as_of: state.revision,
            },
        );
    }
    let expected = candidate_fingerprint(
        candidate.kind,
        candidate.content.as_str(),
        &candidate.source_event_ids,
        &candidate.counterevidence_event_ids,
    );
    if expected != candidate.fingerprint {
        return Err(IntegrationError::CandidateFingerprintMismatch);
    }
    let ids = provenance_ids(candidate);
    match check_sources(events, candidate.as_of_revision, &ids) {
        Err(e) => {
            return Err(e);
        },
        Ok(()) => {},
    }
    if evidence_refs.len() == 0 {
        return Err(IntegrationError::MissingEvidence);
    }
    let mut i: usize = 0;
    proof {
        assert(evidence_refs@.subrange(0, evidence_refs@.len() as int) =~= evidence_refs@);
    }
    while i < evidence_refs.len()
        invariant
            state.wf(),
            ids@ == provenance(*candidate),
            i <= evidence_refs@.len(),
            candidate_fault(state, events@, *candidate, evidence_refs@) == first_evidence_fault(
                state,
                events@,
                *candidate,
                evidence_refs@,
            ),
            first_evidence_fault(state, events@, *candidate, evidence_refs@) == first_evidence_fault(
                state,
                events@,
                *candidate,
                evidence_refs@.subrange(i as int, evidence_refs@.len() as int),
            ),
        decreases evidence_refs@.len() - i,
    {
        proof {
            let rest = evidence_refs@.subrange(i as int, evidence_refs@.len() as int);
            assert(rest.drop_first() =~= evidence_refs@.subrange(i + 1, evidence_refs@.len() as int));
            assert(rest[0] == evidence_refs@[i as int]);
        }
        match check_evidence_piece(state, events, candidate, &ids, &evidence_refs[i]) {
            Err(e) => {
                return Err(e);
            },
            Ok(()) => {},
        }
        i = i + 1;
    }
    Ok(())
}

/// What keeps a provenance event from serving as default evidence, if
/// anything: it is unknown or fails its integrity check.
pub open spec fn default_fault(events: Seq<ExperienceEvent>, id: EventId) -> Option<IntegrationError> {
    match first_event_at(events, id, 0) {
        None => Some(IntegrationError::UnknownEvidenceEvent(id)),
        Some(i) => if !intact(events[i]) {
            Some(IntegrationError::SourceEventIntegrity(id))
        } else {
            None
        },
    }
}

/// The fault of the first provenance event that cannot serve as default
/// evidence.
pub open spec fn first_default_fault(events: Seq<ExperienceEvent>, ids: Seq<EventId>) -> Option<
    IntegrationError,
>
    decreases ids.len(),
{
    if ids.len() == 0 {
        None
    } else if default_fault(events, ids[0]) is Some {
        default_fault(events, ids[0])
    } else {
        first_default_fault(events, ids.drop_first())
    }
}

/// The evidence a verdict cites when none is given: each provenance event
/// of the candidate, in order, with the hash it carries, as of the
/// candidate's revision.
pub open spec fn default_evidence_list(events: Seq<ExperienceEvent>, c: IntegrationCandidate) -> Seq<
    EvidenceRef,
> {
    Seq::new(
        provenance(c).len(),
        |k: int|
            EvidenceRef {
                event_id: provenance(c)[k],
                artifact_id: None,
                source_hash: source_hash_text(events[first_event_at(events, provenance(c)[k], 0)->0]),
                as_of_sequence: c.as_of_revision,
            },
    )
}

/// The evidence a verdict on `candidate` cites when none is given, or the
/// first provenance event that cannot serve.
pub fn default_evidence(candidate: &IntegrationCandidate, events: &[ExperienceEvent]) -> (r: Result<
    Vec<EvidenceRef>,
    IntegrationError,
>)
    ensures
        match r {
            Ok(list) => first_default_fault(events@, provenance(*candidate)) is None && list@
                == default_evidence_list(events@, *candidate),
            Err(e) => first_default_fault(events@, provenance(*candidate)) == Some(e),
        },
{
    let ids = provenance_ids(candidate);
    let ghost all = default_evidence_list(events@, *candidate);
    let mut out: Vec<EvidenceRef> = Vec::new();
    let mut i: usize = 0;
    proof {
        assert(ids@.subrange(0, ids@.len() as int) =~= ids@);
    }
    while i < ids.len()
        invariant
            ids@ == provenance(*candidate),
            all == default_evidence_list(events@, *candidate),
            i <= ids@.len(),
            first_default_fault(events@, ids@) == first_default_fault(
                events@,
                ids@.subrange(i as int, ids@.len() as int),
            ),
            out@ == all.subrange(0, i as int),
        decreases ids@.len() - i,
    {
        proof {
            let rest = ids@.subrange(i as int, ids@.len() as int);
            assert(rest.drop_first() =~= ids@.subrange(i + 1, ids@.len() as int));
            assert(rest[0] == ids@[i as int]);
        }
        let id = ids[i];
        let index = match find_event(events, id) {
            None => {
                return Err(IntegrationError::UnknownEvidenceEvent(id));
            },
            Some(k) => k,
        };
        if !verify_integrity(&events[index]) {
            return Err(IntegrationError::SourceEventIntegrity(id));
        }
        let source_hash = event_source_hash(&events[index]);
        out.push(
            EvidenceRef {
                event_id: id,
                artifact_id: None,
                source_hash,
                as_of_sequence: candidate.as_of_revision,
            },
        );
        proof {
            assert(out@ =~= all.subrange(0, i + 1));
        }
        i = i + 1;
    }
    proof {
        assert(all.subrange(0, ids@.len() as int) =~= all);
    }
    Ok(out)
}

/// Whether the event records the creation of the candidate.
pub open spec fn creates_candidate(e: ExperienceEvent, candidate_id: IntegrationCandidateId) -> bool {
    &&& e.event_kind == EventKind::IntegrationCandidateCreated
    &&& e.subject == Some(EntityRef { kind: EntityKind::IntegrationCandidate, id: candidate_id })
}

/// The identifier of the last event among the first `n` that created the
/// candidate, if any.
pub open spec fn last_candidate_event(
    events: Seq<ExperienceEvent>,
    candidate_id: IntegrationCandidateId,
    n: int,
) -> Option<EventId>
    decreases n,
{
    if n <= 0 || n > events.len() {
        None
    } else if creates_candidate(events[n - 1], candidate_id) {
        Some(events[n - 1].event_id)
    } else {
        last_candidate_event(events, candidate_id, n - 1)
    }
}

/// The identifier of the latest event that created the candidate, if any.
pub fn candidate_event_id(events: &[ExperienceEvent], candidate_id: IntegrationCandidateId) -> (r:
    Option<EventId>)
    ensures
        r == last_candidate_event(events@, candidate_id, events@.len() as int),
{
    let mut n: usize = events.len();
    while n > 0
        invariant
            n <= events@.len(),
            last_candidate_event(events@, candidate_id, events@.len() as int)
                == last_candidate_event(events@, candidate_id, n as int),
        decreases n,
    {
        let e = &events[n - 1];
        let creates = e.event_kind == EventKind::IntegrationCandidateCreated && match e.subject {
            Some(s) => s.kind == EntityKind::IntegrationCandidate && s.id == candidate_id,
            None => false,
        };
        if creates {
            return Some(e.event_id);
        }
        n = n - 1;
    }
    None
}

/// A verdict ready to be recorded: the verification, the kind of event
/// that records it, and the event that created its candidate.
pub struct IntegrationTransition {
    pub verification: IntegrationVerification,
    pub event_kind: EventKind,
    pub causation_id: Option<EventId>,
}

/// The evidence given, as a sequence.
pub open spec fn given_view(given: Option<Vec<EvidenceRef>>) -> Option<Seq<EvidenceRef>> {
    match given {
        Some(list) => Some(list@),
        None => None,
    }
}

/// The evidence a verdict cites: the evidence given, else the default.
pub open spec fn cited_evidence(
    events: Seq<ExperienceEvent>,
    c: IntegrationCandidate,
    given: Option<Seq<EvidenceRef>>,
) -> Seq<EvidenceRef> {
    match given {
        Some(list) => list,
        None => default_evidence_list(events, c),
    }
}

/// Why a verdict moving candidate `candidate_id` to `disposition` is
/// refused, if it is, in the order the checks are made: the candidate is
/// unknown, the actor is unknown or the model, the candidate does not
/// await validation or the verdict is neither Verified nor Rejected, the
/// reason is blank, default evidence cannot be had, or the candidate and
/// the evidence fail their checks.
pub open spec fn transition_fault(
    state: &CurrentState,
    events: Seq<ExperienceEvent>,
    candidate_id: IntegrationCandidateId,
    actor_id: PrincipalId,
    disposition: VerificationDisposition,
    reason: Seq<char>,
    given: Option<Seq<EvidenceRef>>,
) -> Option<IntegrationError> {
    match lookup(state.integration_candidates@, candidate_id) {
        None => Some(IntegrationError::UnknownCandidate(candidate_id)),
        Some(c) => if actor_fault(state, actor_id, true) is Some {
            actor_fault(state, actor_id, true)
        } else if c.disposition != VerificationDisposition::NeedsValidation || !(disposition
            == VerificationDisposition::Verified || disposition
            == VerificationDisposition::Rejected) {
            Some(
                IntegrationError::InvalidDispositionTransition {
                    from: c.disposition,
                    to: disposition,
                },
            )
        } else if is_blank(reason) {
            Some(IntegrationError::InvalidReason)
        } else if given is None && first_default_fault(events, provenance(c)) is Some {
            first_default_fault(events, provenance(c))
        } else {
            candidate_fault(state, events, c, cited_evidence(events, c, given))
        },
    }
}

/// The event kind that records a verdict.
pub open spec fn verdict_event_kind(disposition: VerificationDisposition) -> EventKind {
    if disposition == VerificationDisposition::Verified {
        EventKind::IntegrationCandidateVerified
    } else {
        EventKind::IntegrationCandidateRejected
    }
}

/// `t` is the verdict moving candidate `c` to `disposition` for the actor,
/// with the reason trimmed and the cited evidence, as of the candidate's
/// revision.
pub open spec fn planned_transition(
    events: Seq<ExperienceEvent>,
    c: IntegrationCandidate,
    actor_id: PrincipalId,
    disposition: VerificationDisposition,
    reason: Seq<char>,
    given: Option<Seq<EvidenceRef>>,
    t: IntegrationTransition,
) -> bool {
    &&& t.verification.candidate_id == c.id
    &&& t.verification.previous_disposition == c.disposition
    &&& t.verification.new_disposition == disposition
    &&& t.verification.actor_id == actor_id
    &&& t.verification.reason@ == trim(reason)
    &&& t.verification.evidence_refs@ == cited_evidence(events, c, given)
    &&& t.verification.as_of_revision == c.as_of_revision
    &&& t.event_kind == verdict_event_kind(disposition)
    &&& t.causation_id == last_candidate_event(events, c.id, events.len() as int)
}

/// `r` is the outcome of a verdict moving candidate `candidate_id` to
/// `disposition`: refused exactly for the fault `transition_fault`
/// names, else the planned verdict.
pub open spec fn transition_outcome(
    state: &CurrentState,
    events: Seq<ExperienceEvent>,
    candidate_id: IntegrationCandidateId,
    actor_id: PrincipalId,
    disposition: VerificationDisposition,
    reason: Seq<char>,
    given: Option<Seq<EvidenceRef>>,
    r: Result<IntegrationTransition, IntegrationError>,
) -> bool {
    match r {
        Ok(t) => transition_fault(state, events, candidate_id, actor_id, disposition, reason, given)
            is None && planned_transition(
            events,
            lookup(state.integration_candidates@, candidate_id)->0,
            actor_id,
            disposition,
            reason,
            given,
            t,
        ),
        Err(e) => transition_fault(state, events, candidate_id, actor_id, disposition, reason, given)
            == Some(e),
    }
}

/// Plans the verdict moving a candidate awaiting validation to Verified or
/// Rejected: checks the actor, the reason, the candidate and the evidence
/// (the default evidence where none is given) against the state and the
/// ledger `events`, and gives the verification to record.
pub fn plan_integration_transition(
    state: &CurrentState,
    events: &[ExperienceEvent],
    candidate_id: IntegrationCandidateId,
    actor_id: PrincipalId,
    disposition: VerificationDisposition,
    reason: &str,
    evidence_refs: Option<Vec<EvidenceRef>>,
) -> (r: Result<IntegrationTransition, IntegrationError>)
    requires
        state.wf(),
    ensures
        transition_outcome(
            state,
            events@,
            candidate_id,
            actor_id,
            disposition,
            reason@,
            given_view(evidence_refs),
            r,
        ),
{
    let ghost given = given_view(evidence_refs);
    let candidate = match get(&state.integration_candidates, candidate_id) {
        None => {
            return Err(IntegrationError::UnknownCandidate(candidate_id));
        },
        Some(c) => c,
    };
    match ensure_actor(state, actor_id, true) {
        Err(e) => {
            return Err(e);
        },
        Ok(()) => {},
    }
    if candidate.disposition != VerificationDisposition::NeedsValidation || !(disposition
        == VerificationDisposition::Verified || disposition == VerificationDisposition::Rejected) {
        return Err(
            IntegrationError::InvalidDispositionTransition {
                from: candidate.disposition,
                to: disposition,
            },
        );
    }
    if blank(reason) {
        return Err(IntegrationError::InvalidReason);
    }
    let evidence = match evidence_refs {
        Some(list) => list,
        None => match default_evidence(candidate, events) {
            Err(e) => {
                return Err(e);
            },
            Ok(list) => list,
        },
    };
    assert(evidence@ == cited_evidence(events@, *candidate, given));
    match validate_candidate(state, events, candidate, &evidence) {
        Err(e) => {
            return Err(e);
        },
        Ok(()) => {},
    }
    let event_kind = if disposition == VerificationDisposition::Verified {
        EventKind::IntegrationCandidateVerified
    } else {
        EventKind::IntegrationCandidateRejected
    };
    Ok(
        IntegrationTransition {
            verification: IntegrationVerification {
                candidate_id,
                previous_disposition: candidate.disposition,
                new_disposition: disposition,
                actor_id,
                reason: trimmed(reason),
                evidence_refs: evidence,
                as_of_revision: candidate.as_of_revision,
            },
            event_kind,
            causation_id: candidate_event_id(events, candidate_id),
        },
    )
}

/// A batch committed on top of the state, or why it was not: a revision
/// that moved is reported as stale, any other refusal as the projector
/// gave it.
pub fn commit_batch(state: CurrentState, events: Vec<ExperienceEvent>, expected_revision: u64) -> (r:
    Result<CurrentState, IntegrationError>)
    requires
        state.wf(),
        state.revision + events@.len() < u64::MAX,
    ensures
        expected_revision != state.revision ==> r == Err::<CurrentState, IntegrationError>(
            IntegrationError::StaleRevision { expected: expected_revision, actual: state.revision },
        ),
        expected_revision == state.revision ==> match r {
            Ok(s) => replays_from(state, events@, s),
            Err(IntegrationError::Projection(e)) => refused_from(state, events@, e),
            Err(_) => false,
        },
{
    if expected_revision != state.revision {
        return Err(
            IntegrationError::StaleRevision { expected: expected_revision, actual: state.revision },
        );
    }
    match Projector::project_batch(state, events, None) {
        Ok(s) => Ok(s),
        Err(e) => Err(IntegrationError::Projection(e)),
    }
}

/// Whether a materialization with the fingerprint stands behind a Memory
/// that is still active.
pub open spec fn fingerprint_live(state: &CurrentState, fingerprint: Seq<char>) -> bool {
    exists|i: int|
        0 <= i < state.integration_materializations@.len() && {
            let m = #[trigger] state.integration_materializations@[i];
            &&& m.fingerprint@ == fingerprint
            &&& lookup(state.active_memories@, m.memory_id) matches Some(memory)
            &&& memory.status == ActiveMemoryStatus::Active
        }
}

/// Whether an active lesson already holds the candidate's content on the
/// same sources.
pub open spec fn lesson_live(state: &CurrentState, c: IntegrationCandidate) -> bool {
    exists|i: int|
        0 <= i < state.active_memories@.len() && {
            let m = #[trigger] state.active_memories@[i];
            &&& m.status == ActiveMemoryStatus::Active
            &&& m.kind == MemoryKind::Lesson
            &&& m.content@ == c.content@
            &&& m.source_event_ids@ == c.source_event_ids@
        }
}

/// Why a candidate may not become a Memory, if it may not, in the order
/// the checks are made: the actor is unknown, the candidate is unknown,
/// not verified, not a Memory candidate or already materialized, its
/// verdict is missing or not Verified, the candidate and the verdict's
/// evidence fail their checks, or an active Memory already holds it.
pub open spec fn materialize_fault(
    state: &CurrentState,
    events: Seq<ExperienceEvent>,
    candidate_id: IntegrationCandidateId,
    actor_id: PrincipalId,
) -> Option<IntegrationError> {
    if actor_fault(state, actor_id, false) is Some {
        actor_fault(state, actor_id, false)
    } else {
        match lookup(state.integration_candidates@, candidate_id) {
            None => Some(IntegrationError::UnknownCandidate(candidate_id)),
            Some(c) => if c.disposition != VerificationDisposition::Verified {
                Some(IntegrationError::CandidateNotVerified(candidate_id))
            } else if c.kind != IntegrationCandidateKind::Memory {
                Some(IntegrationError::UnsupportedCandidateKind(c.kind))
            } else if lookup(state.integration_materializations@, candidate_id) is Some {
                Some(IntegrationError::AlreadyMaterialized(candidate_id))
            } else {
                match lookup(state.integration_verifications@, candidate_id) {
                    None => Some(IntegrationError::MissingVerification(candidate_id)),
                    Some(v) => if v.new_disposition != VerificationDisposition::Verified {
                        Some(IntegrationError::CandidateNotVerified(candidate_id))
                    } else if candidate_fault(state, events, c, v.evidence_refs@) is Some {
                        candidate_fault(state, events, c, v.evidence_refs@)
                    } else if fingerprint_live(state, c.fingerprint@) || lesson_live(state, c) {
                        Some(IntegrationError::DuplicateFingerprint(c.fingerprint))
                    } else {
                        None
                    },
                }
            },
        }
    }
}

/// A verified candidate made a Memory: the Memory candidate, the Memory
/// promoted from it, and the link from the integration candidate.
pub struct MemoryIntegrationResult {
    pub memory_candidate: MemoryCandidate,
    pub memory: ActiveMemory,
    pub materialization: IntegrationMaterialization,
}

/// `p` makes candidate `c`, verified by `v`, the lesson `memory_id`
/// promoted from the Memory candidate `memory_candidate_id`: both hold the
/// candidate's content and sources, and the link repeats the candidate's
/// provenance, fingerprint and as-of revision and the verdict's evidence.
pub open spec fn planned_materialization(
    c: IntegrationCandidate,
    v: IntegrationVerification,
    memory_candidate_id: MemoryCandidateId,
    memory_id: MemoryId,
    p: MemoryIntegrationResult,
) -> bool {
    &&& p.memory_candidate.id == memory_candidate_id
    &&& p.memory_candidate.kind == MemoryKind::Lesson
    &&& p.memory_candidate.content@ == c.content@
    &&& p.memory_candidate.subject_principal_id is None
    &&& p.memory_candidate.status == MemoryCandidateStatus::Candidate
    &&& p.memory_candidate.source_event_ids@ == c.source_event_ids@
    &&& p.memory.id == memory_id
    &&& p.memory.candidate_id == memory_candidate_id
    &&& p.memory.kind == MemoryKind::Lesson
    &&& p.memory.content@ == c.content@
    &&& p.memory.subject_principal_id is None
    &&& p.memory.status == ActiveMemoryStatus::Active
    &&& p.memory.source_event_ids@ == c.source_event_ids@
    &&& p.materialization.candidate_id == c.id
    &&& p.materialization.memory_candidate_id == memory_candidate_id
    &&& p.materialization.memory_id == memory_id
    &&& p.materialization.source_event_ids@ == c.source_event_ids@
    &&& p.materialization.counterevidence_event_ids@ == c.counterevidence_event_ids@
    &&& p.materialization.evidence_refs@ == v.evidence_refs@
    &&& p.materialization.fingerprint@ == c.fingerprint@
    &&& p.materialization.as_of_revision == c.as_of_revision
}

fn fingerprint_in_use(state: &CurrentState, fingerprint: &String) -> (r: bool)
    requires
        state.wf(),
    ensures
        r == fingerprint_live(state, fingerprint@),
{
    let mut i: usize = 0;
    while i < state.integration_materializations.len()
        invariant
            state.wf(),
            i <= state.integration_materializations@.len(),
            forall|j: int|
                0 <= j < i ==> !({
                    let m = #[trigger] state.integration_materializations@[j];
                    &&& m.fingerprint@ == fingerprint@
                    &&& lookup(state.active_memories@, m.memory_id) matches Some(memory)
                    &&& memory.status == ActiveMemoryStatus::Active
                }),
        decreases state.integration_materializations@.len() - i,
    {
        let m = &state.integration_materializations[i];
        if m.fingerprint == *fingerprint {
            match get(&state.active_memories, m.memory_id) {
                Some(memory) => {
                    if memory.status == ActiveMemoryStatus::Active {
                        return true;
                    }
                },
                None => {},
            }
        }
        i = i + 1;
    }
    false
}

fn lesson_in_use(state: &CurrentState, c: &IntegrationCandidate) -> (r: bool)
    ensures
        r == lesson_live(state, *c),
{
    let mut i: usize = 0;
    while i < state.active_memories.len()
        invariant
            i <= state.active_memories@.len(),
            forall|j: int|
                0 <= j < i ==> !({
                    let m = #[trigger] state.active_memories@[j];
                    &&& m.status == ActiveMemoryStatus::Active
                    &&& m.kind == MemoryKind::Lesson
                    &&& m.content@ == c.content@
                    &&& m.source_event_ids@ == c.source_event_ids@
                }),
        decreases state.active_memories@.len() - i,
    {
        let m = &state.active_memories[i];
        if m.status == ActiveMemoryStatus::Active && m.kind == MemoryKind::Lesson && m.content
            == c.content && ids_equal(&m.source_event_ids, &c.source_event_ids) {
            return true;
        }
        i = i + 1;
    }
    false
}

fn ids_equal(a: &Vec<EventId>, b: &Vec<EventId>) -> (r: bool)
    ensures
        r == (a@ == b@),
{
    if a.len() != b.len() {
        return false;
    }
    let mut i: usize = 0;
    while i < a.len()
        invariant
            a@.len() == b@.len(),
            i <= a@.len(),
            forall|j: int| 0 <= j < i ==> a@[j] == b@[j],
        decreases a@.len() - i,
    {
        if a[i] != b[i] {
            return false;
        }
        i = i + 1;
    }
    proof {
        assert(a@ =~= b@);
    }
    true
}

/// Plans making a verified Memory candidate a lesson under the given
/// identifiers: checks the actor, the candidate, its verdict and the
/// verdict's evidence against the state and the ledger `events`, and
/// refuses a candidate an active Memory already holds.
pub fn materialization_plan(
    state: &CurrentState,
    events: &[ExperienceEvent],
    candidate_id: IntegrationCandidateId,
    actor_id: PrincipalId,
    memory_candidate_id: MemoryCandidateId,
    memory_id: MemoryId,
) -> (r: Result<MemoryIntegrationResult, IntegrationError>)
    requires
        state.wf(),
    ensures
        match r {
            Ok(p) => materialize_fault(state, events@, candidate_id, actor_id) is None
                && planned_materialization(
                lookup(state.integration_candidates@, candidate_id)->0,
                lookup(state.integration_verifications@, candidate_id)->0,
                memory_candidate_id,
                memory_id,
                p,
            ),
            Err(e) => materialize_fault(state, events@, candidate_id, actor_id) == Some(e),
        },
{
    match ensure_actor(state, actor_id, false) {
        Err(e) => {
            return Err(e);
        },
        Ok(()) => {},
    }
    let candidate = match get(&state.integration_candidates, candidate_id) {
        None => {
            return Err(IntegrationError::UnknownCandidate(candidate_id));
        },
        Some(c) => c,
    };
    if candidate.disposition != VerificationDisposition::Verified {
        return Err(IntegrationError::CandidateNotVerified(candidate_id));
    }
    if candidate.kind != IntegrationCandidateKind::Memory {
        return Err(IntegrationError::UnsupportedCandidateKind(candidate.kind));
    }
    if crate::table::contains_key(&state.integration_materializations, candidate_id) {
        return Err(IntegrationError::AlreadyMaterialized(candidate_id));
    }
    let verification = match get(&state.integration_verifications, candidate_id) {
        None => {
            return Err(IntegrationError::MissingVerification(candidate_id));
        },
        Some(v) => v,
    };
    if verification.new_disposition != VerificationDisposition::Verified {
        return Err(IntegrationError::CandidateNotVerified(candidate_id));
    }
    match validate_candidate(state, events, candidate, &verification.evidence_refs) {
        Err(e) => {
            return Err(e);
        },
        Ok(()) => {},
    }
    if fingerprint_in_use(state, &candidate.fingerprint) || lesson_in_use(state, candidate) {
        return Err(IntegrationError::DuplicateFingerprint(candidate.fingerprint.clone()));
    }
    Ok(
        MemoryIntegrationResult {
            memory_candidate: MemoryCandidate {
                id: memory_candidate_id,
                kind: MemoryKind::Lesson,
                content: candidate.content.clone(),
                subject_principal_id: None,
                status: MemoryCandidateStatus::Candidate,
                source_event_ids: clone_ids(&candidate.source_event_ids),
            },
            memory: ActiveMemory {
                id: memory_id,
                candidate_id: memory_candidate_id,
                kind: MemoryKind::Lesson,
                content: candidate.content.clone(),
                subject_principal_id: None,
                status: ActiveMemoryStatus::Active,
                source_event_ids: clone_ids(&candidate.source_event_ids),
            },
            materialization: IntegrationMaterialization {
                candidate_id,
                memory_candidate_id,
                memory_id,
                source_event_ids: clone_ids(&candidate.source_event_ids),
                counterevidence_event_ids: clone_ids(&candidate.counterevidence_event_ids),
                evidence_refs: clone_evidence_refs(&verification.evidence_refs),
                fingerprint: candidate.fingerprint.clone(),
                as_of_revision: candidate.as_of_revision,
            },
        },
    )
}

/// Plans making a verified Memory candidate a lesson, under fresh
/// identifiers for the Memory candidate and the Memory; refused exactly
/// when `materialization_plan` refuses.
pub fn plan_materialize_memory(
    state: &CurrentState,
    events: &[ExperienceEvent],
    candidate_id: IntegrationCandidateId,
    actor_id: PrincipalId,
) -> (r: Result<MemoryIntegrationResult, IntegrationError>)
    requires
        state.wf(),
    ensures
        match r {
            Ok(p) => materialize_fault(state, events@, candidate_id, actor_id) is None
                && planned_materialization(
                lookup(state.integration_candidates@, candidate_id)->0,
                lookup(state.integration_verifications@, candidate_id)->0,
                p.memory_candidate.id,
                p.memory.id,
                p,
            ),
            Err(e) => materialize_fault(state, events@, candidate_id, actor_id) == Some(e),
        },
{
    let memory_candidate_id = new_id();
    let memory_id = new_id();
    materialization_plan(state, events, candidate_id, actor_id, memory_candidate_id, memory_id)
}

/// What the committed state holds of a materialization: the Memory
/// candidate, the Memory and the link it planned, each as stored.
pub fn committed_result(state: &CurrentState, plan: &MemoryIntegrationResult) -> (r: Result<
    MemoryIntegrationResult,
    IntegrationError,
>)
    requires
        state.wf(),
    ensures
        match r {
            Ok(p) => {
                &&& lookup(state.memory_candidates@, plan.memory_candidate.id) matches Some(mc)
                &&& lookup(state.active_memories@, plan.memory.id) matches Some(m)
                &&& lookup(state.integration_materializations@, plan.materialization.candidate_id) matches Some(link)
                &&& same_memory_candidate(p.memory_candidate, mc)
                &&& same_memory(p.memory, m)
                &&& same_materialization(p.materialization, link)
            },
            Err(e) => e == if lookup(state.memory_candidates@, plan.memory_candidate.id) is None {
                IntegrationError::MemoryMaterializationFailure(
                    MaterializationFailure::MissingMemoryCandidate,
                )
            } else if lookup(state.active_memories@, plan.memory.id) is None {
                IntegrationError::MemoryMaterializationFailure(MaterializationFailure::MissingMemory)
            } else {
                IntegrationError::MemoryMaterializationFailure(MaterializationFailure::MissingLink)
            } && (lookup(state.memory_candidates@, plan.memory_candidate.id) is None || lookup(
                state.active_memories@,
                plan.memory.id,
            ) is None || lookup(
                state.integration_materializations@,
                plan.materialization.candidate_id,
            ) is None),
        },
{
    let memory_candidate = match get(&state.memory_candidates, plan.memory_candidate.id) {
        None => {
            return Err(
                IntegrationError::MemoryMaterializationFailure(
                    MaterializationFailure::MissingMemoryCandidate,
                ),
            );
        },
        Some(mc) => clone_memory_candidate(mc),
    };
    let memory = match get(&state.active_memories, plan.memory.id) {
        None => {
            return Err(
                IntegrationError::MemoryMaterializationFailure(MaterializationFailure::MissingMemory),
            );
        },
        Some(m) => clone_memory(m),
    };
    let materialization = match get(
        &state.integration_materializations,
        plan.materialization.candidate_id,
    ) {
        None => {
            return Err(
                IntegrationError::MemoryMaterializationFailure(MaterializationFailure::MissingLink),
            );
        },
        Some(link) => clone_materialization(link),
    };
    Ok(MemoryIntegrationResult { memory_candidate, memory, materialization })
}

/// A candidate with its verdict and its materialization, where it has
/// them.
pub struct IntegrationCandidateInspection {
    pub candidate: IntegrationCandidate,
    pub verification: Option<IntegrationVerification>,
    pub materialization: Option<IntegrationMaterialization>,
}

/// `i` shows candidate `c` with what the state holds under its
/// identifier.
pub open spec fn inspection_of(state: &CurrentState, c: IntegrationCandidate, i: IntegrationCandidateInspection) -> bool {
    &&& same_candidate(i.candidate, c)
    &&& match lookup(state.integration_verifications@, c.id) {
        None => i.verification is None,
        Some(v) => i.verification matches Some(w) && same_verification(w, v),
    }
    &&& match lookup(state.integration_materializations@, c.id) {
        None => i.materialization is None,
        Some(m) => i.materialization matches Some(n) && same_materialization(n, m),
    }
}

fn inspection(state: &CurrentState, c: &IntegrationCandidate) -> (r: IntegrationCandidateInspection)
    requires
        state.wf(),
    ensures
        inspection_of(state, *c, r),
{
    let verification = match get(&state.integration_verifications, c.id) {
        None => None,
        Some(v) => Some(clone_verification(v)),
    };
    let materialization = match get(&state.integration_materializations, c.id) {
        None => None,
        Some(m) => Some(clone_materialization(m)),
    };
    IntegrationCandidateInspection { candidate: clone_candidate(c), verification, materialization }
}

/// Verdicts on integration candidates and the Memories verified ones
/// become; the ledger and the state are handed in by the caller.
pub struct MemoryIntegration {}

impl MemoryIntegration {
    pub fn new() -> (r: MemoryIntegration) {
        MemoryIntegration {  }
    }

    /// Every candidate, in identifier order, with its verdict and
    /// materialization.
    pub fn list(&self, state: &CurrentState) -> (r: Vec<IntegrationCandidateInspection>)
        requires
            state.wf(),
        ensures
            r@.len() == state.integration_candidates@.len(),
            forall|k: int|
                0 <= k < r@.len() ==> inspection_of(
                    state,
                    state.integration_candidates@[k],
                    #[trigger] r@[k],
                ),
    {
        let mut out: Vec<IntegrationCandidateInspection> = Vec::new();
        let mut i: usize = 0;
        while i < state.integration_candidates.len()
            invariant
                state.wf(),
                i <= state.integration_candidates@.len(),
                out@.len() == i,
                forall|k: int|
                    0 <= k < i ==> inspection_of(
                        state,
                        state.integration_candidates@[k],
                        #[trigger] out@[k],
                    ),
            decreases state.integration_candidates@.len() - i,
        {
            out.push(inspection(state, &state.integration_candidates[i]));
            i = i + 1;
        }
        out
    }

    /// One candidate with its verdict and materialization.
    pub fn inspect(&self, state: &CurrentState, candidate_id: IntegrationCandidateId) -> (r: Result<
        IntegrationCandidateInspection,
        IntegrationError,
    >)
        requires
            state.wf(),
        ensures
            match r {
                Ok(i) => lookup(state.integration_candidates@, candidate_id) matches Some(c)
                    && inspection_of(state, c, i),
                Err(e) => lookup(state.integration_candidates@, candidate_id) is None && e
                    == IntegrationError::UnknownCandidate(candidate_id),
            },
    {
        match get(&state.integration_candidates, candidate_id) {
            None => Err(IntegrationError::UnknownCandidate(candidate_id)),
            Some(c) => Ok(inspection(state, c)),
        }
    }

    /// Plans the verdict moving a candidate to Verified, citing its
    /// provenance events.
    pub fn verify_candidate(
        &self,
        state: &CurrentState,
        events: &[ExperienceEvent],
        candidate_id: IntegrationCandidateId,
        actor_id: PrincipalId,
        reason: &str,
    ) -> (r: Result<IntegrationTransition, IntegrationError>)
        requires
            state.wf(),
        ensures
            transition_outcome(
                state,
                events@,
                candidate_id,
                actor_id,
                VerificationDisposition::Verified,
                reason@,
                None,
                r,
            ),
    {
        plan_integration_transition(
            state,
            events,
            candidate_id,
            actor_id,
            VerificationDisposition::Verified,
            reason,
            None,
        )
    }

    /// Plans the verdict moving a candidate to Verified, citing the given
    /// evidence.
    pub fn verify_candidate_with_evidence(
        &self,
        state: &CurrentState,
        events: &[ExperienceEvent],
        candidate_id: IntegrationCandidateId,
        actor_id: PrincipalId,
        reason: &str,
        evidence_refs: Vec<EvidenceRef>,
    ) -> (r: Result<IntegrationTransition, IntegrationError>)
        requires
            state.wf(),
        ensures
            transition_outcome(
                state,
                events@,
                candidate_id,
                actor_id,
                VerificationDisposition::Verified,
                reason@,
                Some(evidence_refs@),
                r,
            ),
    {
        plan_integration_transition(
            state,
            events,
            candidate_id,
            actor_id,
            VerificationDisposition::Verified,
            reason,
            Some(evidence_refs),
        )
    }

    /// Plans the verdict moving a candidate to Rejected, citing its
    /// provenance events.
    pub fn reject_candidate(
        &self,
        state: &CurrentState,
        events: &[ExperienceEvent],
        candidate_id: IntegrationCandidateId,
        actor_id: PrincipalId,
        reason: &str,
    ) -> (r: Result<IntegrationTransition, IntegrationError>)
        requires
            state.wf(),
        ensures
            transition_outcome(
                state,
                events@,
                candidate_id,
                actor_id,
                VerificationDisposition::Rejected,
                reason@,
                None,
                r,
            ),
    {
        plan_integration_transition(
            state,
            events,
            candidate_id,
            actor_id,
            VerificationDisposition::Rejected,
            reason,
            None,
        )
    }

    /// Plans the verdict moving a candidate to Rejected, citing the given
    /// evidence.
    pub fn reject_candidate_with_evidence(
        &self,
        state: &CurrentState,
        events: &[ExperienceEvent],
        candidate_id: IntegrationCandidateId,
        actor_id: PrincipalId,
        reason: &str,
        evidence_refs: Vec<EvidenceRef>,
    ) -> (r: Result<IntegrationTransition, IntegrationError>)
        requires
            state.wf(),
        ensures
            transition_outcome(
                state,
                events@,
                candidate_id,
                actor_id,
                VerificationDisposition::Rejected,
                reason@,
                Some(evidence_refs@),
                r,
            ),
    {
        plan_integration_transition(
            state,
            events,
            candidate_id,
            actor_id,
            VerificationDisposition::Rejected,
            reason,
            Some(evidence_refs),
        )
    }
}

/// The state was projected from the ledger `events`: it records their
/// identifiers, in order.
pub open spec fn projected_from(state: &CurrentState, events: Seq<ExperienceEvent>) -> bool {
    state.applied_events@ == events.map_values(|e: ExperienceEvent| e.event_id)
}

proof fn lemma_positions_agree(events: Seq<ExperienceEvent>, ids: Seq<EventId>, id: EventId, from: int)
    requires
        ids == events.map_values(|e: ExperienceEvent| e.event_id),
    ensures
        first_position(ids, id, from) == first_event_at(events, id, from),
    decreases events.len() - from,
{
    if 0 <= from < events.len() {
        lemma_positions_agree(events, ids, id, from + 1);
    }
}

proof fn lemma_provenance_member(c: IntegrationCandidate, id: EventId)
    requires
        provenance(c).contains(id),
    ensures
        c.source_event_ids@.contains(id) || c.counterevidence_event_ids@.contains(id),
{
    let a = c.source_event_ids@;
    let b = c.counterevidence_event_ids@;
    let j = choose|j: int| 0 <= j < provenance(c).len() && provenance(c)[j] == id;
    if j < a.len() {
        assert(a[j] == id);
    } else {
        assert(b[j - a.len()] == id);
    }
}

proof fn lemma_evidence_accepted(
    state: &CurrentState,
    events: Seq<ExperienceEvent>,
    c: IntegrationCandidate,
    evidence: Seq<EvidenceRef>,
    from: int,
)
    requires
        projected_from(state, events),
        0 <= from <= evidence.len(),
        first_evidence_fault(state, events, c, evidence.subrange(from, evidence.len() as int)) is None,
    ensures
        first_integration_evidence_rejection(state, c, evidence, c.as_of_revision, from) is None,
    decreases evidence.len() - from,
{
    if from < evidence.len() {
        let rest = evidence.subrange(from, evidence.len() as int);
        assert(rest[0] == evidence[from]);
        assert(rest.drop_first() =~= evidence.subrange(from + 1, evidence.len() as int));
        let ev = evidence[from];
        lemma_positions_agree(events, state.applied_events@, ev.event_id, 0);
        if provenance(c).contains(ev.event_id) {
            lemma_provenance_member(c, ev.event_id);
        }
        lemma_evidence_accepted(state, events, c, evidence, from + 1);
    }
}

/// A verdict the service plans on a state projected from the ledger is one
/// the projector accepts: recorded against its candidate by the same
/// actor, it passes every check the projector makes of a verdict.
pub proof fn lemma_planned_verdict_accepted(
    state: &CurrentState,
    events: Seq<ExperienceEvent>,
    candidate_id: IntegrationCandidateId,
    actor_id: PrincipalId,
    disposition: VerificationDisposition,
    reason: Seq<char>,
    given: Option<Seq<EvidenceRef>>,
    t: IntegrationTransition,
)
    requires
        state.wf(),
        projected_from(state, events),
        transition_outcome(state, events, candidate_id, actor_id, disposition, reason, given, Ok(t)),
    ensures
        verification_rejection(
            state,
            Some(EntityRef { kind: EntityKind::IntegrationCandidate, id: candidate_id }),
            actor_id,
            t.verification,
            disposition,
        ) is None,
{
    lemma_lookup_key(state.integration_candidates@, candidate_id);
    let c = lookup(state.integration_candidates@, candidate_id)->0;
    lemma_trim_not_blank(reason);
    let evidence = cited_evidence(events, c, given);
    assert(evidence.subrange(0, evidence.len() as int) =~= evidence);
    lemma_evidence_accepted(state, events, c, evidence, 0);
}

/// The three events recording a materialization, in order: the Memory
/// candidate created, the Memory promoted, and the integration candidate
/// materialized; each by the actor, about its entity, correlated with and
/// sourced from the integration candidate, caused by the one before it,
/// under the given identifiers and sealed by the given hashes.
pub open spec fn materialization_batch(
    evs: Seq<ExperienceEvent>,
    plan: MemoryIntegrationResult,
    actor_id: PrincipalId,
    ids: (EventId, EventId, EventId),
    hashes: (Seq<char>, Seq<char>, Seq<char>),
) -> bool {
    let c = plan.materialization.candidate_id;
    &&& evs.len() == 3
    &&& evs[0].event_id == ids.0 && evs[1].event_id == ids.1 && evs[2].event_id == ids.2
    &&& evs[0].event_kind == EventKind::MemoryCandidateCreated
    &&& evs[1].event_kind == EventKind::MemoryPromoted
    &&& evs[2].event_kind == EventKind::IntegrationCandidateMaterialized
    &&& evs[0].subject == Some(EntityRef { kind: EntityKind::MemoryCandidate, id: plan.memory_candidate.id })
    &&& evs[1].subject == Some(EntityRef { kind: EntityKind::Memory, id: plan.memory.id })
    &&& evs[2].subject == Some(EntityRef { kind: EntityKind::IntegrationCandidate, id: c })
    &&& evs[0].causation_id is None && evs[1].causation_id == Some(ids.0) && evs[2].causation_id == Some(ids.1)
    &&& evs[0].canonical_hash@ == hashes.0 && evs[1].canonical_hash@ == hashes.1 && evs[2].canonical_hash@ == hashes.2
    &&& (evs[0].payload matches Payload::MemoryCandidate(mc) && same_memory_candidate(mc, plan.memory_candidate))
    &&& (evs[1].payload matches Payload::Memory(m) && same_memory(m, plan.memory))
    &&& (evs[2].payload matches Payload::IntegrationMaterialization(link) && same_materialization(link, plan.materialization))
    &&& forall|k: int| 0 <= k < 3 ==> {
        &&& (#[trigger] evs[k]).actor_id == actor_id
        &&& evs[k].integrity_hash@ == evs[k].canonical_hash@
        &&& evs[k].source_type@ == "memory_integration"@
        &&& evs[k].source_ref matches Some(t) && t@ == uuid_hyphenated(c)
        &&& evs[k].correlation_id matches Some(t) && t@ == uuid_hyphenated(c)
    }
}

fn integration_event(
    actor_id: PrincipalId,
    event_id: EventId,
    kind: EventKind,
    subject: EntityRef,
    candidate_id: IntegrationCandidateId,
    causation_id: Option<EventId>,
    hash: &String,
    payload: Payload,
) -> (e: ExperienceEvent)
    ensures
        e.event_id == event_id && e.actor_id == actor_id && e.event_kind == kind && e.subject == Some(subject),
        e.causation_id == causation_id && e.payload == payload,
        e.canonical_hash@ == hash@ && e.integrity_hash@ == hash@,
        e.source_type@ == "memory_integration"@,
        e.source_ref matches Some(t) && t@ == uuid_hyphenated(candidate_id),
        e.correlation_id matches Some(t) && t@ == uuid_hyphenated(candidate_id),
{
    ExperienceEvent {
        event_id,
        actor_id,
        event_kind: kind,
        subject: Some(subject),
        source_type: "memory_integration".to_owned(),
        source_ref: Some(uuid_text(candidate_id)),
        correlation_id: Some(uuid_text(candidate_id)),
        causation_id,
        integrity_hash: hash.clone(),
        canonical_hash: hash.clone(),
        payload,
    }
}

/// The three events recording a planned materialization.
pub fn materialization_events(
    plan: &MemoryIntegrationResult,
    actor_id: PrincipalId,
    ids: (EventId, EventId, EventId),
    hashes: (String, String, String),
) -> (r: Vec<ExperienceEvent>)
    ensures
        materialization_batch(r@, *plan, actor_id, ids, (hashes.0@, hashes.1@, hashes.2@)),
{
    let c = plan.materialization.candidate_id;
    let first = integration_event(
        actor_id,
        ids.0,
        EventKind::MemoryCandidateCreated,
        EntityRef { kind: EntityKind::MemoryCandidate, id: plan.memory_candidate.id },
        c,
        None,
        &hashes.0,
        Payload::MemoryCandidate(clone_memory_candidate(&plan.memory_candidate)),
    );
    let second = integration_event(
        actor_id,
        ids.1,
        EventKind::MemoryPromoted,
        EntityRef { kind: EntityKind::Memory, id: plan.memory.id },
        c,
        Some(ids.0),
        &hashes.1,
        Payload::Memory(clone_memory(&plan.memory)),
    );
    let third = integration_event(
        actor_id,
        ids.2,
        EventKind::IntegrationCandidateMaterialized,
        EntityRef { kind: EntityKind::IntegrationCandidate, id: c },
        c,
        Some(ids.1),
        &hashes.2,
        Payload::IntegrationMaterialization(clone_materialization(&plan.materialization)),
    );
    let mut r: Vec<ExperienceEvent> = Vec::new();
    r.push(first);
    r.push(second);
    r.push(third);
    proof {
        assert forall|k: int| 0 <= k < 3 implies {
            &&& (#[trigger] r@[k]).actor_id == actor_id
            &&& r@[k].integrity_hash@ == r@[k].canonical_hash@
            &&& r@[k].source_type@ == "memory_integration"@
            &&& r@[k].source_ref matches Some(t) && t@ == uuid_hyphenated(c)
            &&& r@[k].correlation_id matches Some(t) && t@ == uuid_hyphenated(c)
        } by {
            if k == 0 {} else if k == 1 {} else {}
        }
    }
    r
}

/// A materialization committed: what the state holds of it, and the state.
pub struct MaterializationCommit {
    pub result: MemoryIntegrationResult,
    pub state: CurrentState,
}

/// Commits a planned materialization on top of the state, under the given
/// event identifiers and seals: its three events are applied in order, so
/// the revision grows by three, and the result is what the committed state
/// holds of the plan.
pub fn commit_materialization(
    state: CurrentState,
    plan: &MemoryIntegrationResult,
    actor_id: PrincipalId,
    ids: (EventId, EventId, EventId),
    hashes: (String, String, String),
) -> (r: Result<MaterializationCommit, IntegrationError>)
    requires
        state.wf(),
        state.revision + 3 < u64::MAX,
    ensures
        match r {
            Ok(c) => {
                &&& c.state.revision == state.revision + 3
                &&& exists|evs: Seq<ExperienceEvent>| materialization_batch(evs, *plan, actor_id, ids, (hashes.0@, hashes.1@, hashes.2@))
                    && #[trigger] replays_from(state, evs, c.state)
                &&& lookup(c.state.memory_candidates@, plan.memory_candidate.id) matches Some(mc) && same_memory_candidate(c.result.memory_candidate, mc)
                &&& lookup(c.state.active_memories@, plan.memory.id) matches Some(m) && same_memory(c.result.memory, m)
                &&& lookup(c.state.integration_materializations@, plan.materialization.candidate_id) matches Some(link)
                    && same_materialization(c.result.materialization, link)
            },
            Err(IntegrationError::Projection(e)) => exists|evs: Seq<ExperienceEvent>|
                materialization_batch(evs, *plan, actor_id, ids, (hashes.0@, hashes.1@, hashes.2@)) && #[trigger] refused_from(state, evs, e),
            Err(IntegrationError::MemoryMaterializationFailure(_)) => true,
            Err(_) => false,
        },
{
    let events = materialization_events(plan, actor_id, ids, hashes);
    let ghost evs = events@;
    let ghost start = state;
    let revision = state.revision;
    match commit_batch(state, events, revision) {
        Ok(s) => {
            proof {
                crate::projector::lemma_replays_from_counts(start, evs, s);
            }
            match committed_result(&s, plan) {
                Ok(result) => Ok(MaterializationCommit { result, state: s }),
                Err(e) => Err(e),
            }
        },
        Err(e) => Err(e),
    }
}

} // verus!
