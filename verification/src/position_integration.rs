//! Turning a verified Position candidate into one of HEKATE's Positions:
//! the event must come from the integration of that candidate, match its
//! verification and provenance, and carry exactly the Position its typed
//! proposal asks for.
use vstd::prelude::*;

use crate::agree::{rows_agree, Agree};
use crate::deliberation::{valid_position_revision, validate_position_revision};
use crate::engine::{opt_text, same_opt_text};
use crate::format::{uuid_hyphenated, uuid_text};
use crate::integration::{candidate_fingerprint, spec_candidate_fingerprint};
use crate::model::{
    contains_id, EntityKind, EventId, IntegrationCandidate, IntegrationCandidateKind, Position,
    PositionIntegrationActionKind, PositionIntegrationMaterialization,
    PositionIntegrationOperation, PositionStatus, PrincipalKind, VerificationDisposition,
};
use crate::projector::{
    all_applied, check_integration_evidence, evidence_equal, first_integration_evidence_rejection,
    ids_applied, ids_equal, revise_position, revised, same_evidence, frame, ProjectionError,
    Rejection, Table,
};
use crate::state::{is_model_actor, model_actor, CurrentState, EventKind, ExperienceEvent};
use crate::table::{contains_key, get, has_key, lookup, stored, upsert};
use crate::text::{same_text, trim, trimmed};
use vstd::string::*;

verus! {

/// The source type of events that integrate a Position candidate.
pub open spec fn integration_source() -> Seq<char> {
    "position_integration"@
}

/// The event's subject is the Position, and the materialization names
/// that Position and that event.
pub open spec fn names_position(e: &ExperienceEvent, p: Position, m: PositionIntegrationMaterialization) -> bool {
    &&& e.subject matches Some(s) && s.kind == EntityKind::Position && s.id == p.id
    &&& m.position_id == p.id
    &&& m.position_event_id == e.event_id
}

/// The event comes from the integration of the candidate and follows
/// from its verification.
pub open spec fn from_candidate(e: &ExperienceEvent, m: PositionIntegrationMaterialization) -> bool {
    &&& e.source_type@ == integration_source()
    &&& opt_text(e.source_ref) == Some(uuid_hyphenated(m.candidate_id))
    &&& opt_text(e.correlation_id) == Some(uuid_hyphenated(m.candidate_id))
    &&& e.causation_id == Some(m.verification_event_id)
}

/// `out` is `items` with each text trimmed.
pub open spec fn trimmed_all(items: Seq<String>, out: Seq<String>) -> bool {
    &&& out.len() == items.len()
    &&& forall|i: int| 0 <= i < items.len() ==> #[trigger] out[i]@ == trim(items[i]@)
}

/// `out` holds each identifier of `a` and `b` once, in increasing order.
pub open spec fn sorted_union(out: Seq<EventId>, a: Seq<EventId>, b: Seq<EventId>) -> bool {
    &&& forall|i: int, j: int| 0 <= i < j < out.len() ==> out[i] < out[j]
    &&& forall|x: EventId| out.contains(x) <==> (a.contains(x) || b.contains(x))
}

/// `p` is `prior` retracted for `reason`: the same Position with status
/// retracted, the trimmed reason appended and the candidate's sources
/// joined to its evidence.
pub open spec fn withdrawn(p: Position, prior: Position, reason: Seq<char>, sources: Seq<EventId>) -> bool {
    &&& p.id == prior.id
    &&& p.principal_id == prior.principal_id
    &&& p.subject@ == prior.subject@
    &&& p.stance == prior.stance
    &&& p.status == PositionStatus::Retracted
    &&& p.version == prior.version
    &&& p.supersedes == prior.supersedes
    &&& p.confidence == prior.confidence
    &&& sorted_union(p.evidence_refs@, prior.evidence_refs@, sources)
    &&& p.reasons@.len() == prior.reasons@.len() + 1
    &&& forall|i: int| 0 <= i < prior.reasons@.len() ==> #[trigger] p.reasons@[i]@ == prior.reasons@[i]@
    &&& p.reasons@[prior.reasons@.len() as int]@ == trim(reason)
    &&& rows_agree(p.reconsideration_conditions@, prior.reconsideration_conditions@)
}

/// The Position is the one the candidate's proposal asks for.
pub open spec fn matches_proposal(
    p: Position,
    m: PositionIntegrationMaterialization,
    proposal: Option<PositionIntegrationOperation>,
) -> bool {
    match (proposal, m.action, m.prior_position) {
        (
            Some(PositionIntegrationOperation::Establish {
                subject,
                stance,
                reasons,
                reconsideration_conditions,
            }),
            PositionIntegrationActionKind::Establish,
            None,
        ) => p.subject@ == trim(subject@) && p.stance == stance && trimmed_all(reasons@, p.reasons@)
            && trimmed_all(reconsideration_conditions@, p.reconsideration_conditions@),
        (
            Some(PositionIntegrationOperation::Revise {
                position_id,
                expected_version,
                stance,
                reasons,
                reconsideration_conditions,
            }),
            PositionIntegrationActionKind::Revise,
            Some(prior),
        ) => position_id == prior.id && expected_version == prior.version && p.subject@
            == prior.subject@ && p.stance == stance && trimmed_all(reasons@, p.reasons@)
            && trimmed_all(reconsideration_conditions@, p.reconsideration_conditions@),
        (
            Some(PositionIntegrationOperation::Withdraw { position_id, expected_version, reason }),
            PositionIntegrationActionKind::Withdraw,
            Some(prior),
        ) => position_id == prior.id && expected_version == prior.version && withdrawn(
            p,
            prior,
            reason@,
            m.source_event_ids@,
        ),
        _ => false,
    }
}

/// The prior Position is the one the state holds, still active.
pub open spec fn prior_current(a: &CurrentState, prior: Position) -> bool {
    &&& lookup(a.positions@, prior.id) matches Some(held) && held.agrees(&prior)
    &&& prior.status == PositionStatus::Active
}

/// Why the Position does not follow from the action, if it does not: an
/// establishment is a first active version; a revision supersedes the
/// current active prior with the next version of the same subject; a
/// withdrawal retracts the current active prior, keeping its version,
/// subject and stance.
pub open spec fn action_fault(a: &CurrentState, p: Position, m: PositionIntegrationMaterialization) -> Option<
    Rejection,
> {
    match m.action {
        PositionIntegrationActionKind::Establish => if m.prior_position is Some || p.status
            != PositionStatus::Active || p.version != 1 || p.supersedes is Some {
            Some(Rejection::PositionInvalidEstablishment)
        } else {
            None
        },
        PositionIntegrationActionKind::Revise => match m.prior_position {
            None => Some(Rejection::PositionRevisionWithoutPrior),
            Some(prior) => if !prior_current(a, prior) || p.id == prior.id || p.supersedes != Some(
                prior.id,
            ) || p.principal_id != prior.principal_id || p.subject@ != prior.subject@
                || prior.version + 1 != p.version || p.status != PositionStatus::Active {
                Some(Rejection::PositionInvalidRevision)
            } else {
                None
            },
        },
        PositionIntegrationActionKind::Withdraw => match m.prior_position {
            None => Some(Rejection::PositionWithdrawalWithoutPrior),
            Some(prior) => if !prior_current(a, prior) || p.id != prior.id || p.supersedes is Some
                || p.status != PositionStatus::Retracted || p.version != prior.version
                || p.principal_id != prior.principal_id || p.subject@ != prior.subject@ || p.stance
                != prior.stance {
                Some(Rejection::PositionInvalidWithdrawal)
            } else {
                None
            },
        },
    }
}

/// The event kind that records an action.
pub open spec fn action_event_kind(action: PositionIntegrationActionKind) -> EventKind {
    match action {
        PositionIntegrationActionKind::Establish => EventKind::PositionEstablished,
        PositionIntegrationActionKind::Revise => EventKind::PositionRevised,
        PositionIntegrationActionKind::Withdraw => EventKind::PositionRetracted,
    }
}

/// The materialization repeats the verified candidate: fingerprint (which
/// is the candidate's own), sources, counterevidence and as-of revision,
/// no newer than the state, with every cited event applied.
pub open spec fn repeats_candidate(a: &CurrentState, c: IntegrationCandidate, m: PositionIntegrationMaterialization) -> bool {
    &&& m.fingerprint@ == c.fingerprint@
    &&& spec_candidate_fingerprint(
        c.kind,
        c.content@,
        c.source_event_ids@,
        c.counterevidence_event_ids@,
    ) == c.fingerprint@
    &&& m.source_event_ids@ == c.source_event_ids@
    &&& m.counterevidence_event_ids@ == c.counterevidence_event_ids@
    &&& m.as_of_revision == c.as_of_revision
    &&& c.as_of_revision <= a.revision
    &&& all_applied(a, c.source_event_ids@)
    &&& all_applied(a, c.counterevidence_event_ids@)
}

/// Why the part of the check that needs the candidate refuses, if it does.
pub open spec fn candidate_fault(
    a: &CurrentState,
    e: &ExperienceEvent,
    p: Position,
    m: PositionIntegrationMaterialization,
    c: IntegrationCandidate,
    proposal: Option<PositionIntegrationOperation>,
    blocked: bool,
) -> Option<Rejection> {
    if c.kind != IntegrationCandidateKind::Position || c.disposition
        != VerificationDisposition::Verified {
        Some(Rejection::PositionCandidateNotVerified)
    } else if has_key(a.position_integration_materializations@, m.candidate_id) {
        Some(Rejection::PositionAlreadyMaterialized)
    } else {
        match lookup(a.integration_verifications@, m.candidate_id) {
            None => Some(Rejection::PositionNoVerification),
            Some(v) => if v.new_disposition != VerificationDisposition::Verified || !same_evidence(
                m.evidence_refs@,
                v.evidence_refs@,
            ) || !a.applied_events@.contains(m.verification_event_id) {
                Some(Rejection::PositionVerificationMismatch)
            } else if !repeats_candidate(a, c, m) {
                Some(Rejection::PositionCandidateProvenance)
            } else {
                match first_integration_evidence_rejection(a, c, m.evidence_refs@, m.as_of_revision, 0) {
                    Some(r) => Some(r),
                    None => if !matches_proposal(p, m, proposal) {
                        Some(Rejection::PositionProposalMismatch)
                    } else if p.confidence != c.confidence {
                        Some(Rejection::PositionConfidenceMismatch)
                    } else {
                        match action_fault(a, p, m) {
                            Some(f) => Some(f),
                            None => if e.event_kind != action_event_kind(m.action) {
                                Some(Rejection::PositionKindMismatch)
                            } else if blocked {
                                Some(Rejection::PositionBlocked)
                            } else if !valid_position_revision(a, p) {
                                Some(Rejection::PositionInvalidLifecycle)
                            } else if m.action != PositionIntegrationActionKind::Withdraw
                                && p.evidence_refs@ != c.source_event_ids@ {
                                Some(Rejection::PositionEvidenceMismatch)
                            } else if m.action == PositionIntegrationActionKind::Withdraw && exists|
                                i: int,
                            |
                                0 <= i < c.source_event_ids@.len()
                                    && !p.evidence_refs@.contains(
                                    #[trigger] c.source_event_ids@[i],
                                ) {
                                Some(Rejection::PositionEvidenceOmitted)
                            } else {
                                None
                            },
                        }
                    },
                }
            },
        }
    }
}

/// Why the Position integration is refused, if it is. `proposal` is the
/// typed proposal the candidate's content decodes to (none when it does
/// not decode), and `blocked` whether an open conflict over the Position
/// blocks changing it.
pub open spec fn integration_fault(
    a: &CurrentState,
    e: &ExperienceEvent,
    p: Position,
    m: PositionIntegrationMaterialization,
    proposal: Option<PositionIntegrationOperation>,
    blocked: bool,
) -> Option<Rejection> {
    if !names_position(e, p, m) {
        Some(Rejection::PositionSubjectMismatch)
    } else if !from_candidate(e, m) {
        Some(Rejection::PositionProvenanceMismatch)
    } else if !has_key(a.principals@, e.actor_id) || is_model_actor(a, e.actor_id) {
        Some(Rejection::PositionActorIneligible)
    } else {
        match lookup(a.principals@, p.principal_id) {
            None => Some(Rejection::PositionUnknownPrincipal),
            Some(principal) => if principal.kind != PrincipalKind::Hekate {
                Some(Rejection::PositionNotHekate)
            } else {
                match lookup(a.integration_candidates@, m.candidate_id) {
                    None => Some(Rejection::PositionUnknownCandidate),
                    Some(c) => candidate_fault(a, e, p, m, c, proposal, blocked),
                }
            },
        }
    }
}


fn strictly_increasing(ids: &Vec<EventId>) -> (r: bool)
    ensures
        r == forall|i: int, j: int| 0 <= i < j < ids@.len() ==> ids@[i] < ids@[j],
{
    let mut k: usize = 1;
    while k < ids.len()
        invariant
            1 <= k,
            forall|i: int, j: int| 0 <= i < j < k && j < ids@.len() ==> ids@[i] < ids@[j],
        decreases ids@.len() - k,
    {
        if !(ids[k - 1] < ids[k]) {
            return false;
        }
        k = k + 1;
    }
    true
}

fn all_within(ids: &Vec<EventId>, a: &Vec<EventId>, b: &Vec<EventId>) -> (r: bool)
    ensures
        r == forall|i: int| 0 <= i < ids@.len() ==> (a@.contains(#[trigger] ids@[i]) || b@.contains(ids@[i])),
{
    let mut i: usize = 0;
    while i < ids.len()
        invariant
            i <= ids@.len(),
            forall|j: int| 0 <= j < i ==> (a@.contains(#[trigger] ids@[j]) || b@.contains(ids@[j])),
        decreases ids@.len() - i,
    {
        if !(contains_id(a, ids[i]) || contains_id(b, ids[i])) {
            return false;
        }
        i = i + 1;
    }
    true
}

fn all_in(ids: &Vec<EventId>, within: &Vec<EventId>) -> (r: bool)
    ensures
        r == forall|i: int| 0 <= i < ids@.len() ==> within@.contains(#[trigger] ids@[i]),
{
    let mut i: usize = 0;
    while i < ids.len()
        invariant
            i <= ids@.len(),
            forall|j: int| 0 <= j < i ==> within@.contains(#[trigger] ids@[j]),
        decreases ids@.len() - i,
    {
        if !contains_id(within, ids[i]) {
            return false;
        }
        i = i + 1;
    }
    true
}

fn is_sorted_union(out: &Vec<EventId>, a: &Vec<EventId>, b: &Vec<EventId>) -> (r: bool)
    ensures
        r == sorted_union(out@, a@, b@),
{
    let ordered = strictly_increasing(out);
    let within = all_within(out, a, b);
    let from_a = all_in(a, out);
    let from_b = all_in(b, out);
    proof {
        if within && from_a && from_b {
            assert forall|x: EventId| out@.contains(x) <==> (a@.contains(x) || b@.contains(x)) by {
                if out@.contains(x) {
                    let i = choose|i: int| 0 <= i < out@.len() && out@[i] == x;
                    assert(a@.contains(out@[i]) || b@.contains(out@[i]));
                }
                if a@.contains(x) {
                    let i = choose|i: int| 0 <= i < a@.len() && a@[i] == x;
                    assert(out@.contains(a@[i]));
                }
                if b@.contains(x) {
                    let i = choose|i: int| 0 <= i < b@.len() && b@[i] == x;
                    assert(out@.contains(b@[i]));
                }
            }
        }
        if !within {
            let i = choose|i: int| 0 <= i < out@.len() && !(a@.contains(#[trigger] out@[i]) || b@.contains(out@[i]));
            assert(out@.contains(out@[i]));
        }
        if !from_a {
            let i = choose|i: int| 0 <= i < a@.len() && !out@.contains(#[trigger] a@[i]);
            assert(a@.contains(a@[i]));
        }
        if !from_b {
            let i = choose|i: int| 0 <= i < b@.len() && !out@.contains(#[trigger] b@[i]);
            assert(b@.contains(b@[i]));
        }
    }
    ordered && within && from_a && from_b
}

fn trimmed_matches(items: &Vec<String>, out: &Vec<String>) -> (r: bool)
    ensures
        r == trimmed_all(items@, out@),
{
    if items.len() != out.len() {
        return false;
    }
    let mut i: usize = 0;
    while i < items.len()
        invariant
            items@.len() == out@.len(),
            i <= items@.len(),
            forall|j: int| 0 <= j < i ==> #[trigger] out@[j]@ == trim(items@[j]@),
        decreases items@.len() - i,
    {
        let t = trimmed(items[i].as_str());
        if t != out[i] {
            return false;
        }
        i = i + 1;
    }
    true
}

fn withdrawn_holds(p: &Position, prior: &Position, reason: &String, sources: &Vec<EventId>) -> (r: bool)
    ensures
        r == withdrawn(*p, *prior, reason@, sources@),
{
    if !(p.id == prior.id && p.principal_id == prior.principal_id && p.subject == prior.subject
        && p.stance == prior.stance && p.status == PositionStatus::Retracted && p.version
        == prior.version && p.supersedes == prior.supersedes && p.confidence == prior.confidence) {
        return false;
    }
    if !is_sorted_union(&p.evidence_refs, &prior.evidence_refs, sources) {
        return false;
    }
    let n = prior.reasons.len();
    if p.reasons.len() == 0 || p.reasons.len() - 1 != n {
        return false;
    }
    let mut i: usize = 0;
    while i < n
        invariant
            n == prior.reasons@.len(),
            p.reasons@.len() == n + 1,
            i <= n,
            forall|j: int| 0 <= j < i ==> #[trigger] p.reasons@[j]@ == prior.reasons@[j]@,
        decreases n - i,
    {
        if p.reasons[i] != prior.reasons[i] {
            return false;
        }
        i = i + 1;
    }
    let last = trimmed(reason.as_str());
    if p.reasons[n] != last {
        return false;
    }
    crate::agree::lists_agree(&p.reconsideration_conditions, &prior.reconsideration_conditions)
}

fn proposal_matches(
    p: &Position,
    m: &PositionIntegrationMaterialization,
    proposal: &Option<PositionIntegrationOperation>,
) -> (r: bool)
    ensures
        r == matches_proposal(*p, *m, *proposal),
{
    match (proposal, m.action, &m.prior_position) {
        (
            Some(PositionIntegrationOperation::Establish {
                subject,
                stance,
                reasons,
                reconsideration_conditions,
            }),
            PositionIntegrationActionKind::Establish,
            None,
        ) => {
            let t = trimmed(subject.as_str());
            p.subject == t && p.stance == *stance && trimmed_matches(reasons, &p.reasons)
                && trimmed_matches(reconsideration_conditions, &p.reconsideration_conditions)
        },
        (
            Some(PositionIntegrationOperation::Revise {
                position_id,
                expected_version,
                stance,
                reasons,
                reconsideration_conditions,
            }),
            PositionIntegrationActionKind::Revise,
            Some(prior),
        ) => *position_id == prior.id && *expected_version == prior.version && p.subject
            == prior.subject && p.stance == *stance && trimmed_matches(reasons, &p.reasons)
            && trimmed_matches(reconsideration_conditions, &p.reconsideration_conditions),
        (
            Some(PositionIntegrationOperation::Withdraw { position_id, expected_version, reason }),
            PositionIntegrationActionKind::Withdraw,
            Some(prior),
        ) => *position_id == prior.id && *expected_version == prior.version && withdrawn_holds(
            p,
            prior,
            reason,
            &m.source_event_ids,
        ),
        _ => false,
    }
}

fn prior_is_current(state: &CurrentState, prior: &Position) -> (r: bool)
    requires
        state.wf(),
    ensures
        r == prior_current(state, *prior),
{
    match get(&state.positions, prior.id) {
        Some(held) => held.agrees_with(prior) && prior.status == PositionStatus::Active,
        None => false,
    }
}

fn check_action(state: &CurrentState, p: &Position, m: &PositionIntegrationMaterialization) -> (r: Option<
    Rejection,
>)
    requires
        state.wf(),
    ensures
        r == action_fault(state, *p, *m),
{
    match m.action {
        PositionIntegrationActionKind::Establish => {
            if m.prior_position.is_some() || p.status != PositionStatus::Active || p.version != 1
                || p.supersedes.is_some() {
                Some(Rejection::PositionInvalidEstablishment)
            } else {
                None
            }
        },
        PositionIntegrationActionKind::Revise => match &m.prior_position {
            None => Some(Rejection::PositionRevisionWithoutPrior),
            Some(prior) => {
                let next_ok = match prior.version.checked_add(1) {
                    Some(v) => v == p.version,
                    None => false,
                };
                if !prior_is_current(state, prior) || p.id == prior.id || p.supersedes != Some(
                    prior.id,
                ) || p.principal_id != prior.principal_id || p.subject != prior.subject
                    || !next_ok || p.status != PositionStatus::Active {
                    Some(Rejection::PositionInvalidRevision)
                } else {
                    None
                }
            },
        },
        PositionIntegrationActionKind::Withdraw => match &m.prior_position {
            None => Some(Rejection::PositionWithdrawalWithoutPrior),
            Some(prior) => {
                if !prior_is_current(state, prior) || p.id != prior.id || p.supersedes.is_some()
                    || p.status != PositionStatus::Retracted || p.version != prior.version
                    || p.principal_id != prior.principal_id || p.subject != prior.subject
                    || p.stance != prior.stance {
                    Some(Rejection::PositionInvalidWithdrawal)
                } else {
                    None
                }
            },
        },
    }
}

fn action_kind(action: PositionIntegrationActionKind) -> (r: EventKind)
    ensures
        r == action_event_kind(action),
{
    match action {
        PositionIntegrationActionKind::Establish => EventKind::PositionEstablished,
        PositionIntegrationActionKind::Revise => EventKind::PositionRevised,
        PositionIntegrationActionKind::Withdraw => EventKind::PositionRetracted,
    }
}

fn sources_cited(p: &Position, c: &IntegrationCandidate) -> (r: bool)
    ensures
        r == !exists|i: int|
            0 <= i < c.source_event_ids@.len() && !p.evidence_refs@.contains(
                #[trigger] c.source_event_ids@[i],
            ),
{
    all_in(&c.source_event_ids, &p.evidence_refs)
}

fn check_candidate(
    state: &CurrentState,
    e: &ExperienceEvent,
    p: &Position,
    m: &PositionIntegrationMaterialization,
    c: &IntegrationCandidate,
    proposal: &Option<PositionIntegrationOperation>,
    blocked: bool,
) -> (r: Option<Rejection>)
    requires
        state.wf(),
    ensures
        r == candidate_fault(state, e, *p, *m, *c, *proposal, blocked),
{
    if c.kind != IntegrationCandidateKind::Position || c.disposition
        != VerificationDisposition::Verified {
        return Some(Rejection::PositionCandidateNotVerified);
    }
    if contains_key(&state.position_integration_materializations, m.candidate_id) {
        return Some(Rejection::PositionAlreadyMaterialized);
    }
    let v = match get(&state.integration_verifications, m.candidate_id) {
        None => {
            return Some(Rejection::PositionNoVerification);
        },
        Some(v) => v,
    };
    if v.new_disposition != VerificationDisposition::Verified || !evidence_equal(
        &m.evidence_refs,
        &v.evidence_refs,
    ) || !contains_id(&state.applied_events, m.verification_event_id) {
        return Some(Rejection::PositionVerificationMismatch);
    }
    let own = candidate_fingerprint(
        c.kind,
        c.content.as_str(),
        &c.source_event_ids,
        &c.counterevidence_event_ids,
    );
    if m.fingerprint != c.fingerprint || own != c.fingerprint || !ids_equal(
        &m.source_event_ids,
        &c.source_event_ids,
    ) || !ids_equal(&m.counterevidence_event_ids, &c.counterevidence_event_ids)
        || m.as_of_revision != c.as_of_revision || c.as_of_revision > state.revision
        || !ids_applied(state, &c.source_event_ids) || !ids_applied(
        state,
        &c.counterevidence_event_ids,
    ) {
        return Some(Rejection::PositionCandidateProvenance);
    }
    match check_integration_evidence(state, c, &m.evidence_refs, m.as_of_revision) {
        Err(rej) => {
            return Some(rej);
        },
        Ok(()) => {},
    }
    if !proposal_matches(p, m, proposal) {
        return Some(Rejection::PositionProposalMismatch);
    }
    if p.confidence != c.confidence {
        return Some(Rejection::PositionConfidenceMismatch);
    }
    match check_action(state, p, m) {
        Some(f) => {
            return Some(f);
        },
        None => {},
    }
    if e.event_kind != action_kind(m.action) {
        return Some(Rejection::PositionKindMismatch);
    }
    if blocked {
        return Some(Rejection::PositionBlocked);
    }
    match validate_position_revision(state, p) {
        Err(_) => {
            return Some(Rejection::PositionInvalidLifecycle);
        },
        Ok(()) => {},
    }
    if m.action != PositionIntegrationActionKind::Withdraw && !ids_equal(
        &p.evidence_refs,
        &c.source_event_ids,
    ) {
        return Some(Rejection::PositionEvidenceMismatch);
    }
    if m.action == PositionIntegrationActionKind::Withdraw && !sources_cited(p, c) {
        return Some(Rejection::PositionEvidenceOmitted);
    }
    None
}

/// Checks a Position integration against the state, and says why it is
/// refused if it is.
pub fn check_position_integration(
    state: &CurrentState,
    e: &ExperienceEvent,
    p: &Position,
    m: &PositionIntegrationMaterialization,
    proposal: &Option<PositionIntegrationOperation>,
    blocked: bool,
) -> (r: Option<Rejection>)
    requires
        state.wf(),
    ensures
        r == integration_fault(state, e, *p, *m, *proposal, blocked),
{
    let subject_ok = match &e.subject {
        Some(s) => s.kind == EntityKind::Position && s.id == p.id,
        None => false,
    };
    if !subject_ok || m.position_id != p.id || m.position_event_id != e.event_id {
        return Some(Rejection::PositionSubjectMismatch);
    }
    let candidate_ref = Some(uuid_text(m.candidate_id));
    if !same_text(e.source_type.as_str(), "position_integration") || !same_opt_text(
        &e.source_ref,
        &candidate_ref,
    ) || !same_opt_text(&e.correlation_id, &candidate_ref) || e.causation_id != Some(
        m.verification_event_id,
    ) {
        proof {
            reveal_strlit("position_integration");
        }
        return Some(Rejection::PositionProvenanceMismatch);
    }
    proof {
        reveal_strlit("position_integration");
    }
    if !contains_key(&state.principals, e.actor_id) || model_actor(state, e.actor_id) {
        return Some(Rejection::PositionActorIneligible);
    }
    match get(&state.principals, p.principal_id) {
        None => Some(Rejection::PositionUnknownPrincipal),
        Some(principal) => if principal.kind != PrincipalKind::Hekate {
            Some(Rejection::PositionNotHekate)
        } else {
            match get(&state.integration_candidates, m.candidate_id) {
                None => Some(Rejection::PositionUnknownCandidate),
                Some(c) => check_candidate(state, e, p, m, c, proposal, blocked),
            }
        },
    }
}


/// The event kinds that record a Position.
pub open spec fn records_position(kind: EventKind) -> bool {
    kind == EventKind::PositionEstablished || kind == EventKind::PositionMaintained || kind
        == EventKind::PositionRecorded || kind == EventKind::PositionRevised || kind
        == EventKind::PositionRetracted
}

/// Why the projection refuses a Position integration event, if it does:
/// an event already applied is a duplicate; a kind that records no
/// Position carries the wrong payload; else the integration's own check.
pub open spec fn integration_refusal(
    a: &CurrentState,
    e: &ExperienceEvent,
    p: Position,
    m: PositionIntegrationMaterialization,
    proposal: Option<PositionIntegrationOperation>,
    blocked: bool,
) -> Option<ProjectionError> {
    if a.applied_events@.contains(e.event_id) {
        Some(ProjectionError::Duplicate(e.event_id))
    } else if !records_position(e.event_kind) {
        Some(ProjectionError::InvalidPayload { event_kind: e.event_kind, reason: Rejection::WrongPayload })
    } else {
        match integration_fault(a, e, p, m, proposal, blocked) {
            Some(r) => Some(ProjectionError::InvalidPayload { event_kind: e.event_kind, reason: r }),
            None => None,
        }
    }
}

/// `b` is `a` with the Position integration applied: the Position stored
/// (superseding its prior on a revision), the materialization recorded
/// under its candidate, the event applied, and nothing else changed.
pub open spec fn integrated(
    a: &CurrentState,
    b: &CurrentState,
    e: &ExperienceEvent,
    p: Position,
    m: PositionIntegrationMaterialization,
) -> bool {
    &&& b.wf()
    &&& b.revision == a.revision + 1
    &&& b.applied_events@ == a.applied_events@.push(e.event_id)
    &&& revised(a.positions@, b.positions@, p)
    &&& stored(a.position_integration_materializations@, b.position_integration_materializations@, m)
    &&& frame(a, b, set![Table::Positions, Table::PositionIntegrations])
}

/// Applies an event that turns a verified Position candidate into a
/// Position. `proposal` is what the candidate's content decodes to and
/// `blocked` whether an open conflict over the Position blocks changing
/// it; the event is refused, leaving the state as it was, or applied.
pub fn apply_position_integration(
    state: &mut CurrentState,
    event: &ExperienceEvent,
    position: Position,
    materialization: PositionIntegrationMaterialization,
    proposal: &Option<PositionIntegrationOperation>,
    blocked: bool,
) -> (r: Result<(), ProjectionError>)
    requires
        old(state).wf(),
        old(state).revision < u64::MAX,
    ensures
        match integration_refusal(old(state), event, position, materialization, *proposal, blocked) {
            Some(err) => r == Err::<(), ProjectionError>(err) && *final(state) == *old(state),
            None => r is Ok && integrated(old(state), final(state), event, position, materialization),
        },
{
    if contains_id(&state.applied_events, event.event_id) {
        return Err(ProjectionError::Duplicate(event.event_id));
    }
    let kind = event.event_kind;
    if !(kind == EventKind::PositionEstablished || kind == EventKind::PositionMaintained || kind
        == EventKind::PositionRecorded || kind == EventKind::PositionRevised || kind
        == EventKind::PositionRetracted) {
        return Err(ProjectionError::InvalidPayload { event_kind: kind, reason: Rejection::WrongPayload });
    }
    match check_position_integration(state, event, &position, &materialization, proposal, blocked) {
        Some(reason) => {
            return Err(ProjectionError::InvalidPayload { event_kind: kind, reason });
        },
        None => {},
    }
    let ghost before = *state;
    revise_position(state, position);
    let ghost mid = *state;
    upsert(&mut state.position_integration_materializations, materialization);
    state.revision = state.revision + 1;
    state.applied_events.push(event.event_id);
    proof {
        assert(frame(&before, &mid, set![Table::Positions]));
        assert(mid.position_integration_materializations@ == before.position_integration_materializations@);
    }
    Ok(())
}


/// A Position candidate is materialized at most once: after one
/// integration is applied, any integration of the same candidate is
/// refused.
pub proof fn lemma_position_candidate_integrated_once(
    a: &CurrentState,
    b: &CurrentState,
    e: &ExperienceEvent,
    p: Position,
    m: PositionIntegrationMaterialization,
    e2: &ExperienceEvent,
    p2: Position,
    m2: PositionIntegrationMaterialization,
    proposal: Option<PositionIntegrationOperation>,
    blocked: bool,
)
    requires
        integrated(a, b, e, p, m),
        m2.candidate_id == m.candidate_id,
    ensures
        integration_fault(b, e2, p2, m2, proposal, blocked) is Some,
{
    assert(lookup(b.position_integration_materializations@, m.candidate_id) == Some(m));
    assert(has_key(b.position_integration_materializations@, m.candidate_id));
}

/// Neither HEKATE itself nor an unknown principal can integrate a
/// Position: such an event is refused whatever it carries.
pub proof fn lemma_model_cannot_integrate_positions(
    a: &CurrentState,
    e: &ExperienceEvent,
    p: Position,
    m: PositionIntegrationMaterialization,
    proposal: Option<PositionIntegrationOperation>,
    blocked: bool,
)
    requires
        is_model_actor(a, e.actor_id) || !has_key(a.principals@, e.actor_id),
    ensures
        integration_fault(a, e, p, m, proposal, blocked) is Some,
{
}

} // verus!
