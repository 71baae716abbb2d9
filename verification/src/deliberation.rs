//! Turning a thought cycle into a decision, and checking a decision before
//! it may be recorded.
use vstd::prelude::*;

use crate::ids::new_id;
use crate::model::{
    clone_ids, clone_opt_conflict, clone_opt_position, clone_strings, contains_id,
    same_opt_conflict, same_opt_position, ActionIntent, Conflict, ConflictStatus, Decision,
    EventId, Position, PositionId, PositionStatus, PrincipalId, ThoughtContext, ThoughtCycle,
    ActionProposal,
};
use crate::state::CurrentState;
use crate::table::{get, lookup};
use crate::text::{blank, is_blank};

verus! {

/// Why a decision was refused.
#[derive(Clone, Copy, Debug, PartialEq, Eq, Structural)]
pub enum JudgmentValidationError {
    InvalidTarget,
    ContextHashMismatch,
    UnknownEvent(EventId),
    UnknownPosition(PositionId),
    WrongPositionPrincipal,
    InvalidPositionRevision,
    ConflictUnknownPosition(PositionId),
    ConflictParticipants,
    InvalidConflictRevision,
    InvalidConflictTransition,
    IncompleteConflict,
    IncompleteResolution,
    IncompleteAction,
    ConfidenceOutOfRange,
    EmptyResponse,
}

/// `value + 1`, saturating at `u32::MAX`.
pub open spec fn next_version(value: u32) -> int {
    if value == u32::MAX {
        u32::MAX as int
    } else {
        value + 1
    }
}

/// The first cited event that is not among the known events.
pub open spec fn first_unknown_event(cited: Seq<EventId>, known: Seq<EventId>) -> Option<EventId>
    decreases cited.len(),
{
    if cited.len() == 0 {
        None
    } else if !known.contains(cited[0]) {
        Some(cited[0])
    } else {
        first_unknown_event(cited.drop_first(), known)
    }
}

/// Whether a position is a valid next revision of what the state holds:
/// an unchanged restatement (possibly retracting it), a first version, or
/// the successor of an active position of the same principal and subject.
pub open spec fn valid_position_revision(state: &CurrentState, position: Position) -> bool {
    match (lookup(state.positions@, position.id), position.supersedes) {
        (Some(previous), None) => position.version == previous.version && position.principal_id
            == previous.principal_id && position.subject@ == previous.subject@ && position.stance
            == previous.stance && (position.status == PositionStatus::Active || position.status
            == PositionStatus::Retracted),
        (None, None) => position.version == 1 && position.status == PositionStatus::Active,
        (None, Some(previous_id)) => match lookup(state.positions@, previous_id) {
            Some(previous) => previous.status == PositionStatus::Active && previous.principal_id
                == position.principal_id && previous.subject@ == position.subject@
                && position.version == next_version(previous.version) && position.status
                == PositionStatus::Active,
            None => false,
        },
        (Some(_), Some(_)) => false,
    }
}

/// Whether a conflict may move from `previous` to `next`.
pub open spec fn conflict_transition_allowed(previous: ConflictStatus, next: ConflictStatus) -> bool {
    match (previous, next) {
        (ConflictStatus::Open, _) => true,
        (ConflictStatus::Negotiating, ConflictStatus::Negotiating) => true,
        (ConflictStatus::Negotiating, ConflictStatus::Resolved) => true,
        (ConflictStatus::Negotiating, ConflictStatus::AcceptedDisagreement) => true,
        _ => false,
    }
}

/// The position a conflict participant refers to: a stored one first, then
/// one the decision itself proposes.
pub open spec fn participant_position(
    state: &CurrentState,
    decision: &Decision,
    position_id: PositionId,
) -> Option<Position> {
    match lookup(state.positions@, position_id) {
        Some(position) => Some(position),
        None => match decision.position {
            Some(position) if position.id == position_id => Some(position),
            _ => match decision.user_position {
                Some(position) if position.id == position_id => Some(position),
                _ => None,
            },
        },
    }
}

/// The first conflict participant that refers to no position.
pub open spec fn first_unknown_participant(
    state: &CurrentState,
    decision: &Decision,
    ids: Seq<PositionId>,
) -> Option<PositionId>
    decreases ids.len(),
{
    if ids.len() == 0 {
        None
    } else if participant_position(state, decision, ids[0]) is None {
        Some(ids[0])
    } else {
        first_unknown_participant(state, decision, ids.drop_first())
    }
}

/// Whether an optional position belongs to `principal_id`.
pub open spec fn held_by(position: Option<Position>, principal_id: PrincipalId) -> bool {
    match position {
        Some(p) => p.principal_id == principal_id,
        None => false,
    }
}

/// Whether some participant position belongs to `principal_id`.
pub open spec fn has_participant(
    state: &CurrentState,
    decision: &Decision,
    ids: Seq<PositionId>,
    principal_id: PrincipalId,
) -> bool {
    exists|i: int|
        0 <= i < ids.len() && held_by(
            #[trigger] participant_position(state, decision, ids[i]),
            principal_id,
        )
}

/// The verdict on a conflict the decision records.
pub open spec fn conflict_verdict(
    context: &ThoughtContext,
    state: &CurrentState,
    event_ids: Seq<EventId>,
    decision: &Decision,
    conflict: Conflict,
    hekate_id: PrincipalId,
) -> Result<(), JudgmentValidationError> {
    let ids = conflict.participant_positions@;
    let open = conflict.status == ConflictStatus::Open || conflict.status
        == ConflictStatus::Negotiating;
    let settled = conflict.status == ConflictStatus::Resolved || conflict.status
        == ConflictStatus::AcceptedDisagreement;
    if first_unknown_participant(state, decision, ids) is Some {
        Err(
            JudgmentValidationError::ConflictUnknownPosition(
                first_unknown_participant(state, decision, ids)->0,
            ),
        )
    } else if !has_participant(state, decision, ids, hekate_id) || !has_participant(
        state,
        decision,
        ids,
        context.observation.actor_id,
    ) {
        Err(JudgmentValidationError::ConflictParticipants)
    } else if first_unknown_event(conflict.evidence_refs@, event_ids) is Some {
        Err(
            JudgmentValidationError::UnknownEvent(
                first_unknown_event(conflict.evidence_refs@, event_ids)->0,
            ),
        )
    } else if lookup(state.conflicts@, conflict.id) is Some && (lookup(
        state.conflicts@,
        conflict.id,
    )->0.subject@ != conflict.subject@ || conflict.revision != next_version(
        lookup(state.conflicts@, conflict.id)->0.revision,
    )) {
        Err(JudgmentValidationError::InvalidConflictRevision)
    } else if lookup(state.conflicts@, conflict.id) is Some && !conflict_transition_allowed(
        lookup(state.conflicts@, conflict.id)->0.status,
        conflict.status,
    ) {
        Err(JudgmentValidationError::InvalidConflictTransition)
    } else if lookup(state.conflicts@, conflict.id) is None && (conflict.revision != 1
        || conflict.status == ConflictStatus::Resolved) {
        Err(JudgmentValidationError::InvalidConflictRevision)
    } else if open && (conflict.reasons@.len() == 0 || conflict.reconsideration_conditions@.len()
        == 0 || conflict.unresolved_questions@.len() == 0) {
        Err(JudgmentValidationError::IncompleteConflict)
    } else if settled && conflict.resolution is None {
        Err(JudgmentValidationError::IncompleteResolution)
    } else {
        Ok(())
    }
}

/// Whether a related position is neither stored nor proposed by the decision.
pub open spec fn unknown_related(state: &CurrentState, decision: &Decision, id: PositionId) -> bool {
    &&& lookup(state.positions@, id) is None
    &&& !(decision.position matches Some(p) && p.id == id)
    &&& !(decision.user_position matches Some(p) && p.id == id)
}

/// The first related position that is neither stored nor proposed.
pub open spec fn first_unknown_related(
    state: &CurrentState,
    decision: &Decision,
    ids: Seq<PositionId>,
) -> Option<PositionId>
    decreases ids.len(),
{
    if ids.len() == 0 {
        None
    } else if unknown_related(state, decision, ids[0]) {
        Some(ids[0])
    } else {
        first_unknown_related(state, decision, ids.drop_first())
    }
}

/// The verdict on HEKATE's own position in the decision.
pub open spec fn own_position_verdict(
    state: &CurrentState,
    event_ids: Seq<EventId>,
    position: Position,
    hekate_id: PrincipalId,
) -> Result<(), JudgmentValidationError> {
    if position.principal_id != hekate_id {
        Err(JudgmentValidationError::WrongPositionPrincipal)
    } else if !valid_position_revision(state, position) {
        Err(JudgmentValidationError::InvalidPositionRevision)
    } else if position.confidence > 100 {
        Err(JudgmentValidationError::ConfidenceOutOfRange)
    } else if first_unknown_event(position.evidence_refs@, event_ids) is Some {
        Err(
            JudgmentValidationError::UnknownEvent(
                first_unknown_event(position.evidence_refs@, event_ids)->0,
            ),
        )
    } else {
        Ok(())
    }
}

/// The verdict on the user's position the decision records.
pub open spec fn user_position_verdict(
    state: &CurrentState,
    event_ids: Seq<EventId>,
    position: Position,
    actor_id: PrincipalId,
) -> Result<(), JudgmentValidationError> {
    if position.principal_id != actor_id {
        Err(JudgmentValidationError::WrongPositionPrincipal)
    } else if position.confidence > 100 {
        Err(JudgmentValidationError::ConfidenceOutOfRange)
    } else if !valid_position_revision(state, position) {
        Err(JudgmentValidationError::InvalidPositionRevision)
    } else if first_unknown_event(position.evidence_refs@, event_ids) is Some {
        Err(
            JudgmentValidationError::UnknownEvent(
                first_unknown_event(position.evidence_refs@, event_ids)->0,
            ),
        )
    } else {
        Ok(())
    }
}

/// The verdict on a decision: the first check it fails, in the order
/// target, context hash, response, confidence, cited events, related
/// positions, HEKATE's position, the user's position, the conflict and the
/// action.
pub open spec fn judgment_verdict(
    context: &ThoughtContext,
    state: &CurrentState,
    event_ids: Seq<EventId>,
    decision: &Decision,
    hekate_id: PrincipalId,
) -> Result<(), JudgmentValidationError> {
    if decision.target_principal_id != Some(context.observation.actor_id) {
        Err(JudgmentValidationError::InvalidTarget)
    } else if decision.context_hash@ != context.snapshot_hash@ {
        Err(JudgmentValidationError::ContextHashMismatch)
    } else if is_blank(decision.message@) {
        Err(JudgmentValidationError::EmptyResponse)
    } else if decision.confidence > 100 {
        Err(JudgmentValidationError::ConfidenceOutOfRange)
    } else if first_unknown_event(decision.evidence_refs@, event_ids) is Some {
        Err(
            JudgmentValidationError::UnknownEvent(
                first_unknown_event(decision.evidence_refs@, event_ids)->0,
            ),
        )
    } else if first_unknown_related(state, decision, decision.related_position_ids@) is Some {
        Err(
            JudgmentValidationError::UnknownPosition(
                first_unknown_related(state, decision, decision.related_position_ids@)->0,
            ),
        )
    } else if decision.position is Some && own_position_verdict(
        state,
        event_ids,
        decision.position->0,
        hekate_id,
    ) is Err {
        own_position_verdict(state, event_ids, decision.position->0, hekate_id)
    } else if decision.user_position is Some && user_position_verdict(
        state,
        event_ids,
        decision.user_position->0,
        context.observation.actor_id,
    ) is Err {
        user_position_verdict(state, event_ids, decision.user_position->0, context.observation.actor_id)
    } else if decision.conflict is Some && conflict_verdict(
        context,
        state,
        event_ids,
        decision,
        decision.conflict->0,
        hekate_id,
    ) is Err {
        conflict_verdict(context, state, event_ids, decision, decision.conflict->0, hekate_id)
    } else if decision.action matches Some(action) && (is_blank(action.capability@) || is_blank(
        action.operation@,
    ) || is_blank(action.target@)) {
        Err(JudgmentValidationError::IncompleteAction)
    } else {
        Ok(())
    }
}

/// The first cited event that is not among the known events, as an error.
pub fn validate_evidence(evidence_refs: &Vec<EventId>, event_ids: &Vec<EventId>) -> (r: Result<
    (),
    JudgmentValidationError,
>)
    ensures
        r == match first_unknown_event(evidence_refs@, event_ids@) {
            Some(id) => Err(JudgmentValidationError::UnknownEvent(id)),
            None => Ok(()),
        },
{
    let mut i: usize = 0;
    proof {
        assert(evidence_refs@.subrange(0, evidence_refs@.len() as int) =~= evidence_refs@);
    }
    while i < evidence_refs.len()
        invariant
            i <= evidence_refs@.len(),
            first_unknown_event(evidence_refs@, event_ids@) == first_unknown_event(
                evidence_refs@.subrange(i as int, evidence_refs@.len() as int),
                event_ids@,
            ),
        decreases evidence_refs@.len() - i,
    {
        proof {
            let rest = evidence_refs@.subrange(i as int, evidence_refs@.len() as int);
            assert(rest.drop_first() =~= evidence_refs@.subrange(i + 1, evidence_refs@.len() as int));
            assert(rest[0] == evidence_refs@[i as int]);
        }
        if !contains_id(event_ids, evidence_refs[i]) {
            return Err(JudgmentValidationError::UnknownEvent(evidence_refs[i]));
        }
        i = i + 1;
    }
    Ok(())
}

/// Checks that a position is a valid next revision of what the state holds.
pub fn validate_position_revision(state: &CurrentState, position: &Position) -> (r: Result<
    (),
    JudgmentValidationError,
>)
    requires
        state.wf(),
    ensures
        r == if valid_position_revision(state, *position) {
            Ok(())
        } else {
            Err(JudgmentValidationError::InvalidPositionRevision)
        },
{
    let ok = match (get(&state.positions, position.id), position.supersedes) {
        (Some(previous), None) => position.version == previous.version && position.principal_id
            == previous.principal_id && position.subject == previous.subject && position.stance
            == previous.stance && (position.status == PositionStatus::Active || position.status
            == PositionStatus::Retracted),
        (None, None) => position.version == 1 && position.status == PositionStatus::Active,
        (None, Some(previous_id)) => match get(&state.positions, previous_id) {
            Some(previous) => previous.status == PositionStatus::Active && previous.principal_id
                == position.principal_id && previous.subject == position.subject
                && position.version == previous.version.saturating_add(1) && position.status
                == PositionStatus::Active,
            None => false,
        },
        (Some(_), Some(_)) => false,
    };
    if ok {
        Ok(())
    } else {
        Err(JudgmentValidationError::InvalidPositionRevision)
    }
}

/// Whether a conflict may move from `previous` to `next`.
pub fn valid_conflict_transition(previous: ConflictStatus, next: ConflictStatus) -> (r: bool)
    ensures
        r == conflict_transition_allowed(previous, next),
{
    match (previous, next) {
        (ConflictStatus::Open, _) => true,
        (ConflictStatus::Negotiating, ConflictStatus::Negotiating) => true,
        (ConflictStatus::Negotiating, ConflictStatus::Resolved) => true,
        (ConflictStatus::Negotiating, ConflictStatus::AcceptedDisagreement) => true,
        _ => false,
    }
}

fn participant_principal(state: &CurrentState, decision: &Decision, position_id: PositionId) -> (r:
    Option<PrincipalId>)
    requires
        state.wf(),
    ensures
        r == match participant_position(state, decision, position_id) {
            Some(position) => Some(position.principal_id),
            None => None,
        },
{
    match get(&state.positions, position_id) {
        Some(position) => Some(position.principal_id),
        None => {
            match &decision.position {
                Some(position) if position.id == position_id => {
                    return Some(position.principal_id);
                },
                _ => {},
            }
            match &decision.user_position {
                Some(position) if position.id == position_id => Some(position.principal_id),
                _ => None,
            }
        },
    }
}

fn validate_conflict(
    context: &ThoughtContext,
    state: &CurrentState,
    event_ids: &Vec<EventId>,
    decision: &Decision,
    conflict: &Conflict,
    hekate_id: PrincipalId,
) -> (r: Result<(), JudgmentValidationError>)
    requires
        state.wf(),
    ensures
        r == conflict_verdict(context, state, event_ids@, decision, *conflict, hekate_id),
{
    let ids = &conflict.participant_positions;
    let mut has_hekate = false;
    let mut has_actor = false;
    let mut i: usize = 0;
    proof {
        assert(ids@.subrange(0, ids@.len() as int) =~= ids@);
    }
    while i < ids.len()
        invariant
            state.wf(),
            ids@ == conflict.participant_positions@,
            i <= ids@.len(),
            first_unknown_participant(state, decision, ids@) == first_unknown_participant(
                state,
                decision,
                ids@.subrange(i as int, ids@.len() as int),
            ),
            has_hekate == exists|j: int|
                0 <= j < i && held_by(
                    #[trigger] participant_position(state, decision, ids@[j]),
                    hekate_id,
                ),
            has_actor == exists|j: int|
                0 <= j < i && held_by(
                    #[trigger] participant_position(state, decision, ids@[j]),
                    context.observation.actor_id,
                ),
            forall|j: int|
                0 <= j < i ==> #[trigger] participant_position(state, decision, ids@[j]) is Some,
        decreases ids@.len() - i,
    {
        proof {
            let rest = ids@.subrange(i as int, ids@.len() as int);
            assert(rest.drop_first() =~= ids@.subrange(i + 1, ids@.len() as int));
            assert(rest[0] == ids@[i as int]);
        }
        match participant_principal(state, decision, ids[i]) {
            None => {
                proof {
                    let rest = ids@.subrange(i as int, ids@.len() as int);
                    assert(participant_position(state, decision, rest[0]) is None);
                    assert(first_unknown_participant(state, decision, rest) == Some(ids@[i as int]));
                }
                return Err(JudgmentValidationError::ConflictUnknownPosition(ids[i]));
            },
            Some(principal_id) => {
                if principal_id == hekate_id {
                    has_hekate = true;
                }
                if principal_id == context.observation.actor_id {
                    has_actor = true;
                }
            },
        }
        i = i + 1;
    }
    proof {
        assert(ids@.subrange(ids@.len() as int, ids@.len() as int).len() == 0);
    }
    if !has_hekate || !has_actor {
        return Err(JudgmentValidationError::ConflictParticipants);
    }
    match validate_evidence(&conflict.evidence_refs, event_ids) {
        Err(error) => {
            return Err(error);
        },
        Ok(()) => {},
    }
    match get(&state.conflicts, conflict.id) {
        Some(previous) => {
            if previous.subject != conflict.subject || conflict.revision
                != previous.revision.saturating_add(1) {
                return Err(JudgmentValidationError::InvalidConflictRevision);
            }
            if !valid_conflict_transition(previous.status, conflict.status) {
                return Err(JudgmentValidationError::InvalidConflictTransition);
            }
        },
        None => {
            if conflict.revision != 1 || conflict.status == ConflictStatus::Resolved {
                return Err(JudgmentValidationError::InvalidConflictRevision);
            }
        },
    }
    if (conflict.status == ConflictStatus::Open || conflict.status == ConflictStatus::Negotiating)
        && (conflict.reasons.len() == 0 || conflict.reconsideration_conditions.len() == 0
        || conflict.unresolved_questions.len() == 0) {
        return Err(JudgmentValidationError::IncompleteConflict);
    }
    if (conflict.status == ConflictStatus::Resolved || conflict.status
        == ConflictStatus::AcceptedDisagreement) && conflict.resolution.is_none() {
        return Err(JudgmentValidationError::IncompleteResolution);
    }
    Ok(())
}

fn validate_related(state: &CurrentState, decision: &Decision) -> (r: Result<
    (),
    JudgmentValidationError,
>)
    requires
        state.wf(),
    ensures
        r == match first_unknown_related(state, decision, decision.related_position_ids@) {
            Some(id) => Err(JudgmentValidationError::UnknownPosition(id)),
            None => Ok(()),
        },
{
    let ids = &decision.related_position_ids;
    let mut i: usize = 0;
    proof {
        assert(ids@.subrange(0, ids@.len() as int) =~= ids@);
    }
    while i < ids.len()
        invariant
            state.wf(),
            ids@ == decision.related_position_ids@,
            i <= ids@.len(),
            first_unknown_related(state, decision, ids@) == first_unknown_related(
                state,
                decision,
                ids@.subrange(i as int, ids@.len() as int),
            ),
        decreases ids@.len() - i,
    {
        proof {
            let rest = ids@.subrange(i as int, ids@.len() as int);
            assert(rest.drop_first() =~= ids@.subrange(i + 1, ids@.len() as int));
            assert(rest[0] == ids@[i as int]);
        }
        let id = ids[i];
        let stored = get(&state.positions, id).is_some();
        let proposed = match &decision.position {
            Some(p) => p.id == id,
            None => false,
        } || match &decision.user_position {
            Some(p) => p.id == id,
            None => false,
        };
        if !stored && !proposed {
            proof {
                let rest = ids@.subrange(i as int, ids@.len() as int);
                assert(unknown_related(state, decision, rest[0]));
                assert(first_unknown_related(state, decision, rest) == Some(id));
            }
            return Err(JudgmentValidationError::UnknownPosition(id));
        }
        i = i + 1;
    }
    Ok(())
}

/// Checks a decision against its thought context and the projected state
/// before it may be recorded, reporting the first check it fails.
pub fn validate_judgment(
    context: &ThoughtContext,
    state: &CurrentState,
    event_ids: &Vec<EventId>,
    decision: &Decision,
    hekate_id: PrincipalId,
) -> (r: Result<(), JudgmentValidationError>)
    requires
        state.wf(),
    ensures
        r == judgment_verdict(context, state, event_ids@, decision, hekate_id),
{
    if decision.target_principal_id != Some(context.observation.actor_id) {
        return Err(JudgmentValidationError::InvalidTarget);
    }
    if decision.context_hash != context.snapshot_hash {
        return Err(JudgmentValidationError::ContextHashMismatch);
    }
    if blank(decision.message.as_str()) {
        return Err(JudgmentValidationError::EmptyResponse);
    }
    if decision.confidence > 100 {
        return Err(JudgmentValidationError::ConfidenceOutOfRange);
    }
    match validate_evidence(&decision.evidence_refs, event_ids) {
        Err(error) => {
            return Err(error);
        },
        Ok(()) => {},
    }
    match validate_related(state, decision) {
        Err(error) => {
            return Err(error);
        },
        Ok(()) => {},
    }
    match &decision.position {
        Some(position) => {
            if position.principal_id != hekate_id {
                return Err(JudgmentValidationError::WrongPositionPrincipal);
            }
            match validate_position_revision(state, position) {
                Err(error) => {
                    return Err(error);
                },
                Ok(()) => {},
            }
            if position.confidence > 100 {
                return Err(JudgmentValidationError::ConfidenceOutOfRange);
            }
            match validate_evidence(&position.evidence_refs, event_ids) {
                Err(error) => {
                    return Err(error);
                },
                Ok(()) => {},
            }
        },
        None => {},
    }
    match &decision.user_position {
        Some(position) => {
            if position.principal_id != context.observation.actor_id {
                return Err(JudgmentValidationError::WrongPositionPrincipal);
            }
            if position.confidence > 100 {
                return Err(JudgmentValidationError::ConfidenceOutOfRange);
            }
            match validate_position_revision(state, position) {
                Err(error) => {
                    return Err(error);
                },
                Ok(()) => {},
            }
            match validate_evidence(&position.evidence_refs, event_ids) {
                Err(error) => {
                    return Err(error);
                },
                Ok(()) => {},
            }
        },
        None => {},
    }
    match &decision.conflict {
        Some(conflict) => {
            match validate_conflict(context, state, event_ids, decision, conflict, hekate_id) {
                Err(error) => {
                    return Err(error);
                },
                Ok(()) => {},
            }
        },
        None => {},
    }
    match &decision.action {
        Some(action) => {
            if blank(action.capability.as_str()) || blank(action.operation.as_str()) || blank(
                action.target.as_str(),
            ) {
                return Err(JudgmentValidationError::IncompleteAction);
            }
        },
        None => {},
    }
    Ok(())
}

/// Whether an action intent carries exactly what the model proposed, not
/// yet tied to any event.
pub open spec fn intent_from_proposal(intent: ActionIntent, proposal: ActionProposal) -> bool {
    &&& intent.capability == proposal.capability
    &&& intent.operation == proposal.operation
    &&& intent.target == proposal.target
    &&& intent.arguments == proposal.arguments
    &&& intent.expected_effect == proposal.expected_effect
    &&& intent.preconditions@ == proposal.preconditions@
    &&& intent.proposed_by_event is None
}

/// Whether the decision records what the thought cycle committed to,
/// addressed to the observed user and bound to the context's hash.
pub open spec fn decision_reflects_cycle(
    decision: Decision,
    context: &ThoughtContext,
    cycle: &ThoughtCycle,
) -> bool {
    let commitment = cycle.commitment;
    &&& decision.kind == commitment.final_act
    &&& decision.message == commitment.response
    &&& decision.target_principal_id == Some(context.observation.actor_id)
    &&& decision.request == context.observation.content
    &&& decision.context_hash == context.snapshot_hash
    &&& decision.confidence == commitment.confidence
    &&& decision.reasons@ == commitment.reasons@
    &&& decision.evidence_refs@ == commitment.evidence_refs@
    &&& decision.alternatives@ == commitment.alternatives@
    &&& decision.reconsideration_conditions@ == commitment.reconsideration_conditions@
    &&& decision.unresolved_questions@ == commitment.unresolved_questions@
    &&& decision.related_position_ids@ == commitment.related_position_ids@
    &&& same_opt_position(decision.user_position, commitment.user_position)
    &&& decision.cognitive_trace_id == Some(cycle.trace_id)
    &&& same_opt_position(decision.position, commitment.position)
    &&& same_opt_conflict(decision.conflict, commitment.conflict)
    &&& match (decision.action, commitment.action) {
        (Some(intent), Some(proposal)) => intent_from_proposal(intent, proposal),
        (None, None) => true,
        _ => false,
    }
}

fn intent_from(proposal: &ActionProposal) -> (r: ActionIntent)
    ensures
        intent_from_proposal(r, *proposal),
{
    ActionIntent {
        id: new_id(),
        capability: proposal.capability.clone(),
        operation: proposal.operation.clone(),
        target: proposal.target.clone(),
        arguments: proposal.arguments.clone(),
        expected_effect: proposal.expected_effect.clone(),
        preconditions: clone_strings(&proposal.preconditions),
        proposed_by_event: None,
    }
}

/// The decision a thought cycle commits to, with fresh identifiers for the
/// decision and its action.
pub fn decision_from_cycle(context: &ThoughtContext, cycle: &ThoughtCycle) -> (r: Decision)
    ensures
        decision_reflects_cycle(r, context, cycle),
{
    let commitment = &cycle.commitment;
    let action = match &commitment.action {
        Some(proposal) => Some(intent_from(proposal)),
        None => None,
    };
    Decision {
        id: new_id(),
        kind: commitment.final_act,
        message: commitment.response.clone(),
        target_principal_id: Some(context.observation.actor_id),
        request: context.observation.content.clone(),
        context_hash: context.snapshot_hash.clone(),
        confidence: commitment.confidence,
        reasons: clone_strings(&commitment.reasons),
        evidence_refs: clone_ids(&commitment.evidence_refs),
        alternatives: clone_strings(&commitment.alternatives),
        reconsideration_conditions: clone_strings(&commitment.reconsideration_conditions),
        unresolved_questions: clone_strings(&commitment.unresolved_questions),
        related_position_ids: clone_ids(&commitment.related_position_ids),
        user_position: clone_opt_position(&commitment.user_position),
        cognitive_trace_id: Some(cycle.trace_id.clone()),
        position: clone_opt_position(&commitment.position),
        conflict: clone_opt_conflict(&commitment.conflict),
        action,
    }
}

/// The lifecycle of a conflict: an open conflict may move to any status; a
/// conflict under negotiation may stay under negotiation, be resolved or
/// end in accepted disagreement, but never reopen; a resolved conflict or
/// one ending in accepted disagreement never moves again.
pub proof fn lemma_conflict_lifecycle(next: ConflictStatus)
    ensures
        conflict_transition_allowed(ConflictStatus::Open, next),
        conflict_transition_allowed(ConflictStatus::Negotiating, next) <==> next != ConflictStatus::Open,
        !conflict_transition_allowed(ConflictStatus::Resolved, next),
        !conflict_transition_allowed(ConflictStatus::AcceptedDisagreement, next),
{
}

} // verus!
