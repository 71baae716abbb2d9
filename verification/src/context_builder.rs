//! The anchors of a context snapshot: HEKATE's identity and policy, the
//! relationship, the focus of the request and the positions and conflicts
//! in play, each with the ledger events it rests on, checked as of the
//! requested revision.
use vstd::prelude::*;

use crate::context::first_hekate;
use crate::integration::{intact, verify_integrity};
use crate::context::append_ids;
use crate::model::{
    Conflict, ConflictStatus, EntityKind, EntityRef, EventId, IdentityVersion, Position,
    PositionId, PositionStatus, PrincipalId, Relationship, RelationshipId, Run, RunId, Task,
    TaskId, ObservationId,
};
use crate::state::{CurrentState, ExperienceEvent};
use crate::response_profile::{ResponsePreferenceEvidence, ResponseProfile};
use crate::table::{get, lookup, sorted_keys};

verus! {

/// What kind of entity a request names.
#[derive(Clone, Copy, Debug, PartialEq, Eq, Structural)]
pub enum RequestedKind {
    Relationship,
    Run,
    Task,
}

/// Why a context snapshot cannot be built.
pub enum ContextBuilderError {
    AnchorBudgetExceeded { bytes: usize, limit: usize },
    FutureProjection { requested: u64, actual: u64 },
    FutureEvent { event_id: EventId, sequence: u64, as_of: u64 },
    FutureRecallSource { event_id: EventId, sequence: u64, as_of: u64 },
    InvalidRecallAsOf { event_id: EventId, item_as_of: u64 },
    FutureResponseProfile { profile_revision: u64, request_revision: u64 },
    MissingSourceEvent { event_id: EventId },
    SourceHashMismatch { event_id: EventId },
    InvalidSourceEvent { event_id: EventId, message: String },
    MissingRequestedEntity { kind: RequestedKind, id: u128 },
    Serialization(String),
}

/// The kind of an item of a context snapshot.
#[derive(Clone, Copy, Debug, PartialEq, Eq, Structural)]
pub enum ContextItemKind {
    Identity,
    Policy,
    Relationship,
    Goal,
    Task,
    Run,
    WorkingState,
    Focus,
    Position,
    Conflict,
    Memory,
    Artifact,
    RecentObservation,
    RecentEvent,
    Recall,
}

/// What a context snapshot is built for: whose context, which
/// relationship, task and run it focuses on, as of which revision.
pub struct ContextBuildRequest {
    pub principal_id: PrincipalId,
    pub relationship_id: Option<RelationshipId>,
    pub task_id: Option<TaskId>,
    pub run_id: Option<RunId>,
    /// The observation the snapshot is built for, left out of its recent
    /// events.
    pub current_observation_id: Option<ObservationId>,
    pub as_of_revision: u64,
}

/// The position of the last of the first `n` events with the identifier:
/// the one the ledger index keeps.
pub open spec fn last_at(events: Seq<ExperienceEvent>, id: EventId, n: int) -> Option<int>
    decreases n,
{
    if n <= 0 {
        None
    } else if events[n - 1].event_id == id {
        Some(n - 1)
    } else {
        last_at(events, id, n - 1)
    }
}

/// The position of the last event with the identifier.
pub open spec fn last_of(events: Seq<ExperienceEvent>, id: EventId) -> Option<int> {
    last_at(events, id, events.len() as int)
}

proof fn lemma_last_at_bounded(events: Seq<ExperienceEvent>, id: EventId, n: int)
    requires
        n <= events.len(),
    ensures
        last_at(events, id, n) matches Some(k) ==> 0 <= k < n && events[k].event_id == id,
        last_at(events, id, n) is None ==> forall|k: int| 0 <= k < n ==> events[k].event_id != id,
    decreases n,
{
    if n > 0 {
        lemma_last_at_bounded(events, id, n - 1);
    }
}

/// What is wrong with a source event as of a revision, if anything: it is
/// missing, newer than the revision, or fails its integrity check.
pub open spec fn source_fault(events: Seq<ExperienceEvent>, as_of: u64, id: EventId) -> Option<ContextBuilderError> {
    match last_of(events, id) {
        None => Some(ContextBuilderError::MissingSourceEvent { event_id: id }),
        Some(k) => if k + 1 > as_of {
            Some(
                ContextBuilderError::FutureEvent {
                    event_id: id,
                    sequence: (k + 1) as u64,
                    as_of,
                },
            )
        } else if !intact(events[k]) {
            Some(ContextBuilderError::SourceHashMismatch { event_id: id })
        } else {
            None
        },
    }
}

/// Whether a listed source is at fault.
pub open spec fn faulty(events: Seq<ExperienceEvent>, as_of: u64, ids: Seq<EventId>, x: EventId) -> bool {
    ids.contains(x) && source_fault(events, as_of, x) is Some
}

/// The least listed source at fault (sources are checked in identifier
/// order).
pub open spec fn least_faulty(events: Seq<ExperienceEvent>, as_of: u64, ids: Seq<EventId>) -> EventId {
    choose|m: EventId|
        faulty(events, as_of, ids, m) && forall|x: EventId| faulty(events, as_of, ids, x) ==> m <= x
}

/// The listed sources among the first `n` events, once each, in ledger
/// order.
pub open spec fn in_ledger_order(events: Seq<ExperienceEvent>, ids: Seq<EventId>, n: int) -> Seq<EventId>
    decreases n,
{
    if n <= 0 {
        Seq::empty()
    } else {
        let r = in_ledger_order(events, ids, n - 1);
        let id = events[n - 1].event_id;
        if ids.contains(id) && last_of(events, id) == Some(n - 1) {
            r.push(id)
        } else {
            r
        }
    }
}

/// The sources of an item checked as of a revision: the fault of the
/// least source at fault, else the sources once each in ledger order.
#[verifier::opaque]
pub open spec fn spec_validated(events: Seq<ExperienceEvent>, ids: Seq<EventId>, as_of: u64) -> Result<Seq<EventId>, ContextBuilderError> {
    if exists|x: EventId| faulty(events, as_of, ids, x) {
        Err(source_fault(events, as_of, least_faulty(events, as_of, ids))->0)
    } else {
        Ok(in_ledger_order(events, ids, events.len() as int))
    }
}

pub fn find_last(events: &[ExperienceEvent], id: EventId) -> (r: Option<usize>)
    ensures
        match r {
            Some(k) => k < events@.len() && last_of(events@, id) == Some(k as int),
            None => last_of(events@, id) is None,
        },
{
    let mut n: usize = events.len();
    while n > 0
        invariant
            n <= events@.len(),
            last_of(events@, id) == last_at(events@, id, n as int),
        decreases n,
    {
        if events[n - 1].event_id == id {
            return Some(n - 1);
        }
        n = n - 1;
    }
    None
}

fn check_source(events: &[ExperienceEvent], as_of: u64, id: EventId) -> (r: bool)
    ensures
        r == (source_fault(events@, as_of, id) is Some),
{
    match find_last(events, id) {
        None => true,
        Some(k) => {
            let total = events.len();
            assert(k < total);
            let next: usize = k + 1;
            next as u64 > as_of || !verify_integrity(&events[k])
        },
    }
}

fn source_error(events: &[ExperienceEvent], as_of: u64, id: EventId) -> (r: ContextBuilderError)
    requires
        source_fault(events@, as_of, id) is Some,
    ensures
        source_fault(events@, as_of, id) == Some(r),
{
    match find_last(events, id) {
        None => ContextBuilderError::MissingSourceEvent { event_id: id },
        Some(k) => {
            let total = events.len();
            assert(k < total);
            let next: usize = k + 1;
            if next as u64 > as_of {
                ContextBuilderError::FutureEvent { event_id: id, sequence: next as u64, as_of }
            } else {
                ContextBuilderError::SourceHashMismatch { event_id: id }
            }
        },
    }
}

/// The listed sources once each, in ledger order.
pub fn ledger_order(events: &[ExperienceEvent], ids: &Vec<EventId>) -> (r: Vec<EventId>)
    ensures
        r@ == in_ledger_order(events@, ids@, events@.len() as int),
{
    let mut out: Vec<EventId> = Vec::new();
    let mut k: usize = 0;
    while k < events.len()
        invariant
            k <= events@.len(),
            out@ == in_ledger_order(events@, ids@, k as int),
        decreases events@.len() - k,
    {
        let id = events[k].event_id;
        if crate::model::contains_id(ids, id) {
            match find_last(events, id) {
                Some(last) => {
                    if last == k {
                        out.push(id);
                    }
                },
                None => {},
            }
        }
        k = k + 1;
    }
    out
}

/// Checks the sources of an item as of a revision.
pub fn validated_sources(ids: &Vec<EventId>, as_of: u64, events: &[ExperienceEvent]) -> (r: Result<
    Vec<EventId>,
    ContextBuilderError,
>)
    ensures
        match r {
            Ok(v) => spec_validated(events@, ids@, as_of) == Ok::<Seq<EventId>, ContextBuilderError>(v@),
            Err(e) => spec_validated(events@, ids@, as_of) == Err::<Seq<EventId>, ContextBuilderError>(e),
        },
{
    proof {
        reveal(spec_validated);
    }
    let mut best: Option<EventId> = None;
    let mut i: usize = 0;
    while i < ids.len()
        invariant
            i <= ids@.len(),
            match best {
                None => forall|j: int| 0 <= j < i ==> source_fault(events@, as_of, #[trigger] ids@[j]) is None,
                Some(m) => ids@.contains(m) && source_fault(events@, as_of, m) is Some && forall|j: int|
                    0 <= j < i && source_fault(events@, as_of, #[trigger] ids@[j]) is Some ==> m <= ids@[j],
            },
        decreases ids@.len() - i,
    {
        let id = ids[i];
        if check_source(events, as_of, id) {
            match best {
                None => {
                    best = Some(id);
                },
                Some(m) => {
                    if id < m {
                        best = Some(id);
                    }
                },
            }
        }
        i = i + 1;
    }
    match best {
        Some(m) => {
            proof {
                assert(faulty(events@, as_of, ids@, m));
                assert forall|x: EventId| faulty(events@, as_of, ids@, x) implies m <= x by {
                    let j = choose|j: int| 0 <= j < ids@.len() && ids@[j] == x;
                }
                let l = least_faulty(events@, as_of, ids@);
                assert(faulty(events@, as_of, ids@, l) && forall|x: EventId|
                    faulty(events@, as_of, ids@, x) ==> l <= x);
                assert(l == m);
            }
            Err(source_error(events, as_of, m))
        },
        None => {
            proof {
                assert forall|x: EventId| !faulty(events@, as_of, ids@, x) by {
                    if ids@.contains(x) {
                        let j = choose|j: int| 0 <= j < ids@.len() && ids@[j] == x;
                    }
                }
            }
            Ok(ledger_order(events, ids))
        },
    }
}

/// Whether the event at position `k` is kept by the ledger index, no
/// newer than the revision, and about the entity.
pub open spec fn about_entity(events: Seq<ExperienceEvent>, k: int, kind: EntityKind, id: u128, as_of: u64) -> bool {
    &&& last_of(events, events[k].event_id) == Some(k)
    &&& k + 1 <= as_of
    &&& events[k].subject == Some(EntityRef { kind, id })
}

/// The events among the first `n` about the entity, as of the revision, in
/// ledger order.
pub open spec fn spec_subject_sources(events: Seq<ExperienceEvent>, kind: EntityKind, id: u128, as_of: u64, n: int) -> Seq<EventId>
    decreases n,
{
    if n <= 0 {
        Seq::empty()
    } else {
        let r = spec_subject_sources(events, kind, id, as_of, n - 1);
        if about_entity(events, n - 1, kind, id, as_of) {
            r.push(events[n - 1].event_id)
        } else {
            r
        }
    }
}

/// The events about an entity as of a revision, in ledger order.
pub fn subject_sources(events: &[ExperienceEvent], kind: EntityKind, id: u128, as_of: u64) -> (r: Vec<EventId>)
    ensures
        r@ == spec_subject_sources(events@, kind, id, as_of, events@.len() as int),
{
    let mut out: Vec<EventId> = Vec::new();
    let mut k: usize = 0;
    while k < events.len()
        invariant
            k <= events@.len(),
            out@ == spec_subject_sources(events@, kind, id, as_of, k as int),
        decreases events@.len() - k,
    {
        let e = &events[k];
        let next: usize = k + 1;
        let about = next as u64 <= as_of && match e.subject {
            Some(s) => s.kind == kind && s.id == id,
            None => false,
        };
        if about {
            match find_last(events, e.event_id) {
                Some(last) => {
                    if last == k {
                        out.push(e.event_id);
                    }
                },
                None => {},
            }
        }
        k = k + 1;
    }
    out
}

/// The identity version a principal holds, if any.
pub open spec fn identity_of(state: &CurrentState, principal_id: PrincipalId) -> Option<IdentityVersion> {
    match lookup(state.principals@, principal_id) {
        Some(p) => match p.identity_version_id {
            Some(iv) => lookup(state.identity_versions@, iv),
            None => None,
        },
        None => None,
    }
}

/// The identity the anchors hold: HEKATE's (that of the first principal
/// registered as HEKATE), else the requesting principal's.
pub open spec fn anchor_identity(state: &CurrentState, principal_id: PrincipalId) -> Option<IdentityVersion> {
    let from_hekate = match first_hekate(state.principals@, state.principals@.len() as int) {
        Some(h) => identity_of(state, h),
        None => None,
    };
    match from_hekate {
        Some(iv) => Some(iv),
        None => identity_of(state, principal_id),
    }
}

/// Whether a relationship joins the principal and HEKATE (any relationship
/// of the principal when no principal is registered as HEKATE).
pub open spec fn relationship_with(r: Relationship, principal_id: PrincipalId, hekate_id: Option<PrincipalId>) -> bool {
    r.participants@.contains(principal_id) && match hekate_id {
        Some(h) => r.participants@.contains(h),
        None => true,
    }
}

/// The position of the first of the first `n` relationships joining the
/// principal and HEKATE.
pub open spec fn first_relationship_with(rs: Seq<Relationship>, principal_id: PrincipalId, hekate_id: Option<PrincipalId>, n: int) -> Option<int>
    decreases n,
{
    if n <= 0 {
        None
    } else {
        match first_relationship_with(rs, principal_id, hekate_id, n - 1) {
            Some(k) => Some(k),
            None => if relationship_with(rs[n - 1], principal_id, hekate_id) {
                Some(n - 1)
            } else {
                None
            },
        }
    }
}

/// The relationship a request names, which must exist, else the first
/// joining the principal and HEKATE.
pub open spec fn spec_requested_relationship(state: &CurrentState, request: ContextBuildRequest) -> Result<Option<Relationship>, ContextBuilderError> {
    match request.relationship_id {
        Some(id) => match lookup(state.relationships@, id) {
            Some(r) => Ok(Some(r)),
            None => Err(
                ContextBuilderError::MissingRequestedEntity { kind: RequestedKind::Relationship, id },
            ),
        },
        None => match first_relationship_with(
            state.relationships@,
            request.principal_id,
            first_hekate(state.principals@, state.principals@.len() as int),
            state.relationships@.len() as int,
        ) {
            Some(k) => Ok(Some(state.relationships@[k])),
            None => Ok(None),
        },
    }
}

/// The run and task a request focuses on: the run it names, which must
/// exist; the task it names, else the run's, which must exist.
pub open spec fn spec_requested_work(state: &CurrentState, request: ContextBuildRequest) -> Result<(Option<Run>, Option<Task>), ContextBuilderError> {
    let run = match request.run_id {
        Some(id) => match lookup(state.runs@, id) {
            Some(r) => Ok(Some(r)),
            None => Err(ContextBuilderError::MissingRequestedEntity { kind: RequestedKind::Run, id }),
        },
        None => Ok(None),
    };
    match run {
        Err(e) => Err(e),
        Ok(run) => {
            let task_id = match request.task_id {
                Some(id) => Some(id),
                None => match run {
                    Some(r) => r.task_id,
                    None => None,
                },
            };
            match task_id {
                Some(id) => match lookup(state.tasks@, id) {
                    Some(t) => Ok((run, Some(t))),
                    None => Err(
                        ContextBuilderError::MissingRequestedEntity { kind: RequestedKind::Task, id },
                    ),
                },
                None => Ok((run, None)),
            }
        },
    }
}

/// A step of building the anchors: a refusal, or an item with the raw
/// sources to check.
pub enum StepView {
    Fail(ContextBuilderError),
    Item { kind: ContextItemKind, entity: Option<EntityRef>, ids: Seq<EventId> },
}

/// An anchor as values.
pub struct AnchorView {
    pub kind: ContextItemKind,
    pub entity: Option<EntityRef>,
    pub sources: Seq<EventId>,
}

/// An anchor of a snapshot: its kind, the entity it shows, the checked
/// events it rests on, and the revision it was taken as of.
pub struct Anchor {
    pub kind: ContextItemKind,
    pub entity: Option<EntityRef>,
    pub source_event_ids: Vec<EventId>,
    pub as_of_revision: u64,
}

/// The values of an anchor.
pub open spec fn anchor_view(a: Anchor) -> AnchorView {
    AnchorView { kind: a.kind, entity: a.entity, sources: a.source_event_ids@ }
}

/// The values of each anchor.
pub open spec fn anchor_views(v: Seq<Anchor>) -> Seq<AnchorView> {
    Seq::new(v.len(), |i: int| anchor_view(v[i]))
}

/// A step for the entity with the events about it.
pub open spec fn entity_step(events: Seq<ExperienceEvent>, as_of: u64, item: ContextItemKind, kind: EntityKind, id: u128) -> StepView {
    StepView::Item {
        kind: item,
        entity: Some(EntityRef { kind, id }),
        ids: spec_subject_sources(events, kind, id, as_of, events.len() as int),
    }
}

/// The steps of the identity and policy anchors.
pub open spec fn identity_steps(state: &CurrentState, principal_id: PrincipalId, events: Seq<ExperienceEvent>, as_of: u64) -> Seq<StepView> {
    match anchor_identity(state, principal_id) {
        None => Seq::empty(),
        Some(iv) => {
            let ids = spec_subject_sources(events, EntityKind::IdentityVersion, iv.id, as_of, events.len() as int);
            seq![
                StepView::Item {
                    kind: ContextItemKind::Identity,
                    entity: Some(EntityRef { kind: EntityKind::IdentityVersion, id: iv.id }),
                    ids,
                },
                StepView::Item { kind: ContextItemKind::Policy, entity: None, ids },
            ]
        },
    }
}

/// The step of the relationship anchor.
pub open spec fn relationship_steps(state: &CurrentState, request: ContextBuildRequest, events: Seq<ExperienceEvent>, as_of: u64) -> Seq<StepView> {
    match spec_requested_relationship(state, request) {
        Err(e) => seq![StepView::Fail(e)],
        Ok(None) => Seq::empty(),
        Ok(Some(r)) => seq![
            entity_step(events, as_of, ContextItemKind::Relationship, EntityKind::Relationship, r.id),
        ],
    }
}

/// The checked sources of a step, where they check out.
pub open spec fn checked_ids(events: Seq<ExperienceEvent>, as_of: u64, step: StepView) -> Seq<EventId> {
    match step {
        StepView::Item { ids, .. } => in_ledger_order(events, ids, events.len() as int),
        StepView::Fail(_) => Seq::empty(),
    }
}

/// The checked sources of the steps, one after another.
pub open spec fn all_checked(events: Seq<ExperienceEvent>, as_of: u64, steps: Seq<StepView>) -> Seq<EventId>
    decreases steps.len(),
{
    if steps.len() == 0 {
        Seq::empty()
    } else {
        all_checked(events, as_of, steps.drop_last()) + checked_ids(events, as_of, steps.last())
    }
}

/// The steps of the focus anchors: the goal of the task, the task, the run
/// and its working state, then the focus itself resting on all their
/// sources.
pub open spec fn focus_steps(state: &CurrentState, request: ContextBuildRequest, events: Seq<ExperienceEvent>, as_of: u64) -> Seq<StepView> {
    match spec_requested_work(state, request) {
        Err(e) => seq![StepView::Fail(e)],
        Ok((run, task)) => {
            let goal = match task {
                Some(t) => match t.goal_id {
                    Some(g) => lookup(state.goals@, g),
                    None => None,
                },
                None => None,
            };
            let g_steps = match goal {
                Some(g) => seq![entity_step(events, as_of, ContextItemKind::Goal, EntityKind::Goal, g.id)],
                None => Seq::empty(),
            };
            let t_steps = match task {
                Some(t) => seq![entity_step(events, as_of, ContextItemKind::Task, EntityKind::Task, t.id)],
                None => Seq::empty(),
            };
            let r_steps = match run {
                Some(r) => {
                    let rs = seq![entity_step(events, as_of, ContextItemKind::Run, EntityKind::Run, r.id)];
                    match lookup(state.working_states@, r.id) {
                        Some(w) => rs.push(
                            entity_step(
                                events,
                                as_of,
                                ContextItemKind::WorkingState,
                                EntityKind::WorkingState,
                                w.id,
                            ),
                        ),
                        None => rs,
                    }
                },
                None => Seq::empty(),
            };
            let parts = g_steps + t_steps + r_steps;
            if goal is Some || task is Some || run is Some {
                parts.push(
                    StepView::Item {
                        kind: ContextItemKind::Focus,
                        entity: None,
                        ids: all_checked(events, as_of, parts),
                    },
                )
            } else {
                parts
            }
        },
    }
}

/// Whether a position is an anchor: active and held by the requesting
/// principal or by HEKATE.
pub open spec fn anchored_position(p: Position, principal_id: PrincipalId, hekate_id: Option<PrincipalId>) -> bool {
    (p.principal_id == principal_id || hekate_id == Some(p.principal_id)) && p.status
        == PositionStatus::Active
}

/// The anchored positions among the first `n`, in order.
pub open spec fn anchored_positions(ps: Seq<Position>, principal_id: PrincipalId, hekate_id: Option<PrincipalId>, n: int) -> Seq<Position>
    decreases n,
{
    if n <= 0 {
        Seq::empty()
    } else {
        let r = anchored_positions(ps, principal_id, hekate_id, n - 1);
        if anchored_position(ps[n - 1], principal_id, hekate_id) {
            r.push(ps[n - 1])
        } else {
            r
        }
    }
}

/// The step of an anchor resting on listed evidence and the events about
/// its entity.
pub open spec fn evidence_step(events: Seq<ExperienceEvent>, as_of: u64, item: ContextItemKind, kind: EntityKind, id: u128, evidence: Seq<EventId>) -> StepView {
    StepView::Item {
        kind: item,
        entity: Some(EntityRef { kind, id }),
        ids: evidence + spec_subject_sources(events, kind, id, as_of, events.len() as int),
    }
}

/// The steps of the position anchors.
pub open spec fn position_steps(events: Seq<ExperienceEvent>, as_of: u64, ps: Seq<Position>) -> Seq<StepView> {
    Seq::new(
        ps.len(),
        |i: int| evidence_step(events, as_of, ContextItemKind::Position, EntityKind::Position, ps[i].id, ps[i].evidence_refs@),
    )
}

/// Whether a conflict is an anchor: open or negotiating, and the
/// relationship's, or set between anchored positions, or any such
/// conflict where there is no relationship.
pub open spec fn anchored_conflict(c: Conflict, relationship: Option<Relationship>, position_ids: Seq<PositionId>) -> bool {
    &&& (c.status == ConflictStatus::Open || c.status == ConflictStatus::Negotiating)
    &&& ((relationship matches Some(r) && r.unresolved_conflicts@.contains(c.id)) || (exists|j: int|
        0 <= j < c.participant_positions@.len() && position_ids.contains(
            c.participant_positions@[j],
        )) || relationship is None)
}

/// The anchored conflicts among the first `n`, in order.
pub open spec fn anchored_conflicts(cs: Seq<Conflict>, relationship: Option<Relationship>, position_ids: Seq<PositionId>, n: int) -> Seq<Conflict>
    decreases n,
{
    if n <= 0 {
        Seq::empty()
    } else {
        let r = anchored_conflicts(cs, relationship, position_ids, n - 1);
        if anchored_conflict(cs[n - 1], relationship, position_ids) {
            r.push(cs[n - 1])
        } else {
            r
        }
    }
}

/// The steps of the conflict anchors.
pub open spec fn conflict_steps(events: Seq<ExperienceEvent>, as_of: u64, cs: Seq<Conflict>) -> Seq<StepView> {
    Seq::new(
        cs.len(),
        |i: int| evidence_step(events, as_of, ContextItemKind::Conflict, EntityKind::Conflict, cs[i].id, cs[i].evidence_refs@),
    )
}

/// The identifiers of positions.
pub open spec fn ids_of(ps: Seq<Position>) -> Seq<PositionId> {
    Seq::new(ps.len(), |i: int| ps[i].id)
}

/// All the steps of building the anchors, in order.
pub open spec fn anchor_steps(state: &CurrentState, request: ContextBuildRequest, events: Seq<ExperienceEvent>) -> Seq<StepView> {
    let as_of = request.as_of_revision;
    let hekate = first_hekate(state.principals@, state.principals@.len() as int);
    let relationship = match spec_requested_relationship(state, request) {
        Ok(r) => r,
        Err(_) => None,
    };
    let positions = anchored_positions(state.positions@, request.principal_id, hekate, state.positions@.len() as int);
    let conflicts = anchored_conflicts(state.conflicts@, relationship, ids_of(positions), state.conflicts@.len() as int);
    identity_steps(state, request.principal_id, events, as_of) + relationship_steps(state, request, events, as_of)
        + focus_steps(state, request, events, as_of) + position_steps(events, as_of, positions)
        + conflict_steps(events, as_of, conflicts)
}

/// Whether an anchor of the kind on the entity is already among `done`.
pub open spec fn anchor_taken(done: Seq<AnchorView>, kind: ContextItemKind, entity: Option<EntityRef>) -> bool {
    exists|i: int| 0 <= i < done.len() && done[i].kind == kind && done[i].entity == entity
}

/// Running the first `n` steps: a refusal or a source check that fails
/// stops with its error; an item is added unless an anchor of its kind on
/// its entity is already there.
pub open spec fn run_steps(events: Seq<ExperienceEvent>, as_of: u64, steps: Seq<StepView>, n: int) -> Result<Seq<AnchorView>, ContextBuilderError>
    decreases n,
{
    if n <= 0 {
        Ok(Seq::empty())
    } else {
        match run_steps(events, as_of, steps, n - 1) {
            Err(e) => Err(e),
            Ok(done) => match steps[n - 1] {
                StepView::Fail(e) => Err(e),
                StepView::Item { kind, entity, ids } => match spec_validated(events, ids, as_of) {
                    Err(e) => Err(e),
                    Ok(sources) => if anchor_taken(done, kind, entity) {
                        Ok(done)
                    } else {
                        Ok(done.push(AnchorView { kind, entity, sources }))
                    },
                },
            },
        }
    }
}

/// The anchors of a snapshot for a request, or why they cannot be built.
pub open spec fn spec_build_anchors(state: &CurrentState, request: ContextBuildRequest, events: Seq<ExperienceEvent>) -> Result<Seq<AnchorView>, ContextBuilderError> {
    let steps = anchor_steps(state, request, events);
    run_steps(events, request.as_of_revision, steps, steps.len() as int)
}

/// A step of building the anchors.
pub enum AnchorStep {
    Fail(ContextBuilderError),
    Item { kind: ContextItemKind, entity: Option<EntityRef>, ids: Vec<EventId> },
}

/// The values of a step.
pub open spec fn step_view(s: AnchorStep) -> StepView {
    match s {
        AnchorStep::Fail(e) => StepView::Fail(e),
        AnchorStep::Item { kind, entity, ids } => StepView::Item { kind, entity, ids: ids@ },
    }
}

/// The values of each step.
pub open spec fn step_views(v: Seq<AnchorStep>) -> Seq<StepView> {
    Seq::new(v.len(), |i: int| step_view(v[i]))
}

fn push_step(steps: &mut Vec<AnchorStep>, s: AnchorStep)
    ensures
        step_views(final(steps)@) == step_views(old(steps)@).push(step_view(s)),
{
    let ghost v = step_view(s);
    steps.push(s);
    proof {
        assert(step_views(steps@) =~= step_views(old(steps)@).push(v));
    }
}

fn clone_error(e: &ContextBuilderError) -> (r: ContextBuilderError)
    ensures
        r == *e,
{
    match e {
        ContextBuilderError::AnchorBudgetExceeded { bytes, limit } => ContextBuilderError::AnchorBudgetExceeded {
            bytes: *bytes,
            limit: *limit,
        },
        ContextBuilderError::FutureProjection { requested, actual } => ContextBuilderError::FutureProjection {
            requested: *requested,
            actual: *actual,
        },
        ContextBuilderError::FutureEvent { event_id, sequence, as_of } => ContextBuilderError::FutureEvent {
            event_id: *event_id,
            sequence: *sequence,
            as_of: *as_of,
        },
        ContextBuilderError::FutureRecallSource { event_id, sequence, as_of } => ContextBuilderError::FutureRecallSource {
            event_id: *event_id,
            sequence: *sequence,
            as_of: *as_of,
        },
        ContextBuilderError::InvalidRecallAsOf { event_id, item_as_of } => ContextBuilderError::InvalidRecallAsOf {
            event_id: *event_id,
            item_as_of: *item_as_of,
        },
        ContextBuilderError::FutureResponseProfile { profile_revision, request_revision } => ContextBuilderError::FutureResponseProfile {
            profile_revision: *profile_revision,
            request_revision: *request_revision,
        },
        ContextBuilderError::MissingSourceEvent { event_id } => ContextBuilderError::MissingSourceEvent {
            event_id: *event_id,
        },
        ContextBuilderError::SourceHashMismatch { event_id } => ContextBuilderError::SourceHashMismatch {
            event_id: *event_id,
        },
        ContextBuilderError::InvalidSourceEvent { event_id, message } => ContextBuilderError::InvalidSourceEvent {
            event_id: *event_id,
            message: message.clone(),
        },
        ContextBuilderError::MissingRequestedEntity { kind, id } => ContextBuilderError::MissingRequestedEntity {
            kind: *kind,
            id: *id,
        },
        ContextBuilderError::Serialization(m) => ContextBuilderError::Serialization(m.clone()),
    }
}

pub fn identity_id_of(state: &CurrentState, principal_id: PrincipalId) -> (r: Option<u128>)
    requires
        state.wf(),
    ensures
        match r {
            Some(id) => identity_of(state, principal_id) matches Some(iv) && iv.id == id,
            None => identity_of(state, principal_id) is None,
        },
{
    match get(&state.principals, principal_id) {
        Some(p) => match p.identity_version_id {
            Some(iv) => match get(&state.identity_versions, iv) {
                Some(v) => Some(v.id),
                None => None,
            },
            None => None,
        },
        None => None,
    }
}

fn anchor_identity_id(state: &CurrentState, principal_id: PrincipalId) -> (r: Option<u128>)
    requires
        state.wf(),
    ensures
        match r {
            Some(id) => anchor_identity(state, principal_id) matches Some(iv) && iv.id == id,
            None => anchor_identity(state, principal_id) is None,
        },
{
    let from_hekate = match crate::context::hekate_principal(state) {
        Some(h) => identity_id_of(state, h),
        None => None,
    };
    match from_hekate {
        Some(id) => Some(id),
        None => identity_id_of(state, principal_id),
    }
}

proof fn lemma_first_relationship_stays(rs: Seq<Relationship>, p: PrincipalId, h: Option<PrincipalId>, m: int, n: int)
    requires
        0 <= m <= n,
        first_relationship_with(rs, p, h, m) is Some,
    ensures
        first_relationship_with(rs, p, h, n) == first_relationship_with(rs, p, h, m),
    decreases n - m,
{
    if m < n {
        lemma_first_relationship_stays(rs, p, h, m, n - 1);
    }
}

fn requested_relationship(state: &CurrentState, request: &ContextBuildRequest) -> (r: Result<Option<usize>, ContextBuilderError>)
    requires
        state.wf(),
    ensures
        match r {
            Ok(Some(k)) => k < state.relationships@.len() && spec_requested_relationship(
                state,
                *request,
            ) == Ok::<Option<Relationship>, ContextBuilderError>(Some(state.relationships@[k as int])),
            Ok(None) => spec_requested_relationship(state, *request) == Ok::<Option<Relationship>, ContextBuilderError>(None),
            Err(e) => spec_requested_relationship(state, *request) == Err::<Option<Relationship>, ContextBuilderError>(e),
        },
{
    match request.relationship_id {
        Some(id) => match crate::table::find_index(&state.relationships, id) {
            Some(k) => Ok(Some(k)),
            None => Err(
                ContextBuilderError::MissingRequestedEntity { kind: RequestedKind::Relationship, id },
            ),
        },
        None => {
            let hekate = crate::context::hekate_principal(state);
            let mut i: usize = 0;
            while i < state.relationships.len()
                invariant
                    request.relationship_id is None,
                    hekate == first_hekate(state.principals@, state.principals@.len() as int),
                    i <= state.relationships@.len(),
                    first_relationship_with(state.relationships@, request.principal_id, hekate, i as int) is None,
                decreases state.relationships@.len() - i,
            {
                let r = &state.relationships[i];
                let hit = crate::model::contains_id(&r.participants, request.principal_id) && match hekate {
                    Some(h) => crate::model::contains_id(&r.participants, h),
                    None => true,
                };
                if hit {
                    proof {
                        assert(first_relationship_with(
                            state.relationships@,
                            request.principal_id,
                            hekate,
                            i + 1,
                        ) == Some(i as int));
                        lemma_first_relationship_stays(
                            state.relationships@,
                            request.principal_id,
                            hekate,
                            i + 1,
                            state.relationships@.len() as int,
                        );
                    }
                    return Ok(Some(i));
                }
                i = i + 1;
            }
            Ok(None)
        },
    }
}

fn requested_work(state: &CurrentState, request: &ContextBuildRequest) -> (r: Result<(Option<usize>, Option<usize>), ContextBuilderError>)
    requires
        state.wf(),
    ensures
        match r {
            Ok((run, task)) => {
                &&& run matches Some(k) ==> k < state.runs@.len()
                &&& task matches Some(k) ==> k < state.tasks@.len()
                &&& spec_requested_work(state, *request) == Ok::<(Option<Run>, Option<Task>), ContextBuilderError>(
                    (
                        match run {
                            Some(k) => Some(state.runs@[k as int]),
                            None => None,
                        },
                        match task {
                            Some(k) => Some(state.tasks@[k as int]),
                            None => None,
                        },
                    ),
                )
            },
            Err(e) => spec_requested_work(state, *request) == Err::<(Option<Run>, Option<Task>), ContextBuilderError>(e),
        },
{
    let run = match request.run_id {
        Some(id) => match crate::table::find_index(&state.runs, id) {
            Some(k) => Some(k),
            None => {
                return Err(
                    ContextBuilderError::MissingRequestedEntity { kind: RequestedKind::Run, id },
                );
            },
        },
        None => None,
    };
    let task_id = match request.task_id {
        Some(id) => Some(id),
        None => match run {
            Some(k) => state.runs[k].task_id,
            None => None,
        },
    };
    let task = match task_id {
        Some(id) => match crate::table::find_index(&state.tasks, id) {
            Some(k) => Some(k),
            None => {
                return Err(
                    ContextBuilderError::MissingRequestedEntity { kind: RequestedKind::Task, id },
                );
            },
        },
        None => None,
    };
    Ok((run, task))
}

fn entity_item(events: &[ExperienceEvent], as_of: u64, item: ContextItemKind, kind: EntityKind, id: u128) -> (r: AnchorStep)
    ensures
        step_view(r) == entity_step(events@, as_of, item, kind, id),
{
    AnchorStep::Item {
        kind: item,
        entity: Some(EntityRef { kind, id }),
        ids: subject_sources(events, kind, id, as_of),
    }
}

fn evidence_item(
    events: &[ExperienceEvent],
    as_of: u64,
    item: ContextItemKind,
    kind: EntityKind,
    id: u128,
    evidence: &Vec<EventId>,
) -> (r: AnchorStep)
    ensures
        step_view(r) == evidence_step(events@, as_of, item, kind, id, evidence@),
{
    let mut ids = crate::model::clone_ids(evidence);
    let about = subject_sources(events, kind, id, as_of);
    append_ids(&mut ids, &about);
    AnchorStep::Item { kind: item, entity: Some(EntityRef { kind, id }), ids }
}

fn push_entity(
    parts: &mut Vec<AnchorStep>,
    checked: &mut Vec<EventId>,
    events: &[ExperienceEvent],
    as_of: u64,
    item: ContextItemKind,
    kind: EntityKind,
    id: u128,
)
    ensures
        step_views(final(parts)@) == step_views(old(parts)@).push(entity_step(events@, as_of, item, kind, id)),
        final(checked)@ == old(checked)@ + checked_ids(events@, as_of, entity_step(events@, as_of, item, kind, id)),
{
    let ids = subject_sources(events, kind, id, as_of);
    let in_order = ledger_order(events, &ids);
    append_ids(checked, &in_order);
    push_step(parts, AnchorStep::Item { kind: item, entity: Some(EntityRef { kind, id }), ids });
}

proof fn lemma_all_checked_push(events: Seq<ExperienceEvent>, as_of: u64, s: Seq<StepView>, x: StepView)
    ensures
        all_checked(events, as_of, s.push(x)) == all_checked(events, as_of, s) + checked_ids(events, as_of, x),
{
    assert(s.push(x).drop_last() =~= s);
}

fn add_focus_steps(state: &CurrentState, request: &ContextBuildRequest, events: &[ExperienceEvent], steps: &mut Vec<AnchorStep>)
    requires
        state.wf(),
    ensures
        step_views(final(steps)@) == step_views(old(steps)@) + focus_steps(
            state,
            *request,
            events@,
            request.as_of_revision,
        ),
{
    let as_of = request.as_of_revision;
    match requested_work(state, request) {
        Err(e) => {
            let ghost before = step_views(steps@);
            push_step(steps, AnchorStep::Fail(e));
            proof {
                assert(step_views(steps@) =~= before + focus_steps(state, *request, events@, as_of));
            }
        },
        Ok((run, task)) => {
            let mut parts: Vec<AnchorStep> = Vec::new();
            let mut checked: Vec<EventId> = Vec::new();
            proof {
                assert(step_views(parts@) =~= Seq::<StepView>::empty());
            }
            let goal: Option<u128> = match task {
                Some(k) => match state.tasks[k].goal_id {
                    Some(g) => if crate::table::contains_key(&state.goals, g) {
                        Some(g)
                    } else {
                        None
                    },
                    None => None,
                },
                None => None,
            };
            let ghost spec_goal = match task {
                Some(k) => match state.tasks@[k as int].goal_id {
                    Some(g) => lookup(state.goals@, g),
                    None => None,
                },
                None => None,
            };
            proof {
                match goal {
                    Some(g) => {
                        crate::table::lemma_lookup_key(state.goals@, g);
                    },
                    None => {},
                }
                assert(goal is Some == spec_goal is Some);
                assert(goal matches Some(g) ==> spec_goal->0.id == g);
            }
            match goal {
                Some(g) => {
                    let ghost pv = step_views(parts@);
                    push_entity(&mut parts, &mut checked, events, as_of, ContextItemKind::Goal, EntityKind::Goal, g);
                    proof {
                        lemma_all_checked_push(events@, as_of, pv, entity_step(events@, as_of, ContextItemKind::Goal, EntityKind::Goal, g));
                    }
                },
                None => {},
            }
            match task {
                Some(k) => {
                    let ghost pv = step_views(parts@);
                    let tid = state.tasks[k].id;
                    push_entity(&mut parts, &mut checked, events, as_of, ContextItemKind::Task, EntityKind::Task, tid);
                    proof {
                        lemma_all_checked_push(events@, as_of, pv, entity_step(events@, as_of, ContextItemKind::Task, EntityKind::Task, tid));
                    }
                },
                None => {},
            }
            match run {
                Some(k) => {
                    let ghost pv = step_views(parts@);
                    let rid = state.runs[k].id;
                    push_entity(&mut parts, &mut checked, events, as_of, ContextItemKind::Run, EntityKind::Run, rid);
                    proof {
                        lemma_all_checked_push(events@, as_of, pv, entity_step(events@, as_of, ContextItemKind::Run, EntityKind::Run, rid));
                    }
                    if crate::table::contains_key(&state.working_states, rid) {
                        let ghost pw = step_views(parts@);
                        proof {
                            crate::table::lemma_lookup_key(state.working_states@, rid);
                        }
                        push_entity(
                            &mut parts,
                            &mut checked,
                            events,
                            as_of,
                            ContextItemKind::WorkingState,
                            EntityKind::WorkingState,
                            rid,
                        );
                        proof {
                            lemma_all_checked_push(events@, as_of, pw, entity_step(events@, as_of, ContextItemKind::WorkingState, EntityKind::WorkingState, rid));
                        }
                    }
                },
                None => {},
            }
            let ghost parts_view = step_views(parts@);
            proof {
                assert(all_checked(events@, as_of, parts_view) == checked@);
                let spec_run = match run {
                    Some(k) => Some(state.runs@[k as int]),
                    None => None,
                };
                let spec_task = match task {
                    Some(k) => Some(state.tasks@[k as int]),
                    None => None,
                };
                let g_steps = match spec_goal {
                    Some(gg) => seq![entity_step(events@, as_of, ContextItemKind::Goal, EntityKind::Goal, gg.id)],
                    None => Seq::<StepView>::empty(),
                };
                let t_steps = match spec_task {
                    Some(t) => seq![entity_step(events@, as_of, ContextItemKind::Task, EntityKind::Task, t.id)],
                    None => Seq::<StepView>::empty(),
                };
                let r_steps = match spec_run {
                    Some(r) => {
                        let rs = seq![entity_step(events@, as_of, ContextItemKind::Run, EntityKind::Run, r.id)];
                        match lookup(state.working_states@, r.id) {
                            Some(w) => rs.push(
                                entity_step(
                                    events@,
                                    as_of,
                                    ContextItemKind::WorkingState,
                                    EntityKind::WorkingState,
                                    w.id,
                                ),
                            ),
                            None => rs,
                        }
                    },
                    None => Seq::<StepView>::empty(),
                };
                assert(parts_view =~= g_steps + t_steps + r_steps);
            }
            let any = goal.is_some() || task.is_some() || run.is_some();
            let mut i: usize = 0;
            let ghost start = step_views(steps@);
            let n = parts.len();
            let mut rest = parts;
            while i < n
                invariant
                    n == parts_view.len(),
                    i <= n,
                    step_views(rest@) == parts_view.subrange(i as int, n as int),
                    step_views(steps@) == start + parts_view.subrange(0, i as int),
                decreases n - i,
            {
                let ghost rv = step_views(rest@);
                let ghost old_rest = rest@;
                proof {
                    assert(rv.len() == rest@.len());
                }
                let item = rest.remove(0);
                proof {
                    assert(item == old_rest[0]);
                    assert(rv[0] == step_view(old_rest[0]));
                    assert(step_view(item) == rv[0]);
                    assert(step_views(rest@) =~= rv.drop_first());
                    assert(parts_view.subrange(i + 1, n as int) =~= rv.drop_first());
                    assert(parts_view[i as int] == rv[0]);
                }
                let ghost sv = step_views(steps@);
                push_step(steps, item);
                proof {
                    assert(parts_view.subrange(0, i + 1) =~= parts_view.subrange(0, i as int).push(parts_view[i as int]));
                    assert(step_views(steps@) =~= start + parts_view.subrange(0, i + 1));
                }
                i = i + 1;
            }
            proof {
                assert(parts_view.subrange(0, n as int) =~= parts_view);
            }
            if any {
                push_step(steps, AnchorStep::Item { kind: ContextItemKind::Focus, entity: None, ids: checked });
                proof {
                    assert(step_views(steps@) =~= start + focus_steps(state, *request, events@, as_of));
                }
            } else {
                proof {
                    assert(step_views(steps@) =~= start + focus_steps(state, *request, events@, as_of));
                }
            }
        },
    }
}

fn add_position_steps(
    state: &CurrentState,
    request: &ContextBuildRequest,
    events: &[ExperienceEvent],
    hekate: Option<PrincipalId>,
    steps: &mut Vec<AnchorStep>,
) -> (ids: Vec<PositionId>)
    ensures
        step_views(final(steps)@) == step_views(old(steps)@) + position_steps(
            events@,
            request.as_of_revision,
            anchored_positions(state.positions@, request.principal_id, hekate, state.positions@.len() as int),
        ),
        ids@ == ids_of(
            anchored_positions(state.positions@, request.principal_id, hekate, state.positions@.len() as int),
        ),
{
    let as_of = request.as_of_revision;
    let ghost start = step_views(steps@);
    let mut ids: Vec<PositionId> = Vec::new();
    let mut i: usize = 0;
    proof {
        assert(position_steps(events@, as_of, Seq::<Position>::empty()) =~= Seq::<StepView>::empty());
        assert(ids_of(Seq::<Position>::empty()) =~= Seq::<PositionId>::empty());
        assert(step_views(steps@) =~= start + Seq::<StepView>::empty());
    }
    while i < state.positions.len()
        invariant
            as_of == request.as_of_revision,
            i <= state.positions@.len(),
            step_views(steps@) == start + position_steps(
                events@,
                as_of,
                anchored_positions(state.positions@, request.principal_id, hekate, i as int),
            ),
            ids@ == ids_of(anchored_positions(state.positions@, request.principal_id, hekate, i as int)),
        decreases state.positions@.len() - i,
    {
        let p = &state.positions[i];
        let held = p.principal_id == request.principal_id || match hekate {
            Some(h) => h == p.principal_id,
            None => false,
        };
        if held && p.status == PositionStatus::Active {
            let ghost prev = anchored_positions(state.positions@, request.principal_id, hekate, i as int);
            let ghost sv = step_views(steps@);
            let step = evidence_item(events, as_of, ContextItemKind::Position, EntityKind::Position, p.id, &p.evidence_refs);
            push_step(steps, step);
            ids.push(p.id);
            proof {
                assert(position_steps(events@, as_of, prev.push(*p)) =~= position_steps(events@, as_of, prev).push(
                    evidence_step(events@, as_of, ContextItemKind::Position, EntityKind::Position, p.id, p.evidence_refs@),
                ));
                assert(step_views(steps@) =~= start + position_steps(events@, as_of, prev.push(*p)));
                assert(ids_of(prev.push(*p)) =~= ids_of(prev).push(p.id));
            }
        }
        i = i + 1;
    }
    ids
}

fn any_listed(candidates: &Vec<PositionId>, ids: &Vec<PositionId>) -> (r: bool)
    ensures
        r == exists|j: int| 0 <= j < candidates@.len() && ids@.contains(candidates@[j]),
{
    let mut j: usize = 0;
    while j < candidates.len()
        invariant
            j <= candidates@.len(),
            forall|k: int| 0 <= k < j ==> !ids@.contains(#[trigger] candidates@[k]),
        decreases candidates@.len() - j,
    {
        if crate::model::contains_id(ids, candidates[j]) {
            return true;
        }
        j = j + 1;
    }
    false
}

fn add_conflict_steps(
    state: &CurrentState,
    request: &ContextBuildRequest,
    events: &[ExperienceEvent],
    relationship: Option<&Relationship>,
    position_ids: &Vec<PositionId>,
    steps: &mut Vec<AnchorStep>,
)
    ensures
        step_views(final(steps)@) == step_views(old(steps)@) + conflict_steps(
            events@,
            request.as_of_revision,
            anchored_conflicts(
                state.conflicts@,
                match relationship {
                    Some(r) => Some(*r),
                    None => None,
                },
                position_ids@,
                state.conflicts@.len() as int,
            ),
        ),
{
    let as_of = request.as_of_revision;
    let ghost rel = match relationship {
        Some(r) => Some(*r),
        None => None,
    };
    let ghost start = step_views(steps@);
    let mut i: usize = 0;
    proof {
        assert(conflict_steps(events@, as_of, Seq::<Conflict>::empty()) =~= Seq::<StepView>::empty());
        assert(step_views(steps@) =~= start + Seq::<StepView>::empty());
    }
    while i < state.conflicts.len()
        invariant
            as_of == request.as_of_revision,
            rel == match relationship {
                Some(r) => Some(*r),
                None => None::<Relationship>,
            },
            i <= state.conflicts@.len(),
            step_views(steps@) == start + conflict_steps(
                events@,
                as_of,
                anchored_conflicts(state.conflicts@, rel, position_ids@, i as int),
            ),
        decreases state.conflicts@.len() - i,
    {
        let c = &state.conflicts[i];
        let open = c.status == ConflictStatus::Open || c.status == ConflictStatus::Negotiating;
        let listed = match relationship {
            Some(r) => crate::model::contains_id(&r.unresolved_conflicts, c.id),
            None => false,
        };
        let linked = any_listed(&c.participant_positions, position_ids);
        if open && (listed || linked || relationship.is_none()) {
            let ghost prev = anchored_conflicts(state.conflicts@, rel, position_ids@, i as int);
            let step = evidence_item(events, as_of, ContextItemKind::Conflict, EntityKind::Conflict, c.id, &c.evidence_refs);
            push_step(steps, step);
            proof {
                assert(conflict_steps(events@, as_of, prev.push(*c)) =~= conflict_steps(events@, as_of, prev).push(
                    evidence_step(events@, as_of, ContextItemKind::Conflict, EntityKind::Conflict, c.id, c.evidence_refs@),
                ));
                assert(step_views(steps@) =~= start + conflict_steps(events@, as_of, prev.push(*c)));
            }
        }
        i = i + 1;
    }
}

/// The steps of building the anchors for a request.
pub fn anchor_step_list(state: &CurrentState, request: &ContextBuildRequest, events: &[ExperienceEvent]) -> (r: Vec<AnchorStep>)
    requires
        state.wf(),
    ensures
        step_views(r@) == anchor_steps(state, *request, events@),
{
    let as_of = request.as_of_revision;
    let mut steps: Vec<AnchorStep> = Vec::new();
    match anchor_identity_id(state, request.principal_id) {
        Some(iv) => {
            let ids = subject_sources(events, EntityKind::IdentityVersion, iv, as_of);
            let again = crate::model::clone_ids(&ids);
            push_step(
                &mut steps,
                AnchorStep::Item {
                    kind: ContextItemKind::Identity,
                    entity: Some(EntityRef { kind: EntityKind::IdentityVersion, id: iv }),
                    ids,
                },
            );
            push_step(&mut steps, AnchorStep::Item { kind: ContextItemKind::Policy, entity: None, ids: again });
        },
        None => {},
    }
    let ghost after_identity = step_views(steps@);
    proof {
        assert(after_identity =~= identity_steps(state, request.principal_id, events@, as_of));
    }
    let rel_index = match requested_relationship(state, request) {
        Err(e) => {
            push_step(&mut steps, AnchorStep::Fail(e));
            None
        },
        Ok(None) => None,
        Ok(Some(k)) => {
            let rid = state.relationships[k].id;
            push_step(
                &mut steps,
                entity_item(events, as_of, ContextItemKind::Relationship, EntityKind::Relationship, rid),
            );
            Some(k)
        },
    };
    let ghost after_relationship = step_views(steps@);
    proof {
        assert(after_relationship =~= after_identity + relationship_steps(state, *request, events@, as_of));
    }
    add_focus_steps(state, request, events, &mut steps);
    let ghost after_focus = step_views(steps@);
    let hekate = crate::context::hekate_principal(state);
    let position_ids = add_position_steps(state, request, events, hekate, &mut steps);
    let ghost after_positions = step_views(steps@);
    let relationship = match rel_index {
        Some(k) => Some(&state.relationships[k]),
        None => None,
    };
    add_conflict_steps(state, request, events, relationship, &position_ids, &mut steps);
    proof {
        let spec_rel = match spec_requested_relationship(state, *request) {
            Ok(r) => r,
            Err(_) => None,
        };
        assert(match relationship {
            Some(r) => Some(*r),
            None => None::<Relationship>,
        } == spec_rel);
        assert(step_views(steps@) =~= anchor_steps(state, *request, events@));
    }
    steps
}

fn taken(done: &Vec<Anchor>, kind: ContextItemKind, entity: Option<EntityRef>) -> (r: bool)
    ensures
        r == anchor_taken(anchor_views(done@), kind, entity),
{
    let mut i: usize = 0;
    while i < done.len()
        invariant
            i <= done@.len(),
            forall|j: int| 0 <= j < i ==> !(done@[j].kind == kind && done@[j].entity == entity),
        decreases done@.len() - i,
    {
        if done[i].kind == kind && done[i].entity == entity {
            proof {
                assert(anchor_views(done@)[i as int].kind == kind);
            }
            return true;
        }
        i = i + 1;
    }
    proof {
        if anchor_taken(anchor_views(done@), kind, entity) {
            let j = choose|j: int| 0 <= j < anchor_views(done@).len() && anchor_views(done@)[j].kind == kind
                && anchor_views(done@)[j].entity == entity;
            assert(done@[j].kind == kind);
        }
    }
    false
}

/// Runs the steps: the first refusal or failing source check stops them;
/// each item is added unless an anchor of its kind on its entity is there.
pub fn run_step_list(steps: &Vec<AnchorStep>, as_of: u64, events: &[ExperienceEvent]) -> (r: Result<
    Vec<Anchor>,
    ContextBuilderError,
>)
    ensures
        match r {
            Ok(v) => run_steps(events@, as_of, step_views(steps@), steps@.len() as int) == Ok::<Seq<AnchorView>, ContextBuilderError>(anchor_views(v@))
                && forall|k: int| 0 <= k < v@.len() ==> #[trigger] v@[k].as_of_revision == as_of,
            Err(e) => run_steps(events@, as_of, step_views(steps@), steps@.len() as int) == Err::<Seq<AnchorView>, ContextBuilderError>(e),
        },
{
    let ghost views = step_views(steps@);
    let mut out: Vec<Anchor> = Vec::new();
    let mut i: usize = 0;
    proof {
        assert(anchor_views(out@) =~= Seq::<AnchorView>::empty());
    }
    while i < steps.len()
        invariant
            views == step_views(steps@),
            i <= steps@.len(),
            run_steps(events@, as_of, views, i as int) == Ok::<Seq<AnchorView>, ContextBuilderError>(anchor_views(out@)),
            forall|k: int| 0 <= k < out@.len() ==> #[trigger] out@[k].as_of_revision == as_of,
        decreases steps@.len() - i,
    {
        assert(views[i as int] == step_view(steps@[i as int]));
        match &steps[i] {
            AnchorStep::Fail(e) => {
                proof {
                    lemma_run_steps_stops(events@, as_of, views, i as int + 1, steps@.len() as int);
                }
                return Err(clone_error(e));
            },
            AnchorStep::Item { kind, entity, ids } => {
                match validated_sources(ids, as_of, events) {
                    Err(e) => {
                        proof {
                            lemma_run_steps_stops(events@, as_of, views, i as int + 1, steps@.len() as int);
                        }
                        return Err(e);
                    },
                    Ok(sources) => {
                        if !taken(&out, *kind, *entity) {
                            let ghost before = anchor_views(out@);
                            let ghost a = AnchorView { kind: *kind, entity: *entity, sources: sources@ };
                            out.push(Anchor { kind: *kind, entity: *entity, source_event_ids: sources, as_of_revision: as_of });
                            proof {
                                assert(anchor_views(out@) =~= before.push(a));
                            }
                        }
                    },
                }
            },
        }
        i = i + 1;
    }
    Ok(out)
}

proof fn lemma_run_steps_stops(events: Seq<ExperienceEvent>, as_of: u64, steps: Seq<StepView>, m: int, n: int)
    requires
        0 <= m <= n,
        run_steps(events, as_of, steps, m) is Err,
    ensures
        run_steps(events, as_of, steps, n) == run_steps(events, as_of, steps, m),
    decreases n - m,
{
    if m < n {
        lemma_run_steps_stops(events, as_of, steps, m, n - 1);
    }
}

/// The anchors of a snapshot for a request: identity and policy, the
/// relationship, the focus's goal, task, run and working state and the
/// focus itself, then the positions and conflicts in play, each resting
/// on its events checked as of the requested revision; the first request
/// that names a missing entity, or the first source that fails its check,
/// refuses the whole.
pub fn build_anchors(state: &CurrentState, request: &ContextBuildRequest, events: &[ExperienceEvent]) -> (r: Result<
    Vec<Anchor>,
    ContextBuilderError,
>)
    requires
        state.wf(),
    ensures
        match r {
            Ok(v) => spec_build_anchors(state, *request, events@) == Ok::<Seq<AnchorView>, ContextBuilderError>(anchor_views(v@))
                && distinct_anchors(anchor_views(v@))
                && forall|k: int| 0 <= k < v@.len() ==> #[trigger] v@[k].as_of_revision == request.as_of_revision
                    && sources_in_order(events@, v@[k].source_event_ids@, request.as_of_revision),
            Err(e) => spec_build_anchors(state, *request, events@) == Err::<Seq<AnchorView>, ContextBuilderError>(e),
        },
{
    let steps = anchor_step_list(state, request, events);
    let r = run_step_list(&steps, request.as_of_revision, events);
    proof {
        let steps_v = anchor_steps(state, *request, events@);
        lemma_run_steps_sound(events@, request.as_of_revision, steps_v, steps_v.len() as int);
        if r is Ok {
            let v = r->Ok_0;
            assert forall|k: int| 0 <= k < v@.len() implies #[trigger] v@[k].as_of_revision == request.as_of_revision
                && sources_in_order(events@, v@[k].source_event_ids@, request.as_of_revision) by {
                assert(anchor_views(v@)[k].sources == v@[k].source_event_ids@);
            }
        }
    }
    r
}

/// No two anchors share a kind and an entity.
pub open spec fn distinct_anchors(v: Seq<AnchorView>) -> bool {
    forall|i: int, j: int| 0 <= i < j < v.len() ==> !(#[trigger] v[i].kind == #[trigger] v[j].kind && v[i].entity == v[j].entity)
}

/// The ledger sequence of an event: one past the position of the last
/// event with its identifier (zero if there is none).
pub open spec fn sequence_of(events: Seq<ExperienceEvent>, id: EventId) -> int {
    match last_of(events, id) {
        Some(k) => k + 1,
        None => 0,
    }
}

/// Sources once each, in ledger order, every one in the ledger at or
/// below the revision.
pub open spec fn sources_in_order(events: Seq<ExperienceEvent>, s: Seq<EventId>, as_of: u64) -> bool {
    &&& s.no_duplicates()
    &&& forall|j: int| 0 <= j < s.len() ==> 1 <= #[trigger] sequence_of(events, s[j]) <= as_of
    &&& forall|i: int, j: int| 0 <= i < j < s.len() ==> #[trigger] sequence_of(events, s[i]) < #[trigger] sequence_of(events, s[j])
}

proof fn lemma_in_ledger_order(events: Seq<ExperienceEvent>, ids: Seq<EventId>, n: int)
    requires
        0 <= n <= events.len(),
    ensures
        forall|j: int| 0 <= j < in_ledger_order(events, ids, n).len() ==> {
            let x = #[trigger] in_ledger_order(events, ids, n)[j];
            &&& ids.contains(x)
            &&& last_of(events, x) matches Some(k) && k < n
        },
        forall|i: int, j: int| 0 <= i < j < in_ledger_order(events, ids, n).len() ==> #[trigger] sequence_of(events, in_ledger_order(events, ids, n)[i])
            < #[trigger] sequence_of(events, in_ledger_order(events, ids, n)[j]),
    decreases n,
{
    if n > 0 {
        lemma_in_ledger_order(events, ids, n - 1);
        let r = in_ledger_order(events, ids, n - 1);
        let id = events[n - 1].event_id;
        if ids.contains(id) && last_of(events, id) == Some(n - 1) {
            let s = r.push(id);
            assert forall|i: int, j: int| 0 <= i < j < s.len() implies #[trigger] sequence_of(events, s[i]) < #[trigger] sequence_of(events, s[j]) by {
                if j == s.len() - 1 {
                    assert(s[i] == r[i]);
                    assert(last_of(events, r[i]) matches Some(k) && k < n - 1);
                } else {
                    assert(s[i] == r[i] && s[j] == r[j]);
                }
            }
            assert forall|j: int| 0 <= j < s.len() implies {
                let x = #[trigger] s[j];
                &&& ids.contains(x)
                &&& last_of(events, x) matches Some(k) && k < n
            } by {
                if j < s.len() - 1 {
                    assert(s[j] == r[j]);
                }
            }
        }
    }
}

proof fn lemma_validated_in_order(events: Seq<ExperienceEvent>, ids: Seq<EventId>, as_of: u64)
    requires
        spec_validated(events, ids, as_of) is Ok,
    ensures
        sources_in_order(events, spec_validated(events, ids, as_of)->Ok_0, as_of),
{
    reveal(spec_validated);
    let s = in_ledger_order(events, ids, events.len() as int);
    lemma_in_ledger_order(events, ids, events.len() as int);
    assert(forall|x: EventId| !faulty(events, as_of, ids, x));
    assert forall|j: int| 0 <= j < s.len() implies 1 <= #[trigger] sequence_of(events, s[j]) <= as_of by {
        let x = s[j];
        assert(ids.contains(x));
        assert(!faulty(events, as_of, ids, x));
        assert(source_fault(events, as_of, x) is None);
        assert(last_of(events, x) is Some);
        lemma_last_at_bounded(events, x, events.len() as int);
    }
    assert forall|i: int, j: int| 0 <= i < s.len() && 0 <= j < s.len() && i != j implies s[i] != s[j] by {
        if i < j {
            assert(sequence_of(events, s[i]) < sequence_of(events, s[j]));
        } else {
            assert(sequence_of(events, s[j]) < sequence_of(events, s[i]));
        }
    }
}

proof fn lemma_run_steps_sound(events: Seq<ExperienceEvent>, as_of: u64, steps: Seq<StepView>, n: int)
    requires
        n <= steps.len(),
    ensures
        run_steps(events, as_of, steps, n) matches Ok(done) ==> distinct_anchors(done) && forall|k: int|
            0 <= k < done.len() ==> sources_in_order(events, #[trigger] done[k].sources, as_of),
    decreases n,
{
    if n > 0 {
        lemma_run_steps_sound(events, as_of, steps, n - 1);
        match run_steps(events, as_of, steps, n - 1) {
            Err(_) => {},
            Ok(done) => match steps[n - 1] {
                StepView::Fail(_) => {},
                StepView::Item { kind, entity, ids } => match spec_validated(events, ids, as_of) {
                    Err(_) => {},
                    Ok(sources) => if !anchor_taken(done, kind, entity) {
                        lemma_validated_in_order(events, ids, as_of);
                        let d = done.push(AnchorView { kind, entity, sources });
                        assert forall|i: int, j: int| 0 <= i < j < d.len() implies !(#[trigger] d[i].kind == #[trigger] d[j].kind && d[i].entity == d[j].entity) by {
                            if j == d.len() - 1 {
                                if d[i].kind == d[j].kind && d[i].entity == d[j].entity {
                                    assert(done[i].kind == kind && done[i].entity == entity);
                                    assert(anchor_taken(done, kind, entity));
                                }
                            } else {
                                assert(d[i] == done[i] && d[j] == done[j]);
                            }
                        }
                        assert forall|k: int| 0 <= k < d.len() implies sources_in_order(events, #[trigger] d[k].sources, as_of) by {
                            if k < d.len() - 1 {
                                assert(d[k] == done[k]);
                            }
                        }
                    },
                },
            },
        }
    }
}


/// Why the response profile cannot enter a snapshot as of `as_of`, if it
/// cannot: it is newer than the request, or the source of a piece of its
/// evidence is refused (the first such refusal).
pub open spec fn profile_fault(
    profile_as_of: u64,
    evidence: Seq<ResponsePreferenceEvidence>,
    as_of: u64,
    events: Seq<ExperienceEvent>,
    n: int,
) -> Option<ContextBuilderError>
    decreases n,
{
    if n <= 0 || n > evidence.len() {
        if profile_as_of > as_of {
            Some(
                ContextBuilderError::FutureResponseProfile {
                    profile_revision: profile_as_of,
                    request_revision: as_of,
                },
            )
        } else {
            None
        }
    } else {
        match profile_fault(profile_as_of, evidence, as_of, events, n - 1) {
            Some(e) => Some(e),
            None => match spec_validated(events, seq![evidence[n - 1].source_event_id], as_of) {
                Err(e) => Some(e),
                Ok(_) => None,
            },
        }
    }
}

/// Checks that the response profile may enter a snapshot as of `as_of`.
pub fn validate_profile(profile: &ResponseProfile, as_of: u64, events: &[ExperienceEvent]) -> (r: Result<
    (),
    ContextBuilderError,
>)
    ensures
        match profile_fault(profile.as_of_revision, profile.evidence@, as_of, events@, profile.evidence@.len() as int) {
            Some(e) => r == Err::<(), ContextBuilderError>(e),
            None => r is Ok,
        },
{
    if profile.as_of_revision > as_of {
        proof {
            lemma_profile_fault_first(profile.as_of_revision, profile.evidence@, as_of, events@, profile.evidence@.len() as int);
        }
        return Err(
            ContextBuilderError::FutureResponseProfile {
                profile_revision: profile.as_of_revision,
                request_revision: as_of,
            },
        );
    }
    let mut i: usize = 0;
    while i < profile.evidence.len()
        invariant
            i <= profile.evidence@.len(),
            profile_fault(profile.as_of_revision, profile.evidence@, as_of, events@, i as int) is None,
        decreases profile.evidence@.len() - i,
    {
        let mut ids: Vec<EventId> = Vec::new();
        ids.push(profile.evidence[i].source_event_id);
        proof {
            assert(ids@ =~= seq![profile.evidence@[i as int].source_event_id]);
        }
        match validated_sources(&ids, as_of, events) {
            Err(e) => {
                proof {
                    lemma_profile_fault_stays(profile.as_of_revision, profile.evidence@, as_of, events@, i + 1, profile.evidence@.len() as int);
                }
                return Err(e);
            },
            Ok(_) => {},
        }
        i = i + 1;
    }
    Ok(())
}

proof fn lemma_profile_fault_stays(
    profile_as_of: u64,
    evidence: Seq<ResponsePreferenceEvidence>,
    as_of: u64,
    events: Seq<ExperienceEvent>,
    n: int,
    m: int,
)
    requires
        0 <= n <= m <= evidence.len(),
        n > 0,
        profile_fault(profile_as_of, evidence, as_of, events, n) is Some,
    ensures
        profile_fault(profile_as_of, evidence, as_of, events, m) == profile_fault(
            profile_as_of,
            evidence,
            as_of,
            events,
            n,
        ),
    decreases m - n,
{
    if m > n {
        lemma_profile_fault_stays(profile_as_of, evidence, as_of, events, n, m - 1);
    }
}

proof fn lemma_profile_fault_first(
    profile_as_of: u64,
    evidence: Seq<ResponsePreferenceEvidence>,
    as_of: u64,
    events: Seq<ExperienceEvent>,
    m: int,
)
    requires
        0 <= m <= evidence.len(),
        profile_as_of > as_of,
    ensures
        profile_fault(profile_as_of, evidence, as_of, events, m) == Some(
            ContextBuilderError::FutureResponseProfile {
                profile_revision: profile_as_of,
                request_revision: as_of,
            },
        ),
    decreases m,
{
    if m > 0 {
        lemma_profile_fault_first(profile_as_of, evidence, as_of, events, m - 1);
    }
}

} // verus!
