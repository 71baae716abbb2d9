//! The middle section of a context snapshot: the memories, settled
//! Positions and artifacts that bear on a request, each with its checked
//! sources, ranked by authority, scope, revision and relevance.
use vstd::prelude::*;

use crate::context::{first_hekate, hekate_principal};
use crate::context_builder::{
    last_of, spec_subject_sources, spec_validated, subject_sources, validated_sources,
    ContextBuildRequest, ContextBuilderError, ContextItemKind,
};
use crate::embedding::{position_text, spec_position_text};
use crate::format::{uuid_hyphenated, uuid_text};
use crate::ids::{parse_uuid, parsed_uuid};
use crate::model::{
    contains_id, ActiveMemory, ActiveMemoryStatus, Artifact, EntityKind, EntityRef, EventId,
    MemoryKind, Position, PositionStatus, PrincipalId,
};
use crate::state::{CurrentState, ExperienceEvent};
use crate::table::{get, lookup};
use crate::text::{chars_of, contains_text, has_substring};

verus! {

/// An item of the middle section. The text of a memory is its content and
/// that of a Position its embedded text; an artifact's text is the
/// artifact as JSON, which the caller renders.
pub struct MiddleItem {
    pub kind: ContextItemKind,
    pub entity: EntityRef,
    pub text: Option<String>,
    pub source_event_ids: Vec<EventId>,
    pub authority: u8,
    pub scope: u8,
    pub revision: u64,
    pub relevance: u8,
}

/// A middle item as values.
pub struct MiddleView {
    pub kind: ContextItemKind,
    pub entity: EntityRef,
    pub text: Option<Seq<char>>,
    pub sources: Seq<EventId>,
    pub authority: u8,
    pub scope: u8,
    pub revision: u64,
    pub relevance: u8,
}

pub open spec fn middle_view(m: MiddleItem) -> MiddleView {
    MiddleView {
        kind: m.kind,
        entity: m.entity,
        text: match m.text {
            Some(t) => Some(t@),
            None => None,
        },
        sources: m.source_event_ids@,
        authority: m.authority,
        scope: m.scope,
        revision: m.revision,
        relevance: m.relevance,
    }
}

pub open spec fn middle_views(v: Seq<MiddleItem>) -> Seq<MiddleView> {
    Seq::new(v.len(), |i: int| middle_view(v[i]))
}

/// A candidate before its sources are checked: the raw source events, and
/// its revision when it has its own (a Position's version).
pub struct RawView {
    pub kind: ContextItemKind,
    pub entity: EntityRef,
    pub text: Option<Seq<char>>,
    pub ids: Seq<EventId>,
    pub authority: u8,
    pub scope: u8,
    pub own_revision: Option<u64>,
    pub relevance: u8,
}

/// The identifier and its value, if any, as a list.
pub open spec fn opt_list(x: Option<u128>) -> Seq<u128> {
    match x {
        Some(v) => seq![v],
        None => Seq::empty(),
    }
}

/// The identifiers the request focuses on: its relationship, task and run;
/// the requested task's goal; and the requested run's task.
pub open spec fn focus_ids(state: &CurrentState, request: ContextBuildRequest) -> Seq<u128> {
    let base = opt_list(request.relationship_id) + opt_list(request.task_id) + opt_list(
        request.run_id,
    );
    let task_part = match request.task_id {
        Some(t) => match lookup(state.tasks@, t) {
            Some(task) => seq![task.id] + opt_list(task.goal_id),
            None => Seq::empty(),
        },
        None => Seq::empty(),
    };
    let run_part = match request.run_id {
        Some(r) => match lookup(state.runs@, r) {
            Some(run) => seq![run.id] + opt_list(run.task_id),
            None => Seq::empty(),
        },
        None => Seq::empty(),
    };
    base + task_part + run_part
}

/// 1 when the text names one of the focus identifiers, else 0.
pub open spec fn relevance_of(text: Seq<char>, focus: Seq<u128>) -> u8 {
    if exists|i: int| 0 <= i < focus.len() && contains_text(text, uuid_hyphenated(#[trigger] focus[i])) {
        1
    } else {
        0
    }
}

/// The event is about a focus entity, or correlated with one.
pub open spec fn matches_focus(e: ExperienceEvent, focus: Seq<u128>) -> bool {
    ||| e.subject matches Some(s) && focus.contains(s.id)
    ||| e.correlation_id matches Some(c) && parsed_uuid(c@) matches Some(id) && focus.contains(id)
}

/// How much a kind of memory weighs.
pub open spec fn memory_authority(kind: MemoryKind) -> u8 {
    match kind {
        MemoryKind::ExplicitPreference => 5,
        MemoryKind::VerifiedFact => 4,
        MemoryKind::Lesson => 3,
        MemoryKind::Episode => 2,
        MemoryKind::InferredPreference => 1,
    }
}

/// The principal is the requester or HEKATE.
pub open spec fn relevant_principal(state: &CurrentState, request: ContextBuildRequest, id: PrincipalId) -> bool {
    id == request.principal_id || first_hekate(state.principals@, state.principals@.len() as int)
        == Some(id)
}

/// An active memory about nobody, the requester or HEKATE, with sources.
pub open spec fn middle_memory(state: &CurrentState, request: ContextBuildRequest, m: ActiveMemory) -> bool {
    &&& m.status == ActiveMemoryStatus::Active
    &&& match m.subject_principal_id {
        Some(id) => relevant_principal(state, request, id),
        None => true,
    }
    &&& m.source_event_ids@.len() > 0
}

pub open spec fn memory_raw(request: ContextBuildRequest, m: ActiveMemory) -> RawView {
    RawView {
        kind: ContextItemKind::Memory,
        entity: EntityRef { kind: EntityKind::Memory, id: m.id },
        text: Some(m.content@),
        ids: m.source_event_ids@,
        authority: memory_authority(m.kind),
        scope: if m.subject_principal_id == Some(request.principal_id) {
            1
        } else {
            0
        },
        own_revision: None,
        relevance: 0,
    }
}

pub open spec fn memory_raws(state: &CurrentState, request: ContextBuildRequest, n: int) -> Seq<RawView>
    decreases n,
{
    if n <= 0 || n > state.active_memories@.len() {
        Seq::empty()
    } else {
        let r = memory_raws(state, request, n - 1);
        let m = state.active_memories@[n - 1];
        if middle_memory(state, request, m) {
            r.push(memory_raw(request, m))
        } else {
            r
        }
    }
}

/// A settled (no longer active) Position of the requester or HEKATE.
pub open spec fn middle_position(state: &CurrentState, request: ContextBuildRequest, p: Position) -> bool {
    relevant_principal(state, request, p.principal_id) && p.status != PositionStatus::Active
}

pub open spec fn position_raw(
    state: &CurrentState,
    request: ContextBuildRequest,
    events: Seq<ExperienceEvent>,
    p: Position,
) -> RawView {
    RawView {
        kind: ContextItemKind::Position,
        entity: EntityRef { kind: EntityKind::Position, id: p.id },
        text: Some(spec_position_text(p)),
        ids: p.evidence_refs@ + spec_subject_sources(
            events,
            EntityKind::Position,
            p.id,
            request.as_of_revision,
            events.len() as int,
        ),
        authority: 3,
        scope: 1,
        own_revision: Some(p.version as u64),
        relevance: relevance_of(p.subject@, focus_ids(state, request)),
    }
}

pub open spec fn position_raws(
    state: &CurrentState,
    request: ContextBuildRequest,
    events: Seq<ExperienceEvent>,
    n: int,
) -> Seq<RawView>
    decreases n,
{
    if n <= 0 || n > state.positions@.len() {
        Seq::empty()
    } else {
        let r = position_raws(state, request, events, n - 1);
        let p = state.positions@[n - 1];
        if middle_position(state, request, p) {
            r.push(position_raw(state, request, events, p))
        } else {
            r
        }
    }
}

/// An artifact whose provenance event is in the ledger and bears on the
/// focus.
pub open spec fn middle_artifact(
    state: &CurrentState,
    request: ContextBuildRequest,
    events: Seq<ExperienceEvent>,
    a: Artifact,
) -> bool {
    last_of(events, a.provenance_event_id) matches Some(k) && matches_focus(
        events[k],
        focus_ids(state, request),
    )
}

pub open spec fn artifact_raw(a: Artifact) -> RawView {
    RawView {
        kind: ContextItemKind::Artifact,
        entity: EntityRef { kind: EntityKind::Artifact, id: a.id },
        text: None,
        ids: seq![a.provenance_event_id],
        authority: 2,
        scope: 1,
        own_revision: None,
        relevance: 2,
    }
}

pub open spec fn artifact_raws(
    state: &CurrentState,
    request: ContextBuildRequest,
    events: Seq<ExperienceEvent>,
    n: int,
) -> Seq<RawView>
    decreases n,
{
    if n <= 0 || n > state.artifacts@.len() {
        Seq::empty()
    } else {
        let r = artifact_raws(state, request, events, n - 1);
        let a = state.artifacts@[n - 1];
        if middle_artifact(state, request, events, a) {
            r.push(artifact_raw(a))
        } else {
            r
        }
    }
}

/// Every candidate of the middle section, in table order: memories, then
/// settled Positions, then artifacts.
pub open spec fn middle_raws(state: &CurrentState, request: ContextBuildRequest, events: Seq<ExperienceEvent>) -> Seq<RawView> {
    memory_raws(state, request, state.active_memories@.len() as int) + position_raws(
        state,
        request,
        events,
        state.positions@.len() as int,
    ) + artifact_raws(state, request, events, state.artifacts@.len() as int)
}

/// The latest ledger sequence among the first `n` sources, 0 if none.
pub open spec fn latest_sequence(events: Seq<ExperienceEvent>, ids: Seq<EventId>, n: int) -> u64
    decreases n,
{
    if n <= 0 || n > ids.len() {
        0
    } else {
        let rest = latest_sequence(events, ids, n - 1);
        match last_of(events, ids[n - 1]) {
            Some(k) => if k + 1 > rest {
                (k + 1) as u64
            } else {
                rest
            },
            None => rest,
        }
    }
}

/// The middle item a candidate becomes with its checked sources.
pub open spec fn item_of(raw: RawView, sources: Seq<EventId>, events: Seq<ExperienceEvent>) -> MiddleView {
    MiddleView {
        kind: raw.kind,
        entity: raw.entity,
        text: raw.text,
        sources,
        authority: raw.authority,
        scope: raw.scope,
        revision: match raw.own_revision {
            Some(v) => v,
            None => latest_sequence(events, sources, sources.len() as int),
        },
        relevance: raw.relevance,
    }
}

/// The first `n` candidates with their sources checked, in order: the
/// first refusal, else the items (a Position left with no source is
/// dropped).
pub open spec fn checked_items(
    raws: Seq<RawView>,
    events: Seq<ExperienceEvent>,
    as_of: u64,
    n: int,
) -> Result<Seq<MiddleView>, ContextBuilderError>
    decreases n,
{
    if n <= 0 || n > raws.len() {
        Ok(Seq::empty())
    } else {
        match checked_items(raws, events, as_of, n - 1) {
            Err(e) => Err(e),
            Ok(done) => match spec_validated(events, raws[n - 1].ids, as_of) {
                Err(e) => Err(e),
                Ok(sources) => if raws[n - 1].kind == ContextItemKind::Position && sources.len()
                    == 0 {
                    Ok(done)
                } else {
                    Ok(done.push(item_of(raws[n - 1], sources, events)))
                },
            },
        }
    }
}

/// `a` ranks strictly before `b`: more authority, then wider scope, then a
/// later revision, then more relevance, then the smaller identifier.
pub open spec fn ranks_before(a: MiddleView, b: MiddleView) -> bool {
    ||| a.authority > b.authority
    ||| a.authority == b.authority && a.scope > b.scope
    ||| a.authority == b.authority && a.scope == b.scope && a.revision > b.revision
    ||| a.authority == b.authority && a.scope == b.scope && a.revision == b.revision
        && a.relevance > b.relevance
    ||| a.authority == b.authority && a.scope == b.scope && a.revision == b.revision
        && a.relevance == b.relevance && a.entity.id < b.entity.id
}

/// `ranked` with `x` inserted after every item it does not rank before.
pub open spec fn insert_ranked(ranked: Seq<MiddleView>, x: MiddleView) -> Seq<MiddleView>
    decreases ranked.len(),
{
    if ranked.len() == 0 {
        seq![x]
    } else if ranks_before(x, ranked.last()) {
        insert_ranked(ranked.drop_last(), x).push(ranked.last())
    } else {
        ranked.push(x)
    }
}

/// The items in rank order; items of equal rank keep their order.
pub open spec fn ranked(items: Seq<MiddleView>) -> Seq<MiddleView>
    decreases items.len(),
{
    if items.len() == 0 {
        Seq::empty()
    } else {
        insert_ranked(ranked(items.drop_last()), items.last())
    }
}

/// The middle section for a request: its candidates with their sources
/// checked as of the request's revision, in rank order; or the first
/// refusal of a source.
pub open spec fn spec_middle(state: &CurrentState, request: ContextBuildRequest, events: Seq<ExperienceEvent>) -> Result<Seq<MiddleView>, ContextBuilderError> {
    let raws = middle_raws(state, request, events);
    match checked_items(raws, events, request.as_of_revision, raws.len() as int) {
        Err(e) => Err(e),
        Ok(items) => Ok(ranked(items)),
    }
}


fn push_opt(out: &mut Vec<u128>, x: Option<u128>)
    ensures
        final(out)@ == old(out)@ + opt_list(x),
{
    match x {
        Some(v) => {
            out.push(v);
        },
        None => {},
    }
    proof {
        match x {
            Some(v) => {
                assert(final(out)@ =~= old(out)@ + seq![v]);
            },
            None => {
                assert(final(out)@ =~= old(out)@ + Seq::<u128>::empty());
            },
        }
    }
}

/// The identifiers a request focuses on.
pub fn focus_list(state: &CurrentState, request: &ContextBuildRequest) -> (r: Vec<u128>)
    requires
        state.wf(),
    ensures
        r@ == focus_ids(state, *request),
{
    let mut out: Vec<u128> = Vec::new();
    push_opt(&mut out, request.relationship_id);
    push_opt(&mut out, request.task_id);
    push_opt(&mut out, request.run_id);
    let ghost base = out@;
    match request.task_id {
        Some(t) => match get(&state.tasks, t) {
            Some(task) => {
                push_opt(&mut out, Some(task.id));
                push_opt(&mut out, task.goal_id);
            },
            None => {},
        },
        None => {},
    }
    let ghost with_task = out@;
    match request.run_id {
        Some(r) => match get(&state.runs, r) {
            Some(run) => {
                push_opt(&mut out, Some(run.id));
                push_opt(&mut out, run.task_id);
            },
            None => {},
        },
        None => {},
    }
    proof {
        let task_part = match request.task_id {
            Some(t) => match lookup(state.tasks@, t) {
                Some(task) => seq![task.id] + opt_list(task.goal_id),
                None => Seq::<u128>::empty(),
            },
            None => Seq::<u128>::empty(),
        };
        let run_part = match request.run_id {
            Some(r) => match lookup(state.runs@, r) {
                Some(run) => seq![run.id] + opt_list(run.task_id),
                None => Seq::<u128>::empty(),
            },
            None => Seq::<u128>::empty(),
        };
        assert(base =~= opt_list(request.relationship_id) + opt_list(request.task_id) + opt_list(request.run_id));
        assert(with_task =~= base + task_part);
        assert(out@ =~= base + task_part + run_part);
    }
    out
}

/// 1 when the text names one of the focus identifiers, else 0.
pub fn relevance(text: &str, focus: &Vec<u128>) -> (r: u8)
    ensures
        r == relevance_of(text@, focus@),
{
    let chars = chars_of(text);
    let mut i: usize = 0;
    while i < focus.len()
        invariant
            i <= focus@.len(),
            chars@ == text@,
            forall|j: int| 0 <= j < i ==> !contains_text(text@, uuid_hyphenated(#[trigger] focus@[j])),
        decreases focus@.len() - i,
    {
        let id = uuid_text(focus[i]);
        if has_substring(&chars, &chars_of(id.as_str())) {
            return 1;
        }
        i = i + 1;
    }
    0
}

/// Whether the event is about, or correlated with, a focus entity.
pub fn event_matches_focus(e: &ExperienceEvent, focus: &Vec<u128>) -> (r: bool)
    ensures
        r == matches_focus(*e, focus@),
{
    let by_subject = match &e.subject {
        Some(s) => contains_id(focus, s.id),
        None => false,
    };
    if by_subject {
        return true;
    }
    match &e.correlation_id {
        Some(c) => match parse_uuid(c.as_str()) {
            Some(id) => contains_id(focus, id),
            None => false,
        },
        None => false,
    }
}

fn authority_of(kind: MemoryKind) -> (r: u8)
    ensures
        r == memory_authority(kind),
{
    match kind {
        MemoryKind::ExplicitPreference => 5,
        MemoryKind::VerifiedFact => 4,
        MemoryKind::Lesson => 3,
        MemoryKind::Episode => 2,
        MemoryKind::InferredPreference => 1,
    }
}

/// A candidate before its sources are checked.
pub struct RawMiddle {
    pub kind: ContextItemKind,
    pub entity: EntityRef,
    pub text: Option<String>,
    pub ids: Vec<EventId>,
    pub authority: u8,
    pub scope: u8,
    pub own_revision: Option<u64>,
    pub relevance: u8,
}

pub open spec fn raw_view(r: RawMiddle) -> RawView {
    RawView {
        kind: r.kind,
        entity: r.entity,
        text: match r.text {
            Some(t) => Some(t@),
            None => None,
        },
        ids: r.ids@,
        authority: r.authority,
        scope: r.scope,
        own_revision: r.own_revision,
        relevance: r.relevance,
    }
}

pub open spec fn raw_views(v: Seq<RawMiddle>) -> Seq<RawView> {
    Seq::new(v.len(), |i: int| raw_view(v[i]))
}

fn push_raw(out: &mut Vec<RawMiddle>, r: RawMiddle)
    ensures
        raw_views(final(out)@) == raw_views(old(out)@).push(raw_view(r)),
{
    let ghost v = raw_view(r);
    out.push(r);
    proof {
        assert(raw_views(final(out)@) =~= raw_views(old(out)@).push(v));
    }
}

fn is_relevant_principal(hekate: Option<PrincipalId>, request: &ContextBuildRequest, id: PrincipalId) -> (r: bool)
    ensures
        r == (id == request.principal_id || hekate == Some(id)),
{
    id == request.principal_id || match hekate {
        Some(h) => h == id,
        None => false,
    }
}

fn collect_memories(state: &CurrentState, request: &ContextBuildRequest, out: &mut Vec<RawMiddle>)
    requires
        state.wf(),
    ensures
        raw_views(final(out)@) == raw_views(old(out)@) + memory_raws(
            state,
            *request,
            state.active_memories@.len() as int,
        ),
{
    let hekate = hekate_principal(state);
    let ghost start = raw_views(out@);
    let mut i: usize = 0;
    while i < state.active_memories.len()
        invariant
            i <= state.active_memories@.len(),
            hekate == first_hekate(state.principals@, state.principals@.len() as int),
            raw_views(out@) == start + memory_raws(state, *request, i as int),
        decreases state.active_memories@.len() - i,
    {
        let m = &state.active_memories[i];
        let subject_ok = match m.subject_principal_id {
            Some(id) => is_relevant_principal(hekate, request, id),
            None => true,
        };
        if m.status == ActiveMemoryStatus::Active && subject_ok && m.source_event_ids.len() > 0 {
            let scope: u8 = if m.subject_principal_id == Some(request.principal_id) {
                1
            } else {
                0
            };
            push_raw(
                out,
                RawMiddle {
                    kind: ContextItemKind::Memory,
                    entity: EntityRef { kind: EntityKind::Memory, id: m.id },
                    text: Some(m.content.clone()),
                    ids: crate::model::clone_ids(&m.source_event_ids),
                    authority: authority_of(m.kind),
                    scope,
                    own_revision: None,
                    relevance: 0,
                },
            );
            proof {
                assert(start + memory_raws(state, *request, i + 1) =~= start + memory_raws(
                    state,
                    *request,
                    i as int,
                ).push(memory_raw(*request, *m)));
            }
        } else {
            proof {
                assert(memory_raws(state, *request, i + 1) == memory_raws(state, *request, i as int));
            }
        }
        i = i + 1;
    }
}

fn collect_positions(
    state: &CurrentState,
    request: &ContextBuildRequest,
    events: &[ExperienceEvent],
    focus: &Vec<u128>,
    out: &mut Vec<RawMiddle>,
)
    requires
        state.wf(),
        focus@ == focus_ids(state, *request),
    ensures
        raw_views(final(out)@) == raw_views(old(out)@) + position_raws(
            state,
            *request,
            events@,
            state.positions@.len() as int,
        ),
{
    let hekate = hekate_principal(state);
    let ghost start = raw_views(out@);
    let mut i: usize = 0;
    while i < state.positions.len()
        invariant
            i <= state.positions@.len(),
            focus@ == focus_ids(state, *request),
            hekate == first_hekate(state.principals@, state.principals@.len() as int),
            raw_views(out@) == start + position_raws(state, *request, events@, i as int),
        decreases state.positions@.len() - i,
    {
        let p = &state.positions[i];
        if is_relevant_principal(hekate, request, p.principal_id) && p.status != PositionStatus::Active {
            let mut ids = crate::model::clone_ids(&p.evidence_refs);
            let more = subject_sources(events, EntityKind::Position, p.id, request.as_of_revision);
            let ghost first = ids@;
            let mut k: usize = 0;
            while k < more.len()
                invariant
                    k <= more@.len(),
                    ids@ == first + more@.subrange(0, k as int),
                decreases more@.len() - k,
            {
                ids.push(more[k]);
                proof {
                    assert(first + more@.subrange(0, k + 1) =~= (first + more@.subrange(0, k as int)).push(more@[k as int]));
                }
                k = k + 1;
            }
            proof {
                assert(more@.subrange(0, more@.len() as int) =~= more@);
            }
            let rel = relevance(p.subject.as_str(), focus);
            push_raw(
                out,
                RawMiddle {
                    kind: ContextItemKind::Position,
                    entity: EntityRef { kind: EntityKind::Position, id: p.id },
                    text: Some(position_text(p)),
                    ids,
                    authority: 3,
                    scope: 1,
                    own_revision: Some(p.version as u64),
                    relevance: rel,
                },
            );
            proof {
                assert(start + position_raws(state, *request, events@, i + 1) =~= start
                    + position_raws(state, *request, events@, i as int).push(
                    position_raw(state, *request, events@, *p),
                ));
            }
        } else {
            proof {
                assert(position_raws(state, *request, events@, i + 1) == position_raws(
                    state,
                    *request,
                    events@,
                    i as int,
                ));
            }
        }
        i = i + 1;
    }
}

fn collect_artifacts(
    state: &CurrentState,
    request: &ContextBuildRequest,
    events: &[ExperienceEvent],
    focus: &Vec<u128>,
    out: &mut Vec<RawMiddle>,
)
    requires
        state.wf(),
        focus@ == focus_ids(state, *request),
    ensures
        raw_views(final(out)@) == raw_views(old(out)@) + artifact_raws(
            state,
            *request,
            events@,
            state.artifacts@.len() as int,
        ),
{
    let ghost start = raw_views(out@);
    let mut i: usize = 0;
    while i < state.artifacts.len()
        invariant
            i <= state.artifacts@.len(),
            focus@ == focus_ids(state, *request),
            raw_views(out@) == start + artifact_raws(state, *request, events@, i as int),
        decreases state.artifacts@.len() - i,
    {
        let a = &state.artifacts[i];
        let matched = match crate::context_builder::find_last(events, a.provenance_event_id) {
            Some(k) => event_matches_focus(&events[k], focus),
            None => false,
        };
        if matched {
            let mut ids: Vec<EventId> = Vec::new();
            ids.push(a.provenance_event_id);
            proof {
                assert(ids@ =~= seq![a.provenance_event_id]);
            }
            push_raw(
                out,
                RawMiddle {
                    kind: ContextItemKind::Artifact,
                    entity: EntityRef { kind: EntityKind::Artifact, id: a.id },
                    text: None,
                    ids,
                    authority: 2,
                    scope: 1,
                    own_revision: None,
                    relevance: 2,
                },
            );
            proof {
                assert(start + artifact_raws(state, *request, events@, i + 1) =~= start
                    + artifact_raws(state, *request, events@, i as int).push(artifact_raw(*a)));
            }
        } else {
            proof {
                assert(artifact_raws(state, *request, events@, i + 1) == artifact_raws(
                    state,
                    *request,
                    events@,
                    i as int,
                ));
            }
        }
        i = i + 1;
    }
}

/// Every candidate of the middle section for a request, in table order.
pub fn middle_candidates(state: &CurrentState, request: &ContextBuildRequest, events: &[ExperienceEvent]) -> (r: Vec<RawMiddle>)
    requires
        state.wf(),
    ensures
        raw_views(r@) == middle_raws(state, *request, events@),
{
    let focus = focus_list(state, request);
    let mut out: Vec<RawMiddle> = Vec::new();
    proof {
        assert(raw_views(out@) =~= Seq::<RawView>::empty());
    }
    collect_memories(state, request, &mut out);
    collect_positions(state, request, events, &focus, &mut out);
    collect_artifacts(state, request, events, &focus, &mut out);
    proof {
        assert(raw_views(out@) =~= middle_raws(state, *request, events@));
    }
    out
}


fn latest_sequence_of(events: &[ExperienceEvent], ids: &Vec<EventId>) -> (r: u64)
    ensures
        r == latest_sequence(events@, ids@, ids@.len() as int),
{
    let mut best: u64 = 0;
    let mut i: usize = 0;
    while i < ids.len()
        invariant
            i <= ids@.len(),
            best == latest_sequence(events@, ids@, i as int),
        decreases ids@.len() - i,
    {
        match crate::context_builder::find_last(events, ids[i]) {
            Some(k) => {
                let count = events.len();
                assert(k < count);
                let sequence = (k + 1) as u64;
                if sequence > best {
                    best = sequence;
                }
            },
            None => {},
        }
        i = i + 1;
    }
    best
}

proof fn lemma_checked_refusal_stays(
    raws: Seq<RawView>,
    events: Seq<ExperienceEvent>,
    as_of: u64,
    n: int,
    m: int,
)
    requires
        0 <= n <= m <= raws.len(),
        checked_items(raws, events, as_of, n) is Err,
    ensures
        checked_items(raws, events, as_of, m) == checked_items(raws, events, as_of, n),
    decreases m - n,
{
    if m > n {
        lemma_checked_refusal_stays(raws, events, as_of, n, m - 1);
    }
}

fn push_item(out: &mut Vec<MiddleItem>, m: MiddleItem)
    ensures
        middle_views(final(out)@) == middle_views(old(out)@).push(middle_view(m)),
{
    let ghost v = middle_view(m);
    out.push(m);
    proof {
        assert(middle_views(final(out)@) =~= middle_views(old(out)@).push(v));
    }
}

/// The candidates with their sources checked as of `as_of`.
pub fn check_candidates(raws: Vec<RawMiddle>, as_of: u64, events: &[ExperienceEvent]) -> (r: Result<
    Vec<MiddleItem>,
    ContextBuilderError,
>)
    ensures
        match r {
            Ok(items) => checked_items(raw_views(raws@), events@, as_of, raws@.len() as int)
                == Ok::<Seq<MiddleView>, ContextBuilderError>(middle_views(items@)),
            Err(e) => checked_items(raw_views(raws@), events@, as_of, raws@.len() as int)
                == Err::<Seq<MiddleView>, ContextBuilderError>(e),
        },
{
    let ghost all = raw_views(raws@);
    let total = raws.len();
    let mut rest = raws;
    let mut out: Vec<MiddleItem> = Vec::new();
    let mut i: usize = 0;
    proof {
        assert(middle_views(out@) =~= Seq::<MiddleView>::empty());
    }
    while i < total
        invariant
            i <= total,
            all.len() == total,
            all == raw_views(raws@),
            total == raws@.len(),
            rest@.len() == total - i,
            forall|j: int| 0 <= j < rest@.len() ==> raw_view(#[trigger] rest@[j]) == all[i + j],
            checked_items(all, events@, as_of, i as int) == Ok::<Seq<MiddleView>, ContextBuilderError>(
                middle_views(out@),
            ),
        decreases total - i,
    {
        let raw = rest.remove(0);
        proof {
            assert(raw_view(raw) == all[i as int]);
        }
        let sources = match validated_sources(&raw.ids, as_of, events) {
            Ok(v) => v,
            Err(e) => {
                proof {
                    assert(all[i as int].ids == raw.ids@);
                    assert(checked_items(all, events@, as_of, i + 1) == Err::<
                        Seq<MiddleView>,
                        ContextBuilderError,
                    >(e));
                    lemma_checked_refusal_stays(all, events@, as_of, i + 1, total as int);
                }
                return Err(e);
            },
        };
        if raw.kind == ContextItemKind::Position && sources.len() == 0 {
            i = i + 1;
            continue;
        }
        let revision = match raw.own_revision {
            Some(v) => v,
            None => latest_sequence_of(events, &sources),
        };
        push_item(
            &mut out,
            MiddleItem {
                kind: raw.kind,
                entity: raw.entity,
                text: raw.text,
                source_event_ids: sources,
                authority: raw.authority,
                scope: raw.scope,
                revision,
                relevance: raw.relevance,
            },
        );
        i = i + 1;
    }
    Ok(out)
}

fn before(a: &MiddleItem, b: &MiddleItem) -> (r: bool)
    ensures
        r == ranks_before(middle_view(*a), middle_view(*b)),
{
    if a.authority != b.authority {
        return a.authority > b.authority;
    }
    if a.scope != b.scope {
        return a.scope > b.scope;
    }
    if a.revision != b.revision {
        return a.revision > b.revision;
    }
    if a.relevance != b.relevance {
        return a.relevance > b.relevance;
    }
    a.entity.id < b.entity.id
}

fn insert_item(sorted: Vec<MiddleItem>, x: MiddleItem) -> (r: Vec<MiddleItem>)
    ensures
        middle_views(r@) == insert_ranked(middle_views(sorted@), middle_view(x)),
    decreases sorted@.len(),
{
    let mut sorted = sorted;
    let n = sorted.len();
    if n == 0 {
        let mut one: Vec<MiddleItem> = Vec::new();
        push_item(&mut one, x);
        proof {
            assert(middle_views(one@) =~= seq![middle_view(x)]);
        }
        return one;
    }
    let ghost before_views = middle_views(sorted@);
    if before(&x, &sorted[n - 1]) {
        let last = sorted.pop().unwrap();
        proof {
            assert(middle_views(sorted@) =~= before_views.drop_last());
            assert(middle_view(last) == before_views.last());
        }
        let mut r = insert_item(sorted, x);
        push_item(&mut r, last);
        r
    } else {
        push_item(&mut sorted, x);
        sorted
    }
}

/// The items in rank order; items of equal rank keep their order.
pub fn rank_items(items: Vec<MiddleItem>) -> (r: Vec<MiddleItem>)
    ensures
        middle_views(r@) == ranked(middle_views(items@)),
{
    let ghost all = middle_views(items@);
    let total = items.len();
    let mut rest = items;
    let mut out: Vec<MiddleItem> = Vec::new();
    let mut i: usize = 0;
    proof {
        assert(middle_views(out@) =~= Seq::<MiddleView>::empty());
        assert(all.subrange(0, 0) =~= Seq::<MiddleView>::empty());
    }
    while i < total
        invariant
            i <= total,
            all.len() == total,
            rest@.len() == total - i,
            forall|j: int| 0 <= j < rest@.len() ==> middle_view(#[trigger] rest@[j]) == all[i + j],
            middle_views(out@) == ranked(all.subrange(0, i as int)),
        decreases total - i,
    {
        let x = rest.remove(0);
        proof {
            assert(middle_view(x) == all[i as int]);
            assert(all.subrange(0, i + 1).drop_last() =~= all.subrange(0, i as int));
        }
        out = insert_item(out, x);
        i = i + 1;
    }
    proof {
        assert(all.subrange(0, total as int) =~= all);
    }
    out
}

/// The middle section of a snapshot for a request: the memories about
/// nobody, the requester or HEKATE; the requester's and HEKATE's settled
/// Positions; and the artifacts whose provenance bears on the focus, each
/// with its sources checked as of the request's revision, in rank order.
pub fn build_middle(state: &CurrentState, request: &ContextBuildRequest, events: &[ExperienceEvent]) -> (r: Result<
    Vec<MiddleItem>,
    ContextBuilderError,
>)
    requires
        state.wf(),
    ensures
        match r {
            Ok(items) => spec_middle(state, *request, events@) == Ok::<
                Seq<MiddleView>,
                ContextBuilderError,
            >(middle_views(items@)),
            Err(e) => spec_middle(state, *request, events@) == Err::<
                Seq<MiddleView>,
                ContextBuilderError,
            >(e),
        },
{
    let raws = middle_candidates(state, request, events);
    let items = check_candidates(raws, request.as_of_revision, events)?;
    Ok(rank_items(items))
}


/// No item ranks before one listed ahead of it.
pub open spec fn in_rank_order(items: Seq<MiddleView>) -> bool {
    forall|i: int, j: int| 0 <= i < j < items.len() ==> !ranks_before(items[j], items[i])
}

proof fn lemma_rank_transitive(a: MiddleView, b: MiddleView, c: MiddleView)
    ensures
        !ranks_before(b, a) && !ranks_before(c, b) ==> !ranks_before(c, a),
        ranks_before(a, b) && !ranks_before(c, b) ==> !ranks_before(c, a),
{
}

proof fn lemma_insert_ranked(s: Seq<MiddleView>, x: MiddleView)
    requires
        in_rank_order(s),
    ensures
        in_rank_order(insert_ranked(s, x)),
        insert_ranked(s, x).len() == s.len() + 1,
        forall|k: int|
            0 <= k < insert_ranked(s, x).len() ==> (#[trigger] insert_ranked(s, x)[k] == x
                || exists|m: int| 0 <= m < s.len() && insert_ranked(s, x)[k] == s[m]),
    decreases s.len(),
{
    if s.len() == 0 {
        assert(insert_ranked(s, x) =~= seq![x]);
    } else if ranks_before(x, s.last()) {
        let rest = s.drop_last();
        lemma_insert_ranked(rest, x);
        let inner = insert_ranked(rest, x);
        let r = inner.push(s.last());
        assert(r == insert_ranked(s, x));
        assert forall|k: int| 0 <= k < r.len() implies (#[trigger] r[k] == x || exists|m: int|
            0 <= m < s.len() && r[k] == s[m]) by {
            if k < inner.len() {
                if inner[k] != x {
                    let m = choose|m: int| 0 <= m < rest.len() && inner[k] == rest[m];
                    assert(r[k] == s[m]);
                }
            } else {
                assert(r[k] == s[s.len() - 1]);
            }
        }
        assert forall|i: int, j: int| 0 <= i < j < r.len() implies !ranks_before(r[j], r[i]) by {
            if j == inner.len() {
                if inner[i] == x {
                    lemma_rank_transitive(x, s.last(), s.last());
                } else {
                    let m = choose|m: int| 0 <= m < rest.len() && inner[i] == rest[m];
                    assert(!ranks_before(s[s.len() - 1], s[m]));
                }
            }
        }
    } else {
        let r = s.push(x);
        assert forall|k: int| 0 <= k < r.len() implies (#[trigger] r[k] == x || exists|m: int|
            0 <= m < s.len() && r[k] == s[m]) by {
            if k < s.len() {
                assert(r[k] == s[k]);
            }
        }
        assert forall|i: int, j: int| 0 <= i < j < r.len() implies !ranks_before(r[j], r[i]) by {
            if j == s.len() {
                if i < s.len() - 1 {
                    assert(!ranks_before(s[s.len() - 1], s[i]));
                    lemma_rank_transitive(s[i], s[s.len() - 1], x);
                }
            } else {
                assert(r[i] == s[i] && r[j] == s[j]);
            }
        }
    }
}

/// The middle section is in rank order: no item ranks before one listed
/// ahead of it, whatever the items were.
pub proof fn lemma_ranked_in_order(items: Seq<MiddleView>)
    ensures
        in_rank_order(ranked(items)),
        ranked(items).len() == items.len(),
    decreases items.len(),
{
    if items.len() > 0 {
        lemma_ranked_in_order(items.drop_last());
        lemma_insert_ranked(ranked(items.drop_last()), items.last());
    }
}

} // verus!
