//! The recent section of a context snapshot: the events of the recent
//! window, the latest change of each entity, and the events about the
//! request's focus, in ledger order with their sources checked.
use vstd::prelude::*;

use crate::context_builder::{
    last_of, spec_validated, validated_sources, ContextBuildRequest, ContextBuilderError,
    ContextItemKind,
};
use crate::format::{uuid_hyphenated, uuid_text};
use crate::model::{contains_id, EntityKind, EntityRef, EventId};
use crate::state::{EventKind, ExperienceEvent, Payload};
use crate::integration::{intact, verify_integrity};
use crate::text::same_text;

verus! {

/// The events the recent window always covers, counting back from the
/// request's revision.
pub const RECENT_EVENT_WINDOW: u64 = 20;

/// The event kinds a snapshot shows as recent.
pub open spec fn recent_kind(k: EventKind) -> bool {
    ||| k == EventKind::ObservationRecorded
    ||| k == EventKind::UserMessageReceived
    ||| k == EventKind::FocusResolved
    ||| k == EventKind::DecisionCreated
    ||| k == EventKind::PositionEstablished
    ||| k == EventKind::PositionMaintained
    ||| k == EventKind::PositionRevised
    ||| k == EventKind::PositionRetracted
    ||| k == EventKind::PositionRecorded
    ||| k == EventKind::ConflictOpened
    ||| k == EventKind::ConflictUpdated
    ||| k == EventKind::ConflictResolved
    ||| k == EventKind::ConflictRecorded
    ||| k == EventKind::RunStarted
    ||| k == EventKind::RunSuspended
    ||| k == EventKind::RunCompleted
    ||| k == EventKind::WorkingStateUpdated
    ||| k == EventKind::ArtifactCreated
    ||| k == EventKind::ResponseProduced
}

/// The event kinds that change a judgment: decisions, Positions and
/// conflicts.
pub open spec fn change_kind(k: EventKind) -> bool {
    ||| k == EventKind::DecisionCreated
    ||| k == EventKind::PositionEstablished
    ||| k == EventKind::PositionMaintained
    ||| k == EventKind::PositionRevised
    ||| k == EventKind::PositionRetracted
    ||| k == EventKind::PositionRecorded
    ||| k == EventKind::ConflictOpened
    ||| k == EventKind::ConflictUpdated
    ||| k == EventKind::ConflictResolved
    ||| k == EventKind::ConflictRecorded
}

/// Two events change the same thing: they have the same subject, or, with
/// no subject, they are the same event.
pub open spec fn same_change_key(a: ExperienceEvent, b: ExperienceEvent) -> bool {
    match (a.subject, b.subject) {
        (Some(x), Some(y)) => x.kind == y.kind && x.id == y.id,
        (None, None) => a.event_id == b.event_id,
        _ => false,
    }
}

/// The event at `k` is the one the ledger keeps under its identifier and
/// is no newer than `as_of`.
pub open spec fn indexed(events: Seq<ExperienceEvent>, k: int, as_of: u64) -> bool {
    &&& 0 <= k < events.len()
    &&& last_of(events, events[k].event_id) == Some(k)
    &&& k + 1 <= as_of
}

/// The event at `k` is the latest change of what it changes, as of `as_of`.
pub open spec fn latest_change(events: Seq<ExperienceEvent>, k: int, as_of: u64) -> bool {
    &&& change_kind(events[k].event_kind)
    &&& forall|j: int|
        k < j < events.len() && indexed(events, j, as_of) && change_kind(events[j].event_kind)
            ==> !same_change_key(#[trigger] events[j], events[k])
}

/// The first sequence of the recent window.
pub open spec fn recent_start(as_of: u64) -> u64 {
    if as_of >= RECENT_EVENT_WINDOW {
        (as_of - (RECENT_EVENT_WINDOW - 1)) as u64
    } else {
        1
    }
}

/// The event is about a focus entity, or correlated with one by its text.
pub open spec fn about_focus(e: ExperienceEvent, focus: Seq<u128>) -> bool {
    ||| e.subject matches Some(s) && focus.contains(s.id)
    ||| e.correlation_id matches Some(c) && exists|i: int|
        0 <= i < focus.len() && c@ == uuid_hyphenated(#[trigger] focus[i])
}

/// The identifiers the request names: relationship, task and run.
pub open spec fn request_focus(request: ContextBuildRequest) -> Seq<u128> {
    crate::context_middle::opt_list(request.relationship_id) + crate::context_middle::opt_list(
        request.task_id,
    ) + crate::context_middle::opt_list(request.run_id)
}

/// The event is the observation the snapshot is built for.
pub open spec fn current_observation(e: ExperienceEvent, request: ContextBuildRequest) -> bool {
    request.current_observation_id matches Some(o) && e.subject matches Some(s) && s.kind
        == EntityKind::Observation && s.id == o
}

/// The event at `k` is shown as recent: a recent kind, in the window, the
/// latest change of what it changes, or about the focus; and not the
/// observation the snapshot is built for.
pub open spec fn shown_recent(events: Seq<ExperienceEvent>, k: int, request: ContextBuildRequest) -> bool {
    let as_of = request.as_of_revision;
    let e = events[k];
    &&& indexed(events, k, as_of)
    &&& recent_kind(e.event_kind)
    &&& (k + 1 >= recent_start(as_of) || latest_change(events, k, as_of) || about_focus(
        e,
        request_focus(request),
    ))
    &&& !current_observation(e, request)
}

/// A recent item: its kind, entity, the observation's text when the event
/// carries a readable observation (otherwise the caller renders the
/// event), and its checked sources.
pub struct RecentItem {
    pub kind: ContextItemKind,
    pub entity: Option<EntityRef>,
    pub text: Option<String>,
    pub source_event_ids: Vec<EventId>,
}

pub struct RecentView {
    pub kind: ContextItemKind,
    pub entity: Option<EntityRef>,
    pub text: Option<Seq<char>>,
    pub sources: Seq<EventId>,
}

pub open spec fn recent_view(r: RecentItem) -> RecentView {
    RecentView {
        kind: r.kind,
        entity: r.entity,
        text: match r.text {
            Some(t) => Some(t@),
            None => None,
        },
        sources: r.source_event_ids@,
    }
}

pub open spec fn recent_views(v: Seq<RecentItem>) -> Seq<RecentView> {
    Seq::new(v.len(), |i: int| recent_view(v[i]))
}

/// The item an event shows as, with its checked sources.
pub open spec fn recent_item_of(e: ExperienceEvent, sources: Seq<EventId>) -> RecentView {
    let observation = e.event_kind == EventKind::ObservationRecorded || e.event_kind
        == EventKind::UserMessageReceived;
    match (observation, e.payload) {
        (true, Payload::Observation(o)) => RecentView {
            kind: ContextItemKind::RecentObservation,
            entity: match e.subject {
                Some(s) => Some(s),
                None => Some(EntityRef { kind: EntityKind::Observation, id: o.id }),
            },
            text: Some(o.content@),
            sources,
        },
        _ => RecentView {
            kind: if observation {
                ContextItemKind::RecentObservation
            } else {
                ContextItemKind::RecentEvent
            },
            entity: e.subject,
            text: None,
            sources,
        },
    }
}

/// The recent items among the first `n` events, in ledger order, or the
/// first refusal of a source.
pub open spec fn spec_recent(events: Seq<ExperienceEvent>, request: ContextBuildRequest, n: int) -> Result<
    Seq<RecentView>,
    ContextBuilderError,
>
    decreases n,
{
    if n <= 0 || n > events.len() {
        Ok(Seq::empty())
    } else {
        match spec_recent(events, request, n - 1) {
            Err(e) => Err(e),
            Ok(done) => if shown_recent(events, n - 1, request) {
                match spec_validated(events, seq![events[n - 1].event_id], request.as_of_revision) {
                    Err(e) => Err(e),
                    Ok(sources) => Ok(done.push(recent_item_of(events[n - 1], sources))),
                }
            } else {
                Ok(done)
            },
        }
    }
}


fn recent_kind_of(k: EventKind) -> (r: bool)
    ensures
        r == recent_kind(k),
{
    k == EventKind::ObservationRecorded || k == EventKind::UserMessageReceived || k
        == EventKind::FocusResolved || k == EventKind::DecisionCreated || k
        == EventKind::PositionEstablished || k == EventKind::PositionMaintained || k
        == EventKind::PositionRevised || k == EventKind::PositionRetracted || k
        == EventKind::PositionRecorded || k == EventKind::ConflictOpened || k
        == EventKind::ConflictUpdated || k == EventKind::ConflictResolved || k
        == EventKind::ConflictRecorded || k == EventKind::RunStarted || k
        == EventKind::RunSuspended || k == EventKind::RunCompleted || k
        == EventKind::WorkingStateUpdated || k == EventKind::ArtifactCreated || k
        == EventKind::ResponseProduced
}

fn change_kind_of(k: EventKind) -> (r: bool)
    ensures
        r == change_kind(k),
{
    k == EventKind::DecisionCreated || k == EventKind::PositionEstablished || k
        == EventKind::PositionMaintained || k == EventKind::PositionRevised || k
        == EventKind::PositionRetracted || k == EventKind::PositionRecorded || k
        == EventKind::ConflictOpened || k == EventKind::ConflictUpdated || k
        == EventKind::ConflictResolved || k == EventKind::ConflictRecorded
}

fn same_key(a: &ExperienceEvent, b: &ExperienceEvent) -> (r: bool)
    ensures
        r == same_change_key(*a, *b),
{
    match (&a.subject, &b.subject) {
        (Some(x), Some(y)) => x.kind == y.kind && x.id == y.id,
        (None, None) => a.event_id == b.event_id,
        _ => false,
    }
}

fn indexed_flags(events: &[ExperienceEvent], as_of: u64) -> (r: Vec<bool>)
    ensures
        r@.len() == events@.len(),
        forall|k: int| 0 <= k < events@.len() ==> r@[k] == indexed(events@, k, as_of),
{
    let mut flags: Vec<bool> = Vec::new();
    let mut k: usize = 0;
    while k < events.len()
        invariant
            k <= events@.len(),
            flags@.len() == k,
            forall|j: int| 0 <= j < k ==> flags@[j] == indexed(events@, j, as_of),
        decreases events@.len() - k,
    {
        let kept = match crate::context_builder::find_last(events, events[k].event_id) {
            Some(last) => last == k,
            None => false,
        };
        let within = (k as u128) + 1 <= as_of as u128;
        flags.push(kept && within);
        k = k + 1;
    }
    flags
}

fn is_latest_change(events: &[ExperienceEvent], flags: &Vec<bool>, k: usize, as_of: u64) -> (r: bool)
    requires
        k < events@.len(),
        flags@.len() == events@.len(),
        forall|j: int| 0 <= j < events@.len() ==> flags@[j] == indexed(events@, j, as_of),
    ensures
        r == latest_change(events@, k as int, as_of),
{
    if !change_kind_of(events[k].event_kind) {
        return false;
    }
    let mut j: usize = k + 1;
    while j < events.len()
        invariant
            k < j <= events@.len(),
            flags@.len() == events@.len(),
            forall|i: int| 0 <= i < events@.len() ==> flags@[i] == indexed(events@, i, as_of),
            forall|i: int|
                k < i < j && indexed(events@, i, as_of) && change_kind(events@[i].event_kind) ==> !same_change_key(
                    #[trigger] events@[i],
                    events@[k as int],
                ),
        decreases events@.len() - j,
    {
        if flags[j] && change_kind_of(events[j].event_kind) && same_key(&events[j], &events[k]) {
            return false;
        }
        j = j + 1;
    }
    true
}

fn about_focus_of(e: &ExperienceEvent, focus: &Vec<u128>) -> (r: bool)
    ensures
        r == about_focus(*e, focus@),
{
    let by_subject = match &e.subject {
        Some(s) => contains_id(focus, s.id),
        None => false,
    };
    if by_subject {
        return true;
    }
    match &e.correlation_id {
        Some(c) => {
            let mut i: usize = 0;
            while i < focus.len()
                invariant
                    i <= focus@.len(),
                    e.correlation_id == Some(*c),
                    forall|j: int| 0 <= j < i ==> c@ != uuid_hyphenated(#[trigger] focus@[j]),
                decreases focus@.len() - i,
            {
                if *c == uuid_text(focus[i]) {
                    proof {
                        assert(c@ == uuid_hyphenated(focus@[i as int]));
                    }
                    return true;
                }
                i = i + 1;
            }
            false
        },
        None => false,
    }
}

fn recent_start_of(as_of: u64) -> (r: u64)
    ensures
        r == recent_start(as_of),
{
    if as_of >= RECENT_EVENT_WINDOW {
        as_of - (RECENT_EVENT_WINDOW - 1)
    } else {
        1
    }
}

fn request_focus_list(request: &ContextBuildRequest) -> (r: Vec<u128>)
    ensures
        r@ == request_focus(*request),
{
    let mut out: Vec<u128> = Vec::new();
    match request.relationship_id {
        Some(v) => out.push(v),
        None => {},
    }
    match request.task_id {
        Some(v) => out.push(v),
        None => {},
    }
    match request.run_id {
        Some(v) => out.push(v),
        None => {},
    }
    proof {
        assert(out@ =~= request_focus(*request));
    }
    out
}

fn is_current_observation(e: &ExperienceEvent, request: &ContextBuildRequest) -> (r: bool)
    ensures
        r == current_observation(*e, *request),
{
    match (request.current_observation_id, &e.subject) {
        (Some(o), Some(s)) => s.kind == EntityKind::Observation && s.id == o,
        _ => false,
    }
}

fn item_of(e: &ExperienceEvent, sources: Vec<EventId>) -> (r: RecentItem)
    ensures
        recent_view(r) == recent_item_of(*e, sources@),
{
    let observation = e.event_kind == EventKind::ObservationRecorded || e.event_kind
        == EventKind::UserMessageReceived;
    match &e.payload {
        Payload::Observation(o) => if observation {
            let entity = match e.subject {
                Some(s) => Some(s),
                None => Some(EntityRef { kind: EntityKind::Observation, id: o.id }),
            };
            return RecentItem {
                kind: ContextItemKind::RecentObservation,
                entity,
                text: Some(o.content.clone()),
                source_event_ids: sources,
            };
        },
        _ => {},
    }
    RecentItem {
        kind: if observation {
            ContextItemKind::RecentObservation
        } else {
            ContextItemKind::RecentEvent
        },
        entity: e.subject,
        text: None,
        source_event_ids: sources,
    }
}

proof fn lemma_recent_refusal_stays(
    events: Seq<ExperienceEvent>,
    request: ContextBuildRequest,
    n: int,
    m: int,
)
    requires
        0 <= n <= m <= events.len(),
        spec_recent(events, request, n) is Err,
    ensures
        spec_recent(events, request, m) == spec_recent(events, request, n),
    decreases m - n,
{
    if m > n {
        lemma_recent_refusal_stays(events, request, n, m - 1);
    }
}

/// The recent section of a snapshot for a request: in ledger order, the
/// events no newer than its revision that are in the recent window, the
/// latest change of what they change, or about its relationship, task or
/// run, leaving out the observation it is built for; each with its source
/// checked.
pub fn build_recent(request: &ContextBuildRequest, events: &[ExperienceEvent]) -> (r: Result<
    Vec<RecentItem>,
    ContextBuilderError,
>)
    ensures
        match r {
            Ok(items) => spec_recent(events@, *request, events@.len() as int) == Ok::<
                Seq<RecentView>,
                ContextBuilderError,
            >(recent_views(items@)),
            Err(e) => spec_recent(events@, *request, events@.len() as int) == Err::<
                Seq<RecentView>,
                ContextBuilderError,
            >(e),
        },
{
    let as_of = request.as_of_revision;
    let flags = indexed_flags(events, as_of);
    let focus = request_focus_list(request);
    let start = recent_start_of(as_of);
    let mut out: Vec<RecentItem> = Vec::new();
    let mut k: usize = 0;
    proof {
        assert(recent_views(out@) =~= Seq::<RecentView>::empty());
    }
    while k < events.len()
        invariant
            k <= events@.len(),
            as_of == request.as_of_revision,
            start == recent_start(as_of),
            focus@ == request_focus(*request),
            flags@.len() == events@.len(),
            forall|j: int| 0 <= j < events@.len() ==> flags@[j] == indexed(events@, j, as_of),
            spec_recent(events@, *request, k as int) == Ok::<Seq<RecentView>, ContextBuilderError>(
                recent_views(out@),
            ),
        decreases events@.len() - k,
    {
        let e = &events[k];
        let shown = flags[k] && recent_kind_of(e.event_kind) && ((k as u128) + 1 >= start as u128
            || is_latest_change(events, &flags, k, as_of) || about_focus_of(e, &focus))
            && !is_current_observation(e, request);
        if shown {
            let mut ids: Vec<EventId> = Vec::new();
            ids.push(e.event_id);
            proof {
                assert(ids@ =~= seq![events@[k as int].event_id]);
            }
            let sources = match validated_sources(&ids, as_of, events) {
                Ok(v) => v,
                Err(err) => {
                    proof {
                        lemma_recent_refusal_stays(events@, *request, k + 1, events@.len() as int);
                    }
                    return Err(err);
                },
            };
            let item = item_of(e, sources);
            let ghost v = recent_view(item);
            let ghost before = recent_views(out@);
            out.push(item);
            proof {
                assert(recent_views(out@) =~= before.push(v));
            }
        }
        k = k + 1;
    }
    Ok(out)
}


/// Why a recalled item cannot enter the snapshot, if it cannot: its source
/// event is missing, newer than the request, fails its integrity check,
/// is read as of a revision outside its own and the request's, or has
/// another hash than the one recalled.
pub open spec fn recall_fault(
    events: Seq<ExperienceEvent>,
    source_event_id: EventId,
    item_as_of: u64,
    source_hash: Seq<char>,
    as_of: u64,
) -> Option<ContextBuilderError> {
    match last_of(events, source_event_id) {
        None => Some(ContextBuilderError::MissingSourceEvent { event_id: source_event_id }),
        Some(k) => if k + 1 > as_of {
            Some(
                ContextBuilderError::FutureRecallSource {
                    event_id: source_event_id,
                    sequence: (k + 1) as u64,
                    as_of,
                },
            )
        } else if !intact(events[k]) {
            Some(ContextBuilderError::SourceHashMismatch { event_id: source_event_id })
        } else if item_as_of < k + 1 || item_as_of > as_of {
            Some(ContextBuilderError::InvalidRecallAsOf { event_id: source_event_id, item_as_of })
        } else if source_hash != events[k].canonical_hash@ {
            Some(ContextBuilderError::SourceHashMismatch { event_id: source_event_id })
        } else {
            None
        },
    }
}

/// Checks a recalled item against the ledger as of the request's revision.
pub fn check_recalled(
    events: &[ExperienceEvent],
    source_event_id: EventId,
    item_as_of: u64,
    source_hash: &str,
    as_of: u64,
) -> (r: Result<(), ContextBuilderError>)
    ensures
        match recall_fault(events@, source_event_id, item_as_of, source_hash@, as_of) {
            Some(e) => r == Err::<(), ContextBuilderError>(e),
            None => r is Ok,
        },
{
    let k = match crate::context_builder::find_last(events, source_event_id) {
        Some(k) => k,
        None => {
            return Err(ContextBuilderError::MissingSourceEvent { event_id: source_event_id });
        },
    };
    let count = events.len();
    assert(k < count);
    let sequence = (k + 1) as u64;
    if sequence > as_of {
        return Err(ContextBuilderError::FutureRecallSource { event_id: source_event_id, sequence, as_of });
    }
    let e = &events[k];
    if !verify_integrity(e) {
        return Err(ContextBuilderError::SourceHashMismatch { event_id: source_event_id });
    }
    if item_as_of < sequence || item_as_of > as_of {
        return Err(ContextBuilderError::InvalidRecallAsOf { event_id: source_event_id, item_as_of });
    }
    if !same_text(source_hash, e.canonical_hash.as_str()) {
        return Err(ContextBuilderError::SourceHashMismatch { event_id: source_event_id });
    }
    Ok(())
}


/// The position of the last recall item among the first `n`, if any.
pub open spec fn last_recall(items: Seq<RecentItem>, n: int) -> Option<int>
    decreases n,
{
    if n <= 0 || n > items.len() {
        None
    } else if items[n - 1].kind == ContextItemKind::Recall {
        Some(n - 1)
    } else {
        last_recall(items, n - 1)
    }
}

fn find_last_recall(items: &Vec<RecentItem>) -> (r: Option<usize>)
    ensures
        match r {
            Some(i) => i < items@.len() && last_recall(items@, items@.len() as int) == Some(i as int),
            None => last_recall(items@, items@.len() as int) is None,
        },
{
    let mut n: usize = items.len();
    while n > 0
        invariant
            n <= items@.len(),
            last_recall(items@, items@.len() as int) == last_recall(items@, n as int),
        decreases n,
    {
        if items[n - 1].kind == ContextItemKind::Recall {
            return Some(n - 1);
        }
        n = n - 1;
    }
    None
}

/// Makes room under the snapshot's hard limit by dropping one item: the
/// last recall item, else the last middle item, else the first recent
/// item; says whether anything was dropped and counts what was.
pub fn drop_for_hard_limit(
    middle: &mut Vec<crate::context_middle::MiddleItem>,
    active: &mut Vec<RecentItem>,
    dropped_middle: &mut usize,
    dropped_active: &mut usize,
) -> (r: bool)
    requires
        *old(dropped_middle) < usize::MAX,
        *old(dropped_active) < usize::MAX,
    ensures
        match last_recall(old(active)@, old(active)@.len() as int) {
            Some(i) => r && final(active)@ == old(active)@.remove(i) && final(middle)@ == old(middle)@
                && *final(dropped_active) == *old(dropped_active) + 1 && *final(dropped_middle)
                == *old(dropped_middle),
            None => if old(middle)@.len() > 0 {
                r && final(middle)@ == old(middle)@.drop_last() && final(active)@ == old(active)@
                    && *final(dropped_middle) == *old(dropped_middle) + 1 && *final(dropped_active)
                    == *old(dropped_active)
            } else if old(active)@.len() > 0 {
                r && final(active)@ == old(active)@.remove(0) && final(middle)@ == old(middle)@
                    && *final(dropped_active) == *old(dropped_active) + 1 && *final(dropped_middle)
                    == *old(dropped_middle)
            } else {
                !r && final(active)@ == old(active)@ && final(middle)@ == old(middle)@
                    && *final(dropped_active) == *old(dropped_active) && *final(dropped_middle)
                    == *old(dropped_middle)
            },
        },
{
    match find_last_recall(active) {
        Some(i) => {
            active.remove(i);
            *dropped_active = *dropped_active + 1;
            return true;
        },
        None => {},
    }
    if middle.len() > 0 {
        middle.pop();
        *dropped_middle = *dropped_middle + 1;
        return true;
    }
    if active.len() > 0 {
        active.remove(0);
        *dropped_active = *dropped_active + 1;
        return true;
    }
    false
}

} // verus!
