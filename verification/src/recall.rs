//! Semantic recall: how many recalled items an interaction may bring in and
//! the embedding space they come from.
use vstd::prelude::*;

use crate::embedding::{position_text, spec_position_text, EmbeddingEntityKind, EmbeddingIndexer};
use crate::ids::{parse_uuid, parsed_uuid};
use crate::integration::{event_source_hash, intact, source_hash_of, verify_integrity};
use crate::model::{
    contains_id, ActiveMemoryStatus, EntityKind, EntityRef, EventId, PositionStatus,
};
use crate::state::{CurrentState, EventKind, ExperienceEvent, Payload};
use crate::table::{get, lookup};
use crate::text::{blank, is_blank};

verus! {

/// The number of items recall brings in unless told otherwise.
pub const DEFAULT_RECALL_LIMIT: usize = 6;

/// The most candidates recall ever considers.
pub const MAX_RECALL_CANDIDATES: usize = 32;

/// The smaller of two counts.
pub open spec fn capped(n: usize, cap: usize) -> usize {
    if cap < n {
        cap
    } else {
        n
    }
}

/// Recall over the embeddings an indexer keeps.
pub struct SemanticRecall {
    indexer: EmbeddingIndexer,
    limit: usize,
}

impl SemanticRecall {
    /// Recall through `indexer` with the default limit.
    pub fn new(indexer: EmbeddingIndexer) -> (r: SemanticRecall)
        ensures
            r.spec_limit() == DEFAULT_RECALL_LIMIT,
            r.spec_space_id() == indexer.spec_space_id(),
    {
        SemanticRecall { indexer, limit: DEFAULT_RECALL_LIMIT }
    }

    /// Recall through `indexer` with `limit`, capped at the most candidates
    /// recall considers.
    pub fn with_limit(indexer: EmbeddingIndexer, limit: usize) -> (r: SemanticRecall)
        ensures
            r.spec_limit() == capped(limit, MAX_RECALL_CANDIDATES),
            r.spec_space_id() == indexer.spec_space_id(),
    {
        let capped = if limit < MAX_RECALL_CANDIDATES {
            limit
        } else {
            MAX_RECALL_CANDIDATES
        };
        SemanticRecall { indexer, limit: capped }
    }

    pub closed spec fn spec_limit(&self) -> usize {
        self.limit
    }

    pub closed spec fn spec_space_id(&self) -> Seq<char> {
        self.indexer.spec_space_id()
    }

    /// The most items one recall brings in.
    pub fn limit(&self) -> (r: usize)
        ensures
            r == self.spec_limit(),
    {
        self.limit
    }

    /// The embedding space recall searches.
    pub fn embedding_space_id(&self) -> (r: &str)
        ensures
            r@ == self.spec_space_id(),
    {
        self.indexer.space_id()
    }

    /// How many items a query asking for `requested` gets: no more than the
    /// recall's limit and the most candidates recall considers.
    pub fn effective_limit(&self, requested: usize) -> (r: usize)
        ensures
            r == capped(capped(requested, self.spec_limit()), MAX_RECALL_CANDIDATES),
    {
        let mut limit = requested;
        if self.limit < limit {
            limit = self.limit;
        }
        if MAX_RECALL_CANDIDATES < limit {
            limit = MAX_RECALL_CANDIDATES;
        }
        limit
    }
}


/// A semantic match brought back to what the ledger and the projection
/// hold now: the entity, the event it comes from with that event's hash,
/// the revision it is read as of, and its text. The match's score is kept
/// by the caller.
pub struct RestoredItem {
    pub entity: EntityRef,
    pub source_event_id: EventId,
    pub source_hash: String,
    pub as_of_sequence: u64,
    pub text: String,
}

/// The event kinds that record an entity of an embedded kind, for the
/// kinds whose latest event is looked up.
pub open spec fn records_entity(kind: EntityKind, event_kind: EventKind) -> bool {
    match kind {
        EntityKind::Memory => event_kind == EventKind::MemoryPromoted,
        EntityKind::Position => event_kind == EventKind::PositionEstablished || event_kind
            == EventKind::PositionMaintained || event_kind == EventKind::PositionRevised
            || event_kind == EventKind::PositionRecorded,
        _ => false,
    }
}

/// Whether the event records the entity: an intact event of a recording
/// kind whose subject is the entity.
pub open spec fn records(e: ExperienceEvent, kind: EntityKind, id: u128) -> bool {
    &&& records_entity(kind, e.event_kind)
    &&& intact(e)
    &&& e.subject matches Some(s) && s.kind == kind && s.id == id
}

/// The index of the last of the first `n` events that records the entity.
pub open spec fn last_record(events: Seq<ExperienceEvent>, n: int, kind: EntityKind, id: u128) -> Option<int>
    decreases n,
{
    if n <= 0 || n > events.len() {
        None
    } else if records(events[n - 1], kind, id) {
        Some(n - 1)
    } else {
        last_record(events, n - 1, kind, id)
    }
}

/// The index of the first event with the identifier, if any.
pub open spec fn first_event(events: Seq<ExperienceEvent>, id: EventId, from: int) -> Option<int>
    decreases events.len() - from,
{
    if from < 0 || from >= events.len() {
        None
    } else if events[from].event_id == id {
        Some(from)
    } else {
        first_event(events, id, from + 1)
    }
}

/// The restored entity and text of a match on `source` (at index `at`),
/// if the projection still holds it.
pub open spec fn restored_text(
    kind: EmbeddingEntityKind,
    entity_id: u128,
    at: int,
    source: ExperienceEvent,
    as_of: u64,
    state: &CurrentState,
    events: Seq<ExperienceEvent>,
) -> Option<(EntityRef, Seq<char>)> {
    match kind {
        EmbeddingEntityKind::Observation => if !(source.event_kind == EventKind::ObservationRecorded
            || source.event_kind == EventKind::UserMessageReceived) || !(source.subject matches Some(
            s,
        ) && s.kind == EntityKind::Observation && s.id == entity_id) {
            None
        } else {
            match source.payload {
                Payload::Observation(o) => if o.id != entity_id || is_blank(o.content@) {
                    None
                } else {
                    Some((EntityRef { kind: EntityKind::Observation, id: entity_id }, o.content@))
                },
                _ => None,
            }
        },
        EmbeddingEntityKind::Memory => if !(source.subject matches Some(s) && s.kind
            == EntityKind::Memory && s.id == entity_id) || as_of != state.revision
            || last_record(events, bounded(as_of, events.len()), EntityKind::Memory, entity_id)
            != Some(at) {
            None
        } else {
            match lookup(state.active_memories@, entity_id) {
                Some(m) => if m.status == ActiveMemoryStatus::Active {
                    Some((EntityRef { kind: EntityKind::Memory, id: entity_id }, m.content@))
                } else {
                    None
                },
                None => None,
            }
        },
        EmbeddingEntityKind::Position => if !(source.subject matches Some(s) && s.kind
            == EntityKind::Position && s.id == entity_id) || as_of != state.revision
            || last_record(events, bounded(as_of, events.len()), EntityKind::Position, entity_id)
            != Some(at) {
            None
        } else {
            match lookup(state.positions@, entity_id) {
                Some(p) => if p.status == PositionStatus::Active {
                    Some((EntityRef { kind: EntityKind::Position, id: entity_id }, spec_position_text(p)))
                } else {
                    None
                },
                None => None,
            }
        },
    }
}

/// `as_of` as a count of events, no more than there are.
pub open spec fn bounded(as_of: u64, len: nat) -> int {
    if as_of < len {
        as_of as int
    } else {
        len as int
    }
}

/// What a semantic match on `source_event_id` for the entity `entity_id`
/// (as text) restores to, if anything: the first event with that
/// identifier must be intact, not excluded, and no newer than the query's
/// revision; the entity must still be what that event records, as the
/// projection holds it; and its text must not be blank.
pub open spec fn restoration(
    source_event_id: EventId,
    kind: EmbeddingEntityKind,
    entity_id: Seq<char>,
    query_as_of: Option<u64>,
    exclude: Seq<EventId>,
    state: &CurrentState,
    events: Seq<ExperienceEvent>,
) -> Option<(EntityRef, Seq<char>, Seq<char>, u64)> {
    match first_event(events, source_event_id, 0) {
        None => None,
        Some(at) => {
            let source = events[at];
            if (query_as_of matches Some(a) && at + 1 > a) || exclude.contains(source_event_id)
                || !intact(source) {
                None
            } else {
                match parsed_uuid(entity_id) {
                    None => None,
                    Some(id) => {
                        let as_of = match query_as_of {
                            Some(a) => a,
                            None => state.revision,
                        };
                        match restored_text(kind, id, at, source, as_of, state, events) {
                            None => None,
                            Some((entity, text)) => if is_blank(text) {
                                None
                            } else {
                                Some((entity, text, source_hash_of(source), as_of))
                            },
                        }
                    },
                }
            }
        },
    }
}

fn find_event_index(events: &[ExperienceEvent], id: EventId) -> (r: Option<usize>)
    ensures
        match r {
            Some(i) => first_event(events@, id, 0) == Some(i as int) && i < events@.len(),
            None => first_event(events@, id, 0) is None,
        },
{
    let mut i: usize = 0;
    while i < events.len()
        invariant
            i <= events@.len(),
            first_event(events@, id, 0) == first_event(events@, id, i as int),
        decreases events@.len() - i,
    {
        if events[i].event_id == id {
            return Some(i);
        }
        i = i + 1;
    }
    None
}

fn event_records(e: &ExperienceEvent, kind: EntityKind, id: u128) -> (r: bool)
    ensures
        r == records(*e, kind, id),
{
    let accepted = match kind {
        EntityKind::Memory => e.event_kind == EventKind::MemoryPromoted,
        EntityKind::Position => e.event_kind == EventKind::PositionEstablished || e.event_kind
            == EventKind::PositionMaintained || e.event_kind == EventKind::PositionRevised
            || e.event_kind == EventKind::PositionRecorded,
        _ => false,
    };
    let about = match &e.subject {
        Some(s) => s.kind == kind && s.id == id,
        None => false,
    };
    accepted && verify_integrity(e) && about
}

fn latest_record(events: &[ExperienceEvent], as_of: u64, kind: EntityKind, id: u128) -> (r: Option<usize>)
    ensures
        match r {
            Some(i) => last_record(events@, bounded(as_of, events@.len()), kind, id) == Some(i as int),
            None => last_record(events@, bounded(as_of, events@.len()), kind, id) is None,
        },
{
    let mut n: usize = if (as_of as u128) < (events.len() as u128) {
        as_of as usize
    } else {
        events.len()
    };
    let ghost start = n as int;
    proof {
        assert(start == bounded(as_of, events@.len()));
    }
    while n > 0
        invariant
            n <= events@.len(),
            start == bounded(as_of, events@.len()),
            last_record(events@, start, kind, id) == last_record(events@, n as int, kind, id),
        decreases n,
    {
        if event_records(&events[n - 1], kind, id) {
            proof {
                assert(last_record(events@, n as int, kind, id) == Some(n - 1));
            }
            return Some(n - 1);
        }
        n = n - 1;
    }
    None
}

fn restore_text(
    kind: EmbeddingEntityKind,
    entity_id: u128,
    at: usize,
    source: &ExperienceEvent,
    as_of: u64,
    state: &CurrentState,
    events: &[ExperienceEvent],
) -> (r: Option<(EntityRef, String)>)
    requires
        state.wf(),
    ensures
        match r {
            Some((entity, text)) => restored_text(kind, entity_id, at as int, *source, as_of, state, events@)
                == Some((entity, text@)),
            None => restored_text(kind, entity_id, at as int, *source, as_of, state, events@) is None,
        },
{
    match kind {
        EmbeddingEntityKind::Observation => {
            let about = match &source.subject {
                Some(s) => s.kind == EntityKind::Observation && s.id == entity_id,
                None => false,
            };
            if !(source.event_kind == EventKind::ObservationRecorded || source.event_kind
                == EventKind::UserMessageReceived) || !about {
                return None;
            }
            match &source.payload {
                Payload::Observation(o) => {
                    if o.id != entity_id || blank(o.content.as_str()) {
                        None
                    } else {
                        Some((EntityRef { kind: EntityKind::Observation, id: entity_id }, o.content.clone()))
                    }
                },
                _ => None,
            }
        },
        EmbeddingEntityKind::Memory => {
            let about = match &source.subject {
                Some(s) => s.kind == EntityKind::Memory && s.id == entity_id,
                None => false,
            };
            let latest = latest_record(events, as_of, EntityKind::Memory, entity_id);
            if !about || as_of != state.revision || latest != Some(at) {
                return None;
            }
            match get(&state.active_memories, entity_id) {
                Some(m) => if m.status == ActiveMemoryStatus::Active {
                    Some((EntityRef { kind: EntityKind::Memory, id: entity_id }, m.content.clone()))
                } else {
                    None
                },
                None => None,
            }
        },
        EmbeddingEntityKind::Position => {
            let about = match &source.subject {
                Some(s) => s.kind == EntityKind::Position && s.id == entity_id,
                None => false,
            };
            let latest = latest_record(events, as_of, EntityKind::Position, entity_id);
            if !about || as_of != state.revision || latest != Some(at) {
                return None;
            }
            match get(&state.positions, entity_id) {
                Some(p) => if p.status == PositionStatus::Active {
                    Some((EntityRef { kind: EntityKind::Position, id: entity_id }, position_text(p)))
                } else {
                    None
                },
                None => None,
            }
        },
    }
}

/// Restores a semantic match on the event `source_event_id` for the
/// entity `entity_id` (as text) against the ledger and the projection, as
/// `restoration` says; the match's score stays with the caller.
pub fn restore_item(
    source_event_id: EventId,
    kind: EmbeddingEntityKind,
    entity_id: &str,
    query_as_of: Option<u64>,
    exclude: &Vec<EventId>,
    state: &CurrentState,
    events: &[ExperienceEvent],
) -> (r: Option<RestoredItem>)
    requires
        state.wf(),
    ensures
        match restoration(source_event_id, kind, entity_id@, query_as_of, exclude@, state, events@) {
            Some((entity, text, hash, as_of)) => r matches Some(item) && item.entity == entity
                && item.source_event_id == source_event_id && item.source_hash@ == hash
                && item.as_of_sequence == as_of && item.text@ == text,
            None => r is None,
        },
{
    let at = match find_event_index(events, source_event_id) {
        Some(i) => i,
        None => {
            return None;
        },
    };
    let source = &events[at];
    let too_new = match query_as_of {
        Some(a) => (at as u128) + 1 > a as u128,
        None => false,
    };
    if too_new || contains_id(exclude, source_event_id) || !verify_integrity(source) {
        return None;
    }
    let id = match parse_uuid(entity_id) {
        Some(id) => id,
        None => {
            return None;
        },
    };
    let as_of = match query_as_of {
        Some(a) => a,
        None => state.revision,
    };
    let (entity, text) = match restore_text(kind, id, at, source, as_of, state, events) {
        Some(found) => found,
        None => {
            return None;
        },
    };
    if blank(text.as_str()) {
        return None;
    }
    Some(RestoredItem {
        entity,
        source_event_id,
        source_hash: event_source_hash(source),
        as_of_sequence: as_of,
        text,
    })
}

} // verus!
