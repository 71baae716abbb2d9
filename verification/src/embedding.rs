//! What the semantic index embeds: the observations, active memories and
//! active positions of the projection, each tied to the last event that
//! recorded it.
use vstd::prelude::*;

use crate::format::{uuid_hyphenated, uuid_text};
use crate::model::{ActiveMemoryStatus, EntityKind, EventId, Position, PositionStatus, Stance};
use crate::state::{CurrentState, ExperienceEvent};

verus! {

/// The kinds of entity the index embeds.
#[derive(Clone, Copy, Debug, PartialEq, Eq, Structural)]
pub enum EmbeddingEntityKind {
    Observation,
    Memory,
    Position,
}

/// A text to embed, with the entity it stands for and the event it comes
/// from.
pub struct EmbeddingDocument {
    pub entity_kind: EmbeddingEntityKind,
    pub entity_id: u128,
    pub source_event_id: EventId,
    pub text: String,
    pub chunk_index: u32,
}

/// Why the documents could not be listed.
pub enum EmbeddingIndexError {
    /// No event of the ledger records the entity.
    MissingProvenance { kind: EmbeddingEntityKind, entity_id: u128 },
}

/// The name of an embedded entity kind.
pub open spec fn embedding_kind_name(kind: EmbeddingEntityKind) -> Seq<char> {
    match kind {
        EmbeddingEntityKind::Observation => "observation"@,
        EmbeddingEntityKind::Memory => "memory"@,
        EmbeddingEntityKind::Position => "position"@,
    }
}

impl EmbeddingIndexError {
    /// The error's message.
    pub fn message(&self) -> (r: String)
        ensures
            match *self {
                EmbeddingIndexError::MissingProvenance { kind, entity_id } => r@
                    == "embedding provenance is missing for "@ + embedding_kind_name(kind) + " "@
                    + uuid_hyphenated(entity_id),
            },
    {
        match self {
            EmbeddingIndexError::MissingProvenance { kind, entity_id } => {
                let mut out = "embedding provenance is missing for ".to_owned();
                out.append(
                    match kind {
                        EmbeddingEntityKind::Observation => "observation",
                        EmbeddingEntityKind::Memory => "memory",
                        EmbeddingEntityKind::Position => "position",
                    },
                );
                out.append(" ");
                out.append(uuid_text(*entity_id).as_str());
                out
            },
        }
    }
}

/// The entity kind the ledger records an embedded entity under.
pub open spec fn ledger_kind(kind: EmbeddingEntityKind) -> EntityKind {
    match kind {
        EmbeddingEntityKind::Observation => EntityKind::Observation,
        EmbeddingEntityKind::Memory => EntityKind::Memory,
        EmbeddingEntityKind::Position => EntityKind::Position,
    }
}

/// The name of a stance.
pub open spec fn stance_name(s: Stance) -> Seq<char> {
    match s {
        Stance::Support => "support"@,
        Stance::Oppose => "oppose"@,
        Stance::Uncertain => "uncertain"@,
        Stance::Neutral => "neutral"@,
    }
}

/// The reasons as a list, one `- reason` line each.
pub open spec fn reason_lines(reasons: Seq<String>) -> Seq<char>
    decreases reasons.len(),
{
    if reasons.len() == 0 {
        Seq::empty()
    } else if reasons.len() == 1 {
        "- "@ + reasons[0]@
    } else {
        reason_lines(reasons.drop_last()) + "\n- "@ + reasons.last()@
    }
}

/// The text of a position as the index embeds it: its subject, stance and
/// reasons.
pub open spec fn spec_position_text(p: Position) -> Seq<char> {
    "subject: "@ + p.subject@ + "\nstance: "@ + stance_name(p.stance) + "\nreasons:\n"@
        + reason_lines(p.reasons@)
}

/// The text of a position as the index embeds it.
pub fn position_text(p: &Position) -> (r: String)
    ensures
        r@ == spec_position_text(*p),
{
    let mut lines = String::new();
    let mut i: usize = 0;
    while i < p.reasons.len()
        invariant
            i <= p.reasons@.len(),
            lines@ == reason_lines(p.reasons@.subrange(0, i as int)),
        decreases p.reasons@.len() - i,
    {
        proof {
            let next = p.reasons@.subrange(0, i + 1);
            assert(next.drop_last() =~= p.reasons@.subrange(0, i as int));
            assert(next.last() == p.reasons@[i as int]);
            if i == 0 {
                assert(next[0] == p.reasons@[0]);
            }
        }
        if i == 0 {
            lines.append("- ");
        } else {
            lines.append("\n- ");
        }
        lines.append(p.reasons[i].as_str());
        proof {
            if i == 0 {
                assert(lines@ =~= "- "@ + p.reasons@[0]@);
            }
        }
        i = i + 1;
    }
    proof {
        assert(p.reasons@.subrange(0, p.reasons@.len() as int) =~= p.reasons@);
    }
    let mut out = "subject: ".to_owned();
    out.append(p.subject.as_str());
    out.append("\nstance: ");
    out.append(
        match p.stance {
            Stance::Support => "support",
            Stance::Oppose => "oppose",
            Stance::Uncertain => "uncertain",
            Stance::Neutral => "neutral",
        },
    );
    out.append("\nreasons:\n");
    out.append(lines.as_str());
    out
}

/// The last event among the first `n` whose subject is this entity.
pub open spec fn last_subject_event(
    events: Seq<ExperienceEvent>,
    kind: EntityKind,
    id: u128,
    n: int,
) -> Option<EventId>
    decreases n,
{
    if n <= 0 || n > events.len() {
        None
    } else if events[n - 1].subject is Some && events[n - 1].subject->0.kind == kind && events[n
        - 1].subject->0.id == id {
        Some(events[n - 1].event_id)
    } else {
        last_subject_event(events, kind, id, n - 1)
    }
}

fn provenance(events: &[ExperienceEvent], kind: EmbeddingEntityKind, id: u128) -> (r: Result<
    EventId,
    EmbeddingIndexError,
>)
    ensures
        match last_subject_event(events@, ledger_kind(kind), id, events@.len() as int) {
            Some(e) => r == Ok::<EventId, EmbeddingIndexError>(e),
            None => r matches Err(EmbeddingIndexError::MissingProvenance { kind: k, entity_id })
                && k == kind && entity_id == id,
        },
{
    let wanted = match kind {
        EmbeddingEntityKind::Observation => EntityKind::Observation,
        EmbeddingEntityKind::Memory => EntityKind::Memory,
        EmbeddingEntityKind::Position => EntityKind::Position,
    };
    let mut n: usize = events.len();
    while n > 0
        invariant
            n <= events@.len(),
            wanted == ledger_kind(kind),
            last_subject_event(events@, wanted, id, events@.len() as int) == last_subject_event(
                events@,
                wanted,
                id,
                n as int,
            ),
        decreases n,
    {
        match events[n - 1].subject {
            Some(subject) => {
                if subject.kind == wanted && subject.id == id {
                    return Ok(events[n - 1].event_id);
                }
            },
            None => {},
        }
        n = n - 1;
    }
    Err(EmbeddingIndexError::MissingProvenance { kind, entity_id: id })
}

/// The entities the index embeds, in order: every observation, then every
/// active memory, then every active position, each with its text.
pub open spec fn embedded_entities(state: &CurrentState) -> Seq<(EmbeddingEntityKind, u128, Seq<char>)> {
    state.observations@.map_values(|o: crate::model::Observation| observation_entity(o))
        + state.active_memories@.filter(|m: crate::model::ActiveMemory| active_memory(m)).map_values(
        |m: crate::model::ActiveMemory| memory_entity(m),
    ) + state.positions@.filter(|p: Position| active_position(p)).map_values(
        |p: Position| position_entity(p),
    )
}

/// The documents of the first `n` entities, or the first entity among them
/// no event records.
pub open spec fn documents_over(
    entities: Seq<(EmbeddingEntityKind, u128, Seq<char>)>,
    events: Seq<ExperienceEvent>,
    n: int,
) -> Result<Seq<(EmbeddingEntityKind, u128, EventId, Seq<char>)>, (EmbeddingEntityKind, u128)>
    decreases n,
{
    if n <= 0 || n > entities.len() {
        Ok(Seq::empty())
    } else {
        match documents_over(entities, events, n - 1) {
            Err(e) => Err(e),
            Ok(docs) => {
                let (kind, id, text) = entities[n - 1];
                match last_subject_event(events, ledger_kind(kind), id, events.len() as int) {
                    None => Err((kind, id)),
                    Some(source) => Ok(docs.push((kind, id, source, text))),
                }
            },
        }
    }
}

/// A document as plain values.
pub open spec fn document_view(d: EmbeddingDocument) -> (EmbeddingEntityKind, u128, EventId, Seq<char>) {
    (d.entity_kind, d.entity_id, d.source_event_id, d.text@)
}

pub open spec fn entity_view(e: (EmbeddingEntityKind, u128, String)) -> (EmbeddingEntityKind, u128, Seq<char>) {
    (e.0, e.1, e.2@)
}

pub open spec fn observation_entity(o: crate::model::Observation) -> (EmbeddingEntityKind, u128, Seq<char>) {
    (EmbeddingEntityKind::Observation, o.id, o.content@)
}

pub open spec fn memory_entity(m: crate::model::ActiveMemory) -> (EmbeddingEntityKind, u128, Seq<char>) {
    (EmbeddingEntityKind::Memory, m.id, m.content@)
}

pub open spec fn position_entity(p: Position) -> (EmbeddingEntityKind, u128, Seq<char>) {
    (EmbeddingEntityKind::Position, p.id, spec_position_text(p))
}

pub open spec fn active_memory(m: crate::model::ActiveMemory) -> bool {
    m.status == ActiveMemoryStatus::Active
}

pub open spec fn active_position(p: Position) -> bool {
    p.status == PositionStatus::Active
}

fn entities_of(state: &CurrentState) -> (r: Vec<(EmbeddingEntityKind, u128, String)>)
    ensures
        r@.map_values(|e: (EmbeddingEntityKind, u128, String)| entity_view(e)) == embedded_entities(
            state,
        ),
{
    let mut out: Vec<(EmbeddingEntityKind, u128, String)> = Vec::new();
    let mut i: usize = 0;
    while i < state.observations.len()
        invariant
            i <= state.observations@.len(),
            out@.map_values(|e: (EmbeddingEntityKind, u128, String)| entity_view(e))
                =~= state.observations@.subrange(0, i as int).map_values(
                |o: crate::model::Observation| observation_entity(o),
            ),
        decreases state.observations@.len() - i,
    {
        let o = &state.observations[i];
        let ghost old_out = out@;
        let text = o.content.clone();
        proof {
            assert(text@ == o.content@);
        }
        out.push((EmbeddingEntityKind::Observation, o.id, text));
        proof {
            assert(out@.map_values(|e: (EmbeddingEntityKind, u128, String)| entity_view(e))
                =~= old_out.map_values(|e: (EmbeddingEntityKind, u128, String)| entity_view(e)).push(
                observation_entity(state.observations@[i as int]),
            ));
            assert(state.observations@.subrange(0, i + 1) =~= state.observations@.subrange(
                0,
                i as int,
            ).push(state.observations@[i as int]));
        }
        i = i + 1;
    }
    proof {
        assert(state.observations@.subrange(0, state.observations@.len() as int)
            =~= state.observations@);
    }
    let ghost before = out@.map_values(|e: (EmbeddingEntityKind, u128, String)| entity_view(e));
    let mut j: usize = 0;
    while j < state.active_memories.len()
        invariant
            j <= state.active_memories@.len(),
            out@.map_values(|e: (EmbeddingEntityKind, u128, String)| entity_view(e)) =~= before
                + state.active_memories@.subrange(0, j as int).filter(
                |m: crate::model::ActiveMemory| active_memory(m),
            ).map_values(|m: crate::model::ActiveMemory| memory_entity(m)),
        decreases state.active_memories@.len() - j,
    {
        let m = &state.active_memories[j];
        proof {
            let pre = state.active_memories@.subrange(0, j as int);
            assert(state.active_memories@.subrange(0, j + 1) =~= pre.push(
                state.active_memories@[j as int],
            ));
            pre.lemma_filter_push(
                state.active_memories@[j as int],
                |m: crate::model::ActiveMemory| active_memory(m),
            );
        }
        let ghost old_out = out@;
        if m.status == ActiveMemoryStatus::Active {
            let text = m.content.clone();
            out.push((EmbeddingEntityKind::Memory, m.id, text));
            proof {
                assert(out@.map_values(|e: (EmbeddingEntityKind, u128, String)| entity_view(e))
                    =~= old_out.map_values(|e: (EmbeddingEntityKind, u128, String)| entity_view(e)).push(
                    memory_entity(state.active_memories@[j as int]),
                ));
            }
        }
        j = j + 1;
    }
    proof {
        assert(state.active_memories@.subrange(0, state.active_memories@.len() as int)
            =~= state.active_memories@);
    }
    let ghost middle = out@.map_values(|e: (EmbeddingEntityKind, u128, String)| entity_view(e));
    let mut k: usize = 0;
    while k < state.positions.len()
        invariant
            k <= state.positions@.len(),
            out@.map_values(|e: (EmbeddingEntityKind, u128, String)| entity_view(e)) =~= middle
                + state.positions@.subrange(0, k as int).filter(|p: Position| active_position(p)).map_values(
                |p: Position| position_entity(p),
            ),
        decreases state.positions@.len() - k,
    {
        let p = &state.positions[k];
        proof {
            let pre = state.positions@.subrange(0, k as int);
            assert(state.positions@.subrange(0, k + 1) =~= pre.push(state.positions@[k as int]));
            pre.lemma_filter_push(state.positions@[k as int], |p: Position| active_position(p));
        }
        let ghost old_out = out@;
        if p.status == PositionStatus::Active {
            let text = position_text(p);
            out.push((EmbeddingEntityKind::Position, p.id, text));
            proof {
                assert(out@.map_values(|e: (EmbeddingEntityKind, u128, String)| entity_view(e))
                    =~= old_out.map_values(|e: (EmbeddingEntityKind, u128, String)| entity_view(e)).push(
                    position_entity(state.positions@[k as int]),
                ));
            }
        }
        k = k + 1;
    }
    proof {
        assert(state.positions@.subrange(0, state.positions@.len() as int) =~= state.positions@);
    }
    out
}

/// Once an entity lacks provenance, the listing stays refused for it.
proof fn lemma_documents_refused(
    entities: Seq<(EmbeddingEntityKind, u128, Seq<char>)>,
    events: Seq<ExperienceEvent>,
    n: int,
    m: int,
)
    requires
        0 <= n <= m <= entities.len(),
        documents_over(entities, events, n) is Err,
    ensures
        documents_over(entities, events, m) == documents_over(entities, events, n),
    decreases m - n,
{
    if m > n {
        lemma_documents_refused(entities, events, n, m - 1);
    }
}

/// The documents the index embeds for the state, each tied to the last
/// event that recorded its entity; refused at the first entity no event
/// records.
pub fn embedding_documents(state: &CurrentState, events: &[ExperienceEvent]) -> (r: Result<
    Vec<EmbeddingDocument>,
    EmbeddingIndexError,
>)
    ensures
        match documents_over(
            embedded_entities(state),
            events@,
            embedded_entities(state).len() as int,
        ) {
            Ok(docs) => r matches Ok(list) && list@.map_values(
                |d: EmbeddingDocument| document_view(d),
            ) == docs && forall|i: int|
                0 <= i < list@.len() ==> (#[trigger] list@[i]).chunk_index == 0,
            Err((kind, id)) => r matches Err(
                EmbeddingIndexError::MissingProvenance { kind: k, entity_id },
            ) && k == kind && entity_id == id,
        },
{
    let entities = entities_of(state);
    let ghost all = entities@.map_values(|e: (EmbeddingEntityKind, u128, String)| entity_view(e));
    let mut documents: Vec<EmbeddingDocument> = Vec::new();
    let mut i: usize = 0;
    while i < entities.len()
        invariant
            i <= entities@.len(),
            all == entities@.map_values(|e: (EmbeddingEntityKind, u128, String)| entity_view(e)),
            all == embedded_entities(state),
            documents_over(all, events@, i as int) matches Ok(docs) && documents@.map_values(
                |d: EmbeddingDocument| document_view(d),
            ) == docs,
            forall|j: int| 0 <= j < documents@.len() ==> (#[trigger] documents@[j]).chunk_index == 0,
        decreases entities@.len() - i,
    {
        let (kind, id, text) = (entities[i].0, entities[i].1, entities[i].2.clone());
        proof {
            assert(all[i as int] == (kind, id, text@));
        }
        match provenance(events, kind, id) {
            Err(e) => {
                proof {
                    lemma_documents_refused(all, events@, i + 1, all.len() as int);
                }
                return Err(e);
            },
            Ok(source) => {
                documents.push(
                    EmbeddingDocument {
                        entity_kind: kind,
                        entity_id: id,
                        source_event_id: source,
                        text,
                        chunk_index: 0,
                    },
                );
                proof {
                    let docs = documents_over(all, events@, i as int)->Ok_0;
                    assert(documents@.map_values(|d: EmbeddingDocument| document_view(d)) =~= docs.push(
                        (kind, id, source, text@),
                    ));
                }
            },
        }
        i = i + 1;
    }
    Ok(documents)
}

/// Builds embeddings for the documents of a state: the embedding space it
/// writes to and how many documents go to the provider at once.
pub struct EmbeddingIndexer {
    space_id: String,
    batch_size: usize,
}

impl EmbeddingIndexer {
    /// An indexer writing to the space `space_id`, embedding at least one
    /// document per batch.
    pub fn new(space_id: String, batch_size: usize) -> (r: EmbeddingIndexer)
        ensures
            r.spec_space_id() == space_id@,
            r.spec_batch_size() == if batch_size == 0 {
                1
            } else {
                batch_size
            },
    {
        EmbeddingIndexer { space_id, batch_size: if batch_size == 0 { 1 } else { batch_size } }
    }

    pub closed spec fn spec_space_id(&self) -> Seq<char> {
        self.space_id@
    }

    pub closed spec fn spec_batch_size(&self) -> usize {
        self.batch_size
    }

    /// The embedding space the indexer writes to.
    pub fn space_id(&self) -> (r: &str)
        ensures
            r@ == self.spec_space_id(),
    {
        self.space_id.as_str()
    }

    /// How many documents go to the provider at once.
    pub fn batch_size(&self) -> (r: usize)
        ensures
            r == self.spec_batch_size(),
    {
        self.batch_size
    }
}

} // verus!
