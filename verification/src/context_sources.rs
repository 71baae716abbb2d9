//! The source references of a context snapshot: every event an item or the
//! response profile rests on, once, in identifier order, with the entity
//! that first cited it and the event's canonical hash.
use vstd::prelude::*;

use crate::context_builder::{last_of, ContextBuilderError};
use crate::integration::{intact, verify_integrity};
use crate::model::{EntityRef, EventId};
use crate::state::ExperienceEvent;

verus! {

/// A source event of a snapshot.
pub struct ContextSourceRef {
    pub event_id: EventId,
    pub entity: Option<EntityRef>,
    pub source_hash: String,
    pub as_of_revision: u64,
}

/// A citation: the entity that cites, and the event it cites.
pub struct Citation {
    pub entity: Option<EntityRef>,
    pub event_id: EventId,
}

/// Why the hash of a cited event cannot be given, if it cannot: it is
/// missing, newer than the request, or fails its integrity check.
pub open spec fn hash_fault(events: Seq<ExperienceEvent>, id: EventId, as_of: u64) -> Option<ContextBuilderError> {
    match last_of(events, id) {
        None => Some(ContextBuilderError::MissingSourceEvent { event_id: id }),
        Some(k) => if k + 1 > as_of {
            Some(ContextBuilderError::FutureEvent { event_id: id, sequence: (k + 1) as u64, as_of })
        } else if !intact(events[k]) {
            Some(ContextBuilderError::SourceHashMismatch { event_id: id })
        } else {
            None
        },
    }
}

/// The canonical hash of a cited event (the last event with its id).
pub open spec fn cited_hash(events: Seq<ExperienceEvent>, id: EventId) -> Seq<char> {
    events[last_of(events, id)->0].canonical_hash@
}

/// The fault of the first of the first `n` citations whose event's hash
/// cannot be given.
pub open spec fn first_hash_fault(events: Seq<ExperienceEvent>, cites: Seq<Citation>, as_of: u64, n: int) -> Option<
    ContextBuilderError,
>
    decreases n,
{
    if n <= 0 || n > cites.len() {
        None
    } else {
        match first_hash_fault(events, cites, as_of, n - 1) {
            Some(e) => Some(e),
            None => hash_fault(events, cites[n - 1].event_id, as_of),
        }
    }
}

/// A reference as values: event, entity.
pub type RefView = (EventId, Option<EntityRef>);

/// `refs`, ordered by event and holding each event once, with `c` added
/// unless its event is there already.
pub open spec fn insert_ref(refs: Seq<RefView>, c: RefView) -> Seq<RefView>
    decreases refs.len(),
{
    if refs.len() == 0 {
        seq![c]
    } else if refs.last().0 < c.0 {
        refs.push(c)
    } else if refs.last().0 == c.0 {
        refs
    } else {
        insert_ref(refs.drop_last(), c).push(refs.last())
    }
}

/// The references of the first `n` citations: each event once, in
/// identifier order, with the entity that cited it first.
pub open spec fn refs_of(cites: Seq<Citation>, n: int) -> Seq<RefView>
    decreases n,
{
    if n <= 0 || n > cites.len() {
        Seq::empty()
    } else {
        insert_ref(refs_of(cites, n - 1), (cites[n - 1].event_id, cites[n - 1].entity))
    }
}

pub open spec fn ref_view(r: ContextSourceRef) -> RefView {
    (r.event_id, r.entity)
}

pub open spec fn ref_views(v: Seq<ContextSourceRef>) -> Seq<RefView> {
    Seq::new(v.len(), |i: int| ref_view(v[i]))
}

fn check_hash(events: &[ExperienceEvent], id: EventId, as_of: u64) -> (r: Result<String, ContextBuilderError>)
    ensures
        match hash_fault(events@, id, as_of) {
            Some(e) => r == Err::<String, ContextBuilderError>(e),
            None => r matches Ok(h) && h@ == cited_hash(events@, id),
        },
{
    let k = match crate::context_builder::find_last(events, id) {
        Some(k) => k,
        None => {
            return Err(ContextBuilderError::MissingSourceEvent { event_id: id });
        },
    };
    let count = events.len();
    assert(k < count);
    let sequence = (k + 1) as u64;
    if sequence > as_of {
        return Err(ContextBuilderError::FutureEvent { event_id: id, sequence, as_of });
    }
    if !verify_integrity(&events[k]) {
        return Err(ContextBuilderError::SourceHashMismatch { event_id: id });
    }
    Ok(events[k].canonical_hash.clone())
}

fn insert_source(refs: Vec<ContextSourceRef>, c: ContextSourceRef) -> (r: Vec<ContextSourceRef>)
    ensures
        ref_views(r@) == insert_ref(ref_views(refs@), ref_view(c)),
        forall|i: int| 0 <= i < r@.len() ==> (exists|j: int| 0 <= j < refs@.len() && r@[i] == refs@[j]) || r@[i] == c,
    decreases refs@.len(),
{
    let mut refs = refs;
    let n = refs.len();
    let ghost before = refs@;
    if n == 0 {
        let mut one: Vec<ContextSourceRef> = Vec::new();
        one.push(c);
        proof {
            assert(ref_views(one@) =~= seq![ref_view(c)]);
        }
        return one;
    }
    let last_id = refs[n - 1].event_id;
    if last_id < c.event_id {
        refs.push(c);
        proof {
            assert(ref_views(refs@) =~= ref_views(before).push(ref_view(c)));
            assert forall|i: int| 0 <= i < refs@.len() implies (exists|j: int| 0 <= j < before.len() && refs@[i] == before[j]) || refs@[i] == c by {
                if i < before.len() {
                    assert(refs@[i] == before[i]);
                }
            }
        }
        refs
    } else if last_id == c.event_id {
        proof {
            assert forall|i: int| 0 <= i < refs@.len() implies (exists|j: int| 0 <= j < before.len() && refs@[i] == before[j]) || refs@[i] == c by {
                assert(refs@[i] == before[i]);
            }
        }
        refs
    } else {
        let last = refs.pop().unwrap();
        proof {
            assert(ref_views(refs@) =~= ref_views(before).drop_last());
            assert(ref_view(last) == ref_views(before).last());
        }
        let ghost rest = refs@;
        let mut r = insert_source(refs, c);
        let ghost inner = r@;
        r.push(last);
        proof {
            assert(ref_views(r@) =~= ref_views(inner).push(ref_view(last)));
            assert forall|i: int| 0 <= i < r@.len() implies (exists|j: int| 0 <= j < before.len() && r@[i] == before[j]) || r@[i] == c by {
                if i < inner.len() {
                    if exists|j: int| 0 <= j < rest.len() && inner[i] == rest[j] {
                        let j = choose|j: int| 0 <= j < rest.len() && inner[i] == rest[j];
                        assert(before[j] == rest[j]);
                    }
                } else {
                    assert(r@[i] == before[before.len() - 1]);
                }
            }
        }
        r
    }
}

proof fn lemma_hash_fault_stays(events: Seq<ExperienceEvent>, cites: Seq<Citation>, as_of: u64, n: int, m: int)
    requires
        0 < n <= m <= cites.len(),
        first_hash_fault(events, cites, as_of, n) is Some,
    ensures
        first_hash_fault(events, cites, as_of, m) == first_hash_fault(events, cites, as_of, n),
    decreases m - n,
{
    if m > n {
        lemma_hash_fault_stays(events, cites, as_of, n, m - 1);
    }
}

/// The source references of the citations as of `as_of`: each cited event
/// once, in identifier order, with the entity that cited it first and its
/// canonical hash; or the refusal of the first citation whose event is
/// missing, newer than the request, or fails its integrity check.
pub fn source_refs(cites: &Vec<Citation>, as_of: u64, events: &[ExperienceEvent]) -> (r: Result<
    Vec<ContextSourceRef>,
    ContextBuilderError,
>)
    ensures
        match first_hash_fault(events@, cites@, as_of, cites@.len() as int) {
            Some(e) => r == Err::<Vec<ContextSourceRef>, ContextBuilderError>(e),
            None => r matches Ok(refs) && ref_views(refs@) == refs_of(cites@, cites@.len() as int)
                && forall|i: int|
                0 <= i < refs@.len() ==> (#[trigger] refs@[i]).source_hash@ == cited_hash(
                    events@,
                    refs@[i].event_id,
                ) && refs@[i].as_of_revision == as_of,
        },
{
    let mut refs: Vec<ContextSourceRef> = Vec::new();
    let mut i: usize = 0;
    proof {
        assert(ref_views(refs@) =~= Seq::<RefView>::empty());
    }
    while i < cites.len()
        invariant
            i <= cites@.len(),
            first_hash_fault(events@, cites@, as_of, i as int) is None,
            ref_views(refs@) == refs_of(cites@, i as int),
            forall|j: int|
                0 <= j < refs@.len() ==> (#[trigger] refs@[j]).source_hash@ == cited_hash(
                    events@,
                    refs@[j].event_id,
                ) && refs@[j].as_of_revision == as_of,
        decreases cites@.len() - i,
    {
        let c = &cites[i];
        let hash = match check_hash(events, c.event_id, as_of) {
            Ok(h) => h,
            Err(e) => {
                proof {
                    lemma_hash_fault_stays(events@, cites@, as_of, i + 1, cites@.len() as int);
                }
                return Err(e);
            },
        };
        let entry = ContextSourceRef { event_id: c.event_id, entity: c.entity, source_hash: hash, as_of_revision: as_of };
        let ghost old_refs = refs@;
        refs = insert_source(refs, entry);
        proof {
            assert forall|j: int| 0 <= j < refs@.len() implies (#[trigger] refs@[j]).source_hash@ == cited_hash(
                events@,
                refs@[j].event_id,
            ) && refs@[j].as_of_revision == as_of by {
                if exists|k: int| 0 <= k < old_refs.len() && refs@[j] == old_refs[k] {
                    let k = choose|k: int| 0 <= k < old_refs.len() && refs@[j] == old_refs[k];
                    assert(old_refs[k].source_hash@ == cited_hash(events@, old_refs[k].event_id));
                }
            }
        }
        i = i + 1;
    }
    Ok(refs)
}

} // verus!
