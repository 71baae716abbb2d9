//! Integration candidates: their fingerprint and the integrity of the
//! events they rest on.
use vstd::prelude::*;

use crate::format::{hex_lower, sha256_hex_of_text, sha256_of, uuid_hyphenated, uuid_text};
use crate::model::{EventId, IntegrationCandidateKind};
use crate::state::ExperienceEvent;
use vstd::utf8::encode_utf8;

verus! {

/// The most source (or counterevidence) events a candidate may name.
pub const MAX_CANDIDATE_SOURCES: usize = 32;

/// The name of a candidate kind.
pub open spec fn candidate_kind_name(kind: IntegrationCandidateKind) -> Seq<char> {
    match kind {
        IntegrationCandidateKind::Memory => "memory"@,
        IntegrationCandidateKind::Association => "association"@,
        IntegrationCandidateKind::Position => "position"@,
        IntegrationCandidateKind::Conflict => "conflict"@,
        IntegrationCandidateKind::Relationship => "relationship"@,
        IntegrationCandidateKind::Identity => "identity"@,
        IntegrationCandidateKind::Goal => "goal"@,
    }
}

/// The identifiers as `:<tag>/<uuid>` pieces, one after another.
pub open spec fn tagged_ids(tag: Seq<char>, ids: Seq<EventId>) -> Seq<char>
    decreases ids.len(),
{
    if ids.len() == 0 {
        Seq::empty()
    } else {
        tagged_ids(tag, ids.drop_last()) + ":"@ + tag + "/"@ + uuid_hyphenated(ids.last())
    }
}

/// The canonical text of a candidate: its kind, content, sources and
/// counterevidence.
pub open spec fn candidate_text(
    kind: IntegrationCandidateKind,
    content: Seq<char>,
    sources: Seq<EventId>,
    counters: Seq<EventId>,
) -> Seq<char> {
    "integration:"@ + candidate_kind_name(kind) + ":"@ + content + tagged_ids("source"@, sources)
        + tagged_ids("counter"@, counters)
}

/// The fingerprint of a candidate: the lower-case hex SHA-256 of the UTF-8
/// bytes of its canonical text. Two candidates with the same fingerprint
/// propose the same change on the same grounds.
pub open spec fn spec_candidate_fingerprint(
    kind: IntegrationCandidateKind,
    content: Seq<char>,
    sources: Seq<EventId>,
    counters: Seq<EventId>,
) -> Seq<char> {
    hex_lower(sha256_of(encode_utf8(candidate_text(kind, content, sources, counters))))
}

fn append_tagged(out: &mut String, tag: &str, ids: &Vec<EventId>)
    ensures
        final(out)@ == old(out)@ + tagged_ids(tag@, ids@),
{
    let ghost start = out@;
    let mut i: usize = 0;
    while i < ids.len()
        invariant
            i <= ids@.len(),
            out@ == start + tagged_ids(tag@, ids@.subrange(0, i as int)),
        decreases ids@.len() - i,
    {
        proof {
            let next = ids@.subrange(0, i + 1);
            assert(next.drop_last() =~= ids@.subrange(0, i as int));
            assert(next.last() == ids@[i as int]);
        }
        out.append(":");
        out.append(tag);
        out.append("/");
        out.append(uuid_text(ids[i]).as_str());
        proof {
            let next = ids@.subrange(0, i + 1);
            assert(out@ =~= start + tagged_ids(tag@, next));
        }
        i = i + 1;
    }
    proof {
        assert(ids@.subrange(0, ids@.len() as int) =~= ids@);
    }
}

/// The fingerprint of a candidate.
pub fn candidate_fingerprint(
    kind: IntegrationCandidateKind,
    content: &str,
    sources: &Vec<EventId>,
    counters: &Vec<EventId>,
) -> (r: String)
    ensures
        r@ == spec_candidate_fingerprint(kind, content@, sources@, counters@),
{
    let mut text = "integration:".to_owned();
    text.append(
        match kind {
            IntegrationCandidateKind::Memory => "memory",
            IntegrationCandidateKind::Association => "association",
            IntegrationCandidateKind::Position => "position",
            IntegrationCandidateKind::Conflict => "conflict",
            IntegrationCandidateKind::Relationship => "relationship",
            IntegrationCandidateKind::Identity => "identity",
            IntegrationCandidateKind::Goal => "goal",
        },
    );
    text.append(":");
    text.append(content);
    append_tagged(&mut text, "source", sources);
    append_tagged(&mut text, "counter", counters);
    sha256_hex_of_text(text.as_str())
}

/// Whether an event passes its integrity check: it carries no recorded
/// hash, or the recorded hash is the hash of its canonical encoding.
pub open spec fn intact(e: ExperienceEvent) -> bool {
    e.integrity_hash@.len() == 0 || e.integrity_hash@ == e.canonical_hash@
}

/// Whether an event passes its integrity check.
pub fn verify_integrity(e: &ExperienceEvent) -> (r: bool)
    ensures
        r == intact(*e),
{
    e.integrity_hash.as_str().is_empty() || e.integrity_hash == e.canonical_hash
}

/// The hash evidence of an event names: the recorded hash, else the hash
/// of its canonical encoding.
pub open spec fn source_hash_of(e: ExperienceEvent) -> Seq<char> {
    if e.integrity_hash@.len() == 0 {
        e.canonical_hash@
    } else {
        e.integrity_hash@
    }
}

/// The recorded hash of an event if it has one, else the hash of its
/// canonical encoding.
pub open spec fn source_hash_text(e: ExperienceEvent) -> String {
    if e.integrity_hash@.len() == 0 {
        e.canonical_hash
    } else {
        e.integrity_hash
    }
}

/// The hash evidence of an event names.
pub fn event_source_hash(e: &ExperienceEvent) -> (r: String)
    ensures
        r@ == source_hash_of(*e),
        r == source_hash_text(*e),
{
    if e.integrity_hash.as_str().is_empty() {
        e.canonical_hash.clone()
    } else {
        e.integrity_hash.clone()
    }
}

} // verus!
