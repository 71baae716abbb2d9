//! Checking what the sleep model proposes: the deliberation must stay
//! within its bounds and cite only events of its context, and each draft
//! becomes an integration candidate unless one with its fingerprint exists.
use vstd::prelude::*;
use vstd::string::*;

use crate::ids::new_id;
use crate::integration::{candidate_fingerprint, spec_candidate_fingerprint, MAX_CANDIDATE_SOURCES};
use crate::model::{
    contains_id, EventId, IntegrationCandidate, IntegrationCandidateKind, SleepRunId,
    VerificationDisposition,
};
use crate::state::CurrentState;
use crate::text::{blank, is_blank, trim, trimmed};
use vstd::utf8::encode_utf8;

verus! {

/// A candidate the sleep model drafted.
pub struct CandidateDraft {
    pub kind: IntegrationCandidateKind,
    pub content: String,
    pub rationale: String,
    pub source_event_ids: Vec<EventId>,
    pub counterevidence_event_ids: Vec<EventId>,
    pub confidence: u8,
}

/// The model's review of its own drafts.
pub struct SelfReview {
    pub weak_points: Vec<String>,
    pub possible_counterevidence_event_ids: Vec<EventId>,
}

/// What the sleep model returns for a pass.
pub struct SleepDeliberation {
    pub candidates: Vec<CandidateDraft>,
    pub draft_summary: String,
    pub self_review: SelfReview,
}

/// The bounds a deliberation is held to: how many drafts (and weak
/// points) it may hold, and how many bytes each of its texts may take.
pub struct SleepLimits {
    pub max_candidates: usize,
    pub max_text_bytes: usize,
}

/// Whether a text, trimmed, takes more UTF-8 bytes than the limit.
pub open spec fn over_text(s: Seq<char>, limits: SleepLimits) -> bool {
    encode_utf8(trim(s)).len() > limits.max_text_bytes
}

/// Why the deliberation as a whole is refused, if it is.
pub open spec fn deliberation_fault(
    d: SleepDeliberation,
    allowed: Seq<EventId>,
    limits: SleepLimits,
) -> Option<Seq<char>> {
    let review = d.self_review;
    if d.candidates@.len() > limits.max_candidates || over_text(d.draft_summary@, limits)
        || review.weak_points@.len() > limits.max_candidates
        || review.possible_counterevidence_event_ids@.len() > MAX_CANDIDATE_SOURCES || exists|
        i: int,
    | 0 <= i < review.weak_points@.len() && over_text(#[trigger] review.weak_points@[i]@, limits) {
        Some("sleep deliberation exceeds its bounds"@)
    } else if exists|i: int|
        0 <= i < review.possible_counterevidence_event_ids@.len() && !allowed.contains(
            #[trigger] review.possible_counterevidence_event_ids@[i],
        ) {
        Some("sleep self-review references an event outside the context"@)
    } else {
        None
    }
}

/// Every identifier of `ids` is among `allowed`.
pub open spec fn all_allowed(ids: Seq<EventId>, allowed: Seq<EventId>) -> bool {
    forall|i: int| 0 <= i < ids.len() ==> allowed.contains(#[trigger] ids[i])
}

/// Why a draft is refused, if it is.
pub open spec fn draft_fault(d: CandidateDraft, allowed: Seq<EventId>, limits: SleepLimits) -> Option<
    Seq<char>,
> {
    if is_blank(d.content@) || is_blank(d.rationale@) {
        Some("candidate content and rationale cannot be empty"@)
    } else if over_text(d.content@, limits) || over_text(d.rationale@, limits)
        || d.source_event_ids@.len() > MAX_CANDIDATE_SOURCES || d.counterevidence_event_ids@.len()
        > MAX_CANDIDATE_SOURCES || d.confidence > 100 {
        Some("candidate exceeds its bounds"@)
    } else if d.source_event_ids@.len() == 0 {
        Some("candidate needs at least one source event"@)
    } else if !all_allowed(d.source_event_ids@, allowed) || !all_allowed(
        d.counterevidence_event_ids@,
        allowed,
    ) {
        Some("candidate provenance references an event outside the context"@)
    } else if exists|i: int|
        0 <= i < d.source_event_ids@.len() && d.counterevidence_event_ids@.contains(
            #[trigger] d.source_event_ids@[i],
        ) {
        Some("candidate source and counterevidence overlap"@)
    } else {
        None
    }
}

/// The refusal of the first refused draft from `from` on, if any.
pub open spec fn first_draft_fault(
    drafts: Seq<CandidateDraft>,
    allowed: Seq<EventId>,
    limits: SleepLimits,
    from: int,
) -> Option<Seq<char>>
    decreases drafts.len() - from,
{
    if from < 0 || from >= drafts.len() {
        None
    } else {
        match draft_fault(drafts[from], allowed, limits) {
            Some(m) => Some(m),
            None => first_draft_fault(drafts, allowed, limits, from + 1),
        }
    }
}

/// `s`, kept in increasing order without repeats, with `x` added.
pub open spec fn insert_sorted(s: Seq<EventId>, x: EventId) -> Seq<EventId>
    decreases s.len(),
{
    if s.len() == 0 {
        seq![x]
    } else if s.last() < x {
        s.push(x)
    } else if s.last() == x {
        s
    } else {
        insert_sorted(s.drop_last(), x).push(s.last())
    }
}

/// The identifiers of `ids` in increasing order, each once.
pub open spec fn sorted_set(ids: Seq<EventId>) -> Seq<EventId>
    decreases ids.len(),
{
    if ids.len() == 0 {
        Seq::empty()
    } else {
        insert_sorted(sorted_set(ids.drop_last()), ids.last())
    }
}

/// The fingerprint of the candidate a draft becomes.
pub open spec fn draft_fingerprint(d: CandidateDraft) -> Seq<char> {
    spec_candidate_fingerprint(
        d.kind,
        trim(d.content@),
        sorted_set(d.source_event_ids@),
        sorted_set(d.counterevidence_event_ids@),
    )
}

/// The drafts (by index) that become candidates: those whose fingerprint
/// is neither `taken` nor that of an earlier kept draft.
pub open spec fn kept(drafts: Seq<CandidateDraft>, taken: Seq<Seq<char>>) -> Seq<int>
    decreases drafts.len(),
{
    if drafts.len() == 0 {
        Seq::empty()
    } else {
        let prev = kept(drafts.drop_last(), taken);
        let fp = draft_fingerprint(drafts.last());
        if taken.contains(fp) || exists|j: int|
            0 <= j < prev.len() && draft_fingerprint(drafts[#[trigger] prev[j]]) == fp {
            prev
        } else {
            prev.push(drafts.len() - 1)
        }
    }
}

/// The fingerprints of the candidates the state holds.
pub open spec fn held_fingerprints(state: &CurrentState) -> Seq<Seq<char>> {
    state.integration_candidates@.map_values(|c: IntegrationCandidate| c.fingerprint@)
}

/// `c` is the candidate `d` becomes in run `run_id` as of `as_of`: awaiting
/// validation, texts trimmed, provenance sorted without repeats, and its
/// fingerprint over those.
pub open spec fn built_from(c: IntegrationCandidate, d: CandidateDraft, run_id: SleepRunId, as_of: u64) -> bool {
    &&& c.sleep_run_id == run_id
    &&& c.kind == d.kind
    &&& c.disposition == VerificationDisposition::NeedsValidation
    &&& c.content@ == trim(d.content@)
    &&& c.rationale@ == trim(d.rationale@)
    &&& c.source_event_ids@ == sorted_set(d.source_event_ids@)
    &&& c.counterevidence_event_ids@ == sorted_set(d.counterevidence_event_ids@)
    &&& c.confidence == d.confidence
    &&& c.as_of_revision == as_of
    &&& c.fingerprint@ == draft_fingerprint(d)
}

fn text_over(s: &str, limits: &SleepLimits) -> (r: bool)
    ensures
        r == over_text(s@, *limits),
{
    let t = trimmed(s);
    t.as_str().as_bytes_vec().len() > limits.max_text_bytes
}

fn insert_id(sorted: Vec<EventId>, x: EventId) -> (r: Vec<EventId>)
    ensures
        r@ == insert_sorted(sorted@, x),
    decreases sorted@.len(),
{
    let mut sorted = sorted;
    let n = sorted.len();
    if n == 0 {
        let mut one: Vec<EventId> = Vec::new();
        one.push(x);
        proof {
            assert(one@ =~= seq![x]);
        }
        return one;
    }
    let last = sorted[n - 1];
    if last < x {
        sorted.push(x);
        sorted
    } else if last == x {
        sorted
    } else {
        let ghost before = sorted@;
        sorted.pop();
        proof {
            assert(sorted@ =~= before.drop_last());
        }
        let mut r = insert_id(sorted, x);
        r.push(last);
        r
    }
}

/// The identifiers of `ids` in increasing order, each once.
pub fn sorted_ids(ids: &Vec<EventId>) -> (r: Vec<EventId>)
    ensures
        r@ == sorted_set(ids@),
{
    let mut out: Vec<EventId> = Vec::new();
    let mut i: usize = 0;
    while i < ids.len()
        invariant
            i <= ids@.len(),
            out@ == sorted_set(ids@.subrange(0, i as int)),
        decreases ids@.len() - i,
    {
        proof {
            assert(ids@.subrange(0, i + 1).drop_last() =~= ids@.subrange(0, i as int));
        }
        out = insert_id(out, ids[i]);
        i = i + 1;
    }
    proof {
        assert(ids@.subrange(0, ids@.len() as int) =~= ids@);
    }
    out
}

fn ids_allowed(ids: &Vec<EventId>, allowed: &Vec<EventId>) -> (r: bool)
    ensures
        r == all_allowed(ids@, allowed@),
{
    let mut i: usize = 0;
    while i < ids.len()
        invariant
            i <= ids@.len(),
            forall|j: int| 0 <= j < i ==> allowed@.contains(#[trigger] ids@[j]),
        decreases ids@.len() - i,
    {
        if !contains_id(allowed, ids[i]) {
            return false;
        }
        i = i + 1;
    }
    true
}

fn any_shared(sources: &Vec<EventId>, counters: &Vec<EventId>) -> (r: bool)
    ensures
        r == exists|i: int|
            0 <= i < sources@.len() && counters@.contains(#[trigger] sources@[i]),
{
    let mut i: usize = 0;
    while i < sources.len()
        invariant
            i <= sources@.len(),
            forall|j: int| 0 <= j < i ==> !counters@.contains(#[trigger] sources@[j]),
        decreases sources@.len() - i,
    {
        if contains_id(counters, sources[i]) {
            return true;
        }
        i = i + 1;
    }
    false
}

fn any_over(items: &Vec<String>, limits: &SleepLimits) -> (r: bool)
    ensures
        r == exists|i: int| 0 <= i < items@.len() && over_text(#[trigger] items@[i]@, *limits),
{
    let mut i: usize = 0;
    while i < items.len()
        invariant
            i <= items@.len(),
            forall|j: int| 0 <= j < i ==> !over_text(#[trigger] items@[j]@, *limits),
        decreases items@.len() - i,
    {
        if text_over(items[i].as_str(), limits) {
            return true;
        }
        i = i + 1;
    }
    false
}

fn check_deliberation(d: &SleepDeliberation, allowed: &Vec<EventId>, limits: &SleepLimits) -> (r: Option<String>)
    ensures
        match r {
            Some(m) => deliberation_fault(*d, allowed@, *limits) == Some(m@),
            None => deliberation_fault(*d, allowed@, *limits) is None,
        },
{
    let review = &d.self_review;
    let weak_over = any_over(&review.weak_points, limits);
    if d.candidates.len() > limits.max_candidates || text_over(d.draft_summary.as_str(), limits)
        || review.weak_points.len() > limits.max_candidates
        || review.possible_counterevidence_event_ids.len() > MAX_CANDIDATE_SOURCES || weak_over {
        return Some("sleep deliberation exceeds its bounds".to_owned());
    }
    if !ids_allowed(&review.possible_counterevidence_event_ids, allowed) {
        return Some("sleep self-review references an event outside the context".to_owned());
    }
    None
}

fn check_draft(d: &CandidateDraft, allowed: &Vec<EventId>, limits: &SleepLimits) -> (r: Option<String>)
    ensures
        match r {
            Some(m) => draft_fault(*d, allowed@, *limits) == Some(m@),
            None => draft_fault(*d, allowed@, *limits) is None,
        },
{
    if blank(d.content.as_str()) || blank(d.rationale.as_str()) {
        return Some("candidate content and rationale cannot be empty".to_owned());
    }
    if text_over(d.content.as_str(), limits) || text_over(d.rationale.as_str(), limits)
        || d.source_event_ids.len() > MAX_CANDIDATE_SOURCES || d.counterevidence_event_ids.len()
        > MAX_CANDIDATE_SOURCES || d.confidence > 100 {
        return Some("candidate exceeds its bounds".to_owned());
    }
    if d.source_event_ids.len() == 0 {
        return Some("candidate needs at least one source event".to_owned());
    }
    if !ids_allowed(&d.source_event_ids, allowed) || !ids_allowed(
        &d.counterevidence_event_ids,
        allowed,
    ) {
        return Some("candidate provenance references an event outside the context".to_owned());
    }
    if any_shared(&d.source_event_ids, &d.counterevidence_event_ids) {
        return Some("candidate source and counterevidence overlap".to_owned());
    }
    None
}

fn fingerprint_held(state: &CurrentState, fp: &String) -> (r: bool)
    ensures
        r == held_fingerprints(state).contains(fp@),
{
    let ghost held = held_fingerprints(state);
    let mut i: usize = 0;
    while i < state.integration_candidates.len()
        invariant
            i <= state.integration_candidates@.len(),
            held == held_fingerprints(state),
            forall|j: int| 0 <= j < i ==> held[j] != fp@,
        decreases state.integration_candidates@.len() - i,
    {
        if state.integration_candidates[i].fingerprint == *fp {
            proof {
                assert(held[i as int] == fp@);
            }
            return true;
        }
        i = i + 1;
    }
    false
}


fn fingerprint_built(out: &Vec<IntegrationCandidate>, fp: &String) -> (r: bool)
    ensures
        r == exists|j: int| 0 <= j < out@.len() && (#[trigger] out@[j]).fingerprint@ == fp@,
{
    let mut i: usize = 0;
    while i < out.len()
        invariant
            i <= out@.len(),
            forall|j: int| 0 <= j < i ==> (#[trigger] out@[j]).fingerprint@ != fp@,
        decreases out@.len() - i,
    {
        if out[i].fingerprint == *fp {
            return true;
        }
        i = i + 1;
    }
    false
}

/// The candidates `out` is built from the drafts `kept` selects.
pub open spec fn builds(
    out: Seq<IntegrationCandidate>,
    drafts: Seq<CandidateDraft>,
    k: Seq<int>,
    run_id: SleepRunId,
    as_of: u64,
) -> bool {
    &&& out.len() == k.len()
    &&& forall|j: int|
        0 <= j < k.len() ==> built_from(#[trigger] out[j], drafts[k[j]], run_id, as_of)
}

/// The integration candidates a sleep deliberation proposes for run
/// `sleep_run_id` as of `as_of_revision`, where `allowed` holds the events
/// of the pass's context. The deliberation is refused when it exceeds its
/// bounds or cites an event outside the context, and at the first draft
/// refused; otherwise each draft becomes a candidate (under a fresh
/// identifier) unless a candidate with its fingerprint is held or was
/// built from an earlier draft.
pub fn validate_deliberation(
    deliberation: &SleepDeliberation,
    allowed: &Vec<EventId>,
    sleep_run_id: SleepRunId,
    as_of_revision: u64,
    state: &CurrentState,
    limits: &SleepLimits,
) -> (r: Result<Vec<IntegrationCandidate>, String>)
    ensures
        match deliberation_fault(*deliberation, allowed@, *limits) {
            Some(m) => r matches Err(e) && e@ == m,
            None => match first_draft_fault(deliberation.candidates@, allowed@, *limits, 0) {
                Some(m) => r matches Err(e) && e@ == m,
                None => r matches Ok(cs) && builds(
                    cs@,
                    deliberation.candidates@,
                    kept(deliberation.candidates@, held_fingerprints(state)),
                    sleep_run_id,
                    as_of_revision,
                ),
            },
        },
{
    match check_deliberation(deliberation, allowed, limits) {
        Some(m) => {
            return Err(m);
        },
        None => {},
    }
    let drafts = &deliberation.candidates;
    let ghost held = held_fingerprints(state);
    let mut out: Vec<IntegrationCandidate> = Vec::new();
    let mut i: usize = 0;
    while i < drafts.len()
        invariant
            i <= drafts@.len(),
            drafts@ == deliberation.candidates@,
            deliberation_fault(*deliberation, allowed@, *limits) is None,
            held == held_fingerprints(state),
            first_draft_fault(drafts@, allowed@, *limits, 0) == first_draft_fault(
                drafts@,
                allowed@,
                *limits,
                i as int,
            ),
            builds(out@, drafts@, kept(drafts@.subrange(0, i as int), held), sleep_run_id, as_of_revision),
            forall|j: int|
                0 <= j < kept(drafts@.subrange(0, i as int), held).len() ==> 0 <= #[trigger] kept(
                    drafts@.subrange(0, i as int),
                    held,
                )[j] < i,
        decreases drafts@.len() - i,
    {
        let d = &drafts[i];
        match check_draft(d, allowed, limits) {
            Some(m) => {
                proof {
                    assert(first_draft_fault(drafts@, allowed@, *limits, i as int) == Some(m@));
                }
                return Err(m);
            },
            None => {},
        }
        proof {
            assert(first_draft_fault(drafts@, allowed@, *limits, i as int) == first_draft_fault(
                drafts@,
                allowed@,
                *limits,
                i + 1,
            ));
        }
        let ghost prefix = drafts@.subrange(0, i + 1);
        let ghost prev = kept(drafts@.subrange(0, i as int), held);
        proof {
            assert(prefix.drop_last() =~= drafts@.subrange(0, i as int));
            assert(prefix.last() == drafts@[i as int]);
            assert forall|j: int| 0 <= j < prev.len() implies prefix[#[trigger] prev[j]] == drafts@[prev[j]] by {}
        }
        let content = trimmed(d.content.as_str());
        let sources = sorted_ids(&d.source_event_ids);
        let counters = sorted_ids(&d.counterevidence_event_ids);
        let fingerprint = candidate_fingerprint(d.kind, content.as_str(), &sources, &counters);
        let duplicate = fingerprint_held(state, &fingerprint) || fingerprint_built(&out, &fingerprint);
        proof {
            let fp = fingerprint@;
            assert(fp == draft_fingerprint(drafts@[i as int]));
            assert forall|j: int| 0 <= j < prev.len() implies (#[trigger] out@[j]).fingerprint@
                == draft_fingerprint(prefix[prev[j]]) by {
                assert(built_from(out@[j], drafts@[prev[j]], sleep_run_id, as_of_revision));
            }
            if exists|j: int| 0 <= j < out@.len() && (#[trigger] out@[j]).fingerprint@ == fp {
                let j = choose|j: int| 0 <= j < out@.len() && (#[trigger] out@[j]).fingerprint@ == fp;
                assert(draft_fingerprint(prefix[prev[j]]) == fp);
            }
            if exists|j: int| 0 <= j < prev.len() && draft_fingerprint(prefix[#[trigger] prev[j]]) == fp {
                let j = choose|j: int| 0 <= j < prev.len() && draft_fingerprint(prefix[#[trigger] prev[j]]) == fp;
                assert(out@[j].fingerprint@ == fp);
            }
            assert(duplicate == (held.contains(fp) || exists|j: int|
                0 <= j < prev.len() && draft_fingerprint(prefix[#[trigger] prev[j]]) == fp));
        }
        if !duplicate {
            let c = IntegrationCandidate {
                id: new_id(),
                sleep_run_id,
                kind: d.kind,
                disposition: VerificationDisposition::NeedsValidation,
                content,
                rationale: trimmed(d.rationale.as_str()),
                source_event_ids: sources,
                counterevidence_event_ids: counters,
                confidence: d.confidence,
                as_of_revision,
                fingerprint,
            };
            out.push(c);
        }
        i = i + 1;
    }
    proof {
        assert(drafts@.subrange(0, drafts@.len() as int) =~= drafts@);
    }
    Ok(out)
}


/// Strictly increasing identifiers.
pub open spec fn increasing(s: Seq<EventId>) -> bool {
    forall|i: int, j: int| 0 <= i < j < s.len() ==> s[i] < s[j]
}

proof fn lemma_insert_sorted(s: Seq<EventId>, x: EventId)
    requires
        increasing(s),
    ensures
        increasing(insert_sorted(s, x)),
        forall|y: EventId|
            #![trigger insert_sorted(s, x).contains(y)]
            #![trigger s.contains(y)]
            insert_sorted(s, x).contains(y) <==> (s.contains(y) || y == x),
    decreases s.len(),
{
    if s.len() == 0 {
        assert(insert_sorted(s, x) =~= seq![x]);
        assert forall|y: EventId| insert_sorted(s, x).contains(y) <==> (s.contains(y) || y == x) by {
            if insert_sorted(s, x).contains(y) {
                assert(insert_sorted(s, x)[0] == x);
            }
            if y == x {
                assert(insert_sorted(s, x)[0] == x);
            }
        }
    } else if s.last() < x {
        let r = s.push(x);
        assert forall|y: EventId| r.contains(y) <==> (s.contains(y) || y == x) by {
            if r.contains(y) {
                let k = choose|k: int| 0 <= k < r.len() && r[k] == y;
                if k < s.len() {
                    assert(s[k] == y);
                }
            }
            if s.contains(y) {
                let k = choose|k: int| 0 <= k < s.len() && s[k] == y;
                assert(r[k] == y);
            }
            if y == x {
                assert(r[s.len() as int] == x);
            }
        }
        assert forall|i: int, j: int| 0 <= i < j < r.len() implies r[i] < r[j] by {
            if j == s.len() {
                assert(s[i] <= s.last());
            }
        }
    } else if s.last() == x {
        assert(s.contains(s.last()));
        assert(s[s.len() - 1] == x);
    } else {
        let rest = s.drop_last();
        assert(increasing(rest));
        lemma_insert_sorted(rest, x);
        let inner = insert_sorted(rest, x);
        let r = inner.push(s.last());
        assert(r == insert_sorted(s, x));
        assert forall|y: EventId| r.contains(y) <==> (s.contains(y) || y == x) by {
            if r.contains(y) {
                let k = choose|k: int| 0 <= k < r.len() && r[k] == y;
                if k < inner.len() {
                    assert(inner.contains(y));
                    if rest.contains(y) {
                        let m = choose|m: int| 0 <= m < rest.len() && rest[m] == y;
                        assert(s[m] == y);
                    }
                } else {
                    assert(s[s.len() - 1] == y);
                }
            }
            if s.contains(y) {
                let k = choose|k: int| 0 <= k < s.len() && s[k] == y;
                if k < s.len() - 1 {
                    assert(rest[k] == y);
                    assert(rest.contains(y));
                    assert(inner.contains(y));
                    let m = choose|m: int| 0 <= m < inner.len() && inner[m] == y;
                    assert(r[m] == y);
                } else {
                    assert(r[inner.len() as int] == y);
                }
            }
            if y == x {
                assert(inner.contains(x));
                let m = choose|m: int| 0 <= m < inner.len() && inner[m] == x;
                assert(r[m] == x);
            }
        }
        assert forall|i: int, j: int| 0 <= i < j < r.len() implies r[i] < r[j] by {
            if j == inner.len() {
                assert(inner.contains(inner[i]));
                if rest.contains(inner[i]) {
                    let m = choose|m: int| 0 <= m < rest.len() && rest[m] == inner[i];
                    assert(s[m] < s[s.len() - 1]);
                }
            }
        }
    }
}

/// Sorting provenance keeps every identifier and no other, once each, in
/// increasing order.
pub proof fn lemma_sorted_set(ids: Seq<EventId>)
    ensures
        increasing(sorted_set(ids)),
        forall|x: EventId| sorted_set(ids).contains(x) <==> ids.contains(x),
    decreases ids.len(),
{
    if ids.len() > 0 {
        let rest = ids.drop_last();
        lemma_sorted_set(rest);
        lemma_insert_sorted(sorted_set(rest), ids.last());
        assert forall|x: EventId| sorted_set(ids).contains(x) <==> ids.contains(x) by {
            if rest.contains(x) {
                let k = choose|k: int| 0 <= k < rest.len() && rest[k] == x;
                assert(ids[k] == x);
            }
            if ids.contains(x) {
                let k = choose|k: int| 0 <= k < ids.len() && ids[k] == x;
                if k < ids.len() - 1 {
                    assert(rest[k] == x);
                }
            }
        }
    }
}


/// A deliberation never yields a candidate already held, nor two
/// candidates with one fingerprint: the kept drafts' fingerprints are new
/// and pairwise distinct, and the kept indices increase.
pub proof fn lemma_kept_fingerprints_fresh(drafts: Seq<CandidateDraft>, taken: Seq<Seq<char>>)
    ensures
        forall|i: int|
            0 <= i < kept(drafts, taken).len() ==> 0 <= #[trigger] kept(drafts, taken)[i] < drafts.len(),
        forall|i: int|
            0 <= i < kept(drafts, taken).len() ==> !taken.contains(
                draft_fingerprint(drafts[#[trigger] kept(drafts, taken)[i]]),
            ),
        forall|i: int, j: int|
            0 <= i < j < kept(drafts, taken).len() ==> kept(drafts, taken)[i] < kept(drafts, taken)[j]
                && draft_fingerprint(drafts[kept(drafts, taken)[i]]) != draft_fingerprint(
                drafts[kept(drafts, taken)[j]],
            ),
    decreases drafts.len(),
{
    if drafts.len() > 0 {
        let rest = drafts.drop_last();
        lemma_kept_fingerprints_fresh(rest, taken);
        let prev = kept(rest, taken);
        assert forall|i: int| 0 <= i < prev.len() implies rest[prev[i]] == drafts[prev[i]] by {}
    }
}

} // verus!
