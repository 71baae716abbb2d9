//! The response profile of a principal: the preferences HEKATE follows when
//! it answers, derived from the principal's active explicit-preference
//! memories, each key decided by the memory with the most recent authority.
use vstd::prelude::*;

use crate::json::{field_named, field_view, find_field, json_object_fields, parse_json_object, JsonField};
use crate::state::{CurrentState, EventKind, ExperienceEvent};
use crate::model::{
    ActiveMemory, ActiveMemoryStatus, EventId, MemoryId, MemoryKind, PrincipalId, RelationshipId,
    TaskId,
};
use crate::text::{trim, trimmed};
use crate::format::{decimal, decimal_text, hex_lower, sha256_hex_of_text, sha256_of, uuid_hyphenated, uuid_text};
use vstd::utf8::encode_utf8;

verus! {

#[derive(Clone, Copy, Debug, PartialEq, Eq, Structural)]
pub enum ResponseVerbosity {
    Compact,
    Balanced,
    Detailed,
}

#[derive(Clone, Copy, Debug, PartialEq, Eq, Structural)]
pub enum ResponseStepSize {
    Small,
    Balanced,
    Large,
}

#[derive(Clone, Copy, Debug, PartialEq, Eq, Structural)]
pub enum ProgressVisibility {
    Minimal,
    Normal,
    Explicit,
}

#[derive(Clone, Copy, Debug, PartialEq, Eq, Structural)]
pub enum TechnicalDepth {
    Low,
    Balanced,
    High,
}

#[derive(Clone, Copy, Debug, PartialEq, Eq, Structural)]
pub enum ResponseFormatPreference {
    Natural,
    Markdown,
    Structured,
}

/// The aspect of a response a preference is about.
#[derive(Clone, Copy, Debug, PartialEq, Eq, Structural)]
pub enum ResponsePreferenceKey {
    Language,
    Verbosity,
    StepSize,
    ProgressVisibility,
    NextActionFirst,
    TechnicalDepth,
    PreferredFormat,
}

/// The value a preference memory gives its key.
pub enum PreferenceValue {
    Language(String),
    Verbosity(ResponseVerbosity),
    StepSize(ResponseStepSize),
    ProgressVisibility(ProgressVisibility),
    NextActionFirst(bool),
    TechnicalDepth(TechnicalDepth),
    PreferredFormat(ResponseFormatPreference),
}

/// The plain value of a preference, with the language as its characters.
pub enum PreferenceView {
    Language(Seq<char>),
    Verbosity(ResponseVerbosity),
    StepSize(ResponseStepSize),
    ProgressVisibility(ProgressVisibility),
    NextActionFirst(bool),
    TechnicalDepth(TechnicalDepth),
    PreferredFormat(ResponseFormatPreference),
}

pub open spec fn value_view(v: PreferenceValue) -> PreferenceView {
    match v {
        PreferenceValue::Language(s) => PreferenceView::Language(s@),
        PreferenceValue::Verbosity(x) => PreferenceView::Verbosity(x),
        PreferenceValue::StepSize(x) => PreferenceView::StepSize(x),
        PreferenceValue::ProgressVisibility(x) => PreferenceView::ProgressVisibility(x),
        PreferenceValue::NextActionFirst(x) => PreferenceView::NextActionFirst(x),
        PreferenceValue::TechnicalDepth(x) => PreferenceView::TechnicalDepth(x),
        PreferenceValue::PreferredFormat(x) => PreferenceView::PreferredFormat(x),
    }
}

/// The key a preference value is for.
pub open spec fn key_of(v: PreferenceView) -> ResponsePreferenceKey {
    match v {
        PreferenceView::Language(_) => ResponsePreferenceKey::Language,
        PreferenceView::Verbosity(_) => ResponsePreferenceKey::Verbosity,
        PreferenceView::StepSize(_) => ResponsePreferenceKey::StepSize,
        PreferenceView::ProgressVisibility(_) => ResponsePreferenceKey::ProgressVisibility,
        PreferenceView::NextActionFirst(_) => ResponsePreferenceKey::NextActionFirst,
        PreferenceView::TechnicalDepth(_) => ResponsePreferenceKey::TechnicalDepth,
        PreferenceView::PreferredFormat(_) => ResponsePreferenceKey::PreferredFormat,
    }
}

/// Whether a language tag is acceptable: 1 to 35 ASCII letters, digits and
/// hyphens, not starting or ending with a hyphen, with no two hyphens in a
/// row.
pub open spec fn valid_language(t: Seq<char>) -> bool {
    &&& 0 < t.len() <= 35
    &&& t[0] != '-'
    &&& t.last() != '-'
    &&& forall|i: int|
        0 <= i < t.len() ==> ('a' <= #[trigger] t[i] <= 'z' || 'A' <= t[i] <= 'Z' || '0' <= t[i]
            <= '9' || t[i] == '-')
    &&& !(exists|i: int| 0 <= i < t.len() - 1 && #[trigger] t[i] == '-' && t[i + 1] == '-')
}

/// The value a preference text gives its key, if it is one of the key's
/// accepted words.
pub open spec fn word_value(key: ResponsePreferenceKey, w: Seq<char>) -> Option<PreferenceView> {
    match key {
        ResponsePreferenceKey::Verbosity => if w == "compact"@ {
            Some(PreferenceView::Verbosity(ResponseVerbosity::Compact))
        } else if w == "balanced"@ {
            Some(PreferenceView::Verbosity(ResponseVerbosity::Balanced))
        } else if w == "detailed"@ {
            Some(PreferenceView::Verbosity(ResponseVerbosity::Detailed))
        } else {
            None
        },
        ResponsePreferenceKey::StepSize => if w == "small"@ {
            Some(PreferenceView::StepSize(ResponseStepSize::Small))
        } else if w == "balanced"@ {
            Some(PreferenceView::StepSize(ResponseStepSize::Balanced))
        } else if w == "large"@ {
            Some(PreferenceView::StepSize(ResponseStepSize::Large))
        } else {
            None
        },
        ResponsePreferenceKey::ProgressVisibility => if w == "minimal"@ {
            Some(PreferenceView::ProgressVisibility(ProgressVisibility::Minimal))
        } else if w == "normal"@ {
            Some(PreferenceView::ProgressVisibility(ProgressVisibility::Normal))
        } else if w == "explicit"@ {
            Some(PreferenceView::ProgressVisibility(ProgressVisibility::Explicit))
        } else {
            None
        },
        ResponsePreferenceKey::TechnicalDepth => if w == "low"@ {
            Some(PreferenceView::TechnicalDepth(TechnicalDepth::Low))
        } else if w == "balanced"@ {
            Some(PreferenceView::TechnicalDepth(TechnicalDepth::Balanced))
        } else if w == "high"@ {
            Some(PreferenceView::TechnicalDepth(TechnicalDepth::High))
        } else {
            None
        },
        ResponsePreferenceKey::PreferredFormat => if w == "natural"@ {
            Some(PreferenceView::PreferredFormat(ResponseFormatPreference::Natural))
        } else if w == "markdown"@ {
            Some(PreferenceView::PreferredFormat(ResponseFormatPreference::Markdown))
        } else if w == "structured"@ {
            Some(PreferenceView::PreferredFormat(ResponseFormatPreference::Structured))
        } else {
            None
        },
        _ => None,
    }
}

/// The key a preference names, if it names one.
pub open spec fn key_named(name: Seq<char>) -> Option<ResponsePreferenceKey> {
    if name == "language"@ {
        Some(ResponsePreferenceKey::Language)
    } else if name == "verbosity"@ {
        Some(ResponsePreferenceKey::Verbosity)
    } else if name == "step_size"@ {
        Some(ResponsePreferenceKey::StepSize)
    } else if name == "progress_visibility"@ {
        Some(ResponsePreferenceKey::ProgressVisibility)
    } else if name == "next_action_first"@ {
        Some(ResponsePreferenceKey::NextActionFirst)
    } else if name == "technical_depth"@ {
        Some(ResponsePreferenceKey::TechnicalDepth)
    } else if name == "preferred_format"@ {
        Some(ResponsePreferenceKey::PreferredFormat)
    } else {
        None
    }
}

/// The schema a preference memory's content names.
pub open spec fn preference_schema() -> Seq<char> {
    "hekate.response_preference.v1"@
}

/// The preference a memory's content states: a JSON object of exactly the
/// fields `schema` (this schema), `key` (a known key) and `value` (a value
/// the key accepts).
pub open spec fn parsed_preference(content: Seq<char>) -> Option<PreferenceView> {
    match json_object_fields(content) {
        None => None,
        Some(fields) => if fields.len() != 3 {
            None
        } else {
            match (
                field_named(fields, "schema"@, 0),
                field_named(fields, "key"@, 0),
                field_named(fields, "value"@, 0),
            ) {
                (Some(schema), Some(key), Some(value)) => if schema.1 != Some(preference_schema()) {
                    None
                } else {
                    match key.1 {
                        None => None,
                        Some(name) => match key_named(name) {
                            None => None,
                            Some(ResponsePreferenceKey::Language) => match value.1 {
                                Some(text) => if valid_language(trim(text)) {
                                    Some(PreferenceView::Language(trim(text)))
                                } else {
                                    None
                                },
                                None => None,
                            },
                            Some(ResponsePreferenceKey::NextActionFirst) => match value.2 {
                                Some(flag) => Some(PreferenceView::NextActionFirst(flag)),
                                None => None,
                            },
                            Some(k) => match value.1 {
                                Some(w) => word_value(k, w),
                                None => None,
                            },
                        },
                    }
                },
                _ => None,
            }
        },
    }
}

fn language_ok(t: &Vec<char>) -> (r: bool)
    ensures
        r == valid_language(t@),
{
    let n = t.len();
    if n == 0 || n > 35 || t[0] == '-' || t[n - 1] == '-' {
        return false;
    }
    let mut i: usize = 0;
    while i < n
        invariant
            n == t@.len(),
            0 < n <= 35,
            i <= n,
            forall|j: int|
                0 <= j < i ==> ('a' <= #[trigger] t@[j] <= 'z' || 'A' <= t@[j] <= 'Z' || '0'
                    <= t@[j] <= '9' || t@[j] == '-'),
            forall|j: int| 0 <= j < i && j < n - 1 ==> !(#[trigger] t@[j] == '-' && t@[j + 1] == '-'),
        decreases n - i,
    {
        let c = t[i];
        if !(('a' <= c && c <= 'z') || ('A' <= c && c <= 'Z') || ('0' <= c && c <= '9') || c
            == '-') {
            return false;
        }
        if i + 1 < n && c == '-' && t[i + 1] == '-' {
            return false;
        }
        i = i + 1;
    }
    true
}

fn word_value_of(key: ResponsePreferenceKey, w: &str) -> (r: Option<PreferenceValue>)
    ensures
        match r {
            Some(v) => word_value(key, w@) == Some(value_view(v)),
            None => word_value(key, w@) is None,
        },
{
    let s = w.to_owned();
    match key {
        ResponsePreferenceKey::Verbosity => if s == "compact".to_owned() {
            Some(PreferenceValue::Verbosity(ResponseVerbosity::Compact))
        } else if s == "balanced".to_owned() {
            Some(PreferenceValue::Verbosity(ResponseVerbosity::Balanced))
        } else if s == "detailed".to_owned() {
            Some(PreferenceValue::Verbosity(ResponseVerbosity::Detailed))
        } else {
            None
        },
        ResponsePreferenceKey::StepSize => if s == "small".to_owned() {
            Some(PreferenceValue::StepSize(ResponseStepSize::Small))
        } else if s == "balanced".to_owned() {
            Some(PreferenceValue::StepSize(ResponseStepSize::Balanced))
        } else if s == "large".to_owned() {
            Some(PreferenceValue::StepSize(ResponseStepSize::Large))
        } else {
            None
        },
        ResponsePreferenceKey::ProgressVisibility => if s == "minimal".to_owned() {
            Some(PreferenceValue::ProgressVisibility(ProgressVisibility::Minimal))
        } else if s == "normal".to_owned() {
            Some(PreferenceValue::ProgressVisibility(ProgressVisibility::Normal))
        } else if s == "explicit".to_owned() {
            Some(PreferenceValue::ProgressVisibility(ProgressVisibility::Explicit))
        } else {
            None
        },
        ResponsePreferenceKey::TechnicalDepth => if s == "low".to_owned() {
            Some(PreferenceValue::TechnicalDepth(TechnicalDepth::Low))
        } else if s == "balanced".to_owned() {
            Some(PreferenceValue::TechnicalDepth(TechnicalDepth::Balanced))
        } else if s == "high".to_owned() {
            Some(PreferenceValue::TechnicalDepth(TechnicalDepth::High))
        } else {
            None
        },
        ResponsePreferenceKey::PreferredFormat => if s == "natural".to_owned() {
            Some(PreferenceValue::PreferredFormat(ResponseFormatPreference::Natural))
        } else if s == "markdown".to_owned() {
            Some(PreferenceValue::PreferredFormat(ResponseFormatPreference::Markdown))
        } else if s == "structured".to_owned() {
            Some(PreferenceValue::PreferredFormat(ResponseFormatPreference::Structured))
        } else {
            None
        },
        _ => None,
    }
}

fn key_named_of(name: &str) -> (r: Option<ResponsePreferenceKey>)
    ensures
        r == key_named(name@),
{
    let s = name.to_owned();
    if s == "language".to_owned() {
        Some(ResponsePreferenceKey::Language)
    } else if s == "verbosity".to_owned() {
        Some(ResponsePreferenceKey::Verbosity)
    } else if s == "step_size".to_owned() {
        Some(ResponsePreferenceKey::StepSize)
    } else if s == "progress_visibility".to_owned() {
        Some(ResponsePreferenceKey::ProgressVisibility)
    } else if s == "next_action_first".to_owned() {
        Some(ResponsePreferenceKey::NextActionFirst)
    } else if s == "technical_depth".to_owned() {
        Some(ResponsePreferenceKey::TechnicalDepth)
    } else if s == "preferred_format".to_owned() {
        Some(ResponsePreferenceKey::PreferredFormat)
    } else {
        None
    }
}

/// The preference a memory's content states, if it states one.
pub fn parse_preference(content: &str) -> (r: Option<PreferenceValue>)
    ensures
        match r {
            Some(v) => parsed_preference(content@) == Some(value_view(v)),
            None => parsed_preference(content@) is None,
        },
{
    let fields = match parse_json_object(content) {
        None => {
            return None;
        },
        Some(fields) => fields,
    };
    let ghost view = fields@.map_values(|f: JsonField| field_view(f));
    if fields.len() != 3 {
        return None;
    }
    let schema = match find_field(&fields, "schema") {
        None => {
            return None;
        },
        Some(f) => f,
    };
    let key = match find_field(&fields, "key") {
        None => {
            return None;
        },
        Some(f) => f,
    };
    let value = match find_field(&fields, "value") {
        None => {
            return None;
        },
        Some(f) => f,
    };
    match &schema.text {
        None => {
            return None;
        },
        Some(text) => {
            if *text != "hekate.response_preference.v1".to_owned() {
                return None;
            }
        },
    }
    let name = match &key.text {
        None => {
            return None;
        },
        Some(name) => name,
    };
    let k = match key_named_of(name.as_str()) {
        None => {
            return None;
        },
        Some(k) => k,
    };
    match k {
        ResponsePreferenceKey::Language => match &value.text {
            None => None,
            Some(text) => {
                let tag = trimmed(text.as_str());
                let chars = crate::text::chars_of(tag.as_str());
                if language_ok(&chars) {
                    Some(PreferenceValue::Language(tag))
                } else {
                    None
                }
            },
        },
        ResponsePreferenceKey::NextActionFirst => match value.flag {
            None => None,
            Some(flag) => Some(PreferenceValue::NextActionFirst(flag)),
        },
        _ => match &value.text {
            None => None,
            Some(w) => word_value_of(k, w.as_str()),
        },
    }
}


/// The sequence (position from 1) of the last event with this identifier
/// among the first `n` events that lie within `as_of`, or 0.
pub open spec fn sequence_of(events: Seq<ExperienceEvent>, as_of: u64, id: EventId, n: int) -> nat
    decreases n,
{
    if n <= 0 || n > events.len() {
        0
    } else if n <= as_of && events[n - 1].event_id == id {
        n as nat
    } else {
        sequence_of(events, as_of, id, n - 1)
    }
}

/// The latest source event of a memory among its first `k` sources: the
/// highest sequence, then the highest identifier; sources outside the
/// ledger as of `as_of` are ignored.
pub open spec fn best_source(
    events: Seq<ExperienceEvent>,
    as_of: u64,
    ids: Seq<EventId>,
    k: int,
) -> Option<(EventId, nat)>
    decreases k,
{
    if k <= 0 || k > ids.len() {
        None
    } else {
        let previous = best_source(events, as_of, ids, k - 1);
        let id = ids[k - 1];
        let s = sequence_of(events, as_of, id, events.len() as int);
        if s == 0 {
            previous
        } else {
            match previous {
                None => Some((id, s)),
                Some((pid, ps)) => if ps > s || (ps == s && pid > id) {
                    previous
                } else {
                    Some((id, s))
                },
            }
        }
    }
}

/// Whether the event at position `i` is a lifecycle event of the memory
/// (promoted, superseded or expired, with the memory as subject) that lies
/// within `as_of` and is the last event with its identifier there.
pub open spec fn lifecycle_at(events: Seq<ExperienceEvent>, as_of: u64, memory_id: MemoryId, i: int) -> bool {
    &&& 0 <= i < events.len()
    &&& i + 1 <= as_of
    &&& sequence_of(events, as_of, events[i].event_id, events.len() as int) == i + 1
    &&& (events[i].event_kind == EventKind::MemoryPromoted || events[i].event_kind
        == EventKind::MemorySuperseded || events[i].event_kind == EventKind::MemoryExpired)
    &&& events[i].subject is Some
    &&& events[i].subject->0.id == memory_id
}

/// The last lifecycle event of the memory among the first `n` events.
pub open spec fn last_lifecycle(events: Seq<ExperienceEvent>, as_of: u64, memory_id: MemoryId, n: int) -> Option<
    (EventId, nat),
>
    decreases n,
{
    if n <= 0 {
        None
    } else if lifecycle_at(events, as_of, memory_id, n - 1) {
        Some((events[n - 1].event_id, n as nat))
    } else {
        last_lifecycle(events, as_of, memory_id, n - 1)
    }
}

/// A memory's provenance as of `as_of`: its source event (its latest source,
/// else its latest lifecycle event), the revision of the memory (its latest
/// lifecycle event, else the source) and the source's sequence.
pub open spec fn provenance_of(events: Seq<ExperienceEvent>, as_of: u64, m: ActiveMemory) -> Option<
    (EventId, nat, nat),
> {
    let source = best_source(events, as_of, m.source_event_ids@, m.source_event_ids@.len() as int);
    let life = last_lifecycle(events, as_of, m.id, events.len() as int);
    let chosen = if source is Some {
        source
    } else {
        life
    };
    match chosen {
        None => None,
        Some((id, s)) => Some(
            (
                id,
                match life {
                    Some((_, l)) => l,
                    None => s,
                },
                s,
            ),
        ),
    }
}

fn sequence_in(events: &[ExperienceEvent], as_of: u64, id: EventId) -> (r: u64)
    ensures
        r == sequence_of(events@, as_of, id, events@.len() as int),
{
    let mut n: usize = events.len();
    while n > 0
        invariant
            n <= events@.len(),
            sequence_of(events@, as_of, id, events@.len() as int) == sequence_of(
                events@,
                as_of,
                id,
                n as int,
            ),
        decreases n,
    {
        if (n as u64) <= as_of && events[n - 1].event_id == id {
            return n as u64;
        }
        n = n - 1;
    }
    0
}

fn last_lifecycle_in(events: &[ExperienceEvent], as_of: u64, memory_id: MemoryId) -> (r: Option<
    (EventId, u64),
>)
    ensures
        match r {
            Some((id, s)) => last_lifecycle(events@, as_of, memory_id, events@.len() as int) == Some(
                (id, s as nat),
            ),
            None => last_lifecycle(events@, as_of, memory_id, events@.len() as int) is None,
        },
{
    let mut n: usize = events.len();
    while n > 0
        invariant
            n <= events@.len(),
            last_lifecycle(events@, as_of, memory_id, events@.len() as int) == last_lifecycle(
                events@,
                as_of,
                memory_id,
                n as int,
            ),
        decreases n,
    {
        let event = &events[n - 1];
        let kind_ok = event.event_kind == EventKind::MemoryPromoted || event.event_kind
            == EventKind::MemorySuperseded || event.event_kind == EventKind::MemoryExpired;
        let subject_ok = match event.subject {
            Some(subject) => subject.id == memory_id,
            None => false,
        };
        if (n as u64) <= as_of && kind_ok && subject_ok && sequence_in(events, as_of, event.event_id)
            == n as u64 {
            return Some((event.event_id, n as u64));
        }
        n = n - 1;
    }
    None
}

fn provenance(events: &[ExperienceEvent], as_of: u64, m: &ActiveMemory) -> (r: Option<
    (EventId, u64, u64),
>)
    ensures
        match r {
            Some((id, revision, s)) => provenance_of(events@, as_of, *m) == Some(
                (id, revision as nat, s as nat),
            ),
            None => provenance_of(events@, as_of, *m) is None,
        },
{
    let mut source: Option<(EventId, u64)> = None;
    let mut k: usize = 0;
    while k < m.source_event_ids.len()
        invariant
            k <= m.source_event_ids@.len(),
            match source {
                Some((id, s)) => best_source(events@, as_of, m.source_event_ids@, k as int) == Some(
                    (id, s as nat),
                ),
                None => best_source(events@, as_of, m.source_event_ids@, k as int) is None,
            },
        decreases m.source_event_ids@.len() - k,
    {
        let id = m.source_event_ids[k];
        let s = sequence_in(events, as_of, id);
        if s != 0 {
            source = match source {
                None => Some((id, s)),
                Some((pid, ps)) => if ps > s || (ps == s && pid > id) {
                    Some((pid, ps))
                } else {
                    Some((id, s))
                },
            };
        }
        k = k + 1;
    }
    let life = last_lifecycle_in(events, as_of, m.id);
    let chosen = match source {
        Some(x) => Some(x),
        None => life,
    };
    match chosen {
        None => None,
        Some((id, s)) => Some(
            (
                id,
                match life {
                    Some((_, l)) => l,
                    None => s,
                },
                s,
            ),
        ),
    }
}


/// A candidate preference: its value, the memory stating it, that memory's
/// source event, revision and source sequence.
pub type CandidateView = (PreferenceView, MemoryId, EventId, nat, nat);

/// The candidate a memory gives the principal's profile as of `as_of`: an
/// active memory about the principal, of an explicit preference, that
/// states one and whose provenance lies in the ledger.
pub open spec fn candidate_of(
    events: Seq<ExperienceEvent>,
    principal_id: PrincipalId,
    as_of: u64,
    m: ActiveMemory,
) -> Option<CandidateView> {
    if m.status != ActiveMemoryStatus::Active || m.subject_principal_id != Some(principal_id)
        || m.kind != MemoryKind::ExplicitPreference {
        None
    } else {
        match parsed_preference(m.content@) {
            None => None,
            Some(v) => match provenance_of(events, as_of, m) {
                None => None,
                Some((source, revision, s)) => Some((v, m.id, source, revision, s)),
            },
        }
    }
}

/// The candidates of the first `n` memories, in table order.
pub open spec fn candidates_over(
    memories: Seq<ActiveMemory>,
    events: Seq<ExperienceEvent>,
    principal_id: PrincipalId,
    as_of: u64,
    n: int,
) -> Seq<CandidateView>
    decreases n,
{
    if n <= 0 || n > memories.len() {
        Seq::empty()
    } else {
        let previous = candidates_over(memories, events, principal_id, as_of, n - 1);
        match candidate_of(events, principal_id, as_of, memories[n - 1]) {
            Some(c) => previous.push(c),
            None => previous,
        }
    }
}

/// The report's tally over the first `n` memories: active memories
/// considered, and those ignored for another scope, for not being an
/// explicit preference, and for a malformed content or provenance.
pub open spec fn tally_over(
    memories: Seq<ActiveMemory>,
    events: Seq<ExperienceEvent>,
    principal_id: PrincipalId,
    as_of: u64,
    n: int,
) -> (nat, nat, nat, nat)
    decreases n,
{
    if n <= 0 || n > memories.len() {
        (0, 0, 0, 0)
    } else {
        let (considered, scope, kind, malformed) = tally_over(
            memories,
            events,
            principal_id,
            as_of,
            n - 1,
        );
        let m = memories[n - 1];
        if m.status != ActiveMemoryStatus::Active {
            (considered, scope, kind, malformed)
        } else if m.subject_principal_id != Some(principal_id) {
            (considered + 1, scope + 1, kind, malformed)
        } else if m.kind != MemoryKind::ExplicitPreference {
            (considered + 1, scope, kind + 1, malformed)
        } else if candidate_of(events, principal_id, as_of, m) is None {
            (considered + 1, scope, kind, malformed + 1)
        } else {
            (considered + 1, scope, kind, malformed)
        }
    }
}

/// Whether candidate `a` has more authority than `b`: a later memory
/// revision, then a later source event, then (the memory identifiers'
/// hyphenated lower-case hex texts ordering as the identifiers do) the
/// smaller memory identifier.
pub open spec fn outranks(a: CandidateView, b: CandidateView) -> bool {
    a.3 > b.3 || (a.3 == b.3 && (a.4 > b.4 || (a.4 == b.4 && a.1 < b.1)))
}

/// The candidate that decides `key` among the first `n`: the one with most
/// authority, the later one on a tie.
pub open spec fn winner(cands: Seq<CandidateView>, key: ResponsePreferenceKey, n: int) -> Option<
    CandidateView,
>
    decreases n,
{
    if n <= 0 || n > cands.len() {
        None
    } else {
        let previous = winner(cands, key, n - 1);
        let c = cands[n - 1];
        if key_of(c.0) != key {
            previous
        } else {
            match previous {
                None => Some(c),
                Some(p) => if outranks(p, c) {
                    previous
                } else {
                    Some(c)
                },
            }
        }
    }
}

/// Whether the candidates disagree on `key`.
pub open spec fn conflicted(cands: Seq<CandidateView>, key: ResponsePreferenceKey) -> bool {
    exists|i: int, j: int|
        0 <= i < cands.len() && 0 <= j < cands.len() && key_of(cands[i].0) == key && key_of(
            cands[j].0,
        ) == key && #[trigger] cands[i].0 != #[trigger] cands[j].0
}

/// A candidate preference held for the resolution.
pub struct PreferenceCandidate {
    pub value: PreferenceValue,
    pub memory_id: MemoryId,
    pub source_event_id: EventId,
    pub revision: u64,
    pub source_sequence: u64,
}

pub open spec fn candidate_view(c: PreferenceCandidate) -> CandidateView {
    (value_view(c.value), c.memory_id, c.source_event_id, c.revision as nat, c.source_sequence as nat)
}

fn key_of_value(v: &PreferenceValue) -> (r: ResponsePreferenceKey)
    ensures
        r == key_of(value_view(*v)),
{
    match v {
        PreferenceValue::Language(_) => ResponsePreferenceKey::Language,
        PreferenceValue::Verbosity(_) => ResponsePreferenceKey::Verbosity,
        PreferenceValue::StepSize(_) => ResponsePreferenceKey::StepSize,
        PreferenceValue::ProgressVisibility(_) => ResponsePreferenceKey::ProgressVisibility,
        PreferenceValue::NextActionFirst(_) => ResponsePreferenceKey::NextActionFirst,
        PreferenceValue::TechnicalDepth(_) => ResponsePreferenceKey::TechnicalDepth,
        PreferenceValue::PreferredFormat(_) => ResponsePreferenceKey::PreferredFormat,
    }
}

fn same_value(a: &PreferenceValue, b: &PreferenceValue) -> (r: bool)
    ensures
        r == (value_view(*a) == value_view(*b)),
{
    match (a, b) {
        (PreferenceValue::Language(x), PreferenceValue::Language(y)) => *x == *y,
        (PreferenceValue::Verbosity(x), PreferenceValue::Verbosity(y)) => *x == *y,
        (PreferenceValue::StepSize(x), PreferenceValue::StepSize(y)) => *x == *y,
        (PreferenceValue::ProgressVisibility(x), PreferenceValue::ProgressVisibility(y)) => *x == *y,
        (PreferenceValue::NextActionFirst(x), PreferenceValue::NextActionFirst(y)) => *x == *y,
        (PreferenceValue::TechnicalDepth(x), PreferenceValue::TechnicalDepth(y)) => *x == *y,
        (PreferenceValue::PreferredFormat(x), PreferenceValue::PreferredFormat(y)) => *x == *y,
        _ => false,
    }
}

/// The candidate deciding `key`, by position, and whether the candidates
/// disagree on it.
fn decide(cands: &Vec<PreferenceCandidate>, key: ResponsePreferenceKey) -> (r: (Option<usize>, bool))
    ensures
        match r.0 {
            Some(i) => i < cands@.len() && winner(
                cands@.map_values(|c: PreferenceCandidate| candidate_view(c)),
                key,
                cands@.len() as int,
            ) == Some(candidate_view(cands@[i as int])),
            None => winner(
                cands@.map_values(|c: PreferenceCandidate| candidate_view(c)),
                key,
                cands@.len() as int,
            ) is None,
        },
        r.1 == conflicted(cands@.map_values(|c: PreferenceCandidate| candidate_view(c)), key),
{
    let ghost view = cands@.map_values(|c: PreferenceCandidate| candidate_view(c));
    let mut best: Option<usize> = None;
    let mut first: Option<usize> = None;
    let mut differs = false;
    let mut i: usize = 0;
    while i < cands.len()
        invariant
            i <= cands@.len(),
            view == cands@.map_values(|c: PreferenceCandidate| candidate_view(c)),
            match best {
                Some(b) => b < i && winner(view, key, i as int) == Some(view[b as int]),
                None => winner(view, key, i as int) is None,
            },
            match first {
                Some(f) => f < i && key_of(view[f as int].0) == key && forall|j: int|
                    0 <= j < f ==> key_of(#[trigger] view[j].0) != key,
                None => forall|j: int| 0 <= j < i ==> key_of(#[trigger] view[j].0) != key,
            },
            differs == exists|j: int|
                0 <= j < i && key_of(view[j].0) == key && first is Some && #[trigger] view[j].0
                    != view[first->0 as int].0,
        decreases cands@.len() - i,
    {
        proof {
            assert(view[i as int] == candidate_view(cands@[i as int]));
        }
        let c = &cands[i];
        if key_of_value(&c.value) == key {
            match first {
                None => {
                    first = Some(i);
                },
                Some(f) => {
                    if !same_value(&cands[f].value, &c.value) {
                        differs = true;
                    }
                },
            }
            best = match best {
                None => Some(i),
                Some(b) => {
                    let p = &cands[b];
                    let keep = p.revision > c.revision || (p.revision == c.revision && (
                    p.source_sequence > c.source_sequence || (p.source_sequence
                        == c.source_sequence && p.memory_id < c.memory_id)));
                    if keep {
                        Some(b)
                    } else {
                        Some(i)
                    }
                },
            };
        }
        proof {
            let n = i + 1;
            assert(view.subrange(0, n as int) =~= view.subrange(0, n as int));
        }
        i = i + 1;
    }
    proof {
        if conflicted(view, key) {
            let (a, b) = choose|a: int, b: int|
                0 <= a < view.len() && 0 <= b < view.len() && key_of(view[a].0) == key && key_of(
                    view[b].0,
                ) == key && #[trigger] view[a].0 != #[trigger] view[b].0;
            let f = first->0 as int;
            if view[a].0 == view[f].0 {
                assert(view[b].0 != view[f].0);
            }
        }
        if differs {
            let j = choose|j: int|
                0 <= j < cands@.len() && key_of(view[j].0) == key && first is Some
                    && #[trigger] view[j].0 != view[first->0 as int].0;
            let f = first->0 as int;
            assert(view[j].0 != view[f].0);
        }
    }
    (best, differs)
}


/// Whose preference a piece of evidence records.
#[derive(Clone, Copy, Debug, PartialEq, Eq, Structural)]
pub enum ResponsePreferenceScope {
    Principal(PrincipalId),
}

/// The memory that decided one preference key of a profile.
#[derive(Clone, Copy, Debug, PartialEq, Eq, Structural)]
pub struct ResponsePreferenceEvidence {
    pub memory_id: MemoryId,
    pub source_event_id: EventId,
    pub key: ResponsePreferenceKey,
    pub scope: ResponsePreferenceScope,
    pub memory_revision_or_version: u64,
}

/// How HEKATE should respond to a principal.
pub struct ResponseProfile {
    pub language: Option<String>,
    pub verbosity: ResponseVerbosity,
    pub step_size: ResponseStepSize,
    pub progress_visibility: ProgressVisibility,
    pub next_action_first: bool,
    pub technical_depth: TechnicalDepth,
    pub preferred_format: ResponseFormatPreference,
    pub evidence: Vec<ResponsePreferenceEvidence>,
    pub as_of_revision: u64,
    pub profile_hash: String,
}

/// What the resolution did with the memories it looked at.
pub struct ResponseProfileReport {
    pub considered_memories: usize,
    pub ignored_scope_mismatch: usize,
    pub ignored_non_explicit: usize,
    pub ignored_malformed: usize,
    pub conflicting_keys: usize,
    pub applied_preferences: usize,
}

/// A resolved profile with the report of its resolution.
pub struct ResponseProfileResolution {
    pub profile: ResponseProfile,
    pub report: ResponseProfileReport,
}

/// The preference keys in the order of their names, the order in which a
/// profile lists its evidence.
pub open spec fn keys_by_name() -> Seq<ResponsePreferenceKey> {
    seq![
        ResponsePreferenceKey::Language,
        ResponsePreferenceKey::NextActionFirst,
        ResponsePreferenceKey::PreferredFormat,
        ResponsePreferenceKey::ProgressVisibility,
        ResponsePreferenceKey::StepSize,
        ResponsePreferenceKey::TechnicalDepth,
        ResponsePreferenceKey::Verbosity,
    ]
}

/// The name of a preference key.
pub open spec fn key_name(key: ResponsePreferenceKey) -> Seq<char> {
    match key {
        ResponsePreferenceKey::Language => "language"@,
        ResponsePreferenceKey::Verbosity => "verbosity"@,
        ResponsePreferenceKey::StepSize => "step_size"@,
        ResponsePreferenceKey::ProgressVisibility => "progress_visibility"@,
        ResponsePreferenceKey::NextActionFirst => "next_action_first"@,
        ResponsePreferenceKey::TechnicalDepth => "technical_depth"@,
        ResponsePreferenceKey::PreferredFormat => "preferred_format"@,
    }
}

/// The evidence the winners of the first `k` keys (in name order) give.
pub open spec fn evidence_over(cands: Seq<CandidateView>, principal_id: PrincipalId, k: int) -> Seq<
    ResponsePreferenceEvidence,
>
    decreases k,
{
    if k <= 0 || k > 7 {
        Seq::empty()
    } else {
        let previous = evidence_over(cands, principal_id, k - 1);
        let key = keys_by_name()[k - 1];
        match winner(cands, key, cands.len() as int) {
            None => previous,
            Some(c) => previous.push(
                ResponsePreferenceEvidence {
                    memory_id: c.1,
                    source_event_id: c.2,
                    key,
                    scope: ResponsePreferenceScope::Principal(principal_id),
                    memory_revision_or_version: c.3 as u64,
                },
            ),
        }
    }
}

/// The number of the first `k` keys (in name order) the candidates
/// disagree on.
pub open spec fn conflicts_over(cands: Seq<CandidateView>, k: int) -> nat
    decreases k,
{
    if k <= 0 || k > 7 {
        0
    } else if conflicted(cands, keys_by_name()[k - 1]) {
        conflicts_over(cands, k - 1) + 1
    } else {
        conflicts_over(cands, k - 1)
    }
}

/// The value the winner for `key` gives, if any.
pub open spec fn decided(cands: Seq<CandidateView>, key: ResponsePreferenceKey) -> Option<PreferenceView> {
    match winner(cands, key, cands.len() as int) {
        Some(c) => Some(c.0),
        None => None,
    }
}

/// Whether the profile holds what the candidates decide, with the default
/// for every key no candidate decides (no language, balanced verbosity,
/// step size and depth, normal progress, next action not first, natural
/// format).
pub open spec fn profile_decided(profile: ResponseProfile, cands: Seq<CandidateView>) -> bool {
    &&& match decided(cands, ResponsePreferenceKey::Language) {
        Some(PreferenceView::Language(t)) => profile.language is Some && profile.language->0@ == t,
        _ => profile.language is None,
    }
    &&& profile.verbosity == match decided(cands, ResponsePreferenceKey::Verbosity) {
        Some(PreferenceView::Verbosity(v)) => v,
        _ => ResponseVerbosity::Balanced,
    }
    &&& profile.step_size == match decided(cands, ResponsePreferenceKey::StepSize) {
        Some(PreferenceView::StepSize(v)) => v,
        _ => ResponseStepSize::Balanced,
    }
    &&& profile.progress_visibility == match decided(cands, ResponsePreferenceKey::ProgressVisibility) {
        Some(PreferenceView::ProgressVisibility(v)) => v,
        _ => ProgressVisibility::Normal,
    }
    &&& profile.next_action_first == match decided(cands, ResponsePreferenceKey::NextActionFirst) {
        Some(PreferenceView::NextActionFirst(v)) => v,
        _ => false,
    }
    &&& profile.technical_depth == match decided(cands, ResponsePreferenceKey::TechnicalDepth) {
        Some(PreferenceView::TechnicalDepth(v)) => v,
        _ => TechnicalDepth::Balanced,
    }
    &&& profile.preferred_format == match decided(cands, ResponsePreferenceKey::PreferredFormat) {
        Some(PreferenceView::PreferredFormat(v)) => v,
        _ => ResponseFormatPreference::Natural,
    }
}


pub open spec fn verbosity_name(v: ResponseVerbosity) -> Seq<char> {
    match v {
        ResponseVerbosity::Compact => "compact"@,
        ResponseVerbosity::Balanced => "balanced"@,
        ResponseVerbosity::Detailed => "detailed"@,
    }
}

pub open spec fn step_size_name(v: ResponseStepSize) -> Seq<char> {
    match v {
        ResponseStepSize::Small => "small"@,
        ResponseStepSize::Balanced => "balanced"@,
        ResponseStepSize::Large => "large"@,
    }
}

pub open spec fn progress_name(v: ProgressVisibility) -> Seq<char> {
    match v {
        ProgressVisibility::Minimal => "minimal"@,
        ProgressVisibility::Normal => "normal"@,
        ProgressVisibility::Explicit => "explicit"@,
    }
}

pub open spec fn depth_name(v: TechnicalDepth) -> Seq<char> {
    match v {
        TechnicalDepth::Low => "low"@,
        TechnicalDepth::Balanced => "balanced"@,
        TechnicalDepth::High => "high"@,
    }
}

pub open spec fn format_name(v: ResponseFormatPreference) -> Seq<char> {
    match v {
        ResponseFormatPreference::Natural => "natural"@,
        ResponseFormatPreference::Markdown => "markdown"@,
        ResponseFormatPreference::Structured => "structured"@,
    }
}

/// The JSON object hashed for one piece of evidence.
pub open spec fn evidence_json(e: ResponsePreferenceEvidence) -> Seq<char> {
    let ResponsePreferenceScope::Principal(scope) = e.scope;
    "{\"memory_id\":\""@ + uuid_hyphenated(e.memory_id) + "\",\"source_event_id\":\""@
        + uuid_hyphenated(e.source_event_id) + "\",\"key\":\""@ + key_name(e.key)
        + "\",\"scope\":\"principal:"@ + uuid_hyphenated(scope)
        + "\",\"memory_revision_or_version\":"@ + decimal(e.memory_revision_or_version as nat)
        + "}"@
}

/// The JSON objects of a list of evidence, separated by commas.
pub open spec fn evidence_list_json(es: Seq<ResponsePreferenceEvidence>) -> Seq<char>
    decreases es.len(),
{
    if es.len() == 0 {
        Seq::empty()
    } else if es.len() == 1 {
        evidence_json(es[0])
    } else {
        evidence_list_json(es.drop_last()) + ","@ + evidence_json(es.last())
    }
}

/// The JSON value hashed for the language.
pub open spec fn language_json(language: Option<String>) -> Seq<char> {
    match language {
        Some(l) => "\""@ + l@ + "\""@,
        None => "null"@,
    }
}

/// The canonical JSON text a profile's hash is taken of: its preferences,
/// evidence and revision.
pub open spec fn profile_hash_text(p: &ResponseProfile) -> Seq<char> {
    "{\"language\":"@ + language_json(p.language) + ",\"verbosity\":\""@ + verbosity_name(
        p.verbosity,
    ) + "\",\"step_size\":\""@ + step_size_name(p.step_size) + "\",\"progress_visibility\":\""@
        + progress_name(p.progress_visibility) + "\",\"next_action_first\":"@ + (if p.next_action_first {
        "true"@
    } else {
        "false"@
    }) + ",\"technical_depth\":\""@ + depth_name(p.technical_depth)
        + "\",\"preferred_format\":\""@ + format_name(p.preferred_format) + "\",\"evidence\":["@
        + evidence_list_json(p.evidence@) + "],\"as_of_revision\":"@ + decimal(
        p.as_of_revision as nat,
    ) + "}"@
}

fn key_text(key: ResponsePreferenceKey) -> (r: String)
    ensures
        r@ == key_name(key),
{
    match key {
        ResponsePreferenceKey::Language => "language".to_owned(),
        ResponsePreferenceKey::Verbosity => "verbosity".to_owned(),
        ResponsePreferenceKey::StepSize => "step_size".to_owned(),
        ResponsePreferenceKey::ProgressVisibility => "progress_visibility".to_owned(),
        ResponsePreferenceKey::NextActionFirst => "next_action_first".to_owned(),
        ResponsePreferenceKey::TechnicalDepth => "technical_depth".to_owned(),
        ResponsePreferenceKey::PreferredFormat => "preferred_format".to_owned(),
    }
}

fn evidence_json_text(e: &ResponsePreferenceEvidence) -> (r: String)
    ensures
        r@ == evidence_json(*e),
{
    let ResponsePreferenceScope::Principal(scope) = e.scope;
    let mut out = "{\"memory_id\":\"".to_owned();
    out.append(uuid_text(e.memory_id).as_str());
    out.append("\",\"source_event_id\":\"");
    out.append(uuid_text(e.source_event_id).as_str());
    out.append("\",\"key\":\"");
    out.append(key_text(e.key).as_str());
    out.append("\",\"scope\":\"principal:");
    out.append(uuid_text(scope).as_str());
    out.append("\",\"memory_revision_or_version\":");
    out.append(decimal_text(e.memory_revision_or_version).as_str());
    out.append("}");
    out
}

/// The hash of a profile: the lower-case hex SHA-256 of its canonical text.
pub fn profile_hash(p: &ResponseProfile) -> (r: String)
    ensures
        r@ == hex_lower(sha256_of(encode_utf8(profile_hash_text(p)))),
{
    let mut list = String::new();
    let mut i: usize = 0;
    while i < p.evidence.len()
        invariant
            i <= p.evidence@.len(),
            list@ == evidence_list_json(p.evidence@.subrange(0, i as int)),
        decreases p.evidence@.len() - i,
    {
        proof {
            let next = p.evidence@.subrange(0, i + 1);
            assert(next.drop_last() =~= p.evidence@.subrange(0, i as int));
            assert(next.last() == p.evidence@[i as int]);
            if i == 0 {
                assert(next.len() == 1 && next[0] == p.evidence@[0]);
            }
        }
        if i > 0 {
            list.append(",");
        }
        list.append(evidence_json_text(&p.evidence[i]).as_str());
        proof {
            if i == 0 {
                assert(list@ =~= evidence_json(p.evidence@[0]));
            }
        }
        i = i + 1;
    }
    proof {
        assert(p.evidence@.subrange(0, p.evidence@.len() as int) =~= p.evidence@);
    }
    let mut out = "{\"language\":".to_owned();
    match &p.language {
        Some(l) => {
            out.append("\"");
            out.append(l.as_str());
            out.append("\"");
        },
        None => out.append("null"),
    }
    proof {
        assert(out@ =~= "{\"language\":"@ + language_json(p.language));
    }
    out.append(",\"verbosity\":\"");
    out.append(
        match p.verbosity {
            ResponseVerbosity::Compact => "compact",
            ResponseVerbosity::Balanced => "balanced",
            ResponseVerbosity::Detailed => "detailed",
        },
    );
    out.append("\",\"step_size\":\"");
    out.append(
        match p.step_size {
            ResponseStepSize::Small => "small",
            ResponseStepSize::Balanced => "balanced",
            ResponseStepSize::Large => "large",
        },
    );
    out.append("\",\"progress_visibility\":\"");
    out.append(
        match p.progress_visibility {
            ProgressVisibility::Minimal => "minimal",
            ProgressVisibility::Normal => "normal",
            ProgressVisibility::Explicit => "explicit",
        },
    );
    out.append("\",\"next_action_first\":");
    out.append(
        if p.next_action_first {
            "true"
        } else {
            "false"
        },
    );
    out.append(",\"technical_depth\":\"");
    out.append(
        match p.technical_depth {
            TechnicalDepth::Low => "low",
            TechnicalDepth::Balanced => "balanced",
            TechnicalDepth::High => "high",
        },
    );
    out.append("\",\"preferred_format\":\"");
    out.append(
        match p.preferred_format {
            ResponseFormatPreference::Natural => "natural",
            ResponseFormatPreference::Markdown => "markdown",
            ResponseFormatPreference::Structured => "structured",
        },
    );
    out.append("\",\"evidence\":[");
    out.append(list.as_str());
    out.append("],\"as_of_revision\":");
    out.append(decimal_text(p.as_of_revision).as_str());
    out.append("}");
    sha256_hex_of_text(out.as_str())
}


/// Whether a profile is the one the principal's memories call for as of
/// `as_of`: each key decided by its winner, the evidence of the winners in
/// key-name order, and the hash of the profile.
pub open spec fn profile_matches(
    memories: Seq<ActiveMemory>,
    events: Seq<ExperienceEvent>,
    principal_id: PrincipalId,
    as_of: u64,
    profile: ResponseProfile,
) -> bool {
    let cands = candidates_over(memories, events, principal_id, as_of, memories.len() as int);
    &&& profile_decided(profile, cands)
    &&& profile.evidence@ == evidence_over(cands, principal_id, 7)
    &&& profile.as_of_revision == as_of
    &&& profile.profile_hash@ == hex_lower(sha256_of(encode_utf8(profile_hash_text(&profile))))
}

/// Whether a resolution is the one the principal's memories call for as
/// of `as_of`: each key decided by its winner, the evidence of the winners
/// in key-name order, the hash of the profile, and the report's counts.
pub open spec fn resolution_matches(
    memories: Seq<ActiveMemory>,
    events: Seq<ExperienceEvent>,
    principal_id: PrincipalId,
    as_of: u64,
    r: ResponseProfileResolution,
) -> bool {
    let cands = candidates_over(memories, events, principal_id, as_of, memories.len() as int);
    let tally = tally_over(memories, events, principal_id, as_of, memories.len() as int);
    &&& profile_matches(memories, events, principal_id, as_of, r.profile)
    &&& r.report.considered_memories == tally.0
    &&& r.report.ignored_scope_mismatch == tally.1
    &&& r.report.ignored_non_explicit == tally.2
    &&& r.report.ignored_malformed == tally.3
    &&& r.report.conflicting_keys == conflicts_over(cands, 7)
    &&& r.report.applied_preferences == r.profile.evidence@.len()
}

/// Decides `key`: records the winner's evidence and counts a disagreement.
fn take_key(
    cands: &Vec<PreferenceCandidate>,
    key: ResponsePreferenceKey,
    principal_id: PrincipalId,
    evidence: &mut Vec<ResponsePreferenceEvidence>,
    conflicts: &mut usize,
) -> (r: Option<usize>)
    requires
        *old(conflicts) < 7,
    ensures
        match r {
            Some(i) => i < cands@.len() && winner(
                cands@.map_values(|c: PreferenceCandidate| candidate_view(c)),
                key,
                cands@.len() as int,
            ) == Some(candidate_view(cands@[i as int])) && final(evidence)@ == old(evidence)@.push(
                ResponsePreferenceEvidence {
                    memory_id: cands@[i as int].memory_id,
                    source_event_id: cands@[i as int].source_event_id,
                    key,
                    scope: ResponsePreferenceScope::Principal(principal_id),
                    memory_revision_or_version: cands@[i as int].revision,
                },
            ),
            None => winner(
                cands@.map_values(|c: PreferenceCandidate| candidate_view(c)),
                key,
                cands@.len() as int,
            ) is None && final(evidence)@ == old(evidence)@,
        },
        *final(conflicts) == *old(conflicts) + if conflicted(
            cands@.map_values(|c: PreferenceCandidate| candidate_view(c)),
            key,
        ) {
            1int
        } else {
            0int
        },
{
    let (best, differs) = decide(cands, key);
    if differs {
        *conflicts = *conflicts + 1;
    }
    match best {
        Some(i) => {
            let c = &cands[i];
            evidence.push(
                ResponsePreferenceEvidence {
                    memory_id: c.memory_id,
                    source_event_id: c.source_event_id,
                    key,
                    scope: ResponsePreferenceScope::Principal(principal_id),
                    memory_revision_or_version: c.revision,
                },
            );
        },
        None => {},
    }
    best
}

/// The candidates of the memories and the report's tally of them.
fn collect_candidates(
    memories: &Vec<ActiveMemory>,
    events: &[ExperienceEvent],
    principal_id: PrincipalId,
    as_of_revision: u64,
) -> (r: (Vec<PreferenceCandidate>, usize, usize, usize, usize))
    ensures
        r.0@.map_values(|c: PreferenceCandidate| candidate_view(c)) == candidates_over(
            memories@,
            events@,
            principal_id,
            as_of_revision,
            memories@.len() as int,
        ),
        (r.1 as nat, r.2 as nat, r.3 as nat, r.4 as nat) == tally_over(
            memories@,
            events@,
            principal_id,
            as_of_revision,
            memories@.len() as int,
        ),
{
    let mut cands: Vec<PreferenceCandidate> = Vec::new();
    let mut considered: usize = 0;
    let mut scope: usize = 0;
    let mut kind: usize = 0;
    let mut malformed: usize = 0;
    let mut i: usize = 0;
    while i < memories.len()
        invariant
            i <= memories@.len(),
            considered <= i,
            cands@.map_values(|c: PreferenceCandidate| candidate_view(c)) == candidates_over(
                memories@,
                events@,
                principal_id,
                as_of_revision,
                i as int,
            ),
            (considered as nat, scope as nat, kind as nat, malformed as nat) == tally_over(
                memories@,
                events@,
                principal_id,
                as_of_revision,
                i as int,
            ),
            scope <= considered,
            kind <= considered,
            malformed <= considered,
        decreases memories@.len() - i,
    {
        let m = &memories[i];
        if m.status == ActiveMemoryStatus::Active {
            considered = considered + 1;
            if m.subject_principal_id != Some(principal_id) {
                scope = scope + 1;
            } else if m.kind != MemoryKind::ExplicitPreference {
                kind = kind + 1;
            } else {
                match parse_preference(m.content.as_str()) {
                    None => {
                        malformed = malformed + 1;
                    },
                    Some(value) => match provenance(events, as_of_revision, m) {
                        None => {
                            malformed = malformed + 1;
                        },
                        Some((source, revision, sequence)) => {
                            cands.push(
                                PreferenceCandidate {
                                    value,
                                    memory_id: m.id,
                                    source_event_id: source,
                                    revision,
                                    source_sequence: sequence,
                                },
                            );
                        },
                    },
                }
            }
        }
        proof {
            assert(cands@.map_values(|c: PreferenceCandidate| candidate_view(c)) =~= candidates_over(
                memories@,
                events@,
                principal_id,
                as_of_revision,
                i + 1,
            ));
        }
        i = i + 1;
    }
    (cands, considered, scope, kind, malformed)
}

/// The evidence of the winners, in key-name order, and the number of keys
/// the candidates disagree on.
fn decide_all(cands: &Vec<PreferenceCandidate>, principal_id: PrincipalId) -> (r: (
    Vec<ResponsePreferenceEvidence>,
    usize,
    [Option<usize>; 7],
))
    ensures
        r.0@ == evidence_over(
            cands@.map_values(|c: PreferenceCandidate| candidate_view(c)),
            principal_id,
            7,
        ),
        r.1 == conflicts_over(cands@.map_values(|c: PreferenceCandidate| candidate_view(c)), 7),
        forall|k: int|
            0 <= k < 7 ==> match #[trigger] r.2@[k] {
                Some(i) => i < cands@.len() && winner(
                    cands@.map_values(|c: PreferenceCandidate| candidate_view(c)),
                    keys_by_name()[k],
                    cands@.len() as int,
                ) == Some(candidate_view(cands@[i as int])),
                None => winner(
                    cands@.map_values(|c: PreferenceCandidate| candidate_view(c)),
                    keys_by_name()[k],
                    cands@.len() as int,
                ) is None,
            },
{
    let ghost view = cands@.map_values(|c: PreferenceCandidate| candidate_view(c));
    let keys: [ResponsePreferenceKey; 7] = [
        ResponsePreferenceKey::Language,
        ResponsePreferenceKey::NextActionFirst,
        ResponsePreferenceKey::PreferredFormat,
        ResponsePreferenceKey::ProgressVisibility,
        ResponsePreferenceKey::StepSize,
        ResponsePreferenceKey::TechnicalDepth,
        ResponsePreferenceKey::Verbosity,
    ];
    proof {
        assert(keys@ =~= keys_by_name());
    }
    let mut winners: [Option<usize>; 7] = [None, None, None, None, None, None, None];
    let mut evidence: Vec<ResponsePreferenceEvidence> = Vec::new();
    let mut conflicts: usize = 0;
    let mut k: usize = 0;
    while k < 7
        invariant
            k <= 7,
            keys@ == keys_by_name(),
            view == cands@.map_values(|c: PreferenceCandidate| candidate_view(c)),
            conflicts <= k,
            evidence@ == evidence_over(view, principal_id, k as int),
            conflicts == conflicts_over(view, k as int),
            forall|j: int|
                0 <= j < k ==> match #[trigger] winners@[j] {
                    Some(i) => i < cands@.len() && winner(view, keys_by_name()[j], cands@.len() as int)
                        == Some(candidate_view(cands@[i as int])),
                    None => winner(view, keys_by_name()[j], cands@.len() as int) is None,
                },
        decreases 7 - k,
    {
        let key = keys[k];
        let best = take_key(cands, key, principal_id, &mut evidence, &mut conflicts);
        winners.set(k, best);
        proof {
            match best {
                Some(i) => {
                    assert(view[i as int] == candidate_view(cands@[i as int]));
                },
                None => {},
            }
        }
        k = k + 1;
    }
    (evidence, conflicts, winners)
}

/// The principal's response profile as of `as_of_revision`, with the report
/// of how it was resolved. The relationship and task are accepted for the
/// scopes to come; preferences are only principal-scoped for now.
pub fn resolve_response_profile_with_report(
    state: &CurrentState,
    events: &[ExperienceEvent],
    principal_id: PrincipalId,
    relationship_id: Option<RelationshipId>,
    task_id: Option<TaskId>,
    as_of_revision: u64,
) -> (r: ResponseProfileResolution)
    ensures
        resolution_matches(state.active_memories@, events@, principal_id, as_of_revision, r),
{
    let (cands, considered, scope, kind, malformed) = collect_candidates(
        &state.active_memories,
        events,
        principal_id,
        as_of_revision,
    );
    let ghost view = cands@.map_values(|c: PreferenceCandidate| candidate_view(c));
    let (evidence, conflicts, winners) = decide_all(&cands, principal_id);
    let language = winners[0];
    let next_first = winners[1];
    let format = winners[2];
    let progress = winners[3];
    let step = winners[4];
    let depth = winners[5];
    let verbosity = winners[6];
    let mut profile = ResponseProfile {
        language: match language {
            Some(i) => match &cands[i].value {
                PreferenceValue::Language(t) => Some(t.clone()),
                _ => None,
            },
            None => None,
        },
        verbosity: match verbosity {
            Some(i) => match cands[i].value {
                PreferenceValue::Verbosity(v) => v,
                _ => ResponseVerbosity::Balanced,
            },
            None => ResponseVerbosity::Balanced,
        },
        step_size: match step {
            Some(i) => match cands[i].value {
                PreferenceValue::StepSize(v) => v,
                _ => ResponseStepSize::Balanced,
            },
            None => ResponseStepSize::Balanced,
        },
        progress_visibility: match progress {
            Some(i) => match cands[i].value {
                PreferenceValue::ProgressVisibility(v) => v,
                _ => ProgressVisibility::Normal,
            },
            None => ProgressVisibility::Normal,
        },
        next_action_first: match next_first {
            Some(i) => match cands[i].value {
                PreferenceValue::NextActionFirst(v) => v,
                _ => false,
            },
            None => false,
        },
        technical_depth: match depth {
            Some(i) => match cands[i].value {
                PreferenceValue::TechnicalDepth(v) => v,
                _ => TechnicalDepth::Balanced,
            },
            None => TechnicalDepth::Balanced,
        },
        preferred_format: match format {
            Some(i) => match cands[i].value {
                PreferenceValue::PreferredFormat(v) => v,
                _ => ResponseFormatPreference::Natural,
            },
            None => ResponseFormatPreference::Natural,
        },
        evidence,
        as_of_revision,
        profile_hash: String::new(),
    };
    proof {
        assert(winners@[0] == language);
        assert(winners@[1] == next_first);
        assert(winners@[2] == format);
        assert(winners@[3] == progress);
        assert(winners@[4] == step);
        assert(winners@[5] == depth);
        assert(winners@[6] == verbosity);
    }
    let hash = profile_hash(&profile);
    profile.profile_hash = hash;
    let applied = profile.evidence.len();
    ResponseProfileResolution {
        profile,
        report: ResponseProfileReport {
            considered_memories: considered,
            ignored_scope_mismatch: scope,
            ignored_non_explicit: kind,
            ignored_malformed: malformed,
            conflicting_keys: conflicts,
            applied_preferences: applied,
        },
    }
}

/// The principal's response profile as of `as_of_revision`.
pub fn resolve_response_profile(
    state: &CurrentState,
    events: &[ExperienceEvent],
    principal_id: PrincipalId,
    relationship_id: Option<RelationshipId>,
    task_id: Option<TaskId>,
    as_of_revision: u64,
) -> (r: ResponseProfile)
    ensures
        profile_matches(state.active_memories@, events@, principal_id, as_of_revision, r),
{
    let resolution = resolve_response_profile_with_report(
        state,
        events,
        principal_id,
        relationship_id,
        task_id,
        as_of_revision,
    );
    resolution.profile
}

/// Two profiles agree: the same preferences, evidence, revision and hash.
pub open spec fn same_profile(a: ResponseProfile, b: ResponseProfile) -> bool {
    &&& a.language is Some <==> b.language is Some
    &&& (a.language is Some ==> a.language->0@ == b.language->0@)
    &&& a.verbosity == b.verbosity
    &&& a.step_size == b.step_size
    &&& a.progress_visibility == b.progress_visibility
    &&& a.next_action_first == b.next_action_first
    &&& a.technical_depth == b.technical_depth
    &&& a.preferred_format == b.preferred_format
    &&& a.evidence@ == b.evidence@
    &&& a.as_of_revision == b.as_of_revision
    &&& a.profile_hash@ == b.profile_hash@
}

/// The profile is decided by the principal's memories, the ledger and the
/// revision alone: any two profiles resolved from the same state, events,
/// principal and revision agree, whatever relationship or task the calls
/// named, and whether or not a report was asked for.
pub proof fn lemma_profile_ignores_scope(
    memories: Seq<ActiveMemory>,
    events: Seq<ExperienceEvent>,
    principal_id: PrincipalId,
    as_of: u64,
    a: ResponseProfile,
    b: ResponseProfile,
)
    requires
        profile_matches(memories, events, principal_id, as_of, a),
        profile_matches(memories, events, principal_id, as_of, b),
    ensures
        same_profile(a, b),
{
    assert(language_json(a.language) == language_json(b.language));
    assert(profile_hash_text(&a) == profile_hash_text(&b));
}

} // verus!
