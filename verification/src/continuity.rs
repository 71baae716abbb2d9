//! Continuity: deterministic resolution of an observation to an existing
//! task, new work, ordinary conversation, or a clarification question.
//! This part reads the observation's text: its tokens and words, the
//! intents it states and the work it references.
use vstd::prelude::*;
use vstd::string::*;

use crate::ids::{new_id, parse_uuid, parsed_uuid};
use crate::completion::{task_status_name, task_status_text};
use crate::engine::{opt_text, same_opt_text};
use crate::format::{uuid_hyphenated, uuid_text};
use crate::model::{
    EventId, Focus, Goal, GoalId, GoalStatus, Observation, ObservationId, PrincipalId, Run, RunId,
    RunStatus, Task, TaskId, TaskStatus,
};
use crate::focus::{focus_for_run, spec_focus_for_run};
use crate::state::{CurrentState, EventKind, ExperienceEvent, Payload};
use crate::table::{get, lookup, sorted_keys, Keyed};
use crate::text::{
    alphanumeric, chars_of, has_prefix, has_substring, is_alphanumeric, lowercase, same_text,
    starts_with, contains_text, text_less, text_lt, to_lowercase, trim, trimmed,
};
use crate::format::string_from_chars;
use vstd::utf8::{decode_utf8, encode_utf8, encode_utf8_decode_utf8, is_char_boundary};

verus! {

/// How an observation relates to existing work.
#[derive(Clone, Copy, Debug, PartialEq, Eq, Structural)]
pub enum FocusOutcome {
    Continue,
    NewWork,
    Conversation,
    Clarification,
}

/// Why an observation was resolved the way it was.
#[derive(Clone, Copy, Debug, PartialEq, Eq, Structural)]
pub enum FocusBasis {
    ExplicitNewWork,
    ExplicitContinuation,
    ExplicitTask,
    ExplicitGoal,
    ExplicitRun,
    SameThreadContinuation,
    StrongTextMatch,
    AmbiguousCandidates,
    InvalidReference,
    ClosedWorkReference,
    GeneralConversation,
}

/// A task an observation may continue, as a resolution records it.
pub struct FocusCandidate {
    pub goal_id: GoalId,
    pub goal_title: String,
    pub task_id: TaskId,
    pub task_title: String,
    pub task_status: TaskStatus,
    pub run_id: Option<RunId>,
    /// The events that show the goal, task and run exist (and, for work
    /// the thread already pursued, the thread's earlier messages and
    /// resolutions).
    pub evidence_event_ids: Vec<EventId>,
}

/// How an observation was attached to work.
pub struct FocusResolution {
    pub observation_id: ObservationId,
    pub outcome: FocusOutcome,
    pub focus: Focus,
    pub as_of_revision: u64,
    pub basis: FocusBasis,
    pub candidates: Vec<FocusCandidate>,
    pub clarification: Option<String>,
}

impl Keyed for FocusResolution {
    open spec fn spec_key(&self) -> u128 {
        self.observation_id
    }

    fn key(&self) -> (k: u128) {
        self.observation_id
    }
}

/// A reference to work an observation names by identifier.
#[derive(Clone, Copy, Debug, PartialEq, Eq, Structural)]
pub enum WorkReference {
    Goal(GoalId),
    Task(TaskId),
    Run(RunId),
}

/// Whether a character belongs to a token: alphanumeric, or a hyphen
/// where hyphens are kept.
pub open spec fn token_char(c: char, dash: bool) -> bool {
    alphanumeric(c) || (dash && c == '-')
}

/// The maximal runs of token characters of a text, in order, as
/// `str::split` on the other characters gives them, empty pieces left out.
pub open spec fn tokens(s: Seq<char>, dash: bool) -> Seq<Seq<char>>
    decreases s.len(),
{
    if s.len() == 0 {
        Seq::empty()
    } else {
        let t = tokens(s.drop_last(), dash);
        let c = s.last();
        if !token_char(c, dash) {
            t
        } else if s.len() >= 2 && token_char(s[s.len() - 2], dash) {
            t.drop_last().push(t.last().push(c))
        } else {
            t.push(seq![c])
        }
    }
}

/// The characters of each vector.
pub open spec fn char_views(v: Seq<Vec<char>>) -> Seq<Seq<char>> {
    Seq::new(v.len(), |i: int| v[i]@)
}

/// The characters of each string.
pub open spec fn string_views(v: Seq<String>) -> Seq<Seq<char>> {
    Seq::new(v.len(), |i: int| v[i]@)
}

/// The tokens of a text.
pub fn split_tokens(text: &str, dash: bool) -> (r: Vec<Vec<char>>)
    ensures
        char_views(r@) == tokens(text@, dash),
{
    let chars = chars_of(text);
    let mut out: Vec<Vec<char>> = Vec::new();
    let mut cur: Vec<char> = Vec::new();
    let mut i: usize = 0;
    proof {
        assert(text@.subrange(0, 0) =~= Seq::<char>::empty());
        assert(char_views(out@) =~= Seq::<Seq<char>>::empty());
    }
    while i < chars.len()
        invariant
            chars@ == text@,
            i <= chars@.len(),
            (cur@.len() > 0) == (i > 0 && token_char(text@[i - 1], dash)),
            tokens(text@.subrange(0, i as int), dash) == if cur@.len() > 0 {
                char_views(out@).push(cur@)
            } else {
                char_views(out@)
            },
        decreases chars@.len() - i,
    {
        let c = chars[i];
        let keep = is_alphanumeric(c) || (dash && c == '-');
        let ghost s = text@.subrange(0, i + 1);
        let ghost before = char_views(out@);
        let ghost old_cur = cur@;
        proof {
            assert(s.drop_last() =~= text@.subrange(0, i as int));
            assert(s.last() == c);
            if i > 0 {
                assert(s[s.len() - 2] == text@[i - 1]);
            }
        }
        if keep {
            cur.push(c);
            proof {
                if old_cur.len() > 0 {
                    let t = before.push(old_cur);
                    assert(t.drop_last() =~= before);
                    assert(t.last() == old_cur);
                    assert(t.drop_last().push(t.last().push(c)) =~= before.push(cur@));
                } else {
                    assert(cur@ =~= seq![c]);
                }
                assert(tokens(s, dash) == char_views(out@).push(cur@));
            }
        } else {
            if cur.len() > 0 {
                out.push(cur);
                cur = Vec::new();
                proof {
                    assert(char_views(out@) =~= before.push(old_cur));
                }
            }
        }
        i = i + 1;
    }
    if cur.len() > 0 {
        let ghost before = char_views(out@);
        let ghost last = cur@;
        out.push(cur);
        proof {
            assert(char_views(out@) =~= before.push(last));
        }
    }
    proof {
        assert(text@.subrange(0, text@.len() as int) =~= text@);
    }
    out
}

/// Words too common to tell tasks apart.
pub open spec fn is_stop_word(w: Seq<char>) -> bool {
    ||| w == "a"@
    ||| w == "an"@
    ||| w == "and"@
    ||| w == "are"@
    ||| w == "back"@
    ||| w == "can"@
    ||| w == "continue"@
    ||| w == "could"@
    ||| w == "for"@
    ||| w == "from"@
    ||| w == "goal"@
    ||| w == "i"@
    ||| w == "in"@
    ||| w == "is"@
    ||| w == "it"@
    ||| w == "keep"@
    ||| w == "me"@
    ||| w == "new"@
    ||| w == "of"@
    ||| w == "on"@
    ||| w == "our"@
    ||| w == "pick"@
    ||| w == "previous"@
    ||| w == "resume"@
    ||| w == "run"@
    ||| w == "task"@
    ||| w == "the"@
    ||| w == "this"@
    ||| w == "to"@
    ||| w == "up"@
    ||| w == "we"@
    ||| w == "with"@
    ||| w == "작업"@
    ||| w == "계속"@
    ||| w == "하던"@
    ||| w == "아까"@
    ||| w == "이전"@
    ||| w == "그"@
    ||| w == "다시"@
    ||| w == "이어"@
}

/// Whether `w` is a stop word.
pub fn stop_word(w: &str) -> (r: bool)
    ensures
        r == is_stop_word(w@),
{
    same_text(w, "a") || same_text(w, "an") || same_text(w, "and") || same_text(w, "are")
        || same_text(w, "back") || same_text(w, "can") || same_text(w, "continue") || same_text(
        w,
        "could",
    ) || same_text(w, "for") || same_text(w, "from") || same_text(w, "goal") || same_text(w, "i")
        || same_text(w, "in") || same_text(w, "is") || same_text(w, "it") || same_text(w, "keep")
        || same_text(w, "me") || same_text(w, "new") || same_text(w, "of") || same_text(w, "on")
        || same_text(w, "our") || same_text(w, "pick") || same_text(w, "previous") || same_text(
        w,
        "resume",
    ) || same_text(w, "run") || same_text(w, "task") || same_text(w, "the") || same_text(
        w,
        "this",
    ) || same_text(w, "to") || same_text(w, "up") || same_text(w, "we") || same_text(w, "with")
        || same_text(w, "작업") || same_text(w, "계속") || same_text(w, "하던") || same_text(
        w,
        "아까",
    ) || same_text(w, "이전") || same_text(w, "그") || same_text(w, "다시") || same_text(
        w,
        "이어",
    )
}

/// A word that counts: longer than one character and not a stop word.
pub open spec fn kept_word(w: Seq<char>) -> bool {
    w.len() > 1 && !is_stop_word(w)
}

/// The distinct words of a list of tokens, lower-cased, in the order they
/// first occur, keeping those that count.
pub open spec fn word_list(toks: Seq<Seq<char>>) -> Seq<Seq<char>>
    decreases toks.len(),
{
    if toks.len() == 0 {
        Seq::empty()
    } else {
        let d = word_list(toks.drop_last());
        let w = lowercase(toks.last());
        if kept_word(w) && !d.contains(w) {
            d.push(w)
        } else {
            d
        }
    }
}

/// The distinct words of a text that count.
pub open spec fn words_of(text: Seq<char>) -> Seq<Seq<char>> {
    word_list(tokens(text, false))
}

fn contains_string(v: &Vec<String>, w: &String) -> (r: bool)
    ensures
        r == string_views(v@).contains(w@),
{
    let mut i: usize = 0;
    while i < v.len()
        invariant
            i <= v@.len(),
            forall|j: int| 0 <= j < i ==> v@[j]@ != w@,
        decreases v@.len() - i,
    {
        if v[i] == *w {
            proof {
                assert(string_views(v@)[i as int] == w@);
            }
            return true;
        }
        i = i + 1;
    }
    proof {
        if string_views(v@).contains(w@) {
            let j = choose|j: int| 0 <= j < string_views(v@).len() && string_views(v@)[j] == w@;
            assert(v@[j]@ == w@);
        }
    }
    false
}

/// The distinct words of a text that count, lower-cased, in the order
/// they first occur.
pub fn words(text: &str) -> (r: Vec<String>)
    ensures
        string_views(r@) == words_of(text@),
{
    let toks = split_tokens(text, false);
    let ghost all = char_views(toks@);
    let mut out: Vec<String> = Vec::new();
    let mut i: usize = 0;
    proof {
        assert(all.subrange(0, 0) =~= Seq::<Seq<char>>::empty());
        assert(string_views(out@) =~= Seq::<Seq<char>>::empty());
    }
    while i < toks.len()
        invariant
            all == char_views(toks@),
            all == tokens(text@, false),
            i <= toks@.len(),
            string_views(out@) == word_list(all.subrange(0, i as int)),
        decreases toks@.len() - i,
    {
        let piece = string_from_chars(&toks[i]);
        let w = to_lowercase(piece.as_str());
        let len = chars_of(w.as_str()).len();
        let ghost before = string_views(out@);
        proof {
            let s = all.subrange(0, i + 1);
            assert(s.drop_last() =~= all.subrange(0, i as int));
            assert(s.last() == toks@[i as int]@);
        }
        if len > 1 && !stop_word(w.as_str()) && !contains_string(&out, &w) {
            out.push(w);
            proof {
                assert(string_views(out@) =~= before.push(lowercase(toks@[i as int]@)));
            }
        }
        i = i + 1;
    }
    proof {
        assert(all.subrange(0, all.len() as int) =~= all);
    }
    out
}

/// How many words of `q` occur in `k`; with both lists free of repeats,
/// the number of words they share.
pub open spec fn shared_count(q: Seq<Seq<char>>, k: Seq<Seq<char>>) -> nat
    decreases q.len(),
{
    if q.len() == 0 {
        0
    } else {
        shared_count(q.drop_last(), k) + if k.contains(q.last()) {
            1nat
        } else {
            0nat
        }
    }
}

/// Whether the lists share a word of at least eight characters.
pub open spec fn distinctive_shared(q: Seq<Seq<char>>, k: Seq<Seq<char>>) -> bool {
    exists|i: int| 0 <= i < q.len() && k.contains(q[i]) && q[i].len() >= 8
}

/// The number of words the lists share, and whether one of them is
/// distinctive.
pub fn shared_words(q: &Vec<String>, k: &Vec<String>) -> (r: (usize, bool))
    ensures
        r.0 == shared_count(string_views(q@), string_views(k@)),
        r.1 == distinctive_shared(string_views(q@), string_views(k@)),
{
    let ghost qs = string_views(q@);
    let ghost ks = string_views(k@);
    let mut count: usize = 0;
    let mut distinctive = false;
    let mut i: usize = 0;
    while i < q.len()
        invariant
            qs == string_views(q@),
            ks == string_views(k@),
            i <= q@.len(),
            count == shared_count(qs.subrange(0, i as int), ks),
            count <= i,
            distinctive == exists|j: int|
                0 <= j < i && ks.contains(qs[j]) && qs[j].len() >= 8,
        decreases q@.len() - i,
    {
        proof {
            let s = qs.subrange(0, i + 1);
            assert(s.drop_last() =~= qs.subrange(0, i as int));
            assert(s.last() == qs[i as int]);
        }
        if contains_string(k, &q[i]) {
            count = count + 1;
            if chars_of(q[i].as_str()).len() >= 8 {
                distinctive = true;
            }
        }
        proof {
            if !distinctive {
                assert forall|j: int| 0 <= j < i + 1 implies !(ks.contains(qs[j]) && qs[j].len() >= 8) by {
                    if j == i {
                        assert(qs[j] == q@[i as int]@);
                    }
                }
            }
        }
        i = i + 1;
    }
    proof {
        assert(qs.subrange(0, qs.len() as int) =~= qs);
    }
    (count, distinctive)
}

/// The text trimmed and lower-cased.
pub open spec fn folded(text: Seq<char>) -> Seq<char> {
    lowercase(trim(text))
}

/// Whether the text opens by asking for new work ("new task:", "start a
/// new task", their Korean forms, ...), ignoring surrounding white space
/// and case.
pub open spec fn spec_new_work_intent(text: Seq<char>) -> bool {
    let t = folded(text);
    ||| starts_with(t, "new task:"@)
    ||| starts_with(t, "new goal:"@)
    ||| starts_with(t, "new run:"@)
    ||| starts_with(t, "start a new task"@)
    ||| starts_with(t, "create a new task"@)
    ||| starts_with(t, "start a new project"@)
    ||| starts_with(t, "새 작업:"@)
    ||| starts_with(t, "새 목표:"@)
    ||| starts_with(t, "새 실행:"@)
    ||| starts_with(t, "새 프로젝트:"@)
    ||| starts_with(t, "새 작업 시작"@)
    ||| starts_with(t, "새로 시작:"@)
    ||| starts_with(t, "다른 작업 시작"@)
}

/// Whether the text asks for new work.
pub fn has_new_work_intent(text: &str) -> (r: bool)
    ensures
        r == spec_new_work_intent(text@),
{
    let t = chars_of(to_lowercase(trimmed(text).as_str()).as_str());
    has_prefix(&t, &chars_of("new task:")) || has_prefix(&t, &chars_of("new goal:")) || has_prefix(
        &t,
        &chars_of("new run:"),
    ) || has_prefix(&t, &chars_of("start a new task")) || has_prefix(
        &t,
        &chars_of("create a new task"),
    ) || has_prefix(&t, &chars_of("start a new project")) || has_prefix(
        &t,
        &chars_of("새 작업:"),
    ) || has_prefix(&t, &chars_of("새 목표:")) || has_prefix(&t, &chars_of("새 실행:"))
        || has_prefix(&t, &chars_of("새 프로젝트:")) || has_prefix(&t, &chars_of("새 작업 시작"))
        || has_prefix(&t, &chars_of("새로 시작:")) || has_prefix(&t, &chars_of("다른 작업 시작"))
}

/// Whether the lower-cased text asks to go back to earlier work
/// ("continue", "resume", "pick up", their Korean forms, ...) anywhere.
pub open spec fn spec_continuation_intent(text: Seq<char>) -> bool {
    let t = lowercase(text);
    ||| contains_text(t, "continue"@)
    ||| contains_text(t, "resume"@)
    ||| contains_text(t, "pick up"@)
    ||| contains_text(t, "carry on"@)
    ||| contains_text(t, "back to"@)
    ||| contains_text(t, "return to"@)
    ||| contains_text(t, "keep working"@)
    ||| contains_text(t, "아까 하던"@)
    ||| contains_text(t, "이전 작업"@)
    ||| contains_text(t, "지난 작업"@)
    ||| contains_text(t, "그 작업 계속"@)
    ||| contains_text(t, "계속하"@)
    ||| contains_text(t, "이어가"@)
    ||| contains_text(t, "이어서"@)
    ||| contains_text(t, "재개"@)
}

/// Whether the text asks to go back to earlier work.
pub fn has_continuation_intent(text: &str) -> (r: bool)
    ensures
        r == spec_continuation_intent(text@),
{
    let t = chars_of(to_lowercase(text).as_str());
    has_substring(&t, &chars_of("continue")) || has_substring(&t, &chars_of("resume"))
        || has_substring(&t, &chars_of("pick up")) || has_substring(&t, &chars_of("carry on"))
        || has_substring(&t, &chars_of("back to")) || has_substring(&t, &chars_of("return to"))
        || has_substring(&t, &chars_of("keep working")) || has_substring(
        &t,
        &chars_of("아까 하던"),
    ) || has_substring(&t, &chars_of("이전 작업")) || has_substring(&t, &chars_of("지난 작업"))
        || has_substring(&t, &chars_of("그 작업 계속")) || has_substring(&t, &chars_of("계속하"))
        || has_substring(&t, &chars_of("이어가")) || has_substring(&t, &chars_of("이어서"))
        || has_substring(&t, &chars_of("재개"))
}

/// The text without leading characters that are not alphanumeric.
pub open spec fn strip_start(s: Seq<char>) -> Seq<char>
    decreases s.len(),
{
    if s.len() > 0 && !alphanumeric(s[0]) {
        strip_start(s.drop_first())
    } else {
        s
    }
}

/// The text without trailing characters that are not alphanumeric.
pub open spec fn strip_end(s: Seq<char>) -> Seq<char>
    decreases s.len(),
{
    if s.len() > 0 && !alphanumeric(s.last()) {
        strip_end(s.drop_last())
    } else {
        s
    }
}

/// The text trimmed, stripped of non-alphanumeric characters at both ends,
/// and lower-cased.
pub open spec fn social_core(text: Seq<char>) -> Seq<char> {
    lowercase(strip_end(strip_start(trim(text))))
}

/// Whether the message is a bare greeting.
pub open spec fn spec_social_message(text: Seq<char>) -> bool {
    let t = social_core(text);
    ||| t == "hi"@
    ||| t == "hello"@
    ||| t == "hey"@
    ||| t == "good morning"@
    ||| t == "good evening"@
    ||| t == "안녕"@
    ||| t == "안녕하세요"@
}

proof fn lemma_strip_start_at(s: Seq<char>, lo: int)
    requires
        0 <= lo <= s.len(),
        forall|i: int| 0 <= i < lo ==> !alphanumeric(#[trigger] s[i]),
        lo == s.len() || alphanumeric(s[lo]),
    ensures
        strip_start(s) == s.subrange(lo, s.len() as int),
    decreases lo,
{
    if lo > 0 {
        assert forall|i: int| 0 <= i < lo - 1 implies !alphanumeric(#[trigger] s.drop_first()[i]) by {
            assert(s.drop_first()[i] == s[i + 1]);
        }
        lemma_strip_start_at(s.drop_first(), lo - 1);
        assert(s.drop_first().subrange(lo - 1, s.len() - 1) =~= s.subrange(lo, s.len() as int));
    } else {
        assert(s.subrange(0, s.len() as int) =~= s);
    }
}

proof fn lemma_strip_end_at(s: Seq<char>, hi: int)
    requires
        0 <= hi <= s.len(),
        forall|i: int| hi <= i < s.len() ==> !alphanumeric(#[trigger] s[i]),
        hi == 0 || alphanumeric(s[hi - 1]),
    ensures
        strip_end(s) == s.subrange(0, hi),
    decreases s.len() - hi,
{
    if hi < s.len() {
        assert forall|i: int| hi <= i < s.drop_last().len() implies !alphanumeric(
            #[trigger] s.drop_last()[i],
        ) by {
            assert(s.drop_last()[i] == s[i]);
        }
        lemma_strip_end_at(s.drop_last(), hi);
        assert(s.drop_last().subrange(0, hi) =~= s.subrange(0, hi));
    } else {
        assert(s.subrange(0, s.len() as int) =~= s);
    }
}

/// Whether the message is a bare greeting ("hi", "hello", "안녕", ...),
/// ignoring white space, punctuation around it and case.
pub fn is_social_message(text: &str) -> (r: bool)
    ensures
        r == spec_social_message(text@),
{
    let t = trimmed(text);
    let chars = chars_of(t.as_str());
    let mut lo: usize = 0;
    while lo < chars.len() && !is_alphanumeric(chars[lo])
        invariant
            lo <= chars@.len(),
            forall|i: int| 0 <= i < lo ==> !alphanumeric(#[trigger] chars@[i]),
        decreases chars@.len() - lo,
    {
        lo = lo + 1;
    }
    let mut hi: usize = chars.len();
    while hi > lo && !is_alphanumeric(chars[hi - 1])
        invariant
            lo <= hi <= chars@.len(),
            forall|i: int| hi <= i < chars@.len() ==> !alphanumeric(#[trigger] chars@[i]),
        decreases hi,
    {
        hi = hi - 1;
    }
    proof {
        lemma_strip_start_at(chars@, lo as int);
        let u = chars@.subrange(lo as int, chars@.len() as int);
        assert forall|i: int| hi - lo <= i < u.len() implies !alphanumeric(#[trigger] u[i]) by {
            assert(u[i] == chars@[i + lo]);
        }
        if hi > lo {
            assert(u[hi - lo - 1] == chars@[hi - 1]);
        }
        lemma_strip_end_at(u, hi - lo);
        assert(u.subrange(0, hi - lo) =~= chars@.subrange(lo as int, hi as int));
    }
    let core = to_lowercase(t.as_str().substring_char(lo, hi));
    let c = core.as_str();
    same_text(c, "hi") || same_text(c, "hello") || same_text(c, "hey") || same_text(
        c,
        "good morning",
    ) || same_text(c, "good evening") || same_text(c, "안녕") || same_text(c, "안녕하세요")
}

/// The reference the token pair at `k` makes, if any: a task, goal or run
/// keyword (in English or Korean, any case) followed by a UUID.
pub open spec fn reference_at(toks: Seq<Seq<char>>, k: int) -> Option<WorkReference> {
    match parsed_uuid(toks[k + 1]) {
        None => None,
        Some(id) => {
            let w = lowercase(toks[k]);
            if w == "task"@ || w == "작업"@ || w == "태스크"@ {
                Some(WorkReference::Task(id))
            } else if w == "goal"@ || w == "목표"@ {
                Some(WorkReference::Goal(id))
            } else if w == "run"@ || w == "실행"@ {
                Some(WorkReference::Run(id))
            } else {
                None
            }
        },
    }
}

/// The first reference among the token pairs from `k` on.
pub open spec fn first_reference(toks: Seq<Seq<char>>, k: int) -> Option<WorkReference>
    decreases toks.len() - k,
{
    if k < 0 || k + 1 >= toks.len() {
        None
    } else if reference_at(toks, k) is Some {
        reference_at(toks, k)
    } else {
        first_reference(toks, k + 1)
    }
}

/// The first work reference of a text: tokens are runs of alphanumeric
/// characters and hyphens.
pub open spec fn spec_parse_reference(text: Seq<char>) -> Option<WorkReference> {
    first_reference(tokens(text, true), 0)
}

/// The first work reference a text makes, if any.
pub fn parse_reference(text: &str) -> (r: Option<WorkReference>)
    ensures
        r == spec_parse_reference(text@),
{
    let toks = split_tokens(text, true);
    let ghost all = char_views(toks@);
    let mut k: usize = 0;
    while k < toks.len() && k + 1 < toks.len()
        invariant
            all == char_views(toks@),
            all == tokens(text@, true),
            k <= toks@.len(),
            first_reference(all, 0) == first_reference(all, k as int),
        decreases toks@.len() - k,
    {
        let id_text = string_from_chars(&toks[k + 1]);
        match parse_uuid(id_text.as_str()) {
            None => {},
            Some(id) => {
                let word_text = string_from_chars(&toks[k]);
                let w = to_lowercase(word_text.as_str());
                let ws = w.as_str();
                if same_text(ws, "task") || same_text(ws, "작업") || same_text(ws, "태스크") {
                    return Some(WorkReference::Task(id));
                } else if same_text(ws, "goal") || same_text(ws, "목표") {
                    return Some(WorkReference::Goal(id));
                } else if same_text(ws, "run") || same_text(ws, "실행") {
                    return Some(WorkReference::Run(id));
                }
            },
        }
        k = k + 1;
    }
    None
}

/// The first title prefix ("new task:", "새 작업:", ...) the lower-cased
/// text opens with.
pub open spec fn title_prefix(lower: Seq<char>) -> Option<Seq<char>> {
    if starts_with(lower, "new task:"@) {
        Some("new task:"@)
    } else if starts_with(lower, "new goal:"@) {
        Some("new goal:"@)
    } else if starts_with(lower, "new run:"@) {
        Some("new run:"@)
    } else if starts_with(lower, "새 작업:"@) {
        Some("새 작업:"@)
    } else if starts_with(lower, "새 목표:"@) {
        Some("새 목표:"@)
    } else if starts_with(lower, "새 실행:"@) {
        Some("새 실행:"@)
    } else if starts_with(lower, "새 프로젝트:"@) {
        Some("새 프로젝트:"@)
    } else if starts_with(lower, "새로 시작:"@) {
        Some("새로 시작:"@)
    } else {
        None
    }
}

/// The length of a text in UTF-8 bytes, as `str::len` reports it.
pub open spec fn byte_len(p: Seq<char>) -> int {
    (encode_utf8(p).len() as usize) as int
}

/// The text after its first `n` bytes of UTF-8.
pub open spec fn after_bytes(text: Seq<char>, n: int) -> Seq<char> {
    decode_utf8(encode_utf8(text).subrange(n, encode_utf8(text).len() as int))
}

/// Whether the text can be cut after the title prefix its lower-cased form
/// opens with: the prefix's byte length falls on a character boundary of
/// the text itself. (Case mapping can change byte lengths, as the Kelvin
/// sign does; the text is then not cut.)
pub open spec fn title_cut_ok(text: Seq<char>) -> bool {
    match title_prefix(lowercase(text)) {
        Some(p) => is_char_boundary(encode_utf8(text), byte_len(p)),
        None => true,
    }
}

/// The title a request for new work names: what follows its prefix,
/// trimmed, where that is not empty, else the whole text trimmed.
pub open spec fn title_body(text: Seq<char>) -> Seq<char> {
    match title_prefix(lowercase(text)) {
        Some(p) => {
            let rest = trim(after_bytes(text, byte_len(p)));
            if rest.len() > 0 {
                rest
            } else {
                trim(text)
            }
        },
        None => trim(text),
    }
}

/// The title of the task new work creates: the title body cut to 80
/// characters, or "Untitled task" when nothing is left.
pub open spec fn spec_task_title(text: Seq<char>) -> Seq<char> {
    let body = title_body(text);
    let t = if body.len() > 80 {
        body.subrange(0, 80)
    } else {
        body
    };
    if t.len() == 0 {
        "Untitled task"@
    } else {
        t
    }
}

/// The title of the task new work creates.
pub fn task_title(text: &str) -> (r: String)
    requires
        title_cut_ok(text@),
    ensures
        r@ == spec_task_title(text@),
{
    let lower = chars_of(to_lowercase(text).as_str());
    let prefix: Option<&str> = if has_prefix(&lower, &chars_of("new task:")) {
        Some("new task:")
    } else if has_prefix(&lower, &chars_of("new goal:")) {
        Some("new goal:")
    } else if has_prefix(&lower, &chars_of("new run:")) {
        Some("new run:")
    } else if has_prefix(&lower, &chars_of("새 작업:")) {
        Some("새 작업:")
    } else if has_prefix(&lower, &chars_of("새 목표:")) {
        Some("새 목표:")
    } else if has_prefix(&lower, &chars_of("새 실행:")) {
        Some("새 실행:")
    } else if has_prefix(&lower, &chars_of("새 프로젝트:")) {
        Some("새 프로젝트:")
    } else if has_prefix(&lower, &chars_of("새로 시작:")) {
        Some("새로 시작:")
    } else {
        None
    };
    assert(match prefix {
        Some(p) => title_prefix(lowercase(text@)) == Some(p@),
        None => title_prefix(lowercase(text@)) is None,
    });
    let body: String = match prefix {
        Some(p) => {
            let n = p.len();
            let (_, rest) = text.split_at(n);
            proof {
                encode_utf8_decode_utf8(rest@);
                assert(rest@ == after_bytes(text@, byte_len(p@)));
            }
            let t = trimmed(rest);
            if !t.as_str().is_empty() {
                t
            } else {
                trimmed(text)
            }
        },
        None => trimmed(text),
    };
    assert(body@ == title_body(text@));
    let count = chars_of(body.as_str()).len();
    let cut: String = if count > 80 {
        body.as_str().substring_char(0, 80).to_owned()
    } else {
        body
    };
    if cut.as_str().is_empty() {
        "Untitled task".to_owned()
    } else {
        cut
    }
}

/// An active task an observation may continue, with the words of its goal
/// and task titles and whether the observation's thread already worked on
/// it.
pub struct TaskCandidate {
    pub record: FocusCandidate,
    /// The distinct words of "<goal title> <task title>".
    pub keywords: Vec<String>,
    pub same_thread: bool,
}

/// How an observation's words match the candidates.
pub enum TextMatch {
    Unmatched,
    Unique(usize),
    Uncertain(Vec<usize>),
}

/// A match as positions among the candidates.
pub enum MatchView {
    Nothing,
    One(int),
    Several(Seq<int>),
}

/// The view of a match.
pub open spec fn match_view(m: TextMatch) -> MatchView {
    match m {
        TextMatch::Unmatched => MatchView::Nothing,
        TextMatch::Unique(i) => MatchView::One(i as int),
        TextMatch::Uncertain(v) => MatchView::Several(Seq::new(v@.len(), |k: int| v@[k] as int)),
    }
}

/// The keyword lists of the candidates.
pub open spec fn keyword_lists(cs: Seq<TaskCandidate>) -> Seq<Seq<Seq<char>>> {
    Seq::new(cs.len(), |i: int| string_views(cs[i].keywords@))
}

/// How many of the query words a keyword list holds.
pub open spec fn candidate_score(q: Seq<Seq<char>>, k: Seq<Seq<char>>) -> nat {
    shared_count(q, k)
}

/// The best score among the first `n` candidates (0 when there are none).
pub open spec fn max_score(q: Seq<Seq<char>>, cs: Seq<Seq<Seq<char>>>, n: int) -> nat
    decreases n,
{
    if n <= 0 {
        0
    } else {
        let m = max_score(q, cs, n - 1);
        let s = candidate_score(q, cs[n - 1]);
        if s > m {
            s
        } else {
            m
        }
    }
}

/// The positions among the first `n` candidates whose score is `best`, in
/// order.
pub open spec fn best_indices(q: Seq<Seq<char>>, cs: Seq<Seq<Seq<char>>>, best: nat, n: int) -> Seq<int>
    decreases n,
{
    if n <= 0 {
        Seq::empty()
    } else {
        let r = best_indices(q, cs, best, n - 1);
        if candidate_score(q, cs[n - 1]) == best {
            r.push(n - 1)
        } else {
            r
        }
    }
}

/// A match is strong when the best score is at least two, or a best
/// candidate shares a distinctive word.
pub open spec fn strong_match(q: Seq<Seq<char>>, cs: Seq<Seq<Seq<char>>>, best: nat, idx: Seq<int>) -> bool {
    best >= 2 || exists|j: int| 0 <= j < idx.len() && distinctive_shared(q, cs[idx[j]])
}

/// How the words of a text match the candidates: nothing when the text
/// has no words that count or no candidate shares one; the one best
/// candidate when the match is strong; else every best candidate.
pub open spec fn spec_match_text(text: Seq<char>, cs: Seq<Seq<Seq<char>>>) -> MatchView {
    let q = words_of(text);
    let best = max_score(q, cs, cs.len() as int);
    let idx = best_indices(q, cs, best, cs.len() as int);
    if q.len() == 0 || best == 0 {
        MatchView::Nothing
    } else if strong_match(q, cs, best, idx) && idx.len() == 1 {
        MatchView::One(idx[0])
    } else {
        MatchView::Several(idx)
    }
}

proof fn lemma_best_indices_bounded(q: Seq<Seq<char>>, cs: Seq<Seq<Seq<char>>>, best: nat, n: int)
    ensures
        forall|k: int| 0 <= k < best_indices(q, cs, best, n).len() ==> 0 <= #[trigger] best_indices(q, cs, best, n)[k] < n,
        best_indices(q, cs, best, n).len() <= if n < 0 { 0 } else { n },
    decreases n,
{
    if n > 0 {
        lemma_best_indices_bounded(q, cs, best, n - 1);
    }
}

/// How the words of `text` match the candidates.
pub fn match_text(text: &str, candidates: &Vec<TaskCandidate>) -> (r: TextMatch)
    ensures
        match_view(r) == spec_match_text(text@, keyword_lists(candidates@)),
        match r {
            TextMatch::Unique(i) => i < candidates@.len(),
            TextMatch::Uncertain(v) => forall|k: int| 0 <= k < v@.len() ==> #[trigger] v@[k] < candidates@.len(),
            TextMatch::Unmatched => true,
        },
{
    let query = words(text);
    let ghost q = string_views(query@);
    let ghost cs = keyword_lists(candidates@);
    let mut scores: Vec<(usize, bool)> = Vec::new();
    let mut best: usize = 0;
    let mut i: usize = 0;
    while i < candidates.len()
        invariant
            q == string_views(query@),
            q == words_of(text@),
            cs == keyword_lists(candidates@),
            cs.len() == candidates@.len(),
            i <= cs.len(),
            scores@.len() == i,
            best == max_score(q, cs, i as int),
            forall|k: int|
                0 <= k < i ==> (#[trigger] scores@[k]).0 == candidate_score(q, cs[k])
                    && scores@[k].1 == distinctive_shared(q, cs[k]),
        decreases cs.len() - i,
    {
        let pair = shared_words(&query, &candidates[i].keywords);
        assert(cs[i as int] == string_views(candidates@[i as int].keywords@));
        scores.push(pair);
        if pair.0 > best {
            best = pair.0;
        }
        i = i + 1;
    }
    if query.len() == 0 || best == 0 {
        return TextMatch::Unmatched;
    }
    let mut matching: Vec<usize> = Vec::new();
    let mut strong = best >= 2;
    let mut j: usize = 0;
    while j < scores.len()
        invariant
            q == words_of(text@),
            cs == keyword_lists(candidates@),
            cs.len() == candidates@.len(),
            scores@.len() == cs.len(),
            best == max_score(q, cs, cs.len() as int),
            j <= cs.len(),
            forall|k: int|
                0 <= k < cs.len() ==> (#[trigger] scores@[k]).0 == candidate_score(q, cs[k])
                    && scores@[k].1 == distinctive_shared(q, cs[k]),
            Seq::new(matching@.len(), |k: int| matching@[k] as int) == best_indices(q, cs, best as nat, j as int),
            forall|k: int| 0 <= k < matching@.len() ==> #[trigger] matching@[k] < j,
            strong == (best >= 2 || exists|m: int|
                0 <= m < best_indices(q, cs, best as nat, j as int).len() && distinctive_shared(
                    q,
                    cs[best_indices(q, cs, best as nat, j as int)[m]],
                )),
        decreases cs.len() - j,
    {
        let ghost before = best_indices(q, cs, best as nat, j as int);
        let ghost before_strong = strong;
        if scores[j].0 != best {
            proof {
                assert(best_indices(q, cs, best as nat, j + 1) == before);
            }
        }
        if scores[j].0 == best {
            matching.push(j);
            if scores[j].1 {
                strong = true;
            }
            proof {
                let now = best_indices(q, cs, best as nat, j + 1);
                assert(now == before.push(j as int));
                assert(Seq::new(matching@.len(), |k: int| matching@[k] as int) =~= now);
                if scores@[j as int].1 {
                    assert(now[before.len() as int] == j);
                    assert(distinctive_shared(q, cs[now[before.len() as int]]));
                } else if !before_strong {
                    assert forall|m: int| 0 <= m < now.len() implies !distinctive_shared(
                        q,
                        cs[now[m]],
                    ) by {
                        if m < before.len() {
                            assert(now[m] == before[m]);
                        }
                    }
                } else if best < 2 {
                    let m = choose|m: int|
                        0 <= m < before.len() && distinctive_shared(q, cs[before[m]]);
                    assert(now[m] == before[m]);
                }
            }
        }
        j = j + 1;
    }
    proof {
        lemma_best_indices_bounded(q, cs, best as nat, cs.len() as int);
    }
    if strong && matching.len() == 1 {
        let only = matching[0];
        proof {
            assert(best_indices(q, cs, best as nat, cs.len() as int)[0] == only as int);
        }
        TextMatch::Unique(only)
    } else {
        proof {
            assert(Seq::new(matching@.len(), |k: int| matching@[k] as int) == best_indices(
                q,
                cs,
                best as nat,
                cs.len() as int,
            ));
        }
        TextMatch::Uncertain(matching)
    }
}

/// A task candidate's record as values.
pub struct RecordView {
    pub goal_id: GoalId,
    pub goal_title: Seq<char>,
    pub task_id: TaskId,
    pub task_title: Seq<char>,
    pub task_status: TaskStatus,
    pub run_id: Option<RunId>,
    pub evidence: Seq<EventId>,
}

/// A task candidate as values.
pub struct CandidateView {
    pub record: RecordView,
    pub keywords: Seq<Seq<char>>,
    pub same_thread: bool,
}

/// The values of a record.
pub open spec fn record_view(r: FocusCandidate) -> RecordView {
    RecordView {
        goal_id: r.goal_id,
        goal_title: r.goal_title@,
        task_id: r.task_id,
        task_title: r.task_title@,
        task_status: r.task_status,
        run_id: r.run_id,
        evidence: r.evidence_event_ids@,
    }
}

/// The values of a candidate.
pub open spec fn candidate_view(c: TaskCandidate) -> CandidateView {
    CandidateView {
        record: record_view(c.record),
        keywords: string_views(c.keywords@),
        same_thread: c.same_thread,
    }
}

/// The values of each candidate.
pub open spec fn candidate_views(cs: Seq<TaskCandidate>) -> Seq<CandidateView> {
    Seq::new(cs.len(), |i: int| candidate_view(cs[i]))
}

/// Whether a run is a live run of the task: pending or running.
pub open spec fn is_active_run_of(run: Run, task_id: TaskId) -> bool {
    run.task_id == Some(task_id) && (run.status == RunStatus::Pending || run.status
        == RunStatus::Running)
}

/// Among the first `n` runs, the position of the live run of the task
/// started last; of several started at the same time, the one stored last.
pub open spec fn latest_active_run(runs: Seq<Run>, task_id: TaskId, n: int) -> Option<int>
    decreases n,
{
    if n <= 0 {
        None
    } else {
        let prev = latest_active_run(runs, task_id, n - 1);
        let run = runs[n - 1];
        if is_active_run_of(run, task_id) && (prev is None || !text_less(
            run.started_at@,
            runs[prev->0].started_at@,
        )) {
            Some(n - 1)
        } else {
            prev
        }
    }
}

proof fn lemma_latest_active_run_bounded(runs: Seq<Run>, task_id: TaskId, n: int)
    ensures
        latest_active_run(runs, task_id, n) matches Some(k) ==> 0 <= k < n && is_active_run_of(
            runs[k],
            task_id,
        ),
    decreases n,
{
    if n > 0 {
        lemma_latest_active_run_bounded(runs, task_id, n - 1);
    }
}

/// The position of the task's live run started last, if any.
pub fn active_run(state: &CurrentState, task_id: TaskId) -> (r: Option<usize>)
    ensures
        r matches Some(k) ==> k < state.runs@.len(),
        match r {
            Some(k) => latest_active_run(state.runs@, task_id, state.runs@.len() as int) == Some(
                k as int,
            ),
            None => latest_active_run(state.runs@, task_id, state.runs@.len() as int) is None,
        },
{
    let mut best: Option<usize> = None;
    let mut i: usize = 0;
    while i < state.runs.len()
        invariant
            i <= state.runs@.len(),
            match best {
                Some(b) => b < i && latest_active_run(state.runs@, task_id, i as int) == Some(
                    b as int,
                ),
                None => latest_active_run(state.runs@, task_id, i as int) is None,
            },
        decreases state.runs@.len() - i,
    {
        let run = &state.runs[i];
        let live = run.task_id == Some(task_id) && (run.status == RunStatus::Pending || run.status
            == RunStatus::Running);
        if live {
            match best {
                None => {
                    best = Some(i);
                },
                Some(b) => {
                    let current = chars_of(state.runs[b].started_at.as_str());
                    let candidate = chars_of(run.started_at.as_str());
                    if !text_lt(&candidate, &current) {
                        best = Some(i);
                    }
                },
            }
        }
        i = i + 1;
    }
    best
}

/// The first event from `from` on of the kind whose subject has the
/// identifier (of whatever entity kind).
pub open spec fn first_subject_event(events: Seq<ExperienceEvent>, kind: EventKind, id: u128, from: int) -> Option<EventId>
    decreases events.len() - from,
{
    if from < 0 || from >= events.len() {
        None
    } else if events[from].event_kind == kind && (events[from].subject matches Some(s) && s.id == id) {
        Some(events[from].event_id)
    } else {
        first_subject_event(events, kind, id, from + 1)
    }
}

/// The first event from `from` on recording a message whose subject has
/// the identifier.
pub open spec fn first_message_event(events: Seq<ExperienceEvent>, id: u128, from: int) -> Option<EventId>
    decreases events.len() - from,
{
    if from < 0 || from >= events.len() {
        None
    } else if (events[from].event_kind == EventKind::ObservationRecorded || events[from].event_kind
        == EventKind::UserMessageReceived) && (events[from].subject matches Some(s) && s.id == id) {
        Some(events[from].event_id)
    } else {
        first_message_event(events, id, from + 1)
    }
}

/// The first event from `from` on of the kind with the correlation text.
pub open spec fn first_correlated(events: Seq<ExperienceEvent>, kind: EventKind, correlation: Seq<char>, from: int) -> Option<EventId>
    decreases events.len() - from,
{
    if from < 0 || from >= events.len() {
        None
    } else if events[from].event_kind == kind && opt_text(events[from].correlation_id) == Some(
        correlation,
    ) {
        Some(events[from].event_id)
    } else {
        first_correlated(events, kind, correlation, from + 1)
    }
}

/// The list with the identifier appended when there is one it lacks.
pub open spec fn add_unique(v: Seq<EventId>, e: Option<EventId>) -> Seq<EventId> {
    match e {
        Some(x) => if v.contains(x) {
            v
        } else {
            v.push(x)
        },
        None => v,
    }
}

fn push_unique(v: &mut Vec<EventId>, e: Option<EventId>)
    ensures
        final(v)@ == add_unique(old(v)@, e),
{
    match e {
        Some(x) => {
            if !crate::model::contains_id(v, x) {
                v.push(x);
            }
        },
        None => {},
    }
}

fn find_subject_event(events: &[ExperienceEvent], kind: EventKind, id: u128) -> (r: Option<EventId>)
    ensures
        r == first_subject_event(events@, kind, id, 0),
{
    let mut i: usize = 0;
    while i < events.len()
        invariant
            i <= events@.len(),
            first_subject_event(events@, kind, id, 0) == first_subject_event(events@, kind, id, i as int),
        decreases events@.len() - i,
    {
        let e = &events[i];
        let hit = e.event_kind == kind && match e.subject {
            Some(s) => s.id == id,
            None => false,
        };
        if hit {
            return Some(e.event_id);
        }
        i = i + 1;
    }
    None
}

fn find_message_event(events: &[ExperienceEvent], id: u128) -> (r: Option<EventId>)
    ensures
        r == first_message_event(events@, id, 0),
{
    let mut i: usize = 0;
    while i < events.len()
        invariant
            i <= events@.len(),
            first_message_event(events@, id, 0) == first_message_event(events@, id, i as int),
        decreases events@.len() - i,
    {
        let e = &events[i];
        let hit = (e.event_kind == EventKind::ObservationRecorded || e.event_kind
            == EventKind::UserMessageReceived) && match e.subject {
            Some(s) => s.id == id,
            None => false,
        };
        if hit {
            return Some(e.event_id);
        }
        i = i + 1;
    }
    None
}

fn find_correlated(events: &[ExperienceEvent], kind: EventKind, correlation: &str) -> (r: Option<EventId>)
    ensures
        r == first_correlated(events@, kind, correlation@, 0),
{
    let mut i: usize = 0;
    while i < events.len()
        invariant
            i <= events@.len(),
            first_correlated(events@, kind, correlation@, 0) == first_correlated(
                events@,
                kind,
                correlation@,
                i as int,
            ),
        decreases events@.len() - i,
    {
        let e = &events[i];
        let hit = e.event_kind == kind && match &e.correlation_id {
            Some(c) => same_text(c.as_str(), correlation),
            None => false,
        };
        if hit {
            return Some(e.event_id);
        }
        i = i + 1;
    }
    None
}

/// Whether an earlier observation of the same thread was resolved to
/// continue, or to start, the task.
pub open spec fn thread_continues(
    state: &CurrentState,
    resolutions: Seq<FocusResolution>,
    observation: Observation,
    task_id: TaskId,
) -> bool {
    observation.thread_id is Some && exists|i: int|
        0 <= i < state.observations@.len() && {
            let prior = #[trigger] state.observations@[i];
            &&& prior.id != observation.id
            &&& opt_text(prior.thread_id) == opt_text(observation.thread_id)
            &&& lookup(resolutions, prior.id) matches Some(r)
            &&& (r.outcome == FocusOutcome::Continue || r.outcome == FocusOutcome::NewWork)
            &&& r.focus.task_id == Some(task_id)
        }
}

/// Whether an earlier observation of the same thread was attached to the
/// task.
pub open spec fn thread_prior(
    prior: Observation,
    resolutions: Seq<FocusResolution>,
    observation: Observation,
    task_id: TaskId,
) -> bool {
    &&& prior.id != observation.id
    &&& opt_text(prior.thread_id) == opt_text(observation.thread_id)
    &&& lookup(resolutions, prior.id) matches Some(r)
    &&& r.focus.task_id == Some(task_id)
}

/// The identifiers of the first `n` observations that are earlier
/// observations of the thread attached to the task, in order.
pub open spec fn thread_priors(
    observations: Seq<Observation>,
    resolutions: Seq<FocusResolution>,
    observation: Observation,
    task_id: TaskId,
    n: int,
) -> Seq<ObservationId>
    decreases n,
{
    if n <= 0 {
        Seq::empty()
    } else {
        let r = thread_priors(observations, resolutions, observation, task_id, n - 1);
        if thread_prior(observations[n - 1], resolutions, observation, task_id) {
            r.push(observations[n - 1].id)
        } else {
            r
        }
    }
}

/// `acc` followed by, for each earlier observation of the thread, its
/// message event and its resolution event, each added once.
pub open spec fn thread_evidence(events: Seq<ExperienceEvent>, acc: Seq<EventId>, priors: Seq<ObservationId>) -> Seq<EventId>
    decreases priors.len(),
{
    if priors.len() == 0 {
        acc
    } else {
        let p = priors.last();
        let a = thread_evidence(events, acc, priors.drop_last());
        add_unique(
            add_unique(a, first_message_event(events, p, 0)),
            first_correlated(events, EventKind::FocusResolved, uuid_hyphenated(p), 0),
        )
    }
}

/// The candidate a task makes for an actor, if it makes one: the task has
/// a goal the actor owns or takes part in. Its evidence is the goal's and
/// the task's creation and the start of its live run, and, where the
/// thread already continued the task, the thread's earlier messages and
/// resolutions; its keywords are the words of the goal and task titles.
pub open spec fn spec_candidate(
    state: &CurrentState,
    resolutions: Seq<FocusResolution>,
    events: Seq<ExperienceEvent>,
    observation: Observation,
    actor_id: PrincipalId,
    task: Task,
) -> Option<CandidateView> {
    match task.goal_id {
        None => None,
        Some(goal_id) => match lookup(state.goals@, goal_id) {
            None => None,
            Some(goal) => if goal.owner_principal_id != actor_id && !goal.participants@.contains(
                actor_id,
            ) {
                None
            } else {
                let run = latest_active_run(state.runs@, task.id, state.runs@.len() as int);
                let base0 = add_unique(
                    add_unique(
                        Seq::empty(),
                        first_subject_event(events, EventKind::GoalCreated, goal_id, 0),
                    ),
                    first_subject_event(events, EventKind::TaskCreated, task.id, 0),
                );
                let base = match run {
                    Some(k) => add_unique(
                        base0,
                        first_subject_event(events, EventKind::RunStarted, state.runs@[k].id, 0),
                    ),
                    None => base0,
                };
                let same = thread_continues(state, resolutions, observation, task.id);
                let evidence = if same {
                    thread_evidence(
                        events,
                        base,
                        thread_priors(
                            state.observations@,
                            resolutions,
                            observation,
                            task.id,
                            state.observations@.len() as int,
                        ),
                    )
                } else {
                    base
                };
                Some(
                    CandidateView {
                        record: RecordView {
                            goal_id,
                            goal_title: goal.title@,
                            task_id: task.id,
                            task_title: task.title@,
                            task_status: task.status,
                            run_id: match run {
                                Some(k) => Some(state.runs@[k].id),
                                None => None,
                            },
                            evidence,
                        },
                        keywords: words_of(goal.title@ + " "@ + task.title@),
                        same_thread: same,
                    },
                )
            },
        },
    }
}

fn thread_check(
    state: &CurrentState,
    resolutions: &Vec<FocusResolution>,
    observation: &Observation,
    task_id: TaskId,
) -> (r: bool)
    requires
        sorted_keys(resolutions@),
    ensures
        r == thread_continues(state, resolutions@, *observation, task_id),
{
    if observation.thread_id.is_none() {
        return false;
    }
    let mut i: usize = 0;
    while i < state.observations.len()
        invariant
            sorted_keys(resolutions@),
            observation.thread_id is Some,
            i <= state.observations@.len(),
            forall|j: int|
                0 <= j < i ==> !({
                    let prior = #[trigger] state.observations@[j];
                    &&& prior.id != observation.id
                    &&& opt_text(prior.thread_id) == opt_text(observation.thread_id)
                    &&& lookup(resolutions@, prior.id) matches Some(r)
                    &&& (r.outcome == FocusOutcome::Continue || r.outcome == FocusOutcome::NewWork)
                    &&& r.focus.task_id == Some(task_id)
                }),
        decreases state.observations@.len() - i,
    {
        let prior = &state.observations[i];
        if prior.id != observation.id && same_opt_text(&prior.thread_id, &observation.thread_id) {
            match get(resolutions, prior.id) {
                Some(r) => {
                    if (r.outcome == FocusOutcome::Continue || r.outcome == FocusOutcome::NewWork)
                        && r.focus.task_id == Some(task_id) {
                        return true;
                    }
                },
                None => {},
            }
        }
        i = i + 1;
    }
    false
}

fn add_thread_evidence(
    state: &CurrentState,
    resolutions: &Vec<FocusResolution>,
    events: &[ExperienceEvent],
    observation: &Observation,
    task_id: TaskId,
    evidence: &mut Vec<EventId>,
)
    requires
        sorted_keys(resolutions@),
    ensures
        final(evidence)@ == thread_evidence(
            events@,
            old(evidence)@,
            thread_priors(
                state.observations@,
                resolutions@,
                *observation,
                task_id,
                state.observations@.len() as int,
            ),
        ),
{
    let ghost start = evidence@;
    let mut i: usize = 0;
    while i < state.observations.len()
        invariant
            sorted_keys(resolutions@),
            i <= state.observations@.len(),
            evidence@ == thread_evidence(
                events@,
                start,
                thread_priors(state.observations@, resolutions@, *observation, task_id, i as int),
            ),
        decreases state.observations@.len() - i,
    {
        let prior = &state.observations[i];
        let attached = prior.id != observation.id && same_opt_text(
            &prior.thread_id,
            &observation.thread_id,
        ) && match get(resolutions, prior.id) {
            Some(r) => r.focus.task_id == Some(task_id),
            None => false,
        };
        let ghost before = thread_priors(state.observations@, resolutions@, *observation, task_id, i as int);
        if attached {
            push_unique(evidence, find_message_event(events, prior.id));
            let correlation = uuid_text(prior.id);
            push_unique(evidence, find_correlated(events, EventKind::FocusResolved, correlation.as_str()));
            proof {
                let now = before.push(prior.id);
                assert(now.drop_last() =~= before);
                assert(thread_priors(state.observations@, resolutions@, *observation, task_id, i + 1) == now);
            }
        }
        i = i + 1;
    }
}

/// The candidate `task` makes for the actor, if it makes one.
pub fn candidate(
    state: &CurrentState,
    resolutions: &Vec<FocusResolution>,
    events: &[ExperienceEvent],
    observation: &Observation,
    actor_id: PrincipalId,
    task: &Task,
) -> (r: Option<TaskCandidate>)
    requires
        state.wf(),
        sorted_keys(resolutions@),
    ensures
        match r {
            Some(c) => spec_candidate(state, resolutions@, events@, *observation, actor_id, *task)
                == Some(candidate_view(c)),
            None => spec_candidate(state, resolutions@, events@, *observation, actor_id, *task) is None,
        },
{
    let goal_id = match task.goal_id {
        None => {
            return None;
        },
        Some(g) => g,
    };
    let goal = match get(&state.goals, goal_id) {
        None => {
            return None;
        },
        Some(g) => g,
    };
    if goal.owner_principal_id != actor_id && !crate::model::contains_id(&goal.participants, actor_id) {
        return None;
    }
    let mut evidence: Vec<EventId> = Vec::new();
    push_unique(&mut evidence, find_subject_event(events, EventKind::GoalCreated, goal_id));
    push_unique(&mut evidence, find_subject_event(events, EventKind::TaskCreated, task.id));
    let run = active_run(state, task.id);
    let run_id = match run {
        Some(k) => {
            let id = state.runs[k].id;
            push_unique(&mut evidence, find_subject_event(events, EventKind::RunStarted, id));
            Some(id)
        },
        None => None,
    };
    let same_thread = thread_check(state, resolutions, observation, task.id);
    if same_thread {
        add_thread_evidence(state, resolutions, events, observation, task.id, &mut evidence);
    }
    let mut text = goal.title.clone();
    text.append(" ");
    text.append(task.title.as_str());
    let keywords = words(text.as_str());
    Some(
        TaskCandidate {
            record: FocusCandidate {
                goal_id,
                goal_title: goal.title.clone(),
                task_id: task.id,
                task_title: task.title.clone(),
                task_status: task.status,
                run_id,
                evidence_event_ids: evidence,
            },
            keywords,
            same_thread,
        },
    )
}

/// The live candidates among the first `n` tasks: tasks in progress whose
/// goal is active and which make a candidate for the actor.
pub open spec fn active_candidates(
    state: &CurrentState,
    resolutions: Seq<FocusResolution>,
    events: Seq<ExperienceEvent>,
    observation: Observation,
    actor_id: PrincipalId,
    n: int,
) -> Seq<CandidateView>
    decreases n,
{
    if n <= 0 {
        Seq::empty()
    } else {
        let r = active_candidates(state, resolutions, events, observation, actor_id, n - 1);
        match spec_candidate(state, resolutions, events, observation, actor_id, state.tasks@[n - 1]) {
            Some(c) => if c.record.task_status == TaskStatus::InProgress && (lookup(
                state.goals@,
                c.record.goal_id,
            ) matches Some(g) && g.status == GoalStatus::Active) {
                r.push(c)
            } else {
                r
            },
            None => r,
        }
    }
}

/// The live tasks the actor may continue, in task order.
pub fn active_tasks(
    state: &CurrentState,
    resolutions: &Vec<FocusResolution>,
    events: &[ExperienceEvent],
    observation: &Observation,
    actor_id: PrincipalId,
) -> (r: Vec<TaskCandidate>)
    requires
        state.wf(),
        sorted_keys(resolutions@),
    ensures
        candidate_views(r@) == active_candidates(
            state,
            resolutions@,
            events@,
            *observation,
            actor_id,
            state.tasks@.len() as int,
        ),
{
    let mut out: Vec<TaskCandidate> = Vec::new();
    let mut i: usize = 0;
    proof {
        assert(candidate_views(out@) =~= Seq::<CandidateView>::empty());
    }
    while i < state.tasks.len()
        invariant
            state.wf(),
            sorted_keys(resolutions@),
            i <= state.tasks@.len(),
            candidate_views(out@) == active_candidates(
                state,
                resolutions@,
                events@,
                *observation,
                actor_id,
                i as int,
            ),
        decreases state.tasks@.len() - i,
    {
        let ghost before = candidate_views(out@);
        match candidate(state, resolutions, events, observation, actor_id, &state.tasks[i]) {
            Some(c) => {
                let live = c.record.task_status == TaskStatus::InProgress && match get(
                    &state.goals,
                    c.record.goal_id,
                ) {
                    Some(g) => g.status == GoalStatus::Active,
                    None => false,
                };
                if live {
                    let ghost v = candidate_view(c);
                    out.push(c);
                    proof {
                        assert(candidate_views(out@) =~= before.push(v));
                    }
                }
            },
            None => {},
        }
        i = i + 1;
    }
    out
}

/// Whether the actor owns the goal or takes part in it.
pub open spec fn spec_owned_goal(state: &CurrentState, actor_id: PrincipalId, goal_id: GoalId) -> bool {
    lookup(state.goals@, goal_id) matches Some(goal) && (goal.owner_principal_id == actor_id
        || goal.participants@.contains(actor_id))
}

/// Whether the actor owns the goal or takes part in it.
pub fn owned_goal(state: &CurrentState, actor_id: PrincipalId, goal_id: GoalId) -> (r: bool)
    requires
        state.wf(),
    ensures
        r == spec_owned_goal(state, actor_id, goal_id),
{
    match get(&state.goals, goal_id) {
        Some(goal) => goal.owner_principal_id == actor_id || crate::model::contains_id(
            &goal.participants,
            actor_id,
        ),
        None => false,
    }
}

/// The task a run belongs to, where its goal is the actor's.
pub open spec fn spec_owned_run_task(state: &CurrentState, actor_id: PrincipalId, run: Run) -> Option<Task> {
    match run.task_id {
        None => None,
        Some(task_id) => match lookup(state.tasks@, task_id) {
            None => None,
            Some(task) => match task.goal_id {
                None => None,
                Some(goal_id) => if spec_owned_goal(state, actor_id, goal_id) {
                    Some(task)
                } else {
                    None
                },
            },
        },
    }
}

fn clone_task(t: &Task) -> (r: Task)
    ensures
        r == *t,
{
    Task { id: t.id, goal_id: t.goal_id, title: t.title.clone(), status: t.status }
}

/// The task a run belongs to, where its goal is the actor's.
pub fn owned_run_task(state: &CurrentState, actor_id: PrincipalId, run: &Run) -> (r: Option<Task>)
    requires
        state.wf(),
    ensures
        r == spec_owned_run_task(state, actor_id, *run),
{
    let task_id = match run.task_id {
        None => {
            return None;
        },
        Some(id) => id,
    };
    let task = match get(&state.tasks, task_id) {
        None => {
            return None;
        },
        Some(t) => t,
    };
    let goal_id = match task.goal_id {
        None => {
            return None;
        },
        Some(g) => g,
    };
    if owned_goal(state, actor_id, goal_id) {
        Some(clone_task(task))
    } else {
        None
    }
}

/// The candidate `task` makes for the actor, if it makes one.
pub fn task_reference(
    state: &CurrentState,
    resolutions: &Vec<FocusResolution>,
    events: &[ExperienceEvent],
    observation: &Observation,
    actor_id: PrincipalId,
    task: &Task,
) -> (r: Option<TaskCandidate>)
    requires
        state.wf(),
        sorted_keys(resolutions@),
    ensures
        match r {
            Some(c) => spec_candidate(state, resolutions@, events@, *observation, actor_id, *task)
                == Some(candidate_view(c)),
            None => spec_candidate(state, resolutions@, events@, *observation, actor_id, *task) is None,
        },
{
    candidate(state, resolutions, events, observation, actor_id, task)
}

/// A goal as values.
pub struct GoalView {
    pub id: GoalId,
    pub owner_principal_id: PrincipalId,
    pub participants: Seq<PrincipalId>,
    pub title: Seq<char>,
    pub status: GoalStatus,
}

/// A task as values.
pub struct TaskView {
    pub id: TaskId,
    pub goal_id: Option<GoalId>,
    pub title: Seq<char>,
    pub status: TaskStatus,
}

/// A run as values.
pub struct RunView {
    pub id: RunId,
    pub task_id: Option<TaskId>,
    pub status: RunStatus,
    pub started_at: Seq<char>,
}

/// A resolution together with the work it creates, as values.
pub struct PlanView {
    pub observation_id: ObservationId,
    pub outcome: FocusOutcome,
    pub focus: Focus,
    pub as_of_revision: u64,
    pub basis: FocusBasis,
    pub candidates: Seq<RecordView>,
    pub clarification: Option<Seq<char>>,
    pub goal: Option<GoalView>,
    pub task: Option<TaskView>,
    pub run: Option<RunView>,
}

/// How an observation is attached to work, with the goal, task and run to
/// create for it.
pub struct FocusPlan {
    pub resolution: FocusResolution,
    pub goal: Option<Goal>,
    pub task: Option<Task>,
    pub run: Option<Run>,
}

/// The values of each record.
pub open spec fn record_views(v: Seq<FocusCandidate>) -> Seq<RecordView> {
    Seq::new(v.len(), |i: int| record_view(v[i]))
}

/// The values of a plan.
pub open spec fn plan_view(p: FocusPlan) -> PlanView {
    PlanView {
        observation_id: p.resolution.observation_id,
        outcome: p.resolution.outcome,
        focus: p.resolution.focus,
        as_of_revision: p.resolution.as_of_revision,
        basis: p.resolution.basis,
        candidates: record_views(p.resolution.candidates@),
        clarification: opt_text(p.resolution.clarification),
        goal: match p.goal {
            Some(g) => Some(
                GoalView {
                    id: g.id,
                    owner_principal_id: g.owner_principal_id,
                    participants: g.participants@,
                    title: g.title@,
                    status: g.status,
                },
            ),
            None => None,
        },
        task: match p.task {
            Some(t) => Some(TaskView { id: t.id, goal_id: t.goal_id, title: t.title@, status: t.status }),
            None => None,
        },
        run: match p.run {
            Some(r) => Some(
                RunView { id: r.id, task_id: r.task_id, status: r.status, started_at: r.started_at@ },
            ),
            None => None,
        },
    }
}

/// Fresh identifiers for the work a resolution may create.
#[derive(Clone, Copy, Debug, PartialEq, Eq, Structural)]
pub struct FreshIds {
    pub goal_id: GoalId,
    pub task_id: TaskId,
    pub run_id: RunId,
}

/// The records of the candidates.
pub open spec fn records_of(cs: Seq<CandidateView>) -> Seq<RecordView> {
    Seq::new(cs.len(), |i: int| cs[i].record)
}

/// Continuing a candidate's task: on the run named, else its live run
/// started last, else a new running run started `now`.
pub open spec fn continue_view(
    state: &CurrentState,
    observation_id: ObservationId,
    record: RecordView,
    basis: FocusBasis,
    forced_run: Option<RunId>,
    fresh: FreshIds,
    now: Seq<char>,
) -> PlanView {
    let existing = match forced_run {
        Some(id) => Some(id),
        None => match latest_active_run(state.runs@, record.task_id, state.runs@.len() as int) {
            Some(k) => Some(state.runs@[k].id),
            None => None,
        },
    };
    let run_id = match existing {
        Some(id) => id,
        None => fresh.run_id,
    };
    PlanView {
        observation_id,
        outcome: FocusOutcome::Continue,
        focus: Focus {
            goal_id: Some(record.goal_id),
            task_id: Some(record.task_id),
            run_id: Some(run_id),
        },
        as_of_revision: state.revision,
        basis,
        candidates: seq![record],
        clarification: None,
        goal: None,
        task: None,
        run: match existing {
            Some(_) => None,
            None => Some(
                RunView {
                    id: fresh.run_id,
                    task_id: Some(record.task_id),
                    status: RunStatus::Running,
                    started_at: now,
                },
            ),
        },
    }
}

/// Starting new work: a goal owned by the user with HEKATE taking part, a
/// task in progress and a running run, titled from the request.
pub open spec fn new_work_view(
    state: &CurrentState,
    observation: Observation,
    user_id: PrincipalId,
    hekate_id: PrincipalId,
    cands: Seq<CandidateView>,
    fresh: FreshIds,
    now: Seq<char>,
) -> PlanView {
    let title = spec_task_title(observation.content@);
    PlanView {
        observation_id: observation.id,
        outcome: FocusOutcome::NewWork,
        focus: Focus {
            goal_id: Some(fresh.goal_id),
            task_id: Some(fresh.task_id),
            run_id: Some(fresh.run_id),
        },
        as_of_revision: state.revision,
        basis: FocusBasis::ExplicitNewWork,
        candidates: records_of(cands),
        clarification: None,
        goal: Some(
            GoalView {
                id: fresh.goal_id,
                owner_principal_id: user_id,
                participants: seq![user_id, hekate_id],
                title,
                status: GoalStatus::Active,
            },
        ),
        task: Some(
            TaskView {
                id: fresh.task_id,
                goal_id: Some(fresh.goal_id),
                title,
                status: TaskStatus::InProgress,
            },
        ),
        run: Some(
            RunView {
                id: fresh.run_id,
                task_id: Some(fresh.task_id),
                status: RunStatus::Running,
                started_at: now,
            },
        ),
    }
}

/// Ordinary conversation: a running run attached to no task.
pub open spec fn conversation_view(
    state: &CurrentState,
    observation_id: ObservationId,
    cands: Seq<CandidateView>,
    fresh: FreshIds,
    now: Seq<char>,
) -> PlanView {
    PlanView {
        observation_id,
        outcome: FocusOutcome::Conversation,
        focus: Focus { goal_id: None, task_id: None, run_id: Some(fresh.run_id) },
        as_of_revision: state.revision,
        basis: FocusBasis::GeneralConversation,
        candidates: records_of(cands),
        clarification: None,
        goal: None,
        task: None,
        run: Some(
            RunView { id: fresh.run_id, task_id: None, status: RunStatus::Running, started_at: now },
        ),
    }
}

/// One candidate as a choice: its title in quotes and its task
/// identifier in brackets.
pub open spec fn choice_text(r: RecordView) -> Seq<char> {
    "'"@ + r.task_title + "' ("@ + uuid_hyphenated(r.task_id) + ")"@
}

/// The choices joined by ", ".
pub open spec fn joined_choices(rs: Seq<RecordView>) -> Seq<char>
    decreases rs.len(),
{
    if rs.len() == 0 {
        Seq::empty()
    } else if rs.len() == 1 {
        choice_text(rs[0])
    } else {
        joined_choices(rs.drop_last()) + ", "@ + choice_text(rs.last())
    }
}

/// The question asking which candidate to continue, naming at most five.
pub open spec fn spec_candidate_question(rs: Seq<RecordView>) -> Seq<char> {
    if rs.len() == 0 {
        "Which task do you want to continue? Give its task ID or say 'new task: ...'."@
    } else {
        let shown = if rs.len() > 5 {
            rs.subrange(0, 5)
        } else {
            rs
        };
        "Which task should I continue: "@ + joined_choices(shown)
            + "? Reply with a task ID or say 'new task: ...'."@
    }
}

/// Asking a question instead of attaching the observation to work.
pub open spec fn clarification_view(
    state: &CurrentState,
    observation_id: ObservationId,
    basis: FocusBasis,
    rs: Seq<RecordView>,
    question: Option<Seq<char>>,
) -> PlanView {
    PlanView {
        observation_id,
        outcome: FocusOutcome::Clarification,
        focus: Focus { goal_id: None, task_id: None, run_id: None },
        as_of_revision: state.revision,
        basis,
        candidates: rs,
        clarification: match question {
            Some(q) => Some(q),
            None => Some(spec_candidate_question(rs)),
        },
        goal: None,
        task: None,
        run: None,
    }
}

fn clone_record(r: &FocusCandidate) -> (c: FocusCandidate)
    ensures
        record_view(c) == record_view(*r),
{
    FocusCandidate {
        goal_id: r.goal_id,
        goal_title: r.goal_title.clone(),
        task_id: r.task_id,
        task_title: r.task_title.clone(),
        task_status: r.task_status,
        run_id: r.run_id,
        evidence_event_ids: crate::model::clone_ids(&r.evidence_event_ids),
    }
}

/// The records of the candidates.
pub fn records(cs: &Vec<TaskCandidate>) -> (r: Vec<FocusCandidate>)
    ensures
        record_views(r@) == records_of(candidate_views(cs@)),
{
    let mut out: Vec<FocusCandidate> = Vec::new();
    let mut i: usize = 0;
    while i < cs.len()
        invariant
            i <= cs@.len(),
            record_views(out@) == records_of(candidate_views(cs@.subrange(0, i as int))),
        decreases cs@.len() - i,
    {
        let ghost before = record_views(out@);
        out.push(clone_record(&cs[i].record));
        proof {
            assert(records_of(candidate_views(cs@.subrange(0, i + 1))) =~= before.push(
                record_view(cs@[i as int].record),
            ));
            assert(record_views(out@) =~= before.push(record_view(cs@[i as int].record)));
        }
        i = i + 1;
    }
    proof {
        assert(cs@.subrange(0, cs@.len() as int) =~= cs@);
    }
    out
}

/// The question asking which candidate to continue.
pub fn candidate_question(rs: &Vec<FocusCandidate>) -> (r: String)
    ensures
        r@ == spec_candidate_question(record_views(rs@)),
{
    let ghost all = record_views(rs@);
    if rs.len() == 0 {
        return "Which task do you want to continue? Give its task ID or say 'new task: ...'.".to_owned();
    }
    let shown: usize = if rs.len() > 5 {
        5
    } else {
        rs.len()
    };
    let mut text = "Which task should I continue: ".to_owned();
    let ghost head = text@;
    let mut i: usize = 0;
    while i < shown
        invariant
            all == record_views(rs@),
            shown <= rs@.len(),
            i <= shown,
            text@ == head + joined_choices(all.subrange(0, i as int)),
        decreases shown - i,
    {
        if i > 0 {
            text.append(", ");
        }
        text.append("'");
        text.append(rs[i].task_title.as_str());
        text.append("' (");
        text.append(uuid_text(rs[i].task_id).as_str());
        text.append(")");
        proof {
            let s = all.subrange(0, i + 1);
            assert(s.drop_last() =~= all.subrange(0, i as int));
            assert(s.last() == all[i as int]);
            if i == 0 {
                assert(s.len() == 1);
                assert(text@ =~= head + joined_choices(s));
            } else {
                assert(text@ =~= head + joined_choices(s));
            }
        }
        i = i + 1;
    }
    text.append("? Reply with a task ID or say 'new task: ...'.");
    proof {
        if rs@.len() > 5 {
            assert(all.subrange(0, 5) == all.subrange(0, shown as int));
        } else {
            assert(all.subrange(0, shown as int) =~= all);
        }
    }
    text
}

fn focus_resolution(
    observation_id: ObservationId,
    outcome: FocusOutcome,
    focus: Focus,
    as_of_revision: u64,
    basis: FocusBasis,
    candidates: Vec<FocusCandidate>,
    clarification: Option<String>,
) -> (r: FocusResolution)
    ensures
        r.observation_id == observation_id,
        r.outcome == outcome,
        r.focus == focus,
        r.as_of_revision == as_of_revision,
        r.basis == basis,
        r.candidates@ == candidates@,
        r.clarification == clarification,
{
    FocusResolution {
        observation_id,
        outcome,
        focus,
        as_of_revision,
        basis,
        candidates,
        clarification,
    }
}

/// Continues a candidate's task, on `forced_run` when one is named.
pub fn continue_task(
    state: &CurrentState,
    observation: &Observation,
    candidate: &TaskCandidate,
    basis: FocusBasis,
    forced_run: Option<RunId>,
    fresh: FreshIds,
    now: &str,
) -> (r: FocusPlan)
    ensures
        plan_view(r) == continue_view(
            state,
            observation.id,
            candidate_view(*candidate).record,
            basis,
            forced_run,
            fresh,
            now@,
        ),
{
    let task_id = candidate.record.task_id;
    let existing: Option<RunId> = match forced_run {
        Some(id) => Some(id),
        None => match active_run(state, task_id) {
            Some(k) => Some(state.runs[k].id),
            None => None,
        },
    };
    let (run_id, new_run) = match existing {
        Some(id) => (id, None),
        None => (
            fresh.run_id,
            Some(
                Run {
                    id: fresh.run_id,
                    task_id: Some(task_id),
                    status: RunStatus::Running,
                    started_at: now.to_owned(),
                },
            ),
        ),
    };
    let record = clone_record(&candidate.record);
    let ghost rv = record_view(record);
    let candidates = vec![record];
    proof {
        assert(record_views(candidates@) =~= seq![rv]);
    }
    FocusPlan {
        resolution: focus_resolution(
            observation.id,
            FocusOutcome::Continue,
            Focus {
                goal_id: Some(candidate.record.goal_id),
                task_id: Some(task_id),
                run_id: Some(run_id),
            },
            state.revision,
            basis,
            candidates,
            None,
        ),
        goal: None,
        task: None,
        run: new_run,
    }
}

/// Starts new work for the user, titled from the request.
pub fn new_work(
    state: &CurrentState,
    observation: &Observation,
    user_id: PrincipalId,
    hekate_id: PrincipalId,
    candidates: &Vec<TaskCandidate>,
    fresh: FreshIds,
    now: &str,
) -> (r: FocusPlan)
    requires
        title_cut_ok(observation.content@),
    ensures
        plan_view(r) == new_work_view(
            state,
            *observation,
            user_id,
            hekate_id,
            candidate_views(candidates@),
            fresh,
            now@,
        ),
{
    let title = task_title(observation.content.as_str());
    let participants = vec![user_id, hekate_id];
    proof {
        assert(participants@ =~= seq![user_id, hekate_id]);
    }
    FocusPlan {
        resolution: focus_resolution(
            observation.id,
            FocusOutcome::NewWork,
            Focus {
                goal_id: Some(fresh.goal_id),
                task_id: Some(fresh.task_id),
                run_id: Some(fresh.run_id),
            },
            state.revision,
            FocusBasis::ExplicitNewWork,
            records(candidates),
            None,
        ),
        goal: Some(
            Goal {
                id: fresh.goal_id,
                owner_principal_id: user_id,
                participants,
                title: title.clone(),
                status: GoalStatus::Active,
            },
        ),
        task: Some(
            Task {
                id: fresh.task_id,
                goal_id: Some(fresh.goal_id),
                title,
                status: TaskStatus::InProgress,
            },
        ),
        run: Some(
            Run {
                id: fresh.run_id,
                task_id: Some(fresh.task_id),
                status: RunStatus::Running,
                started_at: now.to_owned(),
            },
        ),
    }
}

/// Treats the observation as ordinary conversation on a run of its own.
pub fn conversation(
    state: &CurrentState,
    observation: &Observation,
    candidates: &Vec<TaskCandidate>,
    fresh: FreshIds,
    now: &str,
) -> (r: FocusPlan)
    ensures
        plan_view(r) == conversation_view(
            state,
            observation.id,
            candidate_views(candidates@),
            fresh,
            now@,
        ),
{
    FocusPlan {
        resolution: focus_resolution(
            observation.id,
            FocusOutcome::Conversation,
            Focus { goal_id: None, task_id: None, run_id: Some(fresh.run_id) },
            state.revision,
            FocusBasis::GeneralConversation,
            records(candidates),
            None,
        ),
        goal: None,
        task: None,
        run: Some(
            Run { id: fresh.run_id, task_id: None, status: RunStatus::Running, started_at: now.to_owned() },
        ),
    }
}

/// Asks a question instead of attaching the observation to work: the one
/// given, else which of the candidates to continue.
pub fn clarification(
    state: &CurrentState,
    observation: &Observation,
    basis: FocusBasis,
    records: Vec<FocusCandidate>,
    question: Option<String>,
) -> (r: FocusPlan)
    ensures
        plan_view(r) == clarification_view(
            state,
            observation.id,
            basis,
            record_views(records@),
            opt_text(question),
        ),
{
    let text = match question {
        Some(q) => q,
        None => candidate_question(&records),
    };
    FocusPlan {
        resolution: focus_resolution(
            observation.id,
            FocusOutcome::Clarification,
            Focus::unattached(),
            state.revision,
            basis,
            records,
            Some(text),
        ),
        goal: None,
        task: None,
        run: None,
    }
}

/// The positions among the first `n` candidates the observation's thread
/// already worked on.
pub open spec fn same_thread_indices(cs: Seq<CandidateView>, n: int) -> Seq<int>
    decreases n,
{
    if n <= 0 {
        Seq::empty()
    } else {
        let r = same_thread_indices(cs, n - 1);
        if cs[n - 1].same_thread {
            r.push(n - 1)
        } else {
            r
        }
    }
}

/// The keyword lists of the candidates.
pub open spec fn view_keywords(cs: Seq<CandidateView>) -> Seq<Seq<Seq<char>>> {
    Seq::new(cs.len(), |i: int| cs[i].keywords)
}

/// The records at the given positions.
pub open spec fn records_at(cs: Seq<CandidateView>, idx: Seq<int>) -> Seq<RecordView> {
    Seq::new(idx.len(), |k: int| cs[idx[k]].record)
}

/// Choosing among candidates: none leaves a question; one the thread
/// already worked on is continued; else the words decide, a single
/// candidate is continued, and several are asked about.
pub open spec fn pool_view(
    state: &CurrentState,
    observation: Observation,
    cs: Seq<CandidateView>,
    single_basis: FocusBasis,
    continuation: bool,
    fresh: FreshIds,
    now: Seq<char>,
) -> PlanView {
    let basis = if continuation {
        FocusBasis::ExplicitContinuation
    } else {
        single_basis
    };
    let same = same_thread_indices(cs, cs.len() as int);
    if cs.len() == 0 {
        clarification_view(
            state,
            observation.id,
            FocusBasis::ClosedWorkReference,
            Seq::empty(),
            Some(
                "I couldn't identify an active task to continue. Name its task ID or say 'new task: ...'."@,
            ),
        )
    } else if same.len() == 1 {
        continue_view(
            state,
            observation.id,
            cs[same[0]].record,
            FocusBasis::SameThreadContinuation,
            None,
            fresh,
            now,
        )
    } else {
        match spec_match_text(observation.content@, view_keywords(cs)) {
            MatchView::One(i) => continue_view(state, observation.id, cs[i].record, basis, None, fresh, now),
            MatchView::Several(idx) => if cs.len() > 1 {
                clarification_view(
                    state,
                    observation.id,
                    FocusBasis::AmbiguousCandidates,
                    records_at(cs, idx),
                    None,
                )
            } else {
                continue_view(state, observation.id, cs[0].record, basis, None, fresh, now)
            },
            MatchView::Nothing => if cs.len() == 1 {
                continue_view(state, observation.id, cs[0].record, basis, None, fresh, now)
            } else {
                clarification_view(
                    state,
                    observation.id,
                    FocusBasis::AmbiguousCandidates,
                    records_of(cs),
                    None,
                )
            },
        }
    }
}

fn records_at_positions(cs: &Vec<TaskCandidate>, idx: &Vec<usize>) -> (r: Vec<FocusCandidate>)
    requires
        forall|k: int| 0 <= k < idx@.len() ==> #[trigger] idx@[k] < cs@.len(),
    ensures
        record_views(r@) == records_at(
            candidate_views(cs@),
            Seq::new(idx@.len(), |k: int| idx@[k] as int),
        ),
{
    let ghost positions = Seq::new(idx@.len(), |k: int| idx@[k] as int);
    let mut out: Vec<FocusCandidate> = Vec::new();
    let mut i: usize = 0;
    while i < idx.len()
        invariant
            forall|k: int| 0 <= k < idx@.len() ==> #[trigger] idx@[k] < cs@.len(),
            positions == Seq::new(idx@.len(), |k: int| idx@[k] as int),
            i <= idx@.len(),
            record_views(out@) == records_at(candidate_views(cs@), positions.subrange(0, i as int)),
        decreases idx@.len() - i,
    {
        let ghost before = record_views(out@);
        let k = idx[i];
        out.push(clone_record(&cs[k].record));
        proof {
            assert(records_at(candidate_views(cs@), positions.subrange(0, i + 1)) =~= before.push(
                record_view(cs@[k as int].record),
            ));
            assert(record_views(out@) =~= before.push(record_view(cs@[k as int].record)));
        }
        i = i + 1;
    }
    proof {
        assert(positions.subrange(0, positions.len() as int) =~= positions);
    }
    out
}

/// Chooses among candidates; `single_candidate_basis` is the basis for
/// continuing one chosen by its words or alone, unless the observation
/// asked to continue.
pub fn choose_from_pool(
    state: &CurrentState,
    observation: &Observation,
    candidates: Vec<TaskCandidate>,
    single_candidate_basis: FocusBasis,
    continuation_request: bool,
    fresh: FreshIds,
    now: &str,
) -> (r: FocusPlan)
    ensures
        plan_view(r) == pool_view(
            state,
            *observation,
            candidate_views(candidates@),
            single_candidate_basis,
            continuation_request,
            fresh,
            now@,
        ),
{
    let ghost cs = candidate_views(candidates@);
    let basis = if continuation_request {
        FocusBasis::ExplicitContinuation
    } else {
        single_candidate_basis
    };
    if candidates.len() == 0 {
        let records: Vec<FocusCandidate> = Vec::new();
        proof {
            assert(record_views(records@) =~= Seq::<RecordView>::empty());
        }
        return clarification(
            state,
            observation,
            FocusBasis::ClosedWorkReference,
            records,
            Some(
                "I couldn't identify an active task to continue. Name its task ID or say 'new task: ...'.".to_owned(),
            ),
        );
    }
    let mut same: Vec<usize> = Vec::new();
    let mut i: usize = 0;
    while i < candidates.len()
        invariant
            cs == candidate_views(candidates@),
            i <= candidates@.len(),
            Seq::new(same@.len(), |k: int| same@[k] as int) == same_thread_indices(cs, i as int),
            forall|k: int| 0 <= k < same@.len() ==> #[trigger] same@[k] < i,
        decreases candidates@.len() - i,
    {
        if candidates[i].same_thread {
            same.push(i);
            proof {
                assert(Seq::new(same@.len(), |k: int| same@[k] as int) =~= same_thread_indices(
                    cs,
                    i + 1,
                ));
            }
        }
        i = i + 1;
    }
    if same.len() == 1 {
        let k = same[0];
        proof {
            assert(same_thread_indices(cs, cs.len() as int)[0] == k as int);
        }
        return continue_task(
            state,
            observation,
            &candidates[k],
            FocusBasis::SameThreadContinuation,
            None,
            fresh,
            now,
        );
    }
    proof {
        assert(keyword_lists(candidates@) =~= view_keywords(cs));
    }
    match match_text(observation.content.as_str(), &candidates) {
        TextMatch::Unique(k) => continue_task(
            state,
            observation,
            &candidates[k],
            basis,
            None,
            fresh,
            now,
        ),
        TextMatch::Uncertain(indices) => {
            if candidates.len() > 1 {
                let records = records_at_positions(&candidates, &indices);
                clarification(state, observation, FocusBasis::AmbiguousCandidates, records, None)
            } else {
                continue_task(state, observation, &candidates[0], basis, None, fresh, now)
            }
        },
        TextMatch::Unmatched => {
            if candidates.len() == 1 {
                continue_task(state, observation, &candidates[0], basis, None, fresh, now)
            } else {
                let records = records(&candidates);
                clarification(state, observation, FocusBasis::AmbiguousCandidates, records, None)
            }
        },
    }
}

/// The name of a run status, as its `Debug` form.
pub open spec fn run_status_name(status: RunStatus) -> Seq<char> {
    match status {
        RunStatus::Pending => "Pending"@,
        RunStatus::Running => "Running"@,
        RunStatus::Suspended => "Suspended"@,
        RunStatus::NeedsAttention => "NeedsAttention"@,
        RunStatus::Completed => "Completed"@,
        RunStatus::Failed => "Failed"@,
    }
}

fn run_status_text(status: RunStatus) -> (r: String)
    ensures
        r@ == run_status_name(status),
{
    match status {
        RunStatus::Pending => "Pending".to_owned(),
        RunStatus::Running => "Running".to_owned(),
        RunStatus::Suspended => "Suspended".to_owned(),
        RunStatus::NeedsAttention => "NeedsAttention".to_owned(),
        RunStatus::Completed => "Completed".to_owned(),
        RunStatus::Failed => "Failed".to_owned(),
    }
}

/// The candidates of a goal.
pub open spec fn goal_candidates(cs: Seq<CandidateView>, goal_id: GoalId) -> Seq<CandidateView> {
    cs.filter(|c: CandidateView| c.record.goal_id == goal_id)
}

/// The position of the first candidate for the task, from `from` on.
pub open spec fn first_task_candidate(cs: Seq<CandidateView>, task_id: TaskId, from: int) -> Option<int>
    decreases cs.len() - from,
{
    if from < 0 || from >= cs.len() {
        None
    } else if cs[from].record.task_id == task_id {
        Some(from)
    } else {
        first_task_candidate(cs, task_id, from + 1)
    }
}

/// The records of an optional candidate.
pub open spec fn optional_record(c: Option<CandidateView>) -> Seq<RecordView> {
    match c {
        Some(v) => seq![v.record],
        None => Seq::empty(),
    }
}

/// Following a reference to work: a task is continued when it is the
/// user's, in progress and under an active goal, a goal's live tasks are
/// chosen among, and a run is continued when it is live and its task is a
/// live candidate; anything else asks a question that says why.
pub open spec fn reference_view(
    state: &CurrentState,
    resolutions: Seq<FocusResolution>,
    events: Seq<ExperienceEvent>,
    observation: Observation,
    user_id: PrincipalId,
    cs: Seq<CandidateView>,
    reference: WorkReference,
    fresh: FreshIds,
    now: Seq<char>,
) -> PlanView {
    let oid = observation.id;
    match reference {
        WorkReference::Task(task_id) => match lookup(state.tasks@, task_id) {
            None => clarification_view(
                state,
                oid,
                FocusBasis::InvalidReference,
                Seq::empty(),
                Some("I can't verify that task ID. Which active task should I continue?"@),
            ),
            Some(task) => match spec_candidate(state, resolutions, events, observation, user_id, task) {
                None => clarification_view(
                    state,
                    oid,
                    FocusBasis::InvalidReference,
                    Seq::empty(),
                    Some(
                        "I can't verify that task belongs to you. Which active task should I continue?"@,
                    ),
                ),
                Some(c) => if task.status == TaskStatus::InProgress && (lookup(
                    state.goals@,
                    c.record.goal_id,
                ) matches Some(g) && g.status == GoalStatus::Active) {
                    continue_view(state, oid, c.record, FocusBasis::ExplicitTask, None, fresh, now)
                } else if task.status == TaskStatus::Completed || task.status == TaskStatus::Cancelled {
                    clarification_view(
                        state,
                        oid,
                        FocusBasis::ClosedWorkReference,
                        seq![c.record],
                        Some(
                            "Task '"@ + task.title@ + "' is "@ + task_status_name(task.status)
                                + ". Should it be reopened, or should I start a new task?"@,
                        ),
                    )
                } else {
                    clarification_view(
                        state,
                        oid,
                        FocusBasis::InvalidReference,
                        seq![c.record],
                        Some(
                            "Task '"@ + task.title@
                                + "' is not active yet. Should I start it, or choose an active task?"@,
                        ),
                    )
                },
            },
        },
        WorkReference::Goal(goal_id) => if !spec_owned_goal(state, user_id, goal_id) || !(lookup(
            state.goals@,
            goal_id,
        ) matches Some(g) && g.status == GoalStatus::Active) {
            clarification_view(
                state,
                oid,
                FocusBasis::InvalidReference,
                Seq::empty(),
                Some("I can't verify an active goal with that ID. Which task should I continue?"@),
            )
        } else if goal_candidates(cs, goal_id).len() == 0 {
            clarification_view(
                state,
                oid,
                FocusBasis::ClosedWorkReference,
                Seq::empty(),
                Some(
                    "That goal has no active task. Which task should I continue, or should I start a new one?"@,
                ),
            )
        } else {
            pool_view(
                state,
                observation,
                goal_candidates(cs, goal_id),
                FocusBasis::ExplicitGoal,
                false,
                fresh,
                now,
            )
        },
        WorkReference::Run(run_id) => match lookup(state.runs@, run_id) {
            None => clarification_view(
                state,
                oid,
                FocusBasis::InvalidReference,
                Seq::empty(),
                Some("I can't verify that run ID. Which active task should I continue?"@),
            ),
            Some(run) => match spec_owned_run_task(state, user_id, run) {
                None => clarification_view(
                    state,
                    oid,
                    FocusBasis::InvalidReference,
                    Seq::empty(),
                    Some(
                        "That run is not attached to an active task I can continue. Which task did you mean?"@,
                    ),
                ),
                Some(task) => match first_task_candidate(cs, task.id, 0) {
                    None => clarification_view(
                        state,
                        oid,
                        FocusBasis::ClosedWorkReference,
                        optional_record(
                            spec_candidate(state, resolutions, events, observation, user_id, task),
                        ),
                        Some(
                            "That run or its task is not active. Should I reopen the work, or choose another task?"@,
                        ),
                    ),
                    Some(k) => if !(run.status == RunStatus::Pending || run.status
                        == RunStatus::Running) {
                        clarification_view(
                            state,
                            oid,
                            FocusBasis::ClosedWorkReference,
                            seq![cs[k].record],
                            Some(
                                "Run "@ + uuid_hyphenated(run_id) + " is "@ + run_status_name(
                                    run.status,
                                ) + ". Should I start a new run for task '"@ + task.title@
                                    + "'?"@,
                            ),
                        )
                    } else {
                        continue_view(
                            state,
                            oid,
                            cs[k].record,
                            FocusBasis::ExplicitRun,
                            Some(run.id),
                            fresh,
                            now,
                        )
                    },
                },
            },
        },
    }
}

fn no_records() -> (r: Vec<FocusCandidate>)
    ensures
        record_views(r@) == Seq::<RecordView>::empty(),
{
    let r: Vec<FocusCandidate> = Vec::new();
    proof {
        assert(record_views(r@) =~= Seq::<RecordView>::empty());
    }
    r
}

fn one_record(c: &TaskCandidate) -> (r: Vec<FocusCandidate>)
    ensures
        record_views(r@) == seq![candidate_view(*c).record],
{
    let r = vec![clone_record(&c.record)];
    proof {
        assert(record_views(r@) =~= seq![candidate_view(*c).record]);
    }
    r
}

fn candidates_of_goal(candidates: Vec<TaskCandidate>, goal_id: GoalId) -> (r: Vec<TaskCandidate>)
    ensures
        candidate_views(r@) == goal_candidates(candidate_views(candidates@), goal_id),
{
    let ghost all = candidates@;
    let ghost cs = candidate_views(all);
    let mut out: Vec<TaskCandidate> = Vec::new();
    let mut rest = candidates;
    proof {
        assert(cs.subrange(0, 0) =~= Seq::<CandidateView>::empty());
        assert(cs.subrange(0, 0).filter(|c: CandidateView| c.record.goal_id == goal_id) =~= Seq::<CandidateView>::empty());
        assert(candidate_views(out@) =~= Seq::<CandidateView>::empty());
    }
    let n = rest.len();
    let mut i: usize = 0;
    while i < n
        invariant
            n == all.len(),
            cs == candidate_views(all),
            i <= n,
            rest@ == all.subrange(i as int, n as int),
            candidate_views(out@) == cs.subrange(0, i as int).filter(
                |c: CandidateView| c.record.goal_id == goal_id,
            ),
        decreases n - i,
    {
        let c = rest.remove(0);
        let ghost before = candidate_views(out@);
        proof {
            assert(c == all[i as int]);
            assert(rest@ =~= all.subrange(i + 1, n as int));
            let pre = cs.subrange(0, i as int);
            assert(cs.subrange(0, i + 1) =~= pre.push(cs[i as int]));
            pre.lemma_filter_push(cs[i as int], |c: CandidateView| c.record.goal_id == goal_id);
        }
        if c.record.goal_id == goal_id {
            out.push(c);
            proof {
                assert(candidate_views(out@) =~= before.push(cs[i as int]));
            }
        }
        i = i + 1;
    }
    proof {
        assert(cs.subrange(0, n as int) =~= cs);
    }
    out
}

fn find_task_candidate(candidates: &Vec<TaskCandidate>, task_id: TaskId) -> (r: Option<usize>)
    ensures
        match r {
            Some(k) => k < candidates@.len() && first_task_candidate(
                candidate_views(candidates@),
                task_id,
                0,
            ) == Some(k as int),
            None => first_task_candidate(candidate_views(candidates@), task_id, 0) is None,
        },
{
    let ghost cs = candidate_views(candidates@);
    let mut k: usize = 0;
    while k < candidates.len()
        invariant
            cs == candidate_views(candidates@),
            k <= candidates@.len(),
            first_task_candidate(cs, task_id, 0) == first_task_candidate(cs, task_id, k as int),
        decreases candidates@.len() - k,
    {
        if candidates[k].record.task_id == task_id {
            return Some(k);
        }
        k = k + 1;
    }
    None
}

fn question(parts_head: &str, middle: &str, tail: &str) -> (r: String)
    ensures
        r@ == parts_head@ + middle@ + tail@,
{
    let mut q = parts_head.to_owned();
    q.append(middle);
    q.append(tail);
    q
}

/// Follows a reference to work.
pub fn resolve_reference(
    state: &CurrentState,
    resolutions: &Vec<FocusResolution>,
    events: &[ExperienceEvent],
    observation: &Observation,
    user_id: PrincipalId,
    candidates: Vec<TaskCandidate>,
    reference: WorkReference,
    fresh: FreshIds,
    now: &str,
) -> (r: FocusPlan)
    requires
        state.wf(),
        sorted_keys(resolutions@),
    ensures
        plan_view(r) == reference_view(
            state,
            resolutions@,
            events@,
            *observation,
            user_id,
            candidate_views(candidates@),
            reference,
            fresh,
            now@,
        ),
{
    match reference {
        WorkReference::Task(task_id) => {
            let task = match get(&state.tasks, task_id) {
                None => {
                    return clarification(
                        state,
                        observation,
                        FocusBasis::InvalidReference,
                        no_records(),
                        Some(
                            "I can't verify that task ID. Which active task should I continue?".to_owned(),
                        ),
                    );
                },
                Some(t) => t,
            };
            let c = match task_reference(state, resolutions, events, observation, user_id, task) {
                None => {
                    return clarification(
                        state,
                        observation,
                        FocusBasis::InvalidReference,
                        no_records(),
                        Some(
                            "I can't verify that task belongs to you. Which active task should I continue?".to_owned(),
                        ),
                    );
                },
                Some(c) => c,
            };
            let goal_active = match get(&state.goals, c.record.goal_id) {
                Some(g) => g.status == GoalStatus::Active,
                None => false,
            };
            if task.status == TaskStatus::InProgress && goal_active {
                continue_task(state, observation, &c, FocusBasis::ExplicitTask, None, fresh, now)
            } else if task.status == TaskStatus::Completed || task.status == TaskStatus::Cancelled {
                let status = task_status_text(task.status);
                let mut q = question("Task '", task.title.as_str(), "' is ");
                q.append(status.as_str());
                q.append(". Should it be reopened, or should I start a new task?");
                clarification(
                    state,
                    observation,
                    FocusBasis::ClosedWorkReference,
                    one_record(&c),
                    Some(q),
                )
            } else {
                let q = question(
                    "Task '",
                    task.title.as_str(),
                    "' is not active yet. Should I start it, or choose an active task?",
                );
                clarification(state, observation, FocusBasis::InvalidReference, one_record(&c), Some(q))
            }
        },
        WorkReference::Goal(goal_id) => {
            let active = match get(&state.goals, goal_id) {
                Some(g) => g.status == GoalStatus::Active,
                None => false,
            };
            if !owned_goal(state, user_id, goal_id) || !active {
                return clarification(
                    state,
                    observation,
                    FocusBasis::InvalidReference,
                    no_records(),
                    Some(
                        "I can't verify an active goal with that ID. Which task should I continue?".to_owned(),
                    ),
                );
            }
            let pool = candidates_of_goal(candidates, goal_id);
            if pool.len() == 0 {
                return clarification(
                    state,
                    observation,
                    FocusBasis::ClosedWorkReference,
                    no_records(),
                    Some(
                        "That goal has no active task. Which task should I continue, or should I start a new one?".to_owned(),
                    ),
                );
            }
            choose_from_pool(state, observation, pool, FocusBasis::ExplicitGoal, false, fresh, now)
        },
        WorkReference::Run(run_id) => {
            let run = match get(&state.runs, run_id) {
                None => {
                    return clarification(
                        state,
                        observation,
                        FocusBasis::InvalidReference,
                        no_records(),
                        Some(
                            "I can't verify that run ID. Which active task should I continue?".to_owned(),
                        ),
                    );
                },
                Some(r) => r,
            };
            let task = match owned_run_task(state, user_id, run) {
                None => {
                    return clarification(
                        state,
                        observation,
                        FocusBasis::InvalidReference,
                        no_records(),
                        Some(
                            "That run is not attached to an active task I can continue. Which task did you mean?".to_owned(),
                        ),
                    );
                },
                Some(t) => t,
            };
            let found = find_task_candidate(&candidates, task.id);
            match found {
                None => {
                    let records = match task_reference(
                        state,
                        resolutions,
                        events,
                        observation,
                        user_id,
                        &task,
                    ) {
                        Some(c) => one_record(&c),
                        None => no_records(),
                    };
                    clarification(
                        state,
                        observation,
                        FocusBasis::ClosedWorkReference,
                        records,
                        Some(
                            "That run or its task is not active. Should I reopen the work, or choose another task?".to_owned(),
                        ),
                    )
                },
                Some(k) => {
                    if !(run.status == RunStatus::Pending || run.status == RunStatus::Running) {
                        let id_text = uuid_text(run_id);
                        let status = run_status_text(run.status);
                        let mut q = question("Run ", id_text.as_str(), " is ");
                        q.append(status.as_str());
                        q.append(". Should I start a new run for task '");
                        q.append(task.title.as_str());
                        q.append("'?");
                        clarification(
                            state,
                            observation,
                            FocusBasis::ClosedWorkReference,
                            one_record(&candidates[k]),
                            Some(q),
                        )
                    } else {
                        continue_task(
                            state,
                            observation,
                            &candidates[k],
                            FocusBasis::ExplicitRun,
                            Some(run.id),
                            fresh,
                            now,
                        )
                    }
                },
            }
        },
    }
}

/// How an observation is resolved, in the order the checks are made: a
/// request for new work starts it; a reference to work is followed; a
/// greeting is conversation; a request to continue chooses among the live
/// candidates; otherwise the words decide, continuing the one candidate
/// they strongly match, asking about several, or treating the observation
/// as conversation.
pub open spec fn spec_resolve(
    state: &CurrentState,
    resolutions: Seq<FocusResolution>,
    events: Seq<ExperienceEvent>,
    observation: Observation,
    user_id: PrincipalId,
    hekate_id: PrincipalId,
    fresh: FreshIds,
    now: Seq<char>,
) -> PlanView {
    let cs = active_candidates(
        state,
        resolutions,
        events,
        observation,
        user_id,
        state.tasks@.len() as int,
    );
    let text = observation.content@;
    if spec_new_work_intent(text) {
        new_work_view(state, observation, user_id, hekate_id, cs, fresh, now)
    } else {
        match spec_parse_reference(text) {
            Some(reference) => reference_view(
                state,
                resolutions,
                events,
                observation,
                user_id,
                cs,
                reference,
                fresh,
                now,
            ),
            None => if spec_social_message(text) {
                conversation_view(state, observation.id, cs, fresh, now)
            } else if spec_continuation_intent(text) {
                pool_view(state, observation, cs, FocusBasis::ExplicitContinuation, true, fresh, now)
            } else {
                match spec_match_text(text, view_keywords(cs)) {
                    MatchView::One(i) => continue_view(
                        state,
                        observation.id,
                        cs[i].record,
                        FocusBasis::StrongTextMatch,
                        None,
                        fresh,
                        now,
                    ),
                    MatchView::Several(idx) => clarification_view(
                        state,
                        observation.id,
                        FocusBasis::AmbiguousCandidates,
                        records_at(cs, idx),
                        None,
                    ),
                    MatchView::Nothing => conversation_view(state, observation.id, cs, fresh, now),
                }
            },
        }
    }
}

/// Resolves an observation of the user to work, under the given fresh
/// identifiers and time.
pub fn resolve(
    state: &CurrentState,
    resolutions: &Vec<FocusResolution>,
    events: &[ExperienceEvent],
    observation: &Observation,
    user_id: PrincipalId,
    hekate_id: PrincipalId,
    fresh: FreshIds,
    now: &str,
) -> (r: FocusPlan)
    requires
        state.wf(),
        sorted_keys(resolutions@),
        spec_new_work_intent(observation.content@) ==> title_cut_ok(observation.content@),
    ensures
        plan_view(r) == spec_resolve(
            state,
            resolutions@,
            events@,
            *observation,
            user_id,
            hekate_id,
            fresh,
            now@,
        ),
{
    let candidates = active_tasks(state, resolutions, events, observation, user_id);
    let text = observation.content.as_str();
    if has_new_work_intent(text) {
        return new_work(state, observation, user_id, hekate_id, &candidates, fresh, now);
    }
    match parse_reference(text) {
        Some(reference) => resolve_reference(
            state,
            resolutions,
            events,
            observation,
            user_id,
            candidates,
            reference,
            fresh,
            now,
        ),
        None => {
            if is_social_message(text) {
                conversation(state, observation, &candidates, fresh, now)
            } else if has_continuation_intent(text) {
                choose_from_pool(
                    state,
                    observation,
                    candidates,
                    FocusBasis::ExplicitContinuation,
                    true,
                    fresh,
                    now,
                )
            } else {
                proof {
                    assert(keyword_lists(candidates@) =~= view_keywords(candidate_views(candidates@)));
                }
                match match_text(text, &candidates) {
                    TextMatch::Unique(k) => continue_task(
                        state,
                        observation,
                        &candidates[k],
                        FocusBasis::StrongTextMatch,
                        None,
                        fresh,
                        now,
                    ),
                    TextMatch::Uncertain(indices) => {
                        let records = records_at_positions(&candidates, &indices);
                        clarification(
                            state,
                            observation,
                            FocusBasis::AmbiguousCandidates,
                            records,
                            None,
                        )
                    },
                    TextMatch::Unmatched => conversation(state, observation, &candidates, fresh, now),
                }
            }
        },
    }
}

/// Whether the text can be cut after the title prefix its lower-cased
/// form opens with.
pub fn title_cuttable(text: &str) -> (r: bool)
    ensures
        r == title_cut_ok(text@),
{
    let lower = chars_of(to_lowercase(text).as_str());
    let prefix: Option<&str> = if has_prefix(&lower, &chars_of("new task:")) {
        Some("new task:")
    } else if has_prefix(&lower, &chars_of("new goal:")) {
        Some("new goal:")
    } else if has_prefix(&lower, &chars_of("new run:")) {
        Some("new run:")
    } else if has_prefix(&lower, &chars_of("새 작업:")) {
        Some("새 작업:")
    } else if has_prefix(&lower, &chars_of("새 목표:")) {
        Some("새 목표:")
    } else if has_prefix(&lower, &chars_of("새 실행:")) {
        Some("새 실행:")
    } else if has_prefix(&lower, &chars_of("새 프로젝트:")) {
        Some("새 프로젝트:")
    } else if has_prefix(&lower, &chars_of("새로 시작:")) {
        Some("새로 시작:")
    } else {
        None
    };
    match prefix {
        Some(p) => text.is_char_boundary(p.len()),
        None => true,
    }
}

/// Resolves an observation of the user to work under fresh identifiers;
/// `None` exactly when the observation asks for new work but its title
/// prefix cannot be cut from it.
pub fn plan_focus(
    state: &CurrentState,
    resolutions: &Vec<FocusResolution>,
    events: &[ExperienceEvent],
    observation: &Observation,
    user_id: PrincipalId,
    hekate_id: PrincipalId,
    now: &str,
) -> (r: Option<FocusPlan>)
    requires
        state.wf(),
        sorted_keys(resolutions@),
    ensures
        r is None <==> (spec_new_work_intent(observation.content@) && !title_cut_ok(
            observation.content@,
        )),
        r matches Some(p) ==> exists|fresh: FreshIds|
            plan_view(p) == spec_resolve(
                state,
                resolutions@,
                events@,
                *observation,
                user_id,
                hekate_id,
                fresh,
                now@,
            ),
{
    let text = observation.content.as_str();
    if has_new_work_intent(text) && !title_cuttable(text) {
        return None;
    }
    let fresh = FreshIds { goal_id: new_id(), task_id: new_id(), run_id: new_id() };
    let plan = resolve(state, resolutions, events, observation, user_id, hekate_id, fresh, now);
    Some(plan)
}

/// The position of the first event from `from` on of the kind with the
/// correlation text.
pub open spec fn first_correlated_at(events: Seq<ExperienceEvent>, kind: EventKind, correlation: Seq<char>, from: int) -> Option<int>
    decreases events.len() - from,
{
    if from < 0 || from >= events.len() {
        None
    } else if events[from].event_kind == kind && opt_text(events[from].correlation_id) == Some(
        correlation,
    ) {
        Some(from)
    } else {
        first_correlated_at(events, kind, correlation, from + 1)
    }
}

fn find_correlated_at(events: &[ExperienceEvent], kind: EventKind, correlation: &str) -> (r: Option<usize>)
    ensures
        match r {
            Some(i) => i < events@.len() && first_correlated_at(events@, kind, correlation@, 0) == Some(i as int),
            None => first_correlated_at(events@, kind, correlation@, 0) is None,
        },
{
    let mut i: usize = 0;
    while i < events.len()
        invariant
            i <= events@.len(),
            first_correlated_at(events@, kind, correlation@, 0) == first_correlated_at(
                events@,
                kind,
                correlation@,
                i as int,
            ),
        decreases events@.len() - i,
    {
        let e = &events[i];
        let hit = e.event_kind == kind && match &e.correlation_id {
            Some(c) => same_text(c.as_str(), correlation),
            None => false,
        };
        if hit {
            return Some(i);
        }
        i = i + 1;
    }
    None
}

/// An event whose payload should hold an attempt or a run holds something
/// else.
pub struct LegacyDecodeError {
    pub event_id: EventId,
}

/// The run an earlier engine attached an observation to: the run of the
/// first attempt started under the observation's identifier, else the
/// first run started under it; `Err` names an event whose payload is not
/// what its kind says.
pub open spec fn legacy_run(events: Seq<ExperienceEvent>, observation_id: ObservationId) -> Result<Option<RunId>, EventId> {
    let corr = uuid_hyphenated(observation_id);
    match first_correlated_at(events, EventKind::AttemptStarted, corr, 0) {
        Some(i) => match events[i].payload {
            Payload::Attempt(a) => Ok(Some(a.run_id)),
            _ => Err(events[i].event_id),
        },
        None => match first_correlated_at(events, EventKind::RunStarted, corr, 0) {
            Some(i) => match events[i].payload {
                Payload::Run(r) => Ok(Some(r.id)),
                _ => Err(events[i].event_id),
            },
            None => Ok(None),
        },
    }
}

/// Whether a goal, a task and a run were all created under the
/// observation's identifier.
pub open spec fn created_work(events: Seq<ExperienceEvent>, observation_id: ObservationId) -> bool {
    let corr = uuid_hyphenated(observation_id);
    &&& first_correlated_at(events, EventKind::GoalCreated, corr, 0) is Some
    &&& first_correlated_at(events, EventKind::TaskCreated, corr, 0) is Some
    &&& first_correlated_at(events, EventKind::RunStarted, corr, 0) is Some
}

/// The resolution an earlier engine left implicit for an observation: the
/// focus of the run it attached the observation to, as new work when it
/// created the goal, task and run for it, else as a continuation (or
/// conversation, without a task).
pub open spec fn legacy_view(state: &CurrentState, events: Seq<ExperienceEvent>, observation: Observation) -> Result<Option<(FocusOutcome, Focus, FocusBasis)>, EventId> {
    match legacy_run(events, observation.id) {
        Err(e) => Err(e),
        Ok(None) => Ok(None),
        Ok(Some(run_id)) => match spec_focus_for_run(state, run_id) {
            None => Ok(None),
            Some(focus) => {
                let created = created_work(events, observation.id);
                Ok(
                    Some(
                        (
                            if focus.task_id is Some {
                                if created {
                                    FocusOutcome::NewWork
                                } else {
                                    FocusOutcome::Continue
                                }
                            } else {
                                FocusOutcome::Conversation
                            },
                            focus,
                            if created {
                                FocusBasis::ExplicitNewWork
                            } else {
                                FocusBasis::ExplicitContinuation
                            },
                        ),
                    ),
                )
            },
        },
    }
}

/// The resolution an earlier engine left implicit for an observation.
pub fn legacy_resolution(state: &CurrentState, events: &[ExperienceEvent], observation: &Observation) -> (r: Result<
    Option<FocusResolution>,
    LegacyDecodeError,
>)
    requires
        state.wf(),
    ensures
        match r {
            Err(e) => legacy_view(state, events@, *observation) == Err::<Option<(FocusOutcome, Focus, FocusBasis)>, EventId>(e.event_id),
            Ok(None) => legacy_view(state, events@, *observation) == Ok::<Option<(FocusOutcome, Focus, FocusBasis)>, EventId>(None),
            Ok(Some(res)) => {
                &&& legacy_view(state, events@, *observation) == Ok::<Option<(FocusOutcome, Focus, FocusBasis)>, EventId>(
                    Some((res.outcome, res.focus, res.basis)),
                )
                &&& res.observation_id == observation.id
                &&& res.as_of_revision == state.revision
                &&& res.candidates@.len() == 0
                &&& res.clarification is None
            },
        },
{
    let corr = uuid_text(observation.id);
    let c = corr.as_str();
    let run_id: Option<RunId> = match find_correlated_at(events, EventKind::AttemptStarted, c) {
        Some(i) => match &events[i].payload {
            Payload::Attempt(a) => Some(a.run_id),
            _ => {
                return Err(LegacyDecodeError { event_id: events[i].event_id });
            },
        },
        None => match find_correlated_at(events, EventKind::RunStarted, c) {
            Some(i) => match &events[i].payload {
                Payload::Run(run) => Some(run.id),
                _ => {
                    return Err(LegacyDecodeError { event_id: events[i].event_id });
                },
            },
            None => None,
        },
    };
    let focus = match run_id {
        None => {
            return Ok(None);
        },
        Some(id) => match focus_for_run(state, id) {
            None => {
                return Ok(None);
            },
            Some(f) => f,
        },
    };
    let created = find_correlated_at(events, EventKind::GoalCreated, c).is_some()
        && find_correlated_at(events, EventKind::TaskCreated, c).is_some()
        && find_correlated_at(events, EventKind::RunStarted, c).is_some();
    let outcome = if focus.task_id.is_some() {
        if created {
            FocusOutcome::NewWork
        } else {
            FocusOutcome::Continue
        }
    } else {
        FocusOutcome::Conversation
    };
    let basis = if created {
        FocusBasis::ExplicitNewWork
    } else {
        FocusBasis::ExplicitContinuation
    };
    Ok(
        Some(
            FocusResolution {
                observation_id: observation.id,
                outcome,
                focus,
                as_of_revision: state.revision,
                basis,
                candidates: Vec::new(),
                clarification: None,
            },
        ),
    )
}

/// A resolution is consistent: it answers the observation as of the
/// state's revision; it asks a question exactly when it attaches the
/// observation to no run, and then creates nothing; continuing names the
/// one candidate whose goal and task it attaches to; new work creates the
/// goal, task and run it attaches to.
pub open spec fn consistent_plan(v: PlanView, state: &CurrentState, observation_id: ObservationId) -> bool {
    &&& v.observation_id == observation_id
    &&& v.as_of_revision == state.revision
    &&& (v.outcome == FocusOutcome::Clarification) == (v.focus.run_id is None)
    &&& v.outcome == FocusOutcome::Clarification ==> v.goal is None && v.task is None && v.run is None
        && v.clarification is Some
    &&& v.outcome == FocusOutcome::Continue ==> v.candidates.len() == 1 && v.focus.goal_id == Some(
        v.candidates[0].goal_id,
    ) && v.focus.task_id == Some(v.candidates[0].task_id) && v.goal is None && v.task is None
    &&& v.outcome == FocusOutcome::NewWork ==> (v.goal matches Some(g) && v.task matches Some(t)
        && v.run matches Some(r) && v.focus.goal_id == Some(g.id) && v.focus.task_id == Some(t.id)
        && v.focus.run_id == Some(r.id) && t.goal_id == Some(g.id) && r.task_id == Some(t.id))
    &&& v.outcome == FocusOutcome::Conversation ==> v.focus.task_id is None && v.goal is None
        && v.task is None
    &&& v.outcome != FocusOutcome::Clarification ==> v.clarification is None
}

proof fn lemma_pool_consistent(
    state: &CurrentState,
    observation: Observation,
    cs: Seq<CandidateView>,
    single_basis: FocusBasis,
    continuation: bool,
    fresh: FreshIds,
    now: Seq<char>,
)
    ensures
        consistent_plan(
            pool_view(state, observation, cs, single_basis, continuation, fresh, now),
            state,
            observation.id,
        ),
{
}

/// Every resolution is consistent: whatever the state, ledger and
/// message, the plan asks a question exactly when it attaches the
/// observation to no run (creating nothing then), continues exactly one
/// named candidate, or creates the goal, task and run of new work it
/// attaches to.
pub proof fn lemma_resolution_consistent(
    state: &CurrentState,
    resolutions: Seq<FocusResolution>,
    events: Seq<ExperienceEvent>,
    observation: Observation,
    user_id: PrincipalId,
    hekate_id: PrincipalId,
    fresh: FreshIds,
    now: Seq<char>,
)
    ensures
        consistent_plan(
            spec_resolve(state, resolutions, events, observation, user_id, hekate_id, fresh, now),
            state,
            observation.id,
        ),
{
    let cs = active_candidates(
        state,
        resolutions,
        events,
        observation,
        user_id,
        state.tasks@.len() as int,
    );
    lemma_pool_consistent(state, observation, cs, FocusBasis::ExplicitContinuation, true, fresh, now);
    match spec_parse_reference(observation.content@) {
        Some(WorkReference::Goal(goal_id)) => {
            lemma_pool_consistent(
                state,
                observation,
                goal_candidates(cs, goal_id),
                FocusBasis::ExplicitGoal,
                false,
                fresh,
                now,
            );
        },
        _ => {},
    }
}

proof fn lemma_max_score_bounds(q: Seq<Seq<char>>, cs: Seq<Seq<Seq<char>>>, n: int)
    requires
        n <= cs.len(),
    ensures
        forall|j: int| 0 <= j < n ==> candidate_score(q, #[trigger] cs[j]) <= max_score(q, cs, n),
    decreases n,
{
    if n > 0 {
        lemma_max_score_bounds(q, cs, n - 1);
    }
}

proof fn lemma_best_indices_members(q: Seq<Seq<char>>, cs: Seq<Seq<Seq<char>>>, best: nat, n: int)
    requires
        n <= cs.len(),
    ensures
        forall|j: int| 0 <= j < n && candidate_score(q, #[trigger] cs[j]) == best ==> best_indices(q, cs, best, n).contains(j),
        forall|k: int| 0 <= k < best_indices(q, cs, best, n).len() ==> candidate_score(q, cs[#[trigger] best_indices(q, cs, best, n)[k]]) == best,
    decreases n,
{
    if n > 0 {
        lemma_best_indices_members(q, cs, best, n - 1);
        let r = best_indices(q, cs, best, n - 1);
        if candidate_score(q, cs[n - 1]) == best {
            let s = r.push(n - 1);
            assert forall|j: int| 0 <= j < n && candidate_score(q, #[trigger] cs[j]) == best implies s.contains(j) by {
                if j == n - 1 {
                    assert(s[s.len() - 1] == j);
                } else {
                    assert(r.contains(j));
                    let w = choose|w: int| 0 <= w < r.len() && r[w] == j;
                    assert(s[w] == j);
                }
            }
            assert forall|k: int| 0 <= k < s.len() implies candidate_score(q, cs[#[trigger] s[k]]) == best by {
                if k < r.len() {
                    assert(s[k] == r[k]);
                }
            }
        }
    }
}

/// A text match settles on one task only when that task alone scores best:
/// every other candidate shares strictly fewer of the text's words.
pub proof fn lemma_unique_match_is_sole_best(text: Seq<char>, cs: Seq<Seq<Seq<char>>>, i: int)
    requires
        spec_match_text(text, cs) == MatchView::One(i),
    ensures
        0 <= i < cs.len(),
        forall|j: int| 0 <= j < cs.len() && j != i ==> candidate_score(words_of(text), #[trigger] cs[j]) < candidate_score(
            words_of(text),
            cs[i],
        ),
{
    let q = words_of(text);
    let best = max_score(q, cs, cs.len() as int);
    let idx = best_indices(q, cs, best, cs.len() as int);
    lemma_best_indices_bounded(q, cs, best, cs.len() as int);
    lemma_best_indices_members(q, cs, best, cs.len() as int);
    lemma_max_score_bounds(q, cs, cs.len() as int);
    assert(idx.len() == 1 && idx[0] == i);
    assert(candidate_score(q, cs[idx[0]]) == best);
    assert forall|j: int| 0 <= j < cs.len() && j != i implies candidate_score(q, #[trigger] cs[j]) < candidate_score(q, cs[i]) by {
        assert(candidate_score(q, cs[j]) <= best);
        if candidate_score(q, cs[j]) == best {
            assert(idx.contains(j));
        }
    }
}

/// When two candidates share the best score, the match is never settled
/// on one of them: it lists every best candidate, or finds nothing.
pub proof fn lemma_tied_match_is_uncertain(text: Seq<char>, cs: Seq<Seq<Seq<char>>>, j: int, k: int)
    requires
        0 <= j < cs.len(),
        0 <= k < cs.len(),
        j != k,
        candidate_score(words_of(text), cs[j]) == candidate_score(words_of(text), cs[k]),
        forall|m: int| 0 <= m < cs.len() ==> candidate_score(words_of(text), #[trigger] cs[m]) <= candidate_score(
            words_of(text),
            cs[j],
        ),
    ensures
        !(spec_match_text(text, cs) is One),
{
    if spec_match_text(text, cs) is One {
        let i = spec_match_text(text, cs)->One_0;
        lemma_unique_match_is_sole_best(text, cs, i);
        if i == j {
            assert(candidate_score(words_of(text), cs[k]) < candidate_score(words_of(text), cs[j]));
        } else {
            assert(candidate_score(words_of(text), cs[j]) < candidate_score(words_of(text), cs[i]));
            assert(candidate_score(words_of(text), cs[i]) <= candidate_score(words_of(text), cs[j]));
        }
    }
}

} // verus!
