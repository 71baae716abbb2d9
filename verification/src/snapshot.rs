//! The canonical text of a thought context and the hash that seals it.
//!
//! Every text is written as its length in characters, a colon and its
//! characters, so no text can run into the next; identifiers are written
//! as hyphenated lower-case hex; lists are bracketed; enumerations are one
//! digit. The snapshot hash is the lower-case hex SHA-256 of the UTF-8 of
//! that text.
use vstd::prelude::*;

use crate::format::{decimal, decimal_text, hex_lower, sha256_hex_of_text, sha256_of, string_from_chars, uuid_hyphenated, uuid_text};
use crate::model::{
    ActiveMemory, ActiveMemoryStatus, Approval, ApprovalStatus, Artifact, Conflict, ConflictStatus,
    Focus, Goal, GoalStatus, IdentityVersion, MemoryCandidate, MemoryCandidateStatus, MemoryKind,
    Observation, Position, PositionStatus, Relationship, Run, RunStatus, Stance, Task, TaskStatus,
    ThoughtContext,
};
use crate::text::chars_of;
use vstd::utf8::encode_utf8;

verus! {

/// A text, prefixed by its length in characters.
pub open spec fn enc_text(t: Seq<char>) -> Seq<char> {
    decimal(t.len()) + seq![':'] + t
}

/// An optional text: `-`, or `+` and the text.
pub open spec fn enc_opt_text(o: Option<String>) -> Seq<char> {
    match o {
        Some(t) => seq!['+'] + enc_text(t@),
        None => seq!['-'],
    }
}

/// An optional identifier: `-`, or `+` and the identifier.
pub open spec fn enc_opt_id(o: Option<u128>) -> Seq<char> {
    match o {
        Some(id) => seq!['+'] + uuid_hyphenated(id),
        None => seq!['-'],
    }
}

/// Identifiers, each followed by `;`.
pub open spec fn enc_ids(ids: Seq<u128>) -> Seq<char>
    decreases ids.len(),
{
    if ids.len() == 0 {
        Seq::empty()
    } else {
        enc_ids(ids.drop_last()) + uuid_hyphenated(ids.last()) + seq![';']
    }
}

/// Texts, one after the other.
pub open spec fn enc_texts(ts: Seq<String>) -> Seq<char>
    decreases ts.len(),
{
    if ts.len() == 0 {
        Seq::empty()
    } else {
        enc_texts(ts.drop_last()) + enc_text(ts.last()@)
    }
}

/// A bracketed list of identifiers.
pub open spec fn enc_id_list(ids: Seq<u128>) -> Seq<char> {
    seq!['['] + enc_ids(ids) + seq![']']
}

/// A bracketed list of texts.
pub open spec fn enc_text_list(ts: Seq<String>) -> Seq<char> {
    seq!['['] + enc_texts(ts) + seq![']']
}

/// A number followed by `,`.
pub open spec fn enc_num(n: nat) -> Seq<char> {
    decimal(n) + seq![',']
}

pub open spec fn stance_code(s: Stance) -> char {
    match s {
        Stance::Support => '0',
        Stance::Oppose => '1',
        Stance::Uncertain => '2',
        Stance::Neutral => '3',
    }
}

pub open spec fn position_status_code(s: PositionStatus) -> char {
    match s {
        PositionStatus::Active => '0',
        PositionStatus::Superseded => '1',
        PositionStatus::Retracted => '2',
    }
}

pub open spec fn conflict_status_code(s: ConflictStatus) -> char {
    match s {
        ConflictStatus::Open => '0',
        ConflictStatus::Negotiating => '1',
        ConflictStatus::Resolved => '2',
        ConflictStatus::AcceptedDisagreement => '3',
    }
}

/// A position: its identifiers, subject, stance, status, version,
/// predecessor, confidence, evidence, reasons and reconsideration
/// conditions.
pub open spec fn enc_position(p: Position) -> Seq<char> {
    seq!['P'] + uuid_hyphenated(p.id) + uuid_hyphenated(p.principal_id) + enc_text(p.subject@)
        + seq![stance_code(p.stance), position_status_code(p.status)] + enc_num(p.version as nat)
        + enc_opt_id(p.supersedes) + enc_num(p.confidence as nat) + enc_id_list(p.evidence_refs@)
        + enc_text_list(p.reasons@) + enc_text_list(p.reconsideration_conditions@)
}

pub open spec fn enc_positions(ps: Seq<Position>) -> Seq<char>
    decreases ps.len(),
{
    if ps.len() == 0 {
        Seq::empty()
    } else {
        enc_positions(ps.drop_last()) + enc_position(ps.last())
    }
}

/// A conflict: its identifier, subject, status, revision, positions,
/// evidence, reasons, reconsideration conditions, open questions and
/// resolution.
pub open spec fn enc_conflict(c: Conflict) -> Seq<char> {
    seq!['C'] + uuid_hyphenated(c.id) + enc_text(c.subject@) + seq![conflict_status_code(c.status)]
        + enc_num(c.revision as nat) + enc_id_list(c.participant_positions@) + enc_id_list(
        c.evidence_refs@,
    ) + enc_text_list(c.reasons@) + enc_text_list(c.reconsideration_conditions@) + enc_text_list(
        c.unresolved_questions@,
    ) + enc_opt_text(c.resolution)
}

pub open spec fn enc_conflicts(cs: Seq<Conflict>) -> Seq<char>
    decreases cs.len(),
{
    if cs.len() == 0 {
        Seq::empty()
    } else {
        enc_conflicts(cs.drop_last()) + enc_conflict(cs.last())
    }
}

/// An observation: its identifiers, content, thread, message, source.
pub open spec fn enc_observation(o: Observation) -> Seq<char> {
    seq!['O'] + uuid_hyphenated(o.id) + uuid_hyphenated(o.actor_id) + enc_text(o.content@)
        + enc_opt_text(o.thread_id) + enc_opt_text(o.message_id) + enc_text(o.source_type@)
        + enc_opt_text(o.source_ref)
}

/// A focus: its goal, task and run.
pub open spec fn enc_focus(f: Focus) -> Seq<char> {
    seq!['F'] + enc_opt_id(f.goal_id) + enc_opt_id(f.task_id) + enc_opt_id(f.run_id)
}

pub open spec fn goal_status_code(s: GoalStatus) -> char {
    match s {
        GoalStatus::Active => '0',
        GoalStatus::Completed => '1',
        GoalStatus::Abandoned => '2',
    }
}

fn goal_status_char(s: GoalStatus) -> (r: char)
    ensures
        r == goal_status_code(s),
{
    match s {
        GoalStatus::Active => '0',
        GoalStatus::Completed => '1',
        GoalStatus::Abandoned => '2',
    }
}

pub open spec fn task_status_code(s: TaskStatus) -> char {
    match s {
        TaskStatus::Pending => '0',
        TaskStatus::InProgress => '1',
        TaskStatus::Blocked => '2',
        TaskStatus::Completed => '3',
        TaskStatus::Cancelled => '4',
    }
}

fn task_status_char(s: TaskStatus) -> (r: char)
    ensures
        r == task_status_code(s),
{
    match s {
        TaskStatus::Pending => '0',
        TaskStatus::InProgress => '1',
        TaskStatus::Blocked => '2',
        TaskStatus::Completed => '3',
        TaskStatus::Cancelled => '4',
    }
}

pub open spec fn run_status_code(s: RunStatus) -> char {
    match s {
        RunStatus::Pending => '0',
        RunStatus::Running => '1',
        RunStatus::Suspended => '2',
        RunStatus::NeedsAttention => '3',
        RunStatus::Completed => '4',
        RunStatus::Failed => '5',
    }
}

fn run_status_char(s: RunStatus) -> (r: char)
    ensures
        r == run_status_code(s),
{
    match s {
        RunStatus::Pending => '0',
        RunStatus::Running => '1',
        RunStatus::Suspended => '2',
        RunStatus::NeedsAttention => '3',
        RunStatus::Completed => '4',
        RunStatus::Failed => '5',
    }
}

pub open spec fn memory_kind_code(s: MemoryKind) -> char {
    match s {
        MemoryKind::ExplicitPreference => '0',
        MemoryKind::VerifiedFact => '1',
        MemoryKind::Lesson => '2',
        MemoryKind::Episode => '3',
        MemoryKind::InferredPreference => '4',
    }
}

fn memory_kind_char(s: MemoryKind) -> (r: char)
    ensures
        r == memory_kind_code(s),
{
    match s {
        MemoryKind::ExplicitPreference => '0',
        MemoryKind::VerifiedFact => '1',
        MemoryKind::Lesson => '2',
        MemoryKind::Episode => '3',
        MemoryKind::InferredPreference => '4',
    }
}

pub open spec fn active_memory_status_code(s: ActiveMemoryStatus) -> char {
    match s {
        ActiveMemoryStatus::Active => '0',
        ActiveMemoryStatus::Superseded => '1',
        ActiveMemoryStatus::Expired => '2',
    }
}

fn active_memory_status_char(s: ActiveMemoryStatus) -> (r: char)
    ensures
        r == active_memory_status_code(s),
{
    match s {
        ActiveMemoryStatus::Active => '0',
        ActiveMemoryStatus::Superseded => '1',
        ActiveMemoryStatus::Expired => '2',
    }
}

pub open spec fn memory_candidate_status_code(s: MemoryCandidateStatus) -> char {
    match s {
        MemoryCandidateStatus::Candidate => '0',
        MemoryCandidateStatus::Promoted => '1',
        MemoryCandidateStatus::Rejected => '2',
        MemoryCandidateStatus::Superseded => '3',
        MemoryCandidateStatus::Expired => '4',
    }
}

fn memory_candidate_status_char(s: MemoryCandidateStatus) -> (r: char)
    ensures
        r == memory_candidate_status_code(s),
{
    match s {
        MemoryCandidateStatus::Candidate => '0',
        MemoryCandidateStatus::Promoted => '1',
        MemoryCandidateStatus::Rejected => '2',
        MemoryCandidateStatus::Superseded => '3',
        MemoryCandidateStatus::Expired => '4',
    }
}

pub open spec fn approval_status_code(s: ApprovalStatus) -> char {
    match s {
        ApprovalStatus::Pending => '0',
        ApprovalStatus::Approved => '1',
        ApprovalStatus::Denied => '2',
    }
}

fn approval_status_char(s: ApprovalStatus) -> (r: char)
    ensures
        r == approval_status_code(s),
{
    match s {
        ApprovalStatus::Pending => '0',
        ApprovalStatus::Approved => '1',
        ApprovalStatus::Denied => '2',
    }
}

pub open spec fn enc_identity(o: Option<IdentityVersion>) -> Seq<char> {
    match o {
        Some(v) => seq!['+'] + uuid_hyphenated(v.id) + uuid_hyphenated(v.principal_id) + enc_text(v.body@),
        None => seq!['-'],
    }
}

pub open spec fn enc_relationship(o: Option<Relationship>) -> Seq<char> {
    match o {
        Some(r) => seq!['+'] + uuid_hyphenated(r.id) + enc_id_list(r.participants@) + enc_id_list(r.unresolved_conflicts@),
        None => seq!['-'],
    }
}

pub open spec fn enc_goal(o: Option<Goal>) -> Seq<char> {
    match o {
        Some(g) => seq!['+'] + uuid_hyphenated(g.id) + uuid_hyphenated(g.owner_principal_id) + enc_id_list(g.participants@)
            + enc_text(g.title@) + seq![goal_status_code(g.status)],
        None => seq!['-'],
    }
}

pub open spec fn enc_task(o: Option<Task>) -> Seq<char> {
    match o {
        Some(t) => seq!['+'] + uuid_hyphenated(t.id) + enc_opt_id(t.goal_id) + enc_text(t.title@) + seq![task_status_code(t.status)],
        None => seq!['-'],
    }
}

pub open spec fn enc_run(o: Option<Run>) -> Seq<char> {
    match o {
        Some(r) => seq!['+'] + uuid_hyphenated(r.id) + enc_opt_id(r.task_id) + seq![run_status_code(r.status)] + enc_text(r.started_at@),
        None => seq!['-'],
    }
}

pub open spec fn enc_memory(m: ActiveMemory) -> Seq<char> {
    seq!['M'] + uuid_hyphenated(m.id) + uuid_hyphenated(m.candidate_id) + seq![memory_kind_code(m.kind)] + enc_text(m.content@)
        + enc_opt_id(m.subject_principal_id) + seq![active_memory_status_code(m.status)] + enc_id_list(m.source_event_ids@)
}

pub open spec fn enc_memories(ms: Seq<ActiveMemory>) -> Seq<char>
    decreases ms.len(),
{
    if ms.len() == 0 {
        Seq::empty()
    } else {
        enc_memories(ms.drop_last()) + enc_memory(ms.last())
    }
}

pub open spec fn enc_memory_candidate(m: MemoryCandidate) -> Seq<char> {
    seq!['N'] + uuid_hyphenated(m.id) + seq![memory_kind_code(m.kind)] + enc_text(m.content@) + enc_opt_id(m.subject_principal_id)
        + seq![memory_candidate_status_code(m.status)] + enc_id_list(m.source_event_ids@)
}

pub open spec fn enc_memory_candidates(ms: Seq<MemoryCandidate>) -> Seq<char>
    decreases ms.len(),
{
    if ms.len() == 0 {
        Seq::empty()
    } else {
        enc_memory_candidates(ms.drop_last()) + enc_memory_candidate(ms.last())
    }
}

pub open spec fn enc_approval(a: Approval) -> Seq<char> {
    seq!['A'] + uuid_hyphenated(a.id) + uuid_hyphenated(a.operation_id) + seq![approval_status_code(a.status)] + enc_opt_id(a.resolved_by)
}

pub open spec fn enc_approvals(s: Seq<Approval>) -> Seq<char>
    decreases s.len(),
{
    if s.len() == 0 {
        Seq::empty()
    } else {
        enc_approvals(s.drop_last()) + enc_approval(s.last())
    }
}

pub open spec fn enc_artifact(a: Artifact) -> Seq<char> {
    seq!['R'] + uuid_hyphenated(a.id) + enc_text(a.path@) + enc_text(a.content_hash@) + enc_num(a.size as nat) + enc_text(a.media_type@)
        + uuid_hyphenated(a.provenance_event_id)
}

pub open spec fn enc_artifacts(s: Seq<Artifact>) -> Seq<char>
    decreases s.len(),
{
    if s.len() == 0 {
        Seq::empty()
    } else {
        enc_artifacts(s.drop_last()) + enc_artifact(s.last())
    }
}

/// The text of the context's identity, relationship, goal, task and run.
pub open spec fn content_head(c: ThoughtContext) -> Seq<char> {
    enc_identity(c.identity) + enc_relationship(c.relationship) + enc_goal(c.goal) + enc_task(c.task) + enc_run(c.run)
}

/// The text of the context's Memories, Memory candidates, approvals and
/// artifacts.
pub open spec fn content_lists(c: ThoughtContext) -> Seq<char> {
    seq!['['] + enc_memories(c.memories@) + seq![']', '['] + enc_memory_candidates(c.memory_candidates@) + seq![']', '[']
        + enc_approvals(c.pending_approvals@) + seq![']', '['] + enc_artifacts(c.artifacts@) + seq![']']
}

/// The text of what the context holds besides its observation, focus,
/// positions, conflicts and events.
pub open spec fn content_text(c: ThoughtContext) -> Seq<char> {
    content_head(c) + content_lists(c) + enc_text_list(c.available_capabilities@) + enc_text(c.output_schema@)
}

fn put_identity(out: &mut Vec<char>, o: &Option<IdentityVersion>)
    ensures
        final(out)@ == old(out)@ + enc_identity(*o),
{
    let ghost start = out@;
    match o {
        Some(v) => {
            out.push('+');
            put_id(out, v.id);
            put_id(out, v.principal_id);
            put_text(out, &v.body);
        },
        None => {
            out.push('-');
        },
    }
    proof {
        assert(out@ =~= start + enc_identity(*o));
    }
}

fn put_relationship(out: &mut Vec<char>, o: &Option<Relationship>)
    ensures
        final(out)@ == old(out)@ + enc_relationship(*o),
{
    let ghost start = out@;
    match o {
        Some(r) => {
            out.push('+');
            put_id(out, r.id);
            put_id_list(out, &r.participants);
            put_id_list(out, &r.unresolved_conflicts);
        },
        None => {
            out.push('-');
        },
    }
    proof {
        assert(out@ =~= start + enc_relationship(*o));
    }
}

fn put_goal(out: &mut Vec<char>, o: &Option<Goal>)
    ensures
        final(out)@ == old(out)@ + enc_goal(*o),
{
    let ghost start = out@;
    match o {
        Some(g) => {
            out.push('+');
            put_id(out, g.id);
            put_id(out, g.owner_principal_id);
            put_id_list(out, &g.participants);
            put_text(out, &g.title);
            out.push(goal_status_char(g.status));
        },
        None => {
            out.push('-');
        },
    }
    proof {
        assert(out@ =~= start + enc_goal(*o));
    }
}

fn put_task(out: &mut Vec<char>, o: &Option<Task>)
    ensures
        final(out)@ == old(out)@ + enc_task(*o),
{
    let ghost start = out@;
    match o {
        Some(t) => {
            out.push('+');
            put_id(out, t.id);
            put_opt_id(out, t.goal_id);
            put_text(out, &t.title);
            out.push(task_status_char(t.status));
        },
        None => {
            out.push('-');
        },
    }
    proof {
        assert(out@ =~= start + enc_task(*o));
    }
}

fn put_run(out: &mut Vec<char>, o: &Option<Run>)
    ensures
        final(out)@ == old(out)@ + enc_run(*o),
{
    let ghost start = out@;
    match o {
        Some(r) => {
            out.push('+');
            put_id(out, r.id);
            put_opt_id(out, r.task_id);
            out.push(run_status_char(r.status));
            put_text(out, &r.started_at);
        },
        None => {
            out.push('-');
        },
    }
    proof {
        assert(out@ =~= start + enc_run(*o));
    }
}

fn put_memory(out: &mut Vec<char>, m: &ActiveMemory)
    ensures
        final(out)@ == old(out)@ + enc_memory(*m),
{
    let ghost start = out@;
    out.push('M');
    put_id(out, m.id);
    put_id(out, m.candidate_id);
    out.push(memory_kind_char(m.kind));
    put_text(out, &m.content);
    put_opt_id(out, m.subject_principal_id);
    out.push(active_memory_status_char(m.status));
    put_id_list(out, &m.source_event_ids);
    proof {
        assert(out@ =~= start + enc_memory(*m));
    }
}

fn put_memory_candidate(out: &mut Vec<char>, m: &MemoryCandidate)
    ensures
        final(out)@ == old(out)@ + enc_memory_candidate(*m),
{
    let ghost start = out@;
    out.push('N');
    put_id(out, m.id);
    out.push(memory_kind_char(m.kind));
    put_text(out, &m.content);
    put_opt_id(out, m.subject_principal_id);
    out.push(memory_candidate_status_char(m.status));
    put_id_list(out, &m.source_event_ids);
    proof {
        assert(out@ =~= start + enc_memory_candidate(*m));
    }
}

fn put_approval(out: &mut Vec<char>, a: &Approval)
    ensures
        final(out)@ == old(out)@ + enc_approval(*a),
{
    let ghost start = out@;
    out.push('A');
    put_id(out, a.id);
    put_id(out, a.operation_id);
    out.push(approval_status_char(a.status));
    put_opt_id(out, a.resolved_by);
    proof {
        assert(out@ =~= start + enc_approval(*a));
    }
}

fn put_artifact(out: &mut Vec<char>, a: &Artifact)
    ensures
        final(out)@ == old(out)@ + enc_artifact(*a),
{
    let ghost start = out@;
    out.push('R');
    put_id(out, a.id);
    put_text(out, &a.path);
    put_text(out, &a.content_hash);
    put_num(out, a.size);
    put_text(out, &a.media_type);
    put_id(out, a.provenance_event_id);
    proof {
        assert(out@ =~= start + enc_artifact(*a));
    }
}

fn put_memories(out: &mut Vec<char>, s: &Vec<ActiveMemory>)
    ensures
        final(out)@ == old(out)@ + seq!['['] + enc_memories(s@) + seq![']'],
{
    let ghost start = out@;
    out.push('[');
    let mut i: usize = 0;
    while i < s.len()
        invariant
            i <= s@.len(),
            out@ == start + seq!['['] + enc_memories(s@.subrange(0, i as int)),
        decreases s@.len() - i,
    {
        proof {
            let pre = s@.subrange(0, i + 1);
            assert(pre.drop_last() =~= s@.subrange(0, i as int));
        }
        put_memory(out, &s[i]);
        i = i + 1;
    }
    out.push(']');
    proof {
        assert(s@.subrange(0, s@.len() as int) =~= s@);
    }
}

fn put_memory_candidates(out: &mut Vec<char>, s: &Vec<MemoryCandidate>)
    ensures
        final(out)@ == old(out)@ + seq!['['] + enc_memory_candidates(s@) + seq![']'],
{
    let ghost start = out@;
    out.push('[');
    let mut i: usize = 0;
    while i < s.len()
        invariant
            i <= s@.len(),
            out@ == start + seq!['['] + enc_memory_candidates(s@.subrange(0, i as int)),
        decreases s@.len() - i,
    {
        proof {
            let pre = s@.subrange(0, i + 1);
            assert(pre.drop_last() =~= s@.subrange(0, i as int));
        }
        put_memory_candidate(out, &s[i]);
        i = i + 1;
    }
    out.push(']');
    proof {
        assert(s@.subrange(0, s@.len() as int) =~= s@);
    }
}

fn put_approvals(out: &mut Vec<char>, s: &Vec<Approval>)
    ensures
        final(out)@ == old(out)@ + seq!['['] + enc_approvals(s@) + seq![']'],
{
    let ghost start = out@;
    out.push('[');
    let mut i: usize = 0;
    while i < s.len()
        invariant
            i <= s@.len(),
            out@ == start + seq!['['] + enc_approvals(s@.subrange(0, i as int)),
        decreases s@.len() - i,
    {
        proof {
            let pre = s@.subrange(0, i + 1);
            assert(pre.drop_last() =~= s@.subrange(0, i as int));
        }
        put_approval(out, &s[i]);
        i = i + 1;
    }
    out.push(']');
    proof {
        assert(s@.subrange(0, s@.len() as int) =~= s@);
    }
}

fn put_artifacts(out: &mut Vec<char>, s: &Vec<Artifact>)
    ensures
        final(out)@ == old(out)@ + seq!['['] + enc_artifacts(s@) + seq![']'],
{
    let ghost start = out@;
    out.push('[');
    let mut i: usize = 0;
    while i < s.len()
        invariant
            i <= s@.len(),
            out@ == start + seq!['['] + enc_artifacts(s@.subrange(0, i as int)),
        decreases s@.len() - i,
    {
        proof {
            let pre = s@.subrange(0, i + 1);
            assert(pre.drop_last() =~= s@.subrange(0, i as int));
        }
        put_artifact(out, &s[i]);
        i = i + 1;
    }
    out.push(']');
    proof {
        assert(s@.subrange(0, s@.len() as int) =~= s@);
    }
}

fn put_content_head(out: &mut Vec<char>, c: &ThoughtContext)
    ensures
        final(out)@ == old(out)@ + content_head(*c),
{
    let ghost start = out@;
    put_identity(out, &c.identity);
    let ghost a1 = out@;
    put_relationship(out, &c.relationship);
    let ghost a2 = out@;
    put_goal(out, &c.goal);
    let ghost a3 = out@;
    put_task(out, &c.task);
    let ghost a4 = out@;
    put_run(out, &c.run);
    proof {
        assert(out@ =~= start + content_head(*c));
    }
}

fn put_content_lists(out: &mut Vec<char>, c: &ThoughtContext)
    ensures
        final(out)@ == old(out)@ + content_lists(*c),
{
    let ghost start = out@;
    put_memories(out, &c.memories);
    put_memory_candidates(out, &c.memory_candidates);
    let ghost b = out@;
    put_approvals(out, &c.pending_approvals);
    put_artifacts(out, &c.artifacts);
    proof {
        let m1 = seq!['['] + enc_memories(c.memories@) + seq![']'];
        let m2 = seq!['['] + enc_memory_candidates(c.memory_candidates@) + seq![']'];
        let m3 = seq!['['] + enc_approvals(c.pending_approvals@) + seq![']'];
        let m4 = seq!['['] + enc_artifacts(c.artifacts@) + seq![']'];
        assert(b =~= start + m1 + m2);
        assert(out@ =~= start + m1 + m2 + m3 + m4);
        assert(content_lists(*c) =~= m1 + m2 + m3 + m4);
    }
}

/// Writes the text of what the context holds besides its observation,
/// focus, positions, conflicts and events.
fn put_content(out: &mut Vec<char>, c: &ThoughtContext)
    ensures
        final(out)@ == old(out)@ + content_text(*c),
{
    let ghost start = out@;
    put_content_head(out, c);
    put_content_lists(out, c);
    put_text_list(out, &c.available_capabilities);
    put_text(out, &c.output_schema);
    proof {
        assert(out@ =~= start + content_text(*c));
    }
}

/// Lists of Memories holding the same values have the same text.
pub proof fn lemma_same_memories_text(a: Seq<ActiveMemory>, b: Seq<ActiveMemory>)
    requires
        crate::context_content::same_memories(a, b),
    ensures
        enc_memories(a) == enc_memories(b),
    decreases a.len(),
{
    if a.len() > 0 {
        assert(crate::model::same_memory(a[a.len() - 1], b[b.len() - 1]));
        lemma_same_memories_text(a.drop_last(), b.drop_last());
    }
}

/// Lists of Memory candidates holding the same values have the same text.
pub proof fn lemma_same_memory_candidates_text(a: Seq<MemoryCandidate>, b: Seq<MemoryCandidate>)
    requires
        crate::context_content::same_memory_candidates(a, b),
    ensures
        enc_memory_candidates(a) == enc_memory_candidates(b),
    decreases a.len(),
{
    if a.len() > 0 {
        assert(crate::model::same_memory_candidate(a[a.len() - 1], b[b.len() - 1]));
        lemma_same_memory_candidates_text(a.drop_last(), b.drop_last());
    }
}

/// The canonical text of a context's revision, observation, focus,
/// positions, conflicts, events and context snapshot.
pub open spec fn core_text(c: ThoughtContext) -> Seq<char> {
    enc_num(c.event_sequence as nat) + enc_observation(c.observation) + enc_focus(c.focus) + seq!['[']
        + enc_positions(c.positions@) + seq![']', '['] + enc_positions(c.user_positions@) + seq![
        ']',
        '[',
    ] + enc_conflicts(c.conflicts@) + seq![']'] + enc_id_list(c.recent_event_ids@) + enc_id_list(
        c.recalled_event_ids@,
    ) + enc_opt_text(c.context_snapshot)
}

/// The canonical text of a context, without its snapshot hash.
pub open spec fn snapshot_text(c: ThoughtContext) -> Seq<char> {
    core_text(c) + content_text(c)
}

/// The hash that seals a context: the lower-case hex SHA-256 of the UTF-8
/// of its canonical text.
pub open spec fn snapshot_hash_of(c: ThoughtContext) -> Seq<char> {
    hex_lower(sha256_of(encode_utf8(snapshot_text(c))))
}

fn put_chars(out: &mut Vec<char>, v: &Vec<char>)
    ensures
        final(out)@ == old(out)@ + v@,
{
    let ghost start = out@;
    let mut i: usize = 0;
    while i < v.len()
        invariant
            i <= v@.len(),
            out@ == start + v@.subrange(0, i as int),
        decreases v@.len() - i,
    {
        out.push(v[i]);
        proof {
            assert(v@.subrange(0, i + 1) =~= v@.subrange(0, i as int).push(v@[i as int]));
        }
        i = i + 1;
    }
    proof {
        assert(v@.subrange(0, v@.len() as int) =~= v@);
    }
}

fn put_string(out: &mut Vec<char>, s: &String)
    ensures
        final(out)@ == old(out)@ + s@,
{
    let v = chars_of(s.as_str());
    put_chars(out, &v);
}

fn put_num(out: &mut Vec<char>, n: u64)
    ensures
        final(out)@ == old(out)@ + enc_num(n as nat),
{
    let d = decimal_text(n);
    put_string(out, &d);
    out.push(',');
}

fn put_id(out: &mut Vec<char>, id: u128)
    ensures
        final(out)@ == old(out)@ + uuid_hyphenated(id),
{
    let t = uuid_text(id);
    put_string(out, &t);
}

fn put_text(out: &mut Vec<char>, t: &String)
    ensures
        final(out)@ == old(out)@ + enc_text(t@),
{
    let v = chars_of(t.as_str());
    let d = decimal_text(v.len() as u64);
    put_string(out, &d);
    out.push(':');
    put_chars(out, &v);
    proof {
        assert(old(out)@ + d@ + seq![':'] + v@ =~= old(out)@ + enc_text(t@));
    }
}

fn put_opt_text(out: &mut Vec<char>, o: &Option<String>)
    ensures
        final(out)@ == old(out)@ + enc_opt_text(*o),
{
    match o {
        Some(t) => {
            out.push('+');
            put_text(out, t);
            proof {
                assert(out@ =~= old(out)@ + enc_opt_text(*o));
            }
        },
        None => {
            out.push('-');
        },
    }
}

fn put_opt_id(out: &mut Vec<char>, o: Option<u128>)
    ensures
        final(out)@ == old(out)@ + enc_opt_id(o),
{
    match o {
        Some(id) => {
            out.push('+');
            put_id(out, id);
            proof {
                assert(out@ =~= old(out)@ + enc_opt_id(o));
            }
        },
        None => {
            out.push('-');
        },
    }
}

fn put_id_list(out: &mut Vec<char>, ids: &Vec<u128>)
    ensures
        final(out)@ == old(out)@ + enc_id_list(ids@),
{
    let ghost start = out@;
    out.push('[');
    let mut i: usize = 0;
    while i < ids.len()
        invariant
            i <= ids@.len(),
            out@ == start + seq!['['] + enc_ids(ids@.subrange(0, i as int)),
        decreases ids@.len() - i,
    {
        proof {
            let pre = ids@.subrange(0, i + 1);
            assert(pre.drop_last() =~= ids@.subrange(0, i as int));
        }
        put_id(out, ids[i]);
        out.push(';');
        i = i + 1;
    }
    out.push(']');
    proof {
        assert(ids@.subrange(0, ids@.len() as int) =~= ids@);
        assert(out@ =~= start + enc_id_list(ids@));
    }
}

fn put_text_list(out: &mut Vec<char>, ts: &Vec<String>)
    ensures
        final(out)@ == old(out)@ + enc_text_list(ts@),
{
    let ghost start = out@;
    out.push('[');
    let mut i: usize = 0;
    while i < ts.len()
        invariant
            i <= ts@.len(),
            out@ == start + seq!['['] + enc_texts(ts@.subrange(0, i as int)),
        decreases ts@.len() - i,
    {
        proof {
            let pre = ts@.subrange(0, i + 1);
            assert(pre.drop_last() =~= ts@.subrange(0, i as int));
        }
        put_text(out, &ts[i]);
        i = i + 1;
    }
    out.push(']');
    proof {
        assert(ts@.subrange(0, ts@.len() as int) =~= ts@);
        assert(out@ =~= start + enc_text_list(ts@));
    }
}

fn stance_char(s: Stance) -> (r: char)
    ensures
        r == stance_code(s),
{
    match s {
        Stance::Support => '0',
        Stance::Oppose => '1',
        Stance::Uncertain => '2',
        Stance::Neutral => '3',
    }
}

fn position_status_char(s: PositionStatus) -> (r: char)
    ensures
        r == position_status_code(s),
{
    match s {
        PositionStatus::Active => '0',
        PositionStatus::Superseded => '1',
        PositionStatus::Retracted => '2',
    }
}

fn conflict_status_char(s: ConflictStatus) -> (r: char)
    ensures
        r == conflict_status_code(s),
{
    match s {
        ConflictStatus::Open => '0',
        ConflictStatus::Negotiating => '1',
        ConflictStatus::Resolved => '2',
        ConflictStatus::AcceptedDisagreement => '3',
    }
}

fn put_position(out: &mut Vec<char>, p: &Position)
    ensures
        final(out)@ == old(out)@ + enc_position(*p),
{
    let ghost start = out@;
    out.push('P');
    put_id(out, p.id);
    put_id(out, p.principal_id);
    put_text(out, &p.subject);
    out.push(stance_char(p.stance));
    out.push(position_status_char(p.status));
    put_num(out, p.version as u64);
    put_opt_id(out, p.supersedes);
    put_num(out, p.confidence as u64);
    put_id_list(out, &p.evidence_refs);
    put_text_list(out, &p.reasons);
    put_text_list(out, &p.reconsideration_conditions);
    proof {
        assert(out@ =~= start + enc_position(*p));
    }
}

fn put_positions(out: &mut Vec<char>, ps: &Vec<Position>)
    ensures
        final(out)@ == old(out)@ + enc_positions(ps@),
{
    let ghost start = out@;
    let mut i: usize = 0;
    proof {
        assert(start + enc_positions(ps@.subrange(0, 0)) =~= start);
    }
    while i < ps.len()
        invariant
            i <= ps@.len(),
            out@ == start + enc_positions(ps@.subrange(0, i as int)),
        decreases ps@.len() - i,
    {
        proof {
            let pre = ps@.subrange(0, i + 1);
            assert(pre.drop_last() =~= ps@.subrange(0, i as int));
        }
        put_position(out, &ps[i]);
        i = i + 1;
    }
    proof {
        assert(ps@.subrange(0, ps@.len() as int) =~= ps@);
    }
}

fn put_conflict(out: &mut Vec<char>, c: &Conflict)
    ensures
        final(out)@ == old(out)@ + enc_conflict(*c),
{
    let ghost start = out@;
    out.push('C');
    put_id(out, c.id);
    put_text(out, &c.subject);
    out.push(conflict_status_char(c.status));
    put_num(out, c.revision as u64);
    put_id_list(out, &c.participant_positions);
    put_id_list(out, &c.evidence_refs);
    put_text_list(out, &c.reasons);
    put_text_list(out, &c.reconsideration_conditions);
    put_text_list(out, &c.unresolved_questions);
    put_opt_text(out, &c.resolution);
    proof {
        assert(out@ =~= start + enc_conflict(*c));
    }
}

fn put_conflicts(out: &mut Vec<char>, cs: &Vec<Conflict>)
    ensures
        final(out)@ == old(out)@ + enc_conflicts(cs@),
{
    let ghost start = out@;
    let mut i: usize = 0;
    proof {
        assert(start + enc_conflicts(cs@.subrange(0, 0)) =~= start);
    }
    while i < cs.len()
        invariant
            i <= cs@.len(),
            out@ == start + enc_conflicts(cs@.subrange(0, i as int)),
        decreases cs@.len() - i,
    {
        proof {
            let pre = cs@.subrange(0, i + 1);
            assert(pre.drop_last() =~= cs@.subrange(0, i as int));
        }
        put_conflict(out, &cs[i]);
        i = i + 1;
    }
    proof {
        assert(cs@.subrange(0, cs@.len() as int) =~= cs@);
    }
}

fn put_observation(out: &mut Vec<char>, o: &Observation)
    ensures
        final(out)@ == old(out)@ + enc_observation(*o),
{
    let ghost start = out@;
    out.push('O');
    put_id(out, o.id);
    put_id(out, o.actor_id);
    put_text(out, &o.content);
    put_opt_text(out, &o.thread_id);
    put_opt_text(out, &o.message_id);
    put_text(out, &o.source_type);
    put_opt_text(out, &o.source_ref);
    proof {
        assert(out@ =~= start + enc_observation(*o));
    }
}

fn put_focus(out: &mut Vec<char>, f: &Focus)
    ensures
        final(out)@ == old(out)@ + enc_focus(*f),
{
    let ghost start = out@;
    out.push('F');
    put_opt_id(out, f.goal_id);
    put_opt_id(out, f.task_id);
    put_opt_id(out, f.run_id);
    proof {
        assert(out@ =~= start + enc_focus(*f));
    }
}

fn put_bracketed_positions(out: &mut Vec<char>, ps: &Vec<Position>)
    ensures
        final(out)@ == old(out)@ + seq!['['] + enc_positions(ps@) + seq![']'],
{
    out.push('[');
    put_positions(out, ps);
    out.push(']');
}

pub open spec fn core_head(c: ThoughtContext) -> Seq<char> {
    enc_num(c.event_sequence as nat) + enc_observation(c.observation) + enc_focus(c.focus)
}

pub open spec fn core_middle(c: ThoughtContext) -> Seq<char> {
    seq!['['] + enc_positions(c.positions@) + seq![']', '['] + enc_positions(c.user_positions@) + seq![']', '[']
        + enc_conflicts(c.conflicts@) + seq![']']
}

pub open spec fn core_tail(c: ThoughtContext) -> Seq<char> {
    enc_id_list(c.recent_event_ids@) + enc_id_list(c.recalled_event_ids@) + enc_opt_text(c.context_snapshot)
}

proof fn lemma_core_parts(c: ThoughtContext)
    ensures
        core_text(c) == core_head(c) + core_middle(c) + core_tail(c),
{
    assert(core_text(c) =~= core_head(c) + core_middle(c) + core_tail(c));
}

fn put_core_head(out: &mut Vec<char>, c: &ThoughtContext)
    ensures
        final(out)@ == old(out)@ + core_head(*c),
{
    let ghost start = out@;
    put_num(out, c.event_sequence);
    put_observation(out, &c.observation);
    put_focus(out, &c.focus);
    proof {
        assert(out@ =~= start + core_head(*c));
    }
}

fn put_core_middle(out: &mut Vec<char>, c: &ThoughtContext)
    ensures
        final(out)@ == old(out)@ + core_middle(*c),
{
    let ghost start = out@;
    put_bracketed_positions(out, &c.positions);
    put_bracketed_positions(out, &c.user_positions);
    let ghost b = out@;
    out.push('[');
    put_conflicts(out, &c.conflicts);
    out.push(']');
    proof {
        let p1 = seq!['['] + enc_positions(c.positions@) + seq![']'];
        let p2 = seq!['['] + enc_positions(c.user_positions@) + seq![']'];
        let cc = seq!['['] + enc_conflicts(c.conflicts@) + seq![']'];
        assert(b =~= start + p1 + p2);
        assert(out@ =~= start + p1 + p2 + cc);
        assert(core_middle(*c) =~= p1 + p2 + cc);
    }
}

fn put_core(out: &mut Vec<char>, c: &ThoughtContext)
    ensures
        final(out)@ == old(out)@ + core_text(*c),
{
    let ghost start = out@;
    put_core_head(out, c);
    put_core_middle(out, c);
    put_id_list(out, &c.recent_event_ids);
    put_id_list(out, &c.recalled_event_ids);
    put_opt_text(out, &c.context_snapshot);
    proof {
        lemma_core_parts(*c);
        assert(out@ =~= start + core_head(*c) + core_middle(*c) + core_tail(*c));
    }
}

/// The canonical text of a context, without its snapshot hash.
pub fn context_text(c: &ThoughtContext) -> (r: String)
    ensures
        r@ == snapshot_text(*c),
{
    let mut out: Vec<char> = Vec::new();
    put_core(&mut out, c);
    put_content(&mut out, c);
    proof {
        assert(out@ =~= snapshot_text(*c));
    }
    string_from_chars(&out)
}

/// The hash that seals a context, over everything but the hash itself.
pub fn snapshot_hash(c: &ThoughtContext) -> (r: String)
    ensures
        r@ == snapshot_hash_of(*c),
{
    let text = context_text(c);
    sha256_hex_of_text(text.as_str())
}

/// Lists of positions holding the same values have the same text.
pub proof fn lemma_same_positions_text(a: Seq<Position>, b: Seq<Position>)
    requires
        crate::context::same_positions(a, b),
    ensures
        enc_positions(a) == enc_positions(b),
    decreases a.len(),
{
    if a.len() > 0 {
        assert(crate::model::same_position(a[a.len() - 1], b[b.len() - 1]));
        lemma_same_positions_text(a.drop_last(), b.drop_last());
    }
}

/// Lists of conflicts holding the same values have the same text.
pub proof fn lemma_same_conflicts_text(a: Seq<Conflict>, b: Seq<Conflict>)
    requires
        crate::context::same_conflicts(a, b),
    ensures
        enc_conflicts(a) == enc_conflicts(b),
    decreases a.len(),
{
    if a.len() > 0 {
        assert(crate::model::same_conflict(a[a.len() - 1], b[b.len() - 1]));
        lemma_same_conflicts_text(a.drop_last(), b.drop_last());
    }
}

} // verus!
