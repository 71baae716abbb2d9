//! The thought context of one cycle: the positions and conflicts in play,
//! the user's positions that bear on the message, and the events HEKATE
//! may cite.
use vstd::prelude::*;

use crate::continuity::add_unique;
use crate::format::{uuid_hyphenated, uuid_text};
use crate::model::{
    clone_conflict, clone_ids, clone_position, same_conflict, same_position, Conflict,
    ConflictStatus, EntityKind, EventId, Focus, Observation, Position, PositionId,
    PositionStatus, Principal, PrincipalId, PrincipalKind, Relationship, ThoughtContext,
};
use crate::engine::opt_text;
use crate::sleep::clone_observation;
use crate::state::{CurrentState, ExperienceEvent};
use crate::table::{get, lookup};
use crate::text::{ascii_lower, ascii_lowercase, chars_of, contains_text, has_substring, same_text};
use crate::snapshot::{content_text, lemma_same_conflicts_text, lemma_same_memories_text, lemma_same_memory_candidates_text, lemma_same_positions_text, snapshot_hash, snapshot_hash_of, snapshot_text};
use crate::context_content::{
    active_memories, context_identity, copy_active_memories, copy_artifacts, copy_goal, copy_identity,
    copy_open_candidates, copy_pending_approvals, copy_relationship, copy_run, copy_task, focus_goal,
    focus_run, focus_task, open_candidates, pending_approvals, same_memories, same_memory_candidates,
    same_opt_goal, same_opt_relationship,
};
use crate::model::{same_memory, same_memory_candidate};

verus! {

/// The identifier of the first principal registered as HEKATE, among the
/// first `n`.
pub open spec fn first_hekate(principals: Seq<Principal>, n: int) -> Option<PrincipalId>
    decreases n,
{
    if n <= 0 {
        None
    } else {
        match first_hekate(principals, n - 1) {
            Some(id) => Some(id),
            None => if principals[n - 1].kind == PrincipalKind::Hekate {
                Some(principals[n - 1].id)
            } else {
                None
            },
        }
    }
}

/// Whether the relationship joins the actor and HEKATE.
pub open spec fn joins(r: Relationship, actor_id: PrincipalId, hekate_id: Option<PrincipalId>) -> bool {
    r.participants@.contains(actor_id) && (hekate_id matches Some(h) && r.participants@.contains(h))
}

/// The position of the first of the first `n` relationships that joins
/// the actor and HEKATE.
pub open spec fn first_joining(rs: Seq<Relationship>, actor_id: PrincipalId, hekate_id: Option<PrincipalId>, n: int) -> Option<int>
    decreases n,
{
    if n <= 0 {
        None
    } else {
        match first_joining(rs, actor_id, hekate_id, n - 1) {
            Some(k) => Some(k),
            None => if joins(rs[n - 1], actor_id, hekate_id) {
                Some(n - 1)
            } else {
                None
            },
        }
    }
}

/// The active positions of a principal among the first `n`, in order.
pub open spec fn active_positions_of(ps: Seq<Position>, principal_id: PrincipalId, n: int) -> Seq<Position>
    decreases n,
{
    if n <= 0 {
        Seq::empty()
    } else {
        let r = active_positions_of(ps, principal_id, n - 1);
        if ps[n - 1].principal_id == principal_id && ps[n - 1].status == PositionStatus::Active {
            r.push(ps[n - 1])
        } else {
            r
        }
    }
}

/// Whether a conflict is in play: open or under negotiation, and among
/// the relationship's unresolved conflicts where there is a relationship.
pub open spec fn conflict_in_play(c: Conflict, relationship: Option<Relationship>) -> bool {
    &&& (c.status == ConflictStatus::Open || c.status == ConflictStatus::Negotiating)
    &&& match relationship {
        Some(r) => r.unresolved_conflicts@.contains(c.id),
        None => true,
    }
}

/// The conflicts in play among the first `n`, in order.
pub open spec fn conflicts_in_play(cs: Seq<Conflict>, relationship: Option<Relationship>, n: int) -> Seq<Conflict>
    decreases n,
{
    if n <= 0 {
        Seq::empty()
    } else {
        let r = conflicts_in_play(cs, relationship, n - 1);
        if conflict_in_play(cs[n - 1], relationship) {
            r.push(cs[n - 1])
        } else {
            r
        }
    }
}

/// The positions the conflicts set against each other, in order.
pub open spec fn conflict_position_ids(cs: Seq<Conflict>) -> Seq<PositionId>
    decreases cs.len(),
{
    if cs.len() == 0 {
        Seq::empty()
    } else {
        conflict_position_ids(cs.drop_last()) + cs.last().participant_positions@
    }
}

/// Whether a position's subject bears on a request: ignoring ASCII case,
/// one contains the other.
pub open spec fn spec_relevant_subject(subject: Seq<char>, request: Seq<char>) -> bool {
    let s = ascii_lower(subject);
    contains_text(s, request) || contains_text(request, s)
}

/// Whether a position of the user is in play: active, and set against
/// another in a conflict or bearing on the (lower-cased) request.
pub open spec fn user_position_in_play(p: Position, actor_id: PrincipalId, in_conflict: Seq<PositionId>, request: Seq<char>) -> bool {
    &&& p.principal_id == actor_id
    &&& p.status == PositionStatus::Active
    &&& (in_conflict.contains(p.id) || spec_relevant_subject(p.subject@, request))
}

/// The user's positions in play among the first `n`, in order.
pub open spec fn user_positions_in_play(
    ps: Seq<Position>,
    actor_id: PrincipalId,
    in_conflict: Seq<PositionId>,
    request: Seq<char>,
    n: int,
) -> Seq<Position>
    decreases n,
{
    if n <= 0 {
        Seq::empty()
    } else {
        let r = user_positions_in_play(ps, actor_id, in_conflict, request, n - 1);
        if user_position_in_play(ps[n - 1], actor_id, in_conflict, request) {
            r.push(ps[n - 1])
        } else {
            r
        }
    }
}

/// The identifiers of positions and conflicts.
pub open spec fn position_ids(ps: Seq<Position>) -> Seq<u128> {
    Seq::new(ps.len(), |i: int| ps[i].id)
}

/// The identifiers of conflicts.
pub open spec fn conflict_ids(cs: Seq<Conflict>) -> Seq<u128> {
    Seq::new(cs.len(), |i: int| cs[i].id)
}

/// The entities whose events bear on the cycle: the positions in play, the
/// user's positions, the conflicts, and the focus's goal, task and run
/// where they exist.
pub open spec fn context_subjects(
    state: &CurrentState,
    focus: Focus,
    positions: Seq<Position>,
    user_positions: Seq<Position>,
    conflicts: Seq<Conflict>,
) -> Seq<u128> {
    let base = position_ids(positions) + position_ids(user_positions) + conflict_ids(conflicts);
    let with_goal = match focus.goal_id {
        Some(id) => if lookup(state.goals@, id) is Some {
            base.push(id)
        } else {
            base
        },
        None => base,
    };
    let with_task = match focus.task_id {
        Some(id) => if lookup(state.tasks@, id) is Some {
            with_goal.push(id)
        } else {
            with_goal
        },
        None => with_goal,
    };
    match focus.run_id {
        Some(id) => if lookup(state.runs@, id) is Some {
            with_task.push(id)
        } else {
            with_task
        },
        None => with_task,
    }
}

/// Whether the event records the observation itself.
pub open spec fn records_observation(e: ExperienceEvent, observation_id: u128) -> bool {
    e.subject matches Some(s) && s.kind == EntityKind::Observation && s.id == observation_id
}

/// Whether the event at position `i` of `n` events bears on the cycle: it
/// does not record the observation itself, and it is among the last
/// twenty, correlated with the observation, or about one of the subjects.
pub open spec fn event_selected(e: ExperienceEvent, i: int, n: int, observation_id: u128, subjects: Seq<u128>) -> bool {
    let recent_start = if n >= 20 {
        n - 20
    } else {
        0
    };
    &&& !records_observation(e, observation_id)
    &&& (i >= recent_start || opt_text(e.correlation_id) == Some(uuid_hyphenated(observation_id)) || (
    e.subject matches Some(s) && subjects.contains(s.id)))
}

/// The identifiers of the events among the first `k` that bear on the
/// cycle, in order.
pub open spec fn selected_events(events: Seq<ExperienceEvent>, observation_id: u128, subjects: Seq<u128>, k: int) -> Seq<EventId>
    decreases k,
{
    if k <= 0 {
        Seq::empty()
    } else {
        let r = selected_events(events, observation_id, subjects, k - 1);
        if event_selected(events[k - 1], k - 1, events.len() as int, observation_id, subjects) {
            r.push(events[k - 1].event_id)
        } else {
            r
        }
    }
}

/// The identifier of the first event recording the observation, if any.
pub open spec fn observation_event(events: Seq<ExperienceEvent>, observation_id: u128, from: int) -> Option<EventId>
    decreases events.len() - from,
{
    if from < 0 || from >= events.len() {
        None
    } else if records_observation(events[from], observation_id) {
        Some(events[from].event_id)
    } else {
        observation_event(events, observation_id, from + 1)
    }
}

/// Two lists of positions hold the same values.
pub open spec fn same_positions(a: Seq<Position>, b: Seq<Position>) -> bool {
    a.len() == b.len() && forall|k: int| 0 <= k < a.len() ==> same_position(#[trigger] a[k], b[k])
}

/// Two lists of conflicts hold the same values.
pub open spec fn same_conflicts(a: Seq<Conflict>, b: Seq<Conflict>) -> bool {
    a.len() == b.len() && forall|k: int| 0 <= k < a.len() ==> same_conflict(#[trigger] a[k], b[k])
}

pub fn hekate_principal(state: &CurrentState) -> (r: Option<PrincipalId>)
    ensures
        r == first_hekate(state.principals@, state.principals@.len() as int),
{
    let mut i: usize = 0;
    while i < state.principals.len()
        invariant
            i <= state.principals@.len(),
            first_hekate(state.principals@, i as int) is None,
        decreases state.principals@.len() - i,
    {
        if state.principals[i].kind == PrincipalKind::Hekate {
            proof {
                lemma_first_hekate_stays(state.principals@, i + 1, state.principals@.len() as int);
            }
            return Some(state.principals[i].id);
        }
        i = i + 1;
    }
    None
}

proof fn lemma_first_hekate_stays(ps: Seq<Principal>, m: int, n: int)
    requires
        0 <= m <= n,
        first_hekate(ps, m) is Some,
    ensures
        first_hekate(ps, n) == first_hekate(ps, m),
    decreases n - m,
{
    if m < n {
        lemma_first_hekate_stays(ps, m, n - 1);
    }
}

proof fn lemma_first_joining_stays(rs: Seq<Relationship>, a: PrincipalId, h: Option<PrincipalId>, m: int, n: int)
    requires
        0 <= m <= n,
        first_joining(rs, a, h, m) is Some,
    ensures
        first_joining(rs, a, h, n) == first_joining(rs, a, h, m),
    decreases n - m,
{
    if m < n {
        lemma_first_joining_stays(rs, a, h, m, n - 1);
    }
}

fn joining_relationship(state: &CurrentState, actor_id: PrincipalId, hekate_id: Option<PrincipalId>) -> (r: Option<usize>)
    ensures
        match r {
            Some(k) => k < state.relationships@.len() && first_joining(
                state.relationships@,
                actor_id,
                hekate_id,
                state.relationships@.len() as int,
            ) == Some(k as int),
            None => first_joining(
                state.relationships@,
                actor_id,
                hekate_id,
                state.relationships@.len() as int,
            ) is None,
        },
{
    let mut i: usize = 0;
    while i < state.relationships.len()
        invariant
            i <= state.relationships@.len(),
            first_joining(state.relationships@, actor_id, hekate_id, i as int) is None,
        decreases state.relationships@.len() - i,
    {
        let r = &state.relationships[i];
        let hit = crate::model::contains_id(&r.participants, actor_id) && match hekate_id {
            Some(h) => crate::model::contains_id(&r.participants, h),
            None => false,
        };
        if hit {
            proof {
                lemma_first_joining_stays(
                    state.relationships@,
                    actor_id,
                    hekate_id,
                    i + 1,
                    state.relationships@.len() as int,
                );
            }
            return Some(i);
        }
        i = i + 1;
    }
    None
}

/// Whether a position's subject bears on the (lower-cased) request.
pub fn relevant_subject(subject: &str, request: &Vec<char>) -> (r: bool)
    ensures
        r == spec_relevant_subject(subject@, request@),
{
    let s = ascii_lowercase(&chars_of(subject));
    has_substring(&s, request) || has_substring(request, &s)
}

fn push_position(out: &mut Vec<Position>, p: &Position)
    ensures
        final(out)@.len() == old(out)@.len() + 1,
        forall|k: int| 0 <= k < old(out)@.len() ==> #[trigger] final(out)@[k] == old(out)@[k],
        same_position(final(out)@[old(out)@.len() as int], *p),
{
    out.push(clone_position(p));
}

fn push_conflict(out: &mut Vec<Conflict>, c: &Conflict)
    ensures
        final(out)@.len() == old(out)@.len() + 1,
        forall|k: int| 0 <= k < old(out)@.len() ==> #[trigger] final(out)@[k] == old(out)@[k],
        same_conflict(final(out)@[old(out)@.len() as int], *c),
{
    out.push(clone_conflict(c));
}

pub fn append_ids(out: &mut Vec<u128>, ids: &Vec<u128>)
    ensures
        final(out)@ == old(out)@ + ids@,
{
    let ghost start = out@;
    let mut i: usize = 0;
    while i < ids.len()
        invariant
            i <= ids@.len(),
            out@ == start + ids@.subrange(0, i as int),
        decreases ids@.len() - i,
    {
        out.push(ids[i]);
        proof {
            assert(ids@.subrange(0, i + 1) =~= ids@.subrange(0, i as int).push(ids@[i as int]));
        }
        i = i + 1;
    }
    proof {
        assert(ids@.subrange(0, ids@.len() as int) =~= ids@);
    }
}

proof fn lemma_same_positions_push(a: Seq<Position>, b: Seq<Position>, a2: Seq<Position>, p: Position)
    requires
        same_positions(a, b),
        a2.len() == a.len() + 1,
        forall|k: int| 0 <= k < a.len() ==> #[trigger] a2[k] == a[k],
        same_position(a2[a.len() as int], p),
    ensures
        same_positions(a2, b.push(p)),
{
    assert forall|k: int| 0 <= k < a2.len() implies same_position(#[trigger] a2[k], b.push(p)[k]) by {
        if k < a.len() {
            assert(a2[k] == a[k]);
            assert(same_position(a[k], b[k]));
        }
    }
}

proof fn lemma_same_conflicts_push(a: Seq<Conflict>, b: Seq<Conflict>, a2: Seq<Conflict>, c: Conflict)
    requires
        same_conflicts(a, b),
        a2.len() == a.len() + 1,
        forall|k: int| 0 <= k < a.len() ==> #[trigger] a2[k] == a[k],
        same_conflict(a2[a.len() as int], c),
    ensures
        same_conflicts(a2, b.push(c)),
{
    assert forall|k: int| 0 <= k < a2.len() implies same_conflict(#[trigger] a2[k], b.push(c)[k]) by {
        if k < a.len() {
            assert(a2[k] == a[k]);
            assert(same_conflict(a[k], b[k]));
        }
    }
}

fn active_positions(state: &CurrentState, principal_id: PrincipalId) -> (r: Vec<Position>)
    ensures
        same_positions(
            r@,
            active_positions_of(state.positions@, principal_id, state.positions@.len() as int),
        ),
{
    let mut out: Vec<Position> = Vec::new();
    let mut i: usize = 0;
    while i < state.positions.len()
        invariant
            i <= state.positions@.len(),
            same_positions(out@, active_positions_of(state.positions@, principal_id, i as int)),
        decreases state.positions@.len() - i,
    {
        let p = &state.positions[i];
        if p.principal_id == principal_id && p.status == PositionStatus::Active {
            let ghost before = out@;
            push_position(&mut out, p);
            proof {
                lemma_same_positions_push(
                    before,
                    active_positions_of(state.positions@, principal_id, i as int),
                    out@,
                    *p,
                );
            }
        }
        i = i + 1;
    }
    out
}

fn conflicts_for(state: &CurrentState, relationship: Option<&Relationship>) -> (r: Vec<Conflict>)
    ensures
        same_conflicts(
            r@,
            conflicts_in_play(
                state.conflicts@,
                match relationship {
                    Some(x) => Some(*x),
                    None => None,
                },
                state.conflicts@.len() as int,
            ),
        ),
{
    let ghost rel = match relationship {
        Some(x) => Some(*x),
        None => None,
    };
    let mut out: Vec<Conflict> = Vec::new();
    let mut i: usize = 0;
    while i < state.conflicts.len()
        invariant
            rel == match relationship {
                Some(x) => Some(*x),
                None => None::<Relationship>,
            },
            i <= state.conflicts@.len(),
            same_conflicts(out@, conflicts_in_play(state.conflicts@, rel, i as int)),
        decreases state.conflicts@.len() - i,
    {
        let c = &state.conflicts[i];
        let open = c.status == ConflictStatus::Open || c.status == ConflictStatus::Negotiating;
        let listed = match relationship {
            Some(r) => crate::model::contains_id(&r.unresolved_conflicts, c.id),
            None => true,
        };
        if open && listed {
            let ghost before = out@;
            push_conflict(&mut out, c);
            proof {
                lemma_same_conflicts_push(
                    before,
                    conflicts_in_play(state.conflicts@, rel, i as int),
                    out@,
                    *c,
                );
            }
        }
        i = i + 1;
    }
    out
}

fn positions_in_conflict(conflicts: &Vec<Conflict>) -> (r: Vec<PositionId>)
    ensures
        r@ == conflict_position_ids(conflicts@),
{
    let mut out: Vec<PositionId> = Vec::new();
    let mut i: usize = 0;
    while i < conflicts.len()
        invariant
            i <= conflicts@.len(),
            out@ == conflict_position_ids(conflicts@.subrange(0, i as int)),
        decreases conflicts@.len() - i,
    {
        append_ids(&mut out, &conflicts[i].participant_positions);
        proof {
            let s = conflicts@.subrange(0, i + 1);
            assert(s.drop_last() =~= conflicts@.subrange(0, i as int));
            assert(s.last() == conflicts@[i as int]);
        }
        i = i + 1;
    }
    proof {
        assert(conflicts@.subrange(0, conflicts@.len() as int) =~= conflicts@);
    }
    out
}

proof fn lemma_conflict_ids_same(a: Seq<Conflict>, b: Seq<Conflict>)
    requires
        same_conflicts(a, b),
    ensures
        conflict_position_ids(a) == conflict_position_ids(b),
        conflict_ids(a) == conflict_ids(b),
    decreases a.len(),
{
    if a.len() > 0 {
        assert(same_conflict(a[a.len() - 1], b[b.len() - 1]));
        assert forall|k: int| 0 <= k < a.drop_last().len() implies same_conflict(
            #[trigger] a.drop_last()[k],
            b.drop_last()[k],
        ) by {
            assert(same_conflict(a[k], b[k]));
        }
        lemma_conflict_ids_same(a.drop_last(), b.drop_last());
    }
    assert(conflict_ids(a) =~= conflict_ids(b)) by {
        assert forall|k: int| 0 <= k < a.len() implies conflict_ids(a)[k] == conflict_ids(b)[k] by {
            assert(same_conflict(a[k], b[k]));
        }
    }
}

proof fn lemma_position_ids_same(a: Seq<Position>, b: Seq<Position>)
    requires
        same_positions(a, b),
    ensures
        position_ids(a) == position_ids(b),
{
    assert(position_ids(a) =~= position_ids(b)) by {
        assert forall|k: int| 0 <= k < a.len() implies position_ids(a)[k] == position_ids(b)[k] by {
            assert(same_position(a[k], b[k]));
        }
    }
}

fn user_positions(
    state: &CurrentState,
    actor_id: PrincipalId,
    in_conflict: &Vec<PositionId>,
    request: &Vec<char>,
) -> (r: Vec<Position>)
    ensures
        same_positions(
            r@,
            user_positions_in_play(
                state.positions@,
                actor_id,
                in_conflict@,
                request@,
                state.positions@.len() as int,
            ),
        ),
{
    let mut out: Vec<Position> = Vec::new();
    let mut i: usize = 0;
    while i < state.positions.len()
        invariant
            i <= state.positions@.len(),
            same_positions(
                out@,
                user_positions_in_play(state.positions@, actor_id, in_conflict@, request@, i as int),
            ),
        decreases state.positions@.len() - i,
    {
        let p = &state.positions[i];
        if p.principal_id == actor_id && p.status == PositionStatus::Active && (
        crate::model::contains_id(in_conflict, p.id) || relevant_subject(p.subject.as_str(), request)) {
            let ghost before = out@;
            push_position(&mut out, p);
            proof {
                lemma_same_positions_push(
                    before,
                    user_positions_in_play(state.positions@, actor_id, in_conflict@, request@, i as int),
                    out@,
                    *p,
                );
            }
        }
        i = i + 1;
    }
    out
}

fn ids_of_positions(ps: &Vec<Position>, out: &mut Vec<u128>)
    ensures
        final(out)@ == old(out)@ + position_ids(ps@),
{
    let ghost start = out@;
    let mut i: usize = 0;
    while i < ps.len()
        invariant
            i <= ps@.len(),
            out@ == start + position_ids(ps@).subrange(0, i as int),
        decreases ps@.len() - i,
    {
        out.push(ps[i].id);
        proof {
            assert(position_ids(ps@).subrange(0, i + 1) =~= position_ids(ps@).subrange(0, i as int).push(
                ps@[i as int].id,
            ));
        }
        i = i + 1;
    }
    proof {
        assert(position_ids(ps@).subrange(0, ps@.len() as int) =~= position_ids(ps@));
    }
}

fn ids_of_conflicts(cs: &Vec<Conflict>, out: &mut Vec<u128>)
    ensures
        final(out)@ == old(out)@ + conflict_ids(cs@),
{
    let ghost start = out@;
    let mut i: usize = 0;
    while i < cs.len()
        invariant
            i <= cs@.len(),
            out@ == start + conflict_ids(cs@).subrange(0, i as int),
        decreases cs@.len() - i,
    {
        out.push(cs[i].id);
        proof {
            assert(conflict_ids(cs@).subrange(0, i + 1) =~= conflict_ids(cs@).subrange(0, i as int).push(
                cs@[i as int].id,
            ));
        }
        i = i + 1;
    }
    proof {
        assert(conflict_ids(cs@).subrange(0, cs@.len() as int) =~= conflict_ids(cs@));
    }
}

fn subjects_of(
    state: &CurrentState,
    focus: &Focus,
    positions: &Vec<Position>,
    users: &Vec<Position>,
    conflicts: &Vec<Conflict>,
) -> (r: Vec<u128>)
    requires
        state.wf(),
    ensures
        r@ == context_subjects(state, *focus, positions@, users@, conflicts@),
{
    let mut out: Vec<u128> = Vec::new();
    ids_of_positions(positions, &mut out);
    ids_of_positions(users, &mut out);
    ids_of_conflicts(conflicts, &mut out);
    proof {
        assert(out@ =~= position_ids(positions@) + position_ids(users@) + conflict_ids(conflicts@));
    }
    match focus.goal_id {
        Some(id) => {
            if crate::table::contains_key(&state.goals, id) {
                out.push(id);
            }
        },
        None => {},
    }
    match focus.task_id {
        Some(id) => {
            if crate::table::contains_key(&state.tasks, id) {
                out.push(id);
            }
        },
        None => {},
    }
    match focus.run_id {
        Some(id) => {
            if crate::table::contains_key(&state.runs, id) {
                out.push(id);
            }
        },
        None => {},
    }
    out
}

fn select_events(events: &[ExperienceEvent], observation_id: u128, subjects: &Vec<u128>) -> (r: Vec<EventId>)
    ensures
        r@ == selected_events(events@, observation_id, subjects@, events@.len() as int),
{
    let n = events.len();
    let recent_start: usize = if n >= 20 {
        n - 20
    } else {
        0
    };
    let correlation = uuid_text(observation_id);
    let mut out: Vec<EventId> = Vec::new();
    let mut i: usize = 0;
    while i < n
        invariant
            n == events@.len(),
            recent_start == if n >= 20 {
                n - 20
            } else {
                0
            },
            correlation@ == uuid_hyphenated(observation_id),
            i <= n,
            out@ == selected_events(events@, observation_id, subjects@, i as int),
        decreases n - i,
    {
        let e = &events[i];
        let own = match e.subject {
            Some(s) => s.kind == EntityKind::Observation && s.id == observation_id,
            None => false,
        };
        let correlated = match &e.correlation_id {
            Some(c) => same_text(c.as_str(), correlation.as_str()),
            None => false,
        };
        let about = match e.subject {
            Some(s) => crate::model::contains_id(subjects, s.id),
            None => false,
        };
        if !own && (i >= recent_start || correlated || about) {
            out.push(e.event_id);
        }
        i = i + 1;
    }
    out
}

fn find_observation_event(events: &[ExperienceEvent], observation_id: u128) -> (r: Option<EventId>)
    ensures
        r == observation_event(events@, observation_id, 0),
{
    let mut i: usize = 0;
    while i < events.len()
        invariant
            i <= events@.len(),
            observation_event(events@, observation_id, 0) == observation_event(
                events@,
                observation_id,
                i as int,
            ),
        decreases events@.len() - i,
    {
        let hit = match events[i].subject {
            Some(s) => s.kind == EntityKind::Observation && s.id == observation_id,
            None => false,
        };
        if hit {
            return Some(events[i].event_id);
        }
        i = i + 1;
    }
    None
}

/// The relationship of the actor with HEKATE the context speaks of.
pub open spec fn context_relationship(state: &CurrentState, actor_id: PrincipalId) -> Option<Relationship> {
    let hekate = first_hekate(state.principals@, state.principals@.len() as int);
    match first_joining(state.relationships@, actor_id, hekate, state.relationships@.len() as int) {
        Some(k) => Some(state.relationships@[k]),
        None => None,
    }
}

/// `c` is the thought context of the observation on the focus: the state's
/// revision, the observation and focus themselves; HEKATE's active
/// positions; the open or negotiating conflicts (those of the relationship
/// with HEKATE, where there is one); the user's active positions set
/// against others in those conflicts or bearing on the message; the events
/// to cite: those among the last twenty, correlated with the observation,
/// or about a position, conflict, goal, task or run in play (never the one
/// recording the observation), followed by the event recording the
/// observation; the recalled sources and the context snapshot given; and
/// the hash sealing all of that.
pub open spec fn context_of(
    state: &CurrentState,
    observation: Observation,
    focus: Focus,
    events: Seq<ExperienceEvent>,
    capabilities: Seq<String>,
    recalled: Seq<EventId>,
    context_snapshot: Option<String>,
    c: ThoughtContext,
) -> bool {
    let hekate = first_hekate(state.principals@, state.principals@.len() as int);
    let positions = match hekate {
        Some(h) => active_positions_of(state.positions@, h, state.positions@.len() as int),
        None => Seq::empty(),
    };
    let conflicts = conflicts_in_play(
        state.conflicts@,
        context_relationship(state, observation.actor_id),
        state.conflicts@.len() as int,
    );
    let users = user_positions_in_play(
        state.positions@,
        observation.actor_id,
        conflict_position_ids(conflicts),
        ascii_lower(observation.content@),
        state.positions@.len() as int,
    );
    let subjects = context_subjects(state, focus, positions, users, conflicts);
    &&& c.event_sequence == state.revision
    &&& c.observation == observation
    &&& c.focus == focus
    &&& same_positions(c.positions@, positions)
    &&& same_positions(c.user_positions@, users)
    &&& same_conflicts(c.conflicts@, conflicts)
    &&& c.recent_event_ids@ == add_unique(
        selected_events(events, observation.id, subjects, events.len() as int),
        observation_event(events, observation.id, 0),
    )
    &&& c.recalled_event_ids@ == recalled
    &&& c.identity == context_identity(state)
    &&& same_opt_relationship(c.relationship, context_relationship(state, observation.actor_id))
    &&& same_opt_goal(c.goal, focus_goal(state, focus))
    &&& c.task == focus_task(state, focus)
    &&& c.run == focus_run(state, focus)
    &&& same_memories(c.memories@, active_memories(state.active_memories@))
    &&& same_memory_candidates(c.memory_candidates@, open_candidates(state.memory_candidates@))
    &&& c.pending_approvals@ == pending_approvals(state.approvals@)
    &&& c.artifacts@ == state.artifacts@
    &&& c.available_capabilities@ == capabilities
    &&& c.output_schema@ == "thought_cycle(draft, review, commitment(final_act, reasons, response, confidence, evidence_refs, position, user_position, conflict, action))"@
    &&& c.context_snapshot == context_snapshot
    &&& c.snapshot_hash@ == snapshot_hash_of(c)
}

/// The thought context of an observation on its focus, with the sources of
/// what recall brought in and the context snapshot given, sealed by its
/// snapshot hash.
pub fn build_context_with_recall_and_snapshot(
    state: &CurrentState,
    observation: &Observation,
    focus: &Focus,
    events: &[ExperienceEvent],
    available_capabilities: Vec<String>,
    recalled_event_ids: Vec<EventId>,
    context_snapshot: Option<String>,
) -> (r: ThoughtContext)
    requires
        state.wf(),
    ensures
        context_of(state, *observation, *focus, events@, available_capabilities@, recalled_event_ids@, context_snapshot, r),
{
    let hekate = hekate_principal(state);
    let relationship = match joining_relationship(state, observation.actor_id, hekate) {
        Some(k) => Some(&state.relationships[k]),
        None => None,
    };
    let positions = match hekate {
        Some(h) => active_positions(state, h),
        None => Vec::new(),
    };
    let conflicts = conflicts_for(state, relationship);
    let in_conflict = positions_in_conflict(&conflicts);
    let request = ascii_lowercase(&chars_of(observation.content.as_str()));
    proof {
        lemma_conflict_ids_same(
            conflicts@,
            conflicts_in_play(
                state.conflicts@,
                context_relationship(state, observation.actor_id),
                state.conflicts@.len() as int,
            ),
        );
    }
    let users = user_positions(state, observation.actor_id, &in_conflict, &request);
    let subjects = subjects_of(state, focus, &positions, &users, &conflicts);
    proof {
        let spec_positions = match hekate {
            Some(h) => active_positions_of(state.positions@, h, state.positions@.len() as int),
            None => Seq::empty(),
        };
        if hekate is None {
            assert(positions@ =~= Seq::<Position>::empty());
        }
        lemma_position_ids_same(positions@, spec_positions);
        lemma_position_ids_same(
            users@,
            user_positions_in_play(
                state.positions@,
                observation.actor_id,
                in_conflict@,
                request@,
                state.positions@.len() as int,
            ),
        );
    }
    let mut recent = select_events(events, observation.id, &subjects);
    let own = find_observation_event(events, observation.id);
    match own {
        Some(id) => {
            if !crate::model::contains_id(&recent, id) {
                recent.push(id);
            }
        },
        None => {},
    }
    let mut c = ThoughtContext {
        event_sequence: state.revision,
        observation: clone_observation(observation),
        focus: *focus,
        positions,
        user_positions: users,
        conflicts,
        recent_event_ids: recent,
        recalled_event_ids,
        identity: copy_identity(state),
        relationship: copy_relationship(relationship),
        goal: copy_goal(state, focus),
        task: copy_task(state, focus),
        run: copy_run(state, focus),
        memories: copy_active_memories(&state.active_memories),
        memory_candidates: copy_open_candidates(&state.memory_candidates),
        pending_approvals: copy_pending_approvals(&state.approvals),
        artifacts: copy_artifacts(&state.artifacts),
        available_capabilities,
        output_schema: "thought_cycle(draft, review, commitment(final_act, reasons, response, confidence, evidence_refs, position, user_position, conflict, action))".to_owned(),
        context_snapshot,
        snapshot_hash: String::new(),
    };
    let hash = snapshot_hash(&c);
    proof {
        let unsealed = c;
        assert(snapshot_text(ThoughtContext { snapshot_hash: hash, ..unsealed }) == snapshot_text(unsealed));
    }
    c.snapshot_hash = hash;
    c
}

/// The thought context of an observation on its focus, with the sources of
/// what recall brought in.
pub fn build_context_with_recall(
    state: &CurrentState,
    observation: &Observation,
    focus: &Focus,
    events: &[ExperienceEvent],
    available_capabilities: Vec<String>,
    recalled_event_ids: Vec<EventId>,
) -> (r: ThoughtContext)
    requires
        state.wf(),
    ensures
        context_of(state, *observation, *focus, events@, available_capabilities@, recalled_event_ids@, None, r),
{
    build_context_with_recall_and_snapshot(state, observation, focus, events, available_capabilities, recalled_event_ids, None)
}

/// The thought context of an observation on its focus, without recall.
pub fn build_context(
    state: &CurrentState,
    observation: &Observation,
    focus: &Focus,
    events: &[ExperienceEvent],
    available_capabilities: Vec<String>,
) -> (r: ThoughtContext)
    requires
        state.wf(),
    ensures
        context_of(state, *observation, *focus, events@, available_capabilities@, Seq::empty(), None, r),
{
    let none: Vec<EventId> = Vec::new();
    build_context_with_recall(state, observation, focus, events, available_capabilities, none)
}

/// Two contexts hold the same values.
pub open spec fn same_context(a: ThoughtContext, b: ThoughtContext) -> bool {
    &&& a.event_sequence == b.event_sequence
    &&& a.observation == b.observation
    &&& a.focus == b.focus
    &&& same_positions(a.positions@, b.positions@)
    &&& same_positions(a.user_positions@, b.user_positions@)
    &&& same_conflicts(a.conflicts@, b.conflicts@)
    &&& a.recent_event_ids@ == b.recent_event_ids@
    &&& a.recalled_event_ids@ == b.recalled_event_ids@
    &&& a.identity == b.identity
    &&& same_opt_relationship(a.relationship, b.relationship)
    &&& same_opt_goal(a.goal, b.goal)
    &&& a.task == b.task
    &&& a.run == b.run
    &&& same_memories(a.memories@, b.memories@)
    &&& same_memory_candidates(a.memory_candidates@, b.memory_candidates@)
    &&& a.pending_approvals@ == b.pending_approvals@
    &&& a.artifacts@ == b.artifacts@
    &&& a.available_capabilities@ == b.available_capabilities@
    &&& a.output_schema@ == b.output_schema@
    &&& a.context_snapshot == b.context_snapshot
    &&& a.snapshot_hash@ == b.snapshot_hash@
}

/// A context is fixed by what it is built from: the state, observation,
/// focus, ledger, recalled sources and context snapshot. So the context
/// built without recall is the one built with an empty recall, and the one
/// built with recall is the one built with that recall and no snapshot.
pub proof fn lemma_context_determined(
    state: &CurrentState,
    observation: Observation,
    focus: Focus,
    events: Seq<ExperienceEvent>,
    capabilities: Seq<String>,
    recalled: Seq<EventId>,
    context_snapshot: Option<String>,
    a: ThoughtContext,
    b: ThoughtContext,
)
    requires
        context_of(state, observation, focus, events, capabilities, recalled, context_snapshot, a),
        context_of(state, observation, focus, events, capabilities, recalled, context_snapshot, b),
    ensures
        same_context(a, b),
{
    let hekate = first_hekate(state.principals@, state.principals@.len() as int);
    let positions = match hekate {
        Some(h) => active_positions_of(state.positions@, h, state.positions@.len() as int),
        None => Seq::empty(),
    };
    let conflicts = conflicts_in_play(
        state.conflicts@,
        context_relationship(state, observation.actor_id),
        state.conflicts@.len() as int,
    );
    let users = user_positions_in_play(
        state.positions@,
        observation.actor_id,
        conflict_position_ids(conflicts),
        ascii_lower(observation.content@),
        state.positions@.len() as int,
    );
    lemma_same_positions_text(a.positions@, positions);
    lemma_same_positions_text(b.positions@, positions);
    lemma_same_positions_text(a.user_positions@, users);
    lemma_same_positions_text(b.user_positions@, users);
    lemma_same_conflicts_text(a.conflicts@, conflicts);
    lemma_same_conflicts_text(b.conflicts@, conflicts);
    lemma_same_memories_text(a.memories@, active_memories(state.active_memories@));
    lemma_same_memories_text(b.memories@, active_memories(state.active_memories@));
    lemma_same_memory_candidates_text(a.memory_candidates@, open_candidates(state.memory_candidates@));
    lemma_same_memory_candidates_text(b.memory_candidates@, open_candidates(state.memory_candidates@));
    assert(content_text(a) == content_text(b));
    assert(snapshot_text(a) == snapshot_text(b));
    let ms = active_memories(state.active_memories@);
    assert forall|k: int| 0 <= k < a.memories@.len() implies same_memory(#[trigger] a.memories@[k], b.memories@[k]) by {
        assert(same_memory(a.memories@[k], ms[k]));
        assert(same_memory(b.memories@[k], ms[k]));
    }
    let cs = open_candidates(state.memory_candidates@);
    assert forall|k: int| 0 <= k < a.memory_candidates@.len() implies same_memory_candidate(#[trigger] a.memory_candidates@[k], b.memory_candidates@[k]) by {
        assert(same_memory_candidate(a.memory_candidates@[k], cs[k]));
        assert(same_memory_candidate(b.memory_candidates@[k], cs[k]));
    }
    assert forall|k: int| 0 <= k < a.positions@.len() implies same_position(#[trigger] a.positions@[k], b.positions@[k]) by {
        assert(same_position(a.positions@[k], positions[k]));
        assert(same_position(b.positions@[k], positions[k]));
    }
    assert forall|k: int| 0 <= k < a.user_positions@.len() implies same_position(#[trigger] a.user_positions@[k], b.user_positions@[k]) by {
        assert(same_position(a.user_positions@[k], users[k]));
        assert(same_position(b.user_positions@[k], users[k]));
    }
    assert forall|k: int| 0 <= k < a.conflicts@.len() implies same_conflict(#[trigger] a.conflicts@[k], b.conflicts@[k]) by {
        assert(same_conflict(a.conflicts@[k], conflicts[k]));
        assert(same_conflict(b.conflicts@[k], conflicts[k]));
    }
}

} // verus!
