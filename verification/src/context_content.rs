//! What a thought context holds besides its positions and events: HEKATE's
//! identity, the relationship, the focus's goal, task and run, the active
//! Memories, the open Memory candidates, the pending approvals and the
//! artifacts.
use vstd::prelude::*;

use crate::context::first_hekate;
use crate::context_builder::identity_of;
use crate::model::{
    clone_ids, clone_memory, clone_memory_candidate, same_memory, same_memory_candidate,
    ActiveMemory, ActiveMemoryStatus, Approval, ApprovalStatus, Artifact, Focus, Goal,
    IdentityVersion, MemoryCandidate, MemoryCandidateStatus, Relationship, Run, Task,
};
use crate::state::CurrentState;
use crate::table::{get, lookup};

verus! {

/// HEKATE's identity: that of the first principal registered as HEKATE.
pub open spec fn context_identity(state: &CurrentState) -> Option<IdentityVersion> {
    match first_hekate(state.principals@, state.principals@.len() as int) {
        Some(h) => identity_of(state, h),
        None => None,
    }
}

/// The goal, task and run the focus names, where the state holds them.
pub open spec fn focus_goal(state: &CurrentState, focus: Focus) -> Option<Goal> {
    match focus.goal_id {
        Some(id) => lookup(state.goals@, id),
        None => None,
    }
}

pub open spec fn focus_task(state: &CurrentState, focus: Focus) -> Option<Task> {
    match focus.task_id {
        Some(id) => lookup(state.tasks@, id),
        None => None,
    }
}

pub open spec fn focus_run(state: &CurrentState, focus: Focus) -> Option<Run> {
    match focus.run_id {
        Some(id) => lookup(state.runs@, id),
        None => None,
    }
}

pub open spec fn same_goal(a: Goal, b: Goal) -> bool {
    &&& a.id == b.id
    &&& a.owner_principal_id == b.owner_principal_id
    &&& a.participants@ == b.participants@
    &&& a.title == b.title
    &&& a.status == b.status
}

pub open spec fn same_opt_goal(a: Option<Goal>, b: Option<Goal>) -> bool {
    match (a, b) {
        (Some(x), Some(y)) => same_goal(x, y),
        (None, None) => true,
        _ => false,
    }
}

pub open spec fn same_relationship(a: Relationship, b: Relationship) -> bool {
    &&& a.id == b.id
    &&& a.participants@ == b.participants@
    &&& a.unresolved_conflicts@ == b.unresolved_conflicts@
}

pub open spec fn same_opt_relationship(a: Option<Relationship>, b: Option<Relationship>) -> bool {
    match (a, b) {
        (Some(x), Some(y)) => same_relationship(x, y),
        (None, None) => true,
        _ => false,
    }
}

/// The active Memories, in table order.
pub open spec fn active_memories(ms: Seq<ActiveMemory>) -> Seq<ActiveMemory> {
    ms.filter(|m: ActiveMemory| m.status == ActiveMemoryStatus::Active)
}

/// The Memory candidates still awaiting a decision, in table order.
pub open spec fn open_candidates(cs: Seq<MemoryCandidate>) -> Seq<MemoryCandidate> {
    cs.filter(|c: MemoryCandidate| c.status == MemoryCandidateStatus::Candidate)
}

/// The approvals still pending, in table order.
pub open spec fn pending_approvals(approvals: Seq<Approval>) -> Seq<Approval> {
    approvals.filter(|a: Approval| a.status == ApprovalStatus::Pending)
}

pub open spec fn same_memories(a: Seq<ActiveMemory>, b: Seq<ActiveMemory>) -> bool {
    a.len() == b.len() && forall|k: int| 0 <= k < a.len() ==> same_memory(#[trigger] a[k], b[k])
}

pub open spec fn same_memory_candidates(a: Seq<MemoryCandidate>, b: Seq<MemoryCandidate>) -> bool {
    a.len() == b.len() && forall|k: int| 0 <= k < a.len() ==> same_memory_candidate(#[trigger] a[k], b[k])
}

pub fn copy_identity(state: &CurrentState) -> (r: Option<IdentityVersion>)
    requires
        state.wf(),
    ensures
        r == context_identity(state),
{
    match crate::context::hekate_principal(state) {
        None => None,
        Some(h) => match get(&state.principals, h) {
            None => None,
            Some(p) => match p.identity_version_id {
                None => None,
                Some(iv) => match get(&state.identity_versions, iv) {
                    None => None,
                    Some(v) => Some(IdentityVersion { id: v.id, principal_id: v.principal_id, body: v.body.clone() }),
                },
            },
        },
    }
}

pub fn copy_relationship(r: Option<&Relationship>) -> (c: Option<Relationship>)
    ensures
        same_opt_relationship(
            c,
            match r {
                Some(x) => Some(*x),
                None => None,
            },
        ),
{
    match r {
        None => None,
        Some(x) => Some(
            Relationship {
                id: x.id,
                participants: clone_ids(&x.participants),
                unresolved_conflicts: clone_ids(&x.unresolved_conflicts),
            },
        ),
    }
}

pub fn copy_goal(state: &CurrentState, focus: &Focus) -> (r: Option<Goal>)
    requires
        state.wf(),
    ensures
        same_opt_goal(r, focus_goal(state, *focus)),
{
    match focus.goal_id {
        None => None,
        Some(id) => match get(&state.goals, id) {
            None => None,
            Some(g) => Some(
                Goal {
                    id: g.id,
                    owner_principal_id: g.owner_principal_id,
                    participants: clone_ids(&g.participants),
                    title: g.title.clone(),
                    status: g.status,
                },
            ),
        },
    }
}

pub fn copy_task(state: &CurrentState, focus: &Focus) -> (r: Option<Task>)
    requires
        state.wf(),
    ensures
        r == focus_task(state, *focus),
{
    match focus.task_id {
        None => None,
        Some(id) => match get(&state.tasks, id) {
            None => None,
            Some(t) => Some(Task { id: t.id, goal_id: t.goal_id, title: t.title.clone(), status: t.status }),
        },
    }
}

pub fn copy_run(state: &CurrentState, focus: &Focus) -> (r: Option<Run>)
    requires
        state.wf(),
    ensures
        r == focus_run(state, *focus),
{
    match focus.run_id {
        None => None,
        Some(id) => match get(&state.runs, id) {
            None => None,
            Some(run) => Some(Run { id: run.id, task_id: run.task_id, status: run.status, started_at: run.started_at.clone() }),
        },
    }
}

pub fn copy_active_memories(ms: &Vec<ActiveMemory>) -> (r: Vec<ActiveMemory>)
    ensures
        same_memories(r@, active_memories(ms@)),
{
    let mut out: Vec<ActiveMemory> = Vec::new();
    let mut i: usize = 0;
    proof {
        assert(ms@.subrange(0, 0) =~= Seq::<ActiveMemory>::empty());
        assert(active_memories(ms@.subrange(0, 0)) =~= Seq::<ActiveMemory>::empty());
    }
    while i < ms.len()
        invariant
            i <= ms@.len(),
            same_memories(out@, active_memories(ms@.subrange(0, i as int))),
        decreases ms@.len() - i,
    {
        proof {
            let pre = ms@.subrange(0, i as int);
            assert(ms@.subrange(0, i + 1) =~= pre.push(ms@[i as int]));
            pre.lemma_filter_push(ms@[i as int], |m: ActiveMemory| m.status == ActiveMemoryStatus::Active);
        }
        if ms[i].status == ActiveMemoryStatus::Active {
            let c = clone_memory(&ms[i]);
            out.push(c);
        }
        i = i + 1;
    }
    proof {
        assert(ms@.subrange(0, ms@.len() as int) =~= ms@);
    }
    out
}

pub fn copy_open_candidates(cs: &Vec<MemoryCandidate>) -> (r: Vec<MemoryCandidate>)
    ensures
        same_memory_candidates(r@, open_candidates(cs@)),
{
    let mut out: Vec<MemoryCandidate> = Vec::new();
    let mut i: usize = 0;
    proof {
        assert(cs@.subrange(0, 0) =~= Seq::<MemoryCandidate>::empty());
        assert(open_candidates(cs@.subrange(0, 0)) =~= Seq::<MemoryCandidate>::empty());
    }
    while i < cs.len()
        invariant
            i <= cs@.len(),
            same_memory_candidates(out@, open_candidates(cs@.subrange(0, i as int))),
        decreases cs@.len() - i,
    {
        proof {
            let pre = cs@.subrange(0, i as int);
            assert(cs@.subrange(0, i + 1) =~= pre.push(cs@[i as int]));
            pre.lemma_filter_push(cs@[i as int], |c: MemoryCandidate| c.status == MemoryCandidateStatus::Candidate);
        }
        if cs[i].status == MemoryCandidateStatus::Candidate {
            let c = clone_memory_candidate(&cs[i]);
            out.push(c);
        }
        i = i + 1;
    }
    proof {
        assert(cs@.subrange(0, cs@.len() as int) =~= cs@);
    }
    out
}

pub fn copy_pending_approvals(approvals: &Vec<Approval>) -> (r: Vec<Approval>)
    ensures
        r@ == pending_approvals(approvals@),
{
    let mut out: Vec<Approval> = Vec::new();
    let mut i: usize = 0;
    proof {
        assert(approvals@.subrange(0, 0) =~= Seq::<Approval>::empty());
        assert(pending_approvals(approvals@.subrange(0, 0)) =~= Seq::<Approval>::empty());
    }
    while i < approvals.len()
        invariant
            i <= approvals@.len(),
            out@ == pending_approvals(approvals@.subrange(0, i as int)),
        decreases approvals@.len() - i,
    {
        proof {
            let pre = approvals@.subrange(0, i as int);
            assert(approvals@.subrange(0, i + 1) =~= pre.push(approvals@[i as int]));
            pre.lemma_filter_push(approvals@[i as int], |a: Approval| a.status == ApprovalStatus::Pending);
        }
        let a = &approvals[i];
        if a.status == ApprovalStatus::Pending {
            out.push(Approval { id: a.id, operation_id: a.operation_id, status: a.status, resolved_by: a.resolved_by });
        }
        i = i + 1;
    }
    proof {
        assert(approvals@.subrange(0, approvals@.len() as int) =~= approvals@);
    }
    out
}

pub fn copy_artifacts(artifacts: &Vec<Artifact>) -> (r: Vec<Artifact>)
    ensures
        r@ == artifacts@,
{
    let mut out: Vec<Artifact> = Vec::new();
    let mut i: usize = 0;
    while i < artifacts.len()
        invariant
            i <= artifacts@.len(),
            out@ == artifacts@.subrange(0, i as int),
        decreases artifacts@.len() - i,
    {
        let a = &artifacts[i];
        out.push(
            Artifact {
                id: a.id,
                path: a.path.clone(),
                content_hash: a.content_hash.clone(),
                size: a.size,
                media_type: a.media_type.clone(),
                provenance_event_id: a.provenance_event_id,
            },
        );
        proof {
            assert(artifacts@.subrange(0, i + 1) =~= artifacts@.subrange(0, i as int).push(artifacts@[i as int]));
        }
        i = i + 1;
    }
    proof {
        assert(artifacts@.subrange(0, artifacts@.len() as int) =~= artifacts@);
    }
    out
}

} // verus!
