//! Which goal, task and run an observation is attached to.
use vstd::prelude::*;

use crate::model::{Focus, Observation, Run, RunId, RunStatus};
use crate::state::CurrentState;
use crate::table::{get, lemma_lookup_key, lemma_row_found, lookup};
use crate::text::{
    ascii_lower, ascii_lowercase, chars_of, has_prefix, starts_with, text_less, text_lt, trim,
    trimmed,
};

verus! {

/// The focus of a run: the run, its task and the task's goal.
pub open spec fn spec_focus_for_run(state: &CurrentState, run_id: RunId) -> Option<Focus> {
    match lookup(state.runs@, run_id) {
        None => None,
        Some(run) => Some(
            Focus {
                goal_id: match run.task_id {
                    Some(task_id) => match lookup(state.tasks@, task_id) {
                        Some(task) => task.goal_id,
                        None => None,
                    },
                    None => None,
                },
                task_id: run.task_id,
                run_id: Some(run.id),
            },
        ),
    }
}

/// The focus of the run stored under `run_id`, or `None` when there is no
/// such run.
pub fn focus_for_run(state: &CurrentState, run_id: RunId) -> (r: Option<Focus>)
    requires
        state.wf(),
    ensures
        r == spec_focus_for_run(state, run_id),
{
    let run = match get(&state.runs, run_id) {
        Some(run) => run,
        None => return None,
    };
    let task_id = run.task_id;
    let goal_id = match task_id {
        Some(id) => match get(&state.tasks, id) {
            Some(task) => task.goal_id,
            None => None,
        },
        None => None,
    };
    Some(Focus { goal_id, task_id, run_id: Some(run.id) })
}

/// A run that still owns the conversation: pending, running or suspended.
pub open spec fn is_open_run(run: Run) -> bool {
    run.status == RunStatus::Pending || run.status == RunStatus::Running || run.status
        == RunStatus::Suspended
}

/// Among the first `n` runs, the open run started last; of several started
/// at the same time, the one stored last.
pub open spec fn latest_open_run(runs: Seq<Run>, n: int) -> Option<Run>
    decreases n,
{
    if n <= 0 {
        None
    } else {
        let previous = latest_open_run(runs, n - 1);
        let run = runs[n - 1];
        if is_open_run(run) && (previous is None || !text_less(
            run.started_at@,
            previous->0.started_at@,
        )) {
            Some(run)
        } else {
            previous
        }
    }
}

/// Whether the message explicitly asks for new work ("new task:",
/// "new run:" or their Korean forms), ignoring surrounding white space and
/// ASCII case.
pub open spec fn asks_for_new_work(content: Seq<char>) -> bool {
    let text = ascii_lower(trim(content));
    ||| starts_with(text, "new task:"@)
    ||| starts_with(text, "new run:"@)
    ||| starts_with(text, "새 작업:"@)
    ||| starts_with(text, "새 실행:"@)
}

/// The focus an observation is attached to: none when it asks for new work,
/// else the focus of the latest open run, else none.
pub open spec fn spec_resolve_focus(state: &CurrentState, content: Seq<char>) -> Focus {
    let unattached = Focus { goal_id: None, task_id: None, run_id: None };
    if asks_for_new_work(content) {
        unattached
    } else {
        match latest_open_run(state.runs@, state.runs@.len() as int) {
            Some(run) => match spec_focus_for_run(state, run.id) {
                Some(focus) => focus,
                None => unattached,
            },
            None => unattached,
        }
    }
}

/// Attaches an observation to the latest open run unless it asks for new
/// work.
pub fn resolve_focus(state: &CurrentState, observation: &Observation) -> (r: Focus)
    requires
        state.wf(),
    ensures
        r == spec_resolve_focus(state, observation.content@),
{
    let text = trimmed(observation.content.as_str());
    let lowered = ascii_lowercase(&chars_of(text.as_str()));
    if has_prefix(&lowered, &chars_of("new task:")) || has_prefix(&lowered, &chars_of("new run:"))
        || has_prefix(&lowered, &chars_of("새 작업:")) || has_prefix(
        &lowered,
        &chars_of("새 실행:"),
    ) {
        return Focus::unattached();
    }
    let mut best: Option<usize> = None;
    let mut i: usize = 0;
    while i < state.runs.len()
        invariant
            state.wf(),
            i <= state.runs@.len(),
            match best {
                Some(b) => b < i && latest_open_run(state.runs@, i as int) == Some(
                    state.runs@[b as int],
                ),
                None => latest_open_run(state.runs@, i as int) is None,
            },
        decreases state.runs@.len() - i,
    {
        let run = &state.runs[i];
        let open = run.status == RunStatus::Pending || run.status == RunStatus::Running
            || run.status == RunStatus::Suspended;
        if open {
            match best {
                None => {
                    best = Some(i);
                },
                Some(b) => {
                    let current = chars_of(state.runs[b].started_at.as_str());
                    let candidate = chars_of(run.started_at.as_str());
                    if !text_lt(&candidate, &current) {
                        best = Some(i);
                    }
                },
            }
        }
        i = i + 1;
    }
    match best {
        Some(b) => {
            proof {
                lemma_row_found(state.runs@, b as int);
                lemma_lookup_key(state.runs@, state.runs@[b as int].id);
            }
            match focus_for_run(state, state.runs[b].id) {
                Some(focus) => focus,
                None => Focus::unattached(),
            }
        },
        None => Focus::unattached(),
    }
}

} // verus!
