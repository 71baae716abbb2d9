//! Sleep: the background pass that reads new observations since the sleep
//! cursor and proposes integration candidates from them.
use vstd::prelude::*;

use crate::completion::{find_event, first_event_at};
use crate::model::{
    clone_ids, clone_opt_string, ApprovalStatus, AttemptStatus, EntityKind, EventId, Observation,
    OperationStatus, PrincipalId, RunStatus, SleepRun, SleepRunId, SleepRunStatus,
};
use crate::state::{CurrentState, EventKind, ExperienceEvent, Payload};
use crate::text::{blank, chars_of, is_blank, text_less, text_lt};
use crate::agree::same_state;
use crate::projector::{replay_refused, replays, ProjectionError};
use crate::recovery::{recover, RecoveryError};

verus! {

/// How one sleep pass ended.
#[derive(Clone, Copy, Debug, PartialEq, Eq, Structural)]
pub enum SleepOnceStatus {
    Idle,
    Deferred,
    Completed,
    RunningResumed,
    Interrupted,
    Failed,
}

/// The report of one sleep pass.
pub struct SleepOnceResult {
    pub status: SleepOnceStatus,
    pub run_id: Option<SleepRunId>,
    pub high_water_revision: Option<u64>,
    pub cursor_before: Option<u64>,
    pub cursor_after: Option<u64>,
    pub processed_observations: u32,
    pub created_candidates: u32,
    pub resumed: bool,
    pub error_kind: Option<String>,
}


/// The most observations one sleep pass reads.
pub const MAX_SLEEP_SEEDS: usize = 32;

/// Whether foreground work holds the ledger: an active run, a started
/// attempt, a pending approval or an operation started or of unknown
/// effect. Sleep waits while it does.
pub open spec fn spec_foreground_blocked(state: &CurrentState) -> bool {
    ||| exists|i: int|
        0 <= i < state.runs@.len() && ((#[trigger] state.runs@[i]).status == RunStatus::Pending
            || state.runs@[i].status == RunStatus::Running)
    ||| exists|i: int|
        0 <= i < state.attempts@.len() && (#[trigger] state.attempts@[i]).status
            == AttemptStatus::Started
    ||| exists|i: int|
        0 <= i < state.approvals@.len() && (#[trigger] state.approvals@[i]).status
            == ApprovalStatus::Pending
    ||| exists|i: int|
        0 <= i < state.operations@.len() && ((#[trigger] state.operations@[i]).status
            == OperationStatus::Started || state.operations@[i].status == OperationStatus::Unknown)
}

/// Whether foreground work holds the ledger.
pub fn foreground_blocked(state: &CurrentState) -> (r: bool)
    ensures
        r == spec_foreground_blocked(state),
{
    let mut i: usize = 0;
    while i < state.runs.len()
        invariant
            i <= state.runs@.len(),
            forall|j: int|
                0 <= j < i ==> !((#[trigger] state.runs@[j]).status == RunStatus::Pending
                    || state.runs@[j].status == RunStatus::Running),
        decreases state.runs@.len() - i,
    {
        if state.runs[i].status == RunStatus::Pending || state.runs[i].status == RunStatus::Running {
            return true;
        }
        i = i + 1;
    }
    let mut i: usize = 0;
    while i < state.attempts.len()
        invariant
            i <= state.attempts@.len(),
            forall|j: int|
                0 <= j < i ==> (#[trigger] state.attempts@[j]).status != AttemptStatus::Started,
        decreases state.attempts@.len() - i,
    {
        if state.attempts[i].status == AttemptStatus::Started {
            return true;
        }
        i = i + 1;
    }
    let mut i: usize = 0;
    while i < state.approvals.len()
        invariant
            i <= state.approvals@.len(),
            forall|j: int|
                0 <= j < i ==> (#[trigger] state.approvals@[j]).status != ApprovalStatus::Pending,
        decreases state.approvals@.len() - i,
    {
        if state.approvals[i].status == ApprovalStatus::Pending {
            return true;
        }
        i = i + 1;
    }
    let mut i: usize = 0;
    while i < state.operations.len()
        invariant
            i <= state.operations@.len(),
            forall|j: int|
                0 <= j < i ==> !((#[trigger] state.operations@[j]).status
                    == OperationStatus::Started || state.operations@[j].status
                    == OperationStatus::Unknown),
        decreases state.operations@.len() - i,
    {
        if state.operations[i].status == OperationStatus::Started || state.operations[i].status
            == OperationStatus::Unknown {
            return true;
        }
        i = i + 1;
    }
    false
}

/// An observation a sleep pass reads, with its event and sequence.
pub struct SleepSeed {
    pub event_id: EventId,
    pub sequence: u64,
    pub observation: Observation,
}

/// The observations a sleep pass reads: their events, the seeds decoded
/// from them, the cursor after the last one and how many could not be
/// decoded.
pub struct SeedWindow {
    pub event_ids: Vec<EventId>,
    pub seeds: Vec<SleepSeed>,
    pub cursor_after: Option<u64>,
    pub invalid_count: usize,
}

/// The observation events among the first `n` whose sequence lies after
/// `cursor` and up to `high_water`, with their sequences.
pub open spec fn window_events(
    events: Seq<ExperienceEvent>,
    cursor: u64,
    high_water: u64,
    n: int,
) -> Seq<(EventId, u64)>
    decreases n,
{
    if n <= 0 || n > events.len() {
        Seq::empty()
    } else {
        let previous = window_events(events, cursor, high_water, n - 1);
        if n > cursor && n <= high_water && events[n - 1].event_kind
            == EventKind::ObservationRecorded {
            previous.push((events[n - 1].event_id, n as u64))
        } else {
            previous
        }
    }
}

/// The seed decoded from the first event with this identifier, if it is an
/// observation record within `high_water` whose payload is the observation
/// it is about and has content.
pub open spec fn decoded_seed(events: Seq<ExperienceEvent>, event_id: EventId, high_water: u64) -> Option<
    (EventId, u64, Observation),
> {
    match first_event_at(events, event_id, 0) {
        None => None,
        Some(i) => {
            let e = events[i];
            if i + 1 > high_water || e.event_kind != EventKind::ObservationRecorded {
                None
            } else {
                match e.payload {
                    Payload::Observation(o) => if is_blank(o.content@) || !(e.subject is Some
                        && e.subject->0.kind == EntityKind::Observation && e.subject->0.id
                        == o.id) {
                        None
                    } else {
                        Some((event_id, (i + 1) as u64, o))
                    },
                    _ => None,
                }
            }
        },
    }
}

/// The seeds decoded from the first `k` identifiers, skipping those that
/// do not decode.
pub open spec fn decoded_seeds(
    events: Seq<ExperienceEvent>,
    ids: Seq<EventId>,
    high_water: u64,
    k: int,
) -> Seq<(EventId, u64, Observation)>
    decreases k,
{
    if k <= 0 || k > ids.len() {
        Seq::empty()
    } else {
        let previous = decoded_seeds(events, ids, high_water, k - 1);
        match decoded_seed(events, ids[k - 1], high_water) {
            Some(s) => previous.push(s),
            None => previous,
        }
    }
}

pub open spec fn seed_view(s: SleepSeed) -> (EventId, u64, Observation) {
    (s.event_id, s.sequence, s.observation)
}

/// A copy of an observation.
pub fn clone_observation(o: &Observation) -> (r: Observation)
    ensures
        r == *o,
{
    Observation {
        id: o.id,
        actor_id: o.actor_id,
        content: o.content.clone(),
        thread_id: clone_opt_string(&o.thread_id),
        message_id: clone_opt_string(&o.message_id),
        source_type: o.source_type.clone(),
        source_ref: clone_opt_string(&o.source_ref),
    }
}

/// The seed decoded from the event with this identifier, if any.
pub fn decode_seed(events: &[ExperienceEvent], event_id: EventId, high_water: u64) -> (r: Option<
    SleepSeed,
>)
    ensures
        match r {
            Some(s) => decoded_seed(events@, event_id, high_water) == Some(seed_view(s)),
            None => decoded_seed(events@, event_id, high_water) is None,
        },
{
    let i = match find_event(events, event_id) {
        None => {
            return None;
        },
        Some(i) => i,
    };
    let event = &events[i];
    if i as u64 >= high_water || event.event_kind != EventKind::ObservationRecorded {
        return None;
    }
    match &event.payload {
        Payload::Observation(o) => {
            if blank(o.content.as_str()) {
                return None;
            }
            match event.subject {
                Some(subject) => {
                    if !(subject.kind == EntityKind::Observation && subject.id == o.id) {
                        return None;
                    }
                },
                None => {
                    return None;
                },
            }
            Some(SleepSeed { event_id, sequence: i as u64 + 1, observation: clone_observation(o) })
        },
        _ => None,
    }
}

fn decode_all(events: &[ExperienceEvent], ids: &Vec<EventId>, high_water: u64) -> (r: Vec<SleepSeed>)
    ensures
        r@.map_values(|s: SleepSeed| seed_view(s)) == decoded_seeds(
            events@,
            ids@,
            high_water,
            ids@.len() as int,
        ),
        r@.len() <= ids@.len(),
{
    let mut seeds: Vec<SleepSeed> = Vec::new();
    let mut k: usize = 0;
    while k < ids.len()
        invariant
            k <= ids@.len(),
            seeds@.len() <= k,
            seeds@.map_values(|s: SleepSeed| seed_view(s)) == decoded_seeds(
                events@,
                ids@,
                high_water,
                k as int,
            ),
        decreases ids@.len() - k,
    {
        match decode_seed(events, ids[k], high_water) {
            Some(seed) => {
                seeds.push(seed);
            },
            None => {},
        }
        proof {
            assert(seeds@.map_values(|s: SleepSeed| seed_view(s)) =~= decoded_seeds(
                events@,
                ids@,
                high_water,
                k + 1,
            ));
        }
        k = k + 1;
    }
    seeds
}

/// Whether `w` is the window of observations after `cursor` up to
/// `high_water`: at most `MAX_SLEEP_SEEDS` of them, oldest first, the
/// cursor moving to the last one read.
pub open spec fn window_matches(
    events: Seq<ExperienceEvent>,
    cursor: u64,
    high_water: u64,
    w: SeedWindow,
) -> bool {
    let all = window_events(events, cursor, high_water, events.len() as int);
    let taken = if all.len() <= MAX_SLEEP_SEEDS {
        all
    } else {
        all.take(MAX_SLEEP_SEEDS as int)
    };
    &&& w.event_ids@ == taken.map_values(|p: (EventId, u64)| p.0)
    &&& w.cursor_after == if taken.len() == 0 {
        None
    } else {
        Some(taken.last().1)
    }
    &&& w.seeds@.map_values(|s: SleepSeed| seed_view(s)) == decoded_seeds(
        events,
        w.event_ids@,
        high_water,
        w.event_ids@.len() as int,
    )
    &&& w.invalid_count == w.event_ids@.len() - w.seeds@.len()
}

/// The window of observations a new sleep pass reads.
pub fn seed_window(events: &[ExperienceEvent], cursor: u64, high_water: u64) -> (r: SeedWindow)
    ensures
        window_matches(events@, cursor, high_water, r),
{
    let ghost all = window_events(events@, cursor, high_water, events@.len() as int);
    let mut ids: Vec<EventId> = Vec::new();
    let mut cursor_after: Option<u64> = None;
    let mut i: usize = 0;
    let ghost mut seen: Seq<(EventId, u64)> = Seq::empty();
    while i < events.len()
        invariant
            i <= events@.len(),
            seen == window_events(events@, cursor, high_water, i as int),
            seen.len() < MAX_SLEEP_SEEDS,
            ids@ == seen.map_values(|p: (EventId, u64)| p.0),
            cursor_after == if seen.len() == 0 {
                None::<u64>
            } else {
                Some(seen.last().1)
            },
            all == window_events(events@, cursor, high_water, events@.len() as int),
        decreases events@.len() - i,
    {
        let sequence = i as u64 + 1;
        if sequence > cursor && sequence <= high_water && events[i].event_kind
            == EventKind::ObservationRecorded {
            ids.push(events[i].event_id);
            cursor_after = Some(sequence);
            proof {
                seen = seen.push((events@[i as int].event_id, sequence));
                assert(ids@ =~= seen.map_values(|p: (EventId, u64)| p.0));
            }
            if ids.len() == MAX_SLEEP_SEEDS {
                proof {
                    assert(seen == window_events(events@, cursor, high_water, i + 1));
                    lemma_window_prefix(events@, cursor, high_water, i + 1, events@.len() as int);
                    assert(all.take(MAX_SLEEP_SEEDS as int) =~= seen);
                    if all.len() == MAX_SLEEP_SEEDS {
                        assert(all =~= all.take(MAX_SLEEP_SEEDS as int));
                    }
                }
                let seeds = decode_all(events, &ids, high_water);
                let invalid_count = ids.len() - seeds.len();
                return SeedWindow { event_ids: ids, seeds, cursor_after, invalid_count };
            }
        }
        i = i + 1;
    }
    let seeds = decode_all(events, &ids, high_water);
    let invalid_count = ids.len() - seeds.len();
    SeedWindow { event_ids: ids, seeds, cursor_after, invalid_count }
}

/// The window of a longer prefix of the ledger extends the window of a
/// shorter one.
proof fn lemma_window_prefix(
    events: Seq<ExperienceEvent>,
    cursor: u64,
    high_water: u64,
    n: int,
    m: int,
)
    requires
        0 <= n <= m <= events.len(),
    ensures
        window_events(events, cursor, high_water, m).len() >= window_events(
            events,
            cursor,
            high_water,
            n,
        ).len(),
        window_events(events, cursor, high_water, m).take(
            window_events(events, cursor, high_water, n).len() as int,
        ) == window_events(events, cursor, high_water, n),
    decreases m - n,
{
    if m > n {
        lemma_window_prefix(events, cursor, high_water, n, m - 1);
        let a = window_events(events, cursor, high_water, m - 1);
        let b = window_events(events, cursor, high_water, m);
        let c = window_events(events, cursor, high_water, n);
        assert(b.take(c.len() as int) =~= a.take(c.len() as int));
    } else {
        let c = window_events(events, cursor, high_water, n);
        assert(c.take(c.len() as int) =~= c);
    }
}


/// The highest sequence at which one of the identifiers first occurs, among
/// the first `k`.
pub open spec fn max_seed_sequence(events: Seq<ExperienceEvent>, ids: Seq<EventId>, k: int) -> Option<u64>
    decreases k,
{
    if k <= 0 || k > ids.len() {
        None
    } else {
        let previous = max_seed_sequence(events, ids, k - 1);
        match first_event_at(events, ids[k - 1], 0) {
            None => previous,
            Some(i) => match previous {
                Some(s) => if s >= (i + 1) as u64 {
                    previous
                } else {
                    Some((i + 1) as u64)
                },
                None => Some((i + 1) as u64),
            },
        }
    }
}

/// The window of a run already started: its seeds, re-read from the
/// ledger, and the cursor after the latest of them found.
pub fn seed_window_from_run(events: &[ExperienceEvent], run: &SleepRun) -> (r: SeedWindow)
    ensures
        r.event_ids@ == run.seed_event_ids@,
        r.cursor_after == max_seed_sequence(
            events@,
            run.seed_event_ids@,
            run.seed_event_ids@.len() as int,
        ),
        r.seeds@.map_values(|s: SleepSeed| seed_view(s)) == decoded_seeds(
            events@,
            run.seed_event_ids@,
            run.high_water_revision,
            run.seed_event_ids@.len() as int,
        ),
        r.invalid_count == run.seed_event_ids@.len() - r.seeds@.len(),
{
    let mut cursor_after: Option<u64> = None;
    let total = events.len();
    let mut k: usize = 0;
    while k < run.seed_event_ids.len()
        invariant
            k <= run.seed_event_ids@.len(),
            events@.len() <= usize::MAX,
            cursor_after == max_seed_sequence(events@, run.seed_event_ids@, k as int),
        decreases run.seed_event_ids@.len() - k,
    {
        match find_event(events, run.seed_event_ids[k]) {
            None => {},
            Some(i) => {
                let s = i as u64 + 1;
                cursor_after = match cursor_after {
                    Some(c) => if c >= s {
                        Some(c)
                    } else {
                        Some(s)
                    },
                    None => Some(s),
                };
            },
        }
        k = k + 1;
    }
    let seeds = decode_all(events, &run.seed_event_ids, run.high_water_revision);
    let invalid_count = run.seed_event_ids.len() - seeds.len();
    SeedWindow { event_ids: clone_ids(&run.seed_event_ids), seeds, cursor_after, invalid_count }
}

/// The report of a pass that ended on a run.
pub fn result_from_run(run: &SleepRun, status: SleepOnceStatus, resumed: bool) -> (r: SleepOnceResult)
    ensures
        r.status == status,
        r.run_id == Some(run.id),
        r.high_water_revision == Some(run.high_water_revision),
        r.cursor_before == Some(run.cursor_before),
        r.cursor_after == run.cursor_after,
        r.processed_observations == run.processed_observation_count,
        r.created_candidates == run.created_candidate_count,
        r.resumed == resumed,
        r.error_kind == run.error_kind,
{
    SleepOnceResult {
        status,
        run_id: Some(run.id),
        high_water_revision: Some(run.high_water_revision),
        cursor_before: Some(run.cursor_before),
        cursor_after: run.cursor_after,
        processed_observations: run.processed_observation_count,
        created_candidates: run.created_candidate_count,
        resumed,
        error_kind: clone_opt_string(&run.error_kind),
    }
}

/// The report of a pass that ended without a run.
pub fn empty_result(status: SleepOnceStatus) -> (r: SleepOnceResult)
    ensures
        r.status == status,
        r.run_id is None,
        r.high_water_revision is None,
        r.cursor_before is None,
        r.cursor_after is None,
        r.processed_observations == 0,
        r.created_candidates == 0,
        !r.resumed,
        r.error_kind is None,
{
    SleepOnceResult {
        status,
        run_id: None,
        high_water_revision: None,
        cursor_before: None,
        cursor_after: None,
        processed_observations: 0,
        created_candidates: 0,
        resumed: false,
        error_kind: None,
    }
}

/// Why a sleep pass could not go on.
pub enum SleepRuntimeError {
    Invalid(String),
}

/// How a sleep pass begins.
pub enum SleepStart {
    /// Foreground work holds the ledger.
    Deferred,
    /// A run is already under way; it is resumed.
    Resume(SleepRunId),
    /// No new observation to read.
    Idle,
    /// A new run to record as started.
    Start(SleepRun),
}

/// The first running sleep run among the first `n`.
pub open spec fn first_running(runs: Seq<SleepRun>, n: int) -> Option<SleepRunId>
    decreases n,
{
    if n <= 0 || n > runs.len() {
        None
    } else {
        match first_running(runs, n - 1) {
            Some(id) => Some(id),
            None => if runs[n - 1].status == SleepRunStatus::Running {
                Some(runs[n - 1].id)
            } else {
                None
            },
        }
    }
}

/// Whether `run` is the run a pass starts as of the state: running, at the
/// current revision and cursor, over the window's observations, counting
/// the observations decoded and noting skipped damaged payloads.
pub open spec fn starting_run(
    state: &CurrentState,
    events: Seq<ExperienceEvent>,
    run_id: SleepRunId,
    now: Seq<char>,
    run: SleepRun,
) -> bool {
    exists|w: SeedWindow|
        #[trigger] window_matches(events, state.sleep_cursor, state.revision, w) && w.seeds@.len()
            > 0 && run.id == run_id && run.status == SleepRunStatus::Running
            && run.high_water_revision == state.revision && run.cursor_before == state.sleep_cursor
            && run.cursor_after is None && run.seed_event_ids@ == w.event_ids@
            && run.processed_observation_count == w.seeds@.len() && run.created_candidate_count
            == 0 && run.started_at@ == now && run.finished_at is None && (if w.invalid_count > 0 {
            run.error_kind is Some && run.error_kind->0@ == "skipped_corrupt_observation_payload"@
        } else {
            run.error_kind is None
        })
}

/// How a sleep pass begins over the state and its ledger: deferred while
/// foreground work holds the ledger, resuming a running run, idle when no
/// new observation decodes, else starting a new run `run_id` at `now`.
pub fn plan_sleep_start(
    state: &CurrentState,
    events: &[ExperienceEvent],
    run_id: SleepRunId,
    now: &str,
) -> (r: SleepStart)
    ensures
        spec_foreground_blocked(state) ==> r is Deferred,
        !spec_foreground_blocked(state) && first_running(
            state.sleep_runs@,
            state.sleep_runs@.len() as int,
        ) is Some ==> r == SleepStart::Resume(
            first_running(state.sleep_runs@, state.sleep_runs@.len() as int)->0,
        ),
        !spec_foreground_blocked(state) && first_running(
            state.sleep_runs@,
            state.sleep_runs@.len() as int,
        ) is None ==> match r {
            SleepStart::Idle => forall|w: SeedWindow|
                #[trigger] window_matches(events@, state.sleep_cursor, state.revision, w)
                    ==> w.seeds@.len() == 0,
            SleepStart::Start(run) => starting_run(state, events@, run_id, now@, run),
            _ => false,
        },
{
    if foreground_blocked(state) {
        return SleepStart::Deferred;
    }
    let mut i: usize = 0;
    while i < state.sleep_runs.len()
        invariant
            i <= state.sleep_runs@.len(),
            !spec_foreground_blocked(state),
            first_running(state.sleep_runs@, i as int) is None,
        decreases state.sleep_runs@.len() - i,
    {
        if state.sleep_runs[i].status == SleepRunStatus::Running {
            proof {
                lemma_first_running_stays(state.sleep_runs@, i + 1, state.sleep_runs@.len() as int);
            }
            return SleepStart::Resume(state.sleep_runs[i].id);
        }
        i = i + 1;
    }
    let window = seed_window(events, state.sleep_cursor, state.revision);
    if window.seeds.len() == 0 {
        proof {
            assert forall|w: SeedWindow|
                #[trigger] window_matches(events@, state.sleep_cursor, state.revision, w) implies w.seeds@.len()
                    == 0 by {
                lemma_window_seeds_len(events@, state.sleep_cursor, state.revision, w, window);
            }
        }
        return SleepStart::Idle;
    }
    let error_kind = if window.invalid_count > 0 {
        Some("skipped_corrupt_observation_payload".to_owned())
    } else {
        None
    };
    let processed = window.seeds.len() as u32;
    let ghost w = window;
    let run = SleepRun {
        id: run_id,
        status: SleepRunStatus::Running,
        high_water_revision: state.revision,
        cursor_before: state.sleep_cursor,
        cursor_after: None,
        seed_event_ids: window.event_ids,
        processed_observation_count: processed,
        created_candidate_count: 0,
        started_at: now.to_owned(),
        finished_at: None,
        error_kind,
    };
    proof {
        assert(window_matches(events@, state.sleep_cursor, state.revision, w));
    }
    SleepStart::Start(run)
}

/// Two windows of the same ledger, cursor and high water decode the same
/// number of seeds.
proof fn lemma_window_seeds_len(
    events: Seq<ExperienceEvent>,
    cursor: u64,
    high_water: u64,
    a: SeedWindow,
    b: SeedWindow,
)
    requires
        window_matches(events, cursor, high_water, a),
        window_matches(events, cursor, high_water, b),
    ensures
        a.seeds@.len() == b.seeds@.len(),
{
    assert(a.event_ids@ =~= b.event_ids@);
    assert(a.seeds@.map_values(|s: SleepSeed| seed_view(s)).len() == a.seeds@.len());
    assert(b.seeds@.map_values(|s: SleepSeed| seed_view(s)).len() == b.seeds@.len());
}

proof fn lemma_first_running_stays(runs: Seq<SleepRun>, n: int, m: int)
    requires
        0 < n <= m <= runs.len(),
        first_running(runs, n) is Some,
    ensures
        first_running(runs, m) == first_running(runs, n),
    decreases m - n,
{
    if m > n {
        lemma_first_running_stays(runs, n, m - 1);
    }
}

/// What a pass does when recording its start lost a race with another
/// writer: defer if foreground work now holds the ledger, else fail.
pub fn after_start_race(latest: &CurrentState) -> (r: Result<SleepOnceResult, SleepRuntimeError>)
    ensures
        spec_foreground_blocked(latest) ==> (r matches Ok(result) && result.status
            == SleepOnceStatus::Deferred && result.run_id is None),
        !spec_foreground_blocked(latest) ==> (r matches Err(SleepRuntimeError::Invalid(m)) && m@
            == "sleep start lost a concurrent state race"@),
{
    if foreground_blocked(latest) {
        Ok(empty_result(SleepOnceStatus::Deferred))
    } else {
        Err(SleepRuntimeError::Invalid("sleep start lost a concurrent state race".to_owned()))
    }
}

/// What a started run does next: fail when no seed decodes or no model is
/// available, else deliberate over its window.
pub enum SleepPrep {
    Fail(String),
    Proceed(SeedWindow),
}

/// What a started run does next, over the ledger it reads its seeds from.
pub fn prepare_run(events: &[ExperienceEvent], run: &SleepRun, model_available: bool) -> (r: SleepPrep)
    ensures
        decoded_seeds(
            events@,
            run.seed_event_ids@,
            run.high_water_revision,
            run.seed_event_ids@.len() as int,
        ).len() == 0 ==> (r matches SleepPrep::Fail(kind) && kind@
            == "corrupt_observation_payload"@),
        decoded_seeds(
            events@,
            run.seed_event_ids@,
            run.high_water_revision,
            run.seed_event_ids@.len() as int,
        ).len() > 0 && !model_available ==> (r matches SleepPrep::Fail(kind) && kind@
            == "sleep_model_unavailable"@),
        decoded_seeds(
            events@,
            run.seed_event_ids@,
            run.high_water_revision,
            run.seed_event_ids@.len() as int,
        ).len() > 0 && model_available ==> (r matches SleepPrep::Proceed(w) && w.seeds@.map_values(
            |s: SleepSeed| seed_view(s),
        ) == decoded_seeds(
            events@,
            run.seed_event_ids@,
            run.high_water_revision,
            run.seed_event_ids@.len() as int,
        ) && w.cursor_after == max_seed_sequence(
            events@,
            run.seed_event_ids@,
            run.seed_event_ids@.len() as int,
        ) && w.event_ids@ == run.seed_event_ids@),
{
    let window = seed_window_from_run(events, run);
    if window.seeds.len() == 0 {
        return SleepPrep::Fail("corrupt_observation_payload".to_owned());
    }
    if !model_available {
        return SleepPrep::Fail("sleep_model_unavailable".to_owned());
    }
    SleepPrep::Proceed(window)
}

/// Whether a pass must give way: the ledger moved since the pass read it,
/// or foreground work now holds it.
pub fn interrupted_by(latest: &CurrentState, read_revision: u64) -> (r: bool)
    ensures
        r == (latest.revision != read_revision || spec_foreground_blocked(latest)),
{
    latest.revision != read_revision || foreground_blocked(latest)
}

/// Whether `b` is `a` ended with this status, finish time, error and cursor,
/// all else kept.
pub open spec fn ended(
    a: SleepRun,
    b: SleepRun,
    status: SleepRunStatus,
    finished_at: Seq<char>,
    error_kind: Option<Seq<char>>,
    cursor_after: Option<u64>,
    created: u32,
) -> bool {
    &&& b.id == a.id
    &&& b.status == status
    &&& b.high_water_revision == a.high_water_revision
    &&& b.cursor_before == a.cursor_before
    &&& b.cursor_after == cursor_after
    &&& b.seed_event_ids@ == a.seed_event_ids@
    &&& b.processed_observation_count == a.processed_observation_count
    &&& b.created_candidate_count == created
    &&& b.started_at@ == a.started_at@
    &&& b.finished_at is Some && b.finished_at->0@ == finished_at
    &&& match error_kind {
        Some(e) => b.error_kind is Some && b.error_kind->0@ == e,
        None => b.error_kind is None,
    }
}

fn end_run(
    run: &SleepRun,
    status: SleepRunStatus,
    finished_at: &str,
    error_kind: Option<String>,
    cursor_after: Option<u64>,
    created: u32,
) -> (r: SleepRun)
    ensures
        ended(
            *run,
            r,
            status,
            finished_at@,
            match error_kind {
                Some(e) => Some(e@),
                None => None,
            },
            cursor_after,
            created,
        ),
{
    SleepRun {
        id: run.id,
        status,
        high_water_revision: run.high_water_revision,
        cursor_before: run.cursor_before,
        cursor_after,
        seed_event_ids: clone_ids(&run.seed_event_ids),
        processed_observation_count: run.processed_observation_count,
        created_candidate_count: created,
        started_at: run.started_at.clone(),
        finished_at: Some(finished_at.to_owned()),
        error_kind,
    }
}

/// The run failed with `error_kind` at `finished_at`, with no cursor.
pub fn failed_run(run: &SleepRun, error_kind: &str, finished_at: &str) -> (r: SleepRun)
    ensures
        ended(
            *run,
            r,
            SleepRunStatus::Failed,
            finished_at@,
            Some(error_kind@),
            None,
            run.created_candidate_count,
        ),
{
    end_run(
        run,
        SleepRunStatus::Failed,
        finished_at,
        Some(error_kind.to_owned()),
        None,
        run.created_candidate_count,
    )
}

/// The run interrupted by foreground activity at `finished_at`, with no
/// cursor.
pub fn interrupted_run(run: &SleepRun, finished_at: &str) -> (r: SleepRun)
    ensures
        ended(
            *run,
            r,
            SleepRunStatus::Interrupted,
            finished_at@,
            Some("foreground_activity"@),
            None,
            run.created_candidate_count,
        ),
{
    end_run(
        run,
        SleepRunStatus::Interrupted,
        finished_at,
        Some("foreground_activity".to_owned()),
        None,
        run.created_candidate_count,
    )
}

/// The run completed at `finished_at` with the cursor after its window and
/// the candidates it created, keeping its error kind.
pub fn completed_run(run: &SleepRun, cursor_after: u64, created: u32, finished_at: &str) -> (r: SleepRun)
    ensures
        ended(
            *run,
            r,
            SleepRunStatus::Completed,
            finished_at@,
            match run.error_kind {
                Some(e) => Some(e@),
                None => None,
            },
            Some(cursor_after),
            created,
        ),
{
    end_run(
        run,
        SleepRunStatus::Completed,
        finished_at,
        clone_opt_string(&run.error_kind),
        Some(cursor_after),
        created,
    )
}

/// Runs sleep passes for HEKATE and its user.
pub struct SleepCoordinator {
    pub hekate_id: PrincipalId,
    pub user_id: PrincipalId,
}

impl SleepCoordinator {
    pub fn new(hekate_id: PrincipalId, user_id: PrincipalId) -> (r: SleepCoordinator)
        ensures
            r.hekate_id == hekate_id,
            r.user_id == user_id,
    {
        SleepCoordinator { hekate_id, user_id }
    }
}

/// A sleep run as the status reports it.
pub struct SleepRunSummary {
    pub id: SleepRunId,
    pub status: SleepRunStatus,
    pub high_water_revision: u64,
    pub cursor_before: u64,
    pub cursor_after: Option<u64>,
    pub processed_observations: u32,
    pub created_candidates: u32,
    pub started_at: String,
    pub finished_at: Option<String>,
    pub error_kind: Option<String>,
}

/// Whether the summary reports the run.
pub open spec fn summarizes(s: SleepRunSummary, run: SleepRun) -> bool {
    &&& s.id == run.id
    &&& s.status == run.status
    &&& s.high_water_revision == run.high_water_revision
    &&& s.cursor_before == run.cursor_before
    &&& s.cursor_after == run.cursor_after
    &&& s.processed_observations == run.processed_observation_count
    &&& s.created_candidates == run.created_candidate_count
    &&& s.started_at == run.started_at
    &&& s.finished_at == run.finished_at
    &&& s.error_kind == run.error_kind
}

/// The summary of a run.
pub fn summary(run: &SleepRun) -> (r: SleepRunSummary)
    ensures
        summarizes(r, *run),
{
    SleepRunSummary {
        id: run.id,
        status: run.status,
        high_water_revision: run.high_water_revision,
        cursor_before: run.cursor_before,
        cursor_after: run.cursor_after,
        processed_observations: run.processed_observation_count,
        created_candidates: run.created_candidate_count,
        started_at: run.started_at.clone(),
        finished_at: clone_opt_string(&run.finished_at),
        error_kind: clone_opt_string(&run.error_kind),
    }
}


/// The summary of a run, as a value.
pub open spec fn summary_of(run: SleepRun) -> SleepRunSummary {
    SleepRunSummary {
        id: run.id,
        status: run.status,
        high_water_revision: run.high_water_revision,
        cursor_before: run.cursor_before,
        cursor_after: run.cursor_after,
        processed_observations: run.processed_observation_count,
        created_candidates: run.created_candidate_count,
        started_at: run.started_at,
        finished_at: run.finished_at,
        error_kind: run.error_kind,
    }
}

/// The most runs the status lists.
pub const RECENT_SLEEP_RUNS: usize = 5;

/// `sorted` with `x` inserted after every summary that did not start
/// earlier than it: later starts first, equal starts in arrival order.
pub open spec fn later_first(sorted: Seq<SleepRunSummary>, x: SleepRunSummary) -> Seq<
    SleepRunSummary,
>
    decreases sorted.len(),
{
    if sorted.len() == 0 {
        seq![x]
    } else if text_less(sorted.last().started_at@, x.started_at@) {
        later_first(sorted.drop_last(), x).push(sorted.last())
    } else {
        sorted.push(x)
    }
}

/// The summaries of the runs, latest start first; runs that started at the
/// same time keep their table order.
pub open spec fn by_latest_start(runs: Seq<SleepRun>) -> Seq<SleepRunSummary>
    decreases runs.len(),
{
    if runs.len() == 0 {
        Seq::empty()
    } else {
        later_first(by_latest_start(runs.drop_last()), summary_of(runs.last()))
    }
}

/// The first running run of the table, if any.
pub open spec fn first_running_run(runs: Seq<SleepRun>, from: int) -> Option<SleepRun>
    decreases runs.len() - from,
{
    if from < 0 || from >= runs.len() {
        None
    } else if runs[from].status == SleepRunStatus::Running {
        Some(runs[from])
    } else {
        first_running_run(runs, from + 1)
    }
}

/// What sleep has done and holds: the cursor, the running run, the latest
/// runs, the candidates recorded, and whether the stored projection
/// matches its ledger.
pub struct SleepStatus {
    pub cursor: u64,
    pub active_run: Option<SleepRunSummary>,
    pub recent_runs: Vec<SleepRunSummary>,
    pub pending_candidates: usize,
    pub projection_verified: bool,
}

fn insert_later_first(sorted: Vec<SleepRunSummary>, x: SleepRunSummary) -> (r: Vec<SleepRunSummary>)
    ensures
        r@ == later_first(sorted@, x),
    decreases sorted@.len(),
{
    let mut sorted = sorted;
    if sorted.len() == 0 {
        let mut one: Vec<SleepRunSummary> = Vec::new();
        one.push(x);
        proof {
            assert(one@ =~= seq![x]);
        }
        return one;
    }
    let n = sorted.len();
    let earlier = text_lt(
        &chars_of(sorted[n - 1].started_at.as_str()),
        &chars_of(x.started_at.as_str()),
    );
    if earlier {
        let ghost before = sorted@;
        let last = sorted.pop().unwrap();
        proof {
            assert(sorted@ =~= before.drop_last());
        }
        let mut r = insert_later_first(sorted, x);
        r.push(last);
        r
    } else {
        sorted.push(x);
        sorted
    }
}

fn summaries_by_latest_start(runs: &Vec<SleepRun>) -> (r: Vec<SleepRunSummary>)
    ensures
        r@ == by_latest_start(runs@),
{
    let mut out: Vec<SleepRunSummary> = Vec::new();
    let mut i: usize = 0;
    while i < runs.len()
        invariant
            i <= runs@.len(),
            out@ == by_latest_start(runs@.subrange(0, i as int)),
        decreases runs@.len() - i,
    {
        proof {
            assert(runs@.subrange(0, i + 1).drop_last() =~= runs@.subrange(0, i as int));
        }
        let s = summary(&runs[i]);
        out = insert_later_first(out, s);
        i = i + 1;
    }
    proof {
        assert(runs@.subrange(0, runs@.len() as int) =~= runs@);
    }
    out
}

fn running_summary(runs: &Vec<SleepRun>) -> (r: Option<SleepRunSummary>)
    ensures
        r == match first_running_run(runs@, 0) {
            Some(run) => Some(summary_of(run)),
            None => None::<SleepRunSummary>,
        },
{
    let mut i: usize = 0;
    while i < runs.len()
        invariant
            i <= runs@.len(),
            first_running_run(runs@, 0) == first_running_run(runs@, i as int),
        decreases runs@.len() - i,
    {
        if runs[i].status == SleepRunStatus::Running {
            return Some(summary(&runs[i]));
        }
        i = i + 1;
    }
    None
}

/// The sleep status of the stored projection `state`, whose ledger is
/// `events`: the cursor; the first running run; the five latest runs by
/// start, latest first; the number of integration candidates recorded (a
/// candidate is recorded pending and the projection never changes that);
/// and whether recovery verifies the projection against the ledger.
pub fn sleep_status(state: &CurrentState, events: Vec<ExperienceEvent>) -> (r: SleepStatus)
    requires
        events@.len() < u64::MAX,
    ensures
        r.cursor == state.sleep_cursor,
        r.active_run == match first_running_run(state.sleep_runs@, 0) {
            Some(run) => Some(summary_of(run)),
            None => None::<SleepRunSummary>,
        },
        r.recent_runs@ == by_latest_start(state.sleep_runs@).take(
            if state.sleep_runs@.len() < RECENT_SLEEP_RUNS { state.sleep_runs@.len() as int } else { RECENT_SLEEP_RUNS as int },
        ),
        r.pending_candidates == state.integration_candidates@.len(),
        r.projection_verified ==> exists|s: CurrentState|
            replays(events@, s) && #[trigger] same_state(state, &s),
        !r.projection_verified ==> (exists|e: ProjectionError| #[trigger]
            replay_refused(events@, e)) || exists|s: CurrentState|
            replays(events@, s) && !#[trigger] same_state(state, &s),
{
    let ghost ledger = events@;
    let outcome = recover(state, events);
    proof {
        match outcome {
            Err(RecoveryError::RevisionMismatch { stored: _, ledger: at }) => {
                let s = choose|s: CurrentState| replays(ledger, s) && #[trigger] s.revision == at;
                assert(!same_state(state, &s));
            },
            _ => {},
        }
    }
    let verified = match outcome {
        Ok(_) => true,
        Err(_) => false,
    };
    let mut recent = summaries_by_latest_start(&state.sleep_runs);
    proof {
        lemma_by_latest_start_len(state.sleep_runs@);
    }
    recent.truncate(RECENT_SLEEP_RUNS);
    SleepStatus {
        cursor: state.sleep_cursor,
        active_run: running_summary(&state.sleep_runs),
        recent_runs: recent,
        pending_candidates: state.integration_candidates.len(),
        projection_verified: verified,
    }
}

proof fn lemma_later_first_len(sorted: Seq<SleepRunSummary>, x: SleepRunSummary)
    ensures
        later_first(sorted, x).len() == sorted.len() + 1,
    decreases sorted.len(),
{
    if sorted.len() > 0 && text_less(sorted.last().started_at@, x.started_at@) {
        lemma_later_first_len(sorted.drop_last(), x);
    }
}

proof fn lemma_by_latest_start_len(runs: Seq<SleepRun>)
    ensures
        by_latest_start(runs).len() == runs.len(),
    decreases runs.len(),
{
    if runs.len() > 0 {
        lemma_by_latest_start_len(runs.drop_last());
        lemma_later_first_len(by_latest_start(runs.drop_last()), summary_of(runs.last()));
    }
}

} // verus!
