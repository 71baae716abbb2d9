//! Startup recovery: the stored projection is checked against the ledger
//! replayed from scratch, and the work left in flight is listed.
use vstd::prelude::*;

use crate::agree::{lemma_agreeing_projections_are_equal, same_state, same_values, states_agree};
use crate::format::{decimal, decimal_text};
use crate::model::{
    Approval, ApprovalId, ApprovalStatus, Attempt, AttemptId, AttemptStatus, Operation,
    OperationId, OperationStatus, Run, RunId, RunStatus,
};
use crate::projector::{projection_error_text, replay_refused, replays, ProjectionError, Projector};
use crate::state::{CurrentState, ExperienceEvent};

verus! {

/// What recovery found: the ledger's revision and the work still open.
pub struct RecoveryReport {
    pub revision: u64,
    pub active_runs: Vec<RunId>,
    pub pending_approvals: Vec<ApprovalId>,
    pub incomplete_attempts: Vec<AttemptId>,
    pub unknown_operations: Vec<OperationId>,
    pub projection_verified: bool,
}

/// Why recovery refused to start.
pub enum RecoveryError {
    /// The store could not be read.
    Storage(String),
    /// The ledger could not be replayed.
    Projection(ProjectionError),
    /// The stored projection is at another revision than the ledger.
    RevisionMismatch { stored: u64, ledger: u64 },
    /// The stored projection differs from the replayed ledger.
    ProjectionMismatch,
}

/// The message of a recovery failure.
pub open spec fn recovery_error_text(e: RecoveryError) -> Seq<char> {
    match e {
        RecoveryError::Storage(message) => message@,
        RecoveryError::Projection(p) => projection_error_text(p),
        RecoveryError::RevisionMismatch { stored, ledger } => "stored projection revision "@
            + decimal(stored as nat) + " does not match event ledger revision "@ + decimal(
            ledger as nat,
        ),
        RecoveryError::ProjectionMismatch => "stored projection does not match replayed event ledger"@,
    }
}

impl RecoveryError {
    /// The failure's message.
    pub fn message(&self) -> (r: String)
        ensures
            r@ == recovery_error_text(*self),
    {
        match self {
            RecoveryError::Storage(message) => message.clone(),
            RecoveryError::Projection(p) => p.message(),
            RecoveryError::RevisionMismatch { stored, ledger } => {
                let mut out = "stored projection revision ".to_owned();
                out.append(decimal_text(*stored).as_str());
                out.append(" does not match event ledger revision ");
                out.append(decimal_text(*ledger).as_str());
                out
            },
            RecoveryError::ProjectionMismatch => "stored projection does not match replayed event ledger".to_owned(),
        }
    }
}

/// A run that has not reached an end.
pub open spec fn run_open(status: RunStatus) -> bool {
    status == RunStatus::Pending || status == RunStatus::Running || status == RunStatus::Suspended
        || status == RunStatus::NeedsAttention
}

/// The identifiers of the open runs, in table order.
pub open spec fn open_runs(runs: Seq<Run>) -> Seq<RunId>
    decreases runs.len(),
{
    if runs.len() == 0 {
        Seq::empty()
    } else {
        let rest = open_runs(runs.drop_last());
        if run_open(runs.last().status) {
            rest.push(runs.last().id)
        } else {
            rest
        }
    }
}

/// The identifiers of the approvals still pending, in table order.
pub open spec fn pending_approvals(approvals: Seq<Approval>) -> Seq<ApprovalId>
    decreases approvals.len(),
{
    if approvals.len() == 0 {
        Seq::empty()
    } else {
        let rest = pending_approvals(approvals.drop_last());
        if approvals.last().status == ApprovalStatus::Pending {
            rest.push(approvals.last().id)
        } else {
            rest
        }
    }
}

/// The identifiers of the attempts started and not finished, in table order.
pub open spec fn started_attempts(attempts: Seq<Attempt>) -> Seq<AttemptId>
    decreases attempts.len(),
{
    if attempts.len() == 0 {
        Seq::empty()
    } else {
        let rest = started_attempts(attempts.drop_last());
        if attempts.last().status == AttemptStatus::Started {
            rest.push(attempts.last().id)
        } else {
            rest
        }
    }
}

/// The identifiers of the operations started with no known outcome, in
/// table order.
pub open spec fn started_operations(operations: Seq<Operation>) -> Seq<OperationId>
    decreases operations.len(),
{
    if operations.len() == 0 {
        Seq::empty()
    } else {
        let rest = started_operations(operations.drop_last());
        if operations.last().status == OperationStatus::Started {
            rest.push(operations.last().id)
        } else {
            rest
        }
    }
}

fn collect_open_runs(runs: &Vec<Run>) -> (r: Vec<RunId>)
    ensures
        r@ == open_runs(runs@),
{
    let mut out: Vec<RunId> = Vec::new();
    let mut i: usize = 0;
    while i < runs.len()
        invariant
            i <= runs@.len(),
            out@ == open_runs(runs@.subrange(0, i as int)),
        decreases runs@.len() - i,
    {
        proof {
            assert(runs@.subrange(0, i + 1).drop_last() =~= runs@.subrange(0, i as int));
        }
        let status = runs[i].status;
        if status == RunStatus::Pending || status == RunStatus::Running || status
            == RunStatus::Suspended || status == RunStatus::NeedsAttention {
            out.push(runs[i].id);
        }
        i = i + 1;
    }
    proof {
        assert(runs@.subrange(0, runs@.len() as int) =~= runs@);
    }
    out
}

fn collect_pending_approvals(approvals: &Vec<Approval>) -> (r: Vec<ApprovalId>)
    ensures
        r@ == pending_approvals(approvals@),
{
    let mut out: Vec<ApprovalId> = Vec::new();
    let mut i: usize = 0;
    while i < approvals.len()
        invariant
            i <= approvals@.len(),
            out@ == pending_approvals(approvals@.subrange(0, i as int)),
        decreases approvals@.len() - i,
    {
        proof {
            assert(approvals@.subrange(0, i + 1).drop_last() =~= approvals@.subrange(0, i as int));
        }
        if approvals[i].status == ApprovalStatus::Pending {
            out.push(approvals[i].id);
        }
        i = i + 1;
    }
    proof {
        assert(approvals@.subrange(0, approvals@.len() as int) =~= approvals@);
    }
    out
}

fn collect_started_attempts(attempts: &Vec<Attempt>) -> (r: Vec<AttemptId>)
    ensures
        r@ == started_attempts(attempts@),
{
    let mut out: Vec<AttemptId> = Vec::new();
    let mut i: usize = 0;
    while i < attempts.len()
        invariant
            i <= attempts@.len(),
            out@ == started_attempts(attempts@.subrange(0, i as int)),
        decreases attempts@.len() - i,
    {
        proof {
            assert(attempts@.subrange(0, i + 1).drop_last() =~= attempts@.subrange(0, i as int));
        }
        if attempts[i].status == AttemptStatus::Started {
            out.push(attempts[i].id);
        }
        i = i + 1;
    }
    proof {
        assert(attempts@.subrange(0, attempts@.len() as int) =~= attempts@);
    }
    out
}

fn collect_started_operations(operations: &Vec<Operation>) -> (r: Vec<OperationId>)
    ensures
        r@ == started_operations(operations@),
{
    let mut out: Vec<OperationId> = Vec::new();
    let mut i: usize = 0;
    while i < operations.len()
        invariant
            i <= operations@.len(),
            out@ == started_operations(operations@.subrange(0, i as int)),
        decreases operations@.len() - i,
    {
        proof {
            assert(operations@.subrange(0, i + 1).drop_last() =~= operations@.subrange(
                0,
                i as int,
            ));
        }
        if operations[i].status == OperationStatus::Started {
            out.push(operations[i].id);
        }
        i = i + 1;
    }
    proof {
        assert(operations@.subrange(0, operations@.len() as int) =~= operations@);
    }
    out
}

/// The report of a verified projection: its revision and the open runs,
/// pending approvals, unfinished attempts and operations of unknown
/// outcome it holds.
pub open spec fn reports(r: RecoveryReport, state: &CurrentState) -> bool {
    &&& r.revision == state.revision
    &&& r.active_runs@ == open_runs(state.runs@)
    &&& r.pending_approvals@ == pending_approvals(state.approvals@)
    &&& r.incomplete_attempts@ == started_attempts(state.attempts@)
    &&& r.unknown_operations@ == started_operations(state.operations@)
    &&& r.projection_verified
}

/// The report of a projection that has been checked against its ledger.
pub fn recovery_report(state: &CurrentState) -> (r: RecoveryReport)
    ensures
        reports(r, state),
{
    RecoveryReport {
        revision: state.revision,
        active_runs: collect_open_runs(&state.runs),
        pending_approvals: collect_pending_approvals(&state.approvals),
        incomplete_attempts: collect_started_attempts(&state.attempts),
        unknown_operations: collect_started_operations(&state.operations),
        projection_verified: true,
    }
}

/// Checks the stored projection against the ledger it was built from.
/// The ledger is replayed from the empty state; recovery is refused when
/// the replay is refused, when the replayed revision differs from the
/// stored one, or when any stored value differs from the replayed one.
/// Otherwise the report lists the work the stored projection holds open.
pub fn recover(stored: &CurrentState, events: Vec<ExperienceEvent>) -> (r: Result<
    RecoveryReport,
    RecoveryError,
>)
    requires
        events@.len() < u64::MAX,
    ensures
        match r {
            Ok(report) => reports(report, stored) && exists|s: CurrentState|
                replays(events@, s) && #[trigger] same_state(stored, &s) && same_values(stored, &s),
            Err(RecoveryError::Projection(e)) => replay_refused(events@, e),
            Err(RecoveryError::RevisionMismatch { stored: at, ledger }) => at == stored.revision
                && at != ledger && exists|s: CurrentState|
                replays(events@, s) && #[trigger] s.revision == ledger,
            Err(RecoveryError::ProjectionMismatch) => exists|s: CurrentState|
                replays(events@, s) && s.revision == stored.revision && !#[trigger] same_state(
                    stored,
                    &s,
                ),
            Err(RecoveryError::Storage(_)) => false,
        },
{
    let replayed = match Projector::replay(events) {
        Ok(s) => s,
        Err(e) => {
            return Err(RecoveryError::Projection(e));
        },
    };
    if replayed.revision != stored.revision {
        return Err(RecoveryError::RevisionMismatch {
            stored: stored.revision,
            ledger: replayed.revision,
        });
    }
    if !states_agree(stored, &replayed) {
        return Err(RecoveryError::ProjectionMismatch);
    }
    proof {
        lemma_agreeing_projections_are_equal(stored, &replayed);
    }
    Ok(recovery_report(stored))
}

} // verus!
