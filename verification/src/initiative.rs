//! Initiative proposals: what HEKATE may bring up on its own, and the
//! decisions of the initiative service.
use vstd::prelude::*;

use crate::model::{EntityRef, EventId, PrincipalId};
use crate::state::{CurrentState, ExperienceEvent};

verus! {

#[derive(Clone, Copy, Debug, PartialEq, Eq, Structural)]
pub enum InitiativeStatus {
    Proposed,
    Ready,
    Dismissed,
}

/// A proposal HEKATE prepared for the user.
pub struct InitiativeProposal {
    pub id: u128,
    pub kind: String,
    pub content: String,
    pub rationale: String,
    pub source_entity: EntityRef,
    pub source_version: u64,
    pub source_event_ids: Vec<EventId>,
    pub target_principal_id: PrincipalId,
    pub as_of_revision: u64,
    pub fingerprint: String,
    pub status: InitiativeStatus,
    pub created_at: String,
}

/// A candidate for an initiative, as the agenda selects it.
pub struct AgendaCandidate {
    pub kind: String,
    pub content: String,
    pub rationale: String,
    pub source_entity: EntityRef,
    pub source_version: u64,
    pub source_event_ids: Vec<EventId>,
    pub target_principal_id: PrincipalId,
    pub as_of_revision: u64,
    pub fingerprint: String,
}

/// What one run of the initiative service did.
pub enum InitiativeRunResult {
    NoCandidate,
    Duplicate { fingerprint: String },
    Deferred,
    Proposed { proposal: InitiativeProposal },
    Dismissed { proposal: InitiativeProposal },
}

/// The service that turns agenda candidates into proposals for the user.
pub struct InitiativeService {
    pub hekate_id: PrincipalId,
    pub user_id: PrincipalId,
}

impl InitiativeService {
    /// A service acting as `hekate_id` towards `user_id`.
    pub fn new(hekate_id: PrincipalId, user_id: PrincipalId) -> (r: InitiativeService)
        ensures
            r.hekate_id == hekate_id,
            r.user_id == user_id,
    {
        InitiativeService { hekate_id, user_id }
    }
}

/// Selects initiative candidates from the projection and the ledger.
/// Candidate selection is not active: no candidate is selected.
pub fn select(
    state: &CurrentState,
    events: &[ExperienceEvent],
    hekate_id: PrincipalId,
    user_id: PrincipalId,
) -> (r: Vec<AgendaCandidate>)
    ensures
        r@.len() == 0,
{
    Vec::new()
}

/// Which candidate a run of the service takes up.
pub enum CandidatePick {
    /// No candidate was selected.
    NoCandidate,
    /// Every candidate was proposed before; the first one's fingerprint.
    Duplicate(String),
    /// The position of the first candidate not proposed before.
    Fresh(usize),
}

/// Whether the fingerprint belongs to an existing proposal.
pub open spec fn already_proposed(fingerprint: Seq<char>, existing: Seq<String>) -> bool {
    exists|i: int| 0 <= i < existing.len() && existing[i]@ == fingerprint
}

/// Takes up the first candidate not proposed before; if there is none,
/// reports the first candidate as a duplicate, or that there was none.
pub fn pick_candidate(candidates: &Vec<AgendaCandidate>, existing: &Vec<String>) -> (r:
    CandidatePick)
    ensures
        match r {
            CandidatePick::Fresh(i) => i < candidates@.len() && !already_proposed(
                candidates@[i as int].fingerprint@,
                existing@,
            ) && forall|j: int|
                0 <= j < i ==> already_proposed(
                    #[trigger] candidates@[j].fingerprint@,
                    existing@,
                ),
            CandidatePick::Duplicate(fingerprint) => candidates@.len() > 0 && fingerprint@
                == candidates@[0].fingerprint@ && forall|j: int|
                0 <= j < candidates@.len() ==> already_proposed(
                    #[trigger] candidates@[j].fingerprint@,
                    existing@,
                ),
            CandidatePick::NoCandidate => candidates@.len() == 0,
        },
{
    let mut i: usize = 0;
    while i < candidates.len()
        invariant
            i <= candidates@.len(),
            forall|j: int|
                0 <= j < i ==> already_proposed(#[trigger] candidates@[j].fingerprint@, existing@),
        decreases candidates@.len() - i,
    {
        let mut found = false;
        let mut k: usize = 0;
        while k < existing.len()
            invariant
                i < candidates@.len(),
                k <= existing@.len(),
                found == exists|m: int| 0 <= m < k && existing@[m]@ == candidates@[i as int].fingerprint@,
            decreases existing@.len() - k,
        {
            if existing[k] == candidates[i].fingerprint {
                found = true;
            }
            k = k + 1;
        }
        if !found {
            return CandidatePick::Fresh(i);
        }
        i = i + 1;
    }
    if candidates.len() > 0 {
        CandidatePick::Duplicate(candidates[0].fingerprint.clone())
    } else {
        CandidatePick::NoCandidate
    }
}

} // verus!
