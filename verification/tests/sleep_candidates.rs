use hekate::integration::candidate_fingerprint;
use hekate::model::{IntegrationCandidateKind, VerificationDisposition};
use hekate::sleep_candidates::{
    sorted_ids, validate_deliberation, CandidateDraft, SelfReview, SleepDeliberation, SleepLimits,
};
use hekate::state::CurrentState;

const LIMITS: SleepLimits = SleepLimits { max_candidates: 4, max_text_bytes: 40 };

fn draft(content: &str, sources: Vec<u128>, counters: Vec<u128>) -> CandidateDraft {
    CandidateDraft {
        kind: IntegrationCandidateKind::Memory,
        content: content.to_string(),
        rationale: " said twice ".to_string(),
        source_event_ids: sources,
        counterevidence_event_ids: counters,
        confidence: 60,
    }
}

fn deliberation(candidates: Vec<CandidateDraft>) -> SleepDeliberation {
    SleepDeliberation {
        candidates,
        draft_summary: "summary".to_string(),
        self_review: SelfReview { weak_points: vec![], possible_counterevidence_event_ids: vec![] },
    }
}

fn refusal(d: &SleepDeliberation) -> String {
    match validate_deliberation(d, &vec![1, 2, 3], 0x50, 3, &CurrentState::empty(), &LIMITS) {
        Err(m) => m,
        Ok(_) => panic!("expected a refusal"),
    }
}

#[test]
fn provenance_is_sorted_without_repeats() {
    assert_eq!(sorted_ids(&vec![3, 1, 3, 2, 1]), vec![1, 2, 3]);
    assert!(sorted_ids(&vec![]).is_empty());
}

#[test]
fn drafts_become_candidates_once_per_fingerprint() {
    let d = deliberation(vec![
        draft("  Prefers tea ", vec![2, 1, 2], vec![3]),
        draft("Prefers tea", vec![1, 2], vec![3]),
        draft("Likes trains", vec![1], vec![]),
    ]);
    let out = validate_deliberation(&d, &vec![1, 2, 3], 0x50, 3, &CurrentState::empty(), &LIMITS)
        .ok()
        .expect("accepted");
    assert_eq!(out.len(), 2);
    assert_eq!(out[0].content, "Prefers tea");
    assert_eq!(out[0].rationale, "said twice");
    assert_eq!(out[0].source_event_ids, vec![1, 2]);
    assert_eq!(out[0].counterevidence_event_ids, vec![3]);
    assert_eq!(out[0].sleep_run_id, 0x50);
    assert_eq!(out[0].as_of_revision, 3);
    assert_eq!(out[0].disposition, VerificationDisposition::NeedsValidation);
    assert_eq!(
        out[0].fingerprint,
        candidate_fingerprint(IntegrationCandidateKind::Memory, "Prefers tea", &vec![1, 2], &vec![3])
    );
    assert_eq!(out[1].content, "Likes trains");
    assert_ne!(out[0].id, out[1].id);
}

#[test]
fn a_deliberation_over_its_bounds_is_refused() {
    let d = deliberation(vec![
        draft("a", vec![1], vec![]),
        draft("b", vec![1], vec![]),
        draft("c", vec![1], vec![]),
        draft("d", vec![1], vec![]),
        draft("e", vec![1], vec![]),
    ]);
    assert_eq!(refusal(&d), "sleep deliberation exceeds its bounds");
}

#[test]
fn self_review_must_stay_in_the_context() {
    let mut d = deliberation(vec![draft("a", vec![1], vec![])]);
    d.self_review.possible_counterevidence_event_ids = vec![9];
    assert_eq!(refusal(&d), "sleep self-review references an event outside the context");
}

#[test]
fn each_draft_refusal_has_its_message() {
    assert_eq!(refusal(&deliberation(vec![draft("   ", vec![1], vec![])])), "candidate content and rationale cannot be empty");
    assert_eq!(
        refusal(&deliberation(vec![draft("this content is far longer than forty bytes", vec![1], vec![])])),
        "candidate exceeds its bounds"
    );
    assert_eq!(refusal(&deliberation(vec![draft("a", vec![], vec![])])), "candidate needs at least one source event");
    assert_eq!(
        refusal(&deliberation(vec![draft("a", vec![1], vec![7])])),
        "candidate provenance references an event outside the context"
    );
    assert_eq!(refusal(&deliberation(vec![draft("a", vec![1, 2], vec![2])])), "candidate source and counterevidence overlap");
}

#[test]
fn a_later_bad_draft_refuses_the_whole_deliberation() {
    let d = deliberation(vec![draft("fine", vec![1], vec![]), draft("", vec![1], vec![])]);
    assert_eq!(refusal(&d), "candidate content and rationale cannot be empty");
}
