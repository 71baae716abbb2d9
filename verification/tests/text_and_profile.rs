use hekate::embedding::position_text;
use hekate::format::{decimal_text, sha256_hex_of_text};
use hekate::json::{find_field, JsonField};
use hekate::projector::ProjectionError;
use hekate::model::{Position, PositionStatus, Stance};
use hekate::response_profile::{
    parse_preference, resolve_response_profile, PreferenceValue, ProgressVisibility,
    ResponseFormatPreference, ResponseStepSize, ResponseVerbosity, TechnicalDepth,
};
use hekate::state::CurrentState;
use hekate::text::{blank, trimmed};

#[test]
fn uuids_print_hyphenated_and_lowercase() {
    assert_eq!(
        ProjectionError::Duplicate(0x600).message(),
        "event 00000000-0000-0000-0000-000000000600 has already been projected"
    );
    assert_eq!(
        ProjectionError::Duplicate(0xABCDEF0123456789_0011223344556677).message(),
        "event abcdef01-2345-6789-0011-223344556677 has already been projected"
    );
}

#[test]
fn decimals_print_without_padding() {
    assert_eq!(decimal_text(0), "0");
    assert_eq!(decimal_text(1234), "1234");
    assert_eq!(decimal_text(u64::MAX), "18446744073709551615");
}

#[test]
fn sha256_is_printed_as_lowercase_hex() {
    assert_eq!(
        sha256_hex_of_text("abc"),
        "ba7816bf8f01cfea414140de5dae2223b00361a396177a9cb410ff61f20015ad"
    );
}

#[test]
fn trimming_and_blank_text() {
    assert_eq!(trimmed("  tea \n"), "tea");
    assert!(blank(" \t\n"));
    assert!(!blank(" x "));
}

#[test]
fn fields_are_found_by_name() {
    let fields = vec![
        JsonField { name: "name".to_string(), text: Some("x".to_string()), flag: None, count: None },
        JsonField { name: "on".to_string(), text: None, flag: Some(true), count: None },
        JsonField { name: "name".to_string(), text: Some("later".to_string()), flag: None, count: None },
    ];
    assert_eq!(find_field(&fields, "name").and_then(|f| f.text.clone()), Some("x".to_string()));
    assert_eq!(find_field(&fields, "on").and_then(|f| f.flag), Some(true));
    assert!(find_field(&fields, "missing").is_none());
}

#[test]
fn preferences_are_read_from_their_schema() {
    match parse_preference(r#"{"schema":"hekate.response_preference.v1","key":"verbosity","value":"compact"}"#) {
        Some(PreferenceValue::Verbosity(ResponseVerbosity::Compact)) => {},
        _ => panic!("expected compact verbosity"),
    }
    match parse_preference(r#"{"schema":"hekate.response_preference.v1","key":"language","value":" ko-KR "}"#) {
        Some(PreferenceValue::Language(l)) => assert_eq!(l, "ko-KR"),
        _ => panic!("expected a language"),
    }
    match parse_preference(r#"{"schema":"hekate.response_preference.v1","key":"next_action_first","value":true}"#) {
        Some(PreferenceValue::NextActionFirst(true)) => {},
        _ => panic!("expected next action first"),
    }
    assert!(parse_preference(r#"{"schema":"hekate.response_preference.v1","key":"language","value":"ko--KR"}"#).is_none());
    assert!(parse_preference(r#"{"schema":"other","key":"verbosity","value":"compact"}"#).is_none());
    assert!(parse_preference(r#"{"schema":"hekate.response_preference.v1","key":"verbosity","value":"huge"}"#).is_none());
    assert!(parse_preference(r#"{"schema":"hekate.response_preference.v1","key":"verbosity","value":"compact","x":1}"#).is_none());
    assert!(parse_preference("I like short answers").is_none());
    assert!(parse_preference("[1, 2]").is_none());
}

#[test]
fn a_principal_without_preferences_gets_the_default_profile() {
    let state = CurrentState::empty();
    let profile = resolve_response_profile(&state, &[], 0x11, None, None, 0);
    assert!(profile.language.is_none());
    assert_eq!(profile.verbosity, ResponseVerbosity::Balanced);
    assert_eq!(profile.step_size, ResponseStepSize::Balanced);
    assert_eq!(profile.progress_visibility, ProgressVisibility::Normal);
    assert!(!profile.next_action_first);
    assert_eq!(profile.technical_depth, TechnicalDepth::Balanced);
    assert_eq!(profile.preferred_format, ResponseFormatPreference::Natural);
    assert!(profile.evidence.is_empty());
    assert_eq!(profile.as_of_revision, 0);
    assert_eq!(profile.profile_hash.len(), 64);
}

#[test]
fn position_text_lists_subject_stance_and_reasons() {
    let p = Position {
        id: 1,
        principal_id: 2,
        subject: "tea".to_string(),
        stance: Stance::Support,
        status: PositionStatus::Active,
        version: 1,
        supersedes: None,
        confidence: 50,
        evidence_refs: vec![],
        reasons: vec!["calm".to_string(), "warm".to_string()],
        reconsideration_conditions: vec![],
    };
    assert_eq!(position_text(&p), "subject: tea\nstance: support\nreasons:\n- calm\n- warm");
}
