use zerobeat::{
    BackendError, NativeState, check_result, check_spectrum_shape, is_http_source,
    native_state_from_code, non_negative, prepare_headers, telemetry_from,
};

#[test]
fn native_codes_map_to_states() {
    assert_eq!(native_state_from_code(0), NativeState::Idle);
    assert_eq!(native_state_from_code(4), NativeState::Playing);
    assert_eq!(native_state_from_code(6), NativeState::Ended);
    assert_eq!(native_state_from_code(7), NativeState::Error);
    assert_eq!(native_state_from_code(8), NativeState::Released);
    assert_eq!(native_state_from_code(-1), NativeState::Error);
    assert_eq!(non_negative(-5), 0);
    assert_eq!(non_negative(5), 5);
}

#[test]
fn native_failures_carry_the_engine_message() {
    assert!(check_result(0, None).is_ok());
    assert!(matches!(check_result(-3, None), Err(BackendError::Failed(m)) if m == "native error -3"));
    assert!(matches!(check_result(2, Some("boom".into())), Err(BackendError::Failed(m)) if m == "boom"));
}

#[test]
fn headers_are_serialized_without_the_user_agent() {
    let (block, agent) = prepare_headers(&vec![
        ("Referer".into(), "https://music.youtube.com/".into()),
        ("user-AGENT".into(), "ZeroBeat Test".into()),
        ("X-A".into(), "1".into()),
    ])
    .unwrap();
    assert_eq!(block, "Referer: https://music.youtube.com/\r\nX-A: 1\r\n");
    assert_eq!(agent, "ZeroBeat Test");
}

#[test]
fn broken_headers_are_refused() {
    assert!(matches!(
        prepare_headers(&vec![("Bad:Name".into(), "x".into())]),
        Err(BackendError::Failed(m)) if m == "invalid audio HTTP header"
    ));
    assert!(matches!(
        prepare_headers(&vec![("A".into(), "x\ny".into())]),
        Err(BackendError::Failed(m)) if m == "invalid audio HTTP header"
    ));
    assert!(matches!(
        prepare_headers(&vec![("A".into(), "x\0y".into())]),
        Err(BackendError::Failed(m)) if m == "audio HTTP header contains a null byte"
    ));
    assert!(matches!(
        prepare_headers(&vec![("User-Agent".into(), "x\0y".into())]),
        Err(BackendError::Failed(m)) if m == "audio user agent contains a null byte"
    ));
}

#[test]
fn sources_and_spectrum_shapes_are_checked() {
    assert!(is_http_source("https://a"));
    assert!(is_http_source("http://a"));
    assert!(!is_http_source("/music/a.audio"));
    assert!(check_spectrum_shape(8, 2).is_ok());
    assert!(check_spectrum_shape(7, 2).is_err());
    assert!(check_spectrum_shape(0, 2).is_err());
    assert!(check_spectrum_shape(8, 0).is_err());
}

#[test]
fn telemetry_clamps_negative_counts_and_failed_spectra() {
    let telemetry = telemetry_from(-1, 245_000, 3_000, -7, 1, [9; 24], 6);
    assert_eq!(telemetry.position_ms, 0);
    assert_eq!(telemetry.duration_ms, 245_000);
    assert_eq!(telemetry.underrun_count, 0);
    assert_eq!(telemetry.spectrum, [0; 24]);
    assert!(telemetry.ended);
    let telemetry = telemetry_from(5, 5, 5, 5, 0, [9; 24], 4);
    assert_eq!(telemetry.spectrum, [9; 24]);
    assert!(!telemetry.ended);
}
