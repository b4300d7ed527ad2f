use zerobeat::{
    CatalogError, QueueSession, QueueTracker, Track, advance_made_no_progress, backoff_delay_seconds,
    download_should_start, is_terminal_queue_error, DownloadStatus, QueueRepeatMode,
};

#[test]
fn refill_waits_for_the_visible_queue_to_change() {
    let mut tracker = QueueTracker::new();
    assert!(tracker.refill_allowed_at("s", 1, 5, 0));
    tracker.record_refill_result("s", 1, 5, 5);
    assert!(!tracker.refill_allowed_at("s", 1, 5, 0));
    assert!(tracker.refill_allowed_at("s", 1, 6, 0));
    tracker.record_refill_result("s", 1, 6, 12);
    assert!(tracker.refill_allowed_at("s", 1, 12, 0));
}

#[test]
fn refill_errors_back_off_exponentially() {
    let mut tracker = QueueTracker::new();
    tracker.record_refill_error_at("s", 1, 10_000);
    assert!(!tracker.refill_allowed_at("s", 1, 3, 10_999));
    assert!(tracker.refill_allowed_at("s", 1, 3, 11_000));
    tracker.record_refill_error_at("s", 1, 0);
    tracker.record_refill_error_at("s", 1, 0);
    assert!(!tracker.refill_allowed_at("s", 1, 3, 1_999));
    assert!(tracker.refill_allowed_at("s", 2, 3, 0));
    assert_eq!(backoff_delay_seconds(1), 1);
    assert_eq!(backoff_delay_seconds(3), 4);
    assert_eq!(backoff_delay_seconds(9), 8);
}

#[test]
fn auto_advance_stops_after_terminal_or_repeated_failures() {
    let mut tracker = QueueTracker::new();
    assert!(tracker.auto_advance_allowed_at("s", 1, 0, 0));
    tracker.record_auto_advance_error_at("s", 1, 0, false, 0);
    assert!(!tracker.auto_advance_allowed_at("s", 1, 0, 999));
    assert!(tracker.auto_advance_allowed_at("s", 1, 0, 1_000));
    assert!(tracker.auto_advance_allowed_at("s", 1, 1, 0));
    tracker.record_auto_advance_error_at("s", 1, 0, true, 0);
    assert!(!tracker.auto_advance_allowed_at("s", 1, 0, u64::MAX));
    tracker.clear_auto_advance_marker();
    assert!(tracker.auto_advance_allowed_at("s", 1, 0, 0));
}

#[test]
fn missing_or_empty_queue_errors_are_terminal() {
    assert!(is_terminal_queue_error(&CatalogError::Unavailable("queue session is missing".into())));
    assert!(is_terminal_queue_error(&CatalogError::Unavailable("queue is empty".into())));
    assert!(!is_terminal_queue_error(&CatalogError::Unavailable("timeout".into())));
}

#[test]
fn an_advance_that_lands_on_the_same_track_made_no_progress() {
    let session = QueueSession {
        id: "s".into(),
        tracks: vec![Track::new("a", "a", "x", 1), Track::new("b", "b", "x", 1)],
        current_index: 0,
        repeat_mode: QueueRepeatMode::Off,
        ..QueueSession::default()
    };
    assert!(advance_made_no_progress(&session, 0, &Some("a".to_owned())));
    assert!(!advance_made_no_progress(&session, 1, &Some("a".to_owned())));
    let repeating = QueueSession { repeat_mode: QueueRepeatMode::One, ..session };
    assert!(!advance_made_no_progress(&repeating, 0, &Some("a".to_owned())));
}

#[test]
fn downloads_start_only_when_nothing_usable_is_stored() {
    assert!(download_should_start(None, false));
    assert!(!download_should_start(Some(DownloadStatus::Queued), false));
    assert!(!download_should_start(Some(DownloadStatus::Downloading), true));
    assert!(!download_should_start(Some(DownloadStatus::Available), true));
    assert!(download_should_start(Some(DownloadStatus::Available), false));
    assert!(download_should_start(Some(DownloadStatus::Failed), false));
}
