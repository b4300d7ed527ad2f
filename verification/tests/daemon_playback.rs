use zerobeat::{
    AppSnapshot, AudioOp, BackendTelemetry, ClientCommand, CommandStep, PlaybackFinish, PlaybackStatus, Route,
    SearchStatus, Track, finish_audio, finish_playback, finish_playback_error, finish_search, mark_buffering,
    plan_command, prepare_track, QueueTracker, apply_telemetry, should_advance,
};

fn track(id: &str) -> Track {
    Track::new(id, id, "Artist", 180_000)
}

#[test]
fn greeting_with_the_wrong_version_is_refused() {
    let mut snapshot = AppSnapshot::default();
    match plan_command(&mut snapshot, ClientCommand::Hello { protocol_version: 3 }) {
        CommandStep::Reject(reason) => assert_eq!(reason, "unsupported protocol version 3"),
        other => panic!("unexpected {other:?}"),
    }
    assert!(matches!(
        plan_command(&mut snapshot, ClientCommand::Hello { protocol_version: zerobeat::PROTOCOL_VERSION }),
        CommandStep::Reply
    ));
}

#[test]
fn submitting_a_search_starts_a_numbered_request() {
    let mut snapshot = AppSnapshot::default();
    plan_command(&mut snapshot, ClientCommand::Navigate(Route::Search));
    plan_command(&mut snapshot, ClientCommand::UpdateSearch("  tampar ".into()));
    match plan_command(&mut snapshot, ClientCommand::SubmitSearch) {
        CommandStep::Search(request, id) => {
            assert_eq!(request.query, "tampar");
            assert_eq!(request.limit, 30);
            assert_eq!(id, 1);
        }
        other => panic!("unexpected {other:?}"),
    }
    assert!(matches!(snapshot.search.status, SearchStatus::Loading));
    finish_search(&mut snapshot, 1, Ok(vec![track("a"), track("b")]));
    assert!(matches!(snapshot.search.status, SearchStatus::Ready));
    assert_eq!(snapshot.search.results.len(), 2);
    finish_search(&mut snapshot, 0, Ok(vec![]));
    assert_eq!(snapshot.search.results.len(), 2);
}

#[test]
fn blank_search_fails_without_a_request() {
    let mut snapshot = AppSnapshot::default();
    assert!(matches!(plan_command(&mut snapshot, ClientCommand::SubmitSearch), CommandStep::Reply));
    match &snapshot.search.status {
        SearchStatus::Failed(reason) => assert_eq!(reason, "search query cannot be blank"),
        other => panic!("unexpected {other:?}"),
    }
}

#[test]
fn selection_wraps_around_the_results() {
    let mut snapshot = AppSnapshot::default();
    snapshot.search.results = vec![track("a"), track("b"), track("c")];
    plan_command(&mut snapshot, ClientCommand::SelectPrevious);
    assert_eq!(snapshot.search.selected_index, 2);
    plan_command(&mut snapshot, ClientCommand::SelectNext);
    assert_eq!(snapshot.search.selected_index, 0);
}

#[test]
fn volume_and_seek_are_bounded() {
    let mut snapshot = AppSnapshot::default();
    snapshot.playback.duration_ms = 10_000;
    snapshot.playback.position_ms = 9_000;
    assert!(matches!(
        plan_command(&mut snapshot, ClientCommand::SetVolume(150)),
        CommandStep::Audio(AudioOp::Volume(100))
    ));
    assert!(matches!(
        plan_command(&mut snapshot, ClientCommand::SeekTo(50_000)),
        CommandStep::Audio(AudioOp::Seek(10_000))
    ));
    assert!(matches!(
        plan_command(&mut snapshot, ClientCommand::SeekRelative(-20_000)),
        CommandStep::Audio(AudioOp::Seek(0))
    ));
    assert!(matches!(
        plan_command(&mut snapshot, ClientCommand::SetCrossfadeSeconds(40)),
        CommandStep::SaveCrossfade(12)
    ));
}

#[test]
fn a_superseded_track_never_starts() {
    let mut snapshot = AppSnapshot::default();
    let mut tracker = QueueTracker::new();
    let first = prepare_track(&mut snapshot, &mut tracker, &track("first"));
    let second = prepare_track(&mut snapshot, &mut tracker, &track("second"));
    assert!(!tracker.may_continue(first));
    assert!(tracker.may_continue(second));
    assert!(!mark_buffering(&mut snapshot, first));
    assert!(matches!(
        finish_playback(&mut snapshot, first, &track("first"), Ok(())),
        PlaybackFinish::Stale
    ));
    assert!(snapshot.playback.current.is_none());
    assert!(mark_buffering(&mut snapshot, second));
    assert!(matches!(
        finish_playback(&mut snapshot, second, &track("second"), Ok(())),
        PlaybackFinish::Started { .. }
    ));
    assert_eq!(snapshot.playback.current.as_ref().unwrap().id, "second");
    assert_eq!(snapshot.playback.status, PlaybackStatus::Playing);
}

#[test]
fn playback_failures_show_and_stale_ones_do_not() {
    let mut snapshot = AppSnapshot::default();
    let request = prepare_track(&mut snapshot, &mut QueueTracker::new(), &track("a"));
    assert!(!finish_playback_error(&mut snapshot, request + 1, "old".into()));
    assert!(snapshot.playback.error.is_none());
    assert!(finish_playback_error(&mut snapshot, request, "stream failed".into()));
    assert_eq!(snapshot.playback.error.as_deref(), Some("stream failed"));
}

#[test]
fn audio_results_update_the_snapshot() {
    let mut snapshot = AppSnapshot::default();
    finish_audio(&mut snapshot, AudioOp::Volume(40), Ok(()));
    assert_eq!(snapshot.playback.volume_percent, 40);
    finish_audio(&mut snapshot, AudioOp::Volume(70), Err("no device".into()));
    assert_eq!(snapshot.playback.volume_percent, 40);
    assert_eq!(snapshot.playback.error.as_deref(), Some("no device"));
}

#[test]
fn telemetry_moves_the_position_of_a_playing_track() {
    let mut snapshot = AppSnapshot::default();
    let request = prepare_track(&mut snapshot, &mut QueueTracker::new(), &track("a"));
    finish_playback(&mut snapshot, request, &track("a"), Ok(()));
    let telemetry = BackendTelemetry {
        position_ms: 1_500,
        duration_ms: 180_000,
        buffered_ms: 3_000,
        underrun_count: 0,
        spectrum: [1; 24],
        ended: false,
    };
    apply_telemetry(&mut snapshot, &telemetry);
    assert_eq!(snapshot.playback.position_ms, 1_500);
    assert!(!should_advance(&snapshot, &telemetry, false));
}
