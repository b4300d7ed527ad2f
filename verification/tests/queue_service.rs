use zerobeat::{
    AppSnapshot, BackendTelemetry, CatalogError, ClientCommand, PlaybackFinish, PlaybackStart,
    PlaybackStatus, QueueCall, QueueFinish, QueueRepeatMode, QueueSession, QueueStep, QueueTracker,
    RepeatMode, SearchStatus, TelemetryAction, Track, advance_step, finish_advance, finish_queue_command,
    finish_queued_playback, finish_refill, plan_queue_command, prepare_track, telemetry_step,
    queue_not_configured_error,
};

fn track(id: &str, title: &str) -> Track {
    Track::new(id, title, "Artist", 180_000)
}

fn session(id: &str, tracks: Vec<Track>, current_index: usize, revision: i64) -> QueueSession {
    QueueSession { id: id.into(), tracks, current_index, revision, endless_queue: true, ..QueueSession::default() }
}

fn searched() -> AppSnapshot {
    let mut snapshot = AppSnapshot::default();
    snapshot.search.results = vec![
        track("tampar", "Tampar"),
        track("sialan", "Sialan"),
        track("lampu", "Lampu Kuning"),
    ];
    snapshot.search.status = SearchStatus::Ready;
    snapshot
}

fn titles(tracks: &[Track]) -> Vec<&str> {
    tracks.iter().map(|track| track.title.as_str()).collect()
}

fn following(id: &str, revision: i64) -> QueueTracker {
    let mut tracker = QueueTracker::new();
    tracker.replace_session(&session(id, vec![track("a", "A")], 0, revision));
    tracker
}

#[test]
fn play_selected_starts_an_endless_session_and_fills_the_queue() {
    let mut snapshot = searched();
    let mut tracker = QueueTracker::new();
    let step = plan_queue_command(&mut snapshot, &tracker, ClientCommand::PlaySelected);
    let QueueStep::Call(call) = step else { panic!("expected a call") };
    let QueueCall::Start(request, start) = &call else { panic!("expected a start") };
    assert_eq!(request.current_index, 0);
    assert!(request.endless_queue);
    assert!(request.track.is_none());
    assert_eq!(titles(&request.tracks), vec!["Tampar", "Sialan", "Lampu Kuning"]);
    assert_eq!(*start, PlaybackStart::Replace);

    let answer = session("s1", request.tracks.clone(), 0, 1);
    let finish = finish_queue_command(&mut snapshot, &mut tracker, &call, Ok(answer));
    let QueueFinish::Play { track: playing, request_id, start, session } = finish else { panic!("expected play") };
    assert_eq!(playing.title, "Tampar");
    assert_eq!(request_id, 1);
    assert_eq!(start, PlaybackStart::Replace);
    assert_eq!(snapshot.playback.status, PlaybackStatus::Resolving);
    assert_eq!(tracker.pending_transition, 1);
    assert_eq!(tracker.session_id().as_deref(), Some("s1"));

    let started =
        finish_queued_playback(&mut snapshot, &mut tracker, request_id, &playing, session.as_ref(), Ok(()));
    assert!(matches!(started, PlaybackFinish::Started { load_lyrics: true }));
    assert_eq!(snapshot.playback.status, PlaybackStatus::Playing);
    assert_eq!(snapshot.playback.current.as_ref().map(|track| track.title.as_str()), Some("Tampar"));
    assert_eq!(titles(&snapshot.playback.queue), vec!["Sialan", "Lampu Kuning"]);
    assert_eq!(tracker.pending_transition, 0);
}

#[test]
fn play_selected_without_a_selection_does_nothing() {
    let mut snapshot = AppSnapshot::default();
    let tracker = QueueTracker::new();
    let step = plan_queue_command(&mut snapshot, &tracker, ClientCommand::PlaySelected);
    assert!(matches!(step, QueueStep::Reply));
    assert!(snapshot.playback.error.is_none());
}

#[test]
fn failed_session_start_fails_playback() {
    let mut snapshot = searched();
    snapshot.playback.status = PlaybackStatus::Playing;
    let mut tracker = QueueTracker::new();
    let QueueStep::Call(call) = plan_queue_command(&mut snapshot, &tracker, ClientCommand::PlayTrack(track("x", "X")))
    else {
        panic!("expected a call")
    };
    let QueueCall::Start(request, start) = &call else { panic!("expected a start") };
    assert_eq!(request.track.as_ref().map(|track| track.id.as_str()), Some("x"));
    assert_eq!(*start, PlaybackStart::Crossfade(500));
    let finish =
        finish_queue_command(&mut snapshot, &mut tracker, &call, Err(CatalogError::Unavailable("down".into())));
    assert!(matches!(finish, QueueFinish::Reply));
    assert_eq!(snapshot.playback.status, PlaybackStatus::Failed);
    assert_eq!(snapshot.playback.error.as_deref(), Some("catalog is unavailable: down"));
    assert!(tracker.session.is_none());
}

#[test]
fn queue_edits_wait_for_a_starting_track() {
    let mut snapshot = searched();
    let mut tracker = following("s1", 1);
    prepare_track(&mut snapshot, &mut tracker, &track("a", "A"));
    for command in [
        ClientCommand::QueueSelected,
        ClientCommand::QueueTrack(track("b", "B")),
        ClientCommand::ToggleShuffle,
        ClientCommand::CycleRepeat,
        ClientCommand::PlayQueueIndex(0),
        ClientCommand::RemoveQueueIndex(0),
        ClientCommand::ClearQueue,
    ] {
        snapshot.playback.error = None;
        let step = plan_queue_command(&mut snapshot, &tracker, command);
        assert!(matches!(step, QueueStep::Reply));
        assert_eq!(snapshot.playback.error.as_deref(), Some("playback transition is pending"));
    }
    let step = plan_queue_command(&mut snapshot, &tracker, ClientCommand::NextTrack);
    assert!(matches!(step, QueueStep::Call(QueueCall::Next(id)) if id == "s1"));
}

#[test]
fn queue_commands_need_a_session() {
    let mut snapshot = AppSnapshot::default();
    let tracker = QueueTracker::new();
    let step = plan_queue_command(&mut snapshot, &tracker, ClientCommand::ClearQueue);
    assert!(matches!(step, QueueStep::Reply));
    assert_eq!(snapshot.playback.error.as_deref(), Some("no active backend queue session"));
    assert_eq!(snapshot.playback.status, PlaybackStatus::Failed);
}

#[test]
fn a_row_of_an_old_projection_is_stale() {
    let mut snapshot = AppSnapshot::default();
    let tracker = following("s1", 1);
    let step = plan_queue_command(&mut snapshot, &tracker, ClientCommand::RemoveQueueIndex(0));
    assert!(matches!(step, QueueStep::Reply));
    assert_eq!(snapshot.playback.error.as_deref(), Some("queue projection is stale"));
}

#[test]
fn rows_map_to_backend_indices() {
    let mut snapshot = AppSnapshot::default();
    let mut tracker = QueueTracker::new();
    let answer = session("s1", vec![track("a", "A"), track("b", "B"), track("c", "C")], 0, 1);
    tracker.replace_session(&answer);
    tracker.project_queue_for(&mut snapshot, &answer);
    let step = plan_queue_command(&mut snapshot, &tracker, ClientCommand::PlayQueueIndex(1));
    assert!(matches!(step, QueueStep::Call(QueueCall::PlayIndex(id, 2)) if id == "s1"));
}

#[test]
fn repeat_cycles_and_shuffle_toggles() {
    let mut snapshot = AppSnapshot::default();
    snapshot.playback.repeat_mode = RepeatMode::One;
    let tracker = following("s1", 1);
    let step = plan_queue_command(&mut snapshot, &tracker, ClientCommand::CycleRepeat);
    assert!(matches!(step, QueueStep::Call(QueueCall::SetRepeat(_, QueueRepeatMode::Off))));
    let step = plan_queue_command(&mut snapshot, &tracker, ClientCommand::ToggleShuffle);
    assert!(matches!(step, QueueStep::Call(QueueCall::SetShuffle(_, true))));
}

#[test]
fn added_track_is_projected_and_a_stale_session_is_ignored() {
    let mut snapshot = AppSnapshot::default();
    let mut tracker = following("s1", 2);
    let call = QueueCall::Add("s1".into(), track("b", "B"));
    let newer = session("s1", vec![track("a", "A"), track("b", "B")], 0, 3);
    finish_queue_command(&mut snapshot, &mut tracker, &call, Ok(newer));
    assert_eq!(titles(&snapshot.playback.queue), vec!["B"]);
    let older = session("s1", vec![track("a", "A"), track("c", "C")], 0, 1);
    finish_queue_command(&mut snapshot, &mut tracker, &call, Ok(older));
    assert_eq!(titles(&snapshot.playback.queue), vec!["B"]);
    finish_queue_command(&mut snapshot, &mut tracker, &call, Err(CatalogError::Unauthorized));
    assert!(snapshot.playback.error.is_some());
}

#[test]
fn a_failed_next_abandons_the_starting_request() {
    let mut snapshot = AppSnapshot::default();
    let mut tracker = following("s1", 1);
    let request = prepare_track(&mut snapshot, &mut tracker, &track("a", "A"));
    let call = QueueCall::Next("s1".into());
    let finish = finish_queue_command(&mut snapshot, &mut tracker, &call, Err(CatalogError::Unauthorized));
    assert!(matches!(finish, QueueFinish::Reply));
    assert_eq!(snapshot.playback.request_id, request + 1);
    assert_eq!(tracker.pending_transition, 0);
    assert!(snapshot.playback.error.is_some());
}

#[test]
fn next_without_a_current_track_is_reported() {
    let mut snapshot = AppSnapshot::default();
    let mut tracker = following("s1", 1);
    let call = QueueCall::Next("s1".into());
    let finish = finish_queue_command(&mut snapshot, &mut tracker, &call, Ok(session("s1", Vec::new(), 0, 2)));
    assert!(matches!(finish, QueueFinish::Reply));
    assert_eq!(snapshot.playback.error.as_deref(), Some("backend queue returned no current track"));
}

fn telemetry(position_ms: u64, duration_ms: u64, ended: bool) -> BackendTelemetry {
    BackendTelemetry { position_ms, duration_ms, ended, ..BackendTelemetry::default() }
}

#[test]
fn telemetry_without_a_session_only_updates_the_snapshot() {
    let mut snapshot = AppSnapshot::default();
    snapshot.playback.status = PlaybackStatus::Playing;
    let mut tracker = QueueTracker::new();
    let action = telemetry_step(&mut snapshot, &mut tracker, &telemetry(5_000, 60_000, false), 0);
    assert!(matches!(action, TelemetryAction::Done));
    assert_eq!(snapshot.playback.position_ms, 5_000);
    assert_eq!(snapshot.playback.duration_ms, 60_000);
}

#[test]
fn a_short_endless_queue_is_refilled_then_remembered() {
    let mut snapshot = AppSnapshot::default();
    snapshot.playback.status = PlaybackStatus::Playing;
    let mut tracker = following("s1", 1);
    let action = telemetry_step(&mut snapshot, &mut tracker, &telemetry(5_000, 60_000, false), 0);
    let TelemetryAction::Refill(tick) = action else { panic!("expected a refill") };
    assert!(tracker.refill_in_flight);
    assert_eq!(tick.session_id, "s1");
    finish_refill(&mut snapshot, &mut tracker, &tick, Ok(session("s1", vec![track("a", "A")], 0, 1)), 0);
    assert!(!tracker.refill_in_flight);
    assert!(tracker.refill_marker.is_some());
    let action = advance_step(&mut snapshot, &tracker, &telemetry(5_000, 60_000, false), tick, 0);
    assert!(matches!(action, TelemetryAction::Done));
    assert_eq!(snapshot.playback.position_ms, 5_000);
    let action = telemetry_step(&mut snapshot, &mut tracker, &telemetry(6_000, 60_000, false), 0);
    assert!(matches!(action, TelemetryAction::Done));
}

#[test]
fn an_ended_track_advances_and_a_stuck_session_stops_advancing() {
    let mut snapshot = AppSnapshot::default();
    snapshot.playback.status = PlaybackStatus::Playing;
    snapshot.playback.current = Some(track("a", "A"));
    let mut tracker = following("s1", 1);
    tracker.endless = false;
    let ended = telemetry(60_000, 60_000, true);
    let action = telemetry_step(&mut snapshot, &mut tracker, &ended, 0);
    let TelemetryAction::Advance(tick) = action else { panic!("expected an advance") };
    let stuck = session("s1", vec![track("a", "A")], 0, 1);
    let finish = finish_advance(&mut snapshot, &mut tracker, &ended, &tick, Ok(stuck), 0);
    assert!(matches!(finish, QueueFinish::Reply));
    assert!(tracker.auto_advance.as_ref().is_some_and(|marker| marker.terminal));
    let action = telemetry_step(&mut snapshot, &mut tracker, &ended, 0);
    assert!(matches!(action, TelemetryAction::Done));
}

#[test]
fn an_advance_starts_the_next_track() {
    let mut snapshot = AppSnapshot::default();
    snapshot.playback.status = PlaybackStatus::Playing;
    snapshot.playback.current = Some(track("a", "A"));
    let mut tracker = following("s1", 1);
    tracker.endless = false;
    let ended = telemetry(60_000, 60_000, true);
    let TelemetryAction::Advance(tick) = telemetry_step(&mut snapshot, &mut tracker, &ended, 0) else {
        panic!("expected an advance")
    };
    let next = session("s1", vec![track("a", "A"), track("b", "B")], 1, 2);
    let finish = finish_advance(&mut snapshot, &mut tracker, &ended, &tick, Ok(next), 0);
    let QueueFinish::Play { track: playing, start, .. } = finish else { panic!("expected play") };
    assert_eq!(playing.title, "B");
    assert_eq!(start, PlaybackStart::Replace);
    assert_ne!(tracker.pending_transition, 0);
}

#[test]
fn without_a_queue_service_the_selected_result_plays_locally() {
    let mut snapshot = searched();
    let mut tracker = QueueTracker::new();
    let QueueStep::Call(call) = plan_queue_command(&mut snapshot, &tracker, ClientCommand::PlaySelected) else {
        panic!("expected a call")
    };
    let finish = finish_queue_command(&mut snapshot, &mut tracker, &call, Err(queue_not_configured_error()));
    let QueueFinish::Play { track: playing, request_id, start, session } = finish else { panic!("expected play") };
    assert_eq!(playing.title, "Tampar");
    assert_eq!(start, PlaybackStart::Replace);
    assert!(session.is_none());
    assert_eq!(snapshot.playback.status, PlaybackStatus::Resolving);
    assert!(snapshot.playback.error.is_none());
    assert_eq!(titles(&snapshot.playback.queue), vec!["Sialan", "Lampu Kuning"]);
    assert_eq!(tracker.generation, request_id);
    finish_queued_playback(&mut snapshot, &mut tracker, request_id, &playing, None, Ok(()));
    assert_eq!(snapshot.playback.status, PlaybackStatus::Playing);
    assert_eq!(snapshot.playback.current.as_ref().map(|track| track.title.as_str()), Some("Tampar"));
    assert_eq!(titles(&snapshot.playback.queue), vec!["Sialan", "Lampu Kuning"]);
    assert_eq!(tracker.pending_transition, 0);
}
