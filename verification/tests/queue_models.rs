use zerobeat::{
    QueueRepeatMode, QueueSessionResponse, QueueStart, QueueStartRequest, QueueTrack, Track,
    is_zero, parse_repeat_mode, queue_session_from, repeat_mode_name,
};

#[test]
fn repeat_modes_have_service_names() {
    assert_eq!(repeat_mode_name(QueueRepeatMode::Off), "none");
    assert_eq!(repeat_mode_name(QueueRepeatMode::All), "all");
    assert_eq!(repeat_mode_name(QueueRepeatMode::One), "one");
    assert_eq!(parse_repeat_mode("all"), QueueRepeatMode::All);
    assert_eq!(parse_repeat_mode("one"), QueueRepeatMode::One);
    assert_eq!(parse_repeat_mode("ALL"), QueueRepeatMode::Off);
    assert_eq!(parse_repeat_mode(""), QueueRepeatMode::Off);
    assert!(is_zero(&0));
    assert!(!is_zero(&1));
}

#[test]
fn tracks_are_stored_in_seconds_and_played_back_in_milliseconds() {
    let track = Track::new("v", "T", "A", 245_999).with_thumbnail("https://img".into());
    let stored = QueueTrack::from_track(&track);
    assert_eq!(stored.duration_sec, 245);
    assert_eq!(stored.thumbnail, "https://img");
    let back = stored.into_track();
    assert_eq!(back.duration_ms, 245_000);
    assert_eq!(back.thumbnail_url.as_deref(), Some("https://img"));
    let bare = QueueTrack::from_track(&Track::new("v", "T", "A", 1)).into_track();
    assert_eq!(bare.thumbnail_url, None);
}

#[test]
fn start_requests_and_sessions_convert() {
    let start = QueueStart {
        tracks: vec![Track::new("a", "A", "X", 1_000)],
        current_index: 0,
        repeat_mode: QueueRepeatMode::One,
        shuffle: true,
        ..QueueStart::default()
    };
    let body = QueueStartRequest::from_start(start);
    assert_eq!(body.tracks.len(), 1);
    assert_eq!(body.repeat_mode, "one");
    assert!(body.shuffle);
    let session = queue_session_from(QueueSessionResponse {
        id: "s".into(),
        state: "active".into(),
        tracks: vec![QueueTrack::from_track(&Track::new("a", "A", "X", 2_000))],
        current_index: 0,
        playlist_id: None,
        playlist_name: None,
        playlist_type: None,
        continuation: None,
        shuffle: false,
        play_order: vec![0],
        repeat_mode: "all".into(),
        endless_queue: true,
        revision: 7,
    });
    assert_eq!(session.repeat_mode, QueueRepeatMode::All);
    assert_eq!(session.tracks[0].duration_ms, 2_000);
    assert_eq!(session.revision, 7);
}
