use zerobeat::{
    AppSnapshot, MAX_VISIBLE_QUEUE, QueueSession, QueueTracker, Track, project_queue,
};

fn session(revision: i64, shuffle: bool) -> QueueSession {
    let tracks = (0..16)
        .map(|index| {
            Track::new(
                &index.to_string(),
                &format!("Track {index}"),
                "Artist",
                1_000,
            )
        })
        .collect::<Vec<_>>();
    QueueSession {
        id: "session".into(),
        tracks,
        current_index: 4,
        play_order: if shuffle {
            vec![4, 9, 2, 8, 1, 3, 5, 6, 7, 10, 11, 12, 13, 14, 15, 0]
        } else {
            Vec::new()
        },
        shuffle,
        revision,
        ..QueueSession::default()
    }
}

#[test]
fn queue_projection_follows_backend_order_and_caps_visible_upcoming() {
    let mut snapshot = AppSnapshot::default();
    project_queue(&mut snapshot, &session(2, true));
    assert_eq!(snapshot.playback.queue.len(), MAX_VISIBLE_QUEUE);
    assert_eq!(snapshot.playback.queue[0].id, "9");
    assert_eq!(snapshot.playback.queue[11].id, "13");
}

#[test]
fn visible_queue_index_resolves_to_authoritative_backend_index() {
    let mut tracker = QueueTracker::new();
    let mut snapshot = AppSnapshot::default();
    let authoritative = session(2, true);
    tracker.project_queue_for(&mut snapshot, &authoritative);
    assert_eq!(snapshot.playback.queue[0].id, "9");
    assert_eq!(tracker.visible_backend_index("session", 2, 0), Some(9));
    assert_eq!(tracker.visible_backend_index("session", 2, 11), Some(13));
    assert_eq!(tracker.visible_backend_index("session", 1, 0), None);
}

#[test]
fn stale_queue_revision_is_ignored() {
    let mut tracker = QueueTracker::new();
    tracker.session = Some(("session".into(), 5));
    assert!(!tracker.accept_session(&session(4, false)));
    assert!(tracker.accept_session(&session(6, false)));
    let mut wrong_session = session(7, false);
    wrong_session.id = "other".into();
    assert!(!tracker.accept_session(&wrong_session));
}

#[test]
fn unshuffled_projection_follows_the_track_order() {
    let mut snapshot = AppSnapshot::default();
    project_queue(&mut snapshot, &session(1, false));
    assert_eq!(snapshot.playback.queue.len(), 11);
    assert_eq!(snapshot.playback.queue[0].id, "5");
    assert_eq!(snapshot.playback.queue[10].id, "15");
}
