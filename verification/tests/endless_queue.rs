use zerobeat::{EndlessQueue, RadioPage, Track, retry_backoff};

fn track(id: &str) -> Track {
    Track::new(id, id, "ZeroBeat", 180_000)
}

#[test]
fn no_progress_with_a_new_token_is_delayed_then_same_token_exhausts() {
    let seed = track("seed");
    let mut queue = EndlessQueue::default();
    queue.start(&seed, &[], Vec::new());
    let (generation, _) = queue.request(0).expect("initial request");

    assert!(queue.accept(
        generation,
        RadioPage {
            tracks: Vec::new(),
            continuation: Some("next".into()),
        },
    ));
    assert!(queue.retry_delay(0).is_some());
    assert!(queue.request(0).is_none());

    assert!(queue.accept(
        generation,
        RadioPage {
            tracks: Vec::new(),
            continuation: Some("next".into()),
        },
    ));
    assert!(queue.retry_delay(0).is_none());
    assert!(queue.request(0).is_none());
}

#[test]
fn reservation_rejects_seen_and_pending_tracks() {
    let seed = track("seed");
    let pending = track("pending");
    let mut queue = EndlessQueue::default();
    queue.start(&seed, &[], vec![pending.clone()]);
    assert!(!queue.reserve("pending"));
    assert!(!queue.reserve("seed"));
    assert!(queue.reserve("manual"));
    assert!(!queue.reserve("manual"));
}

#[test]
fn a_page_without_continuation_rolls_over_from_the_last_unique_track() {
    let seed = track("seed");
    let mut queue = EndlessQueue::default();
    queue.start(&seed, &[], Vec::new());
    let (generation, _) = queue.request(0).expect("initial request");

    assert!(queue.accept(
        generation,
        RadioPage {
            tracks: vec![track("last")],
            continuation: None,
        },
    ));
    let (_, request) = queue.request(0).expect("seed rollover request");
    assert_eq!(request.seed_track_id, "last");
    assert_eq!(request.continuation, None);
}

#[test]
fn stale_pages_are_ignored() {
    let seed = track("seed");
    let mut queue = EndlessQueue::default();
    queue.start(&seed, &[], Vec::new());
    let (generation, _) = queue.request(0).expect("initial request");
    queue.stop();
    assert!(!queue.accept(
        generation,
        RadioPage {
            tracks: vec![track("late")],
            continuation: None,
        },
    ));
    assert_eq!(queue.pending_len(), 0);
}

#[test]
fn top_up_fills_the_visible_queue_without_repeats() {
    let seed = track("seed");
    let mut queue = EndlessQueue::default();
    queue.start(&seed, &[], Vec::new());
    let (generation, _) = queue.request(0).expect("initial request");
    let page: Vec<Track> = (0..20).map(|i| track(&format!("t{i}"))).chain([track("t1"), track("seed")]).collect();
    assert!(queue.accept(generation, RadioPage { tracks: page, continuation: None }));
    let mut visible = Vec::new();
    queue.top_up(&mut visible);
    assert_eq!(visible.len(), 12);
    let mut ids: Vec<&str> = visible.iter().map(|t| t.id.as_str()).collect();
    ids.sort();
    ids.dedup();
    assert_eq!(ids.len(), 12);
    assert_eq!(visible[0].id, "t0");
}

#[test]
fn retry_backoff_doubles_up_to_its_cap() {
    assert_eq!(retry_backoff(0), 250);
    assert_eq!(retry_backoff(1), 250);
    assert_eq!(retry_backoff(2), 500);
    assert_eq!(retry_backoff(6), 8000);
    assert_eq!(retry_backoff(40), 8000);
}
