use std::{
    cell::Cell,
    rc::Rc,
};

use zerobeat::{
    AudioBackend, BackendError, Player, PlayerState, QueueItem, StreamSource, Track,
    transition_to_guarded,
};

#[test]
fn guarded_transition_checks_cancellation_before_stopping() {
    let mut backend = RecordingBackend::default();

    transition_to_guarded(&mut backend, &StreamSource::new("next"), &|| false).unwrap();

    assert!(backend.events.is_empty());
}

#[test]
fn unguarded_transition_stops_loads_and_plays() {
    let mut backend = RecordingBackend::default();

    transition_to_guarded(&mut backend, &StreamSource::new("next"), &|| true).unwrap();

    assert_eq!(backend.events, ["stop", "load:next", "play"]);
}

#[test]
fn transition_cancelled_after_loading_stops_again() {
    let mut backend = RecordingBackend::default();
    let calls = Cell::new(0);
    let answer = || {
        calls.set(calls.get() + 1);
        calls.get() < 3
    };

    transition_to_guarded(&mut backend, &StreamSource::new("next"), &answer).unwrap();

    assert_eq!(backend.events, ["stop", "load:next", "stop"]);
}

#[test]
fn queue_moves_through_buffering_playing_and_next_track() {
    let mut player = Player::new(RecordingBackend::default());
    player.enqueue(item("first"));
    player.enqueue(item("second"));

    player.play().unwrap();
    assert_eq!(player.state(), PlayerState::Buffering);
    assert_eq!(player.current().unwrap().track.id, "first");

    player.mark_ready().unwrap();
    assert_eq!(player.state(), PlayerState::Playing);

    player.skip_to_next().unwrap();
    assert_eq!(player.state(), PlayerState::Buffering);
    assert_eq!(player.current().unwrap().track.id, "second");
    assert_eq!(
        player.backend().events,
        ["load:first", "play", "stop", "load:second"]
    );
}

#[test]
fn pause_and_resume_do_not_reload_the_stream() {
    let mut player = Player::new(RecordingBackend::default());
    player.enqueue(item("first"));
    player.play().unwrap();
    player.mark_ready().unwrap();

    player.pause().unwrap();
    assert_eq!(player.state(), PlayerState::Paused);
    player.play().unwrap();
    assert_eq!(player.state(), PlayerState::Playing);
    assert_eq!(
        player.backend().events,
        ["load:first", "play", "pause", "play"]
    );
}

#[test]
fn failed_next_load_preserves_current_and_queue() {
    let should_fail = Rc::new(Cell::new(false));
    let backend = FailingBackend {
        should_fail: Rc::clone(&should_fail),
        events: Vec::new(),
    };
    let mut player = Player::new(backend);
    player.enqueue(item("first"));
    player.enqueue(item("second"));
    player.play().unwrap();
    player.mark_ready().unwrap();

    should_fail.set(true);
    assert!(player.skip_to_next().is_err());
    assert_eq!(player.current().unwrap().track.id, "first");
    assert_eq!(player.state(), PlayerState::Playing);

    should_fail.set(false);
    player.skip_to_next().unwrap();
    assert_eq!(player.current().unwrap().track.id, "second");
    assert_eq!(player.state(), PlayerState::Buffering);
}

#[test]
fn skipping_past_the_last_item_ends_playback() {
    let mut player = Player::new(RecordingBackend::default());
    player.enqueue(item("only"));
    player.play().unwrap();
    player.skip_to_next().unwrap();
    assert_eq!(player.state(), PlayerState::Ended);
    assert!(player.current().is_none());
}

#[test]
fn backend_errors_describe_themselves() {
    assert_eq!(
        BackendError::Unavailable("gone".into()).message(),
        "audio backend is unavailable: gone"
    );
    assert_eq!(
        BackendError::Failed("broke".into()).message(),
        "audio backend failed: broke"
    );
}

#[derive(Default)]
struct RecordingBackend {
    events: Vec<String>,
}

struct FailingBackend {
    should_fail: Rc<Cell<bool>>,
    events: Vec<String>,
}

impl AudioBackend for FailingBackend {
    fn load(&mut self, source: &StreamSource) -> Result<(), BackendError> {
        if self.should_fail.get() {
            return Err(BackendError::Unavailable("load failed".into()));
        }
        self.events.push(format!("load:{}", source.url));
        Ok(())
    }

    fn play(&mut self) -> Result<(), BackendError> {
        self.events.push("play".into());
        Ok(())
    }

    fn pause(&mut self) -> Result<(), BackendError> {
        self.events.push("pause".into());
        Ok(())
    }

    fn stop(&mut self) -> Result<(), BackendError> {
        self.events.push("stop".into());
        Ok(())
    }
}

impl AudioBackend for RecordingBackend {
    fn load(&mut self, source: &StreamSource) -> Result<(), BackendError> {
        self.events.push(format!("load:{}", source.url));
        Ok(())
    }

    fn play(&mut self) -> Result<(), BackendError> {
        self.events.push("play".into());
        Ok(())
    }

    fn pause(&mut self) -> Result<(), BackendError> {
        self.events.push("pause".into());
        Ok(())
    }

    fn stop(&mut self) -> Result<(), BackendError> {
        self.events.push("stop".into());
        Ok(())
    }
}

fn item(id: &str) -> QueueItem {
    QueueItem::new(Track::new(id, id, "artist", 180_000), StreamSource::new(id))
}

#[test]
fn skipping_with_nothing_loaded_or_queued_ends_without_touching_the_backend() {
    let mut player = Player::new(RecordingBackend::default());
    player.skip_to_next().unwrap();
    assert_eq!(player.state(), PlayerState::Ended);
    assert!(player.backend().events.is_empty());
}

#[test]
fn default_backend_refuses_seeking_and_reports_silence() {
    let mut backend = RecordingBackend::default();
    assert!(matches!(backend.seek(5), Err(BackendError::Unavailable(m)) if m == "seeking is not supported"));
    let telemetry = backend.telemetry();
    assert_eq!(telemetry.position_ms, 0);
    assert!(!telemetry.ended);
}

#[test]
fn refused_player_calls_name_the_state_and_leave_the_backend_alone() {
    let mut player = Player::new(RecordingBackend::default());
    assert!(matches!(player.mark_ready(), Err(zerobeat::PlayerError::InvalidState("not buffering"))));
    assert!(matches!(player.pause(), Err(zerobeat::PlayerError::InvalidState("not playing"))));
    player.play().unwrap();
    assert_eq!(player.state(), PlayerState::Ended);
    assert!(player.backend().events.is_empty());
}
