use vstd::prelude::*;

use crate::audio::{
    BackendError, BackendEvent, BackendTelemetry, StreamSource, TransitionPhase, lemma_refused_transition_makes_no_call,
    transition_events,
};
use crate::catalog::{CatalogError, QueueRepeatMode, QueueSession, QueueStart, catalog_error_text};
use crate::endless_queue::{MAX_VISIBLE_QUEUE, clone_tracks};
use crate::playback::{
    PlaybackFinish, PlaybackStart, advance_made_no_progress, apply_telemetry, bump, finish_playback, history_after,
    is_terminal_queue_error, made_no_progress, opt_text, playback_start_for, prepare_snapshot, prepared, prepared_view,
    queue_error, should_advance, should_advance_view, shows_error, supersede_playback, superseded_view,
    terminal_queue_message, with_telemetry,
};
use crate::protocol::{AppSnapshot, ClientCommand, PlaybackSnapshot, PlaybackStatus, RepeatMode};
use crate::queue_tracker::{
    QueueTracker, accepted_into, advance_error_marker, advance_permitted, projected_indices, projected_tracks,
    refill_checked, refill_error_backoff, refill_permitted, refill_result_marker, repeat_mode_view, replaced_by,
    session_refused,
};
use crate::track::Track;

verus! {

/// A call to the queue service that a client command asks for.
#[derive(Debug)]
pub enum QueueCall {
    /// Start a new session; the new track starts the way given.
    Start(QueueStart, PlaybackStart),
    /// Add a track to the end of the session's queue.
    Add(String, Track),
    /// Move to the next track.
    Next(String),
    /// Move to the previous track.
    Previous(String),
    /// Turn shuffling on or off.
    SetShuffle(String, bool),
    /// Set the repeat mode.
    SetRepeat(String, QueueRepeatMode),
    /// Play the track at this backend index.
    PlayIndex(String, usize),
    /// Remove the track at this backend index.
    Remove(String, usize),
    /// Drop every track after the current one.
    ClearUpcoming(String),
}

/// What the daemon must do after `plan_queue_command`.
#[derive(Debug)]
pub enum QueueStep {
    /// Answer with the snapshot; a refusal shows as its playback error.
    Reply,
    /// Make this call, then hand its outcome to `finish_queue_command`.
    Call(QueueCall),
}

/// Whether a command works on the queue service's session.
pub open spec fn is_queue_command(command: ClientCommand) -> bool {
    match command {
        ClientCommand::PlaySelected | ClientCommand::PlayTrack(_) | ClientCommand::QueueSelected
        | ClientCommand::QueueTrack(_) | ClientCommand::NextTrack | ClientCommand::PreviousTrack
        | ClientCommand::ToggleShuffle | ClientCommand::CycleRepeat | ClientCommand::PlayQueueIndex(_)
        | ClientCommand::RemoveQueueIndex(_) | ClientCommand::ClearQueue => true,
        _ => false,
    }
}

/// The refusal while a track is still being started.
pub open spec fn pending_text() -> Seq<char> {
    "playback transition is pending"@
}

/// The refusal without a queue session.
pub open spec fn no_session_text() -> Seq<char> {
    "no active backend queue session"@
}

/// The refusal when the visible queue no longer matches the session.
pub open spec fn stale_projection_text() -> Seq<char> {
    "queue projection is stale"@
}

/// The refusal when the queue service names no current track.
pub open spec fn no_current_text() -> Seq<char> {
    "backend queue returned no current track"@
}

/// The repeat mode after `mode` in the cycle off, all, one.
pub open spec fn next_repeat(mode: RepeatMode) -> QueueRepeatMode {
    match mode {
        RepeatMode::Off => QueueRepeatMode::All,
        RepeatMode::All => QueueRepeatMode::One,
        RepeatMode::One => QueueRepeatMode::Off,
    }
}

/// A request for an endless session over `tracks` from `current_index`, playing
/// `track` first when one is given; nothing else is set.
pub open spec fn endless_start(tracks: Seq<Track>, current_index: usize, track: Option<Track>, request: QueueStart) -> bool {
    &&& request.tracks@ == tracks
    &&& request.current_index == current_index
    &&& request.track == track
    &&& request.endless_queue
    &&& !request.shuffle
    &&& request.repeat_mode == QueueRepeatMode::Off
    &&& request.playlist_id is None
    &&& request.playlist_name is None
    &&& request.playlist_type is None
    &&& request.continuation is None
}

/// How a new track takes over from what plays in status `status`.
pub open spec fn start_for(status: PlaybackStatus) -> PlaybackStart {
    if status == PlaybackStatus::Playing || status == PlaybackStatus::Paused {
        PlaybackStart::Crossfade(500)
    } else {
        PlaybackStart::Replace
    }
}

/// Whether `step` makes the call that `wanted` accepts on the followed session,
/// leaving the snapshot as it is, or, without a session, refuses.
pub open spec fn session_call(
    tracker: QueueTracker,
    before: AppSnapshot,
    after: AppSnapshot,
    step: QueueStep,
    wanted: spec_fn(QueueCall, Seq<char>) -> bool,
) -> bool {
    match tracker.session {
        None => step is Reply && shows_error(before, after, no_session_text()),
        Some((id, _)) => (step matches QueueStep::Call(c) && wanted(c, id@)) && after == before,
    }
}

/// As `session_call`, but refused while a track is still being started.
pub open spec fn guarded_call(
    tracker: QueueTracker,
    before: AppSnapshot,
    after: AppSnapshot,
    step: QueueStep,
    wanted: spec_fn(QueueCall, Seq<char>) -> bool,
) -> bool {
    if tracker.pending_transition != 0 {
        step is Reply && shows_error(before, after, pending_text())
    } else {
        session_call(tracker, before, after, step, wanted)
    }
}

/// The backend index behind visible row `row` of the session `id` at `revision`.
pub open spec fn backend_index_view(tracker: QueueTracker, id: Seq<char>, revision: i64, row: usize) -> Option<usize> {
    match tracker.projection {
        Some(p) => if p.session_id@ == id && p.revision == revision && row < p.indices@.len() {
            Some(p.indices@[row as int])
        } else {
            None
        },
        None => None,
    }
}

/// As `guarded_call` for a visible queue row: the row must map to a backend index
/// of the followed session revision.
pub open spec fn row_call(
    tracker: QueueTracker,
    before: AppSnapshot,
    after: AppSnapshot,
    step: QueueStep,
    row: usize,
    wanted: spec_fn(QueueCall, Seq<char>, usize) -> bool,
) -> bool {
    if tracker.pending_transition != 0 {
        step is Reply && shows_error(before, after, pending_text())
    } else {
        match tracker.session {
            None => step is Reply && shows_error(before, after, no_session_text()),
            Some((id, revision)) => match backend_index_view(tracker, id@, revision, row) {
                None => step is Reply && shows_error(before, after, stale_projection_text()),
                Some(index) => (step matches QueueStep::Call(c) && wanted(c, id@, index)) && after == before,
            },
        }
    }
}

/// Decides what a queue command needs from the queue service. Commands that edit
/// the queue are refused while a track is still being started; commands on the
/// session are refused without one; a row of the visible queue must still match
/// the session. A refusal shows as the playback error and nothing else changes.
pub fn plan_queue_command(snapshot: &mut AppSnapshot, tracker: &QueueTracker, command: ClientCommand) -> (step: QueueStep)
    requires
        is_queue_command(command),
    ensures
        match command {
            ClientCommand::PlaySelected => *final(snapshot) == *old(snapshot) && if old(snapshot).search.selected_index
                < old(snapshot).search.results@.len() {
                step matches QueueStep::Call(QueueCall::Start(request, start)) && endless_start(
                    old(snapshot).search.results@,
                    old(snapshot).search.selected_index,
                    None,
                    request,
                ) && start == start_for(old(snapshot).playback.status)
            } else {
                step is Reply
            },
            ClientCommand::PlayTrack(track) => *final(snapshot) == *old(snapshot) && (step matches QueueStep::Call(
                QueueCall::Start(request, start),
            ) && endless_start(old(snapshot).playback.queue@, 0, Some(track), request) && start == start_for(
                old(snapshot).playback.status,
            )),
            ClientCommand::QueueSelected => if tracker.pending_transition == 0 && old(snapshot).search.selected_index
                >= old(snapshot).search.results@.len() {
                step is Reply && *final(snapshot) == *old(snapshot)
            } else {
                guarded_call(
                    *tracker,
                    *old(snapshot),
                    *final(snapshot),
                    step,
                    |c: QueueCall, id: Seq<char>|
                        c matches QueueCall::Add(s, t) && s@ == id && t == old(snapshot).search.results@[old(
                            snapshot,
                        ).search.selected_index as int],
                )
            },
            ClientCommand::QueueTrack(track) => guarded_call(
                *tracker,
                *old(snapshot),
                *final(snapshot),
                step,
                |c: QueueCall, id: Seq<char>| c matches QueueCall::Add(s, t) && s@ == id && t == track,
            ),
            ClientCommand::NextTrack => session_call(
                *tracker,
                *old(snapshot),
                *final(snapshot),
                step,
                |c: QueueCall, id: Seq<char>| c matches QueueCall::Next(s) && s@ == id,
            ),
            ClientCommand::PreviousTrack => session_call(
                *tracker,
                *old(snapshot),
                *final(snapshot),
                step,
                |c: QueueCall, id: Seq<char>| c matches QueueCall::Previous(s) && s@ == id,
            ),
            ClientCommand::ToggleShuffle => guarded_call(
                *tracker,
                *old(snapshot),
                *final(snapshot),
                step,
                |c: QueueCall, id: Seq<char>|
                    c matches QueueCall::SetShuffle(s, on) && s@ == id && on == !old(snapshot).playback.shuffle,
            ),
            ClientCommand::CycleRepeat => guarded_call(
                *tracker,
                *old(snapshot),
                *final(snapshot),
                step,
                |c: QueueCall, id: Seq<char>|
                    c matches QueueCall::SetRepeat(s, mode) && s@ == id && mode == next_repeat(
                        old(snapshot).playback.repeat_mode,
                    ),
            ),
            ClientCommand::PlayQueueIndex(row) => row_call(
                *tracker,
                *old(snapshot),
                *final(snapshot),
                step,
                row,
                |c: QueueCall, id: Seq<char>, index: usize| c matches QueueCall::PlayIndex(s, i) && s@ == id && i == index,
            ),
            ClientCommand::RemoveQueueIndex(row) => row_call(
                *tracker,
                *old(snapshot),
                *final(snapshot),
                step,
                row,
                |c: QueueCall, id: Seq<char>, index: usize| c matches QueueCall::Remove(s, i) && s@ == id && i == index,
            ),
            ClientCommand::ClearQueue => guarded_call(
                *tracker,
                *old(snapshot),
                *final(snapshot),
                step,
                |c: QueueCall, id: Seq<char>| c matches QueueCall::ClearUpcoming(s) && s@ == id,
            ),
            _ => false,
        },
{
    let pending = tracker.transition_pending();
    match command {
        ClientCommand::PlaySelected => {
            let selected = snapshot.search.selected_index;
            if selected >= snapshot.search.results.len() {
                return QueueStep::Reply;
            }
            let request = QueueStart {
                tracks: clone_tracks(snapshot.search.results.as_slice()),
                current_index: selected,
                endless_queue: true,
                ..QueueStart::default()
            };
            QueueStep::Call(QueueCall::Start(request, playback_start_for(snapshot.playback.status)))
        },
        ClientCommand::PlayTrack(track) => {
            let request = QueueStart {
                tracks: clone_tracks(snapshot.playback.queue.as_slice()),
                track: Some(track),
                current_index: 0,
                endless_queue: true,
                ..QueueStart::default()
            };
            QueueStep::Call(QueueCall::Start(request, playback_start_for(snapshot.playback.status)))
        },
        ClientCommand::QueueSelected => {
            if pending {
                queue_error(snapshot, "playback transition is pending");
                return QueueStep::Reply;
            }
            let selected = snapshot.search.selected_index;
            if selected >= snapshot.search.results.len() {
                return QueueStep::Reply;
            }
            let track = snapshot.search.results[selected].clone();
            match tracker.session_id() {
                Some(id) => QueueStep::Call(QueueCall::Add(id, track)),
                None => {
                    queue_error(snapshot, "no active backend queue session");
                    QueueStep::Reply
                },
            }
        },
        ClientCommand::QueueTrack(track) => {
            if pending {
                queue_error(snapshot, "playback transition is pending");
                return QueueStep::Reply;
            }
            match tracker.session_id() {
                Some(id) => QueueStep::Call(QueueCall::Add(id, track)),
                None => {
                    queue_error(snapshot, "no active backend queue session");
                    QueueStep::Reply
                },
            }
        },
        ClientCommand::NextTrack => match tracker.session_id() {
            Some(id) => QueueStep::Call(QueueCall::Next(id)),
            None => {
                queue_error(snapshot, "no active backend queue session");
                QueueStep::Reply
            },
        },
        ClientCommand::PreviousTrack => match tracker.session_id() {
            Some(id) => QueueStep::Call(QueueCall::Previous(id)),
            None => {
                queue_error(snapshot, "no active backend queue session");
                QueueStep::Reply
            },
        },
        ClientCommand::ToggleShuffle => {
            if pending {
                queue_error(snapshot, "playback transition is pending");
                return QueueStep::Reply;
            }
            match tracker.session_id() {
                Some(id) => QueueStep::Call(QueueCall::SetShuffle(id, !snapshot.playback.shuffle)),
                None => {
                    queue_error(snapshot, "no active backend queue session");
                    QueueStep::Reply
                },
            }
        },
        ClientCommand::CycleRepeat => {
            if pending {
                queue_error(snapshot, "playback transition is pending");
                return QueueStep::Reply;
            }
            let mode = match snapshot.playback.repeat_mode {
                RepeatMode::Off => QueueRepeatMode::All,
                RepeatMode::All => QueueRepeatMode::One,
                RepeatMode::One => QueueRepeatMode::Off,
            };
            match tracker.session_id() {
                Some(id) => QueueStep::Call(QueueCall::SetRepeat(id, mode)),
                None => {
                    queue_error(snapshot, "no active backend queue session");
                    QueueStep::Reply
                },
            }
        },
        ClientCommand::PlayQueueIndex(row) | ClientCommand::RemoveQueueIndex(row) => {
            let play = matches!(command, ClientCommand::PlayQueueIndex(_));
            if pending {
                queue_error(snapshot, "playback transition is pending");
                return QueueStep::Reply;
            }
            let (id, revision) = match tracker.session_info() {
                Some(info) => info,
                None => {
                    queue_error(snapshot, "no active backend queue session");
                    return QueueStep::Reply;
                },
            };
            match tracker.visible_backend_index(id.as_str(), revision, row) {
                Some(index) => if play {
                    QueueStep::Call(QueueCall::PlayIndex(id, index))
                } else {
                    QueueStep::Call(QueueCall::Remove(id, index))
                },
                None => {
                    queue_error(snapshot, "queue projection is stale");
                    QueueStep::Reply
                },
            }
        },
        ClientCommand::ClearQueue => {
            if pending {
                queue_error(snapshot, "playback transition is pending");
                return QueueStep::Reply;
            }
            match tracker.session_id() {
                Some(id) => QueueStep::Call(QueueCall::ClearUpcoming(id)),
                None => {
                    queue_error(snapshot, "no active backend queue session");
                    QueueStep::Reply
                },
            }
        },
        _ => QueueStep::Reply,
    }
}

/// What the daemon must do once the queue service answered.
#[derive(Debug)]
pub enum QueueFinish {
    /// Answer with the snapshot.
    Reply,
    /// Answer with the snapshot, then start `track` as request `request_id`; once
    /// it plays, the visible queue follows `session`, when there is one.
    Play { track: Track, request_id: u64, start: PlaybackStart, session: Option<QueueSession> },
}

/// What the queue service answers when none is configured.
pub open spec fn unconfigured_text() -> Seq<char> {
    "player queue is not configured"@
}

/// Whether `error` says that no queue service is configured.
pub open spec fn queue_not_configured(error: CatalogError) -> bool {
    error matches CatalogError::Unavailable(detail) && detail@ == unconfigured_text()
}

/// The error a daemon without a queue service answers every queue call with.
pub fn queue_not_configured_error() -> (error: CatalogError)
    ensures
        queue_not_configured(error),
{
    CatalogError::Unavailable("player queue is not configured".to_owned())
}

/// Whether `error` says that no queue service is configured.
pub fn is_queue_not_configured(error: &CatalogError) -> (unconfigured: bool)
    ensures
        unconfigured == queue_not_configured(*error),
{
    match error {
        CatalogError::Unavailable(detail) => detail.eq(&"player queue is not configured".to_owned()),
        _ => false,
    }
}

/// The track a start request plays without a queue service: the one asked for,
/// or the request's track at its position.
pub open spec fn local_start_track(request: QueueStart) -> Option<Track> {
    match request.track {
        Some(track) => Some(track),
        None => if request.current_index < request.tracks@.len() {
            Some(request.tracks@[request.current_index as int])
        } else {
            None
        },
    }
}

/// The tracks after position `index`.
fn tracks_after(tracks: &Vec<Track>, index: usize) -> (after: Vec<Track>)
    requires
        index < tracks.len(),
    ensures
        after@ == tracks@.subrange(index + 1, tracks@.len() as int),
{
    let mut after: Vec<Track> = Vec::new();
    let mut i = index + 1;
    while i < tracks.len()
        invariant
            index < i <= tracks@.len(),
            after@ == tracks@.subrange(index + 1, i as int),
        decreases tracks@.len() - i,
    {
        after.push(tracks[i].clone());
        i = i + 1;
        assert(after@ =~= tracks@.subrange(index + 1, i as int));
    }
    after
}

/// The queue shown without a queue service: with a track asked for, the request's
/// tracks; otherwise the request's tracks after its position.
pub open spec fn local_queue(request: QueueStart) -> Seq<Track> {
    match request.track {
        Some(_) => request.tracks@,
        None => request.tracks@.subrange(request.current_index + 1, request.tracks@.len() as int),
    }
}

/// The track at the session's current position, if it has one.
pub open spec fn current_track_of(session: QueueSession) -> Option<Track> {
    if session.current_index < session.tracks@.len() {
        Some(session.tracks@[session.current_index as int])
    } else {
        None
    }
}

/// The track a new session starts with: the one asked for, or the session's
/// current track, or the request's own track at its position.
pub open spec fn start_track(request: QueueStart, session: QueueSession) -> Option<Track> {
    match request.track {
        Some(track) => Some(track),
        None => match current_track_of(session) {
            Some(track) => Some(track),
            None => if request.current_index < request.tracks@.len() {
                Some(request.tracks@[request.current_index as int])
            } else {
                None
            },
        },
    }
}

/// Whether `finish` starts `track` with `start` for `session` as the request after
/// `before`'s, with the snapshot and the tracker's pending mark updated to match.
pub open spec fn starts(
    before: AppSnapshot,
    after: AppSnapshot,
    tracker: QueueTracker,
    finish: QueueFinish,
    track: Track,
    start: PlaybackStart,
    session: QueueSession,
) -> bool {
    &&& finish matches QueueFinish::Play { track: t, request_id, start: s, session: q } && t == track && s == start
        && q == Some(session) && request_id == bump(before.playback.request_id)
    &&& prepared(before, after, track)
    &&& tracker.pending_transition == bump(before.playback.request_id)
    &&& tracker.generation == bump(before.playback.request_id)
}

/// Whether `after` shows the outcome of a call that changes the session's queue:
/// an accepted session is projected, a refused one changes nothing, an error shows.
pub open spec fn edits_queue(
    before: AppSnapshot,
    after: AppSnapshot,
    tracker_before: QueueTracker,
    tracker_after: QueueTracker,
    outcome: Result<QueueSession, CatalogError>,
) -> bool {
    match outcome {
        Err(error) => shows_error(before, after, catalog_error_text(error)) && tracker_after == tracker_before,
        Ok(session) => if session_refused(tracker_before, session) {
            after == before && tracker_after == tracker_before
        } else {
            &&& accepted_into(tracker_before, QueueTracker { projection: tracker_before.projection, ..tracker_after }, session)
            &&& tracker_after.projection matches Some(p) && p.session_id@ == session.id@ && p.revision == session.revision
                && p.indices@ == projected_indices(session)
            &&& after.playback.queue@ == projected_tracks(session)
            &&& after.playback == (PlaybackSnapshot {
                queue: after.playback.queue,
                shuffle: session.shuffle,
                repeat_mode: repeat_mode_view(session.repeat_mode),
                ..before.playback
            })
            &&& after == (AppSnapshot { playback: after.playback, ..before })
        },
    }
}

/// Whether `after` shows the outcome of a call that moves playback through the
/// session: an error shows, a session without a current track is reported, a
/// refused session changes nothing, and an accepted one starts its current track.
pub open spec fn moves_playback(
    before: AppSnapshot,
    after: AppSnapshot,
    tracker_before: QueueTracker,
    tracker_after: QueueTracker,
    finish: QueueFinish,
    outcome: Result<QueueSession, CatalogError>,
    start: PlaybackStart,
) -> bool {
    match outcome {
        Err(error) => finish is Reply && shows_error(before, after, catalog_error_text(error)) && tracker_after == tracker_before,
        Ok(session) => match current_track_of(session) {
            None => finish is Reply && shows_error(before, after, no_current_text()) && tracker_after == tracker_before,
            Some(track) => if session_refused(tracker_before, session) {
                finish is Reply && after == before && tracker_after == tracker_before
            } else {
                &&& starts(before, after, tracker_after, finish, track, start, session)
                &&& accepted_into(tracker_before, QueueTracker { pending_transition: tracker_before.pending_transition, generation: tracker_before.generation, ..tracker_after }, session)
            },
        },
    }
}

/// Starts playing `track` as request number `request_id + 1`: the snapshot shows
/// it as `prepare_snapshot` does, and the new number becomes both the latest
/// request and the transition in progress.
pub fn prepare_track(snapshot: &mut AppSnapshot, tracker: &mut QueueTracker, track: &Track) -> (request_id: u64)
    ensures
        request_id == bump(old(snapshot).playback.request_id),
        final(snapshot).playback.request_id == request_id,
        prepared(*old(snapshot), *final(snapshot), *track),
        *final(tracker) == (QueueTracker { pending_transition: request_id, generation: request_id, ..*old(tracker) }),
{
    let request_id = prepare_snapshot(snapshot, track);
    tracker.begin_transition(request_id);
    request_id
}

/// The track at the session's current position.
fn session_current(session: &QueueSession) -> (track: Option<Track>)
    ensures
        track == current_track_of(*session),
{
    if session.current_index < session.tracks.len() {
        Some(session.tracks[session.current_index].clone())
    } else {
        None
    }
}

/// Applies the queue service's answer to `call`. A new session starts its track
/// and replaces the followed one; an error starting it fails playback. Moving
/// through the session starts the new current track once the session is accepted;
/// a failed move abandons the playback request in progress. Edits to the queue
/// project an accepted session. Other errors show as the playback error.
pub fn finish_queue_command(
    snapshot: &mut AppSnapshot,
    tracker: &mut QueueTracker,
    call: &QueueCall,
    outcome: Result<QueueSession, CatalogError>,
) -> (finish: QueueFinish)
    ensures
        match *call {
            QueueCall::Start(request, start) => match outcome {
                Err(error) => if queue_not_configured(error) {
                    match local_start_track(request) {
                        None => finish is Reply && *final(snapshot) == *old(snapshot) && *final(tracker) == *old(tracker),
                        Some(track) => {
                            let request_id = bump(old(snapshot).playback.request_id);
                            &&& finish matches QueueFinish::Play { track: t, request_id: r, start: s, session: q } && t == track
                                && r == request_id && s == start && q is None
                            &&& final(snapshot).playback.queue@ == local_queue(request)
                            &&& *final(snapshot) == (AppSnapshot {
                                playback: PlaybackSnapshot {
                                    queue: final(snapshot).playback.queue,
                                    ..prepared_view(*old(snapshot), track).playback
                                },
                                ..*old(snapshot)
                            })
                            &&& *final(tracker) == (QueueTracker { pending_transition: request_id, generation: request_id, ..*old(tracker) })
                        },
                    }
                } else {
                    finish is Reply && *final(tracker) == *old(tracker)
                    && (final(snapshot).playback.error matches Some(e) && e@ == catalog_error_text(error))
                    && final(snapshot).playback == (PlaybackSnapshot {
                        error: final(snapshot).playback.error,
                        status: PlaybackStatus::Failed,
                        ..old(snapshot).playback
                    }) && *final(snapshot) == (AppSnapshot { playback: final(snapshot).playback, ..*old(snapshot) })
                },
                Ok(session) => match start_track(request, session) {
                    None => finish is Reply && *final(snapshot) == *old(snapshot) && *final(tracker) == *old(tracker),
                    Some(track) => starts(*old(snapshot), *final(snapshot), *final(tracker), finish, track, start, session)
                        && replaced_by(*old(tracker), QueueTracker { pending_transition: old(tracker).pending_transition, generation: old(tracker).generation, ..*final(tracker) }, session),
                },
            },
            QueueCall::Next(_) | QueueCall::Previous(_) => match outcome {
                Err(error) => finish is Reply && shows_error(superseded_view(*old(snapshot)), *final(snapshot), catalog_error_text(error))
                    && *final(tracker) == (QueueTracker {
                        pending_transition: if old(tracker).pending_transition == old(snapshot).playback.request_id {
                            0
                        } else {
                            old(tracker).pending_transition
                        },
                        generation: bump(old(snapshot).playback.request_id),
                        ..*old(tracker)
                    }),
                Ok(_) => moves_playback(*old(snapshot), *final(snapshot), *old(tracker), *final(tracker), finish, outcome, start_for(old(snapshot).playback.status)),
            },
            QueueCall::PlayIndex(..) => moves_playback(*old(snapshot), *final(snapshot), *old(tracker), *final(tracker), finish, outcome, PlaybackStart::Crossfade(500)),
            _ => finish is Reply && edits_queue(*old(snapshot), *final(snapshot), *old(tracker), *final(tracker), outcome),
        },
{
    match call {
        QueueCall::Start(request, start) => match outcome {
            Err(error) => {
                if is_queue_not_configured(&error) {
                    let track = match &request.track {
                        Some(track) => track.clone(),
                        None => if request.current_index < request.tracks.len() {
                            request.tracks[request.current_index].clone()
                        } else {
                            return QueueFinish::Reply;
                        },
                    };
                    let request_id = prepare_track(snapshot, tracker, &track);
                    snapshot.playback.queue = match &request.track {
                        Some(_) => clone_tracks(request.tracks.as_slice()),
                        None => tracks_after(&request.tracks, request.current_index),
                    };
                    return QueueFinish::Play { track, request_id, start: *start, session: None };
                }
                snapshot.playback.error = Some(error.message());
                snapshot.playback.status = PlaybackStatus::Failed;
                QueueFinish::Reply
            },
            Ok(session) => {
                let track = match &request.track {
                    Some(track) => track.clone(),
                    None => match session_current(&session) {
                        Some(track) => track,
                        None => if request.current_index < request.tracks.len() {
                            request.tracks[request.current_index].clone()
                        } else {
                            return QueueFinish::Reply;
                        },
                    },
                };
                let request_id = prepare_track(snapshot, tracker, &track);
                tracker.replace_session(&session);
                QueueFinish::Play { track, request_id, start: *start, session: Some(session) }
            },
        },
        QueueCall::Next(_) | QueueCall::Previous(_) | QueueCall::PlayIndex(..) => {
            let start = match call {
                QueueCall::PlayIndex(..) => PlaybackStart::Crossfade(500),
                _ => playback_start_for(snapshot.playback.status),
            };
            match outcome {
                Err(error) => {
                    if !matches!(call, QueueCall::PlayIndex(..)) {
                        let superseded = supersede_playback(snapshot);
                        tracker.abandon_transition(superseded, snapshot.playback.request_id);
                    }
                    let text = error.message();
                    queue_error(snapshot, text.as_str());
                    QueueFinish::Reply
                },
                Ok(session) => {
                    let track = match session_current(&session) {
                        Some(track) => track,
                        None => {
                            queue_error(snapshot, "backend queue returned no current track");
                            return QueueFinish::Reply;
                        },
                    };
                    if !tracker.accept_session(&session) {
                        return QueueFinish::Reply;
                    }
                    let request_id = prepare_track(snapshot, tracker, &track);
                    QueueFinish::Play { track, request_id, start, session: Some(session) }
                },
            }
        },
        _ => {
            match outcome {
                Err(error) => {
                    let text = error.message();
                    queue_error(snapshot, text.as_str());
                },
                Ok(session) => {
                    if tracker.accept_session(&session) {
                        tracker.project_queue_for(snapshot, &session);
                    }
                },
            }
            QueueFinish::Reply
        },
    }
}

/// What playback looked like when a telemetry tick began.
#[derive(Debug)]
pub struct TelemetryTick {
    pub session_id: String,
    pub revision: i64,
    pub current_index: usize,
    pub visible_count: usize,
    pub current_track_id: Option<String>,
}

/// What the daemon must do for a telemetry tick.
#[derive(Debug)]
pub enum TelemetryAction {
    /// Nothing more; the report is in the snapshot.
    Done,
    /// Ask the queue service for more radio tracks, then `finish_refill`.
    Refill(TelemetryTick),
    /// Ask the queue service for the next track, then `finish_advance`.
    Advance(TelemetryTick),
}

/// Whether `tick` describes the followed session `id` at `revision` with the
/// tracker's position and the snapshot's queue length and current track.
pub open spec fn tick_of(tick: TelemetryTick, id: Seq<char>, revision: i64, tracker: QueueTracker, snapshot: AppSnapshot) -> bool {
    &&& tick.session_id@ == id
    &&& tick.revision == revision
    &&& tick.current_index == tracker.current_index
    &&& tick.visible_count == snapshot.playback.queue@.len()
    &&& opt_text(tick.current_track_id) == match snapshot.playback.current {
        Some(track) => Some(track.id@),
        None => None,
    }
}

/// Whether the tick advances: the player should move on and no failed advance
/// from this position holds it back.
pub open spec fn advance_due(snapshot: AppSnapshot, tracker: QueueTracker, telemetry: BackendTelemetry, tick: TelemetryTick, now: u64) -> bool {
    should_advance_view(
        snapshot.playback.status,
        snapshot.playback.error is Some,
        snapshot.settings.crossfade_seconds,
        snapshot.playback.queue@.len(),
        telemetry,
        tracker.pending_transition != 0,
    ) && advance_permitted(tracker, tick.session_id@, tick.revision, tick.current_index, now)
}

/// Decides whether the tick advances; when it does not, the report goes into the
/// snapshot.
pub fn advance_step(
    snapshot: &mut AppSnapshot,
    tracker: &QueueTracker,
    telemetry: &BackendTelemetry,
    tick: TelemetryTick,
    now_ms: u64,
) -> (action: TelemetryAction)
    ensures
        advance_due(*old(snapshot), *tracker, *telemetry, tick, now_ms) ==> (action matches TelemetryAction::Advance(t) && t == tick)
            && *final(snapshot) == *old(snapshot),
        !advance_due(*old(snapshot), *tracker, *telemetry, tick, now_ms) ==> action is Done && *final(snapshot)
            == with_telemetry(*old(snapshot), *telemetry),
{
    if should_advance(snapshot, telemetry, tracker.transition_pending()) && tracker.auto_advance_allowed_at(
        tick.session_id.as_str(),
        tick.revision,
        tick.current_index,
        now_ms,
    ) {
        TelemetryAction::Advance(tick)
    } else {
        apply_telemetry(snapshot, telemetry);
        TelemetryAction::Done
    }
}

/// Starts a telemetry tick. Without a session the report goes into the snapshot.
/// An endless session whose visible queue is short is refilled first, unless a
/// track is starting, the last refill at this length brought nothing, or a failed
/// refill waits out its delay; the refill is then in flight. Otherwise the tick
/// advances when `advance_step` says so.
pub fn telemetry_step(
    snapshot: &mut AppSnapshot,
    tracker: &mut QueueTracker,
    telemetry: &BackendTelemetry,
    now_ms: u64,
) -> (action: TelemetryAction)
    ensures
        match old(tracker).session {
            None => action is Done && *final(snapshot) == with_telemetry(*old(snapshot), *telemetry) && *final(tracker)
                == *old(tracker),
            Some((id, revision)) => {
                let visible = old(snapshot).playback.queue@.len();
                let eligible = old(tracker).pending_transition == 0 && old(tracker).endless && visible
                    < MAX_VISIBLE_QUEUE;
                &&& eligible ==> refill_checked(
                    *old(tracker),
                    QueueTracker { refill_in_flight: old(tracker).refill_in_flight, ..*final(tracker) },
                    id@,
                    revision,
                    visible as usize,
                    now_ms,
                )
                &&& if eligible && refill_permitted(*old(tracker), id@, revision, visible as usize, now_ms) {
                    &&& action matches TelemetryAction::Refill(t) && tick_of(t, id@, revision, *old(tracker), *old(snapshot))
                    &&& final(tracker).refill_in_flight
                    &&& *final(snapshot) == *old(snapshot)
                } else {
                    &&& final(tracker).refill_in_flight == old(tracker).refill_in_flight
                    &&& !eligible ==> *final(tracker) == *old(tracker)
                    &&& match action {
                        TelemetryAction::Advance(t) => tick_of(t, id@, revision, *old(tracker), *old(snapshot))
                            && advance_due(*old(snapshot), *final(tracker), *telemetry, t, now_ms)
                            && *final(snapshot) == *old(snapshot),
                        TelemetryAction::Done => *final(snapshot) == with_telemetry(*old(snapshot), *telemetry)
                            && forall|t: TelemetryTick| #[trigger] tick_of(t, id@, revision, *old(tracker), *old(snapshot))
                                ==> !advance_due(*old(snapshot), *final(tracker), *telemetry, t, now_ms),
                        TelemetryAction::Refill(_) => false,
                    }
                }
            },
        },
{
    let (id, revision) = match tracker.session_info() {
        Some(info) => info,
        None => {
            apply_telemetry(snapshot, telemetry);
            return TelemetryAction::Done;
        },
    };
    let visible_count = snapshot.playback.queue.len();
    let current_track_id = match &snapshot.playback.current {
        Some(track) => Some(track.id.clone()),
        None => None,
    };
    let tick = TelemetryTick { session_id: id, revision, current_index: tracker.current_index, visible_count, current_track_id };
    let eligible = !tracker.transition_pending() && tracker.endless && visible_count < MAX_VISIBLE_QUEUE;
    if eligible && tracker.refill_allowed_at(tick.session_id.as_str(), revision, visible_count, now_ms) {
        tracker.refill_in_flight = true;
        return TelemetryAction::Refill(tick);
    }
    let ghost pre = *snapshot;
    let action = advance_step(snapshot, tracker, telemetry, tick, now_ms);
    proof {
        assert forall|t: TelemetryTick| #[trigger] tick_of(t, id@, revision, *old(tracker), pre) && !(action is Advance)
            implies !advance_due(pre, *tracker, *telemetry, t, now_ms) by {}
    }
    action
}

/// Applies the answer to a refill: an accepted session is projected and a refill
/// that did not grow the queue is remembered; a failure counts towards the delay.
/// The refill is no longer in flight.
pub fn finish_refill(
    snapshot: &mut AppSnapshot,
    tracker: &mut QueueTracker,
    tick: &TelemetryTick,
    outcome: Result<QueueSession, CatalogError>,
    now_ms: u64,
)
    requires
        old(tracker).refill_in_flight,
    ensures
        !final(tracker).refill_in_flight,
        match outcome {
            Err(_) => *final(snapshot) == *old(snapshot) && refill_error_backoff(
                old(tracker).refill_backoff,
                final(tracker).refill_backoff,
                tick.session_id@,
                tick.revision,
                now_ms,
            ) && *final(tracker) == (QueueTracker {
                refill_backoff: final(tracker).refill_backoff,
                refill_in_flight: false,
                ..*old(tracker)
            }),
            Ok(session) => if session_refused(*old(tracker), session) {
                *final(snapshot) == *old(snapshot) && refill_result_marker(
                    final(tracker).refill_marker,
                    tick.session_id@,
                    session.revision,
                    tick.visible_count,
                    tick.visible_count,
                ) && *final(tracker) == (QueueTracker {
                    refill_marker: final(tracker).refill_marker,
                    refill_in_flight: false,
                    ..*old(tracker)
                })
            } else {
                &&& edits_queue(
                    *old(snapshot),
                    *final(snapshot),
                    *old(tracker),
                    QueueTracker {
                        refill_marker: old(tracker).refill_marker,
                        refill_in_flight: true,
                        ..*final(tracker)
                    },
                    outcome,
                )
                &&& refill_result_marker(
                    final(tracker).refill_marker,
                    tick.session_id@,
                    session.revision,
                    tick.visible_count,
                    final(snapshot).playback.queue@.len() as usize,
                )
            },
        },
{
    match outcome {
        Ok(session) => {
            let mut updated = tick.visible_count;
            if tracker.accept_session(&session) {
                tracker.project_queue_for(snapshot, &session);
                updated = snapshot.playback.queue.len();
            }
            tracker.record_refill_result(tick.session_id.as_str(), session.revision, tick.visible_count, updated);
        },
        Err(_) => {
            tracker.record_refill_error_at(tick.session_id.as_str(), tick.revision, now_ms);
        },
    }
    tracker.refill_in_flight = false;
}

/// `snapshot` with the report applied unless the track ended.
pub open spec fn unless_ended(snapshot: AppSnapshot, telemetry: BackendTelemetry) -> AppSnapshot {
    if telemetry.ended { snapshot } else { with_telemetry(snapshot, telemetry) }
}

/// Applies the answer to an automatic advance. A session that stayed where it was
/// stops automatic advancing for good. Otherwise the hold on advancing is lifted
/// and an accepted session starts its current track, replacing an ended one or
/// crossfading over a second. A failure counts towards the delay, and stops
/// advancing for good when the queue cannot move on. Unless the track ended or
/// the session stayed put or named no track, the report goes into the snapshot.
pub fn finish_advance(
    snapshot: &mut AppSnapshot,
    tracker: &mut QueueTracker,
    telemetry: &BackendTelemetry,
    tick: &TelemetryTick,
    outcome: Result<QueueSession, CatalogError>,
    now_ms: u64,
) -> (finish: QueueFinish)
    ensures
        match outcome {
            Err(error) => finish is Reply && advance_error_marker(
                old(tracker).auto_advance,
                final(tracker).auto_advance,
                tick.session_id@,
                tick.revision,
                tick.current_index,
                terminal_queue_message(catalog_error_text(error)),
                now_ms,
            ) && *final(tracker) == (QueueTracker { auto_advance: final(tracker).auto_advance, ..*old(tracker) })
                && *final(snapshot) == unless_ended(*old(snapshot), *telemetry),
            Ok(session) => if made_no_progress(session, tick.current_index, opt_text(tick.current_track_id)) {
                finish is Reply && advance_error_marker(
                    old(tracker).auto_advance,
                    final(tracker).auto_advance,
                    tick.session_id@,
                    tick.revision,
                    tick.current_index,
                    true,
                    now_ms,
                ) && *final(tracker) == (QueueTracker { auto_advance: final(tracker).auto_advance, ..*old(tracker) })
                    && *final(snapshot) == *old(snapshot)
            } else {
                let cleared = QueueTracker { auto_advance: None, ..*old(tracker) };
                match current_track_of(session) {
                    None => finish is Reply && *final(tracker) == cleared && *final(snapshot) == *old(snapshot),
                    Some(track) => if session_refused(cleared, session) {
                        finish is Reply && *final(tracker) == cleared && *final(snapshot) == unless_ended(*old(snapshot), *telemetry)
                    } else {
                        &&& finish matches QueueFinish::Play { track: t, request_id, start, session: q } && t == track && q
                            == Some(session) && request_id == bump(old(snapshot).playback.request_id) && start == (if telemetry.ended {
                            PlaybackStart::Replace
                        } else {
                            PlaybackStart::Crossfade(1000)
                        })
                        &&& *final(snapshot) == unless_ended(prepared_view(*old(snapshot), track), *telemetry)
                        &&& final(tracker).pending_transition == bump(old(snapshot).playback.request_id)
                        &&& final(tracker).generation == bump(old(snapshot).playback.request_id)
                        &&& accepted_into(cleared, QueueTracker { pending_transition: cleared.pending_transition, generation: cleared.generation, ..*final(tracker) }, session)
                    },
                }
            },
        },
{
    match outcome {
        Ok(session) => {
            if advance_made_no_progress(&session, tick.current_index, &tick.current_track_id) {
                tracker.record_auto_advance_error_at(tick.session_id.as_str(), tick.revision, tick.current_index, true, now_ms);
                return QueueFinish::Reply;
            }
            tracker.clear_auto_advance_marker();
            let track = match session_current(&session) {
                Some(track) => track,
                None => return QueueFinish::Reply,
            };
            let mut finish = QueueFinish::Reply;
            if tracker.accept_session(&session) {
                let request_id = prepare_track(snapshot, tracker, &track);
                let start = if telemetry.ended { PlaybackStart::Replace } else { PlaybackStart::Crossfade(1000) };
                finish = QueueFinish::Play { track, request_id, start, session: Some(session) };
            }
            if !telemetry.ended {
                apply_telemetry(snapshot, telemetry);
            }
            finish
        },
        Err(error) => {
            let terminal = is_terminal_queue_error(&error);
            tracker.record_auto_advance_error_at(tick.session_id.as_str(), tick.revision, tick.current_index, terminal, now_ms);
            if !telemetry.ended {
                apply_telemetry(snapshot, telemetry);
            }
            QueueFinish::Reply
        },
    }
}

/// Applies how the audio engine handled request `request_id` for `track`, started
/// for `session` when one is given: as `finish_playback`, and once the track plays
/// the visible queue follows the session. The request's transition is over.
pub fn finish_queued_playback(
    snapshot: &mut AppSnapshot,
    tracker: &mut QueueTracker,
    request_id: u64,
    track: &Track,
    session: Option<&QueueSession>,
    result: Result<(), String>,
) -> (finish: PlaybackFinish)
    ensures
        final(tracker).pending_transition == (if old(tracker).pending_transition == request_id {
            0
        } else {
            old(tracker).pending_transition
        }),
        request_id != old(snapshot).playback.request_id ==> finish is Stale && *final(snapshot) == *old(snapshot)
            && *final(tracker) == (QueueTracker { pending_transition: final(tracker).pending_transition, ..*old(tracker) }),
        request_id == old(snapshot).playback.request_id ==> match result {
            Ok(()) => {
                &&& finish is Started
                &&& final(snapshot).playback.current == Some(*track)
                &&& final(snapshot).playback.status == PlaybackStatus::Playing
                &&& final(snapshot).playback.error is None
                &&& final(snapshot).playback.history@ == history_after(
                    old(snapshot).playback.history@,
                    old(snapshot).playback.current,
                    *track,
                )
                &&& match session {
                    Some(s) => final(snapshot).playback.queue@ == projected_tracks(*s)
                        && final(snapshot).playback.shuffle == s.shuffle
                        && final(snapshot).playback.repeat_mode == repeat_mode_view(s.repeat_mode)
                        && (final(tracker).projection matches Some(p) && p.session_id@ == s.id@ && p.revision == s.revision
                            && p.indices@ == projected_indices(*s)),
                    None => final(snapshot).playback.queue == old(snapshot).playback.queue
                        && final(tracker).projection == old(tracker).projection,
                }
            },
            Err(error) => finish is Failed && final(snapshot).playback.error == Some(error)
                && final(snapshot).playback.current == old(snapshot).playback.current
                && final(tracker).projection == old(tracker).projection,
        },
        final(snapshot).playback.request_id == old(snapshot).playback.request_id,
        final(tracker).session == old(tracker).session,
{
    if snapshot.playback.request_id == request_id && result.is_ok() {
        if let Some(session) = session {
            tracker.project_queue_for(snapshot, session);
        }
    }
    let finish = finish_playback(snapshot, request_id, track, result);
    tracker.clear_pending_transition(request_id);
    finish
}

/// Once a track starts as the request after `request_id`, every command that edits
/// the queue is refused with the pending-transition text, and nothing else
/// changes, until that track's playback is finished.
pub proof fn lemma_starting_track_blocks_queue_edits(
    request_id: u64,
    tracker: QueueTracker,
    before: AppSnapshot,
    after: AppSnapshot,
    step: QueueStep,
    row: usize,
    wanted: spec_fn(QueueCall, Seq<char>) -> bool,
    wanted_row: spec_fn(QueueCall, Seq<char>, usize) -> bool,
)
    requires
        tracker.pending_transition == bump(request_id),
    ensures
        guarded_call(tracker, before, after, step, wanted) ==> step is Reply && shows_error(before, after, pending_text()),
        row_call(tracker, before, after, step, row, wanted_row) ==> step is Reply && shows_error(before, after, pending_text()),
{
}

/// Audio work for a request that a newer one superseded makes no backend call: its
/// guard asks whether the request is still the latest, and the answer is no.
pub proof fn lemma_superseded_request_makes_no_call(
    tracker: QueueTracker,
    request_id: u64,
    events: Seq<BackendEvent>,
    source: StreamSource,
    result: Result<(), BackendError>,
)
    requires
        tracker.generation != request_id,
        transition_events(events, TransitionPhase::Begin, source, result),
        forall|i: int| 0 <= i < events.len() && #[trigger] events[i] is Asked ==> events[i]->Asked_0 == (tracker.generation
            == request_id),
    ensures
        result is Ok,
        events == seq![BackendEvent::Asked(false)],
{
    lemma_refused_transition_makes_no_call(events, source, result);
}

/// Where a repeat mode stands in the cycle off, all, one.
pub open spec fn repeat_rank(mode: RepeatMode) -> int {
    match mode {
        RepeatMode::Off => 0,
        RepeatMode::All => 1,
        RepeatMode::One => 2,
    }
}

/// Cycling the repeat mode asks for the mode after the shown one in the cycle
/// off, all, one: never the shown mode, and three cycles from any mode visit all
/// three and come back to it.
pub proof fn lemma_repeat_cycles_through_every_mode(mode: RepeatMode)
    ensures
        ({
            let once = repeat_mode_view(next_repeat(mode));
            let twice = repeat_mode_view(next_repeat(once));
            let thrice = repeat_mode_view(next_repeat(twice));
            &&& repeat_rank(once) == (repeat_rank(mode) + 1) % 3
            &&& once != mode && twice != mode && twice != once
            &&& thrice == mode
        }),
{
}

} // verus!
