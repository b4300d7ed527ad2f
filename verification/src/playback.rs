use vstd::prelude::*;

use crate::audio::BackendTelemetry;
use crate::catalog::{CatalogError, Lyrics, QueueRepeatMode, QueueSession, SearchRequest, catalog_error_text, clamp, MAX_SEARCH_RESULTS};
use crate::navigation::{spec_back, spec_open};
use crate::protocol::{AppSnapshot, PlaybackSnapshot, ClientCommand, DownloadStatus, LyricsLineSnapshot, LyricsStatus, PlaybackStatus, PROTOCOL_VERSION, SearchStatus};
use crate::text::{concat, contains_view, decimal, decimal_string, to_ascii_lowercase, ascii_lowercase_view, contains_str, trimmed};
use crate::track::Track;

verus! {

/// How many tracks the history keeps.
pub const MAX_HISTORY: usize = 100;

/// How many results a search from the client asks for.
pub const CLIENT_SEARCH_LIMIT: usize = 30;

/// The most seconds a crossfade may last.
pub const MAX_CROSSFADE_SECONDS: u8 = 12;

/// How a new track takes over from the one playing.
#[derive(Clone, Copy, Debug, PartialEq, Eq, Structural)]
pub enum PlaybackStart {
    Replace,
    Crossfade(u64),
}

/// An operation on the audio engine, and how its success changes the snapshot.
#[derive(Clone, Copy, Debug, PartialEq, Eq, Structural)]
pub enum AudioOp {
    Pause,
    Resume,
    Seek(u64),
    Volume(u8),
    Mute { percent: u8, muted: bool },
}

/// What the daemon must do after a command has updated the snapshot.
#[derive(Debug)]
pub enum CommandStep {
    /// Answer with the snapshot.
    Reply,
    /// Answer with a refusal.
    Reject(String),
    /// Acknowledge and shut down.
    Shutdown,
    /// Answer with the snapshot, then run this search in the background.
    Search(SearchRequest, u64),
    /// Answer with the snapshot, then load the lyrics of this track.
    LoadLyrics(Track),
    /// Store the crossfade length, then apply it with `finish_crossfade_save`.
    SaveCrossfade(u8),
    /// Run the operation on the audio engine, then apply it with `finish_audio`.
    Audio(AudioOp),
    /// The command needs the queue service, the catalog or storage.
    Service(ClientCommand),
}

/// The text of a refused greeting.
pub open spec fn unsupported_version_text(version: u16) -> Seq<char> {
    "unsupported protocol version "@ + decimal(version as nat)
}

/// A search request as `SearchRequest::new` builds it from the client's query.
pub open spec fn client_search(query: Seq<char>) -> bool {
    trimmed(query).len() > 0
}

/// `a + 1`, stopping at `u64::MAX`.
pub open spec fn bump(a: u64) -> u64 {
    if a == u64::MAX { a } else { (a + 1) as u64 }
}

/// The playback position a relative seek lands on: within `[0, duration]`.
pub open spec fn seek_target(position: u64, offset: i64, duration: u64) -> u64 {
    clamp(position + offset, 0, duration as int) as u64
}

/// Whether `after` is `before` once `track` starts as the next request: the
/// request number moves on, and with nothing current the track shows resolving
/// with its duration and no error. Nothing else changes.
pub open spec fn prepared(before: AppSnapshot, after: AppSnapshot, track: Track) -> bool {
    after == prepared_view(before, track)
}

/// `before` once `track` starts as the next request.
pub open spec fn prepared_view(before: AppSnapshot, track: Track) -> AppSnapshot {
    AppSnapshot {
        playback: if before.playback.current is None {
            PlaybackSnapshot {
                request_id: bump(before.playback.request_id),
                duration_ms: track.duration_ms,
                error: None,
                status: PlaybackStatus::Resolving,
                ..before.playback
            }
        } else {
            PlaybackSnapshot { request_id: bump(before.playback.request_id), ..before.playback }
        },
        ..before
    }
}

/// `before` with the request number moved on and nothing else changed.
pub open spec fn superseded_view(before: AppSnapshot) -> AppSnapshot {
    AppSnapshot {
        playback: PlaybackSnapshot { request_id: bump(before.playback.request_id), ..before.playback },
        ..before
    }
}

/// Starts playing `track` as request number `request_id + 1`. With nothing
/// playing, the snapshot shows the track resolving; otherwise the playing track
/// stays on screen until the new one starts.
pub fn prepare_snapshot(snapshot: &mut AppSnapshot, track: &Track) -> (request_id: u64)
    ensures
        request_id == bump(old(snapshot).playback.request_id),
        final(snapshot).playback.request_id == request_id,
        prepared(*old(snapshot), *final(snapshot), *track),
        old(snapshot).playback.current is None ==> final(snapshot).playback.duration_ms == track.duration_ms
            && final(snapshot).playback.error is None && final(snapshot).playback.status == PlaybackStatus::Resolving,
        old(snapshot).playback.current is Some ==> final(snapshot).playback.duration_ms == old(snapshot).playback.duration_ms
            && final(snapshot).playback.error == old(snapshot).playback.error
            && final(snapshot).playback.status == old(snapshot).playback.status,
        final(snapshot).playback.current == old(snapshot).playback.current,
        final(snapshot).playback.queue == old(snapshot).playback.queue,
        final(snapshot).playback.history == old(snapshot).playback.history,
        final(snapshot).search == old(snapshot).search,
        final(snapshot).navigation == old(snapshot).navigation,
        final(snapshot).lyrics == old(snapshot).lyrics,
        final(snapshot).library == old(snapshot).library,
        final(snapshot).settings == old(snapshot).settings,
{
    snapshot.playback.request_id = snapshot.playback.request_id.saturating_add(1);
    if snapshot.playback.current.is_none() {
        snapshot.playback.duration_ms = track.duration_ms;
        snapshot.playback.error = None;
        snapshot.playback.status = PlaybackStatus::Resolving;
    }
    snapshot.playback.request_id
}

/// Abandons the playback request in progress: the request number moves on, and
/// the superseded number is returned.
pub fn supersede_playback(snapshot: &mut AppSnapshot) -> (superseded: u64)
    ensures
        superseded == old(snapshot).playback.request_id,
        final(snapshot).playback.request_id == bump(old(snapshot).playback.request_id),
        *final(snapshot) == superseded_view(*old(snapshot)),
        final(snapshot).playback.current == old(snapshot).playback.current,
        final(snapshot).playback.status == old(snapshot).playback.status,
        final(snapshot).playback.error == old(snapshot).playback.error,
        final(snapshot).playback.queue == old(snapshot).playback.queue,
        final(snapshot).search == old(snapshot).search,
        final(snapshot).navigation == old(snapshot).navigation,
        final(snapshot).lyrics == old(snapshot).lyrics,
{
    let superseded = snapshot.playback.request_id;
    snapshot.playback.request_id = snapshot.playback.request_id.saturating_add(1);
    superseded
}

/// Records a playback error. Without a current track, playback has failed; with
/// one, it keeps playing and only the error shows.
pub fn set_playback_error(snapshot: &mut AppSnapshot, error: String)
    ensures
        final(snapshot).playback.error == Some(error),
        final(snapshot).playback.status == (if old(snapshot).playback.current is None {
            PlaybackStatus::Failed
        } else {
            old(snapshot).playback.status
        }),
        final(snapshot).playback.current == old(snapshot).playback.current,
        final(snapshot).playback.request_id == old(snapshot).playback.request_id,
        final(snapshot).playback.queue == old(snapshot).playback.queue,
        final(snapshot).playback.history == old(snapshot).playback.history,
        final(snapshot).playback.volume_percent == old(snapshot).playback.volume_percent,
        final(snapshot).playback.position_ms == old(snapshot).playback.position_ms,
        final(snapshot).playback == (PlaybackSnapshot {
            error: final(snapshot).playback.error,
            status: final(snapshot).playback.status,
            ..old(snapshot).playback
        }),
        *final(snapshot) == (AppSnapshot { playback: final(snapshot).playback, ..*old(snapshot) }),
{
    if snapshot.playback.current.is_none() {
        snapshot.playback.status = PlaybackStatus::Failed;
    }
    snapshot.playback.error = Some(error);
}

/// Whether `after` is `before` with `text` shown as a playback error: playback
/// fails when nothing is current, and nothing else changes.
pub open spec fn shows_error(before: AppSnapshot, after: AppSnapshot, text: Seq<char>) -> bool {
    &&& after.playback.error matches Some(e) && e@ == text
    &&& after.playback.status == (if before.playback.current is None {
        PlaybackStatus::Failed
    } else {
        before.playback.status
    })
    &&& after.playback == (PlaybackSnapshot { error: after.playback.error, status: after.playback.status, ..before.playback })
    &&& after == (AppSnapshot { playback: after.playback, ..before })
}

/// Records that a queue operation failed with `message`.
pub fn queue_error(snapshot: &mut AppSnapshot, message: &str)
    ensures
        shows_error(*old(snapshot), *final(snapshot), message@),
        final(snapshot).playback.current == old(snapshot).playback.current,
        final(snapshot).playback.request_id == old(snapshot).playback.request_id,
        final(snapshot).playback.queue == old(snapshot).playback.queue,
        final(snapshot).search == old(snapshot).search,
        final(snapshot).navigation == old(snapshot).navigation,
        final(snapshot).lyrics == old(snapshot).lyrics,
{
    set_playback_error(snapshot, message.to_owned());
}

/// The history after `previous` stops being current and `track` starts: the
/// previous track is remembered unless it is the one starting again or already
/// the most recent entry, and only the latest hundred entries are kept.
pub open spec fn history_after(history: Seq<Track>, previous: Option<Track>, track: Track) -> Seq<Track> {
    match previous {
        Some(p) => if p.id@ != track.id@ && (history.len() == 0 || history.last().id@ != p.id@) {
            let longer = history.push(p);
            if longer.len() > MAX_HISTORY { longer.drop_first() } else { longer }
        } else {
            history
        },
        None => history,
    }
}

/// Makes `track` the current track, moving the previous one into the history.
pub fn commit_playback_current(snapshot: &mut AppSnapshot, track: &Track)
    ensures
        final(snapshot).playback.current == Some(*track),
        final(snapshot).playback.history@ == history_after(old(snapshot).playback.history@, old(snapshot).playback.current, *track),
        final(snapshot).playback == (PlaybackSnapshot {
            current: Some(*track),
            history: final(snapshot).playback.history,
            ..old(snapshot).playback
        }),
        *final(snapshot) == (AppSnapshot { playback: final(snapshot).playback, ..*old(snapshot) }),
{
    let previous = snapshot.playback.current.take();
    snapshot.playback.current = Some(track.clone());
    if let Some(previous) = previous {
        let repeated = match snapshot.playback.history.last() {
            Some(last) => last.id.eq(&previous.id),
            None => false,
        };
        if !previous.id.eq(&track.id) && !repeated {
            snapshot.playback.history.push(previous);
            if snapshot.playback.history.len() > MAX_HISTORY {
                let ghost longer = snapshot.playback.history@;
                snapshot.playback.history.remove(0);
                assert(snapshot.playback.history@ =~= longer.drop_first());
            }
        }
    }
}

/// How a new track replaces the current one: crossfading over half a second when
/// something is playing or paused, replacing it otherwise.
pub fn playback_start_for(status: PlaybackStatus) -> (start: PlaybackStart)
    ensures
        start == (if status == PlaybackStatus::Playing || status == PlaybackStatus::Paused {
            PlaybackStart::Crossfade(500)
        } else {
            PlaybackStart::Replace
        }),
{
    if status == PlaybackStatus::Playing || status == PlaybackStatus::Paused {
        PlaybackStart::Crossfade(500)
    } else {
        PlaybackStart::Replace
    }
}


/// Whether a command needs the queue service, the catalog or storage.
pub open spec fn is_service_command(command: ClientCommand) -> bool {
    match command {
        ClientCommand::PlaySelected | ClientCommand::QueueSelected | ClientCommand::PlayTrack(_)
        | ClientCommand::QueueTrack(_) | ClientCommand::ToggleLike(_) | ClientCommand::DownloadTrack(_)
        | ClientCommand::NextTrack | ClientCommand::PreviousTrack | ClientCommand::ToggleShuffle
        | ClientCommand::CycleRepeat | ClientCommand::PlayQueueIndex(_) | ClientCommand::RemoveQueueIndex(_)
        | ClientCommand::ClearQueue => true,
        _ => false,
    }
}

/// The sound level a mute toggle switches to, and whether it mutes.
pub open spec fn mute_target(muted: bool, volume_before_mute: u8) -> (u8, bool) {
    if muted { (if volume_before_mute > 1 { volume_before_mute } else { 1 }, false) } else { (0, true) }
}

/// Applies what a client asked for to `snapshot` and says what is left to do.
/// Screen and selection changes happen here; anything that needs the audio
/// engine, the catalog, the queue service or storage is handed back as a step.
pub fn plan_command(snapshot: &mut AppSnapshot, command: ClientCommand) -> (step: CommandStep)
    ensures
        match command {
            ClientCommand::Hello { protocol_version } => if protocol_version != PROTOCOL_VERSION {
                (step matches CommandStep::Reject(text) && text@ == unsupported_version_text(protocol_version))
                    && *final(snapshot) == *old(snapshot)
            } else {
                step is Reply && *final(snapshot) == *old(snapshot)
            },
            ClientCommand::RequestSnapshot => step is Reply && *final(snapshot) == *old(snapshot),
            ClientCommand::Shutdown => step is Shutdown && *final(snapshot) == *old(snapshot),
            ClientCommand::Navigate(route) => step is Reply
                && final(snapshot).navigation@ == spec_open(old(snapshot).navigation@, route)
                && !final(snapshot).lyrics.visible
                && final(snapshot).playback == old(snapshot).playback
                && final(snapshot).search == old(snapshot).search,
            ClientCommand::Back => step is Reply
                && final(snapshot).navigation@ == spec_back(old(snapshot).navigation@)
                && !final(snapshot).lyrics.visible
                && final(snapshot).playback == old(snapshot).playback
                && final(snapshot).search == old(snapshot).search,
            ClientCommand::UpdateSearch(query) => step is Reply
                && final(snapshot).navigation@.search_query == query@
                && final(snapshot).navigation@.active == old(snapshot).navigation@.active
                && final(snapshot).navigation@.history == old(snapshot).navigation@.history
                && final(snapshot).playback == old(snapshot).playback
                && final(snapshot).search == old(snapshot).search,
            ClientCommand::SubmitSearch => if client_search(old(snapshot).navigation@.search_query) {
                &&& step matches CommandStep::Search(request, id) && request.query@ == trimmed(
                    old(snapshot).navigation@.search_query,
                ) && request.limit == CLIENT_SEARCH_LIMIT && id == bump(old(snapshot).search.request_id)
                &&& final(snapshot).search.request_id == bump(old(snapshot).search.request_id)
                &&& final(snapshot).search.status is Loading
                &&& final(snapshot).search.results == old(snapshot).search.results
                &&& final(snapshot).playback == old(snapshot).playback
            } else {
                &&& step is Reply
                &&& final(snapshot).search.status matches SearchStatus::Failed(text)
                    && text@ == catalog_error_text(CatalogError::InvalidQuery)
                &&& final(snapshot).search.request_id == old(snapshot).search.request_id
                &&& final(snapshot).playback == old(snapshot).playback
            },
            ClientCommand::SelectNext => step is Reply
                && final(snapshot).search.selected_index == (if old(snapshot).search.results@.len() == 0 {
                    old(snapshot).search.selected_index as int
                } else {
                    (old(snapshot).search.selected_index + 1) % (old(snapshot).search.results@.len() as int)
                })
                && final(snapshot).search.results == old(snapshot).search.results
                && final(snapshot).playback == old(snapshot).playback,
            ClientCommand::SelectPrevious => step is Reply
                && final(snapshot).search.selected_index == (if old(snapshot).search.results@.len() == 0 {
                    old(snapshot).search.selected_index as int
                } else if old(snapshot).search.selected_index == 0 {
                    old(snapshot).search.results@.len() - 1
                } else {
                    old(snapshot).search.selected_index - 1
                })
                && final(snapshot).search.results == old(snapshot).search.results
                && final(snapshot).playback == old(snapshot).playback,
            ClientCommand::ToggleLyrics => match old(snapshot).playback.current {
                None => step is Reply && *final(snapshot) == *old(snapshot),
                Some(track) => {
                    let showing = !old(snapshot).lyrics.visible;
                    let fetch = showing && opt_text(old(snapshot).lyrics.track_id) != Some(track.id@);
                    &&& final(snapshot).lyrics.visible == showing
                    &&& fetch ==> (step matches CommandStep::LoadLyrics(t) && t == track)
                        && (final(snapshot).lyrics.track_id matches Some(id) && id@ == track.id@)
                        && final(snapshot).lyrics.status is Loading && final(snapshot).lyrics.lines@.len() == 0
                    &&& !fetch ==> step is Reply && final(snapshot).lyrics.track_id == old(snapshot).lyrics.track_id
                        && final(snapshot).lyrics.status == old(snapshot).lyrics.status
                        && final(snapshot).lyrics.lines == old(snapshot).lyrics.lines
                    &&& final(snapshot).playback == old(snapshot).playback
                },
            },
            ClientCommand::SetCrossfadeSeconds(seconds) => (step matches CommandStep::SaveCrossfade(s) && s
                == (if seconds > MAX_CROSSFADE_SECONDS { MAX_CROSSFADE_SECONDS } else { seconds }))
                && *final(snapshot) == *old(snapshot),
            ClientCommand::TogglePlayback => *final(snapshot) == *old(snapshot) && if old(snapshot).playback.status
                == PlaybackStatus::Playing {
                step matches CommandStep::Audio(AudioOp::Pause)
            } else if old(snapshot).playback.status == PlaybackStatus::Paused {
                step matches CommandStep::Audio(AudioOp::Resume)
            } else {
                step is Reply
            },
            ClientCommand::ToggleMute => *final(snapshot) == *old(snapshot) && ({
                let (percent, muted) = mute_target(old(snapshot).playback.muted, old(snapshot).playback.volume_before_mute);
                step matches CommandStep::Audio(AudioOp::Mute { percent: p, muted: m }) && p == percent && m == muted
            }),
            ClientCommand::SeekTo(position) => *final(snapshot) == *old(snapshot)
                && (step matches CommandStep::Audio(AudioOp::Seek(t)) && t == (if position < old(snapshot).playback.duration_ms {
                    position
                } else {
                    old(snapshot).playback.duration_ms
                })),
            ClientCommand::SeekRelative(offset) => *final(snapshot) == *old(snapshot)
                && (step matches CommandStep::Audio(AudioOp::Seek(t)) && t == seek_target(
                    old(snapshot).playback.position_ms,
                    offset,
                    old(snapshot).playback.duration_ms,
                )),
            ClientCommand::SetVolume(percent) => *final(snapshot) == *old(snapshot)
                && (step matches CommandStep::Audio(AudioOp::Volume(p)) && p == (if percent > 100 { 100 } else { percent })),
            _ => is_service_command(command) && (step matches CommandStep::Service(c) && c == command)
                && *final(snapshot) == *old(snapshot),
        },
{
    match command {
        ClientCommand::Hello { protocol_version } => {
            if protocol_version != PROTOCOL_VERSION {
                let number = decimal_string(protocol_version as u64);
                CommandStep::Reject(concat("unsupported protocol version ", number.as_str()))
            } else {
                CommandStep::Reply
            }
        },
        ClientCommand::RequestSnapshot => CommandStep::Reply,
        ClientCommand::Shutdown => CommandStep::Shutdown,
        ClientCommand::Navigate(route) => {
            snapshot.navigation.open(route);
            snapshot.lyrics.visible = false;
            CommandStep::Reply
        },
        ClientCommand::Back => {
            snapshot.navigation.back();
            snapshot.lyrics.visible = false;
            CommandStep::Reply
        },
        ClientCommand::UpdateSearch(query) => {
            snapshot.navigation.update_search(query.as_str());
            CommandStep::Reply
        },
        ClientCommand::SubmitSearch => {
            match SearchRequest::new(snapshot.navigation.search_query(), CLIENT_SEARCH_LIMIT) {
                Ok(request) => {
                    snapshot.search.request_id = snapshot.search.request_id.saturating_add(1);
                    snapshot.search.status = SearchStatus::Loading;
                    CommandStep::Search(request, snapshot.search.request_id)
                },
                Err(error) => {
                    snapshot.search.status = SearchStatus::Failed(error.message());
                    CommandStep::Reply
                },
            }
        },
        ClientCommand::SelectNext => {
            let count = snapshot.search.results.len();
            if count > 0 {
                snapshot.search.selected_index = (snapshot.search.selected_index % count + 1) % count;
                proof {
                    let sel = old(snapshot).search.selected_index as int;
                    let n = count as int;
                    assert((sel % n + 1) % n == (sel + 1) % n) by (nonlinear_arith)
                        requires n > 0, sel >= 0;
                }
            }
            CommandStep::Reply
        },
        ClientCommand::SelectPrevious => {
            let count = snapshot.search.results.len();
            if count > 0 {
                snapshot.search.selected_index = if snapshot.search.selected_index == 0 {
                    count - 1
                } else {
                    snapshot.search.selected_index - 1
                };
            }
            CommandStep::Reply
        },
        ClientCommand::ToggleLyrics => {
            let track = match &snapshot.playback.current {
                Some(track) => track.clone(),
                None => return CommandStep::Reply,
            };
            snapshot.lyrics.visible = !snapshot.lyrics.visible;
            let same = match &snapshot.lyrics.track_id {
                Some(id) => id.eq(&track.id),
                None => false,
            };
            if snapshot.lyrics.visible && !same {
                snapshot.lyrics.track_id = Some(track.id.clone());
                snapshot.lyrics.status = LyricsStatus::Loading;
                snapshot.lyrics.lines.clear();
                CommandStep::LoadLyrics(track)
            } else {
                CommandStep::Reply
            }
        },
        ClientCommand::SetCrossfadeSeconds(seconds) => {
            CommandStep::SaveCrossfade(if seconds > MAX_CROSSFADE_SECONDS { MAX_CROSSFADE_SECONDS } else { seconds })
        },
        ClientCommand::TogglePlayback => {
            if snapshot.playback.status == PlaybackStatus::Playing {
                CommandStep::Audio(AudioOp::Pause)
            } else if snapshot.playback.status == PlaybackStatus::Paused {
                CommandStep::Audio(AudioOp::Resume)
            } else {
                CommandStep::Reply
            }
        },
        ClientCommand::ToggleMute => {
            if snapshot.playback.muted {
                let before = snapshot.playback.volume_before_mute;
                CommandStep::Audio(AudioOp::Mute { percent: if before > 1 { before } else { 1 }, muted: false })
            } else {
                CommandStep::Audio(AudioOp::Mute { percent: 0, muted: true })
            }
        },
        ClientCommand::SeekTo(position) => {
            let duration = snapshot.playback.duration_ms;
            CommandStep::Audio(AudioOp::Seek(if position < duration { position } else { duration }))
        },
        ClientCommand::SeekRelative(offset) => {
            let position = snapshot.playback.position_ms as i128 + offset as i128;
            let duration = snapshot.playback.duration_ms as i128;
            let target = if position < 0 { 0 } else if position > duration { duration } else { position };
            CommandStep::Audio(AudioOp::Seek(target as u64))
        },
        ClientCommand::SetVolume(percent) => CommandStep::Audio(AudioOp::Volume(if percent > 100 { 100 } else { percent })),
        other => CommandStep::Service(other),
    }
}

/// The text of an optional string.
pub open spec fn opt_text(value: Option<String>) -> Option<Seq<char>> {
    match value {
        Some(s) => Some(s@),
        None => None,
    }
}

/// Applies the outcome of an audio operation: on failure the error shows; on
/// success the snapshot follows the engine.
pub fn finish_audio(snapshot: &mut AppSnapshot, op: AudioOp, result: Result<(), String>)
    ensures
        match result {
            Err(error) => final(snapshot).playback.error == Some(error) && final(snapshot).playback.status == (if old(snapshot).playback.current is None {
                PlaybackStatus::Failed
            } else {
                old(snapshot).playback.status
            }) && final(snapshot).playback.volume_percent == old(snapshot).playback.volume_percent
                && final(snapshot).playback.position_ms == old(snapshot).playback.position_ms,
            Ok(()) => (match op {
                AudioOp::Pause => final(snapshot).playback.status == PlaybackStatus::Paused
                    && forall|i: int| 0 <= i < 24 ==> final(snapshot).playback.spectrum[i] == 0,
                AudioOp::Resume => final(snapshot).playback.status == PlaybackStatus::Playing,
                AudioOp::Seek(target) => final(snapshot).playback.position_ms == target
                    && final(snapshot).playback.status == old(snapshot).playback.status,
                AudioOp::Volume(percent) => final(snapshot).playback.volume_percent == percent
                    && (percent > 0 ==> final(snapshot).playback.volume_before_mute == percent && !final(snapshot).playback.muted)
                    && (percent == 0 ==> final(snapshot).playback.muted
                        && final(snapshot).playback.volume_before_mute == old(snapshot).playback.volume_before_mute),
                AudioOp::Mute { percent, muted } => final(snapshot).playback.volume_percent == percent
                    && final(snapshot).playback.muted == muted
                    && final(snapshot).playback.volume_before_mute == (if muted && old(snapshot).playback.volume_percent > 0 {
                        old(snapshot).playback.volume_percent
                    } else {
                        old(snapshot).playback.volume_before_mute
                    }),
            }) && final(snapshot).playback.error == old(snapshot).playback.error,
        },
        final(snapshot).playback.current == old(snapshot).playback.current,
        final(snapshot).playback.request_id == old(snapshot).playback.request_id,
        final(snapshot).playback.queue == old(snapshot).playback.queue,
        final(snapshot).search == old(snapshot).search,
        final(snapshot).navigation == old(snapshot).navigation,
        final(snapshot).lyrics == old(snapshot).lyrics,
        final(snapshot).settings == old(snapshot).settings,
{
    match result {
        Err(error) => set_playback_error(snapshot, error),
        Ok(()) => match op {
            AudioOp::Pause => {
                snapshot.playback.status = PlaybackStatus::Paused;
                snapshot.playback.spectrum = [0u8; 24];
            },
            AudioOp::Resume => {
                snapshot.playback.status = PlaybackStatus::Playing;
            },
            AudioOp::Seek(target) => {
                snapshot.playback.position_ms = target;
            },
            AudioOp::Volume(percent) => {
                snapshot.playback.volume_percent = percent;
                if percent > 0 {
                    snapshot.playback.volume_before_mute = percent;
                    snapshot.playback.muted = false;
                } else {
                    snapshot.playback.muted = true;
                }
            },
            AudioOp::Mute { percent, muted } => {
                if muted && snapshot.playback.volume_percent > 0 {
                    snapshot.playback.volume_before_mute = snapshot.playback.volume_percent;
                }
                snapshot.playback.volume_percent = percent;
                snapshot.playback.muted = muted;
            },
        },
    }
}

/// Applies the outcome of storing the crossfade length.
pub fn finish_crossfade_save(snapshot: &mut AppSnapshot, seconds: u8, result: Result<(), String>)
    ensures
        match result {
            Ok(()) => final(snapshot).settings.crossfade_seconds == seconds
                && final(snapshot).playback == old(snapshot).playback,
            Err(error) => final(snapshot).settings == old(snapshot).settings
                && final(snapshot).playback.error == Some(error)
                && final(snapshot).playback.status == old(snapshot).playback.status,
        },
        final(snapshot).search == old(snapshot).search,
        final(snapshot).navigation == old(snapshot).navigation,
        final(snapshot).lyrics == old(snapshot).lyrics,
{
    match result {
        Ok(()) => {
            snapshot.settings.crossfade_seconds = seconds;
        },
        Err(error) => {
            snapshot.playback.error = Some(error);
        },
    }
}

/// Applies the answer to search number `request_id`; an answer to an older search
/// is dropped.
pub fn finish_search(snapshot: &mut AppSnapshot, request_id: u64, result: Result<Vec<Track>, String>)
    ensures
        request_id != old(snapshot).search.request_id ==> *final(snapshot) == *old(snapshot),
        request_id == old(snapshot).search.request_id ==> (match result {
            Ok(results) => final(snapshot).search.results == results && final(snapshot).search.selected_index == 0
                && final(snapshot).search.status is Ready,
            Err(error) => (final(snapshot).search.status matches SearchStatus::Failed(e) && e == error)
                && final(snapshot).search.results == old(snapshot).search.results,
        }) && final(snapshot).search.request_id == request_id
            && final(snapshot).playback == old(snapshot).playback
            && final(snapshot).navigation == old(snapshot).navigation,
{
    if snapshot.search.request_id != request_id {
        return;
    }
    match result {
        Ok(results) => {
            snapshot.search.results = results;
            snapshot.search.selected_index = 0;
            snapshot.search.status = SearchStatus::Ready;
        },
        Err(error) => {
            snapshot.search.status = SearchStatus::Failed(error);
        },
    }
}

/// The lines of `lyrics` as the lyrics pane shows them.
pub fn lyrics_lines(lyrics: Lyrics) -> (lines: Vec<LyricsLineSnapshot>)
    ensures
        lines@.len() == lyrics.lines@.len(),
        forall|i: int| 0 <= i < lines@.len() ==> lines@[i].start_ms == lyrics.lines@[i].start_ms
            && lines@[i].words == lyrics.lines@[i].words,
{
    let mut lines: Vec<LyricsLineSnapshot> = Vec::new();
    for i in 0..lyrics.lines.len()
        invariant
            lines@.len() == i,
            forall|j: int| 0 <= j < i ==> lines@[j].start_ms == lyrics.lines@[j].start_ms && lines@[j].words
                == lyrics.lines@[j].words,
    {
        lines.push(LyricsLineSnapshot { start_ms: lyrics.lines[i].start_ms, words: lyrics.lines[i].words.clone() });
    }
    lines
}

/// Applies the lyrics found for `track_id`; if the pane has moved on to another
/// track, they are dropped.
pub fn finish_lyrics(snapshot: &mut AppSnapshot, track_id: &str, result: Result<Option<Lyrics>, String>)
    ensures
        opt_text(old(snapshot).lyrics.track_id) != Some(track_id@) ==> *final(snapshot) == *old(snapshot),
        opt_text(old(snapshot).lyrics.track_id) == Some(track_id@) ==> (match result {
            Ok(Some(lyrics)) => final(snapshot).lyrics.status is Ready && final(snapshot).lyrics.synced == lyrics.synced
                && final(snapshot).lyrics.lines@.len() == lyrics.lines@.len()
                && forall|i: int| 0 <= i < lyrics.lines@.len() ==> #[trigger] final(snapshot).lyrics.lines@[i].start_ms
                    == lyrics.lines@[i].start_ms && final(snapshot).lyrics.lines@[i].words == lyrics.lines@[i].words,
            Ok(None) => final(snapshot).lyrics.status is Unavailable,
            Err(error) => final(snapshot).lyrics.status matches LyricsStatus::Failed(e) && e == error,
        }) && final(snapshot).lyrics.track_id == old(snapshot).lyrics.track_id
            && final(snapshot).lyrics.visible == old(snapshot).lyrics.visible
            && final(snapshot).playback == old(snapshot).playback,
{
    let current = match &snapshot.lyrics.track_id {
        Some(id) => id.eq(&track_id.to_owned()),
        None => false,
    };
    if !current {
        return;
    }
    match result {
        Ok(Some(lyrics)) => {
            snapshot.lyrics.synced = lyrics.synced;
            snapshot.lyrics.lines = lyrics_lines(lyrics);
            snapshot.lyrics.status = LyricsStatus::Ready;
        },
        Ok(None) => {
            snapshot.lyrics.status = LyricsStatus::Unavailable;
        },
        Err(error) => {
            snapshot.lyrics.status = LyricsStatus::Failed(error);
        },
    }
}


/// How playback request `request_id` ended once the audio engine was done.
#[derive(Debug)]
pub enum PlaybackFinish {
    /// A newer request took over; nothing changed.
    Stale,
    /// The track plays; load its lyrics when asked.
    Started { load_lyrics: bool },
    /// The engine refused; the error shows.
    Failed,
}

/// Shows request `request_id` buffering, if it is still the latest and nothing is
/// current; `false` when a newer request took over.
pub fn mark_buffering(snapshot: &mut AppSnapshot, request_id: u64) -> (current: bool)
    ensures
        current == (request_id == old(snapshot).playback.request_id),
        current && old(snapshot).playback.current is None ==> final(snapshot).playback.status == PlaybackStatus::Buffering,
        !(current && old(snapshot).playback.current is None) ==> *final(snapshot) == *old(snapshot),
        final(snapshot).playback.current == old(snapshot).playback.current,
        final(snapshot).playback.request_id == old(snapshot).playback.request_id,
        final(snapshot).lyrics == old(snapshot).lyrics,
        final(snapshot).search == old(snapshot).search,
{
    if snapshot.playback.request_id != request_id {
        return false;
    }
    if snapshot.playback.current.is_none() {
        snapshot.playback.status = PlaybackStatus::Buffering;
    }
    true
}

/// Applies how the audio engine handled request `request_id` for `track`. If a
/// newer request took over, nothing changes. On success the track becomes current
/// and plays, and its lyrics start loading unless the pane already shows them.
pub fn finish_playback(snapshot: &mut AppSnapshot, request_id: u64, track: &Track, result: Result<(), String>) -> (finish: PlaybackFinish)
    ensures
        request_id != old(snapshot).playback.request_id ==> finish is Stale && *final(snapshot) == *old(snapshot),
        request_id == old(snapshot).playback.request_id ==> match result {
            Ok(()) => {
                let load = opt_text(old(snapshot).lyrics.track_id) != Some(track.id@);
                &&& finish matches PlaybackFinish::Started { load_lyrics } && load_lyrics == load
                &&& final(snapshot).playback.current == Some(*track)
                &&& final(snapshot).playback.history@ == history_after(old(snapshot).playback.history@, old(snapshot).playback.current, *track)
                &&& final(snapshot).playback.status == PlaybackStatus::Playing
                &&& final(snapshot).playback.error is None
                &&& load ==> (final(snapshot).lyrics.track_id matches Some(id) && id@ == track.id@)
                    && final(snapshot).lyrics.status is Loading && final(snapshot).lyrics.lines@.len() == 0
                &&& !load ==> final(snapshot).lyrics == old(snapshot).lyrics
            },
            Err(error) => finish is Failed && final(snapshot).playback.error == Some(error)
                && final(snapshot).playback.current == old(snapshot).playback.current
                && final(snapshot).playback.status == (if old(snapshot).playback.current is None {
                    PlaybackStatus::Failed
                } else {
                    old(snapshot).playback.status
                }),
        },
        final(snapshot).playback.request_id == old(snapshot).playback.request_id,
        final(snapshot).playback.queue == old(snapshot).playback.queue,
        final(snapshot).playback.shuffle == old(snapshot).playback.shuffle,
        final(snapshot).playback.repeat_mode == old(snapshot).playback.repeat_mode,
        final(snapshot).search == old(snapshot).search,
        final(snapshot).navigation == old(snapshot).navigation,
{
    if snapshot.playback.request_id != request_id {
        return PlaybackFinish::Stale;
    }
    match result {
        Ok(()) => {
            commit_playback_current(snapshot, track);
            snapshot.playback.status = PlaybackStatus::Playing;
            snapshot.playback.error = None;
            let same = match &snapshot.lyrics.track_id {
                Some(id) => id.eq(&track.id),
                None => false,
            };
            if !same {
                snapshot.lyrics.track_id = Some(track.id.clone());
                snapshot.lyrics.status = LyricsStatus::Loading;
                snapshot.lyrics.lines.clear();
            }
            PlaybackFinish::Started { load_lyrics: !same }
        },
        Err(error) => {
            set_playback_error(snapshot, error);
            PlaybackFinish::Failed
        },
    }
}

/// Records that request `request_id` could not start, if it is still the latest.
pub fn finish_playback_error(snapshot: &mut AppSnapshot, request_id: u64, error: String) -> (current: bool)
    ensures
        current == (request_id == old(snapshot).playback.request_id),
        !current ==> *final(snapshot) == *old(snapshot),
        current ==> final(snapshot).playback.error == Some(error) && final(snapshot).playback.status == (if old(snapshot).playback.current is None {
            PlaybackStatus::Failed
        } else {
            old(snapshot).playback.status
        }) && final(snapshot).playback.current == old(snapshot).playback.current,
{
    if snapshot.playback.request_id != request_id {
        return false;
    }
    set_playback_error(snapshot, error);
    true
}

/// `before` with the engine's report copied in while something plays or is
/// paused; the known duration never shrinks.
pub open spec fn with_telemetry(before: AppSnapshot, telemetry: BackendTelemetry) -> AppSnapshot {
    if before.playback.status == PlaybackStatus::Playing || before.playback.status == PlaybackStatus::Paused {
        AppSnapshot {
            playback: PlaybackSnapshot {
                position_ms: telemetry.position_ms,
                duration_ms: if telemetry.duration_ms > before.playback.duration_ms {
                    telemetry.duration_ms
                } else {
                    before.playback.duration_ms
                },
                buffered_ms: telemetry.buffered_ms,
                spectrum: telemetry.spectrum,
                underrun_count: telemetry.underrun_count,
                ..before.playback
            },
            ..before
        }
    } else {
        before
    }
}

/// Copies the engine's report into the snapshot while something plays or is
/// paused; the known duration never shrinks.
pub fn apply_telemetry(snapshot: &mut AppSnapshot, telemetry: &BackendTelemetry)
    ensures
        *final(snapshot) == with_telemetry(*old(snapshot), *telemetry),
        (old(snapshot).playback.status == PlaybackStatus::Playing || old(snapshot).playback.status == PlaybackStatus::Paused) ==> {
            &&& final(snapshot).playback.position_ms == telemetry.position_ms
            &&& final(snapshot).playback.duration_ms == (if telemetry.duration_ms > old(snapshot).playback.duration_ms {
                telemetry.duration_ms
            } else {
                old(snapshot).playback.duration_ms
            })
            &&& final(snapshot).playback.buffered_ms == telemetry.buffered_ms
            &&& final(snapshot).playback.spectrum == telemetry.spectrum
            &&& final(snapshot).playback.underrun_count == telemetry.underrun_count
            &&& final(snapshot).playback.status == old(snapshot).playback.status
            &&& final(snapshot).playback.current == old(snapshot).playback.current
            &&& final(snapshot).playback.queue == old(snapshot).playback.queue
            &&& final(snapshot).playback.request_id == old(snapshot).playback.request_id
            &&& final(snapshot).playback.error == old(snapshot).playback.error
        },
        !(old(snapshot).playback.status == PlaybackStatus::Playing || old(snapshot).playback.status == PlaybackStatus::Paused)
            ==> *final(snapshot) == *old(snapshot),
        final(snapshot).search == old(snapshot).search,
        final(snapshot).navigation == old(snapshot).navigation,
        final(snapshot).lyrics == old(snapshot).lyrics,
        final(snapshot).settings == old(snapshot).settings,
        final(snapshot).library == old(snapshot).library,
{
    if snapshot.playback.status == PlaybackStatus::Playing || snapshot.playback.status == PlaybackStatus::Paused {
        snapshot.playback.position_ms = telemetry.position_ms;
        if telemetry.duration_ms > snapshot.playback.duration_ms {
            snapshot.playback.duration_ms = telemetry.duration_ms;
        }
        snapshot.playback.buffered_ms = telemetry.buffered_ms;
        snapshot.playback.spectrum = telemetry.spectrum;
        snapshot.playback.underrun_count = telemetry.underrun_count;
    }
}

/// Whether the player should move to the next track on its own: it plays without
/// error, no transition is pending, and the track has ended or is within the
/// crossfade length plus two seconds of its end with something queued.
pub open spec fn should_advance_view(
    status: PlaybackStatus,
    has_error: bool,
    crossfade_seconds: u8,
    queue_len: nat,
    telemetry: BackendTelemetry,
    transition_pending: bool,
) -> bool {
    !transition_pending && status == PlaybackStatus::Playing && !has_error && (telemetry.ended || (crossfade_seconds > 0 && queue_len
        > 0 && telemetry.duration_ms > 0 && saturating_add_u64_view(telemetry.position_ms, ((crossfade_seconds + 2) * 1000) as u64)
        >= telemetry.duration_ms))
}

/// `a + b`, stopping at `u64::MAX`.
pub open spec fn saturating_add_u64_view(a: u64, b: u64) -> u64 {
    if a + b > u64::MAX { u64::MAX } else { (a + b) as u64 }
}

/// Whether the player should move to the next track on its own now.
pub fn should_advance(snapshot: &AppSnapshot, telemetry: &BackendTelemetry, transition_pending: bool) -> (advance: bool)
    ensures
        advance == should_advance_view(
            snapshot.playback.status,
            snapshot.playback.error is Some,
            snapshot.settings.crossfade_seconds,
            snapshot.playback.queue@.len(),
            *telemetry,
            transition_pending,
        ),
{
    let lead_ms = ((snapshot.settings.crossfade_seconds as u64) + 2) * 1000;
    !transition_pending && snapshot.playback.status == PlaybackStatus::Playing && snapshot.playback.error.is_none() && (
    telemetry.ended || (snapshot.settings.crossfade_seconds > 0 && snapshot.playback.queue.len() > 0 && telemetry.duration_ms
        > 0 && telemetry.position_ms.saturating_add(lead_ms) >= telemetry.duration_ms))
}

/// Whether `session` stayed where playback was: no repeat, position
/// `current_index`, and the track whose id is `current_id`.
pub open spec fn made_no_progress(session: QueueSession, current_index: usize, current_id: Option<Seq<char>>) -> bool {
    session.repeat_mode == QueueRepeatMode::Off && session.current_index == current_index && (if session.current_index
        < session.tracks@.len() {
        Some(session.tracks@[session.current_index as int].id@)
    } else {
        None
    }) == current_id
}

/// Whether the queue service answered "next" by staying where it was: no repeat,
/// the same position, and the same track id.
pub fn advance_made_no_progress(session: &QueueSession, current_index: usize, current_track_id: &Option<String>) -> (stuck: bool)
    ensures
        stuck == made_no_progress(*session, current_index, opt_text(*current_track_id)),
{
    if session.repeat_mode != QueueRepeatMode::Off || session.current_index != current_index {
        return false;
    }
    if session.current_index < session.tracks.len() {
        match current_track_id {
            Some(id) => session.tracks[session.current_index].id.eq(id),
            None => false,
        }
    } else {
        current_track_id.is_none()
    }
}

/// Whether a queue error means the queue cannot move on at all: its message
/// mentions that the queue ended, or something was not found, missing or empty.
pub open spec fn terminal_queue_message(text: Seq<char>) -> bool {
    let lower = ascii_lowercase_view(text);
    contains_view(lower, "ended"@) || contains_view(lower, "not found"@) || contains_view(lower, "missing"@)
        || contains_view(lower, "empty"@)
}

/// Whether `error` means automatic advancing should stop for good.
pub fn is_terminal_queue_error(error: &CatalogError) -> (terminal: bool)
    ensures
        terminal == terminal_queue_message(catalog_error_text(*error)),
{
    let message = to_ascii_lowercase(error.message().as_str());
    contains_str(message.as_str(), "ended") || contains_str(message.as_str(), "not found") || contains_str(
        message.as_str(),
        "missing",
    ) || contains_str(message.as_str(), "empty")
}

/// Whether a download of a track should start, given its stored state and whether
/// an available download's file is still on disk.
pub fn download_should_start(existing: Option<DownloadStatus>, local_file_present: bool) -> (start: bool)
    ensures
        start == (match existing {
            None => true,
            Some(DownloadStatus::Queued) | Some(DownloadStatus::Downloading) => false,
            Some(DownloadStatus::Available) => !local_file_present,
            Some(DownloadStatus::Failed) => true,
        }),
{
    match existing {
        None => true,
        Some(DownloadStatus::Queued) | Some(DownloadStatus::Downloading) => false,
        Some(DownloadStatus::Available) => !local_file_present,
        Some(DownloadStatus::Failed) => true,
    }
}

/// Each id once, keeping the first track that carries it.
pub open spec fn first_of_each_id(tracks: Seq<Track>) -> Seq<Track>
    decreases tracks.len(),
{
    if tracks.len() == 0 {
        Seq::empty()
    } else {
        let kept = first_of_each_id(tracks.drop_last());
        if crate::endless_queue::track_ids(kept).contains(tracks.last().id@) { kept } else { kept.push(tracks.last()) }
    }
}

/// The tracks worth resolving ahead of time: the one starting and the next three
/// the queue service will play (or, without a session, the next three visible),
/// each id once.
pub fn prewarm_candidates(current: &Track, session: Option<&QueueSession>, visible: &Vec<Track>) -> (candidates: Vec<Track>)
    ensures
        candidates@ == first_of_each_id(seq![*current] + match session {
            Some(s) => crate::queue_tracker::take_at_most(
                crate::queue_tracker::tracks_at(
                    crate::queue_tracker::upcoming_indices(s.current_index, s.shuffle, s.play_order@, s.tracks@.len()),
                    s.tracks@,
                ),
                3,
            ),
            None => crate::queue_tracker::take_at_most(visible@, 3),
        }),
{
    let mut next = match session {
        Some(s) => {
            let indices = crate::queue_tracker::upcoming(s);
            crate::queue_tracker::collect_tracks(&indices, &s.tracks)
        },
        None => crate::endless_queue::clone_tracks(visible.as_slice()),
    };
    let ghost full = next@;
    next.truncate(3);
    assert(next@ == crate::queue_tracker::take_at_most(full, 3));
    let ghost rest = next@;
    let mut all: Vec<Track> = Vec::new();
    all.push(current.clone());
    all.append(&mut next);
    assert(all@ =~= seq![*current] + rest);
    let ghost wanted = all@;
    let mut candidates: Vec<Track> = Vec::new();
    for i in 0..all.len()
        invariant
            all@ == wanted,
            candidates@ == first_of_each_id(wanted.subrange(0, i as int)),
    {
        assert(wanted.subrange(0, i + 1).drop_last() =~= wanted.subrange(0, i as int));
        if !crate::endless_queue::contains_track_id(&candidates, &all[i].id) {
            candidates.push(all[i].clone());
        }
    }
    assert(wanted.subrange(0, wanted.len() as int) =~= wanted);
    candidates
}


/// No two neighbouring entries of the history are the same track.
pub open spec fn no_adjacent_repeats(history: Seq<Track>) -> bool {
    forall|i: int| 0 <= i < history.len() - 1 ==> history[i].id@ != #[trigger] history[i + 1].id@
}

/// The history never holds more than a hundred tracks, and never the same track
/// twice in a row.
pub proof fn lemma_history_stays_bounded(history: Seq<Track>, previous: Option<Track>, track: Track)
    requires
        history.len() <= MAX_HISTORY,
        no_adjacent_repeats(history),
    ensures
        history_after(history, previous, track).len() <= MAX_HISTORY,
        no_adjacent_repeats(history_after(history, previous, track)),
{
    if let Some(p) = previous {
        if p.id@ != track.id@ && (history.len() == 0 || history.last().id@ != p.id@) {
            let longer = history.push(p);
            assert forall|i: int| 0 <= i < longer.len() - 1 implies longer[i].id@ != #[trigger] longer[i + 1].id@ by {
                if i + 1 == history.len() {
                    assert(longer[i] == history.last());
                } else {
                    assert(longer[i] == history[i] && longer[i + 1] == history[i + 1]);
                }
            }
            if longer.len() > MAX_HISTORY {
                let shorter = longer.drop_first();
                assert forall|i: int| 0 <= i < shorter.len() - 1 implies shorter[i].id@ != #[trigger] shorter[i + 1].id@ by {
                    assert(shorter[i] == longer[i + 1] && shorter[i + 1] == longer[i + 2]);
                }
            }
        }
    }
}

/// A relative seek moves by exactly the offset when that stays within the
/// track, and otherwise stops at its start or its end.
pub proof fn lemma_relative_seek_moves_by_offset(position: u64, offset: i64, duration: u64)
    ensures
        0 <= position + offset <= duration ==> seek_target(position, offset, duration) == position + offset,
        position + offset < 0 ==> seek_target(position, offset, duration) == 0,
        position + offset > duration ==> seek_target(position, offset, duration) == duration,
{
}

} // verus!
