use vstd::prelude::*;

use crate::navigation::{NavigationState, Route};
use crate::session::SessionMode;
use crate::track::Track;

verus! {

/// The version of the client–daemon protocol this library speaks.
pub const PROTOCOL_VERSION: u16 = 8;

/// How many spectrum bands the playback snapshot carries.
pub const SPECTRUM_BAND_COUNT: usize = 24;

/// Everything a client shows, as the daemon last knew it.
#[derive(Clone, Debug)]
pub struct AppSnapshot {
    pub session: SessionMode,
    pub navigation: NavigationState,
    pub search: SearchSnapshot,
    pub playback: PlaybackSnapshot,
    pub library: LibrarySnapshot,
    pub lyrics: LyricsSnapshot,
    pub settings: SettingsSnapshot,
}

/// User settings that the daemon keeps.
#[derive(Clone, Copy, Debug, PartialEq, Eq, Structural)]
pub struct SettingsSnapshot {
    pub crossfade_seconds: u8,
}

/// The lyrics pane.
#[derive(Clone, Debug)]
pub struct LyricsSnapshot {
    pub visible: bool,
    pub track_id: Option<String>,
    pub status: LyricsStatus,
    pub synced: bool,
    pub lines: Vec<LyricsLineSnapshot>,
}

/// One line of the lyrics pane.
#[derive(Clone, Debug)]
pub struct LyricsLineSnapshot {
    pub start_ms: Option<u64>,
    pub words: String,
}

/// Where the lyrics of the current track stand.
#[derive(Clone, Debug)]
pub enum LyricsStatus {
    Idle,
    Loading,
    Ready,
    Unavailable,
    Failed(String),
}

/// Liked, recently played and downloaded tracks.
#[derive(Clone, Debug)]
pub struct LibrarySnapshot {
    pub liked: Vec<Track>,
    pub recent: Vec<Track>,
    pub downloads: Vec<DownloadSnapshot>,
}

/// One download and where it stands.
#[derive(Clone, Debug)]
pub struct DownloadSnapshot {
    pub track: Track,
    pub status: DownloadStatus,
    pub error: Option<String>,
}

/// The life of a download.
#[derive(Clone, Copy, Debug, PartialEq, Eq, Structural)]
pub enum DownloadStatus {
    Queued,
    Downloading,
    Available,
    Failed,
}

/// The search pane.
#[derive(Clone, Debug)]
pub struct SearchSnapshot {
    pub status: SearchStatus,
    pub results: Vec<Track>,
    pub selected_index: usize,
    pub request_id: u64,
}

/// Where the latest search stands.
#[derive(Clone, Debug)]
pub enum SearchStatus {
    Idle,
    Loading,
    Ready,
    Failed(String),
}

/// What the player is doing.
#[derive(Clone, Debug)]
pub struct PlaybackSnapshot {
    pub status: PlaybackStatus,
    pub current: Option<Track>,
    pub position_ms: u64,
    pub duration_ms: u64,
    pub buffered_ms: u64,
    pub underrun_count: u64,
    pub volume_percent: u8,
    pub volume_before_mute: u8,
    pub muted: bool,
    pub error: Option<String>,
    pub request_id: u64,
    pub queue: Vec<Track>,
    pub history: Vec<Track>,
    pub shuffle: bool,
    pub repeat_mode: RepeatMode,
    pub spectrum: [u8; 24],
}

/// The state of the player.
#[derive(Clone, Copy, Debug, PartialEq, Eq, Structural)]
pub enum PlaybackStatus {
    Idle,
    Resolving,
    Buffering,
    Playing,
    Paused,
    Ended,
    Failed,
}

/// The repeat setting a client shows.
#[derive(Clone, Copy, Debug, PartialEq, Eq, Structural)]
pub enum RepeatMode {
    Off,
    All,
    One,
}

/// What a client asks the daemon to do.
#[derive(Clone, Debug)]
pub enum ClientCommand {
    Hello { protocol_version: u16 },
    Navigate(Route),
    Back,
    UpdateSearch(String),
    SubmitSearch,
    SelectNext,
    SelectPrevious,
    PlaySelected,
    QueueSelected,
    PlayTrack(Track),
    QueueTrack(Track),
    ToggleLike(Track),
    DownloadTrack(Track),
    ToggleLyrics,
    SetCrossfadeSeconds(u8),
    TogglePlayback,
    NextTrack,
    PreviousTrack,
    ToggleShuffle,
    CycleRepeat,
    ToggleMute,
    SeekTo(u64),
    SeekRelative(i64),
    SetVolume(u8),
    PlayQueueIndex(usize),
    RemoveQueueIndex(usize),
    ClearQueue,
    RequestSnapshot,
    Shutdown,
}

/// What the daemon answers.
#[derive(Clone, Debug)]
pub enum DaemonEvent {
    Snapshot(Box<AppSnapshot>),
    Acknowledged,
    Rejected(String),
}

impl Default for SettingsSnapshot {
    fn default() -> (settings: SettingsSnapshot)
        ensures
            settings.crossfade_seconds == 6,
    {
        SettingsSnapshot { crossfade_seconds: 6 }
    }
}

impl Default for LyricsSnapshot {
    fn default() -> (lyrics: LyricsSnapshot)
        ensures
            !lyrics.visible,
            lyrics.track_id is None,
            lyrics.status is Idle,
            !lyrics.synced,
            lyrics.lines@.len() == 0,
    {
        LyricsSnapshot { visible: false, track_id: None, status: LyricsStatus::Idle, synced: false, lines: Vec::new() }
    }
}

impl Default for LibrarySnapshot {
    fn default() -> (library: LibrarySnapshot)
        ensures
            library.liked@.len() == 0,
            library.recent@.len() == 0,
            library.downloads@.len() == 0,
    {
        LibrarySnapshot { liked: Vec::new(), recent: Vec::new(), downloads: Vec::new() }
    }
}

impl Default for SearchSnapshot {
    fn default() -> (search: SearchSnapshot)
        ensures
            search.status is Idle,
            search.results@.len() == 0,
            search.selected_index == 0,
            search.request_id == 0,
    {
        SearchSnapshot { status: SearchStatus::Idle, results: Vec::new(), selected_index: 0, request_id: 0 }
    }
}

impl Default for PlaybackSnapshot {
    fn default() -> (playback: PlaybackSnapshot)
        ensures
            playback.status == PlaybackStatus::Idle,
            playback.current is None,
            playback.position_ms == 0,
            playback.duration_ms == 0,
            playback.buffered_ms == 0,
            playback.underrun_count == 0,
            playback.volume_percent == 100,
            playback.volume_before_mute == 100,
            !playback.muted,
            playback.error is None,
            playback.request_id == 0,
            playback.queue@.len() == 0,
            playback.history@.len() == 0,
            !playback.shuffle,
            playback.repeat_mode == RepeatMode::Off,
            forall|i: int| 0 <= i < 24 ==> playback.spectrum[i] == 0,
    {
        PlaybackSnapshot {
            status: PlaybackStatus::Idle,
            current: None,
            position_ms: 0,
            duration_ms: 0,
            buffered_ms: 0,
            underrun_count: 0,
            volume_percent: 100,
            volume_before_mute: 100,
            muted: false,
            error: None,
            request_id: 0,
            queue: Vec::new(),
            history: Vec::new(),
            shuffle: false,
            repeat_mode: RepeatMode::Off,
            spectrum: [0u8; 24],
        }
    }
}

impl Default for AppSnapshot {
    fn default() -> (snapshot: AppSnapshot)
        ensures
            snapshot.session == SessionMode::Guest,
            snapshot.navigation@.active == Route::Home,
            snapshot.navigation@.history.len() == 0,
            snapshot.navigation@.search_query.len() == 0,
            snapshot.search.status is Idle,
            snapshot.search.results@.len() == 0,
            snapshot.search.request_id == 0,
            snapshot.playback.status == PlaybackStatus::Idle,
            snapshot.playback.current is None,
            snapshot.playback.request_id == 0,
            snapshot.playback.queue@.len() == 0,
            snapshot.playback.volume_percent == 100,
            snapshot.lyrics.track_id is None,
            !snapshot.lyrics.visible,
            snapshot.settings.crossfade_seconds == 6,
    {
        AppSnapshot {
            session: SessionMode::default(),
            navigation: NavigationState::default(),
            search: SearchSnapshot::default(),
            playback: PlaybackSnapshot::default(),
            library: LibrarySnapshot::default(),
            lyrics: LyricsSnapshot::default(),
            settings: SettingsSnapshot::default(),
        }
    }
}

/// The answer that carries `snapshot`.
pub fn snapshot_event(snapshot: AppSnapshot) -> (event: DaemonEvent)
    ensures
        event matches DaemonEvent::Snapshot(boxed) && *boxed == snapshot,
{
    DaemonEvent::Snapshot(Box::new(snapshot))
}

} // verus!
