use vstd::prelude::*;

use crate::text::{concat, trim, trimmed};
use crate::track::Track;

verus! {

/// The most results a search may ask for.
pub const MAX_SEARCH_RESULTS: usize = 50;

/// The most tracks a radio page may ask for.
pub const MAX_RADIO_RESULTS: usize = 50;

/// Why the music catalog could not answer.
#[derive(Debug)]
pub enum CatalogError {
    InvalidQuery,
    Unauthorized,
    Unavailable(String),
    InvalidResponse(String),
}

/// The text a user sees for each catalog error.
pub open spec fn catalog_error_text(error: CatalogError) -> Seq<char> {
    match error {
        CatalogError::InvalidQuery => "search query cannot be blank"@,
        CatalogError::Unauthorized => "catalog authorization is required"@,
        CatalogError::Unavailable(detail) => "catalog is unavailable: "@ + detail@,
        CatalogError::InvalidResponse(detail) => "catalog returned invalid data: "@ + detail@,
    }
}

impl CatalogError {
    /// The human-readable description of the error.
    pub fn message(&self) -> (text: String)
        ensures
            text@ == catalog_error_text(*self),
    {
        match self {
            CatalogError::InvalidQuery => "search query cannot be blank".to_owned(),
            CatalogError::Unauthorized => "catalog authorization is required".to_owned(),
            CatalogError::Unavailable(detail) => concat("catalog is unavailable: ", detail.as_str()),
            CatalogError::InvalidResponse(detail) => concat("catalog returned invalid data: ", detail.as_str()),
        }
    }
}

/// `value` moved into the range `[low, high]`.
pub open spec fn clamp(value: int, low: int, high: int) -> int {
    if value < low {
        low
    } else if value > high {
        high
    } else {
        value
    }
}

pub fn clamp_usize(value: usize, low: usize, high: usize) -> (clamped: usize)
    requires
        low <= high,
    ensures
        clamped == clamp(value as int, low as int, high as int),
{
    if value < low {
        low
    } else if value > high {
        high
    } else {
        value
    }
}

/// A validated catalog search.
#[derive(Debug)]
pub struct SearchRequest {
    pub query: String,
    pub limit: usize,
}

impl SearchRequest {
    /// Trims the query and bounds the result count to `1..=50`; a blank query is refused.
    pub fn new(query: &str, limit: usize) -> (request: Result<SearchRequest, CatalogError>)
        ensures
            request is Ok <==> trimmed(query@).len() > 0,
            request is Err ==> request->Err_0 is InvalidQuery,
            request matches Ok(r) ==> r.query@ == trimmed(query@) && r.limit == clamp(
                limit as int,
                1,
                MAX_SEARCH_RESULTS as int,
            ),
    {
        let query = trim(query);
        if query.as_str().unicode_len() == 0 {
            return Err(CatalogError::InvalidQuery);
        }
        Ok(SearchRequest { query, limit: clamp_usize(limit, 1, MAX_SEARCH_RESULTS) })
    }
}

/// A request for tracks that follow a seed, or for the next page of such a run.
#[derive(Debug)]
pub struct RadioRequest {
    pub seed_track_id: String,
    pub continuation: Option<String>,
    pub limit: usize,
}

impl RadioRequest {
    /// The first page of a radio run that starts from `seed_track_id`.
    pub fn from_seed(seed_track_id: &str, limit: usize) -> (request: RadioRequest)
        ensures
            request.seed_track_id@ == seed_track_id@,
            request.continuation is None,
            request.limit == clamp(limit as int, 1, MAX_RADIO_RESULTS as int),
    {
        RadioRequest {
            seed_track_id: seed_track_id.to_owned(),
            continuation: None,
            limit: clamp_usize(limit, 1, MAX_RADIO_RESULTS),
        }
    }

    /// A later page of a radio run, named by the catalog's continuation token.
    pub fn from_continuation(seed_track_id: &str, continuation: &str, limit: usize) -> (request: RadioRequest)
        ensures
            request.seed_track_id@ == seed_track_id@,
            request.continuation matches Some(c) && c@ == continuation@,
            request.limit == clamp(limit as int, 1, MAX_RADIO_RESULTS as int),
    {
        RadioRequest {
            seed_track_id: seed_track_id.to_owned(),
            continuation: Some(continuation.to_owned()),
            limit: clamp_usize(limit, 1, MAX_RADIO_RESULTS),
        }
    }
}

/// One page of radio results.
#[derive(Debug)]
pub struct RadioPage {
    pub tracks: Vec<Track>,
    pub continuation: Option<String>,
}

/// How much bandwidth a stream may use.
#[derive(Clone, Copy, Debug, PartialEq, Eq, Structural)]
pub enum AudioQuality {
    DataSaver,
    Balanced,
    High,
    Automatic,
}

impl Default for AudioQuality {
    fn default() -> (quality: AudioQuality)
        ensures
            quality == AudioQuality::Automatic,
    {
        AudioQuality::Automatic
    }
}

/// Where and how to fetch a track's audio.
#[derive(Debug)]
pub struct ResolvedStream {
    pub url: String,
    pub headers: Vec<(String, String)>,
    pub expires_at_epoch_seconds: Option<u64>,
}

impl ResolvedStream {
    /// A stream at `url` with no extra headers and no expiry.
    pub fn new(url: String) -> (stream: ResolvedStream)
        ensures
            stream.url == url,
            stream.headers@.len() == 0,
            stream.expires_at_epoch_seconds is None,
    {
        ResolvedStream { url, headers: Vec::new(), expires_at_epoch_seconds: None }
    }
}

impl Clone for ResolvedStream {
    fn clone(&self) -> (copy: ResolvedStream)
        ensures
            copy.url == self.url,
            copy.headers@ == self.headers@,
            copy.expires_at_epoch_seconds == self.expires_at_epoch_seconds,
    {
        let mut headers: Vec<(String, String)> = Vec::new();
        for i in 0..self.headers.len()
            invariant
                headers@ == self.headers@.subrange(0, i as int),
        {
            let pair = (self.headers[i].0.clone(), self.headers[i].1.clone());
            headers.push(pair);
            assert(headers@ =~= self.headers@.subrange(0, i + 1));
        }
        assert(self.headers@.subrange(0, self.headers@.len() as int) =~= self.headers@);
        ResolvedStream { url: self.url.clone(), headers, expires_at_epoch_seconds: self.expires_at_epoch_seconds }
    }
}

/// Song lyrics, with or without timing.
#[derive(Debug)]
pub struct Lyrics {
    pub synced: bool,
    pub lines: Vec<LyricsLine>,
}

/// One line of lyrics and, when synced, where it starts.
#[derive(Debug)]
pub struct LyricsLine {
    pub start_ms: Option<u64>,
    pub words: String,
}

/// Whether a queue repeats nothing, all of itself, or its current track.
#[derive(Clone, Copy, Debug, PartialEq, Eq, Structural)]
pub enum QueueRepeatMode {
    Off,
    All,
    One,
}

impl Default for QueueRepeatMode {
    fn default() -> (mode: QueueRepeatMode)
        ensures
            mode == QueueRepeatMode::Off,
    {
        QueueRepeatMode::Off
    }
}

/// A request to the queue service to start a new session.
#[derive(Clone, Debug)]
pub struct QueueStart {
    pub tracks: Vec<Track>,
    pub current_index: usize,
    pub track: Option<Track>,
    pub playlist_id: Option<String>,
    pub playlist_name: Option<String>,
    pub playlist_type: Option<String>,
    pub continuation: Option<String>,
    pub shuffle: bool,
    pub repeat_mode: QueueRepeatMode,
    pub endless_queue: bool,
}

/// The queue service's authoritative view of a play session.
#[derive(Debug)]
pub struct QueueSession {
    pub id: String,
    pub state: String,
    pub tracks: Vec<Track>,
    pub current_index: usize,
    pub playlist_id: Option<String>,
    pub playlist_name: Option<String>,
    pub playlist_type: Option<String>,
    pub continuation: Option<String>,
    pub shuffle: bool,
    pub play_order: Vec<usize>,
    pub repeat_mode: QueueRepeatMode,
    pub endless_queue: bool,
    pub revision: i64,
}

impl Default for QueueSession {
    fn default() -> (session: QueueSession)
        ensures
            session.id@.len() == 0,
            session.tracks@.len() == 0,
            session.current_index == 0,
            session.play_order@.len() == 0,
            !session.shuffle,
            !session.endless_queue,
            session.repeat_mode == QueueRepeatMode::Off,
            session.revision == 0,
    {
        QueueSession {
            id: String::new(),
            state: String::new(),
            tracks: Vec::new(),
            current_index: 0,
            playlist_id: None,
            playlist_name: None,
            playlist_type: None,
            continuation: None,
            shuffle: false,
            play_order: Vec::new(),
            repeat_mode: QueueRepeatMode::Off,
            endless_queue: false,
            revision: 0,
        }
    }
}

impl Default for QueueStart {
    fn default() -> (start: QueueStart)
        ensures
            start.tracks@.len() == 0,
            start.current_index == 0,
            start.track is None,
            !start.shuffle,
            !start.endless_queue,
            start.repeat_mode == QueueRepeatMode::Off,
            start.playlist_id is None,
            start.playlist_name is None,
            start.playlist_type is None,
            start.continuation is None,
    {
        QueueStart {
            tracks: Vec::new(),
            current_index: 0,
            track: None,
            playlist_id: None,
            playlist_name: None,
            playlist_type: None,
            continuation: None,
            shuffle: false,
            repeat_mode: QueueRepeatMode::Off,
            endless_queue: false,
        }
    }
}

} // verus!
