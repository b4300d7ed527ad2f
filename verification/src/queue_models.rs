use vstd::prelude::*;

use crate::catalog::{QueueRepeatMode, QueueSession, QueueStart};
use crate::endless_queue::opt_view;
use crate::track::Track;

verus! {

/// A track as the queue service stores it.
#[derive(Debug)]
pub struct QueueTrack {
    pub video_id: String,
    pub title: String,
    pub artist: String,
    pub duration_sec: u64,
    pub thumbnail: String,
    pub result_type: String,
    pub source: String,
}

/// The body of a request that starts a queue session.
#[derive(Debug)]
pub struct QueueStartRequest {
    pub tracks: Vec<QueueTrack>,
    pub current_index: usize,
    pub track: Option<QueueTrack>,
    pub playlist_id: Option<String>,
    pub playlist_name: Option<String>,
    pub playlist_type: Option<String>,
    pub continuation: Option<String>,
    pub shuffle: bool,
    pub repeat_mode: String,
    pub endless_queue: bool,
}

/// A queue session as the queue service sends it.
#[derive(Debug)]
pub struct QueueSessionResponse {
    pub id: String,
    pub state: String,
    pub tracks: Vec<QueueTrack>,
    pub current_index: usize,
    pub playlist_id: Option<String>,
    pub playlist_name: Option<String>,
    pub playlist_type: Option<String>,
    pub continuation: Option<String>,
    pub shuffle: bool,
    pub play_order: Vec<usize>,
    pub repeat_mode: String,
    pub endless_queue: bool,
    pub revision: i64,
}

/// Whether a length is zero, which the queue service leaves out.
pub fn is_zero(value: &u64) -> (zero: bool)
    ensures
        zero == (*value == 0),
{
    *value == 0
}

/// The queue service's name for a repeat mode.
pub open spec fn repeat_mode_text(mode: QueueRepeatMode) -> Seq<char> {
    match mode {
        QueueRepeatMode::Off => "none"@,
        QueueRepeatMode::All => "all"@,
        QueueRepeatMode::One => "one"@,
    }
}

/// The repeat mode a name stands for: `"all"`, `"one"`, and anything else is off.
pub open spec fn repeat_mode_of(name: Seq<char>) -> QueueRepeatMode {
    if name == "all"@ {
        QueueRepeatMode::All
    } else if name == "one"@ {
        QueueRepeatMode::One
    } else {
        QueueRepeatMode::Off
    }
}

/// The queue service's name for `mode`.
pub fn repeat_mode_name(mode: QueueRepeatMode) -> (name: String)
    ensures
        name@ == repeat_mode_text(mode),
{
    match mode {
        QueueRepeatMode::Off => "none".to_owned(),
        QueueRepeatMode::All => "all".to_owned(),
        QueueRepeatMode::One => "one".to_owned(),
    }
}

/// The repeat mode named by `mode`; an unknown name means no repeat.
pub fn parse_repeat_mode(mode: &str) -> (parsed: QueueRepeatMode)
    ensures
        parsed == repeat_mode_of(mode@),
{
    let given = mode.to_owned();
    let all = "all".to_owned();
    let one = "one".to_owned();
    if given.eq(&all) {
        QueueRepeatMode::All
    } else if given.eq(&one) {
        QueueRepeatMode::One
    } else {
        QueueRepeatMode::Off
    }
}

/// Whether `queued` is how the queue service stores `track`: whole seconds, the
/// artwork URL or nothing, and no result type or source.
pub open spec fn stores_track(queued: QueueTrack, track: Track) -> bool {
    &&& queued.video_id@ == track.id@
    &&& queued.title@ == track.title@
    &&& queued.artist@ == track.artist@
    &&& queued.duration_sec == track.duration_ms / 1000
    &&& queued.thumbnail@ == match track.thumbnail_url {
        Some(url) => url@,
        None => Seq::empty(),
    }
    &&& queued.result_type@.len() == 0
    &&& queued.source@.len() == 0
}

/// Whether `track` is what the stored `queued` track plays as: its seconds in
/// milliseconds (saturating), and its artwork when there is one.
pub open spec fn plays_as(track: Track, queued: QueueTrack) -> bool {
    &&& track.id@ == queued.video_id@
    &&& track.title@ == queued.title@
    &&& track.artist@ == queued.artist@
    &&& track.duration_ms == if queued.duration_sec * 1000 > u64::MAX {
        u64::MAX as int
    } else {
        queued.duration_sec * 1000
    }
    &&& opt_view(track.thumbnail_url) == if queued.thumbnail@.len() == 0 {
        None
    } else {
        Some(queued.thumbnail@)
    }
}

impl QueueTrack {
    /// How the queue service stores `track`.
    pub fn from_track(track: &Track) -> (queued: QueueTrack)
        ensures
            stores_track(queued, *track),
    {
        QueueTrack {
            video_id: track.id.clone(),
            title: track.title.clone(),
            artist: track.artist.clone(),
            duration_sec: track.duration_ms / 1000,
            thumbnail: match &track.thumbnail_url {
                Some(url) => url.clone(),
                None => String::new(),
            },
            result_type: String::new(),
            source: String::new(),
        }
    }

    /// The track a stored queue entry plays as.
    pub fn into_track(self) -> (track: Track)
        ensures
            plays_as(track, self),
    {
        let duration_ms: u64 = if self.duration_sec > u64::MAX / 1000 {
            u64::MAX
        } else {
            self.duration_sec * 1000
        };
        let track = Track::new(self.video_id.as_str(), self.title.as_str(), self.artist.as_str(), duration_ms);
        if self.thumbnail.as_str().unicode_len() == 0 {
            track
        } else {
            track.with_thumbnail(self.thumbnail)
        }
    }
}

/// How the queue service stores each of `tracks`.
pub fn queue_tracks_from(tracks: &Vec<Track>) -> (queued: Vec<QueueTrack>)
    ensures
        queued@.len() == tracks@.len(),
        forall|i: int| 0 <= i < tracks@.len() ==> stores_track(#[trigger] queued@[i], tracks@[i]),
{
    let mut queued: Vec<QueueTrack> = Vec::new();
    for i in 0..tracks.len()
        invariant
            queued@.len() == i,
            forall|k: int| 0 <= k < i ==> stores_track(#[trigger] queued@[k], tracks@[k]),
    {
        queued.push(QueueTrack::from_track(&tracks[i]));
    }
    queued
}

/// The tracks that stored queue entries play as, in order.
pub fn tracks_from_queue(queued: Vec<QueueTrack>) -> (tracks: Vec<Track>)
    ensures
        tracks@.len() == queued@.len(),
        forall|i: int| 0 <= i < queued@.len() ==> plays_as(#[trigger] tracks@[i], queued@[i]),
{
    let mut queued = queued;
    let ghost initial = queued@;
    let mut reversed: Vec<Track> = Vec::new();
    while queued.len() > 0
        invariant
            queued@ == initial.subrange(0, queued@.len() as int),
            reversed@.len() + queued@.len() == initial.len(),
            forall|k: int| 0 <= k < reversed@.len() ==> plays_as(#[trigger] reversed@[k], initial[initial.len() - 1 - k]),
        decreases queued@.len(),
    {
        let entry = queued.pop().unwrap();
        reversed.push(entry.into_track());
    }
    let mut tracks: Vec<Track> = Vec::new();
    while reversed.len() > 0
        invariant
            tracks@.len() + reversed@.len() == initial.len(),
            forall|k: int| 0 <= k < reversed@.len() ==> plays_as(#[trigger] reversed@[k], initial[initial.len() - 1 - k]),
            forall|i: int| 0 <= i < tracks@.len() ==> plays_as(#[trigger] tracks@[i], initial[i]),
        decreases reversed@.len(),
    {
        let track = reversed.pop().unwrap();
        tracks.push(track);
    }
    tracks
}

impl QueueStartRequest {
    /// The request body that starts the session `request` describes.
    pub fn from_start(request: QueueStart) -> (body: QueueStartRequest)
        ensures
            body.tracks@.len() == request.tracks@.len(),
            forall|i: int| 0 <= i < request.tracks@.len() ==> stores_track(#[trigger] body.tracks@[i], request.tracks@[i]),
            body.current_index == request.current_index,
            request.track is None ==> body.track is None,
            request.track matches Some(t) ==> (body.track matches Some(q) && stores_track(q, t)),
            body.playlist_id == request.playlist_id,
            body.playlist_name == request.playlist_name,
            body.playlist_type == request.playlist_type,
            body.continuation == request.continuation,
            body.shuffle == request.shuffle,
            body.repeat_mode@ == repeat_mode_text(request.repeat_mode),
            body.endless_queue == request.endless_queue,
    {
        let tracks = queue_tracks_from(&request.tracks);
        let track = match &request.track {
            Some(t) => Some(QueueTrack::from_track(t)),
            None => None,
        };
        QueueStartRequest {
            tracks,
            current_index: request.current_index,
            track,
            playlist_id: request.playlist_id,
            playlist_name: request.playlist_name,
            playlist_type: request.playlist_type,
            continuation: request.continuation,
            shuffle: request.shuffle,
            repeat_mode: repeat_mode_name(request.repeat_mode),
            endless_queue: request.endless_queue,
        }
    }
}

/// The queue session a response describes: its entries become tracks and its
/// repeat mode is read by name.
pub fn queue_session_from(response: QueueSessionResponse) -> (session: QueueSession)
    ensures
        session.id == response.id,
        session.state == response.state,
        session.tracks@.len() == response.tracks@.len(),
        forall|i: int| 0 <= i < response.tracks@.len() ==> plays_as(#[trigger] session.tracks@[i], response.tracks@[i]),
        session.current_index == response.current_index,
        session.playlist_id == response.playlist_id,
        session.playlist_name == response.playlist_name,
        session.playlist_type == response.playlist_type,
        session.continuation == response.continuation,
        session.shuffle == response.shuffle,
        session.play_order == response.play_order,
        session.repeat_mode == repeat_mode_of(response.repeat_mode@),
        session.endless_queue == response.endless_queue,
        session.revision == response.revision,
{
    let repeat_mode = parse_repeat_mode(response.repeat_mode.as_str());
    QueueSession {
        id: response.id,
        state: response.state,
        tracks: tracks_from_queue(response.tracks),
        current_index: response.current_index,
        playlist_id: response.playlist_id,
        playlist_name: response.playlist_name,
        playlist_type: response.playlist_type,
        continuation: response.continuation,
        shuffle: response.shuffle,
        play_order: response.play_order,
        repeat_mode,
        endless_queue: response.endless_queue,
        revision: response.revision,
    }
}

/// Naming a repeat mode and reading the name back gives the same mode.
pub proof fn lemma_repeat_mode_round_trip(mode: QueueRepeatMode)
    ensures
        repeat_mode_of(repeat_mode_text(mode)) == mode,
{
    reveal_strlit("none");
    reveal_strlit("all");
    reveal_strlit("one");
    assert("none"@ != "all"@ && "none"@ != "one"@) by {
        assert("none"@.len() != "all"@.len());
        assert("none"@.len() != "one"@.len());
    }
    assert("one"@ != "all"@) by {
        assert("one"@[0] != "all"@[0]);
    }
}

/// A track stored in the queue service and played back keeps its identity and
/// artwork, and its duration rounded down to whole seconds.
pub proof fn lemma_queue_track_round_trip(track: Track, queued: QueueTrack, back: Track)
    requires
        stores_track(queued, track),
        plays_as(back, queued),
    ensures
        back.id@ == track.id@,
        back.title@ == track.title@,
        back.artist@ == track.artist@,
        back.duration_ms == (track.duration_ms / 1000) * 1000,
        track.thumbnail_url is None ==> back.thumbnail_url is None,
        track.thumbnail_url is Some && track.thumbnail_url->0@.len() > 0 ==> opt_view(back.thumbnail_url) == opt_view(
            track.thumbnail_url,
        ),
{
    assert((track.duration_ms / 1000) * 1000 <= track.duration_ms) by (nonlinear_arith);
}

} // verus!
