use vstd::prelude::*;

use crate::catalog::{QueueRepeatMode, QueueSession};
use crate::endless_queue::{MAX_VISIBLE_QUEUE, doubling, lemma_small_doublings, saturating_add_u32, saturating_add_u64};
use crate::protocol::{AppSnapshot, PlaybackSnapshot, RepeatMode};
use crate::track::Track;

verus! {

/// The position of the first `value` in `order`, or the length when it is absent.
pub open spec fn first_position(order: Seq<usize>, value: usize) -> nat
    decreases order.len(),
{
    if order.len() == 0 {
        0
    } else if order[0] == value {
        0
    } else {
        1 + first_position(order.drop_first(), value)
    }
}

/// The order the queue service plays its tracks in: its shuffle order when that
/// covers every track, else the tracks as listed.
pub open spec fn play_order_view(shuffle: bool, play_order: Seq<usize>, track_count: nat) -> Seq<usize> {
    if shuffle && play_order.len() == track_count {
        play_order
    } else {
        Seq::new(track_count, |i: int| i as usize)
    }
}

/// The current position, kept within the track list.
pub open spec fn clamped_current(current_index: usize, track_count: nat) -> usize {
    let last = if track_count == 0 { 0 } else { (track_count - 1) as usize };
    if current_index < last { current_index } else { last }
}

/// The track indices that follow the current track in play order.
pub open spec fn upcoming_indices(session_current: usize, shuffle: bool, play_order: Seq<usize>, track_count: nat) -> Seq<usize> {
    let order = play_order_view(shuffle, play_order, track_count);
    let at = first_position(order, clamped_current(session_current, track_count));
    if at + 1 <= order.len() { order.subrange(at as int + 1, order.len() as int) } else { Seq::empty() }
}

/// The tracks that `indices` name, skipping indices past the end of the list.
pub open spec fn tracks_at(indices: Seq<usize>, tracks: Seq<Track>) -> Seq<Track>
    decreases indices.len(),
{
    if indices.len() == 0 {
        Seq::empty()
    } else {
        let rest = tracks_at(indices.drop_last(), tracks);
        let i = indices.last();
        if i < tracks.len() { rest.push(tracks[i as int]) } else { rest }
    }
}

/// At most the first `n` elements.
pub open spec fn take_at_most<A>(s: Seq<A>, n: nat) -> Seq<A> {
    if s.len() <= n { s } else { s.subrange(0, n as int) }
}

/// The upcoming indices of a session, as a client numbers its visible queue.
pub open spec fn projected_indices(session: QueueSession) -> Seq<usize> {
    take_at_most(upcoming_indices(session.current_index, session.shuffle, session.play_order@, session.tracks@.len()), MAX_VISIBLE_QUEUE as nat)
}

/// The upcoming tracks of a session that a client shows.
pub open spec fn projected_tracks(session: QueueSession) -> Seq<Track> {
    take_at_most(
        tracks_at(upcoming_indices(session.current_index, session.shuffle, session.play_order@, session.tracks@.len()), session.tracks@),
        MAX_VISIBLE_QUEUE as nat,
    )
}

/// The repeat setting a client shows for the queue service's mode.
pub open spec fn repeat_mode_view(mode: QueueRepeatMode) -> RepeatMode {
    match mode {
        QueueRepeatMode::All => RepeatMode::All,
        QueueRepeatMode::One => RepeatMode::One,
        QueueRepeatMode::Off => RepeatMode::Off,
    }
}

/// The play order of a session.
fn play_order(session: &QueueSession) -> (order: Vec<usize>)
    ensures
        order@ == play_order_view(session.shuffle, session.play_order@, session.tracks@.len()),
{
    if session.shuffle && session.play_order.len() == session.tracks.len() {
        session.play_order.clone()
    } else {
        let mut order: Vec<usize> = Vec::new();
        for i in 0..session.tracks.len()
            invariant
                order@ == Seq::new(i as nat, |j: int| j as usize),
        {
            order.push(i);
            assert(order@ =~= Seq::new((i + 1) as nat, |j: int| j as usize));
        }
        assert(order@ =~= Seq::new(session.tracks@.len(), |j: int| j as usize));
        order
    }
}

/// The indices that follow the current track of `session` in play order.
pub fn upcoming(session: &QueueSession) -> (indices: Vec<usize>)
    ensures
        indices@ == upcoming_indices(session.current_index, session.shuffle, session.play_order@, session.tracks@.len()),
{
    let order = play_order(session);
    let last = if session.tracks.len() == 0 { 0 } else { session.tracks.len() - 1 };
    let current = if session.current_index < last { session.current_index } else { last };
    let mut at: usize = 0;
    assert(order@.subrange(0, order@.len() as int) =~= order@);
    while at < order.len() && order[at] != current
        invariant
            at <= order@.len(),
            first_position(order@, current) == at + first_position(order@.subrange(at as int, order@.len() as int), current),
        decreases order@.len() - at,
    {
        assert(order@.subrange(at as int, order@.len() as int).drop_first() =~= order@.subrange(at + 1, order@.len() as int));
        at = at + 1;
    }
    proof {
        let rest = order@.subrange(at as int, order@.len() as int);
        assert(order@.subrange(0, order@.len() as int) =~= order@);
        if at < order@.len() {
            assert(rest[0] == current);
        }
        assert(first_position(rest, current) == 0);
    }
    let mut indices: Vec<usize> = Vec::new();
    if at < order.len() {
        let mut k = at + 1;
        while k < order.len()
            invariant
                at < k <= order@.len(),
                indices@ == order@.subrange(at + 1, k as int),
            decreases order@.len() - k,
        {
            indices.push(order[k]);
            assert(indices@ =~= order@.subrange(at + 1, k + 1));
            k = k + 1;
        }
    } else {
        assert(indices@ =~= Seq::<usize>::empty());
    }
    indices
}

/// The tracks of `tracks` that `indices` name, skipping indices past the end.
pub fn collect_tracks(indices: &Vec<usize>, tracks: &Vec<Track>) -> (picked: Vec<Track>)
    ensures
        picked@ == tracks_at(indices@, tracks@),
{
    let mut picked: Vec<Track> = Vec::new();
    for k in 0..indices.len()
        invariant
            picked@ == tracks_at(indices@.subrange(0, k as int), tracks@),
    {
        assert(indices@.subrange(0, k + 1).drop_last() =~= indices@.subrange(0, k as int));
        let i = indices[k];
        if i < tracks.len() {
            picked.push(tracks[i].clone());
        }
    }
    assert(indices@.subrange(0, indices@.len() as int) =~= indices@);
    picked
}

/// Sets the visible queue, shuffle flag and repeat mode of `snapshot` from the
/// queue service's `session`: the tracks after the current one in play order, at
/// most twelve.
pub fn project_queue(snapshot: &mut AppSnapshot, session: &QueueSession)
    ensures
        final(snapshot).playback.queue@ == projected_tracks(*session),
        final(snapshot).playback == (PlaybackSnapshot {
            queue: final(snapshot).playback.queue,
            shuffle: session.shuffle,
            repeat_mode: repeat_mode_view(session.repeat_mode),
            ..old(snapshot).playback
        }),
        *final(snapshot) == (AppSnapshot { playback: final(snapshot).playback, ..*old(snapshot) }),
{
    let indices = upcoming(session);
    let mut picked = collect_tracks(&indices, &session.tracks);
    picked.truncate(MAX_VISIBLE_QUEUE);
    snapshot.playback.shuffle = session.shuffle;
    snapshot.playback.repeat_mode = match session.repeat_mode {
        QueueRepeatMode::All => RepeatMode::All,
        QueueRepeatMode::One => RepeatMode::One,
        QueueRepeatMode::Off => RepeatMode::Off,
    };
    snapshot.playback.queue = picked;
}

/// The session id, revision and backend indices behind the visible queue.
#[derive(Debug)]
pub struct QueueProjection {
    pub session_id: String,
    pub revision: i64,
    pub indices: Vec<usize>,
}

/// A refill that brought nothing new for this session, revision and queue length.
#[derive(Debug)]
pub struct RefillMarker {
    pub session_id: String,
    pub revision: i64,
    pub visible_count: usize,
}

/// Failed refills of a session revision and when the next one may go.
#[derive(Debug)]
pub struct RefillBackoff {
    pub session_id: String,
    pub revision: i64,
    pub attempts: u32,
    pub retry_at_ms: u64,
}

/// Failed automatic advances from a position and when the next one may go.
#[derive(Debug)]
pub struct AutoAdvanceMarker {
    pub session_id: String,
    pub revision: i64,
    pub current_index: usize,
    pub attempts: u32,
    pub terminal: bool,
    pub retry_at_ms: u64,
}

/// What the daemon knows of the queue service's session: which one it follows,
/// what the visible queue maps to, and when refills and automatic advances may go.
#[derive(Debug)]
pub struct QueueTracker {
    pub session: Option<(String, i64)>,
    pub endless: bool,
    pub current_index: usize,
    pub projection: Option<QueueProjection>,
    pub refill_marker: Option<RefillMarker>,
    pub refill_backoff: Option<RefillBackoff>,
    pub refill_in_flight: bool,
    pub auto_advance: Option<AutoAdvanceMarker>,
    /// The playback request whose track is still being started, or 0.
    pub pending_transition: u64,
    /// The latest playback request; audio work for any other is abandoned.
    pub generation: u64,
}

/// The seconds to wait after the `attempts`-th failure: doubling from one, at most eight.
pub open spec fn backoff_seconds(attempts: u32) -> u64 {
    let exponent = if attempts == 0 { 0 } else if attempts - 1 > 5 { 5 } else { attempts - 1 };
    if doubling(exponent as nat) > 8 { 8 } else { doubling(exponent as nat) as u64 }
}

/// The wait after the `attempts`-th failure, in whole seconds.
pub fn backoff_delay_seconds(attempts: u32) -> (seconds: u64)
    ensures
        seconds == backoff_seconds(attempts),
        1 <= seconds <= 8,
{
    let exponent: u32 = if attempts == 0 { 0 } else if attempts - 1 > 5 { 5 } else { attempts - 1 };
    let mut value: u64 = 1;
    let mut i: u32 = 0;
    while i < exponent
        invariant
            i <= exponent <= 5,
            value == doubling(i as nat),
            1 <= value <= 32,
        decreases exponent - i,
    {
        assert(doubling((i + 1) as nat) == 2 * doubling(i as nat));
        proof { lemma_small_doublings(); }
        value = value * 2;
        i = i + 1;
    }
    assert(doubling(0) == 1);
    if value > 8 { 8 } else { value }
}

/// `now` plus the wait after the `attempts`-th failure.
pub open spec fn retry_time_ms(now: u64, attempts: u32) -> u64 {
    saturating_add_u64(now, (backoff_seconds(attempts) * 1000) as u64)
}

impl QueueTracker {
    /// A tracker that follows no session.
    pub fn new() -> (tracker: QueueTracker)
        ensures
            tracker.session is None,
            !tracker.endless,
            tracker.current_index == 0,
            tracker.projection is None,
            tracker.refill_marker is None,
            tracker.refill_backoff is None,
            !tracker.refill_in_flight,
            tracker.auto_advance is None,
            tracker.pending_transition == 0,
            tracker.generation == 0,
    {
        QueueTracker {
            session: None,
            endless: false,
            current_index: 0,
            projection: None,
            refill_marker: None,
            refill_backoff: None,
            refill_in_flight: false,
            auto_advance: None,
            pending_transition: 0,
            generation: 0,
        }
    }

    /// Whether a track is still being started; queue edits wait for it.
    pub fn transition_pending(&self) -> (pending: bool)
        ensures
            pending == (self.pending_transition != 0),
    {
        self.pending_transition != 0
    }

    /// Marks playback request `request_id` as the latest one and as the transition
    /// in progress.
    pub fn begin_transition(&mut self, request_id: u64)
        ensures
            *final(self) == (QueueTracker { pending_transition: request_id, generation: request_id, ..*old(self) }),
    {
        self.pending_transition = request_id;
        self.generation = request_id;
    }

    /// Abandons request `superseded` for the newer number `latest`: that becomes the
    /// latest request, and the superseded transition, if still in progress, ends.
    pub fn abandon_transition(&mut self, superseded: u64, latest: u64)
        ensures
            *final(self) == (QueueTracker {
                pending_transition: if old(self).pending_transition == superseded { 0 } else { old(self).pending_transition },
                generation: latest,
                ..*old(self)
            }),
    {
        if self.pending_transition == superseded {
            self.pending_transition = 0;
        }
        self.generation = latest;
    }

    /// Whether audio work for request `request_id` may go on: only while it is the
    /// latest request.
    pub fn may_continue(&self, request_id: u64) -> (current: bool)
        ensures
            current == (self.generation == request_id),
    {
        self.generation == request_id
    }

    /// Ends the transition of request `request_id`, if it is still the one in
    /// progress; a newer one stays pending.
    pub fn clear_pending_transition(&mut self, request_id: u64)
        ensures
            *final(self) == (QueueTracker {
                pending_transition: if old(self).pending_transition == request_id { 0 } else { old(self).pending_transition },
                ..*old(self)
            }),
    {
        if self.pending_transition == request_id {
            self.pending_transition = 0;
        }
    }

    /// Forgets why refills were held back.
    pub fn clear_refill_markers(&mut self)
        ensures
            final(self).refill_marker is None,
            final(self).refill_backoff is None,
            final(self).session == old(self).session,
            final(self).endless == old(self).endless,
            final(self).current_index == old(self).current_index,
            final(self).projection == old(self).projection,
            final(self).refill_in_flight == old(self).refill_in_flight,
            final(self).auto_advance == old(self).auto_advance,
    {
        self.refill_marker = None;
        self.refill_backoff = None;
    }

    /// Forgets why automatic advances were held back.
    pub fn clear_auto_advance_marker(&mut self)
        ensures
            *final(self) == (QueueTracker { auto_advance: None, ..*old(self) }),
    {
        self.auto_advance = None;
    }

    /// The id of the followed session.
    pub fn session_id(&self) -> (id: Option<String>)
        ensures
            match self.session {
                Some((s, _)) => id matches Some(i) && i@ == s@,
                None => id is None,
            },
    {
        match &self.session {
            Some((id, _)) => Some(id.clone()),
            None => None,
        }
    }

    /// The id and revision of the followed session.
    pub fn session_info(&self) -> (info: Option<(String, i64)>)
        ensures
            match self.session {
                Some((s, r)) => info matches Some((i, ir)) && i@ == s@ && ir == r,
                None => info is None,
            },
    {
        match &self.session {
            Some((id, revision)) => Some((id.clone(), *revision)),
            None => None,
        }
    }

    /// Follows `session` if it is the session already followed at the same or a
    /// newer revision, or if no session is followed. A different session, or an
    /// older revision, is refused and nothing changes. A new session or revision
    /// clears the refill and advance markers unless a refill is in flight.
    pub fn accept_session(&mut self, session: &QueueSession) -> (accepted: bool)
        ensures
            accepted == !session_refused(*old(self), *session),
            !accepted ==> *final(self) == *old(self),
            accepted ==> accepted_into(*old(self), *final(self), *session),
    {
        let mut fresh = true;
        if let Some((id, revision)) = &self.session {
            if !id.eq(&session.id) || session.revision < *revision {
                return false;
            }
            fresh = session.revision > *revision;
        }
        self.session = Some((session.id.clone(), session.revision));
        if fresh && !self.refill_in_flight {
            self.refill_marker = None;
            self.refill_backoff = None;
            self.auto_advance = None;
        }
        self.endless = session.endless_queue;
        self.current_index = session.current_index;
        true
    }

    /// Follows `session` whatever was followed before, clearing every marker.
    pub fn replace_session(&mut self, session: &QueueSession)
        ensures
            replaced_by(*old(self), *final(self), *session),
            final(self).session matches Some((id, revision)) && id@ == session.id@ && revision
                == session.revision,
            final(self).endless == session.endless_queue,
            final(self).current_index == session.current_index,
            final(self).refill_marker is None,
            final(self).refill_backoff is None,
            final(self).auto_advance is None,
            final(self).projection == old(self).projection,
            final(self).refill_in_flight == old(self).refill_in_flight,
    {
        self.refill_marker = None;
        self.refill_backoff = None;
        self.auto_advance = None;
        self.session = Some((session.id.clone(), session.revision));
        self.endless = session.endless_queue;
        self.current_index = session.current_index;
    }

    /// Projects `session` into `snapshot` and remembers which backend index each
    /// visible row stands for.
    pub fn project_queue_for(&mut self, snapshot: &mut AppSnapshot, session: &QueueSession)
        ensures
            final(snapshot).playback.queue@ == projected_tracks(*session),
            final(snapshot).playback == (PlaybackSnapshot {
                queue: final(snapshot).playback.queue,
                shuffle: session.shuffle,
                repeat_mode: repeat_mode_view(session.repeat_mode),
                ..old(snapshot).playback
            }),
            *final(snapshot) == (AppSnapshot { playback: final(snapshot).playback, ..*old(snapshot) }),
            final(self).projection matches Some(p) && p.session_id@ == session.id@ && p.revision
                == session.revision && p.indices@ == projected_indices(*session),
            *final(self) == (QueueTracker { projection: final(self).projection, ..*old(self) }),
    {
        project_queue(snapshot, session);
        let mut indices = upcoming(session);
        indices.truncate(MAX_VISIBLE_QUEUE);
        self.projection = Some(QueueProjection { session_id: session.id.clone(), revision: session.revision, indices });
    }

    /// The backend index behind visible row `visible_index`, when the projection
    /// belongs to this session revision and has that row.
    pub fn visible_backend_index(&self, session_id: &str, revision: i64, visible_index: usize) -> (index: Option<usize>)
        ensures
            index == (match self.projection {
                Some(p) => if p.session_id@ == session_id@ && p.revision == revision && visible_index
                    < p.indices@.len() {
                    Some(p.indices@[visible_index as int])
                } else {
                    None
                },
                None => None,
            }),
    {
        match &self.projection {
            Some(projection) => {
                if projection.session_id.eq(&session_id.to_owned()) && projection.revision == revision
                    && visible_index < projection.indices.len() {
                    Some(projection.indices[visible_index])
                } else {
                    None
                }
            },
            None => None,
        }
    }

    /// Whether the queue may be refilled at time `now_ms`: not when the last refill
    /// of this session revision at this length brought nothing, and not while a
    /// failed refill of this revision waits out its delay. A stale marker is dropped.
    pub fn refill_allowed_at(&mut self, session_id: &str, revision: i64, visible_count: usize, now_ms: u64) -> (allowed: bool)
        ensures
            allowed == refill_permitted(*old(self), session_id@, revision, visible_count, now_ms),
            refill_checked(*old(self), *final(self), session_id@, revision, visible_count, now_ms),
    {
        let id = session_id.to_owned();
        let blocked = match &self.refill_marker {
            Some(marker) => marker.session_id.eq(&id) && marker.revision == revision && marker.visible_count
                == visible_count,
            None => false,
        };
        if blocked {
            return false;
        }
        self.refill_marker = None;
        let waiting = match &self.refill_backoff {
            Some(backoff) => backoff.session_id.eq(&id) && backoff.revision == revision,
            None => false,
        };
        if waiting {
            let retry_at = match &self.refill_backoff {
                Some(backoff) => backoff.retry_at_ms,
                None => 0,
            };
            if retry_at > now_ms {
                return false;
            }
            self.refill_backoff = None;
        }
        true
    }

    /// Remembers a refill that did not grow the queue, so it is not repeated for the
    /// same revision and length; a refill that grew it, or filled it, clears that.
    pub fn record_refill_result(&mut self, session_id: &str, revision: i64, previous_count: usize, updated_count: usize)
        ensures
            refill_result_marker(final(self).refill_marker, session_id@, revision, previous_count, updated_count),
            *final(self) == (QueueTracker { refill_marker: final(self).refill_marker, ..*old(self) }),
    {
        if updated_count > previous_count || updated_count >= MAX_VISIBLE_QUEUE {
            self.refill_marker = None;
        } else {
            self.refill_marker = Some(RefillMarker { session_id: session_id.to_owned(), revision, visible_count: updated_count });
        }
    }

    /// Counts a failed refill at time `now_ms` and sets when the next may go: one
    /// second after the first failure, doubling, at most eight.
    pub fn record_refill_error_at(&mut self, session_id: &str, revision: i64, now_ms: u64)
        ensures
            refill_error_backoff(old(self).refill_backoff, final(self).refill_backoff, session_id@, revision, now_ms),
            *final(self) == (QueueTracker { refill_backoff: final(self).refill_backoff, ..*old(self) }),
    {
        let id = session_id.to_owned();
        let attempts = match &self.refill_backoff {
            Some(backoff) => if backoff.session_id.eq(&id) && backoff.revision == revision {
                backoff.attempts.saturating_add(1)
            } else {
                1
            },
            None => 1,
        };
        let delay = backoff_delay_seconds(attempts);
        self.refill_backoff = Some(RefillBackoff { session_id: id, revision, attempts, retry_at_ms: now_ms.saturating_add(delay * 1000) });
    }

    /// Whether the player may advance on its own at time `now_ms`: always, unless
    /// an earlier advance from this very position failed for good or is waiting
    /// out its delay.
    pub fn auto_advance_allowed_at(&self, session_id: &str, revision: i64, current_index: usize, now_ms: u64) -> (allowed: bool)
        ensures
            allowed == advance_permitted(*self, session_id@, revision, current_index, now_ms),
    {
        match &self.auto_advance {
            Some(marker) => {
                if !marker.session_id.eq(&session_id.to_owned()) || marker.revision != revision || marker.current_index
                    != current_index {
                    true
                } else {
                    !marker.terminal && marker.retry_at_ms <= now_ms
                }
            },
            None => true,
        }
    }

    /// Counts a failed automatic advance at time `now_ms`. It becomes final when the
    /// caller says so or after six failures from the same position.
    pub fn record_auto_advance_error_at(&mut self, session_id: &str, revision: i64, current_index: usize, terminal: bool, now_ms: u64)
        ensures
            advance_error_marker(old(self).auto_advance, final(self).auto_advance, session_id@, revision, current_index, terminal, now_ms),
            *final(self) == (QueueTracker { auto_advance: final(self).auto_advance, ..*old(self) }),
    {
        let id = session_id.to_owned();
        let attempts = match &self.auto_advance {
            Some(marker) => if marker.session_id.eq(&id) && marker.revision == revision && marker.current_index == current_index {
                marker.attempts.saturating_add(1)
            } else {
                1
            },
            None => 1,
        };
        let delay = backoff_delay_seconds(attempts);
        self.auto_advance = Some(AutoAdvanceMarker {
            session_id: id,
            revision,
            current_index,
            attempts,
            terminal: terminal || attempts >= 6,
            retry_at_ms: now_ms.saturating_add(delay * 1000),
        });
    }
}


/// Whether the last refill of session `id` at `revision` and this length brought
/// nothing.
pub open spec fn refill_blocked(tracker: QueueTracker, id: Seq<char>, revision: i64, visible_count: usize) -> bool {
    tracker.refill_marker matches Some(m) && m.session_id@ == id && m.revision == revision && m.visible_count == visible_count
}

/// Whether a failed refill of session `id` at `revision` is on record.
pub open spec fn refill_waiting(tracker: QueueTracker, id: Seq<char>, revision: i64) -> bool {
    tracker.refill_backoff matches Some(b) && b.session_id@ == id && b.revision == revision
}

/// Whether a refill may go at time `now`: not blocked, and not waiting out a delay.
pub open spec fn refill_permitted(tracker: QueueTracker, id: Seq<char>, revision: i64, visible_count: usize, now: u64) -> bool {
    !refill_blocked(tracker, id, revision, visible_count) && !(refill_waiting(tracker, id, revision)
        && tracker.refill_backoff.unwrap().retry_at_ms > now)
}

/// Whether `after` is `before` once a refill was asked for: unless blocked, a stale
/// marker is dropped, and a delay that is over is forgotten.
pub open spec fn refill_checked(before: QueueTracker, after: QueueTracker, id: Seq<char>, revision: i64, visible_count: usize, now: u64) -> bool {
    let blocked = refill_blocked(before, id, revision, visible_count);
    let waiting = refill_waiting(before, id, revision);
    let delayed = waiting && before.refill_backoff.unwrap().retry_at_ms > now;
    after == (QueueTracker {
        refill_marker: if blocked { before.refill_marker } else { None },
        refill_backoff: if !blocked && waiting && !delayed { None } else { before.refill_backoff },
        ..before
    })
}

/// Whether `marker` records a refill of session `id` at `revision` that took the
/// queue from `previous` to `updated` rows: none when it grew or is full.
pub open spec fn refill_result_marker(marker: Option<RefillMarker>, id: Seq<char>, revision: i64, previous: usize, updated: usize) -> bool {
    if updated > previous || updated >= MAX_VISIBLE_QUEUE {
        marker is None
    } else {
        marker matches Some(m) && m.session_id@ == id && m.revision == revision && m.visible_count == updated
    }
}

/// Whether `after` counts one more failed refill of session `id` at `revision` than
/// `before`, retrying after the delay from time `now`.
pub open spec fn refill_error_backoff(before: Option<RefillBackoff>, after: Option<RefillBackoff>, id: Seq<char>, revision: i64, now: u64) -> bool {
    let attempts = match before {
        Some(b) => if b.session_id@ == id && b.revision == revision { saturating_add_u32(b.attempts, 1) } else { 1 },
        None => 1,
    };
    after matches Some(b) && b.session_id@ == id && b.revision == revision && b.attempts == attempts
        && b.retry_at_ms == retry_time_ms(now, attempts)
}

/// Whether the player may advance on its own from `current_index` at time `now`.
pub open spec fn advance_permitted(tracker: QueueTracker, id: Seq<char>, revision: i64, current_index: usize, now: u64) -> bool {
    match tracker.auto_advance {
        Some(m) => if m.session_id@ != id || m.revision != revision || m.current_index != current_index {
            true
        } else {
            !m.terminal && m.retry_at_ms <= now
        },
        None => true,
    }
}

/// Whether `after` counts one more failed advance from `current_index` than
/// `before`; it is final when `terminal` or after six failures.
pub open spec fn advance_error_marker(
    before: Option<AutoAdvanceMarker>,
    after: Option<AutoAdvanceMarker>,
    id: Seq<char>,
    revision: i64,
    current_index: usize,
    terminal: bool,
    now: u64,
) -> bool {
    let attempts = match before {
        Some(m) => if m.session_id@ == id && m.revision == revision && m.current_index == current_index {
            saturating_add_u32(m.attempts, 1)
        } else {
            1
        },
        None => 1,
    };
    after matches Some(m) && m.session_id@ == id && m.revision == revision && m.current_index == current_index
        && m.attempts == attempts && m.terminal == (terminal || attempts >= 6) && m.retry_at_ms == retry_time_ms(now, attempts)
}

/// Whether `tracker` refuses `session`: it follows another session, or a newer
/// revision of this one.
pub open spec fn session_refused(tracker: QueueTracker, session: QueueSession) -> bool {
    tracker.session matches Some((id, revision)) && (id@ != session.id@ || session.revision < revision)
}

/// Whether `after` is `before` once it accepted `session`: it follows the session's
/// id and revision, takes its endless flag and position, and forgets the refill
/// and advance markers when the session or revision is new and no refill is in
/// flight.
pub open spec fn accepted_into(before: QueueTracker, after: QueueTracker, session: QueueSession) -> bool {
    let fresh = before.session is None || (before.session matches Some((id, revision)) && session.revision > revision);
    &&& after.session matches Some((id, revision)) && id@ == session.id@ && revision == session.revision
    &&& if fresh && !before.refill_in_flight {
        after.refill_marker is None && after.refill_backoff is None && after.auto_advance is None
    } else {
        after.refill_marker == before.refill_marker && after.refill_backoff == before.refill_backoff
            && after.auto_advance == before.auto_advance
    }
    &&& after == (QueueTracker {
        session: after.session,
        endless: session.endless_queue,
        current_index: session.current_index,
        refill_marker: after.refill_marker,
        refill_backoff: after.refill_backoff,
        auto_advance: after.auto_advance,
        ..before
    })
}

/// Whether `after` is `before` following `session` from scratch, every marker
/// forgotten.
pub open spec fn replaced_by(before: QueueTracker, after: QueueTracker, session: QueueSession) -> bool {
    &&& after.session matches Some((id, revision)) && id@ == session.id@ && revision == session.revision
    &&& after == (QueueTracker {
        session: after.session,
        endless: session.endless_queue,
        current_index: session.current_index,
        refill_marker: None,
        refill_backoff: None,
        auto_advance: None,
        ..before
    })
}

/// Every index in `indices` names a track.
pub open spec fn all_in_range(indices: Seq<usize>, count: nat) -> bool {
    forall|i: int| 0 <= i < indices.len() ==> #[trigger] indices[i] < count
}

proof fn lemma_tracks_at_in_range(indices: Seq<usize>, tracks: Seq<Track>)
    requires
        all_in_range(indices, tracks.len()),
    ensures
        tracks_at(indices, tracks).len() == indices.len(),
        forall|i: int| 0 <= i < indices.len() ==> #[trigger] tracks_at(indices, tracks)[i] == tracks[indices[i] as int],
    decreases indices.len(),
{
    if indices.len() > 0 {
        let rest = indices.drop_last();
        assert(all_in_range(rest, tracks.len())) by {
            assert forall|i: int| 0 <= i < rest.len() implies #[trigger] rest[i] < tracks.len() by {
                assert(rest[i] == indices[i]);
            }
        }
        lemma_tracks_at_in_range(rest, tracks);
        assert(indices.last() < tracks.len());
        assert forall|i: int| 0 <= i < indices.len() implies #[trigger] tracks_at(indices, tracks)[i] == tracks[indices[i] as int] by {
            if i < rest.len() {
                assert(rest[i] == indices[i]);
            }
        }
    }
}

proof fn lemma_first_position_bound(order: Seq<usize>, value: usize)
    ensures
        first_position(order, value) <= order.len(),
    decreases order.len(),
{
    if order.len() > 0 && order[0] != value {
        lemma_first_position_bound(order.drop_first(), value);
    }
}

/// When the queue service's play order names only real tracks, visible row `i`
/// shows exactly the track at the backend index the projection keeps for row `i`,
/// so acting on a visible row acts on the track the user sees.
pub proof fn lemma_projection_matches_visible_queue(session: QueueSession, row: int)
    requires
        !session.shuffle || session.play_order@.len() != session.tracks@.len() || all_in_range(session.play_order@, session.tracks@.len()),
        0 <= row < projected_indices(session).len(),
    ensures
        projected_tracks(session).len() == projected_indices(session).len(),
        row < projected_tracks(session).len(),
        projected_tracks(session)[row] == session.tracks@[projected_indices(session)[row] as int],
{
    let count = session.tracks@.len();
    let order = play_order_view(session.shuffle, session.play_order@, count);
    let at = first_position(order, clamped_current(session.current_index, count));
    lemma_first_position_bound(order, clamped_current(session.current_index, count));
    assert(all_in_range(order, count));
    let up = upcoming_indices(session.current_index, session.shuffle, session.play_order@, count);
    assert(all_in_range(up, count)) by {
        assert forall|i: int| 0 <= i < up.len() implies #[trigger] up[i] < count by {
            assert(up[i] == order[at + 1 + i]);
        }
    }
    lemma_tracks_at_in_range(up, session.tracks@);
}

} // verus!
