use vstd::prelude::*;

use std::collections::VecDeque;

use crate::catalog::{RadioPage, RadioRequest, MAX_RADIO_RESULTS, clamp};
use crate::clock::unix_millis;
use crate::text::{is_blank, trimmed};
use crate::track::Track;

verus! {

/// How many upcoming tracks the client shows.
pub const MAX_VISIBLE_QUEUE: usize = 12;
/// How many tracks the radio keeps ready, visible and pending together.
pub const PREFETCH_INVENTORY: usize = 24;
/// Pages in a row that add nothing before the radio gives up.
pub const MAX_NO_PROGRESS_PAGES: u8 = 3;
/// The shortest retry delay, in milliseconds.
pub const RETRY_BASE_MS: u64 = 250;
/// The longest retry delay, in milliseconds.
pub const RETRY_MAX_MS: u64 = 8000;

/// The view of an optional string.
pub open spec fn opt_view(value: Option<String>) -> Option<Seq<char>> {
    match value {
        Some(s) => Some(s@),
        None => None,
    }
}

/// The ids of a run of tracks.
pub open spec fn track_ids(tracks: Seq<Track>) -> Seq<Seq<char>> {
    tracks.map_values(|t: Track| t.id@)
}

/// Walks `tracks` in order and keeps each one whose id has not been seen yet,
/// adding that id to the seen set.
pub open spec fn admit_unseen(seen: Set<Seq<char>>, tracks: Seq<Track>) -> (Set<Seq<char>>, Seq<Track>)
    decreases tracks.len(),
{
    if tracks.len() == 0 {
        (seen, Seq::empty())
    } else {
        let (seen_before, kept) = admit_unseen(seen, tracks.drop_last());
        let track = tracks.last();
        if seen_before.contains(track.id@) {
            (seen_before, kept)
        } else {
            (seen_before.insert(track.id@), kept.push(track))
        }
    }
}

/// `2^exponent`.
pub open spec fn doubling(exponent: nat) -> nat
    decreases exponent,
{
    if exponent == 0 { 1 } else { 2 * doubling((exponent - 1) as nat) }
}

/// The first few powers of two.
pub proof fn lemma_small_doublings()
    ensures
        doubling(0) == 1,
        doubling(1) == 2,
        doubling(2) == 4,
        doubling(3) == 8,
        doubling(4) == 16,
        doubling(5) == 32,
{
    assert(doubling(0) == 1);
    assert(doubling(1) == 2);
    assert(doubling(2) == 4);
    assert(doubling(3) == 8);
    assert(doubling(4) == 16);
    assert(doubling(5) == 32);
}

/// The delay before retry number `attempt`: 250 ms doubled for each earlier
/// attempt, never more than 8 s.
pub open spec fn retry_backoff_ms(attempt: u32) -> u64 {
    let exponent = if attempt == 0 { 0 } else if attempt - 1 > 5 { 5 } else { attempt - 1 };
    let delay = RETRY_BASE_MS * doubling(exponent as nat);
    if delay > RETRY_MAX_MS { RETRY_MAX_MS } else { delay as u64 }
}

/// `a + b`, stopping at `u64::MAX`.
pub open spec fn saturating_add_u64(a: u64, b: u64) -> u64 {
    if a + b > u64::MAX { u64::MAX } else { (a + b) as u64 }
}

/// The generation after `g`, wrapping around at `u64::MAX`.
pub open spec fn next_generation(g: u64) -> u64 {
    if g == u64::MAX { 0 } else { (g + 1) as u64 }
}

/// The abstract state of an endless radio queue.
pub struct EndlessView {
    pub enabled: bool,
    pub seed_track_id: Seq<char>,
    pub continuation: Option<Seq<char>>,
    pub pending: Seq<Track>,
    pub seen: Set<Seq<char>>,
    pub fetching: bool,
    pub exhausted: bool,
    pub generation: u64,
    pub retry_after_ms: Option<u64>,
    pub retry_attempt: u32,
    pub no_progress_pages: u8,
}

/// Keeps a radio run going behind the visible queue: remembers every track it has
/// offered, holds the tracks not yet shown, and decides when to ask for more.
#[derive(Debug)]
pub struct EndlessQueue {
    enabled: bool,
    seed_track_id: String,
    continuation: Option<String>,
    pending: VecDeque<Track>,
    seen: Vec<String>,
    fetching: bool,
    exhausted: bool,
    generation: u64,
    retry_after_ms: Option<u64>,
    retry_attempt: u32,
    no_progress_pages: u8,
}

impl View for EndlessQueue {
    type V = EndlessView;

    closed spec fn view(&self) -> EndlessView {
        EndlessView {
            enabled: self.enabled,
            seed_track_id: self.seed_track_id@,
            continuation: opt_view(self.continuation),
            pending: self.pending@,
            seen: self.seen@.map_values(|s: String| s@).to_set(),
            fetching: self.fetching,
            exhausted: self.exhausted,
            generation: self.generation,
            retry_after_ms: self.retry_after_ms,
            retry_attempt: self.retry_attempt,
            no_progress_pages: self.no_progress_pages,
        }
    }
}

/// Whether the radio is allowed to look for more tracks at all.
pub open spec fn may_fetch(q: EndlessView, visible_count: usize) -> bool {
    q.enabled && !q.fetching && !q.exhausted && visible_count + q.pending.len() < PREFETCH_INVENTORY
}

/// Appending an element to a sequence adds it to the sequence's set.
pub proof fn lemma_push_to_set<A>(s: Seq<A>, x: A)
    ensures
        s.push(x).to_set() == s.to_set().insert(x),
{
    assert forall|a: A| s.push(x).to_set().contains(a) implies s.to_set().insert(x).contains(a) by {
        let j = choose|j: int| 0 <= j < s.push(x).len() && s.push(x)[j] == a;
        if j < s.len() {
            assert(s[j] == a);
        }
    }
    assert forall|a: A| s.to_set().insert(x).contains(a) implies s.push(x).to_set().contains(a) by {
        if a == x {
            assert(s.push(x)[s.len() as int] == a);
        } else {
            let j = choose|j: int| 0 <= j < s.len() && s[j] == a;
            assert(s.push(x)[j] == a);
        }
    }
    assert(s.push(x).to_set() =~= s.to_set().insert(x));
}

/// Clones every track of a slice.
pub fn clone_tracks(tracks: &[Track]) -> (copy: Vec<Track>)
    ensures
        copy@ == tracks@,
{
    let mut copy: Vec<Track> = Vec::new();
    for i in 0..tracks.len()
        invariant
            copy@ == tracks@.subrange(0, i as int),
    {
        copy.push(tracks[i].clone());
        assert(copy@ =~= tracks@.subrange(0, i + 1));
    }
    assert(tracks@.subrange(0, tracks.len() as int) =~= tracks@);
    copy
}

/// The delay before retry number `attempt`.
pub fn retry_backoff(attempt: u32) -> (delay_ms: u64)
    ensures
        delay_ms == retry_backoff_ms(attempt),
        RETRY_BASE_MS <= delay_ms <= RETRY_MAX_MS,
{
    let exponent: u32 = if attempt == 0 { 0 } else if attempt - 1 > 5 { 5 } else { attempt - 1 };
    let mut delay: u64 = RETRY_BASE_MS;
    let mut i: u32 = 0;
    while i < exponent
        invariant
            i <= exponent <= 5,
            delay == RETRY_BASE_MS * doubling(i as nat),
            doubling(i as nat) >= 1,
        decreases exponent - i,
    {
        assert(doubling((i + 1) as nat) == 2 * doubling(i as nat));
        assert(doubling(i as nat) <= 16) by {
            assert(doubling(0) == 1);
            assert(doubling(1) == 2);
            assert(doubling(2) == 4);
            assert(doubling(3) == 8);
            assert(doubling(4) == 16);
        }
        delay = delay * 2;
        i = i + 1;
    }
    assert(doubling(0) == 1);
    if delay > RETRY_MAX_MS { RETRY_MAX_MS } else { delay }
}

impl Default for EndlessQueue {
    fn default() -> (queue: EndlessQueue)
        ensures
            !queue@.enabled,
            queue@.pending.len() == 0,
            queue@.seen.len() == 0,
            queue@.continuation is None,
            !queue@.fetching,
            !queue@.exhausted,
            queue@.generation == 0,
            queue@.retry_after_ms is None,
            queue@.retry_attempt == 0,
            queue@.no_progress_pages == 0,
    {
        let queue = EndlessQueue {
            enabled: false,
            seed_track_id: String::new(),
            continuation: None,
            pending: VecDeque::new(),
            seen: Vec::new(),
            fetching: false,
            exhausted: false,
            generation: 0,
            retry_after_ms: None,
            retry_attempt: 0,
            no_progress_pages: 0,
        };
        assert(queue.seen@.map_values(|s: String| s@) =~= Seq::<Seq<char>>::empty());
        assert(queue@.seen =~= Set::<Seq<char>>::empty());
        queue
    }
}

impl EndlessQueue {
    /// Whether `id` has been offered already.
    fn has_seen(&self, id: &String) -> (seen: bool)
        ensures
            seen == self@.seen.contains(id@),
    {
        let ghost ids = self.seen@.map_values(|s: String| s@);
        for i in 0..self.seen.len()
            invariant
                ids == self.seen@.map_values(|s: String| s@),
                forall|j: int| 0 <= j < i ==> ids[j] != id@,
        {
            if self.seen[i].eq(id) {
                assert(ids[i as int] == id@);
                return true;
            }
        }
        assert forall|s: Seq<char>| ids.contains(s) implies s != id@ by {
            let j = choose|j: int| 0 <= j < ids.len() && ids[j] == s;
        }
        false
    }

    /// Records `id` as offered; true when it had not been offered before.
    fn mark_seen(&mut self, id: &String) -> (fresh: bool)
        ensures
            fresh == !old(self)@.seen.contains(id@),
            final(self)@ == (EndlessView { seen: old(self)@.seen.insert(id@), ..old(self)@ }),
    {
        if self.has_seen(id) {
            assert(old(self)@.seen.insert(id@) =~= old(self)@.seen);
            false
        } else {
            let ghost before = self.seen@;
            self.seen.push(id.clone());
            assert(self.seen@.map_values(|s: String| s@) =~= before.map_values(|s: String| s@).push(id@));
            proof {
                lemma_push_to_set(before.map_values(|s: String| s@), id@);
            }
            true
        }
    }

    /// Offers each track in order, keeping the ones not offered before at the end of
    /// the pending run and moving the seed to the last one kept.
    fn offer_tracks(&mut self, tracks: Vec<Track>) -> (added: bool)
        ensures
            ({
                let (seen, kept) = admit_unseen(old(self)@.seen, tracks@);
                &&& added == (kept.len() > 0)
                &&& final(self)@ == (EndlessView {
                    seen,
                    pending: old(self)@.pending + kept,
                    seed_track_id: if kept.len() > 0 { kept.last().id@ } else { old(self)@.seed_track_id },
                    ..old(self)@
                })
            }),
    {
        let mut added = false;
        let mut i: usize = 0;
        let n = tracks.len();
        while i < n
            invariant
                n == tracks@.len(),
                i <= n,
                ({
                    let (seen, kept) = admit_unseen(old(self)@.seen, tracks@.subrange(0, i as int));
                    &&& added == (kept.len() > 0)
                    &&& self@ == (EndlessView {
                        seen,
                        pending: old(self)@.pending + kept,
                        seed_track_id: if kept.len() > 0 { kept.last().id@ } else { old(self)@.seed_track_id },
                        ..old(self)@
                    })
                }),
            decreases n - i,
        {
            let track = tracks[i].clone();
            proof {
                let prefix = tracks@.subrange(0, i + 1);
                assert(prefix.drop_last() =~= tracks@.subrange(0, i as int));
                assert(prefix.last() == tracks@[i as int]);
            }
            let ghost before = self@;
            let ghost prefix = tracks@.subrange(0, i + 1);
            let ghost step = admit_unseen(old(self)@.seen, tracks@.subrange(0, i as int));
            assert(admit_unseen(old(self)@.seen, prefix) == (if step.0.contains(track.id@) {
                step
            } else {
                (step.0.insert(track.id@), step.1.push(track))
            }));
            if self.mark_seen(&track.id) {
                self.seed_track_id = track.id.clone();
                self.pending.push_back(track);
                added = true;
                proof {
                    assert(self@.pending =~= old(self)@.pending + step.1.push(tracks@[i as int]));
                }
            } else {
                assert(step.0.insert(track.id@) =~= step.0);
            }
            i = i + 1;
        }
        assert(tracks@.subrange(0, n as int) =~= tracks@);
        added
    }

    /// Starts a radio run from `seed`: every visible track counts as offered, and
    /// the tracks of `overflow` not offered yet wait, in order, to be shown.
    pub fn start(&mut self, seed: &Track, visible: &[Track], overflow: Vec<Track>)
        ensures
            ({
                let base = Set::empty().insert(seed.id@).union(track_ids(visible@).to_set());
                let (seen, kept) = admit_unseen(base, overflow@);
                final(self)@ == (EndlessView {
                    enabled: true,
                    seed_track_id: if kept.len() > 0 { kept.last().id@ } else { seed.id@ },
                    continuation: None,
                    pending: kept,
                    seen,
                    fetching: false,
                    exhausted: false,
                    generation: next_generation(old(self)@.generation),
                    retry_after_ms: None,
                    retry_attempt: 0,
                    no_progress_pages: 0,
                })
            }),
    {
        self.enabled = true;
        self.seed_track_id = seed.id.clone();
        self.continuation = None;
        self.pending.clear();
        self.seen.clear();
        self.seen.push(seed.id.clone());
        let ghost ids_before_visible = self.seen@.map_values(|s: String| s@);
        assert(ids_before_visible =~= seq![seed.id@]);
        assert(ids_before_visible.to_set() =~= Set::empty().insert(seed.id@)) by {
            assert(ids_before_visible[0] == seed.id@);
        }
        for i in 0..visible.len()
            invariant
                self.seen@.map_values(|s: String| s@) =~= seq![seed.id@] + track_ids(visible@.subrange(0, i as int)),
                self.pending@ == Seq::<Track>::empty(),
                self.enabled,
                self.continuation is None,
                self.seed_track_id@ == seed.id@,
                self.generation == old(self).generation,
        {
            let ghost before = self.seen@;
            self.seen.push(visible[i].id.clone());
            assert(self.seen@.map_values(|s: String| s@) =~= before.map_values(|s: String| s@).push(visible@[i as int].id@));
            assert(track_ids(visible@.subrange(0, i + 1)) =~= track_ids(visible@.subrange(0, i as int)).push(visible@[i as int].id@));
            assert(self.seen@.map_values(|s: String| s@) =~= seq![seed.id@] + track_ids(visible@.subrange(0, i + 1)));
        }
        assert(visible@.subrange(0, visible.len() as int) =~= visible@);
        proof {
            let all = seq![seed.id@] + track_ids(visible@);
            assert(all.to_set() =~= Set::empty().insert(seed.id@).union(track_ids(visible@).to_set())) by {
                assert forall|s: Seq<char>| all.to_set().contains(s) implies Set::empty().insert(seed.id@).union(track_ids(visible@).to_set()).contains(s) by {
                    let j = choose|j: int| 0 <= j < all.len() && all[j] == s;
                    if j > 0 {
                        assert(track_ids(visible@)[j - 1] == s);
                    }
                }
                assert forall|s: Seq<char>| Set::empty().insert(seed.id@).union(track_ids(visible@).to_set()).contains(s) implies all.to_set().contains(s) by {
                    if s == seed.id@ {
                        assert(all[0] == s);
                    } else {
                        let j = choose|j: int| 0 <= j < track_ids(visible@).len() && track_ids(visible@)[j] == s;
                        assert(all[j + 1] == s);
                    }
                }
            }
        }
        self.fetching = false;
        self.exhausted = false;
        self.retry_after_ms = None;
        self.retry_attempt = 0;
        self.no_progress_pages = 0;
        self.generation = if self.generation == u64::MAX { 0 } else { self.generation + 1 };
        assert(self@.pending =~= Seq::<Track>::empty());
        self.offer_tracks(overflow);
    }

    /// Ends the radio run: nothing is pending and any answer in flight is ignored.
    pub fn stop(&mut self)
        ensures
            final(self)@ == (EndlessView {
                enabled: false,
                pending: Seq::empty(),
                continuation: None,
                fetching: false,
                retry_after_ms: None,
                retry_attempt: 0,
                no_progress_pages: 0,
                generation: next_generation(old(self)@.generation),
                ..old(self)@
            }),
    {
        self.enabled = false;
        self.pending.clear();
        self.continuation = None;
        self.fetching = false;
        self.retry_after_ms = None;
        self.retry_attempt = 0;
        self.no_progress_pages = 0;
        self.generation = if self.generation == u64::MAX { 0 } else { self.generation + 1 };
    }

    /// Claims `track_id` for the visible queue. Without a radio run every claim
    /// succeeds; during one, a track offered before is refused.
    pub fn reserve(&mut self, track_id: &str) -> (fresh: bool)
        ensures
            !old(self)@.enabled ==> fresh && final(self)@ == old(self)@,
            old(self)@.enabled ==> fresh == !old(self)@.seen.contains(track_id@)
                && final(self)@ == (EndlessView { seen: old(self)@.seen.insert(track_id@), ..old(self)@ }),
    {
        if !self.enabled {
            return true;
        }
        self.mark_seen(&track_id.to_owned())
    }

    /// How many tracks wait behind the visible queue.
    pub fn pending_len(&self) -> (n: usize)
        ensures
            n == self@.pending.len(),
    {
        self.pending.len()
    }
}


/// Moves pending tracks, oldest first, into the visible queue until it holds
/// twelve, skipping any whose id is already visible.
pub open spec fn top_up_view(pending: Seq<Track>, queue: Seq<Track>) -> (Seq<Track>, Seq<Track>)
    decreases pending.len(),
{
    if queue.len() >= MAX_VISIBLE_QUEUE || pending.len() == 0 {
        (pending, queue)
    } else {
        let track = pending[0];
        let next = if track_ids(queue).contains(track.id@) { queue } else { queue.push(track) };
        top_up_view(pending.drop_first(), next)
    }
}

/// No id occurs twice in `tracks`.
pub open spec fn distinct_ids(tracks: Seq<Track>) -> bool {
    forall|i: int, j: int| 0 <= i < j < tracks.len() ==> tracks[i].id@ != tracks[j].id@
}

/// `value` with whitespace-only text treated as absent.
pub open spec fn non_blank(value: Option<Seq<char>>) -> Option<Seq<char>> {
    match value {
        Some(text) => if crate::text::is_blank_view(text) { None } else { Some(text) },
        None => None,
    }
}

/// `a + b` for page counters, stopping at `u8::MAX`.
pub open spec fn saturating_add_u8(a: u8, b: u8) -> u8 {
    if a + b > u8::MAX { u8::MAX } else { (a + b) as u8 }
}

/// `a + b` for attempt counters, stopping at `u32::MAX`.
pub open spec fn saturating_add_u32(a: u32, b: u32) -> u32 {
    if a + b > u32::MAX { u32::MAX } else { (a + b) as u32 }
}

/// The state after asking for more tracks at time `now`, and what is asked for:
/// the generation, seed and continuation of the request.
pub open spec fn request_view(q: EndlessView, visible_count: usize, now: u64) -> (EndlessView, Option<(u64, Seq<char>, Option<Seq<char>>)>) {
    if !may_fetch(q, visible_count) {
        (q, None)
    } else if q.retry_after_ms matches Some(at) && at > now {
        (q, None)
    } else {
        (EndlessView { fetching: true, retry_after_ms: None, ..q }, Some((q.generation, q.seed_track_id, q.continuation)))
    }
}

/// The state after a radio page arrives at time `now`, and whether it belonged to
/// the current run.
pub open spec fn accept_view(q: EndlessView, generation: u64, tracks: Seq<Track>, continuation: Option<Seq<char>>, now: u64) -> (EndlessView, bool) {
    if generation != q.generation || !q.enabled {
        (q, false)
    } else {
        let token = non_blank(continuation);
        let stuck = q.continuation is Some && token == q.continuation;
        let (seen, kept) = admit_unseen(q.seen, tracks);
        let base = EndlessView {
            fetching: false,
            continuation: token,
            seen,
            pending: q.pending + kept,
            seed_track_id: if kept.len() > 0 { kept.last().id@ } else { q.seed_track_id },
            ..q
        };
        let next = if kept.len() > 0 {
            let progressed = EndlessView { no_progress_pages: 0, retry_attempt: 0, retry_after_ms: None, ..base };
            if stuck { EndlessView { exhausted: true, continuation: None, ..progressed } } else { progressed }
        } else if token is None || stuck {
            EndlessView { exhausted: true, retry_after_ms: None, ..base }
        } else {
            let pages = saturating_add_u8(q.no_progress_pages, 1);
            if pages >= MAX_NO_PROGRESS_PAGES {
                EndlessView { no_progress_pages: pages, exhausted: true, retry_after_ms: None, ..base }
            } else {
                EndlessView {
                    no_progress_pages: pages,
                    retry_after_ms: Some(saturating_add_u64(now, retry_backoff_ms(pages as u32))),
                    ..base
                }
            }
        };
        (next, true)
    }
}

/// The state after a radio request fails at time `now`.
pub open spec fn reject_view(q: EndlessView, generation: u64, now: u64) -> EndlessView {
    if generation == q.generation && q.enabled {
        let attempt = saturating_add_u32(q.retry_attempt, 1);
        EndlessView {
            fetching: false,
            retry_attempt: attempt,
            retry_after_ms: Some(saturating_add_u64(now, retry_backoff_ms(attempt))),
            ..q
        }
    } else {
        q
    }
}

/// How long until the radio may ask again, seen at time `now`.
pub open spec fn retry_delay_view(q: EndlessView, visible_count: usize, now: u64) -> Option<u64> {
    if !may_fetch(q, visible_count) {
        None
    } else {
        match q.retry_after_ms {
            Some(at) => Some(if at > now { (at - now) as u64 } else { 0 }),
            None => None,
        }
    }
}

/// Whether `id` names one of `tracks`.
pub fn contains_track_id(tracks: &Vec<Track>, id: &String) -> (found: bool)
    ensures
        found == track_ids(tracks@).contains(id@),
{
    for i in 0..tracks.len()
        invariant
            forall|j: int| 0 <= j < i ==> tracks@[j].id@ != id@,
    {
        if tracks[i].id.eq(id) {
            assert(track_ids(tracks@)[i as int] == id@);
            return true;
        }
    }
    assert forall|x: Seq<char>| track_ids(tracks@).contains(x) implies x != id@ by {
        let j = choose|j: int| 0 <= j < track_ids(tracks@).len() && track_ids(tracks@)[j] == x;
    }
    false
}

/// Whether two optional strings hold the same text.
pub fn same_optional_text(a: &Option<String>, b: &Option<String>) -> (same: bool)
    ensures
        same == (opt_view(*a) == opt_view(*b)),
{
    match (a, b) {
        (Some(x), Some(y)) => x.eq(y),
        (None, None) => true,
        _ => false,
    }
}

/// The delay before a retry, added to `now` without overflow.
fn retry_at(now_ms: u64, attempt: u32) -> (at: u64)
    ensures
        at == saturating_add_u64(now_ms, retry_backoff_ms(attempt)),
{
    now_ms.saturating_add(retry_backoff(attempt))
}

impl EndlessQueue {
    /// Moves pending tracks into `queue` until it shows twelve; a track already
    /// shown is dropped rather than shown twice.
    pub fn top_up(&mut self, queue: &mut Vec<Track>)
        ensures
            ({
                let (pending, shown) = top_up_view(old(self)@.pending, old(queue)@);
                &&& final(self)@ == (EndlessView { pending, ..old(self)@ })
                &&& final(queue)@ == shown
            }),
    {
        while queue.len() < MAX_VISIBLE_QUEUE && self.pending.len() > 0
            invariant
                top_up_view(self@.pending, queue@) == top_up_view(old(self)@.pending, old(queue)@),
                self@ == (EndlessView { pending: self@.pending, ..old(self)@ }),
            decreases self.pending@.len(),
        {
            let ghost pending_before = self.pending@;
            if let Some(track) = self.pending.pop_front() {
                assert(self.pending@ =~= pending_before.drop_first());
                if !contains_track_id(queue, &track.id) {
                    queue.push(track);
                }
            }
        }
    }

    /// Keeps twelve tracks visible and puts the rest, in order, at the front of the
    /// pending run.
    pub fn stash_overflow(&mut self, queue: &mut Vec<Track>)
        ensures
            old(queue)@.len() <= MAX_VISIBLE_QUEUE ==> final(self)@ == old(self)@ && final(queue)@ == old(queue)@,
            old(queue)@.len() > MAX_VISIBLE_QUEUE ==> final(queue)@ == old(queue)@.subrange(0, MAX_VISIBLE_QUEUE as int)
                && final(self)@ == (EndlessView {
                    pending: old(queue)@.subrange(MAX_VISIBLE_QUEUE as int, old(queue)@.len() as int) + old(self)@.pending,
                    ..old(self)@
                }),
    {
        if queue.len() <= MAX_VISIBLE_QUEUE {
            return;
        }
        let overflow = queue.split_off(MAX_VISIBLE_QUEUE);
        let mut front: VecDeque<Track> = VecDeque::new();
        for i in 0..overflow.len()
            invariant
                front@ == overflow@.subrange(0, i as int),
        {
            front.push_back(overflow[i].clone());
            assert(front@ =~= overflow@.subrange(0, i + 1));
        }
        assert(overflow@.subrange(0, overflow@.len() as int) =~= overflow@);
        front.append(&mut self.pending);
        self.pending = front;
    }

    /// Asks for more radio tracks at time `now_ms`, unless the run is off, busy,
    /// finished, stocked, or waiting out a retry delay.
    pub fn request_at(&mut self, visible_count: usize, now_ms: u64) -> (request: Option<(u64, RadioRequest)>)
        ensures
            ({
                let (next, asked) = request_view(old(self)@, visible_count, now_ms);
                &&& final(self)@ == next
                &&& asked is None <==> request is None
                &&& asked matches Some((g, seed, token)) ==> request matches Some((rg, r))
                    && rg == g && r.seed_track_id@ == seed && opt_view(r.continuation) == token
                    && r.limit == PREFETCH_INVENTORY
            }),
    {
        if !self.enabled || self.fetching || self.exhausted || visible_count >= PREFETCH_INVENTORY
            || self.pending.len() >= PREFETCH_INVENTORY - visible_count
        {
            return None;
        }
        if let Some(at) = self.retry_after_ms {
            if at > now_ms {
                return None;
            }
            self.retry_after_ms = None;
        }
        self.fetching = true;
        let request = match &self.continuation {
            Some(token) => RadioRequest::from_continuation(self.seed_track_id.as_str(), token.as_str(), PREFETCH_INVENTORY),
            None => RadioRequest::from_seed(self.seed_track_id.as_str(), PREFETCH_INVENTORY),
        };
        Some((self.generation, request))
    }

    /// `request_at` with the time read from the system clock.
    pub fn request(&mut self, visible_count: usize) -> (request: Option<(u64, RadioRequest)>)
        ensures
            exists|now: u64| #![trigger request_view(old(self)@, visible_count, now)]
            {
                let (next, asked) = request_view(old(self)@, visible_count, now);
                &&& final(self)@ == next
                &&& asked is None <==> request is None
                &&& asked matches Some((g, seed, token)) ==> request matches Some((rg, r))
                    && rg == g && r.seed_track_id@ == seed && opt_view(r.continuation) == token
                    && r.limit == PREFETCH_INVENTORY
            },
    {
        let now = unix_millis();
        let request = self.request_at(visible_count, now);
        assert(request_view(old(self)@, visible_count, now).0 == self@);
        request
    }

    /// Takes a radio page that arrived at time `now_ms`. A page for an earlier run,
    /// or after the run stopped, is ignored and `false` comes back.
    pub fn accept_at(&mut self, generation: u64, page: RadioPage, now_ms: u64) -> (current: bool)
        ensures
            (final(self)@, current) == accept_view(old(self)@, generation, page.tracks@, opt_view(page.continuation), now_ms),
    {
        if generation != self.generation || !self.enabled {
            return false;
        }
        self.fetching = false;
        let token = match page.continuation {
            Some(text) => if crate::text::is_blank(text.as_str()) { None } else { Some(text) },
            None => None,
        };
        let stuck = self.continuation.is_some() && same_optional_text(&token, &self.continuation);
        self.continuation = token;
        let added = self.offer_tracks(page.tracks);
        if added {
            self.no_progress_pages = 0;
            self.retry_attempt = 0;
            self.retry_after_ms = None;
            if stuck {
                self.exhausted = true;
                self.continuation = None;
            }
        } else if self.continuation.is_none() || stuck {
            self.exhausted = true;
            self.retry_after_ms = None;
        } else {
            self.no_progress_pages = self.no_progress_pages.saturating_add(1);
            if self.no_progress_pages >= MAX_NO_PROGRESS_PAGES {
                self.exhausted = true;
                self.retry_after_ms = None;
            } else {
                self.retry_after_ms = Some(retry_at(now_ms, self.no_progress_pages as u32));
            }
        }
        true
    }

    /// `accept_at` with the time read from the system clock.
    pub fn accept(&mut self, generation: u64, page: RadioPage) -> (current: bool)
        ensures
            exists|now: u64| #![trigger accept_view(old(self)@, generation, page.tracks@, opt_view(page.continuation), now)]
                (final(self)@, current) == accept_view(old(self)@, generation, page.tracks@, opt_view(page.continuation), now),
    {
        let now = unix_millis();
        let ghost tracks = page.tracks@;
        let ghost token = opt_view(page.continuation);
        let current = self.accept_at(generation, page, now);
        assert((self@, current) == accept_view(old(self)@, generation, tracks, token, now));
        current
    }

    /// Records at time `now_ms` that the request of `generation` failed, and backs off.
    pub fn reject_at(&mut self, generation: u64, now_ms: u64)
        ensures
            final(self)@ == reject_view(old(self)@, generation, now_ms),
    {
        if generation == self.generation && self.enabled {
            self.fetching = false;
            self.retry_attempt = self.retry_attempt.saturating_add(1);
            self.retry_after_ms = Some(retry_at(now_ms, self.retry_attempt));
        }
    }

    /// `reject_at` with the time read from the system clock.
    pub fn reject(&mut self, generation: u64)
        ensures
            exists|now: u64| #![trigger reject_view(old(self)@, generation, now)]
                final(self)@ == reject_view(old(self)@, generation, now),
    {
        let now = unix_millis();
        self.reject_at(generation, now);
        assert(self@ == reject_view(old(self)@, generation, now));
    }

    /// How long, from `now_ms`, until the radio may ask again; `None` when it is not
    /// waiting to retry.
    pub fn retry_delay_at(&self, visible_count: usize, now_ms: u64) -> (delay: Option<u64>)
        ensures
            delay == retry_delay_view(self@, visible_count, now_ms),
    {
        if !self.enabled || self.exhausted || self.fetching || visible_count >= PREFETCH_INVENTORY
            || self.pending.len() >= PREFETCH_INVENTORY - visible_count
        {
            return None;
        }
        match self.retry_after_ms {
            Some(at) => Some(at.saturating_sub(now_ms)),
            None => None,
        }
    }

    /// `retry_delay_at` with the time read from the system clock.
    pub fn retry_delay(&self, visible_count: usize) -> (delay: Option<u64>)
        ensures
            exists|now: u64| #![trigger retry_delay_view(self@, visible_count, now)]
                delay == retry_delay_view(self@, visible_count, now),
    {
        let now = unix_millis();
        let delay = self.retry_delay_at(visible_count, now);
        assert(delay == retry_delay_view(self@, visible_count, now));
        delay
    }
}


/// Offering tracks marks every one of their ids as seen, and keeps only tracks
/// that were unseen, each id once.
pub proof fn lemma_admit_unseen(seen: Set<Seq<char>>, tracks: Seq<Track>)
    ensures
        admit_unseen(seen, tracks).0 == seen.union(track_ids(tracks).to_set()),
        distinct_ids(admit_unseen(seen, tracks).1),
        forall|i: int| 0 <= i < admit_unseen(seen, tracks).1.len() ==> !seen.contains(
            #[trigger] admit_unseen(seen, tracks).1[i].id@,
        ),
        forall|i: int| 0 <= i < admit_unseen(seen, tracks).1.len() ==> tracks.contains(
            #[trigger] admit_unseen(seen, tracks).1[i],
        ),
    decreases tracks.len(),
{
    if tracks.len() == 0 {
        assert(track_ids(tracks).to_set() =~= Set::<Seq<char>>::empty());
        assert(seen.union(Set::<Seq<char>>::empty()) =~= seen);
    } else {
        let rest = tracks.drop_last();
        lemma_admit_unseen(seen, rest);
        let (seen_before, kept) = admit_unseen(seen, rest);
        let track = tracks.last();
        assert(track_ids(tracks) =~= track_ids(rest).push(track.id@));
        lemma_push_to_set(track_ids(rest), track.id@);
        assert(seen.union(track_ids(tracks).to_set()) =~= seen_before.insert(track.id@));
        if seen_before.contains(track.id@) {
            assert(seen_before.insert(track.id@) =~= seen_before);
        } else {
            assert forall|i: int| 0 <= i < kept.len() implies kept[i].id@ != track.id@ by {
                assert(seen_before.contains(kept[i].id@)) by {
                    let j = choose|j: int| 0 <= j < rest.len() && rest[j] == kept[i];
                    assert(track_ids(rest)[j] == kept[i].id@);
                }
            }
        }
        let result = admit_unseen(seen, tracks).1;
        assert forall|i: int| 0 <= i < result.len() implies tracks.contains(#[trigger] result[i]) by {
            if i < kept.len() {
                let j = choose|j: int| 0 <= j < rest.len() && rest[j] == kept[i];
                assert(tracks[j] == kept[i]);
            } else {
                assert(tracks[tracks.len() - 1] == result[i]);
            }
        }
    }
}

/// Topping up never shows an id twice and never grows the visible queue past twelve.
pub proof fn lemma_top_up_keeps_queue_unique_and_capped(pending: Seq<Track>, queue: Seq<Track>)
    requires
        distinct_ids(queue),
        queue.len() <= MAX_VISIBLE_QUEUE,
    ensures
        distinct_ids(top_up_view(pending, queue).1),
        top_up_view(pending, queue).1.len() <= MAX_VISIBLE_QUEUE,
        top_up_view(pending, queue).1.len() >= queue.len(),
    decreases pending.len(),
{
    if queue.len() >= MAX_VISIBLE_QUEUE || pending.len() == 0 {
    } else {
        let track = pending[0];
        if track_ids(queue).contains(track.id@) {
            lemma_top_up_keeps_queue_unique_and_capped(pending.drop_first(), queue);
        } else {
            let next = queue.push(track);
            assert forall|i: int, j: int| 0 <= i < j < next.len() implies next[i].id@ != next[j].id@ by {
                if j == queue.len() {
                    assert(track_ids(queue)[i] == next[i].id@);
                }
            }
            lemma_top_up_keeps_queue_unique_and_capped(pending.drop_first(), next);
        }
    }
}

/// Admitting `t` and then `rest` is admitting `t` alone, then `rest` with `t`'s id
/// seen.
proof fn lemma_admit_unseen_front(seen: Set<Seq<char>>, t: Track, rest: Seq<Track>)
    ensures
        ({
            let after_t = if seen.contains(t.id@) { seen } else { seen.insert(t.id@) };
            let first: Seq<Track> = if seen.contains(t.id@) { Seq::empty() } else { seq![t] };
            admit_unseen(seen, seq![t] + rest) == (admit_unseen(after_t, rest).0, first + admit_unseen(after_t, rest).1)
        }),
    decreases rest.len(),
{
    let all = seq![t] + rest;
    let after_t = if seen.contains(t.id@) { seen } else { seen.insert(t.id@) };
    let first: Seq<Track> = if seen.contains(t.id@) { Seq::empty() } else { seq![t] };
    if rest.len() == 0 {
        assert(all.drop_last() =~= Seq::<Track>::empty());
        assert(all.last() == t);
        assert(admit_unseen(seen, Seq::<Track>::empty()) == (seen, Seq::<Track>::empty()));
        assert(admit_unseen(after_t, rest) == (after_t, Seq::<Track>::empty()));
        assert(first + Seq::<Track>::empty() =~= first);
        assert(Seq::<Track>::empty().push(t) =~= seq![t]);
    } else {
        lemma_admit_unseen_front(seen, t, rest.drop_last());
        assert(all.drop_last() =~= seq![t] + rest.drop_last());
        assert(all.last() == rest.last());
        let (seen_mid, kept) = admit_unseen(after_t, rest.drop_last());
        assert(admit_unseen(seen, all.drop_last()) == (seen_mid, first + kept));
        assert((first + kept).push(rest.last()) =~= first + kept.push(rest.last()));
    }
}

/// Topping up takes a leading run of the pending tracks and nothing else: what is
/// left pending is the rest, the queue keeps its rows and gains, in order, each
/// taken track whose id it does not show yet, and taking stops only once twelve
/// rows show or nothing is pending. So the queue never grows past twelve rows, or
/// its own length, and never shows an id it already showed.
pub proof fn lemma_top_up_takes_leading_tracks(pending: Seq<Track>, queue: Seq<Track>) -> (taken: int)
    ensures
        0 <= taken <= pending.len(),
        top_up_view(pending, queue).0 == pending.subrange(taken, pending.len() as int),
        top_up_view(pending, queue).1 == queue + admit_unseen(track_ids(queue).to_set(), pending.subrange(0, taken)).1,
        top_up_view(pending, queue).0.len() > 0 ==> top_up_view(pending, queue).1.len() >= MAX_VISIBLE_QUEUE,
        top_up_view(pending, queue).1.len() <= if queue.len() > MAX_VISIBLE_QUEUE { queue.len() as int } else { MAX_VISIBLE_QUEUE as int },
        forall|i: int| queue.len() <= i < top_up_view(pending, queue).1.len() ==> !track_ids(queue).contains(
            #[trigger] top_up_view(pending, queue).1[i].id@,
        ),
    decreases pending.len(),
{
    if queue.len() >= MAX_VISIBLE_QUEUE || pending.len() == 0 {
        assert(pending.subrange(0, 0) =~= Seq::<Track>::empty());
        assert(queue + Seq::<Track>::empty() =~= queue);
        assert(pending.subrange(0, pending.len() as int) =~= pending);
        0
    } else {
        let t = pending[0];
        let rest = pending.drop_first();
        let seen = track_ids(queue).to_set();
        let next = if track_ids(queue).contains(t.id@) { queue } else { queue.push(t) };
        let k = lemma_top_up_takes_leading_tracks(rest, next);
        let after_t = if seen.contains(t.id@) { seen } else { seen.insert(t.id@) };
        assert(track_ids(queue).contains(t.id@) == seen.contains(t.id@));
        if !track_ids(queue).contains(t.id@) {
            assert(track_ids(queue.push(t)) =~= track_ids(queue).push(t.id@));
            lemma_push_to_set(track_ids(queue), t.id@);
        }
        assert(track_ids(next).to_set() == after_t);
        assert(pending.subrange(0, k + 1) =~= seq![t] + rest.subrange(0, k));
        assert(rest.subrange(k, rest.len() as int) =~= pending.subrange(k + 1, pending.len() as int));
        lemma_admit_unseen_front(seen, t, rest.subrange(0, k));
        let first: Seq<Track> = if seen.contains(t.id@) { Seq::empty() } else { seq![t] };
        let more = admit_unseen(after_t, rest.subrange(0, k)).1;
        assert(next == queue + first);
        assert(next + more =~= queue + (first + more));
        let shown = top_up_view(pending, queue).1;
        lemma_admit_unseen(after_t, rest.subrange(0, k));
        assert forall|i: int| queue.len() <= i < shown.len() implies !track_ids(queue).contains(#[trigger] shown[i].id@) by {
            if i < next.len() {
                assert(shown[i] == next[i]);
                assert(next[i] == t);
            } else {
                assert(shown[i] == more[i - next.len()]);
                assert(!after_t.contains(more[i - next.len()].id@));
                if track_ids(queue).contains(shown[i].id@) {
                    assert(seen.contains(shown[i].id@));
                }
            }
        }
        k + 1
    }
}

/// A page from an earlier run, or one that arrives after the run stopped, changes
/// nothing.
pub proof fn lemma_stale_page_is_ignored(q: EndlessView, generation: u64, tracks: Seq<Track>, continuation: Option<Seq<char>>, now: u64)
    requires
        generation != q.generation || !q.enabled,
    ensures
        accept_view(q, generation, tracks, continuation, now) == (q, false),
{
}

/// Once a radio page is taken, every track it carried counts as offered, so none
/// of them can be reserved again.
pub proof fn lemma_accepted_tracks_are_seen(q: EndlessView, tracks: Seq<Track>, continuation: Option<Seq<char>>, now: u64, i: int)
    requires
        q.enabled,
        0 <= i < tracks.len(),
    ensures
        accept_view(q, q.generation, tracks, continuation, now).0.seen.contains(tracks[i].id@),
{
    lemma_admit_unseen(q.seen, tracks);
    assert(track_ids(tracks)[i] == tracks[i].id@);
}

/// A retry is never scheduled sooner than 250 ms nor later than 8 s after the
/// failure, unless the clock is at its limit.
pub proof fn lemma_retry_delay_is_bounded(q: EndlessView, generation: u64, now: u64)
    requires
        generation == q.generation,
        q.enabled,
        now <= u64::MAX - RETRY_MAX_MS,
    ensures
        reject_view(q, generation, now).retry_after_ms matches Some(at) && now + RETRY_BASE_MS <= at
            <= now + RETRY_MAX_MS,
{
    let attempt = saturating_add_u32(q.retry_attempt, 1);
    let exponent = if attempt == 0 { 0 } else if attempt - 1 > 5 { 5 } else { attempt - 1 };
    assert(doubling(0) == 1);
    assert(doubling(1) == 2);
    assert(doubling(2) == 4);
    assert(doubling(3) == 8);
    assert(doubling(4) == 16);
    assert(doubling(5) == 32);
    assert(doubling(exponent as nat) >= 1);
}

/// A request for more radio asks from the queue's seed and, when the queue holds
/// a continuation token, carries that very token; only a queue without one asks
/// from the seed alone. So once a page with a fresh token is taken, the next
/// request pages on with it.
pub proof fn lemma_request_carries_the_continuation(
    q: EndlessView,
    visible_count: usize,
    now: u64,
    tracks: Seq<Track>,
    token: Seq<char>,
    later: u64,
)
    ensures
        request_view(q, visible_count, now).1 matches Some((generation, seed, continuation)) ==> generation == q.generation
            && seed == q.seed_track_id && continuation == q.continuation,
        request_view(q, visible_count, now).1 is Some ==> request_view(q, visible_count, now).0.continuation == q.continuation,
        ({
            let (taken, current) = accept_view(q, q.generation, tracks, Some(token), now);
            q.enabled && non_blank(Some(token)) == Some(token) && q.continuation != Some(token) ==> {
                &&& current
                &&& taken.continuation == Some(token)
                &&& request_view(taken, visible_count, later).1 matches Some((_, _, continuation)) ==> continuation
                    == Some(token)
            }
        }),
{
}

} // verus!
