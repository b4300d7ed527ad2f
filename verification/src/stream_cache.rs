use vstd::prelude::*;

use crate::catalog::{AudioQuality, ResolvedStream};

verus! {

/// The most resolved streams the cache keeps.
pub const MAX_CACHED_STREAMS: usize = 32;

/// How long before its expiry a cached stream is no longer handed out.
pub const SAFE_MARGIN_SECONDS: u64 = 15;

/// A resolved stream kept for a track and quality, and when it was last used.
#[derive(Debug)]
pub struct CachedStream {
    pub track_id: String,
    pub quality: AudioQuality,
    pub stream: ResolvedStream,
    pub last_used: u64,
}

/// The resolved streams of recent tracks, with a use counter that orders them.
#[derive(Debug)]
pub struct StreamCache {
    pub entries: Vec<CachedStream>,
    pub clock: u64,
}

/// Whether `entry` is kept for `track_id` at `quality`.
pub open spec fn is_entry_for(entry: CachedStream, track_id: Seq<char>, quality: AudioQuality) -> bool {
    entry.track_id@ == track_id && entry.quality == quality
}

/// Whether no two entries are kept for the same track and quality.
pub open spec fn keys_distinct(entries: Seq<CachedStream>) -> bool {
    forall|i: int, j: int|
        0 <= i < entries.len() && 0 <= j < entries.len() && i != j ==> !is_entry_for(
            #[trigger] entries[i],
            entries[j].track_id@,
            entries[j].quality,
        ) || !is_entry_for(#[trigger] entries[j], entries[i].track_id@, entries[i].quality)
}

/// Where the entry for `track_id` at `quality` stands, or -1.
pub open spec fn index_of_key(entries: Seq<CachedStream>, track_id: Seq<char>, quality: AudioQuality) -> int
    decreases entries.len(),
{
    if entries.len() == 0 {
        -1
    } else if is_entry_for(entries.last(), track_id, quality) {
        entries.len() - 1
    } else {
        index_of_key(entries.drop_last(), track_id, quality)
    }
}

/// Whether a stream expires within the safety margin of `now`.
pub open spec fn is_stale(stream: ResolvedStream, now: u64) -> bool {
    match stream.expires_at_epoch_seconds {
        Some(expiry) => (if now + SAFE_MARGIN_SECONDS > u64::MAX { u64::MAX as int } else { now + SAFE_MARGIN_SECONDS }) >= expiry,
        None => false,
    }
}

/// Whether `index` is the first of the least recently used entries.
pub open spec fn is_first_oldest(entries: Seq<CachedStream>, index: int) -> bool {
    &&& 0 <= index < entries.len()
    &&& forall|j: int| 0 <= j < entries.len() ==> entries[index].last_used <= (#[trigger] entries[j]).last_used
    &&& forall|j: int| 0 <= j < index ==> entries[index].last_used < (#[trigger] entries[j]).last_used
}

/// The entries with `entry` in place of the one for its key, or added at the end.
pub open spec fn with_entry(entries: Seq<CachedStream>, entry: CachedStream) -> Seq<CachedStream> {
    let i = index_of_key(entries, entry.track_id@, entry.quality);
    if i >= 0 {
        entries.update(i, entry)
    } else {
        entries.push(entry)
    }
}

/// Whether `kept` is `added` cut back to the bound: unchanged when it fits, and
/// otherwise without the first of its least recently used entries.
pub open spec fn keeps_within_bound(added: Seq<CachedStream>, kept: Seq<CachedStream>) -> bool {
    &&& added.len() <= MAX_CACHED_STREAMS ==> kept == added
    &&& added.len() > MAX_CACHED_STREAMS ==> exists|j: int| is_first_oldest(added, j) && kept == added.remove(j)
}

/// Whether no entry was used after `clock`.
pub open spec fn uses_up_to(entries: Seq<CachedStream>, clock: u64) -> bool {
    forall|i: int| 0 <= i < entries.len() ==> (#[trigger] entries[i]).last_used <= clock
}

/// The counter value after one more use.
pub open spec fn next_tick(clock: u64) -> u64 {
    if clock == u64::MAX { u64::MAX } else { (clock + 1) as u64 }
}

/// The entry a lookup finds, and what it says of every other place.
pub proof fn lemma_index_of_key(entries: Seq<CachedStream>, track_id: Seq<char>, quality: AudioQuality)
    ensures
        -1 <= index_of_key(entries, track_id, quality) < entries.len(),
        index_of_key(entries, track_id, quality) >= 0 ==> is_entry_for(
            entries[index_of_key(entries, track_id, quality)],
            track_id,
            quality,
        ),
        index_of_key(entries, track_id, quality) == -1 ==> forall|k: int|
            0 <= k < entries.len() ==> !is_entry_for(#[trigger] entries[k], track_id, quality),
        keys_distinct(entries) && index_of_key(entries, track_id, quality) >= 0 ==> forall|k: int|
            0 <= k < entries.len() && is_entry_for(#[trigger] entries[k], track_id, quality) ==> k
                == index_of_key(entries, track_id, quality),
    decreases entries.len(),
{
    if entries.len() > 0 {
        let rest = entries.drop_last();
        lemma_index_of_key(rest, track_id, quality);
        assert forall|k: int| 0 <= k < rest.len() implies rest[k] == entries[k] by {}
        if keys_distinct(entries) {
            assert forall|i: int, j: int|
                0 <= i < rest.len() && 0 <= j < rest.len() && i != j implies !is_entry_for(
                #[trigger] rest[i],
                rest[j].track_id@,
                rest[j].quality,
            ) || !is_entry_for(#[trigger] rest[j], rest[i].track_id@, rest[i].quality) by {
                assert(rest[i] == entries[i] && rest[j] == entries[j]);
            }
        }
    }
}

/// Removing an entry keeps the keys distinct.
pub proof fn lemma_remove_keeps_distinct(entries: Seq<CachedStream>, index: int)
    requires
        keys_distinct(entries),
        0 <= index < entries.len(),
    ensures
        keys_distinct(entries.remove(index)),
{
    let removed = entries.remove(index);
    assert forall|i: int, j: int|
        0 <= i < removed.len() && 0 <= j < removed.len() && i != j implies !is_entry_for(
        #[trigger] removed[i],
        removed[j].track_id@,
        removed[j].quality,
    ) || !is_entry_for(#[trigger] removed[j], removed[i].track_id@, removed[i].quality) by {
        let oi = if i < index { i } else { i + 1 };
        let oj = if j < index { j } else { j + 1 };
        assert(removed[i] == entries[oi]);
        assert(removed[j] == entries[oj]);
    }
}

impl StreamCache {
    /// Whether no two entries share a key and no more are kept than allowed.
    pub open spec fn well_formed(&self) -> bool {
        &&& keys_distinct(self.entries@)
        &&& self.entries@.len() <= MAX_CACHED_STREAMS
        &&& uses_up_to(self.entries@, self.clock)
    }

    /// Whether the cache keeps at most one entry per track and quality, no more
    /// entries than it may hold, and no use later than its counter.
    pub fn is_well_formed(&self) -> (ok: bool)
        ensures
            ok == self.well_formed(),
    {
        let n = self.entries.len();
        if n > MAX_CACHED_STREAMS {
            return false;
        }
        for i in 0..n
            invariant
                n == self.entries@.len(),
                forall|k: int| 0 <= k < i ==> (#[trigger] self.entries@[k]).last_used <= self.clock,
        {
            if self.entries[i].last_used > self.clock {
                return false;
            }
        }
        for i in 0..n
            invariant
                n == self.entries@.len(),
                forall|a: int, b: int| #![trigger self.entries@[a], self.entries@[b]] 0 <= a < i && 0 <= b < n && a != b
                    ==> !is_entry_for(self.entries@[a], self.entries@[b].track_id@, self.entries@[b].quality),
        {
            for j in 0..n
                invariant
                    n == self.entries@.len(),
                    0 <= i < n,
                    forall|a: int, b: int| #![trigger self.entries@[a], self.entries@[b]] 0 <= a < i && 0 <= b < n && a != b
                        ==> !is_entry_for(self.entries@[a], self.entries@[b].track_id@, self.entries@[b].quality),
                    forall|b: int| 0 <= b < j && i != b ==> !is_entry_for(
                        self.entries@[i as int],
                        (#[trigger] self.entries@[b]).track_id@,
                        self.entries@[b].quality,
                    ),
            {
                if i != j && self.entries[i].track_id.eq(&self.entries[j].track_id) && self.entries[i].quality
                    == self.entries[j].quality {
                    assert(is_entry_for(self.entries@[i as int], self.entries@[j as int].track_id@, self.entries@[j as int].quality));
                    return false;
                }
            }
        }
        true
    }

    /// An empty cache.
    pub fn new() -> (cache: StreamCache)
        ensures
            cache.well_formed(),
            cache.entries@.len() == 0,
            cache.clock == 0,
    {
        StreamCache { entries: Vec::new(), clock: 0 }
    }

    /// How many streams are kept.
    pub fn len(&self) -> (count: usize)
        ensures
            count == self.entries@.len(),
    {
        self.entries.len()
    }

    /// Where the entry for `track_id` at `quality` stands.
    fn position(&self, track_id: &str, quality: AudioQuality) -> (index: Option<usize>)
        ensures
            match index {
                Some(i) => i == index_of_key(self.entries@, track_id@, quality),
                None => index_of_key(self.entries@, track_id@, quality) == -1,
            },
    {
        let wanted = track_id.to_owned();
        let mut found: Option<usize> = None;
        for i in 0..self.entries.len()
            invariant
                wanted@ == track_id@,
                match found {
                    Some(f) => f == index_of_key(self.entries@.subrange(0, i as int), track_id@, quality),
                    None => index_of_key(self.entries@.subrange(0, i as int), track_id@, quality) == -1,
                },
        {
            let ghost before = self.entries@.subrange(0, i as int);
            let ghost after = self.entries@.subrange(0, i + 1);
            assert(after.drop_last() =~= before);
            if self.entries[i].quality == quality && self.entries[i].track_id.eq(&wanted) {
                found = Some(i);
            }
        }
        assert(self.entries@.subrange(0, self.entries@.len() as int) =~= self.entries@);
        found
    }

    /// The cached stream for `track_id` at `quality` when it is there and not
    /// about to expire at `now`, marked as just used. A stale entry is dropped.
    pub fn get(&mut self, track_id: &str, quality: AudioQuality, now: u64) -> (found: Option<ResolvedStream>)
        requires
            old(self).well_formed(),
        ensures
            final(self).well_formed(),
            ({
                let i = index_of_key(old(self).entries@, track_id@, quality);
                &&& i < 0 ==> found is None && final(self).entries@ == old(self).entries@ && final(self).clock == old(self).clock
                &&& i >= 0 && is_stale(old(self).entries@[i].stream, now) ==> found is None
                    && final(self).entries@ == old(self).entries@.remove(i) && final(self).clock == old(self).clock
                &&& i >= 0 && !is_stale(old(self).entries@[i].stream, now) ==> {
                    &&& final(self).clock == next_tick(old(self).clock)
                    &&& final(self).entries@ == old(self).entries@.update(
                        i,
                        CachedStream { last_used: final(self).clock, ..old(self).entries@[i] },
                    )
                    &&& found matches Some(s) && s.url == old(self).entries@[i].stream.url
                        && s.headers@ == old(self).entries@[i].stream.headers@
                        && s.expires_at_epoch_seconds == old(self).entries@[i].stream.expires_at_epoch_seconds
                }
            }),
    {
        proof {
            lemma_index_of_key(self.entries@, track_id@, quality);
        }
        let index = match self.position(track_id, quality) {
            Some(index) => index,
            None => return None,
        };
        let stale = match self.entries[index].stream.expires_at_epoch_seconds {
            Some(expiry) => now.saturating_add(SAFE_MARGIN_SECONDS) >= expiry,
            None => false,
        };
        if stale {
            proof {
                lemma_remove_keeps_distinct(self.entries@, index as int);
            }
            self.entries.remove(index);
            return None;
        }
        self.clock = self.clock.saturating_add(1);
        let mut entry = self.entries.remove(index);
        entry.last_used = self.clock;
        let copy = entry.stream.clone();
        let ghost before = self.entries@;
        self.entries.insert(index, entry);
        proof {
            let initial = old(self).entries@;
            assert(self.entries@ =~= initial.update(
                index as int,
                CachedStream { last_used: self.clock, ..initial[index as int] },
            ));
            assert forall|i: int, j: int|
                0 <= i < self.entries@.len() && 0 <= j < self.entries@.len() && i != j implies !is_entry_for(
                #[trigger] self.entries@[i],
                self.entries@[j].track_id@,
                self.entries@[j].quality,
            ) || !is_entry_for(#[trigger] self.entries@[j], self.entries@[i].track_id@, self.entries@[i].quality) by {
                assert(self.entries@[i].track_id == initial[i].track_id && self.entries@[i].quality == initial[i].quality);
                assert(self.entries@[j].track_id == initial[j].track_id && self.entries@[j].quality == initial[j].quality);
            }
        }
        Some(copy)
    }

    /// The first of the least recently used entries.
    fn oldest(&self) -> (index: usize)
        requires
            self.entries@.len() > 0,
        ensures
            is_first_oldest(self.entries@, index as int),
    {
        let mut best: usize = 0;
        for i in 1..self.entries.len()
            invariant
                best < i <= self.entries@.len(),
                forall|j: int| 0 <= j < i ==> self.entries@[best as int].last_used <= (#[trigger] self.entries@[j]).last_used,
                forall|j: int| 0 <= j < best ==> self.entries@[best as int].last_used < (#[trigger] self.entries@[j]).last_used,
        {
            if self.entries[i].last_used < self.entries[best].last_used {
                best = i;
            }
        }
        best
    }

    /// Keeps `stream` for `track_id` at `quality` as just used, replacing an
    /// older entry for the same key; when that makes one too many, the least
    /// recently used entry goes.
    pub fn insert(&mut self, track_id: String, quality: AudioQuality, stream: ResolvedStream)
        requires
            old(self).well_formed(),
        ensures
            final(self).well_formed(),
            final(self).clock == next_tick(old(self).clock),
            keeps_within_bound(
                with_entry(old(self).entries@, CachedStream { track_id, quality, stream, last_used: final(self).clock }),
                final(self).entries@,
            ),
    {
        proof {
            lemma_index_of_key(self.entries@, track_id@, quality);
        }
        self.clock = self.clock.saturating_add(1);
        let position = self.position(track_id.as_str(), quality);
        let ghost initial = old(self).entries@;
        let entry = CachedStream { track_id, quality, stream, last_used: self.clock };
        let ghost new_entry = entry;
        match position {
            Some(index) => {
                self.entries.set(index, entry);
                proof {
                    assert forall|i: int, j: int|
                        0 <= i < self.entries@.len() && 0 <= j < self.entries@.len() && i != j implies !is_entry_for(
                        #[trigger] self.entries@[i],
                        self.entries@[j].track_id@,
                        self.entries@[j].quality,
                    ) || !is_entry_for(#[trigger] self.entries@[j], self.entries@[i].track_id@, self.entries@[i].quality) by {
                        if i != index && j != index {
                            assert(self.entries@[i] == initial[i] && self.entries@[j] == initial[j]);
                        } else if i == index {
                            assert(self.entries@[j] == initial[j]);
                        } else {
                            assert(self.entries@[i] == initial[i]);
                        }
                    }
                }
            },
            None => {
                self.entries.push(entry);
                proof {
                    assert forall|i: int, j: int|
                        0 <= i < self.entries@.len() && 0 <= j < self.entries@.len() && i != j implies !is_entry_for(
                        #[trigger] self.entries@[i],
                        self.entries@[j].track_id@,
                        self.entries@[j].quality,
                    ) || !is_entry_for(#[trigger] self.entries@[j], self.entries@[i].track_id@, self.entries@[i].quality) by {
                        if i < initial.len() && j < initial.len() {
                            assert(self.entries@[i] == initial[i] && self.entries@[j] == initial[j]);
                        } else if i == initial.len() {
                            assert(self.entries@[j] == initial[j]);
                            assert(!is_entry_for(initial[j], new_entry.track_id@, new_entry.quality));
                        } else {
                            assert(self.entries@[i] == initial[i]);
                            assert(!is_entry_for(initial[i], new_entry.track_id@, new_entry.quality));
                        }
                    }
                }
            },
        }
        let ghost added = self.entries@;
        assert(added == with_entry(initial, new_entry));
        if self.entries.len() > MAX_CACHED_STREAMS {
            let oldest = self.oldest();
            proof {
                lemma_remove_keeps_distinct(self.entries@, oldest as int);
            }
            self.entries.remove(oldest);
            assert(is_first_oldest(added, oldest as int) && self.entries@ == added.remove(oldest as int));
        }
    }
}

/// A stream just put into the cache is still there after the cache is cut back
/// to its bound, as long as the use counter has not run out.
pub proof fn lemma_inserted_stream_is_kept(
    entries: Seq<CachedStream>,
    clock: u64,
    entry: CachedStream,
    kept: Seq<CachedStream>,
)
    requires
        entries.len() <= MAX_CACHED_STREAMS,
        uses_up_to(entries, clock),
        clock < u64::MAX,
        entry.last_used == clock + 1,
        keeps_within_bound(with_entry(entries, entry), kept),
        keys_distinct(kept),
    ensures
        exists|i: int| 0 <= i < kept.len() && kept[i] == entry,
        index_of_key(kept, entry.track_id@, entry.quality) >= 0,
        kept[index_of_key(kept, entry.track_id@, entry.quality)] == entry,
{
    let added = with_entry(entries, entry);
    let p = index_of_key(entries, entry.track_id@, entry.quality);
    lemma_index_of_key(entries, entry.track_id@, entry.quality);
    let at = if p >= 0 { p } else { entries.len() as int };
    assert(added[at] == entry);
    let place = if added.len() <= MAX_CACHED_STREAMS {
        at
    } else {
        let j = choose|j: int| is_first_oldest(added, j) && kept == added.remove(j);
        let other = if at == 0 { 1int } else { 0int };
        assert(added[other].last_used <= clock) by {
            assert(added[other] == entries[other]);
        }
        assert(added[j].last_used <= added[other].last_used);
        assert(j != at);
        if j < at { at - 1 } else { at }
    };
    assert(kept[place] == entry);
    lemma_index_of_key(kept, entry.track_id@, entry.quality);
    assert(is_entry_for(kept[place], entry.track_id@, entry.quality));
}

/// A stream is stale exactly when its expiry is at or before `now` plus the safety
/// margin; a stream without expiry never is; and once stale, a stream stays
/// stale at every later time. So the cache never hands out a stream that expires
/// within the margin.
pub proof fn lemma_stale_streams_are_never_served(stream: ResolvedStream, now: u64, later: u64)
    ensures
        stream.expires_at_epoch_seconds matches Some(expiry) ==> (is_stale(stream, now) <==> now + SAFE_MARGIN_SECONDS
            >= expiry),
        stream.expires_at_epoch_seconds is None ==> !is_stale(stream, now),
        is_stale(stream, now) && now <= later ==> is_stale(stream, later),
{
}

} // verus!
