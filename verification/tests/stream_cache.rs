use zerobeat::{AudioQuality, MAX_CACHED_STREAMS, ResolvedStream, StreamCache};

fn stream(url: &str, expires: Option<u64>) -> ResolvedStream {
    let mut stream = ResolvedStream::new(url.into());
    stream.expires_at_epoch_seconds = expires;
    stream
}

#[test]
fn cache_is_bounded_and_evicts_the_least_recently_used() {
    let mut cache = StreamCache::new();
    for index in 0..40 {
        cache.insert(format!("track-{index}"), AudioQuality::Automatic, stream(&format!("u{index}"), None));
    }
    assert_eq!(cache.len(), MAX_CACHED_STREAMS);
    assert!(cache.get("track-0", AudioQuality::Automatic, 0).is_none());
    assert_eq!(cache.get("track-39", AudioQuality::Automatic, 0).unwrap().url, "u39");
}

#[test]
fn recently_used_entries_survive_eviction() {
    let mut cache = StreamCache::new();
    for index in 0..32 {
        cache.insert(format!("track-{index}"), AudioQuality::Automatic, stream("u", None));
    }
    assert!(cache.get("track-0", AudioQuality::Automatic, 0).is_some());
    cache.insert("new".into(), AudioQuality::Automatic, stream("n", None));
    assert!(cache.get("track-0", AudioQuality::Automatic, 0).is_some());
    assert!(cache.get("track-1", AudioQuality::Automatic, 0).is_none());
}

#[test]
fn streams_near_expiry_are_dropped() {
    let mut cache = StreamCache::new();
    cache.insert("a".into(), AudioQuality::Automatic, stream("u", Some(1_000)));
    assert!(cache.get("a", AudioQuality::Automatic, 984).is_some());
    assert!(cache.get("a", AudioQuality::Automatic, 985).is_none());
    assert_eq!(cache.len(), 0);
}

#[test]
fn quality_is_part_of_the_key_and_inserts_replace() {
    let mut cache = StreamCache::new();
    cache.insert("a".into(), AudioQuality::Automatic, stream("auto", None));
    cache.insert("a".into(), AudioQuality::DataSaver, stream("low", None));
    cache.insert("a".into(), AudioQuality::Automatic, stream("auto2", None));
    assert_eq!(cache.len(), 2);
    assert_eq!(cache.get("a", AudioQuality::Automatic, 0).unwrap().url, "auto2");
    assert_eq!(cache.get("a", AudioQuality::DataSaver, 0).unwrap().url, "low");
    assert!(cache.get("a", AudioQuality::High, 0).is_none());
}

#[test]
fn cache_checks_its_own_shape() {
    let mut cache = StreamCache::new();
    assert!(cache.is_well_formed());
    cache.insert("a".into(), AudioQuality::Automatic, stream("https://a", None));
    assert!(cache.is_well_formed());
    let duplicate = cache.entries[0].stream.clone();
    cache.entries.push(zerobeat::CachedStream {
        track_id: "a".into(),
        quality: AudioQuality::Automatic,
        stream: duplicate,
        last_used: 0,
    });
    assert!(!cache.is_well_formed());
}
