use zerobeat::{
    DownloadProgress, content_range_total, declared_stream_length, forwards_header, parse_u64,
    safe_track_id, url_with_range,
};

#[test]
fn generic_urls_are_not_mutated() {
    assert_eq!(
        url_with_range("https://cdn.example/audio?signature=abc", 0, 99, false),
        "https://cdn.example/audio?signature=abc"
    );
}

#[test]
fn existing_query_range_is_replaced_once() {
    assert_eq!(
        url_with_range(
            "https://cdn.example/audio?clen=100&range=0-9&signature=abc",
            10,
            99,
            true,
        ),
        "https://cdn.example/audio?clen=100&range=10-99&signature=abc"
    );
}

#[test]
fn range_is_added_to_a_url_without_query_before_its_fragment() {
    assert_eq!(
        url_with_range("https://cdn.example/audio#part", 5, 9, true),
        "https://cdn.example/audio?range=5-9#part"
    );
}

#[test]
fn range_is_appended_to_a_query_without_one() {
    assert_eq!(
        url_with_range("https://cdn.example/audio?clen=100#x", 0, 99, true),
        "https://cdn.example/audio?clen=100&range=0-99#x"
    );
    assert_eq!(
        url_with_range("https://cdn.example/audio?ranger=1", 0, 1, true),
        "https://cdn.example/audio?ranger=1&range=0-1"
    );
}

#[test]
fn content_range_total_is_the_number_after_the_last_slash() {
    assert_eq!(content_range_total("bytes 0-99/1234"), Some(1234));
    assert_eq!(content_range_total("bytes 0-99/*"), None);
    assert_eq!(content_range_total("1234"), None);
    assert_eq!(content_range_total("bytes 0-9/+7"), Some(7));
}

#[test]
fn decimal_parsing_follows_the_standard_rules() {
    assert_eq!(parse_u64("0"), Some(0));
    assert_eq!(parse_u64("18446744073709551615"), Some(u64::MAX));
    assert_eq!(parse_u64("18446744073709551616"), None);
    assert_eq!(parse_u64(""), None);
    assert_eq!(parse_u64("+"), None);
    assert_eq!(parse_u64("-1"), None);
    assert_eq!(parse_u64(" 1"), None);
}

#[test]
fn declared_length_comes_from_a_positive_clen() {
    assert_eq!(declared_stream_length("https://cdn.example/a?clen=300&x=1"), Some(300));
    assert_eq!(declared_stream_length("https://cdn.example/a?clen=abc&clen=42"), Some(42));
    assert_eq!(declared_stream_length("https://cdn.example/a?clen=0"), None);
    assert_eq!(declared_stream_length("https://cdn.example/a"), None);
    assert_eq!(declared_stream_length("not a url"), None);
}

#[test]
fn track_ids_become_safe_file_names() {
    assert_eq!(safe_track_id("abc-DEF_123"), "abc-DEF_123");
    assert_eq!(safe_track_id("a/b c"), "a_b_c");
    assert_eq!(safe_track_id(""), "track");
    assert_eq!(safe_track_id(&"x".repeat(200)).len(), 96);
}

#[test]
fn range_headers_are_not_forwarded() {
    assert!(!forwards_header("Range"));
    assert!(!forwards_header("RANGE"));
    assert!(forwards_header("User-Agent"));
}

#[test]
fn declared_download_completes_exactly_at_its_length() {
    let mut progress = DownloadProgress::start(Some(100));
    let end = progress.chunk_end();
    assert_eq!(end, 99);
    assert_eq!(progress.range_header(end), None);
    assert!(progress.ranged_url("https://cdn/a?clen=100", end).contains("range=0-99"));
    progress.accept_status(200, None, end).unwrap();
    let requested = progress.requested(end);
    assert_eq!(requested, 100);
    let received = progress.count_chunk(0, 60, requested, end).unwrap();
    let received = progress.count_chunk(received, 40, requested, end).unwrap();
    assert!(progress.count_chunk(received, 1, requested, end).is_err());
    assert_eq!(progress.finish_chunk(200, received, requested), Ok(true));
    assert_eq!(progress.offset, 100);
    assert!(progress.check_size(100).is_ok());
    assert_eq!(
        progress.check_size(99),
        Err("download size mismatch: expected 100 bytes, received 99".to_owned())
    );
}

#[test]
fn undeclared_download_walks_chunks_with_range_headers() {
    let mut progress = DownloadProgress::start(None);
    let end = progress.chunk_end();
    assert_eq!(end, 61_439);
    assert_eq!(progress.range_header(end), Some("bytes=0-61439".to_owned()));
    progress.accept_status(206, Some(100_000), end).unwrap();
    assert_eq!(progress.expected_total, Some(100_000));
    assert_eq!(progress.finish_chunk(206, 61_440, 61_440), Ok(false));
    let end = progress.chunk_end();
    assert_eq!(end, 99_999);
    assert_eq!(
        progress.finish_chunk(206, 10, progress.requested(end)),
        Err("download ended early at 61450 of 100000 bytes".to_owned())
    );
}

#[test]
fn refused_and_empty_answers_stop_the_download() {
    let mut progress = DownloadProgress::start(None);
    let error = progress.accept_status(404, None, 99).unwrap_err();
    assert_eq!(error, "download server returned HTTP 404 Not Found for bytes=0-99");
    let mut progress = DownloadProgress::start(None);
    assert_eq!(
        progress.finish_chunk(200, 0, 10),
        Err("download server returned an empty chunk".to_owned())
    );
}

#[test]
fn a_download_continues_only_before_its_end() {
    let mut progress = DownloadProgress::start(Some(100));
    assert!(progress.can_continue());
    progress.offset = 100;
    assert!(!progress.can_continue());
    assert!(!DownloadProgress::start(Some(0)).can_continue());
}
