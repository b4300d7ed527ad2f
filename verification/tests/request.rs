use zerobeat::{AudioQuality, CatalogError, RadioRequest, ResolvedStream, SearchRequest};

#[test]
fn search_query_is_trimmed_and_limit_is_bounded() {
    let request = SearchRequest::new("  tampar juicy luicy  ", 500).unwrap();

    assert_eq!(request.query, "tampar juicy luicy");
    assert_eq!(request.limit, 50);
}

#[test]
fn blank_search_query_is_rejected() {
    assert!(matches!(
        SearchRequest::new("  ", 20),
        Err(CatalogError::InvalidQuery)
    ));
}

#[test]
fn automatic_quality_is_the_default() {
    assert_eq!(AudioQuality::default(), AudioQuality::Automatic);
}

#[test]
fn zero_search_limit_is_raised_to_one() {
    let request = SearchRequest::new("x", 0).unwrap();
    assert_eq!(request.limit, 1);
}

#[test]
fn radio_requests_carry_their_seed_and_continuation() {
    let seed = RadioRequest::from_seed("video-123", 12);
    assert_eq!(seed.seed_track_id, "video-123");
    assert_eq!(seed.continuation, None);
    let next = RadioRequest::from_continuation("video-123", "token", 12);
    assert_eq!(next.continuation.as_deref(), Some("token"));
}

#[test]
fn resolved_stream_starts_without_headers_or_expiry() {
    let stream = ResolvedStream::new("https://stream.example/a".into());
    assert!(stream.headers.is_empty());
    assert_eq!(stream.expires_at_epoch_seconds, None);
}

#[test]
fn catalog_errors_describe_themselves() {
    assert_eq!(CatalogError::InvalidQuery.message(), "search query cannot be blank");
    assert_eq!(
        CatalogError::Unavailable("down".into()).message(),
        "catalog is unavailable: down"
    );
}
