use zerobeat::{
    ApiConfig, ApiError, Artist, AudioQuality, CatalogError, SearchRequest, SearchTrack, Thumbnail,
    catalog_error, rejection_message, resolve_query, resolved_stream_from, response_outcome,
    search_query, track_from_api, tracks_from_api, unix_time_millis, unix_time_millis_from,
};

fn config() -> ApiConfig {
    ApiConfig::new("http://127.0.0.1:8080/music", "/music/", "/tmp/device.identity", "cli/0.1.0+1").unwrap()
}

#[test]
fn config_keeps_the_url_and_trims_the_canonical_prefix() {
    let config = config();
    assert_eq!(config.base_url, "http://127.0.0.1:8080/music");
    assert_eq!(config.host.as_deref(), Some("127.0.0.1"));
    assert_eq!(config.canonical_prefix, "/music");
    assert_eq!(
        config.endpoint("/v1/device/challenge"),
        "http://127.0.0.1:8080/music/v1/device/challenge"
    );
    assert_eq!(
        config.endpoint_with_query("/v1/app/search/songs", "q=tampar&limit=20"),
        "http://127.0.0.1:8080/music/v1/app/search/songs?q=tampar&limit=20"
    );
    let request = config.signed_get_request("/v1/app/search/songs", "q=x").unwrap();
    assert_eq!(request.method, "GET");
    assert_eq!(request.host, "127.0.0.1");
    assert_eq!(request.canonical_path, "/music/v1/app/search/songs");
}

#[test]
fn config_refuses_bad_or_hostless_urls() {
    assert!(matches!(
        ApiConfig::new("not a url", "/", "/tmp/i", "v"),
        Err(ApiError::Url(_))
    ));
    assert!(matches!(
        ApiConfig::new("data:text/plain,hello", "/", "/tmp/i", "v"),
        Err(ApiError::InvalidBaseUrl)
    ));
}

#[test]
fn query_strings_are_form_encoded() {
    let request = SearchRequest::new("tampar", 20).unwrap();
    assert_eq!(search_query(&request), "q=tampar&limit=20");
    let request = SearchRequest::new("juicy luicy & co", 5).unwrap();
    assert_eq!(search_query(&request), "q=juicy+luicy+%26+co&limit=5");
    assert_eq!(resolve_query("video-123", AudioQuality::Automatic), "video_id=video-123");
    assert_eq!(
        resolve_query("video-123", AudioQuality::DataSaver),
        "video_id=video-123&quality=low"
    );
}

#[test]
fn search_results_become_tracks() {
    let track = track_from_api(SearchTrack {
        video_id: "video-123".into(),
        title: Some("Tampar".into()),
        artists: vec![Artist { name: "Juicy Luicy".into() }, Artist { name: " ".into() }, Artist { name: "Guest".into() }],
        duration_seconds: Some(245),
        thumbnails: vec![
            Thumbnail { url: "small".into(), width: 10, height: 10 },
            Thumbnail { url: "big".into(), width: 544, height: 544 },
            Thumbnail { url: "big-too".into(), width: 544, height: 544 },
            Thumbnail { url: "medium".into(), width: 100, height: 100 },
        ],
    });
    assert_eq!(track.id, "video-123");
    assert_eq!(track.title, "Tampar");
    assert_eq!(track.artist, "Juicy Luicy, Guest");
    assert_eq!(track.duration_ms, 245_000);
    assert_eq!(track.thumbnail_url.as_deref(), Some("big-too"));
}

#[test]
fn missing_fields_fall_back() {
    let track = track_from_api(SearchTrack {
        video_id: "v".into(),
        title: Some("   ".into()),
        artists: vec![],
        duration_seconds: None,
        thumbnails: vec![],
    });
    assert_eq!(track.title, "Untitled");
    assert_eq!(track.artist, "Unknown artist");
    assert_eq!(track.duration_ms, 0);
    assert_eq!(track.thumbnail_url, None);
    let huge = track_from_api(SearchTrack {
        video_id: "v".into(),
        title: None,
        artists: vec![],
        duration_seconds: Some(u64::MAX),
        thumbnails: vec![],
    });
    assert_eq!(huge.duration_ms, u64::MAX);
    let tracks = tracks_from_api(vec![
        SearchTrack { video_id: "a".into(), title: None, artists: vec![], duration_seconds: None, thumbnails: vec![] },
        SearchTrack { video_id: "b".into(), title: None, artists: vec![], duration_seconds: None, thumbnails: vec![] },
    ]);
    assert_eq!(tracks.iter().map(|t| t.id.as_str()).collect::<Vec<_>>(), ["a", "b"]);
}

#[test]
fn stream_lookup_needs_an_audio_url() {
    assert!(matches!(resolved_stream_from(None), Err(ApiError::InvalidResponse("missing audio URL"))));
    assert!(matches!(
        resolved_stream_from(Some("  ".into())),
        Err(ApiError::InvalidResponse("missing audio URL"))
    ));
    assert_eq!(resolved_stream_from(Some("https://a".into())).unwrap().url, "https://a");
}

#[test]
fn rejection_messages_prefer_json_then_body_then_reason() {
    assert_eq!(rejection_message(br#"{"error":"bad key"}"#, 401), "bad key");
    assert_eq!(rejection_message(br#"{"message":"slow down"}"#, 429), "slow down");
    assert_eq!(
        rejection_message(br#"{"error":5,"message":"ignored"}"#, 400),
        r#"{"error":5,"message":"ignored"}"#
    );
    assert_eq!(rejection_message(br#"{"error":" "}"#, 400), "Bad Request");
    assert_eq!(rejection_message(b"plain failure", 500), "plain failure");
    assert_eq!(rejection_message(b"   ", 404), "Not Found");
    assert_eq!(rejection_message(&[0xff, 0xfe], 599), "request rejected");
}

#[test]
fn responses_succeed_only_with_2xx_statuses() {
    assert_eq!(response_outcome(200, b"ok".to_vec()).unwrap(), b"ok");
    match response_outcome(403, br#"{"error":"denied"}"#.to_vec()) {
        Err(ApiError::Rejected { status, message }) => {
            assert_eq!(status, 403);
            assert_eq!(message, "denied");
        }
        other => panic!("unexpected {other:?}"),
    }
}

#[test]
fn api_errors_map_to_catalog_errors() {
    assert!(matches!(
        catalog_error(ApiError::Rejected { status: 401, message: "x".into() }),
        CatalogError::Unauthorized
    ));
    assert!(matches!(
        catalog_error(ApiError::InvalidResponse("missing audio URL")),
        CatalogError::InvalidResponse(detail) if detail == "missing audio URL"
    ));
    match catalog_error(ApiError::Rejected { status: 500, message: "boom".into() }) {
        CatalogError::Unavailable(detail) => {
            assert_eq!(detail, "API rejected the request with status 500: boom")
        }
        other => panic!("unexpected {other:?}"),
    }
}

#[test]
fn clock_readings_become_request_times() {
    assert_eq!(unix_time_millis_from(Some(1_782_342_000_000)).unwrap(), 1_782_342_000_000);
    assert!(matches!(unix_time_millis_from(None), Err(ApiError::InvalidClock)));
    assert!(matches!(
        unix_time_millis_from(Some(i64::MAX as u128 + 1)),
        Err(ApiError::InvalidClock)
    ));
    assert!(unix_time_millis().unwrap() > 1_600_000_000_000);
}
