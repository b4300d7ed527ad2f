//! ZeroBeat: the verified core of a terminal music player and its daemon.
mod track;
mod session;

pub use track::Track;
pub use session::{Capability, SessionMode};
mod navigation;
pub use navigation::{
    NavigationState, NavigationView, Route, lemma_back_undoes_open, lemma_navigation_keeps_search,
    lemma_open_is_idempotent, spec_back, spec_open,
};
pub mod text;
mod catalog;
pub use catalog::{
    AudioQuality, CatalogError, Lyrics, LyricsLine, QueueRepeatMode, QueueSession, QueueStart,
    RadioPage, RadioRequest, ResolvedStream, SearchRequest, catalog_error_text, clamp,
    MAX_RADIO_RESULTS, MAX_SEARCH_RESULTS,
};
pub mod clock;
mod endless_queue;
pub use endless_queue::{
    EndlessQueue, EndlessView, MAX_NO_PROGRESS_PAGES, MAX_VISIBLE_QUEUE, PREFETCH_INVENTORY,
    RETRY_BASE_MS, RETRY_MAX_MS, admit_unseen, clone_tracks, doubling, may_fetch, next_generation, opt_view,
    retry_backoff, retry_backoff_ms, saturating_add_u64, track_ids, top_up_view, distinct_ids,
    non_blank, saturating_add_u8, saturating_add_u32, request_view, accept_view, reject_view,
    retry_delay_view, contains_track_id, same_optional_text, lemma_push_to_set,
    lemma_admit_unseen, lemma_top_up_keeps_queue_unique_and_capped, lemma_top_up_takes_leading_tracks, lemma_request_carries_the_continuation, lemma_stale_page_is_ignored,
    lemma_accepted_tracks_are_seen, lemma_small_doublings, lemma_retry_delay_is_bounded,
};
mod protocol;
pub use protocol::{
    AppSnapshot, ClientCommand, DaemonEvent, DownloadSnapshot, DownloadStatus, LibrarySnapshot,
    LyricsLineSnapshot, LyricsSnapshot, LyricsStatus, PROTOCOL_VERSION, PlaybackSnapshot,
    PlaybackStatus, RepeatMode, SPECTRUM_BAND_COUNT, SearchSnapshot, SearchStatus,
    SettingsSnapshot, snapshot_event,
};
mod audio;
pub use audio::{
    AudioBackend, BackendError, BackendTelemetry, CrossfadeConfig, Player, PlayerError,
    PlayerState, PlayerView, QueueItem, StreamSource, after_end, after_load, backend_error_text,
    transition_to, transition_to_guarded, BackendCall, BackendEvent, last_outcome, called,
    TransitionPhase, TransitionAction, transition_step_view, transition_step, phase_rank, transition_events,
    step_events, answers_from, transition_from, starts_next, switches_state,
    lemma_transition_stops_loads_and_plays, lemma_refused_transition_makes_no_call,
};
mod queue_tracker;
pub use queue_tracker::{
    AutoAdvanceMarker, QueueProjection, QueueTracker, RefillBackoff, RefillMarker,
    backoff_delay_seconds, backoff_seconds, clamped_current, collect_tracks, first_position,
    play_order_view, project_queue, projected_indices, projected_tracks, repeat_mode_view,
    retry_time_ms, take_at_most, tracks_at, upcoming, upcoming_indices, all_in_range,
    lemma_projection_matches_visible_queue, session_refused, accepted_into, replaced_by,
    refill_blocked, refill_waiting, refill_permitted, refill_checked, refill_result_marker,
    refill_error_backoff, advance_permitted, advance_error_marker,
};
mod playback;
pub use playback::{
    AudioOp, CLIENT_SEARCH_LIMIT, CommandStep, MAX_CROSSFADE_SECONDS, MAX_HISTORY, PlaybackStart,
    bump, client_search, commit_playback_current, history_after, playback_start_for,
    prepare_snapshot, lemma_relative_seek_moves_by_offset, prepared, prepared_view, with_telemetry, made_no_progress, superseded_view, shows_error, queue_error, seek_target, set_playback_error, supersede_playback,
    unsupported_version_text, plan_command, finish_audio, finish_crossfade_save, finish_search,
    finish_lyrics, lyrics_lines, is_service_command, mute_target, opt_text, PlaybackFinish,
    advance_made_no_progress, apply_telemetry, download_should_start, finish_playback,
    finish_playback_error, first_of_each_id, is_terminal_queue_error, mark_buffering,
    prewarm_candidates, saturating_add_u64_view, should_advance, should_advance_view,
    terminal_queue_message, lemma_history_stays_bounded, no_adjacent_repeats,
};
pub mod crypto;
mod security;
pub use security::{
    DeviceIdentity, DeviceIdentityView, NONCE_BYTES, PLATFORM, RISK_SNAPSHOT, RequestToSign,
    SecurityError, SignedRequest, StoredIdentity, body_hash_view, security_error_text, join_with,
    check_identity_file, canonical_fields, header_view,
    joined, signature_text, signed_headers, unicode_lowercase, unicode_uppercase,
    without_trailing_padding, lemma_signature_binds_the_body,
};
mod api;
pub use api::{
    ApiConfig, ApiError, api_error_text, catalog_error, parsed_url_view, trim_end_char, trim_trailing_slashes,
    unix_time_millis, unix_time_millis_from, url_parsed, form_pair_appended, search_query, search_query_view,
    resolve_query, resolve_query_view, resolved_stream_from, Artist, SearchTrack, Thumbnail, artist_line,
    artist_names, is_largest_thumbnail, non_blank_texts, thumbnail_area, title_or_untitled, track_from_api,
    tracks_from_api, describes_search_result, duration_ms_from_seconds, is_success_status, json_member_text,
    member_view, rejection_message, rejection_message_from, rejection_text, response_outcome,
    status_reason_phrase, utf8_text,
};
mod queue_models;
pub use queue_models::{
    QueueSessionResponse, QueueStartRequest, QueueTrack, is_zero, parse_repeat_mode, plays_as,
    queue_session_from, queue_tracks_from, repeat_mode_name, repeat_mode_of, repeat_mode_text, stores_track,
    tracks_from_queue, lemma_queue_track_round_trip, lemma_repeat_mode_round_trip,
};
mod download;
pub use download::{
    find_char, first_index_of, lemma_first_index_bounds, range_text, replace_range_from, url_with_range,
    url_with_range_view, DownloadRun, run_download, bytes_taken, lemma_finished_download_has_its_length, lemma_first_index_scan, is_pair_start, pair_end, pair_name, range_walk_result, lemma_url_with_range_cases, after_last, content_range_total, content_range_total_view, declared_stream_length,
    declared_stream_length_view, digits_value, all_digits, unsigned_digits, first_clen, is_digit, is_safe_id_char, lemma_digits_value_grows,
    pairs_view, parse_u64, parsed_u64, safe_track_id, safe_track_id_view, url_query_pairs, CHUNK_SIZE,
    DownloadProgress, PARTIAL_CONTENT, forwards_header, status_display, lemma_safe_track_id_is_safe,
};
mod stream_cache;
pub use stream_cache::{
    CachedStream, MAX_CACHED_STREAMS, SAFE_MARGIN_SECONDS, StreamCache, lemma_stale_streams_are_never_served, index_of_key, is_entry_for,
    is_first_oldest, is_stale, keys_distinct, lemma_index_of_key, lemma_remove_keeps_distinct, next_tick,
    keeps_within_bound, with_entry, uses_up_to, lemma_inserted_stream_is_kept,
};
mod runtime;
pub use runtime::{
    RuntimeError, check_private_directory, data_dir, is_named_pipe_namespace, join_unix, join_windows,
    runtime_dir, runtime_dir_view, runtime_error_text, socket_path_in, socket_path_view, unix_join,
    windows_data_dir, windows_join, windows_runtime_dir, windows_socket_path,
};
mod ipc;
pub use ipc::{
    IpcError, MAX_FRAME_BYTES, PeerCredentials, ProtocolError, encode_frame, frame_length, header_length, hex_digit_char, hex_fixed,
    ipc_error_text, lemma_frame_roundtrip, lemma_length_header_roundtrip, length_header, named_pipe_path,
    named_pipe_path_view, pipe_security_sddl, pipe_security_sddl_view, path_hash_value, protocol_error_text, check_message_payload, msgpack_error,
};
mod build_config;
pub use build_config::{
    NativePlatform, classify_platform, found_in, has_windows_dependencies, path_list_view, required_headers,
    required_libraries, split_from, split_path_list, trimmed_entries, windows_triplet,
    lemma_path_list_has_no_empty_entries, lemma_trimmed_entries_are_not_empty, lemma_path_list_entries_are_trimmed,
};
mod native;
pub use native::{
    NativeState, check_result, check_spectrum_shape, header_is_invalid, is_http_source, native_state_from_code,
    native_state_view, non_negative, prepare_headers, serialized_headers, telemetry_from, has_prefix,
};
mod daemon;
pub use daemon::{DaemonError, SocketProbe, after_socket_probe, check_socket_file, daemon_error_text, parse_socket};
mod queue_steps;
pub use queue_steps::{
    QueueCall, QueueStep, is_queue_command, pending_text, no_session_text, stale_projection_text,
    no_current_text, next_repeat, endless_start, start_for, session_call, guarded_call,
    backend_index_view, row_call, plan_queue_command, QueueFinish, current_track_of, start_track,
    starts, edits_queue, moves_playback, prepare_track, unconfigured_text, queue_not_configured,
    queue_not_configured_error, is_queue_not_configured, local_start_track, local_queue, finish_queue_command, TelemetryTick,
    TelemetryAction, tick_of, advance_due, advance_step, telemetry_step, finish_refill, unless_ended,
    finish_advance, finish_queued_playback, lemma_starting_track_blocks_queue_edits, lemma_superseded_request_makes_no_call, repeat_rank,
    lemma_repeat_cycles_through_every_mode,
};
