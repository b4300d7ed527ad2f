use vstd::prelude::*;

use crate::catalog::{AudioQuality, CatalogError, ResolvedStream, SearchRequest};
use crate::clock::read_unix_time_ms;
use crate::endless_queue::opt_view;
use crate::security::{RequestToSign, SecurityError, join_with, joined, security_error_text};
use crate::track::Track;
use crate::text::{concat, decimal, decimal_string, is_blank, is_blank_view};

verus! {

/// Why a call to the music API failed.
#[derive(Debug)]
pub enum ApiError {
    InvalidBaseUrl,
    Url(String),
    Transport(String),
    Security(SecurityError),
    Rejected { status: u16, message: String },
    InvalidResponse(&'static str),
    InvalidJson(String),
    InvalidClock,
}

/// The text a user sees for each API error.
pub open spec fn api_error_text(error: ApiError) -> Seq<char> {
    match error {
        ApiError::InvalidBaseUrl => "invalid API base URL"@,
        ApiError::Url(detail) => "API URL failed: "@ + detail@,
        ApiError::Transport(detail) => "API transport failed: "@ + detail@,
        ApiError::Security(inner) => "device security failed: "@ + security_error_text(inner),
        ApiError::Rejected { status, message } => "API rejected the request with status "@ + decimal(
            status as nat,
        ) + ": "@ + message@,
        ApiError::InvalidResponse(detail) => "API response was incomplete: "@ + detail@,
        ApiError::InvalidJson(detail) => "API returned invalid JSON: "@ + detail@,
        ApiError::InvalidClock => "system clock is before Unix epoch"@,
    }
}

impl ApiError {
    /// The human-readable description of the error.
    pub fn message(&self) -> (text: String)
        ensures
            text@ == api_error_text(*self),
    {
        match self {
            ApiError::InvalidBaseUrl => "invalid API base URL".to_owned(),
            ApiError::Url(detail) => concat("API URL failed: ", detail.as_str()),
            ApiError::Transport(detail) => concat("API transport failed: ", detail.as_str()),
            ApiError::Security(inner) => {
                let inner_text = inner.message();
                concat("device security failed: ", inner_text.as_str())
            },
            ApiError::Rejected { status, message } => {
                let number = decimal_string(*status as u64);
                let head = concat("API rejected the request with status ", number.as_str());
                let head = concat(head.as_str(), ": ");
                concat(head.as_str(), message.as_str())
            },
            ApiError::InvalidResponse(detail) => concat("API response was incomplete: ", detail),
            ApiError::InvalidJson(detail) => concat("API returned invalid JSON: ", detail.as_str()),
            ApiError::InvalidClock => "system clock is before Unix epoch".to_owned(),
        }
    }
}

/// Turns an API failure into the catalog error that callers see.
pub fn catalog_error(error: ApiError) -> (mapped: CatalogError)
    ensures
        match error {
            ApiError::Rejected { status, .. } if status == 401 || status == 403 => mapped
                is Unauthorized,
            ApiError::InvalidResponse(detail) => mapped matches CatalogError::InvalidResponse(d)
                && d@ == detail@,
            _ => mapped matches CatalogError::Unavailable(d) && d@ == api_error_text(error),
        },
{
    match error {
        ApiError::Rejected { status, .. } if status == 401 || status == 403 => {
            CatalogError::Unauthorized
        },
        ApiError::InvalidResponse(detail) => CatalogError::InvalidResponse(detail.to_owned()),
        _ => CatalogError::Unavailable(error.message()),
    }
}

/// What `url::Url::parse` makes of a text: the parsed URL's serialization and its
/// host, or the text of the parse error.
pub uninterp spec fn url_parsed(input: Seq<char>) -> Result<(Seq<char>, Option<Seq<char>>), Seq<char>>;

/// The view of what `parse_url` hands back.
pub open spec fn parsed_url_view(parsed: Result<(String, Option<String>), String>) -> Result<(Seq<char>, Option<Seq<char>>), Seq<char>> {
    match parsed {
        Ok((serialized, host)) => Ok((serialized@, opt_view(host))),
        Err(detail) => Err(detail@),
    }
}

/// Parses a URL with `url::Url::parse` and hands back its serialization
/// (`Url::as_str`) and host (`Url::host_str`), or the error's display text. The
/// contract only names the result: it is a function of the input text.
#[verifier::external_body]
fn parse_url(input: &str) -> (parsed: Result<(String, Option<String>), String>)
    ensures
        parsed_url_view(parsed) == url_parsed(input@),
{
    match url::Url::parse(input) {
        Ok(url) => Ok((url.as_str().to_owned(), url.host_str().map(|host| host.to_owned()))),
        Err(error) => Err(error.to_string()),
    }
}

/// `s` without the copies of `c` at its end.
pub open spec fn trim_end_char(s: Seq<char>, c: char) -> Seq<char>
    decreases s.len(),
{
    if s.len() > 0 && s.last() == c {
        trim_end_char(s.drop_last(), c)
    } else {
        s
    }
}

/// `s` without the slashes at its end.
pub fn trim_trailing_slashes(s: &str) -> (trimmed: String)
    ensures
        trimmed@ == trim_end_char(s@, '/'),
{
    let n = s.unicode_len();
    let mut end = n;
    assert(s@.subrange(0, n as int) =~= s@);
    while end > 0 && s.get_char(end - 1) == '/'
        invariant
            end <= n == s@.len(),
            trim_end_char(s@, '/') == trim_end_char(s@.subrange(0, end as int), '/'),
        decreases end,
    {
        assert(s@.subrange(0, end as int).drop_last() =~= s@.subrange(0, end - 1));
        end = end - 1;
    }
    proof {
        if end > 0 {
            assert(s@.subrange(0, end as int).last() == s@[end - 1]);
        }
    }
    s.substring_char(0, end).to_owned()
}

/// Where the API lives and how this install identifies itself to it.
#[derive(Debug)]
pub struct ApiConfig {
    /// The base URL as `url` serializes it.
    pub base_url: String,
    /// The base URL's host, when it has one.
    pub host: Option<String>,
    /// The path prefix the server signs requests under, without trailing slashes.
    pub canonical_prefix: String,
    /// Where the device identity is kept.
    pub identity_path: String,
    /// The application version reported to the API.
    pub app_version: String,
}

impl ApiConfig {
    /// Parses the base URL and keeps the rest; a URL that does not parse, or has
    /// no host, is refused.
    pub fn new(base_url: &str, canonical_prefix: &str, identity_path: &str, app_version: &str) -> (config: Result<ApiConfig, ApiError>)
        ensures
            match url_parsed(base_url@) {
                Err(detail) => config matches Err(ApiError::Url(d)) && d@ == detail,
                Ok((_, None)) => config matches Err(ApiError::InvalidBaseUrl),
                Ok((serialized, Some(host))) => config matches Ok(c) && c.base_url@ == serialized
                    && opt_view(c.host) == Some(host)
                    && c.canonical_prefix@ == trim_end_char(canonical_prefix@, '/')
                    && c.identity_path@ == identity_path@ && c.app_version@ == app_version@,
            },
    {
        match parse_url(base_url) {
            Err(detail) => Err(ApiError::Url(detail)),
            Ok((serialized, host)) => match host {
                None => Err(ApiError::InvalidBaseUrl),
                Some(host) => Ok(ApiConfig {
                    base_url: serialized,
                    host: Some(host),
                    canonical_prefix: trim_trailing_slashes(canonical_prefix),
                    identity_path: identity_path.to_owned(),
                    app_version: app_version.to_owned(),
                }),
            },
        }
    }

    /// The full URL of an API path: the base URL without trailing slashes,
    /// then the path.
    pub fn endpoint(&self, path: &str) -> (url: String)
        ensures
            url@ == trim_end_char(self.base_url@, '/') + path@,
    {
        let base = trim_trailing_slashes(self.base_url.as_str());
        concat(base.as_str(), path)
    }

    /// The full URL of an API path with a query string.
    pub fn endpoint_with_query(&self, path: &str, raw_query: &str) -> (url: String)
        ensures
            url@ == trim_end_char(self.base_url@, '/') + path@ + "?"@ + raw_query@,
    {
        let url = self.endpoint(path);
        let url = concat(url.as_str(), "?");
        concat(url.as_str(), raw_query)
    }

    /// The path a request is signed under: the canonical prefix, then the path.
    pub fn canonical_path(&self, path: &str) -> (canonical: String)
        ensures
            canonical@ == self.canonical_prefix@ + path@,
    {
        concat(self.canonical_prefix.as_str(), path)
    }

    /// The GET request to sign for an API path and query; without a host the
    /// base URL is refused.
    pub fn signed_get_request(&self, path: &str, raw_query: &str) -> (request: Result<RequestToSign, ApiError>)
        ensures
            match self.host {
                None => request matches Err(ApiError::InvalidBaseUrl),
                Some(host) => request matches Ok(r) && r.method@ == "GET"@ && r.host@ == host@
                    && r.canonical_path@ == self.canonical_prefix@ + path@ && r.raw_query@ == raw_query@
                    && r.body@.len() == 0,
            },
    {
        match &self.host {
            None => Err(ApiError::InvalidBaseUrl),
            Some(host) => {
                let canonical = self.canonical_path(path);
                Ok(RequestToSign::get(host.as_str(), canonical.as_str(), raw_query))
            },
        }
    }
}

/// The request time in milliseconds for a clock reading: refused when the clock
/// is before the epoch or past what `i64` holds.
pub fn unix_time_millis_from(reading: Option<u128>) -> (ms: Result<i64, ApiError>)
    ensures
        match reading {
            Some(r) => if r <= i64::MAX {
                ms matches Ok(v) && v == r
            } else {
                ms matches Err(ApiError::InvalidClock)
            },
            None => ms matches Err(ApiError::InvalidClock),
        },
{
    match reading {
        Some(r) => if r <= i64::MAX as u128 {
            Ok(r as i64)
        } else {
            Err(ApiError::InvalidClock)
        },
        None => Err(ApiError::InvalidClock),
    }
}

/// The current time in milliseconds since the Unix epoch, for signing; a clock
/// before the epoch or past what `i64` holds is refused as invalid.
pub fn unix_time_millis() -> (ms: Result<i64, ApiError>)
    ensures
        ms matches Ok(v) ==> v >= 0,
        ms is Err ==> ms->Err_0 is InvalidClock,
{
    unix_time_millis_from(read_unix_time_ms())
}

/// What `url::form_urlencoded::Serializer` makes of a query when one more
/// `name=value` pair is appended to it, each part form-encoded.
pub uninterp spec fn form_pair_appended(query: Seq<char>, name: Seq<char>, value: Seq<char>) -> Seq<char>;

/// Appends one encoded pair to a query through `Serializer::new(query)`,
/// `append_pair` and `finish`. The contract names the result: it depends on the
/// three texts alone.
#[verifier::external_body]
fn append_form_pair(query: String, name: &str, value: &str) -> (appended: String)
    ensures
        appended@ == form_pair_appended(query@, name@, value@),
{
    let mut serializer = url::form_urlencoded::Serializer::new(query);
    serializer.append_pair(name, value);
    serializer.finish()
}

/// The query of a song search: the text as `q`, then the limit.
pub open spec fn search_query_view(query: Seq<char>, limit: nat) -> Seq<char> {
    form_pair_appended(form_pair_appended(Seq::empty(), "q"@, query), "limit"@, decimal(limit))
}

/// The query string of a song search.
pub fn search_query(request: &SearchRequest) -> (query: String)
    ensures
        query@ == search_query_view(request.query@, request.limit as nat),
{
    let limit = decimal_string(request.limit as u64);
    let query = append_form_pair(String::new(), "q", request.query.as_str());
    append_form_pair(query, "limit", limit.as_str())
}

/// The query of a stream lookup: the track as `video_id`, and a request for the
/// low-bandwidth format when the quality saves data.
pub open spec fn resolve_query_view(track_id: Seq<char>, quality: AudioQuality) -> Seq<char> {
    let query = form_pair_appended(Seq::empty(), "video_id"@, track_id);
    if quality == AudioQuality::DataSaver {
        form_pair_appended(query, "quality"@, "low"@)
    } else {
        query
    }
}

/// The query string of a stream lookup.
pub fn resolve_query(track_id: &str, quality: AudioQuality) -> (query: String)
    ensures
        query@ == resolve_query_view(track_id@, quality),
{
    let query = append_form_pair(String::new(), "video_id", track_id);
    if quality == AudioQuality::DataSaver {
        append_form_pair(query, "quality", "low")
    } else {
        query
    }
}

/// The stream that a lookup answered with: its audio URL, which must be there
/// and not blank.
pub fn resolved_stream_from(audio_url: Option<String>) -> (stream: Result<ResolvedStream, ApiError>)
    ensures
        match audio_url {
            Some(url) => if is_blank_view(url@) {
                stream matches Err(ApiError::InvalidResponse(detail)) && detail@ == "missing audio URL"@
            } else {
                stream matches Ok(s) && s.url == url && s.headers@.len() == 0 && s.expires_at_epoch_seconds is None
            },
            None => stream matches Err(ApiError::InvalidResponse(detail)) && detail@ == "missing audio URL"@,
        },
{
    match audio_url {
        Some(url) => if is_blank(url.as_str()) {
            Err(ApiError::InvalidResponse("missing audio URL"))
        } else {
            Ok(ResolvedStream::new(url))
        },
        None => Err(ApiError::InvalidResponse("missing audio URL")),
    }
}

/// An artist credited on a search result.
#[derive(Debug)]
pub struct Artist {
    pub name: String,
}

/// One artwork image offered for a search result.
#[derive(Debug)]
pub struct Thumbnail {
    pub url: String,
    pub width: u32,
    pub height: u32,
}

/// A song as the search endpoint describes it.
#[derive(Debug)]
pub struct SearchTrack {
    pub video_id: String,
    pub title: Option<String>,
    pub artists: Vec<Artist>,
    pub duration_seconds: Option<u64>,
    pub thumbnails: Vec<Thumbnail>,
}

/// The texts of `texts` that are not blank, in order.
pub open spec fn non_blank_texts(texts: Seq<Seq<char>>) -> Seq<Seq<char>>
    decreases texts.len(),
{
    if texts.len() == 0 {
        Seq::empty()
    } else {
        let rest = non_blank_texts(texts.drop_last());
        if is_blank_view(texts.last()) {
            rest
        } else {
            rest.push(texts.last())
        }
    }
}

/// The names of the credited artists.
pub open spec fn artist_names(artists: Seq<Artist>) -> Seq<Seq<char>> {
    artists.map_values(|artist: Artist| artist.name@)
}

/// The artist line of a track: the non-blank names joined by `", "`, or
/// `"Unknown artist"` when there is none.
pub open spec fn artist_line(names: Seq<Seq<char>>) -> Seq<char> {
    let line = joined(non_blank_texts(names), ", "@);
    if line.len() == 0 {
        "Unknown artist"@
    } else {
        line
    }
}

/// The title of a track: the given one unless it is missing or blank, then
/// `"Untitled"`.
pub open spec fn title_or_untitled(title: Option<Seq<char>>) -> Seq<char> {
    match title {
        Some(t) => if is_blank_view(t) {
            "Untitled"@
        } else {
            t
        },
        None => "Untitled"@,
    }
}

/// The pixel area of an artwork image.
pub open spec fn thumbnail_area(thumbnail: Thumbnail) -> int {
    thumbnail.width * thumbnail.height
}

/// Whether `index` picks the largest image of `thumbnails`, the last one among
/// several of the same area.
pub open spec fn is_largest_thumbnail(thumbnails: Seq<Thumbnail>, index: int) -> bool {
    &&& 0 <= index < thumbnails.len()
    &&& forall|j: int| 0 <= j < thumbnails.len() ==> thumbnail_area(#[trigger] thumbnails[j]) <= thumbnail_area(thumbnails[index])
    &&& forall|j: int| index < j < thumbnails.len() ==> thumbnail_area(#[trigger] thumbnails[j]) < thumbnail_area(thumbnails[index])
}

/// The non-blank texts among `texts`, copied.
fn keep_non_blank(texts: &Vec<String>) -> (kept: Vec<String>)
    ensures
        kept@.map_values(|t: String| t@) == non_blank_texts(texts@.map_values(|t: String| t@)),
{
    let ghost views = texts@.map_values(|t: String| t@);
    let mut kept: Vec<String> = Vec::new();
    for i in 0..texts.len()
        invariant
            views == texts@.map_values(|t: String| t@),
            kept@.map_values(|t: String| t@) == non_blank_texts(views.subrange(0, i as int)),
    {
        let ghost before = views.subrange(0, i as int);
        let ghost after = views.subrange(0, i + 1);
        assert(after.drop_last() =~= before);
        assert(after.last() == texts@[i as int]@);
        if !is_blank(texts[i].as_str()) {
            kept.push(texts[i].clone());
            assert(kept@.map_values(|t: String| t@) =~= non_blank_texts(before).push(after.last()));
        }
    }
    assert(views.subrange(0, texts@.len() as int) =~= views);
    kept
}

/// An image's area fits in 64 bits.
proof fn lemma_area_fits(width: u32, height: u32)
    ensures
        width * height <= u64::MAX,
{
    assert(width * height <= 0xffff_ffffint * 0xffff_ffffint) by (nonlinear_arith)
        requires
            0 <= width <= 0xffff_ffffint,
            0 <= height <= 0xffff_ffffint,
    ;
}

/// The index of the largest image, the last among equals.
fn largest_thumbnail(thumbnails: &Vec<Thumbnail>) -> (index: usize)
    requires
        thumbnails@.len() > 0,
    ensures
        is_largest_thumbnail(thumbnails@, index as int),
{
    let mut best: usize = 0;
    proof {
        lemma_area_fits(thumbnails@[0].width, thumbnails@[0].height);
    }
    let mut best_area: u64 = thumbnails[0].width as u64 * thumbnails[0].height as u64;
    for i in 1..thumbnails.len()
        invariant
            thumbnails@.len() > 0,
            best < i <= thumbnails@.len(),
            best_area == thumbnail_area(thumbnails@[best as int]),
            forall|j: int| 0 <= j < i ==> thumbnail_area(#[trigger] thumbnails@[j]) <= best_area,
            forall|j: int| best < j < i ==> thumbnail_area(#[trigger] thumbnails@[j]) < best_area,
    {
        proof {
            lemma_area_fits(thumbnails@[i as int].width, thumbnails@[i as int].height);
        }
        let area = thumbnails[i].width as u64 * thumbnails[i].height as u64;
        if area >= best_area {
            best = i;
            best_area = area;
        }
    }
    best
}

/// The duration in milliseconds of a length given in seconds: saturating, and
/// zero when the length is missing.
pub open spec fn duration_ms_from_seconds(seconds: Option<u64>) -> int {
    let seconds: int = match seconds {
        Some(s) => s as int,
        None => 0,
    };
    if seconds * 1000 > u64::MAX {
        u64::MAX as int
    } else {
        seconds * 1000
    }
}

/// Whether `result` is the track that the search result `item` describes.
pub open spec fn describes_search_result(result: Track, item: SearchTrack) -> bool {
    &&& result.id@ == item.video_id@
    &&& result.title@ == title_or_untitled(opt_view(item.title))
    &&& result.artist@ == artist_line(artist_names(item.artists@))
    &&& result.duration_ms == duration_ms_from_seconds(item.duration_seconds)
    &&& item.thumbnails@.len() == 0 ==> result.thumbnail_url is None
    &&& item.thumbnails@.len() > 0 ==> exists|i: int| is_largest_thumbnail(item.thumbnails@, i)
        && result.thumbnail_url == Some(item.thumbnails@[i].url)
}

/// The track a search result describes: a blank or missing title reads
/// `"Untitled"`, the non-blank artist names are joined by `", "` (or read
/// `"Unknown artist"`), the duration turns from seconds to milliseconds
/// (saturating, zero when missing), and the largest image, the last among
/// equals, becomes the artwork.
pub fn track_from_api(track: SearchTrack) -> (result: Track)
    ensures
        describes_search_result(result, track),
{
    let title = match &track.title {
        Some(t) => if is_blank(t.as_str()) {
            "Untitled".to_owned()
        } else {
            t.clone()
        },
        None => "Untitled".to_owned(),
    };
    let mut names: Vec<String> = Vec::new();
    for i in 0..track.artists.len()
        invariant
            names@.len() == i,
            forall|k: int| 0 <= k < i ==> (#[trigger] names@[k])@ == track.artists@[k].name@,
    {
        names.push(track.artists[i].name.clone());
    }
    assert(names@.map_values(|t: String| t@) =~= artist_names(track.artists@));
    let kept = keep_non_blank(&names);
    let line = join_with(&kept, ", ");
    let artist = if line.as_str().unicode_len() == 0 {
        "Unknown artist".to_owned()
    } else {
        line
    };
    let seconds: u64 = match track.duration_seconds {
        Some(s) => s,
        None => 0,
    };
    let duration_ms: u64 = if seconds > u64::MAX / 1000 { u64::MAX } else { seconds * 1000 };
    let result = Track::new(track.video_id.as_str(), title.as_str(), artist.as_str(), duration_ms);
    if track.thumbnails.len() == 0 {
        result
    } else {
        let best = largest_thumbnail(&track.thumbnails);
        let url = track.thumbnails[best].url.clone();
        result.with_thumbnail(url)
    }
}

/// The tracks of a search answer, in order.
pub fn tracks_from_api(items: Vec<SearchTrack>) -> (tracks: Vec<Track>)
    ensures
        tracks@.len() == items@.len(),
        forall|i: int| 0 <= i < items@.len() ==> describes_search_result(#[trigger] tracks@[i], items@[i]),
{
    let mut items = items;
    let ghost initial = items@;
    let mut reversed: Vec<Track> = Vec::new();
    let mut remaining = items.len();
    while remaining > 0
        invariant
            remaining == items@.len(),
            items@ == initial.subrange(0, remaining as int),
            reversed@.len() == initial.len() - remaining,
            forall|k: int| 0 <= k < reversed@.len() ==> describes_search_result(#[trigger] reversed@[k], initial[initial.len() - 1 - k]),
        decreases remaining,
    {
        let item = items.pop().unwrap();
        remaining = remaining - 1;
        reversed.push(track_from_api(item));
    }
    let mut tracks: Vec<Track> = Vec::new();
    let n = reversed.len();
    while reversed.len() > 0
        invariant
            n == initial.len(),
            tracks@.len() + reversed@.len() == n,
            forall|k: int| 0 <= k < reversed@.len() ==> describes_search_result(#[trigger] reversed@[k], initial[initial.len() - 1 - k]),
            forall|i: int| 0 <= i < tracks@.len() ==> describes_search_result(#[trigger] tracks@[i], initial[i]),
        decreases reversed@.len(),
    {
        let track = reversed.pop().unwrap();
        tracks.push(track);
    }
    tracks
}

/// What `serde_json` finds under `key` when `body` is read as a JSON value:
/// nothing when the body is not JSON or has no such member (`Value::get`), and
/// otherwise the member's text when it is a JSON string.
pub uninterp spec fn json_member_text(body: Seq<u8>, key: Seq<char>) -> Option<Option<Seq<char>>>;

/// The text a body holds when it is valid UTF-8 (`String::from_utf8`).
pub uninterp spec fn utf8_text(bytes: Seq<u8>) -> Option<Seq<char>>;

/// The canonical reason phrase of an HTTP status (`http::StatusCode::from_u16`,
/// then `canonical_reason`).
pub uninterp spec fn status_reason_phrase(status: u16) -> Option<Seq<char>>;

/// The view of a member lookup's result.
pub open spec fn member_view(member: Option<Option<String>>) -> Option<Option<Seq<char>>> {
    match member {
        Some(text) => Some(opt_view(text)),
        None => None,
    }
}

/// Reads `body` with `serde_json::from_slice` as a `serde_json::Value` and looks
/// up `key` with `Value::get`, keeping the member's text when it is a JSON string.
/// The contract names the result; it depends on the body and key alone.
#[verifier::external_body]
fn json_member(body: &[u8], key: &str) -> (member: Option<Option<String>>)
    ensures
        member_view(member) == json_member_text(body@, key@),
{
    let value: serde_json::Value = serde_json::from_slice(body).ok()?;
    match value.get(key) {
        None => None,
        Some(serde_json::Value::String(text)) => Some(Some(text.clone())),
        Some(_) => Some(None),
    }
}

/// Decodes `bytes` with `String::from_utf8`; the result is named, not described.
#[verifier::external_body]
fn decode_utf8(bytes: &[u8]) -> (text: Option<String>)
    ensures
        opt_view(text) == utf8_text(bytes@),
{
    String::from_utf8(bytes.to_vec()).ok()
}

/// The reason phrase that `http::StatusCode` gives a status code. `from_u16`
/// refuses codes outside 100 to 999, which then have no phrase.
#[verifier::external_body]
pub(crate) fn status_reason(status: u16) -> (reason: Option<String>)
    ensures
        opt_view(reason) == status_reason_phrase(status),
        status < 100 || status > 999 ==> reason is None,
{
    match reqwest::StatusCode::from_u16(status) {
        Ok(code) => code.canonical_reason().map(str::to_owned),
        Err(_) => None,
    }
}

/// The message of a refused request. A JSON body's `error` member is used when
/// it is there, else its `message` member; a member that is not a string gives
/// nothing. Without either, the whole body counts when it is UTF-8. A blank or
/// missing message falls back to the status's reason phrase, and then to
/// `"request rejected"`.
pub open spec fn rejection_text(
    error_member: Option<Option<Seq<char>>>,
    message_member: Option<Option<Seq<char>>>,
    body_text: Option<Seq<char>>,
    reason: Option<Seq<char>>,
) -> Seq<char> {
    let from_json = match error_member {
        Some(found) => found,
        None => match message_member {
            Some(found) => found,
            None => None,
        },
    };
    let candidate = match from_json {
        Some(text) => Some(text),
        None => body_text,
    };
    match candidate {
        Some(text) => if is_blank_view(text) {
            match reason {
                Some(phrase) => phrase,
                None => "request rejected"@,
            }
        } else {
            text
        },
        None => match reason {
            Some(phrase) => phrase,
            None => "request rejected"@,
        },
    }
}

/// The message of a refused request from what the body and status gave.
pub fn rejection_message_from(
    error_member: Option<Option<String>>,
    message_member: Option<Option<String>>,
    body_text: Option<String>,
    reason: Option<String>,
) -> (message: String)
    ensures
        message@ == rejection_text(member_view(error_member), member_view(message_member), opt_view(body_text), opt_view(reason)),
{
    let from_json = match error_member {
        Some(found) => found,
        None => match message_member {
            Some(found) => found,
            None => None,
        },
    };
    let candidate = match from_json {
        Some(text) => Some(text),
        None => body_text,
    };
    let fallback = match reason {
        Some(phrase) => phrase,
        None => "request rejected".to_owned(),
    };
    match candidate {
        Some(text) => if is_blank(text.as_str()) {
            fallback
        } else {
            text
        },
        None => fallback,
    }
}

/// The message of a refused request with status `status` and body `body`.
pub fn rejection_message(body: &[u8], status: u16) -> (message: String)
    ensures
        message@ == rejection_text(
            json_member_text(body@, "error"@),
            json_member_text(body@, "message"@),
            utf8_text(body@),
            status_reason_phrase(status),
        ),
{
    let error_member = json_member(body, "error");
    let message_member = json_member(body, "message");
    let body_text = decode_utf8(body);
    let reason = status_reason(status);
    rejection_message_from(error_member, message_member, body_text, reason)
}

/// Whether an HTTP status reports success: 200 to 299.
pub open spec fn is_success_status(status: u16) -> bool {
    200 <= status < 300
}

/// What a request came to: its body when the status reports success, and
/// otherwise a refusal that carries the status and the body's message.
pub fn response_outcome(status: u16, body: Vec<u8>) -> (outcome: Result<Vec<u8>, ApiError>)
    ensures
        is_success_status(status) ==> outcome == Ok::<Vec<u8>, ApiError>(body),
        !is_success_status(status) ==> (outcome matches Err(ApiError::Rejected { status: s, message })
            && s == status && message@ == rejection_text(
                json_member_text(body@, "error"@),
                json_member_text(body@, "message"@),
                utf8_text(body@),
                status_reason_phrase(status),
            )),
{
    if 200 <= status && status < 300 {
        Ok(body)
    } else {
        let message = rejection_message(body.as_slice(), status);
        Err(ApiError::Rejected { status, message })
    }
}

} // verus!
