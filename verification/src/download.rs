use vstd::prelude::*;

use crate::api::{status_reason, status_reason_phrase};
use crate::text::{ascii_lowercase_view, concat, decimal, decimal_string, to_ascii_lowercase};

verus! {

/// The index of the first `c` in `s` between `from` (included) and `to`
/// (excluded), or `to` when there is none.
pub open spec fn first_index_of(s: Seq<char>, c: char, from: int, to: int) -> int
    decreases to - from,
{
    if from >= to {
        to
    } else if s[from] == c {
        from
    } else {
        first_index_of(s, c, from + 1, to)
    }
}

/// A search never lands before where it started, nor past where it stops.
pub proof fn lemma_first_index_bounds(s: Seq<char>, c: char, from: int, to: int)
    requires
        from <= to,
    ensures
        from <= first_index_of(s, c, from, to) <= to,
    decreases to - from,
{
    if from < to && s[from] != c {
        lemma_first_index_bounds(s, c, from + 1, to);
    }
}

/// The index of the first `c` in `s` between `from` and `to`, or `to`.
pub fn find_char(s: &str, c: char, from: usize, to: usize) -> (index: usize)
    requires
        from <= to <= s@.len(),
    ensures
        index == first_index_of(s@, c, from as int, to as int),
        from <= index <= to,
{
    let mut i = from;
    while i < to && s.get_char(i) != c
        invariant
            from <= i <= to <= s@.len(),
            first_index_of(s@, c, from as int, to as int) == first_index_of(s@, c, i as int, to as int),
        decreases to - i,
    {
        i = i + 1;
    }
    i
}

/// The byte range `start-end` as a query or header value writes it.
pub open spec fn range_text(start: u64, end: u64) -> Seq<char> {
    decimal(start as nat) + "-"@ + decimal(end as nat)
}

/// The rest of the query walk: from the pair that starts at `offset`, the first
/// pair named `range` gets its value replaced, and when none is left a `range`
/// pair is appended before the fragment.
pub open spec fn replace_range_from(v: Seq<char>, fragment: int, offset: int, range: Seq<char>) -> Seq<char>
    recommends
        0 <= offset,
        fragment <= v.len(),
    decreases fragment - offset,
{
    if offset >= fragment || offset < 0 {
        v.subrange(0, fragment) + "&range="@ + range + v.subrange(fragment, v.len() as int)
    } else {
        // The pair runs from `offset` to the next `&`, its name up to the first `=`.
        let next = first_index_of(v, '&', offset, fragment);
        let name_end = first_index_of(v, '=', offset, next);
        if v.subrange(offset, name_end) == "range"@ {
            v.subrange(0, offset) + "range="@ + range + v.subrange(next, v.len() as int)
        } else if offset <= next < fragment {
            replace_range_from(v, fragment, next + 1, range)
        } else {
            v.subrange(0, fragment) + "&range="@ + range + v.subrange(fragment, v.len() as int)
        }
    }
}

/// A stream URL asking for the bytes `start` to `end` in its query: unchanged
/// unless the query carries the range; then the first `range` pair gets the new
/// value, or a `range` pair is added (starting the query if there is none), always
/// before any `#` fragment.
pub open spec fn url_with_range_view(v: Seq<char>, start: u64, end: u64, use_query_range: bool) -> Seq<char> {
    if !use_query_range {
        v
    } else {
        let range = range_text(start, end);
        let fragment = first_index_of(v, '#', 0, v.len() as int);
        let query = first_index_of(v, '?', 0, fragment);
        if query == fragment {
            v.subrange(0, fragment) + "?range="@ + range + v.subrange(fragment, v.len() as int)
        } else {
            replace_range_from(v, fragment, query + 1, range)
        }
    }
}

/// Nothing before the index `first_index_of` finds is `c`, and what it finds
/// before `to` is `c`.
pub proof fn lemma_first_index_scan(s: Seq<char>, c: char, from: int, to: int)
    requires
        0 <= from <= to <= s.len(),
    ensures
        forall|j: int| from <= j < first_index_of(s, c, from, to) ==> s[j] != c,
        first_index_of(s, c, from, to) < to ==> s[first_index_of(s, c, from, to)] == c,
        from <= first_index_of(s, c, from, to) <= to,
    decreases to - from,
{
    if from < to && s[from] != c {
        lemma_first_index_scan(s, c, from + 1, to);
    }
}

/// Whether a query pair starts at `k`: just after the `?` at `query`, or just
/// after an `&`, before the fragment at `fragment`.
pub open spec fn is_pair_start(v: Seq<char>, query: int, fragment: int, k: int) -> bool {
    query < k < fragment && (k == query + 1 || v[k - 1] == '&')
}

/// Where the query pair starting at `k` ends: at the next `&`, or the fragment.
pub open spec fn pair_end(v: Seq<char>, fragment: int, k: int) -> int {
    first_index_of(v, '&', k, fragment)
}

/// The name of the query pair starting at `k`: up to its first `=`.
pub open spec fn pair_name(v: Seq<char>, fragment: int, k: int) -> Seq<char> {
    v.subrange(k, first_index_of(v, '=', k, pair_end(v, fragment, k)))
}

/// Whether `result` is `v` with the first pair named `range` from `offset` on
/// given the value `range`, or, with no such pair, with a `range` pair appended
/// before the fragment.
pub open spec fn range_walk_result(v: Seq<char>, query: int, fragment: int, offset: int, range: Seq<char>, result: Seq<char>) -> bool {
    ||| exists|k: int| #[trigger] is_pair_start(v, query, fragment, k) && offset <= k && pair_name(v, fragment, k) == "range"@
        && (forall|j: int| #[trigger] is_pair_start(v, query, fragment, j) && offset <= j < k ==> pair_name(v, fragment, j) != "range"@)
        && result == v.subrange(0, k) + "range="@ + range + v.subrange(pair_end(v, fragment, k), v.len() as int)
    ||| (forall|j: int| #[trigger] is_pair_start(v, query, fragment, j) && offset <= j ==> pair_name(v, fragment, j) != "range"@)
        && result == v.subrange(0, fragment) + "&range="@ + range + v.subrange(fragment, v.len() as int)
}

proof fn lemma_range_walk(v: Seq<char>, query: int, fragment: int, offset: int, range: Seq<char>)
    requires
        0 <= query < fragment <= v.len(),
        query + 1 <= offset <= fragment,
        offset == query + 1 || offset == fragment || v[offset - 1] == '&',
    ensures
        range_walk_result(v, query, fragment, offset, range, replace_range_from(v, fragment, offset, range)),
    decreases fragment - offset,
{
    let result = replace_range_from(v, fragment, offset, range);
    if offset >= fragment {
        assert forall|j: int| #[trigger] is_pair_start(v, query, fragment, j) && offset <= j implies pair_name(v, fragment, j)
            != "range"@ by {}
    } else {
        let next = first_index_of(v, '&', offset, fragment);
        lemma_first_index_scan(v, '&', offset, fragment);
        let name_end = first_index_of(v, '=', offset, next);
        lemma_first_index_bounds(v, '=', offset, next);
        assert(is_pair_start(v, query, fragment, offset));
        assert(pair_end(v, fragment, offset) == next);
        assert(pair_name(v, fragment, offset) == v.subrange(offset, name_end));
        // No pair starts strictly between `offset` and the `&` that ends its pair.
        assert forall|j: int| is_pair_start(v, query, fragment, j) && offset < j implies next < j by {
            if j <= next {
                assert(v[j - 1] != '&');
            }
        }
        if v.subrange(offset, name_end) == "range"@ {
            assert(range_walk_result(v, query, fragment, offset, range, result)) by {
                assert forall|j: int| #[trigger] is_pair_start(v, query, fragment, j) && offset <= j < offset implies pair_name(
                    v,
                    fragment,
                    j,
                ) != "range"@ by {}
            }
        } else if next < fragment {
            lemma_range_walk(v, query, fragment, next + 1, range);
            let rest = replace_range_from(v, fragment, next + 1, range);
            assert(result == rest);
            if exists|k: int| #[trigger] is_pair_start(v, query, fragment, k) && next + 1 <= k && pair_name(v, fragment, k) == "range"@
                && (forall|j: int| #[trigger] is_pair_start(v, query, fragment, j) && next + 1 <= j < k ==> pair_name(v, fragment, j)
                != "range"@) && rest == v.subrange(0, k) + "range="@ + range + v.subrange(pair_end(v, fragment, k), v.len() as int) {
                let k = choose|k: int| #[trigger] is_pair_start(v, query, fragment, k) && next + 1 <= k && pair_name(v, fragment, k)
                    == "range"@ && (forall|j: int| #[trigger] is_pair_start(v, query, fragment, j) && next + 1 <= j < k ==> pair_name(
                    v,
                    fragment,
                    j,
                ) != "range"@) && rest == v.subrange(0, k) + "range="@ + range + v.subrange(pair_end(v, fragment, k), v.len() as int);
                assert forall|j: int| #[trigger] is_pair_start(v, query, fragment, j) && offset <= j < k implies pair_name(v, fragment, j)
                    != "range"@ by {
                    if j != offset {
                        assert(next < j);
                    }
                }
                assert(is_pair_start(v, query, fragment, k) && offset <= k);
            } else {
                assert forall|j: int| #[trigger] is_pair_start(v, query, fragment, j) && offset <= j implies pair_name(v, fragment, j)
                    != "range"@ by {
                    if j != offset {
                        assert(next < j);
                    }
                }
            }
        } else {
            assert forall|j: int| #[trigger] is_pair_start(v, query, fragment, j) && offset <= j implies pair_name(v, fragment, j)
                != "range"@ by {
                if j != offset {
                    assert(next < j);
                }
            }
        }
    }
}

/// With the range in the query, a stream URL gets it in one of three ways: with
/// no `?` before the fragment, a query `?range=start-end` is started; otherwise
/// the first query pair named exactly `range` gets the new value and every other
/// character is kept; with no such pair, `&range=start-end` is added. Always
/// before the fragment.
pub proof fn lemma_url_with_range_cases(v: Seq<char>, start: u64, end: u64)
    ensures
        ({
            let range = range_text(start, end);
            let fragment = first_index_of(v, '#', 0, v.len() as int);
            let query = first_index_of(v, '?', 0, fragment);
            let result = url_with_range_view(v, start, end, true);
            &&& (forall|i: int| 0 <= i < fragment ==> v[i] != '?') <==> query == fragment
            &&& query == fragment ==> result == v.subrange(0, fragment) + "?range="@ + range + v.subrange(fragment, v.len() as int)
            &&& query < fragment ==> v[query] == '?' && range_walk_result(v, query, fragment, query + 1, range, result)
        }),
{
    let fragment = first_index_of(v, '#', 0, v.len() as int);
    lemma_first_index_scan(v, '#', 0, v.len() as int);
    lemma_first_index_scan(v, '?', 0, fragment);
    let query = first_index_of(v, '?', 0, fragment);
    if query < fragment {
        lemma_range_walk(v, query, fragment, query + 1, range_text(start, end));
    }
}

/// The text `value`, then `range`, then `rest`.
fn splice(head: &str, marker: &str, range: &str, rest: &str) -> (joined: String)
    ensures
        joined@ == head@ + marker@ + range@ + rest@,
{
    let joined = concat(head, marker);
    let joined = concat(joined.as_str(), range);
    concat(joined.as_str(), rest)
}

/// The stream URL to fetch for the bytes `start` to `end`.
pub fn url_with_range(value: &str, start: u64, end: u64, use_query_range: bool) -> (url: String)
    ensures
        url@ == url_with_range_view(value@, start, end, use_query_range),
{
    if !use_query_range {
        return value.to_owned();
    }
    let start_text = decimal_string(start);
    let range = concat(start_text.as_str(), "-");
    let end_text = decimal_string(end);
    let range = concat(range.as_str(), end_text.as_str());
    let n = value.unicode_len();
    let fragment = find_char(value, '#', 0, n);
    let query = find_char(value, '?', 0, fragment);
    if query == fragment {
        return splice(value.substring_char(0, fragment), "?range=", range.as_str(), value.substring_char(fragment, n));
    }
    let mut offset = query + 1;
    while offset < fragment
        invariant
            use_query_range,
            n == value@.len(),
            query < fragment <= n,
            query + 1 <= offset <= fragment,
            range@ == range_text(start, end),
            url_with_range_view(value@, start, end, true) == replace_range_from(value@, fragment as int, offset as int, range@),
        decreases fragment - offset,
    {
        let next = find_char(value, '&', offset, fragment);
        let name_end = find_char(value, '=', offset, next);
        let name = value.substring_char(offset, name_end).to_owned();
        let wanted = "range".to_owned();
        if name.eq(&wanted) {
            return splice(value.substring_char(0, offset), "range=", range.as_str(), value.substring_char(next, n));
        }
        offset = if next < fragment { next + 1 } else { fragment };
    }
    splice(value.substring_char(0, fragment), "&range=", range.as_str(), value.substring_char(fragment, n))
}

/// Whether `c` is a decimal digit.
pub open spec fn is_digit(c: char) -> bool {
    '0' <= c <= '9'
}

/// The number that a run of decimal digits writes.
pub open spec fn digits_value(s: Seq<char>) -> nat
    decreases s.len(),
{
    if s.len() == 0 {
        0
    } else {
        digits_value(s.drop_last()) * 10 + (s.last() as nat - '0' as nat) as nat
    }
}

/// Whether every character of `s` is a decimal digit.
pub open spec fn all_digits(s: Seq<char>) -> bool {
    forall|i: int| 0 <= i < s.len() ==> is_digit(#[trigger] s[i])
}

/// `s` without a leading `+`.
pub open spec fn unsigned_digits(s: Seq<char>) -> Seq<char> {
    if s.len() > 0 && s[0] == '+' {
        s.drop_first()
    } else {
        s
    }
}

/// What `str::parse::<u64>` gives: an optional `+`, then at least one digit and
/// nothing else, with a value that fits in 64 bits.
pub open spec fn parsed_u64(s: Seq<char>) -> Option<u64> {
    let digits = unsigned_digits(s);
    if digits.len() > 0 && all_digits(digits) && digits_value(digits) <= u64::MAX {
        Some(digits_value(digits) as u64)
    } else {
        None
    }
}

/// A longer run of digits is worth at least as much as its start.
pub proof fn lemma_digits_value_grows(s: Seq<char>, i: int)
    requires
        0 <= i <= s.len(),
        forall|k: int| 0 <= k < s.len() ==> is_digit(#[trigger] s[k]),
    ensures
        digits_value(s.subrange(0, i)) <= digits_value(s),
    decreases s.len() - i,
{
    if i < s.len() {
        lemma_digits_value_grows(s, i + 1);
        let longer = s.subrange(0, i + 1);
        assert(longer.drop_last() =~= s.subrange(0, i));
    } else {
        assert(s.subrange(0, i) =~= s);
    }
}

/// Parses a decimal `u64` as `str::parse` does.
pub fn parse_u64(s: &str) -> (value: Option<u64>)
    ensures
        value == parsed_u64(s@),
{
    let n = s.unicode_len();
    let start: usize = if n > 0 && s.get_char(0) == '+' { 1 } else { 0 };
    let ghost digits = unsigned_digits(s@);
    assert(digits =~= s@.subrange(start as int, n as int));
    if start == n {
        return None;
    }
    let mut value: u64 = 0;
    let mut i = start;
    while i < n
        invariant
            start <= i <= n == s@.len(),
            start < n,
            digits == s@.subrange(start as int, n as int),
            digits == unsigned_digits(s@),
            forall|k: int| start <= k < i ==> is_digit(#[trigger] s@[k]),
            value == digits_value(s@.subrange(start as int, i as int)),
        decreases n - i,
    {
        let c = s.get_char(i);
        let ghost before = s@.subrange(start as int, i as int);
        let ghost after = s@.subrange(start as int, i + 1);
        assert(after.drop_last() =~= before);
        if !('0' <= c && c <= '9') {
            assert(!is_digit(digits[i - start]));
            return None;
        }
        let digit = (c as u32 - '0' as u32) as u64;
        if value > (u64::MAX - digit) / 10 {
            proof {
                assert forall|k: int| 0 <= k < after.len() implies is_digit(#[trigger] after[k]) by {
                    assert(after[k] == s@[start + k]);
                }
                if all_digits(digits) {
                    lemma_digits_value_grows(digits, i + 1 - start);
                    assert(digits.subrange(0, i + 1 - start) =~= after);
                }
            }
            return None;
        }
        value = value * 10 + digit;
        i = i + 1;
    }
    assert(s@.subrange(start as int, i as int) =~= digits);
    Some(value)
}

/// The part of `s` after its last `c`, or nothing when `s` holds no `c`.
pub open spec fn after_last(s: Seq<char>, c: char) -> Option<Seq<char>>
    decreases s.len(),
{
    if s.len() == 0 {
        None
    } else if s.last() == c {
        Some(Seq::empty())
    } else {
        match after_last(s.drop_last(), c) {
            Some(tail) => Some(tail.push(s.last())),
            None => None,
        }
    }
}

/// The total length a `Content-Range` value announces: the number after its
/// last `/`.
pub open spec fn content_range_total_view(value: Seq<char>) -> Option<u64> {
    match after_last(value, '/') {
        Some(total) => parsed_u64(total),
        None => None,
    }
}

/// The total length a `Content-Range` header announces, when it gives one.
pub fn content_range_total(value: &str) -> (total: Option<u64>)
    ensures
        total == content_range_total_view(value@),
{
    let n = value.unicode_len();
    let mut i = n;
    assert(value@.subrange(0, n as int) =~= value@);
    while i > 0 && value.get_char(i - 1) != '/'
        invariant
            i <= n == value@.len(),
            match after_last(value@, '/') {
                Some(tail) => after_last(value@.subrange(0, i as int), '/') matches Some(t) && tail == t + value@.subrange(i as int, n as int),
                None => after_last(value@.subrange(0, i as int), '/') is None,
            },
        decreases i,
    {
        let ghost prefix = value@.subrange(0, i as int);
        assert(prefix.drop_last() =~= value@.subrange(0, i - 1));
        assert(prefix.last() == value@[i - 1]);
        proof {
            if let Some(t) = after_last(value@.subrange(0, i - 1), '/') {
                assert(t.push(value@[i - 1]) + value@.subrange(i as int, n as int) =~= t + value@.subrange(i - 1, n as int));
            }
        }
        i = i - 1;
    }
    if i == 0 {
        return None;
    }
    proof {
        let prefix = value@.subrange(0, i as int);
        assert(prefix.last() == value@[i - 1]);
        assert(Seq::<char>::empty() + value@.subrange(i as int, n as int) =~= value@.subrange(i as int, n as int));
    }
    parse_u64(value.substring_char(i, n))
}

/// What `url::Url::parse` and `Url::query_pairs` give for a URL: its decoded
/// query pairs in order, or nothing when the URL does not parse.
pub uninterp spec fn url_query_pairs(url: Seq<char>) -> Option<Seq<(Seq<char>, Seq<char>)>>;

/// The view of decoded query pairs.
pub open spec fn pairs_view(pairs: Seq<(String, String)>) -> Seq<(Seq<char>, Seq<char>)> {
    pairs.map_values(|pair: (String, String)| (pair.0@, pair.1@))
}

/// Parses `url` with `url::Url::parse` and hands back its query pairs as
/// `Url::query_pairs` decodes them. The contract names the result.
#[verifier::external_body]
fn query_pairs(url: &str) -> (pairs: Option<Vec<(String, String)>>)
    ensures
        match pairs {
            Some(p) => url_query_pairs(url@) == Some(pairs_view(p@)),
            None => url_query_pairs(url@) is None,
        },
{
    let parsed = url::Url::parse(url).ok()?;
    Some(parsed.query_pairs().map(|(name, value)| (name.into_owned(), value.into_owned())).collect())
}

/// The first `clen` pair whose value parses as a length.
pub open spec fn first_clen(pairs: Seq<(Seq<char>, Seq<char>)>) -> Option<u64>
    decreases pairs.len(),
{
    if pairs.len() == 0 {
        None
    } else if pairs[0].0 == "clen"@ && parsed_u64(pairs[0].1) is Some {
        parsed_u64(pairs[0].1)
    } else {
        first_clen(pairs.drop_first())
    }
}

/// The stream length a URL declares in its `clen` query pair, when it is there
/// and positive.
pub open spec fn declared_stream_length_view(url: Seq<char>) -> Option<u64> {
    match url_query_pairs(url) {
        Some(pairs) => match first_clen(pairs) {
            Some(length) => if length > 0 { Some(length) } else { None },
            None => None,
        },
        None => None,
    }
}

/// The stream length that `url` declares, when it declares a positive one.
pub fn declared_stream_length(url: &str) -> (length: Option<u64>)
    ensures
        length == declared_stream_length_view(url@),
{
    let pairs = match query_pairs(url) {
        Some(pairs) => pairs,
        None => return None,
    };
    let ghost all = pairs_view(pairs@);
    let clen = "clen".to_owned();
    assert(all.subrange(0, all.len() as int) =~= all);
    for i in 0..pairs.len()
        invariant
            all == pairs_view(pairs@),
            url_query_pairs(url@) == Some(all),
            clen@ == "clen"@,
            first_clen(all) == first_clen(all.subrange(i as int, all.len() as int)),
    {
        let ghost rest = all.subrange(i as int, all.len() as int);
        assert(rest.drop_first() =~= all.subrange(i + 1, all.len() as int));
        assert(rest[0] == (pairs@[i as int].0@, pairs@[i as int].1@));
        if pairs[i].0.eq(&clen) {
            if let Some(length) = parse_u64(pairs[i].1.as_str()) {
                return if length > 0 { Some(length) } else { None };
            }
        }
    }
    None
}

/// Whether `c` may stay in a file name made from a track id.
pub open spec fn is_safe_id_char(c: char) -> bool {
    ('a' <= c <= 'z') || ('A' <= c <= 'Z') || ('0' <= c <= '9') || c == '-' || c == '_'
}

/// The file-name form of a track id: its first 96 characters with every unsafe
/// one made `_`, or `"track"` when that leaves nothing.
pub open spec fn safe_track_id_view(id: Seq<char>) -> Seq<char> {
    let kept = if id.len() > 96 { id.take(96) } else { id };
    let safe = kept.map_values(|c: char| if is_safe_id_char(c) { c } else { '_' });
    if safe.len() == 0 {
        "track"@
    } else {
        safe
    }
}

/// The file-name form of a track id.
pub fn safe_track_id(track_id: &str) -> (safe: String)
    ensures
        safe@ == safe_track_id_view(track_id@),
{
    let n = track_id.unicode_len();
    let limit: usize = if n > 96 { 96 } else { n };
    let ghost kept = if track_id@.len() > 96 { track_id@.take(96) } else { track_id@ };
    let mut safe = String::new();
    for i in 0..limit
        invariant
            limit == kept.len(),
            n == track_id@.len(),
            kept == if track_id@.len() > 96 { track_id@.take(96) } else { track_id@ },
            safe@ == kept.subrange(0, i as int).map_values(|c: char| if is_safe_id_char(c) { c } else { '_' }),
    {
        let c = track_id.get_char(i);
        assert(kept[i as int] == c);
        let ok = ('a' <= c && c <= 'z') || ('A' <= c && c <= 'Z') || ('0' <= c && c <= '9') || c == '-' || c == '_';
        crate::text::push_char(&mut safe, if ok { c } else { '_' });
        assert(safe@ =~= kept.subrange(0, i + 1).map_values(|c: char| if is_safe_id_char(c) { c } else { '_' }));
    }
    assert(kept.subrange(0, limit as int) =~= kept);
    if limit == 0 {
        "track".to_owned()
    } else {
        safe
    }
}

/// How many bytes one ranged request asks for when the stream's length is not
/// known in advance.
pub const CHUNK_SIZE: u64 = 61440;

/// The status of a partial answer to a ranged request.
pub const PARTIAL_CONTENT: u16 = 206;

/// How far a download has come: the next byte to fetch, the length the URL
/// declared, and the length now expected.
#[derive(Debug, Clone, Copy, PartialEq, Eq, Structural)]
pub struct DownloadProgress {
    pub offset: u64,
    pub declared_total: Option<u64>,
    pub expected_total: Option<u64>,
}

/// The text of an HTTP status as `http::StatusCode` displays it: the code, then
/// its reason phrase or `<unknown status code>`.
pub open spec fn status_display(status: u16) -> Seq<char> {
    decimal(status as nat) + " "@ + match status_reason_phrase(status) {
        Some(phrase) => phrase,
        None => "<unknown status code>"@,
    }
}

/// The display text of an HTTP status.
fn status_text(status: u16) -> (text: String)
    ensures
        text@ == status_display(status),
{
    let code = decimal_string(status as u64);
    let head = concat(code.as_str(), " ");
    match status_reason(status) {
        Some(phrase) => concat(head.as_str(), phrase.as_str()),
        None => concat(head.as_str(), "<unknown status code>"),
    }
}

impl DownloadProgress {
    /// Whether another chunk may be asked for: a known length still lies ahead.
    pub open spec fn well_formed(self) -> bool {
        &&& self.declared_total matches Some(d) ==> d > 0
        &&& self.expected_total matches Some(total) ==> self.offset < total
    }

    /// The last byte the next request asks for: the end of the stream when the
    /// URL declared its length, else one chunk on, but never past a known end.
    pub open spec fn chunk_end_view(self) -> int {
        let chunk = if self.offset + (CHUNK_SIZE - 1) > u64::MAX {
            u64::MAX as int
        } else {
            self.offset + (CHUNK_SIZE - 1)
        };
        match self.expected_total {
            Some(total) => if self.declared_total is Some {
                total - 1
            } else if chunk < total - 1 {
                chunk
            } else {
                total - 1
            },
            None => chunk,
        }
    }

    /// The progress once an answer with `status` and a `Content-Range` total
    /// `reported` came in: a partial answer gives the length when the URL did not
    /// declare one; a full answer at the start gives it when none is known.
    pub open spec fn with_status(self, status: u16, reported: Option<u64>) -> DownloadProgress {
        DownloadProgress {
            expected_total: if status == PARTIAL_CONTENT {
                if self.declared_total is None {
                    if reported is Some { reported } else { self.expected_total }
                } else {
                    self.expected_total
                }
            } else if self.expected_total is None && self.offset == 0 {
                reported
            } else {
                self.expected_total
            },
            ..self
        }
    }

    /// Whether an answer with `status` can continue the download: partial, or a
    /// success at the start or with a known length.
    pub open spec fn status_accepted(self, status: u16) -> bool {
        status == PARTIAL_CONTENT || (200 <= status < 300 && (self.offset == 0 || self.expected_total is Some))
    }

    /// The progress once `received` more bytes came in.
    pub open spec fn with_chunk(self, received: u64) -> DownloadProgress {
        DownloadProgress {
            offset: if self.offset + received > u64::MAX { u64::MAX } else { (self.offset + received) as u64 },
            ..self
        }
    }

    /// What a finished answer of `received` bytes out of `requested` means for the
    /// progress `self` it led to: `None` when it fails the download, else whether
    /// the download is complete.
    pub open spec fn chunk_verdict(self, status: u16, received: u64, requested: u64) -> Option<bool> {
        if received == 0 {
            None
        } else {
            match self.expected_total {
                Some(total) => if self.offset == total {
                    Some(true)
                } else if self.offset > total || received != requested {
                    None
                } else {
                    Some(false)
                },
                None => Some(status != PARTIAL_CONTENT || received < CHUNK_SIZE),
            }
        }
    }

    /// How many bytes a request that ends at `end` asks for.
    pub open spec fn requested_view(self, end: u64) -> int {
        let span = if end >= self.offset { end - self.offset } else { 0 };
        if span + 1 > u64::MAX { u64::MAX as int } else { span + 1 }
    }

    /// A download from the first byte; a declared length is expected.
    pub fn start(declared_total: Option<u64>) -> (progress: DownloadProgress)
        ensures
            progress == (DownloadProgress { offset: 0, declared_total, expected_total: declared_total }),
    {
        DownloadProgress { offset: 0, declared_total, expected_total: declared_total }
    }

    /// Whether another chunk may be asked for.
    pub fn can_continue(&self) -> (ok: bool)
        ensures
            ok == self.well_formed(),
    {
        let declared_ok = match self.declared_total {
            Some(declared) => declared > 0,
            None => true,
        };
        let ahead = match self.expected_total {
            Some(total) => self.offset < total,
            None => true,
        };
        declared_ok && ahead
    }

    /// The last byte the next request asks for.
    pub fn chunk_end(&self) -> (end: u64)
        requires
            self.well_formed(),
        ensures
            end == self.chunk_end_view(),
            end >= self.offset,
            self.expected_total matches Some(total) ==> end < total,
    {
        let chunk = self.offset.saturating_add(CHUNK_SIZE - 1);
        match self.expected_total {
            Some(total) => if self.declared_total.is_some() {
                total - 1
            } else if chunk < total - 1 {
                chunk
            } else {
                total - 1
            },
            None => chunk,
        }
    }

    /// The URL to fetch bytes `offset` to `end` from: with the range in the
    /// query when the URL declared its length.
    pub fn ranged_url(&self, url: &str, end: u64) -> (ranged: String)
        ensures
            ranged@ == url_with_range_view(url@, self.offset, end, self.declared_total is Some),
    {
        url_with_range(url, self.offset, end, self.declared_total.is_some())
    }

    /// The `Range` header to send, which a URL without a declared length needs.
    pub fn range_header(&self, end: u64) -> (header: Option<String>)
        ensures
            self.declared_total is Some ==> header is None,
            self.declared_total is None ==> (header matches Some(h) && h@ == "bytes="@ + range_text(self.offset, end)),
    {
        if self.declared_total.is_some() {
            None
        } else {
            let start_text = decimal_string(self.offset);
            let end_text = decimal_string(end);
            let header = concat("bytes=", start_text.as_str());
            let header = concat(header.as_str(), "-");
            Some(concat(header.as_str(), end_text.as_str()))
        }
    }

    /// Takes in the answer's status and the total its `Content-Range` reports,
    /// and refuses an answer that cannot continue the download: one that is
    /// neither partial nor a success at the start or with a known length.
    pub fn accept_status(&mut self, status: u16, reported_total: Option<u64>, end: u64) -> (accepted: Result<(), String>)
        ensures
            final(self).offset == old(self).offset,
            final(self).declared_total == old(self).declared_total,
            final(self).expected_total == if status == PARTIAL_CONTENT {
                if old(self).declared_total is None {
                    if reported_total is Some { reported_total } else { old(self).expected_total }
                } else {
                    old(self).expected_total
                }
            } else if old(self).expected_total is None && old(self).offset == 0 {
                reported_total
            } else {
                old(self).expected_total
            },
            accepted is Ok <==> (status == PARTIAL_CONTENT || (200 <= status < 300 && (old(self).offset == 0
                || final(self).expected_total is Some))),
            *final(self) == old(self).with_status(status, reported_total),
            accepted is Ok <==> final(self).status_accepted(status),
            accepted matches Err(message) ==> message@ == "download server returned HTTP "@ + status_display(status)
                + " for bytes="@ + range_text(old(self).offset, end),
    {
        if status == PARTIAL_CONTENT {
            if self.declared_total.is_none() && reported_total.is_some() {
                self.expected_total = reported_total;
            }
        } else if self.expected_total.is_none() && self.offset == 0 {
            self.expected_total = reported_total;
        }
        if status == PARTIAL_CONTENT || (200 <= status && status < 300 && (self.offset == 0 || self.expected_total.is_some())) {
            Ok(())
        } else {
            let shown = status_text(status);
            let start_text = decimal_string(self.offset);
            let end_text = decimal_string(end);
            let message = concat("download server returned HTTP ", shown.as_str());
            let message = concat(message.as_str(), " for bytes=");
            let message = concat(message.as_str(), start_text.as_str());
            let message = concat(message.as_str(), "-");
            Err(concat(message.as_str(), end_text.as_str()))
        }
    }

    /// How many bytes a request that ends at `end` asks for.
    pub fn requested(&self, end: u64) -> (count: u64)
        ensures
            count == self.requested_view(end),
    {
        end.saturating_sub(self.offset).saturating_add(1)
    }

    /// Counts a received piece of the answer: the bytes so far may not overflow
    /// nor pass what was asked for.
    pub fn count_chunk(&self, received: u64, piece: usize, requested: u64, end: u64) -> (total: Result<u64, String>)
        ensures
            received + piece > u64::MAX ==> (total matches Err(m) && m@ == "download size overflow"@),
            received + piece <= u64::MAX && received + piece > requested ==> (total matches Err(m)
                && m@ == "download server ignored bytes="@ + range_text(self.offset, end) + " and returned more than "@
                + decimal(requested as nat) + " bytes"@),
            received + piece <= requested ==> total == Ok::<u64, String>((received + piece) as u64),
    {
        let piece64: u64 = if piece as u128 <= u64::MAX as u128 { piece as u64 } else { u64::MAX };
        if piece64 > u64::MAX - received || (piece as u128) > (u64::MAX as u128) {
            return Err("download size overflow".to_owned());
        }
        let sum = received + piece64;
        if sum > requested {
            let start_text = decimal_string(self.offset);
            let end_text = decimal_string(end);
            let requested_text = decimal_string(requested);
            let message = concat("download server ignored bytes=", start_text.as_str());
            let message = concat(message.as_str(), "-");
            let message = concat(message.as_str(), end_text.as_str());
            let message = concat(message.as_str(), " and returned more than ");
            let message = concat(message.as_str(), requested_text.as_str());
            return Err(concat(message.as_str(), " bytes"));
        }
        Ok(sum)
    }

    /// Takes in a finished answer of `received` bytes out of `requested`, and
    /// says whether the download is complete. An empty answer is refused; with a
    /// known length the download completes exactly at that length and fails if it
    /// passes it or an answer came up short; without one it completes on a
    /// non-partial or short answer.
    pub fn finish_chunk(&mut self, status: u16, received: u64, requested: u64) -> (done: Result<bool, String>)
        ensures
            received == 0 ==> (done matches Err(m) && m@ == "download server returned an empty chunk"@
                && *final(self) == *old(self)),
            received > 0 ==> *final(self) == (DownloadProgress {
                offset: if old(self).offset + received > u64::MAX { u64::MAX } else { (old(self).offset + received) as u64 },
                ..*old(self)
            }),
            received > 0 ==> match final(self).expected_total {
                Some(total) => if final(self).offset == total {
                    done == Ok::<bool, String>(true)
                } else if final(self).offset > total || received != requested {
                    done matches Err(m) && m@ == "download ended early at "@ + decimal(final(self).offset as nat) + " of "@
                        + decimal(total as nat) + " bytes"@
                } else {
                    done == Ok::<bool, String>(false)
                },
                None => done == Ok::<bool, String>(status != PARTIAL_CONTENT || received < CHUNK_SIZE),
            },
            done == Ok::<bool, String>(false) ==> (final(self).expected_total matches Some(total) ==> final(self).offset < total),
            received > 0 ==> *final(self) == old(self).with_chunk(received),
            match old(self).with_chunk(received).chunk_verdict(status, received, requested) {
                Some(complete) => done == Ok::<bool, String>(complete),
                None => done is Err,
            },
    {
        if received == 0 {
            return Err("download server returned an empty chunk".to_owned());
        }
        self.offset = self.offset.saturating_add(received);
        match self.expected_total {
            Some(total) => if self.offset == total {
                Ok(true)
            } else if self.offset > total || received != requested {
                let offset_text = decimal_string(self.offset);
                let total_text = decimal_string(total);
                let message = concat("download ended early at ", offset_text.as_str());
                let message = concat(message.as_str(), " of ");
                let message = concat(message.as_str(), total_text.as_str());
                Err(concat(message.as_str(), " bytes"))
            } else {
                Ok(false)
            },
            None => Ok(status != PARTIAL_CONTENT || received < CHUNK_SIZE),
        }
    }

    /// Checks the size of the finished file against the expected length.
    pub fn check_size(&self, actual: u64) -> (checked: Result<(), String>)
        ensures
            match self.expected_total {
                Some(total) => if actual == total {
                    checked is Ok
                } else {
                    checked matches Err(m) && m@ == "download size mismatch: expected "@ + decimal(total as nat)
                        + " bytes, received "@ + decimal(actual as nat)
                },
                None => checked is Ok,
            },
    {
        match self.expected_total {
            Some(total) => if actual == total {
                Ok(())
            } else {
                let total_text = decimal_string(total);
                let actual_text = decimal_string(actual);
                let message = concat("download size mismatch: expected ", total_text.as_str());
                let message = concat(message.as_str(), " bytes, received ");
                Err(concat(message.as_str(), actual_text.as_str()))
            },
            None => Ok(()),
        }
    }
}

/// Whether a stream header is passed on to the download request: every header
/// but `Range`, whatever its case, which the download sets itself.
pub fn forwards_header(name: &str) -> (forwarded: bool)
    ensures
        forwarded == (ascii_lowercase_view(name@) != "range"@),
{
    let lower = to_ascii_lowercase(name);
    let range = "range".to_owned();
    !lower.eq(&range)
}

/// A file name made from a track id is never empty, holds at most 96 characters,
/// and only letters, digits, `-` and `_`.
pub proof fn lemma_safe_track_id_is_safe(id: Seq<char>)
    ensures
        0 < safe_track_id_view(id).len() <= 96,
        forall|i: int| 0 <= i < safe_track_id_view(id).len() ==> is_safe_id_char(#[trigger] safe_track_id_view(id)[i]),
{
    reveal_strlit("track");
    let kept = if id.len() > 96 { id.take(96) } else { id };
    let safe = kept.map_values(|c: char| if is_safe_id_char(c) { c } else { '_' });
    if safe.len() > 0 {
        assert forall|i: int| 0 <= i < safe.len() implies is_safe_id_char(#[trigger] safe[i]) by {}
    } else {
        assert forall|i: int| 0 <= i < "track"@.len() implies is_safe_id_char(#[trigger] "track"@[i]) by {}
    }
}

/// How a download driven by a run of answers ends.
pub enum DownloadRun {
    /// Complete, with this progress.
    Finished(DownloadProgress),
    /// Refused: a status, an overlong or empty answer, or a short one.
    Failed,
    /// The answers ran out before it completed.
    Unfinished(DownloadProgress),
}

/// The download from `p` driven by `answers`, each a status, a `Content-Range`
/// total and a number of bytes received, one per request: each request asks for
/// the next chunk, an answer is refused when its status cannot continue or it
/// brings more than asked, and the run stops when a chunk completes or fails it.
pub open spec fn run_download(p: DownloadProgress, answers: Seq<(u16, Option<u64>, u64)>) -> DownloadRun
    decreases answers.len(),
{
    if answers.len() == 0 {
        DownloadRun::Unfinished(p)
    } else {
        let (status, reported, received) = answers[0];
        let end = p.chunk_end_view() as u64;
        let requested = p.requested_view(end);
        let q = p.with_status(status, reported);
        if !q.status_accepted(status) || received > requested {
            DownloadRun::Failed
        } else {
            match q.with_chunk(received).chunk_verdict(status, received, requested as u64) {
                None => DownloadRun::Failed,
                Some(true) => DownloadRun::Finished(q.with_chunk(received)),
                Some(false) => run_download(q.with_chunk(received), answers.drop_first()),
            }
        }
    }
}

/// How many bytes the run from `p` takes in before it stops: the sizes of the
/// answers it accepts.
pub open spec fn bytes_taken(p: DownloadProgress, answers: Seq<(u16, Option<u64>, u64)>) -> int
    decreases answers.len(),
{
    if answers.len() == 0 {
        0
    } else {
        let (status, reported, received) = answers[0];
        let end = p.chunk_end_view() as u64;
        let requested = p.requested_view(end);
        let q = p.with_status(status, reported);
        if !q.status_accepted(status) || received > requested {
            0
        } else {
            match q.with_chunk(received).chunk_verdict(status, received, requested as u64) {
                Some(false) => received + bytes_taken(q.with_chunk(received), answers.drop_first()),
                _ => received as int,
            }
        }
    }
}

/// A download that completes has taken in exactly the bytes its offset moved by,
/// no answer bringing more than it asked for; with a known length, that is the
/// length, so the size check of the finished file passes.
pub proof fn lemma_finished_download_has_its_length(p: DownloadProgress, answers: Seq<(u16, Option<u64>, u64)>)
    requires
        p.offset + bytes_taken(p, answers) <= u64::MAX,
    ensures
        run_download(p, answers) matches DownloadRun::Finished(q) ==> {
            &&& q.offset == p.offset + bytes_taken(p, answers)
            &&& q.expected_total matches Some(total) ==> q.offset == total
        },
    decreases answers.len(),
{
    if answers.len() > 0 {
        let (status, reported, received) = answers[0];
        let end = p.chunk_end_view() as u64;
        let requested = p.requested_view(end);
        let q = p.with_status(status, reported);
        if q.status_accepted(status) && received <= requested {
            if q.with_chunk(received).chunk_verdict(status, received, requested as u64) == Some(false) {
                lemma_finished_download_has_its_length(q.with_chunk(received), answers.drop_first());
            }
        }
    }
}

} // verus!
