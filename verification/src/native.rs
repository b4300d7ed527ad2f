use vstd::prelude::*;

use crate::audio::{BackendError, BackendTelemetry};
use crate::text::{ascii_lowercase_view, concat, contains_view, signed_decimal, signed_decimal_string, starts_with_str, to_ascii_lowercase};

verus! {

/// What the native engine reports it is doing.
#[derive(Clone, Copy, Debug, PartialEq, Eq, Structural)]
pub enum NativeState {
    Idle,
    Opening,
    Buffering,
    Ready,
    Playing,
    Paused,
    Ended,
    Error,
    Released,
}

/// The state a native status code stands for; unknown codes are errors.
pub open spec fn native_state_view(code: i32) -> NativeState {
    if code == 0 {
        NativeState::Idle
    } else if code == 1 {
        NativeState::Opening
    } else if code == 2 {
        NativeState::Buffering
    } else if code == 3 {
        NativeState::Ready
    } else if code == 4 {
        NativeState::Playing
    } else if code == 5 {
        NativeState::Paused
    } else if code == 6 {
        NativeState::Ended
    } else if code == 8 {
        NativeState::Released
    } else {
        NativeState::Error
    }
}

/// The state a native status code stands for.
pub fn native_state_from_code(code: i32) -> (state: NativeState)
    ensures
        state == native_state_view(code),
{
    match code {
        0 => NativeState::Idle,
        1 => NativeState::Opening,
        2 => NativeState::Buffering,
        3 => NativeState::Ready,
        4 => NativeState::Playing,
        5 => NativeState::Paused,
        6 => NativeState::Ended,
        8 => NativeState::Released,
        _ => NativeState::Error,
    }
}

/// A native count or time, where a negative value means nothing yet.
pub fn non_negative(value: i64) -> (count: u64)
    ensures
        value >= 0 ==> count == value,
        value < 0 ==> count == 0,
{
    if value >= 0 {
        value as u64
    } else {
        0
    }
}

/// The result of a native call: zero is success; anything else is a failure with
/// the engine's last error, or the code when it has none.
pub fn check_result(result: i32, last_error: Option<String>) -> (checked: Result<(), BackendError>)
    ensures
        result == 0 ==> checked is Ok,
        result != 0 ==> (checked matches Err(BackendError::Failed(message)) && message@ == match last_error {
            Some(text) => text@,
            None => "native error "@ + signed_decimal(result as int),
        }),
{
    if result == 0 {
        return Ok(());
    }
    match last_error {
        Some(text) => Err(BackendError::Failed(text)),
        None => {
            let number = signed_decimal_string(result as i64);
            Err(BackendError::Failed(concat("native error ", number.as_str())))
        },
    }
}

/// Whether a header name or value breaks the header block: a line break, or in a
/// name also a colon.
pub open spec fn header_is_invalid(name: Seq<char>, value: Seq<char>) -> bool {
    name.contains('\r') || name.contains('\n') || name.contains(':') || value.contains('\r') || value.contains('\n')
}

/// The header block and user agent the engine is given: every header but
/// `User-Agent` (in any case) as `name: value` lines, and the last user agent.
pub open spec fn serialized_headers(headers: Seq<(Seq<char>, Seq<char>)>) -> (Seq<char>, Seq<char>)
    decreases headers.len(),
{
    if headers.len() == 0 {
        (Seq::empty(), Seq::empty())
    } else {
        let (block, agent) = serialized_headers(headers.drop_last());
        let (name, value) = headers.last();
        if ascii_lowercase_view(name) == "user-agent"@ {
            (block, value)
        } else {
            (block + name + ": "@ + value + "\r\n"@, agent)
        }
    }
}

/// Whether `c` occurs in `s`.
fn has_char(s: &str, c: char) -> (found: bool)
    ensures
        found == s@.contains(c),
{
    let n = s.unicode_len();
    for i in 0..n
        invariant
            n == s@.len(),
            forall|k: int| 0 <= k < i ==> s@[k] != c,
    {
        if s.get_char(i) == c {
            assert(s@[i as int] == c);
            return true;
        }
    }
    false
}

/// The header block and user agent for a stream's headers; a header that would
/// break the block, or a NUL in the block or the agent, is refused.
pub fn prepare_headers(headers: &Vec<(String, String)>) -> (prepared: Result<(String, String), BackendError>)
    ensures
        (exists|i: int| 0 <= i < headers@.len() && #[trigger] header_is_invalid(headers@[i].0@, headers@[i].1@))
            ==> (prepared matches Err(BackendError::Failed(m)) && m@ == "invalid audio HTTP header"@),
        prepared matches Ok((block, agent)) ==> {
            &&& (block@, agent@) == serialized_headers(headers@.map_values(|h: (String, String)| (h.0@, h.1@)))
            &&& !block@.contains('\0')
            &&& !agent@.contains('\0')
        },
        (forall|i: int| 0 <= i < headers@.len() ==> !#[trigger] header_is_invalid(headers@[i].0@, headers@[i].1@))
            ==> ({
            let (block, agent) = serialized_headers(headers@.map_values(|h: (String, String)| (h.0@, h.1@)));
            &&& block.contains('\0') ==> (prepared matches Err(BackendError::Failed(m))
                && m@ == "audio HTTP header contains a null byte"@)
            &&& !block.contains('\0') && agent.contains('\0') ==> (prepared matches Err(BackendError::Failed(m))
                && m@ == "audio user agent contains a null byte"@)
            &&& !block.contains('\0') && !agent.contains('\0') ==> prepared is Ok
        }),
{
    let ghost views = headers@.map_values(|h: (String, String)| (h.0@, h.1@));
    let mut block = String::new();
    let mut agent = String::new();
    let user_agent = "user-agent".to_owned();
    for i in 0..headers.len()
        invariant
            views == headers@.map_values(|h: (String, String)| (h.0@, h.1@)),
            user_agent@ == "user-agent"@,
            (block@, agent@) == serialized_headers(views.subrange(0, i as int)),
            forall|k: int| 0 <= k < i ==> !#[trigger] header_is_invalid(headers@[k].0@, headers@[k].1@),
    {
        let name = headers[i].0.as_str();
        let value = headers[i].1.as_str();
        if has_char(name, '\r') || has_char(name, '\n') || has_char(name, ':') || has_char(value, '\r') || has_char(
            value,
            '\n',
        ) {
            assert(header_is_invalid(headers@[i as int].0@, headers@[i as int].1@));
            return Err(BackendError::Failed("invalid audio HTTP header".to_owned()));
        }
        let ghost before = views.subrange(0, i as int);
        let ghost after = views.subrange(0, i + 1);
        assert(after.drop_last() =~= before);
        assert(after.last() == (name@, value@));
        let lower = to_ascii_lowercase(name);
        if lower.eq(&user_agent) {
            agent = value.to_owned();
        } else {
            block.append(name);
            block.append(": ");
            block.append(value);
            block.append("\r\n");
        }
    }
    assert(views.subrange(0, headers@.len() as int) =~= views);
    if has_char(block.as_str(), '\0') {
        return Err(BackendError::Failed("audio HTTP header contains a null byte".to_owned()));
    }
    if has_char(agent.as_str(), '\0') {
        return Err(BackendError::Failed("audio user agent contains a null byte".to_owned()));
    }
    Ok((block, agent))
}

/// Whether `s` starts with `prefix`.
pub open spec fn has_prefix(s: Seq<char>, prefix: Seq<char>) -> bool {
    prefix.len() <= s.len() && s.subrange(0, prefix.len() as int) == prefix
}

/// Whether a source is fetched over HTTP rather than opened as a file.
pub fn is_http_source(url: &str) -> (remote: bool)
    ensures
        remote == (has_prefix(url@, "http://"@) || has_prefix(url@, "https://"@)),
{
    starts_with_str(url, "http://") || starts_with_str(url, "https://")
}

/// Whether interleaved PCM of `sample_count` samples fits `channels` channels:
/// there is at least one channel and one sample, and whole frames.
pub fn check_spectrum_shape(sample_count: usize, channels: u8) -> (checked: Result<(), BackendError>)
    ensures
        channels == 0 || sample_count == 0 || (sample_count as int) % (channels as int) != 0 ==> (checked matches Err(
            BackendError::Failed(m),
        ) && m@ == "invalid spectrum PCM shape"@),
        !(channels == 0 || sample_count == 0 || (sample_count as int) % (channels as int) != 0) ==> checked is Ok,
{
    if channels == 0 || sample_count == 0 || sample_count % (channels as usize) != 0 {
        Err(BackendError::Failed("invalid spectrum PCM shape".to_owned()))
    } else {
        Ok(())
    }
}

/// What the native engine reports, turned into telemetry: negative counts read
/// as zero, a failed spectrum read as silence, and the track has ended in the
/// `Ended` state.
pub fn telemetry_from(
    position_ms: i64,
    duration_ms: i64,
    buffered_ms: i64,
    underrun_count: i64,
    spectrum_result: i32,
    spectrum: [u8; 24],
    state_code: i32,
) -> (telemetry: BackendTelemetry)
    ensures
        telemetry.position_ms == if position_ms >= 0 { position_ms as int } else { 0 },
        telemetry.duration_ms == if duration_ms >= 0 { duration_ms as int } else { 0 },
        telemetry.buffered_ms == if buffered_ms >= 0 { buffered_ms as int } else { 0 },
        telemetry.underrun_count == if underrun_count >= 0 { underrun_count as int } else { 0 },
        spectrum_result == 0 ==> telemetry.spectrum@ == spectrum@,
        spectrum_result != 0 ==> telemetry.spectrum@ == Seq::new(24, |i: int| 0u8),
        telemetry.ended == (native_state_view(state_code) == NativeState::Ended),
{
    let bands = if spectrum_result == 0 {
        spectrum
    } else {
        [0u8; 24]
    };
    proof {
        if spectrum_result != 0 {
            assert(bands@ =~= Seq::new(24, |i: int| 0u8));
        }
    }
    BackendTelemetry {
        position_ms: non_negative(position_ms),
        duration_ms: non_negative(duration_ms),
        buffered_ms: non_negative(buffered_ms),
        underrun_count: non_negative(underrun_count),
        spectrum: bands,
        ended: native_state_from_code(state_code) == NativeState::Ended,
    }
}

} // verus!
