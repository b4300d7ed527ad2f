use vstd::prelude::*;

verus! {

/// Reads the system clock through `std::time::SystemTime::now` and gives the
/// milliseconds since the Unix epoch, or `None` when the clock reads earlier than
/// the epoch. Nothing is promised of the value: it is whatever the clock says.
#[verifier::external_body]
pub(crate) fn read_unix_time_ms() -> (ms: Option<u128>) {
    std::time::SystemTime::now().duration_since(std::time::UNIX_EPOCH).ok().map(|elapsed| elapsed.as_millis())
}

/// Milliseconds of a clock reading, saturated to `u64`; zero before the epoch.
pub open spec fn millis_of(reading: Option<u128>) -> u64 {
    match reading {
        Some(ms) => if ms > u64::MAX { u64::MAX } else { ms as u64 },
        None => 0,
    }
}

/// Whole seconds of a clock reading, saturated to `u64`; nothing before the epoch.
pub open spec fn seconds_of(reading: Option<u128>) -> Option<u64> {
    match reading {
        Some(ms) => if ms / 1000 > u64::MAX { Some(u64::MAX) } else { Some((ms / 1000) as u64) },
        None => None,
    }
}

/// Milliseconds of a clock reading.
pub fn millis_from(reading: Option<u128>) -> (ms: u64)
    ensures
        ms == millis_of(reading),
{
    match reading {
        Some(ms) => if ms > u64::MAX as u128 { u64::MAX } else { ms as u64 },
        None => 0,
    }
}

/// Whole seconds of a clock reading.
pub fn seconds_from(reading: Option<u128>) -> (seconds: Option<u64>)
    ensures
        seconds == seconds_of(reading),
{
    match reading {
        Some(ms) => {
            let seconds = ms / 1000;
            if seconds > u64::MAX as u128 { Some(u64::MAX) } else { Some(seconds as u64) }
        },
        None => None,
    }
}

/// Milliseconds since the Unix epoch, saturated to `u64`; zero when the clock
/// reads before the epoch.
pub fn unix_millis() -> (ms: u64) {
    millis_from(read_unix_time_ms())
}

/// Whole seconds since the Unix epoch, zero when the clock is before it.
pub fn unix_seconds() -> (seconds: u64) {
    match seconds_from(read_unix_time_ms()) {
        Some(seconds) => seconds,
        None => 0,
    }
}

/// Whole seconds since the Unix epoch as the storage layer records them:
/// saturated to `i64::MAX`, and zero when the clock is before the epoch.
pub fn unix_time() -> (seconds: i64)
    ensures
        seconds >= 0,
{
    let seconds = unix_seconds();
    if seconds > i64::MAX as u64 { i64::MAX } else { seconds as i64 }
}

} // verus!
