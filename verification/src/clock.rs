//! Time: the length of a session between two instants, and instants written
//! out for log lines. The library never reads the clock; every instant is
//! handed to it.

use vstd::prelude::*;

verus! {

/// Length in seconds of a presence session that starts at `start` and ends at
/// `end`. A session that would end before it starts (clock skew) lasts zero
/// seconds.
pub open spec fn session_seconds(start: int, end: int) -> nat {
    if end > start {
        (end - start) as nat
    } else {
        0
    }
}

/// The seconds from `start_timestamp` to `now`, both Unix timestamps; zero if
/// `start_timestamp` is not before `now`.
pub fn elapsed_time(start_timestamp: i64, now: i64) -> (elapsed: u64)
    ensures
        elapsed == session_seconds(start_timestamp as int, now as int),
{
    if now > start_timestamp {
        let wide: i128 = now as i128 - start_timestamp as i128;
        wide as u64
    } else {
        0
    }
}

/// The UTC date and time of the Unix time `secs`, as `chrono` writes it for
/// the format `%Y-%m-%d %H:%M:%S`; `None` for a time that the calendar of
/// `chrono` does not reach.
pub uninterp spec fn utc_text(secs: i64) -> Option<Seq<char>>;

/// Calls `chrono::DateTime::from_timestamp`, and where that gives a moment,
/// `DateTime::format` on it with `%Y-%m-%d %H:%M:%S`. Both are functions of
/// the seconds alone; the contract names the result and claims nothing else
/// of it.
#[verifier::external_body]
fn format_utc(secs: i64) -> (text: Option<String>)
    ensures
        match text {
            Some(text) => utc_text(secs) == Some(text@),
            None => utc_text(secs) is None,
        },
{
    match chrono::DateTime::from_timestamp(secs, 0) {
        Some(moment) => Some(moment.format("%Y-%m-%d %H:%M:%S").to_string()),
        None => None,
    }
}

/// The UTC date and time of the Unix time `now`, written by `chrono` in the
/// format `%Y-%m-%d %H:%M:%S`, for log lines; `None` if `now` is a time that
/// the calendar of `chrono` does not reach.
pub fn timestamp_string(now: i64) -> (text: Option<String>)
    ensures
        match text {
            Some(text) => utc_text(now) == Some(text@),
            None => utc_text(now) is None,
        },
{
    format_utc(now)
}

} // verus!
