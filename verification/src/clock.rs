//! Time stamps and their RFC 3339 text.

use crate::models::Timestamp;
use vstd::prelude::*;

verus! {

/// `std::time::Instant`. Nothing is known of a value of it.
#[verifier::external_type_specification]
#[verifier::external_body]
pub struct ExInstant(std::time::Instant);

/// Calls `Instant::now` of std. Nothing is claimed of the value.
#[verifier::external_body]
pub(crate) fn start_timer() -> std::time::Instant {
    std::time::Instant::now()
}

/// Calls `Instant::elapsed` of std and hands out the whole milliseconds.
/// Nothing is claimed of the value.
#[verifier::external_body]
pub(crate) fn elapsed_millis(start: &std::time::Instant) -> u64 {
    start.elapsed().as_millis() as u64
}

/// The RFC 3339 text of the UTC time `seconds` and `nanos` after the Unix
/// epoch, as `DateTime::to_rfc3339` of the chrono crate writes it; `None`
/// where chrono has no such time (the year is out of its range, or `nanos`
/// is no valid fraction of that second).
pub uninterp spec fn rfc3339_text(seconds: int, nanos: int) -> Option<Seq<char>>;

/// Whether chrono has the time, so that it can be written out.
pub open spec fn has_text(time: Timestamp) -> bool {
    rfc3339_text(time.seconds as int, time.nanos as int) is Some
}

/// Calls `Utc::now` of the chrono crate and hands out its seconds and
/// nanoseconds. `Utc::now` builds its result with `DateTime::from_timestamp`,
/// which gives the seconds and nanoseconds back as they went in, so chrono
/// has the time. Nothing else is claimed of the value.
#[verifier::external_body]
pub(crate) fn now_utc() -> (now: Timestamp)
    ensures
        has_text(now),
{
    let now = chrono::Utc::now();
    Timestamp { seconds: now.timestamp(), nanos: now.timestamp_subsec_nanos() }
}

/// Builds the time with `DateTime::from_timestamp` of the chrono crate and
/// writes it with `DateTime::to_rfc3339`. The result is the named
/// `rfc3339_text`.
#[verifier::external_body]
pub(crate) fn format_rfc3339(time: &Timestamp) -> (text: Option<String>)
    ensures
        match text {
            Some(t) => rfc3339_text(time.seconds as int, time.nanos as int) == Some(t@),
            None => rfc3339_text(time.seconds as int, time.nanos as int) is None,
        },
{
    chrono::DateTime::from_timestamp(time.seconds, time.nanos).map(|d| d.to_rfc3339())
}

/// The time to stamp on a document: the supplied one, else `now`.
pub open spec fn spec_stamp(supplied: Option<Timestamp>, now: Timestamp) -> Timestamp {
    match supplied {
        Some(t) => t,
        None => now,
    }
}

/// Picks the time to stamp on a document: the supplied one, else `now`.
pub fn stamp(supplied: Option<Timestamp>, now: Timestamp) -> (time: Timestamp)
    ensures
        time == spec_stamp(supplied, now),
{
    match supplied {
        Some(t) => t,
        None => now,
    }
}

/// Tells whether chrono has the time.
pub fn can_write(time: &Timestamp) -> (known: bool)
    ensures
        known == has_text(*time),
{
    format_rfc3339(time).is_some()
}

} // verus!
