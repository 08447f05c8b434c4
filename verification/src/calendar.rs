use chrono::{DateTime, Datelike, Utc};
use vstd::prelude::*;

verus! {

/// Earliest Unix timestamp (seconds) that a UTC date-time can hold:
/// the start of year -262143.
pub const MIN_TIMESTAMP: i64 = -8334601315200;

/// Latest Unix timestamp (seconds) that a UTC date-time can hold:
/// the last second of year 262142.
pub const MAX_TIMESTAMP: i64 = 8210266876799;

/// Seconds in one day.
pub const DAY_SECS: i64 = 86400;

/// Timestamps that name a representable UTC date-time.
pub open spec fn valid_timestamp(t: int) -> bool {
    MIN_TIMESTAMP <= t <= MAX_TIMESTAMP
}

/// Day of the week of the UTC date holding `t`, counted from Monday (Monday is 0).
/// 1970-01-01, day 0 of the Unix epoch, was a Thursday.
pub open spec fn weekday_of(t: int) -> int {
    (t / 86400 + 3) % 7
}

/// Nanoseconds in one second.
pub const NANOS_PER_SEC: i64 = 1000000000;

/// An instant of UTC time: whole Unix seconds and the nanoseconds into that second.
#[derive(Debug, Clone, Copy, PartialEq, Eq, Structural)]
pub struct UtcTime {
    pub secs: i64,
    pub nanos: u32,
}

/// An instant that names a representable UTC date-time (no leap second).
pub open spec fn valid_time(t: UtcTime) -> bool {
    valid_timestamp(t.secs as int) && t.nanos < NANOS_PER_SEC
}

/// Nanoseconds from the Unix epoch to `t`.
pub open spec fn epoch_nanos(t: UtcTime) -> int {
    t.secs * NANOS_PER_SEC + t.nanos
}

/// The RFC 3339 text of the UTC date-time `nanos` nanoseconds into Unix second `secs`.
pub uninterp spec fn rfc3339_text(secs: i64, nanos: u32) -> Seq<char>;

/// The RFC 3339 text of the instant `t`.
pub open spec fn time_text(t: UtcTime) -> Seq<char> {
    rfc3339_text(t.secs, t.nanos)
}

/// Calls chrono's `DateTime::<Utc>::from_timestamp` and then `Datelike::weekday`.
/// Claims: for a representable timestamp, the weekday counted from Monday is the
/// proleptic Gregorian one, which repeats every seven days from the Thursday 1970-01-01.
#[verifier::external_body]
pub(crate) fn weekday_from_monday(t: i64) -> (d: u32)
    requires
        valid_timestamp(t as int),
    ensures
        d == weekday_of(t as int),
{
    DateTime::<Utc>::from_timestamp(t, 0).unwrap().weekday().num_days_from_monday()
}

/// Calls chrono's `DateTime::<Utc>::from_timestamp` and then `DateTime::to_rfc3339`.
/// Claims only that the text is a function of the second and the nanoseconds alone.
#[verifier::external_body]
pub(crate) fn rfc3339(secs: i64, nanos: u32) -> (s: String)
    requires
        valid_timestamp(secs as int),
        nanos < NANOS_PER_SEC,
    ensures
        s@ == rfc3339_text(secs, nanos),
{
    DateTime::<Utc>::from_timestamp(secs, nanos).unwrap().to_rfc3339()
}

/// The RFC 3339 text of the instant `t`.
pub fn time_string(t: UtcTime) -> (s: String)
    requires
        valid_time(t),
    ensures
        s@ == time_text(t),
{
    rfc3339(t.secs, t.nanos)
}

/// Nanoseconds from `from` to `to` (negative when `to` is earlier).
pub fn nanos_between(from: UtcTime, to: UtcTime) -> (d: i128)
    requires
        valid_time(from),
        valid_time(to),
    ensures
        d == epoch_nanos(to) - epoch_nanos(from),
{
    (to.secs as i128 - from.secs as i128) * 1000000000 + (to.nanos as i128 - from.nanos as i128)
}

} // verus!
