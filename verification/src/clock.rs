//! Calendar time: the wall clock, RFC 3339 text and UTC instants.

use vstd::prelude::*;
use chrono::{DateTime, Utc};

verus! {

/// The first second of the calendar.
pub const CALENDAR_START_SECS: i64 = -8_334_601_228_800;

/// The last second of the calendar.
pub const CALENDAR_END_SECS: i64 = 8_210_266_876_799;

/// The last microsecond of the calendar.
pub const CALENDAR_END_MICROS: i64 = 8_210_266_876_799_999_999;

/// A UTC instant: seconds since the epoch, and nanoseconds into that second.
#[derive(Debug, Clone, Copy, PartialEq, Eq, Structural)]
pub struct Moment {
    pub secs: i64,
    pub nanos: u32,
}

/// Is this an instant of the calendar? A leap second is written as the last second of
/// a minute with a second's worth of nanoseconds too many.
pub open spec fn on_calendar(secs: i64, nanos: u32) -> bool {
    &&& CALENDAR_START_SECS <= secs <= CALENDAR_END_SECS
    &&& nanos < 1_000_000_000 || (nanos < 2_000_000_000 && secs as int % 60 == 59)
}

/// Wraps `chrono::DateTime::<Utc>::from_timestamp`, whose result is read back with
/// `timestamp` and `timestamp_subsec_nanos`. Trusted: it fails outside the calendar
/// (years -262143 to 262142) and on nanoseconds that are neither within a second nor
/// those of a leap second at the end of a minute, and otherwise gives the instant back.
#[verifier::external_body]
pub(crate) fn calendar_moment(secs: i64, nanos: u32) -> (r: Option<Moment>)
    ensures
        r == (if on_calendar(secs, nanos) { Some(Moment { secs, nanos }) } else { None }),
{
    let t = DateTime::<Utc>::from_timestamp(secs, nanos)?;
    Some(Moment { secs: t.timestamp(), nanos: t.timestamp_subsec_nanos() })
}

/// Wraps `chrono::Utc::now` and `timestamp_micros`. Trusted: the time is not before the
/// epoch nor after the end of the calendar. Which time it is rests on the machine.
#[verifier::external_body]
pub(crate) fn utc_now_micros() -> (r: i64)
    ensures
        0 <= r <= CALENDAR_END_MICROS,
{
    Utc::now().timestamp_micros()
}

/// The instant, in microseconds since the epoch, that a text gives in RFC 3339 form.
pub uninterp spec fn rfc3339_micros(text: Seq<char>) -> Option<i64>;

/// Wraps `chrono::DateTime::parse_from_rfc3339` and `timestamp_micros`. Trusted: the
/// result depends on the text alone. Which texts are valid, and the calendar
/// arithmetic behind the instant, are left to that crate.
#[verifier::external_body]
pub(crate) fn parse_rfc3339(text: &str) -> (r: Option<i64>)
    ensures
        r == rfc3339_micros(text@),
{
    match DateTime::parse_from_rfc3339(text) {
        Ok(d) => Some(d.timestamp_micros()),
        Err(_) => None,
    }
}

} // verus!
