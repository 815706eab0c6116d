//! The wall clock and the calendar, as `chrono` gives them. The contracts
//! of this module are taken on trust from the `chrono` sources.

use chrono::{DateTime, Datelike, Local, Timelike};
use vstd::prelude::*;

verus! {

/// One reading of the clock: the local calendar date and time of day, and
/// the same instant counted in microseconds from the Unix epoch.
#[derive(Clone, Copy, Debug, PartialEq, Eq, Structural)]
pub struct ClockReading {
    pub year: i32,
    pub month: u32,
    pub day: u32,
    pub hour: u32,
    pub minute: u32,
    pub second: u32,
    /// Nanoseconds since the whole second; a billion or more within a
    /// leap second.
    pub nanosecond: u32,
    pub unix_micros: i64,
}

impl ClockReading {
    /// The fields lie in the ranges of a calendar date and a time of day.
    pub open spec fn wf(&self) -> bool {
        &&& 1 <= self.month <= 12
        &&& 1 <= self.day <= 31
        &&& self.hour < 24
        &&& self.minute < 60
        &&& self.second < 60
        &&& self.nanosecond < 2_000_000_000
    }
}

/// What `rfc3339_to_micros` returns for a text.
pub uninterp spec fn rfc3339_micros(text: Seq<char>) -> Option<i64>;

/// What `micros_to_rfc3339` returns for a count of microseconds.
pub uninterp spec fn micros_rfc3339(micros: i64) -> Option<Seq<char>>;

/// `chrono::Local::now`, read field by field through `Datelike` and
/// `Timelike`. Nothing is known of the instant; the fields are in the
/// ranges that `chrono` documents for them.
#[verifier::external_body]
pub(crate) fn read_clock() -> (reading: ClockReading)
    ensures
        reading.wf(),
{
    let now = Local::now();
    ClockReading {
        year: now.year(),
        month: now.month(),
        day: now.day(),
        hour: now.hour(),
        minute: now.minute(),
        second: now.second(),
        nanosecond: now.nanosecond(),
        unix_micros: now.timestamp_micros(),
    }
}

/// `chrono::DateTime::parse_from_rfc3339`, the instant read as
/// microseconds from the Unix epoch; `None` where `chrono` rejects the
/// text. The result depends on the text alone.
#[verifier::external_body]
pub(crate) fn rfc3339_to_micros(text: &str) -> (micros: Option<i64>)
    ensures
        micros == rfc3339_micros(text@),
{
    DateTime::parse_from_rfc3339(text).ok().map(|instant| instant.timestamp_micros())
}

/// `chrono::DateTime::from_timestamp_micros` written out by
/// `to_rfc3339`, in UTC; `None` where `chrono` cannot represent the
/// instant. The result depends on the count alone.
#[verifier::external_body]
pub(crate) fn micros_to_rfc3339(micros: i64) -> (text: Option<String>)
    ensures
        match text {
            Some(text) => micros_rfc3339(micros) == Some(text@),
            None => micros_rfc3339(micros) is None,
        },
{
    DateTime::from_timestamp_micros(micros).map(|instant| instant.to_rfc3339())
}

} // verus!
