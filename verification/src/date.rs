//! The moment at which a note was last modified.

use crate::clock::{micros_rfc3339, micros_to_rfc3339, read_clock, rfc3339_micros, rfc3339_to_micros, ClockReading};
use vstd::prelude::*;

verus! {

/// A moment, counted in microseconds from the Unix epoch.
#[derive(Clone, Copy, Debug, PartialEq, Eq, Structural)]
pub struct Date {
    pub micros: i64,
}

impl Date {
    /// The Unix epoch.
    pub fn epoch() -> (date: Date)
        ensures
            date.micros == 0,
    {
        Date { micros: 0 }
    }

    /// The present moment, as the clock gives it.
    pub fn now() -> Date {
        Date::of_reading(&read_clock())
    }

    /// The moment of a reading of the clock: whatever the clock gives,
    /// `now` is this moment of what it gave.
    pub fn of_reading(reading: &ClockReading) -> (date: Date)
        ensures
            date.micros == reading.unix_micros,
    {
        Date { micros: reading.unix_micros }
    }

    /// The moment that an RFC 3339 text denotes, if it denotes one.
    pub fn parse(text: &str) -> (date: Option<Date>)
        ensures
            date == Date::parsed(text@),
    {
        match rfc3339_to_micros(text) {
            Some(micros) => Some(Date { micros }),
            None => None,
        }
    }

    /// The moment that an RFC 3339 text denotes, if it denotes one.
    pub open spec fn parsed(text: Seq<char>) -> Option<Date> {
        match rfc3339_micros(text) {
            Some(micros) => Some(Date { micros }),
            None => None,
        }
    }

    /// The moment as an RFC 3339 text, where the calendar reaches it.
    pub fn to_text(&self) -> (text: Option<String>)
        ensures
            match text {
                Some(text) => micros_rfc3339(self.micros) == Some(text@),
                None => micros_rfc3339(self.micros) is None,
            },
    {
        micros_to_rfc3339(self.micros)
    }

    /// Whether this moment is later than `other`.
    pub fn is_after(&self, other: &Date) -> (later: bool)
        ensures
            later == (self.micros > other.micros),
    {
        self.micros > other.micros
    }
}

} // verus!
