//! Calendar timestamps with second precision.
//!
//! A [`Timestamp`] carries the creation time of a generation as plain
//! calendar fields, with no time zone.  Ordering is lexicographic over
//! the fields, which for valid calendar values is chronological order.
//! Parsing of the fixed `YYYY-MM-DD HH:MM:SS` pattern is delegated to
//! the `chrono` crate through a single trusted wrapper.

use vstd::prelude::*;

use chrono::Datelike;
use chrono::Timelike;

verus! {

/// A date and time of day, to the second, without a time zone.
#[derive(Debug, Clone, Copy, PartialEq, Eq, Hash, Structural)]
pub struct Timestamp {
    pub year: i32,
    pub month: u8,
    pub day: u8,
    pub hour: u8,
    pub minute: u8,
    pub second: u8,
}

impl Timestamp {
    /// The field ranges that every parsed timestamp satisfies.
    pub open spec fn wf(self) -> bool {
        &&& 1 <= self.month <= 12
        &&& 1 <= self.day <= 31
        &&& self.hour < 24
        &&& self.minute < 60
        &&& self.second < 60
    }

    /// Strict chronological order: lexicographic over the fields from the
    /// year down to the second.
    pub open spec fn spec_lt(self, other: Timestamp) -> bool {
        if self.year != other.year {
            self.year < other.year
        } else if self.month != other.month {
            self.month < other.month
        } else if self.day != other.day {
            self.day < other.day
        } else if self.hour != other.hour {
            self.hour < other.hour
        } else if self.minute != other.minute {
            self.minute < other.minute
        } else {
            self.second < other.second
        }
    }

    /// Chronological order or equality.
    pub open spec fn spec_le(self, other: Timestamp) -> bool {
        !other.spec_lt(self)
    }

    /// Returns whether `self` is strictly earlier than `other`.
    pub fn lt(&self, other: &Timestamp) -> (r: bool)
        ensures
            r == self.spec_lt(*other),
    {
        if self.year != other.year {
            self.year < other.year
        } else if self.month != other.month {
            self.month < other.month
        } else if self.day != other.day {
            self.day < other.day
        } else if self.hour != other.hour {
            self.hour < other.hour
        } else if self.minute != other.minute {
            self.minute < other.minute
        } else {
            self.second < other.second
        }
    }

    /// Returns whether `self` is earlier than or equal to `other`.
    pub fn le(&self, other: &Timestamp) -> (r: bool)
        ensures
            r == self.spec_le(*other),
    {
        !other.lt(self)
    }
}

/// The field-wise lexicographic order on timestamps is total.
pub proof fn lemma_ts_order(a: Timestamp, b: Timestamp, c: Timestamp)
    ensures
        a.spec_lt(b) && b.spec_lt(c) ==> a.spec_lt(c),
        a.spec_le(b) && b.spec_le(c) ==> a.spec_le(c),
        a.spec_lt(b) && b.spec_le(c) ==> a.spec_lt(c),
        a.spec_le(b) && b.spec_lt(c) ==> a.spec_lt(c),
        a.spec_le(b) || b.spec_le(a),
        a.spec_lt(b) ==> !b.spec_le(a),
        a.spec_le(b) && b.spec_le(a) ==> a == b,
{
}

/// What `chrono` makes of a date field and a time field joined by one
/// space and parsed under the pattern `%Y-%m-%d %H:%M:%S`; the result
/// depends on the two fields alone.
pub uninterp spec fn chrono_datetime_of(date: Seq<char>, time: Seq<char>) -> Option<Timestamp>;

/// Relies on `chrono::NaiveDateTime::parse_from_str` with the fixed
/// pattern `"%Y-%m-%d %H:%M:%S"`, whose result is determined by its
/// input text alone, and on the `chrono::Datelike` / `chrono::Timelike`
/// accessors, whose documentation gives the field ranges stated here
/// (month 1-12, day 1-31, hour 0-23, minute 0-59, second 0-59).
#[verifier::external_body]
pub(crate) fn parse_datetime(date: &str, time: &str) -> (r: Option<Timestamp>)
    ensures
        r == chrono_datetime_of(date@, time@),
        r is Some ==> r->Some_0.wf(),
{
    let joined = format!("{} {}", date, time);
    match chrono::NaiveDateTime::parse_from_str(&joined, "%Y-%m-%d %H:%M:%S") {
        Ok(dt) => Some(Timestamp {
            year: dt.year(),
            month: dt.month() as u8,
            day: dt.day() as u8,
            hour: dt.hour() as u8,
            minute: dt.minute() as u8,
            second: dt.second() as u8,
        }),
        Err(_) => None,
    }
}

} // verus!
