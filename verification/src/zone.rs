//! Instants and civil dates in the zone of London.
//!
//! What the calendar and the time zone database decide is asked of `chrono`
//! and `chrono-tz`; the four functions that ask are believed, not proved.
use vstd::prelude::*;
use chrono::{Datelike, NaiveDate, TimeZone};
use chrono_tz::Europe::London;

verus! {

/// The day number of a calendar date given as year, month and day of the
/// month, where such a date exists.
pub uninterp spec fn day_number_of(year: int, month: int, day: int) -> Option<int>;

/// For a day number: the seconds since the Unix epoch at which that day begins
/// in London, where the local midnight is a single instant.
pub uninterp spec fn london_midnight_of(day: int) -> Option<int>;

/// For an instant given as seconds since the Unix epoch and a nanosecond part:
/// the day number of the civil date that London has then, where the instant
/// can be represented.
pub uninterp spec fn london_day_at(secs: int, nanos: int) -> Option<int>;

/// The ISO week number of a day, where the day number is in range.
pub uninterp spec fn iso_week_of(day: int) -> Option<int>;

/// A calendar date as written: year, month, day of the month.
#[derive(Clone, Copy, Debug, PartialEq, Eq, Structural)]
pub struct Date {
    pub year: i32,
    pub month: u32,
    pub day: u32,
}

/// A point in time, with what the calendar of London says of it.
#[derive(Clone, Copy, Debug, PartialEq, Eq, Structural)]
pub struct Instant {
    /// Whole seconds since the Unix epoch.
    pub secs: i64,
    /// Nanoseconds past `secs`.
    pub nanos: u32,
    /// Day number of the civil date in London.
    pub day: i32,
    /// ISO week number of that date.
    pub week: u32,
}

/// Calls `NaiveDate::from_ymd_opt` and, on the date it gives,
/// `Datelike::num_days_from_ce`. The result is the named day number; nothing
/// else is claimed of it.
#[verifier::external_body]
fn day_number(year: i32, month: u32, day: u32) -> (r: Option<i32>)
    ensures
        day_number_of(year as int, month as int, day as int) == (match r {
            Some(n) => Some(n as int),
            None => None,
        }),
{
    match NaiveDate::from_ymd_opt(year, month, day) {
        Some(date) => Some(date.num_days_from_ce()),
        None => None,
    }
}

/// Calls `NaiveDate::from_num_days_from_ce_opt`, `NaiveDate::and_hms_opt` at
/// 00:00:00 and `TimeZone::from_local_datetime` on `London`, and reads
/// `DateTime::timestamp` from the single instant found. The result is the
/// named number of seconds; `None` stands for a day out of range and for a
/// midnight that London skips or has twice.
#[verifier::external_body]
fn london_midnight(day: i32) -> (r: Option<i64>)
    ensures
        london_midnight_of(day as int) == (match r {
            Some(secs) => Some(secs as int),
            None => None,
        }),
{
    let date = NaiveDate::from_num_days_from_ce_opt(day)?;
    let local = date.and_hms_opt(0, 0, 0)?;
    match London.from_local_datetime(&local).single() {
        Some(t) => Some(t.timestamp()),
        None => None,
    }
}

/// Calls `TimeZone::timestamp_opt` on `London`, and reads
/// `Datelike::num_days_from_ce` from the date and time it gives. The result is
/// the named day number; `None` stands for seconds or nanoseconds out of
/// range.
#[verifier::external_body]
fn london_day(secs: i64, nanos: u32) -> (r: Option<i32>)
    ensures
        london_day_at(secs as int, nanos as int) == (match r {
            Some(day) => Some(day as int),
            None => None,
        }),
{
    match London.timestamp_opt(secs, nanos).single() {
        Some(t) => Some(t.num_days_from_ce()),
        None => None,
    }
}

/// Calls `NaiveDate::from_num_days_from_ce_opt` and reads `IsoWeek::week` from
/// the `Datelike::iso_week` of the date. The result is the named week number;
/// `None` stands for a day out of range.
#[verifier::external_body]
fn iso_week(day: i32) -> (r: Option<u32>)
    ensures
        iso_week_of(day as int) == (match r {
            Some(week) => Some(week as int),
            None => None,
        }),
{
    match NaiveDate::from_num_days_from_ce_opt(day) {
        Some(date) => Some(date.iso_week().week()),
        None => None,
    }
}

impl Date {
    /// The day number of this date, `None` where the calendar has no such
    /// date.
    pub fn number(&self) -> (r: Option<i32>)
        ensures
            r matches Some(n) ==> self.spec_number() == Some(n as int),
            r is None ==> self.spec_number() is None,
    {
        day_number(self.year, self.month, self.day)
    }

    pub open spec fn spec_number(self) -> Option<int> {
        day_number_of(self.year as int, self.month as int, self.day as int)
    }
}

impl Instant {
    /// The instant at which a day begins in London.
    pub open spec fn spec_midnight(day: int) -> Option<Instant> {
        match (london_midnight_of(day), iso_week_of(day)) {
            (Some(secs), Some(week)) => Some(
                Instant { secs: secs as i64, nanos: 0, day: day as i32, week: week as u32 },
            ),
            _ => None,
        }
    }

    /// An instant given in universal time, with its date in London.
    pub open spec fn spec_from_utc(secs: int, nanos: int) -> Option<Instant> {
        match london_day_at(secs, nanos) {
            Some(day) => match iso_week_of(day) {
                Some(week) => Some(
                    Instant {
                        secs: secs as i64,
                        nanos: nanos as u32,
                        day: day as i32,
                        week: week as u32,
                    },
                ),
                None => None,
            },
            None => None,
        }
    }

    /// Whether this instant is `other` or earlier.
    pub open spec fn at_or_before(self, other: Instant) -> bool {
        self.secs < other.secs || (self.secs == other.secs && self.nanos <= other.nanos)
    }

    /// Midnight at the start of the day numbered `day`, London time.
    pub fn midnight(day: i32) -> (r: Option<Instant>)
        ensures
            r == Instant::spec_midnight(day as int),
    {
        match london_midnight(day) {
            Some(secs) => match iso_week(day) {
                Some(week) => Some(Instant { secs, nanos: 0, day, week }),
                None => None,
            },
            None => None,
        }
    }

    /// The instant `nanos` nanoseconds after `secs` seconds since the Unix
    /// epoch, with the date that London has then.
    pub fn from_utc(secs: i64, nanos: u32) -> (r: Option<Instant>)
        ensures
            r == Instant::spec_from_utc(secs as int, nanos as int),
    {
        match london_day(secs, nanos) {
            Some(day) => match iso_week(day) {
                Some(week) => Some(Instant { secs, nanos, day, week }),
                None => None,
            },
            None => None,
        }
    }

    /// Whether this instant is `other` or earlier.
    pub fn le(&self, other: &Instant) -> (r: bool)
        ensures
            r == self.at_or_before(*other),
    {
        self.secs < other.secs || (self.secs == other.secs && self.nanos <= other.nanos)
    }
}

} // verus!
