//! Dates and timestamps as the calendar shows them.
//!
//! A date and a timestamp are held as the numbers that the wire carries,
//! so that every payload of the right width decodes. The calendar fields
//! are computed by `chrono`, for the dates and times that it can hold.
use crate::frame::response::result::{CqlDate, CqlTimestamp};
use chrono::{Datelike, DateTime, NaiveDate, Timelike};
use vstd::prelude::*;

verus! {

/// A day of the proleptic Gregorian calendar.
#[derive(Debug, Clone, Copy, PartialEq, Eq)]
pub struct CalendarDate {
    pub year: i32,
    /// From 1 to 12.
    pub month: u32,
    /// From 1 to 31.
    pub day: u32,
}

/// A point in time in UTC, to the millisecond.
#[derive(Debug, Clone, Copy, PartialEq, Eq)]
pub struct CalendarTime {
    pub date: CalendarDate,
    /// From 0 to 23.
    pub hour: u32,
    /// From 0 to 59.
    pub minute: u32,
    /// From 0 to 59.
    pub second: u32,
    pub millisecond: u32,
}

/// The day of the calendar that lies `days` days after 1970-01-01, or none
/// where `chrono` cannot hold that day.
pub uninterp spec fn calendar_of_days(days: int) -> Option<CalendarDate>;

/// The time in UTC that lies `millis` milliseconds after the start of
/// 1970-01-01, or none where `chrono` cannot hold that time.
pub uninterp spec fn calendar_of_millis(millis: int) -> Option<CalendarTime>;

/// Whether the month and the day are numbers that a calendar shows.
pub open spec fn date_in_range(date: CalendarDate) -> bool {
    1 <= date.month <= 12 && 1 <= date.day <= 31
}

/// `chrono::NaiveDate::from_epoch_days`, with the year, month and day that
/// `Datelike` reads from the date it returns. The month is between 1 and 12
/// and the day between 1 and 31.
#[verifier::external_body]
fn date_from_epoch_days(days: i32) -> (r: Option<CalendarDate>)
    ensures
        r == calendar_of_days(days as int),
        r matches Some(date) ==> date_in_range(date),
{
    match NaiveDate::from_epoch_days(days) {
        Some(d) => Some(CalendarDate { year: d.year(), month: d.month(), day: d.day() }),
        None => None,
    }
}

/// `chrono::DateTime::from_timestamp_millis`, with the fields that
/// `Datelike` and `Timelike` read from the time it returns, and the
/// milliseconds that `timestamp_subsec_millis` gives. The month is between
/// 1 and 12, the day between 1 and 31, the hour below 24, and minute and
/// second below 60.
#[verifier::external_body]
fn time_from_epoch_millis(millis: i64) -> (r: Option<CalendarTime>)
    ensures
        r == calendar_of_millis(millis as int),
        r matches Some(time) ==> date_in_range(time.date) && time.hour < 24 && time.minute < 60
            && time.second < 60,
{
    match DateTime::from_timestamp_millis(millis) {
        Some(t) => Some(
            CalendarTime {
                date: CalendarDate { year: t.year(), month: t.month(), day: t.day() },
                hour: t.hour(),
                minute: t.minute(),
                second: t.second(),
                millisecond: t.timestamp_subsec_millis(),
            },
        ),
        None => None,
    }
}

impl CqlDate {
    /// The day of the calendar, or none where it lies outside of what
    /// `chrono` can hold.
    pub fn calendar(&self) -> (r: Option<CalendarDate>)
        ensures
            r == calendar_of_days(self.days_since_epoch as int),
            r matches Some(date) ==> date_in_range(date),
    {
        date_from_epoch_days(self.days_since_epoch)
    }
}

impl CqlTimestamp {
    /// The time in UTC, or none where it lies outside of what `chrono` can
    /// hold.
    pub fn calendar(&self) -> (r: Option<CalendarTime>)
        ensures
            r == calendar_of_millis(self.millis_since_epoch as int),
            r matches Some(time) ==> date_in_range(time.date) && time.hour < 24 && time.minute
                < 60 && time.second < 60,
    {
        time_from_epoch_millis(self.millis_since_epoch)
    }
}

} // verus!
