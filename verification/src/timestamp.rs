//! Dates and times, and the calls that read them from text and write them.

use chrono::{Datelike, NaiveDate, NaiveDateTime, Timelike};
use std::fmt::Write;
use vstd::prelude::*;

verus! {

/// `chrono::ParseError`, why a text is no date and time. Nothing inside it
/// is read here.
#[verifier::external_type_specification]
#[verifier::external_body]
pub struct ExParseError(chrono::ParseError);

/// A calendar date and a time of day, without a time zone.
#[derive(Debug, Clone, Copy, PartialEq, Eq, Structural)]
pub struct Timestamp {
    pub year: i32,
    pub month: u32,
    pub day: u32,
    pub hour: u32,
    pub minute: u32,
    pub second: u32,
}

/// The date and time that `text` denotes under the format `format`, where
/// it denotes one.
pub uninterp spec fn parsed_date_time(text: Seq<char>, format: Seq<char>) -> Option<Timestamp>;

/// Calls `chrono::NaiveDateTime::parse_from_str` and reads the fields of the
/// value it returns. Whether the text parses, and to what, is a function of
/// the text and the format.
#[verifier::external_body]
pub(crate) fn parse_date_time(text: &str, format: &str) -> (r: Result<Timestamp, chrono::ParseError>)
    ensures
        r is Ok <==> parsed_date_time(text@, format@) is Some,
        r matches Ok(t) ==> parsed_date_time(text@, format@) == Some(t),
{
    let t = NaiveDateTime::parse_from_str(text, format)?;
    Ok(Timestamp {
        year: t.year(),
        month: t.month(),
        day: t.day(),
        hour: t.hour(),
        minute: t.minute(),
        second: t.second(),
    })
}

/// How the export writes date and time: month, day and two-digit year,
/// then hour and minute on the 12-hour clock, then AM or PM.
pub const TIMESTAMP_FORMAT: &'static str = "%D, %l:%M %p";

/// The date and time that `text` denotes in the export's format.
pub open spec fn timestamp_of(text: Seq<char>) -> Option<Timestamp> {
    parsed_date_time(text, TIMESTAMP_FORMAT@)
}

/// Reads a date and time in the export's format.
pub fn read_timestamp(text: &str) -> (r: Option<Timestamp>)
    ensures
        r == timestamp_of(text@),
{
    match parse_date_time(text, TIMESTAMP_FORMAT) {
        Ok(t) => Some(t),
        Err(_) => None,
    }
}

/// The date of `t` written under the format `format`, where `t` holds a
/// date of the calendar and the format can be written.
pub uninterp spec fn formatted_date(t: Timestamp, format: Seq<char>) -> Option<Seq<char>>;

/// Builds the date with `chrono::NaiveDate::from_ymd_opt` and writes it
/// with `chrono::NaiveDate::format`. Whether there is a text, and which, is
/// a function of the date and the format.
#[verifier::external_body]
pub(crate) fn format_date(t: &Timestamp, format: &str) -> (r: Option<String>)
    ensures
        r is Some <==> formatted_date(*t, format@) is Some,
        r matches Some(s) ==> formatted_date(*t, format@) == Some(s@),
{
    let date = NaiveDate::from_ymd_opt(t.year, t.month, t.day)?;
    let mut out = String::new();
    write!(out, "{}", date.format(format)).ok()?;
    Some(out)
}

/// How a date is written in a row of results: year, month and day.
pub const DATE_FORMAT: &'static str = "%Y-%m-%d";

/// The date of `t` as a row of results holds it.
pub open spec fn date_text(t: Timestamp) -> Option<Seq<char>> {
    formatted_date(t, DATE_FORMAT@)
}

/// `a` is earlier than `b`.
pub open spec fn earlier(a: Timestamp, b: Timestamp) -> bool {
    a.year < b.year || (a.year == b.year && (a.month < b.month || (a.month == b.month && (a.day
        < b.day || (a.day == b.day && (a.hour < b.hour || (a.hour == b.hour && (a.minute < b.minute
        || (a.minute == b.minute && a.second < b.second)))))))))
}

impl Timestamp {
    /// Whether `self` is earlier than `other`.
    pub fn is_before(&self, other: &Timestamp) -> (r: bool)
        ensures
            r == earlier(*self, *other),
    {
        if self.year != other.year {
            self.year < other.year
        } else if self.month != other.month {
            self.month < other.month
        } else if self.day != other.day {
            self.day < other.day
        } else if self.hour != other.hour {
            self.hour < other.hour
        } else if self.minute != other.minute {
            self.minute < other.minute
        } else {
            self.second < other.second
        }
    }

    /// The date as a row of results holds it; `None` where `self` holds no
    /// date of the calendar.
    pub fn date_text(&self) -> (r: Option<String>)
        ensures
            r is Some <==> date_text(*self) is Some,
            r matches Some(s) ==> date_text(*self) == Some(s@),
    {
        format_date(self, DATE_FORMAT)
    }
}

} // verus!
