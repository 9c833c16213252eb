//! Calendar dates as whole days.
//!
//! A date is the number of its day, counted as `chrono` counts the days of the
//! proleptic Gregorian calendar: 1 is the first of January of the year 1. Dates
//! are taken in UTC and carry no time of day. Reading a date from text, writing
//! it as text and asking for today's date are left to `chrono`.

use vstd::prelude::*;
use std::fmt::Write;

verus! {

/// `chrono::format::ParseError`, as an opaque type: only its message is taken
/// from it.
#[verifier::external_type_specification]
#[verifier::external_body]
pub struct ExParseError(chrono::format::ParseError);

/// The day that `chrono` reads from `text` under the format `pattern`, or `None`
/// where it reads none.
pub uninterp spec fn date_of_text(text: Seq<char>, pattern: Seq<char>) -> Option<i32>;

/// The text that `chrono` writes for `day` under the format `pattern`, or `None`
/// where `day` is outside its calendar or the format is no format.
pub uninterp spec fn text_of_date(day: i32, pattern: Seq<char>) -> Option<Seq<char>>;

/// The format of a date in a file: year, month and day, with hyphens between.
pub open spec fn day_pattern() -> Seq<char> {
    "%Y-%m-%d"@
}

/// Calls `NaiveDate::parse_from_str` and takes the day's number of what it read.
/// The result is a function of the two texts alone; [`date_of_text`] is its name.
#[verifier::external_body]
pub(crate) fn parse_date(text: &str, pattern: &str) -> (read: Result<
    i32,
    chrono::format::ParseError,
>)
    ensures
        match read {
            Ok(day) => date_of_text(text@, pattern@) == Some(day),
            Err(_) => date_of_text(text@, pattern@) is None,
        },
{
    chrono::NaiveDate::parse_from_str(text, pattern).map(|d| chrono::Datelike::num_days_from_ce(&d))
}

/// Calls `NaiveDate::from_num_days_from_ce_opt` and writes the date with
/// `NaiveDate::format`. The result is a function of the day and the format alone;
/// [`text_of_date`] is its name.
#[verifier::external_body]
pub(crate) fn format_date(day: i32, pattern: &str) -> (written: Option<String>)
    ensures
        match written {
            Some(text) => text_of_date(day, pattern@) == Some(text@),
            None => text_of_date(day, pattern@) is None,
        },
{
    let date = chrono::NaiveDate::from_num_days_from_ce_opt(day)?;
    let mut text = String::new();
    write!(text, "{}", date.format(pattern)).ok()?;
    Some(text)
}

/// The message of a date that `chrono` could not read, as its `Display` gives it.
#[verifier::external_body]
pub(crate) fn date_error_message(error: &chrono::format::ParseError) -> String {
    error.to_string()
}

/// Asks `chrono` for the current date in UTC. Nothing is known of the answer.
#[verifier::external_body]
pub(crate) fn clock_day() -> i32 {
    chrono::Datelike::num_days_from_ce(&chrono::Utc::now().date_naive())
}

} // verus!
