//! Date parsing for the feed's fixed textual form, e.g. `"Dec 1 2024"`: an
//! abbreviated month name, a day and a year, read as a UTC calendar date at
//! midnight and reported in epoch seconds.

use vstd::prelude::*;

verus! {

/// Epoch seconds of the UTC midnight of the date the text denotes, when it
/// parses under the fixed form; the outcome depends on the text alone.
pub uninterp spec fn date_epoch_of(s: Seq<char>) -> Option<i64>;

/// What `parse_date` returns: the parsed date's epoch seconds, or 0 when the
/// text does not parse.
pub open spec fn date_spec(s: Seq<char>) -> i64 {
    match date_epoch_of(s) {
        Some(t) => t,
        None => 0,
    }
}

/// Relies on `chrono::NaiveDate::parse_from_str` with the format
/// `"%b %d %Y"`, taken to midnight UTC by `NaiveDate::and_hms_opt(0, 0, 0)`
/// and `NaiveDateTime::and_utc`, and read out by `DateTime::timestamp`; the
/// outcome is a function of the text alone.
#[verifier::external_body]
fn parse_date_chrono(date: &str) -> (r: Option<i64>)
    ensures
        r == date_epoch_of(date@),
{
    match chrono::NaiveDate::parse_from_str(date, "%b %d %Y") {
        Ok(d) => d.and_hms_opt(0, 0, 0).map(|dt| dt.and_utc().timestamp()),
        Err(_) => None,
    }
}

/// Parses a date of the fixed textual form into epoch seconds of its UTC
/// midnight; any parse failure yields 0 — this never fails.
pub fn parse_date(date: &str) -> (r: i64)
    ensures
        r == date_spec(date@),
{
    match parse_date_chrono(date) {
        Some(t) => t,
        None => 0,
    }
}

} // verus!
