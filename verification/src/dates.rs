//! Calendar support for date values.
//!
//! Inside the library a date is a plain day number in the proleptic
//! Gregorian calendar, with January 1 of year 1 (CE) as day 1, matching
//! chrono's day counting.  All range arithmetic on dates is ordinary
//! integer arithmetic on day numbers; only the conversions between day
//! numbers and calendar notation are delegated to chrono.

use vstd::prelude::*;

verus! {

/// The `YYYY-MM-DD` display text of the date with the given day number;
/// the empty sequence for a day number outside chrono's range.
pub uninterp spec fn date_display(day: int) -> Seq<char>;

/// The day number of the given calendar date, or `None` when the year,
/// month and day do not name a real date in chrono's range.
pub uninterp spec fn day_number_of_ymd(year: int, month: int, day: int) -> Option<i64>;

/// Relies on chrono's `NaiveDate::from_num_days_from_ce_opt` and on
/// `NaiveDate`'s `%Y-%m-%d` formatting: the text depends on the day number
/// alone, and a day number that chrono cannot represent gives the empty
/// string.
#[verifier::external_body]
pub fn format_day_number(day: i64) -> (r: String)
    ensures
        r@ == date_display(day as int),
{
    let date = i32::try_from(day).ok().and_then(chrono::NaiveDate::from_num_days_from_ce_opt);
    match date {
        Some(d) => d.format("%Y-%m-%d").to_string(),
        None => String::new(),
    }
}

/// Relies on chrono's `NaiveDate::from_ymd_opt` and `num_days_from_ce`:
/// the result depends on the year, month and day alone.
#[verifier::external_body]
pub fn day_number_from_ymd(year: i32, month: u32, day: u32) -> (r: Option<i64>)
    ensures
        r == day_number_of_ymd(year as int, month as int, day as int),
{
    chrono::NaiveDate::from_ymd_opt(year, month, day)
        .map(|d| i64::from(chrono::Datelike::num_days_from_ce(&d)))
}

} // verus!
