//! The calls into `chrono`. Verus does not read these bodies: each contract
//! here is taken on trust from chrono's documentation and source.

use crate::calendar::{day_number, is_calendar_date};
use chrono::{Datelike, NaiveDate};
use vstd::prelude::*;

verus! {

/// What `chrono::NaiveDate::parse_from_str` makes of `text` under the strftime
/// pattern `format`: the year, month and day of the parsed date, or `None`
/// where chrono reports a parse error.
pub uninterp spec fn chrono_parsed_date(text: Seq<char>, format: Seq<char>) -> Option<
    (i32, u32, u32),
>;

/// Calls `chrono::NaiveDate::from_ymd_opt` and reads the date back through
/// `Datelike::{year, month, day}`.
///
/// Trusted: chrono accepts exactly the triples that name an existing day of
/// the proleptic Gregorian calendar in its year range, and the accepted date
/// reports the year, month and day it was made from.
#[verifier::external_body]
pub(crate) fn ymd_opt(year: i32, month: u32, day: u32) -> (r: Option<(i32, u32, u32)>)
    ensures
        is_calendar_date(year as int, month as int, day as int) ==> r == Some((year, month, day)),
        !is_calendar_date(year as int, month as int, day as int) ==> r is None,
{
    match NaiveDate::from_ymd_opt(year, month, day) {
        Some(date) => Some((date.year(), date.month(), date.day())),
        None => None,
    }
}

/// Calls `chrono::NaiveDate::signed_duration_since` on the two days and
/// `chrono::TimeDelta::num_days` on the difference.
///
/// Trusted: the result is the number of days from `from` to `to` in the
/// proleptic Gregorian calendar, negative when `to` is the earlier day.
#[verifier::external_body]
pub(crate) fn days_between(from: (i32, u32, u32), to: (i32, u32, u32)) -> (days: i64)
    requires
        is_calendar_date(from.0 as int, from.1 as int, from.2 as int),
        is_calendar_date(to.0 as int, to.1 as int, to.2 as int),
    ensures
        days == day_number(to.0 as int, to.1 as int, to.2 as int) - day_number(
            from.0 as int,
            from.1 as int,
            from.2 as int,
        ),
{
    let from_date = NaiveDate::from_ymd_opt(from.0, from.1, from.2).unwrap();
    let to_date = NaiveDate::from_ymd_opt(to.0, to.1, to.2).unwrap();
    to_date.signed_duration_since(from_date).num_days()
}

/// Calls `chrono::NaiveDate::parse_from_str` and reads the date back through
/// `Datelike::{year, month, day}`.
///
/// Trusted: the outcome depends on `text` and `format` alone.
#[verifier::external_body]
pub(crate) fn parse_ymd(text: &str, format: &str) -> (r: Option<(i32, u32, u32)>)
    ensures
        r == chrono_parsed_date(text@, format@),
{
    match NaiveDate::parse_from_str(text, format) {
        Ok(date) => Some((date.year(), date.month(), date.day())),
        Err(_) => None,
    }
}

} // verus!
