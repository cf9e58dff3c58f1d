//! Reading a date from its day/month/year text.

use crate::calendar::Ymd;
use crate::chrono_bridge::{chrono_parsed_date, parse_ymd};
use crate::date::CivilDate;
use vstd::prelude::*;

verus! {

/// The strftime pattern that dates are written in: day, month and year,
/// separated by slashes.
pub const DATE_FORMAT: &'static str = "%d/%m/%Y";

/// A text that could not be read as a date in `DATE_FORMAT`.
#[derive(Debug, PartialEq, Eq)]
pub struct DateParseError {
    /// The offending text.
    pub text: String,
}

/// The supported date that a parsed (year, month, day) stands for, if any.
pub open spec fn supported_date(fields: Option<(i32, u32, u32)>) -> Option<Ymd> {
    match fields {
        Some((year, month, day)) => {
            let date = Ymd { year: year as int, month: month as int, day: day as int };
            if date.is_supported() {
                Some(date)
            } else {
                None
            }
        },
        None => None,
    }
}

/// The date that `text` is read as: what the parser makes of it under
/// `DATE_FORMAT`, provided that it is a supported date.
pub open spec fn parsed_date(text: Seq<char>) -> Option<Ymd> {
    supported_date(chrono_parsed_date(text, DATE_FORMAT@))
}

/// Turns the outcome of parsing `text` into a date, or into the error that
/// carries `text` where nothing was parsed or the fields name no supported
/// date.
pub fn date_from_fields(fields: Option<(i32, u32, u32)>, text: &str) -> (r: Result<
    CivilDate,
    DateParseError,
>)
    ensures
        match r {
            Ok(date) => supported_date(fields) == Some(date@),
            Err(error) => supported_date(fields) is None && error.text@ == text@,
        },
{
    match fields {
        Some((year, month, day)) => match CivilDate::from_ymd_opt(year, month, day) {
            Some(date) => Ok(date),
            None => Err(DateParseError { text: text.to_owned() }),
        },
        None => Err(DateParseError { text: text.to_owned() }),
    }
}

/// Reads a date written as day/month/year, such as `15/01/2020`.
pub fn parse_date(date: &str) -> (r: Result<CivilDate, DateParseError>)
    ensures
        match r {
            Ok(parsed) => parsed_date(date@) == Some(parsed@),
            Err(error) => parsed_date(date@) is None && error.text@ == date@,
        },
{
    date_from_fields(parse_ymd(date, DATE_FORMAT), date)
}

} // verus!
