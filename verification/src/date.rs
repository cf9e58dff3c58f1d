//! `CivilDate`: a calendar day without time of day or time zone.

use crate::calendar::Ymd;
use crate::chrono_bridge::ymd_opt;
use vstd::prelude::*;

verus! {

/// A day of the proleptic Gregorian calendar, from 1 January of year 0 to the
/// last representable year. Every value names a day that exists.
#[derive(Clone, Copy, Debug, PartialEq, Eq, PartialOrd, Ord, Hash)]
pub struct CivilDate {
    year: i32,
    month: u32,
    day: u32,
}

impl View for CivilDate {
    type V = Ymd;

    closed spec fn view(&self) -> Ymd {
        Ymd { year: self.year as int, month: self.month as int, day: self.day as int }
    }
}

impl CivilDate {
    /// What holds of every date: it names a supported day.
    #[verifier::type_invariant]
    pub open spec fn is_well_formed(self) -> bool {
        self@.is_supported()
    }

    /// The date `(year, month, day)`, or `None` where no such day exists, the
    /// year is not representable, or the day lies before year 0.
    pub fn from_ymd_opt(year: i32, month: u32, day: u32) -> (r: Option<CivilDate>)
        ensures
            r is Some <==> (Ymd { year: year as int, month: month as int, day: day as int })
                .is_supported(),
            r matches Some(date) ==> date@ == (Ymd {
                year: year as int,
                month: month as int,
                day: day as int,
            }),
    {
        match ymd_opt(year, month, day) {
            Some((y, m, d)) => {
                if y >= 0 {
                    Some(CivilDate { year: y, month: m, day: d })
                } else {
                    None
                }
            },
            None => None,
        }
    }

    /// The year, from 0 on.
    pub fn year(&self) -> (y: i32)
        ensures
            y == self@.year,
            self@.is_supported(),
    {
        proof {
            use_type_invariant(self);
        }
        self.year
    }

    /// The month, 1 to 12.
    pub fn month(&self) -> (m: u32)
        ensures
            m == self@.month,
            self@.is_supported(),
    {
        proof {
            use_type_invariant(self);
        }
        self.month
    }

    /// The day of the month, 1 to 31.
    pub fn day(&self) -> (d: u32)
        ensures
            d == self@.day,
            self@.is_supported(),
    {
        proof {
            use_type_invariant(self);
        }
        self.day
    }

    /// Whether `self` is strictly earlier than `other`.
    pub fn is_before(&self, other: &CivilDate) -> (r: bool)
        ensures
            r == self@.is_before(other@),
    {
        self.year < other.year || (self.year == other.year && (self.month < other.month || (
        self.month == other.month && self.day < other.day)))
    }
}

} // verus!
