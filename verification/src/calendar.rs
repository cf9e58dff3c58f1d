//! The proleptic Gregorian calendar as plain mathematics: which triples name a
//! day, how long each month is, and how many days lie between two days.

use vstd::prelude::*;

verus! {

/// The first year for which dates can be represented.
pub const MIN_YEAR: i32 = -262143;

/// The last year for which dates can be represented.
pub const MAX_YEAR: i32 = 262142;

/// A calendar day as a triple of unbounded integers.
pub struct Ymd {
    pub year: int,
    pub month: int,
    pub day: int,
}

/// Gregorian leap-year rule, with year 0 counted as a leap year.
pub open spec fn is_leap_year(year: int) -> bool {
    year % 4 == 0 && (year % 100 != 0 || year % 400 == 0)
}

/// April, June, September and November.
pub open spec fn is_thirty_day_month(month: int) -> bool {
    month == 4 || month == 6 || month == 9 || month == 11
}

/// Length in days of month `month` (1 to 12) of year `year`.
pub open spec fn days_in_month(year: int, month: int) -> int {
    if month == 2 {
        if is_leap_year(year) {
            29
        } else {
            28
        }
    } else if is_thirty_day_month(month) {
        30
    } else {
        31
    }
}

/// `(year, month, day)` names a day of the calendar within the representable years.
pub open spec fn is_calendar_date(year: int, month: int, day: int) -> bool {
    &&& MIN_YEAR <= year <= MAX_YEAR
    &&& 1 <= month <= 12
    &&& 1 <= day <= days_in_month(year, month)
}

/// Days from 1 January of year 1 to 1 January of `year` (negative before year 1).
pub open spec fn days_before_year(year: int) -> int {
    365 * (year - 1) + (year - 1) / 4 - (year - 1) / 100 + (year - 1) / 400
}

/// Days from 1 January of `year` to the first day of month `month` of that year.
pub open spec fn days_before_month(year: int, month: int) -> int
    decreases month,
{
    if month <= 1 {
        0
    } else {
        days_before_month(year, month - 1) + days_in_month(year, month - 1)
    }
}

/// Position of a day on the line of all days; 1 January of year 1 is day 1.
pub open spec fn day_number(year: int, month: int, day: int) -> int {
    days_before_year(year) + days_before_month(year, month) + day
}

impl Ymd {
    /// The triple names a day of the calendar within the representable years.
    pub open spec fn is_valid(self) -> bool {
        is_calendar_date(self.year, self.month, self.day)
    }

    /// A valid day that is not earlier than 1 January of year 0.
    pub open spec fn is_supported(self) -> bool {
        self.is_valid() && self.year >= 0
    }

    /// Chronological order: `self` is strictly earlier than `other`.
    pub open spec fn is_before(self, other: Ymd) -> bool {
        self.year < other.year || (self.year == other.year && (self.month < other.month || (
        self.month == other.month && self.day < other.day)))
    }

    /// Months counted from the start of year 0: `12 * year + month`.
    pub open spec fn total_months(self) -> int {
        12 * self.year + self.month
    }
}

/// Leap years repeat every 400 years, and with them the lengths of all
/// months.
pub proof fn lemma_leap_years_repeat(year: int)
    ensures
        is_leap_year(year % 400) == is_leap_year(year),
        forall|month: int| #[trigger] days_in_month(year % 400, month) == days_in_month(year, month),
{
}

/// A year has 366 days when it is a leap year and 365 otherwise.
pub proof fn lemma_year_length(year: int)
    ensures
        days_before_year(year + 1) - days_before_year(year) == if is_leap_year(year) {
            366int
        } else {
            365int
        },
{
}

/// Where each month starts within its year: after 0, 31, 59, 90, 120, 151,
/// 181, 212, 243, 273, 304 and 334 days, and one day later from March on in
/// a leap year.
pub proof fn lemma_days_before_month_values(year: int, month: int)
    requires
        1 <= month <= 12,
    ensures
        days_before_month(year, month) == (if month == 1 {
            0int
        } else if month == 2 {
            31
        } else if month == 3 {
            59
        } else if month == 4 {
            90
        } else if month == 5 {
            120
        } else if month == 6 {
            151
        } else if month == 7 {
            181
        } else if month == 8 {
            212
        } else if month == 9 {
            243
        } else if month == 10 {
            273
        } else if month == 11 {
            304
        } else {
            334
        }) + if month > 2 && is_leap_year(year) {
            1int
        } else {
            0int
        },
{
    reveal_with_fuel(days_before_month, 13);
}

/// A later year starts no earlier than an earlier one.
pub proof fn lemma_years_apart(earlier: int, later: int)
    requires
        earlier <= later,
    ensures
        days_before_year(earlier) <= days_before_year(later),
{
}

/// Chronological order is the order of day numbers.
pub proof fn lemma_order_matches_day_number(a: Ymd, b: Ymd)
    requires
        a.is_valid(),
        b.is_valid(),
    ensures
        a.is_before(b) <==> day_number(a.year, a.month, a.day) < day_number(
            b.year,
            b.month,
            b.day,
        ),
{
    lemma_days_before_month_values(a.year, a.month);
    lemma_days_before_month_values(b.year, b.month);
    if a.year < b.year {
        lemma_year_length(a.year);
        lemma_years_apart(a.year + 1, b.year);
    } else if b.year < a.year {
        lemma_year_length(b.year);
        lemma_years_apart(b.year + 1, a.year);
    }
}

/// From the first day of a month to the first day of the next month it is
/// as many days as the month is long.
pub proof fn lemma_month_start_distance(year: int, month: int)
    requires
        1 <= month <= 12,
    ensures
        month < 12 ==> day_number(year, month + 1, 1) - day_number(year, month, 1)
            == days_in_month(year, month),
        month == 12 ==> day_number(year + 1, 1, 1) - day_number(year, 12, 1) == 31,
{
    if month == 12 {
        lemma_year_length(year);
        lemma_days_before_month_values(year, 12);
    } else {
        reveal_with_fuel(days_before_month, 2);
    }
}

} // verus!
