//! Month arithmetic: the length of a month, the absolute month index of a
//! date, and stepping a date by whole months.

use crate::calendar::{
    days_in_month,
    is_thirty_day_month,
    lemma_leap_years_repeat,
    lemma_month_start_distance,
    Ymd,
};
use crate::chrono_bridge::{days_between, ymd_opt};
use crate::date::CivilDate;
use vstd::prelude::*;

verus! {

/// The largest month index that `add_months` can land on: December of the
/// last representable year.
pub const MAX_TOTAL_MONTHS: i32 = 3145716;

/// Number of days in month `month` of year `year`, measured as the distance
/// between the first day of that month and the first day of the next one.
///
/// The calendar repeats every 400 years, so the distance is taken in the
/// year of the cycle from year 0 that matches `year`; this keeps both month
/// starts representable whatever the year.
pub fn get_days_from_month(year: i32, month: u32) -> (days: i64)
    requires
        1 <= month <= 12,
    ensures
        days == days_in_month(year as int, month as int),
        28 <= days <= 31,
{
    let cycle_year: i32 = ((year % 400) + 400) % 400;
    let next_year: i32 = if month == 12 {
        cycle_year + 1
    } else {
        cycle_year
    };
    let next_month: u32 = if month == 12 {
        1
    } else {
        month + 1
    };
    let next_start = ymd_opt(next_year, next_month, 1).unwrap();
    let this_start = ymd_opt(cycle_year, month, 1).unwrap();
    proof {
        lemma_month_start_distance(cycle_year as int, month as int);
        lemma_leap_years_repeat(year as int);
    }
    days_between(this_start, next_start)
}

/// The absolute month index of a date: `12 * year + month`.
pub fn get_total_months(date: &CivilDate) -> (total: i32)
    ensures
        total == date@.total_months(),
        1 <= total <= MAX_TOTAL_MONTHS,
{
    12 * date.year() + (date.month() as i32)
}

/// Rule for landing in February: a day after the 28th moves into March and
/// keeps only its excess over 28.
pub open spec fn roll_february(month: int, day: int) -> (int, int) {
    if month == 2 && day > 28 {
        (month + 1, day - 28)
    } else {
        (month, day)
    }
}

/// Rule for landing in a 30-day month: day 31 becomes the first day of the
/// following month.
pub open spec fn roll_thirty(month: int, day: int) -> (int, int) {
    if is_thirty_day_month(month) && day == 31 {
        (month + 1, 1)
    } else {
        (month, day)
    }
}

/// Whether stepping to the month numbered `month` (0 for December) has to
/// move `day` on into the month after it.
pub open spec fn rolls_over(month: int, day: int) -> bool {
    (month == 2 && day > 28) || (is_thirty_day_month(month) && day == 31)
}

/// The date `n` months away from `date`.
///
/// The month index `12 * year + month + n` is split into a year and a month
/// number 0 to 11, the day of the month is kept, the two roll rules are
/// applied in turn, and month number 0 is December of the year before.
pub open spec fn add_months_spec(date: Ymd, n: int) -> Ymd {
    let new_total = date.total_months() + n;
    let years = new_total / 12;
    let landed = new_total % 12;
    let february = roll_february(landed, date.day);
    let (months, day) = roll_thirty(february.0, february.1);
    if months == 0 {
        Ymd { year: years - 1, month: 12, day: day }
    } else {
        Ymd { year: years, month: months, day: day }
    }
}

/// The date `num_months` months after `date` (before it, if negative).
///
/// The month index reached has to be positive and at most
/// `MAX_TOTAL_MONTHS`, so that the result is a representable date from year 0
/// on.
pub fn add_months(date: CivilDate, num_months: i32) -> (r: CivilDate)
    requires
        0 < date@.total_months() + num_months <= MAX_TOTAL_MONTHS,
    ensures
        r@ == add_months_spec(date@, num_months as int),
        r@.is_supported(),
{
    let current_total_months: i32 = get_total_months(&date);
    let new_total_months: i32 = current_total_months + num_months;
    let years: i32 = new_total_months / 12;
    let mut months: i32 = new_total_months % 12;
    let mut day: u32 = date.day();
    if months == 2 && day > 28 {
        months += 1;
        day -= 28;
    }
    if (months == 4 || months == 6 || months == 9 || months == 11) && day == 31 {
        months += 1;
        day = 1;
    }
    proof {
        lemma_add_months_lands(date@, num_months as int);
    }
    if months == 0 {
        CivilDate::from_ymd_opt(years - 1, 12, day).unwrap()
    } else {
        CivilDate::from_ymd_opt(years, months as u32, day).unwrap()
    }
}

/// Stepping by months lands in the month reached, or in the month after it
/// where one of the roll rules applies; and within the representable months
/// it always lands on an existing day.
pub proof fn lemma_add_months_lands(date: Ymd, n: int)
    requires
        date.is_supported(),
    ensures
        0 < date.total_months() + n <= MAX_TOTAL_MONTHS ==> add_months_spec(date, n).is_supported(),
        add_months_spec(date, n).total_months() == date.total_months() + n + if rolls_over(
            (date.total_months() + n) % 12,
            date.day,
        ) {
            1int
        } else {
            0int
        },
        add_months_spec(date, n).day == if (date.total_months() + n) % 12 == 2 && date.day > 28 {
            date.day - 28
        } else if rolls_over((date.total_months() + n) % 12, date.day) {
            1
        } else {
            date.day
        },
{
}

/// Stepping by zero months gives the date back, for every date but a
/// 29 February.
pub proof fn lemma_add_zero_months(date: Ymd)
    requires
        date.is_supported(),
        !(date.month == 2 && date.day == 29),
    ensures
        add_months_spec(date, 0) == date,
{
}

/// Stepping a 29 February by zero months rolls it into 1 March.
pub proof fn lemma_add_zero_months_leap_day(date: Ymd)
    requires
        date.is_supported(),
        date.month == 2,
        date.day == 29,
    ensures
        add_months_spec(date, 0) == (Ymd { year: date.year, month: 3, day: 1 }),
{
}

/// Stepping `n` months and then `-n` months comes back to the year and month
/// of the date it started from, and to its day, unless the first step rolls
/// over or the date is a 29 February.
pub proof fn lemma_add_months_round_trip(date: Ymd, n: int)
    requires
        date.is_supported(),
        0 < date.total_months() + n <= MAX_TOTAL_MONTHS,
        !rolls_over((date.total_months() + n) % 12, date.day),
        !(date.month == 2 && date.day == 29),
    ensures
        add_months_spec(add_months_spec(date, n), -n).year == date.year,
        add_months_spec(add_months_spec(date, n), -n).month == date.month,
        add_months_spec(add_months_spec(date, n), -n) == date,
{
    lemma_add_months_lands(date, n);
}

/// Where stepping `n` months rolls over, or starts from a 29 February,
/// stepping back `-n` months ends in the month after the one it started
/// from.
pub proof fn lemma_add_months_round_trip_rolled(date: Ymd, n: int)
    requires
        date.is_supported(),
        0 < date.total_months() + n <= MAX_TOTAL_MONTHS,
        rolls_over((date.total_months() + n) % 12, date.day) || (date.month == 2 && date.day
            == 29),
    ensures
        add_months_spec(add_months_spec(date, n), -n).total_months() == date.total_months() + 1,
{
    lemma_add_months_lands(date, n);
    lemma_add_months_lands(add_months_spec(date, n), -n);
}

} // verus!
