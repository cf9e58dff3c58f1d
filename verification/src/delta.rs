//! The civil difference between two dates: whole years, whole months and the
//! days that remain.

use crate::calendar::{day_number, days_in_month, lemma_month_start_distance, Ymd, MAX_YEAR};
use crate::date::CivilDate;
use crate::months::{
    add_months,
    add_months_spec,
    get_days_from_month,
    get_total_months,
    lemma_add_months_lands,
    rolls_over,
};
use vstd::prelude::*;

verus! {

/// Why no duration could be computed.
#[derive(Clone, Copy, Debug, PartialEq, Eq, Hash)]
pub enum DeltaError {
    /// The end date is earlier than the start date.
    InvalidOrdering,
    /// The month-stepped start date ended up neither in the end date's month,
    /// nor in the month before it, nor in the year before it. No pair of
    /// dates leads here; the variant exists so that the case is never
    /// silently folded into another one.
    UnreachableCase,
}

/// A (years, months, days) triple of unbounded integers.
pub struct YmdSpan {
    pub years: int,
    pub months: int,
    pub days: int,
}

impl YmdSpan {
    /// The ranges that every computed duration stays in.
    pub open spec fn is_normalized(self) -> bool {
        &&& -1 <= self.years <= MAX_YEAR
        &&& 0 <= self.months <= 11
        &&& -2 <= self.days <= 30
    }

    /// Ranking weight of a duration: `365 * years + 31 * months + days`.
    pub open spec fn sort_key(self) -> int {
        365 * self.years + 31 * self.months + self.days
    }
}

/// The length of an ownership as whole years, whole months and days.
#[derive(Clone, Copy, Debug, PartialEq, Eq, Hash)]
pub struct OwnershipDuration {
    years: i32,
    months: i32,
    days: i32,
}

impl View for OwnershipDuration {
    type V = YmdSpan;

    closed spec fn view(&self) -> YmdSpan {
        YmdSpan { years: self.years as int, months: self.months as int, days: self.days as int }
    }
}

impl OwnershipDuration {
    /// What holds of every duration: it is normalized.
    #[verifier::type_invariant]
    pub open spec fn is_well_formed(self) -> bool {
        self@.is_normalized()
    }

    /// Whole years.
    pub fn years(&self) -> (y: i32)
        ensures
            y == self@.years,
            self@.is_normalized(),
    {
        proof {
            use_type_invariant(self);
        }
        self.years
    }

    /// Whole months beyond the years, 0 to 11.
    pub fn months(&self) -> (m: i32)
        ensures
            m == self@.months,
            self@.is_normalized(),
    {
        proof {
            use_type_invariant(self);
        }
        self.months
    }

    /// Days beyond the months.
    pub fn days(&self) -> (d: i32)
        ensures
            d == self@.days,
            self@.is_normalized(),
    {
        proof {
            use_type_invariant(self);
        }
        self.days
    }

    /// Ranking weight `365 * years + 31 * months + days`: a rough length of
    /// the duration in days, meant for ordering only.
    pub fn sort_key(&self) -> (key: i32)
        ensures
            key == self@.sort_key(),
    {
        proof {
            use_type_invariant(self);
        }
        365 * self.years + 31 * self.months + self.days
    }
}

/// The start date moved forward by the whole months between the two month
/// indices, before any correction.
pub open spec fn first_candidate(start: Ymd, end: Ymd) -> Ymd {
    add_months_spec(start, end.total_months() - start.total_months())
}

/// Whether the first candidate lies after the end date, so that one month has
/// to be taken back.
pub open spec fn overshoots(start: Ymd, end: Ymd) -> bool {
    end.is_before(first_candidate(start, end))
}

/// The start date moved forward by as many whole months as the algorithm
/// counts: the first candidate, or the date one month before it where that
/// candidate overshoots.
pub open spec fn stepped_start(start: Ymd, end: Ymd) -> Ymd {
    if overshoots(start, end) {
        add_months_spec(first_candidate(start, end), -1)
    } else {
        first_candidate(start, end)
    }
}

/// Number of whole months counted between the two dates; -1 in the one case
/// where a zero gap is corrected downwards.
pub open spec fn whole_months(start: Ymd, end: Ymd) -> int {
    let gap = end.total_months() - start.total_months();
    if overshoots(start, end) {
        gap - 1
    } else {
        gap
    }
}

/// Days from the stepped start date to the end date, by the position of the
/// two dates' months: same month, consecutive months of one year, or
/// consecutive years. `None` for any other position.
pub open spec fn residual_days(stepped: Ymd, end: Ymd) -> Option<int> {
    let delta_year = end.year - stepped.year;
    let delta_month = end.month - stepped.month;
    if delta_year == 0 && delta_month == 0 {
        Some(end.day - stepped.day)
    } else if delta_year == 0 && delta_month == 1 {
        Some(end.day + (days_in_month(stepped.year, stepped.month) - stepped.day))
    } else if delta_year == 1 {
        Some(end.day + (31 - stepped.day))
    } else {
        None
    }
}

/// The civil difference from `start` to `end`.
///
/// The whole months are split by floor division into years and months 0 to
/// 11, so that -1 months reads as 11 months of year -1; the days are the
/// residue after stepping `start` by the whole months.
pub open spec fn civil_delta(start: Ymd, end: Ymd) -> Result<YmdSpan, DeltaError> {
    if end.is_before(start) {
        Err(DeltaError::InvalidOrdering)
    } else {
        let months = whole_months(start, end);
        match residual_days(stepped_start(start, end), end) {
            Some(days) => Ok(YmdSpan { years: months / 12, months: months % 12, days: days }),
            None => Err(DeltaError::UnreachableCase),
        }
    }
}

/// Quotient of the division that rounds toward zero.
pub open spec fn truncated_div(a: int, b: int) -> int {
    if a >= 0 {
        a / b
    } else {
        -((-a) / b)
    }
}

/// Remainder of the division that rounds toward zero; it has the sign of `a`.
pub open spec fn truncated_rem(a: int, b: int) -> int {
    a - b * truncated_div(a, b)
}

/// Years and months as they are counted step by step: the gap between the
/// month indices is split by truncating division once it exceeds 11 either
/// way, one month is taken off where stepping by the gap overshoots, and a
/// month count of -1 becomes 11 months of the year before.
pub open spec fn stepwise_years_months(start: Ymd, end: Ymd) -> (int, int) {
    let gap = end.total_months() - start.total_months();
    let (years, months) = if gap > 11 || gap < -11 {
        (truncated_div(gap, 12), truncated_rem(gap, 12))
    } else {
        (0, gap)
    };
    let months = if end.is_before(add_months_spec(start, 12 * years + months)) {
        months - 1
    } else {
        months
    };
    if months == -1 {
        (years - 1, 11)
    } else {
        (years, months)
    }
}

/// Counting years and months step by step gives the floor split of the
/// whole months.
pub proof fn lemma_stepwise_years_months(start: Ymd, end: Ymd)
    requires
        start.is_supported(),
        end.is_supported(),
        !end.is_before(start),
    ensures
        stepwise_years_months(start, end) == (
            whole_months(start, end) / 12,
            whole_months(start, end) % 12,
        ),
{
}

/// Where the first candidate stands: on the start date's day of the end
/// date's month, unless a roll rule moved it into the following month.
pub proof fn lemma_first_candidate(start: Ymd, end: Ymd)
    requires
        start.is_supported(),
        end.is_supported(),
        !end.is_before(start),
    ensures
        first_candidate(start, end).is_supported(),
        first_candidate(start, end).year == end.year,
        first_candidate(start, end).month == end.month + if rolls_over(end.month, start.day) {
            1int
        } else {
            0int
        },
        first_candidate(start, end).day == if end.month == 2 && start.day > 28 {
            start.day - 28
        } else if rolls_over(end.month, start.day) {
            1
        } else {
            start.day
        },
        overshoots(start, end) ==> 1 < first_candidate(start, end).total_months(),
{
    lemma_add_months_lands(start, end.total_months() - start.total_months());
}

/// For every ordered pair of dates a duration comes out, and it is
/// normalized: months 0 to 11, years from -1, days from -2 to 30.
pub proof fn lemma_civil_delta_normalized(start: Ymd, end: Ymd)
    requires
        start.is_supported(),
        end.is_supported(),
        !end.is_before(start),
    ensures
        stepped_start(start, end).is_supported(),
        civil_delta(start, end) is Ok,
        civil_delta(start, end)->Ok_0.is_normalized(),
{
    lemma_first_candidate(start, end);
    if overshoots(start, end) {
        lemma_add_months_lands(first_candidate(start, end), -1);
    }
}

/// From a date to itself the difference is zero, for every date but a
/// 29 February.
pub proof fn lemma_civil_delta_same_day(date: Ymd)
    requires
        date.is_supported(),
        !(date.month == 2 && date.day == 29),
    ensures
        civil_delta(date, date) == Ok::<YmdSpan, DeltaError>(
            YmdSpan { years: 0, months: 0, days: 0 },
        ),
{
    lemma_first_candidate(date, date);
}

/// From a 29 February to itself the first candidate rolls into March, one
/// month is taken back, and the difference reads -1 years, 11 months and 28
/// days.
pub proof fn lemma_civil_delta_same_leap_day(date: Ymd)
    requires
        date.is_supported(),
        date.month == 2,
        date.day == 29,
    ensures
        civil_delta(date, date) == Ok::<YmdSpan, DeltaError>(
            YmdSpan { years: -1, months: 11, days: 28 },
        ),
{
    lemma_first_candidate(date, date);
    lemma_add_months_lands(first_candidate(date, date), -1);
}

/// A pair in the wrong order is rejected, and nothing else is.
pub proof fn lemma_civil_delta_ordering(start: Ymd, end: Ymd)
    requires
        start.is_supported(),
        end.is_supported(),
    ensures
        end.is_before(start) ==> civil_delta(start, end) == Err::<YmdSpan, DeltaError>(
            DeltaError::InvalidOrdering,
        ),
        !end.is_before(start) ==> civil_delta(start, end) is Ok,
{
    if !end.is_before(start) {
        lemma_civil_delta_normalized(start, end);
    }
}

/// Where the start day is at most the 28th and not after the end day, no
/// correction takes place: the months between the two month indices are
/// split into years and months, and the days are the difference of the days
/// of the month.
pub proof fn lemma_civil_delta_plain(start: Ymd, end: Ymd)
    requires
        start.is_supported(),
        end.is_supported(),
        !end.is_before(start),
        start.day <= 28,
        start.day <= end.day,
    ensures
        civil_delta(start, end) == Ok::<YmdSpan, DeltaError>(
            YmdSpan {
                years: (end.total_months() - start.total_months()) / 12,
                months: (end.total_months() - start.total_months()) % 12,
                days: end.day - start.day,
            },
        ),
{
    lemma_first_candidate(start, end);
}

/// A start day up to the 28th never gives a negative number of days.
pub proof fn lemma_civil_delta_days_nonnegative(start: Ymd, end: Ymd)
    requires
        start.is_supported(),
        end.is_supported(),
        !end.is_before(start),
        start.day <= 28,
    ensures
        civil_delta(start, end) is Ok,
        0 <= civil_delta(start, end)->Ok_0.days,
        0 <= civil_delta(start, end)->Ok_0.years,
{
    lemma_first_candidate(start, end);
    if overshoots(start, end) {
        lemma_add_months_lands(first_candidate(start, end), -1);
    }
}

/// The days of a duration are the days of the calendar from the stepped
/// start date to the end date.
pub proof fn lemma_civil_delta_days_are_calendar_days(start: Ymd, end: Ymd)
    requires
        start.is_supported(),
        end.is_supported(),
        !end.is_before(start),
    ensures
        civil_delta(start, end) is Ok,
        civil_delta(start, end)->Ok_0.days == day_number(end.year, end.month, end.day)
            - day_number(
            stepped_start(start, end).year,
            stepped_start(start, end).month,
            stepped_start(start, end).day,
        ),
{
    lemma_first_candidate(start, end);
    lemma_civil_delta_normalized(start, end);
    let stepped = stepped_start(start, end);
    if overshoots(start, end) {
        lemma_add_months_lands(first_candidate(start, end), -1);
    }
    lemma_month_start_distance(stepped.year, stepped.month);
}

/// The civil (years, months, days) difference from `start_date` to
/// `end_date`, or `InvalidOrdering` where the end date is the earlier one.
///
/// The start date is stepped forward by the months between the two month
/// indices and, where that overshoots the end date, one month back; the
/// months stepped are split into years and months, and the days are counted
/// from the stepped start date to the end date.
pub fn relativedelta(start_date: CivilDate, end_date: CivilDate) -> (r: Result<
    OwnershipDuration,
    DeltaError,
>)
    ensures
        match r {
            Ok(duration) => civil_delta(start_date@, end_date@) == Ok::<YmdSpan, DeltaError>(
                duration@,
            ),
            Err(error) => civil_delta(start_date@, end_date@) == Err::<YmdSpan, DeltaError>(error),
        },
        r is Err <==> end_date@.is_before(start_date@),
        r matches Err(error) ==> error == DeltaError::InvalidOrdering,
{
    if end_date.is_before(&start_date) {
        return Err(DeltaError::InvalidOrdering);
    }
    proof {
        use_type_invariant(&start_date);
        use_type_invariant(&end_date);
        lemma_first_candidate(start_date@, end_date@);
        lemma_civil_delta_normalized(start_date@, end_date@);
    }
    let mut months: i32 = get_total_months(&end_date) - get_total_months(&start_date);
    let mut years: i32 = 0;

    if months > 11 || months < -11 {
        years = months / 12;
        months = months % 12;
    }
    let mut updated_start_date = add_months(start_date, 12 * years + months);
    if end_date.is_before(&updated_start_date) {
        updated_start_date = add_months(updated_start_date, -1);
        months = months - 1;
    }
    if months == -1 {
        years -= 1;
        months = 11;
    }
    let end_day: i32 = end_date.day() as i32;
    let start_day: i32 = updated_start_date.day() as i32;
    let delta_year: i32 = end_date.year() - updated_start_date.year();
    let delta_month: i32 = end_date.month() as i32 - updated_start_date.month() as i32;

    let days: i32 = if delta_year == 0 && delta_month == 0 {
        end_day - start_day
    } else if delta_year == 0 && delta_month == 1 {
        let days_in_months = get_days_from_month(
            updated_start_date.year(),
            updated_start_date.month(),
        );
        (end_day as i64 + (days_in_months - start_day as i64)) as i32
    } else if delta_year == 1 {
        end_day + (31 - start_day)
    } else {
        return Err(DeltaError::UnreachableCase);
    };
    Ok(OwnershipDuration { years, months, days })
}

} // verus!
