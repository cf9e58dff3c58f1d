use item_ownership::date::CivilDate;
use item_ownership::months::{add_months, get_days_from_month, get_total_months};

fn date(year: i32, month: u32, day: u32) -> CivilDate {
    CivilDate::from_ymd_opt(year, month, day).unwrap()
}

fn ymd(date: CivilDate) -> (i32, u32, u32) {
    (date.year(), date.month(), date.day())
}

#[test]
fn february_has_29_days_in_leap_years_only() {
    assert_eq!(get_days_from_month(2020, 2), 29);
    assert_eq!(get_days_from_month(2024, 2), 29);
    assert_eq!(get_days_from_month(2000, 2), 29);
    assert_eq!(get_days_from_month(2019, 2), 28);
    assert_eq!(get_days_from_month(2100, 2), 28);
    assert_eq!(get_days_from_month(1900, 2), 28);
    assert_eq!(get_days_from_month(0, 2), 29);
    assert_eq!(get_days_from_month(-4, 2), 29);
    assert_eq!(get_days_from_month(-1, 2), 28);
    assert_eq!(get_days_from_month(-100, 2), 28);
    assert_eq!(get_days_from_month(-400, 2), 29);
}

#[test]
fn long_months_have_31_days() {
    for month in [1u32, 3, 5, 7, 8, 10, 12] {
        assert_eq!(get_days_from_month(2021, month), 31);
        assert_eq!(get_days_from_month(2020, month), 31);
    }
}

#[test]
fn short_months_have_30_days() {
    for month in [4u32, 6, 9, 11] {
        assert_eq!(get_days_from_month(2021, month), 30);
        assert_eq!(get_days_from_month(2020, month), 30);
    }
}

#[test]
fn month_lengths_at_the_ends_of_the_year_range() {
    assert_eq!(get_days_from_month(-262143, 1), 31);
    assert_eq!(get_days_from_month(-262143, 2), 28);
    assert_eq!(get_days_from_month(262142, 11), 30);
    assert_eq!(get_days_from_month(262141, 12), 31);
}

#[test]
fn month_lengths_in_any_year() {
    assert_eq!(get_days_from_month(262142, 12), 31);
    assert_eq!(get_days_from_month(1_000_000, 2), 29);
    assert_eq!(get_days_from_month(1_000_100, 2), 28);
    assert_eq!(get_days_from_month(i32::MAX, 2), 28);
    assert_eq!(get_days_from_month(i32::MAX, 12), 31);
    assert_eq!(get_days_from_month(i32::MIN, 2), 29);
    assert_eq!(get_days_from_month(i32::MIN, 1), 31);
    assert_eq!(get_days_from_month(-2_000_000, 2), 29);
    assert_eq!(get_days_from_month(-2_000_001, 2), 28);
}

#[test]
fn total_months_counts_from_year_zero() {
    assert_eq!(get_total_months(&date(0, 1, 1)), 1);
    assert_eq!(get_total_months(&date(2020, 1, 15)), 24241);
    assert_eq!(get_total_months(&date(2020, 12, 15)), 24252);
    assert_eq!(get_total_months(&date(262142, 12, 31)), 3145716);
}

#[test]
fn adding_zero_months_keeps_the_date() {
    for (y, m, d) in [(2020, 1, 15), (2019, 2, 28), (2020, 2, 28), (2021, 12, 31), (0, 1, 1), (2020, 4, 30)] {
        assert_eq!(ymd(add_months(date(y, m, d), 0)), (y, m, d));
    }
}

#[test]
fn adding_zero_months_to_a_leap_day_rolls_into_march() {
    assert_eq!(ymd(add_months(date(2020, 2, 29), 0)), (2020, 3, 1));
}

#[test]
fn adding_months_keeps_the_day_where_it_exists() {
    assert_eq!(ymd(add_months(date(2020, 1, 15), 1)), (2020, 2, 15));
    assert_eq!(ymd(add_months(date(2020, 1, 15), 13)), (2021, 2, 15));
    assert_eq!(ymd(add_months(date(2020, 1, 31), 2)), (2020, 3, 31));
    assert_eq!(ymd(add_months(date(2020, 1, 30), 3)), (2020, 4, 30));
    assert_eq!(ymd(add_months(date(2020, 1, 28), 1)), (2020, 2, 28));
}

#[test]
fn adding_months_crosses_years() {
    assert_eq!(ymd(add_months(date(2020, 11, 15), 1)), (2020, 12, 15));
    assert_eq!(ymd(add_months(date(2020, 12, 15), 1)), (2021, 1, 15));
    assert_eq!(ymd(add_months(date(2020, 12, 15), 12)), (2021, 12, 15));
    assert_eq!(ymd(add_months(date(2020, 1, 15), -1)), (2019, 12, 15));
    assert_eq!(ymd(add_months(date(2020, 1, 15), -13)), (2018, 12, 15));
    assert_eq!(ymd(add_months(date(2020, 3, 15), -24)), (2018, 3, 15));
    assert_eq!(ymd(add_months(date(0, 1, 10), 11)), (0, 12, 10));
    assert_eq!(ymd(add_months(date(1, 1, 10), -12)), (0, 1, 10));
    assert_eq!(ymd(add_months(date(0, 1, 1), 3145715)), (262142, 12, 1));
}

#[test]
fn landing_in_february_after_the_28th_rolls_the_excess_into_march() {
    assert_eq!(ymd(add_months(date(2020, 1, 29), 1)), (2020, 3, 1));
    assert_eq!(ymd(add_months(date(2020, 1, 30), 1)), (2020, 3, 2));
    assert_eq!(ymd(add_months(date(2020, 1, 31), 1)), (2020, 3, 3));
    assert_eq!(ymd(add_months(date(2019, 1, 31), 1)), (2019, 3, 3));
    assert_eq!(ymd(add_months(date(2020, 3, 31), -1)), (2020, 3, 3));
    assert_eq!(ymd(add_months(date(2020, 2, 29), 12)), (2021, 3, 1));
    assert_eq!(ymd(add_months(date(2020, 2, 29), 48)), (2024, 3, 1));
}

#[test]
fn landing_on_day_31_of_a_thirty_day_month_rolls_to_the_first() {
    assert_eq!(ymd(add_months(date(2019, 3, 31), 1)), (2019, 5, 1));
    assert_eq!(ymd(add_months(date(2019, 3, 31), 3)), (2019, 7, 1));
    assert_eq!(ymd(add_months(date(2019, 3, 31), 6)), (2019, 10, 1));
    assert_eq!(ymd(add_months(date(2019, 3, 31), 8)), (2019, 12, 1));
    assert_eq!(ymd(add_months(date(2019, 5, 31), -1)), (2019, 5, 1));
}

#[test]
fn there_and_back_returns_to_the_same_month() {
    for n in [-30, -12, -1, 0, 1, 5, 12, 40] {
        let start = date(2020, 5, 17);
        let back = add_months(add_months(start, n), -n);
        assert_eq!(ymd(back), (2020, 5, 17));
    }
}

#[test]
fn there_and_back_ends_a_month_late_after_a_roll() {
    // 31 January -> 3 March -> 3 February.
    let back = add_months(add_months(date(2020, 1, 31), 1), -1);
    assert_eq!(ymd(back), (2020, 2, 3));
    // 31 March -> 1 May -> 1 April.
    let back = add_months(add_months(date(2019, 3, 31), 1), -1);
    assert_eq!(ymd(back), (2019, 4, 1));
    // 29 February -> 29 January -> 1 March.
    let back = add_months(add_months(date(2020, 2, 29), -1), 1);
    assert_eq!(ymd(back), (2020, 3, 1));
}
