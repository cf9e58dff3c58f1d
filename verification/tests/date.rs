use item_ownership::date::CivilDate;
use item_ownership::parse::{date_from_fields, parse_date, DateParseError, DATE_FORMAT};

#[test]
fn existing_days_are_accepted() {
    for (y, m, d) in [(2020, 1, 15), (2020, 2, 29), (2000, 2, 29), (0, 1, 1), (0, 2, 29), (262142, 12, 31), (2021, 4, 30)] {
        let date = CivilDate::from_ymd_opt(y, m, d).unwrap();
        assert_eq!((date.year(), date.month(), date.day()), (y, m, d));
    }
}

#[test]
fn days_that_do_not_exist_are_refused() {
    assert_eq!(CivilDate::from_ymd_opt(2019, 2, 29), None);
    assert_eq!(CivilDate::from_ymd_opt(1900, 2, 29), None);
    assert_eq!(CivilDate::from_ymd_opt(2020, 2, 30), None);
    assert_eq!(CivilDate::from_ymd_opt(2020, 4, 31), None);
    assert_eq!(CivilDate::from_ymd_opt(2020, 1, 32), None);
    assert_eq!(CivilDate::from_ymd_opt(2020, 1, 0), None);
    assert_eq!(CivilDate::from_ymd_opt(2020, 0, 1), None);
    assert_eq!(CivilDate::from_ymd_opt(2020, 13, 1), None);
    assert_eq!(CivilDate::from_ymd_opt(2020, u32::MAX, u32::MAX), None);
}

#[test]
fn years_out_of_range_are_refused() {
    assert_eq!(CivilDate::from_ymd_opt(-1, 12, 31), None);
    assert_eq!(CivilDate::from_ymd_opt(-2020, 1, 15), None);
    assert_eq!(CivilDate::from_ymd_opt(262143, 1, 1), None);
    assert_eq!(CivilDate::from_ymd_opt(i32::MAX, 1, 1), None);
    assert_eq!(CivilDate::from_ymd_opt(i32::MIN, 1, 1), None);
}

#[test]
fn dates_are_ordered_by_year_then_month_then_day() {
    let d = |y, m, d| CivilDate::from_ymd_opt(y, m, d).unwrap();
    assert!(d(2019, 12, 31).is_before(&d(2020, 1, 1)));
    assert!(d(2020, 1, 31).is_before(&d(2020, 2, 1)));
    assert!(d(2020, 2, 1).is_before(&d(2020, 2, 2)));
    assert!(!d(2020, 2, 2).is_before(&d(2020, 2, 2)));
    assert!(!d(2020, 2, 2).is_before(&d(2020, 2, 1)));
    assert!(!d(2020, 1, 1).is_before(&d(2019, 12, 31)));
    assert!(!d(2020, 3, 1).is_before(&d(2020, 2, 29)));
}

#[test]
fn day_month_year_text_is_parsed() {
    let date = parse_date("15/01/2020").unwrap();
    assert_eq!((date.year(), date.month(), date.day()), (2020, 1, 15));
    let date = parse_date("29/02/2020").unwrap();
    assert_eq!((date.year(), date.month(), date.day()), (2020, 2, 29));
    let date = parse_date("31/12/1999").unwrap();
    assert_eq!((date.year(), date.month(), date.day()), (1999, 12, 31));
}

#[test]
fn malformed_text_is_reported_with_the_text() {
    for text in ["2020-01-15", "", "15/01", "fifteenth", "32/01/2020", "29/02/2019", "15/13/2020", "15/01/2020 extra"] {
        assert_eq!(parse_date(text), Err(DateParseError { text: text.to_string() }));
    }
}

#[test]
fn the_format_is_day_month_year() {
    assert_eq!(DATE_FORMAT, "%d/%m/%Y");
    // Month and day are not interchangeable.
    let date = parse_date("02/03/2020").unwrap();
    assert_eq!((date.month(), date.day()), (3, 2));
}

#[test]
fn parsed_fields_become_a_date_only_when_supported() {
    let date = date_from_fields(Some((2020, 1, 15)), "x").unwrap();
    assert_eq!((date.year(), date.month(), date.day()), (2020, 1, 15));
    assert_eq!(
        date_from_fields(Some((-5, 1, 15)), "15/01/-0005"),
        Err(DateParseError { text: "15/01/-0005".to_string() })
    );
    assert_eq!(
        date_from_fields(Some((2020, 2, 30)), "30/02/2020"),
        Err(DateParseError { text: "30/02/2020".to_string() })
    );
    assert_eq!(date_from_fields(None, "nothing"), Err(DateParseError { text: "nothing".to_string() }));
}
