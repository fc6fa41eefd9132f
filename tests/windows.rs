use optitask::calendar::Date;
use optitask::error::ServiceError;
use optitask::calendar::date_in_range;
use optitask::window::{calculate_date_range, parse_period, window_bounds, AnalyticsQueryPeriod, Period};

fn day(y: i32, m: u32, d: u32) -> Date {
    Date::from_ymd(y, m, d).unwrap()
}

fn period(p: &str) -> AnalyticsQueryPeriod {
    AnalyticsQueryPeriod { period: Some(p.to_string()), start_date: None, end_date: None }
}

#[test]
fn this_month_in_a_leap_february() {
    let (start, end) = calculate_date_range(&period("this_month"), day(2024, 2, 15)).unwrap();
    assert_eq!(start, day(2024, 2, 1));
    assert_eq!(end, day(2024, 2, 29));
}

#[test]
fn this_month_in_december() {
    let (start, end) = calculate_date_range(&period("this_month"), day(2023, 12, 20)).unwrap();
    assert_eq!(start, day(2023, 12, 1));
    assert_eq!(end, day(2023, 12, 31));
}

#[test]
fn this_month_in_a_common_february() {
    let (start, end) = calculate_date_range(&period("this_month"), day(2023, 2, 10)).unwrap();
    assert_eq!(start, day(2023, 2, 1));
    assert_eq!(end, day(2023, 2, 28));
}

#[test]
fn this_week_runs_monday_to_sunday() {
    // 2024-02-15 is a Thursday.
    let (start, end) = calculate_date_range(&period("this_week"), day(2024, 2, 15)).unwrap();
    assert_eq!(start, day(2024, 2, 12));
    assert_eq!(end, day(2024, 2, 18));
}

#[test]
fn this_week_across_a_year_end() {
    // 2025-01-01 is a Wednesday.
    let (start, end) = calculate_date_range(&period("this_week"), day(2025, 1, 1)).unwrap();
    assert_eq!(start, day(2024, 12, 30));
    assert_eq!(end, day(2025, 1, 5));
}

#[test]
fn this_week_on_a_monday_and_a_sunday() {
    let (start, end) = calculate_date_range(&period("this_week"), day(2024, 2, 12)).unwrap();
    assert_eq!((start, end), (day(2024, 2, 12), day(2024, 2, 18)));
    let (start, end) = calculate_date_range(&period("this_week"), day(2024, 2, 18)).unwrap();
    assert_eq!((start, end), (day(2024, 2, 12), day(2024, 2, 18)));
}

#[test]
fn no_selector_means_this_week() {
    let q = AnalyticsQueryPeriod { period: None, start_date: None, end_date: None };
    let (start, end) = calculate_date_range(&q, day(2024, 2, 15)).unwrap();
    assert_eq!((start, end), (day(2024, 2, 12), day(2024, 2, 18)));
}

#[test]
fn last_seven_and_thirty_days_end_today() {
    let (start, end) = calculate_date_range(&period("last_7_days"), day(2024, 3, 3)).unwrap();
    assert_eq!((start, end), (day(2024, 2, 26), day(2024, 3, 3)));
    let (start, end) = calculate_date_range(&period("last_30_days"), day(2024, 3, 3)).unwrap();
    assert_eq!((start, end), (day(2024, 2, 3), day(2024, 3, 3)));
}

#[test]
fn unknown_selector_is_a_bad_request_naming_it() {
    match calculate_date_range(&period("yesterday"), day(2024, 2, 15)) {
        Err(ServiceError::BadRequest(msg)) => assert!(msg.starts_with("Invalid period specified: yesterday.")),
        other => panic!("unexpected {:?}", other),
    }
}

#[test]
fn explicit_dates_win_and_must_be_ordered() {
    let q = AnalyticsQueryPeriod {
        period: Some("this_month".to_string()),
        start_date: Some(day(2024, 1, 5)),
        end_date: Some(day(2024, 1, 9)),
    };
    assert_eq!(calculate_date_range(&q, day(2024, 2, 15)).unwrap(), (day(2024, 1, 5), day(2024, 1, 9)));
    let same = AnalyticsQueryPeriod { period: None, start_date: Some(day(2024, 1, 5)), end_date: Some(day(2024, 1, 5)) };
    assert!(calculate_date_range(&same, day(2024, 2, 15)).is_ok());
    let reversed = AnalyticsQueryPeriod { period: None, start_date: Some(day(2024, 1, 9)), end_date: Some(day(2024, 1, 5)) };
    assert!(matches!(calculate_date_range(&reversed, day(2024, 2, 15)), Err(ServiceError::BadRequest(_))));
}

#[test]
fn one_explicit_date_alone_falls_back_to_the_selector() {
    let q = AnalyticsQueryPeriod { period: Some("last_7_days".to_string()), start_date: Some(day(2024, 1, 5)), end_date: None };
    assert_eq!(calculate_date_range(&q, day(2024, 3, 3)).unwrap(), (day(2024, 2, 26), day(2024, 3, 3)));
}

#[test]
fn selectors_parse_exactly() {
    assert_eq!(parse_period(&"this_week".to_string()), Some(Period::ThisWeek));
    assert_eq!(parse_period(&"last_7_days".to_string()), Some(Period::Last7Days));
    assert_eq!(parse_period(&"this_month".to_string()), Some(Period::ThisMonth));
    assert_eq!(parse_period(&"last_30_days".to_string()), Some(Period::Last30Days));
    assert_eq!(parse_period(&"This_Week".to_string()), None);
}

#[test]
fn window_covers_whole_days() {
    let (lo, hi) = window_bounds((day(2024, 2, 1), day(2024, 2, 29)));
    let start = chrono::NaiveDate::from_ymd_opt(2024, 2, 1).unwrap().and_hms_opt(0, 0, 0).unwrap().and_utc();
    let end = chrono::NaiveDate::from_ymd_opt(2024, 2, 29).unwrap().and_hms_opt(23, 59, 59).unwrap().and_utc();
    assert_eq!(lo, start.timestamp_micros());
    assert_eq!(hi, end.timestamp_micros());
}

#[test]
fn dates_count_days_from_1970() {
    assert_eq!(day(1970, 1, 1).days, 0);
    assert_eq!(day(2005, 9, 10).days, 13036);
    assert!(Date::from_ymd(2023, 2, 29).is_none());
    assert!(Date::from_ymd(2024, 13, 1).is_none());
}

#[test]
fn days_in_range_are_those_of_the_years_1_to_9999() {
    assert_eq!(date_in_range(0), Some(Date { days: 0 }));
    assert_eq!(date_in_range(-719162), Some(Date { days: -719162 }));
    assert_eq!(date_in_range(-719163), None);
    assert_eq!(date_in_range(2932896), Some(Date { days: 2932896 }));
    assert_eq!(date_in_range(2932897), None);
}

#[test]
fn window_bounds_hold_to_the_instant_range() {
    let (lo, hi) = window_bounds((Date { days: i32::MIN }, Date { days: i32::MAX }));
    assert_eq!((lo, hi), (i64::MIN, i64::MAX));
}
