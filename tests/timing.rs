use optitask::analytics::{ProductivityTrendPoint, TimeByProjectStat};
use optitask::calendar::Date;
use optitask::entries::{derive_duration, ListTimeEntriesQuery};
use optitask::error::ServiceError;
use optitask::model::{CreateProjectPayload, CreateTaskPayload, CreateTimeEntryPayload, UpdateTimeEntryPayload};
use optitask::store::Store;
use optitask::window::AnalyticsQueryPeriod;

const ALICE: u128 = 0xA11CE;
const BOB: u128 = 0xB0B;

fn at(y: i32, mo: u32, d: u32, h: u32, mi: u32, s: u32) -> i64 {
    chrono::NaiveDate::from_ymd_opt(y, mo, d).unwrap().and_hms_opt(h, mi, s).unwrap().and_utc().timestamp_micros()
}

fn entry(task_id: u128, start: i64, end: Option<i64>, duration: Option<i32>) -> CreateTimeEntryPayload {
    CreateTimeEntryPayload { task_id, start_time: start, end_time: end, duration_seconds: duration, is_pomodoro_session: None }
}

fn task_in(project: Option<u128>) -> CreateTaskPayload {
    CreateTaskPayload { project_id: project, title: "t".to_string(), description: None, status: None, due_date: None, order: None }
}

fn project(name: &str) -> CreateProjectPayload {
    CreateProjectPayload { name: name.to_string(), color: None }
}

#[test]
fn duration_is_derived_from_start_and_end() {
    let start = at(2024, 5, 1, 10, 0, 0);
    let end = at(2024, 5, 1, 10, 5, 30);
    assert_eq!(derive_duration(start, Some(end), None), Some(330));
    assert_eq!(derive_duration(start, Some(end), Some(100)), Some(100));
    assert_eq!(derive_duration(start, None, None), None);
    assert_eq!(derive_duration(end, Some(start), None), None);
    assert_eq!(derive_duration(start, Some(start + 1_999_999), None), Some(1));
}

#[test]
fn created_entries_get_a_derived_duration() {
    let mut store = Store::new();
    store.create_task(ALICE, 1, task_in(None), 0).unwrap();
    let start = at(2024, 5, 1, 10, 0, 0);
    let end = at(2024, 5, 1, 10, 5, 30);
    let e = store.create_time_entry(ALICE, 7, entry(1, start, Some(end), None), 5).unwrap();
    assert_eq!(e.duration_seconds, Some(330));
    assert!(!e.is_pomodoro_session);
    let e = store.create_time_entry(ALICE, 8, entry(1, start, Some(end), Some(100)), 5).unwrap();
    assert_eq!(e.duration_seconds, Some(100));
    assert!(matches!(store.create_time_entry(BOB, 9, entry(1, start, None, None), 5), Err(ServiceError::NotFound(_))));
    assert!(matches!(store.create_time_entry(ALICE, 8, entry(1, start, None, None), 5), Err(ServiceError::ConflictError(_))));
}

#[test]
fn updates_derive_when_the_duration_key_is_absent() {
    let mut store = Store::new();
    store.create_task(ALICE, 1, task_in(None), 0).unwrap();
    let start = at(2024, 5, 1, 10, 0, 0);
    store.create_time_entry(ALICE, 7, entry(1, start, None, None), 5).unwrap();
    let payload = UpdateTimeEntryPayload {
        start_time: None,
        end_time: Some(Some(at(2024, 5, 1, 11, 0, 0))),
        duration_seconds: None,
        is_pomodoro_session: Some(true),
    };
    let e = store.update_time_entry(ALICE, 7, payload, 9).unwrap();
    assert_eq!(e.duration_seconds, Some(3600));
    assert!(e.is_pomodoro_session);
    assert_eq!(e.updated_at, 9);

    let keep = UpdateTimeEntryPayload { start_time: None, end_time: Some(None), duration_seconds: Some(Some(12)), is_pomodoro_session: None };
    let e = store.update_time_entry(ALICE, 7, keep, 10).unwrap();
    assert_eq!(e.end_time, None);
    assert_eq!(e.duration_seconds, Some(12));
    assert!(e.is_pomodoro_session);

    let foreign = UpdateTimeEntryPayload { start_time: None, end_time: None, duration_seconds: None, is_pomodoro_session: None };
    assert!(matches!(store.update_time_entry(BOB, 7, foreign, 11), Err(ServiceError::NotFound(_))));
    assert!(matches!(store.delete_time_entry(BOB, 7), Err(ServiceError::NotFound(_))));
    assert!(store.delete_time_entry(ALICE, 7).is_ok());
    assert!(matches!(store.get_time_entry(ALICE, 7), Err(ServiceError::NotFound(_))));
}

#[test]
fn entry_listing_filters_and_puts_the_latest_first() {
    let mut store = Store::new();
    store.create_task(ALICE, 1, task_in(None), 0).unwrap();
    store.create_task(ALICE, 2, task_in(None), 0).unwrap();
    store.create_time_entry(ALICE, 10, entry(1, 300, None, None), 0).unwrap();
    store.create_time_entry(ALICE, 11, entry(1, 100, None, None), 0).unwrap();
    store.create_time_entry(ALICE, 12, entry(2, 200, None, None), 0).unwrap();
    let all = store.list_time_entries(ALICE, ListTimeEntriesQuery { task_id: None, date_from: None, date_to: None });
    assert_eq!(all.iter().map(|e| e.id).collect::<Vec<_>>(), vec![10, 12, 11]);
    let one = store.list_time_entries(ALICE, ListTimeEntriesQuery { task_id: Some(1), date_from: Some(150), date_to: None });
    assert_eq!(one.iter().map(|e| e.id).collect::<Vec<_>>(), vec![10]);
    let upto = store.list_time_entries(ALICE, ListTimeEntriesQuery { task_id: None, date_from: None, date_to: Some(200) });
    assert_eq!(upto.iter().map(|e| e.id).collect::<Vec<_>>(), vec![12, 11]);
    assert!(store.list_time_entries(BOB, ListTimeEntriesQuery { task_id: None, date_from: None, date_to: None }).is_empty());
}

fn feb(d: u32) -> Date {
    Date::from_ymd(2024, 2, d).unwrap()
}

fn explicit(from: Date, to: Date) -> AnalyticsQueryPeriod {
    AnalyticsQueryPeriod { period: None, start_date: Some(from), end_date: Some(to) }
}

#[test]
fn time_by_project_sums_and_sorts_descending() {
    let mut store = Store::new();
    store.create_project(ALICE, 1, project("ProjectA"), 0).unwrap();
    store.create_project(ALICE, 2, project("ProjectB"), 0).unwrap();
    store.create_task(ALICE, 11, task_in(Some(1)), 0).unwrap();
    store.create_task(ALICE, 12, task_in(Some(2)), 0).unwrap();
    store.create_task(ALICE, 13, task_in(None), 0).unwrap();
    store.create_time_entry(ALICE, 21, entry(12, at(2024, 2, 10, 9, 0, 0), None, Some(50)), 0).unwrap();
    store.create_time_entry(ALICE, 22, entry(11, at(2024, 2, 11, 9, 0, 0), None, Some(100)), 0).unwrap();
    store.create_time_entry(ALICE, 23, entry(11, at(2024, 2, 12, 23, 59, 59), None, Some(200)), 0).unwrap();
    store.create_time_entry(ALICE, 24, entry(13, at(2024, 2, 12, 9, 0, 0), None, Some(70)), 0).unwrap();
    store.create_time_entry(ALICE, 25, entry(11, at(2024, 2, 13, 0, 0, 0), None, Some(1000)), 0).unwrap();
    store.create_task(BOB, 31, task_in(Some(1)), 0).unwrap();
    store.create_time_entry(BOB, 26, entry(31, at(2024, 2, 11, 9, 0, 0), None, Some(5000)), 0).unwrap();

    let stats: Vec<TimeByProjectStat> = store.time_by_project_report(ALICE, &explicit(feb(1), feb(12)), feb(15)).unwrap();
    let got: Vec<(u128, String, i64)> = stats.iter().map(|s| (s.project_id, s.project_name.clone(), s.total_duration_seconds)).collect();
    assert_eq!(got, vec![(1, "ProjectA".to_string(), 300), (2, "ProjectB".to_string(), 50)]);

    let none = store.time_by_project_report(ALICE, &explicit(feb(20), feb(21)), feb(15)).unwrap();
    assert!(none.is_empty());
    assert!(matches!(store.time_by_project_report(ALICE, &explicit(feb(21), feb(20)), feb(15)), Err(ServiceError::BadRequest(_))));
}

#[test]
fn missing_durations_count_as_zero() {
    let mut store = Store::new();
    store.create_project(ALICE, 1, project("P"), 0).unwrap();
    store.create_task(ALICE, 11, task_in(Some(1)), 0).unwrap();
    store.create_time_entry(ALICE, 21, entry(11, at(2024, 2, 10, 9, 0, 0), None, None), 0).unwrap();
    let stats = store.time_by_project_report(ALICE, &explicit(feb(1), feb(29)), feb(15)).unwrap();
    assert_eq!(stats.len(), 1);
    assert_eq!(stats[0].total_duration_seconds, 0);
}

#[test]
fn trend_sums_by_day_in_calendar_order() {
    let mut store = Store::new();
    store.create_task(ALICE, 11, task_in(None), 0).unwrap();
    store.create_time_entry(ALICE, 21, entry(11, at(2024, 2, 14, 9, 0, 0), None, Some(30)), 0).unwrap();
    store.create_time_entry(ALICE, 22, entry(11, at(2024, 2, 12, 9, 0, 0), None, Some(10)), 0).unwrap();
    store.create_time_entry(ALICE, 23, entry(11, at(2024, 2, 14, 18, 0, 0), None, Some(5)), 0).unwrap();
    store.create_time_entry(ALICE, 24, entry(11, at(2024, 3, 1, 9, 0, 0), None, Some(99)), 0).unwrap();
    let q = AnalyticsQueryPeriod { period: Some("this_month".to_string()), start_date: None, end_date: None };
    let points: Vec<ProductivityTrendPoint> = store.productivity_trend_report(ALICE, &q, feb(15)).unwrap();
    assert_eq!(
        points,
        vec![
            ProductivityTrendPoint { date_point: feb(12), total_duration_seconds: 10 },
            ProductivityTrendPoint { date_point: feb(14), total_duration_seconds: 35 },
        ]
    );
    let bad = AnalyticsQueryPeriod { period: Some("fortnight".to_string()), start_date: None, end_date: None };
    assert!(matches!(store.productivity_trend_report(ALICE, &bad, feb(15)), Err(ServiceError::BadRequest(_))));
}

#[test]
fn updates_derive_from_the_new_start() {
    let mut store = Store::new();
    store.create_task(ALICE, 1, task_in(None), 0).unwrap();
    store.create_time_entry(ALICE, 7, entry(1, at(2024, 5, 1, 9, 0, 0), None, None), 5).unwrap();
    let payload = UpdateTimeEntryPayload {
        start_time: Some(at(2024, 5, 1, 10, 0, 0)),
        end_time: Some(Some(at(2024, 5, 1, 10, 5, 30))),
        duration_seconds: None,
        is_pomodoro_session: None,
    };
    let e = store.update_time_entry(ALICE, 7, payload, 9).unwrap();
    assert_eq!(e.start_time, at(2024, 5, 1, 10, 0, 0));
    assert_eq!(e.duration_seconds, Some(330));
}

#[test]
fn an_explicit_null_duration_is_cleared_not_derived() {
    let mut store = Store::new();
    store.create_task(ALICE, 1, task_in(None), 0).unwrap();
    let start = at(2024, 5, 1, 10, 0, 0);
    store.create_time_entry(ALICE, 7, entry(1, start, None, Some(60)), 5).unwrap();
    let payload = UpdateTimeEntryPayload {
        start_time: None,
        end_time: Some(Some(at(2024, 5, 1, 11, 0, 0))),
        duration_seconds: Some(None),
        is_pomodoro_session: None,
    };
    let e = store.update_time_entry(ALICE, 7, payload, 9).unwrap();
    assert_eq!(e.duration_seconds, None);
    let explicit = UpdateTimeEntryPayload {
        start_time: None,
        end_time: Some(Some(at(2024, 5, 1, 12, 0, 0))),
        duration_seconds: Some(Some(100)),
        is_pomodoro_session: None,
    };
    assert_eq!(store.update_time_entry(ALICE, 7, explicit, 10).unwrap().duration_seconds, Some(100));
}

#[test]
fn reports_accept_dates_far_from_today() {
    let mut store = Store::new();
    store.create_task(ALICE, 11, task_in(None), 0).unwrap();
    store.create_time_entry(ALICE, 21, entry(11, at(2024, 2, 14, 9, 0, 0), None, Some(30)), 0).unwrap();
    let wide = explicit(Date { days: -100_000_000 }, Date { days: 100_000_000 });
    let points = store.productivity_trend_report(ALICE, &wide, feb(15)).unwrap();
    assert_eq!(points.len(), 1);
    assert_eq!(points[0].total_duration_seconds, 30);
}
