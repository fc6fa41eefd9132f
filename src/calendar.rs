//! Calendar days and instants, held as plain integers.
//!
//! A day is counted from 1970-01-01 (day 0) in the proleptic Gregorian
//! calendar; an instant is a count of microseconds since 1970-01-01 00:00:00
//! UTC. What only a calendar library knows (the year and month of a day, the
//! day of a year, month and day) is asked of chrono.

use chrono::Datelike;
use vstd::prelude::*;

verus! {

/// The first day that the library handles: 0001-01-01.
pub const MIN_DAY: i32 = -719162;

/// The last day that the library handles: 9999-12-31.
pub const MAX_DAY: i32 = 2932896;

pub const MICROS_PER_SECOND: i64 = 1_000_000;

pub const MICROS_PER_DAY: i64 = 86_400_000_000;

/// A calendar day, as its distance in days from 1970-01-01.
#[derive(Debug, Clone, Copy, PartialEq, Eq, Structural)]
pub struct Date {
    pub days: i32,
}

impl Date {
    /// The day lies in the years 1 to 9999.
    pub open spec fn wf(self) -> bool {
        MIN_DAY <= self.days <= MAX_DAY
    }

    /// The calendar date of a year, month and day, if there is one.
    pub fn from_ymd(year: i32, month: u32, day: u32) -> (r: Option<Date>)
        ensures
            r is Some ==> epoch_day_of(year as int, month as int, day as int) == Some(
                r.unwrap().days as int,
            ),
            r is None ==> epoch_day_of(year as int, month as int, day as int) is None,
        (1 <= year <= 10000 && 1 <= month <= 12 && 1 <= day <= 28) ==> r is Some,
        r is Some && 1 <= year ==> MIN_DAY <= r.unwrap().days,
    {
        match chrono_epoch_day(year, month, day) {
            Some(n) => Some(Date { days: n }),
            None => None,
        }
    }
}

/// The first microsecond of a day.
pub open spec fn day_start(days: int) -> int {
    days * MICROS_PER_DAY
}

/// 23:59:59 on a day.
pub open spec fn day_last_second(days: int) -> int {
    days * MICROS_PER_DAY + 86_399 * MICROS_PER_SECOND
}

/// The day on which an instant falls (UTC).
pub open spec fn day_of_instant(t: int) -> int {
    t / (MICROS_PER_DAY as int)
}

/// How many days lie between a day and the Monday that begins its week.
/// 1970-01-01 was a Thursday, three days after a Monday.
pub open spec fn days_since_monday(days: int) -> int {
    (days + 3) % 7
}

/// The day of a year, month and day, as chrono's `from_ymd_opt` gives it.
pub uninterp spec fn epoch_day_of(year: int, month: int, day: int) -> Option<int>;

/// The year of a day, as chrono's `Datelike::year` gives it.
pub uninterp spec fn year_of(days: int) -> int;

/// The month (1 to 12) of a day, as chrono's `Datelike::month` gives it.
pub uninterp spec fn month_of(days: int) -> int;

/// The day on which an instant falls (UTC).
pub fn date_of_instant(t: i64) -> (r: Date)
    ensures
        r.days == day_of_instant(t as int),
{
    let d: i64 = t / MICROS_PER_DAY;
    let r: i64 = t % MICROS_PER_DAY;
    let days: i64 = if r < 0 { d - 1 } else { d };
    assert(days == day_of_instant(t as int)) by {
        assert(t == d * MICROS_PER_DAY + r);
    }
    assert(-200_000_000 <= days <= 200_000_000) by (nonlinear_arith)
        requires
            days == t / 86_400_000_000 || days == t / 86_400_000_000 - 1,
            i64::MIN <= t <= i64::MAX,
    {}
    Date { days: days as i32 }
}

/// Relies on chrono's `NaiveDate::from_ymd_opt`: the day of a valid year,
/// month and day, none for an invalid one. Every day of a month whose year
/// is within chrono's range exists, and from year 1 on no day precedes
/// 0001-01-01.
#[verifier::external_body]
fn chrono_epoch_day(year: i32, month: u32, day: u32) -> (r: Option<i32>)
    ensures
        r is Some ==> epoch_day_of(year as int, month as int, day as int) == Some(r.unwrap() as int),
        r is None ==> epoch_day_of(year as int, month as int, day as int) is None,
        (1 <= year <= 10000 && 1 <= month <= 12 && 1 <= day <= 28) ==> r is Some,
        r is Some && 1 <= year ==> MIN_DAY <= r.unwrap(),
{
    match chrono::NaiveDate::from_ymd_opt(year, month, day) {
        Some(d) => Some(d.to_epoch_days()),
        None => None,
    }
}

/// Relies on chrono's `Datelike::year`: the year in which a day falls; the
/// days the library handles lie in the years 1 to 9999.
#[verifier::external_body]
pub(crate) fn chrono_year(days: i32) -> (r: i32)
    requires
        MIN_DAY <= days <= MAX_DAY,
    ensures
        r == year_of(days as int),
        1 <= r <= 9999,
{
    chrono::NaiveDate::from_epoch_days(days).expect("a day in range").year()
}

/// Relies on chrono's `Datelike::month`: the month, 1 to 12, in which a day falls.
#[verifier::external_body]
pub(crate) fn chrono_month(days: i32) -> (r: u32)
    requires
        MIN_DAY <= days <= MAX_DAY,
    ensures
        r == month_of(days as int),
        1 <= r <= 12,
{
    chrono::NaiveDate::from_epoch_days(days).expect("a day in range").month()
}

/// Relies on chrono's `NaiveWeek::checked_first_day` for a week that starts
/// on Monday: the Monday on or before a day (1970-01-01 was a Thursday).
#[verifier::external_body]
pub(crate) fn chrono_week_first_day(days: i32) -> (r: i32)
    requires
        MIN_DAY <= days <= MAX_DAY,
    ensures
        r == days - days_since_monday(days as int),
{
    let date = chrono::NaiveDate::from_epoch_days(days).expect("a day in range");
    date.week(chrono::Weekday::Mon).checked_first_day().expect("a Monday in range").to_epoch_days()
}

/// Relies on chrono's `NaiveWeek::checked_last_day` for a week that starts
/// on Monday: the Sunday on or after a day.
#[verifier::external_body]
pub(crate) fn chrono_week_last_day(days: i32) -> (r: i32)
    requires
        MIN_DAY <= days <= MAX_DAY,
    ensures
        r == days - days_since_monday(days as int) + 6,
{
    let date = chrono::NaiveDate::from_epoch_days(days).expect("a day in range");
    date.week(chrono::Weekday::Mon).checked_last_day().expect("a Sunday in range").to_epoch_days()
}

/// Relies on chrono's `Utc::now` and `to_epoch_days`: the current day by the
/// machine's clock, in UTC. Nothing is known of its value.
#[verifier::external_body]
pub(crate) fn clock_today() -> (r: i32) {
    chrono::Utc::now().date_naive().to_epoch_days()
}

/// The day with this number, where it lies in the years the library handles.
pub fn date_in_range(days: i32) -> (r: Option<Date>)
    ensures
        r is Some <==> MIN_DAY <= days <= MAX_DAY,
        r is Some ==> r.unwrap().days == days,
{
    if MIN_DAY <= days && days <= MAX_DAY {
        Some(Date { days })
    } else {
        None
    }
}

/// Today by the machine's clock, where it lies in the years the library
/// handles. The clock decides which day that is; the result is exactly
/// `date_in_range` of it.
pub fn today() -> (r: Option<Date>)
    ensures
        r is Some ==> r.unwrap().wf(),
{
    date_in_range(clock_today())
}

} // verus!
