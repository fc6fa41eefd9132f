//! Turning a period selector or an explicit pair of dates into a window of
//! whole days, and that window into inclusive instants.

use crate::calendar::{
    Date, chrono_month, chrono_week_first_day, chrono_week_last_day, chrono_year, day_last_second,
    day_start, days_since_monday, MICROS_PER_DAY, MICROS_PER_SECOND, epoch_day_of, month_of, year_of,
};
use crate::error::ServiceError;
use vstd::prelude::*;

verus! {

/// The query of an analytics request: a named period, or two explicit dates.
#[derive(Debug, Clone)]
pub struct AnalyticsQueryPeriod {
    pub period: Option<String>,
    pub start_date: Option<Date>,
    pub end_date: Option<Date>,
}

/// The named periods that a caller may select.
#[derive(Debug, Clone, Copy, PartialEq, Eq, Structural)]
pub enum Period {
    ThisWeek,
    Last7Days,
    ThisMonth,
    Last30Days,
}

/// The period that a selector names, if it names one.
pub open spec fn period_named(s: Seq<char>) -> Option<Period> {
    if s == "this_week"@ {
        Some(Period::ThisWeek)
    } else if s == "last_7_days"@ {
        Some(Period::Last7Days)
    } else if s == "this_month"@ {
        Some(Period::ThisMonth)
    } else if s == "last_30_days"@ {
        Some(Period::Last30Days)
    } else {
        None
    }
}

/// The month after a year and month.
pub open spec fn next_month(year: int, month: int) -> (int, int) {
    if month == 12 {
        (year + 1, 1)
    } else {
        (year, month + 1)
    }
}

/// The first and last day of a named period, for a given today.
pub open spec fn period_days(p: Period, today: int) -> (int, int) {
    match p {
        Period::ThisWeek => {
            let monday = today - days_since_monday(today);
            (monday, monday + 6)
        },
        Period::Last7Days => (today - 6, today),
        Period::ThisMonth => {
            let (y, m) = (year_of(today), month_of(today));
            let next = next_month(y, m);
            (epoch_day_of(y, m, 1).unwrap(), epoch_day_of(next.0, next.1, 1).unwrap() - 1)
        },
        Period::Last30Days => (today - 29, today),
    }
}

/// The window that a query resolves to on a given today, or none where the
/// query is refused: explicit dates in the wrong order, or an unknown selector.
/// Explicit dates win over a selector; no selector means this week.
pub open spec fn resolved_days(
    period: Option<Seq<char>>,
    start: Option<Date>,
    end: Option<Date>,
    today: int,
) -> Option<(int, int)> {
    if start is Some && end is Some {
        if start.unwrap().days > end.unwrap().days {
            None
        } else {
            Some((start.unwrap().days as int, end.unwrap().days as int))
        }
    } else {
        match period {
            None => Some(period_days(Period::ThisWeek, today)),
            Some(s) => match period_named(s) {
                Some(p) => Some(period_days(p, today)),
                None => None,
            },
        }
    }
}

/// The message of a refused query: the dates are in the wrong order, or the
/// selector, named in the message, is not one of the four.
pub open spec fn range_error_text(period: Option<Seq<char>>, start: Option<Date>, end: Option<Date>) -> Seq<
    char,
> {
    if start is Some && end is Some {
        "start_date cannot be after end_date"@
    } else {
        invalid_period_text(period.unwrap())
    }
}

/// The message for an unknown selector, which it names.
pub open spec fn invalid_period_text(s: Seq<char>) -> Seq<char> {
    "Invalid period specified: "@ + s
        + ". Supported: this_week, last_7_days, this_month, last_30_days or provide start_date & end_date."@
}

impl AnalyticsQueryPeriod {
    pub open spec fn spec_period(&self) -> Option<Seq<char>> {
        match self.period {
            Some(s) => Some(s@),
            None => None,
        }
    }
}

/// The period a selector names.
pub fn parse_period(s: &String) -> (r: Option<Period>)
    ensures
        r == period_named(s@),
{
    if *s == String::from_str("this_week") {
        Some(Period::ThisWeek)
    } else if *s == String::from_str("last_7_days") {
        Some(Period::Last7Days)
    } else if *s == String::from_str("this_month") {
        Some(Period::ThisMonth)
    } else if *s == String::from_str("last_30_days") {
        Some(Period::Last30Days)
    } else {
        None
    }
}

/// The first and last day of a named period, for a given today.
pub fn period_range(p: Period, today: Date) -> (r: (Date, Date))
    requires
        today.wf(),
    ensures
        r.0.days == period_days(p, today.days as int).0,
        r.1.days == period_days(p, today.days as int).1,
{
    match p {
        Period::ThisWeek => (
            Date { days: chrono_week_first_day(today.days) },
            Date { days: chrono_week_last_day(today.days) },
        ),
        Period::Last7Days => (Date { days: today.days - 6 }, today),
        Period::ThisMonth => {
            let year = chrono_year(today.days);
            let month = chrono_month(today.days);
            let (ny, nm): (i32, u32) = if month == 12 {
                (year + 1, 1)
            } else {
                (year, month + 1)
            };
            let first = Date::from_ymd(year, month, 1).unwrap();
            let next_first = Date::from_ymd(ny, nm, 1).unwrap();
            (first, Date { days: next_first.days - 1 })
        },
        Period::Last30Days => (Date { days: today.days - 29 }, today),
    }
}

/// Resolves a query to its first and last day, on a given today.
pub fn calculate_date_range(q: &AnalyticsQueryPeriod, today: Date) -> (r: Result<
    (Date, Date),
    ServiceError,
>)
    requires
        today.wf(),
    ensures
        match resolved_days(q.spec_period(), q.start_date, q.end_date, today.days as int) {
            Some(w) => r is Ok && r.unwrap().0.days == w.0 && r.unwrap().1.days == w.1,
            None => r is Err && r->Err_0 is BadRequest && r->Err_0->BadRequest_0@ == range_error_text(
                q.spec_period(),
                q.start_date,
                q.end_date,
            ),
        },
{
    if let (Some(start), Some(end)) = (q.start_date, q.end_date) {
        if start.days > end.days {
            return Err(
                ServiceError::BadRequest(String::from_str("start_date cannot be after end_date")),
            );
        }
        return Ok((start, end));
    }
    match &q.period {
        None => Ok(period_range(Period::ThisWeek, today)),
        Some(s) => match parse_period(s) {
            Some(p) => Ok(period_range(p, today)),
            None => {
                let msg = String::from_str("Invalid period specified: ").concat(s.as_str()).concat(
                    ". Supported: this_week, last_7_days, this_month, last_30_days or provide start_date & end_date.",
                );
                Err(ServiceError::BadRequest(msg))
            },
        },
    }
}

/// An instant held to the range of instants the library stores. Every stored
/// instant lies in that range, so a bound held to it selects the same instants.
pub open spec fn clamp_instant(t: int) -> i64 {
    if t < i64::MIN {
        i64::MIN
    } else if t > i64::MAX {
        i64::MAX
    } else {
        t as i64
    }
}

fn clamp_i128(t: i128) -> (r: i64)
    ensures
        r == clamp_instant(t as int),
{
    if t < i64::MIN as i128 {
        i64::MIN
    } else if t > i64::MAX as i128 {
        i64::MAX
    } else {
        t as i64
    }
}

/// Widens a window of days to instants: from 00:00:00 on its first day to
/// 23:59:59 on its last, so that anything during the last day is inside.
pub fn window_bounds(range: (Date, Date)) -> (r: (i64, i64))
    ensures
        r.0 == clamp_instant(day_start(range.0.days as int)),
        r.1 == clamp_instant(day_last_second(range.1.days as int)),
{
    let first: i128 = range.0.days as i128 * MICROS_PER_DAY as i128;
    let last: i128 = range.1.days as i128 * MICROS_PER_DAY as i128 + 86_399 * MICROS_PER_SECOND as i128;
    (clamp_i128(first), clamp_i128(last))
}

} // verus!
