use vstd::prelude::*;

use chrono::{Datelike, NaiveDate};


verus! {

/// Earliest year a calendar date may have (that of chrono's `NaiveDate::MIN`).
pub const MIN_YEAR: i32 = -262143;

/// Latest year a calendar date may have (that of chrono's `NaiveDate::MAX`).
pub const MAX_YEAR: i32 = 262142;

/// A day of the proleptic Gregorian calendar.
#[derive(Debug, Clone, Copy, PartialEq, Eq, Structural)]
pub struct CalendarDate {
    pub year: i32,
    pub month: u32,
    pub day: u32,
}

/// Gregorian leap years: divisible by 4, except centuries not divisible by 400.
pub open spec fn is_leap_year(y: int) -> bool {
    y % 4 == 0 && (y % 100 != 0 || y % 400 == 0)
}

/// The number of days of month `m` (1 to 12) of year `y`.
pub open spec fn days_in_month_spec(y: int, m: int) -> int {
    if m == 2 {
        if is_leap_year(y) {
            29
        } else {
            28
        }
    } else if m == 4 || m == 6 || m == 9 || m == 11 {
        30
    } else {
        31
    }
}

/// Whether `(y, m, d)` names a day of the calendar within the supported years.
pub open spec fn valid_ymd(y: int, m: int, d: int) -> bool {
    &&& MIN_YEAR <= y <= MAX_YEAR
    &&& 1 <= m <= 12
    &&& 1 <= d <= days_in_month_spec(y, m)
}

/// The day of the month of the day before `(y, m, d)`.
pub open spec fn previous_day_of_month(y: int, m: int, d: int) -> int {
    if d > 1 {
        d - 1
    } else if m > 1 {
        days_in_month_spec(y, m - 1)
    } else {
        days_in_month_spec(y - 1, 12)
    }
}

/// The number of days from 1970-01-01 to the proleptic Gregorian date
/// `(y, m, d)` (negative before it), counting in eras of 400 years from March.
pub open spec fn days_from_civil(y: int, m: int, d: int) -> int {
    let yy = if m <= 2 { y - 1 } else { y };
    let era = yy / 400;
    let yoe = yy - era * 400;
    let mp = if m > 2 { m - 3 } else { m + 9 };
    let doy = (153 * mp + 2) / 5 + d - 1;
    let doe = yoe * 365 + yoe / 4 - yoe / 100 + doy;
    era * 146097 + doe - 719468
}

/// The day of the week of a date, counted from Monday = 0 (1970-01-01 was a Thursday).
pub open spec fn weekday_of(y: int, m: int, d: int) -> int {
    (days_from_civil(y, m, d) + 3) % 7
}

/// A month has as many days as lie between its first day and the first day
/// of the next month, so the calendar's month lengths and its day count agree
/// (and with them the leap years).
pub proof fn lemma_month_length_is_day_count(y: int, m: int)
    requires
        1 <= m <= 12,
    ensures
        days_from_civil(y, m, 1) + days_in_month_spec(y, m) == (if m == 12 {
            days_from_civil(y + 1, 1, 1)
        } else {
            days_from_civil(y, m + 1, 1)
        }),
{
    if m == 2 {
        let r = y % 400;
        let e = y / 400;
        assert(y == 400 * e + r && 0 <= r < 400);
        if r >= 1 {
            assert((y - 1) / 400 == e && (y - 1) % 400 == r - 1);
        } else {
            assert((y - 1) / 400 == e - 1 && (y - 1) % 400 == 399);
        }
        assert(y % 4 == r % 4 && y % 100 == r % 100);
    }
}

/// Within a month, the day of the week advances by one each day.
pub proof fn lemma_weekday_in_month(y: int, m: int, d: int)
    ensures
        0 <= weekday_of(y, m, d) < 7,
        weekday_of(y, m, d) == (weekday_of(y, m, 1) + d - 1) % 7,
{
    let a = days_from_civil(y, m, 1) + 3;
    assert(days_from_civil(y, m, d) == days_from_civil(y, m, 1) + d - 1);
    assert((a + d - 1) % 7 == (a % 7 + d - 1) % 7) by (nonlinear_arith);
}

/// The date that chrono's `NaiveDate::parse_from_str(s, "%Y-%m-%d")` reads from `s`, if any.
pub uninterp spec fn parsed_iso_date(s: Seq<char>) -> Option<(int, int, int)>;

impl CalendarDate {
    /// The date is a real day of the calendar in the supported years.
    pub open spec fn valid(self) -> bool {
        valid_ymd(self.year as int, self.month as int, self.day as int)
    }

    /// The date `year-month-day`, or `None` when no such day exists.
    pub fn from_ymd_opt(year: i32, month: u32, day: u32) -> (r: Option<Self>)
        ensures
            r is Some <==> valid_ymd(year as int, month as int, day as int),
            r matches Some(d) ==> d == (CalendarDate { year, month, day }),
    {
        if date_exists(year, month, day) {
            Some(CalendarDate { year, month, day })
        } else {
            None
        }
    }

    /// The day of the week, counted from Monday = 0.
    pub fn weekday_from_monday(&self) -> (r: u32)
        requires
            self.valid(),
        ensures
            r == weekday_of(self.year as int, self.month as int, self.day as int),
            r < 7,
            r == (weekday_of(self.year as int, self.month as int, 1) + self.day - 1) % 7,
    {
        proof {
            lemma_weekday_in_month(self.year as int, self.month as int, self.day as int);
        }
        chrono_weekday(self.year, self.month, self.day)
    }

    /// Whether the date falls on a Saturday or a Sunday.
    pub fn is_weekend(&self) -> (r: bool)
        requires
            self.valid(),
        ensures
            r == (weekday_of(self.year as int, self.month as int, self.day as int) >= 5),
            weekday_of(self.year as int, self.month as int, self.day as int) == (weekday_of(
                self.year as int,
                self.month as int,
                1,
            ) + self.day - 1) % 7,
    {
        self.weekday_from_monday() >= 5
    }
}

/// Whether chrono accepts `year-month-day` as a date: `NaiveDate::from_ymd_opt`,
/// which is documented to fail exactly on out-of-range years, invalid months
/// and days that the month does not have.
#[verifier::external_body]
fn date_exists(year: i32, month: u32, day: u32) -> (r: bool)
    ensures
        r == valid_ymd(year as int, month as int, day as int),
{
    NaiveDate::from_ymd_opt(year, month, day).is_some()
}

/// chrono's day of the week of a valid date (`weekday().num_days_from_monday()`):
/// Monday = 0 to Sunday = 6 of the proleptic Gregorian calendar.
#[verifier::external_body]
fn chrono_weekday(year: i32, month: u32, day: u32) -> (r: u32)
    requires
        valid_ymd(year as int, month as int, day as int),
    ensures
        r == weekday_of(year as int, month as int, day as int),
{
    NaiveDate::from_ymd_opt(year, month, day).unwrap().weekday().num_days_from_monday()
}

/// The day of the month of the day before a valid date, through chrono's
/// `NaiveDate - TimeDelta` (one day); the date must not be the first supported day.
#[verifier::external_body]
fn chrono_previous_day(year: i32, month: u32, day: u32) -> (r: u32)
    requires
        valid_ymd(year as int, month as int, day as int),
        !(year == MIN_YEAR && month == 1 && day == 1),
    ensures
        r == previous_day_of_month(year as int, month as int, day as int),
{
    (NaiveDate::from_ymd_opt(year, month, day).unwrap() - chrono::Duration::days(1)).day()
}

/// chrono's reading of `value` with the format `%Y-%m-%d`
/// (`NaiveDate::parse_from_str`), as year, month and day. What it accepts is
/// left to the named result `parsed_iso_date`; a date it returns is a real one.
#[verifier::external_body]
fn chrono_parse_iso_date(value: &str) -> (r: Option<(i32, u32, u32)>)
    ensures
        r matches Some(t) ==> parsed_iso_date(value@) == Some((t.0 as int, t.1 as int, t.2 as int)),
        r is None ==> parsed_iso_date(value@) is None,
        r matches Some(t) ==> valid_ymd(t.0 as int, t.1 as int, t.2 as int),
{
    match NaiveDate::parse_from_str(value, "%Y-%m-%d") {
        Ok(date) => Some((date.year(), date.month(), date.day())),
        Err(_) => None,
    }
}

/// The number of days of a month, found as the day before the first of the next month.
pub fn days_in_month(year: i32, month: u32) -> (r: u32)
    requires
        MIN_YEAR <= year <= MAX_YEAR,
        1 <= month <= 12,
        month == 12 ==> year < MAX_YEAR,
    ensures
        r == days_in_month_spec(year as int, month as int),
        28 <= r <= 31,
{
    if month == 12 {
        chrono_previous_day(year + 1, 1, 1)
    } else {
        chrono_previous_day(year, month + 1, 1)
    }
}

/// The message for a date that is not `YYYY-MM-DD`.
pub open spec fn date_format_error() -> Seq<char> {
    "当天日期格式应为 YYYY-MM-DD"@
}

/// The date written in `value` as `YYYY-MM-DD` (read by chrono).
pub fn parse_date(value: &str) -> (r: Result<CalendarDate, String>)
    ensures
        r is Ok <==> parsed_iso_date(value@) is Some,
        r matches Ok(d) ==> d.valid() && parsed_iso_date(value@) == Some(
            (d.year as int, d.month as int, d.day as int),
        ),
        r matches Err(e) ==> e@ == date_format_error(),
{
    date_from_parsed(chrono_parse_iso_date(value))
}

/// The date for what the date reader returned: the date itself, or the
/// format error when nothing was read.
pub fn date_from_parsed(parsed: Option<(i32, u32, u32)>) -> (r: Result<CalendarDate, String>)
    requires
        parsed matches Some(t) ==> valid_ymd(t.0 as int, t.1 as int, t.2 as int),
    ensures
        r is Ok <==> parsed is Some,
        r matches Ok(d) ==> parsed == Some((d.year, d.month, d.day)) && d.valid(),
        r matches Err(e) ==> e@ == date_format_error(),
{
    match parsed {
        Some((year, month, day)) => Ok(CalendarDate { year, month, day }),
        None => Err("当天日期格式应为 YYYY-MM-DD".to_owned()),
    }
}

} // verus!
