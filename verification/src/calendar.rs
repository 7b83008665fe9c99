//! Calendar dates of the proleptic Gregorian calendar, as `chrono::NaiveDate` knows them.
//!
//! The library holds a date as three plain integers; every computation that `chrono`
//! performs on a date (validation, the next and previous day, the weekday, ISO text,
//! parsing) is a call into `chrono` whose contract is stated here.

use chrono::Datelike;
use vstd::prelude::*;
use crate::text::{spec_decimal};

verus! {

/// A calendar day: year, month `1..=12`, day of month.
#[derive(Clone, Copy, PartialEq, Eq, Structural, Debug)]
pub struct CalendarDate {
    pub year: i32,
    pub month: u32,
    pub day: u32,
}

/// The first year `chrono::NaiveDate` can hold.
pub const MIN_DATE_YEAR: i32 = -262143;

/// The last year `chrono::NaiveDate` can hold.
pub const MAX_DATE_YEAR: i32 = 262142;

/// Gregorian leap years (years before 1 count astronomically: year 0 is 1 BCE).
pub open spec fn is_leap_year(y: int) -> bool {
    (y % 4 == 0 && y % 100 != 0) || y % 400 == 0
}

/// Number of days of month `m` in year `y`.
pub open spec fn month_days(y: int, m: int) -> int {
    if m == 2 {
        if is_leap_year(y) { 29 } else { 28 }
    } else if m == 4 || m == 6 || m == 9 || m == 11 {
        30
    } else {
        31
    }
}

/// A day that exists and that `chrono::NaiveDate` can represent.
pub open spec fn is_valid_date(y: int, m: int, d: int) -> bool {
    &&& MIN_DATE_YEAR <= y <= MAX_DATE_YEAR
    &&& 1 <= m <= 12
    &&& 1 <= d <= month_days(y, m)
}

/// The date with the given fields, if it is valid.
pub open spec fn date_of(y: int, m: int, d: int) -> Option<CalendarDate> {
    if is_valid_date(y, m, d) {
        Some(CalendarDate { year: y as i32, month: m as u32, day: d as u32 })
    } else {
        None
    }
}

impl CalendarDate {
    /// The fields name a representable day.
    pub open spec fn wf(self) -> bool {
        is_valid_date(self.year as int, self.month as int, self.day as int)
    }
}

/// The following day, unless `date` is the last representable one.
pub open spec fn next_day(date: CalendarDate) -> Option<CalendarDate> {
    let (y, m, d) = (date.year as int, date.month as int, date.day as int);
    if d < month_days(y, m) {
        date_of(y, m, d + 1)
    } else if m < 12 {
        date_of(y, m + 1, 1)
    } else {
        date_of(y + 1, 1, 1)
    }
}

/// The preceding day, unless `date` is the first representable one.
pub open spec fn prev_day(date: CalendarDate) -> Option<CalendarDate> {
    let (y, m, d) = (date.year as int, date.month as int, date.day as int);
    if d > 1 {
        date_of(y, m, d - 1)
    } else if m > 1 {
        date_of(y, m - 1, month_days(y, m - 1))
    } else {
        date_of(y - 1, 12, 31)
    }
}

/// Days since 1970-01-01 (negative before it), by the civil-calendar day count.
pub open spec fn day_number(y: int, m: int, d: int) -> int {
    let yy = if m <= 2 { y - 1 } else { y };
    let era = yy / 400;
    let yoe = yy - era * 400;
    let mp = if m > 2 { m - 3 } else { m + 9 };
    let doy = (153 * mp + 2) / 5 + d - 1;
    let doe = yoe * 365 + yoe / 4 - yoe / 100 + doy;
    era * 146097 + doe - 719468
}

/// Day of the week counted from Monday (Monday is 0, Sunday is 6); 1970-01-01 was a Thursday.
pub open spec fn weekday_index(date: CalendarDate) -> int {
    (day_number(date.year as int, date.month as int, date.day as int) + 3) % 7
}

/// `n` in decimal, left-padded with zeros to at least `width` digits.
pub open spec fn zero_padded(n: nat, width: nat) -> Seq<char> {
    let digits = spec_decimal(n);
    if digits.len() < width {
        Seq::new((width - digits.len()) as nat, |i: int| '0') + digits
    } else {
        digits
    }
}

/// ISO 8601 text of a date: `YYYY-MM-DD`, with an explicit sign and at least four year
/// digits for years outside `0..=9999`.
pub open spec fn date_text(date: CalendarDate) -> Seq<char> {
    let y = date.year as int;
    let year_part = if 0 <= y <= 9999 {
        zero_padded(y as nat, 4)
    } else if y < 0 {
        seq!['-'] + zero_padded((-y) as nat, 4)
    } else {
        seq!['+'] + zero_padded(y as nat, 4)
    };
    year_part + seq!['-'] + zero_padded(date.month as nat, 2) + seq!['-'] + zero_padded(
        date.day as nat,
        2,
    )
}

/// Türkiye's offset from UTC, in seconds: UTC+3 all year round (no daylight saving since
/// 2016).
pub const ISTANBUL_OFFSET_SECS: i64 = 10800;

/// The day of a UTC instant given in seconds since 1970-01-01 00:00 UTC:
/// `DateTime::<Utc>::from_timestamp(secs, 0)` read with `date_naive`. chrono counts whole
/// days since 1970-01-01, rounding down, so the day is the one whose day number is
/// `secs / 86400` (floor division); there is none exactly when that day falls outside the
/// years chrono represents.
#[verifier::external_body]
pub fn utc_date(unix_secs: i64) -> (r: Option<CalendarDate>)
    ensures
        r matches Some(d) ==> d.wf() && day_number(d.year as int, d.month as int, d.day as int)
            == unix_secs as int / 86400,
        r is Some <==> day_number(MIN_DATE_YEAR as int, 1, 1) <= unix_secs as int / 86400 <= day_number(
            MAX_DATE_YEAR as int,
            12,
            31,
        ),
{
    match chrono::DateTime::from_timestamp(unix_secs, 0) {
        Some(t) => {
            let d = t.date_naive();
            Some(CalendarDate { year: d.year(), month: d.month(), day: d.day() })
        },
        None => None,
    }
}

/// The day in Türkiye (Europe/Istanbul, UTC+3) at an instant given in seconds since the
/// Unix epoch: the UTC day of the instant three hours later, whatever the server's own
/// time zone. No day for an instant too far out for chrono.
pub fn istanbul_date(unix_secs: i64) -> (r: Option<CalendarDate>)
    ensures
        r matches Some(d) ==> d.wf() && day_number(d.year as int, d.month as int, d.day as int)
            == (unix_secs + ISTANBUL_OFFSET_SECS) / 86400,
        r is Some <==> unix_secs + ISTANBUL_OFFSET_SECS <= i64::MAX && day_number(MIN_DATE_YEAR as int, 1, 1)
            <= (unix_secs + ISTANBUL_OFFSET_SECS) / 86400 <= day_number(MAX_DATE_YEAR as int, 12, 31),
{
    match unix_secs.checked_add(ISTANBUL_OFFSET_SECS) {
        Some(shifted) => utc_date(shifted),
        None => None,
    }
}

/// `NaiveDate::from_ymd_opt`: the date, when the day exists and the year is in range.
#[verifier::external_body]
pub fn date_from_ymd(year: i32, month: u32, day: u32) -> (r: Option<CalendarDate>)
    ensures
        r == date_of(year as int, month as int, day as int),
{
    match chrono::NaiveDate::from_ymd_opt(year, month, day) {
        Some(d) => Some(CalendarDate { year: d.year(), month: d.month(), day: d.day() }),
        None => None,
    }
}

/// `NaiveDate::succ_opt`: the following day, `None` after the last representable day.
#[verifier::external_body]
pub fn date_succ(date: CalendarDate) -> (r: Option<CalendarDate>)
    requires
        date.wf(),
    ensures
        r == next_day(date),
{
    match chrono::NaiveDate::from_ymd_opt(date.year, date.month, date.day) {
        Some(d) => match d.succ_opt() {
            Some(n) => Some(CalendarDate { year: n.year(), month: n.month(), day: n.day() }),
            None => None,
        },
        None => None,
    }
}

/// `NaiveDate::pred_opt`: the preceding day, `None` before the first representable day.
#[verifier::external_body]
pub fn date_pred(date: CalendarDate) -> (r: Option<CalendarDate>)
    requires
        date.wf(),
    ensures
        r == prev_day(date),
{
    match chrono::NaiveDate::from_ymd_opt(date.year, date.month, date.day) {
        Some(d) => match d.pred_opt() {
            Some(p) => Some(CalendarDate { year: p.year(), month: p.month(), day: p.day() }),
            None => None,
        },
        None => None,
    }
}

/// `Weekday::num_days_from_monday` of `NaiveDate::weekday`: Monday is 0, Sunday is 6.
#[verifier::external_body]
pub fn weekday_from_monday(date: CalendarDate) -> (r: u32)
    requires
        date.wf(),
    ensures
        r == weekday_index(date),
{
    match chrono::NaiveDate::from_ymd_opt(date.year, date.month, date.day) {
        Some(d) => d.weekday().num_days_from_monday(),
        None => 0,
    }
}

/// `Display` for `NaiveDate`: the ISO 8601 text `YYYY-MM-DD`.
#[verifier::external_body]
pub fn format_date(date: CalendarDate) -> (r: String)
    requires
        date.wf(),
    ensures
        r@ == date_text(date),
{
    match chrono::NaiveDate::from_ymd_opt(date.year, date.month, date.day) {
        Some(d) => d.to_string(),
        None => String::new(),
    }
}

/// What `NaiveDate::parse_from_str(text, format)` yields, as year, month and day; `None`
/// where it returns an error.
pub uninterp spec fn parsed_date(text: Seq<char>, format: Seq<char>) -> Option<(i32, u32, u32)>;

/// The library's date for a parse result.
pub open spec fn date_of_parse(p: Option<(i32, u32, u32)>) -> Option<CalendarDate> {
    match p {
        Some((y, m, d)) => Some(CalendarDate { year: y, month: m, day: d }),
        None => None,
    }
}

/// `NaiveDate::parse_from_str`: the date that `text` spells in the strftime-style `format`.
/// Its result is named by `parsed_date`; whatever it returns is a valid `NaiveDate`.
#[verifier::external_body]
pub fn parse_date(text: &str, format: &str) -> (r: Option<CalendarDate>)
    ensures
        r == date_of_parse(parsed_date(text@, format@)),
        r matches Some(d) ==> d.wf(),
{
    match chrono::NaiveDate::parse_from_str(text, format) {
        Ok(d) => Some(CalendarDate { year: d.year(), month: d.month(), day: d.day() }),
        Err(_) => None,
    }
}

} // verus!
