//! Calendar dates of the proleptic Gregorian calendar.

use crate::text::{decimal, fixed_width};
use chrono::{DateTime, Datelike, Days, NaiveDate};
use vstd::prelude::*;

verus! {

/// The first year a [`CivilDate`] can lie in.
pub const MIN_YEAR: i32 = -262_143;

/// The last year a [`CivilDate`] can lie in.
pub const MAX_YEAR: i32 = 262_142;

/// Whether `year` has a 29th of February.
pub open spec fn is_leap_year(year: int) -> bool {
    year % 4 == 0 && (year % 100 != 0 || year % 400 == 0)
}

/// The number of days of `month` in `year`, for `month` from 1 to 12.
pub open spec fn days_in_month(year: int, month: int) -> int {
    if month == 2 {
        if is_leap_year(year) {
            29
        } else {
            28
        }
    } else if month == 4 || month == 6 || month == 9 || month == 11 {
        30
    } else {
        31
    }
}

/// Whether year, month and day name a day of the calendar, in a year between
/// [`MIN_YEAR`] and [`MAX_YEAR`].
pub open spec fn is_date(year: int, month: int, day: int) -> bool {
    &&& MIN_YEAR <= year <= MAX_YEAR
    &&& 1 <= month <= 12
    &&& 1 <= day <= days_in_month(year, month)
}

/// What a [`CivilDate`] stands for: a year, a month from 1 to 12 and a day of
/// that month, counted from 1.
pub struct DateView {
    pub year: int,
    pub month: int,
    pub day: int,
}

/// A day of the calendar.
#[derive(Clone, Copy, Debug)]
pub struct CivilDate {
    year: i32,
    month: u32,
    day: u32,
}

impl View for CivilDate {
    type V = DateView;

    closed spec fn view(&self) -> DateView {
        DateView { year: self.year as int, month: self.month as int, day: self.day as int }
    }
}

/// What an optional date stands for.
pub open spec fn date_view(date: Option<CivilDate>) -> Option<DateView> {
    match date {
        Some(date) => Some(date@),
        None => None,
    }
}

/// The number of days from the last Sunday on or before a date to the date,
/// as chrono counts it: what `num_days_from_sunday` returns for the `weekday`
/// of the `NaiveDate` with this year, month and day.
pub uninterp spec fn days_from_sunday(date: DateView) -> int;

/// The day that lies `days` days before a date, as chrono computes it: what
/// `NaiveDate::checked_sub_days` returns, `None` where that day would lie
/// before the first day chrono can hold.
pub uninterp spec fn days_before(date: DateView, days: int) -> Option<DateView>;

/// The date, in UTC, of the instant `seconds` seconds after the start of
/// 1970, as chrono computes it: the date of what `DateTime::from_timestamp`
/// returns, `None` where chrono cannot hold the instant.
pub uninterp spec fn date_of_unix_seconds(seconds: int) -> Option<DateView>;

/// The day that lies `days` days before a date: the date itself for no days,
/// and none where the calendar does not reach back so far.
pub open spec fn earlier(date: DateView, days: int) -> Option<DateView> {
    if days == 0 {
        Some(date)
    } else {
        days_before(date, days)
    }
}

/// The first day of the week a date lies in, weeks running from Sunday to
/// Saturday: the day as many days before the date as have passed since the
/// last Sunday, which is the date itself if it is a Sunday.
pub open spec fn week_start(date: DateView) -> Option<DateView> {
    earlier(date, days_from_sunday(date))
}

/// The date shown by a clock that runs `utc_offset` seconds ahead of UTC, at
/// the instant `seconds` seconds after the start of 1970.
pub open spec fn local_date(seconds: int, utc_offset: int) -> Option<DateView> {
    if i64::MIN <= seconds + utc_offset <= i64::MAX {
        date_of_unix_seconds(seconds + utc_offset)
    } else {
        None
    }
}

/// The English name of a month, for `month` from 1 to 12.
pub open spec fn month_name(month: int) -> Seq<char> {
    if month == 1 {
        "January"@
    } else if month == 2 {
        "February"@
    } else if month == 3 {
        "March"@
    } else if month == 4 {
        "April"@
    } else if month == 5 {
        "May"@
    } else if month == 6 {
        "June"@
    } else if month == 7 {
        "July"@
    } else if month == 8 {
        "August"@
    } else if month == 9 {
        "September"@
    } else if month == 10 {
        "October"@
    } else if month == 11 {
        "November"@
    } else {
        "December"@
    }
}

/// A year as it is written in a date: with four digits from 0 to 9999, and
/// else with a sign in front of its digits, which are at least four.
pub open spec fn year_numeral(year: int) -> Seq<char> {
    let size = if year < 0 {
        (-year) as nat
    } else {
        year as nat
    };
    let digits = if size < 10_000 {
        fixed_width(size, 4)
    } else {
        decimal(size)
    };
    if year < 0 {
        seq!['-'] + digits
    } else if year > 9999 {
        seq!['+'] + digits
    } else {
        digits
    }
}

/// A date written as year, month and day with hyphens between them, month and
/// day with two digits each: `2024-03-03`.
pub open spec fn iso_date(date: DateView) -> Seq<char> {
    year_numeral(date.year) + seq!['-'] + fixed_width(date.month as nat, 2) + seq!['-']
        + fixed_width(date.day as nat, 2)
}

/// Calls chrono's `Weekday::num_days_from_sunday` on the `Datelike::weekday`
/// of the `NaiveDate` that `NaiveDate::from_ymd_opt` makes of the date.
///
/// Trusted: `from_ymd_opt` accepts every [`CivilDate`]; the result is what
/// [`days_from_sunday`] names, and lies between 0, for a Sunday, and 6, for a
/// Saturday.
#[verifier::external_body]
fn chrono_days_from_sunday(date: &CivilDate) -> (r: u32)
    ensures
        r == days_from_sunday(date@),
        r <= 6,
{
    let day = NaiveDate::from_ymd_opt(date.year, date.month, date.day).unwrap();
    day.weekday().num_days_from_sunday()
}

/// Calls chrono's `NaiveDate::checked_sub_days` on the `NaiveDate` that
/// `NaiveDate::from_ymd_opt` makes of the date, and hands back the year, month
/// and day of the result.
///
/// Trusted: `from_ymd_opt` accepts every [`CivilDate`]; the result is what
/// [`days_before`] names; it is a day of the calendar; and there is one
/// whenever the date lies after [`MIN_YEAR`] and `days` is at most 6, since
/// the day then falls no earlier than the last week of `MIN_YEAR`.
#[verifier::external_body]
fn chrono_days_before(date: &CivilDate, days: u32) -> (r: Option<(i32, u32, u32)>)
    ensures
        match r {
            Some((year, month, day)) => {
                &&& is_date(year as int, month as int, day as int)
                &&& days_before(date@, days as int) == Some(
                    DateView { year: year as int, month: month as int, day: day as int },
                )
            },
            None => days_before(date@, days as int) is None,
        },
        date@.year > MIN_YEAR && days <= 6 ==> r is Some,
{
    let day = NaiveDate::from_ymd_opt(date.year, date.month, date.day).unwrap();
    match day.checked_sub_days(Days::new(u64::from(days))) {
        Some(earlier) => Some((earlier.year(), earlier.month(), earlier.day())),
        None => None,
    }
}

/// Calls chrono's `DateTime::from_timestamp` with no nanoseconds, and hands
/// back the year, month and day of the result's date in UTC.
///
/// Trusted: the result is what [`date_of_unix_seconds`] names, and it is a day
/// of the calendar.
#[verifier::external_body]
fn chrono_date_of_unix_seconds(seconds: i64) -> (r: Option<(i32, u32, u32)>)
    ensures
        match r {
            Some((year, month, day)) => {
                &&& is_date(year as int, month as int, day as int)
                &&& date_of_unix_seconds(seconds as int) == Some(
                    DateView { year: year as int, month: month as int, day: day as int },
                )
            },
            None => date_of_unix_seconds(seconds as int) is None,
        },
{
    match DateTime::from_timestamp(seconds, 0) {
        Some(instant) => {
            let day = instant.naive_utc().date();
            Some((day.year(), day.month(), day.day()))
        },
        None => None,
    }
}

/// Calls chrono's `NaiveDate::format` with `%B` on the `NaiveDate` that
/// `NaiveDate::from_ymd_opt` makes of the date, and makes a string of it.
///
/// Trusted: `from_ymd_opt` accepts every [`CivilDate`], and the result is the
/// full English name of the date's month.
#[verifier::external_body]
pub(crate) fn chrono_month_name(date: &CivilDate) -> (r: String)
    ensures
        r@ == month_name(date@.month),
{
    let day = NaiveDate::from_ymd_opt(date.year, date.month, date.day).unwrap();
    day.format("%B").to_string()
}

/// Calls chrono's `NaiveDate::format` with `%Y-%m-%d` on the `NaiveDate` that
/// `NaiveDate::from_ymd_opt` makes of the date, and makes a string of it.
///
/// Trusted: `from_ymd_opt` accepts every [`CivilDate`], and the result is the
/// year, padded with zeros to four digits and signed outside 0 to 9999, then
/// the month and the day with two digits each, with hyphens between the three.
#[verifier::external_body]
pub(crate) fn chrono_iso_date(date: &CivilDate) -> (r: String)
    ensures
        r@ == iso_date(date@),
{
    let day = NaiveDate::from_ymd_opt(date.year, date.month, date.day).unwrap();
    day.format("%Y-%m-%d").to_string()
}

fn leap_year(year: i32) -> (r: bool)
    ensures
        r == is_leap_year(year as int),
{
    year % 4 == 0 && (year % 100 != 0 || year % 400 == 0)
}

fn month_length(year: i32, month: u32) -> (r: u32)
    ensures
        r == days_in_month(year as int, month as int),
{
    if month == 2 {
        if leap_year(year) {
            29
        } else {
            28
        }
    } else if month == 4 || month == 6 || month == 9 || month == 11 {
        30
    } else {
        31
    }
}

impl CivilDate {
    /// Every `CivilDate` is a day of the calendar.
    #[verifier::type_invariant]
    pub open spec fn is_valid(&self) -> bool {
        is_date(self@.year, self@.month, self@.day)
    }

    /// The date with the given year, month and day, if there is such a day.
    pub fn new(year: i32, month: u32, day: u32) -> (r: Option<CivilDate>)
        ensures
            r is Some <==> is_date(year as int, month as int, day as int),
            r matches Some(date) ==> date@ == (DateView {
                year: year as int,
                month: month as int,
                day: day as int,
            }),
    {
        if MIN_YEAR <= year && year <= MAX_YEAR && 1 <= month && month <= 12 && 1 <= day && day
            <= month_length(year, month) {
            Some(CivilDate { year, month, day })
        } else {
            None
        }
    }

    /// The year of this date.
    pub fn year(&self) -> (r: i32)
        ensures
            r == self@.year,
    {
        self.year
    }

    /// The month of this date, from 1 to 12.
    pub fn month(&self) -> (r: u32)
        ensures
            r == self@.month,
    {
        self.month
    }

    /// The day of the month of this date, from 1.
    pub fn day(&self) -> (r: u32)
        ensures
            r == self@.day,
    {
        self.day
    }

    /// The day `days` days before this one, if the calendar reaches back to
    /// it; it does for up to six days before every date after [`MIN_YEAR`].
    pub fn earlier(&self, days: u32) -> (r: Option<CivilDate>)
        ensures
            date_view(r) == earlier(self@, days as int),
            days == 0 || (days <= 6 && self@.year > MIN_YEAR) ==> r is Some,
    {
        if days == 0 {
            Some(*self)
        } else {
            match chrono_days_before(self, days) {
                Some((year, month, day)) => Some(CivilDate { year, month, day }),
                None => None,
            }
        }
    }

    /// The Sunday that starts the week of this date, if the calendar reaches
    /// back to it; it does for every date after [`MIN_YEAR`].
    pub fn week_start(&self) -> (r: Option<CivilDate>)
        ensures
            date_view(r) == week_start(self@),
            self@.year > MIN_YEAR ==> r is Some,
    {
        self.earlier(chrono_days_from_sunday(self))
    }

    /// The date that a clock `utc_offset` seconds ahead of UTC shows at the
    /// instant `seconds` seconds after the start of 1970, if the calendar
    /// reaches that far.
    pub fn local(seconds: i64, utc_offset: i32) -> (r: Option<CivilDate>)
        ensures
            date_view(r) == local_date(seconds as int, utc_offset as int),
    {
        match seconds.checked_add(utc_offset as i64) {
            Some(shifted) => match chrono_date_of_unix_seconds(shifted) {
                Some((year, month, day)) => Some(CivilDate { year, month, day }),
                None => None,
            },
            None => None,
        }
    }
}

} // verus!
