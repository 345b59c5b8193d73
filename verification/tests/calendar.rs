use chrono::{DateTime, Datelike, NaiveDate, Weekday};
use organizer::calendar::{CivilDate, MAX_YEAR, MIN_YEAR};

fn date(year: i32, month: u32, day: u32) -> CivilDate {
    CivilDate::new(year, month, day).unwrap()
}

fn parts(date: &CivilDate) -> (i32, u32, u32) {
    (date.year(), date.month(), date.day())
}

#[test]
fn new_keeps_year_month_and_day() {
    let d = date(2024, 3, 6);
    assert_eq!(parts(&d), (2024, 3, 6));
}

#[test]
fn new_takes_the_last_day_of_each_month() {
    let lengths = [31, 28, 31, 30, 31, 30, 31, 31, 30, 31, 30, 31];
    for (i, length) in lengths.iter().enumerate() {
        let month = i as u32 + 1;
        assert!(CivilDate::new(2023, month, *length).is_some());
        assert!(CivilDate::new(2023, month, *length + 1).is_none());
    }
}

#[test]
fn new_knows_leap_years() {
    assert!(CivilDate::new(2024, 2, 29).is_some());
    assert!(CivilDate::new(2023, 2, 29).is_none());
    assert!(CivilDate::new(1900, 2, 29).is_none());
    assert!(CivilDate::new(2000, 2, 29).is_some());
    assert!(CivilDate::new(0, 2, 29).is_some());
    assert!(CivilDate::new(-4, 2, 29).is_some());
    assert!(CivilDate::new(-1, 2, 29).is_none());
    assert!(CivilDate::new(-100, 2, 29).is_none());
    assert!(CivilDate::new(-400, 2, 29).is_some());
    assert!(CivilDate::new(2024, 2, 30).is_none());
}

#[test]
fn new_rejects_months_and_days_out_of_range() {
    assert!(CivilDate::new(2024, 0, 1).is_none());
    assert!(CivilDate::new(2024, 13, 1).is_none());
    assert!(CivilDate::new(2024, 1, 0).is_none());
    assert!(CivilDate::new(2024, 1, 32).is_none());
    assert!(CivilDate::new(2024, 4, 31).is_none());
    assert!(CivilDate::new(2024, u32::MAX, 1).is_none());
    assert!(CivilDate::new(2024, 1, u32::MAX).is_none());
}

#[test]
fn new_rejects_years_outside_the_calendar() {
    assert_eq!(MIN_YEAR, -262_143);
    assert_eq!(MAX_YEAR, 262_142);
    assert!(CivilDate::new(MIN_YEAR, 1, 1).is_some());
    assert!(CivilDate::new(MIN_YEAR - 1, 12, 31).is_none());
    assert!(CivilDate::new(MAX_YEAR, 12, 31).is_some());
    assert!(CivilDate::new(MAX_YEAR + 1, 1, 1).is_none());
    assert!(CivilDate::new(i32::MIN, 1, 1).is_none());
    assert!(CivilDate::new(i32::MAX, 1, 1).is_none());
}

#[test]
fn new_accepts_what_the_calendar_crate_accepts() {
    let years = [MIN_YEAR - 1, MIN_YEAR, -401, -400, -100, -4, -1, 0, 1, 4, 100, 1900, 2000, 2023,
        2024, MAX_YEAR, MAX_YEAR + 1];
    for year in years {
        for month in 0..=13u32 {
            for day in 0..=32u32 {
                assert_eq!(
                    CivilDate::new(year, month, day).is_some(),
                    NaiveDate::from_ymd_opt(year, month, day).is_some(),
                    "{year}-{month}-{day}"
                );
            }
        }
    }
}

#[test]
fn week_start_of_each_weekday_is_the_sunday_before() {
    for since in 0..7u32 {
        let sunday = date(2024, 3, 3 + since).week_start().unwrap();
        assert_eq!(parts(&sunday), (2024, 3, 3), "{since} days after Sunday");
    }
}

#[test]
fn week_start_of_a_sunday_is_the_day_itself() {
    for (year, month, day) in [(2024, 3, 3), (2023, 12, 31), (1969, 12, 28), (2000, 2, 27)] {
        let sunday = date(year, month, day);
        assert_eq!(parts(&sunday.week_start().unwrap()), (year, month, day));
    }
}

#[test]
fn week_start_may_lie_in_the_month_or_year_before() {
    assert_eq!(parts(&date(2024, 3, 1).week_start().unwrap()), (2024, 2, 25));
    assert_eq!(parts(&date(2024, 1, 2).week_start().unwrap()), (2023, 12, 31));
    assert_eq!(parts(&date(2025, 1, 1).week_start().unwrap()), (2024, 12, 29));
    assert_eq!(parts(&date(1970, 1, 1).week_start().unwrap()), (1969, 12, 28));
    assert_eq!(parts(&date(2023, 3, 4).week_start().unwrap()), (2023, 2, 26));
    assert_eq!(parts(&date(2024, 3, 2).week_start().unwrap()), (2024, 2, 25));
    assert_eq!(parts(&date(0, 1, 1).week_start().unwrap()), (-1, 12, 26));
}

#[test]
fn week_start_ends_where_the_calendar_does() {
    // The first day of the calendar is a Thursday: its Sunday is out of reach.
    assert!(date(MIN_YEAR, 1, 1).week_start().is_none());
    assert!(date(MIN_YEAR, 1, 3).week_start().is_none());
    // The first Sunday of the calendar, and the days of its week.
    assert_eq!(parts(&date(MIN_YEAR, 1, 4).week_start().unwrap()), (MIN_YEAR, 1, 4));
    assert_eq!(parts(&date(MIN_YEAR, 1, 10).week_start().unwrap()), (MIN_YEAR, 1, 4));
    // Every later year is reached.
    assert_eq!(
        parts(&date(MIN_YEAR + 1, 1, 1).week_start().unwrap()),
        (MIN_YEAR, 12, 27)
    );
    assert_eq!(
        parts(&date(MAX_YEAR, 12, 31).week_start().unwrap()),
        (MAX_YEAR, 12, 30)
    );
}

#[test]
fn week_start_is_a_sunday_at_most_six_days_back() {
    let mut day = NaiveDate::from_ymd_opt(2023, 12, 20).unwrap();
    for _ in 0..400 {
        let d = date(day.year(), day.month(), day.day());
        let sunday = d.week_start().unwrap();
        let found = NaiveDate::from_ymd_opt(sunday.year(), sunday.month(), sunday.day()).unwrap();
        assert_eq!(found.weekday(), Weekday::Sun);
        let back = (day - found).num_days();
        assert!((0..=6).contains(&back));
        assert_eq!(parts(&sunday.week_start().unwrap()), parts(&sunday));
        day = day.succ_opt().unwrap();
    }
}

#[test]
fn local_is_the_date_in_utc_without_an_offset() {
    assert_eq!(parts(&CivilDate::local(0, 0).unwrap()), (1970, 1, 1));
    assert_eq!(parts(&CivilDate::local(86_399, 0).unwrap()), (1970, 1, 1));
    assert_eq!(parts(&CivilDate::local(86_400, 0).unwrap()), (1970, 1, 2));
    assert_eq!(parts(&CivilDate::local(-1, 0).unwrap()), (1969, 12, 31));
    assert_eq!(parts(&CivilDate::local(1_709_424_000, 0).unwrap()), (2024, 3, 3));
    assert_eq!(parts(&CivilDate::local(1_709_251_199, 0).unwrap()), (2024, 2, 29));
    assert_eq!(parts(&CivilDate::local(946_684_799, 0).unwrap()), (1999, 12, 31));
}

#[test]
fn local_shifts_by_the_offset() {
    // Midnight UTC on 2024-03-03.
    let midnight = 1_709_424_000;
    assert_eq!(parts(&CivilDate::local(midnight, -1).unwrap()), (2024, 3, 2));
    assert_eq!(parts(&CivilDate::local(midnight, -5 * 3600).unwrap()), (2024, 3, 2));
    assert_eq!(parts(&CivilDate::local(midnight, 5 * 3600).unwrap()), (2024, 3, 3));
    assert_eq!(parts(&CivilDate::local(midnight - 1, 1).unwrap()), (2024, 3, 3));
    assert_eq!(parts(&CivilDate::local(midnight - 1, 0).unwrap()), (2024, 3, 2));
    assert_eq!(parts(&CivilDate::local(midnight + 86_399, 1).unwrap()), (2024, 3, 4));
    assert_eq!(parts(&CivilDate::local(0, -86_399).unwrap()), (1969, 12, 31));
    assert_eq!(parts(&CivilDate::local(0, 86_399).unwrap()), (1970, 1, 1));
    assert_eq!(parts(&CivilDate::local(1, 86_399).unwrap()), (1970, 1, 2));
}

#[test]
fn local_reaches_as_far_as_the_calendar() {
    let first = -8_334_601_228_800;
    let last = 8_210_266_876_799;
    assert_eq!(parts(&CivilDate::local(first, 0).unwrap()), (MIN_YEAR, 1, 1));
    assert!(CivilDate::local(first - 1, 0).is_none());
    assert!(CivilDate::local(first, -1).is_none());
    assert_eq!(parts(&CivilDate::local(first - 1, 1).unwrap()), (MIN_YEAR, 1, 1));
    assert_eq!(parts(&CivilDate::local(last, 0).unwrap()), (MAX_YEAR, 12, 31));
    assert!(CivilDate::local(last + 1, 0).is_none());
    assert!(CivilDate::local(last, 1).is_none());
    assert_eq!(parts(&CivilDate::local(last + 1, -1).unwrap()), (MAX_YEAR, 12, 31));
}

#[test]
fn local_is_none_where_the_sum_overflows() {
    assert!(CivilDate::local(i64::MAX, 1).is_none());
    assert!(CivilDate::local(i64::MAX, i32::MAX).is_none());
    assert!(CivilDate::local(i64::MIN, -1).is_none());
    assert!(CivilDate::local(i64::MIN, i32::MIN).is_none());
    assert!(CivilDate::local(i64::MAX, 0).is_none());
    assert!(CivilDate::local(i64::MIN, 0).is_none());
}

#[test]
fn local_agrees_with_the_calendar_crate() {
    let offsets = [-43_200, -18_000, -1, 0, 1, 3_600, 19_800, 50_400];
    let mut seconds: i64 = -2_000_000_000;
    while seconds < 4_000_000_000 {
        for offset in offsets {
            let there = DateTime::from_timestamp(seconds + i64::from(offset), 0).unwrap().date_naive();
            let here = CivilDate::local(seconds, offset).unwrap();
            assert_eq!(parts(&here), (there.year(), there.month(), there.day()));
        }
        seconds += 7_654_321;
    }
}

#[test]
fn earlier_by_no_days_is_the_date_itself() {
    for (year, month, day) in [(2024, 3, 6), (MIN_YEAR, 1, 1), (MAX_YEAR, 12, 31), (0, 1, 1)] {
        assert_eq!(parts(&date(year, month, day).earlier(0).unwrap()), (year, month, day));
    }
}

#[test]
fn earlier_counts_days_back() {
    assert_eq!(parts(&date(2024, 3, 6).earlier(1).unwrap()), (2024, 3, 5));
    assert_eq!(parts(&date(2024, 3, 6).earlier(3).unwrap()), (2024, 3, 3));
    assert_eq!(parts(&date(2024, 3, 6).earlier(6).unwrap()), (2024, 2, 29));
    assert_eq!(parts(&date(2023, 3, 6).earlier(6).unwrap()), (2023, 2, 28));
    assert_eq!(parts(&date(2024, 1, 1).earlier(1).unwrap()), (2023, 12, 31));
    assert_eq!(parts(&date(2024, 3, 6).earlier(366).unwrap()), (2023, 3, 6));
    assert_eq!(parts(&date(1, 1, 1).earlier(1).unwrap()), (0, 12, 31));
}

#[test]
fn earlier_ends_where_the_calendar_does() {
    assert!(date(MIN_YEAR, 1, 1).earlier(1).is_none());
    assert!(date(MIN_YEAR, 1, 7).earlier(7).is_none());
    assert_eq!(parts(&date(MIN_YEAR, 1, 7).earlier(6).unwrap()), (MIN_YEAR, 1, 1));
    assert_eq!(parts(&date(MIN_YEAR + 1, 1, 1).earlier(6).unwrap()), (MIN_YEAR, 12, 26));
    assert!(date(2024, 3, 6).earlier(u32::MAX).is_none());
    assert!(date(MAX_YEAR, 12, 31).earlier(u32::MAX).is_none());
}
