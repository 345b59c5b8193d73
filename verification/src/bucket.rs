//! The folder a file belongs in, by the day it was last modified.

use crate::calendar::{
    chrono_iso_date, chrono_month_name, days_before, days_from_sunday, iso_date, local_date,
    month_name, week_start, CivilDate, DateView, MIN_YEAR,
};
use crate::text::{decimal_string, signed_decimal};
use vstd::prelude::*;

verus! {

/// The folder of a file below the directory being organised: the folder of
/// its year, in it that of its month, in it that of its week.
#[derive(Debug)]
pub struct BucketPath {
    /// The year of the date, in digits.
    pub year: String,
    /// The English name of the month of the date.
    pub month: String,
    /// `week of` and the Sunday that starts the week of the date.
    pub week: String,
}

/// What a [`BucketPath`] stands for: the names of the three folders.
pub struct BucketPathView {
    pub year: Seq<char>,
    pub month: Seq<char>,
    pub week: Seq<char>,
}

impl View for BucketPath {
    type V = BucketPathView;

    open spec fn view(&self) -> BucketPathView {
        BucketPathView { year: self.year@, month: self.month@, week: self.week@ }
    }
}

impl BucketPathView {
    /// The three folder names from the outermost in.
    pub open spec fn segments(self) -> Seq<Seq<char>> {
        seq![self.year, self.month, self.week]
    }
}

/// The name of the folder of the week that starts on `sunday`.
pub open spec fn week_folder(sunday: DateView) -> Seq<char> {
    "week of "@ + iso_date(sunday)
}

/// The folder for files last modified on `date`. Year and month are those of
/// the date itself; the week is named after the Sunday on or before the date,
/// which may lie in the month or the year before. There is none where the
/// calendar does not reach back to that Sunday.
pub open spec fn bucket_path(date: DateView) -> Option<BucketPathView> {
    match week_start(date) {
        Some(sunday) => Some(
            BucketPathView {
                year: signed_decimal(date.year),
                month: month_name(date.month),
                week: week_folder(sunday),
            },
        ),
        None => None,
    }
}

/// The week folder carries the date of the Sunday on or before the date: that
/// of the date itself if it is a Sunday, and else that of the day as many
/// days earlier as have passed since Sunday. The month folder is that of
/// the date, whatever the month of that Sunday.
pub proof fn lemma_week_folder_is_dated_sunday(date: DateView)
    ensures
        days_from_sunday(date) == 0 ==> (bucket_path(date) matches Some(path) && path.week
            == week_folder(date)),
        days_from_sunday(date) != 0 ==> match days_before(date, days_from_sunday(date)) {
            Some(sunday) => bucket_path(date) matches Some(path) && path.week == week_folder(
                sunday,
            ),
            None => bucket_path(date) is None,
        },
        bucket_path(date) matches Some(path) ==> path.month == month_name(date.month),
{
}

/// The folder for a file last modified at the instant `seconds` seconds after
/// the start of 1970, where clocks run `utc_offset` seconds ahead of UTC.
pub open spec fn bucket_at(seconds: int, utc_offset: int) -> Option<BucketPathView> {
    match local_date(seconds, utc_offset) {
        Some(date) => bucket_path(date),
        None => None,
    }
}

/// What an answer of [`bucket`] or [`bucket_of`] stands for.
pub open spec fn folder_view(folder: Option<BucketPath>) -> Option<BucketPathView> {
    match folder {
        Some(path) => Some(path@),
        None => None,
    }
}

/// The folder of a file is a function of the time it was last modified and of
/// the offset of the local clock: two answers of [`bucket`] for the same two
/// numbers name the same folder.
pub proof fn lemma_bucket_is_deterministic(
    seconds: int,
    utc_offset: int,
    first: Option<BucketPath>,
    second: Option<BucketPath>,
)
    requires
        folder_view(first) == bucket_at(seconds, utc_offset),
        folder_view(second) == bucket_at(seconds, utc_offset),
    ensures
        folder_view(first) == folder_view(second),
{
}

/// The folder for files last modified on `date`.
///
/// The result depends on the date alone. It is `None` only where the Sunday
/// of the date's week lies before the first day of the calendar, which it
/// does for no date after [`MIN_YEAR`].
pub fn bucket_of(date: &CivilDate) -> (r: Option<BucketPath>)
    ensures
        folder_view(r) == bucket_path(date@),
        date@.year > MIN_YEAR ==> r is Some,
{
    match date.week_start() {
        Some(sunday) => Some(
            BucketPath::new(date.year(), chrono_month_name(date), chrono_iso_date(&sunday)),
        ),
        None => None,
    }
}

/// The folder for a file last modified at the instant `seconds` seconds after
/// the start of 1970, on a machine whose clock runs `utc_offset` seconds ahead
/// of UTC at that instant.
///
/// The result depends on the two numbers alone. It is `None` where the
/// calendar does not reach the instant, or the Sunday of its week.
pub fn bucket(seconds: i64, utc_offset: i32) -> (r: Option<BucketPath>)
    ensures
        folder_view(r) == bucket_at(seconds as int, utc_offset as int),
{
    match CivilDate::local(seconds, utc_offset) {
        Some(date) => bucket_of(&date),
        None => None,
    }
}

impl BucketPath {
    /// The folder of a year, of a month by its name, and of the week that
    /// starts on the Sunday with the date `sunday`: the year in digits, the
    /// name of the month, and `week of` followed by that date.
    pub fn new(year: i32, month: String, sunday: String) -> (r: BucketPath)
        ensures
            r@ == (BucketPathView {
                year: signed_decimal(year as int),
                month: month@,
                week: "week of "@ + sunday@,
            }),
    {
        let mut week = String::new();
        week.append("week of ");
        week.append(sunday.as_str());
        BucketPath { year: decimal_string(year), month, week }
    }

    /// The three folder names from the outermost in.
    pub fn segments(&self) -> (r: Vec<String>)
        ensures
            r.deep_view() == self@.segments(),
    {
        let mut r: Vec<String> = Vec::new();
        r.push(self.year.clone());
        r.push(self.month.clone());
        r.push(self.week.clone());
        assert(r.deep_view() =~= self@.segments());
        r
    }
}

} // verus!
