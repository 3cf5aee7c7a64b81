//! Calendar dates as year, month and day, with parsing, labels and day
//! counts from `chrono`.
use chrono::Datelike;
use vstd::prelude::*;

verus! {

/// The earliest year that `chrono::NaiveDate` holds.
pub const MIN_YEAR: i32 = -262143;

/// The latest year that `chrono::NaiveDate` holds.
pub const MAX_YEAR: i32 = 262142;

/// A day of the proleptic Gregorian calendar.
#[derive(Clone, Copy, Debug, PartialEq, Eq, Structural)]
pub struct CalendarDate {
    pub year: i32,
    pub month: u32,
    pub day: u32,
}

pub open spec fn is_leap_year(y: int) -> bool {
    (y % 4 == 0 && y % 100 != 0) || y % 400 == 0
}

pub open spec fn days_in_month(y: int, m: int) -> int {
    if m == 2 {
        if is_leap_year(y) {
            29
        } else {
            28
        }
    } else if m == 4 || m == 6 || m == 9 || m == 11 {
        30
    } else {
        31
    }
}

impl CalendarDate {
    /// A day that exists in the calendar, within the years `chrono` holds.
    pub open spec fn wf(self) -> bool {
        &&& MIN_YEAR <= self.year <= MAX_YEAR
        &&& 1 <= self.month <= 12
        &&& 1 <= self.day <= days_in_month(self.year as int, self.month as int)
    }

    /// Chronological order: `self` falls on or before `other`.
    pub open spec fn spec_le(self, other: CalendarDate) -> bool {
        self.year < other.year || (self.year == other.year && (self.month < other.month || (
        self.month == other.month && self.day <= other.day)))
    }

    pub fn le(&self, other: &CalendarDate) -> (r: bool)
        ensures
            r == self.spec_le(*other),
    {
        self.year < other.year || (self.year == other.year && (self.month < other.month || (
        self.month == other.month && self.day <= other.day)))
    }

    /// `self` lies in the inclusive range `[from, to]`.
    pub open spec fn spec_within(self, from: CalendarDate, to: CalendarDate) -> bool {
        from.spec_le(self) && self.spec_le(to)
    }

    pub fn within(&self, from: &CalendarDate, to: &CalendarDate) -> (r: bool)
        ensures
            r == self.spec_within(*from, *to),
    {
        from.le(self) && self.le(to)
    }
}

/// What `chrono` reads from a text with the pattern `%Y-%m-%d`.
pub uninterp spec fn parsed_date(s: Seq<char>) -> Option<CalendarDate>;

/// The number of days from `from` to `to`, as `chrono` counts them.
pub uninterp spec fn day_span(from: CalendarDate, to: CalendarDate) -> int;

/// What `chrono` prints for a date with the pattern `%Y-%m`.
pub uninterp spec fn month_label(d: CalendarDate) -> Seq<char>;

/// What `chrono` prints for a date with the pattern `%Y-%m-%d`.
pub uninterp spec fn date_label(d: CalendarDate) -> Seq<char>;

/// Relies on `chrono::NaiveDate::parse_from_str` with `%Y-%m-%d`: a date
/// that exists, or `None`.
#[verifier::external_body]
pub(crate) fn parse_date(s: &str) -> (r: Option<CalendarDate>)
    ensures
        r == parsed_date(s@),
        r matches Some(d) ==> d.wf(),
{
    match chrono::NaiveDate::parse_from_str(s, "%Y-%m-%d") {
        Ok(d) => Some(CalendarDate { year: d.year(), month: d.month(), day: d.day() }),
        Err(_) => None,
    }
}

/// Relies on `chrono::NaiveDate::signed_duration_since`: the signed number of
/// whole days from `from` to `to`, zero for one day and negative when `to`
/// comes first.
#[verifier::external_body]
pub(crate) fn days_between(from: CalendarDate, to: CalendarDate) -> (r: i64)
    requires
        from.wf(),
        to.wf(),
    ensures
        r == day_span(from, to),
        from == to ==> r == 0,
        from.spec_le(to) <==> r >= 0,
{
    let a = chrono::NaiveDate::from_ymd_opt(from.year, from.month, from.day).unwrap();
    let b = chrono::NaiveDate::from_ymd_opt(to.year, to.month, to.day).unwrap();
    b.signed_duration_since(a).num_days()
}

/// Relies on `chrono::NaiveDate::format` with `%Y-%m`.
#[verifier::external_body]
pub(crate) fn month_text(d: CalendarDate) -> (r: String)
    requires
        d.wf(),
    ensures
        r@ == month_label(d),
{
    chrono::NaiveDate::from_ymd_opt(d.year, d.month, d.day).unwrap().format("%Y-%m").to_string()
}

/// Relies on `chrono::NaiveDate::format` with `%Y-%m-%d`.
#[verifier::external_body]
pub(crate) fn date_text(d: CalendarDate) -> (r: String)
    requires
        d.wf(),
    ensures
        r@ == date_label(d),
{
    chrono::NaiveDate::from_ymd_opt(d.year, d.month, d.day).unwrap().format("%Y-%m-%d").to_string()
}

/// What `chrono` prints for an instant, given in microseconds since the Unix
/// epoch, with the pattern `%Y-%m-%dT%H:%M:%SZ`; `None` outside its range.
pub uninterp spec fn timestamp_label(micros: i64) -> Option<Seq<char>>;

/// Relies on `chrono::DateTime::from_timestamp_micros` (`None` outside the
/// range of dates) and `format` with `%Y-%m-%dT%H:%M:%SZ`.
#[verifier::external_body]
pub(crate) fn timestamp_text(micros: i64) -> (r: Option<String>)
    ensures
        match r {
            Some(s) => timestamp_label(micros) == Some(s@),
            None => timestamp_label(micros) is None,
        },
{
    match chrono::DateTime::from_timestamp_micros(micros) {
        Some(d) => Some(d.format("%Y-%m-%dT%H:%M:%SZ").to_string()),
        None => None,
    }
}

} // verus!
