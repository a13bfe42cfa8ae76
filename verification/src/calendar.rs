//! Calendar days. A date is held as its day number in the proleptic Gregorian
//! calendar (1 January of year 1 is day 1), which is all that the study-session
//! rules read. Spelling a date out, and reading one from text, is chrono's work.

use chrono::{Datelike, NaiveDate, Utc};
use vstd::prelude::*;

verus! {

/// Day number of the earliest date chrono can hold, 1 January of year -262143.
pub const MIN_DAY: i32 = -95_746_129;

/// Day number of the latest date chrono can hold, 31 December of year 262142.
pub const MAX_DAY: i32 = 95_745_399;

/// The day number of the date that chrono reads from a text under the
/// pattern `%Y-%m-%d`, or `None` where chrono rejects the text.
pub uninterp spec fn iso_date_day(text: Seq<char>) -> Option<i32>;

/// The text that chrono writes for the date with a day number under the
/// pattern `%Y-%m-%d`.
pub uninterp spec fn day_iso_text(day: i32) -> Seq<char>;

/// The day number of the calendar date (year, month, day), or `None` where
/// chrono holds no such date.
pub uninterp spec fn civil_day(year: i32, month: u32, day: u32) -> Option<i32>;

/// Calls `chrono::NaiveDate::parse_from_str` with the pattern `%Y-%m-%d` and
/// hands back the day number (`Datelike::num_days_from_ce`) of the date read.
/// Trusted: the outcome depends on the text alone, and a date that chrono
/// returns lies between `NaiveDate::MIN` and `NaiveDate::MAX`.
#[verifier::external_body]
pub(crate) fn parse_iso_day(text: &str) -> (r: Option<i32>)
    ensures
        r == iso_date_day(text@),
        r matches Some(d) ==> MIN_DAY <= d <= MAX_DAY,
{
    match NaiveDate::parse_from_str(text, "%Y-%m-%d") {
        Ok(date) => Some(date.num_days_from_ce()),
        Err(_) => None,
    }
}

/// Calls `chrono::NaiveDate::format` with the pattern `%Y-%m-%d` on the date
/// that `NaiveDate::from_num_days_from_ce_opt` makes of `day`. Trusted: the
/// text depends on the day number alone. The day number must lie in chrono's
/// range, where `from_num_days_from_ce_opt` returns a date.
#[verifier::external_body]
pub(crate) fn format_iso_day(day: i32) -> (r: String)
    requires
        MIN_DAY <= day <= MAX_DAY,
    ensures
        r@ == day_iso_text(day),
{
    NaiveDate::from_num_days_from_ce_opt(day).unwrap().format("%Y-%m-%d").to_string()
}

/// Calls `chrono::NaiveDate::from_ymd_opt` and hands back the day number of
/// the date made. Trusted: the outcome depends on the three numbers alone,
/// and a date that chrono returns lies within its range.
#[verifier::external_body]
pub(crate) fn civil_to_day(year: i32, month: u32, day: u32) -> (r: Option<i32>)
    ensures
        r == civil_day(year, month, day),
        r matches Some(d) ==> MIN_DAY <= d <= MAX_DAY,
{
    match NaiveDate::from_ymd_opt(year, month, day) {
        Some(date) => Some(date.num_days_from_ce()),
        None => None,
    }
}

/// Calls `chrono::Utc::now` and writes the instant with
/// `DateTime::to_rfc3339`. Nothing is claimed of the text: it changes from
/// one call to the next.
#[verifier::external_body]
pub(crate) fn current_timestamp() -> String {
    Utc::now().to_rfc3339()
}

/// A calendar date within the range that chrono can hold.
#[derive(Clone, Copy, Debug, PartialEq, Eq)]
pub struct CalendarDate {
    day: i32,
}

impl CalendarDate {
    #[verifier::type_invariant]
    spec fn in_range(self) -> bool {
        MIN_DAY <= self.day <= MAX_DAY
    }

    /// The date's day number.
    pub closed spec fn day_number(self) -> int {
        self.day as int
    }

    /// The date with the given day number, if chrono's range holds it.
    pub fn from_num_days_from_ce_opt(day: i32) -> (r: Option<CalendarDate>)
        ensures
            r is Some <==> MIN_DAY <= day <= MAX_DAY,
            r matches Some(date) ==> date.day_number() == day,
    {
        if MIN_DAY <= day && day <= MAX_DAY {
            Some(CalendarDate { day })
        } else {
            None
        }
    }

    /// The date (year, month, day), if there is such a date.
    pub fn from_ymd_opt(year: i32, month: u32, day: u32) -> (r: Option<CalendarDate>)
        ensures
            r is Some <==> civil_day(year, month, day) is Some,
            r matches Some(date) ==> (civil_day(year, month, day) matches Some(number)
                && date.day_number() == number),
    {
        match civil_to_day(year, month, day) {
            Some(number) => Some(CalendarDate { day: number }),
            None => None,
        }
    }

    /// The date that `text` spells as year-month-day, if it spells one.
    pub fn parse(text: &str) -> (r: Option<CalendarDate>)
        ensures
            r is Some <==> iso_date_day(text@) is Some,
            r matches Some(date) ==> (iso_date_day(text@) matches Some(number)
                && date.day_number() == number),
    {
        match parse_iso_day(text) {
            Some(number) => Some(CalendarDate { day: number }),
            None => None,
        }
    }

    /// The date's day number; it lies within chrono's range.
    pub fn num_days_from_ce(&self) -> (r: i32)
        ensures
            r == self.day_number(),
            MIN_DAY <= r <= MAX_DAY,
    {
        proof {
            use_type_invariant(self);
        }
        self.day
    }

    /// How many days lie between `earlier` and this date; negative where
    /// this date comes first.
    pub fn days_since(&self, earlier: &CalendarDate) -> (r: i64)
        ensures
            r == self.day_number() - earlier.day_number(),
    {
        proof {
            use_type_invariant(self);
            use_type_invariant(earlier);
        }
        self.day as i64 - earlier.day as i64
    }

    /// The date `days` days before this one, if the range holds it.
    pub fn checked_sub_days(&self, days: u32) -> (r: Option<CalendarDate>)
        ensures
            r is Some <==> self.day_number() - days >= MIN_DAY,
            r matches Some(date) ==> date.day_number() == self.day_number() - days,
    {
        proof {
            use_type_invariant(self);
        }
        let target: i64 = self.day as i64 - days as i64;
        if target >= MIN_DAY as i64 {
            Some(CalendarDate { day: target as i32 })
        } else {
            None
        }
    }

    /// The date spelled as year-month-day.
    pub fn to_iso_string(&self) -> (r: String)
        ensures
            r@ == day_iso_text(self.day_number() as i32),
            MIN_DAY <= self.day_number() <= MAX_DAY,
    {
        proof {
            use_type_invariant(self);
        }
        format_iso_day(self.day)
    }
}

} // verus!
