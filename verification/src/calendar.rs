//! Calendar days and wall-clock times. The arithmetic and the formatting of
//! dates are chrono's; this module holds a day as the number chrono counts it
//! by, and reads the local clock.

use vstd::prelude::*;

use chrono::{Datelike, Timelike};

use crate::text::zero_padded;

verus! {

/// Day number of the first date chrono can represent (January 1, 262144 BCE),
/// counting January 1 of year 1 as day 1.
pub const MIN_DAY: i32 = -95746129;

/// Day number of the last date chrono can represent (December 31, 262142 CE).
pub const MAX_DAY: i32 = 95745399;

/// A date of the proleptic Gregorian calendar, as its day number with
/// January 1 of year 1 counted as day 1 (chrono's `num_days_from_ce`).
#[derive(Debug, Clone, Copy, PartialEq, Eq, Structural)]
pub struct CalendarDay {
    pub days_from_ce: i32,
}

impl CalendarDay {
    /// The day lies within the range chrono represents.
    pub open spec fn wf(self) -> bool {
        MIN_DAY <= self.days_from_ce <= MAX_DAY
    }

    /// The day with the given number, if chrono can represent it.
    pub fn from_days_from_ce(days: i32) -> (r: Option<CalendarDay>)
        ensures
            r is Some <==> MIN_DAY <= days <= MAX_DAY,
            r is Some ==> r->0.days_from_ce == days && r->0.wf(),
    {
        if MIN_DAY <= days && days <= MAX_DAY {
            Some(CalendarDay { days_from_ce: days })
        } else {
            None
        }
    }
}

/// What chrono's `NaiveDate::format("%Y-%m-%d")` writes for the day with the
/// given number.
pub uninterp spec fn iso_date(days_from_ce: int) -> Seq<char>;

/// `NaiveDate::checked_add_signed(TimeDelta::days(delta))`, on day numbers.
///
/// Claims what chrono's source shows: the result is the day `delta` days
/// later (earlier when negative), and `None` exactly when that day falls
/// outside `MIN_DAY..=MAX_DAY`.
#[verifier::external_body]
pub(crate) fn add_days(day: CalendarDay, delta: i32) -> (r: Option<CalendarDay>)
    requires
        day.wf(),
    ensures
        r is Some <==> MIN_DAY <= day.days_from_ce + delta <= MAX_DAY,
        r is Some ==> r->0.days_from_ce == day.days_from_ce + delta,
{
    let date = match chrono::NaiveDate::from_num_days_from_ce_opt(day.days_from_ce) {
        Some(date) => date,
        None => return None,
    };
    match date.checked_add_signed(chrono::TimeDelta::days(delta as i64)) {
        Some(moved) => Some(CalendarDay { days_from_ce: moved.num_days_from_ce() }),
        None => None,
    }
}

/// `NaiveDate::format("%Y-%m-%d")` of the day, e.g. "2026-03-10".
///
/// The text is named by `iso_date`; nothing more of it is claimed.
#[verifier::external_body]
pub(crate) fn format_iso_date(day: CalendarDay) -> (s: String)
    requires
        day.wf(),
    ensures
        s@ == iso_date(day.days_from_ce as int),
{
    match chrono::NaiveDate::from_num_days_from_ce_opt(day.days_from_ce) {
        Some(date) => date.format("%Y-%m-%d").to_string(),
        None => String::new(),
    }
}

/// `chrono::Local::now().date_naive()`: today in the machine's time zone.
///
/// Only that the day is one chrono represents is claimed; which day it is
/// depends on the clock.
#[verifier::external_body]
pub(crate) fn local_today() -> (d: CalendarDay)
    ensures
        d.wf(),
{
    CalendarDay { days_from_ce: chrono::Local::now().date_naive().num_days_from_ce() }
}

/// A time of day to the second.
#[derive(Debug, Clone, Copy, PartialEq, Eq, Structural)]
pub struct ClockTime {
    pub hour: u32,
    pub minute: u32,
    pub second: u32,
}

impl ClockTime {
    pub open spec fn wf(self) -> bool {
        self.hour < 24 && self.minute < 60 && self.second < 60
    }

    /// "HH:MM:SS", as chrono's `format("%H:%M:%S")` writes it.
    pub fn hms_text(&self) -> (s: String)
        ensures
            s@ == zero_padded(self.hour as nat, 2) + ":"@ + zero_padded(self.minute as nat, 2)
                + ":"@ + zero_padded(self.second as nat, 2),
    {
        crate::text::zero_padded_text(self.hour as u64, 2).concat(":").concat(
            crate::text::zero_padded_text(self.minute as u64, 2).as_str(),
        ).concat(":").concat(crate::text::zero_padded_text(self.second as u64, 2).as_str())
    }
}

/// `chrono::Local::now()`, read as hour, minute and second.
///
/// Claims the ranges chrono's `Timelike` documents (hour 0 to 23, minute and
/// second 0 to 59); the time itself comes from the clock.
#[verifier::external_body]
pub(crate) fn local_clock_now() -> (t: ClockTime)
    ensures
        t.wf(),
{
    let now = chrono::Local::now();
    ClockTime { hour: now.hour(), minute: now.minute(), second: now.second() }
}

} // verus!
