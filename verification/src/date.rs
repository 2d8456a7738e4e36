//! Calendar dates of the proleptic Gregorian calendar and monthly stepping.

use vstd::prelude::*;
use chrono::Datelike;

verus! {

/// The earliest year a date can lie in.
pub const MIN_YEAR: i32 = -262143;

/// The latest year a date can lie in.
pub const MAX_YEAR: i32 = 262142;

/// A calendar position as year, month and day of the month.
pub type Day = (int, int, int);

/// Whether `year` has a 29th of February.
pub open spec fn leap_year(year: int) -> bool {
    year % 4 == 0 && (year % 100 != 0 || year % 400 == 0)
}

/// The number of days of `month` in `year`, for a month from 1 to 12.
pub open spec fn month_length(year: int, month: int) -> int {
    if month == 2 {
        if leap_year(year) {
            29
        } else {
            28
        }
    } else if month == 4 || month == 6 || month == 9 || month == 11 {
        30
    } else {
        31
    }
}

/// Whether the day exists in the calendar and lies within the supported years.
pub open spec fn valid_day(d: Day) -> bool {
    &&& MIN_YEAR <= d.0 <= MAX_YEAR
    &&& 1 <= d.1 <= 12
    &&& 1 <= d.2 <= month_length(d.0, d.1)
}

/// The same day of the following month, or that month's last day where the
/// month is shorter; `None` past the last supported year.
pub open spec fn month_after(d: Day) -> Option<Day> {
    let year = if d.1 == 12 {
        d.0 + 1
    } else {
        d.0
    };
    let month = if d.1 == 12 {
        1
    } else {
        d.1 + 1
    };
    let day = if d.2 > month_length(year, month) {
        month_length(year, month)
    } else {
        d.2
    };
    if year > MAX_YEAR {
        None
    } else {
        Some((year, month, day))
    }
}

/// The result of stepping `n` times by one month, each step starting from the
/// result of the one before; `None` once a step has left the supported years.
pub open spec fn months_after(d: Day, n: nat) -> Option<Day>
    decreases n,
{
    if n == 0 {
        Some(d)
    } else {
        match months_after(d, (n - 1) as nat) {
            Some(previous) => month_after(previous),
            None => None,
        }
    }
}

/// Stepping by a month leads from a valid day to a valid day.
pub proof fn lemma_month_after_valid(d: Day)
    requires
        valid_day(d),
    ensures
        month_after(d) matches Some(next) ==> valid_day(next),
{
}

/// The triple of machine integers as a calendar position.
pub open spec fn as_day(t: (i32, u32, u32)) -> Day {
    (t.0 as int, t.1 as int, t.2 as int)
}

/// Adds one calendar month with `chrono::NaiveDate::checked_add_months`, going
/// through `NaiveDate::from_ymd_opt` and the `Datelike` getters. The contract
/// states chrono's rule: the month advances by one with rollover into the next
/// year, the day is clamped to the length of the new month, and the result is
/// `None` when the new year exceeds the last one that `NaiveDate` represents.
#[verifier::external_body]
fn chrono_month_after(year: i32, month: u32, day: u32) -> (r: Option<(i32, u32, u32)>)
    requires
        valid_day((year as int, month as int, day as int)),
    ensures
        match month_after((year as int, month as int, day as int)) {
            Some(next) => r.is_some() && as_day(r.unwrap()) == next,
            None => r.is_none(),
        },
{
    let date = chrono::NaiveDate::from_ymd_opt(year, month, day)?;
    let next = date.checked_add_months(chrono::Months::new(1))?;
    Some((next.year(), next.month(), next.day()))
}

/// A day of the calendar between the years `MIN_YEAR` and `MAX_YEAR`.
#[derive(Clone, Copy, Debug)]
pub struct Date {
    year: i32,
    month: u32,
    day: u32,
}

impl View for Date {
    type V = Day;

    closed spec fn view(&self) -> Day {
        (self.year as int, self.month as int, self.day as int)
    }
}

impl Date {
    #[verifier::type_invariant]
    spec fn well_formed(self) -> bool {
        valid_day(self@)
    }

    /// Dates of the same year, month and day are the same date.
    pub proof fn lemma_same_day(self, other: Date)
        requires
            self@ == other@,
        ensures
            self == other,
    {
    }

    /// The date of the given year, month and day, if that day exists.
    pub fn from_ymd_opt(year: i32, month: u32, day: u32) -> (r: Option<Date>)
        ensures
            valid_day((year as int, month as int, day as int)) ==> r.is_some() && r.unwrap()@ == (
                year as int,
                month as int,
                day as int,
            ),
            !valid_day((year as int, month as int, day as int)) ==> r.is_none(),
    {
        if year < MIN_YEAR || year > MAX_YEAR || month < 1 || month > 12 || day < 1 {
            return None;
        }
        if day > days_in_month(year, month) {
            return None;
        }
        Some(Date { year, month, day })
    }

    /// The year.
    pub fn year(&self) -> (r: i32)
        ensures
            r == self@.0,
    {
        self.year
    }

    /// The month, from 1 to 12.
    pub fn month(&self) -> (r: u32)
        ensures
            r == self@.1,
            1 <= r <= 12,
    {
        proof {
            use_type_invariant(self);
        }
        self.month
    }

    /// The day of the month, from 1.
    pub fn day(&self) -> (r: u32)
        ensures
            r == self@.2,
            1 <= r <= month_length(self@.0, self@.1),
    {
        proof {
            use_type_invariant(self);
        }
        self.day
    }

    /// The date one calendar month later, `None` if it would lie after the
    /// last supported year.
    pub fn checked_next_month(&self) -> (r: Option<Date>)
        ensures
            match month_after(self@) {
                Some(next) => r.is_some() && r.unwrap()@ == next,
                None => r.is_none(),
            },
    {
        proof {
            use_type_invariant(self);
            lemma_month_after_valid(self@);
        }
        match chrono_month_after(self.year, self.month, self.day) {
            Some((year, month, day)) => Some(Date { year, month, day }),
            None => None,
        }
    }
}

/// The number of days of a month from 1 to 12 in a supported year.
fn days_in_month(year: i32, month: u32) -> (r: u32)
    requires
        MIN_YEAR <= year <= MAX_YEAR,
        1 <= month <= 12,
    ensures
        r == month_length(year as int, month as int),
{
    if month == 2 {
        // 262400 is a multiple of 400 that lifts every supported year above zero.
        let lifted: u32 = (year + 262400) as u32;
        if lifted % 4 == 0 && (lifted % 100 != 0 || lifted % 400 == 0) {
            29
        } else {
            28
        }
    } else if month == 4 || month == 6 || month == 9 || month == 11 {
        30
    } else {
        31
    }
}

} // verus!
