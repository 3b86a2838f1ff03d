//! Calendar dates and the timestep sequence of a run.
//!
//! Dates are held as plain year/month/day values on the proleptic Gregorian
//! calendar; the timestep sequence is daily, supplied once per run and
//! immutable while it runs.

use vstd::prelude::*;

verus! {

/// Whether a year has a 29th of February.
pub open spec fn spec_is_leap_year(y: int) -> bool {
    y % 4 == 0 && (y % 100 != 0 || y % 400 == 0)
}

/// The number of days in a month of a given year.
pub open spec fn spec_days_in_month(y: int, m: int) -> int {
    if m == 2 {
        if spec_is_leap_year(y) {
            29
        } else {
            28
        }
    } else if m == 4 || m == 6 || m == 9 || m == 11 {
        30
    } else {
        31
    }
}

/// A calendar date.
#[derive(Clone, Copy, Debug, PartialEq, Eq, Structural)]
pub struct Date {
    pub year: i32,
    pub month: u8,
    pub day: u8,
}

/// A date whose components name a real day of the calendar (years before
/// 1 are not used by this library).
pub open spec fn valid_date(d: Date) -> bool {
    &&& d.year >= 1
    &&& 1 <= d.month <= 12
    &&& 1 <= d.day <= spec_days_in_month(d.year as int, d.month as int)
}

/// Lexicographic order on dates: `a` is on or before `b`.
pub open spec fn spec_date_le(a: Date, b: Date) -> bool {
    if a.year != b.year {
        a.year < b.year
    } else if a.month != b.month {
        a.month < b.month
    } else {
        a.day <= b.day
    }
}

/// The day after `d`.
pub open spec fn spec_next_date(d: Date) -> Date {
    if d.day < spec_days_in_month(d.year as int, d.month as int) {
        Date { year: d.year, month: d.month, day: (d.day + 1) as u8 }
    } else if d.month < 12 {
        Date { year: d.year, month: (d.month + 1) as u8, day: 1 }
    } else {
        Date { year: (d.year + 1) as i32, month: 1, day: 1 }
    }
}

pub fn is_leap_year(y: i32) -> (r: bool)
    requires
        y >= 1,
    ensures
        r == spec_is_leap_year(y as int),
{
    y % 4 == 0 && (y % 100 != 0 || y % 400 == 0)
}

pub fn days_in_month(y: i32, m: u8) -> (r: u8)
    requires
        y >= 1,
        1 <= m <= 12,
    ensures
        r == spec_days_in_month(y as int, m as int),
{
    if m == 2 {
        if is_leap_year(y) {
            29
        } else {
            28
        }
    } else if m == 4 || m == 6 || m == 9 || m == 11 {
        30
    } else {
        31
    }
}

impl Date {
    pub fn new(year: i32, month: u8, day: u8) -> (r: Date)
        ensures
            r.year == year && r.month == month && r.day == day,
    {
        Date { year, month, day }
    }

    /// Whether this date names a real day of the calendar.
    pub fn is_valid(&self) -> (r: bool)
        ensures
            r == valid_date(*self),
    {
        if self.year < 1 || self.month < 1 || self.month > 12 {
            return false;
        }
        self.day >= 1 && self.day <= days_in_month(self.year, self.month)
    }

    /// Whether this date is on or before `other`.
    pub fn is_on_or_before(&self, other: &Date) -> (r: bool)
        ensures
            r == spec_date_le(*self, *other),
    {
        if self.year != other.year {
            self.year < other.year
        } else if self.month != other.month {
            self.month < other.month
        } else {
            self.day <= other.day
        }
    }

    /// The day after this one.
    pub fn next_day(&self) -> (r: Date)
        requires
            valid_date(*self),
            self.year < i32::MAX,
        ensures
            r == spec_next_date(*self),
            valid_date(r),
            r.year == self.year || r.year == self.year + 1,
    {
        let dim = days_in_month(self.year, self.month);
        if self.day < dim {
            Date { year: self.year, month: self.month, day: self.day + 1 }
        } else if self.month < 12 {
            Date { year: self.year, month: self.month + 1, day: 1 }
        } else {
            Date { year: self.year + 1, month: 1, day: 1 }
        }
    }
}

/// One discrete simulation period with its position and calendar date.
#[derive(Clone, Copy, Debug)]
pub struct Timestep {
    pub index: usize,
    pub date: Date,
}

/// Generates the daily timestep sequence of a run.
#[derive(Clone, Copy, Debug)]
pub struct Timestepper {
    pub start: Date,
    pub n_steps: usize,
}

impl Timestepper {
    pub fn new(start: Date, n_steps: usize) -> (r: Self)
        ensures
            r.start == start,
            r.n_steps == n_steps,
    {
        Self { start, n_steps }
    }

    /// The daily timestep sequence: consecutive dates starting at `start`,
    /// indexed from zero.
    pub fn timesteps(&self) -> (r: Vec<Timestep>)
        requires
            valid_date(self.start),
            self.start.year + self.n_steps < i32::MAX,
        ensures
            r@.len() == self.n_steps,
            forall|i: int| 0 <= i < r@.len() ==> (#[trigger] r@[i]).index == i,
            forall|i: int| 0 <= i < r@.len() ==> valid_date((#[trigger] r@[i]).date),
            r@.len() > 0 ==> r@[0].date == self.start,
            forall|i: int| 0 < i < r@.len()
                ==> (#[trigger] r@[i]).date == spec_next_date(r@[i - 1].date),
    {
        let mut steps: Vec<Timestep> = Vec::new();
        let mut cur: Date = self.start;
        let mut i: usize = 0;
        while i < self.n_steps
            invariant
                valid_date(self.start),
                self.start.year + self.n_steps < i32::MAX,
                0 <= i <= self.n_steps,
                valid_date(cur),
                cur.year <= self.start.year + i,
                steps@.len() == i,
                forall|t: int| 0 <= t < i ==> (#[trigger] steps@[t]).index == t,
                forall|t: int| 0 <= t < i ==> valid_date((#[trigger] steps@[t]).date),
                i > 0 ==> steps@[0].date == self.start,
                i == 0 ==> cur == self.start,
                i > 0 ==> cur == spec_next_date(steps@[i - 1].date),
                forall|t: int| 0 < t < i
                    ==> (#[trigger] steps@[t]).date == spec_next_date(steps@[t - 1].date),
            decreases self.n_steps - i,
        {
            steps.push(Timestep { index: i, date: cur });
            cur = cur.next_day();
            i = i + 1;
        }
        steps
    }
}

} // verus!
