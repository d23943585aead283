//! Calendar dates at monthly granularity.
//!
//! The simulation advances exactly one calendar month per tick; when the
//! original day of month does not exist in the target month, the day is
//! clamped to the last valid day of that month.

use vstd::prelude::*;

verus! {

/// A calendar date (proleptic Gregorian).
#[derive(Clone, Copy, Debug, PartialEq, Eq, Structural)]
pub struct Date {
    pub year: i32,
    pub month: u32,
    pub day: u32,
}

/// A year is a leap year when divisible by 4, except centuries not
/// divisible by 400.
pub open spec fn spec_is_leap_year(y: int) -> bool {
    (y % 4 == 0 && y % 100 != 0) || y % 400 == 0
}

/// Number of days in a month of a given year.
pub open spec fn spec_days_in_month(y: int, m: int) -> int {
    if m == 2 {
        if spec_is_leap_year(y) {
            29
        } else {
            28
        }
    } else if m == 4 || m == 6 || m == 9 || m == 11 {
        30
    } else {
        31
    }
}

/// A structurally valid date: month in 1..=12, day in range for the month,
/// and the year within the supported simulation window.
pub open spec fn spec_date_valid(d: Date) -> bool {
    &&& 1 <= d.month <= 12
    &&& 1 <= d.day <= spec_days_in_month(d.year as int, d.month as int)
    &&& 1 <= d.year <= 9999
}

/// Total order on dates: year, then month, then day.
pub open spec fn spec_date_le(a: Date, b: Date) -> bool {
    if a.year != b.year {
        a.year < b.year
    } else if a.month != b.month {
        a.month < b.month
    } else {
        a.day <= b.day
    }
}

pub open spec fn spec_date_lt(a: Date, b: Date) -> bool {
    spec_date_le(a, b) && a != b
}

/// Year/month of a date after adding `n` months, before day clamping:
/// months are counted from zero in `12 * year + (month - 1)`.
pub open spec fn spec_month_index(d: Date) -> int {
    12 * (d.year as int) + (d.month as int - 1)
}

/// The date `n` months after `d`: same day when valid, else clamped to the
/// last day of the target month.
pub open spec fn spec_add_months(d: Date, n: int) -> Date {
    let idx = spec_month_index(d) + n;
    let y = idx / 12;
    let m = idx % 12 + 1;
    let dim = spec_days_in_month(y, m);
    Date {
        year: y as i32,
        month: m as u32,
        day: if d.day as int <= dim {
            d.day
        } else {
            dim as u32
        },
    }
}

impl Date {
    /// Construct a date from components.
    pub fn new(year: i32, month: u32, day: u32) -> (r: Date)
        ensures
            r == (Date { year, month, day }),
    {
        Date { year, month, day }
    }

    pub fn valid(&self) -> (r: bool)
        ensures
            r == spec_date_valid(*self),
    {
        1 <= self.month && self.month <= 12 && 1 <= self.year && self.year <= 9999
            && 1 <= self.day && self.day <= days_in_month(self.year, self.month)
    }

    /// `self <= other` in calendar order.
    pub fn le(&self, other: &Date) -> (r: bool)
        ensures
            r == spec_date_le(*self, *other),
    {
        if self.year != other.year {
            self.year < other.year
        } else if self.month != other.month {
            self.month < other.month
        } else {
            self.day <= other.day
        }
    }

    /// `self < other` in calendar order.
    pub fn lt(&self, other: &Date) -> (r: bool)
        ensures
            r == spec_date_lt(*self, *other),
    {
        let r = self.le(other) && !(self.year == other.year && self.month == other.month
            && self.day == other.day);
        r
    }
}

pub fn is_leap_year(y: i32) -> (r: bool)
    ensures
        r == spec_is_leap_year(y as int),
{
    (y % 4 == 0 && y % 100 != 0) || y % 400 == 0
}

pub fn days_in_month(y: i32, m: u32) -> (r: u32)
    ensures
        r as int == spec_days_in_month(y as int, m as int),
        28 <= r <= 31,
{
    if m == 2 {
        if is_leap_year(y) {
            29
        } else {
            28
        }
    } else if m == 4 || m == 6 || m == 9 || m == 11 {
        30
    } else {
        31
    }
}

/// Add `n` months to a date, clamping the day to the end of the target
/// month when the original day does not exist there.
pub fn add_months(d: Date, n: u32) -> (r: Date)
    requires
        spec_date_valid(d),
        spec_month_index(d) + n <= 12 * 9999 + 11,
    ensures
        r == spec_add_months(d, n as int),
        spec_date_valid(r),
        spec_date_le(d, r),
{
    let idx: i64 = 12 * (d.year as i64) + (d.month as i64 - 1) + n as i64;
    let y: i32 = (idx / 12) as i32;
    let m: u32 = (idx % 12 + 1) as u32;
    proof {
        vstd::arithmetic::div_mod::lemma_fundamental_div_mod(idx as int, 12);
    }
    let dim = days_in_month(y, m);
    let day = if d.day <= dim {
        d.day
    } else {
        dim
    };
    let r = Date { year: y, month: m, day };
    proof {
        assert(spec_month_index(r) == spec_month_index(d) + n);
    }
    r
}

/// The month index of a shifted date advances by exactly the shift.
pub proof fn lemma_add_months_index(d: Date, n: int)
    requires
        spec_date_valid(d),
        0 <= n,
        spec_month_index(d) + n <= 12 * 9999 + 11,
    ensures
        spec_month_index(spec_add_months(d, n)) == spec_month_index(d) + n,
{
    let idx = spec_month_index(d) + n;
    vstd::arithmetic::div_mod::lemma_fundamental_div_mod(idx, 12);
    vstd::arithmetic::div_mod::lemma_mod_division_less_than_divisor(idx, 12);
    vstd::arithmetic::div_mod::lemma_div_pos_is_pos(idx, 12);
}

/// Whole-month difference between two dates, ignoring the day of month.
pub fn months_between(start: Date, end: Date) -> (r: i64)
    requires
        spec_date_valid(start),
        spec_date_valid(end),
    ensures
        r == spec_month_index(end) - spec_month_index(start),
{
    (end.year as i64 - start.year as i64) * 12 + (end.month as i64 - start.month as i64)
}

} // verus!
