//! Proleptic Gregorian calendar arithmetic on plain year/month/day values.
//!
//! Dates are modelled by a day number: the count of days since the first day
//! of year 0. All date arithmetic in the crate is specified against that
//! model.

use vstd::prelude::*;

verus! {

/// A calendar date, no time-of-day attached.
#[derive(Clone, Copy, PartialEq, Eq, Structural, Debug)]
pub struct Date {
    pub year: u32,
    pub month: u32,
    pub day: u32,
}

/// A local timestamp with second precision, no offset bookkeeping.
#[derive(Clone, Copy, PartialEq, Eq, Structural, Debug)]
pub struct DateTime {
    pub date: Date,
    pub hour: u32,
    pub minute: u32,
    pub second: u32,
}

pub open spec fn is_leap_year(y: int) -> bool {
    y % 4 == 0 && (y % 100 != 0 || y % 400 == 0)
}

pub open spec fn days_in_month(y: int, m: int) -> int {
    if m == 2 {
        if is_leap_year(y) {
            29
        } else {
            28
        }
    } else if m == 4 || m == 6 || m == 9 || m == 11 {
        30
    } else {
        31
    }
}

/// Years handled by the crate: the four-digit range, plus one year of slack
/// so that the exclusive end date of an all-day event on the last day of
/// year 9999 still exists.
pub open spec fn valid_date(d: Date) -> bool {
    &&& d.year <= 10000
    &&& 1 <= d.month <= 12
    &&& 1 <= d.day <= days_in_month(d.year as int, d.month as int)
}

/// Days in year `y` that precede the first day of month `m`.
pub open spec fn days_before_month(y: int, m: int) -> int
    decreases m,
{
    if m <= 1 {
        0
    } else {
        days_before_month(y, m - 1) + days_in_month(y, m - 1)
    }
}

pub open spec fn days_in_year(y: int) -> int {
    days_before_month(y, 13)
}

/// Days that precede the first day of year `y`, counting from year 0.
pub open spec fn days_before_year(y: int) -> int
    decreases y,
{
    if y <= 0 {
        0
    } else {
        days_before_year(y - 1) + days_in_year(y - 1)
    }
}

/// The day-number model: days since 0000-01-01.
pub open spec fn day_number(d: Date) -> int {
    days_before_year(d.year as int) + days_before_month(d.year as int, d.month as int) + d.day - 1
}

pub proof fn lemma_days_in_year(y: int)
    ensures
        days_in_year(y) == if is_leap_year(y) { 366int } else { 365int },
{
    reveal_with_fuel(days_before_month, 13);
}

pub proof fn lemma_days_before_month_bounds(y: int, m: int)
    requires
        1 <= m <= 13,
    ensures
        0 <= days_before_month(y, m) <= 31 * (m - 1),
    decreases m,
{
    if m > 1 {
        lemma_days_before_month_bounds(y, m - 1);
    }
}

pub proof fn lemma_days_before_year_bounds(y: int)
    requires
        0 <= y,
    ensures
        365 * y <= days_before_year(y) <= 366 * y,
    decreases y,
{
    if y > 0 {
        lemma_days_before_year_bounds(y - 1);
        lemma_days_in_year(y - 1);
    }
}

pub proof fn lemma_day_number_bounds(d: Date)
    requires
        valid_date(d),
    ensures
        0 <= day_number(d) <= 3_660_402,
{
    lemma_days_before_year_bounds(d.year as int);
    lemma_days_before_month_bounds(d.year as int, d.month as int);
}

pub fn days_in_month_exec(y: u32, m: u32) -> (r: u32)
    requires
        1 <= m <= 12,
    ensures
        r == days_in_month(y as int, m as int),
        28 <= r <= 31,
{
    if m == 2 {
        if y % 4 == 0 && (y % 100 != 0 || y % 400 == 0) {
            29
        } else {
            28
        }
    } else if m == 4 || m == 6 || m == 9 || m == 11 {
        30
    } else {
        31
    }
}

pub fn days_in_year_exec(y: u32) -> (r: u32)
    ensures
        r == days_in_year(y as int),
        365 <= r <= 366,
{
    proof {
        lemma_days_in_year(y as int);
    }
    if y % 4 == 0 && (y % 100 != 0 || y % 400 == 0) {
        366
    } else {
        365
    }
}

/// The calendar successor of a date: one day later in the day-number model.
pub fn next_day(d: &Date) -> (r: Date)
    requires
        valid_date(*d),
        d.year < 10000,
    ensures
        valid_date(r),
        day_number(r) == day_number(*d) + 1,
{
    let dim = days_in_month_exec(d.year, d.month);
    if d.day < dim {
        Date { year: d.year, month: d.month, day: d.day + 1 }
    } else if d.month < 12 {
        Date { year: d.year, month: d.month + 1, day: 1 }
    } else {
        Date { year: d.year + 1, month: 1, day: 1 }
    }
}

/// Days that precede the first day of year `y`, by summing whole years.
pub fn days_before_year_exec(y: u32) -> (r: u32)
    requires
        y <= 20000,
    ensures
        r == days_before_year(y as int),
        r <= 366 * y,
{
    let mut acc: u32 = 0;
    let mut i: u32 = 0;
    while i < y
        invariant
            i <= y <= 20000,
            acc == days_before_year(i as int),
            acc <= 366 * i,
        decreases y - i,
    {
        proof {
            lemma_days_before_year_bounds(i as int + 1);
        }
        acc = acc + days_in_year_exec(i);
        i = i + 1;
    }
    acc
}

/// Days since 0000-01-01, computed by summing whole years then whole months.
pub fn day_number_exec(d: &Date) -> (r: u32)
    requires
        valid_date(*d),
    ensures
        r == day_number(*d),
{
    let mut acc: u32 = days_before_year_exec(d.year);
    proof {
        lemma_days_before_year_bounds(d.year as int);
    }
    let mut m: u32 = 1;
    while m < d.month
        invariant
            1 <= m <= d.month,
            valid_date(*d),
            acc == days_before_year(d.year as int) + days_before_month(d.year as int, m as int),
            acc <= 366 * 10000 + 366,
        decreases d.month - m,
    {
        proof {
            lemma_days_before_year_bounds(d.year as int);
            lemma_days_before_month_bounds(d.year as int, m as int + 1);
        }
        acc = acc + days_in_month_exec(d.year, m);
        m = m + 1;
    }
    acc + d.day - 1
}

/// Recovers the unique valid date with the given day number.
pub fn date_of_day_number(n: u32) -> (r: Date)
    requires
        n < days_before_year(10001),
    ensures
        valid_date(r),
        day_number(r) == n,
{
    let mut y: u32 = 0;
    let mut rem: u32 = n;
    let mut diy: u32 = days_in_year_exec(0);
    while rem >= diy
        invariant
            y <= 10000,
            365 <= diy,
            diy == days_in_year(y as int),
            days_before_year(y as int) + rem == n,
            n < days_before_year(10001),
        decreases rem,
    {
        proof {
            if y as int + 1 > 10000 {
                lemma_days_before_year_mono(10001, y as int + 1);
            }
        }
        rem = rem - diy;
        y = y + 1;
        diy = days_in_year_exec(y);
    }
    let mut m: u32 = 1;
    let mut dim: u32 = days_in_month_exec(y, 1);
    while rem >= dim
        invariant
            1 <= m <= 12,
            y <= 10000,
            dim == days_in_month(y as int, m as int),
            days_before_year(y as int) + days_before_month(y as int, m as int) + rem == n,
            days_before_month(y as int, m as int) + rem < days_in_year(y as int),
        decreases 12 - m,
    {
        rem = rem - dim;
        m = m + 1;
        dim = days_in_month_exec(y, m);
    }
    Date { year: y, month: m, day: rem + 1 }
}

/// `days_before_year` never decreases as the year grows.
pub proof fn lemma_days_before_year_mono(y1: int, y2: int)
    requires
        0 <= y1 <= y2,
    ensures
        days_before_year(y1) <= days_before_year(y2),
    decreases y2 - y1,
{
    if y1 < y2 {
        lemma_days_before_year_mono(y1, y2 - 1);
        lemma_days_in_year(y2 - 1);
    }
}

} // verus!
