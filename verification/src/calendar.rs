//! Calendar arithmetic: the Gregorian leap-year rule, days per month and per
//! year, and the cumulative day counts that the epoch conversion sums.

use vstd::prelude::*;

use crate::datetime::IllegalTimeError;

verus! {

/// The Gregorian leap-year rule: divisible by 4 but not by 100, or divisible
/// by 400.
pub open spec fn spec_leap_year(year: int) -> bool {
    (year % 4 == 0 && year % 100 != 0) || year % 400 == 0
}

/// Days in `year`: 366 in a leap year, 365 otherwise.
pub open spec fn spec_days_in_year(year: int) -> int {
    if spec_leap_year(year) {
        366
    } else {
        365
    }
}

/// Days in `month` of `year`, for months 1 through 12.
pub open spec fn spec_days_in_month(year: int, month: int) -> int {
    if month == 4 || month == 6 || month == 9 || month == 11 {
        30
    } else if month == 2 {
        if spec_leap_year(year) {
            29
        } else {
            28
        }
    } else {
        31
    }
}

/// Days from 1970-01-01 up to the first day of `year`.
pub open spec fn spec_days_before_year(year: int) -> int
    decreases year,
{
    if year <= 1970 {
        0
    } else {
        spec_days_before_year(year - 1) + spec_days_in_year(year - 1)
    }
}

/// Days from the first day of `year` up to the first day of its `month`.
pub open spec fn spec_days_before_month(year: int, month: int) -> int
    decreases month,
{
    if month <= 1 {
        0
    } else {
        spec_days_before_month(year, month - 1) + spec_days_in_month(year, month - 1)
    }
}

pub proof fn lemma_days_before_year_bounds(year: int)
    requires
        1970 <= year,
    ensures
        365 * (year - 1970) <= spec_days_before_year(year) <= 366 * (year - 1970),
    decreases year,
{
    if year > 1970 {
        lemma_days_before_year_bounds(year - 1);
    }
}

pub proof fn lemma_days_before_month_bounds(year: int, month: int)
    requires
        1 <= month <= 13,
    ensures
        28 * (month - 1) <= spec_days_before_month(year, month) <= 31 * (month - 1),
    decreases month,
{
    if month > 1 {
        lemma_days_before_month_bounds(year, month - 1);
    }
}

/// A later year's cumulative day count includes every day of an earlier year.
pub proof fn lemma_days_before_year_step(y1: int, y2: int)
    requires
        1970 <= y1 < y2,
    ensures
        spec_days_before_year(y1) + spec_days_in_year(y1) <= spec_days_before_year(y2),
    decreases y2,
{
    if y2 > y1 + 1 {
        lemma_days_before_year_step(y1, y2 - 1);
    }
}

/// A later month's cumulative day count includes every day of an earlier month.
pub proof fn lemma_days_before_month_step(year: int, m1: int, m2: int)
    requires
        1 <= m1 < m2 <= 13,
    ensures
        spec_days_before_month(year, m1) + spec_days_in_month(year, m1) <= spec_days_before_month(
            year,
            m2,
        ),
    decreases m2,
{
    if m2 > m1 + 1 {
        lemma_days_before_month_step(year, m1, m2 - 1);
    }
}

/// The twelve month lengths of a year sum to its day count.
pub proof fn lemma_months_sum_to_year(year: int)
    ensures
        spec_days_before_month(year, 13) == spec_days_in_year(year),
{
    reveal_with_fuel(spec_days_before_month, 13);
}

/// Whether `year` is a Gregorian leap year.
pub fn leap_year(year: u16) -> (r: bool)
    ensures
        r == spec_leap_year(year as int),
{
    (year % 4 == 0 && year % 100 != 0) || year % 400 == 0
}

/// The number of days in `year`: 366 when it is a leap year, 365 otherwise.
pub fn days_of_the_year(year: u16) -> (days: u32)
    ensures
        days == spec_days_in_year(year as int),
{
    if leap_year(year) {
        366
    } else {
        365
    }
}

/// The number of days in `month` of `year`. As a public utility it
/// validates the month itself: anything outside 1 through 12 is a
/// [`IllegalTimeError::MonthNumberError`] rather than a crash.
pub fn days_of_the_month(year: u16, month: u8) -> (days: Result<u8, IllegalTimeError>)
    ensures
        1 <= month <= 12 ==> days == Ok::<u8, IllegalTimeError>(
            spec_days_in_month(year as int, month as int) as u8,
        ),
        !(1 <= month <= 12) ==> days == Err::<u8, IllegalTimeError>(
            IllegalTimeError::MonthNumberError,
        ),
{
    match month {
        1 | 3 | 5 | 7 | 8 | 10 | 12 => Ok(31),
        4 | 6 | 9 | 11 => Ok(30),
        2 => if leap_year(year) {
            Ok(29)
        } else {
            Ok(28)
        },
        _ => Err(IllegalTimeError::MonthNumberError),
    }
}

} // verus!
