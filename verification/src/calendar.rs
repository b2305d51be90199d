use vstd::prelude::*;

verus! {

/// The first year that a calendar date can name.
pub const MIN_YEAR: i32 = -262143;

/// The last year that a calendar date can name.
pub const MAX_YEAR: i32 = 262142;

/// The slot of the leap day in the year of 366 slots.
pub const LEAP_DAY_SLOT: u32 = 59;

/// The leap years of the proleptic Gregorian calendar.
pub open spec fn is_leap_year(year: int) -> bool {
    year % 4 == 0 && (year % 100 != 0 || year % 400 == 0)
}

pub open spec fn days_in_year(leap_year: bool) -> int {
    if leap_year {
        366
    } else {
        365
    }
}

pub open spec fn days_in_month(leap_year: bool, month: int) -> int {
    if month == 2 {
        if leap_year {
            29
        } else {
            28
        }
    } else if month == 4 || month == 6 || month == 9 || month == 11 {
        30
    } else {
        31
    }
}

/// The days of the year that lie before the first of `month`.
pub open spec fn days_before_month(leap_year: bool, month: int) -> int
    decreases month,
{
    if month <= 1 {
        0
    } else {
        days_before_month(leap_year, month - 1) + days_in_month(leap_year, month - 1)
    }
}

/// The calendar has a day `day` in month `month` of year `year`.
pub open spec fn valid_date(year: int, month: int, day: int) -> bool {
    &&& MIN_YEAR <= year <= MAX_YEAR
    &&& 1 <= month <= 12
    &&& 1 <= day <= days_in_month(is_leap_year(year), month)
}

/// The day of the year, counted from zero, in a leap year or a common one.
pub open spec fn ordinal0(leap_year: bool, month: int, day: int) -> int {
    days_before_month(leap_year, month) + day - 1
}

/// The slot, in the year of 366 slots, of the day that is number `ordinal0`
/// of its year: a common year passes over the slot of the leap day.
pub open spec fn slot_of_ordinal(leap_year: bool, ordinal0: int) -> int {
    if !leap_year && ordinal0 >= LEAP_DAY_SLOT {
        ordinal0 + 1
    } else {
        ordinal0
    }
}

/// The slot of a calendar date.
pub open spec fn slot(year: int, month: int, day: int) -> int {
    slot_of_ordinal(is_leap_year(year), ordinal0(is_leap_year(year), month, day))
}

/// The days before each month, written out.
pub proof fn lemma_days_before_month(leap_year: bool, month: int)
    requires
        1 <= month <= 12,
    ensures
        days_before_month(leap_year, month) == (if month == 1 {
            0int
        } else if month == 2 {
            31
        } else if month == 3 {
            59
        } else if month == 4 {
            90
        } else if month == 5 {
            120
        } else if month == 6 {
            151
        } else if month == 7 {
            181
        } else if month == 8 {
            212
        } else if month == 9 {
            243
        } else if month == 10 {
            273
        } else if month == 11 {
            304
        } else {
            334
        }) + (if leap_year && month > 2 {
            1int
        } else {
            0
        }),
{
    reveal_with_fuel(days_before_month, 13);
}

/// A day of a year has a number below the length of that year.
pub proof fn lemma_ordinal0_in_year(year: int, month: int, day: int)
    requires
        valid_date(year, month, day),
    ensures
        0 <= ordinal0(is_leap_year(year), month, day) < days_in_year(is_leap_year(year)),
{
    lemma_days_before_month(is_leap_year(year), month);
}

/// A date has the slot that it has in a leap year, whatever its own year:
/// the same day of the same month shares one slot in all years, and the
/// slots run from 0 for the first of January to 365 for the last of December.
pub proof fn lemma_slot_by_month_and_day(year: int, month: int, day: int)
    requires
        valid_date(year, month, day),
    ensures
        slot(year, month, day) == ordinal0(true, month, day),
        0 <= slot(year, month, day) <= 365,
        !is_leap_year(year) ==> slot(year, month, day) != LEAP_DAY_SLOT,
{
    lemma_days_before_month(is_leap_year(year), month);
    lemma_days_before_month(true, month);
}

/// Whether the year of a calendar date is a leap year, and the day's number
/// in its year, counted from zero; `None` where the calendar has no such date.
///
/// Trusted: builds the date with `chrono::NaiveDate::from_ymd_opt` and reads
/// it with `NaiveDate::leap_year` and `Datelike::ordinal0`. The contract
/// claims that chrono accepts exactly the dates of the proleptic Gregorian
/// calendar in the years `MIN_YEAR..=MAX_YEAR`, and counts the days of a year
/// as that calendar does.
#[verifier::external_body]
pub(crate) fn calendar_day(year: i32, month: u32, day: u32) -> (found: Option<(bool, u32)>)
    ensures
        found == (if valid_date(year as int, month as int, day as int) {
            Some(
                (
                    is_leap_year(year as int),
                    ordinal0(is_leap_year(year as int), month as int, day as int) as u32,
                ),
            )
        } else {
            None
        }),
{
    match chrono::NaiveDate::from_ymd_opt(year, month, day) {
        Some(date) => Some((date.leap_year(), chrono::Datelike::ordinal0(&date))),
        None => None,
    }
}

} // verus!
