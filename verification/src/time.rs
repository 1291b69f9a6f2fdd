//! A comparable instant decoded from a certificate validity time.
//!
//! The unit is seconds since 0000-01-01T00:00:00Z in the proleptic
//! Gregorian calendar, so every decodable certificate time is
//! representable without sign.

use vstd::prelude::*;
use crate::Error;

verus! {

/// A time, as seconds since 0000-01-01T00:00:00Z, totally ordered by the
/// contained scalar.
#[derive(Clone, Copy, Debug, PartialEq, Eq, Structural)]
pub struct Time(pub u64);

/// The Gregorian leap-year rule.
pub open spec fn spec_is_leap_year(year: int) -> bool {
    year % 4 == 0 && (year % 100 != 0 || year % 400 == 0)
}

/// Days in `month` of `year`, for months 1 through 12.
pub open spec fn spec_days_in_month(year: int, month: int) -> int {
    if month == 2 {
        if spec_is_leap_year(year) {
            29
        } else {
            28
        }
    } else if month == 4 || month == 6 || month == 9 || month == 11 {
        30
    } else {
        31
    }
}

/// Days in all the years before `year`, counted from year 0.
pub open spec fn spec_days_before_year(year: int) -> int {
    365 * year + (year + 3) / 4 - (year + 99) / 100 + (year + 399) / 400
}

/// Days in all the months of `year` before `month`.
pub open spec fn spec_days_before_month(year: int, month: int) -> int
    decreases month,
{
    if month <= 1 {
        0
    } else {
        spec_days_before_month(year, month - 1) + spec_days_in_month(year, month - 1)
    }
}

/// The scalar for the given calendar fields: whole days before the date,
/// then the seconds of the day.
pub open spec fn spec_time_value(
    year: int,
    month: int,
    day_of_month: int,
    hours: int,
    minutes: int,
    seconds: int,
) -> int {
    (spec_days_before_year(year) + spec_days_before_month(year, month) + day_of_month - 1) * 86400
        + hours * 3600 + minutes * 60 + seconds
}

/// Whether the calendar fields denote a valid Gregorian date and time of
/// day with a four-digit year.
pub open spec fn spec_fields_valid(
    year: int,
    month: int,
    day_of_month: int,
    hours: int,
    minutes: int,
    seconds: int,
) -> bool {
    &&& 0 <= year <= 9999
    &&& 1 <= month <= 12
    &&& 1 <= day_of_month <= spec_days_in_month(year, month)
    &&& 0 <= hours <= 23
    &&& 0 <= minutes <= 59
    &&& 0 <= seconds <= 59
}

/// Days in `month` of `year`, per [`spec_days_in_month`].
pub fn days_in_month(year: u64, month: u64) -> (r: u64)
    requires
        1 <= month <= 12,
    ensures
        r == spec_days_in_month(year as int, month as int),
        28 <= r <= 31,
{
    if month == 2 {
        if year % 4 == 0 && (year % 100 != 0 || year % 400 == 0) {
            29
        } else {
            28
        }
    } else if month == 4 || month == 6 || month == 9 || month == 11 {
        30
    } else {
        31
    }
}

proof fn lemma_days_before_month_bounds(year: int, month: int)
    requires
        1 <= month <= 13,
    ensures
        0 <= spec_days_before_month(year, month) <= 31 * (month - 1),
    decreases month,
{
    if month > 1 {
        lemma_days_before_month_bounds(year, month - 1);
    }
}

/// The instant for the given calendar fields.  Exactly the valid fields
/// are accepted; any deviation is `BadDERTime`.
pub fn time_from_ymdhms_utc(
    year: u64,
    month: u64,
    day_of_month: u64,
    hours: u64,
    minutes: u64,
    seconds: u64,
) -> (r: Result<Time, Error>)
    ensures
        spec_fields_valid(
            year as int,
            month as int,
            day_of_month as int,
            hours as int,
            minutes as int,
            seconds as int,
        ) ==> (r matches Ok(t) && t.0 == spec_time_value(
            year as int,
            month as int,
            day_of_month as int,
            hours as int,
            minutes as int,
            seconds as int,
        )),
        !spec_fields_valid(
            year as int,
            month as int,
            day_of_month as int,
            hours as int,
            minutes as int,
            seconds as int,
        ) ==> (r matches Err(e) && e == Error::BadDERTime),
{
    if year > 9999 || month < 1 || month > 12 {
        return Err(Error::BadDERTime);
    }
    if day_of_month < 1 || day_of_month > days_in_month(year, month) {
        return Err(Error::BadDERTime);
    }
    if hours > 23 || minutes > 59 || seconds > 59 {
        return Err(Error::BadDERTime);
    }
    let days_before_y: u64 = 365 * year + (year + 3) / 4 - (year + 99) / 100 + (year + 399) / 400;
    let mut days_before_m: u64 = 0;
    let mut m: u64 = 1;
    while m < month
        invariant
            1 <= m <= month <= 12,
            year <= 9999,
            days_before_m == spec_days_before_month(year as int, m as int),
            days_before_m <= 366,
        decreases month - m,
    {
        proof {
            lemma_days_before_month_bounds(year as int, m as int + 1);
        }
        days_before_m = days_before_m + days_in_month(year, m);
        m = m + 1;
    }
    let days: u64 = days_before_y + days_before_m + day_of_month - 1;
    let secs: u64 = days * 86400 + hours * 3600 + minutes * 60 + seconds;
    Ok(Time(secs))
}

} // verus!
