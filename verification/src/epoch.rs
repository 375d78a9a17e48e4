//! The epoch of a UNIX timestamp: how far the timestamp lies from noon of
//! 1 January 2000 (UTC), in whole days by the calendar and in seconds of the
//! day. Sidereal time is a function of this distance.

use chrono::{Datelike, Timelike};
use vstd::prelude::*;

verus! {

/// The distance of an instant from noon of 1 January 2000 (UTC).
#[derive(Clone, Copy, Debug, PartialEq, Eq, Structural)]
pub struct Epoch {
    /// The day number of the instant's calendar date, where 1 January 2000
    /// is day zero.
    pub days: i64,
    /// The seconds between noon of the instant's day and the instant:
    /// negative before noon.
    pub seconds: i64,
}

/// The quotient of `a` by a positive `b`, rounded toward zero.
pub open spec fn spec_div_toward_zero(a: int, b: int) -> int {
    if a >= 0 {
        a / b
    } else {
        -((-a) / b)
    }
}

/// The day number of a calendar date, where 1 January 2000 is day zero:
/// `367 y - 7 (y + (m + 9) / 12) / 4 + 275 m / 9 + d - 730531`, every
/// quotient rounded toward zero.
pub open spec fn spec_day_number(year: int, month: int, day: int) -> int {
    367 * year - spec_div_toward_zero(7 * (year + (month + 9) / 12), 4) + (275 * month) / 9 + day
        - 730531
}

/// Whether a year of the Gregorian calendar has a 29 February.
pub open spec fn is_leap_year(year: int) -> bool {
    year % 4 == 0 && (year % 100 != 0 || year % 400 == 0)
}

/// The number of days of a year of the Gregorian calendar.
pub open spec fn days_in_year(year: int) -> int {
    if is_leap_year(year) {
        366
    } else {
        365
    }
}

/// The number of days of a month of the Gregorian calendar.
pub open spec fn days_in_month(year: int, month: int) -> int {
    if month == 2 {
        if is_leap_year(year) {
            29
        } else {
            28
        }
    } else if month == 4 || month == 6 || month == 9 || month == 11 {
        30
    } else {
        31
    }
}

/// The number of days of a year that lie before the first day of a month.
pub open spec fn days_before_month(year: int, month: int) -> int
    decreases month,
{
    if month <= 1 {
        0
    } else {
        days_before_month(year, month - 1) + days_in_month(year, month - 1)
    }
}

/// The number of days from 1 January 2000 to 1 January of a year: negative
/// for a year before 2000.
pub open spec fn days_before_year(year: int) -> int
    decreases
            (if year >= 2000 {
                year - 2000
            } else {
                2000 - year
            }),
{
    if year == 2000 {
        0
    } else if year > 2000 {
        days_before_year(year - 1) + days_in_year(year - 1)
    } else {
        days_before_year(year + 1) - days_in_year(year)
    }
}

/// The number of days from 1 January 2000 to a date of the Gregorian
/// calendar, counted day by day.
pub open spec fn calendar_day_number(year: int, month: int, day: int) -> int {
    days_before_year(year) + days_before_month(year, month) + day - 1
}

/// From 1901 to 2100 every fourth year is a leap year, so the days before a
/// year have a closed form.
proof fn lemma_days_before_year(year: int)
    requires
        1901 <= year <= 2100,
    ensures
        days_before_year(year) == 365 * (year - 2000) + (year - 1) / 4 - 499,
    decreases
            (if year >= 2000 {
                year - 2000
            } else {
                2000 - year
            }),
{
    if year > 2000 {
        lemma_days_before_year(year - 1);
    } else if year < 2000 {
        lemma_days_before_year(year + 1);
    }
}

/// From 1901 to 2099 the day number of a date is the number of days of the
/// Gregorian calendar from 1 January 2000 to that date.
pub proof fn lemma_day_number_counts_days(year: int, month: int, day: int)
    requires
        1901 <= year <= 2099,
        1 <= month <= 12,
    ensures
        spec_day_number(year, month, day) == calendar_day_number(year, month, day),
{
    lemma_days_before_year(year);
    reveal_with_fuel(days_before_month, 13);
}

/// The days of a year follow those of the year before.
proof fn lemma_days_before_next_year(year: int)
    ensures
        days_before_year(year + 1) == days_before_year(year) + days_in_year(year),
{
}

/// A later year begins later.
proof fn lemma_days_before_year_grows(earlier: int, later: int)
    requires
        earlier <= later,
    ensures
        days_before_year(earlier) <= days_before_year(later),
    decreases later - earlier,
{
    if earlier < later {
        lemma_days_before_year_grows(earlier, later - 1);
        lemma_days_before_next_year(later - 1);
    }
}

/// The first second of 1901, counted from the start of 1970.
pub const FIRST_SECOND_OF_1901: i64 = -2_177_452_800;

/// The first second of 2100, counted from the start of 1970.
pub const FIRST_SECOND_OF_2100: i64 = 4_102_444_800;

/// The first second of the year 1, counted from the start of 1970.
pub const FIRST_SECOND_OF_YEAR_1: i64 = -62_135_596_800;

/// The last second of the year 9999, counted from the start of 1970.
pub const LAST_SECOND_OF_YEAR_9999: i64 = 253_402_300_799;

/// The number of the day that holds the UTC instant `secs` seconds after the
/// start of 1970, where 1 January 2000 is day zero.
pub open spec fn day_of(secs: i64) -> int {
    secs / 86400 - 10957
}

/// Whether `(year, month, day, seconds past midnight)` reads the UTC instant
/// `secs` seconds after the start of 1970 in the proleptic Gregorian
/// calendar: the month and the day exist, the date is the one of the day
/// that holds the instant, and the seconds are those since that day began.
pub open spec fn reads(civil: (i32, u32, u32, u32), secs: i64) -> bool {
    &&& 1 <= civil.1 <= 12
    &&& 1 <= civil.2 <= days_in_month(civil.0 as int, civil.1 as int)
    &&& calendar_day_number(civil.0 as int, civil.1 as int, civil.2 as int) == day_of(secs)
    &&& civil.3 == secs % 86400
}

/// A date that reads an instant from 1901 to 2099 has its year there.
proof fn lemma_year_of_instant(civil: (i32, u32, u32, u32), secs: i64)
    requires
        reads(civil, secs),
        FIRST_SECOND_OF_1901 <= secs < FIRST_SECOND_OF_2100,
    ensures
        1901 <= civil.0 <= 2099,
{
    let year = civil.0 as int;
    reveal_with_fuel(days_before_month, 13);
    lemma_days_before_year(1901);
    lemma_days_before_year(2100);
    lemma_days_before_next_year(year);
    if year >= 2100 {
        lemma_days_before_year_grows(2100, year);
    }
    if year <= 1900 {
        lemma_days_before_year_grows(year + 1, 1901);
    }
}

/// The calendar date (year, month, day) and the seconds past midnight that
/// `chrono` gives to the UTC instant `secs` seconds after the start of 1970,
/// or `None` where the instant lies outside the dates that `chrono`
/// represents.
pub uninterp spec fn utc_civil(secs: i64) -> Option<(i32, u32, u32, u32)>;

/// Calls `chrono::DateTime::from_timestamp` with no nanoseconds and reads the
/// year, month, day and seconds past midnight of what it returns.
///
/// Believed, not proved:
/// - the result is `utc_civil(secs)`, the same for the same `secs` every
///   time;
/// - a result reads the instant: `from_timestamp` takes the quotient of
///   `secs` by 86400 as the number of the day since 1 January 1970, which is
///   day 10957 after 1 January 2000, and gives it its date in the proleptic
///   Gregorian calendar; the remainder, taken with `rem_euclid`, is the
///   seconds past midnight;
/// - there is a result for every instant from the year 1 to the year 9999,
///   which lie well inside the dates that `chrono` represents.
#[verifier::external_body]
fn utc_civil_of(secs: i64) -> (r: Option<(i32, u32, u32, u32)>)
    ensures
        r == utc_civil(secs),
        r matches Some(civil) ==> reads(civil, secs),
        FIRST_SECOND_OF_YEAR_1 <= secs <= LAST_SECOND_OF_YEAR_9999 ==> r is Some,
{
    match chrono::DateTime::from_timestamp(secs, 0) {
        Some(t) => Some((t.year(), t.month(), t.day(), t.num_seconds_from_midnight())),
        None => None,
    }
}

impl Epoch {
    /// The epoch of the instant `seconds_from_midnight` seconds into the
    /// given calendar date.
    pub open spec fn spec_from_civil(civil: (i32, u32, u32, u32)) -> Epoch {
        Epoch {
            days: spec_day_number(civil.0 as int, civil.1 as int, civil.2 as int) as i64,
            seconds: (civil.3 - 43200) as i64,
        }
    }

    /// The epoch of the instant `seconds_from_midnight` seconds into the
    /// given calendar date.
    pub fn from_civil(year: i32, month: u32, day: u32, seconds_from_midnight: u32) -> (r: Epoch)
        ensures
            r == Epoch::spec_from_civil((year, month, day, seconds_from_midnight)),
            r.days == spec_day_number(year as int, month as int, day as int),
            r.seconds == seconds_from_midnight - 43200,
    {
        Epoch { days: day_number(year, month, day), seconds: seconds_from_midnight as i64 - 43200 }
    }
}

/// The day number of a calendar date, where 1 January 2000 is day zero.
pub fn day_number(year: i32, month: u32, day: u32) -> (r: i64)
    ensures
        r == spec_day_number(year as int, month as int, day as int),
{
    let y: i64 = year as i64;
    let m: i64 = month as i64;
    let d: i64 = day as i64;
    367 * y - (7 * (y + (m + 9) / 12)) / 4 + 275 * m / 9 + d - 730531
}

/// The epoch of a UNIX timestamp, or `None` where the calendar does not
/// reach the timestamp.
pub open spec fn spec_epoch(secs: i64) -> Option<Epoch> {
    match utc_civil(secs) {
        Some(civil) => Some(Epoch::spec_from_civil(civil)),
        None => None,
    }
}

/// The epoch of the UTC instant `secs` seconds after the start of 1970, or
/// `None` where the calendar does not reach the instant. There is an epoch
/// for every instant from the year 1 to the year 9999. The seconds of the
/// epoch are `secs` modulo 86400, less the 43200 of half a day; for an
/// instant from 1901 to 2099 its days are the days of the calendar from
/// 1 January 2000 to the day that holds the instant.
pub fn epoch(secs: i64) -> (r: Option<Epoch>)
    ensures
        r == spec_epoch(secs),
        r matches Some(e) ==> e.seconds == secs % 86400 - 43200,
        FIRST_SECOND_OF_YEAR_1 <= secs <= LAST_SECOND_OF_YEAR_9999 ==> r is Some,
        FIRST_SECOND_OF_1901 <= secs < FIRST_SECOND_OF_2100 ==> r == Some(
            (Epoch { days: day_of(secs) as i64, seconds: (secs % 86400 - 43200) as i64 }),
        ),
{
    match utc_civil_of(secs) {
        Some(civil) => {
            proof {
                if FIRST_SECOND_OF_1901 <= secs < FIRST_SECOND_OF_2100 {
                    lemma_year_of_instant(civil, secs);
                    lemma_day_number_counts_days(
                        civil.0 as int,
                        civil.1 as int,
                        civil.2 as int,
                    );
                }
            }
            Some(Epoch::from_civil(civil.0, civil.1, civil.2, civil.3))
        },
        None => None,
    }
}

} // verus!
