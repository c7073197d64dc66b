//! Points in time as text in the time zone of the machine.

use crate::text::{decimal, padded_decimal};
use vstd::prelude::*;
use vstd::string::*;

verus! {

/// The time patterns in use: a full date and time in two forms, a date with hours and minutes, and
/// hours and minutes alone.
pub open spec fn is_time_pattern(pattern: Seq<char>) -> bool {
    ||| pattern == "%Y-%m-%d %H:%M:%S"@
    ||| pattern == "%Y-%m-%dT%H:%M:%S"@
    ||| pattern == "%Y-%m-%d %H:%M"@
    ||| pattern == "%H:%M"@
}

/// Whether a number of seconds since 1970 lies in the years -262143 to 262142, which calendar
/// dates can express.
pub open spec fn is_calendar_time(timestamp: i64) -> bool {
    -8_334_601_228_800 <= timestamp <= 8_210_266_876_799
}

/// Whether a year has 366 days.
pub open spec fn is_leap_year(year: int) -> bool {
    year % 4 == 0 && (year % 100 != 0 || year % 400 == 0)
}

/// The days of a month, the first being January.
pub open spec fn days_of_month(year: int, month: int) -> int {
    if month == 2 {
        if is_leap_year(year) {
            29
        } else {
            28
        }
    } else if month == 4 || month == 6 || month == 9 || month == 11 {
        30
    } else {
        31
    }
}

/// The days of a year that lie before a month of it.
pub open spec fn days_before_month(year: int, month: int) -> int
    decreases month,
{
    if month <= 1 {
        0
    } else {
        days_before_month(year, month - 1) + days_of_month(year, month - 1)
    }
}

/// The days from the first of January 1970 to the first of January of a year: 365 for each year,
/// and one more for each leap year, of which 477 lie in the years 1 to 1969.
pub open spec fn days_before_year(year: int) -> int {
    365 * (year - 1970) + (year - 1) / 4 - (year - 1) / 100 + (year - 1) / 400 - 477
}

/// Whether a date of the Gregorian calendar is a number of days after the first of January 1970.
pub open spec fn is_date(year: int, month: int, day: int, days: int) -> bool {
    &&& 1 <= month <= 12
    &&& 1 <= day <= days_of_month(year, month)
    &&& days == days_before_year(year) + days_before_month(year, month) + day - 1
}

/// A year in at least four digits; outside of the years 0 to 9999 with its sign.
pub open spec fn year_text(year: int) -> Seq<char> {
    if 0 <= year <= 9999 {
        padded_decimal(year as nat, 4)
    } else if year > 9999 {
        "+"@ + decimal(year as nat)
    } else if year >= -9999 {
        "-"@ + padded_decimal((-year) as nat, 4)
    } else {
        "-"@ + decimal((-year) as nat)
    }
}

/// A date as year, month and day.
pub open spec fn date_text(year: int, month: int, day: int) -> Seq<char> {
    year_text(year) + "-"@ + padded_decimal(month as nat, 2) + "-"@ + padded_decimal(day as nat, 2)
}

/// A second of a day as hours and minutes.
pub open spec fn minute_text(second: int) -> Seq<char> {
    padded_decimal((second / 3600) as nat, 2) + ":"@ + padded_decimal(
        (second / 60 % 60) as nat,
        2,
    )
}

/// A second of a day as hours, minutes and seconds.
pub open spec fn second_text(second: int) -> Seq<char> {
    minute_text(second) + ":"@ + padded_decimal((second % 60) as nat, 2)
}

/// A date and a second of its day in a pattern.
pub open spec fn pattern_text(
    pattern: Seq<char>,
    year: int,
    month: int,
    day: int,
    second: int,
) -> Seq<char> {
    if pattern == "%H:%M"@ {
        minute_text(second)
    } else if pattern == "%Y-%m-%d %H:%M"@ {
        date_text(year, month, day) + " "@ + minute_text(second)
    } else if pattern == "%Y-%m-%dT%H:%M:%S"@ {
        date_text(year, month, day) + "T"@ + second_text(second)
    } else {
        date_text(year, month, day) + " "@ + second_text(second)
    }
}

/// Whether a text is a timestamp in a pattern, on a clock that is ahead of UTC by `offset` seconds.
pub open spec fn is_time_at_offset(
    timestamp: i64,
    offset: int,
    pattern: Seq<char>,
    text: Seq<char>,
) -> bool {
    exists|year: int, month: int, day: int| #[trigger]
        is_date(year, month, day, (timestamp + offset) / 86_400) && text == pattern_text(
            pattern,
            year,
            month,
            day,
            (timestamp + offset) % 86_400,
        )
}

/// Whether a text may be a timestamp in a pattern: on a clock less than a day off UTC it is. Which
/// one, the time zone of the machine decides.
pub open spec fn local_time_may_be(timestamp: i64, pattern: Seq<char>, text: Seq<char>) -> bool {
    exists|offset: int|
        -86_400 < offset < 86_400 && #[trigger] is_time_at_offset(timestamp, offset, pattern, text)
}

/// `chrono::DateTime::from_timestamp`, moved to the local time zone and formatted. There is a text
/// exactly for the timestamps that chrono's calendar can express: the date and the time of day in
/// the pattern, on a clock less than a day off UTC. By how much it is off depends on the time zone of
/// the machine and is left open. The patterns are limited to those that chrono can format.
#[verifier::external_body]
pub(crate) fn local_time_text(timestamp: i64, pattern: &str) -> (text: Option<String>)
    requires
        is_time_pattern(pattern@),
    ensures
        match text {
            Some(shown) => is_calendar_time(timestamp) && local_time_may_be(
                timestamp,
                pattern@,
                shown@,
            ),
            None => !is_calendar_time(timestamp),
        },
{
    chrono::DateTime::from_timestamp(timestamp, 0).map(
        |time| time.with_timezone(&chrono::Local).format(pattern).to_string(),
    )
}

} // verus!
