//! Calendar dates and times of day of moments, by way of the `chrono` crate.

use chrono::{DateTime, Datelike, FixedOffset};
use vstd::prelude::*;
use crate::number::{padded, padded_int};

verus! {

/// The first second that a calendar date can be given to.
pub const FIRST_SECOND: i64 = -8334601228800;

/// The last second that a calendar date can be given to.
pub const LAST_SECOND: i64 = 8210266876799;

/// The seconds of a day.
pub const DAY_SECONDS: i64 = 86400;

/// Whether a year of the Gregorian calendar is a leap year.
pub open spec fn is_leap(year: int) -> bool {
    year % 4 == 0 && (year % 100 != 0 || year % 400 == 0)
}

/// The number of days of a month.
pub open spec fn month_days(year: int, month: int) -> int {
    if month == 2 {
        if is_leap(year) {
            29
        } else {
            28
        }
    } else if month == 4 || month == 6 || month == 9 || month == 11 {
        30
    } else {
        31
    }
}

/// The number of days of a year before one of its months.
pub open spec fn days_before_month(year: int, month: int) -> int
    decreases month,
{
    if month <= 1 {
        0
    } else {
        days_before_month(year, month - 1) + month_days(year, month - 1)
    }
}

/// The number of days from the first of January of year 1 to that of a year.
pub open spec fn days_before_year(year: int) -> int {
    365 * (year - 1) + (year - 1) / 4 - (year - 1) / 100 + (year - 1) / 400
}

/// Whether year, month and day are the date of a day in the Gregorian calendar, where
/// days are counted from the first of January 1970.
pub open spec fn is_date(date: (int, int, int), day: int) -> bool {
    let (year, month, day_of_month) = date;
    &&& 1 <= month <= 12
    &&& 1 <= day_of_month <= month_days(year, month)
    &&& days_before_year(year) + days_before_month(year, month) + day_of_month == day + 719163
}

/// The date of a day, by year, month and day of the month.
pub open spec fn date_on(day: int) -> (int, int, int) {
    choose|date: (int, int, int)| is_date(date, day)
}

/// A day has at most one date.
pub proof fn law_date_is_unique(a: (int, int, int), b: (int, int, int), day: int)
    requires
        is_date(a, day),
        is_date(b, day),
    ensures
        a == b,
        a == date_on(day),
{
    lemma_dates_agree(a, b, day);
    lemma_dates_agree(a, date_on(day), day);
}

proof fn lemma_dates_agree(a: (int, int, int), b: (int, int, int), day: int)
    requires
        is_date(a, day),
        is_date(b, day),
    ensures
        a == b,
{
    lemma_day_of_year(a.0, a.1, a.2);
    lemma_day_of_year(b.0, b.1, b.2);
    if a.0 < b.0 {
        lemma_years_add_up(a.0 + 1, b.0);
    } else if b.0 < a.0 {
        lemma_years_add_up(b.0 + 1, a.0);
    } else if a.1 < b.1 {
        lemma_months_add_up(a.0, a.1, b.1);
    } else if b.1 < a.1 {
        lemma_months_add_up(a.0, b.1, a.1);
    }
}

/// A later month begins after an earlier one has ended.
proof fn lemma_months_add_up(year: int, earlier: int, later: int)
    requires
        1 <= earlier < later,
    ensures
        days_before_month(year, later) >= days_before_month(year, earlier) + month_days(
            year,
            earlier,
        ),
    decreases later,
{
    if earlier < later - 1 {
        lemma_months_add_up(year, earlier, later - 1);
    }
}

/// A date lies within its year.
proof fn lemma_day_of_year(year: int, month: int, day: int)
    requires
        1 <= month <= 12,
        1 <= day <= month_days(year, month),
    ensures
        1 <= days_before_month(year, month) + day,
        days_before_year(year) + days_before_month(year, month) + day <= days_before_year(year + 1),
{
    lemma_months_add_up(year, month, 13);
    reveal_with_fuel(days_before_month, 13);
    assert(days_before_month(year, 13) == if is_leap(year) {
        366int
    } else {
        365int
    });
}

/// A later year does not begin before an earlier one.
proof fn lemma_years_add_up(earlier: int, later: int)
    requires
        earlier <= later,
    ensures
        days_before_year(earlier) <= days_before_year(later),
    decreases later - earlier,
{
    if earlier < later {
        lemma_years_add_up(earlier, later - 1);
    }
}

/// Calls `chrono::DateTime::from_timestamp_secs`.
///
/// Claimed of it: it accepts exactly the seconds of its calendar range.
#[verifier::external_body]
pub(crate) fn has_date(secs: i64) -> (r: bool)
    ensures
        r == (FIRST_SECOND <= secs <= LAST_SECOND),
{
    DateTime::from_timestamp_secs(secs).is_some()
}

/// Calls `year`, `month` and `day` of `chrono::Datelike` on the moment, moved to the
/// given offset from UTC.
///
/// Claimed of them: they give the date of the day, in the Gregorian calendar, that the
/// moment falls on at that offset.
#[verifier::external_body]
pub(crate) fn date_of(secs: i64, offset: i32) -> (date: (i32, u32, u32))
    requires
        FIRST_SECOND <= secs <= LAST_SECOND,
        -DAY_SECONDS < offset < DAY_SECONDS,
    ensures
        is_date(
            (date.0 as int, date.1 as int, date.2 as int),
            (secs + offset) / DAY_SECONDS as int,
        ),
{
    let zone = FixedOffset::east_opt(offset).unwrap();
    let moment = DateTime::from_timestamp_secs(secs).unwrap().with_timezone(&zone);
    (moment.year(), moment.month(), moment.day())
}

/// A second of the day as hours, minutes and seconds.
pub open spec fn time_text(second: int) -> Seq<char> {
    padded_int(second / 3600, 2) + ":"@ + padded_int(second / 60 % 60, 2) + ":"@ + padded_int(
        second % 60,
        2,
    )
}

/// The time of day of a moment, at the given offset from UTC.
pub fn time_of(secs: i64, offset: i32) -> (s: String)
    requires
        FIRST_SECOND <= secs <= LAST_SECOND,
        -DAY_SECONDS < offset < DAY_SECONDS,
    ensures
        s@ == time_text((secs + offset) % DAY_SECONDS as int),
{
    let local: i64 = secs + offset as i64;
    // shifted by whole days, so that the remainder is not negative
    let shifted: i64 = local + 96500000 * DAY_SECONDS;
    let second: i64 = shifted % DAY_SECONDS;
    proof {
        assert(shifted >= 0);
        assert(second == local as int % DAY_SECONDS as int);
    }
    let mut s = padded((second / 3600) as i128, 2);
    s.append(":");
    s.append(padded((second / 60 % 60) as i128, 2).as_str());
    s.append(":");
    s.append(padded((second % 60) as i128, 2).as_str());
    s
}

/// A year with at least four digits, and with its sign where it has more or is negative.
pub open spec fn year_text(year: int) -> Seq<char> {
    if 0 <= year <= 9999 {
        padded_int(year, 4)
    } else if year < 0 {
        padded_int(year, 5)
    } else {
        "+"@ + padded_int(year, 4)
    }
}

/// A date as year, month and day.
pub open spec fn date_text(date: (int, int, int)) -> Seq<char> {
    year_text(date.0) + "-"@ + padded_int(date.1, 2) + "-"@ + padded_int(date.2, 2)
}

/// Nanoseconds as a fraction of a second, in three, six or nine digits; nothing for none.
pub open spec fn fraction_text(nanos: int) -> Seq<char> {
    if nanos == 0 {
        Seq::empty()
    } else if nanos % 1000000 == 0 {
        "."@ + padded_int(nanos / 1000000, 3)
    } else if nanos % 1000 == 0 {
        "."@ + padded_int(nanos / 1000, 6)
    } else {
        "."@ + padded_int(nanos, 9)
    }
}

/// An offset from UTC with its sign, as hours and minutes, and seconds where there are any.
pub open spec fn offset_text(offset: int) -> Seq<char> {
    let (sign, size) = if offset < 0 {
        ("-"@, -offset)
    } else {
        ("+"@, offset)
    };
    sign + padded_int(size / 3600, 2) + ":"@ + padded_int(size / 60 % 60, 2) + if size % 60 == 0 {
        Seq::empty()
    } else {
        ":"@ + padded_int(size % 60, 2)
    }
}

/// Date, time of day and offset of a moment, at the given offset from UTC.
pub open spec fn moment_text(secs: int, nanos: int, offset: int) -> Seq<char> {
    date_text(date_on((secs + offset) / DAY_SECONDS as int)) + " "@ + time_text(
        (secs + offset) % DAY_SECONDS as int,
    ) + fraction_text(nanos) + " "@ + offset_text(offset)
}

/// Calls `to_string` on the `chrono::DateTime` of the moment, moved to the given offset
/// from UTC.
///
/// Claimed of it: it writes the Gregorian date, the time of day with its fraction, and
/// the offset, with a space between them.
#[verifier::external_body]
pub(crate) fn display_moment(secs: i64, nanos: u32, offset: i32) -> (s: String)
    requires
        FIRST_SECOND <= secs <= LAST_SECOND,
        nanos < 1000000000,
        -DAY_SECONDS < offset < DAY_SECONDS,
    ensures
        s@ == moment_text(secs as int, nanos as int, offset as int),
{
    let zone = FixedOffset::east_opt(offset).unwrap();
    DateTime::from_timestamp(secs, nanos).unwrap().with_timezone(&zone).to_string()
}

/// The months have 31 days, but for four with 30 and February, which has 29 in every fourth
/// year save in those full hundreds that are not divided by four hundred, and 28 otherwise.
pub proof fn law_month_days(year: int, month: int)
    requires
        1 <= month <= 12,
    ensures
        month == 4 || month == 6 || month == 9 || month == 11 ==> month_days(year, month) == 30,
        month != 2 && month != 4 && month != 6 && month != 9 && month != 11 ==> month_days(
            year,
            month,
        ) == 31,
        year % 400 == 0 ==> month_days(year, 2) == 29,
        year % 100 == 0 && year % 400 != 0 ==> month_days(year, 2) == 28,
        year % 4 == 0 && year % 100 != 0 ==> month_days(year, 2) == 29,
        year % 4 != 0 ==> month_days(year, 2) == 28,
{
}

/// Days are counted from the first of January 1970, and dates follow one another: day by
/// day, then month by month, then year by year.
pub proof fn law_next_day(year: int, month: int, day_of_month: int, day: int)
    requires
        is_date((year, month, day_of_month), day),
    ensures
        is_date((1970, 1, 1), 0),
        day_of_month < month_days(year, month) ==> is_date(
            (year, month, day_of_month + 1),
            day + 1,
        ),
        day_of_month == month_days(year, month) && month < 12 ==> is_date(
            (year, month + 1, 1),
            day + 1,
        ),
        day_of_month == month_days(year, month) && month == 12 ==> is_date(
            (year + 1, 1, 1),
            day + 1,
        ),
{
    if month == 12 {
        reveal_with_fuel(days_before_month, 13);
        assert(days_before_month(year, 13) == if is_leap(year) {
            366int
        } else {
            365int
        });
    }
}

/// A time of day is written as hours, minutes and seconds.
pub proof fn law_time_text(hours: int, minutes: int, seconds: int)
    requires
        0 <= hours,
        0 <= minutes < 60,
        0 <= seconds < 60,
    ensures
        time_text(hours * 3600 + minutes * 60 + seconds) == padded_int(hours, 2) + ":"@ + padded_int(
            minutes,
            2,
        ) + ":"@ + padded_int(seconds, 2),
{
    let second = hours * 3600 + minutes * 60 + seconds;
    assert(second / 3600 == hours && second % 60 == seconds);
    assert(second / 60 == hours * 60 + minutes);
    assert((hours * 60 + minutes) % 60 == minutes);
}

}
