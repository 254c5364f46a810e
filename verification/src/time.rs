//! Points in time, as calendars and clocks show them.
use chrono::{DateTime, Datelike, Local, NaiveDate, NaiveDateTime, NaiveTime, TimeZone, Timelike, Utc};
use vstd::prelude::*;

use crate::clock::{clock_reads, read_clock};
use crate::text::opt_text;

verus! {

/// A date and a time of day.
#[derive(Clone, Copy, Debug, PartialEq, Eq)]
pub struct Civil {
    pub year: i32,
    pub month: u32,
    pub day: u32,
    pub hour: u32,
    pub minute: u32,
    pub second: u32,
    /// Nanoseconds within the second; a thousand million and more within a leap
    /// second.
    pub nano: u32,
}

/// A point in time.
#[derive(Clone, Copy, Debug, PartialEq, Eq)]
pub struct Timestamp {
    /// What clocks show at its place.
    pub civil: Civil,
    /// By how many seconds those clocks are ahead of UTC.
    pub offset: i32,
    /// The nanoseconds since the epoch, where they fit.
    pub unix_nanos: Option<i64>,
}

/// Whether a year has a 29th of February.
pub open spec fn leap_year(year: int) -> bool {
    year % 4 == 0 && (year % 100 != 0 || year % 400 == 0)
}

/// The number of days in a month.
pub open spec fn month_days(year: int, month: int) -> int {
    if month == 2 {
        if leap_year(year) {
            29
        } else {
            28
        }
    } else if month == 4 || month == 6 || month == 9 || month == 11 {
        30
    } else {
        31
    }
}

/// Whether there is such a day in the calendar, in a year that dates are kept for.
pub open spec fn calendar_date(year: int, month: int, day: int) -> bool {
    &&& -262143 <= year <= 262142
    &&& 1 <= month <= 12
    &&& 1 <= day <= month_days(year, month)
}

/// `NaiveDate::from_ymd_opt` gives a date where the calendar has that day and the
/// year is one of those that a `NaiveDate` can hold.
#[verifier::external_body]
pub(crate) fn date_exists(year: i32, month: u32, day: u32) -> (res: bool)
    ensures
        res == calendar_date(year as int, month as int, day as int),
{
    NaiveDate::from_ymd_opt(year, month, day).is_some()
}

/// The number that two digits denote.
pub open spec fn two_digits(a: char, b: char) -> int {
    (a as int - '0' as int) * 10 + (b as int - '0' as int)
}

/// Whether a text has the form of a time of day: three pairs of digits with
/// colons between them.
pub open spec fn time_form(s: Seq<char>) -> bool {
    &&& s.len() == 8
    &&& forall|i: int|
        0 <= i < 8 ==> (if i == 2 || i == 5 {
            #[trigger] s[i] == ':'
        } else {
            '0' <= s[i] && s[i] <= '9'
        })
}

/// The time of day that a text of that form denotes: hours up to 23, minutes up to
/// 59, seconds up to 59, or 60 for a leap second, which is kept as more than a
/// thousand million nanoseconds of the 59th.
pub open spec fn time_of_day(s: Seq<char>) -> Option<(u32, u32, u32, u32)> {
    let h = two_digits(s[0], s[1]);
    let m = two_digits(s[3], s[4]);
    let sec = two_digits(s[6], s[7]);
    if h <= 23 && m <= 59 && sec <= 59 {
        Some((h as u32, m as u32, sec as u32, 0u32))
    } else if h <= 23 && m <= 59 && sec == 60 {
        Some((h as u32, m as u32, 59u32, 1_000_000_000u32))
    } else {
        None
    }
}

/// `NaiveTime::parse_from_str` with the format `%H:%M:%S`, on a text that has the
/// form: the hour, minute, second and nanosecond of the time it denotes.
#[verifier::external_body]
pub(crate) fn parse_time(s: &str) -> (res: Option<(u32, u32, u32, u32)>)
    requires
        time_form(s@),
    ensures
        res == time_of_day(s@),
{
    match NaiveTime::parse_from_str(s, "%H:%M:%S") {
        Ok(t) => Some((t.hour(), t.minute(), t.second(), t.nanosecond())),
        Err(_) => None,
    }
}

/// The point in time that a text denotes by RFC 3339, as
/// `DateTime::parse_from_rfc3339` reads it.
pub uninterp spec fn rfc3339(s: Seq<char>) -> Option<Timestamp>;

/// `DateTime::parse_from_rfc3339` is fixed by the text alone.
#[verifier::external_body]
pub(crate) fn parse_rfc3339(s: &str) -> (res: Option<Timestamp>)
    ensures
        res == rfc3339(s@),
{
    match DateTime::parse_from_rfc3339(s) {
        Ok(t) => Some(
            Timestamp {
                civil: Civil {
                    year: t.year(), month: t.month(), day: t.day(),
                    hour: t.hour(), minute: t.minute(), second: t.second(), nano: t.nanosecond(),
                },
                offset: t.offset().local_minus_utc(),
                unix_nanos: t.timestamp_nanos_opt(),
            },
        ),
        Err(_) => None,
    }
}

/// The nanoseconds since the epoch, where they fit, of the point in time that a
/// text denotes by RFC 2822, as `DateTime::parse_from_rfc2822` reads it.
pub uninterp spec fn rfc2822(s: Seq<char>) -> Option<Option<i64>>;

/// `DateTime::parse_from_rfc2822` is fixed by the text alone.
#[verifier::external_body]
pub(crate) fn parse_rfc2822(s: &str) -> (res: Option<Option<i64>>)
    ensures
        res == rfc2822(s@),
{
    match DateTime::parse_from_rfc2822(s) {
        Ok(t) => Some(t.timestamp_nanos_opt()),
        Err(_) => None,
    }
}

/// The nanoseconds since the epoch, where they fit, of the date and time in UTC
/// that a text denotes, as `NaiveDateTime::parse_from_str` reads it by the given
/// format.
pub uninterp spec fn naive_datetime(s: Seq<char>, format: Seq<char>) -> Option<Option<i64>>;

/// `NaiveDateTime::parse_from_str` is fixed by the text and the format alone.
#[verifier::external_body]
pub(crate) fn parse_naive(s: &str, format: &str) -> (res: Option<Option<i64>>)
    ensures
        res == naive_datetime(s@, format@),
{
    match NaiveDateTime::parse_from_str(s, format) {
        Ok(t) => Some(t.and_utc().timestamp_nanos_opt()),
        Err(_) => None,
    }
}

/// `TimeZone::timestamp_opt` of the machine's time zone: what clocks show there so many
/// seconds and nanoseconds after the epoch. `None` where that is out of range. Which offset
/// the zone has is not claimed; the machine's zone is taken to be less than a day from UTC,
/// as zones are.
#[verifier::external_body]
fn local_at(secs: i64, nanos: u32) -> (res: Option<Timestamp>) {
    Local.timestamp_opt(secs, nanos).single().map(|t| Timestamp {
        civil: Civil {
            year: t.year(), month: t.month(), day: t.day(),
            hour: t.hour(), minute: t.minute(), second: t.second(), nano: t.nanosecond(),
        },
        offset: t.offset().local_minus_utc(),
        unix_nanos: t.timestamp_nanos_opt(),
    })
}

/// The seconds and nanoseconds that a reading of the clock stands for, where they fit a
/// timestamp.
pub open spec fn since_epoch(since: Option<(u64, u32)>) -> Option<(i64, u32)> {
    match since {
        Some((secs, nanos)) => if secs <= i64::MAX {
            Some((secs as i64, nanos))
        } else {
            None
        },
        None => None,
    }
}

/// The seconds and nanoseconds that a reading of the clock stands for.
pub fn fit_reading(since: Option<(u64, u32)>) -> (res: Option<(i64, u32)>)
    ensures
        res == since_epoch(since),
{
    match since {
        Some((secs, nanos)) => if secs <= i64::MAX as u64 {
            Some((secs as i64, nanos))
        } else {
            None
        },
        None => None,
    }
}

/// Whether the machine's clock and time zone read this: what `local_at` makes of what the
/// clock reads, and nothing where the clock stands before the epoch or out of range.
pub closed spec fn local_clock_reads(now: Option<Timestamp>) -> bool {
    exists|since: Option<(u64, u32)>| #[trigger]
        clock_reads(since) && match since_epoch(since) {
            Some((secs, nanos)) => call_ensures(local_at, (secs, nanos), now),
            None => now is None,
        }
}

/// The time now, at the machine's place. `None` where the clock stands before the epoch or
/// out of range.
pub(crate) fn local_now() -> (res: Option<Timestamp>)
    ensures
        local_clock_reads(res),
{
    let since = read_clock();
    assert(clock_reads(since));
    match fit_reading(since) {
        Some((secs, nanos)) => local_at(secs, nanos),
        None => None,
    }
}

/// Whether there is such a time on such a day.
pub open spec fn civil_exists(c: Civil) -> bool {
    &&& calendar_date(c.year as int, c.month as int, c.day as int)
    &&& c.hour < 24 && c.minute < 60 && c.second < 60
    &&& c.nano < 1_000_000_000 || (c.second == 59 && c.nano < 2_000_000_000)
}

/// `TimeZone::from_local_datetime` of the machine's time zone: the point in time
/// at which clocks show this, the first where they do so twice, none where they
/// never do. Which offset the zone has is not claimed.
#[verifier::external_body]
fn local_timestamp(c: Civil) -> (res: Option<Timestamp>)
    requires
        civil_exists(c),
    ensures
        res matches Some(t) ==> t.civil == c,
{
    NaiveDate::from_ymd_opt(c.year, c.month, c.day)
        .and_then(|d| d.and_hms_nano_opt(c.hour, c.minute, c.second, c.nano))
        .and_then(|n| Local.from_local_datetime(&n).earliest())
        .map(|t| Timestamp {
            civil: Civil {
                year: t.year(), month: t.month(), day: t.day(),
                hour: t.hour(), minute: t.minute(), second: t.second(), nano: t.nanosecond(),
            },
            offset: t.offset().local_minus_utc(),
            unix_nanos: t.timestamp_nanos_opt(),
        })
}

/// Whether this is what `local_timestamp` makes of a date and time.
pub closed spec fn local_time_resolves(c: Civil, resolved: Option<Timestamp>) -> bool {
    call_ensures(local_timestamp, (c,), resolved)
}

/// The point in time at which local clocks show this, where there is one.
pub(crate) fn resolve(c: Civil) -> (res: Option<Timestamp>)
    requires
        civil_exists(c),
    ensures
        local_time_resolves(c, res),
        res matches Some(t) ==> t.civil == c,
{
    local_timestamp(c)
}

/// `TimeZone::timestamp_opt` of the machine's time zone, with the year as text, as the
/// format `%Y` has it: the year there so many seconds and nanoseconds after the epoch.
/// `None` where that is out of range. Which offset the zone has is not claimed; the
/// machine's zone is taken to be less than a day from UTC, as zones are.
#[verifier::external_body]
fn local_year_at(secs: i64, nanos: u32) -> (res: Option<String>) {
    Local.timestamp_opt(secs, nanos).single().map(|t| t.format("%Y").to_string())
}

/// The year in UTC so many seconds and nanoseconds after the epoch, as text, as
/// `TimeZone::timestamp_opt` gives it and the format `%Y` has it. `None` where that is out
/// of range.
pub uninterp spec fn utc_year_text(secs: i64, nanos: u32) -> Option<Seq<char>>;

/// `TimeZone::timestamp_opt` of UTC, with the year as text, as the format `%Y` has it: fixed
/// by the seconds and nanoseconds alone.
#[verifier::external_body]
fn utc_year_at(secs: i64, nanos: u32) -> (res: Option<String>)
    ensures
        opt_text(res) == utc_year_text(secs, nanos),
{
    Utc.timestamp_opt(secs, nanos).single().map(|t| t.format("%Y").to_string())
}

/// Whether this is the year by the machine's clock and time zone: what `local_year_at`
/// makes of what the clock reads, and none where the clock stands before the epoch or out
/// of range.
pub closed spec fn local_year_reads(year: Option<Seq<char>>) -> bool {
    exists|since: Option<(u64, u32)>, y: Option<String>| #[trigger]
        clock_reads(since) && year == #[trigger] opt_text(y) && match since_epoch(since) {
            Some((secs, nanos)) => call_ensures(local_year_at, (secs, nanos), y),
            None => y is None,
        }
}

/// The year in UTC that a reading of the clock comes to.
pub open spec fn utc_year_of(since: Option<(u64, u32)>) -> Option<Seq<char>> {
    match since_epoch(since) {
        Some((secs, nanos)) => utc_year_text(secs, nanos),
        None => None,
    }
}

/// Whether this is the year in UTC by the machine's clock, and none where the clock stands
/// before the epoch or out of range.
pub open spec fn utc_year_reads(year: Option<Seq<char>>) -> bool {
    exists|since: Option<(u64, u32)>| #[trigger] clock_reads(since) && year == utc_year_of(since)
}

/// The current year at the machine's place.
pub(crate) fn local_year() -> (res: Option<String>)
    ensures
        local_year_reads(opt_text(res)),
{
    let since = read_clock();
    assert(clock_reads(since));
    match fit_reading(since) {
        Some((secs, nanos)) => local_year_at(secs, nanos),
        None => None,
    }
}

/// The current year in UTC.
pub(crate) fn utc_year() -> (res: Option<String>)
    ensures
        utc_year_reads(opt_text(res)),
{
    let since = read_clock();
    assert(clock_reads(since));
    match fit_reading(since) {
        Some((secs, nanos)) => utc_year_at(secs, nanos),
        None => None,
    }
}

/// The text of a year, where there is one.
pub open spec fn year_view(year: Option<&str>) -> Option<Seq<char>> {
    match year {
        Some(y) => Some(y@),
        None => None,
    }
}

/// The text of a year, where there is one.
pub(crate) fn year_str(year: &Option<String>) -> (res: Option<&str>)
    ensures
        year_view(res) == opt_text(*year),
{
    match year {
        Some(y) => Some(y.as_str()),
        None => None,
    }
}

} // verus!
