//! Wall clock time: the present second, time zones, local times and dates.

use chrono::{Datelike, Offset, Timelike};
use vstd::prelude::*;

verus! {

/// A day of the week.
#[derive(Copy, Clone, Debug, PartialEq, Eq, Structural)]
pub enum Weekday {
    Mon,
    Tue,
    Wed,
    Thu,
    Fri,
    Sat,
    Sun,
}

/// The day that comes `n` days after a Monday.
pub open spec fn weekday_after_monday(n: int) -> Weekday {
    if n % 7 == 0 {
        Weekday::Mon
    } else if n % 7 == 1 {
        Weekday::Tue
    } else if n % 7 == 2 {
        Weekday::Wed
    } else if n % 7 == 3 {
        Weekday::Thu
    } else if n % 7 == 4 {
        Weekday::Fri
    } else if n % 7 == 5 {
        Weekday::Sat
    } else {
        Weekday::Sun
    }
}

/// A moment as a wall clock shows it.
#[derive(Copy, Clone, Debug, PartialEq, Eq, Structural)]
pub struct LocalTime {
    pub weekday: Weekday,
    pub hour: u32,
    pub minute: u32,
}

/// A calendar date.
#[derive(Copy, Clone, Debug, PartialEq, Eq, Structural)]
pub struct Date {
    pub year: i32,
    pub month: u32,
    pub day: u32,
}

/// The last second that a point in time can have, counted from the start of
/// the year 1970 in UTC.
pub const LAST_SECOND: i64 = 8_210_266_876_799;

/// Whether a count of seconds since 1970 is a point in time that is dealt with.
pub open spec fn in_time(seconds: i64) -> bool {
    0 <= seconds <= LAST_SECOND
}

/// What a clock shows `local` seconds after the start of the year 1970, which
/// began on a Thursday.
pub open spec fn clock_of(local: int) -> LocalTime {
    LocalTime {
        weekday: weekday_after_monday(local / 86400 + 3),
        hour: ((local % 86400) / 3600) as u32,
        minute: ((local % 3600) / 60) as u32,
    }
}

/// Whether `year` has a 29 February.
pub open spec fn is_leap(year: int) -> bool {
    year % 4 == 0 && (year % 100 != 0 || year % 400 == 0)
}

/// The days of a month.
pub open spec fn month_days(year: int, month: int) -> int {
    if month == 2 {
        if is_leap(year) {
            29
        } else {
            28
        }
    } else if month == 4 || month == 6 || month == 9 || month == 11 {
        30
    } else {
        31
    }
}

/// The days of a year that lie before a month.
pub open spec fn days_before_month(year: int, month: int) -> int
    decreases month,
{
    if month <= 1 {
        0
    } else {
        days_before_month(year, month - 1) + month_days(year, month - 1)
    }
}

/// The days from the start of the year 1970 to the start of `year`.
pub open spec fn days_before_year(year: int) -> int {
    365 * (year - 1970) + ((year - 1) / 4 - 492) - ((year - 1) / 100 - 19) + ((year - 1) / 400 - 4)
}

/// Whether `date` is the calendar day that comes `days` days after 1 January
/// 1970.
pub open spec fn is_date(date: Date, days: int) -> bool {
    &&& 1 <= date.month <= 12
    &&& 1 <= date.day <= month_days(date.year as int, date.month as int)
    &&& days_before_year(date.year as int) + days_before_month(date.year as int, date.month as int)
        + date.day - 1 == days
}

/// The seconds since midnight of a time of day, if there is such a time.
pub open spec fn second_of_day(hour: u32, minute: u32, second: u32) -> Option<u32> {
    if hour < 24 && minute < 60 && second < 60 {
        Some((hour * 3600 + minute * 60 + second) as u32)
    } else {
        None
    }
}

/// A number below 100 as two digits.
pub open spec fn two_digits(n: int) -> Seq<char> {
    seq![crate::text::digit_char((n / 10) as nat), crate::text::digit_char((n % 10) as nat)]
}

/// Whether the time zone database knows a zone by this name.
pub uninterp spec fn known_zone(name: Seq<char>) -> bool;

/// How many seconds a zone is ahead of UTC at a point in time.
pub uninterp spec fn zone_offset_at(zone: Seq<char>, seconds: i64) -> i32;

/// The present second, by `chrono::Utc::now`. It is never before 1970 nor after
/// what `chrono::DateTime` can hold; which second it is, is left open.
#[verifier::external_body]
pub(crate) fn utc_seconds() -> (r: i64)
    ensures
        in_time(r),
{
    chrono::Utc::now().timestamp()
}

/// Whether `chrono_tz::Tz::from_str` accepts a name.
#[verifier::external_body]
fn is_zone(name: &str) -> (r: bool)
    ensures
        r == known_zone(name@),
{
    name.parse::<chrono_tz::Tz>().is_ok()
}

/// The offset that `chrono::DateTime::with_timezone` finds for a known zone, of
/// which `UTC` is one: a function of the zone and of the second, less than a day
/// either way, and nought for `UTC`.
#[verifier::external_body]
fn zone_offset(zone: &str, seconds: i64) -> (r: i32)
    requires
        known_zone(zone@) || zone@ == "UTC"@,
        in_time(seconds),
    ensures
        r == zone_offset_at(zone@, seconds),
        -86400 < r < 86400,
        zone@ == "UTC"@ ==> r == 0,
{
    let zone: chrono_tz::Tz = zone.parse().unwrap();
    let utc = chrono::DateTime::from_timestamp(seconds, 0).unwrap();
    utc.with_timezone(&zone).offset().fix().local_minus_utc()
}

/// Weekday, hour and minute that `chrono::DateTime` reads off at a fixed offset
/// from UTC, the weekday counted from Monday.
#[verifier::external_body]
fn clock_fields(seconds: i64, offset: i32) -> (r: (u32, u32, u32))
    requires
        in_time(seconds),
        -86400 < offset < 86400,
    ensures
        r.0 == ((seconds + offset) / 86400 + 3) % 7,
        r.1 == clock_of(seconds + offset).hour,
        r.2 == clock_of(seconds + offset).minute,
{
    let offset = chrono::FixedOffset::east_opt(offset).unwrap();
    let local = chrono::DateTime::from_timestamp(seconds, 0).unwrap().with_timezone(&offset);
    (local.weekday().num_days_from_monday(), local.hour(), local.minute())
}

/// The date that `chrono::DateTime` reads off at a fixed offset from UTC. There
/// is none for an offset of a day or more: `chrono::FixedOffset::east_opt`.
#[verifier::external_body]
fn date_fields(seconds: i64, offset: i32) -> (r: Option<Date>)
    requires
        in_time(seconds),
    ensures
        r is Some <==> -86400 < offset < 86400,
        r matches Some(date) ==> is_date(date, (seconds + offset) / 86400),
{
    let offset = chrono::FixedOffset::east_opt(offset)?;
    let local = chrono::DateTime::from_timestamp(seconds, 0).unwrap().with_timezone(&offset);
    Some(Date { year: local.year(), month: local.month(), day: local.day() })
}

/// The time of day that `chrono::NaiveTime::from_hms_opt` makes of its parts, in
/// seconds since midnight.
#[verifier::external_body]
pub(crate) fn time_of_day(hour: u32, minute: u32, second: u32) -> (r: Option<u32>)
    ensures
        r == second_of_day(hour, minute, second),
{
    chrono::NaiveTime::from_hms_opt(hour, minute, second).map(|t| t.num_seconds_from_midnight())
}

/// Hour and minute as `chrono::NaiveTime::format` writes them for `%H:%M`.
#[verifier::external_body]
fn format_time(hour: u32, minute: u32) -> (r: String)
    requires
        hour < 24,
        minute < 60,
    ensures
        r@ == two_digits(hour as int) + seq![':'] + two_digits(minute as int),
{
    chrono::NaiveTime::from_hms_opt(hour, minute, 0).unwrap().format("%H:%M").to_string()
}

/// The zone that a configured name stands for: itself where it is known, else
/// UTC.
pub open spec fn effective(timezone: Seq<char>) -> Seq<char> {
    if known_zone(timezone) {
        timezone
    } else {
        "UTC"@
    }
}

/// How many seconds the zone that `timezone` stands for is ahead of UTC at a point
/// in time.
pub open spec fn utc_offset(timezone: Seq<char>, seconds: i64) -> i32 {
    if effective(timezone) == "UTC"@ {
        0
    } else {
        zone_offset_at(effective(timezone), seconds)
    }
}

/// What a clock shows at a point in time in the zone that `timezone` stands for.
pub open spec fn local_clock(seconds: i64, timezone: Seq<char>) -> LocalTime {
    clock_of(seconds + utc_offset(timezone, seconds))
}

/// The name of the zone that a configured name stands for.
pub fn effective_zone(timezone: &str) -> (r: String)
    ensures
        r@ == effective(timezone@),
{
    if is_zone(timezone) {
        timezone.to_owned()
    } else {
        "UTC".to_owned()
    }
}

/// What a clock shows at a point in time in the zone that `timezone` stands for.
pub fn local_time(seconds: i64, timezone: &str) -> (r: LocalTime)
    requires
        in_time(seconds),
    ensures
        r == local_clock(seconds, timezone@),
        !known_zone(timezone@) || timezone@ == "UTC"@ ==> r == clock_of(seconds as int),
        r.hour < 24,
        r.minute < 60,
{
    let zone = effective_zone(timezone);
    let offset: i32 = zone_offset(zone.as_str(), seconds);
    let (day, hour, minute) = clock_fields(seconds, offset);
    let weekday = match day {
        0 => Weekday::Mon,
        1 => Weekday::Tue,
        2 => Weekday::Wed,
        3 => Weekday::Thu,
        4 => Weekday::Fri,
        5 => Weekday::Sat,
        _ => Weekday::Sun,
    };
    LocalTime { weekday, hour, minute }
}

/// Hours and minutes on the clock, two digits each.
pub open spec fn clock_text(time: LocalTime) -> Seq<char> {
    two_digits(time.hour as int) + seq![':'] + two_digits(time.minute as int)
}

/// Hours and minutes on the clock at a point in time.
pub fn local_time_text(seconds: i64, timezone: &str) -> (r: String)
    requires
        in_time(seconds),
    ensures
        r@ == clock_text(local_clock(seconds, timezone@)),
{
    let time = local_time(seconds, timezone);
    format_time(time.hour, time.minute)
}

/// The offset from UTC in seconds that an offset in hours stands for: the low
/// 32 bits of the product.
pub open spec fn offset_seconds(hours: i64) -> i32 {
    (hours * 3600) as i64 as i32
}

/// The date at a point in time, `offset` hours ahead of UTC, or in the zone that
/// `timezone` stands for where no offset is given. There is none for an offset
/// of a day or more.
pub fn today_at(seconds: i64, offset: Option<i64>, timezone: &str) -> (r: Option<Date>)
    requires
        in_time(seconds),
        offset matches Some(hours) ==> i64::MIN <= hours * 3600 <= i64::MAX,
    ensures
        r is None <==> (offset matches Some(hours) && !(-86400 < offset_seconds(hours) < 86400)),
        r matches Some(date) ==> is_date(
            date,
            (seconds + match offset {
                Some(hours) => offset_seconds(hours),
                None => utc_offset(timezone@, seconds),
            }) / 86400,
        ),
{
    match offset {
        Some(hours) => {
            let total: i64 = hours * 3600;
            date_fields(seconds, #[verifier::truncate] (total as i32))
        },
        None => {
            let zone = effective_zone(timezone);
            let offset: i32 = zone_offset(zone.as_str(), seconds);
            date_fields(seconds, offset)
        },
    }
}

/// The present date, `offset` hours ahead of UTC, or in the zone that `timezone`
/// stands for where no offset is given.
pub fn today(offset: Option<i64>, timezone: &str) -> (r: Option<Date>)
    requires
        offset matches Some(hours) ==> i64::MIN <= hours * 3600 <= i64::MAX,
    ensures
        r is None <==> (offset matches Some(hours) && !(-86400 < offset_seconds(hours) < 86400)),
        r matches Some(date) ==> exists|seconds: i64| #[trigger]
            in_time(seconds) && is_date(
                date,
                (seconds + match offset {
                    Some(hours) => offset_seconds(hours),
                    None => utc_offset(timezone@, seconds),
                }) / 86400,
            ),
{
    today_at(utc_seconds(), offset, timezone)
}

}
