//! What holds of clocks, time zones and the calendar.

use crate::clock::{
    clock_of, clock_text, days_before_month, days_before_year, effective, in_time, is_date,
    is_leap, known_zone, local_clock, month_days, offset_seconds, second_of_day, two_digits,
    utc_offset, weekday_after_monday, zone_offset_at, Date, LocalTime, Weekday,
};
use crate::config::{second_shown, Config};
use vstd::prelude::*;

verus! {

/// What a clock shows is the hour and the minute that have begun since midnight.
pub proof fn clocks_show_what_has_begun(local: int, days: int, second: int)
    requires
        local == 86400 * days + second,
        0 <= second < 86400,
    ensures
        ({
            let shown = clock_of(local);
            &&& shown.hour < 24
            &&& shown.minute < 60
            &&& 0 <= second - (3600 * shown.hour + 60 * shown.minute) < 60
        }),
{
}

/// The first day of the year 1970 was a Thursday, and the days of the week follow
/// each other from there.
pub proof fn days_follow_each_other(local: int)
    ensures
        0 <= local < 86400 ==> clock_of(local).weekday == Weekday::Thu,
        ({
            let next = clock_of(local + 86400);
            &&& next.hour == clock_of(local).hour
            &&& next.minute == clock_of(local).minute
            &&& match clock_of(local).weekday {
                Weekday::Mon => next.weekday == Weekday::Tue,
                Weekday::Tue => next.weekday == Weekday::Wed,
                Weekday::Wed => next.weekday == Weekday::Thu,
                Weekday::Thu => next.weekday == Weekday::Fri,
                Weekday::Fri => next.weekday == Weekday::Sat,
                Weekday::Sat => next.weekday == Weekday::Sun,
                Weekday::Sun => next.weekday == Weekday::Mon,
            }
        }),
{
}

/// The day does not change between midnight and midnight.
pub proof fn days_last_a_day(days: int, a: int, b: int)
    requires
        0 <= a < 86400,
        0 <= b < 86400,
    ensures
        clock_of(86400 * days + a).weekday == clock_of(86400 * days + b).weekday,
        clock_of(86400 * days + a).weekday == weekday_after_monday(days + 3),
{
}

/// Times and dates are in the zone that is configured, where it is known, and in UTC
/// otherwise, which is ahead of itself by nothing.
pub proof fn zones_count_where_they_are_known(timezone: Seq<char>, seconds: i64, config: Config)
    ensures
        known_zone(timezone) ==> effective(timezone) == timezone,
        !known_zone(timezone) ==> effective(timezone) == "UTC"@,
        !known_zone(timezone) || timezone == "UTC"@ ==> local_clock(seconds, timezone) == clock_of(
            seconds as int,
        ) && utc_offset(timezone, seconds) == 0,
        known_zone(timezone) && timezone != "UTC"@ ==> {
            &&& utc_offset(timezone, seconds) == zone_offset_at(timezone, seconds)
            &&& local_clock(seconds, timezone) == clock_of(
                seconds + zone_offset_at(timezone, seconds),
            )
        },
        config.local_clock_at(seconds) == local_clock(seconds, config.timezone@),
{
}

/// A time of day has an hour below 24, and a minute and a second below 60.
pub proof fn seconds_of_the_day_are_counted_from_midnight(hour: u32, minute: u32, second: u32)
    ensures
        (second_of_day(hour, minute, second) is Some) <==> hour <= 23 && minute <= 59 && second
            <= 59,
        second_of_day(hour, minute, second) matches Some(n) ==> n == 3600 * hour + 60 * minute
            + second,
{
}

/// A clock shows its hour and minute with two digits each and a colon between them.
pub proof fn clocks_have_four_digits(time: LocalTime)
    requires
        time.hour < 24,
        time.minute < 60,
    ensures
        ({
            let text = clock_text(time);
            &&& text.len() == 5
            &&& text[2] == ':'
            &&& 10 * (text[0] as int - 48) + (text[1] as int - 48) == time.hour
            &&& 10 * (text[3] as int - 48) + (text[4] as int - 48) == time.minute
            &&& 48 <= text[0] as int <= 57 && 48 <= text[1] as int <= 57
            &&& 48 <= text[3] as int <= 57 && 48 <= text[4] as int <= 57
        }),
        second_shown(time) == 3600 * time.hour + 60 * time.minute,
{
    let text = clock_text(time);
    let h = two_digits(time.hour as int);
    let m = two_digits(time.minute as int);
    assert(text[0] == h[0] && text[1] == h[1] && text[3] == m[0] && text[4] == m[1]);
    assert(h[0] as int == 48 + time.hour as int / 10);
    assert(h[1] as int == 48 + time.hour as int % 10);
    assert(m[0] as int == 48 + time.minute as int / 10);
    assert(m[1] as int == 48 + time.minute as int % 10);
}

/// What is no time of day counts as midnight.
pub proof fn what_is_no_time_counts_as_midnight(time: LocalTime)
    requires
        time.hour >= 24 || time.minute >= 60,
    ensures
        second_shown(time) == 0,
{
}

/// An offset is so many times the seconds of an hour.
pub proof fn offsets_are_hours(hours: i64)
    requires
        -500_000 <= hours <= 500_000,
    ensures
        offset_seconds(hours) == 3600 * hours,
{
}

/// Points in time run from the year 1970 to the last second of the year 262142.
pub proof fn times_run_from_1970(seconds: i64)
    ensures
        in_time(seconds) <==> 0 <= seconds <= 8_210_266_876_799,
{
}

/// Leap years, and the days of the months.
pub proof fn months_have_these_days(year: int)
    ensures
        is_leap(year) <==> year % 400 == 0 || year % 4 == 0 && year % 100 != 0,
        month_days(year, 1) == 31,
        is_leap(year) ==> month_days(year, 2) == 29,
        !is_leap(year) ==> month_days(year, 2) == 28,
        month_days(year, 3) == 31,
        month_days(year, 4) == 30,
        month_days(year, 5) == 31,
        month_days(year, 6) == 30,
        month_days(year, 7) == 31,
        month_days(year, 8) == 31,
        month_days(year, 9) == 30,
        month_days(year, 10) == 31,
        month_days(year, 11) == 30,
        month_days(year, 12) == 31,
{
}

/// The first day is 1 January 1970. A date is followed by the next day of its month,
/// the last of a month by the first of the next, and the last of a year by New Year.
pub proof fn dates_follow_each_other(date: Date, days: int, next: Date)
    requires
        is_date(date, days),
        next == (if date.day < month_days(date.year as int, date.month as int) {
            Date { year: date.year, month: date.month, day: (date.day + 1) as u32 }
        } else if date.month < 12 {
            Date { year: date.year, month: (date.month + 1) as u32, day: 1 }
        } else {
            Date { year: (date.year + 1) as i32, month: 1, day: 1 }
        }),
        date.year < i32::MAX,
    ensures
        is_date(next, days + 1),
        is_date(Date { year: 1970, month: 1, day: 1 }, 0),
{
    let y = date.year as int;
    reveal_with_fuel(days_before_month, 13);
    if date.month == 12 && date.day == 31 {
        assert(days_before_year(y + 1) == days_before_year(y) + if is_leap(y) {
            366int
        } else {
            365int
        });
    }
}

/// A date is made of a month of the year and of a day of the month.
pub proof fn dates_are_days_of_months(date: Date, days: int)
    requires
        is_date(date, days),
    ensures
        1 <= date.month <= 12,
        1 <= date.day <= month_days(date.year as int, date.month as int),
{
}

}
