use chrono::{Datelike, Timelike};
use tymnl::clock::{
    effective_zone, local_time, local_time_text, today, today_at, Date, LocalTime, Weekday,
    LAST_SECOND,
};
use tymnl::config::parse_time;

const ZONES: [&str; 6] = [
    "UTC",
    "Europe/Berlin",
    "America/New_York",
    "Asia/Kolkata",
    "Pacific/Kiritimati",
    "Pacific/Pago_Pago",
];

const SECONDS: [i64; 8] = [
    0,
    59,
    951_782_399,
    951_782_400,
    1_711_846_799,
    1_711_846_800,
    4_102_444_800,
    LAST_SECOND,
];

fn weekday_number(day: Weekday) -> u32 {
    match day {
        Weekday::Mon => 0,
        Weekday::Tue => 1,
        Weekday::Wed => 2,
        Weekday::Thu => 3,
        Weekday::Fri => 4,
        Weekday::Sat => 5,
        Weekday::Sun => 6,
    }
}

#[test]
fn the_last_second_is_the_last_that_chrono_has() {
    assert_eq!(chrono::DateTime::<chrono::Utc>::MAX_UTC.timestamp(), LAST_SECOND);
    assert!(chrono::DateTime::from_timestamp(LAST_SECOND, 0).is_some());
    assert!(chrono::DateTime::from_timestamp(LAST_SECOND + 1, 0).is_none());
}

#[test]
fn clocks_show_what_chrono_says() {
    for name in ZONES {
        let zone: chrono_tz::Tz = name.parse().unwrap();
        for seconds in SECONDS {
            if seconds == LAST_SECOND && name != "UTC" {
                continue;
            }
            let local = chrono::DateTime::from_timestamp(seconds, 0).unwrap().with_timezone(&zone);
            let shown = local_time(seconds, name);
            assert_eq!(weekday_number(shown.weekday), local.weekday().num_days_from_monday());
            assert_eq!(shown.hour, local.hour());
            assert_eq!(shown.minute, local.minute());
            assert_eq!(local_time_text(seconds, name), local.format("%H:%M").to_string());
        }
    }
}

#[test]
fn clocks_at_the_very_end_of_time_do_not_fail() {
    for name in ZONES {
        let shown = local_time(LAST_SECOND, name);
        assert!(shown.hour < 24 && shown.minute < 60);
        assert!(today_at(LAST_SECOND, None, name).is_some());
    }
    assert_eq!(local_time_text(LAST_SECOND, "UTC"), "23:59");
    assert_eq!(local_time_text(LAST_SECOND, "Pacific/Kiritimati"), "13:59");
    assert_eq!(
        today_at(LAST_SECOND, None, "UTC"),
        Some(Date { year: 262_142, month: 12, day: 31 })
    );
    assert_eq!(
        today_at(LAST_SECOND, Some(23), "UTC"),
        Some(Date { year: 262_143, month: 1, day: 1 })
    );
}

#[test]
fn the_first_second_was_on_a_thursday() {
    assert_eq!(
        local_time(0, "UTC"),
        LocalTime { weekday: Weekday::Thu, hour: 0, minute: 0 }
    );
    assert_eq!(
        local_time(0, "America/New_York"),
        LocalTime { weekday: Weekday::Wed, hour: 19, minute: 0 }
    );
}

#[test]
fn daylight_saving_time_is_kept() {
    assert_eq!(local_time_text(1_711_846_799, "Europe/Berlin"), "01:59");
    assert_eq!(local_time_text(1_711_846_800, "Europe/Berlin"), "03:00");
}

#[test]
fn unknown_zones_are_utc() {
    assert_eq!(effective_zone("Europe/Berlin"), "Europe/Berlin");
    assert_eq!(effective_zone("Nowhere/Land"), "UTC");
    assert_eq!(effective_zone(""), "UTC");
    assert_eq!(local_time(1_711_846_800, "Nowhere/Land"), local_time(1_711_846_800, "UTC"));
    assert_eq!(local_time_text(1_711_846_800, "Nowhere/Land"), "01:00");
}

#[test]
fn clock_texts_read_back() {
    for seconds in [0i64, 3_540, 3_600, 45_296, 86_399] {
        let shown = local_time(seconds, "UTC");
        let text = local_time_text(seconds, "UTC");
        assert_eq!(parse_time(&text), Some(shown.hour * 3600 + shown.minute * 60));
    }
    assert_eq!(local_time_text(45_296, "UTC"), "12:34");
}

#[test]
fn dates_are_those_of_the_zone_or_the_offset() {
    let leap = 951_782_400;
    assert_eq!(today_at(leap, None, "UTC"), Some(Date { year: 2000, month: 2, day: 29 }));
    assert_eq!(
        today_at(leap, None, "America/New_York"),
        Some(Date { year: 2000, month: 2, day: 28 })
    );
    assert_eq!(today_at(leap, Some(-1), "UTC"), Some(Date { year: 2000, month: 2, day: 28 }));
    assert_eq!(today_at(leap + 86_399, Some(1), "UTC"), Some(Date { year: 2000, month: 3, day: 1 }));
    assert_eq!(today_at(0, None, "UTC"), Some(Date { year: 1970, month: 1, day: 1 }));
}

#[test]
fn offsets_of_a_day_have_no_date() {
    assert!(today_at(0, Some(23), "UTC").is_some());
    assert!(today_at(0, Some(-23), "UTC").is_some());
    assert!(today_at(0, Some(24), "UTC").is_none());
    assert!(today_at(0, Some(-24), "UTC").is_none());
    // The product is cut to 32 bits before it is looked at.
    assert_eq!((1_193_047i64 * 3600) as i32, 1_904);
    assert_eq!(today_at(0, Some(1_193_047), "UTC"), Some(Date { year: 1970, month: 1, day: 1 }));
}

#[test]
fn dates_are_those_of_chrono() {
    for seconds in SECONDS {
        for offset in [-23i64, -5, 0, 5, 23] {
            if seconds == LAST_SECOND && offset > 0 {
                continue;
            }
            let zone = chrono::FixedOffset::east_opt(offset as i32 * 3600).unwrap();
            let local = chrono::DateTime::from_timestamp(seconds, 0).unwrap().with_timezone(&zone);
            let date = local.date_naive();
            assert_eq!(
                today_at(seconds, Some(offset), "UTC"),
                Some(Date { year: date.year(), month: date.month(), day: date.day() })
            );
        }
    }
}

#[test]
fn the_present_has_a_date() {
    let date = today(None, "UTC").unwrap();
    assert!(date.year >= 2020);
    assert!(today(Some(99), "UTC").is_none());
}
