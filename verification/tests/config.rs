use tymnl::clock::{LocalTime, Weekday};
use tymnl::config::{
    group_matches, parse_time, weekday_from_lowercase, weekday_from_str, Config, DaySelector,
    Device, Error, Input, InputOption, InputType, Playlist, Schedule, Screen, ScreenOption,
    ScreenScript,
};
use tymnl::loading::Source;

const WEEK: [Weekday; 7] = [
    Weekday::Mon,
    Weekday::Tue,
    Weekday::Wed,
    Weekday::Thu,
    Weekday::Fri,
    Weekday::Sat,
    Weekday::Sun,
];

fn screen(name: &str, script: ScreenScript) -> Screen {
    Screen { name: name.to_string(), script, input: vec![], option: vec![] }
}

fn playlist(name: &str, screens: &[&str]) -> Playlist {
    Playlist {
        name: name.to_string(),
        screen: screens.iter().map(|s| s.to_string()).collect(),
        option: vec![],
    }
}

fn schedule(days: DaySelector, start: &str, end: &str) -> Schedule {
    Schedule {
        playlist: None,
        days,
        start: start.to_string(),
        end: end.to_string(),
        refresh_rate: None,
    }
}

fn named(name: &str) -> DaySelector {
    DaySelector::Named(name.to_string())
}

fn config() -> Config {
    Config {
        device: vec![
            Device { mac_address: "AA:BB:CC:DD:EE:FF".to_string(), name: "kitchen".to_string() },
            Device { mac_address: "aa:bb:cc:dd:ee:ff".to_string(), name: "second".to_string() },
        ],
        playlist: vec![
            playlist("day", &["weather", "mail", "weather"]),
            playlist("night", &[]),
            playlist("broken", &["gone"]),
        ],
        screen: vec![
            screen("weather", ScreenScript::Inline("sun".to_string())),
            screen("mail", ScreenScript::File("mail.typ".to_string())),
            screen("mail", ScreenScript::Cached("never found".to_string())),
        ],
        schedule: vec![],
        default_playlist: "day".to_string(),
        default_refresh_rate: 900,
        timezone: "UTC".to_string(),
    }
}

fn at(weekday: Weekday, hour: u32, minute: u32) -> LocalTime {
    LocalTime { weekday, hour, minute }
}

#[test]
fn days_are_known_by_short_and_full_name_in_any_case() {
    for (short, full, day) in [
        ("mon", "monday", Weekday::Mon),
        ("tue", "tuesday", Weekday::Tue),
        ("wed", "wednesday", Weekday::Wed),
        ("thu", "thursday", Weekday::Thu),
        ("fri", "friday", Weekday::Fri),
        ("sat", "saturday", Weekday::Sat),
        ("sun", "sunday", Weekday::Sun),
    ] {
        assert_eq!(weekday_from_str(short), Some(day));
        assert_eq!(weekday_from_str(full), Some(day));
        assert_eq!(weekday_from_str(&full.to_uppercase()), Some(day));
        assert_eq!(weekday_from_lowercase(short), Some(day));
        assert_eq!(weekday_from_lowercase(&short.to_uppercase()), None);
    }
    for name in ["", "m", "mond", "tues", "all", "weekdays", "Montag", " mon"] {
        assert_eq!(weekday_from_str(name), None);
    }
    assert_eq!(weekday_from_str("MoNdAy"), Some(Weekday::Mon));
}

#[test]
fn lower_case_is_that_of_unicode() {
    // The Kelvin sign is a capital k.
    assert_eq!("wee\u{212a}days".to_lowercase(), "weekdays");
    let rule = schedule(named("wee\u{212a}days"), "00:00", "23:59");
    assert!(rule.day_matches(Weekday::Mon));
    assert!(!rule.day_matches(Weekday::Sun));
}

#[test]
fn groups_hold_their_days() {
    for (i, day) in WEEK.iter().enumerate() {
        assert!(group_matches("all", *day));
        assert_eq!(group_matches("weekdays", *day), i < 5);
        assert_eq!(group_matches("weekends", *day), i >= 5);
        assert_eq!(group_matches("sun", *day), i == 6);
        assert!(!group_matches("never", *day));
    }
}

#[test]
fn selectors_pick_their_days() {
    let list = DaySelector::List(vec!["Mon".to_string(), "x".to_string(), "FRIDAY".to_string()]);
    let rule = schedule(list, "00:00", "23:59");
    let picked: Vec<bool> = WEEK.iter().map(|d| rule.day_matches(*d)).collect();
    assert_eq!(picked, [true, false, false, false, true, false, false]);
    // Groups are no days.
    let group = schedule(DaySelector::List(vec!["all".to_string()]), "00:00", "23:59");
    assert!(WEEK.iter().all(|d| !group.day_matches(*d)));
    let none = schedule(DaySelector::List(vec![]), "00:00", "23:59");
    assert!(WEEK.iter().all(|d| !none.day_matches(*d)));
    assert!(WEEK.iter().all(|d| schedule(named("ALL"), "", "").day_matches(*d)));
}

#[test]
fn times_are_hours_and_minutes() {
    assert_eq!(parse_time("00:00"), Some(0));
    assert_eq!(parse_time("7:5"), Some(7 * 3600 + 5 * 60));
    assert_eq!(parse_time("+7:+05"), Some(7 * 3600 + 5 * 60));
    assert_eq!(parse_time("23:59"), Some(86_340));
    for text in ["", "7", ":", "7:", ":5", "24:00", "12:60", "-1:00", "1:2:3", " 1:00", "a:b"] {
        assert_eq!(parse_time(text), None, "{:?}", text);
    }
}

#[test]
fn windows_run_from_start_to_end() {
    let rule = schedule(named("all"), "08:00", "17:30");
    let hit = |h: u32, m: u32| rule.matches(Weekday::Mon, h * 3600 + m * 60);
    assert!(!hit(7, 59));
    assert!(hit(8, 0));
    assert!(hit(17, 29));
    assert!(!hit(17, 30));
}

#[test]
fn windows_may_run_over_midnight() {
    let rule = schedule(named("all"), "22:00", "06:00");
    let hit = |h: u32, m: u32| rule.matches(Weekday::Mon, h * 3600 + m * 60);
    assert!(hit(22, 0));
    assert!(hit(23, 59));
    assert!(hit(0, 0));
    assert!(hit(5, 59));
    assert!(!hit(6, 0));
    assert!(!hit(21, 59));
}

#[test]
fn opposite_windows_divide_the_day() {
    let day = schedule(named("all"), "06:00", "22:00");
    let night = schedule(named("all"), "22:00", "06:00");
    let empty = schedule(named("all"), "06:00", "06:00");
    for time in (0..86_400).step_by(60) {
        assert_ne!(day.matches(Weekday::Tue, time), night.matches(Weekday::Tue, time));
        assert!(!empty.matches(Weekday::Tue, time));
    }
}

#[test]
fn windows_that_cannot_be_read_never_apply() {
    for (start, end) in [("x", "10:00"), ("10:00", "x"), ("24:00", "10:00")] {
        let rule = schedule(named("all"), start, end);
        assert!(!rule.matches(Weekday::Mon, 11 * 3600));
    }
    assert!(!schedule(named("sat"), "00:00", "23:00").matches(Weekday::Mon, 0));
}

#[test]
fn devices_are_found_in_any_case() {
    let config = config();
    for mac in ["AA:BB:CC:DD:EE:FF", "aa:bb:cc:dd:ee:ff", "Aa:bB:cc:dd:EE:ff"] {
        assert_eq!(config.get_device_by_mac(mac).unwrap().name, "kitchen");
    }
    assert!(config.get_device_by_mac("AA:BB:CC:DD:EE:00").is_none());
    assert!(config.get_device_by_mac("").is_none());
}

#[test]
fn playlists_and_screens_are_found_by_their_exact_name() {
    let config = config();
    assert_eq!(config.get_playlist_by_name("night").unwrap().name, "night");
    assert!(config.get_playlist_by_name("Night").is_none());
    let mail = config.get_screen_by_name("mail").unwrap();
    assert!(matches!(mail.script, ScreenScript::File(_)));
    assert!(config.get_screen_by_name("gone").is_none());
}

#[test]
fn screens_of_a_playlist_take_turns() {
    let config = config();
    let day = config.get_playlist_by_name("day").unwrap();
    let shown: Vec<String> = (0..7)
        .map(|i| day.get_next_screen(&config, i).unwrap().name.clone())
        .collect();
    assert_eq!(
        shown,
        ["weather", "mail", "weather", "weather", "mail", "weather", "weather"]
    );
    assert_eq!(day.get_next_screen(&config, usize::MAX).unwrap().name, "weather");
}

#[test]
fn empty_playlists_and_missing_screens_show_nothing() {
    let config = config();
    let night = config.get_playlist_by_name("night").unwrap();
    assert!(night.get_next_screen(&config, 0).is_none());
    let broken = config.get_playlist_by_name("broken").unwrap();
    assert!(broken.get_next_screen(&config, 5).is_none());
}

#[test]
fn the_first_schedule_that_applies_counts() {
    let mut config = config();
    config.schedule = vec![
        Schedule { refresh_rate: Some(1), ..schedule(named("sun"), "00:00", "23:00") },
        Schedule { refresh_rate: Some(2), ..schedule(named("weekdays"), "08:00", "17:00") },
        Schedule { refresh_rate: Some(3), ..schedule(named("all"), "00:00", "23:00") },
    ];
    let rate = |t: LocalTime| config.get_schedule_for_time(t).and_then(|s| s.refresh_rate);
    assert_eq!(rate(at(Weekday::Sun, 9, 0)), Some(1));
    assert_eq!(rate(at(Weekday::Mon, 9, 0)), Some(2));
    assert_eq!(rate(at(Weekday::Mon, 18, 0)), Some(3));
    assert_eq!(rate(at(Weekday::Mon, 23, 30)), None);
    // What is no time of day counts as midnight.
    assert_eq!(rate(at(Weekday::Mon, 24, 0)), Some(3));
    assert_eq!(config.get_refresh_rate_for_time(at(Weekday::Mon, 9, 0)), 2);
    assert_eq!(config.get_refresh_rate_for_time(at(Weekday::Mon, 23, 30)), 900);
}

#[test]
fn playlists_fall_back_to_the_default() {
    let mut config = config();
    config.schedule = vec![
        Schedule {
            playlist: Some("night".to_string()),
            ..schedule(named("all"), "22:00", "06:00")
        },
        Schedule {
            playlist: Some("unknown".to_string()),
            refresh_rate: Some(5),
            ..schedule(named("all"), "06:00", "08:00")
        },
        schedule(named("all"), "08:00", "09:00"),
    ];
    let name = |t: LocalTime| config.get_playlist_for_time(t).map(|p| p.name.clone());
    assert_eq!(name(at(Weekday::Mon, 23, 0)), Some("night".to_string()));
    assert_eq!(name(at(Weekday::Mon, 7, 0)), Some("day".to_string()));
    assert_eq!(name(at(Weekday::Mon, 8, 0)), Some("day".to_string()));
    assert_eq!(name(at(Weekday::Mon, 12, 0)), Some("day".to_string()));
    assert_eq!(config.get_refresh_rate_for_time(at(Weekday::Mon, 7, 0)), 5);
    assert_eq!(config.get_refresh_rate_for_time(at(Weekday::Mon, 8, 0)), 900);
    config.default_playlist = "unknown".to_string();
    let name = |t: LocalTime| config.get_playlist_for_time(t).map(|p| p.name.clone());
    assert_eq!(name(at(Weekday::Mon, 23, 0)), Some("night".to_string()));
    assert_eq!(name(at(Weekday::Mon, 12, 0)), None);
}

#[test]
fn what_is_active_now_does_not_depend_on_an_all_day_window() {
    let mut config = config();
    config.schedule = vec![
        Schedule {
            playlist: Some("night".to_string()),
            refresh_rate: Some(7),
            ..schedule(named("all"), "00:00", "12:00")
        },
        Schedule {
            playlist: Some("night".to_string()),
            refresh_rate: Some(7),
            ..schedule(named("all"), "12:00", "00:00")
        },
    ];
    for zone in ["UTC", "Europe/Berlin", "nowhere"] {
        config.timezone = zone.to_string();
        assert!(config.get_active_schedule().is_some());
        assert_eq!(config.get_active_playlist().unwrap().name, "night");
        assert_eq!(config.get_active_refresh_rate(), 7);
    }
    config.schedule.clear();
    assert!(config.get_active_schedule().is_none());
    assert_eq!(config.get_active_playlist().unwrap().name, "day");
    assert_eq!(config.get_active_refresh_rate(), 900);
}

#[test]
fn options_are_had_or_not() {
    let mut input = Input {
        name: "x".to_string(),
        typ: InputType::Url("http://localhost".to_string()),
        option: vec![],
    };
    assert!(!input.has_option(InputOption::NoHash));
    input.option.push(InputOption::NoHash);
    assert!(input.has_option(InputOption::NoHash));
    let mut page = screen("x", ScreenScript::Inline(String::new()));
    assert!(!page.has_option(ScreenOption::Grayscale));
    page.option.push(ScreenOption::Grayscale);
    assert!(page.has_option(ScreenOption::Grayscale));
}

#[test]
fn scripts_are_text_or_a_file() {
    assert!(matches!(
        screen("a", ScreenScript::File("a.typ".to_string())).script(),
        Source::File(path) if path == "a.typ"
    ));
    assert!(matches!(
        screen("a", ScreenScript::Inline("one".to_string())).script(),
        Source::Text(text) if text == "one"
    ));
    assert!(matches!(
        screen("a", ScreenScript::Cached("two".to_string())).script(),
        Source::Text(text) if text == "two"
    ));
}

#[test]
fn loading_puts_all_scripts_at_hand() {
    let mut config = config();
    config.screen.push(screen("other", ScreenScript::File("other.typ".to_string())));
    assert_eq!(config.script_files(), ["mail.typ", "other.typ"]);
    config.load("#pre\n", vec!["MAIL".to_string(), "OTHER".to_string()]);
    let texts: Vec<String> = config
        .screen
        .iter()
        .map(|s| match &s.script {
            ScreenScript::Cached(text) => text.clone(),
            other => panic!("{:?}", other),
        })
        .collect();
    assert_eq!(texts, ["#pre\nsun", "MAIL", "never found", "OTHER"]);
    assert!(config.script_files().is_empty());
    assert_eq!(config.device.len(), 2);
    assert_eq!(config.default_refresh_rate, 900);
}

#[test]
fn loading_again_changes_nothing() {
    let mut config = config();
    config.load("p", vec!["MAIL".to_string()]);
    let before = format!("{:?}", config);
    config.load("q", vec![]);
    assert_eq!(format!("{:?}", config), before);
}

#[test]
fn copies_of_screens_are_the_same() {
    let mut page = screen("a", ScreenScript::Inline("one".to_string()));
    page.option.push(ScreenOption::Grayscale);
    page.input.push(Input {
        name: "x".to_string(),
        typ: InputType::Shell("date".to_string()),
        option: vec![InputOption::NoHash],
    });
    page.input.push(Input {
        name: "y".to_string(),
        typ: InputType::File("/tmp/y".to_string()),
        option: vec![],
    });
    assert_eq!(format!("{:?}", page.clone()), format!("{:?}", page));
}

#[test]
fn errors_of_inputs_are_put_in_words() {
    let text = |s: &str| s.to_string();
    assert_eq!(Error::Io(text("gone")).message(), "Error reading config: gone");
    assert_eq!(Error::Deserialize(text("bad")).message(), "Error deserializing config: bad");
    assert_eq!(Error::FetchUrl(text("down")).message(), "Error fetching URL: down");
    assert_eq!(
        Error::UrlStatusCode { status: 404, url: text("http://x/") }.message(),
        "HTTP 404 from http://x/"
    );
    let failed = |exit_code: Option<i32>| Error::CommandFailed {
        command: text("false"),
        exit_code,
        stderr: text("no\n"),
    };
    for code in [Some(1), Some(-3), None] {
        assert_eq!(
            failed(code).message(),
            format!("shell command `false` failed (exit {:?}):\nno\n", code)
        );
    }
    assert_eq!(Error::Utf8(text("bad byte")).message(), "invalid UTF-8 in command output: bad byte");
}

#[test]
fn schedules_apply_on_their_days_in_any_case() {
    for (i, day) in WEEK.iter().enumerate() {
        let hit = |name: &str| schedule(named(name), "00:00", "12:00").matches(*day, 0);
        assert_eq!(hit("WeekDays"), i < 5);
        assert_eq!(hit("WEEKENDS"), i >= 5);
        assert!(hit("All"));
        assert_eq!(hit("Wed"), i == 2);
        let list = DaySelector::List(vec!["SAT".to_string(), "Monday".to_string()]);
        assert_eq!(schedule(list, "00:00", "12:00").matches(*day, 0), i == 5 || i == 0);
    }
}
