use tymnl::config::{
    self, Config, Device, Input, InputOption, InputType, Playlist, Screen, ScreenOption,
    ScreenScript,
};
use tymnl::handlers::{
    display, display_at, display_finish, display_finish_at, error, error_at, get_screen,
    page_finish, screen, screen_at, screen_depth, screen_finish, screen_page, setup, setup_at,
    welcome, welcome_at, DisplayStep, Moment, Page, PageSource, Pending, ScreenStep,
};
use tymnl::render::{self, Depth};
use tymnl::reply::{DisplayReply, Request};
use tymnl::state::{AppState, Error, NextScreen};
use tymnl::table::Table;

const HOUR: u128 = 3_600_000_000_000;
const NOON: i64 = 12 * 3600;

fn page(name: &str, script: ScreenScript, option: Vec<ScreenOption>) -> Screen {
    Screen {
        name: name.to_string(),
        script,
        input: vec![
            Input {
                name: "news".to_string(),
                typ: InputType::Url("http://x".to_string()),
                option: vec![],
            },
            Input {
                name: "clock".to_string(),
                typ: InputType::Shell("date".to_string()),
                option: vec![InputOption::NoHash],
            },
        ],
        option,
    }
}

fn config(playlist: &str) -> Config {
    Config {
        device: vec![Device {
            mac_address: "AA:BB:CC:DD:EE:FF".to_string(),
            name: "kitchen".to_string(),
        }],
        playlist: vec![
            Playlist {
                name: "day".to_string(),
                screen: vec!["a".to_string(), "b".to_string()],
                option: vec![],
            },
            Playlist { name: "empty".to_string(), screen: vec![], option: vec![] },
            Playlist {
                name: "broken".to_string(),
                screen: vec!["gone".to_string()],
                option: vec![],
            },
        ],
        screen: vec![
            page("a", ScreenScript::Cached("A".to_string()), vec![]),
            page("b", ScreenScript::File("b.typ".to_string()), vec![ScreenOption::Grayscale]),
        ],
        schedule: vec![],
        default_playlist: playlist.to_string(),
        default_refresh_rate: 900,
        timezone: "Nowhere".to_string(),
    }
}

fn request(mac: &str) -> Request {
    Request {
        mac: mac.to_string(),
        host: "panel.local".to_string(),
        forwarded_proto: Some(b"https".to_vec()),
        battery: 42,
    }
}

fn moment(elapsed: u128) -> Moment {
    Moment { seconds: NOON, elapsed, random: 77 }
}

const MAC: &str = "aa:bb:cc:dd:ee:ff";

fn values(news: &str, clock: &str) -> Vec<Result<String, config::Error>> {
    vec![Ok(news.to_string()), Ok(clock.to_string())]
}

fn query(step: DisplayStep) -> Pending {
    match step {
        DisplayStep::Query(pending) => pending,
        other => panic!("{:?}", other),
    }
}

fn reply(step: DisplayStep) -> DisplayReply {
    match step {
        DisplayStep::Reply(reply) => reply,
        other => panic!("{:?}", other),
    }
}

fn input(page: &Page, name: &str) -> Option<String> {
    page.inputs.get(name).cloned()
}

#[test]
fn devices_are_set_up() {
    let mut state = AppState::new(config("day"));
    let r = setup_at(&mut state, &request("11:22:33:44:55:66"), moment(1));
    assert_eq!(r.friendly_id, "trmnl-5:66");
    assert_eq!(r.image_url, "https://panel.local/welcome/11:22:33:44:55:66/77.png");
    assert_eq!(r.message, "Welcome to BYOS!");
    let page = welcome_at(&mut state, "11:22:33:44:55:66", 2);
    assert!(matches!(page.source, PageSource::WelcomeTemplate));
    assert_eq!(page.depth, Depth::Bit1);
    assert_eq!(page.timezone, "UTC");
    assert_eq!(input(&page, "mac"), Some("11:22:33:44:55:66".to_string()));
    assert_eq!(
        input(&page, "tymnl-internal"),
        Some(
            "{\"screen-name\":\"Setup\",\"battery-percentage\":\"42\",\
             \"id\":\"11:22:33:44:55:66\",\"next-update-at\":\"12:00\"}"
                .to_string()
        )
    );
}

#[test]
fn short_addresses_are_not_shortened() {
    let mut state = AppState::new(config("day"));
    assert_eq!(setup(&mut state, &request("abc")).friendly_id, "trmnl-abc");
    assert_eq!(setup(&mut state, &request("")).friendly_id, "trmnl-");
    assert_eq!(setup(&mut state, &request("abcd")).friendly_id, "trmnl-abcd");
    // Four bytes, not four characters.
    assert_eq!(setup(&mut state, &request("abc\u{e9}\u{e9}")).friendly_id, "trmnl-\u{e9}\u{e9}");
}

#[test]
fn unknown_devices_are_sent_to_the_welcome_page() {
    let mut state = AppState::new(config("day"));
    let r = reply(display_at(&mut state, &request("00:00"), moment(5)));
    assert_eq!(r.image_url, "https://panel.local/welcome/00:00/77.png");
    assert_eq!(r.filename, "77.png");
    assert_eq!(r.refresh_rate, 900);
    assert!(state.playlist_indices.get("00:00").is_none());
    let page = welcome_at(&mut state, "00:00", 6);
    assert_eq!(input(&page, "mac"), Some("00:00".to_string()));
}

#[test]
fn known_devices_are_shown_their_screens_in_turn() {
    let mut state = AppState::new(config("day"));
    for name in ["a", "b", "a"] {
        let pending = query(display_at(&mut state, &request(MAC), moment(5)));
        assert_eq!(pending.screen.name, name);
        assert_eq!(pending.refresh_rate, 900);
        assert_eq!(pending.device_inputs.id, "kitchen");
        assert_eq!(pending.device_inputs.screen_name, name);
        assert_eq!(pending.device_inputs.battery_percentage, "42");
        assert_eq!(pending.device_inputs.next_update_at, "12:00");
    }
}

#[test]
fn images_are_served_once() {
    let mut state = AppState::new(config("day"));
    let pending = query(display_at(&mut state, &request(MAC), moment(5)));
    let r = display_finish_at(&mut state, &request(MAC), pending, values("n", "c"), 6, 1);
    assert!(r.image_url.starts_with("https://panel.local/screen/aa:bb:cc:dd:ee:ff/"));
    assert!(r.image_url.ends_with(&format!("/{}", r.filename)));
    let page = screen_at(&mut state, MAC, 5 + HOUR).unwrap();
    assert!(matches!(&page.source, PageSource::Text(text) if text == "A"));
    assert_eq!(page.depth, Depth::Bit1);
    assert_eq!(page.timezone, "UTC");
    assert_eq!(input(&page, "news"), Some("n".to_string()));
    assert_eq!(input(&page, "clock"), Some("c".to_string()));
    assert!(input(&page, "tymnl-internal").unwrap().contains("\"id\":\"kitchen\""));
    assert_eq!(page.inputs.entries().len(), 3);
    assert_eq!(screen_at(&mut state, MAC, 5 + HOUR).unwrap_err(), 404);
}

#[test]
fn images_are_gone_after_an_hour() {
    let mut state = AppState::new(config("day"));
    let pending = query(display_at(&mut state, &request(MAC), moment(5)));
    display_finish_at(&mut state, &request(MAC), pending, values("n", "c"), 6, 1);
    assert_eq!(screen_at(&mut state, MAC, 6 + HOUR).unwrap_err(), 404);
}

#[test]
fn the_file_name_changes_with_the_values_that_count() {
    let mut state = AppState::new(config("day"));
    let mut names = vec![];
    for (news, clock) in [("n", "1"), ("x", "x"), ("n", "2"), ("x", "x"), ("m", "2")] {
        let pending = query(display_at(&mut state, &request(MAC), moment(5)));
        let r = display_finish(&mut state, &request(MAC), pending, values(news, clock));
        names.push(r.filename);
    }
    assert_eq!(names[0], names[2]);
    assert_ne!(names[2], names[4]);
}

#[test]
fn failed_queries_are_reported() {
    let mut state = AppState::new(config("day"));
    let pending = query(display_at(&mut state, &request(MAC), moment(5)));
    let results = vec![Ok("n".to_string()), Err(config::Error::FetchUrl("down".to_string()))];
    let r = display_finish_at(&mut state, &request(MAC), pending, results, 6, 3);
    assert_eq!(r.image_url, "https://panel.local/error/aa:bb:cc:dd:ee:ff/3.png");
    assert_eq!(r.filename, "3.png");
    assert_eq!(r.refresh_rate, 900);
    let page = error_at(&mut state, MAC, 7);
    assert!(matches!(page.source, PageSource::ErrorTemplate));
    assert_eq!(page.depth, Depth::Bit2);
    assert_eq!(input(&page, "error-title"), Some("Input Query Error".to_string()));
    assert_eq!(
        input(&page, "error"),
        Some("querying input failed: Error fetching URL: down".to_string())
    );
    assert_eq!(page.inputs.entries().len(), 2);
}

#[test]
fn missing_playlists_are_reported_and_cost_no_turn() {
    let mut state = AppState::new(config("unknown"));
    let r = reply(display_at(&mut state, &request(MAC), moment(5)));
    assert_eq!(r.image_url, "https://panel.local/error/aa:bb:cc:dd:ee:ff/77.png");
    assert!(state.playlist_indices.get(MAC).is_none());
    let page = error_at(&mut state, MAC, 6);
    assert_eq!(input(&page, "error"), Some("no active playlist defined".to_string()));
}

#[test]
fn missing_screens_are_reported_and_cost_a_turn() {
    for playlist in ["empty", "broken"] {
        let mut state = AppState::new(config(playlist));
        let r = reply(display(&mut state, &request(MAC)));
        assert!(r.image_url.starts_with("https://panel.local/error/aa:bb:cc:dd:ee:ff/"));
        assert_eq!(state.playlist_indices.get(MAC), Some(&1));
        let page = error(&mut state, MAC);
        assert_eq!(
            input(&page, "error"),
            Some(format!("no screen defined for playlist {}", playlist))
        );
    }
}

#[test]
fn the_screen_of_the_moment_is_found() {
    let mut state = AppState::new(config("day"));
    assert_eq!(get_screen(&mut state, "x").unwrap().name, "a");
    assert_eq!(get_screen(&mut state, "x").unwrap().name, "b");
    assert_eq!(get_screen(&mut state, "y").unwrap().name, "a");
    let mut state = AppState::new(config("empty"));
    assert!(matches!(get_screen(&mut state, "x"), Err(Error::NoScreen(name)) if name == "empty"));
    let mut state = AppState::new(config("unknown"));
    assert!(matches!(get_screen(&mut state, "x"), Err(Error::NoActivePlaylist)));
}

#[test]
fn the_error_page_knows_nothing_of_unknown_errors() {
    let mut state = AppState::new(config("day"));
    let page = error(&mut state, "x");
    assert_eq!(input(&page, "error"), Some("unknown error".to_string()));
    assert_eq!(page.inputs.entries().len(), 1);
    assert_eq!(page.timezone, "UTC");
}

#[test]
fn the_error_page_shows_what_was_put_down_for_another_page() {
    let mut state = AppState::new(config("day"));
    let mut inputs = Table::new();
    inputs.insert("x".to_string(), "y".to_string());
    state.put_next_screen("m", NextScreen::new_image("a", inputs));
    let page = error(&mut state, "m");
    assert_eq!(input(&page, "x"), Some("y".to_string()));
    assert_eq!(input(&page, "error"), None);
}

#[test]
fn the_welcome_page_ignores_what_is_not_meant_for_it() {
    let mut state = AppState::new(config("day"));
    let mut inputs = Table::new();
    inputs.insert("x".to_string(), "y".to_string());
    state.put_next_screen("m", NextScreen::new_image("a", inputs));
    assert!(welcome(&mut state, "m").inputs.entries().is_empty());
    assert!(state.take_next_screen("m").is_none());
    assert!(welcome(&mut state, "m").inputs.entries().is_empty());
}

#[test]
fn the_screen_page_wants_a_screen() {
    let mut state = AppState::new(config("day"));
    assert_eq!(screen(&mut state, "m").unwrap_err(), 404);
    state.put_next_screen("m", NextScreen::new_welcome(Table::new()));
    assert_eq!(screen(&mut state, "m").unwrap_err(), 500);
    assert_eq!(screen(&mut state, "m").unwrap_err(), 404);
    state.put_next_screen("m", NextScreen::new_error(Error::Unknown, Table::new()));
    assert_eq!(screen(&mut state, "m").unwrap_err(), 500);
    state.put_next_screen("m", NextScreen::new_image("gone", Table::new()));
    assert_eq!(screen(&mut state, "m").unwrap_err(), 500);
    state.put_next_screen("m", NextScreen::new_image("b", Table::new()));
    let page = screen(&mut state, "m").unwrap();
    assert!(matches!(&page.source, PageSource::File(path) if path == "b.typ"));
    assert_eq!(page.depth, Depth::Bit2);
}

#[test]
fn pages_of_screens_are_in_the_zone_of_the_configuration() {
    let mut config = config("day");
    config.timezone = "Europe/Berlin".to_string();
    let page = screen_page(&config, &config.screen[0], Table::new());
    assert_eq!(page.timezone, "Europe/Berlin");
    assert_eq!(screen_depth(&config.screen[0]), Depth::Bit1);
    assert_eq!(screen_depth(&config.screen[1]), Depth::Bit2);
}

#[test]
fn rendered_pages_are_served() {
    assert_eq!(page_finish(Ok(vec![1, 2])).unwrap(), [1, 2]);
    assert_eq!(page_finish(Err(render::Error::Io("x".to_string()))).unwrap_err(), 500);
    let state = AppState::new(config("day"));
    assert!(matches!(
        screen_finish(&state, Table::new(), Ok(vec![3])),
        ScreenStep::Png(png) if png == [3]
    ));
}

#[test]
fn sources_that_cannot_be_laid_out_are_reported() {
    let state = AppState::new(config("day"));
    let mut inputs = Table::new();
    inputs.insert("x".to_string(), "y".to_string());
    inputs.insert("error".to_string(), "old".to_string());
    let failure = Error::Render(render::Error::Typst("error: bad".to_string()));
    match screen_finish(&state, inputs, Err(failure)) {
        ScreenStep::Page(page) => {
            assert!(matches!(page.source, PageSource::ErrorTemplate));
            assert_eq!(page.depth, Depth::Bit2);
            assert_eq!(page.timezone, "UTC");
            assert_eq!(input(&page, "error-title"), Some("Render Error".to_string()));
            assert_eq!(input(&page, "error"), Some("error: bad".to_string()));
            assert_eq!(input(&page, "x"), Some("y".to_string()));
        }
        other => panic!("{:?}", other),
    }
}

#[test]
fn other_failures_are_the_servers() {
    let state = AppState::new(config("day"));
    for failure in [
        Error::Render(render::Error::Encoding("x".to_string())),
        Error::Render(render::Error::Io("x".to_string())),
        Error::Query(config::Error::Io("x".to_string())),
        Error::Unknown,
    ] {
        assert!(matches!(
            screen_finish(&state, Table::new(), Err(failure)),
            ScreenStep::Status(500)
        ));
    }
}

#[test]
fn devices_do_not_disturb_each_other() {
    let mut state = AppState::new(config("day"));
    state.put_next_screen_at("other", NextScreen::new_image("a", Table::new()), 5);
    state.next_playlist_index("other");
    let pending = query(display_at(&mut state, &request(MAC), moment(5 + HOUR - 1)));
    display_finish(&mut state, &request(MAC), pending, values("n", "c"));
    setup(&mut state, &request("new!"));
    welcome_at(&mut state, "new!", 5 + HOUR - 1);
    assert_eq!(state.playlist_indices.get("other"), Some(&1));
    assert!(screen_at(&mut state, "other", 5 + HOUR - 1).is_ok());
}

#[test]
fn requests_leave_nothing_old() {
    let mut state = AppState::new(config("day"));
    state.put_next_screen_at("x", NextScreen::new_welcome(Table::new()), 1);
    setup_at(&mut state, &request("0000"), moment(1 + HOUR));
    assert_eq!(state.next_screens.entries().len(), 2);
    display_at(&mut state, &request("1111"), moment(1 + HOUR));
    assert!(state.next_screens.get("x").is_none());
    assert_eq!(state.next_screens.entries().len(), 2);
    error_at(&mut state, "x", 1 + 2 * HOUR);
    assert!(state.next_screens.entries().is_empty());
}

#[test]
fn turns_go_on_whatever_else_happens() {
    let mut state = AppState::new(config("day"));
    for round in 0..6 {
        let name = if round % 2 == 0 { "a" } else { "b" };
        let pending = query(display_at(&mut state, &request(MAC), moment(round)));
        assert_eq!(pending.screen.name, name);
        // The same device under another spelling has turns of its own.
        let other = query(display_at(&mut state, &request("AA:BB:CC:DD:EE:FF"), moment(round)));
        assert_eq!(other.screen.name, name);
        reply(display_at(&mut state, &request("00:00"), moment(round)));
        setup_at(&mut state, &request(MAC), moment(round));
        error_at(&mut state, MAC, round);
        welcome_at(&mut state, MAC, round);
        assert!(screen_at(&mut state, MAC, round).is_err());
        display_finish_at(&mut state, &request(MAC), pending, values("n", "c"), round, 1);
        if round == 3 {
            state.reload(Ok(config("unknown")));
            reply(display_at(&mut state, &request(MAC), moment(round)));
            state.reload(Ok(config("day")));
        }
    }
}
