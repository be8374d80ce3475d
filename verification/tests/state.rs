use tymnl::config::{self, Config};
use tymnl::render;
use tymnl::state::{AppState, Error, NextScreen, MAX_STATE_AGE};
use tymnl::table::Table;

const HOUR: u128 = 3_600_000_000_000;

fn config(rate: u32) -> Config {
    Config {
        device: vec![],
        playlist: vec![],
        screen: vec![],
        schedule: vec![],
        default_playlist: String::new(),
        default_refresh_rate: rate,
        timezone: "UTC".to_string(),
    }
}

fn image(name: &str) -> NextScreen {
    NextScreen::new_image(name, Table::new())
}

fn name(next: Option<NextScreen>) -> Option<String> {
    next.map(|n| match n {
        NextScreen::Image { name, .. } => name,
        NextScreen::Error { .. } => "error".to_string(),
        NextScreen::Welcome { .. } => "welcome".to_string(),
    })
}

#[test]
fn an_hour_is_an_hour() {
    assert_eq!(MAX_STATE_AGE, std::time::Duration::from_secs(3600).as_nanos());
    assert_eq!(MAX_STATE_AGE, HOUR);
}

#[test]
fn turns_count_up_for_each_device() {
    let mut state = AppState::new(config(1));
    for i in 0..5 {
        assert_eq!(state.next_playlist_index("a"), i);
    }
    assert_eq!(state.next_playlist_index("b"), 0);
    assert_eq!(state.next_playlist_index("a"), 5);
    assert_eq!(state.next_playlist_index("A"), 0);
}

#[test]
fn full_counts_start_over() {
    let mut state = AppState::new(config(1));
    state.playlist_indices.insert("a".to_string(), usize::MAX);
    assert_eq!(state.next_playlist_index("a"), usize::MAX);
    assert_eq!(state.next_playlist_index("a"), 0);
    assert_eq!(state.next_playlist_index("a"), 1);
}

#[test]
fn what_is_put_is_taken_once() {
    let mut state = AppState::new(config(1));
    assert!(state.take_next_screen("a").is_none());
    state.put_next_screen("a", image("one"));
    state.put_next_screen("b", image("other"));
    state.put_next_screen("a", image("two"));
    assert_eq!(name(state.take_next_screen("a")), Some("two".to_string()));
    assert_eq!(name(state.take_next_screen("a")), None);
    assert_eq!(name(state.take_next_screen("b")), Some("other".to_string()));
}

#[test]
fn what_is_an_hour_old_is_dropped() {
    let mut state = AppState::new(config(1));
    state.put_next_screen_at("old", image("old"), 10);
    state.put_next_screen_at("young", image("young"), 11);
    state.cleanup_old_screens_at(10 + HOUR);
    assert_eq!(name(state.take_next_screen("old")), None);
    assert_eq!(name(state.take_next_screen("young")), Some("young".to_string()));
}

#[test]
fn cleaning_up_twice_is_cleaning_up_once() {
    let mut state = AppState::new(config(1));
    state.put_next_screen_at("a", image("a"), 5);
    state.put_next_screen_at("b", image("b"), 7);
    state.cleanup_old_screens_at(4 + HOUR);
    assert_eq!(state.next_screens.entries().len(), 2);
    state.cleanup_old_screens_at(6 + HOUR);
    assert_eq!(state.next_screens.entries().len(), 1);
    state.cleanup_old_screens_at(6 + HOUR);
    assert_eq!(state.next_screens.entries().len(), 1);
    assert_eq!(name(state.take_next_screen("b")), Some("b".to_string()));
}

#[test]
fn what_was_just_put_is_not_dropped() {
    let mut state = AppState::new(config(1));
    state.put_next_screen("a", image("a"));
    state.cleanup_old_screens();
    assert_eq!(name(state.take_next_screen("a")), Some("a".to_string()));
}

#[test]
fn configurations_are_reloaded_if_they_can_be_read() {
    let mut state = AppState::new(config(1));
    state.put_next_screen("a", image("a"));
    state.next_playlist_index("a");
    state.reload(Err(config::Error::Io("gone".to_string())));
    assert_eq!(state.config().default_refresh_rate, 1);
    state.reload(Ok(config(2)));
    assert_eq!(state.config().default_refresh_rate, 2);
    assert_eq!(state.next_playlist_index("a"), 1);
    assert_eq!(name(state.take_next_screen("a")), Some("a".to_string()));
}

#[test]
fn next_screens_are_of_three_kinds() {
    assert_eq!(name(Some(image("x"))), Some("x".to_string()));
    assert!(matches!(
        NextScreen::new_error(Error::Unknown, Table::new()),
        NextScreen::Error { error: Error::Unknown, .. }
    ));
    let mut inputs = Table::new();
    inputs.insert("mac".to_string(), "m".to_string());
    match NextScreen::new_welcome(inputs) {
        NextScreen::Welcome { inputs } => assert_eq!(inputs.get("mac").unwrap(), "m"),
        other => panic!("{:?}", other),
    }
}

#[test]
fn errors_of_requests_are_put_in_words() {
    assert_eq!(Error::NoActivePlaylist.message(), "no active playlist defined");
    assert_eq!(
        Error::NoScreen("day".to_string()).message(),
        "no screen defined for playlist day"
    );
    assert_eq!(
        Error::Query(config::Error::Io("x".to_string())).message(),
        "querying input failed: Error reading config: x"
    );
    assert_eq!(
        Error::Render(render::Error::Typst("x".to_string())).message(),
        "rendering failed"
    );
    assert_eq!(Error::Unknown.message(), "unknown error");
}
