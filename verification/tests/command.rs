use tymnl::command::{
    listen_address, log_filter, needs_reload, screen_names, screen_to_show, show_request,
    FileEvent, Show,
};
use tymnl::config::{Config, Screen, ScreenScript};

fn config(names: &[&str]) -> Config {
    Config {
        device: vec![],
        playlist: vec![],
        screen: names
            .iter()
            .map(|n| Screen {
                name: n.to_string(),
                script: ScreenScript::Inline(String::new()),
                input: vec![],
                option: vec![],
            })
            .collect(),
        schedule: vec![],
        default_playlist: String::new(),
        default_refresh_rate: 60,
        timezone: "UTC".to_string(),
    }
}

#[test]
fn addresses_are_host_and_port() {
    assert_eq!(listen_address("0.0.0.0", 3003), "0.0.0.0:3003");
    assert_eq!(listen_address("", 0), ":0");
}

#[test]
fn verbose_logs_are_in_detail() {
    assert_eq!(log_filter(true), "tymnl=debug,axum=warn");
    assert_eq!(log_filter(false), "tymnl=info,axum=warn");
}

#[test]
fn writes_need_a_reload() {
    assert!(!needs_reload(&vec![]));
    assert!(!needs_reload(&vec![FileEvent::Other, FileEvent::Other]));
    assert!(needs_reload(&vec![FileEvent::Other, FileEvent::Create]));
    assert!(needs_reload(&vec![FileEvent::Modify]));
}

#[test]
fn show_lists_or_shows() {
    assert!(matches!(show_request(None, true), Ok(Show::List)));
    assert!(matches!(show_request(Some("a".to_string()), true), Ok(Show::List)));
    assert!(matches!(show_request(Some("a".to_string()), false), Ok(Show::Screen(s)) if s == "a"));
    assert_eq!(show_request(None, false).unwrap_err(), "screen name required");
}

#[test]
fn screens_are_listed_in_the_order_of_the_configuration() {
    assert_eq!(screen_names(&config(&["b", "a", "b"])), ["b", "a", "b"]);
    assert!(screen_names(&config(&[])).is_empty());
}

#[test]
fn missing_screens_are_named() {
    let config = config(&["a"]);
    assert_eq!(screen_to_show(&config, "a").unwrap().name, "a");
    assert_eq!(screen_to_show(&config, "b").unwrap_err(), "screen 'b' not found in config");
}
