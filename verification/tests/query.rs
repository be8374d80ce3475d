use std::collections::hash_map::DefaultHasher;
use std::hash::{Hash, Hasher};
use tymnl::config::{Error, Input, InputOption, InputType, Screen, ScreenScript};
use tymnl::query::{check_status, command_outcome};

fn input(name: &str, hashed: bool) -> Input {
    Input {
        name: name.to_string(),
        typ: InputType::Shell("true".to_string()),
        option: if hashed { vec![] } else { vec![InputOption::NoHash] },
    }
}

fn screen(input: Vec<Input>) -> Screen {
    Screen {
        name: "page".to_string(),
        script: ScreenScript::Inline(String::new()),
        input,
        option: vec![],
    }
}

fn ok(value: &str) -> Result<String, Error> {
    Ok(value.to_string())
}

fn hash(parts: &[&str]) -> u64 {
    let mut hasher = DefaultHasher::new();
    for part in parts {
        part.to_string().hash(&mut hasher);
    }
    hasher.finish()
}

#[test]
fn only_success_counts() {
    for status in [200u16, 204, 299] {
        assert!(check_status(status, "u".to_string()).is_ok());
    }
    for status in [100u16, 199, 300, 301, 404, 500, 0, 999] {
        match check_status(status, "u".to_string()) {
            Err(Error::UrlStatusCode { status: s, url }) => {
                assert_eq!(s, status);
                assert_eq!(url, "u");
            }
            other => panic!("{:?}", other),
        }
    }
}

#[test]
fn commands_give_their_output() {
    let r = command_outcome("c", true, Some(0), "gr\u{fc}n\n".into(), vec![1]);
    assert_eq!(r.unwrap(), "gr\u{fc}n\n");
    let r = command_outcome("c", true, Some(0), vec![], vec![]);
    assert_eq!(r.unwrap(), "");
}

#[test]
fn failed_commands_give_their_complaint() {
    match command_outcome("ls /x", false, Some(2), vec![], b"no \xff such".to_vec()) {
        Err(Error::CommandFailed { command, exit_code, stderr }) => {
            assert_eq!(command, "ls /x");
            assert_eq!(exit_code, Some(2));
            assert_eq!(stderr, "no \u{fffd} such");
        }
        other => panic!("{:?}", other),
    }
    match command_outcome("x", false, None, vec![0xff], b"plain".to_vec()) {
        Err(Error::CommandFailed { exit_code: None, stderr, .. }) => assert_eq!(stderr, "plain"),
        other => panic!("{:?}", other),
    }
}

#[test]
fn output_must_be_utf8() {
    let bytes = vec![b'a', 0xff];
    let expected = String::from_utf8(bytes.clone()).unwrap_err().to_string();
    match command_outcome("c", true, Some(0), bytes, vec![]) {
        Err(Error::Utf8(message)) => assert_eq!(message, expected),
        other => panic!("{:?}", other),
    }
}

#[test]
fn values_are_named_and_hashed() {
    let page = screen(vec![input("a", true), input("b", true)]);
    let (inputs, h) = page.query_inputs(vec![ok("1"), ok("2")]).unwrap();
    assert_eq!(inputs.get("a").unwrap(), "1");
    assert_eq!(inputs.get("b").unwrap(), "2");
    assert_eq!(inputs.entries().len(), 2);
    assert_eq!(h, hash(&["a", "1", "b", "2"]));
}

#[test]
fn values_without_hash_do_not_count() {
    let page = screen(vec![input("a", true), input("clock", false)]);
    let (inputs, one) = page.query_inputs(vec![ok("1"), ok("10:00")]).unwrap();
    let (_, two) = page.query_inputs(vec![ok("1"), ok("10:01")]).unwrap();
    let (_, other) = page.query_inputs(vec![ok("2"), ok("10:00")]).unwrap();
    assert_eq!(inputs.get("clock").unwrap(), "10:00");
    assert_eq!(one, two);
    assert_eq!(one, hash(&["a", "1"]));
    assert_ne!(one, other);
}

#[test]
fn of_two_inputs_of_one_name_the_later_counts() {
    let page = screen(vec![input("a", true), input("a", true)]);
    let (inputs, h) = page.query_inputs(vec![ok("1"), ok("2")]).unwrap();
    assert_eq!(inputs.get("a").unwrap(), "2");
    assert_eq!(inputs.entries().len(), 1);
    assert_eq!(h, hash(&["a", "1", "a", "2"]));
}

#[test]
fn the_first_failure_is_the_outcome() {
    let page = screen(vec![input("a", true), input("b", true), input("c", true)]);
    let r = page.query_inputs(vec![
        ok("1"),
        Err(Error::Io("first".to_string())),
        Err(Error::Io("second".to_string())),
    ]);
    match r {
        Err(Error::Io(message)) => assert_eq!(message, "first"),
        other => panic!("{:?}", other),
    }
}

#[test]
fn a_screen_without_inputs_has_the_hash_of_nothing() {
    let (inputs, h) = screen(vec![]).query_inputs(vec![]).unwrap();
    assert!(inputs.entries().is_empty());
    assert_eq!(h, hash(&[]));
}

#[test]
fn inputs_without_hash_may_come_and_go() {
    let one = screen(vec![input("a", true), input("clock", false), input("b", true)]);
    let two = screen(vec![input("x", false), input("a", true), input("b", true), input("y", false)]);
    let (_, h) = one.query_inputs(vec![ok("1"), ok("now"), ok("2")]).unwrap();
    let (_, i) = two.query_inputs(vec![ok("?"), ok("1"), ok("2"), ok("!")]).unwrap();
    assert_eq!(h, i);
    let other = screen(vec![input("b", true), input("a", true)]);
    let (_, j) = other.query_inputs(vec![ok("2"), ok("1")]).unwrap();
    assert_ne!(h, j);
}
