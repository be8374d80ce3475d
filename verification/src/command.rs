//! What the commands of the program decide.

use crate::config::{found_in, Config, Screen};
use crate::text::{decimal, decimal_text};
use vstd::prelude::*;
use vstd::string::StringExecFns;

verus! {

// --------------------------------------------------------------------- serve

/// The address that the server listens on.
pub fn listen_address(host: &str, port: u16) -> (r: String)
    ensures
        r@ == host@ + ":"@ + decimal(port as nat),
{
    host.to_owned().concat(":").concat(decimal_text(port as u64).as_str())
}

/// Which messages are logged: those of the program, in detail where it is asked
/// to be verbose, and the warnings of the server underneath.
pub fn log_filter(verbose: bool) -> (r: String)
    ensures
        r@ == "tymnl="@ + (if verbose {
            "debug"@
        } else {
            "info"@
        }) + ",axum=warn"@,
{
    let level = if verbose {
        "debug"
    } else {
        "info"
    };
    "tymnl=".to_owned().concat(level).concat(",axum=warn")
}

/// What happened to a file.
#[derive(Copy, Clone, Debug, PartialEq, Eq, Structural)]
pub enum FileEvent {
    Create,
    Modify,
    Other,
}

/// Whether a file may hold something else after an event.
pub open spec fn is_write(event: FileEvent) -> bool {
    event == FileEvent::Create || event == FileEvent::Modify
}

/// Whether the configuration is to be read anew after these events: a file has
/// been made or changed.
pub fn needs_reload(events: &Vec<FileEvent>) -> (r: bool)
    ensures
        r == exists|i: int| 0 <= i < events@.len() && is_write(#[trigger] events@[i]),
{
    for i in 0..events.len()
        invariant
            forall|j: int| 0 <= j < i ==> !is_write(#[trigger] events@[j]),
    {
        match events[i] {
            FileEvent::Create | FileEvent::Modify => {
                return true;
            },
            FileEvent::Other => {},
        }
    }
    false
}

// ---------------------------------------------------------------------- show

/// What is to be shown.
#[derive(Debug)]
pub enum Show {
    /// The names of all screens.
    List,
    /// A screen.
    Screen(String),
}

/// What is to be shown: the names of all screens if that is asked for, else the
/// screen that is named.
pub fn show_request(screen: Option<String>, list: bool) -> (r: Result<Show, String>)
    ensures
        list ==> r == Ok::<Show, String>(Show::List),
        !list ==> match screen {
            Some(name) => r == Ok::<Show, String>(Show::Screen(name)),
            None => r matches Err(message) && message@ == "screen name required"@,
        },
{
    if list {
        return Ok(Show::List);
    }
    match screen {
        Some(name) => Ok(Show::Screen(name)),
        None => Err("screen name required".to_owned()),
    }
}

/// The names of all screens.
pub fn screen_names(config: &Config) -> (r: Vec<String>)
    ensures
        r@ == config.screen@.map_values(|s: Screen| s.name),
{
    let mut names: Vec<String> = Vec::new();
    for i in 0..config.screen.len()
        invariant
            names@ == config.screen@.take(i as int).map_values(|s: Screen| s.name),
    {
        names.push(config.screen[i].name.clone());
        assert(names@ =~= config.screen@.take(i + 1).map_values(|s: Screen| s.name));
    }
    assert(config.screen@.take(config.screen@.len() as int) =~= config.screen@);
    names
}

/// The screen of a name, or what is said of one that is missing.
pub fn screen_to_show<'a>(config: &'a Config, name: &str) -> (r: Result<&'a Screen, String>)
    ensures
        match r {
            Ok(screen) => found_in(Some(screen), config.screen_named(name@)),
            Err(message) => config.screen_named(name@) is None && message@ == "screen '"@ + name@
                + "' not found in config"@,
        },
{
    match config.get_screen_by_name(name) {
        Some(screen) => Ok(screen),
        None => Err("screen '".to_owned().concat(name).concat("' not found in config")),
    }
}

}
