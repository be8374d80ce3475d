//! The configuration: devices, screens, playlists, and the schedule that says
//! which playlist is active when.

use crate::clock::{
    in_time, local_clock, local_time, second_of_day, time_of_day, utc_seconds, LocalTime, Weekday,
};
use crate::text::{
    decimal, decimal_text, eq_ignore_ascii_case, find_char, first, lemma_first_at,
    lemma_first_none, lower_ascii, number, parse_number, same, signed_decimal, signed_decimal_text,
};
use vstd::prelude::*;
use vstd::string::{StrSliceExecFns, StringExecFns};
use vstd::utf8::is_ascii_chars;

verus! {

/// A device that is allowed to ask for screens.
#[derive(Clone, Debug)]
pub struct Device {
    pub mac_address: String,
    pub name: String,
}

/// An option of a playlist. There is none yet, so the type has no values.
#[derive(Copy, Clone, Debug, Eq, PartialOrd, Ord)]
pub enum PlaylistOption {
    Never(core::convert::Infallible),
}

impl PartialEq for PlaylistOption {
    fn eq(&self, other: &Self) -> (r: bool) {
        match (self, other) {
            (PlaylistOption::Never(_), PlaylistOption::Never(_)) => true,
        }
    }
}

impl vstd::std_specs::cmp::PartialEqSpecImpl for PlaylistOption {
    open spec fn obeys_eq_spec() -> bool {
        true
    }

    open spec fn eq_spec(&self, other: &Self) -> bool {
        true
    }
}

/// An option of a screen.
#[derive(Copy, Clone, Debug, PartialEq, Eq, PartialOrd, Ord, Structural)]
pub enum ScreenOption {
    Grayscale,
}

/// An option of an input.
#[derive(Copy, Clone, Debug, PartialEq, Eq, PartialOrd, Ord, Structural)]
pub enum InputOption {
    NoHash,
}

/// Screens that are shown in turn.
#[derive(Clone, Debug)]
pub struct Playlist {
    pub name: String,
    pub screen: Vec<String>,
    pub option: Vec<PlaylistOption>,
}

/// Where the value of an input comes from.
#[derive(Debug)]
pub enum InputType {
    File(String),
    Url(String),
    Shell(String),
}

/// A named value that a screen is rendered with.
#[derive(Debug)]
pub struct Input {
    pub name: String,
    pub typ: InputType,
    pub option: Vec<InputOption>,
}

/// Where the source of a screen comes from.
#[derive(Debug)]
pub enum ScreenScript {
    File(String),
    Inline(String),
    Cached(String),
}

/// A page that can be rendered.
#[derive(Debug)]
pub struct Screen {
    pub name: String,
    pub script: ScreenScript,
    pub input: Vec<Input>,
    pub option: Vec<ScreenOption>,
}

/// The days on which a schedule applies.
#[derive(Clone, Debug)]
pub enum DaySelector {
    /// A list of day names.
    List(Vec<String>),
    /// `all`, `weekdays`, `weekends` or the name of a day.
    Named(String),
}

/// A window of time with its playlist and refresh rate.
#[derive(Clone, Debug)]
pub struct Schedule {
    pub playlist: Option<String>,
    pub days: DaySelector,
    pub start: String,
    pub end: String,
    pub refresh_rate: Option<u32>,
}

/// The whole configuration.
#[derive(Clone, Debug)]
pub struct Config {
    pub device: Vec<Device>,
    pub playlist: Vec<Playlist>,
    pub screen: Vec<Screen>,
    pub schedule: Vec<Schedule>,
    pub default_playlist: String,
    pub default_refresh_rate: u32,
    pub timezone: String,
}

/// What can go wrong with the configuration or with an input.
#[derive(Debug)]
pub enum Error {
    /// A file could not be read.
    Io(String),
    /// The configuration could not be parsed.
    Deserialize(String),
    /// A request failed.
    FetchUrl(String),
    /// A request was answered with a status that is no success.
    UrlStatusCode { status: u16, url: String },
    /// A shell command failed.
    CommandFailed { command: String, exit_code: Option<i32>, stderr: String },
    /// The output of a shell command is not UTF-8.
    Utf8(String),
}

/// What an `Error` says.
pub enum ErrorView {
    Io(Seq<char>),
    Deserialize(Seq<char>),
    FetchUrl(Seq<char>),
    UrlStatusCode { status: u16, url: Seq<char> },
    CommandFailed { command: Seq<char>, exit_code: Option<i32>, stderr: Seq<char> },
    Utf8(Seq<char>),
}

impl View for Error {
    type V = ErrorView;

    open spec fn view(&self) -> ErrorView {
        match *self {
            Error::Io(message) => ErrorView::Io(message@),
            Error::Deserialize(message) => ErrorView::Deserialize(message@),
            Error::FetchUrl(message) => ErrorView::FetchUrl(message@),
            Error::UrlStatusCode { status, url } => ErrorView::UrlStatusCode { status, url: url@ },
            Error::CommandFailed { command, exit_code, stderr } => ErrorView::CommandFailed {
                command: command@,
                exit_code,
                stderr: stderr@,
            },
            Error::Utf8(message) => ErrorView::Utf8(message@),
        }
    }
}

/// An optional number as a debugger shows it.
pub open spec fn exit_code_shown(code: Option<i32>) -> Seq<char> {
    match code {
        Some(n) => "Some("@ + signed_decimal(n as int) + ")"@,
        None => "None"@,
    }
}

impl ErrorView {
    /// The error in words.
    pub open spec fn message(self) -> Seq<char> {
        match self {
            ErrorView::Io(message) => "Error reading config: "@ + message,
            ErrorView::Deserialize(message) => "Error deserializing config: "@ + message,
            ErrorView::FetchUrl(message) => "Error fetching URL: "@ + message,
            ErrorView::UrlStatusCode { status, url } => "HTTP "@ + decimal(status as nat)
                + " from "@ + url,
            ErrorView::CommandFailed { command, exit_code, stderr } => "shell command `"@ + command
                + "` failed (exit "@ + exit_code_shown(exit_code) + "):\n"@ + stderr,
            ErrorView::Utf8(message) => "invalid UTF-8 in command output: "@ + message,
        }
    }
}

impl Error {
    /// The error in words.
    pub fn message(&self) -> (r: String)
        ensures
            r@ == self@.message(),
    {
        match self {
            Error::Io(message) => "Error reading config: ".to_owned().concat(message.as_str()),
            Error::Deserialize(message) => "Error deserializing config: ".to_owned().concat(
                message.as_str(),
            ),
            Error::FetchUrl(message) => "Error fetching URL: ".to_owned().concat(message.as_str()),
            Error::UrlStatusCode { status, url } => "HTTP ".to_owned().concat(
                decimal_text(*status as u64).as_str(),
            ).concat(" from ").concat(url.as_str()),
            Error::CommandFailed { command, exit_code, stderr } => {
                let code = match exit_code {
                    Some(n) => "Some(".to_owned().concat(signed_decimal_text(*n).as_str()).concat(
                        ")",
                    ),
                    None => "None".to_owned(),
                };
                "shell command `".to_owned().concat(command.as_str()).concat(
                    "` failed (exit ",
                ).concat(code.as_str()).concat("):\n").concat(stderr.as_str())
            },
            Error::Utf8(message) => "invalid UTF-8 in command output: ".to_owned().concat(
                message.as_str(),
            ),
        }
    }
}

// ---------------------------------------------------------------- day names

/// A string in lower case, by the mapping of Unicode.
pub uninterp spec fn lowercase(s: Seq<char>) -> Seq<char>;

/// `str::to_lowercase`: the lower case form of a string. Of ASCII text it is the
/// same text with its capital letters made small.
#[verifier::external_body]
fn to_lowercase(s: &str) -> (r: String)
    ensures
        r@ == lowercase(s@),
        is_ascii_chars(s@) ==> r@ == lower_ascii(s@),
{
    s.to_lowercase()
}

/// A string in lower case: of ASCII text, the same text with its capital letters
/// made small.
pub open spec fn in_lower_case(s: Seq<char>) -> Seq<char> {
    if is_ascii_chars(s) {
        lower_ascii(s)
    } else {
        lowercase(s)
    }
}

/// The day that a name in lower case stands for, short or in full.
pub open spec fn weekday_named(name: Seq<char>) -> Option<Weekday> {
    if name == "mon"@ || name == "monday"@ {
        Some(Weekday::Mon)
    } else if name == "tue"@ || name == "tuesday"@ {
        Some(Weekday::Tue)
    } else if name == "wed"@ || name == "wednesday"@ {
        Some(Weekday::Wed)
    } else if name == "thu"@ || name == "thursday"@ {
        Some(Weekday::Thu)
    } else if name == "fri"@ || name == "friday"@ {
        Some(Weekday::Fri)
    } else if name == "sat"@ || name == "saturday"@ {
        Some(Weekday::Sat)
    } else if name == "sun"@ || name == "sunday"@ {
        Some(Weekday::Sun)
    } else {
        None
    }
}

/// The day that a name in lower case stands for.
pub fn weekday_from_lowercase(name: &str) -> (r: Option<Weekday>)
    ensures
        r == weekday_named(name@),
{
    if same(name, "mon") || same(name, "monday") {
        Some(Weekday::Mon)
    } else if same(name, "tue") || same(name, "tuesday") {
        Some(Weekday::Tue)
    } else if same(name, "wed") || same(name, "wednesday") {
        Some(Weekday::Wed)
    } else if same(name, "thu") || same(name, "thursday") {
        Some(Weekday::Thu)
    } else if same(name, "fri") || same(name, "friday") {
        Some(Weekday::Fri)
    } else if same(name, "sat") || same(name, "saturday") {
        Some(Weekday::Sat)
    } else if same(name, "sun") || same(name, "sunday") {
        Some(Weekday::Sun)
    } else {
        None
    }
}

/// The day that a name stands for, in whatever case it is written.
pub fn weekday_from_str(s: &str) -> (r: Option<Weekday>)
    ensures
        r == weekday_named(in_lower_case(s@)),
        r == weekday_named(lowercase(s@)),
        is_ascii_chars(s@) ==> r == weekday_named(lower_ascii(s@)),
{
    weekday_from_lowercase(to_lowercase(s).as_str())
}

/// Whether a day is one from Monday to Friday.
pub open spec fn is_working_day(weekday: Weekday) -> bool {
    weekday != Weekday::Sat && weekday != Weekday::Sun
}

/// Whether the group or day of a lower case name holds `weekday`.
pub open spec fn group_has_day(name: Seq<char>, weekday: Weekday) -> bool {
    if name == "all"@ {
        true
    } else if name == "weekdays"@ {
        is_working_day(weekday)
    } else if name == "weekends"@ {
        !is_working_day(weekday)
    } else {
        weekday_named(name) == Some(weekday)
    }
}

/// Whether the group or day of a lower case name holds `weekday`.
pub fn group_matches(name: &str, weekday: Weekday) -> (r: bool)
    ensures
        r == group_has_day(name@, weekday),
{
    if same(name, "all") {
        true
    } else if same(name, "weekdays") {
        match weekday {
            Weekday::Mon | Weekday::Tue | Weekday::Wed | Weekday::Thu | Weekday::Fri => true,
            Weekday::Sat | Weekday::Sun => false,
        }
    } else if same(name, "weekends") {
        match weekday {
            Weekday::Sat | Weekday::Sun => true,
            _ => false,
        }
    } else {
        match weekday_from_lowercase(name) {
            Some(day) => day == weekday,
            None => false,
        }
    }
}

// --------------------------------------------------------------- time of day

/// The second of the day that `HH:MM` stands for.
pub open spec fn time_named(s: Seq<char>) -> Option<u32> {
    match s.index_of_first(':') {
        Some(i) => match (number(s.take(i)), number(s.skip(i + 1))) {
            (Some(h), Some(m)) => second_of_day(h as u32, m as u32, 0),
            _ => None,
        },
        None => None,
    }
}

/// Reads a time of day, written `HH:MM`, as seconds since midnight.
pub fn parse_time(s: &str) -> (r: Option<u32>)
    ensures
        r == time_named(s@),
{
    let n: usize = s.unicode_len();
    match find_char(s, ':') {
        Some(i) => {
            let hour = s.substring_char(0, i);
            let minute = s.substring_char(i + 1, n);
            assert(hour@ =~= s@.take(i as int));
            assert(minute@ =~= s@.skip(i + 1));
            match (parse_number(hour), parse_number(minute)) {
                (Some(h), Some(m)) => time_of_day(h, m, 0),
                _ => None,
            }
        },
        None => None,
    }
}

/// Whether `time` lies in the window from `start`, inclusive, to `end`,
/// exclusive. A window that ends before it starts runs over midnight.
pub open spec fn in_window(start: u32, end: u32, time: u32) -> bool {
    if start <= end {
        start <= time < end
    } else {
        start <= time || time < end
    }
}

/// Whether all names are ASCII text.
pub open spec fn all_ascii(names: Seq<String>) -> bool {
    forall|i: int| 0 <= i < names.len() ==> is_ascii_chars((#[trigger] names[i])@)
}

/// Whether one of the names, all of them ASCII text, stands for `weekday`.
pub open spec fn ascii_list_has_day(names: Seq<String>, weekday: Weekday) -> bool {
    exists|i: int|
        0 <= i < names.len() && weekday_named(lower_ascii((#[trigger] names[i])@)) == Some(weekday)
}

impl Schedule {
    /// Whether the schedule applies on `weekday`.
    pub open spec fn applies_on(&self, weekday: Weekday) -> bool {
        match self.days {
            DaySelector::Named(name) => group_has_day(in_lower_case(name@), weekday),
            DaySelector::List(days) => exists|i: int|
                0 <= i < days@.len() && weekday_named(in_lower_case((#[trigger] days@[i])@))
                    == Some(weekday),
        }
    }

    /// Whether `time`, in seconds since midnight, lies in the window of the
    /// schedule. A window that cannot be read holds no time.
    pub open spec fn is_open_at(&self, time: u32) -> bool {
        &&& time_named(self.start@) matches Some(start)
        &&& time_named(self.end@) matches Some(end)
        &&& in_window(start, end, time)
    }

    /// Whether the schedule applies on `weekday` at `time`, in seconds since
    /// midnight.
    pub open spec fn applies_at(&self, weekday: Weekday, time: u32) -> bool {
        self.applies_on(weekday) && self.is_open_at(time)
    }

    /// Whether the schedule applies on `weekday`.
    pub fn day_matches(&self, weekday: Weekday) -> (r: bool)
        ensures
            r == self.applies_on(weekday),
            self.days matches DaySelector::Named(name) ==> is_ascii_chars(name@) ==> r
                == group_has_day(lower_ascii(name@), weekday),
            self.days matches DaySelector::List(days) ==> all_ascii(days@) ==> r
                == ascii_list_has_day(days@, weekday),
    {
        match &self.days {
            DaySelector::Named(name) => {
                group_matches(to_lowercase(name.as_str()).as_str(), weekday)
            },
            DaySelector::List(days) => {
                for i in 0..days.len()
                    invariant
                        self.days == DaySelector::List(*days),
                        forall|j: int|
                            0 <= j < i ==> weekday_named(in_lower_case((#[trigger] days@[j])@))
                                != Some(weekday),
                {
                    match weekday_from_str(days[i].as_str()) {
                        Some(day) => {
                            if day == weekday {
                                return true;
                            }
                        },
                        None => {},
                    }
                }
                false
            },
        }
    }

    /// Whether the schedule applies on `weekday` at `time`, in seconds since
    /// midnight.
    pub fn matches(&self, weekday: Weekday, time: u32) -> (r: bool)
        ensures
            r == self.applies_at(weekday, time),
            self.days matches DaySelector::Named(name) ==> is_ascii_chars(name@) ==> r == (
            group_has_day(lower_ascii(name@), weekday) && self.is_open_at(time)),
            self.days matches DaySelector::List(days) ==> all_ascii(days@) ==> r == (
            ascii_list_has_day(days@, weekday) && self.is_open_at(time)),
    {
        if !self.day_matches(weekday) {
            return false;
        }
        match (parse_time(self.start.as_str()), parse_time(self.end.as_str())) {
            (Some(start), Some(end)) => {
                if start <= end {
                    // during the day
                    time >= start && time < end
                } else {
                    // over midnight
                    time >= start || time < end
                }
            },
            _ => false,
        }
    }
}

// ------------------------------------------------------------------- lookups

impl Playlist {
    /// The name of the screen whose turn it is.
    pub open spec fn turn(&self, counter: nat) -> Seq<char>
        recommends
            self.screen@.len() > 0,
    {
        self.screen@[counter as int % self.screen@.len() as int]@
    }

    /// The screen whose turn it is. There is none in an empty playlist, nor
    /// where the configuration lacks the screen that the playlist names.
    pub fn get_next_screen<'a>(&self, config: &'a Config, counter: usize) -> (r: Option<&'a Screen>)
        ensures
            self.screen@.len() == 0 ==> r is None,
            self.screen@.len() > 0 ==> found_in(r, config.screen_named(self.turn(counter as nat))),
    {
        if self.screen.len() == 0 {
            return None;
        }
        let next: usize = counter % self.screen.len();
        config.get_screen_by_name(self.screen[next].as_str())
    }

    /// Whether the playlist has an option.
    pub fn has_option(&self, option: PlaylistOption) -> (r: bool)
        ensures
            r == exists|i: int|
                0 <= i < self.option@.len() && vstd::std_specs::cmp::PartialEqSpec::eq_spec(
                    #[trigger] &self.option@[i],
                    &option,
                ),
    {
        for i in 0..self.option.len()
            invariant
                forall|j: int|
                    0 <= j < i ==> !vstd::std_specs::cmp::PartialEqSpec::eq_spec(
                        #[trigger] &self.option@[j],
                        &option,
                    ),
        {
            if self.option[i] == option {
                return true;
            }
        }
        false
    }
}

impl Input {
    /// Whether the input has an option.
    pub fn has_option(&self, option: InputOption) -> (r: bool)
        ensures
            r == self.option@.contains(option),
    {
        for i in 0..self.option.len()
            invariant
                forall|j: int| 0 <= j < i ==> self.option@[j] != option,
        {
            if self.option[i] == option {
                return true;
            }
        }
        false
    }
}

impl Screen {
    /// Whether the screen has an option.
    pub fn has_option(&self, option: ScreenOption) -> (r: bool)
        ensures
            r == self.option@.contains(option),
    {
        for i in 0..self.option.len()
            invariant
                forall|j: int| 0 <= j < i ==> self.option@[j] != option,
        {
            if self.option[i] == option {
                return true;
            }
        }
        false
    }
}

/// The second of the day at which a clock begins to show `at`. What is no time of
/// day counts as midnight.
pub open spec fn second_shown(at: LocalTime) -> u32 {
    match second_of_day(at.hour, at.minute, 0) {
        Some(time) => time,
        None => 0,
    }
}

/// Whether a borrowed result is the value that was looked for.
pub open spec fn found_in<T>(r: Option<&T>, wanted: Option<T>) -> bool {
    match r {
        Some(x) => wanted == Some(*x),
        None => wanted is None,
    }
}

/// What a device satisfies that has a MAC address, whatever the case of its
/// letters.
pub open spec fn has_mac(mac: Seq<char>) -> spec_fn(Device) -> bool {
    |d: Device| lower_ascii(d.mac_address@) == lower_ascii(mac)
}

/// What a playlist of a name satisfies.
pub open spec fn is_playlist(name: Seq<char>) -> spec_fn(Playlist) -> bool {
    |p: Playlist| p.name@ == name
}

/// What a screen of a name satisfies.
pub open spec fn is_screen(name: Seq<char>) -> spec_fn(Screen) -> bool {
    |s: Screen| s.name@ == name
}

/// What a schedule satisfies that applies at a local time.
pub open spec fn is_due(at: LocalTime) -> spec_fn(Schedule) -> bool {
    |s: Schedule| s.applies_at(at.weekday, second_shown(at))
}

impl Config {
    /// The first device with a MAC address, whatever the case of its letters.
    pub open spec fn device_with_mac(&self, mac: Seq<char>) -> Option<Device> {
        first(self.device@, has_mac(mac))
    }

    /// The first playlist with a name.
    pub open spec fn playlist_named(&self, name: Seq<char>) -> Option<Playlist> {
        first(self.playlist@, is_playlist(name))
    }

    /// The first screen with a name.
    pub open spec fn screen_named(&self, name: Seq<char>) -> Option<Screen> {
        first(self.screen@, is_screen(name))
    }

    /// The first schedule that applies at a local time.
    pub open spec fn schedule_at(&self, at: LocalTime) -> Option<Schedule> {
        first(self.schedule@, is_due(at))
    }

    /// The playlist that the schedule at `at` names, if the configuration has it,
    /// else the default playlist.
    pub open spec fn playlist_at(&self, at: LocalTime) -> Option<Playlist> {
        match self.schedule_at(at) {
            Some(schedule) => match schedule.playlist {
                Some(name) => match self.playlist_named(name@) {
                    Some(playlist) => Some(playlist),
                    None => self.playlist_named(self.default_playlist@),
                },
                None => self.playlist_named(self.default_playlist@),
            },
            None => self.playlist_named(self.default_playlist@),
        }
    }

    /// The refresh rate of the schedule at `at`, else the default one.
    pub open spec fn refresh_rate_at(&self, at: LocalTime) -> u32 {
        match self.schedule_at(at) {
            Some(schedule) => match schedule.refresh_rate {
                Some(rate) => rate,
                None => self.default_refresh_rate,
            },
            None => self.default_refresh_rate,
        }
    }

    /// Finds a device by its MAC address.
    pub fn get_device_by_mac(&self, mac: &str) -> (r: Option<&Device>)
        ensures
            found_in(r, self.device_with_mac(mac@)),
    {
        let ghost p = has_mac(mac@);
        for i in 0..self.device.len()
            invariant
                p == has_mac(mac@),
                forall|j: int| 0 <= j < i ==> !p(#[trigger] self.device@[j]),
        {
            if eq_ignore_ascii_case(self.device[i].mac_address.as_str(), mac) {
                proof {
                    lemma_first_at(self.device@, p, i as int);
                }
                return Some(&self.device[i]);
            }
        }
        proof {
            lemma_first_none(self.device@, p);
        }
        None
    }

    /// Finds a playlist by its name.
    pub fn get_playlist_by_name(&self, playlist: &str) -> (r: Option<&Playlist>)
        ensures
            found_in(r, self.playlist_named(playlist@)),
    {
        let ghost p = is_playlist(playlist@);
        for i in 0..self.playlist.len()
            invariant
                p == is_playlist(playlist@),
                forall|j: int| 0 <= j < i ==> !p(#[trigger] self.playlist@[j]),
        {
            if same(self.playlist[i].name.as_str(), playlist) {
                proof {
                    lemma_first_at(self.playlist@, p, i as int);
                }
                return Some(&self.playlist[i]);
            }
        }
        proof {
            lemma_first_none(self.playlist@, p);
        }
        None
    }

    /// Finds a screen by its name.
    pub fn get_screen_by_name(&self, screen: &str) -> (r: Option<&Screen>)
        ensures
            found_in(r, self.screen_named(screen@)),
    {
        let ghost p = is_screen(screen@);
        for i in 0..self.screen.len()
            invariant
                p == is_screen(screen@),
                forall|j: int| 0 <= j < i ==> !p(#[trigger] self.screen@[j]),
        {
            if same(self.screen[i].name.as_str(), screen) {
                proof {
                    lemma_first_at(self.screen@, p, i as int);
                }
                return Some(&self.screen[i]);
            }
        }
        proof {
            lemma_first_none(self.screen@, p);
        }
        None
    }

    /// Finds the schedule that applies at a local time.
    pub fn get_schedule_for_time(&self, at: LocalTime) -> (r: Option<&Schedule>)
        ensures
            found_in(r, self.schedule_at(at)),
    {
        let time: u32 = match time_of_day(at.hour, at.minute, 0) {
            Some(time) => time,
            None => 0,
        };
        let ghost p = is_due(at);
        for i in 0..self.schedule.len()
            invariant
                time == second_shown(at),
                p == is_due(at),
                forall|j: int| 0 <= j < i ==> !p(#[trigger] self.schedule@[j]),
        {
            if self.schedule[i].matches(at.weekday, time) {
                proof {
                    lemma_first_at(self.schedule@, p, i as int);
                }
                return Some(&self.schedule[i]);
            }
        }
        proof {
            lemma_first_none(self.schedule@, p);
        }
        None
    }

    /// Finds the playlist of a local time.
    pub fn get_playlist_for_time(&self, at: LocalTime) -> (r: Option<&Playlist>)
        ensures
            found_in(r, self.playlist_at(at)),
    {
        if let Some(schedule) = self.get_schedule_for_time(at) {
            if let Some(name) = &schedule.playlist {
                if let Some(playlist) = self.get_playlist_by_name(name.as_str()) {
                    return Some(playlist);
                }
            }
        }
        self.get_playlist_by_name(self.default_playlist.as_str())
    }

    /// Finds the refresh rate of a local time, in seconds.
    pub fn get_refresh_rate_for_time(&self, at: LocalTime) -> (r: u32)
        ensures
            r == self.refresh_rate_at(at),
    {
        if let Some(schedule) = self.get_schedule_for_time(at) {
            if let Some(rate) = schedule.refresh_rate {
                return rate;
            }
        }
        self.default_refresh_rate
    }

    /// The present local time in the configured time zone.
    pub open spec fn local_clock_at(&self, seconds: i64) -> LocalTime {
        local_clock(seconds, self.timezone@)
    }

    /// Finds the schedule that applies now.
    pub fn get_active_schedule(&self) -> (r: Option<&Schedule>)
        ensures
            exists|seconds: i64| #[trigger]
                in_time(seconds) && found_in(r, self.schedule_at(self.local_clock_at(seconds))),
    {
        let seconds: i64 = utc_seconds();
        self.get_schedule_for_time(local_time(seconds, self.timezone.as_str()))
    }

    /// Finds the playlist that is active now.
    pub fn get_active_playlist(&self) -> (r: Option<&Playlist>)
        ensures
            exists|seconds: i64| #[trigger]
                in_time(seconds) && found_in(r, self.playlist_at(self.local_clock_at(seconds))),
    {
        let seconds: i64 = utc_seconds();
        self.get_playlist_for_time(local_time(seconds, self.timezone.as_str()))
    }

    /// Finds the refresh rate that is active now, in seconds.
    pub fn get_active_refresh_rate(&self) -> (r: u32)
        ensures
            exists|seconds: i64| #[trigger]
                in_time(seconds) && r == self.refresh_rate_at(self.local_clock_at(seconds)),
    {
        let seconds: i64 = utc_seconds();
        self.get_refresh_rate_for_time(local_time(seconds, self.timezone.as_str()))
    }
}

}
