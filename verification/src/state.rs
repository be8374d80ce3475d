//! What the server remembers from one request to the next: the configuration,
//! whose turn it is in the playlists, and what each device is to be shown next.

use crate::config::{self, Config};
use crate::query::{texts, Inputs};
use crate::render;
use crate::table::{young_entries, Table};
use std::time::Instant;
use vstd::prelude::*;
use vstd::string::StringExecFns;

verus! {

/// How long what a device is to be shown next is kept, in nanoseconds: an hour.
pub const MAX_STATE_AGE: u128 = 3_600_000_000_000;

// -------------------------------------------------------------------- errors

/// What can go wrong on the way to a screen.
#[derive(Debug)]
pub enum Error {
    NoActivePlaylist,
    NoScreen(String),
    Query(config::Error),
    Render(render::Error),
    Unknown,
}

/// What an `Error` says.
pub enum ErrorView {
    NoActivePlaylist,
    NoScreen(Seq<char>),
    Query(config::ErrorView),
    Render(render::ErrorView),
    Unknown,
}

impl View for Error {
    type V = ErrorView;

    open spec fn view(&self) -> ErrorView {
        match *self {
            Error::NoActivePlaylist => ErrorView::NoActivePlaylist,
            Error::NoScreen(name) => ErrorView::NoScreen(name@),
            Error::Query(e) => ErrorView::Query(e@),
            Error::Render(e) => ErrorView::Render(e@),
            Error::Unknown => ErrorView::Unknown,
        }
    }
}

impl ErrorView {
    /// The error in words.
    pub open spec fn message(self) -> Seq<char> {
        match self {
            ErrorView::NoActivePlaylist => "no active playlist defined"@,
            ErrorView::NoScreen(name) => "no screen defined for playlist "@ + name,
            ErrorView::Query(e) => "querying input failed: "@ + e.message(),
            ErrorView::Render(_) => "rendering failed"@,
            ErrorView::Unknown => "unknown error"@,
        }
    }
}

impl Error {
    /// The error in words.
    pub fn message(&self) -> (r: String)
        ensures
            r@ == self@.message(),
    {
        match self {
            Error::NoActivePlaylist => "no active playlist defined".to_owned(),
            Error::NoScreen(name) => "no screen defined for playlist ".to_owned().concat(
                name.as_str(),
            ),
            Error::Query(e) => "querying input failed: ".to_owned().concat(e.message().as_str()),
            Error::Render(_) => "rendering failed".to_owned(),
            Error::Unknown => "unknown error".to_owned(),
        }
    }
}

// --------------------------------------------------------------- next screen

/// What a device is to be shown next.
#[derive(Debug)]
pub enum NextScreen {
    Image { name: String, inputs: Inputs },
    Error { error: Error, inputs: Inputs },
    Welcome { inputs: Inputs },
}

/// What a `NextScreen` says.
#[verifier::ext_equal]
pub enum NextScreenView {
    Image { name: Seq<char>, inputs: Map<Seq<char>, Seq<char>> },
    Error { error: ErrorView, inputs: Map<Seq<char>, Seq<char>> },
    Welcome { inputs: Map<Seq<char>, Seq<char>> },
}

impl View for NextScreen {
    type V = NextScreenView;

    open spec fn view(&self) -> NextScreenView {
        match *self {
            NextScreen::Image { name, inputs } => NextScreenView::Image {
                name: name@,
                inputs: texts(inputs@),
            },
            NextScreen::Error { error, inputs } => NextScreenView::Error {
                error: error@,
                inputs: texts(inputs@),
            },
            NextScreen::Welcome { inputs } => NextScreenView::Welcome { inputs: texts(inputs@) },
        }
    }
}

impl NextScreen {
    /// A screen of the configuration.
    pub fn new_image(name: &str, inputs: Inputs) -> (r: Self)
        ensures
            r@ == (NextScreenView::Image { name: name@, inputs: texts(inputs@) }),
    {
        NextScreen::Image { name: name.to_owned(), inputs }
    }

    /// A page about an error.
    pub fn new_error(error: Error, inputs: Inputs) -> (r: Self)
        ensures
            r == (NextScreen::Error { error, inputs }),
    {
        NextScreen::Error { error, inputs }
    }

    /// The page for a device that is not configured.
    pub fn new_welcome(inputs: Inputs) -> (r: Self)
        ensures
            r == (NextScreen::Welcome { inputs }),
    {
        NextScreen::Welcome { inputs }
    }
}

// --------------------------------------------------------------------- state

#[verifier::external_type_specification]
#[verifier::external_body]
pub struct ExInstant(std::time::Instant);

/// `std::time::Instant::now`: the present. Nothing is said of it.
#[verifier::external_body]
fn instant_now() -> (r: Instant) {
    Instant::now()
}

/// `std::time::Instant::elapsed`: how long ago an instant was, in nanoseconds.
/// Nothing is said of it, since it depends on when it is asked.
#[verifier::external_body]
fn nanoseconds_since(start: &Instant) -> (r: u128) {
    start.elapsed().as_nanos()
}

/// What the server remembers. Stamps are nanoseconds since the state was made.
#[derive(Debug)]
pub struct AppState {
    pub config: Config,
    pub playlist_indices: Table<usize>,
    pub next_screens: Table<(u128, NextScreen)>,
    pub started: Instant,
}

/// What the devices are to be shown next, in words.
pub open spec fn shown(screens: Map<Seq<char>, (u128, NextScreen)>) -> Map<
    Seq<char>,
    (u128, NextScreenView),
> {
    screens.map_values(|stamped: (u128, NextScreen)| (stamped.0, stamped.1@))
}

/// What an `AppState` says.
#[verifier::ext_equal]
pub struct StateView {
    pub config: Config,
    pub indices: Map<Seq<char>, usize>,
    pub screens: Map<Seq<char>, (u128, NextScreenView)>,
}

impl View for AppState {
    type V = StateView;

    open spec fn view(&self) -> StateView {
        StateView {
            config: self.config,
            indices: self.playlist_indices@,
            screens: shown(self.next_screens@),
        }
    }
}

impl StateView {
    /// The state once a device has been given something to be shown next.
    pub open spec fn put(self, mac: Seq<char>, now: u128, next: NextScreenView) -> StateView {
        StateView { screens: self.screens.insert(mac, (now, next)), ..self }
    }

    /// The state once what a device is to be shown next has been taken.
    pub open spec fn taken(self, mac: Seq<char>) -> StateView {
        StateView { screens: self.screens.remove(mac), ..self }
    }

    /// The state after a cleanup.
    pub open spec fn cleaned(self, now: u128) -> StateView {
        StateView { screens: young_entries(self.screens, now, MAX_STATE_AGE), ..self }
    }
}

/// How often a device has had a turn.
pub open spec fn turns_of(indices: Map<Seq<char>, usize>, mac: Seq<char>) -> usize {
    if indices.contains_key(mac) {
        indices[mac]
    } else {
        0
    }
}

/// The count after `n`, which starts over once it is full.
pub open spec fn next_turn(n: usize) -> usize {
    if n == usize::MAX {
        0
    } else {
        (n + 1) as usize
    }
}

impl AppState {
    /// A state in which no device has asked for anything yet.
    pub fn new(config: Config) -> (r: Self)
        ensures
            r.config == config,
            r.playlist_indices@ == Map::<Seq<char>, usize>::empty(),
            r.next_screens@ == Map::<Seq<char>, (u128, NextScreen)>::empty(),
    {
        AppState {
            config,
            playlist_indices: Table::new(),
            next_screens: Table::new(),
            started: instant_now(),
        }
    }

    /// The configuration.
    pub fn config(&self) -> (r: &Config)
        ensures
            *r == self.config,
    {
        &self.config
    }

    /// Takes over a configuration that was read anew. Where that failed, the
    /// present one stays.
    pub fn reload(&mut self, config: Result<Config, config::Error>)
        ensures
            final(self).config == (match config {
                Ok(config) => config,
                Err(_) => old(self).config,
            }),
            final(self).playlist_indices == old(self).playlist_indices,
            final(self).next_screens == old(self).next_screens,
            final(self).started == old(self).started,
    {
        match config {
            Ok(config) => {
                self.config = config;
            },
            Err(_) => {},
        }
    }

    /// How long ago the state was made, in nanoseconds. That depends on when it is
    /// asked, so no particular age is promised.
    pub(crate) fn elapsed(&self) -> (r: u128) {
        nanoseconds_since(&self.started)
    }

    /// How often the device has had a turn before. Counts this turn.
    pub fn next_playlist_index(&mut self, mac: &str) -> (r: usize)
        ensures
            r == turns_of(old(self).playlist_indices@, mac@),
            final(self).playlist_indices@ == old(self).playlist_indices@.insert(mac@, next_turn(r)),
            final(self).config == old(self).config,
            final(self).next_screens == old(self).next_screens,
            final(self).started == old(self).started,
    {
        let current: usize = match self.playlist_indices.get(mac) {
            Some(index) => *index,
            None => 0,
        };
        self.playlist_indices.insert(mac.to_owned(), current.wrapping_add(1));
        current
    }

    /// Takes what the device is to be shown next.
    pub fn take_next_screen(&mut self, mac: &str) -> (r: Option<NextScreen>)
        ensures
            r is Some <==> old(self).next_screens@.contains_key(mac@),
            r matches Some(next) ==> next == old(self).next_screens@[mac@].1,
            final(self).next_screens@ == old(self).next_screens@.remove(mac@),
            final(self)@ == old(self)@.taken(mac@),
            final(self).config == old(self).config,
            final(self).playlist_indices == old(self).playlist_indices,
            final(self).started == old(self).started,
    {
        let ghost before = *self;
        let taken = self.next_screens.remove(mac);
        assert(self@.screens =~= before@.screens.remove(mac@));
        match taken {
            Some(stamped) => Some(stamped.1),
            None => None,
        }
    }

    /// Puts down at `now` what the device is to be shown next, in place of what
    /// was there.
    pub fn put_next_screen_at(&mut self, mac: &str, next: NextScreen, now: u128)
        ensures
            final(self).next_screens@ == old(self).next_screens@.insert(mac@, (now, next)),
            final(self)@ == old(self)@.put(mac@, now, next@),
            final(self).config == old(self).config,
            final(self).playlist_indices == old(self).playlist_indices,
            final(self).started == old(self).started,
    {
        let ghost before = *self;
        self.next_screens.insert(mac.to_owned(), (now, next));
        assert(self@.screens =~= before@.screens.insert(mac@, (now, next@)));
    }

    /// Puts down what the device is to be shown next, in place of what was there.
    pub fn put_next_screen(&mut self, mac: &str, next: NextScreen)
        ensures
            exists|now: u128|
                final(self).next_screens@ == #[trigger] old(self).next_screens@.insert(
                    mac@,
                    (now, next),
                ),
            final(self).config == old(self).config,
            final(self).playlist_indices == old(self).playlist_indices,
            final(self).started == old(self).started,
    {
        let now: u128 = self.elapsed();
        self.put_next_screen_at(mac, next, now);
    }

    /// Drops what has been kept for `MAX_STATE_AGE` at `now`.
    pub fn cleanup_old_screens_at(&mut self, now: u128)
        ensures
            final(self).next_screens@ == young_entries(old(self).next_screens@, now, MAX_STATE_AGE),
            final(self)@ == old(self)@.cleaned(now),
            final(self).config == old(self).config,
            final(self).playlist_indices == old(self).playlist_indices,
            final(self).started == old(self).started,
    {
        let ghost before = *self;
        self.next_screens.retain_younger(now, MAX_STATE_AGE);
        assert(self@.screens =~= young_entries(before@.screens, now, MAX_STATE_AGE));
    }

    /// Drops what has been kept for `MAX_STATE_AGE`.
    pub fn cleanup_old_screens(&mut self)
        ensures
            exists|now: u128|
                final(self).next_screens@ == #[trigger] young_entries(
                    old(self).next_screens@,
                    now,
                    MAX_STATE_AGE,
                ),
            final(self).config == old(self).config,
            final(self).playlist_indices == old(self).playlist_indices,
            final(self).started == old(self).started,
    {
        let now: u128 = self.elapsed();
        self.cleanup_old_screens_at(now);
    }
}

// ---------------------------------------------------------------------- laws

/// What was put down for a device is what is taken, once; what other devices are
/// to be shown is not touched.
pub proof fn put_is_taken_once(
    screens: Map<Seq<char>, (u128, NextScreen)>,
    mac: Seq<char>,
    now: u128,
    next: NextScreen,
    other: Seq<char>,
)
    ensures
        ({
            let put = screens.insert(mac, (now, next));
            let taken = put.remove(mac);
            &&& put.contains_key(mac) && put[mac].1 == next
            &&& !taken.contains_key(mac)
            &&& other != mac ==> put.contains_key(other) == screens.contains_key(other)
            &&& other != mac && screens.contains_key(other) ==> put[other] == screens[other]
            &&& other != mac ==> taken.contains_key(other) == screens.contains_key(other)
            &&& other != mac && screens.contains_key(other) ==> taken[other] == screens[other]
        }),
{
}

/// What was put down at `stamp` outlives a cleanup at `now` if and only if it is
/// less than an hour old by then, and outlives it unchanged.
pub proof fn kept_for_an_hour(
    screens: Map<Seq<char>, (u128, NextScreen)>,
    mac: Seq<char>,
    stamp: u128,
    next: NextScreen,
    now: u128,
)
    ensures
        ({
            let left = young_entries(screens.insert(mac, (stamp, next)), now, MAX_STATE_AGE);
            &&& left.contains_key(mac) <==> now < stamp + MAX_STATE_AGE
            &&& left.contains_key(mac) ==> left[mac] == (stamp, next)
        }),
{
}

/// A cleanup after a cleanup leaves what the later one alone leaves. The same
/// cleanup twice does no more than once.
pub proof fn cleanups_join(
    screens: Map<Seq<char>, (u128, NextScreen)>,
    first: u128,
    second: u128,
)
    requires
        first <= second,
    ensures
        young_entries(young_entries(screens, first, MAX_STATE_AGE), second, MAX_STATE_AGE)
            == young_entries(screens, second, MAX_STATE_AGE),
{
    assert(young_entries(young_entries(screens, first, MAX_STATE_AGE), second, MAX_STATE_AGE)
        =~= young_entries(screens, second, MAX_STATE_AGE));
}

/// The counts after a device has had `n` turns.
pub open spec fn after_turns(indices: Map<Seq<char>, usize>, mac: Seq<char>, n: nat) -> Map<
    Seq<char>,
    usize,
>
    decreases n,
{
    if n == 0 {
        indices
    } else {
        let before = after_turns(indices, mac, (n - 1) as nat);
        before.insert(mac, next_turn(turns_of(before, mac)))
    }
}

/// The turns of a device are counted one by one, from nought for a device that
/// has had none, and start over only when the count is full. The turns of other
/// devices do not count.
pub proof fn turns_are_counted(
    indices: Map<Seq<char>, usize>,
    mac: Seq<char>,
    n: nat,
    other: Seq<char>,
)
    ensures
        turns_of(after_turns(indices, mac, n), mac) == (turns_of(indices, mac) + n) % (usize::MAX
            + 1),
        !indices.contains_key(mac) && n <= usize::MAX ==> turns_of(
            after_turns(indices, mac, n),
            mac,
        ) == n,
        other != mac ==> turns_of(after_turns(indices, mac, n), other) == turns_of(indices, other),
    decreases n,
{
    let full: int = usize::MAX + 1;
    let start = turns_of(indices, mac) as int;
    if n > 0 {
        let before = after_turns(indices, mac, (n - 1) as nat);
        turns_are_counted(indices, mac, (n - 1) as nat, other);
        vstd::arithmetic::div_mod::lemma_add_mod_noop(start + n - 1, 1, full);
        vstd::arithmetic::div_mod::lemma_small_mod(1, full as nat);
        let k = (start + n - 1) % full;
        vstd::arithmetic::div_mod::lemma_mod_bound(start + n - 1, full);
        if k + 1 < full {
            vstd::arithmetic::div_mod::lemma_small_mod((k + 1) as nat, full as nat);
        } else {
            vstd::arithmetic::div_mod::lemma_mod_self_0(full);
        }
    } else {
        vstd::arithmetic::div_mod::lemma_small_mod(start as nat, full as nat);
    }
    if !indices.contains_key(mac) && n <= usize::MAX {
        vstd::arithmetic::div_mod::lemma_small_mod(n, full as nat);
    }
}

}
