//! What the server does on each request. Laying out pages and querying inputs is
//! left to the caller: a handler says what is to be done, and another one is told
//! what came of it.

use crate::clock::{
    effective, effective_zone, in_time, local_time, utc_seconds, LocalTime,
};
use crate::config::{self, Config, Screen, ScreenOption};
use crate::device::{
    can_be_shortened, device_inputs_at, short_id, shortened, DeviceInputs, DeviceInputsView,
};
use crate::loading::{ScreenView, ScriptView, Source};
use crate::query::{
    first_failure, good_values, lemma_texts_insert, named_values, texts, values_hash, Inputs,
};
use crate::render::{self, Depth};
use crate::reply::{
    display_reply, forwarded_proto, image_url_of, image_url_text, protocol_of, reply_with,
    DisplayReply, DisplayReplyView, Request, SetupReply, SetupReplyView,
};
use crate::state::{
    next_turn, turns_of, AppState, Error, ErrorView, NextScreen, NextScreenView, StateView,
};
use crate::table::Table;
use vstd::prelude::*;
use vstd::string::StringExecFns;

verus! {

/// What a handler takes from its surroundings: the second, the age of the state
/// in nanoseconds, and a number drawn at random.
#[derive(Copy, Clone, Debug)]
pub struct Moment {
    pub seconds: i64,
    pub elapsed: u128,
    pub random: u64,
}

/// `rand::random`: a number drawn at random. Nothing is said of it.
#[verifier::external_body]
fn random_number() -> (r: u64) {
    rand::random::<u64>()
}

impl Moment {
    /// Whether the second is one that is dealt with.
    pub open spec fn is_valid(self) -> bool {
        in_time(self.seconds)
    }

    /// The present moment. Its second is one that is dealt with; which one it is, how
    /// old the state is and which number is drawn is left open.
    fn now(state: &AppState) -> (r: Moment)
        ensures
            r.is_valid(),
    {
        Moment { seconds: utc_seconds(), elapsed: state.elapsed(), random: random_number() }
    }
}

// -------------------------------------------------------------------- screens

/// The screen whose turn it is on a device at a local time.
pub open spec fn chosen(
    config: Config,
    indices: Map<Seq<char>, usize>,
    mac: Seq<char>,
    at: LocalTime,
) -> Result<ScreenView, ErrorView> {
    match config.playlist_at(at) {
        Some(playlist) => if playlist.screen@.len() == 0 {
            Err(ErrorView::NoScreen(playlist.name@))
        } else {
            match config.screen_named(playlist.turn(turns_of(indices, mac) as nat)) {
                Some(screen) => Ok(screen@),
                None => Err(ErrorView::NoScreen(playlist.name@)),
            }
        },
        None => Err(ErrorView::NoActivePlaylist),
    }
}

/// The turns once a device has asked for its screen. Without a playlist there is
/// no turn to count.
pub open spec fn counted(
    config: Config,
    indices: Map<Seq<char>, usize>,
    mac: Seq<char>,
    at: LocalTime,
) -> Map<Seq<char>, usize> {
    if config.playlist_at(at) is Some {
        indices.insert(mac, next_turn(turns_of(indices, mac)))
    } else {
        indices
    }
}

/// A result in words.
pub open spec fn screen_or_error(r: Result<Screen, Error>) -> Result<ScreenView, ErrorView> {
    match r {
        Ok(screen) => Ok(screen@),
        Err(e) => Err(e@),
    }
}

/// Finds the screen whose turn it is on a device at a local time, and counts the
/// turn.
pub fn get_screen_at(state: &mut AppState, mac: &str, at: LocalTime) -> (r: Result<Screen, Error>)
    ensures
        screen_or_error(r) == chosen(old(state).config, old(state).playlist_indices@, mac@, at),
        final(state)@ == (StateView {
            indices: counted(old(state).config, old(state).playlist_indices@, mac@, at),
            ..old(state)@
        }),
        final(state).started == old(state).started,
{
    if state.config.get_playlist_for_time(at).is_none() {
        return Err(Error::NoActivePlaylist);
    }
    let index: usize = state.next_playlist_index(mac);
    match state.config.get_playlist_for_time(at) {
        Some(playlist) => match playlist.get_next_screen(&state.config, index) {
            Some(screen) => Ok(screen.clone()),
            None => Err(Error::NoScreen(playlist.name.clone())),
        },
        None => Err(Error::NoActivePlaylist),
    }
}

/// Finds the screen whose turn it is on a device now, and counts the turn.
pub fn get_screen(state: &mut AppState, mac: &str) -> (r: Result<Screen, Error>)
    ensures
        exists|seconds: i64| #[trigger]
            in_time(seconds) && {
                let at = old(state).config.local_clock_at(seconds);
                let indices = old(state).playlist_indices@;
                &&& screen_or_error(r) == chosen(old(state).config, indices, mac@, at)
                &&& final(state)@ == (StateView {
                    indices: counted(old(state).config, indices, mac@, at),
                    ..old(state)@
                })
            },
        final(state).started == old(state).started,
{
    let seconds: i64 = utc_seconds();
    let at = local_time(seconds, state.config.timezone.as_str());
    get_screen_at(state, mac, at)
}

// --------------------------------------------------------------------- setup

/// What the page for a device that is not configured is told.
pub open spec fn welcome_inputs(
    mac: Seq<char>,
    battery: u8,
    timezone: Seq<char>,
    seconds: i64,
) -> Map<Seq<char>, Seq<char>> {
    Map::<Seq<char>, Seq<char>>::empty().insert(
        "tymnl-internal"@,
        device_inputs_at("Setup"@, battery, mac, timezone, seconds).json(),
    ).insert("mac"@, mac)
}

fn inputs_for_welcome(mac: &str, battery: u8, timezone: &str, seconds: i64) -> (r: Inputs)
    requires
        in_time(seconds),
    ensures
        texts(r@) == welcome_inputs(mac@, battery, timezone@, seconds),
{
    let mut inputs: Inputs = Table::new();
    assert(texts(inputs@) =~= Map::<Seq<char>, Seq<char>>::empty());
    DeviceInputs::new_at("Setup", battery, mac, timezone, seconds).insert_into(&mut inputs);
    let value = mac.to_owned();
    proof {
        lemma_texts_insert(inputs@, "mac"@, value);
    }
    inputs.insert("mac".to_owned(), value);
    inputs
}

/// What the state comes to when a device is set up, and what the device is told.
pub open spec fn setup_outcome(before: StateView, request: Request, m: Moment) -> (
    StateView,
    SetupReplyView,
) {
    let inputs = welcome_inputs(
        request.mac@,
        request.battery,
        before.config.timezone@,
        m.seconds,
    );
    (
        before.put(request.mac@, m.elapsed, NextScreenView::Welcome { inputs }),
        SetupReplyView {
            friendly_id: "trmnl-"@ + shortened(request.mac@),
            image_url: image_url_of(
                protocol_of(request.forwarded_proto),
                request.host@,
                "welcome"@,
                request.mac@,
                m.random,
            ),
            message: "Welcome to BYOS!"@,
        },
    )
}

/// Sets up a device at a moment: it is to be shown the welcome page.
pub fn setup_at(state: &mut AppState, request: &Request, m: Moment) -> (r: SetupReply)
    requires
        m.is_valid(),
        can_be_shortened(request.mac@),
    ensures
        (final(state)@, r@) == setup_outcome(old(state)@, *request, m),
        final(state).started == old(state).started,
{
    let mac = request.mac.as_str();
    let inputs = inputs_for_welcome(
        mac,
        request.battery,
        state.config.timezone.as_str(),
        m.seconds,
    );
    state.put_next_screen_at(mac, NextScreen::new_welcome(inputs), m.elapsed);
    let protocol = forwarded_proto(&request.forwarded_proto);
    SetupReply {
        friendly_id: "trmnl-".to_owned().concat(short_id(mac).as_str()),
        image_url: image_url_text(
            protocol.as_str(),
            request.host.as_str(),
            "welcome",
            mac,
            m.random,
        ),
        message: "Welcome to BYOS!".to_owned(),
    }
}

/// Sets up a device: it is to be shown the welcome page.
pub fn setup(state: &mut AppState, request: &Request) -> (r: SetupReply)
    requires
        can_be_shortened(request.mac@),
    ensures
        exists|m: Moment| #[trigger]
            m.is_valid() && (final(state)@, r@) == setup_outcome(old(state)@, *request, m),
        final(state).started == old(state).started,
{
    let m = Moment::now(state);
    setup_at(state, request, m)
}

// ------------------------------------------------------------------- display

/// A screen whose inputs are to be queried before the device gets its reply.
#[derive(Debug)]
pub struct Pending {
    pub screen: Screen,
    pub device_inputs: DeviceInputs,
    pub refresh_rate: u32,
}

/// The first step on the way to the next image: the reply, or a screen whose
/// inputs are to be queried.
#[derive(Debug)]
pub enum DisplayStep {
    Reply(DisplayReply),
    Query(Pending),
}

/// What a `Pending` says.
#[verifier::ext_equal]
pub struct PendingView {
    pub screen: ScreenView,
    pub device_inputs: DeviceInputsView,
    pub refresh_rate: u32,
}

/// What a `DisplayStep` says.
#[verifier::ext_equal]
pub enum DisplayStepView {
    Reply(DisplayReplyView),
    Query(PendingView),
}

impl View for Pending {
    type V = PendingView;

    open spec fn view(&self) -> PendingView {
        PendingView {
            screen: self.screen@,
            device_inputs: self.device_inputs@,
            refresh_rate: self.refresh_rate,
        }
    }
}

impl View for DisplayStep {
    type V = DisplayStepView;

    open spec fn view(&self) -> DisplayStepView {
        match *self {
            DisplayStep::Reply(reply) => DisplayStepView::Reply(reply@),
            DisplayStep::Query(pending) => DisplayStepView::Query(pending@),
        }
    }
}

/// What the state comes to when a device asks for its next image, and the first
/// step on the way to it. An unknown device is sent to the welcome page. A known
/// one has its turn; where there is no screen for it, it is sent to the error
/// page, else the inputs of its screen are to be queried.
pub open spec fn display_outcome(before: StateView, request: Request, m: Moment) -> (
    StateView,
    DisplayStepView,
) {
    let config = before.config;
    let mac = request.mac@;
    let at = config.local_clock_at(m.seconds);
    let rate = config.refresh_rate_at(at);
    let cleaned = before.cleaned(m.elapsed);
    match config.device_with_mac(mac) {
        None => {
            let inputs = welcome_inputs(mac, request.battery, config.timezone@, m.seconds);
            (
                cleaned.put(mac, m.elapsed, NextScreenView::Welcome { inputs }),
                DisplayStepView::Reply(reply_with(request, "welcome"@, m.random, rate)),
            )
        },
        Some(device) => {
            let turned = StateView {
                indices: counted(config, before.indices, mac, at),
                ..cleaned
            };
            match chosen(config, before.indices, mac, at) {
                Err(error) => (
                    turned.put(
                        mac,
                        m.elapsed,
                        NextScreenView::Error { error, inputs: Map::empty() },
                    ),
                    DisplayStepView::Reply(reply_with(request, "error"@, m.random, rate)),
                ),
                Ok(screen) => (
                    turned,
                    DisplayStepView::Query(
                        PendingView {
                            screen,
                            device_inputs: device_inputs_at(
                                screen.name,
                                request.battery,
                                device.name@,
                                config.timezone@,
                                m.seconds,
                            ),
                            refresh_rate: rate,
                        },
                    ),
                ),
            }
        },
    }
}

/// Sends a device to the page under `path`, which is to show `next`.
fn special_screen_reply(
    path: &str,
    next: NextScreen,
    state: &mut AppState,
    request: &Request,
    refresh_rate: u32,
    elapsed: u128,
    random: u64,
) -> (r: DisplayReply)
    ensures
        final(state)@ == old(state)@.put(request.mac@, elapsed, next@),
        r@ == reply_with(*request, path@, random, refresh_rate),
        final(state).started == old(state).started,
{
    state.put_next_screen_at(request.mac.as_str(), next, elapsed);
    display_reply(request, path, random, refresh_rate)
}

/// Takes the first step on the way to the next image of a device, at a moment.
pub fn display_at(state: &mut AppState, request: &Request, m: Moment) -> (r: DisplayStep)
    requires
        m.is_valid(),
    ensures
        (final(state)@, r@) == display_outcome(old(state)@, *request, m),
        final(state).started == old(state).started,
{
    let ghost before = state@;
    state.cleanup_old_screens_at(m.elapsed);
    let mac = request.mac.as_str();
    let at = local_time(m.seconds, state.config.timezone.as_str());
    let rate: u32 = state.config.get_refresh_rate_for_time(at);
    let name = match state.config.get_device_by_mac(mac) {
        Some(device) => Some(device.name.clone()),
        None => None,
    };
    let name = match name {
        Some(name) => name,
        None => {
            let inputs = inputs_for_welcome(
                mac,
                request.battery,
                state.config.timezone.as_str(),
                m.seconds,
            );
            return DisplayStep::Reply(
                special_screen_reply(
                    "welcome",
                    NextScreen::new_welcome(inputs),
                    state,
                    request,
                    rate,
                    m.elapsed,
                    m.random,
                ),
            );
        },
    };
    match get_screen_at(state, mac, at) {
        Ok(screen) => {
            let device_inputs = DeviceInputs::new_at(
                screen.name.as_str(),
                request.battery,
                name.as_str(),
                state.config.timezone.as_str(),
                m.seconds,
            );
            DisplayStep::Query(Pending { screen, device_inputs, refresh_rate: rate })
        },
        Err(error) => {
            let inputs: Inputs = Table::new();
            assert(texts(inputs@) =~= Map::<Seq<char>, Seq<char>>::empty());
            DisplayStep::Reply(
                special_screen_reply(
                    "error",
                    NextScreen::new_error(error, inputs),
                    state,
                    request,
                    rate,
                    m.elapsed,
                    m.random,
                ),
            )
        },
    }
}

/// Takes the first step on the way to the next image of a device.
pub fn display(state: &mut AppState, request: &Request) -> (r: DisplayStep)
    ensures
        exists|m: Moment| #[trigger]
            m.is_valid() && (final(state)@, r@) == display_outcome(old(state)@, *request, m),
        final(state).started == old(state).started,
{
    let m = Moment::now(state);
    display_at(state, request, m)
}

/// What the queries of the inputs of a screen come to: the values by name and
/// their hash, or the first failure.
pub open spec fn query_outcome(
    screen: ScreenView,
    results: Seq<Result<String, config::Error>>,
) -> Result<(Map<Seq<char>, Seq<char>>, u64), config::ErrorView> {
    match first_failure(results) {
        Some(failure) => Err(failure->Err_0@),
        None => Ok(
            (
                named_values(screen.input, good_values(results), screen.input.len() as int),
                values_hash(screen.input, good_values(results)),
            ),
        ),
    }
}

/// What the page about a failed query is told.
pub open spec fn query_error_inputs(error: ErrorView) -> Map<Seq<char>, Seq<char>> {
    Map::<Seq<char>, Seq<char>>::empty().insert("error-title"@, "Input Query Error"@).insert(
        "error"@,
        error.message(),
    )
}

/// What the state comes to once the inputs of a screen have been queried, and
/// what the device is told: where its image is, which has the hash of the inputs
/// as its number, or, where a query failed, where the error page is.
pub open spec fn display_finish_outcome(
    before: StateView,
    request: Request,
    pending: PendingView,
    results: Seq<Result<String, config::Error>>,
    elapsed: u128,
    random: u64,
) -> (StateView, DisplayReplyView) {
    match query_outcome(pending.screen, results) {
        Ok((values, hash)) => {
            let inputs = values.insert("tymnl-internal"@, pending.device_inputs.json());
            (
                before.put(
                    request.mac@,
                    elapsed,
                    NextScreenView::Image { name: pending.screen.name, inputs },
                ),
                reply_with(request, "screen"@, hash, pending.refresh_rate),
            )
        },
        Err(e) => {
            let error = ErrorView::Query(e);
            (
                before.put(
                    request.mac@,
                    elapsed,
                    NextScreenView::Error { error, inputs: query_error_inputs(error) },
                ),
                reply_with(request, "error"@, random, pending.refresh_rate),
            )
        },
    }
}

/// Takes the last step on the way to the next image of a device. `results` is
/// what the queries of the inputs gave, in the order of the inputs.
pub fn display_finish_at(
    state: &mut AppState,
    request: &Request,
    pending: Pending,
    results: Vec<Result<String, config::Error>>,
    elapsed: u128,
    random: u64,
) -> (r: DisplayReply)
    requires
        results@.len() == pending.screen.input@.len(),
    ensures
        (final(state)@, r@) == display_finish_outcome(
            old(state)@,
            *request,
            pending@,
            results@,
            elapsed,
            random,
        ),
        final(state).started == old(state).started,
{
    match pending.screen.query_inputs(results) {
        Ok((mut inputs, hash)) => {
            pending.device_inputs.insert_into(&mut inputs);
            let next = NextScreen::new_image(pending.screen.name.as_str(), inputs);
            state.put_next_screen_at(request.mac.as_str(), next, elapsed);
            display_reply(request, "screen", hash, pending.refresh_rate)
        },
        Err(e) => {
            let error = Error::Query(e);
            let mut inputs: Inputs = Table::new();
            assert(texts(inputs@) =~= Map::<Seq<char>, Seq<char>>::empty());
            let title = "Input Query Error".to_owned();
            let message = error.message();
            proof {
                lemma_texts_insert(inputs@, "error-title"@, title);
                lemma_texts_insert(inputs@.insert("error-title"@, title), "error"@, message);
            }
            inputs.insert("error-title".to_owned(), title);
            inputs.insert("error".to_owned(), message);
            special_screen_reply(
                "error",
                NextScreen::new_error(error, inputs),
                state,
                request,
                pending.refresh_rate,
                elapsed,
                random,
            )
        },
    }
}

/// Takes the last step on the way to the next image of a device. `results` is
/// what the queries of the inputs gave, in the order of the inputs.
pub fn display_finish(
    state: &mut AppState,
    request: &Request,
    pending: Pending,
    results: Vec<Result<String, config::Error>>,
) -> (r: DisplayReply)
    requires
        results@.len() == pending.screen.input@.len(),
    ensures
        exists|m: Moment| #[trigger]
            m.is_valid() && (final(state)@, r@) == display_finish_outcome(
                old(state)@,
                *request,
                pending@,
                results@,
                m.elapsed,
                m.random,
            ),
        final(state).started == old(state).started,
{
    let m = Moment::now(state);
    display_finish_at(state, request, pending, results, m.elapsed, m.random)
}

// --------------------------------------------------------------------- pages

/// What a page is laid out from.
#[derive(Debug)]
pub enum PageSource {
    /// The template of pages about errors.
    ErrorTemplate,
    /// The template of the welcome page.
    WelcomeTemplate,
    /// A source that is at hand.
    Text(String),
    /// The file that holds the source.
    File(String),
}

/// A page to be rendered.
#[derive(Debug)]
pub struct Page {
    pub source: PageSource,
    pub inputs: Inputs,
    pub depth: Depth,
    /// The time zone that dates on the page are in.
    pub timezone: String,
}

/// What a `PageSource` says.
pub enum PageSourceView {
    ErrorTemplate,
    WelcomeTemplate,
    Text(Seq<char>),
    File(Seq<char>),
}

/// What a `Page` says.
#[verifier::ext_equal]
pub struct PageView {
    pub source: PageSourceView,
    pub inputs: Map<Seq<char>, Seq<char>>,
    pub depth: Depth,
    pub timezone: Seq<char>,
}

impl View for PageSource {
    type V = PageSourceView;

    open spec fn view(&self) -> PageSourceView {
        match *self {
            PageSource::ErrorTemplate => PageSourceView::ErrorTemplate,
            PageSource::WelcomeTemplate => PageSourceView::WelcomeTemplate,
            PageSource::Text(text) => PageSourceView::Text(text@),
            PageSource::File(path) => PageSourceView::File(path@),
        }
    }
}

impl View for Page {
    type V = PageView;

    open spec fn view(&self) -> PageView {
        PageView {
            source: self.source@,
            inputs: texts(self.inputs@),
            depth: self.depth,
            timezone: self.timezone@,
        }
    }
}

/// The status of a request for something that is not there.
pub const NOT_FOUND: u16 = 404;

/// The status of a request that the server failed to answer.
pub const INTERNAL_SERVER_ERROR: u16 = 500;

/// The page about an error that is told `inputs`.
pub open spec fn error_page(config: Config, inputs: Map<Seq<char>, Seq<char>>) -> PageView {
    PageView {
        source: PageSourceView::ErrorTemplate,
        inputs,
        depth: Depth::Bit2,
        timezone: effective(config.timezone@),
    }
}

/// What the error page is told in place of `next`: what was put down, and, where
/// that says nothing of the error, the error in words.
pub open spec fn error_inputs(next: NextScreenView) -> Map<Seq<char>, Seq<char>> {
    match next {
        NextScreenView::Error { error, inputs } => if inputs.contains_key("error"@) {
            inputs
        } else {
            inputs.insert("error"@, error.message())
        },
        NextScreenView::Image { name, inputs } => inputs,
        NextScreenView::Welcome { inputs } => inputs,
    }
}

/// What the state comes to when a device asks for the error page, and the page.
pub open spec fn error_outcome(before: StateView, mac: Seq<char>, elapsed: u128) -> (
    StateView,
    PageView,
) {
    let cleaned = before.cleaned(elapsed);
    let next = if cleaned.screens.contains_key(mac) {
        cleaned.screens[mac].1
    } else {
        NextScreenView::Error { error: ErrorView::Unknown, inputs: Map::empty() }
    };
    (cleaned.taken(mac), error_page(before.config, error_inputs(next)))
}

/// The error page of a device, when the state is `elapsed` nanoseconds old.
pub fn error_at(state: &mut AppState, mac: &str, elapsed: u128) -> (r: Page)
    ensures
        (final(state)@, r@) == error_outcome(old(state)@, mac@, elapsed),
        final(state).started == old(state).started,
{
    state.cleanup_old_screens_at(elapsed);
    let timezone = effective_zone(state.config.timezone.as_str());
    let next = match state.take_next_screen(mac) {
        Some(next) => next,
        None => {
            let inputs: Inputs = Table::new();
            assert(texts(inputs@) =~= Map::<Seq<char>, Seq<char>>::empty());
            NextScreen::new_error(Error::Unknown, inputs)
        },
    };
    let inputs = match next {
        NextScreen::Error { error, mut inputs } => {
            if inputs.get("error").is_none() {
                let message = error.message();
                proof {
                    lemma_texts_insert(inputs@, "error"@, message);
                }
                inputs.insert("error".to_owned(), message);
            }
            inputs
        },
        NextScreen::Image { name: _, inputs } => inputs,
        NextScreen::Welcome { inputs } => inputs,
    };
    Page { source: PageSource::ErrorTemplate, inputs, depth: Depth::Bit2, timezone }
}

/// The error page of a device.
pub fn error(state: &mut AppState, mac: &str) -> (r: Page)
    ensures
        exists|elapsed: u128|
            (final(state)@, r@) == #[trigger] error_outcome(old(state)@, mac@, elapsed),
        final(state).started == old(state).started,
{
    let elapsed: u128 = state.elapsed();
    error_at(state, mac, elapsed)
}

/// What the state comes to when a device asks for the welcome page, and the page.
/// It is told what was put down for it, if that was meant for the welcome page.
pub open spec fn welcome_outcome(before: StateView, mac: Seq<char>, elapsed: u128) -> (
    StateView,
    PageView,
) {
    let cleaned = before.cleaned(elapsed);
    let inputs = if cleaned.screens.contains_key(mac) {
        match cleaned.screens[mac].1 {
            NextScreenView::Welcome { inputs } => inputs,
            _ => Map::empty(),
        }
    } else {
        Map::empty()
    };
    (
        cleaned.taken(mac),
        PageView {
            source: PageSourceView::WelcomeTemplate,
            inputs,
            depth: Depth::Bit1,
            timezone: effective(before.config.timezone@),
        },
    )
}

/// The welcome page of a device, when the state is `elapsed` nanoseconds old.
pub fn welcome_at(state: &mut AppState, mac: &str, elapsed: u128) -> (r: Page)
    ensures
        (final(state)@, r@) == welcome_outcome(old(state)@, mac@, elapsed),
        final(state).started == old(state).started,
{
    state.cleanup_old_screens_at(elapsed);
    let timezone = effective_zone(state.config.timezone.as_str());
    let nothing: Inputs = Table::new();
    assert(texts(nothing@) =~= Map::<Seq<char>, Seq<char>>::empty());
    let inputs = match state.take_next_screen(mac) {
        Some(NextScreen::Welcome { inputs }) => inputs,
        _ => nothing,
    };
    Page { source: PageSource::WelcomeTemplate, inputs, depth: Depth::Bit1, timezone }
}

/// The welcome page of a device.
pub fn welcome(state: &mut AppState, mac: &str) -> (r: Page)
    ensures
        exists|elapsed: u128|
            (final(state)@, r@) == #[trigger] welcome_outcome(old(state)@, mac@, elapsed),
        final(state).started == old(state).started,
{
    let elapsed: u128 = state.elapsed();
    welcome_at(state, mac, elapsed)
}

/// What a request for the error page or the welcome page is answered: the image,
/// or, where the page could not be rendered, a status.
pub fn page_finish(result: Result<Vec<u8>, render::Error>) -> (r: Result<Vec<u8>, u16>)
    ensures
        r == (match result {
            Ok(png) => Ok::<Vec<u8>, u16>(png),
            Err(_) => Err(INTERNAL_SERVER_ERROR),
        }),
{
    match result {
        Ok(png) => Ok(png),
        Err(_) => Err(INTERNAL_SERVER_ERROR),
    }
}

// ------------------------------------------------------------- screen images

/// The depth that a screen with these options is rendered in.
pub open spec fn depth_of(option: Seq<ScreenOption>) -> Depth {
    if option.contains(ScreenOption::Grayscale) {
        Depth::Bit2
    } else {
        Depth::Bit1
    }
}

/// The depth that a screen is rendered in.
pub fn screen_depth(screen: &Screen) -> (r: Depth)
    ensures
        r == depth_of(screen.option@),
{
    if screen.has_option(ScreenOption::Grayscale) {
        Depth::Bit2
    } else {
        Depth::Bit1
    }
}

/// The source of the page of a screen with this script.
pub open spec fn page_source_of(script: ScriptView) -> PageSourceView {
    match script {
        ScriptView::File(path) => PageSourceView::File(path),
        ScriptView::Inline(text) => PageSourceView::Text(text),
        ScriptView::Cached(text) => PageSourceView::Text(text),
    }
}

/// The page of a screen that is told `inputs`.
pub open spec fn screen_page_of(
    config: Config,
    screen: ScreenView,
    inputs: Map<Seq<char>, Seq<char>>,
) -> PageView {
    PageView {
        source: page_source_of(screen.script),
        inputs,
        depth: depth_of(screen.option),
        timezone: effective(config.timezone@),
    }
}

/// The page of a screen that is told `inputs`.
pub fn screen_page(config: &Config, screen: &Screen, inputs: Inputs) -> (r: Page)
    ensures
        r@ == screen_page_of(*config, screen@, texts(inputs@)),
{
    let source = match screen.script() {
        Source::File(path) => PageSource::File(path),
        Source::Text(text) => PageSource::Text(text),
    };
    Page {
        source,
        inputs,
        depth: screen_depth(screen),
        timezone: effective_zone(config.timezone.as_str()),
    }
}

/// A page in words, or a status.
pub open spec fn page_or_status(r: Result<Page, u16>) -> Result<PageView, u16> {
    match r {
        Ok(page) => Ok(page@),
        Err(status) => Err(status),
    }
}

/// What the state comes to when a device asks for the image of its screen, and
/// the page that the image shows. Where nothing was put down for the device, the
/// image is not found. Where something else than a screen was put down, or a
/// screen that is no longer configured, the server fails.
pub open spec fn screen_outcome(before: StateView, mac: Seq<char>, elapsed: u128) -> (
    StateView,
    Result<PageView, u16>,
) {
    let cleaned = before.cleaned(elapsed);
    let page = if cleaned.screens.contains_key(mac) {
        match cleaned.screens[mac].1 {
            NextScreenView::Image { name, inputs } => match before.config.screen_named(name) {
                Some(screen) => Ok(screen_page_of(before.config, screen@, inputs)),
                None => Err(INTERNAL_SERVER_ERROR),
            },
            _ => Err(INTERNAL_SERVER_ERROR),
        }
    } else {
        Err(NOT_FOUND)
    };
    (cleaned.taken(mac), page)
}

/// The page that the image of a device shows, when the state is `elapsed`
/// nanoseconds old.
pub fn screen_at(state: &mut AppState, mac: &str, elapsed: u128) -> (r: Result<Page, u16>)
    ensures
        (final(state)@, page_or_status(r)) == screen_outcome(old(state)@, mac@, elapsed),
        final(state).started == old(state).started,
{
    state.cleanup_old_screens_at(elapsed);
    match state.take_next_screen(mac) {
        Some(NextScreen::Image { name, inputs }) => match state.config.get_screen_by_name(
            name.as_str(),
        ) {
            Some(screen) => Ok(screen_page(&state.config, screen, inputs)),
            None => Err(INTERNAL_SERVER_ERROR),
        },
        Some(_) => Err(INTERNAL_SERVER_ERROR),
        None => Err(NOT_FOUND),
    }
}

/// The page that the image of a device shows.
pub fn screen(state: &mut AppState, mac: &str) -> (r: Result<Page, u16>)
    ensures
        exists|elapsed: u128|
            (final(state)@, page_or_status(r)) == #[trigger] screen_outcome(
                old(state)@,
                mac@,
                elapsed,
            ),
        final(state).started == old(state).started,
{
    let elapsed: u128 = state.elapsed();
    screen_at(state, mac, elapsed)
}

/// What a request for the image of a screen comes to once the page has been
/// rendered.
#[derive(Debug)]
pub enum ScreenStep {
    /// The image.
    Png(Vec<u8>),
    /// A page to be rendered in place of the screen.
    Page(Page),
    /// A status.
    Status(u16),
}

/// What a page about a source that cannot be laid out is told besides.
pub open spec fn render_error_inputs(
    inputs: Map<Seq<char>, Seq<char>>,
    message: Seq<char>,
) -> Map<Seq<char>, Seq<char>> {
    inputs.insert("error-title"@, "Render Error"@).insert("error"@, message)
}

/// What a request for the image of a screen comes to. `result` is the image, or
/// what went wrong with reading the source or with rendering the page. Where the
/// source cannot be laid out, a page that says so is to be rendered.
pub fn screen_finish(state: &AppState, inputs: Inputs, result: Result<Vec<u8>, Error>) -> (r:
    ScreenStep)
    ensures
        match result {
            Ok(png) => r == ScreenStep::Png(png),
            Err(Error::Render(render::Error::Typst(message))) => r matches ScreenStep::Page(page)
                && page@ == error_page(
                state.config,
                render_error_inputs(texts(inputs@), message@),
            ),
            Err(_) => r == ScreenStep::Status(INTERNAL_SERVER_ERROR),
        },
{
    match result {
        Ok(png) => ScreenStep::Png(png),
        Err(Error::Render(render::Error::Typst(message))) => {
            let mut inputs = inputs;
            let title = "Render Error".to_owned();
            proof {
                lemma_texts_insert(inputs@, "error-title"@, title);
                lemma_texts_insert(inputs@.insert("error-title"@, title), "error"@, message);
            }
            inputs.insert("error-title".to_owned(), title);
            inputs.insert("error".to_owned(), message);
            ScreenStep::Page(
                Page {
                    source: PageSource::ErrorTemplate,
                    inputs,
                    depth: Depth::Bit2,
                    timezone: effective_zone(state.config.timezone.as_str()),
                },
            )
        },
        Err(_) => ScreenStep::Status(INTERNAL_SERVER_ERROR),
    }
}

}
