//! What holds of the server as a whole, beyond the contract of a single function.

use crate::clock::{
    clock_text, days_before_month, days_before_year, is_date, is_leap, month_days, two_digits, Date,
    LocalTime, Weekday,
};
use crate::config::{
    self, group_has_day, has_mac, in_window, is_playlist, is_screen, is_working_day, time_named,
    weekday_named, Config, DaySelector, InputOption, Playlist, Schedule, Screen,
};
use crate::handlers::{
    chosen, display_finish_outcome, display_outcome, error_outcome, screen_outcome,
    screen_page_of, setup_outcome, welcome_inputs, welcome_outcome, DisplayStepView, Moment,
    PageSourceView, PageView, PendingView, INTERNAL_SERVER_ERROR, NOT_FOUND,
};
use crate::loading::{loaded, InputView, ScriptView};
use crate::query::{
    first_failure, good_values, hash_writes, hashed_values, named_values, values_hash,
};
use crate::reply::{image_url_of, protocol_of, reply_with, Request};
use crate::state::{next_turn, turns_of, ErrorView, StateView, MAX_STATE_AGE};
use crate::table::younger;
use crate::text::{all_digits, digits_value, first, lower_ascii, number};
use vstd::prelude::*;
use vstd::utf8::is_ascii_chars;

pub mod clocks;
pub mod faces;
pub mod images;
pub mod inputs;
pub mod pages;
pub mod records;
pub mod reports;
pub mod requests;
pub mod schedules;
pub mod soundness;
pub mod sources;
pub mod visits;
pub mod words;

verus! {

// ---------------------------------------------------------------- schedules

/// Two windows that meet at both ends divide the day between them; a window
/// that ends where it starts is empty.
pub proof fn windows_divide_the_day(start: u32, end: u32, time: u32)
    ensures
        start != end ==> in_window(start, end, time) != in_window(end, start, time),
        !in_window(start, start, time),
{
}

/// A window starts with its first second and is over at its end.
pub proof fn windows_are_half_open(start: u32, end: u32)
    requires
        start != end,
    ensures
        in_window(start, end, start),
        !in_window(start, end, end),
{
}

/// The names of the groups: `all` is every day, and each day is either one of
/// the weekdays or one of the weekends.
pub proof fn groups_divide_the_week(weekday: Weekday)
    ensures
        group_has_day("all"@, weekday),
        group_has_day("weekdays"@, weekday) == is_working_day(weekday),
        group_has_day("weekends"@, weekday) == !is_working_day(weekday),
{
    reveal_strlit("all");
    reveal_strlit("weekdays");
    reveal_strlit("weekends");
    assert("all"@.len() == 3);
    assert("weekdays"@[4] != "weekends"@[4]);
}

/// A schedule for the weekdays, in whatever case that is written, applies from
/// Monday to Friday, one for the weekends on the other days, one for all days on
/// each, and one for a day on that day.
pub proof fn schedules_apply_on_their_days(schedule: Schedule, name: String, weekday: Weekday)
    requires
        schedule.days == DaySelector::Named(name),
        is_ascii_chars(name@),
    ensures
        lower_ascii(name@) == "all"@ ==> schedule.applies_on(weekday),
        lower_ascii(name@) == "weekdays"@ ==> schedule.applies_on(weekday) == is_working_day(
            weekday,
        ),
        lower_ascii(name@) == "weekends"@ ==> schedule.applies_on(weekday) == !is_working_day(
            weekday,
        ),
        weekday_named(lower_ascii(name@)) matches Some(day) ==> schedule.applies_on(weekday) == (day
            == weekday),
{
    groups_divide_the_week(weekday);
    reveal_strlit("all");
    reveal_strlit("weekdays");
    reveal_strlit("weekends");
    reveal_strlit("mon");
    reveal_strlit("monday");
    reveal_strlit("tue");
    reveal_strlit("tuesday");
    reveal_strlit("wed");
    reveal_strlit("wednesday");
    reveal_strlit("thu");
    reveal_strlit("thursday");
    reveal_strlit("fri");
    reveal_strlit("friday");
    reveal_strlit("sat");
    reveal_strlit("saturday");
    reveal_strlit("sun");
    reveal_strlit("sunday");
    let all = "all"@;
    let weekdays = "weekdays"@;
    let weekends = "weekends"@;
    assert(all[0] == 'a' && weekdays[3] == 'k' && weekends[3] == 'k');
    assert("mon"@[0] == 'm' && "tue"@[0] == 't' && "wed"@[0] == 'w' && "thu"@[0] == 't');
    assert("fri"@[0] == 'f' && "sat"@[0] == 's' && "sun"@[0] == 's');
    assert("saturday"@[3] == 'u' && "thursday"@[3] == 'r');
    assert(weekdays.len() == 8 && weekends.len() == 8);
    assert("monday"@.len() == 6 && "friday"@.len() == 6 && "sunday"@.len() == 6);
    assert("tuesday"@.len() == 7 && "wednesday"@.len() == 9);
    assert(weekday_named(all) is None);
    assert(weekday_named(weekdays) is None);
    assert(weekday_named(weekends) is None);
}

/// What a clock shows, read as a time of day, is the second at which the clock
/// began to show it.
pub proof fn clock_text_reads_back(time: LocalTime)
    requires
        time.hour < 24,
        time.minute < 60,
    ensures
        time_named(clock_text(time)) == Some((time.hour * 3600 + time.minute * 60) as u32),
{
    let text = clock_text(time);
    let h = two_digits(time.hour as int);
    let m = two_digits(time.minute as int);
    lemma_two_digits(time.hour as int);
    lemma_two_digits(time.minute as int);
    assert(text[2] == ':');
    assert(text[0] == h[0] && text[1] == h[1]);
    assert(text.contains(':'));
    text.index_of_first_ensures(':');
    assert(text.index_of_first(':') == Some(2int));
    assert(text.take(2) =~= h);
    assert(text.skip(3) =~= m);
}

/// Two digits are a number.
proof fn lemma_two_digits(n: int)
    requires
        0 <= n < 100,
    ensures
        two_digits(n).len() == 2,
        all_digits(two_digits(n)),
        number(two_digits(n)) == Some(n as nat),
{
    let s = two_digits(n);
    assert(s[0] as int == '0' as int + n / 10);
    assert(s[1] as int == '0' as int + n % 10);
    reveal_with_fuel(digits_value, 3);
    assert(s.drop_last().drop_last() =~= Seq::<char>::empty());
    assert(s.drop_last().last() == s[0]);
    assert(digits_value(s.drop_last()) == n / 10);
    assert(digits_value(s) == n);
}

// --------------------------------------------------------------------- dates

proof fn lemma_year_length(year: int)
    ensures
        days_before_year(year + 1) == days_before_year(year) + if is_leap(year) {
            366int
        } else {
            365int
        },
{
}

proof fn lemma_years_grow(a: int, b: int)
    requires
        a <= b,
    ensures
        days_before_year(a) <= days_before_year(b),
    decreases b - a,
{
    if a < b {
        lemma_years_grow(a, b - 1);
        lemma_year_length(b - 1);
    }
}

proof fn lemma_months_grow(year: int, a: int, b: int)
    requires
        1 <= a < b,
    ensures
        days_before_month(year, a) + month_days(year, a) <= days_before_month(year, b),
    decreases b,
{
    if a < b - 1 {
        lemma_months_grow(year, a, b - 1);
    }
}

proof fn lemma_day_in_year(date: Date, days: int)
    requires
        is_date(date, days),
    ensures
        days_before_year(date.year as int) <= days < days_before_year(date.year + 1),
{
    let y = date.year as int;
    lemma_year_length(y);
    reveal_with_fuel(days_before_month, 13);
    if date.month < 12 {
        lemma_months_grow(y, date.month as int, 12);
    }
}

/// Each day has one date.
pub proof fn dates_are_unique(a: Date, b: Date, days: int)
    requires
        is_date(a, days),
        is_date(b, days),
    ensures
        a == b,
{
    lemma_day_in_year(a, days);
    lemma_day_in_year(b, days);
    if a.year < b.year {
        lemma_years_grow(a.year + 1, b.year as int);
    } else if b.year < a.year {
        lemma_years_grow(b.year + 1, a.year as int);
    }
    if a.month < b.month {
        lemma_months_grow(a.year as int, a.month as int, b.month as int);
    } else if b.month < a.month {
        lemma_months_grow(a.year as int, b.month as int, a.month as int);
    }
}

// ------------------------------------------------------------------- lookups

/// The first match is one of the elements and matches; there is one if and only
/// if some element matches.
proof fn lemma_first<T>(s: Seq<T>, p: spec_fn(T) -> bool)
    ensures
        first(s, p) matches Some(x) ==> s.contains(x) && p(x),
        first(s, p) is None ==> forall|i: int| 0 <= i < s.len() ==> !p(#[trigger] s[i]),
    decreases s.len(),
{
    if s.len() > 0 {
        let rest = s.drop_first();
        lemma_first(rest, p);
        if p(s[0]) {
            assert(s.contains(s[0]));
        } else if first(s, p) is Some {
            let x = first(s, p)->0;
            let i = choose|i: int| 0 <= i < rest.len() && rest[i] == x;
            assert(s[i + 1] == x);
        } else {
            assert forall|i: int| 0 <= i < s.len() implies !p(#[trigger] s[i]) by {
                if i > 0 {
                    assert(s[i] == rest[i - 1]);
                }
            }
        }
    }
}

/// A device is known by its MAC address in whatever case the address is
/// written, and only the devices of the configuration are known.
pub proof fn devices_are_known_in_any_case(config: Config, a: Seq<char>, b: Seq<char>)
    requires
        lower_ascii(a) == lower_ascii(b),
    ensures
        config.device_with_mac(a) == config.device_with_mac(b),
        config.device_with_mac(a) matches Some(device) ==> {
            &&& config.device@.contains(device)
            &&& lower_ascii(device.mac_address@) == lower_ascii(a)
        },
        config.device_with_mac(a) is None ==> forall|i: int|
            0 <= i < config.device@.len() ==> lower_ascii(
                (#[trigger] config.device@[i]).mac_address@,
            ) != lower_ascii(a),
{
    let p = has_mac(a);
    lemma_first(config.device@, p);
    if config.device_with_mac(a) is None {
        assert forall|i: int| 0 <= i < config.device@.len() implies lower_ascii(
            (#[trigger] config.device@[i]).mac_address@,
        ) != lower_ascii(a) by {
            assert(!p(config.device@[i]));
        }
    }
}

/// A screen is found by its name if and only if the configuration has one of
/// that name, and it is one that the configuration has.
pub proof fn screens_are_found_by_name(config: Config, name: Seq<char>)
    ensures
        config.screen_named(name) matches Some(screen) ==> config.screen@.contains(screen)
            && screen.name@ == name,
        config.screen_named(name) is None ==> forall|i: int|
            0 <= i < config.screen@.len() ==> (#[trigger] config.screen@[i]).name@ != name,
{
    let p = is_screen(name);
    lemma_first(config.screen@, p);
    if config.screen_named(name) is None {
        assert forall|i: int| 0 <= i < config.screen@.len() implies (
        #[trigger] config.screen@[i]).name@ != name by {
            assert(!p(config.screen@[i]));
        }
    }
}

/// A playlist is found by its name if and only if the configuration has one of
/// that name, and it is one that the configuration has.
pub proof fn playlists_are_found_by_name(config: Config, name: Seq<char>)
    ensures
        config.playlist_named(name) matches Some(playlist) ==> config.playlist@.contains(playlist)
            && playlist.name@ == name,
        config.playlist_named(name) is None ==> forall|i: int|
            0 <= i < config.playlist@.len() ==> (#[trigger] config.playlist@[i]).name@ != name,
{
    let p = is_playlist(name);
    lemma_first(config.playlist@, p);
    if config.playlist_named(name) is None {
        assert forall|i: int| 0 <= i < config.playlist@.len() implies (
        #[trigger] config.playlist@[i]).name@ != name by {
            assert(!p(config.playlist@[i]));
        }
    }
}

/// Without a schedule that applies, the default playlist and the default refresh
/// rate are in force. There is always a playlist where the configuration has the
/// default one.
pub proof fn defaults_are_in_force(config: Config, at: LocalTime)
    ensures
        config.schedule_at(at) is None ==> config.playlist_at(at) == config.playlist_named(
            config.default_playlist@,
        ) && config.refresh_rate_at(at) == config.default_refresh_rate,
        config.playlist_named(config.default_playlist@) is Some ==> config.playlist_at(at) is Some,
{
}

// ----------------------------------------------------------------- playlists

/// Which of its screens a playlist shows in a turn.
pub open spec fn turn_position(playlist: Playlist, counter: int) -> int {
    counter % playlist.screen@.len() as int
}

/// The screens of a playlist come round: in any row of as many turns as there
/// are screens, each screen has one turn, and then it starts over.
pub proof fn screens_take_turns(playlist: Playlist, counter: nat, screen: int)
    requires
        0 <= screen < playlist.screen@.len(),
    ensures
        playlist.turn(counter + playlist.screen@.len()) == playlist.turn(counter),
        exists|k: int|
            0 <= k < playlist.screen@.len() && #[trigger] turn_position(playlist, counter + k)
                == screen && playlist.turn((counter + k) as nat) == playlist.screen@[screen]@,
        forall|j: int, k: int|
            0 <= j < k < playlist.screen@.len() ==> #[trigger] turn_position(playlist, counter + j)
                != #[trigger] turn_position(playlist, counter + k),
{
    let n = playlist.screen@.len() as int;
    let c = counter as int;
    vstd::arithmetic::div_mod::lemma_mod_add_multiples_vanish(c, n);
    let r = c % n;
    vstd::arithmetic::div_mod::lemma_mod_bound(c, n);
    let k = if screen >= r {
        screen - r
    } else {
        screen - r + n
    };
    lemma_turn_position(c, k, n);
    assert(turn_position(playlist, counter + k) == screen);
    assert forall|i: int, j: int| 0 <= i < j < n implies #[trigger] turn_position(
        playlist,
        counter + i,
    ) != #[trigger] turn_position(playlist, counter + j) by {
        lemma_turn_position(c, i, n);
        lemma_turn_position(c, j, n);
    }
}

/// The position `k` turns after `c`, where the turns are fewer than `n`.
proof fn lemma_turn_position(c: int, k: int, n: int)
    requires
        0 <= c,
        0 <= k < n,
    ensures
        (c + k) % n == if c % n + k < n {
            c % n + k
        } else {
            c % n + k - n
        },
{
    vstd::arithmetic::div_mod::lemma_fundamental_div_mod(c, n);
    vstd::arithmetic::div_mod::lemma_mod_bound(c, n);
    let q = c / n;
    assert(n * q == q * n) by (nonlinear_arith);
    if c % n + k < n {
        vstd::arithmetic::div_mod::lemma_fundamental_div_mod_converse(c + k, n, q, c % n + k);
    } else {
        assert((q + 1) * n == q * n + n) by (nonlinear_arith);
        vstd::arithmetic::div_mod::lemma_fundamental_div_mod_converse(
            c + k,
            n,
            q + 1,
            c % n + k - n,
        );
    }
}

// ------------------------------------------------------------------- loading

/// Once the sources are at hand no screen needs a file any more, and loading
/// again changes nothing.
pub proof fn loading_is_done_once(
    script: ScriptView,
    preamble: Seq<char>,
    texts: Seq<String>,
    file: nat,
    later_preamble: Seq<char>,
    later: Seq<String>,
    later_file: nat,
)
    ensures
        loaded(script, preamble, texts, file) is Cached,
        loaded(loaded(script, preamble, texts, file), later_preamble, later, later_file)
            == loaded(script, preamble, texts, file),
{
}

// -------------------------------------------------------------------- inputs

/// Name and value of those of the first `n` inputs that are not marked `NoHash`.
pub open spec fn hashed_inputs(inputs: Seq<InputView>, values: Seq<Seq<char>>, n: int) -> Seq<
    (Seq<char>, Seq<char>),
>
    decreases n,
{
    if n <= 0 {
        Seq::empty()
    } else {
        let before = hashed_inputs(inputs, values, n - 1);
        if inputs[n - 1].option.contains(InputOption::NoHash) {
            before
        } else {
            before.push((inputs[n - 1].name, values[n - 1]))
        }
    }
}

/// Only the inputs that are not marked `NoHash` count for the hash: two screens on
/// which these have the same names and values, in the same order, have the same
/// hash, whatever other inputs stand between them.
pub proof fn only_hashed_inputs_count(
    a_inputs: Seq<InputView>,
    a: Seq<Seq<char>>,
    b_inputs: Seq<InputView>,
    b: Seq<Seq<char>>,
)
    requires
        hashed_inputs(a_inputs, a, a_inputs.len() as int) == hashed_inputs(
            b_inputs,
            b,
            b_inputs.len() as int,
        ),
    ensures
        values_hash(a_inputs, a) == values_hash(b_inputs, b),
{
    lemma_hashed_inputs(a_inputs, a, a_inputs.len() as int);
    lemma_hashed_inputs(b_inputs, b, b_inputs.len() as int);
}

/// What names and values write to the hasher.
spec fn writes_of(pairs: Seq<(Seq<char>, Seq<char>)>) -> Seq<Seq<u8>>
    decreases pairs.len(),
{
    if pairs.len() == 0 {
        Seq::empty()
    } else {
        writes_of(pairs.drop_last()) + hash_writes(pairs.last().0) + hash_writes(pairs.last().1)
    }
}

proof fn lemma_hashed_inputs(inputs: Seq<InputView>, values: Seq<Seq<char>>, n: int)
    ensures
        hashed_values(inputs, values, n) == writes_of(hashed_inputs(inputs, values, n)),
    decreases n,
{
    if n > 0 {
        lemma_hashed_inputs(inputs, values, n - 1);
        let before = hashed_inputs(inputs, values, n - 1);
        let last = (inputs[n - 1].name, values[n - 1]);
        assert(before.push(last).drop_last() =~= before);
    }
}

/// The values of inputs that are marked `NoHash` do not count for the hash: where
/// the others are the same, so is the hash.
pub proof fn unhashed_values_do_not_count(
    inputs: Seq<InputView>,
    a: Seq<Seq<char>>,
    b: Seq<Seq<char>>,
)
    requires
        forall|i: int|
            0 <= i < inputs.len() && !(#[trigger] inputs[i]).option.contains(InputOption::NoHash)
                ==> a[i] == b[i],
    ensures
        values_hash(inputs, a) == values_hash(inputs, b),
{
    lemma_same_hashed_inputs(inputs, a, b, inputs.len() as int);
    only_hashed_inputs_count(inputs, a, inputs, b);
}

proof fn lemma_same_hashed_inputs(
    inputs: Seq<InputView>,
    a: Seq<Seq<char>>,
    b: Seq<Seq<char>>,
    n: int,
)
    requires
        n <= inputs.len(),
        forall|i: int|
            0 <= i < inputs.len() && !(#[trigger] inputs[i]).option.contains(InputOption::NoHash)
                ==> a[i] == b[i],
    ensures
        hashed_inputs(inputs, a, n) == hashed_inputs(inputs, b, n),
    decreases n,
{
    if n > 0 {
        lemma_same_hashed_inputs(inputs, a, b, n - 1);
        let last = inputs[n - 1];
    }
}

/// Each input has a value under its name, the value of the last input of that
/// name; nothing else has one.
pub proof fn the_last_of_a_name_counts(
    inputs: Seq<InputView>,
    values: Seq<Seq<char>>,
    n: int,
    name: Seq<char>,
)
    requires
        0 <= n <= inputs.len(),
    ensures
        named_values(inputs, values, n).contains_key(name) <==> exists|i: int|
            0 <= i < n && (#[trigger] inputs[i]).name == name,
        forall|i: int|
            0 <= i < n && (#[trigger] inputs[i]).name == name && (forall|j: int|
                i < j < n ==> (#[trigger] inputs[j]).name != name) ==> named_values(
                inputs,
                values,
                n,
            )[name] == values[i],
    decreases n,
{
    if n > 0 {
        the_last_of_a_name_counts(inputs, values, n - 1, name);
        assert(inputs[n - 1].name == inputs[n - 1].name);
        assert forall|i: int|
            0 <= i < n && (#[trigger] inputs[i]).name == name && (forall|j: int|
                i < j < n ==> (#[trigger] inputs[j]).name != name) implies named_values(
            inputs,
            values,
            n,
        )[name] == values[i] by {
            if i < n - 1 {
                assert(inputs[n - 1].name != name);
            }
        }
    }
}

// ------------------------------------------------------------------ requests

/// A device that is not configured gets no turn. It is sent to the welcome page,
/// and what it finds there, within the hour, is what the page was to be told.
pub proof fn unknown_devices_are_welcomed(
    before: StateView,
    request: Request,
    m: Moment,
    later: u128,
)
    requires
        before.config.device_with_mac(request.mac@) is None,
        later < m.elapsed + MAX_STATE_AGE,
    ensures
        ({
            let (after, step) = display_outcome(before, request, m);
            let (_, page) = welcome_outcome(after, request.mac@, later);
            &&& after.indices == before.indices
            &&& step matches DisplayStepView::Reply(reply)
            &&& reply.image_url == image_url_of(
                protocol_of(request.forwarded_proto),
                request.host@,
                "welcome"@,
                request.mac@,
                m.random,
            )
            &&& page.source == PageSourceView::WelcomeTemplate
            &&& page.inputs == welcome_inputs(
                request.mac@,
                request.battery,
                before.config.timezone@,
                m.seconds,
            )
        }),
{
}

/// A device that has been set up finds on the welcome page, within the hour, what
/// the page was to be told.
pub proof fn set_up_devices_are_welcomed(
    before: StateView,
    request: Request,
    m: Moment,
    later: u128,
)
    requires
        later < m.elapsed + MAX_STATE_AGE,
    ensures
        ({
            let (after, reply) = setup_outcome(before, request, m);
            let (_, page) = welcome_outcome(after, request.mac@, later);
            page.inputs == welcome_inputs(
                request.mac@,
                request.battery,
                before.config.timezone@,
                m.seconds,
            )
        }),
{
}

/// Something that happens to the server.
pub enum Event {
    Setup { request: Request, m: Moment },
    Display { request: Request, m: Moment },
    DisplayFinish {
        request: Request,
        pending: PendingView,
        results: Seq<Result<String, config::Error>>,
        elapsed: u128,
        random: u64,
    },
    Error { mac: Seq<char>, elapsed: u128 },
    Welcome { mac: Seq<char>, elapsed: u128 },
    Screen { mac: Seq<char>, elapsed: u128 },
    Reload { config: Config },
}

/// The state after an event.
pub open spec fn after_event(state: StateView, event: Event) -> StateView {
    match event {
        Event::Setup { request, m } => setup_outcome(state, request, m).0,
        Event::Display { request, m } => display_outcome(state, request, m).0,
        Event::DisplayFinish { request, pending, results, elapsed, random } =>
            display_finish_outcome(state, request, pending, results, elapsed, random).0,
        Event::Error { mac, elapsed } => error_outcome(state, mac, elapsed).0,
        Event::Welcome { mac, elapsed } => welcome_outcome(state, mac, elapsed).0,
        Event::Screen { mac, elapsed } => screen_outcome(state, mac, elapsed).0,
        Event::Reload { config } => StateView { config, ..state },
    }
}

/// The state after the first `n` events.
pub open spec fn after_events(state: StateView, events: Seq<Event>, n: int) -> StateView
    decreases n,
{
    if n <= 0 {
        state
    } else {
        after_event(after_events(state, events, n - 1), events[n - 1])
    }
}

/// Whether a device has its turn with an event: it asks for its next image, it is
/// known, and there is a playlist.
pub open spec fn takes_turn(state: StateView, event: Event, mac: Seq<char>) -> bool {
    &&& event matches Event::Display { request, m }
    &&& request.mac@ == mac
    &&& state.config.device_with_mac(mac) is Some
    &&& state.config.playlist_at(state.config.local_clock_at(m.seconds)) is Some
}

/// How many turns a device has with the first `n` events.
pub open spec fn turns_taken(
    state: StateView,
    events: Seq<Event>,
    mac: Seq<char>,
    n: int,
) -> nat
    decreases n,
{
    if n <= 0 {
        0
    } else {
        turns_taken(state, events, mac, n - 1) + if takes_turn(
            after_events(state, events, n - 1),
            events[n - 1],
            mac,
        ) {
            1nat
        } else {
            0nat
        }
    }
}

/// Whatever happens to the server, the turns of a device are those that it took.
proof fn lemma_turns_taken(before: StateView, events: Seq<Event>, mac: Seq<char>, n: int)
    requires
        0 <= n,
    ensures
        turns_of(after_events(before, events, n).indices, mac) == (turns_of(before.indices, mac)
            + turns_taken(before, events, mac, n)) % (usize::MAX + 1),
    decreases n,
{
    let start = turns_of(before.indices, mac) as int;
    let full: int = usize::MAX + 1;
    if n <= 0 {
        vstd::arithmetic::div_mod::lemma_small_mod(start as nat, full as nat);
    } else {
        lemma_turns_taken(before, events, mac, n - 1);
        let state = after_events(before, events, n - 1);
        let event = events[n - 1];
        let taken = start + turns_taken(before, events, mac, n - 1);
        let turn = turns_of(state.indices, mac);
        if takes_turn(state, event, mac) {
            assert(turns_of(after_event(state, event).indices, mac) == next_turn(turn));
            vstd::arithmetic::div_mod::lemma_add_mod_noop(taken, 1, full);
            vstd::arithmetic::div_mod::lemma_small_mod(1, full as nat);
            if turn == usize::MAX {
                vstd::arithmetic::div_mod::lemma_mod_self_0(full);
            } else {
                vstd::arithmetic::div_mod::lemma_small_mod((turn + 1) as nat, full as nat);
            }
        } else {
            assert(turns_of(after_event(state, event).indices, mac) == turn);
        }
    }
}

/// Each time that a device asks, it is shown the next screen of the playlist that
/// is active: the screen of its turn, which counts how often it has asked before.
/// This is so after any number of events, whatever other devices ask for in
/// between, and whether or not the configuration is reloaded. The count starts
/// over when it is full.
pub proof fn each_display_shows_the_next_screen(
    before: StateView,
    events: Seq<Event>,
    n: int,
    request: Request,
    m: Moment,
    playlist: Playlist,
)
    requires
        0 <= n <= events.len(),
        ({
            let config = after_events(before, events, n).config;
            &&& config.device_with_mac(request.mac@) is Some
            &&& config.playlist_at(config.local_clock_at(m.seconds)) == Some(playlist)
        }),
    ensures
        ({
            let mac = request.mac@;
            let state = after_events(before, events, n);
            let turn = (turns_of(before.indices, mac) + turns_taken(before, events, mac, n)) % (
            usize::MAX + 1);
            let (after, step) = display_outcome(state, request, m);
            &&& playlist.screen@.len() > 0 ==> shows(
                step,
                state.config.screen_named(playlist.turn(turn as nat)),
            )
            &&& playlist.screen@.len() == 0 ==> shows(step, None)
            &&& turns_of(after.indices, mac) == (turn + 1) % (usize::MAX + 1)
        }),
{
    let mac = request.mac@;
    let full: int = usize::MAX + 1;
    lemma_turns_taken(before, events, mac, n);
    let turn = turns_of(after_events(before, events, n).indices, mac);
    if turn == usize::MAX {
        vstd::arithmetic::div_mod::lemma_mod_self_0(full);
    } else {
        vstd::arithmetic::div_mod::lemma_small_mod((turn + 1) as nat, full as nat);
    }
}

/// Whether a step leads to a screen, or to a reply where there is none.
pub open spec fn shows(step: DisplayStepView, screen: Option<Screen>) -> bool {
    match screen {
        Some(screen) => step matches DisplayStepView::Query(pending) && pending.screen == screen@,
        None => step is Reply,
    }
}

/// The image that a device is pointed to is served once, within the hour: it
/// shows the screen, which is told the values of its inputs and of the device.
/// Asked for again, or too late, it is not found.
pub proof fn images_are_served_once(
    before: StateView,
    request: Request,
    pending: PendingView,
    results: Seq<Result<String, config::Error>>,
    elapsed: u128,
    random: u64,
    later: u128,
    again: u128,
)
    requires
        first_failure(results) is None,
    ensures
        ({
            let mac = request.mac@;
            let values = named_values(
                pending.screen.input,
                good_values(results),
                pending.screen.input.len() as int,
            );
            let inputs = values.insert("tymnl-internal"@, pending.device_inputs.json());
            let (after, _) = display_finish_outcome(
                before,
                request,
                pending,
                results,
                elapsed,
                random,
            );
            let (served, page) = screen_outcome(after, mac, later);
            &&& later < elapsed + MAX_STATE_AGE ==> page == match before.config.screen_named(
                pending.screen.name,
            ) {
                Some(screen) => Ok::<PageView, u16>(
                    screen_page_of(before.config, screen@, inputs),
                ),
                None => Err(INTERNAL_SERVER_ERROR),
            }
            &&& later >= elapsed + MAX_STATE_AGE ==> page == Err::<PageView, u16>(NOT_FOUND)
            &&& screen_outcome(served, mac, again).1 == Err::<PageView, u16>(NOT_FOUND)
        }),
{
}

/// A device for which there is no screen is sent to the error page, which tells
/// it, within the hour, what is missing. Its turn counts only if there is a
/// playlist.
pub proof fn missing_screens_are_reported(
    before: StateView,
    request: Request,
    m: Moment,
    later: u128,
)
    requires
        before.config.device_with_mac(request.mac@) is Some,
        chosen(
            before.config,
            before.indices,
            request.mac@,
            before.config.local_clock_at(m.seconds),
        ) is Err,
        later < m.elapsed + MAX_STATE_AGE,
    ensures
        ({
            let at = before.config.local_clock_at(m.seconds);
            let error = chosen(before.config, before.indices, request.mac@, at)->Err_0;
            let (after, step) = display_outcome(before, request, m);
            let (_, page) = error_outcome(after, request.mac@, later);
            &&& step == DisplayStepView::Reply(
                reply_with(request, "error"@, m.random, before.config.refresh_rate_at(at)),
            )
            &&& page.source == PageSourceView::ErrorTemplate
            &&& page.inputs["error"@] == error.message()
            &&& error == ErrorView::NoActivePlaylist <==> after.indices == before.indices
                && before.config.playlist_at(at) is None
        }),
{
}

/// Where a query failed, the device is sent to the error page, which tells it,
/// within the hour, what went wrong.
pub proof fn failed_queries_are_reported(
    before: StateView,
    request: Request,
    pending: PendingView,
    results: Seq<Result<String, config::Error>>,
    elapsed: u128,
    random: u64,
    later: u128,
)
    requires
        first_failure(results) is Some,
        later < elapsed + MAX_STATE_AGE,
    ensures
        ({
            let failure = first_failure(results)->0->Err_0@;
            let (after, reply) = display_finish_outcome(
                before,
                request,
                pending,
                results,
                elapsed,
                random,
            );
            let (_, page) = error_outcome(after, request.mac@, later);
            &&& reply == reply_with(request, "error"@, random, pending.refresh_rate)
            &&& page.inputs["error-title"@] == "Input Query Error"@
            &&& page.inputs["error"@] == "querying input failed: "@ + failure.message()
        }),
{
    reveal_strlit("error-title");
    reveal_strlit("error");
    assert("error-title"@.len() != "error"@.len());
}

/// Where all inputs that count have the same names and values, a device is given
/// the same name for the image, so that it need not fetch it again. The request,
/// the moment and the inputs that do not count make no difference.
pub proof fn unchanged_values_keep_the_file_name(
    before: StateView,
    request: Request,
    pending: PendingView,
    a: Seq<Result<String, config::Error>>,
    m: Moment,
    later: StateView,
    later_request: Request,
    later_pending: PendingView,
    b: Seq<Result<String, config::Error>>,
    n: Moment,
)
    requires
        first_failure(a) is None,
        first_failure(b) is None,
        hashed_inputs(
            pending.screen.input,
            good_values(a),
            pending.screen.input.len() as int,
        ) == hashed_inputs(
            later_pending.screen.input,
            good_values(b),
            later_pending.screen.input.len() as int,
        ),
    ensures
        display_finish_outcome(before, request, pending, a, m.elapsed, m.random).1.filename
            == display_finish_outcome(
            later,
            later_request,
            later_pending,
            b,
            n.elapsed,
            n.random,
        ).1.filename,
{
    only_hashed_inputs_count(
        pending.screen.input,
        good_values(a),
        later_pending.screen.input,
        good_values(b),
    );
}

/// Whether all that devices are to be shown next is less than an hour old.
pub open spec fn nothing_old(state: StateView, now: u128) -> bool {
    forall|mac: Seq<char>| #[trigger]
        state.screens.contains_key(mac) ==> younger(state.screens[mac].0, now, MAX_STATE_AGE)
}

/// Each request for an image, and each one for where it is, leaves nothing that is
/// an hour old.
pub proof fn requests_leave_nothing_old(before: StateView, request: Request, m: Moment)
    ensures
        nothing_old(display_outcome(before, request, m).0, m.elapsed),
        nothing_old(error_outcome(before, request.mac@, m.elapsed).0, m.elapsed),
        nothing_old(welcome_outcome(before, request.mac@, m.elapsed).0, m.elapsed),
        nothing_old(screen_outcome(before, request.mac@, m.elapsed).0, m.elapsed),
{
}

/// The request of one device leaves the turns of the others alone, and what they
/// are to be shown next too, unless that is an hour old. No request changes the
/// configuration.
pub proof fn devices_do_not_disturb_each_other(
    before: StateView,
    request: Request,
    m: Moment,
    other: Seq<char>,
)
    requires
        other != request.mac@,
    ensures
        ({
            let mac = request.mac@;
            let kept = before.cleaned(m.elapsed);
            let displayed = display_outcome(before, request, m).0;
            let set_up = setup_outcome(before, request, m).0;
            let failed = error_outcome(before, mac, m.elapsed).0;
            let welcomed = welcome_outcome(before, mac, m.elapsed).0;
            let served = screen_outcome(before, mac, m.elapsed).0;
            &&& undisturbed(before, displayed, kept, other)
            &&& undisturbed(before, set_up, before, other)
            &&& undisturbed(before, failed, kept, other)
            &&& undisturbed(before, welcomed, kept, other)
            &&& undisturbed(before, served, kept, other)
        }),
{
}

/// Once the inputs of its screen have been queried, a device leaves the turns of
/// the others alone, and what they are to be shown next.
pub proof fn finished_displays_do_not_disturb(
    before: StateView,
    request: Request,
    pending: PendingView,
    results: Seq<Result<String, config::Error>>,
    elapsed: u128,
    random: u64,
    other: Seq<char>,
)
    requires
        other != request.mac@,
    ensures
        undisturbed(
            before,
            display_finish_outcome(before, request, pending, results, elapsed, random).0,
            before,
            other,
        ),
{
}

/// Whether a device has in `after` the turns that it had in `before`, and is to be
/// shown next what it is in `kept`, under the same configuration.
pub open spec fn undisturbed(
    before: StateView,
    after: StateView,
    kept: StateView,
    mac: Seq<char>,
) -> bool {
    &&& after.config == before.config
    &&& turns_of(after.indices, mac) == turns_of(before.indices, mac)
    &&& after.screens.contains_key(mac) == kept.screens.contains_key(mac)
    &&& kept.screens.contains_key(mac) ==> after.screens[mac] == kept.screens[mac]
}

}
