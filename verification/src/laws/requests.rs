//! What holds of the requests of devices and of the replies to them.

use crate::clock::{clock_text, local_clock, LocalTime};
use crate::config::{self, Config, Device, Playlist, Screen};
use crate::device::{device_inputs_at, shortened};
use crate::handlers::{
    chosen, counted, display_finish_outcome, display_outcome, query_error_inputs, query_outcome,
    setup_outcome, welcome_inputs, DisplayStepView, Moment, PendingView,
};
use crate::laws::schedules::the_first_schedule_that_applies_counts;
use crate::query::{first_failure, good_values, named_values, values_hash};
use crate::reply::{
    as_chars, before_comma, file_name, image_url_of, is_visible, protocol_of, reply_with, Request,
};
use crate::state::{next_turn, turns_of, ErrorView, NextScreenView, StateView, MAX_STATE_AGE};
use crate::table::young_entries;
use crate::text::{decimal, trimmed_end, trimmed_start, Margin};
use vstd::prelude::*;

verus! {

// ---------------------------------------------------------------------- state

/// An hour is sixty minutes of sixty seconds, in nanoseconds.
pub proof fn an_hour_is_sixty_minutes()
    ensures
        MAX_STATE_AGE == 60 * 60 * 1_000_000_000,
{
}

/// What devices are to be shown next is kept as it is until it is an hour old, and
/// then dropped. Nothing else changes with a cleanup.
pub proof fn cleanups_drop_what_is_old(before: StateView, now: u128, mac: Seq<char>)
    ensures
        ({
            let after = before.cleaned(now);
            &&& after.config == before.config
            &&& after.indices == before.indices
            &&& after.screens.contains_key(mac) <==> before.screens.contains_key(mac) && now
                < before.screens[mac].0 + 3_600_000_000_000
            &&& after.screens.contains_key(mac) ==> after.screens[mac] == before.screens[mac]
        }),
{
}

/// Entries of a table stay as they are until they reach the limit of their age, and
/// are dropped then.
pub proof fn entries_stay_while_they_are_young<V>(
    m: Map<Seq<char>, (u128, V)>,
    now: u128,
    limit: u128,
    key: Seq<char>,
)
    requires
        limit > 0,
    ensures
        young_entries(m, now, limit).contains_key(key) <==> m.contains_key(key) && now < m[key].0
            + limit,
        young_entries(m, now, limit).contains_key(key) ==> young_entries(m, now, limit)[key]
            == m[key],
{
}

/// What is put down for a device is there for it alone, with its stamp, until it is
/// taken.
pub proof fn what_is_put_down_is_there(
    before: StateView,
    mac: Seq<char>,
    now: u128,
    next: NextScreenView,
    other: Seq<char>,
)
    ensures
        ({
            let put = before.put(mac, now, next);
            let taken = before.taken(mac);
            &&& put.config == before.config && taken.config == before.config
            &&& put.indices == before.indices && taken.indices == before.indices
            &&& put.screens.contains_key(mac) && put.screens[mac] == (now, next)
            &&& !taken.screens.contains_key(mac)
            &&& other != mac ==> put.screens.contains_key(other) == before.screens.contains_key(
                other,
            ) && taken.screens.contains_key(other) == before.screens.contains_key(other)
            &&& other != mac && before.screens.contains_key(other) ==> put.screens[other]
                == before.screens[other] && taken.screens[other] == before.screens[other]
        }),
{
}

/// A device that has had no turn has had none of them; each turn is one more, and
/// after the last number the count starts over.
pub proof fn turns_count_up(indices: Map<Seq<char>, usize>, mac: Seq<char>, n: usize)
    ensures
        indices.contains_key(mac) ==> turns_of(indices, mac) == indices[mac],
        !indices.contains_key(mac) ==> turns_of(indices, mac) == 0,
        n < usize::MAX ==> next_turn(n) == n + 1,
        n == usize::MAX ==> next_turn(n) == 0,
{
}

// -------------------------------------------------------------------- replies

/// The URL of an image is made of the protocol, the host, the kind of page, the MAC
/// address and the name of the image, which is its number with `.png` behind it.
pub proof fn urls_are_made_of_their_parts(
    protocol: Seq<char>,
    host: Seq<char>,
    path: Seq<char>,
    mac: Seq<char>,
    number: u64,
)
    ensures
        file_name(number) == decimal(number as nat) + ".png"@,
        image_url_of(protocol, host, path, mac, number) == protocol + ("://"@ + (host + ("/"@ + (path
            + ("/"@ + (mac + ("/"@ + (decimal(number as nat) + ".png"@)))))))),
{
    assert(image_url_of(protocol, host, path, mac, number) =~= protocol + ("://"@ + (host + ("/"@ + (
    path + ("/"@ + (mac + ("/"@ + (decimal(number as nat) + ".png"@)))))))));
}

/// A reply points to an image of the device that asked, on the host that it asked
/// and by the protocol that it came by, and tells the name of the image and the
/// refresh rate.
pub proof fn replies_point_to_the_image(
    request: Request,
    path: Seq<char>,
    number: u64,
    refresh_rate: u32,
)
    ensures
        ({
            let reply = reply_with(request, path, number, refresh_rate);
            &&& reply.image_url == image_url_of(
                protocol_of(request.forwarded_proto),
                request.host@,
                path,
                request.mac@,
                number,
            )
            &&& reply.filename == decimal(number as nat) + ".png"@
            &&& reply.refresh_rate == refresh_rate
        }),
{
}

/// Without a header, or with one that is no text, the protocol is `http`. The bytes
/// of a text are those from the space to the tilde and the tab.
pub proof fn the_protocol_is_http_by_default(bytes: Vec<u8>, i: int)
    ensures
        protocol_of(None) == "http"@,
        0 <= i < bytes@.len() && bytes@[i] != 9 && (bytes@[i] < 32 || bytes@[i] > 126)
            ==> protocol_of(Some(bytes)) == "http"@,
        is_visible(bytes@) <==> forall|j: int|
            0 <= j < bytes@.len() ==> (#[trigger] bytes@[j]) == 9 || 32 <= bytes@[j] && bytes@[j]
                <= 126,
{
}

/// The protocol of a header is its first item, up to the first comma, without white
/// space around it.
pub proof fn the_first_protocol_counts(bytes: Vec<u8>, n: int)
    requires
        0 <= n <= bytes@.len(),
        forall|i: int|
            0 <= i < bytes@.len() ==> (#[trigger] bytes@[i]) == 9 || 32 <= bytes@[i] && bytes@[i]
                <= 126,
        forall|i: int| 0 <= i < n ==> (#[trigger] bytes@[i]) != 44,
        n < bytes@.len() ==> bytes@[n] == 44,
    ensures
        ({
            let item = Seq::new(n as nat, |i: int| bytes@[i] as char);
            protocol_of(Some(bytes)) == trimmed_end(
                trimmed_start(item, Margin::WhiteSpace),
                Margin::WhiteSpace,
            )
        }),
{
    let chars = as_chars(bytes@);
    let item = Seq::new(n as nat, |i: int| bytes@[i] as char);
    chars.index_of_first_ensures(',');
    if n < bytes@.len() {
        assert(chars[n] == ',');
        assert(chars.contains(','));
        let i = chars.index_of_first(',')->0;
        if i < n {
            assert(chars[i] == bytes@[i] as char);
            assert(bytes@[i] == 44);
        }
        assert(chars.take(n) =~= item);
    } else {
        if chars.contains(',') {
            let i = choose|i: int| 0 <= i < chars.len() && chars[i] == ',';
            assert(chars[i] == bytes@[i] as char);
            assert(bytes@[i] == 44);
        }
        assert(chars =~= item);
    }
    assert(before_comma(chars) == item);
}

/// Trimming takes away characters of the margin and nothing else, as long as there
/// are some at that end.
pub proof fn trimming_takes_the_margin_only(s: Seq<char>, n: int, margin: Margin)
    requires
        0 <= n <= s.len(),
    ensures
        (forall|i: int| n <= i < s.len() ==> margin.has_char(#[trigger] s[i])) && (n > 0
            ==> !margin.has_char(s[n - 1])) ==> trimmed_end(s, margin) == s.take(n),
        (forall|i: int| 0 <= i < n ==> margin.has_char(#[trigger] s[i])) && (n < s.len()
            ==> !margin.has_char(s[n])) ==> trimmed_start(s, margin) == s.skip(n),
    decreases s.len(),
{
    if (forall|i: int| n <= i < s.len() ==> margin.has_char(#[trigger] s[i])) && (n > 0
        ==> !margin.has_char(s[n - 1])) {
        if n < s.len() {
            let shorter = s.drop_last();
            assert(margin.has_char(s[s.len() - 1]));
            assert forall|i: int| n <= i < shorter.len() implies margin.has_char(
                #[trigger] shorter[i],
            ) by {
                assert(shorter[i] == s[i]);
            }
            trimming_takes_the_margin_only(shorter, n, margin);
            assert(shorter.take(n) =~= s.take(n));
        } else {
            assert(s.take(n) =~= s);
        }
    }
    if (forall|i: int| 0 <= i < n ==> margin.has_char(#[trigger] s[i])) && (n < s.len()
        ==> !margin.has_char(s[n])) {
        if n > 0 {
            let shorter = s.drop_first();
            assert(margin.has_char(s[0]));
            assert forall|i: int| 0 <= i < n - 1 implies margin.has_char(#[trigger] shorter[i]) by {
                assert(shorter[i] == s[i + 1]);
            }
            trimming_takes_the_margin_only(shorter, n - 1, margin);
            assert(shorter.skip(n - 1) =~= s.skip(n));
        } else {
            assert(s.skip(0) =~= s);
        }
    }
}

/// White space is what Unicode calls so, and a line ends in a line feed or a
/// carriage return.
pub proof fn margins_are_these(c: char)
    ensures
        ({
            let n = c as int;
            &&& Margin::LineEnd.has_char(c) <==> n == 10 || n == 13
            &&& Margin::WhiteSpace.has_char(c) <==> 9 <= n <= 13 || n == 32 || n == 0x85 || n
                == 0xA0 || n == 0x1680 || 0x2000 <= n <= 0x200A || n == 0x2028 || n == 0x2029 || n
                == 0x202F || n == 0x205F || n == 0x3000
        }),
{
}

// ---------------------------------------------------------------------- setup

/// The page for a device that is not configured is told the address of the device,
/// and, as of a device with this address that shows `Setup`, how full its battery is
/// and what time it is.
pub proof fn the_welcome_page_is_told_the_address(
    mac: Seq<char>,
    battery: u8,
    timezone: Seq<char>,
    seconds: i64,
    name: Seq<char>,
)
    ensures
        ({
            let inputs = welcome_inputs(mac, battery, timezone, seconds);
            &&& inputs.contains_key("mac"@) && inputs["mac"@] == mac
            &&& inputs.contains_key("tymnl-internal"@) && inputs["tymnl-internal"@]
                == device_inputs_at("Setup"@, battery, mac, timezone, seconds).json()
            &&& inputs.contains_key(name) ==> name == "mac"@ || name == "tymnl-internal"@
        }),
{
    reveal_strlit("mac");
    reveal_strlit("tymnl-internal");
    assert("mac"@.len() != "tymnl-internal"@.len());
}

/// What a page is told of a device: the name of the screen, the charge in decimal,
/// the name of the device, and hour and minute in the time zone.
pub proof fn pages_are_told_of_the_device(
    screen_name: Seq<char>,
    battery: u8,
    id: Seq<char>,
    timezone: Seq<char>,
    seconds: i64,
)
    ensures
        ({
            let told = device_inputs_at(screen_name, battery, id, timezone, seconds);
            &&& told.screen_name == screen_name
            &&& told.battery_percentage == decimal(battery as nat)
            &&& told.id == id
            &&& told.next_update_at == clock_text(local_clock(seconds, timezone))
        }),
{
}

/// A device that is set up is to be shown the welcome page, and is told its short
/// name and where the page is. Nothing else changes.
pub proof fn set_up_devices_are_told_where_to_look(before: StateView, request: Request, m: Moment)
    ensures
        ({
            let (after, reply) = setup_outcome(before, request, m);
            &&& after.config == before.config
            &&& after.indices == before.indices
            &&& after.screens == before.screens.insert(
                request.mac@,
                (
                    m.elapsed,
                    NextScreenView::Welcome {
                        inputs: welcome_inputs(
                            request.mac@,
                            request.battery,
                            before.config.timezone@,
                            m.seconds,
                        ),
                    },
                ),
            )
            &&& reply.friendly_id == "trmnl-"@ + shortened(request.mac@)
            &&& reply.message == "Welcome to BYOS!"@
            &&& reply.image_url == image_url_of(
                protocol_of(request.forwarded_proto),
                request.host@,
                "welcome"@,
                request.mac@,
                m.random,
            )
        }),
{
}

// -------------------------------------------------------------------- display

/// Without a playlist there is no screen and no turn. With one that is empty, or
/// that names a screen that is missing, the playlist is what is complained of.
/// Otherwise the screen is the one whose turn it is, and the turn counts.
pub proof fn the_screen_of_the_turn_is_chosen(
    config: Config,
    indices: Map<Seq<char>, usize>,
    mac: Seq<char>,
    at: LocalTime,
    turn: usize,
)
    requires
        turn == (if indices.contains_key(mac) {
            indices[mac]
        } else {
            0
        }),
    ensures
        config.playlist_at(at) is None ==> {
            &&& chosen(config, indices, mac, at) matches Err(e) && e is NoActivePlaylist
            &&& counted(config, indices, mac, at) == indices
        },
        config.playlist_at(at) matches Some(playlist) ==> {
            let n = playlist.screen@.len();
            let named = config.screen_named(playlist.screen@[turn as int % n as int]@);
            let outcome = chosen(config, indices, mac, at);
            &&& n == 0 || named is None ==> (outcome matches Err(e) && e
                == ErrorView::NoScreen(playlist.name@))
            &&& n > 0 && named is Some ==> (outcome matches Ok(screen) && screen == named->0@)
            &&& counted(config, indices, mac, at) == indices.insert(
                mac,
                (if turn == usize::MAX {
                    0
                } else {
                    turn + 1
                }) as usize,
            )
        },
{
}

/// A device that is not configured is sent to the welcome page, which is to be told
/// its address. It gets no turn.
pub proof fn unknown_devices_are_sent_to_the_welcome_page(
    before: StateView,
    request: Request,
    m: Moment,
)
    requires
        before.config.device_with_mac(request.mac@) is None,
    ensures
        ({
            let (after, step) = display_outcome(before, request, m);
            let at = before.config.local_clock_at(m.seconds);
            &&& after.config == before.config
            &&& after.indices == before.indices
            &&& after.screens == before.cleaned(m.elapsed).screens.insert(
                request.mac@,
                (
                    m.elapsed,
                    NextScreenView::Welcome {
                        inputs: welcome_inputs(
                            request.mac@,
                            request.battery,
                            before.config.timezone@,
                            m.seconds,
                        ),
                    },
                ),
            )
            &&& step == DisplayStepView::Reply(
                reply_with(request, "welcome"@, m.random, before.config.refresh_rate_at(at)),
            )
        }),
{
}

/// A configured device has its turn. Where there is a screen for it, the inputs of
/// that screen are to be queried, and the page is to be told of the device under the
/// name that it has in the configuration.
pub proof fn known_devices_have_their_turn(
    before: StateView,
    request: Request,
    m: Moment,
    device: Device,
    playlist: Playlist,
    screen: Screen,
    turn: usize,
)
    requires
        before.config.device_with_mac(request.mac@) == Some(device),
        before.config.playlist_at(before.config.local_clock_at(m.seconds)) == Some(playlist),
        turn == (if before.indices.contains_key(request.mac@) {
            before.indices[request.mac@]
        } else {
            0
        }),
        playlist.screen@.len() > 0,
        before.config.screen_named(
            playlist.screen@[turn as int % playlist.screen@.len() as int]@,
        ) == Some(screen),
    ensures
        ({
            let (after, step) = display_outcome(before, request, m);
            &&& after.config == before.config
            &&& after.screens == before.cleaned(m.elapsed).screens
            &&& after.indices == before.indices.insert(
                request.mac@,
                (if turn == usize::MAX {
                    0
                } else {
                    turn + 1
                }) as usize,
            )
            &&& step matches DisplayStepView::Query(pending)
            &&& pending.screen == screen@
            &&& pending.device_inputs.screen_name == screen.name@
            &&& pending.device_inputs.battery_percentage == decimal(request.battery as nat)
            &&& pending.device_inputs.id == device.name@
            &&& pending.device_inputs.next_update_at == clock_text(
                local_clock(m.seconds, before.config.timezone@),
            )
        }),
{
}

/// A configured device for which there is no screen is sent to the error page, which
/// is to say what is missing.
pub proof fn devices_without_a_screen_are_sent_to_the_error_page(
    before: StateView,
    request: Request,
    m: Moment,
    error: ErrorView,
)
    requires
        before.config.device_with_mac(request.mac@) is Some,
        chosen(
            before.config,
            before.indices,
            request.mac@,
            before.config.local_clock_at(m.seconds),
        ) == Err::<crate::loading::ScreenView, ErrorView>(error),
    ensures
        ({
            let (after, step) = display_outcome(before, request, m);
            let at = before.config.local_clock_at(m.seconds);
            &&& after.config == before.config
            &&& after.indices == counted(before.config, before.indices, request.mac@, at)
            &&& after.screens == before.cleaned(m.elapsed).screens.insert(
                request.mac@,
                (
                    m.elapsed,
                    NextScreenView::Error { error, inputs: Map::<Seq<char>, Seq<char>>::empty() },
                ),
            )
            &&& step == DisplayStepView::Reply(
                reply_with(request, "error"@, m.random, before.config.refresh_rate_at(at)),
            )
        }),
{
}

/// Whatever a device that asks for its display is sent to, its image, the error page
/// or the welcome page, at once or once the inputs have been queried, it is told the
/// refresh rate of the first schedule that applies at the local time of its request,
/// where that schedule has one, and the default rate otherwise.
pub proof fn replies_tell_the_rate_of_the_active_schedule(
    before: StateView,
    request: Request,
    m: Moment,
    k: int,
    meanwhile: StateView,
    results: Seq<Result<String, config::Error>>,
    elapsed: u128,
    random: u64,
)
    requires
        0 <= k <= before.config.schedule@.len(),
        ({
            let at = before.config.local_clock_at(m.seconds);
            let time = (at.hour * 3600 + at.minute * 60) as u32;
            &&& forall|j: int|
                0 <= j < k ==> !(#[trigger] before.config.schedule@[j]).applies_at(
                    at.weekday,
                    time,
                )
            &&& k < before.config.schedule@.len() ==> before.config.schedule@[k].applies_at(
                at.weekday,
                time,
            )
        }),
    ensures
        ({
            let schedules = before.config.schedule@;
            let rate = if k < schedules.len() && schedules[k].refresh_rate is Some {
                schedules[k].refresh_rate->0
            } else {
                before.config.default_refresh_rate
            };
            match display_outcome(before, request, m).1 {
                DisplayStepView::Reply(reply) => reply.refresh_rate == rate,
                DisplayStepView::Query(pending) => {
                    let (_, reply) = display_finish_outcome(
                        meanwhile,
                        request,
                        pending,
                        results,
                        elapsed,
                        random,
                    );
                    reply.refresh_rate == rate
                },
            }
        }),
{
    let at = before.config.local_clock_at(m.seconds);
    the_first_schedule_that_applies_counts(before.config, at, k);
}

/// Once the inputs of its screen have been queried, a device is pointed to its image,
/// which has the hash of the inputs as its number. The image is to show the screen,
/// which is to be told the values and, besides, what is told of the device.
pub proof fn queried_screens_are_to_be_shown(
    before: StateView,
    request: Request,
    pending: PendingView,
    results: Seq<Result<String, config::Error>>,
    elapsed: u128,
    random: u64,
)
    requires
        first_failure(results) is None,
    ensures
        ({
            let (after, reply) = display_finish_outcome(
                before,
                request,
                pending,
                results,
                elapsed,
                random,
            );
            let input = pending.screen.input;
            let values = named_values(input, good_values(results), input.len() as int);
            let hash = values_hash(input, good_values(results));
            &&& after.config == before.config
            &&& after.indices == before.indices
            &&& after.screens == before.screens.insert(
                request.mac@,
                (
                    elapsed,
                    NextScreenView::Image {
                        name: pending.screen.name,
                        inputs: values.insert(
                            "tymnl-internal"@,
                            pending.device_inputs.json(),
                        ),
                    },
                ),
            )
            &&& reply.filename == decimal(hash as nat) + ".png"@
            &&& reply.refresh_rate == pending.refresh_rate
            &&& reply.image_url == image_url_of(
                protocol_of(request.forwarded_proto),
                request.host@,
                "screen"@,
                request.mac@,
                hash,
            )
        }),
{
}

/// Where a query failed, the device is sent to the error page, which is to be told
/// what it is about and what went wrong.
pub proof fn failed_queries_are_to_be_shown(
    before: StateView,
    request: Request,
    pending: PendingView,
    results: Seq<Result<String, config::Error>>,
    elapsed: u128,
    random: u64,
    name: Seq<char>,
)
    requires
        first_failure(results) is Some,
    ensures
        ({
            let error = ErrorView::Query(first_failure(results)->0->Err_0@);
            let inputs = query_error_inputs(error);
            let (after, reply) = display_finish_outcome(
                before,
                request,
                pending,
                results,
                elapsed,
                random,
            );
            &&& query_outcome(pending.screen, results) is Err
            &&& after.config == before.config
            &&& after.indices == before.indices
            &&& after.screens == before.screens.insert(
                request.mac@,
                (elapsed, NextScreenView::Error { error, inputs }),
            )
            &&& inputs.contains_key("error"@) && inputs["error"@] == error.message()
            &&& inputs.contains_key("error-title"@) && inputs["error-title"@]
                == "Input Query Error"@
            &&& inputs.contains_key(name) ==> name == "error"@ || name == "error-title"@
            &&& reply.image_url == image_url_of(
                protocol_of(request.forwarded_proto),
                request.host@,
                "error"@,
                request.mac@,
                random,
            )
            &&& reply.filename == decimal(random as nat) + ".png"@
            &&& reply.refresh_rate == pending.refresh_rate
        }),
{
    reveal_strlit("error-title");
    reveal_strlit("error");
    assert("error-title"@.len() != "error"@.len());
}

}
