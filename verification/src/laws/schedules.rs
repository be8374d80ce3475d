//! What holds of days, times and schedules.

use crate::clock::{LocalTime, Weekday};
use crate::config::{
    all_ascii, ascii_list_has_day, found_in, group_has_day, has_mac, in_lower_case, in_window,
    is_due, is_playlist, is_screen, is_working_day, lowercase, second_shown, time_named,
    weekday_named, Config, DaySelector, Device, Playlist, Schedule, Screen,
};
use crate::text::{first, lemma_first_at, lemma_first_none, lower_ascii, number};
use vstd::prelude::*;
use vstd::utf8::is_ascii_chars;

verus! {

// ------------------------------------------------------------------ day names

/// The names of the days differ in length or in one of their first letters.
proof fn lemma_day_names()
    ensures
        "mon"@ == seq!['m', 'o', 'n'],
        "tue"@ == seq!['t', 'u', 'e'],
        "wed"@ == seq!['w', 'e', 'd'],
        "thu"@ == seq!['t', 'h', 'u'],
        "fri"@ == seq!['f', 'r', 'i'],
        "sat"@ == seq!['s', 'a', 't'],
        "sun"@ == seq!['s', 'u', 'n'],
        "monday"@ == seq!['m', 'o', 'n', 'd', 'a', 'y'],
        "tuesday"@ == seq!['t', 'u', 'e', 's', 'd', 'a', 'y'],
        "wednesday"@ == seq!['w', 'e', 'd', 'n', 'e', 's', 'd', 'a', 'y'],
        "thursday"@ == seq!['t', 'h', 'u', 'r', 's', 'd', 'a', 'y'],
        "friday"@ == seq!['f', 'r', 'i', 'd', 'a', 'y'],
        "saturday"@ == seq!['s', 'a', 't', 'u', 'r', 'd', 'a', 'y'],
        "sunday"@ == seq!['s', 'u', 'n', 'd', 'a', 'y'],
        "all"@ == seq!['a', 'l', 'l'],
        "weekdays"@ == seq!['w', 'e', 'e', 'k', 'd', 'a', 'y', 's'],
        "weekends"@ == seq!['w', 'e', 'e', 'k', 'e', 'n', 'd', 's'],
{
    reveal_strlit("mon");
    reveal_strlit("tue");
    reveal_strlit("wed");
    reveal_strlit("thu");
    reveal_strlit("fri");
    reveal_strlit("sat");
    reveal_strlit("sun");
    reveal_strlit("monday");
    reveal_strlit("tuesday");
    reveal_strlit("wednesday");
    reveal_strlit("thursday");
    reveal_strlit("friday");
    reveal_strlit("saturday");
    reveal_strlit("sunday");
    reveal_strlit("all");
    reveal_strlit("weekdays");
    reveal_strlit("weekends");
}


/// Each day has two names, a short one and the one in full, and no other text
/// stands for a day.
pub proof fn days_have_two_names(name: Seq<char>)
    ensures
        weekday_named(name) == Some(Weekday::Mon) <==> name == "mon"@ || name == "monday"@,
        weekday_named(name) == Some(Weekday::Tue) <==> name == "tue"@ || name == "tuesday"@,
        weekday_named(name) == Some(Weekday::Wed) <==> name == "wed"@ || name == "wednesday"@,
        weekday_named(name) == Some(Weekday::Thu) <==> name == "thu"@ || name == "thursday"@,
        weekday_named(name) == Some(Weekday::Fri) <==> name == "fri"@ || name == "friday"@,
        weekday_named(name) == Some(Weekday::Sat) <==> name == "sat"@ || name == "saturday"@,
        weekday_named(name) == Some(Weekday::Sun) <==> name == "sun"@ || name == "sunday"@,
{
    lemma_day_names();
    let n = name.len();
    let a = name[0];
    let b = name[1];
    assert(name == "mon"@ || name == "monday"@ ==> (n == 3 || n == 6) && a == 'm');
    assert(name == "tue"@ || name == "tuesday"@ ==> (n == 3 || n == 7) && a == 't' && b == 'u');
    assert(name == "wed"@ || name == "wednesday"@ ==> (n == 3 || n == 9) && a == 'w');
    assert(name == "thu"@ || name == "thursday"@ ==> (n == 3 || n == 8) && a == 't' && b == 'h');
    assert(name == "fri"@ || name == "friday"@ ==> (n == 3 || n == 6) && a == 'f');
    assert(name == "sat"@ || name == "saturday"@ ==> (n == 3 || n == 8) && a == 's' && b == 'a');
    assert(name == "sun"@ || name == "sunday"@ ==> (n == 3 || n == 6) && a == 's' && b == 'u');
}

/// ASCII text is put into lower case letter by letter: a capital letter becomes
/// the small one, 32 places behind it, and nothing else changes.
pub proof fn lower_case_goes_letter_by_letter(s: Seq<char>)
    ensures
        lower_ascii(s).len() == s.len(),
        forall|i: int|
            #![trigger lower_ascii(s)[i]]
            0 <= i < s.len() && 65 <= s[i] as int <= 90 ==> lower_ascii(s)[i] as int == s[i] as int
                + 32,
        forall|i: int|
            #![trigger lower_ascii(s)[i]]
            0 <= i < s.len() && !(65 <= s[i] as int <= 90) ==> lower_ascii(s)[i] == s[i],
        is_ascii_chars(s) ==> in_lower_case(s) == lower_ascii(s),
        !is_ascii_chars(s) ==> in_lower_case(s) == lowercase(s),
{
}

// ----------------------------------------------------------------------- days

/// A schedule with a list of days applies on each day that a name of the list
/// stands for, in whatever case it is written and wherever in the list it stands,
/// and on no other day.
pub proof fn lists_of_days_count_in_full(schedule: Schedule, days: Vec<String>, weekday: Weekday)
    requires
        schedule.days == DaySelector::List(days),
    ensures
        forall|i: int|
            0 <= i < days@.len() && weekday_named(in_lower_case((#[trigger] days@[i])@)) == Some(
                weekday,
            ) ==> schedule.applies_on(weekday),
        schedule.applies_on(weekday) ==> exists|i: int|
            0 <= i < days@.len() && weekday_named(in_lower_case((#[trigger] days@[i])@)) == Some(
                weekday,
            ),
        all_ascii(days@) <==> forall|i: int|
            0 <= i < days@.len() ==> is_ascii_chars((#[trigger] days@[i])@),
        ascii_list_has_day(days@, weekday) <==> exists|i: int|
            0 <= i < days@.len() && weekday_named(lower_ascii((#[trigger] days@[i])@)) == Some(
                weekday,
            ),
{
}

/// A day that stands at the end of a list, however long, is one of its days; the
/// other days are those of the list without it.
pub proof fn each_further_day_counts(
    shorter: Schedule,
    longer: Schedule,
    few: Vec<String>,
    more: Vec<String>,
    name: String,
    weekday: Weekday,
)
    requires
        shorter.days == DaySelector::List(few),
        longer.days == DaySelector::List(more),
        more@ == few@.push(name),
    ensures
        longer.applies_on(weekday) <==> shorter.applies_on(weekday) || weekday_named(
            in_lower_case(name@),
        ) == Some(weekday),
{
    assert(more@[few@.len() as int] == name);
    if shorter.applies_on(weekday) {
        let i = choose|i: int|
            0 <= i < few@.len() && weekday_named(in_lower_case((#[trigger] few@[i])@)) == Some(
                weekday,
            );
        assert(more@[i] == few@[i]);
    }
    if longer.applies_on(weekday) {
        let i = choose|i: int|
            0 <= i < more@.len() && weekday_named(in_lower_case((#[trigger] more@[i])@)) == Some(
                weekday,
            );
        if i < few@.len() {
            assert(few@[i] == more@[i]);
        }
    }
}

/// A schedule for all days applies on each, one for the weekdays on the five from
/// Monday to Friday, one for the weekends on the other two, and one for any other
/// name on the day that the name stands for, if there is one.
pub proof fn groups_of_days_are_these(schedule: Schedule, name: String, weekday: Weekday)
    requires
        schedule.days == DaySelector::Named(name),
    ensures
        ({
            let small = in_lower_case(name@);
            let applies = schedule.applies_on(weekday);
            let rest = weekday == Weekday::Sat || weekday == Weekday::Sun;
            &&& small == "all"@ ==> applies
            &&& small == "weekdays"@ ==> applies == !rest
            &&& small == "weekends"@ ==> applies == rest
            &&& small != "all"@ && small != "weekdays"@ && small != "weekends"@ ==> applies == (
            weekday_named(small) == Some(weekday))
        }),
        group_has_day(in_lower_case(name@), weekday) == schedule.applies_on(weekday),
        is_working_day(weekday) <==> weekday == Weekday::Mon || weekday == Weekday::Tue || weekday
            == Weekday::Wed || weekday == Weekday::Thu || weekday == Weekday::Fri,
{
    lemma_day_names();
    assert("weekdays"@[4] != "weekends"@[4]);
    assert("all"@.len() == 3 && "weekdays"@.len() == 8 && "weekends"@.len() == 8);
}

// ---------------------------------------------------------------------- times

/// A time of day is read from an hour and a minute with a colon between them, and
/// from nothing else.
pub proof fn times_are_hours_and_minutes(hour: Seq<char>, minute: Seq<char>, s: Seq<char>)
    requires
        !hour.contains(':'),
        !s.contains(':'),
    ensures
        time_named(s) is None,
        ({
            let time = time_named(hour + seq![':'] + minute);
            match (number(hour), number(minute)) {
                (Some(h), Some(m)) => if h <= 23 && m <= 59 {
                    time matches Some(t) && t == 3600 * h + 60 * m
                } else {
                    time is None
                },
                _ => time is None,
            }
        }),
{
    let text = hour + seq![':'] + minute;
    let n = hour.len() as int;
    s.index_of_first_ensures(':');
    assert(text[n] == ':');
    assert(text.contains(':'));
    text.index_of_first_ensures(':');
    let i = text.index_of_first(':')->0;
    if i < n {
        assert(text[i] == hour[i]);
        assert(hour.contains(':'));
    }
    assert(text.take(n) =~= hour);
    assert(text.skip(n + 1) =~= minute);
    number_fits(hour);
    number_fits(minute);
}

/// A number that is read fits in 32 bits.
proof fn number_fits(s: Seq<char>)
    ensures
        number(s) matches Some(n) ==> n <= u32::MAX,
{
}

/// A window from one time to a later one holds what lies between them; one that
/// ends before it starts holds what lies outside. The start belongs to it, the
/// end does not.
pub proof fn windows_hold_what_lies_between(start: u32, end: u32, time: u32)
    ensures
        start <= end ==> (in_window(start, end, time) <==> start <= time && time < end),
        start > end ==> (in_window(start, end, time) <==> !(end <= time && time < start)),
{
}

/// A schedule applies on its days while its window is open. A window that cannot
/// be read is never open.
pub proof fn schedules_apply_while_they_are_open(schedule: Schedule, weekday: Weekday, time: u32)
    ensures
        schedule.applies_at(weekday, time) <==> schedule.applies_on(weekday) && schedule.is_open_at(
            time,
        ),
        match (time_named(schedule.start@), time_named(schedule.end@)) {
            (Some(start), Some(end)) => schedule.is_open_at(time) == in_window(start, end, time),
            _ => !schedule.is_open_at(time),
        },
{
}

// -------------------------------------------------------------------- lookups

/// What is found among devices, playlists and screens is the first that fits: the
/// device whose MAC address differs at most in the case of its letters, the
/// playlist or the screen of the very name.
pub proof fn lookups_find_the_first(config: Config, text: Seq<char>, d: int, p: int, s: int)
    requires
        0 <= d <= config.device@.len(),
        0 <= p <= config.playlist@.len(),
        0 <= s <= config.screen@.len(),
        forall|j: int|
            0 <= j < d ==> lower_ascii((#[trigger] config.device@[j]).mac_address@) != lower_ascii(
                text,
            ),
        d < config.device@.len() ==> lower_ascii(config.device@[d].mac_address@) == lower_ascii(
            text,
        ),
        forall|j: int| 0 <= j < p ==> (#[trigger] config.playlist@[j]).name@ != text,
        p < config.playlist@.len() ==> config.playlist@[p].name@ == text,
        forall|j: int| 0 <= j < s ==> (#[trigger] config.screen@[j]).name@ != text,
        s < config.screen@.len() ==> config.screen@[s].name@ == text,
    ensures
        config.device_with_mac(text) == (if d < config.device@.len() {
            Some(config.device@[d])
        } else {
            None
        }),
        config.playlist_named(text) == (if p < config.playlist@.len() {
            Some(config.playlist@[p])
        } else {
            None
        }),
        config.screen_named(text) == (if s < config.screen@.len() {
            Some(config.screen@[s])
        } else {
            None
        }),
{
    let devices = config.device@;
    let playlists = config.playlist@;
    let screens = config.screen@;
    let fits = has_mac(text);
    let is_list = is_playlist(text);
    let is_page = is_screen(text);
    assert forall|j: int| 0 <= j < d implies !fits(#[trigger] devices[j]) by {}
    assert forall|j: int| 0 <= j < p implies !is_list(#[trigger] playlists[j]) by {}
    assert forall|j: int| 0 <= j < s implies !is_page(#[trigger] screens[j]) by {}
    if d < devices.len() {
        lemma_first_at(devices, fits, d);
    } else {
        lemma_first_none(devices, fits);
    }
    if p < playlists.len() {
        lemma_first_at(playlists, is_list, p);
    } else {
        lemma_first_none(playlists, is_list);
    }
    if s < screens.len() {
        lemma_first_at(screens, is_page, s);
    } else {
        lemma_first_none(screens, is_page);
    }
}

/// Whether a schedule is the first to apply at a local time, or, where `k` is
/// their number, none does.
pub open spec fn is_first_to_apply(config: Config, at: LocalTime, k: int) -> bool {
    &&& 0 <= k <= config.schedule@.len()
    &&& forall|j: int|
        0 <= j < k ==> !(#[trigger] config.schedule@[j]).applies_at(
            at.weekday,
            (at.hour * 3600 + at.minute * 60) as u32,
        )
    &&& k < config.schedule@.len() ==> config.schedule@[k].applies_at(
        at.weekday,
        (at.hour * 3600 + at.minute * 60) as u32,
    )
}

/// The first schedule that applies is the one that is active. Its refresh rate
/// counts where it has one, and the default rate otherwise; its playlist counts
/// where it names one that there is, and the default playlist otherwise.
pub proof fn the_first_schedule_that_applies_counts(config: Config, at: LocalTime, k: int)
    requires
        at.hour < 24,
        at.minute < 60,
        0 <= k <= config.schedule@.len(),
        forall|j: int|
            0 <= j < k ==> !(#[trigger] config.schedule@[j]).applies_at(
                at.weekday,
                (at.hour * 3600 + at.minute * 60) as u32,
            ),
        k < config.schedule@.len() ==> config.schedule@[k].applies_at(
            at.weekday,
            (at.hour * 3600 + at.minute * 60) as u32,
        ),
    ensures
        is_first_to_apply(config, at, k),
        ({
            let active = config.schedule@[k];
            let fallback = config.playlist_named(config.default_playlist@);
            &&& k == config.schedule@.len() ==> config.schedule_at(at) is None
            &&& k < config.schedule@.len() ==> config.schedule_at(at) == Some(active)
            &&& config.refresh_rate_at(at) == (if k < config.schedule@.len()
                && active.refresh_rate is Some {
                active.refresh_rate->0
            } else {
                config.default_refresh_rate
            })
            &&& config.playlist_at(at) == (if k < config.schedule@.len() && active.playlist is Some
                && config.playlist_named((active.playlist->0)@) is Some {
                config.playlist_named((active.playlist->0)@)
            } else {
                fallback
            })
        }),
{
    let due = is_due(at);
    let time = second_shown(at);
    assert(time == (at.hour * 3600 + at.minute * 60) as u32);
    assert forall|j: int| 0 <= j < k implies !due(#[trigger] config.schedule@[j]) by {}
    if k < config.schedule@.len() {
        lemma_first_at(config.schedule@, due, k);
    } else {
        lemma_first_none(config.schedule@, due);
    }
}

/// There is always a schedule that is the first to apply, or none that applies.
pub proof fn some_schedule_is_first(config: Config, at: LocalTime, n: int) -> (k: int)
    requires
        0 <= n <= config.schedule@.len(),
        forall|j: int|
            0 <= j < n ==> !(#[trigger] config.schedule@[j]).applies_at(
                at.weekday,
                (at.hour * 3600 + at.minute * 60) as u32,
            ),
    ensures
        is_first_to_apply(config, at, k),
    decreases config.schedule@.len() - n,
{
    if n == config.schedule@.len() || config.schedule@[n].applies_at(
        at.weekday,
        (at.hour * 3600 + at.minute * 60) as u32,
    ) {
        n
    } else {
        some_schedule_is_first(config, at, n + 1)
    }
}

/// The screen whose turn it is stands in its playlist as many places behind the
/// first as there have been turns, counted round and round.
pub proof fn turns_go_round(playlist: Playlist, counter: nat, rounds: nat, place: int)
    requires
        0 <= place < playlist.screen@.len(),
        counter == rounds * playlist.screen@.len() + place,
    ensures
        playlist.turn(counter) == playlist.screen@[place]@,
{
    vstd::arithmetic::div_mod::lemma_fundamental_div_mod_converse(
        counter as int,
        playlist.screen@.len() as int,
        rounds as int,
        place,
    );
}

/// A borrowed result is the value that was looked for, or nothing where there was
/// nothing to be found.
pub proof fn found_is_what_was_looked_for(
    device: Device,
    playlist: Playlist,
    screen: Screen,
    schedule: Schedule,
    devices: Option<Device>,
    playlists: Option<Playlist>,
    screens: Option<Screen>,
    schedules: Option<Schedule>,
)
    ensures
        found_in(Some(&device), devices) <==> devices == Some(device),
        found_in(None, devices) <==> devices is None,
        found_in(Some(&playlist), playlists) <==> playlists == Some(playlist),
        found_in(None, playlists) <==> playlists is None,
        found_in(Some(&screen), screens) <==> screens == Some(screen),
        found_in(None, screens) <==> screens is None,
        found_in(Some(&schedule), schedules) <==> schedules == Some(schedule),
        found_in(None, schedules) <==> schedules is None,
{
}

/// The first element that fits is the one before which none fits.
pub proof fn first_is_before_all_others<T>(s: Seq<T>, p: spec_fn(T) -> bool, k: int)
    requires
        0 <= k <= s.len(),
        forall|j: int| 0 <= j < k ==> !p(#[trigger] s[j]),
        k < s.len() ==> p(s[k]),
    ensures
        first(s, p) == (if k < s.len() {
            Some(s[k])
        } else {
            None
        }),
{
    if k < s.len() {
        lemma_first_at(s, p, k);
    } else {
        lemma_first_none(s, p);
    }
}

}
