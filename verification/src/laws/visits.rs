//! What holds of a whole visit of a device: it asks for its display, its inputs are
//! queried, and it fetches its image.

use crate::clock::effective;
use crate::config::{self, Device, Playlist, Screen, ScreenOption, ScreenScript};
use crate::handlers::{
    display_finish_outcome, display_outcome, screen_outcome, DisplayStepView, Moment,
    PageSourceView,
};
use crate::laws::requests::{
    known_devices_have_their_turn, queried_screens_are_to_be_shown,
    replies_tell_the_rate_of_the_active_schedule,
};
use crate::laws::screens_are_found_by_name;
use crate::query::{first_failure, good_values, named_values, values_hash};
use crate::render::Depth;
use crate::reply::Request;
use crate::state::StateView;
use crate::text::decimal;
use vstd::prelude::*;

verus! {

/// A configured device is served the screen of its turn. It is told the refresh rate of
/// the schedule that is active and a name for the image that is made of the hash of the
/// inputs. The page that it fetches within the hour has the source of that screen, is in
/// four grays if and only if the screen is to be, and is told the values of its inputs.
/// Asked for again, the image is not found.
pub proof fn devices_are_served_the_screen_of_their_turn(
    before: StateView,
    request: Request,
    m: Moment,
    device: Device,
    playlist: Playlist,
    screen: Screen,
    turn: usize,
    k: int,
    results: Seq<Result<String, config::Error>>,
    elapsed: u128,
    random: u64,
    later: u128,
    again: u128,
)
    requires
        before.config.device_with_mac(request.mac@) == Some(device),
        before.config.playlist_at(before.config.local_clock_at(m.seconds)) == Some(playlist),
        turn == (if before.indices.contains_key(request.mac@) {
            before.indices[request.mac@]
        } else {
            0
        }),
        playlist.screen@.len() > 0,
        before.config.screen_named(
            playlist.screen@[turn as int % playlist.screen@.len() as int]@,
        ) == Some(screen),
        0 <= k <= before.config.schedule@.len(),
        ({
            let at = before.config.local_clock_at(m.seconds);
            let time = (at.hour * 3600 + at.minute * 60) as u32;
            &&& forall|j: int|
                0 <= j < k ==> !(#[trigger] before.config.schedule@[j]).applies_at(
                    at.weekday,
                    time,
                )
            &&& k < before.config.schedule@.len() ==> before.config.schedule@[k].applies_at(
                at.weekday,
                time,
            )
        }),
        first_failure(results) is None,
        later < elapsed + 3_600_000_000_000,
    ensures
        ({
            let mac = request.mac@;
            let schedules = before.config.schedule@;
            let input = screen@.input;
            let values = good_values(results);
            let (asked, step) = display_outcome(before, request, m);
            &&& step matches DisplayStepView::Query(pending)
            &&& {
                let (queried, reply) = display_finish_outcome(
                    asked,
                    request,
                    pending,
                    results,
                    elapsed,
                    random,
                );
                let (fetched, outcome) = screen_outcome(queried, mac, later);
                &&& reply.refresh_rate == (if k < schedules.len()
                    && schedules[k].refresh_rate is Some {
                    schedules[k].refresh_rate->0
                } else {
                    before.config.default_refresh_rate
                })
                &&& reply.filename == decimal(values_hash(input, values) as nat) + ".png"@
                &&& outcome matches Ok(page)
                &&& page.depth == (if screen.option@.contains(ScreenOption::Grayscale) {
                    Depth::Bit2
                } else {
                    Depth::Bit1
                })
                &&& page.inputs == named_values(input, values, input.len() as int).insert(
                    "tymnl-internal"@,
                    pending.device_inputs.json(),
                )
                &&& page.timezone == effective(before.config.timezone@)
                &&& match screen.script {
                    ScreenScript::File(path) => page.source == PageSourceView::File(path@),
                    ScreenScript::Inline(text) => page.source == PageSourceView::Text(text@),
                    ScreenScript::Cached(text) => page.source == PageSourceView::Text(text@),
                }
                &&& screen_outcome(fetched, mac, again).1 is Err
                &&& screen_outcome(fetched, mac, again).1->Err_0 == 404
            }
        }),
{
    known_devices_have_their_turn(before, request, m, device, playlist, screen, turn);
    let (asked, step) = display_outcome(before, request, m);
    let pending = step->Query_0;
    replies_tell_the_rate_of_the_active_schedule(
        before,
        request,
        m,
        k,
        asked,
        results,
        elapsed,
        random,
    );
    queried_screens_are_to_be_shown(asked, request, pending, results, elapsed, random);
    screens_are_found_by_name(
        before.config,
        playlist.screen@[turn as int % playlist.screen@.len() as int]@,
    );
}

}
