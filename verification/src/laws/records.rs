//! What values say: the ghost form of each type holds all that the type holds.

use crate::config::{self, Input, InputType, Screen, ScreenScript};
use crate::device::DeviceInputs;
use crate::handlers::{
    page_or_status, screen_or_error, DisplayStep, DisplayStepView, Moment, Page, PageSource,
    PageSourceView, Pending,
};
use crate::loading::{InputTypeView, ScriptView};
use crate::query::texts;
use crate::render;
use crate::reply::{DisplayReply, SetupReply};
use crate::state::{self, shown, AppState, NextScreen, NextScreenView};
use crate::table::{entry_map, key_at, lemma_entry_at};
use vstd::prelude::*;

verus! {

/// What is said of a screen is its name, its source, its inputs in their order,
/// and its options.
pub proof fn screens_say_all(screen: Screen)
    ensures
        screen@.name == screen.name@,
        screen@.script == screen.script@,
        screen@.option == screen.option@,
        screen@.input.len() == screen.input@.len(),
        forall|i: int|
            0 <= i < screen.input@.len() ==> #[trigger] screen@.input[i] == screen.input@[i]@,
{
}

/// What is said of an input is its name, where it comes from, and its options.
pub proof fn inputs_say_all(input: Input)
    ensures
        input@.name == input.name@,
        input@.option == input.option@,
        match input.typ {
            InputType::File(path) => input@.typ == InputTypeView::File(path@),
            InputType::Url(url) => input@.typ == InputTypeView::Url(url@),
            InputType::Shell(command) => input@.typ == InputTypeView::Shell(command@),
        },
{
}

/// What is said of a source is of which kind it is, and its text.
pub proof fn sources_say_all(script: ScreenScript)
    ensures
        match script {
            ScreenScript::File(path) => script@ == ScriptView::File(path@),
            ScreenScript::Inline(text) => script@ == ScriptView::Inline(text@),
            ScreenScript::Cached(text) => script@ == ScriptView::Cached(text@),
        },
{
}

/// What is said of the inputs of a device, of a step and of replies.
pub proof fn steps_say_all(
    inputs: DeviceInputs,
    pending: Pending,
    reply: DisplayReply,
    setup: SetupReply,
)
    ensures
        inputs@.screen_name == inputs.screen_name@,
        inputs@.battery_percentage == inputs.battery_percentage@,
        inputs@.id == inputs.id@,
        inputs@.next_update_at == inputs.next_update_at@,
        pending@.screen == pending.screen@,
        pending@.device_inputs == pending.device_inputs@,
        pending@.refresh_rate == pending.refresh_rate,
        reply@.image_url == reply.image_url@,
        reply@.filename == reply.filename@,
        reply@.refresh_rate == reply.refresh_rate,
        setup@.friendly_id == setup.friendly_id@,
        setup@.image_url == setup.image_url@,
        setup@.message == setup.message@,
        DisplayStep::Reply(reply)@ == DisplayStepView::Reply(reply@),
        DisplayStep::Query(pending)@ == DisplayStepView::Query(pending@),
{
}

/// What is said of a page is its source, its inputs, its depth and its time zone.
pub proof fn pages_say_all(page: Page, status: u16)
    ensures
        page@.inputs == texts(page.inputs@),
        page@.depth == page.depth,
        page@.timezone == page.timezone@,
        match page.source {
            PageSource::ErrorTemplate => page@.source == PageSourceView::ErrorTemplate,
            PageSource::WelcomeTemplate => page@.source == PageSourceView::WelcomeTemplate,
            PageSource::Text(text) => page@.source == PageSourceView::Text(text@),
            PageSource::File(path) => page@.source == PageSourceView::File(path@),
        },
        page_or_status(Ok(page)) == Ok::<crate::handlers::PageView, u16>(page@),
        page_or_status(Err(status)) == Err::<crate::handlers::PageView, u16>(status),
{
}

/// What is said of strings by key is their text, under the same keys.
pub proof fn texts_say_all(m: Map<Seq<char>, String>, key: Seq<char>)
    ensures
        texts(m).contains_key(key) <==> m.contains_key(key),
        m.contains_key(key) ==> texts(m)[key] == m[key]@,
{
}

/// What is said of what a device is to be shown next.
pub proof fn next_screens_say_all(
    next: NextScreen,
    screens: Map<Seq<char>, (u128, NextScreen)>,
    mac: Seq<char>,
)
    ensures
        match next {
            NextScreen::Image { name, inputs } => next@ == (NextScreenView::Image {
                name: name@,
                inputs: texts(inputs@),
            }),
            NextScreen::Error { error, inputs } => next@ == (NextScreenView::Error {
                error: error@,
                inputs: texts(inputs@),
            }),
            NextScreen::Welcome { inputs } => next@ == (NextScreenView::Welcome {
                inputs: texts(inputs@),
            }),
        },
        shown(screens).contains_key(mac) <==> screens.contains_key(mac),
        screens.contains_key(mac) ==> shown(screens)[mac].0 == screens[mac].0 && shown(
            screens,
        )[mac].1 == screens[mac].1@,
{
}

/// What is said of the state is its configuration, the turns of each device, and
/// what each is to be shown next, with its stamp.
pub proof fn states_say_all(state: AppState)
    ensures
        state@.config == state.config,
        state@.indices == state.playlist_indices@,
        state@.screens == shown(state.next_screens@),
{
}

/// What is said of an error is of which kind it is, and all that comes with it.
pub proof fn errors_say_all(config: config::Error, render: render::Error, state: state::Error)
    ensures
        match config {
            config::Error::Io(s) => config@ == config::ErrorView::Io(s@),
            config::Error::Deserialize(s) => config@ == config::ErrorView::Deserialize(s@),
            config::Error::FetchUrl(s) => config@ == config::ErrorView::FetchUrl(s@),
            config::Error::UrlStatusCode { status, url } => config@ == (
            config::ErrorView::UrlStatusCode { status, url: url@ }),
            config::Error::CommandFailed { command, exit_code, stderr } => config@ == (
            config::ErrorView::CommandFailed { command: command@, exit_code, stderr: stderr@ }),
            config::Error::Utf8(s) => config@ == config::ErrorView::Utf8(s@),
        },
        match render {
            render::Error::Io(s) => render@ == render::ErrorView::Io(s@),
            render::Error::Encoding(s) => render@ == render::ErrorView::Encoding(s@),
            render::Error::Typst(s) => render@ == render::ErrorView::Typst(s@),
        },
        match state {
            state::Error::NoActivePlaylist => state@ == state::ErrorView::NoActivePlaylist,
            state::Error::NoScreen(s) => state@ == state::ErrorView::NoScreen(s@),
            state::Error::Query(e) => state@ == state::ErrorView::Query(e@),
            state::Error::Render(e) => state@ == state::ErrorView::Render(e@),
            state::Error::Unknown => state@ == state::ErrorView::Unknown,
        },
{
}

/// A screen that was found is told of as it is, and so is what stood in the way.
pub proof fn findings_say_all(screen: Screen, error: state::Error)
    ensures
        screen_or_error(Ok(screen)) matches Ok(said) && said == screen@,
        screen_or_error(Err(error)) matches Err(said) && said == error@,
{
}

/// A table holds the value of each of its entries under the key of that entry, and
/// nothing else.
pub proof fn tables_hold_their_entries<V>(entries: Seq<(String, V)>, key: Seq<char>)
    requires
        forall|i: int, j: int|
            0 <= i < entries.len() && 0 <= j < entries.len() && i != j ==> (
            #[trigger] entries[i]).0@ != (#[trigger] entries[j]).0@,
    ensures
        forall|i: int|
            0 <= i < entries.len() && (#[trigger] entries[i]).0@ == key ==> entry_map(
                entries,
            ).contains_key(key) && entry_map(entries)[key] == entries[i].1,
        entry_map(entries).contains_key(key) ==> exists|i: int|
            0 <= i < entries.len() && (#[trigger] entries[i]).0@ == key,
{
    assert forall|i: int| 0 <= i < entries.len() && (#[trigger] entries[i]).0@ == key implies entry_map(
        entries,
    ).contains_key(key) && entry_map(entries)[key] == entries[i].1 by {
        lemma_entry_at(entries, i);
    }
    if entry_map(entries).contains_key(key) {
        let i = choose|i: int| key_at(entries, i, key);
        assert(entries[i].0@ == key);
    }
}

/// A moment can be dealt with if its second is not before the year 1970 nor after the
/// last that there is.
pub proof fn moments_are_seconds(m: Moment)
    ensures
        m.is_valid() <==> 0 <= m.seconds <= 8_210_266_876_799,
{
}

}
