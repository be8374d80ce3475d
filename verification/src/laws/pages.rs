//! What holds of the pages that are served.

use crate::clock::effective;
use crate::config::{Config, Screen, ScreenOption, ScreenScript};
use crate::handlers::{
    depth_of, error_inputs, error_outcome, error_page, page_source_of, render_error_inputs,
    screen_outcome, screen_page_of, welcome_outcome, PageSourceView, PageView,
};
use crate::loading::{ScreenView, ScriptView};
use crate::render::Depth;
use crate::state::{ErrorView, NextScreenView, StateView};
use vstd::prelude::*;

verus! {

/// The page of a screen is in four grays if and only if the screen has the option
/// for it, and else in black and white, wherever its source is. Its source is the one
/// of the screen, and it is told the inputs in the time zone of the configuration.
pub proof fn pages_of_screens_are_as_the_screen_says(
    config: Config,
    screen: ScreenView,
    inputs: Map<Seq<char>, Seq<char>>,
)
    ensures
        ({
            let page = screen_page_of(config, screen, inputs);
            let gray = exists|i: int|
                0 <= i < screen.option.len() && #[trigger] screen.option[i]
                    == ScreenOption::Grayscale;
            &&& gray ==> page.depth == Depth::Bit2
            &&& !gray ==> page.depth == Depth::Bit1
            &&& gray ==> depth_of(screen.option) == Depth::Bit2
            &&& !gray ==> depth_of(screen.option) == Depth::Bit1
            &&& page.inputs == inputs
            &&& page.timezone == effective(config.timezone@)
            &&& match screen.script {
                ScriptView::File(path) => page.source == PageSourceView::File(path),
                ScriptView::Inline(text) => page.source == PageSourceView::Text(text),
                ScriptView::Cached(text) => page.source == PageSourceView::Text(text),
            }
            &&& page.source == page_source_of(screen.script)
        }),
{
    let option = screen.option;
    if option.contains(ScreenOption::Grayscale) {
        let i = choose|i: int| 0 <= i < option.len() && option[i] == ScreenOption::Grayscale;
        assert(option[i] == ScreenOption::Grayscale);
    }
}

/// Where a device was put down for a screen, the page that is served within the hour
/// is the one of that screen as it is configured then: its source, its depth, and the
/// inputs that were put down. A screen that is no longer configured, and anything else
/// than a screen, is a failure, and what is not there, or too old, is not found.
pub proof fn the_screen_that_was_put_down_is_served(
    before: StateView,
    mac: Seq<char>,
    elapsed: u128,
)
    ensures
        ({
            let (after, outcome) = screen_outcome(before, mac, elapsed);
            let there = before.screens.contains_key(mac) && elapsed < before.screens[mac].0
                + 3_600_000_000_000;
            &&& after == before.cleaned(elapsed).taken(mac)
            &&& !there ==> outcome == Err::<PageView, u16>(404)
            &&& there ==> match before.screens[mac].1 {
                NextScreenView::Image { name, inputs } => match before.config.screen_named(name) {
                    Some(screen) => {
                        &&& outcome matches Ok(page)
                        &&& page.inputs == inputs
                        &&& page.depth == (if screen.option@.contains(ScreenOption::Grayscale) {
                            Depth::Bit2
                        } else {
                            Depth::Bit1
                        })
                        &&& page.timezone == effective(before.config.timezone@)
                        &&& match screen.script {
                            ScreenScript::File(path) => page.source == PageSourceView::File(path@),
                            ScreenScript::Inline(text) => page.source == PageSourceView::Text(text@),
                            ScreenScript::Cached(text) => page.source == PageSourceView::Text(text@),
                        }
                    },
                    None => outcome == Err::<PageView, u16>(500),
                },
                NextScreenView::Error { error, inputs } => outcome == Err::<PageView, u16>(500),
                NextScreenView::Welcome { inputs } => outcome == Err::<PageView, u16>(500),
            }
        }),
{
    if before.screens.contains_key(mac) {
        if let NextScreenView::Image { name, inputs } = before.screens[mac].1 {
            if let Some(screen) = before.config.screen_named(name) {
                pages_of_screens_are_as_the_screen_says(before.config, screen@, inputs);
            }
        }
    }
}

/// The page that is served is in four grays if and only if the screen that was put
/// down has the option for it.
pub proof fn served_pages_have_the_depth_of_the_screen(
    before: StateView,
    mac: Seq<char>,
    elapsed: u128,
    name: Seq<char>,
    inputs: Map<Seq<char>, Seq<char>>,
    screen: Screen,
)
    requires
        before.screens.contains_key(mac),
        elapsed < before.screens[mac].0 + 3_600_000_000_000,
        before.screens[mac].1 == (NextScreenView::Image { name, inputs }),
        before.config.screen_named(name) == Some(screen),
    ensures
        ({
            let (_, outcome) = screen_outcome(before, mac, elapsed);
            let gray = screen.option@.contains(ScreenOption::Grayscale);
            &&& outcome matches Ok(page)
            &&& page.depth == Depth::Bit2 <==> gray
            &&& page.depth == Depth::Bit1 <==> !gray
            &&& page.inputs == inputs
            &&& screen@.script matches ScriptView::Cached(text) ==> page.source
                == PageSourceView::Text(text)
        }),
{
}

/// Pages about errors are laid out from their template in four grays, in the time
/// zone of the configuration.
pub proof fn error_pages_are_in_grays(config: Config, inputs: Map<Seq<char>, Seq<char>>)
    ensures
        ({
            let page = error_page(config, inputs);
            &&& page.source is ErrorTemplate
            &&& page.depth == Depth::Bit2
            &&& page.inputs == inputs
            &&& page.timezone == effective(config.timezone@)
        }),
{
}

/// The error page of a device is told what was put down for it, and the error in
/// words where that says nothing of it. Where nothing was put down, or too long ago,
/// the error is not known. What was put down is taken.
pub proof fn the_error_page_tells_the_error(
    before: StateView,
    mac: Seq<char>,
    elapsed: u128,
    other: Seq<char>,
)
    ensures
        ({
            let (after, page) = error_outcome(before, mac, elapsed);
            let there = before.screens.contains_key(mac) && elapsed < before.screens[mac].0
                + 3_600_000_000_000;
            &&& after == before.cleaned(elapsed).taken(mac)
            &&& page.source is ErrorTemplate
            &&& page.depth == Depth::Bit2
            &&& page.timezone == effective(before.config.timezone@)
            &&& !there ==> page.inputs.contains_key("error"@) && page.inputs["error"@]
                == "unknown error"@ && (page.inputs.contains_key(other) ==> other == "error"@)
            &&& there ==> match before.screens[mac].1 {
                NextScreenView::Image { name, inputs } => page.inputs == inputs,
                NextScreenView::Welcome { inputs } => page.inputs == inputs,
                NextScreenView::Error { error, inputs } => {
                    &&& inputs.contains_key("error"@) ==> page.inputs == inputs
                    &&& !inputs.contains_key("error"@) ==> page.inputs == inputs.insert(
                        "error"@,
                        error.message(),
                    )
                },
            }
        }),
{
}

/// What an error page is told of something else than an error is what was put down
/// for it.
pub proof fn errors_are_put_into_words_once(
    error: ErrorView,
    inputs: Map<Seq<char>, Seq<char>>,
    name: Seq<char>,
)
    ensures
        error_inputs(NextScreenView::Error { error, inputs }).contains_key("error"@),
        !inputs.contains_key("error"@) ==> error_inputs(
            NextScreenView::Error { error, inputs },
        )["error"@] == error.message(),
        inputs.contains_key(name) ==> error_inputs(NextScreenView::Error { error, inputs })[name]
            == inputs[name],
        error_inputs(NextScreenView::Image { name, inputs }) == inputs,
        error_inputs(NextScreenView::Welcome { inputs }) == inputs,
{
}

/// The welcome page of a device is laid out from its template in black and white. It
/// is told what was put down for it, if that was meant for the welcome page and is
/// less than an hour old, and nothing otherwise. What was put down is taken.
pub proof fn the_welcome_page_tells_what_was_put_down(
    before: StateView,
    mac: Seq<char>,
    elapsed: u128,
)
    ensures
        ({
            let (after, page) = welcome_outcome(before, mac, elapsed);
            let there = before.screens.contains_key(mac) && elapsed < before.screens[mac].0
                + 3_600_000_000_000;
            &&& after == before.cleaned(elapsed).taken(mac)
            &&& page.source is WelcomeTemplate
            &&& page.depth == Depth::Bit1
            &&& page.timezone == effective(before.config.timezone@)
            &&& if there && before.screens[mac].1 is Welcome {
                page.inputs == before.screens[mac].1->Welcome_inputs
            } else {
                page.inputs == Map::<Seq<char>, Seq<char>>::empty()
            }
        }),
{
}

/// A page about a source that cannot be laid out is told what the screen was told,
/// what it is about, and what is wrong with the source.
pub proof fn render_errors_are_told(
    inputs: Map<Seq<char>, Seq<char>>,
    message: Seq<char>,
    name: Seq<char>,
)
    ensures
        ({
            let told = render_error_inputs(inputs, message);
            &&& told.contains_key("error-title"@) && told["error-title"@] == "Render Error"@
            &&& told.contains_key("error"@) && told["error"@] == message
            &&& name != "error"@ && name != "error-title"@ ==> told.contains_key(name)
                == inputs.contains_key(name)
            &&& name != "error"@ && name != "error-title"@ && inputs.contains_key(name)
                ==> told[name] == inputs[name]
        }),
{
    reveal_strlit("error-title");
    reveal_strlit("error");
    assert("error-title"@.len() != "error"@.len());
}

}
