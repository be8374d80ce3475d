//! Screens by value, and getting hold of their sources.

use crate::config::{
    Config, Input, InputOption, InputType, Screen, ScreenOption, ScreenScript,
};
use vstd::prelude::*;
use vstd::string::StringExecFns;

verus! {

/// What an `InputType` says.
pub enum InputTypeView {
    File(Seq<char>),
    Url(Seq<char>),
    Shell(Seq<char>),
}

/// What an `Input` says.
#[verifier::ext_equal]
pub struct InputView {
    pub name: Seq<char>,
    pub typ: InputTypeView,
    pub option: Seq<InputOption>,
}

/// What a `ScreenScript` says.
pub enum ScriptView {
    File(Seq<char>),
    Inline(Seq<char>),
    Cached(Seq<char>),
}

/// What a `Screen` says.
#[verifier::ext_equal]
pub struct ScreenView {
    pub name: Seq<char>,
    pub script: ScriptView,
    pub input: Seq<InputView>,
    pub option: Seq<ScreenOption>,
}

impl View for InputType {
    type V = InputTypeView;

    open spec fn view(&self) -> InputTypeView {
        match *self {
            InputType::File(path) => InputTypeView::File(path@),
            InputType::Url(url) => InputTypeView::Url(url@),
            InputType::Shell(command) => InputTypeView::Shell(command@),
        }
    }
}

impl View for Input {
    type V = InputView;

    open spec fn view(&self) -> InputView {
        InputView { name: self.name@, typ: self.typ@, option: self.option@ }
    }
}

impl View for ScreenScript {
    type V = ScriptView;

    open spec fn view(&self) -> ScriptView {
        match *self {
            ScreenScript::File(path) => ScriptView::File(path@),
            ScreenScript::Inline(source) => ScriptView::Inline(source@),
            ScreenScript::Cached(source) => ScriptView::Cached(source@),
        }
    }
}

impl View for Screen {
    type V = ScreenView;

    open spec fn view(&self) -> ScreenView {
        ScreenView {
            name: self.name@,
            script: self.script@,
            input: self.input@.map_values(|i: Input| i@),
            option: self.option@,
        }
    }
}

impl Clone for InputType {
    fn clone(&self) -> (r: Self)
        ensures
            r@ == self@,
    {
        match self {
            InputType::File(path) => InputType::File(path.clone()),
            InputType::Url(url) => InputType::Url(url.clone()),
            InputType::Shell(command) => InputType::Shell(command.clone()),
        }
    }
}

impl Clone for Input {
    fn clone(&self) -> (r: Self)
        ensures
            r@ == self@,
    {
        let option = self.option.clone();
        assert(option@ =~= self.option@);
        Input { name: self.name.clone(), typ: self.typ.clone(), option }
    }
}

impl Clone for ScreenScript {
    fn clone(&self) -> (r: Self)
        ensures
            r@ == self@,
    {
        match self {
            ScreenScript::File(path) => ScreenScript::File(path.clone()),
            ScreenScript::Inline(source) => ScreenScript::Inline(source.clone()),
            ScreenScript::Cached(source) => ScreenScript::Cached(source.clone()),
        }
    }
}

impl Clone for Screen {
    fn clone(&self) -> (r: Self)
        ensures
            r@ == self@,
    {
        let mut input: Vec<Input> = Vec::new();
        for i in 0..self.input.len()
            invariant
                input@.len() == i,
                forall|j: int| 0 <= j < i ==> (#[trigger] input@[j])@ == self.input@[j]@,
        {
            input.push(self.input[i].clone());
        }
        let option = self.option.clone();
        assert(option@ =~= self.option@);
        let r = Screen { name: self.name.clone(), script: self.script.clone(), input, option };
        assert(r@.input =~= self@.input);
        r
    }
}

/// A source that is at hand, or the file to read it from.
#[derive(Debug)]
pub enum Source {
    Text(String),
    File(String),
}

impl Screen {
    /// The source of the screen, or the file that holds it.
    pub fn script(&self) -> (r: Source)
        ensures
            match self.script@ {
                ScriptView::File(path) => r matches Source::File(p) && p@ == path,
                ScriptView::Inline(text) => r matches Source::Text(t) && t@ == text,
                ScriptView::Cached(text) => r matches Source::Text(t) && t@ == text,
            },
    {
        match &self.script {
            ScreenScript::File(path) => Source::File(path.clone()),
            ScreenScript::Inline(text) => Source::Text(text.clone()),
            ScreenScript::Cached(text) => Source::Text(text.clone()),
        }
    }
}

/// How many of the first `n` screens have their source in a file.
pub open spec fn files_before(screens: Seq<Screen>, n: int) -> nat
    decreases n,
{
    if n <= 0 {
        0
    } else {
        files_before(screens, n - 1) + if screens[n - 1].script is File {
            1nat
        } else {
            0nat
        }
    }
}

/// The script of a screen once its source is at hand: the text of its file, or
/// the preamble with what was written in place. `file` is how many files come
/// before.
pub open spec fn loaded(
    script: ScriptView,
    preamble: Seq<char>,
    texts: Seq<String>,
    file: nat,
) -> ScriptView {
    match script {
        ScriptView::File(_) => ScriptView::Cached(texts[file as int]@),
        ScriptView::Inline(text) => ScriptView::Cached(preamble + text),
        ScriptView::Cached(text) => ScriptView::Cached(text),
    }
}

proof fn lemma_files_before(screens: Seq<Screen>, m: int, n: int)
    requires
        0 <= m <= n,
    ensures
        files_before(screens, m) <= files_before(screens, n) <= n,
        files_before(screens, n) <= files_before(screens, m) + (n - m),
    decreases n,
{
    if m < n {
        lemma_files_before(screens, m, n - 1);
    } else if n > 0 {
        lemma_files_before(screens, n - 1, n - 1);
    }
}

proof fn lemma_no_files(screens: Seq<Screen>, n: int)
    requires
        0 <= n <= screens.len(),
        forall|i: int| 0 <= i < n ==> (#[trigger] screens[i])@.script is Cached,
    ensures
        files_before(screens, n) == 0,
    decreases n,
{
    if n > 0 {
        lemma_no_files(screens, n - 1);
        assert(screens[n - 1]@.script is Cached);
    }
}

impl Config {
    /// The files that sources are to be read from, in the order of the screens.
    pub fn script_files(&self) -> (r: Vec<String>)
        ensures
            r@.len() == files_before(self.screen@, self.screen@.len() as int),
            forall|i: int|
                0 <= i < self.screen@.len() ==> match (#[trigger] self.screen@[i]).script@ {
                    ScriptView::File(path) => {
                        &&& files_before(self.screen@, i) < r@.len()
                        &&& r@[files_before(self.screen@, i) as int]@ == path
                    },
                    _ => true,
                },
    {
        let mut r: Vec<String> = Vec::new();
        for k in 0..self.screen.len()
            invariant
                r@.len() == files_before(self.screen@, k as int),
                forall|i: int|
                    0 <= i < k ==> match (#[trigger] self.screen@[i]).script@ {
                        ScriptView::File(path) => {
                            &&& files_before(self.screen@, i) < r@.len()
                            &&& r@[files_before(self.screen@, i) as int]@ == path
                        },
                        _ => true,
                    },
        {
            match &self.screen[k].script {
                ScreenScript::File(path) => {
                    r.push(path.clone());
                },
                _ => {},
            }
        }
        r
    }

    /// Puts the sources of all screens at hand, so that no file is needed any more.
    /// `texts` holds what the files of
    /// `script_files` hold, in the same order.
    pub fn load(&mut self, preamble: &str, texts: Vec<String>)
        requires
            texts@.len() == files_before(old(self).screen@, old(self).screen@.len() as int),
        ensures
            final(self).screen@.len() == old(self).screen@.len(),
            files_before(final(self).screen@, final(self).screen@.len() as int) == 0,
            forall|i: int|
                0 <= i < old(self).screen@.len() ==> (#[trigger] final(self).screen@[i])@ == (
                ScreenView {
                    script: loaded(
                        old(self).screen@[i]@.script,
                        preamble@,
                        texts@,
                        files_before(old(self).screen@, i),
                    ),
                    ..old(self).screen@[i]@
                }),
            final(self).device == old(self).device,
            final(self).playlist == old(self).playlist,
            final(self).schedule == old(self).schedule,
            final(self).default_playlist == old(self).default_playlist,
            final(self).default_refresh_rate == old(self).default_refresh_rate,
            final(self).timezone == old(self).timezone,
    {
        let ghost start = *self;
        let mut file: usize = 0;
        let n: usize = self.screen.len();
        for k in 0..n
            invariant
                n == start.screen@.len(),
                self.screen@.len() == n,
                file == files_before(start.screen@, k as int),
                texts@.len() == files_before(start.screen@, n as int),
                forall|i: int| k <= i < n ==> self.screen@[i] == start.screen@[i],
                forall|i: int|
                    0 <= i < k ==> (#[trigger] self.screen@[i])@ == (ScreenView {
                        script: loaded(
                            start.screen@[i]@.script,
                            preamble@,
                            texts@,
                            files_before(start.screen@, i),
                        ),
                        ..start.screen@[i]@
                    }),
                self.device == start.device,
                self.playlist == start.playlist,
                self.schedule == start.schedule,
                self.default_playlist == start.default_playlist,
                self.default_refresh_rate == start.default_refresh_rate,
                self.timezone == start.timezone,
        {
            proof {
                lemma_files_before(start.screen@, k + 1, n as int);
            }
            let script = match &self.screen[k].script {
                ScreenScript::File(_) => {
                    file = file + 1;
                    ScreenScript::Cached(texts[file - 1].clone())
                },
                ScreenScript::Inline(text) => {
                    let mut source = preamble.to_owned();
                    source.append(text.as_str());
                    ScreenScript::Cached(source)
                },
                ScreenScript::Cached(text) => ScreenScript::Cached(text.clone()),
            };
            self.screen[k].script = script;
        }
        proof {
            lemma_no_files(self.screen@, n as int);
        }
    }
}

}
