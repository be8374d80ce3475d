//! Inputs: what a query gives, and what the values of a screen come to.

use crate::config::{Error, ErrorView, InputOption, Screen};
use crate::loading::InputView;
use crate::table::Table;
use crate::text::{first, lemma_first_at, lemma_first_none};
use std::collections::hash_map::DefaultHasher;
use std::hash::{Hash, Hasher};
use vstd::prelude::*;
#[allow(unused_imports)]
use vstd::std_specs::hash::DefaultHasherAdditionalSpecFns;
use vstd::utf8::{decode_utf8, valid_utf8};

verus! {

/// The named values that a screen is rendered with.
pub type Inputs = Table<String>;

/// The texts of a map of strings.
pub open spec fn texts(m: Map<Seq<char>, String>) -> Map<Seq<char>, Seq<char>> {
    m.map_values(|s: String| s@)
}

/// Putting a string into a map puts its text into the map of texts.
pub proof fn lemma_texts_insert(m: Map<Seq<char>, String>, k: Seq<char>, v: String)
    ensures
        texts(m.insert(k, v)) == texts(m).insert(k, v@),
{
    assert(texts(m.insert(k, v)) =~= texts(m).insert(k, v@));
}

// ------------------------------------------------------------ single queries

/// What a server sent counts only if its status is a success, from 200 to 299.
pub fn check_status(status: u16, url: String) -> (r: Result<(), Error>)
    ensures
        r is Ok <==> 200 <= status < 300,
        r matches Err(e) ==> e == (Error::UrlStatusCode { status, url }),
{
    if 200 <= status && status < 300 {
        Ok(())
    } else {
        Err(Error::UrlStatusCode { status, url })
    }
}

/// What is said of bytes that are not UTF-8.
pub uninterp spec fn utf8_complaint(bytes: Seq<u8>) -> Seq<char>;

/// Bytes as text, with replacement characters for what is not UTF-8.
pub uninterp spec fn lossy_text(bytes: Seq<u8>) -> Seq<char>;

/// `String::from_utf8`: the text that bytes encode, or, where they are not UTF-8,
/// the message of the error.
#[verifier::external_body]
fn from_utf8(bytes: Vec<u8>) -> (r: Result<String, String>)
    ensures
        r matches Ok(s) ==> valid_utf8(bytes@) && s@ == decode_utf8(bytes@),
        r matches Err(e) ==> !valid_utf8(bytes@) && e@ == utf8_complaint(bytes@),
{
    String::from_utf8(bytes).map_err(|e| e.to_string())
}

/// `String::from_utf8_lossy`: a text for any bytes, the one that they encode
/// where they are UTF-8.
#[verifier::external_body]
fn from_utf8_lossy(bytes: &[u8]) -> (r: String)
    ensures
        r@ == lossy_text(bytes@),
        valid_utf8(bytes@) ==> r@ == decode_utf8(bytes@),
{
    String::from_utf8_lossy(bytes).into_owned()
}

/// What a shell command comes to: its output if it succeeded and wrote UTF-8.
pub fn command_outcome(
    command: &str,
    success: bool,
    exit_code: Option<i32>,
    stdout: Vec<u8>,
    stderr: Vec<u8>,
) -> (r: Result<String, Error>)
    ensures
        r is Ok <==> success && valid_utf8(stdout@),
        r matches Ok(s) ==> s@ == decode_utf8(stdout@),
        r matches Err(e) ==> e@ == if success {
            ErrorView::Utf8(utf8_complaint(stdout@))
        } else {
            ErrorView::CommandFailed {
                command: command@,
                exit_code,
                stderr: lossy_text(stderr@),
            }
        },
        !success && valid_utf8(stderr@) ==> (r matches Err(e) && e@ == (ErrorView::CommandFailed {
            command: command@,
            exit_code,
            stderr: decode_utf8(stderr@),
        })),
{
    if !success {
        let stderr = from_utf8_lossy(stderr.as_slice());
        return Err(Error::CommandFailed { command: command.to_owned(), exit_code, stderr });
    }
    match from_utf8(stdout) {
        Ok(output) => Ok(output),
        Err(message) => Err(Error::Utf8(message)),
    }
}

// -------------------------------------------------------- all of a screen's

/// What the hash of a string writes to a hasher.
pub uninterp spec fn hash_writes(s: Seq<char>) -> Seq<Seq<u8>>;

/// `<str as std::hash::Hash>::hash`: writes to the hasher what the string alone
/// determines.
#[verifier::external_body]
fn hash_text(s: &str, hasher: &mut DefaultHasher)
    ensures
        final(hasher)@ == old(hasher)@ + hash_writes(s@),
{
    s.hash(hasher)
}

/// The values of the first `n` inputs by name. Of two inputs of one name the
/// later counts.
pub open spec fn named_values(
    inputs: Seq<InputView>,
    values: Seq<Seq<char>>,
    n: int,
) -> Map<Seq<char>, Seq<char>>
    decreases n,
{
    if n <= 0 {
        Map::empty()
    } else {
        named_values(inputs, values, n - 1).insert(inputs[n - 1].name, values[n - 1])
    }
}

/// What the first `n` inputs write to the hasher: name and value of each that is
/// not marked `NoHash`.
pub open spec fn hashed_values(
    inputs: Seq<InputView>,
    values: Seq<Seq<char>>,
    n: int,
) -> Seq<Seq<u8>>
    decreases n,
{
    if n <= 0 {
        Seq::empty()
    } else {
        let before = hashed_values(inputs, values, n - 1);
        if inputs[n - 1].option.contains(InputOption::NoHash) {
            before
        } else {
            before + hash_writes(inputs[n - 1].name) + hash_writes(values[n - 1])
        }
    }
}

/// The hash of a screen's values.
pub open spec fn values_hash(inputs: Seq<InputView>, values: Seq<Seq<char>>) -> u64 {
    DefaultHasher::spec_finish(hashed_values(inputs, values, inputs.len() as int))
}

/// The texts of results that are all good.
pub open spec fn good_values(results: Seq<Result<String, Error>>) -> Seq<Seq<char>> {
    results.map_values(|r: Result<String, Error>| r->Ok_0@)
}

/// The first result that is an error.
pub open spec fn first_failure(results: Seq<Result<String, Error>>) -> Option<
    Result<String, Error>,
> {
    first(results, |r: Result<String, Error>| r is Err)
}

impl Screen {
    /// Puts together what the queries of all inputs gave, in the order of the
    /// inputs: the values by name, and a hash of those that are not marked
    /// `NoHash`. The first failure, if there is one, is the outcome.
    pub fn query_inputs(&self, results: Vec<Result<String, Error>>) -> (r: Result<
        (Inputs, u64),
        Error,
    >)
        requires
            results@.len() == self.input@.len(),
        ensures
            r is Ok <==> first_failure(results@) is None,
            r matches Ok((inputs, hash)) ==> {
                &&& texts(inputs@) == named_values(
                    self@.input,
                    good_values(results@),
                    self.input@.len() as int,
                )
                &&& hash == values_hash(self@.input, good_values(results@))
            },
            r matches Err(e) ==> first_failure(results@) == Some(Err::<String, Error>(e)),
    {
        let ghost all = results@;
        let ghost values = good_values(all);
        let ghost failed = |r: Result<String, Error>| r is Err;
        let mut rest = results;
        let mut hasher = DefaultHasher::new();
        let mut inputs: Inputs = Table::new();
        let mut i: usize = 0;
        assert(rest@ =~= all.skip(0));
        assert(texts(inputs@) =~= Map::<Seq<char>, Seq<char>>::empty());
        while i < self.input.len()
            invariant
                i <= self.input@.len(),
                all == results@,
                all.len() == self.input@.len(),
                values == good_values(all),
                failed == |r: Result<String, Error>| r is Err,
                rest@ == all.skip(i as int),
                forall|j: int| 0 <= j < i ==> !failed(#[trigger] all[j]),
                texts(inputs@) == named_values(self@.input, values, i as int),
                hasher@ == hashed_values(self@.input, values, i as int),
            decreases self.input@.len() - i,
        {
            let result = rest.remove(0);
            assert(result == all[i as int]);
            assert(rest@ =~= all.skip(i + 1));
            match result {
                Ok(value) => {
                    let input = &self.input[i];
                    assert(values[i as int] == value@);
                    assert(self@.input[i as int] == input@);
                    if !input.has_option(InputOption::NoHash) {
                        hash_text(input.name.as_str(), &mut hasher);
                        hash_text(value.as_str(), &mut hasher);
                    }
                    proof {
                        lemma_texts_insert(inputs@, input.name@, value);
                    }
                    inputs.insert(input.name.clone(), value);
                },
                Err(e) => {
                    proof {
                        lemma_first_at(all, failed, i as int);
                    }
                    return Err(e);
                },
            }
            i = i + 1;
        }
        proof {
            lemma_first_none(all, failed);
        }
        Ok((inputs, hasher.finish()))
    }
}

}
