//! What holds of the inputs of screens and of their hash.

use crate::config::{self, InputOption};
use crate::handlers::query_outcome;
use crate::loading::{InputView, ScreenView};
use crate::query::{
    first_failure, good_values, hash_writes, hashed_values, named_values, values_hash,
};
use crate::text::{lemma_first_at, lemma_first_none};
use std::collections::hash_map::DefaultHasher;
use vstd::prelude::*;
#[allow(unused_imports)]
use vstd::std_specs::hash::DefaultHasherAdditionalSpecFns;

verus! {

/// A further input that counts adds to what is hashed its name and then its value,
/// the whole of both; one that does not count adds nothing.
pub proof fn each_input_counts_in_full(
    inputs: Seq<InputView>,
    values: Seq<Seq<char>>,
    input: InputView,
    value: Seq<char>,
)
    requires
        values.len() == inputs.len(),
    ensures
        ({
            let n = inputs.len() as int;
            let before = hashed_values(inputs, values, n);
            let after = hashed_values(inputs.push(input), values.push(value), n + 1);
            &&& input.option.contains(InputOption::NoHash) ==> after == before
            &&& !input.option.contains(InputOption::NoHash) ==> after == before + (hash_writes(
                input.name,
            ) + hash_writes(value))
            &&& hashed_values(Seq::empty(), Seq::empty(), 0) == Seq::<Seq<u8>>::empty()
            &&& values_hash(inputs, values) == DefaultHasher::spec_finish(before)
            &&& values_hash(inputs.push(input), values.push(value)) == DefaultHasher::spec_finish(
                after,
            )
        }),
{
    let n = inputs.len() as int;
    let more = inputs.push(input);
    let all = values.push(value);
    lemma_hashed_prefix(more, all, inputs, values, n);
    let before = hashed_values(inputs, values, n);
    assert(before + hash_writes(input.name) + hash_writes(value) =~= before + (hash_writes(
        input.name,
    ) + hash_writes(value)));
}

proof fn lemma_hashed_prefix(
    more: Seq<InputView>,
    all: Seq<Seq<char>>,
    inputs: Seq<InputView>,
    values: Seq<Seq<char>>,
    n: int,
)
    requires
        n <= inputs.len(),
        forall|i: int| 0 <= i < n ==> #[trigger] more[i] == inputs[i] && all[i] == values[i],
    ensures
        hashed_values(more, all, n) == hashed_values(inputs, values, n),
    decreases n,
{
    if n > 0 {
        lemma_hashed_prefix(more, all, inputs, values, n - 1);
        assert(more[n - 1] == inputs[n - 1]);
    }
}

/// What one input writes to the hasher.
spec fn parts(inputs: Seq<InputView>, values: Seq<Seq<char>>, n: int) -> Seq<Seq<Seq<u8>>> {
    Seq::new(
        n as nat,
        |i: int|
            if inputs[i].option.contains(InputOption::NoHash) {
                Seq::empty()
            } else {
                hash_writes(inputs[i].name) + hash_writes(values[i])
            },
    )
}

/// What is hashed is the name and the whole value of each input that is not marked
/// `NoHash`, one after the other, in the order of the inputs, and nothing else.
pub proof fn names_and_values_are_hashed_in_order(inputs: Seq<InputView>, values: Seq<Seq<char>>)
    ensures
        values_hash(inputs, values) == DefaultHasher::spec_finish(
            Seq::new(
                inputs.len(),
                |i: int|
                    if inputs[i].option.contains(InputOption::NoHash) {
                        Seq::<Seq<u8>>::empty()
                    } else {
                        hash_writes(inputs[i].name) + hash_writes(values[i])
                    },
            ).flatten(),
        ),
{
    let n = inputs.len() as int;
    lemma_parts(inputs, values, n);
    assert(parts(inputs, values, n) =~= Seq::new(
        inputs.len(),
        |i: int|
            if inputs[i].option.contains(InputOption::NoHash) {
                Seq::<Seq<u8>>::empty()
            } else {
                hash_writes(inputs[i].name) + hash_writes(values[i])
            },
    ));
}

proof fn lemma_parts(inputs: Seq<InputView>, values: Seq<Seq<char>>, n: int)
    requires
        0 <= n,
    ensures
        parts(inputs, values, n).flatten() == hashed_values(inputs, values, n),
    decreases n,
{
    if n > 0 {
        lemma_parts(inputs, values, n - 1);
        let some = parts(inputs, values, n - 1);
        let more = parts(inputs, values, n);
        assert(more =~= some.push(more.last()));
        assert(more.drop_last() =~= some);
        more.lemma_flatten_and_flatten_alt_are_equivalent();
        some.lemma_flatten_and_flatten_alt_are_equivalent();
        assert(hashed_values(inputs, values, n) =~= some.flatten() + more.last());
    } else {
        assert(parts(inputs, values, n) =~= Seq::empty());
    }
}

/// The screen that a single input counts for has the hash of the name and of the
/// whole value.
pub proof fn a_single_input_is_hashed_by_name_and_value(input: InputView, value: Seq<char>)
    requires
        !input.option.contains(InputOption::NoHash),
    ensures
        values_hash(seq![input], seq![value]) == DefaultHasher::spec_finish(
            hash_writes(input.name) + hash_writes(value),
        ),
{
    reveal_with_fuel(hashed_values, 2);
    assert(hashed_values(seq![input], seq![value], 1) =~= hash_writes(input.name) + hash_writes(
        value,
    ));
}

/// A further input has its whole value under its name, in place of what an earlier
/// one of that name had, and leaves the others alone.
pub proof fn each_input_is_named(
    inputs: Seq<InputView>,
    values: Seq<Seq<char>>,
    n: int,
    name: Seq<char>,
)
    requires
        0 <= n < inputs.len(),
    ensures
        ({
            let before = named_values(inputs, values, n);
            let after = named_values(inputs, values, n + 1);
            &&& after.contains_key(inputs[n].name) && after[inputs[n].name] == values[n]
            &&& name != inputs[n].name ==> after.contains_key(name) == before.contains_key(name)
            &&& name != inputs[n].name && before.contains_key(name) ==> after[name] == before[name]
            &&& !named_values(inputs, values, 0).contains_key(name)
        }),
{
}

/// The first query that failed is what its screen fails with; where none failed,
/// the values are what the queries gave, each in full.
pub proof fn queries_fail_with_the_first_failure(
    screen: ScreenView,
    results: Seq<Result<String, config::Error>>,
    k: int,
)
    requires
        0 <= k <= results.len(),
        forall|j: int| 0 <= j < k ==> (#[trigger] results[j]) is Ok,
        k < results.len() ==> results[k] is Err,
    ensures
        first_failure(results) == (if k < results.len() {
            Some(results[k])
        } else {
            None
        }),
        k < results.len() ==> query_outcome(screen, results) == Err::<
            (Map<Seq<char>, Seq<char>>, u64),
            config::ErrorView,
        >(results[k]->Err_0@),
        k == results.len() ==> {
            let values = good_values(results);
            &&& values.len() == results.len()
            &&& forall|i: int| 0 <= i < results.len() ==> #[trigger] values[i] == results[i]->Ok_0@
            &&& query_outcome(screen, results) == Ok::<
                (Map<Seq<char>, Seq<char>>, u64),
                config::ErrorView,
            >(
                (
                    named_values(screen.input, values, screen.input.len() as int),
                    values_hash(screen.input, values),
                ),
            )
        },
{
    let failed = |r: Result<String, config::Error>| r is Err;
    if k < results.len() {
        lemma_first_at(results, failed, k);
    } else {
        lemma_first_none(results, failed);
    }
}

}
