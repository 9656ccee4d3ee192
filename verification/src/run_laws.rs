//! What is said of options that a script cannot have, and which signals a command gets.
use vstd::prelude::*;

use crate::run::{
    is_forwarded, is_preferred, joined, unsupported_options, SpecialSignals, TaskCandidate,
};

verus! {

/// To put all texts together is to put together the first and the others, and then both. One text
/// is put together with nothing.
pub proof fn texts_are_joined_in_order(
    one: Seq<Seq<char>>,
    other: Seq<Seq<char>>,
    separator: Seq<char>,
)
    requires
        one.len() > 0,
        other.len() > 0,
    ensures
        joined(one + other, separator) == joined(one, separator) + separator + joined(
            other,
            separator,
        ),
        one.len() == 1 ==> joined(one, separator) == one[0],
    decreases other.len(),
{
    let all = one + other;
    assert(all.last() == other.last());
    if other.len() == 1 {
        assert(all.drop_last() =~= one);
        assert(joined(other, separator) == other[0]);
    } else {
        assert(all.drop_last() =~= one + other.drop_last());
        texts_are_joined_in_order(one, other.drop_last(), separator);
        assert(joined(all, separator) =~= joined(one, separator) + separator + joined(
            other,
            separator,
        ));
    }
}

/// An option that a script cannot have is named exactly if it was given, the environment before
/// the dependencies, and nothing else is.
pub proof fn given_options_are_named(environment: bool, skip_deps: bool, option: Seq<char>)
    ensures
        ({
            let named = unsupported_options(environment, skip_deps);
            &&& named.contains(option) <==> (option == "--environment"@ && environment) || (option
                == "--skip-deps"@ && skip_deps)
            &&& named.no_duplicates()
            &&& environment ==> named[0] == "--environment"@
        }),
{
    reveal_strlit("--environment");
    reveal_strlit("--skip-deps");
    let named = unsupported_options(environment, skip_deps);
    assert("--environment"@.len() != "--skip-deps"@.len());
    if environment && skip_deps {
        assert(named[0] == "--environment"@ && named[1] == "--skip-deps"@);
    } else if environment || skip_deps {
        assert(named[0] == named[0]);
    }
}

/// A command gets every signal that can be listened for, except that at a terminal the interrupt
/// is withheld.
pub proof fn only_interrupts_depend_on_the_terminal(
    signals: Seq<i32>,
    signal: i32,
    special: SpecialSignals,
    interactive: bool,
)
    ensures
        ({
            let got = signals.filter(|signal: i32| is_forwarded(signal, special, interactive));
            let elsewhere = signals.filter(|signal: i32| is_forwarded(signal, special, false));
            &&& elsewhere.contains(signal) <==> signals.contains(signal) && signal != special.kill
                && signal != special.stop
            &&& signal != special.interrupt || !interactive ==> (got.contains(signal)
                <==> elsewhere.contains(signal))
            &&& interactive ==> !got.contains(special.interrupt)
        }),
{
    lemma_kept(signals, signal, special, interactive);
    lemma_kept(signals, signal, special, false);
    lemma_kept(signals, special.interrupt, special, interactive);
}

/// The signals that are kept are those of the list that are forwarded.
proof fn lemma_kept(signals: Seq<i32>, signal: i32, special: SpecialSignals, interactive: bool)
    ensures
        signals.filter(|signal: i32| is_forwarded(signal, special, interactive)).contains(signal)
            <==> signals.contains(signal) && is_forwarded(signal, special, interactive),
{
    let keep = |signal: i32| is_forwarded(signal, special, interactive);
    let kept = signals.filter(keep);
    if kept.contains(signal) {
        signals.lemma_filter_contains_rev(keep, signal);
        let at = choose|at: int| 0 <= at < kept.len() && kept[at] == signal;
        signals.lemma_filter_pred(keep, at);
    }
    if signals.contains(signal) && is_forwarded(signal, special, interactive) {
        let at = choose|at: int| 0 <= at < signals.len() && signals[at] == signal;
        signals.lemma_filter_contains(keep, at);
    }
}

/// A task prefers at most one environment, the one that it names. Without a name it prefers none.
pub proof fn tasks_prefer_one_environment(one: TaskCandidate, other: TaskCandidate)
    requires
        one.default_environment == other.default_environment,
    ensures
        is_preferred(one) && is_preferred(other) ==> one.environment@ == other.environment@,
        is_preferred(one) ==> one.default_environment is Some,
        one.default_environment matches Some(name) && name@ == one.environment@ ==> is_preferred(
            one,
        ),
{
}

} // verus!
