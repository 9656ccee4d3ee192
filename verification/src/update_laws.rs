//! Which packages an update may change, and which names are proposed for one that is not there,
//! said of each package and each name on its own.
use vstd::prelude::*;

use crate::ordered::views;
use crate::run::joined;
use crate::similar::{
    first_missing, highest_first, is_selected, likeness, proposals, quoted, ranked, ranked_with,
    ranking_is_by_score, scored, selected_names, LockedNames,
};
use crate::update::{
    distinct, distinct_keeps_all, first_unknown, lets_pass, stays, LockedName, UpdateSpecs,
};

verus! {

/// Nothing was named, or this was.
pub open spec fn is_meant(named: Option<Vec<String>>, text: Seq<char>) -> bool {
    match named {
        Some(texts) => exists|i: int| 0 <= i < texts@.len() && (#[trigger] texts@[i])@ == text,
        None => true,
    }
}

/// A list lets a text pass exactly if it is meant.
proof fn lemma_meant(named: Option<Vec<String>>, text: Seq<char>)
    ensures
        lets_pass(named, text) <==> is_meant(named, text),
{
    match named {
        Some(texts) => {
            let all = views(texts@);
            if all.contains(text) {
                let i = choose|i: int| 0 <= i < all.len() && all[i] == text;
                assert(texts@[i]@ == text);
            }
            if is_meant(named, text) {
                let i = choose|i: int| 0 <= i < texts@.len() && (#[trigger] texts@[i])@ == text;
                assert(all[i] == text);
            }
        },
        None => {},
    }
}

/// A locked package stays locked exactly unless its environment, its platform and its name are all
/// meant.
pub proof fn packages_stay_unless_meant(specs: UpdateSpecs, locked: LockedName)
    ensures
        stays(specs, locked) <==> !(is_meant(specs.environments, locked.environment@) && is_meant(
            specs.platforms,
            locked.platform@,
        ) && is_meant(specs.packages, locked.package@)),
        specs.relaxes(locked.environment@, locked.platform@, locked.package@) <==> !stays(
            specs,
            locked,
        ),
{
    lemma_meant(specs.environments, locked.environment@);
    lemma_meant(specs.platforms, locked.platform@);
    lemma_meant(specs.packages, locked.package@);
}

/// A package is locked at a place that is meant.
pub open spec fn is_locked_where_meant(
    specs: UpdateSpecs,
    locked: Seq<LockedNames>,
    name: Seq<char>,
) -> bool {
    exists|i: int, j: int|
        #![trigger locked[i].packages@[j]]
        0 <= i < locked.len() && 0 <= j < locked[i].packages@.len() && locked[i].packages@[j]@
            == name && is_meant(specs.environments, locked[i].environment@) && (
        locked[i].platform matches Some(platform) && is_meant(specs.platforms, platform@))
}

/// The names that are looked through are those of all packages that are locked in an environment
/// and on a platform that are meant, and no others.
pub proof fn all_meant_packages_are_looked_through(
    specs: UpdateSpecs,
    locked: Seq<LockedNames>,
    name: Seq<char>,
)
    ensures
        selected_names(specs, locked).contains(name) <==> is_locked_where_meant(
            specs,
            locked,
            name,
        ),
    decreases locked.len(),
{
    if locked.len() > 0 {
        let front = locked.drop_last();
        let last = locked.last();
        all_meant_packages_are_looked_through(specs, front, name);
        lemma_meant(specs.environments, last.environment@);
        match last.platform {
            Some(platform) => lemma_meant(specs.platforms, platform@),
            None => {},
        }
        let before = selected_names(specs, front);
        let more = views(last.packages@);
        if is_locked_where_meant(specs, front, name) {
            let (i, j) = choose|i: int, j: int|
                #![trigger front[i].packages@[j]]
                0 <= i < front.len() && 0 <= j < front[i].packages@.len()
                    && front[i].packages@[j]@ == name && is_meant(
                    specs.environments,
                    front[i].environment@,
                ) && (front[i].platform matches Some(platform) && is_meant(
                    specs.platforms,
                    platform@,
                ));
            assert(locked[i].packages@[j]@ == name);
            let k = choose|k: int| 0 <= k < before.len() && before[k] == name;
            assert(selected_names(specs, locked)[k] == name);
        }
        if is_selected(specs, last) && more.contains(name) {
            let j = choose|j: int| 0 <= j < more.len() && more[j] == name;
            assert(locked[locked.len() - 1].packages@[j]@ == name);
            assert(selected_names(specs, locked)[before.len() + j] == name);
        }
        if selected_names(specs, locked).contains(name) && !before.contains(name) {
            let k = choose|k: int|
                0 <= k < selected_names(specs, locked).len() && selected_names(specs, locked)[k]
                    == name;
            if k < before.len() {
                assert(before[k] == name);
            } else {
                assert(more[k - before.len()] == name);
            }
        }
        if is_locked_where_meant(specs, locked, name) && !is_locked_where_meant(
            specs,
            front,
            name,
        ) {
            let (i, j) = choose|i: int, j: int|
                #![trigger locked[i].packages@[j]]
                0 <= i < locked.len() && 0 <= j < locked[i].packages@.len()
                    && locked[i].packages@[j]@ == name && is_meant(
                    specs.environments,
                    locked[i].environment@,
                ) && (locked[i].platform matches Some(platform) && is_meant(
                    specs.platforms,
                    platform@,
                ));
            if i < front.len() {
                assert(front[i].packages@[j]@ == name);
            }
            assert(more[j] == name);
        }
    }
}

/// How high a score must be for two names to be alike: the bits of six tenths.
pub open spec fn is_alike(target: Seq<char>, name: Seq<char>) -> bool {
    likeness(target, name) > 0x3FE3333333333333u64
}

/// At most five names are proposed. All are alike to the target and among the names that are
/// there, those that are most so come first, and a name that is alike is passed over only for
/// others that are at least as much so.
pub proof fn best_names_are_proposed(names: Seq<Seq<char>>, target: Seq<char>)
    ensures
        ({
            let proposed = proposals(scored(names, target));
            &&& proposed.len() <= 5
            &&& forall|i: int|
                0 <= i < proposed.len() ==> names.contains(#[trigger] proposed[i]) && is_alike(
                    target,
                    proposed[i],
                )
            &&& forall|i: int, j: int|
                0 <= i < j < proposed.len() ==> likeness(target, #[trigger] proposed[i])
                    >= likeness(target, #[trigger] proposed[j])
            &&& forall|name: Seq<char>| #[trigger]
                names.contains(name) && is_alike(target, name) && !proposed.contains(name)
                    ==> proposed.len() == 5 && forall|i: int|
                    0 <= i < proposed.len() ==> likeness(target, #[trigger] proposed[i])
                        >= likeness(target, name)
        }),
{
    let entries = scored(names, target);
    let list = ranked(entries);
    let all = list.map_values(|entry: (Seq<char>, u64)| entry.0);
    let proposed = proposals(entries);
    ranking_is_by_score(entries);
    assert forall|i: int| 0 <= i < list.len() implies (#[trigger] list[i]).1 == likeness(
        target,
        list[i].0,
    ) && names.contains(list[i].0) && is_alike(target, list[i].0) by {
        assert(list.contains(list[i]));
        assert(entries.contains(list[i]));
        let k = choose|k: int| 0 <= k < entries.len() && entries[k] == list[i];
        assert(entries[k] == (names[k], likeness(target, names[k])));
    }
    assert forall|i: int| 0 <= i < proposed.len() implies #[trigger] proposed[i] == list[i].0 by {
        assert(proposed[i] == all[i]);
    }
    assert forall|i: int| 0 <= i < proposed.len() implies names.contains(#[trigger] proposed[i])
        && is_alike(target, proposed[i]) by {
        assert(list[i].0 == proposed[i]);
    }
    assert forall|i: int, j: int| 0 <= i < j < proposed.len() implies likeness(
        target,
        #[trigger] proposed[i],
    ) >= likeness(target, #[trigger] proposed[j]) by {
        assert(list[i].1 >= list[j].1);
    }
    assert forall|name: Seq<char>| #[trigger]
        names.contains(name) && is_alike(target, name) && !proposed.contains(name) implies
        proposed.len() == 5 && forall|i: int|
        0 <= i < proposed.len() ==> likeness(target, #[trigger] proposed[i]) >= likeness(
            target,
            name,
        ) by {
        let k = choose|k: int| 0 <= k < names.len() && names[k] == name;
        assert(entries[k] == (name, likeness(target, name)));
        assert(entries.contains(entries[k]));
        assert(list.contains(entries[k]));
        let at = choose|at: int| 0 <= at < list.len() && list[at] == entries[k];
        if at < proposed.len() {
            assert(proposed[at] == name);
        }
        assert(all.len() > 5);
        assert forall|i: int| 0 <= i < proposed.len() implies likeness(
            target,
            #[trigger] proposed[i],
        ) >= likeness(target, name) by {
            assert(list[i].1 >= list[at].1);
        }
    }
}

/// The text stands at a place, and not before it.
pub open spec fn first_at(texts: Seq<Seq<char>>, text: Seq<char>, at: int) -> bool {
    &&& 0 <= at < texts.len()
    &&& texts[at] == text
    &&& forall|i: int| 0 <= i < at ==> #[trigger] texts[i] != text
}

/// What is named once is named in the order in which it was first named.
pub proof fn distinct_keeps_order(texts: Seq<Seq<char>>, i: int, j: int)
    requires
        0 <= i < j < distinct(texts).len(),
    ensures
        exists|one: int, other: int|
            one < other && #[trigger] first_at(texts, distinct(texts)[i], one)
                && #[trigger] first_at(texts, distinct(texts)[j], other),
    decreases texts.len(),
{
    let front = texts.drop_last();
    let before = distinct(front);
    distinct_keeps_all(front);
    if j < before.len() {
        distinct_keeps_order(front, i, j);
        let (one, other) = choose|one: int, other: int|
            one < other && #[trigger] first_at(front, before[i], one) && #[trigger] first_at(
                front,
                before[j],
                other,
            );
        assert(forall|k: int| 0 <= k < front.len() ==> #[trigger] texts[k] == front[k]);
        assert(distinct(texts)[i] == before[i] && distinct(texts)[j] == before[j]);
        assert(first_at(texts, distinct(texts)[i], one));
        assert(first_at(texts, distinct(texts)[j], other));
    } else {
        let end = texts.len() - 1;
        assert(!before.contains(texts.last()));
        assert(!front.contains(texts.last()));
        assert forall|k: int| 0 <= k < end implies #[trigger] texts[k] != texts.last() by {
            assert(front[k] == texts[k]);
        }
        assert(first_at(texts, distinct(texts)[j], end));
        assert(before.contains(before[i]));
        assert(front.contains(before[i]));
        let place = choose|place: int| 0 <= place < front.len() && front[place] == before[i];
        let one = lemma_first(texts, before[i], place);
        assert(first_at(texts, distinct(texts)[i], one));
    }
}

/// Finds the place at which a text first stands.
proof fn lemma_first(texts: Seq<Seq<char>>, text: Seq<char>, at: int) -> (first: int)
    requires
        0 <= at < texts.len(),
        texts[at] == text,
    ensures
        first_at(texts, text, first),
        first <= at,
    decreases at,
{
    if exists|i: int| 0 <= i < at && #[trigger] texts[i] == text {
        let i = choose|i: int| 0 <= i < at && #[trigger] texts[i] == text;
        lemma_first(texts, text, i)
    } else {
        at
    }
}

/// The environment that is refused is one that was named and is not known, and all before it are.
/// If any is not known, one is refused.
pub proof fn first_unknown_environment_is_found(
    environments: Seq<String>,
    known: Seq<Seq<char>>,
    at: int,
)
    requires
        0 <= at < environments.len(),
        !known.contains(environments[at]@),
    ensures
        exists|first: int| #[trigger] first_unknown(environments, known, first) && first <= at,
        forall|first: int| #[trigger]
            first_unknown(environments, known, first) ==> 0 <= first <= at && !known.contains(
                environments[first]@,
            ),
    decreases at,
{
    if exists|i: int| 0 <= i < at && !known.contains((#[trigger] environments[i])@) {
        let i = choose|i: int| 0 <= i < at && !known.contains((#[trigger] environments[i])@);
        first_unknown_environment_is_found(environments, known, i);
    } else {
        assert(first_unknown(environments, known, at));
    }
}

/// The package that is reported is one that was named and is not there, and all before it are. If
/// any is not there, one is reported.
pub proof fn first_missing_package_is_found(packages: Seq<String>, names: Seq<Seq<char>>, at: int)
    requires
        0 <= at < packages.len(),
        !names.contains(packages[at]@),
    ensures
        exists|first: int| #[trigger] first_missing(packages, names, first) && first <= at,
        forall|first: int| #[trigger]
            first_missing(packages, names, first) ==> 0 <= first <= at && !names.contains(
                packages[first]@,
            ),
    decreases at,
{
    if exists|i: int| 0 <= i < at && !names.contains((#[trigger] packages[i])@) {
        let i = choose|i: int| 0 <= i < at && !names.contains((#[trigger] packages[i])@);
        first_missing_package_is_found(packages, names, i);
    } else {
        assert(first_missing(packages, names, at));
    }
}

/// An entry has this score.
pub open spec fn has_score(score: u64) -> spec_fn((Seq<char>, u64)) -> bool {
    |entry: (Seq<char>, u64)| entry.1 == score
}

/// The entries with this score, in their order.
pub open spec fn scoring(entries: Seq<(Seq<char>, u64)>, score: u64) -> Seq<(Seq<char>, u64)> {
    entries.filter(has_score(score))
}

/// An entry comes behind all others with its score.
proof fn lemma_ranked_behind(list: Seq<(Seq<char>, u64)>, entry: (Seq<char>, u64), score: u64)
    requires
        highest_first(list),
    ensures
        scoring(ranked_with(list, entry), score) == if entry.1 == score {
            scoring(list, score).push(entry)
        } else {
            scoring(list, score)
        },
    decreases list.len(),
{
    let has = has_score(score);
    let one = seq![entry];
    assert(one.filter(has) =~= if entry.1 == score {
        one
    } else {
        Seq::empty()
    }) by {
        reveal(Seq::filter);
        assert(one.drop_last() =~= Seq::empty());
        assert(one.last() == entry);
        assert(Seq::<(Seq<char>, u64)>::empty().filter(has) =~= Seq::empty());
    }
    if list.len() == 0 {
        assert(list =~= Seq::empty());
        assert(list.filter(has) =~= Seq::empty()) by {
            reveal(Seq::filter);
        }
        assert(scoring(ranked_with(list, entry), score) =~= if entry.1 == score {
            scoring(list, score).push(entry)
        } else {
            scoring(list, score)
        });
    } else if list[0].1 < entry.1 {
        Seq::filter_distributes_over_add(one, list, has);
        if entry.1 == score {
            lemma_none_score(list, score);
            assert(scoring(list, score) =~= Seq::empty());
        }
        assert(scoring(ranked_with(list, entry), score) =~= if entry.1 == score {
            scoring(list, score).push(entry)
        } else {
            scoring(list, score)
        });
    } else {
        let rest = list.drop_first();
        let first = seq![list[0]];
        assert forall|i: int, j: int| 0 <= i <= j < rest.len() implies (#[trigger] rest[i]).1 >= (
        #[trigger] rest[j]).1 by {
            assert(rest[i] == list[i + 1] && rest[j] == list[j + 1]);
        }
        assert(highest_first(rest));
        lemma_ranked_behind(rest, entry, score);
        Seq::filter_distributes_over_add(first, ranked_with(rest, entry), has);
        Seq::filter_distributes_over_add(first, rest, has);
        assert(first + rest =~= list);
        assert(scoring(ranked_with(list, entry), score) =~= if entry.1 == score {
            scoring(list, score).push(entry)
        } else {
            scoring(list, score)
        });
    }
}

/// In a list that begins below a score nothing has that score.
proof fn lemma_none_score(list: Seq<(Seq<char>, u64)>, score: u64)
    requires
        highest_first(list),
        list.len() > 0,
        list[0].1 < score,
    ensures
        scoring(list, score).len() == 0,
{
    let has = has_score(score);
    if scoring(list, score).len() > 0 {
        let found = scoring(list, score)[0];
        list.lemma_filter_pred(has, 0);
        assert(scoring(list, score).contains(found));
        list.lemma_filter_contains_rev(has, found);
        let k = choose|k: int| 0 <= k < list.len() && list[k] == found;
        assert(list[0].1 >= list[k].1);
    }
}

/// Of the entries with one score all are ranked or none, as often as they are there and in the
/// order in which they are there.
pub proof fn equal_scores_keep_their_order(entries: Seq<(Seq<char>, u64)>, score: u64)
    ensures
        scoring(ranked(entries), score) == if score > 0x3FE3333333333333u64 {
            scoring(entries, score)
        } else {
            Seq::empty()
        },
    decreases entries.len(),
{
    let has = has_score(score);
    reveal(Seq::filter);
    if entries.len() > 0 {
        let front = entries.drop_last();
        let last = entries.last();
        equal_scores_keep_their_order(front, score);
        ranking_is_by_score(front);
        if last.1 > 0x3FE3333333333333u64 {
            lemma_ranked_behind(ranked(front), last, score);
        }
    }
}

/// The names are put together with quotes and commas between them.
pub proof fn quoted_names_are_joined(names: Seq<Seq<char>>)
    ensures
        quoted(names) == joined(names, "', '"@),
    decreases names.len(),
{
    if names.len() > 1 {
        quoted_names_are_joined(names.drop_last());
    }
}

} // verus!
