//! Whether a package is locked, and which locked packages have a name like it.
use vstd::prelude::*;

use crate::ordered::views;
use crate::text::same_text;
use crate::update::{distinct, distinct_keeps_all, lets_pass, passes, push_distinct, UpdateSpecs};

verus! {

/// The score above which two names are alike: the bits of six tenths.
pub const ALIKE: u64 = 0x3FE3333333333333;

/// The score of two names that are the same: the bits of one.
pub const IDENTICAL: u64 = 0x3FF0000000000000;

/// How many names are proposed.
pub const PROPOSALS: usize = 5;

/// How alike two names are. A higher score means that they are more so.
pub uninterp spec fn likeness(one: Seq<char>, other: Seq<char>) -> u64;

/// `strsim::jaro` scores how alike two texts are, from zero to one. The bits of such numbers are
/// in the order of the numbers. The score is one for texts that are the same, and for no others.
#[verifier::external_body]
fn likeness_of(one: &str, other: &str) -> (score: u64)
    ensures
        score == likeness(one@, other@),
        score <= IDENTICAL,
        score == IDENTICAL <==> one@ == other@,
{
    strsim::jaro(one, other).to_bits()
}

/// The packages that are locked for one platform of an environment.
#[derive(Debug)]
pub struct LockedNames {
    pub environment: String,
    /// The name of the platform, where a platform can have that name.
    pub platform: Option<String>,
    pub packages: Vec<String>,
}

/// These packages are among those to update.
pub open spec fn is_selected(specs: UpdateSpecs, locked: LockedNames) -> bool {
    &&& lets_pass(specs.environments, locked.environment@)
    &&& locked.platform matches Some(platform) && lets_pass(specs.platforms, platform@)
}

/// The names of all packages that are among those to update.
pub open spec fn selected_names(specs: UpdateSpecs, locked: Seq<LockedNames>) -> Seq<Seq<char>>
    decreases locked.len(),
{
    if locked.len() == 0 {
        Seq::empty()
    } else if is_selected(specs, locked.last()) {
        selected_names(specs, locked.drop_last()) + views(locked.last().packages@)
    } else {
        selected_names(specs, locked.drop_last())
    }
}

/// A name, and how much it is like the one that is looked for.
#[derive(Debug)]
pub struct ScoredName {
    pub name: String,
    pub score: u64,
}

/// The names and scores of a list.
pub open spec fn score_views(names: Seq<ScoredName>) -> Seq<(Seq<char>, u64)> {
    names.map_values(|entry: ScoredName| (entry.name@, entry.score))
}

/// The names, each with how much it is like the target.
pub open spec fn scored(names: Seq<Seq<char>>, target: Seq<char>) -> Seq<(Seq<char>, u64)> {
    names.map_values(|name: Seq<char>| (name, likeness(target, name)))
}

/// A ranked list with one more entry: behind all entries that score as high.
pub open spec fn ranked_with(
    ranked: Seq<(Seq<char>, u64)>,
    entry: (Seq<char>, u64),
) -> Seq<(Seq<char>, u64)>
    decreases ranked.len(),
{
    if ranked.len() == 0 {
        seq![entry]
    } else if ranked[0].1 < entry.1 {
        seq![entry] + ranked
    } else {
        seq![ranked[0]] + ranked_with(ranked.drop_first(), entry)
    }
}

/// The entries that score high enough, those that score highest first. Of entries that score the
/// same the first comes first.
pub open spec fn ranked(entries: Seq<(Seq<char>, u64)>) -> Seq<(Seq<char>, u64)>
    decreases entries.len(),
{
    if entries.len() == 0 {
        Seq::empty()
    } else if entries.last().1 > ALIKE {
        ranked_with(ranked(entries.drop_last()), entries.last())
    } else {
        ranked(entries.drop_last())
    }
}

/// The names of the entries that are ranked first.
pub open spec fn proposals(entries: Seq<(Seq<char>, u64)>) -> Seq<Seq<char>> {
    let all = ranked(entries).map_values(|entry: (Seq<char>, u64)| entry.0);
    if all.len() > PROPOSALS {
        all.take(PROPOSALS as int)
    } else {
        all
    }
}

/// The names in quotes, with commas between them.
pub open spec fn quoted(names: Seq<Seq<char>>) -> Seq<char>
    decreases names.len(),
{
    if names.len() == 0 {
        Seq::empty()
    } else if names.len() == 1 {
        names[0]
    } else {
        quoted(names.drop_last()) + "', '"@ + names.last()
    }
}

/// A package is not there.
#[derive(Debug)]
pub struct PackageNotFound {
    pub message: String,
    /// The packages that may have been meant.
    pub help: Option<String>,
}

/// What is said of a package that is not there.
pub open spec fn reports_missing(
    fault: PackageNotFound,
    target: Seq<char>,
    similar: Seq<Seq<char>>,
) -> bool {
    &&& fault.message@ == "could not find a package named '"@ + target + "'"@
    &&& if similar.len() == 0 {
        fault.help is None
    } else {
        fault.help matches Some(help) && help@ == "did you mean '"@ + quoted(similar) + "'?"@
    }
}

/// Where an entry goes in a ranked list.
proof fn lemma_ranked_with(list: Seq<(Seq<char>, u64)>, entry: (Seq<char>, u64), at: int)
    requires
        0 <= at <= list.len(),
        forall|i: int| 0 <= i < at ==> (#[trigger] list[i]).1 >= entry.1,
        at < list.len() ==> list[at].1 < entry.1,
    ensures
        ranked_with(list, entry) == list.insert(at, entry),
    decreases list.len(),
{
    if at > 0 {
        let rest = list.drop_first();
        assert forall|i: int| 0 <= i < at - 1 implies (#[trigger] rest[i]).1 >= entry.1 by {
            assert(rest[i] == list[i + 1]);
        }
        lemma_ranked_with(rest, entry, at - 1);
        assert(list[0].1 >= entry.1);
        assert(ranked_with(list, entry) =~= list.insert(at, entry));
    } else {
        assert(ranked_with(list, entry) =~= list.insert(at, entry));
    }
}

/// Puts an entry into a ranked list.
fn insert_ranked(list: &mut Vec<ScoredName>, entry: ScoredName)
    ensures
        score_views(final(list)@) == ranked_with(
            score_views(old(list)@),
            (entry.name@, entry.score),
        ),
{
    let ghost before = score_views(list@);
    let ghost added = (entry.name@, entry.score);
    let mut at: usize = 0;
    while at < list.len() && list[at].score >= entry.score
        invariant
            at <= list.len(),
            before == score_views(list@),
            forall|i: int| 0 <= i < at ==> (#[trigger] before[i]).1 >= entry.score,
        decreases list.len() - at,
    {
        assert(before[at as int].1 == list@[at as int].score);
        at += 1;
    }
    proof {
        if at < list@.len() {
            assert(before[at as int].1 == list@[at as int].score);
        }
        lemma_ranked_with(before, added, at as int);
    }
    list.insert(at, entry);
    assert(score_views(list@) =~= before.insert(at as int, added));
}

/// Collects the names of all packages that are among those to update, each once.
fn collect_names(specs: &UpdateSpecs, locked: &Vec<LockedNames>) -> (names: Vec<String>)
    ensures
        views(names@) == distinct(selected_names(*specs, locked@)),
{
    let mut names: Vec<String> = Vec::new();
    let mut i: usize = 0;
    assert(views(names@) =~= distinct(selected_names(*specs, locked@.take(0))));
    while i < locked.len()
        invariant
            i <= locked.len(),
            views(names@) == distinct(selected_names(*specs, locked@.take(i as int))),
        decreases locked.len() - i,
    {
        let entry = &locked[i];
        let ghost before = selected_names(*specs, locked@.take(i as int));
        assert(locked@.take(i + 1).drop_last() =~= locked@.take(i as int));
        let selected = passes(&specs.environments, entry.environment.as_str())
            && match &entry.platform {
            Some(platform) => passes(&specs.platforms, platform.as_str()),
            None => false,
        };
        if selected {
            let ghost packages = views(entry.packages@);
            let mut j: usize = 0;
            assert(before + packages.take(0) =~= before);
            while j < entry.packages.len()
                invariant
                    j <= entry.packages.len(),
                    packages == views(entry.packages@),
                    views(names@) == distinct(before + packages.take(j as int)),
                decreases entry.packages.len() - j,
            {
                assert(before + packages.take(j + 1) =~= (before + packages.take(j as int)).push(
                    entry.packages@[j as int]@,
                ));
                push_distinct(
                    &mut names,
                    &entry.packages[j],
                    Ghost(before + packages.take(j as int)),
                );
                j += 1;
            }
            assert(packages.take(j as int) =~= packages);
        }
        i += 1;
    }
    assert(locked@.take(i as int) =~= locked@);
    names
}

/// Of these names, only the target is as much like it as a name can be.
spec fn all_bounded(entries: Seq<(Seq<char>, u64)>, target: Seq<char>) -> bool {
    forall|i: int|
        0 <= i < entries.len() ==> (#[trigger] entries[i]).1 <= IDENTICAL && (entries[i].1
            == IDENTICAL <==> entries[i].0 == target)
}

/// Scores names by how much they are like the target.
fn score(names: &Vec<String>, target: &str) -> (entries: Vec<ScoredName>)
    ensures
        score_views(entries@) == scored(views(names@), target@),
        all_bounded(scored(views(names@), target@), target@),
{
    let mut entries: Vec<ScoredName> = Vec::new();
    let mut i: usize = 0;
    while i < names.len()
        invariant
            i <= names.len(),
            entries@.len() == i,
            forall|k: int|
                0 <= k < i ==> {
                    let entry = #[trigger] entries@[k];
                    &&& entry.name@ == names@[k]@
                    &&& entry.score == likeness(target@, names@[k]@)
                    &&& entry.score <= IDENTICAL
                    &&& entry.score == IDENTICAL <==> names@[k]@ == target@
                },
        decreases names.len() - i,
    {
        let score: u64 = likeness_of(target, names[i].as_str());
        entries.push(ScoredName { name: names[i].clone(), score });
        i += 1;
    }
    proof {
        let all = scored(views(names@), target@);
        assert(score_views(entries@) =~= all);
        assert forall|k: int| 0 <= k < all.len() implies (#[trigger] all[k]).1 <= IDENTICAL && (
        all[k].1 == IDENTICAL <==> all[k].0 == target@) by {
            assert(entries@[k].name@ == names@[k]@);
        }
    }
    entries
}

/// Proposes the names that score highest, if they score high enough.
pub fn propose(entries: Vec<ScoredName>) -> (similar: Vec<String>)
    ensures
        views(similar@) == proposals(score_views(entries@)),
{
    let ghost all = score_views(entries@);
    let mut list: Vec<ScoredName> = Vec::new();
    let mut i: usize = 0;
    assert(score_views(list@) =~= ranked(all.take(0)));
    while i < entries.len()
        invariant
            i <= entries.len(),
            all == score_views(entries@),
            score_views(list@) == ranked(all.take(i as int)),
        decreases entries.len() - i,
    {
        assert(all.take(i + 1).drop_last() =~= all.take(i as int));
        assert(all.take(i + 1).last() == (entries@[i as int].name@, entries@[i as int].score));
        if entries[i].score > ALIKE {
            let entry = ScoredName { name: entries[i].name.clone(), score: entries[i].score };
            insert_ranked(&mut list, entry);
        }
        i += 1;
    }
    assert(all.take(i as int) =~= all);
    let ghost names = ranked(all).map_values(|entry: (Seq<char>, u64)| entry.0);
    assert(names.len() == list@.len());
    let mut similar: Vec<String> = Vec::new();
    let mut k: usize = 0;
    assert(views(similar@) =~= names.take(0));
    while k < list.len() && k < PROPOSALS
        invariant
            k <= list.len(),
            k <= PROPOSALS,
            names.len() == list@.len(),
            score_views(list@) == ranked(all),
            names == ranked(all).map_values(|entry: (Seq<char>, u64)| entry.0),
            views(similar@) == names.take(k as int),
        decreases list.len() - k,
    {
        let ghost before = similar@;
        similar.push(list[k].name.clone());
        assert(views(similar@) =~= views(before).push(list@[k as int].name@));
        assert(score_views(list@)[k as int].0 == list@[k as int].name@);
        assert(names.take(k + 1) =~= names.take(k as int).push(list@[k as int].name@));
        k += 1;
    }
    assert(views(similar@) =~= proposals(all));
    similar
}

/// Puts the names in quotes, with commas between them.
fn quote(names: &Vec<String>) -> (text: String)
    ensures
        text@ == quoted(views(names@)),
{
    let ghost all = views(names@);
    let mut text = String::new();
    let mut i: usize = 0;
    assert(text@ =~= quoted(all.take(0)));
    while i < names.len()
        invariant
            i <= names.len(),
            all == views(names@),
            text@ == quoted(all.take(i as int)),
        decreases names.len() - i,
    {
        assert(all.take(i + 1).drop_last() =~= all.take(i as int));
        assert(all.take(i + 1).last() == names@[i as int]@);
        if i > 0 {
            text.append("', '");
        } else {
            assert(text@ =~= Seq::<char>::empty());
        }
        text.append(names[i].as_str());
        assert(text@ =~= quoted(all.take(i + 1)));
        i += 1;
    }
    assert(all.take(i as int) =~= all);
    text
}

/// Each entry of a list scores at least as high as all that follow it.
pub open spec fn highest_first(entries: Seq<(Seq<char>, u64)>) -> bool {
    forall|i: int, j: int|
        0 <= i < j < entries.len() ==> (#[trigger] entries[i]).1 >= (#[trigger] entries[j]).1
}

/// A ranked list with one more entry is still in order, and has that entry besides the others.
proof fn lemma_ranked_with_order(list: Seq<(Seq<char>, u64)>, entry: (Seq<char>, u64))
    requires
        highest_first(list),
    ensures
        highest_first(ranked_with(list, entry)),
        ranked_with(list, entry).len() == list.len() + 1,
        forall|other: (Seq<char>, u64)| #[trigger]
            ranked_with(list, entry).contains(other) <==> other == entry || list.contains(other),
    decreases list.len(),
{
    let after = ranked_with(list, entry);
    if list.len() == 0 {
        assert(after[0] == entry);
    } else if list[0].1 < entry.1 {
        assert forall|i: int, j: int| 0 <= i < j < after.len() implies (#[trigger] after[i]).1 >= (
        #[trigger] after[j]).1 by {
            assert(after[j] == list[j - 1]);
            if i > 0 {
                assert(after[i] == list[i - 1]);
            } else if j > 1 {
                assert(list[0].1 >= list[j - 1].1);
            }
        }
        assert forall|other: (Seq<char>, u64)| #[trigger] after.contains(other) <==> other == entry
            || list.contains(other) by {
            if list.contains(other) {
                let k = choose|k: int| 0 <= k < list.len() && list[k] == other;
                assert(after[k + 1] == other);
            }
            if other == entry {
                assert(after[0] == other);
            }
            if after.contains(other) && other != entry {
                let k = choose|k: int| 0 <= k < after.len() && after[k] == other;
                assert(list[k - 1] == other);
            }
        }
    } else {
        let rest = list.drop_first();
        let inner = ranked_with(rest, entry);
        assert forall|i: int, j: int| 0 <= i < j < rest.len() implies (#[trigger] rest[i]).1 >= (
        #[trigger] rest[j]).1 by {
            assert(rest[i] == list[i + 1]);
            assert(rest[j] == list[j + 1]);
        }
        lemma_ranked_with_order(rest, entry);
        assert forall|i: int, j: int| 0 <= i < j < after.len() implies (#[trigger] after[i]).1 >= (
        #[trigger] after[j]).1 by {
            assert(after[j] == inner[j - 1]);
            if i > 0 {
                assert(after[i] == inner[i - 1]);
            } else {
                assert(inner.contains(inner[j - 1]));
                if inner[j - 1] != entry {
                    let k = choose|k: int| 0 <= k < rest.len() && rest[k] == inner[j - 1];
                    assert(list[k + 1] == inner[j - 1]);
                    assert(list[0].1 >= list[k + 1].1);
                }
            }
        }
        assert forall|other: (Seq<char>, u64)| #[trigger] after.contains(other) <==> other == entry
            || list.contains(other) by {
            if list.contains(other) {
                let k = choose|k: int| 0 <= k < list.len() && list[k] == other;
                if k == 0 {
                    assert(after[0] == other);
                } else {
                    assert(rest[k - 1] == other);
                    assert(inner.contains(other));
                }
            }
            if inner.contains(other) {
                let k = choose|k: int| 0 <= k < inner.len() && inner[k] == other;
                assert(after[k + 1] == other);
            }
            if after.contains(other) {
                let k = choose|k: int| 0 <= k < after.len() && after[k] == other;
                if k == 0 {
                    assert(list[0] == other);
                } else {
                    assert(inner[k - 1] == other);
                    assert(inner.contains(other));
                    if other != entry {
                        let m = choose|m: int| 0 <= m < rest.len() && rest[m] == other;
                        assert(list[m + 1] == other);
                    }
                }
            }
        }
    }
}

/// The ranked entries are those that score high enough, and no others, with those that score
/// highest first.
pub proof fn ranking_is_by_score(entries: Seq<(Seq<char>, u64)>)
    ensures
        highest_first(ranked(entries)),
        forall|entry: (Seq<char>, u64)| #[trigger]
            ranked(entries).contains(entry) <==> entries.contains(entry) && entry.1 > ALIKE,
    decreases entries.len(),
{
    if entries.len() > 0 {
        let front = entries.drop_last();
        let last = entries.last();
        ranking_is_by_score(front);
        if last.1 > ALIKE {
            lemma_ranked_with_order(ranked(front), last);
        }
        assert forall|entry: (Seq<char>, u64)| #[trigger] ranked(entries).contains(entry)
            <==> entries.contains(entry) && entry.1 > ALIKE by {
            assert(ranked(front).contains(entry) <==> front.contains(entry) && entry.1 > ALIKE);
            if entries.contains(entry) {
                let k = choose|k: int| 0 <= k < entries.len() && entries[k] == entry;
                if k < entries.len() - 1 {
                    assert(front[k] == entry);
                }
            }
            if front.contains(entry) {
                let k = choose|k: int| 0 <= k < front.len() && front[k] == entry;
                assert(entries[k] == entry);
            }
            if entry == last {
                assert(entries[entries.len() - 1] == entry);
            }
        }
    }
}

/// The first proposal is the target exactly where that is among the names.
proof fn lemma_target_is_first(names: Seq<Seq<char>>, target: Seq<char>)
    requires
        all_bounded(scored(names, target), target),
    ensures
        names.contains(target) <==> proposals(scored(names, target)).len() > 0 && proposals(
            scored(names, target),
        )[0] == target,
{
    let entries = scored(names, target);
    let list = ranked(entries);
    ranking_is_by_score(entries);
    let found = list.map_values(|entry: (Seq<char>, u64)| entry.0);
    if list.len() > 0 {
        assert(list.contains(list[0]));
        assert(entries.contains(list[0]));
        let k = choose|k: int| 0 <= k < entries.len() && entries[k] == list[0];
        assert(entries[k].0 == names[k]);
        assert(found[0] == list[0].0);
        if list[0].0 == target {
            assert(names[k] == target);
        }
    }
    if names.contains(target) {
        let k = choose|k: int| 0 <= k < names.len() && names[k] == target;
        assert(entries[k].0 == target);
        assert(entries[k].1 == IDENTICAL);
        assert(entries.contains(entries[k]));
        assert(list.contains(entries[k]));
        let at = choose|at: int| 0 <= at < list.len() && list[at] == entries[k];
        assert(list[0].1 >= list[at].1);
        let m = choose|m: int| 0 <= m < entries.len() && entries[m] == list[0];
        assert(entries[m].1 <= IDENTICAL);
    }
}

/// Makes sure that a package is locked where it is to be updated. Where it is not, names those
/// that are most like it.
pub fn ensure_package_exists(
    locked: &Vec<LockedNames>,
    package_name: &str,
    specs: &UpdateSpecs,
) -> (result: Result<(), PackageNotFound>)
    ensures
        match result {
            Ok(()) => selected_names(*specs, locked@).contains(package_name@),
            Err(fault) => !selected_names(*specs, locked@).contains(package_name@)
                && reports_missing(
                fault,
                package_name@,
                proposals(scored(distinct(selected_names(*specs, locked@)), package_name@)),
            ),
        },
{
    let names = collect_names(specs, locked);
    let similar = propose(score(&names, package_name));
    proof {
        distinct_keeps_all(selected_names(*specs, locked@));
        lemma_target_is_first(views(names@), package_name@);
        if similar@.len() > 0 {
            assert(views(similar@)[0] == similar@[0]@);
        }
        assert(views(similar@).len() == similar@.len());
    }
    report_package(package_name, &similar)
}

/// Says whether a package is there, given the names that are most like it. It is exactly where the
/// first of them is its name.
pub fn report_package(package_name: &str, similar: &Vec<String>) -> (result: Result<
    (),
    PackageNotFound,
>)
    ensures
        match result {
            Ok(_) => similar@.len() > 0 && similar@[0]@ == package_name@,
            Err(fault) => !(similar@.len() > 0 && similar@[0]@ == package_name@)
                && reports_missing(fault, package_name@, views(similar@)),
        },
{
    assert(views(similar@).len() == similar@.len());
    if similar.len() > 0 {
        if same_text(similar[0].as_str(), package_name) {
            return Ok(());
        }
    }
    let mut message = "could not find a package named '".to_owned();
    message.append(package_name);
    message.append("'");
    let help = if similar.len() > 0 {
        let mut help = "did you mean '".to_owned();
        help.append(quote(similar).as_str());
        help.append("'?");
        Some(help)
    } else {
        None
    };
    Err(PackageNotFound { message, help })
}

/// Makes sure that all packages that are named for an update are locked there.
pub fn ensure_packages_exist(locked: &Vec<LockedNames>, specs: &UpdateSpecs) -> (result: Result<
    (),
    PackageNotFound,
>)
    ensures
        match result {
            Ok(_) => specs.packages matches Some(packages) ==> forall|i: int|
                0 <= i < packages@.len() ==> selected_names(*specs, locked@).contains(
                    (#[trigger] packages@[i])@,
                ),
            Err(fault) => specs.packages matches Some(packages) && exists|at: int| #[trigger]
                first_missing(packages@, selected_names(*specs, locked@), at) && reports_missing(
                    fault,
                    packages@[at]@,
                    proposals(scored(distinct(selected_names(*specs, locked@)), packages@[at]@)),
                ),
        },
{
    let packages = match &specs.packages {
        Some(packages) => packages,
        None => return Ok(()),
    };
    ensure_all_exist(packages, locked, specs)
}

/// Makes sure that all of these packages are locked.
fn ensure_all_exist(
    packages: &Vec<String>,
    locked: &Vec<LockedNames>,
    specs: &UpdateSpecs,
) -> (result: Result<(), PackageNotFound>)
    ensures
        match result {
            Ok(_) => forall|i: int|
                0 <= i < packages@.len() ==> selected_names(*specs, locked@).contains(
                    (#[trigger] packages@[i])@,
                ),
            Err(fault) => exists|at: int| #[trigger]
                first_missing(packages@, selected_names(*specs, locked@), at) && reports_missing(
                    fault,
                    packages@[at]@,
                    proposals(scored(distinct(selected_names(*specs, locked@)), packages@[at]@)),
                ),
        },
{
    let mut i: usize = 0;
    while i < packages.len()
        invariant
            i <= packages.len(),
            forall|k: int|
                0 <= k < i ==> selected_names(*specs, locked@).contains(
                    (#[trigger] packages@[k])@,
                ),
        decreases packages.len() - i,
    {
        match ensure_package_exists(locked, packages[i].as_str(), specs) {
            Ok(()) => {},
            Err(fault) => {
                assert(first_missing(packages@, selected_names(*specs, locked@), i as int));
                return Err(fault);
            },
        }
        i += 1;
    }
    Ok(())
}

/// The first of the packages that is not among the names.
pub open spec fn first_missing(packages: Seq<String>, names: Seq<Seq<char>>, at: int) -> bool {
    &&& 0 <= at < packages.len()
    &&& !names.contains(packages[at]@)
    &&& forall|i: int| 0 <= i < at ==> names.contains((#[trigger] packages[i])@)
}

} // verus!
