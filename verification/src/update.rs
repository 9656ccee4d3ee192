//! Which packages an update may change, and whether they are there at all.
use vstd::prelude::*;

use crate::ordered::{contains_text, views};

verus! {

/// What to update, as it was asked for. Nothing given stands for everything.
#[derive(Debug)]
pub struct UpdateSpecsArgs {
    /// The packages to update.
    pub packages: Option<Vec<String>>,
    /// The environments to update.
    pub environments: Option<Vec<String>>,
    /// The platforms to update.
    pub platforms: Option<Vec<String>>,
}

/// What to update, with everything named once.
#[derive(Debug)]
pub struct UpdateSpecs {
    pub packages: Option<Vec<String>>,
    pub environments: Option<Vec<String>>,
    pub platforms: Option<Vec<String>>,
}

/// Why an update is refused before it begins.
#[derive(Debug)]
pub enum UpdateRefusal {
    /// A script has one implicit environment, and others were named.
    ScriptEnvironment,
    /// There is no environment of this name.
    UnknownEnvironment(String),
}

/// The texts in the order in which they first occur.
pub open spec fn distinct(texts: Seq<Seq<char>>) -> Seq<Seq<char>>
    decreases texts.len(),
{
    if texts.len() == 0 {
        texts
    } else {
        let front = distinct(texts.drop_last());
        if front.contains(texts.last()) {
            front
        } else {
            front.push(texts.last())
        }
    }
}

/// The texts of a list that may be missing, each once.
pub open spec fn distinct_if_given(texts: Option<Vec<String>>) -> Option<Seq<Seq<char>>> {
    match texts {
        Some(texts) => Some(distinct(views(texts@))),
        None => None,
    }
}

/// The texts of a list that may be missing.
pub open spec fn if_given(texts: Option<Vec<String>>) -> Option<Seq<Seq<char>>> {
    match texts {
        Some(texts) => Some(views(texts@)),
        None => None,
    }
}

/// A list that is missing lets everything pass.
pub open spec fn lets_pass(texts: Option<Vec<String>>, text: Seq<char>) -> bool {
    texts matches Some(texts) ==> views(texts@).contains(text)
}

/// Naming everything once changes nothing about what is named, and nothing is named twice.
pub proof fn distinct_keeps_all(texts: Seq<Seq<char>>)
    ensures
        distinct(texts).no_duplicates(),
        forall|text: Seq<char>| #[trigger] distinct(texts).contains(text) <==> texts.contains(text),
    decreases texts.len(),
{
    if texts.len() > 0 {
        let front = distinct(texts.drop_last());
        distinct_keeps_all(texts.drop_last());
        assert forall|text: Seq<char>| #[trigger] distinct(texts).contains(text)
            <==> texts.contains(text) by {
            if texts.contains(text) {
                let i = choose|i: int| 0 <= i < texts.len() && texts[i] == text;
                if i < texts.len() - 1 {
                    assert(texts.drop_last()[i] == text);
                    assert(front.contains(text));
                    let j = choose|j: int| 0 <= j < front.len() && front[j] == text;
                    assert(distinct(texts)[j] == text);
                } else if !front.contains(texts.last()) {
                    assert(distinct(texts)[front.len() as int] == text);
                }
            }
            if distinct(texts).contains(text) && !front.contains(text) {
                assert(text == texts.last());
                assert(texts[texts.len() - 1] == text);
            }
            if front.contains(text) {
                assert(texts.drop_last().contains(text));
                let i = choose|i: int|
                    0 <= i < texts.drop_last().len() && texts.drop_last()[i] == text;
                assert(texts[i] == text);
            }
        }
    }
}

/// Appends a text to a list, unless it is there already.
pub(crate) fn push_distinct(texts: &mut Vec<String>, text: &String, Ghost(all): Ghost<Seq<Seq<char>>>)
    requires
        views(old(texts)@) == distinct(all),
    ensures
        views(final(texts)@) == distinct(all.push(text@)),
{
    assert(all.push(text@).drop_last() =~= all);
    if !contains_text(texts, text.as_str()) {
        let ghost before = texts@;
        texts.push(text.clone());
        assert(views(texts@) =~= views(before).push(text@));
    }
}

/// Drops the texts that occur again.
fn keep_distinct(texts: &Vec<String>) -> (kept: Vec<String>)
    ensures
        views(kept@) == distinct(views(texts@)),
{
    let ghost all = views(texts@);
    let mut kept: Vec<String> = Vec::new();
    let mut i: usize = 0;
    assert(views(kept@) =~= distinct(all.take(0)));
    while i < texts.len()
        invariant
            i <= texts.len(),
            all == views(texts@),
            views(kept@) == distinct(all.take(i as int)),
        decreases texts.len() - i,
    {
        assert(all.take(i + 1) =~= all.take(i as int).push(texts@[i as int]@));
        push_distinct(&mut kept, &texts[i], Ghost(all.take(i as int)));
        i += 1;
    }
    assert(all.take(i as int) =~= all);
    kept
}

/// Drops the texts that occur again, where there are any.
fn keep_distinct_if_given(texts: &Option<Vec<String>>) -> (kept: Option<Vec<String>>)
    ensures
        if_given(kept) == distinct_if_given(*texts),
{
    match texts {
        Some(texts) => Some(keep_distinct(texts)),
        None => None,
    }
}

/// Whether a list that may be missing lets a text pass.
pub(crate) fn passes(texts: &Option<Vec<String>>, text: &str) -> (pass: bool)
    ensures
        pass == lets_pass(*texts, text@),
{
    match texts {
        Some(texts) => contains_text(texts, text),
        None => true,
    }
}

/// The first of the environments that is not known.
pub open spec fn first_unknown(
    environments: Seq<String>,
    known: Seq<Seq<char>>,
    at: int,
) -> bool {
    &&& 0 <= at < environments.len()
    &&& !known.contains(environments[at]@)
    &&& forall|i: int| 0 <= i < at ==> known.contains((#[trigger] environments[i])@)
}

impl UpdateSpecs {
    /// Distills what was asked for.
    pub fn from_args(args: &UpdateSpecsArgs) -> (specs: UpdateSpecs)
        ensures
            if_given(specs.packages) == distinct_if_given(args.packages),
            if_given(specs.environments) == distinct_if_given(args.environments),
            if_given(specs.platforms) == distinct_if_given(args.platforms),
    {
        UpdateSpecs {
            packages: keep_distinct_if_given(&args.packages),
            environments: keep_distinct_if_given(&args.environments),
            platforms: keep_distinct_if_given(&args.platforms),
        }
    }

    /// The update is scoped to part of the lock file.
    pub fn is_selective(&self) -> (selective: bool)
        ensures
            selective == (self.packages is Some || self.platforms is Some),
    {
        self.packages.is_some() || self.platforms.is_some()
    }

    /// A locked package may change: its platform, its environment and its name are all among
    /// those to update.
    pub open spec fn relaxes(
        self,
        environment: Seq<char>,
        platform: Seq<char>,
        package: Seq<char>,
    ) -> bool {
        &&& lets_pass(self.platforms, platform)
        &&& lets_pass(self.environments, environment)
        &&& lets_pass(self.packages, package)
    }

    /// Whether a locked package may change.
    pub fn should_relax(&self, environment: &str, platform: &str, package: &str) -> (relax: bool)
        ensures
            relax == self.relaxes(environment@, platform@, package@),
    {
        passes(&self.platforms, platform) && passes(&self.environments, environment) && passes(
            &self.packages,
            package,
        )
    }

    /// Refuses environments that are not there, and any for a script.
    pub fn check_environments(&self, is_script: bool, known: &Vec<String>) -> (result: Result<
        (),
        UpdateRefusal,
    >)
        ensures
            match self.environments {
                None => result is Ok,
                Some(environments) => if is_script {
                    result matches Err(UpdateRefusal::ScriptEnvironment)
                } else {
                    match result {
                        Ok(()) => forall|i: int|
                            0 <= i < environments@.len() ==> views(known@).contains(
                                (#[trigger] environments@[i])@,
                            ),
                        Err(refusal) => refusal matches UpdateRefusal::UnknownEnvironment(name)
                            && exists|at: int| #[trigger]
                            first_unknown(environments@, views(known@), at) && name@
                                == environments@[at]@,
                    }
                },
            },
    {
        let environments = match &self.environments {
            Some(environments) => environments,
            None => return Ok(()),
        };
        if is_script {
            return Err(UpdateRefusal::ScriptEnvironment);
        }
        match find_unknown(environments, known) {
            Some(at) => Err(UpdateRefusal::UnknownEnvironment(environments[at].clone())),
            None => Ok(()),
        }
    }
}

/// Finds the first of the environments that is not known.
fn find_unknown(environments: &Vec<String>, known: &Vec<String>) -> (found: Option<usize>)
    ensures
        match found {
            Some(at) => first_unknown(environments@, views(known@), at as int),
            None => forall|i: int|
                0 <= i < environments@.len() ==> views(known@).contains(
                    (#[trigger] environments@[i])@,
                ),
        },
{
    let mut i: usize = 0;
    while i < environments.len()
        invariant
            i <= environments.len(),
            forall|k: int| 0 <= k < i ==> views(known@).contains((#[trigger] environments@[k])@),
        decreases environments.len() - i,
    {
        if !contains_text(known, environments[i].as_str()) {
            return Some(i);
        }
        i += 1;
    }
    None
}

/// A package of a lock file.
#[derive(Debug)]
pub struct LockedName {
    pub environment: String,
    pub platform: String,
    pub package: String,
}

/// A package of a lock file may not change.
pub open spec fn stays(specs: UpdateSpecs, locked: LockedName) -> bool {
    !specs.relaxes(locked.environment@, locked.platform@, locked.package@)
}

/// Which packages of a lock file stay locked: those that are not to be updated.
pub fn unlock_packages(locked: &Vec<LockedName>, specs: &UpdateSpecs) -> (kept: Vec<bool>)
    ensures
        kept@.len() == locked@.len(),
        forall|i: int| 0 <= i < kept@.len() ==> #[trigger] kept@[i] == stays(*specs, locked@[i]),
{
    let mut kept: Vec<bool> = Vec::new();
    let mut i: usize = 0;
    while i < locked.len()
        invariant
            i <= locked.len(),
            kept@.len() == i,
            forall|k: int| 0 <= k < i ==> #[trigger] kept@[k] == stays(*specs, locked@[k]),
        decreases locked.len() - i,
    {
        let name = &locked[i];
        kept.push(
            !specs.should_relax(
                name.environment.as_str(),
                name.platform.as_str(),
                name.package.as_str(),
            ),
        );
        i += 1;
    }
    kept
}

/// An update of everything unlocks everything, and an update of named packages unlocks no others.
pub proof fn updates_unlock_what_they_name(specs: UpdateSpecs, locked: LockedName)
    ensures
        specs.packages is None && specs.environments is None && specs.platforms is None ==> !stays(
            specs,
            locked,
        ),
        specs.packages matches Some(packages) && !views(packages@).contains(locked.package@)
            ==> stays(specs, locked),
{
}

} // verus!
