//! What it means that a lock file stands for a project, said of each environment, each platform
//! and each solve group on its own.
use vstd::prelude::*;

use crate::lock_file::{
    environment_fails, environment_holds, environments_hold, first_group_fault, first_removed,
    has_environment, holds, lock_file_verdict, locked_as, GroupCheck, LockedEntry, LockfileUnsat,
    ProjectEnvironment,
};
use crate::satisfiability::{satisfies, SatisfiabilityMode};

verus! {

/// The entry is the first of the lock file with this name.
pub open spec fn is_first_entry(locked: Seq<LockedEntry>, name: Seq<char>, at: int) -> bool {
    &&& 0 <= at < locked.len()
    &&& locked[at].name@ == name
    &&& forall|i: int| 0 <= i < at ==> (#[trigger] locked[i]).name@ != name
}

/// The lock file has no entry with this name.
pub open spec fn is_absent(locked: Seq<LockedEntry>, name: Seq<char>) -> bool {
    forall|i: int| 0 <= i < locked.len() ==> (#[trigger] locked[i]).name@ != name
}

/// The environment is locked, its entry stands for it, and no platform of it has a fault.
pub open spec fn is_well(
    environment: ProjectEnvironment,
    locked: Seq<LockedEntry>,
    mode: SatisfiabilityMode,
) -> bool {
    &&& exists|at: int| #[trigger]
        is_first_entry(locked, environment.name@, at) && holds(
            environment.requested,
            locked[at].environment,
            mode,
        )
    &&& forall|i: int|
        0 <= i < environment.platforms@.len() ==> (#[trigger] environment.platforms@[i]).fault
            is None
}

/// Every environment of the lock file is one of the project.
pub open spec fn none_was_removed(
    project: Seq<ProjectEnvironment>,
    locked: Seq<LockedEntry>,
) -> bool {
    forall|j: int|
        0 <= j < locked.len() ==> exists|i: int|
            0 <= i < project.len() && (#[trigger] project[i]).name@ == (#[trigger] locked[j]).name@
}

/// Every environment of the project is well.
pub open spec fn all_are_well(
    project: Seq<ProjectEnvironment>,
    locked: Seq<LockedEntry>,
    mode: SatisfiabilityMode,
) -> bool {
    forall|i: int| 0 <= i < project.len() ==> is_well(#[trigger] project[i], locked, mode)
}

/// What is found from an entry on is the first entry with the name from there on.
proof fn lemma_first(locked: Seq<LockedEntry>, name: Seq<char>, from: int)
    requires
        0 <= from <= locked.len(),
        forall|i: int| 0 <= i < from ==> (#[trigger] locked[i]).name@ != name,
    ensures
        match locked_as(locked, name, from) {
            Some(entry) => exists|at: int| #[trigger]
                is_first_entry(locked, name, at) && entry == locked[at],
            None => is_absent(locked, name),
        },
    decreases locked.len() - from,
{
    if from < locked.len() {
        if locked[from].name@ == name {
            assert(is_first_entry(locked, name, from));
        } else {
            lemma_first(locked, name, from + 1);
        }
    }
}

/// An environment holds exactly if it is well.
proof fn lemma_well(
    environment: ProjectEnvironment,
    locked: Seq<LockedEntry>,
    mode: SatisfiabilityMode,
)
    ensures
        environment_holds(environment, locked, mode) ==> is_well(environment, locked, mode),
{
    lemma_first(locked, environment.name@, 0);
}

/// Environments that hold are well.
proof fn lemma_all_well(
    project: Seq<ProjectEnvironment>,
    locked: Seq<LockedEntry>,
    mode: SatisfiabilityMode,
    count: int,
)
    requires
        environments_hold(project, locked, mode, count),
        count <= project.len(),
    ensures
        forall|i: int| 0 <= i < count ==> is_well(#[trigger] project[i], locked, mode),
{
    assert forall|i: int| 0 <= i < count implies is_well(#[trigger] project[i], locked, mode) by {
        lemma_well(project[i], locked, mode);
    }
}

/// Unless a first one was removed, none was.
proof fn lemma_none_removed(project: Seq<ProjectEnvironment>, locked: Seq<LockedEntry>, count: int)
    requires
        0 <= count <= locked.len(),
        !exists|at: int| first_removed(project, locked, at),
    ensures
        forall|j: int| 0 <= j < count ==> has_environment(project, (#[trigger] locked[j]).name@),
    decreases count,
{
    if count > 0 {
        lemma_none_removed(project, locked, count - 1);
        assert(!first_removed(project, locked, count - 1));
    }
}

/// A lock file that stands for a project has no environment that the project does not have,
/// and every environment of the project, with an entry that stands for it. No platform of any
/// environment has a fault, and no solve group.
pub proof fn success_means_all_is_well(
    project: Seq<ProjectEnvironment>,
    locked: Seq<LockedEntry>,
    groups: Seq<GroupCheck>,
    mode: SatisfiabilityMode,
    result: Result<(), LockfileUnsat>,
)
    requires
        lock_file_verdict(project, locked, groups, mode, result),
        result is Ok,
    ensures
        none_was_removed(project, locked),
        all_are_well(project, locked, mode),
        forall|i: int| 0 <= i < groups.len() ==> (#[trigger] groups[i]).fault is None,
{
    lemma_none_removed(project, locked, locked.len() as int);
    assert forall|j: int| 0 <= j < locked.len() implies exists|i: int|
        0 <= i < project.len() && (#[trigger] project[i]).name@ == (
        #[trigger] locked[j]).name@ by {
        assert(has_environment(project, locked[j].name@));
    }
    lemma_all_well(project, locked, mode, project.len() as int);
}

/// Something of the project and the lock file is what the error says.
pub open spec fn is_true(
    project: Seq<ProjectEnvironment>,
    locked: Seq<LockedEntry>,
    groups: Seq<GroupCheck>,
    mode: SatisfiabilityMode,
    error: LockfileUnsat,
) -> bool {
    match error {
        LockfileUnsat::EnvironmentRemoved(name) => !is_absent(locked, name@) && forall|i: int|
            0 <= i < project.len() ==> (#[trigger] project[i]).name@ != name@,
        LockfileUnsat::EnvironmentMissing(name) => is_absent(locked, name@) && exists|i: int|
            0 <= i < project.len() && (#[trigger] project[i]).name@ == name@,
        LockfileUnsat::Environment(name, reason) => exists|i: int, j: int|
            0 <= i < project.len() && (#[trigger] project[i]).name@ == name@
                && #[trigger] is_first_entry(locked, name@, j) && satisfies(
                project[i].requested,
                locked[j].environment,
                mode,
                Err(reason),
            ),
        LockfileUnsat::PlatformUnsat(name, platform, fault) => {
            ||| exists|i: int, k: int|
                #![trigger project[i].platforms@[k]]
                0 <= i < project.len() && project[i].name@ == name@ && 0 <= k
                    < project[i].platforms@.len() && project[i].platforms@[k].platform@
                    == platform@ && (project[i].platforms@[k].fault matches Some(found) && found@
                    == fault@)
            ||| exists|i: int|
                0 <= i < groups.len() && !(#[trigger] groups[i]).is_group && groups[i].name@
                    == name@ && groups[i].platform@ == platform@ && (
                groups[i].fault matches Some(found) && found@ == fault@)
        },
        LockfileUnsat::SolveGroupUnsat(name, platform, fault) => exists|i: int|
            0 <= i < groups.len() && (#[trigger] groups[i]).is_group && groups[i].name@ == name@
                && groups[i].platform@ == platform@ && (groups[i].fault matches Some(found)
                && found@ == fault@),
    }
}

/// What is wrong with one environment is true of the whole.
proof fn lemma_failing_environment(
    project: Seq<ProjectEnvironment>,
    locked: Seq<LockedEntry>,
    groups: Seq<GroupCheck>,
    mode: SatisfiabilityMode,
    at: int,
    error: LockfileUnsat,
)
    requires
        0 <= at < project.len(),
        environment_fails(project[at], locked, mode, error),
    ensures
        is_true(project, locked, groups, mode, error),
        !(error is EnvironmentRemoved),
        !(error is SolveGroupUnsat),
{
    let environment = project[at];
    lemma_first(locked, environment.name@, 0);
}

/// What is said to be wrong is. An environment that was removed is named before anything else, and
/// a solve group only where every environment is well.
pub proof fn what_is_wrong_is_true(
    project: Seq<ProjectEnvironment>,
    locked: Seq<LockedEntry>,
    groups: Seq<GroupCheck>,
    mode: SatisfiabilityMode,
    error: LockfileUnsat,
)
    requires
        lock_file_verdict(project, locked, groups, mode, Err(error)),
    ensures
        is_true(project, locked, groups, mode, error),
        error is EnvironmentRemoved <==> !none_was_removed(project, locked),
        error is SolveGroupUnsat ==> all_are_well(project, locked, mode),
{
    if exists|at: int| first_removed(project, locked, at) {
        match error {
            LockfileUnsat::EnvironmentRemoved(name) => {
                let at = choose|at: int| #[trigger]
                    first_removed(project, locked, at) && name@ == locked[at].name@;
                assert(locked[at].name@ == name@);
                assert forall|i: int| 0 <= i < project.len() implies (#[trigger] project[i]).name@
                    != name@ by {
                    assert(!has_environment(project, name@));
                }
            },
            _ => {},
        }
    } else {
        lemma_none_removed(project, locked, locked.len() as int);
        assert forall|j: int| 0 <= j < locked.len() implies exists|i: int|
            0 <= i < project.len() && (#[trigger] project[i]).name@ == (
            #[trigger] locked[j]).name@ by {
            assert(has_environment(project, locked[j].name@));
        }
        if exists|at: int|
            0 <= at < project.len() && #[trigger] environments_hold(project, locked, mode, at)
                && environment_fails(project[at], locked, mode, error) {
            let at = choose|at: int|
                0 <= at < project.len() && #[trigger] environments_hold(project, locked, mode, at)
                    && environment_fails(project[at], locked, mode, error);
            lemma_failing_environment(project, locked, groups, mode, at, error);
        } else {
            lemma_all_well(project, locked, mode, project.len() as int);
            let at = choose|at: int| #[trigger]
                first_group_fault(groups, at) && crate::lock_file::reports_group(
                    groups[at],
                    error,
                );
            assert(groups[at].fault is Some);
        }
    }
}

} // verus!
