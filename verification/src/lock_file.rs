//! Whether a lock file still stands for all environments of a project.
use vstd::prelude::*;

use crate::satisfiability::{
    satisfies, verify_environment_satisfiability_with_mode, LockedEnvironment,
    RequestedEnvironment, SatisfiabilityMode,
};
use crate::text::same_text;
use crate::unsat::EnvironmentUnsat;

verus! {

/// What came of checking the packages of one platform.
#[derive(Debug)]
pub struct PlatformCheck {
    pub platform: String,
    /// Why the packages do not meet the requirements, if they do not.
    pub fault: Option<String>,
}

/// An environment of the project.
#[derive(Debug)]
pub struct ProjectEnvironment {
    pub name: String,
    pub requested: RequestedEnvironment,
    pub platforms: Vec<PlatformCheck>,
}

/// An environment of the lock file.
#[derive(Debug)]
pub struct LockedEntry {
    pub name: String,
    pub environment: LockedEnvironment,
}

/// What came of checking the environments of a solve group, or one environment that is in none,
/// on one platform.
#[derive(Debug)]
pub struct GroupCheck {
    pub name: String,
    /// The name is that of a solve group, not of an environment.
    pub is_group: bool,
    pub platform: String,
    /// Why the packages do not go together, if they do not.
    pub fault: Option<String>,
}

/// Why a lock file does not stand for a project.
#[derive(Debug)]
pub enum LockfileUnsat {
    /// The environment is in the lock file but no longer in the project.
    EnvironmentRemoved(String),
    /// The environment is not in the lock file.
    EnvironmentMissing(String),
    /// The environment does not satisfy the requirements of the project.
    Environment(String, EnvironmentUnsat),
    /// The environment does not satisfy the requirements of the project on a platform.
    PlatformUnsat(String, String, String),
    /// The solve group does not satisfy the requirements of the project on a platform.
    SolveGroupUnsat(String, String, String),
}

/// The project has an environment of this name.
pub open spec fn has_environment(project: Seq<ProjectEnvironment>, name: Seq<char>) -> bool {
    exists|i: int| 0 <= i < project.len() && (#[trigger] project[i]).name@ == name
}

/// The first environment of the lock file that the project does not have.
pub open spec fn first_removed(
    project: Seq<ProjectEnvironment>,
    locked: Seq<LockedEntry>,
    at: int,
) -> bool {
    &&& 0 <= at < locked.len()
    &&& !has_environment(project, locked[at].name@)
    &&& forall|i: int| 0 <= i < at ==> has_environment(project, (#[trigger] locked[i]).name@)
}

/// The environment of this name in the lock file, from the given entry on.
pub open spec fn locked_as(locked: Seq<LockedEntry>, name: Seq<char>, from: int) -> Option<
    LockedEntry,
>
    decreases locked.len() - from,
{
    if 0 <= from < locked.len() {
        if locked[from].name@ == name {
            Some(locked[from])
        } else {
            locked_as(locked, name, from + 1)
        }
    } else {
        None
    }
}

/// The first of the checks that found a fault.
pub open spec fn first_platform_fault(checks: Seq<PlatformCheck>, at: int) -> bool {
    &&& 0 <= at < checks.len()
    &&& checks[at].fault is Some
    &&& forall|i: int| 0 <= i < at ==> (#[trigger] checks[i]).fault is None
}

/// None of the checks found a fault.
pub open spec fn no_platform_fault(checks: Seq<PlatformCheck>) -> bool {
    forall|i: int| 0 <= i < checks.len() ==> (#[trigger] checks[i]).fault is None
}

/// The locked environment stands for the requested one.
pub open spec fn holds(
    requested: RequestedEnvironment,
    locked: LockedEnvironment,
    mode: SatisfiabilityMode,
) -> bool {
    exists|result: Result<(), EnvironmentUnsat>|
        result is Ok && #[trigger] satisfies(requested, locked, mode, result)
}

/// An environment of the project is well.
pub open spec fn environment_holds(
    environment: ProjectEnvironment,
    locked: Seq<LockedEntry>,
    mode: SatisfiabilityMode,
) -> bool {
    (locked_as(locked, environment.name@, 0) matches Some(entry) && holds(
        environment.requested,
        entry.environment,
        mode,
    )) && no_platform_fault(environment.platforms@)
}

/// `error` says what is wrong with an environment of the project.
pub open spec fn environment_fails(
    environment: ProjectEnvironment,
    locked: Seq<LockedEntry>,
    mode: SatisfiabilityMode,
    error: LockfileUnsat,
) -> bool {
    match (locked_as(locked, environment.name@, 0), error) {
        (None, LockfileUnsat::EnvironmentMissing(name)) => name@ == environment.name@,
        (Some(entry), LockfileUnsat::Environment(name, error)) => name@ == environment.name@
            && satisfies(environment.requested, entry.environment, mode, Err(error)),
        (Some(entry), LockfileUnsat::PlatformUnsat(name, platform, fault)) => name@
            == environment.name@ && holds(environment.requested, entry.environment, mode)
            && exists|at: int| #[trigger]
            first_platform_fault(environment.platforms@, at) && platform@
                == environment.platforms@[at].platform@ && fault@
                == environment.platforms@[at].fault->Some_0@,
        _ => false,
    }
}

/// Every environment of the project up to the given one is well.
pub open spec fn environments_hold(
    project: Seq<ProjectEnvironment>,
    locked: Seq<LockedEntry>,
    mode: SatisfiabilityMode,
    count: int,
) -> bool {
    forall|i: int|
        0 <= i < count ==> environment_holds(#[trigger] project[i], locked, mode)
}

/// The first of the checks that found a fault.
pub open spec fn first_group_fault(checks: Seq<GroupCheck>, at: int) -> bool {
    &&& 0 <= at < checks.len()
    &&& checks[at].fault is Some
    &&& forall|i: int| 0 <= i < at ==> (#[trigger] checks[i]).fault is None
}

/// `error` names the fault that a check found.
pub open spec fn reports_group(check: GroupCheck, error: LockfileUnsat) -> bool {
    match error {
        LockfileUnsat::SolveGroupUnsat(name, platform, fault) => check.is_group && name@
            == check.name@ && platform@ == check.platform@ && (check.fault matches Some(found)
            && fault@ == found@),
        LockfileUnsat::PlatformUnsat(name, platform, fault) => !check.is_group && name@
            == check.name@ && platform@ == check.platform@ && (check.fault matches Some(found)
            && fault@ == found@),
        _ => false,
    }
}

/// `result` says whether the lock file stands for the project. It names the first thing that is
/// wrong: an environment that was removed, then one that is missing or does not hold, then a
/// solve group.
pub open spec fn lock_file_verdict(
    project: Seq<ProjectEnvironment>,
    locked: Seq<LockedEntry>,
    groups: Seq<GroupCheck>,
    mode: SatisfiabilityMode,
    result: Result<(), LockfileUnsat>,
) -> bool {
    if exists|at: int| first_removed(project, locked, at) {
        result matches Err(LockfileUnsat::EnvironmentRemoved(name)) && exists|at: int| #[trigger]
            first_removed(project, locked, at) && name@ == locked[at].name@
    } else {
        match result {
            Ok(()) => environments_hold(project, locked, mode, project.len() as int) && forall|
                i: int,
            |
                0 <= i < groups.len() ==> (#[trigger] groups[i]).fault is None,
            Err(error) => {
                ||| exists|at: int|
                    0 <= at < project.len() && #[trigger] environments_hold(
                        project,
                        locked,
                        mode,
                        at,
                    ) && environment_fails(project[at], locked, mode, error)
                ||| environments_hold(project, locked, mode, project.len() as int) && exists|
                    at: int,
                | #[trigger]
                    first_group_fault(groups, at) && reports_group(groups[at], error)
            },
        }
    }
}

/// Finds an environment of the lock file.
fn find_locked<'a>(locked: &'a Vec<LockedEntry>, name: &str) -> (found: Option<&'a LockedEntry>)
    ensures
        match found {
            Some(entry) => locked_as(locked@, name@, 0) == Some(*entry),
            None => locked_as(locked@, name@, 0) is None,
        },
{
    let mut i: usize = 0;
    while i < locked.len()
        invariant
            i <= locked.len(),
            locked_as(locked@, name@, 0) == locked_as(locked@, name@, i as int),
        decreases locked.len() - i,
    {
        if same_text(locked[i].name.as_str(), name) {
            return Some(&locked[i]);
        }
        i += 1;
    }
    None
}

/// Whether the project has an environment of a name.
fn project_has(project: &Vec<ProjectEnvironment>, name: &str) -> (has: bool)
    ensures
        has == has_environment(project@, name@),
{
    let mut i: usize = 0;
    while i < project.len()
        invariant
            i <= project.len(),
            forall|k: int| 0 <= k < i ==> (#[trigger] project@[k]).name@ != name@,
        decreases project.len() - i,
    {
        if same_text(project[i].name.as_str(), name) {
            return true;
        }
        i += 1;
    }
    false
}

/// Checks one environment of the project.
fn verify_environment(
    environment: &ProjectEnvironment,
    locked: &Vec<LockedEntry>,
    mode: SatisfiabilityMode,
) -> (result: Result<(), LockfileUnsat>)
    ensures
        match result {
            Ok(()) => environment_holds(*environment, locked@, mode),
            Err(error) => environment_fails(*environment, locked@, mode, error),
        },
{
    let entry = match find_locked(locked, environment.name.as_str()) {
        Some(entry) => entry,
        None => return Err(LockfileUnsat::EnvironmentMissing(environment.name.clone())),
    };
    match verify_environment_satisfiability_with_mode(
        &environment.requested,
        &entry.environment,
        mode,
    ) {
        Ok(()) => {},
        Err(error) => return Err(LockfileUnsat::Environment(environment.name.clone(), error)),
    }
    let mut i: usize = 0;
    while i < environment.platforms.len()
        invariant
            i <= environment.platforms.len(),
            locked_as(locked@, environment.name@, 0) == Some(*entry),
            holds(environment.requested, entry.environment, mode),
            forall|k: int| 0 <= k < i ==> (#[trigger] environment.platforms@[k]).fault is None,
        decreases environment.platforms.len() - i,
    {
        let check = &environment.platforms[i];
        match &check.fault {
            Some(fault) => {
                assert(first_platform_fault(environment.platforms@, i as int));
                return Err(
                    LockfileUnsat::PlatformUnsat(
                        environment.name.clone(),
                        check.platform.clone(),
                        fault.clone(),
                    ),
                );
            },
            None => {},
        }
        i += 1;
    }
    Ok(())
}

/// Tells whether a lock file stands for all environments of a project under a mode.
pub fn verify_lock_file_satisfiability_with_mode(
    project: &Vec<ProjectEnvironment>,
    locked: &Vec<LockedEntry>,
    groups: &Vec<GroupCheck>,
    mode: SatisfiabilityMode,
) -> (result: Result<(), LockfileUnsat>)
    ensures
        lock_file_verdict(project@, locked@, groups@, mode, result),
{
    let mut i: usize = 0;
    while i < locked.len()
        invariant
            i <= locked.len(),
            forall|k: int|
                0 <= k < i ==> has_environment(project@, (#[trigger] locked@[k]).name@),
        decreases locked.len() - i,
    {
        if !project_has(project, locked[i].name.as_str()) {
            assert(first_removed(project@, locked@, i as int));
            return Err(LockfileUnsat::EnvironmentRemoved(locked[i].name.clone()));
        }
        i += 1;
    }
    assert(!exists|at: int| first_removed(project@, locked@, at));
    let mut i: usize = 0;
    while i < project.len()
        invariant
            i <= project.len(),
            !exists|at: int| first_removed(project@, locked@, at),
            environments_hold(project@, locked@, mode, i as int),
        decreases project.len() - i,
    {
        match verify_environment(&project[i], locked, mode) {
            Ok(()) => {},
            Err(error) => return Err(error),
        }
        i += 1;
    }
    let mut i: usize = 0;
    while i < groups.len()
        invariant
            i <= groups.len(),
            !exists|at: int| first_removed(project@, locked@, at),
            environments_hold(project@, locked@, mode, project@.len() as int),
            forall|k: int| 0 <= k < i ==> (#[trigger] groups@[k]).fault is None,
        decreases groups.len() - i,
    {
        let check = &groups[i];
        match &check.fault {
            Some(fault) => {
                assert(first_group_fault(groups@, i as int));
                if check.is_group {
                    return Err(
                        LockfileUnsat::SolveGroupUnsat(
                            check.name.clone(),
                            check.platform.clone(),
                            fault.clone(),
                        ),
                    );
                }
                return Err(
                    LockfileUnsat::PlatformUnsat(
                        check.name.clone(),
                        check.platform.clone(),
                        fault.clone(),
                    ),
                );
            },
            None => {},
        }
        i += 1;
    }
    Ok(())
}

/// Tells whether a lock file reproduces all environments of a project exactly.
pub fn verify_lock_file_satisfiability(
    project: &Vec<ProjectEnvironment>,
    locked: &Vec<LockedEntry>,
    groups: &Vec<GroupCheck>,
) -> (result: Result<(), LockfileUnsat>)
    ensures
        lock_file_verdict(project@, locked@, groups@, SatisfiabilityMode::Exact, result),
{
    verify_lock_file_satisfiability_with_mode(project, locked, groups, SatisfiabilityMode::Exact)
}

} // verus!
