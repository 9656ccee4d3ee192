//! When a locked environment stands for the requested one, said of each channel, platform, package
//! and option on its own.
use vstd::prelude::*;

use crate::ordered::views;
use crate::pypi::{
    build_fault, build_scope, dist_kind, interpreter, is_package_name, kind_fault, location_file,
    location_text, location_url, normalized, url_last_segment, url_scheme,
    wheel_fault, wheel_fits, wheel_of, wheel_package, wheel_tags, BuildScope, DistKind,
    LockedCondaPackage, LockedPypiPackage, NoBuild, PackageFault,
};
use crate::satisfiability::{
    all_resolved, base_url, channels_verdict, custom_packages, fault_in, fault_on, has_additional,
    has_changed, indexes_agree, indexes_differ, is_home_relative, is_subdir_default,
    names_additional, options_verdict, packages_for, platform_by_name, pypi_fault, resolve_to,
    satisfies, verdict, ExcludeNewer, LockedEnvironment, LockedPackages, LockedPlatform,
    RequestedEnvironment, SatisfiabilityMode, VirtualPackage, WorkspacePlatform,
};
use crate::unsat::EnvironmentUnsat;

verus! {

/// This is the first platform of a name that a workspace defines.
pub open spec fn is_defined_at(
    platforms: Seq<WorkspacePlatform>,
    name: Seq<char>,
    at: int,
) -> bool {
    &&& 0 <= at < platforms.len()
    &&& platforms[at].name@ == name
    &&& forall|i: int| 0 <= i < at ==> (#[trigger] platforms[i]).name@ != name
}

/// These are the first packages that are locked for a platform.
pub open spec fn is_locked_at(packages: Seq<LockedPackages>, platform: Seq<char>, at: int) -> bool {
    &&& 0 <= at < packages.len()
    &&& packages[at].platform@ == platform
    &&& forall|i: int| 0 <= i < at ==> (#[trigger] packages[i]).platform@ != platform
}

/// This is the first Python interpreter among binary packages.
pub open spec fn is_python_at(packages: Seq<LockedCondaPackage>, at: int) -> bool {
    &&& 0 <= at < packages.len()
    &&& packages[at].binary && packages[at].python
    &&& forall|i: int|
        0 <= i < at ==> !((#[trigger] packages[i]).binary && packages[i].python)
}

/// Some sources may not be built.
pub open spec fn restricts_builds(no_build: Option<NoBuild>) -> bool {
    no_build matches Some(choice) && !(choice is Nothing)
}

/// The sources of a package of this name may not be built: none may, or the name is among those
/// that were given, however it was written there.
pub open spec fn forbids_building(no_build: Option<NoBuild>, name: Seq<char>) -> bool {
    match no_build {
        Some(NoBuild::All) => true,
        Some(NoBuild::Packages(names)) => exists|i: int|
            0 <= i < names@.len() && is_package_name((#[trigger] names@[i])@) && normalized(
                names@[i]@,
            ) == name,
        _ => false,
    }
}

/// What is at the place of a package would have to be built: a repository, a directory, or a file
/// whose name says so.
pub open spec fn is_source(package: LockedPypiPackage) -> bool {
    match location_url(package.location) {
        Some(url) => "git+"@.is_prefix_of(url_scheme(url)) || file_kind(package) == Some(
            DistKind::Source,
        ),
        None => package.is_dir || file_kind(package) == Some(DistKind::Source),
    }
}

/// The kind of distribution that the name of a package's file says it is.
pub open spec fn file_kind(package: LockedPypiPackage) -> Option<DistKind> {
    match location_url(package.location) {
        Some(url) => dist_kind(
            match url_last_segment(url) {
                Some(segment) => segment,
                None => ""@,
            },
        ),
        None => dist_kind(location_text(package.location)),
    }
}

/// It can be told whether a package would have to be built.
pub open spec fn is_distribution(package: LockedPypiPackage) -> bool {
    is_source(package) || file_kind(package) is Some
}

/// A package is asked for as an editable path.
pub open spec fn is_editable_path(package: LockedPypiPackage) -> bool {
    location_url(package.location) is None && package.editable
}

/// A package may be used as far as building goes.
pub open spec fn needs_no_forbidden_build(
    no_build: Option<NoBuild>,
    package: LockedPypiPackage,
) -> bool {
    restricts_builds(no_build) && !is_editable_path(package) ==> is_distribution(package) && !(
    is_source(package) && forbids_building(no_build, package.name@))
}

/// A package is no wheel, or one that the interpreter locked beside it can use, as far as that can
/// be told.
pub open spec fn fits_interpreter(
    conda: Seq<LockedCondaPackage>,
    package: LockedPypiPackage,
) -> bool {
    forall|at: int|
        #![trigger conda[at]]
        is_python_at(conda, at) ==> (conda[at].tags matches Some(tags) ==> (location_file(
            package.location,
        ) matches Some(file) ==> (wheel_of(file) matches Some(wheel) ==> wheel_fits(wheel, tags))))
}

/// Every PyPI package that is locked for a platform which is asked for, and which the workspace
/// defines, may be used.
pub open spec fn packages_may_be_used(
    environment: RequestedEnvironment,
    locked: LockedEnvironment,
) -> bool {
    forall|platform: int, defined: int, at: int, index: int|
        #![trigger environment.platforms@[platform], environment.workspace_platforms@[defined], locked.packages@[at].pypi@[index]]
        0 <= platform < environment.platforms@.len() && is_defined_at(
            environment.workspace_platforms@,
            environment.platforms@[platform]@,
            defined,
        ) && is_locked_at(locked.packages@, environment.platforms@[platform]@, at) && 0 <= index
            < locked.packages@[at].pypi@.len() ==> needs_no_forbidden_build(
            environment.no_build,
            locked.packages@[at].pypi@[index],
        ) && fits_interpreter(locked.packages@[at].conda@, locked.packages@[at].pypi@[index])
}

/// The channels come to the same base URLs, in the same order.
pub open spec fn channels_agree(
    environment: RequestedEnvironment,
    locked: LockedEnvironment,
) -> bool {
    &&& environment.channels@.len() == locked.channels@.len()
    &&& forall|i: int|
        #![trigger environment.channels@[i]]
        #![trigger locked.channels@[i]]
        0 <= i < environment.channels@.len() ==> {
            let ours = base_url(environment.channels@[i]@, environment.channel_config);
            let theirs = base_url(locked.channels@[i]@, environment.channel_config);
            ours is Some && ours == theirs
        }
}

/// No channel is a place in the home directory.
pub open spec fn channels_are_settled(
    environment: RequestedEnvironment,
    locked: LockedEnvironment,
) -> bool {
    &&& forall|i: int|
        0 <= i < environment.channels@.len() ==> !is_home_relative(
            (#[trigger] environment.channels@[i])@,
        )
    &&& forall|i: int|
        0 <= i < locked.channels@.len() ==> !is_home_relative((#[trigger] locked.channels@[i])@)
}

/// A name is among those of the platforms that are asked for.
pub open spec fn is_asked_for(environment: RequestedEnvironment, name: Seq<char>) -> bool {
    exists|i: int|
        0 <= i < environment.platforms@.len() && (#[trigger] environment.platforms@[i])@ == name
}

/// A subdir is that of a platform which is asked for, as the workspace defines it.
pub open spec fn is_subdir_asked_for(environment: RequestedEnvironment, subdir: Seq<char>) -> bool {
    exists|i: int, defined: int|
        #![trigger environment.platforms@[i], environment.workspace_platforms@[defined]]
        0 <= i < environment.platforms@.len() && is_defined_at(
            environment.workspace_platforms@,
            environment.platforms@[i]@,
            defined,
        ) && environment.workspace_platforms@[defined].subdir@ == subdir
}

/// Every locked platform that can be one of the workspace is asked for, by its name or by its
/// subdir.
pub open spec fn platforms_are_asked_for(
    environment: RequestedEnvironment,
    locked: LockedEnvironment,
) -> bool {
    forall|i: int|
        0 <= i < locked.platforms@.len() && (#[trigger] locked.platforms@[i]).valid_name
            ==> is_asked_for(environment, locked.platforms@[i].name@) || is_subdir_asked_for(
            environment,
            locked.platforms@[i].subdir@,
        )
}

/// How often a virtual package is declared that a subdir does not have anyway.
pub open spec fn times_declared(
    packages: Seq<VirtualPackage>,
    subdir: Seq<char>,
    text: Seq<char>,
) -> nat
    decreases packages.len(),
{
    if packages.len() == 0 {
        0
    } else {
        let last = packages.last();
        let counts = last.text@ == text && !exists|i: int|
            0 <= i < last.default_subdirs@.len() && (#[trigger] last.default_subdirs@[i])@
                == subdir;
        times_declared(packages.drop_last(), subdir, text) + if counts {
            1nat
        } else {
            0nat
        }
    }
}

/// A locked platform is what the workspace defines: it has the same subdir, and each virtual
/// package that the subdir does not have anyway is declared equally often.
pub open spec fn is_defined_as(locked: LockedPlatform, defined: WorkspacePlatform) -> bool {
    &&& locked.subdir@ == defined.subdir@
    &&& forall|text: Seq<char>|
        #[trigger] times_declared(locked.virtual_packages@, defined.subdir@, text)
            == times_declared(defined.virtual_packages@, defined.subdir@, text)
}

/// Every locked platform that is asked for is what the workspace defines under its name.
pub open spec fn platforms_agree(
    environment: RequestedEnvironment,
    locked: LockedEnvironment,
) -> bool {
    forall|i: int, defined: int|
        #![trigger locked.platforms@[i], environment.workspace_platforms@[defined]]
        0 <= i < locked.platforms@.len() && locked.platforms@[i].valid_name && is_asked_for(
            environment,
            locked.platforms@[i].name@,
        ) && is_defined_at(
            environment.workspace_platforms@,
            locked.platforms@[i].name@,
            defined,
        ) ==> is_defined_as(locked.platforms@[i], environment.workspace_platforms@[defined])
}

/// The PyPI indexes are those that were locked. A lock file may be silent about them if it is of a
/// version that is, or has no PyPI packages.
pub open spec fn pypi_indexes_agree(
    environment: RequestedEnvironment,
    locked: LockedEnvironment,
) -> bool {
    match locked.pypi_indexes {
        Some(indexes) => indexes_agree(indexes, environment.pypi_indexes),
        None => !locked.states_pypi_indexes || !locked.has_pypi_packages,
    }
}

/// The options of the solver are those that were locked.
pub open spec fn options_agree(
    environment: RequestedEnvironment,
    locked: LockedEnvironment,
) -> bool {
    &&& locked.solve_strategy == environment.solve_strategy
    &&& locked.channel_priority == environment.channel_priority
    &&& locked.prerelease_mode == environment.prerelease_mode
    &&& locked.exclude_newer is Agrees
}

/// The first platform of a name is the one that is found.
proof fn lemma_defined(platforms: Seq<WorkspacePlatform>, name: Seq<char>, from: int)
    requires
        0 <= from <= platforms.len(),
        forall|i: int| 0 <= i < from ==> (#[trigger] platforms[i]).name@ != name,
    ensures
        match platform_by_name(platforms, name, from) {
            Some(platform) => exists|at: int|
                is_defined_at(platforms, name, at) && #[trigger] platforms[at] == platform,
            None => forall|at: int| !is_defined_at(platforms, name, at),
        },
    decreases platforms.len() - from,
{
    if from < platforms.len() {
        if platforms[from].name@ != name {
            lemma_defined(platforms, name, from + 1);
        } else {
            assert(is_defined_at(platforms, name, from));
            assert(platforms[from] == platforms[from]);
        }
    }
}

/// There is one first platform of a name.
proof fn lemma_one_defined(platforms: Seq<WorkspacePlatform>, name: Seq<char>, at: int)
    requires
        is_defined_at(platforms, name, at),
    ensures
        platform_by_name(platforms, name, 0) == Some(platforms[at]),
{
    lemma_defined(platforms, name, 0);
    match platform_by_name(platforms, name, 0) {
        Some(platform) => {
            let other = choose|other: int|
                is_defined_at(platforms, name, other) && #[trigger] platforms[other] == platform;
            assert(other == at);
        },
        None => {},
    }
}

/// The first packages of a platform are the ones that are found.
proof fn lemma_locked(packages: Seq<LockedPackages>, platform: Seq<char>, from: int)
    requires
        0 <= from <= packages.len(),
        forall|i: int| 0 <= i < from ==> (#[trigger] packages[i]).platform@ != platform,
    ensures
        match packages_for(packages, platform, from) {
            Some(found) => exists|at: int|
                is_locked_at(packages, platform, at) && #[trigger] packages[at] == found,
            None => forall|at: int| !is_locked_at(packages, platform, at),
        },
    decreases packages.len() - from,
{
    if from < packages.len() {
        if packages[from].platform@ != platform {
            lemma_locked(packages, platform, from + 1);
        } else {
            assert(is_locked_at(packages, platform, from));
            assert(packages[from] == packages[from]);
        }
    }
}

/// There are one platform's first packages.
proof fn lemma_one_locked(packages: Seq<LockedPackages>, platform: Seq<char>, at: int)
    requires
        is_locked_at(packages, platform, at),
    ensures
        packages_for(packages, platform, 0) == Some(packages[at]),
{
    lemma_locked(packages, platform, 0);
    match packages_for(packages, platform, 0) {
        Some(found) => {
            let other = choose|other: int|
                is_locked_at(packages, platform, other) && #[trigger] packages[other] == found;
            assert(other == at);
        },
        None => {},
    }
}

/// The first interpreter is the one that is found.
proof fn lemma_python(packages: Seq<LockedCondaPackage>, from: int)
    requires
        0 <= from <= packages.len(),
        forall|i: int|
            0 <= i < from ==> !((#[trigger] packages[i]).binary && packages[i].python),
    ensures
        match interpreter(packages, from) {
            Some(python) => exists|at: int|
                is_python_at(packages, at) && #[trigger] packages[at] == python,
            None => forall|at: int| !is_python_at(packages, at),
        },
    decreases packages.len() - from,
{
    if from < packages.len() {
        if packages[from].binary && packages[from].python {
            assert(is_python_at(packages, from));
            assert(packages[from] == packages[from]);
        } else {
            lemma_python(packages, from + 1);
        }
    }
}

/// Names that are filtered and brought into their normal form.
proof fn lemma_scope(no_build: Option<NoBuild>, name: Seq<char>)
    ensures
        build_scope(no_build) is Nothing <==> !restricts_builds(no_build),
        kind_fault(build_scope(no_build), name, DistKind::Source) is Some <==> forbids_building(
            no_build,
            name,
        ),
        kind_fault(build_scope(no_build), name, DistKind::Source) is Some ==> kind_fault(
            build_scope(no_build),
            name,
            DistKind::Source,
        ) == Some(PackageFault::Build(name)),
        kind_fault(build_scope(no_build), name, DistKind::Wheel) is None,
{
    match no_build {
        Some(NoBuild::Packages(names)) => {
            let valid = |name: Seq<char>| is_package_name(name);
            let normal = |name: Seq<char>| normalized(name);
            let all = views(names@);
            let kept = all.filter(valid);
            let scope = kept.map_values(normal);
            assert(build_scope(no_build) == BuildScope::Names(scope));
            if scope.contains(name) {
                let i = choose|i: int| 0 <= i < scope.len() && scope[i] == name;
                assert(normal(kept[i]) == name);
                all.lemma_filter_pred(valid, i);
                all.lemma_filter_contains_rev(valid, kept[i]);
                let j = choose|j: int| 0 <= j < all.len() && all[j] == kept[i];
                assert(names@[j]@ == kept[i]);
                assert(valid(kept[i]));
            }
            if forbids_building(no_build, name) {
                let i = choose|i: int|
                    0 <= i < names@.len() && is_package_name((#[trigger] names@[i])@) && normalized(
                        names@[i]@,
                    ) == name;
                assert(all[i] == names@[i]@);
                assert(valid(all[i]));
                all.lemma_filter_contains(valid, i);
                let j = choose|j: int| 0 <= j < kept.len() && kept[j] == all[i];
                assert(scope[j] == name);
            }
        },
        _ => {},
    }
}

/// What is wrong with a package is that it must not be used.
proof fn lemma_package(
    no_build: Option<NoBuild>,
    conda: Seq<LockedCondaPackage>,
    package: LockedPypiPackage,
)
    ensures
        build_fault(build_scope(no_build), package) is None <==> needs_no_forbidden_build(
            no_build,
            package,
        ),
        wheel_fault(wheel_tags(conda), package) is None <==> fits_interpreter(conda, package),
{
    lemma_scope(no_build, package.name@);
    lemma_python(conda, 0);
    match interpreter(conda, 0) {
        Some(python) => {
            let at = choose|at: int| is_python_at(conda, at) && #[trigger] conda[at] == python;
            assert forall|other: int| is_python_at(conda, other) implies other == at by {
                if other < at {
                    assert(!(conda[other].binary && conda[other].python));
                }
                if at < other {
                    assert(!(conda[at].binary && conda[at].python));
                }
            }
        },
        None => {},
    }
}

/// Nothing is wrong with the packages of a platform exactly if each may be used.
proof fn lemma_faultless(
    no_build: Option<NoBuild>,
    locked: LockedPackages,
    from: int,
)
    requires
        0 <= from <= locked.pypi@.len(),
    ensures
        fault_in(locked.pypi@, build_scope(no_build), wheel_tags(locked.conda@), from) is None
            <==> forall|index: int|
            from <= index < locked.pypi@.len() ==> needs_no_forbidden_build(
                no_build,
                #[trigger] locked.pypi@[index],
            ) && fits_interpreter(locked.conda@, locked.pypi@[index]),
    decreases locked.pypi@.len() - from,
{
    if from < locked.pypi@.len() {
        lemma_package(no_build, locked.conda@, locked.pypi@[from]);
        lemma_faultless(no_build, locked, from + 1);
        let scope = build_scope(no_build);
        let tags = wheel_tags(locked.conda@);
        if fault_in(locked.pypi@, scope, tags, from) is None {
            assert forall|index: int| from <= index < locked.pypi@.len() implies
                needs_no_forbidden_build(no_build, #[trigger] locked.pypi@[index])
                && fits_interpreter(locked.conda@, locked.pypi@[index]) by {
                if index > from {
                    assert(fault_in(locked.pypi@, scope, tags, from + 1) is None);
                }
            }
        } else if forall|index: int|
            from <= index < locked.pypi@.len() ==> needs_no_forbidden_build(
                no_build,
                #[trigger] locked.pypi@[index],
            ) && fits_interpreter(locked.conda@, locked.pypi@[index]) {
            assert(needs_no_forbidden_build(no_build, locked.pypi@[from]));
            assert(fault_in(locked.pypi@, scope, tags, from + 1) is None);
        }
    }
}

/// The packages of one platform may be used.
spec fn platform_is_usable(
    environment: RequestedEnvironment,
    packages: Seq<LockedPackages>,
    platform: Seq<char>,
) -> bool {
    forall|defined: int, at: int, index: int|
        #![trigger environment.workspace_platforms@[defined], packages[at].pypi@[index]]
        is_defined_at(environment.workspace_platforms@, platform, defined) && is_locked_at(
            packages,
            platform,
            at,
        ) && 0 <= index < packages[at].pypi@.len() ==> needs_no_forbidden_build(
            environment.no_build,
            packages[at].pypi@[index],
        ) && fits_interpreter(packages[at].conda@, packages[at].pypi@[index])
}

/// Nothing is wrong on a platform exactly if each of its packages may be used.
proof fn lemma_platform(
    environment: RequestedEnvironment,
    packages: Seq<LockedPackages>,
    platform: Seq<char>,
)
    ensures
        fault_on(environment, packages, platform) is None <==> platform_is_usable(
            environment,
            packages,
            platform,
        ),
{
    let all = environment.workspace_platforms@;
    lemma_defined(all, platform, 0);
    lemma_locked(packages, platform, 0);
    match (environment.platform(platform), packages_for(packages, platform, 0)) {
        (Some(found), Some(locked)) => {
            let defined = choose|at: int|
                is_defined_at(all, platform, at) && #[trigger] all[at] == found;
            let at = choose|at: int|
                is_locked_at(packages, platform, at) && #[trigger] packages[at] == locked;
            lemma_faultless(environment.no_build, locked, 0);
            if fault_on(environment, packages, platform) is None {
                assert forall|other: int, place: int, index: int|
                    #![trigger all[other], packages[place].pypi@[index]]
                    is_defined_at(all, platform, other) && is_locked_at(packages, platform, place)
                        && 0 <= index < packages[place].pypi@.len() implies
                    needs_no_forbidden_build(environment.no_build, packages[place].pypi@[index])
                    && fits_interpreter(packages[place].conda@, packages[place].pypi@[index]) by {
                    assert(place == at);
                    assert(packages[place].pypi@[index] == locked.pypi@[index]);
                }
            } else if platform_is_usable(environment, packages, platform) {
                assert forall|index: int| 0 <= index < locked.pypi@.len() implies
                    needs_no_forbidden_build(
                    environment.no_build,
                    #[trigger] locked.pypi@[index],
                ) && fits_interpreter(locked.conda@, locked.pypi@[index]) by {
                    assert(all[defined] == found);
                    assert(packages[at].pypi@[index] == locked.pypi@[index]);
                }
            }
        },
        _ => {},
    }
}

/// Nothing is wrong with any PyPI package exactly if each may be used.
proof fn lemma_all_platforms(
    environment: RequestedEnvironment,
    packages: Seq<LockedPackages>,
    from: int,
)
    requires
        0 <= from <= environment.platforms@.len(),
    ensures
        pypi_fault(environment, packages, from) is None <==> forall|i: int|
            from <= i < environment.platforms@.len() ==> platform_is_usable(
                environment,
                packages,
                (#[trigger] environment.platforms@[i])@,
            ),
    decreases environment.platforms@.len() - from,
{
    if from < environment.platforms@.len() {
        lemma_platform(environment, packages, environment.platforms@[from]@);
        lemma_all_platforms(environment, packages, from + 1);
        if pypi_fault(environment, packages, from) is None {
            assert forall|i: int| from <= i < environment.platforms@.len() implies
                platform_is_usable(environment, packages, (#[trigger] environment.platforms@[i])@) by {
                if i > from {
                    assert(pypi_fault(environment, packages, from + 1) is None);
                }
            }
        } else if forall|i: int|
            from <= i < environment.platforms@.len() ==> platform_is_usable(
                environment,
                packages,
                (#[trigger] environment.platforms@[i])@,
            ) {
            assert(platform_is_usable(environment, packages, environment.platforms@[from]@));
            assert(pypi_fault(environment, packages, from + 1) is None);
        }
    }
}

/// Nothing is wrong with any PyPI package exactly if each may be used.
proof fn lemma_packages(environment: RequestedEnvironment, locked: LockedEnvironment)
    ensures
        pypi_fault(environment, locked.packages@, 0) is None <==> packages_may_be_used(
            environment,
            locked,
        ),
{
    let packages = locked.packages@;
    lemma_all_platforms(environment, packages, 0);
    if pypi_fault(environment, packages, 0) is None {
        assert forall|platform: int, defined: int, at: int, index: int|
            #![trigger environment.platforms@[platform], environment.workspace_platforms@[defined], locked.packages@[at].pypi@[index]]
            0 <= platform < environment.platforms@.len() && is_defined_at(
                environment.workspace_platforms@,
                environment.platforms@[platform]@,
                defined,
            ) && is_locked_at(packages, environment.platforms@[platform]@, at) && 0 <= index
                < packages[at].pypi@.len() implies needs_no_forbidden_build(
            environment.no_build,
            packages[at].pypi@[index],
        ) && fits_interpreter(packages[at].conda@, packages[at].pypi@[index]) by {
            assert(platform_is_usable(environment, packages, environment.platforms@[platform]@));
            assert(environment.workspace_platforms@[defined]
                == environment.workspace_platforms@[defined]);
        }
    } else if packages_may_be_used(environment, locked) {
        assert forall|i: int| 0 <= i < environment.platforms@.len() implies platform_is_usable(
            environment,
            packages,
            (#[trigger] environment.platforms@[i])@,
        ) by {
            assert forall|defined: int, at: int, index: int|
                #![trigger environment.workspace_platforms@[defined], packages[at].pypi@[index]]
                is_defined_at(
                    environment.workspace_platforms@,
                    environment.platforms@[i]@,
                    defined,
                ) && is_locked_at(packages, environment.platforms@[i]@, at) && 0 <= index
                    < packages[at].pypi@.len() implies needs_no_forbidden_build(
                environment.no_build,
                packages[at].pypi@[index],
            ) && fits_interpreter(packages[at].conda@, packages[at].pypi@[index]) by {
                assert(locked.packages@[at].pypi@[index] == packages[at].pypi@[index]);
            }
        }
    }
}

/// How often a virtual package is among those that a subdir does not have anyway.
proof fn lemma_declared(packages: Seq<VirtualPackage>, subdir: Seq<char>, text: Seq<char>)
    ensures
        custom_packages(packages, subdir).to_multiset().count(text) == times_declared(
            packages,
            subdir,
            text,
        ),
    decreases packages.len(),
{
    broadcast use vstd::seq_lib::group_to_multiset_ensures;

    let keep = |package: VirtualPackage| !is_subdir_default(package, subdir);
    let written = |package: VirtualPackage| package.text@;
    reveal(Seq::filter);
    if packages.len() == 0 {
        assert(custom_packages(packages, subdir) =~= Seq::empty());
    } else {
        let front = packages.drop_last();
        let last = packages.last();
        lemma_declared(front, subdir, text);
        let before = custom_packages(front, subdir);
        assert(keep(last) <==> !exists|i: int|
            0 <= i < last.default_subdirs@.len() && (#[trigger] last.default_subdirs@[i])@
                == subdir) by {
            let subdirs = views(last.default_subdirs@);
            if subdirs.contains(subdir) {
                let i = choose|i: int| 0 <= i < subdirs.len() && subdirs[i] == subdir;
                assert(last.default_subdirs@[i]@ == subdir);
            }
            if exists|i: int|
                0 <= i < last.default_subdirs@.len() && (#[trigger] last.default_subdirs@[i])@
                    == subdir {
                let i = choose|i: int|
                    0 <= i < last.default_subdirs@.len() && (#[trigger] last.default_subdirs@[i])@
                        == subdir;
                assert(subdirs[i] == subdir);
            }
        }
        if keep(last) {
            assert(packages.filter(keep) == front.filter(keep).push(last));
            assert(custom_packages(packages, subdir) =~= before.push(last.text@));
        } else {
            assert(packages.filter(keep) == front.filter(keep));
            assert(custom_packages(packages, subdir) =~= before);
        }
    }
}

/// A name is asked for.
proof fn lemma_asked_for(environment: RequestedEnvironment, name: Seq<char>)
    ensures
        environment.targets(name) <==> is_asked_for(environment, name),
{
    let names = views(environment.platforms@);
    if names.contains(name) {
        let i = choose|i: int| 0 <= i < names.len() && names[i] == name;
        assert(environment.platforms@[i]@ == name);
    }
    if is_asked_for(environment, name) {
        let i = choose|i: int|
            0 <= i < environment.platforms@.len() && (#[trigger] environment.platforms@[i])@
                == name;
        assert(names[i] == name);
    }
}

/// A subdir is asked for.
proof fn lemma_subdir_asked_for(environment: RequestedEnvironment, subdir: Seq<char>)
    ensures
        environment.targets_subdir(subdir) <==> is_subdir_asked_for(environment, subdir),
{
    let all = environment.workspace_platforms@;
    if environment.targets_subdir(subdir) {
        let i = choose|i: int|
            0 <= i < environment.platforms@.len() && (environment.platform(
                (#[trigger] environment.platforms@[i])@,
            ) matches Some(platform) && platform.subdir@ == subdir);
        lemma_defined(all, environment.platforms@[i]@, 0);
        let defined = choose|at: int|
            is_defined_at(all, environment.platforms@[i]@, at) && #[trigger] all[at]
                == environment.platform(environment.platforms@[i]@)->Some_0;
        assert(all[defined].subdir@ == subdir);
    }
    if is_subdir_asked_for(environment, subdir) {
        let (i, defined) = choose|i: int, defined: int|
            #![trigger environment.platforms@[i], all[defined]]
            0 <= i < environment.platforms@.len() && is_defined_at(
                all,
                environment.platforms@[i]@,
                defined,
            ) && all[defined].subdir@ == subdir;
        lemma_one_defined(all, environment.platforms@[i]@, defined);
    }
}

/// Two platforms are defined alike.
proof fn lemma_defined_as(locked: LockedPlatform, defined: WorkspacePlatform)
    ensures
        is_defined_as(locked, defined) <==> locked.subdir@ == defined.subdir@ && custom_packages(
            defined.virtual_packages@,
            defined.subdir@,
        ).to_multiset() == custom_packages(
            locked.virtual_packages@,
            defined.subdir@,
        ).to_multiset(),
{
    let subdir = defined.subdir@;
    let ours = custom_packages(defined.virtual_packages@, subdir).to_multiset();
    let theirs = custom_packages(locked.virtual_packages@, subdir).to_multiset();
    assert forall|text: Seq<char>|
        ours.count(text) == times_declared(defined.virtual_packages@, subdir, text) && theirs.count(
            text,
        ) == #[trigger] times_declared(locked.virtual_packages@, subdir, text) by {
        lemma_declared(defined.virtual_packages@, subdir, text);
        lemma_declared(locked.virtual_packages@, subdir, text);
    }
    if is_defined_as(locked, defined) {
        assert forall|text: Seq<char>| ours.count(text) == theirs.count(text) by {
            assert(times_declared(locked.virtual_packages@, subdir, text) == times_declared(
                defined.virtual_packages@,
                subdir,
                text,
            ));
        }
        assert(ours =~= theirs);
    }
}

/// Whether a locked platform has changed.
proof fn lemma_changed(environment: RequestedEnvironment, locked: LockedPlatform)
    ensures
        environment.is_changed(locked) <==> locked.valid_name && is_asked_for(
            environment,
            locked.name@,
        ) && exists|defined: int|
            is_defined_at(environment.workspace_platforms@, locked.name@, defined)
                && !is_defined_as(locked, #[trigger] environment.workspace_platforms@[defined]),
{
    let all = environment.workspace_platforms@;
    lemma_asked_for(environment, locked.name@);
    lemma_defined(all, locked.name@, 0);
    match environment.platform(locked.name@) {
        Some(platform) => {
            let at = choose|at: int|
                is_defined_at(all, locked.name@, at) && #[trigger] all[at] == platform;
            lemma_defined_as(locked, platform);
            assert forall|other: int| is_defined_at(all, locked.name@, other) implies other
                == at by {
                if other < at {
                    assert(all[other].name@ != locked.name@);
                }
                if at < other {
                    assert(all[at].name@ != locked.name@);
                }
            }
        },
        None => {},
    }
}

/// Some platform has changed exactly if not all agree.
proof fn lemma_any_changed(environment: RequestedEnvironment, locked: LockedEnvironment)
    ensures
        has_changed(environment, locked.platforms@) <==> !platforms_agree(environment, locked),
{
    let all = environment.workspace_platforms@;
    if has_changed(environment, locked.platforms@) {
        let i = choose|i: int|
            0 <= i < locked.platforms@.len() && environment.is_changed(
                #[trigger] locked.platforms@[i],
            );
        lemma_changed(environment, locked.platforms@[i]);
        let defined = choose|defined: int|
            is_defined_at(all, locked.platforms@[i].name@, defined) && !is_defined_as(
                locked.platforms@[i],
                #[trigger] all[defined],
            );
        assert(locked.platforms@[i] == locked.platforms@[i] && all[defined] == all[defined]);
    } else {
        assert forall|i: int, defined: int|
            #![trigger locked.platforms@[i], all[defined]]
            0 <= i < locked.platforms@.len() && locked.platforms@[i].valid_name && is_asked_for(
                environment,
                locked.platforms@[i].name@,
            ) && is_defined_at(all, locked.platforms@[i].name@, defined) implies is_defined_as(
            locked.platforms@[i],
            all[defined],
        ) by {
            lemma_changed(environment, locked.platforms@[i]);
            assert(!environment.is_changed(locked.platforms@[i]));
        }
    }
}

/// Whether a locked platform is not asked for.
proof fn lemma_additional(environment: RequestedEnvironment, locked: LockedPlatform)
    ensures
        environment.is_additional(locked) <==> locked.valid_name && !is_asked_for(
            environment,
            locked.name@,
        ) && !is_subdir_asked_for(environment, locked.subdir@),
{
    lemma_asked_for(environment, locked.name@);
    lemma_subdir_asked_for(environment, locked.subdir@);
}

/// Some platform is not asked for exactly if not all are.
proof fn lemma_any_additional(environment: RequestedEnvironment, locked: LockedEnvironment)
    ensures
        has_additional(environment, locked.platforms@) <==> !platforms_are_asked_for(
            environment,
            locked,
        ),
{
    if has_additional(environment, locked.platforms@) {
        let i = choose|i: int|
            0 <= i < locked.platforms@.len() && environment.is_additional(
                #[trigger] locked.platforms@[i],
            );
        lemma_additional(environment, locked.platforms@[i]);
    } else {
        assert forall|i: int|
            0 <= i < locked.platforms@.len() && (#[trigger] locked.platforms@[i]).valid_name implies
            is_asked_for(environment, locked.platforms@[i].name@) || is_subdir_asked_for(
            environment,
            locked.platforms@[i].subdir@,
        ) by {
            lemma_additional(environment, locked.platforms@[i]);
            assert(!environment.is_additional(locked.platforms@[i]));
        }
    }
}

/// What channels come to that are no places in the home directory.
proof fn lemma_settled(
    environment: RequestedEnvironment,
    locked: LockedEnvironment,
    ours: Seq<Option<Seq<char>>>,
    theirs: Seq<Option<Seq<char>>>,
)
    requires
        channels_are_settled(environment, locked),
        resolve_to(views(environment.channels@), environment.channel_config, ours),
        resolve_to(views(locked.channels@), environment.channel_config, theirs),
    ensures
        ours.len() == environment.channels@.len(),
        theirs.len() == locked.channels@.len(),
        forall|i: int|
            0 <= i < ours.len() ==> #[trigger] ours[i] == base_url(
                environment.channels@[i]@,
                environment.channel_config,
            ),
        forall|i: int|
            0 <= i < theirs.len() ==> #[trigger] theirs[i] == base_url(
                locked.channels@[i]@,
                environment.channel_config,
            ),
        channels_verdict(ours, theirs, Ok(())) <==> channels_agree(environment, locked),
{
    assert forall|i: int| 0 <= i < ours.len() implies #[trigger] ours[i] == base_url(
        environment.channels@[i]@,
        environment.channel_config,
    ) by {
        assert(views(environment.channels@)[i] == environment.channels@[i]@);
    }
    assert forall|i: int| 0 <= i < theirs.len() implies #[trigger] theirs[i] == base_url(
        locked.channels@[i]@,
        environment.channel_config,
    ) by {
        assert(views(locked.channels@)[i] == locked.channels@[i]@);
    }
    if channels_verdict(ours, theirs, Ok(())) {
        assert forall|i: int| 0 <= i < environment.channels@.len() implies {
            let ours = base_url(#[trigger] environment.channels@[i]@, environment.channel_config);
            let theirs = base_url(locked.channels@[i]@, environment.channel_config);
            ours is Some && ours == theirs
        } by {
            assert(ours[i] is Some);
            assert(ours[i] == theirs[i]);
        }
    }
    if channels_agree(environment, locked) {
        assert forall|i: int| 0 <= i < ours.len() implies (#[trigger] ours[i]) is Some && ours[i]
            == theirs[i] by {
            assert(environment.channels@[i] == environment.channels@[i]);
        }
        assert(ours =~= theirs);
    }
}

/// The two environments agree in everything but their channels.
pub open spec fn rest_agrees(environment: RequestedEnvironment, locked: LockedEnvironment) -> bool {
    &&& platforms_are_asked_for(environment, locked)
    &&& platforms_agree(environment, locked)
    &&& environment.has_pypi_dependencies ==> pypi_indexes_agree(environment, locked)
        && packages_may_be_used(environment, locked)
    &&& options_agree(environment, locked)
}

/// The options of the solver are told apart.
proof fn lemma_options(
    environment: RequestedEnvironment,
    locked: LockedEnvironment,
    result: Result<(), EnvironmentUnsat>,
)
    requires
        options_verdict(environment, locked, result),
    ensures
        result is Ok <==> options_agree(environment, locked),
{
}

/// In exact mode a locked environment stands for the requested one exactly if the two agree in
/// everything: the base URLs of their channels, one by one; the platforms that are locked, each of
/// which must be asked for and be defined as it was; with PyPI dependencies also the indexes, and
/// every single PyPI package, which must be no source that may not be built and no wheel that the
/// locked interpreter cannot use; and every option of the solver. Nothing is said of the channels
/// where one is a place in the home directory.
pub proof fn exact_success_means_agreement(
    environment: RequestedEnvironment,
    locked: LockedEnvironment,
    result: Result<(), EnvironmentUnsat>,
)
    requires
        satisfies(environment, locked, SatisfiabilityMode::Exact, result),
    ensures
        result is Ok ==> rest_agrees(environment, locked),
        channels_are_settled(environment, locked) ==> (result is Ok <==> channels_agree(
            environment,
            locked,
        ) && rest_agrees(environment, locked)),
{
    let (ours, theirs) = choose|ours: Seq<Option<Seq<char>>>, theirs: Seq<Option<Seq<char>>>|
        #![trigger verdict(environment, locked, SatisfiabilityMode::Exact, ours, theirs, result)]
        resolve_to(views(environment.channels@), environment.channel_config, ours) && resolve_to(
            views(locked.channels@),
            environment.channel_config,
            theirs,
        ) && verdict(environment, locked, SatisfiabilityMode::Exact, ours, theirs, result);
    if channels_are_settled(environment, locked) {
        lemma_settled(environment, locked, ours, theirs);
    }
    lemma_any_additional(environment, locked);
    lemma_any_changed(environment, locked);
    lemma_packages(environment, locked);
}

/// In sufficient mode a locked environment stands for the requested one exactly if every locked
/// platform that is asked for is defined as it was.
pub proof fn sufficient_success_means_same_platforms(
    environment: RequestedEnvironment,
    locked: LockedEnvironment,
    result: Result<(), EnvironmentUnsat>,
)
    requires
        satisfies(environment, locked, SatisfiabilityMode::Sufficient, result),
    ensures
        result is Ok <==> platforms_agree(environment, locked),
{
    lemma_any_changed(environment, locked);
}

/// A PyPI package that is locked for a platform which is asked for.
pub open spec fn is_locked_package(
    environment: RequestedEnvironment,
    locked: LockedEnvironment,
    at: int,
    index: int,
) -> bool {
    &&& 0 <= at < locked.packages@.len()
    &&& 0 <= index < locked.packages@[at].pypi@.len()
    &&& is_asked_for(environment, locked.packages@[at].platform@)
    &&& is_locked_at(locked.packages@, locked.packages@[at].platform@, at)
    &&& exists|defined: int|
        is_defined_at(
            environment.workspace_platforms@,
            locked.packages@[at].platform@,
            defined,
        )
}

/// A fault is one of a package.
pub open spec fn is_fault_of(
    no_build: Option<NoBuild>,
    conda: Seq<LockedCondaPackage>,
    package: LockedPypiPackage,
    fault: PackageFault,
) -> bool {
    match fault {
        PackageFault::Extension => restricts_builds(no_build) && !is_editable_path(package)
            && !is_distribution(package),
        PackageFault::Build(name) => name == package.name@ && !is_editable_path(package)
            && is_source(package) && forbids_building(no_build, name),
        PackageFault::Wheel(name) => exists|python: int|
            is_python_at(conda, python) && ((#[trigger] conda[python]).tags matches Some(tags)
                && location_file(package.location) matches Some(file) && wheel_of(
                file,
            ) matches Some(wheel) && !wheel_fits(wheel, tags) && name == wheel_package(wheel)),
    }
}

/// What is found wrong with a package is wrong with it.
proof fn lemma_fault_of(
    no_build: Option<NoBuild>,
    conda: Seq<LockedCondaPackage>,
    package: LockedPypiPackage,
)
    ensures
        build_fault(build_scope(no_build), package) matches Some(fault) ==> is_fault_of(
            no_build,
            conda,
            package,
            fault,
        ),
        wheel_fault(wheel_tags(conda), package) matches Some(fault) ==> is_fault_of(
            no_build,
            conda,
            package,
            fault,
        ),
{
    lemma_scope(no_build, package.name@);
    lemma_python(conda, 0);
    if wheel_fault(wheel_tags(conda), package) is Some {
        let python = choose|at: int|
            is_python_at(conda, at) && #[trigger] conda[at] == interpreter(conda, 0)->Some_0;
        assert(conda[python].tags is Some);
    }
}

/// What is found wrong with the packages of a platform is wrong with one of them, and nothing is
/// with those before it.
proof fn lemma_first_fault(
    no_build: Option<NoBuild>,
    locked: LockedPackages,
    from: int,
) -> (index: int)
    requires
        0 <= from <= locked.pypi@.len(),
        fault_in(locked.pypi@, build_scope(no_build), wheel_tags(locked.conda@), from) is Some,
    ensures
        from <= index < locked.pypi@.len(),
        is_fault_of(
            no_build,
            locked.conda@,
            locked.pypi@[index],
            fault_in(
                locked.pypi@,
                build_scope(no_build),
                wheel_tags(locked.conda@),
                from,
            )->Some_0,
        ),
        forall|earlier: int|
            from <= earlier < index ==> needs_no_forbidden_build(
                no_build,
                #[trigger] locked.pypi@[earlier],
            ) && fits_interpreter(locked.conda@, locked.pypi@[earlier]),
    decreases locked.pypi@.len() - from,
{
    let package = locked.pypi@[from];
    lemma_fault_of(no_build, locked.conda@, package);
    lemma_package(no_build, locked.conda@, package);
    if build_fault(build_scope(no_build), package) is Some || wheel_fault(
        wheel_tags(locked.conda@),
        package,
    ) is Some {
        from
    } else {
        lemma_first_fault(no_build, locked, from + 1)
    }
}

/// What is found wrong with PyPI packages is wrong with one that is locked.
proof fn lemma_any_fault(
    environment: RequestedEnvironment,
    locked: LockedEnvironment,
    from: int,
) -> (place: (int, int))
    requires
        0 <= from <= environment.platforms@.len(),
        pypi_fault(environment, locked.packages@, from) is Some,
    ensures
        is_locked_package(environment, locked, place.0, place.1),
        is_fault_of(
            environment.no_build,
            locked.packages@[place.0].conda@,
            locked.packages@[place.0].pypi@[place.1],
            pypi_fault(environment, locked.packages@, from)->Some_0,
        ),
    decreases environment.platforms@.len() - from,
{
    let platform = environment.platforms@[from]@;
    if fault_on(environment, locked.packages@, platform) is Some {
        lemma_defined(environment.workspace_platforms@, platform, 0);
        lemma_locked(locked.packages@, platform, 0);
        let found = packages_for(locked.packages@, platform, 0)->Some_0;
        let at = choose|at: int|
            is_locked_at(locked.packages@, platform, at) && #[trigger] locked.packages@[at]
                == found;
        let defined = choose|defined: int|
            is_defined_at(environment.workspace_platforms@, platform, defined)
                && #[trigger] environment.workspace_platforms@[defined] == environment.platform(
                platform,
            )->Some_0;
        assert(is_defined_at(
            environment.workspace_platforms@,
            locked.packages@[at].platform@,
            defined,
        ));
        let index = lemma_first_fault(environment.no_build, found, 0);
        (at, index)
    } else {
        lemma_any_fault(environment, locked, from + 1)
    }
}

/// An error names something that is wrong.
pub open spec fn is_justified(
    environment: RequestedEnvironment,
    locked: LockedEnvironment,
    error: EnvironmentUnsat,
) -> bool {
    match error {
        EnvironmentUnsat::ChannelsExtended => channels_are_settled(environment, locked) ==> {
            &&& locked.channels@.len() < environment.channels@.len()
            &&& forall|i: int|
                0 <= i < locked.channels@.len() ==> base_url(
                    (#[trigger] locked.channels@[i])@,
                    environment.channel_config,
                ) == base_url(environment.channels@[i]@, environment.channel_config)
        },
        EnvironmentUnsat::ChannelsMismatch => channels_are_settled(environment, locked) ==> {
            ||| environment.channels@.len() < locked.channels@.len()
            ||| exists|i: int|
                0 <= i < locked.channels@.len() && base_url(
                    (#[trigger] locked.channels@[i])@,
                    environment.channel_config,
                ) != base_url(environment.channels@[i]@, environment.channel_config)
        },
        EnvironmentUnsat::InvalidChannel(_) => channels_are_settled(environment, locked) ==> {
            ||| exists|i: int|
                0 <= i < environment.channels@.len() && base_url(
                    (#[trigger] environment.channels@[i])@,
                    environment.channel_config,
                ) is None
            ||| exists|i: int|
                0 <= i < locked.channels@.len() && base_url(
                    (#[trigger] locked.channels@[i])@,
                    environment.channel_config,
                ) is None
        },
        EnvironmentUnsat::AdditionalPlatformsInLockFile(names) => {
            &&& names@.len() > 0
            &&& forall|name: Seq<char>| #[trigger]
                views(names@).contains(name) <==> exists|i: int|
                    0 <= i < locked.platforms@.len() && (#[trigger] locked.platforms@[i]).name@
                        == name && locked.platforms@[i].valid_name && !is_asked_for(
                        environment,
                        name,
                    ) && !is_subdir_asked_for(environment, locked.platforms@[i].subdir@)
        },
        EnvironmentUnsat::PlatformDefinitionChanged(change) => exists|i: int, defined: int|
            #![trigger locked.platforms@[i], environment.workspace_platforms@[defined]]
            0 <= i < locked.platforms@.len() && locked.platforms@[i].valid_name
                && change.name@ == locked.platforms@[i].name@ && is_asked_for(
                environment,
                change.name@,
            ) && is_defined_at(environment.workspace_platforms@, change.name@, defined)
                && !is_defined_as(
                locked.platforms@[i],
                environment.workspace_platforms@[defined],
            ) && change.found_subdir@ == locked.platforms@[i].subdir@ && change.expected_subdir@
                == environment.workspace_platforms@[defined].subdir@,
        EnvironmentUnsat::IndexesMismatch(mismatch) => environment.has_pypi_dependencies
            && !pypi_indexes_agree(environment, locked) && mismatch.current
            == environment.pypi_indexes && mismatch.previous == locked.pypi_indexes,
        EnvironmentUnsat::InvalidDistExtension(_) => environment.has_pypi_dependencies && exists|
            at: int,
            index: int,
        |
            #![trigger locked.packages@[at].pypi@[index]]
            is_locked_package(environment, locked, at, index) && is_fault_of(
                environment.no_build,
                locked.packages@[at].conda@,
                locked.packages@[at].pypi@[index],
                PackageFault::Extension,
            ),
        EnvironmentUnsat::NoBuildWithNonBinaryPackages(name) => environment.has_pypi_dependencies
            && exists|at: int, index: int|
            #![trigger locked.packages@[at].pypi@[index]]
            is_locked_package(environment, locked, at, index) && is_fault_of(
                environment.no_build,
                locked.packages@[at].conda@,
                locked.packages@[at].pypi@[index],
                PackageFault::Build(name@),
            ),
        EnvironmentUnsat::PypiWheelTagsMismatch { wheel } => environment.has_pypi_dependencies
            && exists|at: int, index: int|
            #![trigger locked.packages@[at].pypi@[index]]
            is_locked_package(environment, locked, at, index) && is_fault_of(
                environment.no_build,
                locked.packages@[at].conda@,
                locked.packages@[at].pypi@[index],
                PackageFault::Wheel(wheel@),
            ),
        EnvironmentUnsat::SolveStrategyMismatch { locked_strategy, expected_strategy } =>
            locked_strategy == locked.solve_strategy && expected_strategy
                == environment.solve_strategy && locked_strategy != expected_strategy,
        EnvironmentUnsat::ChannelPriorityMismatch { locked_priority, expected_priority } =>
            locked_priority == locked.channel_priority && expected_priority
                == environment.channel_priority && locked_priority != expected_priority,
        EnvironmentUnsat::PypiPrereleaseModeMismatch { locked_mode, expected_mode } => locked_mode
            == locked.prerelease_mode && expected_mode == environment.prerelease_mode && locked_mode
            != expected_mode,
        EnvironmentUnsat::InvalidExcludeNewer(reason) => locked.exclude_newer matches
            ExcludeNewer::Unresolved(found) && found@ == reason@,
        EnvironmentUnsat::ExcludeNewerMismatch(reason) => locked.exclude_newer matches
            ExcludeNewer::Differs(found) && found@ == reason@,
    }
}

/// Whatever the mode, an error names something that is wrong, and in sufficient mode that is how a
/// platform is defined.
pub proof fn errors_are_justified(
    environment: RequestedEnvironment,
    locked: LockedEnvironment,
    mode: SatisfiabilityMode,
    error: EnvironmentUnsat,
)
    requires
        satisfies(environment, locked, mode, Err(error)),
    ensures
        is_justified(environment, locked, error),
        mode == SatisfiabilityMode::Sufficient ==> error is PlatformDefinitionChanged,
{
    let result = Err::<(), _>(error);
    let (ours, theirs) = choose|ours: Seq<Option<Seq<char>>>, theirs: Seq<Option<Seq<char>>>|
        #![trigger verdict(environment, locked, mode, ours, theirs, result)]
        resolve_to(views(environment.channels@), environment.channel_config, ours) && resolve_to(
            views(locked.channels@),
            environment.channel_config,
            theirs,
        ) && verdict(environment, locked, mode, ours, theirs, result);
    let exact = mode == SatisfiabilityMode::Exact;
    if exact && !channels_verdict(ours, theirs, Ok(())) {
        lemma_channels_justified(environment, locked, ours, theirs, error);
    } else if exact && has_additional(environment, locked.platforms@) {
        lemma_additional_justified(environment, locked, error);
    } else if has_changed(environment, locked.platforms@) {
        lemma_change_justified(environment, locked, error);
    } else if environment.has_pypi_dependencies && !indexes_differ(environment, locked)
        && pypi_fault(environment, locked.packages@, 0) is Some {
        let (at, index) = lemma_any_fault(environment, locked, 0);
        assert(locked.packages@[at].pypi@[index] == locked.packages@[at].pypi@[index]);
    }
}

/// An error about channels names something that is wrong.
proof fn lemma_channels_justified(
    environment: RequestedEnvironment,
    locked: LockedEnvironment,
    ours: Seq<Option<Seq<char>>>,
    theirs: Seq<Option<Seq<char>>>,
    error: EnvironmentUnsat,
)
    requires
        resolve_to(views(environment.channels@), environment.channel_config, ours),
        resolve_to(views(locked.channels@), environment.channel_config, theirs),
        channels_verdict(ours, theirs, Err(error)),
    ensures
        is_justified(environment, locked, error),
{
    if channels_are_settled(environment, locked) {
        lemma_settled(environment, locked, ours, theirs);
        if !all_resolved(ours) {
            let i = choose|i: int| 0 <= i < ours.len() && !((#[trigger] ours[i]) is Some);
            assert(base_url(environment.channels@[i]@, environment.channel_config) is None);
        } else if !all_resolved(theirs) {
            let i = choose|i: int| 0 <= i < theirs.len() && !((#[trigger] theirs[i]) is Some);
            assert(base_url(locked.channels@[i]@, environment.channel_config) is None);
        } else if theirs.is_prefix_of(ours) {
            assert forall|i: int| 0 <= i < locked.channels@.len() implies base_url(
                (#[trigger] locked.channels@[i])@,
                environment.channel_config,
            ) == base_url(environment.channels@[i]@, environment.channel_config) by {
                assert(ours.take(theirs.len() as int)[i] == theirs[i]);
                assert(ours[i] == theirs[i]);
            }
            if theirs.len() == ours.len() {
                assert(ours =~= theirs);
            }
        } else if theirs.len() <= ours.len() {
            if forall|i: int|
                0 <= i < locked.channels@.len() ==> base_url(
                    (#[trigger] locked.channels@[i])@,
                    environment.channel_config,
                ) == base_url(environment.channels@[i]@, environment.channel_config) {
                assert forall|i: int| 0 <= i < theirs.len() implies theirs[i] == ours[i] by {
                    assert(locked.channels@[i] == locked.channels@[i]);
                }
                assert(theirs =~= ours.take(theirs.len() as int));
            }
        }
    }
}

/// An error about platforms that are not asked for names those that are not.
proof fn lemma_additional_justified(
    environment: RequestedEnvironment,
    locked: LockedEnvironment,
    error: EnvironmentUnsat,
)
    requires
        has_additional(environment, locked.platforms@),
        error matches EnvironmentUnsat::AdditionalPlatformsInLockFile(names) && names_additional(
            environment,
            locked.platforms@,
            views(names@),
        ),
    ensures
        is_justified(environment, locked, error),
{
    let names = error->AdditionalPlatformsInLockFile_0;
    let all = locked.platforms@;
    assert forall|i: int| 0 <= i < all.len() implies environment.is_additional(#[trigger] all[i])
        == (all[i].valid_name && !is_asked_for(environment, all[i].name@) && !is_subdir_asked_for(
        environment,
        all[i].subdir@,
    )) by {
        lemma_additional(environment, all[i]);
    }
    assert forall|name: Seq<char>| #[trigger]
        views(names@).contains(name) <==> exists|i: int|
            0 <= i < all.len() && (#[trigger] all[i]).name@ == name && all[i].valid_name
                && !is_asked_for(environment, name) && !is_subdir_asked_for(
                environment,
                all[i].subdir@,
            ) by {
        if views(names@).contains(name) {
            let i = choose|i: int|
                0 <= i < all.len() && environment.is_additional(#[trigger] all[i]) && all[i].name@
                    == name;
            assert(all[i].name@ == name);
        }
        if exists|i: int|
            0 <= i < all.len() && (#[trigger] all[i]).name@ == name && all[i].valid_name
                && !is_asked_for(environment, name) && !is_subdir_asked_for(
                environment,
                all[i].subdir@,
            ) {
            let i = choose|i: int|
                0 <= i < all.len() && (#[trigger] all[i]).name@ == name && all[i].valid_name
                    && !is_asked_for(environment, name) && !is_subdir_asked_for(
                    environment,
                    all[i].subdir@,
                );
            assert(environment.is_additional(all[i]));
        }
    }
    let i = choose|i: int| 0 <= i < all.len() && environment.is_additional(#[trigger] all[i]);
    assert(views(names@).contains(all[i].name@));
}

/// An error about a platform that is defined otherwise names one that is.
proof fn lemma_change_justified(
    environment: RequestedEnvironment,
    locked: LockedEnvironment,
    error: EnvironmentUnsat,
)
    requires
        error matches EnvironmentUnsat::PlatformDefinitionChanged(change) && exists|at: int|
            #[trigger] environment.first_changed(locked.platforms@, at)
                && environment.describes_change(locked.platforms@[at], change),
    ensures
        is_justified(environment, locked, error),
{
    let change = error->PlatformDefinitionChanged_0;
    let all = environment.workspace_platforms@;
    let at = choose|at: int| #[trigger]
        environment.first_changed(locked.platforms@, at) && environment.describes_change(
            locked.platforms@[at],
            change,
        );
    lemma_changed(environment, locked.platforms@[at]);
    let defined = choose|defined: int|
        is_defined_at(all, locked.platforms@[at].name@, defined) && !is_defined_as(
            locked.platforms@[at],
            #[trigger] all[defined],
        );
    lemma_one_defined(all, locked.platforms@[at].name@, defined);
    assert(locked.platforms@[at] == locked.platforms@[at] && all[defined] == all[defined]);
}

/// An error about channels.
pub open spec fn is_about_channels(error: EnvironmentUnsat) -> bool {
    error is ChannelsExtended || error is ChannelsMismatch || error is InvalidChannel
}

/// An error about options of the solver.
pub open spec fn is_about_options(error: EnvironmentUnsat) -> bool {
    ||| error is SolveStrategyMismatch
    ||| error is ChannelPriorityMismatch
    ||| error is PypiPrereleaseModeMismatch
    ||| error is InvalidExcludeNewer
    ||| error is ExcludeNewerMismatch
}

/// In exact mode, what comes before the thing that an error names agrees: channels come first, then
/// platforms that are not asked for, then how platforms are defined, PyPI indexes, PyPI packages,
/// and at last the options of the solver, one after the other.
pub proof fn errors_come_in_order(
    environment: RequestedEnvironment,
    locked: LockedEnvironment,
    error: EnvironmentUnsat,
)
    requires
        satisfies(environment, locked, SatisfiabilityMode::Exact, Err(error)),
    ensures
        !is_about_channels(error) && channels_are_settled(environment, locked) ==> channels_agree(
            environment,
            locked,
        ),
        !is_about_channels(error) && !(error is AdditionalPlatformsInLockFile)
            ==> platforms_are_asked_for(environment, locked),
        !is_about_channels(error) && !(error is AdditionalPlatformsInLockFile) && !(
        error is PlatformDefinitionChanged) ==> platforms_agree(environment, locked) && (
        environment.has_pypi_dependencies && !(error is IndexesMismatch) ==> pypi_indexes_agree(
            environment,
            locked,
        )),
        is_about_options(error) && environment.has_pypi_dependencies ==> packages_may_be_used(
            environment,
            locked,
        ),
        is_about_options(error) && !(error is SolveStrategyMismatch) ==> locked.solve_strategy
            == environment.solve_strategy && (!(error is ChannelPriorityMismatch)
            ==> locked.channel_priority == environment.channel_priority && (!(
        error is PypiPrereleaseModeMismatch) ==> locked.prerelease_mode
            == environment.prerelease_mode)),
{
    let result = Err::<(), _>(error);
    let mode = SatisfiabilityMode::Exact;
    let (ours, theirs) = choose|ours: Seq<Option<Seq<char>>>, theirs: Seq<Option<Seq<char>>>|
        #![trigger verdict(environment, locked, mode, ours, theirs, result)]
        resolve_to(views(environment.channels@), environment.channel_config, ours) && resolve_to(
            views(locked.channels@),
            environment.channel_config,
            theirs,
        ) && verdict(environment, locked, mode, ours, theirs, result);
    if channels_are_settled(environment, locked) {
        lemma_settled(environment, locked, ours, theirs);
    }
    lemma_any_additional(environment, locked);
    lemma_any_changed(environment, locked);
    lemma_packages(environment, locked);
}

} // verus!
