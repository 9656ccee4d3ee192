//! Whether locked environments stand for requested ones.
use std::path::PathBuf;
use std::str::FromStr;

use pixi_script::lock_file::{
    verify_lock_file_satisfiability, verify_lock_file_satisfiability_with_mode, GroupCheck,
    LockedEntry, LockfileUnsat, PlatformCheck, ProjectEnvironment,
};
use pixi_script::pypi::{
    DistKind, LockedCondaPackage, LockedPypiPackage, NoBuild, PypiNoBuildCheck, PypiWheelTagsCheck,
};
use pixi_script::satisfiability::{
    additional_platforms, compare_channels, verify_environment_satisfiability,
    verify_environment_satisfiability_with_mode, verify_options, verify_platforms,
    verify_pypi_indexes, ExcludeNewer,
    LockedEnvironment, LockedPackages, LockedPlatform, RequestedEnvironment, SatisfiabilityMode,
    VirtualPackage, WorkspacePlatform,
};
use pixi_script::unsat::{ChannelPriority, EnvironmentUnsat, PrereleaseMode, SolveStrategy};
use rattler_conda_types::ChannelConfig;
use rattler_lock::{PypiIndexes, UrlOrPath};
use url::Url;
use uv_platform_tags::{Arch, Os, Platform, Tags};

fn indexes(url: &str) -> PypiIndexes {
    PypiIndexes {
        indexes: vec![Url::parse(url).unwrap()],
        find_links: vec![],
    }
}

fn virtual_package(text: &str, default_subdirs: &[&str]) -> VirtualPackage {
    VirtualPackage {
        text: text.to_owned(),
        default_subdirs: default_subdirs.iter().map(|subdir| subdir.to_string()).collect(),
    }
}

fn requested() -> RequestedEnvironment {
    RequestedEnvironment {
        channels: vec!["conda-forge".to_owned()],
        channel_config: ChannelConfig::default_with_root_dir(PathBuf::from("/workspace")),
        platforms: vec!["linux-64".to_owned()],
        workspace_platforms: vec![WorkspacePlatform {
            name: "linux-64".to_owned(),
            subdir: "linux-64".to_owned(),
            virtual_packages: vec![
                virtual_package("__linux", &["linux-64"]),
                virtual_package("__cuda=12", &[]),
                virtual_package("__glibc=2.30", &[]),
            ],
        }],
        has_pypi_dependencies: true,
        pypi_indexes: indexes("https://pypi.org/simple"),
        no_build: None,
        solve_strategy: SolveStrategy::Highest,
        channel_priority: ChannelPriority::Strict,
        prerelease_mode: PrereleaseMode::IfNecessaryOrExplicit,
    }
}

fn locked() -> LockedEnvironment {
    LockedEnvironment {
        channels: vec!["https://conda.anaconda.org/conda-forge/".to_owned()],
        platforms: vec![locked_platform("linux-64")],
        packages: vec![],
        pypi_indexes: Some(indexes("https://pypi.org/simple")),
        states_pypi_indexes: true,
        has_pypi_packages: false,
        solve_strategy: SolveStrategy::Highest,
        channel_priority: ChannelPriority::Strict,
        prerelease_mode: PrereleaseMode::IfNecessaryOrExplicit,
        exclude_newer: ExcludeNewer::Agrees,
    }
}

fn locked_platform(name: &str) -> LockedPlatform {
    LockedPlatform {
        name: name.to_owned(),
        valid_name: true,
        subdir: "linux-64".to_owned(),
        virtual_packages: vec![
            virtual_package("__glibc=2.30", &[]),
            virtual_package("__cuda=12", &[]),
        ],
    }
}

fn package(name: &str, location: &str) -> LockedPypiPackage {
    LockedPypiPackage {
        name: name.to_owned(),
        location: UrlOrPath::from_str(location).unwrap(),
        is_dir: false,
        editable: false,
    }
}

fn tags(minor: u8) -> Tags {
    Tags::from_env(
        &Platform::new(Os::Manylinux { major: 2, minor: 17 }, Arch::X86_64),
        (3, minor),
        "cpython",
        (3, minor),
        true,
        false,
        false,
    )
    .unwrap()
}

fn python(minor: u8) -> LockedCondaPackage {
    LockedCondaPackage {
        binary: true,
        python: true,
        tags: Some(tags(minor)),
    }
}

const WHEEL: &str = "https://example.invalid/demo-1.0.0-cp312-cp312-manylinux_2_17_x86_64.whl";

fn exact(
    requested: &RequestedEnvironment,
    locked: &LockedEnvironment,
) -> Result<(), EnvironmentUnsat> {
    verify_environment_satisfiability_with_mode(requested, locked, SatisfiabilityMode::Exact)
}

fn sufficient(
    requested: &RequestedEnvironment,
    locked: &LockedEnvironment,
) -> Result<(), EnvironmentUnsat> {
    verify_environment_satisfiability_with_mode(requested, locked, SatisfiabilityMode::Sufficient)
}

#[test]
fn wheel_tags_are_computed_per_named_platform() {
    let old = vec![python(9)];
    let new = vec![python(12)];
    let wheel = package("demo", WHEEL);

    assert!(PypiWheelTagsCheck::new(&old).check(&wheel).is_err());
    assert!(PypiWheelTagsCheck::new(&new).check(&wheel).is_ok());
    assert_eq!(
        PypiWheelTagsCheck::new(&old).incompatible_wheel(&wheel),
        Some("demo".to_owned())
    );
}

#[test]
fn the_first_interpreter_decides_which_wheels_fit() {
    let other = LockedCondaPackage { binary: true, python: false, tags: Some(tags(12)) };
    let source = LockedCondaPackage { binary: false, python: true, tags: Some(tags(12)) };
    let wheel = package("demo", WHEEL);
    assert!(PypiWheelTagsCheck::new(&[other, source, python(9), python(12)])
        .check(&wheel)
        .is_err());
    let untold = LockedCondaPackage { binary: true, python: true, tags: None };
    assert!(PypiWheelTagsCheck::new(&[untold, python(9)]).check(&wheel).is_ok());
    assert!(PypiWheelTagsCheck::new(&[python(9)])
        .check(&package("demo", "https://example.invalid/demo-1.0.0.tar.gz"))
        .is_ok());
}

#[test]
fn sufficient_environment_satisfiability_accepts_resolution_policy_differences() {
    let mut strategy = locked();
    strategy.solve_strategy = SolveStrategy::LowestVersion;
    assert!(matches!(
        exact(&requested(), &strategy),
        Err(EnvironmentUnsat::SolveStrategyMismatch {
            locked_strategy: SolveStrategy::LowestVersion,
            expected_strategy: SolveStrategy::Highest,
        })
    ));
    sufficient(&requested(), &strategy).unwrap();

    let mut priority = locked();
    priority.channel_priority = ChannelPriority::Disabled;
    assert!(matches!(
        exact(&requested(), &priority),
        Err(EnvironmentUnsat::ChannelPriorityMismatch { .. })
    ));
    sufficient(&requested(), &priority).unwrap();

    let mut newer = locked();
    newer.exclude_newer = ExcludeNewer::Differs("another date".to_owned());
    assert!(matches!(
        exact(&requested(), &newer),
        Err(EnvironmentUnsat::ExcludeNewerMismatch(reason)) if reason == "another date"
    ));
    sufficient(&requested(), &newer).unwrap();

    let mut prerelease = locked();
    prerelease.prerelease_mode = PrereleaseMode::Allow;
    assert!(matches!(
        exact(&requested(), &prerelease),
        Err(EnvironmentUnsat::PypiPrereleaseModeMismatch { .. })
    ));
    sufficient(&requested(), &prerelease).unwrap();

    let mut no_build = requested();
    no_build.no_build = Some(NoBuild::All);
    let mut source = locked();
    source.packages = vec![LockedPackages {
        platform: "linux-64".to_owned(),
        conda: vec![],
        pypi: vec![package("demo", "https://example.invalid/demo-1.0.0.tar.gz")],
    }];
    assert!(matches!(
        exact(&no_build, &source),
        Err(EnvironmentUnsat::NoBuildWithNonBinaryPackages(name)) if name == "demo"
    ));
    sufficient(&no_build, &source).unwrap();

    let mut additional = locked();
    let mut other = locked_platform("osx-arm64");
    other.subdir = "osx-arm64".to_owned();
    additional.platforms.push(other);
    assert!(matches!(
        exact(&requested(), &additional),
        Err(EnvironmentUnsat::AdditionalPlatformsInLockFile(names)) if names == ["osx-arm64"]
    ));
    sufficient(&requested(), &additional).unwrap();
}

#[test]
fn sufficient_environment_satisfiability_accepts_changed_channels() {
    let mut requested = requested();
    requested.channels = vec!["https://example.invalid/channel".to_owned()];

    assert!(matches!(
        exact(&requested, &locked()),
        Err(EnvironmentUnsat::ChannelsMismatch)
    ));
    sufficient(&requested, &locked())
        .expect("channel policy must not invalidate a compatible installed solution");
}

#[test]
fn sufficient_environment_satisfiability_accepts_changed_pypi_indexes() {
    let mut requested = requested();
    requested.pypi_indexes = indexes("https://different.example.com/simple");

    assert!(matches!(
        exact(&requested, &locked()),
        Err(EnvironmentUnsat::IndexesMismatch(_))
    ));
    sufficient(&requested, &locked())
        .expect("index policy must not invalidate a compatible installed solution");
}

#[test]
fn an_exact_environment_is_sufficient() {
    verify_environment_satisfiability(&requested(), &locked()).unwrap();
    sufficient(&requested(), &locked()).unwrap();
    assert_eq!(SatisfiabilityMode::default(), SatisfiabilityMode::Exact);
}

#[test]
fn channels_may_only_be_appended() {
    let urls = |names: &[&str]| names.iter().map(|name| name.to_string()).collect::<Vec<_>>();
    assert!(compare_channels(&urls(&["a", "b"]), &urls(&["a", "b"])).is_ok());
    assert!(matches!(
        compare_channels(&urls(&["a", "b"]), &urls(&["a"])),
        Err(EnvironmentUnsat::ChannelsExtended)
    ));
    for (ours, theirs) in [(vec!["a"], vec!["a", "b"]), (vec!["b", "a"], vec!["a"])] {
        assert!(matches!(
            compare_channels(&urls(&ours), &urls(&theirs)),
            Err(EnvironmentUnsat::ChannelsMismatch)
        ));
    }
    let mut extended = requested();
    extended.channels.push("bioconda".to_owned());
    assert!(matches!(
        exact(&extended, &locked()),
        Err(EnvironmentUnsat::ChannelsExtended)
    ));
}

#[test]
fn a_channel_without_a_base_url_is_refused() {
    let mut invalid = requested();
    invalid.channel_config = ChannelConfig::default_with_root_dir(PathBuf::from("relative"));
    invalid.channels = vec!["./local".to_owned()];
    assert!(matches!(
        exact(&invalid, &locked()),
        Err(EnvironmentUnsat::InvalidChannel(_))
    ));
    sufficient(&invalid, &locked()).unwrap();
}

#[test]
fn a_changed_platform_is_never_sufficient() {
    let mut subdir = locked();
    subdir.platforms[0].subdir = "linux-aarch64".to_owned();
    let Err(EnvironmentUnsat::PlatformDefinitionChanged(change)) = sufficient(&requested(), &subdir)
    else {
        panic!("the subdir is another");
    };
    assert_eq!(change.name, "linux-64");
    assert_eq!(change.expected_subdir, "linux-64");
    assert_eq!(change.found_subdir, "linux-aarch64");

    let mut packages = locked();
    packages.platforms[0].virtual_packages.push(virtual_package("__linux", &["linux-64"]));
    sufficient(&requested(), &packages).unwrap();
    packages.platforms[0].virtual_packages.push(virtual_package("__cuda=12", &[]));
    let Err(EnvironmentUnsat::PlatformDefinitionChanged(change)) =
        exact(&requested(), &packages)
    else {
        panic!("a virtual package is locked twice");
    };
    assert_eq!(change.expected_virtual_packages, ["__cuda=12", "__glibc=2.30"]);
    assert_eq!(
        change.found_virtual_packages,
        ["__glibc=2.30", "__cuda=12", "__cuda=12"]
    );
}

#[test]
fn parts_of_an_environment_can_be_checked_alone() {
    let mut changed = locked();
    changed.platforms.push(locked_platform("osx-64"));
    changed.platforms[1].subdir = "osx-64".to_owned();
    assert_eq!(additional_platforms(&requested(), &changed.platforms), ["osx-64"]);
    verify_platforms(&requested(), &changed.platforms).unwrap();
    verify_options(&requested(), &changed).unwrap();
    changed.prerelease_mode = PrereleaseMode::Disallow;
    assert!(matches!(
        verify_options(&requested(), &changed),
        Err(EnvironmentUnsat::PypiPrereleaseModeMismatch {
            locked_mode: PrereleaseMode::Disallow,
            expected_mode: PrereleaseMode::IfNecessaryOrExplicit,
        })
    ));
    let check = PypiNoBuildCheck::new(Some(&NoBuild::Packages(vec!["A.B".to_owned()])));
    assert!(check.check_kind("a-b", DistKind::Source).is_err());
    assert!(check.check_kind("a-b", DistKind::Wheel).is_ok());
    assert!(check.check_kind("c", DistKind::Source).is_ok());
}

#[test]
fn platforms_without_a_usable_name_do_not_count() {
    let mut foreign = locked();
    foreign.platforms.push(LockedPlatform {
        name: "not a name".to_owned(),
        valid_name: false,
        subdir: "win-64".to_owned(),
        virtual_packages: vec![],
    });
    foreign.platforms.push(locked_platform("old-alias"));
    exact(&requested(), &foreign).unwrap();
}

#[test]
fn indexes_must_be_locked_where_the_lock_file_states_them() {
    let mut missing = locked();
    missing.pypi_indexes = None;
    verify_pypi_indexes(&requested(), &missing).unwrap();
    missing.has_pypi_packages = true;
    let Err(EnvironmentUnsat::IndexesMismatch(mismatch)) =
        verify_pypi_indexes(&requested(), &missing)
    else {
        panic!("the indexes are missing");
    };
    assert_eq!(mismatch.current, indexes("https://pypi.org/simple"));
    assert!(mismatch.previous.is_none());
    missing.states_pypi_indexes = false;
    verify_pypi_indexes(&requested(), &missing).unwrap();

    let mut without = requested();
    without.has_pypi_dependencies = false;
    missing.states_pypi_indexes = true;
    exact(&without, &missing).unwrap();
}

#[test]
fn wheels_of_every_platform_must_fit() {
    let mut wheels = locked();
    wheels.packages = vec![LockedPackages {
        platform: "linux-64".to_owned(),
        conda: vec![python(9)],
        pypi: vec![package("demo", WHEEL)],
    }];
    assert!(matches!(
        exact(&requested(), &wheels),
        Err(EnvironmentUnsat::PypiWheelTagsMismatch { wheel }) if wheel == "demo"
    ));
    wheels.packages[0].platform = "osx-arm64".to_owned();
    exact(&requested(), &wheels).unwrap();
}

#[test]
fn an_unresolved_date_is_refused() {
    let mut unresolved = locked();
    unresolved.exclude_newer = ExcludeNewer::Unresolved("no such date".to_owned());
    assert!(matches!(
        exact(&requested(), &unresolved),
        Err(EnvironmentUnsat::InvalidExcludeNewer(reason)) if reason == "no such date"
    ));
}

#[test]
fn sources_may_be_refused_by_name() {
    let names = NoBuild::Packages(vec!["My__Demo".to_owned(), "-not a name".to_owned()]);
    let check = PypiNoBuildCheck::new(Some(&names));
    let refused = |package: &LockedPypiPackage| {
        matches!(
            check.check(package),
            Err(EnvironmentUnsat::NoBuildWithNonBinaryPackages(_))
        )
    };
    assert!(refused(&package("my-demo", "https://example.invalid/my-demo-1.0.zip")));
    assert!(!refused(&package("other", "https://example.invalid/other-1.0.zip")));
    assert!(!refused(&package("my-demo", "https://example.invalid/my_demo-1.0-py3-none-any.whl")));
    assert!(refused(&package("my-demo", "git+https://example.invalid/my-demo.whl")));

    let mut local = package("my-demo", "./my-demo");
    assert!(matches!(
        check.check(&local),
        Err(EnvironmentUnsat::InvalidDistExtension(_))
    ));
    local.is_dir = true;
    assert!(refused(&local));
    local.editable = true;
    assert!(!refused(&local));

    let all = PypiNoBuildCheck::new(Some(&NoBuild::All));
    assert!(all.check(&package("x", "https://example.invalid/x.tar.gz")).is_err());
    assert!(matches!(
        all.check(&package("x", "https://example.invalid/")),
        Err(EnvironmentUnsat::InvalidDistExtension(_))
    ));
    for none in [None, Some(&NoBuild::Nothing)] {
        assert!(PypiNoBuildCheck::new(none)
            .check(&package("x", "https://example.invalid/"))
            .is_ok());
    }
}

fn project(name: &str) -> ProjectEnvironment {
    ProjectEnvironment {
        name: name.to_owned(),
        requested: requested(),
        platforms: vec![PlatformCheck {
            platform: "linux-64".to_owned(),
            fault: None,
        }],
    }
}

fn entry(name: &str) -> LockedEntry {
    LockedEntry { name: name.to_owned(), environment: locked() }
}

#[test]
fn a_lock_file_stands_for_all_environments() {
    let none: Vec<GroupCheck> = vec![];
    let verify = |project: Vec<ProjectEnvironment>, locked: Vec<LockedEntry>| {
        verify_lock_file_satisfiability(&project, &locked, &none)
    };
    verify(vec![project("default")], vec![entry("default")]).unwrap();
    assert!(matches!(
        verify(vec![project("default")], vec![entry("default"), entry("old")]),
        Err(LockfileUnsat::EnvironmentRemoved(name)) if name == "old"
    ));
    assert!(matches!(
        verify(vec![project("default"), project("new")], vec![entry("default")]),
        Err(LockfileUnsat::EnvironmentMissing(name)) if name == "new"
    ));
    let mut changed = entry("default");
    changed.environment.solve_strategy = SolveStrategy::LowestVersionDirect;
    assert!(matches!(
        verify(vec![project("default")], vec![changed]),
        Err(LockfileUnsat::Environment(
            _,
            EnvironmentUnsat::SolveStrategyMismatch { .. }
        ))
    ));
    let mut faulty = project("default");
    faulty.platforms[0].fault = Some("no such package".to_owned());
    assert!(matches!(
        verify(vec![faulty], vec![entry("default")]),
        Err(LockfileUnsat::PlatformUnsat(name, platform, fault))
            if name == "default" && platform == "linux-64" && fault == "no such package"
    ));
}

#[test]
fn solve_groups_come_last() {
    let check = |is_group: bool| {
        let groups = vec![GroupCheck {
            name: "group".to_owned(),
            is_group,
            platform: "linux-64".to_owned(),
            fault: Some("clash".to_owned()),
        }];
        verify_lock_file_satisfiability_with_mode(
            &vec![project("default")],
            &vec![entry("default")],
            &groups,
            SatisfiabilityMode::Sufficient,
        )
    };
    assert!(matches!(
        check(true),
        Err(LockfileUnsat::SolveGroupUnsat(name, _, fault)) if name == "group" && fault == "clash"
    ));
    assert!(matches!(check(false), Err(LockfileUnsat::PlatformUnsat(_, _, _))));
}
