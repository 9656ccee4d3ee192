//! Updates of scripts and of lock files.
use pixi_script::run_script::ResolutionSource;
use pixi_script::similar::{
    ensure_package_exists, ensure_packages_exist, propose, report_package, LockedNames, ScoredName,
    ALIKE, IDENTICAL,
};
use pixi_script::update::{
    unlock_packages, LockedName, UpdateRefusal, UpdateSpecs, UpdateSpecsArgs,
};
use pixi_script::update_script::{
    ScriptUpdate, UpdateEvent, UpdateFailure, UpdateOptions, UpdatePhase,
    MAX_SCRIPT_UPDATE_ATTEMPTS,
};

fn owned(texts: &[&str]) -> Vec<String> {
    texts.iter().map(|text| text.to_string()).collect()
}

fn specs(packages: Option<&[&str]>, platforms: Option<&[&str]>) -> UpdateSpecs {
    UpdateSpecs::from_args(&UpdateSpecsArgs {
        packages: packages.map(owned),
        environments: None,
        platforms: platforms.map(owned),
    })
}

fn names(platform: Option<&str>, packages: &[&str]) -> LockedNames {
    LockedNames {
        environment: "default".to_owned(),
        platform: platform.map(str::to_owned),
        packages: owned(packages),
    }
}

#[test]
fn everything_is_named_once() {
    let specs = specs(Some(&["b", "a", "b"]), None);
    assert_eq!(specs.packages, Some(owned(&["b", "a"])));
    assert!(specs.is_selective());
    assert!(!self::specs(None, None).is_selective());
    assert!(self::specs(None, Some(&["linux-64"])).is_selective());
}

#[test]
fn only_what_is_named_is_relaxed() {
    let specs = specs(Some(&["numpy"]), Some(&["linux-64"]));
    assert!(specs.should_relax("default", "linux-64", "numpy"));
    assert!(!specs.should_relax("default", "linux-64", "scipy"));
    assert!(!specs.should_relax("default", "osx-64", "numpy"));
    let locked = |package: &str| LockedName {
        environment: "default".to_owned(),
        platform: "linux-64".to_owned(),
        package: package.to_owned(),
    };
    assert_eq!(
        unlock_packages(&vec![locked("numpy"), locked("scipy")], &specs),
        [false, true]
    );
    assert_eq!(
        unlock_packages(&vec![locked("numpy")], &self::specs(None, None)),
        [false]
    );
}

#[test]
fn environments_must_be_known() {
    let environments = UpdateSpecs {
        packages: None,
        environments: Some(owned(&["test", "docs"])),
        platforms: None,
    };
    assert!(matches!(
        environments.check_environments(true, &owned(&["test", "docs"])),
        Err(UpdateRefusal::ScriptEnvironment)
    ));
    assert!(environments.check_environments(false, &owned(&["docs", "test"])).is_ok());
    assert!(matches!(
        environments.check_environments(false, &owned(&["test"])),
        Err(UpdateRefusal::UnknownEnvironment(name)) if name == "docs"
    ));
    assert!(specs(None, None).check_environments(true, &vec![]).is_ok());
}

#[test]
fn a_missing_package_is_reported_with_those_most_like_it() {
    let locked = vec![
        names(Some("linux-64"), &["numpys", "numba", "numpy", "scipy", "numpys"]),
        names(None, &["nunpy"]),
    ];
    let all = specs(None, None);
    assert!(ensure_package_exists(&locked, "scipy", &all).is_ok());

    let fault = ensure_package_exists(&locked, "nunpy", &all).unwrap_err();
    assert_eq!(fault.message, "could not find a package named 'nunpy'");
    assert_eq!(fault.help.unwrap(), "did you mean 'numpy', 'numpys'?");

    let fault = ensure_package_exists(&locked, "zzz", &all).unwrap_err();
    assert!(fault.help.is_none());

    let mac = specs(None, Some(&["osx-64"]));
    assert!(ensure_package_exists(&locked, "scipy", &mac).is_err());
}

#[test]
fn names_are_ranked_by_their_scores() {
    let entry = |name: &str, score: u64| ScoredName { name: name.to_owned(), score };
    let similar = propose(vec![
        entry("low", ALIKE),
        entry("second", ALIKE + 1),
        entry("third", ALIKE + 1),
        entry("first", IDENTICAL),
    ]);
    assert_eq!(similar, ["first", "second", "third"]);
    assert!(report_package("first", &similar).is_ok());
    assert_eq!(
        report_package("other", &similar).unwrap_err().help.unwrap(),
        "did you mean 'first', 'second', 'third'?"
    );
    assert!(report_package("other", &vec![]).unwrap_err().help.is_none());
}

#[test]
fn no_more_than_five_packages_are_proposed() {
    let locked = vec![names(Some("linux-64"), &["aab", "aac", "aad", "aae", "aaf", "aag"])];
    let fault = ensure_package_exists(&locked, "aaa", &specs(None, None)).unwrap_err();
    assert_eq!(
        fault.help.unwrap(),
        "did you mean 'aab', 'aac', 'aad', 'aae', 'aaf'?"
    );
}

#[test]
fn all_named_packages_must_be_locked() {
    let locked = vec![names(Some("linux-64"), &["numpy"])];
    assert!(ensure_packages_exist(&locked, &specs(Some(&["numpy"]), None)).is_ok());
    assert!(ensure_packages_exist(&locked, &specs(None, None)).is_ok());
    let fault = ensure_packages_exist(&locked, &specs(Some(&["numpy", "qqq"]), None)).unwrap_err();
    assert_eq!(fault.message, "could not find a package named 'qqq'");
}

const PLAIN: UpdateOptions = UpdateOptions { no_install: false, dry_run: false, selective: false };

fn follow(options: UpdateOptions, events: &[UpdateEvent]) -> ScriptUpdate {
    let mut update = ScriptUpdate::new(options);
    for event in events {
        update.step(*event);
    }
    update
}

/// The events from the start up to where the baseline is compared, for a script without a lock
/// file beside it.
fn lockless() -> Vec<UpdateEvent> {
    vec![
        UpdateEvent::Sidecar(false),
        UpdateEvent::Guard(true),
        UpdateEvent::Loaded(true),
        UpdateEvent::Done,
        UpdateEvent::Done,
        UpdateEvent::Guard(true),
        UpdateEvent::Done,
        UpdateEvent::Sidecar(false),
        UpdateEvent::Loaded(true),
    ]
}

#[test]
fn an_update_publishes_and_installs() {
    let mut events = lockless();
    assert_eq!(follow(PLAIN, &events[..4]).phase, UpdatePhase::Solve);
    assert!(!follow(PLAIN, &events[..4]).guard);
    assert_eq!(follow(PLAIN, &events).phase, UpdatePhase::CompareBaseline);
    events.push(UpdateEvent::Same(true));
    let publishing = follow(PLAIN, &events);
    assert_eq!(publishing.phase, UpdatePhase::StoreState);
    assert!(publishing.guard);
    events.push(UpdateEvent::Done);
    let installing = follow(PLAIN, &events);
    assert_eq!(installing.phase, UpdatePhase::Install);
    assert!(!installing.guard);
    events.extend([
        UpdateEvent::Done,
        UpdateEvent::Guard(true),
        UpdateEvent::Done,
        UpdateEvent::Sidecar(false),
        UpdateEvent::Loaded(true),
        UpdateEvent::Same(true),
    ]);
    assert_eq!(follow(PLAIN, &events).phase, UpdatePhase::Finished);
}

#[test]
fn a_sidecar_is_compared_before_it_is_written() {
    let events = [
        UpdateEvent::Sidecar(true),
        UpdateEvent::Guard(false),
        UpdateEvent::Loaded(true),
        UpdateEvent::Done,
        UpdateEvent::Done,
        UpdateEvent::Done,
        UpdateEvent::Guard(true),
        UpdateEvent::Done,
        UpdateEvent::Sidecar(true),
        UpdateEvent::Loaded(true),
        UpdateEvent::Same(true),
        UpdateEvent::Same(true),
    ];
    assert_eq!(follow(PLAIN, &events[..4]).phase, UpdatePhase::RecordSidecar);
    assert_eq!(follow(PLAIN, &events[..10]).phase, UpdatePhase::CompareSidecar);
    assert_eq!(follow(PLAIN, &events).phase, UpdatePhase::WriteSidecar);
    let no_install = UpdateOptions { no_install: true, ..PLAIN };
    let mut update = follow(no_install, &events);
    update.step(UpdateEvent::Done);
    assert_eq!(update.phase, UpdatePhase::Finished);
}

#[test]
fn an_update_that_is_overtaken_starts_again_a_few_times() {
    let mut round = lockless();
    round.push(UpdateEvent::Same(false));
    let mut update = ScriptUpdate::new(PLAIN);
    for attempt in 1..=MAX_SCRIPT_UPDATE_ATTEMPTS {
        assert_eq!(update.attempt, attempt);
        assert_eq!(update.phase, UpdatePhase::FindSidecar);
        for event in &round {
            update.step(*event);
        }
    }
    assert_eq!(update.phase, UpdatePhase::Failed(UpdateFailure::ChangedRepeatedly));
    assert!(!update.guard);
}

#[test]
fn a_dry_run_only_confirms() {
    let dry_run = UpdateOptions { dry_run: true, ..PLAIN };
    let mut update = follow(dry_run, &[UpdateEvent::Sidecar(false)]);
    assert!(!update.guard_is_required());
    for event in [
        UpdateEvent::Guard(false),
        UpdateEvent::Loaded(false),
        UpdateEvent::Done,
        UpdateEvent::Done,
    ] {
        update.step(event);
    }
    assert_eq!(update.phase, UpdatePhase::ConfirmDryRun);
    update.step(UpdateEvent::Done);
    assert_eq!(update.phase, UpdatePhase::Finished);
}

#[test]
fn a_selective_update_needs_a_resolution_and_a_guard() {
    let selective = UpdateOptions { selective: true, dry_run: true, no_install: false };
    let mut update = follow(selective, &[UpdateEvent::Sidecar(false)]);
    assert!(update.guard_is_required());
    let mut refused = update;
    refused.step(UpdateEvent::Guard(false));
    assert_eq!(refused.phase, UpdatePhase::Failed(UpdateFailure::StateLock));
    for event in [UpdateEvent::Guard(true), UpdateEvent::Loaded(false), UpdateEvent::Done] {
        update.step(event);
    }
    assert_eq!(update.phase, UpdatePhase::Failed(UpdateFailure::NoCachedResolution));
}

#[test]
fn an_update_loads_what_counts() {
    let with = follow(PLAIN, &[UpdateEvent::Sidecar(true), UpdateEvent::Guard(true)]);
    assert_eq!(with.resolution_source(), ResolutionSource::Sidecar);
    let without = follow(PLAIN, &[UpdateEvent::Sidecar(false), UpdateEvent::Guard(true)]);
    assert_eq!(without.resolution_source(), ResolutionSource::Guarded);
    let dry_run = UpdateOptions { dry_run: true, ..PLAIN };
    let loose = follow(dry_run, &[UpdateEvent::Sidecar(false), UpdateEvent::Guard(false)]);
    assert_eq!(loose.resolution_source(), ResolutionSource::Unguarded);
}

#[test]
fn a_failed_step_ends_an_update() {
    let mut update = follow(PLAIN, &lockless());
    update.step(UpdateEvent::Failed);
    assert_eq!(update.phase, UpdatePhase::Failed(UpdateFailure::Step));
    assert!(!update.guard);
}
