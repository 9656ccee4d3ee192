//! The cached resolution of a script.
use std::path::PathBuf;

use pixi_script::reconcile::{
    ReconcileEvent, ReconcileFailure, ReconcilePhase, Reconciliation, MAX_RECONCILE_ATTEMPTS,
};
use pixi_script::resolution::{
    check_lock_root, check_script_metadata, home_lookup, initial_home_buffer, lock_name_of_digest,
    physical_script_file_name, same_resolution, script_resolution_identity, script_resolution_lock_name,
    script_resolutions_equal, select_script_file_name, sidecar_name, DirectoryEntry, FileId,
    FileNameFault, HomeLookup, MetadataFault, PhysicalScript, ResolutionIdentity, Restoration,
    ScriptLockFileState, ScriptResolutionConflictError, ScriptResolutionFileState,
    StoredScriptResolution, STATE_VERSION,
};
use pixi_script::run_script::ResolutionSource;
use rattler_lock::LockFile;

fn bytes(names: &[&str]) -> Vec<Vec<u8>> {
    names.iter().map(|name| name.as_bytes().to_vec()).collect()
}

#[test]
fn physical_script_name_prefers_exact_matches_independent_of_entry_order() {
    let requested = b"requested.py";
    for candidates in [
        vec!["alias.py", "requested.py"],
        vec!["requested.py", "alias.py"],
        vec!["first.py", "second.py", "requested.py"],
    ] {
        let selected = select_script_file_name(requested, &bytes(&candidates)).unwrap();
        assert_eq!(selected, requested);
    }

    let error = select_script_file_name(requested, &bytes(&["first.py", "second.py"])).unwrap_err();
    assert_eq!(error, FileNameFault::Ambiguous);
    assert_eq!(
        select_script_file_name(requested, &bytes(&["only.py"])).unwrap(),
        b"only.py"
    );
    assert_eq!(
        select_script_file_name(requested, &vec![]).unwrap_err(),
        FileNameFault::NotFound
    );
}

#[test]
fn a_script_is_found_by_what_its_file_is() {
    let id = FileId { device: 1, inode: 7 };
    let entry = |name: &str, inode: u64| DirectoryEntry {
        name: name.as_bytes().to_vec(),
        id: FileId { device: 1, inode },
    };
    let find = |entries: Vec<DirectoryEntry>| physical_script_file_name(b"EXAMPLE.PY", id, &entries);
    assert_eq!(find(vec![entry("other.py", 3), entry("example.py", 7)]).unwrap(), b"example.py");
    assert_eq!(
        find(vec![entry("example.py", 7), entry("EXAMPLE.PY", 9)]).unwrap(),
        b"EXAMPLE.PY"
    );
    assert_eq!(
        find(vec![entry("a.py", 7), entry("b.py", 7)]).unwrap_err(),
        FileNameFault::Ambiguous
    );
    assert_eq!(find(vec![entry("a.py", 8)]).unwrap_err(), FileNameFault::NotFound);
}

#[test]
fn the_lock_is_named_by_the_digest_of_the_identity() {
    // The digest of no bytes is e3b0c44298fc1c149afbf4c8996fb924...
    assert_eq!(script_resolution_lock_name(b""), "pixi-script-e3b0c44298fc1c14.lock");
    // The digest of "abc" is ba7816bf8f01cfea414140de5dae2223...
    assert_eq!(
        lock_name_of_digest(&[0x01, 0x23, 0x45, 0x67, 0x89, 0xab, 0xcd, 0xef, 0xff]),
        "pixi-script-0123456789abcdef.lock"
    );
    assert_eq!(script_resolution_lock_name(b"abc"), "pixi-script-ba7816bf8f01cfea.lock");
}

#[test]
fn the_lock_file_stands_beside_the_script() {
    assert_eq!(sidecar_name(b"example.py"), b"example.py.pixi.lock");
    let script = PhysicalScript {
        parent: b"/scripts".to_vec(),
        name: b"alias.py".to_vec(),
    };
    assert!(matches!(
        script_resolution_identity(Some(script), b"/cache".to_vec()),
        ResolutionIdentity::Sidecar { parent, name }
            if parent == b"/scripts" && name == b"alias.py.pixi.lock"
    ));
    assert!(matches!(
        script_resolution_identity(None, b"/cache".to_vec()),
        ResolutionIdentity::Environment { directory } if directory == b"/cache"
    ));
}

#[test]
fn a_lock_file_is_restored_to_what_it_was() {
    let held = ScriptLockFileState::from_contents(b"one".to_vec());
    let other = ScriptLockFileState::from_contents(b"two".to_vec());
    let absent = ScriptLockFileState::absent();
    assert!(absent.is_absent() && !held.is_absent());
    assert!(held.is_current(&ScriptLockFileState::from_contents(b"one".to_vec())));
    assert!(!held.is_current(&other) && !held.is_current(&absent));
    assert!(held.ensure_current(&held).is_ok());
    assert_eq!(held.ensure_current(&absent), Err(ScriptResolutionConflictError));
    assert!(matches!(held.restoration(&held), Restoration::Keep));
    assert!(matches!(held.restoration(&other), Restoration::Write(contents) if contents == b"one"));
    assert!(matches!(absent.restoration(&held), Restoration::Remove));
    assert!(matches!(absent.restoration(&absent), Restoration::Keep));
}

#[test]
fn a_cached_resolution_is_restored_or_cleared() {
    let held = ScriptResolutionFileState::from_contents(b"state".to_vec());
    let absent = ScriptResolutionFileState::absent();
    assert!(matches!(absent.restoration(&held), Restoration::Remove));
    assert!(matches!(held.restoration(&absent), Restoration::Write(contents) if contents == b"state"));
    assert!(matches!(held.restoration(&held), Restoration::Keep));
}

#[test]
fn a_stored_resolution_is_read_back() {
    let root = PathBuf::from("/scripts");
    let lock_file = LockFile::default();
    let rendered = lock_file.render_to_string().unwrap();
    let stored = StoredScriptResolution::of(&lock_file).unwrap();
    assert_eq!(stored.version, STATE_VERSION);
    assert_eq!(stored.text(), Some(rendered.as_str()));
    let restored = stored.lock_file(&root, true).unwrap();
    assert_eq!(restored.render_to_string().unwrap(), rendered);

    let newer = StoredScriptResolution { version: STATE_VERSION + 1, lock_file: rendered };
    assert!(newer.text().is_none());
    assert!(newer.lock_file(&root, true).is_none());
    let invalid = StoredScriptResolution {
        version: STATE_VERSION,
        lock_file: "not a lock file".to_owned(),
    };
    assert!(invalid.lock_file(&root, true).is_none());
}

#[test]
fn resolutions_are_compared_by_their_text() {
    let one = LockFile::default();
    let other = LockFile::from_str_with_base_directory(
        "version: 6\nenvironments:\n  default:\n    channels:\n    - url: https://example.invalid/\n    packages: {}\npackages: []\n",
        None,
    )
    .unwrap();
    assert!(same_resolution(Some(&"a".to_owned()), Some(&"a".to_owned())));
    assert!(!same_resolution(Some(&"a".to_owned()), Some(&"b".to_owned())));
    assert!(!same_resolution(None, Some(&"a".to_owned())));
    assert!(script_resolutions_equal(None, None).unwrap());
    assert!(script_resolutions_equal(Some(&one), Some(&one.clone())).unwrap());
    assert!(!script_resolutions_equal(Some(&one), None).unwrap());
    assert!(!script_resolutions_equal(Some(&one), Some(&other)).unwrap());
}

#[test]
fn the_room_for_a_home_directory_grows() {
    assert_eq!(initial_home_buffer(4096), 4096);
    assert_eq!(initial_home_buffer(-1), 1024);
    assert!(matches!(home_lookup(1024, 34, true, None), HomeLookup::Retry(2048)));
    assert!(matches!(
        home_lookup(usize::MAX, 34, true, None),
        HomeLookup::Retry(usize::MAX)
    ));
    assert!(matches!(home_lookup(1024, 5, false, None), HomeLookup::Failed(5)));
    assert!(matches!(home_lookup(1024, 0, false, None), HomeLookup::NotFound));
    assert!(matches!(home_lookup(1024, 0, false, Some(vec![])), HomeLookup::Empty));
    assert!(matches!(
        home_lookup(1024, 0, false, Some(b"/root".to_vec())),
        HomeLookup::Home(home) if home == b"/root"
    ));
}

#[test]
fn the_directory_of_the_locks_is_the_users_own() {
    assert_eq!(check_lock_root(true, 10, 10, 0o40700), Ok(false));
    assert_eq!(check_lock_root(true, 10, 10, 0o40755), Ok(true));
    assert!(check_lock_root(true, 11, 10, 0o40700).is_err());
    assert!(check_lock_root(false, 10, 10, 0o40700).is_err());
}

#[test]
fn metadata_must_not_change_under_work() {
    let same = b"one".to_vec();
    let other = b"two".to_vec();
    assert!(check_script_metadata(true, b"one", Some(&same)).is_ok());
    assert_eq!(check_script_metadata(true, b"one", Some(&other)), Err(MetadataFault::Conflict));
    assert_eq!(check_script_metadata(true, b"one", None), Err(MetadataFault::NoBlock));
    assert!(check_script_metadata(false, b"one", None).is_ok());
}

fn round(same: bool) -> Vec<ReconcileEvent> {
    vec![
        ReconcileEvent::Done,
        ReconcileEvent::Done,
        ReconcileEvent::Sidecar(true),
        ReconcileEvent::Loaded(true),
        ReconcileEvent::Done,
        ReconcileEvent::Done,
        ReconcileEvent::Done,
        ReconcileEvent::Sidecar(true),
        ReconcileEvent::Loaded(true),
        ReconcileEvent::Same(same),
    ]
}

#[test]
fn an_environment_is_brought_in_line() {
    let mut reconciliation = Reconciliation::new();
    for event in round(false).into_iter().chain(round(true)) {
        if reconciliation.phase == ReconcilePhase::Install {
            assert!(!reconciliation.guard);
            assert_eq!(reconciliation.resolution_source(), ResolutionSource::Sidecar);
        }
        reconciliation.step(event);
    }
    assert_eq!(reconciliation.phase, ReconcilePhase::Finished);
    assert_eq!(reconciliation.attempt, 2);
}

#[test]
fn an_environment_that_is_overtaken_each_time_is_not_in_line() {
    let mut reconciliation = Reconciliation::new();
    for _ in 0..MAX_RECONCILE_ATTEMPTS {
        for event in round(false) {
            reconciliation.step(event);
        }
    }
    assert_eq!(
        reconciliation.phase,
        ReconcilePhase::Failed(ReconcileFailure::Conflict)
    );
}

#[test]
fn nothing_can_be_brought_in_line_with_nothing() {
    let mut reconciliation = Reconciliation::new();
    for event in [
        ReconcileEvent::Done,
        ReconcileEvent::Done,
        ReconcileEvent::Sidecar(false),
        ReconcileEvent::Loaded(false),
    ] {
        reconciliation.step(event);
    }
    assert_eq!(
        reconciliation.phase,
        ReconcilePhase::Failed(ReconcileFailure::Conflict)
    );
    let mut failed = Reconciliation::new();
    failed.step(ReconcileEvent::Failed);
    assert_eq!(failed.phase, ReconcilePhase::Failed(ReconcileFailure::Step));
}
