//! Replacing files, and editing dependencies.
use indexmap::IndexMap;
use pixi_script::add::{
    plan_dependencies, DependencyEdit, DependencyPlan, EditEvent, EditFailure, EditPhase,
    GitSource, LockFileUsage, SourceNotAllowed,
};
use pixi_script::atomic_write::{
    temp_file_prefix, AtomicWrite, WriteEvent, WritePhase, NEW_FILE_MODE,
};

#[test]
fn test_temp_file_has_correct_prefix() {
    let dir = tempfile::tempdir().unwrap();
    let temp = tempfile::Builder::new()
        .prefix(&temp_file_prefix(Some("pixi.toml")))
        .tempfile_in(dir.path())
        .unwrap();
    let name = temp.path().file_name().unwrap().to_str().unwrap();

    assert!(
        name.starts_with(".pixi.toml."),
        "expected prefix `.pixi.toml.`, got `{name}`"
    );
    assert_eq!(temp_file_prefix(None), ".tmp.");
}

fn write(strict: bool, events: &[WriteEvent]) -> AtomicWrite {
    let mut write = AtomicWrite::new(strict);
    for event in events {
        write.step(*event);
    }
    write
}

#[test]
fn a_replaced_file_keeps_its_mode() {
    let events = [
        WriteEvent::Mode(Some(0o644)),
        WriteEvent::Done,
        WriteEvent::Done,
        WriteEvent::Done,
        WriteEvent::Done,
    ];
    assert_eq!(write(true, &events[..1]).phase, WritePhase::CreateTemp(0o644));
    assert_eq!(write(true, &events[..2]).phase, WritePhase::SetMode(0o644));
    assert_eq!(write(true, &events[..3]).phase, WritePhase::WriteTemp);
    assert_eq!(write(true, &events[..4]).phase, WritePhase::Persist);
    assert_eq!(write(true, &events).phase, WritePhase::Finished);
}

#[test]
fn a_new_file_gets_the_mode_of_new_files() {
    let events = [WriteEvent::Mode(None), WriteEvent::Done];
    assert_eq!(
        write(false, &events[..1]).phase,
        WritePhase::CreateTemp(NEW_FILE_MODE)
    );
    assert_eq!(write(false, &events).phase, WritePhase::WriteTemp);
}

#[test]
fn only_a_lenient_write_falls_back() {
    let denied = [WriteEvent::Mode(None), WriteEvent::PermissionDenied];
    assert_eq!(write(true, &denied).phase, WritePhase::Failed);
    let mut lenient = write(false, &denied);
    assert_eq!(lenient.phase, WritePhase::WriteTarget);
    lenient.step(WriteEvent::Done);
    assert_eq!(lenient.phase, WritePhase::Finished);
    assert_eq!(
        write(false, &[WriteEvent::Mode(None), WriteEvent::Failed]).phase,
        WritePhase::Failed
    );
    assert_eq!(write(false, &[WriteEvent::PermissionDenied]).phase, WritePhase::Failed);
}

fn specs() -> IndexMap<String, String> {
    IndexMap::from([
        ("zlib".to_owned(), "*".to_owned()),
        ("boost".to_owned(), ">=1.80".to_owned()),
    ])
}

fn git() -> GitSource {
    GitSource {
        url: "https://example.invalid/repository".to_owned(),
        reference: "main".to_owned(),
        subdirectory: None,
    }
}

#[test]
fn packages_match_specs_or_are_built() {
    let Ok(DependencyPlan::Matches(matches)) = plan_dependencies(specs(), None, false) else {
        panic!("no repository was named");
    };
    assert_eq!(matches, specs());
    let Ok(DependencyPlan::Sources { names, git: source }) =
        plan_dependencies(specs(), Some(git()), true)
    else {
        panic!("a repository was named");
    };
    assert_eq!(names, ["zlib", "boost"]);
    assert_eq!(source.url, git().url);
    assert_eq!(
        plan_dependencies(specs(), Some(git()), false).unwrap_err(),
        SourceNotAllowed
    );
}

fn edit(is_script: bool, usage: LockFileUsage, events: &[EditEvent]) -> DependencyEdit {
    let mut edit = DependencyEdit::new(is_script, usage);
    for event in events {
        edit.step(*event);
    }
    edit
}

#[test]
fn only_some_uses_of_a_lock_file_are_strict() {
    assert!(LockFileUsage::Locked.is_strict() && LockFileUsage::Frozen.is_strict());
    assert!(!LockFileUsage::Update.is_strict() && !LockFileUsage::DryRun.is_strict());
}

const UPDATED: [EditEvent; 3] = [EditEvent::Done, EditEvent::Done, EditEvent::Done];

#[test]
fn an_edit_is_saved_after_the_update() {
    let saving = edit(true, LockFileUsage::Update, &UPDATED);
    assert_eq!(saving.phase, EditPhase::Save);
    assert_eq!(
        edit(true, LockFileUsage::DryRun, &UPDATED).phase,
        EditPhase::SaveAndClear
    );
    assert_eq!(
        edit(false, LockFileUsage::DryRun, &UPDATED).phase,
        EditPhase::Save
    );
    let mut saved = saving;
    saved.step(EditEvent::Done);
    assert_eq!(saved.phase, EditPhase::Finished);
}

#[test]
fn an_edit_that_fails_is_reverted() {
    let updating = edit(true, LockFileUsage::Update, &UPDATED[..2]);
    assert!(updating.listens());
    assert!(!edit(false, LockFileUsage::Update, &UPDATED[..2]).listens());
    for (event, failure) in [
        (EditEvent::Cancelled, EditFailure::Cancelled),
        (EditEvent::Failed, EditFailure::Update),
    ] {
        let mut edit = updating;
        edit.step(event);
        assert_eq!(edit.phase, EditPhase::Revert(failure));
        edit.step(EditEvent::Done);
        assert_eq!(edit.phase, EditPhase::Failed(failure));
    }
    assert_eq!(
        edit(true, LockFileUsage::Update, &[EditEvent::Failed]).phase,
        EditPhase::Failed(EditFailure::Step)
    );
}
