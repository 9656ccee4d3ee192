//! The course of an edit to the dependencies of a workspace or a script.
use indexmap::IndexMap;
use vstd::prelude::*;

use crate::ordered::views;

verus! {

/// Declares a map that keeps its entries in order.
#[verifier::external_type_specification]
#[verifier::external_body]
#[verifier::reject_recursive_types(K)]
#[verifier::reject_recursive_types(V)]
#[verifier::reject_recursive_types(S)]
pub struct ExIndexMap<K, V, S>(IndexMap<K, V, S>);

/// The packages of a map, each with its spec, in order.
pub uninterp spec fn package_specs(specs: IndexMap<String, String>) -> Seq<(Seq<char>, Seq<char>)>;

/// `IndexMap::keys` walks over the keys of a map in order.
#[verifier::external_body]
fn package_names(specs: &IndexMap<String, String>) -> (names: Vec<String>)
    ensures
        views(names@) == package_specs(*specs).map_values(
            |entry: (Seq<char>, Seq<char>)| entry.0,
        ),
{
    specs.keys().cloned().collect()
}

/// The user broke an update of dependencies off.
#[derive(Debug, Clone, Copy, PartialEq, Eq, Structural)]
pub struct DependencyUpdateCancelled;

/// A repository that packages are built from.
#[derive(Debug)]
pub struct GitSource {
    pub url: String,
    pub reference: String,
    pub subdirectory: Option<String>,
}

/// The dependencies that are added.
#[derive(Debug)]
pub enum DependencyPlan {
    /// Packages that match a spec.
    Matches(IndexMap<String, String>),
    /// Packages that are built, all from one repository.
    Sources { names: Vec<String>, git: GitSource },
}

/// Packages cannot be built from source without the preview of that.
#[derive(Debug, Clone, Copy, PartialEq, Eq, Structural)]
pub struct SourceNotAllowed;

/// Tells which dependencies are added. Where a repository is named, all packages are built from
/// it, and their specs do not count.
pub fn plan_dependencies(
    specs: IndexMap<String, String>,
    git: Option<GitSource>,
    build_enabled: bool,
) -> (result: Result<DependencyPlan, SourceNotAllowed>)
    ensures
        match git {
            None => result == Ok::<_, SourceNotAllowed>(DependencyPlan::Matches(specs)),
            Some(git) => if build_enabled {
                result matches Ok(DependencyPlan::Sources { names, git: source }) && source == git
                    && views(names@) == package_specs(specs).map_values(
                    |entry: (Seq<char>, Seq<char>)| entry.0,
                )
            } else {
                result is Err
            },
        },
{
    match git {
        None => Ok(DependencyPlan::Matches(specs)),
        Some(git) => if build_enabled {
            Ok(DependencyPlan::Sources { names: package_names(&specs), git })
        } else {
            Err(SourceNotAllowed)
        },
    }
}

/// What may be done about a lock file.
#[derive(Debug, Clone, Copy, PartialEq, Eq, Structural)]
pub enum LockFileUsage {
    /// It is updated.
    Update,
    /// It must be up to date.
    Locked,
    /// It is used as it is.
    Frozen,
    /// It is not written.
    DryRun,
}

impl LockFileUsage {
    /// Whether a lock file that cannot be read is an error, and not as good as an empty one.
    pub fn is_strict(&self) -> (strict: bool)
        ensures
            strict == (*self == LockFileUsage::Locked || *self == LockFileUsage::Frozen),
    {
        *self == LockFileUsage::Locked || *self == LockFileUsage::Frozen
    }
}

/// How an edit ended.
#[derive(Debug, Clone, Copy, PartialEq, Eq, Structural)]
pub enum EditFailure {
    /// The user broke it off.
    Cancelled,
    /// The dependencies could not be updated.
    Update,
    /// Something else failed.
    Step,
}

/// What is to be done next.
#[derive(Debug, Clone, Copy, PartialEq, Eq, Structural)]
pub enum EditPhase {
    /// See whether the workspace can be used.
    Check,
    /// Add the platforms that were named.
    AddPlatforms,
    /// Update the dependencies. For a script, listen for the user breaking it off.
    Update,
    /// Bring everything back to what it was, and then report this.
    Revert(EditFailure),
    /// Save the edit.
    Save,
    /// Save the edit, and clear the cached resolution.
    SaveAndClear,
    /// Nothing: the edit is made.
    Finished,
    /// Nothing: there is no edit.
    Failed(EditFailure),
}

/// What came of what was done.
#[derive(Debug, Clone, Copy, PartialEq, Eq, Structural)]
pub enum EditEvent {
    /// It is done.
    Done,
    /// The user broke it off.
    Cancelled,
    /// It failed.
    Failed,
}

/// An edit on its way.
#[derive(Debug, Clone, Copy, PartialEq, Eq, Structural)]
pub struct DependencyEdit {
    pub is_script: bool,
    pub lock_file_usage: LockFileUsage,
    pub phase: EditPhase,
}

impl DependencyEdit {
    /// An edit that has not begun.
    pub open spec fn begun(is_script: bool, lock_file_usage: LockFileUsage) -> DependencyEdit {
        DependencyEdit { is_script, lock_file_usage, phase: EditPhase::Check }
    }

    /// The user can break the update of a script's dependencies off.
    pub open spec fn can_be_cancelled(self) -> bool {
        self.is_script && self.phase == EditPhase::Update
    }

    /// The event is an answer to what was to be done.
    pub open spec fn awaits(self, event: EditEvent) -> bool {
        &&& !(self.phase is Finished) && !(self.phase is Failed)
        &&& event is Cancelled ==> self.can_be_cancelled()
    }

    /// In another phase.
    pub open spec fn at(self, phase: EditPhase) -> DependencyEdit {
        DependencyEdit { phase, ..self }
    }

    /// Where the edit goes after an event.
    pub open spec fn next(self, event: EditEvent) -> DependencyEdit {
        match (self.phase, event) {
            (EditPhase::Check, EditEvent::Done) => self.at(EditPhase::AddPlatforms),
            (EditPhase::AddPlatforms, EditEvent::Done) => self.at(EditPhase::Update),
            (EditPhase::Update, EditEvent::Done) => if self.is_script && self.lock_file_usage
                == LockFileUsage::DryRun {
                self.at(EditPhase::SaveAndClear)
            } else {
                self.at(EditPhase::Save)
            },
            (EditPhase::Update, EditEvent::Cancelled) => self.at(
                EditPhase::Revert(EditFailure::Cancelled),
            ),
            (EditPhase::Update, EditEvent::Failed) => self.at(
                EditPhase::Revert(EditFailure::Update),
            ),
            (EditPhase::Revert(failure), EditEvent::Done) => self.at(EditPhase::Failed(failure)),
            (EditPhase::Save, EditEvent::Done) => self.at(EditPhase::Finished),
            (EditPhase::SaveAndClear, EditEvent::Done) => self.at(EditPhase::Finished),
            (EditPhase::Finished, _) => self,
            (EditPhase::Failed(_), _) => self,
            _ => self.at(EditPhase::Failed(EditFailure::Step)),
        }
    }

    /// Begins an edit.
    pub fn new(is_script: bool, lock_file_usage: LockFileUsage) -> (edit: DependencyEdit)
        ensures
            edit == Self::begun(is_script, lock_file_usage),
    {
        DependencyEdit { is_script, lock_file_usage, phase: EditPhase::Check }
    }

    /// Whether to listen for the user breaking the edit off.
    pub fn listens(&self) -> (listens: bool)
        ensures
            listens == self.can_be_cancelled(),
    {
        self.is_script && self.phase == EditPhase::Update
    }

    /// Goes on after an event.
    pub fn step(&mut self, event: EditEvent)
        requires
            old(self).awaits(event),
        ensures
            *final(self) == old(self).next(event),
    {
        match (self.phase, event) {
            (EditPhase::Check, EditEvent::Done) => {
                self.phase = EditPhase::AddPlatforms;
            },
            (EditPhase::AddPlatforms, EditEvent::Done) => {
                self.phase = EditPhase::Update;
            },
            (EditPhase::Update, EditEvent::Done) => {
                if self.is_script && self.lock_file_usage == LockFileUsage::DryRun {
                    self.phase = EditPhase::SaveAndClear;
                } else {
                    self.phase = EditPhase::Save;
                }
            },
            (EditPhase::Update, EditEvent::Cancelled) => {
                self.phase = EditPhase::Revert(EditFailure::Cancelled);
            },
            (EditPhase::Update, EditEvent::Failed) => {
                self.phase = EditPhase::Revert(EditFailure::Update);
            },
            (EditPhase::Revert(failure), EditEvent::Done) => {
                self.phase = EditPhase::Failed(failure);
            },
            (EditPhase::Save, EditEvent::Done) => {
                self.phase = EditPhase::Finished;
            },
            (EditPhase::SaveAndClear, EditEvent::Done) => {
                self.phase = EditPhase::Finished;
            },
            _ => {
                self.phase = EditPhase::Failed(EditFailure::Step);
            },
        }
    }
}

/// Where an edit is after these events.
pub open spec fn after(
    is_script: bool,
    lock_file_usage: LockFileUsage,
    events: Seq<EditEvent>,
) -> DependencyEdit
    decreases events.len(),
{
    if events.len() == 0 {
        DependencyEdit::begun(is_script, lock_file_usage)
    } else {
        after(is_script, lock_file_usage, events.drop_last()).next(events.last())
    }
}

/// Each event is an answer to what was to be done.
pub open spec fn is_course(
    is_script: bool,
    lock_file_usage: LockFileUsage,
    events: Seq<EditEvent>,
) -> bool
    decreases events.len(),
{
    events.len() == 0 || (is_course(is_script, lock_file_usage, events.drop_last()) && after(
        is_script,
        lock_file_usage,
        events.drop_last(),
    ).awaits(events.last()))
}

/// What was asked for stays what was asked for.
proof fn lemma_options(
    is_script: bool,
    lock_file_usage: LockFileUsage,
    events: Seq<EditEvent>,
)
    ensures
        after(is_script, lock_file_usage, events).is_script == is_script,
        after(is_script, lock_file_usage, events).lock_file_usage == lock_file_usage,
    decreases events.len(),
{
    if events.len() > 0 {
        lemma_options(is_script, lock_file_usage, events.drop_last());
    }
}

/// An edit is saved only after the dependencies were updated, and the cached resolution is cleared
/// with it exactly where a script's lock file is not written.
pub proof fn saving_follows_updating(
    is_script: bool,
    lock_file_usage: LockFileUsage,
    events: Seq<EditEvent>,
)
    requires
        is_course(is_script, lock_file_usage, events),
        after(is_script, lock_file_usage, events).phase is Save || after(
            is_script,
            lock_file_usage,
            events,
        ).phase is SaveAndClear,
    ensures
        events.last() == EditEvent::Done,
        after(is_script, lock_file_usage, events.drop_last()).phase is Update,
        after(is_script, lock_file_usage, events).phase is SaveAndClear <==> is_script
            && lock_file_usage == LockFileUsage::DryRun,
{
    lemma_options(is_script, lock_file_usage, events.drop_last());
}

/// An update that failed or was broken off is reported only once everything is back to what it
/// was.
pub proof fn failure_follows_reverting(
    is_script: bool,
    lock_file_usage: LockFileUsage,
    events: Seq<EditEvent>,
    failure: EditFailure,
)
    requires
        is_course(is_script, lock_file_usage, events),
        failure != EditFailure::Step,
        after(is_script, lock_file_usage, events).phase == EditPhase::Failed(failure),
    ensures
        events.last() == EditEvent::Done,
        after(is_script, lock_file_usage, events.drop_last()).phase == EditPhase::Revert(failure),
{
}

/// Only an edit to a script can be broken off.
pub proof fn only_script_edits_are_cancelled(
    is_script: bool,
    lock_file_usage: LockFileUsage,
    events: Seq<EditEvent>,
)
    requires
        is_course(is_script, lock_file_usage, events),
        after(is_script, lock_file_usage, events).phase == EditPhase::Revert(
            EditFailure::Cancelled,
        ),
    ensures
        is_script,
{
    lemma_options(is_script, lock_file_usage, events.drop_last());
}

/// An edit to a script whose lock file is not written.
pub open spec fn leaves_stale_resolution(is_script: bool, lock_file_usage: LockFileUsage) -> bool {
    is_script && lock_file_usage == LockFileUsage::DryRun
}

/// The first of the events, this many, all say that it is done.
pub open spec fn are_done(events: Seq<EditEvent>, count: int) -> bool {
    count <= events.len() && forall|i: int|
        0 <= i < count ==> #[trigger] events[i] == EditEvent::Done
}

/// What was answered tells where an edit is. The workspace is checked, then platforms are added,
/// then dependencies are updated, then the edit is saved, and then it is made. An update that
/// failed or was broken off is reverted before that is reported. Any other failure is reported at
/// once.
pub proof fn edits_take_one_step_after_another(
    is_script: bool,
    lock_file_usage: LockFileUsage,
    events: Seq<EditEvent>,
)
    requires
        is_course(is_script, lock_file_usage, events),
    ensures
        ({
            let phase = after(is_script, lock_file_usage, events).phase;
            let clears = leaves_stale_resolution(is_script, lock_file_usage);
            let n = events.len();
            &&& n <= 4
            &&& phase is Check <==> n == 0
            &&& phase is AddPlatforms <==> n == 1 && are_done(events, 1)
            &&& phase is Update <==> n == 2 && are_done(events, 2)
            &&& phase is Save <==> n == 3 && are_done(events, 3) && !clears
            &&& phase is SaveAndClear <==> n == 3 && are_done(events, 3) && clears
            &&& phase is Finished <==> n == 4 && are_done(events, 4)
            &&& phase == EditPhase::Revert(EditFailure::Cancelled) <==> n == 3 && are_done(
                events,
                2,
            ) && events[2] == EditEvent::Cancelled
            &&& phase == EditPhase::Revert(EditFailure::Update) <==> n == 3 && are_done(events, 2)
                && events[2] == EditEvent::Failed
            &&& phase != EditPhase::Revert(EditFailure::Step)
            &&& phase == EditPhase::Failed(EditFailure::Cancelled) <==> n == 4 && are_done(
                events,
                2,
            ) && events[2] == EditEvent::Cancelled && events[3] == EditEvent::Done
            &&& phase == EditPhase::Failed(EditFailure::Update) <==> n == 4 && are_done(events, 2)
                && events[2] == EditEvent::Failed && events[3] == EditEvent::Done
            &&& phase == EditPhase::Failed(EditFailure::Step) <==> n > 0 && n != 3 && events.last()
                == EditEvent::Failed
            &&& events.contains(EditEvent::Cancelled) ==> is_script
        }),
    decreases events.len(),
{
    lemma_options(is_script, lock_file_usage, events);
    if events.len() > 0 {
        let front = events.drop_last();
        let last = events.last();
        assert(is_course(is_script, lock_file_usage, front) && after(
            is_script,
            lock_file_usage,
            front,
        ).awaits(last));
        edits_take_one_step_after_another(is_script, lock_file_usage, front);
        lemma_options(is_script, lock_file_usage, front);
        assert forall|count: int| #![auto] 0 <= count <= front.len() implies are_done(events, count)
            == are_done(front, count) by {
            assert(forall|i: int| 0 <= i < count ==> events[i] == front[i]);
            if are_done(events, count) {
                assert forall|i: int| 0 <= i < count implies #[trigger] front[i]
                    == EditEvent::Done by {
                    assert(events[i] == EditEvent::Done);
                }
            }
        }
        assert(events[events.len() - 1] == last);
        assert(are_done(events, events.len() as int) == (are_done(events, front.len() as int)
            && last == EditEvent::Done)) by {
            if are_done(events, front.len() as int) && last == EditEvent::Done {
                assert forall|i: int| 0 <= i < events.len() implies #[trigger] events[i]
                    == EditEvent::Done by {
                    if i == events.len() - 1 {
                        assert(events[i] == last);
                    }
                }
            }
            if are_done(events, events.len() as int) {
                assert(events[events.len() - 1] == EditEvent::Done);
            }
        }
        if events.contains(EditEvent::Cancelled) {
            let i = choose|i: int| 0 <= i < events.len() && events[i] == EditEvent::Cancelled;
            if i < front.len() {
                assert(front[i] == EditEvent::Cancelled);
                assert(front.contains(EditEvent::Cancelled));
            }
        }
        if front.len() == 3 {
            assert(events[2] == front[2]);
            assert(events[3] == last);
        }
    }
}

/// An edit that is made was saved, as the last thing, and the cached resolution was cleared with
/// it exactly where a script's lock file is not written.
pub proof fn finished_edits_are_saved(
    is_script: bool,
    lock_file_usage: LockFileUsage,
    events: Seq<EditEvent>,
)
    requires
        is_course(is_script, lock_file_usage, events),
        after(is_script, lock_file_usage, events).phase is Finished,
    ensures
        events.len() > 0,
        events.last() == EditEvent::Done,
        ({
            let before = after(is_script, lock_file_usage, events.drop_last()).phase;
            before == if leaves_stale_resolution(is_script, lock_file_usage) {
                EditPhase::SaveAndClear
            } else {
                EditPhase::Save
            }
        }),
{
    edits_take_one_step_after_another(is_script, lock_file_usage, events);
    let front = events.drop_last();
    assert(events[3] == EditEvent::Done);
    assert(are_done(front, 3)) by {
        assert forall|i: int| 0 <= i < 3 implies #[trigger] front[i] == EditEvent::Done by {
            assert(events[i] == EditEvent::Done);
        }
    }
    assert(is_course(is_script, lock_file_usage, front));
    edits_take_one_step_after_another(is_script, lock_file_usage, front);
}

} // verus!
