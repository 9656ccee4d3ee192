//! The course of an update of a script's resolution.
//!
//! A resolution may be solved, and an environment be installed, by activation scripts that start
//! another update of the same script. So the guard that coordinates updates is never held during
//! such work, and what was solved is published only if nothing changed meanwhile. This module
//! decides what is done next; the caller does it and reports what came of it.
use vstd::prelude::*;

use crate::run_script::ResolutionSource;

verus! {

/// How often an update starts again because the resolution changed under it.
pub const MAX_SCRIPT_UPDATE_ATTEMPTS: u8 = 3;

/// What was asked for.
#[derive(Debug, Clone, Copy, PartialEq, Eq, Structural)]
pub struct UpdateOptions {
    /// Do not install the environment.
    pub no_install: bool,
    /// Do not publish the resolution.
    pub dry_run: bool,
    /// Update part of the resolution only.
    pub selective: bool,
}

/// Why an update ends without success.
#[derive(Debug, Clone, Copy, PartialEq, Eq, Structural)]
pub enum UpdateFailure {
    /// The guard could not be had.
    StateLock,
    /// Part of a resolution was to be updated, and there is no resolution.
    NoCachedResolution,
    /// The resolution changed each time.
    ChangedRepeatedly,
    /// What was to be done failed.
    Step,
}

/// What is to be done next.
#[derive(Debug, Clone, Copy, PartialEq, Eq, Structural)]
pub enum UpdatePhase {
    /// See whether a lock file stands beside the script.
    FindSidecar,
    /// Take the guard to read the resolution.
    AcquireInitial,
    /// Load the resolution that the update starts from.
    LoadBaseline,
    /// Make sure that the script's metadata is what it was.
    ConfirmBaseline,
    /// Note the contents of the lock file beside the script.
    RecordSidecar,
    /// Solve the update.
    Solve,
    /// Make sure that the script's metadata is what it was, and be done.
    ConfirmDryRun,
    /// Take the guard to publish the resolution.
    AcquirePublish,
    /// Make sure that the script's metadata is what it was.
    ConfirmPublish,
    /// See whether a lock file stands beside the script now.
    FindCurrentSidecar,
    /// Load the resolution that counts now.
    LoadCurrent,
    /// See whether the lock file beside the script has the contents that were noted.
    CompareSidecar,
    /// See whether the resolution that counts now is the one that the update started from.
    CompareBaseline,
    /// Write the lock file beside the script.
    WriteSidecar,
    /// Store the resolution too, for when that lock file is gone. It does not matter if this
    /// fails.
    ShadowState,
    /// Store the resolution.
    StoreState,
    /// Install the environment.
    Install,
    /// Take the guard to see whether the resolution still counts.
    AcquireReconcile,
    /// Make sure that the script's metadata is what it was.
    ConfirmInstalled,
    /// See whether a lock file stands beside the script after the installation.
    FindInstalledSidecar,
    /// Load the resolution that counts after the installation.
    LoadInstalled,
    /// See whether that is the resolution that was installed.
    CompareCandidate,
    /// Store the resolution that was installed. It does not matter if this fails.
    RefreshState,
    /// Bring the environment in line with the resolution that counts.
    ReconcilePrefix,
    /// Nothing: the update succeeded.
    Finished,
    /// Nothing: the update failed.
    Failed(UpdateFailure),
}

/// What came of what was done.
#[derive(Debug, Clone, Copy, PartialEq, Eq, Structural)]
pub enum UpdateEvent {
    /// It is done.
    Done,
    /// A lock file stands beside the script, or none does.
    Sidecar(bool),
    /// The guard was taken, or could not be had.
    Guard(bool),
    /// A resolution was loaded, or there is none.
    Loaded(bool),
    /// What was compared is the same, or not.
    Same(bool),
    /// It failed.
    Failed,
}

/// An update on its way.
#[derive(Debug, Clone, Copy, PartialEq, Eq, Structural)]
pub struct ScriptUpdate {
    pub options: UpdateOptions,
    pub phase: UpdatePhase,
    /// How often the update has started.
    pub attempt: u8,
    /// The guard is held. Once this is false, the caller gives the guard back before it goes on.
    pub guard: bool,
    /// A lock file stood beside the script when the update started.
    pub has_sidecar: bool,
    /// There was a resolution to start from.
    pub has_baseline: bool,
    /// A lock file stood beside the script when that was last looked at.
    pub current_sidecar: bool,
}

impl ScriptUpdate {
    /// An update that has not begun.
    pub open spec fn begun(options: UpdateOptions) -> ScriptUpdate {
        ScriptUpdate {
            options,
            phase: UpdatePhase::FindSidecar,
            attempt: 1,
            guard: false,
            has_sidecar: false,
            has_baseline: false,
            current_sidecar: false,
        }
    }

    /// The update has ended.
    pub open spec fn ended(self) -> bool {
        self.phase is Finished || self.phase is Failed
    }

    /// Without the guard the update cannot go on. It needs the guard to publish; to read a
    /// resolution it needs it only where no lock file stands beside the script, and then a dry
    /// run of the whole does not.
    pub open spec fn needs_guard(self) -> bool {
        match self.phase {
            UpdatePhase::AcquireInitial => !self.has_sidecar && (!self.options.dry_run
                || self.options.selective),
            UpdatePhase::AcquirePublish => true,
            UpdatePhase::AcquireReconcile => !self.has_sidecar,
            _ => false,
        }
    }

    /// The event is an answer to what was to be done.
    pub open spec fn awaits(self, event: UpdateEvent) -> bool {
        match self.phase {
            UpdatePhase::Finished | UpdatePhase::Failed(_) => false,
            UpdatePhase::FindSidecar
            | UpdatePhase::FindCurrentSidecar
            | UpdatePhase::FindInstalledSidecar => event is Sidecar || event is Failed,
            UpdatePhase::AcquireInitial
            | UpdatePhase::AcquirePublish
            | UpdatePhase::AcquireReconcile => event is Guard || event is Failed,
            UpdatePhase::LoadBaseline
            | UpdatePhase::LoadCurrent
            | UpdatePhase::LoadInstalled => event is Loaded || event is Failed,
            UpdatePhase::CompareSidecar
            | UpdatePhase::CompareBaseline
            | UpdatePhase::CompareCandidate => event is Same || event is Failed,
            UpdatePhase::ShadowState | UpdatePhase::RefreshState => event is Done,
            _ => event is Done || event is Failed,
        }
    }

    /// The update in another phase, with the guard held as before.
    pub open spec fn at(self, phase: UpdatePhase) -> ScriptUpdate {
        ScriptUpdate { phase, ..self }
    }

    /// The update in another phase, without the guard.
    pub open spec fn released(self, phase: UpdatePhase) -> ScriptUpdate {
        ScriptUpdate { phase, guard: false, ..self }
    }

    /// The update with the guard, or without it where it could not be had and is not needed.
    pub open spec fn guarded(self, held: bool, phase: UpdatePhase) -> ScriptUpdate {
        if self.needs_guard() && !held {
            self.released(UpdatePhase::Failed(UpdateFailure::StateLock))
        } else {
            ScriptUpdate { phase, guard: held, ..self }
        }
    }

    /// The update after the resolution changed under it: from the start again, or, the last
    /// time, in the phase that ends it.
    pub open spec fn overtaken(self, last: UpdatePhase) -> ScriptUpdate {
        if self.attempt >= MAX_SCRIPT_UPDATE_ATTEMPTS {
            self.released(last)
        } else {
            ScriptUpdate {
                attempt: (self.attempt + 1) as u8,
                ..self.released(UpdatePhase::FindSidecar)
            }
        }
    }

    /// Where the update goes once it has its baseline.
    pub open spec fn with_baseline(self) -> ScriptUpdate {
        if !self.has_sidecar && !self.has_baseline && self.options.selective {
            self.released(UpdatePhase::Failed(UpdateFailure::NoCachedResolution))
        } else {
            self.released(UpdatePhase::Solve)
        }
    }

    /// Where the update goes after an event.
    pub open spec fn next(self, event: UpdateEvent) -> ScriptUpdate {
        match (self.phase, event) {
            (_, UpdateEvent::Failed) => self.released(UpdatePhase::Failed(UpdateFailure::Step)),
            (UpdatePhase::FindSidecar, UpdateEvent::Sidecar(found)) => ScriptUpdate {
                has_sidecar: found,
                current_sidecar: found,
                ..self.at(UpdatePhase::AcquireInitial)
            },
            (UpdatePhase::AcquireInitial, UpdateEvent::Guard(held)) => self.guarded(
                held,
                UpdatePhase::LoadBaseline,
            ),
            (UpdatePhase::LoadBaseline, UpdateEvent::Loaded(found)) => ScriptUpdate {
                has_baseline: found,
                ..self.at(UpdatePhase::ConfirmBaseline)
            },
            (UpdatePhase::ConfirmBaseline, UpdateEvent::Done) => if self.has_sidecar {
                self.at(UpdatePhase::RecordSidecar)
            } else {
                self.with_baseline()
            },
            (UpdatePhase::RecordSidecar, UpdateEvent::Done) => self.with_baseline(),
            (UpdatePhase::Solve, UpdateEvent::Done) => if self.options.dry_run {
                self.at(UpdatePhase::ConfirmDryRun)
            } else {
                self.at(UpdatePhase::AcquirePublish)
            },
            (UpdatePhase::ConfirmDryRun, UpdateEvent::Done) => self.at(UpdatePhase::Finished),
            (UpdatePhase::AcquirePublish, UpdateEvent::Guard(held)) => self.guarded(
                held,
                UpdatePhase::ConfirmPublish,
            ),
            (UpdatePhase::ConfirmPublish, UpdateEvent::Done) => self.at(
                UpdatePhase::FindCurrentSidecar,
            ),
            (UpdatePhase::FindCurrentSidecar, UpdateEvent::Sidecar(found)) => ScriptUpdate {
                current_sidecar: found,
                ..self.at(UpdatePhase::LoadCurrent)
            },
            (UpdatePhase::LoadCurrent, UpdateEvent::Loaded(_)) => if self.has_sidecar
                != self.current_sidecar {
                self.overtaken(UpdatePhase::Failed(UpdateFailure::ChangedRepeatedly))
            } else if self.has_sidecar {
                self.at(UpdatePhase::CompareSidecar)
            } else {
                self.at(UpdatePhase::CompareBaseline)
            },
            (UpdatePhase::CompareSidecar, UpdateEvent::Same(same)) => if same {
                self.at(UpdatePhase::CompareBaseline)
            } else {
                self.overtaken(UpdatePhase::Failed(UpdateFailure::ChangedRepeatedly))
            },
            (UpdatePhase::CompareBaseline, UpdateEvent::Same(same)) => if !same {
                self.overtaken(UpdatePhase::Failed(UpdateFailure::ChangedRepeatedly))
            } else if self.has_sidecar {
                self.at(UpdatePhase::WriteSidecar)
            } else {
                self.at(UpdatePhase::StoreState)
            },
            (UpdatePhase::WriteSidecar, UpdateEvent::Done) => if self.options.no_install {
                self.released(UpdatePhase::Finished)
            } else {
                self.at(UpdatePhase::ShadowState)
            },
            (UpdatePhase::StoreState, UpdateEvent::Done) => if self.options.no_install {
                self.released(UpdatePhase::Finished)
            } else {
                self.released(UpdatePhase::Install)
            },
            (UpdatePhase::ShadowState, UpdateEvent::Done) => self.released(UpdatePhase::Install),
            (UpdatePhase::Install, UpdateEvent::Done) => self.at(UpdatePhase::AcquireReconcile),
            (UpdatePhase::AcquireReconcile, UpdateEvent::Guard(held)) => self.guarded(
                held,
                UpdatePhase::ConfirmInstalled,
            ),
            (UpdatePhase::ConfirmInstalled, UpdateEvent::Done) => self.at(
                UpdatePhase::FindInstalledSidecar,
            ),
            (UpdatePhase::FindInstalledSidecar, UpdateEvent::Sidecar(found)) => ScriptUpdate {
                current_sidecar: found,
                ..self.at(UpdatePhase::LoadInstalled)
            },
            (UpdatePhase::LoadInstalled, UpdateEvent::Loaded(_)) => if !self.has_sidecar
                && self.current_sidecar {
                self.overtaken(UpdatePhase::ReconcilePrefix)
            } else {
                self.at(UpdatePhase::CompareCandidate)
            },
            (UpdatePhase::CompareCandidate, UpdateEvent::Same(same)) => if !same {
                self.overtaken(UpdatePhase::ReconcilePrefix)
            } else if self.has_sidecar && self.guard {
                self.at(UpdatePhase::RefreshState)
            } else {
                self.released(UpdatePhase::Finished)
            },
            (UpdatePhase::RefreshState, UpdateEvent::Done) => self.released(UpdatePhase::Finished),
            (UpdatePhase::ReconcilePrefix, UpdateEvent::Done) => self.released(
                UpdatePhase::Failed(UpdateFailure::ChangedRepeatedly),
            ),
            _ => self,
        }
    }

    /// Begins an update.
    pub fn new(options: UpdateOptions) -> (update: ScriptUpdate)
        ensures
            update == Self::begun(options),
    {
        ScriptUpdate {
            options,
            phase: UpdatePhase::FindSidecar,
            attempt: 1,
            guard: false,
            has_sidecar: false,
            has_baseline: false,
            current_sidecar: false,
        }
    }

    /// Whether the update cannot go on without the guard that is to be taken.
    pub fn guard_is_required(&self) -> (required: bool)
        ensures
            required == self.needs_guard(),
    {
        match self.phase {
            UpdatePhase::AcquireInitial => !self.has_sidecar && (!self.options.dry_run
                || self.options.selective),
            UpdatePhase::AcquirePublish => true,
            UpdatePhase::AcquireReconcile => !self.has_sidecar,
            _ => false,
        }
    }

    /// Tells where a resolution is loaded from: from the lock file beside the script if there is
    /// one, and otherwise from the cache, under the guard if it is held.
    pub fn resolution_source(&self) -> (source: ResolutionSource)
        ensures
            source == if self.current_sidecar {
                ResolutionSource::Sidecar
            } else if self.guard {
                ResolutionSource::Guarded
            } else {
                ResolutionSource::Unguarded
            },
    {
        if self.current_sidecar {
            ResolutionSource::Sidecar
        } else if self.guard {
            ResolutionSource::Guarded
        } else {
            ResolutionSource::Unguarded
        }
    }

    /// Goes on to a phase in which the guard is not held.
    fn release_to(&mut self, phase: UpdatePhase)
        ensures
            *final(self) == old(self).released(phase),
    {
        self.guard = false;
        self.phase = phase;
    }

    /// Takes the guard as far as it could be had.
    fn guard_to(&mut self, held: bool, phase: UpdatePhase)
        ensures
            *final(self) == old(self).guarded(held, phase),
    {
        if self.guard_is_required() && !held {
            self.release_to(UpdatePhase::Failed(UpdateFailure::StateLock));
        } else {
            self.guard = held;
            self.phase = phase;
        }
    }

    /// Starts again, or ends.
    fn overtake(&mut self, last: UpdatePhase)
        ensures
            *final(self) == old(self).overtaken(last),
    {
        if self.attempt >= MAX_SCRIPT_UPDATE_ATTEMPTS {
            self.release_to(last);
        } else {
            self.attempt = self.attempt + 1;
            self.release_to(UpdatePhase::FindSidecar);
        }
    }

    /// Goes on to solve, unless there is nothing to update a part of.
    fn use_baseline(&mut self)
        ensures
            *final(self) == old(self).with_baseline(),
    {
        if !self.has_sidecar && !self.has_baseline && self.options.selective {
            self.release_to(UpdatePhase::Failed(UpdateFailure::NoCachedResolution));
        } else {
            self.release_to(UpdatePhase::Solve);
        }
    }

    /// Goes on after an event.
    pub fn step(&mut self, event: UpdateEvent)
        requires
            old(self).awaits(event),
        ensures
            *final(self) == old(self).next(event),
    {
        match (self.phase, event) {
            (_, UpdateEvent::Failed) => {
                self.release_to(UpdatePhase::Failed(UpdateFailure::Step));
            },
            (UpdatePhase::FindSidecar, UpdateEvent::Sidecar(found)) => {
                self.has_sidecar = found;
                self.current_sidecar = found;
                self.phase = UpdatePhase::AcquireInitial;
            },
            (UpdatePhase::AcquireInitial, UpdateEvent::Guard(held)) => {
                self.guard_to(held, UpdatePhase::LoadBaseline);
            },
            (UpdatePhase::LoadBaseline, UpdateEvent::Loaded(found)) => {
                self.has_baseline = found;
                self.phase = UpdatePhase::ConfirmBaseline;
            },
            (UpdatePhase::ConfirmBaseline, UpdateEvent::Done) => {
                if self.has_sidecar {
                    self.phase = UpdatePhase::RecordSidecar;
                } else {
                    self.use_baseline();
                }
            },
            (UpdatePhase::RecordSidecar, UpdateEvent::Done) => {
                self.use_baseline();
            },
            (UpdatePhase::Solve, UpdateEvent::Done) => {
                if self.options.dry_run {
                    self.phase = UpdatePhase::ConfirmDryRun;
                } else {
                    self.phase = UpdatePhase::AcquirePublish;
                }
            },
            (UpdatePhase::ConfirmDryRun, UpdateEvent::Done) => {
                self.phase = UpdatePhase::Finished;
            },
            (UpdatePhase::AcquirePublish, UpdateEvent::Guard(held)) => {
                self.guard_to(held, UpdatePhase::ConfirmPublish);
            },
            (UpdatePhase::ConfirmPublish, UpdateEvent::Done) => {
                self.phase = UpdatePhase::FindCurrentSidecar;
            },
            (UpdatePhase::FindCurrentSidecar, UpdateEvent::Sidecar(found)) => {
                self.current_sidecar = found;
                self.phase = UpdatePhase::LoadCurrent;
            },
            (UpdatePhase::LoadCurrent, UpdateEvent::Loaded(_)) => {
                if self.has_sidecar != self.current_sidecar {
                    self.overtake(UpdatePhase::Failed(UpdateFailure::ChangedRepeatedly));
                } else if self.has_sidecar {
                    self.phase = UpdatePhase::CompareSidecar;
                } else {
                    self.phase = UpdatePhase::CompareBaseline;
                }
            },
            (UpdatePhase::CompareSidecar, UpdateEvent::Same(same)) => {
                if same {
                    self.phase = UpdatePhase::CompareBaseline;
                } else {
                    self.overtake(UpdatePhase::Failed(UpdateFailure::ChangedRepeatedly));
                }
            },
            (UpdatePhase::CompareBaseline, UpdateEvent::Same(same)) => {
                if !same {
                    self.overtake(UpdatePhase::Failed(UpdateFailure::ChangedRepeatedly));
                } else if self.has_sidecar {
                    self.phase = UpdatePhase::WriteSidecar;
                } else {
                    self.phase = UpdatePhase::StoreState;
                }
            },
            (UpdatePhase::WriteSidecar, UpdateEvent::Done) => {
                if self.options.no_install {
                    self.release_to(UpdatePhase::Finished);
                } else {
                    self.phase = UpdatePhase::ShadowState;
                }
            },
            (UpdatePhase::StoreState, UpdateEvent::Done) => {
                if self.options.no_install {
                    self.release_to(UpdatePhase::Finished);
                } else {
                    self.release_to(UpdatePhase::Install);
                }
            },
            (UpdatePhase::ShadowState, UpdateEvent::Done) => {
                self.release_to(UpdatePhase::Install);
            },
            (UpdatePhase::Install, UpdateEvent::Done) => {
                self.phase = UpdatePhase::AcquireReconcile;
            },
            (UpdatePhase::AcquireReconcile, UpdateEvent::Guard(held)) => {
                self.guard_to(held, UpdatePhase::ConfirmInstalled);
            },
            (UpdatePhase::ConfirmInstalled, UpdateEvent::Done) => {
                self.phase = UpdatePhase::FindInstalledSidecar;
            },
            (UpdatePhase::FindInstalledSidecar, UpdateEvent::Sidecar(found)) => {
                self.current_sidecar = found;
                self.phase = UpdatePhase::LoadInstalled;
            },
            (UpdatePhase::LoadInstalled, UpdateEvent::Loaded(_)) => {
                if !self.has_sidecar && self.current_sidecar {
                    self.overtake(UpdatePhase::ReconcilePrefix);
                } else {
                    self.phase = UpdatePhase::CompareCandidate;
                }
            },
            (UpdatePhase::CompareCandidate, UpdateEvent::Same(same)) => {
                if !same {
                    self.overtake(UpdatePhase::ReconcilePrefix);
                } else if self.has_sidecar && self.guard {
                    self.phase = UpdatePhase::RefreshState;
                } else {
                    self.release_to(UpdatePhase::Finished);
                }
            },
            (UpdatePhase::RefreshState, UpdateEvent::Done) => {
                self.release_to(UpdatePhase::Finished);
            },
            (UpdatePhase::ReconcilePrefix, UpdateEvent::Done) => {
                self.release_to(UpdatePhase::Failed(UpdateFailure::ChangedRepeatedly));
            },
            _ => {},
        }
    }
}

/// Where an update is after these events.
pub open spec fn after(options: UpdateOptions, events: Seq<UpdateEvent>) -> ScriptUpdate
    decreases events.len(),
{
    if events.len() == 0 {
        ScriptUpdate::begun(options)
    } else {
        after(options, events.drop_last()).next(events.last())
    }
}

/// Each event is an answer to what was to be done.
pub open spec fn is_course(options: UpdateOptions, events: Seq<UpdateEvent>) -> bool
    decreases events.len(),
{
    events.len() == 0 || (is_course(options, events.drop_last()) && after(
        options,
        events.drop_last(),
    ).awaits(events.last()))
}

/// How far an attempt has come in a phase.
spec fn progress(phase: UpdatePhase) -> int {
    match phase {
        UpdatePhase::FindSidecar => 0,
        UpdatePhase::AcquireInitial => 1,
        UpdatePhase::LoadBaseline => 2,
        UpdatePhase::ConfirmBaseline => 3,
        UpdatePhase::RecordSidecar => 4,
        UpdatePhase::Solve => 5,
        UpdatePhase::ConfirmDryRun => 6,
        UpdatePhase::AcquirePublish => 6,
        UpdatePhase::ConfirmPublish => 7,
        UpdatePhase::FindCurrentSidecar => 8,
        UpdatePhase::LoadCurrent => 9,
        UpdatePhase::CompareSidecar => 10,
        UpdatePhase::CompareBaseline => 11,
        UpdatePhase::WriteSidecar => 12,
        UpdatePhase::StoreState => 12,
        UpdatePhase::ShadowState => 13,
        UpdatePhase::Install => 14,
        UpdatePhase::AcquireReconcile => 15,
        UpdatePhase::ConfirmInstalled => 16,
        UpdatePhase::FindInstalledSidecar => 17,
        UpdatePhase::LoadInstalled => 18,
        UpdatePhase::CompareCandidate => 19,
        UpdatePhase::RefreshState => 20,
        UpdatePhase::ReconcilePrefix => 20,
        UpdatePhase::Finished => 21,
        UpdatePhase::Failed(_) => 21,
    }
}

impl ScriptUpdate {
    /// The update is about to make its resolution the one that counts.
    pub open spec fn publishes(self) -> bool {
        self.phase is WriteSidecar || self.phase is StoreState
    }

    /// The update is about to do what may start another update of the same script.
    pub open spec fn works_outside(self) -> bool {
        self.phase is Solve || self.phase is Install || self.phase is ReconcilePrefix
    }

    /// The update is about to change the installed environment, or what is stored about it.
    pub open spec fn installs(self) -> bool {
        self.phase is Install || self.phase is ReconcilePrefix || self.phase is ShadowState
            || self.phase is RefreshState
    }

    /// What holds throughout an update.
    spec fn is_sound(self, options: UpdateOptions) -> bool {
        let step = progress(self.phase);
        &&& self.options == options
        &&& 1 <= self.attempt <= MAX_SCRIPT_UPDATE_ATTEMPTS
        &&& self.guard ==> step == 2 || step == 3 || step == 4 || 7 <= step <= 13 || 16 <= step
            <= 20
        &&& 7 <= step <= 13 ==> self.guard
        &&& self.phase is ReconcilePrefix ==> !self.guard
        &&& options.dry_run ==> (step <= 6 || step == 21) && !(self.phase is AcquirePublish)
        &&& options.no_install ==> step <= 12 || step == 21
        &&& self.phase is WriteSidecar || self.phase is CompareSidecar ==> self.has_sidecar
            && self.current_sidecar
        &&& self.phase is StoreState ==> !self.has_sidecar && !self.current_sidecar
        &&& self.phase is CompareBaseline ==> self.has_sidecar == self.current_sidecar
    }
}

/// How an update gets into the phases that lead to a publication.
proof fn lemma_step_into(before: ScriptUpdate, event: UpdateEvent)
    requires
        before.awaits(event),
    ensures
        ({
            let update = before.next(event);
            let same = update.has_sidecar == before.has_sidecar && update.current_sidecar
                == before.current_sidecar;
            &&& update.publishes() ==> before.phase is CompareBaseline && event
                == UpdateEvent::Same(true) && same && update.has_sidecar == (
            update.phase is WriteSidecar)
            &&& update.phase is CompareBaseline ==> same && ((before.phase is CompareSidecar
                && event == UpdateEvent::Same(true)) || (before.phase is LoadCurrent
                && event is Loaded && !before.has_sidecar && !before.current_sidecar))
            &&& update.phase is CompareSidecar ==> same && before.phase is LoadCurrent
                && event is Loaded && before.has_sidecar && before.current_sidecar
            &&& update.phase is LoadCurrent ==> before.phase is FindCurrentSidecar && event
                == UpdateEvent::Sidecar(update.current_sidecar)
            &&& update.phase is FindCurrentSidecar ==> before.phase is ConfirmPublish && event
                == UpdateEvent::Done
            &&& update.phase is ConfirmPublish ==> before.phase is AcquirePublish && event
                == UpdateEvent::Guard(true)
            &&& 14 <= progress(update.phase) <= 20 ==> 12 <= progress(before.phase) < 20
            &&& update.phase is ShadowState ==> before.phase is WriteSidecar && event
                == UpdateEvent::Done
            &&& before.publishes() && !(update.phase is Failed) ==> event == UpdateEvent::Done
            &&& update.phase is Finished ==> before.phase is ConfirmDryRun || 12 <= progress(
                before.phase,
            ) <= 20
            &&& before.phase is Solve && update.phase is ConfirmDryRun ==> before.options.dry_run
        }),
{
}

/// What holds throughout an update, and how far it has come.
proof fn lemma_sound(options: UpdateOptions, events: Seq<UpdateEvent>)
    requires
        is_course(options, events),
    ensures
        after(options, events).is_sound(options),
        events.len() <= (after(options, events).attempt - 1) * 21 + progress(
            after(options, events).phase,
        ),
    decreases events.len(),
{
    if events.len() > 0 {
        lemma_sound(options, events.drop_last());
    }
}

/// While an update solves, installs, or brings the environment in line, it does not hold the
/// guard: another update that is started meanwhile can go on.
pub proof fn outside_work_holds_no_guard(options: UpdateOptions, events: Seq<UpdateEvent>)
    requires
        is_course(options, events),
        after(options, events).works_outside() || after(options, events).ended(),
    ensures
        !after(options, events).guard,
{
    lemma_sound(options, events);
}

/// A dry run publishes nothing and installs nothing.
pub proof fn dry_run_changes_nothing(options: UpdateOptions, events: Seq<UpdateEvent>)
    requires
        is_course(options, events),
        options.dry_run,
    ensures
        !after(options, events).publishes(),
        !after(options, events).installs(),
{
    lemma_sound(options, events);
}

/// An update that is not to install changes nothing that is installed.
pub proof fn no_install_installs_nothing(options: UpdateOptions, events: Seq<UpdateEvent>)
    requires
        is_course(options, events),
        options.no_install,
    ensures
        !after(options, events).installs(),
{
    lemma_sound(options, events);
}

/// No update starts more often than it may, so every update ends: no course has more events than
/// this.
pub proof fn updates_end(options: UpdateOptions, events: Seq<UpdateEvent>)
    requires
        is_course(options, events),
    ensures
        1 <= after(options, events).attempt <= MAX_SCRIPT_UPDATE_ATTEMPTS,
        events.len() <= MAX_SCRIPT_UPDATE_ATTEMPTS * 21,
{
    lemma_sound(options, events);
}

/// The last events before a publication, where no lock file stands beside the script: the guard
/// was taken, the metadata was confirmed, there was still no lock file, and the resolution that
/// counts was the one that the update started from.
pub open spec fn confirmed_without_sidecar(events: Seq<UpdateEvent>) -> bool {
    let n = events.len() as int;
    &&& n >= 5
    &&& events[n - 5] == UpdateEvent::Guard(true)
    &&& events[n - 4] == UpdateEvent::Done
    &&& events[n - 3] == UpdateEvent::Sidecar(false)
    &&& events[n - 2] is Loaded
    &&& events[n - 1] == UpdateEvent::Same(true)
}

/// The last events before a publication, where a lock file stands beside the script: the guard
/// was taken, the metadata was confirmed, the lock file was there with the contents that were
/// noted, and the resolution that counts was the one that the update started from.
pub open spec fn confirmed_with_sidecar(events: Seq<UpdateEvent>) -> bool {
    let n = events.len() as int;
    &&& n >= 6
    &&& events[n - 6] == UpdateEvent::Guard(true)
    &&& events[n - 5] == UpdateEvent::Done
    &&& events[n - 4] == UpdateEvent::Sidecar(true)
    &&& events[n - 3] is Loaded
    &&& events[n - 2] == UpdateEvent::Same(true)
    &&& events[n - 1] == UpdateEvent::Same(true)
}

/// What led up to the resolution that counts being loaded.
proof fn lemma_loading(options: UpdateOptions, events: Seq<UpdateEvent>)
    requires
        is_course(options, events),
        after(options, events).phase is LoadCurrent,
    ensures
        events.len() >= 3,
        events[events.len() - 3] == UpdateEvent::Guard(true),
        events[events.len() - 2] == UpdateEvent::Done,
        events[events.len() - 1] == UpdateEvent::Sidecar(after(options, events).current_sidecar),
{
    let e1 = events.drop_last();
    let e2 = e1.drop_last();
    lemma_step_into(after(options, e1), events.last());
    assert(e1.len() > 0 && is_course(options, e1));
    lemma_step_into(after(options, e2), e1.last());
    assert(e2.len() > 0 && is_course(options, e2));
    lemma_step_into(after(options, e2.drop_last()), e2.last());
}

/// What led up to the baseline being compared.
proof fn lemma_compared(options: UpdateOptions, events: Seq<UpdateEvent>)
    requires
        is_course(options, events),
        after(options, events).phase is CompareBaseline,
    ensures
        after(options, events).has_sidecar ==> confirmed_with_sidecar(
            events.push(UpdateEvent::Same(true)),
        ),
        !after(options, events).has_sidecar ==> confirmed_without_sidecar(
            events.push(UpdateEvent::Same(true)),
        ),
{
    let e1 = events.drop_last();
    lemma_step_into(after(options, e1), events.last());
    if after(options, e1).phase is CompareSidecar {
        let e2 = e1.drop_last();
        assert(e1.len() > 0 && is_course(options, e1));
        lemma_step_into(after(options, e2), e1.last());
        lemma_loading(options, e2);
    } else {
        lemma_loading(options, e1);
    }
}

/// An update publishes only while it holds the guard, and only if since it took the guard it saw
/// that neither the script's metadata, nor which resolution counts, nor that resolution changed.
pub proof fn publication_is_coordinated(options: UpdateOptions, events: Seq<UpdateEvent>)
    requires
        is_course(options, events),
        after(options, events).publishes(),
    ensures
        after(options, events).guard,
        after(options, events).phase is StoreState ==> confirmed_without_sidecar(events),
        after(options, events).phase is WriteSidecar ==> confirmed_with_sidecar(events),
{
    lemma_sound(options, events);
    let front = events.drop_last();
    lemma_step_into(after(options, front), events.last());
    lemma_compared(options, front);
    assert(events =~= front.push(UpdateEvent::Same(true)));
}

/// The resolution was published after some of the events.
pub open spec fn has_published(options: UpdateOptions, events: Seq<UpdateEvent>) -> bool {
    exists|n: int|
        0 <= n < events.len() && #[trigger] after(options, events.take(n)).publishes() && events[n]
            == UpdateEvent::Done
}

/// Only a dry run ends before it publishes.
proof fn lemma_only_dry_runs(options: UpdateOptions, events: Seq<UpdateEvent>)
    requires
        is_course(options, events),
        after(options, events).phase is ConfirmDryRun,
    ensures
        options.dry_run,
{
    lemma_sound(options, events.drop_last());
}

/// What was published stays published.
proof fn lemma_published(options: UpdateOptions, events: Seq<UpdateEvent>)
    requires
        is_course(options, events),
        13 <= progress(after(options, events).phase) <= 20 || (after(
            options,
            events,
        ).phase is Finished && !options.dry_run),
    ensures
        has_published(options, events),
    decreases events.len(),
{
    let front = events.drop_last();
    let last = events.len() - 1;
    lemma_sound(options, front);
    lemma_sound(options, events);
    lemma_step_into(after(options, front), events.last());
    assert(events.take(last) =~= front);
    if !after(options, front).publishes() {
        if after(options, front).phase is ConfirmDryRun {
            lemma_only_dry_runs(options, front);
        }
        lemma_published(options, front);
        let n = choose|n: int|
            0 <= n < front.len() && #[trigger] after(options, front.take(n)).publishes()
                && front[n] == UpdateEvent::Done;
        assert(events.take(n) =~= front.take(n));
        assert(events[n] == UpdateEvent::Done);
    } else {
        assert(after(options, events.take(last)).publishes());
        assert(events[last] == UpdateEvent::Done);
    }
}

/// An update that succeeds has published its resolution, unless it was a dry run.
pub proof fn success_publishes(options: UpdateOptions, events: Seq<UpdateEvent>)
    requires
        is_course(options, events),
        after(options, events).phase is Finished,
        !options.dry_run,
    ensures
        has_published(options, events),
{
    lemma_published(options, events);
}

/// An update is about to install only what it has published.
pub proof fn installation_follows_publication(options: UpdateOptions, events: Seq<UpdateEvent>)
    requires
        is_course(options, events),
        after(options, events).phase is Install,
    ensures
        has_published(options, events),
{
    lemma_published(options, events);
}

} // verus!
