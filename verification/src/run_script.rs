//! The course of getting a script's environment ready to run.
//!
//! As in an update, what may start another run of the same script is done without the guard, and
//! what was solved is published only if nothing changed meanwhile. Other than an update, a run
//! goes on where the guard cannot be had. This module decides what is done next; the caller does
//! it and reports what came of it.
use vstd::prelude::*;

use crate::satisfiability::SatisfiabilityMode;

verus! {

/// How often a run starts again because the resolution changed under it.
pub const MAX_SCRIPT_RUN_ATTEMPTS: u8 = 3;

/// What was asked for.
#[derive(Debug, Clone, Copy, PartialEq, Eq, Structural)]
pub struct RunOptions {
    /// Do not install the environment.
    pub no_install: bool,
    /// Do not publish or install anything.
    pub dry_run: bool,
    /// The platform was named.
    pub platform_given: bool,
}

/// How an environment can be run on this machine.
#[derive(Debug, Clone, Copy, PartialEq, Eq, Structural)]
pub enum Runnability {
    /// As it was meant to.
    Supported,
    /// It installs nothing that the machine could lack.
    NoDependencies,
    /// It happens to run.
    ByAccident,
    /// Not at all.
    Unsupported,
}

/// Why a run ends without an environment.
#[derive(Debug, Clone, Copy, PartialEq, Eq, Structural)]
pub enum RunFailure {
    /// The machine cannot run the environment.
    Unsupported,
    /// The resolution changed each time.
    Conflict,
    /// What was to be done failed.
    Step,
}

/// What is to be done next.
#[derive(Debug, Clone, Copy, PartialEq, Eq, Structural)]
pub enum RunPhase {
    /// See whether a lock file stands beside the script.
    FindSidecar,
    /// See how that lock file may be used.
    ChooseUsage,
    /// Take the guard to read the resolution.
    AcquireInitial,
    /// Make sure that the script's metadata is what it was.
    ConfirmBaseline,
    /// Note the contents of the lock file beside the script.
    RecordSidecar,
    /// Load the resolution that the run starts from.
    LoadBaseline,
    /// Solve, from that resolution.
    Solve(SatisfiabilityMode),
    /// See whether the installed environment is that of the resolution.
    CheckPrefix,
    /// Make sure that the script's metadata is what it was, and be done.
    ConfirmDryRun,
    /// Take the guard to publish the resolution.
    AcquirePublish,
    /// Make sure that the script's metadata is what it was.
    ConfirmPublish,
    /// See whether a lock file stands beside the script now.
    FindCurrentSidecar,
    /// Load the resolution that counts now.
    LoadCurrent,
    /// See whether the lock file beside the script has the contents that were noted.
    CompareSidecar,
    /// See whether the resolution that counts now is the one that the run started from.
    CompareBaseline,
    /// Write the lock file beside the script.
    WriteSidecar,
    /// Store the resolution. It does not matter if this fails.
    StoreState,
    /// See whether the machine can run the environment.
    Classify,
    /// Install the environment.
    Install,
    /// Take the guard to see whether the resolution still counts.
    AcquireReconcile,
    /// Make sure that the script's metadata is what it was.
    ConfirmInstalled,
    /// See whether a lock file stands beside the script after the installation.
    FindInstalledSidecar,
    /// Load the resolution that counts after the installation.
    LoadInstalled,
    /// See whether that is the resolution that was installed.
    CompareCandidate,
    /// Store the resolution that was installed. It does not matter if this fails.
    RefreshState,
    /// Bring the environment in line with the resolution that counts.
    ReconcilePrefix,
    /// Nothing: the environment is ready.
    Finished,
    /// Nothing: it cannot be made ready.
    Failed(RunFailure),
}

/// What came of what was done.
#[derive(Debug, Clone, Copy, PartialEq, Eq, Structural)]
pub enum RunEvent {
    /// It is done.
    Done,
    /// A lock file stands beside the script, or none does.
    Sidecar(bool),
    /// The guard was taken, or could not be had.
    Guard(bool),
    /// The resolution is another than the one it was solved from, or the same.
    Solved(bool),
    /// What was compared is the same, or not.
    Same(bool),
    /// This is how the machine can run the environment.
    Classified(Runnability),
    /// It failed.
    Failed,
}

/// Where a resolution is loaded from.
#[derive(Debug, Clone, Copy, PartialEq, Eq, Structural)]
pub enum ResolutionSource {
    /// The lock file beside the script. It must be one.
    StrictSidecar,
    /// The lock file beside the script, or an empty one where it is none.
    Sidecar,
    /// The cached resolution, under the guard.
    Guarded,
    /// The cached resolution, without the guard.
    Unguarded,
    /// Nowhere.
    Nowhere,
}

/// A run on its way.
#[derive(Debug, Clone, Copy, PartialEq, Eq, Structural)]
pub struct ScriptRun {
    pub options: RunOptions,
    pub phase: RunPhase,
    /// How often the run has started.
    pub attempt: u8,
    /// The guard is held. Once this is false, the caller gives the guard back before it goes on.
    pub guard: bool,
    /// A lock file stood beside the script when the run started.
    pub has_sidecar: bool,
    /// A lock file stood beside the script when that was last looked at.
    pub current_sidecar: bool,
    /// The lock file beside the script, or that there is none, is as it was when the run started.
    pub sidecar_same: bool,
    /// The resolution is another than the one it was solved from.
    pub updated: bool,
}

impl ScriptRun {
    /// A run that has not begun.
    pub open spec fn begun(options: RunOptions) -> ScriptRun {
        ScriptRun {
            options,
            phase: RunPhase::FindSidecar,
            attempt: 1,
            guard: false,
            has_sidecar: false,
            current_sidecar: false,
            sidecar_same: false,
            updated: false,
        }
    }

    /// The run has ended.
    pub open spec fn ended(self) -> bool {
        self.phase is Finished || self.phase is Failed
    }

    /// The event is an answer to what was to be done.
    pub open spec fn awaits(self, event: RunEvent) -> bool {
        match self.phase {
            RunPhase::Finished | RunPhase::Failed(_) => false,
            RunPhase::FindSidecar
            | RunPhase::FindCurrentSidecar
            | RunPhase::FindInstalledSidecar => event is Sidecar || event is Failed,
            RunPhase::AcquireInitial
            | RunPhase::AcquirePublish
            | RunPhase::AcquireReconcile => event is Guard,
            RunPhase::Solve(_) => event is Solved || event is Failed,
            RunPhase::CheckPrefix
            | RunPhase::CompareSidecar
            | RunPhase::CompareBaseline
            | RunPhase::CompareCandidate => event is Same || event is Failed,
            RunPhase::Classify => event is Classified || event is Failed,
            RunPhase::StoreState | RunPhase::RefreshState => event is Done,
            _ => event is Done || event is Failed,
        }
    }

    /// The run in another phase, with the guard held as before.
    pub open spec fn at(self, phase: RunPhase) -> ScriptRun {
        ScriptRun { phase, ..self }
    }

    /// The run in another phase, without the guard.
    pub open spec fn released(self, phase: RunPhase) -> ScriptRun {
        ScriptRun { phase, guard: false, ..self }
    }

    /// The run in another phase, with the guard if it could be had.
    pub open spec fn guarded(self, held: bool, phase: RunPhase) -> ScriptRun {
        ScriptRun { phase, guard: held, ..self }
    }

    /// The run after the resolution changed under it: from the start again, or, the last time,
    /// in the phase that ends it.
    pub open spec fn overtaken(self, last: RunPhase) -> ScriptRun {
        if self.attempt >= MAX_SCRIPT_RUN_ATTEMPTS {
            self.released(last)
        } else {
            ScriptRun {
                attempt: (self.attempt + 1) as u8,
                ..self.released(RunPhase::FindSidecar)
            }
        }
    }

    /// How closely the resolution that is started from must fit. A lock file beside the script
    /// must fit exactly; a cached resolution need only be sufficient.
    pub open spec fn first_mode(self) -> SatisfiabilityMode {
        if self.has_sidecar {
            SatisfiabilityMode::Exact
        } else {
            SatisfiabilityMode::Sufficient
        }
    }

    /// Where the run goes once it has a resolution.
    pub open spec fn solved(self) -> ScriptRun {
        if self.options.dry_run {
            self.at(RunPhase::ConfirmDryRun)
        } else {
            self.at(RunPhase::AcquirePublish)
        }
    }

    /// Where the run goes once its resolution is published.
    pub open spec fn published(self) -> ScriptRun {
        if self.options.no_install {
            self.released(RunPhase::Finished)
        } else if self.options.platform_given {
            self.released(RunPhase::Install)
        } else {
            self.released(RunPhase::Classify)
        }
    }

    /// Where the run goes once the lock file beside the script is as it should be. The resolution
    /// is stored only where it will be installed, and under the guard.
    pub open spec fn stored(self) -> ScriptRun {
        if !self.options.no_install && self.guard {
            self.at(RunPhase::StoreState)
        } else {
            self.published()
        }
    }

    /// Where the run goes after an event.
    pub open spec fn next(self, event: RunEvent) -> ScriptRun {
        match (self.phase, event) {
            (_, RunEvent::Failed) => self.released(RunPhase::Failed(RunFailure::Step)),
            (RunPhase::FindSidecar, RunEvent::Sidecar(found)) => ScriptRun {
                has_sidecar: found,
                current_sidecar: found,
                sidecar_same: false,
                updated: false,
                ..self.at(RunPhase::ChooseUsage)
            },
            (RunPhase::ChooseUsage, RunEvent::Done) => self.at(RunPhase::AcquireInitial),
            (RunPhase::AcquireInitial, RunEvent::Guard(held)) => self.guarded(
                held,
                RunPhase::ConfirmBaseline,
            ),
            (RunPhase::ConfirmBaseline, RunEvent::Done) => if self.has_sidecar {
                self.at(RunPhase::RecordSidecar)
            } else {
                self.at(RunPhase::LoadBaseline)
            },
            (RunPhase::RecordSidecar, RunEvent::Done) => self.at(RunPhase::LoadBaseline),
            (RunPhase::LoadBaseline, RunEvent::Done) => self.released(
                RunPhase::Solve(self.first_mode()),
            ),
            (RunPhase::Solve(mode), RunEvent::Solved(updated)) => {
                let solved = ScriptRun { updated, ..self };
                if mode == SatisfiabilityMode::Sufficient && !updated && !self.options.dry_run
                    && !self.options.no_install {
                    solved.at(RunPhase::CheckPrefix)
                } else {
                    solved.solved()
                }
            },
            (RunPhase::CheckPrefix, RunEvent::Same(same)) => if same {
                self.solved()
            } else {
                self.at(RunPhase::Solve(SatisfiabilityMode::Exact))
            },
            (RunPhase::ConfirmDryRun, RunEvent::Done) => self.at(RunPhase::Finished),
            (RunPhase::AcquirePublish, RunEvent::Guard(held)) => self.guarded(
                held,
                RunPhase::ConfirmPublish,
            ),
            (RunPhase::ConfirmPublish, RunEvent::Done) => self.at(RunPhase::FindCurrentSidecar),
            (RunPhase::FindCurrentSidecar, RunEvent::Sidecar(found)) => ScriptRun {
                current_sidecar: found,
                ..self.at(RunPhase::LoadCurrent)
            },
            (RunPhase::LoadCurrent, RunEvent::Done) => if self.has_sidecar
                && self.current_sidecar {
                self.at(RunPhase::CompareSidecar)
            } else {
                ScriptRun {
                    sidecar_same: !self.has_sidecar && !self.current_sidecar,
                    ..self.at(RunPhase::CompareBaseline)
                }
            },
            (RunPhase::CompareSidecar, RunEvent::Same(same)) => ScriptRun {
                sidecar_same: same,
                ..self.at(RunPhase::CompareBaseline)
            },
            (RunPhase::CompareBaseline, RunEvent::Same(same)) => if !self.sidecar_same || (
            self.guard && !same) {
                self.overtaken(RunPhase::Failed(RunFailure::Conflict))
            } else if self.has_sidecar && self.updated {
                self.at(RunPhase::WriteSidecar)
            } else {
                self.stored()
            },
            (RunPhase::WriteSidecar, RunEvent::Done) => self.stored(),
            (RunPhase::StoreState, RunEvent::Done) => self.published(),
            (RunPhase::Classify, RunEvent::Classified(runnability)) => match runnability {
                Runnability::Unsupported => self.at(RunPhase::Failed(RunFailure::Unsupported)),
                Runnability::NoDependencies => self.at(RunPhase::AcquireReconcile),
                _ => self.at(RunPhase::Install),
            },
            (RunPhase::Install, RunEvent::Done) => self.at(RunPhase::AcquireReconcile),
            (RunPhase::AcquireReconcile, RunEvent::Guard(held)) => self.guarded(
                held,
                RunPhase::ConfirmInstalled,
            ),
            (RunPhase::ConfirmInstalled, RunEvent::Done) => self.at(
                RunPhase::FindInstalledSidecar,
            ),
            (RunPhase::FindInstalledSidecar, RunEvent::Sidecar(found)) => ScriptRun {
                current_sidecar: found,
                ..self.at(RunPhase::LoadInstalled)
            },
            (RunPhase::LoadInstalled, RunEvent::Done) => if !self.has_sidecar
                && self.current_sidecar {
                self.overtaken(RunPhase::ReconcilePrefix)
            } else {
                self.at(RunPhase::CompareCandidate)
            },
            (RunPhase::CompareCandidate, RunEvent::Same(same)) => if !same && (self.has_sidecar
                || self.guard) {
                self.overtaken(RunPhase::ReconcilePrefix)
            } else if self.has_sidecar && self.guard {
                self.at(RunPhase::RefreshState)
            } else {
                self.released(RunPhase::Finished)
            },
            (RunPhase::RefreshState, RunEvent::Done) => self.released(RunPhase::Finished),
            (RunPhase::ReconcilePrefix, RunEvent::Done) => self.released(
                RunPhase::Failed(RunFailure::Conflict),
            ),
            _ => self,
        }
    }

    /// Begins a run.
    pub fn new(options: RunOptions) -> (run: ScriptRun)
        ensures
            run == Self::begun(options),
    {
        ScriptRun {
            options,
            phase: RunPhase::FindSidecar,
            attempt: 1,
            guard: false,
            has_sidecar: false,
            current_sidecar: false,
            sidecar_same: false,
            updated: false,
        }
    }

    /// Tells where a resolution is loaded from. Only a dry run reads the cached resolution
    /// without the guard, and only to start from.
    pub fn resolution_source(&self, strict: bool) -> (source: ResolutionSource)
        ensures
            source == if self.current_sidecar {
                if strict {
                    ResolutionSource::StrictSidecar
                } else {
                    ResolutionSource::Sidecar
                }
            } else if self.guard {
                ResolutionSource::Guarded
            } else if self.options.dry_run && self.phase == RunPhase::LoadBaseline {
                ResolutionSource::Unguarded
            } else {
                ResolutionSource::Nowhere
            },
    {
        if self.current_sidecar {
            if strict {
                ResolutionSource::StrictSidecar
            } else {
                ResolutionSource::Sidecar
            }
        } else if self.guard {
            ResolutionSource::Guarded
        } else if self.options.dry_run && self.phase == RunPhase::LoadBaseline {
            ResolutionSource::Unguarded
        } else {
            ResolutionSource::Nowhere
        }
    }

    /// Goes on to a phase in which the guard is not held.
    fn release_to(&mut self, phase: RunPhase)
        ensures
            *final(self) == old(self).released(phase),
    {
        self.guard = false;
        self.phase = phase;
    }

    /// Starts again, or ends.
    fn overtake(&mut self, last: RunPhase)
        ensures
            *final(self) == old(self).overtaken(last),
    {
        if self.attempt >= MAX_SCRIPT_RUN_ATTEMPTS {
            self.release_to(last);
        } else {
            self.attempt = self.attempt + 1;
            self.release_to(RunPhase::FindSidecar);
        }
    }

    /// Goes on with a resolution.
    fn use_solution(&mut self)
        ensures
            *final(self) == old(self).solved(),
    {
        if self.options.dry_run {
            self.phase = RunPhase::ConfirmDryRun;
        } else {
            self.phase = RunPhase::AcquirePublish;
        }
    }

    /// Goes on with a published resolution.
    fn use_published(&mut self)
        ensures
            *final(self) == old(self).published(),
    {
        if self.options.no_install {
            self.release_to(RunPhase::Finished);
        } else if self.options.platform_given {
            self.release_to(RunPhase::Install);
        } else {
            self.release_to(RunPhase::Classify);
        }
    }

    /// Goes on to store the resolution where that is to be.
    fn store(&mut self)
        ensures
            *final(self) == old(self).stored(),
    {
        if !self.options.no_install && self.guard {
            self.phase = RunPhase::StoreState;
        } else {
            self.use_published();
        }
    }

    /// Goes on after an event.
    pub fn step(&mut self, event: RunEvent)
        requires
            old(self).awaits(event),
        ensures
            *final(self) == old(self).next(event),
    {
        match (self.phase, event) {
            (_, RunEvent::Failed) => {
                self.release_to(RunPhase::Failed(RunFailure::Step));
            },
            (RunPhase::FindSidecar, RunEvent::Sidecar(found)) => {
                self.has_sidecar = found;
                self.current_sidecar = found;
                self.sidecar_same = false;
                self.updated = false;
                self.phase = RunPhase::ChooseUsage;
            },
            (RunPhase::ChooseUsage, RunEvent::Done) => {
                self.phase = RunPhase::AcquireInitial;
            },
            (RunPhase::AcquireInitial, RunEvent::Guard(held)) => {
                self.guard = held;
                self.phase = RunPhase::ConfirmBaseline;
            },
            (RunPhase::ConfirmBaseline, RunEvent::Done) => {
                if self.has_sidecar {
                    self.phase = RunPhase::RecordSidecar;
                } else {
                    self.phase = RunPhase::LoadBaseline;
                }
            },
            (RunPhase::RecordSidecar, RunEvent::Done) => {
                self.phase = RunPhase::LoadBaseline;
            },
            (RunPhase::LoadBaseline, RunEvent::Done) => {
                let mode = if self.has_sidecar {
                    SatisfiabilityMode::Exact
                } else {
                    SatisfiabilityMode::Sufficient
                };
                self.release_to(RunPhase::Solve(mode));
            },
            (RunPhase::Solve(mode), RunEvent::Solved(updated)) => {
                self.updated = updated;
                if mode == SatisfiabilityMode::Sufficient && !updated && !self.options.dry_run
                    && !self.options.no_install {
                    self.phase = RunPhase::CheckPrefix;
                } else {
                    self.use_solution();
                }
            },
            (RunPhase::CheckPrefix, RunEvent::Same(same)) => {
                if same {
                    self.use_solution();
                } else {
                    self.phase = RunPhase::Solve(SatisfiabilityMode::Exact);
                }
            },
            (RunPhase::ConfirmDryRun, RunEvent::Done) => {
                self.phase = RunPhase::Finished;
            },
            (RunPhase::AcquirePublish, RunEvent::Guard(held)) => {
                self.guard = held;
                self.phase = RunPhase::ConfirmPublish;
            },
            (RunPhase::ConfirmPublish, RunEvent::Done) => {
                self.phase = RunPhase::FindCurrentSidecar;
            },
            (RunPhase::FindCurrentSidecar, RunEvent::Sidecar(found)) => {
                self.current_sidecar = found;
                self.phase = RunPhase::LoadCurrent;
            },
            (RunPhase::LoadCurrent, RunEvent::Done) => {
                if self.has_sidecar && self.current_sidecar {
                    self.phase = RunPhase::CompareSidecar;
                } else {
                    self.sidecar_same = !self.has_sidecar && !self.current_sidecar;
                    self.phase = RunPhase::CompareBaseline;
                }
            },
            (RunPhase::CompareSidecar, RunEvent::Same(same)) => {
                self.sidecar_same = same;
                self.phase = RunPhase::CompareBaseline;
            },
            (RunPhase::CompareBaseline, RunEvent::Same(same)) => {
                if !self.sidecar_same || (self.guard && !same) {
                    self.overtake(RunPhase::Failed(RunFailure::Conflict));
                } else if self.has_sidecar && self.updated {
                    self.phase = RunPhase::WriteSidecar;
                } else {
                    self.store();
                }
            },
            (RunPhase::WriteSidecar, RunEvent::Done) => {
                self.store();
            },
            (RunPhase::StoreState, RunEvent::Done) => {
                self.use_published();
            },
            (RunPhase::Classify, RunEvent::Classified(runnability)) => {
                match runnability {
                    Runnability::Unsupported => {
                        self.phase = RunPhase::Failed(RunFailure::Unsupported);
                    },
                    Runnability::NoDependencies => {
                        self.phase = RunPhase::AcquireReconcile;
                    },
                    _ => {
                        self.phase = RunPhase::Install;
                    },
                }
            },
            (RunPhase::Install, RunEvent::Done) => {
                self.phase = RunPhase::AcquireReconcile;
            },
            (RunPhase::AcquireReconcile, RunEvent::Guard(held)) => {
                self.guard = held;
                self.phase = RunPhase::ConfirmInstalled;
            },
            (RunPhase::ConfirmInstalled, RunEvent::Done) => {
                self.phase = RunPhase::FindInstalledSidecar;
            },
            (RunPhase::FindInstalledSidecar, RunEvent::Sidecar(found)) => {
                self.current_sidecar = found;
                self.phase = RunPhase::LoadInstalled;
            },
            (RunPhase::LoadInstalled, RunEvent::Done) => {
                if !self.has_sidecar && self.current_sidecar {
                    self.overtake(RunPhase::ReconcilePrefix);
                } else {
                    self.phase = RunPhase::CompareCandidate;
                }
            },
            (RunPhase::CompareCandidate, RunEvent::Same(same)) => {
                if !same && (self.has_sidecar || self.guard) {
                    self.overtake(RunPhase::ReconcilePrefix);
                } else if self.has_sidecar && self.guard {
                    self.phase = RunPhase::RefreshState;
                } else {
                    self.release_to(RunPhase::Finished);
                }
            },
            (RunPhase::RefreshState, RunEvent::Done) => {
                self.release_to(RunPhase::Finished);
            },
            (RunPhase::ReconcilePrefix, RunEvent::Done) => {
                self.release_to(RunPhase::Failed(RunFailure::Conflict));
            },
            _ => {},
        }
    }
}

/// Where a run is after these events.
pub open spec fn after(options: RunOptions, events: Seq<RunEvent>) -> ScriptRun
    decreases events.len(),
{
    if events.len() == 0 {
        ScriptRun::begun(options)
    } else {
        after(options, events.drop_last()).next(events.last())
    }
}

/// Each event is an answer to what was to be done.
pub open spec fn is_course(options: RunOptions, events: Seq<RunEvent>) -> bool
    decreases events.len(),
{
    events.len() == 0 || (is_course(options, events.drop_last()) && after(
        options,
        events.drop_last(),
    ).awaits(events.last()))
}

/// How far an attempt has come in a phase.
spec fn progress(phase: RunPhase) -> int {
    match phase {
        RunPhase::FindSidecar => 0,
        RunPhase::ChooseUsage => 1,
        RunPhase::AcquireInitial => 2,
        RunPhase::ConfirmBaseline => 3,
        RunPhase::RecordSidecar => 4,
        RunPhase::LoadBaseline => 5,
        RunPhase::Solve(mode) => if mode == SatisfiabilityMode::Sufficient {
            6
        } else {
            8
        },
        RunPhase::CheckPrefix => 7,
        RunPhase::ConfirmDryRun => 9,
        RunPhase::AcquirePublish => 9,
        RunPhase::ConfirmPublish => 10,
        RunPhase::FindCurrentSidecar => 11,
        RunPhase::LoadCurrent => 12,
        RunPhase::CompareSidecar => 13,
        RunPhase::CompareBaseline => 14,
        RunPhase::WriteSidecar => 15,
        RunPhase::StoreState => 16,
        RunPhase::Classify => 17,
        RunPhase::Install => 18,
        RunPhase::AcquireReconcile => 19,
        RunPhase::ConfirmInstalled => 20,
        RunPhase::FindInstalledSidecar => 21,
        RunPhase::LoadInstalled => 22,
        RunPhase::CompareCandidate => 23,
        RunPhase::RefreshState => 24,
        RunPhase::ReconcilePrefix => 24,
        RunPhase::Finished => 25,
        RunPhase::Failed(_) => 25,
    }
}

impl ScriptRun {
    /// The run is about to do what may start another run of the same script.
    pub open spec fn works_outside(self) -> bool {
        self.phase is Solve || self.phase is Install || self.phase is ReconcilePrefix
    }

    /// The run is about to change what is written about the resolution.
    pub open spec fn publishes(self) -> bool {
        self.phase is WriteSidecar || self.phase is StoreState || self.phase is RefreshState
    }

    /// The run is about to change the installed environment.
    pub open spec fn installs(self) -> bool {
        self.phase is Install || self.phase is ReconcilePrefix
    }

    /// What holds throughout a run.
    spec fn is_sound(self, options: RunOptions) -> bool {
        let step = progress(self.phase);
        &&& self.options == options
        &&& 1 <= self.attempt <= MAX_SCRIPT_RUN_ATTEMPTS
        &&& self.guard ==> 3 <= step <= 5 || 10 <= step <= 16 || 20 <= step <= 24
        &&& self.phase is ReconcilePrefix ==> !self.guard
        &&& self.phase is StoreState || self.phase is RefreshState ==> self.guard
        &&& options.dry_run ==> (step <= 9 || step == 25) && !(self.phase is AcquirePublish)
        &&& options.no_install ==> step <= 15 || step == 25
        &&& self.phase is CompareSidecar ==> self.has_sidecar && self.current_sidecar
        &&& self.phase is CompareBaseline && self.sidecar_same ==> self.has_sidecar
            == self.current_sidecar
        &&& self.phase is WriteSidecar ==> self.has_sidecar && self.current_sidecar
            && self.sidecar_same && self.updated
        &&& self.phase is RefreshState ==> self.has_sidecar
    }
}

/// What holds of a run holds after each event.
proof fn lemma_step_sound(before: ScriptRun, event: RunEvent, options: RunOptions)
    requires
        before.is_sound(options),
        before.awaits(event),
    ensures
        before.next(event).is_sound(options),
{
}

/// Each event brings a run forward.
proof fn lemma_step_forward(before: ScriptRun, event: RunEvent)
    requires
        before.awaits(event),
        1 <= before.attempt <= MAX_SCRIPT_RUN_ATTEMPTS,
    ensures
        before.next(event).attempt == before.attempt ==> progress(before.next(event).phase)
            > progress(before.phase),
        before.next(event).attempt != before.attempt ==> before.next(event).attempt
            == before.attempt + 1 && progress(before.phase) < 25,
        progress(before.next(event).phase) >= 0,
{
}

/// What holds throughout a run, and how far it has come.
proof fn lemma_sound(options: RunOptions, events: Seq<RunEvent>)
    requires
        is_course(options, events),
    ensures
        after(options, events).is_sound(options),
        events.len() <= (after(options, events).attempt - 1) * 25 + progress(
            after(options, events).phase,
        ),
    decreases events.len(),
{
    if events.len() > 0 {
        let front = events.drop_last();
        lemma_sound(options, front);
        lemma_step_sound(after(options, front), events.last(), options);
        lemma_step_forward(after(options, front), events.last());
    }
}

/// While a run solves, installs, or brings the environment in line, it does not hold the guard:
/// another run that is started meanwhile can go on.
pub proof fn outside_work_holds_no_guard(options: RunOptions, events: Seq<RunEvent>)
    requires
        is_course(options, events),
        after(options, events).works_outside() || after(options, events).ended(),
    ensures
        !after(options, events).guard,
{
    lemma_sound(options, events);
}

/// A dry run publishes nothing and installs nothing.
pub proof fn dry_run_changes_nothing(options: RunOptions, events: Seq<RunEvent>)
    requires
        is_course(options, events),
        options.dry_run,
    ensures
        !after(options, events).publishes(),
        !after(options, events).installs(),
{
    lemma_sound(options, events);
}

/// A run that is not to install installs nothing, and stores no resolution as installed.
pub proof fn no_install_installs_nothing(options: RunOptions, events: Seq<RunEvent>)
    requires
        is_course(options, events),
        options.no_install,
    ensures
        !after(options, events).installs(),
        !(after(options, events).phase is StoreState),
        !(after(options, events).phase is RefreshState),
{
    lemma_sound(options, events);
}

/// No run starts more often than it may, so every run ends: no course has more events than this.
pub proof fn runs_end(options: RunOptions, events: Seq<RunEvent>)
    requires
        is_course(options, events),
    ensures
        1 <= after(options, events).attempt <= MAX_SCRIPT_RUN_ATTEMPTS,
        events.len() <= MAX_SCRIPT_RUN_ATTEMPTS * 25,
{
    lemma_sound(options, events);
}

/// A run never makes a lock file beside a script that has none. It writes the one that is there
/// only if the resolution changed, and only if that file was last seen with the contents that it
/// had when the run started.
pub proof fn sidecar_is_written_only_unchanged(options: RunOptions, events: Seq<RunEvent>)
    requires
        is_course(options, events),
        after(options, events).phase is WriteSidecar,
    ensures
        after(options, events).has_sidecar,
        after(options, events).current_sidecar,
        after(options, events).sidecar_same,
        after(options, events).updated,
        events.len() >= 2,
        events[events.len() - 2] == RunEvent::Same(true),
        events.last() is Same,
        after(options, events).guard ==> events.last() == RunEvent::Same(true),
{
    lemma_sound(options, events);
    let front = events.drop_last();
    assert(after(options, front).phase is CompareBaseline);
    assert(front.len() > 0 && is_course(options, front));
    let earlier = front.drop_last();
    lemma_sound(options, earlier);
    lemma_into_comparison(after(options, earlier), front.last());
    assert(front.last() == events[events.len() - 2]);
}

/// How a run gets to compare its baseline.
proof fn lemma_into_comparison(before: ScriptRun, event: RunEvent)
    requires
        before.awaits(event),
        before.next(event).phase is CompareBaseline,
        before.next(event).sidecar_same,
        before.next(event).has_sidecar,
    ensures
        event == RunEvent::Same(true),
{
}

/// A run stores a resolution only while it holds the guard.
pub proof fn storing_holds_the_guard(options: RunOptions, events: Seq<RunEvent>)
    requires
        is_course(options, events),
        after(options, events).phase is StoreState || after(options, events).phase is RefreshState,
    ensures
        after(options, events).guard,
{
    lemma_sound(options, events);
}

} // verus!
