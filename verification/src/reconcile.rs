//! The course of bringing a script's environment in line with the resolution that counts.
//!
//! This is how a writer recovers that installed its resolution and then saw another one count.
//! The installation may start other users of the same script, so the guard is not held during
//! it, and what counts is looked at again afterwards.
use vstd::prelude::*;

use crate::run_script::ResolutionSource;

verus! {

/// How often the environment is installed because another resolution counts by then.
pub const MAX_RECONCILE_ATTEMPTS: u8 = 3;

/// Why the environment could not be brought in line.
#[derive(Debug, Clone, Copy, PartialEq, Eq, Structural)]
pub enum ReconcileFailure {
    /// No resolution counts, or another one counts each time.
    Conflict,
    /// What was to be done failed.
    Step,
}

/// What is to be done next.
#[derive(Debug, Clone, Copy, PartialEq, Eq, Structural)]
pub enum ReconcilePhase {
    /// Take the guard.
    Acquire,
    /// Make sure that the script's metadata is what it was.
    Confirm,
    /// See whether a lock file stands beside the script.
    FindSidecar,
    /// Load the resolution that counts: that lock file, or the cached resolution.
    Load,
    /// Install the resolution.
    Install,
    /// Take the guard again.
    AcquireAgain,
    /// Make sure that the script's metadata is what it was.
    ConfirmAgain,
    /// See whether a lock file stands beside the script now.
    FindSidecarAgain,
    /// Load the resolution that counts now.
    LoadAgain,
    /// See whether that is the one that was installed.
    Compare,
    /// Nothing: the environment is in line.
    Finished,
    /// Nothing: it could not be brought in line.
    Failed(ReconcileFailure),
}

/// What came of what was done.
#[derive(Debug, Clone, Copy, PartialEq, Eq, Structural)]
pub enum ReconcileEvent {
    /// It is done.
    Done,
    /// A lock file stands beside the script, or none does.
    Sidecar(bool),
    /// A resolution was loaded, or there is none.
    Loaded(bool),
    /// What was compared is the same, or not.
    Same(bool),
    /// It failed.
    Failed,
}

/// A script's environment on its way to be in line.
#[derive(Debug, Clone, Copy, PartialEq, Eq, Structural)]
pub struct Reconciliation {
    pub phase: ReconcilePhase,
    /// How often this has started.
    pub attempt: u8,
    /// The guard is held. Once this is false, the caller gives the guard back before it goes on.
    pub guard: bool,
    /// A lock file stood beside the script when what is installed was loaded.
    pub has_sidecar: bool,
    /// A lock file stood beside the script when that was last looked at.
    pub current_sidecar: bool,
}

impl Reconciliation {
    /// Nothing has been done yet.
    pub open spec fn begun() -> Reconciliation {
        Reconciliation {
            phase: ReconcilePhase::Acquire,
            attempt: 1,
            guard: false,
            has_sidecar: false,
            current_sidecar: false,
        }
    }

    /// The event is an answer to what was to be done.
    pub open spec fn awaits(self, event: ReconcileEvent) -> bool {
        match self.phase {
            ReconcilePhase::Finished | ReconcilePhase::Failed(_) => false,
            ReconcilePhase::FindSidecar | ReconcilePhase::FindSidecarAgain => event is Sidecar
                || event is Failed,
            ReconcilePhase::Load | ReconcilePhase::LoadAgain => event is Loaded || event is Failed,
            ReconcilePhase::Compare => event is Same || event is Failed,
            _ => event is Done || event is Failed,
        }
    }

    /// In another phase, with the guard held or not.
    pub open spec fn at(self, phase: ReconcilePhase, guard: bool) -> Reconciliation {
        Reconciliation { phase, guard, ..self }
    }

    /// From the start again, or at an end.
    pub open spec fn overtaken(self) -> Reconciliation {
        if self.attempt >= MAX_RECONCILE_ATTEMPTS {
            self.at(ReconcilePhase::Failed(ReconcileFailure::Conflict), false)
        } else {
            Reconciliation {
                attempt: (self.attempt + 1) as u8,
                ..self.at(ReconcilePhase::Acquire, false)
            }
        }
    }

    /// Where this goes after an event.
    pub open spec fn next(self, event: ReconcileEvent) -> Reconciliation {
        match (self.phase, event) {
            (_, ReconcileEvent::Failed) => self.at(
                ReconcilePhase::Failed(ReconcileFailure::Step),
                false,
            ),
            (ReconcilePhase::Acquire, ReconcileEvent::Done) => self.at(
                ReconcilePhase::Confirm,
                true,
            ),
            (ReconcilePhase::Confirm, ReconcileEvent::Done) => self.at(
                ReconcilePhase::FindSidecar,
                true,
            ),
            (ReconcilePhase::FindSidecar, ReconcileEvent::Sidecar(found)) => Reconciliation {
                has_sidecar: found,
                current_sidecar: found,
                ..self.at(ReconcilePhase::Load, true)
            },
            (ReconcilePhase::Load, ReconcileEvent::Loaded(found)) => if self.has_sidecar || found {
                self.at(ReconcilePhase::Install, false)
            } else {
                self.at(ReconcilePhase::Failed(ReconcileFailure::Conflict), false)
            },
            (ReconcilePhase::Install, ReconcileEvent::Done) => self.at(
                ReconcilePhase::AcquireAgain,
                false,
            ),
            (ReconcilePhase::AcquireAgain, ReconcileEvent::Done) => self.at(
                ReconcilePhase::ConfirmAgain,
                true,
            ),
            (ReconcilePhase::ConfirmAgain, ReconcileEvent::Done) => self.at(
                ReconcilePhase::FindSidecarAgain,
                true,
            ),
            (ReconcilePhase::FindSidecarAgain, ReconcileEvent::Sidecar(found)) => Reconciliation {
                current_sidecar: found,
                ..self.at(ReconcilePhase::LoadAgain, true)
            },
            (ReconcilePhase::LoadAgain, ReconcileEvent::Loaded(_)) => if self.current_sidecar
                == self.has_sidecar {
                self.at(ReconcilePhase::Compare, true)
            } else {
                self.overtaken()
            },
            (ReconcilePhase::Compare, ReconcileEvent::Same(same)) => if same {
                self.at(ReconcilePhase::Finished, false)
            } else {
                self.overtaken()
            },
            _ => self,
        }
    }

    /// Begins.
    pub fn new() -> (reconciliation: Reconciliation)
        ensures
            reconciliation == Self::begun(),
    {
        Reconciliation {
            phase: ReconcilePhase::Acquire,
            attempt: 1,
            guard: false,
            has_sidecar: false,
            current_sidecar: false,
        }
    }

    /// Tells where a resolution is loaded from: from the lock file beside the script if there is
    /// one, and otherwise from the cache.
    pub fn resolution_source(&self) -> (source: ResolutionSource)
        ensures
            source == if self.current_sidecar {
                ResolutionSource::Sidecar
            } else {
                ResolutionSource::Guarded
            },
    {
        if self.current_sidecar {
            ResolutionSource::Sidecar
        } else {
            ResolutionSource::Guarded
        }
    }

    /// Goes on to a phase, with the guard held or not.
    fn go_to(&mut self, phase: ReconcilePhase, guard: bool)
        ensures
            *final(self) == old(self).at(phase, guard),
    {
        self.phase = phase;
        self.guard = guard;
    }

    /// Starts again, or ends.
    fn overtake(&mut self)
        ensures
            *final(self) == old(self).overtaken(),
    {
        if self.attempt >= MAX_RECONCILE_ATTEMPTS {
            self.go_to(ReconcilePhase::Failed(ReconcileFailure::Conflict), false);
        } else {
            self.attempt = self.attempt + 1;
            self.go_to(ReconcilePhase::Acquire, false);
        }
    }

    /// Goes on after an event.
    pub fn step(&mut self, event: ReconcileEvent)
        requires
            old(self).awaits(event),
        ensures
            *final(self) == old(self).next(event),
    {
        match (self.phase, event) {
            (_, ReconcileEvent::Failed) => {
                self.go_to(ReconcilePhase::Failed(ReconcileFailure::Step), false);
            },
            (ReconcilePhase::Acquire, ReconcileEvent::Done) => {
                self.go_to(ReconcilePhase::Confirm, true);
            },
            (ReconcilePhase::Confirm, ReconcileEvent::Done) => {
                self.go_to(ReconcilePhase::FindSidecar, true);
            },
            (ReconcilePhase::FindSidecar, ReconcileEvent::Sidecar(found)) => {
                self.has_sidecar = found;
                self.current_sidecar = found;
                self.go_to(ReconcilePhase::Load, true);
            },
            (ReconcilePhase::Load, ReconcileEvent::Loaded(found)) => {
                if self.has_sidecar || found {
                    self.go_to(ReconcilePhase::Install, false);
                } else {
                    self.go_to(ReconcilePhase::Failed(ReconcileFailure::Conflict), false);
                }
            },
            (ReconcilePhase::Install, ReconcileEvent::Done) => {
                self.go_to(ReconcilePhase::AcquireAgain, false);
            },
            (ReconcilePhase::AcquireAgain, ReconcileEvent::Done) => {
                self.go_to(ReconcilePhase::ConfirmAgain, true);
            },
            (ReconcilePhase::ConfirmAgain, ReconcileEvent::Done) => {
                self.go_to(ReconcilePhase::FindSidecarAgain, true);
            },
            (ReconcilePhase::FindSidecarAgain, ReconcileEvent::Sidecar(found)) => {
                self.current_sidecar = found;
                self.go_to(ReconcilePhase::LoadAgain, true);
            },
            (ReconcilePhase::LoadAgain, ReconcileEvent::Loaded(_)) => {
                if self.current_sidecar == self.has_sidecar {
                    self.go_to(ReconcilePhase::Compare, true);
                } else {
                    self.overtake();
                }
            },
            (ReconcilePhase::Compare, ReconcileEvent::Same(same)) => {
                if same {
                    self.go_to(ReconcilePhase::Finished, false);
                } else {
                    self.overtake();
                }
            },
            _ => {},
        }
    }
}

/// Where this is after these events.
pub open spec fn after(events: Seq<ReconcileEvent>) -> Reconciliation
    decreases events.len(),
{
    if events.len() == 0 {
        Reconciliation::begun()
    } else {
        after(events.drop_last()).next(events.last())
    }
}

/// Each event is an answer to what was to be done.
pub open spec fn is_course(events: Seq<ReconcileEvent>) -> bool
    decreases events.len(),
{
    events.len() == 0 || (is_course(events.drop_last()) && after(events.drop_last()).awaits(
        events.last(),
    ))
}

/// How far an attempt has come in a phase.
spec fn progress(phase: ReconcilePhase) -> int {
    match phase {
        ReconcilePhase::Acquire => 0,
        ReconcilePhase::Confirm => 1,
        ReconcilePhase::FindSidecar => 2,
        ReconcilePhase::Load => 3,
        ReconcilePhase::Install => 4,
        ReconcilePhase::AcquireAgain => 5,
        ReconcilePhase::ConfirmAgain => 6,
        ReconcilePhase::FindSidecarAgain => 7,
        ReconcilePhase::LoadAgain => 8,
        ReconcilePhase::Compare => 9,
        ReconcilePhase::Finished => 10,
        ReconcilePhase::Failed(_) => 10,
    }
}

/// What holds throughout, and how far this has come.
proof fn lemma_sound(events: Seq<ReconcileEvent>)
    requires
        is_course(events),
    ensures
        1 <= after(events).attempt <= MAX_RECONCILE_ATTEMPTS,
        after(events).guard ==> 1 <= progress(after(events).phase) <= 3 || 6 <= progress(
            after(events).phase,
        ) <= 9,
        6 <= progress(after(events).phase) <= 9 ==> after(events).guard,
        events.len() <= (after(events).attempt - 1) * 10 + progress(after(events).phase),
    decreases events.len(),
{
    if events.len() > 0 {
        lemma_sound(events.drop_last());
    }
}

/// The guard is not held during the installation, nor once this has ended.
pub proof fn installation_holds_no_guard(events: Seq<ReconcileEvent>)
    requires
        is_course(events),
        after(events).phase is Install || after(events).phase is Finished || after(
            events,
        ).phase is Failed,
    ensures
        !after(events).guard,
{
    lemma_sound(events);
}

/// This is never started more often than it may be, so it ends: no course has more events than
/// this.
pub proof fn reconciliations_end(events: Seq<ReconcileEvent>)
    requires
        is_course(events),
    ensures
        1 <= after(events).attempt <= MAX_RECONCILE_ATTEMPTS,
        events.len() <= MAX_RECONCILE_ATTEMPTS * 10,
{
    lemma_sound(events);
}

/// A resolution was installed at this place of a course, in the attempt in which the course is
/// now, and it was loaded from where the attempt first found one.
pub open spec fn is_installed_at(events: Seq<ReconcileEvent>, at: int) -> bool {
    let before = after(events.take(at));
    &&& 0 <= at < events.len()
    &&& before.phase is Install
    &&& events[at] == ReconcileEvent::Done
    &&& before.attempt == after(events).attempt
    &&& before.has_sidecar == after(events).has_sidecar
}

/// An attempt that is past the installation has installed a resolution.
proof fn lemma_installed(events: Seq<ReconcileEvent>) -> (at: int)
    requires
        is_course(events),
        5 <= progress(after(events).phase) <= 9 || after(events).phase is Finished,
    ensures
        is_installed_at(events, at),
    decreases events.len(),
{
    assert(events.len() > 0);
    let front = events.drop_last();
    assert(is_course(front) && after(front).awaits(events.last()));
    assert(after(events) == after(front).next(events.last()));
    if after(front).phase is Install {
        assert(events.take(front.len() as int) =~= front);
        front.len() as int
    } else {
        let at = lemma_installed(front);
        assert(events.take(at) =~= front.take(at));
        at
    }
}

/// Success means that a resolution was installed in this attempt, and that, while the guard was
/// held, it was still the one that counts, and still of the same kind.
pub proof fn success_means_in_line(events: Seq<ReconcileEvent>)
    requires
        is_course(events),
        after(events).phase is Finished,
    ensures
        events.len() > 0,
        exists|at: int| is_installed_at(events, at) && at < events.len() - 1,
        events.last() == ReconcileEvent::Same(true),
        after(events.drop_last()).phase is Compare,
        after(events.drop_last()).guard,
        after(events.drop_last()).current_sidecar == after(events.drop_last()).has_sidecar,
{
    let front = events.drop_last();
    lemma_sound(front);
    assert(after(front).phase is Compare);
    let at = lemma_installed(events);
    assert(is_installed_at(events, at) && at < events.len() - 1);
    assert(is_course(front) && front.len() > 0);
    assert(after(front.drop_last()).phase is LoadAgain);
}

} // verus!
