//! What has been done to bring an environment in line by the time this is in a phase, and why it
//! starts again or fails.
//!
//! The laws speak of what was answered in the attempt that this is in, not of how it got from one
//! phase to the next.
use vstd::prelude::*;

use crate::reconcile::{
    after, is_course, ReconcileEvent, ReconcileFailure, ReconcilePhase, Reconciliation,
};

verus! {

/// What was answered since an attempt began. What was not asked yet has no answer.
pub struct ReconcileDeeds {
    pub guard_taken: bool,
    pub confirmed: bool,
    /// A lock file stood beside the script.
    pub sidecar: Option<bool>,
    /// There was a resolution to install.
    pub loaded: Option<bool>,
    pub installed: bool,
    pub guard_taken_again: bool,
    pub confirmed_again: bool,
    /// A lock file stood beside the script after the installation.
    pub sidecar_again: Option<bool>,
    pub loaded_again: bool,
    pub same: Option<bool>,
}

impl ReconcileDeeds {
    /// Nothing was answered.
    pub open spec fn none() -> ReconcileDeeds {
        ReconcileDeeds {
            guard_taken: false,
            confirmed: false,
            sidecar: None,
            loaded: None,
            installed: false,
            guard_taken_again: false,
            confirmed_again: false,
            sidecar_again: None,
            loaded_again: false,
            same: None,
        }
    }

    /// What was answered, once this was answered too.
    pub open spec fn noting(self, phase: ReconcilePhase, event: ReconcileEvent) -> ReconcileDeeds {
        match (phase, event) {
            (ReconcilePhase::Acquire, ReconcileEvent::Done) => ReconcileDeeds {
                guard_taken: true,
                ..ReconcileDeeds::none()
            },
            (ReconcilePhase::Acquire, _) => ReconcileDeeds::none(),
            (ReconcilePhase::Confirm, ReconcileEvent::Done) => ReconcileDeeds {
                confirmed: true,
                ..self
            },
            (ReconcilePhase::FindSidecar, ReconcileEvent::Sidecar(found)) => ReconcileDeeds {
                sidecar: Some(found),
                ..self
            },
            (ReconcilePhase::Load, ReconcileEvent::Loaded(found)) => ReconcileDeeds {
                loaded: Some(found),
                ..self
            },
            (ReconcilePhase::Install, ReconcileEvent::Done) => ReconcileDeeds {
                installed: true,
                ..self
            },
            (ReconcilePhase::AcquireAgain, ReconcileEvent::Done) => ReconcileDeeds {
                guard_taken_again: true,
                ..self
            },
            (ReconcilePhase::ConfirmAgain, ReconcileEvent::Done) => ReconcileDeeds {
                confirmed_again: true,
                ..self
            },
            (ReconcilePhase::FindSidecarAgain, ReconcileEvent::Sidecar(found)) => ReconcileDeeds {
                sidecar_again: Some(found),
                ..self
            },
            (ReconcilePhase::LoadAgain, ReconcileEvent::Loaded(_)) => ReconcileDeeds {
                loaded_again: true,
                ..self
            },
            (ReconcilePhase::Compare, ReconcileEvent::Same(same)) => ReconcileDeeds {
                same: Some(same),
                ..self
            },
            _ => self,
        }
    }

    /// There is a resolution to install, read under the guard with the metadata confirmed.
    pub open spec fn has_resolution(self) -> bool {
        &&& self.guard_taken
        &&& self.confirmed
        &&& self.sidecar is Some
        &&& self.loaded is Some
        &&& self.sidecar == Some(true) || self.loaded == Some(true)
    }

    /// Nothing was looked at after an installation.
    pub open spec fn looked_at_nothing(self) -> bool {
        &&& !self.guard_taken_again
        &&& !self.confirmed_again
        &&& self.sidecar_again is None
        &&& !self.loaded_again
        &&& self.same is None
    }

    /// A resolution was installed, and then, under the guard and with the metadata confirmed, seen
    /// to be still the one that counts, and of the same kind.
    pub open spec fn is_complete(self) -> bool {
        &&& self.has_resolution()
        &&& self.installed
        &&& self.guard_taken_again
        &&& self.confirmed_again
        &&& self.sidecar_again == self.sidecar
        &&& self.loaded_again
        &&& self.same == Some(true)
    }

    /// What was just answered shows that the resolution changed meanwhile.
    pub open spec fn is_overtaken(self, phase: ReconcilePhase) -> bool {
        match phase {
            ReconcilePhase::LoadAgain => self.sidecar_again != self.sidecar,
            ReconcilePhase::Compare => self.same == Some(false),
            _ => false,
        }
    }
}

/// What was answered in the attempt that this is in.
pub open spec fn deeds(events: Seq<ReconcileEvent>) -> ReconcileDeeds
    decreases events.len(),
{
    if events.len() == 0 {
        ReconcileDeeds::none()
    } else {
        deeds(events.drop_last()).noting(after(events.drop_last()).phase, events.last())
    }
}

/// This has done what it must have done by now, nothing else, and remembers it. The guard is held
/// exactly while something is read or compared.
pub open spec fn is_on_plan(state: Reconciliation, deeds: ReconcileDeeds) -> bool {
    let read = deeds.guard_taken && deeds.confirmed;
    let installed = deeds.has_resolution() && deeds.installed;
    let early = !deeds.installed && deeds.looked_at_nothing();
    &&& 1 <= state.attempt <= 3
    &&& state.guard == match state.phase {
        ReconcilePhase::Confirm
        | ReconcilePhase::FindSidecar
        | ReconcilePhase::Load
        | ReconcilePhase::ConfirmAgain
        | ReconcilePhase::FindSidecarAgain
        | ReconcilePhase::LoadAgain
        | ReconcilePhase::Compare => true,
        _ => false,
    }
    &&& match state.phase {
        ReconcilePhase::Load => deeds.sidecar == Some(state.current_sidecar),
        ReconcilePhase::LoadAgain => deeds.sidecar_again == Some(state.current_sidecar),
        _ => true,
    }
    &&& match state.phase {
        ReconcilePhase::Acquire | ReconcilePhase::Confirm | ReconcilePhase::FindSidecar => true,
        ReconcilePhase::Failed(_) => true,
        _ => deeds.sidecar == Some(state.has_sidecar),
    }
    &&& match state.phase {
        ReconcilePhase::Acquire => true,
        ReconcilePhase::Confirm => deeds == (ReconcileDeeds {
            guard_taken: true,
            ..ReconcileDeeds::none()
        }),
        ReconcilePhase::FindSidecar => read && deeds.sidecar is None && deeds.loaded is None
            && early,
        ReconcilePhase::Load => read && deeds.sidecar is Some && deeds.loaded is None && early,
        ReconcilePhase::Install => deeds.has_resolution() && early,
        ReconcilePhase::AcquireAgain => installed && deeds.looked_at_nothing(),
        ReconcilePhase::ConfirmAgain => installed && deeds.guard_taken_again
            && !deeds.confirmed_again && deeds.sidecar_again is None && !deeds.loaded_again
            && deeds.same is None,
        ReconcilePhase::FindSidecarAgain => installed && deeds.guard_taken_again
            && deeds.confirmed_again && deeds.sidecar_again is None && !deeds.loaded_again
            && deeds.same is None,
        ReconcilePhase::LoadAgain => installed && deeds.guard_taken_again && deeds.confirmed_again
            && deeds.sidecar_again is Some && !deeds.loaded_again && deeds.same is None,
        ReconcilePhase::Compare => installed && deeds.guard_taken_again && deeds.confirmed_again
            && deeds.sidecar_again == deeds.sidecar && deeds.loaded_again && deeds.same is None,
        ReconcilePhase::Finished => deeds.is_complete(),
        ReconcilePhase::Failed(_) => true,
    }
}

/// What is on plan is so after the next event.
#[verifier::spinoff_prover]
#[verifier::rlimit(50)]
proof fn lemma_stays_on_plan(
    state: Reconciliation,
    deeds: ReconcileDeeds,
    event: ReconcileEvent,
)
    requires
        is_on_plan(state, deeds),
        state.awaits(event),
    ensures
        is_on_plan(state.next(event), deeds.noting(state.phase, event)),
{
}

/// In every phase this has done what comes before, in this attempt, and nothing that comes later.
/// Once it is finished, a resolution was installed, and was then seen to be still the one that
/// counts.
pub proof fn reconciling_does_one_thing_after_another(events: Seq<ReconcileEvent>)
    requires
        is_course(events),
    ensures
        is_on_plan(after(events), deeds(events)),
        after(events).phase is Finished ==> deeds(events).is_complete(),
    decreases events.len(),
{
    if events.len() > 0 {
        let front = events.drop_last();
        reconciling_does_one_thing_after_another(front);
        lemma_stays_on_plan(after(front), deeds(front), events.last());
    }
}

/// How this goes on as an answer asks for, where it fails or starts again.
pub open spec fn answer_is_heeded(
    before: Reconciliation,
    noted: ReconcileDeeds,
    event: ReconcileEvent,
    state: Reconciliation,
) -> bool {
    let overtaken = noted.is_overtaken(before.phase) && !(event is Failed);
    let last = before.attempt == 3;
    &&& state.phase == ReconcilePhase::Failed(ReconcileFailure::Step) <==> event is Failed
    &&& state.phase == ReconcilePhase::Failed(ReconcileFailure::Conflict) <==> (overtaken && last)
        || (before.phase is Load && noted.sidecar == Some(false) && noted.loaded == Some(false))
    &&& state.phase is Acquire <==> overtaken && !last
    &&& state.attempt == if overtaken && !last {
        before.attempt + 1
    } else {
        before.attempt as int
    }
}

/// What this does about an answer: it fails if that was a failure, or if there is nothing to
/// install. It starts again exactly if the answer shows that the resolution changed meanwhile, and
/// the last time it fails then.
pub proof fn only_changes_start_this_again(events: Seq<ReconcileEvent>, event: ReconcileEvent)
    requires
        is_course(events),
        after(events).awaits(event),
    ensures
        answer_is_heeded(
            after(events),
            deeds(events.push(event)),
            event,
            after(events.push(event)),
        ),
{
    assert(events.push(event).drop_last() =~= events);
    reconciling_does_one_thing_after_another(events);
    lemma_one_answer(after(events), deeds(events), event);
}

/// What this does about an answer while it is on plan.
#[verifier::spinoff_prover]
#[verifier::rlimit(50)]
proof fn lemma_one_answer(before: Reconciliation, deeds: ReconcileDeeds, event: ReconcileEvent)
    requires
        is_on_plan(before, deeds),
        before.awaits(event),
    ensures
        answer_is_heeded(before, deeds.noting(before.phase, event), event, before.next(event)),
{
}

} // verus!
