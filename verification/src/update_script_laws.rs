//! What an update has done by the time it is in a phase, and why it starts again or fails.
//!
//! The laws speak of what was answered in the attempt that an update is in, not of how the update
//! got from one phase to the next.
use vstd::prelude::*;

use crate::update_script::{
    after, is_course, ScriptUpdate, UpdateEvent, UpdateFailure, UpdateOptions, UpdatePhase,
};

verus! {

/// What was answered since an attempt began. What was not asked yet has no answer.
pub struct UpdateDeeds {
    /// A lock file stood beside the script.
    pub sidecar: bool,
    /// The guard was had to read the resolution.
    pub initial_guard: Option<bool>,
    /// There was a resolution to start from.
    pub baseline: Option<bool>,
    pub baseline_confirmed: bool,
    pub sidecar_recorded: bool,
    pub solved: bool,
    pub dry_run_confirmed: bool,
    /// The guard was had to publish.
    pub publish_guard: Option<bool>,
    pub publish_confirmed: bool,
    /// A lock file stood beside the script before publishing.
    pub current_sidecar: Option<bool>,
    pub current_loaded: bool,
    pub sidecar_same: Option<bool>,
    pub baseline_same: Option<bool>,
    pub sidecar_written: bool,
    pub state_stored: bool,
    pub state_shadowed: bool,
    pub installed: bool,
    /// The guard was had after the installation.
    pub reconcile_guard: Option<bool>,
    pub installed_confirmed: bool,
    /// A lock file stood beside the script after the installation.
    pub installed_sidecar: Option<bool>,
    pub installed_loaded: bool,
    pub candidate_same: Option<bool>,
    pub state_refreshed: bool,
}

impl UpdateDeeds {
    /// Nothing was answered but whether a lock file stands beside the script.
    pub open spec fn found(sidecar: bool) -> UpdateDeeds {
        UpdateDeeds {
            sidecar,
            initial_guard: None,
            baseline: None,
            baseline_confirmed: false,
            sidecar_recorded: false,
            solved: false,
            dry_run_confirmed: false,
            publish_guard: None,
            publish_confirmed: false,
            current_sidecar: None,
            current_loaded: false,
            sidecar_same: None,
            baseline_same: None,
            sidecar_written: false,
            state_stored: false,
            state_shadowed: false,
            installed: false,
            reconcile_guard: None,
            installed_confirmed: false,
            installed_sidecar: None,
            installed_loaded: false,
            candidate_same: None,
            state_refreshed: false,
        }
    }

    /// What was answered, once this was answered too.
    pub open spec fn noting(self, phase: UpdatePhase, event: UpdateEvent) -> UpdateDeeds {
        match (phase, event) {
            (UpdatePhase::FindSidecar, UpdateEvent::Sidecar(found)) => UpdateDeeds::found(found),
            (UpdatePhase::FindSidecar, _) => UpdateDeeds::found(false),
            (UpdatePhase::AcquireInitial, UpdateEvent::Guard(held)) => UpdateDeeds {
                initial_guard: Some(held),
                ..self
            },
            (UpdatePhase::LoadBaseline, UpdateEvent::Loaded(found)) => UpdateDeeds {
                baseline: Some(found),
                ..self
            },
            (UpdatePhase::ConfirmBaseline, UpdateEvent::Done) => UpdateDeeds {
                baseline_confirmed: true,
                ..self
            },
            (UpdatePhase::RecordSidecar, UpdateEvent::Done) => UpdateDeeds {
                sidecar_recorded: true,
                ..self
            },
            (UpdatePhase::Solve, UpdateEvent::Done) => UpdateDeeds { solved: true, ..self },
            (UpdatePhase::ConfirmDryRun, UpdateEvent::Done) => UpdateDeeds {
                dry_run_confirmed: true,
                ..self
            },
            (UpdatePhase::AcquirePublish, UpdateEvent::Guard(held)) => UpdateDeeds {
                publish_guard: Some(held),
                ..self
            },
            (UpdatePhase::ConfirmPublish, UpdateEvent::Done) => UpdateDeeds {
                publish_confirmed: true,
                ..self
            },
            (UpdatePhase::FindCurrentSidecar, UpdateEvent::Sidecar(found)) => UpdateDeeds {
                current_sidecar: Some(found),
                ..self
            },
            (UpdatePhase::LoadCurrent, UpdateEvent::Loaded(_)) => UpdateDeeds {
                current_loaded: true,
                ..self
            },
            (UpdatePhase::CompareSidecar, UpdateEvent::Same(same)) => UpdateDeeds {
                sidecar_same: Some(same),
                ..self
            },
            (UpdatePhase::CompareBaseline, UpdateEvent::Same(same)) => UpdateDeeds {
                baseline_same: Some(same),
                ..self
            },
            (UpdatePhase::WriteSidecar, UpdateEvent::Done) => UpdateDeeds {
                sidecar_written: true,
                ..self
            },
            (UpdatePhase::StoreState, UpdateEvent::Done) => UpdateDeeds {
                state_stored: true,
                ..self
            },
            (UpdatePhase::ShadowState, UpdateEvent::Done) => UpdateDeeds {
                state_shadowed: true,
                ..self
            },
            (UpdatePhase::Install, UpdateEvent::Done) => UpdateDeeds { installed: true, ..self },
            (UpdatePhase::AcquireReconcile, UpdateEvent::Guard(held)) => UpdateDeeds {
                reconcile_guard: Some(held),
                ..self
            },
            (UpdatePhase::ConfirmInstalled, UpdateEvent::Done) => UpdateDeeds {
                installed_confirmed: true,
                ..self
            },
            (UpdatePhase::FindInstalledSidecar, UpdateEvent::Sidecar(found)) => UpdateDeeds {
                installed_sidecar: Some(found),
                ..self
            },
            (UpdatePhase::LoadInstalled, UpdateEvent::Loaded(_)) => UpdateDeeds {
                installed_loaded: true,
                ..self
            },
            (UpdatePhase::CompareCandidate, UpdateEvent::Same(same)) => UpdateDeeds {
                candidate_same: Some(same),
                ..self
            },
            (UpdatePhase::RefreshState, UpdateEvent::Done) => UpdateDeeds {
                state_refreshed: true,
                ..self
            },
            _ => self,
        }
    }

    /// Without a lock file beside the script, only a dry run of the whole reads a resolution
    /// without the guard.
    pub open spec fn is_guarded(self, options: UpdateOptions) -> bool {
        self.initial_guard is Some && (self.sidecar || (options.dry_run && !options.selective)
            || self.initial_guard == Some(true))
    }

    /// The resolution to start from was read: the metadata was confirmed, and the lock file beside
    /// the script was noted if there is one. To update a part there must be a resolution.
    pub open spec fn has_baseline(self, options: UpdateOptions) -> bool {
        &&& self.is_guarded(options)
        &&& self.baseline is Some
        &&& self.baseline_confirmed
        &&& self.sidecar_recorded == self.sidecar
        &&& options.selective && !self.sidecar ==> self.baseline == Some(true)
    }

    /// What is compared before publishing was compared under the guard, and nothing had changed.
    pub open spec fn may_publish(self) -> bool {
        &&& self.publish_guard == Some(true)
        &&& self.publish_confirmed
        &&& self.current_sidecar == Some(self.sidecar)
        &&& self.current_loaded
        &&& self.sidecar_same == if self.sidecar {
            Some(true)
        } else {
            None
        }
        &&& self.baseline_same == Some(true)
    }

    /// The resolution was published, where it counts: beside the script if a lock file is there,
    /// and in the cache otherwise.
    pub open spec fn is_published(self) -> bool {
        self.may_publish() && self.sidecar_written == self.sidecar && self.state_stored
            == !self.sidecar
    }

    /// After the installation, the resolution that counts was seen to be the one that was
    /// installed.
    pub open spec fn is_reconciled(self) -> bool {
        &&& self.reconcile_guard is Some
        &&& self.sidecar || self.reconcile_guard == Some(true)
        &&& self.installed_confirmed
        &&& self.installed_sidecar is Some
        &&& self.installed_sidecar == Some(true) ==> self.sidecar
        &&& self.installed_loaded
        &&& self.candidate_same == Some(true)
        &&& self.state_refreshed == (self.sidecar && self.reconcile_guard == Some(true))
    }

    /// Nothing was looked at after an installation.
    pub open spec fn reconciled_nothing(self) -> bool {
        &&& self.reconcile_guard is None
        &&& !self.installed_confirmed
        &&& self.installed_sidecar is None
        &&& !self.installed_loaded
        &&& self.candidate_same is None
        &&& !self.state_refreshed
    }

    /// Nothing was installed, or stored about an installation.
    pub open spec fn installed_nothing(self) -> bool {
        !self.state_shadowed && !self.installed && self.reconciled_nothing()
    }

    /// Nothing was published.
    pub open spec fn published_nothing(self) -> bool {
        &&& self.publish_guard is None
        &&& !self.publish_confirmed
        &&& self.current_sidecar is None
        &&& !self.current_loaded
        &&& self.sidecar_same is None
        &&& self.baseline_same is None
        &&& !self.sidecar_written
        &&& !self.state_stored
        &&& self.installed_nothing()
    }

    /// All that an update does was done, in the attempt that ended it.
    pub open spec fn is_complete(self, options: UpdateOptions) -> bool {
        &&& self.has_baseline(options)
        &&& self.solved
        &&& if options.dry_run {
            self.dry_run_confirmed && self.published_nothing()
        } else {
            &&& !self.dry_run_confirmed
            &&& self.is_published()
            &&& if options.no_install {
                self.installed_nothing()
            } else {
                &&& self.state_shadowed == self.sidecar
                &&& self.installed
                &&& self.is_reconciled()
            }
        }
    }

    /// What was just answered shows that the resolution changed under the update.
    pub open spec fn is_overtaken(self, phase: UpdatePhase) -> bool {
        match phase {
            UpdatePhase::LoadCurrent => self.current_sidecar != Some(self.sidecar),
            UpdatePhase::CompareSidecar => self.sidecar_same == Some(false),
            UpdatePhase::CompareBaseline => self.baseline_same == Some(false),
            UpdatePhase::LoadInstalled => !self.sidecar && self.installed_sidecar == Some(true),
            UpdatePhase::CompareCandidate => self.candidate_same == Some(false),
            _ => false,
        }
    }

    /// What was just answered shows that the guard could not be had where it is needed.
    pub open spec fn lacks_guard(self, options: UpdateOptions, phase: UpdatePhase) -> bool {
        match phase {
            UpdatePhase::AcquireInitial => !self.is_guarded(options),
            UpdatePhase::AcquirePublish => self.publish_guard == Some(false),
            UpdatePhase::AcquireReconcile => self.reconcile_guard == Some(false) && !self.sidecar,
            _ => false,
        }
    }
}

/// What was answered in the attempt that an update is in.
pub open spec fn deeds(options: UpdateOptions, events: Seq<UpdateEvent>) -> UpdateDeeds
    decreases events.len(),
{
    if events.len() == 0 {
        UpdateDeeds::found(false)
    } else {
        deeds(options, events.drop_last()).noting(
            after(options, events.drop_last()).phase,
            events.last(),
        )
    }
}

/// The guard is held as it was had in the phases that need it, and in no others.
pub open spec fn guard_is_as_had(update: ScriptUpdate, deeds: UpdateDeeds) -> bool {
    update.guard == match update.phase {
        UpdatePhase::LoadBaseline | UpdatePhase::ConfirmBaseline | UpdatePhase::RecordSidecar =>
            deeds.initial_guard == Some(true),
        UpdatePhase::ConfirmPublish
        | UpdatePhase::FindCurrentSidecar
        | UpdatePhase::LoadCurrent
        | UpdatePhase::CompareSidecar
        | UpdatePhase::CompareBaseline
        | UpdatePhase::WriteSidecar
        | UpdatePhase::ShadowState
        | UpdatePhase::StoreState => true,
        UpdatePhase::ConfirmInstalled
        | UpdatePhase::FindInstalledSidecar
        | UpdatePhase::LoadInstalled
        | UpdatePhase::CompareCandidate
        | UpdatePhase::RefreshState => deeds.reconcile_guard == Some(true),
        _ => false,
    }
}

/// What an update remembers is what was answered.
pub open spec fn memory_is_right(update: ScriptUpdate, deeds: UpdateDeeds) -> bool {
    &&& !(update.phase is FindSidecar || update.phase is Failed) ==> update.has_sidecar
        == deeds.sidecar
    &&& match update.phase {
        UpdatePhase::ConfirmBaseline | UpdatePhase::RecordSidecar => deeds.baseline == Some(
            update.has_baseline,
        ),
        _ => true,
    }
    &&& match update.phase {
        UpdatePhase::AcquireInitial
        | UpdatePhase::LoadBaseline
        | UpdatePhase::ConfirmBaseline
        | UpdatePhase::RecordSidecar => update.current_sidecar == deeds.sidecar,
        UpdatePhase::LoadCurrent
        | UpdatePhase::CompareSidecar
        | UpdatePhase::CompareBaseline => deeds.current_sidecar == Some(update.current_sidecar),
        UpdatePhase::LoadInstalled | UpdatePhase::CompareCandidate => deeds.installed_sidecar
            == Some(update.current_sidecar),
        _ => true,
    }
}

/// What was done by the time an update is in a phase up to publishing.
pub open spec fn is_on_plan_early(
    options: UpdateOptions,
    phase: UpdatePhase,
    deeds: UpdateDeeds,
) -> bool {
    let unsolved = !deeds.solved && !deeds.dry_run_confirmed && deeds.published_nothing();
    let solved = deeds.has_baseline(options) && deeds.solved && !deeds.dry_run_confirmed;
    let open = solved && !options.dry_run && deeds.publish_guard == Some(true)
        && !deeds.sidecar_written && !deeds.state_stored && deeds.installed_nothing();
    match phase {
        UpdatePhase::AcquireInitial => deeds == UpdateDeeds::found(deeds.sidecar),
        UpdatePhase::LoadBaseline => deeds.is_guarded(options) && deeds.baseline is None
            && !deeds.baseline_confirmed && !deeds.sidecar_recorded && unsolved,
        UpdatePhase::ConfirmBaseline => deeds.is_guarded(options) && deeds.baseline is Some
            && !deeds.baseline_confirmed && !deeds.sidecar_recorded && unsolved,
        UpdatePhase::RecordSidecar => deeds.is_guarded(options) && deeds.baseline is Some
            && deeds.baseline_confirmed && deeds.sidecar && !deeds.sidecar_recorded && unsolved,
        UpdatePhase::Solve => deeds.has_baseline(options) && unsolved,
        UpdatePhase::ConfirmDryRun => solved && options.dry_run && deeds.published_nothing(),
        UpdatePhase::AcquirePublish => solved && !options.dry_run && deeds.published_nothing(),
        UpdatePhase::ConfirmPublish => open && !deeds.publish_confirmed
            && deeds.current_sidecar is None && !deeds.current_loaded && deeds.sidecar_same is None
            && deeds.baseline_same is None,
        UpdatePhase::FindCurrentSidecar => open && deeds.publish_confirmed
            && deeds.current_sidecar is None && !deeds.current_loaded && deeds.sidecar_same is None
            && deeds.baseline_same is None,
        UpdatePhase::LoadCurrent => open && deeds.publish_confirmed && deeds.current_sidecar is Some
            && !deeds.current_loaded && deeds.sidecar_same is None && deeds.baseline_same is None,
        UpdatePhase::CompareSidecar => open && deeds.publish_confirmed && deeds.current_sidecar
            == Some(true) && deeds.sidecar && deeds.current_loaded && deeds.sidecar_same is None
            && deeds.baseline_same is None,
        UpdatePhase::CompareBaseline => open && deeds.publish_confirmed && deeds.current_sidecar
            == Some(deeds.sidecar) && deeds.current_loaded && deeds.sidecar_same == (if deeds.sidecar {
            Some(true)
        } else {
            None
        }) && deeds.baseline_same is None,
        UpdatePhase::WriteSidecar => open && deeds.may_publish() && deeds.sidecar,
        UpdatePhase::StoreState => open && deeds.may_publish() && !deeds.sidecar,
        _ => true,
    }
}

/// What was done by the time an update is in a phase after publishing.
pub open spec fn is_on_plan_late(
    options: UpdateOptions,
    phase: UpdatePhase,
    deeds: UpdateDeeds,
) -> bool {
    let published = deeds.has_baseline(options) && deeds.solved && !deeds.dry_run_confirmed
        && !options.dry_run && deeds.is_published() && !options.no_install;
    let installed = published && deeds.state_shadowed == deeds.sidecar && deeds.installed;
    let guarded = deeds.reconcile_guard is Some && (deeds.sidecar || deeds.reconcile_guard == Some(
        true,
    ));
    match phase {
        UpdatePhase::ShadowState => published && deeds.sidecar && deeds.installed_nothing(),
        UpdatePhase::Install => published && deeds.state_shadowed == deeds.sidecar
            && !deeds.installed && deeds.reconciled_nothing(),
        UpdatePhase::AcquireReconcile => installed && deeds.reconciled_nothing(),
        UpdatePhase::ConfirmInstalled => installed && guarded && !deeds.installed_confirmed
            && deeds.installed_sidecar is None && !deeds.installed_loaded
            && deeds.candidate_same is None && !deeds.state_refreshed,
        UpdatePhase::FindInstalledSidecar => installed && guarded && deeds.installed_confirmed
            && deeds.installed_sidecar is None && !deeds.installed_loaded
            && deeds.candidate_same is None && !deeds.state_refreshed,
        UpdatePhase::LoadInstalled => installed && guarded && deeds.installed_confirmed
            && deeds.installed_sidecar is Some && !deeds.installed_loaded
            && deeds.candidate_same is None && !deeds.state_refreshed,
        UpdatePhase::CompareCandidate => installed && guarded && deeds.installed_confirmed
            && deeds.installed_sidecar is Some && (deeds.installed_sidecar == Some(true)
            ==> deeds.sidecar) && deeds.installed_loaded && deeds.candidate_same is None
            && !deeds.state_refreshed,
        UpdatePhase::RefreshState => installed && deeds.reconcile_guard == Some(true)
            && deeds.sidecar && deeds.installed_confirmed && deeds.installed_sidecar is Some
            && deeds.installed_loaded && deeds.candidate_same == Some(true)
            && !deeds.state_refreshed,
        UpdatePhase::ReconcilePrefix => installed && guarded && deeds.installed_confirmed
            && deeds.installed_sidecar is Some && deeds.installed_loaded
            && if deeds.candidate_same is None {
            deeds.is_overtaken(UpdatePhase::LoadInstalled)
        } else {
            deeds.is_overtaken(UpdatePhase::CompareCandidate)
        },
        UpdatePhase::Finished => deeds.is_complete(options),
        _ => true,
    }
}

/// An update has done what it must have done by now, nothing else, and remembers it.
pub open spec fn is_on_plan(
    options: UpdateOptions,
    update: ScriptUpdate,
    deeds: UpdateDeeds,
) -> bool {
    &&& update.options == options
    &&& 1 <= update.attempt <= 3
    &&& is_on_plan_early(options, update.phase, deeds)
    &&& is_on_plan_late(options, update.phase, deeds)
    &&& guard_is_as_had(update, deeds)
    &&& memory_is_right(update, deeds)
}

/// An update that is on plan is so after the next event.
#[verifier::spinoff_prover]
#[verifier::rlimit(100)]
proof fn lemma_stays_on_plan(
    options: UpdateOptions,
    update: ScriptUpdate,
    deeds: UpdateDeeds,
    event: UpdateEvent,
)
    requires
        is_on_plan(options, update, deeds),
        update.awaits(event),
    ensures
        is_on_plan(options, update.next(event), deeds.noting(update.phase, event)),
{
    let next = update.next(event);
    let noted = deeds.noting(update.phase, event);
    assert(is_on_plan_early(options, next.phase, noted));
    assert(is_on_plan_late(options, next.phase, noted));
    assert(guard_is_as_had(next, noted));
    assert(memory_is_right(next, noted));
}

/// In every phase an update has done what comes before, in this attempt, and nothing that comes
/// later: it has read the resolution to start from before it solves, compared everything under the
/// guard before it publishes, published before it installs, and installed before it looks whether
/// what was installed still counts.
pub proof fn updates_do_one_thing_after_another(options: UpdateOptions, events: Seq<UpdateEvent>)
    requires
        is_course(options, events),
    ensures
        is_on_plan(options, after(options, events), deeds(options, events)),
    decreases events.len(),
{
    if events.len() > 0 {
        let front = events.drop_last();
        updates_do_one_thing_after_another(options, front);
        lemma_stays_on_plan(options, after(options, front), deeds(options, front), events.last());
    }
}

/// An update that succeeds has done, in the attempt that ended it, all that an update is for. A
/// dry run has solved, confirmed, and changed nothing.
pub proof fn finished_updates_did_everything(options: UpdateOptions, events: Seq<UpdateEvent>)
    requires
        is_course(options, events),
        after(options, events).phase is Finished,
    ensures
        deeds(options, events).is_complete(options),
{
    updates_do_one_thing_after_another(options, events);
}

/// A place of a course where something was answered, in the attempt in which the course is now.
pub open spec fn was_answered(
    options: UpdateOptions,
    events: Seq<UpdateEvent>,
    at: int,
    phase: UpdatePhase,
    event: UpdateEvent,
) -> bool {
    &&& 0 <= at < events.len()
    &&& after(options, events.take(at)).phase == phase
    &&& events[at] == event
    &&& after(options, events.take(at)).attempt == after(options, events).attempt
}

/// An attempt goes on unless the next phase is the first one.
proof fn lemma_same_attempt(update: ScriptUpdate, event: UpdateEvent)
    requires
        update.awaits(event),
        update.attempt <= 3,
        !(update.next(event).phase is FindSidecar),
    ensures
        update.next(event).attempt == update.attempt,
{
}

/// How it comes to be noted what was published, installed and compared.
proof fn lemma_noting(deeds: UpdateDeeds, phase: UpdatePhase, event: UpdateEvent)
    ensures
        ({
            let noted = deeds.noting(phase, event);
            let goes_on = !(phase is FindSidecar);
            &&& noted.sidecar_written ==> (phase is WriteSidecar && event == UpdateEvent::Done) || (
            deeds.sidecar_written && goes_on)
            &&& noted.state_stored ==> (phase is StoreState && event == UpdateEvent::Done) || (
            deeds.state_stored && goes_on)
            &&& noted.installed ==> (phase is Install && event == UpdateEvent::Done) || (
            deeds.installed && goes_on)
            &&& noted.candidate_same == Some(true) ==> (phase is CompareCandidate && event
                == UpdateEvent::Same(true)) || (deeds.candidate_same == Some(true) && goes_on)
        }),
{
}

/// What was answered in an attempt stays answered while the attempt goes on.
proof fn lemma_stays_answered(
    options: UpdateOptions,
    events: Seq<UpdateEvent>,
    at: int,
    phase: UpdatePhase,
    event: UpdateEvent,
)
    requires
        events.len() > 0,
        after(options, events).attempt == after(options, events.drop_last()).attempt,
        was_answered(options, events.drop_last(), at, phase, event) || (at == events.len() - 1
            && after(options, events.drop_last()).phase == phase && events.last() == event),
    ensures
        was_answered(options, events, at, phase, event),
{
    let front = events.drop_last();
    assert(events.take(front.len() as int) =~= front);
    if at < front.len() {
        assert(events.take(at) =~= front.take(at));
    }
}

/// The attempt goes on with the last event, unless the course is back in the first phase.
proof fn lemma_last_event(options: UpdateOptions, events: Seq<UpdateEvent>)
    requires
        is_course(options, events),
        events.len() > 0,
        !(after(options, events).phase is FindSidecar),
    ensures
        is_course(options, events.drop_last()),
        after(options, events).attempt == after(options, events.drop_last()).attempt,
        deeds(options, events) == deeds(options, events.drop_last()).noting(
            after(options, events.drop_last()).phase,
            events.last(),
        ),
{
    updates_do_one_thing_after_another(options, events.drop_last());
    lemma_same_attempt(after(options, events.drop_last()), events.last());
}

/// A course up to some place is a course.
proof fn lemma_front(options: UpdateOptions, events: Seq<UpdateEvent>, at: int)
    requires
        is_course(options, events),
        0 <= at <= events.len(),
    ensures
        is_course(options, events.take(at)),
    decreases events.len(),
{
    if at == events.len() {
        assert(events.take(at) =~= events);
    } else {
        lemma_front(options, events.drop_last(), at);
        assert(events.take(at) =~= events.drop_last().take(at));
    }
}

/// What was noted as published was answered.
proof fn lemma_published(options: UpdateOptions, events: Seq<UpdateEvent>) -> (at: int)
    requires
        is_course(options, events),
        !(after(options, events).phase is FindSidecar),
        deeds(options, events).sidecar_written || deeds(options, events).state_stored,
    ensures
        deeds(options, events).sidecar_written ==> was_answered(
            options,
            events,
            at,
            UpdatePhase::WriteSidecar,
            UpdateEvent::Done,
        ),
        !deeds(options, events).sidecar_written ==> was_answered(
            options,
            events,
            at,
            UpdatePhase::StoreState,
            UpdateEvent::Done,
        ),
    decreases events.len(),
{
    assert(events.len() > 0);
    let front = events.drop_last();
    let before = after(options, front).phase;
    let written = deeds(options, events).sidecar_written;
    let phase = if written {
        UpdatePhase::WriteSidecar
    } else {
        UpdatePhase::StoreState
    };
    lemma_last_event(options, events);
    lemma_noting(deeds(options, front), before, events.last());
    let at = if before == phase && events.last() == UpdateEvent::Done {
        events.len() - 1
    } else {
        lemma_published(options, front)
    };
    lemma_stays_answered(options, events, at, phase, UpdateEvent::Done);
    at
}

/// What was noted as installed was answered.
proof fn lemma_installed(options: UpdateOptions, events: Seq<UpdateEvent>) -> (at: int)
    requires
        is_course(options, events),
        !(after(options, events).phase is FindSidecar),
        deeds(options, events).installed,
    ensures
        was_answered(options, events, at, UpdatePhase::Install, UpdateEvent::Done),
    decreases events.len(),
{
    assert(events.len() > 0);
    let front = events.drop_last();
    lemma_last_event(options, events);
    lemma_noting(deeds(options, front), after(options, front).phase, events.last());
    let at = if after(options, front).phase is Install && events.last() == UpdateEvent::Done {
        events.len() - 1
    } else {
        lemma_installed(options, front)
    };
    lemma_stays_answered(options, events, at, UpdatePhase::Install, UpdateEvent::Done);
    at
}

/// What was noted as the same was answered.
proof fn lemma_compared(options: UpdateOptions, events: Seq<UpdateEvent>) -> (at: int)
    requires
        is_course(options, events),
        !(after(options, events).phase is FindSidecar),
        deeds(options, events).candidate_same == Some(true),
    ensures
        was_answered(
            options,
            events,
            at,
            UpdatePhase::CompareCandidate,
            UpdateEvent::Same(true),
        ),
    decreases events.len(),
{
    assert(events.len() > 0);
    let front = events.drop_last();
    let before = after(options, front).phase;
    lemma_last_event(options, events);
    lemma_noting(deeds(options, front), before, events.last());
    let at = if before is CompareCandidate && events.last() == UpdateEvent::Same(true) {
        events.len() - 1
    } else {
        lemma_compared(options, front)
    };
    lemma_stays_answered(
        options,
        events,
        at,
        UpdatePhase::CompareCandidate,
        UpdateEvent::Same(true),
    );
    at
}

/// An update that succeeds, and was neither a dry run nor one that is not to install, has in the
/// attempt that ended it first published its resolution, then installed it, and then seen that it
/// is still the one that counts.
pub proof fn finished_updates_are_installed(options: UpdateOptions, events: Seq<UpdateEvent>)
    requires
        is_course(options, events),
        after(options, events).phase is Finished,
        !options.dry_run,
        !options.no_install,
    ensures
        exists|published: int, installed: int, compared: int|
            #![trigger events[published], events[installed], events[compared]]
            published < installed < compared && (was_answered(
                options,
                events,
                published,
                UpdatePhase::WriteSidecar,
                UpdateEvent::Done,
            ) || was_answered(
                options,
                events,
                published,
                UpdatePhase::StoreState,
                UpdateEvent::Done,
            )) && was_answered(options, events, installed, UpdatePhase::Install, UpdateEvent::Done)
                && was_answered(
                options,
                events,
                compared,
                UpdatePhase::CompareCandidate,
                UpdateEvent::Same(true),
            ),
{
    finished_updates_did_everything(options, events);
    let compared = lemma_compared(options, events);
    let until_compared = events.take(compared);
    lemma_front(options, events, compared);
    updates_do_one_thing_after_another(options, until_compared);
    let installed = lemma_installed(options, until_compared);
    let until_installed = until_compared.take(installed);
    lemma_front(options, until_compared, installed);
    updates_do_one_thing_after_another(options, until_installed);
    let published = lemma_published(options, until_installed);
    assert(until_installed =~= events.take(installed));
    assert(until_installed.take(published) =~= events.take(published));
    assert(events[published] == until_installed[published]);
    assert(events[installed] == until_compared[installed]);
}

/// What an update does about an answer: it fails if that was a failure, if the guard could not be
/// had where it is needed, or if there is nothing to update a part of. It starts again exactly if
/// the answer shows that the resolution changed under it, and the last time it fails then, once
/// the environment is in line if one was installed.
pub proof fn only_changes_start_an_update_again(
    options: UpdateOptions,
    events: Seq<UpdateEvent>,
    event: UpdateEvent,
)
    requires
        is_course(options, events),
        after(options, events).awaits(event),
    ensures
        answer_is_heeded(
            options,
            after(options, events),
            deeds(options, events.push(event)),
            event,
            after(options, events.push(event)),
        ),
{
    assert(events.push(event).drop_last() =~= events);
    updates_do_one_thing_after_another(options, events);
    lemma_one_answer(options, after(options, events), deeds(options, events), event);
}

/// An update goes from one phase to another as the answer asks for, where it fails or starts again.
pub open spec fn answer_is_heeded(
    options: UpdateOptions,
    before: ScriptUpdate,
    noted: UpdateDeeds,
    event: UpdateEvent,
    update: ScriptUpdate,
) -> bool {
    let overtaken = noted.is_overtaken(before.phase) && !(event is Failed);
    let last = before.attempt == 3;
    let after_installing = before.phase is LoadInstalled || before.phase is CompareCandidate;
    &&& update.phase == UpdatePhase::Failed(UpdateFailure::Step) <==> event is Failed
    &&& update.phase == UpdatePhase::Failed(UpdateFailure::StateLock) <==> noted.lacks_guard(
        options,
        before.phase,
    ) && !(event is Failed)
    &&& update.phase == UpdatePhase::Failed(UpdateFailure::NoCachedResolution) <==> before.phase
        is ConfirmBaseline && event == UpdateEvent::Done && !noted.sidecar && noted.baseline == Some(
        false,
    ) && options.selective
    &&& update.phase is FindSidecar <==> overtaken && !last
    &&& update.attempt == if overtaken && !last {
        before.attempt + 1
    } else {
        before.attempt as int
    }
    &&& update.phase is ReconcilePrefix <==> overtaken && last && after_installing
    &&& update.phase == UpdatePhase::Failed(UpdateFailure::ChangedRepeatedly) <==> (overtaken
        && last && !after_installing) || (before.phase is ReconcilePrefix && event
        == UpdateEvent::Done)
}

/// What an update on plan does about an answer.
#[verifier::spinoff_prover]
#[verifier::rlimit(100)]
proof fn lemma_one_answer(
    options: UpdateOptions,
    before: ScriptUpdate,
    deeds: UpdateDeeds,
    event: UpdateEvent,
)
    requires
        is_on_plan(options, before, deeds),
        before.awaits(event),
    ensures
        answer_is_heeded(
            options,
            before,
            deeds.noting(before.phase, event),
            event,
            before.next(event),
        ),
{
}

} // verus!
