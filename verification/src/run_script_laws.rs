//! What a run has done by the time it is in a phase, and why it starts again or fails.
//!
//! The laws speak of what was answered in the attempt that a run is in, not of how the run got
//! from one phase to the next.
use vstd::prelude::*;

use crate::run_script::{
    after, is_course, RunEvent, RunFailure, RunOptions, RunPhase, Runnability, ScriptRun,
};
use crate::satisfiability::SatisfiabilityMode;

verus! {

/// What was answered since an attempt began. What was not asked yet has no answer.
pub struct RunDeeds {
    /// A lock file stood beside the script.
    pub sidecar: bool,
    pub usage_chosen: bool,
    /// The guard was had to read the resolution.
    pub initial_guard: Option<bool>,
    pub baseline_confirmed: bool,
    pub sidecar_recorded: bool,
    pub baseline_loaded: bool,
    /// Solving for what is sufficient gave another resolution.
    pub sufficient: Option<bool>,
    /// The installed environment is that of the resolution.
    pub prefix_same: Option<bool>,
    /// Solving exactly gave another resolution.
    pub exact: Option<bool>,
    pub dry_run_confirmed: bool,
    /// The guard was had to publish.
    pub publish_guard: Option<bool>,
    pub publish_confirmed: bool,
    /// A lock file stood beside the script before publishing.
    pub current_sidecar: Option<bool>,
    pub current_loaded: bool,
    pub sidecar_same: Option<bool>,
    pub baseline_same: Option<bool>,
    pub sidecar_written: bool,
    pub state_stored: bool,
    pub classified: Option<Runnability>,
    pub installed: bool,
    /// The guard was had after the installation.
    pub reconcile_guard: Option<bool>,
    pub installed_confirmed: bool,
    /// A lock file stood beside the script after the installation.
    pub installed_sidecar: Option<bool>,
    pub installed_loaded: bool,
    pub candidate_same: Option<bool>,
    pub state_refreshed: bool,
}

impl RunDeeds {
    /// Nothing was answered but whether a lock file stands beside the script.
    pub open spec fn found(sidecar: bool) -> RunDeeds {
        RunDeeds {
            sidecar,
            usage_chosen: false,
            initial_guard: None,
            baseline_confirmed: false,
            sidecar_recorded: false,
            baseline_loaded: false,
            sufficient: None,
            prefix_same: None,
            exact: None,
            dry_run_confirmed: false,
            publish_guard: None,
            publish_confirmed: false,
            current_sidecar: None,
            current_loaded: false,
            sidecar_same: None,
            baseline_same: None,
            sidecar_written: false,
            state_stored: false,
            classified: None,
            installed: false,
            reconcile_guard: None,
            installed_confirmed: false,
            installed_sidecar: None,
            installed_loaded: false,
            candidate_same: None,
            state_refreshed: false,
        }
    }

    /// What was answered, once this was answered too.
    pub open spec fn noting(self, phase: RunPhase, event: RunEvent) -> RunDeeds {
        match (phase, event) {
            (RunPhase::FindSidecar, RunEvent::Sidecar(found)) => RunDeeds::found(found),
            (RunPhase::FindSidecar, _) => RunDeeds::found(false),
            (RunPhase::ChooseUsage, RunEvent::Done) => RunDeeds { usage_chosen: true, ..self },
            (RunPhase::AcquireInitial, RunEvent::Guard(held)) => RunDeeds {
                initial_guard: Some(held),
                ..self
            },
            (RunPhase::ConfirmBaseline, RunEvent::Done) => RunDeeds {
                baseline_confirmed: true,
                ..self
            },
            (RunPhase::RecordSidecar, RunEvent::Done) => RunDeeds {
                sidecar_recorded: true,
                ..self
            },
            (RunPhase::LoadBaseline, RunEvent::Done) => RunDeeds { baseline_loaded: true, ..self },
            (RunPhase::Solve(SatisfiabilityMode::Sufficient), RunEvent::Solved(updated)) => RunDeeds {
                sufficient: Some(updated),
                ..self
            },
            (RunPhase::Solve(SatisfiabilityMode::Exact), RunEvent::Solved(updated)) => RunDeeds {
                exact: Some(updated),
                ..self
            },
            (RunPhase::CheckPrefix, RunEvent::Same(same)) => RunDeeds {
                prefix_same: Some(same),
                ..self
            },
            (RunPhase::ConfirmDryRun, RunEvent::Done) => RunDeeds {
                dry_run_confirmed: true,
                ..self
            },
            (RunPhase::AcquirePublish, RunEvent::Guard(held)) => RunDeeds {
                publish_guard: Some(held),
                ..self
            },
            (RunPhase::ConfirmPublish, RunEvent::Done) => RunDeeds {
                publish_confirmed: true,
                ..self
            },
            (RunPhase::FindCurrentSidecar, RunEvent::Sidecar(found)) => RunDeeds {
                current_sidecar: Some(found),
                ..self
            },
            (RunPhase::LoadCurrent, RunEvent::Done) => RunDeeds { current_loaded: true, ..self },
            (RunPhase::CompareSidecar, RunEvent::Same(same)) => RunDeeds {
                sidecar_same: Some(same),
                ..self
            },
            (RunPhase::CompareBaseline, RunEvent::Same(same)) => RunDeeds {
                baseline_same: Some(same),
                ..self
            },
            (RunPhase::WriteSidecar, RunEvent::Done) => RunDeeds { sidecar_written: true, ..self },
            (RunPhase::StoreState, RunEvent::Done) => RunDeeds { state_stored: true, ..self },
            (RunPhase::Classify, RunEvent::Classified(runnability)) => RunDeeds {
                classified: Some(runnability),
                ..self
            },
            (RunPhase::Install, RunEvent::Done) => RunDeeds { installed: true, ..self },
            (RunPhase::AcquireReconcile, RunEvent::Guard(held)) => RunDeeds {
                reconcile_guard: Some(held),
                ..self
            },
            (RunPhase::ConfirmInstalled, RunEvent::Done) => RunDeeds {
                installed_confirmed: true,
                ..self
            },
            (RunPhase::FindInstalledSidecar, RunEvent::Sidecar(found)) => RunDeeds {
                installed_sidecar: Some(found),
                ..self
            },
            (RunPhase::LoadInstalled, RunEvent::Done) => RunDeeds {
                installed_loaded: true,
                ..self
            },
            (RunPhase::CompareCandidate, RunEvent::Same(same)) => RunDeeds {
                candidate_same: Some(same),
                ..self
            },
            (RunPhase::RefreshState, RunEvent::Done) => RunDeeds { state_refreshed: true, ..self },
            _ => self,
        }
    }

    /// The resolution to start from was read: the metadata was confirmed, the lock file beside the
    /// script was noted if there is one, and the resolution was loaded.
    pub open spec fn has_baseline(self) -> bool {
        &&& self.usage_chosen
        &&& self.initial_guard is Some
        &&& self.baseline_confirmed
        &&& self.sidecar_recorded == self.sidecar
        &&& self.baseline_loaded
    }

    /// A resolution was found. With a lock file beside the script it was solved for exactly.
    /// Without one, a cached resolution that is sufficient will do, unless another environment
    /// than its own is installed.
    pub open spec fn has_solution(self, options: RunOptions) -> bool {
        &&& self.has_baseline()
        &&& if self.sidecar {
            self.exact is Some && self.sufficient is None && self.prefix_same is None
        } else {
            &&& self.sufficient is Some
            &&& self.prefix_same is Some <==> self.sufficient == Some(false) && !options.dry_run
                && !options.no_install
            &&& self.exact is Some <==> self.prefix_same == Some(false)
        }
    }

    /// The resolution that was found is another than the one it was solved from.
    pub open spec fn is_updated(self) -> bool {
        if self.exact is Some {
            self.exact == Some(true)
        } else {
            self.sufficient == Some(true)
        }
    }

    /// Nobody changed the lock file beside the script, or made or removed one.
    pub open spec fn sidecar_is_unchanged(self) -> bool {
        self.current_sidecar == Some(self.sidecar) && (self.sidecar ==> self.sidecar_same == Some(
            true,
        ))
    }

    /// What is compared before publishing was compared, and nothing had changed.
    pub open spec fn may_publish(self) -> bool {
        &&& self.publish_guard is Some
        &&& self.publish_confirmed
        &&& self.current_loaded
        &&& self.sidecar_is_unchanged()
        &&& self.baseline_same is Some
        &&& self.publish_guard == Some(true) ==> self.baseline_same == Some(true)
    }

    /// The lock file beside the script was written exactly if there is one and the resolution
    /// changed.
    pub open spec fn is_written(self) -> bool {
        self.sidecar_written == (self.sidecar && self.is_updated())
    }

    /// The environment was installed, or installs nothing that the machine could lack. Only a
    /// machine that the platform was not named for is asked whether it can run the environment.
    pub open spec fn is_installed(self, options: RunOptions) -> bool {
        if options.platform_given {
            self.installed && self.classified is None
        } else {
            &&& self.classified is Some
            &&& self.classified != Some(Runnability::Unsupported)
            &&& self.installed == (self.classified != Some(Runnability::NoDependencies))
        }
    }

    /// After the installation, the resolution that counts was seen to be the one that was
    /// installed, as far as that can be told.
    pub open spec fn is_reconciled(self) -> bool {
        &&& self.reconcile_guard is Some
        &&& self.installed_confirmed
        &&& self.installed_sidecar is Some
        &&& self.installed_sidecar == Some(true) ==> self.sidecar
        &&& self.installed_loaded
        &&& self.candidate_same is Some
        &&& self.sidecar || self.reconcile_guard == Some(true) ==> self.candidate_same == Some(true)
        &&& self.state_refreshed == (self.sidecar && self.reconcile_guard == Some(true))
    }

    /// Nothing was published.
    pub open spec fn published_nothing(self) -> bool {
        &&& self.publish_guard is None
        &&& !self.publish_confirmed
        &&& self.current_sidecar is None
        &&& !self.current_loaded
        &&& self.sidecar_same is None
        &&& self.baseline_same is None
        &&& !self.sidecar_written
        &&& self.installed_nothing()
    }

    /// Nothing was stored or installed.
    pub open spec fn installed_nothing(self) -> bool {
        &&& !self.state_stored
        &&& self.classified is None
        &&& !self.installed
        &&& self.reconciled_nothing()
    }

    /// Nothing was looked at after an installation.
    pub open spec fn reconciled_nothing(self) -> bool {
        &&& self.reconcile_guard is None
        &&& !self.installed_confirmed
        &&& self.installed_sidecar is None
        &&& !self.installed_loaded
        &&& self.candidate_same is None
        &&& !self.state_refreshed
    }

    /// Nothing was solved.
    pub open spec fn solved_nothing(self) -> bool {
        &&& self.sufficient is None
        &&& self.prefix_same is None
        &&& self.exact is None
        &&& !self.dry_run_confirmed
        &&& self.published_nothing()
    }

    /// All that a run does before its environment is ready was done, in the attempt that ended it.
    pub open spec fn is_complete(self, options: RunOptions) -> bool {
        &&& self.has_solution(options)
        &&& if options.dry_run {
            self.dry_run_confirmed && self.published_nothing()
        } else {
            &&& !self.dry_run_confirmed
            &&& self.may_publish()
            &&& self.is_written()
            &&& if options.no_install {
                self.installed_nothing()
            } else {
                &&& self.state_stored == (self.publish_guard == Some(true))
                &&& self.is_installed(options)
                &&& self.is_reconciled()
            }
        }
    }

    /// What was just answered shows that the resolution changed under the run.
    pub open spec fn is_overtaken(self, phase: RunPhase) -> bool {
        match phase {
            RunPhase::CompareBaseline => !self.sidecar_is_unchanged() || (self.publish_guard
                == Some(true) && self.baseline_same == Some(false)),
            RunPhase::LoadInstalled => !self.sidecar && self.installed_sidecar == Some(true),
            RunPhase::CompareCandidate => self.candidate_same == Some(false) && (self.sidecar
                || self.reconcile_guard == Some(true)),
            _ => false,
        }
    }
}

/// What was answered in the attempt that a run is in.
pub open spec fn deeds(options: RunOptions, events: Seq<RunEvent>) -> RunDeeds
    decreases events.len(),
{
    if events.len() == 0 {
        RunDeeds::found(false)
    } else {
        deeds(options, events.drop_last()).noting(
            after(options, events.drop_last()).phase,
            events.last(),
        )
    }
}

/// The guard is held as it was had in the phases that need it, and in no others.
pub open spec fn guard_is_as_had(run: ScriptRun, deeds: RunDeeds) -> bool {
    run.guard == match run.phase {
        RunPhase::ConfirmBaseline | RunPhase::RecordSidecar | RunPhase::LoadBaseline =>
            deeds.initial_guard == Some(true),
        RunPhase::ConfirmPublish
        | RunPhase::FindCurrentSidecar
        | RunPhase::LoadCurrent
        | RunPhase::CompareSidecar
        | RunPhase::CompareBaseline
        | RunPhase::WriteSidecar
        | RunPhase::StoreState => deeds.publish_guard == Some(true),
        RunPhase::ConfirmInstalled
        | RunPhase::FindInstalledSidecar
        | RunPhase::LoadInstalled
        | RunPhase::CompareCandidate
        | RunPhase::RefreshState => deeds.reconcile_guard == Some(true),
        _ => false,
    }
}

/// What a run remembers is what was answered.
pub open spec fn memory_is_right(run: ScriptRun, deeds: RunDeeds) -> bool {
    &&& !(run.phase is FindSidecar || run.phase is Failed) ==> run.has_sidecar == deeds.sidecar
    &&& match run.phase {
        RunPhase::CheckPrefix
        | RunPhase::AcquirePublish
        | RunPhase::ConfirmPublish
        | RunPhase::FindCurrentSidecar
        | RunPhase::LoadCurrent
        | RunPhase::CompareSidecar
        | RunPhase::CompareBaseline
        | RunPhase::WriteSidecar => run.updated == deeds.is_updated(),
        _ => true,
    }
    &&& match run.phase {
        RunPhase::ChooseUsage
        | RunPhase::AcquireInitial
        | RunPhase::ConfirmBaseline
        | RunPhase::RecordSidecar
        | RunPhase::LoadBaseline => run.current_sidecar == deeds.sidecar,
        RunPhase::LoadCurrent
        | RunPhase::CompareSidecar
        | RunPhase::CompareBaseline => deeds.current_sidecar == Some(run.current_sidecar),
        RunPhase::LoadInstalled | RunPhase::CompareCandidate => deeds.installed_sidecar == Some(
            run.current_sidecar,
        ),
        _ => true,
    }
    &&& run.phase is CompareBaseline ==> run.sidecar_same == deeds.sidecar_is_unchanged()
}

/// What was done by the time a run is in a phase up to solving.
pub open spec fn is_on_plan_early(options: RunOptions, phase: RunPhase, deeds: RunDeeds) -> bool {
    let read = deeds.usage_chosen && deeds.initial_guard is Some;
    match phase {
        RunPhase::ChooseUsage => deeds == RunDeeds::found(deeds.sidecar),
        RunPhase::AcquireInitial => deeds == (RunDeeds {
            usage_chosen: true,
            ..RunDeeds::found(deeds.sidecar)
        }),
        RunPhase::ConfirmBaseline => read && !deeds.baseline_confirmed && !deeds.sidecar_recorded
            && !deeds.baseline_loaded && deeds.solved_nothing(),
        RunPhase::RecordSidecar => read && deeds.baseline_confirmed && deeds.sidecar
            && !deeds.sidecar_recorded && !deeds.baseline_loaded && deeds.solved_nothing(),
        RunPhase::LoadBaseline => read && deeds.baseline_confirmed && deeds.sidecar_recorded
            == deeds.sidecar && !deeds.baseline_loaded && deeds.solved_nothing(),
        RunPhase::Solve(SatisfiabilityMode::Sufficient) => deeds.has_baseline() && !deeds.sidecar
            && deeds.solved_nothing(),
        RunPhase::CheckPrefix => deeds.has_baseline() && !deeds.sidecar && deeds.sufficient == Some(
            false,
        ) && !options.dry_run && !options.no_install && deeds.prefix_same is None
            && deeds.exact is None && !deeds.dry_run_confirmed && deeds.published_nothing(),
        RunPhase::Solve(SatisfiabilityMode::Exact) => deeds.has_baseline() && deeds.exact is None
            && !deeds.dry_run_confirmed && deeds.published_nothing() && if deeds.sidecar {
            deeds.sufficient is None && deeds.prefix_same is None
        } else {
            deeds.sufficient == Some(false) && deeds.prefix_same == Some(false) && !options.dry_run
                && !options.no_install
        },
        _ => true,
    }
}

/// What was done by the time a run is in a phase from solving to publishing.
pub open spec fn is_on_plan_publishing(
    options: RunOptions,
    phase: RunPhase,
    deeds: RunDeeds,
) -> bool {
    let solved = deeds.has_solution(options) && !deeds.dry_run_confirmed;
    let open = solved && !options.dry_run && deeds.publish_guard is Some && !deeds.sidecar_written
        && deeds.installed_nothing();
    let compared = deeds.publish_confirmed && deeds.current_sidecar is Some && deeds.current_loaded;
    match phase {
        RunPhase::ConfirmDryRun => solved && options.dry_run && deeds.published_nothing(),
        RunPhase::AcquirePublish => solved && !options.dry_run && deeds.published_nothing(),
        RunPhase::ConfirmPublish => open && !deeds.publish_confirmed && deeds.current_sidecar is None
            && !deeds.current_loaded && deeds.sidecar_same is None && deeds.baseline_same is None,
        RunPhase::FindCurrentSidecar => open && deeds.publish_confirmed
            && deeds.current_sidecar is None && !deeds.current_loaded && deeds.sidecar_same is None
            && deeds.baseline_same is None,
        RunPhase::LoadCurrent => open && deeds.publish_confirmed && deeds.current_sidecar is Some
            && !deeds.current_loaded && deeds.sidecar_same is None && deeds.baseline_same is None,
        RunPhase::CompareSidecar => open && compared && deeds.sidecar && deeds.current_sidecar
            == Some(true) && deeds.sidecar_same is None && deeds.baseline_same is None,
        RunPhase::CompareBaseline => open && compared && deeds.baseline_same is None && (
        deeds.sidecar_same is Some <==> deeds.sidecar && deeds.current_sidecar == Some(true)),
        RunPhase::WriteSidecar => open && deeds.may_publish() && deeds.sidecar
            && deeds.is_updated(),
        RunPhase::StoreState => solved && !options.dry_run && deeds.may_publish()
            && deeds.is_written() && !options.no_install && deeds.publish_guard == Some(true)
            && deeds.installed_nothing(),
        _ => true,
    }
}

/// What was done by the time a run is in a phase from installing on.
pub open spec fn is_on_plan_late(options: RunOptions, phase: RunPhase, deeds: RunDeeds) -> bool {
    let published = deeds.has_solution(options) && !deeds.dry_run_confirmed && !options.dry_run
        && deeds.may_publish() && deeds.is_written() && !options.no_install && deeds.state_stored
        == (deeds.publish_guard == Some(true));
    let installed = published && deeds.is_installed(options);
    match phase {
        RunPhase::Classify => published && !options.platform_given && deeds.classified is None
            && !deeds.installed && deeds.reconciled_nothing(),
        RunPhase::Install => published && !deeds.installed && deeds.reconciled_nothing()
            && if options.platform_given {
            deeds.classified is None
        } else {
            deeds.classified is Some && deeds.classified != Some(Runnability::Unsupported)
                && deeds.classified != Some(Runnability::NoDependencies)
        },
        RunPhase::AcquireReconcile => installed && deeds.reconciled_nothing(),
        RunPhase::ConfirmInstalled => installed && deeds.reconcile_guard is Some
            && !deeds.installed_confirmed && deeds.installed_sidecar is None
            && !deeds.installed_loaded && deeds.candidate_same is None && !deeds.state_refreshed,
        RunPhase::FindInstalledSidecar => installed && deeds.reconcile_guard is Some
            && deeds.installed_confirmed && deeds.installed_sidecar is None
            && !deeds.installed_loaded && deeds.candidate_same is None && !deeds.state_refreshed,
        RunPhase::LoadInstalled => installed && deeds.reconcile_guard is Some
            && deeds.installed_confirmed && deeds.installed_sidecar is Some
            && !deeds.installed_loaded && deeds.candidate_same is None && !deeds.state_refreshed,
        RunPhase::CompareCandidate => installed && deeds.reconcile_guard is Some
            && deeds.installed_confirmed && deeds.installed_sidecar is Some && (
        deeds.installed_sidecar == Some(true) ==> deeds.sidecar) && deeds.installed_loaded
            && deeds.candidate_same is None && !deeds.state_refreshed,
        RunPhase::RefreshState => installed && deeds.reconcile_guard == Some(true)
            && deeds.installed_confirmed && deeds.installed_sidecar is Some
            && deeds.installed_loaded && deeds.candidate_same == Some(true) && deeds.sidecar
            && !deeds.state_refreshed,
        RunPhase::ReconcilePrefix => installed && deeds.reconcile_guard is Some
            && deeds.installed_confirmed && deeds.installed_sidecar is Some
            && deeds.installed_loaded && if deeds.candidate_same is None {
            deeds.is_overtaken(RunPhase::LoadInstalled)
        } else {
            deeds.is_overtaken(RunPhase::CompareCandidate)
        },
        RunPhase::Finished => deeds.is_complete(options),
        _ => true,
    }
}

/// A run has done what it must have done by now, nothing else, and remembers it.
pub open spec fn is_on_plan(options: RunOptions, run: ScriptRun, deeds: RunDeeds) -> bool {
    &&& run.options == options
    &&& 1 <= run.attempt <= 3
    &&& is_on_plan_early(options, run.phase, deeds)
    &&& is_on_plan_publishing(options, run.phase, deeds)
    &&& is_on_plan_late(options, run.phase, deeds)
    &&& guard_is_as_had(run, deeds)
    &&& memory_is_right(run, deeds)
}

/// A run that is on plan is so after the next event.
#[verifier::spinoff_prover]
#[verifier::rlimit(100)]
proof fn lemma_stays_on_plan(
    options: RunOptions,
    run: ScriptRun,
    deeds: RunDeeds,
    event: RunEvent,
)
    requires
        is_on_plan(options, run, deeds),
        run.awaits(event),
    ensures
        is_on_plan(options, run.next(event), deeds.noting(run.phase, event)),
{
    let next = run.next(event);
    let noted = deeds.noting(run.phase, event);
    assert(is_on_plan_early(options, next.phase, noted));
    assert(is_on_plan_publishing(options, next.phase, noted));
    assert(is_on_plan_late(options, next.phase, noted));
    assert(guard_is_as_had(next, noted));
    assert(memory_is_right(next, noted));
}

/// In every phase a run has done what comes before, in this attempt, and nothing that comes later:
/// it has read the resolution to start from before it solves, compared everything before it
/// publishes, published before it installs, and installed before it looks whether what was
/// installed still counts.
pub proof fn runs_do_one_thing_after_another(options: RunOptions, events: Seq<RunEvent>)
    requires
        is_course(options, events),
    ensures
        is_on_plan(options, after(options, events), deeds(options, events)),
    decreases events.len(),
{
    if events.len() > 0 {
        let front = events.drop_last();
        runs_do_one_thing_after_another(options, front);
        lemma_stays_on_plan(options, after(options, front), deeds(options, front), events.last());
    }
}

/// A run that ends well has done, in the attempt that ended it, all that makes its environment
/// ready. A dry run has confirmed its resolution and changed nothing.
pub proof fn finished_runs_did_everything(options: RunOptions, events: Seq<RunEvent>)
    requires
        is_course(options, events),
        after(options, events).phase is Finished,
    ensures
        deeds(options, events).is_complete(options),
{
    runs_do_one_thing_after_another(options, events);
}

/// A place of a course where something was answered, in the attempt in which the course is now.
pub open spec fn was_answered(
    options: RunOptions,
    events: Seq<RunEvent>,
    at: int,
    phase: RunPhase,
    event: RunEvent,
) -> bool {
    &&& 0 <= at < events.len()
    &&& after(options, events.take(at)).phase == phase
    &&& events[at] == event
    &&& after(options, events.take(at)).attempt == after(options, events).attempt
}

/// An attempt goes on unless the next phase is the first one.
proof fn lemma_same_attempt(run: ScriptRun, event: RunEvent)
    requires
        run.awaits(event),
        run.attempt <= 3,
        !(run.next(event).phase is FindSidecar),
    ensures
        run.next(event).attempt == run.attempt,
{
}

/// How it comes to be noted that something was installed, or how the machine runs it.
proof fn lemma_noting(deeds: RunDeeds, phase: RunPhase, event: RunEvent)
    ensures
        ({
            let noted = deeds.noting(phase, event);
            &&& noted.installed ==> (phase is Install && event == RunEvent::Done) || (
            deeds.installed && !(phase is FindSidecar))
            &&& noted.classified matches Some(runnability) ==> (phase is Classify && event
                == RunEvent::Classified(runnability)) || (deeds.classified == noted.classified && !(
            phase is FindSidecar))
        }),
{
}

/// What was answered in an attempt stays answered while the attempt goes on.
proof fn lemma_stays_answered(
    options: RunOptions,
    events: Seq<RunEvent>,
    at: int,
    phase: RunPhase,
    event: RunEvent,
)
    requires
        events.len() > 0,
        after(options, events).attempt == after(options, events.drop_last()).attempt,
        was_answered(options, events.drop_last(), at, phase, event) || (at == events.len() - 1
            && after(options, events.drop_last()).phase == phase && events.last() == event),
    ensures
        was_answered(options, events, at, phase, event),
{
    let front = events.drop_last();
    assert(events.take(front.len() as int) =~= front);
    if at < front.len() {
        assert(events.take(at) =~= front.take(at));
    }
}

/// The attempt goes on with the last event, unless the course is back in the first phase.
proof fn lemma_last_event(options: RunOptions, events: Seq<RunEvent>)
    requires
        is_course(options, events),
        events.len() > 0,
        !(after(options, events).phase is FindSidecar),
    ensures
        is_course(options, events.drop_last()),
        after(options, events).attempt == after(options, events.drop_last()).attempt,
        deeds(options, events) == deeds(options, events.drop_last()).noting(
            after(options, events.drop_last()).phase,
            events.last(),
        ),
{
    runs_do_one_thing_after_another(options, events.drop_last());
    lemma_same_attempt(after(options, events.drop_last()), events.last());
}

/// What was noted of an installation was answered.
proof fn lemma_installed(options: RunOptions, events: Seq<RunEvent>) -> (at: int)
    requires
        is_course(options, events),
        !(after(options, events).phase is FindSidecar),
        deeds(options, events).installed,
    ensures
        was_answered(options, events, at, RunPhase::Install, RunEvent::Done),
    decreases events.len(),
{
    assert(events.len() > 0);
    let front = events.drop_last();
    lemma_last_event(options, events);
    lemma_noting(deeds(options, front), after(options, front).phase, events.last());
    let at = if after(options, front).phase is Install && events.last() == RunEvent::Done {
        events.len() - 1
    } else {
        lemma_installed(options, front)
    };
    lemma_stays_answered(options, events, at, RunPhase::Install, RunEvent::Done);
    at
}

/// What was noted of the machine was answered.
proof fn lemma_classified(options: RunOptions, events: Seq<RunEvent>) -> (at: int)
    requires
        is_course(options, events),
        !(after(options, events).phase is FindSidecar),
        deeds(options, events).classified is Some,
    ensures
        was_answered(
            options,
            events,
            at,
            RunPhase::Classify,
            RunEvent::Classified(deeds(options, events).classified->Some_0),
        ),
    decreases events.len(),
{
    assert(events.len() > 0);
    let front = events.drop_last();
    let answer = RunEvent::Classified(deeds(options, events).classified->Some_0);
    lemma_last_event(options, events);
    lemma_noting(deeds(options, front), after(options, front).phase, events.last());
    let at = if after(options, front).phase is Classify && events.last() == answer {
        events.len() - 1
    } else {
        lemma_classified(options, front)
    };
    lemma_stays_answered(options, events, at, RunPhase::Classify, answer);
    at
}

/// A run that ends well, and was neither a dry run nor one that is not to install, has installed
/// the environment in the attempt that ended it, unless the machine was seen to lack nothing.
pub proof fn finished_runs_are_installed(options: RunOptions, events: Seq<RunEvent>)
    requires
        is_course(options, events),
        after(options, events).phase is Finished,
        !options.dry_run,
        !options.no_install,
    ensures
        exists|at: int|
            #![trigger events[at]]
            was_answered(options, events, at, RunPhase::Install, RunEvent::Done) || was_answered(
                options,
                events,
                at,
                RunPhase::Classify,
                RunEvent::Classified(Runnability::NoDependencies),
            ),
{
    finished_runs_did_everything(options, events);
    let at = if deeds(options, events).installed {
        lemma_installed(options, events)
    } else {
        lemma_classified(options, events)
    };
    assert(events[at] == events[at]);
}

/// What a run does about an answer: it fails if that was a failure, or if the machine cannot run
/// the environment. It starts again exactly if the answer shows that the resolution changed under
/// it, and the last time it fails then, once the environment is in line if one was installed.
pub proof fn only_changes_start_a_run_again(
    options: RunOptions,
    events: Seq<RunEvent>,
    event: RunEvent,
)
    requires
        is_course(options, events),
        after(options, events).awaits(event),
    ensures
        ({
            let before = after(options, events);
            let run = after(options, events.push(event));
            let overtaken = deeds(options, events.push(event)).is_overtaken(before.phase)
                && !(event is Failed);
            let last = before.attempt == 3;
            &&& run.phase == RunPhase::Failed(RunFailure::Step) <==> event is Failed
            &&& run.phase == RunPhase::Failed(RunFailure::Unsupported) <==> before.phase is Classify
                && event == RunEvent::Classified(Runnability::Unsupported)
            &&& run.phase is FindSidecar <==> overtaken && !last
            &&& run.attempt == if overtaken && !last {
                before.attempt + 1
            } else {
                before.attempt as int
            }
            &&& run.phase is ReconcilePrefix <==> overtaken && last && !(
            before.phase is CompareBaseline)
            &&& run.phase == RunPhase::Failed(RunFailure::Conflict) <==> (overtaken && last
                && before.phase is CompareBaseline) || (before.phase is ReconcilePrefix && event
                == RunEvent::Done)
        }),
{
    assert(events.push(event).drop_last() =~= events);
    runs_do_one_thing_after_another(options, events);
    lemma_one_answer(options, after(options, events), deeds(options, events), event);
}

/// What a run on plan does about an answer.
#[verifier::spinoff_prover]
#[verifier::rlimit(100)]
proof fn lemma_one_answer(
    options: RunOptions,
    before: ScriptRun,
    deeds: RunDeeds,
    event: RunEvent,
)
    requires
        is_on_plan(options, before, deeds),
        before.awaits(event),
    ensures
        ({
            let run = before.next(event);
            let overtaken = deeds.noting(before.phase, event).is_overtaken(before.phase) && !(
            event is Failed);
            let last = before.attempt == 3;
            &&& run.phase == RunPhase::Failed(RunFailure::Step) <==> event is Failed
            &&& run.phase == RunPhase::Failed(RunFailure::Unsupported) <==> before.phase is Classify
                && event == RunEvent::Classified(Runnability::Unsupported)
            &&& run.phase is FindSidecar <==> overtaken && !last
            &&& run.attempt == if overtaken && !last {
                before.attempt + 1
            } else {
                before.attempt as int
            }
            &&& run.phase is ReconcilePrefix <==> overtaken && last && !(
            before.phase is CompareBaseline)
            &&& run.phase == RunPhase::Failed(RunFailure::Conflict) <==> (overtaken && last
                && before.phase is CompareBaseline) || (before.phase is ReconcilePrefix && event
                == RunEvent::Done)
        }),
{
}

} // verus!
