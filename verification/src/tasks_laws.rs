//! What has been done about a task by the time its course is in a phase, and how many tasks were
//! run.
//!
//! The laws speak of what was answered since the task was named, not of how the course got from
//! one phase to the next.
use vstd::prelude::*;

use crate::run_script::Runnability;
use crate::tasks::{
    after, is_course, TaskCourse, TaskEvent, TaskFailure, TaskOptions, TaskPhase,
};

verus! {

/// What was answered since a task was named. What was not asked yet has no answer.
pub struct TaskDeeds {
    pub executable: bool,
    pub custom: bool,
    pub classified: Option<Runnability>,
    pub announced: bool,
    pub cached: Option<bool>,
    pub ready: Option<bool>,
    pub installed: bool,
    pub activated: bool,
    pub exit: Option<i32>,
    pub saved: bool,
}

impl TaskDeeds {
    /// A task was named, and nothing was answered about it.
    pub open spec fn named(executable: bool, custom: bool) -> TaskDeeds {
        TaskDeeds {
            executable,
            custom,
            classified: None,
            announced: false,
            cached: None,
            ready: None,
            installed: false,
            activated: false,
            exit: None,
            saved: false,
        }
    }

    /// What was answered, once this was answered too.
    pub open spec fn noting(self, phase: TaskPhase, event: TaskEvent) -> TaskDeeds {
        match (phase, event) {
            (TaskPhase::NextTask, TaskEvent::Task { executable, custom }) => TaskDeeds::named(
                executable,
                custom,
            ),
            (TaskPhase::Classify, TaskEvent::Classified(runnability)) => TaskDeeds {
                classified: Some(runnability),
                ..self
            },
            (TaskPhase::Announce, TaskEvent::Done) => TaskDeeds { announced: true, ..self },
            (TaskPhase::CheckCache, TaskEvent::Cached(hit)) => TaskDeeds {
                cached: Some(hit),
                ..self
            },
            (TaskPhase::FindEnvironment, TaskEvent::Ready(ready)) => TaskDeeds {
                ready: Some(ready),
                ..self
            },
            (TaskPhase::Install, TaskEvent::Done) => TaskDeeds { installed: true, ..self },
            (TaskPhase::Activate, TaskEvent::Done) => TaskDeeds { activated: true, ..self },
            (TaskPhase::Execute, TaskEvent::Exit(code)) => TaskDeeds { exit: Some(code), ..self },
            (TaskPhase::SaveCache, TaskEvent::Done) => TaskDeeds { saved: true, ..self },
            _ => self,
        }
    }

    /// The machine is asked whether it can run the environment exactly where that may be
    /// installed for it, and it can.
    pub open spec fn is_accepted(self, options: TaskOptions) -> bool {
        &&& self.executable
        &&& self.classified is Some <==> options.allow_installs && !options.platform_given
        &&& self.classified != Some(Runnability::Unsupported)
    }

    /// The task was shown, exactly if tasks are shown and it was not typed in.
    pub open spec fn is_shown(self, options: TaskOptions) -> bool {
        self.is_accepted(options) && self.announced == (options.announce && !self.custom)
    }

    /// Nothing was run.
    pub open spec fn ran_nothing(self) -> bool {
        &&& self.ready is None
        &&& !self.installed
        &&& !self.activated
        &&& self.exit is None
        &&& !self.saved
    }

    /// The environment of the task is to be installed: it is not ready, and is that of a workspace
    /// which may be installed and has dependencies.
    pub open spec fn lacks_environment(self, options: TaskOptions) -> bool {
        &&& self.ready == Some(false)
        &&& !options.is_script
        &&& options.allow_installs
        &&& self.classified != Some(Runnability::NoDependencies)
    }

    /// The task is not cached, and its environment is ready: it was so before, or it was installed
    /// if need be and then activated.
    pub open spec fn has_environment(self, options: TaskOptions) -> bool {
        &&& self.is_shown(options)
        &&& !options.dry_run
        &&& self.cached == Some(false)
        &&& self.ready is Some
        &&& self.installed == self.lacks_environment(options)
        &&& self.activated == (self.ready == Some(false))
    }

    /// The task is dealt with: it stands for others, was only to be shown, was found in the cache,
    /// or was run with success and noted.
    pub open spec fn is_dealt_with(self, options: TaskOptions) -> bool {
        if !self.executable {
            self == TaskDeeds::named(false, self.custom)
        } else if options.dry_run {
            self.is_shown(options) && self.cached is None && self.ran_nothing()
        } else if self.cached == Some(true) {
            self.is_shown(options) && self.ran_nothing()
        } else {
            self.has_environment(options) && self.exit == Some(0i32) && self.saved
        }
    }
}

/// What was answered about the task that the course is at.
pub open spec fn deeds(options: TaskOptions, events: Seq<TaskEvent>) -> TaskDeeds
    decreases events.len(),
{
    if events.len() == 0 {
        TaskDeeds::named(false, false)
    } else {
        deeds(options, events.drop_last()).noting(
            after(options, events.drop_last()).phase,
            events.last(),
        )
    }
}

/// The course has done what it must have done about the task by now, nothing else, and remembers
/// it.
pub open spec fn is_on_plan(options: TaskOptions, course: TaskCourse, deeds: TaskDeeds) -> bool {
    let blank = deeds.ran_nothing();
    &&& course.options == options
    &&& !(course.phase is Failed) ==> course.custom == deeds.custom && course.dependency_free == (
    deeds.classified == Some(Runnability::NoDependencies))
    &&& match course.phase {
        TaskPhase::NextTask => deeds.is_dealt_with(options),
        TaskPhase::Finished => deeds.is_dealt_with(options),
        TaskPhase::Classify => deeds == TaskDeeds::named(true, deeds.custom)
            && options.allow_installs && !options.platform_given,
        TaskPhase::Announce => deeds.is_accepted(options) && options.announce && !deeds.custom
            && !deeds.announced && deeds.cached is None && blank,
        TaskPhase::CheckCache => deeds.is_shown(options) && !options.dry_run && deeds.cached is None
            && blank,
        TaskPhase::FindEnvironment => deeds.is_shown(options) && !options.dry_run && deeds.cached
            == Some(false) && blank,
        TaskPhase::Install => deeds.is_shown(options) && !options.dry_run && deeds.cached == Some(
            false,
        ) && deeds.lacks_environment(options) && !deeds.installed && !deeds.activated
            && deeds.exit is None && !deeds.saved,
        TaskPhase::Activate => deeds.is_shown(options) && !options.dry_run && deeds.cached == Some(
            false,
        ) && deeds.ready == Some(false) && deeds.installed == deeds.lacks_environment(options)
            && !deeds.activated && deeds.exit is None && !deeds.saved,
        TaskPhase::Execute => deeds.has_environment(options) && deeds.exit is None && !deeds.saved,
        TaskPhase::SaveCache => deeds.has_environment(options) && deeds.exit == Some(0i32)
            && !deeds.saved,
        TaskPhase::Exited(code) => deeds.has_environment(options) && deeds.exit == Some(code)
            && code != 0 && !deeds.saved,
        TaskPhase::Failed(_) => true,
    }
}

/// A course that is on plan is so after the next event.
#[verifier::spinoff_prover]
#[verifier::rlimit(50)]
proof fn lemma_stays_on_plan(
    options: TaskOptions,
    course: TaskCourse,
    deeds: TaskDeeds,
    event: TaskEvent,
)
    requires
        is_on_plan(options, course, deeds),
        course.awaits(event),
    ensures
        is_on_plan(options, course.next(event), deeds.noting(course.phase, event)),
{
}

/// In every phase the course has done about a task what comes before, and nothing that comes
/// later. It is at the next task, or finished, only once the task is dealt with: unless only to be
/// shown, an executable task was found in the cache, or was run in a ready environment and ended
/// with success.
pub proof fn tasks_are_dealt_with_in_order(options: TaskOptions, events: Seq<TaskEvent>)
    requires
        is_course(options, events),
    ensures
        is_on_plan(options, after(options, events), deeds(options, events)),
    decreases events.len(),
{
    if events.len() > 0 {
        let front = events.drop_last();
        tasks_are_dealt_with_in_order(options, front);
        lemma_stays_on_plan(options, after(options, front), deeds(options, front), events.last());
    }
}

/// How many of the events say this.
pub open spec fn times(events: Seq<TaskEvent>, said: spec_fn(TaskEvent) -> bool) -> nat {
    events.filter(said).len()
}

/// How many executable tasks were named.
pub open spec fn named(events: Seq<TaskEvent>) -> nat {
    times(events, |event: TaskEvent| event matches TaskEvent::Task { executable, .. } && executable)
}

/// How many tasks were found in the cache.
pub open spec fn found_cached(events: Seq<TaskEvent>) -> nat {
    times(events, |event: TaskEvent| event == TaskEvent::Cached(true))
}

/// How many tasks were run and ended with success.
pub open spec fn succeeded(events: Seq<TaskEvent>) -> nat {
    times(events, |event: TaskEvent| event == TaskEvent::Exit(0i32))
}

/// How many tasks were run.
pub open spec fn executed(events: Seq<TaskEvent>) -> nat {
    times(events, |event: TaskEvent| event is Exit)
}

/// Events are counted one by one.
proof fn lemma_times(events: Seq<TaskEvent>, said: spec_fn(TaskEvent) -> bool)
    requires
        events.len() > 0,
    ensures
        times(events, said) == times(events.drop_last(), said) + if said(events.last()) {
            1nat
        } else {
            0nat
        },
{
    reveal(Seq::filter);
}

/// The course is in the middle of a task.
pub open spec fn is_in_task(phase: TaskPhase) -> bool {
    !(phase is NextTask || phase is SaveCache || phase is Finished || phase is Failed)
}

/// How the course gets into and out of a task.
proof fn lemma_in_task(course: TaskCourse, event: TaskEvent)
    requires
        course.awaits(event),
        !course.options.dry_run,
    ensures
        ({
            let next = course.next(event);
            let begins = event matches TaskEvent::Task { executable, .. } && executable;
            let ends = event == TaskEvent::Cached(true) || event == TaskEvent::Exit(0i32);
            &&& begins ==> !is_in_task(course.phase) && is_in_task(next.phase)
            &&& ends ==> is_in_task(course.phase) && !is_in_task(next.phase)
            &&& !begins && !ends && !(next.phase is Failed) ==> is_in_task(course.phase)
                == is_in_task(next.phase)
            &&& course.phase is Failed ==> next.phase is Failed
        }),
{
}

/// Unless tasks are only to be shown, each executable task that was named was found in the cache
/// or was run with success, once the course is at the next task or finished. No more than one is
/// ever open.
pub proof fn every_task_is_run(options: TaskOptions, events: Seq<TaskEvent>)
    requires
        is_course(options, events),
        !options.dry_run,
    ensures
        after(options, events).phase is NextTask || after(options, events).phase is Finished
            ==> named(events) == found_cached(events) + succeeded(events),
        !(after(options, events).phase is Failed) ==> named(events) == found_cached(events)
            + succeeded(events) + if is_in_task(after(options, events).phase) {
            1nat
        } else {
            0nat
        },
    decreases events.len(),
{
    reveal(Seq::filter);
    if events.len() > 0 {
        let front = events.drop_last();
        let course = after(options, front);
        assert(is_course(options, front) && course.awaits(events.last()));
        every_task_is_run(options, front);
        tasks_are_dealt_with_in_order(options, front);
        lemma_in_task(course, events.last());
        lemma_times(
            events,
            |event: TaskEvent| event matches TaskEvent::Task { executable, .. } && executable,
        );
        lemma_times(events, |event: TaskEvent| event == TaskEvent::Cached(true));
        lemma_times(events, |event: TaskEvent| event == TaskEvent::Exit(0i32));
        assert(!(course.phase is Failed));
    }
}

/// Where tasks are only to be shown, none is run.
pub proof fn shown_tasks_are_not_run(options: TaskOptions, events: Seq<TaskEvent>)
    requires
        is_course(options, events),
        options.dry_run,
    ensures
        executed(events) == 0,
        found_cached(events) == 0,
    decreases events.len(),
{
    reveal(Seq::filter);
    if events.len() > 0 {
        let front = events.drop_last();
        assert(is_course(options, front) && after(options, front).awaits(events.last()));
        shown_tasks_are_not_run(options, front);
        tasks_are_dealt_with_in_order(options, front);
        lemma_times(events, |event: TaskEvent| event is Exit);
        lemma_times(events, |event: TaskEvent| event == TaskEvent::Cached(true));
    }
}

/// How far a task has come in a phase.
pub open spec fn stage(phase: TaskPhase) -> int {
    match phase {
        TaskPhase::NextTask => 0,
        TaskPhase::Classify => 1,
        TaskPhase::Announce => 2,
        TaskPhase::CheckCache => 3,
        TaskPhase::FindEnvironment => 4,
        TaskPhase::Install => 5,
        TaskPhase::Activate => 6,
        TaskPhase::Execute => 7,
        TaskPhase::SaveCache => 8,
        _ => 9,
    }
}

/// What the course does about an answer. It fails only if that was a failure, or if the machine
/// cannot run the environment. It is finished exactly if there are no more tasks, and ends with
/// the code of a task exactly if that is not zero. Otherwise the task comes forward, or the course
/// goes on to the next one. Once a task was dealt with, what follows is set off from it.
pub proof fn tasks_come_forward(options: TaskOptions, events: Seq<TaskEvent>, event: TaskEvent)
    requires
        is_course(options, events),
        after(options, events).awaits(event),
    ensures
        ({
            let before = after(options, events);
            let course = after(options, events.push(event));
            let task = deeds(options, events.push(event));
            &&& course.phase == TaskPhase::Failed(TaskFailure::Step) <==> event is Failed
            &&& course.phase == TaskPhase::Failed(TaskFailure::Unsupported) <==> event
                == TaskEvent::Classified(Runnability::Unsupported)
            &&& course.phase is Finished <==> event is NoMoreTasks
            &&& course.phase is Exited <==> event is Exit && event != TaskEvent::Exit(0i32)
            &&& course.phase matches TaskPhase::Exited(code) ==> event == TaskEvent::Exit(code)
            &&& course.phase is NextTask || stage(course.phase) > stage(before.phase)
            &&& course.follows == (before.follows || event == TaskEvent::Cached(true) || event
                == TaskEvent::Exit(0i32) || (options.dry_run && task.executable
                && course.phase is NextTask))
        }),
{
    assert(events.push(event).drop_last() =~= events);
    tasks_are_dealt_with_in_order(options, events);
    lemma_follows(options, events);
    lemma_one_answer(options, after(options, events), deeds(options, events), event);
}

/// Where tasks are only to be shown, one that was passed over is followed.
proof fn lemma_follows(options: TaskOptions, events: Seq<TaskEvent>)
    requires
        is_course(options, events),
    ensures
        options.dry_run && deeds(options, events).executable && after(options, events).phase is NextTask
            ==> after(options, events).follows,
    decreases events.len(),
{
    if events.len() > 0 {
        let front = events.drop_last();
        assert(is_course(options, front) && after(options, front).awaits(events.last()));
        tasks_are_dealt_with_in_order(options, front);
        lemma_follows(options, front);
        lemma_follows_step(options, after(options, front), deeds(options, front), events.last());
    }
}

/// Where tasks are only to be shown, one that is passed over is followed.
proof fn lemma_follows_step(
    options: TaskOptions,
    before: TaskCourse,
    deeds: TaskDeeds,
    event: TaskEvent,
)
    requires
        is_on_plan(options, before, deeds),
        before.awaits(event),
        options.dry_run && deeds.executable && before.phase is NextTask ==> before.follows,
    ensures
        options.dry_run && deeds.noting(before.phase, event).executable && before.next(
            event,
        ).phase is NextTask ==> before.next(event).follows,
{
}

/// What a course on plan does about an answer.
#[verifier::spinoff_prover]
#[verifier::rlimit(50)]
proof fn lemma_one_answer(
    options: TaskOptions,
    before: TaskCourse,
    deeds: TaskDeeds,
    event: TaskEvent,
)
    requires
        is_on_plan(options, before, deeds),
        before.awaits(event),
    ensures
        ({
            let course = before.next(event);
            let task = deeds.noting(before.phase, event);
            &&& course.phase == TaskPhase::Failed(TaskFailure::Step) <==> event is Failed
            &&& course.phase == TaskPhase::Failed(TaskFailure::Unsupported) <==> event
                == TaskEvent::Classified(Runnability::Unsupported)
            &&& course.phase is Finished <==> event is NoMoreTasks
            &&& course.phase is Exited <==> event is Exit && event != TaskEvent::Exit(0i32)
            &&& course.phase matches TaskPhase::Exited(code) ==> event == TaskEvent::Exit(code)
            &&& course.phase is NextTask || stage(course.phase) > stage(before.phase)
            &&& course.follows == (before.follows || event == TaskEvent::Cached(true) || event
                == TaskEvent::Exit(0i32) || (options.dry_run && task.executable
                && course.phase is NextTask))
        }),
{
}

} // verus!
