//! The course of running the tasks that were asked for, one after the other.
//!
//! This module decides what is done next; the caller does it and reports what came of it.
use vstd::prelude::*;

use crate::run_script::Runnability;

verus! {

/// The exit code of a shell that did not find its command.
pub const COMMAND_NOT_FOUND: i32 = 127;

/// What was asked for.
#[derive(Debug, Clone, Copy, PartialEq, Eq, Structural)]
pub struct TaskOptions {
    /// A script is run. Its environment is ready by now.
    pub is_script: bool,
    /// Environments may be installed.
    pub allow_installs: bool,
    /// The platform was named.
    pub platform_given: bool,
    /// Show what would be run, and run nothing.
    pub dry_run: bool,
    /// What is run is shown.
    pub announce: bool,
}

/// Why the tasks could not all be run.
#[derive(Debug, Clone, Copy, PartialEq, Eq, Structural)]
pub enum TaskFailure {
    /// The machine cannot run the environment of a task.
    Unsupported,
    /// What was to be done failed.
    Step,
}

/// What is to be done next.
#[derive(Debug, Clone, Copy, PartialEq, Eq, Structural)]
pub enum TaskPhase {
    /// See what the next task is.
    NextTask,
    /// See whether the machine can run the task's environment.
    Classify,
    /// Show the task.
    Announce,
    /// See whether what the task makes is there already.
    CheckCache,
    /// See whether the task's environment is ready.
    FindEnvironment,
    /// Install the task's environment, and see whether the machine can run what was installed.
    Install,
    /// Activate the task's environment.
    Activate,
    /// Run the task.
    Execute,
    /// Note what the task made.
    SaveCache,
    /// Nothing: all tasks were run.
    Finished,
    /// End with this exit code, that of a task.
    Exited(i32),
    /// Nothing: the tasks could not all be run.
    Failed(TaskFailure),
}

/// What came of what was done.
#[derive(Debug, Clone, Copy, PartialEq, Eq, Structural)]
pub enum TaskEvent {
    /// It is done.
    Done,
    /// This is the next task. One that is not executable stands for others. A custom one was
    /// typed in, not looked up.
    Task { executable: bool, custom: bool },
    /// There are no more tasks.
    NoMoreTasks,
    /// This is how the machine can run the environment.
    Classified(Runnability),
    /// What the task makes is there, or not.
    Cached(bool),
    /// The environment is ready, or not.
    Ready(bool),
    /// The task ended with this exit code.
    Exit(i32),
    /// It failed.
    Failed,
}

/// Tasks on their way.
#[derive(Debug, Clone, Copy, PartialEq, Eq, Structural)]
pub struct TaskCourse {
    pub options: TaskOptions,
    pub phase: TaskPhase,
    /// A task was dealt with before this one, so its output is set off from what follows.
    pub follows: bool,
    /// The task was typed in.
    pub custom: bool,
    /// The task's environment installs nothing that the machine could lack.
    pub dependency_free: bool,
}

impl TaskCourse {
    /// Nothing has been done yet.
    pub open spec fn begun(options: TaskOptions) -> TaskCourse {
        TaskCourse {
            options,
            phase: TaskPhase::NextTask,
            follows: false,
            custom: false,
            dependency_free: false,
        }
    }

    /// The event is an answer to what was to be done.
    pub open spec fn awaits(self, event: TaskEvent) -> bool {
        match self.phase {
            TaskPhase::Finished | TaskPhase::Exited(_) | TaskPhase::Failed(_) => false,
            TaskPhase::NextTask => event is Task || event is NoMoreTasks || event is Failed,
            TaskPhase::Classify => event is Classified || event is Failed,
            TaskPhase::CheckCache => event is Cached || event is Failed,
            TaskPhase::FindEnvironment => event is Ready || event is Failed,
            TaskPhase::Execute => event is Exit || event is Failed,
            _ => event is Done || event is Failed,
        }
    }

    /// In another phase.
    pub open spec fn at(self, phase: TaskPhase) -> TaskCourse {
        TaskCourse { phase, ..self }
    }

    /// Done with a task.
    pub open spec fn passed(self, phase: TaskPhase) -> TaskCourse {
        TaskCourse { phase, follows: true, ..self }
    }

    /// Where a task goes once it was shown.
    pub open spec fn shown(self) -> TaskCourse {
        if self.options.dry_run {
            self.passed(TaskPhase::NextTask)
        } else {
            self.at(TaskPhase::CheckCache)
        }
    }

    /// Where a task goes once the machine is known to run its environment.
    pub open spec fn accepted(self) -> TaskCourse {
        if self.options.announce && !self.custom {
            self.at(TaskPhase::Announce)
        } else {
            self.shown()
        }
    }

    /// Where this goes after an event.
    pub open spec fn next(self, event: TaskEvent) -> TaskCourse {
        match (self.phase, event) {
            (_, TaskEvent::Failed) => self.at(TaskPhase::Failed(TaskFailure::Step)),
            (TaskPhase::NextTask, TaskEvent::NoMoreTasks) => self.at(TaskPhase::Finished),
            (TaskPhase::NextTask, TaskEvent::Task { executable, custom }) => {
                let begun = TaskCourse { custom, dependency_free: false, ..self };
                if !executable {
                    begun
                } else if self.options.allow_installs && !self.options.platform_given {
                    begun.at(TaskPhase::Classify)
                } else {
                    begun.accepted()
                }
            },
            (TaskPhase::Classify, TaskEvent::Classified(runnability)) => {
                if runnability == Runnability::Unsupported {
                    self.at(TaskPhase::Failed(TaskFailure::Unsupported))
                } else {
                    (TaskCourse {
                        dependency_free: runnability == Runnability::NoDependencies,
                        ..self
                    }).accepted()
                }
            },
            (TaskPhase::Announce, TaskEvent::Done) => self.shown(),
            (TaskPhase::CheckCache, TaskEvent::Cached(hit)) => if hit {
                self.passed(TaskPhase::NextTask)
            } else {
                self.at(TaskPhase::FindEnvironment)
            },
            (TaskPhase::FindEnvironment, TaskEvent::Ready(ready)) => if ready {
                self.at(TaskPhase::Execute)
            } else if !self.options.is_script && self.options.allow_installs
                && !self.dependency_free {
                self.at(TaskPhase::Install)
            } else {
                self.at(TaskPhase::Activate)
            },
            (TaskPhase::Install, TaskEvent::Done) => self.at(TaskPhase::Activate),
            (TaskPhase::Activate, TaskEvent::Done) => self.at(TaskPhase::Execute),
            (TaskPhase::Execute, TaskEvent::Exit(code)) => if code == 0 {
                self.passed(TaskPhase::SaveCache)
            } else {
                self.at(TaskPhase::Exited(code))
            },
            (TaskPhase::SaveCache, TaskEvent::Done) => self.at(TaskPhase::NextTask),
            _ => self,
        }
    }

    /// Begins.
    pub fn new(options: TaskOptions) -> (course: TaskCourse)
        ensures
            course == Self::begun(options),
    {
        TaskCourse {
            options,
            phase: TaskPhase::NextTask,
            follows: false,
            custom: false,
            dependency_free: false,
        }
    }

    /// Whether to list the tasks that could have been meant: a command was not found.
    pub fn lists_tasks(&self) -> (lists: bool)
        ensures
            lists == (self.phase == TaskPhase::Exited(127)),
    {
        match self.phase {
            TaskPhase::Exited(code) => code == COMMAND_NOT_FOUND,
            _ => false,
        }
    }

    /// Goes on with a task that was shown.
    fn pass_shown(&mut self)
        ensures
            *final(self) == old(self).shown(),
    {
        if self.options.dry_run {
            self.follows = true;
            self.phase = TaskPhase::NextTask;
        } else {
            self.phase = TaskPhase::CheckCache;
        }
    }

    /// Goes on with a task whose environment the machine can run.
    fn accept(&mut self)
        ensures
            *final(self) == old(self).accepted(),
    {
        if self.options.announce && !self.custom {
            self.phase = TaskPhase::Announce;
        } else {
            self.pass_shown();
        }
    }

    /// Goes on after an event.
    pub fn step(&mut self, event: TaskEvent)
        requires
            old(self).awaits(event),
        ensures
            *final(self) == old(self).next(event),
    {
        match (self.phase, event) {
            (_, TaskEvent::Failed) => {
                self.phase = TaskPhase::Failed(TaskFailure::Step);
            },
            (TaskPhase::NextTask, TaskEvent::NoMoreTasks) => {
                self.phase = TaskPhase::Finished;
            },
            (TaskPhase::NextTask, TaskEvent::Task { executable, custom }) => {
                self.custom = custom;
                self.dependency_free = false;
                if executable {
                    if self.options.allow_installs && !self.options.platform_given {
                        self.phase = TaskPhase::Classify;
                    } else {
                        self.accept();
                    }
                }
            },
            (TaskPhase::Classify, TaskEvent::Classified(runnability)) => {
                if runnability == Runnability::Unsupported {
                    self.phase = TaskPhase::Failed(TaskFailure::Unsupported);
                } else {
                    self.dependency_free = runnability == Runnability::NoDependencies;
                    self.accept();
                }
            },
            (TaskPhase::Announce, TaskEvent::Done) => {
                self.pass_shown();
            },
            (TaskPhase::CheckCache, TaskEvent::Cached(hit)) => {
                if hit {
                    self.follows = true;
                    self.phase = TaskPhase::NextTask;
                } else {
                    self.phase = TaskPhase::FindEnvironment;
                }
            },
            (TaskPhase::FindEnvironment, TaskEvent::Ready(ready)) => {
                if ready {
                    self.phase = TaskPhase::Execute;
                } else if !self.options.is_script && self.options.allow_installs
                    && !self.dependency_free {
                    self.phase = TaskPhase::Install;
                } else {
                    self.phase = TaskPhase::Activate;
                }
            },
            (TaskPhase::Install, TaskEvent::Done) => {
                self.phase = TaskPhase::Activate;
            },
            (TaskPhase::Activate, TaskEvent::Done) => {
                self.phase = TaskPhase::Execute;
            },
            (TaskPhase::Execute, TaskEvent::Exit(code)) => {
                if code == 0 {
                    self.follows = true;
                    self.phase = TaskPhase::SaveCache;
                } else {
                    self.phase = TaskPhase::Exited(code);
                }
            },
            (TaskPhase::SaveCache, TaskEvent::Done) => {
                self.phase = TaskPhase::NextTask;
            },
            _ => {},
        }
    }
}

/// Where this is after these events.
pub open spec fn after(options: TaskOptions, events: Seq<TaskEvent>) -> TaskCourse
    decreases events.len(),
{
    if events.len() == 0 {
        TaskCourse::begun(options)
    } else {
        after(options, events.drop_last()).next(events.last())
    }
}

/// Each event is an answer to what was to be done.
pub open spec fn is_course(options: TaskOptions, events: Seq<TaskEvent>) -> bool
    decreases events.len(),
{
    events.len() == 0 || (is_course(options, events.drop_last()) && after(
        options,
        events.drop_last(),
    ).awaits(events.last()))
}

/// What holds throughout.
proof fn lemma_sound(options: TaskOptions, events: Seq<TaskEvent>)
    requires
        is_course(options, events),
    ensures
        after(options, events).options == options,
        options.dry_run ==> {
            let phase = after(options, events).phase;
            phase is NextTask || phase is Classify || phase is Announce || phase is Finished
                || phase is Failed
        },
        after(options, events).phase is Install ==> !options.is_script && options.allow_installs
            && !after(options, events).dependency_free,
    decreases events.len(),
{
    if events.len() > 0 {
        lemma_sound(options, events.drop_last());
    }
}

/// A dry run runs nothing, installs nothing and activates nothing.
pub proof fn dry_run_executes_nothing(options: TaskOptions, events: Seq<TaskEvent>)
    requires
        is_course(options, events),
        options.dry_run,
    ensures
        !(after(options, events).phase is Execute),
        !(after(options, events).phase is Install),
        !(after(options, events).phase is Activate),
        !(after(options, events).phase is SaveCache),
{
    lemma_sound(options, events);
}

/// The environment of a task is installed only for a workspace, only where installing is allowed,
/// and only if it has dependencies.
pub proof fn installation_is_allowed(options: TaskOptions, events: Seq<TaskEvent>)
    requires
        is_course(options, events),
        after(options, events).phase is Install,
    ensures
        !options.is_script,
        options.allow_installs,
        !after(options, events).dependency_free,
{
    lemma_sound(options, events);
}

/// A task is run only in an environment that is ready: it was ready already, or was activated
/// just before.
pub proof fn execution_follows_activation(options: TaskOptions, events: Seq<TaskEvent>)
    requires
        is_course(options, events),
        after(options, events).phase is Execute,
    ensures
        events.len() > 0,
        (after(options, events.drop_last()).phase is Activate && events.last() == TaskEvent::Done)
            || (after(options, events.drop_last()).phase is FindEnvironment && events.last()
            == TaskEvent::Ready(true)),
{
}

/// The first task that fails ends the run with its exit code.
pub proof fn failing_task_ends_the_run(options: TaskOptions, events: Seq<TaskEvent>, code: i32)
    requires
        is_course(options, events),
        after(options, events).phase == TaskPhase::Exited(code),
    ensures
        code != 0,
        events.last() == TaskEvent::Exit(code),
        forall|event: TaskEvent| !after(options, events).awaits(event),
{
}

} // verus!
