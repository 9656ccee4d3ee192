//! Runs of scripts and tasks.
use pixi_script::run::{
    available_tasks, check_platform, command_line, forwarded_signals, has_explicit_environment,
    is_unsupported_everywhere, preferred_environment, unsupported_platform_help,
    validate_script_options, CommandLineFault, RunTarget, SpecialSignals, TaskCandidate,
};
use pixi_script::run_script::{
    ResolutionSource, RunEvent, RunFailure, RunOptions, RunPhase, Runnability, ScriptRun,
    MAX_SCRIPT_RUN_ATTEMPTS,
};
use pixi_script::satisfiability::SatisfiabilityMode;
use pixi_script::tasks::{
    TaskCourse, TaskEvent, TaskFailure, TaskOptions, TaskPhase, COMMAND_NOT_FOUND,
};

fn owned(texts: &[&str]) -> Vec<String> {
    texts.iter().map(|text| text.to_string()).collect()
}

#[test]
fn some_options_do_not_go_with_a_script() {
    assert!(validate_script_options(false, true, true).is_ok());
    assert!(validate_script_options(true, false, false).is_ok());
    assert_eq!(
        validate_script_options(true, true, true).unwrap_err().message,
        "`pixi run --script` does not support --environment, --skip-deps"
    );
    assert_eq!(
        validate_script_options(true, false, true).unwrap_err().message,
        "`pixi run --script` does not support --skip-deps"
    );
}

#[test]
fn a_script_is_run_by_python() {
    let line = command_line(
        RunTarget::Script(Some("/scripts/example.py".to_owned())),
        owned(&["first", "--second"]),
        false,
    )
    .unwrap();
    assert_eq!(line.task, ["python", "/scripts/example.py", "first", "--second"]);
    assert!(line.executable);

    let line = command_line(RunTarget::Workspace, owned(&["test"]), false).unwrap();
    assert_eq!(line.task, ["test"]);
    assert!(!line.executable);

    assert_eq!(
        command_line(RunTarget::Script(None), vec![], false).unwrap_err(),
        CommandLineFault::InvalidPath
    );
    for source in [RunTarget::Stdin, RunTarget::Remote] {
        assert_eq!(
            command_line(source, vec![], false).unwrap_err(),
            CommandLineFault::UnsupportedSource
        );
    }
}

#[test]
fn an_environment_is_explicit_if_it_was_chosen() {
    assert!(!has_explicit_environment(true, true, false));
    assert!(!has_explicit_environment(false, false, true));
    assert!(has_explicit_environment(false, true, true));
    assert!(has_explicit_environment(false, false, false));
}

#[test]
fn a_platform_must_be_part_of_the_environment() {
    let platform = "osx-64".to_owned();
    assert_eq!(
        check_platform(true, false, Some(&platform), "test").unwrap_err(),
        "platform 'osx-64' is not part of environment 'test'"
    );
    assert!(check_platform(false, false, Some(&platform), "test").is_ok());
    assert!(check_platform(true, true, Some(&platform), "test").is_ok());
    assert!(check_platform(true, false, None, "test").is_ok());
}

#[test]
fn available_tasks_are_listed_in_order() {
    let environments = vec![owned(&["test", "build"]), owned(&["lint", "test"])];
    assert_eq!(available_tasks(None, &environments), ["build", "lint", "test"]);
    assert_eq!(available_tasks(Some(&owned(&["z", "a"])), &environments), ["a", "z"]);
}

#[test]
fn help_is_given_where_nothing_runs() {
    assert!(is_unsupported_everywhere(&vec![Runnability::Unsupported]));
    assert!(!is_unsupported_everywhere(&vec![
        Runnability::Unsupported,
        Runnability::ByAccident
    ]));
    assert_eq!(
        unsupported_platform_help("linux-64"),
        "\nHelp: This platform (linux-64) is not supported. Please run the following command to add this platform to the workspace:\n\n\tpixi workspace platform add linux-64"
    );
}

#[test]
fn the_environment_that_a_task_prefers_is_chosen() {
    let candidate = |environment: &str, default: Option<&str>| TaskCandidate {
        environment: environment.to_owned(),
        default_environment: default.map(str::to_owned),
    };
    assert_eq!(
        preferred_environment(&vec![
            candidate("a", None),
            candidate("b", Some("a")),
            candidate("c", Some("c")),
        ]),
        Some(2)
    );
    assert_eq!(preferred_environment(&vec![candidate("a", Some("b"))]), None);
}

#[test]
fn most_signals_are_forwarded() {
    let special = SpecialSignals { kill: 9, stop: 19, interrupt: 2 };
    assert_eq!(forwarded_signals(&[1, 2, 9, 15, 19], special, true), [1, 15]);
    assert_eq!(forwarded_signals(&[1, 2, 9, 15, 19], special, false), [1, 2, 15]);
}

const PLAIN: RunOptions = RunOptions { no_install: false, dry_run: false, platform_given: false };

fn follow(options: RunOptions, events: &[RunEvent]) -> ScriptRun {
    let mut run = ScriptRun::new(options);
    for event in events {
        run.step(*event);
    }
    run
}

/// The events from the start up to the first solution, for a script without a lock file.
fn lockless() -> Vec<RunEvent> {
    vec![
        RunEvent::Sidecar(false),
        RunEvent::Done,
        RunEvent::Guard(true),
        RunEvent::Done,
        RunEvent::Done,
    ]
}

#[test]
fn a_cached_resolution_need_only_be_sufficient() {
    let mut events = lockless();
    let run = follow(PLAIN, &events);
    assert_eq!(run.phase, RunPhase::Solve(SatisfiabilityMode::Sufficient));
    assert!(!run.guard);
    events.push(RunEvent::Solved(false));
    assert_eq!(follow(PLAIN, &events).phase, RunPhase::CheckPrefix);
    events.push(RunEvent::Same(false));
    assert_eq!(
        follow(PLAIN, &events).phase,
        RunPhase::Solve(SatisfiabilityMode::Exact)
    );
    events.push(RunEvent::Solved(true));
    assert_eq!(follow(PLAIN, &events).phase, RunPhase::AcquirePublish);
}

#[test]
fn a_run_goes_on_without_a_guard() {
    let mut events = lockless();
    events[2] = RunEvent::Guard(false);
    events.extend([
        RunEvent::Solved(true),
        RunEvent::Guard(false),
        RunEvent::Done,
        RunEvent::Sidecar(false),
        RunEvent::Done,
        RunEvent::Same(false),
    ]);
    assert_eq!(follow(PLAIN, &events).phase, RunPhase::Classify);
    events.extend([
        RunEvent::Classified(Runnability::Supported),
        RunEvent::Done,
        RunEvent::Guard(false),
        RunEvent::Done,
        RunEvent::Sidecar(false),
        RunEvent::Done,
        RunEvent::Same(false),
    ]);
    assert_eq!(follow(PLAIN, &events).phase, RunPhase::Finished);
}

#[test]
fn a_changed_sidecar_is_not_written() {
    let start = [
        RunEvent::Sidecar(true),
        RunEvent::Done,
        RunEvent::Guard(true),
        RunEvent::Done,
        RunEvent::Done,
        RunEvent::Done,
        RunEvent::Solved(true),
        RunEvent::Guard(true),
        RunEvent::Done,
        RunEvent::Sidecar(true),
        RunEvent::Done,
    ];
    assert_eq!(follow(PLAIN, &start).phase, RunPhase::CompareSidecar);
    let mut same = follow(PLAIN, &start);
    same.step(RunEvent::Same(true));
    same.step(RunEvent::Same(true));
    assert_eq!(same.phase, RunPhase::WriteSidecar);
    same.step(RunEvent::Done);
    assert_eq!(same.phase, RunPhase::StoreState);
    let mut run = ScriptRun::new(PLAIN);
    for _ in 0..MAX_SCRIPT_RUN_ATTEMPTS {
        for event in start {
            run.step(event);
        }
        run.step(RunEvent::Same(false));
        run.step(RunEvent::Same(true));
    }
    assert_eq!(run.phase, RunPhase::Failed(RunFailure::Conflict));
}

#[test]
fn a_dry_run_of_a_script_only_confirms() {
    let dry_run = RunOptions { dry_run: true, ..PLAIN };
    let mut events = lockless();
    events[2] = RunEvent::Guard(false);
    let loading = follow(dry_run, &events[..4]);
    assert_eq!(loading.phase, RunPhase::LoadBaseline);
    assert_eq!(loading.resolution_source(true), ResolutionSource::Unguarded);
    assert_eq!(
        follow(PLAIN, &events[..4]).resolution_source(true),
        ResolutionSource::Nowhere
    );
    events.push(RunEvent::Solved(false));
    assert_eq!(follow(dry_run, &events).phase, RunPhase::ConfirmDryRun);
    events.push(RunEvent::Done);
    assert_eq!(follow(dry_run, &events).phase, RunPhase::Finished);
}

#[test]
fn a_resolution_comes_from_the_sidecar_if_there_is_one() {
    let mut run = follow(PLAIN, &[RunEvent::Sidecar(true), RunEvent::Done, RunEvent::Guard(true)]);
    assert_eq!(run.resolution_source(true), ResolutionSource::StrictSidecar);
    assert_eq!(run.resolution_source(false), ResolutionSource::Sidecar);
    run = follow(PLAIN, &lockless()[..3]);
    assert_eq!(run.resolution_source(false), ResolutionSource::Guarded);
}

#[test]
fn an_environment_must_run_on_the_machine() {
    let mut events = lockless();
    events.extend([
        RunEvent::Solved(true),
        RunEvent::Guard(true),
        RunEvent::Done,
        RunEvent::Sidecar(false),
        RunEvent::Done,
        RunEvent::Same(true),
        RunEvent::Done,
    ]);
    let classify = follow(PLAIN, &events);
    assert_eq!(classify.phase, RunPhase::Classify);
    let mut unsupported = classify;
    unsupported.step(RunEvent::Classified(Runnability::Unsupported));
    assert_eq!(unsupported.phase, RunPhase::Failed(RunFailure::Unsupported));
    let mut free = classify;
    free.step(RunEvent::Classified(Runnability::NoDependencies));
    assert_eq!(free.phase, RunPhase::AcquireReconcile);
    let given = RunOptions { platform_given: true, ..PLAIN };
    assert_eq!(follow(given, &events).phase, RunPhase::Install);
    let no_install = RunOptions { no_install: true, ..PLAIN };
    events.pop();
    assert_eq!(follow(no_install, &events).phase, RunPhase::Finished);
}

#[test]
fn a_failed_step_ends_a_run() {
    let mut run = follow(PLAIN, &lockless());
    run.step(RunEvent::Failed);
    assert_eq!(run.phase, RunPhase::Failed(RunFailure::Step));
}

const TASKS: TaskOptions = TaskOptions {
    is_script: false,
    allow_installs: true,
    platform_given: false,
    dry_run: false,
    announce: true,
};

const TASK: TaskEvent = TaskEvent::Task { executable: true, custom: false };

fn course(options: TaskOptions, events: &[TaskEvent]) -> TaskCourse {
    let mut course = TaskCourse::new(options);
    for event in events {
        course.step(*event);
    }
    course
}

#[test]
fn tasks_are_run_one_after_the_other() {
    let first = [
        TaskEvent::Task { executable: false, custom: false },
        TASK,
        TaskEvent::Classified(Runnability::Supported),
        TaskEvent::Done,
        TaskEvent::Cached(false),
        TaskEvent::Ready(false),
        TaskEvent::Done,
        TaskEvent::Done,
        TaskEvent::Exit(0),
        TaskEvent::Done,
    ];
    assert_eq!(course(TASKS, &first[..1]).phase, TaskPhase::NextTask);
    assert_eq!(course(TASKS, &first[..3]).phase, TaskPhase::Announce);
    assert!(!course(TASKS, &first[..3]).follows);
    assert_eq!(course(TASKS, &first[..6]).phase, TaskPhase::Install);
    assert_eq!(course(TASKS, &first[..8]).phase, TaskPhase::Execute);
    let mut next = course(TASKS, &first);
    assert_eq!(next.phase, TaskPhase::NextTask);
    assert!(next.follows);
    next.step(TaskEvent::NoMoreTasks);
    assert_eq!(next.phase, TaskPhase::Finished);
}

#[test]
fn a_failing_task_ends_with_its_exit_code() {
    let events = [
        TASK,
        TaskEvent::Classified(Runnability::NoDependencies),
        TaskEvent::Done,
        TaskEvent::Cached(false),
        TaskEvent::Ready(false),
        TaskEvent::Done,
    ];
    assert_eq!(course(TASKS, &events[..5]).phase, TaskPhase::Activate);
    let mut failed = course(TASKS, &events);
    failed.step(TaskEvent::Exit(3));
    assert_eq!(failed.phase, TaskPhase::Exited(3));
    assert!(!failed.lists_tasks());
    let mut missing = course(TASKS, &events);
    missing.step(TaskEvent::Exit(COMMAND_NOT_FOUND));
    assert!(missing.lists_tasks());
}

#[test]
fn what_is_there_already_is_not_made_again() {
    let cached = [
        TASK,
        TaskEvent::Classified(Runnability::ByAccident),
        TaskEvent::Done,
        TaskEvent::Cached(true),
    ];
    let course = course(TASKS, &cached);
    assert_eq!(course.phase, TaskPhase::NextTask);
    assert!(course.follows);
}

#[test]
fn a_dry_run_shows_tasks_only() {
    let dry_run = TaskOptions { dry_run: true, platform_given: true, ..TASKS };
    let shown = course(dry_run, &[TASK, TaskEvent::Done]);
    assert_eq!(shown.phase, TaskPhase::NextTask);
    assert!(shown.follows);
}

#[test]
fn a_script_is_not_installed_again() {
    let script = TaskOptions { is_script: true, ..TASKS };
    let custom = TaskEvent::Task { executable: true, custom: true };
    let events = [
        custom,
        TaskEvent::Classified(Runnability::Supported),
        TaskEvent::Cached(false),
        TaskEvent::Ready(false),
    ];
    assert_eq!(course(script, &events).phase, TaskPhase::Activate);
    let looked_up = TaskEvent::Task { executable: true, custom: false };
    assert_eq!(course(script, &[looked_up, events[1]]).phase, TaskPhase::Announce);
}

#[test]
fn a_task_must_run_on_the_machine() {
    assert_eq!(
        course(TASKS, &[TASK, TaskEvent::Classified(Runnability::Unsupported)]).phase,
        TaskPhase::Failed(TaskFailure::Unsupported)
    );
    assert_eq!(
        course(TASKS, &[TaskEvent::Failed]).phase,
        TaskPhase::Failed(TaskFailure::Step)
    );
}
