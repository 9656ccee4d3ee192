//! What a run is asked to do, and the order in which it does it.
use vstd::prelude::*;

use crate::ordered::{ascending, sort_dedup, views};
use crate::run_script::Runnability;
use crate::text::same_text;

verus! {

/// Texts with a separator between them.
pub open spec fn joined(texts: Seq<Seq<char>>, separator: Seq<char>) -> Seq<char>
    decreases texts.len(),
{
    if texts.len() == 0 {
        Seq::empty()
    } else if texts.len() == 1 {
        texts[0]
    } else {
        joined(texts.drop_last(), separator) + separator + texts.last()
    }
}

/// Puts texts together, with a separator between them.
fn join(texts: &Vec<String>, separator: &str) -> (text: String)
    ensures
        text@ == joined(views(texts@), separator@),
{
    let ghost all = views(texts@);
    let mut text = String::new();
    let mut i: usize = 0;
    assert(text@ =~= joined(all.take(0), separator@));
    while i < texts.len()
        invariant
            i <= texts.len(),
            all == views(texts@),
            text@ == joined(all.take(i as int), separator@),
        decreases texts.len() - i,
    {
        assert(all.take(i + 1).drop_last() =~= all.take(i as int));
        assert(all.take(i + 1).last() == texts@[i as int]@);
        if i > 0 {
            text.append(separator);
        } else {
            assert(text@ =~= Seq::<char>::empty());
        }
        text.append(texts[i].as_str());
        assert(text@ =~= joined(all.take(i + 1), separator@));
        i += 1;
    }
    assert(all.take(i as int) =~= all);
    text
}

/// Options that do not go with a script.
#[derive(Debug)]
pub struct UnsupportedScriptOptions {
    pub message: String,
}

/// The options that were given and do not go with a script.
pub open spec fn unsupported_options(environment: bool, skip_deps: bool) -> Seq<Seq<char>> {
    if environment && skip_deps {
        seq!["--environment"@, "--skip-deps"@]
    } else if environment {
        seq!["--environment"@]
    } else if skip_deps {
        seq!["--skip-deps"@]
    } else {
        Seq::empty()
    }
}

/// Refuses options that do not go with a script.
pub fn validate_script_options(script: bool, environment: bool, skip_deps: bool) -> (result: Result<
    (),
    UnsupportedScriptOptions,
>)
    ensures
        result is Ok <==> !script || (!environment && !skip_deps),
        result matches Err(refusal) ==> refusal.message@ == "`pixi run --script` does not support "@
            + joined(unsupported_options(environment, skip_deps), ", "@),
{
    if !script {
        return Ok(());
    }
    let mut unsupported: Vec<String> = Vec::new();
    if environment {
        unsupported.push("--environment".to_owned());
    }
    if skip_deps {
        unsupported.push("--skip-deps".to_owned());
    }
    assert(views(unsupported@) =~= unsupported_options(environment, skip_deps));
    if unsupported.len() == 0 {
        Ok(())
    } else {
        let mut message = "`pixi run --script` does not support ".to_owned();
        message.append(join(&unsupported, ", ").as_str());
        Err(UnsupportedScriptOptions { message })
    }
}

/// What is to be run.
#[derive(Debug)]
pub enum RunTarget {
    /// Tasks or commands of a workspace.
    Workspace,
    /// The script in a local file, at this path where that is UTF-8.
    Script(Option<String>),
    /// A script from standard input.
    Stdin,
    /// A script at a URL.
    Remote,
}

/// A command line.
#[derive(Debug)]
pub struct CommandLine {
    pub task: Vec<String>,
    /// The command is not looked for among the tasks.
    pub executable: bool,
}

/// Why there is no command line.
#[derive(Debug, Clone, Copy, PartialEq, Eq, Structural)]
pub enum CommandLineFault {
    /// The path of the script is not UTF-8.
    InvalidPath,
    /// Only scripts in local files can be run.
    UnsupportedSource,
}

/// Makes the command line that is run. A script is run by Python and gets all arguments. It must
/// be in a local file: one from standard input or at a URL is refused.
pub fn command_line(target: RunTarget, task: Vec<String>, executable: bool) -> (result: Result<
    CommandLine,
    CommandLineFault,
>)
    ensures
        match target {
            RunTarget::Workspace => result matches Ok(line) && views(line.task@) == views(task@)
                && line.executable == executable,
            RunTarget::Script(Some(path)) => result matches Ok(line) && views(line.task@) == seq![
                "python"@,
                path@,
            ] + views(task@) && line.executable,
            RunTarget::Script(None) => result == Err::<CommandLine, _>(
                CommandLineFault::InvalidPath,
            ),
            RunTarget::Stdin | RunTarget::Remote => result == Err::<CommandLine, _>(
                CommandLineFault::UnsupportedSource,
            ),
        },
{
    let path = match target {
        RunTarget::Workspace => return Ok(CommandLine { task, executable }),
        RunTarget::Script(Some(path)) => path,
        RunTarget::Script(None) => return Err(CommandLineFault::InvalidPath),
        RunTarget::Stdin | RunTarget::Remote => return Err(CommandLineFault::UnsupportedSource),
    };
    let mut line: Vec<String> = Vec::new();
    line.push("python".to_owned());
    line.push(path);
    let ghost front = views(line@);
    let ghost given = views(task@);
    let mut task = task;
    line.append(&mut task);
    assert(views(line@) =~= front + given);
    Ok(CommandLine { task: line, executable: true })
}

/// Whether the search for a task is limited to one environment: a workspace's, if it was named or
/// is not the default one.
pub fn has_explicit_environment(is_script: bool, named: bool, is_default: bool) -> (explicit: bool)
    ensures
        explicit == (!is_script && (named || !is_default)),
{
    !(is_script || (!named && is_default))
}

/// Refuses a platform that was named and is not part of the environment. Where nothing is
/// installed that does not matter.
pub fn check_platform(
    allow_installs: bool,
    is_declared: bool,
    platform: Option<&String>,
    environment: &str,
) -> (result: Result<(), String>)
    ensures
        result is Err <==> allow_installs && !is_declared && platform is Some,
        result matches Err(message) ==> (platform matches Some(platform) && message@ == "platform '"@
            + platform@ + "' is not part of environment '"@ + environment@ + "'"@),
{
    match platform {
        Some(platform) if allow_installs && !is_declared => {
            let mut message = "platform '".to_owned();
            message.append(platform.as_str());
            message.append("' is not part of environment '");
            message.append(environment);
            message.append("'");
            Err(message)
        },
        _ => Ok(()),
    }
}

/// A task is named in one of several environments.
pub open spec fn in_some(environments: Seq<Vec<String>>, name: Seq<char>) -> bool {
    exists|i: int| 0 <= i < environments.len() && views((#[trigger] environments[i])@).contains(name)
}

/// Lists the tasks that could have been meant, in order and each once: those of the environment
/// that was named, or those of all environments.
pub fn available_tasks(explicit: Option<&Vec<String>>, environments: &Vec<Vec<String>>) -> (tasks:
    Vec<String>)
    ensures
        ascending(views(tasks@)),
        forall|name: Seq<char>| #[trigger]
            views(tasks@).contains(name) <==> match explicit {
                Some(explicit) => views(explicit@).contains(name),
                None => in_some(environments@, name),
            },
{
    let mut all: Vec<String> = Vec::new();
    match explicit {
        Some(explicit) => {
            push_all(&mut all, explicit);
        },
        None => {
            let mut i: usize = 0;
            while i < environments.len()
                invariant
                    i <= environments.len(),
                    forall|name: Seq<char>| #[trigger]
                        views(all@).contains(name) <==> in_some(
                            environments@.take(i as int),
                            name,
                        ),
                decreases environments.len() - i,
            {
                let ghost before = views(all@);
                let ghost seen = environments@.take(i as int);
                let ghost more = environments@.take(i + 1);
                push_all(&mut all, &environments[i]);
                proof {
                    assert forall|name: Seq<char>| #[trigger]
                        views(all@).contains(name) <==> in_some(more, name) by {
                        if in_some(seen, name) {
                            let k = choose|k: int|
                                0 <= k < seen.len() && views((#[trigger] seen[k])@).contains(name);
                            assert(more[k] == seen[k]);
                        }
                        assert(more[i as int] == environments@[i as int]);
                        if in_some(more, name) && !views(environments@[i as int]@).contains(name) {
                            let k = choose|k: int|
                                0 <= k < more.len() && views((#[trigger] more[k])@).contains(name);
                            assert(seen[k] == more[k]);
                        }
                        assert(before.contains(name) <==> in_some(seen, name));
                    }
                }
                i += 1;
            }
            assert(environments@.take(i as int) =~= environments@);
        },
    }
    let ghost listed = views(all@);
    let tasks = sort_dedup(all);
    proof {
        assert forall|name: Seq<char>| #[trigger] views(tasks@).contains(name)
            <==> listed.contains(name) by {
            assert(views(tasks@).contains(name) <==> views(tasks@).to_set().contains(name));
            assert(listed.contains(name) <==> listed.to_set().contains(name));
        }
    }
    tasks
}

/// Appends all texts of a list.
fn push_all(all: &mut Vec<String>, more: &Vec<String>)
    ensures
        forall|name: Seq<char>| #[trigger]
            views(final(all)@).contains(name) <==> views(old(all)@).contains(name) || views(
                more@,
            ).contains(name),
{
    let ghost before = views(all@);
    let mut i: usize = 0;
    assert(views(all@) =~= before + views(more@).take(0));
    while i < more.len()
        invariant
            i <= more.len(),
            views(all@) == before + views(more@).take(i as int),
        decreases more.len() - i,
    {
        let ghost held = all@;
        all.push(more[i].clone());
        assert(views(all@) =~= views(held).push(more@[i as int]@));
        assert(views(more@).take(i + 1) =~= views(more@).take(i as int).push(more@[i as int]@));
        assert(views(all@) =~= before + views(more@).take(i + 1));
        i += 1;
    }
    assert(views(more@).take(i as int) =~= views(more@));
    proof {
        let after = views(all@);
        assert forall|name: Seq<char>| #[trigger] after.contains(name) <==> before.contains(name)
            || views(more@).contains(name) by {
            if before.contains(name) {
                let k = choose|k: int| 0 <= k < before.len() && before[k] == name;
                assert(after[k] == name);
            }
            if views(more@).contains(name) {
                let k = choose|k: int| 0 <= k < more@.len() && views(more@)[k] == name;
                assert(after[before.len() + k] == name);
            }
            if after.contains(name) {
                let k = choose|k: int| 0 <= k < after.len() && after[k] == name;
                if k < before.len() {
                    assert(before[k] == name);
                } else {
                    assert(views(more@)[k - before.len()] == name);
                }
            }
        }
    }
}

/// Whether no environment can be run on this machine at all.
pub fn is_unsupported_everywhere(environments: &Vec<Runnability>) -> (unsupported: bool)
    ensures
        unsupported == (forall|i: int|
            0 <= i < environments@.len() ==> (#[trigger] environments@[i])
                == Runnability::Unsupported),
{
    let mut i: usize = 0;
    while i < environments.len()
        invariant
            i <= environments.len(),
            forall|k: int|
                0 <= k < i ==> (#[trigger] environments@[k]) == Runnability::Unsupported,
        decreases environments.len() - i,
    {
        if environments[i] != Runnability::Unsupported {
            assert(environments@[i as int] != Runnability::Unsupported);
            return false;
        }
        i += 1;
    }
    true
}

/// What is said where no environment can be run on this machine.
pub fn unsupported_platform_help(platform: &str) -> (text: String)
    ensures
        text@ == "\nHelp: This platform ("@ + platform@
            + ") is not supported. Please run the following command to add this platform to the workspace:\n\n\tpixi workspace platform add "@
            + platform@,
{
    let mut text = "\nHelp: This platform (".to_owned();
    text.append(platform);
    text.append(
        ") is not supported. Please run the following command to add this platform to the workspace:\n\n\tpixi workspace platform add ",
    );
    text.append(platform);
    text
}

/// An environment that a task could be run in.
#[derive(Debug)]
pub struct TaskCandidate {
    pub environment: String,
    /// The environment that the task is to be run in unless another is named.
    pub default_environment: Option<String>,
}

/// The task is to be run in this environment unless another is named.
pub open spec fn is_preferred(candidate: TaskCandidate) -> bool {
    candidate.default_environment matches Some(name) && name@ == candidate.environment@
}

/// Finds the first environment that its task prefers.
pub fn preferred_environment(candidates: &Vec<TaskCandidate>) -> (found: Option<usize>)
    ensures
        match found {
            Some(at) => at < candidates@.len() && is_preferred(candidates@[at as int]) && forall|
                i: int,
            |
                0 <= i < at ==> !is_preferred(#[trigger] candidates@[i]),
            None => forall|i: int|
                0 <= i < candidates@.len() ==> !is_preferred(#[trigger] candidates@[i]),
        },
{
    let mut i: usize = 0;
    while i < candidates.len()
        invariant
            i <= candidates.len(),
            forall|k: int| 0 <= k < i ==> !is_preferred(#[trigger] candidates@[k]),
        decreases candidates.len() - i,
    {
        match &candidates[i].default_environment {
            Some(name) => {
                if same_text(name.as_str(), candidates[i].environment.as_str()) {
                    return Some(i);
                }
            },
            None => {},
        }
        i += 1;
    }
    None
}

/// The signals that are treated in a way of their own.
#[derive(Debug, Clone, Copy, PartialEq, Eq, Structural)]
pub struct SpecialSignals {
    pub kill: i32,
    pub stop: i32,
    pub interrupt: i32,
}

/// A signal is handed on to the command. Two cannot be listened for, and at a terminal the
/// command gets interrupts by itself.
pub open spec fn is_forwarded(signal: i32, special: SpecialSignals, interactive: bool) -> bool {
    &&& signal != special.kill
    &&& signal != special.stop
    &&& !(signal == special.interrupt && interactive)
}

/// Selects the signals that are handed on to the command.
pub fn forwarded_signals(signals: &[i32], special: SpecialSignals, interactive: bool) -> (forwarded:
    Vec<i32>)
    ensures
        forwarded@ == signals@.filter(
            |signal: i32| is_forwarded(signal, special, interactive),
        ),
{
    let ghost keep = |signal: i32| is_forwarded(signal, special, interactive);
    let mut forwarded: Vec<i32> = Vec::new();
    let mut i: usize = 0;
    assert(signals@.take(0).filter(keep) =~= forwarded@) by {
        reveal(Seq::filter);
    }
    while i < signals.len()
        invariant
            i <= signals.len(),
            keep == (|signal: i32| is_forwarded(signal, special, interactive)),
            forwarded@ == signals@.take(i as int).filter(keep),
        decreases signals.len() - i,
    {
        proof {
            reveal(Seq::filter);
            assert(signals@.take(i + 1).drop_last() =~= signals@.take(i as int));
            assert(signals@.take(i + 1).last() == signals@[i as int]);
        }
        let signal: i32 = signals[i];
        if signal != special.kill && signal != special.stop && !(signal == special.interrupt
            && interactive) {
            forwarded.push(signal);
        }
        i += 1;
    }
    assert(signals@.take(i as int) =~= signals@);
    forwarded
}

} // verus!
