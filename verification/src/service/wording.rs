//! What the service commands call, word for word.
use vstd::prelude::*;
use crate::service::control::SystemctlEnd;
use crate::service::operation;
use crate::service::operation::{
    OutcomeModel, RunModel, ServiceAnswer, ServiceCommand, StepModel, SystemctlCall,
};
use crate::service::unit;
use crate::service::unit::UnitEntry;

verus! {

proof fn lemma_operations_differ()
    ensures
        "daemon-reload"@ != "enable"@,
        "daemon-reload"@ != "start"@,
        "daemon-reload"@ != "stop"@,
        "daemon-reload"@ != "show"@,
        "daemon-reload"@ != "disable"@,
        "enable"@ != "start"@,
        "enable"@ != "stop"@,
        "enable"@ != "show"@,
        "enable"@ != "disable"@,
        "start"@ != "stop"@,
        "start"@ != "show"@,
        "start"@ != "disable"@,
        "stop"@ != "show"@,
        "stop"@ != "disable"@,
        "show"@ != "disable"@,
{
    reveal_strlit("daemon-reload");
    reveal_strlit("enable");
    reveal_strlit("start");
    reveal_strlit("stop");
    reveal_strlit("show");
    reveal_strlit("disable");
    assert("daemon-reload"@.len() == 13);
    assert("enable"@.len() == 6);
    assert("start"@.len() == 5);
    assert("stop"@.len() == 4);
    assert("show"@.len() == 4);
    assert("disable"@.len() == 7);
    assert("stop"@[1] == 't');
    assert("show"@[1] == 'h');
}

proof fn lemma_commands_differ()
    ensures
        "install"@ != "start"@,
        "install"@ != "stop"@,
        "install"@ != "status"@,
        "install"@ != "uninstall"@,
        "start"@ != "stop"@,
        "start"@ != "status"@,
        "start"@ != "uninstall"@,
        "stop"@ != "status"@,
        "stop"@ != "uninstall"@,
        "status"@ != "uninstall"@,
{
    reveal_strlit("install");
    reveal_strlit("start");
    reveal_strlit("stop");
    reveal_strlit("status");
    reveal_strlit("uninstall");
    assert("install"@.len() == 7);
    assert("start"@.len() == 5);
    assert("stop"@.len() == 4);
    assert("status"@.len() == 6);
    assert("uninstall"@.len() == 9);
}

/// The word after `service` names the command.
pub proof fn law_service_words_name_commands(arguments: Seq<Seq<char>>)
    ensures
        arguments == seq!["install"@] ==> operation::named_command(arguments) == Ok::<
            ServiceCommand,
            crate::cli::error::CliErrorModel,
        >(ServiceCommand::Install),
        arguments == seq!["start"@] ==> operation::named_command(arguments) == Ok::<
            ServiceCommand,
            crate::cli::error::CliErrorModel,
        >(ServiceCommand::Start),
        arguments == seq!["stop"@] ==> operation::named_command(arguments) == Ok::<
            ServiceCommand,
            crate::cli::error::CliErrorModel,
        >(ServiceCommand::Stop),
        arguments == seq!["status"@] ==> operation::named_command(arguments) == Ok::<
            ServiceCommand,
            crate::cli::error::CliErrorModel,
        >(ServiceCommand::Status),
        arguments == seq!["uninstall"@] ==> operation::named_command(arguments) == Ok::<
            ServiceCommand,
            crate::cli::error::CliErrorModel,
        >(ServiceCommand::Uninstall),
        operation::named_command(arguments) is Ok ==> arguments.len() == 1 && (arguments[0]
            == "install"@ || arguments[0] == "start"@ || arguments[0] == "stop"@ || arguments[0]
            == "status"@ || arguments[0] == "uninstall"@),
{
    lemma_commands_differ();
}

/// Every call of `systemctl` has an operation of its own, and all but the reload name the unit
/// `glim.service`.
pub proof fn law_calls_differ(one: SystemctlCall, other: SystemctlCall)
    ensures
        operation::call_words(one)[0] == operation::call_words(other)[0] ==> one == other,
        operation::call_operation(one) == operation::call_words(one)[0],
        one != SystemctlCall::Reload ==> operation::call_words(one).contains("glim.service"@),
        operation::call_words(one).contains("--now"@) ==> one == SystemctlCall::Disable,
{
    lemma_operations_differ();
    let words = operation::call_words(one);
    reveal_strlit("--now");
    reveal_strlit("glim.service");
    reveal_strlit("--property=LoadState");
    reveal_strlit("--property=UnitFileState");
    reveal_strlit("--property=ActiveState");
    reveal_strlit("daemon-reload");
    reveal_strlit("enable");
    reveal_strlit("start");
    reveal_strlit("stop");
    reveal_strlit("show");
    assert("--now"@.len() == 5 && "start"@.len() == 5);
    assert("--now"@[0] == '-' && "start"@[0] == 's');
    match one {
        SystemctlCall::Reload => {},
        SystemctlCall::Disable => {
            assert(words[2] == "glim.service"@);
        },
        _ => {
            assert(words[1] == "glim.service"@);
        },
    }
}

/// Whether the run is about to call `systemctl` with exactly these words.
pub open spec fn calls(run: RunModel, words: Seq<Seq<char>>) -> bool {
    run.step matches StepModel::Systemctl(call) && operation::call_words(call) == words
}

/// Whether the answer says that a call worked.
pub open spec fn worked(answer: ServiceAnswer) -> bool {
    answer matches ServiceAnswer::Ended(
        SystemctlEnd::Finished { oversized, success, .. },
    ) && !oversized && success
}

/// Whether these are the states and the answers of one run of the command, step by step.
pub open spec fn is_run(
    command: ServiceCommand,
    executable: Option<Seq<u8>>,
    runs: Seq<RunModel>,
    answers: Seq<ServiceAnswer>,
) -> bool {
    &&& runs.len() == answers.len() + 1
    &&& runs[0] == operation::started(command, executable)
    &&& forall|k: int|
        0 <= k < answers.len() ==> runs[k + 1] == operation::run_after(
            runs[k],
            #[trigger] answers[k],
        )
}

/// Whether one of the first `n` steps was a call with these words, and worked.
pub open spec fn did(
    runs: Seq<RunModel>,
    answers: Seq<ServiceAnswer>,
    n: int,
    words: Seq<Seq<char>>,
) -> bool {
    exists|k: int| 0 <= k < n && calls(runs[k], words) && worked(#[trigger] answers[k])
}

/// Whether one of the first `n` steps wrote the unit.
pub open spec fn wrote(runs: Seq<RunModel>, answers: Seq<ServiceAnswer>, n: int) -> bool {
    exists|k: int|
        0 <= k < n && runs[k].step is Write && ((#[trigger] answers[k]) matches
            ServiceAnswer::Written(Ok(_)))
}

/// Whether one of the first `n` steps removed the unit.
pub open spec fn removed(runs: Seq<RunModel>, answers: Seq<ServiceAnswer>, n: int) -> bool {
    exists|k: int|
        0 <= k < n && runs[k].step is Remove && (#[trigger] answers[k]) == ServiceAnswer::Done(true)
}

/// Whether one of the first `n` steps found that there is no unit.
pub open spec fn found_none(answers: Seq<ServiceAnswer>, n: int) -> bool {
    exists|k: int|
        0 <= k < n && (#[trigger] answers[k]) == ServiceAnswer::Entry(UnitEntry::Missing)
}

/// Whether one of the first `n` steps read a unit that is Glimse's own.
pub open spec fn found_own(answers: Seq<ServiceAnswer>, n: int) -> bool {
    exists|k: int| 0 <= k < n && reads_own(#[trigger] answers[k])
}

/// Whether the answer is a unit that is Glimse's own.
pub open spec fn reads_own(answer: ServiceAnswer) -> bool {
    answer matches ServiceAnswer::Contents(Some(contents)) && unit::is_managed(contents@)
}

/// The words of the calls.
pub open spec fn reload_words() -> Seq<Seq<char>> {
    seq!["daemon-reload"@]
}

pub open spec fn enable_words() -> Seq<Seq<char>> {
    seq!["enable"@, "glim.service"@]
}

pub open spec fn start_words() -> Seq<Seq<char>> {
    seq!["start"@, "glim.service"@]
}

pub open spec fn stop_words() -> Seq<Seq<char>> {
    seq!["stop"@, "glim.service"@]
}

pub open spec fn show_words() -> Seq<Seq<char>> {
    seq![
        "show"@,
        "glim.service"@,
        "--property=LoadState"@,
        "--property=UnitFileState"@,
        "--property=ActiveState"@,
    ]
}

pub open spec fn disable_words() -> Seq<Seq<char>> {
    seq!["disable"@, "--now"@, "glim.service"@]
}

/// What was done before the state after `n` steps.
spec fn is_earned(
    command: ServiceCommand,
    runs: Seq<RunModel>,
    answers: Seq<ServiceAnswer>,
    n: int,
) -> bool {
    let run = runs[n];
    &&& run.command == command
    &&& match run.step {
        StepModel::Systemctl(_) => match command {
            ServiceCommand::Start => calls(run, start_words()) && found_own(answers, n),
            ServiceCommand::Stop => calls(run, stop_words()) && found_own(answers, n),
            ServiceCommand::Status => calls(run, show_words()) && found_own(answers, n),
            ServiceCommand::Install => wrote(runs, answers, n) && (calls(run, reload_words())
                || calls(run, enable_words()) && did(runs, answers, n, reload_words())),
            ServiceCommand::Uninstall => found_own(answers, n) && (calls(run, disable_words())
                || calls(run, reload_words()) && did(runs, answers, n, disable_words()) && removed(
                runs,
                answers,
                n,
            )),
        },
        StepModel::CreateDirectory | StepModel::Write(_) => command == ServiceCommand::Install,
        StepModel::Remove => command == ServiceCommand::Uninstall && found_own(answers, n) && did(
            runs,
            answers,
            n,
            disable_words(),
        ),
        StepModel::Restore(_) => command == ServiceCommand::Uninstall && removed(runs, answers, n),
        StepModel::Succeeded(outcome) => match command {
            ServiceCommand::Start => outcome == OutcomeModel::Started && found_own(answers, n)
                && did(runs, answers, n, start_words()),
            ServiceCommand::Stop => outcome == OutcomeModel::Stopped && found_own(answers, n)
                && did(runs, answers, n, stop_words()),
            ServiceCommand::Status => outcome == OutcomeModel::Absent && found_none(answers, n)
                || outcome is State && found_own(answers, n) && did(
                runs,
                answers,
                n,
                show_words(),
            ),
            ServiceCommand::Install => {
                &&& outcome == OutcomeModel::Installed
                &&& wrote(runs, answers, n)
                &&& did(runs, answers, n, reload_words())
                &&& did(runs, answers, n, enable_words())
            },
            ServiceCommand::Uninstall => {
                &&& outcome == OutcomeModel::Uninstalled
                &&& found_none(answers, n) || found_own(answers, n) && did(
                    runs,
                    answers,
                    n,
                    disable_words(),
                ) && removed(runs, answers, n) && did(runs, answers, n, reload_words())
            },
        },
        _ => true,
    }
}

proof fn lemma_earned(
    command: ServiceCommand,
    executable: Option<Seq<u8>>,
    runs: Seq<RunModel>,
    answers: Seq<ServiceAnswer>,
    n: int,
)
    requires
        is_run(command, executable, runs, answers),
        0 <= n < runs.len(),
    ensures
        is_earned(command, runs, answers, n),
    decreases n,
{
    if n > 0 {
        lemma_earned(command, executable, runs, answers, n - 1);
        let answer = answers[n - 1];
        let before = runs[n - 1];
        assert(runs[n] == operation::run_after(before, answer));
        lemma_operations_differ();
        match (before.step, answer) {
            (StepModel::Systemctl(call), ServiceAnswer::Ended(end)) => {
                assert(operation::call_words(call)[0] == operation::call_operation(call));
                assert(reload_words()[0] == "daemon-reload"@);
                assert(enable_words()[0] == "enable"@);
                assert(start_words()[0] == "start"@);
                assert(stop_words()[0] == "stop"@);
                assert(show_words()[0] == "show"@);
                assert(disable_words()[0] == "disable"@);
                if !(runs[n].step is Failed) && !(runs[n].step is Restore) {
                    assert(worked(answer) || call == SystemctlCall::Show);
                }
                assert(worked(answer) ==> did(runs, answers, n, operation::call_words(call)));
            },
            (StepModel::Read, ServiceAnswer::Contents(_)) => {
                assert(reads_own(answer) || runs[n].step is Failed);
            },
            (StepModel::Write(_), ServiceAnswer::Written(_)) => {},
            (StepModel::Remove, ServiceAnswer::Done(_)) => {},
            (StepModel::Inspect, ServiceAnswer::Entry(_)) => {},
            _ => {},
        }
    }
}

/// What a service command calls, word for word: `start` calls `systemctl --user start
/// glim.service`, `stop` calls `stop glim.service`, `status` asks for the three states of the unit,
/// `install` reloads and then enables, and `uninstall` disables at once and, once the unit is
/// removed, reloads. No command but `install` calls anything before it has read a unit that is
/// Glimse's own.
pub proof fn law_commands_call_by_name(
    command: ServiceCommand,
    executable: Option<Seq<u8>>,
    runs: Seq<RunModel>,
    answers: Seq<ServiceAnswer>,
    k: int,
)
    requires
        is_run(command, executable, runs, answers),
        0 <= k < runs.len(),
        runs[k].step is Systemctl,
    ensures
        command == ServiceCommand::Start ==> calls(runs[k], seq!["start"@, "glim.service"@]),
        command == ServiceCommand::Stop ==> calls(runs[k], seq!["stop"@, "glim.service"@]),
        command == ServiceCommand::Status ==> calls(
            runs[k],
            seq![
                "show"@,
                "glim.service"@,
                "--property=LoadState"@,
                "--property=UnitFileState"@,
                "--property=ActiveState"@,
            ],
        ),
        command == ServiceCommand::Install ==> wrote(runs, answers, k) && (calls(
            runs[k],
            seq!["daemon-reload"@],
        ) || calls(runs[k], seq!["enable"@, "glim.service"@]) && did(
            runs,
            answers,
            k,
            seq!["daemon-reload"@],
        )),
        command == ServiceCommand::Uninstall ==> calls(
            runs[k],
            seq!["disable"@, "--now"@, "glim.service"@],
        ) || calls(runs[k], seq!["daemon-reload"@]) && did(
            runs,
            answers,
            k,
            seq!["disable"@, "--now"@, "glim.service"@],
        ) && removed(runs, answers, k),
        command != ServiceCommand::Install ==> found_own(answers, k),
{
    lemma_earned(command, executable, runs, answers, k);
}

/// A command tells what it did, and only where it did it: the service is told to be started only
/// after `systemctl --user start glim.service` worked, and stopped only after `stop` worked; it is
/// told to be installed only after the unit was written and both the reload and the enabling
/// worked; and uninstalled only where there was no unit, or after the disabling, the removal and the
/// reload worked.
pub proof fn law_outcomes_are_earned(
    command: ServiceCommand,
    executable: Option<Seq<u8>>,
    runs: Seq<RunModel>,
    answers: Seq<ServiceAnswer>,
    outcome: OutcomeModel,
)
    requires
        is_run(command, executable, runs, answers),
        runs.last().step == StepModel::Succeeded(outcome),
    ensures
        command == ServiceCommand::Start <==> outcome == OutcomeModel::Started,
        command == ServiceCommand::Stop <==> outcome == OutcomeModel::Stopped,
        command == ServiceCommand::Install <==> outcome == OutcomeModel::Installed,
        command == ServiceCommand::Uninstall <==> outcome == OutcomeModel::Uninstalled,
        command == ServiceCommand::Start ==> did(
            runs,
            answers,
            answers.len() as int,
            seq!["start"@, "glim.service"@],
        ),
        command == ServiceCommand::Stop ==> did(
            runs,
            answers,
            answers.len() as int,
            seq!["stop"@, "glim.service"@],
        ),
        command == ServiceCommand::Install ==> wrote(runs, answers, answers.len() as int) && did(
            runs,
            answers,
            answers.len() as int,
            seq!["daemon-reload"@],
        ) && did(runs, answers, answers.len() as int, seq!["enable"@, "glim.service"@]),
        command == ServiceCommand::Uninstall ==> found_none(answers, answers.len() as int) || (did(
            runs,
            answers,
            answers.len() as int,
            seq!["disable"@, "--now"@, "glim.service"@],
        ) && removed(runs, answers, answers.len() as int) && did(
            runs,
            answers,
            answers.len() as int,
            seq!["daemon-reload"@],
        )),
        command == ServiceCommand::Status ==> outcome == OutcomeModel::Absent && found_none(
            answers,
            answers.len() as int,
        ) || outcome is State,
{
    lemma_earned(command, executable, runs, answers, runs.len() - 1);
}

/// Where a unit that is Glimse's own was found, `start` and `stop` go on to their call, and where
/// that call works they end well.
pub proof fn law_start_and_stop_go_through(
    executable: Option<Seq<u8>>,
    kept: Option<Seq<u8>>,
    contents: Vec<u8>,
    end: SystemctlEnd,
)
    requires
        unit::is_managed(contents@),
        worked(ServiceAnswer::Ended(end)),
    ensures
        ({
            let before = RunModel {
                command: ServiceCommand::Start,
                executable,
                kept,
                step: StepModel::Read,
            };
            let then = operation::run_after(before, ServiceAnswer::Contents(Some(contents)));
            &&& calls(then, seq!["start"@, "glim.service"@])
            &&& operation::run_after(then, ServiceAnswer::Ended(end)).step
                == StepModel::Succeeded(OutcomeModel::Started)
        }),
        ({
            let before = RunModel {
                command: ServiceCommand::Stop,
                executable,
                kept,
                step: StepModel::Read,
            };
            let then = operation::run_after(before, ServiceAnswer::Contents(Some(contents)));
            &&& calls(then, seq!["stop"@, "glim.service"@])
            &&& operation::run_after(then, ServiceAnswer::Ended(end)).step
                == StepModel::Succeeded(OutcomeModel::Stopped)
        }),
{
}

} // verus!
