//! What whole runs of the service commands call and tell.
use vstd::prelude::*;
use crate::bytes;
use crate::service::operation;
use crate::service::operation::{
    OutcomeModel, ServiceAnswer, ServiceCommand, ServiceRun, StepModel, SystemctlCall,
};
use crate::service::unit;
use crate::service::unit::UnitEntry;
use crate::service::wording;
use crate::text;

verus! {

/// Each call of `systemctl` is named by its own word.
pub proof fn law_calls_are_named(call: SystemctlCall, name: &'static str, words: Vec<String>)
    requires
        call_ensures(SystemctlCall::operation, (call,), name),
        call_ensures(SystemctlCall::words, (call,), words),
    ensures
        call == SystemctlCall::Reload ==> name@ == "daemon-reload"@,
        call == SystemctlCall::Enable ==> name@ == "enable"@,
        call == SystemctlCall::Start ==> name@ == "start"@,
        call == SystemctlCall::Stop ==> name@ == "stop"@,
        call == SystemctlCall::Show ==> name@ == "show"@,
        call == SystemctlCall::Disable ==> name@ == "disable"@,
        words@.len() > 0,
        words@[0]@ == name@,
        call != SystemctlCall::Reload ==> text::texts(words@).contains("glim.service"@),
{
    wording::law_calls_differ(call, call);
    let said = text::texts(words@);
    assert(said.len() == words@.len());
    assert(operation::call_words(call).len() > 0);
    assert(said[0] == words@[0]@);
}

/// What a command does about what stands at the unit's path: an installation goes on where nothing
/// stands there, a status tells that nothing does and an uninstallation is done; what cannot be looked at
/// or is no unit of Glimse's fails, and a unit is read.
pub proof fn law_what_is_done_about_the_unit(command: ServiceCommand, entry: UnitEntry)
    ensures
        ({
            let next = operation::after_inspection(command, entry);
            &&& entry == UnitEntry::Missing && command == ServiceCommand::Install ==> next is CreateDirectory
            &&& entry == UnitEntry::Missing && command == ServiceCommand::Status ==> next
                == StepModel::Succeeded(OutcomeModel::Absent)
            &&& entry == UnitEntry::Missing && command == ServiceCommand::Uninstall ==> next
                == StepModel::Succeeded(OutcomeModel::Uninstalled)
            &&& entry == UnitEntry::Missing && (command == ServiceCommand::Start || command
                == ServiceCommand::Stop) ==> next is Failed
            &&& entry == UnitEntry::Unknown ==> next is Failed
            &&& entry != UnitEntry::Missing && unit::entry_fault(entry) is None ==> next is Read
            &&& entry != UnitEntry::Missing && unit::entry_fault(entry) is Some ==> next is Failed
        }),
{
}

/// However a command went, it calls what it is named after: `start` starts the unit, `stop` stops it,
/// and neither is told to have worked unless its call did.
pub proof fn law_commands_do_what_they_say(
    command: ServiceCommand,
    executable: Option<Vec<u8>>,
    runs: Seq<ServiceRun>,
    answers: Seq<ServiceAnswer>,
    k: int,
    outcome: OutcomeModel,
)
    requires
        runs.len() == answers.len() + 1,
        call_ensures(ServiceRun::start, (command, executable), runs[0]),
        forall|j: int|
            0 <= j < answers.len() ==> call_ensures(
                ServiceRun::advance,
                (runs[j], #[trigger] answers[j]),
                runs[j + 1],
            ),
        0 <= k < runs.len(),
    ensures
        ({
            let states = Seq::new(runs.len(), |j: int| runs[j]@);
            &&& runs[k]@.step is Systemctl && command == ServiceCommand::Start ==> wording::calls(
                runs[k]@,
                seq!["start"@, "glim.service"@],
            )
            &&& runs[k]@.step is Systemctl && command == ServiceCommand::Stop ==> wording::calls(
                runs[k]@,
                seq!["stop"@, "glim.service"@],
            )
            &&& runs.last()@.step == StepModel::Succeeded(outcome) ==> {
                &&& command == ServiceCommand::Start <==> outcome == OutcomeModel::Started
                &&& command == ServiceCommand::Stop <==> outcome == OutcomeModel::Stopped
                &&& command == ServiceCommand::Install <==> outcome == OutcomeModel::Installed
                &&& command == ServiceCommand::Uninstall <==> outcome == OutcomeModel::Uninstalled
                &&& command == ServiceCommand::Start ==> wording::did(
                    states,
                    answers,
                    answers.len() as int,
                    seq!["start"@, "glim.service"@],
                )
                &&& command == ServiceCommand::Stop ==> wording::did(
                    states,
                    answers,
                    answers.len() as int,
                    seq!["stop"@, "glim.service"@],
                )
            }
        }),
{
    let states = Seq::new(runs.len(), |j: int| runs[j]@);
    assert forall|j: int| 0 <= j < answers.len() implies states[j + 1] == operation::run_after(
        states[j],
        #[trigger] answers[j],
    ) by {
        assert(call_ensures(ServiceRun::advance, (runs[j], answers[j]), runs[j + 1]));
    }
    assert(wording::is_run(command, bytes::optional(executable), states, answers));
    assert(states.last() == runs.last()@);
    if runs[k]@.step is Systemctl {
        wording::law_commands_call_by_name(command, bytes::optional(executable), states, answers, k);
    }
    if runs.last()@.step == StepModel::Succeeded(outcome) {
        wording::law_outcomes_are_earned(
            command,
            bytes::optional(executable),
            states,
            answers,
            outcome,
        );
    }
}

} // verus!
