//! The service commands, step by step.
use vstd::prelude::*;
use crate::bytes;
use crate::cli::error;
use crate::cli::error::{CliError, CliErrorModel};
use crate::details;
use crate::details::{Detail, DetailValue, ValueModel};
use crate::service::control;
use crate::service::control::{SystemctlEnd, UnitState};
use crate::service::unit;
use crate::service::unit::UnitEntry;
use crate::text;

verus! {

/// A service command.
#[derive(Debug, Clone, Copy, PartialEq, Eq, Structural)]
pub enum ServiceCommand {
    Install,
    Start,
    Stop,
    Status,
    Uninstall,
}

/// The command that the arguments of `service` name.
pub open spec fn named_command(arguments: Seq<Seq<char>>) -> Result<ServiceCommand, CliErrorModel> {
    if arguments.len() == 0 {
        Err(error::usage("service requires a subcommand"@))
    } else if arguments.len() != 1 {
        Err(error::usage("service subcommands do not accept arguments"@))
    } else if arguments[0] == "install"@ {
        Ok(ServiceCommand::Install)
    } else if arguments[0] == "start"@ {
        Ok(ServiceCommand::Start)
    } else if arguments[0] == "stop"@ {
        Ok(ServiceCommand::Stop)
    } else if arguments[0] == "status"@ {
        Ok(ServiceCommand::Status)
    } else if arguments[0] == "uninstall"@ {
        Ok(ServiceCommand::Uninstall)
    } else {
        Err(error::usage("unknown service subcommand: "@ + arguments[0]))
    }
}

impl ServiceCommand {
    /// Reads the arguments of `service`.
    pub fn parse(arguments: &[String]) -> (result: Result<Self, CliError>)
        ensures
            match (result, named_command(text::texts(arguments@))) {
                (Ok(command), Ok(model)) => command == model,
                (Err(failure), Err(model)) => failure@ == model,
                _ => false,
            },
    {
        assert(text::texts(arguments@).len() == arguments@.len());
        if arguments.len() == 0 {
            return Err(CliError::usage("service requires a subcommand"));
        }
        if arguments.len() != 1 {
            return Err(CliError::usage("service subcommands do not accept arguments"));
        }
        let name = arguments[0].as_str();
        assert(text::texts(arguments@)[0] == name@);
        if text::same_text(name, "install") {
            Ok(ServiceCommand::Install)
        } else if text::same_text(name, "start") {
            Ok(ServiceCommand::Start)
        } else if text::same_text(name, "stop") {
            Ok(ServiceCommand::Stop)
        } else if text::same_text(name, "status") {
            Ok(ServiceCommand::Status)
        } else if text::same_text(name, "uninstall") {
            Ok(ServiceCommand::Uninstall)
        } else {
            let message = text::joined("unknown service subcommand: ", name);
            Err(CliError::usage(message.as_str()))
        }
    }
}

/// A call of `systemctl --user`.
#[derive(Debug, Clone, Copy, PartialEq, Eq, Structural)]
pub enum SystemctlCall {
    Reload,
    Enable,
    Start,
    Stop,
    Show,
    Disable,
}

/// The operation and the arguments of a call.
pub open spec fn call_words(call: SystemctlCall) -> Seq<Seq<char>> {
    match call {
        SystemctlCall::Reload => seq!["daemon-reload"@],
        SystemctlCall::Enable => seq!["enable"@, unit::UNIT_NAME@],
        SystemctlCall::Start => seq!["start"@, unit::UNIT_NAME@],
        SystemctlCall::Stop => seq!["stop"@, unit::UNIT_NAME@],
        SystemctlCall::Show => seq![
            "show"@,
            unit::UNIT_NAME@,
            "--property=LoadState"@,
            "--property=UnitFileState"@,
            "--property=ActiveState"@,
        ],
        SystemctlCall::Disable => seq!["disable"@, "--now"@, unit::UNIT_NAME@],
    }
}

/// The operation of a call.
pub open spec fn call_operation(call: SystemctlCall) -> Seq<char> {
    call_words(call)[0]
}

impl SystemctlCall {
    /// The operation of the call.
    pub fn operation(self) -> (name: &'static str)
        ensures
            name@ == call_operation(self),
    {
        match self {
            SystemctlCall::Reload => "daemon-reload",
            SystemctlCall::Enable => "enable",
            SystemctlCall::Start => "start",
            SystemctlCall::Stop => "stop",
            SystemctlCall::Show => "show",
            SystemctlCall::Disable => "disable",
        }
    }

    /// The operation and the arguments of the call.
    pub fn words(self) -> (words: Vec<String>)
        ensures
            text::texts(words@) == call_words(self),
    {
        let mut words: Vec<String> = Vec::new();
        words.push(text::copy_of(self.operation()));
        if self == SystemctlCall::Disable {
            words.push(text::copy_of("--now"));
        }
        if self != SystemctlCall::Reload {
            words.push(text::copy_of(unit::UNIT_NAME));
        }
        if self == SystemctlCall::Show {
            words.push(text::copy_of("--property=LoadState"));
            words.push(text::copy_of("--property=UnitFileState"));
            words.push(text::copy_of("--property=ActiveState"));
        }
        assert(text::texts(words@) =~= call_words(self));
        words
    }
}

/// What came of a command.
#[derive(Debug, PartialEq, Eq)]
pub enum ServiceOutcome {
    Installed,
    Started,
    Stopped,
    State(UnitState),
    /// There is no unit whose state could be told.
    Absent,
    Uninstalled,
}

/// The model of an outcome.
pub enum OutcomeModel {
    Installed,
    Started,
    Stopped,
    State { load_state: Seq<char>, unit_file_state: Seq<char>, active_state: Seq<char> },
    Absent,
    Uninstalled,
}

impl View for ServiceOutcome {
    type V = OutcomeModel;

    open spec fn view(&self) -> OutcomeModel {
        match *self {
            ServiceOutcome::Installed => OutcomeModel::Installed,
            ServiceOutcome::Started => OutcomeModel::Started,
            ServiceOutcome::Stopped => OutcomeModel::Stopped,
            ServiceOutcome::State(state) => OutcomeModel::State {
                load_state: state.load_state@,
                unit_file_state: state.unit_file_state@,
                active_state: state.active_state@,
            },
            ServiceOutcome::Absent => OutcomeModel::Absent,
            ServiceOutcome::Uninstalled => OutcomeModel::Uninstalled,
        }
    }
}

/// What is done next.
#[derive(Debug, PartialEq, Eq)]
pub enum ServiceStep {
    /// Look at the unit's path.
    Inspect,
    /// Read the unit, up to one byte more than it may hold.
    Read,
    /// Create the unit's directory.
    CreateDirectory,
    /// Write the unit, and clear the temporary file when it could not take the unit's place.
    Write(String),
    Systemctl(SystemctlCall),
    /// Remove the unit.
    Remove,
    /// Write the unit's old bytes again, after the failure.
    Restore(CliError),
    Succeeded(ServiceOutcome),
    Failed(CliError),
}

/// The model of a step.
pub enum StepModel {
    Inspect,
    Read,
    CreateDirectory,
    Write(Seq<char>),
    Systemctl(SystemctlCall),
    Remove,
    Restore(CliErrorModel),
    Succeeded(OutcomeModel),
    Failed(CliErrorModel),
}

impl View for ServiceStep {
    type V = StepModel;

    open spec fn view(&self) -> StepModel {
        match *self {
            ServiceStep::Inspect => StepModel::Inspect,
            ServiceStep::Read => StepModel::Read,
            ServiceStep::CreateDirectory => StepModel::CreateDirectory,
            ServiceStep::Write(content) => StepModel::Write(content@),
            ServiceStep::Systemctl(call) => StepModel::Systemctl(call),
            ServiceStep::Remove => StepModel::Remove,
            ServiceStep::Restore(failure) => StepModel::Restore(failure@),
            ServiceStep::Succeeded(outcome) => StepModel::Succeeded(outcome@),
            ServiceStep::Failed(failure) => StepModel::Failed(failure@),
        }
    }
}

/// How a step went.
#[derive(Debug, PartialEq, Eq)]
pub enum ServiceAnswer {
    /// What stands at the unit's path.
    Entry(UnitEntry),
    /// The unit's bytes; none where reading failed.
    Contents(Option<Vec<u8>>),
    /// Whether the step worked.
    Done(bool),
    /// What came of writing the unit.
    Written(Result<(), CliError>),
    Ended(SystemctlEnd),
}

/// A run of a service command: the command, the executable that a unit would run, the unit's
/// bytes once they were read, and the next step.
#[derive(Debug, PartialEq, Eq)]
pub struct ServiceRun {
    pub command: ServiceCommand,
    pub executable: Option<Vec<u8>>,
    pub kept: Option<Vec<u8>>,
    pub step: ServiceStep,
}

/// The model of a run.
pub struct RunModel {
    pub command: ServiceCommand,
    pub executable: Option<Seq<u8>>,
    pub kept: Option<Seq<u8>>,
    pub step: StepModel,
}

impl View for ServiceRun {
    type V = RunModel;

    open spec fn view(&self) -> RunModel {
        RunModel {
            command: self.command,
            executable: bytes::optional(self.executable),
            kept: bytes::optional(self.kept),
            step: self.step@,
        }
    }
}

/// The run of a command before its first step.
pub open spec fn started(command: ServiceCommand, executable: Option<Seq<u8>>) -> RunModel {
    RunModel { command, executable, kept: None, step: StepModel::Inspect }
}

/// A failure of the file system.
pub open spec fn filesystem_failure(message: Seq<char>) -> CliErrorModel {
    error::plain("service_filesystem_error"@, message)
}

/// The step after the unit's path was looked at. Where there is no unit, an installation goes on,
/// and an uninstallation and a status request are done.
pub open spec fn after_inspection(command: ServiceCommand, entry: UnitEntry) -> StepModel {
    match (entry, command) {
        (UnitEntry::Missing, ServiceCommand::Install) => StepModel::CreateDirectory,
        (UnitEntry::Missing, ServiceCommand::Status) => StepModel::Succeeded(OutcomeModel::Absent),
        (UnitEntry::Missing, ServiceCommand::Uninstall) => StepModel::Succeeded(
            OutcomeModel::Uninstalled,
        ),
        _ => match unit::entry_fault(entry) {
            Some(failure) => StepModel::Failed(failure),
            None => StepModel::Read,
        },
    }
}

/// The step after the unit was found to be Glimse's own.
pub open spec fn after_check(command: ServiceCommand) -> StepModel {
    match command {
        ServiceCommand::Install => StepModel::CreateDirectory,
        ServiceCommand::Start => StepModel::Systemctl(SystemctlCall::Start),
        ServiceCommand::Stop => StepModel::Systemctl(SystemctlCall::Stop),
        ServiceCommand::Status => StepModel::Systemctl(SystemctlCall::Show),
        ServiceCommand::Uninstall => StepModel::Systemctl(SystemctlCall::Disable),
    }
}

/// The step after a call of `systemctl` worked.
pub open spec fn after_call(
    command: ServiceCommand,
    call: SystemctlCall,
    output: Seq<u8>,
) -> StepModel {
    match call {
        SystemctlCall::Reload => if command == ServiceCommand::Install {
            StepModel::Systemctl(SystemctlCall::Enable)
        } else {
            StepModel::Succeeded(OutcomeModel::Uninstalled)
        },
        SystemctlCall::Enable => StepModel::Succeeded(OutcomeModel::Installed),
        SystemctlCall::Start => StepModel::Succeeded(OutcomeModel::Started),
        SystemctlCall::Stop => StepModel::Succeeded(OutcomeModel::Stopped),
        SystemctlCall::Show => match control::shown_state(output) {
            Some(state) => StepModel::Succeeded(
                OutcomeModel::State {
                    load_state: state.0,
                    unit_file_state: state.1,
                    active_state: state.2,
                },
            ),
            None => StepModel::Failed(control::malformed_failure()),
        },
        SystemctlCall::Disable => StepModel::Remove,
    }
}

/// The step after a call of `systemctl` failed: an uninstallation that already removed the unit
/// puts it back.
pub open spec fn after_failed_call(
    command: ServiceCommand,
    call: SystemctlCall,
    failure: CliErrorModel,
) -> StepModel {
    if call == SystemctlCall::Reload && command == ServiceCommand::Uninstall {
        StepModel::Restore(failure)
    } else {
        StepModel::Failed(failure)
    }
}

/// The run after a step; unchanged where the answer is not one to the step.
pub open spec fn run_after(run: RunModel, answer: ServiceAnswer) -> RunModel {
    match (run.step, answer) {
        (StepModel::Inspect, ServiceAnswer::Entry(entry)) => RunModel {
            step: after_inspection(run.command, entry),
            ..run
        },
        (StepModel::Read, ServiceAnswer::Contents(contents)) => match contents {
            None => RunModel {
                step: StepModel::Failed(
                    filesystem_failure("could not read the service unit"@),
                ),
                ..run
            },
            Some(bytes) => if unit::is_managed(bytes@) {
                RunModel { kept: Some(bytes@), step: after_check(run.command), ..run }
            } else {
                RunModel { step: StepModel::Failed(unit::unmanaged_failure()), ..run }
            },
        },
        (StepModel::CreateDirectory, ServiceAnswer::Done(worked)) => RunModel {
            step: if !worked {
                StepModel::Failed(
                    filesystem_failure("could not create the systemd user unit directory"@),
                )
            } else {
                match unit::rendered_unit(run.executable) {
                    Ok(content) => StepModel::Write(content),
                    Err(failure) => StepModel::Failed(failure),
                }
            },
            ..run
        },
        (StepModel::Write(_), ServiceAnswer::Written(written)) => RunModel {
            step: match written {
                Ok(_) => StepModel::Systemctl(SystemctlCall::Reload),
                Err(failure) => StepModel::Failed(failure@),
            },
            ..run
        },
        (StepModel::Systemctl(call), ServiceAnswer::Ended(end)) => RunModel {
            step: match control::systemctl_outcome(call_operation(call), end) {
                Ok(output) => after_call(run.command, call, output),
                Err(failure) => after_failed_call(run.command, call, failure),
            },
            ..run
        },
        (StepModel::Remove, ServiceAnswer::Done(worked)) => RunModel {
            step: if worked {
                StepModel::Systemctl(SystemctlCall::Reload)
            } else {
                StepModel::Failed(filesystem_failure("could not remove the managed service unit"@))
            },
            ..run
        },
        (StepModel::Restore(failure), ServiceAnswer::Written(written)) => RunModel {
            step: match written {
                Ok(_) => StepModel::Failed(failure),
                Err(_) => StepModel::Failed(
                    filesystem_failure(
                        "could not restore the managed service unit after daemon-reload failed"@,
                    ),
                ),
            },
            ..run
        },
        _ => run,
    }
}

fn filesystem_error(message: &str) -> (failure: CliError)
    ensures
        failure@ == filesystem_failure(message@),
{
    CliError::new("service_filesystem_error", message)
}

impl ServiceRun {
    /// Starts a command. The executable is the one that an installed unit would run.
    pub fn start(command: ServiceCommand, executable: Option<Vec<u8>>) -> (run: Self)
        ensures
            run@ == started(command, bytes::optional(executable)),
    {
        ServiceRun { command, executable, kept: None, step: ServiceStep::Inspect }
    }

    fn inspected(command: ServiceCommand, entry: UnitEntry) -> (step: ServiceStep)
        ensures
            step@ == after_inspection(command, entry),
    {
        if entry == UnitEntry::Missing {
            if command == ServiceCommand::Install {
                return ServiceStep::CreateDirectory;
            }
            if command == ServiceCommand::Status {
                return ServiceStep::Succeeded(ServiceOutcome::Absent);
            }
            if command == ServiceCommand::Uninstall {
                return ServiceStep::Succeeded(ServiceOutcome::Uninstalled);
            }
        }
        match unit::check_unit_entry(entry) {
            Ok(_) => ServiceStep::Read,
            Err(failure) => ServiceStep::Failed(failure),
        }
    }

    fn checked(command: ServiceCommand) -> (step: ServiceStep)
        ensures
            step@ == after_check(command),
    {
        match command {
            ServiceCommand::Install => ServiceStep::CreateDirectory,
            ServiceCommand::Start => ServiceStep::Systemctl(SystemctlCall::Start),
            ServiceCommand::Stop => ServiceStep::Systemctl(SystemctlCall::Stop),
            ServiceCommand::Status => ServiceStep::Systemctl(SystemctlCall::Show),
            ServiceCommand::Uninstall => ServiceStep::Systemctl(SystemctlCall::Disable),
        }
    }

    fn called(command: ServiceCommand, call: SystemctlCall, end: SystemctlEnd) -> (step: ServiceStep)
        ensures
            step@ == match control::systemctl_outcome(call_operation(call), end) {
                Ok(output) => after_call(command, call, output),
                Err(failure) => after_failed_call(command, call, failure),
            },
    {
        let output = match control::systemctl_result(call.operation(), end) {
            Ok(output) => output,
            Err(failure) => {
                if call == SystemctlCall::Reload && command == ServiceCommand::Uninstall {
                    return ServiceStep::Restore(failure);
                }
                return ServiceStep::Failed(failure);
            },
        };
        match call {
            SystemctlCall::Reload => {
                if command == ServiceCommand::Install {
                    ServiceStep::Systemctl(SystemctlCall::Enable)
                } else {
                    ServiceStep::Succeeded(ServiceOutcome::Uninstalled)
                }
            },
            SystemctlCall::Enable => ServiceStep::Succeeded(ServiceOutcome::Installed),
            SystemctlCall::Start => ServiceStep::Succeeded(ServiceOutcome::Started),
            SystemctlCall::Stop => ServiceStep::Succeeded(ServiceOutcome::Stopped),
            SystemctlCall::Show => match control::parse_show(&output) {
                Ok(state) => ServiceStep::Succeeded(ServiceOutcome::State(state)),
                Err(failure) => ServiceStep::Failed(failure),
            },
            SystemctlCall::Disable => ServiceStep::Remove,
        }
    }

    /// The run after the answer to its step.
    pub fn advance(self, answer: ServiceAnswer) -> (next: Self)
        ensures
            next@ == run_after(self@, answer),
    {
        let ServiceRun { command, executable, kept, step } = self;
        match (step, answer) {
            (ServiceStep::Inspect, ServiceAnswer::Entry(entry)) => ServiceRun {
                command,
                executable,
                kept,
                step: Self::inspected(command, entry),
            },
            (ServiceStep::Read, ServiceAnswer::Contents(contents)) => match contents {
                None => ServiceRun {
                    command,
                    executable,
                    kept,
                    step: ServiceStep::Failed(filesystem_error("could not read the service unit")),
                },
                Some(bytes) => match unit::check_unit_contents(&bytes) {
                    Ok(_) => ServiceRun {
                        command,
                        executable,
                        kept: Some(bytes),
                        step: Self::checked(command),
                    },
                    Err(failure) => ServiceRun {
                        command,
                        executable,
                        kept,
                        step: ServiceStep::Failed(failure),
                    },
                },
            },
            (ServiceStep::CreateDirectory, ServiceAnswer::Done(worked)) => {
                let step = if !worked {
                    ServiceStep::Failed(
                        filesystem_error("could not create the systemd user unit directory"),
                    )
                } else {
                    let location: Option<&[u8]> = match &executable {
                        Some(bytes) => Some(bytes.as_slice()),
                        None => None,
                    };
                    match unit::render_unit(location) {
                        Ok(content) => ServiceStep::Write(content),
                        Err(failure) => ServiceStep::Failed(failure),
                    }
                };
                ServiceRun { command, executable, kept, step }
            },
            (ServiceStep::Write(_), ServiceAnswer::Written(written)) => {
                let step = match written {
                    Ok(_) => ServiceStep::Systemctl(SystemctlCall::Reload),
                    Err(failure) => ServiceStep::Failed(failure),
                };
                ServiceRun { command, executable, kept, step }
            },
            (ServiceStep::Systemctl(call), ServiceAnswer::Ended(end)) => ServiceRun {
                command,
                executable,
                kept,
                step: Self::called(command, call, end),
            },
            (ServiceStep::Remove, ServiceAnswer::Done(worked)) => {
                let step = if worked {
                    ServiceStep::Systemctl(SystemctlCall::Reload)
                } else {
                    ServiceStep::Failed(
                        filesystem_error("could not remove the managed service unit"),
                    )
                };
                ServiceRun { command, executable, kept, step }
            },
            (ServiceStep::Restore(failure), ServiceAnswer::Written(written)) => {
                let step = match written {
                    Ok(_) => ServiceStep::Failed(failure),
                    Err(_) => ServiceStep::Failed(
                        filesystem_error(
                            "could not restore the managed service unit after daemon-reload failed",
                        ),
                    ),
                };
                ServiceRun { command, executable, kept, step }
            },
            (step, _) => ServiceRun { command, executable, kept, step },
        }
    }
}

// ---- what is reported ----

/// What a command reports.
pub open spec fn report_of(outcome: OutcomeModel, unit_path: Seq<char>) -> Seq<
    (Seq<char>, ValueModel),
> {
    match outcome {
        OutcomeModel::Installed => seq![
            ("installed"@, ValueModel::Flag(true)),
            ("enabled"@, ValueModel::Flag(true)),
            ("unit_path"@, ValueModel::Text(unit_path)),
        ],
        OutcomeModel::Started => seq![
            ("installed"@, ValueModel::Flag(true)),
            ("action"@, ValueModel::Text("start"@)),
            ("unit_path"@, ValueModel::Text(unit_path)),
        ],
        OutcomeModel::Stopped => seq![
            ("installed"@, ValueModel::Flag(true)),
            ("action"@, ValueModel::Text("stop"@)),
            ("unit_path"@, ValueModel::Text(unit_path)),
        ],
        OutcomeModel::State { load_state, unit_file_state, active_state } => seq![
            ("installed"@, ValueModel::Flag(true)),
            ("unit_file_state"@, ValueModel::Text(unit_file_state)),
            ("active_state"@, ValueModel::Text(active_state)),
            ("load_state"@, ValueModel::Text(load_state)),
            ("unit_path"@, ValueModel::Text(unit_path)),
        ],
        OutcomeModel::Absent => seq![
            ("installed"@, ValueModel::Flag(false)),
            ("unit_file_state"@, ValueModel::Text("not-found"@)),
            ("active_state"@, ValueModel::Text("inactive"@)),
            ("unit_path"@, ValueModel::Text(unit_path)),
        ],
        OutcomeModel::Uninstalled => seq![
            ("installed"@, ValueModel::Flag(false)),
            ("unit_path"@, ValueModel::Text(unit_path)),
        ],
    }
}

fn flag_detail(name: &str, value: bool) -> (detail: Detail)
    ensures
        detail@ == (name@, ValueModel::Flag(value)),
{
    Detail { name: text::copy_of(name), value: DetailValue::Flag(value) }
}

/// What a command reports.
pub fn service_report(outcome: &ServiceOutcome, unit_path: &str) -> (report: Vec<Detail>)
    ensures
        details::models(report@) == report_of(outcome@, unit_path@),
{
    let mut report: Vec<Detail> = Vec::new();
    match outcome {
        ServiceOutcome::Installed => {
            report.push(flag_detail("installed", true));
            report.push(flag_detail("enabled", true));
        },
        ServiceOutcome::Started => {
            report.push(flag_detail("installed", true));
            report.push(details::text_detail("action", "start"));
        },
        ServiceOutcome::Stopped => {
            report.push(flag_detail("installed", true));
            report.push(details::text_detail("action", "stop"));
        },
        ServiceOutcome::State(state) => {
            report.push(flag_detail("installed", true));
            report.push(
                details::text_detail("unit_file_state", state.unit_file_state.as_str()),
            );
            report.push(details::text_detail("active_state", state.active_state.as_str()));
            report.push(details::text_detail("load_state", state.load_state.as_str()));
        },
        ServiceOutcome::Absent => {
            report.push(flag_detail("installed", false));
            report.push(details::text_detail("unit_file_state", "not-found"));
            report.push(details::text_detail("active_state", "inactive"));
        },
        ServiceOutcome::Uninstalled => {
            report.push(flag_detail("installed", false));
        },
    }
    report.push(details::text_detail("unit_path", unit_path));
    assert(details::models(report@) =~= report_of(outcome@, unit_path@));
    report
}

// ---- laws ----

/// Whether the step changes the unit or what systemd makes of it.
pub open spec fn acts_on_unit(step: StepModel) -> bool {
    step is Systemctl || step is Remove || step is Restore
}

/// Whether the run acts on an installed unit only where the unit is Glimse's own.
pub open spec fn minds_ownership(run: RunModel) -> bool {
    &&& run.kept matches Some(bytes) ==> unit::is_managed(bytes)
    &&& run.command != ServiceCommand::Install && acts_on_unit(run.step) ==> run.kept is Some
    &&& run.step is CreateDirectory || run.step is Write ==> run.command == ServiceCommand::Install
}

/// Starting, stopping, asking for the status and uninstalling act only on a unit that Glimse
/// manages, from the first step of a run to its last. An installation replaces a unit that stands
/// at its path only after it was read and found to be Glimse's own.
pub proof fn law_foreign_units_are_left_alone(
    run: RunModel,
    answer: ServiceAnswer,
    command: ServiceCommand,
    executable: Option<Seq<u8>>,
)
    requires
        minds_ownership(run),
    ensures
        minds_ownership(started(command, executable)),
        minds_ownership(run_after(run, answer)),
        answer matches ServiceAnswer::Entry(entry) ==> (run.step is Inspect && entry is Found
            ==> run_after(run, answer).step is Read || run_after(run, answer).step is Failed),
        run.step is Read ==> run_after(run, answer).step is Read || run_after(run, answer).step
            is Failed || (answer matches ServiceAnswer::Contents(Some(bytes)) && unit::is_managed(
            bytes@,
        )),
{
}

/// When systemd cannot be told of an uninstalled unit, the unit's old bytes are put back, and the
/// uninstallation fails.
pub proof fn law_failed_uninstalls_are_undone(
    run: RunModel,
    reload: SystemctlEnd,
    written: Result<(), CliError>,
)
    requires
        minds_ownership(run),
        run.command == ServiceCommand::Uninstall,
        run.step == StepModel::Systemctl(SystemctlCall::Reload),
        control::systemctl_outcome(call_operation(SystemctlCall::Reload), reload) is Err,
    ensures
        ({
            let failed = run_after(run, ServiceAnswer::Ended(reload));
            let last = run_after(failed, ServiceAnswer::Written(written));
            &&& failed.step is Restore
            &&& failed.kept == run.kept && failed.kept is Some
            &&& last.step is Failed
        }),
{
}

/// Whether the command may make the call.
pub open spec fn may_call(command: ServiceCommand, call: SystemctlCall) -> bool {
    match call {
        SystemctlCall::Reload => command == ServiceCommand::Install || command
            == ServiceCommand::Uninstall,
        SystemctlCall::Enable => command == ServiceCommand::Install,
        SystemctlCall::Start => command == ServiceCommand::Start,
        SystemctlCall::Stop => command == ServiceCommand::Stop,
        SystemctlCall::Show => command == ServiceCommand::Status,
        SystemctlCall::Disable => command == ServiceCommand::Uninstall,
    }
}

/// Whether the run is at no call, and at no change of the unit file, that its command has no
/// business with.
pub open spec fn keeps_to_its_command(run: RunModel) -> bool {
    &&& run.step matches StepModel::Systemctl(call) ==> may_call(run.command, call)
    &&& run.step is CreateDirectory || run.step is Write ==> run.command == ServiceCommand::Install
    &&& run.step is Remove || run.step is Restore ==> run.command == ServiceCommand::Uninstall
}

/// Each command makes only its own calls, from the first step of a run to its last: an
/// installation enables the service and does not start it, and asking for the status changes
/// nothing.
pub proof fn law_commands_make_their_own_calls(
    run: RunModel,
    answer: ServiceAnswer,
    command: ServiceCommand,
    executable: Option<Seq<u8>>,
)
    requires
        keeps_to_its_command(run),
    ensures
        keeps_to_its_command(started(command, executable)),
        keeps_to_its_command(run_after(run, answer)),
        run_after(run, answer).command == run.command,
{
}

} // verus!
