use glim::cli::error::CliError;
use glim::details::DetailValue;
use glim::service::control::{parse_show, retain_output, systemctl_result, SystemctlEnd, UnitState};
use glim::service::operation::{
    service_report, ServiceAnswer, ServiceCommand, ServiceOutcome, ServiceRun, ServiceStep,
    SystemctlCall,
};
use glim::service::unit::{
    check_unit_contents, check_unit_entry, escape_systemd_exec_path, render_unit,
    unit_entry_exists, unit_path, UnitEntry, MANAGED_MARKER,
};
use glim::service::write::{temporary_unit_name, WriteAnswer, WriteStep};

fn told(error: &CliError) -> (&str, &str) {
    (&error.code, &error.message)
}

#[test]
fn executable_paths_are_escaped_or_refused() {
    assert_eq!(escape_systemd_exec_path(b"/opt/a b/50%/glim").unwrap(), "/opt/a b/50%%/glim");
    assert_eq!(escape_systemd_exec_path(b"glim").unwrap_err(), "executable path is not absolute");
    assert_eq!(
        escape_systemd_exec_path(&[b'/', 0xff]).unwrap_err(),
        "executable path is not valid UTF-8"
    );
    for path in ["/a'b", "/a\"b", "/a\\b"] {
        assert_eq!(
            escape_systemd_exec_path(path.as_bytes()).unwrap_err(),
            "executable path contains systemd-forbidden quoting characters"
        );
    }
    assert_eq!(
        escape_systemd_exec_path(b"/a\nb").unwrap_err(),
        "executable path contains a control character"
    );
}

#[test]
fn units_live_in_the_user_directory() {
    assert_eq!(
        unit_path(Some(b"/xdg"), Some(b"/home/u")).unwrap(),
        b"/xdg/systemd/user/glim.service"
    );
    for unusable in [&b""[..], &b"relative"[..], &[b'/', 0xff][..]] {
        assert_eq!(
            unit_path(Some(unusable), Some(b"/home/u")).unwrap(),
            b"/home/u/.config/systemd/user/glim.service"
        );
    }
    assert_eq!(
        told(&unit_path(None, None).unwrap_err()),
        (
            "service_configuration_error",
            "service unit directory requires an absolute XDG_CONFIG_HOME or HOME"
        )
    );
}

#[test]
fn units_run_the_installing_executable() {
    let unit = render_unit(Some(b"/opt/glim")).unwrap();
    assert_eq!(
        unit,
        "# Managed by Glimse. Do not edit.\n[Unit]\nDescription=Glimse visual output daemon\n\n\
         [Service]\nType=simple\nExecStart=\"/opt/glim\" daemon\nRestart=on-failure\n\
         RestartSec=2s\nUMask=0077\n\n[Install]\nWantedBy=default.target\n"
    );
    assert!(check_unit_contents(unit.as_bytes()).is_ok());
    assert_eq!(
        told(&render_unit(None).unwrap_err()),
        ("service_executable_error", "could not resolve the current executable")
    );
    assert_eq!(
        render_unit(Some(b"x")).unwrap_err().message,
        "current executable cannot be represented safely: executable path is not absolute"
    );
}

#[test]
fn foreign_units_are_recognized() {
    assert!(!unit_entry_exists(UnitEntry::Missing).unwrap());
    assert!(unit_entry_exists(UnitEntry::Found { regular: false, len: 0 }).unwrap());
    assert_eq!(
        told(&unit_entry_exists(UnitEntry::Unknown).unwrap_err()),
        ("service_filesystem_error", "could not inspect the service unit")
    );
    assert_eq!(
        told(&check_unit_entry(UnitEntry::Missing).unwrap_err()),
        ("service_not_installed", "the managed Glimse service is not installed")
    );
    assert!(check_unit_entry(UnitEntry::Found { regular: true, len: 65_536 }).is_ok());
    for entry in [
        UnitEntry::Found { regular: false, len: 1 },
        UnitEntry::Found { regular: true, len: 65_537 },
    ] {
        assert_eq!(
            told(&check_unit_entry(entry).unwrap_err()),
            ("service_unit_unmanaged", "glim.service exists but is not a Glimse-managed unit")
        );
    }
    assert!(check_unit_contents(b"[Unit]\n").is_err());
    let mut long = MANAGED_MARKER.as_bytes().to_vec();
    long.resize(65_537, b'#');
    assert!(check_unit_contents(&long).is_err());
}

#[test]
fn output_is_retained_up_to_its_bound() {
    let mut retained = vec![b'a'; 32_766];
    assert!(!retain_output(&mut retained, b"bc"));
    assert!(retain_output(&mut retained, b"d"));
    assert_eq!(retained.len(), 32_768);
    let mut short = vec![b'a'; 32_767];
    assert!(retain_output(&mut short, b"xy"));
    assert_eq!(short.last(), Some(&b'x'));
}

fn finished(stdout: &[u8], oversized: bool, success: bool) -> SystemctlEnd {
    SystemctlEnd::Finished {
        stdout: stdout.to_vec(),
        oversized,
        success,
        exit_code: if success { Some(0) } else { Some(3) },
    }
}

#[test]
fn commands_end_in_output_or_error() {
    assert_eq!(systemctl_result("show", finished(b"x", false, true)).unwrap(), b"x");
    let error = |end| systemctl_result("enable", end).unwrap_err();
    assert_eq!(
        told(&error(SystemctlEnd::NotStarted)),
        ("systemctl_spawn_failed", "could not start systemctl")
    );
    assert_eq!(
        told(&error(SystemctlEnd::TimedOut)),
        ("systemctl_timeout", "systemctl command timed out")
    );
    assert_eq!(
        told(&error(SystemctlEnd::NotWaitedFor)),
        ("systemctl_wait_failed", "could not wait for systemctl")
    );
    assert_eq!(
        told(&error(SystemctlEnd::OutputLost)),
        ("systemctl_output_error", "could not collect systemctl output")
    );
    assert_eq!(
        told(&error(finished(b"", true, false))),
        ("systemctl_output_too_large", "systemctl output exceeded the supported limit")
    );
    let failed = error(finished(b"", false, false));
    assert_eq!(told(&failed), ("systemctl_failed", "systemctl command failed"));
    assert_eq!(failed.details[0].name, "operation");
    assert_eq!(failed.details[0].value, DetailValue::Text("enable".to_owned()));
    assert_eq!(failed.details[1].name, "exit_code");
    assert_eq!(failed.details[1].value, DetailValue::Signed(3));
}

#[test]
fn unit_states_are_read_strictly() {
    let state =
        parse_show(b"LoadState=loaded\r\n\nActiveState=active\nUnitFileState=enabled\n").unwrap();
    assert_eq!(
        state,
        UnitState {
            load_state: "loaded".to_owned(),
            unit_file_state: "enabled".to_owned(),
            active_state: "active".to_owned(),
        }
    );
    for output in [
        &b"LoadState=loaded\nActiveState=active\n"[..],
        b"LoadState=loaded\nLoadState=loaded\nActiveState=active\nUnitFileState=x\n",
        b"LoadState=loaded\nActiveState=\nUnitFileState=x\n",
        b"LoadState=lo aded\nActiveState=a\nUnitFileState=x\n",
        b"LoadState=loaded\nActiveState=a\nUnitFileState=x\nOther=y\n",
        b"LoadState=loaded\nActiveState\nUnitFileState=x\n",
        b"\xff",
    ] {
        assert_eq!(
            told(&parse_show(output).unwrap_err()),
            ("service_status_malformed", "systemctl returned malformed service state")
        );
    }
}

#[test]
fn temporary_files_replace_units_whole() {
    assert_eq!(temporary_unit_name(42, 7), ".glim.service.42.7.tmp");
    let first = WriteStep::first();
    assert_eq!(first, WriteStep::Create { attempt: 0 });
    let second = first.after(WriteAnswer::Exists, true);
    assert_eq!(second, WriteStep::Create { attempt: 1 });
    assert_eq!(first.after(WriteAnswer::Failed, true), WriteStep::NoTemporary);
    assert_eq!(
        WriteStep::Create { attempt: 99 }.after(WriteAnswer::Exists, true),
        WriteStep::NoTemporary
    );
    let fill = second.after(WriteAnswer::Done, true);
    assert_eq!(fill, WriteStep::Fill { attempt: 1 });
    assert_eq!(fill.after(WriteAnswer::Failed, false), WriteStep::Remove { attempt: 1 });
    let rename = fill.after(WriteAnswer::Done, true);
    assert_eq!(rename, WriteStep::Rename { attempt: 1 });
    assert_eq!(rename.after(WriteAnswer::Done, true), WriteStep::Written);
    assert_eq!(rename.after(WriteAnswer::Failed, true), WriteStep::Remove { attempt: 1 });
    assert_eq!(rename.after(WriteAnswer::Failed, false), WriteStep::NotWritten);
    assert_eq!(
        WriteStep::Remove { attempt: 1 }.after(WriteAnswer::Failed, true),
        WriteStep::NotWritten
    );
    assert_eq!(WriteStep::Written.result(), Some(Ok(())));
    assert_eq!(rename.result(), None);
    assert_eq!(
        told(&WriteStep::NoTemporary.result().unwrap().unwrap_err()),
        ("service_filesystem_error", "could not create a temporary service unit")
    );
    assert_eq!(
        told(&WriteStep::NotWritten.result().unwrap().unwrap_err()),
        ("service_filesystem_error", "could not atomically write the service unit")
    );
}

fn asked(values: &[&str]) -> Result<ServiceCommand, CliError> {
    let words: Vec<String> = values.iter().map(|value| value.to_string()).collect();
    ServiceCommand::parse(&words)
}

#[test]
fn service_commands_are_told_apart() {
    assert_eq!(asked(&["install"]).unwrap(), ServiceCommand::Install);
    assert_eq!(asked(&["uninstall"]).unwrap(), ServiceCommand::Uninstall);
    assert_eq!(asked(&[]).unwrap_err().message, "service requires a subcommand");
    assert_eq!(
        asked(&["start", "now"]).unwrap_err().message,
        "service subcommands do not accept arguments"
    );
    assert_eq!(asked(&["dance"]).unwrap_err().message, "unknown service subcommand: dance");
    assert_eq!(SystemctlCall::Disable.operation(), "disable");
    assert_eq!(SystemctlCall::Disable.words(), ["disable", "--now", "glim.service"]);
    assert_eq!(SystemctlCall::Enable.words(), ["enable", "glim.service"]);
    assert_eq!(
        SystemctlCall::Show.words(),
        [
            "show",
            "glim.service",
            "--property=LoadState",
            "--property=UnitFileState",
            "--property=ActiveState",
        ]
    );
    assert_eq!(SystemctlCall::Reload.operation(), "daemon-reload");
    assert_eq!(SystemctlCall::Reload.words(), ["daemon-reload"]);
}

fn there() -> ServiceAnswer {
    ServiceAnswer::Entry(UnitEntry::Found { regular: true, len: 40 })
}

fn managed() -> ServiceAnswer {
    ServiceAnswer::Contents(Some(MANAGED_MARKER.as_bytes().to_vec()))
}

fn ended() -> ServiceAnswer {
    ServiceAnswer::Ended(finished(b"", false, true))
}

#[test]
fn installing_writes_and_enables_the_unit() {
    let run = ServiceRun::start(ServiceCommand::Install, Some(b"/opt/glim".to_vec()));
    assert_eq!(run.step, ServiceStep::Inspect);
    let run = run.advance(ServiceAnswer::Entry(UnitEntry::Missing));
    assert_eq!(run.step, ServiceStep::CreateDirectory);
    let run = run.advance(ServiceAnswer::Done(true));
    assert_eq!(run.step, ServiceStep::Write(render_unit(Some(b"/opt/glim")).unwrap()));
    let run = run.advance(ServiceAnswer::Written(Ok(())));
    assert_eq!(run.step, ServiceStep::Systemctl(SystemctlCall::Reload));
    let run = run.advance(ended());
    assert_eq!(run.step, ServiceStep::Systemctl(SystemctlCall::Enable));
    let run = run.advance(ended());
    assert_eq!(run.step, ServiceStep::Succeeded(ServiceOutcome::Installed));
    let refused = ServiceRun::start(ServiceCommand::Install, Some(b"/opt/glim".to_vec()))
        .advance(there())
        .advance(ServiceAnswer::Contents(Some(b"[Unit]".to_vec())));
    match refused.step {
        ServiceStep::Failed(error) => assert_eq!(error.code, "service_unit_unmanaged"),
        _ => panic!("a foreign unit stays"),
    }
}

#[test]
fn a_failed_reload_restores_the_removed_unit() {
    let run = ServiceRun::start(ServiceCommand::Uninstall, None).advance(there());
    assert_eq!(run.step, ServiceStep::Read);
    let run = run.advance(managed());
    assert_eq!(run.step, ServiceStep::Systemctl(SystemctlCall::Disable));
    let run = run.advance(ended());
    assert_eq!(run.step, ServiceStep::Remove);
    let run = run.advance(ServiceAnswer::Done(true));
    assert_eq!(run.step, ServiceStep::Systemctl(SystemctlCall::Reload));
    let run = run.advance(ServiceAnswer::Ended(finished(b"", false, false)));
    assert_eq!(run.kept.as_deref(), Some(MANAGED_MARKER.as_bytes()));
    assert!(matches!(&run.step, ServiceStep::Restore(error) if error.code == "systemctl_failed"));
    let run = run.advance(ServiceAnswer::Written(Ok(())));
    assert!(matches!(&run.step, ServiceStep::Failed(error) if error.code == "systemctl_failed"));
}

#[test]
fn services_are_shown_and_steered() {
    let run = ServiceRun::start(ServiceCommand::Status, None)
        .advance(ServiceAnswer::Entry(UnitEntry::Missing));
    assert_eq!(run.step, ServiceStep::Succeeded(ServiceOutcome::Absent));
    let run = ServiceRun::start(ServiceCommand::Status, None).advance(there()).advance(managed());
    assert_eq!(run.step, ServiceStep::Systemctl(SystemctlCall::Show));
    let shown = b"LoadState=loaded\nActiveState=active\nUnitFileState=enabled\n";
    let run = run.advance(ServiceAnswer::Ended(finished(shown, false, true)));
    let outcome = match run.step {
        ServiceStep::Succeeded(outcome) => outcome,
        _ => panic!("the state was shown"),
    };
    let report = service_report(&outcome, "/u");
    let named = |name: &str| {
        report.iter().find(|detail| detail.name == name).map(|detail| &detail.value)
    };
    assert_eq!(named("installed"), Some(&DetailValue::Flag(true)));
    assert_eq!(named("active_state"), Some(&DetailValue::Text("active".to_owned())));
    assert_eq!(named("unit_file_state"), Some(&DetailValue::Text("enabled".to_owned())));
    assert_eq!(named("load_state"), Some(&DetailValue::Text("loaded".to_owned())));
    assert_eq!(named("unit_path"), Some(&DetailValue::Text("/u".to_owned())));
    let run = ServiceRun::start(ServiceCommand::Start, None).advance(there()).advance(managed());
    assert_eq!(run.step, ServiceStep::Systemctl(SystemctlCall::Start));
    let run = run.advance(ended());
    assert_eq!(run.step, ServiceStep::Succeeded(ServiceOutcome::Started));
    let report = service_report(&ServiceOutcome::Stopped, "/u");
    assert_eq!(report[1].name, "action");
    assert_eq!(report[1].value, DetailValue::Text("stop".to_owned()));
    let absent = service_report(&ServiceOutcome::Absent, "/u");
    assert_eq!(absent[1].value, DetailValue::Text("not-found".to_owned()));
    let gone = ServiceRun::start(ServiceCommand::Stop, None)
        .advance(ServiceAnswer::Entry(UnitEntry::Missing));
    assert!(matches!(&gone.step, ServiceStep::Failed(error) if error.code == "service_not_installed"));
}
