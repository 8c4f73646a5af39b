//! Launching a browser.
use vstd::prelude::*;
use crate::cli::error;
use crate::cli::error::{CliError, CliErrorModel};
use crate::text;

verus! {

/// How long a browser command is watched, in milliseconds.
pub const BROWSER_WATCH_MILLISECONDS: u64 = 100;

/// The command that launches a browser: the configured one, or the platform's.
pub fn browser_command(configured: Option<&str>, is_macos: bool) -> (command: String)
    ensures
        command@ == match configured {
            Some(value) => value@,
            None => if is_macos {
                "open"@
            } else {
                "xdg-open"@
            },
        },
{
    match configured {
        Some(value) => text::copy_of(value),
        None => {
            if is_macos {
                text::copy_of("open")
            } else {
                text::copy_of("xdg-open")
            }
        },
    }
}

/// What came of a browser command.
#[derive(Debug, PartialEq, Eq)]
pub enum BrowserEnd {
    /// It could not be started, for the reason given.
    NotStarted(String),
    /// It could not be waited for, for the reason given.
    NotWaitedFor(String),
    /// It was still running when the watch ended.
    Running,
    /// It ended, with the status as it is shown.
    Exited { success: bool, status: String },
}

/// A failure to launch a browser.
pub open spec fn launch_failure(message: Seq<char>) -> CliErrorModel {
    error::plain("browser_launch_failed"@, message)
}

/// Why a browser was not launched; nothing where it was.
pub open spec fn launch_fault(end: BrowserEnd) -> Option<CliErrorModel> {
    match end {
        BrowserEnd::NotStarted(reason) => Some(
            launch_failure("could not launch browser: "@ + reason@),
        ),
        BrowserEnd::NotWaitedFor(reason) => Some(
            launch_failure("could not wait for browser: "@ + reason@),
        ),
        BrowserEnd::Running => None,
        BrowserEnd::Exited { success, status } => if success {
            None
        } else {
            Some(launch_failure("browser command exited with "@ + status@))
        },
    }
}

/// Judges what came of a browser command: one that is still running counts as launched.
pub fn launch_result(end: BrowserEnd) -> (result: Result<(), CliError>)
    ensures
        match result {
            Ok(_) => launch_fault(end) is None,
            Err(failure) => launch_fault(end) == Some(failure@),
        },
{
    let message = match end {
        BrowserEnd::NotStarted(reason) => text::joined(
            "could not launch browser: ",
            reason.as_str(),
        ),
        BrowserEnd::NotWaitedFor(reason) => text::joined(
            "could not wait for browser: ",
            reason.as_str(),
        ),
        BrowserEnd::Running => {
            return Ok(());
        },
        BrowserEnd::Exited { success, status } => {
            if success {
                return Ok(());
            }
            text::joined("browser command exited with ", status.as_str())
        },
    };
    Err(CliError::new("browser_launch_failed", message.as_str()))
}

/// What is reported of a browser launch: whether it was asked for, whether it worked, and why
/// not.
#[derive(Debug, PartialEq, Eq)]
pub struct BrowserLaunch {
    pub requested: bool,
    pub opened: bool,
    pub error: Option<CliError>,
}

/// What is reported of a browser launch; nothing came where none was asked for. A publication
/// stays successful whatever came.
pub fn report_launch(end: Option<BrowserEnd>) -> (report: BrowserLaunch)
    ensures
        report.requested == end is Some,
        match (report.error, end) {
            (None, None) => !report.opened,
            (None, Some(came)) => report.opened && launch_fault(came) is None,
            (Some(failure), Some(came)) => !report.opened && launch_fault(came) == Some(failure@),
            (Some(_), None) => false,
        },
{
    match end {
        None => BrowserLaunch { requested: false, opened: false, error: None },
        Some(came) => match launch_result(came) {
            Ok(_) => BrowserLaunch { requested: true, opened: true, error: None },
            Err(failure) => BrowserLaunch { requested: true, opened: false, error: Some(failure) },
        },
    }
}

} // verus!
