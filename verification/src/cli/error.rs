//! The errors of the command line.
use vstd::prelude::*;
use crate::details;
use crate::details::{Detail, DetailValue, ValueModel};
use crate::text;

verus! {

/// The version of the command line's JSON.
pub const CLI_SCHEMA_VERSION: u32 = 1;

/// Why a command failed.
#[derive(Debug, Clone, PartialEq, Eq)]
pub struct CliError {
    pub code: String,
    pub message: String,
    pub details: Vec<Detail>,
}

/// The model of a failure.
pub struct CliErrorModel {
    pub code: Seq<char>,
    pub message: Seq<char>,
    pub details: Seq<(Seq<char>, ValueModel)>,
}

impl View for CliError {
    type V = CliErrorModel;

    open spec fn view(&self) -> CliErrorModel {
        CliErrorModel {
            code: self.code@,
            message: self.message@,
            details: details::models(self.details@),
        }
    }
}

/// A failure without details.
pub open spec fn plain(code: Seq<char>, message: Seq<char>) -> CliErrorModel {
    CliErrorModel { code, message, details: Seq::empty() }
}

/// A failure of how the command was called.
pub open spec fn usage(message: Seq<char>) -> CliErrorModel {
    plain("usage_error"@, message)
}

impl CliError {
    /// A failure without details.
    pub fn new(code: &str, message: &str) -> (error: Self)
        ensures
            error@ == plain(code@, message@),
    {
        let details: Vec<Detail> = Vec::new();
        assert(details::models(details@) =~= Seq::<(Seq<char>, ValueModel)>::empty());
        CliError { code: text::copy_of(code), message: text::copy_of(message), details }
    }

    /// The failure with these details in place of its own.
    pub fn with_details(self, details: Vec<Detail>) -> (error: Self)
        ensures
            error@ == (CliErrorModel { details: details::models(details@), ..self@ }),
    {
        CliError { code: self.code, message: self.message, details }
    }

    /// A failure of how the command was called.
    pub fn usage(message: &str) -> (error: Self)
        ensures
            error@ == usage(message@),
    {
        CliError::new("usage_error", message)
    }
}

/// The failure with a note that the publication may have succeeded all the same.
pub open spec fn doubtful(error: CliErrorModel) -> CliErrorModel {
    CliErrorModel {
        details: details::with_value(
            error.details,
            "publication_may_have_succeeded"@,
            ValueModel::Flag(true),
        ),
        ..error
    }
}

/// Notes that the publication may have succeeded all the same.
pub fn publication_may_have_succeeded(error: CliError) -> (result: CliError)
    ensures
        result@ == doubtful(error@),
{
    let mut error = error;
    details::set_value(
        &mut error.details,
        "publication_may_have_succeeded",
        DetailValue::Flag(true),
    );
    error
}

/// The failure that an answer of the daemon stands for: its own code and message where it has
/// them, its details, and the status.
pub open spec fn daemon_failure(
    status: u16,
    code: Option<Seq<char>>,
    message: Option<Seq<char>>,
    details: Seq<(Seq<char>, ValueModel)>,
) -> CliErrorModel {
    CliErrorModel {
        code: match code {
            Some(value) => value,
            None => "daemon_rejected"@,
        },
        message: match message {
            Some(value) => value,
            None => "daemon rejected the request"@,
        },
        details: details::with_value(details, "http_status"@, ValueModel::Number(status as int)),
    }
}

/// The failure that an answer of the daemon stands for.
pub fn daemon_error(
    status: u16,
    code: Option<&str>,
    message: Option<&str>,
    details: Vec<Detail>,
) -> (error: CliError)
    ensures
        error@ == daemon_failure(
            status,
            match code {
                Some(value) => Some(value@),
                None => None,
            },
            match message {
                Some(value) => Some(value@),
                None => None,
            },
            details::models(details@),
        ),
{
    let mut details = details;
    details::set_value(&mut details, "http_status", DetailValue::Unsigned(status as u64));
    let code = match code {
        Some(value) => value,
        None => "daemon_rejected",
    };
    let message = match message {
        Some(value) => value,
        None => "daemon rejected the request",
    };
    CliError { code: text::copy_of(code), message: text::copy_of(message), details }
}

} // verus!
