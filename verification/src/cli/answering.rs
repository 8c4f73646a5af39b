//! What the functions of the command line give back, stated of their results.
use vstd::prelude::*;
use vstd::utf8::*;
use crate::cli::address;
use crate::cli::arguments;
use crate::cli::assets::collection;
use crate::cli::browser;
use crate::cli::browser::{BrowserEnd, BrowserLaunch};
use crate::cli::error;
use crate::cli::error::CliError;
use crate::cli::flags;
use crate::cli::flags::{CommentarySource, FlagValue};
use crate::cli::git;
use crate::cli::publication;
use crate::cli::sending;
use crate::cli::sending::FailureBody;
use crate::details::{Detail, ValueModel};
use crate::number;
use crate::service::control;
use crate::service::unit;
use crate::service::unit::UnitEntry;

verus! {

// ---- failures ----

/// A failure has the code and the message that it was made with, and no details; one of how the command
/// was called has the code `usage_error`.
pub proof fn law_failures_say_what_they_are_given(
    code: &str,
    message: &str,
    made: CliError,
    misused: CliError,
)
    requires
        call_ensures(CliError::new, (code, message), made),
        call_ensures(CliError::usage, (message,), misused),
    ensures
        made@.code == code@,
        made@.message == message@,
        made@.details.len() == 0,
        misused@.code == "usage_error"@,
        misused@.message == message@,
        misused@.details.len() == 0,
{
}

/// A failure that the daemon answered keeps the daemon's code and message.
pub proof fn law_the_daemons_failures_are_kept(
    status: u16,
    code: Option<&str>,
    message: Option<&str>,
    details: Vec<Detail>,
    failure: CliError,
)
    requires
        call_ensures(error::daemon_error, (status, code, message, details), failure),
    ensures
        code is Some ==> failure@.code == code->0@,
        code is None ==> failure@.code == "daemon_rejected"@,
        message is Some ==> failure@.message == message->0@,
        message is None ==> failure@.message == "daemon rejected the request"@,
        details@.len() == 0 ==> failure@.details == seq![
            ("http_status"@, ValueModel::Number(status as int)),
        ],
{
    if details@.len() == 0 {
        assert(crate::details::models(details@) =~= Seq::<(Seq<char>, ValueModel)>::empty());
        assert(failure@.details =~= seq![("http_status"@, ValueModel::Number(status as int))]);
    }
}

/// A note that a publication may have succeeded changes neither code nor message.
pub proof fn law_doubt_changes_no_failure(failure: CliError, noted: CliError)
    requires
        call_ensures(error::publication_may_have_succeeded, (failure,), noted),
    ensures
        noted@.code == failure@.code,
        noted@.message == failure@.message,
        failure@.details.len() == 0 ==> noted@.details == seq![
            ("publication_may_have_succeeded"@, ValueModel::Flag(true)),
        ],
{
    if failure@.details.len() == 0 {
        assert(noted@.details =~= seq![
            ("publication_may_have_succeeded"@, ValueModel::Flag(true)),
        ]);
    }
}

/// Failures are told by their kind, each under a code of its own and with its own message.
pub proof fn law_failures_are_told_by_kind(message: Seq<char>)
    ensures
        git::git_failure(message).code == "git_error"@,
        address::configuration_failure(message).code == "configuration_error"@,
        browser::launch_failure(message).code == "browser_launch_failed"@,
        publication::validation_failure(message).code == "validation_error"@,
        publication::filesystem_failure(message).code == "filesystem_error"@,
        publication::collection_failure(message).code == "asset_collection_error"@,
        publication::manifest_failure().code == "schema_error"@,
        arguments::public_id_failure().code == "usage_error"@,
        unit::inspection_failure().code == "service_filesystem_error"@,
        unit::unmanaged_failure().code == "service_unit_unmanaged"@,
        control::malformed_failure().code == "service_status_malformed"@,
        git::git_failure(message).message == message,
        address::configuration_failure(message).message == message,
        browser::launch_failure(message).message == message,
        publication::validation_failure(message).message == message,
        publication::filesystem_failure(message).message == message,
        publication::collection_failure(message).message == message,
{
}

// ---- sending ----

/// The daemon did what it was asked exactly where its status is in the two hundreds.
pub proof fn law_which_answers_are_good(status: u16, body: FailureBody, result: Result<(), CliError>)
    requires
        call_ensures(sending::judge_status, (status, body), result),
    ensures
        result is Ok <==> status / 100 == 2,
{
}

/// An answer is read exactly where it does not announce more than 1 MiB.
pub proof fn law_long_answers_are_refused(length: Option<u64>, result: Result<(), CliError>)
    requires
        call_ensures(sending::check_response_length, (length,), result),
    ensures
        result is Ok <==> length is None || length->0 <= 1024 * 1024,
        result matches Err(failure) ==> failure@.code == "daemon_response_too_large"@,
{
}

/// The bytes of an answer are put one after the other, 1 MiB at most; what would be longer is refused
/// and leaves what was there.
pub proof fn law_answers_are_put_together(
    response: &mut Vec<u8>,
    piece: &[u8],
    result: Result<(), CliError>,
)
    requires
        call_ensures(sending::extend_response, (response, piece), result),
    ensures
        result is Ok <==> old(response)@.len() + piece@.len() <= 1024 * 1024,
        result is Ok ==> final(response)@ == old(response)@ + piece@,
        result matches Err(failure) ==> failure@.code == "daemon_response_too_large"@ && final(response)@
            == old(response)@,
{
}

/// Sessions are seen on their pages, and posts at their places there.
pub proof fn law_links_lead_to_pages(
    base: &str,
    public_id: &str,
    post_id: i64,
    session: String,
    post: String,
)
    requires
        call_ensures(address::viewer_url, (base, public_id), session),
        call_ensures(address::post_url, (base, public_id, post_id), post),
        post_id > 0,
    ensures
        session@ == base@ + "/sessions/"@ + public_id@,
        post@ == session@ + "#post-"@ + number::decimal(post_id as nat),
{
}

/// Answers that are no JSON, daemons that cannot be reached and tokens that cannot be found are told
/// apart.
pub proof fn law_sending_failures_are_told_apart(
    reason: &str,
    malformed: CliError,
    unreachable: CliError,
    tokenless: CliError,
)
    requires
        call_ensures(sending::malformed_response, (), malformed),
        call_ensures(sending::daemon_unavailable, (reason,), unreachable),
        call_ensures(sending::token_unavailable, (reason,), tokenless),
    ensures
        malformed@.code == "malformed_daemon_response"@,
        unreachable@.code == "daemon_unavailable"@,
        tokenless@.code == "configuration_error"@,
        unreachable@.message == "could not reach daemon: "@ + reason@,
        tokenless@.message == "could not resolve daemon access token: "@ + reason@,
{
}

// ---- input ----

/// A publication on standard input is read up to 1 MiB, and where it names no version or the first.
pub proof fn law_which_publications_are_read(
    len: u64,
    version: Option<u64>,
    sized: Result<(), CliError>,
    dated: Result<(), CliError>,
)
    requires
        call_ensures(flags::check_stdin_size, (len,), sized),
        call_ensures(flags::check_schema_version, (version,), dated),
    ensures
        sized is Ok <==> len <= 1024 * 1024,
        sized matches Err(failure) ==> failure@.code == "stdin_too_large"@,
        dated is Ok <==> version is None || version->0 == 1,
        dated matches Err(failure) ==> failure@.code == "unsupported_schema_version"@,
{
}

/// Commentary is the text that its bytes encode, 64 KiB of it at most.
pub proof fn law_commentary_is_text(bytes: &[u8], result: Result<String, CliError>)
    requires
        call_ensures(flags::accept_commentary, (bytes,), result),
    ensures
        result is Ok <==> valid_utf8(bytes@) && bytes@.len() <= 64 * 1024,
        result matches Ok(commentary) ==> encode_utf8(commentary@) == bytes@,
        result matches Err(failure) ==> failure@.code == "validation_error"@,
{
    if valid_utf8(bytes@) {
        decode_utf8_encode_utf8(bytes@);
    }
}

/// Commentary is the given one, or else what the given file holds; without either the command was
/// called wrongly.
pub proof fn law_given_commentary_comes_first(
    values: &[FlagValue],
    result: Result<CommentarySource, CliError>,
)
    requires
        call_ensures(flags::commentary_source, (values,), result),
    ensures
        ({
            let written = flags::flag_value(flags::flag_models(values@), "--commentary"@);
            let filed = flags::flag_value(flags::flag_models(values@), "--commentary-file"@);
            &&& written is Some ==> (result matches Ok(CommentarySource::Text(value)) && value@ == written->0)
            &&& written is None && filed is Some ==> (result matches Ok(CommentarySource::File(path))
                && path@ == filed->0)
            &&& written is None && filed is None ==> (result matches Err(failure) && failure@.code
                == "usage_error"@)
        }),
{
}

/// The path of a repository is sent exactly where it is 4096 bytes at most.
pub proof fn law_which_roots_are_sent(root: &str, result: Result<(), CliError>)
    requires
        call_ensures(git::check_root, (root,), result),
    ensures
        result is Ok <==> encode_utf8(root@).len() <= 4096,
{
}

/// A manifest is sent exactly where it is 64 KiB at most.
pub proof fn law_which_manifests_are_sent(len: usize, result: Result<(), CliError>)
    requires
        call_ensures(publication::check_manifest_size, (len,), result),
    ensures
        result is Ok <==> len <= 64 * 1024,
{
}

/// A file that cannot be collected is told by its path.
pub proof fn law_uncollected_files_are_told(location: &str, result: Result<(), String>)
    requires
        call_ensures(collection::ensure_supported_dependency, (location,), result),
    ensures
        result is Ok <==> collection::is_supported(location@),
        result matches Err(message) ==> message@ == "unsupported local dependency type: "@ + location@,
{
}

// ---- the browser ----

/// The configured browser is run, or else what the system opens pages with.
pub proof fn law_which_browser_is_run(configured: Option<&str>, is_macos: bool, command: String)
    requires
        call_ensures(browser::browser_command, (configured, is_macos), command),
    ensures
        configured is Some ==> command@ == configured->0@,
        configured is None && is_macos ==> command@ == "open"@,
        configured is None && !is_macos ==> command@ == "xdg-open"@,
{
}

/// A page is reported as asked for exactly where it was, as opened exactly where the browser did not
/// fail, and with a failure exactly where it did.
pub proof fn law_launches_are_reported(end: Option<BrowserEnd>, report: BrowserLaunch)
    requires
        call_ensures(browser::report_launch, (end,), report),
    ensures
        report.requested <==> end is Some,
        report.opened <==> end is Some && browser::launch_fault(end->0) is None,
        report.error is Some <==> end is Some && browser::launch_fault(end->0) is Some,
        report.opened ==> report.requested,
{
}

// ---- the unit ----

/// A unit is there exactly where something stands at its path; what cannot be looked at is neither.
pub proof fn law_which_units_are_there(entry: UnitEntry, result: Result<bool, CliError>)
    requires
        call_ensures(unit::unit_entry_exists, (entry,), result),
    ensures
        result is Err <==> entry == UnitEntry::Unknown,
        result matches Ok(there) ==> (there <==> entry != UnitEntry::Missing),
{
}

} // verus!
