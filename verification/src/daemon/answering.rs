//! What the functions of the daemon give back, stated of their results.
use vstd::prelude::*;
use crate::daemon::cleanup;
use crate::daemon::cleanup::CleanupFault;
use crate::daemon::config::{AccessConfiguration, AccessModel};
use crate::daemon::credential;
use crate::daemon::credential::{TokenAnswer, TokenModel, TokenStep};
use crate::daemon::origin;
use crate::daemon::origin::OriginParts;
use crate::daemon::token;
use crate::daemon::token::AccessToken;
use crate::logging;
use crate::logging::{LogLevel, Logger};
use crate::storage::lifecycle::LifecycleReport;

verus! {

/// Sessions are looked back at for seven days exactly: the cutoff is so long before the clock, and there
/// is none where the clock has not come that far.
pub proof fn law_the_cutoff_is_a_week_back(seconds: Option<u64>, result: Result<i64, String>)
    requires
        call_ensures(cleanup::cleanup_cutoff, (seconds,), result),
    ensures
        result matches Ok(cutoff) ==> seconds is Some && cutoff + 7 * 24 * 60 * 60 == seconds->0,
        result is Ok <==> seconds is Some && 604_800 <= seconds->0 <= 604_800 + 0x7fff_ffff_ffff_ffff,
{
}

/// A cleanup that is done is told where everything is told, and one that failed always; both name what
/// started them.
pub proof fn law_cleanups_are_told(
    logger: &Logger,
    trigger: &str,
    report: &LifecycleReport,
    fault: CleanupFault,
    seconds: Option<u64>,
    done: Option<Vec<u8>>,
    failed: Option<Vec<u8>>,
)
    requires
        call_ensures(cleanup::log_cleanup_completed, (logger, trigger, report, seconds), done),
        call_ensures(cleanup::log_cleanup_failed, (logger, trigger, fault, seconds), failed),
    ensures
        done is Some <==> logger.level == LogLevel::Info,
        failed is Some,
        ({
            let category = if fault == CleanupFault::Worker {
                "cleanup_worker_failed"@
            } else {
                "cleanup_operation_failed"@
            };
            failed->0@ == logging::line_of(
                logging::json_object(
                    logging::line_fields(
                        LogLevel::Error,
                        "cleanup_failed"@,
                        if seconds is Some {
                            seconds->0
                        } else {
                            0
                        },
                        seq![
                            ("trigger"@, logging::LogModel::Text(trigger@)),
                            ("category"@, logging::LogModel::Text(category)),
                        ],
                    ),
                ),
            )
        }),
{
}

/// A token that is to be loaded is looked for; one that is there is opened, checked and read, and where
/// none is a directory is made, a token generated, its file created and written; then it is ready. A file
/// that turns up meanwhile is taken instead.
pub proof fn law_how_tokens_are_made_ready(
    step: TokenModel,
    made: AccessToken,
    fresh: TokenStep,
    known: TokenStep,
    regular: bool,
    mode: u32,
    content: String,
    value: Seq<char>,
)
    requires
        call_ensures(TokenStep::load_or_create, (), fresh),
        call_ensures(TokenStep::load, (), known),
    ensures
        fresh@ is Inspect,
        known@ is Open,
        step is Inspect ==> credential::step_after(step, TokenAnswer::Found) is Open,
        step is Inspect ==> credential::step_after(step, TokenAnswer::Missing) is MakeDirectory,
        step is MakeDirectory ==> credential::step_after(step, TokenAnswer::Done) is Generate,
        step is MakeDirectory ==> credential::step_after(step, TokenAnswer::NoDirectory) is Failed,
        step is Generate ==> credential::step_after(step, TokenAnswer::Token(made)) == TokenModel::Create(
            made@,
        ),
        step == TokenModel::Create(value) ==> credential::step_after(step, TokenAnswer::Done)
            == TokenModel::Write(value),
        step == TokenModel::Create(value) ==> credential::step_after(step, TokenAnswer::Found) is Open,
        step == TokenModel::Write(value) ==> credential::step_after(step, TokenAnswer::Done)
            == TokenModel::Ready(value),
        step is Open ==> credential::step_after(step, TokenAnswer::Done) is Check,
        step is Check ==> (if regular && mode % 64 == 0 {
            credential::step_after(step, TokenAnswer::Kind { regular, mode }) is Read
        } else {
            credential::step_after(step, TokenAnswer::Kind { regular, mode }) is Failed
        }),
        step is Read ==> (if token::is_access_token(content@) {
            credential::step_after(step, TokenAnswer::Content(content)) == TokenModel::Ready(content@)
        } else {
            credential::step_after(step, TokenAnswer::Content(content)) is Failed
        }),
{
    crate::bounds::law_which_token_files_are_read(regular, mode);
}

/// Whatever fails, no token is ready: the failure stands, once a file that was not written is removed.
pub proof fn law_failed_steps_give_no_token(step: TokenModel, reason: String, message: Seq<char>)
    requires
        !(step is Ready),
    ensures
        ({
            let after = credential::step_after(step, TokenAnswer::Failed(reason));
            &&& step is Write ==> after is Remove
            &&& !(step is Write) ==> after is Failed
            &&& step == TokenModel::Remove(message) ==> after == TokenModel::Failed(message)
        }),
        step == TokenModel::Remove(message) ==> credential::step_after(step, TokenAnswer::Done)
            == TokenModel::Failed(message),
{
}

/// An origin has the port that it names, or else that of its scheme: 443 for HTTPS and 80 for HTTP.
pub proof fn law_origins_have_ports(parts: &OriginParts, port: u16, secure: bool)
    requires
        call_ensures(origin::port_of, (parts,), port),
        call_ensures(origin::is_https, (parts,), secure),
    ensures
        parts@.port is Some ==> port == parts@.port->0,
        parts@.port is None && secure ==> port == 443,
        parts@.port is None && !secure ==> port == 80,
        secure <==> parts@.scheme == Some("https"@),
{
    reveal_strlit("https");
    reveal_strlit("");
    assert(""@.len() == 0 && "https"@.len() == 5);
}

/// The command line reads the token file exactly where the daemon asks for a token: the daemon's own.
pub proof fn law_the_token_is_read_where_it_is_asked_for(
    access: &AccessConfiguration,
    file: Option<Vec<u8>>,
)
    requires
        call_ensures(token::resolve_client_access_token, (access,), file),
    ensures
        file is Some <==> access@ is Token,
        access@ matches AccessModel::Token { token_file, .. } ==> file is Some && file->0@ == token_file,
{
}

/// A token is read exactly where it is 64 digits and letters from `a` to `f`, as it is; a file holds
/// nothing but the token.
pub proof fn law_which_tokens_are_read(
    value: &str,
    given: Result<AccessToken, String>,
    held: Result<AccessToken, String>,
)
    requires
        call_ensures(AccessToken::parse, (value,), given),
        call_ensures(token::read_access_token, (value,), held),
    ensures
        given is Ok <==> value@.len() == 64 && (forall|i: int|
            0 <= i < 64 ==> ('0' <= #[trigger] value@[i] <= '9' || 'a' <= value@[i] <= 'f')),
        held is Ok <==> given is Ok,
        given matches Ok(token) ==> token@ == value@,
        held matches Ok(token) ==> token@ == value@,
{
    let good = forall|i: int|
        0 <= i < 64 ==> ('0' <= #[trigger] value@[i] <= '9' || 'a' <= value@[i] <= 'f');
    if token::is_access_token(value@) {
        assert forall|i: int| 0 <= i < 64 implies ('0' <= #[trigger] value@[i] <= '9' || 'a' <= value@[i]
            <= 'f') by {
            assert(crate::hex::is_lower_hex(value@[i]));
        }
    } else if value@.len() == 64 && good {
        assert forall|i: int| 0 <= i < 64 implies crate::hex::is_lower_hex(#[trigger] value@[i]) by {}
    }
}

} // verus!
