//! Talking to the daemon: what its answers amount to.
use vstd::prelude::*;
use crate::cli::address;
use crate::cli::error;
use crate::cli::error::{CliError, CliErrorModel};
use crate::details;
use crate::details::{Detail, ValueModel};
use crate::storage::session;
use crate::text;

verus! {

/// The longest answer that is read, in bytes.
pub const MAX_RESPONSE_BYTES: usize = 1_048_576;

// ---- an answer's bytes ----

/// The failure of an answer that is too long.
pub open spec fn oversized_failure() -> CliErrorModel {
    error::plain("daemon_response_too_large"@, "daemon response exceeds 1 MiB"@)
}

fn oversized() -> (failure: CliError)
    ensures
        failure@ == oversized_failure(),
{
    CliError::new("daemon_response_too_large", "daemon response exceeds 1 MiB")
}

/// Checks the length that an answer announces.
pub fn check_response_length(length: Option<u64>) -> (result: Result<(), CliError>)
    ensures
        match result {
            Ok(_) => length matches Some(bytes) ==> bytes <= MAX_RESPONSE_BYTES,
            Err(failure) => length matches Some(bytes) && bytes > MAX_RESPONSE_BYTES && failure@
                == oversized_failure(),
        },
{
    match length {
        Some(bytes) => {
            if bytes > MAX_RESPONSE_BYTES as u64 {
                Err(oversized())
            } else {
                Ok(())
            }
        },
        None => Ok(()),
    }
}

/// Takes in the next piece of an answer, unless the answer would then be too long.
pub fn extend_response(response: &mut Vec<u8>, piece: &[u8]) -> (result: Result<(), CliError>)
    ensures
        match result {
            Ok(_) => old(response)@.len() + piece@.len() <= MAX_RESPONSE_BYTES && final(response)@
                == old(response)@ + piece@,
            Err(failure) => old(response)@.len() + piece@.len() > MAX_RESPONSE_BYTES
                && final(response)@ == old(response)@ && failure@ == oversized_failure(),
        },
{
    if response.len() > MAX_RESPONSE_BYTES || piece.len() > MAX_RESPONSE_BYTES - response.len() {
        return Err(oversized());
    }
    let ghost before = response@;
    let mut i: usize = 0;
    while i < piece.len()
        invariant
            i <= piece.len(),
            response@ == before + piece@.take(i as int),
        decreases piece.len() - i,
    {
        response.push(piece[i]);
        assert(piece@.take(i + 1) =~= piece@.take(i as int).push(piece@[i as int]));
        i += 1;
    }
    assert(piece@.take(piece@.len() as int) =~= piece@);
    Ok(())
}

/// The failure of an answer that is no JSON.
pub fn malformed_response() -> (failure: CliError)
    ensures
        failure@ == error::plain(
            "malformed_daemon_response"@,
            "daemon response is not valid JSON"@,
        ),
{
    CliError::new("malformed_daemon_response", "daemon response is not valid JSON")
}

/// The failure to reach the daemon.
pub fn daemon_unavailable(reason: &str) -> (failure: CliError)
    ensures
        failure@ == error::plain(
            "daemon_unavailable"@,
            "could not reach daemon: "@ + reason@,
        ),
{
    let message = text::joined("could not reach daemon: ", reason);
    CliError::new("daemon_unavailable", message.as_str())
}

/// The failure to find the token that the daemon asks for.
pub fn token_unavailable(reason: &str) -> (failure: CliError)
    ensures
        failure@ == error::plain(
            "configuration_error"@,
            "could not resolve daemon access token: "@ + reason@,
        ),
{
    let message = text::joined("could not resolve daemon access token: ", reason);
    CliError::new("configuration_error", message.as_str())
}

// ---- the daemon's own failures ----

/// What an answer says of a failure: its code and message where they are text, and its details.
#[derive(Debug, PartialEq, Eq)]
pub struct FailureBody {
    pub code: Option<String>,
    pub message: Option<String>,
    pub details: Vec<Detail>,
}

/// The failure that an answer with this status and body stands for.
pub open spec fn body_failure(status: u16, body: FailureBody) -> CliErrorModel {
    error::daemon_failure(
        status,
        text::optional(body.code),
        text::optional(body.message),
        details::models(body.details@),
    )
}

fn body_error(status: u16, body: FailureBody) -> (failure: CliError)
    ensures
        failure@ == body_failure(status, body),
{
    let FailureBody { code, message, details } = body;
    let code: Option<&str> = match &code {
        Some(value) => Some(value.as_str()),
        None => None,
    };
    let message: Option<&str> = match &message {
        Some(value) => Some(value.as_str()),
        None => None,
    };
    error::daemon_error(status, code, message, details)
}

/// Judges the status of an answer: from 200 to 299 the daemon did what it was asked.
pub fn judge_status(status: u16, body: FailureBody) -> (result: Result<(), CliError>)
    ensures
        match result {
            Ok(_) => 200 <= status <= 299,
            Err(failure) => !(200 <= status <= 299) && failure@ == body_failure(status, body),
        },
{
    if 200 <= status && status <= 299 {
        Ok(())
    } else {
        Err(body_error(status, body))
    }
}

// ---- the answer to a publication ----

/// What the answer to a publication names: the session's public ID, the post's ID, and the public
/// ID of the post's session.
#[derive(Debug, PartialEq, Eq)]
pub struct PublicationReply {
    pub session_public_id: String,
    pub post_id: i64,
    pub post_session_public_id: String,
    /// Whether the answer is an object.
    pub is_object: bool,
}

/// Where a publication can be seen.
#[derive(Debug, PartialEq, Eq)]
pub struct PublicationLinks {
    pub viewer_url: String,
    pub post_url: String,
}

/// The failure of an answer to a publication that cannot be believed. The publication may have
/// succeeded all the same.
pub open spec fn doubtful_reply(message: Seq<char>) -> CliErrorModel {
    error::doubtful(error::plain("malformed_daemon_response"@, message))
}

fn doubt(message: &str) -> (failure: CliError)
    ensures
        failure@ == doubtful_reply(message@),
{
    error::publication_may_have_succeeded(CliError::new("malformed_daemon_response", message))
}

/// Whether a text can be a session's public ID: six or more characters of the alphabet.
pub open spec fn is_session_id(value: Seq<char>) -> bool {
    value.len() >= 6 && session::is_public_id(value)
}

fn session_id(value: &str) -> (yes: bool)
    ensures
        yes == is_session_id(value@),
{
    let chars = text::chars_of(value);
    if chars.len() < 6 {
        return false;
    }
    let mut i: usize = 0;
    while i < chars.len()
        invariant
            i <= chars.len(),
            chars@ == value@,
            forall|j: int| 0 <= j < i ==> session::is_base58(#[trigger] chars@[j]),
        decreases chars.len() - i,
    {
        let c = chars[i];
        if !text::ascii_alphanumeric(c) || c == '0' || c == 'O' || c == 'I' || c == 'l' {
            assert(!session::is_base58(value@[i as int]));
            return false;
        }
        i += 1;
    }
    true
}

/// What is wrong with the answer to a publication.
pub open spec fn reply_fault(reply: Option<PublicationReply>) -> Option<Seq<char>> {
    match reply {
        None => Some(
            "publication response is missing required session or post structure"@,
        ),
        Some(found) => if !is_session_id(found.session_public_id@) {
            Some("publication response contains an invalid session.public_id"@)
        } else if found.post_id <= 0 {
            Some("publication response contains a non-positive post.id"@)
        } else if found.post_session_public_id@ != found.session_public_id@ {
            Some(
                "publication response post.session_public_id does not match session.public_id"@,
            )
        } else if !found.is_object {
            Some("publication response must be an object"@)
        } else {
            None
        },
    }
}

/// What became of a publication: where it can be seen, or why it failed. Only status 201 tells of
/// success.
pub open spec fn publication_outcome(
    base: Seq<char>,
    status: u16,
    body: FailureBody,
    reply: Option<PublicationReply>,
) -> Result<(Seq<char>, Seq<char>), CliErrorModel> {
    if status != 201 {
        Err(body_failure(status, body))
    } else {
        match reply_fault(reply) {
            Some(message) => Err(doubtful_reply(message)),
            None => Ok(
                (
                    address::session_page(base, reply->0.session_public_id@),
                    address::post_place(base, reply->0.session_public_id@, reply->0.post_id),
                ),
            ),
        }
    }
}

/// Judges the answer to a publication. `reply` is what the answer names, where it has the shape of
/// one.
pub fn conclude_publication(
    base: &str,
    status: u16,
    body: FailureBody,
    reply: Option<PublicationReply>,
) -> (result: Result<PublicationLinks, CliError>)
    ensures
        match (result, publication_outcome(base@, status, body, reply)) {
            (Ok(links), Ok(model)) => (links.viewer_url@, links.post_url@) == model,
            (Err(failure), Err(model)) => failure@ == model,
            _ => false,
        },
{
    if status != 201 {
        return Err(body_error(status, body));
    }
    let found = match reply {
        Some(found) => found,
        None => {
            return Err(
                doubt("publication response is missing required session or post structure"),
            );
        },
    };
    if !session_id(found.session_public_id.as_str()) {
        return Err(doubt("publication response contains an invalid session.public_id"));
    }
    if found.post_id <= 0 {
        return Err(doubt("publication response contains a non-positive post.id"));
    }
    if !text::same_text(
        found.post_session_public_id.as_str(),
        found.session_public_id.as_str(),
    ) {
        return Err(
            doubt("publication response post.session_public_id does not match session.public_id"),
        );
    }
    if !found.is_object {
        return Err(doubt("publication response must be an object"));
    }
    Ok(
        PublicationLinks {
            viewer_url: address::viewer_url(base, found.session_public_id.as_str()),
            post_url: address::post_url(base, found.session_public_id.as_str(), found.post_id),
        },
    )
}

proof fn lemma_flag_stands(
    list: Seq<(Seq<char>, ValueModel)>,
    name: Seq<char>,
    value: ValueModel,
    i: int,
)
    requires
        0 <= i,
    ensures
        details::place_of(list, name, i) matches Some(at) ==> i <= at < list.len(),
    decreases list.len() - i,
{
    if i < list.len() {
        lemma_flag_stands(list, name, value, i + 1);
    }
}

/// Once the daemon has answered 201, no failure that is told claims that nothing was published:
/// each says that the publication may have succeeded.
pub proof fn law_doubt_is_told(
    base: Seq<char>,
    body: FailureBody,
    reply: Option<PublicationReply>,
)
    ensures
        publication_outcome(base, 201, body, reply) matches Err(failure)
            ==> failure.details.contains(
            ("publication_may_have_succeeded"@, ValueModel::Flag(true)),
        ),
{
    if let Err(failure) = publication_outcome(base, 201, body, reply) {
        let empty = Seq::<(Seq<char>, ValueModel)>::empty();
        lemma_flag_stands(
            empty,
            "publication_may_have_succeeded"@,
            ValueModel::Flag(true),
            0,
        );
        assert(failure.details[0] == (
            "publication_may_have_succeeded"@,
            ValueModel::Flag(true),
        ));
    }
}

} // verus!
