//! What the functions of the interface give back, stated of their results.
use vstd::prelude::*;
use vstd::utf8::*;
use crate::api::artifact;
use crate::api::auth;
use crate::api::error::ApiError;
use crate::api::feed;
use crate::api::feed::{ChannelEvent, FeedAction, FeedScope, FeedStart};
use crate::api::guarding;
use crate::api::manifest;
use crate::api::manifest::{PartLedger, ResolveSessionRequest};
use crate::api::paths;
use crate::daemon::origin::IpAddress;
use crate::number;
use crate::storage::classification::ArtifactRenderer;
use crate::storage::lifecycle::LifecycleReport;
use crate::storage::read::PostFileRead;
use crate::storage::session;
use crate::text;

verus! {

/// JSON that cannot be read is answered with 400, and a daemon without a store answers 503.
pub proof fn law_unreadable_and_unavailable(one: ApiError, other: ApiError)
    requires
        call_ensures(ApiError::malformed_json, (), one),
        call_ensures(ApiError::unavailable, (), other),
    ensures
        one@.status == 400,
        one@.code == "malformed_json"@,
        other@.status == 503,
        other@.code == "storage_unavailable"@,
{
}

// ---- feeds ----

/// A feed replays up to a hundred posts, and starts its reader anew where there are more.
pub proof fn law_feeds_replay_a_hundred(found: usize, start: FeedStart)
    requires
        call_ensures(feed::feed_start, (found,), start),
    ensures
        start == FeedStart::Replay <==> found <= 100,
        start == FeedStart::Reset <==> found > 100,
{
}

/// A feed sends an event exactly where the event is its own, resets its reader exactly where events were
/// lost, and ends exactly with the channel.
pub proof fn law_feeds_send_their_events(scope: &FeedScope, next: &ChannelEvent, action: FeedAction)
    requires
        call_ensures(feed::feed_action, (scope, next), action),
    ensures
        action == FeedAction::Reset <==> next is Lagged,
        action == FeedAction::End <==> next is Closed,
        action == FeedAction::Send <==> (next matches ChannelEvent::Event(place) && (scope is Global || (
        scope matches FeedScope::Project(id) && id == place.project_id) || (
        scope matches FeedScope::Session(id) && id@ == place.session_public_id@))),
{
}

/// The end of a session is announced exactly where the session was there and was removed.
pub proof fn law_closed_sessions_are_announced(report: &LifecycleReport, was_there: bool, yes: bool)
    requires
        call_ensures(feed::announces_closing, (report, was_there), yes),
    ensures
        yes <==> was_there && report.sessions_deleted != 0,
{
}

/// A reader without a last event starts at the beginning; one with a positive number goes on after it.
pub proof fn law_feeds_start_after_the_last_event(
    header: Option<&[u8]>,
    result: Result<i64, ApiError>,
    id: i64,
)
    requires
        call_ensures(feed::last_event_id, (header,), result),
    ensures
        header is None ==> result == Ok::<i64, ApiError>(0),
        header matches Some(value) && auth::is_header_text(value@)
            && auth::header_chars(value@) == number::signed_decimal(id as int) ==> (if id > 0 {
            result == Ok::<i64, ApiError>(id)
        } else {
            result matches Err(answer) && answer@.status == 400 && answer@.code
                == "malformed_last_event_id"@
        }),
{
    number::law_signed_decimal_reads_back(id);
}

/// A heartbeat has no body, and one with a body is answered with 400.
pub proof fn law_heartbeats_are_empty(length: usize, result: Result<(), ApiError>)
    requires
        call_ensures(feed::check_heartbeat_body, (length,), result),
    ensures
        result is Ok <==> length == 0,
        result matches Err(answer) ==> answer@.status == 400 && answer@.code == "unexpected_request_body"@,
{
}

/// The clock's seconds are the time of publication, up to the greatest that can be stored.
pub proof fn law_publications_are_timed_by_the_clock(seconds: Option<u64>, result: Result<i64, ApiError>)
    requires
        call_ensures(feed::daemon_unix_seconds, (seconds,), result),
    ensures
        result matches Ok(time) ==> seconds is Some && time == seconds->0,
        result is Ok <==> seconds is Some && seconds->0 < 0x8000_0000_0000_0000,
        result matches Err(answer) ==> answer@.status == 500,
{
}

/// Queries that cannot be read are answered with 400.
pub proof fn law_malformed_queries_are_answered(answer: ApiError)
    requires
        call_ensures(feed::malformed_query, (), answer),
    ensures
        answer@.status == 400,
        answer@.code == "malformed_query"@,
{
}

// ---- paths ----

/// An identifier in a path is read back from how it is written, and only positive ones are accepted.
pub proof fn law_identifiers_read_back(id: i64, value: &str, result: Result<i64, ApiError>)
    requires
        value@ == number::signed_decimal(id as int),
        call_ensures(paths::positive_id, (value,), result),
    ensures
        id > 0 ==> result == Ok::<i64, ApiError>(id),
        id <= 0 ==> (result matches Err(answer) && answer@.status == 400 && answer@.code
            == "malformed_path"@),
{
    number::law_signed_decimal_reads_back(id);
}

/// A project has a page exactly where its number is positive and below 2 to the 53rd, to which browsers
/// count exactly.
pub proof fn law_which_projects_have_pages(id: i64, value: &str, yes: bool)
    requires
        value@ == number::signed_decimal(id as int),
        call_ensures(paths::is_project_page, (value,), yes),
    ensures
        yes <==> 0 < id < 0x20_0000_0000_0000,
{
    number::law_signed_decimal_reads_back(id);
}

/// A session has a page exactly where its public ID is six characters or more, each a letter or digit
/// but `0`, `O`, `I` and `l`.
pub proof fn law_which_sessions_have_pages(value: &str, yes: bool)
    requires
        call_ensures(paths::is_session_page, (value,), yes),
    ensures
        yes <==> value@.len() >= 6 && (forall|i: int|
            0 <= i < value@.len() ==> ('a' <= #[trigger] value@[i] <= 'z' || 'A' <= value@[i] <= 'Z' || '0'
                <= value@[i] <= '9') && value@[i] != '0' && value@[i] != 'O' && value@[i] != 'I' && value@[i]
                != 'l'),
{
    if yes {
        assert forall|i: int| 0 <= i < value@.len() implies ('a' <= #[trigger] value@[i] <= 'z' || 'A'
            <= value@[i] <= 'Z' || '0' <= value@[i] <= '9') && value@[i] != '0' && value@[i] != 'O'
            && value@[i] != 'I' && value@[i] != 'l' by {
            assert(session::is_base58(value@[i]));
        }
    } else if value@.len() >= 6 {
        assert(!session::is_public_id(value@));
        let i = choose|i: int| 0 <= i < value@.len() && !session::is_base58(#[trigger] value@[i]);
        assert(!session::is_base58(value@[i]));
    }
}

/// What no route has is answered with 404, what no route could have with 400, and a method that a route
/// does not know with 405.
pub proof fn law_unknown_routes_are_answered(path: &str, missing: ApiError, unknown: ApiError)
    requires
        call_ensures(paths::v1_not_found, (path,), missing),
        call_ensures(paths::method_not_allowed, (), unknown),
    ensures
        !paths::is_malformed(path@) ==> missing@.status == 404 && missing@.code == "api_route_not_found"@,
        paths::is_malformed(path@) ==> missing@.status == 400 && missing@.code == "malformed_path"@,
        unknown@.status == 405,
        unknown@.code == "method_not_allowed"@,
{
}

/// Paths are accepted exactly where nothing is wrong with them.
pub proof fn law_malformed_paths_are_answered(
    path: &str,
    support: &str,
    whole: Result<(), ApiError>,
    decoded: Result<(), ApiError>,
)
    requires
        call_ensures(paths::validate_v1_path, (path,), whole),
        call_ensures(paths::check_support_path, (support,), decoded),
    ensures
        whole matches Err(answer) ==> answer@.status == 400 && answer@.code == "malformed_path"@,
        decoded matches Err(answer) ==> answer@.status == 400 && answer@.code == "malformed_path"@,
        decoded is Ok <==> support@.len() > 0 && !support@.contains('\\') && !text::has_control(support@)
            && (forall|i: int|
            0 <= i < text::split(support@, '/').len() ==> (#[trigger] text::split(support@, '/')[i]).len() > 0
                && text::split(support@, '/')[i] != "."@ && text::split(support@, '/')[i] != ".."@),
{
}

/// Whether a route has the method and the path.
pub open spec fn routes(list: Seq<(&'static str, &'static str)>, method: Seq<char>, path: Seq<char>) -> bool {
    exists|i: int| 0 <= i < list.len() && (#[trigger] list[i]).0@ == method && list[i].1@ == path
}

/// Every route is of version one and has a method that HTTP knows; artifacts are read and looked at
/// where they stand, sessions and posts are made, read and given up where they stand.
pub proof fn law_which_routes_there_are(list: Vec<(&'static str, &'static str)>, i: int)
    requires
        call_ensures(paths::api_v1_routes, (), list),
    ensures
        list@.len() == 20,
        routes(list@, "GET"@, "/api/v1/health"@),
        routes(list@, "POST"@, "/api/v1/auth/session"@),
        routes(list@, "DELETE"@, "/api/v1/auth/session"@),
        routes(list@, "POST"@, "/api/v1/sessions"@),
        routes(list@, "GET"@, "/api/v1/sessions/{public_id}"@),
        routes(list@, "DELETE"@, "/api/v1/sessions/{public_id}"@),
        routes(list@, "POST"@, "/api/v1/posts"@),
        routes(list@, "GET"@, "/api/v1/posts"@),
        routes(list@, "GET"@, "/api/v1/posts/{post_id}"@),
        routes(list@, "GET"@, "/api/v1/posts/{post_id}/files/{position}/content"@),
        routes(list@, "HEAD"@, "/api/v1/posts/{post_id}/files/{position}/content"@),
        0 <= i < list@.len() ==> list@[i].0@ == "GET"@ || list@[i].0@ == "POST"@ || list@[i].0@ == "DELETE"@
            || list@[i].0@ == "HEAD"@,
{
    assert(list@[0].0@ == "GET"@ && list@[0].1@ == "/api/v1/health"@);
    assert(list@[1].0@ == "POST"@ && list@[1].1@ == "/api/v1/auth/session"@);
    assert(list@[2].0@ == "DELETE"@ && list@[2].1@ == "/api/v1/auth/session"@);
    assert(list@[3].0@ == "POST"@ && list@[3].1@ == "/api/v1/sessions"@);
    assert(list@[4].0@ == "GET"@ && list@[4].1@ == "/api/v1/sessions/{public_id}"@);
    assert(list@[5].0@ == "DELETE"@ && list@[5].1@ == "/api/v1/sessions/{public_id}"@);
    assert(list@[12].0@ == "GET"@ && list@[12].1@ == "/api/v1/posts"@);
    assert(list@[13].0@ == "POST"@ && list@[13].1@ == "/api/v1/posts"@);
    assert(list@[14].0@ == "GET"@ && list@[14].1@ == "/api/v1/posts/{post_id}"@);
    assert(list@[16].0@ == "GET"@ && list@[16].1@
        == "/api/v1/posts/{post_id}/files/{position}/content"@);
    assert(list@[17].0@ == "HEAD"@ && list@[17].1@
        == "/api/v1/posts/{post_id}/files/{position}/content"@);
}

// ---- manifests ----

/// A session is resolved exactly where its namespace, its key, its label and its directory say
/// something; one that says nothing is answered with 422.
pub proof fn law_which_sessions_are_resolved(
    request: &ResolveSessionRequest,
    result: Result<(), ApiError>,
)
    requires
        call_ensures(manifest::validate_resolve_session, (request,), result),
    ensures
        result is Ok <==> !text::is_blank(request.integration_namespace@) && !text::is_blank(
            request.external_key@,
        ) && !text::is_blank(request.project_label@) && !text::is_blank(request.working_directory@),
        result matches Err(answer) ==> answer@.status == 422 && answer@.code == "validation_failed"@,
{
}

/// A part is taken exactly where it is named, is no second manifest, was declared and has not come
/// before; the parts are complete exactly where as many came as were declared.
pub proof fn law_which_parts_are_accepted(
    ledger: &PartLedger,
    name: Option<&str>,
    result: Result<(), ApiError>,
    whole: Result<(), ApiError>,
)
    requires
        call_ensures(PartLedger::check_part, (ledger, name), result),
        call_ensures(PartLedger::check_complete, (ledger,), whole),
    ensures
        result is Ok <==> name is Some && name->0@.len() > 0 && name->0@ != "manifest"@
            && ledger.declared().contains(name->0@) && !ledger.staged().contains(name->0@),
        result matches Err(answer) ==> answer@.status == 422,
        whole is Ok <==> ledger.staged().len() == ledger.declared().len(),
        whole matches Err(answer) ==> answer@.status == 422 && answer@.code == "missing_part"@,
{
    let said = match name {
        Some(value) => Some(value@),
        None => None,
    };
    guarding::law_which_parts_are_taken(ledger.declared(), ledger.staged(), said);
}

/// A request comes from a trusted proxy exactly where its peer is one of them.
pub proof fn law_which_peers_are_trusted(peers: &[IpAddress], peer: IpAddress, yes: bool)
    requires
        call_ensures(auth::lists_peer, (peers, peer), yes),
    ensures
        yes <==> (exists|i: int| 0 <= i < peers@.len() && #[trigger] peers@[i] == peer),
{
}

/// Secrets are the same exactly where all their characters are.
pub proof fn law_secrets_are_compared_whole(expected: &str, supplied: &str, same: bool, i: int)
    requires
        call_ensures(auth::constant_time_equal, (expected, supplied), same),
    ensures
        same && 0 <= i < expected@.len() ==> expected@.len() == supplied@.len() && expected@[i]
            == supplied@[i],
        !same ==> expected@ != supplied@,
{
}

/// A publication starts with the part named `manifest`, and with nothing else.
pub proof fn law_manifests_come_first(is_there: bool, name: Option<&str>, result: Result<(), ApiError>)
    requires
        call_ensures(manifest::check_first_part, (is_there, name), result),
    ensures
        result is Ok <==> is_there && name is Some && name->0@ == "manifest"@,
        result matches Err(answer) ==> answer@.status == 400 && answer@.code == "manifest_must_be_first"@,
{
}

/// A manifest is the text that its bytes encode.
pub proof fn law_manifests_are_text(bytes: &[u8], result: Result<String, ApiError>)
    requires
        call_ensures(manifest::manifest_text, (bytes,), result),
    ensures
        result is Ok <==> valid_utf8(bytes@),
        result matches Ok(content) ==> encode_utf8(content@) == bytes@,
        result matches Err(answer) ==> answer@.status == 400 && answer@.code == "manifest_not_utf8"@,
{
    if valid_utf8(bytes@) {
        decode_utf8_encode_utf8(bytes@);
    }
}

/// Malformed manifests, malformed requests and interrupted ones are told apart, and each is answered
/// with 400.
pub proof fn law_malformed_publications_are_answered(one: ApiError, other: ApiError)
    requires
        call_ensures(manifest::malformed_manifest, (), one),
        call_ensures(manifest::interrupted_multipart, (), other),
    ensures
        one@.status == 400,
        other@.status == 400,
        one@.code == "malformed_manifest"@,
        other@.code == "multipart_stream_error"@,
{
}

// ---- artifacts ----

/// An artifact's answer says its type and its length, that ranges are served, that it is private and
/// never changes, that its type is not guessed at and that nothing in it runs.
pub proof fn law_artifacts_are_served_safely(
    media_type: &str,
    filename: &str,
    length: u64,
    headers: Vec<(&'static str, String)>,
)
    requires
        call_ensures(artifact::artifact_headers, (media_type, filename, length), headers),
    ensures
        ({
            let pairs = artifact::header_pairs(headers@);
            &&& pairs.len() == 7
            &&& pairs.contains(("content-type"@, media_type@))
            &&& pairs.contains(("content-length"@, number::decimal(length as nat)))
            &&& pairs.contains(("accept-ranges"@, "bytes"@))
            &&& pairs.contains(("cache-control"@, "private, max-age=31536000, immutable"@))
            &&& pairs.contains(("x-content-type-options"@, "nosniff"@))
            &&& pairs.contains(("content-security-policy"@, "default-src 'none'; sandbox"@))
            &&& pairs.contains(
                ("content-disposition"@, artifact::disposition(media_type@, filename@)),
            )
        }),
{
    let pairs = artifact::header_pairs(headers@);
    assert(pairs.len() == 7);
    assert(pairs[0] == ("content-type"@, media_type@));
    assert(pairs[1] == ("content-length"@, number::decimal(length as nat)));
    assert(pairs[2] == ("accept-ranges"@, "bytes"@));
    assert(pairs[3] == ("cache-control"@, "private, max-age=31536000, immutable"@));
    assert(pairs[4] == ("x-content-type-options"@, "nosniff"@));
    assert(pairs[5] == ("content-security-policy"@, "default-src 'none'; sandbox"@));
    assert(pairs[6] == ("content-disposition"@, artifact::disposition(media_type@, filename@)));
}

/// A file has a page of its own exactly where a file at its position is shown as HTML.
pub proof fn law_which_files_are_pages(files: &[PostFileRead], position: u32, yes: bool)
    requires
        call_ensures(artifact::has_html_file, (files, position), yes),
    ensures
        yes <==> (exists|i: int|
            0 <= i < files@.len() && (#[trigger] files@[i]).position == position && files@[i].renderer
                == ArtifactRenderer::Html),
{
}

} // verus!
