//! The live feed: where it starts, what it replays, and which events belong to it.
use vstd::prelude::*;
use crate::api::auth;
use crate::api::error;
use crate::api::error::ApiError;
use crate::number;
use crate::storage::lifecycle::LifecycleReport;
use crate::text;

verus! {

/// The number of live events that are kept for slow readers.
pub const LIVE_EVENT_CHANNEL_CAPACITY: usize = 256;

/// The largest number of posts that are replayed.
pub const LIVE_REPLAY_LIMIT: usize = 100;

/// What a feed shows.
#[derive(Debug, Clone)]
pub enum FeedScope {
    Global,
    Project(i64),
    Session(String),
}

/// Where an event happened: in which project and in which session.
#[derive(Debug)]
pub struct EventPlace {
    pub project_id: i64,
    pub session_public_id: String,
}

/// Whether an event belongs to a feed.
pub open spec fn belongs(scope: FeedScope, place: EventPlace) -> bool {
    match scope {
        FeedScope::Global => true,
        FeedScope::Project(project_id) => place.project_id == project_id,
        FeedScope::Session(public_id) => place.session_public_id@ == public_id@,
    }
}

/// Whether an event belongs to a feed.
pub fn event_matches(scope: &FeedScope, place: &EventPlace) -> (yes: bool)
    ensures
        yes == belongs(*scope, *place),
{
    match scope {
        FeedScope::Global => true,
        FeedScope::Project(project_id) => place.project_id == *project_id,
        FeedScope::Session(public_id) => text::same_text(
            place.session_public_id.as_str(),
            public_id.as_str(),
        ),
    }
}

/// The number of the last event that a reader saw: a positive integer.
pub open spec fn last_seen(header: Seq<u8>) -> Option<int> {
    if auth::is_header_text(header) {
        match number::signed_value(auth::header_chars(header)) {
            Some(id) => if id > 0 {
                Some(id)
            } else {
                None
            },
            None => None,
        }
    } else {
        None
    }
}

/// Reads the number of the post after which the feed continues: zero where the reader saw none.
pub fn last_event_id(header: Option<&[u8]>) -> (result: Result<i64, ApiError>)
    ensures
        match result {
            Ok(id) => match header {
                None => id == 0,
                Some(value) => last_seen(value@) == Some(id as int),
            },
            Err(answer) => {
                &&& header matches Some(value) && last_seen(value@) is None
                &&& answer@ == error::plain(
                    400,
                    "malformed_last_event_id"@,
                    "Last-Event-ID must be a positive integer"@,
                )
            },
        },
{
    let value = match header {
        None => {
            return Ok(0);
        },
        Some(value) => value,
    };
    match auth::header_text(value) {
        Some(content) => match number::parse_i64(content.as_str()) {
            Some(id) => {
                if id > 0 {
                    return Ok(id);
                }
            },
            None => {},
        },
        None => {},
    }
    Err(
        ApiError::multipart(
            400,
            "malformed_last_event_id",
            "Last-Event-ID must be a positive integer",
        ),
    )
}

/// How a feed starts.
#[derive(Debug, Clone, Copy, PartialEq, Eq, Structural)]
pub enum FeedStart {
    /// The posts are sent, all of them.
    Replay,
    /// There are too many: the reader starts anew.
    Reset,
}

/// How a feed starts when `found` posts follow the last one seen.
pub fn feed_start(found: usize) -> (start: FeedStart)
    ensures
        start == (if found > LIVE_REPLAY_LIMIT {
            FeedStart::Reset
        } else {
            FeedStart::Replay
        }),
{
    if found > LIVE_REPLAY_LIMIT {
        FeedStart::Reset
    } else {
        FeedStart::Replay
    }
}

/// What comes next on the channel of live events.
#[derive(Debug)]
pub enum ChannelEvent {
    Event(EventPlace),
    Lagged,
    Closed,
}

/// What the feed does about it.
#[derive(Debug, Clone, Copy, PartialEq, Eq, Structural)]
pub enum FeedAction {
    Send,
    Skip,
    /// Subscribe anew and tell the reader to start anew.
    Reset,
    End,
}

/// What a feed does about what comes next: it sends the events that belong to it, starts the
/// reader anew when events were lost, and ends with the channel.
pub fn feed_action(scope: &FeedScope, next: &ChannelEvent) -> (action: FeedAction)
    ensures
        action == match *next {
            ChannelEvent::Event(place) => if belongs(*scope, place) {
                FeedAction::Send
            } else {
                FeedAction::Skip
            },
            ChannelEvent::Lagged => FeedAction::Reset,
            ChannelEvent::Closed => FeedAction::End,
        },
{
    match next {
        ChannelEvent::Event(place) => {
            if event_matches(scope, place) {
                FeedAction::Send
            } else {
                FeedAction::Skip
            }
        },
        ChannelEvent::Lagged => FeedAction::Reset,
        ChannelEvent::Closed => FeedAction::End,
    }
}

/// Whether the end of a session is announced: it was there, and it was removed.
pub fn announces_closing(report: &LifecycleReport, was_there: bool) -> (yes: bool)
    ensures
        yes == (report.sessions_deleted > 0 && was_there),
{
    report.sessions_deleted > 0 && was_there
}

/// Checks the body of a heartbeat, which must be empty.
pub fn check_heartbeat_body(length: usize) -> (result: Result<(), ApiError>)
    ensures
        match result {
            Ok(_) => length == 0,
            Err(answer) => length > 0 && answer@ == error::plain(
                400,
                "unexpected_request_body"@,
                "Heartbeat requests must not include a body"@,
            ),
        },
{
    if length > 0 {
        Err(
            ApiError::multipart(
                400,
                "unexpected_request_body",
                "Heartbeat requests must not include a body",
            ),
        )
    } else {
        Ok(())
    }
}

/// The answer to a query that cannot be read.
pub fn malformed_query() -> (answer: ApiError)
    ensures
        answer@ == error::plain(400, "malformed_query"@, "Query parameters are malformed"@),
{
    ApiError::multipart(400, "malformed_query", "Query parameters are malformed")
}

/// The seconds of the Unix clock as a time of publication, where they fit.
pub fn daemon_unix_seconds(seconds_since_epoch: Option<u64>) -> (result: Result<i64, ApiError>)
    ensures
        match result {
            Ok(seconds) => seconds_since_epoch == Some(seconds as u64) && seconds >= 0,
            Err(answer) => {
                &&& seconds_since_epoch matches Some(seconds) ==> seconds > i64::MAX
                &&& answer@ == error::internal_error()
            },
        },
{
    match seconds_since_epoch {
        Some(seconds) => {
            if seconds <= 0x7fff_ffff_ffff_ffff {
                Ok(seconds as i64)
            } else {
                Err(ApiError::internal())
            }
        },
        None => Err(ApiError::internal()),
    }
}

} // verus!
