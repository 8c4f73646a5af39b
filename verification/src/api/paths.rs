//! The paths of the HTTP interface.
use vstd::prelude::*;
use vstd::utf8::*;
use crate::api::error;
use crate::api::error::ApiError;
use crate::number;
use crate::percent;
use crate::text;

verus! {

/// Whether a path belongs to version one of the interface.
pub open spec fn is_v1(path: Seq<char>) -> bool {
    path == "/api/v1"@ || text::has_prefix(path, "/api/v1/"@)
}

/// The routes of version one of the interface: their methods and their paths.
pub fn api_v1_routes() -> (routes: Vec<(&'static str, &'static str)>)
    ensures
        routes@ == seq![
            ("GET", "/api/v1/health"),
            ("POST", "/api/v1/auth/session"),
            ("DELETE", "/api/v1/auth/session"),
            ("POST", "/api/v1/sessions"),
            ("GET", "/api/v1/sessions/{public_id}"),
            ("DELETE", "/api/v1/sessions/{public_id}"),
            ("GET", "/api/v1/sessions/{public_id}/posts"),
            ("GET", "/api/v1/sessions/{public_id}/posts/events"),
            ("POST", "/api/v1/sessions/{public_id}/heartbeat"),
            ("GET", "/api/v1/projects/{project_id}/posts"),
            ("GET", "/api/v1/projects/{project_id}/posts/events"),
            ("GET", "/api/v1/posts/events"),
            ("GET", "/api/v1/posts"),
            ("POST", "/api/v1/posts"),
            ("GET", "/api/v1/posts/{post_id}"),
            ("POST", "/api/v1/posts/{post_id}/files/{position}/html-capability"),
            ("GET", "/api/v1/posts/{post_id}/files/{position}/content"),
            ("HEAD", "/api/v1/posts/{post_id}/files/{position}/content"),
            ("GET", "/api/v1/posts/{post_id}/files/{position}/support/{asset_path}"),
            ("HEAD", "/api/v1/posts/{post_id}/files/{position}/support/{asset_path}"),
        ],
{
    vec![
        ("GET", "/api/v1/health"),
        ("POST", "/api/v1/auth/session"),
        ("DELETE", "/api/v1/auth/session"),
        ("POST", "/api/v1/sessions"),
        ("GET", "/api/v1/sessions/{public_id}"),
        ("DELETE", "/api/v1/sessions/{public_id}"),
        ("GET", "/api/v1/sessions/{public_id}/posts"),
        ("GET", "/api/v1/sessions/{public_id}/posts/events"),
        ("POST", "/api/v1/sessions/{public_id}/heartbeat"),
        ("GET", "/api/v1/projects/{project_id}/posts"),
        ("GET", "/api/v1/projects/{project_id}/posts/events"),
        ("GET", "/api/v1/posts/events"),
        ("GET", "/api/v1/posts"),
        ("POST", "/api/v1/posts"),
        ("GET", "/api/v1/posts/{post_id}"),
        ("POST", "/api/v1/posts/{post_id}/files/{position}/html-capability"),
        ("GET", "/api/v1/posts/{post_id}/files/{position}/content"),
        ("HEAD", "/api/v1/posts/{post_id}/files/{position}/content"),
        ("GET", "/api/v1/posts/{post_id}/files/{position}/support/{asset_path}"),
        ("HEAD", "/api/v1/posts/{post_id}/files/{position}/support/{asset_path}"),
    ]
}

/// Whether a path belongs to version one of the interface.
pub fn is_v1_path(path: &str) -> (yes: bool)
    ensures
        yes == is_v1(path@),
{
    text::same_text(path, "/api/v1") || text::text_starts_with(path, "/api/v1/")
}

/// Whether a part of a path stands for the directory itself or the one above it, percent-encoded
/// or not.
pub open spec fn is_dot_segment(segment: Seq<char>) -> bool {
    ||| segment == "."@
    ||| segment == ".."@
    ||| text::lowercase(segment) == "%2e"@
    ||| text::lowercase(segment) == "%2e%2e"@
}

/// Whether one of the parts is a dot segment.
pub open spec fn has_dot_segment(parts: Seq<Seq<char>>) -> bool {
    exists|i: int| 0 <= i < parts.len() && is_dot_segment(#[trigger] parts[i])
}

/// Whether the path of a support file could leave its place: an encoded separator, an empty part
/// or a dot segment.
pub open spec fn is_unsafe_support_path(path: Seq<char>) -> bool {
    text::holds(path, "/support/"@) && {
        ||| text::holds(text::lowercase(path), "%2f"@)
        ||| text::holds(text::lowercase(path), "%5c"@)
        ||| text::holds(path, "//"@)
        ||| has_dot_segment(text::split(path, '/'))
    }
}

/// Whether the path of a support file could leave its place.
pub fn artifact_path_is_unsafe(path: &str) -> (yes: bool)
    ensures
        yes == is_unsafe_support_path(path@),
{
    if !text::contains(path, "/support/") {
        return false;
    }
    let lower = text::to_lowercase(path);
    if text::contains(lower.as_str(), "%2f") || text::contains(lower.as_str(), "%5c") || text::contains(path, "//") {
        return true;
    }
    let parts = text::split_chars(&text::chars_of(path), '/');
    let mut i: usize = 0;
    while i < parts.len()
        invariant
            i <= parts.len(),
            text::views(parts@) == text::split(path@, '/'),
            text::holds(path@, "/support/"@),
            forall|j: int| 0 <= j < i ==> !is_dot_segment(#[trigger] text::views(parts@)[j]),
        decreases parts.len() - i,
    {
        let part = text::string_of(&parts[i]);
        let small = text::to_lowercase(part.as_str());
        assert(text::views(parts@)[i as int] == part@);
        if text::same_text(part.as_str(), ".") || text::same_text(part.as_str(), "..")
            || text::same_text(small.as_str(), "%2e") || text::same_text(
            small.as_str(),
            "%2e%2e",
        ) {
            assert(is_dot_segment(text::split(path@, '/')[i as int]));
            return true;
        }
        i += 1;
    }
    assert(!has_dot_segment(text::split(path@, '/')));
    false
}

/// Whether the percent-encoding of a path is malformed: a percent sign that starts no escape, or
/// decoded bytes that are not UTF-8.
pub open spec fn is_malformed(path: Seq<char>) -> bool {
    match percent::strictly_decoded(encode_utf8(path)) {
        Some(bytes) => !valid_utf8(bytes),
        None => true,
    }
}

/// Whether the percent-encoding of a path is malformed.
pub fn has_malformed_percent(path: &str) -> (yes: bool)
    ensures
        yes == is_malformed(path@),
{
    match percent::strict_decode(path.as_bytes()) {
        Some(bytes) => text::utf8_text(&bytes).is_none(),
        None => true,
    }
}

/// The answer to a path that version one does not accept, where it does not.
pub open spec fn path_fault(path: Seq<char>) -> Option<error::ErrorModel> {
    if is_v1(path) && is_unsafe_support_path(path) {
        Some(error::plain(400, "malformed_path"@, "Artifact path is malformed"@))
    } else if is_v1(path) && is_malformed(path) {
        Some(error::plain(400, "malformed_path"@, "Path contains malformed percent encoding"@))
    } else {
        None
    }
}

/// Checks the path of a request before it is routed. Paths outside version one pass.
pub fn validate_v1_path(path: &str) -> (result: Result<(), ApiError>)
    ensures
        match result {
            Ok(_) => path_fault(path@) is None,
            Err(answer) => path_fault(path@) == Some(answer@),
        },
{
    if is_v1_path(path) && artifact_path_is_unsafe(path) {
        return Err(ApiError::multipart(400, "malformed_path", "Artifact path is malformed"));
    }
    if is_v1_path(path) && has_malformed_percent(path) {
        return Err(
            ApiError::multipart(
                400,
                "malformed_path",
                "Path contains malformed percent encoding",
            ),
        );
    }
    Ok(())
}

/// The answer where no route of version one has the path.
pub fn v1_not_found(path: &str) -> (answer: ApiError)
    ensures
        answer@ == (if is_malformed(path@) {
            error::plain(400, "malformed_path"@, "Path contains malformed percent encoding"@)
        } else {
            error::plain(404, "api_route_not_found"@, "API route was not found"@)
        }),
{
    if has_malformed_percent(path) {
        ApiError::multipart(400, "malformed_path", "Path contains malformed percent encoding")
    } else {
        ApiError::multipart(404, "api_route_not_found", "API route was not found")
    }
}

/// The answer where a route does not know the method.
pub fn method_not_allowed() -> (answer: ApiError)
    ensures
        answer@ == error::plain(
            405,
            "method_not_allowed"@,
            "HTTP method is not allowed for this API route"@,
        ),
{
    ApiError::multipart(
        405,
        "method_not_allowed",
        "HTTP method is not allowed for this API route",
    )
}

/// Reads a positive identifier from a path.
pub fn positive_id(value: &str) -> (result: Result<i64, ApiError>)
    ensures
        match result {
            Ok(id) => number::signed_value(value@) == Some(id as int) && id > 0,
            Err(answer) => {
                &&& number::signed_value(value@) matches Some(id) ==> id <= 0
                &&& answer@ == error::plain(
                    400,
                    "malformed_path"@,
                    "Path identifier must be a positive integer"@,
                )
            },
        },
{
    match number::parse_i64(value) {
        Some(id) => {
            if id > 0 {
                return Ok(id);
            }
        },
        None => {},
    }
    Err(ApiError::multipart(400, "malformed_path", "Path identifier must be a positive integer"))
}

/// Reads the position of a file from a path.
pub fn file_position(value: &str) -> (result: Result<u32, ApiError>)
    ensures
        match result {
            Ok(position) => number::unsigned_value(value@, u32::MAX as nat) == Some(
                position as nat,
            ),
            Err(answer) => {
                &&& number::unsigned_value(value@, u32::MAX as nat) is None
                &&& answer@ == error::plain(
                    400,
                    "malformed_path"@,
                    "File position must be a nonnegative integer"@,
                )
            },
        },
{
    match number::parse_unsigned(value, 0xffff_ffff) {
        Some(position) => Ok(position as u32),
        None => Err(
            ApiError::multipart(
                400,
                "malformed_path",
                "File position must be a nonnegative integer",
            ),
        ),
    }
}

/// Whether one of the parts is empty, `.` or `..`.
pub open spec fn has_idle_part(parts: Seq<Seq<char>>) -> bool {
    exists|i: int|
        0 <= i < parts.len() && ((#[trigger] parts[i]).len() == 0 || parts[i] == "."@ || parts[i]
            == ".."@)
}

/// Whether a decoded support path names a file below its document: no backslash, no control
/// character, and every part between separators names something.
pub open spec fn is_support_path(path: Seq<char>) -> bool {
    &&& path.len() > 0
    &&& !path.contains('\\')
    &&& !text::has_control(path)
    &&& !has_idle_part(text::split(path, '/'))
}

/// Whether a decoded support path names a file below its document.
pub fn support_path(path: &str) -> (yes: bool)
    ensures
        yes == is_support_path(path@),
{
    let chars = text::chars_of(path);
    if chars.len() == 0 || text::contains_char(path, '\\') || text::contains_control(path) {
        return false;
    }
    let parts = text::split_chars(&chars, '/');
    let mut i: usize = 0;
    while i < parts.len()
        invariant
            i <= parts.len(),
            text::views(parts@) == text::split(path@, '/'),
            forall|j: int|
                0 <= j < i ==> (#[trigger] text::views(parts@)[j]).len() > 0 && text::views(
                    parts@,
                )[j] != "."@ && text::views(parts@)[j] != ".."@,
        decreases parts.len() - i,
    {
        let part = text::string_of(&parts[i]);
        assert(text::views(parts@)[i as int] == part@);
        if parts[i].len() == 0 || text::same_text(part.as_str(), ".") || text::same_text(
            part.as_str(),
            "..",
        ) {
            assert(has_idle_part(text::split(path@, '/'))) by {
                assert(text::split(path@, '/')[i as int] == part@);
            }
            return false;
        }
        i += 1;
    }
    true
}

/// Checks the decoded path of a support file.
pub fn check_support_path(path: &str) -> (result: Result<(), ApiError>)
    ensures
        match result {
            Ok(_) => is_support_path(path@),
            Err(answer) => !is_support_path(path@) && answer@ == error::plain(
                400,
                "malformed_path"@,
                "Support asset path is malformed"@,
            ),
        },
{
    if support_path(path) {
        Ok(())
    } else {
        Err(ApiError::multipart(400, "malformed_path", "Support asset path is malformed"))
    }
}

/// The least length of a session's public identifier on a page.
pub const MIN_PAGE_ID_LENGTH: usize = 6;

/// The largest integer that a browser counts exactly.
pub const MAX_PAGE_PROJECT_ID: i64 = 9_007_199_254_740_991;

/// Whether a path part can name a session page: six or more characters of Base58.
pub open spec fn names_session_page(public_id: Seq<char>) -> bool {
    public_id.len() >= MIN_PAGE_ID_LENGTH && crate::storage::session::is_public_id(public_id)
}

/// Whether a path part can name a session page.
pub fn is_session_page(public_id: &str) -> (yes: bool)
    ensures
        yes == names_session_page(public_id@),
{
    let chars = text::chars_of(public_id);
    if chars.len() < MIN_PAGE_ID_LENGTH {
        return false;
    }
    let mut i: usize = 0;
    while i < chars.len()
        invariant
            i <= chars.len(),
            chars@ == public_id@,
            forall|j: int| 0 <= j < i ==> crate::storage::session::is_base58(#[trigger] chars@[j]),
        decreases chars.len() - i,
    {
        let c = chars[i];
        if !(text::ascii_alphanumeric(c) && c != '0' && c != 'O' && c != 'I' && c != 'l') {
            assert(!crate::storage::session::is_base58(public_id@[i as int]));
            return false;
        }
        i += 1;
    }
    true
}

/// Whether a path part can name a project page: a positive integer that a browser counts exactly.
pub fn is_project_page(project_id: &str) -> (yes: bool)
    ensures
        yes == (number::signed_value(project_id@) matches Some(id) && 1 <= id
            <= MAX_PAGE_PROJECT_ID),
{
    match number::parse_i64(project_id) {
        Some(id) => 1 <= id && id <= MAX_PAGE_PROJECT_ID,
        None => false,
    }
}

} // verus!
