//! Serving artifacts: ranges and response headers.
use vstd::prelude::*;
use crate::api::auth;
use crate::number;
use crate::storage::classification::ArtifactRenderer;
use crate::storage::read::PostFileRead;
use crate::text;

verus! {

/// What a range header asks of an artifact.
#[derive(Debug, Clone, Copy, PartialEq, Eq, Structural)]
pub enum RangeRequest {
    /// All of it.
    Whole,
    /// The bytes from `start` to `end`, both of them with it.
    Part { start: u64, end: u64 },
    /// Something that cannot be served.
    Unsatisfiable,
}

/// The least of two numbers.
pub open spec fn least(a: int, b: int) -> int {
    if a <= b {
        a
    } else {
        b
    }
}

/// The bytes that the text between `bytes=` and the end asks for: one range, given by its first
/// and its last byte, by its first byte alone, or by the number of bytes at the end.
pub open spec fn range_of(wanted: Seq<char>, length: u64) -> RangeRequest {
    match text::found(wanted, seq!['-']) {
        None => RangeRequest::Unsatisfiable,
        Some(dash) => {
            let first = wanted.take(dash);
            let last = wanted.skip(dash + 1);
            if wanted.contains(',') {
                RangeRequest::Unsatisfiable
            } else if first.len() == 0 {
                match number::unsigned_value(last, u64::MAX as nat) {
                    Some(suffix) => if suffix == 0 || length == 0 {
                        RangeRequest::Unsatisfiable
                    } else {
                        RangeRequest::Part {
                            start: (length - least(suffix as int, length as int)) as u64,
                            end: (length - 1) as u64,
                        }
                    },
                    None => RangeRequest::Unsatisfiable,
                }
            } else {
                match number::unsigned_value(first, u64::MAX as nat) {
                    None => RangeRequest::Unsatisfiable,
                    Some(start) => if start >= length {
                        RangeRequest::Unsatisfiable
                    } else if last.len() == 0 {
                        RangeRequest::Part { start: start as u64, end: (length - 1) as u64 }
                    } else {
                        match number::unsigned_value(last, u64::MAX as nat) {
                            None => RangeRequest::Unsatisfiable,
                            Some(value) => if least(value as int, length - 1) < start {
                                RangeRequest::Unsatisfiable
                            } else {
                                RangeRequest::Part {
                                    start: start as u64,
                                    end: least(value as int, length - 1) as u64,
                                }
                            },
                        }
                    },
                }
            }
        },
    }
}

/// What a range header asks of an artifact of `length` bytes.
pub open spec fn requested_range(header: Option<Seq<u8>>, length: u64) -> RangeRequest {
    match header {
        None => RangeRequest::Whole,
        Some(value) => {
            let chars = auth::header_chars(value);
            if auth::is_header_text(value) && text::has_prefix(chars, "bytes="@) {
                range_of(chars.skip("bytes="@.len() as int), length)
            } else {
                RangeRequest::Unsatisfiable
            }
        },
    }
}

/// Reads a range header for an artifact of `length` bytes.
pub fn parse_range(header: Option<&[u8]>, length: u64) -> (range: RangeRequest)
    ensures
        range == requested_range(
            match header {
                Some(value) => Some(value@),
                None => None,
            },
            length,
        ),
{
    let value = match header {
        Some(value) => value,
        None => {
            return RangeRequest::Whole;
        },
    };
    let content = match auth::header_text(value) {
        Some(content) => content,
        None => {
            return RangeRequest::Unsatisfiable;
        },
    };
    let chars = text::chars_of(content.as_str());
    let unit = text::chars_of("bytes=");
    if !text::starts_with(&chars, &unit) {
        return RangeRequest::Unsatisfiable;
    }
    let rest = vstd::slice::slice_subrange(chars.as_slice(), unit.len(), chars.len());
    assert(rest@ =~= auth::header_chars(value@).skip("bytes="@.len() as int));
    parse_wanted(rest, length)
}

fn parse_wanted(wanted: &[char], length: u64) -> (range: RangeRequest)
    ensures
        range == range_of(wanted@, length),
{
    let mut dash: Vec<char> = Vec::new();
    dash.push('-');
    assert(dash@ =~= seq!['-']);
    let total: usize = wanted.len();
    let position: usize = match text::find(wanted, &dash) {
        Some(position) => position,
        None => {
            return RangeRequest::Unsatisfiable;
        },
    };
    proof {
        text::lemma_found_fits(wanted@, dash@, 0);
        assert(text::occurs_at(wanted@, dash@, position as int));
    }
    let first = text::string_of(vstd::slice::slice_subrange(wanted, 0, position));
    let last = text::string_of(vstd::slice::slice_subrange(wanted, position + 1, total));
    assert(first@ =~= wanted@.take(position as int));
    assert(last@ =~= wanted@.skip(position + 1));
    if text::contains_char(text::string_of(wanted).as_str(), ',') {
        return RangeRequest::Unsatisfiable;
    }
    if position == 0 {
        match number::parse_u64(last.as_str()) {
            None => RangeRequest::Unsatisfiable,
            Some(suffix) => {
                if suffix == 0 || length == 0 {
                    RangeRequest::Unsatisfiable
                } else if suffix >= length {
                    RangeRequest::Part { start: 0, end: length - 1 }
                } else {
                    RangeRequest::Part { start: length - suffix, end: length - 1 }
                }
            },
        }
    } else {
        match number::parse_u64(first.as_str()) {
            None => RangeRequest::Unsatisfiable,
            Some(start) => {
                if start >= length {
                    RangeRequest::Unsatisfiable
                } else if position + 1 == total {
                    RangeRequest::Part { start, end: length - 1 }
                } else {
                    match number::parse_u64(last.as_str()) {
                        None => RangeRequest::Unsatisfiable,
                        Some(value) => {
                            let end: u64 = if value <= length - 1 {
                                value
                            } else {
                                length - 1
                            };
                            if end < start {
                                RangeRequest::Unsatisfiable
                            } else {
                                RangeRequest::Part { start, end }
                            }
                        },
                    }
                }
            },
        }
    }
}

proof fn lemma_range_fits(wanted: Seq<char>, length: u64)
    ensures
        range_of(wanted, length) matches RangeRequest::Part { start, end } ==> start <= end
            < length,
{
}

/// A range that is served lies within the artifact, and an empty artifact has none.
pub proof fn law_ranges_lie_within(header: Option<Seq<u8>>, length: u64)
    ensures
        requested_range(header, length) matches RangeRequest::Part { start, end } ==> start <= end
            < length,
        length == 0 && header is Some ==> requested_range(header, length)
            == RangeRequest::Unsatisfiable,
{
    match header {
        Some(value) => {
            lemma_range_fits(auth::header_chars(value).skip("bytes="@.len() as int), length);
        },
        None => {},
    }
}

/// How an artifact is served: the status, the first byte, the number of bytes, and the range
/// header of the answer.
#[derive(Debug, PartialEq, Eq)]
pub struct ArtifactAnswer {
    pub status: u16,
    pub start: u64,
    pub length: u64,
    pub content_range: Option<String>,
    /// Whether the body carries the bytes.
    pub has_body: bool,
}

/// The range header of an answer that serves a part.
pub open spec fn part_range(start: u64, end: u64, length: u64) -> Seq<char> {
    "bytes "@ + number::decimal(start as nat) + "-"@ + number::decimal(end as nat) + "/"@
        + number::decimal(length as nat)
}

/// Whether this is how an artifact is served.
pub open spec fn serves(
    answer: ArtifactAnswer,
    range: RangeRequest,
    length: u64,
    head: bool,
) -> bool {
    match range {
        RangeRequest::Whole => {
            &&& answer.status == 200
            &&& answer.start == 0
            &&& answer.length == length
            &&& answer.content_range is None
            &&& answer.has_body == (!head && length > 0)
        },
        RangeRequest::Part { start, end } => {
            &&& answer.status == 206
            &&& answer.start == start
            &&& answer.length == end - start + 1
            &&& answer.content_range matches Some(value)
            &&& value@ == part_range(start, end, length)
            &&& answer.has_body == !head
        },
        RangeRequest::Unsatisfiable => {
            &&& answer.status == 416
            &&& answer.start == 0
            &&& answer.length == 0
            &&& answer.content_range matches Some(value)
            &&& value@ == "bytes */"@ + number::decimal(length as nat)
            &&& !answer.has_body
        },
    }
}

/// Decides how an artifact of `length` bytes is served.
pub fn plan_answer(range: Option<&[u8]>, length: u64, head: bool) -> (answer: ArtifactAnswer)
    ensures
        serves(
            answer,
            requested_range(
                match range {
                    Some(value) => Some(value@),
                    None => None,
                },
                length,
            ),
            length,
            head,
        ),
{
    let requested = parse_range(range, length);
    proof {
        law_ranges_lie_within(
            match range {
                Some(value) => Some(value@),
                None => None,
            },
            length,
        );
    }
    match requested {
        RangeRequest::Whole => ArtifactAnswer {
            status: 200,
            start: 0,
            length,
            content_range: None,
            has_body: !head && length > 0,
        },
        RangeRequest::Part { start, end } => {
            let mut value = text::joined3("bytes ", number::format_u64(start).as_str(), "-");
            value.append(number::format_u64(end).as_str());
            value.append("/");
            value.append(number::format_u64(length).as_str());
            ArtifactAnswer {
                status: 206,
                start,
                length: end - start + 1,
                content_range: Some(value),
                has_body: !head,
            }
        },
        RangeRequest::Unsatisfiable => ArtifactAnswer {
            status: 416,
            start: 0,
            length: 0,
            content_range: Some(text::joined("bytes */", number::format_u64(length).as_str())),
            has_body: false,
        },
    }
}

/// A character that can stand in a quoted file name; an underscore for any other.
pub open spec fn safe_char(c: char) -> char {
    if text::is_ascii_alphanumeric(c) || c == '.' || c == '_' || c == '-' {
        c
    } else {
        '_'
    }
}

/// The file name of a download: letters, digits, dots, underscores and hyphens.
pub open spec fn safe_name(filename: Seq<char>) -> Seq<char> {
    if filename.len() == 0 {
        "download"@
    } else {
        filename.map_values(|c: char| safe_char(c))
    }
}

/// The file name of a download.
pub fn safe_filename(filename: &str) -> (name: String)
    ensures
        name@ == safe_name(filename@),
{
    let chars = text::chars_of(filename);
    if chars.len() == 0 {
        return text::copy_of("download");
    }
    let mut name = String::new();
    let mut i: usize = 0;
    let ghost whole = filename@.map_values(|c: char| safe_char(c));
    while i < chars.len()
        invariant
            i <= chars.len(),
            chars@ == filename@,
            whole == filename@.map_values(|c: char| safe_char(c)),
            name@ == whole.take(i as int),
        decreases chars.len() - i,
    {
        let c = chars[i];
        let safe = if text::ascii_alphanumeric(c) || c == '.' || c == '_' || c == '-' {
            c
        } else {
            '_'
        };
        name.push(safe);
        assert(name@ =~= whole.take(i + 1));
        i += 1;
    }
    assert(whole.take(whole.len() as int) =~= whole);
    name
}

/// The names and values of the headers of an artifact, but for its type.
pub open spec fn header_pairs(headers: Seq<(&'static str, String)>) -> Seq<
    (Seq<char>, Seq<char>),
> {
    headers.map_values(|header: (&'static str, String)| (header.0@, header.1@))
}

/// The disposition of an artifact: a download is attached, all else is shown.
pub open spec fn disposition(media_type: Seq<char>, filename: Seq<char>) -> Seq<char> {
    (if media_type == "application/octet-stream"@ {
        "attachment"@
    } else {
        "inline"@
    }) + "; filename=\""@ + safe_name(filename) + "\""@
}

/// The headers of an artifact's answer: its type and length, that ranges are served, that it
/// never changes and is private, and that it is neither guessed at nor run.
pub fn artifact_headers(media_type: &str, filename: &str, length: u64) -> (headers: Vec<
    (&'static str, String),
>)
    ensures
        header_pairs(headers@) == seq![
            ("content-type"@, media_type@),
            ("content-length"@, number::decimal(length as nat)),
            ("accept-ranges"@, "bytes"@),
            ("cache-control"@, "private, max-age=31536000, immutable"@),
            ("x-content-type-options"@, "nosniff"@),
            ("content-security-policy"@, "default-src 'none'; sandbox"@),
            ("content-disposition"@, disposition(media_type@, filename@)),
        ],
{
    let mut headers: Vec<(&'static str, String)> = Vec::new();
    headers.push(("content-type", text::copy_of(media_type)));
    headers.push(("content-length", number::format_u64(length)));
    headers.push(("accept-ranges", text::copy_of("bytes")));
    headers.push(("cache-control", text::copy_of("private, max-age=31536000, immutable")));
    headers.push(("x-content-type-options", text::copy_of("nosniff")));
    headers.push(("content-security-policy", text::copy_of("default-src 'none'; sandbox")));
    let kind = if text::same_text(media_type, "application/octet-stream") {
        "attachment"
    } else {
        "inline"
    };
    let name = safe_filename(filename);
    let mut value = text::joined3(kind, "; filename=\"", name.as_str());
    value.append("\"");
    headers.push(("content-disposition", value));
    proof {
        assert(header_pairs(headers@) =~= seq![
            ("content-type"@, media_type@),
            ("content-length"@, number::decimal(length as nat)),
            ("accept-ranges"@, "bytes"@),
            ("cache-control"@, "private, max-age=31536000, immutable"@),
            ("x-content-type-options"@, "nosniff"@),
            ("content-security-policy"@, "default-src 'none'; sandbox"@),
            ("content-disposition"@, disposition(media_type@, filename@)),
        ]);
    }
    headers
}

/// A file name never breaks out of its quotes: it holds no quote, no backslash and no control
/// character, and is never empty.
pub proof fn law_safe_names_stay_quoted(filename: Seq<char>, i: int)
    requires
        0 <= i < safe_name(filename).len(),
    ensures
        safe_name(filename).len() > 0,
        safe_name(filename)[i] != '"',
        safe_name(filename)[i] != '\\',
        !text::is_control(safe_name(filename)[i]),
{
    reveal_strlit("download");
}

/// Whether the file at a position is shown as HTML.
pub open spec fn shows_html(files: Seq<PostFileRead>, position: u32) -> bool {
    exists|i: int|
        0 <= i < files.len() && (#[trigger] files[i]).position == position && files[i].renderer
            == ArtifactRenderer::Html
}

/// Whether the file at a position is shown as HTML.
pub fn has_html_file(files: &[PostFileRead], position: u32) -> (yes: bool)
    ensures
        yes == shows_html(files@, position),
{
    let mut i: usize = 0;
    while i < files.len()
        invariant
            i <= files.len(),
            forall|j: int|
                0 <= j < i ==> !((#[trigger] files@[j]).position == position && files@[j].renderer
                    == ArtifactRenderer::Html),
        decreases files.len() - i,
    {
        if files[i].position == position && files[i].renderer == ArtifactRenderer::Html {
            return true;
        }
        i += 1;
    }
    false
}

} // verus!
