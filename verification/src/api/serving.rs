//! What the interface serves: ranges of artifacts, safe names and paths, feeds, and the answers to
//! failures.
use vstd::prelude::*;
use crate::api::artifact;
use crate::api::artifact::{ArtifactAnswer, RangeRequest};
use crate::api::auth;
use crate::api::error;
use crate::api::feed;
use crate::api::feed::{EventPlace, FeedScope};
use crate::api::paths;
use crate::details::ValueModel;
use crate::number;
use crate::storage::error::StoreError;
use crate::text;

verus! {

// ---- ranges ----

/// The first hyphen of a text stands behind what holds none.
proof fn lemma_hyphen(front: Seq<char>, back: Seq<char>, start: int)
    requires
        0 <= start <= front.len(),
        !front.contains('-'),
    ensures
        text::found_from(front + seq!['-'] + back, seq!['-'], start) == Some(front.len() as int),
    decreases front.len() - start,
{
    let whole = front + seq!['-'] + back;
    if start < front.len() {
        assert(whole.subrange(start, start + 1)[0] == front[start]);
        assert(front.contains(front[start]));
        lemma_hyphen(front, back, start + 1);
    } else {
        assert(whole.subrange(start, start + 1) =~= seq!['-']);
    }
}

proof fn lemma_digits_only(value: u64)
    ensures
        !number::decimal(value as nat).contains('-'),
        !number::decimal(value as nat).contains(','),
        number::decimal(value as nat).len() > 0,
        number::unsigned_value(number::decimal(value as nat), u64::MAX as nat) == Some(value as nat),
{
    number::law_decimal_reads_back(value as nat);
    number::law_unsigned_decimal_reads_back(value);
    let s = number::decimal(value as nat);
    assert forall|i: int| 0 <= i < s.len() implies s[i] != '-' && s[i] != ',' by {
        assert(text::is_digit(s[i]));
    }
}

proof fn lemma_wanted(header: Seq<u8>, wanted: Seq<char>, length: u64)
    requires
        auth::is_header_text(header),
        auth::header_chars(header) == "bytes="@ + wanted,
    ensures
        artifact::requested_range(Some(header), length) == artifact::range_of(wanted, length),
{
    let chars = auth::header_chars(header);
    assert(chars.take("bytes="@.len() as int) =~= "bytes="@);
    assert(chars.skip("bytes="@.len() as int) =~= wanted);
}

/// `bytes=a-b` asks for the bytes from `a` to `b`, or to the last where that comes first; `bytes=a-`
/// for those from `a` on; and `bytes=-n` for the last `n`, or all where there are fewer. What starts
/// behind the end, ends before its start or is empty cannot be served.
pub proof fn law_ranges_are_the_asked_bytes(header: Seq<u8>, first: u64, last: u64, length: u64)
    requires
        auth::is_header_text(header),
    ensures
        auth::header_chars(header) == "bytes="@ + (number::decimal(first as nat) + seq!['-']
            + number::decimal(last as nat)) ==> artifact::requested_range(Some(header), length) == (
        if first < length && first <= last {
            RangeRequest::Part {
                start: first,
                end: if last < length {
                    last
                } else {
                    (length - 1) as u64
                },
            }
        } else {
            RangeRequest::Unsatisfiable
        }),
        auth::header_chars(header) == "bytes="@ + (number::decimal(first as nat) + seq!['-'])
            ==> artifact::requested_range(Some(header), length) == (if first < length {
            RangeRequest::Part { start: first, end: (length - 1) as u64 }
        } else {
            RangeRequest::Unsatisfiable
        }),
        auth::header_chars(header) == "bytes="@ + (seq!['-'] + number::decimal(last as nat))
            ==> artifact::requested_range(Some(header), length) == (if last > 0 && length > 0 {
            RangeRequest::Part {
                start: if last < length {
                    (length - last) as u64
                } else {
                    0
                },
                end: (length - 1) as u64,
            }
        } else {
            RangeRequest::Unsatisfiable
        }),
{
    let a = number::decimal(first as nat);
    let b = number::decimal(last as nat);
    lemma_digits_only(first);
    lemma_digits_only(last);
    let none = Seq::<char>::empty();
    if auth::header_chars(header) == "bytes="@ + (a + seq!['-'] + b) {
        let wanted = a + seq!['-'] + b;
        lemma_wanted(header, wanted, length);
        lemma_hyphen(a, b, 0);
        assert(wanted.take(a.len() as int) =~= a);
        assert(wanted.skip(a.len() as int + 1) =~= b);
        lemma_no_comma(a, b);
    }
    if auth::header_chars(header) == "bytes="@ + (a + seq!['-']) {
        let wanted = a + seq!['-'] + none;
        assert(wanted =~= a + seq!['-']);
        lemma_wanted(header, wanted, length);
        lemma_hyphen(a, none, 0);
        assert(wanted.take(a.len() as int) =~= a);
        assert(wanted.skip(a.len() as int + 1) =~= none);
        lemma_no_comma(a, none);
    }
    if auth::header_chars(header) == "bytes="@ + (seq!['-'] + b) {
        let wanted = none + seq!['-'] + b;
        assert(wanted =~= seq!['-'] + b);
        lemma_wanted(header, wanted, length);
        lemma_hyphen(none, b, 0);
        assert(wanted.take(0) =~= none);
        assert(wanted.skip(1) =~= b);
        lemma_no_comma(none, b);
    }
}

proof fn lemma_no_comma(a: Seq<char>, b: Seq<char>)
    requires
        !a.contains(','),
        !b.contains(','),
    ensures
        !(a + seq!['-'] + b).contains(','),
{
    let whole = a + seq!['-'] + b;
    assert forall|i: int| 0 <= i < whole.len() implies whole[i] != ',' by {
        if i < a.len() {
            assert(a.contains(a[i]));
        } else if i > a.len() {
            assert(whole[i] == b[i - a.len() - 1]);
            assert(b.contains(b[i - a.len() - 1]));
        }
    }
}

/// Without a range header all of an artifact is asked for; a header of another unit, or of more than
/// one range, asks for what cannot be served.
pub proof fn law_other_ranges_are_refused(header: Seq<u8>, length: u64)
    ensures
        artifact::requested_range(None, length) == RangeRequest::Whole,
        artifact::requested_range(Some(header), length) != RangeRequest::Whole,
        !text::has_prefix(auth::header_chars(header), "bytes="@) ==> artifact::requested_range(
            Some(header),
            length,
        ) == RangeRequest::Unsatisfiable,
        auth::header_chars(header).contains(',') ==> artifact::requested_range(Some(header), length)
            == RangeRequest::Unsatisfiable,
{
    let chars = auth::header_chars(header);
    if chars.contains(',') && auth::is_header_text(header) && text::has_prefix(chars, "bytes="@) {
        reveal_strlit("bytes=");
        let wanted = chars.skip("bytes="@.len() as int);
        let i = choose|i: int| 0 <= i < chars.len() && chars[i] == ',';
        if i < "bytes="@.len() {
            assert(chars.take("bytes="@.len() as int)[i] == "bytes="@[i]);
        }
        assert(wanted[i - "bytes="@.len()] == ',');
        assert(wanted.contains(','));
    }
}

/// An answer carries what was asked: 200 and all of the artifact, or 206 and the bytes that its range
/// header names, which lie within the artifact, or 416 and nothing. An answer to a HEAD request
/// carries no body.
pub proof fn law_answers_carry_what_was_asked(
    answer: ArtifactAnswer,
    header: Option<Seq<u8>>,
    length: u64,
    head: bool,
)
    requires
        artifact::serves(answer, artifact::requested_range(header, length), length, head),
    ensures
        answer.status == 200 || answer.status == 206 || answer.status == 416,
        header is None <==> answer.status == 200,
        answer.status == 200 ==> answer.start == 0 && answer.length == length && answer.content_range
            is None,
        answer.status == 206 ==> answer.length > 0 && answer.start + answer.length <= length
            && answer.content_range is Some && answer.content_range->0@ == "bytes "@ + number::decimal(
            answer.start as nat,
        ) + "-"@ + number::decimal((answer.start + answer.length - 1) as nat) + "/"@ + number::decimal(
            length as nat,
        ),
        answer.status == 416 ==> answer.length == 0 && answer.content_range is Some
            && answer.content_range->0@ == "bytes */"@ + number::decimal(length as nat),
        answer.has_body <==> !head && answer.length > 0,
{
    artifact::law_ranges_lie_within(header, length);
    law_other_ranges_are_refused(header->0, length);
}

// ---- names ----

/// A download's name is as long as the file's and keeps its letters, digits, dots, underscores and
/// hyphens; the rest is underscores. What has no name is called `download`.
pub proof fn law_names_are_kept_where_safe(filename: Seq<char>, media_type: Seq<char>, i: int)
    ensures
        filename.len() == 0 ==> artifact::safe_name(filename) == "download"@,
        filename.len() > 0 ==> artifact::safe_name(filename).len() == filename.len(),
        0 <= i < filename.len() ==> ({
            let c = filename[i];
            let kept = 'a' <= c <= 'z' || 'A' <= c <= 'Z' || '0' <= c <= '9' || c == '.' || c == '_' || c
                == '-';
            artifact::safe_name(filename)[i] == (if kept {
                c
            } else {
                '_'
            })
        }),
        media_type == "application/octet-stream"@ ==> artifact::disposition(media_type, filename)
            == "attachment; filename=\""@ + artifact::safe_name(filename) + "\""@,
        media_type != "application/octet-stream"@ ==> artifact::disposition(media_type, filename)
            == "inline; filename=\""@ + artifact::safe_name(filename) + "\""@,
{
    reveal_strlit("attachment");
    reveal_strlit("inline");
    reveal_strlit("; filename=\"");
    reveal_strlit("attachment; filename=\"");
    reveal_strlit("inline; filename=\"");
    assert("attachment"@ + "; filename=\""@ =~= "attachment; filename=\""@);
    assert("inline"@ + "; filename=\""@ =~= "inline; filename=\""@);
}

// ---- paths ----

/// A path that version one accepts for a support file names no directory above or beside it: no
/// part of it is `.` or `..`, in plain or in escapes, and no separator is escaped or doubled.
pub proof fn law_accepted_support_paths_stay_below(path: Seq<char>, i: int)
    requires
        text::has_prefix(path, "/api/v1/"@),
        text::holds(path, "/support/"@),
        paths::path_fault(path) is None,
        0 <= i < text::split(path, '/').len(),
    ensures
        text::split(path, '/')[i] != "."@,
        text::split(path, '/')[i] != ".."@,
        text::lowercase(text::split(path, '/')[i]) != "%2e"@,
        text::lowercase(text::split(path, '/')[i]) != "%2e%2e"@,
        !text::holds(text::lowercase(path), "%2f"@),
        !text::holds(text::lowercase(path), "%5c"@),
        !text::holds(path, "//"@),
        !paths::is_malformed(path),
{
    assert(!paths::is_dot_segment(text::split(path, '/')[i]));
}

/// A path that is not accepted is answered with 400, and paths outside version one are none of its
/// business.
pub proof fn law_refused_paths_are_answered(path: Seq<char>)
    ensures
        paths::path_fault(path) matches Some(answer) ==> answer.status == 400 && answer.code
            == "malformed_path"@ && (path == "/api/v1"@ || text::has_prefix(path, "/api/v1/"@)),
        path == "/api/v1"@ || text::has_prefix(path, "/api/v1/"@) ==> (paths::is_malformed(path)
            ==> paths::path_fault(path) is Some),
{
}

/// The decoded path of a support file names something in each of its parts, and holds no backslash
/// and no control character.
pub proof fn law_decoded_support_paths_name_files(path: Seq<char>, i: int, k: int)
    requires
        paths::is_support_path(path),
        0 <= i < text::split(path, '/').len(),
        0 <= k < path.len(),
    ensures
        text::split(path, '/')[i].len() > 0,
        text::split(path, '/')[i] != "."@,
        text::split(path, '/')[i] != ".."@,
        path[k] != '\\',
        !text::is_control(path[k]),
{
    assert(path.contains(path[k]));
}

// ---- feeds ----

/// The feed of all takes in every event, that of a project those of the project, and that of a
/// session those of the session.
pub proof fn law_events_go_to_their_feeds(scope: FeedScope, place: EventPlace)
    ensures
        scope is Global ==> feed::belongs(scope, place),
        scope matches FeedScope::Project(id) ==> (feed::belongs(scope, place) <==> place.project_id
            == id),
        scope matches FeedScope::Session(id) ==> (feed::belongs(scope, place)
            <==> place.session_public_id@ == id@),
{
}

/// A reader goes on after any event that it names by its number, and by nothing else.
pub proof fn law_readers_go_on_where_they_were(header: Seq<u8>, id: i64)
    requires
        auth::is_header_text(header),
        auth::header_chars(header) == number::signed_decimal(id as int),
    ensures
        id > 0 ==> feed::last_seen(header) == Some(id as int),
        id <= 0 ==> feed::last_seen(header) is None,
{
    number::law_signed_decimal_reads_back(id);
}

// ---- failures ----

/// A failure of the store is answered by what it is: what is not there with 404, what was asked wrongly
/// with 400, what is too large with 413, what does not fit with 507, what cannot be taken with 422,
/// what conflicts with 409, and what is the daemon's own fault with 500.
pub proof fn law_failures_are_answered_by_kind(failure: StoreError)
    ensures
        ({
            let answer = error::store_error_answer(failure);
            &&& failure is SessionNotFound || failure is ProjectNotFound || failure is PostNotFound
                || failure is PredecessorNotFound || failure is ArtifactNotFound <==> answer.status == 404
            &&& failure is InvalidPageLimit || failure is InvalidPageCursor <==> answer.status == 400
            &&& failure is UploadLimitExceeded <==> answer.status == 413
            &&& failure is GlobalBlobBudgetExceeded <==> answer.status == 507
            &&& failure is ArtifactClassificationFailed || failure is BlankPublicationTitle || failure
                is BlankPublicationCommentary || failure is PublicationRequiresFile || failure
                is InvalidGitProvenance || failure is DuplicateSupportPath || failure
                is InvalidSupportPath <==> answer.status == 422
            &&& failure is CrossSessionPredecessor || failure is Sqlite && failure->constraint
                <==> answer.status == 409
            &&& answer.status == 404 || answer.status == 400 || answer.status == 413 || answer.status
                == 507 || answer.status == 422 || answer.status == 409 || answer.status == 500
        }),
{
}

/// The code of an answer tells what failed, and its details what was asked and what there is.
pub proof fn law_answers_tell_what_failed(failure: StoreError)
    ensures
        ({
            let answer = error::store_error_answer(failure);
            &&& failure matches StoreError::SessionNotFound { public_id } ==> answer.code
                == "session_not_found"@ && answer.details == seq![
                ("public_id"@, ValueModel::Text(public_id@)),
            ]
            &&& failure matches StoreError::ProjectNotFound { project_id } ==> answer.code
                == "project_not_found"@ && answer.details == seq![
                ("project_id"@, ValueModel::Number(project_id as int)),
            ]
            &&& failure matches StoreError::PostNotFound { post_id } ==> answer.code
                == "post_not_found"@ && answer.details == seq![
                ("post_id"@, ValueModel::Number(post_id as int)),
            ]
            &&& failure matches StoreError::PredecessorNotFound { post_id } ==> answer.code
                == "post_not_found"@ && answer.details == seq![
                ("post_id"@, ValueModel::Number(post_id as int)),
            ]
            &&& failure matches StoreError::CrossSessionPredecessor { post_id } ==> answer.code
                == "revision_conflict"@ && answer.details == seq![
                ("post_id"@, ValueModel::Number(post_id as int)),
            ]
            &&& failure matches StoreError::InvalidPageLimit { limit, maximum } ==> answer.code
                == "invalid_page_limit"@ && answer.details == seq![
                ("limit"@, ValueModel::Number(limit as int)),
                ("maximum"@, ValueModel::Number(maximum as int)),
            ]
            &&& failure matches StoreError::UploadLimitExceeded { limit, attempted } ==> answer.code
                == "upload_limit_exceeded"@ && answer.details == seq![
                ("limit"@, ValueModel::Number(limit as int)),
                ("attempted"@, ValueModel::Number(attempted as int)),
            ]
            &&& failure matches StoreError::GlobalBlobBudgetExceeded { limit, current, additional }
                ==> answer.code == "storage_limit_exceeded"@ && answer.details == seq![
                ("limit"@, ValueModel::Number(limit as int)),
                ("current"@, ValueModel::Number(current as int)),
                ("additional"@, ValueModel::Number(additional as int)),
            ]
            &&& failure is InvalidPageCursor ==> answer.code == "invalid_page_cursor"@
            &&& failure is ArtifactNotFound ==> answer.code == "artifact_not_found"@
            &&& failure is ArtifactClassificationFailed ==> answer.code
                == "artifact_classification_failed"@
            &&& failure is BlankPublicationTitle || failure is BlankPublicationCommentary || failure
                is PublicationRequiresFile || failure is InvalidGitProvenance || failure
                is DuplicateSupportPath || failure is InvalidSupportPath ==> answer.code
                == "validation_failed"@
            &&& failure is Integrity || failure is InvalidPostMetadata ==> answer.code
                == "storage_integrity_error"@
            &&& failure is Io ==> answer.code == "storage_io_error"@
            &&& failure is Sqlite && failure->constraint ==> answer.code
                == "storage_constraint_conflict"@
            &&& failure is Sqlite && !failure->constraint ==> answer.code == "database_error"@
            &&& failure is SchemaTooNew || failure is InvalidMigrationPlan || failure is Random
                || failure is PublicIdExhausted || failure is PublicationStagingStoreMismatch || failure
                is InvalidStatusValue ==> answer.code == "internal_error"@
        }),
{
}

} // verus!
