//! What the store writes down and tells: the names of its renderers, its bounds, its places, the rows
//! that it reads, and the messages of its failures.
use vstd::prelude::*;
use vstd::utf8::*;
use crate::api::manifest;
use crate::api::manifest::PublicationManifest;
use crate::number;
use crate::path;
use crate::storage::blob;
use crate::storage::blob::{BlobIntegrityError, LockState, StagingAction};
use crate::storage::classification::{ArtifactRenderer, FileClassification};
use crate::storage::error;
use crate::storage::error::StoreError;
use crate::storage::publication::{
    PostRecord,
    PublicationFile,
    PublicationRequest,
    PublicationSupportAsset,
    StagedPublicationBlob,
};
use crate::storage::read;
use crate::storage::read::{Cursor, PostRead, RawFile, RawPost};
use crate::storage::rows;
use crate::storage::rows::{AssetValues, FileValues, PostValues};
use crate::storage::session;
use crate::text;

verus! {

// ---- renderers ----

/// Each renderer is stored under its own name, and nothing else names one.
pub proof fn law_renderers_are_stored_by_name(name: Seq<char>)
    ensures
        read::renderer_text(ArtifactRenderer::Image) == "image"@,
        read::renderer_text(ArtifactRenderer::Svg) == "svg"@,
        read::renderer_text(ArtifactRenderer::Pdf) == "pdf"@,
        read::renderer_text(ArtifactRenderer::Video) == "video"@,
        read::renderer_text(ArtifactRenderer::Audio) == "audio"@,
        read::renderer_text(ArtifactRenderer::Markdown) == "markdown"@,
        read::renderer_text(ArtifactRenderer::Text) == "text"@,
        read::renderer_text(ArtifactRenderer::Json) == "json"@,
        read::renderer_text(ArtifactRenderer::Csv) == "csv"@,
        read::renderer_text(ArtifactRenderer::Html) == "html"@,
        read::renderer_text(ArtifactRenderer::Download) == "download"@,
        read::renderer_named(name) matches Some(renderer) ==> read::renderer_text(renderer) == name,
{
}

// ---- bounds ----

/// A provenance has a root of 1 to 4096 bytes and, where they are there, a branch of 1 to 1024 and a
/// commit of 1 to 128 bytes.
pub proof fn law_provenance_is_bounded(
    root: Seq<char>,
    branch: Option<Seq<char>>,
    commit: Option<Seq<char>>,
)
    ensures
        read::is_valid_provenance(root, branch, commit) <==> {
            &&& 1 <= encode_utf8(root).len() <= 4096
            &&& branch is Some ==> 1 <= encode_utf8(branch->0).len() <= 1024
            &&& commit is Some ==> 1 <= encode_utf8(commit->0).len() <= 128
        },
{
}

/// A page shows as many posts as were asked for, twenty where no number is asked for, and never more;
/// and the newest come first.
pub proof fn law_pages_show_what_was_asked(
    limit: u32,
    fetched: Seq<Cursor>,
    one: Cursor,
    other: Cursor,
)
    ensures
        read::wanted_limit(Some(limit)) == limit,
        read::wanted_limit(None) == 20,
        read::MAX_PAGE_LIMIT == 100,
        read::shown(limit, fetched).len() <= limit,
        read::shown(limit, fetched).len() == fetched.len() || read::shown(limit, fetched).len() == limit,
        read::shown(limit, fetched) == fetched.take(read::shown(limit, fetched).len() as int),
        one.published_at > other.published_at ==> read::comes_before(one, other),
        one.published_at == other.published_at && one.post_id > other.post_id ==> read::comes_before(
            one,
            other,
        ),
        read::comes_before(one, other) ==> !read::comes_before(other, one) && one != other,
        one == other || read::comes_before(one, other) || read::comes_before(other, one),
{
    assert(fetched.take(fetched.len() as int) =~= fetched);
}

/// A cursor is the time and the number of a post with a colon between them, and what names no post
/// is none.
pub proof fn law_cursors_name_posts(published_at: i64, post_id: i64, value: Seq<char>)
    ensures
        read::cursor_text(published_at as int, post_id as int) == number::signed_decimal(
            published_at as int,
        ) + seq![':'] + number::signed_decimal(post_id as int),
        read::cursor_value(value) matches Some(place) ==> place.1 > 0 && text::split(value, ':').len()
            == 2,
{
    assert(number::signed_decimal(published_at as int).push(':') =~= number::signed_decimal(
        published_at as int,
    ) + seq![':']);
}

/// The store's schema is at its fifth version, and public identifiers start at six characters of the
/// letters and digits that are not mistaken for one another.
pub proof fn law_public_identifiers_are_readable(c: char)
    ensures
        session::CURRENT_SCHEMA_VERSION == 5,
        session::INITIAL_PUBLIC_ID_LENGTH == 6,
        session::is_base58(c) <==> ('1' <= c <= '9' || 'A' <= c <= 'Z' && c != 'I' && c != 'O' || 'a'
            <= c <= 'z' && c != 'l'),
{
}

// ---- places ----

proof fn lemma_below(base: Seq<u8>, name: Seq<char>)
    ensures
        base.len() > 0 && base.last() != 0x2f ==> path::below(base, encode_utf8(name)) == base + seq![
            0x2fu8,
        ] + encode_utf8(name),
{
    assert(base.push(0x2f) =~= base + seq![0x2fu8]);
}

/// A blob's file stands in `blobs` below the store's root, in directories of the first and the second
/// two characters of its digest, under the whole digest.
pub proof fn law_blobs_stand_by_their_digest(root: Seq<u8>, hash: Seq<char>)
    requires
        blob::is_blob_hash(hash),
        root.len() > 0,
        root.last() != 0x2f,
    ensures
        blob::blob_location(root, hash) == root + seq![0x2fu8] + encode_utf8("blobs"@) + seq![0x2fu8]
            + encode_utf8(hash.subrange(0, 2)) + seq![0x2fu8] + encode_utf8(hash.subrange(2, 4)) + seq![
            0x2fu8,
        ] + encode_utf8(hash),
{
    let slash = seq![0x2fu8];
    lemma_below(root, "blobs"@);
    reveal_strlit("blobs");
    is_ascii_chars_encode_utf8("blobs"@);
    let blobs = root + slash + encode_utf8("blobs"@);
    assert(blobs.last() == 's' as u8);
    lemma_below(blobs, hash.subrange(0, 2));
    lemma_hex_pair(hash, 0);
    lemma_hex_pair(hash, 2);
    let first = blobs + slash + encode_utf8(hash.subrange(0, 2));
    assert(first.last() == encode_utf8(hash.subrange(0, 2))[1]);
    lemma_below(first, hash.subrange(2, 4));
    let second = first + slash + encode_utf8(hash.subrange(2, 4));
    assert(second.last() == encode_utf8(hash.subrange(2, 4))[1]);
    lemma_below(second, hash);
}

proof fn lemma_hex_pair(hash: Seq<char>, at: int)
    requires
        blob::is_blob_hash(hash),
        0 <= at <= 62,
    ensures
        encode_utf8(hash.subrange(at, at + 2)).len() == 2,
        encode_utf8(hash.subrange(at, at + 2))[1] != 0x2f,
{
    let pair = hash.subrange(at, at + 2);
    assert(crate::hex::is_lower_hex(hash[at]));
    assert(crate::hex::is_lower_hex(hash[at + 1]));
    assert(pair[0] == hash[at] && pair[1] == hash[at + 1]);
    assert(is_ascii_chars(pair));
    is_ascii_chars_encode_utf8(pair);
}

/// Recovery takes the data of a stage whose writer is gone, and lone leftovers; it leaves what a
/// writer holds, and everything that is neither a data file nor a lock.
pub proof fn law_recovery_leaves_writers_alone(extension: Seq<char>, lock: LockState, has_part: bool)
    ensures
        lock == LockState::Held ==> blob::staging(extension, lock, has_part) == StagingAction::Leave,
        extension == "part"@ && lock == LockState::Free ==> blob::staging(extension, lock, has_part)
            == StagingAction::Recover,
        extension == "part"@ && lock == LockState::Absent ==> blob::staging(extension, lock, has_part)
            == StagingAction::RemoveFile,
        extension == "lock"@ && lock == LockState::Free && !has_part ==> blob::staging(
            extension,
            lock,
            has_part,
        ) == StagingAction::RemoveFile,
        extension == "lock"@ && has_part ==> blob::staging(extension, lock, has_part)
            == StagingAction::Leave,
        extension != "part"@ && extension != "lock"@ ==> blob::staging(extension, lock, has_part)
            == StagingAction::Leave,
{
    reveal_strlit("part");
    reveal_strlit("lock");
    assert("part"@[0] == 'p' && "lock"@[0] == 'l');
}

/// A blob's recorded size is its size; no record is right only for a size that cannot be recorded.
pub proof fn law_recorded_sizes_are_sizes(size: u64)
    requires
        size <= i64::MAX,
    ensures
        blob::records_size(Some(size as i64), size),
        !blob::records_size(None, size),
        forall|recorded: i64| blob::records_size(Some(recorded), size) ==> recorded == size,
{
}

// ---- rows ----

/// A post that is read from its rows says what they say: its numbers, its session, its title and its
/// commentary, its predecessor, its time and its provenance, and its files in their order.
pub proof fn law_posts_say_what_their_rows_say(
    post: PostRead,
    raw: RawPost,
    files: Seq<RawFile>,
    i: int,
    k: int,
)
    requires
        read::post_is(post, raw, files),
        0 <= i < files.len(),
    ensures
        post.id == raw.id,
        post.session_id == raw.session_id,
        post.session_public_id@ == raw.session_public_id@,
        post.title@ == raw.title@,
        post.commentary@ == raw.commentary@,
        post.predecessor_post_id == raw.predecessor_post_id,
        post.published_at == raw.published_at,
        raw.git_root is None <==> post.git is None,
        raw.git_root matches Some(root) ==> post.git->0.root@ == root@ && text::optional(
            post.git->0.branch,
        ) == text::optional(raw.git_branch) && text::optional(post.git->0.commit) == text::optional(
            raw.git_commit,
        ),
        post.files@.len() == files.len(),
        post.files@[i].position == files[i].position,
        post.files@[i].filename@ == files[i].filename@,
        text::optional(post.files@[i].caption) == text::optional(files[i].caption),
        post.files@[i].media_type@ == files[i].media_type@,
        read::renderer_text(post.files@[i].renderer) == files[i].renderer@,
        post.files@[i].blob.hash@ == files[i].hash@,
        post.files@[i].blob.byte_size == files[i].byte_size,
        post.files@[i].support_assets@.len() == files[i].support_assets@.len(),
        0 <= k < files[i].support_assets@.len() ==> {
            let asset = post.files@[i].support_assets@[k];
            let row = files[i].support_assets@[k];
            asset.relative_path@ == row.relative_path@ && asset.blob.hash@ == row.hash@
                && asset.blob.byte_size == row.byte_size
        },
{
    assert(read::file_is(post.files@[i], files[i]));
    if 0 <= k < files[i].support_assets@.len() {
        assert(read::asset_is(post.files@[i].support_assets@[k], files[i].support_assets@[k]));
    }
}

/// The rows that are written for a publication say what was asked: the title, the commentary, the
/// predecessor, the time and the provenance of the post; the place, the name, the caption, the type,
/// the renderer and the digest of a file; and the place, the path and the digest of an asset.
pub proof fn law_written_rows_say_what_was_asked(
    post: PostValues,
    request: PublicationRequest,
    published_at: i64,
    written: FileValues,
    file: PublicationFile,
    class: FileClassification,
    row: AssetValues,
    asset: PublicationSupportAsset,
    position: int,
)
    ensures
        rows::post_values_are(post, request, published_at) ==> {
            &&& post.title@ == request.title@
            &&& post.commentary@ == request.commentary@
            &&& post.predecessor_post_id == request.predecessor_post_id
            &&& post.published_at == published_at
            &&& request.git is None ==> post.git_root is None && post.git_branch is None
                && post.git_commit is None
            &&& request.git matches Some(git) ==> text::optional(post.git_root) == Some(git.root@)
                && text::optional(post.git_branch) == text::optional(git.branch) && text::optional(
                post.git_commit,
            ) == text::optional(git.commit)
        },
        rows::file_values_are(written, file, position, class) ==> {
            &&& written.position == position
            &&& written.filename@ == file.filename@
            &&& text::optional(written.caption) == text::optional(file.caption)
            &&& written.media_type@ == class.media_type@
            &&& written.renderer@ == read::renderer_text(class.renderer)
            &&& written.hash@ == file.blob.record@.0
        },
        rows::asset_values_are(row, asset, position) ==> {
            &&& row.position == position
            &&& row.relative_path@ == asset.relative_path@
            &&& row.hash@ == asset.blob.record@.0
        },
{
}

/// A post that is read back is the one that was published: its numbers, its session, its title, its
/// commentary, its predecessor, its time and its provenance, and each file at its place with its name,
/// its caption, its type, its renderer and its bytes, and so its assets.
pub proof fn law_posts_are_read_back_whole(
    post: PostRead,
    request: PublicationRequest,
    record: PostRecord,
    classes: Seq<FileClassification>,
    i: int,
    j: int,
)
    requires
        rows::reads_back(post, request, record, classes),
        0 <= i < request.files@.len(),
    ensures
        post.id == record.id,
        post.session_id == record.session_id,
        post.session_public_id@ == record.session_public_id@,
        post.title@ == request.title@,
        post.commentary@ == request.commentary@,
        post.predecessor_post_id == request.predecessor_post_id,
        post.published_at == record.published_at,
        read::git_parts(post.git) == read::git_parts(request.git),
        post.files@.len() == request.files@.len(),
        post.files@[i].position == i,
        post.files@[i].filename@ == request.files@[i].filename@,
        text::optional(post.files@[i].caption) == text::optional(request.files@[i].caption),
        post.files@[i].media_type@ == classes[i].media_type@,
        post.files@[i].renderer == classes[i].renderer,
        post.files@[i].blob.hash@ == request.files@[i].blob.record@.0,
        post.files@[i].blob.byte_size == request.files@[i].blob.record@.1,
        post.files@[i].support_assets@.len() == request.files@[i].support_assets@.len(),
        0 <= j < request.files@[i].support_assets@.len() ==> {
            let asset = post.files@[i].support_assets@[j];
            let asked = request.files@[i].support_assets@[j];
            asset.relative_path@ == asked.relative_path@ && asset.blob.hash@ == asked.blob.record@.0
                && asset.blob.byte_size == asked.blob.record@.1
        },
{
    assert(rows::file_reads_back(post.files@[i], request.files@[i], i, classes[i]));
    if 0 <= j < request.files@[i].support_assets@.len() {
        assert(rows::asset_reads_back(
            post.files@[i].support_assets@[j],
            request.files@[i].support_assets@[j],
        ));
    }
}

/// A file's row is sound exactly where its position and its sizes are numbers that they can be, and its
/// renderer is one that is stored by name.
pub proof fn law_which_rows_are_sound(raw: RawFile)
    ensures
        read::file_fault(raw) is None <==> {
            &&& 0 <= raw.position < 0x1_0000_0000
            &&& raw.byte_size >= 0
            &&& forall|i: int|
                0 <= i < raw.support_assets@.len() ==> (#[trigger] raw.support_assets@[i]).byte_size >= 0
            &&& read::renderer_named(raw.renderer@) is Some
        },
{
}

/// The request that is made of a manifest carries what it declares: the session, the title, the
/// commentary, the predecessor, the provenance, and the files in their order with their names and
/// captions, each with the bytes that came under its part, and so their assets.
pub proof fn law_requests_carry_the_manifest(
    request: PublicationRequest,
    session_public_id: Seq<char>,
    declared: PublicationManifest,
    names: Seq<Seq<char>>,
    blobs: Seq<StagedPublicationBlob>,
    i: int,
    k: int,
    j: int,
)
    requires
        manifest::request_matches(request, session_public_id, declared, names, blobs),
        names.no_duplicates(),
        names.len() == blobs.len(),
        0 <= i < declared.files@.len(),
        0 <= j < names.len(),
    ensures
        request.session_public_id@ == session_public_id,
        request.title@ == declared.title@,
        request.commentary@ == declared.commentary@,
        request.predecessor_post_id == declared.predecessor_post_id,
        read::git_parts(request.git) == read::git_parts(declared.git),
        request.files@.len() == declared.files@.len(),
        request.files@[i].filename@ == declared.files@[i].filename@,
        text::optional(request.files@[i].caption) == text::optional(declared.files@[i].caption),
        names[j] == declared.files@[i].part@ ==> request.files@[i].blob.root@ == blobs[j].root@
            && request.files@[i].blob.record == blobs[j].record,
        request.files@[i].support_assets@.len() == declared.files@[i].support_assets@.len(),
        0 <= k < declared.files@[i].support_assets@.len() ==> {
            let asset = request.files@[i].support_assets@[k];
            let said = declared.files@[i].support_assets@[k];
            asset.relative_path@ == said.relative_path@ && (names[j] == said.part@ ==> asset.blob.root@
                == blobs[j].root@ && asset.blob.record == blobs[j].record)
        },
{
    assert(manifest::file_matches(request.files@[i], declared.files@[i], names, blobs));
    if 0 <= k < declared.files@[i].support_assets@.len() {
        assert(manifest::staged_as(
            request.files@[i].support_assets@[k].blob,
            declared.files@[i].support_assets@[k].part@,
            names,
            blobs,
        ));
    }
}

/// Two provenances with the same parts have the same root, branch and commit.
pub proof fn law_provenance_has_three_parts(one: read::GitProvenance, other: read::GitProvenance)
    requires
        read::git_parts(Some(one)) == read::git_parts(Some(other)),
    ensures
        one.root@ == other.root@,
        text::optional(one.branch) == text::optional(other.branch),
        text::optional(one.commit) == text::optional(other.commit),
        read::git_parts(None) is None,
{
}

// ---- messages ----

/// A message about numbers gives them in the order in which it names them.
pub proof fn law_messages_give_their_numbers(
    limit: u64,
    attempted: u64,
    current: u64,
    found: u32,
    supported: u32,
)
    ensures
        error::store_error_text(StoreError::UploadLimitExceeded { limit, attempted })
            == "upload byte limit exceeded: limit "@ + number::decimal(limit as nat) + ", attempted "@
            + number::decimal(attempted as nat),
        error::store_error_text(
            StoreError::GlobalBlobBudgetExceeded { limit, current, additional: attempted },
        ) == "global finalized blob budget exceeded: limit "@ + number::decimal(limit as nat)
            + ", current usage "@ + number::decimal(current as nat) + ", additional unique bytes "@
            + number::decimal(attempted as nat),
        error::store_error_text(StoreError::SchemaTooNew { found, supported })
            == "database schema version "@ + number::decimal(found as nat)
            + " is newer than supported version "@ + number::decimal(supported as nat),
        error::store_error_text(StoreError::InvalidMigrationPlan { expected: supported, found })
            == "invalid migration plan: expected version "@ + number::decimal(supported as nat)
            + ", found "@ + number::decimal(found as nat),
        error::store_error_text(StoreError::InvalidPageLimit { limit: found, maximum: supported })
            == "page limit "@ + number::decimal(found as nat) + " is outside 1..="@ + number::decimal(
            supported as nat,
        ),
{
}

/// A message about a session, a project, a post or a path names it.
pub proof fn law_messages_name_their_subject(id: i64, name: String, field: &'static str)
    ensures
        error::store_error_text(StoreError::SessionNotFound { public_id: name }) == "session "@ + name@
            + " was not found"@,
        error::store_error_text(StoreError::ProjectNotFound { project_id: id }) == "project "@
            + number::signed_decimal(id as int) + " was not found"@,
        error::store_error_text(StoreError::PostNotFound { post_id: id }) == "post "@
            + number::signed_decimal(id as int) + " was not found"@,
        error::store_error_text(StoreError::PredecessorNotFound { post_id: id }) == "predecessor post "@
            + number::signed_decimal(id as int) + " was not found"@,
        error::store_error_text(StoreError::CrossSessionPredecessor { post_id: id })
            == "predecessor post "@ + number::signed_decimal(id as int)
            + " belongs to another session"@,
        error::store_error_text(StoreError::DuplicateSupportPath { relative_path: name })
            == "duplicate support path under one entry: "@ + name@,
        error::store_error_text(StoreError::InvalidSupportPath { relative_path: name })
            == "invalid relative support path: "@ + name@,
        error::store_error_text(StoreError::Io(name)) == "storage I/O error: "@ + name@,
        error::store_error_text(StoreError::Sqlite { constraint: true, message: name })
            == "SQLite store error: "@ + name@,
        error::store_error_text(StoreError::Random(name)) == "operating-system randomness error: "@
            + name@,
        error::store_error_text(StoreError::InvalidStatusValue { field, value: id })
            == "stored status value "@ + field@ + " is invalid: "@ + number::signed_decimal(id as int),
{
}

/// A message about a publication says what is wrong with it.
pub proof fn law_messages_say_what_is_wrong()
    ensures
        error::store_error_text(StoreError::PublicIdExhausted)
            == "public session ID length exhausted"@,
        error::store_error_text(StoreError::InvalidPageCursor) == "invalid page cursor"@,
        error::store_error_text(StoreError::BlankPublicationTitle)
            == "publication title must not be blank"@,
        error::store_error_text(StoreError::BlankPublicationCommentary)
            == "publication commentary must not be blank"@,
        error::store_error_text(StoreError::PublicationRequiresFile)
            == "publication requires at least one visible file"@,
        error::store_error_text(StoreError::PublicationStagingStoreMismatch)
            == "staged publication blob belongs to another store"@,
        error::store_error_text(StoreError::ArtifactClassificationFailed)
            == "artifact media declaration contradicts its filename or bytes"@,
        error::store_error_text(StoreError::ArtifactNotFound) == "associated artifact was not found"@,
        error::store_error_text(StoreError::InvalidPostMetadata) == "stored post metadata is invalid"@,
        error::store_error_text(StoreError::InvalidGitProvenance) == "Git provenance is invalid"@,
{
}

/// A message about a blob names it, and where it does not agree with what is known of it, what was
/// expected before what was found.
pub proof fn law_messages_name_the_blob(failure: BlobIntegrityError)
    ensures
        error::store_error_text(StoreError::Integrity(failure)) == "blob integrity error: "@
            + blob::integrity_error_text(failure),
        failure matches BlobIntegrityError::Missing { hash } ==> blob::integrity_error_text(failure)
            == "recorded blob "@ + hash@ + " is missing"@,
        failure matches BlobIntegrityError::MissingMetadata { hash } ==> blob::integrity_error_text(
            failure,
        ) == "blob "@ + hash@ + " has no metadata record"@,
        failure matches BlobIntegrityError::NotAFile { hash } ==> blob::integrity_error_text(failure)
            == "blob "@ + hash@ + " is not a regular file"@,
        failure matches BlobIntegrityError::SizeMismatch { hash, recorded, actual }
            ==> blob::integrity_error_text(failure) == "blob "@ + hash@
            + " size disagrees with metadata: recorded "@ + number::decimal(recorded as nat)
            + ", actual "@ + number::decimal(actual as nat),
        failure matches BlobIntegrityError::HashMismatch { expected, actual }
            ==> blob::integrity_error_text(failure)
            == "blob content hash disagrees with its path: expected "@ + expected@ + ", actual "@
            + actual@,
{
}

} // verus!
