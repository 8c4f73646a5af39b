//! What the rows of a published post hold, and that the post reads back from them.
use vstd::prelude::*;
use crate::storage::classification::FileClassification;
use crate::storage::publication::{
    PostRecord, PublicationFile, PublicationRequest, PublicationSupportAsset,
};
use crate::storage::read;
use crate::storage::read::{PostFileRead, PostRead, RawAsset, RawFile, RawPost, SupportAssetRead};
use crate::text;

verus! {

/// What the row of a post holds of its request, and when it was published.
#[derive(Debug)]
pub struct PostValues {
    pub title: String,
    pub commentary: String,
    pub predecessor_post_id: Option<i64>,
    pub published_at: i64,
    pub git_root: Option<String>,
    pub git_branch: Option<String>,
    pub git_commit: Option<String>,
}

/// What the row of a file holds of its request, its place and its class; and the digest in the
/// row of its blob reference.
#[derive(Debug)]
pub struct FileValues {
    pub position: i64,
    pub filename: String,
    pub caption: Option<String>,
    pub media_type: String,
    pub renderer: String,
    pub hash: String,
}

/// What the row of a support asset holds of its request and its place; and the digest in the row
/// of its blob reference.
#[derive(Debug)]
pub struct AssetValues {
    pub position: i64,
    pub relative_path: String,
    pub hash: String,
}

/// Whether the values are those of a request that was published at this time.
pub open spec fn post_values_are(
    values: PostValues,
    request: PublicationRequest,
    published_at: i64,
) -> bool {
    &&& values.title@ == request.title@
    &&& values.commentary@ == request.commentary@
    &&& values.predecessor_post_id == request.predecessor_post_id
    &&& values.published_at == published_at
    &&& match request.git {
        Some(git) => {
            &&& values.git_root matches Some(root) && root@ == git.root@
            &&& text::optional(values.git_branch) == text::optional(git.branch)
            &&& text::optional(values.git_commit) == text::optional(git.commit)
        },
        None => values.git_root is None && values.git_branch is None && values.git_commit is None,
    }
}

/// Whether the values are those of the file at a place of its request.
pub open spec fn file_values_are(
    values: FileValues,
    file: PublicationFile,
    position: int,
    class: FileClassification,
) -> bool {
    &&& values.position == position
    &&& values.filename@ == file.filename@
    &&& text::optional(values.caption) == text::optional(file.caption)
    &&& values.media_type@ == class.media_type@
    &&& values.renderer@ == read::renderer_text(class.renderer)
    &&& values.hash@ == file.blob.record@.0
}

/// Whether the values are those of the support asset at a place of its file.
pub open spec fn asset_values_are(
    values: AssetValues,
    asset: PublicationSupportAsset,
    position: int,
) -> bool {
    &&& values.position == position
    &&& values.relative_path@ == asset.relative_path@
    &&& values.hash@ == asset.blob.record@.0
}

/// What the row of a post holds.
pub fn post_values(request: &PublicationRequest, published_at: i64) -> (values: PostValues)
    ensures
        post_values_are(values, *request, published_at),
{
    let (git_root, git_branch, git_commit) = match &request.git {
        Some(git) => (
            Some(text::copy_of(git.root.as_str())),
            read::copy_optional(&git.branch),
            read::copy_optional(&git.commit),
        ),
        None => (None, None, None),
    };
    PostValues {
        title: text::copy_of(request.title.as_str()),
        commentary: text::copy_of(request.commentary.as_str()),
        predecessor_post_id: request.predecessor_post_id,
        published_at,
        git_root,
        git_branch,
        git_commit,
    }
}

/// What the row of a file holds; none where the request has no file there, or its place is too
/// large for a row.
pub fn file_values(request: &PublicationRequest, position: usize, class: &FileClassification) -> (
    values: Option<FileValues>)
    ensures
        match values {
            Some(found) => position < request.files@.len() && file_values_are(
                found,
                request.files@[position as int],
                position as int,
                *class,
            ),
            None => position >= request.files@.len() || position > i64::MAX,
        },
{
    if position >= request.files.len() || position as u64 > 0x7fff_ffff_ffff_ffff {
        return None;
    }
    let file = &request.files[position];
    Some(
        FileValues {
            position: position as i64,
            filename: text::copy_of(file.filename.as_str()),
            caption: read::copy_optional(&file.caption),
            media_type: text::copy_of(class.media_type.as_str()),
            renderer: text::copy_of(read::renderer_name(class.renderer)),
            hash: text::copy_of(file.blob.record.hash().as_str()),
        },
    )
}

/// What the row of a support asset holds; none where the file has no asset there, or its place is
/// too large for a row.
pub fn asset_values(file: &PublicationFile, position: usize) -> (values: Option<AssetValues>)
    ensures
        match values {
            Some(found) => position < file.support_assets@.len() && asset_values_are(
                found,
                file.support_assets@[position as int],
                position as int,
            ),
            None => position >= file.support_assets@.len() || position > i64::MAX,
        },
{
    if position >= file.support_assets.len() || position as u64 > 0x7fff_ffff_ffff_ffff {
        return None;
    }
    let asset = &file.support_assets[position];
    Some(
        AssetValues {
            position: position as i64,
            relative_path: text::copy_of(asset.relative_path.as_str()),
            hash: text::copy_of(asset.blob.record.hash().as_str()),
        },
    )
}

/// Whether a row that was read holds the values of a post.
pub open spec fn holds_post(raw: RawPost, values: PostValues, record: PostRecord) -> bool {
    &&& raw.id == record.id
    &&& raw.session_id == record.session_id
    &&& raw.session_public_id@ == record.session_public_id@
    &&& raw.title@ == values.title@
    &&& raw.commentary@ == values.commentary@
    &&& raw.predecessor_post_id == values.predecessor_post_id
    &&& raw.published_at == values.published_at
    &&& text::optional(raw.git_root) == text::optional(values.git_root)
    &&& text::optional(raw.git_branch) == text::optional(values.git_branch)
    &&& text::optional(raw.git_commit) == text::optional(values.git_commit)
}

/// Whether a row that was read holds the values of a support asset, and the recorded size of its
/// blob.
pub open spec fn holds_asset(raw: RawAsset, values: AssetValues, byte_size: u64) -> bool {
    &&& raw.relative_path@ == values.relative_path@
    &&& raw.hash@ == values.hash@
    &&& raw.byte_size == byte_size
}

/// Whether a row that was read holds the values of a file, and the recorded size of its blob.
pub open spec fn holds_file(raw: RawFile, values: FileValues, byte_size: u64) -> bool {
    &&& raw.position == values.position
    &&& raw.filename@ == values.filename@
    &&& text::optional(raw.caption) == text::optional(values.caption)
    &&& raw.media_type@ == values.media_type@
    &&& raw.renderer@ == values.renderer@
    &&& raw.hash@ == values.hash@
    &&& raw.byte_size == byte_size
}

/// Whether a support asset is the one that was requested.
pub open spec fn asset_reads_back(
    read: SupportAssetRead,
    asset: PublicationSupportAsset,
) -> bool {
    &&& read.relative_path@ == asset.relative_path@
    &&& read.blob.hash@ == asset.blob.record@.0
    &&& read.blob.byte_size == asset.blob.record@.1
}

/// Whether a file is the one that was requested at a place, with the class that it was given.
pub open spec fn file_reads_back(
    read: PostFileRead,
    file: PublicationFile,
    position: int,
    class: FileClassification,
) -> bool {
    &&& read.position == position
    &&& read.filename@ == file.filename@
    &&& text::optional(read.caption) == text::optional(file.caption)
    &&& read.media_type@ == class.media_type@
    &&& read.renderer == class.renderer
    &&& read.blob.hash@ == file.blob.record@.0
    &&& read.blob.byte_size == file.blob.record@.1
    &&& read.support_assets@.len() == file.support_assets@.len()
    &&& forall|j: int|
        0 <= j < file.support_assets@.len() ==> asset_reads_back(
            #[trigger] read.support_assets@[j],
            file.support_assets@[j],
        )
}

/// Whether a post is the one that was requested.
pub open spec fn reads_back(
    post: PostRead,
    request: PublicationRequest,
    record: PostRecord,
    classes: Seq<FileClassification>,
) -> bool {
    &&& post.id == record.id
    &&& post.session_id == record.session_id
    &&& post.session_public_id@ == record.session_public_id@
    &&& post.title@ == request.title@
    &&& post.commentary@ == request.commentary@
    &&& post.predecessor_post_id == request.predecessor_post_id
    &&& post.published_at == record.published_at
    &&& read::git_parts(post.git) == read::git_parts(request.git)
    &&& post.files@.len() == request.files@.len()
    &&& forall|i: int|
        0 <= i < request.files@.len() ==> file_reads_back(
            #[trigger] post.files@[i],
            request.files@[i],
            i,
            classes[i],
        )
}

/// What was written for the files of a request: the values of their rows and of the rows of their
/// support assets, in order.
pub open spec fn written_files(
    request: PublicationRequest,
    classes: Seq<FileClassification>,
    files: Seq<FileValues>,
    assets: Seq<Seq<AssetValues>>,
) -> bool {
    &&& files.len() == request.files@.len()
    &&& assets.len() == request.files@.len()
    &&& forall|i: int|
        0 <= i < files.len() ==> file_values_are(
            #[trigger] files[i],
            request.files@[i],
            i,
            classes[i],
        )
    &&& forall|i: int|
        0 <= i < assets.len() ==> (#[trigger] assets[i]).len()
            == request.files@[i].support_assets@.len()
    &&& forall|i: int, j: int|
        0 <= i < assets.len() && 0 <= j < assets[i].len() ==> asset_values_are(
            #[trigger] assets[i][j],
            request.files@[i].support_assets@[j],
            j,
        )
}

/// Whether the rows that were read, in the order of their places, hold what was written, each with
/// the size of its blob.
pub open spec fn rows_hold(
    raw: Seq<RawFile>,
    request: PublicationRequest,
    files: Seq<FileValues>,
    assets: Seq<Seq<AssetValues>>,
) -> bool {
    &&& raw.len() == files.len()
    &&& forall|i: int|
        0 <= i < raw.len() ==> {
            &&& holds_file(#[trigger] raw[i], files[i], request.files@[i].blob.record@.1)
            &&& raw[i].support_assets@.len() == assets[i].len()
        }
    &&& forall|i: int, j: int|
        0 <= i < raw.len() && 0 <= j < assets[i].len() ==> holds_asset(
            #[trigger] raw[i].support_assets@[j],
            assets[i][j],
            request.files@[i].support_assets@[j].blob.record@.1,
        )
}

proof fn lemma_no_fault(raw: Seq<RawFile>, start: int)
    requires
        0 <= start,
        forall|i: int| 0 <= i < raw.len() ==> read::file_fault(#[trigger] raw[i]) is None,
    ensures
        read::files_fault(raw, start) is None,
    decreases raw.len() - start,
{
    if start < raw.len() {
        lemma_no_fault(raw, start + 1);
    }
}

/// Whether a row of a post holds what was requested.
pub open spec fn is_row_of(raw: RawPost, request: PublicationRequest, record: PostRecord) -> bool {
    &&& raw.id == record.id
    &&& raw.session_id == record.session_id
    &&& raw.session_public_id@ == record.session_public_id@
    &&& raw.title@ == request.title@
    &&& raw.commentary@ == request.commentary@
    &&& raw.predecessor_post_id == request.predecessor_post_id
    &&& raw.published_at == record.published_at
    &&& match request.git {
        Some(git) => {
            &&& raw.git_root matches Some(root) && root@ == git.root@
            &&& text::optional(raw.git_branch) == text::optional(git.branch)
            &&& text::optional(raw.git_commit) == text::optional(git.commit)
        },
        None => raw.git_root is None && raw.git_branch is None && raw.git_commit is None,
    }
}

/// Whether a row of a support asset holds what was requested.
pub open spec fn is_asset_row_of(raw: RawAsset, asset: PublicationSupportAsset) -> bool {
    &&& raw.relative_path@ == asset.relative_path@
    &&& raw.hash@ == asset.blob.record@.0
    &&& raw.byte_size == asset.blob.record@.1
}

/// Whether a row of a file, with the rows of its support assets, holds what was requested at the
/// place.
pub open spec fn is_file_row_of(
    raw: RawFile,
    file: PublicationFile,
    position: int,
    class: FileClassification,
) -> bool {
    &&& raw.position == position
    &&& raw.filename@ == file.filename@
    &&& text::optional(raw.caption) == text::optional(file.caption)
    &&& raw.media_type@ == class.media_type@
    &&& raw.renderer@ == read::renderer_text(class.renderer)
    &&& raw.hash@ == file.blob.record@.0
    &&& raw.byte_size == file.blob.record@.1
    &&& raw.support_assets@.len() == file.support_assets@.len()
    &&& forall|j: int|
        0 <= j < file.support_assets@.len() ==> is_asset_row_of(
            #[trigger] raw.support_assets@[j],
            file.support_assets@[j],
        )
}

/// Whether the rows of the files hold what was requested, place by place.
pub open spec fn are_file_rows_of(
    raw: Seq<RawFile>,
    request: PublicationRequest,
    classes: Seq<FileClassification>,
) -> bool {
    &&& raw.len() == request.files@.len()
    &&& forall|i: int|
        0 <= i < raw.len() ==> is_file_row_of(#[trigger] raw[i], request.files@[i], i, classes[i])
}

/// Whether the provenance of the request, if any, is valid.
pub open spec fn git_is_valid(request: PublicationRequest) -> bool {
    request.git matches Some(git) ==> read::is_valid_provenance(
        git.root@,
        text::optional(git.branch),
        text::optional(git.commit),
    )
}

/// From rows that hold what was requested a post is assembled, and it is the one that was
/// requested.
pub proof fn law_requested_rows_read_back(
    request: PublicationRequest,
    record: PostRecord,
    classes: Seq<FileClassification>,
    raw: RawPost,
    raw_files: Seq<RawFile>,
)
    requires
        is_row_of(raw, request, record),
        are_file_rows_of(raw_files, request, classes),
        request.files@.len() <= u32::MAX,
        git_is_valid(request),
    ensures
        read::git_fits(raw),
        read::files_fault(raw_files, 0) is None,
        forall|post: PostRead|
            #![trigger reads_back(post, request, record, classes)]
            read::post_is(post, raw, raw_files) ==> reads_back(post, request, record, classes),
{
    assert forall|i: int| 0 <= i < raw_files.len() implies read::file_fault(
        #[trigger] raw_files[i],
    ) is None by {
        read::law_renderer_reads_back(classes[i].renderer);
        assert(is_file_row_of(raw_files[i], request.files@[i], i, classes[i]));
        assert forall|j: int| 0 <= j < raw_files[i].support_assets@.len() implies (
        #[trigger] raw_files[i].support_assets@[j]).byte_size >= 0 by {
            assert(is_asset_row_of(
                raw_files[i].support_assets@[j],
                request.files@[i].support_assets@[j],
            ));
        }
    }
    lemma_no_fault(raw_files, 0);
    assert forall|post: PostRead|
        #![trigger reads_back(post, request, record, classes)]
        read::post_is(post, raw, raw_files) implies reads_back(post, request, record, classes) by {
        assert forall|i: int| 0 <= i < request.files@.len() implies file_reads_back(
            #[trigger] post.files@[i],
            request.files@[i],
            i,
            classes[i],
        ) by {
            read::law_renderer_reads_back(classes[i].renderer);
            assert(is_file_row_of(raw_files[i], request.files@[i], i, classes[i]));
            assert(read::file_is(post.files@[i], raw_files[i]));
            assert forall|j: int|
                0 <= j < request.files@[i].support_assets@.len() implies asset_reads_back(
                #[trigger] post.files@[i].support_assets@[j],
                request.files@[i].support_assets@[j],
            ) by {
                assert(is_asset_row_of(
                    raw_files[i].support_assets@[j],
                    request.files@[i].support_assets@[j],
                ));
                assert(read::asset_is(
                    post.files@[i].support_assets@[j],
                    raw_files[i].support_assets@[j],
                ));
            }
        }
    }
}

/// A published post reads back as it was requested: from rows that hold what was written for it,
/// a post is assembled, and it has the title, the commentary, the predecessor, the time and the
/// provenance of the request, and the request's files, each at its place.
pub proof fn law_published_posts_read_back(
    request: PublicationRequest,
    record: PostRecord,
    classes: Seq<FileClassification>,
    values: PostValues,
    files: Seq<FileValues>,
    assets: Seq<Seq<AssetValues>>,
    raw: RawPost,
    raw_files: Seq<RawFile>,
)
    requires
        post_values_are(values, request, record.published_at),
        written_files(request, classes, files, assets),
        holds_post(raw, values, record),
        rows_hold(raw_files, request, files, assets),
        request.files@.len() <= u32::MAX,
        git_is_valid(request),
    ensures
        read::git_fits(raw),
        read::files_fault(raw_files, 0) is None,
        forall|post: PostRead|
            #![trigger reads_back(post, request, record, classes)]
            read::post_is(post, raw, raw_files) ==> reads_back(post, request, record, classes),
{
    assert forall|i: int| 0 <= i < raw_files.len() implies is_file_row_of(
        #[trigger] raw_files[i],
        request.files@[i],
        i,
        classes[i],
    ) by {
        assert(file_values_are(files[i], request.files@[i], i, classes[i]));
        assert(holds_file(raw_files[i], files[i], request.files@[i].blob.record@.1));
        assert(assets[i].len() == request.files@[i].support_assets@.len());
        assert forall|j: int|
            0 <= j < request.files@[i].support_assets@.len() implies is_asset_row_of(
            #[trigger] raw_files[i].support_assets@[j],
            request.files@[i].support_assets@[j],
        ) by {
            assert(asset_values_are(assets[i][j], request.files@[i].support_assets@[j], j));
            assert(holds_asset(
                raw_files[i].support_assets@[j],
                assets[i][j],
                request.files@[i].support_assets@[j].blob.record@.1,
            ));
        }
    }
    law_requested_rows_read_back(request, record, classes, raw, raw_files);
}

} // verus!
