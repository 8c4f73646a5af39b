//! A publication as it arrives: its manifest, its parts, and the request they make.
use vstd::prelude::*;
use vstd::seq_lib::*;
use vstd::utf8::*;
use crate::api::error;
use crate::api::error::{ApiError, ErrorModel};
use crate::details;
use crate::details::ValueModel;
use crate::storage::publication::{
    PublicationFile, PublicationRequest, PublicationSupportAsset, StagedPublicationBlob,
};
use crate::storage::read;
use crate::storage::read::GitProvenance;
use crate::text;

verus! {

/// The largest manifest, in bytes.
pub const MAX_MANIFEST_BYTES: usize = 65_536;

/// The largest number of byte parts that a manifest may declare.
pub const MAX_DECLARED_PARTS: usize = 256;

#[derive(Debug)]
pub struct ResolveSessionRequest {
    pub integration_namespace: String,
    pub external_key: String,
    pub project_label: String,
    pub working_directory: String,
}

#[derive(Debug)]
pub struct PublicationManifest {
    pub integration_namespace: String,
    pub external_key: String,
    pub project_label: String,
    pub working_directory: String,
    pub title: String,
    pub commentary: String,
    pub predecessor_post_id: Option<i64>,
    pub git: Option<GitProvenance>,
    pub files: Vec<ManifestFile>,
}

#[derive(Debug)]
pub struct ManifestFile {
    pub part: String,
    pub filename: String,
    pub caption: Option<String>,
    pub media_type: Option<String>,
    pub support_assets: Vec<ManifestSupportAsset>,
}

#[derive(Debug)]
pub struct ManifestSupportAsset {
    pub part: String,
    pub relative_path: String,
}

// ---- required fields ----

/// The answer to a required field that is blank.
pub open spec fn blank_field(field: Seq<char>) -> ErrorModel {
    error::with(
        422,
        "validation_failed"@,
        "A required field is blank"@,
        seq![("field"@, ValueModel::Text(field))],
    )
}

/// Checks that a required field is not blank.
pub fn validate_nonblank(field: &str, value: &str) -> (result: Result<(), ApiError>)
    ensures
        match result {
            Ok(_) => !text::is_blank(value@),
            Err(answer) => text::is_blank(value@) && answer@ == blank_field(field@),
        },
{
    if text::blank(value) {
        Err(
            ApiError::new(
                422,
                "validation_failed",
                "A required field is blank",
                details::one(details::text_detail("field", field)),
            ),
        )
    } else {
        Ok(())
    }
}

/// The first of the fields that is blank.
pub open spec fn identity_fault(
    integration_namespace: Seq<char>,
    external_key: Seq<char>,
    project_label: Seq<char>,
    working_directory: Seq<char>,
) -> Option<ErrorModel> {
    if text::is_blank(integration_namespace) {
        Some(blank_field("integration_namespace"@))
    } else if text::is_blank(external_key) {
        Some(blank_field("external_key"@))
    } else if text::is_blank(project_label) {
        Some(blank_field("project_label"@))
    } else if text::is_blank(working_directory) {
        Some(blank_field("working_directory"@))
    } else {
        None
    }
}

fn validate_identity(
    integration_namespace: &str,
    external_key: &str,
    project_label: &str,
    working_directory: &str,
) -> (result: Result<(), ApiError>)
    ensures
        match result {
            Ok(_) => identity_fault(
                integration_namespace@,
                external_key@,
                project_label@,
                working_directory@,
            ) is None,
            Err(answer) => identity_fault(
                integration_namespace@,
                external_key@,
                project_label@,
                working_directory@,
            ) == Some(answer@),
        },
{
    match validate_nonblank("integration_namespace", integration_namespace) {
        Ok(_) => {},
        Err(answer) => {
            return Err(answer);
        },
    }
    match validate_nonblank("external_key", external_key) {
        Ok(_) => {},
        Err(answer) => {
            return Err(answer);
        },
    }
    match validate_nonblank("project_label", project_label) {
        Ok(_) => {},
        Err(answer) => {
            return Err(answer);
        },
    }
    validate_nonblank("working_directory", working_directory)
}

/// Checks a request for a session.
pub fn validate_resolve_session(request: &ResolveSessionRequest) -> (result: Result<(), ApiError>)
    ensures
        match result {
            Ok(_) => identity_fault(
                request.integration_namespace@,
                request.external_key@,
                request.project_label@,
                request.working_directory@,
            ) is None,
            Err(answer) => identity_fault(
                request.integration_namespace@,
                request.external_key@,
                request.project_label@,
                request.working_directory@,
            ) == Some(answer@),
        },
{
    validate_identity(
        request.integration_namespace.as_str(),
        request.external_key.as_str(),
        request.project_label.as_str(),
        request.working_directory.as_str(),
    )
}

// ---- declared parts ----

pub open spec fn unnamed_part() -> ErrorModel {
    error::plain(422, "invalid_part_name"@, "Declared part names must be nonempty"@)
}

pub open spec fn repeated_part() -> ErrorModel {
    error::plain(422, "duplicate_part"@, "Declared part names must be unique"@)
}

pub open spec fn repeated_path() -> ErrorModel {
    error::plain(
        422,
        "duplicate_support_path"@,
        "Support paths must be unique within a visible file"@,
    )
}

/// The fault of a part name after those that were seen.
pub open spec fn name_fault(name: Seq<char>, seen: Seq<Seq<char>>) -> Option<ErrorModel> {
    if name.len() == 0 {
        Some(unnamed_part())
    } else if seen.contains(name) {
        Some(repeated_part())
    } else {
        None
    }
}

/// Whether the asset's path is that of an earlier asset.
pub open spec fn repeats_path(assets: Seq<ManifestSupportAsset>, j: int) -> bool {
    exists|k: int|
        0 <= k < j && (#[trigger] assets[k]).relative_path@ == assets[j].relative_path@
}

/// The part names seen after the assets from `j` on, or the first fault among them.
pub open spec fn asset_parts(
    assets: Seq<ManifestSupportAsset>,
    seen: Seq<Seq<char>>,
    j: int,
) -> Result<Seq<Seq<char>>, ErrorModel>
    decreases assets.len() - j,
{
    if j < 0 || j >= assets.len() {
        Ok(seen)
    } else if name_fault(assets[j].part@, seen) is Some {
        Err(name_fault(assets[j].part@, seen)->0)
    } else if repeats_path(assets, j) {
        Err(repeated_path())
    } else {
        asset_parts(assets, seen.push(assets[j].part@), j + 1)
    }
}

/// The part names seen after the files from `i` on, or the first fault among them.
pub open spec fn file_parts(
    files: Seq<ManifestFile>,
    seen: Seq<Seq<char>>,
    i: int,
) -> Result<Seq<Seq<char>>, ErrorModel>
    decreases files.len() - i,
{
    if i < 0 || i >= files.len() {
        Ok(seen)
    } else if name_fault(files[i].part@, seen) is Some {
        Err(name_fault(files[i].part@, seen)->0)
    } else {
        match asset_parts(files[i].support_assets@, seen.push(files[i].part@), 0) {
            Ok(now) => file_parts(files, now, i + 1),
            Err(fault) => Err(fault),
        }
    }
}

/// The number of parts that the files declare.
pub open spec fn part_count(files: Seq<ManifestFile>) -> nat
    decreases files.len(),
{
    if files.len() == 0 {
        0
    } else {
        part_count(files.drop_last()) + 1 + files.last().support_assets@.len()
    }
}

/// The part names that a manifest declares, in order, or its first fault.
pub open spec fn declared_parts(manifest: PublicationManifest) -> Result<
    Seq<Seq<char>>,
    ErrorModel,
> {
    let identity = identity_fault(
        manifest.integration_namespace@,
        manifest.external_key@,
        manifest.project_label@,
        manifest.working_directory@,
    );
    if identity is Some {
        Err(identity->0)
    } else if text::is_blank(manifest.title@) {
        Err(blank_field("title"@))
    } else if text::is_blank(manifest.commentary@) {
        Err(blank_field("commentary"@))
    } else if manifest.git matches Some(git) && !read::is_valid_provenance(
        git.root@,
        text::optional(git.branch),
        text::optional(git.commit),
    ) {
        Err(error::plain(422, "validation_failed"@, "Git provenance is malformed"@))
    } else if manifest.files@.len() == 0 {
        Err(
            error::plain(
                422,
                "validation_failed"@,
                "Publication requires at least one visible file"@,
            ),
        )
    } else if part_count(manifest.files@) > MAX_DECLARED_PARTS {
        Err(
            error::plain(
                422,
                "manifest_complexity_exceeded"@,
                "Publication declares more than 256 byte parts"@,
            ),
        )
    } else {
        file_parts(manifest.files@, Seq::empty(), 0)
    }
}

proof fn lemma_count_grows(files: Seq<ManifestFile>, i: int)
    requires
        0 <= i <= files.len(),
    ensures
        part_count(files.take(i)) <= part_count(files),
    decreases files.len(),
{
    if i < files.len() {
        lemma_count_grows(files.drop_last(), i);
        assert(files.drop_last().take(i) =~= files.take(i));
    } else {
        assert(files.take(i) =~= files);
    }
}

fn too_many_parts(files: &[ManifestFile]) -> (yes: bool)
    ensures
        yes == (part_count(files@) > MAX_DECLARED_PARTS),
{
    let mut count: usize = 0;
    let mut i: usize = 0;
    while i < files.len()
        invariant
            i <= files.len(),
            count <= MAX_DECLARED_PARTS,
            count == part_count(files@.take(i as int)),
        decreases files.len() - i,
    {
        proof {
            assert(files@.take(i + 1).drop_last() =~= files@.take(i as int));
            assert(files@.take(i + 1).last() == files@[i as int]);
            lemma_count_grows(files@, i + 1);
        }
        let assets: usize = files[i].support_assets.len();
        if assets >= MAX_DECLARED_PARTS || count + 1 + assets > MAX_DECLARED_PARTS {
            return true;
        }
        count = count + 1 + assets;
        i += 1;
    }
    assert(files@.take(files@.len() as int) =~= files@);
    false
}

fn check_name(name: &str, seen: &[String]) -> (result: Result<(), ApiError>)
    ensures
        match result {
            Ok(_) => name_fault(name@, text::texts(seen@)) is None,
            Err(answer) => name_fault(name@, text::texts(seen@)) == Some(answer@),
        },
{
    if text::chars_of(name).len() == 0 {
        Err(ApiError::multipart(422, "invalid_part_name", "Declared part names must be nonempty"))
    } else if text::contains_text(seen, name) {
        Err(ApiError::multipart(422, "duplicate_part", "Declared part names must be unique"))
    } else {
        Ok(())
    }
}

fn push_text(list: &mut Vec<String>, value: &str)
    ensures
        text::texts(final(list)@) == text::texts(old(list)@).push(value@),
{
    let ghost before = text::texts(list@);
    list.push(text::copy_of(value));
    assert(text::texts(list@) =~= before.push(value@));
}

fn check_assets(assets: &[ManifestSupportAsset], seen: &mut Vec<String>) -> (result: Result<
    (),
    ApiError,
>)
    ensures
        match result {
            Ok(_) => asset_parts(assets@, text::texts(old(seen)@), 0) == Ok::<_, ErrorModel>(
                text::texts(final(seen)@),
            ),
            Err(answer) => asset_parts(assets@, text::texts(old(seen)@), 0) == Err::<
                Seq<Seq<char>>,
                ErrorModel,
            >(answer@),
        },
{
    let ghost start = text::texts(seen@);
    let mut j: usize = 0;
    while j < assets.len()
        invariant
            j <= assets.len(),
            start == text::texts(old(seen)@),
            asset_parts(assets@, start, 0) == asset_parts(
                assets@,
                text::texts(seen@),
                j as int,
            ),
        decreases assets.len() - j,
    {
        match check_name(assets[j].part.as_str(), seen) {
            Ok(_) => {},
            Err(answer) => {
                return Err(answer);
            },
        }
        let mut k: usize = 0;
        while k < j
            invariant
                k <= j < assets.len(),
                start == text::texts(old(seen)@),
                asset_parts(assets@, start, 0) == asset_parts(
                    assets@,
                    text::texts(seen@),
                    j as int,
                ),
                name_fault(assets@[j as int].part@, text::texts(seen@)) is None,
                forall|m: int|
                    0 <= m < k ==> (#[trigger] assets@[m]).relative_path@
                        != assets@[j as int].relative_path@,
            decreases j - k,
        {
            if text::same_text(assets[k].relative_path.as_str(), assets[j].relative_path.as_str()) {
                assert(repeats_path(assets@, j as int)) by {
                    assert(assets@[k as int].relative_path@ == assets@[j as int].relative_path@);
                }
                return Err(
                    ApiError::multipart(
                        422,
                        "duplicate_support_path",
                        "Support paths must be unique within a visible file",
                    ),
                );
            }
            k += 1;
        }
        assert(!repeats_path(assets@, j as int));
        push_text(seen, assets[j].part.as_str());
        j += 1;
    }
    Ok(())
}

fn check_files(files: &[ManifestFile]) -> (result: Result<Vec<String>, ApiError>)
    ensures
        match result {
            Ok(names) => file_parts(files@, Seq::empty(), 0) == Ok::<_, ErrorModel>(
                text::texts(names@),
            ),
            Err(answer) => file_parts(files@, Seq::empty(), 0) == Err::<
                Seq<Seq<char>>,
                ErrorModel,
            >(answer@),
        },
{
    let mut seen: Vec<String> = Vec::new();
    let mut i: usize = 0;
    assert(text::texts(seen@) =~= Seq::<Seq<char>>::empty());
    while i < files.len()
        invariant
            i <= files.len(),
            file_parts(files@, Seq::empty(), 0) == file_parts(
                files@,
                text::texts(seen@),
                i as int,
            ),
        decreases files.len() - i,
    {
        match check_name(files[i].part.as_str(), &seen) {
            Ok(_) => {},
            Err(answer) => {
                return Err(answer);
            },
        }
        push_text(&mut seen, files[i].part.as_str());
        match check_assets(&files[i].support_assets, &mut seen) {
            Ok(_) => {},
            Err(answer) => {
                return Err(answer);
            },
        }
        i += 1;
    }
    Ok(seen)
}

/// Checks a manifest, and lists the part names that it declares, in order. The first fault is
/// returned: a blank field, malformed provenance, no file, too many parts, a part name that is
/// empty or repeated, or a support path that is repeated within a file.
pub fn validate_manifest(manifest: &PublicationManifest) -> (result: Result<Vec<String>, ApiError>)
    ensures
        match result {
            Ok(names) => declared_parts(*manifest) == Ok::<_, ErrorModel>(text::texts(names@)),
            Err(answer) => declared_parts(*manifest) == Err::<Seq<Seq<char>>, ErrorModel>(answer@),
        },
{
    match validate_identity(
        manifest.integration_namespace.as_str(),
        manifest.external_key.as_str(),
        manifest.project_label.as_str(),
        manifest.working_directory.as_str(),
    ) {
        Ok(_) => {},
        Err(answer) => {
            return Err(answer);
        },
    }
    match validate_nonblank("title", manifest.title.as_str()) {
        Ok(_) => {},
        Err(answer) => {
            return Err(answer);
        },
    }
    match validate_nonblank("commentary", manifest.commentary.as_str()) {
        Ok(_) => {},
        Err(answer) => {
            return Err(answer);
        },
    }
    match &manifest.git {
        Some(git) => {
            if !git.is_valid() {
                return Err(
                    ApiError::multipart(422, "validation_failed", "Git provenance is malformed"),
                );
            }
        },
        None => {},
    }
    if manifest.files.len() == 0 {
        return Err(
            ApiError::multipart(
                422,
                "validation_failed",
                "Publication requires at least one visible file",
            ),
        );
    }
    if too_many_parts(&manifest.files) {
        return Err(
            ApiError::multipart(
                422,
                "manifest_complexity_exceeded",
                "Publication declares more than 256 byte parts",
            ),
        );
    }
    check_files(&manifest.files)
}

proof fn lemma_asset_parts(assets: Seq<ManifestSupportAsset>, seen: Seq<Seq<char>>, j: int)
    requires
        seen.no_duplicates(),
        0 <= j <= assets.len(),
        asset_parts(assets, seen, j) is Ok,
    ensures
        ({
            let now = asset_parts(assets, seen, j)->Ok_0;
            &&& now.no_duplicates()
            &&& now.len() == seen.len() + assets.len() - j
            &&& forall|k: int| 0 <= k < seen.len() ==> now[k] == seen[k]
            &&& forall|k: int| j <= k < assets.len() ==> now.contains(#[trigger] assets[k].part@)
        }),
    decreases assets.len() - j,
{
    if j < assets.len() {
        let next = seen.push(assets[j].part@);
        assert(next.no_duplicates()) by {
            assert forall|a: int, b: int| 0 <= a < next.len() && 0 <= b < next.len() && a
                != b implies next[a] != next[b] by {
                if a == seen.len() {
                    assert(seen[b] == next[b]);
                } else if b == seen.len() {
                    assert(seen[a] == next[a]);
                }
            }
        }
        lemma_asset_parts(assets, next, j + 1);
        let now = asset_parts(assets, seen, j)->Ok_0;
        assert forall|k: int| 0 <= k < seen.len() implies now[k] == seen[k] by {
            assert(next[k] == seen[k]);
        }
        assert forall|k: int| j <= k < assets.len() implies now.contains(
            #[trigger] assets[k].part@,
        ) by {
            if k == j {
                assert(next[seen.len() as int] == assets[j].part@);
                assert(now[seen.len() as int] == assets[j].part@);
            }
        }
    }
}

/// Whether a list of names holds the names of all parts of the files.
pub open spec fn names_all(files: Seq<ManifestFile>, names: Seq<Seq<char>>) -> bool {
    forall|i: int|
        0 <= i < files.len() ==> {
            &&& names.contains((#[trigger] files[i]).part@)
            &&& forall|k: int|
                0 <= k < files[i].support_assets@.len() ==> names.contains(
                    (#[trigger] files[i].support_assets@[k]).part@,
                )
        }
}

proof fn lemma_file_parts(files: Seq<ManifestFile>, seen: Seq<Seq<char>>, i: int)
    requires
        seen.no_duplicates(),
        0 <= i <= files.len(),
        file_parts(files, seen, i) is Ok,
        seen.len() == part_count(files.take(i)),
        names_all(files.take(i), seen),
    ensures
        ({
            let now = file_parts(files, seen, i)->Ok_0;
            &&& now.no_duplicates()
            &&& now.len() == part_count(files)
            &&& names_all(files, now)
        }),
    decreases files.len() - i,
{
    if i == files.len() {
        assert(files.take(i) =~= files);
    } else {
        let file = files[i];
        let next = seen.push(file.part@);
        assert(next.no_duplicates()) by {
            assert forall|a: int, b: int| 0 <= a < next.len() && 0 <= b < next.len() && a
                != b implies next[a] != next[b] by {
                if a == seen.len() {
                    assert(seen[b] == next[b]);
                } else if b == seen.len() {
                    assert(seen[a] == next[a]);
                }
            }
        }
        lemma_asset_parts(file.support_assets@, next, 0);
        let now = asset_parts(file.support_assets@, next, 0)->Ok_0;
        assert(files.take(i + 1).drop_last() =~= files.take(i));
        assert(files.take(i + 1).last() == file);
        assert(names_all(files.take(i + 1), now)) by {
            let some = files.take(i + 1);
            assert forall|a: int| 0 <= a < some.len() implies {
                &&& now.contains((#[trigger] some[a]).part@)
                &&& forall|k: int|
                    0 <= k < some[a].support_assets@.len() ==> now.contains(
                        (#[trigger] some[a].support_assets@[k]).part@,
                    )
            } by {
                if a < i {
                    assert(files.take(i)[a] == some[a]);
                    lemma_prefix_contains(seen, now, some[a].part@);
                    assert forall|k: int|
                        0 <= k < some[a].support_assets@.len() implies now.contains(
                        (#[trigger] some[a].support_assets@[k]).part@,
                    ) by {
                        lemma_prefix_contains(seen, now, some[a].support_assets@[k].part@);
                    }
                } else {
                    assert(next[seen.len() as int] == file.part@);
                    assert(now[seen.len() as int] == file.part@);
                }
            }
        }
        lemma_file_parts(files, now, i + 1);
    }
}

proof fn lemma_prefix_contains(shorter: Seq<Seq<char>>, longer: Seq<Seq<char>>, name: Seq<char>)
    requires
        shorter.len() <= longer.len(),
        forall|k: int| 0 <= k < shorter.len() ==> longer[k] == shorter[k],
        shorter.contains(name),
    ensures
        longer.contains(name),
{
    let k = choose|k: int| 0 <= k < shorter.len() && shorter[k] == name;
    assert(longer[k] == name);
}

/// A manifest that is accepted declares between one and 256 parts, each under a name of its own,
/// and the list of names has them all.
pub proof fn law_declared_parts_are_unique(manifest: PublicationManifest)
    requires
        declared_parts(manifest) is Ok,
    ensures
        ({
            let names = declared_parts(manifest)->Ok_0;
            &&& names.no_duplicates()
            &&& 1 <= names.len() <= MAX_DECLARED_PARTS
            &&& names.len() == part_count(manifest.files@)
            &&& names_all(manifest.files@, names)
        }),
{
    assert(manifest.files@.take(0) =~= Seq::<ManifestFile>::empty());
    lemma_file_parts(manifest.files@, Seq::empty(), 0);
}

// ---- the manifest part ----

/// Checks the first part of a publication: it must be there and be named `manifest`.
pub fn check_first_part(is_there: bool, name: Option<&str>) -> (result: Result<(), ApiError>)
    ensures
        match result {
            Ok(_) => is_there && (name matches Some(value) && value@ == "manifest"@),
            Err(answer) => !(is_there && (name matches Some(value) && value@ == "manifest"@))
                && answer@ == error::plain(
                400,
                "manifest_must_be_first"@,
                "The first multipart part must be manifest"@,
            ),
        },
{
    let named = match name {
        Some(value) => text::same_text(value, "manifest"),
        None => false,
    };
    if is_there && named {
        Ok(())
    } else {
        Err(
            ApiError::multipart(
                400,
                "manifest_must_be_first",
                "The first multipart part must be manifest",
            ),
        )
    }
}

/// Takes in the next piece of the manifest, unless it would then be longer than 64 KiB.
pub fn extend_manifest(manifest: &mut Vec<u8>, piece: &[u8]) -> (result: Result<(), ApiError>)
    ensures
        match result {
            Ok(_) => old(manifest)@.len() + piece@.len() <= MAX_MANIFEST_BYTES && final(manifest)@ == old(manifest)@ + piece@,
            Err(answer) => {
                &&& old(manifest)@.len() + piece@.len() > MAX_MANIFEST_BYTES
                &&& final(manifest)@ == old(manifest)@
                &&& answer@ == error::plain(
                    413,
                    "manifest_too_large"@,
                    "Publication manifest exceeds 64 KiB"@,
                )
            },
        },
{
    if manifest.len() > MAX_MANIFEST_BYTES || piece.len() > MAX_MANIFEST_BYTES - manifest.len() {
        return Err(
            ApiError::multipart(413, "manifest_too_large", "Publication manifest exceeds 64 KiB"),
        );
    }
    let ghost start = manifest@;
    let mut i: usize = 0;
    while i < piece.len()
        invariant
            i <= piece.len(),
            manifest@ == start + piece@.take(i as int),
        decreases piece.len() - i,
    {
        manifest.push(piece[i]);
        assert(manifest@ =~= start + piece@.take(i + 1));
        i += 1;
    }
    assert(piece@.take(piece@.len() as int) =~= piece@);
    Ok(())
}

/// The text of the manifest.
pub fn manifest_text(manifest: &[u8]) -> (result: Result<String, ApiError>)
    ensures
        match result {
            Ok(content) => valid_utf8(manifest@) && content@ == decode_utf8(manifest@),
            Err(answer) => !valid_utf8(manifest@) && answer@ == error::plain(
                400,
                "manifest_not_utf8"@,
                "Publication manifest must be UTF-8"@,
            ),
        },
{
    match text::utf8_text(manifest) {
        Some(content) => Ok(text::copy_of(content)),
        None => Err(
            ApiError::multipart(400, "manifest_not_utf8", "Publication manifest must be UTF-8"),
        ),
    }
}

/// The answer to a manifest that is no JSON object of the known fields.
pub fn malformed_manifest() -> (answer: ApiError)
    ensures
        answer@ == error::plain(
            400,
            "malformed_manifest"@,
            "Publication manifest JSON is malformed or contains unknown fields"@,
        ),
{
    ApiError::multipart(
        400,
        "malformed_manifest",
        "Publication manifest JSON is malformed or contains unknown fields",
    )
}

/// The answer to a body that is no multipart body.
pub fn malformed_multipart() -> (answer: ApiError)
    ensures
        answer@ == error::plain(400, "malformed_multipart"@, "Multipart request is malformed"@),
{
    ApiError::multipart(400, "malformed_multipart", "Multipart request is malformed")
}

/// The answer to a body that broke off.
pub fn interrupted_multipart() -> (answer: ApiError)
    ensures
        answer@ == error::plain(
            400,
            "multipart_stream_error"@,
            "Multipart request stream was interrupted"@,
        ),
{
    ApiError::multipart(
        400,
        "multipart_stream_error",
        "Multipart request stream was interrupted",
    )
}

// ---- the byte parts ----

/// The answer to a part with this name, where it is not accepted.
pub open spec fn fault_of_part(
    declared: Seq<Seq<char>>,
    staged: Seq<Seq<char>>,
    name: Option<Seq<char>>,
) -> Option<ErrorModel> {
    match name {
        None => Some(
            error::plain(
                422,
                "invalid_part_name"@,
                "Every artifact part must have a nonempty name"@,
            ),
        ),
        Some(value) => if value.len() == 0 {
            Some(
                error::plain(
                    422,
                    "invalid_part_name"@,
                    "Every artifact part must have a nonempty name"@,
                ),
            )
        } else if value == "manifest"@ {
            Some(
                error::plain(
                    422,
                    "duplicate_manifest"@,
                    "The manifest part may appear only once"@,
                ),
            )
        } else if !declared.contains(value) {
            Some(
                error::plain(
                    422,
                    "unexpected_part"@,
                    "Multipart request contains an undeclared part"@,
                ),
            )
        } else if staged.contains(value) {
            Some(
                error::plain(
                    422,
                    "duplicate_part"@,
                    "A declared artifact part appeared more than once"@,
                ),
            )
        } else {
            None
        },
    }
}

/// The byte parts of a publication: the names that were declared, and those that arrived.
#[derive(Debug)]
pub struct PartLedger {
    declared: Vec<String>,
    staged: Vec<String>,
}

impl PartLedger {
    /// The names that were declared.
    pub closed spec fn declared(self) -> Seq<Seq<char>> {
        text::texts(self.declared@)
    }

    /// The names of the parts that arrived, in order.
    pub closed spec fn staged(self) -> Seq<Seq<char>> {
        text::texts(self.staged@)
    }

    /// Whether every part that arrived was declared, and arrived once.
    pub open spec fn wf(self) -> bool {
        &&& self.declared().no_duplicates()
        &&& self.staged().no_duplicates()
        &&& forall|i: int|
            0 <= i < self.staged().len() ==> self.declared().contains(#[trigger] self.staged()[i])
    }

    /// The ledger of the names that an accepted manifest declares: none has arrived.
    pub fn open(declared: Vec<String>) -> (ledger: Self)
        requires
            text::texts(declared@).no_duplicates(),
        ensures
            ledger.wf(),
            ledger.declared() == text::texts(declared@),
            ledger.staged() == Seq::<Seq<char>>::empty(),
    {
        let ledger = PartLedger { declared, staged: Vec::new() };
        assert(ledger.staged() =~= Seq::<Seq<char>>::empty());
        ledger
    }

    /// The answer to a part with this name, where it is not accepted.
    pub open spec fn part_fault(self, name: Option<Seq<char>>) -> Option<ErrorModel> {
        fault_of_part(self.declared(), self.staged(), name)
    }

    /// Whether a part with this name is accepted.
    pub fn check_part(&self, name: Option<&str>) -> (result: Result<(), ApiError>)
        ensures
            match result {
                Ok(_) => name is Some && self.part_fault(Some(name->0@)) is None,
                Err(answer) => self.part_fault(
                    match name {
                        Some(value) => Some(value@),
                        None => None,
                    },
                ) == Some(answer@),
            },
    {
        let value = match name {
            Some(value) => value,
            None => {
                return Err(
                    ApiError::multipart(
                        422,
                        "invalid_part_name",
                        "Every artifact part must have a nonempty name",
                    ),
                );
            },
        };
        if text::chars_of(value).len() == 0 {
            return Err(
                ApiError::multipart(
                    422,
                    "invalid_part_name",
                    "Every artifact part must have a nonempty name",
                ),
            );
        }
        if text::same_text(value, "manifest") {
            return Err(
                ApiError::multipart(
                    422,
                    "duplicate_manifest",
                    "The manifest part may appear only once",
                ),
            );
        }
        if !text::contains_text(&self.declared, value) {
            return Err(
                ApiError::multipart(
                    422,
                    "unexpected_part",
                    "Multipart request contains an undeclared part",
                ),
            );
        }
        if text::contains_text(&self.staged, value) {
            return Err(
                ApiError::multipart(
                    422,
                    "duplicate_part",
                    "A declared artifact part appeared more than once",
                ),
            );
        }
        Ok(())
    }

    /// Notes that a part that was accepted has been staged.
    pub fn stage(&mut self, name: &str)
        requires
            old(self).wf(),
            old(self).part_fault(Some(name@)) is None,
        ensures
            final(self).wf(),
            final(self).declared() == old(self).declared(),
            final(self).staged() == old(self).staged().push(name@),
    {
        let ghost before = self.staged();
        push_text(&mut self.staged, name);
        proof {
            let now = self.staged();
            assert(now == before.push(name@));
            assert forall|a: int, b: int| 0 <= a < now.len() && 0 <= b < now.len() && a
                != b implies now[a] != now[b] by {
                if a == before.len() {
                    assert(before[b] == now[b]);
                } else if b == before.len() {
                    assert(before[a] == now[a]);
                }
            }
            assert forall|i: int| 0 <= i < now.len() implies self.declared().contains(
                #[trigger] now[i],
            ) by {
                if i < before.len() {
                    assert(now[i] == before[i]);
                }
            }
        }
    }

    /// Checks, at the end of the body, that every declared part arrived.
    pub fn check_complete(&self) -> (result: Result<(), ApiError>)
        ensures
            match result {
                Ok(_) => self.staged().len() == self.declared().len(),
                Err(answer) => self.staged().len() != self.declared().len() && answer@
                    == error::plain(
                    422,
                    "missing_part"@,
                    "One or more declared artifact parts are missing"@,
                ),
            },
    {
        if self.staged.len() != self.declared.len() {
            Err(
                ApiError::multipart(
                    422,
                    "missing_part",
                    "One or more declared artifact parts are missing",
                ),
            )
        } else {
            Ok(())
        }
    }

    fn find(&self, name: &str) -> (found: Option<usize>)
        ensures
            match found {
                Some(i) => i < self.staged().len() && self.staged()[i as int] == name@,
                None => !self.staged().contains(name@),
            },
    {
        let mut i: usize = 0;
        while i < self.staged.len()
            invariant
                i <= self.staged.len(),
                forall|j: int| 0 <= j < i ==> #[trigger] self.staged()[j] != name@,
            decreases self.staged.len() - i,
        {
            assert(self.staged()[i as int] == self.staged@[i as int]@);
            if text::same_text(self.staged[i].as_str(), name) {
                return Some(i);
            }
            i += 1;
        }
        None
    }
}

pub(crate) proof fn lemma_complete_lists(
    declared: Seq<Seq<char>>,
    staged: Seq<Seq<char>>,
    name: Seq<char>,
)
    requires
        declared.no_duplicates(),
        staged.no_duplicates(),
        forall|i: int| 0 <= i < staged.len() ==> declared.contains(#[trigger] staged[i]),
        staged.len() == declared.len(),
    ensures
        staged.contains(name) <==> declared.contains(name),
{
    staged.unique_seq_to_set();
    declared.unique_seq_to_set();
    assert(staged.to_set().subset_of(declared.to_set())) by {
        assert forall|x: Seq<char>| staged.to_set().contains(x) implies declared.to_set().contains(
            x,
        ) by {
            let i = choose|i: int| 0 <= i < staged.len() && staged[i] == x;
            assert(declared.contains(staged[i]));
        }
    }
    vstd::set_lib::lemma_subset_equality(staged.to_set(), declared.to_set());
    assert(staged.to_set().contains(name) == declared.to_set().contains(name));
}

/// When as many parts arrived as were declared, exactly the declared ones arrived, each once.
pub proof fn law_complete_means_all_parts(ledger: PartLedger, name: Seq<char>)
    requires
        ledger.wf(),
        ledger.staged().len() == ledger.declared().len(),
    ensures
        ledger.staged().contains(name) <==> ledger.declared().contains(name),
{
    lemma_complete_lists(ledger.declared(), ledger.staged(), name);
}

// ---- the request ----

/// Whether two staged sources are the same.
pub open spec fn same_staged(one: StagedPublicationBlob, other: StagedPublicationBlob) -> bool {
    one.root@ == other.root@ && one.record == other.record
}

/// Whether a blob is the one that was staged under the part name.
pub open spec fn staged_as(
    blob: StagedPublicationBlob,
    name: Seq<char>,
    names: Seq<Seq<char>>,
    blobs: Seq<StagedPublicationBlob>,
) -> bool {
    exists|i: int|
        0 <= i < names.len() && i < blobs.len() && #[trigger] names[i] == name && same_staged(
            blob,
            blobs[i],
        )
}

/// Whether the assets of a request are those of a manifest's file.
pub open spec fn assets_match(
    assets: Seq<PublicationSupportAsset>,
    declared: Seq<ManifestSupportAsset>,
    names: Seq<Seq<char>>,
    blobs: Seq<StagedPublicationBlob>,
) -> bool {
    &&& assets.len() == declared.len()
    &&& forall|k: int|
        0 <= k < declared.len() ==> {
            &&& (#[trigger] assets[k]).relative_path@ == declared[k].relative_path@
            &&& staged_as(assets[k].blob, declared[k].part@, names, blobs)
        }
}

/// Whether a file of a request is that of a manifest.
pub open spec fn file_matches(
    file: PublicationFile,
    declared: ManifestFile,
    names: Seq<Seq<char>>,
    blobs: Seq<StagedPublicationBlob>,
) -> bool {
    &&& file.filename@ == declared.filename@
    &&& text::optional(file.caption) == text::optional(declared.caption)
    &&& staged_as(file.blob, declared.part@, names, blobs)
    &&& assets_match(file.support_assets@, declared.support_assets@, names, blobs)
}

/// Whether a request is that of a manifest and its staged parts, for a session.
pub open spec fn request_matches(
    request: PublicationRequest,
    session_public_id: Seq<char>,
    manifest: PublicationManifest,
    names: Seq<Seq<char>>,
    blobs: Seq<StagedPublicationBlob>,
) -> bool {
    &&& request.session_public_id@ == session_public_id
    &&& request.title@ == manifest.title@
    &&& request.commentary@ == manifest.commentary@
    &&& request.predecessor_post_id == manifest.predecessor_post_id
    &&& read::git_parts(request.git) == read::git_parts(manifest.git)
    &&& request.files@.len() == manifest.files@.len()
    &&& forall|i: int|
        0 <= i < manifest.files@.len() ==> file_matches(
            #[trigger] request.files@[i],
            manifest.files@[i],
            names,
            blobs,
        )
}

fn staged_copy(ledger: &PartLedger, name: &str, blobs: &[StagedPublicationBlob]) -> (result: Option<
    StagedPublicationBlob,
>)
    requires
        blobs@.len() == ledger.staged().len(),
    ensures
        match result {
            Some(blob) => staged_as(blob, name@, ledger.staged(), blobs@),
            None => !ledger.staged().contains(name@),
        },
{
    match ledger.find(name) {
        Some(i) => {
            let blob = StagedPublicationBlob {
                root: text::copy_bytes(&blobs[i].root),
                record: blobs[i].record.clone(),
            };
            assert(staged_as(blob, name@, ledger.staged(), blobs@)) by {
                assert(ledger.staged()[i as int] == name@);
            }
            Some(blob)
        },
        None => None,
    }
}

/// The request that a manifest and its staged parts make, in the manifest's order; none where a
/// part was not staged. `blobs` holds what was staged, in the order of arrival.
pub fn assemble_request(
    manifest: &PublicationManifest,
    ledger: &PartLedger,
    blobs: &[StagedPublicationBlob],
    session_public_id: &str,
) -> (result: Option<PublicationRequest>)
    requires
        blobs@.len() == ledger.staged().len(),
    ensures
        match result {
            Some(request) => request_matches(
                request,
                session_public_id@,
                *manifest,
                ledger.staged(),
                blobs@,
            ),
            None => !names_all(manifest.files@, ledger.staged()),
        },
{
    let mut files: Vec<PublicationFile> = Vec::new();
    let mut i: usize = 0;
    while i < manifest.files.len()
        invariant
            i <= manifest.files.len(),
            files.len() == i,
            blobs@.len() == ledger.staged().len(),
            forall|a: int|
                0 <= a < i ==> file_matches(
                    #[trigger] files@[a],
                    manifest.files@[a],
                    ledger.staged(),
                    blobs@,
                ),
        decreases manifest.files.len() - i,
    {
        let declared = &manifest.files[i];
        let blob = match staged_copy(ledger, declared.part.as_str(), blobs) {
            Some(blob) => blob,
            None => {
                assert(!names_all(manifest.files@, ledger.staged())) by {
                    assert(!ledger.staged().contains(manifest.files@[i as int].part@));
                }
                return None;
            },
        };
        let mut support_assets: Vec<PublicationSupportAsset> = Vec::new();
        let mut k: usize = 0;
        while k < declared.support_assets.len()
            invariant
                k <= declared.support_assets.len(),
                i < manifest.files.len(),
                *declared == manifest.files@[i as int],
                support_assets.len() == k,
                blobs@.len() == ledger.staged().len(),
                forall|a: int|
                    0 <= a < k ==> {
                        &&& (#[trigger] support_assets@[a]).relative_path@
                            == declared.support_assets@[a].relative_path@
                        &&& staged_as(
                            support_assets@[a].blob,
                            declared.support_assets@[a].part@,
                            ledger.staged(),
                            blobs@,
                        )
                    },
            decreases declared.support_assets.len() - k,
        {
            let asset = &declared.support_assets[k];
            let staged = match staged_copy(ledger, asset.part.as_str(), blobs) {
                Some(staged) => staged,
                None => {
                    assert(!names_all(manifest.files@, ledger.staged())) by {
                        assert(!ledger.staged().contains(
                            manifest.files@[i as int].support_assets@[k as int].part@,
                        ));
                    }
                    return None;
                },
            };
            support_assets.push(
                PublicationSupportAsset {
                    relative_path: text::copy_of(asset.relative_path.as_str()),
                    blob: staged,
                },
            );
            k += 1;
        }
        files.push(
            PublicationFile {
                filename: text::copy_of(declared.filename.as_str()),
                caption: read::copy_optional(&declared.caption),
                blob,
                support_assets,
            },
        );
        i += 1;
    }
    Some(
        PublicationRequest {
            session_public_id: text::copy_of(session_public_id),
            title: text::copy_of(manifest.title.as_str()),
            commentary: text::copy_of(manifest.commentary.as_str()),
            predecessor_post_id: manifest.predecessor_post_id,
            git: read::copy_git(&manifest.git),
            files,
        },
    )
}

/// Once every declared part of an accepted manifest arrived, the request can be assembled: no
/// part of the manifest is missing.
pub proof fn law_complete_publications_assemble(
    manifest: PublicationManifest,
    declared: Seq<Seq<char>>,
    staged: Seq<Seq<char>>,
)
    requires
        declared_parts(manifest) == Ok::<Seq<Seq<char>>, ErrorModel>(declared),
        staged.no_duplicates(),
        forall|i: int| 0 <= i < staged.len() ==> declared.contains(#[trigger] staged[i]),
        staged.len() == declared.len(),
    ensures
        names_all(manifest.files@, staged),
{
    law_declared_parts_are_unique(manifest);
    let files = manifest.files@;
    assert forall|i: int| 0 <= i < files.len() implies {
        &&& staged.contains((#[trigger] files[i]).part@)
        &&& forall|k: int|
            0 <= k < files[i].support_assets@.len() ==> staged.contains(
                (#[trigger] files[i].support_assets@[k]).part@,
            )
    } by {
        lemma_complete_lists(declared, staged, files[i].part@);
        assert forall|k: int| 0 <= k < files[i].support_assets@.len() implies staged.contains(
            (#[trigger] files[i].support_assets@[k]).part@,
        ) by {
            lemma_complete_lists(declared, staged, files[i].support_assets@[k].part@);
        }
    }
}

} // verus!
