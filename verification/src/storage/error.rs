//! The failures of the store and their messages.
use vstd::prelude::*;
use crate::number;
use crate::storage::blob;
use crate::storage::blob::BlobIntegrityError;
use crate::text;

verus! {

/// Why the store could not do what it was asked.
#[allow(inconsistent_fields)]
#[derive(Debug, PartialEq, Eq)]
pub enum StoreError {
    /// The file system failed; the text says how.
    Io(String),
    /// The database failed; the message says how, and `constraint` whether a constraint of the
    /// schema rejected the operation.
    Sqlite { constraint: bool, message: String },
    Integrity(BlobIntegrityError),
    SchemaTooNew { found: u32, supported: u32 },
    InvalidMigrationPlan { expected: u32, found: u32 },
    /// The operating system gave no random bytes; the text says why.
    Random(String),
    PublicIdExhausted,
    SessionNotFound { public_id: String },
    ProjectNotFound { project_id: i64 },
    PostNotFound { post_id: i64 },
    InvalidPageLimit { limit: u32, maximum: u32 },
    InvalidPageCursor,
    UploadLimitExceeded { limit: u64, attempted: u64 },
    GlobalBlobBudgetExceeded { limit: u64, current: u64, additional: u64 },
    BlankPublicationTitle,
    BlankPublicationCommentary,
    PublicationRequiresFile,
    PredecessorNotFound { post_id: i64 },
    CrossSessionPredecessor { post_id: i64 },
    DuplicateSupportPath { relative_path: String },
    InvalidSupportPath { relative_path: String },
    PublicationStagingStoreMismatch,
    ArtifactClassificationFailed,
    ArtifactNotFound,
    InvalidPostMetadata,
    InvalidGitProvenance,
    InvalidStatusValue { field: &'static str, value: i64 },
}

/// The message of a store failure.
pub open spec fn store_error_text(error: StoreError) -> Seq<char> {
    match error {
        StoreError::Io(cause) => "storage I/O error: "@ + cause@,
        StoreError::Sqlite { constraint: _, message } => "SQLite store error: "@ + message@,
        StoreError::Integrity(cause) => "blob integrity error: "@ + blob::integrity_error_text(cause),
        StoreError::SchemaTooNew { found, supported } => "database schema version "@
            + number::decimal(found as nat) + " is newer than supported version "@
            + number::decimal(supported as nat),
        StoreError::InvalidMigrationPlan { expected, found } =>
            "invalid migration plan: expected version "@ + number::decimal(expected as nat)
            + ", found "@ + number::decimal(found as nat),
        StoreError::Random(cause) => "operating-system randomness error: "@ + cause@,
        StoreError::PublicIdExhausted => "public session ID length exhausted"@,
        StoreError::SessionNotFound { public_id } => "session "@ + public_id@ + " was not found"@,
        StoreError::ProjectNotFound { project_id } => "project "@ + number::signed_decimal(
            project_id as int,
        ) + " was not found"@,
        StoreError::PostNotFound { post_id } => "post "@ + number::signed_decimal(post_id as int)
            + " was not found"@,
        StoreError::InvalidPageLimit { limit, maximum } => "page limit "@ + number::decimal(
            limit as nat,
        ) + " is outside 1..="@ + number::decimal(maximum as nat),
        StoreError::InvalidPageCursor => "invalid page cursor"@,
        StoreError::UploadLimitExceeded { limit, attempted } =>
            "upload byte limit exceeded: limit "@ + number::decimal(limit as nat) + ", attempted "@
            + number::decimal(attempted as nat),
        StoreError::GlobalBlobBudgetExceeded { limit, current, additional } =>
            "global finalized blob budget exceeded: limit "@ + number::decimal(limit as nat)
            + ", current usage "@ + number::decimal(current as nat) + ", additional unique bytes "@
            + number::decimal(additional as nat),
        StoreError::BlankPublicationTitle => "publication title must not be blank"@,
        StoreError::BlankPublicationCommentary => "publication commentary must not be blank"@,
        StoreError::PublicationRequiresFile => "publication requires at least one visible file"@,
        StoreError::PredecessorNotFound { post_id } => "predecessor post "@
            + number::signed_decimal(post_id as int) + " was not found"@,
        StoreError::CrossSessionPredecessor { post_id } => "predecessor post "@
            + number::signed_decimal(post_id as int) + " belongs to another session"@,
        StoreError::DuplicateSupportPath { relative_path } =>
            "duplicate support path under one entry: "@ + relative_path@,
        StoreError::InvalidSupportPath { relative_path } => "invalid relative support path: "@
            + relative_path@,
        StoreError::PublicationStagingStoreMismatch =>
            "staged publication blob belongs to another store"@,
        StoreError::ArtifactClassificationFailed =>
            "artifact media declaration contradicts its filename or bytes"@,
        StoreError::ArtifactNotFound => "associated artifact was not found"@,
        StoreError::InvalidPostMetadata => "stored post metadata is invalid"@,
        StoreError::InvalidGitProvenance => "Git provenance is invalid"@,
        StoreError::InvalidStatusValue { field, value } => "stored status value "@ + field@
            + " is invalid: "@ + number::signed_decimal(value as int),
    }
}

fn with_post(before: &str, post_id: i64, after: &str) -> (whole: String)
    ensures
        whole@ == before@ + number::signed_decimal(post_id as int) + after@,
{
    text::joined3(before, number::format_i64(post_id).as_str(), after)
}

fn with_two(before: &str, first: u64, between: &str, second: u64) -> (whole: String)
    ensures
        whole@ == before@ + number::decimal(first as nat) + between@ + number::decimal(
            second as nat,
        ),
{
    let start = text::joined3(before, number::format_u64(first).as_str(), between);
    text::joined(start.as_str(), number::format_u64(second).as_str())
}

impl StoreError {
    /// The message of this failure.
    pub fn message(&self) -> (message: String)
        ensures
            message@ == store_error_text(*self),
    {
        match self {
            StoreError::Io(cause) => text::joined("storage I/O error: ", cause.as_str()),
            StoreError::Sqlite { constraint: _, message } => {
                text::joined("SQLite store error: ", message.as_str())
            },
            StoreError::Integrity(cause) => {
                text::joined("blob integrity error: ", cause.message().as_str())
            },
            StoreError::SchemaTooNew { found, supported } => with_two(
                "database schema version ",
                *found as u64,
                " is newer than supported version ",
                *supported as u64,
            ),
            StoreError::InvalidMigrationPlan { expected, found } => with_two(
                "invalid migration plan: expected version ",
                *expected as u64,
                ", found ",
                *found as u64,
            ),
            StoreError::Random(cause) => {
                text::joined("operating-system randomness error: ", cause.as_str())
            },
            StoreError::PublicIdExhausted => text::copy_of("public session ID length exhausted"),
            StoreError::SessionNotFound { public_id } => {
                text::joined3("session ", public_id.as_str(), " was not found")
            },
            StoreError::ProjectNotFound { project_id } => {
                with_post("project ", *project_id, " was not found")
            },
            StoreError::PostNotFound { post_id } => with_post("post ", *post_id, " was not found"),
            StoreError::InvalidPageLimit { limit, maximum } => {
                with_two("page limit ", *limit as u64, " is outside 1..=", *maximum as u64)
            },
            StoreError::InvalidPageCursor => text::copy_of("invalid page cursor"),
            StoreError::UploadLimitExceeded { limit, attempted } => with_two(
                "upload byte limit exceeded: limit ",
                *limit,
                ", attempted ",
                *attempted,
            ),
            StoreError::GlobalBlobBudgetExceeded { limit, current, additional } => {
                let start = with_two(
                    "global finalized blob budget exceeded: limit ",
                    *limit,
                    ", current usage ",
                    *current,
                );
                text::joined3(
                    start.as_str(),
                    ", additional unique bytes ",
                    number::format_u64(*additional).as_str(),
                )
            },
            StoreError::BlankPublicationTitle => {
                text::copy_of("publication title must not be blank")
            },
            StoreError::BlankPublicationCommentary => {
                text::copy_of("publication commentary must not be blank")
            },
            StoreError::PublicationRequiresFile => {
                text::copy_of("publication requires at least one visible file")
            },
            StoreError::PredecessorNotFound { post_id } => {
                with_post("predecessor post ", *post_id, " was not found")
            },
            StoreError::CrossSessionPredecessor { post_id } => {
                with_post("predecessor post ", *post_id, " belongs to another session")
            },
            StoreError::DuplicateSupportPath { relative_path } => {
                text::joined("duplicate support path under one entry: ", relative_path.as_str())
            },
            StoreError::InvalidSupportPath { relative_path } => {
                text::joined("invalid relative support path: ", relative_path.as_str())
            },
            StoreError::PublicationStagingStoreMismatch => {
                text::copy_of("staged publication blob belongs to another store")
            },
            StoreError::ArtifactClassificationFailed => {
                text::copy_of("artifact media declaration contradicts its filename or bytes")
            },
            StoreError::ArtifactNotFound => text::copy_of("associated artifact was not found"),
            StoreError::InvalidPostMetadata => text::copy_of("stored post metadata is invalid"),
            StoreError::InvalidGitProvenance => text::copy_of("Git provenance is invalid"),
            StoreError::InvalidStatusValue { field, value } => {
                let start = text::joined3("stored status value ", *field, " is invalid: ");
                text::joined(start.as_str(), number::format_i64(*value).as_str())
            },
        }
    }
}

} // verus!
