//! The errors of the HTTP interface.
use vstd::prelude::*;
use crate::details;
use crate::details::{Detail, ValueModel};
use crate::storage::error::StoreError;
use crate::text;

verus! {

#[derive(Debug, Clone, PartialEq, Eq)]
pub struct ErrorEnvelope {
    pub error: ErrorBody,
}

#[derive(Debug, Clone, PartialEq, Eq)]
pub struct ErrorBody {
    pub code: String,
    pub message: String,
    pub details: Vec<Detail>,
}

/// An error answer: the HTTP status and the body.
#[derive(Debug, Clone, PartialEq, Eq)]
pub struct ApiError {
    pub status: u16,
    pub body: ErrorEnvelope,
}

/// The model of an error answer.
pub struct ErrorModel {
    pub status: u16,
    pub code: Seq<char>,
    pub message: Seq<char>,
    pub details: Seq<(Seq<char>, ValueModel)>,
}

impl View for ApiError {
    type V = ErrorModel;

    open spec fn view(&self) -> ErrorModel {
        ErrorModel {
            status: self.status,
            code: self.body.error.code@,
            message: self.body.error.message@,
            details: details::models(self.body.error.details@),
        }
    }
}

/// An error without details.
pub open spec fn plain(status: u16, code: Seq<char>, message: Seq<char>) -> ErrorModel {
    ErrorModel { status, code, message, details: Seq::empty() }
}

/// An error with details.
pub open spec fn with(
    status: u16,
    code: Seq<char>,
    message: Seq<char>,
    details: Seq<(Seq<char>, ValueModel)>,
) -> ErrorModel {
    ErrorModel { status, code, message, details }
}

/// The answer to a failure inside the daemon.
pub open spec fn internal_error() -> ErrorModel {
    plain(500, "internal_error"@, "An internal storage error occurred"@)
}

/// The answer to a JSON body that cannot be read.
pub open spec fn malformed_json_error() -> ErrorModel {
    plain(400, "malformed_json"@, "JSON request body is malformed or contains unknown fields"@)
}

/// The answer while there is no store.
pub open spec fn unavailable_error() -> ErrorModel {
    plain(503, "storage_unavailable"@, "Persistent storage is not configured"@)
}

/// The answer to a failure of the store.
pub open spec fn store_error_answer(error: StoreError) -> ErrorModel {
    match error {
        StoreError::SessionNotFound { public_id } => with(
            404,
            "session_not_found"@,
            "Session was not found"@,
            seq![("public_id"@, ValueModel::Text(public_id@))],
        ),
        StoreError::ProjectNotFound { project_id } => with(
            404,
            "project_not_found"@,
            "Project was not found"@,
            seq![("project_id"@, ValueModel::Number(project_id as int))],
        ),
        StoreError::PostNotFound { post_id } => with(
            404,
            "post_not_found"@,
            "Post was not found"@,
            seq![("post_id"@, ValueModel::Number(post_id as int))],
        ),
        StoreError::PredecessorNotFound { post_id } => with(
            404,
            "post_not_found"@,
            "Post was not found"@,
            seq![("post_id"@, ValueModel::Number(post_id as int))],
        ),
        StoreError::InvalidPageLimit { limit, maximum } => with(
            400,
            "invalid_page_limit"@,
            "Page limit is outside the supported range"@,
            seq![
                ("limit"@, ValueModel::Number(limit as int)),
                ("maximum"@, ValueModel::Number(maximum as int)),
            ],
        ),
        StoreError::InvalidPageCursor => plain(
            400,
            "invalid_page_cursor"@,
            "Page cursor is invalid"@,
        ),
        StoreError::UploadLimitExceeded { limit, attempted } => with(
            413,
            "upload_limit_exceeded"@,
            "Upload exceeds the configured limit"@,
            seq![
                ("limit"@, ValueModel::Number(limit as int)),
                ("attempted"@, ValueModel::Number(attempted as int)),
            ],
        ),
        StoreError::GlobalBlobBudgetExceeded { limit, current, additional } => with(
            507,
            "storage_limit_exceeded"@,
            "Storage budget would be exceeded"@,
            seq![
                ("limit"@, ValueModel::Number(limit as int)),
                ("current"@, ValueModel::Number(current as int)),
                ("additional"@, ValueModel::Number(additional as int)),
            ],
        ),
        StoreError::ArtifactNotFound => plain(
            404,
            "artifact_not_found"@,
            "Associated artifact was not found"@,
        ),
        StoreError::ArtifactClassificationFailed => plain(
            422,
            "artifact_classification_failed"@,
            "Artifact bytes contradict the filename or declared media type"@,
        ),
        StoreError::BlankPublicationTitle | StoreError::BlankPublicationCommentary
        | StoreError::PublicationRequiresFile | StoreError::InvalidGitProvenance
        | StoreError::DuplicateSupportPath { .. } | StoreError::InvalidSupportPath { .. } => plain(
            422,
            "validation_failed"@,
            "Publication validation failed"@,
        ),
        StoreError::CrossSessionPredecessor { post_id } => with(
            409,
            "revision_conflict"@,
            "Predecessor belongs to another session"@,
            seq![("post_id"@, ValueModel::Number(post_id as int))],
        ),
        StoreError::Integrity(_) | StoreError::InvalidPostMetadata => plain(
            500,
            "storage_integrity_error"@,
            "Stored data failed integrity validation"@,
        ),
        StoreError::Io(_) => plain(500, "storage_io_error"@, "A storage I/O operation failed"@),
        StoreError::Sqlite { constraint, .. } => if constraint {
            plain(
                409,
                "storage_constraint_conflict"@,
                "A storage constraint rejected the operation"@,
            )
        } else {
            plain(500, "database_error"@, "A database operation failed"@)
        },
        _ => internal_error(),
    }
}

impl ApiError {
    /// An error answer.
    pub fn new(status: u16, code: &str, message: &str, details: Vec<Detail>) -> (error: Self)
        ensures
            error@ == with(status, code@, message@, details::models(details@)),
    {
        ApiError {
            status,
            body: ErrorEnvelope {
                error: ErrorBody {
                    code: text::copy_of(code),
                    message: text::copy_of(message),
                    details,
                },
            },
        }
    }

    /// An error answer without details.
    pub fn multipart(status: u16, code: &str, message: &str) -> (error: Self)
        ensures
            error@ == plain(status, code@, message@),
    {
        let details: Vec<Detail> = Vec::new();
        assert(details::models(details@) =~= Seq::<(Seq<char>, ValueModel)>::empty());
        ApiError::new(status, code, message, details)
    }

    /// The answer to a JSON body that cannot be read.
    pub fn malformed_json() -> (error: Self)
        ensures
            error@ == malformed_json_error(),
    {
        ApiError::multipart(
            400,
            "malformed_json",
            "JSON request body is malformed or contains unknown fields",
        )
    }

    /// The answer while there is no store.
    pub fn unavailable() -> (error: Self)
        ensures
            error@ == unavailable_error(),
    {
        ApiError::multipart(503, "storage_unavailable", "Persistent storage is not configured")
    }

    /// The answer to a failure inside the daemon.
    pub fn internal() -> (error: Self)
        ensures
            error@ == internal_error(),
    {
        ApiError::multipart(500, "internal_error", "An internal storage error occurred")
    }

    /// The answer to a failure of the store.
    pub fn from_store_error(error: &StoreError) -> (answer: Self)
        ensures
            answer@ == store_error_answer(*error),
    {
        match error {
            StoreError::SessionNotFound { public_id } => ApiError::new(
                404,
                "session_not_found",
                "Session was not found",
                details::one(details::text_detail("public_id", public_id.as_str())),
            ),
            StoreError::ProjectNotFound { project_id } => ApiError::new(
                404,
                "project_not_found",
                "Project was not found",
                details::one(details::signed_detail("project_id", *project_id)),
            ),
            StoreError::PostNotFound { post_id } => ApiError::new(
                404,
                "post_not_found",
                "Post was not found",
                details::one(details::signed_detail("post_id", *post_id)),
            ),
            StoreError::PredecessorNotFound { post_id } => ApiError::new(
                404,
                "post_not_found",
                "Post was not found",
                details::one(details::signed_detail("post_id", *post_id)),
            ),
            StoreError::InvalidPageLimit { limit, maximum } => ApiError::new(
                400,
                "invalid_page_limit",
                "Page limit is outside the supported range",
                details::two(
                    details::unsigned_detail("limit", *limit as u64),
                    details::unsigned_detail("maximum", *maximum as u64),
                ),
            ),
            StoreError::InvalidPageCursor => {
                ApiError::multipart(400, "invalid_page_cursor", "Page cursor is invalid")
            },
            StoreError::UploadLimitExceeded { limit, attempted } => ApiError::new(
                413,
                "upload_limit_exceeded",
                "Upload exceeds the configured limit",
                details::two(
                    details::unsigned_detail("limit", *limit),
                    details::unsigned_detail("attempted", *attempted),
                ),
            ),
            StoreError::GlobalBlobBudgetExceeded { limit, current, additional } => ApiError::new(
                507,
                "storage_limit_exceeded",
                "Storage budget would be exceeded",
                details::three(
                    details::unsigned_detail("limit", *limit),
                    details::unsigned_detail("current", *current),
                    details::unsigned_detail("additional", *additional),
                ),
            ),
            StoreError::ArtifactNotFound => ApiError::multipart(
                404,
                "artifact_not_found",
                "Associated artifact was not found",
            ),
            StoreError::ArtifactClassificationFailed => ApiError::multipart(
                422,
                "artifact_classification_failed",
                "Artifact bytes contradict the filename or declared media type",
            ),
            StoreError::BlankPublicationTitle | StoreError::BlankPublicationCommentary
            | StoreError::PublicationRequiresFile | StoreError::InvalidGitProvenance
            | StoreError::DuplicateSupportPath { .. } | StoreError::InvalidSupportPath { .. } => {
                ApiError::multipart(422, "validation_failed", "Publication validation failed")
            },
            StoreError::CrossSessionPredecessor { post_id } => ApiError::new(
                409,
                "revision_conflict",
                "Predecessor belongs to another session",
                details::one(details::signed_detail("post_id", *post_id)),
            ),
            StoreError::Integrity(_) | StoreError::InvalidPostMetadata => ApiError::multipart(
                500,
                "storage_integrity_error",
                "Stored data failed integrity validation",
            ),
            StoreError::Io(_) => {
                ApiError::multipart(500, "storage_io_error", "A storage I/O operation failed")
            },
            StoreError::Sqlite { constraint, message: _ } => {
                if *constraint {
                    ApiError::multipart(
                        409,
                        "storage_constraint_conflict",
                        "A storage constraint rejected the operation",
                    )
                } else {
                    ApiError::multipart(500, "database_error", "A database operation failed")
                }
            },
            _ => ApiError::internal(),
        }
    }
}

} // verus!
