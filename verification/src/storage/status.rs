//! The store's limits and a snapshot of its state.
use vstd::prelude::*;
use crate::storage::error::StoreError;

verus! {

/// How much the store accepts: bytes of one upload, and bytes of all its blobs.
#[derive(Debug, Clone, Copy, PartialEq, Eq, Structural)]
pub struct StoreLimits {
    pub max_upload_bytes: u64,
    pub max_finalized_blob_bytes: u64,
}

impl StoreLimits {
    /// Limits that no upload reaches.
    pub fn unlimited() -> (limits: Self)
        ensures
            limits == (StoreLimits {
                max_upload_bytes: u64::MAX,
                max_finalized_blob_bytes: u64::MAX,
            }),
    {
        StoreLimits { max_upload_bytes: u64::MAX, max_finalized_blob_bytes: u64::MAX }
    }
}

impl Default for StoreLimits {
    fn default() -> (limits: Self)
        ensures
            limits == (StoreLimits {
                max_upload_bytes: u64::MAX,
                max_finalized_blob_bytes: u64::MAX,
            }),
    {
        StoreLimits::unlimited()
    }
}

/// The bytes that the store's blobs take, each counted once.
#[derive(Debug, Clone, Copy, PartialEq, Eq, Structural)]
pub struct PhysicalUsage {
    pub finalized_unique_blob_bytes: u64,
}

/// The state of the store at one moment.
#[derive(Debug, Clone, Copy, PartialEq, Eq, Structural)]
pub struct StoreStatusSnapshot {
    pub finalized_unique_blob_bytes: u64,
    pub active_sessions: u64,
    pub sessions_due_for_purge: u64,
    pub queued_blob_deletions: u64,
    pub limits: StoreLimits,
}

/// Whether the failure says that a stored count is negative.
pub open spec fn is_invalid_status(error: StoreError, name: Seq<char>, count: i64) -> bool {
    error matches StoreError::InvalidStatusValue { field, value } && field@ == name && value
        == count
}

/// A stored count, which cannot be negative.
pub fn nonnegative(field: &'static str, value: i64) -> (result: Result<u64, StoreError>)
    ensures
        match result {
            Ok(count) => count == value,
            Err(error) => value < 0 && is_invalid_status(error, field@, value),
        },
{
    if value < 0 {
        Err(StoreError::InvalidStatusValue { field, value })
    } else {
        Ok(value as u64)
    }
}

/// The snapshot of a store from its stored byte total, its session counts and the length of its
/// deletion queue; the first of them that is negative is an error.
pub fn status_snapshot(
    finalized: i64,
    active_sessions: u64,
    sessions_due_for_purge: u64,
    queued: i64,
    limits: StoreLimits,
) -> (result: Result<StoreStatusSnapshot, StoreError>)
    ensures
        match result {
            Ok(snapshot) => finalized >= 0 && queued >= 0 && snapshot == (StoreStatusSnapshot {
                finalized_unique_blob_bytes: finalized as u64,
                active_sessions,
                sessions_due_for_purge,
                queued_blob_deletions: queued as u64,
                limits,
            }),
            Err(error) => if finalized < 0 {
                is_invalid_status(error, "finalized_unique_blob_bytes"@, finalized)
            } else {
                queued < 0 && is_invalid_status(error, "queued_blob_deletions"@, queued)
            },
        },
{
    let finalized_unique_blob_bytes: u64 = match nonnegative(
        "finalized_unique_blob_bytes",
        finalized,
    ) {
        Ok(count) => count,
        Err(error) => {
            return Err(error);
        },
    };
    let queued_blob_deletions: u64 = match nonnegative("queued_blob_deletions", queued) {
        Ok(count) => count,
        Err(error) => {
            return Err(error);
        },
    };
    Ok(
        StoreStatusSnapshot {
            finalized_unique_blob_bytes,
            active_sessions,
            sessions_due_for_purge,
            queued_blob_deletions,
            limits,
        },
    )
}

} // verus!
