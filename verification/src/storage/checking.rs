//! What the functions of the store give back, stated of their results.
use vstd::prelude::*;
use crate::storage::blob;
use crate::storage::blob::{BlobHash, BlobIntegrityError, BlobRecord, BlobStream, FileState};
use crate::storage::error::StoreError;
use crate::storage::order;
use crate::storage::publication;
use crate::storage::publication::RecoveryAction;
use crate::storage::read;
use crate::storage::read::{Cursor, PagePlan, PageRequest};
use crate::storage::session;
use crate::storage::session::{
    ActivityReport, CandidateOutcome, CandidateSearch, Migration, PublicIdDraft,
};
use crate::storage::staging;
use crate::storage::staging::{StageFault, StageKind};
use crate::storage::status;
use crate::storage::status::{StoreLimits, StoreStatusSnapshot};

verus! {

// ---- sources ----

/// The integrity failure that a failure of the store is.
pub open spec fn integrity(error: StoreError) -> Option<BlobIntegrityError> {
    match error {
        StoreError::Integrity(cause) => Some(cause),
        _ => None,
    }
}

/// Sizes are recorded as they are, up to the greatest that can be.
pub proof fn law_sizes_are_recorded_as_they_are(byte_size: u64, result: Result<i64, StoreError>)
    requires
        call_ensures(blob::sqlite_byte_size, (byte_size,), result),
    ensures
        result is Ok <==> byte_size < 0x8000_0000_0000_0000,
        result matches Ok(value) ==> value == byte_size,
{
}

/// A source is recorded exactly where a size is, under its hash and with that size; a size below zero
/// is no size.
pub proof fn law_recorded_sources_have_their_size(
    hash: &BlobHash,
    byte_size: Option<i64>,
    result: Result<Option<BlobRecord>, StoreError>,
)
    requires
        call_ensures(blob::recorded_blob, (hash, byte_size), result),
    ensures
        byte_size is None ==> result matches Ok(None),
        byte_size is Some && byte_size->0 >= 0 ==> (result matches Ok(Some(record)) && record@.0 == hash@
            && record@.1 == byte_size->0),
        byte_size is Some && byte_size->0 < 0 ==> (result matches Err(error) && integrity(error) is Some
            && integrity(error)->0 is SizeMismatch),
{
}

/// A source agrees with what is recorded exactly where one of its size is recorded.
pub proof fn law_sources_agree_with_their_records(
    record: &BlobRecord,
    recorded: &Option<BlobRecord>,
    result: Result<(), StoreError>,
)
    requires
        call_ensures(blob::check_recorded, (record, recorded), result),
    ensures
        result is Ok <==> *recorded is Some && (*recorded)->0@.1 == record@.1,
        *recorded is None ==> (result matches Err(error) && integrity(error) is Some && integrity(error)->0
            is MissingMetadata),
        *recorded is Some && result is Err ==> integrity(result->Err_0) is Some && integrity(
            result->Err_0,
        )->0 is SizeMismatch,
{
}

/// A source's file is sound exactly where it is a file of the recorded size.
pub proof fn law_which_source_files_are_sound(
    hash: &BlobHash,
    recorded: u64,
    state: FileState,
    result: Result<(), StoreError>,
)
    requires
        call_ensures(blob::check_file, (hash, recorded, state), result),
    ensures
        result is Ok <==> (state matches FileState::File { byte_size } && byte_size == recorded),
        state is Missing ==> (result matches Err(error) && integrity(error) is Some && integrity(error)->0
            is Missing),
        state is NotAFile ==> (result matches Err(error) && integrity(error) is Some && integrity(
            error,
        )->0 is NotAFile),
        state is File && result is Err ==> integrity(result->Err_0) is Some && integrity(
            result->Err_0,
        )->0 is SizeMismatch,
{
}

/// A source's bytes are sound exactly where they have its hash.
pub proof fn law_which_contents_are_sound(
    expected: &BlobHash,
    actual: &BlobHash,
    result: Result<(), StoreError>,
)
    requires
        call_ensures(blob::check_contents, (expected, actual), result),
    ensures
        result is Ok <==> expected@ == actual@,
        result matches Err(error) ==> integrity(error) is Some && integrity(error)->0 is HashMismatch,
{
}

/// A source that was inserted is recorded with the size it has, or its insertion fails.
pub proof fn law_inserted_sources_keep_their_size(
    hash: &BlobHash,
    byte_size: u64,
    recorded: i64,
    result: Result<BlobRecord, StoreError>,
)
    requires
        call_ensures(blob::check_inserted, (hash, byte_size, recorded), result),
    ensures
        result is Ok <==> recorded == byte_size,
        result matches Ok(record) ==> record@.0 == hash@ && record@.1 == byte_size,
        result matches Err(error) ==> integrity(error) is Some && integrity(error)->0 is SizeMismatch,
{
}

/// Bytes are taken in one after the other, as many as an upload may have; what would be more is refused
/// with the limit and the attempt, and leaves what was there.
pub proof fn law_uploads_are_taken_in(
    stream: &mut BlobStream,
    piece: &[u8],
    limit: u64,
    result: Result<(), StoreError>,
)
    requires
        call_ensures(BlobStream::absorb, (stream, piece, limit), result),
    ensures
        result is Ok <==> old(stream)@.len() + piece@.len() <= limit,
        result is Ok ==> final(stream)@ == old(stream)@ + piece@,
        result is Err ==> final(stream)@ == old(stream)@,
        limit < old(stream)@.len() + piece@.len() <= u64::MAX ==> (result matches Err(error) && (
        error matches StoreError::UploadLimitExceeded { limit: most, attempted } && most == limit
            && attempted == old(stream)@.len() + piece@.len())),
{
}

// ---- activity and time ----

/// Activity of a session that is there moves its last activity forward and never back; a session that
/// is not there has none.
pub proof fn law_activity_never_goes_back(
    public_id: &str,
    previous: Option<i64>,
    occurred_at: i64,
    result: Result<ActivityReport, StoreError>,
)
    requires
        call_ensures(session::record_activity, (public_id, previous, occurred_at), result),
    ensures
        result is Ok <==> previous is Some,
        result matches Ok(report) ==> {
            &&& report.last_activity_at >= previous->0
            &&& report.last_activity_at >= occurred_at
            &&& report.last_activity_at == previous->0 || report.last_activity_at == occurred_at
            &&& report.updated <==> report.last_activity_at != previous->0
        },
        result matches Err(error) ==> (error matches StoreError::SessionNotFound { public_id: missing }
            && missing@ == public_id@),
{
}

/// A public ID that is free is the session's; after one that is taken the next is one longer.
pub proof fn law_taken_ids_grow(
    search: &mut CandidateSearch,
    candidate: String,
    inserted: usize,
    session_id: i64,
    project_id: i64,
    result: Result<CandidateOutcome, StoreError>,
)
    requires
        call_ensures(
            CandidateSearch::offered,
            (search, candidate, inserted, session_id, project_id),
            result,
        ),
    ensures
        inserted == 1 ==> (result matches Ok(CandidateOutcome::Accepted(session)) && session.id == session_id
            && session.public_id == candidate && session.project_id == project_id),
        inserted != 1 && old(search).length < usize::MAX ==> (result matches Ok(CandidateOutcome::Collided)
            && final(search).length == old(search).length + 1),
        inserted != 1 && old(search).length == usize::MAX ==> result is Err,
{
}

/// The migrations that are still to be made are those of later versions, and all of them.
pub proof fn law_later_migrations_are_pending(migrations: &[Migration], from: u32, first: usize, i: int)
    requires
        session::is_consecutive(migrations@),
        call_ensures(session::first_pending, (migrations, from), first),
        0 <= i < migrations@.len(),
    ensures
        i < first ==> migrations@[i].version <= from,
        i >= first ==> migrations@[i].version > from,
{
}

/// The clock's seconds are taken as they are, up to the greatest that can be stored.
pub proof fn law_the_clock_is_taken_as_it_is(seconds: Option<u64>, result: Result<i64, StoreError>)
    requires
        call_ensures(session::unix_seconds, (seconds,), result),
    ensures
        result is Ok <==> seconds is Some && seconds->0 < 0x8000_0000_0000_0000,
        result matches Ok(time) ==> time == seconds->0,
{
}

/// A store is opened exactly where its schema is no newer than the fifth.
pub proof fn law_newer_stores_are_not_opened(found: u32, result: Result<(), StoreError>)
    requires
        call_ensures(session::check_schema_version, (found,), result),
    ensures
        result is Ok <==> found <= 5,
        result matches Err(error) ==> error == (StoreError::SchemaTooNew { found, supported: 5 }),
{
}

/// Of random bytes each below 232 stands for a character, by its remainder of 58: the digits from `1`,
/// then the upper-case letters but `I` and `O`, then the lower-case letters but `l`. The others stand for
/// nothing.
pub proof fn law_bytes_stand_for_characters(bytes: Seq<u8>, byte: u8)
    ensures
        session::public_id_chars(Seq::empty()).len() == 0,
        byte < 232 ==> session::public_id_chars(bytes.push(byte)) == session::public_id_chars(bytes).push(
            "123456789ABCDEFGHJKLMNPQRSTUVWXYZabcdefghijkmnopqrstuvwxyz"@[byte as int % 58],
        ),
        byte >= 232 ==> session::public_id_chars(bytes.push(byte)) == session::public_id_chars(bytes),
{
    assert(bytes.push(byte).drop_last() =~= bytes);
    session::law_base58_alphabet(byte as int % 58);
}

/// A draft goes on with the characters of the bytes that were drawn.
pub proof fn law_drafts_go_on(draft: PublicIdDraft, bytes: &[u8], next: PublicIdDraft)
    requires
        call_ensures(PublicIdDraft::take, (draft, bytes), next),
    ensures
        next@.chars == draft@.chars + session::public_id_chars(bytes@),
        next@.length == draft@.length,
{
}

// ---- order ----

/// Texts are ordered by the first character in which they differ, and one that another starts with comes
/// before it; no text comes before itself.
pub proof fn law_texts_are_ordered(start: Seq<char>, one: Seq<char>, other: Seq<char>)
    ensures
        !order::text_before(start, start),
        one.len() > 0 ==> order::text_before(start, start + one) && !order::text_before(start + one, start),
        one.len() > 0 && other.len() > 0 && one[0] != other[0] ==> (order::text_before(
            start + one,
            start + other,
        ) <==> one[0] < other[0]),
    decreases start.len(),
{
    if start.len() > 0 {
        law_texts_are_ordered(start.drop_first(), one, other);
        assert((start + one).drop_first() =~= start.drop_first() + one);
        assert((start + other).drop_first() =~= start.drop_first() + other);
    } else {
        assert(start + one =~= one);
        assert(start + other =~= other);
    }
}

// ---- pages ----

/// A page is planned exactly where it holds one to a hundred posts, twenty unless another number is
/// asked for, and its cursor can be read; one more is fetched than is shown.
pub proof fn law_which_pages_are_planned(page: &PageRequest, result: Result<PagePlan, StoreError>)
    requires
        call_ensures(read::plan_page, (page,), result),
    ensures
        ({
            let limit = if page.limit is Some {
                page.limit->0
            } else {
                20
            };
            &&& result is Ok <==> 1 <= limit <= 100 && (page.cursor is None || read::cursor_value(
                page.cursor->0@,
            ) is Some)
            &&& result matches Ok(plan) ==> plan.limit == limit && plan.fetch == limit + 1 && (
            plan.cursor is Some <==> page.cursor is Some)
            &&& result matches Ok(plan) ==> (plan.cursor matches Some(cursor) ==> read::cursor_value(
                page.cursor->0@,
            ) == Some((cursor.published_at as int, cursor.post_id as int)))
            &&& !(1 <= limit <= 100) ==> (result matches Err(error) && error == (
            StoreError::InvalidPageLimit { limit, maximum: 100 }))
        }),
{
}

/// A page shows the first of what was fetched, as many as it may hold, and has a next one exactly where
/// more was fetched.
pub proof fn law_pages_show_the_first(
    limit: u32,
    fetched: Vec<Cursor>,
    result: (Vec<Cursor>, Option<String>),
    i: int,
)
    requires
        1 <= limit <= 100,
        call_ensures(read::finish_page, (limit, fetched), result),
    ensures
        result.1 is Some <==> fetched@.len() > limit,
        fetched@.len() <= limit ==> result.0@.len() == fetched@.len(),
        fetched@.len() > limit ==> result.0@.len() == limit,
        0 <= i < result.0@.len() ==> result.0@[i] == fetched@[i],
{
}

// ---- the store as a whole ----

/// Without limits nothing is refused for its size.
pub proof fn law_unlimited_stores_take_everything(limits: StoreLimits, byte_size: u64)
    requires
        call_ensures(StoreLimits::unlimited, (), limits),
    ensures
        byte_size <= limits.max_upload_bytes,
        byte_size <= limits.max_finalized_blob_bytes,
{
}

/// The state of the store tells each number as it was counted, and none below zero.
pub proof fn law_the_state_tells_what_was_counted(
    finalized: i64,
    active: u64,
    due: u64,
    queued: i64,
    limits: StoreLimits,
    result: Result<StoreStatusSnapshot, StoreError>,
)
    requires
        call_ensures(status::status_snapshot, (finalized, active, due, queued, limits), result),
    ensures
        result is Ok <==> finalized >= 0 && queued >= 0,
        result matches Ok(snapshot) ==> {
            &&& snapshot.finalized_unique_blob_bytes == finalized
            &&& snapshot.active_sessions == active
            &&& snapshot.sessions_due_for_purge == due
            &&& snapshot.queued_blob_deletions == queued
            &&& snapshot.limits == limits
        },
        result matches Err(error) ==> (error matches StoreError::InvalidStatusValue { value, .. } && value < 0
            && (value == finalized || value == queued)),
{
}

// ---- staging ----

/// The files of a stage are its data and its lock, and for a publication its next data and its journal;
/// recovery removes all that is left of a stage but keeps what is still in use: the lock goes last, and
/// of what is left alone nothing goes.
pub proof fn law_which_stage_files_go(
    kind: StageKind,
    action: RecoveryAction,
    files: Vec<&'static str>,
    removed: Vec<&'static str>,
)
    requires
        call_ensures(staging::stage_extensions, (kind,), files),
        call_ensures(publication::removed_extensions, (action,), removed),
    ensures
        kind is Blob ==> files@ == seq!["part", "lock"],
        kind is Publication ==> files@ == seq!["part", "next", "journal", "lock"],
        files@.last() == "lock",
        action is Leave <==> removed@.len() == 0,
        action is RemoveStage && kind is Publication ==> removed@ == files@,
        action is ReadJournal && kind is Publication ==> removed@ == files@,
        action is RemoveData ==> removed@ == seq!["part"],
        action is RemoveLock ==> removed@ == seq!["lock"],
        action is RemoveAbandoned ==> removed@ == seq!["part", "next", "lock"],
{
    assert(seq!["part", "lock"].last() == "lock");
    assert(seq!["part", "next", "journal", "lock"].last() == "lock");
}

/// What failed in staging is told as it was reported, an upload that is too large with its limit and
/// its size.
pub proof fn law_staging_failures_are_told(fault: StageFault, error: StoreError)
    requires
        call_ensures(StageFault::into_error, (fault,), error),
    ensures
        fault matches StageFault::Reported(reported) ==> error == reported,
        fault matches StageFault::TooLarge { limit, attempted } ==> error == (
        StoreError::UploadLimitExceeded { limit, attempted }),
        fault is NamesExhausted || fault is ByteCountOverflow ==> error is Io,
{
}

} // verus!
