//! How bytes are staged and stored, sessions resolved and removed, and sources deleted, step by step.
use vstd::prelude::*;
use crate::digest;
use crate::storage::blob;
use crate::storage::blob::BlobRecord;
use crate::storage::draining;
use crate::storage::draining::{DrainAnswer, DrainFault, DrainModel, DrainStep, Draining};
use crate::storage::error::StoreError;
use crate::storage::finalizing;
use crate::storage::finalizing::{FinalAnswer, FinalFault, FinalModel, FinalStep, Finalizing};
use crate::storage::lifecycle::{LifecycleReport, SessionContents};
use crate::storage::publication;
use crate::storage::publication::{JournalEntry, JournalState, PublicationFile};
use crate::storage::purging;
use crate::storage::purging::{PurgeAnswer, PurgeModel, PurgeStep, Purging};
use crate::storage::resolving;
use crate::storage::resolving::{ResolveAnswer, ResolveStep, Resolving};
use crate::storage::session::SessionRecord;
use crate::storage::staging;
use crate::storage::staging::{
    StageAnswer, StageFault, StageKind, StageModel, Staging, StepModel,
};

verus! {

// ---- staging ----

/// A stage that goes well makes its directory, picks a name, takes the lock of that name, makes its data
/// file and writes what it reads, piece by piece, then brings all of it to the disk; a publication's
/// stage writes its journal at the end.
pub proof fn law_stages_go_on_in_order(stage: StageModel, name: String, piece: Vec<u8>)
    ensures
        stage.step is MakeDirectory ==> staging::stage_after(stage, StageAnswer::Done) == (StageModel {
            step: StepModel::PickName,
            ..stage
        }),
        stage.step is PickName ==> ({
            let after = staging::stage_after(stage, StageAnswer::Name(name));
            after.step is CreateLock && after.name == name@ && after.taken == stage.taken
        }),
        stage.step is CreateLock ==> staging::stage_after(stage, StageAnswer::Done).step is TakeLock,
        stage.step is TakeLock ==> staging::stage_after(stage, StageAnswer::Done).step is CreateData,
        stage.step is CreateData ==> staging::stage_after(stage, StageAnswer::Done).step is Read,
        stage.step is Read && stage.taken.len() + piece@.len() <= stage.limit ==> ({
            let after = staging::stage_after(stage, StageAnswer::Piece(piece));
            after.step == StepModel::Write(piece@) && after.taken == stage.taken + piece@ && after.fault
                == stage.fault
        }),
        stage.step is Read && stage.limit < stage.taken.len() + piece@.len() <= u64::MAX ==> ({
            let after = staging::stage_after(stage, StageAnswer::Piece(piece));
            after.step is CleanUp && after.fault == Some(
                StageFault::TooLarge {
                    limit: stage.limit,
                    attempted: (stage.taken.len() + piece@.len()) as u64,
                },
            )
        }),
        stage.step is Write ==> staging::stage_after(stage, StageAnswer::Done).step is Read,
        stage.step is Read ==> staging::stage_after(stage, StageAnswer::Ended).step is SyncData,
        stage.step is SyncData ==> ({
            let after = staging::stage_after(stage, StageAnswer::Done);
            &&& after.record == Some((digest::sha256_hex(stage.taken), stage.taken.len() as u64))
            &&& stage.kind == StageKind::Blob ==> after.step is SyncDirectory
            &&& stage.kind == StageKind::Publication ==> after.step == StepModel::WriteJournal(
                publication::journal_text(
                    JournalState::Staged,
                    digest::sha256_hex(stage.taken),
                    stage.taken.len() as u64,
                ),
            )
        }),
        stage.step is SyncDirectory || stage.step is WriteJournal ==> staging::stage_after(
            stage,
            StageAnswer::Done,
        ).step is Staged,
{
}

/// A name that is taken is given up for another, sixteen times at most for a source on its own; what
/// fails before there is a data file leaves at most the lock, which goes, and what fails later is cleaned
/// up; then the failure stands.
pub proof fn law_how_stages_fail(stage: StageModel, error: StoreError)
    ensures
        stage.step is CreateLock ==> ({
            let after = staging::stage_after(stage, StageAnswer::Exists);
            if stage.kind == StageKind::Blob && stage.tries >= 16 {
                after.step is Failed && after.fault == Some(StageFault::NamesExhausted)
            } else {
                after.step is PickName && after.fault == stage.fault
            }
        }),
        ({
            let after = staging::stage_after(stage, StageAnswer::Failed(error));
            &&& stage.step is MakeDirectory || stage.step is PickName || stage.step is CreateLock || stage.step
                is TakeLock ==> after.step is Failed
            &&& stage.step is CreateData ==> after.step is RemoveLock
            &&& stage.step is Read || stage.step is Write || stage.step is SyncData || stage.step
                is SyncDirectory || stage.step is WriteJournal ==> after.step is CleanUp
            &&& !(stage.step is RemoveLock || stage.step is CleanUp || stage.step is Staged || stage.step
                is Failed) ==> after.fault == Some(StageFault::Reported(error))
            &&& stage.step is RemoveLock || stage.step is CleanUp ==> after.step is Failed && after.fault
                == stage.fault
        }),
        stage.step is RemoveLock || stage.step is CleanUp ==> staging::stage_after(
            stage,
            StageAnswer::Done,
        ).step is Failed,
{
}

/// A stage starts with nothing taken in, and comes to what it recorded or to its failure.
pub proof fn law_stages_end_with_their_record(
    kind: StageKind,
    limit: u64,
    run: Staging,
    outcome: Option<Result<BlobRecord, StageFault>>,
)
    requires
        call_ensures(Staging::into_outcome, (run,), outcome),
    ensures
        staging::unstaged(kind, limit).taken.len() == 0,
        staging::unstaged(kind, limit).tries == 0,
        staging::unstaged(kind, limit).limit == limit,
        staging::unstaged(kind, limit).kind == kind,
        staging::unstaged(kind, limit).step is MakeDirectory,
        outcome is Some <==> run@.step is Staged || run@.step is Failed,
        outcome matches Some(Ok(record)) ==> run@.record == Some(record@),
        outcome matches Some(Err(fault)) ==> run@.fault == Some(fault),
{
}

// ---- storing one source ----

/// A source that is stored on its own is recorded with its size and linked in one transaction: the size
/// that is recorded must be its own, and a file that stands there must be sound.
pub proof fn law_storing_goes_on_in_order(run: FinalModel, size: i64)
    ensures
        run.step is Begin ==> ({
            let after = finalizing::run_after(run, FinalAnswer::Done);
            if run.blob@.1 < 0x8000_0000_0000_0000 {
                after.step == (FinalStep::Insert { byte_size: run.blob@.1 as i64 }) && after.open
            } else {
                after.step is AskTransaction && after.fault == Some(FinalFault::TooLarge)
            }
        }),
        run.step is Insert ==> finalizing::run_after(run, FinalAnswer::Done).step is AskSize,
        run.step is AskSize ==> ({
            let after = finalizing::run_after(run, FinalAnswer::Size(Some(size)));
            if size == run.blob@.1 {
                after.step is MakeDirectory
            } else {
                after.step is AskTransaction && after.fault == Some(FinalFault::RecordedSize(size))
            }
        }),
        run.step is MakeDirectory ==> finalizing::run_after(run, FinalAnswer::Done).step is Link,
        run.step is Link ==> finalizing::run_after(run, FinalAnswer::Done).step is SyncLink
            && finalizing::run_after(run, FinalAnswer::Done).linked,
        run.step is Link ==> finalizing::run_after(run, FinalAnswer::Exists).step is VerifyFile
            && finalizing::run_after(run, FinalAnswer::Exists).linked == run.linked,
        run.step is SyncLink || run.step is VerifyFile ==> finalizing::run_after(
            run,
            FinalAnswer::Done,
        ).step is Commit,
        run.step is Commit ==> finalizing::run_after(run, FinalAnswer::Done).step is Stored,
{
}

/// What fails while a source is stored is undone: while the transaction is open its link goes and the
/// transaction is rolled back; where it is not, what was committed is looked at first, and the link goes
/// exactly where the row is not there.
pub proof fn law_storing_is_undone(run: FinalModel, error: StoreError, recorded: Option<i64>)
    ensures
        ({
            let failed = finalizing::run_after(run, FinalAnswer::Failed(error));
            &&& run.step is Begin ==> failed.step is NotStored && failed.fault == Some(
                FinalFault::Reported(error),
            )
            &&& run.step is Insert || run.step is AskSize || run.step is MakeDirectory || run.step is Link
                || run.step is SyncLink || run.step is VerifyFile || run.step is Commit ==> failed.step
                is AskTransaction && failed.fault == Some(FinalFault::Reported(error))
            &&& run.step is Unlink || run.step is AskAgain ==> failed.step is RollBack && failed.undo_fault
                == Some(error)
            &&& run.step is BeginAgain ==> failed.step is NotStored && failed.undo_fault == Some(error)
            &&& run.step is RollBack ==> failed.step is NotStored && (run.undo_fault is None
                ==> failed.undo_fault == Some(error)) && (run.undo_fault is Some ==> failed.undo_fault
                == run.undo_fault)
        }),
        run.step is AskTransaction ==> finalizing::run_after(run, FinalAnswer::Flag(true)).step == (
        if run.linked {
            FinalStep::Unlink
        } else {
            FinalStep::RollBack
        }),
        run.step is AskTransaction ==> finalizing::run_after(run, FinalAnswer::Flag(false)).step is BeginAgain,
        run.step is BeginAgain ==> finalizing::run_after(run, FinalAnswer::Done).step is AskAgain,
        run.step is AskAgain && run.blob@.1 <= i64::MAX ==> finalizing::run_after(
            run,
            FinalAnswer::Size(recorded),
        ).step == (
        if run.linked && !(recorded is Some && recorded->0 == run.blob@.1) {
            FinalStep::Unlink
        } else {
            FinalStep::RollBack
        }),
        run.step is Unlink ==> finalizing::run_after(run, FinalAnswer::Done).step is RollBack,
        run.step is RollBack ==> finalizing::run_after(run, FinalAnswer::Done).step is NotStored,
{
}

/// A source that was stored is told as it is; of one that was not the failure is told, but a failure to
/// undo first.
pub proof fn law_storing_ends_with_the_source(
    run: Finalizing,
    outcome: Option<Result<BlobRecord, StoreError>>,
)
    requires
        call_ensures(Finalizing::into_outcome, (run,), outcome),
    ensures
        outcome is Some <==> run@.step is Stored || run@.step is NotStored,
        outcome matches Some(Ok(record)) ==> run@.step is Stored && record == run@.blob,
        outcome matches Some(Err(error)) ==> {
            &&& run@.undo_fault is Some ==> error == run@.undo_fault->0
            &&& run@.undo_fault is None ==> run@.fault is Some && (
            run@.fault->0 matches FinalFault::Reported(reported) ==> error == reported)
        },
{
}

/// A link that was made goes exactly where its row was not kept: the transaction was still open, or the
/// record does not match.
pub proof fn law_which_links_go(installed: bool, active: bool, matches: bool, yes: bool)
    requires
        call_ensures(blob::removes_installed_file, (installed, active, matches), yes),
    ensures
        yes ==> installed,
        installed && active ==> yes,
        installed && !active ==> (yes <==> !matches),
{
}

/// Recovery removes the file of a source exactly where a publication was putting it in place and the
/// source is not recorded.
pub proof fn law_which_final_files_go(entry: &JournalEntry, recorded: bool, yes: bool)
    requires
        call_ensures(publication::removes_final_file, (entry, recorded), yes),
    ensures
        recorded ==> !yes,
        !entry.finalizing ==> !yes,
        entry.finalizing && !recorded ==> yes,
{
}

/// The sources of a publication are those of its files, each before those of its support files, in
/// their order: with one more file they are as before, then the file's, then its support files'.
pub proof fn law_sources_follow_their_files(files: Seq<PublicationFile>, file: PublicationFile, i: int)
    ensures
        ({
            let before = publication::file_blobs(files);
            let after = publication::file_blobs(files.push(file));
            &&& files.len() == 0 ==> before.len() == 0
            &&& after.len() == before.len() + 1 + file.support_assets@.len()
            &&& 0 <= i < before.len() ==> after[i] == before[i]
            &&& after[before.len() as int] == file.blob.record
            &&& 0 <= i < file.support_assets@.len() ==> after[before.len() + 1 + i]
                == file.support_assets@[i].blob.record
        }),
{
    assert(files.push(file).drop_last() =~= files);
    assert(files.push(file).last() == file);
    let assets = publication::asset_blobs(file.support_assets@);
    assert(assets.len() == file.support_assets@.len());
}

// ---- resolving ----

/// A session is resolved by keeping its project, finding the project and finding the session; one that
/// is there is taken as it is, and otherwise public IDs are offered from six characters on, one more
/// after each that is taken, until one is free.
pub proof fn law_how_sessions_are_resolved(
    run: Resolving,
    id: i64,
    found: SessionRecord,
    candidate: String,
    inserted: usize,
)
    ensures
        run.step is KeepProject ==> resolving::resolve_after(run, ResolveAnswer::Done).step is FindProject,
        run.step is FindProject ==> resolving::resolve_after(run, ResolveAnswer::Project(id)).step == (
        ResolveStep::FindSession { project_id: id }),
        run.step matches ResolveStep::FindSession { project_id } ==> {
            let there = resolving::resolve_after(run, ResolveAnswer::Session(Some(found)));
            let missing = resolving::resolve_after(run, ResolveAnswer::Session(None));
            &&& there.step is Commit && there.session == Some(found)
            &&& missing.step == (ResolveStep::Offer { project_id, length: 6 })
        },
        run.step matches ResolveStep::Offer { project_id, length } ==> {
            let after = resolving::resolve_after(
                run,
                ResolveAnswer::Offered { candidate, inserted, session_id: id },
            );
            &&& inserted == 1 ==> after.step is Commit && after.session == Some(
                SessionRecord { id, public_id: candidate, project_id },
            )
            &&& inserted != 1 && length < usize::MAX ==> after.step == (ResolveStep::Offer {
                project_id,
                length: (length + 1) as usize,
            }) && after.session == run.session
            &&& inserted != 1 && length == usize::MAX ==> after.step is Unresolved && after.fault == Some(
                StoreError::PublicIdExhausted,
            )
        },
        run.step is Commit ==> resolving::resolve_after(run, ResolveAnswer::Done) == (Resolving {
            step: ResolveStep::Resolved,
            ..run
        }),
{
}

/// Any failure ends the resolving, and is what is told of it; a session is told once it is committed.
pub proof fn law_how_resolving_ends(
    run: Resolving,
    error: StoreError,
    outcome: Option<Result<SessionRecord, StoreError>>,
)
    requires
        call_ensures(Resolving::into_outcome, (run,), outcome),
    ensures
        !(run.step is Resolved) && !(run.step is Unresolved) ==> {
            let after = resolving::resolve_after(run, ResolveAnswer::Failed(error));
            after.step is Unresolved && after.fault == Some(error)
        },
        run.step is Resolved && run.session is Some ==> outcome == Some(
            Ok::<SessionRecord, StoreError>(run.session->0),
        ),
        run.step is Unresolved && run.fault is Some ==> outcome == Some(
            Err::<SessionRecord, StoreError>(run.fault->0),
        ),
        !(run.step is Resolved) && !(run.step is Unresolved) ==> outcome is None,
{
}

// ---- deleting sources ----

/// Queued sources are deleted one after the other: the row goes first where nothing refers to it, then
/// the source leaves the queue, and only where the row went the file goes too; each in a transaction of
/// its own, and only what went is counted.
pub proof fn law_how_sources_are_deleted(m: DrainModel, rows: u64, removed: bool, blob: usize)
    requires
        m.deleted < u64::MAX,
        m.queued.len() <= usize::MAX,
    ensures
        m.step == (DrainStep::Begin { blob }) ==> draining::drain_after(m, DrainAnswer::Done).step == (
        DrainStep::RemoveRow { blob }),
        m.step == (DrainStep::RemoveRow { blob }) ==> draining::drain_after(
            m,
            DrainAnswer::Rows(rows),
        ).step == (DrainStep::Unqueue { blob, removed: rows != 0 }),
        m.step == (DrainStep::Unqueue { blob, removed: true }) ==> draining::drain_after(
            m,
            DrainAnswer::Done,
        ).step == (DrainStep::RemoveFile { blob }),
        m.step == (DrainStep::Unqueue { blob, removed: false }) ==> draining::drain_after(
            m,
            DrainAnswer::Done,
        ).step == (DrainStep::Commit { blob, removed: false }),
        m.step == (DrainStep::RemoveFile { blob }) ==> draining::drain_after(m, DrainAnswer::Done).step == (
        DrainStep::SyncDirectory { blob }),
        m.step == (DrainStep::SyncDirectory { blob }) ==> draining::drain_after(
            m,
            DrainAnswer::Done,
        ).step == (DrainStep::Commit { blob, removed: true }),
        m.step == (DrainStep::Commit { blob, removed }) ==> ({
            let after = draining::drain_after(m, DrainAnswer::Done);
            &&& after.deleted == m.deleted + (if removed {
                1int
            } else {
                0
            })
            &&& blob + 1 >= m.queued.len() ==> after.step is Drained
            &&& blob + 1 < m.queued.len() && blob::is_blob_hash(m.queued[blob + 1]) ==> after.step == (
            DrainStep::Begin { blob: (blob + 1) as usize })
            &&& blob + 1 < m.queued.len() && !blob::is_blob_hash(m.queued[blob + 1]) ==> after.step
                is NotDrained && after.fault == Some(DrainFault::InvalidHash)
        }),
{
}

/// What fails while sources are deleted ends the deletion, with its transaction rolled back where it is
/// open; what was deleted before stays counted.
pub proof fn law_how_deletions_end(
    m: DrainModel,
    error: StoreError,
    run: Draining,
    outcome: Option<Result<u64, DrainFault>>,
)
    requires
        call_ensures(Draining::into_outcome, (run,), outcome),
    ensures
        ({
            let failed = draining::drain_after(m, DrainAnswer::Failed(error));
            &&& failed.deleted == m.deleted
            &&& m.step is List || m.step is Begin ==> failed.step is NotDrained && failed.fault == Some(
                DrainFault::Reported(error),
            )
            &&& m.step is RemoveRow || m.step is Unqueue || m.step is RemoveFile || m.step is SyncDirectory
                || m.step is Commit ==> failed.step is AskTransaction && failed.fault == Some(
                DrainFault::Reported(error),
            )
        }),
        m.step is AskTransaction ==> draining::drain_after(m, DrainAnswer::Flag(true)).step is RollBack,
        m.step is AskTransaction ==> draining::drain_after(m, DrainAnswer::Flag(false)).step is NotDrained,
        m.step is RollBack ==> draining::drain_after(m, DrainAnswer::Done).step is NotDrained,
        run.step is Drained ==> outcome == Some(Ok::<u64, DrainFault>(run.deleted)),
        run.step is NotDrained && run.fault is Some ==> outcome == Some(Err::<u64, DrainFault>(run.fault->0)),
        !(run.step is Drained) && !(run.step is NotDrained) ==> outcome is None,
{
}

// ---- removing sessions ----

/// Sessions are looked at before any goes, and what is theirs is counted; then they go one after the
/// other, then their projects, then their sources are queued, and each is counted by the rows that went.
pub proof fn law_how_sessions_are_removed(
    m: PurgeModel,
    contents: SessionContents,
    rows: u64,
    next: PurgeModel,
    i: usize,
    id: i64,
)
    requires
        m.targets.len() <= usize::MAX,
        m.project_ids.len() <= usize::MAX,
        m.blob_hashes.len() <= usize::MAX,
    ensures
        m.step == (PurgeStep::LookAt { target: i, session_id: id }) && purging::follows(
            m,
            PurgeAnswer::Contents(contents),
            next,
        ) && purging::has_room(m, PurgeAnswer::Contents(contents)) ==> {
            &&& next.report.posts_deleted == m.report.posts_deleted + contents.posts
            &&& next.report.post_files_deleted == m.report.post_files_deleted + contents.post_files
            &&& next.report.support_assets_deleted == m.report.support_assets_deleted
                + contents.support_assets
            &&& next.report.blob_references_deleted == m.report.blob_references_deleted
                + contents.blob_references
            &&& next.report.sessions_deleted == m.report.sessions_deleted
            &&& next.report.projects_deleted == m.report.projects_deleted
            &&& next.report.blobs_queued == m.report.blobs_queued
            &&& next.project_ids.to_set().contains(contents.project_id)
            &&& i + 1 < m.targets.len() ==> next.step == (PurgeStep::LookAt {
                target: (i + 1) as usize,
                session_id: m.targets[i + 1],
            })
            &&& i + 1 >= m.targets.len() && m.targets.len() > 0 ==> next.step == (
            PurgeStep::RemoveSession { target: 0, session_id: m.targets[0] })
        },
        m.step == (PurgeStep::RemoveSession { target: i, session_id: id }) && purging::follows(
            m,
            PurgeAnswer::Rows(rows),
            next,
        ) && m.report.sessions_deleted + rows <= u64::MAX ==> {
            &&& next.report == (LifecycleReport {
                sessions_deleted: (m.report.sessions_deleted + rows) as u64,
                ..m.report
            })
            &&& i + 1 < m.targets.len() ==> next.step == (PurgeStep::RemoveSession {
                target: (i + 1) as usize,
                session_id: m.targets[i + 1],
            })
            &&& i + 1 >= m.targets.len() && m.project_ids.len() > 0 ==> next.step == (
            PurgeStep::RemoveProject { project: 0, project_id: m.project_ids[0] })
        },
        m.step == (PurgeStep::RemoveProject { project: i, project_id: id }) && purging::follows(
            m,
            PurgeAnswer::Rows(rows),
            next,
        ) && m.report.projects_deleted + rows <= u64::MAX ==> {
            &&& next.report == (LifecycleReport {
                projects_deleted: (m.report.projects_deleted + rows) as u64,
                ..m.report
            })
            &&& i + 1 < m.project_ids.len() ==> next.step == (PurgeStep::RemoveProject {
                project: (i + 1) as usize,
                project_id: m.project_ids[i + 1],
            })
            &&& i + 1 >= m.project_ids.len() && m.blob_hashes.len() > 0 ==> next.step == (
            PurgeStep::Queue { blob: 0 })
            &&& i + 1 >= m.project_ids.len() && m.blob_hashes.len() == 0 ==> next.step is Commit
        },
        m.step == (PurgeStep::Queue { blob: i }) && purging::follows(m, PurgeAnswer::Rows(rows), next)
            && m.report.blobs_queued + rows <= u64::MAX ==> {
            &&& next.report == (LifecycleReport {
                blobs_queued: (m.report.blobs_queued + rows) as u64,
                ..m.report
            })
            &&& i + 1 < m.blob_hashes.len() ==> next.step == (PurgeStep::Queue { blob: (i + 1) as usize })
            &&& i + 1 >= m.blob_hashes.len() ==> next.step is Commit
        },
        m.step is Commit && purging::follows(m, PurgeAnswer::Done, next) ==> next.step is Purged
            && next.report == m.report,
{
    if m.step == (PurgeStep::LookAt { target: i, session_id: id }) && purging::follows(
        m,
        PurgeAnswer::Contents(contents),
        next,
    ) {
        assert(m.project_ids.to_set().insert(contents.project_id).contains(contents.project_id));
    }
}

/// Any failure ends the removal and is told; a removal that came to its end tells its report.
pub proof fn law_how_removals_end(
    m: PurgeModel,
    error: StoreError,
    next: PurgeModel,
    run: Purging,
    outcome: Option<Result<LifecycleReport, StoreError>>,
)
    requires
        call_ensures(Purging::into_outcome, (run,), outcome),
    ensures
        !(m.step is Purged) && !(m.step is NotPurged) && purging::follows(
            m,
            PurgeAnswer::Failed(error),
            next,
        ) ==> next.step is NotPurged && next.fault == Some(error),
        run.step is Purged ==> outcome == Some(Ok::<LifecycleReport, StoreError>(run.report)),
        run.step is NotPurged && run.fault is Some ==> outcome == Some(
            Err::<LifecycleReport, StoreError>(run.fault->0),
        ),
        !(run.step is Purged) && !(run.step is NotPurged) ==> outcome is None,
{
}

} // verus!
