//! What the storing of a blob leaves in the database and on disk, where every step does what it
//! says.
use vstd::prelude::*;
use crate::digest;
use crate::storage::blob::BlobRecord;
use crate::storage::finalizing;
use crate::storage::finalizing::{FinalAnswer, FinalModel, FinalStep};

verus! {

/// The recorded sizes of the blobs, and the contents of the files at their paths, both by digest.
#[verifier::ext_equal]
pub struct Kept {
    pub blobs: Map<Seq<char>, int>,
    pub files: Map<Seq<char>, Seq<u8>>,
}

/// Whether the answer is the recorded size.
pub open spec fn is_recorded(kept: Kept, hash: Seq<char>, answer: Option<i64>) -> bool {
    match answer {
        Some(size) => kept.blobs.contains_key(hash) && kept.blobs[hash] == size,
        None => !kept.blobs.contains_key(hash),
    }
}

/// What is kept with a row for the blob, unless it has one.
pub open spec fn with_row(kept: Kept, blob: BlobRecord) -> Kept {
    if kept.blobs.contains_key(blob@.0) {
        kept
    } else {
        Kept { blobs: kept.blobs.insert(blob@.0, blob@.1 as int), ..kept }
    }
}

/// Whether a step did what it says and was answered accordingly. `staged` are the bytes of the
/// staged file, and `first` is what was kept when the transaction began.
pub open spec fn performed(
    staged: Seq<u8>,
    first: Kept,
    blob: BlobRecord,
    step: FinalStep,
    answer: FinalAnswer,
    before: Kept,
    after: Kept,
) -> bool {
    let hash = blob@.0;
    match (step, answer) {
        (FinalStep::Insert { .. }, FinalAnswer::Done) => after == with_row(before, blob),
        (FinalStep::AskSize, FinalAnswer::Size(size)) => after == before && is_recorded(
            before,
            hash,
            size,
        ),
        (FinalStep::AskAgain, FinalAnswer::Size(size)) => after == before && is_recorded(
            before,
            hash,
            size,
        ),
        (FinalStep::Link, FinalAnswer::Done) => !before.files.contains_key(hash) && after == (Kept {
            files: before.files.insert(hash, staged),
            ..before
        }),
        (FinalStep::Link, FinalAnswer::Exists) => after == before && before.files.contains_key(
            hash,
        ),
        (FinalStep::VerifyFile, FinalAnswer::Done) => {
            &&& after == before
            &&& before.files.contains_key(hash)
            &&& before.files[hash].len() == blob@.1
            &&& digest::sha256_hex(before.files[hash]) == hash
        },
        (FinalStep::Unlink, FinalAnswer::Done) => after == (Kept {
            files: before.files.remove(hash),
            ..before
        }),
        (FinalStep::RollBack, FinalAnswer::Done) => after == (Kept {
            blobs: first.blobs,
            ..before
        }),
        (FinalStep::AskTransaction, FinalAnswer::Flag(open)) => if open {
            after == before
        } else {
            after == before || after == (Kept { blobs: first.blobs, ..before })
        },
        _ => after == before,
    }
}

/// Whether these are the runs, the answers and what was kept of one storing, step by step.
pub open spec fn stores(
    staged: Seq<u8>,
    blob: BlobRecord,
    runs: Seq<FinalModel>,
    answers: Seq<FinalAnswer>,
    all: Seq<Kept>,
) -> bool {
    &&& runs.len() == answers.len() + 1
    &&& all.len() == runs.len()
    &&& runs[0] == finalizing::unstored(blob)
    &&& forall|k: int|
        0 <= k < answers.len() ==> {
            &&& runs[k + 1] == finalizing::run_after(runs[k], #[trigger] answers[k])
            &&& performed(staged, all[0], blob, runs[k].step, answers[k], all[k], all[k + 1])
        }
}

/// What is kept with the file of the blob, where this run made it.
pub open spec fn with_file(first: Kept, run: FinalModel, staged: Seq<u8>) -> Map<
    Seq<char>,
    Seq<u8>,
> {
    if run.linked {
        first.files.insert(run.blob@.0, staged)
    } else {
        first.files
    }
}

/// What holds while nothing went wrong: what is kept differs from the start by the blob's row, once
/// it was inserted, and by its file, once it was made.
pub open spec fn on_the_way(staged: Seq<u8>, first: Kept, run: FinalModel, now: Kept) -> bool {
    let hash = run.blob@.0;
    match run.step {
        FinalStep::Begin | FinalStep::Insert { .. } => now == first && !run.linked,
        FinalStep::AskSize => now == with_row(first, run.blob) && !run.linked,
        FinalStep::MakeDirectory | FinalStep::Link => {
            &&& now == with_row(first, run.blob)
            &&& !run.linked
            &&& now.blobs[hash] == run.blob@.1
        },
        FinalStep::VerifyFile => {
            &&& now == with_row(first, run.blob)
            &&& !run.linked
            &&& now.blobs[hash] == run.blob@.1
            &&& first.files.contains_key(hash)
        },
        FinalStep::SyncLink => {
            &&& run.linked
            &&& !first.files.contains_key(hash)
            &&& now == (Kept {
                files: first.files.insert(hash, staged),
                ..with_row(first, run.blob)
            })
            &&& now.blobs[hash] == run.blob@.1
        },
        FinalStep::Commit | FinalStep::Stored => {
            &&& run.linked <==> !first.files.contains_key(hash)
            &&& now == (Kept {
                files: with_file(first, run, staged),
                ..with_row(first, run.blob)
            })
            &&& now.blobs[hash] == run.blob@.1
            &&& !run.linked ==> now.files[hash].len() == run.blob@.1 && digest::sha256_hex(
                now.files[hash],
            ) == hash
        },
        _ => run.fault is Some,
    }
}

proof fn lemma_on_the_way(
    staged: Seq<u8>,
    first: Kept,
    run: FinalModel,
    answer: FinalAnswer,
    before: Kept,
    after: Kept,
)
    requires
        finalizing::sound(run),
        on_the_way(staged, first, run, before),
        performed(staged, first, run.blob, run.step, answer, before, after),
    ensures
        on_the_way(staged, first, finalizing::run_after(run, answer), after),
{
}

proof fn lemma_stores(
    staged: Seq<u8>,
    blob: BlobRecord,
    runs: Seq<FinalModel>,
    answers: Seq<FinalAnswer>,
    all: Seq<Kept>,
    k: int,
)
    requires
        stores(staged, blob, runs, answers, all),
        0 <= k < runs.len(),
    ensures
        finalizing::sound(runs[k]),
        runs[k].blob == blob,
        on_the_way(staged, all[0], runs[k], all[k]),
    decreases k,
{
    if k > 0 {
        lemma_stores(staged, blob, runs, answers, all, k - 1);
        finalizing::law_storing_stays_sound(runs[k - 1], answers[k - 1], blob);
        lemma_on_the_way(staged, all[0], runs[k - 1], answers[k - 1], all[k - 1], all[k]);
    } else {
        finalizing::law_storing_stays_sound(runs[0], FinalAnswer::Done, blob);
    }
}

/// A blob that was stored has one row, with its size, and a file with its bytes: the staged bytes
/// where there was none before, and otherwise the file that was there, whose digest and size are
/// the blob's. Nothing else changes.
pub proof fn law_stored_blobs_are_kept(
    staged: Seq<u8>,
    blob: BlobRecord,
    runs: Seq<FinalModel>,
    answers: Seq<FinalAnswer>,
    all: Seq<Kept>,
)
    requires
        stores(staged, blob, runs, answers, all),
        blob@.0 == digest::sha256_hex(staged),
        blob@.1 == staged.len(),
        runs.last().step is Stored,
    ensures
        all.last().blobs == all[0].blobs.insert(blob@.0, blob@.1 as int),
        all[0].blobs.contains_key(blob@.0) ==> all[0].blobs[blob@.0] == blob@.1,
        all[0].files.contains_key(blob@.0) ==> all.last().files == all[0].files,
        !all[0].files.contains_key(blob@.0) ==> all.last().files == all[0].files.insert(
            blob@.0,
            staged,
        ),
        all.last().files.contains_key(blob@.0),
        all.last().files[blob@.0].len() == blob@.1,
        digest::sha256_hex(all.last().files[blob@.0]) == blob@.0,
{
    lemma_stores(staged, blob, runs, answers, all, runs.len() - 1);
    assert(all.last().blobs =~= all[0].blobs.insert(blob@.0, blob@.1 as int));
}

/// Storing the same bytes once more changes nothing: there is still one row and one file.
pub proof fn law_storing_again_changes_nothing(
    staged: Seq<u8>,
    blob: BlobRecord,
    runs: Seq<FinalModel>,
    answers: Seq<FinalAnswer>,
    all: Seq<Kept>,
    again: BlobRecord,
    later_runs: Seq<FinalModel>,
    later_answers: Seq<FinalAnswer>,
    later: Seq<Kept>,
)
    requires
        stores(staged, blob, runs, answers, all),
        blob@.0 == digest::sha256_hex(staged),
        blob@.1 == staged.len(),
        runs.last().step is Stored,
        again@ == blob@,
        stores(staged, again, later_runs, later_answers, later),
        later[0] == all.last(),
        later_runs.last().step is Stored,
    ensures
        later.last() == all.last(),
        later_runs.last().blob@ == runs.last().blob@,
{
    law_stored_blobs_are_kept(staged, blob, runs, answers, all);
    law_stored_blobs_are_kept(staged, again, later_runs, later_answers, later);
    lemma_stores(staged, blob, runs, answers, all, runs.len() - 1);
    lemma_stores(staged, again, later_runs, later_answers, later, later_runs.len() - 1);
    assert(later.last().blobs =~= all.last().blobs);
    assert(later.last() =~= all.last());
}

/// Whether nothing goes wrong: no step fails, and the database does not hold another size.
pub open spec fn is_faultless(blob: BlobRecord, first: Kept, answers: Seq<FinalAnswer>) -> bool {
    &&& blob@.1 <= i64::MAX
    &&& first.blobs.contains_key(blob@.0) ==> first.blobs[blob@.0] == blob@.1
    &&& forall|k: int| 0 <= k < answers.len() ==> !((#[trigger] answers[k]) is Failed)
}

proof fn lemma_faultless(
    staged: Seq<u8>,
    blob: BlobRecord,
    runs: Seq<FinalModel>,
    answers: Seq<FinalAnswer>,
    all: Seq<Kept>,
    k: int,
)
    requires
        stores(staged, blob, runs, answers, all),
        is_faultless(blob, all[0], answers),
        0 <= k < runs.len(),
    ensures
        finalizing::goes_on(runs[k].step) || runs[k].step is Stored,
    decreases k,
{
    if k > 0 {
        lemma_faultless(staged, blob, runs, answers, all, k - 1);
        lemma_stores(staged, blob, runs, answers, all, k - 1);
        assert(!(answers[k - 1] is Failed));
    }
}

/// Where nothing goes wrong a storing never gives up: it is on its way until the blob is stored.
pub proof fn law_faultless_storing_succeeds(
    staged: Seq<u8>,
    blob: BlobRecord,
    runs: Seq<FinalModel>,
    answers: Seq<FinalAnswer>,
    all: Seq<Kept>,
)
    requires
        stores(staged, blob, runs, answers, all),
        is_faultless(blob, all[0], answers),
    ensures
        finalizing::goes_on(runs.last().step) || runs.last().step is Stored,
        runs.last().fault is None,
{
    lemma_faultless(staged, blob, runs, answers, all, runs.len() - 1);
    lemma_stores(staged, blob, runs, answers, all, runs.len() - 1);
}

// ---- a storing that gives up ----

/// Whether undoing goes well at every step: the transaction is still open, and no step of undoing
/// fails.
pub open spec fn undoes_well(runs: Seq<FinalModel>, answers: Seq<FinalAnswer>) -> bool {
    forall|k: int|
        0 <= k < answers.len() ==> {
            &&& (#[trigger] answers[k]) != FinalAnswer::Flag(false)
            &&& runs[k].step is Unlink || runs[k].step is RollBack ==> !(answers[k] is Failed)
        }
}

/// What holds while a storing is undone.
pub open spec fn on_the_way_back(staged: Seq<u8>, first: Kept, run: FinalModel, now: Kept) -> bool {
    let hash = run.blob@.0;
    match run.step {
        FinalStep::AskTransaction | FinalStep::Unlink => {
            &&& now.files == with_file(first, run, staged)
            &&& run.linked ==> !first.files.contains_key(hash)
        },
        FinalStep::RollBack => now.files == first.files,
        FinalStep::NotStored => now == first,
        FinalStep::BeginAgain | FinalStep::AskAgain => false,
        _ => true,
    }
}

proof fn lemma_undone(
    staged: Seq<u8>,
    blob: BlobRecord,
    runs: Seq<FinalModel>,
    answers: Seq<FinalAnswer>,
    all: Seq<Kept>,
    k: int,
)
    requires
        stores(staged, blob, runs, answers, all),
        undoes_well(runs, answers),
        0 <= k < runs.len(),
    ensures
        on_the_way_back(staged, all[0], runs[k], all[k]),
    decreases k,
{
    if k > 0 {
        lemma_undone(staged, blob, runs, answers, all, k - 1);
        lemma_stores(staged, blob, runs, answers, all, k - 1);
        let first = all[0];
        let hash = blob@.0;
        assert(answers[k - 1] != FinalAnswer::Flag(false));
        if !first.files.contains_key(hash) {
            assert(first.files.insert(hash, staged).remove(hash) =~= first.files);
        }
        assert((Kept { blobs: first.blobs, ..all[k - 1] }) =~= (Kept {
            files: all[k - 1].files,
            ..first
        }));
    }
}

/// A storing that gives up, and whose undoing goes well, leaves the rows and the files as they
/// were.
pub proof fn law_failed_storing_leaves_nothing(
    staged: Seq<u8>,
    blob: BlobRecord,
    runs: Seq<FinalModel>,
    answers: Seq<FinalAnswer>,
    all: Seq<Kept>,
)
    requires
        stores(staged, blob, runs, answers, all),
        undoes_well(runs, answers),
        runs.last().step is NotStored,
    ensures
        all.last() == all[0],
{
    lemma_undone(staged, blob, runs, answers, all, runs.len() - 1);
}

/// A storing that comes to its end keeps the recorded sizes of all blobs that were there.
pub proof fn law_storing_keeps_rows(
    staged: Seq<u8>,
    blob: BlobRecord,
    runs: Seq<FinalModel>,
    answers: Seq<FinalAnswer>,
    all: Seq<Kept>,
    hash: Seq<char>,
)
    requires
        stores(staged, blob, runs, answers, all),
        runs.last().step is Stored || runs.last().step is NotStored && undoes_well(runs, answers),
        all[0].blobs.contains_key(hash),
    ensures
        all.last().blobs.contains_key(hash),
        all.last().blobs[hash] == all[0].blobs[hash],
{
    lemma_stores(staged, blob, runs, answers, all, runs.len() - 1);
    if runs.last().step is NotStored {
        lemma_undone(staged, blob, runs, answers, all, runs.len() - 1);
    }
}

/// A storing that comes to its end keeps all files that were there.
pub proof fn law_storing_keeps_files(
    staged: Seq<u8>,
    blob: BlobRecord,
    runs: Seq<FinalModel>,
    answers: Seq<FinalAnswer>,
    all: Seq<Kept>,
    hash: Seq<char>,
)
    requires
        stores(staged, blob, runs, answers, all),
        runs.last().step is Stored || runs.last().step is NotStored && undoes_well(runs, answers),
        all[0].files.contains_key(hash),
    ensures
        all.last().files.contains_key(hash),
        all.last().files[hash] == all[0].files[hash],
{
    lemma_stores(staged, blob, runs, answers, all, runs.len() - 1);
    if runs.last().step is NotStored {
        lemma_undone(staged, blob, runs, answers, all, runs.len() - 1);
    }
}

} // verus!
