//! Storing bytes as a blob, from the source to the row and the file.
use vstd::prelude::*;
use crate::digest;
use crate::storage::blob::BlobRecord;
use crate::storage::finalizing;
use crate::storage::finalizing::{FinalAnswer, FinalModel};
use crate::storage::keeping;
use crate::storage::keeping::Kept;
use crate::storage::staging;
use crate::storage::staging::{StageAnswer, StageKind, StageModel, StepModel};

verus! {

/// The bytes of the source that were not read, and the contents of the files that a stage made, by
/// their extensions.
#[verifier::ext_equal]
pub struct Held {
    pub source: Seq<u8>,
    pub left: Map<Seq<char>, Seq<u8>>,
}

/// What is held with another content of a file.
pub open spec fn with_content(held: Held, extension: Seq<char>, content: Seq<u8>) -> Held {
    Held { left: held.left.insert(extension, content), ..held }
}

/// Whether the step of a stage did what it says, and was answered accordingly.
pub open spec fn performed(
    stage: StageModel,
    answer: StageAnswer,
    before: Held,
    after: Held,
) -> bool {
    match (stage.step, answer) {
        (StepModel::CreateLock, StageAnswer::Done) => after == with_content(
            before,
            "lock"@,
            Seq::empty(),
        ),
        (StepModel::CreateData, StageAnswer::Done) => after == with_content(
            before,
            "part"@,
            Seq::empty(),
        ),
        (StepModel::Read, StageAnswer::Piece(piece)) => before.source == piece@ + after.source
            && after.left == before.left,
        (StepModel::Read, StageAnswer::Ended) => before.source.len() == 0 && after == before,
        (StepModel::Write(piece), StageAnswer::Done) => after == with_content(
            before,
            "part"@,
            before.left["part"@] + piece,
        ),
        (StepModel::Write(_), StageAnswer::Failed(_)) => true,
        (StepModel::WriteJournal(_), _) => true,
        (StepModel::RemoveLock, _) => true,
        (StepModel::CleanUp, _) => true,
        _ => after == before,
    }
}

/// Whether these are the stages, the answers and what was held of one staging of the bytes, step by
/// step.
pub open spec fn stages(
    bytes: Seq<u8>,
    limit: u64,
    all: Seq<StageModel>,
    answers: Seq<StageAnswer>,
    held: Seq<Held>,
) -> bool {
    &&& all.len() == answers.len() + 1
    &&& held.len() == all.len()
    &&& all[0] == staging::unstaged(StageKind::Blob, limit)
    &&& held[0] == (Held { source: bytes, left: Map::empty() })
    &&& forall|k: int|
        0 <= k < answers.len() ==> {
            &&& all[k + 1] == staging::stage_after(all[k], #[trigger] answers[k])
            &&& performed(all[k], answers[k], held[k], held[k + 1])
        }
}

/// What holds at every step of a staging that was not given up: what was taken in and what was not
/// read are the bytes, and the data file has what was taken in, but for the piece that is to be
/// written.
pub open spec fn on_the_way(bytes: Seq<u8>, stage: StageModel, held: Held) -> bool {
    &&& stage.kind == StageKind::Blob
    &&& stage.fault is None ==> stage.taken + held.source == bytes
    &&& match stage.step {
        StepModel::MakeDirectory | StepModel::PickName | StepModel::CreateLock => {
            &&& stage.taken.len() == 0
            &&& held.left == Map::<Seq<char>, Seq<u8>>::empty()
        },
        StepModel::TakeLock | StepModel::CreateData => {
            &&& stage.taken.len() == 0
            &&& held.left.dom() == set!["lock"@]
        },
        StepModel::Read => {
            &&& held.left.dom() == set!["part"@, "lock"@]
            &&& held.left["part"@] == stage.taken
        },
        StepModel::Write(piece) => {
            &&& held.left.dom() == set!["part"@, "lock"@]
            &&& held.left["part"@] + piece == stage.taken
        },
        StepModel::SyncData | StepModel::SyncDirectory | StepModel::Staged => {
            &&& held.left.dom() == set!["part"@, "lock"@]
            &&& held.left["part"@] == stage.taken
            &&& held.source.len() == 0
        },
        StepModel::WriteJournal(_) => false,
        _ => true,
    }
}

proof fn lemma_step(
    bytes: Seq<u8>,
    stage: StageModel,
    answer: StageAnswer,
    before: Held,
    after: Held,
)
    requires
        staging::sound(stage),
        on_the_way(bytes, stage, before),
        performed(stage, answer, before, after),
    ensures
        on_the_way(bytes, staging::stage_after(stage, answer), after),
{
    reveal_strlit("part");
    reveal_strlit("lock");
    assert("part"@.len() == 4 && "lock"@.len() == 4);
    assert("part"@[0] != "lock"@[0]);
    match (stage.step, answer) {
        (StepModel::CreateLock, StageAnswer::Done) => {
            assert(after.left.dom() =~= set!["lock"@]);
        },
        (StepModel::CreateData, StageAnswer::Done) => {
            assert(after.left.dom() =~= set!["part"@, "lock"@]);
            assert(stage.taken =~= Seq::<u8>::empty());
        },
        (StepModel::Read, StageAnswer::Piece(piece)) => {
            assert(stage.taken + (piece@ + after.source) =~= (stage.taken + piece@) + after.source);
        },
        (StepModel::Write(piece), StageAnswer::Done) => {
            assert(after.left.dom() =~= set!["part"@, "lock"@]);
        },
        _ => {},
    }
}

proof fn lemma_stages(
    bytes: Seq<u8>,
    limit: u64,
    all: Seq<StageModel>,
    answers: Seq<StageAnswer>,
    held: Seq<Held>,
    k: int,
)
    requires
        stages(bytes, limit, all, answers, held),
        0 <= k < all.len(),
    ensures
        staging::sound(all[k]),
        all[k].limit == limit,
        on_the_way(bytes, all[k], held[k]),
    decreases k,
{
    if k > 0 {
        lemma_stages(bytes, limit, all, answers, held, k - 1);
        staging::law_stages_stay_sound(all[k - 1], answers[k - 1], StageKind::Blob, limit);
        lemma_step(bytes, all[k - 1], answers[k - 1], held[k - 1], held[k]);
    } else {
        staging::law_stages_stay_sound(all[0], StageAnswer::Done, StageKind::Blob, limit);
        assert(Seq::<u8>::empty() + bytes =~= bytes);
    }
}

/// Bytes that were staged stand in the data file, and what is recorded of them is their digest and
/// their number. The stage made its data file and its lock file, and no other.
pub proof fn law_staged_bytes_are_the_source(
    bytes: Seq<u8>,
    limit: u64,
    all: Seq<StageModel>,
    answers: Seq<StageAnswer>,
    held: Seq<Held>,
)
    requires
        stages(bytes, limit, all, answers, held),
        all.last().step is Staged,
    ensures
        all.last().record == Some((digest::sha256_hex(bytes), bytes.len() as u64)),
        bytes.len() <= limit,
        held.last().left.dom() == set!["part"@, "lock"@],
        held.last().left["part"@] == bytes,
{
    lemma_stages(bytes, limit, all, answers, held, all.len() - 1);
    assert(all.last().taken + held.last().source =~= all.last().taken);
}

/// Where no step fails, no name is taken and the bytes are not too many, a staging is not given up:
/// it is on its way until the bytes are staged.
pub proof fn law_faultless_staging_succeeds(
    bytes: Seq<u8>,
    limit: u64,
    all: Seq<StageModel>,
    answers: Seq<StageAnswer>,
    held: Seq<Held>,
    k: int,
)
    requires
        stages(bytes, limit, all, answers, held),
        bytes.len() <= limit,
        forall|i: int|
            0 <= i < answers.len() ==> !((#[trigger] answers[i]) is Failed || answers[i] is Exists),
        0 <= k < all.len(),
    ensures
        all[k].fault is None,
        !(all[k].step is Failed),
    decreases k,
{
    if k > 0 {
        law_faultless_staging_succeeds(bytes, limit, all, answers, held, k - 1);
        lemma_stages(bytes, limit, all, answers, held, k - 1);
        lemma_stages(bytes, limit, all, answers, held, k);
        assert(performed(all[k - 1], answers[k - 1], held[k - 1], held[k]));
        assert(!(answers[k - 1] is Failed || answers[k - 1] is Exists));
        match answers[k - 1] {
            StageAnswer::Piece(piece) => {
                assert(all[k - 1].step is Read ==> all[k - 1].taken.len() + piece@.len()
                    <= bytes.len());
            },
            _ => {},
        }
    }
}

/// Whether the bytes were taken from a source, staged and stored, and what was kept before and
/// after.
pub open spec fn is_stored(
    bytes: Seq<u8>,
    limit: u64,
    all: Seq<StageModel>,
    answers: Seq<StageAnswer>,
    held: Seq<Held>,
    blob: BlobRecord,
    runs: Seq<FinalModel>,
    final_answers: Seq<FinalAnswer>,
    kept: Seq<Kept>,
) -> bool {
    &&& stages(bytes, limit, all, answers, held)
    &&& all.last().step is Staged
    &&& all.last().record == Some(blob@)
    &&& keeping::stores(held.last().left["part"@], blob, runs, final_answers, kept)
    &&& runs.last().step is Stored
}

/// Bytes that were stored have the record with their digest and their number. There is one row for
/// it, and a file at its path: with exactly these bytes where there was none before, and otherwise
/// the one that was there, of their digest and their number. No file of the stage is left once those
/// with the extensions of a stage are removed, and no other row or file changes.
pub proof fn law_stored_bytes_are_kept(
    bytes: Seq<u8>,
    limit: u64,
    all: Seq<StageModel>,
    answers: Seq<StageAnswer>,
    held: Seq<Held>,
    blob: BlobRecord,
    runs: Seq<FinalModel>,
    final_answers: Seq<FinalAnswer>,
    kept: Seq<Kept>,
)
    requires
        is_stored(bytes, limit, all, answers, held, blob, runs, final_answers, kept),
    ensures
        blob@ == (digest::sha256_hex(bytes), bytes.len() as u64),
        blob@.1 == bytes.len(),
        kept.last().blobs == kept[0].blobs.insert(blob@.0, bytes.len() as int),
        kept[0].files.contains_key(blob@.0) ==> kept.last().files == kept[0].files,
        !kept[0].files.contains_key(blob@.0) ==> kept.last().files == kept[0].files.insert(
            blob@.0,
            bytes,
        ),
        kept.last().files[blob@.0].len() == bytes.len(),
        digest::sha256_hex(kept.last().files[blob@.0]) == blob@.0,
        held.last().left.remove_keys(set!["part"@, "lock"@]) == Map::<Seq<char>, Seq<u8>>::empty(),
{
    law_staged_bytes_are_the_source(bytes, limit, all, answers, held);
    keeping::law_stored_blobs_are_kept(bytes, blob, runs, final_answers, kept);
    assert(held.last().left.remove_keys(set!["part"@, "lock"@]) =~= Map::<
        Seq<char>,
        Seq<u8>,
    >::empty());
}

/// Storing the same bytes once more gives an equal record and changes nothing: there is still one
/// row and one file.
pub proof fn law_storing_bytes_again_changes_nothing(
    bytes: Seq<u8>,
    limit: u64,
    all: Seq<StageModel>,
    answers: Seq<StageAnswer>,
    held: Seq<Held>,
    blob: BlobRecord,
    runs: Seq<FinalModel>,
    final_answers: Seq<FinalAnswer>,
    kept: Seq<Kept>,
    later_limit: u64,
    later_all: Seq<StageModel>,
    later_answers: Seq<StageAnswer>,
    later_held: Seq<Held>,
    again: BlobRecord,
    later_runs: Seq<FinalModel>,
    later_final_answers: Seq<FinalAnswer>,
    later_kept: Seq<Kept>,
)
    requires
        is_stored(bytes, limit, all, answers, held, blob, runs, final_answers, kept),
        is_stored(
            bytes,
            later_limit,
            later_all,
            later_answers,
            later_held,
            again,
            later_runs,
            later_final_answers,
            later_kept,
        ),
        later_kept[0] == kept.last(),
    ensures
        again@ == blob@,
        later_kept.last() == kept.last(),
{
    law_stored_bytes_are_kept(
        bytes,
        limit,
        all,
        answers,
        held,
        blob,
        runs,
        final_answers,
        kept,
    );
    law_stored_bytes_are_kept(
        bytes,
        later_limit,
        later_all,
        later_answers,
        later_held,
        again,
        later_runs,
        later_final_answers,
        later_kept,
    );
    law_staged_bytes_are_the_source(bytes, limit, all, answers, held);
    law_staged_bytes_are_the_source(
        bytes,
        later_limit,
        later_all,
        later_answers,
        later_held,
    );
    keeping::law_storing_again_changes_nothing(
        bytes,
        blob,
        runs,
        final_answers,
        kept,
        again,
        later_runs,
        later_final_answers,
        later_kept,
    );
}

/// Where nothing goes wrong, bytes that were staged are stored: no step of the storing gives up.
/// A size that the database cannot hold is the one thing that is still refused.
pub proof fn law_faultless_bytes_are_stored(
    bytes: Seq<u8>,
    limit: u64,
    all: Seq<StageModel>,
    answers: Seq<StageAnswer>,
    held: Seq<Held>,
    blob: BlobRecord,
    runs: Seq<FinalModel>,
    final_answers: Seq<FinalAnswer>,
    kept: Seq<Kept>,
)
    requires
        stages(bytes, limit, all, answers, held),
        all.last().step is Staged,
        all.last().record == Some(blob@),
        keeping::stores(held.last().left["part"@], blob, runs, final_answers, kept),
        bytes.len() <= i64::MAX,
        kept[0].blobs.contains_key(blob@.0) ==> kept[0].blobs[blob@.0] == bytes.len(),
        forall|k: int| 0 <= k < final_answers.len() ==> !((#[trigger] final_answers[k]) is Failed),
    ensures
        finalizing::goes_on(runs.last().step) || runs.last().step is Stored,
        runs.last().fault is None,
{
    law_staged_bytes_are_the_source(bytes, limit, all, answers, held);
    keeping::law_faultless_storing_succeeds(bytes, blob, runs, final_answers, kept);
}

} // verus!
