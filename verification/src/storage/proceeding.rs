//! How a publication goes on, step by step, and that one without faults succeeds.
use vstd::prelude::*;
use crate::storage::blob::{BlobIntegrityError, BlobRecord};
use crate::storage::error::StoreError;
use crate::storage::publication;
use crate::storage::publication::PostRecord;
use crate::storage::publishing;
use crate::storage::publishing::{PublishAnswer, PublishPlan, PublishState, PublishStep};

verus! {

// ---- single steps ----

/// The publication goes on only in a session that is there, after a predecessor of that session, and
/// with sources that agree on their sizes.
pub proof fn law_publications_need_their_session(
    plan: PublishPlan,
    s: PublishState,
    after: PublishState,
    found: Option<i64>,
)
    requires
        publishing::follows(plan, s, PublishAnswer::Found(found), after),
    ensures
        s.step is FindSession ==> {
            &&& found is None ==> after.step is AskTransaction && after.failure == Some(
                StoreError::SessionNotFound { public_id: plan.session_public_id },
            )
            &&& found is Some && plan.predecessor_post_id is Some ==> after.step == (
            PublishStep::FindPredecessor {
                session_id: found->0,
                post_id: plan.predecessor_post_id->0,
            })
            &&& found is Some && plan.predecessor_post_id is None && publication::distinct(
                plan.occurrences,
            ) is Some ==> after.step == (PublishStep::Measure { session_id: found->0 })
                && after.blobs == publication::distinct(plan.occurrences)->0
        },
        s.step matches PublishStep::FindPredecessor { session_id, post_id } ==> {
            &&& found is None ==> after.failure == Some(StoreError::PredecessorNotFound { post_id })
            &&& found is Some && found->0 != session_id ==> after.failure == Some(
                StoreError::CrossSessionPredecessor { post_id },
            )
            &&& found == Some(session_id) && publication::distinct(plan.occurrences) is Some
                ==> after.step == (PublishStep::Measure { session_id })
            &&& found != Some(session_id) ==> after.step is AskTransaction
        },
{
}

/// Sources that are not recorded are charged with their size, those that are recorded with nothing, and
/// must have the recorded size; and with all looked up the publication goes on exactly where it adds
/// nothing or what it adds fits the budget.
pub proof fn law_publications_pay_for_what_is_new(
    plan: PublishPlan,
    s: PublishState,
    after: PublishState,
    found: Option<i64>,
    session_id: i64,
    blob: usize,
)
    requires
        s.step == (PublishStep::LookUp { session_id, blob }),
        blob < s.blobs.len(),
        s.additional + s.blobs[blob as int]@.1 <= u64::MAX,
        found matches Some(size) ==> size >= 0,
        publishing::follows(plan, s, PublishAnswer::Found(found), after),
    ensures
        ({
            let size = s.blobs[blob as int]@.1;
            let charged = s.additional + (if found is None {
                size as int
            } else {
                0
            });
            &&& found is Some && found->0 != size ==> after.step is AskTransaction && after.failure
                == Some(
                StoreError::Integrity(
                    BlobIntegrityError::SizeMismatch {
                        hash: s.blobs[blob as int].digest(),
                        recorded: found->0 as u64,
                        actual: size,
                    },
                ),
            )
            &&& found is None || found->0 == size ==> {
                &&& after.additional == charged
                &&& after.current == s.current
                &&& blob + 1 < s.blobs.len() ==> after.step == (PublishStep::LookUp {
                    session_id,
                    blob: (blob + 1) as usize,
                })
                &&& blob + 1 == s.blobs.len() && (charged == 0 || s.current + charged <= plan.budget)
                    ==> after.step == (PublishStep::CheckRecorded { session_id, blob: 0 })
                &&& blob + 1 == s.blobs.len() && charged > 0 && s.current + charged > plan.budget
                    ==> after.step is AskTransaction && after.failure == Some(
                    StoreError::GlobalBlobBudgetExceeded {
                        limit: plan.budget,
                        current: s.current,
                        additional: charged as u64,
                    },
                )
            }
        }),
{
}

/// A source that is not recorded is marked, recorded with its size, taken off the queue and linked; one
/// that is recorded is taken off the queue and linked; a new link is noted and synced, and what was
/// there before is verified; then the next follows, and after the last the post.
pub proof fn law_sources_are_put_in_place(
    plan: PublishPlan,
    s: PublishState,
    after: PublishState,
    answer: PublishAnswer,
)
    requires
        publishing::follows(plan, s, answer, after),
        publishing::consistent(plan, s),
        s.blobs.len() <= usize::MAX,
        !(answer is Failed),
    ensures
        s.step matches PublishStep::CheckRecorded { session_id, blob } ==> {
            &&& answer == PublishAnswer::Flag(true) ==> after.step == (PublishStep::Unqueue {
                session_id,
                blob,
            })
            &&& answer == PublishAnswer::Flag(false) ==> after.step == (PublishStep::MarkFinalizing {
                session_id,
                blob,
            })
        },
        s.step matches PublishStep::MarkFinalizing { session_id, blob } ==> (s.blobs[blob as int]@.1
            <= i64::MAX ==> after.step == (PublishStep::Record {
            session_id,
            blob,
            byte_size: s.blobs[blob as int]@.1 as i64,
        })),
        s.step matches PublishStep::Record { session_id, blob, .. } ==> after.step == (
        PublishStep::Unqueue { session_id, blob }),
        s.step matches PublishStep::Unqueue { session_id, blob } ==> after.step == (PublishStep::Link {
            session_id,
            blob,
        }),
        s.step matches PublishStep::Link { session_id, blob } ==> {
            &&& answer == PublishAnswer::Flag(true) ==> after.links == s.links.push(blob) && after.step
                == (PublishStep::SyncLink { session_id, blob })
            &&& answer == PublishAnswer::Flag(false) ==> after.links == s.links && after.step == (
            PublishStep::VerifyLink { session_id, blob })
        },
        s.step matches PublishStep::SyncLink { session_id, blob } ==> (if blob + 1 < s.blobs.len() {
            after.step == (PublishStep::CheckRecorded { session_id, blob: (blob + 1) as usize })
        } else {
            after.step == (PublishStep::InsertPost { session_id })
        }),
        s.step matches PublishStep::VerifyLink { session_id, blob } ==> (if blob + 1 < s.blobs.len() {
            after.step == (PublishStep::CheckRecorded { session_id, blob: (blob + 1) as usize })
        } else {
            after.step == (PublishStep::InsertPost { session_id })
        }),
{
}

/// The post is written with its files in their order, each with its assets in their order; then the
/// session is touched, and with the commit the publication is the post that was written.
pub proof fn law_posts_are_written_in_order(
    plan: PublishPlan,
    s: PublishState,
    after: PublishState,
    answer: PublishAnswer,
    id: i64,
)
    requires
        publishing::follows(plan, s, answer, after),
        publishing::consistent(plan, s),
        plan.asset_counts.len() <= usize::MAX,
        !(answer is Failed),
    ensures
        answer == PublishAnswer::Id(id) ==> {
            &&& s.step matches PublishStep::InsertPost { session_id } ==> after.step == (
            if plan.asset_counts.len() > 0 {
                PublishStep::ReferFile { session_id, post_id: id, file: 0 }
            } else {
                PublishStep::Touch { session_id, post_id: id }
            })
            &&& s.step matches PublishStep::ReferFile { session_id, post_id, file } ==> after.step == (
            PublishStep::InsertFile { session_id, post_id, file, reference_id: id })
            &&& s.step matches PublishStep::InsertFile { session_id, post_id, file, .. } ==> (
            plan.asset_counts[file as int] > 0 ==> after.step == (PublishStep::ReferAsset {
                session_id,
                post_id,
                file,
                entry_id: id,
                asset: 0,
            }))
            &&& s.step matches PublishStep::InsertFile { session_id, post_id, file, .. } ==> (
            plan.asset_counts[file as int] == 0 && file + 1 < plan.asset_counts.len() ==> after.step
                == (PublishStep::ReferFile { session_id, post_id, file: (file + 1) as usize }))
            &&& s.step matches PublishStep::ReferAsset { session_id, post_id, file, entry_id, asset }
                ==> after.step == (PublishStep::InsertAsset {
                session_id,
                post_id,
                file,
                entry_id,
                asset,
                reference_id: id,
            })
            &&& s.step matches PublishStep::InsertAsset { session_id, post_id, file, entry_id, asset, .. }
                ==> {
                &&& asset + 1 < plan.asset_counts[file as int] ==> after.step == (
                PublishStep::ReferAsset {
                    session_id,
                    post_id,
                    file,
                    entry_id,
                    asset: (asset + 1) as usize,
                })
                &&& asset + 1 == plan.asset_counts[file as int] && file + 1 < plan.asset_counts.len()
                    ==> after.step == (PublishStep::ReferFile {
                    session_id,
                    post_id,
                    file: (file + 1) as usize,
                })
                &&& asset + 1 == plan.asset_counts[file as int] && file + 1 == plan.asset_counts.len()
                    ==> after.step == (PublishStep::Touch { session_id, post_id })
            }
        },
        s.step matches PublishStep::Touch { session_id, post_id } ==> after.step == (
        PublishStep::Commit { session_id, post_id }),
        s.step matches PublishStep::Commit { session_id, post_id } ==> after.step is Finished
            && after.outcome == Some(
            Ok::<PostRecord, StoreError>(
                PostRecord {
                    id: post_id,
                    session_id,
                    session_public_id: plan.session_public_id,
                    predecessor_post_id: plan.predecessor_post_id,
                    published_at: plan.published_at,
                },
            ),
        ),
{
}

/// A step that fails ends the publication: while its transaction is open every new link is removed, in
/// order, and the transaction rolled back; and the failure is told, unless undoing it failed, of which
/// the first failure is told. What could not be removed is kept for recovery.
pub proof fn law_failures_are_undone_and_told(
    plan: PublishPlan,
    s: PublishState,
    after: PublishState,
    answer: PublishAnswer,
    error: StoreError,
)
    requires
        publishing::follows(plan, s, answer, after),
        publishing::consistent(plan, s),
        s.links.len() <= usize::MAX,
    ensures
        answer == PublishAnswer::Failed(error) && !(s.step is Unlink) && !(s.step is RollBack) ==> after.step
            is AskTransaction && after.failure == Some(error) && after.links == s.links,
        s.step is AskTransaction && answer == PublishAnswer::Flag(false) ==> after.step is Finished
            && after.outcome == Some(Err::<PostRecord, StoreError>(s.failure->0)) && after.links == s.links,
        s.step is AskTransaction && answer == PublishAnswer::Flag(true) ==> after.step == (
        if s.links.len() > 0 {
            PublishStep::Unlink { link: 0 }
        } else {
            PublishStep::RollBack
        }),
        s.step matches PublishStep::Unlink { link } ==> {
            &&& answer == PublishAnswer::Done || answer == PublishAnswer::Failed(error) ==> after.step
                == (if link + 1 < s.links.len() {
                PublishStep::Unlink { link: (link + 1) as usize }
            } else {
                PublishStep::RollBack
            })
            &&& answer == PublishAnswer::Failed(error) ==> after.retained == s.retained.push(
                s.links[link as int],
            ) && after.cleanup_failure == (if s.cleanup_failure is None {
                Some(error)
            } else {
                s.cleanup_failure
            })
            &&& answer == PublishAnswer::Done ==> after.retained == s.retained && after.cleanup_failure
                == s.cleanup_failure
        },
        s.step is RollBack && answer == PublishAnswer::Done ==> after.step is Finished && after.outcome
            == Some(
            Err::<PostRecord, StoreError>(
                if s.cleanup_failure is Some {
                    s.cleanup_failure->0
                } else {
                    s.failure->0
                },
            ),
        ),
        s.step is RollBack && answer == PublishAnswer::Failed(error) ==> after.step is Finished
            && after.outcome == Some(Err::<PostRecord, StoreError>(error)) && after.retained
            == s.retained + s.links,
{
}

// ---- a whole run ----

/// How many bytes blobs have together.
pub open spec fn total(blobs: Seq<BlobRecord>) -> nat
    decreases blobs.len(),
{
    if blobs.len() == 0 {
        0
    } else {
        total(blobs.drop_last()) + blobs.last()@.1 as nat
    }
}

proof fn lemma_total(blobs: Seq<BlobRecord>, i: int)
    requires
        0 <= i <= blobs.len(),
    ensures
        total(blobs.take(i)) <= total(blobs),
        i < blobs.len() ==> total(blobs.take(i + 1)) == total(blobs.take(i)) + blobs[i]@.1,
    decreases blobs.len(),
{
    if i < blobs.len() {
        assert(blobs.take(i + 1).drop_last() =~= blobs.take(i));
        assert(blobs.drop_last().take(i) =~= blobs.take(i));
        lemma_total(blobs.drop_last(), i);
    } else {
        assert(blobs.take(i) =~= blobs);
    }
}

/// Whether these are the states and the answers of one publication, step by step.
pub open spec fn is_run(
    plan: PublishPlan,
    states: Seq<PublishState>,
    answers: Seq<PublishAnswer>,
) -> bool {
    &&& states.len() == answers.len() + 1
    &&& states[0] == publishing::first_state()
    &&& forall|k: int|
        0 <= k < states.len() ==> publishing::consistent(plan, #[trigger] states[k])
            && states[k].blobs.len() <= usize::MAX
    &&& forall|k: int|
        0 <= k < answers.len() ==> {
            &&& publishing::answers(states[k].step, #[trigger] answers[k])
            &&& publishing::follows(plan, states[k], answers[k], states[k + 1])
        }
}

/// Whether nothing is wrong with the answer to a step: it does not fail, the session and the predecessor
/// are there, recorded sizes are the sizes, and everything fits the budget.
pub open spec fn is_faultless(plan: PublishPlan, s: PublishState, answer: PublishAnswer) -> bool {
    &&& !(answer is Failed)
    &&& s.step is FindSession ==> (answer matches PublishAnswer::Found(found) && found is Some)
    &&& s.step matches PublishStep::FindPredecessor { session_id, .. } ==> answer
        == PublishAnswer::Found(Some(session_id))
    &&& s.step is Measure ==> (answer matches PublishAnswer::Bytes(current) && current + total(
        s.blobs,
    ) <= plan.budget)
    &&& s.step matches PublishStep::LookUp { blob, .. } ==> (answer matches PublishAnswer::Found(found)
        && (found is None || found->0 == s.blobs[blob as int]@.1))
    &&& s.step matches PublishStep::MarkFinalizing { blob, .. } ==> s.blobs[blob as int]@.1 <= i64::MAX
}

spec fn goes_well(plan: PublishPlan, s: PublishState) -> bool {
    &&& s.failure is None
    &&& !publishing::is_undoing(s.step)
    &&& s.step is LookUp ==> s.current + total(s.blobs) <= plan.budget && s.additional <= total(
        s.blobs.take(s.step->LookUp_blob as int),
    )
    &&& s.step is Finished ==> (s.outcome matches Some(Ok(record)) && record.session_public_id
        == plan.session_public_id && record.predecessor_post_id == plan.predecessor_post_id
        && record.published_at == plan.published_at)
}

proof fn lemma_goes_well(
    plan: PublishPlan,
    s: PublishState,
    answer: PublishAnswer,
    after: PublishState,
)
    requires
        goes_well(plan, s),
        publishing::consistent(plan, s),
        s.blobs.len() <= usize::MAX,
        publishing::answers(s.step, answer),
        publishing::follows(plan, s, answer, after),
        is_faultless(plan, s, answer),
        publication::distinct(plan.occurrences) is Some,
    ensures
        goes_well(plan, after),
{
    if s.step is Measure {
        assert(s.blobs.take(0) =~= Seq::<BlobRecord>::empty());
        lemma_total(s.blobs, 0);
    }
    if let PublishStep::LookUp { session_id, blob } = s.step {
        lemma_total(s.blobs, blob as int);
        lemma_total(s.blobs, blob as int + 1);
    }
}

/// A publication without faults succeeds: whatever was asked and answered, while no step fails, the
/// session and the predecessor are found, the sources agree with what is recorded, and everything fits
/// the budget, it never turns to undoing, and when it is finished it is the post that was asked for.
pub proof fn law_faultless_publications_succeed(
    plan: PublishPlan,
    states: Seq<PublishState>,
    answers: Seq<PublishAnswer>,
    k: int,
)
    requires
        is_run(plan, states, answers),
        publication::distinct(plan.occurrences) is Some,
        forall|j: int| 0 <= j < answers.len() ==> is_faultless(plan, states[j], #[trigger] answers[j]),
        0 <= k < states.len(),
    ensures
        states[k].failure is None,
        !(states[k].step is AskTransaction) && !(states[k].step is Unlink) && !(states[k].step
            is RollBack),
        states[k].step is Finished ==> (states[k].outcome matches Some(Ok(record))
            && record.session_public_id == plan.session_public_id && record.predecessor_post_id
            == plan.predecessor_post_id && record.published_at == plan.published_at),
{
    lemma_run_goes_well(plan, states, answers, k);
}

proof fn lemma_run_goes_well(
    plan: PublishPlan,
    states: Seq<PublishState>,
    answers: Seq<PublishAnswer>,
    k: int,
)
    requires
        is_run(plan, states, answers),
        publication::distinct(plan.occurrences) is Some,
        forall|j: int| 0 <= j < answers.len() ==> is_faultless(plan, states[j], #[trigger] answers[j]),
        0 <= k < states.len(),
    ensures
        goes_well(plan, states[k]),
    decreases k,
{
    if k > 0 {
        lemma_run_goes_well(plan, states, answers, k - 1);
        let answer = answers[k - 1];
        assert(publishing::consistent(plan, states[k - 1]));
        lemma_goes_well(plan, states[k - 1], answer, states[k - 1 + 1]);
    }
}

} // verus!
