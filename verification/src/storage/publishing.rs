//! A publication under way: which step comes next, what it costs, and how it is undone.
//!
//! The caller performs the step that a [`Publishing`] asks for and answers with what came of it,
//! until the step is [`PublishStep::Finished`]. All steps but the last ones of a failure run
//! inside one immediate transaction.
use vstd::prelude::*;
use crate::storage::blob;
use crate::storage::blob::{BlobIntegrityError, BlobRecord};
use crate::storage::error::StoreError;
use crate::storage::publication;
use crate::storage::publication::{PostRecord, PublicationRequest};
use crate::text;

verus! {

/// What the caller is to do next.
#[derive(Debug, Clone, Copy, PartialEq, Eq, Structural)]
pub enum PublishStep {
    /// Find the session with the request's public identifier; answer `Found`.
    FindSession,
    /// Find the session of the predecessor; answer `Found`.
    FindPredecessor { session_id: i64, post_id: i64 },
    /// Add up the bytes of all recorded blobs; answer `Bytes`.
    Measure { session_id: i64 },
    /// Look up the recorded size of blob number `blob`; answer `Found`.
    LookUp { session_id: i64, blob: usize },
    /// Ask whether blob number `blob` is recorded; answer `Flag`.
    CheckRecorded { session_id: i64, blob: usize },
    /// Write in the blob's journal that it is on its way to its final place; answer `Done`.
    MarkFinalizing { session_id: i64, blob: usize },
    /// Record the blob with this size; answer `Done`.
    Record { session_id: i64, blob: usize, byte_size: i64 },
    /// Take the blob off the deletion queue; answer `Done`.
    Unqueue { session_id: i64, blob: usize },
    /// Link the staged file to its final place; answer `Flag`, true if the link is new and false
    /// if a file was there.
    Link { session_id: i64, blob: usize },
    /// Sync the directory of the new link; answer `Done`.
    SyncLink { session_id: i64, blob: usize },
    /// Verify the file that was there; answer `Done`.
    VerifyLink { session_id: i64, blob: usize },
    /// Insert the post; answer `Id`.
    InsertPost { session_id: i64 },
    /// Insert the blob reference of a file; answer `Id`.
    ReferFile { session_id: i64, post_id: i64, file: usize },
    /// Insert a file at its position; answer `Id`.
    InsertFile { session_id: i64, post_id: i64, file: usize, reference_id: i64 },
    /// Insert the blob reference of a support asset; answer `Id`.
    ReferAsset { session_id: i64, post_id: i64, file: usize, entry_id: i64, asset: usize },
    /// Insert a support asset at its position; answer `Id`.
    InsertAsset {
        session_id: i64,
        post_id: i64,
        file: usize,
        entry_id: i64,
        asset: usize,
        reference_id: i64,
    },
    /// Raise the session's latest activity to the time of publication; answer `Done`.
    Touch { session_id: i64, post_id: i64 },
    /// Commit the transaction; answer `Done`.
    Commit { session_id: i64, post_id: i64 },
    /// Something failed: ask whether the transaction is still open; answer `Flag`.
    AskTransaction,
    /// Remove the link with this number in the list of new links, and sync its directory; answer
    /// `Done`.
    Unlink { link: usize },
    /// Roll the transaction back; answer `Done`.
    RollBack,
    /// Nothing: the publication has succeeded or failed.
    Finished,
}

/// What came of a step.
#[derive(Debug)]
pub enum PublishAnswer {
    Done,
    Id(i64),
    Found(Option<i64>),
    Bytes(u64),
    Flag(bool),
    Failed(StoreError),
}

/// Whether the answer is one that the step can have.
pub open spec fn answers(step: PublishStep, answer: PublishAnswer) -> bool {
    match step {
        PublishStep::FindSession | PublishStep::FindPredecessor { .. } | PublishStep::LookUp {
            ..
        } => answer is Found || answer is Failed,
        PublishStep::Measure { .. } => answer is Bytes || answer is Failed,
        PublishStep::CheckRecorded { .. } | PublishStep::Link { .. } => answer is Flag
            || answer is Failed,
        PublishStep::InsertPost { .. } | PublishStep::ReferFile { .. }
        | PublishStep::InsertFile { .. } | PublishStep::ReferAsset { .. }
        | PublishStep::InsertAsset { .. } => answer is Id || answer is Failed,
        PublishStep::AskTransaction => answer is Flag,
        PublishStep::Finished => false,
        _ => answer is Done || answer is Failed,
    }
}

/// What does not change while a publication runs: the request's session, predecessor, time and
/// budget, its blobs as they occur, and how many support assets each of its files has.
pub struct PublishPlan {
    pub session_public_id: String,
    pub predecessor_post_id: Option<i64>,
    pub published_at: i64,
    pub budget: u64,
    pub occurrences: Seq<BlobRecord>,
    pub asset_counts: Seq<usize>,
}

/// The changing state of a publication: the next step, its blobs each once, the bytes recorded
/// before it and those it adds, the blobs it linked, those whose staging is kept for recovery,
/// its failure, the first failure of undoing it, and its outcome.
pub struct PublishState {
    pub step: PublishStep,
    pub blobs: Seq<BlobRecord>,
    pub current: u64,
    pub additional: u64,
    pub links: Seq<usize>,
    pub retained: Seq<usize>,
    pub failure: Option<StoreError>,
    pub cleanup_failure: Option<StoreError>,
    pub outcome: Option<Result<PostRecord, StoreError>>,
}

/// The state at the start.
pub open spec fn first_state() -> PublishState {
    PublishState {
        step: PublishStep::FindSession,
        blobs: Seq::empty(),
        current: 0,
        additional: 0,
        links: Seq::empty(),
        retained: Seq::empty(),
        failure: None,
        cleanup_failure: None,
        outcome: None,
    }
}

pub open spec fn at(s: PublishState, step: PublishStep) -> PublishState {
    PublishState { step, ..s }
}

/// The state after a failure: undoing starts.
pub open spec fn failed(s: PublishState, error: StoreError) -> PublishState {
    PublishState { step: PublishStep::AskTransaction, failure: Some(error), ..s }
}

/// The state once the session is known: the request's blobs are taken each once.
pub open spec fn with_blobs(plan: PublishPlan, s: PublishState, session_id: i64) -> PublishState {
    match publication::distinct(plan.occurrences) {
        Some(blobs) => PublishState { blobs, step: PublishStep::Measure { session_id }, ..s },
        None => failed(s, publication::clash(plan.occurrences)->0),
    }
}

/// The step that installs blob number `blob`, or the insertion of the post after the last blob.
pub open spec fn install_from(s: PublishState, session_id: i64, blob: int) -> PublishState {
    at(
        s,
        if blob < s.blobs.len() {
            PublishStep::CheckRecorded { session_id, blob: blob as usize }
        } else {
            PublishStep::InsertPost { session_id }
        },
    )
}

/// The look-up of blob number `blob`; after the last, the budget decides: new bytes are accepted
/// only where they fit beside those already recorded.
pub open spec fn look_from(
    plan: PublishPlan,
    s: PublishState,
    session_id: i64,
    blob: int,
) -> PublishState {
    if blob < s.blobs.len() {
        at(s, PublishStep::LookUp { session_id, blob: blob as usize })
    } else if s.additional > 0 && s.current + s.additional > plan.budget {
        failed(
            s,
            StoreError::GlobalBlobBudgetExceeded {
                limit: plan.budget,
                current: s.current,
                additional: s.additional,
            },
        )
    } else {
        install_from(s, session_id, 0)
    }
}

/// The insertion of file number `file`, or the end of the rows after the last file.
pub open spec fn file_from(
    plan: PublishPlan,
    s: PublishState,
    session_id: i64,
    post_id: i64,
    file: int,
) -> PublishState {
    at(
        s,
        if file < plan.asset_counts.len() {
            PublishStep::ReferFile { session_id, post_id, file: file as usize }
        } else {
            PublishStep::Touch { session_id, post_id }
        },
    )
}

/// The insertion of asset number `asset` of a file, or of the next file after the last asset.
pub open spec fn asset_from(
    plan: PublishPlan,
    s: PublishState,
    session_id: i64,
    post_id: i64,
    file: usize,
    entry_id: i64,
    asset: int,
) -> PublishState {
    if asset < plan.asset_counts[file as int] {
        at(
            s,
            PublishStep::ReferAsset { session_id, post_id, file, entry_id, asset: asset as usize },
        )
    } else {
        file_from(plan, s, session_id, post_id, file + 1)
    }
}

/// The removal of new link number `link`, or the rollback after the last.
pub open spec fn unlink_from(s: PublishState, link: int) -> PublishState {
    at(
        s,
        if link < s.links.len() {
            PublishStep::Unlink { link: link as usize }
        } else {
            PublishStep::RollBack
        },
    )
}

pub open spec fn finished(
    s: PublishState,
    outcome: Result<PostRecord, StoreError>,
) -> PublishState {
    PublishState { step: PublishStep::Finished, outcome: Some(outcome), ..s }
}

/// The failures of a step that are told by their message: a recorded size that is negative, new
/// bytes that no `u64` counts, and a size that the database cannot hold.
pub open spec fn message_of_failure(s: PublishState, answer: PublishAnswer) -> Option<Seq<char>> {
    match (s.step, answer) {
        (PublishStep::LookUp { blob, .. }, PublishAnswer::Found(Some(size))) => if size < 0 {
            Some("negative blob byte count"@)
        } else {
            None
        },
        (PublishStep::LookUp { blob, .. }, PublishAnswer::Found(None)) => if s.additional
            + s.blobs[blob as int]@.1 > u64::MAX {
            Some("publication blob byte count exceeds u64"@)
        } else {
            None
        },
        (PublishStep::MarkFinalizing { blob, .. }, PublishAnswer::Done) => if s.blobs[blob as int]@.1
            > i64::MAX {
            Some("blob exceeds SQLite's maximum byte count"@)
        } else {
            None
        },
        _ => None,
    }
}

/// The state after a step failed: the first failure starts the undoing, a link that cannot be
/// removed keeps its staging for recovery, and so do all links where the rollback fails.
pub open spec fn after_failure(s: PublishState, error: StoreError) -> PublishState {
    match s.step {
        PublishStep::Unlink { link } => unlink_from(
            PublishState {
                retained: s.retained.push(s.links[link as int]),
                cleanup_failure: if s.cleanup_failure is None {
                    Some(error)
                } else {
                    s.cleanup_failure
                },
                ..s
            },
            link + 1,
        ),
        PublishStep::RollBack => finished(
            PublishState { retained: s.retained + s.links, ..s },
            Err(error),
        ),
        _ => failed(s, error),
    }
}

/// The state after a step that did not fail.
pub open spec fn after_success(
    plan: PublishPlan,
    s: PublishState,
    answer: PublishAnswer,
) -> PublishState {
    match (s.step, answer) {
        (PublishStep::FindSession, PublishAnswer::Found(None)) => failed(
            s,
            StoreError::SessionNotFound { public_id: plan.session_public_id },
        ),
        (PublishStep::FindSession, PublishAnswer::Found(Some(session_id))) => {
            match plan.predecessor_post_id {
                Some(post_id) => at(s, PublishStep::FindPredecessor { session_id, post_id }),
                None => with_blobs(plan, s, session_id),
            }
        },
        (PublishStep::FindPredecessor { session_id, post_id }, PublishAnswer::Found(found)) => {
            match publication::predecessor_fault(post_id, found, session_id) {
                Some(error) => failed(s, error),
                None => with_blobs(plan, s, session_id),
            }
        },
        (PublishStep::Measure { session_id }, PublishAnswer::Bytes(current)) => look_from(
            plan,
            PublishState { current, additional: 0, ..s },
            session_id,
            0,
        ),
        (PublishStep::LookUp { session_id, blob }, PublishAnswer::Found(Some(size))) => {
            if size != s.blobs[blob as int]@.1 {
                failed(
                    s,
                    StoreError::Integrity(
                        BlobIntegrityError::SizeMismatch {
                            hash: s.blobs[blob as int].digest(),
                            recorded: size as u64,
                            actual: s.blobs[blob as int]@.1,
                        },
                    ),
                )
            } else {
                look_from(plan, s, session_id, blob + 1)
            }
        },
        (PublishStep::LookUp { session_id, blob }, PublishAnswer::Found(None)) => look_from(
            plan,
            PublishState {
                additional: (s.additional + s.blobs[blob as int]@.1) as u64,
                ..s
            },
            session_id,
            blob + 1,
        ),
        (PublishStep::CheckRecorded { session_id, blob }, PublishAnswer::Flag(recorded)) => at(
            s,
            if recorded {
                PublishStep::Unqueue { session_id, blob }
            } else {
                PublishStep::MarkFinalizing { session_id, blob }
            },
        ),
        (PublishStep::MarkFinalizing { session_id, blob }, _) => at(
            s,
            PublishStep::Record { session_id, blob, byte_size: s.blobs[blob as int]@.1 as i64 },
        ),
        (PublishStep::Record { session_id, blob, .. }, _) => at(
            s,
            PublishStep::Unqueue { session_id, blob },
        ),
        (PublishStep::Unqueue { session_id, blob }, _) => at(
            s,
            PublishStep::Link { session_id, blob },
        ),
        (PublishStep::Link { session_id, blob }, PublishAnswer::Flag(new)) => if new {
            at(
                PublishState { links: s.links.push(blob), ..s },
                PublishStep::SyncLink { session_id, blob },
            )
        } else {
            at(s, PublishStep::VerifyLink { session_id, blob })
        },
        (PublishStep::SyncLink { session_id, blob }, _) => install_from(s, session_id, blob + 1),
        (PublishStep::VerifyLink { session_id, blob }, _) => install_from(s, session_id, blob + 1),
        (PublishStep::InsertPost { session_id }, PublishAnswer::Id(post_id)) => file_from(
            plan,
            s,
            session_id,
            post_id,
            0,
        ),
        (
            PublishStep::ReferFile { session_id, post_id, file },
            PublishAnswer::Id(reference_id),
        ) => at(s, PublishStep::InsertFile { session_id, post_id, file, reference_id }),
        (
            PublishStep::InsertFile { session_id, post_id, file, .. },
            PublishAnswer::Id(entry_id),
        ) => asset_from(plan, s, session_id, post_id, file, entry_id, 0),
        (
            PublishStep::ReferAsset { session_id, post_id, file, entry_id, asset },
            PublishAnswer::Id(reference_id),
        ) => at(
            s,
            PublishStep::InsertAsset { session_id, post_id, file, entry_id, asset, reference_id },
        ),
        (PublishStep::InsertAsset { session_id, post_id, file, entry_id, asset, .. }, _) => {
            asset_from(plan, s, session_id, post_id, file, entry_id, asset + 1)
        },
        (PublishStep::Touch { session_id, post_id }, _) => at(
            s,
            PublishStep::Commit { session_id, post_id },
        ),
        (PublishStep::Commit { session_id, post_id }, _) => finished(
            s,
            Ok(
                PostRecord {
                    id: post_id,
                    session_id,
                    session_public_id: plan.session_public_id,
                    predecessor_post_id: plan.predecessor_post_id,
                    published_at: plan.published_at,
                },
            ),
        ),
        (PublishStep::AskTransaction, PublishAnswer::Flag(open)) => if open {
            unlink_from(s, 0)
        } else {
            finished(PublishState { failure: None, ..s }, Err(s.failure->0))
        },
        (PublishStep::Unlink { link }, _) => unlink_from(s, link + 1),
        (PublishStep::RollBack, _) => match s.cleanup_failure {
            Some(error) => finished(PublishState { cleanup_failure: None, ..s }, Err(error)),
            None => finished(PublishState { failure: None, ..s }, Err(s.failure->0)),
        },
        _ => s,
    }
}

/// The state after a step and its answer.
pub open spec fn next(plan: PublishPlan, s: PublishState, answer: PublishAnswer) -> PublishState {
    match answer {
        PublishAnswer::Failed(error) => after_failure(s, error),
        _ => after_success(plan, s, answer),
    }
}

/// Whether `after` follows from `before` and the answer.
pub open spec fn follows(
    plan: PublishPlan,
    before: PublishState,
    answer: PublishAnswer,
    after: PublishState,
) -> bool {
    match message_of_failure(before, answer) {
        Some(message) => {
            &&& after.failure matches Some(error)
            &&& error matches StoreError::Io(cause)
            &&& cause@ == message
            &&& after == failed(before, error)
        },
        None => after == next(plan, before, answer),
    }
}

/// The blob that a step is about, where it is about one.
pub open spec fn blob_of(step: PublishStep) -> Option<usize> {
    match step {
        PublishStep::LookUp { blob, .. } => Some(blob),
        PublishStep::CheckRecorded { blob, .. } => Some(blob),
        PublishStep::MarkFinalizing { blob, .. } => Some(blob),
        PublishStep::Record { blob, .. } => Some(blob),
        PublishStep::Unqueue { blob, .. } => Some(blob),
        PublishStep::Link { blob, .. } => Some(blob),
        PublishStep::SyncLink { blob, .. } => Some(blob),
        PublishStep::VerifyLink { blob, .. } => Some(blob),
        _ => None,
    }
}

/// The file that a step is about, where it is about one.
pub open spec fn file_of(step: PublishStep) -> Option<usize> {
    match step {
        PublishStep::ReferFile { file, .. } => Some(file),
        PublishStep::InsertFile { file, .. } => Some(file),
        PublishStep::ReferAsset { file, .. } => Some(file),
        PublishStep::InsertAsset { file, .. } => Some(file),
        _ => None,
    }
}

/// The asset that a step is about, where it is about one.
pub open spec fn asset_of(step: PublishStep) -> Option<usize> {
    match step {
        PublishStep::ReferAsset { asset, .. } => Some(asset),
        PublishStep::InsertAsset { asset, .. } => Some(asset),
        _ => None,
    }
}

/// Whether the step writes something that only a publication within its budget may write.
pub open spec fn is_paid_for(step: PublishStep) -> bool {
    match step {
        PublishStep::CheckRecorded { .. } | PublishStep::MarkFinalizing { .. }
        | PublishStep::Record { .. } | PublishStep::Unqueue { .. } | PublishStep::Link { .. }
        | PublishStep::SyncLink { .. } | PublishStep::VerifyLink { .. }
        | PublishStep::InsertPost { .. } | PublishStep::ReferFile { .. }
        | PublishStep::InsertFile { .. } | PublishStep::ReferAsset { .. }
        | PublishStep::InsertAsset { .. } | PublishStep::Touch { .. } | PublishStep::Commit {
            ..
        } => true,
        _ => false,
    }
}

/// Whether the step only reads, before anything is written.
pub open spec fn is_reading(step: PublishStep) -> bool {
    step is FindSession || step is FindPredecessor || step is Measure || step is LookUp
}

/// Whether the step belongs to the undoing of a failed publication.
pub open spec fn is_undoing(step: PublishStep) -> bool {
    step is AskTransaction || step is Unlink || step is RollBack
}

/// What holds of every state of a publication.
pub open spec fn consistent(plan: PublishPlan, s: PublishState) -> bool {
    &&& blob_of(s.step) matches Some(blob) ==> blob < s.blobs.len()
    &&& file_of(s.step) matches Some(file) ==> {
        &&& file < plan.asset_counts.len()
        &&& asset_of(s.step) matches Some(asset) ==> asset < plan.asset_counts[file as int]
    }
    &&& s.step matches PublishStep::Unlink { link } ==> link < s.links.len()
    &&& forall|i: int| 0 <= i < s.links.len() ==> (#[trigger] s.links[i]) < s.blobs.len()
    &&& is_reading(s.step) ==> s.links.len() == 0
    &&& is_undoing(s.step) ==> s.failure is Some
    &&& is_paid_for(s.step) ==> s.additional == 0 || s.current + s.additional <= plan.budget
    &&& s.step is Finished <==> s.outcome is Some
    &&& s.outcome matches Some(Ok(_)) ==> s.additional == 0 || s.current + s.additional
        <= plan.budget
}

/// A publication under way.
#[derive(Debug)]
pub struct Publishing {
    session_public_id: String,
    predecessor_post_id: Option<i64>,
    published_at: i64,
    budget: u64,
    occurrences: Vec<BlobRecord>,
    asset_counts: Vec<usize>,
    step: PublishStep,
    blobs: Vec<BlobRecord>,
    current: u64,
    additional: u64,
    links: Vec<usize>,
    retained: Vec<usize>,
    failure: Option<StoreError>,
    cleanup_failure: Option<StoreError>,
    outcome: Option<Result<PostRecord, StoreError>>,
}

impl View for Publishing {
    type V = PublishState;

    closed spec fn view(&self) -> PublishState {
        PublishState {
            step: self.step,
            blobs: self.blobs@,
            current: self.current,
            additional: self.additional,
            links: self.links@,
            retained: self.retained@,
            failure: self.failure,
            cleanup_failure: self.cleanup_failure,
            outcome: self.outcome,
        }
    }
}

impl Publishing {
    /// What does not change.
    pub closed spec fn plan(self) -> PublishPlan {
        PublishPlan {
            session_public_id: self.session_public_id,
            predecessor_post_id: self.predecessor_post_id,
            published_at: self.published_at,
            budget: self.budget,
            occurrences: self.occurrences@,
            asset_counts: self.asset_counts@,
        }
    }

    /// What holds of every publication under way.
    pub open spec fn wf(self) -> bool {
        consistent(self.plan(), self@)
    }

    /// Starts a publication, once its request has been found valid.
    pub fn start(request: &PublicationRequest, published_at: i64, budget: u64) -> (run: Self)
        ensures
            run.wf(),
            run@ == first_state(),
            run.plan().session_public_id == request.session_public_id,
            run.plan().predecessor_post_id == request.predecessor_post_id,
            run.plan().published_at == published_at,
            run.plan().budget == budget,
            run.plan().occurrences == publication::file_blobs(request.files@),
            run.plan().asset_counts == request.files@.map_values(
                |file: publication::PublicationFile| file.support_assets@.len() as usize,
            ),
    {
        let occurrences = publication::occurrences(request);
        let mut asset_counts: Vec<usize> = Vec::new();
        let ghost counts = request.files@.map_values(
            |file: publication::PublicationFile| file.support_assets@.len() as usize,
        );
        let mut i: usize = 0;
        while i < request.files.len()
            invariant
                i <= request.files.len(),
                asset_counts@ == counts.take(i as int),
                counts == request.files@.map_values(
                    |file: publication::PublicationFile| file.support_assets@.len() as usize,
                ),
            decreases request.files.len() - i,
        {
            asset_counts.push(request.files[i].support_assets.len());
            assert(asset_counts@ =~= counts.take(i + 1));
            i += 1;
        }
        assert(counts.take(counts.len() as int) =~= counts);
        Publishing {
            session_public_id: request.session_public_id.clone(),
            predecessor_post_id: request.predecessor_post_id,
            published_at,
            budget,
            occurrences,
            asset_counts,
            step: PublishStep::FindSession,
            blobs: Vec::new(),
            current: 0,
            additional: 0,
            links: Vec::new(),
            retained: Vec::new(),
            failure: None,
            cleanup_failure: None,
            outcome: None,
        }
    }

    /// What the caller is to do next.
    pub fn step(&self) -> (step: PublishStep)
        ensures
            step == self@.step,
    {
        self.step
    }

    /// The blob with the given number.
    pub fn blob(&self, number: usize) -> (blob: Option<&BlobRecord>)
        ensures
            match blob {
                Some(found) => number < self@.blobs.len() && *found == self@.blobs[number as int],
                None => number >= self@.blobs.len(),
            },
    {
        if number < self.blobs.len() {
            Some(&self.blobs[number])
        } else {
            None
        }
    }

    /// The number of the blob of a new link.
    pub fn linked_blob(&self, link: usize) -> (number: Option<usize>)
        ensures
            match number {
                Some(found) => link < self@.links.len() && found == self@.links[link as int],
                None => link >= self@.links.len(),
            },
    {
        if link < self.links.len() {
            Some(self.links[link])
        } else {
            None
        }
    }

    /// The numbers of the blobs whose staging is kept for recovery.
    pub fn retained(&self) -> (numbers: &Vec<usize>)
        ensures
            numbers@ == self@.retained,
    {
        &self.retained
    }

    /// The outcome, once there is nothing left to do.
    pub fn into_outcome(self) -> (outcome: Option<Result<PostRecord, StoreError>>)
        ensures
            outcome == self@.outcome,
    {
        self.outcome
    }

    fn fail(&mut self, error: StoreError)
        ensures
            final(self).plan() == old(self).plan(),
            final(self)@ == failed(old(self)@, error),
    {
        self.step = PublishStep::AskTransaction;
        self.failure = Some(error);
    }

    fn fail_with(&mut self, message: &str)
        ensures
            final(self).plan() == old(self).plan(),
            final(self)@.failure matches Some(StoreError::Io(cause)) && cause@ == message@,
            final(self)@ == failed(old(self)@, final(self)@.failure->0),
    {
        self.fail(StoreError::Io(text::copy_of(message)));
    }

    fn take_blobs(&mut self, session_id: i64)
        ensures
            final(self).plan() == old(self).plan(),
            final(self)@ == with_blobs(old(self).plan(), old(self)@, session_id),
    {
        match publication::unique_blobs(&self.occurrences) {
            Ok(blobs) => {
                self.blobs = blobs;
                self.step = PublishStep::Measure { session_id };
            },
            Err(error) => {
                proof {
                    publication::lemma_clash(self.occurrences@);
                }
                self.fail(error);
            },
        }
    }

    fn install(&mut self, session_id: i64, blob: usize)
        ensures
            final(self).plan() == old(self).plan(),
            final(self)@ == install_from(old(self)@, session_id, blob as int),
    {
        if blob < self.blobs.len() {
            self.step = PublishStep::CheckRecorded { session_id, blob };
        } else {
            self.step = PublishStep::InsertPost { session_id };
        }
    }

    fn look(&mut self, session_id: i64, blob: usize)
        ensures
            final(self).plan() == old(self).plan(),
            final(self)@ == look_from(old(self).plan(), old(self)@, session_id, blob as int),
    {
        if blob < self.blobs.len() {
            self.step = PublishStep::LookUp { session_id, blob };
            return ;
        }
        let fits = match self.current.checked_add(self.additional) {
            Some(total) => total <= self.budget,
            None => false,
        };
        if self.additional > 0 && !fits {
            let limit: u64 = self.budget;
            let current: u64 = self.current;
            let additional: u64 = self.additional;
            self.fail(StoreError::GlobalBlobBudgetExceeded { limit, current, additional });
        } else {
            self.install(session_id, 0);
        }
    }

    fn insert_file(&mut self, session_id: i64, post_id: i64, file: usize)
        ensures
            final(self).plan() == old(self).plan(),
            final(self)@ == file_from(
                old(self).plan(),
                old(self)@,
                session_id,
                post_id,
                file as int,
            ),
    {
        if file < self.asset_counts.len() {
            self.step = PublishStep::ReferFile { session_id, post_id, file };
        } else {
            self.step = PublishStep::Touch { session_id, post_id };
        }
    }

    fn insert_asset(
        &mut self,
        session_id: i64,
        post_id: i64,
        file: usize,
        entry_id: i64,
        asset: usize,
    )
        requires
            file < old(self).plan().asset_counts.len(),
        ensures
            final(self).plan() == old(self).plan(),
            final(self)@ == asset_from(
                old(self).plan(),
                old(self)@,
                session_id,
                post_id,
                file,
                entry_id,
                asset as int,
            ),
    {
        if asset < self.asset_counts[file] {
            self.step = PublishStep::ReferAsset { session_id, post_id, file, entry_id, asset };
        } else {
            assert(file < self.asset_counts.len());
            self.insert_file(session_id, post_id, file + 1);
        }
    }

    fn unlink(&mut self, link: usize)
        ensures
            final(self).plan() == old(self).plan(),
            final(self)@ == unlink_from(old(self)@, link as int),
    {
        if link < self.links.len() {
            self.step = PublishStep::Unlink { link };
        } else {
            self.step = PublishStep::RollBack;
        }
    }

    fn finish(&mut self, outcome: Result<PostRecord, StoreError>)
        ensures
            final(self).plan() == old(self).plan(),
            final(self)@ == finished(old(self)@, outcome),
    {
        self.step = PublishStep::Finished;
        self.outcome = Some(outcome);
    }

    fn fits(&self, answer: &PublishAnswer) -> (yes: bool)
        ensures
            yes == answers(self@.step, *answer),
    {
        match (self.step, answer) {
            (PublishStep::AskTransaction, PublishAnswer::Flag(_)) => true,
            (PublishStep::AskTransaction, _) => false,
            (PublishStep::Finished, _) => false,
            (_, PublishAnswer::Failed(_)) => true,
            (PublishStep::FindSession, PublishAnswer::Found(_)) => true,
            (PublishStep::FindPredecessor { .. }, PublishAnswer::Found(_)) => true,
            (PublishStep::LookUp { .. }, PublishAnswer::Found(_)) => true,
            (PublishStep::Measure { .. }, PublishAnswer::Bytes(_)) => true,
            (PublishStep::CheckRecorded { .. }, PublishAnswer::Flag(_)) => true,
            (PublishStep::Link { .. }, PublishAnswer::Flag(_)) => true,
            (PublishStep::InsertPost { .. }, PublishAnswer::Id(_)) => true,
            (PublishStep::ReferFile { .. }, PublishAnswer::Id(_)) => true,
            (PublishStep::InsertFile { .. }, PublishAnswer::Id(_)) => true,
            (PublishStep::ReferAsset { .. }, PublishAnswer::Id(_)) => true,
            (PublishStep::InsertAsset { .. }, PublishAnswer::Id(_)) => true,
            (PublishStep::MarkFinalizing { .. }, PublishAnswer::Done) => true,
            (PublishStep::Record { .. }, PublishAnswer::Done) => true,
            (PublishStep::Unqueue { .. }, PublishAnswer::Done) => true,
            (PublishStep::SyncLink { .. }, PublishAnswer::Done) => true,
            (PublishStep::VerifyLink { .. }, PublishAnswer::Done) => true,
            (PublishStep::Touch { .. }, PublishAnswer::Done) => true,
            (PublishStep::Commit { .. }, PublishAnswer::Done) => true,
            (PublishStep::Unlink { .. }, PublishAnswer::Done) => true,
            (PublishStep::RollBack, PublishAnswer::Done) => true,
            _ => false,
        }
    }

    /// Takes in what came of the step, and decides the next. An answer that the step cannot have
    /// changes nothing.
    pub fn advance(&mut self, answer: PublishAnswer)
        requires
            old(self).wf(),
        ensures
            final(self).wf(),
            final(self).plan() == old(self).plan(),
            if answers(old(self)@.step, answer) {
                follows(old(self).plan(), old(self)@, answer, final(self)@)
            } else {
                final(self)@ == old(self)@
            },
    {
        if !self.fits(&answer) {
            return;
        }
        match answer {
            PublishAnswer::Failed(error) => {
                self.step_failed(error);
            },
            answer => {
                self.step_done(answer);
            },
        }
    }

    fn step_failed(&mut self, error: StoreError)
        requires
            old(self).wf(),
            answers(old(self)@.step, PublishAnswer::Failed(error)),
        ensures
            final(self).wf(),
            final(self).plan() == old(self).plan(),
            final(self)@ == after_failure(old(self)@, error),
    {
        match self.step {
            PublishStep::Unlink { link } => {
                let number: usize = self.links[link];
                self.retained.push(number);
                if self.cleanup_failure.is_none() {
                    self.cleanup_failure = Some(error);
                }
                assert(link < self.links.len());
                self.unlink(link + 1);
            },
            PublishStep::RollBack => {
                let mut i: usize = 0;
                let ghost before = *self;
                while i < self.links.len()
                    invariant
                        i <= self.links.len(),
                        self.plan() == before.plan(),
                        self@ == (PublishState {
                            retained: before@.retained + before@.links.take(i as int),
                            ..before@
                        }),
                    decreases self.links.len() - i,
                {
                    let number: usize = self.links[i];
                    self.retained.push(number);
                    assert(self.retained@ =~= before@.retained + before@.links.take(i + 1));
                    i += 1;
                }
                assert(before@.links.take(before@.links.len() as int) =~= before@.links);
                self.finish(Err(error));
            },
            _ => {
                self.fail(error);
            },
        }
    }

    #[verifier::rlimit(50)]
    fn step_done(&mut self, answer: PublishAnswer)
        requires
            old(self).wf(),
            answers(old(self)@.step, answer),
            !(answer is Failed),
        ensures
            final(self).wf(),
            final(self).plan() == old(self).plan(),
            follows(old(self).plan(), old(self)@, answer, final(self)@),
    {
        match (self.step, answer) {
            (PublishStep::FindSession, PublishAnswer::Found(None)) => {
                let public_id = self.session_public_id.clone();
                self.fail(StoreError::SessionNotFound { public_id });
            },
            (PublishStep::FindSession, PublishAnswer::Found(Some(session_id))) => {
                match self.predecessor_post_id {
                    Some(post_id) => {
                        self.step = PublishStep::FindPredecessor { session_id, post_id };
                    },
                    None => {
                        self.take_blobs(session_id);
                    },
                }
            },
            (PublishStep::FindPredecessor { session_id, post_id }, PublishAnswer::Found(found)) => {
                match publication::validate_predecessor(post_id, found, session_id) {
                    Ok(_) => {
                        self.take_blobs(session_id);
                    },
                    Err(error) => {
                        self.fail(error);
                    },
                }
            },
            (PublishStep::Measure { session_id }, PublishAnswer::Bytes(current)) => {
                self.current = current;
                self.additional = 0;
                self.look(session_id, 0);
            },
            (PublishStep::LookUp { session_id, blob }, PublishAnswer::Found(Some(size))) => {
                if size < 0 {
                    self.fail_with("negative blob byte count");
                } else if size as u64 != self.blobs[blob].byte_size() {
                    let error = blob::size_mismatch(
                        self.blobs[blob].hash(),
                        size as u64,
                        self.blobs[blob].byte_size(),
                    );
                    self.fail(error);
                } else {
                    assert(blob < self.blobs.len());
                    self.look(session_id, blob + 1);
                }
            },
            (PublishStep::LookUp { session_id, blob }, PublishAnswer::Found(None)) => {
                match self.additional.checked_add(self.blobs[blob].byte_size()) {
                    Some(additional) => {
                        self.additional = additional;
                        assert(blob < self.blobs.len());
                        self.look(session_id, blob + 1);
                    },
                    None => {
                        self.fail_with("publication blob byte count exceeds u64");
                    },
                }
            },
            (PublishStep::CheckRecorded { session_id, blob }, PublishAnswer::Flag(recorded)) => {
                if recorded {
                    self.step = PublishStep::Unqueue { session_id, blob };
                } else {
                    self.step = PublishStep::MarkFinalizing { session_id, blob };
                }
            },
            (PublishStep::MarkFinalizing { session_id, blob }, _) => {
                let size: u64 = self.blobs[blob].byte_size();
                if size > 0x7fff_ffff_ffff_ffff {
                    self.fail_with("blob exceeds SQLite's maximum byte count");
                } else {
                    self.step = PublishStep::Record { session_id, blob, byte_size: size as i64 };
                }
            },
            (PublishStep::Record { session_id, blob, byte_size: _ }, _) => {
                self.step = PublishStep::Unqueue { session_id, blob };
            },
            (PublishStep::Unqueue { session_id, blob }, _) => {
                self.step = PublishStep::Link { session_id, blob };
            },
            (PublishStep::Link { session_id, blob }, PublishAnswer::Flag(new)) => {
                if new {
                    self.links.push(blob);
                    self.step = PublishStep::SyncLink { session_id, blob };
                } else {
                    self.step = PublishStep::VerifyLink { session_id, blob };
                }
            },
            (PublishStep::SyncLink { session_id, blob }, _) => {
                assert(blob < self.blobs.len());
                self.install(session_id, blob + 1);
            },
            (PublishStep::VerifyLink { session_id, blob }, _) => {
                assert(blob < self.blobs.len());
                self.install(session_id, blob + 1);
            },
            (PublishStep::InsertPost { session_id }, PublishAnswer::Id(post_id)) => {
                self.insert_file(session_id, post_id, 0);
            },
            (
                PublishStep::ReferFile { session_id, post_id, file },
                PublishAnswer::Id(reference_id),
            ) => {
                self.step = PublishStep::InsertFile { session_id, post_id, file, reference_id };
            },
            (
                PublishStep::InsertFile { session_id, post_id, file, reference_id: _ },
                PublishAnswer::Id(entry_id),
            ) => {
                self.insert_asset(session_id, post_id, file, entry_id, 0);
            },
            (
                PublishStep::ReferAsset { session_id, post_id, file, entry_id, asset },
                PublishAnswer::Id(reference_id),
            ) => {
                self.step = PublishStep::InsertAsset {
                    session_id,
                    post_id,
                    file,
                    entry_id,
                    asset,
                    reference_id,
                };
            },
            (
                PublishStep::InsertAsset {
                    session_id,
                    post_id,
                    file,
                    entry_id,
                    asset,
                    reference_id: _,
                },
                _,
            ) => {
                assert(asset < self.asset_counts@[file as int]);
                self.insert_asset(session_id, post_id, file, entry_id, asset + 1);
            },
            (PublishStep::Touch { session_id, post_id }, _) => {
                self.step = PublishStep::Commit { session_id, post_id };
            },
            (PublishStep::Commit { session_id, post_id }, _) => {
                let record = PostRecord {
                    id: post_id,
                    session_id,
                    session_public_id: self.session_public_id.clone(),
                    predecessor_post_id: self.predecessor_post_id,
                    published_at: self.published_at,
                };
                self.finish(Ok(record));
            },
            (PublishStep::AskTransaction, PublishAnswer::Flag(open)) => {
                if open {
                    self.unlink(0);
                } else {
                    match self.failure.take() {
                        Some(error) => {
                            self.finish(Err(error));
                        },
                        None => {},
                    }
                }
            },
            (PublishStep::Unlink { link }, _) => {
                assert(link < self.links.len());
                self.unlink(link + 1);
            },
            (PublishStep::RollBack, _) => {
                match self.cleanup_failure.take() {
                    Some(error) => {
                        self.finish(Err(error));
                    },
                    None => match self.failure.take() {
                        Some(error) => {
                            self.finish(Err(error));
                        },
                        None => {},
                    },
                }
            },
            _ => {},
        }
    }
}

// ---- laws ----

/// The state after a run of answers.
pub open spec fn run(plan: PublishPlan, s: PublishState, answers: Seq<PublishAnswer>) -> PublishState
    decreases answers.len(),
{
    if answers.len() == 0 {
        s
    } else {
        next(plan, run(plan, s, answers.drop_last()), answers.last())
    }
}

/// The bytes that blobs add to the store: the sizes of those that are not recorded in it.
pub open spec fn charge(blobs: Seq<BlobRecord>, recorded: Seq<Option<i64>>, k: int) -> int
    decreases k,
{
    if k <= 0 {
        0
    } else {
        charge(blobs, recorded, k - 1) + if recorded[k - 1] is None {
            blobs[k - 1]@.1 as int
        } else {
            0
        }
    }
}

/// A publication that succeeds leaves the store within its budget, unless it added nothing.
pub proof fn law_published_within_budget(plan: PublishPlan, s: PublishState)
    requires
        consistent(plan, s),
        s.outcome matches Some(Ok(_)),
    ensures
        s.additional == 0 || s.current + s.additional <= plan.budget,
{
}

proof fn lemma_charge_grows(blobs: Seq<BlobRecord>, recorded: Seq<Option<i64>>, j: int, k: int)
    requires
        0 <= j <= k,
    ensures
        0 <= charge(blobs, recorded, j) <= charge(blobs, recorded, k),
    decreases k,
{
    if j < k {
        lemma_charge_grows(blobs, recorded, j, k - 1);
    } else if k > 0 {
        lemma_charge_grows(blobs, recorded, j - 1, k - 1);
    }
}

/// Every blob of a publication is charged once and only where the store does not have it: with
/// recorded sizes that agree, the look-ups end at the budget check with exactly the bytes of the
/// new blobs, which refuses them exactly where they do not fit.
pub proof fn law_new_blobs_are_charged_once(
    plan: PublishPlan,
    s: PublishState,
    session_id: i64,
    recorded: Seq<Option<i64>>,
    k: int,
)
    requires
        s.additional == 0,
        0 <= k <= recorded.len(),
        recorded.len() == s.blobs.len() <= usize::MAX,
        charge(s.blobs, recorded, recorded.len() as int) <= u64::MAX,
        forall|i: int|
            0 <= i < recorded.len() ==> ((#[trigger] recorded[i]) matches Some(size) ==> size
                == s.blobs[i]@.1),
    ensures
        ({
            let found = Seq::new(k as nat, |i: int| PublishAnswer::Found(recorded[i]));
            run(plan, look_from(plan, s, session_id, 0), found) == look_from(
                plan,
                PublishState { additional: charge(s.blobs, recorded, k) as u64, ..s },
                session_id,
                k,
            )
        }),
    decreases k,
{
    let found = Seq::new(k as nat, |i: int| PublishAnswer::Found(recorded[i]));
    if k == 0 {
        assert(found =~= Seq::<PublishAnswer>::empty());
    } else {
        let earlier = Seq::new((k - 1) as nat, |i: int| PublishAnswer::Found(recorded[i]));
        assert(found.drop_last() =~= earlier);
        law_new_blobs_are_charged_once(plan, s, session_id, recorded, k - 1);
        lemma_charge_grows(s.blobs, recorded, k, recorded.len() as int);
        lemma_charge_grows(s.blobs, recorded, k - 1, recorded.len() as int);
        let before = run(plan, look_from(plan, s, session_id, 0), earlier);
        assert(before.step == PublishStep::LookUp { session_id, blob: (k - 1) as usize });
        assert(found.last() == PublishAnswer::Found(recorded[k - 1]));
    }
}

/// A failed publication whose transaction is still open undoes every link that it made, one after
/// the other and whether or not an earlier removal failed, before it rolls back; it removes
/// nothing else.
pub proof fn law_new_links_are_undone(
    plan: PublishPlan,
    s: PublishState,
    removals: Seq<PublishAnswer>,
)
    requires
        s.step == PublishStep::AskTransaction,
        removals.len() <= s.links.len() <= usize::MAX,
        forall|i: int|
            0 <= i < removals.len() ==> ((#[trigger] removals[i]) is Done || removals[i] is Failed),
    ensures
        ({
            let start = next(plan, s, PublishAnswer::Flag(true));
            let now = run(plan, start, removals);
            &&& now.links == s.links
            &&& now.step == (if removals.len() < s.links.len() {
                PublishStep::Unlink { link: removals.len() as usize }
            } else {
                PublishStep::RollBack
            })
        }),
    decreases removals.len(),
{
    if removals.len() > 0 {
        law_new_links_are_undone(plan, s, removals.drop_last());
        assert(removals[removals.len() - 1] is Done || removals[removals.len() - 1] is Failed);
    }
}

} // verus!
