//! The deletion of blobs that nothing refers to any more.
use vstd::prelude::*;
use crate::hex;
use crate::storage::blob;
use crate::storage::error::StoreError;
use crate::storage::permanence;
use crate::storage::purging;
use crate::storage::tables::Tables;
use crate::text;

verus! {

/// What is to be done next. Where nothing else is said, the answer is `Done` or `Failed`.
#[derive(Debug, Clone, Copy, PartialEq, Eq, Structural)]
pub enum DrainStep {
    /// List the digests that are queued, each once; answer `Queued` or `Failed`.
    List,
    /// Begin an immediate transaction.
    Begin { blob: usize },
    /// Remove the row of the blob with this number, unless it is not queued or something refers to
    /// it; answer `Rows` or `Failed`.
    RemoveRow { blob: usize },
    /// Take the blob off the queue.
    Unqueue { blob: usize, removed: bool },
    /// Remove the blob's file, if it is there.
    RemoveFile { blob: usize },
    /// Bring the directory of the blob's file to the disk, if it is there.
    SyncDirectory { blob: usize },
    /// Commit the transaction.
    Commit { blob: usize, removed: bool },
    /// Something failed: ask whether the transaction is still open; answer `Flag`.
    AskTransaction,
    /// Roll the transaction back, as far as it works.
    RollBack,
    /// Nothing: every blob that was queued was dealt with.
    Drained,
    /// Nothing: the deletion was given up.
    NotDrained,
}

/// What came of a step.
#[derive(Debug)]
pub enum DrainAnswer {
    Queued(Vec<String>),
    Rows(u64),
    Done,
    Flag(bool),
    Failed(StoreError),
}

/// Why the deletion was given up.
#[derive(Debug)]
pub enum DrainFault {
    /// A step failed, and this is what was reported.
    Reported(StoreError),
    /// What is queued is not a digest.
    InvalidHash,
}

impl DrainFault {
    /// The failure of the store that the fault is.
    pub fn into_error(self) -> (error: StoreError)
        ensures
            match self {
                DrainFault::Reported(reported) => error == reported,
                DrainFault::InvalidHash => error matches StoreError::Io(cause) && cause@
                    == "blob hash must be 64 lowercase hexadecimal SHA-256 characters"@,
            },
    {
        match self {
            DrainFault::Reported(reported) => reported,
            DrainFault::InvalidHash => StoreError::Io(blob::InvalidBlobHash.message()),
        }
    }
}

/// The deletion of queued blobs: the digests that were queued, how many blobs are deleted, the next
/// step, and why it was given up.
#[derive(Debug)]
pub struct Draining {
    pub queued: Vec<String>,
    pub deleted: u64,
    pub step: DrainStep,
    pub fault: Option<DrainFault>,
}

/// The model of the deletion.
pub struct DrainModel {
    pub queued: Seq<Seq<char>>,
    pub deleted: u64,
    pub step: DrainStep,
    pub fault: Option<DrainFault>,
}

impl View for Draining {
    type V = DrainModel;

    open spec fn view(&self) -> DrainModel {
        DrainModel {
            queued: text::texts(self.queued@),
            deleted: self.deleted,
            step: self.step,
            fault: self.fault,
        }
    }
}

/// The deletion before its first step.
pub open spec fn undrained() -> DrainModel {
    DrainModel { queued: Seq::empty(), deleted: 0, step: DrainStep::List, fault: None }
}

/// The deletion at another step.
pub open spec fn at(m: DrainModel, step: DrainStep) -> DrainModel {
    DrainModel { step, ..m }
}

/// The deletion after a failure.
pub open spec fn failed(m: DrainModel, fault: DrainFault, step: DrainStep) -> DrainModel {
    DrainModel { step, fault: Some(fault), ..m }
}

/// The beginning with blob number `i`, or the end after the last. What is no digest stops the
/// deletion.
pub open spec fn begin_from(m: DrainModel, i: int) -> DrainModel {
    if i >= m.queued.len() {
        at(m, DrainStep::Drained)
    } else if blob::is_blob_hash(m.queued[i]) {
        at(m, DrainStep::Begin { blob: i as usize })
    } else {
        failed(m, DrainFault::InvalidHash, DrainStep::NotDrained)
    }
}

/// The deletion after a blob was dealt with.
pub open spec fn after_commit(m: DrainModel, blob: usize, removed: bool) -> DrainModel {
    begin_from(
        DrainModel {
            deleted: if removed {
                (m.deleted + 1) as u64
            } else {
                m.deleted
            },
            ..m
        },
        blob + 1,
    )
}

/// The deletion after the answer to its step; unchanged where that is not one to the step. A blob's
/// file goes only after its row went, in the same transaction.
pub open spec fn drain_after(m: DrainModel, answer: DrainAnswer) -> DrainModel {
    match (m.step, answer) {
        (DrainStep::Drained, _) => m,
        (DrainStep::NotDrained, _) => m,
        (DrainStep::AskTransaction, DrainAnswer::Flag(open)) => at(
            m,
            if open {
                DrainStep::RollBack
            } else {
                DrainStep::NotDrained
            },
        ),
        (DrainStep::AskTransaction, _) => m,
        (DrainStep::RollBack, DrainAnswer::Done) => at(m, DrainStep::NotDrained),
        (DrainStep::RollBack, DrainAnswer::Failed(_)) => at(m, DrainStep::NotDrained),
        (DrainStep::List, DrainAnswer::Failed(error)) => failed(
            m,
            DrainFault::Reported(error),
            DrainStep::NotDrained,
        ),
        (DrainStep::Begin { .. }, DrainAnswer::Failed(error)) => failed(
            m,
            DrainFault::Reported(error),
            DrainStep::NotDrained,
        ),
        (_, DrainAnswer::Failed(error)) => failed(
            m,
            DrainFault::Reported(error),
            DrainStep::AskTransaction,
        ),
        (DrainStep::List, DrainAnswer::Queued(queued)) => begin_from(
            DrainModel { queued: text::texts(queued@), ..m },
            0,
        ),
        (DrainStep::Begin { blob }, DrainAnswer::Done) => at(m, DrainStep::RemoveRow { blob }),
        (DrainStep::RemoveRow { blob }, DrainAnswer::Rows(rows)) => at(
            m,
            DrainStep::Unqueue { blob, removed: rows > 0 },
        ),
        (DrainStep::Unqueue { blob, removed }, DrainAnswer::Done) => at(
            m,
            if removed {
                DrainStep::RemoveFile { blob }
            } else {
                DrainStep::Commit { blob, removed }
            },
        ),
        (DrainStep::RemoveFile { blob }, DrainAnswer::Done) => at(
            m,
            DrainStep::SyncDirectory { blob },
        ),
        (DrainStep::SyncDirectory { blob }, DrainAnswer::Done) => at(
            m,
            DrainStep::Commit { blob, removed: true },
        ),
        (DrainStep::Commit { blob, removed }, DrainAnswer::Done) => after_commit(m, blob, removed),
        _ => m,
    }
}

/// The number of the blob that the step is about.
pub open spec fn blob_of(step: DrainStep) -> Option<usize> {
    match step {
        DrainStep::Begin { blob } | DrainStep::RemoveRow { blob } | DrainStep::Unqueue {
            blob,
            ..
        } | DrainStep::RemoveFile { blob } | DrainStep::SyncDirectory { blob }
        | DrainStep::Commit { blob, .. } => Some(blob),
        _ => None,
    }
}

/// Whether the parts of the deletion agree: the step is about a digest that was queued, no more
/// blobs are deleted than were dealt with, and a deletion that was given up says why.
pub open spec fn sound(m: DrainModel) -> bool {
    &&& blob_of(m.step) matches Some(blob) ==> {
        &&& blob < m.queued.len()
        &&& blob::is_blob_hash(m.queued[blob as int])
        &&& m.deleted <= blob
    }
    &&& m.step is List ==> m.deleted == 0
    &&& m.fault is Some <==> m.step is AskTransaction || m.step is RollBack || m.step is NotDrained
}

impl Draining {
    /// Starts to delete queued blobs.
    pub fn start() -> (run: Self)
        ensures
            run@ == undrained(),
            sound(run@),
    {
        let run = Draining { queued: Vec::new(), deleted: 0, step: DrainStep::List, fault: None };
        assert(run@.queued =~= Seq::<Seq<char>>::empty());
        run
    }

    fn begin(self, i: usize) -> (next: Self)
        requires
            self.fault is None,
            self.deleted <= i,
        ensures
            next@ == begin_from(self@, i as int),
            sound(next@),
    {
        if i >= self.queued.len() {
            Draining { step: DrainStep::Drained, ..self }
        } else if hex::lower_hex_text(self.queued[i].as_str(), 64) {
            Draining { step: DrainStep::Begin { blob: i }, ..self }
        } else {
            Draining { step: DrainStep::NotDrained, fault: Some(DrainFault::InvalidHash), ..self }
        }
    }

    /// The deletion after the answer to its step.
    pub fn advance(self, answer: DrainAnswer) -> (next: Self)
        requires
            sound(self@),
        ensures
            next@ == drain_after(self@, answer),
            sound(next@),
    {
        let mut run = self;
        match (run.step, answer) {
            (DrainStep::Drained, _) => {},
            (DrainStep::NotDrained, _) => {},
            (DrainStep::AskTransaction, DrainAnswer::Flag(open)) => {
                run.step = if open {
                    DrainStep::RollBack
                } else {
                    DrainStep::NotDrained
                };
            },
            (DrainStep::AskTransaction, _) => {},
            (DrainStep::RollBack, DrainAnswer::Done) => {
                run.step = DrainStep::NotDrained;
            },
            (DrainStep::RollBack, DrainAnswer::Failed(_)) => {
                run.step = DrainStep::NotDrained;
            },
            (DrainStep::RollBack, _) => {},
            (DrainStep::List, DrainAnswer::Failed(error)) => {
                run.step = DrainStep::NotDrained;
                run.fault = Some(DrainFault::Reported(error));
            },
            (DrainStep::Begin { .. }, DrainAnswer::Failed(error)) => {
                run.step = DrainStep::NotDrained;
                run.fault = Some(DrainFault::Reported(error));
            },
            (_, DrainAnswer::Failed(error)) => {
                run.step = DrainStep::AskTransaction;
                run.fault = Some(DrainFault::Reported(error));
            },
            (DrainStep::List, DrainAnswer::Queued(queued)) => {
                run.queued = queued;
                return run.begin(0);
            },
            (DrainStep::Begin { blob }, DrainAnswer::Done) => {
                run.step = DrainStep::RemoveRow { blob };
            },
            (DrainStep::RemoveRow { blob }, DrainAnswer::Rows(rows)) => {
                run.step = DrainStep::Unqueue { blob, removed: rows > 0 };
            },
            (DrainStep::Unqueue { blob, removed }, DrainAnswer::Done) => {
                run.step = if removed {
                    DrainStep::RemoveFile { blob }
                } else {
                    DrainStep::Commit { blob, removed }
                };
            },
            (DrainStep::RemoveFile { blob }, DrainAnswer::Done) => {
                run.step = DrainStep::SyncDirectory { blob };
            },
            (DrainStep::SyncDirectory { blob }, DrainAnswer::Done) => {
                run.step = DrainStep::Commit { blob, removed: true };
            },
            (DrainStep::Commit { blob, removed }, DrainAnswer::Done) => {
                assert(blob < run.queued.len());
                if removed {
                    run.deleted = run.deleted + 1;
                }
                return run.begin(blob + 1);
            },
            _ => {},
        }
        run
    }

    /// How many blobs were deleted, once all that were queued were dealt with; or why the deletion
    /// was given up. None while it goes on.
    pub fn into_outcome(self) -> (outcome: Option<Result<u64, DrainFault>>)
        ensures
            outcome == (match (self.step, self.fault) {
                (DrainStep::Drained, _) => Some(Ok(self.deleted)),
                (DrainStep::NotDrained, Some(fault)) => Some(Err(fault)),
                _ => None,
            }),
    {
        match (self.step, self.fault) {
            (DrainStep::Drained, _) => Some(Ok(self.deleted)),
            (DrainStep::NotDrained, Some(fault)) => Some(Err(fault)),
            _ => None,
        }
    }
}

// ---- what it does to the tables and the files ----

/// The tables, those when the latest transaction began, and the digests of the blob files that are
/// there.
#[verifier::ext_equal]
pub struct Shelf {
    pub tables: Tables,
    pub begun: Tables,
    pub files: Set<Seq<char>>,
}

/// The tables without the blob's row, which is off the queue too.
pub open spec fn without_blob(t: Tables, hash: Seq<char>) -> Tables {
    Tables { blobs: t.blobs.remove(hash), queue: t.queue.remove(hash), ..t }
}

/// Whether the step did what it says, and was answered accordingly.
pub open spec fn performed(m: DrainModel, answer: DrainAnswer, before: Shelf, after: Shelf) -> bool {
    let t = before.tables;
    let hash = match blob_of(m.step) {
        Some(blob) => m.queued[blob as int],
        None => Seq::empty(),
    };
    match (m.step, answer) {
        (DrainStep::List, DrainAnswer::Queued(queued)) => {
            &&& after == before
            &&& text::texts(queued@).no_duplicates()
            &&& text::texts(queued@).to_set() == t.queue
        },
        (DrainStep::Begin { .. }, DrainAnswer::Done) => after == (Shelf { begun: t, ..before }),
        (DrainStep::RemoveRow { .. }, DrainAnswer::Rows(rows)) => {
            if t.blobs.contains_key(hash) && t.queue.contains(hash) && !purging::is_referred(
                t,
                hash,
            ) {
                rows == 1 && after == (Shelf { tables: without_blob(t, hash), ..before })
            } else {
                rows == 0 && after == before
            }
        },
        (DrainStep::Unqueue { .. }, DrainAnswer::Done) => after == (Shelf {
            tables: Tables { queue: t.queue.remove(hash), ..t },
            ..before
        }),
        (DrainStep::RemoveFile { .. }, DrainAnswer::Done) => after == (Shelf {
            files: before.files.remove(hash),
            ..before
        }),
        (DrainStep::RemoveFile { .. }, DrainAnswer::Failed(_)) => after == before || after == (Shelf {
            files: before.files.remove(hash),
            ..before
        }),
        (DrainStep::RollBack, DrainAnswer::Done) => after == (Shelf {
            tables: before.begun,
            ..before
        }),
        _ => after == before,
    }
}

/// Whether these are the runs, the answers and the shelves of one deletion, step by step.
pub open spec fn drains(
    runs: Seq<DrainModel>,
    answers: Seq<DrainAnswer>,
    all: Seq<Shelf>,
) -> bool {
    &&& runs.len() == answers.len() + 1
    &&& all.len() == runs.len()
    &&& runs[0] == undrained()
    &&& all[0].begun == all[0].tables
    &&& forall|k: int| 0 <= k < runs.len() ==> (#[trigger] runs[k]).queued.len() <= usize::MAX
    &&& forall|k: int|
        0 <= k < answers.len() ==> {
            &&& runs[k + 1] == drain_after(runs[k], #[trigger] answers[k])
            &&& performed(runs[k], answers[k], all[k], all[k + 1])
        }
}

/// Whether the tables differ at most by blobs that nothing refers to, and by the queue.
pub open spec fn keeps_referred(first: Tables, t: Tables) -> bool {
    &&& t == (Tables { blobs: t.blobs, queue: t.queue, ..first })
    &&& forall|hash: Seq<char>| #[trigger]
        purging::is_referred(first, hash) ==> (t.blobs.contains_key(hash)
            <==> first.blobs.contains_key(hash)) && t.blobs[hash] == first.blobs[hash]
}

/// What holds at every step: what something refers to stays.
pub open spec fn spares(first: Shelf, m: DrainModel, now: Shelf) -> bool {
    &&& sound(m)
    &&& keeps_referred(first.tables, now.tables)
    &&& keeps_referred(first.tables, now.begun)
    &&& forall|hash: Seq<char>| #[trigger]
        purging::is_referred(first.tables, hash) && first.files.contains(hash)
            ==> now.files.contains(hash)
    &&& match m.step {
        DrainStep::Unqueue { blob, removed } => removed ==> !purging::is_referred(
            first.tables,
            m.queued[blob as int],
        ),
        DrainStep::RemoveFile { blob } => !purging::is_referred(
            first.tables,
            m.queued[blob as int],
        ),
        _ => true,
    }
}

proof fn lemma_same_references(first: Tables, t: Tables, hash: Seq<char>)
    requires
        t.references == first.references,
    ensures
        purging::is_referred(t, hash) == purging::is_referred(first, hash),
{
    if purging::is_referred(first, hash) {
        let id = choose|id: i64| #[trigger]
            first.references.contains_key(id) && first.references[id].hash == hash;
        assert(t.references.contains_key(id));
    }
    if purging::is_referred(t, hash) {
        let id = choose|id: i64| #[trigger]
            t.references.contains_key(id) && t.references[id].hash == hash;
        assert(first.references.contains_key(id));
    }
}

proof fn lemma_spares(
    first: Shelf,
    m: DrainModel,
    answer: DrainAnswer,
    now: Shelf,
    after: Shelf,
)
    requires
        m.queued.len() <= usize::MAX,
        drain_after(m, answer).queued.len() <= usize::MAX,
        spares(first, m, now),
        performed(m, answer, now, after),
    ensures
        spares(first, drain_after(m, answer), after),
{
    match blob_of(m.step) {
        Some(blob) => {
            lemma_same_references(first.tables, now.tables, m.queued[blob as int]);
        },
        None => {},
    }
}

proof fn lemma_run(
    runs: Seq<DrainModel>,
    answers: Seq<DrainAnswer>,
    all: Seq<Shelf>,
    k: int,
)
    requires
        drains(runs, answers, all),
        0 <= k < runs.len(),
    ensures
        spares(all[0], runs[k], all[k]),
    decreases k,
{
    if k > 0 {
        lemma_run(runs, answers, all, k - 1);
        assert(runs[k - 1].queued.len() <= usize::MAX);
        assert(runs[k] == drain_after(runs[k - 1], answers[k - 1]));
        assert(runs[k].queued.len() <= usize::MAX);
        lemma_spares(all[0], runs[k - 1], answers[k - 1], all[k - 1], all[k]);
    }
}

pub proof fn lemma_other_rows_stay(
    runs: Seq<DrainModel>,
    answers: Seq<DrainAnswer>,
    all: Seq<Shelf>,
    k: int,
)
    requires
        drains(runs, answers, all),
        0 <= k < all.len(),
    ensures
        all[k].tables == (Tables {
            blobs: all[k].tables.blobs,
            queue: all[k].tables.queue,
            ..all[0].tables
        }),
{
    lemma_run(runs, answers, all, k);
}

/// A blob that a post refers to is never deleted, whatever fails: at every step its row is as it
/// was, and its file is there if it was. No row but those of blobs and of the queue changes.
pub proof fn law_referred_blobs_stay(
    runs: Seq<DrainModel>,
    answers: Seq<DrainAnswer>,
    all: Seq<Shelf>,
    hash: Seq<char>,
    k: int,
)
    requires
        drains(runs, answers, all),
        purging::is_referred(all[0].tables, hash),
        0 <= k < all.len(),
    ensures
        all[k].tables.blobs.contains_key(hash) <==> all[0].tables.blobs.contains_key(hash),
        all[k].tables.blobs[hash] == all[0].tables.blobs[hash],
        all[0].files.contains(hash) ==> all[k].files.contains(hash),
        all[k].tables == (Tables {
            blobs: all[k].tables.blobs,
            queue: all[k].tables.queue,
            ..all[0].tables
        }),
{
    lemma_run(runs, answers, all, k);
}

/// The deletion of blobs keeps every post, at each of its steps.
pub proof fn law_draining_keeps_posts(
    runs: Seq<DrainModel>,
    answers: Seq<DrainAnswer>,
    all: Seq<Shelf>,
    post_id: i64,
    k: int,
)
    requires
        drains(runs, answers, all),
        all[0].tables.posts.contains_key(post_id),
        0 <= k < all.len(),
    ensures
        permanence::keeps_post(all[0].tables, all[k].tables, post_id),
{
    lemma_run(runs, answers, all, k);
    let first = all[0].tables;
    let now = all[k].tables;
    assert forall|id: i64| #[trigger] first.references.contains_key(id) implies purging::is_referred(
        first,
        first.references[id].hash,
    ) by {}
}

// ---- a deletion that comes to its end ----

/// Of the digests, those of recorded blobs that nothing refers to.
pub open spec fn deletable(t: Tables, hashes: Set<Seq<char>>) -> Set<Seq<char>> {
    hashes.filter(|hash: Seq<char>| t.blobs.contains_key(hash) && !purging::is_referred(t, hash))
}

/// The shelf once the blobs with these digests were dealt with.
pub open spec fn cleared(first: Shelf, now: Shelf, hashes: Set<Seq<char>>) -> bool {
    &&& now.tables == (Tables {
        blobs: first.tables.blobs.remove_keys(deletable(first.tables, hashes)),
        queue: first.tables.queue.difference(hashes),
        ..first.tables
    })
    &&& now.files == first.files.difference(deletable(first.tables, hashes))
}

/// Whether so many blobs are deletable.
pub open spec fn counts(t: Tables, hashes: Set<Seq<char>>, deleted: u64) -> bool {
    deletable(t, hashes).finite() && deletable(t, hashes).len() == deleted
}

/// What holds once the first `n` blobs were dealt with, and none of the others.
pub open spec fn dealt(first: Shelf, m: DrainModel, now: Shelf, n: int) -> bool {
    let some = m.queued.take(n).to_set();
    &&& m.queued.no_duplicates()
    &&& m.queued.to_set() == first.tables.queue
    &&& counts(first.tables, some, m.deleted)
    &&& cleared(first, now, some)
}

/// What holds while blob number `n` is dealt with and its row was asked for.
pub open spec fn dealing(first: Shelf, m: DrainModel, now: Shelf, n: int, removed: bool) -> bool {
    let some = m.queued.take(n).to_set();
    let more = some.insert(m.queued[n]);
    let t = first.tables;
    &&& m.queued.no_duplicates()
    &&& m.queued.to_set() == t.queue
    &&& counts(t, some, m.deleted)
    &&& removed <==> t.blobs.contains_key(m.queued[n]) && !purging::is_referred(t, m.queued[n])
    &&& now.tables == (Tables {
        blobs: t.blobs.remove_keys(deletable(t, more)),
        queue: now.tables.queue,
        ..t
    })
}

/// What holds at every step of a deletion that has not failed.
pub open spec fn under_way(first: Shelf, m: DrainModel, now: Shelf) -> bool {
    let t = first.tables;
    match m.step {
        DrainStep::List => now == first,
        DrainStep::Begin { blob } | DrainStep::RemoveRow { blob } => dealt(
            first,
            m,
            now,
            blob as int,
        ),
        DrainStep::Unqueue { blob, removed } => {
            let some = m.queued.take(blob as int).to_set();
            &&& dealing(first, m, now, blob as int, removed)
            &&& now.tables.queue == t.queue.difference(some) || now.tables.queue
                == t.queue.difference(some.insert(m.queued[blob as int]))
            &&& now.files == first.files.difference(deletable(t, some))
        },
        DrainStep::RemoveFile { blob } => {
            let some = m.queued.take(blob as int).to_set();
            &&& dealing(first, m, now, blob as int, true)
            &&& now.tables.queue == t.queue.difference(some.insert(m.queued[blob as int]))
            &&& now.files == first.files.difference(deletable(t, some))
        },
        DrainStep::SyncDirectory { blob } => {
            let more = m.queued.take(blob as int).to_set().insert(m.queued[blob as int]);
            &&& dealing(first, m, now, blob as int, true)
            &&& now.tables.queue == t.queue.difference(more)
            &&& now.files == first.files.difference(deletable(t, more))
        },
        DrainStep::Commit { blob, removed } => {
            let more = m.queued.take(blob as int).to_set().insert(m.queued[blob as int]);
            &&& dealing(first, m, now, blob as int, removed)
            &&& now.tables.queue == t.queue.difference(more)
            &&& now.files == first.files.difference(deletable(t, more))
        },
        DrainStep::Drained => {
            &&& cleared(first, now, t.queue)
            &&& counts(t, t.queue, m.deleted)
        },
        _ => true,
    }
}

proof fn lemma_deletable_with_one_more(t: Tables, some: Set<Seq<char>>, hash: Seq<char>)
    requires
        !some.contains(hash),
    ensures
        t.blobs.contains_key(hash) && !purging::is_referred(t, hash) ==> deletable(
            t,
            some.insert(hash),
        ) == deletable(t, some).insert(hash),
        !(t.blobs.contains_key(hash) && !purging::is_referred(t, hash)) ==> deletable(
            t,
            some.insert(hash),
        ) == deletable(t, some),
        !deletable(t, some).contains(hash),
{
    if t.blobs.contains_key(hash) && !purging::is_referred(t, hash) {
        assert(deletable(t, some.insert(hash)) =~= deletable(t, some).insert(hash));
    } else {
        assert(deletable(t, some.insert(hash)) =~= deletable(t, some));
    }
}

proof fn lemma_begin(first: Shelf, m: DrainModel, now: Shelf, n: int)
    requires
        m.queued.len() <= usize::MAX,
        0 <= n <= m.queued.len(),
        dealt(first, m, now, n),
    ensures
        under_way(first, begin_from(m, n), now),
{
    if n == m.queued.len() {
        assert(m.queued.take(n) =~= m.queued);
    }
}

proof fn lemma_dealt(
    first: Shelf,
    m: DrainModel,
    answer: DrainAnswer,
    now: Shelf,
    after: Shelf,
)
    requires
        m.queued.len() <= usize::MAX,
        drain_after(m, answer).queued.len() <= usize::MAX,
        sound(m),
        under_way(first, m, now),
        performed(m, answer, now, after),
    ensures
        under_way(first, drain_after(m, answer), after),
{
    let t = first.tables;
    let next = drain_after(m, answer);
    match blob_of(m.step) {
        Some(blob) => {
            let n = blob as int;
            let hash = m.queued[n];
            let some = m.queued.take(n).to_set();
            let more = some.insert(hash);
            purging::lemma_one_more(m.queued, n);
            if some.contains(hash) {
                let i = choose|i: int| 0 <= i < n && m.queued.take(n)[i] == hash;
                assert(m.queued[i] == m.queued[n]);
            }
            assert(m.queued.contains(hash));
            lemma_deletable_with_one_more(t, some, hash);
            lemma_same_references(t, now.tables, hash);
            assert(t.blobs.remove_keys(deletable(t, some)).remove(hash) =~= t.blobs.remove_keys(
                deletable(t, some).insert(hash),
            ));
            assert(t.queue.difference(some).remove(hash) =~= t.queue.difference(more));
            assert(t.queue.difference(more).remove(hash) =~= t.queue.difference(more));
            assert(first.files.difference(deletable(t, some)).remove(hash)
                =~= first.files.difference(deletable(t, some).insert(hash)));
            if m.step is Commit && answer is Done {
                let removed = m.step->Commit_removed;
                let then = DrainModel {
                    deleted: if removed {
                        (m.deleted + 1) as u64
                    } else {
                        m.deleted
                    },
                    ..m
                };
                assert(cleared(first, after, more));
                assert(counts(t, more, then.deleted));
                lemma_begin(first, then, after, n + 1);
            }
        },
        None => {
            if m.step is List && answer is Queued {
                let then = DrainModel { queued: text::texts(answer->Queued_0@), ..m };
                let none = Set::<Seq<char>>::empty();
                assert(then.queued.take(0).to_set() =~= none);
                assert(deletable(t, none) =~= none);
                assert(t.blobs.remove_keys(none) =~= t.blobs);
                assert(t.queue.difference(none) =~= t.queue);
                assert(first.files.difference(none) =~= first.files);
                lemma_begin(first, then, after, 0);
            }
        },
    }
}

proof fn lemma_under_way(
    runs: Seq<DrainModel>,
    answers: Seq<DrainAnswer>,
    all: Seq<Shelf>,
    k: int,
)
    requires
        drains(runs, answers, all),
        0 <= k < runs.len(),
    ensures
        under_way(all[0], runs[k], all[k]),
    decreases k,
{
    if k > 0 {
        lemma_under_way(runs, answers, all, k - 1);
        lemma_run(runs, answers, all, k - 1);
        assert(runs[k - 1].queued.len() <= usize::MAX);
        assert(runs[k] == drain_after(runs[k - 1], answers[k - 1]));
        assert(runs[k].queued.len() <= usize::MAX);
        lemma_dealt(all[0], runs[k - 1], answers[k - 1], all[k - 1], all[k]);
    }
}

/// A deletion that comes to its end leaves nothing queued. Of the blobs that were queued, those
/// that nothing refers to are gone, the row and the file; the others stay, and so does everything
/// else. The count is that of the rows that went.
pub proof fn law_drained_blobs_are_gone(
    runs: Seq<DrainModel>,
    answers: Seq<DrainAnswer>,
    all: Seq<Shelf>,
)
    requires
        drains(runs, answers, all),
        runs.last().step is Drained,
    ensures
        cleared(all[0], all.last(), all[0].tables.queue),
        all.last().tables.queue == Set::<Seq<char>>::empty(),
        counts(all[0].tables, all[0].tables.queue, runs.last().deleted),
{
    lemma_under_way(runs, answers, all, runs.len() - 1);
    assert(all.last().tables.queue =~= Set::<Seq<char>>::empty());
}

} // verus!
