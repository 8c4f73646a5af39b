//! Storing a staged blob on its own: its row, its file, and how both are undone together.
use vstd::prelude::*;
use crate::storage::blob;
use crate::storage::blob::BlobRecord;
use crate::storage::error::StoreError;
use crate::text;

verus! {

/// Why a blob was not stored.
#[derive(Debug)]
pub enum FinalFault {
    /// A step failed, and this is what was reported.
    Reported(StoreError),
    /// The database cannot hold the size.
    TooLarge,
    /// The database holds this size instead.
    RecordedSize(i64),
}

/// The failure of the store that a fault with a blob is.
pub open spec fn is_fault(error: StoreError, blob: BlobRecord, fault: FinalFault) -> bool {
    match fault {
        FinalFault::Reported(reported) => error == reported,
        FinalFault::TooLarge => error matches StoreError::Io(cause) && cause@
            == "blob exceeds SQLite's maximum byte count"@,
        FinalFault::RecordedSize(size) => blob::is_size_mismatch(
            error,
            blob@.0,
            if size < 0 {
                0
            } else {
                size as u64
            },
            blob@.1,
        ),
    }
}

/// The failure of the store that a fault with a blob is.
pub fn fault_error(blob: &BlobRecord, fault: FinalFault) -> (error: StoreError)
    ensures
        is_fault(error, *blob, fault),
{
    match fault {
        FinalFault::Reported(reported) => reported,
        FinalFault::TooLarge => StoreError::Io(
            text::copy_of("blob exceeds SQLite's maximum byte count"),
        ),
        FinalFault::RecordedSize(size) => {
            let recorded: u64 = if size < 0 {
                0
            } else {
                size as u64
            };
            blob::size_mismatch(blob.hash(), recorded, blob.byte_size())
        },
    }
}

/// What is to be done next. Where nothing else is said, the answer is `Done` or `Failed`.
#[derive(Debug, Clone, Copy, PartialEq, Eq, Structural)]
pub enum FinalStep {
    /// Begin an immediate transaction.
    Begin,
    /// Insert the blob's row with this size, unless there is one.
    Insert { byte_size: i64 },
    /// Ask for the size in the blob's row; answer `Size(Some(..))` or `Failed`.
    AskSize,
    /// Create the directory of the blob's file where it is missing.
    MakeDirectory,
    /// Link the staged file to the blob's path; answer `Exists` where a file stands there.
    Link,
    /// Bring the directory of the blob's file to the disk.
    SyncLink,
    /// Check the size and the contents of the file that stands at the blob's path.
    VerifyFile,
    /// Commit the transaction.
    Commit,
    /// Something failed: ask whether the transaction is still open; answer `Flag`.
    AskTransaction,
    /// Begin an immediate transaction to look at what was committed.
    BeginAgain,
    /// Ask for the size in the blob's row; answer `Size` or `Failed`.
    AskAgain,
    /// Remove the file at the blob's path, and bring its directory to the disk.
    Unlink,
    /// Roll the transaction back.
    RollBack,
    /// Nothing: the blob is stored.
    Stored,
    /// Nothing: the blob is not stored.
    NotStored,
}

/// What came of a step.
#[derive(Debug)]
pub enum FinalAnswer {
    Done,
    Exists,
    Size(Option<i64>),
    Flag(bool),
    Failed(StoreError),
}

/// The model of the run.
pub struct FinalModel {
    pub blob: BlobRecord,
    /// Whether this run made the blob's file.
    pub linked: bool,
    /// Whether a transaction of this run is open.
    pub open: bool,
    /// Why the blob is not stored.
    pub fault: Option<FinalFault>,
    /// The first failure of undoing, which outweighs the fault.
    pub undo_fault: Option<StoreError>,
    pub step: FinalStep,
}

/// The run before its first step.
pub open spec fn unstored(blob: BlobRecord) -> FinalModel {
    FinalModel {
        blob,
        linked: false,
        open: false,
        fault: None,
        undo_fault: None,
        step: FinalStep::Begin,
    }
}

/// The run at another step.
pub open spec fn at(run: FinalModel, step: FinalStep) -> FinalModel {
    FinalModel { step, ..run }
}

/// The run after a fault: undoing starts.
pub open spec fn faulty(run: FinalModel, fault: FinalFault) -> FinalModel {
    FinalModel { fault: Some(fault), step: FinalStep::AskTransaction, ..run }
}

/// The run once it is known whether the file that it made goes: it goes unless the blob's row was
/// committed after all.
pub open spec fn undo_file(run: FinalModel, committed: bool) -> FinalModel {
    at(
        run,
        if run.linked && !committed {
            FinalStep::Unlink
        } else {
            FinalStep::RollBack
        },
    )
}

/// The run after a step failed.
pub open spec fn after_fault(run: FinalModel, error: StoreError) -> FinalModel {
    match run.step {
        FinalStep::Begin => FinalModel {
            fault: Some(FinalFault::Reported(error)),
            step: FinalStep::NotStored,
            ..run
        },
        FinalStep::AskTransaction | FinalStep::Stored | FinalStep::NotStored => run,
        FinalStep::BeginAgain => FinalModel {
            undo_fault: Some(error),
            step: FinalStep::NotStored,
            ..run
        },
        FinalStep::AskAgain | FinalStep::Unlink => FinalModel {
            undo_fault: Some(error),
            step: FinalStep::RollBack,
            ..run
        },
        FinalStep::RollBack => FinalModel {
            undo_fault: if run.undo_fault is Some {
                run.undo_fault
            } else {
                Some(error)
            },
            step: FinalStep::NotStored,
            ..run
        },
        _ => faulty(run, FinalFault::Reported(error)),
    }
}

/// The run after an answer; unchanged where the answer is not one to the step.
pub open spec fn run_after(run: FinalModel, answer: FinalAnswer) -> FinalModel {
    match (run.step, answer) {
        (_, FinalAnswer::Failed(error)) => after_fault(run, error),
        (FinalStep::Begin, FinalAnswer::Done) => if run.blob@.1 <= i64::MAX {
            FinalModel {
                open: true,
                step: FinalStep::Insert { byte_size: run.blob@.1 as i64 },
                ..run
            }
        } else {
            faulty(FinalModel { open: true, ..run }, FinalFault::TooLarge)
        },
        (FinalStep::Insert { .. }, FinalAnswer::Done) => at(run, FinalStep::AskSize),
        (FinalStep::AskSize, FinalAnswer::Size(Some(size))) => if size == run.blob@.1 {
            at(run, FinalStep::MakeDirectory)
        } else {
            faulty(run, FinalFault::RecordedSize(size))
        },
        (FinalStep::MakeDirectory, FinalAnswer::Done) => at(run, FinalStep::Link),
        (FinalStep::Link, FinalAnswer::Done) => FinalModel {
            linked: true,
            step: FinalStep::SyncLink,
            ..run
        },
        (FinalStep::Link, FinalAnswer::Exists) => at(run, FinalStep::VerifyFile),
        (FinalStep::SyncLink, FinalAnswer::Done) => at(run, FinalStep::Commit),
        (FinalStep::VerifyFile, FinalAnswer::Done) => at(run, FinalStep::Commit),
        (FinalStep::Commit, FinalAnswer::Done) => FinalModel {
            open: false,
            step: FinalStep::Stored,
            ..run
        },
        (FinalStep::AskTransaction, FinalAnswer::Flag(open)) => if open {
            undo_file(FinalModel { open: true, ..run }, false)
        } else {
            FinalModel { open: false, step: FinalStep::BeginAgain, ..run }
        },
        (FinalStep::BeginAgain, FinalAnswer::Done) => FinalModel {
            open: true,
            step: FinalStep::AskAgain,
            ..run
        },
        (FinalStep::AskAgain, FinalAnswer::Size(recorded)) => undo_file(
            run,
            blob::records_size(recorded, run.blob@.1),
        ),
        (FinalStep::Unlink, FinalAnswer::Done) => at(run, FinalStep::RollBack),
        (FinalStep::RollBack, FinalAnswer::Done) => FinalModel {
            open: false,
            step: FinalStep::NotStored,
            ..run
        },
        _ => run,
    }
}

/// Whether nothing has gone wrong at the step.
pub open spec fn goes_on(step: FinalStep) -> bool {
    step is Begin || step is Insert || step is AskSize || step is MakeDirectory || step is Link
        || step is SyncLink || step is VerifyFile || step is Commit
}

/// Whether the run's parts agree: it is stored only after its transaction was committed, and a
/// run that gave up says why.
pub open spec fn sound(run: FinalModel) -> bool {
    &&& run.step == FinalStep::Stored ==> !run.open && run.fault is None
    &&& run.step == FinalStep::NotStored ==> run.fault is Some
    &&& run.step is AskTransaction || run.step is BeginAgain || run.step is AskAgain || run.step
        is Unlink || run.step is RollBack ==> run.fault is Some
    &&& run.undo_fault is Some ==> run.fault is Some
    &&& run.step is Begin || run.step is BeginAgain ==> !run.open
    &&& goes_on(run.step) ==> run.fault is None
    &&& run.step is AskAgain || run.step is Unlink || run.step is RollBack ==> run.open
    &&& run.open && run.step == FinalStep::NotStored ==> run.undo_fault is Some
    &&& run.step is Unlink ==> run.linked
    &&& run.step is Begin || run.step is Insert || run.step is AskSize || run.step
        is MakeDirectory || run.step is Link || run.step is VerifyFile ==> !run.linked
}

/// A run that is over leaves no transaction open, unless the rollback itself failed; and a run
/// that gave up says why.
pub proof fn law_storing_stays_sound(run: FinalModel, answer: FinalAnswer, blob: BlobRecord)
    requires
        sound(run),
    ensures
        sound(unstored(blob)),
        sound(run_after(run, answer)),
        run_after(run, answer).blob == run.blob,
{
}

/// A file that the run made is removed when the run gives up with its transaction open, and when
/// the database turns out not to hold the blob; it stays only where the row was committed.
pub proof fn law_unrecorded_files_are_removed(run: FinalModel, answer: FinalAnswer)
    requires
        sound(run),
        run.linked,
    ensures
        run.step is AskTransaction && (answer matches FinalAnswer::Flag(open) && open) ==> run_after(
            run,
            answer,
        ).step is Unlink,
        run.step is AskAgain ==> (answer matches FinalAnswer::Size(recorded) ==> (run_after(
            run,
            answer,
        ).step is Unlink <==> !blob::records_size(recorded, run.blob@.1))),
{
}

/// The storing of one blob.
#[derive(Debug)]
pub struct Finalizing {
    blob: BlobRecord,
    linked: bool,
    open: bool,
    fault: Option<FinalFault>,
    undo_fault: Option<StoreError>,
    step: FinalStep,
}

impl View for Finalizing {
    type V = FinalModel;

    closed spec fn view(&self) -> FinalModel {
        FinalModel {
            blob: self.blob,
            linked: self.linked,
            open: self.open,
            fault: self.fault,
            undo_fault: self.undo_fault,
            step: self.step,
        }
    }
}

impl Finalizing {
    #[verifier::type_invariant]
    spec fn holds(self) -> bool {
        sound(self@)
    }

    /// Starts to store a staged blob.
    pub fn start(blob: BlobRecord) -> (run: Self)
        ensures
            run@ == unstored(blob),
    {
        Finalizing {
            blob,
            linked: false,
            open: false,
            fault: None,
            undo_fault: None,
            step: FinalStep::Begin,
        }
    }

    /// What is to be done next.
    pub fn step(&self) -> (step: FinalStep)
        ensures
            step == self@.step,
    {
        self.step
    }

    /// The blob that is stored.
    pub fn blob(&self) -> (blob: &BlobRecord)
        ensures
            *blob == self@.blob,
    {
        &self.blob
    }

    fn failed(self, error: StoreError) -> (next: Self)
        ensures
            next@ == after_fault(self@, error),
    {
        proof {
            use_type_invariant(&self);
            law_storing_stays_sound(self@, FinalAnswer::Failed(error), self@.blob);
        }
        let Finalizing { blob, linked, open, fault, undo_fault, step } = self;
        match step {
            FinalStep::AskTransaction | FinalStep::Stored | FinalStep::NotStored => Finalizing {
                blob,
                linked,
                open,
                fault,
                undo_fault,
                step,
            },
            FinalStep::Begin => Finalizing {
                blob,
                linked,
                open,
                fault: Some(FinalFault::Reported(error)),
                undo_fault,
                step: FinalStep::NotStored,
            },
            FinalStep::BeginAgain => Finalizing {
                blob,
                linked,
                open,
                fault,
                undo_fault: Some(error),
                step: FinalStep::NotStored,
            },
            FinalStep::AskAgain | FinalStep::Unlink => Finalizing {
                blob,
                linked,
                open,
                fault,
                undo_fault: Some(error),
                step: FinalStep::RollBack,
            },
            FinalStep::RollBack => {
                let first = match undo_fault {
                    Some(earlier) => Some(earlier),
                    None => Some(error),
                };
                Finalizing {
                    blob,
                    linked,
                    open,
                    fault,
                    undo_fault: first,
                    step: FinalStep::NotStored,
                }
            },
            _ => Finalizing {
                blob,
                linked,
                open,
                fault: Some(FinalFault::Reported(error)),
                undo_fault,
                step: FinalStep::AskTransaction,
            },
        }
    }

    /// The run after the answer to its step.
    pub fn advance(self, answer: FinalAnswer) -> (next: Self)
        ensures
            next@ == run_after(self@, answer),
    {
        let told = match answer {
            FinalAnswer::Failed(error) => {
                return self.failed(error);
            },
            other => other,
        };
        proof {
            use_type_invariant(&self);
            law_storing_stays_sound(self@, told, self@.blob);
        }
        let Finalizing { blob, mut linked, mut open, mut fault, undo_fault, mut step } = self;
        match (step, told) {
            (FinalStep::Begin, FinalAnswer::Done) => {
                open = true;
                if blob.byte_size() <= 0x7fff_ffff_ffff_ffff {
                    step = FinalStep::Insert { byte_size: blob.byte_size() as i64 };
                } else {
                    fault = Some(FinalFault::TooLarge);
                    step = FinalStep::AskTransaction;
                }
            },
            (FinalStep::Insert { .. }, FinalAnswer::Done) => {
                step = FinalStep::AskSize;
            },
            (FinalStep::AskSize, FinalAnswer::Size(Some(size))) => {
                if size >= 0 && size as u64 == blob.byte_size() {
                    step = FinalStep::MakeDirectory;
                } else {
                    fault = Some(FinalFault::RecordedSize(size));
                    step = FinalStep::AskTransaction;
                }
            },
            (FinalStep::MakeDirectory, FinalAnswer::Done) => {
                step = FinalStep::Link;
            },
            (FinalStep::Link, FinalAnswer::Done) => {
                linked = true;
                step = FinalStep::SyncLink;
            },
            (FinalStep::Link, FinalAnswer::Exists) => {
                step = FinalStep::VerifyFile;
            },
            (FinalStep::SyncLink, FinalAnswer::Done) => {
                step = FinalStep::Commit;
            },
            (FinalStep::VerifyFile, FinalAnswer::Done) => {
                step = FinalStep::Commit;
            },
            (FinalStep::Commit, FinalAnswer::Done) => {
                open = false;
                step = FinalStep::Stored;
            },
            (FinalStep::AskTransaction, FinalAnswer::Flag(still)) => {
                open = still;
                if !still {
                    step = FinalStep::BeginAgain;
                } else if blob::removes_installed_file(linked, true, false) {
                    step = FinalStep::Unlink;
                } else {
                    step = FinalStep::RollBack;
                }
            },
            (FinalStep::BeginAgain, FinalAnswer::Done) => {
                open = true;
                step = FinalStep::AskAgain;
            },
            (FinalStep::AskAgain, FinalAnswer::Size(recorded)) => {
                let matches = blob::blob_metadata_matches(recorded, blob.byte_size());
                if blob::removes_installed_file(linked, false, matches) {
                    step = FinalStep::Unlink;
                } else {
                    step = FinalStep::RollBack;
                }
            },
            (FinalStep::Unlink, FinalAnswer::Done) => {
                step = FinalStep::RollBack;
            },
            (FinalStep::RollBack, FinalAnswer::Done) => {
                open = false;
                step = FinalStep::NotStored;
            },
            _ => {},
        }
        Finalizing { blob, linked, open, fault, undo_fault, step }
    }

    /// The blob's record, once it is stored; or why it is not: the first failure of undoing, where
    /// there was one, or else the fault. None while the run goes on.
    pub fn into_outcome(self) -> (outcome: Option<Result<BlobRecord, StoreError>>)
        ensures
            match outcome {
                Some(Ok(record)) => self@.step is Stored && record == self@.blob,
                Some(Err(error)) => self@.step is NotStored && match self@.undo_fault {
                    Some(undone) => error == undone,
                    None => self@.fault matches Some(fault) && is_fault(error, self@.blob, fault),
                },
                None => !(self@.step is Stored) && !(self@.step is NotStored),
            },
    {
        proof {
            use_type_invariant(&self);
        }
        let Finalizing { blob, linked: _, open: _, fault, undo_fault, step } = self;
        match step {
            FinalStep::Stored => Some(Ok(blob)),
            FinalStep::NotStored => match (undo_fault, fault) {
                (Some(error), _) => Some(Err(error)),
                (None, Some(found)) => Some(Err(fault_error(&blob, found))),
                (None, None) => None,
            },
            _ => None,
        }
    }
}

} // verus!
