//! Staging: how the bytes of a blob come to stand in a staging directory, under a lock.
use vstd::prelude::*;
use crate::digest;
use crate::storage::blob::{BlobRecord, BlobStream};
use crate::storage::error::StoreError;
use crate::storage::publication;
use crate::storage::publication::JournalState;
use crate::text;

verus! {

/// How many names are tried for a blob that is stored on its own.
pub const MAX_STAGING_NAMES: u32 = 16;

/// What is staged.
#[derive(Debug, Clone, Copy, PartialEq, Eq, Structural)]
pub enum StageKind {
    /// A blob that is stored on its own: a bounded number of names, and no journal.
    Blob,
    /// A source of a publication: any number of names, and a journal.
    Publication,
}

/// Why a stage failed.
#[derive(Debug)]
pub enum StageFault {
    /// A step failed, and this is what was reported.
    Reported(StoreError),
    /// Every name that was tried was taken.
    NamesExhausted,
    /// There are more bytes than can be counted.
    ByteCountOverflow,
    /// There are more bytes than a blob may have.
    TooLarge { limit: u64, attempted: u64 },
}

impl StageFault {
    /// The failure of the store that the fault is.
    pub fn into_error(self) -> (error: StoreError)
        ensures
            match self {
                StageFault::Reported(reported) => error == reported,
                StageFault::NamesExhausted => error matches StoreError::Io(cause) && cause@
                    == "could not allocate unique blob staging file"@,
                StageFault::ByteCountOverflow => error matches StoreError::Io(cause) && cause@
                    == "blob byte count overflow"@,
                StageFault::TooLarge { limit, attempted } => error
                    == (StoreError::UploadLimitExceeded { limit, attempted }),
            },
    {
        match self {
            StageFault::Reported(reported) => reported,
            StageFault::NamesExhausted => StoreError::Io(
                text::copy_of("could not allocate unique blob staging file"),
            ),
            StageFault::ByteCountOverflow => StoreError::Io(
                text::copy_of("blob byte count overflow"),
            ),
            StageFault::TooLarge { limit, attempted } => StoreError::UploadLimitExceeded {
                limit,
                attempted,
            },
        }
    }
}

/// What is to be done next. Where nothing else is said, the answer is `Done` or `Failed`.
#[derive(Debug)]
pub enum StageStep {
    /// Create the staging directory where it is missing.
    MakeDirectory,
    /// Pick a random name; answer `Name` or `Failed`.
    PickName,
    /// Create the lock file, which must not exist; answer `Exists` where it does.
    CreateLock,
    /// Take the lock.
    TakeLock,
    /// Create the data file, which must not exist.
    CreateData,
    /// Read the next bytes of the source; answer `Piece`, `Ended` or `Failed`.
    Read,
    /// Write these bytes to the data file.
    Write(Vec<u8>),
    /// Bring the data file to the disk.
    SyncData,
    /// Bring the staging directory to the disk.
    SyncDirectory,
    /// Replace the journal by this line, and bring it and the directory to the disk.
    WriteJournal(String),
    /// Nothing: the bytes are staged.
    Staged,
    /// Remove the lock file, as far as it works.
    RemoveLock,
    /// Remove all files of the stage, as far as it works.
    CleanUp,
    /// Nothing: the stage failed.
    Failed,
}

/// The model of a step.
pub enum StepModel {
    MakeDirectory,
    PickName,
    CreateLock,
    TakeLock,
    CreateData,
    Read,
    Write(Seq<u8>),
    SyncData,
    SyncDirectory,
    WriteJournal(Seq<char>),
    Staged,
    RemoveLock,
    CleanUp,
    Failed,
}

impl View for StageStep {
    type V = StepModel;

    open spec fn view(&self) -> StepModel {
        match self {
            StageStep::MakeDirectory => StepModel::MakeDirectory,
            StageStep::PickName => StepModel::PickName,
            StageStep::CreateLock => StepModel::CreateLock,
            StageStep::TakeLock => StepModel::TakeLock,
            StageStep::CreateData => StepModel::CreateData,
            StageStep::Read => StepModel::Read,
            StageStep::Write(piece) => StepModel::Write(piece@),
            StageStep::SyncData => StepModel::SyncData,
            StageStep::SyncDirectory => StepModel::SyncDirectory,
            StageStep::WriteJournal(line) => StepModel::WriteJournal(line@),
            StageStep::Staged => StepModel::Staged,
            StageStep::RemoveLock => StepModel::RemoveLock,
            StageStep::CleanUp => StepModel::CleanUp,
            StageStep::Failed => StepModel::Failed,
        }
    }
}

/// What came of a step.
#[derive(Debug)]
pub enum StageAnswer {
    Done,
    Exists,
    Ended,
    Name(String),
    Piece(Vec<u8>),
    Failed(StoreError),
}

/// The model of a stage.
pub struct StageModel {
    pub kind: StageKind,
    /// The largest number of bytes.
    pub limit: u64,
    /// How many names were tried, as far as it counts.
    pub tries: u32,
    pub name: Seq<char>,
    /// The bytes that were taken in.
    pub taken: Seq<u8>,
    /// The digest and the number of the bytes, once all were taken in.
    pub record: Option<(Seq<char>, u64)>,
    pub fault: Option<StageFault>,
    pub step: StepModel,
}

/// A stage before its first step.
pub open spec fn unstaged(kind: StageKind, limit: u64) -> StageModel {
    StageModel {
        kind,
        limit,
        tries: 0,
        name: Seq::empty(),
        taken: Seq::empty(),
        record: None,
        fault: None,
        step: StepModel::MakeDirectory,
    }
}

/// The stage at another step.
pub open spec fn at(stage: StageModel, step: StepModel) -> StageModel {
    StageModel { step, ..stage }
}

/// The stage at another step, with a fault.
pub open spec fn faulty(stage: StageModel, fault: StageFault, step: StepModel) -> StageModel {
    StageModel { fault: Some(fault), step, ..stage }
}

/// Whether the stage has a data file of its own at the step.
pub open spec fn has_data(step: StepModel) -> bool {
    step is Read || step is Write || step is SyncData || step is SyncDirectory || step
        is WriteJournal || step is Staged
}

/// The stage after the next bytes were read.
pub open spec fn after_piece(stage: StageModel, piece: Seq<u8>) -> StageModel {
    let total = stage.taken.len() + piece.len();
    if total > u64::MAX {
        faulty(stage, StageFault::ByteCountOverflow, StepModel::CleanUp)
    } else if total > stage.limit {
        faulty(
            stage,
            StageFault::TooLarge { limit: stage.limit, attempted: total as u64 },
            StepModel::CleanUp,
        )
    } else {
        StageModel { taken: stage.taken + piece, step: StepModel::Write(piece), ..stage }
    }
}

/// The stage after all bytes stand on the disk.
pub open spec fn after_data(stage: StageModel) -> StageModel {
    let record = (digest::sha256_hex(stage.taken), stage.taken.len() as u64);
    StageModel {
        record: Some(record),
        step: match stage.kind {
            StageKind::Blob => StepModel::SyncDirectory,
            StageKind::Publication => StepModel::WriteJournal(
                publication::journal_text(JournalState::Staged, record.0, record.1),
            ),
        },
        ..stage
    }
}

/// The stage after a step failed: a stage that made a data file is cleaned up, and one that only
/// made its lock file gives that up.
pub open spec fn after_fault(stage: StageModel, error: StoreError) -> StageModel {
    let fault = StageFault::Reported(error);
    match stage.step {
        StepModel::RemoveLock | StepModel::CleanUp => at(stage, StepModel::Failed),
        StepModel::Staged | StepModel::Failed => stage,
        StepModel::CreateData => faulty(stage, fault, StepModel::RemoveLock),
        _ => if has_data(stage.step) {
            faulty(stage, fault, StepModel::CleanUp)
        } else {
            faulty(stage, fault, StepModel::Failed)
        },
    }
}

/// The stage after an answer; unchanged where the answer is not one to the step.
pub open spec fn stage_after(stage: StageModel, answer: StageAnswer) -> StageModel {
    match (stage.step, answer) {
        (_, StageAnswer::Failed(error)) => after_fault(stage, error),
        (StepModel::MakeDirectory, StageAnswer::Done) => at(stage, StepModel::PickName),
        (StepModel::PickName, StageAnswer::Name(name)) => StageModel {
            name: name@,
            tries: if stage.tries < MAX_STAGING_NAMES {
                (stage.tries + 1) as u32
            } else {
                stage.tries
            },
            step: StepModel::CreateLock,
            ..stage
        },
        (StepModel::CreateLock, StageAnswer::Done) => at(stage, StepModel::TakeLock),
        (StepModel::CreateLock, StageAnswer::Exists) => if stage.kind == StageKind::Blob
            && stage.tries >= MAX_STAGING_NAMES {
            faulty(stage, StageFault::NamesExhausted, StepModel::Failed)
        } else {
            at(stage, StepModel::PickName)
        },
        (StepModel::TakeLock, StageAnswer::Done) => at(stage, StepModel::CreateData),
        (StepModel::CreateData, StageAnswer::Done) => at(stage, StepModel::Read),
        (StepModel::Read, StageAnswer::Piece(piece)) => after_piece(stage, piece@),
        (StepModel::Read, StageAnswer::Ended) => at(stage, StepModel::SyncData),
        (StepModel::Write(_), StageAnswer::Done) => at(stage, StepModel::Read),
        (StepModel::SyncData, StageAnswer::Done) => after_data(stage),
        (StepModel::SyncDirectory, StageAnswer::Done) => at(stage, StepModel::Staged),
        (StepModel::WriteJournal(_), StageAnswer::Done) => at(stage, StepModel::Staged),
        (StepModel::RemoveLock, StageAnswer::Done) => at(stage, StepModel::Failed),
        (StepModel::CleanUp, StageAnswer::Done) => at(stage, StepModel::Failed),
        _ => stage,
    }
}

/// Whether the stage's parts agree: the bytes fit, the record is theirs, and a fault is there
/// exactly where the stage is given up.
pub open spec fn sound(stage: StageModel) -> bool {
    &&& stage.taken.len() <= stage.limit
    &&& stage.record matches Some(record) ==> record == (
        digest::sha256_hex(stage.taken),
        stage.taken.len() as u64,
    )
    &&& stage.fault is Some <==> stage.step is RemoveLock || stage.step is CleanUp || stage.step
        is Failed
    &&& stage.step is SyncDirectory || stage.step is WriteJournal || stage.step is Staged
        ==> stage.record is Some
    &&& !(stage.step is SyncDirectory || stage.step is WriteJournal || stage.step is Staged
        || stage.fault is Some) ==> stage.record is None
    &&& stage.step matches StepModel::WriteJournal(line) ==> stage.record matches Some(record)
        && line == publication::journal_text(JournalState::Staged, record.0, record.1)
}

/// Whatever happens, a stage takes in no more bytes than it may, and what it records of them is
/// their digest and their number.
pub proof fn law_stages_stay_sound(
    stage: StageModel,
    answer: StageAnswer,
    kind: StageKind,
    limit: u64,
)
    requires
        sound(stage),
    ensures
        sound(unstaged(kind, limit)),
        sound(stage_after(stage, answer)),
{
}

/// A stage that made a data file ends with the bytes staged, or is cleaned up before it fails.
pub proof fn law_failed_stages_are_cleared(stage: StageModel, answer: StageAnswer)
    requires
        has_data(stage.step),
    ensures
        has_data(stage_after(stage, answer).step) || stage_after(stage, answer).step is CleanUp,
        stage.step is Staged ==> stage_after(stage, answer) == stage,
{
}

/// Bytes on their way into a staging directory.
pub struct Staging {
    kind: StageKind,
    limit: u64,
    tries: u32,
    name: String,
    stream: Option<BlobStream>,
    taken: Ghost<Seq<u8>>,
    record: Option<BlobRecord>,
    fault: Option<StageFault>,
    step: StageStep,
}

/// The record's digest and size.
pub open spec fn record_model(record: Option<BlobRecord>) -> Option<(Seq<char>, u64)> {
    match record {
        Some(found) => Some(found@),
        None => None,
    }
}

impl View for Staging {
    type V = StageModel;

    closed spec fn view(&self) -> StageModel {
        StageModel {
            kind: self.kind,
            limit: self.limit,
            tries: self.tries,
            name: self.name@,
            taken: self.taken@,
            record: record_model(self.record),
            fault: self.fault,
            step: self.step@,
        }
    }
}

impl Staging {
    #[verifier::type_invariant]
    spec fn holds(self) -> bool {
        &&& sound(self@)
        &&& self.stream matches Some(stream) ==> stream@ == self.taken@
        &&& self.record is None && self.fault is None ==> self.stream is Some
    }

    /// Starts to stage a source of at most `limit` bytes.
    pub fn start(kind: StageKind, limit: u64) -> (staging: Self)
        ensures
            staging@ == unstaged(kind, limit),
    {
        let name = text::copy_of("");
        proof {
            reveal_strlit("");
            assert(name@ =~= Seq::<char>::empty());
        }
        Staging {
            kind,
            limit,
            tries: 0,
            name,
            stream: Some(BlobStream::start()),
            taken: Ghost(Seq::empty()),
            record: None,
            fault: None,
            step: StageStep::MakeDirectory,
        }
    }

    /// What is to be done next.
    pub fn step(&self) -> (step: &StageStep)
        ensures
            step@ == self@.step,
    {
        &self.step
    }

    /// The name of the stage's files, before their extensions.
    pub fn name(&self) -> (name: &str)
        ensures
            name@ == self@.name,
    {
        self.name.as_str()
    }

    /// The record of the bytes, once they are staged; or why they are not. None while the stage
    /// goes on.
    pub fn into_outcome(self) -> (outcome: Option<Result<BlobRecord, StageFault>>)
        ensures
            match outcome {
                Some(Ok(record)) => self@.step is Staged && self@.record == Some(record@),
                Some(Err(fault)) => self@.step is Failed && self@.fault == Some(fault),
                None => !(self@.step is Staged) && !(self@.step is Failed),
            },
    {
        proof {
            use_type_invariant(&self);
        }
        let Staging { kind: _, limit: _, tries: _, name: _, stream: _, taken: _, record, fault, step }
            = self;
        match step {
            StageStep::Staged => match record {
                Some(found) => Some(Ok(found)),
                None => None,
            },
            StageStep::Failed => match fault {
                Some(found) => Some(Err(found)),
                None => None,
            },
            _ => None,
        }
    }

    fn with_piece(self, piece: Vec<u8>) -> (next: Self)
        requires
            self@.step is Read,
        ensures
            next@ == after_piece(self@, piece@),
    {
        proof {
            use_type_invariant(&self);
            law_stages_stay_sound(self@, StageAnswer::Piece(piece), self@.kind, self@.limit);
        }
        let Staging { kind, limit, tries, name, stream, taken, record, fault: _, step: _ } = self;
        let mut current = match stream {
            Some(current) => current,
            None => BlobStream::start(),
        };
        let fault = match current.byte_size().checked_add(piece.len() as u64) {
            None => StageFault::ByteCountOverflow,
            Some(attempted) => {
                if attempted <= limit {
                    let absorbed = current.absorb(&piece, limit);
                    assert(absorbed is Ok);
                    return Staging {
                        kind,
                        limit,
                        tries,
                        name,
                        stream: Some(current),
                        taken: Ghost(taken@ + piece@),
                        record,
                        fault: None,
                        step: StageStep::Write(piece),
                    };
                }
                StageFault::TooLarge { limit, attempted }
            },
        };
        Staging {
            kind,
            limit,
            tries,
            name,
            stream: Some(current),
            taken,
            record,
            fault: Some(fault),
            step: StageStep::CleanUp,
        }
    }

    fn with_record(self) -> (next: Self)
        requires
            self@.step is SyncData,
        ensures
            next@ == after_data(self@),
    {
        proof {
            use_type_invariant(&self);
            law_stages_stay_sound(self@, StageAnswer::Done, self@.kind, self@.limit);
        }
        let Staging { kind, limit, tries, name, stream, taken, record: _, fault, step: _ } = self;
        let current = match stream {
            Some(current) => current,
            None => BlobStream::start(),
        };
        let record = current.finish();
        let step = match kind {
            StageKind::Blob => StageStep::SyncDirectory,
            StageKind::Publication => StageStep::WriteJournal(
                publication::journal_line(JournalState::Staged, &record),
            ),
        };
        Staging { kind, limit, tries, name, stream: None, taken, record: Some(record), fault, step }
    }

    fn with_fault(self, error: StoreError) -> (next: Self)
        ensures
            next@ == after_fault(self@, error),
    {
        proof {
            use_type_invariant(&self);
            law_stages_stay_sound(self@, StageAnswer::Failed(error), self@.kind, self@.limit);
        }
        let Staging { kind, limit, tries, name, stream, taken, record, fault, step } = self;
        let (fault, step) = match step {
            StageStep::RemoveLock | StageStep::CleanUp => (fault, StageStep::Failed),
            StageStep::Staged => (fault, StageStep::Staged),
            StageStep::Failed => (fault, StageStep::Failed),
            StageStep::CreateData => (Some(StageFault::Reported(error)), StageStep::RemoveLock),
            StageStep::Read | StageStep::Write(_) | StageStep::SyncData | StageStep::SyncDirectory
            | StageStep::WriteJournal(_) => (
                Some(StageFault::Reported(error)),
                StageStep::CleanUp,
            ),
            _ => (Some(StageFault::Reported(error)), StageStep::Failed),
        };
        Staging { kind, limit, tries, name, stream, taken, record, fault, step }
    }

    fn with_step(self, next_step: StageStep) -> (next: Self)
        requires
            sound(at(self@, next_step@)),
        ensures
            next@ == at(self@, next_step@),
    {
        proof {
            use_type_invariant(&self);
        }
        let Staging { kind, limit, tries, name, stream, taken, record, fault, step: _ } = self;
        Staging { kind, limit, tries, name, stream, taken, record, fault, step: next_step }
    }

    fn with_name(self, picked: String) -> (next: Self)
        requires
            self@.step is PickName,
        ensures
            next@ == stage_after(self@, StageAnswer::Name(picked)),
    {
        proof {
            use_type_invariant(&self);
            law_stages_stay_sound(self@, StageAnswer::Name(picked), self@.kind, self@.limit);
        }
        let Staging { kind, limit, tries, name: _, stream, taken, record, fault, step: _ } = self;
        Staging {
            kind,
            limit,
            tries: if tries < MAX_STAGING_NAMES {
                tries + 1
            } else {
                tries
            },
            name: picked,
            stream,
            taken,
            record,
            fault,
            step: StageStep::CreateLock,
        }
    }

    fn with_taken_name(self) -> (next: Self)
        requires
            self@.step is CreateLock,
        ensures
            next@ == stage_after(self@, StageAnswer::Exists),
    {
        proof {
            use_type_invariant(&self);
            law_stages_stay_sound(self@, StageAnswer::Exists, self@.kind, self@.limit);
        }
        let Staging { kind, limit, tries, name, stream, taken, record, fault, step: _ } = self;
        if kind == StageKind::Blob && tries >= MAX_STAGING_NAMES {
            Staging {
                kind,
                limit,
                tries,
                name,
                stream,
                taken,
                record,
                fault: Some(StageFault::NamesExhausted),
                step: StageStep::Failed,
            }
        } else {
            Staging {
                kind,
                limit,
                tries,
                name,
                stream,
                taken,
                record,
                fault,
                step: StageStep::PickName,
            }
        }
    }

    /// The stage after the answer to its step.
    pub fn advance(self, answer: StageAnswer) -> (next: Self)
        ensures
            next@ == stage_after(self@, answer),
    {
        proof {
            use_type_invariant(&self);
            law_stages_stay_sound(self@, answer, self@.kind, self@.limit);
        }
        match answer {
            StageAnswer::Failed(error) => self.with_fault(error),
            StageAnswer::Name(picked) => match &self.step {
                StageStep::PickName => self.with_name(picked),
                _ => self,
            },
            StageAnswer::Piece(piece) => match &self.step {
                StageStep::Read => self.with_piece(piece),
                _ => self,
            },
            StageAnswer::Exists => match &self.step {
                StageStep::CreateLock => self.with_taken_name(),
                _ => self,
            },
            StageAnswer::Ended => match &self.step {
                StageStep::Read => self.with_step(StageStep::SyncData),
                _ => self,
            },
            StageAnswer::Done => match &self.step {
                StageStep::MakeDirectory => self.with_step(StageStep::PickName),
                StageStep::CreateLock => self.with_step(StageStep::TakeLock),
                StageStep::TakeLock => self.with_step(StageStep::CreateData),
                StageStep::CreateData => self.with_step(StageStep::Read),
                StageStep::Write(_) => self.with_step(StageStep::Read),
                StageStep::SyncData => self.with_record(),
                StageStep::SyncDirectory | StageStep::WriteJournal(_) => self.with_step(
                    StageStep::Staged,
                ),
                StageStep::RemoveLock | StageStep::CleanUp => self.with_step(StageStep::Failed),
                _ => self,
            },
        }
    }
}

/// The extensions of the files that a stage may have made, in the order of removal.
pub fn stage_extensions(kind: StageKind) -> (extensions: Vec<&'static str>)
    ensures
        extensions@ == match kind {
            StageKind::Blob => seq!["part", "lock"],
            StageKind::Publication => seq!["part", "next", "journal", "lock"],
        },
{
    let mut extensions: Vec<&'static str> = Vec::new();
    extensions.push("part");
    if kind == StageKind::Publication {
        extensions.push("next");
        extensions.push("journal");
    }
    extensions.push("lock");
    extensions
}

} // verus!
