//! Writing the unit so that its place holds the old unit or the new one, and nothing between: it
//! goes to a temporary file that takes the unit's place.
use vstd::prelude::*;
use crate::cli::error;
use crate::cli::error::{CliError, CliErrorModel};
use crate::number;
use crate::text;

verus! {

/// How many names are tried for the temporary file.
pub const MAX_TEMPORARY_NAMES: u32 = 100;

/// The name of a temporary file.
pub open spec fn temporary_name(process_id: u32, attempt: u32) -> Seq<char> {
    ".glim.service."@ + number::decimal(process_id as nat) + "."@ + number::decimal(attempt as nat)
        + ".tmp"@
}

/// The name of the temporary file at an attempt.
pub fn temporary_unit_name(process_id: u32, attempt: u32) -> (name: String)
    ensures
        name@ == temporary_name(process_id, attempt),
{
    let process = number::format_u64(process_id as u64);
    let place = number::format_u64(attempt as u64);
    let head = text::joined3(".glim.service.", process.as_str(), ".");
    text::joined3(head.as_str(), place.as_str(), ".tmp")
}

/// What is done next to write the unit.
#[derive(Debug, Clone, Copy, PartialEq, Eq, Structural)]
#[allow(inconsistent_fields)]
pub enum WriteStep {
    /// Create the temporary file of the attempt, which must not be there.
    Create { attempt: u32 },
    /// Write the unit to it, and make it private.
    Fill { attempt: u32 },
    /// Put it in the unit's place.
    Rename { attempt: u32 },
    /// Remove it; whether that works does not matter.
    Remove { attempt: u32 },
    Written,
    NoTemporary,
    NotWritten,
}

/// How a step went.
#[derive(Debug, Clone, Copy, PartialEq, Eq, Structural)]
pub enum WriteAnswer {
    Done,
    /// The temporary file is there already.
    Exists,
    Failed,
}

/// The step after a step. `clears` says whether the temporary file goes when it could not take
/// the unit's place.
pub open spec fn step_after(step: WriteStep, answer: WriteAnswer, clears: bool) -> WriteStep {
    match (step, answer) {
        (WriteStep::Create { attempt }, WriteAnswer::Done) => WriteStep::Fill { attempt },
        (WriteStep::Create { attempt }, WriteAnswer::Exists) => if attempt + 1
            < MAX_TEMPORARY_NAMES {
            WriteStep::Create { attempt: (attempt + 1) as u32 }
        } else {
            WriteStep::NoTemporary
        },
        (WriteStep::Create { .. }, WriteAnswer::Failed) => WriteStep::NoTemporary,
        (WriteStep::Fill { attempt }, WriteAnswer::Done) => WriteStep::Rename { attempt },
        (WriteStep::Fill { attempt }, _) => WriteStep::Remove { attempt },
        (WriteStep::Rename { .. }, WriteAnswer::Done) => WriteStep::Written,
        (WriteStep::Rename { attempt }, _) => if clears {
            WriteStep::Remove { attempt }
        } else {
            WriteStep::NotWritten
        },
        (WriteStep::Remove { .. }, _) => WriteStep::NotWritten,
        _ => step,
    }
}

/// The failure to write the unit.
pub open spec fn write_failure(step: WriteStep) -> Option<CliErrorModel> {
    match step {
        WriteStep::NoTemporary => Some(
            error::plain(
                "service_filesystem_error"@,
                "could not create a temporary service unit"@,
            ),
        ),
        WriteStep::NotWritten => Some(
            error::plain(
                "service_filesystem_error"@,
                "could not atomically write the service unit"@,
            ),
        ),
        _ => None,
    }
}

impl WriteStep {
    /// The first step.
    pub fn first() -> (step: Self)
        ensures
            step == (WriteStep::Create { attempt: 0 }),
    {
        WriteStep::Create { attempt: 0 }
    }

    /// The step after this one.
    pub fn after(self, answer: WriteAnswer, clears: bool) -> (next: Self)
        ensures
            next == step_after(self, answer, clears),
    {
        match self {
            WriteStep::Create { attempt } => match answer {
                WriteAnswer::Done => WriteStep::Fill { attempt },
                WriteAnswer::Exists => {
                    if attempt < MAX_TEMPORARY_NAMES - 1 {
                        WriteStep::Create { attempt: attempt + 1 }
                    } else {
                        WriteStep::NoTemporary
                    }
                },
                WriteAnswer::Failed => WriteStep::NoTemporary,
            },
            WriteStep::Fill { attempt } => {
                if answer == WriteAnswer::Done {
                    WriteStep::Rename { attempt }
                } else {
                    WriteStep::Remove { attempt }
                }
            },
            WriteStep::Rename { attempt } => {
                if answer == WriteAnswer::Done {
                    WriteStep::Written
                } else if clears {
                    WriteStep::Remove { attempt }
                } else {
                    WriteStep::NotWritten
                }
            },
            WriteStep::Remove { .. } => WriteStep::NotWritten,
            WriteStep::Written => WriteStep::Written,
            WriteStep::NoTemporary => WriteStep::NoTemporary,
            WriteStep::NotWritten => WriteStep::NotWritten,
        }
    }

    /// The result, once there is one.
    pub fn result(self) -> (result: Option<Result<(), CliError>>)
        ensures
            match result {
                None => self != WriteStep::Written && write_failure(self) is None,
                Some(Ok(_)) => self == WriteStep::Written,
                Some(Err(failure)) => write_failure(self) == Some(failure@),
            },
    {
        match self {
            WriteStep::Written => Some(Ok(())),
            WriteStep::NoTemporary => Some(
                Err(
                    CliError::new(
                        "service_filesystem_error",
                        "could not create a temporary service unit",
                    ),
                ),
            ),
            WriteStep::NotWritten => Some(
                Err(
                    CliError::new(
                        "service_filesystem_error",
                        "could not atomically write the service unit",
                    ),
                ),
            ),
            _ => None,
        }
    }
}

/// How far a write is from its end.
pub open spec fn steps_left(step: WriteStep) -> int {
    match step {
        WriteStep::Create { attempt } => if attempt < MAX_TEMPORARY_NAMES {
            3 + MAX_TEMPORARY_NAMES - attempt
        } else {
            4
        },
        WriteStep::Fill { .. } => 3,
        WriteStep::Rename { .. } => 2,
        WriteStep::Remove { .. } => 1,
        _ => 0,
    }
}

/// The unit's place is taken only by a temporary file that was created and filled in full: the
/// steps before the last are those, for the same file. A file that could not be filled is
/// removed, and so is one that could not take the place where `clears` says so.
pub proof fn law_units_are_replaced_whole(step: WriteStep, answer: WriteAnswer, clears: bool)
    ensures
        step != WriteStep::Written && step_after(step, answer, clears) == WriteStep::Written
            ==> step is Rename && answer == WriteAnswer::Done,
        step_after(step, answer, clears) matches WriteStep::Rename { attempt } ==> step
            == (WriteStep::Fill { attempt }) && answer == WriteAnswer::Done,
        step_after(step, answer, clears) matches WriteStep::Fill { attempt } ==> step
            == (WriteStep::Create { attempt }) && answer == WriteAnswer::Done,
        step matches WriteStep::Fill { attempt } ==> (answer != WriteAnswer::Done ==> step_after(
            step,
            answer,
            clears,
        ) == (WriteStep::Remove { attempt })),
        step matches WriteStep::Rename { attempt } ==> (answer != WriteAnswer::Done && clears
            ==> step_after(step, answer, clears) == (WriteStep::Remove { attempt })),
{
}

/// Every write ends.
pub proof fn law_writes_end(step: WriteStep, answer: WriteAnswer, clears: bool)
    requires
        steps_left(step) > 0,
    ensures
        0 <= steps_left(step_after(step, answer, clears)) < steps_left(step),
{
}

/// No two attempts of a process share a temporary file.
pub proof fn law_temporary_names_differ(process_id: u32, first: u32, second: u32)
    requires
        first != second,
    ensures
        temporary_name(process_id, first) != temporary_name(process_id, second),
{
    let head = ".glim.service."@ + number::decimal(process_id as nat) + "."@;
    let a = number::decimal(first as nat);
    let b = number::decimal(second as nat);
    if temporary_name(process_id, first) == temporary_name(process_id, second) {
        let whole = temporary_name(process_id, first);
        assert(whole == head + a + ".tmp"@);
        assert(whole == head + b + ".tmp"@);
        assert(a.len() == b.len());
        assert(whole.subrange(head.len() as int, (head.len() + a.len()) as int) =~= a);
        assert(whole.subrange(head.len() as int, (head.len() + b.len()) as int) =~= b);
        number::law_decimal_reads_back(first as nat);
        number::law_decimal_reads_back(second as nat);
    }
}

} // verus!
