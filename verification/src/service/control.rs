//! What `systemctl` answers.
use vstd::prelude::*;
use vstd::utf8::*;
use crate::cli::error;
use crate::cli::error::{CliError, CliErrorModel};
use crate::details;
use crate::details::{Detail, DetailValue, ValueModel};
use crate::text;

verus! {

/// How long `systemctl` may take, in seconds.
pub const SYSTEMCTL_TIMEOUT_SECONDS: u64 = 2;

/// How much is kept of each of the command's streams, in bytes.
pub const MAX_SYSTEMCTL_STREAM_BYTES: usize = 32_768;

// ---- the command's output ----

/// How much more of a stream is kept.
pub open spec fn room_after(retained: Seq<u8>) -> int {
    if retained.len() < MAX_SYSTEMCTL_STREAM_BYTES {
        MAX_SYSTEMCTL_STREAM_BYTES - retained.len()
    } else {
        0
    }
}

/// What is kept of a stream after more of it came: as much of it as there is room for.
pub open spec fn retained_after(retained: Seq<u8>, chunk: Seq<u8>) -> Seq<u8> {
    if chunk.len() < room_after(retained) {
        retained + chunk
    } else {
        retained + chunk.take(room_after(retained))
    }
}

/// Keeps of a chunk what still fits; whether some of it did not.
pub fn retain_output(retained: &mut Vec<u8>, chunk: &[u8]) -> (oversized: bool)
    ensures
        final(retained)@ == retained_after(old(retained)@, chunk@),
        oversized == (chunk@.len() > room_after(old(retained)@)),
{
    let kept: usize = retained.len();
    let available: usize = if kept >= MAX_SYSTEMCTL_STREAM_BYTES {
        0
    } else {
        MAX_SYSTEMCTL_STREAM_BYTES - kept
    };
    let count: usize = if chunk.len() < available {
        chunk.len()
    } else {
        available
    };
    let ghost before = retained@;
    let mut i: usize = 0;
    while i < count
        invariant
            i <= count,
            count <= chunk.len(),
            retained@ == before + chunk@.take(i as int),
        decreases count - i,
    {
        retained.push(chunk[i]);
        assert(chunk@.take(i + 1) =~= chunk@.take(i as int).push(chunk@[i as int]));
        i += 1;
    }
    assert(retained@ =~= retained_after(before, chunk@));
    chunk.len() > available
}

/// How a run of `systemctl` ended.
#[derive(Debug, PartialEq, Eq)]
pub enum SystemctlEnd {
    NotStarted,
    TimedOut,
    NotWaitedFor,
    /// The command ended, but its output was lost.
    OutputLost,
    Finished {
        stdout: Vec<u8>,
        /// Whether more came on either stream than is kept.
        oversized: bool,
        success: bool,
        exit_code: Option<i32>,
    },
}

/// A failure of `systemctl`.
pub open spec fn systemctl_failure(
    code: Seq<char>,
    message: Seq<char>,
    operation: Seq<char>,
    exit_code: Option<i32>,
) -> CliErrorModel {
    CliErrorModel {
        code,
        message,
        details: seq![
            ("operation"@, ValueModel::Text(operation)),
            (
                "exit_code"@,
                match exit_code {
                    Some(value) => ValueModel::Number(value as int),
                    None => ValueModel::Json("null"@),
                },
            ),
        ],
    }
}

fn systemctl_error(code: &str, message: &str, operation: &str, exit_code: Option<i32>) -> (failure:
    CliError)
    ensures
        failure@ == systemctl_failure(code@, message@, operation@, exit_code),
{
    let number = match exit_code {
        Some(value) => details::signed_detail("exit_code", value as i64),
        None => Detail {
            name: text::copy_of("exit_code"),
            value: DetailValue::Json(text::copy_of("null")),
        },
    };
    let ghost shown = match exit_code {
        Some(value) => ValueModel::Number(value as int),
        None => ValueModel::Json("null"@),
    };
    assert(number@ == ("exit_code"@, shown));
    let named = details::two(details::text_detail("operation", operation), number);
    assert(details::models(named@) =~= systemctl_failure(
        code@,
        message@,
        operation@,
        exit_code,
    ).details);
    CliError::new(code, message).with_details(named)
}

/// What a run of `systemctl` gives: its output, or why it failed. Too much output counts before
/// the exit code.
pub open spec fn systemctl_outcome(operation: Seq<char>, end: SystemctlEnd) -> Result<
    Seq<u8>,
    CliErrorModel,
> {
    match end {
        SystemctlEnd::NotStarted => Err(
            systemctl_failure(
                "systemctl_spawn_failed"@,
                "could not start systemctl"@,
                operation,
                None,
            ),
        ),
        SystemctlEnd::TimedOut => Err(
            systemctl_failure(
                "systemctl_timeout"@,
                "systemctl command timed out"@,
                operation,
                None,
            ),
        ),
        SystemctlEnd::NotWaitedFor => Err(
            systemctl_failure(
                "systemctl_wait_failed"@,
                "could not wait for systemctl"@,
                operation,
                None,
            ),
        ),
        SystemctlEnd::OutputLost => Err(
            systemctl_failure(
                "systemctl_output_error"@,
                "could not collect systemctl output"@,
                operation,
                None,
            ),
        ),
        SystemctlEnd::Finished { stdout, oversized, success, exit_code } => if oversized {
            Err(
                systemctl_failure(
                    "systemctl_output_too_large"@,
                    "systemctl output exceeded the supported limit"@,
                    operation,
                    exit_code,
                ),
            )
        } else if !success {
            Err(
                systemctl_failure(
                    "systemctl_failed"@,
                    "systemctl command failed"@,
                    operation,
                    exit_code,
                ),
            )
        } else {
            Ok(stdout@)
        },
    }
}

/// Judges a run of `systemctl`.
pub fn systemctl_result(operation: &str, end: SystemctlEnd) -> (result: Result<Vec<u8>, CliError>)
    ensures
        match (result, systemctl_outcome(operation@, end)) {
            (Ok(stdout), Ok(model)) => stdout@ == model,
            (Err(failure), Err(model)) => failure@ == model,
            _ => false,
        },
{
    match end {
        SystemctlEnd::NotStarted => Err(
            systemctl_error(
                "systemctl_spawn_failed",
                "could not start systemctl",
                operation,
                None,
            ),
        ),
        SystemctlEnd::TimedOut => Err(
            systemctl_error("systemctl_timeout", "systemctl command timed out", operation, None),
        ),
        SystemctlEnd::NotWaitedFor => Err(
            systemctl_error(
                "systemctl_wait_failed",
                "could not wait for systemctl",
                operation,
                None,
            ),
        ),
        SystemctlEnd::OutputLost => Err(
            systemctl_error(
                "systemctl_output_error",
                "could not collect systemctl output",
                operation,
                None,
            ),
        ),
        SystemctlEnd::Finished { stdout, oversized, success, exit_code } => {
            if oversized {
                Err(
                    systemctl_error(
                        "systemctl_output_too_large",
                        "systemctl output exceeded the supported limit",
                        operation,
                        exit_code,
                    ),
                )
            } else if !success {
                Err(
                    systemctl_error(
                        "systemctl_failed",
                        "systemctl command failed",
                        operation,
                        exit_code,
                    ),
                )
            } else {
                Ok(stdout)
            }
        },
    }
}

// ---- the unit's state ----

/// The state of the unit.
#[derive(Debug, PartialEq, Eq)]
pub struct UnitState {
    pub load_state: String,
    pub unit_file_state: String,
    pub active_state: String,
}

/// The properties of the unit that were read so far.
pub struct ShownModel {
    pub load_state: Option<Seq<char>>,
    pub unit_file_state: Option<Seq<char>>,
    pub active_state: Option<Seq<char>>,
}

/// Whether a value can be a state: 1 to 128 ASCII letters, digits, hyphens and underscores.
pub open spec fn is_safe_state(value: Seq<char>) -> bool {
    0 < value.len() <= 128 && forall|i: int|
        0 <= i < value.len() ==> (text::is_ascii_alphanumeric(#[trigger] value[i]) || value[i] == '-'
            || value[i] == '_')
}

fn safe_state(value: &[char]) -> (yes: bool)
    ensures
        yes == is_safe_state(value@),
{
    if value.len() == 0 || value.len() > 128 {
        return false;
    }
    let mut i: usize = 0;
    while i < value.len()
        invariant
            i <= value.len(),
            forall|j: int|
                0 <= j < i ==> (text::is_ascii_alphanumeric(#[trigger] value@[j]) || value@[j]
                    == '-' || value@[j] == '_'),
        decreases value.len() - i,
    {
        let c = value[i];
        if !text::ascii_alphanumeric(c) && c != '-' && c != '_' {
            assert(!(text::is_ascii_alphanumeric(value@[i as int]) || value@[i as int] == '-'
                || value@[i as int] == '_'));
            return false;
        }
        i += 1;
    }
    true
}

/// A piece without the carriage return at its end.
pub open spec fn without_return(piece: Seq<char>) -> Seq<char> {
    if piece.len() > 0 && piece.last() == '\r' {
        piece.drop_last()
    } else {
        piece
    }
}

/// The lines of a text: a line ends with a line feed or a carriage return and a line feed, and
/// the end of the last line may be missing. Where the text ends a line, an empty line follows it
/// here.
pub open spec fn line_at(pieces: Seq<Seq<char>>, i: int) -> Seq<char> {
    if i < pieces.len() - 1 {
        without_return(pieces[i])
    } else {
        pieces[i]
    }
}

/// The first equals sign in a line.
pub open spec fn equals_sign(line: Seq<char>) -> Option<int> {
    text::found(line, seq!['='])
}

/// The properties after one more line: an empty line says nothing, and any other sets a property
/// that was not set to a value that can be a state. None where the line is malformed.
pub open spec fn shown_with(shown: ShownModel, line: Seq<char>) -> Option<ShownModel> {
    if line.len() == 0 {
        Some(shown)
    } else {
        match equals_sign(line) {
            None => None,
            Some(at) => {
                let key = line.take(at);
                let value = line.skip(at + 1);
                if !is_safe_state(value) {
                    None
                } else if key == "LoadState"@ && shown.load_state is None {
                    Some(ShownModel { load_state: Some(value), ..shown })
                } else if key == "UnitFileState"@ && shown.unit_file_state is None {
                    Some(ShownModel { unit_file_state: Some(value), ..shown })
                } else if key == "ActiveState"@ && shown.active_state is None {
                    Some(ShownModel { active_state: Some(value), ..shown })
                } else {
                    None
                }
            },
        }
    }
}

/// The properties after the first `count` lines.
pub open spec fn shown_after(pieces: Seq<Seq<char>>, count: int) -> Option<ShownModel>
    decreases count,
{
    if count <= 0 {
        Some(ShownModel { load_state: None, unit_file_state: None, active_state: None })
    } else {
        match shown_after(pieces, count - 1) {
            None => None,
            Some(shown) => shown_with(shown, line_at(pieces, count - 1)),
        }
    }
}

/// The three properties that `systemctl show` prints: all of them, each once. None where the
/// output is malformed.
pub open spec fn shown_state(output: Seq<u8>) -> Option<(Seq<char>, Seq<char>, Seq<char>)> {
    if !valid_utf8(output) {
        None
    } else {
        let pieces = text::split(decode_utf8(output), '\n');
        match shown_after(pieces, pieces.len() as int) {
            Some(shown) => match (shown.load_state, shown.unit_file_state, shown.active_state) {
                (Some(load), Some(unit), Some(active)) => Some((load, unit, active)),
                _ => None,
            },
            None => None,
        }
    }
}

proof fn lemma_shown_ends(pieces: Seq<Seq<char>>, count: int, last: int)
    requires
        count <= last,
        shown_after(pieces, count) is None,
    ensures
        shown_after(pieces, last) is None,
    decreases last - count,
{
    if count < last {
        lemma_shown_ends(pieces, count, last - 1);
    }
}

/// The failure that `systemctl show` printed something else than the unit's state.
pub open spec fn malformed_failure() -> CliErrorModel {
    error::plain("service_status_malformed"@, "systemctl returned malformed service state"@)
}

fn malformed_status() -> (failure: CliError)
    ensures
        failure@ == malformed_failure(),
{
    CliError::new("service_status_malformed", "systemctl returned malformed service state")
}

/// Reads what `systemctl show` prints.
pub fn parse_show(output: &[u8]) -> (result: Result<UnitState, CliError>)
    ensures
        match (result, shown_state(output@)) {
            (Ok(state), Some(model)) => (
                state.load_state@,
                state.unit_file_state@,
                state.active_state@,
            ) == model,
            (Err(failure), None) => failure@ == malformed_failure(),
            _ => false,
        },
{
    let content = match text::utf8_text(output) {
        Some(content) => content,
        None => {
            return Err(malformed_status());
        },
    };
    let chars = text::chars_of(content);
    let pieces = text::split_chars(&chars, '\n');
    let ghost split = text::split(decode_utf8(output@), '\n');
    assert(split == text::views(pieces@));
    let mut load: Option<String> = None;
    let mut unit: Option<String> = None;
    let mut active: Option<String> = None;
    let total: usize = pieces.len();
    assert(split.len() == total);
    let equals: Vec<char> = vec!['='];
    let mut i: usize = 0;
    while i < total
        invariant
            i <= total,
            total == pieces.len(),
            split == text::views(pieces@),
            split.len() == total,
            equals@ == seq!['='],
            valid_utf8(output@),
            split == text::split(decode_utf8(output@), '\n'),
            shown_after(split, i as int) == Some(
                ShownModel {
                    load_state: text::optional(load),
                    unit_file_state: text::optional(unit),
                    active_state: text::optional(active),
                },
            ),
        decreases total - i,
    {
        let piece: &Vec<char> = &pieces[i];
        assert(split[i as int] == piece@);
        let ghost line = line_at(split, i as int);
        let length: usize = if i < total - 1 && piece.len() > 0 && piece[piece.len() - 1] == '\r' {
            piece.len() - 1
        } else {
            piece.len()
        };
        assert(piece@.take(length as int) =~= line);
        if length > 0 {
            let all: &[char] = piece.as_slice();
            let current = vstd::slice::slice_subrange(all, 0, length);
            assert(current@ =~= line);
            proof {
                if !(shown_after(split, i + 1) is Some) {
                    lemma_shown_ends(split, i + 1, total as int);
                }
                text::lemma_found_fits(line, seq!['='], 0);
            }
            let at: usize = match text::find(current, &equals) {
                Some(at) => at,
                None => {
                    return Err(malformed_status());
                },
            };
            let key = text::string_of(vstd::slice::slice_subrange(current, 0, at));
            let rest = vstd::slice::slice_subrange(current, at + 1, current.len());
            assert(key@ =~= line.take(at as int));
            assert(rest@ =~= line.skip(at + 1));
            if !safe_state(rest) {
                return Err(malformed_status());
            }
            let value = text::string_of(rest);
            if text::same_text(key.as_str(), "LoadState") && load.is_none() {
                load = Some(value);
            } else if text::same_text(key.as_str(), "UnitFileState") && unit.is_none() {
                unit = Some(value);
            } else if text::same_text(key.as_str(), "ActiveState") && active.is_none() {
                active = Some(value);
            } else {
                return Err(malformed_status());
            }
        }
        i += 1;
    }
    match (load, unit, active) {
        (Some(load_state), Some(unit_file_state), Some(active_state)) => Ok(
            UnitState { load_state, unit_file_state, active_state },
        ),
        _ => Err(malformed_status()),
    }
}

} // verus!
