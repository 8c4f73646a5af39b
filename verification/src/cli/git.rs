//! What Git says of a working directory.
use vstd::prelude::*;
use vstd::utf8::*;
use crate::cli::error;
use crate::cli::error::{CliError, CliErrorModel};
use crate::storage::read;
use crate::storage::read::GitProvenance;
use crate::text;

verus! {

/// How long a Git command may take, in seconds.
pub const GIT_TIMEOUT_SECONDS: u64 = 2;

/// The longest output of a Git command, in bytes.
pub const MAX_GIT_OUTPUT_BYTES: usize = 8192;

/// A question to Git.
#[derive(Debug, Clone, Copy, PartialEq, Eq, Structural)]
pub enum GitQuestion {
    Root,
    Branch,
    Commit,
}

/// The arguments of the Git command that asks a question.
pub open spec fn question_words(question: GitQuestion) -> Seq<Seq<char>> {
    match question {
        GitQuestion::Root => seq!["rev-parse"@, "--show-toplevel"@],
        GitQuestion::Branch => seq!["symbolic-ref"@, "--quiet"@, "--short"@, "HEAD"@],
        GitQuestion::Commit => seq!["rev-parse"@, "--verify"@, "HEAD"@],
    }
}

impl GitQuestion {
    /// The arguments of the Git command that asks the question.
    pub fn words(self) -> (words: Vec<String>)
        ensures
            text::texts(words@) == question_words(self),
    {
        let mut words: Vec<String> = Vec::new();
        match self {
            GitQuestion::Root => {
                words.push(text::copy_of("rev-parse"));
                words.push(text::copy_of("--show-toplevel"));
            },
            GitQuestion::Branch => {
                words.push(text::copy_of("symbolic-ref"));
                words.push(text::copy_of("--quiet"));
                words.push(text::copy_of("--short"));
                words.push(text::copy_of("HEAD"));
            },
            GitQuestion::Commit => {
                words.push(text::copy_of("rev-parse"));
                words.push(text::copy_of("--verify"));
                words.push(text::copy_of("HEAD"));
            },
        }
        assert(text::texts(words@) =~= question_words(self));
        words
    }
}

/// How a Git command ended.
#[derive(Debug, PartialEq, Eq)]
pub enum GitEnd {
    /// It could not be started, for the reason given.
    NotStarted(String),
    /// It could not be waited for, for the reason given.
    NotWaitedFor(String),
    /// Its output could not be read, for the reason given.
    NotRead(String),
    TimedOut,
    /// It ended, with this much of its output: one byte more than is accepted at most.
    Finished { success: bool, output: Vec<u8> },
}

/// A failure of Git.
pub open spec fn git_failure(message: Seq<char>) -> CliErrorModel {
    error::plain("git_error"@, message)
}

fn git_error(message: &str) -> (failure: CliError)
    ensures
        failure@ == git_failure(message@),
{
    CliError::new("git_error", message)
}

fn git_error_for(message: &str, reason: &str) -> (failure: CliError)
    ensures
        failure@ == git_failure(message@ + reason@),
{
    let whole = text::joined(message, reason);
    git_error(whole.as_str())
}

/// A text without the line ends at its end.
pub open spec fn without_line_ends(s: Seq<char>) -> Seq<char>
    decreases s.len(),
{
    if s.len() > 0 && (s.last() == '\r' || s.last() == '\n') {
        without_line_ends(s.drop_last())
    } else {
        s
    }
}

fn trim_line_ends(value: &str) -> (result: String)
    ensures
        result@ == without_line_ends(value@),
{
    let chars = text::chars_of(value);
    let mut end: usize = chars.len();
    assert(value@.take(end as int) =~= value@);
    while end > 0 && (chars[end - 1] == '\r' || chars[end - 1] == '\n')
        invariant
            end <= chars.len(),
            chars@ == value@,
            without_line_ends(value@) == without_line_ends(value@.take(end as int)),
        decreases end,
    {
        assert(value@.take(end as int).drop_last() =~= value@.take(end - 1));
        end -= 1;
    }
    let rest = vstd::slice::slice_subrange(chars.as_slice(), 0, end);
    assert(rest@ =~= value@.take(end as int));
    text::string_of(rest)
}

/// What a Git command says: its output without the line ends at its end, nothing where Git has no
/// answer, or why it failed.
pub open spec fn git_answer(end: GitEnd) -> Result<Option<Seq<char>>, CliErrorModel> {
    match end {
        GitEnd::NotStarted(reason) => Err(git_failure("could not execute Git: "@ + reason@)),
        GitEnd::NotWaitedFor(reason) => Err(git_failure("could not wait for Git: "@ + reason@)),
        GitEnd::NotRead(reason) => Err(git_failure("could not read Git output: "@ + reason@)),
        GitEnd::TimedOut => Err(git_failure("Git command timed out"@)),
        GitEnd::Finished { success, output } => if !success {
            Ok(None)
        } else if output@.len() > MAX_GIT_OUTPUT_BYTES {
            Err(git_failure("Git output exceeds 8 KiB"@))
        } else if !valid_utf8(output@) {
            Err(git_failure("Git output is not UTF-8"@))
        } else {
            Ok(Some(without_line_ends(decode_utf8(output@))))
        },
    }
}

/// Judges how a Git command ended.
pub fn git_output(end: GitEnd) -> (result: Result<Option<String>, CliError>)
    ensures
        match (result, git_answer(end)) {
            (Ok(said), Ok(model)) => text::optional(said) == model,
            (Err(failure), Err(model)) => failure@ == model,
            _ => false,
        },
{
    match end {
        GitEnd::NotStarted(reason) => Err(
            git_error_for("could not execute Git: ", reason.as_str()),
        ),
        GitEnd::NotWaitedFor(reason) => Err(
            git_error_for("could not wait for Git: ", reason.as_str()),
        ),
        GitEnd::NotRead(reason) => Err(
            git_error_for("could not read Git output: ", reason.as_str()),
        ),
        GitEnd::TimedOut => Err(git_error("Git command timed out")),
        GitEnd::Finished { success, output } => {
            if !success {
                return Ok(None);
            }
            if output.len() > MAX_GIT_OUTPUT_BYTES {
                return Err(git_error("Git output exceeds 8 KiB"));
            }
            match text::utf8_text(&output) {
                Some(content) => Ok(Some(trim_line_ends(content))),
                None => Err(git_error("Git output is not UTF-8")),
            }
        },
    }
}

/// Checks the root that Git names, before anything else is asked.
pub fn check_root(root: &str) -> (result: Result<(), CliError>)
    ensures
        match result {
            Ok(_) => encode_utf8(root@).len() <= 4096,
            Err(failure) => encode_utf8(root@).len() > 4096 && failure@ == git_failure(
                "Git root exceeds the supported length"@,
            ),
        },
{
    if text::byte_len(root) > 4096 {
        Err(git_error("Git root exceeds the supported length"))
    } else {
        Ok(())
    }
}

/// What is wrong with the provenance that Git gives.
pub open spec fn provenance_fault(
    root: Seq<char>,
    branch: Option<Seq<char>>,
    commit: Option<Seq<char>>,
) -> Option<CliErrorModel> {
    if (branch matches Some(name) && encode_utf8(name).len() > 1024) || (commit matches Some(name)
        && encode_utf8(name).len() > 128) {
        Some(git_failure("Git provenance exceeds the supported length"@))
    } else if !read::is_valid_provenance(root, branch, commit) {
        Some(git_failure("Git returned invalid provenance"@))
    } else {
        None
    }
}

/// The provenance that Git gives: valid, or a failure.
pub fn assemble_provenance(root: String, branch: Option<String>, commit: Option<String>) -> (result:
    Result<GitProvenance, CliError>)
    ensures
        match result {
            Ok(provenance) => {
                &&& provenance_fault(root@, text::optional(branch), text::optional(commit)) is None
                &&& read::git_parts(Some(provenance)) == Some(
                    (root@, text::optional(branch), text::optional(commit)),
                )
            },
            Err(failure) => provenance_fault(root@, text::optional(branch), text::optional(commit))
                == Some(failure@),
        },
{
    let long_branch = match &branch {
        Some(name) => text::byte_len(name.as_str()) > 1024,
        None => false,
    };
    let long_commit = match &commit {
        Some(name) => text::byte_len(name.as_str()) > 128,
        None => false,
    };
    if long_branch || long_commit {
        return Err(git_error("Git provenance exceeds the supported length"));
    }
    let provenance = GitProvenance { root, branch, commit };
    if provenance.is_valid() {
        Ok(provenance)
    } else {
        Err(git_error("Git returned invalid provenance"))
    }
}

/// Provenance that is assembled is provenance that the daemon takes.
pub proof fn law_assembled_provenance_is_valid(
    root: Seq<char>,
    branch: Option<Seq<char>>,
    commit: Option<Seq<char>>,
)
    requires
        provenance_fault(root, branch, commit) is None,
    ensures
        read::is_valid_provenance(root, branch, commit),
{
}

} // verus!
