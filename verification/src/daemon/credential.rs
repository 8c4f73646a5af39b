//! The token file: how the access token is loaded, or made where there is none.
use vstd::prelude::*;
use crate::daemon::token;
use crate::daemon::token::AccessToken;
use crate::text;

verus! {

/// What is to be done next.
pub enum TokenStep {
    /// Look at the token file's path, without following a link; answer `Found`, `Missing` or
    /// `Failed`.
    Inspect,
    /// Create the file's directory where it is missing; answer `Done`, `NoDirectory` or `Failed`.
    MakeDirectory,
    /// Make a token; answer `Token` or `Failed`.
    Generate,
    /// Create the file for its owner alone, which must not exist; answer `Done`, `Found` or
    /// `Failed`.
    Create(AccessToken),
    /// Write the token to the new file and to the disk; answer `Done` or `Failed`.
    Write(AccessToken),
    /// Remove the new file, as far as it works; answer `Done`. The text is why.
    Remove(String),
    /// Open the file, without following a link; answer `Done` or `Failed`.
    Open,
    /// Look at the opened file; answer `Kind` or `Failed`.
    Check,
    /// Read the opened file; answer `Content` or `Failed`.
    Read,
    /// Nothing: this is the token.
    Ready(AccessToken),
    /// Nothing: there is no token, and this is why.
    Failed(String),
}

/// The model of a step.
pub enum TokenModel {
    Inspect,
    MakeDirectory,
    Generate,
    Create(Seq<char>),
    Write(Seq<char>),
    Remove(Seq<char>),
    Open,
    Check,
    Read,
    Ready(Seq<char>),
    Failed(Seq<char>),
}

impl View for TokenStep {
    type V = TokenModel;

    open spec fn view(&self) -> TokenModel {
        match self {
            TokenStep::Inspect => TokenModel::Inspect,
            TokenStep::MakeDirectory => TokenModel::MakeDirectory,
            TokenStep::Generate => TokenModel::Generate,
            TokenStep::Create(made) => TokenModel::Create(made@),
            TokenStep::Write(made) => TokenModel::Write(made@),
            TokenStep::Remove(message) => TokenModel::Remove(message@),
            TokenStep::Open => TokenModel::Open,
            TokenStep::Check => TokenModel::Check,
            TokenStep::Read => TokenModel::Read,
            TokenStep::Ready(found) => TokenModel::Ready(found@),
            TokenStep::Failed(message) => TokenModel::Failed(message@),
        }
    }
}

/// What came of a step.
pub enum TokenAnswer {
    Done,
    Found,
    Missing,
    NoDirectory,
    Token(AccessToken),
    /// Whether the file is a regular one, and its permission bits.
    Kind { regular: bool, mode: u32 },
    Content(String),
    /// It failed, and this is the reason.
    Failed(String),
}

/// The step after one that failed for a reason.
pub open spec fn after_failure(step: TokenModel, reason: Seq<char>) -> TokenModel {
    match step {
        TokenModel::Inspect | TokenModel::Check => TokenModel::Failed(
            "could not inspect access token file: "@ + reason,
        ),
        TokenModel::MakeDirectory => TokenModel::Failed(
            "could not create access token directory: "@ + reason,
        ),
        TokenModel::Generate => TokenModel::Failed(reason),
        TokenModel::Create(_) => TokenModel::Failed(
            "could not create access token file: "@ + reason,
        ),
        TokenModel::Write(_) => TokenModel::Remove("could not persist access token: "@ + reason),
        TokenModel::Remove(message) => TokenModel::Failed(message),
        TokenModel::Open => TokenModel::Failed("could not open access token file: "@ + reason),
        TokenModel::Read => TokenModel::Failed("could not read access token file: "@ + reason),
        TokenModel::Ready(_) | TokenModel::Failed(_) => step,
    }
}

/// The step after an answer; the same step where the answer is not one to it.
pub open spec fn step_after(step: TokenModel, answer: TokenAnswer) -> TokenModel {
    match (step, answer) {
        (_, TokenAnswer::Failed(reason)) => after_failure(step, reason@),
        (TokenModel::Inspect, TokenAnswer::Found) => TokenModel::Open,
        (TokenModel::Inspect, TokenAnswer::Missing) => TokenModel::MakeDirectory,
        (TokenModel::MakeDirectory, TokenAnswer::NoDirectory) => TokenModel::Failed(
            "access token file has no parent directory"@,
        ),
        (TokenModel::MakeDirectory, TokenAnswer::Done) => TokenModel::Generate,
        (TokenModel::Generate, TokenAnswer::Token(made)) => TokenModel::Create(made@),
        (TokenModel::Create(_), TokenAnswer::Found) => TokenModel::Open,
        (TokenModel::Create(made), TokenAnswer::Done) => TokenModel::Write(made),
        (TokenModel::Write(made), TokenAnswer::Done) => TokenModel::Ready(made),
        (TokenModel::Remove(message), TokenAnswer::Done) => TokenModel::Failed(message),
        (TokenModel::Open, TokenAnswer::Done) => TokenModel::Check,
        (TokenModel::Check, TokenAnswer::Kind { regular, mode }) => match token::token_file_fault(
            regular,
            mode,
        ) {
            Some(message) => TokenModel::Failed(message),
            None => TokenModel::Read,
        },
        (TokenModel::Read, TokenAnswer::Content(content)) => if token::is_access_token(content@) {
            TokenModel::Ready(content@)
        } else {
            TokenModel::Failed(
                "access token file must contain exactly 64 lowercase hexadecimal characters"@,
            )
        },
        _ => step,
    }
}

impl TokenStep {
    /// The first step of loading the token, or of making one where there is no token file.
    pub fn load_or_create() -> (step: Self)
        ensures
            step@ == TokenModel::Inspect,
    {
        TokenStep::Inspect
    }

    /// The first step of loading the token.
    pub fn load() -> (step: Self)
        ensures
            step@ == TokenModel::Open,
    {
        TokenStep::Open
    }

    fn failed(self, reason: &str) -> (next: Self)
        ensures
            next@ == after_failure(self@, reason@),
    {
        match self {
            TokenStep::Inspect | TokenStep::Check => TokenStep::Failed(
                text::joined("could not inspect access token file: ", reason),
            ),
            TokenStep::MakeDirectory => TokenStep::Failed(
                text::joined("could not create access token directory: ", reason),
            ),
            TokenStep::Generate => TokenStep::Failed(text::copy_of(reason)),
            TokenStep::Create(_) => TokenStep::Failed(
                text::joined("could not create access token file: ", reason),
            ),
            TokenStep::Write(_) => TokenStep::Remove(
                text::joined("could not persist access token: ", reason),
            ),
            TokenStep::Remove(message) => TokenStep::Failed(message),
            TokenStep::Open => TokenStep::Failed(
                text::joined("could not open access token file: ", reason),
            ),
            TokenStep::Read => TokenStep::Failed(
                text::joined("could not read access token file: ", reason),
            ),
            TokenStep::Ready(found) => TokenStep::Ready(found),
            TokenStep::Failed(message) => TokenStep::Failed(message),
        }
    }

    /// The step after an answer.
    pub fn after(self, answer: TokenAnswer) -> (next: Self)
        ensures
            next@ == step_after(self@, answer),
    {
        match (self, answer) {
            (step, TokenAnswer::Failed(reason)) => step.failed(reason.as_str()),
            (TokenStep::Inspect, TokenAnswer::Found) => TokenStep::Open,
            (TokenStep::Inspect, TokenAnswer::Missing) => TokenStep::MakeDirectory,
            (TokenStep::MakeDirectory, TokenAnswer::NoDirectory) => TokenStep::Failed(
                text::copy_of("access token file has no parent directory"),
            ),
            (TokenStep::MakeDirectory, TokenAnswer::Done) => TokenStep::Generate,
            (TokenStep::Generate, TokenAnswer::Token(made)) => TokenStep::Create(made),
            (TokenStep::Create(_), TokenAnswer::Found) => TokenStep::Open,
            (TokenStep::Create(made), TokenAnswer::Done) => TokenStep::Write(made),
            (TokenStep::Write(made), TokenAnswer::Done) => TokenStep::Ready(made),
            (TokenStep::Remove(message), TokenAnswer::Done) => TokenStep::Failed(message),
            (TokenStep::Open, TokenAnswer::Done) => TokenStep::Check,
            (TokenStep::Check, TokenAnswer::Kind { regular, mode }) => match token::check_token_file(
                regular,
                mode,
            ) {
                Ok(_) => TokenStep::Read,
                Err(message) => TokenStep::Failed(message),
            },
            (TokenStep::Read, TokenAnswer::Content(content)) => match token::read_access_token(
                content.as_str(),
            ) {
                Ok(found) => TokenStep::Ready(found),
                Err(message) => TokenStep::Failed(message),
            },
            (step, _) => step,
        }
    }
}

/// A token is ready only where it was just written to a new file, or read, well-formed, from the
/// file; and the file is read only where it is a regular one that is its owner's alone.
pub proof fn law_tokens_stay_private(step: TokenModel, answer: TokenAnswer)
    requires
        !(step is Ready),
    ensures
        step_after(step, answer) matches TokenModel::Ready(found) ==> (step == TokenModel::Write(
            found,
        ) || (step is Read && token::is_access_token(found) && (answer matches TokenAnswer::Content(
            content,
        ) && content@ == found))),
        !(step is Read) && step_after(step, answer) is Read ==> step is Check && (
        answer matches TokenAnswer::Kind { regular, mode } && regular && mode & 0o077 == 0),
{
}

/// A new file that could not be written is removed before the failure is told.
pub proof fn law_unwritten_token_files_are_removed(made: Seq<char>, answer: TokenAnswer)
    ensures
        ({
            let next = step_after(TokenModel::Write(made), answer);
            next is Write || next is Ready || next is Remove
        }),
{
}

// ---- the file from one run to the next ----

/// The permission bits of a new token file: its owner reads and writes it, and nobody else.
pub const TOKEN_FILE_MODE: u32 = 0o600;

/// What stands at the path of the token file.
pub struct TokenFile {
    pub regular: bool,
    pub mode: u32,
    pub content: Seq<char>,
}

/// Whether the step did to the path what it says, and was answered accordingly. What a longer file
/// is read as is left open, but that it is no token.
pub open spec fn performed(
    step: TokenModel,
    answer: TokenAnswer,
    before: Option<TokenFile>,
    after: Option<TokenFile>,
) -> bool {
    match (step, answer) {
        (TokenModel::Inspect, TokenAnswer::Found) => before is Some && after == before,
        (TokenModel::Inspect, TokenAnswer::Missing) => before is None && after == before,
        (TokenModel::Generate, TokenAnswer::Token(made)) => after == before
            && token::is_access_token(made@),
        (TokenModel::Create(_), TokenAnswer::Found) => before is Some && after == before,
        (TokenModel::Create(_), TokenAnswer::Done) => {
            &&& before is None
            &&& after matches Some(file) && file.regular && file.mode & 0o777 == TOKEN_FILE_MODE
                && file.content == Seq::<char>::empty()
        },
        (TokenModel::Write(made), TokenAnswer::Done) => before matches Some(file) && after == Some(
            TokenFile { content: file.content + made, ..file },
        ),
        (TokenModel::Write(_), TokenAnswer::Failed(_)) => true,
        (TokenModel::Remove(_), _) => after is None || after == before,
        (TokenModel::Open, TokenAnswer::Done) => before is Some && after == before,
        (TokenModel::Check, TokenAnswer::Kind { regular, mode }) => {
            &&& after == before
            &&& before matches Some(file) && regular == file.regular && mode == file.mode
        },
        (TokenModel::Read, TokenAnswer::Content(content)) => {
            &&& after == before
            &&& before matches Some(file) && (token::is_access_token(file.content)
                || token::is_access_token(content@) ==> content@ == file.content)
        },
        _ => after == before,
    }
}

/// Whether these are the steps, the answers and the files of one run, from its first step on.
pub open spec fn runs(
    first: TokenModel,
    steps: Seq<TokenModel>,
    answers: Seq<TokenAnswer>,
    files: Seq<Option<TokenFile>>,
) -> bool {
    &&& steps.len() == answers.len() + 1
    &&& files.len() == steps.len()
    &&& steps[0] == first
    &&& forall|k: int|
        0 <= k < answers.len() ==> {
            &&& steps[k + 1] == step_after(steps[k], #[trigger] answers[k])
            &&& performed(steps[k], answers[k], files[k], files[k + 1])
        }
}

/// Whether the file holds the token and is its owner's alone.
pub open spec fn is_private(found: Option<TokenFile>, content: Seq<char>) -> bool {
    found matches Some(file) && file.regular && file.mode & 0o777 == TOKEN_FILE_MODE && file.content
        == content
}

/// What holds at every step of a run that found no file.
spec fn makes(step: TokenModel, file: Option<TokenFile>) -> bool {
    match step {
        TokenModel::Inspect | TokenModel::MakeDirectory | TokenModel::Generate => file is None,
        TokenModel::Create(made) => file is None && token::is_access_token(made),
        TokenModel::Write(made) => is_private(file, Seq::empty()) && token::is_access_token(made),
        TokenModel::Ready(made) => is_private(file, made) && token::is_access_token(made),
        TokenModel::Remove(_) | TokenModel::Failed(_) => true,
        _ => false,
    }
}

proof fn lemma_makes(
    steps: Seq<TokenModel>,
    answers: Seq<TokenAnswer>,
    files: Seq<Option<TokenFile>>,
    k: int,
)
    requires
        runs(TokenModel::Inspect, steps, answers, files),
        files[0] is None,
        0 <= k < steps.len(),
    ensures
        makes(steps[k], files[k]),
    decreases k,
{
    if k > 0 {
        lemma_makes(steps, answers, files, k - 1);
        assert(performed(steps[k - 1], answers[k - 1], files[k - 1], files[k]));
        match steps[k - 1] {
            TokenModel::Write(made) => {
                assert(Seq::<char>::empty() + made =~= made);
            },
            _ => {},
        }
    }
}

/// Where there was no file, the token that a run gives stands in a file that is its owner's alone:
/// the 64 characters of the token, and nothing else.
pub proof fn law_new_tokens_are_written(
    steps: Seq<TokenModel>,
    answers: Seq<TokenAnswer>,
    files: Seq<Option<TokenFile>>,
    made: Seq<char>,
)
    requires
        runs(TokenModel::Inspect, steps, answers, files),
        files[0] is None,
        steps.last() == TokenModel::Ready(made),
    ensures
        token::is_access_token(made),
        is_private(files.last(), made),
{
    lemma_makes(steps, answers, files, steps.len() - 1);
}

/// What holds at every step of a run that finds the token's file.
spec fn finds(step: TokenModel, file: Option<TokenFile>, made: Seq<char>) -> bool {
    &&& is_private(file, made)
    &&& step is Inspect || step is Open || step is Check || step is Read || step
        == TokenModel::Ready(made)
}

proof fn lemma_finds(
    first: TokenModel,
    steps: Seq<TokenModel>,
    answers: Seq<TokenAnswer>,
    files: Seq<Option<TokenFile>>,
    made: Seq<char>,
    k: int,
)
    requires
        first is Inspect || first is Open,
        runs(first, steps, answers, files),
        is_private(files[0], made),
        token::is_access_token(made),
        forall|i: int| 0 <= i < answers.len() ==> !((#[trigger] answers[i]) is Failed),
        0 <= k < steps.len(),
    ensures
        finds(steps[k], files[k], made),
        files[k] == files[0],
    decreases k,
{
    if k > 0 {
        lemma_finds(first, steps, answers, files, made, k - 1);
        assert(performed(steps[k - 1], answers[k - 1], files[k - 1], files[k]));
        assert(!(answers[k - 1] is Failed));
        let mode = files[k - 1]->0.mode;
        assert(mode & 0o777 == 0o600 ==> mode & 0o077 == 0) by (bit_vector);
    }
}

/// The token that a run made is the one that every later run gives, where the file was not touched
/// since and no step fails, whether that run may make a token or only loads it; and the file stays
/// as it is.
pub proof fn law_tokens_persist(
    steps: Seq<TokenModel>,
    answers: Seq<TokenAnswer>,
    files: Seq<Option<TokenFile>>,
    made: Seq<char>,
    first: TokenModel,
    later_steps: Seq<TokenModel>,
    later_answers: Seq<TokenAnswer>,
    later_files: Seq<Option<TokenFile>>,
)
    requires
        runs(TokenModel::Inspect, steps, answers, files),
        files[0] is None,
        steps.last() == TokenModel::Ready(made),
        first is Inspect || first is Open,
        runs(first, later_steps, later_answers, later_files),
        later_files[0] == files.last(),
        forall|i: int| 0 <= i < later_answers.len() ==> !((#[trigger] later_answers[i]) is Failed),
    ensures
        !(later_steps.last() is Failed),
        later_steps.last() matches TokenModel::Ready(found) ==> found == made,
        later_files.last() == files.last(),
{
    law_new_tokens_are_written(steps, answers, files, made);
    lemma_finds(first, later_steps, later_answers, later_files, made, later_steps.len() - 1);
}

} // verus!
