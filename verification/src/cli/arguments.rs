//! The commands of the command line.
use vstd::prelude::*;
use vstd::utf8::*;
use crate::api::paths;
use crate::cli::error;
use crate::cli::error::{CliError, CliErrorModel};
use crate::number;
use crate::percent;
use crate::storage::session;
use crate::text;

verus! {

// ---- single arguments ----

/// Whether a text is one or more ASCII letters and digits.
pub open spec fn is_public_id(value: Seq<char>) -> bool {
    value.len() > 0 && forall|i: int|
        0 <= i < value.len() ==> text::is_ascii_alphanumeric(#[trigger] value[i])
}

/// The failure of a session ID that cannot be one.
pub open spec fn public_id_failure() -> CliErrorModel {
    error::usage("public session ID must be ASCII alphanumeric"@)
}

/// Every identifier that the store makes names a session page and is accepted on the command
/// line.
pub proof fn law_generated_ids_are_accepted(bytes: Seq<u8>)
    requires
        session::public_id_chars(bytes).len() >= session::INITIAL_PUBLIC_ID_LENGTH,
    ensures
        paths::names_session_page(session::public_id_chars(bytes)),
        is_public_id(session::public_id_chars(bytes)),
{
    session::lemma_chars_make_an_id(bytes);
    let id = session::public_id_chars(bytes);
    assert forall|i: int| 0 <= i < id.len() implies text::is_ascii_alphanumeric(
        #[trigger] id[i],
    ) by {
        assert(session::is_base58(id[i]));
    }
}

/// Checks a public session ID.
pub fn session_public_id(value: &str) -> (result: Result<(), CliError>)
    ensures
        match result {
            Ok(_) => is_public_id(value@),
            Err(failure) => !is_public_id(value@) && failure@ == public_id_failure(),
        },
{
    let chars = text::chars_of(value);
    let mut good = chars.len() > 0;
    let mut i: usize = 0;
    while i < chars.len()
        invariant
            i <= chars.len(),
            chars@ == value@,
            good == (chars@.len() > 0 && forall|j: int|
                0 <= j < i ==> text::is_ascii_alphanumeric(#[trigger] chars@[j])),
        decreases chars.len() - i,
    {
        if !text::ascii_alphanumeric(chars[i]) {
            good = false;
        }
        i += 1;
    }
    if good {
        Ok(())
    } else {
        Err(CliError::usage("public session ID must be ASCII alphanumeric"))
    }
}

/// The positive integer that a text is, or the failure that it is none.
pub open spec fn positive_value(value: Seq<char>, name: Seq<char>) -> Result<int, CliErrorModel> {
    match number::signed_value(value) {
        Some(number) if number > 0 => Ok(number),
        _ => Err(error::usage(name + " must be a positive integer"@)),
    }
}

/// Reads a positive integer.
pub fn positive_integer(value: &str, name: &str) -> (result: Result<i64, CliError>)
    ensures
        match (result, positive_value(value@, name@)) {
            (Ok(number), Ok(model)) => number == model,
            (Err(failure), Err(model)) => failure@ == model,
            _ => false,
        },
{
    match number::parse_i64(value) {
        Some(number) => {
            if number > 0 {
                return Ok(number);
            }
        },
        None => {},
    }
    let message = text::joined(name, " must be a positive integer");
    Err(CliError::usage(message.as_str()))
}

// ---- the list command ----

/// What the options of `list` set.
pub struct ListModel {
    pub scope: Option<Seq<char>>,
    pub limit: Option<Seq<char>>,
    pub cursor: Option<Seq<char>>,
}

/// What the options of `list` set.
#[derive(Debug, PartialEq, Eq)]
pub struct ListOptions {
    /// The path of the feed.
    pub scope: Option<String>,
    pub limit: Option<String>,
    pub cursor: Option<String>,
}

impl View for ListOptions {
    type V = ListModel;

    open spec fn view(&self) -> ListModel {
        ListModel {
            scope: text::optional(self.scope),
            limit: text::optional(self.limit),
            cursor: text::optional(self.cursor),
        }
    }
}

/// The failure of an option without its value.
pub open spec fn valueless(option: Seq<char>) -> CliErrorModel {
    error::usage(option + " requires a value"@)
}

/// The options with a scope, of which there is only one.
pub open spec fn with_scope(options: ListModel, scope: Seq<char>) -> Result<
    ListModel,
    CliErrorModel,
> {
    if options.scope is Some {
        Err(error::usage("list requires exactly one scope"@))
    } else {
        Ok(ListModel { scope: Some(scope), ..options })
    }
}

/// The options with a limit, which is a number from 1 to 100 and is kept as it was written.
pub open spec fn with_limit(options: ListModel, value: Seq<char>) -> Result<
    ListModel,
    CliErrorModel,
> {
    if options.limit is Some {
        Err(error::usage("duplicate list option: --limit"@))
    } else {
        match positive_value(value, "limit"@) {
            Err(failure) => Err(failure),
            Ok(number) => if number > 100 {
                Err(error::usage("limit must be in 1..=100"@))
            } else {
                Ok(ListModel { limit: Some(value), ..options })
            },
        }
    }
}

/// The options with a cursor.
pub open spec fn with_cursor(options: ListModel, value: Seq<char>) -> Result<
    ListModel,
    CliErrorModel,
> {
    if options.cursor is Some {
        Err(error::usage("duplicate list option: --cursor"@))
    } else {
        Ok(ListModel { cursor: Some(value), ..options })
    }
}

/// Whether an option of `list` takes a value.
pub open spec fn takes_list_value(option: Seq<char>) -> bool {
    option == "--session"@ || option == "--project"@ || option == "--limit"@ || option
        == "--cursor"@
}

/// The options with one that takes a value.
pub open spec fn with_list_value(options: ListModel, option: Seq<char>, value: Seq<char>) -> Result<
    ListModel,
    CliErrorModel,
> {
    if option == "--session"@ {
        if is_public_id(value) {
            with_scope(options, "/api/v1/sessions/"@ + value + "/posts"@)
        } else {
            Err(public_id_failure())
        }
    } else if option == "--project"@ {
        match positive_value(value, "project ID"@) {
            Err(failure) => Err(failure),
            Ok(number) => with_scope(
                options,
                "/api/v1/projects/"@ + number::decimal(number as nat) + "/posts"@,
            ),
        }
    } else if option == "--limit"@ {
        with_limit(options, value)
    } else {
        with_cursor(options, value)
    }
}

/// What the arguments of `list` from `i` on add to the options, or the first failure.
pub open spec fn list_options(arguments: Seq<Seq<char>>, i: int, options: ListModel) -> Result<
    ListModel,
    CliErrorModel,
>
    decreases arguments.len() - i,
{
    if i < 0 || i >= arguments.len() {
        Ok(options)
    } else if arguments[i] == "--global"@ {
        match with_scope(options, "/api/v1/posts"@) {
            Err(failure) => Err(failure),
            Ok(now) => list_options(arguments, i + 1, now),
        }
    } else if takes_list_value(arguments[i]) {
        if i + 1 >= arguments.len() {
            Err(valueless(arguments[i]))
        } else {
            match with_list_value(options, arguments[i], arguments[i + 1]) {
                Err(failure) => Err(failure),
                Ok(now) => list_options(arguments, i + 2, now),
            }
        }
    } else {
        Err(error::usage("unknown list option: "@ + arguments[i]))
    }
}

/// The path that the options ask for: the scope's feed, then the limit and the cursor, the
/// cursor percent-encoded.
pub open spec fn list_path_of(options: ListModel) -> Result<Seq<char>, CliErrorModel> {
    match options.scope {
        None => Err(error::usage("list requires --session, --project, or --global"@)),
        Some(scope) => Ok(
            match (options.limit, options.cursor) {
                (None, None) => scope,
                (Some(limit), None) => scope + "?limit="@ + limit,
                (None, Some(cursor)) => scope + "?cursor="@ + percent::encoded(encode_utf8(cursor)),
                (Some(limit), Some(cursor)) => scope + "?limit="@ + limit + "&cursor="@
                    + percent::encoded(encode_utf8(cursor)),
            },
        ),
    }
}

/// The path that the arguments of `list` ask for.
pub open spec fn listed_path(arguments: Seq<Seq<char>>) -> Result<Seq<char>, CliErrorModel> {
    match list_options(arguments, 0, ListModel { scope: None, limit: None, cursor: None }) {
        Err(failure) => Err(failure),
        Ok(options) => list_path_of(options),
    }
}

impl ListOptions {
    fn set_scope(self, scope: String) -> (result: Result<Self, CliError>)
        ensures
            match (result, with_scope(self@, scope@)) {
                (Ok(now), Ok(model)) => now@ == model,
                (Err(failure), Err(model)) => failure@ == model,
                _ => false,
            },
    {
        if self.scope.is_some() {
            Err(CliError::usage("list requires exactly one scope"))
        } else {
            Ok(ListOptions { scope: Some(scope), limit: self.limit, cursor: self.cursor })
        }
    }

    fn set_value(self, option: &str, value: &str) -> (result: Result<Self, CliError>)
        requires
            takes_list_value(option@),
        ensures
            match (result, with_list_value(self@, option@, value@)) {
                (Ok(now), Ok(model)) => now@ == model,
                (Err(failure), Err(model)) => failure@ == model,
                _ => false,
            },
    {
        if text::same_text(option, "--session") {
            return match session_public_id(value) {
                Ok(_) => self.set_scope(text::joined3("/api/v1/sessions/", value, "/posts")),
                Err(failure) => Err(failure),
            };
        }
        if text::same_text(option, "--project") {
            return match positive_integer(value, "project ID") {
                Ok(id) => {
                    let digits = number::format_i64(id);
                    self.set_scope(text::joined3("/api/v1/projects/", digits.as_str(), "/posts"))
                },
                Err(failure) => Err(failure),
            };
        }
        if text::same_text(option, "--limit") {
            if self.limit.is_some() {
                return Err(CliError::usage("duplicate list option: --limit"));
            }
            return match positive_integer(value, "limit") {
                Ok(limit) => {
                    if limit > 100 {
                        Err(CliError::usage("limit must be in 1..=100"))
                    } else {
                        Ok(
                            ListOptions {
                                scope: self.scope,
                                limit: Some(text::copy_of(value)),
                                cursor: self.cursor,
                            },
                        )
                    }
                },
                Err(failure) => Err(failure),
            };
        }
        if self.cursor.is_some() {
            return Err(CliError::usage("duplicate list option: --cursor"));
        }
        Ok(
            ListOptions {
                scope: self.scope,
                limit: self.limit,
                cursor: Some(text::copy_of(value)),
            },
        )
    }

    fn parse(arguments: &[String]) -> (result: Result<Self, CliError>)
        ensures
            match (
                result,
                list_options(
                    text::texts(arguments@),
                    0,
                    ListModel { scope: None, limit: None, cursor: None },
                ),
            ) {
                (Ok(options), Ok(model)) => options@ == model,
                (Err(failure), Err(model)) => failure@ == model,
                _ => false,
            },
    {
        let ghost texts = text::texts(arguments@);
        let ghost whole = list_options(
            texts,
            0,
            ListModel { scope: None, limit: None, cursor: None },
        );
        let mut options = ListOptions { scope: None, limit: None, cursor: None };
        let total: usize = arguments.len();
        let mut i: usize = 0;
        while i < total
            invariant
                i <= total,
                total == arguments.len(),
                texts == text::texts(arguments@),
                whole == list_options(
                    texts,
                    0,
                    ListModel { scope: None, limit: None, cursor: None },
                ),
                whole == list_options(texts, i as int, options@),
            decreases total - i,
        {
            let option = arguments[i].as_str();
            assert(texts[i as int] == option@);
            if text::same_text(option, "--global") {
                options =
                match options.set_scope(text::copy_of("/api/v1/posts")) {
                    Ok(now) => now,
                    Err(failure) => {
                        return Err(failure);
                    },
                };
                i += 1;
            } else if text::same_text(option, "--session") || text::same_text(option, "--project")
                || text::same_text(option, "--limit") || text::same_text(option, "--cursor") {
                if total - i < 2 {
                    let message = text::joined(option, " requires a value");
                    return Err(CliError::usage(message.as_str()));
                }
                let value = arguments[i + 1].as_str();
                assert(texts[i + 1] == value@);
                options =
                match options.set_value(option, value) {
                    Ok(now) => now,
                    Err(failure) => {
                        return Err(failure);
                    },
                };
                i += 2;
            } else {
                let message = text::joined("unknown list option: ", option);
                return Err(CliError::usage(message.as_str()));
            }
        }
        Ok(options)
    }
}

/// The path that the arguments of `list` ask for.
pub fn list_path(arguments: &[String]) -> (result: Result<String, CliError>)
    ensures
        match (result, listed_path(text::texts(arguments@))) {
            (Ok(path), Ok(model)) => path@ == model,
            (Err(failure), Err(model)) => failure@ == model,
            _ => false,
        },
{
    let options = match ListOptions::parse(arguments) {
        Ok(options) => options,
        Err(failure) => {
            return Err(failure);
        },
    };
    let scope = match options.scope {
        Some(scope) => scope,
        None => {
            return Err(CliError::usage("list requires --session, --project, or --global"));
        },
    };
    let (start, limited) = match options.limit {
        Some(limit) => (text::joined3(scope.as_str(), "?limit=", limit.as_str()), true),
        None => (scope, false),
    };
    match options.cursor {
        Some(cursor) => {
            let encoded = percent::encode_component(cursor.as_str());
            let name = if limited {
                "&cursor="
            } else {
                "?cursor="
            };
            Ok(text::joined3(start.as_str(), name, encoded.as_str()))
        },
        None => Ok(start),
    }
}

// ---- commands ----

/// A command.
#[derive(Debug, PartialEq, Eq)]
pub enum Command {
    /// Publish, with these arguments.
    Publish(Vec<String>),
    /// Manage the service, with these arguments.
    Service(Vec<String>),
    /// Ask for the daemon's status.
    Status,
    /// Ask the daemon for what is at the path.
    Get(String),
    /// Ask the daemon to delete what is at the path.
    Delete(String),
    /// Open the session or the URL.
    Open(String),
}

/// The model of a command.
pub enum CommandModel {
    Publish(Seq<Seq<char>>),
    Service(Seq<Seq<char>>),
    Status,
    Get(Seq<char>),
    Delete(Seq<char>),
    Open(Seq<char>),
}

impl View for Command {
    type V = CommandModel;

    open spec fn view(&self) -> CommandModel {
        match *self {
            Command::Publish(arguments) => CommandModel::Publish(text::texts(arguments@)),
            Command::Service(arguments) => CommandModel::Service(text::texts(arguments@)),
            Command::Status => CommandModel::Status,
            Command::Get(path) => CommandModel::Get(path@),
            Command::Delete(path) => CommandModel::Delete(path@),
            Command::Open(target) => CommandModel::Open(target@),
        }
    }
}

/// The failure of a command that takes no arguments.
pub open spec fn takes_no_arguments() -> CliErrorModel {
    error::usage("command does not accept arguments"@)
}

/// The command that the arguments name, with what it is to do.
pub open spec fn named_command(arguments: Seq<Seq<char>>) -> Result<CommandModel, CliErrorModel> {
    if arguments.len() == 0 {
        Err(error::usage("missing command"@))
    } else {
        let name = arguments[0];
        let rest = arguments.skip(1);
        if name == "publish"@ {
            Ok(CommandModel::Publish(rest))
        } else if name == "service"@ {
            Ok(CommandModel::Service(rest))
        } else if name == "status"@ {
            if rest.len() > 0 {
                Err(takes_no_arguments())
            } else {
                Ok(CommandModel::Status)
            }
        } else if name == "health"@ {
            if rest.len() > 0 {
                Err(takes_no_arguments())
            } else {
                Ok(CommandModel::Get("/api/v1/health"@))
            }
        } else if name == "show"@ {
            if rest.len() != 1 {
                Err(error::usage("show requires one post ID"@))
            } else {
                match positive_value(rest[0], "post ID"@) {
                    Err(failure) => Err(failure),
                    Ok(id) => Ok(
                        CommandModel::Get("/api/v1/posts/"@ + number::decimal(id as nat)),
                    ),
                }
            }
        } else if name == "close"@ {
            if rest.len() != 1 {
                Err(error::usage("close requires one public session ID"@))
            } else if !is_public_id(rest[0]) {
                Err(public_id_failure())
            } else {
                Ok(CommandModel::Delete("/api/v1/sessions/"@ + rest[0]))
            }
        } else if name == "list"@ {
            match listed_path(rest) {
                Err(failure) => Err(failure),
                Ok(path) => Ok(CommandModel::Get(path)),
            }
        } else if name == "open"@ {
            if rest.len() != 1 {
                Err(error::usage("open requires one public session ID or session URL"@))
            } else {
                Ok(CommandModel::Open(rest[0]))
            }
        } else {
            Err(error::usage("unknown command: "@ + name))
        }
    }
}

fn rest_of(arguments: &[String]) -> (rest: Vec<String>)
    requires
        arguments.len() > 0,
    ensures
        text::texts(rest@) == text::texts(arguments@).skip(1),
{
    let mut rest: Vec<String> = Vec::new();
    let mut i: usize = 1;
    while i < arguments.len()
        invariant
            1 <= i <= arguments.len(),
            text::texts(rest@) == text::texts(arguments@).subrange(1, i as int),
        decreases arguments.len() - i,
    {
        let ghost before = rest@;
        rest.push(text::copy_of(arguments[i].as_str()));
        assert(text::texts(rest@) =~= text::texts(before).push(arguments@[i as int]@));
        assert(text::texts(arguments@).subrange(1, i + 1) =~= text::texts(arguments@).subrange(
            1,
            i as int,
        ).push(arguments@[i as int]@));
        i += 1;
    }
    assert(text::texts(arguments@).subrange(1, arguments@.len() as int) =~= text::texts(
        arguments@,
    ).skip(1));
    rest
}

impl Command {
    /// Reads the arguments of the program.
    pub fn parse(arguments: &[String]) -> (result: Result<Self, CliError>)
        ensures
            match (result, named_command(text::texts(arguments@))) {
                (Ok(command), Ok(model)) => command@ == model,
                (Err(failure), Err(model)) => failure@ == model,
                _ => false,
            },
    {
        let ghost texts = text::texts(arguments@);
        assert(texts.len() == arguments@.len());
        if arguments.len() == 0 {
            return Err(CliError::usage("missing command"));
        }
        let name = arguments[0].as_str();
        assert(texts[0] == name@);
        let rest = rest_of(arguments);
        assert(text::texts(rest@).len() == rest@.len());
        if text::same_text(name, "publish") {
            return Ok(Command::Publish(rest));
        }
        if text::same_text(name, "service") {
            return Ok(Command::Service(rest));
        }
        if text::same_text(name, "status") {
            return if rest.len() > 0 {
                Err(CliError::usage("command does not accept arguments"))
            } else {
                Ok(Command::Status)
            };
        }
        if text::same_text(name, "health") {
            return if rest.len() > 0 {
                Err(CliError::usage("command does not accept arguments"))
            } else {
                Ok(Command::Get(text::copy_of("/api/v1/health")))
            };
        }
        if text::same_text(name, "show") {
            if rest.len() != 1 {
                return Err(CliError::usage("show requires one post ID"));
            }
            assert(text::texts(rest@)[0] == rest@[0]@);
            return match positive_integer(rest[0].as_str(), "post ID") {
                Ok(id) => {
                    let digits = number::format_i64(id);
                    Ok(Command::Get(text::joined("/api/v1/posts/", digits.as_str())))
                },
                Err(failure) => Err(failure),
            };
        }
        if text::same_text(name, "close") {
            if rest.len() != 1 {
                return Err(CliError::usage("close requires one public session ID"));
            }
            assert(text::texts(rest@)[0] == rest@[0]@);
            return match session_public_id(rest[0].as_str()) {
                Ok(_) => Ok(
                    Command::Delete(text::joined("/api/v1/sessions/", rest[0].as_str())),
                ),
                Err(failure) => Err(failure),
            };
        }
        if text::same_text(name, "list") {
            return match list_path(&rest) {
                Ok(path) => Ok(Command::Get(path)),
                Err(failure) => Err(failure),
            };
        }
        if text::same_text(name, "open") {
            if rest.len() != 1 {
                return Err(CliError::usage("open requires one public session ID or session URL"));
            }
            assert(text::texts(rest@)[0] == rest@[0]@);
            return Ok(Command::Open(text::copy_of(rest[0].as_str())));
        }
        let message = text::joined("unknown command: ", name);
        Err(CliError::usage(message.as_str()))
    }
}

} // verus!
