//! The arguments of `publish`, and the publication that they describe.
use vstd::prelude::*;
use vstd::utf8::*;
use crate::cli::arguments;
use crate::cli::error;
use crate::cli::error::{CliError, CliErrorModel};
use crate::number;
use crate::text;

verus! {

/// The most that is read of standard input, in bytes.
pub const MAX_STDIN_BYTES: u64 = 1_048_576;

/// The longest commentary file, in bytes.
pub const MAX_COMMENTARY_BYTES: usize = 65_536;

// ---- what is to be published ----

/// A file to publish.
#[derive(Debug, PartialEq, Eq)]
pub struct PublicationSource {
    pub source_path: String,
    pub published_filename: Option<String>,
    pub caption: Option<String>,
    pub media_type: Option<String>,
    pub collect_assets: bool,
}

/// A publication as it was asked for.
#[derive(Debug, PartialEq, Eq)]
pub struct PublicationInput {
    pub integration_namespace: String,
    pub external_key: String,
    pub project_label: String,
    pub working_directory: String,
    pub title: String,
    pub commentary: String,
    pub predecessor_post_id: Option<i64>,
    pub files: Vec<PublicationSource>,
}

/// The model of a file to publish.
pub struct SourceModel {
    pub source_path: Seq<char>,
    pub published_filename: Option<Seq<char>>,
    pub caption: Option<Seq<char>>,
    pub media_type: Option<Seq<char>>,
    pub collect_assets: bool,
}

/// The model of a publication as it was asked for.
pub struct InputModel {
    pub integration_namespace: Seq<char>,
    pub external_key: Seq<char>,
    pub project_label: Seq<char>,
    pub working_directory: Seq<char>,
    pub title: Seq<char>,
    pub commentary: Seq<char>,
    pub predecessor_post_id: Option<i64>,
    pub files: Seq<SourceModel>,
}

impl View for PublicationSource {
    type V = SourceModel;

    open spec fn view(&self) -> SourceModel {
        SourceModel {
            source_path: self.source_path@,
            published_filename: text::optional(self.published_filename),
            caption: text::optional(self.caption),
            media_type: text::optional(self.media_type),
            collect_assets: self.collect_assets,
        }
    }
}

/// The models of files to publish.
pub open spec fn source_models(files: Seq<PublicationSource>) -> Seq<SourceModel> {
    files.map_values(|file: PublicationSource| file@)
}

impl View for PublicationInput {
    type V = InputModel;

    open spec fn view(&self) -> InputModel {
        InputModel {
            integration_namespace: self.integration_namespace@,
            external_key: self.external_key@,
            project_label: self.project_label@,
            working_directory: self.working_directory@,
            title: self.title@,
            commentary: self.commentary@,
            predecessor_post_id: self.predecessor_post_id,
            files: source_models(self.files@),
        }
    }
}

// ---- a publication in JSON ----

/// Checks how much came on standard input.
pub fn check_stdin_size(len: u64) -> (result: Result<(), CliError>)
    ensures
        match result {
            Ok(_) => len <= MAX_STDIN_BYTES,
            Err(failure) => len > MAX_STDIN_BYTES && failure@ == error::plain(
                "stdin_too_large"@,
                "publication JSON exceeds 1 MiB"@,
            ),
        },
{
    if len > MAX_STDIN_BYTES {
        Err(CliError::new("stdin_too_large", "publication JSON exceeds 1 MiB"))
    } else {
        Ok(())
    }
}

/// Checks the version of a publication in JSON. A version that is not there, or is no number, is
/// left to the reading of the fields.
pub fn check_schema_version(version: Option<u64>) -> (result: Result<(), CliError>)
    ensures
        match result {
            Ok(_) => version matches Some(number) ==> number == error::CLI_SCHEMA_VERSION,
            Err(failure) => version matches Some(number) && number != error::CLI_SCHEMA_VERSION
                && failure@ == error::plain(
                "unsupported_schema_version"@,
                "unsupported publication schema version: "@ + number::decimal(number as nat),
            ),
        },
{
    match version {
        Some(value) => {
            if value != error::CLI_SCHEMA_VERSION as u64 {
                let digits = number::format_u64(value);
                let message = text::joined(
                    "unsupported publication schema version: ",
                    digits.as_str(),
                );
                Err(CliError::new("unsupported_schema_version", message.as_str()))
            } else {
                Ok(())
            }
        },
        None => Ok(()),
    }
}

// ---- a publication in flags ----

/// An option of `publish` and its value.
#[derive(Debug, PartialEq, Eq)]
pub struct FlagValue {
    pub flag: String,
    pub value: String,
}

/// The models of options and values.
pub open spec fn flag_models(values: Seq<FlagValue>) -> Seq<(Seq<char>, Seq<char>)> {
    values.map_values(|value: FlagValue| (value.flag@, value.value@))
}

/// Whether a text is an option of `publish` that takes a value.
pub open spec fn is_publish_flag(flag: Seq<char>) -> bool {
    flag == "--file"@ || flag == "--integration"@ || flag == "--external-key"@ || flag
        == "--project"@ || flag == "--working-directory"@ || flag == "--title"@ || flag
        == "--commentary"@ || flag == "--commentary-file"@ || flag == "--filename"@ || flag
        == "--caption"@ || flag == "--media-type"@ || flag == "--predecessor"@
}

fn publish_flag(flag: &str) -> (yes: bool)
    ensures
        yes == is_publish_flag(flag@),
{
    text::same_text(flag, "--file") || text::same_text(flag, "--integration") || text::same_text(
        flag,
        "--external-key",
    ) || text::same_text(flag, "--project") || text::same_text(flag, "--working-directory")
        || text::same_text(flag, "--title") || text::same_text(flag, "--commentary")
        || text::same_text(flag, "--commentary-file") || text::same_text(flag, "--filename")
        || text::same_text(flag, "--caption") || text::same_text(flag, "--media-type")
        || text::same_text(flag, "--predecessor")
}

/// The value of an option among those from `i` on.
pub open spec fn flag_value_from(
    values: Seq<(Seq<char>, Seq<char>)>,
    flag: Seq<char>,
    i: int,
) -> Option<Seq<char>>
    decreases values.len() - i,
{
    if i < 0 || i >= values.len() {
        None
    } else if values[i].0 == flag {
        Some(values[i].1)
    } else {
        flag_value_from(values, flag, i + 1)
    }
}

/// The value of an option, where it is set.
pub open spec fn flag_value(values: Seq<(Seq<char>, Seq<char>)>, flag: Seq<char>) -> Option<
    Seq<char>,
> {
    flag_value_from(values, flag, 0)
}

fn value_of(values: &[FlagValue], flag: &str) -> (value: Option<String>)
    ensures
        text::optional(value) == flag_value(flag_models(values@), flag@),
{
    let mut i: usize = 0;
    while i < values.len()
        invariant
            i <= values.len(),
            flag_value(flag_models(values@), flag@) == flag_value_from(
                flag_models(values@),
                flag@,
                i as int,
            ),
        decreases values.len() - i,
    {
        assert(flag_models(values@)[i as int] == (
            values@[i as int].flag@,
            values@[i as int].value@,
        ));
        if text::same_text(values[i].flag.as_str(), flag) {
            return Some(text::copy_of(values[i].value.as_str()));
        }
        i += 1;
    }
    None
}

/// What the arguments of `publish` from `i` on add to the options, or the first failure.
/// `--open` takes no value and sets nothing here.
pub open spec fn flags_from(
    given: Seq<Seq<char>>,
    i: int,
    values: Seq<(Seq<char>, Seq<char>)>,
) -> Result<Seq<(Seq<char>, Seq<char>)>, CliErrorModel>
    decreases given.len() - i,
{
    if i < 0 || i >= given.len() {
        Ok(values)
    } else if given[i] == "--open"@ {
        flags_from(given, i + 1, values)
    } else if !is_publish_flag(given[i]) {
        Err(error::usage("unknown publish option: "@ + given[i]))
    } else if i + 1 >= given.len() {
        Err(arguments::valueless(given[i]))
    } else if flag_value(values, given[i]) is Some {
        Err(error::usage("duplicate option: "@ + given[i]))
    } else {
        flags_from(given, i + 2, values.push((given[i], given[i + 1])))
    }
}

/// The options that the arguments of `publish` set: each once, and one kind of commentary at
/// most.
pub open spec fn publish_flags(given: Seq<Seq<char>>) -> Result<
    Seq<(Seq<char>, Seq<char>)>,
    CliErrorModel,
> {
    match flags_from(given, 0, Seq::empty()) {
        Err(failure) => Err(failure),
        Ok(values) => if flag_value(values, "--commentary"@) is Some && flag_value(
            values,
            "--commentary-file"@,
        ) is Some {
            Err(error::usage("use either --commentary or --commentary-file"@))
        } else {
            Ok(values)
        },
    }
}

/// Reads the options that the arguments of `publish` set.
pub fn parse_flags(given: &[String]) -> (result: Result<Vec<FlagValue>, CliError>)
    ensures
        match (result, publish_flags(text::texts(given@))) {
            (Ok(values), Ok(model)) => flag_models(values@) == model,
            (Err(failure), Err(model)) => failure@ == model,
            _ => false,
        },
{
    let ghost texts = text::texts(given@);
    let ghost whole = flags_from(texts, 0, Seq::empty());
    let mut values: Vec<FlagValue> = Vec::new();
    assert(flag_models(values@) =~= Seq::<(Seq<char>, Seq<char>)>::empty());
    let total: usize = given.len();
    let mut i: usize = 0;
    while i < total
        invariant
            i <= total,
            total == given.len(),
            texts == text::texts(given@),
            whole == flags_from(texts, 0, Seq::empty()),
            whole == flags_from(texts, i as int, flag_models(values@)),
        decreases total - i,
    {
        let flag = given[i].as_str();
        assert(texts[i as int] == flag@);
        if text::same_text(flag, "--open") {
            i += 1;
            continue;
        }
        if !publish_flag(flag) {
            let message = text::joined("unknown publish option: ", flag);
            return Err(CliError::usage(message.as_str()));
        }
        if total - i < 2 {
            let message = text::joined(flag, " requires a value");
            return Err(CliError::usage(message.as_str()));
        }
        let value = given[i + 1].as_str();
        assert(texts[i + 1] == value@);
        if value_of(&values, flag).is_some() {
            let message = text::joined("duplicate option: ", flag);
            return Err(CliError::usage(message.as_str()));
        }
        let ghost before = flag_models(values@);
        values.push(FlagValue { flag: text::copy_of(flag), value: text::copy_of(value) });
        assert(flag_models(values@) =~= before.push((flag@, value@)));
        i += 2;
    }
    if value_of(&values, "--commentary").is_some() && value_of(
        &values,
        "--commentary-file",
    ).is_some() {
        return Err(CliError::usage("use either --commentary or --commentary-file"));
    }
    Ok(values)
}

/// The value of an option that must be set.
pub open spec fn required_value(values: Seq<(Seq<char>, Seq<char>)>, flag: Seq<char>) -> Result<
    Seq<char>,
    CliErrorModel,
> {
    match flag_value(values, flag) {
        Some(value) => Ok(value),
        None => Err(error::usage("missing required option: "@ + flag)),
    }
}

fn required(values: &[FlagValue], flag: &str) -> (result: Result<String, CliError>)
    ensures
        match (result, required_value(flag_models(values@), flag@)) {
            (Ok(value), Ok(model)) => value@ == model,
            (Err(failure), Err(model)) => failure@ == model,
            _ => false,
        },
{
    match value_of(values, flag) {
        Some(value) => Ok(value),
        None => {
            let message = text::joined("missing required option: ", flag);
            Err(CliError::usage(message.as_str()))
        },
    }
}

/// Where the commentary comes from.
#[derive(Debug, PartialEq, Eq)]
pub enum CommentarySource {
    Text(String),
    File(String),
}

/// Where the commentary comes from: the option's value, or the file that the other option names.
pub fn commentary_source(values: &[FlagValue]) -> (result: Result<CommentarySource, CliError>)
    ensures
        match result {
            Ok(CommentarySource::Text(value)) => flag_value(
                flag_models(values@),
                "--commentary"@,
            ) == Some(value@),
            Ok(CommentarySource::File(path)) => flag_value(
                flag_models(values@),
                "--commentary"@,
            ) is None && flag_value(flag_models(values@), "--commentary-file"@) == Some(path@),
            Err(failure) => flag_value(flag_models(values@), "--commentary"@) is None
                && flag_value(flag_models(values@), "--commentary-file"@) is None && failure@
                == error::usage("missing required option: --commentary-file"@),
        },
{
    match value_of(values, "--commentary") {
        Some(value) => Ok(CommentarySource::Text(value)),
        None => match required(values, "--commentary-file") {
            Ok(path) => Ok(CommentarySource::File(path)),
            Err(failure) => {
                proof {
                    reveal_strlit("missing required option: ");
                    reveal_strlit("--commentary-file");
                    reveal_strlit("missing required option: --commentary-file");
                    assert("missing required option: "@ + "--commentary-file"@
                        =~= "missing required option: --commentary-file"@);
                }
                Err(failure)
            },
        },
    }
}

/// The commentary that a file holds: text of 64 KiB at most.
pub fn accept_commentary(bytes: &[u8]) -> (result: Result<String, CliError>)
    ensures
        match result {
            Ok(commentary) => bytes@.len() <= MAX_COMMENTARY_BYTES && valid_utf8(bytes@)
                && commentary@ == decode_utf8(bytes@),
            Err(failure) => if bytes@.len() > MAX_COMMENTARY_BYTES {
                failure@ == error::plain("validation_error"@, "commentary file exceeds 64 KiB"@)
            } else {
                !valid_utf8(bytes@) && failure@ == error::plain(
                    "validation_error"@,
                    "commentary file must be UTF-8"@,
                )
            },
        },
{
    if bytes.len() > MAX_COMMENTARY_BYTES {
        return Err(CliError::new("validation_error", "commentary file exceeds 64 KiB"));
    }
    match text::utf8_text(bytes) {
        Some(commentary) => Ok(text::copy_of(commentary)),
        None => Err(CliError::new("validation_error", "commentary file must be UTF-8")),
    }
}

/// The predecessor that the options name.
pub open spec fn flag_predecessor(values: Seq<(Seq<char>, Seq<char>)>) -> Result<
    Option<int>,
    CliErrorModel,
> {
    match flag_value(values, "--predecessor"@) {
        None => Ok(None),
        Some(value) => match arguments::positive_value(value, "predecessor post ID"@) {
            Err(failure) => Err(failure),
            Ok(id) => Ok(Some(id)),
        },
    }
}

/// The first of the required options that is not set.
pub open spec fn missing_flag(values: Seq<(Seq<char>, Seq<char>)>) -> Option<Seq<char>> {
    if flag_value(values, "--integration"@) is None {
        Some("--integration"@)
    } else if flag_value(values, "--external-key"@) is None {
        Some("--external-key"@)
    } else if flag_value(values, "--project"@) is None {
        Some("--project"@)
    } else if flag_value(values, "--working-directory"@) is None {
        Some("--working-directory"@)
    } else if flag_value(values, "--title"@) is None {
        Some("--title"@)
    } else if flag_value(values, "--file"@) is None {
        Some("--file"@)
    } else {
        None
    }
}

/// The publication of one file that the options and the commentary describe.
pub open spec fn described_publication(
    values: Seq<(Seq<char>, Seq<char>)>,
    commentary: Seq<char>,
) -> Result<InputModel, CliErrorModel> {
    match flag_predecessor(values) {
        Err(failure) => Err(failure),
        Ok(predecessor) => match missing_flag(values) {
            Some(flag) => Err(error::usage("missing required option: "@ + flag)),
            None => Ok(
                InputModel {
                    integration_namespace: flag_value(values, "--integration"@)->0,
                    external_key: flag_value(values, "--external-key"@)->0,
                    project_label: flag_value(values, "--project"@)->0,
                    working_directory: flag_value(values, "--working-directory"@)->0,
                    title: flag_value(values, "--title"@)->0,
                    commentary,
                    predecessor_post_id: match predecessor {
                        Some(id) => Some(id as i64),
                        None => None,
                    },
                    files: seq![
                        SourceModel {
                            source_path: flag_value(values, "--file"@)->0,
                            published_filename: flag_value(values, "--filename"@),
                            caption: flag_value(values, "--caption"@),
                            media_type: flag_value(values, "--media-type"@),
                            collect_assets: true,
                        },
                    ],
                },
            ),
        },
    }
}

/// The publication of one file that the options and the commentary describe.
pub fn flag_publication(values: &[FlagValue], commentary: String) -> (result: Result<
    PublicationInput,
    CliError,
>)
    ensures
        match (result, described_publication(flag_models(values@), commentary@)) {
            (Ok(input), Ok(model)) => input@ == model,
            (Err(failure), Err(model)) => failure@ == model,
            _ => false,
        },
{
    let predecessor_post_id = match value_of(values, "--predecessor") {
        None => None,
        Some(value) => match arguments::positive_integer(value.as_str(), "predecessor post ID") {
            Ok(id) => Some(id),
            Err(failure) => {
                return Err(failure);
            },
        },
    };
    let integration_namespace = match required(values, "--integration") {
        Ok(value) => value,
        Err(failure) => {
            return Err(failure);
        },
    };
    let external_key = match required(values, "--external-key") {
        Ok(value) => value,
        Err(failure) => {
            return Err(failure);
        },
    };
    let project_label = match required(values, "--project") {
        Ok(value) => value,
        Err(failure) => {
            return Err(failure);
        },
    };
    let working_directory = match required(values, "--working-directory") {
        Ok(value) => value,
        Err(failure) => {
            return Err(failure);
        },
    };
    let title = match required(values, "--title") {
        Ok(value) => value,
        Err(failure) => {
            return Err(failure);
        },
    };
    let source_path = match required(values, "--file") {
        Ok(value) => value,
        Err(failure) => {
            return Err(failure);
        },
    };
    let source = PublicationSource {
        source_path,
        published_filename: value_of(values, "--filename"),
        caption: value_of(values, "--caption"),
        media_type: value_of(values, "--media-type"),
        collect_assets: true,
    };
    let ghost model = source@;
    let mut files: Vec<PublicationSource> = Vec::new();
    files.push(source);
    assert(source_models(files@) =~= seq![model]);
    Ok(
        PublicationInput {
            integration_namespace,
            external_key,
            project_label,
            working_directory,
            title,
            commentary,
            predecessor_post_id,
            files,
        },
    )
}

// ---- the arguments of publish ----

/// How a publication is described.
#[derive(Debug, PartialEq, Eq)]
pub enum PublishSource {
    /// By JSON on standard input.
    Json,
    /// By these options.
    Flags(Vec<FlagValue>),
}

/// What the arguments of `publish` ask for.
#[derive(Debug, PartialEq, Eq)]
pub struct PublishArguments {
    pub open: bool,
    pub source: PublishSource,
}

/// How a publication is described: the options, or none where it comes as JSON.
pub open spec fn publish_source(given: Seq<Seq<char>>) -> Result<
    Option<Seq<(Seq<char>, Seq<char>)>>,
    CliErrorModel,
> {
    if given.len() > 0 && given[0] == "--json"@ {
        if forall|i: int| 1 <= i < given.len() ==> #[trigger] given[i] == "--open"@ {
            Ok(None)
        } else {
            Err(error::usage("publish --json accepts only --open"@))
        }
    } else {
        match publish_flags(given) {
            Err(failure) => Err(failure),
            Ok(values) => Ok(Some(values)),
        }
    }
}

/// Reads the arguments of `publish`.
pub fn parse_publish(given: &[String]) -> (result: Result<PublishArguments, CliError>)
    ensures
        match (result, publish_source(text::texts(given@))) {
            (Ok(publish), Ok(model)) => publish.open == text::texts(given@).contains("--open"@)
                && match (publish.source, model) {
                (PublishSource::Json, None) => true,
                (PublishSource::Flags(values), Some(flags)) => flag_models(values@) == flags,
                _ => false,
            },
            (Err(failure), Err(model)) => failure@ == model,
            _ => false,
        },
{
    let ghost texts = text::texts(given@);
    assert(texts.len() == given@.len());
    let open = text::contains_text(given, "--open");
    let json = given.len() > 0 && text::same_text(given[0].as_str(), "--json");
    assert(given@.len() > 0 ==> texts[0] == given@[0]@);
    if !json {
        return match parse_flags(given) {
            Ok(values) => Ok(PublishArguments { open, source: PublishSource::Flags(values) }),
            Err(failure) => Err(failure),
        };
    }
    let mut i: usize = 1;
    while i < given.len()
        invariant
            1 <= i <= given.len(),
            texts == text::texts(given@),
            texts[0] == "--json"@,
            forall|j: int| 1 <= j < i ==> #[trigger] texts[j] == "--open"@,
        decreases given.len() - i,
    {
        assert(texts[i as int] == given@[i as int]@);
        if !text::same_text(given[i].as_str(), "--open") {
            return Err(CliError::usage("publish --json accepts only --open"));
        }
        i += 1;
    }
    Ok(PublishArguments { open, source: PublishSource::Json })
}

/// Whether every option is set once.
pub open spec fn set_once(values: Seq<(Seq<char>, Seq<char>)>) -> bool {
    forall|i: int, j: int|
        0 <= i < j < values.len() ==> (#[trigger] values[i]).0 != (#[trigger] values[j]).0
}

proof fn lemma_unset(values: Seq<(Seq<char>, Seq<char>)>, flag: Seq<char>, i: int)
    requires
        0 <= i <= values.len(),
        flag_value_from(values, flag, i) is None,
    ensures
        forall|k: int| i <= k < values.len() ==> (#[trigger] values[k]).0 != flag,
    decreases values.len() - i,
{
    if i < values.len() {
        lemma_unset(values, flag, i + 1);
    }
}

proof fn lemma_flags_set_once(
    given: Seq<Seq<char>>,
    i: int,
    values: Seq<(Seq<char>, Seq<char>)>,
)
    requires
        set_once(values),
    ensures
        flags_from(given, i, values) matches Ok(found) ==> set_once(found),
    decreases given.len() - i,
{
    if 0 <= i < given.len() {
        if given[i] == "--open"@ {
            lemma_flags_set_once(given, i + 1, values);
        } else if is_publish_flag(given[i]) && i + 1 < given.len() && flag_value(
            values,
            given[i],
        ) is None {
            lemma_unset(values, given[i], 0);
            lemma_flags_set_once(given, i + 2, values.push((given[i], given[i + 1])));
        }
    }
}

/// Arguments that are accepted set every option once at most, and one kind of commentary at most.
pub proof fn law_flags_are_set_once(given: Seq<Seq<char>>)
    requires
        publish_flags(given) is Ok,
    ensures
        set_once(publish_flags(given)->Ok_0),
        flag_value(publish_flags(given)->Ok_0, "--commentary"@) is None || flag_value(
            publish_flags(given)->Ok_0,
            "--commentary-file"@,
        ) is None,
{
    lemma_flags_set_once(given, 0, Seq::empty());
}

} // verus!
