//! Preparing a publication: what is checked before anything is sent, file by file.
use vstd::prelude::*;
use vstd::utf8::*;
use crate::api::manifest;
use crate::api::manifest::{ManifestFile, ManifestSupportAsset, PublicationManifest};
use crate::cli::error;
use crate::cli::error::{CliError, CliErrorModel};
use crate::cli::flags::{InputModel, PublicationInput, PublicationSource, SourceModel};
use crate::number;
use crate::path;
use crate::storage::read;
use crate::storage::read::GitProvenance;
use crate::text;

verus! {

// ---- the fields ----

/// A failure of a publication that is not valid.
pub open spec fn validation_failure(message: Seq<char>) -> CliErrorModel {
    error::plain("validation_error"@, message)
}

/// A failure of the file system.
pub open spec fn filesystem_failure(message: Seq<char>) -> CliErrorModel {
    error::plain("filesystem_error"@, message)
}

/// A failure to collect what a file depends on.
pub open spec fn collection_failure(message: Seq<char>) -> CliErrorModel {
    error::plain("asset_collection_error"@, message)
}

fn invalid(message: &str) -> (failure: CliError)
    ensures
        failure@ == validation_failure(message@),
{
    CliError::new("validation_error", message)
}

fn unreadable(message: &str) -> (failure: CliError)
    ensures
        failure@ == filesystem_failure(message@),
{
    CliError::new("filesystem_error", message)
}

fn unreadable_for(message: &str, reason: &str) -> (failure: CliError)
    ensures
        failure@ == filesystem_failure(message@ + reason@),
{
    let whole = text::joined(message, reason);
    unreadable(whole.as_str())
}

/// The first field that is blank.
pub open spec fn blank_field(input: InputModel) -> Option<Seq<char>> {
    if text::is_blank(input.integration_namespace) {
        Some("integration_namespace"@)
    } else if text::is_blank(input.external_key) {
        Some("external_session_key"@)
    } else if text::is_blank(input.project_label) {
        Some("project_label"@)
    } else if text::is_blank(input.title) {
        Some("title"@)
    } else if text::is_blank(input.commentary) {
        Some("commentary"@)
    } else {
        None
    }
}

/// What is wrong with a publication before its files are looked at.
pub open spec fn input_fault(input: InputModel) -> Option<CliErrorModel> {
    match blank_field(input) {
        Some(name) => Some(validation_failure(name + " must not be blank"@)),
        None => if input.files.len() == 0 {
            Some(validation_failure("publication requires at least one file"@))
        } else if input.predecessor_post_id matches Some(id) && id <= 0 {
            Some(validation_failure("predecessor_post_id must be positive"@))
        } else {
            None
        },
    }
}

fn find_blank(input: &PublicationInput) -> (name: Option<&'static str>)
    ensures
        match name {
            Some(value) => blank_field(input@) == Some(value@),
            None => blank_field(input@) is None,
        },
{
    if text::blank(input.integration_namespace.as_str()) {
        Some("integration_namespace")
    } else if text::blank(input.external_key.as_str()) {
        Some("external_session_key")
    } else if text::blank(input.project_label.as_str()) {
        Some("project_label")
    } else if text::blank(input.title.as_str()) {
        Some("title")
    } else if text::blank(input.commentary.as_str()) {
        Some("commentary")
    } else {
        None
    }
}

/// Checks a publication before its files are looked at.
pub fn check_input(input: &PublicationInput) -> (result: Result<(), CliError>)
    ensures
        match result {
            Ok(_) => input_fault(input@) is None,
            Err(failure) => input_fault(input@) == Some(failure@),
        },
{
    if let Some(name) = find_blank(input) {
        let message = text::joined(name, " must not be blank");
        return Err(invalid(message.as_str()));
    }
    assert(input@.files.len() == input.files@.len());
    if input.files.len() == 0 {
        return Err(invalid("publication requires at least one file"));
    }
    if let Some(id) = input.predecessor_post_id {
        if id <= 0 {
            return Err(invalid("predecessor_post_id must be positive"));
        }
    }
    Ok(())
}

// ---- a file ----

/// Whether a file can be published under a name.
pub open spec fn is_publishable_name(name: Seq<char>) -> bool {
    !text::is_blank(name) && !name.contains('/') && !name.contains('\\') && !text::has_control(name)
}

/// The name under which a file is published: the one that is asked for, or the file's own.
pub open spec fn chosen_name(source: SourceModel, canonical: Seq<u8>) -> Seq<char> {
    match source.published_filename {
        Some(name) => name,
        None => match path::byte_name(canonical) {
            Some(own) => if valid_utf8(own) {
                decode_utf8(own)
            } else {
                ""@
            },
            None => ""@,
        },
    }
}

fn choose_name(source: &PublicationSource, canonical: &[u8]) -> (name: String)
    ensures
        name@ == chosen_name(source@, canonical@),
{
    if let Some(name) = &source.published_filename {
        return text::copy_of(name.as_str());
    }
    match path::byte_name_of(canonical) {
        Some(own) => match text::utf8_text(&own) {
            Some(name) => text::copy_of(name),
            None => text::copy_of(""),
        },
        None => text::copy_of(""),
    }
}

/// What is wrong with a file that was opened.
pub open spec fn source_fault(source: SourceModel, name: Seq<char>) -> Option<CliErrorModel> {
    if !is_publishable_name(name) {
        Some(validation_failure("published filename is invalid"@))
    } else if source.media_type matches Some(value) && text::is_blank(value) {
        Some(validation_failure("media_type must not be blank"@))
    } else {
        None
    }
}

fn check_source(source: &PublicationSource, name: &str) -> (result: Result<(), CliError>)
    ensures
        match result {
            Ok(_) => source_fault(source@, name@) is None,
            Err(failure) => source_fault(source@, name@) == Some(failure@),
        },
{
    if text::blank(name) || text::contains_char(name, '/') || text::contains_char(name, '\\')
        || text::contains_control(name) {
        return Err(invalid("published filename is invalid"));
    }
    if let Some(value) = &source.media_type {
        if text::blank(value.as_str()) {
            return Err(invalid("media_type must not be blank"));
        }
    }
    Ok(())
}

/// A file that is ready to be sent, with the paths of what it depends on.
#[derive(Debug, PartialEq, Eq)]
pub struct PreparedFile {
    pub filename: String,
    pub caption: Option<String>,
    pub media_type: Option<String>,
    pub byte_size: u64,
    pub assets: Vec<String>,
}

/// The model of a file that is ready to be sent.
pub struct PreparedModel {
    pub filename: Seq<char>,
    pub caption: Option<Seq<char>>,
    pub media_type: Option<Seq<char>>,
    pub byte_size: u64,
    pub assets: Seq<Seq<char>>,
}

impl View for PreparedFile {
    type V = PreparedModel;

    open spec fn view(&self) -> PreparedModel {
        PreparedModel {
            filename: self.filename@,
            caption: text::optional(self.caption),
            media_type: text::optional(self.media_type),
            byte_size: self.byte_size,
            assets: text::texts(self.assets@),
        }
    }
}

/// The models of prepared files.
pub open spec fn prepared_models(files: Seq<PreparedFile>) -> Seq<PreparedModel> {
    files.map_values(|file: PreparedFile| file@)
}

/// The number of byte parts that the files make.
pub open spec fn total_parts(files: Seq<PreparedModel>) -> nat
    decreases files.len(),
{
    if files.len() == 0 {
        0
    } else {
        total_parts(files.drop_last()) + 1 + files.last().assets.len()
    }
}

// ---- the steps ----

/// What is done next to prepare a publication.
#[derive(Debug, PartialEq, Eq)]
pub enum PrepareStep {
    /// Resolve the working directory.
    ResolveDirectory,
    /// Resolve the path of the next file.
    ResolveSource,
    /// Open the file.
    OpenSource,
    /// Collect what the file depends on.
    CollectAssets,
    /// Ask Git about the working directory.
    CollectGit,
    Ready,
    Failed(CliError),
}

/// The model of a step.
pub enum PrepareModel {
    ResolveDirectory,
    ResolveSource,
    OpenSource,
    CollectAssets,
    CollectGit,
    Ready,
    Failed(CliErrorModel),
}

impl View for PrepareStep {
    type V = PrepareModel;

    open spec fn view(&self) -> PrepareModel {
        match *self {
            PrepareStep::ResolveDirectory => PrepareModel::ResolveDirectory,
            PrepareStep::ResolveSource => PrepareModel::ResolveSource,
            PrepareStep::OpenSource => PrepareModel::OpenSource,
            PrepareStep::CollectAssets => PrepareModel::CollectAssets,
            PrepareStep::CollectGit => PrepareModel::CollectGit,
            PrepareStep::Ready => PrepareModel::Ready,
            PrepareStep::Failed(failure) => PrepareModel::Failed(failure@),
        }
    }
}

/// How a step went.
#[derive(Debug)]
pub enum PrepareAnswer {
    /// The working directory's canonical path, and whether it is a directory; or why it could not
    /// be resolved.
    Directory(Result<(Vec<u8>, bool), String>),
    /// The file's canonical path, or why it could not be resolved.
    Source(Result<Vec<u8>, String>),
    Opened(OpenAnswer),
    /// The paths of what the file depends on, or why they could not be collected.
    Assets(Result<Vec<String>, String>),
    Git(Result<Option<GitProvenance>, CliError>),
}

/// What came of opening a file.
#[derive(Debug, PartialEq, Eq)]
pub enum OpenAnswer {
    /// It could not be opened, for the reason given.
    NotOpened(String),
    /// It was opened but could not be looked at, for the reason given.
    NotInspected(String),
    Opened { regular: bool, byte_size: u64 },
}

/// A publication in preparation.
pub struct Preparation {
    input: PublicationInput,
    directory: Vec<u8>,
    seen: Vec<Vec<u8>>,
    files: Vec<PreparedFile>,
    count: usize,
    name: String,
    byte_size: u64,
    git: Option<GitProvenance>,
    step: PrepareStep,
}

/// The model of a publication in preparation: what was asked for, the canonical working
/// directory, the canonical paths of the files so far, the files that are ready, the name and
/// size of the file at hand, what Git said, and the next step.
pub struct PreparationModel {
    pub input: InputModel,
    pub directory: Seq<u8>,
    pub seen: Seq<Seq<u8>>,
    pub files: Seq<PreparedModel>,
    pub name: Seq<char>,
    pub byte_size: u64,
    pub git: Option<(Seq<char>, Option<Seq<char>>, Option<Seq<char>>)>,
    pub step: PrepareModel,
}

/// The views of a list of byte strings.
pub open spec fn byte_views(list: Seq<Vec<u8>>) -> Seq<Seq<u8>> {
    list.map_values(|bytes: Vec<u8>| bytes@)
}

impl View for Preparation {
    type V = PreparationModel;

    closed spec fn view(&self) -> PreparationModel {
        PreparationModel {
            input: self.input@,
            directory: self.directory@,
            seen: byte_views(self.seen@),
            files: prepared_models(self.files@),
            name: self.name@,
            byte_size: self.byte_size,
            git: read::git_parts(self.git),
            step: self.step@,
        }
    }
}

/// A publication before its first step.
pub open spec fn prepare_start(input: InputModel) -> PreparationModel {
    PreparationModel {
        input,
        directory: Seq::empty(),
        seen: Seq::empty(),
        files: Seq::empty(),
        name: Seq::empty(),
        byte_size: 0,
        git: None,
        step: match input_fault(input) {
            Some(failure) => PrepareModel::Failed(failure),
            None => PrepareModel::ResolveDirectory,
        },
    }
}

/// The publication with a failure.
pub open spec fn failed(state: PreparationModel, failure: CliErrorModel) -> PreparationModel {
    PreparationModel { step: PrepareModel::Failed(failure), ..state }
}

/// The file at hand.
pub open spec fn file_at_hand(state: PreparationModel) -> SourceModel {
    state.input.files[state.files.len() as int]
}

/// The publication with the file at hand ready, and the paths of what it depends on.
pub open spec fn with_file(state: PreparationModel, assets: Seq<Seq<char>>) -> PreparationModel {
    let source = file_at_hand(state);
    if total_parts(state.files) + 1 + assets.len() > manifest::MAX_DECLARED_PARTS {
        failed(state, collection_failure("publication exceeds 256 total byte parts"@))
    } else {
        let files = state.files.push(
            PreparedModel {
                filename: state.name,
                caption: source.caption,
                media_type: source.media_type,
                byte_size: state.byte_size,
                assets,
            },
        );
        PreparationModel {
            files,
            step: if files.len() < state.input.files.len() {
                PrepareModel::ResolveSource
            } else {
                PrepareModel::CollectGit
            },
            ..state
        }
    }
}

/// The publication after the file at hand was opened and found to be a regular file.
pub open spec fn with_opened(state: PreparationModel, byte_size: u64) -> PreparationModel {
    let source = file_at_hand(state);
    let name = chosen_name(source, state.seen.last());
    match source_fault(source, name) {
        Some(failure) => failed(state, failure),
        None => {
            let named = PreparationModel { name, byte_size, ..state };
            if source.collect_assets {
                PreparationModel { step: PrepareModel::CollectAssets, ..named }
            } else {
                with_file(named, Seq::empty())
            }
        },
    }
}

/// The publication after a step; unchanged where the answer is not one to the step.
pub open spec fn prepare_after(state: PreparationModel, answer: PrepareAnswer) -> PreparationModel {
    match (state.step, answer) {
        (PrepareModel::ResolveDirectory, PrepareAnswer::Directory(found)) => match found {
            Err(reason) => failed(
                state,
                filesystem_failure("could not resolve working directory: "@ + reason@),
            ),
            Ok((directory, is_directory)) => if !is_directory {
                failed(state, filesystem_failure("working directory is not a directory"@))
            } else {
                PreparationModel {
                    directory: directory@,
                    step: PrepareModel::ResolveSource,
                    ..state
                }
            },
        },
        (PrepareModel::ResolveSource, PrepareAnswer::Source(found)) => match found {
            Err(reason) => failed(
                state,
                filesystem_failure("could not resolve source file: "@ + reason@),
            ),
            Ok(canonical) => if state.seen.contains(canonical@) {
                failed(state, validation_failure("duplicate source file"@))
            } else {
                PreparationModel {
                    seen: state.seen.push(canonical@),
                    step: PrepareModel::OpenSource,
                    ..state
                }
            },
        },
        (PrepareModel::OpenSource, PrepareAnswer::Opened(opened)) => match opened {
            OpenAnswer::NotOpened(reason) => failed(
                state,
                filesystem_failure("could not open source file: "@ + reason@),
            ),
            OpenAnswer::NotInspected(reason) => failed(
                state,
                filesystem_failure("could not inspect opened source file: "@ + reason@),
            ),
            OpenAnswer::Opened { regular, byte_size } => if !regular {
                failed(state, filesystem_failure("source path is not a regular file"@))
            } else {
                with_opened(state, byte_size)
            },
        },
        (PrepareModel::CollectAssets, PrepareAnswer::Assets(found)) => match found {
            Err(reason) => failed(state, collection_failure(reason@)),
            Ok(assets) => with_file(state, text::texts(assets@)),
        },
        (PrepareModel::CollectGit, PrepareAnswer::Git(found)) => match found {
            Err(failure) => failed(state, failure@),
            Ok(git) => if !valid_utf8(state.directory) {
                failed(
                    state,
                    validation_failure("canonical working directory must be valid UTF-8"@),
                )
            } else {
                PreparationModel { git: read::git_parts(git), step: PrepareModel::Ready, ..state }
            },
        },
        _ => state,
    }
}

fn same_path(list: &[Vec<u8>], wanted: &[u8]) -> (yes: bool)
    ensures
        yes == byte_views(list@).contains(wanted@),
{
    let mut i: usize = 0;
    while i < list.len()
        invariant
            i <= list.len(),
            forall|j: int| 0 <= j < i ==> byte_views(list@)[j] != wanted@,
        decreases list.len() - i,
    {
        assert(byte_views(list@)[i as int] == list@[i as int]@);
        if text::same_bytes(&list[i], wanted) {
            return true;
        }
        i += 1;
    }
    false
}

impl Preparation {
    #[verifier::type_invariant]
    spec fn coherent(self) -> bool {
        &&& self.count == total_parts(prepared_models(self.files@))
        &&& self.count <= manifest::MAX_DECLARED_PARTS
        &&& self.step is ResolveDirectory || self.step is ResolveSource || self.step is OpenSource
            || self.step is CollectAssets ==> self.files@.len() < self.input.files@.len()
        &&& self.step is OpenSource ==> self.seen@.len() > 0
        &&& self.step is Ready ==> valid_utf8(self.directory@)
    }

    /// Starts to prepare a publication.
    pub fn start(input: PublicationInput) -> (preparation: Self)
        ensures
            preparation@ == prepare_start(input@),
    {
        let step = match check_input(&input) {
            Ok(_) => PrepareStep::ResolveDirectory,
            Err(failure) => PrepareStep::Failed(failure),
        };
        let seen: Vec<Vec<u8>> = Vec::new();
        let files: Vec<PreparedFile> = Vec::new();
        let name = text::copy_of("");
        proof {
            assert(byte_views(seen@) =~= Seq::<Seq<u8>>::empty());
            assert(prepared_models(files@) =~= Seq::<PreparedModel>::empty());
            reveal_strlit("");
            assert(name@ =~= Seq::<char>::empty());
            assert(input@.files.len() == input.files@.len());
        }
        Preparation {
            input,
            directory: Vec::new(),
            seen,
            files,
            count: 0,
            name,
            byte_size: 0,
            git: None,
            step,
        }
    }

    /// The next step.
    pub fn step(&self) -> (step: &PrepareStep)
        ensures
            step@ == self@.step,
    {
        &self.step
    }

    /// The path of the working directory that was asked for.
    pub fn working_directory(&self) -> (directory: &str)
        ensures
            directory@ == self@.input.working_directory,
    {
        self.input.working_directory.as_str()
    }

    /// The path of the file at hand, as it was asked for.
    pub fn source_path(&self) -> (location: Option<&str>)
        ensures
            match location {
                Some(value) => self@.files.len() < self@.input.files.len() && value@
                    == file_at_hand(self@).source_path,
                None => self@.files.len() >= self@.input.files.len(),
            },
    {
        if self.files.len() < self.input.files.len() {
            let source = &self.input.files[self.files.len()];
            assert(self@.input.files[self.files@.len() as int] == source@);
            Some(source.source_path.as_str())
        } else {
            None
        }
    }

    fn fail(self, failure: CliError) -> (next: Self)
        ensures
            next@ == failed(self@, failure@),
    {
        proof {
            use_type_invariant(&self);
        }
        let Preparation { input, directory, seen, files, count, name, byte_size, git, .. } = self;
        Preparation {
            input,
            directory,
            seen,
            files,
            count,
            name,
            byte_size,
            git,
            step: PrepareStep::Failed(failure),
        }
    }

    fn add_file(self, assets: Vec<String>) -> (next: Self)
        requires
            self@.files.len() < self@.input.files.len(),
        ensures
            next@ == with_file(self@, text::texts(assets@)),
    {
        proof {
            use_type_invariant(&self);
            assert(self@.input.files.len() == self.input.files@.len());
            assert(text::texts(assets@).len() == assets@.len());
        }
        if assets.len() >= manifest::MAX_DECLARED_PARTS || self.count + 1 + assets.len()
            > manifest::MAX_DECLARED_PARTS {
            return self.fail(
                CliError::new(
                    "asset_collection_error",
                    "publication exceeds 256 total byte parts",
                ),
            );
        }
        let ghost before = self@;
        let Preparation { input, directory, seen, files, count, name, byte_size, git, .. } = self;
        let place: usize = files.len();
        let source = &input.files[place];
        assert(before.input.files[place as int] == source@);
        let caption = read::copy_optional(&source.caption);
        let media_type = read::copy_optional(&source.media_type);
        let ghost earlier = files@;
        let parts: usize = count + 1 + assets.len();
        let filename = text::copy_of(name.as_str());
        let file = PreparedFile { filename, caption, media_type, byte_size, assets };
        let ghost model = file@;
        let mut files = files;
        files.push(file);
        proof {
            assert(prepared_models(files@) =~= prepared_models(earlier).push(model));
            assert(prepared_models(files@).drop_last() =~= prepared_models(earlier));
        }
        let step = if files.len() < input.files.len() {
            PrepareStep::ResolveSource
        } else {
            PrepareStep::CollectGit
        };
        Preparation { input, directory, seen, files, count: parts, name, byte_size, git, step }
    }

    fn opened(self, byte_size: u64) -> (next: Self)
        requires
            self@.step is OpenSource,
        ensures
            next@ == with_opened(self@, byte_size),
    {
        proof {
            use_type_invariant(&self);
            assert(self@.input.files.len() == self.input.files@.len());
        }
        let place: usize = self.files.len();
        let source = &self.input.files[place];
        assert(self@.input.files[place as int] == source@);
        assert(self@.seen.last() == self.seen@.last()@);
        let name = choose_name(source, &self.seen[self.seen.len() - 1]);
        if let Err(failure) = check_source(source, name.as_str()) {
            return self.fail(failure);
        }
        let collects = source.collect_assets;
        let Preparation { input, directory, seen, files, count, git, .. } = self;
        let named = Preparation {
            input,
            directory,
            seen,
            files,
            count,
            name,
            byte_size,
            git,
            step: PrepareStep::CollectAssets,
        };
        if collects {
            named
        } else {
            let none: Vec<String> = Vec::new();
            assert(text::texts(none@) =~= Seq::<Seq<char>>::empty());
            named.add_file(none)
        }
    }

    fn resolved(self, canonical: Vec<u8>) -> (next: Self)
        requires
            self@.step is ResolveSource,
        ensures
            next@ == (if self@.seen.contains(canonical@) {
                failed(self@, validation_failure("duplicate source file"@))
            } else {
                PreparationModel {
                    seen: self@.seen.push(canonical@),
                    step: PrepareModel::OpenSource,
                    ..self@
                }
            }),
    {
        proof {
            use_type_invariant(&self);
        }
        if same_path(&self.seen, &canonical) {
            return self.fail(invalid("duplicate source file"));
        }
        let Preparation { input, directory, seen, files, count, name, byte_size, git, .. } = self;
        let ghost before = seen@;
        let ghost added = canonical@;
        let mut seen = seen;
        seen.push(canonical);
        assert(byte_views(seen@) =~= byte_views(before).push(added));
        Preparation {
            input,
            directory,
            seen,
            files,
            count,
            name,
            byte_size,
            git,
            step: PrepareStep::OpenSource,
        }
    }

    /// The preparation after the answer to its step.
    pub fn advance(self, answer: PrepareAnswer) -> (next: Self)
        ensures
            next@ == prepare_after(self@, answer),
    {
        proof {
            use_type_invariant(&self);
            assert(self@.input.files.len() == self.input.files@.len());
        }
        match (&self.step, answer) {
            (PrepareStep::ResolveDirectory, PrepareAnswer::Directory(found)) => match found {
                Err(reason) => self.fail(
                    unreadable_for("could not resolve working directory: ", reason.as_str()),
                ),
                Ok((found_directory, is_directory)) => {
                    if !is_directory {
                        return self.fail(unreadable("working directory is not a directory"));
                    }
                    let Preparation { input, seen, files, count, name, byte_size, git, .. } = self;
                    Preparation {
                        input,
                        directory: found_directory,
                        seen,
                        files,
                        count,
                        name,
                        byte_size,
                        git,
                        step: PrepareStep::ResolveSource,
                    }
                },
            },
            (PrepareStep::ResolveSource, PrepareAnswer::Source(found)) => match found {
                Err(reason) => self.fail(
                    unreadable_for("could not resolve source file: ", reason.as_str()),
                ),
                Ok(canonical) => self.resolved(canonical),
            },
            (PrepareStep::OpenSource, PrepareAnswer::Opened(opened)) => match opened {
                OpenAnswer::NotOpened(reason) => self.fail(
                    unreadable_for("could not open source file: ", reason.as_str()),
                ),
                OpenAnswer::NotInspected(reason) => self.fail(
                    unreadable_for("could not inspect opened source file: ", reason.as_str()),
                ),
                OpenAnswer::Opened { regular, byte_size } => {
                    if !regular {
                        self.fail(unreadable("source path is not a regular file"))
                    } else {
                        self.opened(byte_size)
                    }
                },
            },
            (PrepareStep::CollectAssets, PrepareAnswer::Assets(found)) => match found {
                Err(reason) => self.fail(
                    CliError::new("asset_collection_error", reason.as_str()),
                ),
                Ok(assets) => self.add_file(assets),
            },
            (PrepareStep::CollectGit, PrepareAnswer::Git(found)) => match found {
                Err(failure) => self.fail(failure),
                Ok(provenance) => {
                    if text::utf8_text(&self.directory).is_none() {
                        return self.fail(
                            invalid("canonical working directory must be valid UTF-8"),
                        );
                    }
                    let Preparation {
                        input,
                        directory,
                        seen,
                        files,
                        count,
                        name,
                        byte_size,
                        ..
                    } = self;
                    Preparation {
                        input,
                        directory,
                        seen,
                        files,
                        count,
                        name,
                        byte_size,
                        git: provenance,
                        step: PrepareStep::Ready,
                    }
                },
            },
            _ => self,
        }
    }
}

// ---- the manifest ----

/// The name of a file's part.
pub open spec fn file_part(i: nat) -> Seq<char> {
    "file-"@ + number::decimal(i)
}

/// The name of the part of what a file depends on.
pub open spec fn asset_part(i: nat, j: nat) -> Seq<char> {
    "asset-"@ + number::decimal(i) + "-"@ + number::decimal(j)
}

/// Whether the assets of a manifest's file are those of the prepared file at `i`.
pub open spec fn describes_assets(
    declared: Seq<ManifestSupportAsset>,
    assets: Seq<Seq<char>>,
    i: int,
) -> bool {
    &&& declared.len() == assets.len()
    &&& forall|j: int|
        0 <= j < declared.len() ==> (#[trigger] declared[j]).part@ == asset_part(
            i as nat,
            j as nat,
        ) && declared[j].relative_path@ == assets[j]
}

/// Whether a manifest's file is the prepared file at `i`.
pub open spec fn describes_file(declared: ManifestFile, file: PreparedModel, i: int) -> bool {
    &&& declared.part@ == file_part(i as nat)
    &&& declared.filename@ == file.filename
    &&& text::optional(declared.caption) == file.caption
    &&& text::optional(declared.media_type) == file.media_type
    &&& describes_assets(declared.support_assets@, file.assets, i)
}

/// Whether a manifest describes a prepared publication.
pub open spec fn describes(declared: PublicationManifest, state: PreparationModel) -> bool {
    &&& declared.integration_namespace@ == state.input.integration_namespace
    &&& declared.external_key@ == state.input.external_key
    &&& declared.project_label@ == state.input.project_label
    &&& declared.working_directory@ == decode_utf8(state.directory)
    &&& declared.title@ == state.input.title
    &&& declared.commentary@ == state.input.commentary
    &&& declared.predecessor_post_id == state.input.predecessor_post_id
    &&& read::git_parts(declared.git) == state.git
    &&& declared.files@.len() == state.files.len()
    &&& forall|i: int|
        0 <= i < declared.files@.len() ==> describes_file(
            #[trigger] declared.files@[i],
            state.files[i],
            i,
        )
}

fn format_part(head: &str, i: usize) -> (name: String)
    ensures
        name@ == head@ + number::decimal(i as nat),
{
    let digits = number::format_u64(i as u64);
    text::joined(head, digits.as_str())
}

fn declare_assets(assets: &[String], i: usize) -> (declared: Vec<ManifestSupportAsset>)
    ensures
        describes_assets(declared@, text::texts(assets@), i as int),
{
    let file = format_part("asset-", i);
    let head = text::joined(file.as_str(), "-");
    let mut declared: Vec<ManifestSupportAsset> = Vec::new();
    let mut j: usize = 0;
    while j < assets.len()
        invariant
            j <= assets.len(),
            head@ == "asset-"@ + number::decimal(i as nat) + "-"@,
            declared@.len() == j,
            forall|k: int|
                0 <= k < j ==> (#[trigger] declared@[k]).part@ == asset_part(i as nat, k as nat)
                    && declared@[k].relative_path@ == text::texts(assets@)[k],
        decreases assets.len() - j,
    {
        let part = format_part(head.as_str(), j);
        let relative_path = text::copy_of(assets[j].as_str());
        assert(text::texts(assets@)[j as int] == relative_path@);
        declared.push(ManifestSupportAsset { part, relative_path });
        j += 1;
    }
    declared
}

fn declare_files(files: &[PreparedFile]) -> (declared: Vec<ManifestFile>)
    ensures
        declared@.len() == files@.len(),
        forall|i: int|
            0 <= i < declared@.len() ==> describes_file(
                #[trigger] declared@[i],
                prepared_models(files@)[i],
                i,
            ),
{
    let mut declared: Vec<ManifestFile> = Vec::new();
    let mut i: usize = 0;
    while i < files.len()
        invariant
            i <= files.len(),
            declared@.len() == i,
            forall|k: int|
                0 <= k < i ==> describes_file(
                    #[trigger] declared@[k],
                    prepared_models(files@)[k],
                    k,
                ),
        decreases files.len() - i,
    {
        let file = &files[i];
        assert(prepared_models(files@)[i as int] == file@);
        let entry = ManifestFile {
            part: format_part("file-", i),
            filename: text::copy_of(file.filename.as_str()),
            caption: read::copy_optional(&file.caption),
            media_type: read::copy_optional(&file.media_type),
            support_assets: declare_assets(&file.assets, i),
        };
        declared.push(entry);
        i += 1;
    }
    declared
}

impl Preparation {
    /// The manifest of a publication that is ready.
    pub fn manifest(&self) -> (result: Option<PublicationManifest>)
        ensures
            match result {
                Some(declared) => self@.step is Ready && describes(declared, self@),
                None => !(self@.step is Ready),
            },
    {
        proof {
            use_type_invariant(self);
        }
        if let PrepareStep::Ready = self.step {
        } else {
            return None;
        }
        let working_directory = match text::utf8_text(&self.directory) {
            Some(directory) => text::copy_of(directory),
            None => {
                return None;
            },
        };
        let files = declare_files(&self.files);
        Some(
            PublicationManifest {
                integration_namespace: text::copy_of(self.input.integration_namespace.as_str()),
                external_key: text::copy_of(self.input.external_key.as_str()),
                project_label: text::copy_of(self.input.project_label.as_str()),
                working_directory,
                title: text::copy_of(self.input.title.as_str()),
                commentary: text::copy_of(self.input.commentary.as_str()),
                predecessor_post_id: self.input.predecessor_post_id,
                git: read::copy_git(&self.git),
                files,
            },
        )
    }

    /// The sizes of the files that are ready, in order.
    pub fn sizes(&self) -> (sizes: Vec<u64>)
        ensures
            sizes@ == self@.files.map_values(|file: PreparedModel| file.byte_size),
    {
        let mut sizes: Vec<u64> = Vec::new();
        let mut i: usize = 0;
        while i < self.files.len()
            invariant
                i <= self.files.len(),
                sizes@.len() == i,
                forall|k: int| 0 <= k < i ==> sizes@[k] == self@.files[k].byte_size,
            decreases self.files.len() - i,
        {
            assert(self@.files[i as int] == self.files@[i as int]@);
            sizes.push(self.files[i].byte_size);
            i += 1;
        }
        assert(sizes@ =~= self@.files.map_values(|file: PreparedModel| file.byte_size));
        sizes
    }
}

/// The failure of a manifest that is too long.
pub open spec fn manifest_failure() -> CliErrorModel {
    error::plain("schema_error"@, "publication manifest exceeds 64 KiB"@)
}

/// Checks the length of a manifest as it is sent, in bytes.
pub fn check_manifest_size(len: usize) -> (result: Result<(), CliError>)
    ensures
        match result {
            Ok(_) => len <= manifest::MAX_MANIFEST_BYTES,
            Err(failure) => len > manifest::MAX_MANIFEST_BYTES && failure@ == manifest_failure(),
        },
{
    if len > manifest::MAX_MANIFEST_BYTES {
        Err(CliError::new("schema_error", "publication manifest exceeds 64 KiB"))
    } else {
        Ok(())
    }
}

} // verus!
