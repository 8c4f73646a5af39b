//! Collecting the files that a document depends on.
use vstd::prelude::*;
use vstd::utf8::*;
use crate::bytes;
use crate::cli::assets::css;
use crate::cli::assets::css::CssToken;
use crate::cli::assets::html;
use crate::cli::assets::markdown;
use crate::cli::assets::reference;
use crate::path;
use crate::text;

verus! {

/// How deep CSS may import CSS.
pub const MAX_CSS_RECURSION_DEPTH: usize = 8;

/// The most files that a document may depend on.
pub const MAX_SUPPORT_ASSETS: usize = 255;

// ---- the document ----

/// What kind of document an entry is.
#[derive(Debug, Clone, Copy, PartialEq, Eq, Structural)]
pub enum EntryKind {
    Markdown,
    Html,
    /// Nothing is collected for it.
    Other,
}

/// The kind of a document with this extension.
pub open spec fn kind_of_extension(extension: Option<Seq<u8>>) -> EntryKind {
    match extension {
        Some(bytes) => if !valid_utf8(bytes) {
            EntryKind::Other
        } else {
            let name = text::lowercase(decode_utf8(bytes));
            if name == "md"@ || name == "markdown"@ {
                EntryKind::Markdown
            } else if name == "html"@ || name == "htm"@ {
                EntryKind::Html
            } else {
                EntryKind::Other
            }
        },
        None => EntryKind::Other,
    }
}

/// The kind of the document at a path.
pub fn entry_kind(location: &[u8]) -> (kind: EntryKind)
    ensures
        kind == kind_of_extension(path::byte_extension(location@)),
{
    let extension = match path::byte_extension_of(location) {
        Some(extension) => extension,
        None => {
            return EntryKind::Other;
        },
    };
    let name = match text::utf8_text(&extension) {
        Some(name) => text::to_lowercase(name),
        None => {
            return EntryKind::Other;
        },
    };
    if text::same_text(name.as_str(), "md") || text::same_text(name.as_str(), "markdown") {
        EntryKind::Markdown
    } else if text::same_text(name.as_str(), "html") || text::same_text(name.as_str(), "htm") {
        EntryKind::Html
    } else {
        EntryKind::Other
    }
}

/// The references of a document.
pub open spec fn document_references(kind: EntryKind, source: Seq<char>) -> Result<
    Seq<Seq<char>>,
    Seq<char>,
> {
    match kind {
        EntryKind::Markdown => markdown::references_from(
            markdown::items_of(markdown::markdown_events(source)),
            0,
            Seq::empty(),
        ),
        EntryKind::Html => html::document_references(html::html_elements(source)),
        EntryKind::Other => Ok(Seq::empty()),
    }
}

/// The references of a document.
pub fn entry_references(kind: EntryKind, source: &str) -> (result: Result<Vec<String>, String>)
    ensures
        match (result, document_references(kind, source@)) {
            (Ok(references), Ok(model)) => text::texts(references@) == model,
            (Err(message), Err(model)) => message@ == model,
            _ => false,
        },
{
    match kind {
        EntryKind::Markdown => markdown::markdown_references(source),
        EntryKind::Html => html::html_references(source),
        EntryKind::Other => {
            let none: Vec<String> = Vec::new();
            assert(text::texts(none@) =~= Seq::<Seq<char>>::empty());
            Ok(none)
        },
    }
}

// ---- what can be collected ----

/// Whether a file with this extension can be collected.
pub open spec fn is_supported_extension(name: Seq<char>) -> bool {
    name == "css"@ || name == "js"@ || name == "mjs"@ || name == "json"@ || name == "wasm"@ || name
        == "png"@ || name == "jpg"@ || name == "jpeg"@ || name == "gif"@ || name == "webp"@ || name
        == "avif"@ || name == "ico"@ || name == "svg"@ || name == "mp3"@ || name == "wav"@ || name
        == "ogg"@ || name == "m4a"@ || name == "mp4"@ || name == "webm"@ || name == "woff"@ || name
        == "woff2"@ || name == "ttf"@ || name == "otf"@
}

fn supported_extension(name: &str) -> (yes: bool)
    ensures
        yes == is_supported_extension(name@),
{
    text::same_text(name, "css") || text::same_text(name, "js") || text::same_text(name, "mjs")
        || text::same_text(name, "json") || text::same_text(name, "wasm") || text::same_text(
        name,
        "png",
    ) || text::same_text(name, "jpg") || text::same_text(name, "jpeg") || text::same_text(
        name,
        "gif",
    ) || text::same_text(name, "webp") || text::same_text(name, "avif") || text::same_text(
        name,
        "ico",
    ) || text::same_text(name, "svg") || text::same_text(name, "mp3") || text::same_text(
        name,
        "wav",
    ) || text::same_text(name, "ogg") || text::same_text(name, "m4a") || text::same_text(
        name,
        "mp4",
    ) || text::same_text(name, "webm") || text::same_text(name, "woff") || text::same_text(
        name,
        "woff2",
    ) || text::same_text(name, "ttf") || text::same_text(name, "otf")
}

/// Whether the file at a support path can be collected.
pub open spec fn is_supported(location: Seq<char>) -> bool {
    path::extension(location) matches Some(extension) && is_supported_extension(
        text::lowercase(extension),
    )
}

/// The failure of a file that cannot be collected.
pub open spec fn unsupported(location: Seq<char>) -> Seq<char> {
    "unsupported local dependency type: "@ + location
}

/// Checks that the file at a support path can be collected.
pub fn ensure_supported_dependency(location: &str) -> (result: Result<(), String>)
    ensures
        match result {
            Ok(_) => is_supported(location@),
            Err(message) => !is_supported(location@) && message@ == unsupported(location@),
        },
{
    let supported = match path::lowercase_extension(location) {
        Some(extension) => supported_extension(extension.as_str()),
        None => false,
    };
    if supported {
        Ok(())
    } else {
        Err(text::joined("unsupported local dependency type: ", location))
    }
}

/// Whether the file at a support path is CSS.
pub open spec fn is_css(location: Seq<char>) -> bool {
    path::extension(location) matches Some(extension) && text::lowercase(extension) == "css"@
}

fn names_css(location: &str) -> (yes: bool)
    ensures
        yes == is_css(location@),
{
    match path::lowercase_extension(location) {
        Some(extension) => text::same_text(extension.as_str(), "css"),
        None => false,
    }
}

/// Whether one canonical path is another or stands below it.
pub open spec fn is_within(root: Seq<u8>, canonical: Seq<u8>) -> bool {
    canonical == root || bytes::has_prefix(
        canonical,
        if root.len() > 0 && root.last() == 0x2f {
            root
        } else {
            root.push(0x2f)
        },
    )
}

fn within(root: &[u8], canonical: &[u8]) -> (yes: bool)
    ensures
        yes == is_within(root@, canonical@),
{
    if text::same_bytes(canonical, root) {
        return true;
    }
    let mut start = text::copy_bytes(root);
    if root.len() == 0 || root[root.len() - 1] != 0x2f {
        start.push(0x2f);
    }
    bytes::starts_with(canonical, &start)
}

/// The position of the last separator.
pub open spec fn last_separator(location: Seq<char>) -> Option<int>
    decreases location.len(),
{
    if location.len() == 0 {
        None
    } else if location.last() == '/' {
        Some(location.len() - 1)
    } else {
        last_separator(location.drop_last())
    }
}

/// The directory of a support path; empty where the path is a name.
pub open spec fn directory_of(location: Seq<char>) -> Seq<char> {
    match last_separator(location) {
        Some(at) => location.take(at),
        None => Seq::empty(),
    }
}

fn parent(location: &str) -> (directory: String)
    ensures
        directory@ == directory_of(location@),
{
    let chars = text::chars_of(location);
    let mut i: usize = chars.len();
    assert(location@.take(i as int) =~= location@);
    while i > 0 && chars[i - 1] != '/'
        invariant
            i <= chars.len(),
            chars@ == location@,
            last_separator(location@) == last_separator(location@.take(i as int)),
        decreases i,
    {
        assert(location@.take(i as int).drop_last() =~= location@.take(i - 1));
        i -= 1;
    }
    if i == 0 {
        return String::new();
    }
    let rest = vstd::slice::slice_subrange(chars.as_slice(), 0, i - 1);
    assert(rest@ =~= location@.take(i - 1));
    text::string_of(rest)
}

// ---- the steps ----

/// A reference that is still to be followed, in a document of the directory, so deep in CSS.
#[derive(Debug, PartialEq, Eq)]
pub struct PendingReference {
    pub reference: String,
    pub base: String,
    pub depth: usize,
}

/// The model of a reference that is still to be followed.
pub struct PendingModel {
    pub reference: Seq<char>,
    pub base: Seq<char>,
    pub depth: usize,
}

impl View for PendingReference {
    type V = PendingModel;

    open spec fn view(&self) -> PendingModel {
        PendingModel { reference: self.reference@, base: self.base@, depth: self.depth }
    }
}

/// The models of references that are still to be followed.
pub open spec fn pending_models(pending: Seq<PendingReference>) -> Seq<PendingModel> {
    pending.map_values(|item: PendingReference| item@)
}

/// What is done next.
#[derive(Debug, PartialEq, Eq)]
pub enum CollectStep {
    /// Resolve the support path below the document's directory.
    Resolve(String),
    /// Open the file.
    Open(String),
    /// Read the file as CSS.
    ReadCss(String),
    Done,
    Failed(String),
}

/// The model of a step.
pub enum StepModel {
    Resolve(Seq<char>),
    Open(Seq<char>),
    ReadCss(Seq<char>),
    Done,
    Failed(Seq<char>),
}

impl View for CollectStep {
    type V = StepModel;

    open spec fn view(&self) -> StepModel {
        match *self {
            CollectStep::Resolve(location) => StepModel::Resolve(location@),
            CollectStep::Open(location) => StepModel::Open(location@),
            CollectStep::ReadCss(location) => StepModel::ReadCss(location@),
            CollectStep::Done => StepModel::Done,
            CollectStep::Failed(message) => StepModel::Failed(message@),
        }
    }
}

/// What came of opening a file.
#[derive(Debug, PartialEq, Eq)]
pub enum AssetState {
    /// It could not be looked at, for the reason given.
    NotInspected(String),
    NotRegular,
    /// It could not be opened, for the reason given.
    NotOpened(String),
    /// It was opened but could not be looked at, for the reason given.
    NotReinspected(String),
    /// It was no regular file once it was open.
    Changed,
    Opened,
}

/// How a step went.
#[derive(Debug, PartialEq, Eq)]
pub enum CollectAnswer {
    /// The file's canonical path, or why it could not be resolved.
    Resolved(Result<Vec<u8>, String>),
    Opened(AssetState),
    /// The file's tokens, or why it could not be read as text.
    Css(Result<Vec<CssToken>, String>),
}

/// A collection under way: the document's canonical directory, the references that are still to
/// be followed, the last of them next, the support paths that were seen, those of the files that
/// were collected, how many references were followed, how deep in CSS the one at hand is, and the
/// next step.
pub struct CollectionModel {
    pub root: Seq<u8>,
    pub pending: Seq<PendingModel>,
    pub seen: Seq<Seq<char>>,
    pub assets: Seq<Seq<char>>,
    pub followed: nat,
    pub depth: usize,
    pub step: StepModel,
}

/// The collection with a failure.
pub open spec fn failed(state: CollectionModel, message: Seq<char>) -> CollectionModel {
    CollectionModel { step: StepModel::Failed(message), ..state }
}

/// The collection up to the next reference that needs a file, or its end: what is not local or
/// was seen is passed over.
pub open spec fn settled(state: CollectionModel) -> CollectionModel
    decreases state.pending.len(),
{
    if state.pending.len() == 0 {
        CollectionModel { step: StepModel::Done, ..state }
    } else {
        let item = state.pending.last();
        let taken = CollectionModel {
            pending: state.pending.drop_last(),
            followed: state.followed + 1,
            depth: item.depth,
            ..state
        };
        if taken.followed > html::MAX_REFERENCES {
            failed(taken, html::too_many())
        } else {
            match reference::normalized(item.reference, item.base) {
                Err(message) => failed(taken, message),
                Ok(None) => settled(taken),
                Ok(Some(location)) => if taken.seen.contains(location) {
                    settled(taken)
                } else {
                    let noted = CollectionModel { seen: taken.seen.push(location), ..taken };
                    if noted.assets.len() >= MAX_SUPPORT_ASSETS {
                        failed(noted, "entry document declares too many support assets"@)
                    } else if !is_supported(location) {
                        failed(noted, unsupported(location))
                    } else {
                        CollectionModel { step: StepModel::Resolve(location), ..noted }
                    }
                },
            }
        }
    }
}

/// References as they are put behind those that are still to be followed: the first comes last,
/// so that it is next.
pub open spec fn stacked(references: Seq<Seq<char>>, base: Seq<char>, depth: usize) -> Seq<
    PendingModel,
> {
    Seq::new(
        references.len(),
        |i: int| PendingModel { reference: references[references.len() - 1 - i], base, depth },
    )
}

/// A collection before its first step.
pub open spec fn collection_start(root: Seq<u8>, references: Seq<Seq<char>>) -> CollectionModel {
    settled(
        CollectionModel {
            root,
            pending: stacked(references, Seq::empty(), 0),
            seen: Seq::empty(),
            assets: Seq::empty(),
            followed: 0,
            depth: 0,
            step: StepModel::Done,
        },
    )
}

/// What went wrong with a file that was to be opened.
pub open spec fn open_fault(location: Seq<char>, state: AssetState) -> Option<Seq<char>> {
    match state {
        AssetState::NotInspected(reason) => Some(
            "could not inspect support asset "@ + location + ": "@ + reason@,
        ),
        AssetState::NotRegular => Some("support asset is not a regular file: "@ + location),
        AssetState::NotOpened(reason) => Some(
            "could not open support asset "@ + location + ": "@ + reason@,
        ),
        AssetState::NotReinspected(reason) => Some(
            "could not inspect opened support asset "@ + location + ": "@ + reason@,
        ),
        AssetState::Changed => Some("support asset changed while opening: "@ + location),
        AssetState::Opened => None,
    }
}

/// The collection with the file at hand.
pub open spec fn with_asset(state: CollectionModel, location: Seq<char>) -> CollectionModel {
    CollectionModel { assets: state.assets.push(location), ..state }
}

/// The collection after CSS was read: the file is collected, and its references come next.
pub open spec fn with_css(
    state: CollectionModel,
    location: Seq<char>,
    tokens: Seq<(css::ValueModel, Seq<char>)>,
) -> CollectionModel {
    match css::token_references(tokens) {
        Err(message) => failed(state, message),
        Ok(references) => settled(
            CollectionModel {
                pending: state.pending + stacked(
                    references,
                    directory_of(location),
                    (state.depth + 1) as usize,
                ),
                ..with_asset(state, location)
            },
        ),
    }
}

/// The collection after a step; unchanged where the answer is not one to the step.
pub open spec fn collection_after(
    state: CollectionModel,
    answer: CollectAnswer,
) -> CollectionModel {
    match (state.step, answer) {
        (StepModel::Resolve(location), CollectAnswer::Resolved(found)) => match found {
            Err(reason) => failed(
                state,
                "could not resolve support asset "@ + location + ": "@ + reason@,
            ),
            Ok(canonical) => if !is_within(state.root, canonical@) {
                failed(state, "support asset escapes the entry directory: "@ + location)
            } else {
                CollectionModel { step: StepModel::Open(location), ..state }
            },
        },
        (StepModel::Open(location), CollectAnswer::Opened(opened)) => match open_fault(
            location,
            opened,
        ) {
            Some(message) => failed(state, message),
            None => if !is_css(location) {
                settled(with_asset(state, location))
            } else if state.depth >= MAX_CSS_RECURSION_DEPTH {
                failed(state, "CSS dependency recursion exceeds the supported depth"@)
            } else {
                CollectionModel { step: StepModel::ReadCss(location), ..state }
            },
        },
        (StepModel::ReadCss(location), CollectAnswer::Css(found)) => match found {
            Err(reason) => failed(state, "CSS support asset must be UTF-8 text: "@ + reason@),
            Ok(tokens) => with_css(state, location, css::token_models(tokens@)),
        },
        _ => state,
    }
}

/// A collection under way.
pub struct AssetCollection {
    root: Vec<u8>,
    pending: Vec<PendingReference>,
    seen: Vec<String>,
    assets: Vec<String>,
    followed: usize,
    depth: usize,
    step: CollectStep,
}

impl View for AssetCollection {
    type V = CollectionModel;

    closed spec fn view(&self) -> CollectionModel {
        CollectionModel {
            root: self.root@,
            pending: pending_models(self.pending@),
            seen: text::texts(self.seen@),
            assets: text::texts(self.assets@),
            followed: self.followed as nat,
            depth: self.depth,
            step: self.step@,
        }
    }
}

fn push_text(list: &mut Vec<String>, value: &str)
    ensures
        text::texts(final(list)@) == text::texts(old(list)@).push(value@),
{
    let ghost before = text::texts(list@);
    list.push(text::copy_of(value));
    assert(text::texts(list@) =~= before.push(value@));
}

fn stack(pending: &mut Vec<PendingReference>, references: &[String], base: &str, depth: usize)
    ensures
        pending_models(final(pending)@) == pending_models(old(pending)@) + stacked(
            text::texts(references@),
            base@,
            depth,
        ),
{
    let ghost start = pending_models(pending@);
    let ghost whole = stacked(text::texts(references@), base@, depth);
    let mut i: usize = references.len();
    assert(start + whole.take(0) =~= start);
    while i > 0
        invariant
            i <= references.len(),
            start == pending_models(old(pending)@),
            whole == stacked(text::texts(references@), base@, depth),
            pending_models(pending@) == start + whole.take(references@.len() - i),
        decreases i,
    {
        i -= 1;
        let reference = text::copy_of(references[i].as_str());
        let item = PendingReference { reference, base: text::copy_of(base), depth };
        let ghost place = references@.len() - 1 - i;
        let ghost before = pending_models(pending@);
        let ghost added = item@;
        proof {
            assert(text::texts(references@)[i as int] == item@.reference);
            assert(whole[place] == added);
        }
        pending.push(item);
        assert(pending_models(pending@) =~= before.push(added));
        assert(whole.take(place + 1) =~= whole.take(place).push(added));
        assert(start + whole.take(place + 1) =~= (start + whole.take(place)).push(added));
    }
    assert(whole.take(references@.len() as int) =~= whole);
}

impl AssetCollection {
    #[verifier::type_invariant]
    spec fn bounded(self) -> bool {
        &&& !(self.step is Failed) ==> self.followed <= html::MAX_REFERENCES
        &&& self.step is ReadCss ==> self.depth < MAX_CSS_RECURSION_DEPTH
    }

    fn fail(self, message: String) -> (next: Self)
        ensures
            next@ == failed(self@, message@),
    {
        let AssetCollection { root, pending, seen, assets, followed, depth, .. } = self;
        AssetCollection {
            root,
            pending,
            seen,
            assets,
            followed,
            depth,
            step: CollectStep::Failed(message),
        }
    }

    fn settle(self) -> (next: Self)
        requires
            self@.followed <= html::MAX_REFERENCES,
        ensures
            next@ == settled(self@),
    {
        let ghost whole = settled(self@);
        let AssetCollection { root, pending, seen, assets, followed, depth, step } = self;
        let ghost old_step = step@;
        let mut pending = pending;
        let mut seen = seen;
        let mut followed: usize = followed;
        let mut depth: usize = depth;
        while pending.len() > 0
            invariant
                followed <= html::MAX_REFERENCES,
                whole == settled(self@),
                whole == settled(
                    CollectionModel {
                        root: root@,
                        pending: pending_models(pending@),
                        seen: text::texts(seen@),
                        assets: text::texts(assets@),
                        followed: followed as nat,
                        depth,
                        step: old_step,
                    },
                ),
            decreases pending.len(),
        {
            let ghost before = pending@;
            let item = pending.pop().unwrap();
            proof {
                assert(pending_models(before).last() == item@);
                assert(pending_models(pending@) =~= pending_models(before).drop_last());
            }
            followed += 1;
            depth = item.depth;
            if followed > html::MAX_REFERENCES {
                let message = text::copy_of("entry document exceeds the support-reference limit");
                return AssetCollection {
                    root,
                    pending,
                    seen,
                    assets,
                    followed,
                    depth,
                    step: CollectStep::Failed(message),
                };
            }
            let location = match reference::normalize_local_reference_from(
                item.reference.as_str(),
                item.base.as_str(),
            ) {
                Err(message) => {
                    return AssetCollection {
                        root,
                        pending,
                        seen,
                        assets,
                        followed,
                        depth,
                        step: CollectStep::Failed(message),
                    };
                },
                Ok(None) => {
                    continue;
                },
                Ok(Some(location)) => location,
            };
            if text::contains_text(&seen, location.as_str()) {
                continue;
            }
            push_text(&mut seen, location.as_str());
            assert(text::texts(assets@).len() == assets@.len());
            let step = if assets.len() >= MAX_SUPPORT_ASSETS {
                CollectStep::Failed(
                    text::copy_of("entry document declares too many support assets"),
                )
            } else {
                match ensure_supported_dependency(location.as_str()) {
                    Ok(_) => CollectStep::Resolve(location),
                    Err(message) => CollectStep::Failed(message),
                }
            };
            return AssetCollection { root, pending, seen, assets, followed, depth, step };
        }
        AssetCollection { root, pending, seen, assets, followed, depth, step: CollectStep::Done }
    }

    /// Starts to collect what the references of a document in the directory name.
    pub fn start(root: Vec<u8>, references: &[String]) -> (collection: Self)
        ensures
            collection@ == collection_start(root@, text::texts(references@)),
    {
        let mut pending: Vec<PendingReference> = Vec::new();
        let ghost none = pending_models(pending@);
        proof {
            assert(none =~= Seq::<PendingModel>::empty());
            reveal_strlit("");
            assert(""@ =~= Seq::<char>::empty());
        }
        stack(&mut pending, references, "", 0);
        let seen: Vec<String> = Vec::new();
        let assets: Vec<String> = Vec::new();
        proof {
            assert(pending_models(pending@) =~= stacked(
                text::texts(references@),
                Seq::empty(),
                0,
            ));
            assert(text::texts(seen@) =~= Seq::<Seq<char>>::empty());
            assert(text::texts(assets@) =~= Seq::<Seq<char>>::empty());
        }
        let collection = AssetCollection {
            root,
            pending,
            seen,
            assets,
            followed: 0,
            depth: 0,
            step: CollectStep::Done,
        };
        collection.settle()
    }

    /// The next step.
    pub fn step(&self) -> (step: &CollectStep)
        ensures
            step@ == self@.step,
    {
        &self.step
    }

    /// The support paths of the files that were collected, in order.
    pub fn assets(&self) -> (assets: &Vec<String>)
        ensures
            text::texts(assets@) == self@.assets,
    {
        &self.assets
    }

    fn collect(self, location: &str) -> (next: Self)
        requires
            !(self@.step is Failed),
        ensures
            next@ == settled(with_asset(self@, location@)),
    {
        proof {
            use_type_invariant(&self);
        }
        let AssetCollection { root, pending, seen, assets, followed, depth, step } = self;
        let mut assets = assets;
        push_text(&mut assets, location);
        let collection = AssetCollection { root, pending, seen, assets, followed, depth, step };
        collection.settle()
    }

    fn collect_css(self, location: &str, tokens: &[CssToken]) -> (next: Self)
        requires
            self@.step is ReadCss,
        ensures
            next@ == with_css(self@, location@, css::token_models(tokens@)),
    {
        proof {
            use_type_invariant(&self);
        }
        let references = match css::css_references_from(tokens) {
            Ok(references) => references,
            Err(message) => {
                return self.fail(message);
            },
        };
        let AssetCollection { root, pending, seen, assets, followed, depth, step } = self;
        let mut assets = assets;
        let mut pending = pending;
        push_text(&mut assets, location);
        let base = parent(location);
        stack(&mut pending, &references, base.as_str(), depth + 1);
        let collection = AssetCollection { root, pending, seen, assets, followed, depth, step };
        collection.settle()
    }

    fn opened(self, location: String, state: AssetState) -> (next: Self)
        requires
            !(self@.step is Failed),
        ensures
            next@ == (match open_fault(location@, state) {
                Some(message) => failed(self@, message),
                None => if !is_css(location@) {
                    settled(with_asset(self@, location@))
                } else if self@.depth >= MAX_CSS_RECURSION_DEPTH {
                    failed(self@, "CSS dependency recursion exceeds the supported depth"@)
                } else {
                    CollectionModel { step: StepModel::ReadCss(location@), ..self@ }
                },
            }),
    {
        proof {
            use_type_invariant(&self);
        }
        let name = location.as_str();
        match state {
            AssetState::NotInspected(reason) => {
                let start = text::joined3("could not inspect support asset ", name, ": ");
                return self.fail(text::joined(start.as_str(), reason.as_str()));
            },
            AssetState::NotRegular => {
                return self.fail(text::joined("support asset is not a regular file: ", name));
            },
            AssetState::NotOpened(reason) => {
                let start = text::joined3("could not open support asset ", name, ": ");
                return self.fail(text::joined(start.as_str(), reason.as_str()));
            },
            AssetState::NotReinspected(reason) => {
                let start = text::joined3("could not inspect opened support asset ", name, ": ");
                return self.fail(text::joined(start.as_str(), reason.as_str()));
            },
            AssetState::Changed => {
                return self.fail(text::joined("support asset changed while opening: ", name));
            },
            AssetState::Opened => {},
        }
        if !names_css(name) {
            return self.collect(name);
        }
        if self.depth >= MAX_CSS_RECURSION_DEPTH {
            return self.fail(
                text::copy_of("CSS dependency recursion exceeds the supported depth"),
            );
        }
        let AssetCollection { root, pending, seen, assets, followed, depth, .. } = self;
        AssetCollection {
            root,
            pending,
            seen,
            assets,
            followed,
            depth,
            step: CollectStep::ReadCss(location),
        }
    }

    /// The collection after the answer to its step.
    pub fn advance(self, answer: CollectAnswer) -> (next: Self)
        ensures
            next@ == collection_after(self@, answer),
    {
        proof {
            use_type_invariant(&self);
        }
        match (&self.step, answer) {
            (CollectStep::Resolve(location), CollectAnswer::Resolved(found)) => {
                let location = text::copy_of(location.as_str());
                match found {
                    Err(reason) => {
                        let start = text::joined3(
                            "could not resolve support asset ",
                            location.as_str(),
                            ": ",
                        );
                        self.fail(text::joined(start.as_str(), reason.as_str()))
                    },
                    Ok(canonical) => {
                        if !within(&self.root, &canonical) {
                            return self.fail(
                                text::joined(
                                    "support asset escapes the entry directory: ",
                                    location.as_str(),
                                ),
                            );
                        }
                        let AssetCollection {
                            root,
                            pending,
                            seen,
                            assets,
                            followed,
                            depth,
                            ..
                        } = self;
                        AssetCollection {
                            root,
                            pending,
                            seen,
                            assets,
                            followed,
                            depth,
                            step: CollectStep::Open(location),
                        }
                    },
                }
            },
            (CollectStep::Open(location), CollectAnswer::Opened(state)) => {
                let location = text::copy_of(location.as_str());
                self.opened(location, state)
            },
            (CollectStep::ReadCss(location), CollectAnswer::Css(found)) => {
                let location = text::copy_of(location.as_str());
                match found {
                    Err(reason) => self.fail(
                        text::joined("CSS support asset must be UTF-8 text: ", reason.as_str()),
                    ),
                    Ok(tokens) => self.collect_css(location.as_str(), &tokens),
                }
            },
            _ => self,
        }
    }
}

} // verus!
