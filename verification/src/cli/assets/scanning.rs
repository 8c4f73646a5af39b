//! How CSS and documents are scanned and how a collection goes on, step by step.
use vstd::prelude::*;
use crate::cli::assets::collection;
use crate::cli::assets::collection::{AssetState, CollectAnswer, CollectionModel, StepModel};
use crate::cli::assets::coverage;
use crate::cli::assets::css;
use crate::cli::assets::css::{OpenBlock, ScanModel, UrlModel, ValueModel};
use crate::cli::assets::html;
use crate::cli::assets::html::ElementModel;
use crate::cli::assets::markdown;
use crate::cli::assets::markdown::{EventModel, ItemModel};
use crate::text;

verus! {

/// The addresses that a token may name.
spec fn names(token: (ValueModel, Seq<char>), value: Seq<char>) -> bool {
    token.0 == ValueModel::Url(value) || token.0 == ValueModel::Quoted(value) || token.0
        == ValueModel::Ident(value)
}

proof fn lemma_references_are_named(
    tokens: Seq<(ValueModel, Seq<char>)>,
    count: int,
    value: Seq<char>,
)
    requires
        0 <= count <= tokens.len(),
        css::scanned(tokens, count) is Some,
        css::scanned(tokens, count)->0.references.contains(value) || css::scanned(tokens, count)->0.url
            == UrlModel::Complete(value),
    ensures
        exists|i: int| 0 <= i < count && names(#[trigger] tokens[i], value),
    decreases count,
{
    if count > 0 {
        let before = css::scanned(tokens, count - 1)->0;
        let after = css::scanned(tokens, count)->0;
        let token = tokens[count - 1];
        assert(css::scan_after(before, token) == Some(after));
        if before.references.contains(value) || before.url == UrlModel::Complete(value) {
            lemma_references_are_named(tokens, count - 1, value);
        } else if after.references.contains(value) {
            let at = choose|j: int| 0 <= j < after.references.len() && after.references[j] == value;
            assert(names(token, value));
        } else {
            assert(names(token, value));
        }
    }
}

/// CSS refers to nothing but what a string, an address or a word of it says.
pub proof fn law_css_refers_to_what_it_says(
    tokens: Seq<(ValueModel, Seq<char>)>,
    references: Seq<Seq<char>>,
    k: int,
)
    requires
        css::token_references(tokens) == Ok::<Seq<Seq<char>>, Seq<char>>(references),
        0 <= k < references.len(),
    ensures
        exists|i: int|
            0 <= i < tokens.len() && ((#[trigger] tokens[i]).0 == ValueModel::Url(references[k])
                || tokens[i].0 == ValueModel::Quoted(references[k]) || tokens[i].0
                == ValueModel::Ident(references[k])),
{
    let end: int = tokens.len() as int;
    let scan = css::scanned(tokens, end)->0;
    if scan.references.contains(references[k]) {
        lemma_references_are_named(tokens, end, references[k]);
    } else {
        assert(scan.url == UrlModel::Complete(references[k]));
        lemma_references_are_named(tokens, end, references[k]);
    }
    let i = choose|i: int| 0 <= i < tokens.len() && names(#[trigger] tokens[i], references[k]);
    assert(names(tokens[i], references[k]));
}

proof fn lemma_brackets()
    ensures
        "("@ =~= seq!['('],
        "["@ =~= seq!['['],
        "{"@ =~= seq!['{'],
        ")"@ =~= seq![')'],
{
    reveal_strlit("(");
    reveal_strlit("[");
    reveal_strlit("{");
    reveal_strlit(")");
}

/// Outside of `url(` a bracket opens a block in which no import is waited for, and what closes the
/// innermost block brings back what was waited for around it; other signs and words end the wait for an
/// import, white space does not, and a malformed string makes the CSS malformed.
pub proof fn law_blocks_are_passed_over(scan: ScanModel, c: char)
    requires
        scan.url is Outside,
    ensures
        c == '(' || c == '[' || c == '{' ==> css::scan_after(scan, (ValueModel::Other, seq![c])) == Some(
            ScanModel {
                blocks: scan.blocks.push(
                    OpenBlock {
                        closer: if c == '(' {
                            ')'
                        } else if c == '[' {
                            ']'
                        } else {
                            '}'
                        },
                        import_pending: scan.import_pending,
                    },
                ),
                import_pending: false,
                ..scan
            },
        ),
        c != '(' && c != '[' && c != '{' && scan.blocks.len() > 0 && scan.blocks.last().closer == c
            ==> css::scan_after(scan, (ValueModel::Other, seq![c])) == Some(
            ScanModel {
                blocks: scan.blocks.drop_last(),
                import_pending: scan.blocks.last().import_pending,
                ..scan
            },
        ),
        c != '(' && c != '[' && c != '{' && (scan.blocks.len() == 0 || scan.blocks.last().closer != c)
            ==> css::scan_after(scan, (ValueModel::Other, seq![c])) == Some(
            ScanModel { import_pending: false, ..scan },
        ),
        forall|raw: Seq<char>|
            #[trigger] css::scan_after(scan, (ValueModel::Space, raw)) == Some(scan),
        forall|raw: Seq<char>| #[trigger] css::scan_after(scan, (ValueModel::Bad, raw)) is None,
        forall|word: Seq<char>, raw: Seq<char>|
            #[trigger] css::scan_after(scan, (ValueModel::Ident(word), raw)) == Some(
                ScanModel { import_pending: false, ..scan },
            ),
{
    lemma_brackets();
    let raw = seq![c];
    assert(raw[0] == c);
    assert(raw == "("@ <==> c == '(');
    assert(raw == "["@ <==> c == '[');
    assert(raw == "{"@ <==> c == '{');
    if scan.blocks.len() > 0 {
        let closer = seq![scan.blocks.last().closer];
        assert(closer[0] == scan.blocks.last().closer);
        assert(raw == closer <==> c == scan.blocks.last().closer);
    }
}

/// Any at-rule but `@import` waits for no import, in any case of its letters, and any function but
/// `url` is passed over like a block in round brackets.
pub proof fn law_other_rules_are_passed_over(scan: ScanModel, name: Seq<char>, raw: Seq<char>)
    requires
        scan.url is Outside,
    ensures
        css::scan_after(scan, (ValueModel::AtKeyword(name), raw)) matches Some(after)
            && after.import_pending == (text::lowercase(name) == "import"@) && after.blocks == scan.blocks
            && after.references == scan.references && after.url is Outside,
        text::lowercase(name) != "url"@ ==> css::scan_after(scan, (ValueModel::Function(name), raw)) == Some(
            ScanModel {
                blocks: scan.blocks.push(
                    OpenBlock { closer: ')', import_pending: scan.import_pending },
                ),
                import_pending: false,
                ..scan
            },
        ),
{
}

/// Inside `url(` nothing may follow the address but white space and the bracket that closes it.
pub proof fn law_addresses_stand_alone(
    scan: ScanModel,
    address: Seq<char>,
    token: (ValueModel, Seq<char>),
)
    requires
        scan.url == UrlModel::Complete(address),
    ensures
        token.0 is Space ==> css::scan_after(scan, token) == Some(scan),
        !(token.0 is Space) && !(token.0 is Other && token.1 == seq![')']) ==> css::scan_after(
            scan,
            token,
        ) is None,
        token.0 is Other && token.1 == seq![')'] && scan.references.len() < 512 ==> css::scan_after(
            scan,
            token,
        ) == Some(
            ScanModel {
                references: scan.references.push(address),
                import_pending: false,
                url: UrlModel::Outside,
                ..scan
            },
        ),
        token.0 is Other && token.1 == seq![')'] && scan.references.len() >= 512 ==> css::scan_after(
            scan,
            token,
        ) is None,
{
    lemma_brackets();
}

/// A file that was resolved is opened exactly where it stands within the document's directory; what is
/// outside or cannot be resolved ends the collection.
pub proof fn law_only_files_within_are_opened(
    state: CollectionModel,
    location: Seq<char>,
    canonical: Vec<u8>,
    reason: String,
)
    requires
        state.step == StepModel::Resolve(location),
    ensures
        ({
            let found = collection::collection_after(state, CollectAnswer::Resolved(Ok(canonical)));
            let lost = collection::collection_after(state, CollectAnswer::Resolved(Err(reason)));
            &&& collection::is_within(state.root, canonical@) <==> found.step == StepModel::Open(location)
            &&& !collection::is_within(state.root, canonical@) <==> found.step is Failed
            &&& lost.step is Failed
            &&& found.assets == state.assets && lost.assets == state.assets
            &&& found.pending == state.pending && found.root == state.root
        }),
{
}

/// A file that could not be opened as a regular one is not collected; CSS is read before it is
/// collected, eight deep at most.
pub proof fn law_opened_files_are_collected(
    state: CollectionModel,
    location: Seq<char>,
    opened: AssetState,
)
    requires
        state.step == StepModel::Open(location),
    ensures
        ({
            let after = collection::collection_after(state, CollectAnswer::Opened(opened));
            &&& !(opened is Opened) ==> after.step is Failed && after.assets == state.assets
            &&& opened is Opened && collection::is_css(location) && state.depth < 8 ==> after == (
            CollectionModel { step: StepModel::ReadCss(location), ..state })
            &&& opened is Opened && collection::is_css(location) && state.depth >= 8 ==> after.step is Failed
                && after.assets == state.assets
            &&& opened is Opened && !collection::is_css(location) ==> after.assets == state.assets.push(
                location,
            )
        }),
{
    if opened is Opened && !collection::is_css(location) {
        lemma_settled_keeps(collection::with_asset(state, location));
    }
}

proof fn lemma_settled_keeps(state: CollectionModel)
    ensures
        collection::settled(state).assets == state.assets,
        collection::settled(state).root == state.root,
        collection::settled(state).followed >= state.followed,
        collection::settled(state).step is Resolve || collection::settled(state).step is Done
            || collection::settled(state).step is Failed,
        collection::settled(state).step is Resolve ==> state.assets.len() < 255
            && collection::settled(state).followed <= 512,
        collection::settled(state).step matches StepModel::Resolve(location) ==> collection::is_supported(
            location,
        ) && !state.seen.contains(location) && collection::settled(state).seen.contains(location),
    decreases state.pending.len(),
{
    if state.pending.len() > 0 {
        let item = state.pending.last();
        let taken = CollectionModel {
            pending: state.pending.drop_last(),
            followed: state.followed + 1,
            depth: item.depth,
            ..state
        };
        match crate::cli::assets::reference::normalized(item.reference, item.base) {
            Ok(None) => {
                lemma_settled_keeps(taken);
            },
            Ok(Some(location)) => {
                if taken.seen.contains(location) {
                    lemma_settled_keeps(taken);
                } else {
                    assert(taken.seen.push(location)[taken.seen.len() as int] == location);
                }
            },
            Err(_) => {},
        }
    }
}

/// What a collection goes on to is a file that can be collected and was not seen before, the 255th at
/// most, after 512 references at most; what was collected stays.
pub proof fn law_collections_are_bounded(state: CollectionModel)
    ensures
        ({
            let next = collection::settled(state);
            &&& next.assets == state.assets
            &&& next.step matches StepModel::Resolve(location) ==> {
                &&& collection::is_supported(location)
                &&& !state.seen.contains(location)
                &&& next.seen.contains(location)
                &&& state.assets.len() < 255
                &&& next.followed <= 512
            }
            &&& state.pending.len() == 0 ==> next.step is Done
        }),
{
    lemma_settled_keeps(state);
}

/// One reference that is left to follow is followed where it is local, new, can be collected and within
/// the bounds; is passed over where it leads elsewhere or was seen; and ends the collection where it may
/// not be followed.
pub proof fn law_how_a_reference_is_followed(state: CollectionModel, location: Seq<char>)
    requires
        state.pending.len() == 1,
        state.followed < 512,
    ensures
        ({
            let item = state.pending[0];
            let target = crate::cli::assets::reference::normalized(item.reference, item.base);
            let next = collection::settled(state);
            &&& target is Err ==> next.step is Failed
            &&& target == Ok::<Option<Seq<char>>, Seq<char>>(None) ==> next.step is Done
            &&& target == Ok::<Option<Seq<char>>, Seq<char>>(Some(location)) ==> {
                &&& state.seen.contains(location) ==> next.step is Done
                &&& !state.seen.contains(location) && collection::is_supported(location)
                    && state.assets.len() < 255 ==> next.step == StepModel::Resolve(location)
                &&& !state.seen.contains(location) && !(collection::is_supported(location)
                    && state.assets.len() < 255) ==> next.step is Failed
            }
        }),
{
    let taken = CollectionModel {
        pending: state.pending.drop_last(),
        followed: state.followed + 1,
        depth: state.pending.last().depth,
        ..state
    };
    assert(taken.pending.len() == 0);
    assert(collection::settled(taken).step is Done);
}

// ---- documents ----

/// Whether an item of a Markdown document refers to this.
spec fn tells(item: ItemModel, value: Seq<char>) -> bool {
    item == ItemModel::Image(value) || (item matches ItemModel::Html(elements)
        && html::document_references(elements) is Ok && html::document_references(
        elements,
    )->Ok_0.contains(value))
}

proof fn lemma_items_tell(
    items: Seq<ItemModel>,
    from: int,
    before: Seq<Seq<char>>,
    value: Seq<char>,
)
    requires
        0 <= from <= items.len(),
        markdown::references_from(items, from, before) is Ok,
        markdown::references_from(items, from, before)->Ok_0.contains(value),
        !before.contains(value),
    ensures
        exists|i: int| from <= i < items.len() && tells(#[trigger] items[i], value),
    decreases items.len() - from,
{
    if from < items.len() {
        let added = markdown::added_references(items[from])->Ok_0;
        if tells(items[from], value) {
        } else {
            if (before + added).contains(value) {
                let k = choose|k: int| 0 <= k < (before + added).len() && (before + added)[k] == value;
                if k < before.len() {
                    assert(before[k] == value);
                } else {
                    assert(added[k - before.len()] == value);
                }
            }
            lemma_items_tell(items, from + 1, before + added, value);
        }
    }
}

/// A Markdown document refers to nothing but its images and what its pieces of HTML load.
pub proof fn law_markdown_refers_to_nothing_else(
    items: Seq<ItemModel>,
    references: Seq<Seq<char>>,
    k: int,
)
    requires
        markdown::references_from(items, 0, Seq::empty()) == Ok::<Seq<Seq<char>>, Seq<char>>(
            references,
        ),
        0 <= k < references.len(),
    ensures
        exists|i: int|
            0 <= i < items.len() && ((#[trigger] items[i]) == ItemModel::Image(references[k]) || (
            items[i] matches ItemModel::Html(elements) && html::document_references(elements) is Ok
                && html::document_references(elements)->Ok_0.contains(references[k]))),
{
    lemma_items_tell(items, 0, Seq::empty(), references[k]);
    let i = choose|i: int| 0 <= i < items.len() && tells(#[trigger] items[i], references[k]);
    assert(tells(items[i], references[k]));
}

/// What a Markdown document shows or holds as HTML is read from its text.
pub proof fn law_markdown_is_read(
    source: &str,
    result: Result<Vec<String>, String>,
    i: int,
    destination: Seq<char>,
)
    requires
        call_ensures(markdown::markdown_references, (source,), result),
        result is Ok,
        0 <= i < markdown::markdown_events(source@).len(),
        markdown::markdown_events(source@)[i] == EventModel::Image(destination),
    ensures
        text::texts(result->Ok_0@).contains(destination),
{
    let items = markdown::items_of(markdown::markdown_events(source@));
    assert(items[i] == ItemModel::Image(destination));
    coverage::law_markdown_refers_to_its_images(
        items,
        text::texts(result->Ok_0@),
        i,
        destination,
    );
}

/// How many references elements have together, from a place on.
pub open spec fn count_from(elements: Seq<ElementModel>, i: int) -> nat
    decreases elements.len() - i,
{
    if i < 0 || i >= elements.len() {
        0
    } else {
        html::element_references(elements[i]).len() + count_from(elements, i + 1)
    }
}

proof fn lemma_few_are_taken(elements: Seq<ElementModel>, i: int, before: Seq<Seq<char>>)
    requires
        0 <= i <= elements.len(),
        before.len() + count_from(elements, i) <= 512,
    ensures
        html::references_from(elements, i, before) is Ok,
        html::references_from(elements, i, before)->Ok_0.len() == before.len() + count_from(elements, i),
    decreases elements.len() - i,
{
    if i < elements.len() {
        lemma_few_are_taken(elements, i + 1, before + html::element_references(elements[i]));
    }
}

/// A document with up to 512 references is accepted with all of them.
pub proof fn law_documents_may_hold_many_references(elements: Seq<ElementModel>)
    requires
        count_from(elements, 0) <= 512,
    ensures
        html::document_references(Some(elements)) is Ok,
        html::document_references(Some(elements))->Ok_0.len() == count_from(elements, 0),
{
    lemma_few_are_taken(elements, 0, Seq::empty());
}

} // verus!
