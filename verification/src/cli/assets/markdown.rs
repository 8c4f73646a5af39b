//! References in Markdown.
use vstd::prelude::*;
use crate::cli::assets::html;
use crate::cli::assets::html::{ElementModel, HtmlElement};
use crate::text;

verus! {

/// What a Markdown document holds at a place.
#[derive(Debug, PartialEq, Eq)]
pub enum MarkdownEvent {
    /// An image with this destination.
    Image(String),
    /// A piece of HTML.
    Html(String),
    Other,
}

/// The model of what a Markdown document holds at a place.
pub enum EventModel {
    Image(Seq<char>),
    Html(Seq<char>),
    Other,
}

impl View for MarkdownEvent {
    type V = EventModel;

    open spec fn view(&self) -> EventModel {
        match *self {
            MarkdownEvent::Image(destination) => EventModel::Image(destination@),
            MarkdownEvent::Html(source) => EventModel::Html(source@),
            MarkdownEvent::Other => EventModel::Other,
        }
    }
}

/// The models of events.
pub open spec fn event_models(events: Seq<MarkdownEvent>) -> Seq<EventModel> {
    events.map_values(|event: MarkdownEvent| event@)
}

/// The events of `pulldown_cmark::Parser` on a text, in order.
pub uninterp spec fn markdown_events(source: Seq<char>) -> Seq<EventModel>;

/// `pulldown_cmark::Parser` reads a text as Markdown and hands out events: the start of an image
/// with its destination, a piece of block or inline HTML, and others.
#[verifier::external_body]
fn parse_markdown(source: &str) -> (events: Vec<MarkdownEvent>)
    ensures
        event_models(events@) == markdown_events(source@),
{
    let events = pulldown_cmark::Parser::new(source).map(|event| match event {
        pulldown_cmark::Event::Start(pulldown_cmark::Tag::Image { dest_url, .. }) => {
            MarkdownEvent::Image(dest_url.into_string())
        },
        pulldown_cmark::Event::Html(piece) => MarkdownEvent::Html(piece.into_string()),
        pulldown_cmark::Event::InlineHtml(piece) => MarkdownEvent::Html(piece.into_string()),
        _ => MarkdownEvent::Other,
    });
    events.collect()
}

/// The events of a Markdown document.
pub fn read_markdown(source: &str) -> (events: Vec<MarkdownEvent>)
    ensures
        event_models(events@) == markdown_events(source@),
{
    parse_markdown(source)
}

/// What a Markdown document holds at a place, with its HTML read.
#[derive(Debug, PartialEq, Eq)]
pub enum MarkdownItem {
    Image(String),
    Html(Option<Vec<HtmlElement>>),
    Other,
}

/// The model of what a Markdown document holds at a place, with its HTML read.
pub enum ItemModel {
    Image(Seq<char>),
    Html(Option<Seq<ElementModel>>),
    Other,
}

impl View for MarkdownItem {
    type V = ItemModel;

    open spec fn view(&self) -> ItemModel {
        match *self {
            MarkdownItem::Image(destination) => ItemModel::Image(destination@),
            MarkdownItem::Html(elements) => ItemModel::Html(html::parsed_models(elements)),
            MarkdownItem::Other => ItemModel::Other,
        }
    }
}

/// The models of items.
pub open spec fn item_models(items: Seq<MarkdownItem>) -> Seq<ItemModel> {
    items.map_values(|item: MarkdownItem| item@)
}

/// An event with its HTML read.
pub open spec fn item_of(event: EventModel) -> ItemModel {
    match event {
        EventModel::Image(destination) => ItemModel::Image(destination),
        EventModel::Html(source) => ItemModel::Html(html::html_elements(source)),
        EventModel::Other => ItemModel::Other,
    }
}

/// Events with their HTML read.
pub open spec fn items_of(events: Seq<EventModel>) -> Seq<ItemModel> {
    events.map_values(|event: EventModel| item_of(event))
}

/// The references of the items from `i` on, after those that were found: the destinations of
/// images, and the references of pieces of HTML.
pub open spec fn references_from(items: Seq<ItemModel>, i: int, references: Seq<Seq<char>>) -> Result<
    Seq<Seq<char>>,
    Seq<char>,
>
    decreases items.len() - i,
{
    if i < 0 || i >= items.len() {
        Ok(references)
    } else {
        match added_references(items[i]) {
            Err(message) => Err(message),
            Ok(added) => if (references + added).len() > html::MAX_REFERENCES {
                Err(html::too_many())
            } else {
                references_from(items, i + 1, references + added)
            },
        }
    }
}

/// The references of one item.
pub open spec fn added_references(item: ItemModel) -> Result<Seq<Seq<char>>, Seq<char>> {
    match item {
        ItemModel::Image(destination) => Ok(seq![destination]),
        ItemModel::Html(elements) => html::document_references(elements),
        ItemModel::Other => Ok(Seq::empty()),
    }
}

fn append(list: &mut Vec<String>, more: Vec<String>)
    ensures
        text::texts(final(list)@) == text::texts(old(list)@) + text::texts(more@),
{
    let ghost before = list@;
    let ghost added = more@;
    let mut more = more;
    list.append(&mut more);
    assert(list@ == before + added);
    assert(text::texts(list@) =~= text::texts(before) + text::texts(added));
}

fn read_item(item: &MarkdownItem) -> (result: Result<Vec<String>, String>)
    ensures
        match (result, added_references(item@)) {
            (Ok(references), Ok(model)) => text::texts(references@) == model,
            (Err(message), Err(model)) => message@ == model,
            _ => false,
        },
{
    match item {
        MarkdownItem::Image(destination) => {
            let mut list: Vec<String> = Vec::new();
            list.push(text::copy_of(destination.as_str()));
            assert(text::texts(list@) =~= seq![destination@]);
            Ok(list)
        },
        MarkdownItem::Html(elements) => html::html_references_from(elements),
        MarkdownItem::Other => {
            let list: Vec<String> = Vec::new();
            assert(text::texts(list@) =~= Seq::<Seq<char>>::empty());
            Ok(list)
        },
    }
}

/// The references of a Markdown document with these items.
pub fn markdown_references_from(items: &[MarkdownItem]) -> (result: Result<Vec<String>, String>)
    ensures
        match (result, references_from(item_models(items@), 0, Seq::empty())) {
            (Ok(references), Ok(model)) => text::texts(references@) == model,
            (Err(message), Err(model)) => message@ == model,
            _ => false,
        },
{
    let ghost models = item_models(items@);
    let ghost whole = references_from(models, 0, Seq::empty());
    let mut references: Vec<String> = Vec::new();
    assert(text::texts(references@) =~= Seq::<Seq<char>>::empty());
    let mut i: usize = 0;
    while i < items.len()
        invariant
            i <= items.len(),
            models == item_models(items@),
            whole == references_from(models, 0, Seq::empty()),
            whole == references_from(models, i as int, text::texts(references@)),
        decreases items.len() - i,
    {
        assert(models[i as int] == items@[i as int]@);
        match read_item(&items[i]) {
            Ok(added) => append(&mut references, added),
            Err(message) => {
                return Err(message);
            },
        }
        assert(text::texts(references@).len() == references@.len());
        if references.len() > html::MAX_REFERENCES {
            return Err(text::copy_of("entry document exceeds the support-reference limit"));
        }
        i += 1;
    }
    Ok(references)
}

fn read_items(events: Vec<MarkdownEvent>) -> (items: Vec<MarkdownItem>)
    ensures
        item_models(items@) == items_of(event_models(events@)),
{
    let mut items: Vec<MarkdownItem> = Vec::new();
    let mut i: usize = 0;
    while i < events.len()
        invariant
            i <= events.len(),
            items@.len() == i,
            forall|k: int|
                0 <= k < i ==> #[trigger] items@[k]@ == item_of(event_models(events@)[k]),
        decreases events.len() - i,
    {
        assert(event_models(events@)[i as int] == events@[i as int]@);
        let item = match &events[i] {
            MarkdownEvent::Image(destination) => MarkdownItem::Image(
                text::copy_of(destination.as_str()),
            ),
            MarkdownEvent::Html(source) => MarkdownItem::Html(html::read_html(source.as_str())),
            MarkdownEvent::Other => MarkdownItem::Other,
        };
        items.push(item);
        i += 1;
    }
    assert(item_models(items@) =~= items_of(event_models(events@)));
    items
}

/// The references of a Markdown document.
pub fn markdown_references(source: &str) -> (result: Result<Vec<String>, String>)
    ensures
        match (
            result,
            references_from(items_of(markdown_events(source@)), 0, Seq::empty()),
        ) {
            (Ok(references), Ok(model)) => text::texts(references@) == model,
            (Err(message), Err(model)) => message@ == model,
            _ => false,
        },
{
    let items = read_items(read_markdown(source));
    markdown_references_from(&items)
}

} // verus!
