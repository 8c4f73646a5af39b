//! References in HTML.
use vstd::prelude::*;
use crate::text;

verus! {

/// The most references that a document may hold.
pub const MAX_REFERENCES: usize = 512;

/// An element of a document, with the attributes that can refer to files.
#[derive(Debug, PartialEq, Eq)]
pub struct HtmlElement {
    pub name: String,
    pub src: Option<String>,
    pub poster: Option<String>,
    pub srcset: Option<String>,
    pub rel: Option<String>,
    pub href: Option<String>,
}

/// The model of an element.
pub struct ElementModel {
    pub name: Seq<char>,
    pub src: Option<Seq<char>>,
    pub poster: Option<Seq<char>>,
    pub srcset: Option<Seq<char>>,
    pub rel: Option<Seq<char>>,
    pub href: Option<Seq<char>>,
}

impl View for HtmlElement {
    type V = ElementModel;

    open spec fn view(&self) -> ElementModel {
        ElementModel {
            name: self.name@,
            src: text::optional(self.src),
            poster: text::optional(self.poster),
            srcset: text::optional(self.srcset),
            rel: text::optional(self.rel),
            href: text::optional(self.href),
        }
    }
}

/// The models of elements.
pub open spec fn element_models(elements: Seq<HtmlElement>) -> Seq<ElementModel> {
    elements.map_values(|element: HtmlElement| element@)
}

/// The models of elements, where there are any.
pub open spec fn parsed_models(elements: Option<Vec<HtmlElement>>) -> Option<Seq<ElementModel>> {
    match elements {
        Some(list) => Some(element_models(list@)),
        None => None,
    }
}

/// The elements that `scraper` finds in a fragment of HTML, in the order in which its tree stores
/// them; none where it has no selector for them.
pub uninterp spec fn html_elements(source: Seq<char>) -> Option<Seq<ElementModel>>;

/// `scraper::Html::parse_fragment` reads a text as a fragment of HTML, and its `select` with the
/// selector `*` walks over the elements in the order in which the tree stores its nodes; each hands
/// out its name and the five attributes.
#[verifier::external_body]
fn parse_html(source: &str) -> (elements: Option<Vec<HtmlElement>>)
    ensures
        parsed_models(elements) == html_elements(source@),
{
    let every = scraper::Selector::parse("*").ok()?;
    let fragment = scraper::Html::parse_fragment(source);
    let elements = fragment.select(&every).map(|found| HtmlElement {
        name: found.value().name().to_owned(),
        src: found.value().attr("src").map(str::to_owned),
        poster: found.value().attr("poster").map(str::to_owned),
        srcset: found.value().attr("srcset").map(str::to_owned),
        rel: found.value().attr("rel").map(str::to_owned),
        href: found.value().attr("href").map(str::to_owned),
    });
    Some(elements.collect())
}

/// The elements of a fragment of HTML.
pub fn read_html(source: &str) -> (elements: Option<Vec<HtmlElement>>)
    ensures
        parsed_models(elements) == html_elements(source@),
{
    parse_html(source)
}

// ---- words ----

/// Whether a character is ASCII white space.
pub open spec fn is_ascii_space(c: char) -> bool {
    c == ' ' || c == '\t' || c == '\n' || c == '\u{c}' || c == '\r'
}

fn ascii_space(c: char) -> (yes: bool)
    ensures
        yes == is_ascii_space(c),
{
    c == ' ' || c == '\t' || c == '\n' || c == '\u{c}' || c == '\r'
}

/// The words of a text, between ASCII white space; the last one, which may be empty, is the one
/// that more text would add to.
pub open spec fn open_words(s: Seq<char>) -> Seq<Seq<char>>
    decreases s.len(),
{
    if s.len() == 0 {
        seq![Seq::empty()]
    } else {
        let before = open_words(s.drop_last());
        if !is_ascii_space(s.last()) {
            before.drop_last().push(before.last().push(s.last()))
        } else if before.last().len() == 0 {
            before
        } else {
            before.push(Seq::empty())
        }
    }
}

/// The words of a text: its longest runs without ASCII white space.
pub open spec fn words(s: Seq<char>) -> Seq<Seq<char>> {
    let all = open_words(s);
    if all.last().len() == 0 {
        all.drop_last()
    } else {
        all
    }
}

fn split_words(chars: &[char]) -> (found: Vec<Vec<char>>)
    ensures
        text::views(found@) == words(chars@),
{
    let mut done: Vec<Vec<char>> = Vec::new();
    let mut current: Vec<char> = Vec::new();
    let mut i: usize = 0;
    assert(text::views(done@).push(current@) =~= seq![Seq::<char>::empty()]);
    assert(chars@.take(0) =~= Seq::<char>::empty());
    while i < chars.len()
        invariant
            i <= chars.len(),
            text::views(done@).push(current@) == open_words(chars@.take(i as int)),
        decreases chars.len() - i,
    {
        let ghost before = open_words(chars@.take(i as int));
        assert(chars@.take(i + 1).drop_last() =~= chars@.take(i as int));
        assert(before.drop_last() =~= text::views(done@));
        assert(before.last() == current@);
        if !ascii_space(chars[i]) {
            current.push(chars[i]);
        } else if current.len() > 0 {
            let ghost earlier = done@;
            let ghost word = current@;
            done.push(current);
            assert(text::views(done@) =~= text::views(earlier).push(word));
            assert(text::views(done@) =~= before);
            current = Vec::new();
            assert(current@ =~= Seq::<char>::empty());
        }
        i += 1;
    }
    assert(chars@.take(chars@.len() as int) =~= chars@);
    let ghost all = open_words(chars@);
    assert(all.last() == current@);
    assert(all.drop_last() =~= text::views(done@));
    if current.len() > 0 {
        let ghost earlier = done@;
        let ghost word = current@;
        done.push(current);
        assert(text::views(done@) =~= text::views(earlier).push(word));
    }
    done
}

// ---- one element ----

/// Whether the `src` of an element with this name refers to a file.
pub open spec fn has_source(name: Seq<char>) -> bool {
    name == "img"@ || name == "script"@ || name == "source"@ || name == "video"@ || name
        == "audio"@ || name == "track"@ || name == "iframe"@ || name == "input"@
}

/// The references of the first `count` candidates of a `srcset`: the first word of each.
pub open spec fn candidate_references(candidates: Seq<Seq<char>>, count: int) -> Seq<Seq<char>>
    decreases count,
{
    if count <= 0 {
        Seq::empty()
    } else {
        let before = candidate_references(candidates, count - 1);
        let found = words(candidates[count - 1]);
        if found.len() > 0 {
            before.push(found[0])
        } else {
            before
        }
    }
}

/// Whether a `srcset` holds its data itself.
pub open spec fn is_data_set(srcset: Seq<char>) -> bool {
    text::has_prefix(text::lowercase(text::trimmed_start(srcset)), "data:"@)
}

/// The references of a `srcset`.
pub open spec fn set_references(srcset: Seq<char>) -> Seq<Seq<char>> {
    let candidates = text::split(srcset, ',');
    candidate_references(candidates, candidates.len() as int)
}

/// Whether a `rel` asks for a file.
pub open spec fn asks_for_file(rel: Seq<char>) -> bool {
    exists|i: int|
        0 <= i < words(rel).len() && (text::lowercase(#[trigger] words(rel)[i]) == "stylesheet"@
            || text::lowercase(words(rel)[i]) == "icon"@)
}

/// An optional reference as a list.
pub open spec fn listed(value: Option<Seq<char>>, counts: bool) -> Seq<Seq<char>> {
    match value {
        Some(found) if counts => seq![found],
        _ => Seq::empty(),
    }
}

/// The references of an element before its `srcset`.
pub open spec fn source_references(element: ElementModel) -> Seq<Seq<char>> {
    listed(element.src, has_source(element.name)) + listed(
        element.poster,
        element.name == "video"@,
    )
}

/// Whether an element has a `srcset` that counts.
pub open spec fn has_set(element: ElementModel) -> bool {
    (element.name == "img"@ || element.name == "source"@) && element.srcset is Some
}

/// The reference of a `link`.
pub open spec fn link_reference(element: ElementModel) -> Seq<Seq<char>> {
    listed(
        element.href,
        element.name == "link"@ && (element.rel matches Some(rel) && asks_for_file(rel)),
    )
}

/// The references of an element.
pub open spec fn element_references(element: ElementModel) -> Seq<Seq<char>> {
    let start = source_references(element);
    if has_set(element) {
        if is_data_set(element.srcset->0) {
            start
        } else {
            start + set_references(element.srcset->0) + link_reference(element)
        }
    } else {
        start + link_reference(element)
    }
}

/// Whether the number of references is looked at after an element: it is not where the element
/// holds its data itself.
pub open spec fn is_counted(element: ElementModel) -> bool {
    !(has_set(element) && is_data_set(element.srcset->0))
}

// ---- a document ----

/// The failure of a document with too many references.
pub open spec fn too_many() -> Seq<char> {
    "entry document exceeds the support-reference limit"@
}

/// The references of the elements from `i` on, after those that were found.
pub open spec fn references_from(
    elements: Seq<ElementModel>,
    i: int,
    references: Seq<Seq<char>>,
) -> Result<Seq<Seq<char>>, Seq<char>>
    decreases elements.len() - i,
{
    if i < 0 || i >= elements.len() {
        Ok(references)
    } else {
        let now = references + element_references(elements[i]);
        if is_counted(elements[i]) && now.len() > MAX_REFERENCES {
            Err(too_many())
        } else {
            references_from(elements, i + 1, now)
        }
    }
}

/// The references of a document with these elements.
pub open spec fn document_references(elements: Option<Seq<ElementModel>>) -> Result<
    Seq<Seq<char>>,
    Seq<char>,
> {
    match elements {
        None => Err("could not initialize HTML parser"@),
        Some(list) => references_from(list, 0, Seq::empty()),
    }
}

fn push_copy(references: &mut Vec<String>, value: &str)
    ensures
        text::texts(final(references)@) == text::texts(old(references)@).push(value@),
{
    let ghost before = text::texts(references@);
    references.push(text::copy_of(value));
    assert(text::texts(references@) =~= before.push(value@));
}

fn push_optional(references: &mut Vec<String>, value: &Option<String>, counts: bool)
    ensures
        text::texts(final(references)@) == text::texts(old(references)@) + listed(
            text::optional(*value),
            counts,
        ),
{
    let ghost before = text::texts(references@);
    if counts {
        if let Some(found) = value {
            push_copy(references, found.as_str());
            assert(before.push(found@) =~= before + seq![found@]);
            return ;
        }
    }
    assert(before + Seq::<Seq<char>>::empty() =~= before);
}

fn named_source(name: &str) -> (yes: bool)
    ensures
        yes == has_source(name@),
{
    text::same_text(name, "img") || text::same_text(name, "script") || text::same_text(
        name,
        "source",
    ) || text::same_text(name, "video") || text::same_text(name, "audio") || text::same_text(
        name,
        "track",
    ) || text::same_text(name, "iframe") || text::same_text(name, "input")
}

fn data_set(srcset: &str) -> (yes: bool)
    ensures
        yes == is_data_set(srcset@),
{
    let chars = text::chars_of(srcset);
    let rest = text::trim_start(&chars);
    let start = text::string_of(&rest);
    let lower = text::to_lowercase(start.as_str());
    text::text_starts_with(lower.as_str(), "data:")
}

fn push_set(references: &mut Vec<String>, srcset: &str)
    ensures
        text::texts(final(references)@) == text::texts(old(references)@) + set_references(srcset@),
{
    let chars = text::chars_of(srcset);
    let candidates = text::split_chars(&chars, ',');
    let ghost split = text::split(srcset@, ',');
    let ghost start = text::texts(references@);
    let mut i: usize = 0;
    assert(start + Seq::<Seq<char>>::empty() =~= start);
    while i < candidates.len()
        invariant
            i <= candidates.len(),
            split == text::views(candidates@),
            split == text::split(srcset@, ','),
            start == text::texts(old(references)@),
            text::texts(references@) == start + candidate_references(split, i as int),
        decreases candidates.len() - i,
    {
        assert(split[i as int] == candidates@[i as int]@);
        let found = split_words(&candidates[i]);
        assert(text::views(found@).len() == found@.len());
        if found.len() > 0 {
            let word = text::string_of(&found[0]);
            assert(text::views(found@)[0] == word@);
            push_copy(references, word.as_str());
            assert(start + candidate_references(split, i as int).push(word@) =~= (start
                + candidate_references(split, i as int)).push(word@));
        }
        i += 1;
    }
    assert(split.len() == candidates@.len());
}

fn rel_asks(rel: &str) -> (yes: bool)
    ensures
        yes == asks_for_file(rel@),
{
    let chars = text::chars_of(rel);
    let found = split_words(&chars);
    let mut i: usize = 0;
    while i < found.len()
        invariant
            i <= found.len(),
            text::views(found@) == words(rel@),
            forall|j: int|
                0 <= j < i ==> text::lowercase(#[trigger] words(rel@)[j]) != "stylesheet"@
                    && text::lowercase(words(rel@)[j]) != "icon"@,
        decreases found.len() - i,
    {
        let word = text::string_of(&found[i]);
        assert(words(rel@)[i as int] == word@);
        let lower = text::to_lowercase(word.as_str());
        if text::same_text(lower.as_str(), "stylesheet") || text::same_text(
            lower.as_str(),
            "icon",
        ) {
            assert(words(rel@).len() == found@.len());
            return true;
        }
        i += 1;
    }
    assert(words(rel@).len() == found@.len());
    false
}

fn push_element(references: &mut Vec<String>, element: &HtmlElement) -> (counted: bool)
    ensures
        text::texts(final(references)@) == text::texts(old(references)@) + element_references(
            element@,
        ),
        counted == is_counted(element@),
{
    let ghost start = text::texts(references@);
    let name = element.name.as_str();
    push_optional(references, &element.src, named_source(name));
    push_optional(references, &element.poster, text::same_text(name, "video"));
    let ghost sources = source_references(element@);
    assert(text::texts(references@) =~= start + sources);
    let ghost mut middle = sources;
    if text::same_text(name, "img") || text::same_text(name, "source") {
        if let Some(srcset) = &element.srcset {
            if data_set(srcset.as_str()) {
                return false;
            }
            push_set(references, srcset.as_str());
            proof {
                middle = sources + set_references(srcset@);
                assert(text::texts(references@) =~= start + middle);
            }
        }
    }
    let asks = match &element.rel {
        Some(rel) => rel_asks(rel.as_str()),
        None => false,
    };
    push_optional(references, &element.href, text::same_text(name, "link") && asks);
    assert(text::texts(references@) =~= start + (middle + link_reference(element@)));
    true
}

/// The references of a document with these elements.
pub fn html_references_from(elements: &Option<Vec<HtmlElement>>) -> (result: Result<
    Vec<String>,
    String,
>)
    ensures
        match (result, document_references(parsed_models(*elements))) {
            (Ok(references), Ok(model)) => text::texts(references@) == model,
            (Err(message), Err(model)) => message@ == model,
            _ => false,
        },
{
    let list = match elements {
        Some(list) => list,
        None => {
            return Err(text::copy_of("could not initialize HTML parser"));
        },
    };
    let ghost models = element_models(list@);
    let mut references: Vec<String> = Vec::new();
    assert(text::texts(references@) =~= Seq::<Seq<char>>::empty());
    let mut i: usize = 0;
    while i < list.len()
        invariant
            i <= list.len(),
            models == element_models(list@),
            parsed_models(*elements) == Some(models),
            references_from(models, 0, Seq::empty()) == references_from(
                models,
                i as int,
                text::texts(references@),
            ),
        decreases list.len() - i,
    {
        assert(models[i as int] == list@[i as int]@);
        let counted = push_element(&mut references, &list[i]);
        assert(text::texts(references@).len() == references@.len());
        if counted && references.len() > MAX_REFERENCES {
            return Err(text::copy_of("entry document exceeds the support-reference limit"));
        }
        i += 1;
    }
    Ok(references)
}

/// The references of a fragment of HTML.
pub fn html_references(source: &str) -> (result: Result<Vec<String>, String>)
    ensures
        match (result, document_references(html_elements(source@))) {
            (Ok(references), Ok(model)) => text::texts(references@) == model,
            (Err(message), Err(model)) => message@ == model,
            _ => false,
        },
{
    html_references_from(&read_html(source))
}

} // verus!
