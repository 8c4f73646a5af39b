//! What is collected for a document: every local file that it shows, runs or styles itself with.
use vstd::prelude::*;
use crate::cli::assets::collection;
use crate::cli::assets::collection::{
    CollectAnswer, CollectionModel, EntryKind, PendingModel, StepModel,
};
use crate::cli::assets::css;
use crate::cli::assets::css::{UrlModel, ValueModel};
use crate::cli::assets::html;
use crate::cli::assets::html::ElementModel;
use crate::cli::assets::markdown;
use crate::cli::assets::markdown::ItemModel;
use crate::cli::assets::reference;
use crate::path;
use crate::text;

verus! {

// ---- HTML ----

/// Whether an element with this name shows, plays or runs what its `src` names.
pub open spec fn loads_source(name: Seq<char>) -> bool {
    ||| name == "img"@
    ||| name == "script"@
    ||| name == "source"@
    ||| name == "video"@
    ||| name == "audio"@
    ||| name == "track"@
    ||| name == "iframe"@
    ||| name == "input"@
}

/// Whether the word is the first one of the text: only ASCII white space stands before it, none in
/// it, and white space or nothing behind it.
pub open spec fn starts_with_word(s: Seq<char>, word: Seq<char>, at: int) -> bool {
    &&& 0 <= at && at + word.len() <= s.len()
    &&& word.len() > 0
    &&& s.subrange(at, at + word.len()) == word
    &&& forall|i: int| 0 <= i < at ==> is_blank_char(#[trigger] s[i])
    &&& forall|i: int| at <= i < at + word.len() ==> !is_blank_char(#[trigger] s[i])
    &&& at + word.len() < s.len() ==> is_blank_char(s[at + word.len()])
}

/// Whether a character is a space, a tab, a line feed, a form feed or a carriage return.
pub open spec fn is_blank_char(c: char) -> bool {
    c == ' ' || c == '\t' || c == '\n' || c == '\u{c}' || c == '\r'
}

/// Whether the text names data that stands in it.
pub open spec fn holds_data(srcset: Seq<char>) -> bool {
    text::has_prefix(text::lowercase(text::trimmed_start(srcset)), "data:"@)
}

/// Whether one of the words is that of a style sheet or of an icon, in any case.
pub open spec fn names_style_or_icon(rel: Seq<char>) -> bool {
    exists|i: int|
        0 <= i < html::words(rel).len() && (text::lowercase(#[trigger] html::words(rel)[i])
            == "stylesheet"@ || text::lowercase(html::words(rel)[i]) == "icon"@)
}

/// Whether the reference is one that the element makes.
pub open spec fn is_made_by(element: ElementModel, value: Seq<char>) -> bool {
    ||| loads_source(element.name) && element.src == Some(value)
    ||| element.name == "video"@ && element.poster == Some(value)
    ||| (element.name == "img"@ || element.name == "source"@) && element.srcset is Some
        && is_candidate(element.srcset->0, value)
    ||| element.name == "link"@ && element.href == Some(value) && element.rel is Some
        && names_style_or_icon(element.rel->0)
}

/// Whether the value is the first word of a candidate of the set.
pub open spec fn is_candidate(srcset: Seq<char>, value: Seq<char>) -> bool {
    exists|j: int, at: int|
        0 <= j < text::split(srcset, ',').len() && #[trigger] starts_with_word(
            text::split(srcset, ',')[j],
            value,
            at,
        )
}

proof fn lemma_open_words(s: Seq<char>, at: int, word: Seq<char>)
    requires
        starts_with_word(s, word, at),
    ensures
        html::words(s).len() > 0,
        html::words(s)[0] == word,
{
    lemma_open_word_grows(s, at, word, s.len() as int);
    assert(s.take(s.len() as int) =~= s);
}

proof fn lemma_blank_words(s: Seq<char>, n: int)
    requires
        0 <= n <= s.len(),
        forall|i: int| 0 <= i < n ==> is_blank_char(#[trigger] s[i]),
    ensures
        html::open_words(s.take(n)) == seq![Seq::<char>::empty()],
    decreases n,
{
    if n > 0 {
        lemma_blank_words(s, n - 1);
        assert(s.take(n).drop_last() =~= s.take(n - 1));
        assert(s.take(n).last() == s[n - 1]);
    }
}

proof fn lemma_open_word_grows(s: Seq<char>, at: int, word: Seq<char>, n: int)
    requires
        starts_with_word(s, word, at),
        at <= n <= s.len(),
    ensures
        html::open_words(s.take(n)).len() > 0,
        n <= at + word.len() ==> html::open_words(s.take(n)) == seq![s.subrange(at, n)],
        n > at + word.len() ==> html::open_words(s.take(n)).len() > 1 && html::open_words(
            s.take(n),
        )[0] == word,
        n == s.len() ==> html::words(s.take(n)).len() > 0 && html::words(s.take(n))[0] == word,
    decreases n,
{
    if n == at {
        lemma_blank_words(s, at);
        assert(s.subrange(at, n) =~= Seq::<char>::empty());
    } else {
        lemma_open_word_grows(s, at, word, n - 1);
        let before = html::open_words(s.take(n - 1));
        assert(s.take(n).drop_last() =~= s.take(n - 1));
        assert(s.take(n).last() == s[n - 1]);
        if n <= at + word.len() {
            assert(!is_blank_char(s[n - 1]));
            assert(before.last() =~= s.subrange(at, n - 1));
            assert(before.last().push(s[n - 1]) =~= s.subrange(at, n));
            assert(html::open_words(s.take(n)) =~= seq![s.subrange(at, n)]);
        } else if n == at + word.len() + 1 {
            assert(before =~= seq![word]);
            assert(is_blank_char(s[n - 1]));
            assert(html::open_words(s.take(n)) =~= seq![word, Seq::<char>::empty()]);
        } else {
            assert(html::open_words(s.take(n))[0] == before[0]);
        }
    }
    if n == s.len() {
        if n <= at + word.len() {
            assert(n == at + word.len());
            assert(s.subrange(at, n) == word);
        }
    }
}

/// Every text whose words are not none has a first word.
proof fn lemma_first_word(s: Seq<char>)
    requires
        html::words(s).len() > 0,
    ensures
        exists|at: int| #[trigger] starts_with_word(s, html::words(s)[0], at),
{
    let at = first_nonblank(s, 0);
    lemma_first_nonblank(s, 0);
    if at == s.len() {
        lemma_blank_words(s, s.len() as int);
        assert(s.take(s.len() as int) =~= s);
        assert(false);
    }
    let end = next_blank(s, at);
    lemma_next_blank(s, at);
    let word = s.subrange(at, end);
    assert(at + word.len() == end);
    assert(starts_with_word(s, word, at));
    lemma_open_words(s, at, word);
}

spec fn first_nonblank(s: Seq<char>, i: int) -> int
    decreases s.len() - i,
{
    if i < 0 || i >= s.len() {
        s.len() as int
    } else if is_blank_char(s[i]) {
        first_nonblank(s, i + 1)
    } else {
        i
    }
}

proof fn lemma_first_nonblank(s: Seq<char>, i: int)
    requires
        0 <= i <= s.len(),
        forall|j: int| 0 <= j < i ==> is_blank_char(#[trigger] s[j]),
    ensures
        i <= first_nonblank(s, i) <= s.len(),
        forall|j: int| 0 <= j < first_nonblank(s, i) ==> is_blank_char(#[trigger] s[j]),
        first_nonblank(s, i) < s.len() ==> !is_blank_char(s[first_nonblank(s, i)]),
    decreases s.len() - i,
{
    if i < s.len() && is_blank_char(s[i]) {
        lemma_first_nonblank(s, i + 1);
    }
}

spec fn next_blank(s: Seq<char>, i: int) -> int
    decreases s.len() - i,
{
    if i < 0 || i >= s.len() || is_blank_char(s[i]) {
        i
    } else {
        next_blank(s, i + 1)
    }
}

proof fn lemma_next_blank(s: Seq<char>, i: int)
    requires
        0 <= i <= s.len(),
    ensures
        i <= next_blank(s, i) <= s.len(),
        i < s.len() && !is_blank_char(s[i]) ==> next_blank(s, i) > i,
        forall|j: int| i <= j < next_blank(s, i) ==> !is_blank_char(#[trigger] s[j]),
        next_blank(s, i) < s.len() ==> is_blank_char(s[next_blank(s, i)]),
    decreases s.len() - i,
{
    if i < s.len() && !is_blank_char(s[i]) {
        lemma_next_blank(s, i + 1);
    }
}

proof fn lemma_candidates(candidates: Seq<Seq<char>>, count: int, j: int)
    requires
        0 <= j < count <= candidates.len(),
        html::words(candidates[j]).len() > 0,
    ensures
        html::candidate_references(candidates, count).contains(html::words(candidates[j])[0]),
    decreases count,
{
    let all = html::candidate_references(candidates, count);
    let before = html::candidate_references(candidates, count - 1);
    let value = html::words(candidates[j])[0];
    if j == count - 1 {
        assert(all[all.len() - 1] == value);
    } else {
        lemma_candidates(candidates, count - 1, j);
        let k = choose|k: int| 0 <= k < before.len() && before[k] == value;
        assert(all[k] == value);
    }
}

proof fn lemma_candidate_origin(candidates: Seq<Seq<char>>, count: int, k: int)
    requires
        0 <= count <= candidates.len(),
        0 <= k < html::candidate_references(candidates, count).len(),
    ensures
        exists|j: int|
            0 <= j < count && html::words(#[trigger] candidates[j]).len() > 0 && html::words(
                candidates[j],
            )[0] == html::candidate_references(candidates, count)[k],
    decreases count,
{
    let before = html::candidate_references(candidates, count - 1);
    if k < before.len() {
        lemma_candidate_origin(candidates, count - 1, k);
        let j = choose|j: int|
            0 <= j < count - 1 && html::words(#[trigger] candidates[j]).len() > 0 && html::words(
                candidates[j],
            )[0] == before[k];
        assert(0 <= j < count);
    } else {
        assert(html::words(candidates[count - 1]).len() > 0);
    }
}

/// Whether every value of the one list is in the other.
spec fn is_among(some: Seq<Seq<char>>, all: Seq<Seq<char>>) -> bool {
    forall|k: int| 0 <= k < some.len() ==> all.contains(#[trigger] some[k])
}

proof fn lemma_joined_contains(a: Seq<Seq<char>>, b: Seq<Seq<char>>, value: Seq<char>)
    ensures
        a.contains(value) ==> (a + b).contains(value),
        b.contains(value) ==> (a + b).contains(value),
{
    if a.contains(value) {
        let k = choose|k: int| 0 <= k < a.len() && a[k] == value;
        assert((a + b)[k] == value);
    }
    if b.contains(value) {
        let k = choose|k: int| 0 <= k < b.len() && b[k] == value;
        assert((a + b)[a.len() + k] == value);
    }
}

proof fn lemma_names_differ()
    ensures
        "link"@ != "img"@,
        "link"@ != "source"@,
        "video"@ != "img"@,
        "video"@ != "source"@,
{
    reveal_strlit("link");
    reveal_strlit("img");
    reveal_strlit("source");
    reveal_strlit("video");
    assert("link"@.len() == 4 && "img"@.len() == 3 && "source"@.len() == 6 && "video"@.len() == 5);
}

proof fn lemma_element(element: ElementModel, value: Seq<char>)
    requires
        is_made_by(element, value),
        !((element.name == "img"@ || element.name == "source"@) && element.srcset is Some
            && holds_data(element.srcset->0) && !(loads_source(element.name) && element.src
            == Some(value))),
    ensures
        html::element_references(element).contains(value),
{
    lemma_names_differ();
    let start = html::source_references(element);
    let src = html::listed(element.src, html::has_source(element.name));
    let poster = html::listed(element.poster, element.name == "video"@);
    let link = html::link_reference(element);
    if loads_source(element.name) && element.src == Some(value) {
        assert(src[0] == value);
        lemma_joined_contains(src, poster, value);
    } else if element.name == "video"@ && element.poster == Some(value) {
        assert(poster[0] == value);
        lemma_joined_contains(src, poster, value);
    } else if element.name == "link"@ && element.href == Some(value) && element.rel is Some
        && names_style_or_icon(element.rel->0) {
        assert(html::asks_for_file(element.rel->0));
        assert(link[0] == value);
    } else {
        let srcset = element.srcset->0;
        let candidates = text::split(srcset, ',');
        let (j, at) = choose|j: int, at: int|
            0 <= j < candidates.len() && #[trigger] starts_with_word(candidates[j], value, at);
        lemma_open_words(candidates[j], at, value);
        lemma_candidates(candidates, candidates.len() as int, j);
    }
    if html::has_set(element) && !html::is_data_set(element.srcset->0) {
        let set = html::set_references(element.srcset->0);
        lemma_joined_contains(start, set, value);
        lemma_joined_contains(start + set, link, value);
    } else if !html::has_set(element) {
        lemma_joined_contains(start, link, value);
    }
}

proof fn lemma_element_origin(element: ElementModel, k: int)
    requires
        0 <= k < html::element_references(element).len(),
    ensures
        is_made_by(element, html::element_references(element)[k]),
{
    let value = html::element_references(element)[k];
    let start = html::source_references(element);
    if k >= start.len() && html::has_set(element) {
        let set = html::set_references(element.srcset->0);
        if k < start.len() + set.len() {
            let candidates = text::split(element.srcset->0, ',');
            lemma_candidate_origin(candidates, candidates.len() as int, k - start.len());
            let j = choose|j: int|
                0 <= j < candidates.len() && html::words(#[trigger] candidates[j]).len() > 0
                    && html::words(candidates[j])[0] == set[k - start.len()];
            lemma_first_word(candidates[j]);
            let at = choose|at: int| #[trigger]
                starts_with_word(candidates[j], html::words(candidates[j])[0], at);
            assert(starts_with_word(candidates[j], value, at));
        }
    }
}

proof fn lemma_document(
    elements: Seq<ElementModel>,
    from: int,
    before: Seq<Seq<char>>,
    i: int,
    value: Seq<char>,
)
    requires
        0 <= from <= elements.len(),
        html::references_from(elements, from, before) is Ok,
        before.contains(value) || (from <= i < elements.len() && html::element_references(
            elements[i],
        ).contains(value)),
    ensures
        html::references_from(elements, from, before)->Ok_0.contains(value),
    decreases elements.len() - from,
{
    if from < elements.len() {
        let now = before + html::element_references(elements[from]);
        lemma_joined_contains(before, html::element_references(elements[from]), value);
        lemma_document(elements, from + 1, now, i, value);
    }
}

proof fn lemma_document_origin(
    elements: Seq<ElementModel>,
    from: int,
    before: Seq<Seq<char>>,
    k: int,
)
    requires
        0 <= from <= elements.len(),
        html::references_from(elements, from, before) is Ok,
        before.len() <= k < html::references_from(elements, from, before)->Ok_0.len(),
    ensures
        exists|i: int|
            from <= i < elements.len() && is_made_by(
                #[trigger] elements[i],
                html::references_from(elements, from, before)->Ok_0[k],
            ),
    decreases elements.len() - from,
{
    if from < elements.len() {
        let added = html::element_references(elements[from]);
        let now = before + added;
        let all = html::references_from(elements, from, before)->Ok_0;
        lemma_document_starts(elements, from + 1, now);
        if k < now.len() {
            lemma_element_origin(elements[from], k - before.len());
            assert(all[k] == now[k]);
        } else {
            lemma_document_origin(elements, from + 1, now, k);
            let i = choose|i: int|
                from + 1 <= i < elements.len() && is_made_by(#[trigger] elements[i], all[k]);
            assert(from <= i < elements.len());
        }
    }
}

proof fn lemma_document_starts(elements: Seq<ElementModel>, from: int, before: Seq<Seq<char>>)
    requires
        0 <= from <= elements.len(),
        html::references_from(elements, from, before) is Ok,
    ensures
        ({
            let all = html::references_from(elements, from, before)->Ok_0;
            &&& all.len() >= before.len()
            &&& forall|k: int| 0 <= k < before.len() ==> #[trigger] all[k] == before[k]
        }),
    decreases elements.len() - from,
{
    if from < elements.len() {
        let now = before + html::element_references(elements[from]);
        lemma_document_starts(elements, from + 1, now);
        let all = html::references_from(elements, from, before)->Ok_0;
        assert forall|k: int| 0 <= k < before.len() implies #[trigger] all[k] == before[k] by {
            assert(all[k] == now[k]);
        }
    }
}

/// Where the references of a document are found, the `src` of every `img`, `script`, `source`,
/// `video`, `audio`, `track`, `iframe` and `input` is among them; so is the `poster` of every
/// `video`, the address of every candidate in the `srcset` of an `img` or a `source` that does not
/// hold data, and the `href` of every `link` whose `rel` names a style sheet or an icon.
pub proof fn law_documents_refer_to_what_they_load(
    elements: Seq<ElementModel>,
    references: Seq<Seq<char>>,
    i: int,
    value: Seq<char>,
)
    requires
        html::document_references(Some(elements)) == Ok::<Seq<Seq<char>>, Seq<char>>(references),
        0 <= i < elements.len(),
    ensures
        elements[i].name == "img"@ && elements[i].src == Some(value) ==> references.contains(value),
        elements[i].name == "script"@ && elements[i].src == Some(value) ==> references.contains(
            value,
        ),
        elements[i].name == "source"@ && elements[i].src == Some(value) ==> references.contains(
            value,
        ),
        elements[i].name == "video"@ && elements[i].src == Some(value) ==> references.contains(
            value,
        ),
        elements[i].name == "audio"@ && elements[i].src == Some(value) ==> references.contains(
            value,
        ),
        elements[i].name == "track"@ && elements[i].src == Some(value) ==> references.contains(
            value,
        ),
        elements[i].name == "iframe"@ && elements[i].src == Some(value) ==> references.contains(
            value,
        ),
        elements[i].name == "input"@ && elements[i].src == Some(value) ==> references.contains(
            value,
        ),
        elements[i].name == "video"@ && elements[i].poster == Some(value) ==> references.contains(
            value,
        ),
        (elements[i].name == "img"@ || elements[i].name == "source"@) && elements[i].srcset is Some
            && !holds_data(elements[i].srcset->0) && is_candidate(elements[i].srcset->0, value)
            ==> references.contains(value),
        elements[i].name == "link"@ && elements[i].href == Some(value) && elements[i].rel is Some
            && names_style_or_icon(elements[i].rel->0) ==> references.contains(value),
{
    lemma_names_differ();
    let element = elements[i];
    if is_made_by(element, value) && !((element.name == "img"@ || element.name == "source"@)
        && element.srcset is Some && holds_data(element.srcset->0) && !(loads_source(element.name)
        && element.src == Some(value))) {
        lemma_element(element, value);
        lemma_document(elements, 0, Seq::empty(), i, value);
    }
}

/// Nothing else is referred to: every reference of a document is the `src`, the `poster`, a
/// candidate of the `srcset`, or the `href` of one of its elements, of the name that makes it count.
pub proof fn law_documents_refer_to_nothing_else(
    elements: Seq<ElementModel>,
    references: Seq<Seq<char>>,
    k: int,
)
    requires
        html::document_references(Some(elements)) == Ok::<Seq<Seq<char>>, Seq<char>>(references),
        0 <= k < references.len(),
    ensures
        exists|i: int| 0 <= i < elements.len() && is_made_by(#[trigger] elements[i], references[k]),
{
    lemma_document_origin(elements, 0, Seq::empty(), k);
}

// ---- Markdown ----

proof fn lemma_items(
    items: Seq<ItemModel>,
    from: int,
    before: Seq<Seq<char>>,
    i: int,
    value: Seq<char>,
)
    requires
        0 <= from <= items.len(),
        markdown::references_from(items, from, before) is Ok,
        before.contains(value) || (from <= i < items.len() && (markdown::added_references(items[i])
            is Ok ==> markdown::added_references(items[i])->Ok_0.contains(value))),
    ensures
        markdown::references_from(items, from, before)->Ok_0.contains(value),
    decreases items.len() - from,
{
    if from < items.len() {
        let added = markdown::added_references(items[from])->Ok_0;
        lemma_joined_contains(before, added, value);
        lemma_items(items, from + 1, before + added, i, value);
    }
}

/// Where the references of a Markdown document are found, the destination of every image is among
/// them, and so is what its pieces of HTML refer to; and there are 512 at most.
pub proof fn law_markdown_refers_to_its_images(
    items: Seq<ItemModel>,
    references: Seq<Seq<char>>,
    i: int,
    value: Seq<char>,
)
    requires
        markdown::references_from(items, 0, Seq::empty()) == Ok::<Seq<Seq<char>>, Seq<char>>(
            references,
        ),
        0 <= i < items.len(),
    ensures
        items[i] == ItemModel::Image(value) ==> references.contains(value),
        items[i] matches ItemModel::Html(elements) ==> (html::document_references(elements) matches
            Ok(found) ==> (found.contains(value) ==> references.contains(value))),
        references.len() <= 512,
{
    match items[i] {
        ItemModel::Image(destination) => {
            assert(seq![destination][0] == destination);
            if destination == value {
                assert(markdown::added_references(items[i])->Ok_0.contains(value));
                lemma_items(items, 0, Seq::empty(), i, value);
            }
        },
        ItemModel::Html(elements) => {
            if let Ok(found) = html::document_references(elements) {
                if found.contains(value) {
                    lemma_items(items, 0, Seq::empty(), i, value);
                }
            }
        },
        ItemModel::Other => {},
    }
    lemma_items_bounded(items, 0, Seq::empty());
}

proof fn lemma_items_bounded(items: Seq<ItemModel>, from: int, before: Seq<Seq<char>>)
    requires
        0 <= from <= items.len(),
        before.len() <= 512,
    ensures
        markdown::references_from(items, from, before) matches Ok(found) ==> found.len() <= 512,
    decreases items.len() - from,
{
    if from < items.len() {
        if let Ok(added) = markdown::added_references(items[from]) {
            if (before + added).len() <= 512 {
                lemma_items_bounded(items, from + 1, before + added);
            }
        }
    }
}

// ---- CSS ----

/// Whether the tokens before the place make sense, and the place is not inside the argument of a
/// `url` function.
pub open spec fn is_outside(tokens: Seq<(ValueModel, Seq<char>)>, i: int) -> bool {
    css::scanned(tokens, i) matches Some(scan) && scan.url is Outside
}

proof fn lemma_scan_keeps(tokens: Seq<(ValueModel, Seq<char>)>, i: int, n: int, value: Seq<char>)
    requires
        0 <= i <= n,
        css::scanned(tokens, n) is Some,
    ensures
        css::scanned(tokens, i) is Some,
        css::scanned(tokens, i)->0.references.contains(value) ==> css::scanned(
            tokens,
            n,
        )->0.references.contains(value),
    decreases n - i,
{
    if i < n {
        let before = css::scanned(tokens, n - 1)->0;
        let after = css::scanned(tokens, n)->0;
        lemma_scan_keeps(tokens, i, n - 1, value);
        if before.references.contains(value) {
            let k = choose|k: int| 0 <= k < before.references.len() && before.references[k] == value;
            assert(after.references[k] == value);
        }
    }
}

proof fn lemma_scan_ends(tokens: Seq<(ValueModel, Seq<char>)>, n: int, value: Seq<char>)
    requires
        0 <= n <= tokens.len(),
        css::token_references(tokens) is Ok,
        css::scanned(tokens, n) matches Some(scan) && scan.references.contains(value),
    ensures
        css::token_references(tokens)->Ok_0.contains(value),
{
    let end = tokens.len() as int;
    lemma_scan_keeps(tokens, n, end, value);
    let scan = css::scanned(tokens, end)->0;
    let all = css::token_references(tokens)->Ok_0;
    let k = choose|k: int| 0 <= k < scan.references.len() && scan.references[k] == value;
    assert(all[k] == value);
}

proof fn lemma_spaces(tokens: Seq<(ValueModel, Seq<char>)>, i: int, j: int)
    requires
        0 <= i <= j <= tokens.len(),
        css::scanned(tokens, i) is Some,
        forall|k: int| i <= k < j ==> (#[trigger] tokens[k]).0 is Space,
    ensures
        css::scanned(tokens, j) == css::scanned(tokens, i),
    decreases j - i,
{
    if i < j {
        lemma_spaces(tokens, i, j - 1);
        assert(tokens[j - 1].0 is Space);
    }
}

/// Where the references of CSS are found, the address of every unquoted `url()` is among them, and
/// so is the string that follows an `@import`, in any case and after any white space, and the string
/// of every `url()`; and there are 512 at most.
pub proof fn law_css_refers_to_what_it_loads(
    tokens: Seq<(ValueModel, Seq<char>)>,
    references: Seq<Seq<char>>,
    i: int,
    j: int,
    value: Seq<char>,
)
    requires
        css::token_references(tokens) == Ok::<Seq<Seq<char>>, Seq<char>>(references),
        0 <= i < tokens.len(),
        is_outside(tokens, i),
        i < j < tokens.len(),
        forall|k: int| i < k < j ==> (#[trigger] tokens[k]).0 is Space,
    ensures
        tokens[i].0 == ValueModel::Url(value) ==> references.contains(value),
        (tokens[i].0 matches ValueModel::AtKeyword(name) && text::lowercase(name) == "import"@)
            && tokens[j].0 == ValueModel::Quoted(value) ==> references.contains(value),
        (tokens[i].0 matches ValueModel::Function(name) && text::lowercase(name) == "url"@)
            && tokens[j].0 == ValueModel::Quoted(value) && j + 1 < tokens.len() && tokens[j + 1].0
            is Other && tokens[j + 1].1 == ")"@ ==> references.contains(value),
        (tokens[i].0 matches ValueModel::Function(name) && text::lowercase(name) == "url"@)
            && tokens[j].0 == ValueModel::Quoted(value) && j + 1 == tokens.len()
            ==> references.contains(value),
{
    let end = tokens.len() as int;
    lemma_scan_keeps(tokens, i + 1, end, value);
    lemma_scan_keeps(tokens, j, end, value);
    lemma_scan_keeps(tokens, j + 1, end, value);
    let scan = css::scanned(tokens, i)->0;
    let next = css::scanned(tokens, i + 1)->0;
    lemma_spaces(tokens, i + 1, j);
    if tokens[i].0 == ValueModel::Url(value) {
        assert(next.references[scan.references.len() as int] == value);
        lemma_scan_ends(tokens, i + 1, value);
    }
    if (tokens[i].0 matches ValueModel::AtKeyword(name) && text::lowercase(name) == "import"@)
        && tokens[j].0 == ValueModel::Quoted(value) {
        let then = css::scanned(tokens, j + 1)->0;
        assert(then.references[scan.references.len() as int] == value);
        lemma_scan_ends(tokens, j + 1, value);
    }
    if (tokens[i].0 matches ValueModel::Function(name) && text::lowercase(name) == "url"@)
        && tokens[j].0 == ValueModel::Quoted(value) {
        let then = css::scanned(tokens, j + 1)->0;
        assert(then.url == UrlModel::Complete(value));
        if j + 1 < tokens.len() && tokens[j + 1].0 is Other && tokens[j + 1].1 == ")"@ {
            lemma_scan_keeps(tokens, j + 2, end, value);
            let last = css::scanned(tokens, j + 2)->0;
            assert(last.references[scan.references.len() as int] == value);
            lemma_scan_ends(tokens, j + 2, value);
        } else if j + 1 == tokens.len() {
            assert(references[scan.references.len() as int] == value);
        }
    }
}

// ---- which files ----

proof fn lemma_last_dot(stem: Seq<char>, ending: Seq<char>)
    requires
        !ending.contains('.'),
    ensures
        path::last_dot(stem + seq!['.'] + ending) == Some(stem.len() as int),
    decreases ending.len(),
{
    let name = stem + seq!['.'] + ending;
    if ending.len() > 0 {
        let shorter = ending.drop_last();
        assert(!shorter.contains('.')) by {
            if shorter.contains('.') {
                let k = choose|k: int| 0 <= k < shorter.len() && shorter[k] == '.';
                assert(ending[k] == '.');
            }
        }
        assert(ending.contains(ending.last()));
        lemma_last_dot(stem, shorter);
        assert(name.drop_last() =~= stem + seq!['.'] + shorter);
    } else {
        assert(name.last() == '.');
    }
}

proof fn lemma_whole_name(name: Seq<char>)
    requires
        !name.contains('/'),
    ensures
        text::split(name, '/') == seq![name],
    decreases name.len(),
{
    if name.len() > 0 {
        let shorter = name.drop_last();
        assert(!shorter.contains('/')) by {
            if shorter.contains('/') {
                let k = choose|k: int| 0 <= k < shorter.len() && shorter[k] == '/';
                assert(name[k] == '/');
            }
        }
        assert(name.contains(name.last()));
        lemma_whole_name(shorter);
        assert(shorter.push(name.last()) =~= name);
        assert(text::split(name, '/') =~= seq![name]);
    } else {
        assert(name =~= Seq::<char>::empty());
    }
}

/// What follows the last dot of a name is its extension, wherever the file stands.
pub proof fn law_extensions_follow_the_last_dot(
    directory: Seq<char>,
    stem: Seq<char>,
    ending: Seq<char>,
)
    requires
        stem.len() > 0,
        !stem.contains('/'),
        ending.len() > 0,
        !ending.contains('/'),
        !ending.contains('.'),
    ensures
        path::extension(stem + seq!['.'] + ending) == Some(ending),
        path::extension(directory + seq!['/'] + (stem + seq!['.'] + ending)) == Some(ending),
{
    let name = stem + seq!['.'] + ending;
    assert(!name.contains('/')) by {
        if name.contains('/') {
            let k = choose|k: int| 0 <= k < name.len() && name[k] == '/';
            if k < stem.len() {
                assert(stem[k] == '/');
            } else {
                assert(ending[k - stem.len() - 1] == '/');
            }
        }
    }
    lemma_last_dot(stem, ending);
    assert(name.skip(stem.len() as int + 1) =~= ending);
    assert(name.len() >= 3);
    lemma_whole_name(name);
    assert(seq![name].last() == name);
    assert(path::file_name(name) == Some(name));
    reference::lemma_split_after(directory, name);
    let whole = directory + seq!['/'] + name;
    assert(text::split(whole, '/').last() == name);
    assert(path::file_name(whole) == Some(name));
}

/// Whether files with this extension can be part of a page.
pub open spec fn is_part_of_pages(name: Seq<char>) -> bool {
    ||| name == "css"@
    ||| name == "js"@
    ||| name == "mjs"@
    ||| name == "json"@
    ||| name == "wasm"@
    ||| name == "png"@
    ||| name == "jpg"@
    ||| name == "jpeg"@
    ||| name == "gif"@
    ||| name == "webp"@
    ||| name == "avif"@
    ||| name == "ico"@
    ||| name == "svg"@
    ||| name == "mp3"@
    ||| name == "wav"@
    ||| name == "ogg"@
    ||| name == "m4a"@
    ||| name == "mp4"@
    ||| name == "webm"@
    ||| name == "woff"@
    ||| name == "woff2"@
    ||| name == "ttf"@
    ||| name == "otf"@
}

/// The files that a page can be made of are collected: style sheets, scripts, data, WebAssembly,
/// images, sound, video and fonts, in any case of the extension; and no other file is.
pub proof fn law_parts_of_pages_are_collected(location: Seq<char>, ending: Seq<char>)
    requires
        path::extension(location) == Some(ending),
    ensures
        text::lowercase(ending) == "css"@ ==> collection::is_supported(location),
        text::lowercase(ending) == "js"@ ==> collection::is_supported(location),
        text::lowercase(ending) == "mjs"@ ==> collection::is_supported(location),
        text::lowercase(ending) == "json"@ ==> collection::is_supported(location),
        text::lowercase(ending) == "wasm"@ ==> collection::is_supported(location),
        text::lowercase(ending) == "png"@ ==> collection::is_supported(location),
        text::lowercase(ending) == "jpg"@ ==> collection::is_supported(location),
        text::lowercase(ending) == "jpeg"@ ==> collection::is_supported(location),
        text::lowercase(ending) == "gif"@ ==> collection::is_supported(location),
        text::lowercase(ending) == "webp"@ ==> collection::is_supported(location),
        text::lowercase(ending) == "avif"@ ==> collection::is_supported(location),
        text::lowercase(ending) == "ico"@ ==> collection::is_supported(location),
        text::lowercase(ending) == "svg"@ ==> collection::is_supported(location),
        text::lowercase(ending) == "mp3"@ ==> collection::is_supported(location),
        text::lowercase(ending) == "wav"@ ==> collection::is_supported(location),
        text::lowercase(ending) == "ogg"@ ==> collection::is_supported(location),
        text::lowercase(ending) == "m4a"@ ==> collection::is_supported(location),
        text::lowercase(ending) == "mp4"@ ==> collection::is_supported(location),
        text::lowercase(ending) == "webm"@ ==> collection::is_supported(location),
        text::lowercase(ending) == "woff"@ ==> collection::is_supported(location),
        text::lowercase(ending) == "woff2"@ ==> collection::is_supported(location),
        text::lowercase(ending) == "ttf"@ ==> collection::is_supported(location),
        text::lowercase(ending) == "otf"@ ==> collection::is_supported(location),
        collection::is_supported(location) ==> is_part_of_pages(text::lowercase(ending)),
        collection::is_css(location) <==> text::lowercase(ending) == "css"@,
{
}

/// A file without an extension is not collected.
pub proof fn law_bare_names_are_not_collected(location: Seq<char>)
    requires
        path::extension(location) is None,
    ensures
        !collection::is_supported(location),
        !collection::is_css(location),
{
}

proof fn lemma_kinds_differ()
    ensures
        "md"@ != "html"@,
        "md"@ != "htm"@,
        "markdown"@ != "html"@,
        "markdown"@ != "htm"@,
{
    reveal_strlit("md");
    reveal_strlit("markdown");
    reveal_strlit("html");
    reveal_strlit("htm");
    assert("md"@.len() == 2 && "markdown"@.len() == 8 && "html"@.len() == 4 && "htm"@.len() == 3);
}

/// A document whose name ends in `md` or `markdown` is read as Markdown, one that ends in `html` or
/// `htm` as HTML, in any case; for no other is anything collected.
pub proof fn law_documents_are_read_by_their_extension(extension: Option<Seq<u8>>, name: Seq<char>)
    ensures
        (extension matches Some(bytes) && vstd::utf8::valid_utf8(bytes) && text::lowercase(
            vstd::utf8::decode_utf8(bytes),
        ) == name) ==> {
            &&& name == "md"@ || name == "markdown"@ <==> collection::kind_of_extension(extension)
                == EntryKind::Markdown
            &&& name == "html"@ || name == "htm"@ <==> collection::kind_of_extension(extension)
                == EntryKind::Html
        },
        extension is None ==> collection::kind_of_extension(extension) == EntryKind::Other,
        forall|source: Seq<char>| #[trigger]
            collection::document_references(EntryKind::Other, source) == Ok::<
                Seq<Seq<char>>,
                Seq<char>,
            >(Seq::empty()),
{
    lemma_kinds_differ();
}

// ---- a whole collection ----

/// Whether these are the states and the answers of one collection, step by step.
pub open spec fn is_collected(
    root: Seq<u8>,
    references: Seq<Seq<char>>,
    states: Seq<CollectionModel>,
    answers: Seq<CollectAnswer>,
) -> bool {
    &&& states.len() == answers.len() + 1
    &&& states[0] == collection::collection_start(root, references)
    &&& forall|k: int|
        0 <= k < answers.len() ==> states[k + 1] == collection::collection_after(
            states[k],
            #[trigger] answers[k],
        )
}

/// Whether the reference in a document of the directory is still to be followed.
spec fn waits(pending: Seq<PendingModel>, value: Seq<char>, base: Seq<char>) -> bool {
    exists|i: int|
        0 <= i < pending.len() && (#[trigger] pending[i]).reference == value && pending[i].base
            == base
}

/// Whether the reference names no local file, or one of the files.
pub open spec fn is_served(files: Seq<Seq<char>>, value: Seq<char>, base: Seq<char>) -> bool {
    match reference::normalized(value, base) {
        Ok(Some(location)) => files.contains(location),
        Ok(None) => true,
        Err(_) => false,
    }
}

spec fn is_covered(state: CollectionModel, value: Seq<char>, base: Seq<char>) -> bool {
    state.step is Failed || waits(state.pending, value, base) || is_served(state.seen, value, base)
}

/// The support path at hand.
spec fn at_hand(step: StepModel) -> Option<Seq<char>> {
    match step {
        StepModel::Resolve(location) => Some(location),
        StepModel::Open(location) => Some(location),
        StepModel::ReadCss(location) => Some(location),
        _ => None,
    }
}

spec fn all_taken(state: CollectionModel) -> bool {
    state.step is Failed || forall|j: int|
        0 <= j < state.seen.len() ==> state.assets.contains(#[trigger] state.seen[j]) || at_hand(
            state.step,
        ) == Some(state.seen[j])
}

/// Whether every path that was seen was taken.
spec fn seen_are_taken(state: CollectionModel) -> bool {
    forall|j: int| 0 <= j < state.seen.len() ==> state.assets.contains(#[trigger] state.seen[j])
}

proof fn lemma_settled(state: CollectionModel, value: Seq<char>, base: Seq<char>)
    requires
        seen_are_taken(state),
    ensures
        waits(state.pending, value, base) || is_served(state.seen, value, base) ==> is_covered(
            collection::settled(state),
            value,
            base,
        ),
        all_taken(collection::settled(state)),
        collection::settled(state).step is Done ==> collection::settled(state).pending.len() == 0,
    decreases state.pending.len(),
{
    if state.pending.len() > 0 {
        let item = state.pending.last();
        let taken = CollectionModel {
            pending: state.pending.drop_last(),
            followed: state.followed + 1,
            depth: item.depth,
            ..state
        };
        if waits(state.pending, value, base) {
            let i = choose|i: int|
                0 <= i < state.pending.len() && (#[trigger] state.pending[i]).reference == value
                    && state.pending[i].base == base;
            if i < state.pending.len() - 1 {
                assert(taken.pending[i] == state.pending[i]);
                assert(waits(taken.pending, value, base));
            } else {
                assert(item.reference == value && item.base == base);
            }
        }
        lemma_settled(taken, value, base);
        if let Ok(Some(location)) = reference::normalized(item.reference, item.base) {
            let seen = state.seen.push(location);
            assert(seen[state.seen.len() as int] == location);
            assert forall|x: Seq<char>| state.seen.contains(x) implies seen.contains(x) by {
                let k = choose|k: int| 0 <= k < state.seen.len() && state.seen[k] == x;
                assert(seen[k] == x);
            }
        }
    }
}

proof fn lemma_more_taken(state: CollectionModel, location: Seq<char>)
    requires
        all_taken(state),
        at_hand(state.step) == Some(location),
    ensures
        seen_are_taken(collection::with_asset(state, location)),
{
    let assets = state.assets.push(location);
    assert(assets[state.assets.len() as int] == location);
    assert forall|j: int| 0 <= j < state.seen.len() implies assets.contains(
        #[trigger] state.seen[j],
    ) by {
        if state.assets.contains(state.seen[j]) {
            let k = choose|k: int| 0 <= k < state.assets.len() && state.assets[k] == state.seen[j];
            assert(assets[k] == state.seen[j]);
        }
    }
}

proof fn lemma_waits_more(
    pending: Seq<PendingModel>,
    more: Seq<PendingModel>,
    value: Seq<char>,
    base: Seq<char>,
)
    ensures
        waits(pending, value, base) || waits(more, value, base) ==> waits(
            pending + more,
            value,
            base,
        ),
{
    if waits(pending, value, base) {
        let i = choose|i: int|
            0 <= i < pending.len() && (#[trigger] pending[i]).reference == value && pending[i].base
                == base;
        assert((pending + more)[i] == pending[i]);
    }
    if waits(more, value, base) {
        let i = choose|i: int|
            0 <= i < more.len() && (#[trigger] more[i]).reference == value && more[i].base == base;
        assert((pending + more)[pending.len() + i] == more[i]);
    }
}

proof fn lemma_stacked(references: Seq<Seq<char>>, base: Seq<char>, depth: usize, i: int)
    requires
        0 <= i < references.len(),
    ensures
        waits(collection::stacked(references, base, depth), references[i], base),
{
    let stack = collection::stacked(references, base, depth);
    let at = references.len() - 1 - i;
    assert(stack[at].reference == references[i]);
}

proof fn lemma_collection_step(
    state: CollectionModel,
    answer: CollectAnswer,
    value: Seq<char>,
    base: Seq<char>,
)
    requires
        all_taken(state),
        state.step is Done ==> state.pending.len() == 0,
    ensures
        all_taken(collection::collection_after(state, answer)),
        is_covered(state, value, base) ==> is_covered(
            collection::collection_after(state, answer),
            value,
            base,
        ),
        collection::collection_after(state, answer).step is Done ==> collection::collection_after(
            state,
            answer,
        ).pending.len() == 0,
{
    match (state.step, answer) {
        (StepModel::Open(location), CollectAnswer::Opened(opened)) => {
            lemma_more_taken(state, location);
            lemma_settled(collection::with_asset(state, location), value, base);
        },
        (StepModel::ReadCss(location), CollectAnswer::Css(Ok(tokens))) => {
            lemma_more_taken(state, location);
            if let Ok(found) = css::token_references(css::token_models(tokens@)) {
                let more = collection::stacked(
                    found,
                    collection::directory_of(location),
                    (state.depth + 1) as usize,
                );
                let then = CollectionModel {
                    pending: state.pending + more,
                    ..collection::with_asset(state, location)
                };
                lemma_waits_more(state.pending, more, value, base);
                lemma_settled(then, value, base);
            }
        },
        _ => {},
    }
}

proof fn lemma_collection(
    root: Seq<u8>,
    references: Seq<Seq<char>>,
    states: Seq<CollectionModel>,
    answers: Seq<CollectAnswer>,
    from: int,
    n: int,
    value: Seq<char>,
    base: Seq<char>,
)
    requires
        is_collected(root, references, states, answers),
        0 <= from <= n < states.len(),
    ensures
        all_taken(states[n]),
        states[n].step is Done ==> states[n].pending.len() == 0,
        is_covered(states[from], value, base) ==> is_covered(states[n], value, base),
    decreases n,
{
    if n > 0 {
        lemma_collection(
            root,
            references,
            states,
            answers,
            if from < n {
                from
            } else {
                n - 1
            },
            n - 1,
            value,
            base,
        );
        assert(states[n] == collection::collection_after(states[n - 1], answers[n - 1]));
        lemma_collection_step(states[n - 1], answers[n - 1], value, base);
    } else {
        let start = CollectionModel {
            root,
            pending: collection::stacked(references, Seq::empty(), 0),
            seen: Seq::empty(),
            assets: Seq::empty(),
            followed: 0,
            depth: 0,
            step: StepModel::Done,
        };
        lemma_settled(start, value, base);
    }
}

proof fn lemma_served_when_done(state: CollectionModel, value: Seq<char>, base: Seq<char>)
    requires
        state.step is Done,
        state.pending.len() == 0,
        all_taken(state),
        is_covered(state, value, base),
    ensures
        is_served(state.assets, value, base),
{
    if let Ok(Some(location)) = reference::normalized(value, base) {
        let j = choose|j: int| 0 <= j < state.seen.len() && state.seen[j] == location;
        assert(state.assets.contains(state.seen[j]));
    }
}

/// A collection that comes to its end has collected every local file that the document refers to;
/// no reference was refused.
pub proof fn law_local_references_are_collected(
    root: Seq<u8>,
    references: Seq<Seq<char>>,
    states: Seq<CollectionModel>,
    answers: Seq<CollectAnswer>,
    i: int,
)
    requires
        is_collected(root, references, states, answers),
        states.last().step is Done,
        0 <= i < references.len(),
    ensures
        is_served(states.last().assets, references[i], Seq::empty()),
{
    let base = Seq::<char>::empty();
    let value = references[i];
    let start = CollectionModel {
        root,
        pending: collection::stacked(references, base, 0),
        seen: Seq::empty(),
        assets: Seq::empty(),
        followed: 0,
        depth: 0,
        step: StepModel::Done,
    };
    lemma_stacked(references, base, 0, i);
    lemma_settled(start, value, base);
    lemma_collection(root, references, states, answers, 0, states.len() - 1, value, base);
    lemma_served_when_done(states.last(), value, base);
}

/// A collection that comes to its end has collected every local file that the CSS which it read
/// refers to, from the directory of that CSS.
pub proof fn law_css_references_are_collected(
    root: Seq<u8>,
    references: Seq<Seq<char>>,
    states: Seq<CollectionModel>,
    answers: Seq<CollectAnswer>,
    k: int,
    location: Seq<char>,
    tokens: Vec<css::CssToken>,
    found: Seq<Seq<char>>,
    i: int,
)
    requires
        is_collected(root, references, states, answers),
        states.last().step is Done,
        0 <= k < answers.len(),
        states[k].step == StepModel::ReadCss(location),
        answers[k] == CollectAnswer::Css(Ok(tokens)),
        css::token_references(css::token_models(tokens@)) == Ok::<Seq<Seq<char>>, Seq<char>>(found),
        0 <= i < found.len(),
    ensures
        is_served(states.last().assets, found[i], collection::directory_of(location)),
        states.last().assets.contains(location),
{
    let base = collection::directory_of(location);
    let value = found[i];
    let state = states[k];
    lemma_collection(root, references, states, answers, k, k, value, base);
    lemma_more_taken(state, location);
    let more = collection::stacked(found, base, (state.depth + 1) as usize);
    let then = CollectionModel {
        pending: state.pending + more,
        ..collection::with_asset(state, location)
    };
    lemma_stacked(found, base, (state.depth + 1) as usize, i);
    lemma_waits_more(state.pending, more, value, base);
    lemma_settled(then, value, base);
    assert(states[k + 1] == collection::collection_after(state, answers[k]));
    assert(states[k + 1] == collection::settled(then));
    lemma_collection(root, references, states, answers, k + 1, states.len() - 1, value, base);
    lemma_served_when_done(states.last(), value, base);
    lemma_assets_grow(root, references, states, answers, k + 1, states.len() - 1, location);
    assert(then.assets[state.assets.len() as int] == location);
    lemma_settled_assets(then);
}

proof fn lemma_settled_assets(state: CollectionModel)
    ensures
        collection::settled(state).assets == state.assets,
    decreases state.pending.len(),
{
    if state.pending.len() > 0 {
        let item = state.pending.last();
        lemma_settled_assets(
            CollectionModel {
                pending: state.pending.drop_last(),
                followed: state.followed + 1,
                depth: item.depth,
                ..state
            },
        );
    }
}

proof fn lemma_assets_grow(
    root: Seq<u8>,
    references: Seq<Seq<char>>,
    states: Seq<CollectionModel>,
    answers: Seq<CollectAnswer>,
    from: int,
    n: int,
    location: Seq<char>,
)
    requires
        is_collected(root, references, states, answers),
        0 <= from <= n < states.len(),
    ensures
        states[from].assets.contains(location) ==> states[n].assets.contains(location),
    decreases n - from,
{
    if from < n {
        lemma_assets_grow(root, references, states, answers, from, n - 1, location);
        let state = states[n - 1];
        assert(states[n] == collection::collection_after(state, answers[n - 1]));
        match (state.step, answers[n - 1]) {
            (StepModel::Open(at), CollectAnswer::Opened(opened)) => {
                lemma_settled_assets(collection::with_asset(state, at));
            },
            (StepModel::ReadCss(at), CollectAnswer::Css(Ok(tokens))) => {
                if let Ok(found) = css::token_references(css::token_models(tokens@)) {
                    lemma_settled_assets(
                        CollectionModel {
                            pending: state.pending + collection::stacked(
                                found,
                                collection::directory_of(at),
                                (state.depth + 1) as usize,
                            ),
                            ..collection::with_asset(state, at)
                        },
                    );
                }
            },
            _ => {},
        }
        if state.assets.contains(location) {
            let k = choose|k: int| 0 <= k < state.assets.len() && state.assets[k] == location;
            assert(states[n].assets[k] == location);
        }
    }
}

} // verus!
