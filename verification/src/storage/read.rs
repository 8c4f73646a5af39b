//! Reading posts back: pages, cursors and the assembly of stored rows.
use vstd::prelude::*;
use vstd::utf8::*;
use crate::number;
use crate::storage::blob;
use crate::storage::blob::{BlobHash, BlobRecord};
use crate::storage::classification::ArtifactRenderer;
use crate::storage::error::StoreError;
use crate::text;

verus! {

/// The number of posts on a page where none is asked for.
pub const DEFAULT_PAGE_LIMIT: u32 = 20;

/// The largest number of posts on a page.
pub const MAX_PAGE_LIMIT: u32 = 100;

/// Which page is wanted: how many posts, and after which one.
#[derive(Debug, PartialEq, Eq)]
pub struct PageRequest {
    pub limit: Option<u32>,
    pub cursor: Option<String>,
}

impl Default for PageRequest {
    fn default() -> (request: Self)
        ensures
            request == (PageRequest { limit: None, cursor: None }),
    {
        PageRequest { limit: None, cursor: None }
    }
}

#[derive(Debug, PartialEq, Eq)]
pub struct ProjectRead {
    pub id: i64,
    pub label: String,
    pub working_directory: String,
}

#[derive(Debug, PartialEq, Eq)]
pub struct SessionRead {
    pub id: i64,
    pub public_id: String,
    pub integration_namespace: String,
    pub external_key: String,
    pub project: ProjectRead,
    pub created_at: i64,
    pub last_activity_at: i64,
}

#[derive(Debug, PartialEq, Eq)]
pub struct BlobRead {
    pub hash: String,
    pub byte_size: u64,
}

#[derive(Debug, PartialEq, Eq)]
pub struct SupportAssetRead {
    pub relative_path: String,
    pub blob: BlobRead,
}

#[derive(Debug, PartialEq, Eq)]
pub struct PostFileRead {
    pub position: u32,
    pub filename: String,
    pub caption: Option<String>,
    pub media_type: String,
    pub renderer: ArtifactRenderer,
    pub blob: BlobRead,
    pub support_assets: Vec<SupportAssetRead>,
}

/// Where a publication was made: the root of its Git work tree, its branch and its commit.
#[derive(Debug, PartialEq, Eq)]
pub struct GitProvenance {
    pub root: String,
    pub branch: Option<String>,
    pub commit: Option<String>,
}

#[derive(Debug, PartialEq, Eq)]
pub struct PostRead {
    pub id: i64,
    pub session_id: i64,
    pub session_public_id: String,
    pub title: String,
    pub commentary: String,
    pub predecessor_post_id: Option<i64>,
    pub published_at: i64,
    pub git: Option<GitProvenance>,
    pub files: Vec<PostFileRead>,
}

#[derive(Debug, PartialEq, Eq)]
pub struct PostPage {
    pub posts: Vec<PostRead>,
    pub next_cursor: Option<String>,
}

/// A copy of an optional string.
pub fn copy_optional(value: &Option<String>) -> (copy: Option<String>)
    ensures
        text::optional(copy) == text::optional(*value),
{
    match value {
        Some(content) => Some(text::copy_of(content.as_str())),
        None => None,
    }
}

/// Whether the text is there and its UTF-8 form has one to `limit` bytes.
pub open spec fn fits(value: Seq<char>, limit: nat) -> bool {
    1 <= encode_utf8(value).len() <= limit
}

/// Whether the provenance is within the supported lengths: a root of at most 4096 bytes, a branch
/// of at most 1024 and a commit of at most 128, none of them empty.
pub open spec fn is_valid_provenance(
    root: Seq<char>,
    branch: Option<Seq<char>>,
    commit: Option<Seq<char>>,
) -> bool {
    &&& fits(root, 4096)
    &&& branch matches Some(name) ==> fits(name, 1024)
    &&& commit matches Some(name) ==> fits(name, 128)
}

impl GitProvenance {
    /// Whether the provenance is within the supported lengths.
    pub fn is_valid(&self) -> (yes: bool)
        ensures
            yes == is_valid_provenance(
                self.root@,
                text::optional(self.branch),
                text::optional(self.commit),
            ),
    {
        let root_len: usize = text::byte_len(self.root.as_str());
        let root_fits = 1 <= root_len && root_len <= 4096;
        let branch_fits = match &self.branch {
            Some(name) => {
                let len: usize = text::byte_len(name.as_str());
                1 <= len && len <= 1024
            },
            None => true,
        };
        let commit_fits = match &self.commit {
            Some(name) => {
                let len: usize = text::byte_len(name.as_str());
                1 <= len && len <= 128
            },
            None => true,
        };
        root_fits && branch_fits && commit_fits
    }
}

/// The parts of an optional provenance.
pub open spec fn git_parts(git: Option<GitProvenance>) -> Option<
    (Seq<char>, Option<Seq<char>>, Option<Seq<char>>),
> {
    match git {
        Some(provenance) => Some(
            (
                provenance.root@,
                text::optional(provenance.branch),
                text::optional(provenance.commit),
            ),
        ),
        None => None,
    }
}

/// A copy of an optional provenance.
pub fn copy_git(git: &Option<GitProvenance>) -> (copy: Option<GitProvenance>)
    ensures
        git_parts(copy) == git_parts(*git),
{
    match git {
        Some(provenance) => Some(
            GitProvenance {
                root: text::copy_of(provenance.root.as_str()),
                branch: copy_optional(&provenance.branch),
                commit: copy_optional(&provenance.commit),
            },
        ),
        None => None,
    }
}

// ---- pages ----

/// A place in the order of posts: the last post of a page.
#[derive(Debug, Clone, Copy, PartialEq, Eq, Structural)]
pub struct Cursor {
    pub published_at: i64,
    pub post_id: i64,
}

/// The text of a cursor: the time of publication, a colon, and the post's number.
pub open spec fn cursor_text(published_at: int, post_id: int) -> Seq<char> {
    number::signed_decimal(published_at).push(':') + number::signed_decimal(post_id)
}

/// The cursor that a text stands for: two 64-bit integers with one colon between them, the second
/// of them positive.
pub open spec fn cursor_value(value: Seq<char>) -> Option<(int, int)> {
    let parts = text::split(value, ':');
    if parts.len() == 2 {
        match (number::signed_value(parts[0]), number::signed_value(parts[1])) {
            (Some(published_at), Some(post_id)) => if post_id > 0 {
                Some((published_at, post_id))
            } else {
                None
            },
            _ => None,
        }
    } else {
        None
    }
}

/// Writes a cursor.
pub fn format_cursor(cursor: Cursor) -> (value: String)
    ensures
        value@ == cursor_text(cursor.published_at as int, cursor.post_id as int),
{
    let mut value = number::format_i64(cursor.published_at);
    value.push(':');
    value.append(number::format_i64(cursor.post_id).as_str());
    value
}

/// Reads a cursor.
pub fn parse_cursor(value: &str) -> (result: Result<Cursor, StoreError>)
    ensures
        match result {
            Ok(cursor) => cursor_value(value@) == Some(
                (cursor.published_at as int, cursor.post_id as int),
            ),
            Err(error) => cursor_value(value@) is None && error == StoreError::InvalidPageCursor,
        },
{
    let chars = text::chars_of(value);
    let parts = text::split_chars(&chars, ':');
    if parts.len() != 2 {
        return Err(StoreError::InvalidPageCursor);
    }
    proof {
        assert(text::views(parts@)[0] == parts@[0]@);
        assert(text::views(parts@)[1] == parts@[1]@);
    }
    let published_at = number::parse_i64(text::string_of(&parts[0]).as_str());
    let post_id = number::parse_i64(text::string_of(&parts[1]).as_str());
    match (published_at, post_id) {
        (Some(published_at), Some(post_id)) => {
            if post_id > 0 {
                Ok(Cursor { published_at, post_id })
            } else {
                Err(StoreError::InvalidPageCursor)
            }
        },
        _ => Err(StoreError::InvalidPageCursor),
    }
}

proof fn lemma_split_without(s: Seq<char>, separator: char)
    requires
        !s.contains(separator),
    ensures
        text::split(s, separator) == seq![s],
    decreases s.len(),
{
    if s.len() > 0 {
        let before = s.drop_last();
        assert(s.last() != separator) by {
            assert(s[s.len() - 1] == s.last());
        }
        assert(!before.contains(separator)) by {
            if before.contains(separator) {
                let i = choose|i: int| 0 <= i < before.len() && before[i] == separator;
                assert(s[i] == separator);
            }
        }
        lemma_split_without(before, separator);
        assert(text::split(before, separator).drop_last() =~= Seq::<Seq<char>>::empty());
        assert(before.push(s.last()) =~= s);
        assert(text::split(s, separator) =~= seq![s]);
    } else {
        assert(s =~= Seq::<char>::empty());
    }
}

proof fn lemma_split_at_one(first: Seq<char>, second: Seq<char>, separator: char)
    requires
        !first.contains(separator),
        !second.contains(separator),
    ensures
        text::split(first.push(separator) + second, separator) == seq![first, second],
    decreases second.len(),
{
    let whole = first.push(separator) + second;
    if second.len() == 0 {
        assert(whole =~= first.push(separator));
        assert(whole.drop_last() =~= first);
        lemma_split_without(first, separator);
        assert(second =~= Seq::<char>::empty());
        assert(text::split(whole, separator) =~= seq![first, second]);
    } else {
        let before = second.drop_last();
        assert(second.last() != separator) by {
            assert(second[second.len() - 1] == second.last());
        }
        assert(!before.contains(separator)) by {
            if before.contains(separator) {
                let i = choose|i: int| 0 <= i < before.len() && before[i] == separator;
                assert(second[i] == separator);
            }
        }
        lemma_split_at_one(first, before, separator);
        assert(whole.drop_last() =~= first.push(separator) + before);
        assert(whole.last() == second.last());
        assert(before.push(second.last()) =~= second);
        assert(text::split(whole, separator) =~= seq![first, second]);
    }
}

proof fn lemma_decimal_has_no_colon(value: int)
    ensures
        !number::signed_decimal(value).contains(':'),
{
    let s = number::signed_decimal(value);
    let magnitude = if value < 0 {
        (-value) as nat
    } else {
        value as nat
    };
    number::law_decimal_reads_back(magnitude);
    let digits = number::decimal(magnitude);
    if s.contains(':') {
        let i = choose|i: int| 0 <= i < s.len() && s[i] == ':';
        if value < 0 {
            if i > 0 {
                assert(text::is_digit(digits[i - 1]));
            }
        } else {
            assert(text::is_digit(digits[i]));
        }
    }
}

/// A cursor that was written is read back as the same place.
pub proof fn law_cursor_reads_back(published_at: i64, post_id: i64)
    requires
        post_id > 0,
    ensures
        cursor_value(cursor_text(published_at as int, post_id as int)) == Some(
            (published_at as int, post_id as int),
        ),
{
    lemma_decimal_has_no_colon(published_at as int);
    lemma_decimal_has_no_colon(post_id as int);
    lemma_split_at_one(
        number::signed_decimal(published_at as int),
        number::signed_decimal(post_id as int),
        ':',
    );
    number::law_signed_decimal_reads_back(published_at);
    number::law_signed_decimal_reads_back(post_id);
}

/// What to fetch for a page: one post more than it shows, after the cursor.
#[derive(Debug, Clone, Copy, PartialEq, Eq, Structural)]
pub struct PagePlan {
    pub limit: u32,
    pub cursor: Option<Cursor>,
    pub fetch: i64,
}

/// The number of posts that a page request asks for.
pub open spec fn wanted_limit(limit: Option<u32>) -> u32 {
    match limit {
        Some(value) => value,
        None => DEFAULT_PAGE_LIMIT,
    }
}

/// Plans a page: one to a hundred posts, twenty where no number is asked for.
pub fn plan_page(page: &PageRequest) -> (result: Result<PagePlan, StoreError>)
    ensures
        match result {
            Ok(plan) => {
                &&& 1 <= wanted_limit(page.limit) <= MAX_PAGE_LIMIT
                &&& plan.limit == wanted_limit(page.limit)
                &&& plan.fetch == plan.limit + 1
                &&& match page.cursor {
                    Some(value) => plan.cursor matches Some(cursor) && cursor_value(value@) == Some(
                        (cursor.published_at as int, cursor.post_id as int),
                    ),
                    None => plan.cursor is None,
                }
            },
            Err(error) => if 1 <= wanted_limit(page.limit) <= MAX_PAGE_LIMIT {
                error == StoreError::InvalidPageCursor && (page.cursor matches Some(value)
                    && cursor_value(value@) is None)
            } else {
                error == (StoreError::InvalidPageLimit {
                    limit: wanted_limit(page.limit),
                    maximum: MAX_PAGE_LIMIT,
                })
            },
        },
{
    let limit: u32 = match page.limit {
        Some(value) => value,
        None => DEFAULT_PAGE_LIMIT,
    };
    if limit == 0 || limit > MAX_PAGE_LIMIT {
        return Err(StoreError::InvalidPageLimit { limit, maximum: MAX_PAGE_LIMIT });
    }
    let cursor = match &page.cursor {
        Some(value) => match parse_cursor(value.as_str()) {
            Ok(cursor) => Some(cursor),
            Err(error) => {
                return Err(error);
            },
        },
        None => None,
    };
    Ok(PagePlan { limit, cursor, fetch: limit as i64 + 1 })
}

/// The posts that a page shows, as the places of the posts that were fetched for it.
pub open spec fn shown(limit: u32, fetched: Seq<Cursor>) -> Seq<Cursor> {
    if fetched.len() > limit {
        fetched.take(limit as int)
    } else {
        fetched
    }
}

/// Which of the fetched posts the page shows, and the cursor of the next page, which is there
/// exactly where more was fetched than is shown.
pub fn finish_page(limit: u32, fetched: Vec<Cursor>) -> (result: (Vec<Cursor>, Option<String>))
    requires
        1 <= limit <= MAX_PAGE_LIMIT,
    ensures
        result.0@ == shown(limit, fetched@),
        match result.1 {
            Some(value) => fetched@.len() > limit && value@ == cursor_text(
                shown(limit, fetched@).last().published_at as int,
                shown(limit, fetched@).last().post_id as int,
            ),
            None => fetched@.len() <= limit,
        },
{
    let mut fetched = fetched;
    let keep: usize = limit as usize;
    if fetched.len() > keep {
        fetched.truncate(keep);
        let next = format_cursor(fetched[keep - 1]);
        (fetched, Some(next))
    } else {
        (fetched, None)
    }
}

/// Whether one post comes before another: the later published first, and of two published at the
/// same time the one with the greater number.
pub open spec fn comes_before(one: Cursor, other: Cursor) -> bool {
    one.published_at > other.published_at || (one.published_at == other.published_at && one.post_id
        > other.post_id)
}

/// Whether the posts stand in order, each before the next.
pub open spec fn in_order(posts: Seq<Cursor>) -> bool {
    forall|i: int, j: int|
        0 <= i < j < posts.len() ==> comes_before(#[trigger] posts[i], #[trigger] posts[j])
}

/// The cursor of a page continues exactly where the page ended: of all posts in order, those that
/// come after the last one shown are those that the page did not reach. No post is shown twice
/// and none is passed over.
pub proof fn law_cursor_continues(posts: Seq<Cursor>, last: int)
    requires
        in_order(posts),
        0 <= last < posts.len(),
    ensures
        forall|i: int|
            0 <= i < posts.len() ==> (comes_before(posts[last], #[trigger] posts[i]) <==> i > last),
{
    assert forall|i: int| 0 <= i < posts.len() implies (comes_before(
        posts[last],
        #[trigger] posts[i],
    ) <==> i > last) by {
        if i < last {
            assert(comes_before(posts[i], posts[last]));
        } else if i > last {
            assert(comes_before(posts[last], posts[i]));
        }
    }
}

/// The posts after the cursor, in their order; all of them where there is no cursor.
pub open spec fn later(posts: Seq<Cursor>, cursor: Option<Cursor>) -> Seq<Cursor>
    decreases posts.len(),
{
    match cursor {
        None => posts,
        Some(last) => if posts.len() == 0 {
            posts
        } else {
            let before = later(posts.drop_last(), cursor);
            if comes_before(last, posts.last()) {
                before.push(posts.last())
            } else {
                before
            }
        },
    }
}

/// What is fetched for a page after the cursor: one post more than the page shows, where there
/// are so many.
pub open spec fn fetched_for(posts: Seq<Cursor>, limit: u32, cursor: Option<Cursor>) -> Seq<
    Cursor,
> {
    let rest = later(posts, cursor);
    if rest.len() > limit {
        rest.take(limit + 1)
    } else {
        rest
    }
}

/// The cursor of the page at a place: that of the last post before it, and none for the first.
pub open spec fn cursor_at(pages: Seq<Seq<Cursor>>, k: int) -> Option<Cursor> {
    if k == 0 {
        None
    } else {
        Some(pages[k - 1].last())
    }
}

/// Whether the pages were fetched one after another, each from the cursor of the one before it,
/// until one had no cursor for a next.
pub open spec fn walked(posts: Seq<Cursor>, limit: u32, pages: Seq<Seq<Cursor>>) -> bool {
    &&& pages.len() > 0
    &&& forall|k: int|
        0 <= k < pages.len() ==> {
            let fetched = fetched_for(posts, limit, cursor_at(pages, k));
            &&& #[trigger] pages[k] == shown(limit, fetched)
            &&& fetched.len() > limit <==> k < pages.len() - 1
        }
}

/// The posts of the first pages, one page after another.
pub open spec fn joined_pages(pages: Seq<Seq<Cursor>>) -> Seq<Cursor>
    decreases pages.len(),
{
    if pages.len() == 0 {
        Seq::empty()
    } else {
        joined_pages(pages.drop_last()) + pages.last()
    }
}

proof fn lemma_later(posts: Seq<Cursor>, last: int)
    requires
        in_order(posts),
        0 <= last < posts.len(),
    ensures
        later(posts, Some(posts[last])) == posts.skip(last + 1),
{
    lemma_later_of(posts, posts[last], last, posts.len() as int);
    assert(posts.take(posts.len() as int) =~= posts);
}

proof fn lemma_later_of(posts: Seq<Cursor>, cursor: Cursor, last: int, n: int)
    requires
        in_order(posts),
        0 <= last < posts.len(),
        posts[last] == cursor,
        0 <= n <= posts.len(),
    ensures
        later(posts.take(n), Some(cursor)) == (if n <= last + 1 {
            Seq::<Cursor>::empty()
        } else {
            posts.subrange(last + 1, n)
        }),
    decreases n,
{
    if n > 0 {
        lemma_later_of(posts, cursor, last, n - 1);
        law_cursor_continues(posts, last);
        assert(posts.take(n).drop_last() =~= posts.take(n - 1));
        assert(posts.take(n).last() == posts[n - 1]);
        if n - 1 > last {
            assert(later(posts.take(n), Some(cursor)) =~= posts.subrange(last + 1, n));
        }
    } else {
        assert(later(posts.take(n), Some(cursor)) =~= Seq::<Cursor>::empty());
    }
}

proof fn lemma_walk(posts: Seq<Cursor>, limit: u32, pages: Seq<Seq<Cursor>>, k: int)
    requires
        in_order(posts),
        1 <= limit,
        walked(posts, limit, pages),
        0 <= k < pages.len(),
    ensures
        k * limit <= posts.len(),
        later(posts, cursor_at(pages, k)) == posts.skip(k * limit),
        joined_pages(pages.take(k)) == posts.take(k * limit),
    decreases k,
{
    if k == 0 {
        assert(pages.take(0) =~= Seq::<Seq<Cursor>>::empty());
        assert(posts.skip(0) =~= posts);
        assert(posts.take(0) =~= Seq::<Cursor>::empty());
    } else {
        lemma_walk(posts, limit, pages, k - 1);
        let start = (k - 1) * limit;
        let rest = posts.skip(start);
        let page = pages[k - 1];
        assert(k * limit == start + limit) by (nonlinear_arith)
            requires
                start == (k - 1) * limit,
        ;
        assert(rest.len() > limit);
        assert(page == shown(limit, rest.take(limit + 1)));
        assert(page =~= rest.take(limit as int));
        assert(page.last() == posts[start + limit - 1]);
        lemma_later(posts, start + limit - 1);
        assert(pages.take(k).drop_last() =~= pages.take(k - 1));
        assert(pages.take(k).last() == page);
        assert(posts.take(start) + page =~= posts.take(start + limit));
    }
}

proof fn lemma_last_page(posts: Seq<Cursor>, limit: u32, pages: Seq<Seq<Cursor>>)
    requires
        in_order(posts),
        1 <= limit,
        walked(posts, limit, pages),
    ensures
        joined_pages(pages) == posts,
{
    let last = pages.len() - 1;
    let start = last * limit;
    lemma_walk(posts, limit, pages, last);
    let rest = posts.skip(start);
    assert(pages[last] == shown(limit, fetched_for(posts, limit, cursor_at(pages, last))));
    assert(pages[last] == rest);
    assert(pages.drop_last() =~= pages.take(last));
    assert(pages.last() == pages[last]);
    assert(posts.take(start) + rest =~= posts);
}

/// Pages that are fetched one after another, each from the cursor of the one before it, are
/// together all posts, each once and in order. No page shows more posts than it was asked for,
/// and a page has a cursor exactly where posts remain after it.
pub proof fn law_pages_are_all_posts(posts: Seq<Cursor>, limit: u32, pages: Seq<Seq<Cursor>>)
    requires
        in_order(posts),
        1 <= limit <= MAX_PAGE_LIMIT,
        walked(posts, limit, pages),
    ensures
        joined_pages(pages) == posts,
        forall|k: int| 0 <= k < pages.len() ==> (#[trigger] pages[k]).len() <= limit,
        forall|k: int|
            0 <= k < pages.len() ==> (k < pages.len() - 1 <==> later(
                posts,
                #[trigger] cursor_at(pages, k),
            ).len() > limit),
{
    assert(joined_pages(pages) == posts) by {
        lemma_last_page(posts, limit, pages);
    }
    assert forall|k: int| 0 <= k < pages.len() implies (#[trigger] pages[k]).len() <= limit by {
        let fetched = fetched_for(posts, limit, cursor_at(pages, k));
        assert(pages[k] == shown(limit, fetched));
    }
    assert forall|k: int| 0 <= k < pages.len() implies (k < pages.len() - 1 <==> later(
        posts,
        #[trigger] cursor_at(pages, k),
    ).len() > limit) by {
        assert(pages[k] == shown(limit, fetched_for(posts, limit, cursor_at(pages, k))));
    }
}

// ---- assembly of stored rows ----

/// The stored name of a renderer.
pub open spec fn renderer_text(renderer: ArtifactRenderer) -> Seq<char> {
    match renderer {
        ArtifactRenderer::Image => "image"@,
        ArtifactRenderer::Svg => "svg"@,
        ArtifactRenderer::Pdf => "pdf"@,
        ArtifactRenderer::Video => "video"@,
        ArtifactRenderer::Audio => "audio"@,
        ArtifactRenderer::Markdown => "markdown"@,
        ArtifactRenderer::Text => "text"@,
        ArtifactRenderer::Json => "json"@,
        ArtifactRenderer::Csv => "csv"@,
        ArtifactRenderer::Html => "html"@,
        ArtifactRenderer::Download => "download"@,
    }
}

/// The renderer with the given stored name.
pub open spec fn renderer_named(name: Seq<char>) -> Option<ArtifactRenderer> {
    if name == "image"@ {
        Some(ArtifactRenderer::Image)
    } else if name == "svg"@ {
        Some(ArtifactRenderer::Svg)
    } else if name == "pdf"@ {
        Some(ArtifactRenderer::Pdf)
    } else if name == "video"@ {
        Some(ArtifactRenderer::Video)
    } else if name == "audio"@ {
        Some(ArtifactRenderer::Audio)
    } else if name == "markdown"@ {
        Some(ArtifactRenderer::Markdown)
    } else if name == "text"@ {
        Some(ArtifactRenderer::Text)
    } else if name == "json"@ {
        Some(ArtifactRenderer::Json)
    } else if name == "csv"@ {
        Some(ArtifactRenderer::Csv)
    } else if name == "html"@ {
        Some(ArtifactRenderer::Html)
    } else if name == "download"@ {
        Some(ArtifactRenderer::Download)
    } else {
        None
    }
}

/// The stored name of a renderer.
pub fn renderer_name(renderer: ArtifactRenderer) -> (name: &'static str)
    ensures
        name@ == renderer_text(renderer),
{
    match renderer {
        ArtifactRenderer::Image => "image",
        ArtifactRenderer::Svg => "svg",
        ArtifactRenderer::Pdf => "pdf",
        ArtifactRenderer::Video => "video",
        ArtifactRenderer::Audio => "audio",
        ArtifactRenderer::Markdown => "markdown",
        ArtifactRenderer::Text => "text",
        ArtifactRenderer::Json => "json",
        ArtifactRenderer::Csv => "csv",
        ArtifactRenderer::Html => "html",
        ArtifactRenderer::Download => "download",
    }
}

/// The renderer with the given stored name.
pub fn parse_renderer(name: &str) -> (renderer: Option<ArtifactRenderer>)
    ensures
        renderer == renderer_named(name@),
{
    if text::same_text(name, "image") {
        Some(ArtifactRenderer::Image)
    } else if text::same_text(name, "svg") {
        Some(ArtifactRenderer::Svg)
    } else if text::same_text(name, "pdf") {
        Some(ArtifactRenderer::Pdf)
    } else if text::same_text(name, "video") {
        Some(ArtifactRenderer::Video)
    } else if text::same_text(name, "audio") {
        Some(ArtifactRenderer::Audio)
    } else if text::same_text(name, "markdown") {
        Some(ArtifactRenderer::Markdown)
    } else if text::same_text(name, "text") {
        Some(ArtifactRenderer::Text)
    } else if text::same_text(name, "json") {
        Some(ArtifactRenderer::Json)
    } else if text::same_text(name, "csv") {
        Some(ArtifactRenderer::Csv)
    } else if text::same_text(name, "html") {
        Some(ArtifactRenderer::Html)
    } else if text::same_text(name, "download") {
        Some(ArtifactRenderer::Download)
    } else {
        None
    }
}

/// Every renderer's stored name is read back as that renderer.
pub proof fn law_renderer_reads_back(renderer: ArtifactRenderer)
    ensures
        renderer_named(renderer_text(renderer)) == Some(renderer),
{
    reveal_strlit("image");
    reveal_strlit("svg");
    reveal_strlit("pdf");
    reveal_strlit("video");
    reveal_strlit("audio");
    reveal_strlit("markdown");
    reveal_strlit("text");
    reveal_strlit("json");
    reveal_strlit("csv");
    reveal_strlit("html");
    reveal_strlit("download");
    let n = renderer_text(renderer);
    assert("image"@[0] == 'i');
    assert("svg"@[0] == 's');
    assert("pdf"@[0] == 'p');
    assert("video"@[0] == 'v');
    assert("audio"@[0] == 'a');
    assert("markdown"@[0] == 'm');
    assert("text"@[0] == 't');
    assert("json"@[0] == 'j');
    assert("csv"@[0] == 'c');
    assert("html"@[0] == 'h');
    assert("download"@[0] == 'd');
}

/// A stored row of a support asset.
#[derive(Debug)]
pub struct RawAsset {
    pub relative_path: String,
    pub hash: String,
    pub byte_size: i64,
}

/// A stored row of a post's file, with the rows of its support assets.
#[derive(Debug)]
pub struct RawFile {
    pub position: i64,
    pub filename: String,
    pub caption: Option<String>,
    pub media_type: String,
    pub renderer: String,
    pub hash: String,
    pub byte_size: i64,
    pub support_assets: Vec<RawAsset>,
}

/// A stored row of a post.
#[derive(Debug)]
pub struct RawPost {
    pub id: i64,
    pub session_id: i64,
    pub session_public_id: String,
    pub title: String,
    pub commentary: String,
    pub predecessor_post_id: Option<i64>,
    pub published_at: i64,
    pub git_root: Option<String>,
    pub git_branch: Option<String>,
    pub git_commit: Option<String>,
}

/// Whether the failure says that a stored field is invalid.
pub open spec fn is_invalid_metadata(error: StoreError, field: Seq<char>) -> bool {
    error matches StoreError::Io(cause) && cause@ == "invalid persisted "@ + field
}

fn invalid_metadata(field: &str) -> (error: StoreError)
    ensures
        is_invalid_metadata(error, field@),
{
    StoreError::Io(text::joined("invalid persisted ", field))
}

/// Whether an asset was read from the row.
pub open spec fn asset_is(asset: SupportAssetRead, raw: RawAsset) -> bool {
    &&& asset.relative_path@ == raw.relative_path@
    &&& asset.blob.hash@ == raw.hash@
    &&& asset.blob.byte_size == raw.byte_size
}

/// Whether the assets were read from the rows, one by one.
pub open spec fn assets_are(assets: Seq<SupportAssetRead>, raw: Seq<RawAsset>) -> bool {
    &&& assets.len() == raw.len()
    &&& forall|i: int| 0 <= i < raw.len() ==> asset_is(#[trigger] assets[i], raw[i])
}

/// Whether a file was read from the row.
pub open spec fn file_is(file: PostFileRead, raw: RawFile) -> bool {
    &&& file.position == raw.position
    &&& file.filename@ == raw.filename@
    &&& text::optional(file.caption) == text::optional(raw.caption)
    &&& file.media_type@ == raw.media_type@
    &&& renderer_named(raw.renderer@) == Some(file.renderer)
    &&& file.blob.hash@ == raw.hash@
    &&& file.blob.byte_size == raw.byte_size
    &&& assets_are(file.support_assets@, raw.support_assets@)
}

/// Whether every one of the assets has a size.
pub open spec fn assets_sized(raw: Seq<RawAsset>) -> bool {
    forall|i: int| 0 <= i < raw.len() ==> (#[trigger] raw[i]).byte_size >= 0
}

/// The first field of a file's row that is invalid.
pub open spec fn file_fault(raw: RawFile) -> Option<Seq<char>> {
    if !(0 <= raw.position <= u32::MAX) {
        Some("file position"@)
    } else if raw.byte_size < 0 {
        Some("blob byte size"@)
    } else if !assets_sized(raw.support_assets@) {
        Some("support asset blob byte size"@)
    } else if renderer_named(raw.renderer@) is None {
        Some("file renderer"@)
    } else {
        None
    }
}

fn read_assets(raw: &[RawAsset]) -> (result: Result<Vec<SupportAssetRead>, StoreError>)
    ensures
        match result {
            Ok(assets) => assets_sized(raw@) && assets_are(assets@, raw@),
            Err(error) => !assets_sized(raw@) && is_invalid_metadata(
                error,
                "support asset blob byte size"@,
            ),
        },
{
    let mut assets: Vec<SupportAssetRead> = Vec::new();
    let mut i: usize = 0;
    while i < raw.len()
        invariant
            i <= raw.len(),
            assets.len() == i,
            forall|j: int| 0 <= j < i ==> (#[trigger] raw@[j]).byte_size >= 0,
            forall|j: int| 0 <= j < i ==> asset_is(#[trigger] assets@[j], raw@[j]),
        decreases raw.len() - i,
    {
        if raw[i].byte_size < 0 {
            assert(raw@[i as int].byte_size < 0);
            return Err(invalid_metadata("support asset blob byte size"));
        }
        assets.push(
            SupportAssetRead {
                relative_path: text::copy_of(raw[i].relative_path.as_str()),
                blob: BlobRead {
                    hash: text::copy_of(raw[i].hash.as_str()),
                    byte_size: raw[i].byte_size as u64,
                },
            },
        );
        i += 1;
    }
    Ok(assets)
}

fn read_file(raw: &RawFile) -> (result: Result<PostFileRead, StoreError>)
    ensures
        match result {
            Ok(file) => file_fault(*raw) is None && file_is(file, *raw),
            Err(error) => file_fault(*raw) matches Some(field) && is_invalid_metadata(error, field),
        },
{
    if raw.position < 0 || raw.position > 0xffff_ffff {
        return Err(invalid_metadata("file position"));
    }
    if raw.byte_size < 0 {
        return Err(invalid_metadata("blob byte size"));
    }
    let support_assets = match read_assets(&raw.support_assets) {
        Ok(assets) => assets,
        Err(error) => {
            return Err(error);
        },
    };
    let renderer = match parse_renderer(raw.renderer.as_str()) {
        Some(renderer) => renderer,
        None => {
            return Err(invalid_metadata("file renderer"));
        },
    };
    Ok(
        PostFileRead {
            position: raw.position as u32,
            filename: text::copy_of(raw.filename.as_str()),
            caption: copy_optional(&raw.caption),
            media_type: text::copy_of(raw.media_type.as_str()),
            renderer,
            blob: BlobRead {
                hash: text::copy_of(raw.hash.as_str()),
                byte_size: raw.byte_size as u64,
            },
            support_assets,
        },
    )
}

/// Whether a post's row holds no provenance, or a valid one.
pub open spec fn git_fits(raw: RawPost) -> bool {
    match raw.git_root {
        Some(root) => is_valid_provenance(
            root@,
            text::optional(raw.git_branch),
            text::optional(raw.git_commit),
        ),
        None => raw.git_branch is None && raw.git_commit is None,
    }
}

/// Whether the provenance was read from the row.
pub open spec fn git_is(git: Option<GitProvenance>, raw: RawPost) -> bool {
    match (git, raw.git_root) {
        (None, None) => true,
        (Some(provenance), Some(root)) => {
            &&& provenance.root@ == root@
            &&& text::optional(provenance.branch) == text::optional(raw.git_branch)
            &&& text::optional(provenance.commit) == text::optional(raw.git_commit)
        },
        _ => false,
    }
}

/// Whether a post was read from the rows.
pub open spec fn post_is(post: PostRead, raw: RawPost, files: Seq<RawFile>) -> bool {
    &&& post.id == raw.id
    &&& post.session_id == raw.session_id
    &&& post.session_public_id@ == raw.session_public_id@
    &&& post.title@ == raw.title@
    &&& post.commentary@ == raw.commentary@
    &&& post.predecessor_post_id == raw.predecessor_post_id
    &&& post.published_at == raw.published_at
    &&& git_is(post.git, raw)
    &&& post.files@.len() == files.len()
    &&& forall|i: int| 0 <= i < files.len() ==> file_is(#[trigger] post.files@[i], files[i])
}

/// The first of the rows' invalid fields.
pub open spec fn files_fault(files: Seq<RawFile>, start: int) -> Option<Seq<char>>
    decreases files.len() - start,
{
    if start < 0 || start >= files.len() {
        None
    } else if file_fault(files[start]) is Some {
        file_fault(files[start])
    } else {
        files_fault(files, start + 1)
    }
}

/// Assembles a post from its stored rows, in the order of the rows. A provenance that is
/// incomplete or too long, or a field that holds what it cannot, is an error.
pub fn assemble_post(raw: &RawPost, files: &[RawFile]) -> (result: Result<PostRead, StoreError>)
    ensures
        match result {
            Ok(post) => git_fits(*raw) && files_fault(files@, 0) is None && post_is(
                post,
                *raw,
                files@,
            ),
            Err(error) => if git_fits(*raw) {
                files_fault(files@, 0) matches Some(field) && is_invalid_metadata(error, field)
            } else {
                error == StoreError::InvalidPostMetadata
            },
        },
{
    let git = match &raw.git_root {
        Some(root) => {
            let provenance = GitProvenance {
                root: text::copy_of(root.as_str()),
                branch: copy_optional(&raw.git_branch),
                commit: copy_optional(&raw.git_commit),
            };
            if !provenance.is_valid() {
                return Err(StoreError::InvalidPostMetadata);
            }
            Some(provenance)
        },
        None => {
            if raw.git_branch.is_some() || raw.git_commit.is_some() {
                return Err(StoreError::InvalidPostMetadata);
            }
            None
        },
    };
    let mut read: Vec<PostFileRead> = Vec::new();
    let mut i: usize = 0;
    while i < files.len()
        invariant
            i <= files.len(),
            read.len() == i,
            git_fits(*raw),
            files_fault(files@, 0) == files_fault(files@, i as int),
            forall|j: int| 0 <= j < i ==> file_is(#[trigger] read@[j], files@[j]),
        decreases files.len() - i,
    {
        match read_file(&files[i]) {
            Ok(file) => {
                read.push(file);
            },
            Err(error) => {
                return Err(error);
            },
        }
        i += 1;
    }
    Ok(
        PostRead {
            id: raw.id,
            session_id: raw.session_id,
            session_public_id: text::copy_of(raw.session_public_id.as_str()),
            title: text::copy_of(raw.title.as_str()),
            commentary: text::copy_of(raw.commentary.as_str()),
            predecessor_post_id: raw.predecessor_post_id,
            published_at: raw.published_at,
            git,
            files: read,
        },
    )
}

/// The blob of a stored artifact, from the digest and the size in its row.
pub fn associated_blob(hash: &str, byte_size: i64) -> (result: Result<BlobRecord, StoreError>)
    ensures
        match result {
            Ok(record) => blob::is_blob_hash(hash@) && byte_size >= 0 && record@ == (
                hash@,
                byte_size as u64,
            ),
            Err(error) => if blob::is_blob_hash(hash@) {
                byte_size < 0 && is_invalid_metadata(error, "blob byte size"@)
            } else {
                is_invalid_metadata(error, "blob hash"@)
            },
        },
{
    let parsed = match BlobHash::parse(hash) {
        Ok(parsed) => parsed,
        Err(_) => {
            return Err(invalid_metadata("blob hash"));
        },
    };
    if byte_size < 0 {
        return Err(invalid_metadata("blob byte size"));
    }
    Ok(BlobRecord::from_parts(parsed, byte_size as u64))
}

} // verus!
