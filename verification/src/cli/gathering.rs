//! What a publication is gathered from: what Git is asked and says, which fields and names are
//! accepted, and which files references name.
use vstd::prelude::*;
use vstd::utf8::*;
use crate::cli::assets::collection;
use crate::cli::assets::reference;
use crate::cli::error::CliErrorModel;
use crate::cli::flags::{InputModel, SourceModel};
use crate::cli::git;
use crate::cli::git::{GitEnd, GitQuestion};
use crate::cli::publication;
use crate::number;
use crate::percent;
use crate::text;

verus! {

// ---- Git ----

/// Git is asked for the root of the work tree, the branch by its short name, and the commit.
pub proof fn law_what_git_is_asked()
    ensures
        git::question_words(GitQuestion::Root) == seq!["rev-parse"@, "--show-toplevel"@],
        git::question_words(GitQuestion::Branch) == seq![
            "symbolic-ref"@,
            "--quiet"@,
            "--short"@,
            "HEAD"@,
        ],
        git::question_words(GitQuestion::Commit) == seq!["rev-parse"@, "--verify"@, "HEAD"@],
{
}

proof fn lemma_line_ends(s: Seq<char>, ends: Seq<char>)
    requires
        forall|i: int| 0 <= i < ends.len() ==> (#[trigger] ends[i] == '\n' || ends[i] == '\r'),
    ensures
        git::without_line_ends(s + ends) == git::without_line_ends(s),
    decreases ends.len(),
{
    if ends.len() > 0 {
        let whole = s + ends;
        assert(whole.last() == ends.last());
        assert(ends[ends.len() - 1] == ends.last());
        assert(whole.drop_last() =~= s + ends.drop_last());
        lemma_line_ends(s, ends.drop_last());
    } else {
        assert(s + ends =~= s);
    }
}

/// What Git says is its output without the line ends behind it; a command that did not succeed says
/// nothing; and what is longer than 8 KiB, no text, or no end at all is a failure of Git.
pub proof fn law_what_git_says(end: GitEnd, said: Seq<char>, ends: Seq<char>)
    requires
        said.len() > 0 ==> said.last() != '\n' && said.last() != '\r',
        forall|i: int| 0 <= i < ends.len() ==> (#[trigger] ends[i] == '\n' || ends[i] == '\r'),
    ensures
        end matches GitEnd::Finished { success, output } ==> {
            &&& !success ==> git::git_answer(end) == Ok::<Option<Seq<char>>, CliErrorModel>(None)
            &&& success && output@.len() <= 8192 && valid_utf8(output@) && decode_utf8(output@) == said
                + ends ==> git::git_answer(end) == Ok::<Option<Seq<char>>, CliErrorModel>(Some(said))
            &&& success && (output@.len() > 8192 || !valid_utf8(output@)) ==> git::git_answer(end)
                is Err
        },
        !(end is Finished) ==> git::git_answer(end) is Err,
        git::git_answer(end) matches Err(failure) ==> failure.code == "git_error"@,
{
    lemma_line_ends(said, ends);
}

/// Provenance is refused where its branch is longer than 1024 bytes or its commit longer than 128.
pub proof fn law_long_provenance_is_refused(
    root: Seq<char>,
    branch: Option<Seq<char>>,
    commit: Option<Seq<char>>,
)
    ensures
        git::provenance_fault(root, branch, commit) is None <==> {
            &&& 1 <= encode_utf8(root).len() <= 4096
            &&& branch is Some ==> 1 <= encode_utf8(branch->0).len() <= 1024
            &&& commit is Some ==> 1 <= encode_utf8(commit->0).len() <= 128
        },
{
}

// ---- fields and names ----

/// A publication is looked at further exactly where nothing that it must say is blank, it has a file,
/// and its predecessor, if any, has a positive number; otherwise it is not valid.
pub proof fn law_which_publications_are_looked_at(input: InputModel)
    ensures
        publication::input_fault(input) is None <==> {
            &&& !text::is_blank(input.integration_namespace)
            &&& !text::is_blank(input.external_key)
            &&& !text::is_blank(input.project_label)
            &&& !text::is_blank(input.title)
            &&& !text::is_blank(input.commentary)
            &&& input.files.len() > 0
            &&& input.predecessor_post_id is Some ==> input.predecessor_post_id->0 > 0
        },
        publication::input_fault(input) matches Some(failure) ==> failure.code == "validation_error"@,
        text::is_blank(input.integration_namespace) ==> publication::blank_field(input) == Some(
            "integration_namespace"@,
        ),
        !text::is_blank(input.integration_namespace) && text::is_blank(input.external_key)
            ==> publication::blank_field(input) == Some("external_session_key"@),
{
}

/// A file is published under a name that is not blank and holds no separator and no control character,
/// and with a media type that, where it is declared, is not blank.
pub proof fn law_which_names_are_published(source: SourceModel, name: Seq<char>)
    ensures
        publication::source_fault(source, name) is None <==> {
            &&& !text::is_blank(name)
            &&& !name.contains('/')
            &&& !name.contains('\\')
            &&& !text::has_control(name)
            &&& source.media_type is Some ==> !text::is_blank(source.media_type->0)
        },
        publication::source_fault(source, name) matches Some(failure) ==> failure.code
            == "validation_error"@,
{
}

/// A file is published under the name that was asked for, or else under its own.
pub proof fn law_files_keep_their_names(source: SourceModel, directory: Seq<u8>, own: Seq<char>)
    requires
        own.len() > 0,
        !encode_utf8(own).contains(0x2f),
        encode_utf8(own) != seq![0x2eu8],
        encode_utf8(own) != seq![0x2eu8, 0x2eu8],
    ensures
        source.published_filename matches Some(name) ==> publication::chosen_name(
            source,
            directory.push(0x2f) + encode_utf8(own),
        ) == name,
        source.published_filename is None ==> publication::chosen_name(
            source,
            directory.push(0x2f) + encode_utf8(own),
        ) == own,
{
    encode_utf8_valid_utf8(own);
    encode_utf8_decode_utf8(own);
    assert(encode_utf8(own).len() > 0) by {
        if encode_utf8(own).len() == 0 {
            assert(encode_utf8(own) =~= encode_utf8(Seq::<char>::empty()));
            encode_utf8_decode_utf8(Seq::<char>::empty());
        }
    }
    crate::letters::law_file_names_follow_the_last_slash(directory, encode_utf8(own));
}

/// The parts of a publication are named by their places: `file-i` and `asset-i-j`.
pub proof fn law_parts_are_named_by_place(i: nat, j: nat)
    ensures
        publication::file_part(i) == "file-"@ + number::decimal(i),
        publication::asset_part(i, j) == "asset-"@ + number::decimal(i) + "-"@ + number::decimal(j),
{
}

// ---- references ----

/// Whether a character of a reference stands for itself in a path.
pub open spec fn is_plain(c: char) -> bool {
    'a' <= c <= 'z' || 'A' <= c <= 'Z' || '0' <= c <= '9' || c == '.' || c == '-' || c == '_'
}

/// Whether a reference is a path of plain characters that does not start at the root.
pub open spec fn is_plain_path(s: Seq<char>) -> bool {
    s.len() > 0 && s[0] != '/' && forall|i: int| 0 <= i < s.len() ==> is_plain(#[trigger] s[i]) || s[i]
        == '/'
}

/// Whether a reference is the name of a file.
pub open spec fn is_plain_name(s: Seq<char>) -> bool {
    s.len() > 0 && s != "."@ && s != ".."@ && forall|i: int|
        0 <= i < s.len() ==> is_plain(#[trigger] s[i])
}

proof fn lemma_plain_bytes(s: Seq<char>)
    requires
        forall|i: int| 0 <= i < s.len() ==> is_plain(#[trigger] s[i]) || s[i] == '/',
    ensures
        percent::strictly_decoded(encode_utf8(s)) == Some(encode_utf8(s)),
        percent::decoded(encode_utf8(s)) == encode_utf8(s),
{
    assert(is_ascii_chars(s));
    is_ascii_chars_encode_utf8(s);
    let b = encode_utf8(s);
    assert forall|i: int| 0 <= i < b.len() implies #[trigger] b[i] != 0x25 by {
        assert(b[i] == s[i] as u8);
        assert(is_plain(s[i]) || s[i] == '/');
    }
    lemma_no_escape(b);
}

proof fn lemma_no_escape(b: Seq<u8>)
    requires
        forall|i: int| 0 <= i < b.len() ==> #[trigger] b[i] != 0x25,
    ensures
        percent::strictly_decoded(b) == Some(b),
        percent::decoded(b) == b,
    decreases b.len(),
{
    if b.len() > 0 {
        let rest = b.skip(1);
        assert forall|i: int| 0 <= i < rest.len() implies #[trigger] rest[i] != 0x25 by {
            assert(rest[i] == b[i + 1]);
        }
        lemma_no_escape(rest);
        assert(seq![b[0]] + rest =~= b);
    } else {
        assert(b =~= Seq::<u8>::empty());
    }
}

proof fn lemma_no_percent(s: Seq<char>, pattern: Seq<char>)
    requires
        !s.contains('%'),
        pattern.len() > 0,
        pattern[0] == '%',
    ensures
        !text::holds(text::lowercase(s), pattern),
{
    let small = text::lowercase(s);
    text::lemma_found_fits(small, pattern, 0);
    if let Some(at) = text::found(small, pattern) {
        assert(small.subrange(at, at + pattern.len())[0] == small[at]);
        assert(small[at] == text::lower(s[at]));
        assert(s[at] == '%');
    }
}

proof fn lemma_plain_path_decodes(s: Seq<char>)
    requires
        is_plain_path(s),
    ensures
        reference::decoded_path(s) == Ok::<Seq<char>, Seq<char>>(s),
{
    assert(!s.contains('%') && !s.contains('\\')) by {
        if s.contains('%') || s.contains('\\') {
            let i = choose|i: int| 0 <= i < s.len() && (s[i] == '%' || s[i] == '\\');
            assert(is_plain(s[i]) || s[i] == '/');
        }
    }
    reveal_strlit("%2f");
    reveal_strlit("%5c");
    lemma_no_percent(s, "%2f"@);
    lemma_no_percent(s, "%5c"@);
    lemma_plain_bytes(s);
    encode_utf8_valid_utf8(s);
    encode_utf8_decode_utf8(s);
}

proof fn lemma_suffix(s: Seq<char>, rest: Seq<char>, i: int)
    requires
        0 <= i <= s.len(),
        forall|k: int| 0 <= k < s.len() ==> is_plain(#[trigger] s[k]) || s[k] == '/',
        rest.len() > 0 ==> rest[0] == '?' || rest[0] == '#',
    ensures
        reference::suffix_start(s + rest, i) == s.len(),
    decreases s.len() - i,
{
    let whole = s + rest;
    if i < s.len() {
        assert(is_plain(s[i]) || s[i] == '/');
        assert(whole[i] == s[i]);
        lemma_suffix(s, rest, i + 1);
    } else if rest.len() > 0 {
        assert(whole[i] == rest[0]);
    }
}

proof fn lemma_colon_behind(s: Seq<char>, rest: Seq<char>)
    requires
        is_plain_path(s),
        rest.len() > 0 ==> rest[0] == '?' || rest[0] == '#',
    ensures
        reference::scheme_of(s + rest) is None,
{
    let whole = s + rest;
    text::lemma_found_fits(whole, seq![':'], 0);
    if let Some(at) = text::found(whole, seq![':']) {
        assert(whole.subrange(at, at + 1)[0] == whole[at]);
        if at < s.len() {
            assert(is_plain(s[at]) || s[at] == '/');
            assert(whole[at] == s[at]);
        } else {
            assert(at > s.len()) by {
                assert(whole[s.len() as int] == rest[0]);
            }
            let name = whole.take(at);
            assert(name[s.len() as int] == rest[0]);
            assert(!reference::is_scheme_char(name[s.len() as int]));
        }
    }
}

/// A plain path in a document names the file that it leads to from the document's directory, whatever
/// query or fragment follows it and whatever white space stands around it.
pub proof fn law_plain_references_are_paths(
    before: Seq<char>,
    s: Seq<char>,
    rest: Seq<char>,
    after: Seq<char>,
    base: Seq<char>,
)
    requires
        is_plain_path(s),
        rest.len() > 0 ==> (rest[0] == '?' || rest[0] == '#') && !text::is_white_space(rest.last()),
        text::is_blank(before),
        text::is_blank(after),
    ensures
        reference::normalized(before + (s + rest) + after, base) == reference::support_path_of(s, base),
{
    let whole = s + rest;
    assert(whole[0] == s[0]);
    assert(is_plain(s[0]));
    if rest.len() > 0 {
        assert(whole.last() == rest.last());
    } else {
        assert(whole.last() == s.last());
        assert(is_plain(s[s.len() - 1]) || s[s.len() - 1] == '/');
    }
    crate::letters::law_trimming_takes_white_space(before, whole, after);
    reveal_strlit("//");
    assert("//"@[0] == '/' && "//"@.len() == 2);
    if text::has_prefix(whole, "//"@) {
        assert(whole.take(2)[0] == '/');
    }
    lemma_colon_behind(s, rest);
    lemma_suffix(s, rest, 0);
    assert(whole.take(s.len() as int) =~= s);
    lemma_plain_path_decodes(s);
}

proof fn lemma_one_piece(s: Seq<char>)
    requires
        !s.contains('/'),
    ensures
        text::split(s, '/') == seq![s],
    decreases s.len(),
{
    if s.len() > 0 {
        let shorter = s.drop_last();
        assert(s.contains(s.last()));
        assert(!shorter.contains('/')) by {
            if shorter.contains('/') {
                let i = choose|i: int| 0 <= i < shorter.len() && shorter[i] == '/';
                assert(s[i] == '/');
            }
        }
        lemma_one_piece(shorter);
        assert(shorter.push(s.last()) =~= s);
        assert(text::split(s, '/') =~= seq![s]);
    } else {
        assert(s =~= Seq::<char>::empty());
    }
}

proof fn lemma_plain_name(s: Seq<char>)
    requires
        is_plain_name(s),
    ensures
        reference::is_normal(s),
        !s.contains('/'),
        !text::has_control(s),
{
    if s.contains('/') {
        let i = choose|i: int| 0 <= i < s.len() && s[i] == '/';
        assert(is_plain(s[i]));
    }
    if text::has_control(s) {
        let i = choose|i: int| 0 <= i < s.len() && text::is_control(#[trigger] s[i]);
        assert(is_plain(s[i]));
    }
}

/// A name in a document names the file of that name in the document's directory.
pub proof fn law_names_are_files_beside_the_document(name: Seq<char>, directory: Seq<char>)
    requires
        is_plain_name(name),
        is_plain_name(directory),
    ensures
        reference::normalized(name, Seq::empty()) == Ok::<Option<Seq<char>>, Seq<char>>(Some(name)),
        reference::normalized(name, directory) == Ok::<Option<Seq<char>>, Seq<char>>(
            Some(directory + seq!['/'] + name),
        ),
{
    let none = Seq::<char>::empty();
    lemma_plain_name(name);
    lemma_plain_name(directory);
    assert(is_plain_path(name)) by {
        assert(is_plain(name[0]));
    }
    law_plain_references_are_paths(none, name, none, none, none);
    law_plain_references_are_paths(none, name, none, none, directory);
    assert(none + (name + none) + none =~= name);
    lemma_one_piece(name);
    lemma_one_piece(directory);
    lemma_one_piece(none);
    reveal_with_fuel(reference::walked, 3);
    reveal_with_fuel(reference::normal_parts, 3);
    reveal_with_fuel(reference::joined_segments, 3);
    reveal_strlit(".");
    reveal_strlit("..");
    assert(reference::directory_segments(none) =~= Seq::<Seq<char>>::empty());
    assert(reference::directory_segments(directory) =~= seq![directory]);
    assert(Seq::<Seq<char>>::empty().push(name) =~= seq![name]);
    assert(seq![directory].push(name).drop_last() =~= seq![directory]);
    assert(reference::walked(text::split(name, '/'), 0, Seq::empty()) == Ok::<_, Seq<char>>(
        seq![name],
    ));
    assert(reference::walked(text::split(name, '/'), 0, seq![directory]) == Ok::<_, Seq<char>>(
        seq![directory].push(name),
    ));
}

/// `./name` is the file beside the document, `../name` the one in the directory above, and above the
/// entry's own directory there is nothing to collect.
pub proof fn law_dots_lead_beside_and_above(name: Seq<char>, directory: Seq<char>)
    requires
        is_plain_name(name),
        is_plain_name(directory),
    ensures
        reference::normalized("."@ + seq!['/'] + name, Seq::empty()) == Ok::<
            Option<Seq<char>>,
            Seq<char>,
        >(Some(name)),
        reference::normalized(".."@ + seq!['/'] + name, directory) == Ok::<
            Option<Seq<char>>,
            Seq<char>,
        >(Some(name)),
        reference::normalized(".."@ + seq!['/'] + name, Seq::empty()) is Err,
        reference::normalized(directory + seq!['/'] + name, Seq::empty()) == Ok::<
            Option<Seq<char>>,
            Seq<char>,
        >(Some(directory + seq!['/'] + name)),
{
    let none = Seq::<char>::empty();
    reveal_strlit(".");
    reveal_strlit("..");
    lemma_plain_name(name);
    lemma_plain_name(directory);
    let here = "."@ + seq!['/'] + name;
    let above = ".."@ + seq!['/'] + name;
    let down = directory + seq!['/'] + name;
    lemma_joined_path("."@, name);
    lemma_joined_path(".."@, name);
    lemma_joined_path(directory, name);
    law_plain_references_are_paths(none, here, none, none, none);
    law_plain_references_are_paths(none, above, none, none, directory);
    law_plain_references_are_paths(none, above, none, none, none);
    law_plain_references_are_paths(none, down, none, none, none);
    assert(none + (here + none) + none =~= here);
    assert(none + (above + none) + none =~= above);
    assert(none + (down + none) + none =~= down);
    lemma_one_piece("."@);
    lemma_one_piece(".."@);
    lemma_one_piece(directory);
    lemma_one_piece(none);
    reference::lemma_split_after("."@, name);
    reference::lemma_split_after(".."@, name);
    reference::lemma_split_after(directory, name);
    reveal_with_fuel(reference::walked, 4);
    reveal_with_fuel(reference::normal_parts, 3);
    reveal_with_fuel(reference::joined_segments, 3);
    assert(reference::directory_segments(none) =~= Seq::<Seq<char>>::empty());
    assert(reference::directory_segments(directory) =~= seq![directory]);
    assert(Seq::<Seq<char>>::empty().push(name) =~= seq![name]);
    assert(seq![directory].drop_last() =~= Seq::<Seq<char>>::empty());
    assert(Seq::<Seq<char>>::empty().push(directory).push(name).drop_last() =~= seq![directory]);
    let beside = seq!["."@].push(name);
    assert(beside[0] == "."@ && beside[1] == name);
    let upward = seq![".."@].push(name);
    assert(upward[0] == ".."@ && upward[1] == name);
    let downward = seq![directory].push(name);
    assert(downward[0] == directory && downward[1] == name);
    assert("."@.len() == 1 && ".."@.len() == 2);
}

proof fn lemma_joined_path(first: Seq<char>, name: Seq<char>)
    requires
        first.len() > 0,
        forall|i: int| 0 <= i < first.len() ==> is_plain(#[trigger] first[i]),
        is_plain_name(name),
    ensures
        is_plain_path(first + seq!['/'] + name),
{
    let whole = first + seq!['/'] + name;
    assert(is_plain(first[0]));
    assert(whole[0] == first[0]);
    assert forall|i: int| 0 <= i < whole.len() implies is_plain(#[trigger] whole[i]) || whole[i] == '/' by {
        if i < first.len() {
            assert(is_plain(first[i]));
        } else if i > first.len() {
            assert(is_plain(name[i - first.len() - 1]));
        }
    }
}

proof fn lemma_scheme(name: Seq<char>, rest: Seq<char>)
    requires
        name.len() > 0,
        forall|i: int| 0 <= i < name.len() ==> ('a' <= #[trigger] name[i] <= 'z' || 'A' <= name[i] <= 'Z'),
    ensures
        reference::scheme_of(name + seq![':'] + rest) == Some(name),
{
    let whole = name + seq![':'] + rest;
    lemma_letters_first(name, rest, 0);
    assert(whole.take(name.len() as int) =~= name);
    assert forall|i: int| 1 <= i < name.len() implies reference::is_scheme_char(#[trigger] name[i]) by {
        assert('a' <= name[i] <= 'z' || 'A' <= name[i] <= 'Z');
    }
    assert('a' <= name[0] <= 'z' || 'A' <= name[0] <= 'Z');
}

proof fn lemma_letters_first(name: Seq<char>, rest: Seq<char>, start: int)
    requires
        0 <= start <= name.len(),
        forall|i: int| 0 <= i < name.len() ==> ('a' <= #[trigger] name[i] <= 'z' || 'A' <= name[i] <= 'Z'),
    ensures
        text::found_from(name + seq![':'] + rest, seq![':'], start) == Some(name.len() as int),
    decreases name.len() - start,
{
    let whole = name + seq![':'] + rest;
    if start < name.len() {
        assert(whole.subrange(start, start + 1)[0] == name[start]);
        assert('a' <= name[start] <= 'z' || 'A' <= name[start] <= 'Z');
        lemma_letters_first(name, rest, start + 1);
    } else {
        assert(whole.subrange(start, start + 1) =~= seq![':']);
    }
}

/// A place in the document, another host and a URL of a scheme are no files to collect; a file URL and
/// a drive letter are refused.
pub proof fn law_what_is_elsewhere_is_not_collected(
    name: Seq<char>,
    rest: Seq<char>,
    base: Seq<char>,
)
    requires
        name.len() > 0,
        forall|i: int| 0 <= i < name.len() ==> ('a' <= #[trigger] name[i] <= 'z' || 'A' <= name[i] <= 'Z'),
        rest.len() > 0,
        !text::is_white_space(rest.last()),
    ensures
        reference::normalized(Seq::empty(), base) == Ok::<Option<Seq<char>>, Seq<char>>(None),
        reference::normalized(seq!['#'] + rest, base) == Ok::<Option<Seq<char>>, Seq<char>>(None),
        reference::normalized("//"@ + rest, base) == Ok::<Option<Seq<char>>, Seq<char>>(None),
        name.len() > 1 && text::lowercase(name) != "file"@ ==> reference::normalized(
            name + seq![':'] + rest,
            base,
        ) == Ok::<Option<Seq<char>>, Seq<char>>(None),
        text::lowercase(name) == "file"@ || name.len() == 1 ==> reference::normalized(
            name + seq![':'] + rest,
            base,
        ) is Err,
{
    let none = Seq::<char>::empty();
    let place = seq!['#'] + rest;
    let host = "//"@ + rest;
    let url = name + seq![':'] + rest;
    reveal_strlit("//");
    assert("//"@[0] == '/' && "//"@.len() == 2);
    assert(place.last() == rest.last() && host.last() == rest.last() && url.last() == rest.last());
    assert(place[0] == '#' && host[0] == '/' && url[0] == name[0]);
    assert('a' <= name[0] <= 'z' || 'A' <= name[0] <= 'Z');
    crate::letters::law_trimming_takes_white_space(none, place, none);
    crate::letters::law_trimming_takes_white_space(none, host, none);
    crate::letters::law_trimming_takes_white_space(none, url, none);
    assert(none + place + none =~= place);
    assert(none + host + none =~= host);
    assert(none + url + none =~= url);
    assert(text::trimmed(none) =~= none);
    assert(host.take(2) =~= "//"@);
    if text::has_prefix(url, "//"@) {
        assert(url.take(2)[0] == '/');
    }
    lemma_scheme(name, rest);
}

// ---- collecting ----

/// A file is within a directory exactly where it is the directory or its path goes on from it after a
/// slash.
pub proof fn law_what_is_within(root: Seq<u8>, rest: Seq<u8>, other: Seq<u8>)
    requires
        root.len() > 0,
        root.last() != 0x2f,
    ensures
        collection::is_within(root, root),
        collection::is_within(root, root + seq![0x2fu8] + rest),
        collection::is_within(root, other) ==> other == root || other.len() > root.len() && other.take(
            root.len() as int,
        ) == root && other[root.len() as int] == 0x2f,
{
    let inside = root + seq![0x2fu8] + rest;
    assert(inside.subrange(0, root.len() as int + 1) =~= root.push(0x2f));
    if collection::is_within(root, other) && other != root {
        let start = other.subrange(0, root.len() as int + 1);
        assert(start == root.push(0x2f));
        assert(other.take(root.len() as int) =~= start.take(root.len() as int));
        assert(start.take(root.len() as int) =~= root);
        assert(other[root.len() as int] == start[root.len() as int]);
    }
}

/// The directory of a support path is what stands before its last slash.
pub proof fn law_directories_end_at_the_last_slash(directory: Seq<char>, name: Seq<char>)
    requires
        !name.contains('/'),
    ensures
        collection::directory_of(directory + seq!['/'] + name) == directory,
        collection::directory_of(name) == Seq::<char>::empty(),
{
    lemma_last_separator(directory, name);
    lemma_no_separator(name);
    assert((directory + seq!['/'] + name).take(directory.len() as int) =~= directory);
}

proof fn lemma_last_separator(directory: Seq<char>, name: Seq<char>)
    requires
        !name.contains('/'),
    ensures
        collection::last_separator(directory + seq!['/'] + name) == Some(directory.len() as int),
    decreases name.len(),
{
    let whole = directory + seq!['/'] + name;
    if name.len() > 0 {
        assert(name.contains(name.last()));
        assert(whole.last() == name.last());
        assert(whole.drop_last() =~= directory + seq!['/'] + name.drop_last());
        assert(!name.drop_last().contains('/')) by {
            if name.drop_last().contains('/') {
                let i = choose|i: int| 0 <= i < name.drop_last().len() && name.drop_last()[i] == '/';
                assert(name[i] == '/');
            }
        }
        lemma_last_separator(directory, name.drop_last());
    } else {
        assert(whole.last() == '/');
    }
}

proof fn lemma_no_separator(name: Seq<char>)
    requires
        !name.contains('/'),
    ensures
        collection::last_separator(name) is None,
    decreases name.len(),
{
    if name.len() > 0 {
        assert(name.contains(name.last()));
        assert(!name.drop_last().contains('/')) by {
            if name.drop_last().contains('/') {
                let i = choose|i: int| 0 <= i < name.drop_last().len() && name.drop_last()[i] == '/';
                assert(name[i] == '/');
            }
        }
        lemma_no_separator(name.drop_last());
    }
}

} // verus!
