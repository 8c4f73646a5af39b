//! References to local files, and the support paths that they stand for.
use vstd::prelude::*;
use vstd::utf8::*;
use crate::api::paths;
use crate::percent;
use crate::text;

verus! {

// ---- references that are not local ----

/// Whether a character is an ASCII letter.
pub open spec fn is_letter(c: char) -> bool {
    'a' <= c <= 'z' || 'A' <= c <= 'Z'
}

/// Whether a character can stand in a scheme after its first.
pub open spec fn is_scheme_char(c: char) -> bool {
    text::is_ascii_alphanumeric(c) || c == '+' || c == '-' || c == '.'
}

/// Whether a text is the name of a scheme.
pub open spec fn is_scheme(s: Seq<char>) -> bool {
    s.len() > 0 && is_letter(s[0]) && forall|i: int|
        1 <= i < s.len() ==> is_scheme_char(#[trigger] s[i])
}

fn scheme(s: &[char]) -> (yes: bool)
    ensures
        yes == is_scheme(s@),
{
    if s.len() == 0 || !(('a' <= s[0] && s[0] <= 'z') || ('A' <= s[0] && s[0] <= 'Z')) {
        return false;
    }
    let mut i: usize = 1;
    while i < s.len()
        invariant
            1 <= i <= s.len(),
            forall|j: int| 1 <= j < i ==> is_scheme_char(#[trigger] s@[j]),
        decreases s.len() - i,
    {
        let c = s[i];
        if !text::ascii_alphanumeric(c) && c != '+' && c != '-' && c != '.' {
            assert(!is_scheme_char(s@[i as int]));
            return false;
        }
        i += 1;
    }
    true
}

/// The scheme that a reference names, where it names one.
pub open spec fn scheme_of(value: Seq<char>) -> Option<Seq<char>> {
    match text::found(value, seq![':']) {
        Some(at) => if is_scheme(value.take(at)) {
            Some(value.take(at))
        } else {
            None
        },
        None => None,
    }
}

/// Whether a trimmed reference names nothing, a place in the document, or another host.
pub open spec fn is_elsewhere(value: Seq<char>) -> bool {
    value.len() == 0 || value[0] == '#' || text::has_prefix(value, "//"@)
}

/// What a reference's scheme makes of it: nothing is collected, except that a file URL and a
/// drive letter are refused.
pub open spec fn scheme_verdict(name: Seq<char>) -> Result<Option<Seq<char>>, Seq<char>> {
    if text::lowercase(name) == "file"@ || name.len() == 1 {
        Err("absolute filesystem support references are not allowed"@)
    } else {
        Ok(None)
    }
}

// ---- the path of a local reference ----

/// Where a query or a fragment starts, from `i` on.
pub open spec fn suffix_start(value: Seq<char>, i: int) -> int
    decreases value.len() - i,
{
    if i < 0 || i >= value.len() {
        value.len() as int
    } else if value[i] == '?' || value[i] == '#' {
        i
    } else {
        suffix_start(value, i + 1)
    }
}

/// A reference without its query and its fragment.
pub open spec fn path_part(value: Seq<char>) -> Seq<char> {
    value.take(suffix_start(value, 0))
}

fn cut_suffix(value: &[char]) -> (part: Vec<char>)
    ensures
        part@ == path_part(value@),
{
    let mut part: Vec<char> = Vec::new();
    let mut i: usize = 0;
    while i < value.len()
        invariant
            i <= value.len(),
            part@ == value@.take(i as int),
            suffix_start(value@, 0) == suffix_start(value@, i as int),
        decreases value.len() - i,
    {
        if value[i] == '?' || value[i] == '#' {
            return part;
        }
        part.push(value[i]);
        assert(value@.take(i + 1) =~= value@.take(i as int).push(value@[i as int]));
        i += 1;
    }
    assert(value@.take(value@.len() as int) =~= value@);
    part
}

/// The path that a percent-encoded part stands for, or what is wrong with it: encoded separators,
/// bytes that are no text, malformed escapes, and absolute paths and backslashes.
pub open spec fn decoded_path(part: Seq<char>) -> Result<Seq<char>, Seq<char>> {
    let plain = percent::decoded(encode_utf8(part));
    if text::holds(text::lowercase(part), "%2f"@) || text::holds(text::lowercase(part), "%5c"@) {
        Err("encoded path separators are not allowed in support references"@)
    } else if !valid_utf8(plain) {
        Err("support reference has malformed UTF-8 percent encoding"@)
    } else if percent::strictly_decoded(encode_utf8(part)) is None {
        Err("support reference has malformed percent encoding"@)
    } else {
        let path = decode_utf8(plain);
        if (path.len() > 0 && path[0] == '/') || path.contains('\\') {
            Err("absolute or backslash support paths are not allowed"@)
        } else {
            Ok(path)
        }
    }
}

fn decode_path(part: &str) -> (result: Result<String, String>)
    ensures
        match (result, decoded_path(part@)) {
            (Ok(path), Ok(model)) => path@ == model,
            (Err(message), Err(model)) => message@ == model,
            _ => false,
        },
{
    let lower = text::to_lowercase(part);
    if text::contains(lower.as_str(), "%2f") || text::contains(lower.as_str(), "%5c") {
        return Err(
            text::copy_of("encoded path separators are not allowed in support references"),
        );
    }
    let path = match percent::decode_text(part) {
        Some(path) => path,
        None => {
            return Err(text::copy_of("support reference has malformed UTF-8 percent encoding"));
        },
    };
    if percent::strict_decode(part.as_bytes()).is_none() {
        return Err(text::copy_of("support reference has malformed percent encoding"));
    }
    let chars = text::chars_of(path.as_str());
    if (chars.len() > 0 && chars[0] == '/') || text::contains_char(path.as_str(), '\\') {
        return Err(text::copy_of("absolute or backslash support paths are not allowed"));
    }
    Ok(path)
}

// ---- segments ----

/// Whether a part of a path names something.
pub open spec fn is_normal(part: Seq<char>) -> bool {
    part.len() > 0 && part != "."@ && part != ".."@
}

/// The first `count` parts that name something.
pub open spec fn normal_parts(parts: Seq<Seq<char>>, count: int) -> Seq<Seq<char>>
    decreases count,
{
    if count <= 0 {
        Seq::empty()
    } else {
        let before = normal_parts(parts, count - 1);
        if is_normal(parts[count - 1]) {
            before.push(parts[count - 1])
        } else {
            before
        }
    }
}

/// The segments of a directory.
pub open spec fn directory_segments(base: Seq<char>) -> Seq<Seq<char>> {
    let parts = text::split(base, '/');
    normal_parts(parts, parts.len() as int)
}

/// The segments after the parts from `i` on: `.` and empty parts stay, `..` goes up, and anything
/// else goes down. None may go up beyond the first, and none may hold a control character.
pub open spec fn walked(parts: Seq<Seq<char>>, i: int, segments: Seq<Seq<char>>) -> Result<
    Seq<Seq<char>>,
    Seq<char>,
>
    decreases parts.len() - i,
{
    if i < 0 || i >= parts.len() {
        Ok(segments)
    } else if parts[i].len() == 0 || parts[i] == "."@ {
        walked(parts, i + 1, segments)
    } else if parts[i] == ".."@ {
        if segments.len() == 0 {
            Err("support path traversal escapes the entry directory"@)
        } else {
            walked(parts, i + 1, segments.drop_last())
        }
    } else if text::has_control(parts[i]) {
        Err("support path contains an invalid segment"@)
    } else {
        walked(parts, i + 1, segments.push(parts[i]))
    }
}

/// Segments with separators between them.
pub open spec fn joined_segments(segments: Seq<Seq<char>>) -> Seq<char>
    decreases segments.len(),
{
    if segments.len() == 0 {
        Seq::empty()
    } else if segments.len() == 1 {
        segments[0]
    } else {
        joined_segments(segments.drop_last()) + seq!['/'] + segments.last()
    }
}

/// The support path that a local path stands for in a directory.
pub open spec fn support_path_of(path: Seq<char>, base: Seq<char>) -> Result<
    Option<Seq<char>>,
    Seq<char>,
> {
    match walked(text::split(path, '/'), 0, directory_segments(base)) {
        Err(message) => Err(message),
        Ok(segments) => if segments.len() == 0 {
            Err("support path is empty"@)
        } else {
            Ok(Some(joined_segments(segments)))
        },
    }
}

/// The support path that a reference in a document of the directory stands for; none where the
/// reference is not local.
pub open spec fn normalized(reference: Seq<char>, base: Seq<char>) -> Result<
    Option<Seq<char>>,
    Seq<char>,
> {
    let value = text::trimmed(reference);
    if is_elsewhere(value) {
        Ok(None)
    } else {
        match scheme_of(value) {
            Some(name) => scheme_verdict(name),
            None => match decoded_path(path_part(value)) {
                Err(message) => Err(message),
                Ok(path) => support_path_of(path, base),
            },
        }
    }
}

fn normal_segments(base: &str) -> (segments: Vec<String>)
    ensures
        text::texts(segments@) == directory_segments(base@),
{
    let chars = text::chars_of(base);
    let parts = text::split_chars(&chars, '/');
    let ghost split = text::split(base@, '/');
    let mut segments: Vec<String> = Vec::new();
    let mut i: usize = 0;
    assert(text::texts(segments@) =~= Seq::<Seq<char>>::empty());
    while i < parts.len()
        invariant
            i <= parts.len(),
            split == text::views(parts@),
            text::texts(segments@) == normal_parts(split, i as int),
        decreases parts.len() - i,
    {
        let part = text::string_of(&parts[i]);
        assert(split[i as int] == part@);
        if parts[i].len() > 0 && !text::same_text(part.as_str(), ".") && !text::same_text(
            part.as_str(),
            "..",
        ) {
            let ghost before = text::texts(segments@);
            let ghost added = part@;
            segments.push(part);
            assert(text::texts(segments@) =~= before.push(added));
        }
        i += 1;
    }
    assert(split.len() == parts@.len());
    segments
}

fn walk(path: &str, base: &str) -> (result: Result<Vec<String>, String>)
    ensures
        match (result, walked(text::split(path@, '/'), 0, directory_segments(base@))) {
            (Ok(segments), Ok(model)) => text::texts(segments@) == model,
            (Err(message), Err(model)) => message@ == model,
            _ => false,
        },
{
    let chars = text::chars_of(path);
    let parts = text::split_chars(&chars, '/');
    let ghost split = text::split(path@, '/');
    let ghost whole = walked(split, 0, directory_segments(base@));
    let mut segments = normal_segments(base);
    let mut i: usize = 0;
    while i < parts.len()
        invariant
            i <= parts.len(),
            split == text::views(parts@),
            split == text::split(path@, '/'),
            whole == walked(split, 0, directory_segments(base@)),
            whole == walked(split, i as int, text::texts(segments@)),
        decreases parts.len() - i,
    {
        let part = text::string_of(&parts[i]);
        assert(split[i as int] == part@);
        assert(text::texts(segments@).len() == segments@.len());
        if parts[i].len() == 0 || text::same_text(part.as_str(), ".") {
            i += 1;
            continue;
        }
        if text::same_text(part.as_str(), "..") {
            let ghost before = segments@;
            if segments.pop().is_none() {
                return Err(text::copy_of("support path traversal escapes the entry directory"));
            }
            assert(text::texts(segments@) =~= text::texts(before).drop_last());
        } else {
            if text::contains_control(part.as_str()) {
                return Err(text::copy_of("support path contains an invalid segment"));
            }
            let ghost before = text::texts(segments@);
            let ghost added = part@;
            segments.push(part);
            assert(text::texts(segments@) =~= before.push(added));
        }
        i += 1;
    }
    assert(split.len() == parts@.len());
    Ok(segments)
}

fn join(segments: &[String]) -> (whole: String)
    ensures
        whole@ == joined_segments(text::texts(segments@)),
{
    let mut whole = String::new();
    let ghost texts = text::texts(segments@);
    let mut i: usize = 0;
    assert(texts.take(0) =~= Seq::<Seq<char>>::empty());
    while i < segments.len()
        invariant
            i <= segments.len(),
            texts == text::texts(segments@),
            whole@ == joined_segments(texts.take(i as int)),
        decreases segments.len() - i,
    {
        assert(texts.take(i + 1).drop_last() =~= texts.take(i as int));
        assert(texts.take(i + 1).last() == segments@[i as int]@);
        whole =
        if i == 0 {
            text::copy_of(segments[i].as_str())
        } else {
            proof {
                reveal_strlit("/");
                assert("/"@ =~= seq!['/']);
            }
            text::joined3(whole.as_str(), "/", segments[i].as_str())
        };
        i += 1;
    }
    assert(texts.take(segments@.len() as int) =~= texts);
    whole
}

/// The support path that a reference in a document of the directory stands for; none where the
/// reference is not local.
pub fn normalize_local_reference_from(reference: &str, base: &str) -> (result: Result<
    Option<String>,
    String,
>)
    ensures
        match (result, normalized(reference@, base@)) {
            (Ok(path), Ok(model)) => text::optional(path) == model,
            (Err(message), Err(model)) => message@ == model,
            _ => false,
        },
{
    let value = text::trim(reference);
    let chars = text::chars_of(value.as_str());
    if chars.len() == 0 || chars[0] == '#' || text::text_starts_with(value.as_str(), "//") {
        return Ok(None);
    }
    let colon: Vec<char> = vec![':'];
    assert(colon@ =~= seq![':']);
    if let Some(at) = text::find(&chars, &colon) {
        proof {
            text::lemma_found_fits(value@, seq![':'], 0);
        }
        let start = vstd::slice::slice_subrange(chars.as_slice(), 0, at);
        assert(start@ =~= value@.take(at as int));
        if scheme(start) {
            let name = text::string_of(start);
            let lower = text::to_lowercase(name.as_str());
            if text::same_text(lower.as_str(), "file") || start.len() == 1 {
                return Err(
                    text::copy_of("absolute filesystem support references are not allowed"),
                );
            }
            return Ok(None);
        }
    }
    let part = text::string_of(&cut_suffix(&chars));
    let path = match decode_path(part.as_str()) {
        Ok(path) => path,
        Err(message) => {
            return Err(message);
        },
    };
    let segments = match walk(path.as_str(), base) {
        Ok(segments) => segments,
        Err(message) => {
            return Err(message);
        },
    };
    assert(text::texts(segments@).len() == segments@.len());
    if segments.len() == 0 {
        return Err(text::copy_of("support path is empty"));
    }
    Ok(Some(join(&segments)))
}

// ---- what a support path is ----

/// Whether a segment can stand in a support path.
pub open spec fn is_good_segment(s: Seq<char>) -> bool {
    is_normal(s) && !s.contains('/') && !s.contains('\\') && !text::has_control(s)
}

/// Whether every segment can stand in a support path.
pub open spec fn are_good(segments: Seq<Seq<char>>) -> bool {
    forall|i: int| 0 <= i < segments.len() ==> is_good_segment(#[trigger] segments[i])
}

proof fn lemma_pieces(s: Seq<char>, i: int, k: int)
    requires
        0 <= i < text::split(s, '/').len(),
        0 <= k < text::split(s, '/')[i].len(),
    ensures
        text::split(s, '/')[i][k] != '/',
        s.contains(text::split(s, '/')[i][k]),
    decreases s.len(),
{
    text::lemma_split_nonempty(s, '/');
    if s.len() > 0 {
        let before = text::split(s.drop_last(), '/');
        text::lemma_split_nonempty(s.drop_last(), '/');
        let c = text::split(s, '/')[i][k];
        if s.last() == '/' {
            if i < before.len() {
                lemma_pieces(s.drop_last(), i, k);
                lemma_contains_more(s, c);
            }
        } else if i < before.len() - 1 {
            lemma_pieces(s.drop_last(), i, k);
            lemma_contains_more(s, c);
        } else if k < before.last().len() {
            lemma_pieces(s.drop_last(), i, k);
            lemma_contains_more(s, c);
        } else {
            assert(c == s.last());
            assert(s[s.len() - 1] == c);
        }
    }
}

proof fn lemma_contains_more(s: Seq<char>, c: char)
    requires
        s.len() > 0,
        s.drop_last().contains(c),
    ensures
        s.contains(c),
{
    let k = choose|k: int| 0 <= k < s.drop_last().len() && s.drop_last()[k] == c;
    assert(s[k] == c);
}

proof fn lemma_part_is_plain(s: Seq<char>, i: int)
    requires
        0 <= i < text::split(s, '/').len(),
        !s.contains('\\'),
    ensures
        !text::split(s, '/')[i].contains('/'),
        !text::split(s, '/')[i].contains('\\'),
{
    let part = text::split(s, '/')[i];
    if part.contains('/') {
        let k = choose|k: int| 0 <= k < part.len() && part[k] == '/';
        lemma_pieces(s, i, k);
    }
    if part.contains('\\') {
        let k = choose|k: int| 0 <= k < part.len() && part[k] == '\\';
        lemma_pieces(s, i, k);
    }
}

proof fn lemma_walked_good(path: Seq<char>, i: int, segments: Seq<Seq<char>>)
    requires
        !path.contains('\\'),
        are_good(segments),
    ensures
        walked(text::split(path, '/'), i, segments) matches Ok(found) ==> are_good(found),
    decreases text::split(path, '/').len() - i,
{
    let parts = text::split(path, '/');
    if 0 <= i < parts.len() {
        lemma_part_is_plain(path, i);
        if parts[i].len() == 0 || parts[i] == "."@ {
            lemma_walked_good(path, i + 1, segments);
        } else if parts[i] == ".."@ {
            if segments.len() > 0 {
                lemma_walked_good(path, i + 1, segments.drop_last());
            }
        } else if !text::has_control(parts[i]) {
            lemma_walked_good(path, i + 1, segments.push(parts[i]));
        }
    }
}

proof fn lemma_directory_good(base: Seq<char>, count: int)
    requires
        !base.contains('\\'),
        !text::has_control(base),
        count <= text::split(base, '/').len(),
    ensures
        are_good(normal_parts(text::split(base, '/'), count)),
    decreases count,
{
    if count > 0 {
        let parts = text::split(base, '/');
        lemma_directory_good(base, count - 1);
        lemma_part_is_plain(base, count - 1);
        let part = parts[count - 1];
        if text::has_control(part) {
            let k = choose|k: int| 0 <= k < part.len() && text::is_control(#[trigger] part[k]);
            lemma_pieces(base, count - 1, k);
            let m = choose|m: int| 0 <= m < base.len() && base[m] == part[k];
            assert(text::is_control(base[m]));
        }
    }
}

/// A text with a separator and a piece behind it has that piece behind its own.
pub proof fn lemma_split_after(head: Seq<char>, tail: Seq<char>)
    requires
        !tail.contains('/'),
    ensures
        text::split(head + seq!['/'] + tail, '/') == text::split(head, '/').push(tail),
    decreases tail.len(),
{
    let whole = head + seq!['/'] + tail;
    if tail.len() == 0 {
        assert(whole.last() == '/');
        assert(whole.drop_last() =~= head);
        assert(tail =~= Seq::<char>::empty());
    } else {
        let shorter = tail.drop_last();
        assert(!shorter.contains('/')) by {
            if shorter.contains('/') {
                lemma_contains_more(tail, '/');
            }
        }
        lemma_split_after(head, shorter);
        assert(whole.drop_last() =~= head + seq!['/'] + shorter);
        assert(whole.last() == tail.last());
        assert(tail[tail.len() - 1] != '/') by {
            assert(tail.contains(tail[tail.len() - 1]));
        }
        let before = text::split(head, '/').push(shorter);
        assert(before.drop_last() =~= text::split(head, '/'));
        assert(shorter.push(tail.last()) =~= tail);
    }
}

proof fn lemma_split_single(s: Seq<char>)
    requires
        !s.contains('/'),
    ensures
        text::split(s, '/') == seq![s],
    decreases s.len(),
{
    if s.len() > 0 {
        let shorter = s.drop_last();
        assert(!shorter.contains('/')) by {
            if shorter.contains('/') {
                lemma_contains_more(s, '/');
            }
        }
        lemma_split_single(shorter);
        assert(s[s.len() - 1] != '/') by {
            assert(s.contains(s[s.len() - 1]));
        }
        assert(seq![shorter].drop_last().push(seq![shorter].last().push(s.last())) =~= seq![s]) by {
            assert(shorter.push(s.last()) =~= s);
        }
    } else {
        assert(s =~= Seq::<char>::empty());
    }
}

proof fn lemma_joined_splits(segments: Seq<Seq<char>>)
    requires
        are_good(segments),
        segments.len() > 0,
    ensures
        text::split(joined_segments(segments), '/') == segments,
        joined_segments(segments).len() > 0,
        !joined_segments(segments).contains('\\'),
        !text::has_control(joined_segments(segments)),
    decreases segments.len(),
{
    let whole = joined_segments(segments);
    let last = segments.last();
    assert(is_good_segment(segments[segments.len() - 1]));
    if segments.len() == 1 {
        lemma_split_single(segments[0]);
        assert(seq![segments[0]] =~= segments);
    } else {
        let head = joined_segments(segments.drop_last());
        assert(are_good(segments.drop_last()));
        lemma_joined_splits(segments.drop_last());
        lemma_split_after(head, last);
        assert(segments.drop_last().push(last) =~= segments);
        if whole.contains('\\') {
            let k = choose|k: int| 0 <= k < whole.len() && whole[k] == '\\';
            if k < head.len() {
                assert(head[k] == '\\');
            } else if k > head.len() {
                assert(last[k - head.len() - 1] == '\\');
            }
        }
        if text::has_control(whole) {
            let k = choose|k: int| 0 <= k < whole.len() && text::is_control(#[trigger] whole[k]);
            if k < head.len() {
                assert(text::is_control(head[k]));
            } else if k > head.len() {
                assert(text::is_control(last[k - head.len() - 1]));
            }
        }
    }
}

/// Every support path that a reference stands for is one that the daemon serves: it names a file
/// below the document, whatever the reference holds. The document's directory is the entry's own,
/// or that of a support path.
pub proof fn law_references_stay_below(reference: Seq<char>, base: Seq<char>)
    requires
        base.len() == 0 || paths::is_support_path(base),
    ensures
        normalized(reference, base) matches Ok(Some(path)) ==> paths::is_support_path(path),
{
    if let Ok(Some(found)) = normalized(reference, base) {
        let value = text::trimmed(reference);
        let path = decoded_path(path_part(value))->Ok_0;
        let start = directory_segments(base);
        lemma_directory_good(base, text::split(base, '/').len() as int);
        lemma_walked_good(path, 0, start);
        let segments = walked(text::split(path, '/'), 0, start)->Ok_0;
        lemma_joined_splits(segments);
        if paths::has_idle_part(text::split(found, '/')) {
            let i = choose|i: int|
                0 <= i < segments.len() && ((#[trigger] segments[i]).len() == 0 || segments[i]
                    == "."@ || segments[i] == ".."@);
            assert(is_good_segment(segments[i]));
        }
    }
}

} // verus!
