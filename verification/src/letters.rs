//! What texts, escapes and digits are made of.
use vstd::prelude::*;
use crate::hex;
use crate::path;
use crate::percent;
use crate::text;

verus! {

// ---- characters ----

/// White space is the tab, the ends of lines and pages, the space, and the spaces of other scripts; no
/// other character below 128 is white space, and control characters are those below the space and
/// from 127 to 159.
pub proof fn law_white_space_and_controls(c: char)
    ensures
        text::is_white_space(' ') && text::is_white_space('\t') && text::is_white_space('\n')
            && text::is_white_space('\r') && text::is_white_space('\u{b}') && text::is_white_space('\u{c}'),
        text::is_white_space('\u{85}') && text::is_white_space('\u{a0}') && text::is_white_space(
            '\u{1680}',
        ) && text::is_white_space('\u{2028}') && text::is_white_space('\u{2029}')
            && text::is_white_space('\u{202f}') && text::is_white_space('\u{205f}')
            && text::is_white_space('\u{3000}'),
        '\u{2000}' <= c <= '\u{200a}' ==> text::is_white_space(c),
        c < '\u{80}' && text::is_white_space(c) ==> c == ' ' || '\t' <= c <= '\r',
        text::is_white_space(c) ==> !text::is_ascii_alphanumeric(c) && c < '\u{3001}',
        text::is_control(c) <==> c < ' ' || '\u{7f}' <= c <= '\u{9f}',
{
}

/// A capital letter's small letter stands at the same place of the alphabet, and nothing else changes;
/// a text has as many characters in lower case, and is in lower case then.
pub proof fn law_lower_case(s: Seq<char>, i: int)
    requires
        0 <= i < s.len(),
    ensures
        text::lowercase(s).len() == s.len(),
        'A' <= s[i] <= 'Z' ==> text::lowercase(s)[i] as int - 'a' as int == s[i] as int - 'A' as int,
        !('A' <= s[i] <= 'Z') ==> text::lowercase(s)[i] == s[i],
        text::lowercase(text::lowercase(s)) == text::lowercase(s),
{
    let small = text::lowercase(s);
    assert forall|k: int| 0 <= k < s.len() implies text::lowercase(small)[k] == small[k] by {
        assert(small[k] == text::lower(s[k]));
        if 'A' <= s[k] <= 'Z' {
            assert('a' <= small[k] <= 'z');
        }
    }
    assert(text::lowercase(small) =~= small);
    if 'A' <= s[i] <= 'Z' {
        assert(small[i] == text::lower(s[i]));
    }
}

// ---- trimming ----

proof fn lemma_start(white: Seq<char>, rest: Seq<char>)
    requires
        text::is_blank(white),
    ensures
        text::trimmed_start(white + rest) == text::trimmed_start(rest),
    decreases white.len(),
{
    if white.len() > 0 {
        let whole = white + rest;
        assert(whole[0] == white[0]);
        assert(whole.drop_first() =~= white.drop_first() + rest);
        assert(text::is_blank(white.drop_first()));
        lemma_start(white.drop_first(), rest);
    } else {
        assert(white + rest =~= rest);
    }
}

proof fn lemma_end(rest: Seq<char>, white: Seq<char>)
    requires
        text::is_blank(white),
    ensures
        text::trimmed_end(rest + white) == text::trimmed_end(rest),
    decreases white.len(),
{
    if white.len() > 0 {
        let whole = rest + white;
        assert(whole.last() == white.last());
        assert(whole.drop_last() =~= rest + white.drop_last());
        assert(text::is_blank(white.drop_last()));
        lemma_end(rest, white.drop_last());
    } else {
        assert(rest + white =~= rest);
    }
}

/// Trimming takes away the white space around a text and nothing else.
pub proof fn law_trimming_takes_white_space(before: Seq<char>, middle: Seq<char>, after: Seq<char>)
    requires
        text::is_blank(before),
        text::is_blank(after),
        middle.len() > 0,
        !text::is_white_space(middle[0]),
        !text::is_white_space(middle.last()),
    ensures
        text::trimmed(before + middle + after) == middle,
{
    assert(before + middle + after =~= before + (middle + after));
    lemma_start(before, middle + after);
    assert((middle + after)[0] == middle[0]);
    lemma_end(middle, after);
}

// ---- pieces ----

/// The pieces with the separator between them.
pub open spec fn rejoined(pieces: Seq<Seq<char>>, separator: char) -> Seq<char>
    decreases pieces.len(),
{
    if pieces.len() == 0 {
        Seq::empty()
    } else if pieces.len() == 1 {
        pieces[0]
    } else {
        rejoined(pieces.drop_last(), separator).push(separator) + pieces.last()
    }
}

/// The pieces of a text hold no separator, and with one between each and the next they are the text.
pub proof fn law_pieces_make_the_text(s: Seq<char>, separator: char)
    ensures
        text::split(s, separator).len() > 0,
        rejoined(text::split(s, separator), separator) == s,
        forall|i: int|
            0 <= i < text::split(s, separator).len() ==> !(#[trigger] text::split(
                s,
                separator,
            )[i]).contains(separator),
    decreases s.len(),
{
    let pieces = text::split(s, separator);
    if s.len() > 0 {
        let before = s.drop_last();
        law_pieces_make_the_text(before, separator);
        let earlier = text::split(before, separator);
        if s.last() == separator {
            assert(pieces.drop_last() =~= earlier);
            assert(rejoined(pieces, separator) =~= before.push(separator));
            assert(before.push(s.last()) =~= s);
        } else {
            let last = earlier.last();
            assert(pieces.last() == last.push(s.last()));
            assert(pieces.drop_last() =~= earlier.drop_last());
            if earlier.len() == 1 {
                assert(pieces[0] == last.push(s.last()));
                assert(before.push(s.last()) =~= s);
            } else {
                assert(rejoined(pieces, separator) =~= rejoined(earlier, separator).push(s.last()));
                assert(before.push(s.last()) =~= s);
            }
            assert forall|i: int| 0 <= i < pieces.len() implies !(#[trigger] pieces[i]).contains(
                separator,
            ) by {
                if i < pieces.len() - 1 {
                    assert(pieces[i] == earlier[i]);
                } else {
                    assert(!earlier[earlier.len() - 1].contains(separator));
                    if pieces[i].contains(separator) {
                        let k = choose|k: int| 0 <= k < pieces[i].len() && pieces[i][k] == separator;
                        assert(last[k] == separator);
                    }
                }
            }
        }
    } else {
        assert(s =~= Seq::<char>::empty());
    }
}

/// What is found in a text is the first place at which it stands, and it is found wherever it stands.
pub proof fn law_the_first_place_is_found(s: Seq<char>, pattern: Seq<char>, i: int)
    requires
        text::occurs_at(s, pattern, i),
    ensures
        text::found(s, pattern) matches Some(at) && at <= i && text::occurs_at(s, pattern, at),
{
    lemma_first_from(s, pattern, i, 0);
    text::lemma_found_fits(s, pattern, 0);
}

proof fn lemma_first_from(s: Seq<char>, pattern: Seq<char>, i: int, start: int)
    requires
        text::occurs_at(s, pattern, i),
        0 <= start <= i,
    ensures
        text::found_from(s, pattern, start) matches Some(at) && at <= i,
    decreases i - start,
{
    if !text::occurs_at(s, pattern, start) {
        lemma_first_from(s, pattern, i, start + 1);
    }
}

// ---- escapes ----

/// The byte that two hexadecimal digits stand for.
pub open spec fn byte_of(high: int, low: int) -> u8 {
    (high * 16 + low) as u8
}

/// A percent sign and two hexadecimal digits, in either case, stand for the byte that has them as its
/// halves; a percent sign without two is no escape; and any other byte stands for itself.
pub proof fn law_escapes_stand_for_bytes(high: u8, low: u8, rest: Seq<u8>, plain: u8)
    requires
        high < 16,
        low < 16,
        plain != 0x25,
    ensures
        percent::strictly_decoded(
            seq![0x25u8, upper_byte(high), upper_byte(low)] + rest,
        ) == joined_to(byte_of(high as int, low as int), percent::strictly_decoded(rest)),
        percent::strictly_decoded(
            seq![0x25u8, lower_byte(high), lower_byte(low)] + rest,
        ) == joined_to(byte_of(high as int, low as int), percent::strictly_decoded(rest)),
        percent::strictly_decoded(seq![plain] + rest) == joined_to(
            plain,
            percent::strictly_decoded(rest),
        ),
        percent::strictly_decoded(seq![0x25u8]) is None,
        percent::strictly_decoded(seq![0x25u8, upper_byte(high)]) is None,
        percent::strictly_decoded(seq![0x25u8, 0x67u8, upper_byte(low)] + rest) is None,
        percent::decoded(seq![0x25u8, upper_byte(high), upper_byte(low)] + rest) == seq![
            byte_of(high as int, low as int),
        ] + percent::decoded(rest),
        percent::decoded(seq![plain] + rest) == seq![plain] + percent::decoded(rest),
{
    let upper = seq![0x25u8, upper_byte(high), upper_byte(low)] + rest;
    assert(upper.skip(3) =~= rest);
    let lower = seq![0x25u8, lower_byte(high), lower_byte(low)] + rest;
    assert(lower.skip(3) =~= rest);
    let one = seq![plain] + rest;
    assert(one.skip(1) =~= rest);
}

/// The byte of a capital hexadecimal digit.
pub open spec fn upper_byte(value: u8) -> u8 {
    if value < 10 {
        (0x30 + value) as u8
    } else {
        (0x41 + (value - 10)) as u8
    }
}

/// The byte of a small hexadecimal digit.
pub open spec fn lower_byte(value: u8) -> u8 {
    if value < 10 {
        (0x30 + value) as u8
    } else {
        (0x61 + (value - 10)) as u8
    }
}

/// A byte before what follows, where anything does.
pub open spec fn joined_to(first: u8, rest: Option<Seq<u8>>) -> Option<Seq<u8>> {
    match rest {
        Some(bytes) => Some(seq![first] + bytes),
        None => None,
    }
}

// ---- digits ----

/// The value of a small hexadecimal digit.
pub open spec fn digit_of(c: char) -> int {
    if c <= '9' {
        c as int - '0' as int
    } else {
        c as int - 'a' as int + 10
    }
}

/// The hexadecimal text of bytes has two digits for each, the high half first.
pub proof fn law_hex_gives_the_halves(bytes: Seq<u8>, i: int)
    requires
        0 <= i < bytes.len(),
    ensures
        hex::hex(bytes).len() == 2 * bytes.len(),
        digit_of(hex::hex(bytes)[2 * i]) == bytes[i] as int / 16,
        digit_of(hex::hex(bytes)[2 * i + 1]) == bytes[i] as int % 16,
        hex::is_lower_hex(hex::hex(bytes)[2 * i]),
    decreases bytes.len(),
{
    let before = bytes.drop_last();
    if before.len() > 0 {
        law_hex_gives_the_halves(before, 0);
    } else {
        assert(hex::hex(before) =~= Seq::<char>::empty());
    }
    if i < before.len() {
        law_hex_gives_the_halves(before, i);
        assert(hex::hex(bytes)[2 * i] == hex::hex(before)[2 * i]);
        assert(hex::hex(bytes)[2 * i + 1] == hex::hex(before)[2 * i + 1]);
    }
}

/// A digest, or a token, is exactly its digits and its small letters up to `f`.
pub proof fn law_lower_hex_is_digits_and_a_to_f(s: Seq<char>, len: nat)
    ensures
        hex::is_lower_hex_text(s, len) <==> s.len() == len && forall|i: int|
            0 <= i < s.len() ==> ('0' <= #[trigger] s[i] <= '9' || 'a' <= s[i] <= 'f'),
{
    if hex::is_lower_hex_text(s, len) {
        assert forall|i: int| 0 <= i < s.len() implies ('0' <= #[trigger] s[i] <= '9' || 'a' <= s[i]
            <= 'f') by {
            assert(hex::is_lower_hex(s[i]));
        }
    }
}

// ---- paths ----

/// A name below a directory follows it after one slash, whether or not the directory ends in one.
pub proof fn law_names_follow_one_slash(base: Seq<u8>, name: Seq<u8>)
    requires
        base.len() > 0,
        base.last() != 0x2f,
    ensures
        path::below(base, name) == base + seq![0x2fu8] + name,
        path::below(base.push(0x2f), name) == base + seq![0x2fu8] + name,
        path::is_absolute(base) <==> base[0] == 0x2f,
{
    assert(base.push(0x2f) =~= base + seq![0x2fu8]);
}

proof fn lemma_last_start(front: Seq<u8>, name: Seq<u8>)
    requires
        !name.contains(0x2f),
    ensures
        path::last_start(front.push(0x2f) + name) == front.len() + 1,
    decreases name.len(),
{
    let whole = front.push(0x2f) + name;
    if name.len() > 0 {
        assert(name.contains(name.last()));
        assert(whole.last() == name.last());
        assert(whole.drop_last() =~= front.push(0x2f) + name.drop_last());
        assert(!name.drop_last().contains(0x2f)) by {
            if name.drop_last().contains(0x2f) {
                let i = choose|i: int| 0 <= i < name.drop_last().len() && name.drop_last()[i] == 0x2f;
                assert(name[i] == 0x2f);
            }
        }
        lemma_last_start(front, name.drop_last());
    } else {
        assert(whole =~= front.push(0x2f));
    }
}

/// The name of a file is what follows the last slash of its path.
pub proof fn law_file_names_follow_the_last_slash(directory: Seq<u8>, name: Seq<u8>)
    requires
        name.len() > 0,
        !name.contains(0x2f),
        name != seq![0x2eu8],
        name != seq![0x2eu8, 0x2eu8],
    ensures
        path::byte_name(directory.push(0x2f) + name) == Some(name),
{
    let whole = directory.push(0x2f) + name;
    lemma_last_start(directory, name);
    assert(whole.skip(directory.len() as int + 1) =~= name);
}

} // verus!
