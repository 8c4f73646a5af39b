//! Texts of which only the start is looked at: cut anywhere they are still texts, and nothing is taken
//! for the start of a text that is none.
use vstd::prelude::*;
use vstd::utf8::*;
use crate::storage::classification;

verus! {

proof fn lemma_two(a: u8, b: u8)
    by (bit_vector)
    requires
        0xc0 <= a <= 0xdf,
        0x80 <= b <= 0xbf,
    ensures
        codepoint_width_2(a, b) >= 0x80 <==> a >= 0xc2,
        codepoint_width_2(a, b) <= 0x7ff,
{
}

proof fn lemma_three(a: u8, b: u8, c: u8)
    by (bit_vector)
    requires
        0xe0 <= a <= 0xef,
        0x80 <= b <= 0xbf,
        0x80 <= c <= 0xbf,
    ensures
        codepoint_width_3(a, b, c) >= 0x800 <==> (a > 0xe0 || b >= 0xa0),
        (0xd800 <= codepoint_width_3(a, b, c) && codepoint_width_3(a, b, c) <= 0xdfff) <==> (a == 0xed
            && b >= 0xa0),
{
}

proof fn lemma_four(a: u8, b: u8, c: u8, d: u8)
    by (bit_vector)
    requires
        0xf0 <= a <= 0xf7,
        0x80 <= b <= 0xbf,
        0x80 <= c <= 0xbf,
        0x80 <= d <= 0xbf,
    ensures
        codepoint_width_4(a, b, c, d) >= 0x10000 <==> (a > 0xf0 || b >= 0x90),
        codepoint_width_4(a, b, c, d) <= 0x10ffff <==> (a < 0xf4 || a == 0xf4 && b <= 0x8f),
        codepoint_width_4(a, b, c, d) >= 0x10000 ==> !(0xd800 <= codepoint_width_4(a, b, c, d)
            && codepoint_width_4(a, b, c, d) <= 0xdfff),
{
}

/// What begins a character is what a character's bytes begin with.
proof fn lemma_first_cut(w: Seq<u8>, n: int)
    requires
        valid_first_scalar(w),
        0 < n < length_of_first_scalar(w),
    ensures
        classification::begins_character(w.take(n)),
{
    let tail = w.take(n);
    assert(tail[0] == w[0]);
    if is_leading_byte_width_2(w[0]) {
        lemma_two(w[0], w[1]);
    } else if is_leading_byte_width_3(w[0]) {
        lemma_three(w[0], w[1], w[2]);
        if n == 2 {
            assert(tail[1] == w[1]);
        }
    } else {
        lemma_four(w[0], w[1], w[2], w[3]);
        if n >= 2 {
            assert(tail[1] == w[1]);
        }
        if n == 3 {
            assert(tail[2] == w[2]);
        }
    }
}

/// How many bytes behind the last whole character of the first `n` bytes.
spec fn left_over(w: Seq<u8>, n: int) -> int
    decreases w.len(),
    when valid_utf8(w)
{
    if n <= 0 || w.len() == 0 {
        0
    } else if n < length_of_first_scalar(w) {
        n
    } else {
        left_over(pop_first_scalar(w), n - length_of_first_scalar(w))
    }
}

proof fn lemma_cut(w: Seq<u8>, n: int)
    requires
        valid_utf8(w),
        0 <= n <= w.len(),
    ensures
        0 <= left_over(w, n) <= 3,
        left_over(w, n) <= n,
        valid_utf8(w.take(n - left_over(w, n))),
        left_over(w, n) > 0 ==> classification::begins_character(w.subrange(n - left_over(w, n), n)),
    decreases w.len(),
{
    if n == 0 {
        assert(w.take(0) =~= Seq::<u8>::empty());
    } else {
        let len = length_of_first_scalar(w);
        if n < len {
            lemma_first_cut(w, n);
            assert(w.subrange(0, n) =~= w.take(n));
            assert(w.take(0) =~= Seq::<u8>::empty());
        } else {
            let rest = pop_first_scalar(w);
            lemma_cut(rest, n - len);
            let cut = left_over(rest, n - len);
            let first = take_first_scalar(w);
            reveal_with_fuel(valid_utf8, 2);
            assert(valid_utf8(first));
            valid_utf8_concat(first, rest.take(n - len - cut));
            assert(first + rest.take(n - len - cut) =~= w.take(n - cut));
            assert(rest.subrange(n - len - cut, n - len) =~= w.subrange(n - cut, n));
        }
    }
}

/// Where a beginning of a text is a text, it ends at the end of a character.
proof fn lemma_boundary(w: Seq<u8>, m: int)
    requires
        valid_utf8(w),
        0 <= m <= w.len(),
        valid_utf8(w.take(m)),
    ensures
        is_char_boundary(w, m),
    decreases w.len(),
{
    if m > 0 {
        let part = w.take(m);
        assert(valid_first_scalar(part));
        assert(part[0] == w[0]);
        let len = length_of_first_scalar(w);
        assert(length_of_first_scalar(part) == len);
        let rest = pop_first_scalar(w);
        assert(pop_first_scalar(part) =~= rest.take(m - len));
        lemma_boundary(rest, m - len);
    }
}

/// However a text is cut, its start is read as text: all of it but for a character that is cut off,
/// which is less than four bytes.
pub proof fn law_cut_texts_are_read(w: Seq<u8>, n: int)
    requires
        valid_utf8(w),
        !w.contains(0),
        0 <= n <= w.len(),
    ensures
        classification::readable_text(w.take(n), true) matches Some(found) && found.len() <= decode_utf8(
            w,
        ).len() && found == decode_utf8(w).take(found.len() as int) && n - 4 < encode_utf8(
            found,
        ).len() <= n,
        classification::readable_text(w, false) == Some(decode_utf8(w)),
        classification::readable_text(w, true) == Some(decode_utf8(w)),
{
    let b = w.take(n);
    assert(!b.contains(0)) by {
        if b.contains(0) {
            let i = choose|i: int| 0 <= i < b.len() && b[i] == 0;
            assert(w[i] == 0);
        }
    }
    lemma_cut(w, n);
    let cut = left_over(w, n);
    assert(b.take(n - cut) =~= w.take(n - cut));
    assert(b.skip(n - cut) =~= w.subrange(n - cut, n));
    assert(b.take(n) =~= b);
    if cut > 0 {
        assert(classification::text_but_for(b, cut));
    }
    let found = classification::readable_text(b, true)->0;
    let taken = if valid_utf8(b) {
        0int
    } else if classification::text_but_for(b, 1) {
        1
    } else if classification::text_but_for(b, 2) {
        2
    } else {
        3
    };
    assert(found == decode_utf8(b.take(n - taken)));
    assert(b.take(n - taken) =~= w.take(n - taken));
    lemma_boundary(w, n - taken);
    decode_utf8_split(w, n - taken);
    assert(w.subrange(0, n - taken) =~= w.take(n - taken));
    decode_utf8_encode_utf8(w.take(n - taken));
    assert(found =~= decode_utf8(w).take(found.len() as int));
}

/// What completes a character that was begun.
spec fn completion(tail: Seq<u8>) -> Seq<u8> {
    if tail.len() == 1 {
        if tail[0] < 0xe0 {
            seq![0x80u8]
        } else if tail[0] == 0xe0 {
            seq![0xa0u8, 0x80u8]
        } else if tail[0] < 0xf0 {
            seq![0x80u8, 0x80u8]
        } else if tail[0] == 0xf0 {
            seq![0x90u8, 0x80u8, 0x80u8]
        } else {
            seq![0x80u8, 0x80u8, 0x80u8]
        }
    } else if tail.len() == 2 {
        if tail[0] < 0xf0 {
            seq![0x80u8]
        } else {
            seq![0x80u8, 0x80u8]
        }
    } else {
        seq![0x80u8]
    }
}

proof fn lemma_completed(tail: Seq<u8>)
    requires
        classification::begins_character(tail),
    ensures
        valid_utf8(tail + completion(tail)),
{
    let whole = tail + completion(tail);
    assert(whole[0] == tail[0]);
    if tail.len() == 1 {
        assert(whole[1] == completion(tail)[0]);
        if tail[0] < 0xe0 {
            lemma_two(whole[0], whole[1]);
        } else if tail[0] < 0xf0 {
            assert(whole[2] == completion(tail)[1]);
            lemma_three(whole[0], whole[1], whole[2]);
        } else {
            assert(whole[2] == completion(tail)[1]);
            assert(whole[3] == completion(tail)[2]);
            lemma_four(whole[0], whole[1], whole[2], whole[3]);
        }
    } else if tail.len() == 2 {
        assert(whole[1] == tail[1]);
        assert(whole[2] == completion(tail)[0]);
        if tail[0] < 0xf0 {
            lemma_three(whole[0], whole[1], whole[2]);
        } else {
            assert(whole[3] == completion(tail)[1]);
            lemma_four(whole[0], whole[1], whole[2], whole[3]);
        }
    } else {
        assert(whole[1] == tail[1] && whole[2] == tail[2]);
        assert(whole[3] == completion(tail)[0]);
        lemma_four(whole[0], whole[1], whole[2], whole[3]);
    }
    assert(valid_first_scalar(whole));
    assert(length_of_first_scalar(whole) == whole.len());
    assert(pop_first_scalar(whole) =~= Seq::<u8>::empty());
    reveal_with_fuel(valid_utf8, 2);
}

/// What is read as the start of a longer text is the start of one: there are bytes that complete it.
/// What is read as a whole is a text as it is, and no text holds a zero byte.
pub proof fn law_only_texts_are_read(b: Seq<u8>)
    ensures
        classification::readable_text(b, true) is Some ==> exists|rest: Seq<u8>|
            valid_utf8(#[trigger] (b + rest)),
        classification::readable_text(b, false) is Some <==> valid_utf8(b) && !b.contains(0),
        b.contains(0) ==> classification::readable_text(b, true) is None,
{
    if classification::readable_text(b, true) is Some {
        if valid_utf8(b) {
            assert(b + Seq::<u8>::empty() =~= b);
            assert(valid_utf8(b + Seq::<u8>::empty()));
        } else {
            let cut = if classification::text_but_for(b, 1) {
                1int
            } else if classification::text_but_for(b, 2) {
                2
            } else {
                3
            };
            let tail = b.skip(b.len() - cut);
            lemma_completed(tail);
            valid_utf8_concat(b.take(b.len() - cut), tail + completion(tail));
            assert(b.take(b.len() - cut) + (tail + completion(tail)) =~= b + completion(tail));
            assert(valid_utf8(b + completion(tail)));
        }
    }
}

} // verus!
