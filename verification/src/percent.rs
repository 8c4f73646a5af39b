//! Percent-encoding.
use vstd::prelude::*;
use vstd::utf8::*;
use crate::text;

verus! {

/// Whether a byte is an ASCII hexadecimal digit.
pub open spec fn is_hex_digit(b: u8) -> bool {
    0x30 <= b <= 0x39 || 0x41 <= b <= 0x46 || 0x61 <= b <= 0x66
}

/// The value of an ASCII hexadecimal digit.
pub open spec fn hex_value(b: u8) -> int {
    if b <= 0x39 {
        b - 0x30
    } else if b <= 0x46 {
        b - 0x37
    } else {
        b - 0x57
    }
}

/// Whether the bytes start with a percent sign and two hexadecimal digits.
pub open spec fn starts_escape(b: Seq<u8>) -> bool {
    b.len() >= 3 && b[0] == 0x25 && is_hex_digit(b[1]) && is_hex_digit(b[2])
}

/// The bytes with every escape decoded; none where a percent sign starts no escape.
pub open spec fn strictly_decoded(b: Seq<u8>) -> Option<Seq<u8>>
    decreases b.len(),
{
    if b.len() == 0 {
        Some(Seq::empty())
    } else if b[0] != 0x25 {
        match strictly_decoded(b.skip(1)) {
            Some(rest) => Some(seq![b[0]] + rest),
            None => None,
        }
    } else if starts_escape(b) {
        match strictly_decoded(b.skip(3)) {
            Some(rest) => Some(seq![(hex_value(b[1]) * 16 + hex_value(b[2])) as u8] + rest),
            None => None,
        }
    } else {
        None
    }
}

/// The bytes with every escape decoded, and all else as it is.
pub open spec fn decoded(b: Seq<u8>) -> Seq<u8>
    decreases b.len(),
{
    if b.len() == 0 {
        Seq::empty()
    } else if starts_escape(b) {
        seq![(hex_value(b[1]) * 16 + hex_value(b[2])) as u8] + decoded(b.skip(3))
    } else {
        seq![b[0]] + decoded(b.skip(1))
    }
}

/// Where every percent sign starts an escape, the two decodings agree.
pub proof fn lemma_strict_is_plain(b: Seq<u8>)
    ensures
        strictly_decoded(b) matches Some(value) ==> value == decoded(b),
    decreases b.len(),
{
    if b.len() > 0 {
        if b[0] != 0x25 {
            lemma_strict_is_plain(b.skip(1));
        } else if starts_escape(b) {
            lemma_strict_is_plain(b.skip(3));
        }
    }
}

fn hex_digit(b: u8) -> (value: Option<u8>)
    ensures
        match value {
            Some(v) => is_hex_digit(b) && v == hex_value(b) && v < 16,
            None => !is_hex_digit(b),
        },
{
    if 0x30 <= b && b <= 0x39 {
        Some(b - 0x30)
    } else if 0x41 <= b && b <= 0x46 {
        Some(b - 0x37)
    } else if 0x61 <= b && b <= 0x66 {
        Some(b - 0x57)
    } else {
        None
    }
}

/// Decodes every escape; a percent sign that starts none makes the whole malformed.
pub fn strict_decode(bytes: &[u8]) -> (result: Option<Vec<u8>>)
    ensures
        match result {
            Some(value) => strictly_decoded(bytes@) == Some(value@),
            None => strictly_decoded(bytes@) is None,
        },
{
    let mut value: Vec<u8> = Vec::new();
    let mut i: usize = 0;
    assert(bytes@.skip(0) =~= bytes@);
    proof {
        if strictly_decoded(bytes@) is Some {
            assert(value@ + strictly_decoded(bytes@)->0 =~= strictly_decoded(bytes@)->0);
        }
    }
    while i < bytes.len()
        invariant
            i <= bytes.len(),
            match strictly_decoded(bytes@.skip(i as int)) {
                Some(rest) => strictly_decoded(bytes@) == Some(value@ + rest),
                None => strictly_decoded(bytes@) is None,
            },
        decreases bytes.len() - i,
    {
        let ghost here = bytes@.skip(i as int);
        let ghost before = value@;
        if bytes[i] == 0x25 {
            if bytes.len() - i < 3 {
                return None;
            }
            let high = match hex_digit(bytes[i + 1]) {
                Some(v) => v,
                None => {
                    return None;
                },
            };
            let low = match hex_digit(bytes[i + 2]) {
                Some(v) => v,
                None => {
                    return None;
                },
            };
            let byte: u8 = high * 16 + low;
            value.push(byte);
            proof {
                assert(here.skip(3) =~= bytes@.skip(i + 3));
                if strictly_decoded(here.skip(3)) is Some {
                    let rest = strictly_decoded(here.skip(3))->0;
                    assert(before + (seq![byte] + rest) =~= value@ + rest);
                }
            }
            i += 3;
        } else {
            value.push(bytes[i]);
            proof {
                assert(here.skip(1) =~= bytes@.skip(i + 1));
                if strictly_decoded(here.skip(1)) is Some {
                    let rest = strictly_decoded(here.skip(1))->0;
                    assert(before + (seq![here[0]] + rest) =~= value@ + rest);
                }
            }
            i += 1;
        }
    }
    proof {
        assert(bytes@.skip(i as int) =~= Seq::<u8>::empty());
        assert(value@ + Seq::<u8>::empty() =~= value@);
    }
    Some(value)
}

/// `percent_encoding::percent_decode_str` decodes every percent sign that two hexadecimal digits
/// follow, and `decode_utf8` reads the bytes as text where they are UTF-8.
#[verifier::external_body]
fn percent_decode_text(source: &str) -> (result: Option<String>)
    ensures
        match result {
            Some(value) => valid_utf8(decoded(encode_utf8(source@))) && value@ == decode_utf8(
                decoded(encode_utf8(source@)),
            ),
            None => !valid_utf8(decoded(encode_utf8(source@))),
        },
{
    percent_encoding::percent_decode_str(source).decode_utf8().ok().map(|value| value.into_owned())
}

/// The text that a percent-encoded text stands for, where its bytes are UTF-8.
pub fn decode_text(source: &str) -> (result: Option<String>)
    ensures
        match result {
            Some(value) => valid_utf8(decoded(encode_utf8(source@))) && value@ == decode_utf8(
                decoded(encode_utf8(source@)),
            ),
            None => !valid_utf8(decoded(encode_utf8(source@))),
        },
{
    percent_decode_text(source)
}

/// The uppercase hexadecimal digit of a number below sixteen.
pub open spec fn upper_digit(value: int) -> char {
    if value < 10 {
        (48 + value) as char
    } else {
        (55 + value) as char
    }
}

/// Whether a byte is an ASCII letter or digit.
pub open spec fn is_alphanumeric_byte(b: u8) -> bool {
    0x30 <= b <= 0x39 || 0x41 <= b <= 0x5a || 0x61 <= b <= 0x7a
}

/// Letters and digits as they are, and every other byte as an escape.
pub open spec fn encoded(b: Seq<u8>) -> Seq<char>
    decreases b.len(),
{
    if b.len() == 0 {
        Seq::empty()
    } else {
        let first = if is_alphanumeric_byte(b[0]) {
            seq![b[0] as char]
        } else {
            seq!['%', upper_digit(b[0] as int / 16), upper_digit(b[0] as int % 16)]
        };
        first + encoded(b.skip(1))
    }
}

/// `percent_encoding::utf8_percent_encode` with the set `NON_ALPHANUMERIC` leaves ASCII letters
/// and digits as they are and writes every other byte as a percent sign and two uppercase
/// hexadecimal digits.
#[verifier::external_body]
fn percent_encode_text(source: &str) -> (result: String)
    ensures
        result@ == encoded(encode_utf8(source@)),
{
    percent_encoding::utf8_percent_encode(source, percent_encoding::NON_ALPHANUMERIC).to_string()
}

/// A text as one component of a URL.
pub fn encode_component(source: &str) -> (result: String)
    ensures
        result@ == encoded(encode_utf8(source@)),
{
    percent_encode_text(source)
}

proof fn lemma_upper_digit(value: int)
    requires
        0 <= value < 16,
    ensures
        upper_digit(value) <= '\u{7f}',
        is_hex_digit(upper_digit(value) as u8),
        hex_value(upper_digit(value) as u8) == value,
        text::is_ascii_alphanumeric(upper_digit(value)),
{
}

/// An encoded component holds only letters, digits and percent signs.
pub proof fn law_component_is_plain(b: Seq<u8>, i: int)
    requires
        0 <= i < encoded(b).len(),
    ensures
        text::is_ascii_alphanumeric(encoded(b)[i]) || encoded(b)[i] == '%',
    decreases b.len(),
{
    if b.len() > 0 {
        lemma_upper_digit(b[0] as int / 16);
        lemma_upper_digit(b[0] as int % 16);
        let first = if is_alphanumeric_byte(b[0]) {
            seq![b[0] as char]
        } else {
            seq!['%', upper_digit(b[0] as int / 16), upper_digit(b[0] as int % 16)]
        };
        if i >= first.len() {
            law_component_is_plain(b.skip(1), i - first.len());
        } else {
            assert(encoded(b)[i] == first[i]);
        }
    }
}

/// The characters as single bytes.
spec fn as_bytes(s: Seq<char>) -> Seq<u8> {
    s.map_values(|c: char| c as u8)
}

proof fn lemma_decodes_encoded(b: Seq<u8>)
    ensures
        decoded(as_bytes(encoded(b))) == b,
    decreases b.len(),
{
    if b.len() == 0 {
        assert(as_bytes(encoded(b)) =~= Seq::<u8>::empty());
        assert(b =~= Seq::<u8>::empty());
    } else {
        let rest = b.skip(1);
        let whole = as_bytes(encoded(b));
        lemma_decodes_encoded(rest);
        assert(seq![b[0]] + rest =~= b);
        if is_alphanumeric_byte(b[0]) {
            assert(whole =~= seq![b[0]] + as_bytes(encoded(rest)));
            assert(whole.skip(1) =~= as_bytes(encoded(rest)));
        } else {
            let high = b[0] as int / 16;
            let low = b[0] as int % 16;
            lemma_upper_digit(high);
            lemma_upper_digit(low);
            assert(whole =~= seq![0x25u8, upper_digit(high) as u8, upper_digit(low) as u8]
                + as_bytes(encoded(rest)));
            assert(whole.skip(3) =~= as_bytes(encoded(rest)));
            assert(high * 16 + low == b[0]);
        }
    }
}

/// A text that was encoded as a component decodes to itself.
pub proof fn law_component_reads_back(source: Seq<char>)
    ensures
        ({
            let component = encoded(encode_utf8(source));
            let back = decoded(encode_utf8(component));
            valid_utf8(back) && decode_utf8(back) == source
        }),
{
    let component = encoded(encode_utf8(source));
    assert(is_ascii_chars(component)) by {
        assert forall|i: int| 0 <= i < component.len() implies '\0' <= #[trigger] component[i]
            <= '\u{7f}' by {
            law_component_is_plain(encode_utf8(source), i);
        }
    }
    is_ascii_chars_encode_utf8(component);
    assert(encode_utf8(component) =~= as_bytes(component));
    lemma_decodes_encoded(encode_utf8(source));
    encode_utf8_valid_utf8(source);
    encode_utf8_decode_utf8(source);
}

} // verus!
