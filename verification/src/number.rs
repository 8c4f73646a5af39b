//! Decimal numbers as text.
use vstd::prelude::*;
use crate::text;

verus! {

/// The digit character of a number below ten.
pub open spec fn digit_char(value: nat) -> char {
    (48 + value) as char
}

/// The number that a digit character stands for.
pub open spec fn digit_value(c: char) -> nat {
    ((c as int) - 48) as nat
}

/// Whether the text is one or more decimal digits.
pub open spec fn is_digits(s: Seq<char>) -> bool {
    s.len() > 0 && forall|i: int| 0 <= i < s.len() ==> text::is_digit(#[trigger] s[i])
}

/// The number that a run of decimal digits stands for.
pub open spec fn digits_value(s: Seq<char>) -> nat
    decreases s.len(),
{
    if s.len() == 0 {
        0
    } else {
        digits_value(s.drop_last()) * 10 + digit_value(s.last())
    }
}

/// The decimal digits of a number, without leading zeros.
pub open spec fn decimal(value: nat) -> Seq<char>
    decreases value,
{
    if value < 10 {
        seq![digit_char(value)]
    } else {
        decimal(value / 10).push(digit_char(value % 10))
    }
}

/// The decimal form of an integer, with a minus sign where it is negative.
pub open spec fn signed_decimal(value: int) -> Seq<char> {
    if value < 0 {
        seq!['-'] + decimal((-value) as nat)
    } else {
        decimal(value as nat)
    }
}

/// The number below or at `max` that a text of digits, with an optional plus sign, stands for.
pub open spec fn unsigned_value(s: Seq<char>, max: nat) -> Option<nat> {
    let body = if s.len() > 0 && s[0] == '+' {
        s.drop_first()
    } else {
        s
    };
    if is_digits(body) && digits_value(body) <= max {
        Some(digits_value(body))
    } else {
        None
    }
}

/// The 64-bit integer that a text of digits, with an optional sign, stands for.
pub open spec fn signed_value(s: Seq<char>) -> Option<int> {
    let negative = s.len() > 0 && s[0] == '-';
    let body = if s.len() > 0 && (s[0] == '+' || s[0] == '-') {
        s.drop_first()
    } else {
        s
    };
    let value = if negative {
        -(digits_value(body) as int)
    } else {
        digits_value(body) as int
    };
    if is_digits(body) && i64::MIN <= value <= i64::MAX {
        Some(value)
    } else {
        None
    }
}

proof fn lemma_digits_value_step(s: Seq<char>, i: int)
    requires
        0 <= i < s.len(),
    ensures
        digits_value(s.take(i + 1)) == digits_value(s.take(i)) * 10 + digit_value(s[i]),
{
    assert(s.take(i + 1).drop_last() =~= s.take(i));
}

proof fn lemma_digits_value_grows(s: Seq<char>, i: int)
    requires
        0 <= i <= s.len(),
    ensures
        digits_value(s.take(i)) <= digits_value(s),
    decreases s.len() - i,
{
    if i < s.len() {
        lemma_digits_value_step(s, i);
        lemma_digits_value_grows(s, i + 1);
    } else {
        assert(s.take(i) =~= s);
    }
}

/// The value of a run of digits, where it is at most `max`.
fn bounded_digits(chars: &[char], max: u64) -> (value: Option<u64>)
    ensures
        match value {
            Some(v) => is_digits(chars@) && digits_value(chars@) == v && v <= max,
            None => !(is_digits(chars@) && digits_value(chars@) <= max),
        },
{
    if chars.len() == 0 {
        return None;
    }
    let mut value: u64 = 0;
    let mut i: usize = 0;
    while i < chars.len()
        invariant
            i <= chars.len(),
            value == digits_value(chars@.take(i as int)),
            value <= max,
            forall|j: int| 0 <= j < i ==> text::is_digit(#[trigger] chars@[j]),
        decreases chars.len() - i,
    {
        let c = chars[i];
        if !('0' <= c && c <= '9') {
            assert(!text::is_digit(chars@[i as int]));
            return None;
        }
        let digit: u64 = (c as u32 - 48) as u64;
        proof {
            lemma_digits_value_step(chars@, i as int);
            lemma_digits_value_grows(chars@, i + 1);
        }
        if digit > max || value > (max - digit) / 10 {
            assert(value * 10 + digit > max);
            return None;
        }
        value = value * 10 + digit;
        i += 1;
    }
    assert(chars@.take(chars@.len() as int) =~= chars@);
    Some(value)
}

/// Reads an unsigned number at most `max`: digits, with an optional plus sign.
pub fn parse_unsigned(source: &str, max: u64) -> (value: Option<u64>)
    ensures
        match value {
            Some(v) => unsigned_value(source@, max as nat) == Some(v as nat),
            None => unsigned_value(source@, max as nat) is None,
        },
{
    let chars = text::chars_of(source);
    if chars.len() > 0 && chars[0] == '+' {
        let rest = vstd::slice::slice_subrange(chars.as_slice(), 1, chars.len());
        assert(rest@ =~= source@.drop_first());
        bounded_digits(rest, max)
    } else {
        bounded_digits(&chars, max)
    }
}

/// Reads a `u64`.
pub fn parse_u64(source: &str) -> (value: Option<u64>)
    ensures
        match value {
            Some(v) => unsigned_value(source@, u64::MAX as nat) == Some(v as nat),
            None => unsigned_value(source@, u64::MAX as nat) is None,
        },
{
    parse_unsigned(source, u64::MAX)
}

/// Reads an `i64`: digits, with an optional sign.
pub fn parse_i64(source: &str) -> (value: Option<i64>)
    ensures
        match value {
            Some(v) => signed_value(source@) == Some(v as int),
            None => signed_value(source@) is None,
        },
{
    let chars = text::chars_of(source);
    if chars.len() > 0 && chars[0] == '-' {
        let rest = vstd::slice::slice_subrange(chars.as_slice(), 1, chars.len());
        assert(rest@ =~= source@.drop_first());
        match bounded_digits(rest, 0x8000_0000_0000_0000) {
            Some(magnitude) => {
                if magnitude == 0x8000_0000_0000_0000 {
                    Some(i64::MIN)
                } else {
                    Some(-(magnitude as i64))
                }
            },
            None => None,
        }
    } else if chars.len() > 0 && chars[0] == '+' {
        let rest = vstd::slice::slice_subrange(chars.as_slice(), 1, chars.len());
        assert(rest@ =~= source@.drop_first());
        match bounded_digits(rest, 0x7fff_ffff_ffff_ffff) {
            Some(magnitude) => Some(magnitude as i64),
            None => None,
        }
    } else {
        match bounded_digits(&chars, 0x7fff_ffff_ffff_ffff) {
            Some(magnitude) => Some(magnitude as i64),
            None => None,
        }
    }
}

/// The decimal form of a `u64`.
pub fn format_u64(value: u64) -> (digits: String)
    ensures
        digits@ == decimal(value as nat),
    decreases value,
{
    let digit = ((48 + value % 10) as u8) as char;
    if value < 10 {
        let mut digits = String::new();
        digits.push(digit);
        digits
    } else {
        let mut digits = format_u64(value / 10);
        digits.push(digit);
        digits
    }
}

/// The decimal form of an `i64`.
pub fn format_i64(value: i64) -> (digits: String)
    ensures
        digits@ == signed_decimal(value as int),
{
    if value < 0 {
        let magnitude: u64 = if value == i64::MIN {
            0x8000_0000_0000_0000
        } else {
            (-value) as u64
        };
        proof {
            reveal_strlit("-");
            assert("-"@ =~= seq!['-']);
        }
        text::joined("-", format_u64(magnitude).as_str())
    } else {
        format_u64(value as u64)
    }
}

/// The decimal form of a number is digits only, stands for that number, and has no sign.
pub proof fn law_decimal_reads_back(value: nat)
    ensures
        is_digits(decimal(value)),
        digits_value(decimal(value)) == value,
    decreases value,
{
    if value < 10 {
        let s = seq![digit_char(value)];
        assert(s.drop_last() =~= Seq::<char>::empty());
        assert(digits_value(s.drop_last()) == 0);
    } else {
        law_decimal_reads_back(value / 10);
        let s = decimal(value);
        assert(s.drop_last() =~= decimal(value / 10));
        assert forall|i: int| 0 <= i < s.len() implies text::is_digit(#[trigger] s[i]) by {
            if i < s.len() - 1 {
                assert(s[i] == decimal(value / 10)[i]);
            }
        }
    }
}

/// What `format_i64` writes, `parse_i64` reads back.
pub proof fn law_signed_decimal_reads_back(value: i64)
    ensures
        signed_value(signed_decimal(value as int)) == Some(value as int),
{
    let s = signed_decimal(value as int);
    if value < 0 {
        law_decimal_reads_back((-value) as nat);
        assert(s.drop_first() =~= decimal((-value) as nat));
    } else {
        law_decimal_reads_back(value as nat);
        assert(text::is_digit(s[0]));
    }
}

/// What `format_u64` writes, `parse_u64` reads back.
pub proof fn law_unsigned_decimal_reads_back(value: u64)
    ensures
        unsigned_value(decimal(value as nat), u64::MAX as nat) == Some(value as nat),
{
    law_decimal_reads_back(value as nat);
    assert(text::is_digit(decimal(value as nat)[0]));
}

} // verus!
