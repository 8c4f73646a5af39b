//! Byte sequences.
use vstd::prelude::*;

verus! {

/// The bytes of an optional value.
pub open spec fn optional(value: Option<Vec<u8>>) -> Option<Seq<u8>> {
    match value {
        Some(bytes) => Some(bytes@),
        None => None,
    }
}

/// Whether the pattern stands in the bytes at position `i`.
pub open spec fn stands_at(s: Seq<u8>, pattern: Seq<u8>, i: int) -> bool {
    0 <= i && i + pattern.len() <= s.len() && s.subrange(i, i + pattern.len()) == pattern
}

/// Whether the bytes start with the pattern.
pub open spec fn has_prefix(s: Seq<u8>, pattern: Seq<u8>) -> bool {
    stands_at(s, pattern, 0)
}

/// Whether the pattern stands anywhere in the bytes.
pub open spec fn holds(s: Seq<u8>, pattern: Seq<u8>) -> bool {
    exists|i: int| #[trigger] stands_at(s, pattern, i)
}

/// Whether the pattern stands in the bytes at position `i`.
pub fn pattern_at(bytes: &[u8], pattern: &[u8], i: usize) -> (yes: bool)
    ensures
        yes == stands_at(bytes@, pattern@, i as int),
{
    if pattern.len() > bytes.len() || i > bytes.len() - pattern.len() {
        return false;
    }
    let mut k: usize = 0;
    while k < pattern.len()
        invariant
            k <= pattern.len(),
            i + pattern.len() <= bytes.len(),
            forall|j: int| 0 <= j < k ==> bytes@[i + j] == #[trigger] pattern@[j],
        decreases pattern.len() - k,
    {
        if bytes[i + k] != pattern[k] {
            assert(bytes@.subrange(i as int, i + pattern.len())[k as int] != pattern@[k as int]);
            return false;
        }
        k += 1;
    }
    assert(bytes@.subrange(i as int, i + pattern.len()) =~= pattern@);
    true
}

/// Whether the bytes start with the pattern.
pub fn starts_with(bytes: &[u8], pattern: &[u8]) -> (yes: bool)
    ensures
        yes == has_prefix(bytes@, pattern@),
{
    pattern_at(bytes, pattern, 0)
}

/// Whether the pattern stands anywhere in the bytes.
pub fn contains(bytes: &[u8], pattern: &[u8]) -> (yes: bool)
    ensures
        yes == holds(bytes@, pattern@),
{
    if pattern.len() > bytes.len() {
        return false;
    }
    let mut i: usize = 0;
    while i <= bytes.len() - pattern.len()
        invariant
            pattern.len() <= bytes.len(),
            i <= bytes.len() - pattern.len() + 1,
            forall|j: int| 0 <= j < i ==> !#[trigger] stands_at(bytes@, pattern@, j),
        decreases bytes.len() + 1 - i,
    {
        if pattern_at(bytes, pattern, i) {
            return true;
        }
        if i == bytes.len() - pattern.len() {
            assert forall|j: int| !#[trigger] stands_at(bytes@, pattern@, j) by {
                if 0 <= j && j + pattern@.len() <= bytes@.len() {
                    assert(j <= i);
                }
            }
            return false;
        }
        i += 1;
    }
    false
}

/// An ASCII capital letter as its small letter; any other byte as it is.
pub open spec fn lower_byte(b: u8) -> u8 {
    if 0x41 <= b <= 0x5a {
        (b + 32) as u8
    } else {
        b
    }
}

/// `lower_byte`, computed.
pub fn to_lower_byte(b: u8) -> (result: u8)
    ensures
        result == lower_byte(b),
{
    if 0x41 <= b && b <= 0x5a {
        b + 32
    } else {
        b
    }
}

} // verus!
