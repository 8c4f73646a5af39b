//! Sorted lists without repetition.
use vstd::prelude::*;
use crate::text;

verus! {

/// Whether one text comes before another in the order of their characters.
pub open spec fn text_before(one: Seq<char>, other: Seq<char>) -> bool
    decreases one.len(),
{
    if other.len() == 0 {
        false
    } else if one.len() == 0 {
        true
    } else if one[0] != other[0] {
        one[0] < other[0]
    } else {
        text_before(one.drop_first(), other.drop_first())
    }
}

proof fn lemma_text_before_transitive(a: Seq<char>, b: Seq<char>, c: Seq<char>)
    requires
        text_before(a, b),
        text_before(b, c),
    ensures
        text_before(a, c),
    decreases a.len(),
{
    if a.len() > 0 && a[0] == b[0] && b[0] == c[0] {
        lemma_text_before_transitive(a.drop_first(), b.drop_first(), c.drop_first());
    }
}

proof fn lemma_text_before_total(a: Seq<char>, b: Seq<char>)
    ensures
        text_before(a, b) || a == b || text_before(b, a),
        !(text_before(a, b) && a == b),
    decreases a.len(),
{
    if a.len() > 0 && b.len() > 0 && a[0] == b[0] {
        lemma_text_before_total(a.drop_first(), b.drop_first());
        if a.drop_first() == b.drop_first() {
            assert(a =~= seq![a[0]] + a.drop_first());
            assert(b =~= seq![b[0]] + b.drop_first());
        }
    } else if a.len() == 0 && b.len() == 0 {
        assert(a =~= b);
    }
}

/// Whether the numbers ascend without repetition.
pub open spec fn ascends(s: Seq<i64>) -> bool {
    forall|i: int, j: int| 0 <= i < j < s.len() ==> #[trigger] s[i] < #[trigger] s[j]
}

/// Whether the texts ascend without repetition.
pub open spec fn texts_ascend(s: Seq<Seq<char>>) -> bool {
    forall|i: int, j: int|
        0 <= i < j < s.len() ==> text_before(#[trigger] s[i], #[trigger] s[j])
}

/// Texts that ascend do not repeat.
pub proof fn lemma_texts_differ(s: Seq<Seq<char>>, i: int, j: int)
    requires
        texts_ascend(s),
        0 <= i < j < s.len(),
    ensures
        s[i] != s[j],
{
    lemma_text_before_total(s[i], s[j]);
}

/// Puts a number in its place, unless it is there.
pub fn insert_number(list: &mut Vec<i64>, value: i64)
    requires
        ascends(old(list)@),
    ensures
        ascends(final(list)@),
        final(list)@.to_set() == old(list)@.to_set().insert(value),
{
    let ghost before = list@;
    let mut i: usize = 0;
    while i < list.len() && list[i] < value
        invariant
            i <= list.len(),
            list@ == before,
            forall|j: int| 0 <= j < i ==> #[trigger] list@[j] < value,
        decreases list.len() - i,
    {
        i += 1;
    }
    if i < list.len() && list[i] == value {
        proof {
            assert(before.to_set() =~= before.to_set().insert(value)) by {
                assert(before.contains(before[i as int]));
            }
        }
        return ;
    }
    list.insert(i, value);
    proof {
        let after = list@;
        assert forall|x: i64| after.to_set().contains(x) == before.to_set().insert(value).contains(
            x,
        ) by {
            if after.contains(x) {
                let k = choose|k: int| 0 <= k < after.len() && after[k] == x;
                if k < i {
                    assert(before[k] == x);
                } else if k > i {
                    assert(before[k - 1] == x);
                }
            }
            if before.contains(x) {
                let k = choose|k: int| 0 <= k < before.len() && before[k] == x;
                if k < i {
                    assert(after[k] == x);
                } else {
                    assert(after[k + 1] == x);
                }
            }
            assert(after[i as int] == value);
        }
        assert(after.to_set() =~= before.to_set().insert(value));
    }
}

/// Whether one string comes before another.
pub fn comes_before(one: &str, other: &str) -> (yes: bool)
    ensures
        yes == text_before(one@, other@),
{
    let a = text::chars_of(one);
    let b = text::chars_of(other);
    let mut i: usize = 0;
    assert(a@.skip(0) =~= a@);
    assert(b@.skip(0) =~= b@);
    while i < a.len() && i < b.len() && a[i] == b[i]
        invariant
            i <= a.len(),
            i <= b.len(),
            a@ == one@,
            b@ == other@,
            text_before(one@, other@) == text_before(a@.skip(i as int), b@.skip(i as int)),
        decreases a.len() - i,
    {
        assert(a@.skip(i as int).drop_first() =~= a@.skip(i + 1));
        assert(b@.skip(i as int).drop_first() =~= b@.skip(i + 1));
        i += 1;
    }
    if i >= b.len() {
        false
    } else if i >= a.len() {
        true
    } else {
        a[i] < b[i]
    }
}

/// Puts a text in its place, unless it is there.
pub fn insert_text(list: &mut Vec<String>, value: &str)
    requires
        texts_ascend(text::texts(old(list)@)),
    ensures
        texts_ascend(text::texts(final(list)@)),
        text::texts(final(list)@).to_set() == text::texts(old(list)@).to_set().insert(value@),
{
    let ghost before = text::texts(list@);
    let mut i: usize = 0;
    while i < list.len() && comes_before(list[i].as_str(), value)
        invariant
            i <= list.len(),
            text::texts(list@) == before,
            forall|j: int| 0 <= j < i ==> text_before(#[trigger] text::texts(list@)[j], value@),
        decreases list.len() - i,
    {
        i += 1;
    }
    if i < list.len() && text::same_text(list[i].as_str(), value) {
        proof {
            assert(before[i as int] == value@);
            assert(before.to_set() =~= before.to_set().insert(value@)) by {
                assert(before.contains(before[i as int]));
            }
        }
        return ;
    }
    let ghost old_list = list@;
    list.insert(i, text::copy_of(value));
    proof {
        let after = text::texts(list@);
        assert(after =~= before.insert(i as int, value@));
        if i < before.len() {
            assert(before[i as int] == old_list[i as int]@);
            lemma_text_before_total(before[i as int], value@);
        }
        assert forall|j: int, k: int| 0 <= j < k < after.len() implies text_before(
            #[trigger] after[j],
            #[trigger] after[k],
        ) by {
            if k < i {
                assert(after[j] == before[j] && after[k] == before[k]);
            } else if k == i {
                assert(after[j] == before[j]);
                assert(text_before(before[j], value@));
            } else if j < i {
                assert(after[j] == before[j] && after[k] == before[k - 1]);
            } else if j == i {
                assert(after[k] == before[k - 1]);
                if k - 1 > i {
                    assert(text_before(before[i as int], before[k - 1]));
                    lemma_text_before_transitive(value@, before[i as int], before[k - 1]);
                }
            } else {
                assert(after[j] == before[j - 1] && after[k] == before[k - 1]);
            }
        }
        assert forall|x: Seq<char>|
            after.to_set().contains(x) == before.to_set().insert(value@).contains(x) by {
            if after.contains(x) {
                let k = choose|k: int| 0 <= k < after.len() && after[k] == x;
                if k < i {
                    assert(before[k] == x);
                } else if k > i {
                    assert(before[k - 1] == x);
                }
            }
            if before.contains(x) {
                let k = choose|k: int| 0 <= k < before.len() && before[k] == x;
                if k < i {
                    assert(after[k] == x);
                } else {
                    assert(after[k + 1] == x);
                }
            }
            assert(after[i as int] == value@);
        }
        assert(after.to_set() =~= before.to_set().insert(value@));
    }
}

} // verus!
