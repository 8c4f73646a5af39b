//! The named values that go with an error.
use vstd::prelude::*;
use crate::text;

verus! {

/// A value that goes with an error.
#[derive(Debug, Clone, PartialEq, Eq)]
pub enum DetailValue {
    Text(String),
    Signed(i64),
    Unsigned(u64),
    Flag(bool),
    /// The text of a JSON value.
    Json(String),
}

/// A named value that goes with an error.
#[derive(Debug, Clone, PartialEq, Eq)]
pub struct Detail {
    pub name: String,
    pub value: DetailValue,
}

/// The model of a value.
pub enum ValueModel {
    Text(Seq<char>),
    Number(int),
    Flag(bool),
    Json(Seq<char>),
}

impl View for DetailValue {
    type V = ValueModel;

    open spec fn view(&self) -> ValueModel {
        match *self {
            DetailValue::Text(value) => ValueModel::Text(value@),
            DetailValue::Signed(value) => ValueModel::Number(value as int),
            DetailValue::Unsigned(value) => ValueModel::Number(value as int),
            DetailValue::Flag(value) => ValueModel::Flag(value),
            DetailValue::Json(value) => ValueModel::Json(value@),
        }
    }
}

impl View for Detail {
    type V = (Seq<char>, ValueModel);

    open spec fn view(&self) -> (Seq<char>, ValueModel) {
        (self.name@, self.value@)
    }
}

/// The models of a list of details.
pub open spec fn models(details: Seq<Detail>) -> Seq<(Seq<char>, ValueModel)> {
    details.map_values(|detail: Detail| detail@)
}

/// A detail that is text.
pub fn text_detail(name: &str, value: &str) -> (detail: Detail)
    ensures
        detail@ == (name@, ValueModel::Text(value@)),
{
    Detail { name: text::copy_of(name), value: DetailValue::Text(text::copy_of(value)) }
}

/// A detail that is a signed number.
pub fn signed_detail(name: &str, value: i64) -> (detail: Detail)
    ensures
        detail@ == (name@, ValueModel::Number(value as int)),
{
    Detail { name: text::copy_of(name), value: DetailValue::Signed(value) }
}

/// A detail that is an unsigned number.
pub fn unsigned_detail(name: &str, value: u64) -> (detail: Detail)
    ensures
        detail@ == (name@, ValueModel::Number(value as int)),
{
    Detail { name: text::copy_of(name), value: DetailValue::Unsigned(value) }
}

/// A list of one detail.
pub fn one(detail: Detail) -> (details: Vec<Detail>)
    ensures
        models(details@) == seq![detail@],
{
    let mut details: Vec<Detail> = Vec::new();
    details.push(detail);
    assert(models(details@) =~= seq![detail@]);
    details
}

/// A list of two details.
pub fn two(first: Detail, second: Detail) -> (details: Vec<Detail>)
    ensures
        models(details@) == seq![first@, second@],
{
    let mut details: Vec<Detail> = Vec::new();
    details.push(first);
    details.push(second);
    assert(models(details@) =~= seq![first@, second@]);
    details
}

/// A list of three details.
pub fn three(first: Detail, second: Detail, third: Detail) -> (details: Vec<Detail>)
    ensures
        models(details@) == seq![first@, second@, third@],
{
    let mut details: Vec<Detail> = Vec::new();
    details.push(first);
    details.push(second);
    details.push(third);
    assert(models(details@) =~= seq![first@, second@, third@]);
    details
}

/// The details with a value under a name: it takes the place of the first that has the name, or
/// comes last.
pub open spec fn with_value(
    details: Seq<(Seq<char>, ValueModel)>,
    name: Seq<char>,
    value: ValueModel,
) -> Seq<(Seq<char>, ValueModel)> {
    match place_of(details, name, 0) {
        Some(i) => details.update(i, (name, value)),
        None => details.push((name, value)),
    }
}

/// The position of the first detail with the name.
pub open spec fn place_of(
    details: Seq<(Seq<char>, ValueModel)>,
    name: Seq<char>,
    i: int,
) -> Option<int>
    decreases details.len() - i,
{
    if i < 0 || i >= details.len() {
        None
    } else if details[i].0 == name {
        Some(i)
    } else {
        place_of(details, name, i + 1)
    }
}

/// Puts a value under a name.
pub fn set_value(details: &mut Vec<Detail>, name: &str, value: DetailValue)
    ensures
        models(final(details)@) == with_value(models(old(details)@), name@, value@),
{
    let ghost before = models(details@);
    let mut i: usize = 0;
    while i < details.len()
        invariant
            i <= details.len(),
            models(details@) == before,
            before == models(old(details)@),
            place_of(before, name@, 0) == place_of(before, name@, i as int),
        decreases details.len() - i,
    {
        assert(before[i as int] == details@[i as int]@);
        if text::same_text(details[i].name.as_str(), name) {
            let detail = Detail { name: text::copy_of(name), value };
            details.set(i, detail);
            assert(models(details@) =~= before.update(i as int, detail@));
            return ;
        }
        i += 1;
    }
    let detail = Detail { name: text::copy_of(name), value };
    details.push(detail);
    assert(models(details@) =~= before.push(detail@));
}

} // verus!
