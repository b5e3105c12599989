//! Text helpers: comparison, concatenation, replacement and number rendering.

use vstd::prelude::*;

verus! {

/// The views of a sequence of strings.
pub open spec fn texts(values: Seq<String>) -> Seq<Seq<char>> {
    Seq::new(values.len(), |i: int| values[i]@)
}

/// The view of an optional string.
pub open spec fn opt_text(value: Option<String>) -> Option<Seq<char>> {
    match value {
        Some(text) => Some(text@),
        None => None,
    }
}

/// Compares two string slices with `str`'s `==`, which holds exactly when both
/// hold the same characters.
#[verifier::external_body]
pub(crate) fn same_text(left: &str, right: &str) -> (result: bool)
    ensures
        result == (left@ == right@),
{
    left == right
}

/// Appends one character with `String::push`.
#[verifier::external_body]
pub(crate) fn push_char(target: &mut String, character: char)
    ensures
        final(target)@ == old(target)@.push(character),
{
    target.push(character)
}

/// Joins two pieces of text.
pub fn join2(first: &str, second: &str) -> (result: String)
    ensures
        result@ == first@ + second@,
{
    let mut text = first.to_owned();
    text.append(second);
    text
}

/// Joins three pieces of text.
pub fn join3(first: &str, second: &str, third: &str) -> (result: String)
    ensures
        result@ == first@ + second@ + third@,
{
    let mut text = first.to_owned();
    text.append(second);
    text.append(third);
    text
}

/// Clones an optional string.
pub fn clone_opt(value: &Option<String>) -> (result: Option<String>)
    ensures
        result == *value,
{
    match value {
        Some(text) => Some(text.clone()),
        None => None,
    }
}

/// Whether an optional string holds exactly `wanted`.
pub fn opt_is(value: &Option<String>, wanted: &str) -> (result: bool)
    ensures
        result == (opt_text(*value) == Some(wanted@)),
{
    match value {
        Some(text) => same_text(text.as_str(), wanted),
        None => false,
    }
}

/// Whether `wanted` is one of `values`.
pub fn contains_text(values: &Vec<String>, wanted: &str) -> (result: bool)
    ensures
        result == texts(values@).contains(wanted@),
{
    let mut index: usize = 0;
    while index < values.len()
        invariant
            index <= values.len(),
            forall|j: int| 0 <= j < index ==> #[trigger] texts(values@)[j] != wanted@,
        decreases values.len() - index,
    {
        if same_text(values[index].as_str(), wanted) {
            assert(texts(values@)[index as int] == wanted@);
            return true;
        }
        index = index + 1;
    }
    false
}

/// The models of texts stand in their order, one for each, and a text that is
/// absent has none.
pub proof fn law_texts_stand_in_order(strings: Seq<String>, text: Option<String>, at: int)
    requires
        0 <= at < strings.len(),
    ensures
        texts(strings).len() == strings.len(),
        texts(strings)[at] == strings[at]@,
        opt_text(text) is Some <==> text is Some,
        text is Some ==> opt_text(text)->Some_0 == text->Some_0@,
{
}

} // verus!
