//! Partial updates: a field of an update is optional, and a field that is not
//! given leaves the record's value as it is.

use vstd::prelude::*;

verus! {

/// The text of an optional string.
pub open spec fn text_of(field: Option<String>) -> Option<Seq<char>> {
    match field {
        Some(text) => Some(text@),
        None => None,
    }
}

/// The tags of an optional list.
pub open spec fn tags_of(field: Option<Vec<u32>>) -> Option<Seq<u32>> {
    match field {
        Some(tags) => Some(tags@),
        None => None,
    }
}

/// `new` where it is given, `current` otherwise.
pub open spec fn or_keep<T>(new: Option<T>, current: T) -> T {
    match new {
        Some(value) => value,
        None => current,
    }
}

/// A copy of a list of identifiers.
pub fn copy_tags(tags: &Vec<u32>) -> (copy: Vec<u32>)
    ensures
        copy@ == tags@,
{
    let copy = tags.clone();
    assert(copy@ =~= tags@);
    copy
}

/// Whether no identifier occurs twice in the list.
pub fn has_no_duplicates(tags: &Vec<u32>) -> (distinct: bool)
    ensures
        distinct == tags@.no_duplicates(),
{
    let mut j: usize = 0;
    while j < tags.len()
        invariant
            j <= tags.len(),
            forall|a: int, b: int| 0 <= a < b < j ==> tags@[a] != tags@[b],
        decreases tags.len() - j,
    {
        let mut i: usize = 0;
        while i < j
            invariant
                i <= j < tags.len(),
                forall|a: int| 0 <= a < i ==> tags@[a] != tags@[j as int],
            decreases j - i,
        {
            if tags[i] == tags[j] {
                return false;
            }
            i += 1;
        }
        j += 1;
    }
    assert forall|a: int, b: int| 0 <= a < tags@.len() && 0 <= b < tags@.len() && a != b implies tags@[a]
        != tags@[b] by {
        if a < b {
            assert(tags@[a] != tags@[b]);
        } else {
            assert(tags@[b] != tags@[a]);
        }
    }
    true
}

/// The new text where one is given, a copy of the current text otherwise.
pub fn text_or_keep(new: Option<String>, current: &String) -> (text: String)
    ensures
        text@ == or_keep(text_of(new), current@),
{
    match new {
        Some(text) => text,
        None => current.clone(),
    }
}

/// Whether the text that an update leaves behind is not empty: the new text
/// where one is given, the current text otherwise.
pub fn text_is_given(new: &Option<String>, current: &String) -> (given: bool)
    ensures
        given == (or_keep(text_of(*new), current@).len() > 0),
{
    match new {
        Some(text) => !text.as_str().is_empty(),
        None => !current.as_str().is_empty(),
    }
}

/// The new tags where they are given, a copy of the current tags otherwise.
pub fn tags_or_keep(new: Option<Vec<u32>>, current: &Vec<u32>) -> (tags: Vec<u32>)
    ensures
        tags@ == or_keep(tags_of(new), current@),
{
    match new {
        Some(tags) => tags,
        None => copy_tags(current),
    }
}

/// The new number where one is given, the current number otherwise.
pub fn number_or_keep(new: Option<u64>, current: u64) -> (number: u64)
    ensures
        number == or_keep(new, current),
{
    match new {
        Some(number) => number,
        None => current,
    }
}

} // verus!
