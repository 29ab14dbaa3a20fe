//! Comparing names without regard to case.

use vstd::prelude::*;

verus! {

/// The lower-case form of a text, as `str::to_lowercase` of the standard
/// library computes it.
pub uninterp spec fn lowercase_of(text: Seq<char>) -> Seq<char>;

/// The lower-case form of `text`, computed by `str::to_lowercase`. The result
/// depends on the text alone; what it is for a given text is not stated here.
#[verifier::external_body]
pub(crate) fn to_lowercase(text: &String) -> (lower: String)
    ensures
        lower@ == lowercase_of(text@),
{
    text.to_lowercase()
}

/// `wanted` occurs at position `at` of `texts`, and nowhere before it.
pub open spec fn first_at(texts: Seq<Seq<char>>, wanted: Seq<char>, at: int) -> bool {
    &&& 0 <= at < texts.len()
    &&& texts[at] == wanted
    &&& forall|j: int| 0 <= j < at ==> texts[j] != wanted
}

/// The first position at which `wanted` occurs in `texts`, if it occurs.
pub fn first_equal(texts: &Vec<String>, wanted: &String) -> (found: Option<usize>)
    ensures
        match found {
            Some(at) => first_at(crate::views::texts_of(texts@), wanted@, at as int),
            None => forall|j: int| 0 <= j < texts@.len() ==> texts@[j]@ != wanted@,
        },
{
    let mut i: usize = 0;
    while i < texts.len()
        invariant
            i <= texts.len(),
            forall|j: int| 0 <= j < i ==> texts@[j]@ != wanted@,
        decreases texts.len() - i,
    {
        if texts[i] == *wanted {
            return Some(i);
        }
        i += 1;
    }
    None
}

} // verus!
