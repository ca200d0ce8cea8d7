//! What the organizer asks of a text, and the string functions of the
//! standard library that answer it.

use vstd::prelude::*;

verus! {

/// What `str::trim` leaves of a text.
pub uninterp spec fn trimmed(text: Seq<char>) -> Seq<char>;

/// What `str::to_lowercase` makes of a text.
pub uninterp spec fn lowercase_of(text: Seq<char>) -> Seq<char>;

/// Whether `text` ends with the characters of `ending`.
pub open spec fn ends_in(text: Seq<char>, ending: Seq<char>) -> bool {
    ending.len() <= text.len() && text.subrange(text.len() - ending.len(), text.len() as int)
        == ending
}

/// Calls `str::trim`, which returns the text without the white space at its
/// start and at its end. Nothing is claimed of the result but that it is the
/// same for the same text.
#[verifier::external_body]
pub(crate) fn trim(text: &str) -> (rest: &str)
    ensures
        rest@ == trimmed(text@),
{
    text.trim()
}

/// Calls `str::to_lowercase`, which returns the text with every character
/// replaced by its lower-case form as Unicode defines it. Nothing is claimed
/// of the result but that it is the same for the same text.
#[verifier::external_body]
pub(crate) fn to_lowercase(text: &str) -> (lower: String)
    ensures
        lower@ == lowercase_of(text@),
{
    text.to_lowercase()
}

/// Calls `str::ends_with` with a string as the pattern, which says whether
/// the characters of the pattern are the last characters of the text.
#[verifier::external_body]
pub(crate) fn ends_with(text: &str, ending: &str) -> (found: bool)
    ensures
        found == ends_in(text@, ending@),
{
    text.ends_with(ending)
}

/// Whether a text is more than white space.
pub fn has_text(text: &str) -> (found: bool)
    ensures
        found == (trimmed(text@).len() > 0),
{
    !trim(text).is_empty()
}

/// What has been typed into a field that takes a name: the text, where
/// there is any, and nothing for an empty field.
pub fn entered(text: String) -> (name: Option<String>)
    ensures
        name == (if text@.len() > 0 {
            Some(text)
        } else {
            None::<String>
        }),
{
    if !text.as_str().is_empty() {
        Some(text)
    } else {
        None
    }
}

} // verus!
