//! Small operations on text that the standard library performs for the model.

use itertools::Itertools;
use vstd::prelude::*;

verus! {

/// What `{:?}` prints for a string: the text in double quotes, with the
/// characters that Rust escapes in a string literal written as escapes.
pub uninterp spec fn debug_quoted(text: Seq<char>) -> Seq<char>;

/// The text without the white space at its start and at its end, white
/// space being the characters that Unicode marks as such.
pub uninterp spec fn trimmed(text: Seq<char>) -> Seq<char>;

/// `str::trim`.
#[verifier::external_body]
pub(crate) fn trim(text: &str) -> (rest: &str)
    ensures
        rest@ == trimmed(text@),
{
    text.trim()
}

/// `str`'s `==`: two strings are equal exactly when they hold the same
/// characters.
#[verifier::external_body]
pub(crate) fn same_text(a: &str, b: &str) -> (same: bool)
    ensures
        same == (a@ == b@),
{
    a == b
}

/// `str::contains` with a single character as the pattern: whether the
/// character occurs anywhere in the text.
#[verifier::external_body]
pub(crate) fn has_char(text: &str, wanted: char) -> (found: bool)
    ensures
        found == text@.contains(wanted),
{
    text.contains(wanted)
}

/// `str::replace` with a single character as the pattern and a text of one
/// character as the replacement: the result has the length of the input, and
/// each occurrence of `from` has become the character of `to`.
#[verifier::external_body]
pub(crate) fn replace_char(text: &str, from: char, to: &str) -> (replaced: String)
    requires
        to@.len() == 1,
    ensures
        replaced@.len() == text@.len(),
        forall|i: int|
            0 <= i < text@.len() ==> #[trigger] replaced@[i] == (if text@[i] == from {
                to@[0]
            } else {
                text@[i]
            }),
{
    text.replace(from, to)
}

/// `format!` with `{:?}` on a string.
#[verifier::external_body]
pub(crate) fn debug_string(text: &str) -> (quoted: String)
    ensures
        quoted@ == debug_quoted(text@),
{
    format!("{:?}", text)
}

/// The characters of each text of a list.
pub open spec fn texts(parts: Seq<String>) -> Seq<Seq<char>> {
    Seq::new(parts.len(), |i: int| parts[i]@)
}

/// The parts written one after the other, with `sep` between each two.
pub open spec fn joined(parts: Seq<Seq<char>>, sep: Seq<char>) -> Seq<char>
    decreases parts.len(),
{
    if parts.len() == 0 {
        Seq::empty()
    } else if parts.len() == 1 {
        parts[0]
    } else {
        joined(parts.drop_last(), sep) + sep + parts.last()
    }
}

/// `Itertools::join` on a list of texts: the texts in their order, with the
/// separator between each two.
#[verifier::external_body]
pub(crate) fn join(parts: &Vec<String>, sep: &str) -> (text: String)
    ensures
        text@ == joined(texts(parts@), sep@),
{
    parts.iter().join(sep)
}

/// `str::ends_with` with a text as the pattern: whether the last characters
/// of the text are those of the suffix.
#[verifier::external_body]
pub(crate) fn ends_with(text: &str, suffix: &str) -> (ends: bool)
    ensures
        ends == is_suffix(text@, suffix@),
{
    text.ends_with(suffix)
}

/// `suffix` stands at the end of `text`.
pub open spec fn is_suffix(text: Seq<char>, suffix: Seq<char>) -> bool {
    suffix.len() <= text.len() && text.skip(text.len() - suffix.len()) == suffix
}

} // verus!
