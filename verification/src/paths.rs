//! Paths of the file system, taken apart by the standard library and turned
//! into portable relative paths. A path is held as its text.

use relative_path::RelativePathBuf;
use std::path::Path;
use vstd::prelude::*;

verus! {

/// What is left of `path` once the leading components that make up `base`
/// are taken away, or nothing where `base` is no ancestor of `path`. The
/// path syntax is that of the platform the library is built for.
pub uninterp spec fn stripped_prefix(path: Seq<char>, base: Seq<char>) -> Option<Seq<char>>;

/// The path written as a portable relative path, with `/` between its
/// components, or nothing where the path has a root or a drive prefix.
pub uninterp spec fn portable_relative(path: Seq<char>) -> Option<Seq<char>>;

/// The characters of a text that may be missing.
pub open spec fn text_of(text: Option<String>) -> Option<Seq<char>> {
    match text {
        Some(t) => Some(t@),
        None => None,
    }
}

/// `Path::strip_prefix`, with both paths and the result given as text.
#[verifier::external_body]
pub(crate) fn strip_prefix(path: &str, base: &str) -> (rest: Option<String>)
    ensures
        text_of(rest) == stripped_prefix(path@, base@),
{
    match Path::new(path).strip_prefix(base) {
        Ok(rest) => rest.to_str().map(str::to_owned),
        Err(_) => None,
    }
}

/// `RelativePathBuf::from_path`, with the path and the result given as
/// text, and the error dropped.
#[verifier::external_body]
pub(crate) fn relative_from_path(path: &str) -> (relative: Option<String>)
    ensures
        text_of(relative) == portable_relative(path@),
{
    match RelativePathBuf::from_path(path) {
        Ok(relative) => Some(relative.into_string()),
        Err(_) => None,
    }
}

} // verus!
