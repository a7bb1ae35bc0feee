//! File-system paths as the queue sees them: opaque values that are carried
//! through unchanged, with a handful of conversions to text.

use std::path::PathBuf;
use vstd::prelude::*;

verus! {

/// `std::path::PathBuf`. The contents of a path are never inspected by
/// verified code; two paths are compared only as whole values.
#[verifier::external_type_specification]
#[verifier::external_body]
pub struct ExPathBuf(std::path::PathBuf);

/// The final component of `path`, where it has one: what `Path::file_name`
/// gives.
pub uninterp spec fn path_file_name(path: PathBuf) -> Option<PathBuf>;

/// The whole of `path` as text, where it is valid UTF-8: what `Path::to_str`
/// gives.
pub uninterp spec fn path_text(path: PathBuf) -> Option<Seq<char>>;

/// `base` with `name` adjoined: what `Path::join` gives.
pub uninterp spec fn path_join(base: PathBuf, name: Seq<char>) -> PathBuf;

/// `<PathBuf as Clone>::clone` returns a path equal to the one it was given.
pub assume_specification[ <PathBuf as Clone>::clone ](path: &PathBuf) -> (copy: PathBuf)
    ensures
        copy == *path,
;

/// Calls `Path::file_name`, which gives the final component of a path
/// unless the path ends in `..` or has no component. The component comes
/// back as a path of its own. The contract only names the result.
#[verifier::external_body]
pub(crate) fn file_name_of(path: &PathBuf) -> (name: Option<PathBuf>)
    ensures
        name == path_file_name(*path),
{
    path.file_name().map(PathBuf::from)
}

/// Calls `Path::to_str`, which yields the path as text if it is valid
/// UTF-8 and `None` otherwise. The contract only names the result.
#[verifier::external_body]
pub(crate) fn path_to_text(path: &PathBuf) -> (text: Option<String>)
    ensures
        match text {
            Some(t) => path_text(*path) == Some(t@),
            None => path_text(*path) is None,
        },
{
    path.to_str().map(String::from)
}

/// Calls `Path::join`, which adjoins `name` to `base`, or gives `name`
/// alone where `name` is absolute. The contract only names the result.
#[verifier::external_body]
pub(crate) fn join_path(base: &PathBuf, name: &str) -> (joined: PathBuf)
    ensures
        joined == path_join(*base, name@),
{
    base.join(name)
}

} // verus!
