use vstd::prelude::*;
use std::path::{Path, PathBuf};

verus! {

/// `std::path::Path`: a path in the file system. Nothing of its inside is seen here.
#[verifier::external_type_specification]
#[verifier::external_body]
pub struct ExPath(Path);

/// `std::path::PathBuf`: an owned path. Nothing of its inside is seen here.
#[verifier::external_type_specification]
#[verifier::external_body]
pub struct ExPathBuf(PathBuf);

/// The text of a path, where the path is valid Unicode.
pub uninterp spec fn path_text(path: &Path) -> Option<Seq<char>>;

/// The text of an owned path, where the path is valid Unicode.
pub uninterp spec fn buf_text(path: PathBuf) -> Option<Seq<char>>;

/// The path of the file or directory `name` inside `dir`.
pub uninterp spec fn joined(dir: &Path, name: Seq<char>) -> PathBuf;

/// A path that is not valid Unicode, and so cannot be handed to the engine as text.
#[derive(Debug, Clone, Copy, PartialEq, Eq, Structural)]
pub struct InvalidPath;

/// `Path::to_str`: the path as a string slice, if it is valid Unicode.
#[verifier::external_body]
fn to_text(path: &Path) -> (r: Option<&str>)
    ensures
        match r {
            Some(s) => path_text(path) == Some(s@),
            None => path_text(path) is None,
        },
{
    path.to_str()
}

/// `PathBuf::as_path`: the owned path, borrowed; it holds the same path.
pub assume_specification[ PathBuf::as_path ](path: &PathBuf) -> (r: &Path)
    ensures
        path_text(r) == buf_text(*path),
;

/// `Path::join`: the path of `name` inside `dir`. It depends on the two alone.
#[verifier::external_body]
pub(crate) fn join(dir: &Path, name: &str) -> (r: PathBuf)
    ensures
        r == joined(dir, name@),
{
    dir.join(name)
}

/// The path as text; an error where it is not valid Unicode.
pub fn path_to_str(path: &Path) -> (r: Result<&str, InvalidPath>)
    ensures
        match r {
            Ok(s) => path_text(path) == Some(s@),
            Err(_) => path_text(path) is None,
        },
{
    match to_text(path) {
        Some(s) => Ok(s),
        None => Err(InvalidPath),
    }
}

} // verus!
