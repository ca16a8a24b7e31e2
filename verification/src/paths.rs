//! Path arithmetic, as the standard library's `Path` does it for the platform
//! the crate is built for. Each operation has a name in contracts; the
//! functions here are the only place where those names are tied to code.

use crate::common::option_view;
use std::path::Path;
use vstd::prelude::*;

verus! {

/// The separator put between a directory and a name below it.
pub const SEPARATOR: char = '/';

/// What `Path::parent` returns for a path: the path without its final
/// component, if it has one.
pub uninterp spec fn path_parent(path: Seq<char>) -> Option<Seq<char>>;

/// What `Path::file_name` returns for a path: its final component, if that is
/// an ordinary name.
pub uninterp spec fn path_file_name(path: Seq<char>) -> Option<Seq<char>>;

/// What `Path::extension` returns for a path: the part of the file name after
/// its last dot, if there is one.
pub uninterp spec fn path_extension(path: Seq<char>) -> Option<Seq<char>>;

/// Whether two paths are equal as `Path` values, that is component by
/// component.
pub uninterp spec fn path_equal(left: Seq<char>, right: Seq<char>) -> bool;

/// What `Path::strip_prefix` returns: the rest of `path` below `base`, if
/// `path` starts with the components of `base`.
pub uninterp spec fn path_strip_prefix(path: Seq<char>, base: Seq<char>) -> Option<Seq<char>>;

/// What `Path::join` returns: `base` extended by `rest`.
pub uninterp spec fn path_join(base: Seq<char>, rest: Seq<char>) -> Seq<char>;

/// Calls `Path::parent`. Believed, not proved: the result is the value that
/// contracts call `path_parent`, as text.
#[verifier::external_body]
pub(crate) fn parent(path: &str) -> (dir: Option<String>)
    ensures
        option_view(dir) == path_parent(path@),
{
    match Path::new(path).parent() {
        Some(p) => Some(p.to_string_lossy().into_owned()),
        None => None,
    }
}

/// Calls `Path::file_name`. Believed, not proved: the result is the value
/// that contracts call `path_file_name`, as text.
#[verifier::external_body]
pub(crate) fn file_name(path: &str) -> (name: Option<String>)
    ensures
        option_view(name) == path_file_name(path@),
{
    match Path::new(path).file_name() {
        Some(n) => Some(n.to_string_lossy().into_owned()),
        None => None,
    }
}

/// Calls `Path::extension`. Believed, not proved: the result is the value
/// that contracts call `path_extension`, as text.
#[verifier::external_body]
pub(crate) fn extension(path: &str) -> (ext: Option<String>)
    ensures
        option_view(ext) == path_extension(path@),
{
    match Path::new(path).extension() {
        Some(e) => Some(e.to_string_lossy().into_owned()),
        None => None,
    }
}

/// Compares two paths with `Path`'s `==`. Believed, not proved: the result is
/// the value that contracts call `path_equal`.
#[verifier::external_body]
pub(crate) fn equal(left: &str, right: &str) -> (same: bool)
    ensures
        same == path_equal(left@, right@),
{
    Path::new(left) == Path::new(right)
}

/// Calls `Path::strip_prefix`. Believed, not proved: the result is the value
/// that contracts call `path_strip_prefix`, as text, and `None` where the
/// standard library reports that `base` is no prefix.
#[verifier::external_body]
pub(crate) fn strip_prefix(path: &str, base: &str) -> (rest: Option<String>)
    ensures
        option_view(rest) == path_strip_prefix(path@, base@),
{
    match Path::new(path).strip_prefix(Path::new(base)) {
        Ok(p) => Some(p.to_string_lossy().into_owned()),
        Err(_) => None,
    }
}

/// Calls `Path::join`. Believed, not proved: the result is the value that
/// contracts call `path_join`, as text.
#[verifier::external_body]
pub(crate) fn join(base: &str, rest: &str) -> (joined: String)
    ensures
        joined@ == path_join(base@, rest@),
{
    Path::new(base).join(rest).to_string_lossy().into_owned()
}

} // verus!
