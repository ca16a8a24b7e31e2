//! Choosing the unpacker for an archive.

use crate::common::same_text;
use crate::paths::path_extension;
use vstd::prelude::*;

verus! {

/// The two ways an archive can be unpacked.
#[derive(Debug, Clone, Copy, PartialEq, Eq, Structural)]
pub enum Backend {
    /// The unpacker for RAR archives alone.
    Rar,
    /// The unpacker for every other format.
    Generic,
}

/// The unpacker for the archive at the path: the one for RAR where the
/// path's extension is `rar`, the generic one for any other extension and
/// for none.
pub open spec fn backend_for(archive_path: Seq<char>) -> Backend {
    if path_extension(archive_path) == Some("rar"@) {
        Backend::Rar
    } else {
        Backend::Generic
    }
}

/// Chooses the unpacker for the archive by the extension of its path.
pub fn select_backend(archive_path: &str) -> (backend: Backend)
    ensures
        backend == backend_for(archive_path@),
{
    match crate::paths::extension(archive_path) {
        Some(ext) => if same_text(ext.as_str(), "rar") {
            Backend::Rar
        } else {
            Backend::Generic
        },
        None => Backend::Generic,
    }
}

} // verus!
