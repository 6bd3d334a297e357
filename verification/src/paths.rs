//! File system paths, carried through as `PathBuf` values.

use vstd::prelude::*;
use std::path::PathBuf;

verus! {

/// A file system path; the library does not look inside it.
#[verifier::external_type_specification]
#[verifier::external_body]
pub struct ExPathBuf(std::path::PathBuf);

/// Calls `dirs::data_local_dir`. The answer depends on the platform and
/// the environment, so nothing is claimed of it.
#[verifier::external_body]
pub(crate) fn data_local_dir() -> (r: Option<PathBuf>) {
    dirs::data_local_dir()
}

/// What `PathBuf::from` gives for a text (a function of the text alone).
pub uninterp spec fn path_of_text(s: Seq<char>) -> PathBuf;

/// What `Path::join` gives for a base path and a segment (a function of
/// the two alone; its rules on separators and absolute segments are named,
/// not written out).
pub uninterp spec fn joined_path(base: PathBuf, segment: Seq<char>) -> PathBuf;

/// Calls `PathBuf::from` on a text. Claims the path is `path_of_text` of
/// the text.
#[verifier::external_body]
pub(crate) fn path_from(s: &str) -> (r: PathBuf)
    ensures
        r == path_of_text(s@),
{
    PathBuf::from(s)
}

/// Calls `Path::join`. Claims the path is `joined_path` of the base and
/// the segment.
#[verifier::external_body]
pub(crate) fn path_join(base: &PathBuf, segment: &str) -> (r: PathBuf)
    ensures
        r == joined_path(*base, segment@),
{
    base.join(segment)
}

} // verus!
