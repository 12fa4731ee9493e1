//! Why no relative path was produced.

use vstd::prelude::*;

verus! {

/// The error of the host's path and file functions, `std::io::Error`. It is
/// carried as it came; nothing is claimed of what it holds.
#[verifier::external_type_specification]
#[verifier::external_body]
pub struct ExIoError(std::io::Error);

/// Why a path has no absolute form.
#[derive(Debug)]
pub enum ResolutionFailure {
    /// The host could not make the path absolute; its error, unchanged.
    Host(std::io::Error),
    /// What the host gave as the absolute form does not begin with a root
    /// marker, or holds behind it what cannot stand in a path.
    NotAbsolute,
}

/// Why `resolve` or `get_relative_path` gave no relative path.
#[derive(Debug)]
pub enum ResolveError {
    /// One of the two paths has no absolute form.
    ResolutionFailure(ResolutionFailure),
    /// The two paths lie under different roots, so that no sequence of
    /// parent references and names leads from one to the other.
    DisjointRoots,
}

} // verus!
