//! Relative paths between absolute paths.
//!
//! `get_relative_path` gives the way from a base directory to a target file
//! or directory, as parent references followed by names. It works on the
//! components of the two paths alone: nothing is looked up on disk, neither
//! path need exist, and names are compared byte for byte.
//!
//! `resolve` is the same on two paths that are absolute already, with the
//! guard against roots that no relative path can bridge switched on or off.

pub mod absolute;
pub mod component;
pub mod error;
pub mod host;
pub mod join;
pub mod laws;
pub mod relative;
pub mod resolve;

pub use crate::absolute::AbsolutePath;
pub use crate::component::PathComponent;
pub use crate::error::{ResolutionFailure, ResolveError};
pub use crate::host::{get_relative_path, HostComponent, PathLike};
pub use crate::relative::{RelativePath, RelativeSegment};
pub use crate::resolve::{resolve, resolve_outcomes};
