//! Classification of resource archives.
//!
//! Opening archives and reading files belong to the embedding code;
//! this crate owns the classification of an archive location.

use vstd::prelude::*;

verus! {

/// How a resource archive is stored on disk.
#[derive(Clone, Copy, Debug, PartialEq, Eq, Structural)]
pub enum ResourcesType {
    Zip,
    Folder,
}

} // verus!
