//! Installed-package bookkeeping: the package list, conflicts, and the
//! plans for installing, updating and removing packages.
pub mod conflict;
pub mod file_list;
pub mod info;
pub mod install;
pub mod outdated;
pub mod path;
pub mod remove;
pub mod state;
pub mod store;
pub mod transfer;
pub mod update;

use vstd::prelude::*;
use crate::error::RadioError;
use crate::manifest::ManifestError;
use crate::source::SourceError;
use self::path::PackagePath;

verus! {

/// Errors of the package operations.
#[derive(Debug)]
pub enum PackageError {
    NotFound(String),
    Ambiguous { name: String, sources: Vec<String> },
    Conflicts(String),
    NoMatchingVariant,
    UnknownRadio,
    ContentResolve { path: PackagePath, source: ManifestError },
    State(String),
    Store(String),
    Source(SourceError),
    Radio(RadioError),
    Copy(String),
    Other(String),
}

} // verus!
