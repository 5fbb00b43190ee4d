//! The outcome of cloning and checking out a repository.
use vstd::prelude::*;
use crate::manifest::Manifest;
use crate::source::version::ResolvedVersion;

verus! {

/// A checked-out package: its manifest, the checkout, the manifest's
/// directory, and the version that was checked out.
#[derive(Debug)]
pub struct CloneResult {
    pub manifest: Manifest,
    pub dir: String,
    pub manifest_dir: String,
    pub resolved: ResolvedVersion,
}

} // verus!
