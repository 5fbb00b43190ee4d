//! Arguments of the package commands.
use vstd::prelude::*;

verus! {

/// The package commands.
#[derive(Debug)]
pub enum PkgCommands {
    Install(InstallArgs),
    Update(UpdateArgs),
    Remove(RemoveArgs),
    List(ListArgs),
    Info(InfoArgs),
    Outdated(OutdatedArgs),
}

/// Arguments of `pkg install`.
#[derive(Debug)]
pub struct InstallArgs {
    /// Package reference (`Org/Repo`, `Org/Repo@v1.0`, `./local`).
    pub package: String,
    /// SD card directory; detected when not given.
    pub dir: Option<String>,
    /// Unmount the radio afterwards.
    pub eject: bool,
    /// Show what would be installed without writing anything.
    pub dry_run: bool,
    /// Include development dependencies.
    pub dev: bool,
    /// Manifest file or subdirectory within the repository.
    pub path: Option<String>,
}

/// Arguments of `pkg update`.
#[derive(Debug)]
pub struct UpdateArgs {
    /// Package to update (source or name); none with `all`.
    pub package: Option<String>,
    pub dir: Option<String>,
    pub path: Option<String>,
    /// Update every installed package.
    pub all: bool,
    pub eject: bool,
    pub dry_run: bool,
    pub dev: bool,
}

/// Arguments of `pkg remove`.
#[derive(Debug)]
pub struct RemoveArgs {
    /// Package to remove (source or name).
    pub package: String,
    pub dir: Option<String>,
    pub path: Option<String>,
    pub eject: bool,
    pub dry_run: bool,
}

/// Arguments of `pkg list`.
#[derive(Debug)]
pub struct ListArgs {
    pub dir: Option<String>,
}

/// Arguments of `pkg info`.
#[derive(Debug)]
pub struct InfoArgs {
    pub package: String,
    pub path: Option<String>,
}

/// Arguments of `pkg outdated`.
#[derive(Debug)]
pub struct OutdatedArgs {
    pub dir: Option<String>,
}

/// Whether an update of a package includes its development dependencies:
/// always with `--dev`; without it, what the package was installed with.
pub fn update_includes_dev(args: &UpdateArgs, installed_with_dev: bool) -> (r: bool)
    ensures
        args.dev ==> r,
        !args.dev ==> r == installed_with_dev,
{
    args.dev || installed_with_dev
}

} // verus!
