//! The package store: the installed-package list of one SD card, with the
//! places on the card where it is kept.
use vstd::prelude::*;
use crate::text::{chars_of, path_join, path_join_exec};
use super::PackageError;
use super::conflict::{check_package_paths, conflict_result, conflict_lines, installed_table, lines_view};
use super::path::PackagePath;
pub use super::state::InstalledPackage;
use super::state::{
    add_in, find_in, find_name_in, find_id_in, has_id, remove_id_in, id_index,
    spec_add, with_name, without_id, find_ok, find_err,
};

verus! {

/// Where the package list lives, relative to the SD card root.
pub open spec fn state_file_rel() -> Seq<char> {
    "RADIO/packages.yml"@
}

/// Where the per-package file lists live, relative to the SD card root.
pub open spec fn file_list_dir_rel() -> Seq<char> {
    "RADIO/packages"@
}

/// The installed-package list of one SD card.
pub struct PackageStore {
    sd_root: String,
    state_file: String,
    file_list_dir: String,
    packages: Vec<InstalledPackage>,
}

impl PackageStore {
    /// A store for the card at `sd_root` holding `packages` (as read from its
    /// package list, or empty when there is none yet).
    pub fn new(sd_root: String, packages: Vec<InstalledPackage>) -> (r: PackageStore)
        ensures
            r.spec_sd_root() == sd_root@,
            r.spec_state_file() == path_join(sd_root@, state_file_rel()),
            r.spec_file_list_dir() == path_join(sd_root@, file_list_dir_rel()),
            r.spec_packages() == packages@,
    {
        let state_file = path_join_exec(sd_root.as_str(), "RADIO/packages.yml");
        let file_list_dir = path_join_exec(sd_root.as_str(), "RADIO/packages");
        PackageStore { sd_root, state_file, file_list_dir, packages }
    }

    pub closed spec fn spec_sd_root(&self) -> Seq<char> {
        self.sd_root@
    }

    pub closed spec fn spec_state_file(&self) -> Seq<char> {
        self.state_file@
    }

    pub closed spec fn spec_file_list_dir(&self) -> Seq<char> {
        self.file_list_dir@
    }

    pub closed spec fn spec_packages(&self) -> Seq<InstalledPackage> {
        self.packages@
    }

    /// The SD card root.
    pub fn sd_root(&self) -> (r: &str)
        ensures
            r@ == self.spec_sd_root(),
    {
        self.sd_root.as_str()
    }

    /// The file the package list is saved to.
    pub fn state_file(&self) -> (r: &str)
        ensures
            r@ == self.spec_state_file(),
    {
        self.state_file.as_str()
    }

    /// The directory that holds the per-package file lists.
    pub fn file_list_dir(&self) -> (r: &str)
        ensures
            r@ == self.spec_file_list_dir(),
    {
        self.file_list_dir.as_str()
    }

    /// The installed packages, in list order.
    pub fn packages(&self) -> (r: &[InstalledPackage])
        ensures
            r@ == self.spec_packages(),
    {
        self.packages.as_slice()
    }

    /// The package whose canonical id is `canonical`, if any: the identity
    /// it was installed under, the source it is known by.
    pub fn find_by_source(&self, canonical: &str) -> (r: Option<&InstalledPackage>)
        ensures
            match r {
                Some(p) => has_id(self.spec_packages(), canonical@)
                    && *p == self.spec_packages()[id_index(self.spec_packages(), canonical@)],
                None => !has_id(self.spec_packages(), canonical@),
            },
    {
        find_id_in(&self.packages, canonical)
    }

    /// All packages whose name matches, in list order.
    pub fn find_by_name(&self, name: &str) -> (r: Vec<&InstalledPackage>)
        ensures
            r@.map_values(|p: &InstalledPackage| *p) == with_name(self.spec_packages(), name@),
    {
        find_name_in(&self.packages, name)
    }

    /// Lookup by source first, then by name; an error when the name is
    /// unknown or shared by several packages.
    pub fn find(&self, query: &str) -> (r: Result<&InstalledPackage, PackageError>)
        ensures
            match r {
                Ok(p) => find_ok(self.spec_packages(), query@, *p),
                Err(e) => find_err(self.spec_packages(), query@, e),
            },
    {
        find_in(&self.packages, query)
    }

    /// Removes the package with the given canonical source.
    pub fn remove(&mut self, canonical: &str)
        ensures
            final(self).spec_packages() == without_id(old(self).spec_packages(), canonical@),
            final(self).spec_sd_root() == old(self).spec_sd_root(),
            final(self).spec_state_file() == old(self).spec_state_file(),
            final(self).spec_file_list_dir() == old(self).spec_file_list_dir(),
    {
        remove_id_in(&mut self.packages, canonical);
    }

    /// Adds a package, replacing the one with the same source if present.
    pub fn add(&mut self, pkg: InstalledPackage)
        ensures
            final(self).spec_packages() == spec_add(old(self).spec_packages(), pkg),
            final(self).spec_sd_root() == old(self).spec_sd_root(),
            final(self).spec_state_file() == old(self).spec_state_file(),
            final(self).spec_file_list_dir() == old(self).spec_file_list_dir(),
    {
        add_in(&mut self.packages, pkg);
    }

    /// Checks whether any of `new_paths` overlaps a path owned by an
    /// installed package; packages from `skip_id` are left out. Overlap
    /// is a segment-wise prefix match.
    pub fn check_conflicts(&self, new_paths: &[PackagePath], skip_id: &str) -> (r: Result<(), PackageError>)
        ensures
            conflict_result(
                conflict_lines(new_paths@.map_values(|p: PackagePath| p@), installed_table(self.spec_packages(), skip_id@), false),
                r,
            ),
    {
        let mut nps: Vec<Vec<char>> = Vec::new();
        let mut i: usize = 0;
        while i < new_paths.len()
            invariant
                i <= new_paths.len(),
                lines_view(nps@) == new_paths@.map_values(|p: PackagePath| p@).take(i as int),
            decreases new_paths.len() - i,
        {
            let c = chars_of(new_paths[i].as_str());
            let ghost before = nps@;
            nps.push(c);
            proof {
                assert(nps@ == before.push(c));
                assert(lines_view(nps@) == lines_view(before).push(c@));
                assert(new_paths@.map_values(|p: PackagePath| p@).take(i + 1)
                    == new_paths@.map_values(|p: PackagePath| p@).take(i as int).push(new_paths@[i as int]@));
            }
            i += 1;
        }
        proof {
            assert(new_paths@.map_values(|p: PackagePath| p@).take(i as int) == new_paths@.map_values(|p: PackagePath| p@));
        }
        check_package_paths(&self.packages, &nps, skip_id, false)
    }
}

} // verus!
