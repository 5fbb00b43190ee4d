//! Removing a package: which files and directories go, and the record that
//! is dropped.
use vstd::prelude::*;
use crate::source::{PackageRef, SourceError};
use crate::text::{append, chars_of, ends_with, ends_with_exec, owned, string_of, trim_end_matches, trim_end_matches_exec};
use super::PackageError;
use super::path::PackagePath;
use super::state::{find_err, find_ok, same_package, without_id, InstalledPackage};
use super::store::PackageStore;

verus! {

/// What a removal is asked to do.
pub struct RemoveOptions {
    pub sd_root: String,
    pub query: String,
}

/// The outcome of a removal.
pub struct RemoveResult {
    pub package: InstalledPackage,
    pub files_removed: usize,
}

/// A removal ready to run: the package, its files, its directories (deepest
/// handled by the program), and the compiled `.luac` companions on the card.
pub struct PreparedRemove {
    pub package: InstalledPackage,
    /// File entries of the list (no trailing `/`).
    pub files: Vec<String>,
    /// Directory entries of the list, trailing `/` stripped.
    pub dirs: Vec<String>,
    /// `.luac` companions that exist on the card.
    pub luac_files: Vec<String>,
    store: PackageStore,
}

/// The file entries of a list: those without a trailing `/`.
pub open spec fn file_entries(entries: Seq<Seq<char>>) -> Seq<Seq<char>>
    decreases entries.len(),
{
    if entries.len() == 0 {
        entries
    } else {
        let rest = file_entries(entries.drop_last());
        let e = entries.last();
        if e.len() > 0 && e.last() == '/' { rest } else { rest.push(e) }
    }
}

/// The directory entries of a list, trailing slashes stripped.
pub open spec fn dir_entries(entries: Seq<Seq<char>>) -> Seq<Seq<char>>
    decreases entries.len(),
{
    if entries.len() == 0 {
        entries
    } else {
        let rest = dir_entries(entries.drop_last());
        let e = entries.last();
        if e.len() > 0 && e.last() == '/' { rest.push(trim_end_matches(e, "/"@)) } else { rest }
    }
}

/// The compiled companion each Lua source could have: `<file>.luac`.
pub open spec fn luac_candidates_of(files: Seq<Seq<char>>) -> Seq<Seq<char>>
    decreases files.len(),
{
    if files.len() == 0 {
        files
    } else {
        let rest = luac_candidates_of(files.drop_last());
        let f = files.last();
        if ends_with(f, ".lua"@) { rest.push(f.push('c')) } else { rest }
    }
}

/// The entries of `xs` whose flag is set, in order.
pub open spec fn flagged(xs: Seq<Seq<char>>, flags: Seq<bool>) -> Seq<Seq<char>>
    decreases xs.len(),
{
    if xs.len() == 0 || flags.len() < xs.len() {
        Seq::empty()
    } else {
        let n = xs.len() - 1;
        let rest = flagged(xs.drop_last(), flags.take(n));
        if flags[n] { rest.push(xs.last()) } else { rest }
    }
}

/// The views of a list of strings.
pub open spec fn strings_view(v: Seq<String>) -> Seq<Seq<char>> {
    v.map_values(|s: String| s@)
}

/// The `.luac` companions a removal looks for on the card.
pub fn luac_candidates(files: &[String]) -> (r: Vec<String>)
    ensures
        strings_view(r@) == luac_candidates_of(strings_view(files@)),
{
    let ghost fv = strings_view(files@);
    let lua = chars_of(".lua");
    let mut out: Vec<String> = Vec::new();
    let mut i: usize = 0;
    while i < files.len()
        invariant
            i <= files.len(),
            lua@ == ".lua"@,
            fv == strings_view(files@),
            strings_view(out@) == luac_candidates_of(fv.take(i as int)),
        decreases files.len() - i,
    {
        proof {
            assert(fv.take(i + 1).drop_last() == fv.take(i as int));
            assert(fv.take(i + 1).last() == files@[i as int]@);
        }
        let f = chars_of(files[i].as_str());
        if ends_with_exec(&f, &lua) {
            let mut c = f;
            c.push('c');
            let s = string_of(&c);
            let ghost before = out@;
            out.push(s);
            proof {
                assert(out@ == before.push(s));
            }
        }
        i += 1;
    }
    proof {
        assert(fv.take(i as int) == fv);
    }
    out
}

/// The package a removal query names. `query_is_dir` says whether the
/// query names an existing directory.
pub fn remove_target<'a>(store: &'a PackageStore, query: &str, query_is_dir: bool) -> (r: Result<&'a InstalledPackage, PackageError>)
    ensures
        match crate::source::spec_parse_package_ref(query@, query_is_dir) {
            Err(reason) => r matches Err(PackageError::Source(SourceError::InvalidRef { raw, reason: why }))
                && raw@ == query@ && why@ == reason,
            Ok(m) => match r {
                Ok(p) => find_ok(store.spec_packages(), m.canonical(), *p),
                Err(e) => find_err(store.spec_packages(), m.canonical(), e),
            },
        },
{
    let pkg_ref = match PackageRef::parse(query, query_is_dir) {
        Ok(p) => p,
        Err(e) => return Err(PackageError::Source(e)),
    };
    let canonical = pkg_ref.canonical();
    store.find(canonical.as_str())
}

/// Prepares the removal of `package` from the list `entries` it installed.
/// `luac_on_disk` tells, for each of its `.luac` candidates, whether the
/// file exists on the card.
pub fn prepare_remove(store: PackageStore, package: InstalledPackage, entries: &[PackagePath], luac_on_disk: &[bool])
    -> (r: PreparedRemove)
    requires
        luac_on_disk@.len() == luac_candidates_of(file_entries(entries@.map_values(|p: PackagePath| p@))).len(),
    ensures
        r.spec_package() == package,
        r.spec_store() == store,
        strings_view(r.spec_files()) == file_entries(entries@.map_values(|p: PackagePath| p@)),
        strings_view(r.spec_dirs()) == dir_entries(entries@.map_values(|p: PackagePath| p@)),
        strings_view(r.spec_luac_files()) == flagged(luac_candidates_of(file_entries(entries@.map_values(|p: PackagePath| p@))), luac_on_disk@),
{
    let ghost ev = entries@.map_values(|p: PackagePath| p@);
    let mut files: Vec<String> = Vec::new();
    let mut dirs: Vec<String> = Vec::new();
    let slash = chars_of("/");
    let mut i: usize = 0;
    while i < entries.len()
        invariant
            i <= entries.len(),
            slash@ == "/"@,
            ev == entries@.map_values(|p: PackagePath| p@),
            strings_view(files@) == file_entries(ev.take(i as int)),
            strings_view(dirs@) == dir_entries(ev.take(i as int)),
        decreases entries.len() - i,
    {
        proof {
            assert(ev.take(i + 1).drop_last() == ev.take(i as int));
            assert(ev.take(i + 1).last() == entries@[i as int]@);
        }
        let e = chars_of(entries[i].as_str());
        if entries[i].is_dir() {
            let d = string_of(&trim_end_matches_exec(&e, &slash));
            let ghost before = dirs@;
            dirs.push(d);
            proof {
                assert(dirs@ == before.push(d));
            }
        } else {
            let f = string_of(&e);
            let ghost before = files@;
            files.push(f);
            proof {
                assert(files@ == before.push(f));
            }
        }
        i += 1;
    }
    proof {
        assert(ev.take(i as int) == ev);
    }
    let candidates = luac_candidates(files.as_slice());
    let ghost cv = strings_view(candidates@);
    let mut luac_files: Vec<String> = Vec::new();
    let mut k: usize = 0;
    while k < candidates.len()
        invariant
            k <= candidates.len(),
            cv == strings_view(candidates@),
            luac_on_disk@.len() == cv.len(),
            strings_view(luac_files@) == flagged(cv.take(k as int), luac_on_disk@.take(k as int)),
        decreases candidates.len() - k,
    {
        proof {
            assert(cv.take(k + 1).drop_last() == cv.take(k as int));
            assert(cv.take(k + 1).last() == candidates@[k as int]@);
            assert(luac_on_disk@.take(k + 1).take(k as int) == luac_on_disk@.take(k as int));
        }
        if luac_on_disk[k] {
            let c = candidates[k].clone();
            let ghost before = luac_files@;
            luac_files.push(c);
            proof {
                assert(luac_files@ == before.push(c));
            }
        }
        k += 1;
    }
    proof {
        assert(cv.take(k as int) == cv);
        assert(luac_on_disk@.take(k as int) == luac_on_disk@);
    }
    PreparedRemove { package, files, dirs, luac_files, store }
}

impl PreparedRemove {
    pub closed spec fn spec_store(&self) -> PackageStore {
        self.store
    }

    pub closed spec fn spec_package(&self) -> InstalledPackage {
        self.package
    }

    pub closed spec fn spec_files(&self) -> Seq<String> {
        self.files@
    }

    pub closed spec fn spec_dirs(&self) -> Seq<String> {
        self.dirs@
    }

    pub closed spec fn spec_luac_files(&self) -> Seq<String> {
        self.luac_files@
    }

    /// The number of files the removal deletes.
    pub fn total_files(&self) -> (r: usize)
        requires
            self.spec_files().len() + self.spec_luac_files().len() <= usize::MAX,
        ensures
            r == self.spec_files().len() + self.spec_luac_files().len(),
    {
        self.files.len() + self.luac_files.len()
    }

    /// Records the removal once the files are deleted: the package's record
    /// is dropped. A dry run deletes and changes nothing. Gives the outcome
    /// and, unless it was a dry run, the package list to save.
    pub fn execute(self, dry_run: bool) -> (r: (RemoveResult, Option<PackageStore>))
        requires
            self.spec_files().len() + self.spec_luac_files().len() <= usize::MAX,
        ensures
            r.0.package == self.spec_package(),
            dry_run ==> r.0.files_removed == 0 && r.1 is None,
            !dry_run ==> r.0.files_removed == self.spec_files().len() + self.spec_luac_files().len()
                && (r.1 matches Some(s)
                    && s.spec_packages() == without_id(self.spec_store().spec_packages(), self.spec_package().id@)
                    && s.spec_sd_root() == self.spec_store().spec_sd_root()),
    {
        if dry_run {
            return (RemoveResult { package: self.package, files_removed: 0 }, None);
        }
        let files_removed = self.files.len() + self.luac_files.len();
        let mut store = self.store;
        store.remove(self.package.id.as_str());
        (RemoveResult { package: self.package, files_removed }, Some(store))
    }
}

} // verus!

verus! {

/// What a removal reports it deleted is what it counted beforehand: the
/// count of a prepared removal equals the number of files its real run
/// reports removed.
pub proof fn law_removed_count_matches_total(p: PreparedRemove, n: usize, r: (RemoveResult, Option<PackageStore>))
    requires
        call_ensures(PreparedRemove::total_files, (&p,), n),
        call_ensures(PreparedRemove::execute, (p, false), r),
    ensures
        n == r.0.files_removed,
        n == p.spec_files().len() + p.spec_luac_files().len(),
{
}

} // verus!
