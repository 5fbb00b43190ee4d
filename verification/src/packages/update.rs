//! Updating installed packages: what to fetch, whether anything changed,
//! and the new record.
use vstd::prelude::*;
use crate::manifest::{spec_content_items, ContentItemModel, Manifest};
use crate::source::{PackageRef, PackageRefModel, SourceError};
use crate::source::version::Channel;
use crate::text::{rfind_char, append, chars_of, debug_quote, debug_quoted, join, owned, str_eq, string_of};
use super::PackageError;
use super::conflict::{conflict_lines, installed_table};
use super::install::Fetched;
use super::path::PackagePath;
use super::state::{clone_opt, find_err, find_ok, opt_text, same_package, spec_add, without_id, InstalledPackage};
use super::store::PackageStore;
use super::transfer::{sum_counts, total_of};

verus! {

/// What an update is asked to do. Progress is reported by the program.
pub struct UpdateOptions {
    pub sd_root: String,
    pub query: String,
    pub all: bool,
    pub dev: Option<bool>,
    pub dry_run: bool,
}

/// The outcome of updating one package.
#[derive(Debug)]
pub struct UpdateResult {
    pub package: InstalledPackage,
    pub files_copied: usize,
    pub up_to_date: bool,
}

/// Where an update gets the package from.
pub enum UpdateRequest {
    /// A pinned commit without a requested version: nothing to fetch.
    Pinned,
    /// A local package: read its manifest again from the directory.
    Local { path: String, variant: String },
    /// A remote package: fetch this reference.
    Remote { pkg_ref: PackageRef },
}

/// The reference an update of a remote package fetches: the requested
/// version, else the branch it follows, else the source as it reads (the
/// latest version).
pub open spec fn remote_request(pkg: InstalledPackage, version_override: Seq<char>, m: PackageRefModel) -> PackageRefModel {
    if version_override.len() > 0 {
        m.with_version(version_override)
    } else if pkg.channel == Channel::Branch {
        m.with_version(pkg.version@)
    } else {
        m
    }
}

/// What an update of `pkg` fetches, given how its source reads
/// (`parsed`).
pub open spec fn request_ok(pkg: InstalledPackage, version_override: Seq<char>, parsed: Result<PackageRefModel, Seq<char>>, r: Result<UpdateRequest, PackageError>) -> bool {
    if pkg.channel == Channel::Commit && version_override.len() == 0 {
        r matches Ok(UpdateRequest::Pinned)
    } else {
        match parsed {
            Err(reason) => r matches Err(PackageError::Source(SourceError::InvalidRef { raw, reason: why }))
                && raw@ == pkg.id@ && why@ == reason,
            Ok(m) => if pkg.channel == Channel::Local {
                match m {
                    PackageRefModel::Local { path, variant } => r matches Ok(UpdateRequest::Local { path: p, variant: v })
                        && p@ == path && v@ == variant,
                    PackageRefModel::Remote { .. } => r matches Err(PackageError::NotFound(msg))
                        && msg@ == "expected local package for channel=local, got "@ + debug_quoted(pkg.id@),
                }
            } else {
                r matches Ok(UpdateRequest::Remote { pkg_ref }) && pkg_ref@ == remote_request(pkg, version_override, m)
            },
        }
    }
}

/// Decides what an update of `pkg` fetches. `source_is_dir` says whether
/// the package's source names an existing directory.
pub fn update_request(pkg: &InstalledPackage, version_override: &str, source_is_dir: bool) -> (r: Result<UpdateRequest, PackageError>)
    ensures
        request_ok(*pkg, version_override@, crate::source::spec_parse_package_ref(pkg.id@, source_is_dir), r),
{
    if pkg.channel.is_pinned() && version_override.is_empty() {
        return Ok(UpdateRequest::Pinned);
    }
    let parsed = PackageRef::parse(pkg.id.as_str(), source_is_dir);
    let mut pkg_ref = match parsed {
        Ok(p) => p,
        Err(e) => return Err(PackageError::Source(e)),
    };
    if pkg.channel.is_local() {
        return match pkg_ref {
            PackageRef::Local { path, variant } => Ok(UpdateRequest::Local { path, variant }),
            PackageRef::Remote { .. } => {
                let mut m = chars_of("expected local package for channel=local, got ");
                append(&mut m, &chars_of(debug_quote(pkg.id.as_str()).as_str()));
                Err(PackageError::NotFound(string_of(&m)))
            },
        };
    }
    if !version_override.is_empty() {
        pkg_ref.set_version(owned(version_override));
    } else if pkg.channel == Channel::Branch {
        pkg_ref.set_version(pkg.version.clone());
    }
    Ok(UpdateRequest::Remote { pkg_ref })
}

/// An update ready to be applied.
pub struct UpdateCommand {
    pub package: InstalledPackage,
    pub old_package: InstalledPackage,
    pub original_source: String,
    manifest: Option<Manifest>,
    manifest_dir: String,
    include_dev: bool,
    up_to_date: bool,
}

/// The conflicts between the new paths and the packages other than the
/// one being updated.
pub open spec fn update_conflicts(m: &Manifest, include_dev: bool, store: &PackageStore, original_source: Seq<char>) -> Seq<Seq<char>> {
    conflict_lines(
        spec_content_items(m, include_dev).map_values(|c: ContentItemModel| c.path),
        installed_table(store.spec_packages(), original_source),
        false,
    )
}

/// The record an update writes: the package's id, origin, variant and
/// local path as they were, the new manifest's name, the new version, and
/// the new content paths.
pub open spec fn update_record(p: InstalledPackage, old: InstalledPackage, m: &Manifest, channel: Channel, version: Seq<char>, commit: Seq<char>, include_dev: bool) -> bool {
    &&& p.id@ == old.id@
    &&& p.name@ == m.package.name@
    &&& p.channel == channel
    &&& p.version@ == version
    &&& p.commit@ == commit
    &&& p.paths@.map_values(|x: PackagePath| x@) == spec_content_items(m, include_dev).map_values(|c: ContentItemModel| c.path)
    &&& p.dev == include_dev
    &&& opt_text(p.origin) == opt_text(old.origin)
    &&& opt_text(p.variant) == opt_text(old.variant)
    &&& opt_text(p.local_path) == opt_text(old.local_path)
}

impl UpdateCommand {
    pub closed spec fn spec_package(&self) -> InstalledPackage {
        self.package
    }

    pub closed spec fn spec_old(&self) -> InstalledPackage {
        self.old_package
    }

    pub closed spec fn spec_original_source(&self) -> Seq<char> {
        self.original_source@
    }

    pub closed spec fn spec_up_to_date(&self) -> bool {
        self.up_to_date
    }

    pub closed spec fn spec_include_dev(&self) -> bool {
        self.include_dev
    }

    pub closed spec fn spec_manifest(&self) -> Option<Manifest> {
        self.manifest
    }

    pub closed spec fn spec_manifest_dir(&self) -> Seq<char> {
        self.manifest_dir@
    }

    /// An update of a pinned package that asked for no version: nothing
    /// changes.
    pub fn pinned(pkg: &InstalledPackage, original_source: &str, include_dev: bool) -> (r: UpdateCommand)
        ensures
            r.spec_up_to_date(),
            same_package(r.spec_package(), *pkg),
            same_package(r.spec_old(), *pkg),
            r.spec_original_source() == original_source@,
            r.spec_include_dev() == include_dev,
            r.spec_manifest() is None,
    {
        UpdateCommand {
            package: pkg.clone(),
            old_package: pkg.clone(),
            original_source: owned(original_source),
            manifest: None,
            manifest_dir: String::new(),
            include_dev,
            up_to_date: true,
        }
    }

    /// Prepares the update of `pkg` from a fetched manifest: from the local
    /// directory (`from_local`), or from the upstream that gave `fetched`. A
    /// remote package whose commit did not change is up to date. The new
    /// paths must not overlap other packages' (those from `original_source`
    /// left out).
    pub fn resolve(
        pkg: &InstalledPackage,
        original_source: &str,
        store: &PackageStore,
        include_dev: bool,
        from_local: bool,
        manifest: Manifest,
        manifest_dir: String,
        fetched: Fetched,
    ) -> (r: Result<UpdateCommand, PackageError>)
        ensures
            !from_local && fetched.commit@ == pkg.commit@ ==> (r matches Ok(cmd) && cmd.spec_up_to_date()
                && same_package(cmd.spec_package(), *pkg) && same_package(cmd.spec_old(), *pkg)),
            (from_local || fetched.commit@ != pkg.commit@) && update_conflicts(&manifest, include_dev, store, original_source@).len() > 0
                ==> (r matches Err(PackageError::Conflicts(m))
                    && m@ == join(update_conflicts(&manifest, include_dev, store, original_source@), "\n  "@)),
            (from_local || fetched.commit@ != pkg.commit@) && update_conflicts(&manifest, include_dev, store, original_source@).len() == 0
                ==> (r matches Ok(cmd) && !cmd.spec_up_to_date()
                    && same_package(cmd.spec_old(), *pkg)
                    && cmd.spec_original_source() == original_source@
                    && cmd.spec_include_dev() == include_dev
                    && update_record(
                        cmd.spec_package(),
                        *pkg,
                        &manifest,
                        if from_local { Channel::Local } else { fetched.channel },
                        if from_local { Seq::empty() } else { fetched.version@ },
                        if from_local { Seq::empty() } else { fetched.commit@ },
                        include_dev,
                    )),
    {
        if !from_local && str_eq(fetched.commit.as_str(), pkg.commit.as_str()) {
            return Ok(UpdateCommand {
                package: pkg.clone(),
                old_package: pkg.clone(),
                original_source: owned(original_source),
                manifest: Some(manifest),
                manifest_dir,
                include_dev,
                up_to_date: true,
            });
        }
        let (channel, version, commit) = if from_local {
            (Channel::Local, String::new(), String::new())
        } else {
            (fetched.channel, fetched.version, fetched.commit)
        };
        let new_paths = manifest.all_paths(include_dev);
        let np = new_paths.as_slice();
        let checked = store.check_conflicts(np, original_source);
        proof {
            assert(np@ == new_paths@);
            assert(new_paths@.map_values(|p: PackagePath| p@) == spec_content_items(&manifest, include_dev).map_values(|c: ContentItemModel| c.path));
        }
        match checked {
            Ok(()) => {},
            Err(e) => return Err(e),
        }
        let package = InstalledPackage {
            id: pkg.id.clone(),
            name: manifest.package.name.clone(),
            channel,
            version,
            commit,
            paths: new_paths,
            dev: include_dev,
            origin: clone_opt(&pkg.origin),
            variant: clone_opt(&pkg.variant),
            local_path: clone_opt(&pkg.local_path),
        };
        Ok(UpdateCommand {
            package,
            old_package: pkg.clone(),
            original_source: owned(original_source),
            manifest: Some(manifest),
            manifest_dir,
            include_dev,
            up_to_date: false,
        })
    }

    /// The manifest of the new version, if one was fetched.
    pub fn manifest(&self) -> (r: Option<&Manifest>)
        ensures
            match r {
                Some(m) => self.spec_manifest() == Some(*m),
                None => self.spec_manifest() is None,
            },
    {
        match &self.manifest {
            Some(m) => Some(m),
            None => None,
        }
    }

    /// Where the new manifest lies.
    pub fn manifest_dir(&self) -> (r: &str)
        ensures
            r@ == self.spec_manifest_dir(),
    {
        self.manifest_dir.as_str()
    }

    /// The number of files the update copies, given how many files each
    /// content item of the new manifest copies (in the manifest's order); a
    /// pinned package left as it is copies none.
    pub fn total_files(&self, item_files: &[usize]) -> (r: usize)
        requires
            self.spec_manifest() matches Some(m) ==> item_files@.len() == spec_content_items(&m, self.spec_include_dev()).len(),
            sum_counts(item_files@) <= usize::MAX,
        ensures
            self.spec_manifest() is None ==> r == 0,
            self.spec_manifest() is Some ==> r == sum_counts(item_files@),
    {
        match &self.manifest {
            None => 0,
            Some(_) => total_of(item_files),
        }
    }

    /// Whether the package is already up to date.
    pub fn is_up_to_date(&self) -> (r: bool)
        ensures
            r == self.spec_up_to_date(),
    {
        self.up_to_date
    }

    /// Records the update, once the old files are gone and the new ones are
    /// on the card: the old record is dropped and the new one added. An
    /// up-to-date package and a dry run change nothing.
    pub fn execute(self, store: &mut PackageStore, dry_run: bool, files_copied: usize) -> (r: UpdateResult)
        ensures
            same_package(r.package, self.spec_package()),
            r.up_to_date == self.spec_up_to_date(),
            self.spec_up_to_date() || dry_run ==> r.files_copied == 0 && *final(store) == *old(store),
            !self.spec_up_to_date() && !dry_run ==> r.files_copied == files_copied
                && final(store).spec_packages() == spec_add(
                    without_id(old(store).spec_packages(), self.spec_original_source()),
                    self.spec_package(),
                )
                && final(store).spec_sd_root() == old(store).spec_sd_root(),
    {
        if self.up_to_date || dry_run {
            let p = self.package.clone();
            return UpdateResult { package: p, files_copied: 0, up_to_date: self.up_to_date };
        }
        store.remove(self.original_source.as_str());
        let p = self.package.clone();
        store.add(self.package);
        UpdateResult { package: p, files_copied, up_to_date: false }
    }
}

/// Which packages an update covers, and the version it asks for.
pub struct UpdateTargets {
    pub packages: Vec<InstalledPackage>,
    pub original_sources: Vec<String>,
    pub version_override: String,
}

/// Chooses the packages to update: all of them, or the one the query
/// names (with the version it asks for). `query_is_dir` says whether the
/// query names an existing directory.
pub fn update_targets(store: &PackageStore, opts: &UpdateOptions, query_is_dir: bool) -> (r: Result<UpdateTargets, PackageError>)
    ensures
        opts.query@.len() == 0 && !opts.all ==> (r matches Err(PackageError::NotFound(m))
            && m@ == "specify a package name or use --all"@),
        opts.all ==> (r matches Ok(t) && t.packages@.len() == store.spec_packages().len()
            && (forall|i: int| 0 <= i < t.packages@.len() ==> same_package(#[trigger] t.packages@[i], store.spec_packages()[i]))
            && t.original_sources@.map_values(|s: String| s@) == store.spec_packages().map_values(|p: InstalledPackage| p.id@)
            && t.version_override@.len() == 0),
        !opts.all && opts.query@.len() > 0 ==> match crate::source::spec_parse_package_ref(opts.query@, query_is_dir) {
            Err(reason) => r matches Err(PackageError::Source(SourceError::InvalidRef { raw, reason: why }))
                && raw@ == opts.query@ && why@ == reason,
            Ok(m) => match r {
                Ok(t) => t.packages@.len() == 1
                    && (exists|q: InstalledPackage| find_ok(store.spec_packages(), m.canonical(), q) && same_package(t.packages@[0], q))
                    && t.original_sources@.len() == 1 && t.original_sources@[0]@ == t.packages@[0].id@
                    && t.version_override@ == m.version(),
                Err(e) => (exists|fe: PackageError| find_err(store.spec_packages(), m.canonical(), fe))
                    && (e matches PackageError::NotFound(msg)
                    && msg@ == "package "@ + debug_quoted(opts.query@) + " not found"@),
            },
        },
{
    if opts.query.as_str().is_empty() && !opts.all {
        return Err(PackageError::NotFound(owned("specify a package name or use --all")));
    }
    if opts.all {
        let pkgs = store.packages();
        let mut packages: Vec<InstalledPackage> = Vec::new();
        let mut sources: Vec<String> = Vec::new();
        let mut i: usize = 0;
        while i < pkgs.len()
            invariant
                i <= pkgs.len(),
                pkgs@ == store.spec_packages(),
                packages@.len() == i,
                forall|j: int| 0 <= j < i ==> same_package(#[trigger] packages@[j], pkgs@[j]),
                sources@.map_values(|s: String| s@) == pkgs@.map_values(|p: InstalledPackage| p.id@).take(i as int),
            decreases pkgs.len() - i,
        {
            packages.push(pkgs[i].clone());
            let s = pkgs[i].id.clone();
            let ghost before = sources@;
            sources.push(s);
            proof {
                assert(sources@ == before.push(s));
                let f = pkgs@.map_values(|p: InstalledPackage| p.id@);
                assert(f.take(i + 1) == f.take(i as int).push(f[i as int]));
            }
            i += 1;
        }
        proof {
            let f = pkgs@.map_values(|p: InstalledPackage| p.id@);
            assert(f.take(i as int) == f);
        }
        return Ok(UpdateTargets { packages, original_sources: sources, version_override: String::new() });
    }
    let pkg_ref = match PackageRef::parse(opts.query.as_str(), query_is_dir) {
        Ok(p) => p,
        Err(e) => return Err(PackageError::Source(e)),
    };
    let query = pkg_ref.canonical();
    let version_override = owned(pkg_ref.version());
    match store.find(query.as_str()) {
        Ok(pkg) => {
            let p = pkg.clone();
            let s = pkg.id.clone();
            let mut packages: Vec<InstalledPackage> = Vec::new();
            let mut sources: Vec<String> = Vec::new();
            packages.push(p);
            sources.push(s);
            proof {
                assert(find_ok(store.spec_packages(), query@, *pkg));
            }
            Ok(UpdateTargets { packages, original_sources: sources, version_override })
        },
        Err(e) => {
            proof {
                assert(find_err(store.spec_packages(), query@, e));
            }
            let mut m = chars_of("package ");
            append(&mut m, &chars_of(debug_quote(opts.query.as_str()).as_str()));
            append(&mut m, &chars_of(" not found"));
            Err(PackageError::NotFound(string_of(&m)))
        },
    }
}

} // verus!

verus! {

/// A reference that holds no `@` names no version.
proof fn lemma_no_at_no_version(raw: Seq<char>, dir: bool)
    requires
        !raw.contains('@'),
    ensures
        crate::source::spec_parse_package_ref(raw, dir) matches Ok(p) ==> p.version().len() == 0,
{
    crate::text::lemma_rfind_bounds(raw, '@');
    if rfind_char(raw, '@') is Some {
        assert(raw[rfind_char(raw, '@')->0] == '@');
    }
}

/// An update of a package that follows tags, asked for no version, fetches
/// the latest: the reference it fetches is the package's id as it reads,
/// not pinned to the tag now installed. An id that names no version (no
/// `@`) is fetched with no version at all.
pub proof fn law_tag_update_fetches_latest(pkg: &InstalledPackage, version_override: &str, dir: bool, r: Result<UpdateRequest, PackageError>)
    requires
        call_ensures(update_request, (pkg, version_override, dir), r),
        pkg.channel == Channel::Tag,
        version_override@.len() == 0,
    ensures
        crate::source::spec_parse_package_ref(pkg.id@, dir) matches Ok(p) ==> (r matches Ok(UpdateRequest::Remote { pkg_ref })
            && pkg_ref@.version() == p.version() && pkg_ref@.canonical() == p.canonical()),
        !pkg.id@.contains('@') ==> (r matches Ok(UpdateRequest::Remote { pkg_ref }) ==> pkg_ref@.version().len() == 0),
{
    if !pkg.id@.contains('@') {
        lemma_no_at_no_version(pkg.id@, dir);
    }
}

} // verus!
