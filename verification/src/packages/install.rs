//! Installing a package: choosing the manifest variant for the radio,
//! checking the firmware and the paths, and recording the package.
use vstd::prelude::*;
use crate::manifest::{filter_matches, is_selected_variant, spec_content_items, ContentItemModel, Manifest, RadioCapabilities, Variant};
use crate::radio::version::{check_version_compatibility, version_error, version_ok};
use crate::source::{PackageRef, PackageRefModel, SourceError};
use crate::source::version::Channel;
use crate::text::{append, chars_of, debug_quote, debug_quoted, join, owned, str_eq, string_of};
use super::PackageError;
use super::conflict::{conflict_lines, conflict_result, installed_table};
use super::path::PackagePath;
use super::state::{has_id, opt_text, same_package, spec_add, without_id, InstalledPackage};
use super::store::PackageStore;
use super::transfer::{sum_counts, total_of};

verus! {

/// What an install is asked to do.
pub struct InstallOptions {
    pub sd_root: String,
    pub pkg_ref: PackageRef,
    pub dev: bool,
    /// Detected radio hardware capabilities; `None` if unknown.
    pub radio: Option<RadioCapabilities>,
}

/// The outcome of an install.
pub struct InstallResult {
    pub package: InstalledPackage,
    pub files_copied: usize,
}

/// The first variant from `i` on whose manifest path is `name`.
pub open spec fn variant_named(vs: Seq<Variant>, name: Seq<char>, i: int) -> int
    decreases vs.len() - i,
{
    if i >= vs.len() {
        vs.len() as int
    } else if vs[i].path@ == name {
        i
    } else {
        variant_named(vs, name, i + 1)
    }
}

/// Which manifest variant an install uses. Without variants, none. A
/// variant named in the reference must be listed; otherwise the radio's
/// capabilities choose one, and an unknown radio is an error.
pub open spec fn variant_choice(m: &Manifest, explicit: Seq<char>, radio: Option<RadioCapabilities>, r: Result<Option<String>, PackageError>) -> bool {
    let vs = m.package.variants@;
    if vs.len() == 0 {
        r matches Ok(None)
    } else if explicit.len() > 0 {
        if variant_named(vs, explicit, 0) < vs.len() {
            r matches Ok(Some(p)) && p@ == explicit
        } else {
            r matches Err(PackageError::Source(SourceError::InvalidRef { raw, reason }))
                && raw@ == explicit
                && reason@ == "variant "@ + debug_quoted(explicit) + " not found in manifest variants list"@
        }
    } else {
        match radio {
            Some(rc) => if exists|j: int| 0 <= j < vs.len() && filter_matches(#[trigger] vs[j].capabilities, rc) {
                r matches Ok(Some(p)) && exists|i: int| is_selected_variant(vs, rc, i) && p@ == vs[i].path@
            } else {
                r matches Err(PackageError::NoMatchingVariant)
            },
            None => r matches Err(PackageError::UnknownRadio),
        }
    }
}

/// Chooses the manifest variant to install: the one named in the reference
/// (`explicit_variant`), else the best match for the radio.
pub fn choose_variant(m: &Manifest, explicit_variant: &str, radio: Option<&RadioCapabilities>) -> (r: Result<Option<String>, PackageError>)
    ensures
        variant_choice(m, explicit_variant@, match radio { Some(rc) => Some(*rc), None => None }, r),
{
    let vs = &m.package.variants;
    if !m.has_variants() {
        return Ok(None);
    }
    if !explicit_variant.is_empty() {
        let mut i: usize = 0;
        while i < vs.len()
            invariant
                i <= vs.len(),
                vs@ == m.package.variants@,
                explicit_variant@.len() > 0,
                variant_named(vs@, explicit_variant@, 0) == variant_named(vs@, explicit_variant@, i as int),
            decreases vs.len() - i,
        {
            if str_eq(vs[i].path.as_str(), explicit_variant) {
                let p = vs[i].path.clone();
                proof {
                    assert(vs@[i as int].path@ == explicit_variant@);
                    assert(variant_named(vs@, explicit_variant@, i as int) == i);
                    assert(p@ == explicit_variant@);
                    assert(vs@ == m.package.variants@);
                }
                return Ok(Some(p));
            }
            i += 1;
        }
        let mut reason = chars_of("variant ");
        append(&mut reason, &chars_of(debug_quote(explicit_variant).as_str()));
        append(&mut reason, &chars_of(" not found in manifest variants list"));
        return Err(PackageError::Source(SourceError::InvalidRef { raw: owned(explicit_variant), reason: string_of(&reason) }));
    }
    match radio {
        Some(rc) => match m.select_variant(rc) {
            Some(v) => Ok(Some(v.path.clone())),
            None => Err(PackageError::NoMatchingVariant),
        },
        None => Err(PackageError::UnknownRadio),
    }
}

/// A variant manifest as loaded for an install: its file name in the
/// variants list, the manifest, and the directory it lies in.
pub struct LoadedVariant {
    pub path: String,
    pub manifest: Manifest,
    pub dir: String,
}

/// The loaded variant fits the choice: the chosen variant's manifest when a
/// variant is chosen, none otherwise.
pub open spec fn variant_fits(c: Result<Option<String>, PackageError>, loaded: Option<LoadedVariant>) -> bool {
    match c {
        Ok(Some(p)) => loaded matches Some(v) && v.path@ == p@,
        _ => loaded is None,
    }
}

/// A package ready to be installed: its manifest, where the manifest lies,
/// the record to add, and the package list it goes into.
pub struct InstallCommand {
    pub manifest: Manifest,
    pub manifest_dir: String,
    pub package: InstalledPackage,
    include_dev: bool,
    existing_id: Option<String>,
    store: PackageStore,
}

/// What a fetch of the package gave: how it now follows its upstream.
pub struct Fetched {
    pub channel: Channel,
    pub version: String,
    pub commit: String,
}

/// Where a package was fetched from, recorded when it differs from the id
/// its manifest declares (a fork); a local package records none.
pub open spec fn spec_origin(r: PackageRefModel, id: Seq<char>) -> Option<Seq<char>> {
    if !r.is_local() && id != r.canonical() { Some(r.canonical()) } else { None }
}

/// The directory a local install came from; none for a remote one.
pub open spec fn spec_local_path(r: PackageRefModel) -> Option<Seq<char>> {
    match r {
        PackageRefModel::Local { path, .. } => Some(path),
        PackageRefModel::Remote { .. } => None,
    }
}

/// The record an install adds: the id the manifest declares, its name, the
/// fetched version, the content paths it installs, where it came from, and
/// the chosen variant.
pub open spec fn install_record(
    p: InstalledPackage,
    pkg_ref: PackageRefModel,
    m: &Manifest,
    f: &Fetched,
    dev: bool,
    variant: Option<Seq<char>>,
) -> bool {
    &&& p.id@ == m.package.id@
    &&& p.name@ == m.package.name@
    &&& p.channel == f.channel
    &&& p.version@ == f.version@
    &&& p.commit@ == f.commit@
    &&& p.paths@.map_values(|x: PackagePath| x@) == spec_content_items(m, dev).map_values(|c: ContentItemModel| c.path)
    &&& p.dev == dev
    &&& opt_text(p.origin) == spec_origin(pkg_ref, m.package.id@)
    &&& opt_text(p.variant) == variant
    &&& opt_text(p.local_path) == spec_local_path(pkg_ref)
}

/// A minimum firmware version is set, the radio's version is known, and it
/// does not meet the minimum.
pub open spec fn firmware_blocks(min: Seq<char>, firmware: Option<String>) -> bool {
    min.len() > 0 && (firmware matches Some(v) && v@.len() > 0 && !version_ok(v@, min))
}

/// The id whose paths an install does not check against: the package
/// itself when a package of that id is installed.
pub open spec fn install_skip(pkgs: Seq<InstalledPackage>, id: Seq<char>) -> Seq<char> {
    if has_id(pkgs, id) { id } else { Seq::empty() }
}

/// The conflicts between the paths a package installs and the packages of
/// other ids.
pub open spec fn install_conflicts(opts: &InstallOptions, store: &PackageStore, m: &Manifest) -> Seq<Seq<char>> {
    conflict_lines(
        spec_content_items(m, opts.dev).map_values(|c: ContentItemModel| c.path),
        installed_table(store.spec_packages(), install_skip(store.spec_packages(), m.package.id@)),
        false,
    )
}

/// The manifest an install uses: the loaded variant's when a variant is
/// chosen, else the base manifest.
pub open spec fn used_manifest(base: Manifest, loaded: Option<LoadedVariant>) -> Manifest {
    match loaded {
        Some(v) => v.manifest,
        None => base,
    }
}

/// Where the manifest an install uses lies.
pub open spec fn used_dir(base_dir: Seq<char>, loaded: Option<LoadedVariant>) -> Seq<char> {
    match loaded {
        Some(v) => v.dir@,
        None => base_dir,
    }
}

impl InstallCommand {
    pub closed spec fn spec_package(&self) -> InstalledPackage {
        self.package
    }

    pub closed spec fn spec_manifest_dir(&self) -> Seq<char> {
        self.manifest_dir@
    }

    pub closed spec fn spec_manifest(&self) -> Manifest {
        self.manifest
    }

    pub closed spec fn spec_store(&self) -> PackageStore {
        self.store
    }

    pub closed spec fn spec_include_dev(&self) -> bool {
        self.include_dev
    }

    pub closed spec fn spec_existing(&self) -> Option<String> {
        self.existing_id
    }

    /// Prepares an install of the package the options name, whose base
    /// manifest has been loaded from `base_dir` and whose upstream gave
    /// `fetched`. When the manifest lists variants, one is chosen as
    /// `choose_variant` does (the one the reference names, else the best
    /// match for the radio; an error when none can be chosen), and
    /// `variant` holds that variant's loaded manifest. `radio_firmware` is
    /// the version the radio records, if known. The firmware must meet the
    /// manifest's minimum version, and the package's paths must not overlap
    /// those of a package of another id; an installed package of the same
    /// id is replaced.
    pub fn new(
        opts: &InstallOptions,
        store: PackageStore,
        base: Manifest,
        base_dir: String,
        variant: Option<LoadedVariant>,
        fetched: Fetched,
        radio_firmware: Option<String>,
    ) -> (r: Result<InstallCommand, PackageError>)
        requires
            forall|c: Result<Option<String>, PackageError>|
                variant_choice(&base, opts.pkg_ref@.variant(), opts.radio, c) ==> #[trigger] variant_fits(c, variant),
        ensures
            exists|c: Result<Option<String>, PackageError>| #[trigger] variant_choice(&base, opts.pkg_ref@.variant(), opts.radio, c) && ({
                let m = used_manifest(base, variant);
                match c {
                    Err(e) => r matches Err(e2) && e2 == e,
                    Ok(chosen) => {
                        &&& (firmware_blocks(m.package.min_edgetx_version@, radio_firmware) ==> (r matches Err(PackageError::Radio(e))
                            && radio_firmware matches Some(v) && version_error(v@, m.package.min_edgetx_version@, e)))
                        &&& (!firmware_blocks(m.package.min_edgetx_version@, radio_firmware)
                            && install_conflicts(opts, &store, &m).len() > 0 ==> (r matches Err(PackageError::Conflicts(msg))
                            && msg@ == join(install_conflicts(opts, &store, &m), "\n  "@)))
                        &&& (!firmware_blocks(m.package.min_edgetx_version@, radio_firmware)
                            && install_conflicts(opts, &store, &m).len() == 0 ==> (r matches Ok(cmd)
                            && install_record(cmd.spec_package(), opts.pkg_ref@, &m, &fetched, opts.dev, opt_text(chosen))
                            && cmd.spec_manifest() == m
                            && cmd.spec_manifest_dir() == used_dir(base_dir@, variant)
                            && cmd.spec_store() == store
                            && cmd.spec_include_dev() == opts.dev
                            && (has_id(store.spec_packages(), m.package.id@)
                                ==> (cmd.spec_existing() matches Some(s) && s@ == m.package.id@))
                            && (!has_id(store.spec_packages(), m.package.id@) ==> cmd.spec_existing() is None)))
                    },
                }
            }),
    {
        let chosen = choose_variant(&base, opts.pkg_ref.variant(), opts.radio.as_ref());
        let ghost c = chosen;
        proof {
            assert(match opts.radio { Some(rc) => Some(rc), None => None } == opts.radio);
            assert(variant_fits(c, variant));
        }
        let chosen = match chosen {
            Err(e) => return Err(e),
            Ok(v) => v,
        };
        let (manifest, manifest_dir) = match variant {
            Some(v) => (v.manifest, v.dir),
            None => (base, base_dir),
        };
        let min = &manifest.package.min_edgetx_version;
        if !min.as_str().is_empty() {
            if let Some(fw) = &radio_firmware {
                if !fw.as_str().is_empty() {
                    match check_version_compatibility(fw.as_str(), min.as_str()) {
                        Ok(()) => {},
                        Err(e) => return Err(PackageError::Radio(e)),
                    }
                }
            }
        }
        let id = manifest.package.id.clone();
        let fetch_canonical = opts.pkg_ref.canonical();
        let origin = if !opts.pkg_ref.is_local() && !str_eq(id.as_str(), fetch_canonical.as_str()) {
            Some(fetch_canonical)
        } else {
            None
        };
        let local_path = match &opts.pkg_ref {
            PackageRef::Local { path, .. } => Some(path.clone()),
            PackageRef::Remote { .. } => None,
        };
        let existing_id = match store.find_by_source(id.as_str()) {
            Some(_) => Some(id.clone()),
            None => None,
        };
        let paths = manifest.all_paths(opts.dev);
        let skip = match &existing_id {
            Some(s) => s.clone(),
            None => String::new(),
        };
        match store.check_conflicts(paths.as_slice(), skip.as_str()) {
            Ok(()) => {},
            Err(e) => return Err(e),
        }
        let package = InstalledPackage {
            id,
            name: manifest.package.name.clone(),
            channel: fetched.channel,
            version: fetched.version,
            commit: fetched.commit,
            paths,
            dev: opts.dev,
            origin,
            variant: chosen,
            local_path,
        };
        Ok(InstallCommand { manifest, manifest_dir, package, include_dev: opts.dev, existing_id, store })
    }

    /// The number of files the install copies, given how many files each
    /// content item of its manifest copies (in the manifest's order).
    pub fn total_files(&self, item_files: &[usize]) -> (r: usize)
        requires
            item_files@.len() == spec_content_items(&self.spec_manifest(), self.spec_include_dev()).len(),
            sum_counts(item_files@) <= usize::MAX,
        ensures
            r == sum_counts(item_files@),
    {
        total_of(item_files)
    }

    /// Records the install, once its files are on the card, given how many
    /// files each content item copied (in the manifest's order): an earlier
    /// record of the same package is dropped and the new one added. A dry
    /// run changes nothing and copies nothing. Gives the outcome and the
    /// package list to save.
    pub fn execute(self, dry_run: bool, item_files: &[usize]) -> (r: (InstallResult, PackageStore))
        requires
            item_files@.len() == spec_content_items(&self.spec_manifest(), self.spec_include_dev()).len(),
            sum_counts(item_files@) <= usize::MAX,
        ensures
            same_package(r.0.package, self.spec_package()),
            dry_run ==> r.0.files_copied == 0 && r.1 == self.spec_store(),
            !dry_run ==> r.0.files_copied == sum_counts(item_files@),
            !dry_run ==> r.1.spec_packages() == spec_add(
                match self.spec_existing() {
                    Some(s) => without_id(self.spec_store().spec_packages(), s@),
                    None => self.spec_store().spec_packages(),
                },
                self.spec_package(),
            ),
            !dry_run ==> r.1.spec_sd_root() == self.spec_store().spec_sd_root(),
    {
        let mut store = self.store;
        if dry_run {
            let record = self.package.clone();
            return (InstallResult { package: record, files_copied: 0 }, store);
        }
        let files_copied = total_of(item_files);
        if let Some(s) = &self.existing_id {
            store.remove(s.as_str());
        }
        let record = self.package.clone();
        store.add(self.package);
        (InstallResult { package: record, files_copied }, store)
    }
}

} // verus!

verus! {

/// An install reports the files it counted: when each content item copies
/// as many files as were counted for it (the package's files unchanged in
/// between), the number of files a real install reports is its
/// `total_files`.
pub proof fn law_install_reports_counted_files(c: InstallCommand, item_files: &[usize], n: usize, r: (InstallResult, PackageStore))
    requires
        call_ensures(InstallCommand::total_files, (&c, item_files), n),
        call_ensures(InstallCommand::execute, (c, false, item_files), r),
    ensures
        n == r.0.files_copied,
        n == sum_counts(item_files@),
{
}

} // verus!

verus! {

/// A variant named in the reference wins over the radio: when the manifest
/// lists a variant of that name, it is the one chosen, whatever the radio
/// is or whether it is known; a name the manifest does not list is an
/// error, whatever the radio.
pub proof fn law_named_variant_wins(m: &Manifest, explicit: &str, radio: Option<&RadioCapabilities>, r: Result<Option<String>, PackageError>)
    requires
        call_ensures(choose_variant, (m, explicit, radio), r),
    ensures
        explicit@.len() > 0 && (exists|i: int| 0 <= i < m.package.variants@.len() && #[trigger] m.package.variants@[i].path@ == explicit@)
            ==> (r matches Ok(Some(p)) && p@ == explicit@),
        explicit@.len() > 0 && m.package.variants@.len() > 0
            && (forall|i: int| 0 <= i < m.package.variants@.len() ==> #[trigger] m.package.variants@[i].path@ != explicit@)
            ==> r matches Err(PackageError::Source(_)),
{
    let vs = m.package.variants@;
    if explicit@.len() > 0 && vs.len() > 0 {
        lemma_variant_named(vs, explicit@, 0);
    }
}

proof fn lemma_variant_named(vs: Seq<Variant>, name: Seq<char>, i: int)
    requires
        0 <= i <= vs.len(),
    ensures
        i <= variant_named(vs, name, i) <= vs.len(),
        variant_named(vs, name, i) < vs.len() ==> vs[variant_named(vs, name, i)].path@ == name,
        (exists|j: int| i <= j < vs.len() && #[trigger] vs[j].path@ == name) ==> variant_named(vs, name, i) < vs.len(),
    decreases vs.len() - i,
{
    if i < vs.len() {
        lemma_variant_named(vs, name, i + 1);
        if exists|j: int| i <= j < vs.len() && #[trigger] vs[j].path@ == name {
            let j = choose|j: int| i <= j < vs.len() && #[trigger] vs[j].path@ == name;
            if j > i {
                assert(i + 1 <= j < vs.len() && vs[j].path@ == name);
            }
        }
    }
}

} // verus!
