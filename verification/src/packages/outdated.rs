//! Finding installed packages that have a newer upstream version.
use vstd::prelude::*;
use crate::source::{PackageRef, PackageRefModel};
use crate::source::version::{is_semver_tag, semver_parses, strip_v, Channel, ResolvedVersion};
use crate::text::{owned, str_eq};
use super::PackageError;
use super::state::InstalledPackage;
use super::store::PackageStore;

verus! {

/// What an outdated check is asked to do.
pub struct OutdatedOptions {
    pub sd_root: String,
    /// Root directory of the persistent fetch cache.
    pub cache_dir: String,
}

/// A package that has an update available.
pub struct OutdatedPackage {
    pub id: String,
    pub current_version: String,
    pub latest_version: String,
    pub channel: Channel,
}

/// Whether the check follows the package's own tag or branch name: a
/// branch package follows its branch, and a package on a tag that is no
/// semantic version follows that same tag; a package on a semantic-version
/// tag looks for the newest such tag instead.
pub open spec fn follows_own_name(pkg: InstalledPackage) -> bool {
    pkg.channel == Channel::Branch || (pkg.channel == Channel::Tag && !semver_parses(strip_v(pkg.version@)))
}

/// The reference an outdated check fetches for a package: none for local
/// packages, pinned commits, and sources that do not read as a remote
/// reference; otherwise the source, at the package's own tag or branch
/// where it follows it.
pub open spec fn spec_check_ref(pkg: InstalledPackage, parsed: Result<PackageRefModel, Seq<char>>) -> Option<PackageRefModel> {
    if pkg.channel == Channel::Local || pkg.channel == Channel::Commit {
        None
    } else {
        match parsed {
            Ok(m) => if m is Remote {
                Some(if follows_own_name(pkg) { m.with_version(pkg.version@) } else { m })
            } else {
                None
            },
            Err(_) => None,
        }
    }
}

/// The reference to fetch when checking `pkg` for updates.
/// `source_is_dir` says whether its source names an existing directory.
pub fn check_ref(pkg: &InstalledPackage, source_is_dir: bool) -> (r: Option<PackageRef>)
    ensures
        match spec_check_ref(*pkg, crate::source::spec_parse_package_ref(pkg.id@, source_is_dir)) {
            Some(m) => r matches Some(p) && p@ == m,
            None => r is None,
        },
{
    if pkg.channel.is_local() || pkg.channel.is_pinned() {
        return None;
    }
    let mut pkg_ref = match PackageRef::parse(pkg.id.as_str(), source_is_dir) {
        Ok(p) => p,
        Err(_) => return None,
    };
    if pkg_ref.is_local() {
        return None;
    }
    if pkg.channel == Channel::Branch || (pkg.channel == Channel::Tag && !is_semver_tag(pkg.version.as_str())) {
        pkg_ref.set_version(pkg.version.clone());
    }
    Some(pkg_ref)
}

/// The packages whose upstream gave another commit than the one installed,
/// in list order; `resolved[i]` is what the fetch of package `i` gave, or
/// `None` when it was not checked or the fetch failed.
pub open spec fn spec_outdated(pkgs: Seq<InstalledPackage>, resolved: Seq<Option<ResolvedVersion>>) -> Seq<(Seq<char>, Seq<char>, Seq<char>, Channel)>
    decreases pkgs.len(),
{
    if pkgs.len() == 0 || resolved.len() < pkgs.len() {
        Seq::empty()
    } else {
        let n = pkgs.len() - 1;
        let rest = spec_outdated(pkgs.drop_last(), resolved.take(n));
        let p = pkgs[n];
        match resolved[n] {
            Some(rv) => if rv.hash@ != p.commit@ {
                rest.push((p.id@, p.version@, rv.version@, p.channel))
            } else {
                rest
            },
            None => rest,
        }
    }
}

/// The view of an outdated entry.
pub open spec fn outdated_view(o: OutdatedPackage) -> (Seq<char>, Seq<char>, Seq<char>, Channel) {
    (o.id@, o.current_version@, o.latest_version@, o.channel)
}

/// Lists the packages with an update available, given what the fetch of
/// each installed package gave.
pub fn check_outdated(store: &PackageStore, resolved: &[Option<ResolvedVersion>]) -> (r: Result<Vec<OutdatedPackage>, PackageError>)
    requires
        resolved@.len() == store.spec_packages().len(),
    ensures
        r matches Ok(v) && v@.map_values(|o: OutdatedPackage| outdated_view(o)) == spec_outdated(store.spec_packages(), resolved@),
{
    let pkgs = store.packages();
    let mut out: Vec<OutdatedPackage> = Vec::new();
    let mut i: usize = 0;
    while i < pkgs.len()
        invariant
            i <= pkgs.len(),
            pkgs@ == store.spec_packages(),
            resolved@.len() == pkgs@.len(),
            out@.map_values(|o: OutdatedPackage| outdated_view(o)) == spec_outdated(pkgs@.take(i as int), resolved@.take(i as int)),
        decreases pkgs.len() - i,
    {
        proof {
            assert(pkgs@.take(i + 1).drop_last() == pkgs@.take(i as int));
            assert(resolved@.take(i + 1).take(i as int) == resolved@.take(i as int));
            assert(pkgs@.take(i + 1)[i as int] == pkgs@[i as int]);
        }
        let p = &pkgs[i];
        if let Some(rv) = &resolved[i] {
            if !str_eq(rv.hash.as_str(), p.commit.as_str()) {
                let o = OutdatedPackage {
                    id: p.id.clone(),
                    current_version: p.version.clone(),
                    latest_version: rv.version.clone(),
                    channel: p.channel,
                };
                let ghost before = out@;
                out.push(o);
                proof {
                    assert(out@ == before.push(o));
                }
            }
        }
        i += 1;
    }
    proof {
        assert(pkgs@.take(i as int) == pkgs@);
        assert(resolved@.take(i as int) == resolved@);
    }
    Ok(out)
}

} // verus!
