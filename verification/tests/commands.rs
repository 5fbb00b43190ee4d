use edgetx_cli::error::RadioError;
use edgetx_cli::manifest::{
    Author, ContentItem, DisplayCapabilities, DisplayFilter, DisplayType, Manifest, ManifestError, Package, RadioCapabilities,
    RadioCapabilitiesFilter,
    Resolution, StringOrSlice, UrlEntry, Variant,
};
use edgetx_cli::packages::file_list::{list_path, package_dir, package_file_list, PackageFileList};
use edgetx_cli::packages::info::{fetch_info, info_sheet};
use edgetx_cli::packages::install::{Fetched, InstallCommand, InstallOptions, LoadedVariant};
use edgetx_cli::packages::outdated::{check_outdated, check_ref};
use edgetx_cli::packages::path::PackagePath;
use edgetx_cli::packages::remove::{luac_candidates, prepare_remove};
use edgetx_cli::packages::state::InstalledPackage;
use edgetx_cli::packages::store::PackageStore;
use edgetx_cli::packages::transfer::{build_exclude, copy_content_items, luac_mtime_pairs};
use edgetx_cli::packages::update::{update_targets, UpdateCommand, UpdateOptions};
use edgetx_cli::packages::PackageError;
use edgetx_cli::scaffold::{plan_scaffold, Options, ScriptType};
use edgetx_cli::source::version::{resolve_version, Channel, ResolvedVersion};
use edgetx_cli::source::{PackageRef, SourceError};

fn package(id: &str, name: &str) -> Package {
    Package {
        id: id.into(),
        name: name.into(),
        description: "Test package".into(),
        authors: vec![],
        urls: vec![],
        screenshots: vec![],
        keywords: vec![],
        license: String::new(),
        source_dir: StringOrSlice(vec![]),
        binary: false,
        min_edgetx_version: String::new(),
        capabilities: None,
        variants: vec![],
    }
}

fn item(name: &str, path: &str, dev: bool) -> ContentItem {
    ContentItem { name: name.into(), path: PackagePath::new(path), depends: vec![], exclude: vec![], dev }
}

fn manifest(p: Package, tools: Vec<ContentItem>) -> Manifest {
    Manifest {
        package: p,
        libraries: vec![],
        tools,
        telemetry: vec![],
        functions: vec![],
        mixes: vec![],
        widgets: vec![],
        sounds: vec![],
        images: vec![],
        files: vec![],
    }
}

fn installed(source: &str, name: &str, channel: Channel, version: &str, commit: &str, paths: Vec<&str>) -> InstalledPackage {
    InstalledPackage {
        id: source.into(),
        name: name.into(),
        channel,
        version: version.into(),
        commit: commit.into(),
        paths: paths.into_iter().map(PackagePath::from).collect(),
        dev: false,
        origin: None,
        variant: None,
        local_path: None,
    }
}

fn fetched() -> Fetched {
    Fetched { channel: Channel::Tag, version: "v1.0.0".into(), commit: "abc123def456".into() }
}

fn install_opts(raw: &str) -> InstallOptions {
    InstallOptions { sd_root: "/sd".into(), pkg_ref: PackageRef::parse(raw, false).unwrap(), dev: false, radio: None }
}

// ---- install ----

#[test]
fn install_records_the_package() {
    let store = PackageStore::new("/sd".into(), vec![]);
    let m = manifest(package("example.com/o/tool", "Tool"), vec![item("T", "SCRIPTS/TOOLS/T", false)]);
    let cmd = InstallCommand::new(&install_opts("Org/Tool"), store, m, "/tmp/checkout".into(), None, fetched(), None).unwrap();
    let (result, store) = cmd.execute(false, &[3]);
    assert_eq!(result.files_copied, 3);
    assert_eq!(result.package.id, "example.com/o/tool");
    assert_eq!(result.package.origin, Some("github.com/Org/Tool".to_string()));
    assert_eq!(result.package.variant, None);
    assert_eq!(result.package.local_path, None);
    assert_eq!(result.package.version, "v1.0.0");
    assert_eq!(store.packages().len(), 1);
    assert_eq!(store.packages()[0].paths, vec![PackagePath::new("SCRIPTS/TOOLS/T")]);
}

#[test]
fn install_dry_run_changes_nothing() {
    let store = PackageStore::new("/sd".into(), vec![]);
    let m = manifest(package("example.com/o/tool", "Tool"), vec![item("T", "SCRIPTS/TOOLS/T", false)]);
    let cmd = InstallCommand::new(&install_opts("Org/Tool"), store, m, "/tmp/checkout".into(), None, fetched(), None).unwrap();
    let (result, store) = cmd.execute(true, &[3]);
    assert_eq!(result.files_copied, 0);
    assert!(store.packages().is_empty());
}

#[test]
fn install_overlapping_paths_conflict() {
    let other = installed("github.com/Org/Other", "Other", Channel::Tag, "v1", "c1", vec!["SCRIPTS/TOOLS/T"]);
    let store = PackageStore::new("/sd".into(), vec![other]);
    let m = manifest(package("example.com/o/tool", "Tool"), vec![item("T", "SCRIPTS/TOOLS/T/main.lua", false)]);
    match InstallCommand::new(&install_opts("Org/Tool"), store, m, "/tmp/checkout".into(), None, fetched(), None) {
        Err(PackageError::Conflicts(msg)) => assert!(msg.contains("github.com/Org/Other")),
        Err(e) => panic!("expected a conflict, got {e:?}"),
        Ok(_) => panic!("expected a conflict"),
    }
}

#[test]
fn reinstall_replaces_the_record() {
    let old = installed("example.com/o/tool", "Tool", Channel::Tag, "v0.9.0", "old", vec!["SCRIPTS/TOOLS/T"]);
    let store = PackageStore::new("/sd".into(), vec![old]);
    let m = manifest(package("example.com/o/tool", "Tool"), vec![item("T", "SCRIPTS/TOOLS/T", false)]);
    let cmd = InstallCommand::new(&install_opts("Org/Tool"), store, m, "/tmp/checkout".into(), None, fetched(), None).unwrap();
    let (_, store) = cmd.execute(false, &[1]);
    assert_eq!(store.packages().len(), 1);
    assert_eq!(store.packages()[0].version, "v1.0.0");
}

#[test]
fn install_refuses_old_firmware() {
    let store = PackageStore::new("/sd".into(), vec![]);
    let mut p = package("example.com/o/tool", "Tool");
    p.min_edgetx_version = "2.11.0".into();
    let m = manifest(p, vec![item("T", "SCRIPTS/TOOLS/T", false)]);
    let r = InstallCommand::new(&install_opts("Org/Tool"), store, m, "/tmp/checkout".into(), None, fetched(), Some("2.10.0".into()));
    match r {
        Err(PackageError::Radio(RadioError::VersionMismatch { installed, required })) => {
            assert_eq!(installed, "2.10.0");
            assert_eq!(required, "2.11.0");
        }
        _ => panic!("expected a version mismatch"),
    }
}

fn local_opts(dir: &str, radio: Option<RadioCapabilities>) -> InstallOptions {
    InstallOptions {
        sd_root: "/sd".into(),
        pkg_ref: PackageRef::Local { path: dir.into(), variant: String::new() },
        dev: false,
        radio,
    }
}

fn local_fetched() -> Fetched {
    Fetched { channel: Channel::Local, version: String::new(), commit: String::new() }
}

#[test]
fn test_different_id_overlapping_paths_conflicts() {
    let a = installed("example.com/test/pkg-a", "A", Channel::Local, "", "", vec!["SCRIPTS/TOOLS/MyTool"]);
    let store = PackageStore::new("/sd".into(), vec![a]);
    let m = manifest(package("example.com/test/pkg-b", "B"), vec![item("MyTool", "SCRIPTS/TOOLS/MyTool", false)]);
    let r = InstallCommand::new(&local_opts("/pkgs/b", None), store, m, "/pkgs/b".into(), None, local_fetched(), None);
    assert!(r.is_err());
    match r {
        Err(PackageError::Conflicts(msg)) => assert!(msg.contains("example.com/test/pkg-a")),
        _ => panic!("expected a conflict"),
    }
}

#[test]
fn test_same_id_reinstall_replaces() {
    let a = installed("example.com/test/same-name", "A", Channel::Local, "", "", vec!["SCRIPTS/TOOLS/MyTool"]);
    let store = PackageStore::new("/sd".into(), vec![a]);
    let m = manifest(package("example.com/test/same-name", "A"), vec![item("MyTool", "SCRIPTS/TOOLS/MyTool", false)]);
    let cmd = InstallCommand::new(&local_opts("/pkgs/b", None), store, m, "/pkgs/b".into(), None, local_fetched(), None).unwrap();
    assert_eq!(cmd.package.id, "example.com/test/same-name");
    assert_eq!(cmd.package.local_path, Some("/pkgs/b".to_string()));
    assert_eq!(cmd.package.origin, None);
    let (_, store) = cmd.execute(false, &[1]);
    assert_eq!(store.packages().len(), 1);
    assert_eq!(store.packages()[0].id, "example.com/test/same-name");
    assert_eq!(store.packages()[0].local_path, Some("/pkgs/b".to_string()));
}

fn bw_variants() -> Vec<Variant> {
    vec![Variant {
        path: "edgetx.bw128x64.yml".into(),
        capabilities: RadioCapabilitiesFilter {
            display: Some(DisplayFilter {
                display_type: Some(DisplayType::Bw),
                resolution: Some(Resolution { width: 128, height: 64 }),
                touch: None,
            }),
        },
    }]
}

#[test]
fn test_install_variant_unknown_radio_fails() {
    let store = PackageStore::new("/sd".into(), vec![]);
    let mut p = package("example.com/test/variants", "V");
    p.variants = bw_variants();
    let m = manifest(p, vec![]);
    let r = InstallCommand::new(&local_opts("/pkgs/v", None), store, m, "/pkgs/v".into(), None, local_fetched(), None);
    assert!(matches!(r, Err(PackageError::UnknownRadio)));
}

#[test]
fn test_install_variant_no_match_errors() {
    let store = PackageStore::new("/sd".into(), vec![]);
    let mut p = package("example.com/test/variants", "V");
    p.variants = bw_variants();
    let m = manifest(p, vec![]);
    let color = RadioCapabilities { display: DisplayCapabilities { width: 480, height: 272, color: true, touch: None } };
    let r = InstallCommand::new(&local_opts("/pkgs/v", Some(color)), store, m, "/pkgs/v".into(), None, local_fetched(), None);
    assert!(matches!(r, Err(PackageError::NoMatchingVariant)));
}

#[test]
fn install_variant_records_the_chosen_manifest() {
    let store = PackageStore::new("/sd".into(), vec![]);
    let mut p = package("example.com/test/variants", "V");
    p.variants = bw_variants();
    let base = manifest(p, vec![]);
    let bw = RadioCapabilities { display: DisplayCapabilities { width: 128, height: 64, color: false, touch: None } };
    let vm = manifest(package("example.com/test/variants", "V bw"), vec![item("T", "SCRIPTS/TOOLS/T", false)]);
    let loaded = LoadedVariant { path: "edgetx.bw128x64.yml".into(), manifest: vm, dir: "/pkgs/v".into() };
    let cmd = InstallCommand::new(&local_opts("/pkgs/v", Some(bw)), store, base, "/pkgs/v".into(), Some(loaded), local_fetched(), None)
        .unwrap();
    assert_eq!(cmd.package.variant, Some("edgetx.bw128x64.yml".to_string()));
    assert_eq!(cmd.package.name, "V bw");
    assert_eq!(cmd.package.paths, vec![PackagePath::new("SCRIPTS/TOOLS/T")]);
}

#[test]
fn install_counts_and_lists_its_files() {
    let store = PackageStore::new("/sd".into(), vec![]);
    let mut m = manifest(package("example.com/test/test-pkg", "Tool"), vec![item("MyTool", "SCRIPTS/TOOLS/MyTool", false)]);
    m.files = vec![item("Bare", "SCRIPTS/TOOLS/tool.lua", false)];
    let cmd = InstallCommand::new(&local_opts("/pkgs/t", None), store, m, "/pkgs/t".into(), None, local_fetched(), None).unwrap();
    assert_eq!(cmd.total_files(&[2, 1]), 3);
    let copied = vec![PackagePath::new("SCRIPTS/TOOLS/MyTool/main.lua"), PackagePath::new("SCRIPTS/TOOLS/tool.lua")];
    let list = package_file_list(cmd.package.id.clone(), &cmd.manifest, false, &[true, false], copied);
    assert_eq!(list.id(), "example.com/test/test-pkg");
    let files: Vec<&str> = list.files().iter().map(|p| p.as_str()).collect();
    assert_eq!(files, vec!["SCRIPTS/TOOLS/MyTool/main.lua", "SCRIPTS/TOOLS/tool.lua", "SCRIPTS/TOOLS/MyTool/"]);
}

#[test]
fn pinned_update_copies_nothing() {
    let p = installed("example.com/test/pinned", "P", Channel::Commit, "", "abc1234def", vec!["SCRIPTS/TOOLS/P"]);
    let cmd = UpdateCommand::pinned(&p, "example.com/test/pinned", false);
    assert!(cmd.is_up_to_date());
    assert!(cmd.manifest().is_none());
    assert_eq!(cmd.total_files(&[]), 0);
    assert_eq!(cmd.package.id, "example.com/test/pinned");
    assert_eq!(cmd.old_package.commit, "abc1234def");
}

// ---- update ----

#[test]
fn update_reports_a_bad_query() {
    let store = PackageStore::new("/sd".into(), vec![]);
    let opts = UpdateOptions { sd_root: "/sd".into(), query: "a@b@c".into(), all: false, dev: None, dry_run: false };
    match update_targets(&store, &opts, false) {
        Err(PackageError::Source(SourceError::InvalidRef { raw, reason })) => {
            assert_eq!(raw, "a@b@c");
            assert_eq!(reason, "multiple @ symbols");
        }
        _ => panic!("expected an invalid reference"),
    }
}

#[test]
fn update_needs_a_query_or_all() {
    let store = PackageStore::new("/sd".into(), vec![]);
    let opts = UpdateOptions { sd_root: "/sd".into(), query: String::new(), all: false, dev: None, dry_run: false };
    match update_targets(&store, &opts, false) {
        Err(PackageError::NotFound(m)) => assert_eq!(m, "specify a package name or use --all"),
        _ => panic!("expected an error"),
    }
}

#[test]
fn update_all_and_by_name() {
    let a = installed("github.com/Org/A", "A", Channel::Tag, "v1", "c1", vec!["SCRIPTS/A"]);
    let b = installed("github.com/Org/B", "B", Channel::Branch, "main", "c2", vec!["SCRIPTS/B"]);
    let store = PackageStore::new("/sd".into(), vec![a, b]);
    let all = UpdateOptions { sd_root: "/sd".into(), query: String::new(), all: true, dev: None, dry_run: false };
    let t = update_targets(&store, &all, false).unwrap();
    assert_eq!(t.packages.len(), 2);
    assert_eq!(t.original_sources, vec!["github.com/Org/A".to_string(), "github.com/Org/B".to_string()]);

    let one = UpdateOptions { sd_root: "/sd".into(), query: "Org/B@v2".into(), all: false, dev: None, dry_run: false };
    let t = update_targets(&store, &one, false).unwrap();
    assert_eq!(t.packages.len(), 1);
    assert_eq!(t.packages[0].name, "B");
    assert_eq!(t.version_override, "v2");

    let missing = UpdateOptions { sd_root: "/sd".into(), query: "Org/C".into(), all: false, dev: None, dry_run: false };
    match update_targets(&store, &missing, false) {
        Err(PackageError::NotFound(m)) => assert_eq!(m, "package \"Org/C\" not found"),
        _ => panic!("expected not found"),
    }
}

// ---- remove ----

#[test]
fn remove_prepares_files_dirs_and_bytecode() {
    let pkg = installed("github.com/Org/Tool", "Tool", Channel::Tag, "v1", "c1", vec!["SCRIPTS/TOOLS/T"]);
    let store = PackageStore::new("/sd".into(), vec![pkg.clone()]);
    let entries = vec![
        PackagePath::new("SCRIPTS/TOOLS/T/"),
        PackagePath::new("SCRIPTS/TOOLS/T/main.lua"),
        PackagePath::new("SCRIPTS/TOOLS/T/util.lua"),
        PackagePath::new("SCRIPTS/TOOLS/T/logo.png"),
    ];
    let files: Vec<String> = entries.iter().filter(|e| !e.is_dir()).map(|e| e.to_string()).collect();
    let candidates = luac_candidates(&files);
    assert_eq!(
        candidates,
        vec!["SCRIPTS/TOOLS/T/main.luac".to_string(), "SCRIPTS/TOOLS/T/util.luac".to_string()]
    );
    let prepared = prepare_remove(store, pkg, &entries, &[true, false]);
    assert_eq!(prepared.files.len(), 3);
    assert_eq!(prepared.dirs, vec!["SCRIPTS/TOOLS/T".to_string()]);
    assert_eq!(prepared.luac_files, vec!["SCRIPTS/TOOLS/T/main.luac".to_string()]);
    assert_eq!(prepared.total_files(), 4);
    let (result, store) = prepared.execute(false);
    assert_eq!(result.files_removed, 4);
    assert!(store.unwrap().packages().is_empty());
}

// ---- outdated ----

#[test]
fn outdated_lists_changed_commits() {
    let a = installed("github.com/Org/A", "A", Channel::Tag, "v1.0.0", "c1", vec!["SCRIPTS/A"]);
    let b = installed("github.com/Org/B", "B", Channel::Branch, "main", "c2", vec!["SCRIPTS/B"]);
    let c = installed("github.com/Org/C", "C", Channel::Tag, "v3", "c3", vec!["SCRIPTS/C"]);
    let store = PackageStore::new("/sd".into(), vec![a, b, c]);
    let resolved = vec![
        Some(ResolvedVersion { channel: "tag".into(), version: "v1.1.0".into(), hash: "c9".into() }),
        Some(ResolvedVersion { channel: "branch".into(), version: "main".into(), hash: "c2".into() }),
        None,
    ];
    let out = check_outdated(&store, &resolved).unwrap();
    assert_eq!(out.len(), 1);
    assert_eq!(out[0].id, "github.com/Org/A");
    assert_eq!(out[0].current_version, "v1.0.0");
    assert_eq!(out[0].latest_version, "v1.1.0");
}

#[test]
fn outdated_skips_pinned_commits_and_tracks_branches() {
    let pinned = installed("github.com/Org/A", "A", Channel::Commit, "", "abc", vec![]);
    assert!(check_ref(&pinned, false).is_none());
    let branch = installed("github.com/Org/B", "B", Channel::Branch, "dev", "c2", vec![]);
    let r = check_ref(&branch, false).unwrap();
    assert_eq!(r.version(), "dev");
}

/// A repository as an outdated check sees it: its tags and branches, the
/// default branch, and the commit each tag or branch names.
struct Upstream {
    tags: Vec<(&'static str, &'static str)>,
    branches: Vec<(&'static str, &'static str)>,
    default_branch: &'static str,
}

impl Upstream {
    /// What fetching the reference gives: the version resolved against the
    /// tags and branches, and the commit it names (as the checkout fills
    /// it in); `None` when the name is gone from the repository.
    fn fetch(&self, r: &PackageRef) -> Option<ResolvedVersion> {
        let tags: Vec<String> = self.tags.iter().map(|t| t.0.to_string()).collect();
        let branches: Vec<String> = self.branches.iter().map(|b| b.0.to_string()).collect();
        let head = self.branches.iter().find(|b| b.0 == self.default_branch).map(|b| b.1).unwrap_or("");
        let mut rv = resolve_version(&tags, &branches, self.default_branch, head, r.version()).ok()?;
        if rv.hash.is_empty() {
            let named = if rv.channel == "tag" { &self.tags } else { &self.branches };
            rv.hash = named.iter().find(|n| n.0 == rv.version)?.1.to_string();
        }
        let known = self.tags.iter().chain(self.branches.iter()).any(|n| n.1 == rv.hash);
        if known { Some(rv) } else { None }
    }

    fn check(&self, pkg: InstalledPackage) -> Vec<(String, String, String, Channel)> {
        let resolved = check_ref(&pkg, false).and_then(|r| self.fetch(&r));
        let store = PackageStore::new("/sd".into(), vec![pkg]);
        check_outdated(&store, &[resolved])
            .unwrap()
            .into_iter()
            .map(|o| (o.id, o.current_version, o.latest_version, o.channel))
            .collect()
    }
}

const REPO: &str = "file:///tmp/repo";

#[test]
fn test_branch_up_to_date_returns_empty() {
    let repo = Upstream { tags: vec![], branches: vec![("main", "m1"), ("feature", "f1")], default_branch: "main" };
    let pkg = installed(REPO, "", Channel::Branch, "feature", "f1", vec![]);
    assert!(repo.check(pkg).is_empty());
}

#[test]
fn test_branch_with_new_commits_reports_outdated() {
    let repo = Upstream { tags: vec![], branches: vec![("main", "m1"), ("feature", "f2")], default_branch: "main" };
    let pkg = installed(REPO, "", Channel::Branch, "feature", "f1", vec![]);
    let result = repo.check(pkg);
    assert_eq!(result.len(), 1);
    assert_eq!(result[0].2, "feature");
    assert_eq!(result[0].1, "feature");
    assert_eq!(result[0].3, Channel::Branch);
}

#[test]
fn test_branch_with_stale_semver_tag_regression() {
    let repo = Upstream {
        tags: vec![("v0.1.0", "legacy")],
        branches: vec![("main", "legacy"), ("feature", "f1")],
        default_branch: "main",
    };
    let pkg = installed(REPO, "", Channel::Branch, "feature", "f1", vec![]);
    assert!(repo.check(pkg).is_empty());
}

#[test]
fn test_semver_tag_checks_for_newer_semver_tag() {
    let repo = Upstream {
        tags: vec![("v1.0.0", "c1"), ("v2.0.0", "c2")],
        branches: vec![("main", "c2")],
        default_branch: "main",
    };
    let pkg = installed(REPO, "", Channel::Tag, "v1.0.0", "c1", vec![]);
    let result = repo.check(pkg);
    assert_eq!(result.len(), 1);
    assert_eq!(result[0].1, "v1.0.0");
    assert_eq!(result[0].2, "v2.0.0");
}

#[test]
fn test_non_semver_tag_up_to_date_when_unchanged() {
    let repo = Upstream { tags: vec![("stable", "s1")], branches: vec![("main", "s1")], default_branch: "main" };
    let pkg = installed(REPO, "", Channel::Tag, "stable", "s1", vec![]);
    assert!(repo.check(pkg).is_empty());
}

#[test]
fn test_non_semver_tag_tracks_same_tag_ref() {
    let repo = Upstream { tags: vec![("stable", "s2")], branches: vec![("main", "s2")], default_branch: "main" };
    let pkg = installed(REPO, "", Channel::Tag, "stable", "s1", vec![]);
    let result = repo.check(pkg);
    assert_eq!(result.len(), 1);
    assert_eq!(result[0].1, "stable");
    assert_eq!(result[0].2, "stable", "non-semver tag should re-resolve to same tag name");
}

#[test]
fn test_pinned_commit_is_skipped() {
    let repo = Upstream { tags: vec![], branches: vec![("main", "later")], default_branch: "main" };
    let pkg = installed(REPO, "", Channel::Commit, "pinned", "pinned", vec![]);
    assert!(repo.check(pkg).is_empty());
}

#[test]
fn test_deleted_upstream_branch_is_skipped() {
    let repo = Upstream { tags: vec![], branches: vec![("main", "m1")], default_branch: "main" };
    let pkg = installed(REPO, "", Channel::Branch, "feature", "f1", vec![]);
    assert!(repo.check(pkg).is_empty());
}

// ---- info ----

#[test]
fn info_for_local_and_remote() {
    let m = manifest(package("example.com/o/tool", "Tool"), vec![]);
    let local = PackageRef::parse("./pkg", true).unwrap();
    let info = fetch_info(&local, m.clone(), "v1".into());
    assert!(info.version.is_empty());
    assert!(info.repository_url.is_none());
    let remote = PackageRef::parse("Org/Tool@v1.0.0", false).unwrap();
    let info = fetch_info(&remote, m, "v1.0.0".into());
    assert_eq!(info.version, "v1.0.0");
    assert_eq!(info.repository_url.as_deref(), Some("https://github.com/Org/Tool.git"));
}

#[test]
fn info_sheet_lays_out_the_package() {
    let mut p = package("example.com/o/tool", "Tool");
    p.keywords = vec!["lua".into(), "tools".into()];
    p.license = "MIT".into();
    p.min_edgetx_version = "2.10.0".into();
    p.urls = vec![UrlEntry { name: "homepage".into(), url: "https://example.com".into() }];
    p.authors = vec![
        Author { name: "Ann".into(), email: Some("ann@example.com".into()) },
        Author { name: "Bob".into(), email: None },
    ];
    let color = DisplayFilter { display_type: Some(DisplayType::ColorLcd), resolution: None, touch: None };
    p.capabilities = Some(RadioCapabilitiesFilter { display: Some(color) });
    p.variants = vec![
        Variant {
            path: "bw/edgetx.yml".into(),
            capabilities: RadioCapabilitiesFilter {
                display: Some(DisplayFilter {
                    display_type: Some(DisplayType::Bw),
                    resolution: Some(Resolution { width: 128, height: 64 }),
                    touch: None,
                }),
            },
        },
        Variant { path: "any/edgetx.yml".into(), capabilities: RadioCapabilitiesFilter { display: None } },
    ];
    let mut m = manifest(p, vec![item("Tool", "SCRIPTS/TOOLS/Tool", false)]);
    m.libraries = vec![item("libA", "SCRIPTS/libA", false), item("libB", "SCRIPTS/libB", false)];
    let remote = PackageRef::parse("Org/Tool@v1.0.0", false).unwrap();
    let sheet = info_sheet(&fetch_info(&remote, m, "v1.0.0".into()));
    assert_eq!(sheet.title, "Tool");
    assert_eq!(sheet.keywords, "#lua #tools");
    let expected: Vec<String> = vec![
        "id:           example.com/o/tool",
        "Test package",
        "version:      v1.0.0",
        "license:      MIT",
        "min-edgetx:   2.10.0",
        "display:      colorlcd",
        "homepage:     https://example.com",
        "repository:   https://github.com/Org/Tool.git",
        "authors:      Ann <ann@example.com>, Bob",
        "contents:",
        "  libraries: libA, libB",
        "  tools: Tool",
        "variants:",
        "  bw/edgetx.yml (bw, 128x64)",
        "  any/edgetx.yml ()",
    ]
    .into_iter()
    .map(String::from)
    .collect();
    assert_eq!(sheet.lines, expected);
}

#[test]
fn info_sheet_of_a_bare_local_package() {
    let mut p = package("example.com/o/tool", "");
    p.description = String::new();
    let local = PackageRef::parse("./pkg", true).unwrap();
    let sheet = info_sheet(&fetch_info(&local, manifest(p, vec![]), "v1".into()));
    assert_eq!(sheet.title, "example.com/o/tool");
    assert_eq!(sheet.keywords, "");
    assert_eq!(sheet.lines, vec!["id:           example.com/o/tool".to_string()]);
}

// ---- file lists ----

#[test]
fn test_subpackage_layout() {
    let p = list_path("/sd/RADIO/packages", "github.com/Org/Tools/widget-a");
    assert_eq!(p, "/sd/RADIO/packages/github.com/Org/Tools/widget-a/files.list");
    assert_eq!(package_dir("/sd/RADIO/packages", "github.com/Org/Repo"), "/sd/RADIO/packages/github.com/Org/Repo");
    let fl = PackageFileList::new("github.com/Org/Repo".into(), vec![PackagePath::new("WIDGETS/widget-a/main.lua")]);
    assert_eq!(fl.id(), "github.com/Org/Repo");
    assert_eq!(fl.files().len(), 1);
}

// ---- transfer ----

#[test]
fn transfer_excludes_depend_on_binary_flag() {
    let mut it = item("T", "SCRIPTS/TOOLS/T", false);
    it.exclude = vec!["*.md".into()];
    assert_eq!(build_exclude(false, &it), vec!["*.luac".to_string(), "*.md".to_string()]);
    assert_eq!(build_exclude(true, &it), vec!["*.md".to_string()]);
}

#[test]
fn transfer_plans_copies_and_reports_missing_content() {
    let mut p = package("example.com/o/tool", "Tool");
    p.binary = true;
    let m = manifest(p, vec![item("T", "SCRIPTS/TOOLS/T", false), item("D", "SCRIPTS/TOOLS/D", true)]);
    let plan = copy_content_items(&m, "/checkout", false, &[vec![true]]);
    assert_eq!(plan.len(), 1);
    let c = plan[0].as_ref().unwrap();
    assert_eq!(c.source_root, "/checkout");
    assert!(c.exclude.is_empty());
    let plan = copy_content_items(&m, "/checkout", true, &[vec![true], vec![false]]);
    match &plan[1] {
        Err(PackageError::ContentResolve { path, source: ManifestError::ContentPathNotFound { .. } }) => {
            assert_eq!(path.as_str(), "SCRIPTS/TOOLS/D")
        }
        other => panic!("expected a content error, got {other:?}"),
    }
}

#[test]
fn bytecode_gets_its_source_timestamp() {
    let files = vec![
        PackagePath::new("SCRIPTS/T/main.lua"),
        PackagePath::new("SCRIPTS/T/main.luac"),
        PackagePath::new("SCRIPTS/T/orphan.luac"),
    ];
    assert_eq!(
        luac_mtime_pairs(&files),
        vec![("SCRIPTS/T/main.lua".to_string(), "SCRIPTS/T/main.luac".to_string())]
    );
}

// ---- scaffold ----

fn scaffold_manifest() -> Manifest {
    manifest(package("example.com/test/test", ""), vec![])
}

fn scaffold_opts(t: ScriptType, name: &str) -> Options {
    Options { script_type: t, name: name.into(), depends: vec![], src_dir: "/src".into(), dev: false }
}

#[test]
fn test_scaffold_tool() {
    let plan = plan_scaffold(&scaffold_opts(ScriptType::Tool, "MyTool"), &scaffold_manifest()).unwrap();
    assert_eq!(plan.content_path, "SCRIPTS/TOOLS/MyTool");
    assert_eq!(plan.files.len(), 1);
    assert_eq!(plan.files[0].0, "/src/SCRIPTS/TOOLS/MyTool/main.lua");
}

#[test]
fn test_scaffold_widget() {
    let plan = plan_scaffold(&scaffold_opts(ScriptType::Widget, "MyWdgt"), &scaffold_manifest()).unwrap();
    assert_eq!(plan.files.len(), 2);
    assert_eq!(plan.files[0].0, "/src/WIDGETS/MyWdgt/main.lua");
    assert_eq!(plan.files[1].0, "/src/WIDGETS/MyWdgt/loadable.lua");
}

#[test]
fn test_scaffold_telemetry() {
    let plan = plan_scaffold(&scaffold_opts(ScriptType::Telemetry, "MyTlm"), &scaffold_manifest()).unwrap();
    assert_eq!(plan.content_path, "SCRIPTS/TELEMETRY/MyTlm.lua");
    assert_eq!(plan.files[0].0, "/src/SCRIPTS/TELEMETRY/MyTlm.lua");
}

#[test]
fn test_scaffold_name_too_long() {
    let result = plan_scaffold(&scaffold_opts(ScriptType::Telemetry, "TooLongName"), &scaffold_manifest());
    assert!(result.is_err());
}

#[test]
fn test_scaffold_invalid_name() {
    let result = plan_scaffold(&scaffold_opts(ScriptType::Tool, "bad name!"), &scaffold_manifest());
    assert!(result.is_err());
}
