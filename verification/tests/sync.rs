use edgetx_cli::manifest::{ContentItem, Manifest, ManifestError, Package, StringOrSlice};
use edgetx_cli::packages::path::PackagePath;
use edgetx_cli::sync::pending::{is_actionable, ChangeKind, PendingChanges};
use edgetx_cli::sync::{
    find_manifest_item, initial_sync, merge_default_exclude, process_event, strip_root_exec,
    SyncAction, SyncOptions, WatchOptions,
};

const REL: &str = "SCRIPTS/TOOLS/MyTool/main.lua";

fn package(source_dirs: Vec<&str>) -> Package {
    Package {
        id: "example.com/test/test".into(),
        name: String::new(),
        description: String::new(),
        authors: vec![],
        urls: vec![],
        screenshots: vec![],
        keywords: vec![],
        license: String::new(),
        source_dir: StringOrSlice(source_dirs.into_iter().map(String::from).collect()),
        binary: false,
        min_edgetx_version: String::new(),
        capabilities: None,
        variants: vec![],
    }
}

fn manifest(source_dirs: Vec<&str>) -> Manifest {
    Manifest {
        package: package(source_dirs),
        libraries: vec![],
        tools: vec![],
        telemetry: vec![],
        functions: vec![],
        mixes: vec![],
        widgets: vec![],
        sounds: vec![],
        images: vec![],
        files: vec![],
    }
}

fn item(name: &str, path: &str, exclude: Vec<&str>) -> ContentItem {
    ContentItem {
        name: name.into(),
        path: PackagePath::new(path),
        depends: vec![],
        exclude: exclude.into_iter().map(String::from).collect(),
        dev: false,
    }
}

fn tool_item() -> ContentItem {
    item("MyTool", "SCRIPTS/TOOLS/MyTool", vec![])
}

/// Runs the watch decision for `rel` under `/src` with target `/target` and
/// returns the sync events it reports.
fn run(rel: &str, is_file: bool, exists: bool) -> (SyncAction, Vec<(String, String)>) {
    let m = manifest(vec![]);
    let items = vec![tool_item()];
    let opts = WatchOptions { manifest: &m, manifest_dir: "/src", target_dir: "/target", items: &items };
    let path = format!("/src/{rel}");
    let action = process_event(&path, &opts, is_file, exists);
    let events = action.sync_event().into_iter().map(|e| (e.op, e.rel_path)).collect();
    (action, events)
}

#[test]
fn existing_file_is_copied() {
    let (action, events) = run(REL, true, true);
    match action {
        SyncAction::Copy { source_root, rel_path, dest, exclude } => {
            assert_eq!(source_root, "/src");
            assert_eq!(rel_path, REL);
            assert_eq!(dest, format!("/target/{REL}"));
            assert_eq!(exclude, vec!["*.luac".to_string()]);
        }
        other => panic!("expected a copy, got {other:?}"),
    }
    assert_eq!(events, vec![("copy".to_string(), REL.to_string())]);
}

#[test]
fn missing_file_removes_dest() {
    let (action, events) = run(REL, false, false);
    match action {
        SyncAction::Remove { rel_path, dest } => {
            assert_eq!(rel_path, REL);
            assert_eq!(dest, format!("/target/{REL}"));
        }
        other => panic!("expected a removal, got {other:?}"),
    }
    assert_eq!(events, vec![("remove".to_string(), REL.to_string())]);
}

#[test]
fn excluded_luac_ignored() {
    let rel = "SCRIPTS/TOOLS/MyTool/main.luac";
    let (action, events) = run(rel, true, true);
    assert!(matches!(action, SyncAction::Ignore));
    assert!(events.is_empty());
}

#[test]
fn pure_reads_are_not_actionable() {
    // Read, open-for-read and close-after-read are all pure reads.
    assert!(!is_actionable(&ChangeKind::ReadAccess));
    assert!(!is_actionable(&ChangeKind::ReadAccess));
    assert!(!is_actionable(&ChangeKind::ReadAccess));
}

#[test]
fn changes_are_actionable() {
    // Create, modify, rename and remove are changes.
    assert!(is_actionable(&ChangeKind::Change));
    assert!(is_actionable(&ChangeKind::Change));
    assert!(is_actionable(&ChangeKind::Change));
    assert!(is_actionable(&ChangeKind::Change));
    // The write-close that ends an editor save must count as a change.
    assert!(is_actionable(&ChangeKind::WriteClose));
}

#[test]
fn trailing_write_close_keeps_path_actionable() {
    let mut pending = PendingChanges::new();
    pending.merge_event(&ChangeKind::Change, &["/src/foo.lua".to_string()]);
    pending.merge_event(&ChangeKind::WriteClose, &["/src/foo.lua".to_string()]);
    assert_eq!(pending.get("/src/foo.lua"), Some(true));
}

#[test]
fn pure_read_sequence_stays_non_actionable() {
    let mut pending = PendingChanges::new();
    for _ in 0..3 {
        pending.merge_event(&ChangeKind::ReadAccess, &["/src/foo.lua".to_string()]);
    }
    assert_eq!(pending.get("/src/foo.lua"), Some(false));
}

#[test]
fn pending_read_after_change_stays_actionable() {
    let mut pending = PendingChanges::new();
    pending.merge_event(&ChangeKind::Change, &["/src/a.lua".to_string(), "/src/b.lua".to_string()]);
    pending.merge_event(&ChangeKind::ReadAccess, &["/src/a.lua".to_string(), "/src/c.lua".to_string()]);
    assert_eq!(pending.get("/src/a.lua"), Some(true));
    assert_eq!(pending.get("/src/b.lua"), Some(true));
    assert_eq!(pending.get("/src/c.lua"), Some(false));
    assert_eq!(pending.get("/src/d.lua"), None);
    let mut paths = pending.actionable_paths();
    paths.sort();
    assert_eq!(paths, vec!["/src/a.lua".to_string(), "/src/b.lua".to_string()]);
}

#[test]
fn directory_change_is_ignored() {
    let (action, events) = run("SCRIPTS/TOOLS/MyTool/sub", false, true);
    assert!(matches!(action, SyncAction::Ignore));
    assert!(events.is_empty());
}

#[test]
fn path_outside_items_is_ignored() {
    let (action, _) = run("SCRIPTS/TOOLS/Other/main.lua", true, true);
    assert!(matches!(action, SyncAction::Ignore));
    // A sibling whose name only starts like the item's is not under it.
    let (action, _) = run("SCRIPTS/TOOLS/MyToolbox/main.lua", true, true);
    assert!(matches!(action, SyncAction::Ignore));
}

#[test]
fn path_outside_source_root_is_ignored() {
    let m = manifest(vec![]);
    let items = vec![tool_item()];
    let opts = WatchOptions { manifest: &m, manifest_dir: "/src", target_dir: "/target", items: &items };
    let action = process_event(&format!("/elsewhere/{REL}"), &opts, true, true);
    assert!(matches!(action, SyncAction::Ignore));
}

#[test]
fn second_source_root_is_used() {
    let m = manifest(vec!["a", "b"]);
    let items = vec![tool_item()];
    let opts = WatchOptions { manifest: &m, manifest_dir: "/src", target_dir: "/target", items: &items };
    match process_event(&format!("/src/b/{REL}"), &opts, true, true) {
        SyncAction::Copy { source_root, rel_path, .. } => {
            assert_eq!(source_root, "/src/b");
            assert_eq!(rel_path, REL);
        }
        other => panic!("expected a copy, got {other:?}"),
    }
}

#[test]
fn item_exclude_patterns_apply() {
    let m = manifest(vec![]);
    let items = vec![item("MyTool", "SCRIPTS/TOOLS/MyTool", vec!["*.txt"])];
    let opts = WatchOptions { manifest: &m, manifest_dir: "/src", target_dir: "/target", items: &items };
    let action = process_event("/src/SCRIPTS/TOOLS/MyTool/notes.txt", &opts, true, true);
    assert!(matches!(action, SyncAction::Ignore));
}

#[test]
fn find_manifest_item_respects_segment_boundaries() {
    let items = vec![item("Lib", "SCRIPTS/LIB", vec![]), tool_item()];
    assert_eq!(find_manifest_item("SCRIPTS/LIB", &items).map(|i| i.name.as_str()), Some("Lib"));
    assert_eq!(find_manifest_item("SCRIPTS/LIB/x.lua", &items).map(|i| i.name.as_str()), Some("Lib"));
    assert!(find_manifest_item("SCRIPTS/LIBRARY/x.lua", &items).is_none());
    assert_eq!(find_manifest_item(REL, &items).map(|i| i.name.as_str()), Some("MyTool"));
}

#[test]
fn strip_root_by_components() {
    assert_eq!(strip_root_exec("/src/a/b", "/src"), Some("a/b".to_string()));
    assert_eq!(strip_root_exec("/src/a/b", "/src/"), Some("a/b".to_string()));
    assert_eq!(strip_root_exec("/src", "/src"), Some(String::new()));
    assert_eq!(strip_root_exec("/srcx/a", "/src"), None);
    assert_eq!(strip_root_exec("a/b", ""), Some("a/b".to_string()));
}

#[test]
fn merge_default_exclude_puts_defaults_first() {
    assert_eq!(
        merge_default_exclude(&["*.txt".to_string()]),
        vec!["*.luac".to_string(), "*.txt".to_string()]
    );
    assert_eq!(merge_default_exclude(&[]), vec!["*.luac".to_string()]);
}

#[test]
fn initial_sync_plans_each_item() {
    let m = manifest(vec!["a", "b"]);
    let items = vec![tool_item(), item("Gone", "SCRIPTS/TOOLS/Gone", vec![])];
    let opts = SyncOptions { manifest: &m, manifest_dir: "/src", target_dir: "/target", items: &items };
    let plan = initial_sync(&opts, &[vec![false, true], vec![false, false]]);
    assert_eq!(plan.len(), 2);
    match &plan[0] {
        Ok(c) => {
            assert_eq!(c.source_root, "/src/b");
            assert_eq!(c.path.as_str(), "SCRIPTS/TOOLS/MyTool");
            assert_eq!(c.exclude, vec!["*.luac".to_string()]);
        }
        Err(e) => panic!("unexpected error {e:?}"),
    }
    match &plan[1] {
        Err(ManifestError::ContentPathNotFound { path }) => assert_eq!(path.as_str(), "SCRIPTS/TOOLS/Gone"),
        other => panic!("expected a missing content path, got {other:?}"),
    }
}

#[test]
fn binary_package_keeps_compiled_scripts() {
    let mut m = manifest(vec![]);
    m.package.binary = true;
    let items = vec![tool_item(), item("Other", "SCRIPTS/TOOLS/Other", vec!["*.txt"])];
    let opts = SyncOptions { manifest: &m, manifest_dir: "/src", target_dir: "/target", items: &items };
    let plan = initial_sync(&opts, &[vec![true], vec![true]]);
    assert!(plan[0].as_ref().unwrap().exclude.is_empty());
    assert_eq!(plan[1].as_ref().unwrap().exclude, vec!["*.txt".to_string()]);

    let wopts = WatchOptions { manifest: &m, manifest_dir: "/src", target_dir: "/target", items: &items };
    let path = "/src/SCRIPTS/TOOLS/MyTool/main.luac";
    match process_event(path, &wopts, true, true) {
        SyncAction::Copy { rel_path, exclude, .. } => {
            assert_eq!(rel_path, "SCRIPTS/TOOLS/MyTool/main.luac");
            assert!(exclude.is_empty());
        }
        other => panic!("expected a copy, got {other:?}"),
    }
}
