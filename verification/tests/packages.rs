use edgetx_cli::packages::conflict::check_conflicts;
use edgetx_cli::packages::path::PackagePath;
use edgetx_cli::packages::state::{InstalledPackage, State};
use edgetx_cli::packages::store::PackageStore;
use edgetx_cli::packages::PackageError;
use edgetx_cli::source::version::Channel;

fn pkg(source: &str, name: &str, version: &str, paths: Vec<&str>) -> InstalledPackage {
    InstalledPackage {
        id: source.into(),
        name: name.into(),
        channel: Channel::Tag,
        version: version.into(),
        commit: String::new(),
        paths: paths.into_iter().map(PackagePath::from).collect(),
        dev: false,
        origin: None,
        variant: None,
        local_path: None,
    }
}

// ---- path ----

#[test]
fn new_preserves_forward_slashes() {
    let p = PackagePath::new("SCRIPTS/TOOLS/MyTool");
    assert_eq!(p.as_str(), "SCRIPTS/TOOLS/MyTool");
}

#[test]
fn new_normalizes_backslashes() {
    let p = PackagePath::new("SCRIPTS\\TOOLS\\MyTool");
    assert_eq!(p.as_str(), "SCRIPTS/TOOLS/MyTool");
}

#[test]
fn display_shows_path() {
    let p = PackagePath::new("SCRIPTS/TOOLS/MyTool");
    assert_eq!(p.to_string(), "SCRIPTS/TOOLS/MyTool");
}

#[test]
fn partial_eq_str() {
    let p = PackagePath::new("SCRIPTS/TOOLS/MyTool");
    assert_eq!(p, "SCRIPTS/TOOLS/MyTool");
}

#[test]
fn from_string() {
    let p: PackagePath = String::from("SCRIPTS/TOOLS/MyTool").into();
    assert_eq!(p, "SCRIPTS/TOOLS/MyTool");
}

#[test]
fn from_str() {
    let p: PackagePath = "SCRIPTS/TOOLS/MyTool".into();
    assert_eq!(p, "SCRIPTS/TOOLS/MyTool");
}

#[test]
fn trailing_slash_allowed() {
    let p = PackagePath::new("SCRIPTS/TOOLS/MyTool/");
    assert_eq!(p.as_str(), "SCRIPTS/TOOLS/MyTool/");
}

#[test]
fn path_into_inner_and_segments() {
    let p = PackagePath::new("SCRIPTS\\TOOLS/");
    assert!(p.is_dir());
    let segs: Vec<String> = p.segments().iter().map(|s| s.iter().collect()).collect();
    assert_eq!(segs, vec!["SCRIPTS", "TOOLS"]);
    assert_eq!(p.into_inner(), "SCRIPTS/TOOLS/");
}

// ---- state ----

#[test]
fn state_test_find_by_source() {
    let mut state = State::default();
    state.add(pkg("Org/Repo", "test", "", vec![]));
    assert!(state.find_by_source("Org/Repo").is_some());
    assert!(state.find_by_source("Other/Repo").is_none());
}

#[test]
fn state_test_find_by_name() {
    let mut state = State::default();
    state.add(pkg("Org/Repo", "test", "", vec![]));
    assert_eq!(state.find_by_name("test").len(), 1);
    assert_eq!(state.find_by_name("other").len(), 0);
}

#[test]
fn state_test_find_ambiguous() {
    let mut state = State::default();
    state.add(pkg("Org1/Repo", "test", "", vec![]));
    state.add(pkg("Org2/Repo", "test", "", vec![]));
    assert!(state.find("test").is_err());
}

#[test]
fn state_test_remove() {
    let mut state = State::default();
    state.add(pkg("Org/Repo", "test", "", vec![]));
    state.remove("Org/Repo");
    assert!(state.packages.is_empty());
}

#[test]
fn state_test_add_replaces() {
    let mut state = State::default();
    state.add(pkg("Org/Repo", "test", "v1.0.0", vec![]));
    state.add(pkg("Org/Repo", "test", "v2.0.0", vec![]));
    assert_eq!(state.packages.len(), 1);
    assert_eq!(state.packages[0].version, "v2.0.0");
}

#[test]
fn state_find_errors_name_the_query_and_sources() {
    let mut state = State::default();
    state.add(pkg("Org1/Repo", "test", "", vec![]));
    state.add(pkg("Org2/Repo", "test", "", vec![]));
    match state.find("test") {
        Err(PackageError::Ambiguous { name, sources }) => {
            assert_eq!(name, "test");
            assert_eq!(sources, vec!["Org1/Repo".to_string(), "Org2/Repo".to_string()]);
        }
        _ => panic!("expected Ambiguous"),
    }
    match state.find("missing") {
        Err(PackageError::NotFound(q)) => assert_eq!(q, "missing"),
        _ => panic!("expected NotFound"),
    }
    assert_eq!(state.find("Org2/Repo").unwrap().id, "Org2/Repo");
}

#[test]
fn state_add_then_remove_restores() {
    let mut state = State::default();
    state.add(pkg("A/B", "a", "", vec![]));
    state.add(pkg("C/D", "c", "", vec![]));
    state.remove("C/D");
    assert_eq!(state.packages.len(), 1);
    assert_eq!(state.packages[0].id, "A/B");
    assert!(state.find_by_source("C/D").is_none());
}

#[test]
fn short_commit_and_channel_info() {
    let mut p = pkg("Org/Repo", "test", "v1.0.0", vec![]);
    p.commit = "abc123def456".into();
    assert_eq!(p.short_commit(), "abc123d");
    assert_eq!(p.channel_info(), "tag v1.0.0 (abc123d)");
    p.commit = "abc".into();
    assert_eq!(p.short_commit(), "abc");
    p.version = String::new();
    p.commit = String::new();
    assert_eq!(p.channel_info(), "tag");
}

// ---- store ----

fn store_with_packages(packages: Vec<(&str, Vec<&str>)>) -> PackageStore {
    let mut store = PackageStore::new("/sd".to_string(), vec![]);
    for (source, paths) in packages {
        store.add(pkg(source, source, "", paths));
    }
    store
}

#[test]
fn store_layout_paths() {
    let store = PackageStore::new("/media/sd".to_string(), vec![]);
    assert_eq!(store.sd_root(), "/media/sd");
    assert_eq!(store.state_file(), "/media/sd/RADIO/packages.yml");
    assert_eq!(store.file_list_dir(), "/media/sd/RADIO/packages");
    assert!(store.packages().is_empty());
}

#[test]
fn store_test_no_conflicts() {
    let store = store_with_packages(vec![("pkg-a", vec!["SCRIPTS/TOOLS/A"])]);
    let result = store.check_conflicts(&["SCRIPTS/TOOLS/B".into()], "");
    assert!(result.is_ok());
}

#[test]
fn store_test_exact_match_conflict() {
    let store = store_with_packages(vec![("pkg-a", vec!["SCRIPTS/TOOLS/A"])]);
    let result = store.check_conflicts(&["SCRIPTS/TOOLS/A".into()], "");
    assert!(result.is_err());
}

#[test]
fn store_test_prefix_overlap() {
    let store = store_with_packages(vec![("pkg-a", vec!["SCRIPTS/TOOLS"])]);
    let result = store.check_conflicts(&["SCRIPTS/TOOLS/B".into()], "");
    assert!(result.is_err());
}

#[test]
fn store_test_no_false_positive() {
    let store = store_with_packages(vec![("pkg-a", vec!["SCRIPTS/TOOLS"])]);
    let result = store.check_conflicts(&["SCRIPTS/TOOLSET".into()], "");
    assert!(result.is_ok());
}

#[test]
fn store_test_skip_source() {
    let store = store_with_packages(vec![("pkg-a", vec!["SCRIPTS/TOOLS/A"])]);
    let result = store.check_conflicts(&["SCRIPTS/TOOLS/A".into()], "pkg-a");
    assert!(result.is_ok());
}

#[test]
fn store_test_multiple_conflicts() {
    let store = store_with_packages(vec![
        ("pkg-a", vec!["SCRIPTS/TOOLS/A"]),
        ("pkg-b", vec!["WIDGETS/B"]),
    ]);
    let result = store.check_conflicts(&["SCRIPTS/TOOLS/A".into(), "WIDGETS/B".into()], "");
    assert!(result.is_err());
}

#[test]
fn store_conflict_message_lists_each_conflict() {
    let store = store_with_packages(vec![
        ("pkg-a", vec!["SCRIPTS/TOOLS/A"]),
        ("pkg-b", vec!["WIDGETS/B"]),
    ]);
    match store.check_conflicts(&["SCRIPTS/TOOLS/A/x.lua".into(), "WIDGETS/B".into()], "") {
        Err(PackageError::Conflicts(m)) => assert_eq!(
            m,
            "SCRIPTS/TOOLS/A/x.lua conflicts with SCRIPTS/TOOLS/A (owned by pkg-a)\n  WIDGETS/B conflicts with WIDGETS/B (owned by pkg-b)"
        ),
        _ => panic!("expected Conflicts"),
    }
}

#[test]
fn store_find_and_remove() {
    let mut store = store_with_packages(vec![("pkg-a", vec![]), ("pkg-b", vec![])]);
    assert_eq!(store.find("pkg-b").unwrap().id, "pkg-b");
    store.remove("pkg-a");
    assert_eq!(store.packages().len(), 1);
    assert!(store.find_by_source("pkg-a").is_none());
    assert_eq!(store.find_by_name("pkg-b").len(), 1);
}

// ---- conflict ----

fn make_state(packages: Vec<(&str, Vec<&str>)>) -> State {
    let mut s = State::default();
    for (source, paths) in packages {
        s.add(pkg(source, source, "", paths));
    }
    s
}

#[test]
fn conflict_test_no_conflicts() {
    let state = make_state(vec![("pkg-a", vec!["SCRIPTS/TOOLS/A"])]);
    let result = check_conflicts(&state, &["SCRIPTS/TOOLS/B".into()], "");
    assert!(result.is_ok());
}

#[test]
fn conflict_test_exact_match_conflict() {
    let state = make_state(vec![("pkg-a", vec!["SCRIPTS/TOOLS/A"])]);
    let result = check_conflicts(&state, &["SCRIPTS/TOOLS/A".into()], "");
    assert!(result.is_err());
}

#[test]
fn conflict_test_prefix_overlap() {
    let state = make_state(vec![("pkg-a", vec!["SCRIPTS/TOOLS"])]);
    let result = check_conflicts(&state, &["SCRIPTS/TOOLS/B".into()], "");
    assert!(result.is_err());
}

#[test]
fn conflict_test_no_false_positive() {
    let state = make_state(vec![("pkg-a", vec!["SCRIPTS/TOOLS"])]);
    let result = check_conflicts(&state, &["SCRIPTS/TOOLSET".into()], "");
    assert!(result.is_ok());
}

#[test]
fn conflict_test_skip_source() {
    let state = make_state(vec![("pkg-a", vec!["SCRIPTS/TOOLS/A"])]);
    let result = check_conflicts(&state, &["SCRIPTS/TOOLS/A".into()], "pkg-a");
    assert!(result.is_ok());
}

#[test]
fn conflict_test_multiple_conflicts() {
    let state = make_state(vec![
        ("pkg-a", vec!["SCRIPTS/TOOLS/A"]),
        ("pkg-b", vec!["WIDGETS/B"]),
    ]);
    let result = check_conflicts(&state, &["SCRIPTS/TOOLS/A".into(), "WIDGETS/B".into()], "");
    assert!(result.is_err());
}

#[test]
fn conflict_message_quotes_paths() {
    let state = make_state(vec![("pkg-a", vec!["SCRIPTS/TOOLS"])]);
    match check_conflicts(&state, &["SCRIPTS/TOOLS/B".into()], "") {
        Err(PackageError::Conflicts(m)) => {
            assert_eq!(m, "\"SCRIPTS/TOOLS/B\" conflicts with \"SCRIPTS/TOOLS\" (owned by pkg-a)")
        }
        _ => panic!("expected Conflicts"),
    }
}

#[test]
fn conflict_trailing_slash_is_same_path() {
    let state = make_state(vec![("pkg-a", vec!["SCRIPTS/TOOLS/"])]);
    assert!(check_conflicts(&state, &["SCRIPTS/TOOLS".into()], "").is_err());
}
