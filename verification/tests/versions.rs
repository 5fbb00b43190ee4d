use edgetx_cli::source::version::{resolve_version, sort_semver_tags, Channel};

#[test]
fn test_resolve_latest_with_tags() {
    let tags = vec!["v1.0.0".into(), "v2.0.0".into(), "v1.5.0".into()];
    let result = resolve_version(&tags, &[], "main", "abc123", "").unwrap();
    assert_eq!(result.channel, "tag");
    assert_eq!(result.version, "v2.0.0");
}

#[test]
fn test_resolve_latest_no_tags() {
    let result = resolve_version(&[], &["main".into()], "main", "abc123", "").unwrap();
    assert_eq!(result.channel, "branch");
    assert_eq!(result.version, "main");
}

#[test]
fn test_resolve_explicit_tag() {
    let tags = vec!["v1.0.0".into(), "v2.0.0".into()];
    let result = resolve_version(&tags, &[], "main", "", "v1.0.0").unwrap();
    assert_eq!(result.channel, "tag");
    assert_eq!(result.version, "v1.0.0");
}

#[test]
fn test_resolve_explicit_branch() {
    let branches = vec!["main".into(), "develop".into()];
    let result = resolve_version(&[], &branches, "main", "", "develop").unwrap();
    assert_eq!(result.channel, "branch");
    assert_eq!(result.version, "develop");
}

#[test]
fn test_resolve_commit_sha() {
    let result = resolve_version(&[], &[], "main", "", "abc123def").unwrap();
    assert_eq!(result.channel, "commit");
    assert_eq!(result.hash, "abc123def");
}

#[test]
fn test_sort_semver_tags() {
    let tags = vec!["v1.0.0".into(), "v2.1.0".into(), "v1.5.0".into(), "v2.0.0".into()];
    assert_eq!(sort_semver_tags(&tags), vec!["v2.1.0", "v2.0.0", "v1.5.0", "v1.0.0"]);
}

#[test]
fn test_sort_semver_tags_without_v() {
    let tags = vec!["1.0.0".into(), "2.0.0".into()];
    assert_eq!(sort_semver_tags(&tags), vec!["2.0.0", "1.0.0"]);
}

#[test]
fn test_sort_semver_tags_mixed() {
    let tags = vec!["v1.0.0".into(), "nightly".into(), "v2.0.0".into(), "beta".into()];
    assert_eq!(sort_semver_tags(&tags), vec!["v2.0.0", "v1.0.0"]);
}

#[test]
fn sort_keeps_equal_versions_in_order_and_ranks_prereleases_lower() {
    let tags = vec!["1.0.0".into(), "v1.0.0-rc.1".into(), "v1.0.0".into(), "0.9.0".into()];
    assert_eq!(sort_semver_tags(&tags), vec!["1.0.0", "v1.0.0", "v1.0.0-rc.1", "0.9.0"]);
}

#[test]
fn latest_with_head_commit_on_default_branch() {
    let result = resolve_version(&["nightly".into()], &[], "main", "abc123", "").unwrap();
    assert_eq!(result.channel, "branch");
    assert_eq!(result.version, "main");
    assert_eq!(result.hash, "abc123");
}

#[test]
fn channel_names() {
    assert_eq!(Channel::Tag.to_string(), "tag");
    assert_eq!(Channel::Local.to_string(), "local");
    assert!(Channel::Commit.is_pinned());
    assert!(Channel::Local.is_local());
    assert!(!Channel::Branch.is_pinned());
}

#[test]
fn latest_takes_the_highest_version_not_the_last_listed() {
    let tags: Vec<String> = vec!["v1.2.0".into(), "v1.10.0".into(), "junk".into(), "v1.9.0".into(), "1.10.0-rc.1".into()];
    let result = resolve_version(&tags, &[], "main", "abc123", "").unwrap();
    assert_eq!(result.channel, "tag");
    assert_eq!(result.version, "v1.10.0");
    assert_eq!(result.hash, "");
}
