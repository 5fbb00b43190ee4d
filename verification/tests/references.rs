use edgetx_cli::repository::parse_package_ref;
use edgetx_cli::repository::source::Source;
use edgetx_cli::source::{PackageRef, RemoteSource};

fn parse(raw: &str) -> Result<PackageRef, edgetx_cli::source::SourceError> {
    PackageRef::parse(raw, false)
}

fn git_parts(r: &PackageRef) -> (String, String, String) {
    match r {
        PackageRef::Remote { source, .. } => match source {
            RemoteSource::Git { host, owner, repo } => (host.clone(), owner.clone(), repo.clone()),
            _ => panic!("expected Git source"),
        },
        _ => panic!("expected Remote"),
    }
}

// ---- references with sources, variants and sub-packages ----

#[test]
fn mod_test_github_shorthand() {
    let r = parse("ExpressLRS/Lua-Scripts").unwrap();
    let (host, owner, repo) = git_parts(&r);
    assert_eq!(host, "github.com");
    assert_eq!(owner, "ExpressLRS");
    assert_eq!(repo, "Lua-Scripts");
    assert!(!r.is_local());
    assert_eq!(r.canonical(), "github.com/ExpressLRS/Lua-Scripts");
    assert_eq!(r.clone_url().unwrap(), "https://github.com/ExpressLRS/Lua-Scripts.git");

    let r = parse_package_ref("ExpressLRS/Lua-Scripts", false).unwrap();
    assert_eq!(r.owner, "ExpressLRS");
    assert_eq!(r.repo, "Lua-Scripts");
    assert!(r.host.is_empty());
    assert!(!r.is_local);
    assert_eq!(r.canonical(), "ExpressLRS/Lua-Scripts");
    assert_eq!(r.clone_url(), "https://github.com/ExpressLRS/Lua-Scripts.git");
}

#[test]
fn mod_test_github_with_version() {
    let r = parse("Org/Repo@v1.0.0").unwrap();
    assert_eq!(r.version(), "v1.0.0");
    assert_eq!(r.canonical(), "github.com/Org/Repo");

    let r = parse_package_ref("Org/Repo@v1.0.0", false).unwrap();
    assert_eq!(r.owner, "Org");
    assert_eq!(r.repo, "Repo");
    assert_eq!(r.version, "v1.0.0");
}

#[test]
fn test_hosted_three_segment() {
    let r = parse("gitea.example.com/org/repo").unwrap();
    let (host, owner, repo) = git_parts(&r);
    assert_eq!(host, "gitea.example.com");
    assert_eq!(owner, "org");
    assert_eq!(repo, "repo");
    assert_eq!(r.canonical(), "gitea.example.com/org/repo");
}

#[test]
fn mod_test_full_url_with_scheme() {
    let r = parse("https://gitea.example.com/org/repo@v2.0").unwrap();
    let (host, _, _) = git_parts(&r);
    assert_eq!(host, "gitea.example.com");
    assert_eq!(r.version(), "v2.0");

    let r = parse_package_ref("https://gitea.example.com/org/repo@v2.0", false).unwrap();
    assert_eq!(r.host, "gitea.example.com");
    assert_eq!(r.version, "v2.0");
}

#[test]
fn mod_test_local_relative() {
    let r = parse(".").unwrap();
    assert!(r.is_local());
    let r = parse_package_ref(".", false).unwrap();
    assert!(r.is_local);
}

#[test]
fn mod_test_local_absolute() {
    let r = parse_package_ref("/tmp", false).unwrap();
    assert!(r.is_local);
    assert_eq!(r.local_path, "/tmp");
}

#[test]
fn mod_test_empty_ref() {
    assert!(parse("").is_err());
    assert!(parse_package_ref("", false).is_err());
}

#[test]
fn mod_test_multiple_at() {
    assert!(parse("a@b@c").is_err());
    assert!(parse_package_ref("a@b@c", false).is_err());
}

#[test]
fn mod_test_empty_version() {
    assert!(parse("Org/Repo@").is_err());
    assert!(parse_package_ref("Org/Repo@", false).is_err());
}

#[test]
fn mod_test_git_suffix_stripped() {
    let r = parse("Org/Repo.git").unwrap();
    assert_eq!(git_parts(&r).2, "Repo");
    let r = parse_package_ref("Org/Repo.git", false).unwrap();
    assert_eq!(r.repo, "Repo");
}

#[test]
fn mod_test_trailing_slash_stripped() {
    let r = parse("Org/Repo/").unwrap();
    assert_eq!(git_parts(&r).2, "Repo");
    let r = parse_package_ref("Org/Repo/", false).unwrap();
    assert_eq!(r.repo, "Repo");
}

#[test]
fn mod_test_parse_simple_remote() {
    let r = parse("ExpressLRS/Lua-Scripts").unwrap();
    assert!(r.subpath().is_empty());
    assert!(r.variant().is_empty());
    assert!(r.version().is_empty());
    assert!(!r.is_local());
}

#[test]
fn mod_test_parse_remote_with_version() {
    let r = parse("ExpressLRS/Lua-Scripts@v1.6.0").unwrap();
    assert_eq!(r.version(), "v1.6.0");
    assert_eq!(r.canonical(), "github.com/ExpressLRS/Lua-Scripts");
}

#[test]
fn test_parse_remote_with_variant_and_version() {
    let r = parse("Org/Repo::edgetx.c480x272.yml@branch").unwrap();
    assert_eq!(r.variant(), "edgetx.c480x272.yml");
    assert!(r.subpath().is_empty());
    assert_eq!(r.version(), "branch");
    assert_eq!(r.canonical(), "github.com/Org/Repo");
}

#[test]
fn mod_test_parse_local_dot() {
    let r = parse(".").unwrap();
    assert!(r.is_local());
}

#[test]
fn mod_test_parse_local_absolute() {
    let r = parse("/abs/path").unwrap();
    assert!(r.is_local());
}

#[test]
fn mod_test_parse_local_tilde() {
    let r = parse("~/dir").unwrap();
    assert!(r.is_local());
}

#[test]
fn test_canonical_remote_with_variant() {
    let r = parse("Org/Repo::variant.yml@v1.0").unwrap();
    assert_eq!(r.canonical(), "github.com/Org/Repo");
    assert_eq!(r.variant(), "variant.yml");
}

#[test]
fn mod_test_canonical_local() {
    let r = parse("/tmp").unwrap();
    assert!(r.canonical().starts_with("file://"));
}

#[test]
fn test_subpackage_shorthand() {
    let r = parse("Org/Repo/widget-a").unwrap();
    assert_eq!(r.canonical(), "github.com/Org/Repo/widget-a");
    assert_eq!(r.subpath(), "widget-a");
    let (host, owner, repo) = git_parts(&r);
    assert_eq!(host, "github.com");
    assert_eq!(owner, "Org");
    assert_eq!(repo, "Repo");
    assert_eq!(r.clone_url().unwrap(), "https://github.com/Org/Repo.git");
}

#[test]
fn test_subpackage_explicit_host() {
    let r = parse("gitea.example.com/org/repo/sub/path").unwrap();
    assert_eq!(r.canonical(), "gitea.example.com/org/repo/sub/path");
    assert_eq!(r.subpath(), "sub/path");
    assert_eq!(r.clone_url().unwrap(), "https://gitea.example.com/org/repo.git");
}

#[test]
fn test_subpackage_with_variant() {
    let r = parse("Org/Repo/widget-a::edgetx.c480x272.yml").unwrap();
    assert_eq!(r.canonical(), "github.com/Org/Repo/widget-a");
    assert_eq!(r.subpath(), "widget-a");
    assert_eq!(r.variant(), "edgetx.c480x272.yml");
}

#[test]
fn test_file_url() {
    let r = parse("file:///path/to/repo").unwrap();
    match &r {
        PackageRef::Remote { source, .. } => match source {
            RemoteSource::File { path } => assert_eq!(path, "/path/to/repo"),
            _ => panic!("expected File source"),
        },
        _ => panic!("expected Remote"),
    }
    assert_eq!(r.clone_url().unwrap(), "file:///path/to/repo");
}

#[test]
fn test_file_url_with_version() {
    let r = parse("file:///path/to/repo@v1.0").unwrap();
    assert_eq!(r.version(), "v1.0");
}

#[test]
fn test_clone_url_github() {
    let r = parse("Org/Repo").unwrap();
    assert_eq!(r.clone_url().unwrap(), "https://github.com/Org/Repo.git");
}

#[test]
fn test_clone_url_hosted() {
    let r = parse("gitea.com/org/repo").unwrap();
    assert_eq!(r.clone_url().unwrap(), "https://gitea.com/org/repo.git");
}

#[test]
fn test_clone_url_file() {
    let r = parse("file:///tmp/repo").unwrap();
    assert_eq!(r.clone_url().unwrap(), "file:///tmp/repo");
}

#[test]
fn test_clone_url_local() {
    let r = PackageRef::Local { path: "/tmp/local".to_string(), variant: String::new() };
    assert!(r.clone_url().is_none());
}

#[test]
fn existing_directory_is_local() {
    let r = PackageRef::parse("some-dir", true).unwrap();
    assert!(r.is_local());
    assert!(PackageRef::parse("some-dir", false).is_err());
}

#[test]
fn set_version_keeps_identity() {
    let mut r = parse("Org/Repo::v.yml@v1").unwrap();
    let before = r.canonical();
    r.set_version("v2".to_string());
    r.set_variant("w.yml".to_string());
    assert_eq!(r.version(), "v2");
    assert_eq!(r.variant(), "w.yml");
    assert_eq!(r.canonical(), before);
}

// ---- repository references ----

#[test]
fn test_full_url() {
    let r = parse_package_ref("gitea.example.com/org/repo", false).unwrap();
    assert_eq!(r.host, "gitea.example.com");
    assert_eq!(r.owner, "org");
    assert_eq!(r.repo, "repo");
    assert_eq!(r.canonical(), "gitea.example.com/org/repo");
}

#[test]
fn repository_refusals_carry_reasons() {
    match parse_package_ref("a/b/c", false) {
        Err(edgetx_cli::error::RegistryError::InvalidRef { raw, reason }) => {
            assert_eq!(raw, "a/b/c");
            assert_eq!(reason, "expected host.com/org/repo or Org/Repo format");
        }
        _ => panic!("expected InvalidRef"),
    }
    assert!(matches!(parse_package_ref("", false), Err(edgetx_cli::error::RegistryError::EmptyRef)));
    assert!(parse_package_ref("a/b/c/d", false).is_err());
    assert!(parse_package_ref("/x", false).unwrap().canonical() == "local::/x");
}

// ---- sources ----

#[test]
fn test_parse_empty() {
    let s = "".parse::<Source>().unwrap();
    assert!(s.base.is_empty());
}

#[test]
fn source_test_parse_simple_remote() {
    let s = "ExpressLRS/Lua-Scripts".parse::<Source>().unwrap();
    assert_eq!(s.base, "ExpressLRS/Lua-Scripts");
    assert!(s.sub_path.is_empty());
    assert!(s.version.is_empty());
    assert!(!s.is_local);
}

#[test]
fn source_test_parse_remote_with_version() {
    let s = "ExpressLRS/Lua-Scripts@v1.6.0".parse::<Source>().unwrap();
    assert_eq!(s.base, "ExpressLRS/Lua-Scripts");
    assert_eq!(s.version, "v1.6.0");
}

#[test]
fn test_parse_remote_with_subpath_and_version() {
    let s = "Org/Repo::edgetx.c480x272.yml@branch".parse::<Source>().unwrap();
    assert_eq!(s.base, "Org/Repo");
    assert_eq!(s.sub_path, "edgetx.c480x272.yml");
    assert_eq!(s.version, "branch");
}

#[test]
fn source_test_parse_local_dot() {
    let s = ".".parse::<Source>().unwrap();
    assert_eq!(s.base, ".");
    assert!(s.is_local);
}

#[test]
fn source_test_parse_local_absolute() {
    let s = "/abs/path".parse::<Source>().unwrap();
    assert_eq!(s.base, "/abs/path");
    assert!(s.is_local);
}

#[test]
fn source_test_parse_local_tilde() {
    let s = "~/dir".parse::<Source>().unwrap();
    assert_eq!(s.base, "~/dir");
    assert!(s.is_local);
}

#[test]
fn test_parse_stored_local() {
    let s = "local::/abs/path::sub".parse::<Source>().unwrap();
    assert_eq!(s.base, "/abs/path");
    assert_eq!(s.sub_path, "sub");
    assert!(s.is_local);
}

#[test]
fn test_canonical() {
    let s = "Org/Repo::sub@v1.0".parse::<Source>().unwrap();
    assert_eq!(s.canonical(), "Org/Repo::sub");
}

#[test]
fn test_full() {
    let s = "Org/Repo::sub@v1.0".parse::<Source>().unwrap();
    assert_eq!(s.full(), "Org/Repo::sub@v1.0");
}

#[test]
fn source_test_canonical_local() {
    let s = "local::/path::sub".parse::<Source>().unwrap();
    assert_eq!(s.canonical(), "local::/path::sub");
}

#[test]
fn test_local_no_at_split() {
    let s = "./path@with-at".parse::<Source>().unwrap();
    assert_eq!(s.base, "./path@with-at");
    assert!(s.version.is_empty());
    assert!(s.is_local);
}

#[test]
fn test_with_sub_path() {
    let s = "Org/Repo".parse::<Source>().unwrap();
    let s2 = s.with_sub_path("edgetx.yml");
    assert_eq!(s2.sub_path, "edgetx.yml");
}

#[test]
fn test_with_sub_path_empty_preserves() {
    let s = "Org/Repo::existing".parse::<Source>().unwrap();
    let s2 = s.with_sub_path("");
    assert_eq!(s2.sub_path, "existing");
}

#[test]
fn source_full_parses_back() {
    let s = Source::parse("Org/Repo::sub@v1.0").with_version("v2");
    let again = Source::parse(&s.full());
    assert_eq!(again.base, "Org/Repo");
    assert_eq!(again.sub_path, "sub");
    assert_eq!(again.version, "v2");
    assert!(Source::parse("@v1").version.is_empty());
}
