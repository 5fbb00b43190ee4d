use edgetx_cli::manifest::location::locate_manifest;
use edgetx_cli::source::resolve::{
    branch_name, cache_dir, gitlink_entries, parse_gitmodules, plan_submodules, ref_spec, repos_dir_under,
    text_lines_exec,
};

fn lookup<'a>(map: &'a [(String, String)], key: &str) -> Option<&'a str> {
    map.iter().find(|(k, _)| k == key).map(|(_, v)| v.as_str())
}

#[test]
fn test_parse_gitmodules() {
    let content = r#"[submodule "mylib"]
	path = libs/mylib
	url = https://github.com/example/mylib.git
[submodule "stdlib"]
	path = deps/stdlib
	url = https://github.com/example/stdlib.git
	branch = main
"#;
    let map = parse_gitmodules(content);
    assert_eq!(map.len(), 2);
    assert_eq!(lookup(&map, "libs/mylib").unwrap(), "https://github.com/example/mylib.git");
    assert_eq!(lookup(&map, "deps/stdlib").unwrap(), "https://github.com/example/stdlib.git");
}

#[test]
fn gitmodules_sections_without_both_settings_are_dropped() {
    let map = parse_gitmodules("[submodule \"a\"]\n\tpath = a\n[submodule \"b\"]\n\turl = u\n");
    assert!(map.is_empty());
}

#[test]
fn gitmodules_later_section_wins_and_crlf_is_read() {
    let map = parse_gitmodules("[s]\r\npath=x\r\nurl=one\r\n[s]\r\npath = x\r\nurl = two");
    assert_eq!(map.len(), 1);
    assert_eq!(lookup(&map, "x"), Some("two"));
}

#[test]
fn gitmodules_keys_need_an_equals_sign() {
    let map = parse_gitmodules("[s]\npathname = x\npath = y\nurl: z\nurl = w\n");
    assert_eq!(map, vec![("y".to_string(), "w".to_string())]);
}

#[test]
fn resolve_test_cache_dir_returns_path() {
    let path = cache_dir().unwrap();
    assert!(path.ends_with("edgetx-cli/repos"));
}

#[test]
fn repos_dir_joins_under_base() {
    assert_eq!(repos_dir_under("/home/me/.cache"), "/home/me/.cache/edgetx-cli/repos");
    assert_eq!(repos_dir_under("/home/me/.cache/"), "/home/me/.cache/edgetx-cli/repos");
}

#[test]
fn manifest_location_by_sub_path() {
    let l = locate_manifest("/repo", "");
    assert_eq!(l.manifest_file, None);
    assert_eq!(l.manifest_dir, "/repo");

    let l = locate_manifest("/repo", "variants/edgetx.c480x272.yml");
    assert_eq!(l.manifest_file.as_deref(), Some("/repo/variants/edgetx.c480x272.yml"));
    assert_eq!(l.manifest_dir, "/repo/variants");

    let l = locate_manifest("/repo", "edgetx.bw.yaml");
    assert_eq!(l.manifest_file.as_deref(), Some("/repo/edgetx.bw.yaml"));
    assert_eq!(l.manifest_dir, "/repo");

    let l = locate_manifest("/repo", "subpkg");
    assert_eq!(l.manifest_file, None);
    assert_eq!(l.manifest_dir, "/repo/subpkg");
}

#[test]
fn revisions_of_resolved_versions() {
    assert_eq!(ref_spec("v1.2.0", "tag"), "refs/tags/v1.2.0");
    assert_eq!(ref_spec("main", "branch"), "refs/remotes/origin/main");
    assert_eq!(ref_spec("abc1234", "commit"), "abc1234");
    assert_eq!(branch_name("origin/dev"), "dev");
    assert_eq!(branch_name("feature/x"), "feature/x");
}

#[test]
fn text_lines_follow_str_lines() {
    for text in ["", "a", "a\n", "a\r\nb", "a\n\nb\r\n", "\r", "x\r"] {
        let got: Vec<String> = text_lines_exec(text).iter().map(|v| v.iter().collect()).collect();
        let want: Vec<String> = text.lines().map(String::from).collect();
        assert_eq!(got, want, "{text:?}");
    }
}

#[test]
fn submodules_come_from_gitlinks() {
    let listing = "100644 blob 1111\tREADME.md\n160000 commit abcdef0\tlibs/mylib\n040000 tree 2222\tSCRIPTS\n160000 commit 1234567\tdeps/other\n";
    let subs = gitlink_entries(listing);
    assert_eq!(
        subs,
        vec![("libs/mylib".to_string(), "abcdef0".to_string()), ("deps/other".to_string(), "1234567".to_string())]
    );
    let urls = parse_gitmodules("[submodule \"mylib\"]\n\tpath = libs/mylib\n\turl = https://example.com/mylib.git\n");
    let plan = plan_submodules(&subs, &urls);
    assert_eq!(
        plan,
        vec![
            Ok(("libs/mylib".to_string(), "abcdef0".to_string(), "https://example.com/mylib.git".to_string())),
            Err("deps/other".to_string()),
        ]
    );
}
