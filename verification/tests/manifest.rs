use edgetx_cli::manifest::content::items_for_key;
use edgetx_cli::manifest::validate::FsFacts;
use edgetx_cli::manifest::{
    Author, ContentItem, DisplayCapabilities, DisplayFilter, DisplayType, Manifest, ManifestError,
    Package, RadioCapabilities, RadioCapabilitiesFilter, Resolution, StringOrSlice, Variant,
};
use edgetx_cli::packages::path::PackagePath;

fn package(id: &str, description: &str) -> Package {
    Package {
        id: id.into(),
        name: String::new(),
        description: description.into(),
        authors: vec![],
        urls: vec![],
        screenshots: vec![],
        keywords: vec![],
        license: String::new(),
        source_dir: StringOrSlice(vec![]),
        binary: false,
        min_edgetx_version: String::new(),
        capabilities: None,
        variants: vec![],
    }
}

fn item(name: &str, path: &str, depends: Vec<&str>, dev: bool) -> ContentItem {
    ContentItem {
        name: name.into(),
        path: PackagePath::from(path),
        depends: depends.into_iter().map(String::from).collect(),
        exclude: vec![],
        dev,
    }
}

fn manifest(p: Package) -> Manifest {
    Manifest {
        package: p,
        libraries: vec![],
        tools: vec![],
        telemetry: vec![],
        functions: vec![],
        mixes: vec![],
        widgets: vec![],
        sounds: vec![],
        images: vec![],
        files: vec![],
    }
}

fn facts_for(m: &Manifest, dir: &str) -> FsFacts {
    FsFacts {
        screenshot_exists: vec![true; m.package.screenshots.len()],
        root_is_dir: vec![true; m.source_roots(dir).len()],
        content_found: vec![true; m.content_items(true).len()],
    }
}

fn message(r: Result<(), ManifestError>) -> String {
    match r {
        Err(ManifestError::Validation { message, .. }) => message,
        _ => panic!("expected a validation error"),
    }
}

fn variant(path: &str, display_type: DisplayType, res: Option<(u32, u32)>) -> Variant {
    Variant {
        path: path.into(),
        capabilities: RadioCapabilitiesFilter {
            display: Some(DisplayFilter {
                display_type: Some(display_type),
                resolution: res.map(|(width, height)| Resolution { width, height }),
                touch: None,
            }),
        },
    }
}

fn radio(width: u32, height: u32, color: bool) -> RadioCapabilities {
    RadioCapabilities { display: DisplayCapabilities { width, height, color, touch: None } }
}

#[test]
fn select_variant_prefers_specific() {
    let mut p = package("test-pkg", "Test package");
    p.variants = vec![
        variant("edgetx.bw128x64.yml", DisplayType::Bw, Some((128, 64))),
        variant("edgetx.bw.yml", DisplayType::Bw, None),
        variant("edgetx.color.yml", DisplayType::ColorLcd, None),
    ];
    let m = manifest(p);
    assert!(m.has_variants());
    assert_eq!(m.select_variant(&radio(128, 64, false)).unwrap().path, "edgetx.bw128x64.yml");
    assert_eq!(m.select_variant(&radio(212, 64, false)).unwrap().path, "edgetx.bw.yml");
    assert_eq!(m.select_variant(&radio(480, 272, true)).unwrap().path, "edgetx.color.yml");
}

#[test]
fn select_variant_no_match_and_ties() {
    let mut p = package("test-pkg", "Test package");
    p.variants = vec![variant("edgetx.color.yml", DisplayType::ColorLcd, None)];
    let m = manifest(p);
    assert!(m.select_variant(&radio(128, 64, false)).is_none());
    let mut p = package("test-pkg", "Test package");
    p.variants = vec![variant("a.yml", DisplayType::Bw, None), variant("b.yml", DisplayType::Bw, None)];
    let m = manifest(p);
    assert_eq!(m.select_variant(&radio(128, 64, false)).unwrap().path, "b.yml");
}

#[test]
fn content_items_libraries_first_and_dev_filter() {
    let mut m = manifest(package("test", "Test package"));
    m.libraries = vec![item("Lib", "SCRIPTS/Lib", vec![], false), item("DevLib", "SCRIPTS/DevLib", vec![], true)];
    m.tools = vec![item("Tool", "SCRIPTS/TOOLS/Tool", vec![], false), item("DevTool", "SCRIPTS/TOOLS/DevTool", vec![], true)];
    assert_eq!(m.content_items(true).len(), 4);
    let no_dev = m.content_items(false);
    assert_eq!(no_dev.len(), 2);
    assert!(no_dev.iter().all(|i| !i.dev));
    assert_eq!(
        m.all_paths(true),
        vec![
            PackagePath::from("SCRIPTS/Lib"),
            PackagePath::from("SCRIPTS/DevLib"),
            PackagePath::from("SCRIPTS/TOOLS/Tool"),
            PackagePath::from("SCRIPTS/TOOLS/DevTool"),
        ]
    );
    assert_eq!(items_for_key(&m, "tools").len(), 2);
    assert_eq!(items_for_key(&m, "whatever").len(), 0);
}

#[test]
fn validate_accepts_a_valid_manifest() {
    let mut p = package("test-pkg", "A test package");
    p.authors = vec![Author { name: "Me".into(), email: Some("me@example.com".into()) }];
    p.license = "MIT OR Apache-2.0".into();
    p.min_edgetx_version = "2.10.0".into();
    let mut m = manifest(p);
    m.tools = vec![item("MyTool", "SCRIPTS/TOOLS/MyTool", vec![], false)];
    let facts = facts_for(&m, "/pkg");
    assert!(m.validate("/pkg", &facts).is_ok());
}

#[test]
fn validate_reports_the_first_problem() {
    let m = manifest(package("", "Test"));
    assert_eq!(message(m.validate("/pkg", &facts_for(&m, "/pkg"))), "package id is required");
    let m = manifest(package("bad name!", "Test"));
    assert_eq!(
        message(m.validate("/pkg", &facts_for(&m, "/pkg"))),
        "package id \"bad name!\" must contain only alphanumeric characters, dashes, and underscores, or be host/owner/repo with a dotted host"
    );
    let mut p = package("test", "Test");
    p.min_edgetx_version = "not-a-version".into();
    let m = manifest(p);
    assert_eq!(
        message(m.validate("/pkg", &facts_for(&m, "/pkg"))),
        "min_edgetx_version \"not-a-version\" is not a valid semver version"
    );
    let mut p = package("test", "Test");
    p.authors = vec![Author { name: "Me".into(), email: Some("not-an-email".into()) }];
    let m = manifest(p);
    assert_eq!(message(m.validate("/pkg", &facts_for(&m, "/pkg"))), "invalid email \"not-an-email\" for author \"Me\"");
    let mut p = package("test", "Test");
    p.license = "NOT-A-LICENSE".into();
    let m = manifest(p);
    assert!(message(m.validate("/pkg", &facts_for(&m, "/pkg"))).starts_with("license \"NOT-A-LICENSE\""));
}

#[test]
fn validate_checks_each_id_segment() {
    for id in ["example.com/test/test-pkg", "test-pkg", "github.com/Org/Repo/sub.pkg", "a_b", "gitea.example.com/Team/widget-pack"] {
        let m = manifest(package(id, "Test"));
        assert!(m.validate("/pkg", &facts_for(&m, "/pkg")).is_ok(), "{id} should be valid");
    }
    for id in ["bad name!", "a//b", "a/", "/a", ".hidden/x", "a/-b", "a/b", "a.b", "org/owner/repo", "a.b/c", "x.y//z"] {
        let m = manifest(package(id, "Test"));
        assert!(m.validate("/pkg", &facts_for(&m, "/pkg")).is_err(), "{id} should be invalid");
    }
}

#[test]
fn validate_dependencies() {
    let mut m = manifest(package("test", "Test package"));
    m.tools = vec![item("Tool", "SCRIPTS/TOOLS/Tool", vec!["NonExistent"], false)];
    let msg = message(m.validate("/pkg", &facts_for(&m, "/pkg")));
    assert!(msg.contains("unresolved library dependencies"));
    let mut m = manifest(package("test", "Test package"));
    m.libraries = vec![item("DevLib", "SCRIPTS/DevLib", vec![], true)];
    m.tools = vec![item("Tool", "SCRIPTS/TOOLS/Tool", vec!["DevLib"], false)];
    let msg = message(m.validate("/pkg", &facts_for(&m, "/pkg")));
    assert_eq!(msg, "non-dev items depend on dev libraries: [\"Tool depends on dev library \\\"DevLib\\\"\"]");
}

#[test]
fn validate_uses_file_system_facts() {
    let mut m = manifest(package("test", "Test package"));
    m.package.source_dir = StringOrSlice(vec!["src".into(), "/abs".into()]);
    m.tools = vec![item("Tool", "SCRIPTS/TOOLS/Tool", vec![], false)];
    assert_eq!(m.source_roots("/pkg"), vec!["/pkg/src".to_string(), "/abs".to_string()]);
    let mut facts = facts_for(&m, "/pkg");
    facts.root_is_dir[1] = false;
    assert_eq!(message(m.validate("/pkg", &facts)), "source directory \"/abs\" does not exist");
    let mut facts = facts_for(&m, "/pkg");
    facts.content_found[0] = false;
    assert_eq!(
        message(m.validate("/pkg", &facts)),
        "content paths not found: [PackagePath(\"SCRIPTS/TOOLS/Tool\")]"
    );
    assert_eq!(m.resolve_content_path("/pkg", &PackagePath::from("x"), &[false, true]).unwrap(), "/abs");
    assert!(m.resolve_content_path("/pkg", &PackagePath::from("x"), &[false, false]).is_err());
}

#[test]
fn resolution_text() {
    assert_eq!(Resolution::parse("480x272").unwrap(), Resolution { width: 480, height: 272 });
    assert_eq!(Resolution::parse("480").unwrap_err(), "resolution \"480\" must be in WIDTHxHEIGHT format");
    assert_eq!(Resolution::parse("ax1").unwrap_err(), "invalid width in resolution \"ax1\"");
    assert_eq!(Resolution { width: 128, height: 64 }.to_string(), "128x64");
    let f = DisplayFilter { display_type: Some(DisplayType::ColorLcd), resolution: Some(Resolution { width: 480, height: 272 }), touch: Some(true) };
    assert_eq!(f.to_string(), "colorlcd, 480x272, touch");
    assert_eq!(RadioCapabilitiesFilter { display: Some(f) }.specificity(), 4);
    assert_eq!(package("id", "d").display_name(), "id");
}
