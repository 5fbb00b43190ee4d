use edgetx_cli::cli::backup::{archive_entry_name, backup_name, format_date};
use edgetx_cli::cli::dev::{init_manifest, init_package_name, parse_depends, parse_duration, scaffold_yaml_key, Timeout};
use edgetx_cli::cli::pkg::{update_includes_dev, UpdateArgs};

#[test]
fn duration_units() {
    assert_eq!(parse_duration("100ms"), Ok(Timeout::Millis(100)));
    assert_eq!(parse_duration("5s"), Ok(Timeout::Seconds(5)));
    assert_eq!(parse_duration("30s"), Ok(Timeout::Seconds(30)));
    assert_eq!(parse_duration("1m"), Ok(Timeout::Minutes(1)));
    assert_eq!(parse_duration("+2s"), Ok(Timeout::Seconds(2)));
}

#[test]
fn duration_errors() {
    assert_eq!(parse_duration("xs"), Err("invalid duration".to_string()));
    assert_eq!(parse_duration("1.5s"), Err("invalid duration".to_string()));
    assert_eq!(parse_duration("ms"), Err("invalid duration".to_string()));
    assert_eq!(
        parse_duration("5h"),
        Err("invalid duration \"5h\": expected format like 5s, 30s, 1m, 100ms".to_string())
    );
    assert_eq!(
        parse_duration("99999999999999999999s"),
        Err("invalid duration".to_string())
    );
}

#[test]
fn backup_date_stamp() {
    assert_eq!(format_date(0), "1970-01-01");
    assert_eq!(format_date(1_709_251_200), "2024-03-01");
    assert_eq!(format_date(19797 * 86400), "2024-03-15");
    assert_eq!(format_date(364 * 86400 + 86399), "1970-12-31");
    assert_eq!(format_date(951_782_400), "2000-02-29");
    assert_eq!(format_date(4_102_444_800), "2100-01-01");
    assert_eq!(format_date(u64::MAX), "584554051223-11-09");
}

#[test]
fn backup_names() {
    assert_eq!(backup_name(Some("tx16s"), "2024-03-28"), "tx16s-2024-03-28");
    assert_eq!(backup_name(None, "2024-03-28"), "backup-2024-03-28");
}

#[test]
fn init_manifest_content() {
    assert_eq!(
        init_manifest("my-pkg"),
        "package:\n  name: my-pkg\n  description: \"\"\n  license: \"\"\n"
    );
    assert_eq!(init_package_name(Some("x"), Some("dir")), "x");
    assert_eq!(init_package_name(None, Some("dir")), "dir");
    assert_eq!(init_package_name(None, None), "my-package");
}

#[test]
fn scaffold_depends_are_split_and_trimmed() {
    assert_eq!(parse_depends(Some("a, b ,c")), vec!["a".to_string(), "b".to_string(), "c".to_string()]);
    assert_eq!(parse_depends(Some("")), vec![String::new()]);
    assert!(parse_depends(None).is_empty());
}

#[test]
fn scaffold_reported_key() {
    assert_eq!(scaffold_yaml_key("tool"), "tools");
    assert_eq!(scaffold_yaml_key("library"), "libraries");
    assert_eq!(scaffold_yaml_key("gadget"), "gadget");
}

#[test]
fn update_dev_flag() {
    let named = UpdateArgs {
        package: Some("Org/Repo".into()),
        dir: None,
        path: None,
        all: false,
        eject: false,
        dry_run: false,
        dev: true,
    };
    assert!(update_includes_dev(&named, false));
    let without_flag = UpdateArgs { dev: false, ..named };
    assert!(!update_includes_dev(&without_flag, false));
    assert!(update_includes_dev(&without_flag, true));
    let all = UpdateArgs { package: None, dev: true, ..without_flag };
    assert!(update_includes_dev(&all, false));
}

#[test]
fn archive_entries_use_forward_slashes() {
    assert_eq!(archive_entry_name("MODELS\\model01.yml"), "MODELS/model01.yml");
    assert_eq!(archive_entry_name("SCRIPTS/TOOLS/a.lua"), "SCRIPTS/TOOLS/a.lua");
}
