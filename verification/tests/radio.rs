use edgetx_cli::device::eject::{drive_root, strip_partition_number};
use edgetx_cli::error::RadioError;
use edgetx_cli::radio::copy::{default_exclude, is_excluded};
use edgetx_cli::radio::detect::{detect_mount, detect_windows_drives, is_no_device_error, keep_waiting, windows_drives};
use edgetx_cli::radio::version::check_version_compatibility;
use edgetx_cli::radio_catalog::{is_valid_wasm, InputDefault, InputType, KeySide, SwitchDefault, SwitchType};

// ---- copy ----

#[test]
fn test_is_excluded() {
    assert!(is_excluded("test.luac", &["*.luac".to_string()]));
    assert!(!is_excluded("test.lua", &["*.luac".to_string()]));
}

#[test]
fn exclusion_looks_at_the_file_name_only() {
    let pats = default_exclude();
    assert!(is_excluded("SCRIPTS/TOOLS/X/main.luac", &pats));
    assert!(!is_excluded("SCRIPTS/luac.d/main.lua", &pats));
    assert!(!is_excluded("SCRIPTS/..", &pats));
    assert!(!is_excluded("main.luac", &[]));
}

// ---- firmware version ----

#[test]
fn test_compatible() {
    assert!(check_version_compatibility("2.12.0", "2.11.0").is_ok());
}

#[test]
fn test_exact_match() {
    assert!(check_version_compatibility("2.11.0", "2.11.0").is_ok());
}

#[test]
fn test_incompatible() {
    let result = check_version_compatibility("2.10.0", "2.11.0");
    assert!(result.is_err());
}

#[test]
fn test_with_v_prefix() {
    assert!(check_version_compatibility("v2.12.0", "v2.11.0").is_ok());
}

#[test]
fn test_empty_min() {
    assert!(check_version_compatibility("2.12.0", "").is_ok());
}

#[test]
fn unparsable_radio_version_is_refused() {
    assert!(check_version_compatibility("nightly", "2.11.0").is_err());
}

// ---- detection ----

#[test]
fn test_detect_mount_single() {
    let result = detect_mount("/media/me", &["/media/me/my-radio".to_string()]).unwrap();
    assert_eq!(result, "/media/me/my-radio");
}

#[test]
fn test_detect_mount_none() {
    let result = detect_mount("/media/me", &[]);
    assert!(result.is_err());
    assert!(matches!(result, Err(RadioError::NoDevice(d)) if d == "/media/me"));
}

#[test]
fn test_detect_mount_multiple() {
    let result = detect_mount("/media/me", &["/media/me/radio1".to_string(), "/media/me/radio2".to_string()]);
    assert!(matches!(result, Err(RadioError::MultipleDevices(ref names)) if names == "/media/me/radio1, /media/me/radio2"));
}

#[test]
fn windows_detection_and_drive_list() {
    assert!(matches!(detect_windows_drives(&[]), Err(RadioError::NoDeviceWindows)));
    assert_eq!(detect_windows_drives(&["E:\\".to_string()]).unwrap(), "E:\\");
    let drives = windows_drives();
    assert_eq!(drives.len(), 23);
    assert_eq!(drives[0], "D:\\");
    assert_eq!(drives[22], "Z:\\");
}

#[test]
fn only_a_missing_card_is_waited_for() {
    assert!(is_no_device_error(&RadioError::NoDevice("/media".into())));
    assert!(is_no_device_error(&RadioError::NoDeviceWindows));
    assert!(!is_no_device_error(&RadioError::MultipleDevices("a, b".into())));
    assert!(keep_waiting(&RadioError::NoDevice("/media".into()), false));
    assert!(!keep_waiting(&RadioError::NoDevice("/media".into()), true));
    assert!(!keep_waiting(&RadioError::MultipleDevices("a, b".into()), false));
}

// ---- eject ----

#[test]
fn partition_number_is_stripped() {
    assert_eq!(strip_partition_number("/dev/sdb1"), "/dev/sdb");
    assert_eq!(strip_partition_number("/dev/sdc12"), "/dev/sdc");
    assert_eq!(strip_partition_number("/dev/sdd"), "/dev/sdd");
    assert_eq!(strip_partition_number("123"), "");
}

#[test]
fn drive_root_of_a_mount_point() {
    assert_eq!(drive_root("E:\\"), "E:\\");
    assert_eq!(drive_root("F:"), "F:\\");
    assert_eq!(drive_root("/media/me/radio"), "/media/me/radio");
    assert_eq!(drive_root("é:"), "é:");
}

// ---- catalog names ----

fn json_field(json: &str, field: &str) -> String {
    let v: serde_json::Value = serde_json::from_str(json).unwrap();
    v.get(field).and_then(|f| f.as_str()).unwrap_or("").to_string()
}

#[test]
fn test_deserialize_known_input_values() {
    let json = r#"{"name":"S1","type":"FLEX","default":"POT_CENTER","label":"S1"}"#;
    assert_eq!(InputType::from_name(&json_field(json, "type")), InputType::Flex);
    assert_eq!(InputDefault::from_name(&json_field(json, "default")), InputDefault::PotCenter);
}

#[test]
fn test_deserialize_absent_fields_become_unknown() {
    let json = r#"{"name":"X"}"#;
    assert_eq!(InputType::default(), InputType::Unknown);
    assert_eq!(InputDefault::default(), InputDefault::Unknown);
    assert!(json_field(json, "type").is_empty());

    let json = r#"{"name":"SA"}"#;
    assert!(json_field(json, "default").is_empty());
    assert_eq!(SwitchType::default(), SwitchType::Unknown);
    assert_eq!(SwitchDefault::default(), SwitchDefault::Unknown);

    let json = r#"{"key":"KEY_EXIT","label":"RTN"}"#;
    assert!(json_field(json, "side").is_empty());
    assert_eq!(KeySide::default(), KeySide::Unknown);
}

#[test]
fn test_deserialize_unknown_values_forward_compat() {
    let json = r#"{"name":"X","type":"FUTURE_TYPE","default":"FUTURE_DEFAULT"}"#;
    assert_eq!(InputType::from_name(&json_field(json, "type")), InputType::Unknown);
    assert_eq!(InputDefault::from_name(&json_field(json, "default")), InputDefault::Unknown);
}

#[test]
fn test_deserialize_switch_type_3pos_alias() {
    let json = r#"{"name":"SA","type":"3pos","default":"3POS"}"#;
    assert_eq!(SwitchType::from_name(&json_field(json, "type")), SwitchType::ThreePos);
    assert_eq!(SwitchDefault::from_name(&json_field(json, "default")), SwitchDefault::ThreePos);
}

#[test]
fn test_deserialize_all_input_defaults() {
    for (val, expected) in [
        ("POT", InputDefault::Pot),
        ("POT_CENTER", InputDefault::PotCenter),
        ("MULTIPOS", InputDefault::Multipos),
        ("SLIDER", InputDefault::Slider),
        ("AXIS_X", InputDefault::AxisX),
        ("AXIS_Y", InputDefault::AxisY),
        ("NONE", InputDefault::NoDefault),
    ] {
        let json = format!(r#"{{"name":"X","default":"{val}"}}"#);
        assert_eq!(InputDefault::from_name(&json_field(&json, "default")), expected, "failed for {val}");
    }
}

#[test]
fn test_deserialize_key_sides() {
    let json = r#"{"key":"KEY_SYS","label":"SYS","side":"L"}"#;
    assert_eq!(KeySide::from_name(&json_field(json, "side")), KeySide::Left);

    let json = r#"{"key":"KEY_MODEL","label":"MDL","side":"R"}"#;
    assert_eq!(KeySide::from_name(&json_field(json, "side")), KeySide::Right);
}

#[test]
fn wasm_magic_is_checked() {
    assert!(is_valid_wasm(b"\0asm\x01\0\0\0"));
    assert!(is_valid_wasm(b"\0asm"));
    assert!(!is_valid_wasm(b"<!DOCTYPE html>"));
    assert!(!is_valid_wasm(b"\0as"));
}

#[test]
fn invalid_patterns_exclude_nothing() {
    assert!(!is_excluded("main[.lua", &["main[.lua".to_string()]));
    assert!(is_excluded("main[.lua", &["main[.lua".to_string(), "*.lua".to_string()]));
    assert!(is_excluded("Photo.JPG", &["*.JPG".to_string()]));
    assert!(!is_excluded("photo.jpg", &["*.JPG".to_string()]));
}
