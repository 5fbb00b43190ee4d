use edgetx_cli::error::SimulatorError;
use edgetx_cli::manifest::{ContentItem, Manifest, Package, StringOrSlice};
use edgetx_cli::packages::path::PackagePath;
use edgetx_cli::radio_catalog::{
    DisplayDef, InputDef, InputDefault, InputType, KeyDef, KeySide, RadioDef, SwitchDef, SwitchDefault,
    SwitchType, TrimDef,
};
use edgetx_cli::simulator::input::{get_analog_value, initial_analog_values, set_analog_value, ANALOG_CENTER, ANALOG_INPUTS};
use edgetx_cli::simulator::lua_script::{
    channel_in_use, checked_position, input_constants, logical_switch_at, output_at, switch_constants,
    trim_constants, check_analog_value, check_switch_state, key_constants, key_index, resolve_input_index, resolve_key_name,
    resolve_switch_index, resolve_trim_index, ScriptValue,
};
use edgetx_cli::simulator::sdcard::{
    install_package, sd_card_path, sd_card_path_under, sdcard_dirs, settings_path, settings_path_under,
};
use edgetx_cli::simulator_ui::audio::{AudioControls, VOLUME_LEVEL_MAX};
use edgetx_cli::simulator_ui::input::{egui_key_to_index, keyboard_shortcuts, print_keyboard_shortcuts};

fn radio() -> RadioDef {
    RadioDef {
        name: "TX16S".into(),
        wasm: "tx16s.wasm".into(),
        display: DisplayDef { w: 480, h: 272, depth: 16 },
        inputs: vec![
            InputDef { name: "LH".into(), input_type: InputType::Stick, label: "LH".into(), default: InputDefault::AxisX },
            InputDef { name: "S1".into(), input_type: InputType::Flex, label: "S1".into(), default: InputDefault::PotCenter },
        ],
        switches: vec![
            SwitchDef { name: "SA".into(), switch_type: SwitchType::ThreePos, default: SwitchDefault::ThreePos },
            SwitchDef { name: "SB".into(), switch_type: SwitchType::TwoPos, default: SwitchDefault::TwoPos },
        ],
        trims: vec![TrimDef { name: "T1".into() }],
        keys: vec![],
    }
}

// ---- SD card ----

#[test]
fn sd_card_paths_under_cache() {
    assert_eq!(sd_card_path_under("/c", "tx16s"), "/c/edgetx-cli/simulator/tx16s/sdcard");
    assert_eq!(settings_path_under("/c", "tx16s"), "/c/edgetx-cli/simulator/tx16s/settings");
    assert!(sd_card_path("tx16s").unwrap().ends_with("edgetx-cli/simulator/tx16s/sdcard"));
    assert!(settings_path("tx16s").unwrap().ends_with("edgetx-cli/simulator/tx16s/settings"));
}

#[test]
fn sd_card_starts_with_standard_dirs() {
    let dirs = sdcard_dirs();
    assert_eq!(dirs.len(), 9);
    assert_eq!(dirs[0], "RADIO");
    assert_eq!(dirs[2], "SCRIPTS/TOOLS");
    assert_eq!(dirs[8], "IMAGES");
}

fn manifest() -> Manifest {
    let item = |name: &str, path: &str, dev: bool| ContentItem {
        name: name.into(),
        path: PackagePath::new(path),
        depends: vec![],
        exclude: vec![],
        dev,
    };
    Manifest {
        package: Package {
            id: "example.com/o/r".into(),
            name: "pkg".into(),
            description: String::new(),
            authors: vec![],
            urls: vec![],
            screenshots: vec![],
            keywords: vec![],
            license: String::new(),
            source_dir: StringOrSlice(vec![]),
            binary: false,
            min_edgetx_version: String::new(),
            capabilities: None,
            variants: vec![],
        },
        libraries: vec![item("lib", "SCRIPTS/lib", true)],
        tools: vec![item("T", "SCRIPTS/TOOLS/T", false)],
        telemetry: vec![],
        functions: vec![],
        mixes: vec![],
        widgets: vec![],
        sounds: vec![],
        images: vec![],
        files: vec![],
    }
}

#[test]
fn install_package_copies_every_item() {
    let m = manifest();
    let n = m.content_items(true).len();
    assert_eq!(n, 2);
    let plan = install_package(&m, "/pkg", &vec![vec![true]; n]);
    assert_eq!(plan.len(), 2);
    for (copy, item) in plan.iter().zip(m.content_items(true)) {
        let c = copy.as_ref().unwrap();
        assert_eq!(c.source_root, "/pkg");
        assert_eq!(c.path.as_str(), item.path.as_str());
        assert_eq!(c.exclude, vec!["*.luac".to_string()]);
    }
}

#[test]
fn install_package_of_a_binary_package_keeps_luac() {
    let mut m = manifest();
    m.package.binary = true;
    let n = m.content_items(true).len();
    let plan = install_package(&m, "/pkg", &vec![vec![true]; n]);
    for copy in &plan {
        assert!(copy.as_ref().unwrap().exclude.is_empty());
    }
}

#[test]
fn install_package_reports_missing_content() {
    let m = manifest();
    let plan = install_package(&m, "/pkg", &[vec![true], vec![false]]);
    assert!(plan[0].is_ok());
    match &plan[1] {
        Err(SimulatorError::Runtime(msg)) => {
            let path = m.content_items(true)[1].path.as_str().to_string();
            assert_eq!(
                msg,
                &format!("resolving {path}: content path PackagePath({path:?}) not found in any source root")
            );
        }
        other => panic!("expected a runtime error, got {other:?}"),
    }
}

// ---- analog inputs ----

#[test]
fn analog_values_start_centred_and_ignore_bad_index() {
    let mut v = initial_analog_values();
    assert_eq!(v.len(), ANALOG_INPUTS);
    assert!(v.iter().all(|&x| x == ANALOG_CENTER));
    set_analog_value(&mut v, 3, 100);
    assert_eq!(v[3], 100);
    set_analog_value(&mut v, 16, 5);
    assert_eq!(v.len(), 16);
    assert!(v.iter().enumerate().all(|(i, &x)| if i == 3 { x == 100 } else { x == ANALOG_CENTER }));
}

#[test]
fn analog_read_gives_back_what_was_set() {
    let mut v = initial_analog_values();
    set_analog_value(&mut v, 5, 4096);
    assert_eq!(get_analog_value(&v, 5), 4096);
    assert_eq!(get_analog_value(&v, 4), ANALOG_CENTER);
    assert_eq!(get_analog_value(&v, -1), 2048);
    assert_eq!(get_analog_value(&v, 16), 2048);
}

// ---- script arguments ----

#[test]
fn key_names_resolve() {
    assert_eq!(resolve_key_name(&ScriptValue::Text("enter".into())), Ok("ENTER".to_string()));
    assert_eq!(resolve_key_name(&ScriptValue::Integer(3)), Err("expected string, got integer".to_string()));
    assert_eq!(resolve_key_name(&ScriptValue::Other("table".into())), Err("expected string, got table".to_string()));
    assert_eq!(key_index("ENTER"), Ok(2));
    assert_eq!(key_index("KEY_EXIT"), Ok(1));
    assert_eq!(
        key_index("FOO"),
        Err("unknown key \"FOO\" (available: MENU, EXIT, ENTER, PAGEUP, PAGEDN, UP, DOWN, LEFT, RIGHT, PLUS, MINUS, MODEL, TELE, SYS)".to_string())
    );
}

#[test]
fn switches_resolve_by_index_or_name() {
    let r = radio();
    assert_eq!(resolve_switch_index(&ScriptValue::Integer(1), &r), Ok(1));
    assert_eq!(resolve_switch_index(&ScriptValue::Text("sb".into()), &r), Ok(1));
    assert_eq!(
        resolve_switch_index(&ScriptValue::Integer(5), &r),
        Err("switch index 5 out of range for TX16S (available: SA, SB)".to_string())
    );
    assert_eq!(
        resolve_switch_index(&ScriptValue::Integer(-1), &r),
        Err("switch index -1 out of range for TX16S (available: SA, SB)".to_string())
    );
    assert_eq!(
        resolve_switch_index(&ScriptValue::Text("SZ".into()), &r),
        Err("unknown switch \"SZ\" for TX16S (available: SA, SB)".to_string())
    );
    assert_eq!(
        resolve_switch_index(&ScriptValue::Other("boolean".into()), &r),
        Err("expected string or integer, got boolean".to_string())
    );
}

#[test]
fn trims_and_inputs_resolve() {
    let r = radio();
    assert_eq!(resolve_trim_index(&ScriptValue::Text("t1".into()), &r), Ok(0));
    assert_eq!(
        resolve_trim_index(&ScriptValue::Integer(1), &r),
        Err("trim index 1 out of range for TX16S (available: T1)".to_string())
    );
    assert_eq!(resolve_input_index(&ScriptValue::Text("S1".into()), &r), Ok(1));
    assert_eq!(
        resolve_input_index(&ScriptValue::Text("P9".into()), &r),
        Err("unknown input \"P9\" for TX16S (available: LH, S1)".to_string())
    );
}

#[test]
fn key_constants_follow_the_radio() {
    let mut r = radio();
    assert_eq!(key_constants(&r).len(), 14);
    r.keys = vec![
        KeyDef { key: "KEY_EXIT".into(), label: "RTN".into(), side: KeySide::Left },
        KeyDef { key: "KEY_BOGUS".into(), label: "?".into(), side: KeySide::Unknown },
        KeyDef { key: "SYS".into(), label: "SYS".into(), side: KeySide::Right },
    ];
    assert_eq!(key_constants(&r), vec!["EXIT".to_string(), "SYS".to_string()]);
}

#[test]
fn switch_state_and_analog_ranges() {
    assert_eq!(check_switch_state(-1), Ok(-1));
    assert_eq!(check_switch_state(1), Ok(1));
    assert_eq!(check_switch_state(2), Err("switch state 2 out of range (-1, 0, 1)".to_string()));
    assert_eq!(check_analog_value(4096), Ok(4096));
    assert_eq!(check_analog_value(0), Ok(0));
    assert_eq!(check_analog_value(-5), Err("analog value -5 out of range (0-4096)".to_string()));
}

// ---- window state ----

#[test]
fn audio_controls() {
    let mut c = AudioControls::new();
    assert!(!c.is_muted());
    assert_eq!(c.volume_percent(), 100);
    assert_eq!(c.effective_level(), VOLUME_LEVEL_MAX);
    c.set_volume_level(12);
    assert_eq!(c.volume_percent(), 52);
    c.set_muted(true);
    assert!(c.is_muted());
    assert_eq!(c.effective_level(), 0);
    c.set_muted(false);
    c.set_volume_level(-3);
    assert_eq!(c.volume_percent(), 0);
    assert_eq!(c.effective_level(), 0);
    c.set_volume_level(40);
    assert_eq!(c.effective_level(), VOLUME_LEVEL_MAX);
    assert_eq!(c.volume_percent(), 173);
    c.set_volume_level(1000);
    assert_eq!(c.volume_percent(), 255);
    assert!(!AudioControls::default().is_muted());
}

#[test]
fn test_egui_key_mapping() {
    assert_eq!(egui_key_to_index("Enter"), Some(2));
    assert_eq!(egui_key_to_index("Escape"), Some(1));
    assert_eq!(egui_key_to_index("A"), None);
}

#[test]
fn keyboard_help_lists_each_shortcut() {
    let help = print_keyboard_shortcuts();
    assert!(help.starts_with("Keyboard shortcuts:\n  S -> SYS\n  M -> MODEL\n"));
    assert!(help.contains("  PageUp -> PAGE UP\n"));
    assert!(help.ends_with("  Escape -> EXIT\n  Scroll wheel -> Rotary encoder\n  Mouse click on LCD -> Touch\n"));
    assert_eq!(help.lines().count(), 1 + keyboard_shortcuts().len() + 2);
}

#[test]
fn script_constant_tables() {
    let mut r = radio();
    r.switches.push(SwitchDef { name: "SA".into(), switch_type: SwitchType::TwoPos, default: SwitchDefault::TwoPos });
    let mut sw = switch_constants(&r);
    sw.sort();
    assert_eq!(sw, vec![("SA".to_string(), 2), ("SB".to_string(), 1)]);
    assert_eq!(input_constants(&r), vec![("LH".to_string(), 0), ("S1".to_string(), 1)]);
    assert_eq!(trim_constants(&r), vec![("T1".to_string(), 0)]);
}

#[test]
fn script_monitor_indices() {
    assert_eq!(checked_position("channel index", 1, 16), Ok(0));
    assert_eq!(checked_position("channel index", 16, 16), Ok(15));
    assert_eq!(checked_position("channel index", 0, 16), Err("channel index 0 out of range (1-16)".to_string()));
    assert_eq!(checked_position("flight mode", 10, 9), Err("flight mode 10 out of range (1-9)".to_string()));
    assert_eq!(checked_position("gvar index", -1, 9), Err("gvar index -1 out of range (1-9)".to_string()));
    assert_eq!(output_at(&vec![5, -1024], 1), -1024);
    assert_eq!(output_at(&vec![5, -1024], 2), 0);
    assert!(logical_switch_at(&vec![false, true], 1));
    assert!(!logical_switch_at(&vec![false, true], 5));
    assert!(channel_in_use(0b1010, 1));
    assert!(!channel_in_use(0b1010, 2));
    assert!(channel_in_use(0x8000_0000, 31));
}
