use edgetx_cli::radio_catalog::{
    DisplayDef, InputDef, InputDefault, InputType, RadioDef, SwitchDef, SwitchDefault, SwitchType, TrimDef,
};
use edgetx_cli::simulator::lua_script::{
    check_analog_value, check_switch_state, input_constants, key_constants, key_index, resolve_input_index,
    resolve_key_name, resolve_switch_index, resolve_trim_index, switch_constants, trim_constants, ScriptValue,
};

fn test_radio() -> RadioDef {
    let input = |name: &str| InputDef {
        name: name.into(),
        input_type: InputType::default(),
        label: "".into(),
        default: InputDefault::default(),
    };
    let switch = |name: &str| SwitchDef {
        name: name.into(),
        switch_type: SwitchType::default(),
        default: SwitchDefault::default(),
    };
    let trim = |name: &str| TrimDef { name: name.into() };
    RadioDef {
        name: "Radiomaster TX16S".into(),
        wasm: "tx16s.wasm".into(),
        display: DisplayDef { w: 480, h: 272, depth: 16 },
        inputs: vec![
            input("LH"),
            input("LV"),
            input("RV"),
            input("RH"),
            input("P1"),
            input("P2"),
            input("SL1"),
            input("SL2"),
        ],
        switches: vec![
            switch("SA"),
            switch("SB"),
            switch("SC"),
            switch("SD"),
            switch("SE"),
            switch("SF"),
            switch("SG"),
            switch("SH"),
        ],
        trims: vec![trim("T1"), trim("T2"), trim("T3"), trim("T4"), trim("T5"), trim("T6")],
        keys: vec![],
    }
}

fn text(s: &str) -> ScriptValue {
    ScriptValue::Text(s.into())
}

fn constant(table: &[(String, i32)], name: &str) -> i32 {
    table.iter().find(|(n, _)| n == name).map(|(_, i)| *i).unwrap()
}

#[test]
fn test_key_constants() {
    let keys = key_constants(&test_radio());
    assert!(keys.iter().any(|k| k == "MENU"));
    assert!(keys.iter().any(|k| k == "SYS"));
    assert!(keys.iter().any(|k| k == "ENTER"));
    assert_eq!(keys.len(), 14);
}

#[test]
fn test_key_string_arg() {
    let name = resolve_key_name(&text("ENTER")).unwrap();
    assert_eq!(name, "ENTER");
    assert_eq!(key_index(&name), Ok(2));
}

#[test]
fn test_missing_args() {
    assert!(resolve_key_name(&ScriptValue::Other("nil".into())).is_err());
}

#[test]
fn test_invalid_key_name() {
    let err = key_index("BOGUS").unwrap_err();
    assert!(err.contains("unknown key \"BOGUS\""), "got: {err}");
    assert!(err.contains("available:"), "got: {err}");
}

#[test]
fn test_switch() {
    let r = test_radio();
    assert_eq!(resolve_switch_index(&ScriptValue::Integer(0), &r), Ok(0));
    assert_eq!(check_switch_state(-1), Ok(-1));
}

#[test]
fn test_switch_by_name() {
    assert_eq!(resolve_switch_index(&text("SA"), &test_radio()), Ok(0));
    assert_eq!(check_switch_state(1), Ok(1));
}

#[test]
fn test_switch_by_constant() {
    let r = test_radio();
    let sd = constant(&switch_constants(&r), "SD");
    assert_eq!(resolve_switch_index(&ScriptValue::Integer(sd as i64), &r), Ok(3));
    assert_eq!(check_switch_state(0), Ok(0));
}

#[test]
fn test_invalid_switch_state() {
    let err = check_switch_state(5).unwrap_err();
    assert!(err.contains("out of range"), "got: {err}");
}

#[test]
fn test_unknown_switch_name() {
    let err = resolve_switch_index(&text("SZ"), &test_radio()).unwrap_err();
    assert!(err.contains("unknown switch \"SZ\""), "got: {err}");
}

#[test]
fn test_analog() {
    assert_eq!(resolve_input_index(&ScriptValue::Integer(0), &test_radio()), Ok(0));
    assert_eq!(check_analog_value(3000), Ok(3000));
}

#[test]
fn test_analog_by_name() {
    assert_eq!(resolve_input_index(&text("LH"), &test_radio()), Ok(0));
    assert_eq!(check_analog_value(2000), Ok(2000));
}

#[test]
fn test_analog_by_constant() {
    let r = test_radio();
    let rh = constant(&input_constants(&r), "RH");
    assert_eq!(resolve_input_index(&ScriptValue::Integer(rh as i64), &r), Ok(3));
    assert_eq!(check_analog_value(1500), Ok(1500));
}

#[test]
fn test_invalid_analog_value() {
    let err = check_analog_value(5000).unwrap_err();
    assert!(err.contains("out of range"), "got: {err}");
}

#[test]
fn test_unknown_input_name() {
    let err = resolve_input_index(&text("XX"), &test_radio()).unwrap_err();
    assert!(err.contains("unknown input \"XX\""), "got: {err}");
}

#[test]
fn test_trim_down_up() {
    let r = test_radio();
    let t2 = constant(&trim_constants(&r), "T2");
    assert_eq!(resolve_trim_index(&ScriptValue::Integer(t2 as i64), &r), Ok(1));
}

#[test]
fn test_trim_get() {
    assert_eq!(resolve_trim_index(&ScriptValue::Integer(0), &test_radio()), Ok(0));
}

#[test]
fn test_trim_get_by_name() {
    assert_eq!(resolve_trim_index(&text("T1"), &test_radio()), Ok(0));
}

#[test]
fn test_trim_get_by_constant() {
    let r = test_radio();
    let t4 = constant(&trim_constants(&r), "T4");
    assert_eq!(resolve_trim_index(&ScriptValue::Integer(t4 as i64), &r), Ok(3));
}

#[test]
fn test_trim_set_by_name() {
    assert_eq!(resolve_trim_index(&text("T1"), &test_radio()), Ok(0));
}

#[test]
fn test_trim_set_by_constant() {
    let r = test_radio();
    let t2 = constant(&trim_constants(&r), "T2");
    assert_eq!(resolve_trim_index(&ScriptValue::Integer(t2 as i64), &r), Ok(1));
}

#[test]
fn test_unknown_trim_name() {
    let err = resolve_trim_index(&text("Bogus"), &test_radio()).unwrap_err();
    assert!(err.contains("unknown trim \"Bogus\""), "got: {err}");
}
