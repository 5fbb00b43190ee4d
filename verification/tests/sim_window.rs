use edgetx_cli::radio_catalog::{
    InputDef, InputDefault, InputType, KeyDef, KeySide, SwitchDef, SwitchDefault, SwitchType,
};
use edgetx_cli::simulator_ui::audio::AudioControls;
use edgetx_cli::simulator_ui::controls::{
    momentary_switch, multipos_level, push_trace_line, trim_button_index, window_shortcut, BottomPanel,
    BottomTab, HeldButtons, WindowAction, STICK_CENTER, TRACE_LINES_KEPT,
};
use edgetx_cli::simulator_ui::monitors::{
    channel_caption, final_presses, flight_mode_caption, gvar_caption, gvar_text, logical_switch_caption,
    push_button_color, push_button_fill, PUSH_BUTTON_DARK, PUSH_BUTTON_LIT,
};
use edgetx_cli::simulator_ui::panel::{
    extra_trims, initial_input_levels, initial_switch_states, key_button_label_exec, key_columns,
    pot_inputs, slider_columns, stick_axes, stick_trims, switch_buttons, switch_caption_exec,
    switch_columns,
};

fn input(name: &str, t: InputType, label: &str, d: InputDefault) -> InputDef {
    InputDef { name: name.into(), input_type: t, label: label.into(), default: d }
}

fn switch(name: &str, d: SwitchDefault) -> SwitchDef {
    SwitchDef { name: name.into(), switch_type: SwitchType::TwoPos, default: d }
}

fn key(k: &str, label: &str, side: KeySide) -> KeyDef {
    KeyDef { key: k.into(), label: label.into(), side }
}

#[test]
fn keys_split_by_side() {
    let keys = vec![
        key("MENU", "", KeySide::Left),
        key("EXIT", "", KeySide::Right),
        key("ENTER", "", KeySide::Unknown),
        key("SYS", "", KeySide::Right),
    ];
    let (left, right) = key_columns(&keys);
    assert_eq!(left, vec![0, 2]);
    assert_eq!(right, vec![1, 3]);
}

#[test]
fn switches_split_into_columns() {
    let switches = vec![
        switch("SA", SwitchDefault::ThreePos),
        switch("SB", SwitchDefault::NoDefault),
        switch("SC", SwitchDefault::TwoPos),
        switch("SW1", SwitchDefault::TwoPos),
        switch("SD", SwitchDefault::Toggle),
        switch("SW2", SwitchDefault::NoDefault),
        switch("SE", SwitchDefault::ThreePos),
        switch("SF", SwitchDefault::TwoPos),
    ];
    let cols = switch_columns(&switches);
    assert_eq!(cols.left, vec![0, 2]);
    assert_eq!(cols.right, vec![4, 6, 7]);
    assert_eq!(cols.custom, vec![3]);
}

#[test]
fn sliders_take_label_or_name() {
    let inputs = vec![
        input("LH", InputType::Stick, "", InputDefault::AxisX),
        input("SL1", InputType::Flex, "", InputDefault::Slider),
        input("S1", InputType::Flex, "Pot 1", InputDefault::Pot),
        input("SL2", InputType::Flex, "Right", InputDefault::Slider),
        input("SL3", InputType::Stick, "", InputDefault::Slider),
        input("6P", InputType::Flex, "", InputDefault::Multipos),
        input("S2", InputType::Flex, "", InputDefault::PotCenter),
    ];
    let (sliders, left) = slider_columns(&inputs);
    assert_eq!(sliders, vec![(1, "SL1".to_string()), (3, "Right".to_string())]);
    assert_eq!(left, 1);
    assert_eq!(pot_inputs(&inputs), vec![2, 5, 6]);
}

#[test]
fn trims_beside_the_sticks() {
    let t = stick_trims(1);
    assert_eq!((t.left_vertical, t.left_horizontal, t.right_vertical, t.right_horizontal), (None, None, None, None));
    let t = stick_trims(2);
    assert_eq!((t.left_vertical, t.left_horizontal, t.right_vertical, t.right_horizontal), (Some(1), Some(0), None, None));
    let t = stick_trims(6);
    assert_eq!((t.left_vertical, t.left_horizontal, t.right_vertical, t.right_horizontal), (Some(1), Some(0), Some(2), Some(3)));
    assert_eq!(extra_trims(4), Vec::<usize>::new());
    assert_eq!(extra_trims(6), vec![4, 5]);
}

#[test]
fn stick_axes_follow_names() {
    let inputs = vec![
        input("LH", InputType::Stick, "", InputDefault::AxisX),
        input(" lv ", InputType::Stick, "", InputDefault::AxisY),
        input("RV", InputType::Stick, "", InputDefault::AxisY),
        input("RH", InputType::Flex, "", InputDefault::Pot),
        input("Rh", InputType::Stick, "", InputDefault::AxisX),
        input("X", InputType::Stick, "", InputDefault::AxisX),
    ];
    assert_eq!(stick_axes(&inputs), ((0, 1), (4, 2)));
    assert_eq!(stick_axes(&vec![]), ((0, 0), (0, 0)));
}

#[test]
fn initial_states() {
    assert_eq!(initial_switch_states(3), vec![1, 1, 1]);
    let inputs = vec![
        input("LH", InputType::Stick, "", InputDefault::AxisX),
        input("6P", InputType::Flex, "", InputDefault::Multipos),
    ];
    assert_eq!(initial_input_levels(&inputs), vec![2048, 0]);
}

#[test]
fn key_and_switch_captions() {
    assert_eq!(key_button_label_exec(&key("ENTER", " ent\u{23CE} ", KeySide::Left)), "ENT");
    assert_eq!(key_button_label_exec(&key("sys", "", KeySide::Left)), "SYS");
    assert_eq!(switch_caption_exec("SourceSA"), "SA");
    assert_eq!(switch_caption_exec("SB"), "SB");
    let b = switch_buttons(SwitchType::ThreePos);
    assert_eq!(b, vec![(-1, "UP"), (0, "MID"), (1, "DN")]);
    let b = switch_buttons(SwitchType::TwoPos);
    assert_eq!(b, vec![(-1, "UP"), (1, "DN")]);
}

#[test]
fn held_buttons_press_and_release() {
    let mut held = HeldButtons::new();
    assert_eq!(held.pointer(3, true), Some(true));
    assert_eq!(held.pointer(3, true), Some(true));
    assert!(held.is_held(3));
    assert_eq!(held.pointer(3, false), Some(false));
    assert!(!held.is_held(3));
    assert_eq!(held.pointer(3, false), None);
    assert_eq!(trim_button_index(2, false), 4);
    assert_eq!(trim_button_index(2, true), 5);
}

#[test]
fn push_switch_and_multipos() {
    assert_eq!(momentary_switch(-1, true), Some(1));
    assert_eq!(momentary_switch(1, true), None);
    assert_eq!(momentary_switch(1, false), Some(-1));
    assert_eq!(momentary_switch(-1, false), None);
    let levels: Vec<u16> = (0..7).map(multipos_level).collect();
    assert_eq!(levels, vec![0, 819, 1638, 2457, 3276, 4095, 0]);
    assert_eq!(STICK_CENTER, 2048);
}

#[test]
fn bottom_panel_tabs_and_polling() {
    let mut p = BottomPanel::new();
    assert_eq!(p.sync_polling(), None);
    assert_eq!(p.click_tab(BottomTab::Monitors), Some(true));
    assert!(p.is_selected(BottomTab::Monitors));
    assert_eq!(p.sync_polling(), Some(true));
    assert_eq!(p.sync_polling(), None);
    assert_eq!(p.click_tab(BottomTab::Console), None);
    assert!(p.is_selected(BottomTab::Console));
    assert_eq!(p.sync_polling(), Some(false));
    assert_eq!(p.click_tab(BottomTab::Console), Some(false));
    assert!(!p.open);
}

#[test]
fn trace_keeps_last_lines() {
    let mut lines: Vec<String> = Vec::new();
    for i in 0..(TRACE_LINES_KEPT + 5) {
        push_trace_line(&mut lines, format!("line {i}"));
    }
    assert_eq!(lines.len(), TRACE_LINES_KEPT);
    assert_eq!(lines[0], "line 5");
    assert_eq!(lines[TRACE_LINES_KEPT - 1], format!("line {}", TRACE_LINES_KEPT + 4));
}

#[test]
fn window_shortcuts() {
    assert_eq!(window_shortcut("F7"), Some(WindowAction::ReloadScripts));
    assert_eq!(window_shortcut("F8"), Some(WindowAction::Reset));
    assert_eq!(window_shortcut("F9"), Some(WindowAction::Screenshot));
    assert_eq!(window_shortcut("F10"), None);
}

#[test]
fn monitor_captions() {
    assert_eq!(logical_switch_caption(0), "01");
    assert_eq!(logical_switch_caption(63), "64");
    assert_eq!(channel_caption(8), "CH09");
    assert_eq!(gvar_caption(0), "GV1");
    assert_eq!(flight_mode_caption(0), "FM0");
}

#[test]
fn gvar_values_match_decimal_formatting() {
    for v in [-1234, -105, -5, 0, 7, 99, 1000, 1024] {
        assert_eq!(gvar_text(v, 1), format!("{:.1}", v as f64 / 10.0));
        assert_eq!(gvar_text(v, 2), format!("{:.2}", v as f64 / 100.0));
        assert_eq!(gvar_text(v, 0), format!("{}", v));
    }
}

#[test]
fn push_button_colours() {
    assert_eq!(push_button_color(true, 0x12_34_56), (0x12, 0x34, 0x56));
    assert_eq!(push_button_color(true, 0), PUSH_BUTTON_LIT);
    assert_eq!(push_button_color(false, 0xff_ff_ff), PUSH_BUTTON_DARK);
    assert_eq!(push_button_fill(Some((1, 2, 3)), false), (1, 2, 3));
    assert_eq!(push_button_fill(None, true), (56, 191, 249));
    assert_eq!(push_button_fill(None, false), (60, 60, 60));
}

#[test]
fn presses_keep_last_state_per_button() {
    let events = vec![(3, true), (5, true), (3, false), (7, true), (5, false), (5, true)];
    assert_eq!(final_presses(&events), vec![(3, false), (5, true), (7, true)]);
    assert_eq!(final_presses(&vec![]), vec![]);
}

#[test]
fn audio_menu_captions() {
    let mut c = AudioControls::new();
    assert_eq!(c.menu_caption(), "Audio (100%)");
    c.set_volume_level(12);
    assert_eq!(c.menu_caption(), "Audio (52%)");
    assert_eq!(c.volume_caption(), "Volume: 52%");
    c.set_muted(true);
    assert_eq!(c.menu_caption(), "Audio (muted)");
}
