use edgetx_cli::manifest::{DisplayCapabilities, DisplayFilter, DisplayType, Resolution};
use edgetx_cli::radio_catalog::{find_radio, DisplayDef, RadioDef};
use edgetx_cli::simulator::input::script_key_index;
use edgetx_cli::simulator::script::{parse_duration, parse_script_reader, ScriptCommand, WaitTime};
use edgetx_cli::simulator::{display, framebuffer};

fn lines(input: &str) -> Vec<String> {
    input.lines().map(String::from).collect()
}

// ---- framebuffers ----

#[test]
fn framebuffer_test_decode_mono_empty() {
    let src = vec![0u8; 128 * 8];
    let rgba = framebuffer::decode_mono(&src, 128, 64);
    assert_eq!(rgba.len(), 128 * 64 * 4);
    for i in (0..rgba.len()).step_by(4) {
        assert_eq!(rgba[i], framebuffer::BACKLIGHT_R);
        assert_eq!(rgba[i + 1], framebuffer::BACKLIGHT_G);
        assert_eq!(rgba[i + 2], framebuffer::BACKLIGHT_B);
        assert_eq!(rgba[i + 3], 0xFF);
    }
}

#[test]
fn framebuffer_test_decode_rgb565() {
    let src = vec![0xFF, 0xFF];
    let rgba = framebuffer::decode_rgb565(&src, 1, 1);
    assert_eq!(rgba[0], 0xF8);
    assert_eq!(rgba[1], 0xFC);
    assert_eq!(rgba[2], 0xF8);
    assert_eq!(rgba[3], 0xFF);
}

#[test]
fn framebuffer_test_lcd_buffer_size() {
    let mono = DisplayDef { w: 128, h: 64, depth: 1 };
    assert_eq!(framebuffer::lcd_buffer_size(&mono), 128 * 8);
    let gray = DisplayDef { w: 212, h: 64, depth: 4 };
    assert_eq!(framebuffer::lcd_buffer_size(&gray), 212 * 64 / 2);
    let color = DisplayDef { w: 480, h: 272, depth: 16 };
    assert_eq!(framebuffer::lcd_buffer_size(&color), 480 * 272 * 2);
}

#[test]
fn display_test_decode_mono_empty() {
    let src = vec![0u8; 128 * 8];
    let rgba = display::decode_mono(&src, 128, 64);
    assert_eq!(rgba.len(), 128 * 64 * 4);
    for i in (0..rgba.len()).step_by(4) {
        assert_eq!(rgba[i], 0);
        assert_eq!(rgba[i + 1], 0);
        assert_eq!(rgba[i + 2], 0);
        assert_eq!(rgba[i + 3], 0xFF);
    }
}

#[test]
fn display_test_decode_rgb565() {
    let src = vec![0xFF, 0xFF];
    let rgba = display::decode_rgb565(&src, 1, 1);
    assert_eq!(rgba[0], 0xF8);
    assert_eq!(rgba[1], 0xFC);
    assert_eq!(rgba[2], 0xF8);
    assert_eq!(rgba[3], 0xFF);
}

#[test]
fn display_test_lcd_buffer_size() {
    let mono = DisplayDef { w: 128, h: 64, depth: 1 };
    assert_eq!(display::lcd_buffer_size(&mono), 128 * 8);
    let gray = DisplayDef { w: 212, h: 64, depth: 4 };
    assert_eq!(display::lcd_buffer_size(&gray), 212 * 64 / 2);
    let color = DisplayDef { w: 480, h: 272, depth: 16 };
    assert_eq!(display::lcd_buffer_size(&color), 480 * 272 * 2);
}

#[test]
fn mono_bit_selects_ink_by_row() {
    // 2x9 display: row 1 of column 0 and row 8 of column 1 set.
    let src = vec![0b0000_0010, 0, 0, 0b0000_0001];
    let rgba = framebuffer::decode_mono(&src, 2, 9);
    let px = |x: usize, y: usize| (y * 2 + x) * 4;
    assert_eq!(rgba[px(0, 1)], framebuffer::INK_R);
    assert_eq!(rgba[px(0, 0)], framebuffer::BACKLIGHT_R);
    assert_eq!(rgba[px(1, 8) + 1], framebuffer::INK_G);
    let shown = display::decode_mono(&src, 2, 9);
    assert_eq!(shown[px(0, 1) + 2], display::BACKLIGHT_B);
    assert_eq!(shown[px(1, 1) + 2], 0);
}

#[test]
fn gray_levels_blend_between_backlight_and_ink() {
    // 1x2 display: row 0 level 0 (low nibble, ink), row 1 level 15 (high nibble, backlight).
    let src = vec![0xF0];
    let rgba = framebuffer::decode_gray4(&src, 1, 2);
    assert_eq!(rgba, vec![0x1A, 0x1E, 0x16, 0xFF, 0xC9, 0xCB, 0xBA, 0xFF]);
    assert_eq!(&rgba[0..4], &[framebuffer::INK_R, framebuffer::INK_G, framebuffer::INK_B, 0xFF]);
    assert_eq!(&rgba[4..8], &[framebuffer::BACKLIGHT_R, framebuffer::BACKLIGHT_G, framebuffer::BACKLIGHT_B, 0xFF]);
    // packed in row order, even pixel in the high nibble
    let shown = display::decode_gray4(&[0xF0], 2, 1);
    assert_eq!(&shown[0..4], &[display::BACKLIGHT_R, display::BACKLIGHT_G, display::BACKLIGHT_B, 0xFF]);
    assert_eq!(&shown[4..8], &[0, 0, 0, 0xFF]);
}

#[test]
fn rgb565_channels_and_short_buffer() {
    // pure green 0x07E0 little-endian
    let rgba = framebuffer::decode_rgb565(&[0xE0, 0x07, 0x1F], 2, 1);
    assert_eq!(&rgba[0..4], &[0, 0xFC, 0, 0xFF]);
    assert_eq!(&rgba[4..8], &[0, 0, 0, 0]);
    let d = DisplayDef { w: 1, h: 1, depth: 16 };
    assert_eq!(framebuffer::decode(&[0x1F, 0x00], &d), vec![0, 0, 0xF8, 0xFF]);
    assert_eq!(display::decode_framebuffer(&[0x00, 0xF8], &d), vec![0xF8, 0, 0, 0xFF]);
}

// ---- input and scripts ----

#[test]
fn test_script_key_index() {
    assert_eq!(script_key_index("ENTER"), Some(2));
    assert_eq!(script_key_index("EXIT"), Some(1));
    assert_eq!(script_key_index("MENU"), Some(0));
    assert_eq!(script_key_index("UNKNOWN"), None);
    assert_eq!(script_key_index("KEY_ENTER"), Some(2));
    assert_eq!(script_key_index("KEY_SYS"), Some(13));
    assert_eq!(script_key_index("KEY_UNKNOWN"), None);
}

#[test]
fn test_parse_script() {
    let input = "# Comment\nwait 2s\nkey ENTER press\nwait 500ms\nkey ENTER release\nscreenshot out.png\n";
    let commands = parse_script_reader(&lines(input)).unwrap();
    assert_eq!(commands.len(), 5);
    match &commands[0] {
        ScriptCommand::Wait(d) => assert_eq!(*d, WaitTime::Seconds("2".to_string())),
        _ => panic!("expected Wait"),
    }
    match &commands[1] {
        ScriptCommand::KeyPress(k) => assert_eq!(k, "ENTER"),
        _ => panic!("expected KeyPress"),
    }
    match &commands[4] {
        ScriptCommand::Screenshot(p) => assert_eq!(p, "out.png"),
        _ => panic!("expected Screenshot"),
    }
}

#[test]
fn test_parse_empty_script() {
    let commands = parse_script_reader(&lines("# only comments\n\n")).unwrap();
    assert!(commands.is_empty());
}

#[test]
fn test_parse_invalid_command() {
    let result = parse_script_reader(&lines("invalid_cmd arg\n"));
    assert!(result.is_err());
}

#[test]
fn script_errors_name_the_line() {
    let err = parse_script_reader(&lines("wait 1s\n\nkey A hold\n")).unwrap_err();
    assert_eq!(err, "line 3: key action must be press or release, got \"hold\"");
    let err = parse_script_reader(&lines("  wait   \n")).unwrap_err();
    assert_eq!(err, "line 1: wait requires a duration argument");
    let err = parse_script_reader(&lines("wait soon\n")).unwrap_err();
    assert_eq!(err, "line 1: invalid duration \"soon\"");
    let cmds = parse_script_reader(&lines("key exit RELEASE\n")).unwrap();
    match &cmds[0] {
        ScriptCommand::KeyRelease(k) => assert_eq!(k, "EXIT"),
        _ => panic!("expected KeyRelease"),
    }
}

#[test]
fn durations() {
    assert_eq!(parse_duration("500ms").unwrap(), WaitTime::Millis(500));
    assert_eq!(parse_duration("1.5s").unwrap(), WaitTime::Seconds("1.5".to_string()));
    assert_eq!(parse_duration("2m").unwrap(), WaitTime::Minutes("2".to_string()));
    assert_eq!(parse_duration("1e3s").unwrap(), WaitTime::Seconds("1e3".to_string()));
    assert!(parse_duration("xs").is_err());
    assert!(parse_duration("ms").is_err());
    assert!(parse_duration("5").is_err());
    assert!(parse_duration("1.2.3s").is_err());
}

// ---- catalog ----

fn radio(name: &str, wasm: &str, w: i32, h: i32, depth: i32) -> RadioDef {
    RadioDef {
        name: name.into(),
        wasm: wasm.into(),
        display: DisplayDef { w, h, depth },
        inputs: vec![],
        switches: vec![],
        trims: vec![],
        keys: vec![],
    }
}

fn sample_catalog() -> Vec<RadioDef> {
    vec![radio("TX16S", "tx16s.wasm", 480, 272, 16), radio("Boxer", "boxer.wasm", 128, 64, 1)]
}

#[test]
fn test_find_radio_exact() {
    let catalog = sample_catalog();
    let r = find_radio(&catalog, "TX16S").unwrap();
    assert_eq!(r.name, "TX16S");
}

#[test]
fn test_find_radio_case_insensitive() {
    let catalog = sample_catalog();
    let r = find_radio(&catalog, "tx16s").unwrap();
    assert_eq!(r.name, "TX16S");
}

#[test]
fn test_find_radio_not_found() {
    let catalog = sample_catalog();
    assert!(find_radio(&catalog, "Unknown").is_err());
}

#[test]
fn test_radio_key() {
    let r = radio("TX16S (Mark II)", "tx16s-mkii.wasm", 480, 272, 16);
    assert_eq!(r.key(), "tx16s-mark-ii");
}

#[test]
fn find_radio_by_wasm_substring_and_ambiguity() {
    let catalog = vec![
        radio("Radiomaster TX16S", "tx16s.wasm", 480, 272, 16),
        radio("Radiomaster Boxer", "boxer.wasm", 128, 64, 1),
    ];
    assert_eq!(find_radio(&catalog, "BOXER").unwrap().name, "Radiomaster Boxer");
    assert_eq!(find_radio(&catalog, "radiomaster-tx16s").unwrap().name, "Radiomaster TX16S");
    match find_radio(&catalog, "master") {
        Err(edgetx_cli::error::SimulatorError::AmbiguousRadio { query, matches }) => {
            assert_eq!(query, "master");
            assert_eq!(matches, "Radiomaster TX16S, Radiomaster Boxer");
        }
        _ => panic!("expected AmbiguousRadio"),
    }
    assert!(catalog[0].display.is_color());
    assert!(!catalog[1].display.is_color());
}

// ---- display filters ----

#[test]
fn test_display_filter_matches_color() {
    let filter = DisplayFilter { display_type: Some(DisplayType::ColorLcd), resolution: None, touch: None };
    let radio = DisplayCapabilities { width: 480, height: 272, color: true, touch: Some(true) };
    assert!(filter.matches(&radio));
    let bw_radio = DisplayCapabilities { width: 128, height: 64, color: false, touch: Some(false) };
    assert!(!filter.matches(&bw_radio));
}

#[test]
fn test_display_filter_matches_resolution() {
    let filter = DisplayFilter {
        display_type: Some(DisplayType::Bw),
        resolution: Some(Resolution { width: 128, height: 64 }),
        touch: None,
    };
    let radio_128 = DisplayCapabilities { width: 128, height: 64, color: false, touch: None };
    assert!(filter.matches(&radio_128));
    let radio_212 = DisplayCapabilities { width: 212, height: 64, color: false, touch: None };
    assert!(!filter.matches(&radio_212));
}

#[test]
fn test_display_filter_matches_touch() {
    let filter = DisplayFilter { display_type: Some(DisplayType::ColorLcd), resolution: None, touch: Some(true) };
    let touch_radio = DisplayCapabilities { width: 480, height: 272, color: true, touch: Some(true) };
    assert!(filter.matches(&touch_radio));
    let no_touch = DisplayCapabilities { width: 480, height: 272, color: true, touch: Some(false) };
    assert!(!filter.matches(&no_touch));
}
