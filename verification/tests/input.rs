use alacritty_web::colors::{Colors, NamedColor, Rgb};
use alacritty_web::input::{
    apply_palette, palette_readable,
    encode_mouse_report, line_in_grid, mode_bits, mouse_event_reported, palette_entry_splits_char_exec,
    parse_palette_color, paste_payload, push_match, reply_color, search_column,
    trim_trailing_spaces, viewport_line,
};

#[test]
fn sgr_mouse_press_and_release() {
    assert_eq!(encode_mouse_report(1 | 8, 0, 0, 0, 0, 0), Some(b"\x1b[<0;1;1M".to_vec()));
    assert_eq!(encode_mouse_report(1 | 8, 0, 1, 9, 19, 0), Some(b"\x1b[<0;10;20m".to_vec()));
    // shift + ctrl add 4 + 16.
    assert_eq!(encode_mouse_report(1 | 8, 2, 0, 299, 99, 5), Some(b"\x1b[<22;300;100M".to_vec()));
    // Wheel up.
    assert_eq!(encode_mouse_report(1 | 8, 64, 0, 4, 4, 0), Some(b"\x1b[<64;5;5M".to_vec()));
}

#[test]
fn legacy_mouse_encoding() {
    assert_eq!(encode_mouse_report(1, 0, 0, 0, 0, 0), Some(vec![0x1b, b'[', b'M', 32, 33, 33]));
    // Release reports button 3.
    assert_eq!(encode_mouse_report(1, 0, 1, 1, 2, 0), Some(vec![0x1b, b'[', b'M', 35, 34, 35]));
    // Coordinates past 223 cannot be encoded.
    assert_eq!(encode_mouse_report(1, 0, 0, 223, 0, 0), None);
    assert_eq!(encode_mouse_report(1, 0, 0, 222, 222, 0), Some(vec![0x1b, b'[', b'M', 32, 255, 255]));
}

#[test]
fn mouse_motion_gating() {
    // No reporting mode: nothing is reported.
    assert_eq!(encode_mouse_report(0, 0, 0, 0, 0, 0), None);
    assert_eq!(encode_mouse_report(8, 0, 0, 0, 0, 0), None);
    // Click-only reports no motion.
    assert_eq!(encode_mouse_report(1, 0, 2, 0, 0, 0), None);
    // Drag mode ignores motion without a button.
    assert_eq!(encode_mouse_report(2, 3, 2, 0, 0, 0), None);
    assert_eq!(encode_mouse_report(2, 0, 2, 0, 0, 0), Some(vec![0x1b, b'[', b'M', 64, 33, 33]));
    // Motion mode reports buttonless motion.
    assert_eq!(encode_mouse_report(4 | 8, 3, 2, 0, 0, 0), Some(b"\x1b[<35;1;1M".to_vec()));
}

#[test]
fn mouse_event_gate() {
    assert!(!mouse_event_reported(0, 0, 0));
    assert!(!mouse_event_reported(8, 0, 0));
    assert!(mouse_event_reported(1, 0, 0));
    assert!(mouse_event_reported(1, 0, 1));
    assert!(!mouse_event_reported(1, 0, 2));
    assert!(!mouse_event_reported(2, 3, 2));
    assert!(mouse_event_reported(2, 0, 2));
    assert!(mouse_event_reported(4, 3, 2));
    // An event that is not reported is refused before its coordinates are read.
    assert_eq!(encode_mouse_report(1, 0, 2, u16::MAX, u16::MAX, 0), None);
}

#[test]
fn mouse_button_code_saturates() {
    assert_eq!(encode_mouse_report(4 | 8, 250, 2, 0, 0, 7), Some(b"\x1b[<255;1;1M".to_vec()));
}

#[test]
fn paste_wraps_only_when_bracketed() {
    assert_eq!(paste_payload(true, "hi"), b"\x1b[200~hi\x1b[201~".to_vec());
    assert_eq!(paste_payload(false, "hi"), b"hi".to_vec());
    assert_eq!(paste_payload(false, "é"), vec![0xc3, 0xa9]);
}

#[test]
fn mode_bits_pack() {
    assert_eq!(mode_bits(false, false, false, false), 0);
    assert_eq!(mode_bits(true, false, false, true), 9);
    assert_eq!(mode_bits(true, true, true, true), 15);
    assert_eq!(mode_bits(false, true, true, false), 6);
}

#[test]
fn viewport_rows_to_grid_lines() {
    assert_eq!(viewport_line(0, 0), 0);
    assert_eq!(viewport_line(3, 10), -7);
    assert!(line_in_grid(-7, 10, 24));
    assert!(!line_in_grid(-11, 10, 24));
    assert!(!line_in_grid(24, 10, 24));
    assert!(line_in_grid(23, 0, 24));
}

#[test]
fn trailing_spaces_are_trimmed() {
    let mut t: Vec<char> = "  ab  c   ".chars().collect();
    trim_trailing_spaces(&mut t);
    assert_eq!(t.iter().collect::<String>(), "  ab  c");
    let mut u: Vec<char> = "x\t".chars().collect();
    trim_trailing_spaces(&mut u);
    assert_eq!(u.iter().collect::<String>(), "x\t");
}

#[test]
fn search_columns_stay_in_row() {
    assert_eq!(search_column(5, 80), 5);
    assert_eq!(search_column(500, 80), 79);
    assert_eq!(search_column(3, 0), 0);
}

#[test]
fn matches_flatten_to_viewport() {
    let mut out = Vec::new();
    push_match(&mut out, -3, 4, -2, 1, 5);
    assert_eq!(out, vec![2, 4, 3, 1]);
}

#[test]
fn palette_entries() {
    assert_eq!(parse_palette_color("#1d1f21"), Some(Rgb { r: 0x1d, g: 0x1f, b: 0x21 }));
    assert_eq!(parse_palette_color("  ##FFaa00 "), Some(Rgb { r: 255, g: 0xaa, b: 0 }));
    assert_eq!(parse_palette_color("ffffff"), Some(Rgb { r: 255, g: 255, b: 255 }));
    assert_eq!(parse_palette_color("+f+f+f"), Some(Rgb { r: 15, g: 15, b: 15 }));
    assert_eq!(parse_palette_color("#12345"), None);
    assert_eq!(parse_palette_color("#1234567"), None);
    assert_eq!(parse_palette_color("gg0000"), None);
    assert_eq!(parse_palette_color("-10000"), None);
    assert!(!palette_entry_splits_char_exec("#123456"));
    assert!(palette_entry_splits_char_exec("aé123"));
    // A non-hex first pair is refused before the split would matter.
    assert!(!palette_entry_splits_char_exec("zzé12"));
    assert_eq!(parse_palette_color("zzé12"), None);
}

#[test]
fn color_query_replies() {
    let mut colors = Colors::new();
    assert_eq!(reply_color(1, &colors), Rgb { r: 0xcc, g: 0x66, b: 0x66 });
    // Slots 16 to 255 have no named default.
    assert_eq!(reply_color(17, &colors), Rgb { r: 255, g: 255, b: 255 });
    // Foreground, background and cursor queries (OSC 10, 11, 12).
    assert_eq!(reply_color(256, &colors), Rgb { r: 0xc5, g: 0xc8, b: 0xc6 });
    assert_eq!(reply_color(257, &colors), Rgb { r: 0x1d, g: 0x1f, b: 0x21 });
    assert_eq!(reply_color(258, &colors), Rgb { r: 0xc5, g: 0xc8, b: 0xc6 });
    assert_eq!(reply_color(259, &colors), Rgb { r: 255, g: 255, b: 255 });
    colors.set(NamedColor::Background.slot(), Some(Rgb { r: 1, g: 2, b: 3 }));
    assert_eq!(reply_color(257, &colors), Rgb { r: 1, g: 2, b: 3 });
}

fn entry(k: &str, v: Option<&str>) -> (String, Option<String>) {
    (k.to_string(), v.map(|v| v.to_string()))
}

#[test]
fn palette_keys_set_missing_ones_fall_back() {
    let red = Rgb { r: 0x11, g: 0x22, b: 0x33 };
    let mut c = Colors::new();
    // Earlier overrides on foreground, red and slot 20.
    c.set(256, Some(red));
    c.set(1, Some(red));
    c.set(20, Some(red));
    let entries = vec![
        entry("background", Some("#102030")),
        entry("cursor", Some("not a colour")),
        entry("bright_white", None),
        entry("unknown", Some("#ffffff")),
        entry("background", Some("#ffffff")),
    ];
    assert!(palette_readable(&entries));
    c.set(258, Some(red));
    c.set(15, Some(red));
    apply_palette(&mut c, &entries);
    // The first entry for a key counts.
    assert_eq!(c.get(257), Some(Rgb { r: 0x10, g: 0x20, b: 0x30 }));
    // Values that are not colours, or not text, leave the slot alone.
    assert_eq!(c.get(258), Some(red));
    assert_eq!(c.get(15), Some(red));
    // Missing keys fall back to the built-in default.
    assert_eq!(c.get(256), None);
    assert_eq!(c.get(1), None);
    // Slots no key names keep their override.
    assert_eq!(c.get(20), Some(red));
}

#[test]
fn palette_with_split_character_is_unreadable() {
    assert!(!palette_readable(&vec![entry("red", Some("#aé123"))]));
    // Unknown keys are never read.
    assert!(palette_readable(&vec![entry("nope", Some("#aé123"))]));
}
