use alacritty_web::colors::{
    default_named_color, indexed_color, resolve_color, Color, Colors, NamedColor, Rgb,
};

fn rgb(r: u8, g: u8, b: u8) -> Rgb {
    Rgb { r, g, b }
}

#[test]
fn default_theme_background_and_bright_white() {
    assert_eq!(default_named_color(NamedColor::Background), rgb(0x1d, 0x1f, 0x21));
    assert_eq!(default_named_color(NamedColor::BrightWhite), rgb(0xff, 0xff, 0xff));
    assert_eq!(default_named_color(NamedColor::Cursor), rgb(0xc5, 0xc8, 0xc6));
    // Colours without a theme entry fall back to the foreground grey.
    assert_eq!(default_named_color(NamedColor::DimRed), rgb(0xc5, 0xc8, 0xc6));
}

#[test]
fn indexed_ansi_colors_use_theme() {
    assert_eq!(indexed_color(1), default_named_color(NamedColor::Red));
    assert_eq!(indexed_color(8), rgb(0x96, 0x98, 0x96));
}

#[test]
fn indexed_color_cube() {
    assert_eq!(indexed_color(16), rgb(0, 0, 0));
    assert_eq!(indexed_color(17), rgb(0, 0, 95));
    assert_eq!(indexed_color(196), rgb(255, 0, 0));
    assert_eq!(indexed_color(110), rgb(135, 175, 215));
    assert_eq!(indexed_color(231), rgb(255, 255, 255));
}

#[test]
fn indexed_grey_ramp() {
    assert_eq!(indexed_color(232), rgb(8, 8, 8));
    assert_eq!(indexed_color(244), rgb(128, 128, 128));
    assert_eq!(indexed_color(255), rgb(238, 238, 238));
}

#[test]
fn resolve_prefers_overrides() {
    let mut colors = Colors::new();
    assert_eq!(
        resolve_color(&Color::Named(NamedColor::Foreground), &colors),
        rgb(0xc5, 0xc8, 0xc6)
    );
    colors.set(NamedColor::Foreground.slot(), Some(rgb(1, 2, 3)));
    assert_eq!(resolve_color(&Color::Named(NamedColor::Foreground), &colors), rgb(1, 2, 3));
    colors.set(200, Some(rgb(9, 9, 9)));
    assert_eq!(resolve_color(&Color::Indexed(200), &colors), rgb(9, 9, 9));
    assert_eq!(resolve_color(&Color::Indexed(201), &colors), indexed_color(201));
    assert_eq!(resolve_color(&Color::Spec(rgb(4, 5, 6)), &colors), rgb(4, 5, 6));
}

#[test]
fn ansi_override_shares_indexed_slot() {
    let mut colors = Colors::new();
    colors.set(NamedColor::Red.slot(), Some(rgb(7, 7, 7)));
    assert_eq!(resolve_color(&Color::Indexed(1), &colors), rgb(7, 7, 7));
    assert_eq!(colors.get(1), Some(rgb(7, 7, 7)));
}

#[test]
fn named_slots() {
    assert_eq!(NamedColor::BrightWhite.slot(), 15);
    assert_eq!(NamedColor::Foreground.slot(), 256);
    assert_eq!(NamedColor::Cursor.slot(), 258);
    assert_eq!(NamedColor::DimForeground.slot(), 268);
}
