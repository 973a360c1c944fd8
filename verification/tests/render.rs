use alacritty_web::colors::{Color, Colors, NamedColor, Rgb};
use alacritty_web::gpu::plan_gpu_cells;
use alacritty_web::render::{plan_frame, rgb_key, CellFlags, CursorPaint, RenderCell};

fn flags() -> CellFlags {
    CellFlags {
        bold: false,
        italic: false,
        dim: false,
        hidden: false,
        wide_char: false,
        wide_char_spacer: false,
        underline: false,
        double_underline: false,
        undercurl: false,
        dotted_underline: false,
        dashed_underline: false,
        strikeout: false,
    }
}

fn cell(line: i32, column: usize, c: char) -> RenderCell {
    RenderCell {
        line,
        column,
        c,
        fg: Color::Named(NamedColor::Foreground),
        bg: Color::Named(NamedColor::Background),
        flags: flags(),
        selected: false,
    }
}

const RED: Rgb = Rgb { r: 0xcc, g: 0x66, b: 0x66 };
const FG: Rgb = Rgb { r: 0xc5, g: 0xc8, b: 0xc6 };
const BG: Rgb = Rgb { r: 0x1d, g: 0x1f, b: 0x21 };

#[test]
fn text_runs_coalesce_same_style() {
    let cells = vec![cell(0, 0, 'a'), cell(0, 1, 'b'), cell(0, 2, ' '), cell(0, 3, 'c')];
    let plan = plan_frame(&cells, 2, 5, 0, 1, 0, true, &Colors::new());
    assert_eq!(plan.rows.len(), 2);
    let row = &plan.rows[0];
    assert_eq!(row.texts.len(), 2);
    assert_eq!(row.texts[0].start, 0);
    assert_eq!(row.texts[0].end, 2);
    assert_eq!(row.texts[0].text, vec!['a', 'b']);
    assert_eq!(row.texts[0].fg, FG);
    assert_eq!(row.texts[1].start, 3);
    assert_eq!(row.texts[1].text, vec!['c']);
    assert!(row.backgrounds.is_empty());
    assert!(plan.rows[1].texts.is_empty());
}

#[test]
fn style_change_splits_text_run() {
    let mut b = cell(0, 1, 'b');
    b.flags.bold = true;
    let cells = vec![cell(0, 0, 'a'), b, cell(0, 2, 'c')];
    let plan = plan_frame(&cells, 1, 3, 0, 0, 0, false, &Colors::new());
    let t = &plan.rows[0].texts;
    assert_eq!(t.len(), 3);
    assert!(t[1].bold && !t[0].bold && !t[2].bold);
}

#[test]
fn backgrounds_coalesce_and_count_wide_cells() {
    let mut x = cell(0, 1, 'x');
    x.bg = Color::Indexed(1);
    let mut y = cell(0, 2, 'y');
    y.bg = Color::Indexed(1);
    y.flags.wide_char = true;
    let mut spacer = cell(0, 3, ' ');
    spacer.flags.wide_char_spacer = true;
    spacer.bg = Color::Indexed(1);
    let cells = vec![cell(0, 0, 'a'), x, y, spacer];
    let plan = plan_frame(&cells, 1, 6, 0, 0, 0, true, &Colors::new());
    let bgs = &plan.rows[0].backgrounds;
    assert_eq!(bgs.len(), 1);
    assert_eq!((bgs[0].start, bgs[0].end, bgs[0].wide, bgs[0].color), (1, 3, 1, RED));
}

#[test]
fn selection_inverts_and_dim_blends() {
    let mut s = cell(0, 0, 's');
    s.selected = true;
    let mut d = cell(0, 2, 'd');
    d.flags.dim = true;
    let cells = vec![s, d];
    let plan = plan_frame(&cells, 1, 4, 0, 0, 3, true, &Colors::new());
    let row = &plan.rows[0];
    assert_eq!(row.backgrounds.len(), 1);
    assert_eq!(row.backgrounds[0].color, FG);
    assert_eq!(row.texts[0].fg, BG);
    let blended = Rgb {
        r: ((0xc5u16 + 0x1d) / 2) as u8,
        g: ((0xc8u16 + 0x1f) / 2) as u8,
        b: ((0xc6u16 + 0x21) / 2) as u8,
    };
    assert_eq!(row.texts[1].fg, blended);
}

#[test]
fn decorations_and_hidden_text() {
    let mut u = cell(0, 0, 'u');
    u.flags.undercurl = true;
    let mut v = cell(0, 1, 'v');
    v.flags.underline = true;
    let mut h = cell(0, 2, 'h');
    h.flags.hidden = true;
    h.flags.strikeout = true;
    let mut dd = cell(0, 3, ' ');
    dd.flags.double_underline = true;
    let cells = vec![u, v, h, dd];
    let plan = plan_frame(&cells, 1, 4, 0, 0, 0, true, &Colors::new());
    let row = &plan.rows[0];
    assert_eq!(row.underlines.len(), 1);
    assert_eq!((row.underlines[0].start, row.underlines[0].end), (0, 2));
    assert_eq!(row.strikeouts.len(), 1);
    assert_eq!(row.strikeouts[0].start, 2);
    assert_eq!(row.double_underlines.len(), 1);
    assert_eq!(row.double_underlines[0].start, 3);
    // The hidden glyph is drawn as a space, so it ends the text run.
    assert_eq!(row.texts.len(), 1);
    assert_eq!(row.texts[0].text, vec!['u', 'v']);
}

#[test]
fn scrolled_cells_and_cursor() {
    // Line -1 shifted down by a display offset of 1 lands on row 0.
    let cells = vec![cell(-1, 0, 'q'), cell(5, 0, 'z')];
    let plan = plan_frame(&cells, 2, 2, 1, 0, 0, true, &Colors::new());
    assert_eq!(plan.rows[0].texts[0].text, vec!['q']);
    assert!(plan.rows[1].texts.is_empty());
    // Scrolled back: no cursor.
    assert_eq!(plan.cursor, CursorPaint::Hidden);
}

#[test]
fn cursor_block_hollow_and_palette() {
    let cells = vec![cell(0, 0, 'k')];
    let plan = plan_frame(&cells, 2, 2, 0, 0, 0, true, &Colors::new());
    assert_eq!(plan.cursor, CursorPaint::Block { row: 0, col: 0, color: FG, glyph: Some('k'), glyph_color: BG });
    let plan = plan_frame(&cells, 2, 2, 0, 1, 1, true, &Colors::new());
    assert_eq!(plan.cursor, CursorPaint::Block { row: 1, col: 1, color: FG, glyph: None, glyph_color: BG });
    let mut colors = Colors::new();
    colors.set(NamedColor::Cursor.slot(), Some(RED));
    let plan = plan_frame(&cells, 2, 2, 0, 0, 0, false, &colors);
    assert_eq!(plan.cursor, CursorPaint::Hollow { row: 0, col: 0, color: RED });
    let plan = plan_frame(&cells, 2, 2, 0, 2, 0, true, &colors);
    assert_eq!(plan.cursor, CursorPaint::Hidden);
}

#[test]
fn rgb_keys_pack_channels() {
    assert_eq!(rgb_key(Rgb { r: 1, g: 2, b: 3 }), 0x010203);
}

#[test]
fn gpu_cells() {
    let mut r = cell(0, 1, ' ');
    r.bg = Color::Indexed(1);
    let mut spacer = cell(0, 2, 'w');
    spacer.flags.wide_char_spacer = true;
    let mut b = cell(-2, 3, 'b');
    b.flags.bold = true;
    let cells = vec![cell(0, 0, 'a'), r, spacer, b];
    let frame = plan_gpu_cells(&cells, &Colors::new(), 1, 4);
    let (rects, glyphs) = (&frame.rects, &frame.glyphs);
    let cursor_default = Rgb { r: 0xc5, g: 0xc8, b: 0xc6 };
    assert_eq!(
        (frame.cursor.col, frame.cursor.line, frame.cursor.wide, frame.cursor.color),
        (4, 1, false, cursor_default)
    );
    assert_eq!(rects.len(), 1);
    assert_eq!((rects[0].col, rects[0].line, rects[0].color), (1, 0, RED));
    assert_eq!(glyphs.len(), 2);
    assert_eq!(glyphs[0].key.character, 'a');
    assert!(!glyphs[0].bg_visible);
    assert_eq!((glyphs[1].col, glyphs[1].line), (3, -2));
    assert!(glyphs[1].key.bold);
}

#[test]
fn background_override_clears_the_frame() {
    let x = Rgb { r: 0x10, g: 0x20, b: 0x30 };
    let mut palette = Colors::new();
    palette.set(NamedColor::Background.slot(), Some(x));
    let mut red = cell(0, 2, ' ');
    red.bg = Color::Spec(RED);
    let cells = vec![cell(0, 0, ' '), cell(0, 1, 'a'), red];
    let plan = plan_frame(&cells, 1, 3, 0, 0, 0, true, &palette);
    assert_eq!(plan.clear, x);
    assert_eq!(
        plan.cursor,
        CursorPaint::Block { row: 0, col: 0, color: FG, glyph: None, glyph_color: x }
    );
    // Cells on the default background are covered by the cleared frame.
    let row = &plan.rows[0];
    assert_eq!(row.backgrounds.len(), 1);
    assert_eq!(row.backgrounds[0].start, 2);
    assert_eq!(row.backgrounds[0].color, RED);
    // Without an override the frame is cleared to the default background.
    let plain = plan_frame(&cells, 1, 3, 0, 5, 0, true, &Colors::new());
    assert_eq!(plain.clear, BG);
}
