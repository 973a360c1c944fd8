use alacritty_web::atlas::{red_channel, AtlasPacker, GlyphCache, GlyphKey, ATLAS_SIZE};

#[test]
fn packer_fills_rows_left_to_right() {
    let mut p = AtlasPacker::new(10, 10);
    assert_eq!(p.allocate(4, 3), Some((0, 0)));
    assert_eq!(p.allocate(4, 2), Some((5, 0)));
    // 10 + 4 > 10: moves to the next row, below the tallest glyph plus a gap.
    assert_eq!(p.allocate(4, 3), Some((0, 4)));
    assert_eq!(p.allocate(5, 5), Some((5, 4)));
    // Next row would start at 4 + 5 + 1 = 10 and needs 1 more pixel.
    assert_eq!(p.allocate(6, 1), None);
}

#[test]
fn packer_reports_full_atlas() {
    let mut p = AtlasPacker::new(8, 4);
    assert_eq!(p.allocate(8, 4), Some((0, 0)));
    assert_eq!(p.allocate(1, 1), None);
}

#[test]
fn packer_places_zero_height_glyph() {
    let mut p = AtlasPacker::new(4, 4);
    assert_eq!(p.allocate(2, 0), Some((0, 0)));
    assert_eq!(p.allocate(1, 4), Some((3, 0)));
}

#[test]
fn red_channel_takes_every_fourth_byte() {
    let rgba = vec![10, 1, 2, 255, 20, 1, 2, 255, 30, 0, 0, 0, 40, 9, 9, 9];
    assert_eq!(red_channel(&rgba, 2, 2), vec![10, 20, 30, 40]);
    assert_eq!(red_channel(&[], 0, 5), Vec::<u8>::new());
}

#[test]
fn glyph_keys_compare_by_value() {
    let a = GlyphKey { character: 'x', bold: true, italic: false };
    let b = GlyphKey { character: 'x', bold: true, italic: false };
    let c = GlyphKey { character: 'x', bold: false, italic: false };
    assert_eq!(a, b);
    assert_ne!(a, c);
}

fn key(character: char, bold: bool) -> GlyphKey {
    GlyphKey { character, bold, italic: false }
}

#[test]
fn glyph_cache_places_each_key_once() {
    let mut c = GlyphCache::new(8, 16);
    assert!(c.can_place());
    assert_eq!(c.get_or_insert(key('a', false)), ((0, 0), true));
    assert_eq!(c.get_or_insert(key('a', false)), ((0, 0), false));
    assert_eq!(c.get_or_insert(key('b', false)), ((9, 0), true));
    // Bold is another glyph.
    assert_eq!(c.get_or_insert(key('a', true)), ((18, 0), true));
    assert_eq!(c.get_or_insert(key('b', false)), ((9, 0), false));
}

#[test]
fn glyph_cache_wraps_rows_and_falls_back_to_origin_when_full() {
    // 1024-pixel glyphs: two per row, rows 1025 pixels apart.
    let mut c = GlyphCache::new(1023, 1023);
    assert_eq!(c.get_or_insert(key('a', false)), ((0, 0), true));
    assert_eq!(c.get_or_insert(key('b', false)), ((1024, 0), true));
    assert_eq!(c.get_or_insert(key('c', false)), ((0, 1024), true));
    assert_eq!(c.get_or_insert(key('d', false)), ((1024, 1024), true));
    // The next row would end past the atlas: the glyph goes to the origin.
    assert_eq!(c.get_or_insert(key('e', false)), ((0, 0), true));
    assert_eq!(c.get_or_insert(key('e', false)), ((0, 0), false));
    assert_eq!(c.get_or_insert(key('c', false)), ((0, 1024), false));
    assert_eq!(ATLAS_SIZE, 2048);
}

#[test]
fn packer_reports_arithmetic_limits() {
    let p = AtlasPacker::new(10, 10);
    assert!(p.fits(4, 4));
    // Too wide for the row: a fresh row at 1, and the cursor ends at u32::MAX.
    assert!(p.fits(u32::MAX - 1, 4));
    // One more and the cursor would pass u32::MAX.
    assert!(!p.fits(u32::MAX, 4));
    let q = AtlasPacker::new(u32::MAX, u32::MAX);
    assert!(q.fits(0, u32::MAX));
    // A fresh row at 1 cannot hold a glyph u32::MAX high.
    let r = AtlasPacker::new(0, u32::MAX);
    assert!(!r.fits(1, u32::MAX));
}
