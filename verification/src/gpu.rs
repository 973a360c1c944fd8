//! The cell layout of the GPU backend's frame: one background quad per cell
//! whose background differs from the default, and one textured glyph per
//! cell that draws a character, in the order the terminal lists its cells,
//! and a translucent quad over the cursor.
use vstd::prelude::*;
use crate::atlas::GlyphKey;
use crate::colors::{default_named_color, default_named_spec, resolve_color, resolve_spec, Colors, NamedColor, Rgb};
use crate::render::{is_blank, RenderCell};

verus! {

/// A background quad at a cell, two cells wide for a wide glyph.
#[derive(Clone, Copy, Debug, PartialEq, Eq, Structural)]
pub struct GpuRect {
    pub col: usize,
    pub line: i32,
    pub wide: bool,
    pub color: Rgb,
}

/// A glyph at a cell, with the colours of its cell; `bg_visible` tells
/// whether its background differs from the default one.
#[derive(Clone, Copy, Debug, PartialEq, Eq, Structural)]
pub struct GpuGlyph {
    pub col: usize,
    pub line: i32,
    pub key: GlyphKey,
    pub fg: Rgb,
    pub bg: Rgb,
    pub bg_visible: bool,
}

/// The background quads of a list of cells: every cell but the spacers
/// after wide glyphs whose background is not the default background.
pub open spec fn gpu_rects_spec(cells: Seq<RenderCell>, palette: Seq<Option<Rgb>>) -> Seq<GpuRect>
    decreases cells.len(),
{
    if cells.len() == 0 {
        Seq::empty()
    } else {
        let rest = gpu_rects_spec(cells.drop_last(), palette);
        let c = cells.last();
        let bg = resolve_spec(c.bg, palette);
        if !c.flags.wide_char_spacer && bg != default_named_spec(NamedColor::Background) {
            rest.push(GpuRect { col: c.column, line: c.line, wide: c.flags.wide_char, color: bg })
        } else {
            rest
        }
    }
}

/// The glyphs of a list of cells: every cell but the spacers whose
/// character draws something, keyed by character, bold and italic.
pub open spec fn gpu_glyphs_spec(cells: Seq<RenderCell>, palette: Seq<Option<Rgb>>) -> Seq<GpuGlyph>
    decreases cells.len(),
{
    if cells.len() == 0 {
        Seq::empty()
    } else {
        let rest = gpu_glyphs_spec(cells.drop_last(), palette);
        let c = cells.last();
        let bg = resolve_spec(c.bg, palette);
        if !c.flags.wide_char_spacer && !is_blank(c.c) {
            rest.push(
                GpuGlyph {
                    col: c.column,
                    line: c.line,
                    key: GlyphKey { character: c.c, bold: c.flags.bold, italic: c.flags.italic },
                    fg: resolve_spec(c.fg, palette),
                    bg,
                    bg_visible: bg != default_named_spec(NamedColor::Background),
                },
            )
        } else {
            rest
        }
    }
}

/// What one GPU frame draws: the background quads, then the cursor quad at
/// half opacity, and the glyphs.
#[derive(Debug)]
pub struct GpuFrame {
    pub rects: Vec<GpuRect>,
    pub cursor: GpuRect,
    pub glyphs: Vec<GpuGlyph>,
}

/// The cursor quad: one cell at the cursor's grid line and column, in the
/// default cursor colour.
pub open spec fn gpu_cursor_spec(cursor_line: i32, cursor_col: usize) -> GpuRect {
    GpuRect {
        col: cursor_col,
        line: cursor_line,
        wide: false,
        color: default_named_spec(NamedColor::Cursor),
    }
}

/// Lay out the cells of one GPU frame, with the cursor at grid line
/// `cursor_line`, column `cursor_col`.
pub fn plan_gpu_cells(
    cells: &Vec<RenderCell>,
    palette: &Colors,
    cursor_line: i32,
    cursor_col: usize,
) -> (r: GpuFrame)
    requires
        palette.wf(),
    ensures
        r.rects@ == gpu_rects_spec(cells@, palette@),
        r.glyphs@ == gpu_glyphs_spec(cells@, palette@),
        r.cursor == gpu_cursor_spec(cursor_line, cursor_col),
{
    let default_bg = default_named_color(NamedColor::Background);
    let mut rects: Vec<GpuRect> = Vec::new();
    let mut glyphs: Vec<GpuGlyph> = Vec::new();
    let mut k: usize = 0;
    while k < cells.len()
        invariant
            palette.wf(),
            default_bg == default_named_spec(NamedColor::Background),
            k <= cells@.len(),
            rects@ == gpu_rects_spec(cells@.take(k as int), palette@),
            glyphs@ == gpu_glyphs_spec(cells@.take(k as int), palette@),
        decreases cells@.len() - k,
    {
        proof {
            assert(cells@.take(k + 1).drop_last() =~= cells@.take(k as int));
            assert(cells@.take(k + 1).last() == cells@[k as int]);
        }
        let cell = &cells[k];
        if !cell.flags.wide_char_spacer {
            let fg = resolve_color(&cell.fg, palette);
            let bg = resolve_color(&cell.bg, palette);
            let bg_visible = bg != default_bg;
            if bg_visible {
                rects.push(GpuRect { col: cell.column, line: cell.line, wide: cell.flags.wide_char, color: bg });
            }
            if !(cell.c == ' ' || cell.c == '\t' || cell.c == '\0') {
                glyphs.push(
                    GpuGlyph {
                        col: cell.column,
                        line: cell.line,
                        key: GlyphKey {
                            character: cell.c,
                            bold: cell.flags.bold,
                            italic: cell.flags.italic,
                        },
                        fg,
                        bg,
                        bg_visible,
                    },
                );
            }
        }
        k = k + 1;
    }
    proof {
        assert(cells@.take(cells@.len() as int) =~= cells@);
    }
    let cursor = GpuRect {
        col: cursor_col,
        line: cursor_line,
        wide: false,
        color: default_named_color(NamedColor::Cursor),
    };
    GpuFrame { rects, cursor, glyphs }
}

/// Every background quad covers exactly one cell of the frame: it sits at
/// that cell's column and line, is two cells wide exactly when the cell
/// holds a wide glyph, and has the cell's resolved background colour, which
/// differs from the default background; spacer cells get none. Every glyph
/// likewise draws one cell's character with that cell's bold and italic
/// style and its resolved foreground and background colours.
pub proof fn law_gpu_quads_match_their_cells(cells: Seq<RenderCell>, palette: Seq<Option<Rgb>>)
    ensures
        forall|i: int|
            #![trigger gpu_rects_spec(cells, palette)[i]]
            0 <= i < gpu_rects_spec(cells, palette).len() ==> exists|j: int|
                #![trigger cells[j]]
                0 <= j < cells.len() && {
                    let r = gpu_rects_spec(cells, palette)[i];
                    let c = cells[j];
                    &&& !c.flags.wide_char_spacer
                    &&& r.col == c.column
                    &&& r.line == c.line
                    &&& r.wide == c.flags.wide_char
                    &&& r.color == resolve_spec(c.bg, palette)
                    &&& r.color != default_named_spec(NamedColor::Background)
                },
        forall|i: int|
            #![trigger gpu_glyphs_spec(cells, palette)[i]]
            0 <= i < gpu_glyphs_spec(cells, palette).len() ==> exists|j: int|
                #![trigger cells[j]]
                0 <= j < cells.len() && {
                    let g = gpu_glyphs_spec(cells, palette)[i];
                    let c = cells[j];
                    &&& !c.flags.wide_char_spacer
                    &&& g.col == c.column
                    &&& g.line == c.line
                    &&& g.key.character == c.c
                    &&& g.key.bold == c.flags.bold
                    &&& g.key.italic == c.flags.italic
                    &&& g.fg == resolve_spec(c.fg, palette)
                    &&& g.bg == resolve_spec(c.bg, palette)
                    &&& g.bg_visible == (g.bg != default_named_spec(NamedColor::Background))
                },
    decreases cells.len(),
{
    if cells.len() > 0 {
        let d = cells.drop_last();
        law_gpu_quads_match_their_cells(d, palette);
        let n = cells.len() - 1;
        assert(cells[n] == cells.last());
        assert forall|i: int| #![trigger gpu_rects_spec(cells, palette)[i]] 0 <= i < gpu_rects_spec(cells, palette).len() implies exists|j: int|
            #![trigger cells[j]]
            0 <= j < cells.len() && {
                let r = gpu_rects_spec(cells, palette)[i];
                let c = cells[j];
                &&& !c.flags.wide_char_spacer
                &&& r.col == c.column
                &&& r.line == c.line
                &&& r.wide == c.flags.wide_char
                &&& r.color == resolve_spec(c.bg, palette)
                &&& r.color != default_named_spec(NamedColor::Background)
            } by {
            if i < gpu_rects_spec(d, palette).len() {
                assert(gpu_rects_spec(cells, palette)[i] == gpu_rects_spec(d, palette)[i]);
                let j = choose|j: int| #![trigger d[j]] 0 <= j < d.len() && {
                    let r = gpu_rects_spec(d, palette)[i];
                    let c = d[j];
                    &&& !c.flags.wide_char_spacer
                    &&& r.col == c.column
                    &&& r.line == c.line
                    &&& r.wide == c.flags.wide_char
                    &&& r.color == resolve_spec(c.bg, palette)
                    &&& r.color != default_named_spec(NamedColor::Background)
                };
                assert(d[j] == cells[j]);
            } else {
                assert(cells[n] == cells.last());
            }
        }
        assert forall|i: int| #![trigger gpu_glyphs_spec(cells, palette)[i]] 0 <= i < gpu_glyphs_spec(cells, palette).len() implies exists|j: int|
            #![trigger cells[j]]
            0 <= j < cells.len() && {
                let g = gpu_glyphs_spec(cells, palette)[i];
                let c = cells[j];
                &&& !c.flags.wide_char_spacer
                &&& g.col == c.column
                &&& g.line == c.line
                &&& g.key.character == c.c
                &&& g.key.bold == c.flags.bold
                &&& g.key.italic == c.flags.italic
                &&& g.fg == resolve_spec(c.fg, palette)
                &&& g.bg == resolve_spec(c.bg, palette)
                &&& g.bg_visible == (g.bg != default_named_spec(NamedColor::Background))
            } by {
            if i < gpu_glyphs_spec(d, palette).len() {
                assert(gpu_glyphs_spec(cells, palette)[i] == gpu_glyphs_spec(d, palette)[i]);
                let j = choose|j: int| #![trigger d[j]] 0 <= j < d.len() && {
                    let g = gpu_glyphs_spec(d, palette)[i];
                    let c = d[j];
                    &&& !c.flags.wide_char_spacer
                    &&& g.col == c.column
                    &&& g.line == c.line
                    &&& g.key.character == c.c
                    &&& g.key.bold == c.flags.bold
                    &&& g.key.italic == c.flags.italic
                    &&& g.fg == resolve_spec(c.fg, palette)
                    &&& g.bg == resolve_spec(c.bg, palette)
                    &&& g.bg_visible == (g.bg != default_named_spec(NamedColor::Background))
                };
                assert(d[j] == cells[j]);
            } else {
                assert(cells[n] == cells.last());
            }
        }
    }
}

} // verus!
