//! The layout of one frame of the terminal: which cells are drawn with which
//! colours and style, and the runs of backgrounds, text and line decorations
//! that a 2D canvas paints, in cell units. Turning cells into pixels is left
//! to the caller.
use vstd::prelude::*;
use crate::colors::{
    default_named_color, default_named_spec, resolve_color, resolve_spec, rgb, Color, Colors,
    NamedColor, Rgb, named_slot,
};
use crate::runs::{segment, segments, bounds};

verus! {

/// The style flags of a terminal cell that affect drawing.
#[derive(Clone, Copy, Debug, PartialEq, Eq, Structural)]
pub struct CellFlags {
    pub bold: bool,
    pub italic: bool,
    pub dim: bool,
    pub hidden: bool,
    pub wide_char: bool,
    pub wide_char_spacer: bool,
    pub underline: bool,
    pub double_underline: bool,
    pub undercurl: bool,
    pub dotted_underline: bool,
    pub dashed_underline: bool,
    pub strikeout: bool,
}

/// One cell of the terminal's visible content, as the terminal reports it.
/// `line` is the grid line (negative in scrollback); `selected` tells
/// whether the cell lies in the current selection.
#[derive(Clone, Copy, Debug)]
pub struct RenderCell {
    pub line: i32,
    pub column: usize,
    pub c: char,
    pub fg: Color,
    pub bg: Color,
    pub flags: CellFlags,
    pub selected: bool,
}

/// One cell's renderable state after style resolution and selection inversion.
#[derive(Clone, Copy, Debug, PartialEq, Eq, Structural)]
pub struct CellView {
    pub ch: char,
    pub fg: Rgb,
    pub bg: Rgb,
    pub bold: bool,
    pub italic: bool,
    pub wide: bool,
    pub underline: bool,
    pub double_underline: bool,
    pub strikeout: bool,
}

/// A run of adjacent cells `start..end` of a row, painted in one colour.
/// `wide` counts the double-width cells in it, so the run is
/// `end - start + wide` cells wide.
#[derive(Clone, Copy, Debug, PartialEq, Eq, Structural)]
pub struct Run {
    pub start: usize,
    pub end: usize,
    pub wide: usize,
    pub color: Rgb,
}

/// A run of adjacent glyphs of a row drawn with one colour and font style.
#[derive(Debug)]
pub struct TextRun {
    pub start: usize,
    pub end: usize,
    pub text: Vec<char>,
    pub fg: Rgb,
    pub bold: bool,
    pub italic: bool,
}

/// What to paint on one row: background rectangles, then text, then
/// underlines, double underlines and strike-through lines.
#[derive(Debug)]
pub struct RowPlan {
    pub backgrounds: Vec<Run>,
    pub texts: Vec<TextRun>,
    pub underlines: Vec<Run>,
    pub double_underlines: Vec<Run>,
    pub strikeouts: Vec<Run>,
}

/// How to draw the cursor.
#[derive(Clone, Copy, Debug, PartialEq, Eq, Structural)]
pub enum CursorPaint {
    /// The cursor is not on screen.
    Hidden,
    /// A solid block in `color`, with the glyph under it, when there is
    /// one, redrawn in `glyph_color`.
    Block { row: usize, col: usize, color: Rgb, glyph: Option<char>, glyph_color: Rgb },
    /// A one-pixel outline in `color`.
    Hollow { row: usize, col: usize, color: Rgb },
}

/// Everything to paint in one frame, over a canvas cleared to `clear`, the
/// terminal's background colour (its palette override, else the default).
#[derive(Debug)]
pub struct FramePlan {
    pub rows: Vec<RowPlan>,
    pub cursor: CursorPaint,
    pub clear: Rgb,
}

/// The background colour of a frame: the palette's background override,
/// else the default background.
pub open spec fn frame_background(palette: Seq<Option<Rgb>>) -> Rgb {
    resolve_spec(Color::Named(NamedColor::Background), palette)
}

/// A glyph that draws nothing.
pub open spec fn is_blank(c: char) -> bool {
    c == ' ' || c == '\0' || c == '\t'
}

/// The flags that draw a line over a cell.
pub open spec fn decorated(f: CellFlags) -> bool {
    f.underline || f.double_underline || f.dotted_underline || f.dashed_underline || f.undercurl
        || f.strikeout
}

/// Halfway between two colours, channel by channel, rounded down.
pub open spec fn blend(a: Rgb, b: Rgb) -> Rgb {
    Rgb {
        r: ((a.r + b.r) / 2) as u8,
        g: ((a.g + b.g) / 2) as u8,
        b: ((a.b + b.b) / 2) as u8,
    }
}

/// How a cell is drawn: dim text is blended halfway towards the
/// background, hidden text is drawn as a space, a selected cell swaps its
/// foreground and background, and the dotted, dashed and curly underlines
/// are drawn as plain ones.
pub open spec fn view_of(cell: RenderCell, palette: Seq<Option<Rgb>>) -> CellView {
    let fg0 = resolve_spec(cell.fg, palette);
    let bg0 = resolve_spec(cell.bg, palette);
    let fg1 = if cell.flags.dim {
        blend(fg0, bg0)
    } else {
        fg0
    };
    CellView {
        ch: if cell.flags.hidden {
            ' '
        } else {
            cell.c
        },
        fg: if cell.selected {
            bg0
        } else {
            fg1
        },
        bg: if cell.selected {
            fg1
        } else {
            bg0
        },
        bold: cell.flags.bold,
        italic: cell.flags.italic,
        wide: cell.flags.wide_char,
        underline: cell.flags.underline || cell.flags.dotted_underline
            || cell.flags.dashed_underline || cell.flags.undercurl,
        double_underline: cell.flags.double_underline,
        strikeout: cell.flags.strikeout,
    }
}

/// The viewport row of a cell.
pub open spec fn row_of(cell: RenderCell, display_offset: i32) -> int {
    cell.line + display_offset
}

/// Whether a cell lands on the frame's grid: it is not the spacer after a
/// wide glyph, it lies in the viewport, and it shows something that the
/// cleared background does not.
pub open spec fn lands(cell: RenderCell, lines: nat, cols: nat, display_offset: i32) -> bool {
    &&& !cell.flags.wide_char_spacer
    &&& 0 <= row_of(cell, display_offset) < lines
    &&& cell.column < cols
    &&& !(is_blank(cell.c) && cell.bg == Color::Named(NamedColor::Background) && !decorated(
        cell.flags,
    ))
}

/// The frame's grid, row after row: each position holds the view of the
/// last cell that lands there, if any.
pub open spec fn grid_spec(
    cells: Seq<RenderCell>,
    lines: nat,
    cols: nat,
    display_offset: i32,
    palette: Seq<Option<Rgb>>,
) -> Seq<Option<CellView>>
    decreases cells.len(),
{
    if cells.len() == 0 {
        Seq::new(lines * cols, |i: int| None::<CellView>)
    } else {
        let g = grid_spec(cells.drop_last(), lines, cols, display_offset, palette);
        let c = cells.last();
        if lands(c, lines, cols, display_offset) {
            g.update(
                row_of(c, display_offset) * cols + c.column,
                Some(view_of(c, palette)),
            )
        } else {
            g
        }
    }
}

/// A colour as one number: `r << 16 | g << 8 | b`.
pub open spec fn rgb_key_spec(c: Rgb) -> u32 {
    (c.r * 65536 + c.g * 256 + c.b) as u32
}

/// Pack an Rgb into a u32 key. Top byte unused.
pub fn rgb_key(c: Rgb) -> (k: u32)
    ensures
        k == rgb_key_spec(c),
        k < 16777216,
{
    (c.r as u32) * 65536 + (c.g as u32) * 256 + (c.b as u32)
}

/// Different colours have different keys.
pub proof fn lemma_rgb_key_injective(a: Rgb, b: Rgb)
    ensures
        rgb_key_spec(a) == rgb_key_spec(b) <==> a == b,
{
}

/// The key of a cell for the background pass: its background colour, when
/// that is not the default background.
pub open spec fn bg_key(v: Option<CellView>, default_bg: Rgb) -> Option<u32> {
    match v {
        Some(cv) => if cv.bg != default_bg {
            Some(rgb_key_spec(cv.bg))
        } else {
            None
        },
        None => None,
    }
}

/// The key of a cell for the text pass: its foreground colour and font
/// style, when its glyph draws something.
pub open spec fn text_key(v: Option<CellView>) -> Option<u32> {
    match v {
        Some(cv) => if !is_blank(cv.ch) {
            Some(
                (rgb_key_spec(cv.fg) + (if cv.bold {
                    16777216int
                } else {
                    0
                }) + (if cv.italic {
                    33554432int
                } else {
                    0
                })) as u32,
            )
        } else {
            None
        },
        None => None,
    }
}

/// Which line decoration a pass draws.
pub enum LineKind {
    Underline,
    DoubleUnderline,
    Strikeout,
}

/// Whether a cell view carries a line decoration.
pub open spec fn has_line(cv: CellView, kind: LineKind) -> bool {
    match kind {
        LineKind::Underline => cv.underline,
        LineKind::DoubleUnderline => cv.double_underline,
        LineKind::Strikeout => cv.strikeout,
    }
}

/// The key of a cell for a line pass: its foreground colour, when it
/// carries the line.
pub open spec fn line_key(v: Option<CellView>, kind: LineKind) -> Option<u32> {
    match v {
        Some(cv) => if has_line(cv, kind) {
            Some(rgb_key_spec(cv.fg))
        } else {
            None
        },
        None => None,
    }
}

/// The keys of a row for the background pass.
pub open spec fn bg_keys(row: Seq<Option<CellView>>, default_bg: Rgb) -> Seq<Option<u32>> {
    Seq::new(row.len(), |c: int| bg_key(row[c], default_bg))
}

/// The keys of a row for the text pass.
pub open spec fn text_keys(row: Seq<Option<CellView>>) -> Seq<Option<u32>> {
    Seq::new(row.len(), |c: int| text_key(row[c]))
}

/// The keys of a row for a line pass.
pub open spec fn line_keys(row: Seq<Option<CellView>>, kind: LineKind) -> Seq<Option<u32>> {
    Seq::new(row.len(), |c: int| line_key(row[c], kind))
}

/// The view at a position of a row that holds one.
pub open spec fn view_at(row: Seq<Option<CellView>>, c: int) -> CellView {
    match row[c] {
        Some(cv) => cv,
        None => CellView {
            ch: ' ',
            fg: rgb(0, 0, 0),
            bg: rgb(0, 0, 0),
            bold: false,
            italic: false,
            wide: false,
            underline: false,
            double_underline: false,
            strikeout: false,
        },
    }
}

/// The number of double-width cells among `row[start..end]`.
pub open spec fn count_wide(row: Seq<Option<CellView>>, start: int, end: int) -> nat
    decreases end - start,
{
    if end <= start {
        0
    } else {
        count_wide(row, start, end - 1) + if row[end - 1] matches Some(cv) && cv.wide {
            1nat
        } else {
            0nat
        }
    }
}

/// The bounds of runs, as integers.
pub open spec fn run_bounds(runs: Seq<Run>) -> Seq<(int, int)> {
    runs.map_values(|r: Run| (r.start as int, r.end as int))
}

/// The bounds of text runs, as integers.
pub open spec fn text_bounds(runs: Seq<TextRun>) -> Seq<(int, int)> {
    runs.map_values(|r: TextRun| (r.start as int, r.end as int))
}

/// `runs` are the maximal runs of `keys`, each with its count of wide cells
/// and the foreground (or background) colour of its first cell.
pub open spec fn runs_ok(
    row: Seq<Option<CellView>>,
    keys: Seq<Option<u32>>,
    runs: Seq<Run>,
    use_bg: bool,
) -> bool {
    &&& segments(keys, run_bounds(runs))
    &&& forall|i: int|
        0 <= i < runs.len() ==> {
            let r = #[trigger] runs[i];
            &&& r.wide == count_wide(row, r.start as int, r.end as int)
            &&& r.color == if use_bg {
                view_at(row, r.start as int).bg
            } else {
                view_at(row, r.start as int).fg
            }
        }
}

/// What one row paints: its background runs, its text runs with their
/// glyphs, and its three kinds of line runs.
pub open spec fn row_plan_ok(row: Seq<Option<CellView>>, default_bg: Rgb, plan: RowPlan) -> bool {
    &&& runs_ok(row, bg_keys(row, default_bg), plan.backgrounds@, true)
    &&& segments(text_keys(row), text_bounds(plan.texts@))
    &&& forall|i: int|
        0 <= i < plan.texts@.len() ==> {
            let t = #[trigger] plan.texts@[i];
            let first = view_at(row, t.start as int);
            &&& t.text@ == Seq::new(
                (t.end - t.start) as nat,
                |k: int| view_at(row, t.start + k).ch,
            )
            &&& t.fg == first.fg
            &&& t.bold == first.bold
            &&& t.italic == first.italic
        }
    &&& runs_ok(row, line_keys(row, LineKind::Underline), plan.underlines@, false)
    &&& runs_ok(row, line_keys(row, LineKind::DoubleUnderline), plan.double_underlines@, false)
    &&& runs_ok(row, line_keys(row, LineKind::Strikeout), plan.strikeouts@, false)
}

/// The drawing state of a cell.
pub fn cell_view(cell: &RenderCell, palette: &Colors) -> (v: CellView)
    requires
        palette.wf(),
    ensures
        v == view_of(*cell, palette@),
{
    let mut fg = resolve_color(&cell.fg, palette);
    let mut bg = resolve_color(&cell.bg, palette);
    // Dim: lerp the foreground halfway toward the background.
    if cell.flags.dim {
        fg = Rgb {
            r: ((fg.r as u16 + bg.r as u16) / 2) as u8,
            g: ((fg.g as u16 + bg.g as u16) / 2) as u8,
            b: ((fg.b as u16 + bg.b as u16) / 2) as u8,
        };
    }
    // Hidden cells render as if the glyph were a space.
    let glyph = if cell.flags.hidden {
        ' '
    } else {
        cell.c
    };
    // Invert fg/bg for selected cells.
    if cell.selected {
        let t = fg;
        fg = bg;
        bg = t;
    }
    CellView {
        ch: glyph,
        fg,
        bg,
        bold: cell.flags.bold,
        italic: cell.flags.italic,
        wide: cell.flags.wide_char,
        underline: cell.flags.underline || cell.flags.dotted_underline
            || cell.flags.dashed_underline || cell.flags.undercurl,
        double_underline: cell.flags.double_underline,
        strikeout: cell.flags.strikeout,
    }
}

/// The number of double-width cells among `row[start..end]`.
fn wide_cells(row: &Vec<Option<CellView>>, start: usize, end: usize) -> (n: usize)
    requires
        start <= end <= row@.len(),
    ensures
        n == count_wide(row@, start as int, end as int),
{
    let mut n: usize = 0;
    let mut c: usize = start;
    while c < end
        invariant
            start <= c <= end <= row@.len(),
            n == count_wide(row@, start as int, c as int),
            n <= c - start,
        decreases end - c,
    {
        match row[c] {
            Some(cv) => {
                if cv.wide {
                    n = n + 1;
                }
            },
            None => {},
        }
        c = c + 1;
    }
    n
}

/// The view at a position of a row that holds one.
fn view_at_exec(row: &Vec<Option<CellView>>, c: usize) -> (v: CellView)
    requires
        c < row@.len(),
    ensures
        v == view_at(row@, c as int),
{
    match row[c] {
        Some(cv) => cv,
        None => CellView {
            ch: ' ',
            fg: Rgb { r: 0, g: 0, b: 0 },
            bg: Rgb { r: 0, g: 0, b: 0 },
            bold: false,
            italic: false,
            wide: false,
            underline: false,
            double_underline: false,
            strikeout: false,
        },
    }
}

/// The maximal runs of `keys` over `row`, each coloured by the background
/// (or foreground) of its first cell.
fn color_runs(row: &Vec<Option<CellView>>, keys: &Vec<Option<u32>>, use_bg: bool) -> (runs: Vec<
    Run,
>)
    requires
        keys@.len() == row@.len(),
    ensures
        runs_ok(row@, keys@, runs@, use_bg),
{
    let spans = segment(keys);
    let mut runs: Vec<Run> = Vec::new();
    let mut i: usize = 0;
    while i < spans.len()
        invariant
            keys@.len() == row@.len(),
            segments(keys@, bounds(spans@)),
            i <= spans@.len(),
            runs@.len() == i,
            forall|a: int|
                0 <= a < i ==> (#[trigger] runs@[a]).start == spans@[a].start && runs@[a].end
                    == spans@[a].end,
            forall|a: int|
                0 <= a < i ==> {
                    let r = #[trigger] runs@[a];
                    &&& r.wide == count_wide(row@, r.start as int, r.end as int)
                    &&& r.color == if use_bg {
                        view_at(row@, r.start as int).bg
                    } else {
                        view_at(row@, r.start as int).fg
                    }
                },
        decreases spans@.len() - i,
    {
        let sp = spans[i];
        proof {
            assert(bounds(spans@)[i as int] == (sp.start as int, sp.end as int));
        }
        let wide = wide_cells(row, sp.start, sp.end);
        let first = view_at_exec(row, sp.start);
        let color = if use_bg {
            first.bg
        } else {
            first.fg
        };
        runs.push(Run { start: sp.start, end: sp.end, wide, color });
        i = i + 1;
    }
    proof {
        assert(run_bounds(runs@) =~= bounds(spans@));
    }
    runs
}

/// The glyphs of `row[start..end]`.
fn glyphs(row: &Vec<Option<CellView>>, start: usize, end: usize) -> (text: Vec<char>)
    requires
        start <= end <= row@.len(),
    ensures
        text@ == Seq::new((end - start) as nat, |k: int| view_at(row@, start + k).ch),
{
    let mut text: Vec<char> = Vec::new();
    let mut c: usize = start;
    while c < end
        invariant
            start <= c <= end <= row@.len(),
            text@ == Seq::new((c - start) as nat, |k: int| view_at(row@, start + k).ch),
        decreases end - c,
    {
        let v = view_at_exec(row, c);
        text.push(v.ch);
        c = c + 1;
        assert(text@ =~= Seq::new((c - start) as nat, |k: int| view_at(row@, start + k).ch));
    }
    text
}

/// The text runs of a row: maximal runs of drawable glyphs sharing
/// foreground colour and font style.
fn text_runs(row: &Vec<Option<CellView>>) -> (runs: Vec<TextRun>)
    ensures
        segments(text_keys(row@), text_bounds(runs@)),
        forall|i: int|
            0 <= i < runs@.len() ==> {
                let t = #[trigger] runs@[i];
                let first = view_at(row@, t.start as int);
                &&& t.text@ == Seq::new(
                    (t.end - t.start) as nat,
                    |k: int| view_at(row@, t.start + k).ch,
                )
                &&& t.fg == first.fg
                &&& t.bold == first.bold
                &&& t.italic == first.italic
            },
{
    let mut keys: Vec<Option<u32>> = Vec::new();
    let mut c: usize = 0;
    while c < row.len()
        invariant
            c <= row@.len(),
            keys@ == Seq::new(c as nat, |k: int| text_key(row@[k])),
        decreases row@.len() - c,
    {
        let key = match row[c] {
            Some(cv) => if cv.ch != ' ' && cv.ch != '\0' && cv.ch != '\t' {
                let k = rgb_key(cv.fg) + (if cv.bold {
                    16777216u32
                } else {
                    0
                }) + (if cv.italic {
                    33554432u32
                } else {
                    0
                });
                Some(k)
            } else {
                None
            },
            None => None,
        };
        keys.push(key);
        c = c + 1;
        assert(keys@ =~= Seq::new(c as nat, |k: int| text_key(row@[k])));
    }
    assert(keys@ =~= text_keys(row@));
    let spans = segment(&keys);
    let mut runs: Vec<TextRun> = Vec::new();
    let mut i: usize = 0;
    while i < spans.len()
        invariant
            keys@ == text_keys(row@),
            keys@.len() == row@.len(),
            segments(keys@, bounds(spans@)),
            i <= spans@.len(),
            runs@.len() == i,
            forall|a: int|
                0 <= a < i ==> (#[trigger] runs@[a]).start == spans@[a].start && runs@[a].end
                    == spans@[a].end,
            forall|a: int|
                0 <= a < i ==> {
                    let t = #[trigger] runs@[a];
                    let first = view_at(row@, t.start as int);
                    &&& t.text@ == Seq::new(
                        (t.end - t.start) as nat,
                        |k: int| view_at(row@, t.start + k).ch,
                    )
                    &&& t.fg == first.fg
                    &&& t.bold == first.bold
                    &&& t.italic == first.italic
                },
        decreases spans@.len() - i,
    {
        let sp = spans[i];
        proof {
            assert(bounds(spans@)[i as int] == (sp.start as int, sp.end as int));
        }
        let text = glyphs(row, sp.start, sp.end);
        let first = view_at_exec(row, sp.start);
        runs.push(
            TextRun {
                start: sp.start,
                end: sp.end,
                text,
                fg: first.fg,
                bold: first.bold,
                italic: first.italic,
            },
        );
        i = i + 1;
    }
    proof {
        assert(text_bounds(runs@) =~= bounds(spans@));
    }
    runs
}

/// The keys of a row for the background pass.
fn background_keys(row: &Vec<Option<CellView>>, default_bg: Rgb) -> (keys: Vec<Option<u32>>)
    ensures
        keys@ == bg_keys(row@, default_bg),
{
    let mut keys: Vec<Option<u32>> = Vec::new();
    let mut c: usize = 0;
    while c < row.len()
        invariant
            c <= row@.len(),
            keys@ == Seq::new(c as nat, |k: int| bg_key(row@[k], default_bg)),
        decreases row@.len() - c,
    {
        let key = match row[c] {
            Some(cv) => if cv.bg != default_bg {
                Some(rgb_key(cv.bg))
            } else {
                None
            },
            None => None,
        };
        keys.push(key);
        c = c + 1;
        assert(keys@ =~= Seq::new(c as nat, |k: int| bg_key(row@[k], default_bg)));
    }
    keys
}

/// The keys of a row for one line pass.
fn decoration_keys(row: &Vec<Option<CellView>>, kind: LineKind) -> (keys: Vec<Option<u32>>)
    ensures
        keys@ == line_keys(row@, kind),
{
    let mut keys: Vec<Option<u32>> = Vec::new();
    let mut c: usize = 0;
    while c < row.len()
        invariant
            c <= row@.len(),
            keys@ == Seq::new(c as nat, |k: int| line_key(row@[k], kind)),
        decreases row@.len() - c,
    {
        let key = match row[c] {
            Some(cv) => {
                let on = match kind {
                    LineKind::Underline => cv.underline,
                    LineKind::DoubleUnderline => cv.double_underline,
                    LineKind::Strikeout => cv.strikeout,
                };
                if on {
                    Some(rgb_key(cv.fg))
                } else {
                    None
                }
            },
            None => None,
        };
        keys.push(key);
        c = c + 1;
        assert(keys@ =~= Seq::new(c as nat, |k: int| line_key(row@[k], kind)));
    }
    keys
}

/// What one row of the grid paints.
pub fn plan_row(row: &Vec<Option<CellView>>, default_bg: Rgb) -> (plan: RowPlan)
    ensures
        row_plan_ok(row@, default_bg, plan),
{
    let bgk = background_keys(row, default_bg);
    let backgrounds = color_runs(row, &bgk, true);
    let texts = text_runs(row);
    let uk = decoration_keys(row, LineKind::Underline);
    let underlines = color_runs(row, &uk, false);
    let dk = decoration_keys(row, LineKind::DoubleUnderline);
    let double_underlines = color_runs(row, &dk, false);
    let sk = decoration_keys(row, LineKind::Strikeout);
    let strikeouts = color_runs(row, &sk, false);
    RowPlan { backgrounds, texts, underlines, double_underlines, strikeouts }
}

/// The colour of the cursor: its palette override, else the default.
pub open spec fn cursor_color_spec(palette: Seq<Option<Rgb>>) -> Rgb {
    match palette[named_slot(NamedColor::Cursor)] {
        Some(c) => c,
        None => default_named_spec(NamedColor::Cursor),
    }
}

/// How the cursor is drawn: only when the viewport shows the bottom of the
/// scrollback and the cursor's line is on screen; as a solid block that
/// redraws the glyph under it in the frame's background colour when the
/// canvas has focus, else as an outline.
pub open spec fn cursor_spec(
    display_offset: i32,
    cursor_line: i32,
    cursor_col: usize,
    lines: nat,
    cols: nat,
    focused: bool,
    palette: Seq<Option<Rgb>>,
    grid: Seq<Option<CellView>>,
) -> CursorPaint {
    if display_offset != 0 || cursor_line < 0 || cursor_line >= lines {
        CursorPaint::Hidden
    } else if focused {
        let glyph = if cursor_col < cols {
            match grid[cursor_line * cols + cursor_col] {
                Some(cv) => if cv.ch != ' ' && cv.ch != '\0' {
                    Some(cv.ch)
                } else {
                    None
                },
                None => None,
            }
        } else {
            None
        };
        CursorPaint::Block {
            row: cursor_line as usize,
            col: cursor_col,
            color: cursor_color_spec(palette),
            glyph,
            glyph_color: frame_background(palette),
        }
    } else {
        CursorPaint::Hollow {
            row: cursor_line as usize,
            col: cursor_col,
            color: cursor_color_spec(palette),
        }
    }
}

/// The cells of grid row `r`.
pub open spec fn grid_row(grid: Seq<Option<CellView>>, r: int, cols: nat) -> Seq<Option<CellView>> {
    grid.subrange(r * cols, r * cols + cols)
}

proof fn lemma_row_bound(r: int, lines: int, cols: int)
    requires
        0 <= r < lines,
        0 <= cols,
    ensures
        0 <= r * cols,
        r * cols + cols <= lines * cols,
{
    assert(0 <= r * cols) by (nonlinear_arith)
        requires
            0 <= r,
            0 <= cols,
    ;
    assert(r * cols + cols <= lines * cols) by (nonlinear_arith)
        requires
            r < lines,
            0 <= cols,
    ;
}

proof fn lemma_cell_index(r: int, c: int, lines: int, cols: int)
    requires
        0 <= r < lines,
        0 <= c < cols,
    ensures
        0 <= r * cols + c < lines * cols,
        r * cols + cols <= lines * cols,
{
    assert(0 <= r * cols) by (nonlinear_arith)
        requires
            0 <= r,
            0 <= cols,
    ;
    assert(r * cols + cols <= lines * cols) by (nonlinear_arith)
        requires
            r < lines,
            0 <= cols,
    ;
}

/// Whether the viewport row of every cell, and of the cursor, is an `i32`.
pub open spec fn rows_fit(cells: Seq<RenderCell>, display_offset: i32) -> bool {
    forall|i: int|
        0 <= i < cells.len() ==> i32::MIN <= #[trigger] row_of(cells[i], display_offset)
            <= i32::MAX
}

/// Place the visible cells on the frame's grid, row after row.
pub fn build_grid(
    cells: &Vec<RenderCell>,
    lines: usize,
    cols: usize,
    display_offset: i32,
    palette: &Colors,
) -> (grid: Vec<Option<CellView>>)
    requires
        palette.wf(),
        lines * cols <= usize::MAX,
        rows_fit(cells@, display_offset),
    ensures
        grid@ == grid_spec(cells@, lines as nat, cols as nat, display_offset, palette@),
        grid@.len() == lines * cols,
{
    let size = lines * cols;
    let mut grid: Vec<Option<CellView>> = Vec::with_capacity(size);
    let mut i: usize = 0;
    while i < size
        invariant
            i <= size,
            grid@ == Seq::new(i as nat, |k: int| None::<CellView>),
        decreases size - i,
    {
        grid.push(None);
        i = i + 1;
        assert(grid@ =~= Seq::new(i as nat, |k: int| None::<CellView>));
    }
    let mut k: usize = 0;
    while k < cells.len()
        invariant
            palette.wf(),
            size == lines * cols,
            rows_fit(cells@, display_offset),
            k <= cells@.len(),
            grid@ == grid_spec(cells@.take(k as int), lines as nat, cols as nat, display_offset, palette@),
            grid@.len() == size,
        decreases cells@.len() - k,
    {
        proof {
            assert(cells@.take(k + 1).drop_last() =~= cells@.take(k as int));
            assert(cells@.take(k + 1).last() == cells@[k as int]);
            assert(i32::MIN <= row_of(cells@[k as int], display_offset) <= i32::MAX);
        }
        let cell = &cells[k];
        if !cell.flags.wide_char_spacer {
            let row = cell.line + display_offset;
            if row >= 0 && (row as usize) < lines && cell.column < cols {
                // Skip cells that look exactly like the cleared background.
                let blank = cell.c == ' ' || cell.c == '\0' || cell.c == '\t';
                let default_bg = cell.bg == Color::Named(NamedColor::Background);
                let f = cell.flags;
                let decorated = f.underline || f.double_underline || f.dotted_underline
                    || f.dashed_underline || f.undercurl || f.strikeout;
                if !(blank && default_bg && !decorated) {
                    proof {
                        lemma_cell_index(row as int, cell.column as int, lines as int, cols as int);
                    }
                    let idx = (row as usize) * cols + cell.column;
                    let v = cell_view(cell, palette);
                    grid.set(idx, Some(v));
                }
            }
        }
        k = k + 1;
    }
    proof {
        assert(cells@.take(cells@.len() as int) =~= cells@);
    }
    grid
}

/// The cells of grid row `r`.
fn copy_row(grid: &Vec<Option<CellView>>, r: usize, cols: usize) -> (row: Vec<Option<CellView>>)
    requires
        0 <= r * cols,
        r * cols + cols <= grid@.len(),
    ensures
        row@ == grid_row(grid@, r as int, cols as nat),
{
    let glen = grid.len();
    let base = r * cols;
    let mut row: Vec<Option<CellView>> = Vec::with_capacity(cols);
    let mut c: usize = 0;
    while c < cols
        invariant
            base == r * cols,
            glen == grid@.len(),
            base + cols <= grid@.len(),
            c <= cols,
            row@ == grid@.subrange(base as int, base + c),
        decreases cols - c,
    {
        row.push(grid[base + c]);
        c = c + 1;
        assert(row@ =~= grid@.subrange(base as int, base + c));
    }
    row
}

/// Lay out one frame: the grid's rows with what each paints, and the cursor.
/// `display_offset` is how far the viewport is scrolled back; the cursor is
/// at grid line `cursor_line`, column `cursor_col`.
pub fn plan_frame(
    cells: &Vec<RenderCell>,
    lines: usize,
    cols: usize,
    display_offset: i32,
    cursor_line: i32,
    cursor_col: usize,
    focused: bool,
    palette: &Colors,
) -> (plan: FramePlan)
    requires
        palette.wf(),
        lines * cols <= usize::MAX,
        rows_fit(cells@, display_offset),
    ensures
        ({
            let grid = grid_spec(cells@, lines as nat, cols as nat, display_offset, palette@);
            &&& plan.clear == frame_background(palette@)
            &&& plan.rows@.len() == lines
            &&& forall|r: int|
                0 <= r < lines ==> row_plan_ok(
                    grid_row(grid, r, cols as nat),
                    frame_background(palette@),
                    #[trigger] plan.rows@[r],
                )
            &&& plan.cursor == cursor_spec(
                display_offset,
                cursor_line,
                cursor_col,
                lines as nat,
                cols as nat,
                focused,
                palette@,
                grid,
            )
        }),
{
    let grid = build_grid(cells, lines, cols, display_offset, palette);
    let default_bg = resolve_color(&Color::Named(NamedColor::Background), palette);
    let mut rows: Vec<RowPlan> = Vec::with_capacity(lines);
    let mut r: usize = 0;
    while r < lines
        invariant
            r <= lines,
            grid@.len() == lines * cols,
            default_bg == frame_background(palette@),
            palette.wf(),
            rows@.len() == r,
            forall|q: int|
                0 <= q < r ==> row_plan_ok(
                    grid_row(grid@, q, cols as nat),
                    default_bg,
                    #[trigger] rows@[q],
                ),
        decreases lines - r,
    {
        proof {
            lemma_row_bound(r as int, lines as int, cols as int);
        }
        let row = copy_row(&grid, r, cols);
        let p = plan_row(&row, default_bg);
        rows.push(p);
        r = r + 1;
    }
    let cursor = if display_offset != 0 || cursor_line < 0 || (cursor_line as usize) >= lines {
        CursorPaint::Hidden
    } else {
        proof {
            palette.lemma_wf();
        }
        let color = match palette.get(NamedColor::Cursor.slot()) {
            Some(c) => c,
            None => default_named_color(NamedColor::Cursor),
        };
        let row = cursor_line as usize;
        if focused {
            let glyph = if cursor_col < cols {
                proof {
                    lemma_cell_index(row as int, cursor_col as int, lines as int, cols as int);
                }
                match grid[row * cols + cursor_col] {
                    Some(cv) => if cv.ch != ' ' && cv.ch != '\0' {
                        Some(cv.ch)
                    } else {
                        None
                    },
                    None => None,
                }
            } else {
                None
            };
            CursorPaint::Block { row, col: cursor_col, color, glyph, glyph_color: default_bg }
        } else {
            CursorPaint::Hollow { row, col: cursor_col, color }
        }
    };
    FramePlan { rows, cursor, clear: default_bg }
}

/// Two cells with the same text key look alike: both draw a glyph, in the
/// same foreground colour and the same bold and italic style.
proof fn lemma_text_key_style(a: Option<CellView>, b: Option<CellView>)
    requires
        text_key(a) is Some,
        text_key(a) == text_key(b),
    ensures
        a is Some && b is Some,
        !is_blank(a->0.ch) && !is_blank(b->0.ch),
        a->0.fg == b->0.fg,
        a->0.bold == b->0.bold,
        a->0.italic == b->0.italic,
{
    let x = a->0;
    let y = b->0;
    let kx = rgb_key_spec(x.fg) + (if x.bold { 16777216int } else { 0 }) + (if x.italic {
        33554432int
    } else {
        0
    });
    let ky = rgb_key_spec(y.fg) + (if y.bold { 16777216int } else { 0 }) + (if y.italic {
        33554432int
    } else {
        0
    });
    assert(rgb_key_spec(x.fg) < 16777216 && rgb_key_spec(y.fg) < 16777216);
    assert(kx as u32 == kx && ky as u32 == ky);
    assert(kx == ky);
    lemma_rgb_key_injective(x.fg, y.fg);
}

/// Every glyph of a text run is drawn as the run draws it: each cell of a
/// run shows a glyph, in the run's foreground colour and with the run's bold
/// and italic style, and the run's text is the cells' glyphs in order.
pub proof fn law_text_runs_share_style(row: Seq<Option<CellView>>, default_bg: Rgb, plan: RowPlan)
    requires
        row_plan_ok(row, default_bg, plan),
    ensures
        forall|i: int, k: int|
            0 <= i < plan.texts@.len() && plan.texts@[i].start <= k < plan.texts@[i].end ==> {
                let t = #[trigger] plan.texts@[i];
                let v = #[trigger] row[k];
                &&& v is Some
                &&& !is_blank(v->0.ch)
                &&& v->0.fg == t.fg
                &&& v->0.bold == t.bold
                &&& v->0.italic == t.italic
                &&& t.text@[k - t.start] == v->0.ch
            },
{
    let keys = text_keys(row);
    let sp = text_bounds(plan.texts@);
    assert forall|i: int, k: int|
        0 <= i < plan.texts@.len() && plan.texts@[i].start <= k < plan.texts@[i].end implies {
            let t = #[trigger] plan.texts@[i];
            let v = #[trigger] row[k];
            &&& v is Some
            &&& !is_blank(v->0.ch)
            &&& v->0.fg == t.fg
            &&& v->0.bold == t.bold
            &&& v->0.italic == t.italic
            &&& t.text@[k - t.start] == v->0.ch
        } by {
        let t = plan.texts@[i];
        assert(sp[i] == (t.start as int, t.end as int));
        assert(0 <= sp[i].0 < sp[i].1 <= keys.len());
        assert(keys[k] is Some && keys[k] == keys[sp[i].0]);
        assert(keys[k] == text_key(row[k]));
        assert(keys[t.start as int] == text_key(row[t.start as int]));
        lemma_text_key_style(row[k], row[t.start as int]);
        assert(t.text@[k - t.start] == view_at(row, t.start + (k - t.start)).ch);
    }
}

/// Every cell of a background run shows the run's colour, which is not the
/// frame's background, and every cell of a line run carries that line, in
/// the run's colour.
pub proof fn law_color_runs_uniform(row: Seq<Option<CellView>>, default_bg: Rgb, plan: RowPlan)
    requires
        row_plan_ok(row, default_bg, plan),
    ensures
        forall|i: int, k: int|
            0 <= i < plan.backgrounds@.len() && plan.backgrounds@[i].start <= k
                < plan.backgrounds@[i].end ==> {
                let r = #[trigger] plan.backgrounds@[i];
                let v = #[trigger] row[k];
                &&& v is Some
                &&& v->0.bg == r.color
                &&& r.color != default_bg
            },
        forall|i: int, k: int|
            0 <= i < plan.underlines@.len() && plan.underlines@[i].start <= k
                < plan.underlines@[i].end ==> {
                let r = #[trigger] plan.underlines@[i];
                let v = #[trigger] row[k];
                &&& v is Some
                &&& v->0.underline
                &&& v->0.fg == r.color
            },
        forall|i: int, k: int|
            0 <= i < plan.double_underlines@.len() && plan.double_underlines@[i].start <= k
                < plan.double_underlines@[i].end ==> {
                let r = #[trigger] plan.double_underlines@[i];
                let v = #[trigger] row[k];
                &&& v is Some
                &&& v->0.double_underline
                &&& v->0.fg == r.color
            },
        forall|i: int, k: int|
            0 <= i < plan.strikeouts@.len() && plan.strikeouts@[i].start <= k
                < plan.strikeouts@[i].end ==> {
                let r = #[trigger] plan.strikeouts@[i];
                let v = #[trigger] row[k];
                &&& v is Some
                &&& v->0.strikeout
                &&& v->0.fg == r.color
            },
{
    assert forall|i: int, k: int|
        0 <= i < plan.backgrounds@.len() && plan.backgrounds@[i].start <= k
            < plan.backgrounds@[i].end implies {
            let r = #[trigger] plan.backgrounds@[i];
            let v = #[trigger] row[k];
            &&& v is Some
            &&& v->0.bg == r.color
            &&& r.color != default_bg
        } by {
        let r = plan.backgrounds@[i];
        let keys = bg_keys(row, default_bg);
        let sp = run_bounds(plan.backgrounds@);
        assert(sp[i] == (r.start as int, r.end as int));
        assert(keys[k] is Some && keys[k] == keys[sp[i].0]);
        let s = r.start as int;
        assert(keys[s] == bg_key(row[s], default_bg));
        assert(keys[k] == bg_key(row[k], default_bg));
        lemma_rgb_key_injective(row[k]->0.bg, row[s]->0.bg);
    }
    lemma_line_runs_uniform(row, plan.underlines@, LineKind::Underline);
    lemma_line_runs_uniform(row, plan.double_underlines@, LineKind::DoubleUnderline);
    lemma_line_runs_uniform(row, plan.strikeouts@, LineKind::Strikeout);
}

proof fn lemma_line_runs_uniform(row: Seq<Option<CellView>>, runs: Seq<Run>, kind: LineKind)
    requires
        runs_ok(row, line_keys(row, kind), runs, false),
    ensures
        forall|i: int, k: int|
            0 <= i < runs.len() && runs[i].start <= k < runs[i].end ==> {
                let r = #[trigger] runs[i];
                let v = #[trigger] row[k];
                &&& v is Some
                &&& has_line(v->0, kind)
                &&& v->0.fg == r.color
            },
{
    assert forall|i: int, k: int| 0 <= i < runs.len() && runs[i].start <= k < runs[i].end implies {
        let r = #[trigger] runs[i];
        let v = #[trigger] row[k];
        &&& v is Some
        &&& has_line(v->0, kind)
        &&& v->0.fg == r.color
    } by {
        let r = runs[i];
        let keys = line_keys(row, kind);
        let sp = run_bounds(runs);
        assert(sp[i] == (r.start as int, r.end as int));
        assert(keys[k] is Some && keys[k] == keys[sp[i].0]);
        let s = r.start as int;
        assert(keys[s] == line_key(row[s], kind));
        assert(keys[k] == line_key(row[k], kind));
        lemma_rgb_key_injective(row[k]->0.fg, row[s]->0.fg);
    }
}

} // verus!
