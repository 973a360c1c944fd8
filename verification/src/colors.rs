//! Terminal colours: the default dark theme, the 256-colour palette and the
//! resolution of a cell's colour against the terminal's overrides.
use vstd::prelude::*;

verus! {

/// An RGB colour.
#[derive(Clone, Copy, Debug, PartialEq, Eq, Structural)]
pub struct Rgb {
    pub r: u8,
    pub g: u8,
    pub b: u8,
}

/// The named colours of a terminal palette.
#[derive(Clone, Copy, Debug, PartialEq, Eq, Structural)]
pub enum NamedColor {
    Black,
    Red,
    Green,
    Yellow,
    Blue,
    Magenta,
    Cyan,
    White,
    BrightBlack,
    BrightRed,
    BrightGreen,
    BrightYellow,
    BrightBlue,
    BrightMagenta,
    BrightCyan,
    BrightWhite,
    Foreground,
    Background,
    Cursor,
    DimBlack,
    DimRed,
    DimGreen,
    DimYellow,
    DimBlue,
    DimMagenta,
    DimCyan,
    DimWhite,
    BrightForeground,
    DimForeground,
}

/// A cell colour as the terminal stores it.
#[derive(Clone, Copy, Debug, PartialEq, Eq, Structural)]
pub enum Color {
    Named(NamedColor),
    Spec(Rgb),
    Indexed(u8),
}

/// Number of slots of a palette: the 256 indexed colours followed by the
/// named colours that have no index of their own.
pub const PALETTE_SIZE: usize = 269;

/// The palette slot of a named colour: the sixteen ANSI colours share the
/// first sixteen indexed slots, the others follow the 256 indexed colours.
pub open spec fn named_slot(n: NamedColor) -> int {
    match n {
        NamedColor::Black => 0,
        NamedColor::Red => 1,
        NamedColor::Green => 2,
        NamedColor::Yellow => 3,
        NamedColor::Blue => 4,
        NamedColor::Magenta => 5,
        NamedColor::Cyan => 6,
        NamedColor::White => 7,
        NamedColor::BrightBlack => 8,
        NamedColor::BrightRed => 9,
        NamedColor::BrightGreen => 10,
        NamedColor::BrightYellow => 11,
        NamedColor::BrightBlue => 12,
        NamedColor::BrightMagenta => 13,
        NamedColor::BrightCyan => 14,
        NamedColor::BrightWhite => 15,
        NamedColor::Foreground => 256,
        NamedColor::Background => 257,
        NamedColor::Cursor => 258,
        NamedColor::DimBlack => 259,
        NamedColor::DimRed => 260,
        NamedColor::DimGreen => 261,
        NamedColor::DimYellow => 262,
        NamedColor::DimBlue => 263,
        NamedColor::DimMagenta => 264,
        NamedColor::DimCyan => 265,
        NamedColor::DimWhite => 266,
        NamedColor::BrightForeground => 267,
        NamedColor::DimForeground => 268,
    }
}

impl NamedColor {
    /// The palette slot of this colour.
    pub fn slot(self) -> (i: usize)
        ensures
            i == named_slot(self),
            i < PALETTE_SIZE,
    {
        match self {
            NamedColor::Black => 0,
            NamedColor::Red => 1,
            NamedColor::Green => 2,
            NamedColor::Yellow => 3,
            NamedColor::Blue => 4,
            NamedColor::Magenta => 5,
            NamedColor::Cyan => 6,
            NamedColor::White => 7,
            NamedColor::BrightBlack => 8,
            NamedColor::BrightRed => 9,
            NamedColor::BrightGreen => 10,
            NamedColor::BrightYellow => 11,
            NamedColor::BrightBlue => 12,
            NamedColor::BrightMagenta => 13,
            NamedColor::BrightCyan => 14,
            NamedColor::BrightWhite => 15,
            NamedColor::Foreground => 256,
            NamedColor::Background => 257,
            NamedColor::Cursor => 258,
            NamedColor::DimBlack => 259,
            NamedColor::DimRed => 260,
            NamedColor::DimGreen => 261,
            NamedColor::DimYellow => 262,
            NamedColor::DimBlue => 263,
            NamedColor::DimMagenta => 264,
            NamedColor::DimCyan => 265,
            NamedColor::DimWhite => 266,
            NamedColor::BrightForeground => 267,
            NamedColor::DimForeground => 268,
        }
    }
}

/// An RGB colour from its three components.
pub open spec fn rgb(r: u8, g: u8, b: u8) -> Rgb {
    Rgb { r, g, b }
}

/// The colours of the default dark theme.
pub open spec fn default_named_spec(color: NamedColor) -> Rgb {
    match color {
        NamedColor::Black => rgb(0x1d, 0x1f, 0x21),
        NamedColor::Red => rgb(0xcc, 0x66, 0x66),
        NamedColor::Green => rgb(0xb5, 0xbd, 0x68),
        NamedColor::Yellow => rgb(0xf0, 0xc6, 0x74),
        NamedColor::Blue => rgb(0x81, 0xa2, 0xbe),
        NamedColor::Magenta => rgb(0xb2, 0x94, 0xbb),
        NamedColor::Cyan => rgb(0x8a, 0xbe, 0xb7),
        NamedColor::White => rgb(0xc5, 0xc8, 0xc6),
        NamedColor::BrightBlack => rgb(0x96, 0x98, 0x96),
        NamedColor::BrightRed => rgb(0xcc, 0x66, 0x66),
        NamedColor::BrightGreen => rgb(0xb5, 0xbd, 0x68),
        NamedColor::BrightYellow => rgb(0xf0, 0xc6, 0x74),
        NamedColor::BrightBlue => rgb(0x81, 0xa2, 0xbe),
        NamedColor::BrightMagenta => rgb(0xb2, 0x94, 0xbb),
        NamedColor::BrightCyan => rgb(0x8a, 0xbe, 0xb7),
        NamedColor::BrightWhite => rgb(0xff, 0xff, 0xff),
        NamedColor::Foreground => rgb(0xc5, 0xc8, 0xc6),
        NamedColor::Background => rgb(0x1d, 0x1f, 0x21),
        NamedColor::Cursor => rgb(0xc5, 0xc8, 0xc6),
        _ => rgb(0xc5, 0xc8, 0xc6),
    }
}

/// Default Alacritty dark theme colors.
pub fn default_named_color(color: NamedColor) -> (c: Rgb)
    ensures
        c == default_named_spec(color),
{
    match color {
        NamedColor::Black => Rgb { r: 0x1d, g: 0x1f, b: 0x21 },
        NamedColor::Red => Rgb { r: 0xcc, g: 0x66, b: 0x66 },
        NamedColor::Green => Rgb { r: 0xb5, g: 0xbd, b: 0x68 },
        NamedColor::Yellow => Rgb { r: 0xf0, g: 0xc6, b: 0x74 },
        NamedColor::Blue => Rgb { r: 0x81, g: 0xa2, b: 0xbe },
        NamedColor::Magenta => Rgb { r: 0xb2, g: 0x94, b: 0xbb },
        NamedColor::Cyan => Rgb { r: 0x8a, g: 0xbe, b: 0xb7 },
        NamedColor::White => Rgb { r: 0xc5, g: 0xc8, b: 0xc6 },
        NamedColor::BrightBlack => Rgb { r: 0x96, g: 0x98, b: 0x96 },
        NamedColor::BrightRed => Rgb { r: 0xcc, g: 0x66, b: 0x66 },
        NamedColor::BrightGreen => Rgb { r: 0xb5, g: 0xbd, b: 0x68 },
        NamedColor::BrightYellow => Rgb { r: 0xf0, g: 0xc6, b: 0x74 },
        NamedColor::BrightBlue => Rgb { r: 0x81, g: 0xa2, b: 0xbe },
        NamedColor::BrightMagenta => Rgb { r: 0xb2, g: 0x94, b: 0xbb },
        NamedColor::BrightCyan => Rgb { r: 0x8a, g: 0xbe, b: 0xb7 },
        NamedColor::BrightWhite => Rgb { r: 0xff, g: 0xff, b: 0xff },
        NamedColor::Foreground => Rgb { r: 0xc5, g: 0xc8, b: 0xc6 },
        NamedColor::Background => Rgb { r: 0x1d, g: 0x1f, b: 0x21 },
        NamedColor::Cursor => Rgb { r: 0xc5, g: 0xc8, b: 0xc6 },
        _ => Rgb { r: 0xc5, g: 0xc8, b: 0xc6 },
    }
}

/// The ANSI colour with index `i` (`0..16`).
pub open spec fn ansi_color(i: int) -> NamedColor {
    if i == 0 {
        NamedColor::Black
    } else if i == 1 {
        NamedColor::Red
    } else if i == 2 {
        NamedColor::Green
    } else if i == 3 {
        NamedColor::Yellow
    } else if i == 4 {
        NamedColor::Blue
    } else if i == 5 {
        NamedColor::Magenta
    } else if i == 6 {
        NamedColor::Cyan
    } else if i == 7 {
        NamedColor::White
    } else if i == 8 {
        NamedColor::BrightBlack
    } else if i == 9 {
        NamedColor::BrightRed
    } else if i == 10 {
        NamedColor::BrightGreen
    } else if i == 11 {
        NamedColor::BrightYellow
    } else if i == 12 {
        NamedColor::BrightBlue
    } else if i == 13 {
        NamedColor::BrightMagenta
    } else if i == 14 {
        NamedColor::BrightCyan
    } else {
        NamedColor::BrightWhite
    }
}

/// One component of the 6x6x6 colour cube: 0 for level 0, else 55 + 40 * level.
pub open spec fn cube_level(level: int) -> int {
    if level == 0 {
        0
    } else {
        55 + 40 * level
    }
}

/// The default colour of a 256-colour palette index: the sixteen ANSI
/// colours, then the 6x6x6 colour cube, then a 24-step grey ramp.
pub open spec fn indexed_spec(index: u8) -> Rgb {
    if index < 16 {
        default_named_spec(ansi_color(index as int))
    } else if index < 232 {
        let i = index - 16;
        rgb(
            cube_level(i / 36) as u8,
            cube_level((i % 36) / 6) as u8,
            cube_level(i % 6) as u8,
        )
    } else {
        let v = (8 + 10 * (index - 232)) as u8;
        rgb(v, v, v)
    }
}

fn ansi_named(index: u8) -> (n: NamedColor)
    requires
        index < 16,
    ensures
        n == ansi_color(index as int),
{
    match index {
        0 => NamedColor::Black,
        1 => NamedColor::Red,
        2 => NamedColor::Green,
        3 => NamedColor::Yellow,
        4 => NamedColor::Blue,
        5 => NamedColor::Magenta,
        6 => NamedColor::Cyan,
        7 => NamedColor::White,
        8 => NamedColor::BrightBlack,
        9 => NamedColor::BrightRed,
        10 => NamedColor::BrightGreen,
        11 => NamedColor::BrightYellow,
        12 => NamedColor::BrightBlue,
        13 => NamedColor::BrightMagenta,
        14 => NamedColor::BrightCyan,
        _ => NamedColor::BrightWhite,
    }
}

fn cube_value(level: u16) -> (v: u8)
    requires
        level < 6,
    ensures
        v == cube_level(level as int),
{
    if level == 0 {
        0
    } else {
        (55 + 40 * level) as u8
    }
}

/// Resolve a 256-color indexed color to RGB.
pub fn indexed_color(index: u8) -> (c: Rgb)
    ensures
        c == indexed_spec(index),
{
    if index < 16 {
        default_named_color(ansi_named(index))
    } else if index < 232 {
        let i = index as u16 - 16;
        let r_idx = i / 36;
        let g_idx = (i % 36) / 6;
        let b_idx = i % 6;
        Rgb { r: cube_value(r_idx), g: cube_value(g_idx), b: cube_value(b_idx) }
    } else {
        let val = 8 + 10 * (index - 232);
        Rgb { r: val, g: val, b: val }
    }
}

/// The colour overrides of a terminal: one optional colour per palette slot.
pub struct Colors {
    slots: Vec<Option<Rgb>>,
}

impl View for Colors {
    type V = Seq<Option<Rgb>>;

    closed spec fn view(&self) -> Seq<Option<Rgb>> {
        self.slots@
    }
}

impl Colors {
    /// The palette has one slot per palette index.
    pub closed spec fn wf(&self) -> bool {
        self.slots@.len() == PALETTE_SIZE
    }

    /// A palette with no overrides.
    pub fn new() -> (c: Self)
        ensures
            c.wf(),
            c@ == Seq::new(PALETTE_SIZE as nat, |i: int| None::<Rgb>),
    {
        let mut slots: Vec<Option<Rgb>> = Vec::with_capacity(PALETTE_SIZE);
        let mut i: usize = 0;
        while i < PALETTE_SIZE
            invariant
                i <= PALETTE_SIZE,
                slots@ == Seq::new(i as nat, |k: int| None::<Rgb>),
            decreases PALETTE_SIZE - i,
        {
            slots.push(None);
            i = i + 1;
            assert(slots@ =~= Seq::new(i as nat, |k: int| None::<Rgb>));
        }
        Colors { slots }
    }

    /// The override at palette slot `index`.
    pub fn get(&self, index: usize) -> (c: Option<Rgb>)
        requires
            self.wf(),
            index < PALETTE_SIZE,
        ensures
            c == self@[index as int],
    {
        self.slots[index]
    }

    /// Set or clear the override at palette slot `index`.
    pub fn set(&mut self, index: usize, color: Option<Rgb>)
        requires
            old(self).wf(),
            index < PALETTE_SIZE,
        ensures
            final(self).wf(),
            final(self)@ == old(self)@.update(index as int, color),
    {
        self.slots.set(index, color);
    }

    /// The palette's invariant holds of every palette value.
    pub proof fn lemma_wf(&self)
        requires
            self.wf(),
        ensures
            self@.len() == PALETTE_SIZE,
    {
    }
}

/// The colour a cell colour stands for: an override of the palette where
/// there is one, else the default of the named or indexed colour.
pub open spec fn resolve_spec(color: Color, colors: Seq<Option<Rgb>>) -> Rgb {
    match color {
        Color::Named(name) => match colors[named_slot(name)] {
            Some(c) => c,
            None => default_named_spec(name),
        },
        Color::Spec(c) => c,
        Color::Indexed(idx) => match colors[idx as int] {
            Some(c) => c,
            None => indexed_spec(idx),
        },
    }
}

/// Resolve a terminal Color to RGB using the color palette.
pub fn resolve_color(color: &Color, colors: &Colors) -> (c: Rgb)
    requires
        colors.wf(),
    ensures
        c == resolve_spec(*color, colors@),
{
    match color {
        Color::Named(name) => match colors.get(name.slot()) {
            Some(c) => c,
            None => default_named_color(*name),
        },
        Color::Spec(rgb) => *rgb,
        Color::Indexed(idx) => match colors.get(*idx as usize) {
            Some(c) => c,
            None => indexed_color(*idx),
        },
    }
}

/// A palette override always wins over the built-in default.
pub proof fn law_override_wins(color: Color, colors: Seq<Option<Rgb>>, c: Rgb)
    requires
        colors.len() == PALETTE_SIZE,
        match color {
            Color::Named(name) => colors[named_slot(name)] == Some(c),
            Color::Indexed(idx) => colors[idx as int] == Some(c),
            Color::Spec(s) => s == c,
        },
    ensures
        resolve_spec(color, colors) == c,
{
}

/// Every colour of the 6x6x6 cube is made of the levels 0, 95, 135, 175,
/// 215 and 255, and the grey ramp runs from 8 to 238 in steps of 10.
pub proof fn law_palette_levels(index: u8)
    ensures
        16 <= index < 232 ==> {
            let c = indexed_spec(index);
            &&& (c.r == 0 || (c.r >= 95 && (c.r - 95) % 40 == 0))
            &&& (c.g == 0 || (c.g >= 95 && (c.g - 95) % 40 == 0))
            &&& (c.b == 0 || (c.b >= 95 && (c.b - 95) % 40 == 0))
        },
        232 <= index ==> {
            let c = indexed_spec(index);
            &&& c.r == c.g == c.b
            &&& 8 <= c.r <= 238
        },
{
}

/// The sixteen ANSI named colours share the first sixteen indexed palette
/// slots in xterm order: black, red, green, yellow, blue, magenta, cyan and
/// white, then their bright variants. So the i-th ANSI name and indexed
/// colour i read the same override and, without one, the same default.
/// Foreground, background and cursor have the slots right after the 256
/// indexed colours.
pub proof fn law_ansi_names_share_indexed_slots(colors: Seq<Option<Rgb>>)
    requires
        colors.len() == PALETTE_SIZE,
    ensures
        named_slot(NamedColor::Black) == 0,
        named_slot(NamedColor::Red) == 1,
        named_slot(NamedColor::Green) == 2,
        named_slot(NamedColor::Yellow) == 3,
        named_slot(NamedColor::Blue) == 4,
        named_slot(NamedColor::Magenta) == 5,
        named_slot(NamedColor::Cyan) == 6,
        named_slot(NamedColor::White) == 7,
        named_slot(NamedColor::BrightBlack) == 8,
        named_slot(NamedColor::BrightRed) == 9,
        named_slot(NamedColor::BrightGreen) == 10,
        named_slot(NamedColor::BrightYellow) == 11,
        named_slot(NamedColor::BrightBlue) == 12,
        named_slot(NamedColor::BrightMagenta) == 13,
        named_slot(NamedColor::BrightCyan) == 14,
        named_slot(NamedColor::BrightWhite) == 15,
        named_slot(NamedColor::Foreground) == 256,
        named_slot(NamedColor::Background) == 257,
        named_slot(NamedColor::Cursor) == 258,
        forall|i: int| 0 <= i < 16 ==> #[trigger] named_slot(ansi_color(i)) == i,
        forall|i: u8|
            i < 16 ==> #[trigger] resolve_spec(Color::Named(ansi_color(i as int)), colors)
                == resolve_spec(Color::Indexed(i), colors),
{
    assert forall|i: int| 0 <= i < 16 implies #[trigger] named_slot(ansi_color(i)) == i by {
        if i == 0 {} else if i == 1 {} else if i == 2 {} else if i == 3 {} else if i == 4 {
        } else if i == 5 {} else if i == 6 {} else if i == 7 {} else if i == 8 {} else if i == 9 {
        } else if i == 10 {} else if i == 11 {} else if i == 12 {} else if i == 13 {
        } else if i == 14 {} else {}
    }
    assert forall|i: u8| i < 16 implies #[trigger] resolve_spec(
        Color::Named(ansi_color(i as int)),
        colors,
    ) == resolve_spec(Color::Indexed(i), colors) by {
        assert(named_slot(ansi_color(i as int)) == i as int);
    }
}

} // verus!
