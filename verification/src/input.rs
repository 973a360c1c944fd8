//! Input the browser terminal sends to the PTY and the small conversions
//! between the page and the terminal grid: mouse reports, pastes, packed mode
//! flags, viewport coordinates, palette colours from a user's configuration
//! and the colours that answer the shell's colour queries.
use vstd::prelude::*;
use crate::colors::{default_named_color, default_named_spec, Colors, NamedColor, Rgb, PALETTE_SIZE, rgb};
use crate::session::{str_trim, trim_ws};

verus! {

/// The decimal digits of `n`, as ASCII bytes.
pub open spec fn decimal(n: nat) -> Seq<u8>
    decreases n,
{
    if n < 10 {
        seq![(48 + n) as u8]
    } else {
        decimal(n / 10).push((48 + n % 10) as u8)
    }
}

/// Append the decimal digits of `n`.
fn push_decimal(out: &mut Vec<u8>, n: u32)
    ensures
        final(out)@ == old(out)@ + decimal(n as nat),
    decreases n,
{
    if n >= 10 {
        push_decimal(out, n / 10);
    }
    out.push((48 + n % 10) as u8);
    proof {
        if n < 10 {
            assert(n % 10 == n);
        }
        assert(final(out)@ =~= old(out)@ + decimal(n as nat));
    }
}

/// `a + b`, or 255 when that does not fit a byte.
pub open spec fn sat_u8(a: int, b: int) -> u8 {
    if a + b > 255 {
        255
    } else {
        (a + b) as u8
    }
}

/// Whether the mouse modes packed in `bits` report an event: some mouse
/// reporting is on, and a motion event (`action` 2) is reported only in
/// motion mode, or in drag mode while a button is held (`button` 3 is no
/// button).
pub open spec fn mouse_event_reported_spec(bits: u32, button: u8, action: u8) -> bool {
    let click = bits & 1 != 0;
    let drag = bits & 2 != 0;
    let motion = bits & 4 != 0;
    &&& click || drag || motion
    &&& action == 2 ==> motion || drag
    &&& !(action == 2 && drag && !motion && button == 3)
}

/// Whether the active mouse modes report this event at all.
pub fn mouse_event_reported(bits: u32, button: u8, action: u8) -> (r: bool)
    ensures
        r == mouse_event_reported_spec(bits, button, action),
{
    let click = bits & 1 != 0;
    let drag = bits & 2 != 0;
    let motion = bits & 4 != 0;
    if !(click || drag || motion) {
        return false;
    }
    // Drag mode reports motion only while a button is held; motion mode
    // reports all motion; click-only mode reports no motion at all.
    if action == 2 {
        if !(motion || drag) {
            return false;
        }
        if drag && !motion && button == 3 {
            return false;
        }
    }
    true
}

/// The bytes a terminal expects for a mouse event, under the mouse modes
/// packed in `bits` (1 = click reporting, 2 = drag reporting, 4 = motion
/// reporting, 8 = SGR encoding), or `None` when the event is not reported.
/// `button` is the xterm button code (3 = no button), `action` is 0 for a
/// press, 1 for a release, 2 for motion, `col` and `row` are zero-based and
/// `mods` holds shift (1), alt (2) and ctrl (4). Modifiers add 4, 8 and 16
/// to the button code and motion adds 32. SGR encodes
/// `ESC [ < code ; col+1 ; row+1 M` (`m` for a release); the legacy form is
/// `ESC [ M` and three bytes offset by 32, reports a release as button 3,
/// and reports nothing beyond column or row 223.
pub open spec fn mouse_report_spec(
    bits: u32,
    button: u8,
    action: u8,
    col: u16,
    row: u16,
    mods: u8,
) -> Option<Seq<u8>> {
    let sgr = bits & 8 != 0;
    let shift: int = if mods & 1 != 0 {
        4
    } else {
        0
    };
    let alt: int = if mods & 2 != 0 {
        8
    } else {
        0
    };
    let ctrl: int = if mods & 4 != 0 {
        16
    } else {
        0
    };
    let motion_bit: int = if action == 2 {
        32
    } else {
        0
    };
    let base = sat_u8(button as int, shift + alt + ctrl + motion_bit);
    let col1 = col + 1;
    let row1 = row + 1;
    if !mouse_event_reported_spec(bits, button, action) {
        None
    } else if sgr {
        Some(
            seq![0x1bu8, 0x5bu8, 0x3cu8] + decimal(base as nat) + seq![0x3bu8] + decimal(
                col1 as nat,
            ) + seq![0x3bu8] + decimal(row1 as nat) + seq![
                if action == 1 {
                    0x6du8
                } else {
                    0x4du8
                },
            ],
        )
    } else if col1 > 223 || row1 > 223 {
        None
    } else {
        let btn: int = if action == 1 {
            3 + shift + alt + ctrl + motion_bit
        } else {
            base as int
        };
        Some(
            seq![0x1bu8, 0x5bu8, 0x4du8, sat_u8(32, btn), (32 + col1) as u8, (32 + row1) as u8],
        )
    }
}

/// Encode a mouse event into a PTY byte sequence following the active
/// terminal mouse-reporting mode.
pub fn encode_mouse_report(
    bits: u32,
    button: u8,
    action: u8,
    col: u16,
    row: u16,
    mods: u8,
) -> (r: Option<Vec<u8>>)
    requires
        mouse_event_reported_spec(bits, button, action) ==> col < u16::MAX && row < u16::MAX,
    ensures
        match r {
            Some(v) => mouse_report_spec(bits, button, action, col, row, mods) == Some(v@),
            None => mouse_report_spec(bits, button, action, col, row, mods) is None,
        },
{
    let sgr = bits & 8 != 0;
    if !mouse_event_reported(bits, button, action) {
        return None;
    }
    let mod_shift: u8 = if mods & 1 != 0 {
        4
    } else {
        0
    };
    let mod_alt: u8 = if mods & 2 != 0 {
        8
    } else {
        0
    };
    let mod_ctrl: u8 = if mods & 4 != 0 {
        16
    } else {
        0
    };
    let motion_bit: u8 = if action == 2 {
        32
    } else {
        0
    };
    let base = button.saturating_add(mod_shift + mod_alt + mod_ctrl + motion_bit);
    // 1-based coordinates on the wire.
    let col1 = col + 1;
    let row1 = row + 1;
    let mut bytes: Vec<u8> = Vec::with_capacity(16);
    if sgr {
        bytes.push(0x1b);
        bytes.push(0x5b);
        bytes.push(0x3c);
        push_decimal(&mut bytes, base as u32);
        bytes.push(0x3b);
        push_decimal(&mut bytes, col1 as u32);
        bytes.push(0x3b);
        push_decimal(&mut bytes, row1 as u32);
        let c: u8 = if action == 1 {
            0x6d
        } else {
            0x4d
        };
        bytes.push(c);
        proof {
            assert(bytes@ =~= seq![0x1bu8, 0x5bu8, 0x3cu8] + decimal(base as nat) + seq![0x3bu8]
                + decimal(col1 as nat) + seq![0x3bu8] + decimal(row1 as nat) + seq![c]);
        }
    } else {
        // Legacy X10/normal encoding cannot express coordinates past 223.
        if col1 > 223 || row1 > 223 {
            return None;
        }
        let btn: u8 = if action == 1 {
            3 + mod_shift + mod_alt + mod_ctrl + motion_bit
        } else {
            base
        };
        bytes.push(0x1b);
        bytes.push(0x5b);
        bytes.push(0x4d);
        bytes.push(32u8.saturating_add(btn));
        bytes.push(32u8 + col1 as u8);
        bytes.push(32u8 + row1 as u8);
        proof {
            assert(bytes@ =~= seq![0x1bu8, 0x5bu8, 0x4du8, sat_u8(32, btn as int), (32 + col1) as u8, (32 + row1) as u8]);
        }
    }
    Some(bytes)
}

/// The button code of a reported mouse event: the xterm button plus 4 with
/// shift (`mods` bit 0), 8 with alt (bit 1), 16 with ctrl (bit 2) and 32 for
/// motion, saturating at 255.
/// In SGR mode a reported event is `ESC [ <`, that code, the 1-based column
/// and row in decimal separated by `;`, and `m` for a release or `M`
/// otherwise. In the legacy mode a reported event within column and row 223
/// is `ESC [ M` followed by 32 plus the code (for a release, 32 plus 3 plus
/// the modifier and motion bits), 32 plus the column and 32 plus the row, all
/// 1-based; beyond 223 nothing is reported.
pub proof fn law_mouse_report_layout(
    bits: u32,
    button: u8,
    action: u8,
    col: u16,
    row: u16,
    mods: u8,
)
    requires
        mouse_event_reported_spec(bits, button, action),
    ensures
        ({
            let extra: int = (if mods & 1 != 0 { 4int } else { 0 }) + (if mods & 2 != 0 {
                8int
            } else {
                0
            }) + (if mods & 4 != 0 { 16int } else { 0 }) + (if action == 2 { 32int } else { 0 });
            let code: int = if button + extra > 255 { 255 } else { button + extra };
            let r = mouse_report_spec(bits, button, action, col, row, mods);
            &&& bits & 8 != 0 ==> r == Some(
                seq![0x1bu8, 0x5bu8, 0x3cu8] + decimal(code as nat) + seq![0x3bu8] + decimal(
                    (col + 1) as nat,
                ) + seq![0x3bu8] + decimal((row + 1) as nat) + seq![
                    if action == 1 { 0x6du8 } else { 0x4du8 },
                ],
            )
            &&& bits & 8 == 0 && (col + 1 > 223 || row + 1 > 223) ==> r is None
            &&& bits & 8 == 0 && col + 1 <= 223 && row + 1 <= 223 ==> {
                let btn: int = if action == 1 { 3 + extra } else { code };
                r == Some(
                    seq![
                        0x1bu8,
                        0x5bu8,
                        0x4du8,
                        (if 32 + btn > 255 { 255 } else { 32 + btn }) as u8,
                        (32 + col + 1) as u8,
                        (32 + row + 1) as u8,
                    ],
                )
            }
        }),
{
}

/// The bracketed-paste markers `ESC [ 2 0 0 ~` and `ESC [ 2 0 1 ~`.
pub open spec fn paste_start() -> Seq<u8> {
    seq![0x1bu8, 0x5bu8, 0x32u8, 0x30u8, 0x30u8, 0x7eu8]
}

pub open spec fn paste_end() -> Seq<u8> {
    seq![0x1bu8, 0x5bu8, 0x32u8, 0x30u8, 0x31u8, 0x7eu8]
}

/// The bytes to send for pasted text: its UTF-8 bytes, wrapped in the
/// bracketed-paste markers when the terminal asked for bracketed paste.
pub fn paste_payload(bracketed: bool, text: &str) -> (p: Vec<u8>)
    ensures
        p@ == if bracketed {
            paste_start() + vstd::utf8::encode_utf8(text@) + paste_end()
        } else {
            vstd::utf8::encode_utf8(text@)
        },
{
    let b = text.as_bytes();
    let mut out: Vec<u8> = Vec::with_capacity(b.len());
    if bracketed {
        out.push(0x1b);
        out.push(0x5b);
        out.push(0x32);
        out.push(0x30);
        out.push(0x30);
        out.push(0x7e);
    }
    let ghost prefix = out@;
    let mut i: usize = 0;
    while i < b.len()
        invariant
            i <= b@.len(),
            out@ == prefix + b@.subrange(0, i as int),
        decreases b@.len() - i,
    {
        out.push(b[i]);
        i = i + 1;
        assert(out@ =~= prefix + b@.subrange(0, i as int));
    }
    assert(b@.subrange(0, b@.len() as int) =~= b@);
    if bracketed {
        out.push(0x1b);
        out.push(0x5b);
        out.push(0x32);
        out.push(0x30);
        out.push(0x31);
        out.push(0x7e);
        assert(out@ =~= paste_start() + vstd::utf8::encode_utf8(text@) + paste_end());
    } else {
        assert(out@ =~= vstd::utf8::encode_utf8(text@));
    }
    out
}

/// Four flags packed into the low bits of a word, first flag lowest.
pub open spec fn pack4(b0: bool, b1: bool, b2: bool, b3: bool) -> u32 {
    ((if b0 {
        1int
    } else {
        0
    }) + (if b1 {
        2int
    } else {
        0
    }) + (if b2 {
        4int
    } else {
        0
    }) + (if b3 {
        8int
    } else {
        0
    })) as u32
}

/// Pack four mode flags into bits 0 to 3: for mouse reporting click, drag,
/// motion and SGR encoding; for the keyboard application cursor,
/// application keypad, focus reporting and escape-code disambiguation.
pub fn mode_bits(b0: bool, b1: bool, b2: bool, b3: bool) -> (bits: u32)
    ensures
        bits == pack4(b0, b1, b2, b3),
        bits < 16,
{
    let mut bits: u32 = 0;
    if b0 {
        bits = bits + 1;
    }
    if b1 {
        bits = bits + 2;
    }
    if b2 {
        bits = bits + 4;
    }
    if b3 {
        bits = bits + 8;
    }
    bits
}

/// The grid line shown on a viewport row when the view is scrolled back by
/// `display_offset` lines.
pub fn viewport_line(viewport_row: i32, display_offset: i32) -> (line: i32)
    requires
        i32::MIN <= viewport_row - display_offset <= i32::MAX,
    ensures
        line == viewport_row - display_offset,
{
    viewport_row - display_offset
}

/// Whether a grid line exists: it lies in the scrollback (at most
/// `history` lines above the screen) or on the screen.
pub fn line_in_grid(line: i32, history: i32, screen_lines: i32) -> (ok: bool)
    requires
        history > i32::MIN,
    ensures
        ok == !(line < -history || line >= screen_lines),
{
    !(line < -history || line >= screen_lines)
}

/// `s` without its trailing spaces.
pub open spec fn without_trailing_spaces(s: Seq<char>) -> Seq<char>
    decreases s.len(),
{
    if s.len() > 0 && s.last() == ' ' {
        without_trailing_spaces(s.drop_last())
    } else {
        s
    }
}

/// Drop trailing spaces (only spaces: leading and inner spaces and other
/// white space are kept).
pub fn trim_trailing_spaces(text: &mut Vec<char>)
    ensures
        final(text)@ == without_trailing_spaces(old(text)@),
{
    while text.len() > 0 && text[text.len() - 1] == ' '
        invariant
            without_trailing_spaces(text@) == without_trailing_spaces(old(text)@),
        decreases text@.len(),
    {
        text.pop();
    }
}

/// The column a search starts from: the requested one, kept inside the
/// row (column 0 for an empty grid).
pub fn search_column(column: u32, cols: usize) -> (c: usize)
    ensures
        c == if column as int <= (if cols > 0 {
            cols - 1
        } else {
            0
        }) {
            column as int
        } else {
            if cols > 0 {
                cols - 1
            } else {
                0
            }
        },
{
    let last = if cols > 0 {
        cols - 1
    } else {
        0
    };
    let c = column as usize;
    if c <= last {
        c
    } else {
        last
    }
}

/// A search match in viewport coordinates, flattened:
/// `[start_row, start_col, end_row, end_col]`.
pub fn push_match(
    out: &mut Vec<i32>,
    start_line: i32,
    start_col: usize,
    end_line: i32,
    end_col: usize,
    display_offset: i32,
)
    requires
        i32::MIN <= start_line + display_offset <= i32::MAX,
        i32::MIN <= end_line + display_offset <= i32::MAX,
    ensures
        final(out)@ == old(out)@ + seq![
            (start_line + display_offset) as i32,
            start_col as i32,
            (end_line + display_offset) as i32,
            end_col as i32,
        ],
{
    out.push(start_line + display_offset);
    out.push(start_col as i32);
    out.push(end_line + display_offset);
    out.push(end_col as i32);
    assert(final(out)@ =~= old(out)@ + seq![
        (start_line + display_offset) as i32,
        start_col as i32,
        (end_line + display_offset) as i32,
        end_col as i32,
    ]);
}

/// The named colour a colour query for palette slot `index` falls back to:
/// the sixteen ANSI colours for the first sixteen slots, and foreground,
/// background and cursor for their own slots (OSC 10, 11 and 12). Other
/// slots have none.
pub open spec fn query_named(index: int) -> Option<NamedColor> {
    if 0 <= index < 16 {
        Some(crate::colors::ansi_color(index))
    } else if index == 256 {
        Some(NamedColor::Foreground)
    } else if index == 257 {
        Some(NamedColor::Background)
    } else if index == 258 {
        Some(NamedColor::Cursor)
    } else {
        None
    }
}

/// The colour that answers a query for palette slot `index`: the
/// terminal's override, else the default of the slot's named colour, else
/// white.
pub open spec fn reply_color_spec(index: int, palette: Seq<Option<Rgb>>) -> Rgb {
    match palette[index] {
        Some(c) => c,
        None => match query_named(index) {
            Some(named) => default_named_spec(named),
            None => rgb(255, 255, 255),
        },
    }
}

/// Resolve the colour for a colour query from the shell.
pub fn reply_color(index: usize, palette: &Colors) -> (c: Rgb)
    requires
        palette.wf(),
        index < PALETTE_SIZE,
    ensures
        c == reply_color_spec(index as int, palette@),
{
    match palette.get(index) {
        Some(c) => c,
        None => {
            let named = match index {
                0 => NamedColor::Black,
                1 => NamedColor::Red,
                2 => NamedColor::Green,
                3 => NamedColor::Yellow,
                4 => NamedColor::Blue,
                5 => NamedColor::Magenta,
                6 => NamedColor::Cyan,
                7 => NamedColor::White,
                8 => NamedColor::BrightBlack,
                9 => NamedColor::BrightRed,
                10 => NamedColor::BrightGreen,
                11 => NamedColor::BrightYellow,
                12 => NamedColor::BrightBlue,
                13 => NamedColor::BrightMagenta,
                14 => NamedColor::BrightCyan,
                15 => NamedColor::BrightWhite,
                256 => NamedColor::Foreground,
                257 => NamedColor::Background,
                258 => NamedColor::Cursor,
                _ => {
                    return Rgb { r: 255, g: 255, b: 255 };
                },
            };
            default_named_color(named)
        },
    }
}

/// The value of an ASCII hexadecimal digit.
pub open spec fn hex_digit(b: u8) -> Option<u8> {
    if 0x30 <= b <= 0x39 {
        Some((b - 0x30) as u8)
    } else if 0x61 <= b <= 0x66 {
        Some((b - 0x61 + 10) as u8)
    } else if 0x41 <= b <= 0x46 {
        Some((b - 0x41 + 10) as u8)
    } else {
        None
    }
}

/// The byte that a two-character string denotes in base 16, as
/// `u8::from_str_radix` reads it: two hexadecimal digits, or a `+` sign
/// followed by one.
pub open spec fn hex_pair(a: u8, b: u8) -> Option<u8> {
    if a == 0x2b {
        hex_digit(b)
    } else {
        match (hex_digit(a), hex_digit(b)) {
            (Some(h), Some(l)) => Some((h * 16 + l) as u8),
            _ => None,
        }
    }
}

/// `b` without its leading `#` bytes.
pub open spec fn strip_hashes(b: Seq<u8>) -> Seq<u8>
    decreases b.len(),
{
    if b.len() > 0 && b[0] == 0x23 {
        strip_hashes(b.drop_first())
    } else {
        b
    }
}

/// The bytes of a palette entry that name the colour: the entry without
/// surrounding white space and without its leading `#` characters.
pub open spec fn palette_body(s: Seq<char>) -> Seq<u8> {
    strip_hashes(vstd::utf8::encode_utf8(trim_ws(s)))
}

/// A UTF-8 continuation byte: no character starts there.
pub open spec fn is_continuation(b: u8) -> bool {
    0x80 <= b < 0xc0
}

/// Whether reading a palette entry as `#RRGGBB` would cut a character in
/// two: its body has six bytes and a character straddles the boundary
/// before the green pair, or the red pair reads and one straddles the
/// boundary before the blue pair.
pub open spec fn palette_entry_splits_char(s: Seq<char>) -> bool {
    let b = palette_body(s);
    &&& b.len() == 6
    &&& (is_continuation(b[2]) || (hex_pair(b[0], b[1]) is Some && is_continuation(b[4])))
}

/// The colour a palette entry names: `#RRGGBB`, with any number of leading
/// `#` (none too) and surrounding white space; `None` for anything else.
pub open spec fn palette_color_spec(s: Seq<char>) -> Option<Rgb> {
    let b = palette_body(s);
    if b.len() != 6 {
        None
    } else {
        match hex_pair(b[0], b[1]) {
            None => None,
            Some(r) => match hex_pair(b[2], b[3]) {
                None => None,
                Some(g) => match hex_pair(b[4], b[5]) {
                    None => None,
                    Some(bl) => Some(rgb(r, g, bl)),
                },
            },
        }
    }
}

fn hex_digit_exec(b: u8) -> (d: Option<u8>)
    ensures
        d == hex_digit(b),
{
    if 0x30 <= b && b <= 0x39 {
        Some(b - 0x30)
    } else if 0x61 <= b && b <= 0x66 {
        Some(b - 0x61 + 10)
    } else if 0x41 <= b && b <= 0x46 {
        Some(b - 0x41 + 10)
    } else {
        None
    }
}

fn hex_pair_exec(a: u8, b: u8) -> (v: Option<u8>)
    ensures
        v == hex_pair(a, b),
{
    if a == 0x2b {
        hex_digit_exec(b)
    } else {
        match (hex_digit_exec(a), hex_digit_exec(b)) {
            (Some(h), Some(l)) => Some(h * 16 + l),
            _ => None,
        }
    }
}

/// The bytes of a trimmed palette entry and where its body starts.
fn palette_body_start(t: &[u8]) -> (k: usize)
    ensures
        k <= t@.len(),
        t@.subrange(k as int, t@.len() as int) == strip_hashes(t@),
{
    let mut k: usize = 0;
    assert(t@.subrange(0, t@.len() as int) =~= t@);
    while k < t.len() && t[k] == 0x23
        invariant
            k <= t@.len(),
            strip_hashes(t@.subrange(k as int, t@.len() as int)) == strip_hashes(t@),
        decreases t@.len() - k,
    {
        assert(t@.subrange(k as int, t@.len() as int).drop_first() =~= t@.subrange(
            k + 1,
            t@.len() as int,
        ));
        k = k + 1;
    }
    k
}

/// Whether reading a palette entry as `#RRGGBB` would cut a character in
/// two (the reading refuses such an entry).
pub fn palette_entry_splits_char_exec(s: &str) -> (split: bool)
    ensures
        split == palette_entry_splits_char(s@),
{
    let t = str_trim(s);
    let b = t.as_bytes();
    let k = palette_body_start(b);
    proof {
        assert(b@.subrange(0, b@.len() as int) =~= b@);
    }
    if b.len() - k != 6 {
        return false;
    }
    let ghost body = b@.subrange(k as int, b@.len() as int);
    assert(body[2] == b@[k + 2]);
    assert(body[4] == b@[k + 4]);
    assert(body[0] == b@[k as int] && body[1] == b@[k + 1]);
    let cont2 = 0x80 <= b[k + 2] && b[k + 2] < 0xc0;
    let cont4 = 0x80 <= b[k + 4] && b[k + 4] < 0xc0;
    cont2 || (hex_pair_exec(b[k], b[k + 1]).is_some() && cont4)
}

/// Read a palette entry of a user's configuration as an RGB colour.
pub fn parse_palette_color(s: &str) -> (c: Option<Rgb>)
    requires
        !palette_entry_splits_char(s@),
    ensures
        c == palette_color_spec(s@),
{
    let t = str_trim(s);
    let b = t.as_bytes();
    let k = palette_body_start(b);
    if b.len() - k != 6 {
        return None;
    }
    let ghost body = b@.subrange(k as int, b@.len() as int);
    assert(body[0] == b@[k as int] && body[1] == b@[k + 1] && body[2] == b@[k + 2]);
    assert(body[3] == b@[k + 3] && body[4] == b@[k + 4] && body[5] == b@[k + 5]);
    let r = match hex_pair_exec(b[k], b[k + 1]) {
        Some(v) => v,
        None => {
            return None;
        },
    };
    let g = match hex_pair_exec(b[k + 2], b[k + 3]) {
        Some(v) => v,
        None => {
            return None;
        },
    };
    let bl = match hex_pair_exec(b[k + 4], b[k + 5]) {
        Some(v) => v,
        None => {
            return None;
        },
    };
    Some(Rgb { r, g, b: bl })
}

/// Number of keys a palette configuration may set.
pub const PALETTE_KEY_COUNT: usize = 19;

/// The name of palette key `m`: the eight ANSI colours, their bright
/// variants, then foreground, background and cursor.
pub open spec fn palette_key_name(m: int) -> Seq<char> {
    if m == 0 {
        "black"@
    } else if m == 1 {
        "red"@
    } else if m == 2 {
        "green"@
    } else if m == 3 {
        "yellow"@
    } else if m == 4 {
        "blue"@
    } else if m == 5 {
        "magenta"@
    } else if m == 6 {
        "cyan"@
    } else if m == 7 {
        "white"@
    } else if m == 8 {
        "bright_black"@
    } else if m == 9 {
        "bright_red"@
    } else if m == 10 {
        "bright_green"@
    } else if m == 11 {
        "bright_yellow"@
    } else if m == 12 {
        "bright_blue"@
    } else if m == 13 {
        "bright_magenta"@
    } else if m == 14 {
        "bright_cyan"@
    } else if m == 15 {
        "bright_white"@
    } else if m == 16 {
        "foreground"@
    } else if m == 17 {
        "background"@
    } else {
        "cursor"@
    }
}

/// The palette slot that key `m` sets: the ANSI colours share the first
/// sixteen slots; foreground, background and cursor have theirs.
pub open spec fn palette_key_slot(m: int) -> int {
    if m < 16 {
        m
    } else {
        m + 240
    }
}

/// The key that sets palette slot `i`, or `PALETTE_KEY_COUNT` when no key
/// sets it.
pub open spec fn palette_slot_key(i: int) -> int {
    if 0 <= i < 16 {
        i
    } else if 256 <= i <= 258 {
        i - 240
    } else {
        PALETTE_KEY_COUNT as int
    }
}

/// The value given for `key` by the first entry from index `j` on that
/// names it: `Some(Some(text))` for a text value, `Some(None)` for a value
/// that is not text, `None` when no entry names the key.
pub open spec fn palette_value_from(
    entries: Seq<(String, Option<String>)>,
    key: Seq<char>,
    j: int,
) -> Option<Option<String>>
    decreases entries.len() - j,
{
    if j < 0 || j >= entries.len() {
        None
    } else if entries[j].0@ == key {
        Some(entries[j].1)
    } else {
        palette_value_from(entries, key, j + 1)
    }
}

/// The value the entries give for `key`.
pub open spec fn palette_value(entries: Seq<(String, Option<String>)>, key: Seq<char>) -> Option<
    Option<String>,
> {
    palette_value_from(entries, key, 0)
}

/// The override of slot `i` after applying a palette configuration: a key
/// that is missing falls back to the built-in default (no override), a key
/// whose value reads as a colour sets it, and a value that is not a colour
/// or not text leaves the slot as it was. Slots no key names keep theirs.
pub open spec fn palette_slot_after(
    old: Seq<Option<Rgb>>,
    entries: Seq<(String, Option<String>)>,
    i: int,
) -> Option<Rgb> {
    let m = palette_slot_key(i);
    if m < PALETTE_KEY_COUNT {
        match palette_value(entries, palette_key_name(m)) {
            None => None,
            Some(None) => old[i],
            Some(Some(v)) => match palette_color_spec(v@) {
                Some(c) => Some(c),
                None => old[i],
            },
        }
    } else {
        old[i]
    }
}

/// The overrides after applying a palette configuration.
pub open spec fn palette_after(
    old: Seq<Option<Rgb>>,
    entries: Seq<(String, Option<String>)>,
) -> Seq<Option<Rgb>> {
    Seq::new(old.len(), |i: int| palette_slot_after(old, entries, i))
}

/// Reading the value the entries give for key `m` cuts no character in two.
pub open spec fn palette_key_readable(entries: Seq<(String, Option<String>)>, m: int) -> bool {
    match palette_value(entries, palette_key_name(m)) {
        Some(Some(v)) => !palette_entry_splits_char(v@),
        _ => true,
    }
}

/// The name and slot of palette key `m`.
fn palette_key(m: usize) -> (r: (&'static str, usize))
    requires
        m < PALETTE_KEY_COUNT,
    ensures
        r.0@ == palette_key_name(m as int),
        r.1 == palette_key_slot(m as int),
{
    match m {
        0 => ("black", 0),
        1 => ("red", 1),
        2 => ("green", 2),
        3 => ("yellow", 3),
        4 => ("blue", 4),
        5 => ("magenta", 5),
        6 => ("cyan", 6),
        7 => ("white", 7),
        8 => ("bright_black", 8),
        9 => ("bright_red", 9),
        10 => ("bright_green", 10),
        11 => ("bright_yellow", 11),
        12 => ("bright_blue", 12),
        13 => ("bright_magenta", 13),
        14 => ("bright_cyan", 14),
        15 => ("bright_white", 15),
        16 => ("foreground", 256),
        17 => ("background", 257),
        _ => ("cursor", 258),
    }
}

/// The index of the first entry that names `key`, if any.
fn find_palette_entry(entries: &Vec<(String, Option<String>)>, key: &String) -> (r: Option<usize>)
    ensures
        match r {
            Some(j) => j < entries@.len() && palette_value(entries@, key@) == Some(
                entries@[j as int].1,
            ),
            None => palette_value(entries@, key@) is None,
        },
{
    let mut j: usize = 0;
    while j < entries.len()
        invariant
            j <= entries@.len(),
            palette_value(entries@, key@) == palette_value_from(entries@, key@, j as int),
        decreases entries@.len() - j,
    {
        if entries[j].0.eq(key) {
            return Some(j);
        }
        j = j + 1;
    }
    None
}

/// Whether every palette key's value can be read without cutting a
/// character in two (reading refuses such a value).
pub fn palette_readable(entries: &Vec<(String, Option<String>)>) -> (ok: bool)
    ensures
        ok == forall|m: int| 0 <= m < PALETTE_KEY_COUNT ==> #[trigger] palette_key_readable(entries@, m),
{
    let mut m: usize = 0;
    while m < PALETTE_KEY_COUNT
        invariant
            m <= PALETTE_KEY_COUNT,
            forall|k: int| 0 <= k < m ==> #[trigger] palette_key_readable(entries@, k),
        decreases PALETTE_KEY_COUNT - m,
    {
        let (name, _slot) = palette_key(m);
        let key = name.to_owned();
        match find_palette_entry(entries, &key) {
            Some(j) => match &entries[j].1 {
                Some(v) => {
                    if palette_entry_splits_char_exec(v.as_str()) {
                        assert(!palette_key_readable(entries@, m as int));
                        return false;
                    }
                },
                None => {},
            },
            None => {},
        }
        m = m + 1;
    }
    true
}

/// Different palette keys have different names.
proof fn lemma_palette_key_names_distinct(a: int, b: int)
    requires
        0 <= a < PALETTE_KEY_COUNT,
        0 <= b < PALETTE_KEY_COUNT,
        a != b,
    ensures
        palette_key_name(a) != palette_key_name(b),
{
    reveal_strlit("black");
    reveal_strlit("red");
    reveal_strlit("green");
    reveal_strlit("yellow");
    reveal_strlit("blue");
    reveal_strlit("magenta");
    reveal_strlit("cyan");
    reveal_strlit("white");
    reveal_strlit("bright_black");
    reveal_strlit("bright_red");
    reveal_strlit("bright_green");
    reveal_strlit("bright_yellow");
    reveal_strlit("bright_blue");
    reveal_strlit("bright_magenta");
    reveal_strlit("bright_cyan");
    reveal_strlit("bright_white");
    reveal_strlit("foreground");
    reveal_strlit("background");
    reveal_strlit("cursor");
    let x = palette_key_name(a);
    let y = palette_key_name(b);
    assert(x.len() != y.len() || x[0] != y[0] || x[1] != y[1] || (x.len() > 7 && x[7] != y[7]));
}

/// The configuration keys and the palette slots they set, in order: the
/// eight ANSI colour names set slots 0 to 7 and their `bright_` variants
/// slots 8 to 15; foreground, background and cursor set slots 256, 257 and
/// 258.
pub open spec fn configured_key(m: int) -> (Seq<char>, int) {
    seq![
        ("black"@, 0int),
        ("red"@, 1int),
        ("green"@, 2int),
        ("yellow"@, 3int),
        ("blue"@, 4int),
        ("magenta"@, 5int),
        ("cyan"@, 6int),
        ("white"@, 7int),
        ("bright_black"@, 8int),
        ("bright_red"@, 9int),
        ("bright_green"@, 10int),
        ("bright_yellow"@, 11int),
        ("bright_blue"@, 12int),
        ("bright_magenta"@, 13int),
        ("bright_cyan"@, 14int),
        ("bright_white"@, 15int),
        ("foreground"@, 256int),
        ("background"@, 257int),
        ("cursor"@, 258int),
    ][m]
}

/// A configuration that sets one key to a colour overrides exactly the slot
/// that key names with that colour: `green` sets slot 2, `bright_red` slot
/// 9, `background` slot 257, and so on. Every other slot a key names falls
/// back to its default (its key is missing), and slots no key names keep
/// their override.
pub proof fn law_palette_key_sets_its_slot(
    old: Seq<Option<Rgb>>,
    m: int,
    key: String,
    value: String,
    c: Rgb,
)
    requires
        old.len() == PALETTE_SIZE,
        0 <= m < PALETTE_KEY_COUNT,
        key@ == configured_key(m).0,
        palette_color_spec(value@) == Some(c),
    ensures
        ({
            let after = palette_after(old, seq![(key, Some(value))]);
            let slot = configured_key(m).1;
            &&& after.len() == PALETTE_SIZE
            &&& after[slot] == Some(c)
            &&& forall|k: int|
                0 <= k < PALETTE_KEY_COUNT && k != m ==> after[#[trigger] configured_key(k).1]
                    is None
            &&& forall|i: int|
                0 <= i < PALETTE_SIZE && !(0 <= i < 16 || 256 <= i <= 258) ==> #[trigger] after[i]
                    == old[i]
        }),
{
    let entries = seq![(key, Some(value))];
    assert forall|k: int| 0 <= k < PALETTE_KEY_COUNT implies #[trigger] configured_key(k)
        == (palette_key_name(k), palette_key_slot(k)) && palette_slot_key(palette_key_slot(k)) == k by {
        if k == 0 {} else if k == 1 {} else if k == 2 {} else if k == 3 {} else if k == 4 {
        } else if k == 5 {} else if k == 6 {} else if k == 7 {} else if k == 8 {} else if k == 9 {
        } else if k == 10 {} else if k == 11 {} else if k == 12 {} else if k == 13 {
        } else if k == 14 {} else if k == 15 {} else if k == 16 {} else if k == 17 {} else {}
    }
    assert forall|k: int| 0 <= k < PALETTE_KEY_COUNT implies #[trigger] palette_value(
        entries,
        palette_key_name(k),
    ) == if k == m {
        Some(Some(value))
    } else {
        None::<Option<String>>
    } by {
        if k != m {
            lemma_palette_key_names_distinct(k, m);
        }
        assert(entries[0].0@ == key@);
        assert(palette_value_from(entries, palette_key_name(k), 1) is None);
    }
    let after = palette_after(old, entries);
    let slot = configured_key(m).1;
    assert(palette_value(entries, palette_key_name(m)) == Some(Some(value)));
    assert(after[slot] == palette_slot_after(old, entries, slot));
    assert forall|k: int| 0 <= k < PALETTE_KEY_COUNT && k != m implies after[
        #[trigger] configured_key(k).1
    ] is None by {
        assert(palette_value(entries, palette_key_name(k)) is None);
        assert(after[configured_key(k).1] == palette_slot_after(old, entries, configured_key(k).1));
    }
}

/// Apply a palette configuration taken from a user's alacritty config:
/// `entries` are its (key, value) pairs, the value `None` when it is not
/// text. Each of the nineteen keys (background, foreground, cursor, the
/// eight ANSI colours and their `bright_` variants) sets its slot to the
/// colour its `#RRGGBB` value reads as; a key that is missing falls back to
/// the built-in default; unknown keys and values that are not colours are
/// ignored.
pub fn apply_palette(colors: &mut Colors, entries: &Vec<(String, Option<String>)>)
    requires
        old(colors).wf(),
        forall|m: int| 0 <= m < PALETTE_KEY_COUNT ==> #[trigger] palette_key_readable(entries@, m),
    ensures
        final(colors).wf(),
        final(colors)@ == palette_after(old(colors)@, entries@),
{
    let ghost before = colors@;
    proof {
        colors.lemma_wf();
    }
    let mut m: usize = 0;
    while m < PALETTE_KEY_COUNT
        invariant
            m <= PALETTE_KEY_COUNT,
            colors.wf(),
            before.len() == PALETTE_SIZE,
            forall|k: int| 0 <= k < PALETTE_KEY_COUNT ==> #[trigger] palette_key_readable(entries@, k),
            forall|i: int|
                0 <= i < PALETTE_SIZE ==> #[trigger] colors@[i] == if palette_slot_key(i) < m {
                    palette_slot_after(before, entries@, i)
                } else {
                    before[i]
                },
        decreases PALETTE_KEY_COUNT - m,
    {
        proof {
            colors.lemma_wf();
        }
        let (name, slot) = palette_key(m);
        let key = name.to_owned();
        let ghost prev = colors@;
        assert(palette_slot_key(slot as int) == m);
        assert(palette_key_readable(entries@, m as int));
        let new_color = match find_palette_entry(entries, &key) {
            None => None,
            Some(j) => match &entries[j].1 {
                None => colors.get(slot),
                Some(v) => match parse_palette_color(v.as_str()) {
                    Some(c) => Some(c),
                    None => colors.get(slot),
                },
            },
        };
        assert(new_color == palette_slot_after(before, entries@, slot as int));
        colors.set(slot, new_color);
        proof {
            assert forall|i: int| 0 <= i < PALETTE_SIZE implies #[trigger] colors@[i] == if palette_slot_key(i) < m + 1 {
                palette_slot_after(before, entries@, i)
            } else {
                before[i]
            } by {
                if i != slot as int {
                    assert(colors@[i] == prev[i]);
                    assert(palette_slot_key(i) != m as int);
                }
            }
        }
        m = m + 1;
    }
    proof {
        colors.lemma_wf();
        assert(colors@ =~= palette_after(before, entries@));
    }
}

} // verus!
