//! Glyph-atlas packing: a shelf allocator that hands out non-overlapping
//! rectangles of a fixed-size texture, one row of glyphs after another.
use vstd::prelude::*;

verus! {

/// Key identifying a specific glyph in a glyph cache.
#[derive(Clone, Copy, Debug, PartialEq, Eq, Hash, Structural)]
pub struct GlyphKey {
    pub character: char,
    pub bold: bool,
    pub italic: bool,
}

/// A rectangle of the atlas: left, top, width, height.
pub struct Rect {
    pub x: int,
    pub y: int,
    pub w: int,
    pub h: int,
}

/// Two rectangles share no pixel.
pub open spec fn disjoint(a: Rect, b: Rect) -> bool {
    ||| a.x + a.w <= b.x
    ||| b.x + b.w <= a.x
    ||| a.y + a.h <= b.y
    ||| b.y + b.h <= a.y
}

/// Atlas packer using simple row-based allocation.
pub struct AtlasPacker {
    width: u32,
    height: u32,
    cursor_x: u32,
    cursor_y: u32,
    row_height: u32,
    /// Every rectangle handed out so far, in order.
    placed: Ghost<Seq<Rect>>,
}

/// Where the next glyph of size `w` x `h` goes from a packer state: it
/// moves to a fresh row first when it does not fit in what is left of the
/// current one. Returns the column, the row's top and the row's height
/// before this glyph.
pub open spec fn next_origin(
    width: u32,
    cursor_x: u32,
    cursor_y: u32,
    row_height: u32,
    w: u32,
) -> (int, int, int) {
    if cursor_x + w > width {
        (0, cursor_y + row_height + 1, 0)
    } else {
        (cursor_x as int, cursor_y as int, row_height as int)
    }
}

/// Where `allocate(w, h)` places a glyph from packer state `p`, or `None`
/// when the atlas is full.
pub open spec fn allocation(p: AtlasPacker, w: u32, h: u32) -> Option<(u32, u32)> {
    let (x, y, rh) = next_origin(p.width(), p.cursor_x(), p.cursor_y(), p.row_height(), w);
    if y + h > p.height() {
        None
    } else {
        Some((x as u32, y as u32))
    }
}

/// The packer state `after` is `before` after `allocate(w, h)`: the cursor
/// moved to a fresh row when the glyph did not fit in the current one; when
/// the glyph fits in the atlas, it is placed at the cursor, the cursor moves
/// past it and a one-pixel gap, and the row grows to the glyph's height.
pub open spec fn allocated(before: AtlasPacker, after: AtlasPacker, w: u32, h: u32) -> bool {
    let (x, y, rh) = next_origin(
        before.width(),
        before.cursor_x(),
        before.cursor_y(),
        before.row_height(),
        w,
    );
    &&& after.width() == before.width()
    &&& after.height() == before.height()
    &&& if y + h > before.height() {
        &&& after.cursor_x() == x
        &&& after.cursor_y() == y
        &&& after.row_height() == rh
        &&& after.placed() == before.placed()
    } else {
        &&& after.cursor_x() == x + w + 1
        &&& after.cursor_y() == y
        &&& after.row_height() == if rh >= h {
            rh
        } else {
            h as int
        }
        &&& after.placed() == before.placed().push(Rect { x, y, w: w as int, h: h as int })
    }
}

impl AtlasPacker {
    pub closed spec fn width(&self) -> u32 {
        self.width
    }

    pub closed spec fn height(&self) -> u32 {
        self.height
    }

    pub closed spec fn cursor_x(&self) -> u32 {
        self.cursor_x
    }

    pub closed spec fn cursor_y(&self) -> u32 {
        self.cursor_y
    }

    pub closed spec fn row_height(&self) -> u32 {
        self.row_height
    }

    /// The rectangles handed out so far, in order.
    pub closed spec fn placed(&self) -> Seq<Rect> {
        self.placed@
    }

    /// The packer's invariant: the rectangles handed out are pairwise
    /// disjoint, and each lies either wholly above the current row or in the
    /// current row, left of the cursor and no taller than the row.
    pub closed spec fn wf(&self) -> bool {
        &&& forall|i: int, j: int|
            0 <= i < j < self.placed@.len() ==> disjoint(
                #[trigger] self.placed@[i],
                #[trigger] self.placed@[j],
            )
        &&& forall|i: int|
            0 <= i < self.placed@.len() ==> {
                let r = #[trigger] self.placed@[i];
                ||| r.y + r.h <= self.cursor_y
                ||| (r.y == self.cursor_y && r.x + r.w < self.cursor_x && r.h <= self.row_height)
            }
    }

    /// Whether `allocate(w, h)` computes within `u32` from this state.
    pub open spec fn fits_u32(&self, w: u32, h: u32) -> bool {
        let (x, y, rh) = next_origin(self.width(), self.cursor_x(), self.cursor_y(), self.row_height(), w);
        &&& self.cursor_x() + w <= u32::MAX
        &&& y <= u32::MAX
        &&& y + h <= u32::MAX
        &&& (y + h <= self.height() ==> x + w + 1 <= u32::MAX)
    }

    /// Whether `allocate(w, h)` computes within `u32` from this state.
    pub fn fits(&self, w: u32, h: u32) -> (ok: bool)
        ensures
            ok == self.fits_u32(w, h),
    {
        let cx = self.cursor_x as u64 + w as u64;
        if cx > u32::MAX as u64 {
            return false;
        }
        let (x, y): (u64, u64) = if cx > self.width as u64 {
            (0, self.cursor_y as u64 + self.row_height as u64 + 1)
        } else {
            (self.cursor_x as u64, self.cursor_y as u64)
        };
        if y > u32::MAX as u64 || y + h as u64 > u32::MAX as u64 {
            return false;
        }
        !(y + h as u64 <= self.height as u64) || x + w as u64 + 1 <= u32::MAX as u64
    }

    /// A packer for an atlas of `width` x `height` pixels, with nothing placed.
    pub fn new(width: u32, height: u32) -> (p: Self)
        ensures
            p.wf(),
            p.width() == width,
            p.height() == height,
            p.cursor_x() == 0,
            p.cursor_y() == 0,
            p.row_height() == 0,
            p.placed().len() == 0,
    {
        AtlasPacker {
            width,
            height,
            cursor_x: 0,
            cursor_y: 0,
            row_height: 0,
            placed: Ghost(Seq::empty()),
        }
    }

    /// Allocate space for a glyph. Returns its (x, y) position in the atlas,
    /// or `None` when the atlas is full.
    pub fn allocate(&mut self, glyph_w: u32, glyph_h: u32) -> (pos: Option<(u32, u32)>)
        requires
            old(self).wf(),
            old(self).fits_u32(glyph_w, glyph_h),
        ensures
            final(self).wf(),
            pos == allocation(*old(self), glyph_w, glyph_h),
            allocated(*old(self), *final(self), glyph_w, glyph_h),
    {
        if self.cursor_x + glyph_w > self.width {
            // Move to next row.
            self.cursor_x = 0;
            self.cursor_y = self.cursor_y + self.row_height + 1;
            self.row_height = 0;
        }
        if self.cursor_y + glyph_h > self.height {
            // Atlas full.
            return None;
        }
        let pos = (self.cursor_x, self.cursor_y);
        let ghost r = Rect {
            x: self.cursor_x as int,
            y: self.cursor_y as int,
            w: glyph_w as int,
            h: glyph_h as int,
        };
        let ghost before = self.placed@;
        proof {
            assert forall|i: int| 0 <= i < before.len() implies disjoint(#[trigger] before[i], r) by {
            }
        }
        self.cursor_x = self.cursor_x + glyph_w + 1;
        if glyph_h > self.row_height {
            self.row_height = glyph_h;
        }
        self.placed = Ghost(before.push(r));
        proof {
            let p = self.placed@;
            assert forall|i: int, j: int|
                0 <= i < j < p.len() implies disjoint(#[trigger] p[i], #[trigger] p[j]) by {
                if j == p.len() - 1 {
                    assert(p[i] == before[i]);
                    assert(p[j] == r);
                } else {
                    assert(p[i] == before[i] && p[j] == before[j]);
                }
            }
            assert forall|i: int| 0 <= i < p.len() implies {
                let q = #[trigger] p[i];
                ||| q.y + q.h <= self.cursor_y
                ||| (q.y == self.cursor_y && q.x + q.w < self.cursor_x && q.h <= self.row_height)
            } by {
                if i < before.len() {
                    assert(p[i] == before[i]);
                }
            }
        }
        Some(pos)
    }
}

/// No two rectangles the packer has handed out overlap.
pub proof fn law_placements_disjoint(p: &AtlasPacker, i: int, j: int)
    requires
        p.wf(),
        0 <= i < p.placed().len(),
        0 <= j < p.placed().len(),
        i != j,
    ensures
        disjoint(p.placed()[i], p.placed()[j]),
{
    if i < j {
        assert(disjoint(p.placed()[i], p.placed()[j]));
    } else {
        assert(disjoint(p.placed()[j], p.placed()[i]));
    }
}

/// A glyph the packer places ends inside the atlas: always vertically, and
/// horizontally whenever the glyph is no wider than the atlas.
pub proof fn law_allocation_in_bounds(
    before: &AtlasPacker,
    after: &AtlasPacker,
    w: u32,
    h: u32,
    x: u32,
    y: u32,
)
    requires
        before.wf(),
        w <= before.width(),
        after.placed() == before.placed().push(Rect { x: x as int, y: y as int, w: w as int, h: h as int }),
        ({
            let (nx, ny, rh) = next_origin(
                before.width(),
                before.cursor_x(),
                before.cursor_y(),
                before.row_height(),
                w,
            );
            nx == x && ny == y && ny + h <= before.height()
        }),
    ensures
        x + w <= before.width(),
        y + h <= before.height(),
{
}

/// Width and height of a glyph cache's atlas texture, in pixels.
pub const ATLAS_SIZE: u32 = 2048;

/// Where the glyphs of a glyph cache sit in its atlas. Every glyph of the
/// cache has the same size. A key asked for the first time gets the next
/// place the packer hands out, or the atlas origin when the atlas is full,
/// and keeps that place from then on.
pub struct GlyphCache {
    keys: Vec<GlyphKey>,
    slots: Vec<(u32, u32)>,
    packer: AtlasPacker,
    glyph_w: u32,
    glyph_h: u32,
    /// The place of every cached key.
    cached: Ghost<Map<GlyphKey, (u32, u32)>>,
}

impl View for GlyphCache {
    type V = Map<GlyphKey, (u32, u32)>;

    closed spec fn view(&self) -> Map<GlyphKey, (u32, u32)> {
        self.cached@
    }
}

impl GlyphCache {
    /// The packer of the cache's atlas.
    pub closed spec fn packer(&self) -> AtlasPacker {
        self.packer
    }

    /// Width of every glyph, in pixels.
    pub closed spec fn glyph_w(&self) -> u32 {
        self.glyph_w
    }

    /// Height of every glyph, in pixels.
    pub closed spec fn glyph_h(&self) -> u32 {
        self.glyph_h
    }

    /// The cache's invariant: the packer's holds, and the keys stored are
    /// exactly the cached ones, each beside its place.
    pub closed spec fn wf(&self) -> bool {
        &&& self.packer.wf()
        &&& self.keys@.len() == self.slots@.len()
        &&& forall|i: int|
            0 <= i < self.keys@.len() ==> {
                &&& self.cached@.contains_key(#[trigger] self.keys@[i])
                &&& self.cached@[self.keys@[i]] == self.slots@[i]
            }
        &&& forall|k: GlyphKey|
            #[trigger] self.cached@.contains_key(k) ==> exists|i: int|
                0 <= i < self.keys@.len() && self.keys@[i] == k
    }

    /// An empty cache for glyphs of `glyph_w` x `glyph_h` pixels, over an
    /// atlas of `ATLAS_SIZE` x `ATLAS_SIZE` pixels.
    pub fn new(glyph_w: u32, glyph_h: u32) -> (c: Self)
        ensures
            c.wf(),
            c@ == Map::<GlyphKey, (u32, u32)>::empty(),
            c.glyph_w() == glyph_w,
            c.glyph_h() == glyph_h,
            c.packer().width() == ATLAS_SIZE,
            c.packer().height() == ATLAS_SIZE,
            c.packer().cursor_x() == 0,
            c.packer().cursor_y() == 0,
            c.packer().row_height() == 0,
            c.packer().placed().len() == 0,
    {
        GlyphCache {
            keys: Vec::new(),
            slots: Vec::new(),
            packer: AtlasPacker::new(ATLAS_SIZE, ATLAS_SIZE),
            glyph_w,
            glyph_h,
            cached: Ghost(Map::empty()),
        }
    }

    /// Whether placing one more glyph computes within `u32`.
    pub fn can_place(&self) -> (ok: bool)
        ensures
            ok == self.packer().fits_u32(self.glyph_w(), self.glyph_h()),
    {
        self.packer.fits(self.glyph_w, self.glyph_h)
    }

    /// The place of `key` in the atlas, and whether it is new (the glyph
    /// must then be drawn there). A cached key keeps its place and changes
    /// nothing; a new one gets the packer's next place, or the atlas origin
    /// when the atlas is full.
    pub fn get_or_insert(&mut self, key: GlyphKey) -> (r: ((u32, u32), bool))
        requires
            old(self).wf(),
            !old(self)@.contains_key(key) ==> old(self).packer().fits_u32(
                old(self).glyph_w(),
                old(self).glyph_h(),
            ),
        ensures
            final(self).wf(),
            final(self).glyph_w() == old(self).glyph_w(),
            final(self).glyph_h() == old(self).glyph_h(),
            old(self)@.contains_key(key) ==> {
                &&& r == (old(self)@[key], false)
                &&& final(self)@ == old(self)@
                &&& final(self).packer() == old(self).packer()
            },
            !old(self)@.contains_key(key) ==> {
                &&& r.1
                &&& r.0 == match allocation(old(self).packer(), old(self).glyph_w(), old(self).glyph_h()) {
                    Some(p) => p,
                    None => (0u32, 0u32),
                }
                &&& final(self)@ == old(self)@.insert(key, r.0)
                &&& allocated(old(self).packer(), final(self).packer(), old(self).glyph_w(), old(self).glyph_h())
            },
    {
        let n = self.keys.len();
        let mut i: usize = 0;
        while i < n
            invariant
                n == self.keys@.len(),
                i <= n,
                self.wf(),
                self@ == old(self)@,
                self.packer == old(self).packer,
                self.glyph_w == old(self).glyph_w,
                self.glyph_h == old(self).glyph_h,
                forall|j: int| 0 <= j < i ==> self.keys@[j] != key,
            decreases n - i,
        {
            if self.keys[i] == key {
                let ghost k = self.keys@[i as int];
                assert(self.cached@.contains_key(k));
                return (self.slots[i], false);
            }
            i = i + 1;
        }
        proof {
            if self.cached@.contains_key(key) {
                let j = choose|j: int| 0 <= j < self.keys@.len() && self.keys@[j] == key;
                assert(self.keys@[j] != key);
            }
        }
        let pos = match self.packer.allocate(self.glyph_w, self.glyph_h) {
            Some(p) => p,
            None => (0, 0),
        };
        let ghost before_keys = self.keys@;
        let ghost before_slots = self.slots@;
        let ghost before_map = self.cached@;
        self.keys.push(key);
        self.slots.push(pos);
        self.cached = Ghost(before_map.insert(key, pos));
        proof {
            assert forall|j: int| 0 <= j < self.keys@.len() implies {
                &&& self.cached@.contains_key(#[trigger] self.keys@[j])
                &&& self.cached@[self.keys@[j]] == self.slots@[j]
            } by {
                if j < before_keys.len() {
                    assert(self.keys@[j] == before_keys[j]);
                    assert(self.slots@[j] == before_slots[j]);
                    assert(before_keys[j] != key);
                }
            }
            assert forall|k: GlyphKey| #[trigger] self.cached@.contains_key(k) implies exists|j: int|
                0 <= j < self.keys@.len() && self.keys@[j] == k by {
                if k == key {
                    assert(self.keys@[before_keys.len() as int] == key);
                } else {
                    let j = choose|j: int| 0 <= j < before_keys.len() && before_keys[j] == k;
                    assert(self.keys@[j] == k);
                }
            }
        }
        (pos, true)
    }
}

/// The red channel of an RGBA pixel buffer of `w` x `h` pixels: the
/// coverage of white text drawn on a transparent background.
pub fn red_channel(rgba: &[u8], w: u32, h: u32) -> (alpha: Vec<u8>)
    requires
        w * h <= u32::MAX,
        w * h == 0 || 4 * (w * h - 1) < rgba@.len(),
    ensures
        alpha@.len() == w * h,
        forall|i: int| 0 <= i < w * h ==> #[trigger] alpha@[i] == rgba@[4 * i],
{
    let n = (w * h) as usize;
    let mut alpha: Vec<u8> = Vec::with_capacity(n);
    let len = rgba.len();
    let mut i: usize = 0;
    while i < n
        invariant
            len == rgba@.len(),
            n == w * h,
            n == 0 || 4 * (n - 1) < rgba@.len(),
            i <= n,
            alpha@.len() == i,
            forall|k: int| 0 <= k < i ==> #[trigger] alpha@[k] == rgba@[4 * k],
        decreases n - i,
    {
        assert(i * 4 <= 4 * (n - 1)) by (nonlinear_arith)
            requires
                i < n,
        ;
        alpha.push(rgba[i * 4]);
        i = i + 1;
    }
    alpha
}

} // verus!
