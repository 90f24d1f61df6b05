//! The app grid's geometry: how many columns and rows a page has, how large its icons are,
//! and where its tiles, dots and arrows go.
//!
//! The band that the grid gets is given in 64ths of a logical pixel. Everything in it is
//! placed in finer parts, of which a 64th holds enough for every division below to come out
//! even: a tenth of the width, the room between columns and rows, and half of either.

use vstd::prelude::*;

use crate::area::{Area, FAR};
use crate::lists::first_where;

verus! {

/// Fine parts to a 64th of a logical pixel.
pub const PARTS: i128 = 2100;

/// Fine parts to a logical pixel.
pub const FINE: i128 = 134_400;

/// Between columns and rows: at least, and at most.
pub const SPACING: i128 = 12 * FINE;

pub const MAX_SPACING: i128 = 36 * FINE;

/// The page's padding, at the sides and at the top and bottom.
pub const PAGE_PAD_H: i128 = 18 * FINE;

pub const PAGE_PAD_V: i128 = 24 * FINE;

/// A tile is this much larger than its icon, both ways.
pub const TILE_EXTRA: i128 = 48;

/// A page dot: its size, and its padding above and at the sides.
pub const DOT_SIZE: i128 = 10 * FINE;

pub const DOT_PAD_TOP: i128 = 6 * FINE;

pub const DOT_PAD_SIDE: i128 = 12 * FINE;

/// The strip below the grid that holds the dots.
pub const INDICATORS_STRIP_H: i128 = 40 * FINE;

/// An arrow's disc, and its margin.
pub const ARROW_DISC: i128 = 60 * FINE;

pub const ARROW_MARGIN: i128 = 6 * FINE;

/// How near a tile's edge a drag drops between tiles rather than on one.
pub const DIVIDER_LEEWAY: i128 = 20 * FINE;

/// The widest and tallest band, and the farthest from the origin.
pub const MAX_BAND: i64 = 0x100_0000;

/// The most entries a grid holds.
pub const MAX_ENTRIES: usize = 0x100_0000;

/// The band the grid gets, in 64ths of a logical pixel.
#[derive(Clone, Copy, Debug, PartialEq, Eq, Structural)]
pub struct Band {
    pub x: i64,
    pub y: i64,
    pub w: i64,
    pub h: i64,
}

/// What a page does with the room its cells leave.
#[derive(Clone, Copy, Debug, PartialEq, Eq, Structural)]
pub enum PageAlign {
    /// The cells spread, up to a limit; then they are centered.
    Fill,
    /// The cells stay together, centered.
    Center,
}

/// The cells of a page: their number, and where they are.
pub struct Cells {
    pub cols: int,
    pub rows: int,
    pub icon: int,
    pub side: int,
    pub x: int,
    pub h_gap: int,
    pub y: int,
    pub v_gap: int,
}

pub open spec fn larger(a: int, b: int) -> int {
    if a < b {
        b
    } else {
        a
    }
}

pub open spec fn smaller(a: int, b: int) -> int {
    if a < b {
        a
    } else {
        b
    }
}

pub open spec fn magnitude(a: int) -> int {
    if a < 0 {
        -a
    } else {
        a
    }
}

/// The nearest whole pixel; of two, the one farther from zero.
pub open spec fn round_px(v: int) -> int {
    if v >= 0 {
        (v + FINE / 2) / (FINE as int) * FINE
    } else {
        -((-v + FINE / 2) / (FINE as int) * FINE)
    }
}

/// The whole pixel nearest to a quotient of fine parts; of two, the one farther from zero.
pub open spec fn round_quotient(a: int, b: int) -> int {
    if a >= 0 {
        (a + b * (FINE / 2)) / (b * FINE) * FINE
    } else {
        -((-a + b * (FINE / 2)) / (b * FINE) * FINE)
    }
}

/// The page modes: columns and rows.
pub open spec fn modes(align: PageAlign) -> Seq<(int, int)> {
    match align {
        PageAlign::Fill => seq![(3, 8), (4, 6), (6, 4), (8, 3)],
        PageAlign::Center => seq![(3, 3)],
    }
}

/// The icon sizes, in logical pixels, the largest first.
pub open spec fn icon_sizes() -> Seq<int> {
    seq![96, 64, 48, 32, 24, 16]
}

impl Band {
    pub open spec fn good(self) -> bool {
        &&& -MAX_BAND <= self.x <= MAX_BAND
        &&& -MAX_BAND <= self.y <= MAX_BAND
        &&& 0 <= self.w <= MAX_BAND
        &&& 0 <= self.h <= MAX_BAND
    }

    pub open spec fn left(self) -> int {
        PARTS * self.x
    }

    pub open spec fn top(self) -> int {
        PARTS * self.y
    }

    pub open spec fn page_w(self) -> int {
        PARTS * self.w
    }

    /// The page is the band without the strip for the dots.
    pub open spec fn page_h(self) -> int {
        larger(PARTS * self.h - INDICATORS_STRIP_H, 0)
    }

    /// One of the two side bands: a tenth of the width, and room for an arrow at least.
    pub open spec fn hint_w(self) -> int {
        larger(PARTS / 10 * self.w, ARROW_DISC + 2 * ARROW_MARGIN)
    }

    pub open spec fn pad_h(self) -> int {
        PAGE_PAD_H + self.hint_w()
    }

    pub open spec fn content_w(self) -> int {
        self.page_w() - 2 * self.pad_h()
    }

    pub open spec fn content_h(self) -> int {
        self.page_h() - 2 * PAGE_PAD_V
    }

    /// There is room for anything at all.
    pub open spec fn roomy(self) -> bool {
        self.content_w() > 0 && self.content_h() > 0
    }

    /// How far a mode's shape is from the content's, but for the mode's rows.
    pub open spec fn off_shape(self, mode: (int, int)) -> int {
        magnitude(mode.0 * self.content_h() - self.content_w() * mode.1)
    }

    /// Mode `a` is nearer the content's shape than mode `b`.
    pub open spec fn nearer(self, a: (int, int), b: (int, int)) -> bool {
        self.off_shape(a) * b.1 < self.off_shape(b) * a.1
    }

    /// The first of the nearest among the first `n` modes.
    pub open spec fn best_of(self, modes: Seq<(int, int)>, n: int) -> int
        decreases n,
    {
        if n <= 1 {
            0
        } else {
            let before = self.best_of(modes, n - 1);
            if self.nearer(modes[n - 1], modes[before]) {
                n - 1
            } else {
                before
            }
        }
    }

    /// The columns and rows of a page.
    pub open spec fn mode(self, align: PageAlign) -> (int, int) {
        let all = modes(align);
        all[self.best_of(all, all.len() as int)]
    }

    /// Which icon sizes fit a page with these columns and rows.
    pub open spec fn icon_fits(self, cols: int, rows: int) -> spec_fn(int) -> bool {
        |i: int|
            {
                let side = (icon_sizes()[i] + TILE_EXTRA) * FINE;
                &&& side * cols + SPACING * (cols - 1) <= self.content_w()
                &&& side * rows + SPACING * (rows - 1) < self.content_h()
            }
    }

    /// The largest icon size that fits, or the smallest there is.
    pub open spec fn icon(self, cols: int, rows: int) -> int {
        let i = first_where(6, self.icon_fits(cols, rows), 0);
        if i < 6 {
            icon_sizes()[i]
        } else {
            16
        }
    }

    /// The cells of a page.
    pub open spec fn cells(self, align: PageAlign) -> Cells {
        let (cols, rows) = self.mode(align);
        let icon = self.icon(cols, rows);
        let side = (icon + TILE_EXTRA) * FINE;
        let across = spread(self.page_w(), cols, side, self.pad_h(), align);
        let down = spread(self.page_h(), rows, side, PAGE_PAD_V as int, align);
        Cells {
            cols,
            rows,
            icon,
            side,
            x: across.0,
            h_gap: across.1,
            y: down.0,
            v_gap: down.1,
        }
    }
}

/// Where `n` cells start on an axis, and what is between them. Spread out, they take the room
/// there is up to the most that may be between them, and what is left centers them. Kept
/// together, they are centered on a whole pixel.
pub open spec fn spread(page: int, n: int, side: int, pad: int, align: PageAlign) -> (int, int) {
    let empty = page - side * n - SPACING * (n - 1) - 2 * pad;
    if align == PageAlign::Center {
        (pad + larger(empty / (2 * FINE as int) * FINE, 0), SPACING as int)
    } else {
        let gap = SPACING + empty / (n - 1);
        if gap > MAX_SPACING {
            (
                pad + larger((empty - (MAX_SPACING - SPACING) * (n - 1)) / 2, 0),
                MAX_SPACING as int,
            )
        } else {
            (pad, gap)
        }
    }
}

/// Where a page's cells start, what is between them, and its shape.
#[derive(Clone, Copy, Debug, PartialEq, Eq, Structural)]
pub struct PageShape {
    pub cols: i128,
    pub rows: i128,
    pub icon: i128,
    pub side: i128,
    pub x: i128,
    pub h_gap: i128,
    pub y: i128,
    pub v_gap: i128,
}

impl PageShape {
    pub open spec fn is(self, cells: Cells) -> bool {
        &&& self.cols == cells.cols
        &&& self.rows == cells.rows
        &&& self.icon == cells.icon
        &&& self.side == cells.side
        &&& self.x == cells.x
        &&& self.h_gap == cells.h_gap
        &&& self.y == cells.y
        &&& self.v_gap == cells.v_gap
    }

    /// What any page's shape is within.
    pub open spec fn good(self) -> bool {
        &&& 3 <= self.cols <= 8
        &&& 3 <= self.rows <= 8
        &&& 16 <= self.icon <= 96
        &&& self.side == (self.icon + TILE_EXTRA) * FINE
        &&& 0 <= self.x <= 0x10_0000_0000
        &&& 0 <= self.y <= 0x10_0000_0000
        &&& -0x10_0000_0000 <= self.h_gap <= MAX_SPACING
        &&& -0x10_0000_0000 <= self.v_gap <= MAX_SPACING
    }
}

fn mode_at(align: PageAlign, i: usize) -> (mode: (i128, i128))
    requires
        i < modes(align).len(),
    ensures
        mode.0 == modes(align)[i as int].0,
        mode.1 == modes(align)[i as int].1,
{
    match align {
        PageAlign::Center => (3, 3),
        PageAlign::Fill => if i == 0 {
            (3, 8)
        } else if i == 1 {
            (4, 6)
        } else if i == 2 {
            (6, 4)
        } else {
            (8, 3)
        },
    }
}

fn icon_size(i: usize) -> (px: i128)
    requires
        i < 6,
    ensures
        px == icon_sizes()[i as int],
{
    if i == 0 {
        96
    } else if i == 1 {
        64
    } else if i == 2 {
        48
    } else if i == 3 {
        32
    } else if i == 4 {
        24
    } else {
        16
    }
}

fn max(a: i128, b: i128) -> (m: i128)
    ensures
        m == larger(a as int, b as int),
{
    if a < b {
        b
    } else {
        a
    }
}

/// One of the two side bands' width: a tenth of the band, and room for an arrow at least.
pub fn indicators_w(band: Band) -> (w: i128)
    requires
        band.good(),
    ensures
        w == band.hint_w(),
        72 * FINE <= w <= 0x1_0000_0000,
{
    max(PARTS / 10 * (band.w as i128), ARROW_DISC + 2 * ARROW_MARGIN)
}

/// Where cells start on an axis, and what is between them.
pub fn distribute(page: i128, n: i128, side: i128, pad: i128, align: PageAlign) -> (at: (
    i128,
    i128,
))
    requires
        2 <= n <= 8,
        0 <= page <= 0x10_0000_0000,
        0 <= side <= 0x1000_0000,
        0 <= pad <= 0x2_0000_0000,
    ensures
        (at.0 as int, at.1 as int) == spread(
            page as int,
            n as int,
            side as int,
            pad as int,
            align,
        ),
        0 <= at.0 <= 0x10_0000_0000,
        -0x10_0000_0000 <= at.1 <= MAX_SPACING,
{
    assert(0 <= side * n <= 0x8000_0000) by (nonlinear_arith)
        requires
            0 <= side <= 0x1000_0000,
            2 <= n <= 8,
    ;
    let empty: i128 = page - side * n - SPACING * (n - 1) - 2 * pad;
    if align == PageAlign::Center {
        let steps: i128 = floor_div(empty, 2 * FINE);
        return (pad + max(steps * FINE, 0), SPACING);
    }
    let gap: i128 = SPACING + floor_div(empty, n - 1);
    if gap > MAX_SPACING {
        let left: i128 = empty - (MAX_SPACING - SPACING) * (n - 1);
        (pad + max(floor_div(left, 2), 0), MAX_SPACING)
    } else {
        (pad, gap)
    }
}

/// The largest whole number no larger than a quotient.
fn floor_div(a: i128, b: i128) -> (q: i128)
    requires
        0 < b <= 0x1000_0000,
        -0x10_0000_0000_0000 <= a <= 0x10_0000_0000_0000,
    ensures
        q == (a as int) / (b as int),
        -0x10_0000_0000_0000 <= q <= 0x10_0000_0000_0000,
        a >= 0 ==> 0 <= q <= a,
        a < 0 ==> a <= q < 0,
        q * b <= a,
{
    let q: i128 = if a >= 0 {
        a / b
    } else {
        -((-a + b - 1) / b)
    };
    proof {
        lemma_floor_div(a as int, b as int);
    }
    q
}

proof fn lemma_floor_div(a: int, b: int)
    by (nonlinear_arith)
    requires
        0 < b,
    ensures
        a < 0 ==> -((-a + b - 1) / b) == a / b,
        a < 0 ==> a <= a / b < 0,
        a >= 0 ==> 0 <= a / b <= a,
        (a / b) * b <= a,
{
}

/// A grid of `n` entries in a band.
pub struct Grid {
    pub n: int,
    pub align: PageAlign,
    pub band: Band,
}

impl Grid {
    pub open spec fn good(self) -> bool {
        self.band.good() && 0 <= self.n <= MAX_ENTRIES
    }

    /// There is something to show, and room for it.
    pub open spec fn shows(self) -> bool {
        self.n > 0 && self.band.roomy()
    }

    pub open spec fn cells(self) -> Cells {
        self.band.cells(self.align)
    }

    pub open spec fn cols(self) -> int {
        if self.shows() {
            self.cells().cols
        } else {
            1
        }
    }

    pub open spec fn per_page(self) -> int {
        if self.shows() {
            self.cells().cols * self.cells().rows
        } else {
            1
        }
    }

    pub open spec fn n_pages(self) -> int {
        if self.shows() {
            (self.n + self.per_page() - 1) / self.per_page()
        } else {
            0
        }
    }

    /// The page that is meant: the last one for any past it.
    pub open spec fn page(self, page: int) -> int {
        if self.shows() {
            smaller(page, self.n_pages() - 1)
        } else {
            0
        }
    }

    /// The first entry of a page.
    pub open spec fn first(self, page: int) -> int {
        if self.shows() {
            self.page(page) * self.per_page()
        } else {
            0
        }
    }

    /// The entries on a page.
    pub open spec fn count(self, page: int) -> int {
        if self.shows() {
            smaller(self.per_page(), self.n - self.first(page))
        } else {
            0
        }
    }

    /// The `k`th tile of a page that is shifted by `dx`.
    pub open spec fn tile_x(self, k: int, dx: int) -> int {
        let cells = self.cells();
        round_px(self.band.left() + cells.x + dx + (k % cells.cols) * (cells.side + cells.h_gap))
    }

    pub open spec fn tile_y(self, k: int) -> int {
        let cells = self.cells();
        round_px(self.band.top() + cells.y + (k / cells.cols) * (cells.side + cells.v_gap))
    }

    pub open spec fn is_tile(self, k: int, dx: int, tile: Area) -> bool {
        &&& tile.x == self.tile_x(k, dx)
        &&& tile.y == self.tile_y(k)
        &&& tile.w == self.cells().side
        &&& tile.h == self.cells().side
    }

    /// How many rows of a page are in use.
    pub open spec fn rows_used(self, page: int) -> int {
        (self.count(page) + self.cells().cols - 1) / self.cells().cols
    }

    /// The box around a page's cells.
    pub open spec fn is_block(self, page: int, dx: int, block: Area) -> bool {
        let cells = self.cells();
        let rows = self.rows_used(page);
        &&& block.x == round_px(self.band.left() + cells.x + dx)
        &&& block.y == round_px(self.band.top() + cells.y)
        &&& block.w == cells.cols * cells.side + (cells.cols - 1) * cells.h_gap
        &&& block.h == rows * cells.side + (rows - 1) * cells.v_gap
    }

    /// The center of a page's dot, on the strip below the grid.
    pub open spec fn dot_x(self, page: int) -> int {
        let pitch = DOT_SIZE + 2 * DOT_PAD_SIDE;
        self.band.left() + (self.band.page_w() - pitch * self.n_pages()) / 2 + pitch / 2 + page
            * pitch
    }

    pub open spec fn dot_y(self) -> int {
        self.band.top() + PARTS * self.band.h - INDICATORS_STRIP_H + DOT_PAD_TOP + DOT_SIZE / 2
    }

    /// The two side bands.
    pub open spec fn is_hint(self, next: bool, hint: Area) -> bool {
        &&& hint.x == self.band.left() + (if next {
            self.band.page_w() - self.band.hint_w()
        } else {
            0
        })
        &&& hint.y == self.band.top()
        &&& hint.w == self.band.hint_w()
        &&& hint.h == self.band.page_h()
    }

    /// An arrow's disc, in the middle of its side band.
    pub open spec fn is_arrow(self, next: bool, disc: Area) -> bool {
        let left = self.band.left() + (if next {
            self.band.page_w() - self.band.hint_w()
        } else {
            0
        });
        &&& disc.x == round_px(left + (self.band.hint_w() - ARROW_DISC) / 2)
        &&& disc.y == round_px(self.band.top() + (self.band.page_h() - ARROW_DISC) / 2)
        &&& disc.w == ARROW_DISC
        &&& disc.h == ARROW_DISC
    }

    /// Everything about a page that is shifted by `dx`.
    pub open spec fn is_layout(self, page: int, dx: int, layout: GridLayout) -> bool {
        &&& layout.per_page == self.per_page()
        &&& layout.n_pages == self.n_pages()
        &&& layout.page == self.page(page)
        &&& layout.first_index == self.first(page)
        &&& layout.cols == self.cols()
        &&& layout.tiles@.len() == self.count(page)
        &&& forall|k: int|
            0 <= k < layout.tiles@.len() ==> self.is_tile(k, dx, #[trigger] layout.tiles@[k])
        &&& layout.indicators is Some <==> self.n_pages() > 1
        &&& layout.indicators matches Some(dots) ==> {
            &&& dots@.len() == self.n_pages()
            &&& forall|p: int|
                0 <= p < dots@.len() ==> (#[trigger] dots@[p]).0 == self.dot_x(p) && dots@[p].1
                    == self.dot_y()
        }
        &&& layout.prev_arrow is Some <==> self.page(page) > 0
        &&& layout.prev_arrow matches Some(disc) ==> self.is_arrow(false, disc)
        &&& layout.next_arrow is Some <==> self.page(page) + 1 < self.n_pages()
        &&& layout.next_arrow matches Some(disc) ==> self.is_arrow(true, disc)
        &&& self.shows() ==> {
            &&& layout.icon_px == self.cells().icon
            &&& layout.h_sp == self.cells().h_gap
            &&& layout.v_sp == self.cells().v_gap
            &&& self.is_block(page, dx, layout.block)
            &&& self.is_hint(false, layout.prev_hint)
            &&& self.is_hint(true, layout.next_hint)
        }
        &&& !self.shows() ==> layout.icon_px == 96 && layout.h_sp == 0 && layout.v_sp == 0
    }
}

/// A page, laid out.
pub struct GridLayout {
    /// The page's tiles, row by row.
    pub tiles: Vec<Area>,
    /// The box around its cells.
    pub block: Area,
    /// The icons' size, in logical pixels.
    pub icon_px: i128,
    /// The entry of the first tile.
    pub first_index: usize,
    pub cols: usize,
    pub h_sp: i128,
    pub v_sp: i128,
    pub per_page: usize,
    pub n_pages: usize,
    pub page: usize,
    /// The dots' centers, one for each page, if there is more than one.
    pub indicators: Option<Vec<(i128, i128)>>,
    /// The side bands.
    pub prev_hint: Area,
    pub next_hint: Area,
    /// The arrows' discs, where there is a page to go to.
    pub prev_arrow: Option<Area>,
    pub next_arrow: Option<Area>,
}

impl GridLayout {
    /// Nothing of the page is beyond measure.
    pub open spec fn near(&self) -> bool {
        &&& forall|k: int| 0 <= k < self.tiles@.len() ==> (#[trigger] self.tiles@[k]).near()
        &&& self.block.near()
        &&& self.prev_hint.near()
        &&& self.next_hint.near()
        &&& self.prev_arrow matches Some(disc) ==> disc.near()
        &&& self.next_arrow matches Some(disc) ==> disc.near()
        &&& self.indicators matches Some(dots) ==> forall|p: int|
            0 <= p < dots@.len() ==> -FAR <= (#[trigger] dots@[p]).0 <= FAR && -FAR <= dots@[p].1
                <= FAR
        &&& -FAR <= self.h_sp <= FAR
        &&& -FAR <= self.v_sp <= FAR
    }
}

fn rounded(v: i128) -> (px: i128)
    requires
        -0x1000_0000_0000 <= v <= 0x1000_0000_0000,
    ensures
        px == round_px(v as int),
        -0x2000_0000_0000 <= px <= 0x2000_0000_0000,
{
    if v >= 0 {
        (v + FINE / 2) / FINE * FINE
    } else {
        -((-v + FINE / 2) / FINE * FINE)
    }
}

/// A page's cells in the band.
pub fn page_shape(band: Band, align: PageAlign) -> (shape: PageShape)
    requires
        band.good(),
        band.roomy(),
    ensures
        shape.is(band.cells(align)),
        shape.good(),
{
    let page_w: i128 = PARTS * (band.w as i128);
    let page_h: i128 = max(PARTS * (band.h as i128) - INDICATORS_STRIP_H, 0);
    let pad_h: i128 = PAGE_PAD_H + indicators_w(band);
    let content_w: i128 = page_w - 2 * pad_h;
    let content_h: i128 = page_h - 2 * PAGE_PAD_V;
    let ghost all = modes(align);
    let len: usize = match align {
        PageAlign::Fill => 4,
        PageAlign::Center => 1,
    };
    let mut best = mode_at(align, 0);
    let mut i: usize = 1;
    while i < len
        invariant
            1 <= i <= len,
            len == modes(align).len(),
            all == modes(align),
            content_w == band.content_w(),
            content_h == band.content_h(),
            0 < content_w <= 0x10_0000_0000,
            0 < content_h <= 0x10_0000_0000,
            0 <= band.best_of(all, i as int) < i,
            best.0 == all[band.best_of(all, i as int)].0,
            best.1 == all[band.best_of(all, i as int)].1,
            3 <= best.0 <= 8,
            3 <= best.1 <= 8,
        decreases len - i,
    {
        let mode = mode_at(align, i);
        assert(all[i as int] == (mode.0 as int, mode.1 as int));
        assert(3 <= mode.0 <= 8 && 3 <= mode.1 <= 8);
        let new: i128 = off(mode, content_w, content_h);
        let kept: i128 = off(best, content_w, content_h);
        assert(0 <= new * best.1 <= 0x800_0000_0000 && 0 <= kept * mode.1 <= 0x800_0000_0000)
            by (nonlinear_arith)
            requires
                0 <= new <= 0x100_0000_0000,
                0 <= kept <= 0x100_0000_0000,
                3 <= best.1 <= 8,
                3 <= mode.1 <= 8,
        ;
        if new * best.1 < kept * mode.1 {
            best = mode;
        }
        i = i + 1;
    }
    let (cols, rows) = best;
    let ghost fits = band.icon_fits(cols as int, rows as int);
    let mut icon: i128 = 16;
    let mut found = false;
    let mut j: usize = 0;
    while j < 6 && !found
        invariant
            j <= 6,
            3 <= cols <= 8,
            3 <= rows <= 8,
            content_w == band.content_w(),
            content_h == band.content_h(),
            fits == band.icon_fits(cols as int, rows as int),
            !found ==> first_where(6, fits, 0) == first_where(6, fits, j as int),
            !found ==> icon == 16,
            found ==> j < 6 && first_where(6, fits, 0) == j && icon == icon_sizes()[j as int],
            16 <= icon <= 96,
        decreases 6 - j, !found as int,
    {
        let size: i128 = icon_size(j);
        let side: i128 = (size + TILE_EXTRA) * FINE;
        assert(0 < side * cols <= 0x1_0000_0000 && 0 < side * rows <= 0x1_0000_0000)
            by (nonlinear_arith)
            requires
                0 < side <= 0x200_0000,
                3 <= cols <= 8,
                3 <= rows <= 8,
        ;
        assert(fits(j as int) == (side * cols + SPACING * (cols - 1) <= content_w && side * rows
            + SPACING * (rows - 1) < content_h));
        if side * cols + SPACING * (cols - 1) <= content_w && side * rows + SPACING * (rows - 1)
            < content_h {
            icon = size;
            found = true;
        } else {
            j = j + 1;
        }
    }
    let side: i128 = (icon + TILE_EXTRA) * FINE;
    let (x, h_gap) = distribute(page_w, cols, side, pad_h, align);
    let (y, v_gap) = distribute(page_h, rows, side, PAGE_PAD_V, align);
    PageShape { cols, rows, icon, side, x, h_gap, y, v_gap }
}

/// How far a mode's shape is from the content's, but for the mode's rows.
fn off(mode: (i128, i128), content_w: i128, content_h: i128) -> (off: i128)
    requires
        3 <= mode.0 <= 8,
        3 <= mode.1 <= 8,
        0 < content_w <= 0x10_0000_0000,
        0 < content_h <= 0x10_0000_0000,
    ensures
        off == magnitude(mode.0 * content_h - content_w * mode.1),
        0 <= off <= 0x100_0000_0000,
{
    assert(0 < mode.0 * content_h <= 0x80_0000_0000 && 0 < content_w * mode.1 <= 0x80_0000_0000)
        by (nonlinear_arith)
        requires
            3 <= mode.0 <= 8,
            3 <= mode.1 <= 8,
            0 < content_w <= 0x10_0000_0000,
            0 < content_h <= 0x10_0000_0000,
    ;
    let diff: i128 = mode.0 * content_h - content_w * mode.1;
    if diff < 0 {
        -diff
    } else {
        diff
    }
}

/// Lay out a page of a grid with `n` entries, shifted sideways by `dx`. The dots and the
/// arrows stay where they are.
pub fn lay_out(n: usize, align: PageAlign, band: Band, page: usize, dx: i128) -> (layout:
    GridLayout)
    requires
        band.good(),
        n <= MAX_ENTRIES,
        -MAX_SHIFT <= dx <= MAX_SHIFT,
    ensures
        (Grid { n: n as int, align, band }).is_layout(page as int, dx as int, layout),
        layout.near(),
{
    let ghost grid = Grid { n: n as int, align, band };
    let page_w: i128 = PARTS * (band.w as i128);
    let page_h: i128 = max(PARTS * (band.h as i128) - INDICATORS_STRIP_H, 0);
    let hint_w: i128 = indicators_w(band);
    let roomy = page_w - 2 * (PAGE_PAD_H + hint_w) > 0 && page_h - 2 * PAGE_PAD_V > 0;
    if n == 0 || !roomy {
        let nowhere = Area { x: 0, y: 0, w: 0, h: 0 };
        return GridLayout {
            tiles: Vec::new(),
            block: nowhere,
            icon_px: 96,
            first_index: 0,
            cols: 1,
            h_sp: 0,
            v_sp: 0,
            per_page: 1,
            n_pages: 0,
            page: 0,
            indicators: None,
            prev_hint: nowhere,
            next_hint: nowhere,
            prev_arrow: None,
            next_arrow: None,
        };
    }
    let shape = page_shape(band, align);
    let cols: usize = shape.cols as usize;
    let rows: usize = shape.rows as usize;
    assert(9 <= cols * rows <= 64) by (nonlinear_arith)
        requires
            3 <= cols <= 8,
            3 <= rows <= 8,
    ;
    let per_page: usize = cols * rows;
    let n_pages: usize = (n + per_page - 1) / per_page;
    proof {
        lemma_pages(n as int, per_page as int);
    }
    let page: usize = if page < n_pages - 1 {
        page
    } else {
        n_pages - 1
    };
    proof {
        lemma_page_start(n as int, per_page as int, page as int);
    }
    let first: usize = page * per_page;
    let count: usize = if per_page < n - first {
        per_page
    } else {
        n - first
    };
    assert(grid.count(page as int) == count);
    let tiles = place_tiles(Ghost(grid), band, shape, count, dx);
    let rows_used: i128 = ((count + cols - 1) / cols) as i128;
    proof {
        assert(1 <= rows_used <= 22) by (nonlinear_arith)
            requires
                rows_used == (count + cols - 1) / (cols as int),
                1 <= count <= 64,
                3 <= cols <= 8,
        ;
        lemma_small_products(shape.cols as int, shape.side as int);
        lemma_small_products(rows_used as int, shape.side as int);
        lemma_small_products(shape.cols - 1, shape.h_gap as int);
        lemma_small_products(rows_used - 1, shape.v_gap as int);
    }
    let left: i128 = PARTS * (band.x as i128);
    let top: i128 = PARTS * (band.y as i128);
    let block = Area {
        x: rounded(left + shape.x + dx),
        y: rounded(top + shape.y),
        w: shape.cols * shape.side + (shape.cols - 1) * shape.h_gap,
        h: rows_used * shape.side + (rows_used - 1) * shape.v_gap,
    };
    let prev_hint = Area { x: left, y: top, w: hint_w, h: page_h };
    let next_hint = Area { x: left + page_w - hint_w, y: top, w: hint_w, h: page_h };
    GridLayout {
        tiles,
        block,
        icon_px: shape.icon,
        first_index: first,
        cols,
        h_sp: shape.h_gap,
        v_sp: shape.v_gap,
        per_page,
        n_pages,
        page,
        indicators: if n_pages > 1 {
            Some(place_dots(Ghost(grid), band, n_pages))
        } else {
            None
        },
        prev_hint,
        next_hint,
        prev_arrow: if page > 0 {
            Some(disc(prev_hint))
        } else {
            None
        },
        next_arrow: if page + 1 < n_pages {
            Some(disc(next_hint))
        } else {
            None
        },
    }
}

/// The farthest a page is shifted.
pub const MAX_SHIFT: i128 = 0x800_0000_0000;

/// An arrow's disc, in the middle of its side band.
fn disc(hint: Area) -> (disc: Area)
    requires
        -0x80_0000_0000 <= hint.x <= 0x80_0000_0000,
        -0x80_0000_0000 <= hint.y <= 0x80_0000_0000,
        0 <= hint.w <= 0x80_0000_0000,
        0 <= hint.h <= 0x80_0000_0000,
    ensures
        disc.x == round_px(hint.x + (hint.w - ARROW_DISC) / 2),
        disc.y == round_px(hint.y + (hint.h - ARROW_DISC) / 2),
        disc.w == ARROW_DISC,
        disc.h == ARROW_DISC,
        disc.near(),
{
    Area {
        x: rounded(hint.x + floor_div(hint.w - ARROW_DISC, 2)),
        y: rounded(hint.y + floor_div(hint.h - ARROW_DISC, 2)),
        w: ARROW_DISC,
        h: ARROW_DISC,
    }
}

/// The dots' centers.
fn place_dots(Ghost(grid): Ghost<Grid>, band: Band, n_pages: usize) -> (dots: Vec<(i128, i128)>)
    requires
        grid.good(),
        band == grid.band,
        n_pages == grid.n_pages(),
        n_pages <= MAX_ENTRIES,
    ensures
        dots@.len() == n_pages,
        forall|p: int|
            0 <= p < dots@.len() ==> (#[trigger] dots@[p]).0 == grid.dot_x(p) && dots@[p].1
                == grid.dot_y() && -FAR <= dots@[p].0 <= FAR && -FAR <= dots@[p].1 <= FAR,
{
    let pitch: i128 = DOT_SIZE + 2 * DOT_PAD_SIDE;
    let left: i128 = PARTS * (band.x as i128);
    let page_w: i128 = PARTS * (band.w as i128);
    let first: i128 = left + floor_div(page_w - pitch * (n_pages as i128), 2) + pitch / 2;
    let y: i128 = PARTS * (band.y as i128) + PARTS * (band.h as i128) - INDICATORS_STRIP_H
        + DOT_PAD_TOP + DOT_SIZE / 2;
    let mut dots: Vec<(i128, i128)> = Vec::new();
    let mut p: usize = 0;
    while p < n_pages
        invariant
            p <= n_pages,
            n_pages <= MAX_ENTRIES,
            dots@.len() == p,
            pitch == DOT_SIZE + 2 * DOT_PAD_SIDE,
            -0x10_0000_0000_0000 <= first <= 0x10_0000_0000_0000,
            -FAR <= y <= FAR,
            first == grid.band.left() + (grid.band.page_w() - pitch * grid.n_pages()) / 2 + pitch
                / 2,
            y == grid.dot_y(),
            forall|q: int|
                0 <= q < p ==> (#[trigger] dots@[q]).0 == grid.dot_x(q) && dots@[q].1
                    == grid.dot_y() && -FAR <= dots@[q].0 <= FAR && -FAR <= dots@[q].1 <= FAR,
        decreases n_pages - p,
    {
        assert(0 <= p * pitch <= 0x100_0000 * pitch) by (nonlinear_arith)
            requires
                p <= 0x100_0000,
                0 <= pitch,
        ;
        dots.push((first + (p as i128) * pitch, y));
        p = p + 1;
    }
    dots
}

/// A page's tiles.
fn place_tiles(Ghost(grid): Ghost<Grid>, band: Band, shape: PageShape, count: usize, dx: i128) -> (
    tiles: Vec<Area>)
    requires
        grid.good(),
        band == grid.band,
        shape.is(grid.cells()),
        shape.good(),
        count <= 64,
        -MAX_SHIFT <= dx <= MAX_SHIFT,
    ensures
        tiles@.len() == count,
        forall|k: int|
            0 <= k < tiles@.len() ==> grid.is_tile(k, dx as int, #[trigger] tiles@[k])
                && tiles@[k].near(),
{
    let cols: usize = shape.cols as usize;
    let left: i128 = PARTS * (band.x as i128) + shape.x + dx;
    let top: i128 = PARTS * (band.y as i128) + shape.y;
    let mut tiles: Vec<Area> = Vec::new();
    let mut k: usize = 0;
    while k < count
        invariant
            k <= count,
            count <= 64,
            band == grid.band,
            shape.is(grid.cells()),
            shape.good(),
            cols == shape.cols,
            -0x900_0000_0000 <= left <= 0x900_0000_0000,
            -0x100_0000_0000 <= top <= 0x100_0000_0000,
            left == grid.band.left() + grid.cells().x + dx,
            top == grid.band.top() + grid.cells().y,
            tiles@.len() == k,
            forall|j: int|
                0 <= j < k ==> grid.is_tile(j, dx as int, #[trigger] tiles@[j])
                    && tiles@[j].near(),
        decreases count - k,
    {
        let c: i128 = (k % cols) as i128;
        let r: i128 = (k / cols) as i128;
        proof {
            assert(0 <= r <= 22 && 0 <= c <= 8) by (nonlinear_arith)
                requires
                    r == k / cols,
                    c == k % cols,
                    k <= 64,
                    3 <= cols <= 8,
            ;
            lemma_small_products(c as int, shape.side + shape.h_gap);
            lemma_small_products(r as int, shape.side + shape.v_gap);
        }
        tiles.push(
            Area {
                x: rounded(left + c * (shape.side + shape.h_gap)),
                y: rounded(top + r * (shape.side + shape.v_gap)),
                w: shape.side,
                h: shape.side,
            },
        );
        k = k + 1;
    }
    tiles
}

proof fn lemma_small_products(a: int, b: int)
    by (nonlinear_arith)
    requires
        0 <= a <= 24,
        -0x10_0000_0000 <= b <= 0x10_0000_0000,
    ensures
        -0x200_0000_0000 <= a * b <= 0x200_0000_0000,
{
}

/// Some page holds the last entry, and no page past it.
proof fn lemma_pages(n: int, per_page: int)
    by (nonlinear_arith)
    requires
        0 < n,
        0 < per_page,
    ensures
        1 <= (n + per_page - 1) / per_page <= n,
        ((n + per_page - 1) / per_page - 1) * per_page < n,
{
}

proof fn lemma_page_start(n: int, per_page: int, page: int)
    requires
        0 < n,
        0 < per_page,
        0 <= page < (n + per_page - 1) / per_page,
    ensures
        0 <= page * per_page < n,
{
    lemma_pages(n, per_page);
    let last = (n + per_page - 1) / per_page - 1;
    assert(page * per_page <= last * per_page && 0 <= page * per_page) by (nonlinear_arith)
        requires
            0 <= page <= last,
            0 < per_page,
    ;
}

/// The cells start within reach, and are not far apart.
pub proof fn lemma_spread(page: int, n: int, side: int, pad: int, align: PageAlign)
    requires
        2 <= n <= 8,
        0 <= page <= 0x10_0000_0000,
        0 <= side <= 0x1000_0000,
        0 <= pad <= 0x2_0000_0000,
    ensures
        0 <= spread(page, n, side, pad, align).0 <= 0x10_0000_0000,
        -0x10_0000_0000 <= spread(page, n, side, pad, align).1 <= MAX_SPACING,
{
    let empty = page - side * n - SPACING * (n - 1) - 2 * pad;
    assert(0 <= side * n <= 0x8000_0000) by (nonlinear_arith)
        requires
            0 <= side <= 0x1000_0000,
            2 <= n <= 8,
    ;
    lemma_floor_div(empty, n - 1);
    lemma_floor_div(empty, 2 * FINE as int);
    assert(empty / (2 * FINE as int) * FINE <= larger(empty, 0)) by (nonlinear_arith)
        requires
            empty / (2 * FINE as int) * (2 * FINE as int) <= empty,
            FINE == 134_400,
    ;
}

/// Cells for which there is room are no nearer than they should be, and stay clear of the
/// padding at both ends.
pub proof fn law_spread_fits(page: int, n: int, side: int, pad: int, align: PageAlign)
    requires
        2 <= n,
        0 <= side,
        side * n + SPACING * (n - 1) <= page - 2 * pad,
    ensures
        SPACING <= spread(page, n, side, pad, align).1 <= MAX_SPACING,
        pad <= spread(page, n, side, pad, align).0,
        spread(page, n, side, pad, align).0 + side * n + spread(page, n, side, pad, align).1 * (n
            - 1) <= page - pad,
{
    let empty = page - side * n - SPACING * (n - 1) - 2 * pad;
    let share = empty / (n - 1);
    assert(0 <= share && share * (n - 1) <= empty) by (nonlinear_arith)
        requires
            share == empty / (n - 1),
            0 <= empty,
            n >= 2,
    ;
    assert((SPACING + share) * (n - 1) == SPACING * (n - 1) + share * (n - 1)) by (nonlinear_arith);
    assert(MAX_SPACING * (n - 1) == SPACING * (n - 1) + (MAX_SPACING - SPACING) * (n - 1))
        by (nonlinear_arith);
    assert(SPACING + share > MAX_SPACING ==> (MAX_SPACING - SPACING) * (n - 1) <= share * (n - 1))
        by (nonlinear_arith)
        requires
            n >= 2,
    ;
    let steps = empty / (2 * FINE as int);
    assert(0 <= steps && steps * FINE <= empty) by (nonlinear_arith)
        requires
            steps == empty / (2 * FINE as int),
            0 <= empty,
            FINE == 134_400,
    ;
}

/// Whole pixels apart before rounding is as many apart after it, or more.
pub proof fn lemma_round_apart(v: int, w: int, px: int)
    requires
        v + px * FINE <= w,
        0 <= px,
    ensures
        round_px(v) + px * FINE <= round_px(w),
{
    let h = FINE / 2;
    let f = FINE as int;
    let up = |t: int| (t + h) / f * f;
    lemma_floor_apart(v + h, w + h, px);
    lemma_floor_apart(-w + h, -v + h, px);
    // A tie below zero rounds down, one above it up.
    if v < 0 {
        assert(-((-v + h) / f * f) <= (v + h) / f * f) by (nonlinear_arith)
            requires
                f == 134_400,
                h == 67_200,
        ;
    }
}

proof fn lemma_floor_apart(v: int, w: int, px: int)
    requires
        v + px * FINE <= w,
        0 <= px,
    ensures
        v / (FINE as int) * FINE + px * FINE <= w / (FINE as int) * FINE,
{
    let f = FINE as int;
    assert(v / f + px <= w / f) by (nonlinear_arith)
        requires
            v + px * f <= w,
            f == 134_400,
    ;
    let (a, b) = (v / f, w / f);
    assert(a * f + px * f <= b * f) by (nonlinear_arith)
        requires
            a + px <= b,
            f == 134_400,
    ;
}

/// The room that is left over on an axis.
pub open spec fn empty_room(page: int, n: int, side: int, pad: int) -> int {
    page - side * n - SPACING * (n - 1) - 2 * pad
}

/// Every division of a page comes out even: the room between cells, and half of it.
pub proof fn law_even(band: Band, align: PageAlign)
    requires
        band.good(),
        band.roomy(),
    ensures
        ({
            let cells = band.cells(align);
            let across = empty_room(band.page_w(), cells.cols, cells.side, band.pad_h());
            let down = empty_room(band.page_h(), cells.rows, cells.side, PAGE_PAD_V as int);
            &&& across % (2 * (cells.cols - 1)) == 0
            &&& down % (2 * (cells.rows - 1)) == 0
            &&& (PARTS * band.w) % 10 == 0
        }),
{
    let all = modes(align);
    band.lemma_best(all, all.len() as int);
    let cells = band.cells(align);
    let (w, h, c, r) = (band.w as int, band.h as int, cells.cols, cells.rows);
    let px = cells.icon + TILE_EXTRA;
    let across = empty_room(band.page_w(), c, cells.side, band.pad_h());
    let down = empty_room(band.page_h(), r, cells.side, PAGE_PAD_V as int);
    assert(cells.side * c == 420 * (320 * px * c) && cells.side * r == 420 * (320 * px * r))
        by (nonlinear_arith)
        requires
            cells.side == px * 134_400,
    ;
    let a = if band.hint_w() == 210 * w {
        4 * w - 320 * px * c - 3840 * (c - 1) - 320 * 36
    } else {
        5 * w - 320 * px * c - 3840 * (c - 1) - 320 * 36 - 320 * 144
    };
    assert(across == 420 * a);
    let b = 5 * h - 320 * 40 - 320 * px * r - 3840 * (r - 1) - 320 * 48;
    assert(down == 420 * b);
    lemma_multiple(a, c);
    lemma_multiple(b, r);
}

proof fn lemma_multiple(a: int, n: int)
    requires
        n == 3 || n == 4 || n == 6 || n == 8,
    ensures
        (420 * a) % (2 * (n - 1)) == 0,
{
    if n == 3 {
        assert((420 * a) % 4 == 0);
    } else if n == 4 {
        assert((420 * a) % 6 == 0);
    } else if n == 6 {
        assert((420 * a) % 10 == 0);
    } else {
        assert((420 * a) % 14 == 0);
    }
}

impl Band {
    /// The best mode is one of them.
    pub proof fn lemma_best(self, modes: Seq<(int, int)>, n: int)
        requires
            1 <= n <= modes.len(),
        ensures
            0 <= self.best_of(modes, n) < n,
        decreases n,
    {
        if n > 1 {
            self.lemma_best(modes, n - 1);
        }
    }
}

} // verus!
