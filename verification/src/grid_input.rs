//! What the pointer, the keyboard and a swipe do to the app grid.
//!
//! Points are in the fine parts of a logical pixel that the grid is laid out in.

use vstd::prelude::*;

use crate::app_grid::{index_in, AppGrid, DragLocation, FocusDir, GridDropTarget, PageArrow, SLOP};
use crate::area::{Area, FAR};
use crate::grid_layout::{
    larger, lay_out, magnitude, round_px, smaller, Band, Grid, GridLayout, DIVIDER_LEEWAY,
    DOT_PAD_SIDE, DOT_PAD_TOP, DOT_SIZE, FINE, MAX_SHIFT, PARTS,
};
use crate::lists::{first_where, lemma_first_where};

verus! {

impl Grid {
    /// Which tiles of a page a point is on.
    pub open spec fn over_tile(self, x: int, y: int) -> spec_fn(int) -> bool {
        |k: int|
            self.tile_x(k, 0) <= x < self.tile_x(k, 0) + self.cells().side && self.tile_y(k) <= y
                < self.tile_y(k) + self.cells().side
    }

    /// Which dots a point is on, padding included.
    pub open spec fn over_dot(self, x: int, y: int) -> spec_fn(int) -> bool {
        |p: int|
            magnitude(x - self.dot_x(p)) <= DOT_SIZE / 2 + DOT_PAD_SIDE && magnitude(
                y - self.dot_y(),
            ) <= DOT_SIZE / 2 + DOT_PAD_TOP
    }

    /// The point is in the side band to the page before or after.
    pub open spec fn over_hint(self, next: bool, x: int, y: int) -> bool {
        let left = self.band.left() + (if next {
            self.band.page_w() - self.band.hint_w()
        } else {
            0
        });
        left <= x < left + self.band.hint_w() && self.band.top() <= y < self.band.top()
            + self.band.page_h()
    }

    /// The point is on the arrow to the page before or after.
    pub open spec fn over_arrow(self, next: bool, x: int, y: int) -> bool {
        exists|disc: Area| #[trigger] self.is_arrow(next, disc) && disc.has(x, y)
    }

    /// The box around a page's cells: its left, its top, its width and its height.
    pub open spec fn block_x(self) -> int {
        round_px(self.band.left() + self.cells().x)
    }

    pub open spec fn block_y(self) -> int {
        round_px(self.band.top() + self.cells().y)
    }

    pub open spec fn block_w(self) -> int {
        self.cells().cols * self.cells().side + (self.cells().cols - 1) * self.cells().h_gap
    }

    pub open spec fn block_h(self, page: int) -> int {
        self.rows_used(page) * self.cells().side + (self.rows_used(page) - 1) * self.cells().v_gap
    }

    /// Which tiles a drop at a point is for: half the room around a tile is the tile's, and
    /// beside the cells everything is the outermost tile's.
    pub open spec fn claims(self, x: int, y: int) -> spec_fn(int) -> bool {
        |k: int|
            {
                let cells = self.cells();
                let (left, top) = (self.tile_x(k, 0), self.tile_y(k));
                let beside = (x < self.block_x() && k % cells.cols == 0) || (x > self.block_x()
                    + self.block_w() && k % cells.cols == cells.cols - 1);
                &&& top - cells.v_gap / 2 <= y <= top + cells.side + cells.v_gap / 2
                &&& beside || left - cells.h_gap / 2 <= x <= left + cells.side + cells.h_gap / 2
            }
    }

    /// Where a drop is, relative to tile `k`.
    pub open spec fn edge(self, k: int, x: int) -> DragLocation {
        let left = self.tile_x(k, 0);
        if x < left + DIVIDER_LEEWAY {
            DragLocation::StartEdge
        } else if x > left + self.cells().side - DIVIDER_LEEWAY {
            DragLocation::EndEdge
        } else {
            DragLocation::OnIcon
        }
    }

    /// Where entry `i` is when all pages are side by side, and `page` is where it is seen.
    pub open spec fn virtual_x(self, page: int, i: int) -> int {
        let cells = self.cells();
        let k = i % self.per_page();
        self.tile_x(0, 0) + (k % cells.cols) * (cells.side + cells.h_gap) + (i / self.per_page()
            - page) * self.band.page_w()
    }

    pub open spec fn virtual_y(self, i: int) -> int {
        let cells = self.cells();
        let k = i % self.per_page();
        self.tile_y(0) + (k / cells.cols) * (cells.side + cells.v_gap)
    }

    /// Entry `i` lies in a direction from entry `from`, give or take a little.
    pub open spec fn lies(self, page: int, from: int, dir: FocusDir, i: int) -> bool {
        let side = self.cells().side;
        i != from && match dir {
            FocusDir::Up => self.virtual_y(i) + side <= self.virtual_y(from) + SLOP,
            FocusDir::Down => self.virtual_y(i) >= self.virtual_y(from) + side - SLOP,
            FocusDir::Left => self.virtual_x(page, i) + side <= self.virtual_x(page, from) + SLOP,
            FocusDir::Right => self.virtual_x(page, i) >= self.virtual_x(page, from) + side - SLOP,
        }
    }

    /// The square of the distance between two entries.
    pub open spec fn apart(self, page: int, from: int, i: int) -> int {
        let dx = self.virtual_x(page, i) - self.virtual_x(page, from);
        let dy = self.virtual_y(i) - self.virtual_y(from);
        dx * dx + dy * dy
    }

    /// The nearest of the first `n` entries that lie in a direction; of several, the first.
    pub open spec fn nearest(self, page: int, from: int, dir: FocusDir, n: int) -> Option<int>
        decreases n,
    {
        if n <= 0 {
            None
        } else {
            let before = self.nearest(page, from, dir, n - 1);
            if self.lies(page, from, dir, n - 1) && (before matches Some(b) ==> self.apart(
                page,
                from,
                n - 1,
            ) < self.apart(page, from, b)) {
                Some(n - 1)
            } else {
                before
            }
        }
    }
}

impl AppGrid {
    /// The current page, laid out.
    pub fn layout(&self, band: Band) -> (layout: GridLayout)
        requires
            self.measured(band),
        ensures
            self.grid(band).is_layout(self.current_page as int, 0, layout),
            layout.near(),
    {
        self.layout_at(band, self.current_page, 0)
    }

    /// A page, laid out, with its tiles shifted sideways.
    pub fn layout_at(&self, band: Band, page: usize, dx: i128) -> (layout: GridLayout)
        requires
            self.measured(band),
            -MAX_SHIFT <= dx <= MAX_SHIFT,
        ensures
            self.grid(band).is_layout(page as int, dx as int, layout),
            layout.near(),
    {
        lay_out(self.entries.len(), self.align, band, page, dx)
    }

    /// The entry under a point, on the current page.
    pub fn hit_test(&self, band: Band, x: i128, y: i128) -> (entry: Option<usize>)
        requires
            self.measured(band),
        ensures
            ({
                let grid = self.grid(band);
                let n = grid.count(self.current_page as int);
                let k = first_where(n, grid.over_tile(x as int, y as int), 0);
                match entry {
                    Some(i) => k < n && i == grid.first(self.current_page as int) + k && i
                        < self.entries@.len(),
                    None => k == n,
                }
            }),
    {
        let layout = self.layout(band);
        let ghost grid = self.grid(band);
        let ghost n = grid.count(self.current_page as int);
        let ghost over = grid.over_tile(x as int, y as int);
        let mut k: usize = 0;
        while k < layout.tiles.len()
            invariant
                k <= layout.tiles@.len(),
                n == layout.tiles@.len(),
                self.measured(band),
                grid == self.grid(band),
                grid.is_layout(self.current_page as int, 0, layout),
                layout.near(),
                over == grid.over_tile(x as int, y as int),
                first_where(n, over, 0) == first_where(n, over, k as int),
            decreases layout.tiles@.len() - k,
        {
            assert(grid.is_tile(k as int, 0, layout.tiles@[k as int]));
            assert(layout.tiles@[k as int].near());
            assert(over(k as int) == layout.tiles@[k as int].has(x as int, y as int));
            if layout.tiles[k].contains(x, y) {
                return Some(layout.first_index + k);
            }
            k = k + 1;
        }
        None
    }

    /// The page whose dot is under a point.
    pub fn indicator_hit(&self, band: Band, x: i128, y: i128) -> (page: Option<usize>)
        requires
            self.measured(band),
            -FAR <= x <= FAR,
            -FAR <= y <= FAR,
        ensures
            ({
                let grid = self.grid(band);
                let n = if grid.n_pages() > 1 {
                    grid.n_pages()
                } else {
                    0
                };
                let p = first_where(n, grid.over_dot(x as int, y as int), 0);
                match page {
                    Some(page) => page < n && page == p,
                    None => p == n,
                }
            }),
    {
        let layout = self.layout(band);
        let ghost grid = self.grid(band);
        let dots = match &layout.indicators {
            Some(dots) => dots,
            None => return None,
        };
        let ghost n = grid.n_pages();
        let ghost over = grid.over_dot(x as int, y as int);
        let mut p: usize = 0;
        while p < dots.len()
            invariant
                p <= dots@.len(),
                n == dots@.len(),
                n > 1,
                n == grid.n_pages(),
                grid == self.grid(band),
                -FAR <= x <= FAR,
                -FAR <= y <= FAR,
                layout.near(),
                layout.indicators == Some(*dots),
                forall|q: int|
                    0 <= q < dots@.len() ==> (#[trigger] dots@[q]).0 == grid.dot_x(q) && dots@[q].1
                        == grid.dot_y(),
                over == grid.over_dot(x as int, y as int),
                first_where(n, over, 0) == first_where(n, over, p as int),
            decreases dots@.len() - p,
        {
            let (dot_x, dot_y) = dots[p];
            assert(dots@[p as int].0 == grid.dot_x(p as int));
            assert(-FAR <= layout.indicators->Some_0@[p as int].0 <= FAR);
            let dx: i128 = x - dot_x;
            let dy: i128 = y - dot_y;
            let reach_x: i128 = DOT_SIZE / 2 + DOT_PAD_SIDE;
            let reach_y: i128 = DOT_SIZE / 2 + DOT_PAD_TOP;
            let on = -reach_x <= dx && dx <= reach_x && -reach_y <= dy && dy <= reach_y;
            assert(over(p as int) == on);
            if on {
                return Some(p);
            }
            p = p + 1;
        }
        None
    }

    /// The arrow under a point.
    pub fn arrow_hit(&self, band: Band, x: i128, y: i128) -> (arrow: Option<PageArrow>)
        requires
            self.measured(band),
        ensures
            ({
                let grid = self.grid(band);
                let page = grid.page(self.current_page as int);
                arrow == if page > 0 && grid.over_arrow(false, x as int, y as int) {
                    Some(PageArrow::Prev)
                } else if page + 1 < grid.n_pages() && grid.over_arrow(true, x as int, y as int) {
                    Some(PageArrow::Next)
                } else {
                    None
                }
            }),
    {
        let layout = self.layout(band);
        let ghost grid = self.grid(band);
        if let Some(disc) = &layout.prev_arrow {
            proof {
                grid.lemma_arrow(false, *disc, x as int, y as int);
            }
            if disc.contains(x, y) {
                return Some(PageArrow::Prev);
            }
        }
        if let Some(disc) = &layout.next_arrow {
            proof {
                grid.lemma_arrow(true, *disc, x as int, y as int);
            }
            if disc.contains(x, y) {
                return Some(PageArrow::Next);
            }
        }
        None
    }

    /// The side band under a point, while the neighbouring pages peek in. The one to the page
    /// after counts on the last page too: what is dropped there makes a new page.
    pub fn hint_at(&self, band: Band, peeking: bool, x: i128, y: i128) -> (hint: Option<PageArrow>)
        requires
            self.measured(band),
        ensures
            ({
                let grid = self.grid(band);
                hint == if !peeking || !grid.shows() {
                    None
                } else if grid.page(self.current_page as int) > 0 && grid.over_hint(
                    false,
                    x as int,
                    y as int,
                ) {
                    Some(PageArrow::Prev)
                } else if grid.over_hint(true, x as int, y as int) {
                    Some(PageArrow::Next)
                } else {
                    None
                }
            }),
    {
        if !peeking {
            return None;
        }
        let layout = self.layout(band);
        proof {
            self.grid(band).lemma_n_pages();
        }
        if layout.n_pages == 0 {
            return None;
        }
        if layout.page > 0 && layout.prev_hint.contains(x, y) {
            return Some(PageArrow::Prev);
        }
        if layout.next_hint.contains(x, y) {
            Some(PageArrow::Next)
        } else {
            None
        }
    }

    /// How many pages there are.
    pub fn page_count(&self, band: Band) -> (n: usize)
        requires
            self.measured(band),
        ensures
            n == self.grid(band).n_pages(),
    {
        self.layout(band).n_pages
    }

    /// How many entries a page holds.
    pub fn items_per_page(&self, band: Band) -> (n: usize)
        requires
            self.measured(band),
        ensures
            n == self.grid(band).per_page(),
            n >= 1,
    {
        proof {
            self.grid(band).lemma_n_pages();
        }
        self.layout(band).per_page
    }

    /// The icons' size in the band, in logical pixels.
    pub fn metrics_for(&self, band: Band) -> (icon_px: i128)
        requires
            self.measured(band),
        ensures
            icon_px == if self.grid(band).shows() {
                self.grid(band).cells().icon
            } else {
                96
            },
    {
        self.layout(band).icon_px
    }

    /// Go to a page, or to the last one. Returns whether that is another page; the view then
    /// slides to it.
    pub fn set_page(&mut self, page: usize, band: Band) -> (moved: bool)
        requires
            old(self).measured(band),
        ensures
            ({
                let last = larger(old(self).grid(band).n_pages() - 1, 0);
                let to = smaller(page as int, last);
                &&& moved == (to != old(self).current_page)
                &&& final(self).current_page == to
                &&& *final(self) == (AppGrid {
                    current_page: final(self).current_page,
                    gesture: if moved {
                        None
                    } else {
                        old(self).gesture
                    },
                    ..*old(self)
                })
            }),
    {
        let n_pages: usize = self.page_count(band);
        let last: usize = if n_pages == 0 {
            0
        } else {
            n_pages - 1
        };
        let to: usize = if page < last {
            page
        } else {
            last
        };
        if to == self.current_page {
            return false;
        }
        self.current_page = to;
        self.gesture = None;
        true
    }

    /// Go back to the first page at once, out of sight. Returns whether anything moved.
    pub fn reset_page(&mut self, slide_at_start: bool) -> (moved: bool)
        ensures
            moved == !(old(self).current_page == 0 && match old(self).gesture {
                Some(swipe) => swipe.pos == 0,
                None => slide_at_start,
            }),
            *final(self) == if moved {
                AppGrid { current_page: 0, gesture: None, ..*old(self) }
            } else {
                *old(self)
            },
    {
        let at_start = match &self.gesture {
            Some(swipe) => swipe.pos == 0,
            None => slide_at_start,
        };
        if self.current_page == 0 && at_start {
            return false;
        }
        self.current_page = 0;
        self.gesture = None;
        true
    }

    /// Entry `i`'s tile, if it is on the current page.
    pub fn entry_rect(&self, i: usize, band: Band) -> (tile: Option<Area>)
        requires
            self.measured(band),
        ensures
            ({
                let grid = self.grid(band);
                let k = i - grid.first(self.current_page as int);
                let on_page = 0 <= k < grid.count(self.current_page as int);
                &&& tile is Some <==> on_page
                &&& tile matches Some(tile) ==> grid.is_tile(k, 0, tile) && tile.near()
            }),
    {
        let layout = self.layout(band);
        if i < layout.first_index {
            return None;
        }
        let k: usize = i - layout.first_index;
        if k < layout.tiles.len() {
            assert(self.grid(band).is_tile(k as int, 0, layout.tiles@[k as int]));
            Some(layout.tiles[k])
        } else {
            None
        }
    }

    /// The middle of entry `i`'s tile, if it is on the current page.
    pub fn entry_center(&self, i: usize, band: Band) -> (center: Option<(i128, i128)>)
        requires
            self.measured(band),
        ensures
            ({
                let grid = self.grid(band);
                let k = i - grid.first(self.current_page as int);
                let on_page = 0 <= k < grid.count(self.current_page as int);
                &&& center is Some <==> on_page
                &&& center matches Some(at) ==> at.0 == grid.tile_x(k, 0) + grid.cells().side / 2
                    && at.1 == grid.tile_y(k) + grid.cells().side / 2
            }),
    {
        let rect = self.entry_rect(i, band);
        proof {
            self.grid(band).lemma_side();
        }
        match rect {
            Some(tile) => {
                proof {
                    let k = i - self.grid(band).first(self.current_page as int);
                    assert(self.grid(band).is_tile(k, 0, tile));
                }
                Some((tile.x + tile.w / 2, tile.y + tile.h / 2))
            },
            None => None,
        }
    }
}

impl Grid {
    /// An arrow's disc is in one place.
    proof fn lemma_arrow(self, next: bool, disc: Area, x: int, y: int)
        requires
            self.is_arrow(next, disc),
        ensures
            self.over_arrow(next, x, y) == disc.has(x, y),
    {
        assert forall|other: Area| #[trigger] self.is_arrow(next, other) implies other == disc by {}
    }

    /// There is a page exactly when there is something to show.
    pub proof fn lemma_n_pages(self)
        ensures
            self.shows() <==> self.n_pages() > 0,
            self.n_pages() >= 0,
            self.per_page() >= 1,
            self.per_page() <= 64,
            1 <= self.cols() <= 8,
            self.shows() ==> 3 <= self.cells().cols <= 8 && 3 <= self.cells().rows <= 8,
            0 <= self.first(0),
    {
        self.lemma_mode();
        if self.shows() {
            let (c, r) = (self.cells().cols, self.cells().rows);
            let per_page = self.per_page();
            assert(9 <= c * r <= 64) by (nonlinear_arith)
                requires
                    3 <= c <= 8,
                    3 <= r <= 8,
            ;
            let n = self.n;
            assert(1 <= (n + per_page - 1) / per_page) by (nonlinear_arith)
                requires
                    n >= 1,
                    per_page >= 1,
            ;
            assert(0 <= self.page(0) * per_page) by (nonlinear_arith)
                requires
                    0 <= self.page(0),
                    per_page >= 1,
            ;
        }
    }

    proof fn lemma_mode(self)
        ensures
            3 <= self.cells().cols <= 8,
            3 <= self.cells().rows <= 8,
    {
        let all = crate::grid_layout::modes(self.align);
        self.band.lemma_best(all, all.len() as int);
    }

    /// A tile's side is a whole number of pixels, and an even one.
    pub proof fn lemma_side(self)
        ensures
            64 * FINE <= self.cells().side <= 144 * FINE,
            self.cells().side == (self.cells().icon + crate::grid_layout::TILE_EXTRA) * FINE,
    {
        let (cols, rows) = self.band.mode(self.align);
        lemma_first_where(6, self.band.icon_fits(cols, rows), 0);
    }
}

/// Retarget a drop at a tile's edge. The entries between the dragged one and the drop move
/// over; an edge they would not open up at is really the other side of the gap, unless there
/// is no tile on that side in the row.
pub open spec fn retargeted(
    source: Option<(int, int)>,
    page: int,
    cols: int,
    position: int,
    location: DragLocation,
) -> (int, DragLocation) {
    let forward = source matches Some(at) && at.0 == page && at.1 < position;
    let itself = !forward && (source matches Some(at) && at.1 == position);
    let column = position % cols;
    if location == DragLocation::StartEdge && forward && column > 0 {
        (position - 1, DragLocation::EndEdge)
    } else if location == DragLocation::EndEdge && !forward && !itself && column + 1 < cols {
        (position + 1, DragLocation::StartEdge)
    } else {
        (position, location)
    }
}

impl AppGrid {
    /// Where the dragged entry is: its page, and its place on it.
    pub open spec fn source_of(&self, band: Band, id: Seq<char>) -> Option<(int, int)> {
        let i = index_in(self.entries@, id);
        let per_page = self.grid(band).per_page();
        if i < self.entries@.len() {
            Some((i / per_page, i % per_page))
        } else {
            None
        }
    }

    /// Where a drag of an entry would drop.
    pub open spec fn drop_at(
        &self,
        band: Band,
        x: int,
        y: int,
        id: Seq<char>,
        target: Option<GridDropTarget>,
    ) -> bool {
        let grid = self.grid(band);
        let page = grid.page(self.current_page as int);
        let n = grid.count(self.current_page as int);
        let k = first_where(n, grid.claims(x, y), 0);
        if !grid.shows() || y < grid.block_y() || y > grid.block_y() + grid.block_h(
            self.current_page as int,
        ) {
            target is None
        } else if k < n {
            let to = retargeted(
                self.source_of(band, id),
                page,
                grid.cells().cols,
                k,
                grid.edge(k, x),
            );
            target matches Some(t) && t.page == page && t.location == to.1 && (t.position matches Some(
                p,
            ) && p == to.0)
        } else {
            target matches Some(t) && t.page == page && t.position is None && t.location
                == DragLocation::EmptySpace
        }
    }

    /// Where a drag of the entry with this id would drop, on the current page. Above and below
    /// the rows there is nowhere.
    pub fn drop_target_at(&self, band: Band, x: i128, y: i128, dragged: &str) -> (target: Option<
        GridDropTarget,
    >)
        requires
            self.measured(band),
            -FAR <= x <= FAR,
            -FAR <= y <= FAR,
        ensures
            self.drop_at(band, x as int, y as int, dragged@, target),
    {
        let layout = self.layout(band);
        let ghost grid = self.grid(band);
        let ghost n = grid.count(self.current_page as int);
        proof {
            grid.lemma_n_pages();
            grid.lemma_count(self.current_page as int);
            grid.lemma_side();
        }
        if layout.tiles.len() == 0 {
            return None;
        }
        let block = layout.block;
        if y < block.y || y > block.y + block.h {
            return None;
        }
        let in_left = x < block.x;
        let in_right = x > block.x + block.w;
        let half_h: i128 = half(layout.h_sp);
        let half_v: i128 = half(layout.v_sp);
        let ghost claims = grid.claims(x as int, y as int);
        let mut k: usize = 0;
        while k < layout.tiles.len()
            invariant
                k <= layout.tiles@.len(),
                n == layout.tiles@.len(),
                n == grid.count(self.current_page as int),
                self.measured(band),
                grid == self.grid(band),
                grid.shows(),
                3 <= layout.cols <= 8,
                grid.is_layout(self.current_page as int, 0, layout),
                layout.near(),
                -FAR <= x <= FAR,
                -FAR <= y <= FAR,
                grid.block_y() <= y <= grid.block_y() + grid.block_h(self.current_page as int),
                in_left == (x < grid.block_x()),
                in_right == (x > grid.block_x() + grid.block_w()),
                half_h == grid.cells().h_gap / 2,
                half_v == grid.cells().v_gap / 2,
                -FAR <= half_h <= FAR,
                -FAR <= half_v <= FAR,
                64 * FINE <= grid.cells().side <= 144 * FINE,
                claims == grid.claims(x as int, y as int),
                first_where(n, claims, 0) == first_where(n, claims, k as int),
            decreases layout.tiles@.len() - k,
        {
            let tile = layout.tiles[k];
            assert(grid.is_tile(k as int, 0, layout.tiles@[k as int]));
            assert(layout.tiles@[k as int].near());
            let first_in_row = k % layout.cols == 0;
            let last_in_row = k % layout.cols == layout.cols - 1;
            let beside = (in_left && first_in_row) || (in_right && last_in_row);
            let row = tile.y - half_v <= y && y <= tile.y + tile.h + half_v;
            let column = tile.x - half_h <= x && x <= tile.x + tile.w + half_h;
            assert(claims(k as int) == (row && (beside || column)));
            if row && (beside || column) {
                let location = if x < tile.x + DIVIDER_LEEWAY {
                    DragLocation::StartEdge
                } else if x > tile.x + tile.w - DIVIDER_LEEWAY {
                    DragLocation::EndEdge
                } else {
                    DragLocation::OnIcon
                };
                assert(location == grid.edge(k as int, x as int));
                return Some(self.adjust_for_reflow(band, &layout, k, location, dragged));
            }
            k = k + 1;
        }
        Some(
            GridDropTarget {
                page: layout.page,
                position: None,
                location: DragLocation::EmptySpace,
            },
        )
    }

    fn adjust_for_reflow(
        &self,
        band: Band,
        layout: &GridLayout,
        position: usize,
        location: DragLocation,
        dragged: &str,
    ) -> (target: GridDropTarget)
        requires
            self.measured(band),
            self.grid(band).shows(),
            self.grid(band).is_layout(self.current_page as int, 0, *layout),
            position < layout.tiles@.len(),
        ensures
            target.page == self.grid(band).page(self.current_page as int),
            ({
                let to = retargeted(
                    self.source_of(band, dragged@),
                    target.page as int,
                    self.grid(band).cells().cols,
                    position as int,
                    location,
                );
                &&& target.location == to.1
                &&& target.position matches Some(p) && p == to.0
            }),
    {
        proof {
            self.grid(band).lemma_n_pages();
            self.grid(band).lemma_count(self.current_page as int);
        }
        let mut forward = false;
        let mut itself = false;
        if let Some(i) = self.index_of(dragged) {
            let source_page: usize = i / layout.per_page;
            let source_position: usize = i % layout.per_page;
            forward = source_page == layout.page && source_position < position;
            itself = source_position == position && !forward;
        }
        let column: usize = position % layout.cols;
        let (position, location) = if location == DragLocation::StartEdge && forward && column > 0 {
            (position - 1, DragLocation::EndEdge)
        } else if location == DragLocation::EndEdge && !forward && !itself && column + 1
            < layout.cols {
            (position + 1, DragLocation::StartEdge)
        } else {
            (position, location)
        };
        GridDropTarget { page: layout.page, position: Some(position), location }
    }

    /// The view with one entry focused, on its page.
    pub open spec fn focusing(&self, band: Band, target: int, now: AppGrid) -> bool {
        let grid = self.grid(band);
        let to = smaller(target / grid.per_page(), larger(grid.n_pages() - 1, 0));
        &&& now.focused matches Some(f) && f == target
        &&& now.current_page == to
        &&& now == (AppGrid {
            focused: now.focused,
            current_page: now.current_page,
            gesture: if to == self.current_page {
                self.gesture
            } else {
                None
            },
            ..*self
        })
    }

    /// Move the keyboard focus one step in a direction, to the nearest entry that lies there,
    /// pages side by side; the page follows. With nothing focused, the page's first entry is.
    /// Returns whether anything moved.
    pub fn focus_navigate(&mut self, dir: FocusDir, band: Band) -> (moved: bool)
        requires
            old(self).measured(band),
        ensures
            ({
                let was = *old(self);
                let grid = was.grid(band);
                let page = grid.page(was.current_page as int);
                let from = crate::app_grid::kept(was.focused, was.entries@.len());
                if !grid.shows() {
                    !moved && *final(self) == was
                } else {
                    match from {
                        None => {
                            &&& moved
                            &&& final(self).focused matches Some(f) && f == grid.first(
                                was.current_page as int,
                            )
                            &&& *final(self) == (AppGrid { focused: final(self).focused, ..was })
                        },
                        Some(from) => match grid.nearest(page, from as int, dir, grid.n) {
                            None => !moved && *final(self) == was,
                            Some(target) => moved && was.focusing(band, target, *final(self)),
                        },
                    }
                }
            }),
    {
        let layout = self.layout(band);
        let ghost grid = self.grid(band);
        proof {
            grid.lemma_n_pages();
            grid.lemma_count(self.current_page as int);
        }
        if layout.tiles.len() == 0 {
            return false;
        }
        let from: Option<usize> = match self.focused {
            Some(i) => if i < self.entries.len() {
                Some(i)
            } else {
                None
            },
            None => None,
        };
        let from: usize = match from {
            Some(i) => i,
            None => {
                self.focused = Some(layout.first_index);
                return true;
            },
        };
        match self.nearest(band, &layout, from, dir) {
            Some(target) => {
                self.focused = Some(target);
                proof {
                    assert(self.grid(band) == grid);
                }
                let _ = self.set_page(target / layout.per_page, band);
                true
            },
            None => false,
        }
    }

    /// The nearest entry that lies in a direction.
    fn nearest(&self, band: Band, layout: &GridLayout, from: usize, dir: FocusDir) -> (target:
        Option<usize>)
        requires
            self.measured(band),
            self.grid(band).shows(),
            self.grid(band).is_layout(self.current_page as int, 0, *layout),
            layout.tiles@.len() > 0,
            from < self.entries@.len(),
        ensures
            match self.grid(band).nearest(
                layout.page as int,
                from as int,
                dir,
                self.entries@.len() as int,
            ) {
                Some(t) => target matches Some(i) && i == t && i < self.entries@.len(),
                None => target is None,
            },
    {
        let ghost grid = self.grid(band);
        let ghost page = layout.page as int;
        proof {
            grid.lemma_side();
        }
        let side: i128 = layout.tiles[0].w;
        assert(grid.is_tile(0, 0, layout.tiles@[0]));
        let at_from = self.virtual_tile(band, layout, from);
        let mut best: Option<usize> = None;
        let mut best_apart: i128 = 0;
        let mut i: usize = 0;
        while i < self.entries.len()
            invariant
                i <= self.entries@.len(),
                self.measured(band),
                grid == self.grid(band),
                grid.shows(),
                grid.is_layout(self.current_page as int, 0, *layout),
                layout.tiles@.len() > 0,
                page == layout.page,
                from < self.entries@.len(),
                side == grid.cells().side,
                64 * FINE <= side <= 144 * FINE,
                at_from.0 == grid.virtual_x(page, from as int),
                at_from.1 == grid.virtual_y(from as int),
                -FURTHEST <= at_from.0 <= FURTHEST,
                -FURTHEST <= at_from.1 <= FURTHEST,
                match grid.nearest(page, from as int, dir, i as int) {
                    Some(t) => best matches Some(b) && b == t && b < self.entries@.len()
                        && best_apart == grid.apart(page, from as int, t),
                    None => best is None,
                },
            decreases self.entries@.len() - i,
        {
            let at = self.virtual_tile(band, layout, i);
            let lies = i != from && match dir {
                FocusDir::Up => at.1 + side <= at_from.1 + SLOP,
                FocusDir::Down => at.1 >= at_from.1 + side - SLOP,
                FocusDir::Left => at.0 + side <= at_from.0 + SLOP,
                FocusDir::Right => at.0 >= at_from.0 + side - SLOP,
            };
            assert(lies == grid.lies(page, from as int, dir, i as int));
            if lies {
                let apart: i128 = squared(at.0 - at_from.0) + squared(at.1 - at_from.1);
                let better = match best {
                    Some(_) => apart < best_apart,
                    None => true,
                };
                if better {
                    best = Some(i);
                    best_apart = apart;
                }
            }
            i = i + 1;
        }
        best
    }

    /// Where entry `i` is when all pages are side by side.
    fn virtual_tile(&self, band: Band, layout: &GridLayout, i: usize) -> (at: (i128, i128))
        requires
            self.measured(band),
            self.grid(band).shows(),
            self.grid(band).is_layout(self.current_page as int, 0, *layout),
            layout.tiles@.len() > 0,
            i < self.entries@.len(),
        ensures
            at.0 == self.grid(band).virtual_x(layout.page as int, i as int),
            at.1 == self.grid(band).virtual_y(i as int),
            -FURTHEST <= at.0 <= FURTHEST,
            -FURTHEST <= at.1 <= FURTHEST,
    {
        let ghost grid = self.grid(band);
        proof {
            grid.lemma_n_pages();
            grid.lemma_side();
            grid.lemma_cells();
            grid.lemma_page(self.current_page as int);
            assert(grid.is_tile(0, 0, layout.tiles@[0]));
            grid.lemma_tile_reach();
        }
        let side: i128 = layout.tiles[0].w;
        let k: usize = i % layout.per_page;
        let c: i128 = (k % layout.cols) as i128;
        let r: i128 = (k / layout.cols) as i128;
        let pages: i128 = (i / layout.per_page) as i128 - layout.page as i128;
        let page_w: i128 = PARTS * (band.w as i128);
        proof {
            assert(0 <= r <= 64) by (nonlinear_arith)
                requires
                    r == k / layout.cols,
                    k < 64,
                    layout.cols >= 1,
            ;
            let (a, b) = (side + layout.h_sp, side + layout.v_sp);
            assert(-0x1000_0000_0000 <= c * a <= 0x1000_0000_0000) by (nonlinear_arith)
                requires
                    0 <= c <= 8,
                    -0x20_0000_0000 <= a <= 0x20_0000_0000,
            ;
            assert(-0x1000_0000_0000 <= r * b <= 0x1000_0000_0000) by (nonlinear_arith)
                requires
                    0 <= r <= 64,
                    -0x20_0000_0000 <= b <= 0x20_0000_0000,
            ;
            assert(0 <= i / layout.per_page <= 0x100_0000) by (nonlinear_arith)
                requires
                    i <= 0x100_0000,
                    layout.per_page >= 1,
            ;
            assert(-0x1000_0000_0000_0000 <= pages * page_w <= 0x1000_0000_0000_0000)
                by (nonlinear_arith)
                requires
                    -0x100_0000 <= pages <= 0x100_0000,
                    0 <= page_w <= 0x10_0000_0000,
            ;
        }
        (
            layout.tiles[0].x + c * (side + layout.h_sp) + pages * page_w,
            layout.tiles[0].y + r * (side + layout.v_sp),
        )
    }

    /// Move the keyboard focus one entry on or back, around the ends; the page follows. With
    /// nothing focused, the first or the last entry is. Returns whether anything moved.
    pub fn focus_tab(&mut self, forward: bool, band: Band) -> (moved: bool)
        requires
            old(self).measured(band),
        ensures
            ({
                let was = *old(self);
                let n = was.entries@.len() as int;
                let target = match crate::app_grid::kept(was.focused, was.entries@.len()) {
                    Some(i) => if forward {
                        (i + 1) % n
                    } else {
                        (i + n - 1) % n
                    },
                    None => if forward {
                        0
                    } else {
                        n - 1
                    },
                };
                if n == 0 || (was.focused matches Some(f) && f == target) {
                    !moved && *final(self) == was
                } else {
                    moved && was.focusing(band, target, *final(self))
                }
            }),
    {
        let n: usize = self.entries.len();
        if n == 0 {
            return false;
        }
        let ghost grid = self.grid(band);
        let target: usize = match self.focused {
            Some(i) => if i >= n {
                if forward {
                    0
                } else {
                    n - 1
                }
            } else if forward {
                if i + 1 == n {
                    0
                } else {
                    i + 1
                }
            } else if i == 0 {
                n - 1
            } else {
                i - 1
            },
            None => if forward {
                0
            } else {
                n - 1
            },
        };
        proof {
            if let Some(i) = self.focused {
                if i < n {
                    lemma_around(i as int, n as int);
                }
            }
        }
        if let Some(i) = self.focused {
            if i == target {
                return false;
            }
        }
        self.focused = Some(target);
        assert(self.grid(band) == grid);
        let per_page: usize = self.items_per_page(band);
        let _ = self.set_page(target / per_page, band);
        true
    }
}

/// How far from the origin an entry can be, pages side by side.
pub const FURTHEST: i128 = 0x2000_0000_0000_0000;

fn half(gap: i128) -> (h: i128)
    requires
        -FAR <= gap <= FAR,
    ensures
        h == (gap as int) / 2,
        -FAR <= h <= FAR,
{
    if gap >= 0 {
        gap / 2
    } else {
        -((-gap + 1) / 2)
    }
}

fn squared(d: i128) -> (s: i128)
    requires
        -2 * FURTHEST <= d <= 2 * FURTHEST,
    ensures
        s == d * d,
        0 <= s <= 4 * FURTHEST * FURTHEST,
{
    assert(0 <= d * d <= 4 * FURTHEST * FURTHEST) by (nonlinear_arith)
        requires
            -2 * FURTHEST <= d <= 2 * FURTHEST,
    ;
    d * d
}

/// One step on or back, around the ends.
proof fn lemma_around(i: int, n: int)
    by (nonlinear_arith)
    requires
        0 <= i < n,
    ensures
        i + 1 < n ==> (i + 1) % n == i + 1,
        i + 1 == n ==> (i + 1) % n == 0,
        i > 0 ==> (i + n - 1) % n == i - 1,
        i == 0 ==> (i + n - 1) % n == n - 1,
{
}

impl Grid {
    /// Every page has an entry.
    pub proof fn lemma_count(self, page: int)
        requires
            0 <= page,
        ensures
            self.shows() <==> self.count(page) > 0,
            0 <= self.count(page) <= 64,
            0 <= self.first(page),
            self.shows() ==> self.first(page) + self.count(page) <= self.n,
    {
        self.lemma_n_pages();
        if self.shows() {
            self.lemma_page(page);
        }
    }

    pub proof fn lemma_page(self, page: int)
        requires
            self.shows(),
            0 <= page,
        ensures
            0 <= self.page(page) < self.n_pages() <= self.n,
            0 <= self.first(page) < self.n,
    {
        self.lemma_n_pages();
        let per_page = self.per_page();
        let n = self.n;
        let last = self.n_pages() - 1;
        assert(last * per_page < n && last + 1 <= n) by (nonlinear_arith)
            requires
                last == (n + per_page - 1) / per_page - 1,
                n >= 1,
                per_page >= 1,
        ;
        let p = self.page(page);
        assert(0 <= p * per_page <= last * per_page) by (nonlinear_arith)
            requires
                0 <= p <= last,
                per_page >= 1,
        ;
    }

    /// The cells are within reach.
    pub proof fn lemma_cells(self)
        requires
            self.good(),
            self.shows(),
        ensures
            -0x10_0000_0000 <= self.cells().h_gap <= 0x10_0000_0000,
            -0x10_0000_0000 <= self.cells().v_gap <= 0x10_0000_0000,
            0 <= self.cells().x <= 0x10_0000_0000,
            0 <= self.cells().y <= 0x10_0000_0000,
    {
        self.lemma_mode();
        self.lemma_side();
        let cells = self.cells();
        crate::grid_layout::lemma_spread(
            self.band.page_w(),
            cells.cols,
            cells.side,
            self.band.pad_h(),
            self.align,
        );
        crate::grid_layout::lemma_spread(
            self.band.page_h(),
            cells.rows,
            cells.side,
            crate::grid_layout::PAGE_PAD_V as int,
            self.align,
        );
    }

    proof fn lemma_tile_reach(self)
        requires
            self.good(),
            self.shows(),
        ensures
            -0x1000_0000_0000 <= self.tile_x(0, 0) <= 0x1000_0000_0000,
            -0x1000_0000_0000 <= self.tile_y(0) <= 0x1000_0000_0000,
    {
        self.lemma_cells();
        self.lemma_mode();
        assert(0int % self.cells().cols == 0 && 0int / self.cells().cols == 0) by (nonlinear_arith)
            requires
                self.cells().cols > 0,
        ;
    }
}

impl Grid {
    /// The icon is one that fits, so that there is room for the cells.
    pub open spec fn fits(self) -> bool {
        let (cols, rows) = self.band.mode(self.align);
        self.shows() && first_where(6, self.band.icon_fits(cols, rows), 0) < 6
    }

    /// The cells of a page with room for them keep out of the side bands and the padding, and
    /// leave the least room between them at least.
    pub proof fn law_cells_keep_out(self)
        requires
            self.fits(),
        ensures
            crate::grid_layout::SPACING <= self.cells().h_gap <= crate::grid_layout::MAX_SPACING,
            crate::grid_layout::SPACING <= self.cells().v_gap <= crate::grid_layout::MAX_SPACING,
            self.band.pad_h() <= self.cells().x,
            self.cells().x + self.block_w() <= self.band.page_w() - self.band.pad_h(),
            crate::grid_layout::PAGE_PAD_V <= self.cells().y,
            self.cells().y + self.cells().rows * self.cells().side + (self.cells().rows - 1)
                * self.cells().v_gap <= self.band.page_h() - crate::grid_layout::PAGE_PAD_V,
    {
        self.lemma_mode();
        self.lemma_side();
        let cells = self.cells();
        let fits = self.band.icon_fits(cells.cols, cells.rows);
        lemma_first_where(6, fits, 0);
        assert(fits(first_where(6, fits, 0)));
        crate::grid_layout::law_spread_fits(
            self.band.page_w(),
            cells.cols,
            cells.side,
            self.band.pad_h(),
            self.align,
        );
        crate::grid_layout::law_spread_fits(
            self.band.page_h(),
            cells.rows,
            cells.side,
            crate::grid_layout::PAGE_PAD_V as int,
            self.align,
        );
        assert(cells.cols * cells.side == cells.side * cells.cols && (cells.cols - 1) * cells.h_gap
            == cells.h_gap * (cells.cols - 1) && cells.rows * cells.side == cells.side * cells.rows
            && (cells.rows - 1) * cells.v_gap == cells.v_gap * (cells.rows - 1))
            by (nonlinear_arith);
    }

    /// No point is on two tiles.
    pub proof fn law_tiles_apart(self, a: int, b: int, x: int, y: int)
        requires
            self.fits(),
            0 <= a < b,
        ensures
            !(self.over_tile(x, y)(a) && self.over_tile(x, y)(b)),
    {
        self.lemma_mode();
        self.lemma_side();
        self.law_cells_keep_out();
        let cells = self.cells();
        let px = cells.icon + crate::grid_layout::TILE_EXTRA;
        let (ca, ra, cb, rb) = (
            a % cells.cols,
            a / cells.cols,
            b % cells.cols,
            b / cells.cols,
        );
        let cols = cells.cols;
        assert(ra < rb || (ra == rb && ca < cb)) by (nonlinear_arith)
            requires
                0 <= a < b,
                cols > 0,
                ca == a % cols,
                cb == b % cols,
                ra == a / cols,
                rb == b / cols,
        ;
        if ra < rb {
            let pitch = cells.side + cells.v_gap;
            let top = self.band.top() + cells.y;
            assert(ra * pitch + pitch <= rb * pitch) by (nonlinear_arith)
                requires
                    ra + 1 <= rb,
                    pitch >= 0,
            ;
            crate::grid_layout::lemma_round_apart(top + ra * pitch, top + rb * pitch, px);
        } else {
            let pitch = cells.side + cells.h_gap;
            let left = self.band.left() + cells.x + 0;
            assert(ca * pitch + pitch <= cb * pitch) by (nonlinear_arith)
                requires
                    ca + 1 <= cb,
                    pitch >= 0,
            ;
            crate::grid_layout::lemma_round_apart(left + ca * pitch, left + cb * pitch, px);
        }
    }

    /// A point on a tile of a page hits that tile's entry.
    pub proof fn law_tile_hits(self, page: int, k: int, x: int, y: int)
        requires
            self.fits(),
            0 <= k < self.count(page),
            self.over_tile(x, y)(k),
        ensures
            first_where(self.count(page), self.over_tile(x, y), 0) == k,
    {
        let n = self.count(page);
        let over = self.over_tile(x, y);
        lemma_first_where(n, over, 0);
        let j = first_where(n, over, 0);
        if j < k {
            self.law_tiles_apart(j, k, x, y);
        } else if k < j {
            assert(over(k));
        }
    }

    /// What the focus moves to lies the way it was asked for, and nothing that does is nearer.
    /// It stays where it is only if nothing does.
    pub proof fn law_nearest(self, page: int, from: int, dir: FocusDir, n: int, i: int)
        requires
            0 <= i < n,
        ensures
            match self.nearest(page, from, dir, n) {
                Some(t) => {
                    &&& 0 <= t < n
                    &&& t != from
                    &&& self.lies(page, from, dir, t)
                    &&& self.lies(page, from, dir, i) ==> self.apart(page, from, t) <= self.apart(
                        page,
                        from,
                        i,
                    )
                },
                None => !self.lies(page, from, dir, i),
            },
        decreases n,
    {
        if i < n - 1 {
            self.law_nearest(page, from, dir, n - 1, i);
        } else if n > 1 {
            self.law_nearest(page, from, dir, n - 1, n - 2);
        }
    }
}

/// Going on and going back undo each other.
pub proof fn law_tab_there_and_back(i: int, n: int)
    requires
        0 <= i < n,
    ensures
        ((i + 1) % n + n - 1) % n == i,
        ((i + n - 1) % n + 1) % n == i,
{
    lemma_around(i, n);
    lemma_around((i + 1) % n, n);
    lemma_around((i + n - 1) % n, n);
}

/// A point hits the entry whose tile it is on, and none where it is on no tile; the page's
/// tiles are those of the entries from its first one on, in order.
pub proof fn law_a_point_hits_the_entry_under_it(
    grid: AppGrid,
    band: Band,
    layout: GridLayout,
    x: i128,
    y: i128,
    hit: Option<usize>,
    k: int,
)
    requires
        grid.measured(band),
        call_ensures(AppGrid::layout, (&grid, band), layout),
        call_ensures(AppGrid::hit_test, (&grid, band, x, y), hit),
        0 <= k < layout.tiles@.len(),
    ensures
        hit is None ==> !layout.tiles@[k].has(x as int, y as int),
        hit matches Some(i) ==> {
            &&& layout.first_index <= i < layout.first_index + layout.tiles@.len()
            &&& layout.tiles@[i - layout.first_index].has(x as int, y as int)
        },
        grid.grid(band).fits() && layout.tiles@[k].has(x as int, y as int) ==> hit == Some(
            (layout.first_index + k) as usize,
        ),
{
    let view = grid.grid(band);
    let page = grid.current_page as int;
    let n = view.count(page);
    let over = view.over_tile(x as int, y as int);
    lemma_first_where(n, over, 0);
    assert(view.is_tile(k, 0, layout.tiles@[k]));
    view.lemma_count(page);
    assert(over(k) == layout.tiles@[k].has(x as int, y as int));
    if let Some(i) = hit {
        let at = i - layout.first_index;
        assert(view.is_tile(at, 0, layout.tiles@[at]));
        assert(over(at));
    }
    if view.fits() && over(k) {
        view.law_tile_hits(page, k, x as int, y as int);
    }
}

/// A page is filled row by row: the tiles of a column stand under each other, those of a row
/// side by side, a later one to the right or in a lower row and clear of the one before.
pub proof fn law_a_page_is_filled_row_by_row(
    grid: AppGrid,
    band: Band,
    layout: GridLayout,
    a: int,
    b: int,
)
    requires
        grid.measured(band),
        call_ensures(AppGrid::layout, (&grid, band), layout),
        0 <= a < b < layout.tiles@.len(),
    ensures
        layout.first_index == layout.page * layout.per_page,
        layout.first_index + layout.tiles@.len() <= grid.entries@.len(),
        layout.tiles@.len() < layout.per_page ==> layout.first_index + layout.tiles@.len()
            == grid.entries@.len(),
        layout.tiles@.len() <= layout.per_page,
        ({
            let cols = layout.cols as int;
            let (first, second) = (layout.tiles@[a], layout.tiles@[b]);
            &&& a % cols == b % cols ==> first.x == second.x
            &&& a / cols == b / cols ==> first.y == second.y
            &&& grid.grid(band).fits() && a / cols == b / cols ==> first.x + first.w < second.x
            &&& grid.grid(band).fits() && a / cols != b / cols ==> first.y + first.h < second.y
        }),
{
    let view = grid.grid(band);
    let page = grid.current_page as int;
    view.lemma_count(page);
    view.lemma_n_pages();
    assert(view.is_tile(a, 0, layout.tiles@[a]));
    assert(view.is_tile(b, 0, layout.tiles@[b]));
    if view.fits() {
        view.law_cells_keep_out();
        view.lemma_tiles_clear(a, b);
    }
}

impl Grid {
    /// Of two tiles, the later is in a lower row, or in the same row further right, and clear
    /// of the earlier by more than half the room between two.
    proof fn lemma_tiles_clear(self, a: int, b: int)
        requires
            self.fits(),
            0 <= a < b,
        ensures
            a / self.cells().cols <= b / self.cells().cols,
            a / self.cells().cols == b / self.cells().cols ==> a % self.cells().cols < b
                % self.cells().cols,
            a / self.cells().cols == b / self.cells().cols ==> self.tile_x(a, 0)
                + self.cells().side + self.cells().h_gap / 2 < self.tile_x(b, 0),
            a / self.cells().cols < b / self.cells().cols ==> self.tile_y(a) + self.cells().side
                + self.cells().v_gap / 2 < self.tile_y(b),
    {
        self.lemma_mode();
        self.lemma_side();
        self.law_cells_keep_out();
        let cells = self.cells();
        let px = cells.icon + crate::grid_layout::TILE_EXTRA;
        let cols = cells.cols;
        let (ca, ra, cb, rb) = (a % cols, a / cols, b % cols, b / cols);
        assert(ra < rb || (ra == rb && ca < cb)) by (nonlinear_arith)
            requires
                0 <= a < b,
                cols > 0,
                ca == a % cols,
                cb == b % cols,
                ra == a / cols,
                rb == b / cols,
        ;
        if ra < rb {
            let pitch = cells.side + cells.v_gap;
            let top = self.band.top() + cells.y;
            let g = cells.v_gap / (FINE as int);
            assert(ra * pitch + pitch <= rb * pitch) by (nonlinear_arith)
                requires
                    ra + 1 <= rb,
                    pitch >= 0,
            ;
            crate::grid_layout::lemma_round_apart(top + ra * pitch, top + rb * pitch, px + g);
        } else {
            let pitch = cells.side + cells.h_gap;
            let left = self.band.left() + cells.x + 0;
            let g = cells.h_gap / (FINE as int);
            assert(ca * pitch + pitch <= cb * pitch) by (nonlinear_arith)
                requires
                    ca + 1 <= cb,
                    pitch >= 0,
            ;
            crate::grid_layout::lemma_round_apart(left + ca * pitch, left + cb * pitch, px + g);
        }
    }

    /// A drop on a tile is that tile's.
    proof fn lemma_a_tile_claims_itself(self, n: int, k: int, x: int, y: int)
        requires
            self.fits(),
            0 <= k < n,
            self.over_tile(x, y)(k),
        ensures
            first_where(n, self.claims(x, y), 0) == k,
    {
        let claims = self.claims(x, y);
        let cols = self.cells().cols;
        lemma_first_where(n, claims, 0);
        self.lemma_mode();
        self.law_cells_keep_out();
        assert(claims(k));
        let j = first_where(n, claims, 0);
        if j < k {
            self.lemma_tiles_clear(j, k);
            assert(claims(j));
            let column = k % cols;
            assert(0 <= column < cols && 0 <= j % cols) by (nonlinear_arith)
                requires
                    cols > 0,
                    column == k % cols,
            ;
            assert(j / cols == k / cols);
            let pitch = self.cells().side + self.cells().h_gap;
            self.lemma_side();
            assert(0 <= column * pitch) by (nonlinear_arith)
                requires
                    0 <= column,
                    0 <= pitch,
            ;
            crate::grid_layout::lemma_round_apart(
                self.band.left() + self.cells().x,
                self.band.left() + self.cells().x + 0 + column * pitch,
                0,
            );
        }
    }
}

/// A drop on the middle of a tile is on its icon, and is for that tile. One at the edge where
/// the tiles would part is between that tile and its neighbour.
pub proof fn law_a_drop_on_a_tile_is_that_tiles(
    grid: AppGrid,
    band: Band,
    layout: GridLayout,
    x: i128,
    y: i128,
    dragged: &str,
    target: Option<GridDropTarget>,
    k: int,
)
    requires
        grid.measured(band),
        grid.grid(band).fits(),
        call_ensures(AppGrid::layout, (&grid, band), layout),
        call_ensures(AppGrid::drop_target_at, (&grid, band, x, y, dragged), target),
        0 <= k < layout.tiles@.len(),
        layout.tiles@[k].has(x as int, y as int),
        layout.block.y <= y <= layout.block.y + layout.block.h,
    ensures
        target is Some,
        target->0.page == layout.page,
        target->0.location != DragLocation::EmptySpace,
        ({
            let tile = layout.tiles@[k];
            let at = target->0.position;
            let location = target->0.location;
            let known = exists|i: int|
                0 <= i < grid.entries@.len() && (#[trigger] grid.entries@[i]).id@ == dragged@;
            let leading = x < tile.x + DIVIDER_LEEWAY;
            let trailing = x > tile.x + tile.w - DIVIDER_LEEWAY;
            &&& !leading && !trailing ==> at == Some(k as usize) && location
                == DragLocation::OnIcon
            &&& leading && !known ==> at == Some(k as usize) && location
                == DragLocation::StartEdge
            &&& !leading && trailing && !known && (k + 1) % (layout.cols as int) != 0 ==> at
                == Some((k + 1) as usize) && location == DragLocation::StartEdge
            &&& !leading && trailing && !known && (k + 1) % (layout.cols as int) == 0 ==> at
                == Some(k as usize) && location == DragLocation::EndEdge
        }),
{
    let view = grid.grid(band);
    let page = grid.current_page as int;
    view.lemma_count(page);
    view.lemma_n_pages();
    assert(view.is_tile(k, 0, layout.tiles@[k]));
    view.lemma_a_tile_claims_itself(view.count(page), k, x as int, y as int);
    let wanted = crate::app_grid::has_id(grid.entries@, dragged@);
    lemma_first_where(grid.entries@.len() as int, wanted, 0);
    let i = index_in(grid.entries@, dragged@);
    if i < grid.entries@.len() {
        assert(wanted(i));
        assert(grid.entries@[i].id@ == dragged@);
    }
    let cols = layout.cols as int;
    assert((k + 1) % cols == if k % cols + 1 < cols {
        k % cols + 1
    } else {
        0
    }) by (nonlinear_arith)
        requires
            cols > 0,
            k >= 0,
    ;
}

/// Above and below the rows a drag drops nowhere; beside the last tile it drops at the page's
/// end, or for a tile in the row.
pub proof fn law_a_drop_off_the_rows_is_nowhere(
    grid: AppGrid,
    band: Band,
    layout: GridLayout,
    x: i128,
    y: i128,
    dragged: &str,
    target: Option<GridDropTarget>,
)
    requires
        grid.measured(band),
        grid.grid(band).shows(),
        call_ensures(AppGrid::layout, (&grid, band), layout),
        call_ensures(AppGrid::drop_target_at, (&grid, band, x, y, dragged), target),
    ensures
        target is None <==> y < layout.block.y || y > layout.block.y + layout.block.h,
        target matches Some(t) ==> {
            &&& t.page == layout.page
            &&& t.position is None <==> t.location == DragLocation::EmptySpace
        },
{
}

/// A point on a page's dot, or in half the room between it and the next, is that page's.
pub proof fn law_a_dot_is_its_pages(
    grid: AppGrid,
    band: Band,
    layout: GridLayout,
    p: int,
    x: i128,
    y: i128,
    page: Option<usize>,
)
    requires
        grid.measured(band),
        call_ensures(AppGrid::layout, (&grid, band), layout),
        layout.indicators is Some,
        0 <= p < layout.indicators->0@.len(),
        call_ensures(AppGrid::indicator_hit, (&grid, band, x, y), page),
        magnitude(x - (layout.indicators->0@[p]).0) <= 5 * FINE,
        magnitude(y - (layout.indicators->0@[p]).1) <= 5 * FINE,
    ensures
        page == Some(p as usize),
        layout.indicators->0@.len() == layout.n_pages,
{
    let view = grid.grid(band);
    let n = view.n_pages();
    let over = view.over_dot(x as int, y as int);
    lemma_first_where(n, over, 0);
    let dot = layout.indicators->0@[p];
    assert(over(p));
    let j = first_where(n, over, 0);
    assert(over(j));
    if j < p {
        let pitch = DOT_SIZE + 2 * DOT_PAD_SIDE;
        assert(j * pitch + pitch <= p * pitch) by (nonlinear_arith)
            requires
                j + 1 <= p,
                pitch >= 0,
        ;
    }
}

/// Each arrow is hit where it is drawn, and where neither is drawn there is none to hit.
pub proof fn law_the_arrows_are_hit_where_they_are(
    grid: AppGrid,
    band: Band,
    layout: GridLayout,
    x: i128,
    y: i128,
    arrow: Option<PageArrow>,
)
    requires
        grid.measured(band),
        call_ensures(AppGrid::layout, (&grid, band), layout),
        call_ensures(AppGrid::arrow_hit, (&grid, band, x, y), arrow),
    ensures
        layout.prev_arrow is Some <==> layout.page > 0,
        layout.next_arrow is Some <==> layout.page + 1 < layout.n_pages,
        arrow == Some(PageArrow::Prev) <==> layout.prev_arrow is Some
            && layout.prev_arrow->0.has(x as int, y as int),
        arrow == Some(PageArrow::Next) ==> layout.next_arrow is Some
            && layout.next_arrow->0.has(x as int, y as int),
        arrow is None ==> !(layout.next_arrow is Some && layout.next_arrow->0.has(
            x as int,
            y as int,
        )),
{
    let view = grid.grid(band);
    if let Some(disc) = layout.prev_arrow {
        view.lemma_arrow(false, disc, x as int, y as int);
    }
    if let Some(disc) = layout.next_arrow {
        view.lemma_arrow(true, disc, x as int, y as int);
    }
}

/// A page that there is can be gone to; one past the last is the last. The entries stay.
pub proof fn law_a_page_is_gone_to(
    grid: &mut AppGrid,
    page: usize,
    band: Band,
    n: usize,
    moved: bool,
)
    requires
        old(grid).measured(band),
        call_ensures(AppGrid::page_count, (&*old(grid), band), n),
        call_ensures(AppGrid::set_page, (grid, page, band), moved),
    ensures
        page < n ==> final(grid).current_page == page,
        page >= n && n > 0 ==> final(grid).current_page == n - 1,
        n == 0 ==> final(grid).current_page == 0,
        moved <==> final(grid).current_page != old(grid).current_page,
        moved ==> final(grid).gesture is None,
        final(grid).entries == old(grid).entries,
        final(grid).focused == old(grid).focused,
        final(grid).hovered == old(grid).hovered,
{
}

/// Tab goes to the entry after the focused one, and from the last to the first; back is the
/// other way around. The focused entry is on the page that shows.
pub proof fn law_tab_goes_around(
    grid: &mut AppGrid,
    forward: bool,
    band: Band,
    per_page: usize,
    moved: bool,
)
    requires
        old(grid).measured(band),
        old(grid).grid(band).shows(),
        call_ensures(AppGrid::items_per_page, (&*old(grid), band), per_page),
        call_ensures(AppGrid::focus_tab, (grid, forward, band), moved),
    ensures
        final(grid).entries == old(grid).entries,
        final(grid).focused is Some,
        final(grid).focused->0 < old(grid).entries@.len(),
        moved ==> final(grid).current_page == final(grid).focused->0 / per_page,
        ({
            let n = old(grid).entries@.len();
            let to = final(grid).focused->0;
            match old(grid).focused {
                Some(i) if i < n => {
                    &&& forward ==> to == if i + 1 < n {
                        i + 1
                    } else {
                        0
                    }
                    &&& !forward ==> to == if i > 0 {
                        i - 1
                    } else {
                        n - 1
                    }
                },
                _ => to == if forward {
                    0
                } else {
                    n - 1
                },
            }
        }),
{
    let n = old(grid).entries@.len() as int;
    if let Some(i) = old(grid).focused {
        if i < n {
            lemma_around(i as int, n);
        }
    }
    old(grid).grid(band).lemma_n_pages();
    if moved {
        old(grid).grid(band).lemma_page_of(final(grid).focused->0 as int);
    }
}

impl Grid {
    /// An entry is on one of the pages.
    proof fn lemma_page_of(self, i: int)
        requires
            self.shows(),
            0 <= i < self.n,
        ensures
            0 <= i / self.per_page() < self.n_pages(),
    {
        self.lemma_n_pages();
        let (n, per_page) = (self.n, self.per_page());
        assert(0 <= i / per_page && i / per_page < (n + per_page - 1) / per_page)
            by (nonlinear_arith)
            requires
                0 <= i < n,
                per_page >= 1,
        ;
    }

    /// How far two entries are apart, in columns, rows and pages.
    proof fn lemma_step(self, page: int, a: int, b: int)
        requires
            self.fits(),
            0 <= a,
            0 <= b,
        ensures
            ({
                let cells = self.cells();
                let size = self.per_page();
                let (ca, cb) = (a % size % cells.cols, b % size % cells.cols);
                let (ra, rb) = (a % size / cells.cols, b % size / cells.cols);
                &&& self.virtual_x(page, b) - self.virtual_x(page, a) == (cb - ca) * (cells.side
                    + cells.h_gap) + (b / size - a / size) * self.band.page_w()
                &&& self.virtual_y(b) - self.virtual_y(a) == (rb - ra) * (cells.side
                    + cells.v_gap)
                &&& 0 <= ca < cells.cols
                &&& 0 <= cb < cells.cols
                &&& a % size == ra * cells.cols + ca
                &&& b % size == rb * cells.cols + cb
                &&& a == (a / size) * size + a % size
                &&& b == (b / size) * size + b % size
            }),
    {
        self.lemma_n_pages();
        let cells = self.cells();
        let size = self.per_page();
        let cols = cells.cols;
        let (ka, kb) = (a % size, b % size);
        let (ca, cb) = (ka % cols, kb % cols);
        let (ra, rb) = (ka / cols, kb / cols);
        let (pa, pb) = (a / size, b / size);
        let pitch = cells.side + cells.h_gap;
        let drop = cells.side + cells.v_gap;
        let w = self.band.page_w();
        assert((cb - ca) * pitch == cb * pitch - ca * pitch) by (nonlinear_arith);
        assert((rb - ra) * drop == rb * drop - ra * drop) by (nonlinear_arith);
        assert((pb - pa) * w == (pb - page) * w - (pa - page) * w) by (nonlinear_arith);
        assert(0 <= ca < cols && 0 <= cb < cols && ka == ra * cols + ca && kb == rb * cols + cb
            && a == pa * size + ka && b == pb * size + kb) by (nonlinear_arith)
            requires
                cols > 0,
                size > 0,
                ka == a % size,
                kb == b % size,
                ca == ka % cols,
                cb == kb % cols,
                ra == ka / cols,
                rb == kb / cols,
                pa == a / size,
                pb == b / size,
        ;
    }

    /// A page is wider than its cells.
    proof fn lemma_page_is_wide(self)
        requires
            self.fits(),
        ensures
            self.band.page_w() >= self.cells().cols * (self.cells().side + self.cells().h_gap)
                - self.cells().h_gap,
            self.cells().side > SLOP,
            self.cells().h_gap > 0,
            self.cells().v_gap > 0,
    {
        self.law_cells_keep_out();
        self.lemma_side();
        self.lemma_mode();
        let cells = self.cells();
        let (c, s, g) = (cells.cols, cells.side, cells.h_gap);
        assert(c * (s + g) - g == c * s + (c - 1) * g) by (nonlinear_arith);
        assert(self.band.pad_h() >= 0);
    }
}

/// An entry dragged along its own page: the tiles between it and the drop move over, so that a
/// drop before a tile further on is one after the tile that precedes it, while a drop after a
/// tile further back is one before the tile that follows it. On its own tile nothing changes
/// sides.
pub proof fn law_a_drop_counts_on_the_tiles_moving_over(
    grid: AppGrid,
    band: Band,
    layout: GridLayout,
    x: i128,
    y: i128,
    dragged: &str,
    from: Option<usize>,
    target: Option<GridDropTarget>,
    k: int,
)
    requires
        grid.measured(band),
        grid.grid(band).fits(),
        call_ensures(AppGrid::layout, (&grid, band), layout),
        call_ensures(AppGrid::index_of, (&grid, dragged), from),
        from is Some,
        layout.first_index <= from->0 < layout.first_index + layout.tiles@.len(),
        call_ensures(AppGrid::drop_target_at, (&grid, band, x, y, dragged), target),
        0 <= k < layout.tiles@.len(),
        layout.tiles@[k].has(x as int, y as int),
        layout.block.y <= y <= layout.block.y + layout.block.h,
    ensures
        target is Some,
        ({
            let tile = layout.tiles@[k];
            let own = from->0 - layout.first_index;
            let cols = layout.cols as int;
            let at = target->0.position;
            let location = target->0.location;
            let leading = x < tile.x + DIVIDER_LEEWAY;
            let trailing = !leading && x > tile.x + tile.w - DIVIDER_LEEWAY;
            &&& leading && own < k && k % cols != 0 ==> at == Some((k - 1) as usize) && location
                == DragLocation::EndEdge
            &&& leading && own < k && k % cols == 0 ==> at == Some(k as usize) && location
                == DragLocation::StartEdge
            &&& leading && own >= k ==> at == Some(k as usize) && location
                == DragLocation::StartEdge
            &&& trailing && own <= k ==> at == Some(k as usize) && location
                == DragLocation::EndEdge
            &&& trailing && own > k && k % cols + 1 < cols ==> at == Some((k + 1) as usize)
                && location == DragLocation::StartEdge
            &&& trailing && own > k && k % cols + 1 == cols ==> at == Some(k as usize)
                && location == DragLocation::EndEdge
        }),
{
    let view = grid.grid(band);
    let page = grid.current_page as int;
    view.lemma_count(page);
    view.lemma_n_pages();
    assert(view.is_tile(k, 0, layout.tiles@[k]));
    view.lemma_a_tile_claims_itself(view.count(page), k, x as int, y as int);
    let i = from->0 as int;
    let (p, size) = (layout.page as int, layout.per_page as int);
    lemma_on_page(i, p, size);
}

proof fn lemma_on_page(i: int, p: int, size: int)
    by (nonlinear_arith)
    requires
        size > 0,
        p >= 0,
        p * size <= i < p * size + size,
    ensures
        i / size == p,
        i % size == i - p * size,
{
}

impl Grid {
    /// From an entry with one right beside it, to that one.
    proof fn lemma_nearest_beside(self, page: int, from: int, to: int, dir: FocusDir)
        requires
            self.fits(),
            0 <= from < self.n,
            0 <= to < self.n,
            from / self.per_page() == to / self.per_page(),
            match dir {
                FocusDir::Right => to == from + 1 && to % self.per_page() % self.cells().cols != 0,
                FocusDir::Left => to == from - 1 && from % self.per_page() % self.cells().cols
                    != 0,
                FocusDir::Down => to == from + self.cells().cols,
                FocusDir::Up => to == from - self.cells().cols,
            },
        ensures
            self.nearest(page, from, dir, self.n) == Some(to),
    {
        self.lemma_n_pages();
        self.lemma_page_is_wide();
        let cells = self.cells();
        let (cols, size) = (cells.cols, self.per_page());
        let pitch = cells.side + cells.h_gap;
        let drop = cells.side + cells.v_gap;
        let w = self.band.page_w();
        self.lemma_step(page, from, to);
        self.law_nearest(page, from, dir, self.n, to);
        let (cf, ct) = (from % size % cols, to % size % cols);
        let (rf, rt) = (from % size / cols, to % size / cols);
        lemma_beside(from % size, to % size, cols);
        assert((to / size - from / size) * w == 0) by (nonlinear_arith)
            requires
                to / size == from / size,
        ;
        let dx = self.virtual_x(page, to) - self.virtual_x(page, from);
        let dy = self.virtual_y(to) - self.virtual_y(from);
        match dir {
            FocusDir::Right => {
                assert(dx == pitch && dy == 0) by (nonlinear_arith)
                    requires
                        dx == (ct - cf) * pitch,
                        dy == (rt - rf) * drop,
                        ct == cf + 1,
                        rt == rf,
                ;
            },
            FocusDir::Left => {
                assert(dx == -pitch && dy == 0) by (nonlinear_arith)
                    requires
                        dx == (ct - cf) * pitch,
                        dy == (rt - rf) * drop,
                        ct == cf - 1,
                        rt == rf,
                ;
            },
            FocusDir::Down => {
                assert(dx == 0 && dy == drop) by (nonlinear_arith)
                    requires
                        dx == (ct - cf) * pitch,
                        dy == (rt - rf) * drop,
                        ct == cf,
                        rt == rf + 1,
                ;
            },
            FocusDir::Up => {
                assert(dx == 0 && dy == -drop) by (nonlinear_arith)
                    requires
                        dx == (ct - cf) * pitch,
                        dy == (rt - rf) * drop,
                        ct == cf,
                        rt == rf - 1,
                ;
            },
        }
        assert(self.lies(page, from, dir, to));
        let t = self.nearest(page, from, dir, self.n)->0;
        self.lemma_step(page, from, t);
        let (c, r) = (t % size % cols, t % size / cols);
        let d = t / size - from / size;
        let ex = self.virtual_x(page, t) - self.virtual_x(page, from);
        let ey = self.virtual_y(t) - self.virtual_y(from);
        assert(self.apart(page, from, t) <= self.apart(page, from, to));
        assert(self.apart(page, from, t) == ex * ex + ey * ey);
        assert(self.apart(page, from, to) == dx * dx + dy * dy);
        if dir is Right || dir is Left {
            assert(dx * dx + dy * dy == pitch * pitch) by (nonlinear_arith)
                requires
                    dx == pitch || dx == -pitch,
                    dy == 0,
            ;
            lemma_same_spot(c - cf, r - rf, d, pitch, drop, w, cols, cells.side, cf, dir is Right);
        } else {
            assert(dx * dx + dy * dy == drop * drop) by (nonlinear_arith)
                requires
                    dx == 0,
                    dy == drop || dy == -drop,
            ;
            lemma_same_column(c - cf, r - rf, d, pitch, drop, w, cols, cells.side, dir is Down);
        }
        assert(t == to) by (nonlinear_arith)
            requires
                c == ct,
                r == rt,
                t / size == to / size,
                t == (t / size) * size + t % size,
                to == (to / size) * size + to % size,
                t % size == r * cols + c,
                to % size == rt * cols + ct,
        ;
    }
}

proof fn lemma_beside(a: int, b: int, cols: int)
    by (nonlinear_arith)
    requires
        0 <= a,
        0 <= b,
        0 < cols,
    ensures
        b == a + 1 && b % cols != 0 ==> b / cols == a / cols && b % cols == a % cols + 1,
        b == a - 1 && a % cols != 0 ==> b / cols == a / cols && b % cols == a % cols - 1,
        b == a + cols ==> b / cols == a / cols + 1 && b % cols == a % cols,
        b == a - cols ==> b / cols == a / cols - 1 && b % cols == a % cols,
{
}

/// What lies to one side and is no further than a column away is in the next column.
proof fn lemma_same_spot(
    c: int,
    r: int,
    d: int,
    pitch: int,
    drop: int,
    w: int,
    cols: int,
    side: int,
    at: int,
    right: bool,
)
    requires
        0 < side < pitch,
        0 < drop,
        0 <= at < cols,
        0 <= at + c < cols,
        right ==> at + 1 < cols,
        !right ==> at > 0,
        w >= cols * pitch - (pitch - side),
        ({
            let (ex, ey) = (c * pitch + d * w, r * drop);
            &&& ex * ex + ey * ey <= pitch * pitch
            &&& right ==> ex > 0
            &&& !right ==> ex < 0
        }),
    ensures
        d == 0,
        r == 0,
        c == if right {
            1int
        } else {
            -1
        },
{
    let (ex, ey) = (c * pitch + d * w, r * drop);
    assert(-pitch <= ex <= pitch) by (nonlinear_arith)
        requires
            ex * ex + ey * ey <= pitch * pitch,
            pitch > 0,
    ;
    assert(w >= 0) by (nonlinear_arith)
        requires
            w >= cols * pitch - (pitch - side),
            cols >= 1,
            0 < side < pitch,
    ;
    if d >= 1 {
        assert(d * w >= w) by (nonlinear_arith)
            requires
                d >= 1,
                w >= 0,
        ;
        assert(ex > pitch || ex > 0 && !right) by (nonlinear_arith)
            requires
                ex == c * pitch + d * w,
                d * w >= w,
                w >= cols * pitch - (pitch - side),
                c >= -at,
                right ==> at + 1 < cols,
                at < cols,
                0 < side < pitch,
        ;
    } else if d <= -1 {
        assert(d * w <= -w) by (nonlinear_arith)
            requires
                d <= -1,
                w >= 0,
        ;
        assert(ex < -pitch || ex < 0 && right) by (nonlinear_arith)
            requires
                ex == c * pitch + d * w,
                d * w <= -w,
                w >= cols * pitch - (pitch - side),
                c < cols - at,
                !right ==> at > 0,
                at >= 0,
                0 < side < pitch,
        ;
    } else {
        assert(ex == c * pitch) by (nonlinear_arith)
            requires
                ex == c * pitch + d * w,
                d == 0,
        ;
        assert(c == if right {
            1int
        } else {
            -1
        }) by (nonlinear_arith)
            requires
                ex == c * pitch,
                -pitch <= ex <= pitch,
                right ==> ex > 0,
                !right ==> ex < 0,
                pitch > 0,
        ;
        assert(r == 0) by (nonlinear_arith)
            requires
                ex == c * pitch,
                c == 1 || c == -1,
                ey == r * drop,
                ex * ex + ey * ey <= pitch * pitch,
                drop > 0,
        ;
    }
}

/// What lies above or below and is no further than a row away is in the same column of the
/// next row.
proof fn lemma_same_column(
    c: int,
    r: int,
    d: int,
    pitch: int,
    drop: int,
    w: int,
    cols: int,
    side: int,
    down: bool,
)
    requires
        0 < side < pitch,
        0 < drop,
        -cols < c < cols,
        w >= cols * pitch - (pitch - side),
        ({
            let (ex, ey) = (c * pitch + d * w, r * drop);
            &&& ex * ex + ey * ey <= drop * drop
            &&& down ==> ey > 0
            &&& !down ==> ey < 0
        }),
    ensures
        d == 0,
        c == 0,
        r == if down {
            1int
        } else {
            -1
        },
{
    let (ex, ey) = (c * pitch + d * w, r * drop);
    assert(r >= 1 || r <= -1) by (nonlinear_arith)
        requires
            ey == r * drop,
            ey != 0,
    ;
    assert(ey * ey >= drop * drop) by (nonlinear_arith)
        requires
            ey == r * drop,
            r >= 1 || r <= -1,
            drop > 0,
    ;
    assert(ex == 0 && ey * ey == drop * drop) by (nonlinear_arith)
        requires
            ex * ex + ey * ey <= drop * drop,
            ey * ey >= drop * drop,
    ;
    assert(r == if down {
        1int
    } else {
        -1
    }) by (nonlinear_arith)
        requires
            ey == r * drop,
            ey * ey == drop * drop,
            drop > 0,
            down ==> ey > 0,
            !down ==> ey < 0,
    ;
    if d >= 1 {
        assert(false) by (nonlinear_arith)
            requires
                0 == c * pitch + d * w,
                d >= 1,
                c > -cols,
                w >= cols * pitch - (pitch - side),
                0 < side < pitch,
                cols >= 1,
        ;
    } else if d <= -1 {
        assert(false) by (nonlinear_arith)
            requires
                0 == c * pitch + d * w,
                d <= -1,
                c < cols,
                w >= cols * pitch - (pitch - side),
                0 < side < pitch,
                cols >= 1,
        ;
    } else {
        assert(c == 0) by (nonlinear_arith)
            requires
                0 == c * pitch + d * w,
                d == 0,
                pitch > 0,
        ;
    }
}

/// The focus goes to the entry right beside the focused one, the way it was asked for: within
/// a row by one entry, between the rows of a page by a row's worth. With nothing focused it
/// goes to the first entry of the page that shows. The entries stay.
pub proof fn law_the_focus_goes_to_the_neighbour(
    grid: &mut AppGrid,
    dir: FocusDir,
    band: Band,
    layout: GridLayout,
    moved: bool,
)
    requires
        old(grid).measured(band),
        old(grid).grid(band).fits(),
        call_ensures(AppGrid::layout, (&*old(grid), band), layout),
        call_ensures(AppGrid::focus_navigate, (grid, dir, band), moved),
    ensures
        final(grid).entries == old(grid).entries,
        old(grid).focused is None ==> moved && final(grid).focused == Some(layout.first_index)
            && final(grid).current_page == old(grid).current_page,
        moved ==> final(grid).focused is Some && final(grid).focused->0
            < old(grid).entries@.len(),
        moved && old(grid).focused is Some && old(grid).focused->0 < old(grid).entries@.len()
            ==> final(grid).current_page == final(grid).focused->0 / layout.per_page,
        old(grid).focused matches Some(i) ==> layout.first_index <= i < layout.first_index
            + layout.tiles@.len() ==> {
            let cols = layout.cols as int;
            let k = i - layout.first_index;
            &&& dir is Right && k + 1 < layout.tiles@.len() && k % cols + 1 < cols ==> moved
                && final(grid).focused == Some((i + 1) as usize)
            &&& dir is Left && k % cols > 0 ==> moved && final(grid).focused == Some(
                (i - 1) as usize,
            )
            &&& dir is Down && k + cols < layout.tiles@.len() ==> moved && final(grid).focused
                == Some((i + cols) as usize)
            &&& dir is Up && k >= cols ==> moved && final(grid).focused == Some(
                (i - cols) as usize,
            )
        },
{
    let was = *old(grid);
    let view = was.grid(band);
    let current = was.current_page as int;
    let page = view.page(current);
    view.lemma_n_pages();
    view.lemma_count(current);
    view.lemma_page(current);
    let n = view.n;
    let size = view.per_page();
    let cols = view.cells().cols;
    if let Some(i) = was.focused {
        let from = i as int;
        if from < n {
            view.law_nearest(page, from, dir, n, from);
            if moved {
                view.lemma_page_of(final(grid).focused->0 as int);
            }
        }
        let first = layout.first_index as int;
        if first <= from < first + layout.tiles@.len() {
            let k = from - first;
            lemma_on_page(from, page, size);
            assert((k + 1) % cols == if k % cols + 1 < cols {
                k % cols + 1
            } else {
                0
            }) by (nonlinear_arith)
                requires
                    cols > 0,
                    k >= 0,
            ;
            assert(0 <= k % cols <= k) by (nonlinear_arith)
                requires
                    cols > 0,
                    k >= 0,
            ;
            match dir {
                FocusDir::Right => {
                    if k + 1 < layout.tiles@.len() && k % cols + 1 < cols {
                        lemma_on_page(from + 1, page, size);
                        view.lemma_nearest_beside(page, from, from + 1, dir);
                    }
                },
                FocusDir::Left => {
                    if k % cols > 0 {
                        lemma_on_page(from - 1, page, size);
                        view.lemma_nearest_beside(page, from, from - 1, dir);
                    }
                },
                FocusDir::Down => {
                    if k + cols < layout.tiles@.len() {
                        lemma_on_page(from + cols, page, size);
                        view.lemma_nearest_beside(page, from, from + cols, dir);
                    }
                },
                FocusDir::Up => {
                    if k >= cols {
                        lemma_on_page(from - cols, page, size);
                        view.lemma_nearest_beside(page, from, from - cols, dir);
                    }
                },
            }
        }
    }
}

} // verus!
