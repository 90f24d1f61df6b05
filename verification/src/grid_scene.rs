//! All that the app grid draws, the topmost first.
//!
//! The pages that are in view come first. While a drag is in flight, the side bands and the
//! neighbouring pages that peek in are below them. Then come the dots, the arrows, and the wash
//! of the arrow under the pointer.

use vstd::prelude::*;

use crate::app_grid::{AppGrid, PageArrow};
use crate::area::{Area, FAR};
use crate::grid_layout::{
    round_px, round_quotient, smaller, Band, Grid, GridLayout, ARROW_DISC, DOT_SIZE, FINE, PARTS, TILE_EXTRA,
};
use crate::grid_page::{Accent, CaptionBox, CaptionText, PageElement, PageLayer};
use crate::grid_swipe::{shown_pages, visible_pages, ShownPage};
use crate::grid_view::{HintPlan, PagePreview};

verus! {

/// How far the neighbouring pages peek in, at most.
pub const PEEK: u32 = 0x10_0000;

/// What a layer of the grid shows. Its picture is made anew when this changes, or its size.
#[derive(Clone, Copy, Debug, PartialEq, Eq, Structural)]
pub enum GridLayer {
    /// A layer of a page that is in view.
    Page { page: usize, layer: PageLayer },
    /// A side band.
    Hint { arrow: PageArrow, dnd: bool },
    /// The icon of an entry on a page that peeks in.
    PeekIcon { entry: usize },
    /// The captions on a page that peeks in.
    PeekCaptions { page: usize, revision: u64 },
    /// The dots, of which one is lit.
    Dots { lit: usize, revision: u64 },
    /// An arrow.
    Arrow { arrow: PageArrow },
    /// The pointer's wash on an arrow.
    ArrowWash { arrow: PageArrow },
}

/// A layer of the grid, and where it is. An icon is somewhere in its tile, and an arrow in the
/// middle of its disc.
#[derive(Clone, Copy, Debug, PartialEq, Eq, Structural)]
pub struct GridElement {
    pub layer: GridLayer,
    pub area: Area,
    /// How far to the right of there it is, in parts of which a fine part has `PEEK`.
    pub past: u32,
    /// How opaque it is next to the grid, if it belongs to a tile that fades.
    pub fade: Option<u32>,
}

/// A page's dot, from the top left of the strip of dots.
#[derive(Clone, Copy, Debug, PartialEq, Eq, Structural)]
pub struct Dot {
    pub area: Area,
    /// It is the current page's: the others are smaller, and half as opaque.
    pub lit: bool,
}

/// The strip of dots.
pub struct DotStrip {
    pub area: Area,
    /// The page whose dot is lit.
    pub lit: usize,
    /// The strip is drawn anew when this changes, or which dot is lit.
    pub revision: u64,
    pub dots: Vec<Dot>,
}

impl Grid {
    pub open spec fn tile(self, k: int, dx: int) -> Area {
        let side = self.cells().side as i128;
        Area { x: self.tile_x(k, dx) as i128, y: self.tile_y(k) as i128, w: side, h: side }
    }

    pub open spec fn tiles(self, page: int, dx: int) -> Seq<Area> {
        Seq::new(self.count(page) as nat, |k: int| self.tile(k, dx))
    }

    pub open spec fn block(self, page: int, dx: int) -> Area {
        let cells = self.cells();
        let rows = self.rows_used(page);
        Area {
            x: round_px(self.band.left() + cells.x + dx) as i128,
            y: round_px(self.band.top() + cells.y) as i128,
            w: (cells.cols * cells.side + (cells.cols - 1) * cells.h_gap) as i128,
            h: (rows * cells.side + (rows - 1) * cells.v_gap) as i128,
        }
    }

    pub open spec fn hint_x(self, next: bool) -> int {
        self.band.left() + (if next {
            self.band.page_w() - self.band.hint_w()
        } else {
            0
        })
    }

    /// A side band, moved sideways.
    pub open spec fn hint(self, next: bool, dx: int) -> Area {
        Area {
            x: (self.hint_x(next) + dx) as i128,
            y: self.band.top() as i128,
            w: self.band.hint_w() as i128,
            h: self.band.page_h() as i128,
        }
    }

    pub open spec fn disc(self, next: bool) -> Area {
        Area {
            x: round_px(self.hint_x(next) + (self.band.hint_w() - ARROW_DISC) / 2) as i128,
            y: round_px(self.band.top() + (self.band.page_h() - ARROW_DISC) / 2) as i128,
            w: ARROW_DISC,
            h: ARROW_DISC,
        }
    }

    /// There is a page to go to from `page`.
    pub open spec fn leads(self, page: int, next: bool) -> bool {
        if next {
            self.page(page) + 1 < self.n_pages()
        } else {
            self.page(page) > 0
        }
    }

    /// The box around the dots.
    pub open spec fn strip(self) -> Area {
        let half = DOT_SIZE / 2;
        Area {
            x: (self.dot_x(0) - half) as i128,
            y: (self.dot_y() - half) as i128,
            w: (self.dot_x(self.n_pages() - 1) - self.dot_x(0) + DOT_SIZE) as i128,
            h: DOT_SIZE,
        }
    }

    /// A page's dot. One that is not lit is two thirds of the size.
    pub open spec fn dot(self, page: int, lit: bool) -> Dot {
        let r = if lit {
            DOT_SIZE / 2
        } else {
            DOT_SIZE / 3
        };
        Dot {
            area: Area {
                x: (self.dot_x(page) - self.dot_x(0) + DOT_SIZE / 2 - r) as i128,
                y: (DOT_SIZE / 2 - r) as i128,
                w: (2 * r) as i128,
                h: (2 * r) as i128,
            },
            lit,
        }
    }

    /// A layout of a page holds just these boxes.
    proof fn lemma_layout(self, page: int, dx: int, layout: GridLayout)
        requires
            0 <= page,
            self.shows(),
            self.is_layout(page, dx, layout),
        ensures
            layout.tiles@ == self.tiles(page, dx),
            layout.block == self.block(page, dx),
            layout.prev_hint == self.hint(false, 0),
            layout.next_hint == self.hint(true, 0),
            layout.prev_arrow == if self.leads(page, false) {
                Some(self.disc(false))
            } else {
                None
            },
            layout.next_arrow == if self.leads(page, true) {
                Some(self.disc(true))
            } else {
                None
            },
    {
        self.lemma_count(page);
        assert(layout.tiles@ =~= self.tiles(page, dx)) by {
            assert forall|k: int| 0 <= k < layout.tiles@.len() implies layout.tiles@[k] == self.tile(
                k,
                dx,
            ) by {
                assert(self.is_tile(k, dx, layout.tiles@[k]));
            }
        }
    }
}

impl AppGrid {
    /// The strip of dots, if there is more than one page.
    pub fn dot_strip(&self, band: Band) -> (strip: Option<DotStrip>)
        requires
            self.measured(band),
        ensures
            ({
                let grid = self.grid(band);
                let lit = grid.page(self.current_page as int);
                match strip {
                    Some(strip) => {
                        &&& grid.n_pages() > 1
                        &&& strip.area == grid.strip()
                        &&& strip.lit == lit
                        &&& strip.revision == self.content_rev
                        &&& strip.dots@.len() == grid.n_pages()
                        &&& forall|p: int|
                            0 <= p < strip.dots@.len() ==> #[trigger] strip.dots@[p] == grid.dot(
                                p,
                                p == lit,
                            )
                    },
                    None => grid.n_pages() <= 1,
                }
            }),
    {
        let layout = self.layout(band);
        let ghost grid = self.grid(band);
        let centers = match layout.indicators {
            Some(centers) => centers,
            None => {
                return None;
            },
        };
        let n: usize = centers.len();
        let (x, y) = centers[0];
        let (last, _) = centers[n - 1];
        let mut dots: Vec<Dot> = Vec::new();
        let mut p: usize = 0;
        while p < n
            invariant
                p <= n,
                n == centers@.len(),
                layout.page == grid.page(self.current_page as int),
                x == grid.dot_x(0),
                -FAR <= x <= FAR,
                forall|q: int|
                    0 <= q < n ==> (#[trigger] centers@[q]).0 == grid.dot_x(q) && -FAR
                        <= centers@[q].0 <= FAR,
                dots@.len() == p,
                forall|q: int|
                    0 <= q < p ==> #[trigger] dots@[q] == grid.dot(
                        q,
                        q == grid.page(self.current_page as int),
                    ),
            decreases n - p,
        {
            let lit = p == layout.page;
            let r: i128 = if lit {
                DOT_SIZE / 2
            } else {
                DOT_SIZE / 3
            };
            let (cx, _) = centers[p];
            dots.push(
                Dot {
                    area: Area {
                        x: cx - x + DOT_SIZE / 2 - r,
                        y: DOT_SIZE / 2 - r,
                        w: 2 * r,
                        h: 2 * r,
                    },
                    lit,
                },
            );
            p = p + 1;
        }
        Some(
            DotStrip {
                area: Area {
                    x: x - DOT_SIZE / 2,
                    y: y - DOT_SIZE / 2,
                    w: last - x + DOT_SIZE,
                    h: DOT_SIZE,
                },
                lit: layout.page,
                revision: self.content_rev,
                dots,
            },
        )
    }
}

impl Grid {
    /// The `k`th tile of a page that is shifted by the quotient of `way` and `unit`.
    pub open spec fn slid_tile(self, k: int, way: int, unit: int) -> Area {
        let cells = self.cells();
        let x = self.band.left() + cells.x + (k % cells.cols) * (cells.side + cells.h_gap);
        Area { x: round_quotient(x * unit + way, unit) as i128, ..self.tile(k, 0) }
    }

    pub open spec fn slid_tiles(self, page: int, way: int, unit: int) -> Seq<Area> {
        Seq::new(self.count(page) as nat, |k: int| self.slid_tile(k, way, unit))
    }

    pub open spec fn slid_block(self, page: int, way: int, unit: int) -> Area {
        let x = self.band.left() + self.cells().x;
        Area { x: round_quotient(x * unit + way, unit) as i128, ..self.block(page, 0) }
    }
}

/// What is left of a way at this peek, in parts of which a fine part has `PEEK`.
pub open spec fn ahead(way: int, peek: u32) -> int {
    way * (PEEK - peek)
}

/// The element that a page's layer is in the grid.
pub open spec fn on_page(page: usize) -> spec_fn(PageElement) -> GridElement {
    |e: PageElement|
        GridElement {
            layer: GridLayer::Page { page, layer: e.layer },
            area: e.area,
            past: 0,
            fade: e.fade,
        }
}

/// A box that is `past` its place has a part of the band in it.
pub open spec fn in_band(area: Area, past: int, band: Band) -> bool {
    &&& area.x + area.w > band.left() || (area.x + area.w == band.left() && past > 0)
    &&& area.x < band.left() + band.page_w()
    &&& area.y + area.h > band.top()
    &&& area.y < band.top() + PARTS * band.h
}

/// A side band comes in from its own side.
pub open spec fn hint_at(hint: HintPlan, peek: u32) -> GridElement {
    let off = ahead(
        if hint.arrow == PageArrow::Prev {
            -hint.area.w
        } else {
            hint.area.w as int
        },
        peek,
    );
    GridElement {
        layer: GridLayer::Hint { arrow: hint.arrow, dnd: hint.dnd },
        area: Area { x: (hint.area.x + off / (PEEK as int)) as i128, ..hint.area },
        past: (off % (PEEK as int)) as u32,
        fade: None,
    }
}

/// Where the cells of a page that peeks in start, and how far past there.
pub open spec fn peek_x(preview: PagePreview, peek: u32) -> int {
    preview.x + ahead(preview.travel as int, peek) / (PEEK as int)
}

pub open spec fn peek_past(preview: PagePreview, peek: u32) -> int {
    ahead(preview.travel as int, peek) % (PEEK as int)
}

impl PagePreview {
    /// Nothing about the page is beyond measure.
    spec fn near(self) -> bool {
        &&& -3 * FAR <= self.x <= 3 * FAR
        &&& -0x10_0000_0000 <= self.travel <= 0x10_0000_0000
        &&& self.count <= 64
        &&& self.first + self.count <= usize::MAX
    }
}

impl Grid {
    /// The preview of a page, to this side.
    pub open spec fn preview(self, next: bool, page: int) -> PagePreview {
        PagePreview {
            page: page as usize,
            first: (page * self.per_page()) as usize,
            count: smaller(self.per_page(), self.n - page * self.per_page()) as usize,
            x: (if next {
                self.next_preview_x()
            } else {
                self.prev_preview_x()
            }) as i128,
            travel: (if next {
                self.band.page_w()
            } else {
                -self.band.page_w()
            }) as i128,
        }
    }

    /// The pages that peek in: the one before, and the one after.
    pub open spec fn previews(self, page: int) -> Seq<PagePreview> {
        (if self.leads(page, false) {
            seq![self.preview(false, self.page(page) - 1)]
        } else {
            Seq::empty()
        }) + (if self.leads(page, true) {
            seq![self.preview(true, self.page(page) + 1)]
        } else {
            Seq::empty()
        })
    }

    /// The `k`th tile of a page that peeks in, whose cells start at `x`.
    pub open spec fn peek_tile(self, k: int, x: int) -> Area {
        let cells = self.cells();
        Area {
            x: (x + (k % cells.cols) * (cells.side + cells.h_gap)) as i128,
            y: (round_px(self.band.top() + cells.y) + (k / cells.cols) * (cells.side
                + cells.v_gap)) as i128,
            w: cells.side as i128,
            h: cells.side as i128,
        }
    }

    /// The icons of the first `n` entries on a page that peeks in, but for those whose tile is
    /// off the band.
    pub open spec fn peek_icons(self, preview: PagePreview, peek: u32, n: int) -> Seq<GridElement>
        decreases n,
    {
        if n <= 0 {
            Seq::empty()
        } else {
            let before = self.peek_icons(preview, peek, n - 1);
            let tile = self.peek_tile(n - 1, peek_x(preview, peek));
            if in_band(tile, peek_past(preview, peek), self.band) {
                before.push(
                    GridElement {
                        layer: GridLayer::PeekIcon { entry: (preview.first + n - 1) as usize },
                        area: tile,
                        past: peek_past(preview, peek) as u32,
                        fade: None,
                    },
                )
            } else {
                before
            }
        }
    }

    /// A page that peeks in beside `page`: its icons over its captions.
    pub open spec fn peek_page(
        self,
        page: int,
        preview: PagePreview,
        peek: u32,
        revision: u64,
    ) -> Seq<GridElement> {
        self.peek_icons(preview, peek, preview.count as int).push(
            GridElement {
                layer: GridLayer::PeekCaptions { page: preview.page, revision },
                area: Area { x: peek_x(preview, peek) as i128, ..self.block(page, 0) },
                past: peek_past(preview, peek) as u32,
                fade: None,
            },
        )
    }

    /// The first `n` pages that peek in.
    pub open spec fn peek_pages(self, page: int, peek: u32, revision: u64, n: int) -> Seq<
        GridElement,
    >
        decreases n,
    {
        if n <= 0 {
            Seq::empty()
        } else {
            self.peek_pages(page, peek, revision, n - 1) + self.peek_page(
                page,
                self.previews(page)[n - 1],
                peek,
                revision,
            )
        }
    }

    pub open spec fn arrow_at(self, page: int, next: bool) -> Seq<GridElement> {
        if self.leads(page, next) {
            seq![
                GridElement {
                    layer: GridLayer::Arrow {
                        arrow: if next {
                            PageArrow::Next
                        } else {
                            PageArrow::Prev
                        },
                    },
                    area: self.disc(next),
                    past: 0,
                    fade: None,
                },
            ]
        } else {
            Seq::empty()
        }
    }
}

impl AppGrid {
    /// The side bands that are drawn.
    pub open spec fn hints(&self, band: Band) -> Seq<HintPlan> {
        let grid = self.grid(band);
        (if grid.leads(self.current_page as int, false) {
            seq![
                HintPlan {
                    arrow: PageArrow::Prev,
                    area: grid.hint(false, 0),
                    dnd: self.hint_hovered == Some(PageArrow::Prev),
                },
            ]
        } else {
            Seq::empty()
        }) + seq![
            HintPlan {
                arrow: PageArrow::Next,
                area: grid.hint(true, 0),
                dnd: self.hint_hovered == Some(PageArrow::Next),
            },
        ]
    }

    /// The layers of a page that is in view.
    pub open spec fn page_at(
        &self,
        band: Band,
        shown: ShownPage,
        unit: int,
        captions: Seq<CaptionText>,
        label: CaptionBox,
        accent: Accent,
    ) -> Seq<GridElement> {
        let grid = self.grid(band);
        let page = shown.page as int;
        let way = shown.dx * band.page_w();
        self.page_of(
            grid.first(page),
            grid.slid_tiles(page, way, unit),
            grid.slid_block(page, way, unit),
            captions,
            label,
            accent,
        ).map_values(on_page(shown.page))
    }

    /// The layers of the first `n` pages that are in view.
    pub open spec fn pages_at(
        &self,
        band: Band,
        shown: Seq<ShownPage>,
        unit: int,
        captions: Seq<CaptionText>,
        label: CaptionBox,
        accent: Accent,
        n: int,
    ) -> Seq<GridElement>
        decreases n,
    {
        if n <= 0 {
            Seq::empty()
        } else {
            self.pages_at(band, shown, unit, captions, label, accent, n - 1) + self.page_at(
                band,
                shown[n - 1],
                unit,
                captions,
                label,
                accent,
            )
        }
    }

    /// What peeks in: the side bands over the neighbouring pages.
    pub open spec fn peeks(&self, band: Band, peek: u32) -> Seq<GridElement> {
        let grid = self.grid(band);
        let page = self.current_page as int;
        if peek == 0 {
            Seq::empty()
        } else {
            self.hints(band).map_values(|hint: HintPlan| hint_at(hint, peek)) + grid.peek_pages(
                page,
                peek,
                self.content_rev,
                grid.previews(page).len() as int,
            )
        }
    }

    pub open spec fn dots_at(&self, band: Band) -> Seq<GridElement> {
        let grid = self.grid(band);
        if grid.n_pages() > 1 {
            seq![
                GridElement {
                    layer: GridLayer::Dots {
                        lit: grid.page(self.current_page as int) as usize,
                        revision: self.content_rev,
                    },
                    area: grid.strip(),
                    past: 0,
                    fade: None,
                },
            ]
        } else {
            Seq::empty()
        }
    }

    /// The wash is on the arrow under the pointer, if it leads anywhere.
    pub open spec fn wash_at(&self, band: Band) -> Seq<GridElement> {
        let grid = self.grid(band);
        match self.hovered_arrow {
            Some(arrow) => {
                let next = arrow == PageArrow::Next;
                if grid.leads(self.current_page as int, next) {
                    seq![
                        GridElement {
                            layer: GridLayer::ArrowWash { arrow },
                            area: grid.disc(next),
                            past: 0,
                            fade: None,
                        },
                    ]
                } else {
                    Seq::empty()
                }
            },
            None => Seq::empty(),
        }
    }

    /// All that the grid draws, the topmost first, while its view is at `pos`.
    pub open spec fn scene(
        &self,
        band: Band,
        pos: int,
        unit: int,
        peek: u32,
        captions: Seq<CaptionText>,
        label: CaptionBox,
        accent: Accent,
    ) -> Seq<GridElement> {
        let grid = self.grid(band);
        let page = self.current_page as int;
        let shown = shown_pages(pos, unit, grid.n_pages());
        self.pages_at(band, shown, unit, captions, label, accent, shown.len() as int) + self.peeks(
            band,
            peek,
        ) + self.dots_at(band) + grid.arrow_at(page, false) + grid.arrow_at(page, true)
            + self.wash_at(band)
    }
}

/// The whole numbers around a quotient.
fn around(way: i128, unit: i128, w: i128) -> (ends: (i128, i128))
    requires
        0 < unit <= 0x1_0000_0000_0000_0000_0000,
        -(unit * w) <= way <= unit * w,
        0 <= w <= 0x10_0000_0000,
    ensures
        ends.0 == way as int / unit as int,
        ends.1 == if way as int % unit as int == 0 {
            ends.0 as int
        } else {
            ends.0 + 1
        },
        -w <= ends.0 <= ends.1 <= w,
{
    proof {
        assert(unit * w <= 0x1_0000_0000_0000_0000_0000 * 0x10_0000_0000) by (nonlinear_arith)
            requires
                0 < unit <= 0x1_0000_0000_0000_0000_0000,
                0 <= w <= 0x10_0000_0000,
        ;
        lemma_around(way as int, unit as int, w as int);
    }
    let low: i128 = if way >= 0 {
        way / unit
    } else {
        -((-way + unit - 1) / unit)
    };
    let high: i128 = if low * unit == way {
        low
    } else {
        low + 1
    };
    (low, high)
}

proof fn lemma_around(way: int, unit: int, w: int)
    requires
        0 < unit,
        -(unit * w) <= way <= unit * w,
    ensures
        -w <= way / unit <= w,
        way % unit != 0 ==> way / unit < w,
        way < 0 ==> way / unit == -((-way + unit - 1) / unit),
        (way / unit) * unit == way <==> way % unit == 0,
        -(unit * w) - unit <= (way / unit) * unit <= unit * w,
{
    let q = way / unit;
    let r = way % unit;
    assert(way == unit * q + r && 0 <= r < unit) by {
        vstd::arithmetic::div_mod::lemma_fundamental_div_mod(way, unit);
    }
    assert(-w <= q <= w && (r != 0 ==> q < w) && q * unit == way - r) by (nonlinear_arith)
        requires
            0 < unit,
            -(unit * w) <= way <= unit * w,
            way == unit * q + r,
            0 <= r < unit,
    ;
    assert(way < 0 ==> q == -((-way + unit - 1) / unit)) by (nonlinear_arith)
        requires
            0 < unit,
            q == way / unit,
    ;
}

/// A quotient rounds like the whole number on its far side of zero's, so like the one below it
/// unless that rounds to below zero.
proof fn lemma_round_quotient(x: int, way: int, unit: int)
    requires
        0 < unit,
    ensures
        ({
            let low = way / unit;
            let high = if way % unit == 0 {
                low
            } else {
                low + 1
            };
            round_quotient(x * unit + way, unit) == if round_px(x + low) < 0 {
                round_px(x + high)
            } else {
                round_px(x + low)
            }
        }),
{
    let (f, h) = (FINE as int, FINE / 2);
    let low = way / unit;
    let r = way % unit;
    let high = if r == 0 {
        low
    } else {
        low + 1
    };
    let a = x * unit + way;
    vstd::arithmetic::div_mod::lemma_fundamental_div_mod(way, unit);
    assert(a == (x + low) * unit + r) by (nonlinear_arith)
        requires
            a == x * unit + way,
            way == unit * low + r,
    ;
    assert((a >= 0) == (x + low >= 0)) by (nonlinear_arith)
        requires
            a == (x + low) * unit + r,
            0 <= r < unit,
    ;
    if a >= 0 {
        let top = a + unit * h;
        assert(top == (x + low + h) * unit + r && top >= 0) by (nonlinear_arith)
            requires
                top == a + unit * h,
                a == (x + low) * unit + r,
                a >= 0,
                unit > 0,
                h == 67_200,
        ;
        vstd::arithmetic::div_mod::lemma_fundamental_div_mod_converse(
            top,
            unit,
            x + low + h,
            r,
        );
        vstd::arithmetic::div_mod::lemma_div_denominator(top, unit, f);
    } else {
        let rest = if r == 0 {
            0
        } else {
            unit - r
        };
        let top = -a + unit * h;
        assert(top == (-(x + high) + h) * unit + rest && top >= 0) by (nonlinear_arith)
            requires
                top == -a + unit * h,
                a == (x + low) * unit + r,
                (r == 0 && rest == 0 && high == low) || (r != 0 && rest == unit - r && high == low
                    + 1),
                a < 0,
                unit > 0,
                h == 67_200,
        ;
        vstd::arithmetic::div_mod::lemma_fundamental_div_mod_converse(
            top,
            unit,
            -(x + high) + h,
            rest,
        );
        vstd::arithmetic::div_mod::lemma_div_denominator(top, unit, f);
    }
}

fn moved(way: i128, peek: u32) -> (by: (i128, u32))
    requires
        -0x10_0000_0000 <= way <= 0x10_0000_0000,
        peek <= PEEK,
    ensures
        by.0 == ahead(way as int, peek) / (PEEK as int),
        by.1 == ahead(way as int, peek) % (PEEK as int),
        -0x10_0000_0000 <= by.0 <= 0x10_0000_0000,
        by.1 < PEEK,
{
    let left: i128 = (PEEK - peek) as i128;
    assert(-0x10_0000_0000 * 0x10_0000 <= way * left <= 0x10_0000_0000 * 0x10_0000)
        by (nonlinear_arith)
        requires
            -0x10_0000_0000 <= way <= 0x10_0000_0000,
            0 <= left <= 0x10_0000,
    ;
    let steps: i128 = way * left;
    let whole: i128 = if steps >= 0 {
        steps / 0x10_0000
    } else {
        -((-steps + 0xf_ffff) / 0x10_0000)
    };
    (whole, (steps - whole * 0x10_0000) as u32)
}

impl AppGrid {
    /// Lay out a page that is in view.
    fn place(&self, band: Band, shown: ShownPage, unit: i128) -> (layout: GridLayout)
        requires
            self.measured(band),
            self.grid(band).shows(),
            shown.page < self.grid(band).n_pages(),
            0 < unit <= 0x1_0000_0000_0000_0000_0000,
            -unit < shown.dx < unit,
        ensures
            ({
                let grid = self.grid(band);
                let page = shown.page as int;
                let way = shown.dx * band.page_w();
                &&& layout.first_index == grid.first(page)
                &&& layout.tiles@ == grid.slid_tiles(page, way, unit as int)
                &&& layout.block == grid.slid_block(page, way, unit as int)
                &&& layout.near()
            }),
    {
        let ghost grid = self.grid(band);
        let ghost page = shown.page as int;
        let w: i128 = PARTS * (band.w as i128);
        proof {
            let (dx, u, w) = (shown.dx as int, unit as int, w as int);
            assert(-(u * w) <= dx * w <= u * w) by (nonlinear_arith)
                requires
                    -u < dx < u,
                    0 <= w,
            ;
            assert(u * w <= 0x1_0000_0000_0000_0000_0000 * 0x10_0000_0000) by (nonlinear_arith)
                requires
                    0 < u <= 0x1_0000_0000_0000_0000_0000,
                    0 <= w <= 0x10_0000_0000,
            ;
        }
        let way: i128 = shown.dx * w;
        let (low, high) = around(way, unit, w);
        let mut layout = self.layout_at(band, shown.page, low);
        let other = self.layout_at(band, shown.page, high);
        let ghost before = layout;
        let ghost all = grid.slid_tiles(page, way as int, unit as int);
        proof {
            grid.lemma_layout(page, low as int, layout);
            grid.lemma_layout(page, high as int, other);
            lemma_round_quotient(
                grid.band.left() + grid.cells().x,
                way as int,
                unit as int,
            );
        }
        let n: usize = layout.tiles.len();
        let mut k: usize = 0;
        while k < n
            invariant
                k <= n,
                n == layout.tiles@.len(),
                n == other.tiles@.len(),
                n == all.len(),
                grid == self.grid(band),
                0 < unit,
                all == grid.slid_tiles(page, way as int, unit as int),
                before.near(),
                other.near(),
                grid.is_layout(page, low as int, before),
                grid.is_layout(page, high as int, other),
                low == way as int / unit as int,
                high == if way as int % unit as int == 0 {
                    low as int
                } else {
                    low + 1
                },
                layout == (GridLayout { tiles: layout.tiles, ..before }),
                forall|j: int| 0 <= j < k ==> #[trigger] layout.tiles@[j] == all[j],
                forall|j: int| k <= j < n ==> #[trigger] layout.tiles@[j] == before.tiles@[j],
                forall|j: int| 0 <= j < n ==> (#[trigger] layout.tiles@[j]).near(),
            decreases n - k,
        {
            let tile = layout.tiles[k];
            assert(tile == before.tiles@[k as int]);
            assert(other.tiles@[k as int].near());
            proof {
                let cells = grid.cells();
                let x = grid.band.left() + cells.x + (k as int % cells.cols) * (cells.side
                    + cells.h_gap);
                lemma_round_quotient(x, way as int, unit as int);
                assert(grid.tile_x(k as int, low as int) == round_px(x + low));
                assert(grid.tile_x(k as int, high as int) == round_px(x + high));
                assert(grid.is_tile(k as int, low as int, tile));
                assert(grid.is_tile(k as int, high as int, other.tiles@[k as int]));
                assert(all[k as int] == grid.slid_tile(k as int, way as int, unit as int));
            }
            if tile.x < 0 {
                let x: i128 = other.tiles[k].x;
                layout.tiles.set(k, Area { x, y: tile.y, w: tile.w, h: tile.h });
            }
            k = k + 1;
        }
        assert(layout.tiles@ =~= all);
        if layout.block.x < 0 {
            let block = layout.block;
            layout.block = Area { x: other.block.x, y: block.y, w: block.w, h: block.h };
        }
        layout
    }

    fn draw_shown(
        &self,
        band: Band,
        shown: ShownPage,
        unit: i128,
        captions: &Vec<CaptionText>,
        label: CaptionBox,
        accent: Accent,
        scene: &mut Vec<GridElement>,
    )
        requires
            self.measured(band),
            self.grid(band).shows(),
            shown.page < self.grid(band).n_pages(),
            0 < unit <= 0x1_0000_0000_0000_0000_0000,
            -unit < shown.dx < unit,
            captions@.len() == self.entries@.len(),
            label.good(),
        ensures
            final(scene)@ == old(scene)@ + self.page_at(band, shown, unit as int, captions@, label, accent),
    {
        let ghost grid = self.grid(band);
        let layout = self.place(band, shown, unit);
        proof {
            grid.lemma_count(shown.page as int);
        }
        let layers = self.render_page(&layout, captions, label, accent);
        let ghost before = scene@;
        let ghost all = self.page_at(band, shown, unit as int, captions@, label, accent);
        assert(all == layers@.map_values(on_page(shown.page)));
        let mut i: usize = 0;
        while i < layers.len()
            invariant
                i <= layers@.len(),
                all == layers@.map_values(on_page(shown.page)),
                scene@ == before + all.take(i as int),
            decreases layers@.len() - i,
        {
            let e = layers[i];
            scene.push(
                GridElement {
                    layer: GridLayer::Page { page: shown.page, layer: e.layer },
                    area: e.area,
                    past: 0,
                    fade: e.fade,
                },
            );
            assert(all[i as int] == on_page(shown.page)(layers@[i as int]));
            assert(all.take(i + 1) =~= all.take(i as int).push(all[i as int]));
            i = i + 1;
        }
        assert(all.take(i as int) =~= all);
    }

    fn draw_hints(&self, band: Band, peek: u32, scene: &mut Vec<GridElement>)
        requires
            self.measured(band),
            self.grid(band).shows(),
            peek <= PEEK,
        ensures
            final(scene)@ == old(scene)@ + self.hints(band).map_values(
                |hint: HintPlan| hint_at(hint, peek),
            ),
    {
        let ghost grid = self.grid(band);
        let plan = self.hint_plan(band);
        let ghost f = |hint: HintPlan| hint_at(hint, peek);
        let ghost all = self.hints(band).map_values(f);
        let ghost before = scene@;
        assert(plan@ =~= self.hints(band));
        let mut i: usize = 0;
        while i < plan.len()
            invariant
                i <= plan@.len(),
                plan@ == self.hints(band),
                band.good(),
                peek <= PEEK,
                f == (|hint: HintPlan| hint_at(hint, peek)),
                all == plan@.map_values(f),
                scene@ == before + all.take(i as int),
            decreases plan@.len() - i,
        {
            let hint = plan[i];
            assert(hint == self.hints(band)[i as int]);
            assert(PARTS / 10 * band.w == 210 * band.w);
            assert(hint.area.w == band.hint_w());
            let way: i128 = match hint.arrow {
                PageArrow::Prev => -hint.area.w,
                PageArrow::Next => hint.area.w,
            };
            let (by, past) = moved(way, peek);
            let x: i128 = hint.area.x + by;
            scene.push(
                GridElement {
                    layer: GridLayer::Hint { arrow: hint.arrow, dnd: hint.dnd },
                    area: Area { x, y: hint.area.y, w: hint.area.w, h: hint.area.h },
                    past,
                    fade: None,
                },
            );
            assert(all[i as int] == hint_at(hint, peek));
            assert(all.take(i + 1) =~= all.take(i as int).push(all[i as int]));
            i = i + 1;
        }
        assert(all.take(i as int) =~= all);
    }

    fn draw_peek(
        &self,
        band: Band,
        layout: &GridLayout,
        preview: PagePreview,
        peek: u32,
        scene: &mut Vec<GridElement>,
    )
        requires
            self.measured(band),
            self.grid(band).shows(),
            self.grid(band).is_layout(self.current_page as int, 0, *layout),
            layout.near(),
            peek <= PEEK,
            preview.near(),
        ensures
            final(scene)@ == old(scene)@ + self.grid(band).peek_page(
                self.current_page as int,
                preview,
                peek,
                self.content_rev,
            ),
    {
        let ghost grid = self.grid(band);
        let (by, past) = moved(preview.travel, peek);
        let x: i128 = preview.x + by;
        proof {
            grid.lemma_side();
            grid.lemma_n_pages();
        }
        let side: i128 = (layout.icon_px + TILE_EXTRA) * FINE;
        let y: i128 = layout.block.y;
        let cols: usize = layout.cols;
        let left: i128 = PARTS * (band.x as i128);
        let top: i128 = PARTS * (band.y as i128);
        let right: i128 = left + PARTS * (band.w as i128);
        let bottom: i128 = top + PARTS * (band.h as i128);
        let ghost before = scene@;
        let mut k: usize = 0;
        while k < preview.count
            invariant
                k <= preview.count <= 64,
                preview.first + preview.count <= usize::MAX,
                grid == self.grid(band),
                -4 * FAR <= x <= 4 * FAR,
                x == peek_x(preview, peek),
                past == peek_past(preview, peek),
                layout.near(),
                y == layout.block.y,
                y == round_px(band.top() + grid.cells().y),
                0 <= side <= FAR,
                side == grid.cells().side,
                layout.h_sp == grid.cells().h_gap,
                layout.v_sp == grid.cells().v_gap,
                cols == grid.cells().cols,
                3 <= cols <= 8,
                left == band.left(),
                top == band.top(),
                right == band.left() + band.page_w(),
                bottom == band.top() + PARTS * band.h,
                scene@ == before + grid.peek_icons(preview, peek, k as int),
            decreases preview.count - k,
        {
            let c: i128 = (k % cols) as i128;
            let r: i128 = (k / cols) as i128;
            proof {
                assert(0 <= c <= 8 && 0 <= r <= 64) by (nonlinear_arith)
                    requires
                        c == k % cols,
                        r == k / cols,
                        k <= 64,
                        3 <= cols <= 8,
                ;
                lemma_steps(c as int, side + layout.h_sp);
                lemma_steps(r as int, side + layout.v_sp);
            }
            let tile = Area {
                x: x + c * (side + layout.h_sp),
                y: y + r * (side + layout.v_sp),
                w: side,
                h: side,
            };
            assert(tile == grid.peek_tile(k as int, x as int));
            let clear = tile.x + tile.w > left || (tile.x + tile.w == left && past > 0);
            if clear && tile.x < right && tile.y + tile.h > top && tile.y < bottom {
                scene.push(
                    GridElement {
                        layer: GridLayer::PeekIcon { entry: preview.first + k },
                        area: tile,
                        past,
                        fade: None,
                    },
                );
            }
            assert(scene@ =~= before + grid.peek_icons(preview, peek, k + 1));
            k = k + 1;
        }
        proof {
            grid.lemma_layout(self.current_page as int, 0, *layout);
        }
        scene.push(
            GridElement {
                layer: GridLayer::PeekCaptions { page: preview.page, revision: self.content_rev },
                area: Area { x, y: layout.block.y, w: layout.block.w, h: layout.block.h },
                past,
                fade: None,
            },
        );
    }
}

impl AppGrid {
    /// Draw the grid, whose view is at `pos`, a page being `unit`, while its neighbours peek in
    /// so far: its layers, the topmost first. A grid that is not opaque at all draws none.
    pub fn render(
        &self,
        band: Band,
        alpha: u32,
        pos: i128,
        unit: i128,
        peek: u32,
        captions: &Vec<CaptionText>,
        label: CaptionBox,
        accent: Accent,
    ) -> (scene: Vec<GridElement>)
        requires
            self.measured(band),
            0 < unit <= 0x1_0000_0000_0000_0000_0000,
            0 <= pos <= 0x1000_0000 * unit,
            peek <= PEEK,
            captions@.len() == self.entries@.len(),
            label.good(),
        ensures
            scene@ == if alpha == 0 || !self.grid(band).shows() {
                Seq::empty()
            } else {
                self.scene(band, pos as int, unit as int, peek, captions@, label, accent)
            },
    {
        let ghost grid = self.grid(band);
        let ghost page = self.current_page as int;
        let mut scene: Vec<GridElement> = Vec::new();
        let layout = self.layout(band);
        proof {
            grid.lemma_n_pages();
        }
        if alpha == 0 || layout.n_pages == 0 {
            return scene;
        }
        proof {
            grid.lemma_page(page);
            grid.lemma_layout(page, 0, layout);
        }
        let shown = visible_pages(pos, unit, layout.n_pages);
        let mut i: usize = 0;
        while i < shown.len()
            invariant
                i <= shown@.len(),
                self.measured(band),
                grid == self.grid(band),
                grid.shows(),
                0 < unit <= 0x1_0000_0000_0000_0000_0000,
                captions@.len() == self.entries@.len(),
                label.good(),
                forall|j: int|
                    0 <= j < shown@.len() ==> (#[trigger] shown@[j]).page < grid.n_pages() && -unit
                        < shown@[j].dx < unit,
                scene@ == self.pages_at(band, shown@, unit as int, captions@, label, accent, i as int),
            decreases shown@.len() - i,
        {
            self.draw_shown(band, shown[i], unit, captions, label, accent, &mut scene);
            i = i + 1;
        }
        self.draw_peeks(band, &layout, peek, &mut scene);
        self.draw_paging(band, &layout, &mut scene);
        assert(scene@ =~= self.scene(band, pos as int, unit as int, peek, captions@, label, accent));
        scene
    }

    fn draw_peeks(&self, band: Band, layout: &GridLayout, peek: u32, scene: &mut Vec<GridElement>)
        requires
            self.measured(band),
            self.grid(band).shows(),
            self.grid(band).is_layout(self.current_page as int, 0, *layout),
            layout.near(),
            peek <= PEEK,
        ensures
            final(scene)@ == old(scene)@ + self.peeks(band, peek),
    {
        if peek == 0 {
            return;
        }
        let ghost grid = self.grid(band);
        let ghost page = self.current_page as int;
        let ghost first = scene@;
        self.draw_hints(band, peek, scene);
        let ghost before = scene@;
        let previews = self.preview_plan(band);
        proof {
            self.lemma_previews(band, *layout, previews@);
        }
        let mut i: usize = 0;
        while i < previews.len()
            invariant
                i <= previews@.len(),
                self.measured(band),
                grid == self.grid(band),
                page == self.current_page,
                grid.shows(),
                grid.is_layout(page, 0, *layout),
                layout.near(),
                peek <= PEEK,
                previews@ == grid.previews(page),
                forall|j: int| 0 <= j < previews@.len() ==> (#[trigger] previews@[j]).near(),
                scene@ == before + grid.peek_pages(page, peek, self.content_rev, i as int),
            decreases previews@.len() - i,
        {
            self.draw_peek(band, layout, previews[i], peek, scene);
            assert(scene@ =~= before + grid.peek_pages(page, peek, self.content_rev, i + 1));
            i = i + 1;
        }
        assert(scene@ =~= first + self.peeks(band, peek));
    }

    /// The dots, the arrows, and the wash on one.
    fn draw_paging(&self, band: Band, layout: &GridLayout, scene: &mut Vec<GridElement>)
        requires
            self.measured(band),
            self.grid(band).shows(),
            self.grid(band).is_layout(self.current_page as int, 0, *layout),
        ensures
            ({
                let grid = self.grid(band);
                let page = self.current_page as int;
                final(scene)@ == old(scene)@ + (self.dots_at(band) + grid.arrow_at(page, false)
                    + grid.arrow_at(page, true) + self.wash_at(band))
            }),
    {
        let ghost grid = self.grid(band);
        let ghost page = self.current_page as int;
        proof {
            grid.lemma_layout(page, 0, *layout);
        }
        let ghost before = scene@;
        if let Some(strip) = self.dot_strip(band) {
            scene.push(
                GridElement {
                    layer: GridLayer::Dots { lit: strip.lit, revision: strip.revision },
                    area: strip.area,
                    past: 0,
                    fade: None,
                },
            );
        }
        assert(scene@ =~= before + self.dots_at(band));
        if let Some(disc) = layout.prev_arrow {
            scene.push(
                GridElement {
                    layer: GridLayer::Arrow { arrow: PageArrow::Prev },
                    area: disc,
                    past: 0,
                    fade: None,
                },
            );
        }
        if let Some(disc) = layout.next_arrow {
            scene.push(
                GridElement {
                    layer: GridLayer::Arrow { arrow: PageArrow::Next },
                    area: disc,
                    past: 0,
                    fade: None,
                },
            );
        }
        assert(scene@ =~= before + (self.dots_at(band) + grid.arrow_at(page, false)
            + grid.arrow_at(page, true)));
        if let Some(arrow) = self.hovered_arrow {
            let disc = match arrow {
                PageArrow::Prev => layout.prev_arrow,
                PageArrow::Next => layout.next_arrow,
            };
            if let Some(disc) = disc {
                scene.push(
                    GridElement {
                        layer: GridLayer::ArrowWash { arrow },
                        area: disc,
                        past: 0,
                        fade: None,
                    },
                );
            }
        }
    }

    /// The previews are just these, and within measure.
    proof fn lemma_previews(&self, band: Band, layout: GridLayout, previews: Seq<PagePreview>)
        requires
            self.measured(band),
            self.grid(band).shows(),
            self.grid(band).is_layout(self.current_page as int, 0, layout),
            layout.near(),
            self.grid(band).is_previews(self.current_page as int, previews),
        ensures
            previews == self.grid(band).previews(self.current_page as int),
            forall|j: int| 0 <= j < previews.len() ==> (#[trigger] previews[j]).near(),
    {
        let grid = self.grid(band);
        let page = self.current_page as int;
        grid.lemma_n_pages();
        grid.lemma_page(page);
        assert(previews =~= grid.previews(page));
    }
}

proof fn lemma_steps(n: int, step: int)
    by (nonlinear_arith)
    requires
        0 <= n <= 64,
        -2 * 0x1_0000_0000_0000_0000_0000_0000_0000 <= step <= 2
            * 0x1_0000_0000_0000_0000_0000_0000_0000,
    ensures
        -128 * 0x1_0000_0000_0000_0000_0000_0000_0000 <= n * step <= 128
            * 0x1_0000_0000_0000_0000_0000_0000_0000,
{
}

/// How far down a layer is.
pub open spec fn grid_depth(layer: GridLayer) -> int {
    match layer {
        GridLayer::Page { .. } => 0,
        GridLayer::Hint { .. } => 1,
        GridLayer::PeekIcon { .. } => 2,
        GridLayer::PeekCaptions { .. } => 2,
        GridLayer::Dots { .. } => 3,
        GridLayer::Arrow { .. } => 4,
        GridLayer::ArrowWash { .. } => 5,
    }
}

spec fn all_at(elements: Seq<GridElement>, depth: int) -> bool {
    forall|i: int|
        0 <= i < elements.len() ==> grid_depth((#[trigger] elements[i]).layer) == depth
}

impl Grid {
    proof fn lemma_peek_icons(self, preview: PagePreview, peek: u32, n: int)
        ensures
            all_at(self.peek_icons(preview, peek, n), 2),
            forall|i: int|
                0 <= i < self.peek_icons(preview, peek, n).len() ==> {
                    let element = #[trigger] self.peek_icons(preview, peek, n)[i];
                    in_band(element.area, element.past as int, self.band)
                },
        decreases n,
    {
        if n > 0 {
            self.lemma_peek_icons(preview, peek, n - 1);
        }
    }

    proof fn lemma_peek_pages(self, page: int, peek: u32, revision: u64, n: int)
        requires
            n <= self.previews(page).len(),
        ensures
            all_at(self.peek_pages(page, peek, revision, n), 2),
            forall|i: int|
                0 <= i < self.peek_pages(page, peek, revision, n).len() ==> {
                    let element = #[trigger] self.peek_pages(page, peek, revision, n)[i];
                    element.layer is PeekIcon ==> in_band(element.area, element.past as int, self.band)
                },
        decreases n,
    {
        if n > 0 {
            let preview = self.previews(page)[n - 1];
            self.lemma_peek_pages(page, peek, revision, n - 1);
            self.lemma_peek_icons(preview, peek, preview.count as int);
        }
    }
}

impl AppGrid {
    proof fn lemma_pages_at(
        &self,
        band: Band,
        shown: Seq<ShownPage>,
        unit: int,
        captions: Seq<CaptionText>,
        label: CaptionBox,
        accent: Accent,
        n: int,
    )
        ensures
            all_at(self.pages_at(band, shown, unit, captions, label, accent, n), 0),
        decreases n,
    {
        if n > 0 {
            self.lemma_pages_at(band, shown, unit, captions, label, accent, n - 1);
        }
    }

    /// Nothing of the grid is over what it belongs under: the pages are on top, then the side
    /// bands, the pages that peek in, the dots, the arrows, and the wash on one.
    pub proof fn law_the_scene_is_in_order(
        &self,
        band: Band,
        pos: int,
        unit: int,
        peek: u32,
        captions: Seq<CaptionText>,
        label: CaptionBox,
        accent: Accent,
        i: int,
        j: int,
    )
        requires
            0 <= i <= j < self.scene(band, pos, unit, peek, captions, label, accent).len(),
        ensures
            ({
                let scene = self.scene(band, pos, unit, peek, captions, label, accent);
                grid_depth(scene[i].layer) <= grid_depth(scene[j].layer)
            }),
    {
        let grid = self.grid(band);
        let page = self.current_page as int;
        let shown = shown_pages(pos, unit, grid.n_pages());
        self.lemma_pages_at(band, shown, unit, captions, label, accent, shown.len() as int);
        grid.lemma_peek_pages(page, peek, self.content_rev, grid.previews(page).len() as int);
        let hints = self.hints(band).map_values(|hint: HintPlan| hint_at(hint, peek));
        assert(all_at(hints, 1));
    }

    /// Of a page that peeks in, only icons whose tile is on the band are drawn; and without a
    /// peek, nothing of it is.
    pub proof fn law_only_what_peeks_in_is_drawn(
        &self,
        band: Band,
        pos: int,
        unit: int,
        peek: u32,
        captions: Seq<CaptionText>,
        label: CaptionBox,
        accent: Accent,
        i: int,
    )
        requires
            0 <= i < self.scene(band, pos, unit, peek, captions, label, accent).len(),
        ensures
            ({
                let element = self.scene(band, pos, unit, peek, captions, label, accent)[i];
                &&& element.layer is PeekIcon ==> in_band(element.area, element.past as int, band)
                &&& peek == 0 ==> !(1 <= grid_depth(element.layer) <= 2)
            }),
    {
        let grid = self.grid(band);
        let page = self.current_page as int;
        let shown = shown_pages(pos, unit, grid.n_pages());
        self.lemma_pages_at(band, shown, unit, captions, label, accent, shown.len() as int);
        grid.lemma_peek_pages(page, peek, self.content_rev, grid.previews(page).len() as int);
        let hints = self.hints(band).map_values(|hint: HintPlan| hint_at(hint, peek));
        assert(all_at(hints, 1));
    }

    /// A page change makes the strip of dots anew, though nothing on the pages has changed.
    pub proof fn law_another_page_lights_another_dot(&self, other: &AppGrid, band: Band)
        requires
            self.measured(band),
            other.measured(band),
            self.grid(band).n_pages() > 1,
            self.grid(band) == other.grid(band),
            self.grid(band).page(self.current_page as int) != other.grid(band).page(
                other.current_page as int,
            ),
        ensures
            self.dots_at(band)[0].layer != other.dots_at(band)[0].layer,
    {
        let grid = self.grid(band);
        grid.lemma_n_pages();
        grid.lemma_page(self.current_page as int);
        grid.lemma_page(other.current_page as int);
    }
}

} // verus!
