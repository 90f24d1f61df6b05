//! What the app grid draws while the neighbouring pages peek in.

use vstd::prelude::*;

use crate::app_grid::{AppGrid, PageArrow};
use crate::area::Area;
use crate::grid_layout::{smaller, Band, Grid};

verus! {

/// A side band that is drawn.
#[derive(Clone, Copy, Debug, PartialEq, Eq, Structural)]
pub struct HintPlan {
    pub arrow: PageArrow,
    pub area: Area,
    /// A drag is over it.
    pub dnd: bool,
}

/// A neighbouring page that peeks in.
#[derive(Clone, Copy, Debug, PartialEq, Eq, Structural)]
pub struct PagePreview {
    pub page: usize,
    /// Its first entry, and how many it has.
    pub first: usize,
    pub count: usize,
    /// Where its cells start once it peeks in all the way.
    pub x: i128,
    /// How far from there they start when it does not peek in at all.
    pub travel: i128,
}

impl Grid {
    /// Where the cells of the page before start when it peeks in: their right edge is one
    /// spacing short of the inside of the band.
    pub open spec fn prev_preview_x(self) -> int {
        let cells = self.cells();
        self.band.left() + self.band.hint_w() - cells.h_gap - (cells.cols * cells.side + (
        cells.cols - 1) * cells.h_gap)
    }

    /// Where the cells of the page after start when it peeks in: one spacing inside the band.
    pub open spec fn next_preview_x(self) -> int {
        self.band.left() + self.band.page_w() - self.band.hint_w() + self.cells().h_gap
    }

    /// The preview is of page `page`, to this side.
    pub open spec fn is_preview(self, next: bool, page: int, preview: PagePreview) -> bool {
        &&& preview.page == page
        &&& preview.first == page * self.per_page()
        &&& preview.count == smaller(self.per_page(), self.n - page * self.per_page())
        &&& preview.x == if next {
            self.next_preview_x()
        } else {
            self.prev_preview_x()
        }
        &&& preview.travel == if next {
            self.band.page_w()
        } else {
            -self.band.page_w()
        }
    }

    /// The previews, while page `page` shows: of the page before and of the page after, where
    /// there is one.
    pub open spec fn is_previews(self, page: int, previews: Seq<PagePreview>) -> bool {
        let at = self.page(page);
        let before = at > 0;
        let after = self.shows() && at + 1 < self.n_pages();
        &&& previews.len() == (if before {
            1int
        } else {
            0
        }) + (if after {
            1int
        } else {
            0
        })
        &&& before ==> self.is_preview(false, at - 1, previews[0])
        &&& after ==> self.is_preview(true, at + 1, previews[previews.len() - 1])
    }

    /// A page that does not peek in is off the page, where the cells do not overlap.
    pub proof fn law_hidden_previews_are_off_the_page(self)
        requires
            self.good(),
            self.shows(),
            0 <= self.cells().h_gap,
        ensures
            self.prev_preview_x() - self.band.page_w() + self.cells().cols * self.cells().side + (
            self.cells().cols - 1) * self.cells().h_gap <= self.band.left(),
            self.next_preview_x() + self.band.page_w() >= self.band.left() + self.band.page_w(),
    {
    }
}

impl AppGrid {
    /// The side bands to draw. The one to the page before leads nowhere from the first page; the
    /// one to the page after counts on the last page too, where a drop makes a new page.
    pub fn hint_plan(&self, band: Band) -> (plan: Vec<HintPlan>)
        requires
            self.measured(band),
        ensures
            ({
                let grid = self.grid(band);
                let before = grid.shows() && grid.page(self.current_page as int) > 0;
                &&& plan@.len() == if !grid.shows() {
                    0int
                } else if before {
                    2
                } else {
                    1
                }
                &&& before ==> {
                    &&& plan@[0].arrow == PageArrow::Prev
                    &&& grid.is_hint(false, plan@[0].area)
                    &&& plan@[0].dnd == (self.hint_hovered == Some(PageArrow::Prev))
                }
                &&& grid.shows() ==> {
                    &&& plan@.last().arrow == PageArrow::Next
                    &&& grid.is_hint(true, plan@.last().area)
                    &&& plan@.last().dnd == (self.hint_hovered == Some(PageArrow::Next))
                }
            }),
    {
        let layout = self.layout(band);
        proof {
            self.grid(band).lemma_n_pages();
        }
        let mut plan: Vec<HintPlan> = Vec::new();
        if layout.n_pages == 0 {
            return plan;
        }
        if layout.page > 0 {
            let dnd = match self.hint_hovered {
                Some(arrow) => arrow == PageArrow::Prev,
                None => false,
            };
            plan.push(HintPlan { arrow: PageArrow::Prev, area: layout.prev_hint, dnd });
        }
        let dnd = match self.hint_hovered {
            Some(arrow) => arrow == PageArrow::Next,
            None => false,
        };
        plan.push(HintPlan { arrow: PageArrow::Next, area: layout.next_hint, dnd });
        plan
    }

    /// The pages that peek in beside the current one.
    pub fn preview_plan(&self, band: Band) -> (previews: Vec<PagePreview>)
        requires
            self.measured(band),
        ensures
            self.grid(band).is_previews(self.current_page as int, previews@),
    {
        let layout = self.layout(band);
        let ghost grid = self.grid(band);
        proof {
            grid.lemma_n_pages();
        }
        let n: usize = self.entries.len();
        let mut previews: Vec<PagePreview> = Vec::new();
        if layout.n_pages == 0 {
            return previews;
        }
        if layout.page > 0 {
            let page: usize = layout.page - 1;
            proof {
                grid.lemma_page(page as int);
                grid.lemma_page(layout.page as int);
            }
            let first: usize = page * layout.per_page;
            let left: usize = n - first;
            previews.push(
                PagePreview {
                    page,
                    first,
                    count: if layout.per_page < left {
                        layout.per_page
                    } else {
                        left
                    },
                    x: layout.prev_hint.x + layout.prev_hint.w - layout.h_sp - layout.block.w,
                    travel: layout.prev_hint.x - layout.next_hint.x - layout.next_hint.w,
                },
            );
        }
        if layout.page + 1 < layout.n_pages {
            let page: usize = layout.page + 1;
            proof {
                grid.lemma_page(page as int);
            }
            let first: usize = page * layout.per_page;
            let left: usize = n - first;
            previews.push(
                PagePreview {
                    page,
                    first,
                    count: if layout.per_page < left {
                        layout.per_page
                    } else {
                        left
                    },
                    x: layout.next_hint.x + layout.h_sp,
                    travel: layout.next_hint.x + layout.next_hint.w - layout.prev_hint.x,
                },
            );
        }
        previews
    }
}

} // verus!
