//! Where the emoji picker's panel and its skin-tone popover are, in 64ths of a logical pixel.

use vstd::prelude::*;

use crate::area::{Area, UNITS};
use crate::emoji_picker::{COLS, ROWS, TABS, TONE_COLS};

verus! {

/// Padding inside the panel.
pub const PAD: i128 = 12 * UNITS;

/// Between the search entry, the grid and the rail, and between the panel and its anchor.
pub const GAP: i128 = 8 * UNITS;

/// Padding inside the tone popover.
pub const TONE_PAD: i128 = 6 * UNITS;

/// A cell's side.
pub const CELL_SIDE: i128 = 40 * UNITS;

/// The rail's height, and a tab's width.
pub const RAIL_SIDE: i128 = 36 * UNITS;

/// The panel's width: the grid's and the padding. The panel does not resize, so that the cell
/// under the pointer stays the same while a search narrows.
pub const PANEL_W: i128 = 384 * UNITS;

/// The furthest that anything is from the origin, and the longest that anything is.
pub const REACH: i128 = 0x1_0000_0000_0000_0000;

/// Where an open picker lives: the caret or the pointer it was opened at, the output's box, and
/// the search entry's height. Resolved once, at open, so that a client that keeps editing
/// underneath does not drag the picker around.
#[derive(Clone, Copy, Debug, PartialEq, Eq, Structural)]
pub struct Place {
    pub anchor: Area,
    pub out: Area,
    pub entry_h: i64,
}

/// The length is within reach.
pub open spec fn reached(n: i128) -> bool {
    -REACH <= n <= REACH
}

/// Every edge of the box is within reach.
pub open spec fn in_reach(area: Area) -> bool {
    reached(area.x) && reached(area.y) && reached(area.w) && reached(area.h)
}

fn is_reached(n: i128) -> (is: bool)
    ensures
        is == reached(n),
{
    -REACH <= n && n <= REACH
}

fn is_in_reach(area: &Area) -> (is: bool)
    ensures
        is == in_reach(*area),
{
    is_reached(area.x) && is_reached(area.y) && is_reached(area.w) && is_reached(area.h)
}

/// A length moved to where a span of it fits between two edges: the near edge wins.
pub open spec fn kept(v: int, lo: int, span: int, len: int) -> int {
    let most = if v <= lo + span - len {
        v
    } else {
        lo + span - len
    };
    if most >= lo {
        most
    } else {
        lo
    }
}

fn keep(v: i128, lo: i128, span: i128, len: i128) -> (at: i128)
    requires
        -8 * REACH <= v <= 8 * REACH,
        reached(lo),
        reached(span),
        reached(len),
    ensures
        at == kept(v as int, lo as int, span as int, len as int),
        -3 * REACH <= at <= 8 * REACH,
{
    let most: i128 = if v <= lo + span - len {
        v
    } else {
        lo + span - len
    };
    if most >= lo {
        most
    } else {
        lo
    }
}

/// The whole pixels of a length, rounded down.
pub fn whole_px(units: i128) -> (px: i128)
    requires
        -16 * REACH <= units <= 16 * REACH,
    ensures
        px == units as int / UNITS as int,
{
    if units >= 0 {
        units / UNITS
    } else {
        -((-units + 63) / UNITS)
    }
}

impl Place {
    pub open spec fn good(self) -> bool {
        in_reach(self.anchor) && in_reach(self.out) && 0 <= self.entry_h
    }

    /// Whether the place is within reach.
    pub fn is_good(&self) -> (good: bool)
        ensures
            good == self.good(),
    {
        is_in_reach(&self.anchor) && is_in_reach(&self.out) && self.entry_h >= 0
    }

    /// The panel's height.
    pub open spec fn panel_h(self) -> int {
        PAD + self.entry_h + GAP + ROWS * CELL_SIDE + GAP + RAIL_SIDE + PAD
    }

    /// The panel fits below the anchor.
    pub open spec fn fits_below(self) -> bool {
        self.anchor.y + self.anchor.h + GAP + self.panel_h() <= self.out.y + self.out.h
    }

    pub open spec fn panel_x(self) -> int {
        kept(self.anchor.x as int, self.out.x as int, self.out.w as int, PANEL_W as int)
    }

    /// The panel is below the anchor where it fits, and else above it, so that the text being
    /// edited stays visible.
    pub open spec fn panel_y(self) -> int {
        kept(
            if self.fits_below() {
                self.anchor.y + self.anchor.h + GAP
            } else {
                self.anchor.y - GAP - self.panel_h()
            },
            self.out.y as int,
            self.out.h as int,
            self.panel_h(),
        )
    }

    /// Where the grid starts.
    pub open spec fn grid_x(self) -> int {
        self.panel_x() + PAD
    }

    pub open spec fn grid_y(self) -> int {
        self.panel_y() + PAD + self.entry_h + GAP
    }

    /// Where the rail starts.
    pub open spec fn rail_y(self) -> int {
        self.panel_y() + self.panel_h() - PAD - RAIL_SIDE
    }

    /// Where visible cell `slot` starts.
    pub open spec fn cell_x(self, slot: int) -> int {
        self.grid_x() + (slot % (COLS as int)) * CELL_SIDE
    }

    pub open spec fn cell_y(self, slot: int) -> int {
        self.grid_y() + (slot / (COLS as int)) * CELL_SIDE
    }

    /// The panel's box.
    pub fn panel(&self) -> (panel: Area)
        requires
            self.good(),
        ensures
            panel.x == self.panel_x(),
            panel.y == self.panel_y(),
            panel.w == PANEL_W,
            panel.h == self.panel_h(),
            -3 * REACH <= panel.x <= 8 * REACH,
            -3 * REACH <= panel.y <= 8 * REACH,
            0 <= panel.h <= REACH,
    {
        let h: i128 = PAD + self.entry_h as i128 + GAP + 6 * CELL_SIDE + GAP + RAIL_SIDE + PAD;
        let below: i128 = self.anchor.y + self.anchor.h + GAP;
        let y: i128 = if below + h <= self.out.y + self.out.h {
            below
        } else {
            self.anchor.y - GAP - h
        };
        Area {
            x: keep(self.anchor.x, self.out.x, self.out.w, PANEL_W),
            y: keep(y, self.out.y, self.out.h, h),
            w: PANEL_W,
            h,
        }
    }

    /// The search entry's box.
    pub fn entry(&self) -> (entry: Area)
        requires
            self.good(),
        ensures
            entry.x == self.panel_x() + PAD,
            entry.y == self.panel_y() + PAD,
            entry.w == PANEL_W - 2 * PAD,
            entry.h == self.entry_h,
    {
        let panel = self.panel();
        Area { x: panel.x + PAD, y: panel.y + PAD, w: PANEL_W - 2 * PAD, h: self.entry_h as i128 }
    }

    /// The grid's box.
    pub fn grid(&self) -> (grid: Area)
        requires
            self.good(),
        ensures
            grid.x == self.grid_x(),
            grid.y == self.grid_y(),
            grid.w == COLS * CELL_SIDE,
            grid.h == ROWS * CELL_SIDE,
            -3 * REACH <= grid.x <= 9 * REACH,
            -3 * REACH <= grid.y <= 9 * REACH,
    {
        let panel = self.panel();
        Area {
            x: panel.x + PAD,
            y: panel.y + PAD + self.entry_h as i128 + GAP,
            w: 9 * CELL_SIDE,
            h: 6 * CELL_SIDE,
        }
    }

    /// The rail's box.
    pub fn rail(&self) -> (rail: Area)
        requires
            self.good(),
        ensures
            rail.x == self.grid_x(),
            rail.y == self.rail_y(),
            rail.w == COLS * CELL_SIDE,
            rail.h == RAIL_SIDE,
            -3 * REACH <= rail.x <= 9 * REACH,
            -4 * REACH <= rail.y <= 9 * REACH,
    {
        let panel = self.panel();
        Area {
            x: panel.x + PAD,
            y: panel.y + panel.h - PAD - RAIL_SIDE,
            w: 9 * CELL_SIDE,
            h: RAIL_SIDE,
        }
    }

    /// Visible cell `slot`'s box.
    pub fn cell(&self, slot: usize) -> (cell: Area)
        requires
            self.good(),
            slot < COLS * ROWS,
        ensures
            cell.x == self.cell_x(slot as int),
            cell.y == self.cell_y(slot as int),
            cell.w == CELL_SIDE,
            cell.h == CELL_SIDE,
            -3 * REACH <= cell.x <= 10 * REACH,
            -3 * REACH <= cell.y <= 10 * REACH,
    {
        let grid = self.grid();
        Area {
            x: grid.x + (slot % 9) as i128 * CELL_SIDE,
            y: grid.y + (slot / 9) as i128 * CELL_SIDE,
            w: CELL_SIDE,
            h: CELL_SIDE,
        }
    }

    /// Rail tab `tab`'s box.
    pub fn tab(&self, tab: usize) -> (area: Area)
        requires
            self.good(),
            tab < TABS,
        ensures
            area.x == self.grid_x() + tab * RAIL_SIDE,
            area.y == self.rail_y(),
            area.w == RAIL_SIDE,
            area.h == RAIL_SIDE,
    {
        let rail = self.rail();
        Area { x: rail.x + tab as i128 * RAIL_SIDE, y: rail.y, w: RAIL_SIDE, h: RAIL_SIDE }
    }

    /// The tone popover's size for `n` spellings.
    pub open spec fn tones_w(n: int) -> int {
        tone_cols(n) * CELL_SIDE + 2 * TONE_PAD
    }

    pub open spec fn tones_h(n: int) -> int {
        tone_rows(n) * CELL_SIDE + 2 * TONE_PAD
    }

    /// The tone popover is centred on its cell and kept in the panel: one that hangs off the
    /// card reads as a glitch.
    pub open spec fn tones_x(self, slot: int, n: int) -> int {
        let x = self.cell_x(slot) + CELL_SIDE / 2 - Self::tones_w(n) / 2;
        if x < self.panel_x() {
            self.panel_x()
        } else if x > self.panel_x() + PANEL_W - Self::tones_w(n) {
            self.panel_x() + PANEL_W - Self::tones_w(n)
        } else {
            x
        }
    }

    /// The tone popover is above its cell where the panel has room, and else below it, so that
    /// the row being varied stays visible.
    pub open spec fn tones_y(self, slot: int, n: int) -> int {
        let above = self.cell_y(slot) - GAP - Self::tones_h(n);
        if above < self.panel_y() {
            self.cell_y(slot) + CELL_SIDE + GAP
        } else {
            above
        }
    }

    /// The box of the tone popover of visible cell `slot`, for `n` spellings.
    pub fn tones(&self, slot: usize, n: usize) -> (area: Area)
        requires
            self.good(),
            slot < COLS * ROWS,
            n > 0,
        ensures
            area.x == self.tones_x(slot as int, n as int),
            area.y == self.tones_y(slot as int, n as int),
            area.w == Self::tones_w(n as int),
            area.h == Self::tones_h(n as int),
            -4 * REACH <= area.x <= 11 * REACH,
            -10_000 * REACH <= area.y <= 11 * REACH,
            0 <= area.h <= 10_000 * REACH,
    {
        let panel = self.panel();
        let cell = self.cell(slot);
        let cols: i128 = if n < TONE_COLS {
            n as i128
        } else {
            5
        };
        let rows: i128 = (n as i128 + 4) / 5;
        let w: i128 = cols * CELL_SIDE + 2 * TONE_PAD;
        let h: i128 = rows * CELL_SIDE + 2 * TONE_PAD;
        let over: i128 = cell.x + CELL_SIDE / 2 - w / 2;
        let x: i128 = if over < panel.x {
            panel.x
        } else if over > panel.x + PANEL_W - w {
            panel.x + PANEL_W - w
        } else {
            over
        };
        let above: i128 = cell.y - GAP - h;
        let y: i128 = if above < panel.y {
            cell.y + CELL_SIDE + GAP
        } else {
            above
        };
        Area { x, y, w, h }
    }

    /// The panel is on its output, where the output is as large as the panel.
    pub proof fn law_the_panel_is_on_the_output(self)
        requires
            PANEL_W <= self.out.w,
            self.panel_h() <= self.out.h,
        ensures
            self.out.x <= self.panel_x(),
            self.panel_x() + PANEL_W <= self.out.x + self.out.w,
            self.out.y <= self.panel_y(),
            self.panel_y() + self.panel_h() <= self.out.y + self.out.h,
    {
    }

    /// Where there is room below the anchor or above it, the panel does not cover the anchor.
    pub proof fn law_the_panel_leaves_the_anchor_visible(self)
        requires
            self.fits_below() || self.out.y <= self.anchor.y - GAP - self.panel_h(),
        ensures
            self.anchor.y + self.anchor.h + GAP <= self.panel_y() || self.panel_y()
                + self.panel_h() + GAP <= self.anchor.y,
    {
    }

    /// The grid and the rail are in the panel, the rail below the grid.
    pub proof fn law_the_parts_are_in_the_panel(self)
        requires
            0 <= self.entry_h,
        ensures
            self.panel_x() <= self.grid_x(),
            self.grid_x() + COLS * CELL_SIDE <= self.panel_x() + PANEL_W,
            self.panel_y() <= self.grid_y(),
            self.grid_y() + ROWS * CELL_SIDE + GAP == self.rail_y(),
            self.rail_y() + RAIL_SIDE <= self.panel_y() + self.panel_h(),
    {
    }

    /// The tone popover stays in the panel from side to side, and leaves its cell uncovered.
    pub proof fn law_the_tones_leave_their_cell_visible(self, slot: int, n: int)
        requires
            0 <= slot < COLS * ROWS,
            0 < n,
        ensures
            self.panel_x() <= self.tones_x(slot, n),
            self.tones_x(slot, n) + Self::tones_w(n) <= self.panel_x() + PANEL_W,
            self.tones_y(slot, n) + Self::tones_h(n) + GAP == self.cell_y(slot)
                || self.tones_y(slot, n) == self.cell_y(slot) + CELL_SIDE + GAP,
    {
    }
}

/// The tone popover's columns for `n` spellings.
pub open spec fn tone_cols(n: int) -> int {
    if n < TONE_COLS {
        n
    } else {
        TONE_COLS as int
    }
}

/// The tone popover's rows for `n` spellings.
pub open spec fn tone_rows(n: int) -> int {
    (n + TONE_COLS - 1) / (TONE_COLS as int)
}

} // verus!
