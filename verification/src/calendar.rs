//! The calendar of the date menu: a month of days, a card that leads back to today.
//!
//! Lengths are in 64ths of a logical pixel. Those that come from the font are the caller's
//! to give, in whole units; the rest follows from them, so drawing and hit-testing agree.

use vstd::prelude::*;
use vstd::string::*;

use crate::area::{Area, UNITS};
use crate::dates::{
    add_days, add_months, days_before_month, days_before_year, in_range, is_iso_week, iso_week,
    law_day_numbers_tell_dates_apart, month_len, month_number, weekday, weekday_of, Ymd,
};
use crate::text::{decimal, digits};

verus! {

/// A card's margin: column edge to card box.
pub const CARD_MARGIN: i128 = 4 * UNITS;

/// Between the two cards of the column, on top of the margin.
pub const COLUMN_SPACING: i128 = 6 * UNITS;

/// A card's border: never drawn, always reserved.
pub const CARD_BORDER: i128 = UNITS;

/// The week-number column's width.
pub const WEEKCOL_W: i128 = 39 * UNITS;

pub const GRID_ROWS: usize = 6;

pub const GRID_COLS: usize = 7;

/// The days in the grid.
pub const CELLS: usize = 42;

/// The remainder of a division that rounds toward zero.
pub open spec fn remainder(a: int, b: int) -> int {
    if a >= 0 {
        a % b
    } else {
        -((-a) % b)
    }
}

/// The column of a month's first day, counted from the week's first.
pub open spec fn column_of_first(year: int, month: int, week_start: int) -> int {
    let first = days_before_year(year + (month - 1) / 12) + days_before_month(
        year + (month - 1) / 12,
        (month - 1) % 12 + 1,
    ) + 1;
    remainder(7 + weekday_of(first) - week_start, 7)
}

/// The day number in a month grid's cell `i`.
pub open spec fn grid_day(year: int, month: int, week_start: int, i: int) -> int {
    days_before_year(year + (month - 1) / 12) + days_before_month(
        year + (month - 1) / 12,
        (month - 1) % 12 + 1,
    ) + 1 - column_of_first(year, month, week_start) + i
}

/// The month is far enough inside the years a date can hold for its grid to be.
pub open spec fn has_grid(year: i32, month: u32) -> bool {
    let first = Ymd { year, month, day: 1 }.number();
    month <= i32::MAX && in_range(first - 10) && in_range(first + 60)
}

/// The 42 dates of a month's grid, row by row from the week-start column of the row with
/// the 1st in it.
pub fn month_grid(year: i32, month: u32, week_start: u8) -> (cells: Vec<Ymd>)
    requires
        has_grid(year, month),
    ensures
        cells@.len() == CELLS,
        forall|i: int|
            0 <= i < CELLS ==> (#[trigger] cells@[i]).valid() && cells@[i].number() == grid_day(
                year as int,
                month as int,
                week_start as int,
                i,
            ),
{
    let first = Ymd { year, month, day: 1 };
    let ahead: i64 = 7 + weekday(first) as i64 - week_start as i64;
    let column: i64 = if ahead >= 0 {
        ahead % 7
    } else {
        -((-ahead) % 7)
    };
    assert(column == column_of_first(year as int, month as int, week_start as int));
    assert(-7 < column < 7);
    let mut cells: Vec<Ymd> = Vec::new();
    let mut i: usize = 0;
    while i < CELLS
        invariant
            i <= CELLS,
            has_grid(year, month),
            first == (Ymd { year, month, day: 1 }),
            column == column_of_first(year as int, month as int, week_start as int),
            -7 < column < 7,
            cells@.len() == i,
            forall|j: int|
                0 <= j < i ==> (#[trigger] cells@[j]).valid() && cells@[j].number() == grid_day(
                    year as int,
                    month as int,
                    week_start as int,
                    j,
                ),
        decreases CELLS - i,
    {
        cells.push(add_days(first, i as i64 - column));
        i = i + 1;
    }
    cells
}

/// The first day that a month's grid shows and the day after its last: the bounds, at local
/// midnight, of what there is to know about it.
pub fn grid_range_of(year: i32, month: u32, week_start: u8) -> (range: (Ymd, Ymd))
    requires
        has_grid(year, month),
    ensures
        range.0.valid(),
        range.1.valid(),
        range.0.number() == grid_day(year as int, month as int, week_start as int, 0),
        range.1.number() == range.0.number() + CELLS,
{
    let cells = month_grid(year, month, week_start);
    let first = cells[0];
    let last = cells[CELLS - 1];
    (first, add_days(last, 1))
}

/// The grid range of today's month.
pub fn today_grid_range(week_start: u8, today: Ymd) -> (range: (Ymd, Ymd))
    requires
        has_grid(today.year, today.month),
    ensures
        range.0.valid(),
        range.1.valid(),
        range.0.number() == grid_day(
            today.year as int,
            today.month as int,
            week_start as int,
            0,
        ),
        range.1.number() == range.0.number() + CELLS,
{
    grid_range_of(today.year, today.month, week_start)
}

/// A date and the day after it: the bounds of the day, at local midnight.
pub fn local_day_bounds(date: Ymd) -> (bounds: (Ymd, Ymd))
    requires
        date.month <= i32::MAX,
        date.day <= i32::MAX,
        in_range(date.number() + 1),
    ensures
        bounds.0 == date,
        bounds.1.valid(),
        bounds.1.number() == date.number() + 1,
{
    (date, add_days(date, 1))
}

/// The font's lengths: the month header, the weekday band, a day cell, the two lines of the
/// today card with its padding.
#[derive(Clone, Copy, Debug, PartialEq, Eq, Structural)]
pub struct CalMetrics {
    pub header_h: i64,
    pub weekday_h: i64,
    pub cell: i64,
    pub today_h: i64,
}

/// Where the calendar's regions are, relative to the column's top-left corner.
#[derive(Clone, Copy, Debug, PartialEq, Eq, Structural)]
pub struct Layout {
    pub week: bool,
    pub metrics: CalMetrics,
}

/// A region of the calendar.
#[derive(Clone, Copy, Debug, PartialEq, Eq, Structural)]
pub enum CalHover {
    Today,
    Prev,
    Next,
    Cell(usize),
}

impl Layout {
    /// The week-number column's width, if it shows.
    pub open spec fn week_w(self) -> int {
        if self.week {
            WEEKCOL_W as int
        } else {
            0
        }
    }

    /// The calendar card: below the today card, its margin and the column's spacing.
    pub open spec fn card(self) -> Area {
        Area {
            x: CARD_MARGIN,
            y: (2 * CARD_MARGIN + self.metrics.today_h + COLUMN_SPACING) as i128,
            w: (self.week_w() + GRID_COLS * self.metrics.cell + 2 * CARD_BORDER) as i128,
            h: (self.metrics.header_h + self.metrics.weekday_h + GRID_ROWS * self.metrics.cell + 2
                * CARD_BORDER) as i128,
        }
    }

    pub open spec fn whole(self) -> Area {
        Area {
            x: 0,
            y: 0,
            w: (self.card().w + 2 * CARD_MARGIN) as i128,
            h: (self.card().y + self.card().h + CARD_MARGIN) as i128,
        }
    }

    pub open spec fn today(self) -> Area {
        Area { x: CARD_MARGIN, y: CARD_MARGIN, w: self.card().w, h: self.metrics.today_h as i128 }
    }

    pub open spec fn prev(self) -> Area {
        Area {
            x: (self.card().x + CARD_BORDER) as i128,
            y: (self.card().y + CARD_BORDER) as i128,
            w: self.metrics.header_h as i128,
            h: self.metrics.header_h as i128,
        }
    }

    pub open spec fn next(self) -> Area {
        Area {
            x: (self.card().x + self.card().w - CARD_BORDER - self.metrics.header_h) as i128,
            y: (self.card().y + CARD_BORDER) as i128,
            w: self.metrics.header_h as i128,
            h: self.metrics.header_h as i128,
        }
    }

    /// The box of grid cell `i`.
    pub open spec fn day(self, i: int) -> Area {
        Area {
            x: (self.card().x + CARD_BORDER + self.week_w() + (i % 7) * self.metrics.cell) as i128,
            y: (self.card().y + CARD_BORDER + self.metrics.header_h + self.metrics.weekday_h + (i
                / 7) * self.metrics.cell) as i128,
            w: self.metrics.cell as i128,
            h: self.metrics.cell as i128,
        }
    }

    /// Which region a point is in: the first, in this order, of the today card, the arrows
    /// and the cells.
    pub open spec fn region(self, x: int, y: int, region: Option<CalHover>) -> bool {
        if self.today().has(x, y) {
            region == Some(CalHover::Today)
        } else if self.prev().has(x, y) {
            region == Some(CalHover::Prev)
        } else if self.next().has(x, y) {
            region == Some(CalHover::Next)
        } else {
            match region {
                Some(CalHover::Cell(i)) => {
                    &&& i < CELLS
                    &&& self.day(i as int).has(x, y)
                    &&& forall|j: int| 0 <= j < i ==> !(#[trigger] self.day(j)).has(x, y)
                },
                Some(_) => false,
                None => forall|j: int| 0 <= j < CELLS ==> !(#[trigger] self.day(j)).has(x, y),
            }
        }
    }

    pub fn new(show_week_numbers: bool, metrics: CalMetrics) -> (layout: Self)
        ensures
            layout == (Layout { week: show_week_numbers, metrics }),
    {
        Layout { week: show_week_numbers, metrics }
    }

    fn weekcol_w(&self) -> (w: i128)
        ensures
            w == self.week_w(),
    {
        if self.week {
            WEEKCOL_W
        } else {
            0
        }
    }

    /// The calendar card's box, with its border.
    pub fn calendar_card(&self) -> (card: Area)
        ensures
            card == self.card(),
    {
        let m = self.metrics;
        Area {
            x: CARD_MARGIN,
            y: 2 * CARD_MARGIN + m.today_h as i128 + COLUMN_SPACING,
            w: self.weekcol_w() + 7 * (m.cell as i128) + 2 * CARD_BORDER,
            h: m.header_h as i128 + m.weekday_h as i128 + 6 * (m.cell as i128) + 2 * CARD_BORDER,
        }
    }

    /// The whole column: both cards and their margins.
    pub fn bounds(&self) -> (whole: Area)
        ensures
            whole == self.whole(),
    {
        let card = self.calendar_card();
        Area { x: 0, y: 0, w: card.w + 2 * CARD_MARGIN, h: card.y + card.h + CARD_MARGIN }
    }

    /// The today card's box.
    pub fn today_button(&self) -> (area: Area)
        ensures
            area == self.today(),
    {
        Area {
            x: CARD_MARGIN,
            y: CARD_MARGIN,
            w: self.calendar_card().w,
            h: self.metrics.today_h as i128,
        }
    }

    /// The arrow to the month before.
    pub fn prev_arrow(&self) -> (area: Area)
        ensures
            area == self.prev(),
    {
        let card = self.calendar_card();
        let side = self.metrics.header_h as i128;
        Area { x: card.x + CARD_BORDER, y: card.y + CARD_BORDER, w: side, h: side }
    }

    /// The arrow to the month after.
    pub fn next_arrow(&self) -> (area: Area)
        ensures
            area == self.next(),
    {
        let card = self.calendar_card();
        let side = self.metrics.header_h as i128;
        Area {
            x: card.x + card.w - CARD_BORDER - side,
            y: card.y + CARD_BORDER,
            w: side,
            h: side,
        }
    }

    /// The box of a day's cell.
    pub fn cell(&self, row: usize, col: usize) -> (area: Area)
        requires
            row < GRID_ROWS,
            col < GRID_COLS,
        ensures
            area == self.day(row * GRID_COLS + col),
    {
        let card = self.calendar_card();
        let m = self.metrics;
        let side = m.cell as i128;
        assert((row * 7 + col) % 7 == col && (row * 7 + col) / 7 == row as int);
        assert(-0x8000_0000_0000_0000 * 7 <= (col as i128) * side <= 0x8000_0000_0000_0000 * 7)
            by (nonlinear_arith)
            requires
                -0x8000_0000_0000_0000 <= side <= 0x8000_0000_0000_0000,
                0 <= col <= 7,
        ;
        assert(-0x8000_0000_0000_0000 * 7 <= (row as i128) * side <= 0x8000_0000_0000_0000 * 7)
            by (nonlinear_arith)
            requires
                -0x8000_0000_0000_0000 <= side <= 0x8000_0000_0000_0000,
                0 <= row <= 7,
        ;
        Area {
            x: card.x + CARD_BORDER + self.weekcol_w() + (col as i128) * side,
            y: card.y + CARD_BORDER + m.header_h as i128 + m.weekday_h as i128 + (
            row as i128) * side,
            w: side,
            h: side,
        }
    }

    /// The region under a point of the column.
    pub fn region_at(&self, x: i64, y: i64) -> (region: Option<CalHover>)
        ensures
            self.region(x as int, y as int, region),
    {
        if self.today_button().contains(x as i128, y as i128) {
            return Some(CalHover::Today);
        }
        if self.prev_arrow().contains(x as i128, y as i128) {
            return Some(CalHover::Prev);
        }
        if self.next_arrow().contains(x as i128, y as i128) {
            return Some(CalHover::Next);
        }
        let mut i: usize = 0;
        while i < CELLS
            invariant
                i <= CELLS,
                !self.today().has(x as int, y as int),
                !self.prev().has(x as int, y as int),
                !self.next().has(x as int, y as int),
                forall|j: int|
                    0 <= j < i ==> !(#[trigger] self.day(j)).has(x as int, y as int),
            decreases CELLS - i,
        {
            let area = self.cell(i / GRID_COLS, i % GRID_COLS);
            assert((i / 7) * 7 + i % 7 == i);
            proof {
                self.lemma_day_is_small(i as int);
            }
            if area.contains(x as i128, y as i128) {
                return Some(CalHover::Cell(i));
            }
            i = i + 1;
        }
        None
    }

    pub(crate) proof fn lemma_day_is_small(self, i: int)
        requires
            0 <= i < CELLS,
        ensures
            -0x4000_0000_0000_0000_0000 <= self.day(i).x <= 0x4000_0000_0000_0000_0000,
            -0x4000_0000_0000_0000_0000 <= self.day(i).y <= 0x4000_0000_0000_0000_0000,
            self.day(i).x == self.card().x + CARD_BORDER + self.week_w() + (i % 7)
                * self.metrics.cell,
            self.day(i).y == self.card().y + CARD_BORDER + self.metrics.header_h
                + self.metrics.weekday_h + (i / 7) * self.metrics.cell,
    {
        let side = self.metrics.cell as int;
        let col = i % 7;
        let row = i / 7;
        assert(-0x8000_0000_0000_0000 * 7 <= col * side <= 0x8000_0000_0000_0000 * 7)
            by (nonlinear_arith)
            requires
                -0x8000_0000_0000_0000 <= side <= 0x8000_0000_0000_0000,
                0 <= col <= 7,
        ;
        assert(-0x8000_0000_0000_0000 * 7 <= row * side <= 0x8000_0000_0000_0000 * 7)
            by (nonlinear_arith)
            requires
                -0x8000_0000_0000_0000 <= side <= 0x8000_0000_0000_0000,
                0 <= row <= 7,
        ;
    }
}

/// How a day's number is colored.
#[derive(Clone, Copy, Debug, PartialEq, Eq, Structural)]
pub enum DayColor {
    /// A work day of the month, and today.
    Text,
    /// A weekend day of the month, so that the work days stand out.
    Weekend,
    /// A day of another month.
    Dim,
}

/// The circle behind a day's number.
#[derive(Clone, Copy, Debug, PartialEq, Eq, Structural)]
pub enum DayDisc {
    Accent,
    Selected,
    Plain,
}

/// One drawn day.
pub struct DayCell {
    pub label: String,
    pub bold: bool,
    pub color: DayColor,
    pub disc: DayDisc,
    /// Whether the hover's wash lies on the disc.
    pub wash: bool,
}

/// A month view: the displayed month, the selected day, and today.
pub struct Calendar {
    pub year: i32,
    pub month: u32,
    pub selected: Ymd,
    pub today: Ymd,
    /// 0 for Sunday to 6 for Saturday.
    pub week_start: u8,
    pub show_week_numbers: bool,
    /// The region under the pointer.
    pub hovered: Option<CalHover>,
    /// Bumped on any change of what is drawn.
    pub revision: u64,
}

/// A month from which the count of months can be stepped by one either way.
pub open spec fn can_step(year: i32, month: u32) -> bool {
    &&& 1 <= month <= 12
    &&& i32::MIN <= year * 12
    &&& i32::MIN <= month_number(year as int, month as int) - 1
    &&& month_number(year as int, month as int) + 1 <= i32::MAX
}

impl Calendar {
    /// The displayed month is a month, and the week starts on a day of it.
    pub open spec fn wf(&self) -> bool {
        &&& can_step(self.year, self.month)
        &&& can_step(self.today.year, self.today.month)
        &&& self.week_start <= 6
    }

    /// The day in grid cell `i`.
    pub open spec fn day_at(&self, i: int) -> int {
        grid_day(self.year as int, self.month as int, self.week_start as int, i)
    }

    /// The calendar with `date` selected, in the month that it is in.
    pub open spec fn with_selected(&self, date: Ymd) -> Calendar {
        Calendar {
            year: date.year,
            month: date.month,
            selected: date,
            revision: self.revision.wrapping_add(1),
            ..*self
        }
    }

    /// The calendar with the displayed month shifted by `delta`, and the selection where it
    /// is.
    pub open spec fn shifted(&self, delta: int, after: Calendar) -> bool {
        &&& 1 <= after.month <= 12
        &&& month_number(after.year as int, after.month as int) == month_number(
            self.year as int,
            self.month as int,
        ) + delta
        &&& after == (Calendar {
            year: after.year,
            month: after.month,
            revision: self.revision.wrapping_add(1),
            ..*self
        })
    }

    /// What a click at a point of the column leaves. The today card goes to today's month with
    /// today selected; an arrow steps the month; a cell selects its day; the rest does nothing.
    pub open spec fn clicked(
        &self,
        metrics: CalMetrics,
        x: int,
        y: int,
        hit: bool,
        now: Calendar,
    ) -> bool {
        let was = *self;
        let layout = Layout { week: was.show_week_numbers, metrics };
        let at_today = was.selected == was.today && was.year == was.today.year && was.month
            == was.today.month;
        &&& layout.region(x, y, Some(CalHover::Today)) ==> hit && now == if at_today {
            was
        } else {
            was.with_selected(was.today)
        }
        &&& layout.region(x, y, Some(CalHover::Prev)) ==> hit && was.shifted(-1, now)
        &&& layout.region(x, y, Some(CalHover::Next)) ==> hit && was.shifted(1, now)
        &&& forall|i: usize| #[trigger]
            layout.region(x, y, Some(CalHover::Cell(i))) ==> {
                &&& hit
                &&& now.selected.valid()
                &&& now.selected.number() == was.day_at(i as int)
                &&& now == was.with_selected(now.selected)
            }
        &&& layout.region(x, y, None) ==> hit == layout.whole().has(x, y) && now == was
    }

    /// What the pointer's move leaves.
    pub open spec fn pointed(
        &self,
        metrics: CalMetrics,
        pos: Option<(i64, i64)>,
        changed: bool,
        now: Calendar,
    ) -> bool {
        &&& match pos {
            Some(at) => (Layout { week: self.show_week_numbers, metrics }).region(
                at.0 as int,
                at.1 as int,
                now.hovered,
            ),
            None => now.hovered is None,
        }
        &&& changed == (now.hovered != self.hovered)
        &&& now == (Calendar {
            hovered: now.hovered,
            revision: if changed {
                self.revision.wrapping_add(1)
            } else {
                self.revision
            },
            ..*self
        })
    }

    /// Open on today's month with today selected.
    pub fn new(week_start: u8, show_week_numbers: bool, today: Ymd) -> (calendar: Self)
        requires
            can_step(today.year, today.month),
        ensures
            calendar.wf(),
            calendar == (Calendar {
                year: today.year,
                month: today.month,
                selected: today,
                today,
                week_start: if week_start <= 6 {
                    week_start
                } else {
                    6
                },
                show_week_numbers,
                hovered: None,
                revision: 0,
            }),
    {
        Calendar {
            year: today.year,
            month: today.month,
            selected: today,
            today,
            week_start: if week_start <= 6 {
                week_start
            } else {
                6
            },
            show_week_numbers,
            hovered: None,
            revision: 0,
        }
    }

    pub fn revision(&self) -> (revision: u64)
        ensures
            revision == self.revision,
    {
        self.revision
    }

    pub fn selected(&self) -> (date: Ymd)
        ensures
            date == self.selected,
    {
        self.selected
    }

    /// The column's layout.
    pub fn layout(&self, metrics: CalMetrics) -> (layout: Layout)
        ensures
            layout == (Layout { week: self.show_week_numbers, metrics }),
    {
        Layout::new(self.show_week_numbers, metrics)
    }

    /// The column's size, which depends only on whether the week numbers show.
    pub fn logical_size(&self, metrics: CalMetrics) -> (size: (i128, i128))
        ensures
            size.0 == (Layout { week: self.show_week_numbers, metrics }).whole().w,
            size.1 == (Layout { week: self.show_week_numbers, metrics }).whole().h,
    {
        let whole = self.layout(metrics).bounds();
        (whole.w, whole.h)
    }

    /// Step the displayed month, keeping the selection where it is.
    fn shift_month(&mut self, delta: i32)
        requires
            can_step(old(self).year, old(self).month),
            -1 <= delta <= 1,
        ensures
            old(self).shifted(delta as int, *final(self)),
    {
        let (y, m) = add_months(self.year, self.month, delta);
        self.year = y;
        self.month = m;
        self.revision = self.revision.wrapping_add(1);
    }

    /// A wheel over the grid: up pages to the month before, down to the month after. Takes
    /// the sign of the movement; none is no scroll.
    pub fn scroll(&mut self, delta_sign: i32) -> (scrolled: bool)
        requires
            can_step(old(self).year, old(self).month),
        ensures
            scrolled == (delta_sign != 0),
            !scrolled ==> *final(self) == *old(self),
            scrolled ==> old(self).shifted(
                if delta_sign < 0 {
                    -1
                } else {
                    1
                },
                *final(self),
            ),
    {
        if delta_sign == 0 {
            return false;
        }
        self.shift_month(
            if delta_sign < 0 {
                -1
            } else {
                1
            },
        );
        true
    }

    /// Select a date, following one of another month into that month.
    fn select(&mut self, date: Ymd)
        ensures
            *final(self) == old(self).with_selected(date),
    {
        self.selected = date;
        if date.year != self.year || date.month != self.month {
            self.year = date.year;
            self.month = date.month;
        }
        self.revision = self.revision.wrapping_add(1);
    }

    /// The dates of the grid.
    pub fn grid(&self) -> (cells: Vec<Ymd>)
        requires
            self.wf(),
        ensures
            cells@.len() == CELLS,
            forall|i: int|
                0 <= i < CELLS ==> (#[trigger] cells@[i]).valid() && cells@[i].number()
                    == self.day_at(i),
    {
        proof {
            lemma_has_grid(self.year, self.month);
        }
        month_grid(self.year, self.month, self.week_start)
    }

    /// Handle a click at a point of the column. Returns whether it hit something.
    ///
    /// The today card snaps the selection back to today, and the view too: paging keeps the
    /// selection put, so either can be off. An arrow steps the month, a cell selects its
    /// day, and the box's background is handled without doing anything.
    pub fn pointer_click(&mut self, metrics: CalMetrics, x: i64, y: i64) -> (hit: bool)
        requires
            old(self).wf(),
        ensures
            old(self).clicked(metrics, x as int, y as int, hit, *final(self)),
    {
        let layout = self.layout(metrics);
        match layout.region_at(x, y) {
            Some(CalHover::Today) => {
                let showing_today = self.year == self.today.year && self.month == self.today.month;
                if self.selected != self.today || !showing_today {
                    self.select(self.today);
                }
                true
            },
            Some(CalHover::Prev) => {
                self.shift_month(-1);
                true
            },
            Some(CalHover::Next) => {
                self.shift_month(1);
                true
            },
            Some(CalHover::Cell(i)) => {
                let cells = self.grid();
                self.select(cells[i]);
                proof {
                    assert forall|j: usize| #[trigger]
                        layout.region(x as int, y as int, Some(CalHover::Cell(j))) implies j
                        == i by {
                        if j < i {
                            assert(!layout.day(j as int).has(x as int, y as int));
                        } else if i < j {
                            assert(!layout.day(i as int).has(x as int, y as int));
                        }
                    }
                }
                true
            },
            None => {
                let whole = layout.bounds();
                whole.contains(x as i128, y as i128)
            },
        }
    }

    /// Update the hovered region from the pointer, `None` once it has left. Returns whether
    /// it changed.
    pub fn hover(&mut self, metrics: CalMetrics, pos: Option<(i64, i64)>) -> (changed: bool)
        ensures
            old(self).pointed(metrics, pos, changed, *final(self)),
    {
        let new = match pos {
            Some((x, y)) => self.layout(metrics).region_at(x, y),
            None => None,
        };
        let same = match (new, self.hovered) {
            (Some(a), Some(b)) => a == b,
            (None, None) => true,
            _ => false,
        };
        if same {
            return false;
        }
        self.hovered = new;
        self.revision = self.revision.wrapping_add(1);
        true
    }

    /// The first day of the grid and the day after its last.
    pub fn grid_range(&self) -> (range: (Ymd, Ymd))
        requires
            self.wf(),
        ensures
            range.0.valid(),
            range.1.valid(),
            range.0.number() == self.day_at(0),
            range.1.number() == self.day_at(0) + CELLS,
    {
        proof {
            lemma_has_grid(self.year, self.month);
        }
        grid_range_of(self.year, self.month, self.week_start)
    }

    /// The selected day and the day after it.
    pub fn selected_day_bounds(&self) -> (bounds: (Ymd, Ymd))
        requires
            self.selected.month <= i32::MAX,
            self.selected.day <= i32::MAX,
            in_range(self.selected.number() + 1),
        ensures
            bounds.0 == self.selected,
            bounds.1.valid(),
            bounds.1.number() == self.selected.number() + 1,
    {
        local_day_bounds(self.selected)
    }

    /// The weekday at the head of a column, 0 for Sunday.
    pub fn column_weekday(&self, column: usize) -> (w: usize)
        requires
            self.week_start <= 6,
            column < GRID_COLS,
        ensures
            w == (self.week_start + column) % 7,
    {
        (self.week_start as usize + column) % 7
    }

    /// The week numbers beside the rows, if they show: those of each row's first day.
    pub fn week_numbers(&self) -> (weeks: Vec<u32>)
        requires
            self.wf(),
        ensures
            weeks@.len() == if self.show_week_numbers {
                GRID_ROWS as int
            } else {
                0
            },
            forall|r: int|
                0 <= r < weeks@.len() ==> is_iso_week(
                    self.day_at(r * GRID_COLS),
                    (#[trigger] weeks@[r]) as int,
                ),
    {
        let mut weeks: Vec<u32> = Vec::new();
        if !self.show_week_numbers {
            return weeks;
        }
        let cells = self.grid();
        let mut r: usize = 0;
        while r < GRID_ROWS
            invariant
                r <= GRID_ROWS,
                self.wf(),
                cells@.len() == CELLS,
                forall|i: int|
                    0 <= i < CELLS ==> (#[trigger] cells@[i]).valid() && cells@[i].number()
                        == self.day_at(i),
                weeks@.len() == r,
                forall|j: int|
                    0 <= j < r ==> is_iso_week(
                        self.day_at(j * GRID_COLS),
                        (#[trigger] weeks@[j]) as int,
                    ),
            decreases GRID_ROWS - r,
        {
            let first = cells[r * GRID_COLS];
            proof {
                lemma_has_grid(self.year, self.month);
            }
            weeks.push(iso_week(first));
            r = r + 1;
        }
        weeks
    }

    /// How the day in a cell looks.
    pub open spec fn is_day_cell(&self, i: usize, date: Ymd, cell: DayCell) -> bool {
        &&& cell.label@ == digits(date.day as nat)
        &&& cell.bold == (date.month == self.month)
        &&& cell.wash == (self.hovered == Some(CalHover::Cell(i)))
        &&& cell.disc == if date == self.today {
            DayDisc::Accent
        } else if date == self.selected {
            DayDisc::Selected
        } else {
            DayDisc::Plain
        }
        &&& cell.color == if date == self.today {
            DayColor::Text
        } else if date.month != self.month {
            DayColor::Dim
        } else if weekday_of(date.number()) == 0 || weekday_of(date.number()) == 6 {
            DayColor::Weekend
        } else {
            DayColor::Text
        }
    }

    /// How the day in a cell looks. Today lies on the accent color; the selected day on a
    /// subtle fill; the hovered cell has a wash on top.
    pub fn day_cell(&self, i: usize, date: Ymd) -> (cell: DayCell)
        requires
            date.valid(),
        ensures
            self.is_day_cell(i, date, cell),
    {
        let is_today = date == self.today;
        let is_selected = date == self.selected;
        let in_month = date.month == self.month;
        let w: u32 = weekday(date);
        let wash = match self.hovered {
            Some(hovered) => hovered == CalHover::Cell(i),
            None => false,
        };
        DayCell {
            label: decimal(date.day as u64),
            bold: in_month,
            color: if is_today {
                DayColor::Text
            } else if !in_month {
                DayColor::Dim
            } else if w == 0 || w == 6 {
                DayColor::Weekend
            } else {
                DayColor::Text
            },
            disc: if is_today {
                DayDisc::Accent
            } else if is_selected {
                DayDisc::Selected
            } else {
                DayDisc::Plain
            },
            wash,
        }
    }

    /// The header: the month's name alone in the current year, with the year otherwise.
    pub open spec fn title_text(&self, month_name: Seq<char>) -> Seq<char> {
        if self.year == self.today.year {
            month_name
        } else {
            month_name + " "@ + year_text(self.year as int)
        }
    }

    /// The header: the month's name alone in the current year, with the year otherwise.
    pub fn title(&self, month_name: &str) -> (title: String)
        ensures
            title@ == self.title_text(month_name@),
    {
        let mut title = month_name.to_owned();
        if self.year != self.today.year {
            title.append(" ");
            let year = signed_decimal(self.year);
            title.append(year.as_str());
        }
        title
    }
}

/// A year in decimal, with a minus sign before the year 0.
pub open spec fn year_text(year: int) -> Seq<char> {
    if year < 0 {
        "-"@ + digits((-year) as nat)
    } else {
        digits(year as nat)
    }
}

/// A year in decimal.
pub fn signed_decimal(year: i32) -> (text: String)
    ensures
        text@ == year_text(year as int),
{
    if year < 0 {
        let mut text = "-".to_owned();
        let number = decimal((-(year as i64)) as u64);
        text.append(number.as_str());
        text
    } else {
        decimal(year as u64)
    }
}

/// The first letter of a name, if it has one.
pub open spec fn initial(name: Seq<char>) -> Seq<char> {
    if name.len() > 0 {
        name.take(1)
    } else {
        name
    }
}

/// The single letter that heads a weekday's column: the first of its abbreviated name.
pub fn weekday_abbrev(name: &str) -> (letter: String)
    ensures
        letter@ == initial(name@),
{
    if name.unicode_len() > 0 {
        let first = name.substring_char(0, 1);
        assert(first@ =~= name@.take(1));
        first.to_owned()
    } else {
        name.to_owned()
    }
}

proof fn lemma_has_grid(year: i32, month: u32)
    requires
        can_step(year, month),
    ensures
        has_grid(year, month),
        in_range((Ymd { year, month, day: 1 }).number() - 100),
        in_range((Ymd { year, month, day: 1 }).number() + 100),
{
    lemma_before_month_bounds(year as int, month as int);
}

proof fn lemma_before_month_bounds(year: int, month: int)
    requires
        1 <= month <= 13,
    ensures
        0 <= days_before_month(year, month) <= 31 * (month - 1),
    decreases month,
{
    if month > 1 {
        lemma_before_month_bounds(year, month - 1);
    }
}

/// Every column of a month's grid is one weekday, the first of them the week's first day.
pub proof fn law_columns_are_weekdays(year: int, month: int, week_start: int, i: int)
    requires
        0 <= week_start <= 6,
    ensures
        weekday_of(grid_day(year, month, week_start, i)) == (week_start + i) % 7,
{
}

/// A month's grid holds every day of the month, in order, with the 1st in its first row.
pub proof fn law_the_grid_holds_the_month(year: i32, month: u32, week_start: int, day: u32)
    requires
        1 <= month <= 12,
        0 <= week_start <= 6,
        1 <= day <= month_len(year as int, month as int),
    ensures
        ({
            let column = column_of_first(year as int, month as int, week_start);
            &&& 0 <= column < GRID_COLS
            &&& 0 <= column + day - 1 < CELLS
            &&& grid_day(year as int, month as int, week_start, column + day - 1) == (Ymd {
                year,
                month,
                day,
            }).number()
        }),
{
}

/// A date that the grid shows for a day of the month is that day's date.
pub proof fn law_grid_dates_are_the_months_dates(
    year: i32,
    month: u32,
    week_start: int,
    day: u32,
    shown: Ymd,
)
    requires
        1 <= month <= 12,
        0 <= week_start <= 6,
        1 <= day <= month_len(year as int, month as int),
        shown.valid(),
        shown.number() == grid_day(
            year as int,
            month as int,
            week_start,
            column_of_first(year as int, month as int, week_start) + day - 1,
        ),
    ensures
        shown == (Ymd { year, month, day }),
{
    law_the_grid_holds_the_month(year, month, week_start, day);
    law_day_numbers_tell_dates_apart(shown, Ymd { year, month, day });
}

/// The centre of every day's cell hits that cell.
pub proof fn law_cell_centres_hit_their_cells(layout: Layout, i: usize)
    requires
        i < CELLS,
        layout.metrics.cell > 0,
        layout.metrics.header_h >= 0,
        layout.metrics.weekday_h >= 0,
        layout.metrics.today_h >= 0,
    ensures
        ({
            let cell = layout.day(i as int);
            layout.region(cell.x + cell.w / 2, cell.y + cell.h / 2, Some(CalHover::Cell(i)))
        }),
{
    let side = layout.metrics.cell as int;
    let cell = layout.day(i as int);
    let x = cell.x + cell.w / 2;
    let y = cell.y + cell.h / 2;
    layout.lemma_day_is_small(i as int);
    assert(0 <= (i as int / 7) * side) by (nonlinear_arith)
        requires
            side > 0,
    ;
    assert forall|j: int| 0 <= j < i implies !(#[trigger] layout.day(j)).has(x, y) by {
        let (ri, ci) = (i as int / 7, i as int % 7);
        let (rj, cj) = (j / 7, j % 7);
        layout.lemma_day_is_small(j);
        if rj < ri {
            assert(rj * side + side <= ri * side) by (nonlinear_arith)
                requires
                    rj + 1 <= ri,
                    side > 0,
            ;
        } else {
            assert(rj == ri && cj < ci);
            assert(cj * side + side <= ci * side) by (nonlinear_arith)
                requires
                    cj + 1 <= ci,
                    side > 0,
            ;
        }
    }
}

/// Every region lies inside the column.
pub proof fn law_regions_lie_inside(layout: Layout, x: int, y: int, region: CalHover)
    requires
        layout.metrics.cell >= 0,
        0 <= layout.metrics.header_h <= 7 * layout.metrics.cell,
        layout.metrics.weekday_h >= 0,
        layout.metrics.today_h >= 0,
        layout.region(x, y, Some(region)),
    ensures
        layout.whole().has(x, y),
{
    if let CalHover::Cell(i) = region {
        let side = layout.metrics.cell as int;
        let (r, c) = (i as int / 7, i as int % 7);
        layout.lemma_day_is_small(i as int);
        assert(0 <= r * side && r * side + side <= 6 * side) by (nonlinear_arith)
            requires
                0 <= r <= 5,
                side >= 0,
        ;
        assert(0 <= c * side && c * side + side <= 7 * side) by (nonlinear_arith)
            requires
                0 <= c <= 6,
                side >= 0,
        ;
    }
}

/// A click on a day selects the day that its cell shows, and goes to that day's month.
pub proof fn law_a_clicked_day_is_selected_and_shown(
    calendar: &mut Calendar,
    metrics: CalMetrics,
    x: i64,
    y: i64,
    hit: bool,
    cells: Vec<Ymd>,
    i: usize,
)
    requires
        old(calendar).wf(),
        call_ensures(Calendar::pointer_click, (calendar, metrics, x, y), hit),
        call_ensures(Calendar::grid, (&*old(calendar),), cells),
        call_ensures(
            Layout::region_at,
            (&(Layout { week: old(calendar).show_week_numbers, metrics }), x, y),
            Some(CalHover::Cell(i)),
        ),
    ensures
        hit,
        i < cells@.len(),
        final(calendar).selected == cells@[i as int],
        final(calendar).year == cells@[i as int].year,
        final(calendar).month == cells@[i as int].month,
        final(calendar).today == old(calendar).today,
        final(calendar).week_start == old(calendar).week_start,
        final(calendar).show_week_numbers == old(calendar).show_week_numbers,
        final(calendar).hovered == old(calendar).hovered,
{
    law_day_numbers_tell_dates_apart(final(calendar).selected, cells@[i as int]);
}

/// An arrow steps the month by one, over the turn of the year too, and leaves the selection.
pub proof fn law_the_arrows_step_the_month(
    calendar: &mut Calendar,
    metrics: CalMetrics,
    x: i64,
    y: i64,
    hit: bool,
    forward: bool,
)
    requires
        old(calendar).wf(),
        call_ensures(Calendar::pointer_click, (calendar, metrics, x, y), hit),
        call_ensures(
            Layout::region_at,
            (&(Layout { week: old(calendar).show_week_numbers, metrics }), x, y),
            if forward {
                Some(CalHover::Next)
            } else {
                Some(CalHover::Prev)
            },
        ),
    ensures
        hit,
        final(calendar).selected == old(calendar).selected,
        final(calendar).today == old(calendar).today,
        forward ==> if old(calendar).month == 12 {
            final(calendar).month == 1 && final(calendar).year == old(calendar).year + 1
        } else {
            final(calendar).month == old(calendar).month + 1
                && final(calendar).year == old(calendar).year
        },
        !forward ==> if old(calendar).month == 1 {
            final(calendar).month == 12 && final(calendar).year == old(calendar).year - 1
        } else {
            final(calendar).month == old(calendar).month - 1
                && final(calendar).year == old(calendar).year
        },
{
}

/// The wheel pages like the arrows: up to the month before, down to the month after.
pub proof fn law_the_wheel_steps_the_month(calendar: &mut Calendar, sign: i32, scrolled: bool)
    requires
        old(calendar).wf(),
        call_ensures(Calendar::scroll, (calendar, sign), scrolled),
    ensures
        scrolled == (sign != 0),
        final(calendar).selected == old(calendar).selected,
        sign > 0 ==> if old(calendar).month == 12 {
            final(calendar).month == 1 && final(calendar).year == old(calendar).year + 1
        } else {
            final(calendar).month == old(calendar).month + 1
                && final(calendar).year == old(calendar).year
        },
        sign < 0 ==> if old(calendar).month == 1 {
            final(calendar).month == 12 && final(calendar).year == old(calendar).year - 1
        } else {
            final(calendar).month == old(calendar).month - 1
                && final(calendar).year == old(calendar).year
        },
        sign == 0 ==> *final(calendar) == *old(calendar),
{
}

/// The today card selects today and shows its month, wherever the calendar was. Once there, it
/// does nothing.
pub proof fn law_the_today_card_goes_to_today(
    calendar: &mut Calendar,
    metrics: CalMetrics,
    x: i64,
    y: i64,
    hit: bool,
)
    requires
        call_ensures(Calendar::pointer_click, (calendar, metrics, x, y), hit),
        call_ensures(
            Layout::region_at,
            (&(Layout { week: old(calendar).show_week_numbers, metrics }), x, y),
            Some(CalHover::Today),
        ),
    ensures
        hit,
        final(calendar).selected == old(calendar).today,
        final(calendar).year == old(calendar).today.year,
        final(calendar).month == old(calendar).today.month,
        final(calendar).today == old(calendar).today,
        old(calendar).selected == old(calendar).today
            && old(calendar).year == old(calendar).today.year
            && old(calendar).month == old(calendar).today.month
            ==> *final(calendar) == *old(calendar),
{
}

/// A fresh calendar shows today's month with today selected.
pub proof fn law_a_calendar_opens_on_today(
    week_start: u8,
    weeks: bool,
    today: Ymd,
    calendar: Calendar,
)
    requires
        call_ensures(Calendar::new, (week_start, weeks, today), calendar),
    ensures
        calendar.selected == today,
        calendar.today == today,
        calendar.year == today.year,
        calendar.month == today.month,
        week_start <= 6 ==> calendar.week_start == week_start,
        calendar.show_week_numbers == weeks,
{
}

/// The grid shows 42 days in a row, in columns of one weekday each. It starts on the week's
/// first day, no later than the month's first and less than a week before it, so that the whole
/// month is in it.
pub proof fn law_the_grid_is_whole_weeks_around_the_month(
    calendar: Calendar,
    cells: Vec<Ymd>,
    day: u32,
)
    requires
        calendar.wf(),
        call_ensures(Calendar::grid, (&calendar,), cells),
    ensures
        cells@.len() == 42,
        forall|i: int| 0 <= i < 42 ==> (#[trigger] cells@[i]).valid(),
        forall|i: int, j: int|
            0 <= i < 42 && 0 <= j < 42 ==> (#[trigger] cells@[j]).number() - (
            #[trigger] cells@[i]).number() == j - i,
        forall|i: int|
            0 <= i < 42 ==> weekday_of((#[trigger] cells@[i]).number()) == (calendar.week_start + i)
                % 7,
        ({
            let first = (Ymd { year: calendar.year, month: calendar.month, day: 1 }).number();
            cells@[0].number() <= first < cells@[0].number() + 7
        }),
        1 <= day <= month_len(calendar.year as int, calendar.month as int) ==> cells@.contains(
            Ymd { year: calendar.year, month: calendar.month, day },
        ),
{
    if 1 <= day <= month_len(calendar.year as int, calendar.month as int) {
        let (year, month) = (calendar.year, calendar.month);
        let week_start = calendar.week_start as int;
        let i = column_of_first(year as int, month as int, week_start) + day - 1;
        law_the_grid_holds_the_month(year, month, week_start, day);
        law_grid_dates_are_the_months_dates(year, month, week_start, day, cells@[i]);
        assert(cells@[i] == (Ymd { year, month, day }));
    }
    law_the_grid_holds_the_month(calendar.year, calendar.month, calendar.week_start as int, 1);
}

/// Today stands on the accent color and the selected day on its fill, whatever month shows;
/// the days of the month that shows stand out in bold, and its weekends in their own color.
pub proof fn law_a_day_looks_like_what_it_is(
    calendar: Calendar,
    i: usize,
    date: Ymd,
    w: u32,
    cell: DayCell,
)
    requires
        date.valid(),
        call_ensures(weekday, (date,), w),
        call_ensures(Calendar::day_cell, (&calendar, i, date), cell),
    ensures
        cell.label@ == digits(date.day as nat),
        cell.disc == DayDisc::Accent <==> date == calendar.today,
        cell.disc == DayDisc::Selected <==> date == calendar.selected && date != calendar.today,
        cell.bold <==> date.month == calendar.month,
        cell.wash <==> calendar.hovered == Some(CalHover::Cell(i)),
        cell.color == DayColor::Weekend <==> date != calendar.today && date.month == calendar.month
            && (w == 0 || w == 6),
        cell.color == DayColor::Dim <==> date != calendar.today && date.month != calendar.month,
{
}

/// A column is headed by the weekday of the days in it.
#[verifier::spinoff_prover]
pub proof fn law_a_column_is_headed_by_its_weekday(
    calendar: Calendar,
    cells: Vec<Ymd>,
    row: usize,
    column: usize,
    head: usize,
    w: u32,
)
    requires
        calendar.wf(),
        row < 6,
        column < 7,
        call_ensures(Calendar::grid, (&calendar,), cells),
        call_ensures(Calendar::column_weekday, (&calendar, column), head),
        call_ensures(weekday, (cells@[row * 7 + column],), w),
    ensures
        w == head,
{
    law_the_grid_is_whole_weeks_around_the_month(calendar, cells, 1);
    let i = row * 7 + column;
    let n = cells@[i].number();
    assert(weekday_of(n) == (calendar.week_start + i) % 7);
    lemma_whole_weeks_on(calendar.week_start + column, row as int);
}

proof fn lemma_whole_weeks_on(day: int, weeks: int)
    by (nonlinear_arith)
    ensures
        (day + weeks * 7) % 7 == day % 7,
{
}

/// The header is the month's name, with the year behind it in any year but this one.
pub proof fn law_the_header_names_the_month(calendar: Calendar, month_name: &str, title: String)
    requires
        call_ensures(Calendar::title, (&calendar, month_name), title),
    ensures
        calendar.year == calendar.today.year ==> title@ == month_name@,
        calendar.year != calendar.today.year && calendar.year >= 0 ==> title@ == month_name@ + " "@
            + digits(calendar.year as nat),
{
}

} // verus!
