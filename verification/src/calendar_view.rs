//! What the calendar draws, and where: the today card's two lines, the month's header, the
//! weekdays, the week numbers and the days.
//!
//! Text is placed by its middle, which is a whole number of half units.

use vstd::prelude::*;
use vstd::string::*;

use crate::area::{Area, UNITS};
use crate::calendar::{
    initial, signed_decimal, weekday_abbrev, year_text, CalHover, CalMetrics, Calendar, DayCell, Layout, CARD_BORDER, CELLS,
    GRID_COLS, GRID_ROWS, WEEKCOL_W,
};
use crate::dates::{is_iso_week, Ymd};
use crate::text::{decimal, digits};

verus! {

/// The circle behind a day and behind a hovered arrow.
pub const DISC_DIAM: i128 = 39 * UNITS;

/// The today card's padding.
pub const TODAY_PAD: i128 = 9 * UNITS;

/// The room around a week number in its pill.
pub const WEEK_BOX_PAD_X: i128 = 6 * UNITS;

pub const WEEK_BOX_PAD_Y: i128 = 3 * UNITS;

/// A point, in half units.
#[derive(Clone, Copy, Debug, PartialEq, Eq, Structural)]
pub struct Spot {
    pub x: i128,
    pub y: i128,
}

impl Spot {
    /// The point is the middle of a box.
    pub open spec fn is_middle(self, area: Area) -> bool {
        self.x == 2 * area.x + area.w && self.y == 2 * area.y + area.h
    }

    /// The box, in half units, is `w` by `h` units around the point.
    pub open spec fn surrounded(self, w: int, h: int, area: Area) -> bool {
        &&& area.x == self.x - w
        &&& area.y == self.y - h
        &&& area.w == 2 * w
        &&& area.h == 2 * h
    }
}

/// The locale's words: the names of the displayed month and of today's, today's weekday, and the
/// weekdays' short names from Sunday on.
pub struct CalWords {
    pub month: String,
    pub today_month: String,
    pub today_weekday: String,
    pub weekdays: Vec<String>,
}

/// A text and where its middle is, or the left end of its middle for one that is not centred.
pub struct Label {
    pub text: String,
    pub at: Spot,
}

/// What the font makes of the text: the heights of the today card's two lines, and how large
/// each week number's ink is.
pub struct CalText {
    pub day_row: i64,
    pub date_row: i64,
    pub weeks: Vec<(i64, i64)>,
}

/// An arrow of the header, with the circle behind it while it is hovered.
#[derive(Clone, Copy, Debug, PartialEq, Eq, Structural)]
pub struct ArrowPlan {
    pub at: Spot,
    pub wash: Option<Area>,
}

/// A week number and the pill behind it.
#[derive(Clone, Copy, Debug, PartialEq, Eq, Structural)]
pub struct WeekPlan {
    pub week: u32,
    pub at: Spot,
    pub pill: Area,
}

/// A day and the circle that may be behind it.
pub struct DayPlan {
    pub date: Ymd,
    pub at: Spot,
    pub disc: Area,
    pub cell: DayCell,
}

/// What the calendar draws. Circles and pills are in half units, each behind its text.
pub struct CalendarPlan {
    /// The today card's hover fill, in units.
    pub today_wash: Option<Area>,
    /// The left ends of the card's two lines, half-way up.
    pub day_label: Label,
    pub date_label: Label,
    pub prev: ArrowPlan,
    pub next: ArrowPlan,
    pub title: Label,
    pub weekdays: Vec<Label>,
    pub weeks: Vec<WeekPlan>,
    pub days: Vec<DayPlan>,
}

impl Layout {
    /// The middle of column `c`'s heading.
    pub open spec fn heads(self, c: int, at: Spot) -> bool {
        &&& at.x == 2 * (self.card().x + CARD_BORDER + self.week_w()) + (2 * c + 1)
            * self.metrics.cell
        &&& at.y == 2 * (self.card().y + CARD_BORDER + self.metrics.header_h)
            + self.metrics.weekday_h
    }

    /// The middle of row `r`'s week number.
    pub open spec fn numbers(self, r: int, at: Spot) -> bool {
        &&& at.x == 2 * (self.card().x + CARD_BORDER) + WEEKCOL_W
        &&& at.y == 2 * (self.card().y + CARD_BORDER + self.metrics.header_h
            + self.metrics.weekday_h) + (2 * r + 1) * self.metrics.cell
    }

    /// The arrow is in the middle of its button, on a circle while it is hovered.
    pub open spec fn points(self, button: Area, hovered: bool, arrow: ArrowPlan) -> bool {
        &&& arrow.at.is_middle(button)
        &&& arrow.wash is Some <==> hovered
        &&& arrow.wash matches Some(disc) ==> arrow.at.surrounded(
            DISC_DIAM as int,
            DISC_DIAM as int,
            disc,
        )
    }

    fn arrow(&self, button: Area, hovered: bool) -> (arrow: ArrowPlan)
        requires
            button.near(),
        ensures
            self.points(button, hovered, arrow),
    {
        let at = Spot { x: 2 * button.x + button.w, y: 2 * button.y + button.h };
        ArrowPlan {
            at,
            wash: if hovered {
                Some(disc_around(at))
            } else {
                None
            },
        }
    }

    fn heading(&self, c: usize) -> (at: Spot)
        requires
            c < GRID_COLS,
        ensures
            self.heads(c as int, at),
    {
        let card = self.calendar_card();
        let side = self.metrics.cell as i128;
        let week_w: i128 = if self.week {
            WEEKCOL_W
        } else {
            0
        };
        proof {
            lemma_odd(c as int, side as int);
        }
        Spot {
            x: 2 * (card.x + CARD_BORDER + week_w) + (2 * c as i128 + 1) * side,
            y: 2 * (card.y + CARD_BORDER + self.metrics.header_h as i128)
                + self.metrics.weekday_h as i128,
        }
    }
}

fn disc_around(at: Spot) -> (disc: Area)
    requires
        -0x1000_0000_0000_0000_0000_0000_0000_0000 <= at.x
            <= 0x1000_0000_0000_0000_0000_0000_0000_0000,
        -0x1000_0000_0000_0000_0000_0000_0000_0000 <= at.y
            <= 0x1000_0000_0000_0000_0000_0000_0000_0000,
    ensures
        at.surrounded(DISC_DIAM as int, DISC_DIAM as int, disc),
{
    Area { x: at.x - DISC_DIAM, y: at.y - DISC_DIAM, w: 2 * DISC_DIAM, h: 2 * DISC_DIAM }
}

impl Calendar {
    /// The layout that the calendar is drawn by.
    pub open spec fn drawn_by(&self, metrics: CalMetrics) -> Layout {
        Layout { week: self.show_week_numbers, metrics }
    }

    /// Row `r`'s week number in its pill.
    pub open spec fn is_week(&self, metrics: CalMetrics, text: CalText, r: int, plan: WeekPlan) -> bool {
        &&& is_iso_week(self.day_at(r * GRID_COLS), plan.week as int)
        &&& self.drawn_by(metrics).numbers(r, plan.at)
        &&& plan.at.surrounded(
            text.weeks@[r].0 + 2 * WEEK_BOX_PAD_X,
            text.weeks@[r].1 + 2 * WEEK_BOX_PAD_Y,
            plan.pill,
        )
    }

    /// Cell `i`'s day, in the middle of the cell, as is its circle.
    pub open spec fn is_day(&self, metrics: CalMetrics, i: int, plan: DayPlan) -> bool {
        &&& plan.date.valid()
        &&& plan.date.number() == self.day_at(i)
        &&& plan.at.is_middle(self.drawn_by(metrics).day(i))
        &&& plan.at.surrounded(DISC_DIAM as int, DISC_DIAM as int, plan.disc)
        &&& self.is_day_cell(i as usize, plan.date, plan.cell)
    }

    /// The heading of column `c`: the letter of the weekday that the column is of.
    pub open spec fn is_heading(
        &self,
        metrics: CalMetrics,
        words: CalWords,
        c: int,
        label: Label,
    ) -> bool {
        &&& label.text@ == initial(words.weekdays@[(self.week_start + c) % 7]@)
        &&& self.drawn_by(metrics).heads(c, label.at)
    }

    fn headings(&self, metrics: CalMetrics, words: &CalWords) -> (labels: Vec<Label>)
        requires
            self.week_start <= 6,
            words.weekdays@.len() == GRID_COLS,
        ensures
            labels@.len() == GRID_COLS,
            forall|c: int|
                0 <= c < GRID_COLS ==> self.is_heading(
                    metrics,
                    *words,
                    c,
                    #[trigger] labels@[c],
                ),
    {
        let layout = self.layout(metrics);
        let mut labels: Vec<Label> = Vec::new();
        let mut c: usize = 0;
        while c < GRID_COLS
            invariant
                c <= GRID_COLS,
                self.week_start <= 6,
                words.weekdays@.len() == GRID_COLS,
                layout == self.drawn_by(metrics),
                labels@.len() == c,
                forall|j: int|
                    0 <= j < c ==> self.is_heading(metrics, *words, j, #[trigger] labels@[j]),
            decreases GRID_COLS - c,
        {
            let w: usize = self.column_weekday(c);
            let text = weekday_abbrev(words.weekdays[w].as_str());
            labels.push(Label { text, at: layout.heading(c) });
            c = c + 1;
        }
        labels
    }

    fn week_plans(&self, metrics: CalMetrics, text: &CalText) -> (plans: Vec<WeekPlan>)
        requires
            self.wf(),
            self.show_week_numbers ==> text.weeks@.len() >= GRID_ROWS,
        ensures
            plans@.len() == if self.show_week_numbers {
                GRID_ROWS as int
            } else {
                0
            },
            forall|r: int|
                0 <= r < plans@.len() ==> self.is_week(metrics, *text, r, #[trigger] plans@[r]),
    {
        let layout = self.layout(metrics);
        let card = layout.calendar_card();
        let side = metrics.cell as i128;
        let x: i128 = 2 * (card.x + CARD_BORDER) + WEEKCOL_W;
        let top: i128 = 2 * (card.y + CARD_BORDER + metrics.header_h as i128
            + metrics.weekday_h as i128);
        let weeks = self.week_numbers();
        let mut plans: Vec<WeekPlan> = Vec::new();
        let mut r: usize = 0;
        while r < weeks.len()
            invariant
                r <= weeks@.len(),
                weeks@.len() == if self.show_week_numbers {
                    GRID_ROWS as int
                } else {
                    0
                },
                self.show_week_numbers ==> text.weeks@.len() >= GRID_ROWS,
                forall|j: int|
                    0 <= j < weeks@.len() ==> is_iso_week(
                        self.day_at(j * GRID_COLS),
                        (#[trigger] weeks@[j]) as int,
                    ),
                side == metrics.cell,
                x == 2 * (self.drawn_by(metrics).card().x + CARD_BORDER) + WEEKCOL_W,
                -0x1_0000_0000 <= x <= 0x1_0000_0000,
                top == 2 * (self.drawn_by(metrics).card().y + CARD_BORDER + metrics.header_h
                    + metrics.weekday_h),
                -0x8_0000_0000_0000_0000 <= top <= 0x8_0000_0000_0000_0000,
                plans@.len() == r,
                forall|j: int|
                    0 <= j < r ==> self.is_week(metrics, *text, j, #[trigger] plans@[j]),
            decreases weeks@.len() - r,
        {
            proof {
                lemma_odd(r as int, side as int);
            }
            let at = Spot { x, y: top + (2 * r as i128 + 1) * side };
            let (ink_w, ink_h) = text.weeks[r];
            let w: i128 = ink_w as i128 + 2 * WEEK_BOX_PAD_X;
            let h: i128 = ink_h as i128 + 2 * WEEK_BOX_PAD_Y;
            let pill = Area { x: at.x - w, y: at.y - h, w: 2 * w, h: 2 * h };
            plans.push(WeekPlan { week: weeks[r], at, pill });
            r = r + 1;
        }
        plans
    }

    fn day_plans(&self, metrics: CalMetrics) -> (plans: Vec<DayPlan>)
        requires
            self.wf(),
        ensures
            plans@.len() == CELLS,
            forall|i: int| 0 <= i < CELLS ==> self.is_day(metrics, i, #[trigger] plans@[i]),
    {
        let layout = self.layout(metrics);
        let grid = self.grid();
        let mut plans: Vec<DayPlan> = Vec::new();
        let mut i: usize = 0;
        while i < CELLS
            invariant
                i <= CELLS,
                layout == self.drawn_by(metrics),
                grid@.len() == CELLS,
                forall|j: int|
                    0 <= j < CELLS ==> (#[trigger] grid@[j]).valid() && grid@[j].number()
                        == self.day_at(j),
                plans@.len() == i,
                forall|j: int| 0 <= j < i ==> self.is_day(metrics, j, #[trigger] plans@[j]),
            decreases CELLS - i,
        {
            let date = grid[i];
            let area = layout.cell(i / GRID_COLS, i % GRID_COLS);
            proof {
                lemma_odd((i / GRID_COLS) as int, metrics.cell as int);
                lemma_odd((i % GRID_COLS) as int, metrics.cell as int);
                layout.lemma_day_is_small(i as int);
            }
            let at = Spot { x: 2 * area.x + area.w, y: 2 * area.y + area.h };
            plans.push(
                DayPlan { date, at, disc: disc_around(at), cell: self.day_cell(i, date) },
            );
            i = i + 1;
        }
        plans
    }

    /// What the calendar draws, with these measures of its text and these words.
    pub fn draw_plan(&self, metrics: CalMetrics, text: &CalText, words: &CalWords) -> (plan:
        CalendarPlan)
        requires
            self.wf(),
            words.weekdays@.len() == GRID_COLS,
            self.show_week_numbers ==> text.weeks@.len() >= GRID_ROWS,
        ensures
            ({
                let layout = self.drawn_by(metrics);
                let inset = CARD_BORDER + TODAY_PAD;
                &&& plan.today_wash == if self.hovered == Some(CalHover::Today) {
                    Some(layout.today())
                } else {
                    None
                }
                &&& plan.day_label.text@ == words.today_weekday@
                &&& plan.day_label.at.x == 2 * (layout.today().x + inset)
                &&& plan.day_label.at.y == 2 * (layout.today().y + inset) + text.day_row
                &&& plan.date_label.text@ == self.today_text(words.today_month@)
                &&& plan.date_label.at.x == plan.day_label.at.x
                &&& plan.date_label.at.y == 2 * (layout.today().y + inset + text.day_row)
                    + text.date_row
                &&& layout.points(
                    layout.prev(),
                    self.hovered == Some(CalHover::Prev),
                    plan.prev,
                )
                &&& layout.points(
                    layout.next(),
                    self.hovered == Some(CalHover::Next),
                    plan.next,
                )
                &&& plan.title.text@ == self.title_text(words.month@)
                &&& plan.title.at.x == layout.whole().w
                &&& plan.title.at.y == 2 * (layout.card().y + CARD_BORDER) + metrics.header_h
            }),
            plan.weekdays@.len() == GRID_COLS,
            forall|c: int|
                0 <= c < GRID_COLS ==> self.is_heading(
                    metrics,
                    *words,
                    c,
                    #[trigger] plan.weekdays@[c],
                ),
            plan.weeks@.len() == if self.show_week_numbers {
                GRID_ROWS as int
            } else {
                0
            },
            forall|r: int|
                0 <= r < plan.weeks@.len() ==> self.is_week(
                    metrics,
                    *text,
                    r,
                    #[trigger] plan.weeks@[r],
                ),
            plan.days@.len() == CELLS,
            forall|i: int| 0 <= i < CELLS ==> self.is_day(metrics, i, #[trigger] plan.days@[i]),
    {
        let layout = self.layout(metrics);
        let today = layout.today_button();
        let card = layout.calendar_card();
        let over_today = match self.hovered {
            Some(h) => h == CalHover::Today,
            None => false,
        };
        let over_prev = match self.hovered {
            Some(h) => h == CalHover::Prev,
            None => false,
        };
        let over_next = match self.hovered {
            Some(h) => h == CalHover::Next,
            None => false,
        };
        let day_row = text.day_row as i128;
        let left: i128 = 2 * (today.x + CARD_BORDER + TODAY_PAD);
        let top: i128 = today.y + CARD_BORDER + TODAY_PAD;
        CalendarPlan {
            today_wash: if over_today {
                Some(today)
            } else {
                None
            },
            day_label: Label {
                text: words.today_weekday.clone(),
                at: Spot { x: left, y: 2 * top + day_row },
            },
            date_label: Label {
                text: self.today_date(words.today_month.as_str()),
                at: Spot { x: left, y: 2 * (top + day_row) + text.date_row as i128 },
            },
            prev: layout.arrow(layout.prev_arrow(), over_prev),
            next: layout.arrow(layout.next_arrow(), over_next),
            title: Label {
                text: self.title(words.month.as_str()),
                at: Spot {
                    x: layout.bounds().w,
                    y: 2 * (card.y + CARD_BORDER) + metrics.header_h as i128,
                },
            },
            weekdays: self.headings(metrics, words),
            weeks: self.week_plans(metrics, text),
            days: self.day_plans(metrics),
        }
    }

    /// Today's date, in words.
    pub open spec fn today_text(&self, month_name: Seq<char>) -> Seq<char> {
        month_name + " "@ + digits(self.today.day as nat) + " "@ + year_text(
            self.today.year as int,
        )
    }

    /// The today card's second line: today's date, in words.
    pub fn today_date(&self, month_name: &str) -> (text: String)
        ensures
            text@ == self.today_text(month_name@),
    {
        let mut text = month_name.to_owned();
        text.append(" ");
        let day = decimal(self.today.day as u64);
        text.append(day.as_str());
        text.append(" ");
        let year = signed_decimal(self.today.year);
        text.append(year.as_str());
        text
    }
}

/// A weekday's heading stands over the middle of its column, and a week's number beside the
/// middle of its row.
pub proof fn law_headings_line_up(
    calendar: Calendar,
    metrics: CalMetrics,
    r: int,
    c: int,
    day: DayPlan,
    heading: Spot,
    number: Spot,
)
    requires
        0 <= r < GRID_ROWS,
        0 <= c < GRID_COLS,
        calendar.is_day(metrics, r * GRID_COLS + c, day),
        calendar.drawn_by(metrics).heads(c, heading),
        calendar.drawn_by(metrics).numbers(r, number),
    ensures
        heading.x == day.at.x,
        number.y == day.at.y,
{
    let i = r * 7 + c;
    assert(i % 7 == c && i / 7 == r);
    calendar.drawn_by(metrics).lemma_day_is_small(i);
    assert((2 * c + 1) * metrics.cell == 2 * (c * metrics.cell) + metrics.cell)
        by (nonlinear_arith);
    assert((2 * r + 1) * metrics.cell == 2 * (r * metrics.cell) + metrics.cell)
        by (nonlinear_arith);
}

/// The circles of two days in a row do not touch, where a cell is wider than a circle.
pub proof fn law_discs_are_apart(
    calendar: Calendar,
    metrics: CalMetrics,
    i: int,
    a: DayPlan,
    b: DayPlan,
)
    requires
        0 <= i < CELLS - 1,
        (i + 1) % 7 != 0,
        metrics.cell > DISC_DIAM,
        calendar.is_day(metrics, i, a),
        calendar.is_day(metrics, i + 1, b),
    ensures
        a.disc.x + a.disc.w < b.disc.x,
{
    let layout = calendar.drawn_by(metrics);
    layout.lemma_day_is_small(i);
    layout.lemma_day_is_small(i + 1);
    assert((i + 1) % 7 == i % 7 + 1);
    assert((i % 7 + 1) * metrics.cell == (i % 7) * metrics.cell + metrics.cell)
        by (nonlinear_arith);
}

proof fn lemma_odd(k: int, side: int)
    requires
        0 <= k <= 7,
        -0x8000_0000_0000_0000 <= side <= 0x8000_0000_0000_0000,
    ensures
        -0x8_0000_0000_0000_0000 <= (2 * k + 1) * side <= 0x8_0000_0000_0000_0000,
{
    assert(-0x8_0000_0000_0000_0000 <= (2 * k + 1) * side <= 0x8_0000_0000_0000_0000)
        by (nonlinear_arith)
        requires
            0 <= k <= 7,
            -0x8000_0000_0000_0000 <= side <= 0x8000_0000_0000_0000,
    ;
}

} // verus!
