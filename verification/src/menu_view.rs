//! What the date menu draws, and where: its parts, the lines of its two cards, and the message
//! list's scrollbar.

use vstd::prelude::*;

use crate::area::{Area, UNITS};
use crate::date_menu::{
    least, DateMeasure, DateMenu, EVENTS_CARD_BORDER, EVENTS_CARD_PAD, EVENTS_GAP, EVENTS_LIST_GAP,
    EVENTS_MARGIN, EVENTS_TITLE_PB, EVENT_BOX_GAP, WC_ROW_GAP,
};
use crate::grid_layout::larger;
use crate::lists::{lemma_widest, widest, widest_of};
use crate::message_layout::{ListMeasure, LIST_PAD};
use crate::message_list::{CalendarMessageList, ListView};

verus! {

/// The scrollbar's thumb: its width, its least height, and the room beside it.
pub const SCROLLBAR_W: i128 = 6 * UNITS;

pub const SCROLLBAR_MIN_H: i128 = 24 * UNITS;

pub const SCROLLBAR_EDGE_GAP: i128 = 4 * UNITS;

/// Between the columns of the World Clocks card.
pub const WC_COL_GAP: i128 = 12 * UNITS;

/// The icon that stands for an empty list, and the room under it.
pub const PLACEHOLDER_ICON: i128 = 96 * UNITS;

pub const PLACEHOLDER_GAP: i128 = 12 * UNITS;

/// Where a card's text starts, from its section's corner.
pub const TEXT_TOP: i128 = 17 * UNITS;

/// The scrollbar's thumb. Across it is in units; down it is in parts of which a unit has `parts`.
#[derive(Clone, Copy, Debug, PartialEq, Eq, Structural)]
pub struct Thumb {
    pub x: i128,
    pub w: i128,
    pub y: i128,
    pub h: i128,
    pub parts: i128,
}

impl ListView {
    /// The shortest thumb: what can still be grabbed, or all of a viewport with no room for it.
    pub open spec fn least_thumb(self, height: int) -> int {
        least(SCROLLBAR_MIN_H as int, self.viewport_h(height))
    }

    /// The thumb is as much of the viewport as shows of the content, unless that is too short
    /// to grab. It is as far down what it leaves of the viewport as the list is scrolled.
    pub open spec fn is_thumb(self, m: ListMeasure, height: int, thumb: Thumb) -> bool {
        let vh = self.viewport_h(height);
        let content = self.content_h(m);
        let track = vh * thumb.parts - thumb.h;
        &&& thumb.x == m.list_w - SCROLLBAR_W - SCROLLBAR_EDGE_GAP
        &&& thumb.w == SCROLLBAR_W
        &&& thumb.parts > 0
        &&& thumb.h * content == thumb.parts * larger(
            vh * vh,
            self.least_thumb(height) * content,
        )
        &&& (thumb.y - LIST_PAD * thumb.parts) * self.max_scroll(m, height) == self.scrolled(
            m,
            height,
        ) * track
    }

    /// The thumb stays in the viewport; it is at the viewport's top with the list at its top,
    /// and at its bottom with the list scrolled to the end.
    pub proof fn law_the_thumb_tracks_the_scroll(self, m: ListMeasure, height: int, thumb: Thumb)
        requires
            m.suits(self),
            self.max_scroll(m, height) > 0,
            self.is_thumb(m, height, thumb),
        ensures
            LIST_PAD * thumb.parts <= thumb.y,
            thumb.y + thumb.h <= (LIST_PAD + self.viewport_h(height)) * thumb.parts,
            self.least_thumb(height) * thumb.parts <= thumb.h <= self.viewport_h(height)
                * thumb.parts,
            self.scrolled(m, height) == 0 ==> thumb.y == LIST_PAD * thumb.parts,
            self.scrolled(m, height) == self.max_scroll(m, height) ==> thumb.y + thumb.h == (
            LIST_PAD + self.viewport_h(height)) * thumb.parts,
    {
        let vh = self.viewport_h(height);
        let content = self.content_h(m);
        let (floor, parts, h) = (self.least_thumb(height), thumb.parts as int, thumb.h as int);
        let (scroll, most) = (self.scrolled(m, height), self.max_scroll(m, height));
        let track = vh * parts - h;
        let down = thumb.y - LIST_PAD * parts;
        assert(floor * parts <= h && 0 <= track) by (nonlinear_arith)
            requires
                0 <= floor <= vh < content,
                0 < parts,
                h * content == parts * larger(vh * vh, floor * content),
                track == vh * parts - h,
        ;
        assert(0 <= down <= track && (scroll == 0 ==> down == 0) && (scroll == most ==> down
            == track)) by (nonlinear_arith)
            requires
                down * most == scroll * track,
                0 <= scroll <= most,
                0 < most,
                0 <= track,
        ;
        assert((LIST_PAD + vh) * parts == LIST_PAD * parts + vh * parts) by (nonlinear_arith);
    }
}

impl CalendarMessageList {
    /// The scrollbar's thumb, over the list while that is longer than its viewport.
    pub fn scrollbar_thumb(&self, m: &ListMeasure, height: i64) -> (thumb: Option<Thumb>)
        requires
            m.suits(self@),
            self@.content_h(*m) <= i64::MAX,
        ensures
            thumb is Some <==> self@.max_scroll(*m, height as int) > 0,
            thumb matches Some(thumb) ==> self@.is_thumb(*m, height as int, thumb),
    {
        proof {
            self@.lemma_reach(*m, self@.groups.len() as int);
        }
        let content_h: i128 = self.layout(m).content_h;
        let vh: i128 = self.viewport_h(height as i128);
        let most: i128 = content_h - vh;
        if most <= 0 {
            return None;
        }
        let scroll: i128 = self.scrolled(content_h, height as i128);
        let floor: i128 = if SCROLLBAR_MIN_H < vh {
            SCROLLBAR_MIN_H
        } else {
            vh
        };
        let x: i128 = m.list_w as i128 - SCROLLBAR_W - SCROLLBAR_EDGE_GAP;
        proof {
            lemma_lengths(vh as int, vh as int);
            lemma_lengths(floor as int, content_h as int);
            lemma_lengths(scroll as int, vh as int);
            lemma_lengths(scroll as int, vh - floor);
            lemma_lengths(floor as int, most as int);
        }
        // A share of the content has parts of its length; a thumb of whole units is only placed
        // in parts, those of the way there is to scroll.
        if vh * vh < floor * content_h {
            let (parts, h, y) = (most, floor * most, LIST_PAD * most + scroll * (vh - floor));
            assert(h * content_h == parts * (floor * content_h)) by (nonlinear_arith)
                requires
                    h == floor * parts,
            ;
            assert((y - LIST_PAD * parts) * most == scroll * (vh * parts - h)) by (nonlinear_arith)
                requires
                    parts == most,
                    h == floor * most,
                    y == LIST_PAD * most + scroll * (vh - floor),
            ;
            Some(Thumb { x, w: SCROLLBAR_W, y, h, parts })
        } else {
            let (parts, h, y) = (content_h, vh * vh, LIST_PAD * content_h + scroll * vh);
            assert(h * content_h == parts * (vh * vh)) by (nonlinear_arith)
                requires
                    h == vh * vh,
                    parts == content_h,
            ;
            assert((y - LIST_PAD * parts) * most == scroll * (vh * parts - h)) by (nonlinear_arith)
                requires
                    parts == content_h,
                    most == content_h - vh,
                    h == vh * vh,
                    y == LIST_PAD * content_h + scroll * vh,
            ;
            Some(Thumb { x, w: SCROLLBAR_W, y, h, parts })
        }
    }
}

proof fn lemma_lengths(a: int, b: int)
    by (nonlinear_arith)
    requires
        0 <= a <= 0x7fff_ffff_ffff_ffff,
        0 <= b <= 0x7fff_ffff_ffff_ffff,
    ensures
        0 <= a * b <= 0x7fff_ffff_ffff_ffff * 0x7fff_ffff_ffff_ffff,
{
}

/// One layer of the message list.
#[derive(Clone, Copy, Debug, PartialEq, Eq, Structural)]
pub enum ListLayer {
    /// The scrollbar's thumb.
    Thumb(Thumb),
    /// A window on the content, which is drawn from `scroll` on and cut to the window.
    Window { area: Area, scroll: i128 },
    /// The content itself, this far down.
    Content { y: i128 },
}

impl ListView {
    /// The content overflows the viewport by more than half a pixel.
    pub open spec fn overflows(self, m: ListMeasure, height: int) -> bool {
        self.content_h(m) > self.viewport_h(height) + UNITS / 2
    }

    /// The list's layers, topmost first. What fits is drawn in place; what overflows is drawn
    /// through a window, under the thumb. `drawn` is whether the window could be drawn: without
    /// it there is nothing, and never a lone thumb over an empty column.
    pub open spec fn is_scene(
        self,
        m: ListMeasure,
        height: int,
        drawn: bool,
        layers: Seq<ListLayer>,
    ) -> bool {
        if !self.overflows(m, height) {
            layers == seq![ListLayer::Content { y: self.off_y(m, height) as i128 }]
        } else if !drawn {
            layers.len() == 0
        } else {
            &&& layers.len() == 2
            &&& layers[0] matches ListLayer::Thumb(thumb) && self.is_thumb(m, height, thumb)
            &&& layers[1] matches ListLayer::Window { area, scroll } && {
                &&& area.x == 0
                &&& area.y == LIST_PAD
                &&& area.w == m.list_w
                &&& area.h == self.viewport_h(height)
                &&& scroll == self.scrolled(m, height)
            }
        }
    }
}

impl CalendarMessageList {
    /// What is drawn of the list, topmost first, with `drawn` for whether the window on content
    /// that overflows could be.
    pub fn scene(&self, m: &ListMeasure, height: i64, drawn: bool) -> (layers: Vec<ListLayer>)
        requires
            m.suits(self@),
            self@.content_h(*m) <= i64::MAX,
        ensures
            self@.is_scene(*m, height as int, drawn, layers@),
    {
        proof {
            self@.lemma_reach(*m, self@.groups.len() as int);
        }
        let content_h: i128 = self.layout(m).content_h;
        let vh: i128 = self.viewport_h(height as i128);
        let scroll: i128 = self.scrolled(content_h, height as i128);
        let mut layers: Vec<ListLayer> = Vec::new();
        if content_h <= vh + UNITS / 2 {
            layers.push(ListLayer::Content { y: LIST_PAD - scroll });
            assert(layers@ =~= seq![
                ListLayer::Content { y: self@.off_y(*m, height as int) as i128 },
            ]);
        } else if drawn {
            if let Some(thumb) = self.scrollbar_thumb(m, height) {
                layers.push(ListLayer::Thumb(thumb));
            }
            let area = Area { x: 0, y: LIST_PAD, w: m.list_w as i128, h: vh };
            layers.push(ListLayer::Window { area, scroll });
        }
        layers
    }
}

/// A part of the date menu that is drawn on its own.
#[derive(Clone, Copy, Debug, PartialEq, Eq, Structural)]
pub enum MenuPart {
    /// The message list's cards.
    List,
    /// The icon in place of an empty list.
    Placeholder,
    Calendar,
    Events,
    WorldClocks,
    /// The line between the columns, the Clear pill, and the text in place of an empty list.
    Chrome,
}

/// A part, and where it starts.
#[derive(Clone, Copy, Debug, PartialEq, Eq, Structural)]
pub struct PlacedPart {
    pub part: MenuPart,
    pub x: i128,
    pub y: i128,
}

/// What a line of the Events card says.
#[derive(Clone, Copy, Debug, PartialEq, Eq, Structural)]
pub enum EventText {
    Title,
    /// The line in place of no events.
    NoEvents,
    Summary(usize),
    Time(usize),
}

/// A line of a card: where it starts below its section's top, and how tall it is.
#[derive(Clone, Copy, Debug, PartialEq, Eq, Structural)]
pub struct EventLine {
    pub text: EventText,
    pub y: i128,
    pub h: i128,
}

/// A text of the World Clocks card.
#[derive(Clone, Copy, Debug, PartialEq, Eq, Structural)]
pub enum ClockCell {
    Header,
    City,
    Time,
    Offset,
}

impl EventText {
    /// The events' summaries are in the full text color; all else on the card is muted.
    pub open spec fn muted(self) -> bool {
        !(self is Summary)
    }

    pub fn is_muted(self) -> (muted: bool)
        ensures
            muted == self.muted(),
    {
        match self {
            EventText::Summary(_) => false,
            _ => true,
        }
    }
}

/// The World Clocks card's columns: where the cities start and what is left of them, and where
/// the times and the offsets end.
#[derive(Clone, Copy, Debug, PartialEq, Eq, Structural)]
pub struct ClockColumns {
    pub city_x: i128,
    pub city_w: i128,
    pub time_right: i128,
    pub offset_right: i128,
}

impl DateMenu {
    /// The parts, the topmost first. A section without room is not drawn.
    pub open spec fn parts(&self, m: DateMeasure) -> Seq<PlacedPart> {
        let first = PlacedPart {
            part: if self.list@.groups.len() == 0 && self.list@.players.len() == 0 {
                MenuPart::Placeholder
            } else {
                MenuPart::List
            },
            x: 0,
            y: 0,
        };
        let x = m.col_x() as i128;
        let cal_h = self.cal(m).h;
        let events = if self.events_h(m) > 0 {
            seq![PlacedPart { part: MenuPart::Events, x, y: (cal_h + EVENTS_GAP) as i128 }]
        } else {
            Seq::empty()
        };
        let clocks = if self.clocks_h(m) > 0 {
            seq![
                PlacedPart {
                    part: MenuPart::WorldClocks,
                    x,
                    y: (cal_h + self.events_h(m) + EVENTS_GAP) as i128,
                },
            ]
        } else {
            Seq::empty()
        };
        seq![first, PlacedPart { part: MenuPart::Calendar, x, y: 0 }] + events + clocks + seq![
            PlacedPart { part: MenuPart::Chrome, x: 0, y: 0 },
        ]
    }

    /// What to draw, the topmost first.
    pub fn render_plan(&self, m: &DateMeasure) -> (plan: Vec<PlacedPart>)
        requires
            self.measured(*m),
        ensures
            plan@ == self.parts(*m),
    {
        proof {
            self.lemma_rows();
            self.lemma_bounds(*m);
        }
        let x: i128 = self.calendar_col_x(m);
        let cal_h: i128 = self.calendar_box(m).h;
        let events_h: i128 = self.events_height(m);
        let mut plan: Vec<PlacedPart> = Vec::new();
        let part = if self.list.is_empty() {
            MenuPart::Placeholder
        } else {
            MenuPart::List
        };
        plan.push(PlacedPart { part, x: 0, y: 0 });
        plan.push(PlacedPart { part: MenuPart::Calendar, x, y: 0 });
        if events_h > 0 {
            plan.push(PlacedPart { part: MenuPart::Events, x, y: cal_h + EVENTS_GAP });
        }
        if self.world_clocks_height(m) > 0 {
            plan.push(
                PlacedPart { part: MenuPart::WorldClocks, x, y: cal_h + events_h + EVENTS_GAP },
            );
        }
        plan.push(PlacedPart { part: MenuPart::Chrome, x: 0, y: 0 });
        assert(plan@ =~= self.parts(*m));
        plan
    }

    /// Where event `i` starts below its section's top.
    pub open spec fn event_top(&self, m: DateMeasure, i: int) -> int {
        TEXT_TOP + m.title_h + EVENTS_TITLE_PB + i * (m.summary_h + EVENT_BOX_GAP + m.time_h
            + EVENTS_LIST_GAP)
    }

    /// The lines are those of the Events card.
    pub open spec fn is_event_lines(&self, m: DateMeasure, lines: Seq<EventLine>) -> bool {
        let n = self.events.rows@.len() as int;
        let title = EventLine { text: EventText::Title, y: TEXT_TOP, h: m.title_h as i128 };
        if n == 0 {
            &&& lines.len() == 2
            &&& lines[0] == title
            &&& lines[1] == (EventLine {
                text: EventText::NoEvents,
                y: (TEXT_TOP + m.title_h + EVENTS_TITLE_PB) as i128,
                h: m.title_h as i128,
            })
        } else {
            &&& lines.len() == 1 + 2 * n
            &&& lines[0] == title
            &&& forall|i: int|
                0 <= i < n ==> #[trigger] lines[1 + 2 * i] == (EventLine {
                    text: EventText::Summary(i as usize),
                    y: self.event_top(m, i) as i128,
                    h: m.summary_h as i128,
                })
            &&& forall|i: int|
                0 <= i < n ==> #[trigger] lines[2 + 2 * i] == (EventLine {
                    text: EventText::Time(i as usize),
                    y: (self.event_top(m, i) + m.summary_h + EVENT_BOX_GAP) as i128,
                    h: m.time_h as i128,
                })
        }
    }

    /// The lines of the Events card: its title, then each event's summary over its time, or the
    /// line in place of none.
    pub fn events_lines(&self, m: &DateMeasure) -> (lines: Vec<EventLine>)
        requires
            m.good(),
        ensures
            self.is_event_lines(*m, lines@),
    {
        let n: usize = self.events.rows.len();
        let mut lines: Vec<EventLine> = Vec::new();
        lines.push(EventLine { text: EventText::Title, y: TEXT_TOP, h: m.title_h as i128 });
        let mut y: i128 = TEXT_TOP + m.title_h as i128 + EVENTS_TITLE_PB;
        if n == 0 {
            lines.push(EventLine { text: EventText::NoEvents, y, h: m.title_h as i128 });
            return lines;
        }
        let mut i: usize = 0;
        let ghost step = m.summary_h + EVENT_BOX_GAP + m.time_h + EVENTS_LIST_GAP;
        while i < n
            invariant
                m.good(),
                n == self.events.rows@.len(),
                i <= n,
                step == m.summary_h + EVENT_BOX_GAP + m.time_h + EVENTS_LIST_GAP,
                0 <= step <= 0x300_0000_0000,
                y == self.event_top(*m, i as int),
                0 <= y <= TEXT_TOP + m.title_h + EVENTS_TITLE_PB + i * 0x300_0000_0000,
                lines@.len() == 1 + 2 * i,
                lines@[0] == (EventLine { text: EventText::Title, y: TEXT_TOP, h: m.title_h as i128 }),
                forall|j: int|
                    0 <= j < i ==> #[trigger] lines@[1 + 2 * j] == (EventLine {
                        text: EventText::Summary(j as usize),
                        y: self.event_top(*m, j) as i128,
                        h: m.summary_h as i128,
                    }),
                forall|j: int|
                    0 <= j < i ==> #[trigger] lines@[2 + 2 * j] == (EventLine {
                        text: EventText::Time(j as usize),
                        y: (self.event_top(*m, j) + m.summary_h + EVENT_BOX_GAP) as i128,
                        h: m.time_h as i128,
                    }),
            decreases n - i,
        {
            assert((i + 1) * step == i * step + step) by (nonlinear_arith);
            let ghost before = lines@;
            lines.push(EventLine { text: EventText::Summary(i), y, h: m.summary_h as i128 });
            lines.push(
                EventLine {
                    text: EventText::Time(i),
                    y: y + m.summary_h as i128 + EVENT_BOX_GAP,
                    h: m.time_h as i128,
                },
            );
            y = y + m.summary_h as i128 + EVENT_BOX_GAP + m.time_h as i128 + EVENTS_LIST_GAP;
            i = i + 1;
        }
        lines
    }

    /// The Events card's lines fill it: the last one ends where the padding starts.
    pub proof fn law_the_events_fill_their_card(&self, m: DateMeasure, lines: Seq<EventLine>)
        requires
            m.good(),
            self.is_event_lines(m, lines),
        ensures
            lines.last().y + lines.last().h == EVENTS_MARGIN + self.events_card(m)
                - EVENTS_CARD_PAD - EVENTS_CARD_BORDER,
    {
        let n = self.events.rows@.len() as int;
        if n > 0 {
            self.lemma_rows();
            let row = m.summary_h + EVENT_BOX_GAP + m.time_h;
            let gap = EVENTS_LIST_GAP as int;
            assert((n - 1) * (row + gap) + row == n * row + (n - 1) * gap) by (nonlinear_arith);
            assert(0 <= (n - 1) * (row + gap) <= 0x1_0000_0000_0000_0000 * 0x400_0000_0000)
                by (nonlinear_arith)
                requires
                    0 <= n - 1 <= 0x1_0000_0000_0000_0000,
                    0 <= row + gap <= 0x400_0000_0000,
            ;
            assert(lines[2 + 2 * (n - 1)] == lines.last());
        }
    }

    /// The clocks' offsets are muted, and so is the header over clocks. Over none, it is in the
    /// full text color, as are the cities and the times.
    pub open spec fn is_muted(&self, cell: ClockCell) -> bool {
        match cell {
            ClockCell::Header => !self.world_clocks.empty,
            ClockCell::City | ClockCell::Time => false,
            ClockCell::Offset => true,
        }
    }

    /// Whether a text of the World Clocks card is muted.
    pub fn clock_muted(&self, cell: ClockCell) -> (muted: bool)
        ensures
            muted == self.is_muted(cell),
    {
        match cell {
            ClockCell::Header => !self.world_clocks.empty,
            ClockCell::City | ClockCell::Time => false,
            ClockCell::Offset => true,
        }
    }

    /// Where world clock `i` starts below its section's top.
    pub open spec fn clock_top(&self, m: DateMeasure, i: int) -> int {
        TEXT_TOP + m.clock_header_h + (i + 1) * WC_ROW_GAP + i * m.clock_row_h
    }

    /// Where each world clock starts. The header is above them, at the top.
    pub fn clock_tops(&self, m: &DateMeasure) -> (tops: Vec<i128>)
        requires
            m.good(),
        ensures
            tops@.len() == self.world_clocks.rows@.len(),
            forall|i: int| 0 <= i < tops@.len() ==> #[trigger] tops@[i] == self.clock_top(*m, i),
    {
        let n: usize = self.world_clocks.rows.len();
        let mut tops: Vec<i128> = Vec::new();
        let mut y: i128 = TEXT_TOP + m.clock_header_h as i128 + WC_ROW_GAP;
        let mut i: usize = 0;
        let ghost row = m.clock_row_h as int;
        while i < n
            invariant
                m.good(),
                i <= n,
                row == m.clock_row_h,
                y == self.clock_top(*m, i as int),
                0 <= y <= 0x200_0000_0000 + i * 0x200_0000_0000,
                tops@.len() == i,
                forall|j: int| 0 <= j < i ==> #[trigger] tops@[j] == self.clock_top(*m, j),
            decreases n - i,
        {
            assert((i + 1) * row == i * row + row) by (nonlinear_arith);
            tops.push(y);
            y = y + m.clock_row_h as i128 + WC_ROW_GAP;
            i = i + 1;
        }
        tops
    }

    /// The World Clocks card's lines fill it: the last one ends where the padding starts.
    pub proof fn law_the_clocks_fill_their_card(&self, m: DateMeasure)
        requires
            self.world_clocks.rows@.len() > 0,
        ensures
            self.clock_top(m, self.world_clocks.rows@.len() - 1) + m.clock_row_h == EVENTS_MARGIN
                + self.clocks_card(m) - EVENTS_CARD_PAD - EVENTS_CARD_BORDER,
    {
        let n = self.world_clocks.rows@.len() as int;
        let row = m.clock_row_h as int;
        assert((n - 1) * row + row == n * row) by (nonlinear_arith);
    }

    /// The columns for these widths of the clocks' times and offsets.
    pub open spec fn columns(
        &self,
        m: DateMeasure,
        times: Seq<i64>,
        offsets: Seq<i64>,
        columns: ClockColumns,
    ) -> bool {
        let inset = EVENTS_MARGIN + EVENTS_CARD_BORDER + EVENTS_CARD_PAD;
        let city_right = columns.time_right - widest(times) - WC_COL_GAP;
        &&& columns.city_x == inset
        &&& columns.offset_right == self.cal(m).w - inset
        &&& columns.time_right == columns.offset_right - widest(offsets) - WC_COL_GAP
        &&& columns.city_w == if city_right > columns.city_x {
            city_right - columns.city_x
        } else {
            0
        }
    }

    /// The World Clocks card's columns: those of the times and of the offsets are as wide as
    /// their widest cell, and the cities get the rest.
    pub fn clock_columns(&self, m: &DateMeasure, times: &Vec<i64>, offsets: &Vec<i64>) -> (columns:
        ClockColumns)
        requires
            m.good(),
        ensures
            self.columns(*m, times@, offsets@, columns),
    {
        proof {
            self.lemma_rows();
            self.lemma_bounds(*m);
        }
        let inset: i128 = EVENTS_MARGIN + EVENTS_CARD_BORDER + EVENTS_CARD_PAD;
        let offset_right: i128 = self.calendar_box(m).w - inset;
        let time_right: i128 = offset_right - widest_of(offsets) as i128 - WC_COL_GAP;
        let city_right: i128 = time_right - widest_of(times) as i128 - WC_COL_GAP;
        ClockColumns {
            city_x: inset,
            city_w: if city_right > inset {
                city_right - inset
            } else {
                0
            },
            time_right,
            offset_right,
        }
    }

    /// No cell runs into another column: a time starts right of the cities, and an offset right
    /// of the times, a gap apart.
    pub proof fn law_the_columns_are_apart(
        &self,
        m: DateMeasure,
        times: Seq<i64>,
        offsets: Seq<i64>,
        columns: ClockColumns,
        i: int,
    )
        requires
            self.columns(m, times, offsets, columns),
            0 <= i < times.len(),
            i < offsets.len(),
        ensures
            columns.city_w > 0 ==> columns.city_x + columns.city_w + WC_COL_GAP
                <= columns.time_right - times[i],
            columns.time_right + WC_COL_GAP <= columns.offset_right - offsets[i],
    {
        lemma_widest(times, i);
        lemma_widest(offsets, i);
    }
}

/// Where the icon and the text in place of an empty list have their middles, in a popover this
/// tall: the icon is over the text, both together halfway down. In half units.
pub fn placeholder_centers(label_h: i64, height: i64) -> (centers: (i128, i128))
    ensures
        ({
            let top = height - (PLACEHOLDER_ICON + PLACEHOLDER_GAP + label_h);
            &&& centers.0 == top + PLACEHOLDER_ICON
            &&& centers.1 == top + 2 * (PLACEHOLDER_ICON + PLACEHOLDER_GAP) + label_h
        }),
        centers.0 - PLACEHOLDER_ICON == 2 * height - (centers.1 + label_h),
{
    let label: i128 = label_h as i128;
    let top: i128 = height as i128 - (PLACEHOLDER_ICON + PLACEHOLDER_GAP + label);
    (top + PLACEHOLDER_ICON, top + 2 * (PLACEHOLDER_ICON + PLACEHOLDER_GAP) + label)
}

} // verus!
