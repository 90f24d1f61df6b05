//! The date menu: the message list beside the calendar, with the Events and World Clocks
//! cards below the calendar.
//!
//! Lengths are in 64ths of a logical pixel. The popover grows with its content up to the
//! height that is available; past it the message list scrolls.

use vstd::prelude::*;

use crate::area::{Area, FAR, UNITS};
use crate::calendar::{can_step, CalMetrics, Calendar, Layout};
use crate::dates::Ymd;
use crate::events::{EventRow, EventsSectionModel};
use crate::message_layout::{
    at_least, CardLayout, ListMeasure, CLEAR_H, CONTROLS_PAD, CONTROLS_PAD_B, LIST_PAD, MAX_LEN,
};
use crate::message_list::{
    group_views, player_views, CalendarMessageList, CardGroup, HitView, ListHit, ListView,
    MediaCardContent, SourceKey,
};
use crate::lists::first_where;
use crate::message_view::{is_moved, moved, GroupRect, MediaCardRects, ShownCard};
use crate::popover::{ActionView, PopoverAction};
use crate::text::{same_text, views};

verus! {

/// The list column's own padding and border, and the margins between the columns.
pub const LIST_PAD_R: i128 = 6 * UNITS;

pub const LIST_BORDER_R: i128 = UNITS;

pub const LIST_MARGIN_R: i128 = 4 * UNITS;

pub const COLUMN_MARGIN_L: i128 = 6 * UNITS;

/// Above a card of the calendar column, around it, and inside it.
pub const EVENTS_GAP: i128 = 6 * UNITS;

pub const EVENTS_MARGIN: i128 = 4 * UNITS;

pub const EVENTS_CARD_PAD: i128 = 12 * UNITS;

/// A card's border, which is reserved and never seen.
pub const EVENTS_CARD_BORDER: i128 = UNITS;

/// Under the Events title, between an event's two lines, and between two events.
pub const EVENTS_TITLE_PB: i128 = 6 * UNITS;

pub const EVENT_BOX_GAP: i128 = 6 * UNITS;

pub const EVENTS_LIST_GAP: i128 = 6 * UNITS;

/// Between two world clocks, and under their header.
pub const WC_ROW_GAP: i128 = 6 * UNITS;

/// The popover's corner radius, in logical pixels.
pub const BOX_RADIUS: u32 = 30;

/// More than a card of the column can be tall.
pub const BIG: i128 = 0x1000_0000_0000_0000_0000_0000_0000;

/// A listed world clock.
#[derive(Debug, PartialEq, Eq)]
pub struct ClockRow {
    pub city: String,
    pub time: String,
    pub tz_offset: String,
}

/// The World Clocks section.
#[derive(Debug, PartialEq, Eq)]
pub struct WorldClocksModel {
    /// The clocks app is there.
    pub visible: bool,
    pub header: String,
    pub empty: bool,
    pub rows: Vec<ClockRow>,
}

pub open spec fn event_rows(rows: Seq<EventRow>) -> Seq<(Seq<char>, Seq<char>)> {
    rows.map_values(|r: EventRow| (r.summary@, r.time@))
}

pub open spec fn clock_rows(rows: Seq<ClockRow>) -> Seq<(Seq<char>, Seq<char>, Seq<char>)> {
    rows.map_values(|r: ClockRow| (r.city@, r.time@, r.tz_offset@))
}

/// Two Events sections show the same.
pub open spec fn alike_events(a: EventsSectionModel, b: EventsSectionModel) -> bool {
    a.visible == b.visible && a.title@ == b.title@ && event_rows(a.rows@) == event_rows(b.rows@)
}

/// Two World Clocks sections show the same.
pub open spec fn alike_clocks(a: WorldClocksModel, b: WorldClocksModel) -> bool {
    a.visible == b.visible && a.header@ == b.header@ && a.empty == b.empty && clock_rows(a.rows@)
        == clock_rows(b.rows@)
}

fn same_events(a: &EventsSectionModel, b: &EventsSectionModel) -> (same: bool)
    ensures
        same == alike_events(*a, *b),
{
    if a.visible != b.visible || !same_text(a.title.as_str(), b.title.as_str()) {
        return false;
    }
    if a.rows.len() != b.rows.len() {
        assert(event_rows(a.rows@).len() != event_rows(b.rows@).len());
        return false;
    }
    let mut i: usize = 0;
    while i < a.rows.len()
        invariant
            i <= a.rows@.len(),
            a.rows@.len() == b.rows@.len(),
            forall|j: int| 0 <= j < i ==> event_rows(a.rows@)[j] == event_rows(b.rows@)[j],
        decreases a.rows@.len() - i,
    {
        if !same_text(a.rows[i].summary.as_str(), b.rows[i].summary.as_str()) || !same_text(
            a.rows[i].time.as_str(),
            b.rows[i].time.as_str(),
        ) {
            assert(event_rows(a.rows@)[i as int] != event_rows(b.rows@)[i as int]);
            return false;
        }
        i = i + 1;
    }
    assert(event_rows(a.rows@) =~= event_rows(b.rows@));
    true
}

fn same_clocks(a: &WorldClocksModel, b: &WorldClocksModel) -> (same: bool)
    ensures
        same == alike_clocks(*a, *b),
{
    if a.visible != b.visible || a.empty != b.empty || !same_text(
        a.header.as_str(),
        b.header.as_str(),
    ) {
        return false;
    }
    if a.rows.len() != b.rows.len() {
        assert(clock_rows(a.rows@).len() != clock_rows(b.rows@).len());
        return false;
    }
    let mut i: usize = 0;
    while i < a.rows.len()
        invariant
            i <= a.rows@.len(),
            a.rows@.len() == b.rows@.len(),
            forall|j: int| 0 <= j < i ==> clock_rows(a.rows@)[j] == clock_rows(b.rows@)[j],
        decreases a.rows@.len() - i,
    {
        if !same_text(a.rows[i].city.as_str(), b.rows[i].city.as_str()) || !same_text(
            a.rows[i].time.as_str(),
            b.rows[i].time.as_str(),
        ) || !same_text(a.rows[i].tz_offset.as_str(), b.rows[i].tz_offset.as_str()) {
            assert(clock_rows(a.rows@)[i as int] != clock_rows(b.rows@)[i as int]);
            return false;
        }
        i = i + 1;
    }
    assert(clock_rows(a.rows@) =~= clock_rows(b.rows@));
    true
}

/// What the caller measured: the list, the calendar, and the heights of a line in each of the
/// cards' type sizes.
pub struct DateMeasure {
    pub list: ListMeasure,
    pub cal: CalMetrics,
    /// The Events title's line, which is also that of the line in place of no events.
    pub title_h: i64,
    pub summary_h: i64,
    pub time_h: i64,
    pub clock_header_h: i64,
    pub clock_row_h: i64,
}

impl DateMeasure {
    pub open spec fn good(&self) -> bool {
        &&& 0 <= self.cal.header_h <= MAX_LEN
        &&& 0 <= self.cal.weekday_h <= MAX_LEN
        &&& 0 <= self.cal.cell <= MAX_LEN
        &&& 0 <= self.cal.today_h <= MAX_LEN
        &&& 0 <= self.title_h <= MAX_LEN
        &&& 0 <= self.summary_h <= MAX_LEN
        &&& 0 <= self.time_h <= MAX_LEN
        &&& 0 <= self.clock_header_h <= MAX_LEN
        &&& 0 <= self.clock_row_h <= MAX_LEN
    }

    /// Where the calendar column starts.
    pub open spec fn col_x(&self) -> int {
        LIST_PAD + self.list.list_w + LIST_PAD_R + LIST_BORDER_R + LIST_MARGIN_R + COLUMN_MARGIN_L
    }
}

/// The date menu.
pub struct DateMenu {
    pub calendar: Calendar,
    pub list: CalendarMessageList,
    /// The most height there is, once it is known.
    pub available_h: Option<i64>,
    pub events: EventsSectionModel,
    /// Bumped whenever the Events section changes.
    pub events_rev: u64,
    pub events_hovered: bool,
    pub world_clocks: WorldClocksModel,
    /// Bumped whenever the World Clocks section changes.
    pub world_clocks_rev: u64,
    pub world_clocks_hovered: bool,
}

pub open spec fn least(a: int, b: int) -> int {
    if a < b {
        a
    } else {
        b
    }
}

impl DateMenu {
    pub open spec fn measured(&self, m: DateMeasure) -> bool {
        m.good() && m.list.suits(self.list@)
    }

    /// The calendar's own box.
    pub open spec fn cal(&self, m: DateMeasure) -> Area {
        (Layout { week: self.calendar.show_week_numbers, metrics: m.cal }).whole()
    }

    /// What is left of the available height, if there is a limit to it.
    pub open spec fn room(&self, section: int, used: int) -> int {
        match self.available_h {
            Some(available) => least(section, at_least(available - used, 0)),
            None => section,
        }
    }

    /// The Events card's height: the title, then the events or the line in place of none.
    pub open spec fn events_card(&self, m: DateMeasure) -> int {
        let n = self.events.rows@.len() as int;
        let rows = if n == 0 {
            m.title_h as int
        } else {
            n * (m.summary_h + EVENT_BOX_GAP + m.time_h) + (n - 1) * EVENTS_LIST_GAP
        };
        m.title_h + EVENTS_TITLE_PB + rows + 2 * (EVENTS_CARD_PAD + EVENTS_CARD_BORDER)
    }

    /// The height the Events section gets: its card and margins, or what is left for them. Room
    /// is left for the inset below the column.
    pub open spec fn events_alloc(&self, m: DateMeasure) -> int {
        if self.events.visible {
            self.room(
                self.events_card(m) + 2 * EVENTS_MARGIN,
                self.cal(m).h + EVENTS_GAP + LIST_PAD,
            )
        } else {
            0
        }
    }

    /// What the Events section adds to the column.
    pub open spec fn events_h(&self, m: DateMeasure) -> int {
        if self.events_alloc(m) > 0 {
            EVENTS_GAP + self.events_alloc(m)
        } else {
            0
        }
    }

    /// The World Clocks card's height: the header, then a line for each clock.
    pub open spec fn clocks_card(&self, m: DateMeasure) -> int {
        let n = self.world_clocks.rows@.len() as int;
        let rows = if n == 0 {
            0
        } else {
            WC_ROW_GAP + n * m.clock_row_h + (n - 1) * WC_ROW_GAP
        };
        m.clock_header_h + rows + 2 * (EVENTS_CARD_PAD + EVENTS_CARD_BORDER)
    }

    /// The height the World Clocks section gets. Room is left for the inset below it.
    pub open spec fn clocks_alloc(&self, m: DateMeasure) -> int {
        if self.world_clocks.visible {
            self.room(
                self.clocks_card(m) + 2 * EVENTS_MARGIN,
                self.cal(m).h + self.events_h(m) + EVENTS_GAP + LIST_PAD,
            )
        } else {
            0
        }
    }

    /// What the World Clocks section adds to the column.
    pub open spec fn clocks_h(&self, m: DateMeasure) -> int {
        if self.clocks_alloc(m) > 0 {
            EVENTS_GAP + self.clocks_alloc(m)
        } else {
            0
        }
    }

    /// The calendar column's height.
    pub open spec fn column_h(&self, m: DateMeasure) -> int {
        self.cal(m).h + self.events_h(m) + self.clocks_h(m) + LIST_PAD
    }

    /// The popover's height: that of the taller column, but no more than is available, unless
    /// the calendar column needs it.
    pub open spec fn height(&self, m: DateMeasure) -> int {
        let list_h = LIST_PAD + self.list@.content_h(m.list) + self.list@.controls_h();
        let natural = at_least(self.column_h(m), list_h);
        match self.available_h {
            Some(available) => least(natural, at_least(available as int, self.column_h(m))),
            None => natural,
        }
    }

    /// A card of the column: its section starts at `top` and is `alloc` tall.
    pub open spec fn is_card(&self, m: DateMeasure, card: Area, top: int, alloc: int) -> bool {
        &&& card.x == m.col_x() + EVENTS_MARGIN
        &&& card.y == top + EVENTS_MARGIN
        &&& card.w == at_least(self.cal(m).w - 2 * EVENTS_MARGIN, 0)
        &&& card.h == at_least(alloc - 2 * EVENTS_MARGIN, 0)
    }

    /// The point is on a card of the column.
    pub open spec fn on_card(&self, m: DateMeasure, top: int, alloc: int, x: int, y: int) -> bool {
        &&& alloc > 0
        &&& m.col_x() + EVENTS_MARGIN <= x < m.col_x() + EVENTS_MARGIN + at_least(
            self.cal(m).w - 2 * EVENTS_MARGIN,
            0,
        )
        &&& top + EVENTS_MARGIN <= y < top + EVENTS_MARGIN + at_least(alloc - 2 * EVENTS_MARGIN, 0)
    }

    pub open spec fn on_events(&self, m: DateMeasure, x: int, y: int) -> bool {
        self.on_card(m, self.cal(m).h + EVENTS_GAP, self.events_alloc(m), x, y)
    }

    pub open spec fn on_clocks(&self, m: DateMeasure, x: int, y: int) -> bool {
        self.on_card(
            m,
            self.cal(m).h + self.events_h(m) + EVENTS_GAP,
            self.clocks_alloc(m),
            x,
            y,
        )
    }

    /// Every height of the column is within reach.
    pub proof fn lemma_bounds(&self, m: DateMeasure)
        requires
            m.good(),
            self.events.rows@.len() <= u64::MAX,
            self.world_clocks.rows@.len() <= u64::MAX,
        ensures
            0 < self.cal(m).h <= 0x1000_0000_0000,
            0 < self.cal(m).w <= 0x1000_0000_0000,
            0 < self.events_card(m) <= BIG,
            0 < self.clocks_card(m) <= BIG,
            0 <= self.events_h(m) <= 2 * BIG,
            0 <= self.clocks_h(m) <= 2 * BIG,
            0 <= self.events_alloc(m) <= 2 * BIG,
            0 <= self.clocks_alloc(m) <= 2 * BIG,
            self.events.rows@.len() > 0 ==> 0 <= self.events.rows@.len() * (m.summary_h
                + EVENT_BOX_GAP + m.time_h) <= BIG,
            self.world_clocks.rows@.len() > 0 ==> 0 <= self.world_clocks.rows@.len()
                * m.clock_row_h <= BIG,
    {
        let n = self.events.rows@.len() as int;
        let k = m.summary_h + EVENT_BOX_GAP + m.time_h;
        assert(0 <= n * k <= 0x1_0000_0000_0000_0000 * 0x300_0000_0000) by (nonlinear_arith)
            requires
                0 <= n <= 0x1_0000_0000_0000_0000,
                0 <= k <= 0x300_0000_0000,
        ;
        let c = self.world_clocks.rows@.len() as int;
        let r = m.clock_row_h as int;
        assert(0 <= c * r <= 0x1_0000_0000_0000_0000 * 0x300_0000_0000) by (nonlinear_arith)
            requires
                0 <= c <= 0x1_0000_0000_0000_0000,
                0 <= r <= 0x300_0000_0000,
        ;
    }

    /// An empty date menu of today's month, beside these notifications.
    pub fn new(
        week_start: u8,
        show_week_numbers: bool,
        today: Ymd,
        groups: Vec<CardGroup>,
    ) -> (menu: Self)
        requires
            can_step(today.year, today.month),
        ensures
            menu.calendar == (Calendar {
                year: today.year,
                month: today.month,
                selected: today,
                today,
                week_start: if week_start <= 6 {
                    week_start
                } else {
                    6
                },
                show_week_numbers,
                hovered: None,
                revision: 0,
            }),
            menu.calendar.wf(),
            menu.list@ == (ListView {
                groups: group_views(groups@),
                players: Seq::empty(),
                body_expanded: Set::empty(),
                group_expanded: None,
                hovered: None,
                revision: 0,
                scroll: 0,
            }),
            menu.available_h is None,
            !menu.events.visible && menu.events.title@.len() == 0 && menu.events.rows@.len() == 0,
            !menu.world_clocks.visible && menu.world_clocks.rows@.len() == 0,
            menu.events_rev == 0 && menu.world_clocks_rev == 0,
            !menu.events_hovered && !menu.world_clocks_hovered,
    {
        proof {
            reveal_strlit("");
        }
        DateMenu {
            calendar: Calendar::new(week_start, show_week_numbers, today),
            list: CalendarMessageList::new(groups),
            available_h: None,
            events: EventsSectionModel {
                visible: false,
                title: "".to_owned(),
                rows: Vec::new(),
            },
            events_rev: 0,
            events_hovered: false,
            world_clocks: WorldClocksModel {
                visible: false,
                header: "".to_owned(),
                empty: false,
                rows: Vec::new(),
            },
            world_clocks_rev: 0,
            world_clocks_hovered: false,
        }
    }
}

/// The action a click's hit in the list asks for. Folding a body and fanning a group are the
/// list's own business.
pub open spec fn action_of(hit: Option<HitView>) -> ActionView {
    match hit {
        Some(HitView::Close(id)) => ActionView::CloseNotification(id),
        Some(HitView::Action { id, key }) => ActionView::InvokeNotificationAction {
            notification: id,
            key,
        },
        Some(HitView::Body { id, has_default }) => ActionView::ActivateNotification {
            notification: id,
            has_default,
        },
        Some(HitView::CloseGroup(ids)) => ActionView::CloseNotificationGroup(ids),
        Some(HitView::Clear) => ActionView::ClearNotifications,
        Some(HitView::MediaControl { bus_name, control }) => ActionView::MediaControl {
            bus_name,
            control,
        },
        Some(HitView::MediaBody(bus_name)) => ActionView::RaiseMediaPlayer(bus_name),
        _ => ActionView::Consumed,
    }
}

/// The list after a click's hit.
pub open spec fn list_after(list: ListView, hit: Option<HitView>) -> ListView {
    match hit {
        Some(HitView::ToggleExpand(id)) => list.body_toggled(id),
        Some(HitView::ExpandGroup(key)) => list.toggled(key),
        Some(HitView::CollapseGroup) => match list.group_expanded {
            Some(key) => list.collapsed(key),
            None => list,
        },
        _ => list,
    }
}

/// The command line that launches an app by its desktop id.
fn launch(app: &str) -> (action: PopoverAction)
    ensures
        action@ == ActionView::Spawn(seq!["gtk-launch"@, app@]),
{
    let mut argv: Vec<String> = Vec::new();
    argv.push("gtk-launch".to_owned());
    argv.push(app.to_owned());
    assert(views(argv@) =~= seq!["gtk-launch"@, app@]);
    PopoverAction::Spawn(argv)
}

impl DateMenu {
    /// The menu's state, but for these fields.
    pub open spec fn only_list(&self, now: DateMenu) -> bool {
        now == (DateMenu { list: now.list, ..*self })
    }

    /// Take a freshly formatted Events section. Returns whether that is a change.
    pub fn set_events(&mut self, model: EventsSectionModel) -> (changed: bool)
        ensures
            changed == !alike_events(old(self).events, model),
            *final(self) == if changed {
                DateMenu {
                    events: model,
                    events_rev: old(self).events_rev.wrapping_add(1),
                    ..*old(self)
                }
            } else {
                *old(self)
            },
    {
        if same_events(&self.events, &model) {
            return false;
        }
        self.events = model;
        self.events_rev = self.events_rev.wrapping_add(1);
        true
    }

    pub fn events(&self) -> (events: &EventsSectionModel)
        ensures
            *events == self.events,
    {
        &self.events
    }

    /// Take a freshly formatted World Clocks section. Returns whether that is a change.
    pub fn set_world_clocks(&mut self, model: WorldClocksModel) -> (changed: bool)
        ensures
            changed == !alike_clocks(old(self).world_clocks, model),
            *final(self) == if changed {
                DateMenu {
                    world_clocks: model,
                    world_clocks_rev: old(self).world_clocks_rev.wrapping_add(1),
                    ..*old(self)
                }
            } else {
                *old(self)
            },
    {
        if same_clocks(&self.world_clocks, &model) {
            return false;
        }
        self.world_clocks = model;
        self.world_clocks_rev = self.world_clocks_rev.wrapping_add(1);
        true
    }

    pub fn world_clocks(&self) -> (clocks: &WorldClocksModel)
        ensures
            *clocks == self.world_clocks,
    {
        &self.world_clocks
    }

    /// Where the calendar column starts.
    pub fn calendar_col_x(&self, m: &DateMeasure) -> (x: i128)
        ensures
            x == m.col_x(),
    {
        LIST_PAD + m.list.list_w as i128 + LIST_PAD_R + LIST_BORDER_R + LIST_MARGIN_R
            + COLUMN_MARGIN_L
    }

    /// The calendar's own box.
    pub fn calendar_box(&self, m: &DateMeasure) -> (whole: Area)
        ensures
            whole == self.cal(*m),
    {
        self.calendar.layout(m.cal).bounds()
    }

    fn room_for(&self, section: i128, used: i128) -> (h: i128)
        requires
            -FAR <= section <= FAR,
            -FAR <= used <= FAR,
        ensures
            h == self.room(section as int, used as int),
    {
        match self.available_h {
            Some(available) => {
                let left: i128 = available as i128 - used;
                let left: i128 = if left < 0 {
                    0
                } else {
                    left
                };
                if section < left {
                    section
                } else {
                    left
                }
            },
            None => section,
        }
    }

    /// The Events card's height.
    pub fn events_card_h(&self, m: &DateMeasure) -> (h: i128)
        requires
            m.good(),
        ensures
            h == self.events_card(*m),
    {
        let n: i128 = self.events.rows.len() as i128;
        proof {
            self.lemma_rows();
            self.lemma_bounds(*m);
        }
        let rows: i128 = if n == 0 {
            m.title_h as i128
        } else {
            n * (m.summary_h as i128 + EVENT_BOX_GAP + m.time_h as i128) + (n - 1) * EVENTS_LIST_GAP
        };
        m.title_h as i128 + EVENTS_TITLE_PB + rows + 2 * (EVENTS_CARD_PAD + EVENTS_CARD_BORDER)
    }

    /// The height the Events section gets: none while it is hidden or has no room.
    pub fn events_alloc_h(&self, m: &DateMeasure) -> (h: i128)
        requires
            m.good(),
        ensures
            h == self.events_alloc(*m),
            0 <= h <= 2 * BIG,
    {
        proof {
            self.lemma_rows();
            self.lemma_bounds(*m);
        }
        if !self.events.visible {
            return 0;
        }
        self.room_for(
            self.events_card_h(m) + 2 * EVENTS_MARGIN,
            self.calendar_box(m).h + EVENTS_GAP + LIST_PAD,
        )
    }

    /// What the Events section adds to the column.
    pub fn events_height(&self, m: &DateMeasure) -> (h: i128)
        requires
            m.good(),
        ensures
            h == self.events_h(*m),
    {
        let alloc: i128 = self.events_alloc_h(m);
        if alloc > 0 {
            EVENTS_GAP + alloc
        } else {
            0
        }
    }

    /// The World Clocks card's height.
    pub fn world_clocks_card_h(&self, m: &DateMeasure) -> (h: i128)
        requires
            m.good(),
        ensures
            h == self.clocks_card(*m),
    {
        let n: i128 = self.world_clocks.rows.len() as i128;
        proof {
            self.lemma_rows();
            self.lemma_bounds(*m);
        }
        let rows: i128 = if n == 0 {
            0
        } else {
            WC_ROW_GAP + n * (m.clock_row_h as i128) + (n - 1) * WC_ROW_GAP
        };
        m.clock_header_h as i128 + rows + 2 * (EVENTS_CARD_PAD + EVENTS_CARD_BORDER)
    }

    /// The height the World Clocks section gets: none while it is hidden or has no room.
    pub fn world_clocks_alloc_h(&self, m: &DateMeasure) -> (h: i128)
        requires
            m.good(),
        ensures
            h == self.clocks_alloc(*m),
            0 <= h <= 2 * BIG,
    {
        proof {
            self.lemma_rows();
            self.lemma_bounds(*m);
        }
        if !self.world_clocks.visible {
            return 0;
        }
        self.room_for(
            self.world_clocks_card_h(m) + 2 * EVENTS_MARGIN,
            self.calendar_box(m).h + self.events_height(m) + EVENTS_GAP + LIST_PAD,
        )
    }

    /// What the World Clocks section adds to the column.
    pub fn world_clocks_height(&self, m: &DateMeasure) -> (h: i128)
        requires
            m.good(),
        ensures
            h == self.clocks_h(*m),
    {
        let alloc: i128 = self.world_clocks_alloc_h(m);
        if alloc > 0 {
            EVENTS_GAP + alloc
        } else {
            0
        }
    }

    /// The sections' rows can be counted.
    pub proof fn lemma_rows(&self)
        ensures
            self.events.rows@.len() <= u64::MAX,
            self.world_clocks.rows@.len() <= u64::MAX,
    {
        assert(self.events.rows.len() == self.events.rows@.len());
        assert(self.world_clocks.rows.len() == self.world_clocks.rows@.len());
    }

    /// A card of the column whose section starts at `top` and is `alloc` tall.
    fn card_at(&self, m: &DateMeasure, top: i128, alloc: i128) -> (card: Area)
        requires
            m.good(),
            0 <= top <= 8 * BIG,
            0 <= alloc <= 2 * BIG,
        ensures
            self.is_card(*m, card, top as int, alloc as int),
            0 <= m.list.list_w <= MAX_LEN ==> card.near(),
    {
        proof {
            self.lemma_rows();
            self.lemma_bounds(*m);
        }
        let w: i128 = self.calendar_box(m).w - 2 * EVENTS_MARGIN;
        let h: i128 = alloc - 2 * EVENTS_MARGIN;
        Area {
            x: self.calendar_col_x(m) + EVENTS_MARGIN,
            y: top + EVENTS_MARGIN,
            w: if w < 0 {
                0
            } else {
                w
            },
            h: if h < 0 {
                0
            } else {
                h
            },
        }
    }

    /// The Events card, while the section shows. A click anywhere on it launches the calendar
    /// app.
    pub fn events_rect(&self, m: &DateMeasure) -> (card: Option<Area>)
        requires
            m.good(),
        ensures
            card is Some <==> self.events_alloc(*m) > 0,
            card matches Some(area) ==> self.is_card(
                *m,
                area,
                self.cal(*m).h + EVENTS_GAP,
                self.events_alloc(*m),
            ),
            card matches Some(area) ==> (0 <= m.list.list_w <= MAX_LEN ==> area.near()),
    {
        let alloc: i128 = self.events_alloc_h(m);
        if alloc <= 0 {
            return None;
        }
        proof {
            self.lemma_rows();
            self.lemma_bounds(*m);
        }
        Some(self.card_at(m, self.calendar_box(m).h + EVENTS_GAP, alloc))
    }

    /// The World Clocks card, while the section shows. A click anywhere on it launches the
    /// clocks app.
    pub fn world_clocks_rect(&self, m: &DateMeasure) -> (card: Option<Area>)
        requires
            m.good(),
        ensures
            card is Some <==> self.clocks_alloc(*m) > 0,
            card matches Some(area) ==> self.is_card(
                *m,
                area,
                self.cal(*m).h + self.events_h(*m) + EVENTS_GAP,
                self.clocks_alloc(*m),
            ),
            card matches Some(area) ==> (0 <= m.list.list_w <= MAX_LEN ==> area.near()),
    {
        let alloc: i128 = self.world_clocks_alloc_h(m);
        if alloc <= 0 {
            return None;
        }
        proof {
            self.lemma_rows();
            self.lemma_bounds(*m);
        }
        Some(
            self.card_at(m, self.calendar_box(m).h + self.events_height(m) + EVENTS_GAP, alloc),
        )
    }

    /// Take the most height there is.
    pub fn set_available_height(&mut self, available_h: i64)
        ensures
            *final(self) == (DateMenu { available_h: Some(available_h), ..*old(self) }),
    {
        self.available_h = Some(available_h);
    }

    /// The popover's size.
    pub fn logical_size(&self, m: &DateMeasure) -> (size: (i128, i128))
        requires
            self.measured(*m),
        ensures
            size.0 == m.col_x() + self.cal(*m).w + LIST_PAD,
            size.1 == self.height(*m),
            0 <= size.1 <= FAR,
    {
        proof {
            self.lemma_rows();
            self.lemma_bounds(*m);
        }
        let cal = self.calendar_box(m);
        let column_h: i128 = cal.h + self.events_height(m) + self.world_clocks_height(m) + LIST_PAD;
        let list_h: i128 = self.list.natural_height(&m.list);
        let natural: i128 = if column_h < list_h {
            list_h
        } else {
            column_h
        };
        let h: i128 = match self.available_h {
            Some(available) => {
                let cap: i128 = if (available as i128) < column_h {
                    column_h
                } else {
                    available as i128
                };
                if natural < cap {
                    natural
                } else {
                    cap
                }
            },
            None => natural,
        };
        (self.calendar_col_x(m) + cal.w + LIST_PAD, h)
    }

    /// The popover's corner radius, in logical pixels.
    pub fn corner_radius(&self) -> (radius: u32)
        ensures
            radius == BOX_RADIUS,
    {
        BOX_RADIUS
    }

    pub fn list(&self) -> (list: &CalendarMessageList)
        ensures
            *list == self.list,
    {
        &self.list
    }

    /// Take the players, the newest first. Returns whether that is a change.
    pub fn set_media_players(&mut self, players: Vec<MediaCardContent>) -> (changed: bool)
        ensures
            old(self).only_list(*final(self)),
            changed == (player_views(players@) != old(self).list@.players),
            final(self).list@ == if changed {
                (ListView {
                    players: player_views(players@),
                    hovered: None,
                    ..old(self).list@
                }).bumped()
            } else {
                old(self).list@
            },
    {
        self.list.set_players(players)
    }

    /// Take the notifications. Returns whether that is a change.
    pub fn set_notifications(&mut self, groups: Vec<CardGroup>) -> (changed: bool)
        ensures
            old(self).only_list(*final(self)),
            changed == (group_views(groups@) != old(self).list@.groups),
            final(self).list@ == if changed {
                old(self).list@.with_groups(group_views(groups@))
            } else {
                old(self).list@
            },
    {
        self.list.set_groups(groups)
    }

    /// An album-art load landed. Returns whether the list shows it.
    pub fn note_art_decoded(&mut self, source: &str) -> (changed: bool)
        ensures
            old(self).only_list(*final(self)),
            changed == exists|p: int|
                0 <= p < old(self).list@.players.len() && (
                #[trigger] old(self).list@.players[p]).art == Some(source@),
            final(self).list@ == if changed {
                old(self).list@.bumped()
            } else {
                old(self).list@
            },
    {
        self.list.note_art_decoded(source)
    }

    /// Carry out a click's hit in the list.
    pub fn list_click(&mut self, hit: Option<ListHit>) -> (action: PopoverAction)
        ensures
            old(self).only_list(*final(self)),
            final(self).list@ == list_after(
                old(self).list@,
                crate::message_layout::hit_view(hit),
            ),
            action@ == action_of(crate::message_layout::hit_view(hit)),
    {
        match hit {
            Some(ListHit::Close(id)) => PopoverAction::CloseNotification(id),
            Some(ListHit::ToggleExpand(id)) => {
                self.list.toggle_body_expanded(id);
                PopoverAction::Consumed
            },
            Some(ListHit::Action { id, key }) => PopoverAction::InvokeNotificationAction {
                notification: id,
                key,
            },
            Some(ListHit::Body { id, has_default }) => PopoverAction::ActivateNotification {
                notification: id,
                has_default,
            },
            Some(ListHit::ExpandGroup(key)) => {
                self.list.toggle_group(key);
                PopoverAction::Consumed
            },
            Some(ListHit::CollapseGroup) => {
                self.list.collapse_group();
                PopoverAction::Consumed
            },
            Some(ListHit::CloseGroup(ids)) => PopoverAction::CloseNotificationGroup(ids),
            Some(ListHit::Clear) => PopoverAction::ClearNotifications,
            Some(ListHit::MediaControl { bus_name, control }) => PopoverAction::MediaControl {
                bus_name,
                control,
            },
            Some(ListHit::MediaBody(bus_name)) => PopoverAction::RaiseMediaPlayer(bus_name),
            None => PopoverAction::Consumed,
        }
    }

    fn over(&self, card: &Option<Area>, x: i64, y: i64) -> (over: bool)
        requires
            card matches Some(area) ==> area.near(),
        ensures
            over == (card matches Some(area) && area.has(x as int, y as int)),
    {
        match card {
            Some(area) => area.contains(x as i128, y as i128),
            None => false,
        }
    }

    /// A click at a point of the popover: the list's, a card's, or the calendar's. The popover
    /// keeps every click.
    pub fn pointer_click(&mut self, m: &DateMeasure, x: i64, y: i64) -> (action: PopoverAction)
        requires
            old(self).measured(*m),
            old(self).calendar.wf(),
        ensures
            ({
                let was = *old(self);
                let now = *final(self);
                let spot = was.list@.spot(m.list, was.height(*m), x as int, y as int);
                if x < m.col_x() {
                    &&& was.only_list(now)
                    &&& now.list@ == list_after(was.list@, was.list@.hit_of(spot))
                    &&& action@ == action_of(was.list@.hit_of(spot))
                } else if was.on_events(*m, x as int, y as int) {
                    now == was && action@ == ActionView::Spawn(
                        seq!["gtk-launch"@, "org.gnome.Calendar"@],
                    )
                } else if was.on_clocks(*m, x as int, y as int) {
                    now == was && action@ == ActionView::Spawn(
                        seq!["gtk-launch"@, "org.gnome.clocks"@],
                    )
                } else {
                    &&& now == (DateMenu { calendar: now.calendar, ..was })
                    &&& exists|hit: bool|
                        #[trigger] was.calendar.clicked(
                            m.cal,
                            x - m.col_x(),
                            y as int,
                            hit,
                            now.calendar,
                        )
                    &&& action@ == ActionView::Consumed
                }
            }),
            // The cards close the popover; any other click in their column leaves it up.
            x >= m.col_x() ==> action@.closes() == Some(
                old(self).on_events(*m, x as int, y as int) || old(self).on_clocks(
                    *m,
                    x as int,
                    y as int,
                ),
            ),
    {
        let size = self.logical_size(m);
        let col_x: i128 = self.calendar_col_x(m);
        if (x as i128) < col_x {
            let hit = self.list.hit(&m.list, size.1, x, y);
            return self.list_click(hit);
        }
        let events = self.events_rect(m);
        if self.over(&events, x, y) {
            return launch("org.gnome.Calendar");
        }
        let clocks = self.world_clocks_rect(m);
        if self.over(&clocks, x, y) {
            return launch("org.gnome.clocks");
        }
        let left: i64 = (x as i128 - col_x) as i64;
        let _ = self.calendar.pointer_click(m.cal, left, y);
        PopoverAction::Consumed
    }

    /// Follow the pointer; `None` once it left. Only what it is over lights up: something in
    /// the list, a card of the calendar column, or a region of the calendar. Returns whether
    /// anything changed.
    pub fn pointer_hover(&mut self, m: &DateMeasure, pos: Option<(i64, i64)>) -> (changed: bool)
        requires
            old(self).measured(*m),
        ensures
            ({
                let was = *old(self);
                let now = *final(self);
                let to = was.hover_targets(*m, pos);
                let list_hover = was.list@.hover_at(m.list, was.height(*m), to.0);
                &&& now.list@ == was.list@.hovering(list_hover)
                &&& was.calendar.pointed(
                    m.cal,
                    to.1,
                    now.calendar.hovered != was.calendar.hovered,
                    now.calendar,
                )
                &&& now.events_hovered == (pos matches Some(at) && was.on_events(
                    *m,
                    at.0 as int,
                    at.1 as int,
                ))
                &&& now.world_clocks_hovered == (pos matches Some(at) && was.on_clocks(
                    *m,
                    at.0 as int,
                    at.1 as int,
                ))
                &&& now == (DateMenu {
                    list: now.list,
                    calendar: now.calendar,
                    events_hovered: now.events_hovered,
                    world_clocks_hovered: now.world_clocks_hovered,
                    ..was
                })
                &&& changed == (list_hover != was.list@.hovered || now.calendar.hovered
                    != was.calendar.hovered || now.events_hovered != was.events_hovered
                    || now.world_clocks_hovered != was.world_clocks_hovered)
            }),
    {
        let size = self.logical_size(m);
        let col_x: i128 = self.calendar_col_x(m);
        let events = self.events_rect(m);
        let clocks = self.world_clocks_rect(m);
        let mut over_events = false;
        let mut over_clocks = false;
        let mut list_pos: Option<(i64, i64)> = None;
        let mut cal_pos: Option<(i64, i64)> = None;
        if let Some((x, y)) = pos {
            over_events = self.over(&events, x, y);
            over_clocks = self.over(&clocks, x, y);
            if (x as i128) < col_x {
                list_pos = Some((x, y));
            } else if !over_events && !over_clocks {
                cal_pos = Some(((x as i128 - col_x) as i64, y));
            }
        }
        let list_changed = self.list.hover(&m.list, size.1, list_pos);
        let cal_changed = self.calendar.hover(m.cal, cal_pos);
        let events_changed = self.events_hovered != over_events;
        let clocks_changed = self.world_clocks_hovered != over_clocks;
        self.events_hovered = over_events;
        self.world_clocks_hovered = over_clocks;
        list_changed || cal_changed || events_changed || clocks_changed
    }

    /// Where the pointer is for the list and for the calendar: for one of them at most.
    pub open spec fn hover_targets(&self, m: DateMeasure, pos: Option<(i64, i64)>) -> (
        Option<(i64, i64)>,
        Option<(i64, i64)>,
    ) {
        match pos {
            Some(at) => if at.0 < m.col_x() {
                (pos, None)
            } else if self.on_events(m, at.0 as int, at.1 as int) || self.on_clocks(
                m,
                at.0 as int,
                at.1 as int,
            ) {
                (None, None)
            } else {
                (None, Some(((at.0 - m.col_x()) as i64, at.1)))
            },
            None => (None, None),
        }
    }

    /// A wheel: over the list it scrolls by that much, over the calendar it pages the month.
    /// Returns whether anything moved.
    pub fn scroll(&mut self, m: &DateMeasure, x: i64, delta: i64) -> (moved: bool)
        requires
            old(self).measured(*m),
            can_step(old(self).calendar.year, old(self).calendar.month),
        ensures
            ({
                let was = *old(self);
                let now = *final(self);
                let h = was.height(*m);
                if x < m.col_x() {
                    &&& was.only_list(now)
                    &&& now.list@ == (ListView { scroll: now.list@.scroll, ..was.list@ })
                    &&& now.list@.scroll == crate::message_layout::within(
                        was.list@.scrolled(m.list, h) + delta,
                        was.list@.max_scroll(m.list, h),
                    )
                    &&& moved == (now.list@.scroll != was.list@.scrolled(m.list, h))
                } else {
                    &&& now == (DateMenu { calendar: now.calendar, ..was })
                    &&& moved == (delta != 0)
                    &&& delta == 0 ==> now == was
                    &&& delta < 0 ==> was.calendar.shifted(-1, now.calendar)
                    &&& delta > 0 ==> was.calendar.shifted(1, now.calendar)
                }
            }),
    {
        if (x as i128) < self.calendar_col_x(m) {
            let size = self.logical_size(m);
            self.list.scroll_by(&m.list, delta, size.1)
        } else {
            let sign: i32 = if delta < 0 {
                -1
            } else if delta > 0 {
                1
            } else {
                0
            };
            self.calendar.scroll(sign)
        }
    }

    /// The Clear pill, while there is something to clear.
    pub fn clear_pill_rect(&self, m: &DateMeasure) -> (pill: Option<Area>)
        requires
            self.measured(*m),
        ensures
            pill is Some <==> self.list@.groups.len() > 0,
            pill matches Some(area) ==> {
                &&& area.x == LIST_PAD + CONTROLS_PAD
                &&& area.y == self.height(*m) - CONTROLS_PAD_B - CLEAR_H
                &&& area.w == m.list.clear_w
                &&& area.h == CLEAR_H
            },
    {
        let size = self.logical_size(m);
        self.list.clear_rect(&m.list, size.1)
    }
}

/// A card of the list, and its close button.
#[derive(Clone, Copy, Debug, PartialEq, Eq, Structural)]
pub struct CardRects {
    pub id: u32,
    pub card: Area,
    pub close: Area,
}

impl DateMenu {
    /// The list's cards that are on the screen and take clicks of their own.
    pub open spec fn shown(&self, m: DateMeasure) -> Seq<(int, int)> {
        self.list@.shown_cards(m.list, self.height(m), self.list@.groups.len() as int)
    }

    /// The measured card.
    pub open spec fn measure_of(&self, m: DateMeasure, at: (int, int)) -> CardLayout {
        m.list.groups@[at.0].cards@[at.1]
    }

    /// Which of the shown cards are of this notification.
    pub open spec fn shows_id(&self, m: DateMeasure, id: u32) -> spec_fn(int) -> bool {
        |i: int|
            self.list@.groups[self.shown(m)[i].0].cards[self.shown(m)[i].1].id == id
    }

    /// The first shown card of a notification.
    pub open spec fn first_shown(&self, m: DateMeasure, id: u32) -> int {
        first_where(self.shown(m).len() as int, self.shows_id(m, id), 0)
    }

    fn shown_cards(&self, m: &DateMeasure) -> (cards: Vec<ShownCard>)
        requires
            self.measured(*m),
        ensures
            cards@.len() == self.shown(*m).len(),
            forall|i: int|
                0 <= i < cards@.len() ==> {
                    &&& self.list@.is_shown(
                        m.list,
                        self.height(*m),
                        self.shown(*m)[i],
                        #[trigger] cards@[i],
                    )
                    &&& cards@[i].g < self.list@.groups.len()
                    &&& cards@[i].c < self.list@.groups[cards@[i].g as int].cards.len()
                    &&& cards@[i].card.near()
                },
    {
        let size = self.logical_size(m);
        let cards = self.list.visible_interactive_cards(&m.list, size.1);
        proof {
            assert forall|i: int| 0 <= i < cards@.len() implies ({
                &&& self.list@.is_shown(
                    m.list,
                    self.height(*m),
                    self.shown(*m)[i],
                    #[trigger] cards@[i],
                )
                &&& cards@[i].g < self.list@.groups.len()
                &&& cards@[i].c < self.list@.groups[cards@[i].g as int].cards.len()
                &&& cards@[i].card.near()
            }) by {
                let n = self.list@.groups.len() as int;
                self.list@.lemma_shown_in_range(m.list, self.height(*m), n, i);
                let at = self.shown(*m)[i];
                self.list@.lemma_card_reach(m.list, self.height(*m), at.0, at.1);
            }
        }
        cards
    }

    /// The cards of single notifications and of the fanned-out group that are on the screen.
    pub fn card_rects(&self, m: &DateMeasure) -> (rects: Vec<CardRects>)
        requires
            self.measured(*m),
        ensures
            rects@.len() == self.shown(*m).len(),
            forall|i: int|
                0 <= i < rects@.len() ==> {
                    let at = self.shown(*m)[i];
                    &&& (#[trigger] rects@[i]).id == self.list@.groups[at.0].cards[at.1].id
                    &&& rects@[i].card.x == LIST_PAD
                    &&& rects@[i].card.y == self.list@.card_y(m.list, self.height(*m), at.0, at.1)
                    &&& rects@[i].card.w == m.list.card_w()
                    &&& rects@[i].card.h == self.measure_of(*m, at).h
                    &&& is_moved(
                        rects@[i].close,
                        self.measure_of(*m, at).close,
                        LIST_PAD as int,
                        rects@[i].card.y as int,
                    )
                },
    {
        let cards = self.shown_cards(m);
        let mut rects: Vec<CardRects> = Vec::new();
        let mut i: usize = 0;
        while i < cards.len()
            invariant
                i <= cards@.len(),
                self.measured(*m),
                rects@.len() == i,
                cards@.len() == self.shown(*m).len(),
                forall|i: int|
                    0 <= i < cards@.len() ==> {
                        &&& self.list@.is_shown(
                            m.list,
                            self.height(*m),
                            self.shown(*m)[i],
                            #[trigger] cards@[i],
                        )
                        &&& cards@[i].g < self.list@.groups.len()
                        &&& cards@[i].c < self.list@.groups[cards@[i].g as int].cards.len()
                        &&& cards@[i].card.near()
                    },
                forall|i: int|
                    0 <= i < rects@.len() ==> {
                        let at = self.shown(*m)[i];
                        &&& (#[trigger] rects@[i]).id == self.list@.groups[at.0].cards[at.1].id
                        &&& rects@[i].card.x == LIST_PAD
                        &&& rects@[i].card.y == self.list@.card_y(
                            m.list,
                            self.height(*m),
                            at.0,
                            at.1,
                        )
                        &&& rects@[i].card.w == m.list.card_w()
                        &&& rects@[i].card.h == self.measure_of(*m, at).h
                        &&& is_moved(
                            rects@[i].close,
                            self.measure_of(*m, at).close,
                            LIST_PAD as int,
                            rects@[i].card.y as int,
                        )
                    },
            decreases cards@.len() - i,
        {
            let shown = cards[i];
            proof {
                assert(cards@[i as int].card.near());
                assert(m.list.groups@[shown.g as int].cards@.len()
                    == self.list@.groups[shown.g as int].cards.len());
                assert(m.list.groups@[shown.g as int].cards@[shown.c as int].good());
            }
            let close = &m.list.groups[shown.g].cards[shown.c].close;
            rects.push(
                CardRects {
                    id: shown.id,
                    card: shown.card,
                    close: moved(close, shown.card.x, shown.card.y),
                },
            );
            i = i + 1;
        }
        rects
    }

    /// The first shown card of a notification.
    fn find_shown(&self, m: &DateMeasure, id: u32) -> (shown: Option<ShownCard>)
        requires
            self.measured(*m),
        ensures
            match shown {
                Some(card) => {
                    let i = self.first_shown(*m, id);
                    &&& 0 <= i < self.shown(*m).len()
                    &&& self.list@.is_shown(m.list, self.height(*m), self.shown(*m)[i], card)
                    &&& card.g < self.list@.groups.len()
                    &&& card.c < self.list@.groups[card.g as int].cards.len()
                    &&& card.card.near()
                },
                None => self.first_shown(*m, id) == self.shown(*m).len(),
            },
    {
        let cards = self.shown_cards(m);
        let ghost n = cards@.len() as int;
        let ghost wanted = self.shows_id(*m, id);
        let mut i: usize = 0;
        while i < cards.len()
            invariant
                i <= cards@.len(),
                n == cards@.len(),
                n == self.shown(*m).len(),
                wanted == self.shows_id(*m, id),
                forall|i: int|
                    0 <= i < cards@.len() ==> {
                        &&& self.list@.is_shown(
                            m.list,
                            self.height(*m),
                            self.shown(*m)[i],
                            #[trigger] cards@[i],
                        )
                        &&& cards@[i].g < self.list@.groups.len()
                        &&& cards@[i].c < self.list@.groups[cards@[i].g as int].cards.len()
                        &&& cards@[i].card.near()
                    },
                first_where(n, wanted, 0) == first_where(n, wanted, i as int),
            decreases cards@.len() - i,
        {
            assert(self.list@.is_shown(
                m.list,
                self.height(*m),
                self.shown(*m)[i as int],
                cards@[i as int],
            ));
            assert(wanted(i as int) == (cards@[i as int].id == id));
            if cards[i].id == id {
                return Some(cards[i]);
            }
            i = i + 1;
        }
        None
    }

    /// The caret of a shown card, while there is more to fold out.
    pub fn card_expand_rect(&self, m: &DateMeasure, id: u32) -> (caret: Option<Area>)
        requires
            self.measured(*m),
        ensures
            ({
                let i = self.first_shown(*m, id);
                let at = self.shown(*m)[i];
                let card = self.measure_of(*m, at);
                &&& caret is Some <==> i < self.shown(*m).len() && card.can_expand && card.expand
                    is Some
                &&& caret matches Some(area) ==> is_moved(
                    area,
                    card.expand->Some_0,
                    LIST_PAD as int,
                    self.list@.card_y(m.list, self.height(*m), at.0, at.1),
                )
            }),
    {
        match self.find_shown(m, id) {
            Some(shown) => {
                proof {
                    assert(m.list.groups@[shown.g as int].cards@.len()
                        == self.list@.groups[shown.g as int].cards.len());
                    assert(m.list.groups@[shown.g as int].cards@[shown.c as int].good());
                }
                let card = &m.list.groups[shown.g].cards[shown.c];
                match &card.expand {
                    Some(caret) => if card.can_expand {
                        Some(moved(caret, shown.card.x, shown.card.y))
                    } else {
                        None
                    },
                    None => None,
                }
            },
            None => None,
        }
    }

    /// The action buttons of a shown card.
    pub fn card_action_rects(&self, m: &DateMeasure, id: u32) -> (buttons: Vec<Area>)
        requires
            self.measured(*m),
        ensures
            ({
                let i = self.first_shown(*m, id);
                let at = self.shown(*m)[i];
                let card = self.measure_of(*m, at);
                if i < self.shown(*m).len() {
                    &&& buttons@.len() == card.actions@.len()
                    &&& forall|a: int|
                        0 <= a < buttons@.len() ==> is_moved(
                            #[trigger] buttons@[a],
                            card.actions@[a],
                            LIST_PAD as int,
                            self.list@.card_y(m.list, self.height(*m), at.0, at.1),
                        )
                } else {
                    buttons@.len() == 0
                }
            }),
    {
        let mut buttons: Vec<Area> = Vec::new();
        match self.find_shown(m, id) {
            Some(shown) => {
                proof {
                    assert(m.list.groups@[shown.g as int].cards@.len()
                        == self.list@.groups[shown.g as int].cards.len());
                    assert(m.list.groups@[shown.g as int].cards@[shown.c as int].good());
                }
                let card = &m.list.groups[shown.g].cards[shown.c];
                let mut a: usize = 0;
                while a < card.actions.len()
                    invariant
                        a <= card.actions@.len(),
                        card.good(),
                        shown.card.near(),
                        buttons@.len() == a,
                        forall|b: int|
                            0 <= b < a ==> is_moved(
                                #[trigger] buttons@[b],
                                card.actions@[b],
                                shown.card.x as int,
                                shown.card.y as int,
                            ),
                    decreases card.actions@.len() - a,
                {
                    assert(card.actions@[a as int].near());
                    buttons.push(moved(&card.actions[a], shown.card.x, shown.card.y));
                    a = a + 1;
                }
            },
            None => {},
        }
        buttons
    }

    /// The media cards on the screen.
    pub fn media_card_rects(&self, m: &DateMeasure) -> (rects: Vec<MediaCardRects>)
        requires
            self.measured(*m),
        ensures
            self.list@.is_media_rects(m.list, self.height(*m), rects@),
    {
        let size = self.logical_size(m);
        self.list.visible_media_cards(&m.list, size.1)
    }

    /// The groups on the screen.
    pub fn group_rects(&self, m: &DateMeasure) -> (rects: Vec<GroupRect>)
        requires
            self.measured(*m),
        ensures
            self.list@.is_group_rects(m.list, self.height(*m), rects@),
    {
        let size = self.logical_size(m);
        self.list.visible_groups(&m.list, size.1)
    }

    /// The close button of a source's stack, if that is on the screen.
    pub fn stack_close_rect(&self, m: &DateMeasure, key: &SourceKey) -> (close: Option<Area>)
        requires
            self.measured(*m),
        ensures
            self.list@.is_stack_close(m.list, self.height(*m), key@, close),
    {
        let size = self.logical_size(m);
        self.list.stack_close_rect(&m.list, key, size.1)
    }

    /// The button that collapses a source's fanned-out group, if that is on the screen.
    pub fn group_collapse_rect(&self, m: &DateMeasure, key: &SourceKey) -> (button: Option<Area>)
        requires
            self.measured(*m),
        ensures
            self.list@.is_collapse_button(m.list, self.height(*m), key@, button),
    {
        let size = self.logical_size(m);
        self.list.group_collapse_rect(&m.list, key, size.1)
    }

    /// The popover never cuts the calendar, and is no taller than what is available where that
    /// is enough for the calendar and the inset below it; with less, it is just these.
    pub proof fn law_height_is_capped(&self, m: DateMeasure)
        requires
            self.measured(m),
        ensures
            self.cal(m).h + LIST_PAD <= self.column_h(m) <= self.height(m),
            self.available_h matches Some(available) ==> self.height(m) <= at_least(
                available as int,
                self.cal(m).h + LIST_PAD,
            ),
    {
        self.lemma_rows();
        self.lemma_bounds(m);
    }

    /// With enough height the popover is as tall as its taller column, and the list does not
    /// scroll.
    pub proof fn law_fits_without_scrolling(&self, m: DateMeasure)
        requires
            self.measured(m),
            self.available_h matches Some(available) ==> available >= LIST_PAD
                + self.list@.content_h(m.list) + self.list@.controls_h(),
        ensures
            self.height(m) == at_least(
                self.column_h(m),
                LIST_PAD + self.list@.content_h(m.list) + self.list@.controls_h(),
            ),
            self.list@.max_scroll(m.list, self.height(m)) == 0,
    {
    }

    /// A hidden section adds nothing to the column, and one that shows with room for it adds
    /// its card, its margins and the gap above it.
    pub proof fn law_sections_grow_the_column(&self, m: DateMeasure)
        requires
            self.available_h is None,
        ensures
            self.column_h(m) == self.cal(m).h + LIST_PAD + (if self.events.visible
                && self.events_card(m) + 2 * EVENTS_MARGIN > 0 {
                EVENTS_GAP + self.events_card(m) + 2 * EVENTS_MARGIN
            } else {
                0
            }) + (if self.world_clocks.visible && self.clocks_card(m) + 2 * EVENTS_MARGIN > 0 {
                EVENTS_GAP + self.clocks_card(m) + 2 * EVENTS_MARGIN
            } else {
                0
            }),
    {
    }

    /// The two cards are apart: no point is on both.
    pub proof fn law_cards_are_apart(&self, m: DateMeasure, x: int, y: int)
        ensures
            !(self.on_events(m, x, y) && self.on_clocks(m, x, y)),
            self.on_events(m, x, y) || self.on_clocks(m, x, y) ==> x >= m.col_x() && y >= self.cal(
                m,
            ).h,
    {
    }
}

/// A click in the list's column is the list's, whatever it hits there; the calendar's column
/// knows nothing of it.
pub proof fn law_a_click_in_the_list_is_the_lists(
    menu: &mut DateMenu,
    other: &mut DateMenu,
    m: &DateMeasure,
    x: i64,
    y: i64,
    size: (i128, i128),
    column: i128,
    hit: Option<ListHit>,
    answered: PopoverAction,
    action: PopoverAction,
)
    requires
        old(menu).measured(*m),
        call_ensures(DateMenu::calendar_col_x, (&*old(menu), m), column),
        x < column,
        call_ensures(DateMenu::logical_size, (&*old(menu), m), size),
        call_ensures(CalendarMessageList::hit, (&old(menu).list, &m.list, size.1, x, y), hit),
        *old(other) == *old(menu),
        call_ensures(DateMenu::list_click, (other, hit), answered),
        call_ensures(DateMenu::pointer_click, (menu, m, x, y), action),
    ensures
        action@ == answered@,
        final(menu).list@ == final(other).list@,
        final(menu).calendar == old(menu).calendar,
        final(menu).events == old(menu).events,
        final(menu).world_clocks == old(menu).world_clocks,
{
}

/// A click on the Events card opens the calendar app, one on the World Clocks card the clocks
/// app; neither touches the menu. Anywhere else in the calendar's column it is the calendar's,
/// by the place in the column, and the list stays.
pub proof fn law_a_click_in_the_column_is_its_cards(
    menu: &mut DateMenu,
    m: &DateMeasure,
    x: i64,
    y: i64,
    column: i128,
    events: Option<Area>,
    clocks: Option<Area>,
    action: PopoverAction,
)
    requires
        old(menu).measured(*m),
        call_ensures(DateMenu::calendar_col_x, (&*old(menu), m), column),
        x >= column,
        call_ensures(DateMenu::events_rect, (&*old(menu), m), events),
        call_ensures(DateMenu::world_clocks_rect, (&*old(menu), m), clocks),
        call_ensures(DateMenu::pointer_click, (menu, m, x, y), action),
    ensures
        ({
            let on_events = events is Some && events->0.has(x as int, y as int);
            let on_clocks = clocks is Some && clocks->0.has(x as int, y as int);
            &&& on_events ==> action@ == ActionView::Spawn(
                seq!["gtk-launch"@, "org.gnome.Calendar"@],
            ) && *final(menu) == *old(menu)
            &&& !on_events && on_clocks ==> action@ == ActionView::Spawn(
                seq!["gtk-launch"@, "org.gnome.clocks"@],
            ) && *final(menu) == *old(menu)
            &&& !on_events && !on_clocks ==> action@ == ActionView::Consumed
        }),
        final(menu).list == old(menu).list,
        final(menu).events == old(menu).events,
        final(menu).world_clocks == old(menu).world_clocks,
{
}

/// What a click hit in the list is what it asks for, by the notification, the key and the
/// player that were hit; what folds and unfolds asks for nothing, and what asks for something
/// folds nothing.
pub proof fn law_a_hit_asks_for_what_was_hit(
    menu: &mut DateMenu,
    hit: Option<ListHit>,
    action: PopoverAction,
)
    requires
        call_ensures(DateMenu::list_click, (menu, hit), action),
    ensures
        hit matches Some(ListHit::Close(id)) ==> action@ == ActionView::CloseNotification(id),
        hit matches Some(ListHit::Action { id, key }) ==> action@
            == (ActionView::InvokeNotificationAction { notification: id, key: key@ }),
        hit matches Some(ListHit::Body { id, has_default }) ==> action@
            == (ActionView::ActivateNotification { notification: id, has_default }),
        hit matches Some(ListHit::CloseGroup(ids)) ==> action@
            == ActionView::CloseNotificationGroup(ids@),
        hit == Some(ListHit::Clear) ==> action@ == ActionView::ClearNotifications,
        hit matches Some(ListHit::MediaControl { bus_name, control }) ==> action@
            == (ActionView::MediaControl { bus_name: bus_name@, control }),
        hit matches Some(ListHit::MediaBody(bus_name)) ==> action@ == ActionView::RaiseMediaPlayer(
            bus_name@,
        ),
        hit is None ==> action@ == ActionView::Consumed,
        action@ != ActionView::Consumed ==> final(menu).list@ == old(menu).list@,
        final(menu).list@.groups == old(menu).list@.groups,
        final(menu).list@.players == old(menu).list@.players,
        final(menu).calendar == old(menu).calendar,
{
}

/// The wheel over the calendar pages the month and leaves the list; over the list it scrolls
/// the list and leaves the calendar.
pub proof fn law_the_wheel_is_the_columns(
    menu: &mut DateMenu,
    m: &DateMeasure,
    x: i64,
    delta: i64,
    column: i128,
    moved: bool,
)
    requires
        old(menu).measured(*m),
        1 <= old(menu).calendar.month <= 12,
        call_ensures(DateMenu::calendar_col_x, (&*old(menu), m), column),
        call_ensures(DateMenu::scroll, (menu, m, x, delta), moved),
    ensures
        x < column ==> final(menu).calendar == old(menu).calendar && final(menu).list@.groups
            == old(menu).list@.groups,
        x >= column ==> final(menu).list == old(menu).list,
        x >= column && delta > 0 && old(menu).calendar.month < 12 ==> {
            &&& moved
            &&& final(menu).calendar.month == old(menu).calendar.month + 1
            &&& final(menu).calendar.year == old(menu).calendar.year
        },
        x >= column && delta < 0 && old(menu).calendar.month > 1 ==> {
            &&& moved
            &&& final(menu).calendar.month == old(menu).calendar.month - 1
            &&& final(menu).calendar.year == old(menu).calendar.year
        },
        x >= column ==> final(menu).calendar.selected == old(menu).calendar.selected,
        delta == 0 && x >= column ==> !moved,
{
}

} // verus!
