//! The emoji picker: a search entry over a scrolling grid, with a rail of category tabs and a
//! skin-tone popover.
//!
//! Its glyphs and the editing of the search text belong to the caller, as do looking text up in
//! the emoji table and searching it: the picker takes what those give.

use vstd::prelude::*;

use crate::area::{Area, UNITS};
use crate::keys::Key;
use crate::picker_place::{
    tone_cols, whole_px, Place, CELL_SIDE, PANEL_W, RAIL_SIDE, REACH, TONE_PAD,
};
use crate::text::{copy_texts, same_text, views};

verus! {

/// The side of a grid cell, in logical pixels: the hit box, not the glyph.
pub const CELL: i64 = 40;

pub const COLS: usize = 9;

/// Visible rows. The grid scrolls; the panel does not resize.
pub const ROWS: usize = 6;

/// The rail's tabs: the recents, then one per group of the table.
pub const TABS: usize = 10;

/// A rail tab's width in logical pixels: the rail spans the grid.
pub const TAB_W: i64 = 36;

/// The rail's height in logical pixels.
pub const RAIL_H: i64 = 36;

/// Columns in the skin-tone popover.
pub const TONE_COLS: usize = 5;

/// One emoji: its spelling, its name, and its spellings in other skin tones.
pub struct Emoji {
    pub ch: String,
    pub name: String,
    pub tones: Vec<String>,
}

impl Emoji {
    /// Whether it comes in skin tones.
    pub fn has_tones(&self) -> (has: bool)
        ensures
            has == (self.tones@.len() > 0),
    {
        self.tones.len() > 0
    }
}

/// A run of the table's entries.
pub struct EmojiGroup {
    pub name: String,
    pub start: usize,
    pub end: usize,
}

/// The emoji there are, in display order, and how they fall into groups.
pub struct EmojiTable {
    pub entries: Vec<Emoji>,
    pub groups: Vec<EmojiGroup>,
}

/// One place in the grid: an entry of the table, and which of its skin-tone spellings this
/// place stands for. A tone spelling is not an entry of its own, and a recent is remembered
/// as the text it inserted, tone and all.
#[derive(Clone, Copy, Debug, PartialEq, Eq, Structural)]
pub struct Slot {
    pub at: usize,
    pub tone: Option<usize>,
}

/// What a place draws and inserts: its own tone wins, then the remembered one; a tone that
/// the emoji does not have leaves the plain form.
pub open spec fn spelled(table: EmojiTable, slot: Slot, default_tone: Option<usize>) -> Seq<char> {
    let emoji = table.entries@[slot.at as int];
    let tone = match slot.tone {
        Some(t) => Some(t),
        None => default_tone,
    };
    match tone {
        Some(t) if t < emoji.tones@.len() => emoji.tones@[t as int]@,
        _ => emoji.ch@,
    }
}

/// Where among its emoji's spellings a place's own is.
pub open spec fn spelled_at(table: EmojiTable, slot: Slot, default_tone: Option<usize>) -> usize {
    let tone = match slot.tone {
        Some(t) => Some(t),
        None => default_tone,
    };
    match tone {
        Some(t) if t < table.entries@[slot.at as int].tones@.len() => (t + 1) as usize,
        _ => 0,
    }
}

/// The spellings the tone popover offers for an entry: the plain form, then its tones.
pub open spec fn choices(table: EmojiTable, at: int) -> Seq<Seq<char>> {
    seq![table.entries@[at].ch@] + views(table.entries@[at].tones@)
}

impl Slot {
    pub fn plain(at: usize) -> (slot: Self)
        ensures
            slot == (Slot { at, tone: None }),
    {
        Slot { at, tone: None }
    }

    pub fn emoji<'a>(&self, table: &'a EmojiTable) -> (emoji: &'a Emoji)
        requires
            self.at < table.entries@.len(),
        ensures
            *emoji == table.entries@[self.at as int],
    {
        &table.entries[self.at]
    }

    /// What this place draws and inserts.
    pub fn text<'a>(&self, table: &'a EmojiTable, default_tone: Option<usize>) -> (text: &'a str)
        requires
            self.at < table.entries@.len(),
        ensures
            text@ == spelled(*table, *self, default_tone),
    {
        let emoji = self.emoji(table);
        let tone = match self.tone {
            Some(t) => Some(t),
            None => default_tone,
        };
        match tone {
            Some(t) => if t < emoji.tones.len() {
                emoji.tones[t].as_str()
            } else {
                emoji.ch.as_str()
            },
            None => emoji.ch.as_str(),
        }
    }
}

impl Slot {
    /// Where among its emoji's spellings this place's own is.
    fn place_in(&self, table: &EmojiTable, default_tone: Option<usize>) -> (at: usize)
        requires
            self.at < table.entries@.len(),
        ensures
            at == spelled_at(*table, *self, default_tone),
    {
        let tone = match self.tone {
            Some(t) => Some(t),
            None => default_tone,
        };
        match tone {
            Some(t) => if t < table.entries[self.at].tones.len() {
                t + 1
            } else {
                0
            },
            None => 0,
        }
    }
}

/// What a key on the open picker asked for.
#[derive(Debug, PartialEq, Eq)]
pub enum KeyOutcome {
    /// The picker used it, and it goes no further.
    Handled,
    /// The picker is closing; the key still goes no further.
    Close,
    /// Insert this text and close.
    Insert(String),
}

/// What the picker does with a key: it is done with it, or the search entry is to have it,
/// after which `edited` says what came of that.
#[derive(Debug, PartialEq, Eq)]
pub enum KeyStep {
    Done(KeyOutcome),
    Edit,
}

/// A key step by what it inserts.
pub enum StepView {
    Handled,
    Close,
    Insert(Seq<char>),
    Edit,
}

impl View for KeyStep {
    type V = StepView;

    open spec fn view(&self) -> StepView {
        match *self {
            KeyStep::Done(KeyOutcome::Handled) => StepView::Handled,
            KeyStep::Done(KeyOutcome::Close) => StepView::Close,
            KeyStep::Done(KeyOutcome::Insert(text)) => StepView::Insert(text@),
            KeyStep::Edit => StepView::Edit,
        }
    }
}

/// Unicode's white space.
pub open spec fn is_white(c: char) -> bool {
    let n = c as u32;
    ||| 0x9 <= n <= 0xd
    ||| n == 0x20
    ||| n == 0x85
    ||| n == 0xa0
    ||| n == 0x1680
    ||| 0x2000 <= n <= 0x200a
    ||| n == 0x2028
    ||| n == 0x2029
    ||| n == 0x202f
    ||| n == 0x205f
    ||| n == 0x3000
}

fn white(c: char) -> (is: bool)
    ensures
        is == is_white(c),
{
    let n = c as u32;
    (0x9 <= n && n <= 0xd) || n == 0x20 || n == 0x85 || n == 0xa0 || n == 0x1680 || (0x2000 <= n
        && n <= 0x200a) || n == 0x2028 || n == 0x2029 || n == 0x202f || n == 0x205f || n == 0x3000
}

/// Nothing but white space.
pub open spec fn is_blank(text: Seq<char>) -> bool {
    forall|i: int| 0 <= i < text.len() ==> is_white(#[trigger] text[i])
}

fn blank(text: &str) -> (is: bool)
    ensures
        is == is_blank(text@),
{
    let n: usize = text.unicode_len();
    let mut i: usize = 0;
    while i < n
        invariant
            n == text@.len(),
            i <= n,
            forall|j: int| 0 <= j < i ==> is_white(#[trigger] text@[j]),
        decreases n - i,
    {
        if !white(text.get_char(i)) {
            return false;
        }
        i = i + 1;
    }
    true
}

/// The slots that are there, in order.
pub open spec fn known(resolved: Seq<Option<Slot>>) -> Seq<Slot>
    decreases resolved.len(),
{
    if resolved.len() == 0 {
        Seq::empty()
    } else {
        match resolved.last() {
            Some(slot) => known(resolved.drop_last()).push(slot),
            None => known(resolved.drop_last()),
        }
    }
}

/// One plain slot for each of these entries.
pub open spec fn plain_slots(entries: Seq<usize>) -> Seq<Slot> {
    entries.map_values(|at: usize| Slot { at, tone: None })
}

/// One plain slot for every entry of a table of this length.
pub open spec fn all_slots(n: nat) -> Seq<Slot> {
    Seq::new(n, |i: int| Slot { at: i as usize, tone: None })
}

pub open spec fn clamp(x: int, lo: int, hi: int) -> int {
    if x < lo {
        lo
    } else if x > hi {
        hi
    } else {
        x
    }
}

/// The picker's state.
#[verifier::ext_equal]
pub struct PickerView {
    pub output: Option<u64>,
    pub place: Place,
    pub search: Seq<char>,
    pub view: Seq<Slot>,
    pub recents: Seq<Seq<char>>,
    pub on_recents: bool,
    pub selected: int,
    pub hovered: Option<usize>,
    pub hovered_tab: Option<usize>,
    pub first_row: int,
    pub tone: Option<(usize, usize)>,
    pub default_tone: Option<usize>,
    pub revision: u64,
}

impl PickerView {
    pub open spec fn bumped(self) -> PickerView {
        PickerView { revision: self.revision.wrapping_add(1), ..self }
    }

    /// How many rows the grid has, visible or not.
    pub open spec fn rows(self) -> int {
        (self.view.len() + COLS - 1) / (COLS as int)
    }

    /// The furthest the grid scrolls.
    pub open spec fn last_first_row(self) -> int {
        if self.rows() > ROWS {
            self.rows() - ROWS
        } else {
            0
        }
    }

    /// The grid for the search text and the latched tab. A search outranks the tab; a recent
    /// that the table cannot spell drops out of the grid, and not of the history.
    pub open spec fn rebuilt(
        self,
        entries: nat,
        matches: Seq<usize>,
        resolved: Seq<Option<Slot>>,
    ) -> PickerView {
        PickerView {
            view: if !is_blank(self.search) {
                plain_slots(matches)
            } else if self.on_recents {
                known(resolved)
            } else {
                all_slots(entries)
            },
            selected: 0,
            first_row: 0,
            ..self
        }
    }

    /// The selection moved by `delta` cells, clamped to the grid, with the grid scrolled just
    /// far enough to show it.
    pub open spec fn moved(self, delta: int) -> PickerView {
        if self.view.len() == 0 {
            self
        } else {
            let selected = clamp(self.selected + delta, 0, self.view.len() - 1);
            let row = selected / (COLS as int);
            PickerView {
                selected,
                first_row: if row < self.first_row {
                    row
                } else if row >= self.first_row + ROWS {
                    row + 1 - ROWS
                } else {
                    self.first_row
                },
                ..self
            }.bumped()
        }
    }

    /// The first entry of tab `tab`'s group, and the very first for the recents or a group
    /// that the table does not have.
    pub open spec fn tab_start(table: EmojiTable, tab: int) -> int {
        if 1 <= tab <= table.groups@.len() {
            table.groups@[tab - 1].start as int
        } else {
            0
        }
    }

    /// The picker once tab `tab` of the rail is jumped to. That clears the search, because
    /// the tabs index lists a search result is not in.
    pub open spec fn at_tab(
        self,
        table: EmojiTable,
        resolved: Seq<Option<Slot>>,
        tab: int,
    ) -> PickerView {
        let to_recents = tab == 0;
        let stale = to_recents != self.on_recents || self.search.len() > 0;
        let latched = PickerView { on_recents: to_recents, ..self };
        let listed = if stale {
            PickerView { search: Seq::empty(), ..latched }.rebuilt(
                table.entries@.len(),
                Seq::empty(),
                resolved,
            )
        } else {
            latched
        };
        let last = if listed.view.len() > 0 {
            listed.view.len() - 1
        } else {
            0
        };
        let start = PickerView::tab_start(table, tab);
        let selected = if start <= last {
            start
        } else {
            last
        };
        let row = selected / (COLS as int);
        PickerView {
            selected,
            first_row: if row <= listed.last_first_row() {
                row
            } else {
                listed.last_first_row()
            },
            tone: None,
            ..listed
        }.bumped()
    }

    /// The group that the selection is in, if the grid is the table's own order.
    pub open spec fn in_group(self, table: EmojiTable, group: int) -> bool {
        &&& self.search.len() == 0
        &&& !self.on_recents
        &&& self.selected < self.view.len()
        &&& 0 <= group < table.groups@.len()
        &&& holds_entry(table, group, self.view[self.selected].at)
        &&& forall|g: int|
            0 <= g < group ==> !holds_entry(table, g, self.view[self.selected].at)
    }

    /// The tab the rail latches.
    pub open spec fn latched(self, table: EmojiTable, tab: Option<usize>) -> bool {
        match tab {
            Some(t) => {
                &&& self.search.len() == 0
                &&& if self.on_recents {
                    t == 0
                } else {
                    t > 0 && self.in_group(table, t - 1)
                }
            },
            None => {
                ||| self.search.len() > 0
                ||| !self.on_recents && forall|g: int| !self.in_group(table, g)
            },
        }
    }
}

/// The group holds this entry.
pub open spec fn holds_entry(table: EmojiTable, group: int, at: usize) -> bool {
    table.groups@[group].start <= at < table.groups@[group].end
}

/// One drawn cell: what it shows, where in the visible grid, and how it is lit.
pub struct Cell {
    pub ch: String,
    pub slot: usize,
    pub selected: bool,
    pub hovered: bool,
}

/// How a cell or a tab is lit.
#[derive(Clone, Copy, Debug, PartialEq, Eq, Structural)]
pub enum Wash {
    Plain,
    Hovered,
    /// The latched tab: it reads stronger than a hovered one, and one tab can be both.
    Selected,
}

/// One drawn tab of the rail.
pub struct RailTab {
    pub label: &'static str,
    pub wash: Wash,
}

/// A tab's label: the recents' clock, and an emoji for each group.
pub open spec fn label_of_tab(tab: int) -> Seq<char> {
    if tab == 0 {
        "\u{1f552}"@
    } else if tab == 1 {
        "\u{1f642}"@
    } else if tab == 2 {
        "\u{1f44d}"@
    } else if tab == 3 {
        "\u{1f337}"@
    } else if tab == 4 {
        "\u{1f374}"@
    } else if tab == 5 {
        "\u{2708}\u{fe0f}"@
    } else if tab == 6 {
        "\u{1f3c3}"@
    } else if tab == 7 {
        "\u{1f514}"@
    } else if tab == 8 {
        "\u{2764}\u{fe0f}"@
    } else {
        "\u{1f6a9}"@
    }
}

/// A tab's label.
pub fn rail_label(tab: usize) -> (label: &'static str)
    requires
        tab < TABS,
    ensures
        label@ == label_of_tab(tab as int),
{
    match tab {
        0 => "\u{1f552}",
        1 => "\u{1f642}",
        2 => "\u{1f44d}",
        3 => "\u{1f337}",
        4 => "\u{1f374}",
        5 => "\u{2708}\u{fe0f}",
        6 => "\u{1f3c3}",
        7 => "\u{1f514}",
        8 => "\u{2764}\u{fe0f}",
        _ => "\u{1f6a9}",
    }
}

pub struct EmojiPicker {
    /// The output the picker was opened on, while it is open.
    pub output: Option<u64>,
    /// Where it was opened; meaningless while it is closed.
    pub place: Place,
    /// The text in the search entry.
    pub search: String,
    /// The grid's places, in display order.
    pub view: Vec<Slot>,
    /// The history, newest first, as the strings it inserted.
    pub recents: Vec<String>,
    /// The recents tab is showing.
    pub on_recents: bool,
    /// Position in `view`; meaningless when `view` is empty.
    pub selected: usize,
    pub hovered: Option<usize>,
    /// The rail tab under the pointer.
    pub hovered_tab: Option<usize>,
    /// First visible row of the grid.
    pub first_row: usize,
    /// The cell whose skin-tone popover is open, and the position selected inside it.
    pub tone: Option<(usize, usize)>,
    /// The tone last picked, applied to any toned emoji picked without opening the popover.
    pub default_tone: Option<usize>,
    pub revision: u64,
}

impl View for EmojiPicker {
    type V = PickerView;

    open spec fn view(&self) -> PickerView {
        PickerView {
            output: self.output,
            place: self.place,
            search: self.search@,
            view: self.view@,
            recents: views(self.recents@),
            on_recents: self.on_recents,
            selected: self.selected as int,
            hovered: self.hovered,
            hovered_tab: self.hovered_tab,
            first_row: self.first_row as int,
            tone: self.tone,
            default_tone: self.default_tone,
            revision: self.revision,
        }
    }
}

/// Every slot is an entry of the table.
pub open spec fn in_table(slots: Seq<Slot>, entries: nat) -> bool {
    forall|i: int| 0 <= i < slots.len() ==> (#[trigger] slots[i]).at < entries
}

/// Every resolved recent is an entry of the table.
pub open spec fn resolved_in_table(resolved: Seq<Option<Slot>>, entries: nat) -> bool {
    forall|i: int|
        0 <= i < resolved.len() ==> ((#[trigger] resolved[i]) matches Some(slot) ==> slot.at
            < entries)
}

proof fn lemma_known_in_table(resolved: Seq<Option<Slot>>, entries: nat)
    requires
        resolved_in_table(resolved, entries),
    ensures
        in_table(known(resolved), entries),
    decreases resolved.len(),
{
    if resolved.len() > 0 {
        let rest = resolved.drop_last();
        assert forall|i: int| 0 <= i < rest.len() implies ((#[trigger] rest[i]) matches Some(
            slot,
        ) ==> slot.at < entries) by {
            assert(rest[i] == resolved[i]);
        }
        lemma_known_in_table(rest, entries);
        assert(resolved.last() == resolved[resolved.len() - 1]);
    }
}

impl PickerView {
    /// The places are entries of the table; the selection is one of them; the scroll stays
    /// within them; and an open tone popover is on one that has tones, at one of its spellings.
    pub open spec fn wf(self, table: EmojiTable) -> bool {
        &&& in_table(self.view, table.entries@.len())
        &&& if self.view.len() > 0 {
            0 <= self.selected < self.view.len()
        } else {
            self.selected == 0
        }
        &&& 0 <= self.first_row && self.first_row * COLS <= self.view.len()
        &&& self.tone matches Some((index, at)) ==> self.toned_at(table, index as int) && at
            < self.tone_count(table)
        &&& self.place.good()
    }

    /// Place `index` is an emoji that comes in skin tones.
    pub open spec fn toned_at(self, table: EmojiTable, index: int) -> bool {
        &&& 0 <= index < self.view.len()
        &&& table.entries@[self.view[index].at as int].tones@.len() > 0
    }

    /// The picker with the tone popover up on place `index`, at the spelling that a plain pick
    /// would insert.
    pub open spec fn with_tones(self, table: EmojiTable, index: usize) -> PickerView {
        PickerView {
            tone: Some((index, spelled_at(table, self.view[index as int], self.default_tone))),
            ..self
        }.bumped()
    }

    /// What place `index` inserts.
    pub open spec fn spelling(self, table: EmojiTable, index: int) -> Seq<char> {
        spelled(table, self.view[index], self.default_tone)
    }

    /// How many spellings the open tone popover offers.
    pub open spec fn tone_count(self, table: EmojiTable) -> int
        recommends
            self.tone is Some,
    {
        let (index, _) = self.tone->0;
        choices(table, self.view[index as int].at as int).len() as int
    }

    /// The tone popover's selection moved by `delta`.
    pub open spec fn tone_moved(self, table: EmojiTable, delta: int) -> PickerView
        recommends
            self.tone is Some,
    {
        let (index, at) = self.tone->0;
        PickerView {
            tone: Some((index, clamp(at + delta, 0, self.tone_count(table) - 1) as usize)),
            ..self
        }.bumped()
    }

    /// The cell of the visible grid at these offsets, as a place.
    pub open spec fn cell_under(self, x: int, y: int) -> Option<int> {
        let index = (self.first_row + y / (CELL as int)) * COLS + x / (CELL as int);
        if self.output is Some && 0 <= x < CELL * COLS && 0 <= y < CELL * ROWS && index
            < self.view.len() {
            Some(index)
        } else {
            None
        }
    }

    /// The rail tab at these offsets.
    pub open spec fn tab_under(self, x: int, y: int) -> Option<int> {
        if self.output is Some && 0 <= x < CELL * COLS && 0 <= y < RAIL_H {
            Some(x / (TAB_W as int))
        } else {
            None
        }
    }

    /// Place `index` is in the visible part of the grid.
    pub open spec fn shows(self, index: int) -> bool {
        self.first_row * COLS <= index < self.first_row * COLS + COLS * ROWS
    }

    /// The spelling of the open tone popover at these offsets.
    pub open spec fn tone_under(self, table: EmojiTable, x: int, y: int) -> Option<int> {
        match self.tone {
            Some((index, _)) => {
                let n = self.tone_count(table);
                let cols = if n < TONE_COLS {
                    n
                } else {
                    TONE_COLS as int
                };
                let rows = (n + TONE_COLS - 1) / (TONE_COLS as int);
                let at = (y / (CELL as int)) * TONE_COLS + x / (CELL as int);
                if self.output is Some && self.shows(index as int) && 0 <= x < CELL * cols && 0
                    <= y < CELL * rows && at < n {
                    Some(at)
                } else {
                    None
                }
            },
            None => None,
        }
    }
}

impl PickerView {
    /// The cell at a point, as a place.
    pub open spec fn cell_at(self, x: int, y: int) -> Option<int> {
        self.cell_under(
            (x - self.place.grid_x()) / (UNITS as int),
            (y - self.place.grid_y()) / (UNITS as int),
        )
    }

    /// The rail tab at a point.
    pub open spec fn tab_at(self, x: int, y: int) -> Option<int> {
        self.tab_under(
            (x - self.place.grid_x()) / (UNITS as int),
            (y - self.place.rail_y()) / (UNITS as int),
        )
    }

    /// How tab `tab` of the rail is lit, with `latched` the latched one.
    pub open spec fn tab_wash(self, latched: Option<usize>, tab: int) -> Wash {
        if as_int(latched) == Some(tab) {
            Wash::Selected
        } else if as_int(self.hovered_tab) == Some(tab) {
            Wash::Hovered
        } else {
            Wash::Plain
        }
    }

    /// The visible cell that the open tone popover hangs off.
    pub open spec fn tone_slot(self) -> int
        recommends
            self.tone is Some,
    {
        (self.tone->0).0 - self.first_row * COLS
    }

    /// The spelling of the open tone popover at a point.
    pub open spec fn tone_at(self, table: EmojiTable, x: int, y: int) -> Option<int> {
        let slot = self.tone_slot();
        let n = self.tone_count(table);
        self.tone_under(
            table,
            (x - self.place.tones_x(slot, n) - TONE_PAD) / (UNITS as int),
            (y - self.place.tones_y(slot, n) - TONE_PAD) / (UNITS as int),
        )
    }

    /// The tone popover is on the screen.
    pub open spec fn tones_show(self) -> bool {
        self.output is Some && self.tone is Some && self.shows((self.tone->0).0 as int)
    }

    /// The point is on the panel, or on the tone popover.
    pub open spec fn holds(self, table: EmojiTable, x: int, y: int) -> bool {
        let n = self.tone_count(table);
        let left = self.place.tones_x(self.tone_slot(), n);
        let top = self.place.tones_y(self.tone_slot(), n);
        ||| self.tones_show() && left <= x < left + Place::tones_w(n) && top <= y < top
            + Place::tones_h(n)
        ||| self.output is Some && self.place.panel_x() <= x < self.place.panel_x() + PANEL_W
            && self.place.panel_y() <= y < self.place.panel_y() + self.place.panel_h()
    }
}

/// The place of a picker that was never open.
pub open spec fn nowhere() -> Place {
    Place {
        anchor: (Area { x: 0, y: 0, w: 0, h: 0 }),
        out: (Area { x: 0, y: 0, w: 0, h: 0 }),
        entry_h: 0,
    }
}

impl EmojiPicker {
    pub fn new() -> (picker: Self)
        ensures
            picker@ == (PickerView {
                output: None,
                place: nowhere(),
                search: Seq::empty(),
                view: Seq::empty(),
                recents: Seq::empty(),
                on_recents: false,
                selected: 0,
                hovered: None,
                hovered_tab: None,
                first_row: 0,
                tone: None,
                default_tone: None,
                revision: 0,
            }),
            forall|table: EmojiTable| picker@.wf(table),
    {
        EmojiPicker {
            output: None,
            place: Place {
                anchor: Area { x: 0, y: 0, w: 0, h: 0 },
                out: Area { x: 0, y: 0, w: 0, h: 0 },
                entry_h: 0,
            },
            search: String::new(),
            view: Vec::new(),
            recents: Vec::new(),
            on_recents: false,
            selected: 0,
            hovered: None,
            hovered_tab: None,
            first_row: 0,
            tone: None,
            default_tone: None,
            revision: 0,
        }
    }

    fn bump(&mut self)
        ensures
            final(self)@ == old(self)@.bumped(),
    {
        self.revision = self.revision.wrapping_add(1);
    }

    /// Whether the picker is in order for this table.
    pub fn suits(&self, table: &EmojiTable) -> (suits: bool)
        ensures
            suits == self@.wf(*table),
    {
        let n: usize = self.view.len();
        let mut i: usize = 0;
        while i < n
            invariant
                n == self.view@.len(),
                i <= n,
                forall|j: int| 0 <= j < i ==> (#[trigger] self.view@[j]).at < table.entries@.len(),
            decreases n - i,
        {
            if self.view[i].at >= table.entries.len() {
                assert(self@.view[i as int].at >= table.entries@.len());
                return false;
            }
            i = i + 1;
        }
        let selected = if n > 0 {
            self.selected < n
        } else {
            self.selected == 0
        };
        let toned = match self.tone {
            Some((index, at)) => index < n && {
                let tones: usize = table.entries[self.view[index].at].tones.len();
                tones > 0 && at <= tones
            },
            None => true,
        };
        selected && self.first_row as u128 * 9 <= n as u128 && toned && self.place.is_good()
    }

    pub fn is_open(&self) -> (open: bool)
        ensures
            open == (self@.output is Some),
    {
        self.output.is_some()
    }

    /// The output the picker was opened on.
    pub fn output(&self) -> (output: Option<u64>)
        ensures
            output == self@.output,
    {
        self.output
    }

    /// Open at `place` of `output`, on the recents when there are any. `resolved` is where the
    /// table has each recent.
    pub fn open(
        &mut self,
        output: u64,
        place: Place,
        table: &EmojiTable,
        resolved: &Vec<Option<Slot>>,
    )
        requires
            place.good(),
            resolved_in_table(resolved@, table.entries@.len()),
            old(self)@.wf(*table),
        ensures
            final(self)@.wf(*table),
            final(self)@ == (PickerView {
                output: Some(output),
                place,
                search: Seq::empty(),
                hovered: None,
                hovered_tab: None,
                tone: None,
                on_recents: old(self)@.recents.len() > 0,
                ..old(self)@
            }).rebuilt(table.entries@.len(), Seq::empty(), resolved@).bumped(),
    {
        self.output = Some(output);
        self.place = place;
        self.search = String::new();
        self.hovered = None;
        self.hovered_tab = None;
        self.tone = None;
        self.on_recents = self.recents.len() > 0;
        let none: Vec<usize> = Vec::new();
        self.rebuild_view(table, &none, resolved);
        self.bump();
    }

    /// Seed the history. Takes effect at the next `open`.
    pub fn set_recents(&mut self, recents: Vec<String>)
        ensures
            final(self)@ == (PickerView { recents: views(recents@), ..old(self)@ }),
    {
        self.recents = recents;
    }

    /// Closes, and says whether it was open.
    pub fn close(&mut self) -> (was_open: bool)
        ensures
            was_open == (old(self)@.output is Some),
            final(self)@ == (PickerView { output: None, ..old(self)@ }),
    {
        let was_open = self.output.is_some();
        self.output = None;
        was_open
    }

    /// The entry the selection is on, as an index into the table.
    pub fn selected_entry(&self) -> (at: usize)
        ensures
            at == if self@.selected < self@.view.len() {
                self@.view[self@.selected].at
            } else {
                0
            },
    {
        if self.selected < self.view.len() {
            self.view[self.selected].at
        } else {
            0
        }
    }

    /// Whether the skin-tone popover is up.
    pub fn tone_is_open(&self) -> (open: bool)
        ensures
            open == (self@.tone is Some),
    {
        self.tone.is_some()
    }

    /// Which cell the pointer is over, if any.
    pub fn hovered_index(&self) -> (index: Option<usize>)
        ensures
            index == self@.hovered,
    {
        self.hovered
    }

    /// Which rail tab the pointer is over.
    pub fn hovered_tab(&self) -> (tab: Option<usize>)
        ensures
            tab == self@.hovered_tab,
    {
        self.hovered_tab
    }

    /// Rebuild the grid from the search text and the latched tab. `matches` is what the
    /// search finds, `resolved` is where the table has each recent.
    pub fn rebuild_view(
        &mut self,
        table: &EmojiTable,
        matches: &Vec<usize>,
        resolved: &Vec<Option<Slot>>,
    )
        requires
            forall|i: int| 0 <= i < matches@.len() ==> #[trigger] matches@[i] < table.entries@.len(),
            resolved_in_table(resolved@, table.entries@.len()),
            old(self)@.tone is None,
        ensures
            final(self)@ == old(self)@.rebuilt(table.entries@.len(), matches@, resolved@),
            old(self)@.place.good() ==> final(self)@.wf(*table),
    {
        let mut view: Vec<Slot> = Vec::new();
        let mut i: usize = 0;
        if !blank(self.search.as_str()) {
            while i < matches.len()
                invariant
                    i <= matches@.len(),
                    view@ == plain_slots(matches@).take(i as int),
                decreases matches@.len() - i,
            {
                view.push(Slot::plain(matches[i]));
                i = i + 1;
                assert(plain_slots(matches@).take(i as int) =~= plain_slots(matches@).take(
                    i - 1,
                ).push(plain_slots(matches@)[i - 1]));
            }
            assert(view@ =~= plain_slots(matches@));
        } else if self.on_recents {
            while i < resolved.len()
                invariant
                    i <= resolved@.len(),
                    view@ == known(resolved@.take(i as int)),
                decreases resolved@.len() - i,
            {
                if let Some(slot) = resolved[i] {
                    view.push(slot);
                }
                i = i + 1;
                assert(resolved@.take(i as int).drop_last() =~= resolved@.take(i - 1));
            }
            assert(resolved@.take(i as int) =~= resolved@);
            proof {
                lemma_known_in_table(resolved@, table.entries@.len());
            }
        } else {
            while i < table.entries.len()
                invariant
                    i <= table.entries@.len(),
                    view@.len() == i,
                    forall|j: int|
                        0 <= j < i ==> #[trigger] view@[j] == (Slot { at: j as usize, tone: None }),
                decreases table.entries@.len() - i,
            {
                view.push(Slot::plain(i));
                i = i + 1;
            }
            assert(view@ =~= all_slots(table.entries@.len()));
        }
        self.view = view;
        self.selected = 0;
        self.first_row = 0;
    }

    fn rows(&self) -> (rows: usize)
        ensures
            rows == self@.rows(),
    {
        let n: usize = self.view.len();
        if n % COLS == 0 {
            n / COLS
        } else {
            n / COLS + 1
        }
    }

    /// The furthest the grid scrolls.
    fn last_first_row(&self) -> (row: usize)
        ensures
            row == self@.last_first_row(),
    {
        let rows: usize = self.rows();
        if rows > ROWS {
            rows - ROWS
        } else {
            0
        }
    }

    /// Move the selection by whole cells, clamped to the grid, and keep it on screen.
    pub fn move_selection(&mut self, delta: isize)
        requires
            old(self)@.view.len() > 0 ==> 0 <= old(self)@.selected < old(self)@.view.len(),
        ensures
            final(self)@ == old(self)@.moved(delta as int),
    {
        if self.view.len() == 0 {
            return ;
        }
        let last: usize = self.view.len() - 1;
        if delta < 0 {
            // The magnitude of the least number does not fit its own type.
            let back: usize = (-(delta + 1)) as usize;
            self.selected = if self.selected > back {
                self.selected - back - 1
            } else {
                0
            };
        } else {
            let ahead: usize = delta as usize;
            self.selected = if last - self.selected < ahead {
                last
            } else {
                self.selected + ahead
            };
        }
        let row: usize = self.selected / COLS;
        if row < self.first_row {
            self.first_row = row;
        } else if row - self.first_row >= ROWS {
            self.first_row = row + 1 - ROWS;
        }
        self.bump();
    }

    /// The emoji at a place of the grid, whatever tone the place stands for.
    pub fn at<'a>(&self, table: &'a EmojiTable, index: usize) -> (emoji: Option<&'a Emoji>)
        requires
            self@.wf(*table),
        ensures
            emoji == if index < self@.view.len() {
                Some(&table.entries@[self@.view[index as int].at as int])
            } else {
                None
            },
    {
        if index < self.view.len() {
            let slot = self.view[index];
            assert(slot.at < table.entries@.len());
            Some(&table.entries[slot.at])
        } else {
            None
        }
    }

    /// What `index` draws and inserts: the place's own tone if it has one, else the
    /// remembered tone, else the base.
    pub fn text_of<'a>(&self, table: &'a EmojiTable, index: usize) -> (text: Option<&'a str>)
        requires
            self@.wf(*table),
        ensures
            match text {
                Some(t) => index < self@.view.len() && t@ == self@.spelling(*table, index as int),
                None => index >= self@.view.len(),
            },
    {
        if index < self.view.len() {
            let slot = self.view[index];
            assert(slot.at < table.entries@.len());
            Some(slot.text(table, self.default_tone))
        } else {
            None
        }
    }

    /// The spellings the tone popover offers for a place: the base first, so the popover can
    /// always put the plain form back. None for an emoji without tones.
    pub fn tone_choices(&self, table: &EmojiTable, index: usize) -> (spellings: Option<Vec<String>>)
        requires
            self@.wf(*table),
        ensures
            match spellings {
                Some(s) => self@.toned_at(*table, index as int) && views(s@) == choices(
                    *table,
                    self@.view[index as int].at as int,
                ),
                None => !self@.toned_at(*table, index as int),
            },
    {
        if index >= self.view.len() {
            return None;
        }
        let slot = self.view[index];
        assert(slot.at < table.entries@.len());
        let emoji = &table.entries[slot.at];
        if !emoji.has_tones() {
            return None;
        }
        let mut spellings: Vec<String> = Vec::new();
        spellings.push(emoji.ch.clone());
        let mut i: usize = 0;
        while i < emoji.tones.len()
            invariant
                i <= emoji.tones@.len(),
                spellings@ == seq![emoji.ch] + emoji.tones@.take(i as int),
            decreases emoji.tones@.len() - i,
        {
            spellings.push(emoji.tones[i].clone());
            i = i + 1;
            assert(seq![emoji.ch] + emoji.tones@.take(i as int) =~= (seq![emoji.ch]
                + emoji.tones@.take(i - 1)).push(emoji.tones@[i - 1]));
        }
        assert(views(spellings@) =~= choices(*table, slot.at as int));
        Some(spellings)
    }

    /// Open the tone popover on a place, if it has tones. Returns whether it opened.
    fn open_tones(&mut self, table: &EmojiTable, index: usize) -> (opened: bool)
        requires
            old(self)@.wf(*table),
        ensures
            opened == old(self)@.toned_at(*table, index as int),
            final(self)@ == if opened {
                old(self)@.with_tones(*table, index)
            } else {
                old(self)@
            },
            final(self)@.wf(*table),
            opened ==> {
                let spellings = choices(*table, old(self)@.view[index as int].at as int);
                let at = (final(self)@.tone->0).1;
                at < spellings.len() && spellings[at as int] == old(self)@.spelling(
                    *table,
                    index as int,
                )
            },
    {
        if self.tone_choices(table, index).is_none() {
            return false;
        }
        proof {
            law_the_tones_open_on_what_a_pick_inserts(self@, *table, index);
        }
        let slot = self.view[index];
        let at: usize = slot.place_in(table, self.default_tone);
        self.tone = Some((index, at));
        self.bump();
        true
    }

    /// Jump the rail to a tab: 0 is the recents, the rest are the groups in order. A tab that
    /// the rail does not have does nothing.
    pub fn go_to_tab(&mut self, table: &EmojiTable, resolved: &Vec<Option<Slot>>, tab: usize)
        requires
            old(self)@.wf(*table),
            resolved_in_table(resolved@, table.entries@.len()),
        ensures
            final(self)@.wf(*table),
            final(self)@ == if tab < TABS {
                old(self)@.at_tab(*table, resolved@, tab as int)
            } else {
                old(self)@
            },
    {
        if tab >= TABS {
            return ;
        }
        let on_recents = tab == 0;
        let stale = on_recents != self.on_recents || self.search.as_str().unicode_len() > 0;
        self.on_recents = on_recents;
        self.tone = None;
        if stale {
            self.search = String::new();
            let none: Vec<usize> = Vec::new();
            self.rebuild_view(table, &none, resolved);
        }
        let start: usize = if tab >= 1 && tab <= table.groups.len() {
            table.groups[tab - 1].start
        } else {
            0
        };
        let last: usize = if self.view.len() > 0 {
            self.view.len() - 1
        } else {
            0
        };
        self.selected = if start <= last {
            start
        } else {
            last
        };
        let max: usize = self.last_first_row();
        let row: usize = self.selected / COLS;
        self.first_row = if row <= max {
            row
        } else {
            max
        };
        self.bump();
        assert(self.first_row * COLS <= self.view@.len());
    }

    /// Which group the rail latches: the first that holds the selection. None while
    /// searching, where the grid is not in the table's order, and on the recents.
    pub fn current_group(&self, table: &EmojiTable) -> (group: Option<usize>)
        ensures
            match group {
                Some(g) => self@.in_group(*table, g as int),
                None => forall|g: int| !self@.in_group(*table, g),
            },
    {
        if self.search.as_str().unicode_len() > 0 || self.on_recents {
            return None;
        }
        if self.selected >= self.view.len() {
            return None;
        }
        let at: usize = self.view[self.selected].at;
        let mut g: usize = 0;
        while g < table.groups.len()
            invariant
                g <= table.groups@.len(),
                self.selected < self.view@.len(),
                at == self.view@[self.selected as int].at,
                self.search@.len() == 0,
                !self.on_recents,
                forall|j: int| 0 <= j < g ==> !holds_entry(*table, j, at),
            decreases table.groups@.len() - g,
        {
            if table.groups[g].start <= at && at < table.groups[g].end {
                assert(holds_entry(*table, g as int, at));
                return Some(g);
            }
            g = g + 1;
        }
        None
    }

    /// Which tab the rail latches: the recents when they are showing, else the selection's
    /// group. A search outranks the latched tab in the grid, so it does in the rail too.
    pub fn current_tab(&self, table: &EmojiTable) -> (tab: Option<usize>)
        ensures
            self@.latched(*table, tab),
    {
        let groups: usize = table.groups.len();
        if self.search.as_str().unicode_len() > 0 {
            return None;
        }
        if self.on_recents {
            return Some(0);
        }
        match self.current_group(table) {
            Some(g) => {
                assert(g < groups);
                Some(g + 1)
            },
            None => None,
        }
    }

    /// The search entry has had a key: `changed` says that its text is now `text`, for which
    /// `matches` is what the search finds.
    pub fn edited(
        &mut self,
        table: &EmojiTable,
        changed: bool,
        text: String,
        matches: &Vec<usize>,
        resolved: &Vec<Option<Slot>>,
    )
        requires
            old(self)@.wf(*table),
            old(self)@.tone is None,
            forall|i: int| 0 <= i < matches@.len() ==> #[trigger] matches@[i] < table.entries@.len(),
            resolved_in_table(resolved@, table.entries@.len()),
        ensures
            final(self)@.wf(*table),
            final(self)@ == if changed {
                (PickerView { search: text@, ..old(self)@ }).rebuilt(
                    table.entries@.len(),
                    matches@,
                    resolved@,
                ).bumped()
            } else {
                old(self)@.bumped()
            },
    {
        if changed {
            self.search = text;
            self.rebuild_view(table, matches, resolved);
        }
        self.bump();
    }

    /// Scroll the grid by whole rows. Returns whether anything moved. The hover lets go: the
    /// cell under the pointer changed even though the pointer did not move.
    pub fn scroll_rows(&mut self, delta: isize) -> (moved: bool)
        ensures
            ({
                let first = clamp(
                    old(self)@.first_row + delta,
                    0,
                    old(self)@.last_first_row(),
                );
                &&& moved == (first != old(self)@.first_row)
                &&& final(self)@ == if moved {
                    (PickerView { first_row: first, hovered: None, ..old(self)@ }).bumped()
                } else {
                    old(self)@
                }
            }),
            forall|table: EmojiTable| old(self)@.wf(table) ==> final(self)@.wf(table),
    {
        let max: usize = self.last_first_row();
        let first: usize = if delta < 0 {
            let back: usize = (-(delta + 1)) as usize;
            let up: usize = if self.first_row > back {
                self.first_row - back - 1
            } else {
                0
            };
            if up <= max {
                up
            } else {
                max
            }
        } else {
            let ahead: usize = delta as usize;
            if self.first_row >= max || max - self.first_row < ahead {
                max
            } else {
                self.first_row + ahead
            }
        };
        if first == self.first_row {
            return false;
        }
        self.first_row = first;
        self.hovered = None;
        self.bump();
        true
    }

    /// Which cell a point falls in, if any.
    fn cell_at(&self, x: i64, y: i64) -> (index: Option<usize>)
        requires
            self@.place.good(),
        ensures
            match index {
                Some(i) => self@.cell_at(x as int, y as int) == Some(i as int),
                None => self@.cell_at(x as int, y as int) is None,
            },
    {
        let grid = self.place.grid();
        let x: i128 = whole_px(x as i128 - grid.x);
        let y: i128 = whole_px(y as i128 - grid.y);
        if self.output.is_none() || x < 0 || x >= 360 || y < 0 || y >= 240 {
            return None;
        }
        let col = (x / 40) as u128;
        let row = (y / 40) as u128;
        let index: u128 = (self.first_row as u128 + row) * 9 + col;
        if index < self.view.len() as u128 {
            Some(index as usize)
        } else {
            None
        }
    }

    /// Which rail tab a point falls on.
    fn rail_at(&self, x: i64, y: i64) -> (tab: Option<usize>)
        requires
            self@.place.good(),
        ensures
            match tab {
                Some(t) => t < TABS && self@.tab_at(x as int, y as int) == Some(t as int),
                None => self@.tab_at(x as int, y as int) is None,
            },
    {
        let rail = self.place.rail();
        let x: i128 = whole_px(x as i128 - rail.x);
        let y: i128 = whole_px(y as i128 - rail.y);
        if self.output.is_none() || x < 0 || x >= 360 || y < 0 || y >= 36 {
            return None;
        }
        Some((x / 36) as usize)
    }

    /// The panel's box.
    pub fn geometry(&self) -> (panel: Option<Area>)
        requires
            self@.place.good(),
        ensures
            panel is Some <==> self@.output is Some,
            panel matches Some(area) ==> {
                &&& area.x == self@.place.panel_x()
                &&& area.y == self@.place.panel_y()
                &&& area.w == PANEL_W
                &&& area.h == self@.place.panel_h()
            },
    {
        if self.output.is_some() {
            Some(self.place.panel())
        } else {
            None
        }
    }

    /// Where the picker was opened: the caret, or the pointer.
    pub fn anchor(&self) -> (anchor: Option<Area>)
        ensures
            anchor == if self@.output is Some {
                Some(self@.place.anchor)
            } else {
                None
            },
    {
        if self.output.is_some() {
            Some(self.place.anchor)
        } else {
            None
        }
    }

    /// A visible cell's box.
    pub fn cell_global_rect(&self, index: usize) -> (cell: Option<Area>)
        requires
            self@.place.good(),
        ensures
            cell is Some <==> self@.output is Some && self@.shows(index as int),
            cell matches Some(area) ==> {
                &&& area.x == self@.place.cell_x(index - self@.first_row * COLS)
                &&& area.y == self@.place.cell_y(index - self@.first_row * COLS)
                &&& area.w == CELL_SIDE
                &&& area.h == CELL_SIDE
            },
    {
        let first: u128 = self.first_row as u128 * 9;
        if self.output.is_none() || (index as u128) < first || index as u128 >= first + 54 {
            return None;
        }
        Some(self.place.cell((index as u128 - first) as usize))
    }

    /// The tone popover's box, and how many columns it has.
    pub fn tone_geometry(&self, table: &EmojiTable) -> (popover: Option<(Area, usize)>)
        requires
            self@.wf(*table),
        ensures
            popover is Some <==> self@.tones_show(),
            popover matches Some((area, cols)) ==> {
                let n = self@.tone_count(*table);
                &&& area.x == self@.place.tones_x(self@.tone_slot(), n)
                &&& area.y == self@.place.tones_y(self@.tone_slot(), n)
                &&& area.w == Place::tones_w(n)
                &&& area.h == Place::tones_h(n)
                &&& cols == tone_cols(n)
                &&& -4 * REACH <= area.x <= 11 * REACH
                &&& -10_000 * REACH <= area.y <= 11 * REACH
                &&& 0 <= area.h <= 10_000 * REACH
            },
    {
        let (index, _) = match self.tone {
            Some(t) => t,
            None => {
                return None;
            },
        };
        let spellings = match self.tone_choices(table, index) {
            Some(s) => s,
            None => {
                return None;
            },
        };
        assert(views(spellings@).len() == self@.tone_count(*table));
        let n: usize = spellings.len();
        let first: u128 = self.first_row as u128 * 9;
        if self.output.is_none() || (index as u128) < first || index as u128 >= first + 54 {
            return None;
        }
        let slot: usize = (index as u128 - first) as usize;
        let cols: usize = if n < TONE_COLS {
            n
        } else {
            TONE_COLS
        };
        Some((self.place.tones(slot, n), cols))
    }

    /// Whether a point is on the picker.
    pub fn contains(&self, table: &EmojiTable, x: i64, y: i64) -> (inside: bool)
        requires
            self@.wf(*table),
        ensures
            inside == self@.holds(*table, x as int, y as int),
    {
        if let Some((popover, _)) = self.tone_geometry(table) {
            if popover.contains(x as i128, y as i128) {
                return true;
            }
        }
        match self.geometry() {
            Some(panel) => panel.contains(x as i128, y as i128),
            None => false,
        }
    }

    /// Which spelling of the open tone popover a point falls on.
    fn tone_at(&self, table: &EmojiTable, x: i64, y: i64) -> (at: Option<usize>)
        requires
            self@.wf(*table),
            self@.tone is Some,
        ensures
            match at {
                Some(a) => self@.tone_at(*table, x as int, y as int) == Some(a as int),
                None => self@.tone_at(*table, x as int, y as int) is None,
            },
    {
        let (popover, _) = match self.tone_geometry(table) {
            Some(p) => p,
            None => {
                return None;
            },
        };
        let (index, _) = match self.tone {
            Some(t) => t,
            None => {
                return None;
            },
        };
        let spellings = match self.tone_choices(table, index) {
            Some(s) => s,
            None => {
                return None;
            },
        };
        assert(views(spellings@).len() == self@.tone_count(*table));
        let n = spellings.len() as i128;
        let x: i128 = whole_px(x as i128 - popover.x - TONE_PAD);
        let y: i128 = whole_px(y as i128 - popover.y - TONE_PAD);
        let cols: i128 = if n < 5 {
            n
        } else {
            5
        };
        let rows: i128 = (n + 4) / 5;
        if x < 0 || x >= 40 * cols || y < 0 || y >= 40 * rows {
            return None;
        }
        let at: i128 = (y / 40) * 5 + x / 40;
        if at < n {
            Some(at as usize)
        } else {
            None
        }
    }

    /// Track the pointer over the grid and the rail. Returns whether anything changed.
    pub fn pointer_motion(&mut self, x: i64, y: i64) -> (changed: bool)
        requires
            old(self)@.place.good(),
        ensures
            ({
                let cell = old(self)@.cell_at(x as int, y as int);
                let tab = old(self)@.tab_at(x as int, y as int);
                &&& changed == !(as_int(old(self)@.hovered) == cell && as_int(
                    old(self)@.hovered_tab,
                ) == tab)
                &&& as_int(final(self)@.hovered) == cell
                &&& as_int(final(self)@.hovered_tab) == tab
                &&& final(self)@ == if changed {
                    (PickerView {
                        hovered: final(self)@.hovered,
                        hovered_tab: final(self)@.hovered_tab,
                        ..old(self)@
                    }).bumped()
                } else {
                    old(self)@
                }
            }),
            forall|table: EmojiTable| old(self)@.wf(table) ==> final(self)@.wf(table),
    {
        let hovered = self.cell_at(x, y);
        let hovered_tab = self.rail_at(x, y);
        if hovered == self.hovered && hovered_tab == self.hovered_tab {
            return false;
        }
        self.hovered = hovered;
        self.hovered_tab = hovered_tab;
        self.bump();
        true
    }

    /// Feed a key to the open picker.
    ///
    /// The tone popover is modal over the grid while it is up: nothing behind it moves until
    /// it is answered or dismissed. Picking its first spelling, the plain form, forgets the
    /// remembered tone. Shift with Enter opens the popover instead of picking. With no tab
    /// latched, Tab walks from the recents.
    pub fn handle_key(
        &mut self,
        table: &EmojiTable,
        resolved: &Vec<Option<Slot>>,
        key: Option<Key>,
        shift: bool,
        pressed: bool,
    ) -> (step: KeyStep)
        requires
            old(self)@.wf(*table),
            resolved_in_table(resolved@, table.entries@.len()),
        ensures
            final(self)@.wf(*table),
            step@ is Edit ==> final(self)@.tone is None,
            !pressed ==> step@ is Handled && final(self)@ == old(self)@,
            pressed && old(self)@.tone is Some ==> old(self)@.tone_key(
                *table,
                key,
                step@,
                final(self)@,
            ),
            pressed && old(self)@.tone is None ==> old(self)@.grid_key(
                *table,
                resolved@,
                key,
                shift,
                step@,
                final(self)@,
            ),
    {
        if !pressed {
            return KeyStep::Done(KeyOutcome::Handled);
        }
        if self.tone.is_some() {
            return self.handle_tone_key(table, key);
        }
        let key = match key {
            Some(k) => k,
            None => {
                return KeyStep::Edit;
            },
        };
        if key.is_enter() {
            if shift && self.open_tones(table, self.selected) {
                return KeyStep::Done(KeyOutcome::Handled);
            }
            return match self.text_of(table, self.selected) {
                Some(text) => KeyStep::Done(KeyOutcome::Insert(text.to_owned())),
                None => KeyStep::Done(KeyOutcome::Handled),
            };
        }
        match key {
            Key::Escape => {
                return KeyStep::Done(KeyOutcome::Close);
            },
            Key::Tab => {
                let latched = self.current_tab(table);
                let tab: usize = match latched {
                    Some(t) => t,
                    None => 0,
                };
                let next: usize = if shift {
                    if tab > 0 {
                        tab - 1
                    } else {
                        0
                    }
                } else if tab < TABS - 1 {
                    tab + 1
                } else {
                    TABS - 1
                };
                assert(next == next_tab(latched, shift));
                self.go_to_tab(table, resolved, next);
                assert(old(self)@.latched(*table, latched));
            },
            Key::Left => self.move_selection(-1),
            Key::Right => self.move_selection(1),
            Key::Up => self.move_selection(-9),
            Key::Down => self.move_selection(9),
            Key::PageUp => self.move_selection(-54),
            Key::PageDown => self.move_selection(54),
            _ => {
                return KeyStep::Edit;
            },
        }
        KeyStep::Done(KeyOutcome::Handled)
    }

    fn handle_tone_key(&mut self, table: &EmojiTable, key: Option<Key>) -> (step: KeyStep)
        requires
            old(self)@.wf(*table),
            old(self)@.tone is Some,
        ensures
            final(self)@.wf(*table),
            step@ !is Edit,
            old(self)@.tone_key(*table, key, step@, final(self)@),
    {
        let handled = KeyStep::Done(KeyOutcome::Handled);
        let (index, at) = match self.tone {
            Some(t) => t,
            None => {
                return handled;
            },
        };
        let spellings = match self.tone_choices(table, index) {
            Some(s) => s,
            None => {
                return handled;
            },
        };
        assert(views(spellings@).len() == self@.tone_count(*table));
        let last: usize = spellings.len() - 1;
        let key = match key {
            Some(k) => k,
            None => {
                return handled;
            },
        };
        if key.is_enter() {
            self.default_tone = if at > 0 {
                Some(at - 1)
            } else {
                None
            };
            self.tone = None;
            assert(views(spellings@)[at as int] == spellings@[at as int]@);
            return KeyStep::Done(KeyOutcome::Insert(spellings[at].clone()));
        }
        match key {
            Key::Escape => {
                self.tone = None;
                self.bump();
            },
            Key::Left => {
                self.tone = Some((index, stepped(at, 1, true, last)));
            },
            Key::Right => {
                self.tone = Some((index, stepped(at, 1, false, last)));
            },
            Key::Up => {
                self.tone = Some((index, stepped(at, TONE_COLS, true, last)));
            },
            Key::Down => {
                self.tone = Some((index, stepped(at, TONE_COLS, false, last)));
            },
            _ => {
                return handled;
            },
        }
        self.bump();
        handled
    }

    /// A click inside the picker. Returns the text to insert, if it landed on an emoji.
    ///
    /// With the tone popover up, a click on a spelling picks it and remembers its tone, and a
    /// click anywhere else dismisses the popover. `secondary` is the right button, which
    /// opens the skin-tone variants instead of picking.
    pub fn pointer_click(
        &mut self,
        table: &EmojiTable,
        resolved: &Vec<Option<Slot>>,
        x: i64,
        y: i64,
        secondary: bool,
    ) -> (picked: Option<String>)
        requires
            old(self)@.wf(*table),
            resolved_in_table(resolved@, table.entries@.len()),
        ensures
            final(self)@.wf(*table),
            ({
                let was = old(self)@;
                let now = final(self)@;
                let spelling = was.tone_at(*table, x as int, y as int);
                let tab = was.tab_at(x as int, y as int);
                let cell = was.cell_at(x as int, y as int);
                if was.tone is Some {
                    match spelling {
                        Some(at) => {
                            let (index, _) = was.tone->0;
                            &&& picked is Some
                            &&& picked->0@ == choices(*table, was.view[index as int].at as int)[at]
                            &&& now == (PickerView {
                                tone: None,
                                default_tone: if at > 0 {
                                    Some((at - 1) as usize)
                                } else {
                                    None
                                },
                                ..was
                            })
                        },
                        None => picked is None && now == (PickerView { tone: None, ..was }).bumped(),
                    }
                } else if tab is Some {
                    picked is None && now == was.at_tab(*table, resolved@, tab->0)
                } else {
                    match cell {
                        Some(index) => {
                            let chosen = (PickerView { selected: index, ..was }).bumped();
                            if secondary && was.toned_at(*table, index) {
                                picked is None && now == chosen.with_tones(*table, index as usize)
                            } else {
                                &&& picked is Some
                                &&& picked->0@ == was.spelling(*table, index)
                                &&& now == chosen
                            }
                        },
                        None => picked is None && now == was,
                    }
                }
            }),
    {
        if let Some((index, _)) = self.tone {
            let at = self.tone_at(table, x, y);
            let spellings = self.tone_choices(table, index);
            self.tone = None;
            return match (at, spellings) {
                (Some(at), Some(spellings)) => {
                    self.default_tone = if at > 0 {
                        Some(at - 1)
                    } else {
                        None
                    };
                    assert(views(spellings@)[at as int] == spellings@[at as int]@);
                    Some(spellings[at].clone())
                },
                _ => {
                    self.bump();
                    None
                },
            };
        }
        if let Some(tab) = self.rail_at(x, y) {
            self.go_to_tab(table, resolved, tab);
            return None;
        }
        let index: usize = match self.cell_at(x, y) {
            Some(index) => index,
            None => {
                return None;
            },
        };
        self.selected = index;
        self.bump();
        if secondary && self.open_tones(table, index) {
            return None;
        }
        match self.text_of(table, index) {
            Some(text) => Some(text.to_owned()),
            None => None,
        }
    }

    /// The cells the grid currently shows, with their state.
    pub fn visible_cells(&self, table: &EmojiTable) -> (cells: Vec<Cell>)
        requires
            self@.wf(*table),
        ensures
            cells@.len() == if self@.view.len() - self@.first_row * COLS < COLS * ROWS {
                self@.view.len() - self@.first_row * COLS
            } else {
                (COLS * ROWS) as int
            },
            forall|i: int|
                0 <= i < cells@.len() ==> {
                    let index = self@.first_row * COLS + i;
                    &&& (#[trigger] cells@[i]).ch@ == self@.spelling(*table, index)
                    &&& cells@[i].slot == i
                    &&& cells@[i].selected == (index == self@.selected)
                    &&& cells@[i].hovered == (as_int(self@.hovered) == Some(index))
                },
    {
        let all: usize = self.view.len();
        let start: usize = self.first_row * COLS;
        let left: usize = all - start;
        let n: usize = if left < 54 {
            left
        } else {
            54
        };
        let mut cells: Vec<Cell> = Vec::new();
        let mut i: usize = 0;
        while i < n
            invariant
                self@.wf(*table),
                start == self@.first_row * COLS,
                start + n <= all,
                all == self@.view.len(),
                i <= n,
                cells@.len() == i,
                forall|j: int|
                    0 <= j < i ==> {
                        let index = self@.first_row * COLS + j;
                        &&& (#[trigger] cells@[j]).ch@ == self@.spelling(*table, index)
                        &&& cells@[j].slot == j
                        &&& cells@[j].selected == (index == self@.selected)
                        &&& cells@[j].hovered == (as_int(self@.hovered) == Some(index))
                    },
            decreases n - i,
        {
            let index: usize = start + i;
            let slot = self.view[index];
            assert(slot.at < table.entries@.len());
            let hovered = match self.hovered {
                Some(h) => h == index,
                None => false,
            };
            cells.push(
                Cell {
                    ch: slot.text(table, self.default_tone).to_owned(),
                    slot: i,
                    selected: index == self.selected,
                    hovered,
                },
            );
            i = i + 1;
        }
        cells
    }

    /// The tabs of the rail, with their state.
    pub fn rail_tabs(&self, table: &EmojiTable) -> (tabs: Vec<RailTab>)
        ensures
            tabs@.len() == TABS,
            exists|latched: Option<usize>| #[trigger]
                self@.latched(*table, latched) && forall|i: int|
                    0 <= i < TABS ==> {
                        &&& (#[trigger] tabs@[i]).label@ == label_of_tab(i)
                        &&& tabs@[i].wash == self@.tab_wash(latched, i)
                    },
    {
        let latched = self.current_tab(table);
        let mut tabs: Vec<RailTab> = Vec::new();
        let mut i: usize = 0;
        while i < TABS
            invariant
                i <= TABS,
                tabs@.len() == i,
                forall|j: int|
                    0 <= j < i ==> {
                        &&& (#[trigger] tabs@[j]).label@ == label_of_tab(j)
                        &&& tabs@[j].wash == self@.tab_wash(latched, j)
                    },
            decreases TABS - i,
        {
            let on = match latched {
                Some(t) => t == i,
                None => false,
            };
            let over = match self.hovered_tab {
                Some(t) => t == i,
                None => false,
            };
            let wash = if on {
                Wash::Selected
            } else if over {
                Wash::Hovered
            } else {
                Wash::Plain
            };
            tabs.push(RailTab { label: rail_label(i), wash });
            i = i + 1;
        }
        assert(self@.latched(*table, latched));
        tabs
    }

    /// Record a pick and return the history to keep: newest first, no repeats, at most `cap`
    /// of them.
    pub fn record_pick(&mut self, text: &str, cap: usize) -> (history: Vec<String>)
        ensures
            final(self)@ == (PickerView {
                recents: picked_last(old(self)@.recents, text@, cap as int),
                ..old(self)@
            }),
            views(history@) == final(self)@.recents,
    {
        let ghost was = views(self.recents@);
        let mut kept: Vec<String> = Vec::new();
        kept.push(text.to_owned());
        let mut i: usize = 0;
        proof {
            lemma_without(was.take(0), text@);
            assert(views(kept@) =~= seq![text@] + without(was.take(0), text@));
        }
        while i < self.recents.len()
            invariant
                i <= self.recents@.len(),
                was == views(self.recents@),
                views(kept@) == seq![text@] + without(was.take(i as int), text@),
            decreases self.recents@.len() - i,
        {
            let ghost before = kept@;
            if !same_text(self.recents[i].as_str(), text) {
                kept.push(self.recents[i].clone());
                assert(views(kept@) =~= views(before).push(was[i as int]));
            }
            i = i + 1;
            proof {
                lemma_without(was.take(i as int), text@);
                assert(was.take(i as int).drop_last() =~= was.take(i - 1));
                assert(was.take(i as int).last() == was[i - 1]);
                assert(views(kept@) =~= seq![text@] + without(was.take(i as int), text@));
            }
        }
        assert(was.take(i as int) =~= was);
        let ghost all = kept@;
        kept.truncate(cap);
        assert(views(kept@) =~= picked_last(was, text@, cap as int));
        self.recents = kept;
        copy_texts(&self.recents)
    }
}

fn stepped(at: usize, by: usize, back: bool, last: usize) -> (to: usize)
    ensures
        to == clamp(
            if back {
                at - by
            } else {
                at + by
            },
            0,
            last as int,
        ),
{
    if back {
        if at < by {
            0
        } else if at - by > last {
            last
        } else {
            at - by
        }
    } else if at >= last || last - at < by {
        last
    } else {
        at + by
    }
}

/// A history with every mention of `text` taken out.
#[verifier::opaque]
pub open spec fn without(recents: Seq<Seq<char>>, text: Seq<char>) -> Seq<Seq<char>> {
    recents.filter(|t: Seq<char>| t != text)
}

proof fn lemma_without(recents: Seq<Seq<char>>, text: Seq<char>)
    ensures
        without(recents, text) == if recents.len() == 0 {
            Seq::empty()
        } else if recents.last() == text {
            without(recents.drop_last(), text)
        } else {
            without(recents.drop_last(), text).push(recents.last())
        },
{
    reveal(without);
    reveal(Seq::filter);
}

/// A history once `text` has been picked: it leads, its earlier mention is gone, and the
/// oldest are dropped beyond `cap`.
pub open spec fn picked_last(recents: Seq<Seq<char>>, text: Seq<char>, cap: int) -> Seq<Seq<char>> {
    let all = seq![text] + without(recents, text);
    if cap < all.len() {
        all.take(cap)
    } else {
        all
    }
}

impl PickerView {
    /// What a key does while the tone popover is up.
    pub open spec fn tone_key(
        self,
        table: EmojiTable,
        key: Option<Key>,
        step: StepView,
        now: PickerView,
    ) -> bool {
        let (index, at) = self.tone->0;
        match key {
            Some(Key::Escape) => {
                // Dismissing counts as two changes.
                step is Handled && now == PickerView { tone: None, ..self }.bumped().bumped()
            },
            Some(Key::Return) | Some(Key::KpEnter) | Some(Key::IsoEnter) => {
                &&& now == PickerView {
                    tone: None,
                    default_tone: if at > 0 {
                        Some((at - 1) as usize)
                    } else {
                        None
                    },
                    ..self
                }
                &&& step == StepView::Insert(
                    choices(table, self.view[index as int].at as int)[at as int],
                )
            },
            Some(Key::Left) => step is Handled && now == self.tone_moved(table, -1),
            Some(Key::Right) => step is Handled && now == self.tone_moved(table, 1),
            Some(Key::Up) => step is Handled && now == self.tone_moved(table, -TONE_COLS),
            Some(Key::Down) => step is Handled && now == self.tone_moved(table, TONE_COLS as int),
            _ => step is Handled && now == self,
        }
    }

    /// What a key does to the grid.
    pub open spec fn grid_key(
        self,
        table: EmojiTable,
        resolved: Seq<Option<Slot>>,
        key: Option<Key>,
        shift: bool,
        step: StepView,
        now: PickerView,
    ) -> bool {
        match key {
            Some(Key::Escape) => step is Close && now == self,
            Some(Key::Return) | Some(Key::KpEnter) | Some(Key::IsoEnter) => {
                if shift && self.toned_at(table, self.selected) {
                    step is Handled && now == self.with_tones(table, self.selected as usize)
                } else {
                    &&& now == self
                    &&& step == if self.view.len() > 0 {
                        StepView::Insert(self.spelling(table, self.selected))
                    } else {
                        StepView::Handled
                    }
                }
            },
            Some(Key::Tab) => {
                &&& step is Handled
                &&& exists|tab: Option<usize>| #[trigger]
                    self.latched(table, tab) && now == if next_tab(tab, shift) < TABS {
                        self.at_tab(table, resolved, next_tab(tab, shift))
                    } else {
                        self
                    }
            },
            Some(Key::Left) => step is Handled && now == self.moved(-1),
            Some(Key::Right) => step is Handled && now == self.moved(1),
            Some(Key::Up) => step is Handled && now == self.moved(-COLS),
            Some(Key::Down) => step is Handled && now == self.moved(COLS as int),
            Some(Key::PageUp) => step is Handled && now == self.moved(-(COLS * ROWS)),
            Some(Key::PageDown) => step is Handled && now == self.moved(COLS * ROWS),
            _ => step is Edit && now == self,
        }
    }
}

/// The tab that Tab walks to, or Shift with Tab: one on or one back, stopping at the ends.
pub open spec fn next_tab(latched: Option<usize>, shift: bool) -> int {
    let tab = match latched {
        Some(t) => t as int,
        None => 0,
    };
    if !shift {
        clamp(tab + 1, 0, TABS - 1)
    } else if tab > 0 {
        tab - 1
    } else {
        0
    }
}


/// An optional index as a mathematical integer.
pub open spec fn as_int(index: Option<usize>) -> Option<int> {
    match index {
        Some(i) => Some(i as int),
        None => None,
    }
}

/// The rail latches at most one tab.
pub proof fn law_the_rail_latches_one_tab(
    picker: PickerView,
    table: EmojiTable,
    a: Option<usize>,
    b: Option<usize>,
)
    requires
        picker.latched(table, a),
        picker.latched(table, b),
    ensures
        a == b,
{
    if picker.search.len() == 0 && !picker.on_recents {
        if let Some(t) = a {
            assert(picker.in_group(table, t - 1));
        }
        if let Some(t) = b {
            assert(picker.in_group(table, t - 1));
        }
    }
}

/// Jumping to a group's tab lands on its first emoji and latches that tab, from a search and
/// from the recents alike, for groups that do not overlap and hold something.
pub proof fn law_a_tab_jump_latches_the_tab(
    picker: PickerView,
    table: EmojiTable,
    resolved: Seq<Option<Slot>>,
    tab: usize,
)
    requires
        1 <= tab <= table.groups@.len(),
        forall|g: int|
            0 <= g < table.groups@.len() ==> (#[trigger] table.groups@[g]).start
                < table.groups@[g].end <= table.entries@.len(),
        forall|g: int, h: int|
            0 <= g < h < table.groups@.len() ==> (#[trigger] table.groups@[g]).end <= (
            #[trigger] table.groups@[h]).start,
        picker.search.len() == 0 && !picker.on_recents ==> picker.view == all_slots(
            table.entries@.len(),
        ),
    ensures
        picker.at_tab(table, resolved, tab as int).selected == table.groups@[tab - 1].start,
        picker.at_tab(table, resolved, tab as int).latched(table, Some(tab)),
{
    let now = picker.at_tab(table, resolved, tab as int);
    let start = table.groups@[tab - 1].start;
    assert(is_blank(Seq::<char>::empty()));
    assert(now.view == all_slots(table.entries@.len()));
    assert(now.selected == start);
    assert(now.view[start as int].at == start);
    assert(holds_entry(table, tab - 1, start));
    assert forall|g: int| 0 <= g < tab - 1 implies !holds_entry(table, g, start) by {
        assert(table.groups@[g].end <= table.groups@[tab - 1].start);
    }
    assert(now.in_group(table, tab - 1));
}

/// Moving the selection leaves it in the visible part of the grid.
pub proof fn law_a_moved_selection_is_visible(picker: PickerView, table: EmojiTable, delta: int)
    requires
        picker.wf(table),
        picker.view.len() > 0,
    ensures
        picker.moved(delta).shows(picker.moved(delta).selected),
        picker.moved(delta).wf(table),
{
}

/// Every visible cell's centre falls in that cell, and in no tab of the rail.
pub proof fn law_cell_centres_fall_in_their_cells(picker: PickerView, slot: int)
    requires
        picker.output is Some,
        picker.place.good(),
        0 <= slot < COLS * ROWS,
        0 <= picker.first_row,
        picker.first_row * COLS + slot < picker.view.len(),
    ensures
        ({
            let x = picker.place.cell_x(slot) + CELL_SIDE / 2;
            let y = picker.place.cell_y(slot) + CELL_SIDE / 2;
            &&& picker.cell_at(x, y) == Some(picker.first_row * COLS + slot)
            &&& picker.tab_at(x, y) is None
        }),
{
    let col = slot % 9;
    let row = slot / 9;
    let x = picker.place.cell_x(slot) + CELL_SIDE / 2 - picker.place.grid_x();
    let y = picker.place.cell_y(slot) + CELL_SIDE / 2 - picker.place.grid_y();
    assert(x / 64 == 40 * col + 20);
    assert(y / 64 == 40 * row + 20);
    assert((40 * col + 20) / 40 == col);
    assert((40 * row + 20) / 40 == row);
    assert(slot == 9 * row + col);
    picker.place.law_the_parts_are_in_the_panel();
}

/// Every tab's centre falls on that tab, and in no cell of the grid.
pub proof fn law_tab_centres_fall_on_their_tabs(picker: PickerView, tab: int)
    requires
        picker.output is Some,
        picker.place.good(),
        0 <= tab < TABS,
    ensures
        ({
            let x = picker.place.grid_x() + tab * RAIL_SIDE + RAIL_SIDE / 2;
            let y = picker.place.rail_y() + RAIL_SIDE / 2;
            &&& picker.tab_at(x, y) == Some(tab)
            &&& picker.cell_at(x, y) is None
        }),
{
    assert((tab * 2304 + 1152) / 64 == 36 * tab + 18);
    assert(tab * RAIL_SIDE == tab * 2304);
    picker.place.law_the_parts_are_in_the_panel();
}

/// The tone popover opens on what a plain pick would insert: on one of the emoji's spellings, and
/// on the place's own.
pub proof fn law_the_tones_open_on_what_a_pick_inserts(
    picker: PickerView,
    table: EmojiTable,
    index: usize,
)
    requires
        picker.wf(table),
        picker.toned_at(table, index as int),
    ensures
        ({
            let up = picker.with_tones(table, index);
            let at = (up.tone->0).1;
            &&& up.wf(table)
            &&& at < up.tone_count(table)
            &&& choices(table, picker.view[index as int].at as int)[at as int] == picker.spelling(
                table,
                index as int,
            )
        }),
{
    let slot = picker.view[index as int];
    let emoji = table.entries@[slot.at as int];
    assert(slot.at < table.entries@.len());
    assert(emoji.tones.len() == emoji.tones@.len());
}

/// Where the tone popover is up and on the screen, every spelling's centre falls on it.
pub proof fn law_tone_centres_fall_on_their_tones(picker: PickerView, table: EmojiTable, at: int)
    requires
        picker.wf(table),
        picker.tones_show(),
        0 <= at < picker.tone_count(table),
    ensures
        ({
            let n = picker.tone_count(table);
            let left = picker.place.tones_x(picker.tone_slot(), n) + TONE_PAD;
            let top = picker.place.tones_y(picker.tone_slot(), n) + TONE_PAD;
            let x = left + (at % (TONE_COLS as int)) * CELL_SIDE + CELL_SIDE / 2;
            let y = top + (at / (TONE_COLS as int)) * CELL_SIDE + CELL_SIDE / 2;
            picker.tone_at(table, x, y) == Some(at)
        }),
{
    let col = at % 5;
    let row = at / 5;
    assert((col * 2560 + 1280) / 64 == 40 * col + 20);
    assert((row * 2560 + 1280) / 64 == 40 * row + 20);
    assert(col * CELL_SIDE == col * 2560);
    assert(row * CELL_SIDE == row * 2560);
    assert((40 * col + 20) / 40 == col);
    assert((40 * row + 20) / 40 == row);
}

/// While the tone popover is up no key moves the grid behind it.
pub proof fn law_the_tone_popover_holds_the_grid_still(
    picker: PickerView,
    table: EmojiTable,
    key: Option<Key>,
    step: StepView,
    now: PickerView,
)
    requires
        picker.tone is Some,
        picker.tone_key(table, key, step, now),
    ensures
        now.view == picker.view,
        now.selected == picker.selected,
        now.first_row == picker.first_row,
        now.search == picker.search,
        now.on_recents == picker.on_recents,
        !(step is Close),
{
}

proof fn lemma_without_lead(text: Seq<char>, rest: Seq<Seq<char>>)
    requires
        forall|i: int| 0 <= i < rest.len() ==> #[trigger] rest[i] != text,
    ensures
        without(seq![text] + rest, text) == rest,
    decreases rest.len(),
{
    let all = seq![text] + rest;
    lemma_without(all, text);
    if rest.len() == 0 {
        assert(all.last() == text);
        lemma_without(all.drop_last(), text);
        assert(rest =~= Seq::empty());
    } else {
        let short = rest.drop_last();
        assert forall|i: int| 0 <= i < short.len() implies #[trigger] short[i] != text by {
            assert(short[i] == rest[i]);
        }
        lemma_without_lead(text, short);
        assert(all.drop_last() =~= seq![text] + short);
        assert(all.last() == rest[rest.len() - 1]);
        assert(short.push(rest.last()) =~= rest);
    }
}

proof fn lemma_kept(recents: Seq<Seq<char>>, text: Seq<char>)
    ensures
        forall|i: int|
            0 <= i < without(recents, text).len() ==> {
                &&& #[trigger] without(recents, text)[i] != text
                &&& recents.contains(without(recents, text)[i])
            },
        recents.no_duplicates() ==> without(recents, text).no_duplicates(),
    decreases recents.len(),
{
    lemma_without(recents, text);
    let kept = without(recents, text);
    if recents.len() > 0 {
        let rest = recents.drop_last();
        lemma_kept(rest, text);
        let before = without(rest, text);
        assert forall|i: int| 0 <= i < kept.len() implies #[trigger] kept[i] != text
            && recents.contains(kept[i]) by {
            if i < before.len() {
                assert(kept[i] == before[i]);
                assert(rest.contains(before[i]));
                let j = choose|j: int| 0 <= j < rest.len() && rest[j] == before[i];
                assert(recents[j] == kept[i]);
            } else {
                assert(recents[recents.len() - 1] == kept[i]);
            }
        }
        if recents.no_duplicates() {
            assert(rest.no_duplicates());
            assert forall|i: int, j: int| 0 <= i < j < kept.len() implies kept[i] != kept[j] by {
                assert(kept[i] == before[i]);
                assert(rest.contains(before[i]));
                let k = choose|k: int| 0 <= k < rest.len() && rest[k] == before[i];
                assert(recents[k] == kept[i]);
                if j < before.len() {
                    assert(kept[j] == before[j]);
                } else {
                    assert(recents[recents.len() - 1] == kept[j]);
                }
            }
        }
    }
}

/// The history leads with the last pick, is never longer than its cap, never repeats itself,
/// and otherwise holds only what it held.
pub proof fn law_a_pick_leads_the_history(recents: Seq<Seq<char>>, text: Seq<char>, cap: int)
    requires
        0 <= cap,
    ensures
        ({
            let now = picked_last(recents, text, cap);
            &&& now.len() <= cap
            &&& cap > 0 ==> now.len() > 0 && now[0] == text
            &&& recents.no_duplicates() ==> now.no_duplicates()
            &&& forall|i: int| 1 <= i < now.len() ==> #[trigger] now[i] != text
            &&& forall|i: int| 1 <= i < now.len() ==> recents.contains(#[trigger] now[i])
        }),
{
    lemma_kept(recents, text);
    let kept = without(recents, text);
    let now = picked_last(recents, text, cap);
    assert forall|i: int| 1 <= i < now.len() implies now[i] != text && recents.contains(
        #[trigger] now[i],
    ) by {
        assert(now[i] == kept[i - 1]);
    }
    if recents.no_duplicates() {
        assert forall|i: int, j: int| 0 <= i < j < now.len() implies now[i] != now[j] by {
            assert(now[j] == kept[j - 1]);
            if i > 0 {
                assert(now[i] == kept[i - 1]);
            }
        }
    }
}

/// Picking what was picked last changes nothing.
pub proof fn law_picking_again_keeps_the_history(
    recents: Seq<Seq<char>>,
    text: Seq<char>,
    cap: int,
)
    requires
        0 < cap,
    ensures
        picked_last(picked_last(recents, text, cap), text, cap) == picked_last(recents, text, cap),
{
    lemma_kept(recents, text);
    let now = picked_last(recents, text, cap);
    let kept = without(recents, text);
    let rest = now.drop_first();
    assert forall|i: int| 0 <= i < rest.len() implies #[trigger] rest[i] != text by {
        assert(rest[i] == kept[i]);
    }
    assert(now =~= seq![text] + rest);
    lemma_without_lead(text, rest);
    assert(picked_last(now, text, cap) =~= now);
}

/// How many of the first `n` recents the table has.
pub open spec fn known_before(resolved: Seq<Option<Slot>>, n: int) -> int
    decreases n,
{
    if n <= 0 {
        0
    } else {
        known_before(resolved, n - 1) + if resolved[n - 1] is Some {
            1int
        } else {
            0
        }
    }
}

proof fn lemma_known_order(resolved: Seq<Option<Slot>>)
    ensures
        known(resolved).len() == known_before(resolved, resolved.len() as int),
        forall|i: int|
            0 <= i < resolved.len() && (#[trigger] resolved[i]) is Some ==> {
                &&& 0 <= known_before(resolved, i) < known(resolved).len()
                &&& known(resolved)[known_before(resolved, i)] == resolved[i]->Some_0
            },
    decreases resolved.len(),
{
    if resolved.len() > 0 {
        let rest = resolved.drop_last();
        lemma_known_order(rest);
        assert forall|n: int| 0 <= n <= rest.len() implies #[trigger] known_before(resolved, n)
            == known_before(rest, n) by {
            lemma_known_prefix(resolved, rest, n);
        }
        assert forall|i: int| 0 <= i < resolved.len() && (#[trigger] resolved[i]) is Some implies {
            &&& 0 <= known_before(resolved, i) < known(resolved).len()
            &&& known(resolved)[known_before(resolved, i)] == resolved[i]->Some_0
        } by {
            assert(known_before(resolved, i) == known_before(rest, i));
            if i < rest.len() {
                assert(rest[i] == resolved[i]);
                assert(rest[i] is Some);
            }
        }
        assert(known_before(resolved, rest.len() as int) == known_before(rest, rest.len() as int));
    }
}

proof fn lemma_known_prefix(all: Seq<Option<Slot>>, part: Seq<Option<Slot>>, n: int)
    requires
        0 <= n <= part.len() <= all.len(),
        forall|i: int| 0 <= i < part.len() ==> #[trigger] part[i] == all[i],
    ensures
        known_before(all, n) == known_before(part, n),
    decreases n,
{
    if n > 0 {
        lemma_known_prefix(all, part, n - 1);
        assert(part[n - 1] == all[n - 1]);
    }
}

/// The recents' tab shows the history that the table has, in the history's order: a recent is as
/// far in as there are known ones before it, and nothing else is there. With all of them known,
/// cell `i` is recent `i`, and the first one the last pick.
pub proof fn law_the_recents_are_shown_newest_first(
    picker: &mut EmojiPicker,
    table: &EmojiTable,
    matches: &Vec<usize>,
    resolved: &Vec<Option<Slot>>,
)
    requires
        call_ensures(EmojiPicker::rebuild_view, (picker, table, matches, resolved), ()),
        old(picker).on_recents,
        old(picker).search@.len() == 0,
    ensures
        final(picker).view@.len() == known_before(resolved@, resolved@.len() as int),
        forall|i: int|
            0 <= i < resolved@.len() && (#[trigger] resolved@[i]) is Some ==> final(picker).view@[
            known_before(resolved@, i)] == resolved@[i]->Some_0,
        (forall|i: int| 0 <= i < resolved@.len() ==> (#[trigger] resolved@[i]) is Some) ==> {
            &&& final(picker).view@.len() == resolved@.len()
            &&& forall|i: int|
                0 <= i < resolved@.len() ==> Some(#[trigger] final(picker).view@[i])
                    == resolved@[i]
        },
        final(picker).selected == 0,
        final(picker).first_row == 0,
{
    lemma_known_order(resolved@);
    if forall|i: int| 0 <= i < resolved@.len() ==> (#[trigger] resolved@[i]) is Some {
        assert forall|i: int| 0 <= i <= resolved@.len() implies #[trigger] known_before(
            resolved@,
            i,
        ) == i by {
            lemma_all_known(resolved@, i);
        }
        assert forall|i: int| 0 <= i < resolved@.len() implies Some(
            #[trigger] final(picker).view@[i],
        ) == resolved@[i] by {
            assert(resolved@[i] is Some);
            assert(known_before(resolved@, i) == i);
        }
    }
}

proof fn lemma_all_known(resolved: Seq<Option<Slot>>, n: int)
    requires
        0 <= n <= resolved.len(),
        forall|i: int| 0 <= i < resolved.len() ==> (#[trigger] resolved[i]) is Some,
    ensures
        known_before(resolved, n) == n,
    decreases n,
{
    if n > 0 {
        lemma_all_known(resolved, n - 1);
        assert(resolved[n - 1] is Some);
    }
}

/// A search shows what it found, in the order it was found in, whatever tab is latched; off the
/// recents and without a search, the grid is the whole table in its own order.
pub proof fn law_the_grid_shows_what_was_found_or_all(
    picker: &mut EmojiPicker,
    table: &EmojiTable,
    matches: &Vec<usize>,
    resolved: &Vec<Option<Slot>>,
)
    requires
        call_ensures(EmojiPicker::rebuild_view, (picker, table, matches, resolved), ()),
        !old(picker).on_recents || exists|i: int|
            0 <= i < old(picker).search@.len() && !is_white(#[trigger] old(picker).search@[i]),
        table.entries@.len() <= usize::MAX,
    ensures
        (exists|i: int|
            0 <= i < old(picker).search@.len() && !is_white(#[trigger] old(picker).search@[i]))
            ==> {
            &&& final(picker).view@.len() == matches@.len()
            &&& forall|i: int|
                0 <= i < matches@.len() ==> (#[trigger] final(picker).view@[i]).at == matches@[i]
                    && final(picker).view@[i].tone is None
        },
        (forall|i: int|
            0 <= i < old(picker).search@.len() ==> is_white(#[trigger] old(picker).search@[i]))
            ==> {
            &&& final(picker).view@.len() == table.entries@.len()
            &&& forall|i: int|
                0 <= i < table.entries@.len() ==> (#[trigger] final(picker).view@[i]).at == i
                    && final(picker).view@[i].tone is None
        },
        final(picker).selected == 0,
        final(picker).first_row == 0,
        final(picker).search@ == old(picker).search@,
        final(picker)@.recents == old(picker)@.recents,
{
}

/// The arrow keys walk the grid: a step sideways is one cell, a step up or down is the cell
/// above or below in the same column, a page is the rows that show; a step out of the grid
/// stops at its first or its last cell. What the grid lists stays as it is.
pub proof fn law_the_arrows_walk_the_grid(
    picker: &mut EmojiPicker,
    table: &EmojiTable,
    resolved: &Vec<Option<Slot>>,
    key: Key,
    shift: bool,
    step: KeyStep,
)
    requires
        old(picker)@.wf(*table),
        old(picker)@.tone is None,
        old(picker)@.view.len() > 0,
        call_ensures(
            EmojiPicker::handle_key,
            (picker, table, resolved, Some(key), shift, true),
            step,
        ),
    ensures
        ({
            let from = old(picker)@.selected;
            let to = final(picker)@.selected;
            let last = old(picker)@.view.len() - 1;
            &&& key == Key::Right ==> to == if from < last {
                from + 1
            } else {
                last
            }
            &&& key == Key::Left ==> to == if from > 0 {
                from - 1
            } else {
                0
            }
            &&& key == Key::Down ==> if from + 9 <= last {
                to % 9 == from % 9 && to / 9 == from / 9 + 1
            } else {
                to == last
            }
            &&& key == Key::Up ==> if from >= 9 {
                to % 9 == from % 9 && to / 9 == from / 9 - 1
            } else {
                to == 0
            }
            &&& key == Key::PageDown ==> if from + 54 <= last {
                to % 9 == from % 9 && to / 9 == from / 9 + 6
            } else {
                to == last
            }
            &&& key == Key::PageUp ==> if from >= 54 {
                to % 9 == from % 9 && to / 9 == from / 9 - 6
            } else {
                to == 0
            }
            &&& key == Key::Right || key == Key::Left || key == Key::Down || key == Key::Up || key
                == Key::PageDown || key == Key::PageUp ==> {
                &&& step@ == StepView::Handled
                &&& final(picker)@.view == old(picker)@.view
                &&& final(picker)@.search == old(picker)@.search
                &&& final(picker)@.on_recents == old(picker)@.on_recents
                &&& final(picker)@.recents == old(picker)@.recents
                &&& final(picker)@.default_tone == old(picker)@.default_tone
                &&& final(picker)@.tone is None
                &&& final(picker)@.output == old(picker)@.output
                &&& final(picker)@.first_row <= to / 9 < final(picker)@.first_row + 6
            }
        }),
{
}

/// Enter inserts the selected cell's emoji: in the skin tone the cell was picked in, else in
/// the remembered one, else plain. The grid stays as it is.
pub proof fn law_enter_inserts_the_selected_emoji(
    picker: &mut EmojiPicker,
    table: &EmojiTable,
    resolved: &Vec<Option<Slot>>,
    key: Key,
    step: KeyStep,
)
    requires
        old(picker)@.wf(*table),
        old(picker)@.tone is None,
        key == Key::Return || key == Key::KpEnter || key == Key::IsoEnter,
        call_ensures(
            EmojiPicker::handle_key,
            (picker, table, resolved, Some(key), false, true),
            step,
        ),
    ensures
        final(picker)@ == old(picker)@,
        old(picker)@.view.len() == 0 ==> step@ == StepView::Handled,
        old(picker)@.view.len() > 0 ==> {
            let slot = old(picker)@.view[old(picker)@.selected];
            let emoji = table.entries@[slot.at as int];
            let own = slot.tone;
            let remembered = old(picker)@.default_tone;
            &&& own is Some && own->0 < emoji.tones@.len() ==> step@ == StepView::Insert(
                emoji.tones@[own->0 as int]@,
            )
            &&& own is None && remembered is Some && remembered->0 < emoji.tones@.len() ==> step@
                == StepView::Insert(emoji.tones@[remembered->0 as int]@)
            &&& own is None && remembered is None ==> step@ == StepView::Insert(emoji.ch@)
            &&& emoji.tones@.len() == 0 ==> step@ == StepView::Insert(emoji.ch@)
        },
{
}

/// Escape closes the picker, and puts an open tone popover away first; a key that was let go
/// does nothing; a key that nothing is bound to goes to the search entry.
pub proof fn law_escape_closes_and_text_is_typed(
    picker: &mut EmojiPicker,
    table: &EmojiTable,
    resolved: &Vec<Option<Slot>>,
    key: Option<Key>,
    shift: bool,
    pressed: bool,
    step: KeyStep,
)
    requires
        old(picker)@.wf(*table),
        call_ensures(
            EmojiPicker::handle_key,
            (picker, table, resolved, key, shift, pressed),
            step,
        ),
    ensures
        !pressed ==> step@ == StepView::Handled && final(picker)@ == old(picker)@,
        pressed && key == Some(Key::Escape) && old(picker)@.tone is None ==> step@
            == StepView::Close,
        pressed && key == Some(Key::Escape) && old(picker)@.tone is Some ==> {
            &&& step@ == StepView::Handled
            &&& final(picker)@.tone is None
            &&& final(picker)@.selected == old(picker)@.selected
            &&& final(picker)@.default_tone == old(picker)@.default_tone
        },
        pressed && (key is None || key == Some(Key::Other)) && old(picker)@.tone is None ==> step@
            == StepView::Edit && final(picker)@ == old(picker)@,
        pressed && (key is None || key == Some(Key::Other)) && old(picker)@.tone is Some ==> step@
            == StepView::Handled && final(picker)@ == old(picker)@,
{
}

/// Enter in the tone popover inserts the spelling that is selected there, the first being the
/// plain one, and remembers its tone for what is picked next.
pub proof fn law_a_chosen_tone_is_inserted_and_remembered(
    picker: &mut EmojiPicker,
    table: &EmojiTable,
    resolved: &Vec<Option<Slot>>,
    key: Key,
    shift: bool,
    step: KeyStep,
)
    requires
        old(picker)@.wf(*table),
        old(picker)@.tone is Some,
        key == Key::Return || key == Key::KpEnter || key == Key::IsoEnter,
        call_ensures(
            EmojiPicker::handle_key,
            (picker, table, resolved, Some(key), shift, true),
            step,
        ),
    ensures
        ({
            let (index, at) = old(picker)@.tone->0;
            let emoji = table.entries@[old(picker)@.view[index as int].at as int];
            &&& final(picker)@.tone is None
            &&& final(picker)@.view == old(picker)@.view
            &&& final(picker)@.selected == old(picker)@.selected
            &&& at == 0 ==> step@ == StepView::Insert(emoji.ch@) && final(picker)@.default_tone
                is None
            &&& at > 0 ==> step@ == StepView::Insert(emoji.tones@[at - 1]@)
                && final(picker)@.default_tone == Some((at - 1) as usize)
        }),
{
}

/// The arrow keys walk the tone popover, five spellings to a row, and stop at its ends; the
/// grid under it holds still.
pub proof fn law_the_arrows_walk_the_tones(
    picker: &mut EmojiPicker,
    table: &EmojiTable,
    resolved: &Vec<Option<Slot>>,
    key: Key,
    shift: bool,
    step: KeyStep,
)
    requires
        old(picker)@.wf(*table),
        old(picker)@.tone is Some,
        key == Key::Left || key == Key::Right || key == Key::Up || key == Key::Down,
        call_ensures(
            EmojiPicker::handle_key,
            (picker, table, resolved, Some(key), shift, true),
            step,
        ),
    ensures
        ({
            let (index, at) = old(picker)@.tone->0;
            let emoji = table.entries@[old(picker)@.view[index as int].at as int];
            let last = emoji.tones@.len() as int;
            let to = (final(picker)@.tone->0).1;
            &&& step@ == StepView::Handled
            &&& final(picker)@.tone is Some
            &&& (final(picker)@.tone->0).0 == index
            &&& final(picker)@.selected == old(picker)@.selected
            &&& final(picker)@.view == old(picker)@.view
            &&& final(picker)@.default_tone == old(picker)@.default_tone
            &&& key == Key::Right ==> to == if at < last {
                at + 1
            } else {
                last
            }
            &&& key == Key::Left ==> to == if at > 0 {
                at - 1
            } else {
                0
            }
            &&& key == Key::Down ==> to == if at + 5 <= last {
                at + 5
            } else {
                last
            }
            &&& key == Key::Up ==> to == if at >= 5 {
                at - 5
            } else {
                0
            }
        }),
{
    let (index, at) = old(picker)@.tone->0;
    let emoji = table.entries@[old(picker)@.view[index as int].at as int];
    assert(emoji.tones.len() == emoji.tones@.len());
}

/// Tab walks the rail one tab on, with Shift one tab back, from the tab that is latched, and
/// lands on the tab's first emoji with the search cleared.
pub proof fn law_tab_walks_the_rail(
    picker: &mut EmojiPicker,
    table: &EmojiTable,
    resolved: &Vec<Option<Slot>>,
    shift: bool,
    latched: Option<usize>,
    step: KeyStep,
)
    requires
        old(picker)@.wf(*table),
        old(picker)@.tone is None,
        call_ensures(EmojiPicker::current_tab, (&*old(picker), table), latched),
        call_ensures(
            EmojiPicker::handle_key,
            (picker, table, resolved, Some(Key::Tab), shift, true),
            step,
        ),
    ensures
        step@ == StepView::Handled,
        final(picker)@.search.len() == 0,
        ({
            let from: int = match latched {
                Some(t) => t as int,
                None => 0,
            };
            let to = if shift {
                from - 1
            } else {
                from + 1
            };
            &&& final(picker)@.on_recents <==> to <= 0
            &&& 1 <= to <= 9 && to <= table.groups@.len() && table.groups@[to - 1].start
                < final(picker)@.view.len() ==> final(picker)@.selected == table.groups@[to
                - 1].start
            &&& to > 9 && table.groups@.len() == 9 && table.groups@[8].start
                < final(picker)@.view.len() ==> final(picker)@.selected == table.groups@[8].start
            &&& to > 0 && (old(picker)@.on_recents || old(picker)@.search.len() > 0) ==> {
                &&& final(picker)@.view.len() == table.entries@.len()
                &&& forall|i: int|
                    0 <= i < table.entries@.len() ==> (#[trigger] final(picker)@.view[i]).at == i
            }
        }),
{
    let next = choose|tab: Option<usize>| #[trigger]
        old(picker)@.latched(*table, tab) && final(picker)@ == if next_tab(tab, shift) < TABS {
            old(picker)@.at_tab(*table, resolved@, next_tab(tab, shift))
        } else {
            old(picker)@
        };
    law_the_rail_latches_one_tab(old(picker)@, *table, next, latched);
    assert(table.entries.len() == table.entries@.len());
}

/// The picker opens with an empty search, on the recents if there are any and else on every
/// emoji in the table's order, at the first cell.
pub proof fn law_the_picker_opens_on_the_recents(
    picker: &mut EmojiPicker,
    output: u64,
    place: Place,
    table: &EmojiTable,
    resolved: &Vec<Option<Slot>>,
)
    requires
        call_ensures(EmojiPicker::open, (picker, output, place, table, resolved), ()),
    ensures
        final(picker)@.output == Some(output),
        final(picker)@.place == place,
        final(picker)@.search.len() == 0,
        final(picker)@.on_recents <==> old(picker)@.recents.len() > 0,
        final(picker)@.recents == old(picker)@.recents,
        final(picker)@.default_tone == old(picker)@.default_tone,
        final(picker)@.selected == 0,
        final(picker)@.first_row == 0,
        final(picker)@.tone is None,
        final(picker)@.hovered is None,
        final(picker)@.hovered_tab is None,
        old(picker)@.recents.len() == 0 ==> {
            &&& final(picker)@.view.len() == table.entries@.len()
            &&& forall|i: int|
                0 <= i < table.entries@.len() ==> (#[trigger] final(picker)@.view[i]).at == i
                    && final(picker)@.view[i].tone is None
        },
        old(picker)@.recents.len() > 0 && (forall|i: int|
            0 <= i < resolved@.len() ==> (#[trigger] resolved@[i]) is Some) ==> {
            &&& final(picker)@.view.len() == resolved@.len()
            &&& forall|i: int|
                0 <= i < resolved@.len() ==> #[trigger] final(picker)@.view[i] == resolved@[i]->0
        },
{
    assert(table.entries.len() == table.entries@.len());
    if forall|i: int| 0 <= i < resolved@.len() ==> (#[trigger] resolved@[i]) is Some {
        lemma_known_order(resolved@);
        assert forall|i: int| 0 <= i < resolved@.len() implies #[trigger] known(resolved@)[i]
            == resolved@[i]->0 by {
            lemma_all_known(resolved@, i);
            assert(resolved@[i] is Some);
        }
        lemma_all_known(resolved@, resolved@.len() as int);
    }
}

/// A click on a cell that shows picks what Enter on that cell inserts; with the secondary
/// button it puts the tones up instead, where the emoji has any. Either way the cell is the
/// selected one.
pub proof fn law_a_clicked_cell_is_picked(
    picker: &mut EmojiPicker,
    table: &EmojiTable,
    resolved: &Vec<Option<Slot>>,
    index: usize,
    cell: Area,
    text: Option<&str>,
    x: i64,
    y: i64,
    secondary: bool,
    picked: Option<String>,
)
    requires
        old(picker)@.wf(*table),
        old(picker)@.place.good(),
        old(picker)@.tone is None,
        call_ensures(EmojiPicker::cell_global_rect, (&*old(picker), index), Some(cell)),
        cell.x <= x < cell.x + cell.w,
        cell.y <= y < cell.y + cell.h,
        call_ensures(EmojiPicker::text_of, (&*old(picker), table, index), text),
        text is Some,
        call_ensures(
            EmojiPicker::pointer_click,
            (picker, table, resolved, x, y, secondary),
            picked,
        ),
    ensures
        final(picker)@.selected == index,
        final(picker)@.view == old(picker)@.view,
        final(picker)@.search == old(picker)@.search,
        final(picker)@.default_tone == old(picker)@.default_tone,
        ({
            let toned = table.entries@[old(picker)@.view[index as int].at as int].tones@.len() > 0;
            &&& picked is None <==> secondary && toned
            &&& picked matches Some(inserted) ==> inserted@ == text->0@
                && final(picker)@.tone is None
            &&& secondary && toned ==> final(picker)@.tone is Some && (final(picker)@.tone->0).0
                == index
        }),
{
    let place = old(picker)@.place;
    let slot = index - old(picker)@.first_row * COLS;
    assert(slot == 9 * (slot / 9) + slot % 9);
    let dx = x - place.grid_x();
    let dy = y - place.grid_y();
    assert(dx / 64 / 40 == slot % 9);
    assert(dy / 64 / 40 == slot / 9);
    place.law_the_parts_are_in_the_panel();
}

/// A pick leads the history; of the rest, what was before another is still before it.
pub proof fn law_a_pick_keeps_the_others_in_order(
    picker: &mut EmojiPicker,
    text: &str,
    cap: usize,
    history: Vec<String>,
    i: int,
    j: int,
)
    requires
        call_ensures(EmojiPicker::record_pick, (picker, text, cap), history),
        old(picker)@.recents.no_duplicates(),
        0 <= i < j < old(picker)@.recents.len(),
        old(picker)@.recents[i] != text@,
        old(picker)@.recents[j] != text@,
        final(picker)@.recents.contains(old(picker)@.recents[j]),
    ensures
        cap > 0 ==> final(picker)@.recents[0] == text@,
        final(picker)@.recents.len() <= cap,
        views(history@) == final(picker)@.recents,
        final(picker)@.recents.contains(old(picker)@.recents[i]),
        final(picker)@.recents.index_of(old(picker)@.recents[i])
            < final(picker)@.recents.index_of(old(picker)@.recents[j]),
{
    let was = old(picker)@.recents;
    let now = final(picker)@.recents;
    let kept = without(was, text@);
    law_a_pick_leads_the_history(was, text@, cap as int);
    lemma_kept(was, text@);
    lemma_kept_order(was, text@, i, j);
    let (a, b) = choose|a: int, b: int|
        0 <= a < b < kept.len() && kept[a] == was[i] && #[trigger] kept[b] == was[j]
            && #[trigger] kept[a] == was[i];
    let at: int = now.index_of(was[j]);
    assert(now[at] == was[j]);
    assert(now[at] == kept[at - 1]);
    assert(at - 1 == b);
    assert(now[a + 1] == kept[a]);
    let from: int = now.index_of(was[i]);
    assert(now[from] == was[i]);
}

proof fn lemma_kept_order(recents: Seq<Seq<char>>, text: Seq<char>, i: int, j: int)
    requires
        0 <= i < j < recents.len(),
        recents[i] != text,
        recents[j] != text,
    ensures
        exists|a: int, b: int|
            0 <= a < b < without(recents, text).len() && #[trigger] without(recents, text)[a]
                == recents[i] && #[trigger] without(recents, text)[b] == recents[j],
    decreases recents.len(),
{
    lemma_without(recents, text);
    let rest = recents.drop_last();
    let kept = without(recents, text);
    let before = without(rest, text);
    if j < recents.len() - 1 {
        lemma_kept_order(rest, text, i, j);
        let (a, b) = choose|a: int, b: int|
            0 <= a < b < before.len() && #[trigger] before[a] == rest[i] && #[trigger] before[b]
                == rest[j];
        assert(kept[a] == before[a]);
        assert(kept[b] == before[b]);
    } else {
        lemma_kept_one(rest, text, i);
        let a = choose|a: int| 0 <= a < before.len() && #[trigger] before[a] == rest[i];
        assert(kept[a] == before[a]);
        assert(kept[before.len() as int] == recents[j]);
    }
}

proof fn lemma_kept_one(recents: Seq<Seq<char>>, text: Seq<char>, i: int)
    requires
        0 <= i < recents.len(),
        recents[i] != text,
    ensures
        exists|a: int|
            0 <= a < without(recents, text).len() && #[trigger] without(recents, text)[a]
                == recents[i],
    decreases recents.len(),
{
    lemma_without(recents, text);
    let rest = recents.drop_last();
    let kept = without(recents, text);
    let before = without(rest, text);
    if i < recents.len() - 1 {
        lemma_kept_one(rest, text, i);
        let a = choose|a: int| 0 <= a < before.len() && #[trigger] before[a] == rest[i];
        assert(kept[a] == before[a]);
    } else {
        assert(kept[before.len() as int] == recents[i]);
    }
}

/// The wheel scrolls by whole rows and stops where the last row shows; what the grid lists and
/// what is selected in it stay.
pub proof fn law_the_wheel_scrolls_whole_rows(
    picker: &mut EmojiPicker,
    delta: isize,
    moved: bool,
)
    requires
        0 <= old(picker)@.first_row,
        call_ensures(EmojiPicker::scroll_rows, (picker, delta), moved),
    ensures
        ({
            let to = old(picker)@.first_row + delta;
            let n = old(picker)@.view.len();
            &&& moved <==> final(picker)@.first_row != old(picker)@.first_row
            &&& to >= 0 && 9 * (to + 5) < n ==> final(picker)@.first_row == to
            &&& to < 0 ==> final(picker)@.first_row == 0
            &&& to > 0 && 9 * (to + 5) >= n ==> {
                let first = final(picker)@.first_row;
                &&& first <= to
                &&& n <= 9 * (first + 6)
                &&& first > 0 ==> n > 9 * (first + 5)
            }
            &&& final(picker)@.view == old(picker)@.view
            &&& final(picker)@.selected == old(picker)@.selected
            &&& moved ==> final(picker)@.hovered is None
        }),
{
}

/// A click on a tab of the rail goes to that tab, and picks nothing.
pub proof fn law_a_clicked_tab_is_gone_to(
    picker: &mut EmojiPicker,
    jumped: &mut EmojiPicker,
    table: &EmojiTable,
    resolved: &Vec<Option<Slot>>,
    tab: usize,
    area: Area,
    x: i64,
    y: i64,
    secondary: bool,
    picked: Option<String>,
)
    requires
        old(picker)@.wf(*table),
        old(picker)@.output is Some,
        old(picker)@.tone is None,
        tab < TABS,
        call_ensures(Place::tab, (&old(picker).place, tab), area),
        area.x <= x < area.x + area.w,
        area.y <= y < area.y + area.h,
        *old(jumped) == *old(picker),
        call_ensures(EmojiPicker::go_to_tab, (jumped, table, resolved, tab), ()),
        call_ensures(
            EmojiPicker::pointer_click,
            (picker, table, resolved, x, y, secondary),
            picked,
        ),
    ensures
        picked is None,
        final(picker)@ == final(jumped)@,
        final(picker)@.on_recents <==> tab == 0,
        final(picker)@.search.len() == 0,
{
    let place = old(picker)@.place;
    let dx = x - place.grid_x();
    let dy = y - place.rail_y();
    assert(tab * RAIL_SIDE == tab * 2304);
    assert(dx / 64 / 36 == tab);
    assert(0 <= dy / 64 < 36);
}

/// A click on a spelling of the tone popover picks it and remembers its tone, the first being
/// the plain one; a click beside the spellings puts the popover away and picks nothing.
pub proof fn law_a_clicked_tone_is_picked(
    picker: &mut EmojiPicker,
    table: &EmojiTable,
    resolved: &Vec<Option<Slot>>,
    popover: Area,
    cols: usize,
    at: int,
    x: i64,
    y: i64,
    secondary: bool,
    picked: Option<String>,
)
    requires
        old(picker)@.wf(*table),
        old(picker)@.tone is Some,
        call_ensures(EmojiPicker::tone_geometry, (&*old(picker), table), Some((popover, cols))),
        0 <= at,
        call_ensures(
            EmojiPicker::pointer_click,
            (picker, table, resolved, x, y, secondary),
            picked,
        ),
    ensures
        final(picker)@.tone is None,
        final(picker)@.view == old(picker)@.view,
        final(picker)@.selected == old(picker)@.selected,
        picked is None ==> final(picker)@.default_tone == old(picker)@.default_tone,
        !popover.has(x as int, y as int) ==> picked is None,
        ({
            let (index, _) = old(picker)@.tone->0;
            let emoji = table.entries@[old(picker)@.view[index as int].at as int];
            let left = popover.x + TONE_PAD + (at % 5) * CELL_SIDE;
            let top = popover.y + TONE_PAD + (at / 5) * CELL_SIDE;
            let on = left <= x < left + CELL_SIDE && top <= y < top + CELL_SIDE;
            &&& on && at == 0 ==> picked is Some && picked->0@ == emoji.ch@
                && final(picker)@.default_tone is None
            &&& on && 0 < at <= emoji.tones@.len() ==> picked is Some && picked->0@
                == emoji.tones@[at - 1]@ && final(picker)@.default_tone == Some((at - 1) as usize)
        }),
{
    let was = old(picker)@;
    let n = was.tone_count(*table);
    let (col, row) = (at % 5, at / 5);
    let dx = x - popover.x - TONE_PAD;
    let dy = y - popover.y - TONE_PAD;
    assert(col * CELL_SIDE == col * 2560);
    assert(row * CELL_SIDE == row * 2560);
    if col * 2560 <= dx < col * 2560 + 2560 && row * 2560 <= dy < row * 2560 + 2560 {
        assert(dx / 64 / 40 == col);
        assert(dy / 64 / 40 == row);
    }
}

/// The pointer lights the cell it is on, and no tab with it; what is selected stays.
pub proof fn law_the_pointer_lights_its_cell(
    picker: &mut EmojiPicker,
    index: usize,
    cell: Area,
    x: i64,
    y: i64,
    changed: bool,
)
    requires
        old(picker)@.place.good(),
        0 <= old(picker)@.first_row,
        call_ensures(EmojiPicker::cell_global_rect, (&*old(picker), index), Some(cell)),
        index < old(picker)@.view.len(),
        cell.x <= x < cell.x + cell.w,
        cell.y <= y < cell.y + cell.h,
        call_ensures(EmojiPicker::pointer_motion, (picker, x, y), changed),
    ensures
        final(picker)@.hovered == Some(index),
        final(picker)@.hovered_tab is None,
        changed <==> old(picker)@.hovered != Some(index) || old(picker)@.hovered_tab is Some,
        final(picker)@.selected == old(picker)@.selected,
        final(picker)@.view == old(picker)@.view,
        final(picker)@.first_row == old(picker)@.first_row,
{
    let place = old(picker)@.place;
    let slot = index - old(picker)@.first_row * COLS;
    assert(slot == 9 * (slot / 9) + slot % 9);
    let dx = x - place.grid_x();
    let dy = y - place.grid_y();
    assert(dx / 64 / 40 == slot % 9);
    assert(dy / 64 / 40 == slot / 9);
    place.law_the_parts_are_in_the_panel();
}

/// What is typed into the search is what the grid then lists: the matches, in the order they
/// were found, with the first of them selected. A key that leaves the text alone leaves the
/// grid alone.
pub proof fn law_typing_lists_the_matches(
    picker: &mut EmojiPicker,
    table: &EmojiTable,
    changed: bool,
    text: String,
    matches: &Vec<usize>,
    resolved: &Vec<Option<Slot>>,
)
    requires
        call_ensures(EmojiPicker::edited, (picker, table, changed, text, matches, resolved), ()),
    ensures
        changed ==> final(picker)@.search == text@ && final(picker)@.selected == 0,
        changed && !is_blank(text@) ==> {
            &&& final(picker)@.view.len() == matches@.len()
            &&& forall|i: int|
                0 <= i < matches@.len() ==> (#[trigger] final(picker)@.view[i]).at == matches@[i]
                    && final(picker)@.view[i].tone is None
        },
        !changed ==> {
            &&& final(picker)@.search == old(picker)@.search
            &&& final(picker)@.view == old(picker)@.view
            &&& final(picker)@.selected == old(picker)@.selected
        },
        final(picker)@.on_recents == old(picker)@.on_recents,
        final(picker)@.recents == old(picker)@.recents,
{
}

} // verus!
