//! What the emoji picker draws, and where, relative to its output's corner.

use vstd::prelude::*;

use crate::area::{Area, UNITS};
use crate::emoji_picker::{
    as_int, choices, label_of_tab, EmojiPicker, EmojiTable, PickerView, Wash, COLS, ROWS, TABS,
};
use crate::picker_place::{
    tone_cols, Place, CELL_SIDE, GAP, PAD, PANEL_W, RAIL_SIDE, REACH, TONE_PAD,
};
use crate::text::views;

verus! {

/// A drawn cell of the grid.
pub struct PlacedCell {
    pub ch: String,
    pub area: Area,
    pub wash: Wash,
}

/// A drawn tab of the rail.
pub struct PlacedTab {
    pub label: &'static str,
    pub area: Area,
    pub wash: Wash,
}

/// A drawn spelling of the tone popover.
pub struct PlacedTone {
    pub text: String,
    pub area: Area,
    pub selected: bool,
}

/// The tone popover.
pub struct TonePlan {
    pub popover: Area,
    pub tones: Vec<PlacedTone>,
}

/// One layer of the picker.
#[derive(Clone, Copy, Debug, PartialEq, Eq, Structural)]
pub enum PickerLayer {
    /// The skin-tone popover.
    Tones,
    /// The search entry.
    Entry,
    /// The panel with its cells, the line above the rail and the rail's tabs.
    Panel,
}

/// The picker's layers, topmost first: the tone popover over the panel that it hangs off, and the
/// search entry on that panel.
pub open spec fn picker_layers(tones: bool) -> Seq<PickerLayer> {
    if tones {
        seq![PickerLayer::Tones, PickerLayer::Entry, PickerLayer::Panel]
    } else {
        seq![PickerLayer::Entry, PickerLayer::Panel]
    }
}

/// What the picker draws.
pub struct PickerPlan {
    /// What is drawn, topmost first.
    pub layers: Vec<PickerLayer>,
    pub panel: Area,
    pub entry: Area,
    pub cells: Vec<PlacedCell>,
    pub line: Area,
    pub tabs: Vec<PlacedTab>,
    pub tones: Option<TonePlan>,
}

/// The area is a box whose place on all outputs is given, seen from one output's corner.
pub open spec fn seen_from(out: Area, x: int, y: int, w: int, h: int, area: Area) -> bool {
    &&& area.x == x - out.x
    &&& area.y == y - out.y
    &&& area.w == w
    &&& area.h == h
}

fn from_corner(out: Area, area: Area) -> (local: Area)
    requires
        -REACH <= out.x <= REACH,
        -REACH <= out.y <= REACH,
        -20_000 * REACH <= area.x <= 20_000 * REACH,
        -20_000 * REACH <= area.y <= 20_000 * REACH,
    ensures
        seen_from(out, area.x as int, area.y as int, area.w as int, area.h as int, local),
{
    Area { x: area.x - out.x, y: area.y - out.y, w: area.w, h: area.h }
}

impl PickerView {
    /// How many cells show.
    pub open spec fn cells_shown(self) -> int {
        if self.view.len() - self.first_row * COLS < COLS * ROWS {
            self.view.len() - self.first_row * COLS
        } else {
            (COLS * ROWS) as int
        }
    }

    /// Visible cell `i`. A selected cell reads stronger than a hovered one, and one can be both.
    pub open spec fn is_cell(self, table: EmojiTable, i: int, cell: PlacedCell) -> bool {
        let index = self.first_row * COLS + i;
        &&& cell.ch@ == self.spelling(table, index)
        &&& seen_from(
            self.place.out,
            self.place.cell_x(i),
            self.place.cell_y(i),
            CELL_SIDE as int,
            CELL_SIDE as int,
            cell.area,
        )
        &&& cell.wash == if index == self.selected {
            Wash::Selected
        } else if as_int(self.hovered) == Some(index) {
            Wash::Hovered
        } else {
            Wash::Plain
        }
    }

    /// Tab `i` of the rail, with `latched` for the tab that is latched.
    pub open spec fn is_tab(self, latched: Option<usize>, i: int, tab: PlacedTab) -> bool {
        &&& tab.label@ == label_of_tab(i)
        &&& seen_from(
            self.place.out,
            self.place.grid_x() + i * RAIL_SIDE,
            self.place.rail_y(),
            RAIL_SIDE as int,
            RAIL_SIDE as int,
            tab.area,
        )
        &&& tab.wash == self.tab_wash(latched, i)
    }

    /// The rail's tabs.
    pub open spec fn is_rail(self, table: EmojiTable, tabs: Seq<PlacedTab>) -> bool {
        &&& tabs.len() == TABS
        &&& exists|latched: Option<usize>| #[trigger]
            self.latched(table, latched) && forall|i: int|
                0 <= i < TABS ==> self.is_tab(latched, i, #[trigger] tabs[i])
    }

    /// Spelling `i` of the open tone popover.
    pub open spec fn is_tone(self, table: EmojiTable, i: int, tone: PlacedTone) -> bool {
        let n = self.tone_count(table);
        let (index, at) = self.tone->0;
        &&& tone.text@ == choices(table, self.view[index as int].at as int)[i]
        &&& seen_from(
            self.place.out,
            self.place.tones_x(self.tone_slot(), n) + TONE_PAD + (i % tone_cols(n)) * CELL_SIDE,
            self.place.tones_y(self.tone_slot(), n) + TONE_PAD + (i / tone_cols(n)) * CELL_SIDE,
            CELL_SIDE as int,
            CELL_SIDE as int,
            tone.area,
        )
        &&& tone.selected == (i == at)
    }

    /// The open tone popover.
    pub open spec fn is_popover(self, table: EmojiTable, plan: TonePlan) -> bool {
        let n = self.tone_count(table);
        &&& seen_from(
            self.place.out,
            self.place.tones_x(self.tone_slot(), n),
            self.place.tones_y(self.tone_slot(), n),
            Place::tones_w(n),
            Place::tones_h(n),
            plan.popover,
        )
        &&& plan.tones@.len() == n
        &&& forall|i: int| 0 <= i < n ==> self.is_tone(table, i, #[trigger] plan.tones@[i])
    }

    /// Everything that is drawn.
    pub open spec fn is_drawn(self, table: EmojiTable, plan: PickerPlan) -> bool {
        let place = self.place;
        &&& plan.layers@ == picker_layers(self.tones_show())
        &&& seen_from(
            place.out,
            place.panel_x(),
            place.panel_y(),
            PANEL_W as int,
            place.panel_h(),
            plan.panel,
        )
        &&& seen_from(
            place.out,
            place.panel_x() + PAD,
            place.panel_y() + PAD,
            PANEL_W - 2 * PAD,
            place.entry_h as int,
            plan.entry,
        )
        &&& plan.cells@.len() == self.cells_shown()
        &&& forall|i: int|
            0 <= i < plan.cells@.len() ==> self.is_cell(table, i, #[trigger] plan.cells@[i])
        &&& seen_from(
            place.out,
            place.grid_x(),
            place.rail_y() - GAP / 2,
            COLS * CELL_SIDE,
            UNITS as int,
            plan.line,
        )
        &&& self.is_rail(table, plan.tabs@)
        &&& plan.tones is Some <==> self.tones_show()
        &&& plan.tones matches Some(tones) ==> self.is_popover(table, tones)
    }
}

impl EmojiPicker {
    fn placed_cells(&self, table: &EmojiTable) -> (placed: Vec<PlacedCell>)
        requires
            self@.wf(*table),
        ensures
            placed@.len() == self@.cells_shown(),
            forall|i: int|
                0 <= i < placed@.len() ==> self@.is_cell(*table, i, #[trigger] placed@[i]),
    {
        let cells = self.visible_cells(table);
        let mut placed: Vec<PlacedCell> = Vec::new();
        let mut i: usize = 0;
        while i < cells.len()
            invariant
                self@.wf(*table),
                cells@.len() == self@.cells_shown(),
                cells@.len() <= COLS * ROWS,
                forall|j: int|
                    0 <= j < cells@.len() ==> {
                        let index = self@.first_row * COLS + j;
                        &&& (#[trigger] cells@[j]).ch@ == self@.spelling(*table, index)
                        &&& cells@[j].slot == j
                        &&& cells@[j].selected == (index == self@.selected)
                        &&& cells@[j].hovered == (as_int(self@.hovered) == Some(index))
                    },
                i <= cells@.len(),
                placed@.len() == i,
                forall|j: int|
                    0 <= j < i ==> self@.is_cell(*table, j, #[trigger] placed@[j]),
            decreases cells@.len() - i,
        {
            let cell = &cells[i];
            let wash = if cell.selected {
                Wash::Selected
            } else if cell.hovered {
                Wash::Hovered
            } else {
                Wash::Plain
            };
            let area = from_corner(self.place.out, self.place.cell(cell.slot));
            placed.push(PlacedCell { ch: cell.ch.clone(), area, wash });
            i = i + 1;
        }
        placed
    }

    fn placed_tabs(&self, table: &EmojiTable) -> (placed: Vec<PlacedTab>)
        requires
            self@.wf(*table),
        ensures
            self@.is_rail(*table, placed@),
    {
        let tabs = self.rail_tabs(table);
        let ghost latched = choose|latched: Option<usize>| #[trigger]
            self@.latched(*table, latched) && forall|i: int|
                0 <= i < TABS ==> {
                    &&& (#[trigger] tabs@[i]).label@ == label_of_tab(i)
                    &&& tabs@[i].wash == self@.tab_wash(latched, i)
                };
        let mut placed: Vec<PlacedTab> = Vec::new();
        let mut i: usize = 0;
        while i < TABS
            invariant
                self@.wf(*table),
                tabs@.len() == TABS,
                forall|j: int|
                    0 <= j < TABS ==> {
                        &&& (#[trigger] tabs@[j]).label@ == label_of_tab(j)
                        &&& tabs@[j].wash == self@.tab_wash(latched, j)
                    },
                i <= TABS,
                placed@.len() == i,
                forall|j: int| 0 <= j < i ==> self@.is_tab(latched, j, #[trigger] placed@[j]),
            decreases TABS - i,
        {
            let area = from_corner(self.place.out, self.place.tab(i));
            placed.push(PlacedTab { label: tabs[i].label, area, wash: tabs[i].wash });
            i = i + 1;
        }
        assert(self@.latched(*table, latched));
        placed
    }

    fn placed_tones(&self, table: &EmojiTable) -> (plan: Option<TonePlan>)
        requires
            self@.wf(*table),
        ensures
            plan is Some <==> self@.tones_show(),
            plan matches Some(tones) ==> self@.is_popover(*table, tones),
    {
        let (popover, cols) = match self.tone_geometry(table) {
            Some(p) => p,
            None => {
                return None;
            },
        };
        let (index, at) = match self.tone {
            Some(t) => t,
            None => {
                return None;
            },
        };
        let spellings = match self.tone_choices(table, index) {
            Some(s) => s,
            None => {
                return None;
            },
        };
        let ghost n = self@.tone_count(*table);
        assert(views(spellings@).len() == n);
        let mut tones: Vec<PlacedTone> = Vec::new();
        let mut i: usize = 0;
        while i < spellings.len()
            invariant
                self@.wf(*table),
                self@.tone == Some((index, at)),
                n == self@.tone_count(*table),
                n == spellings@.len(),
                n > 0,
                cols == tone_cols(n),
                views(spellings@) == choices(*table, self@.view[index as int].at as int),
                popover.x == self@.place.tones_x(self@.tone_slot(), n),
                popover.y == self@.place.tones_y(self@.tone_slot(), n),
                -4 * REACH <= popover.x <= 11 * REACH,
                -10_000 * REACH <= popover.y <= 11 * REACH,
                i <= n,
                tones@.len() == i,
                forall|j: int| 0 <= j < i ==> self@.is_tone(*table, j, #[trigger] tones@[j]),
            decreases n - i,
        {
            proof {
                let across = i as int % cols as int;
                let down = i as int / cols as int;
                assert(0 <= down <= i && 0 <= across < cols) by (nonlinear_arith)
                    requires
                        across == i as int % cols as int,
                        down == i as int / cols as int,
                        cols > 0,
                        i >= 0,
                ;
            }
            let cell = Area {
                x: popover.x + TONE_PAD + (i % cols) as i128 * CELL_SIDE,
                y: popover.y + TONE_PAD + (i / cols) as i128 * CELL_SIDE,
                w: CELL_SIDE,
                h: CELL_SIDE,
            };
            assert(views(spellings@)[i as int] == spellings@[i as int]@);
            tones.push(
                PlacedTone {
                    text: spellings[i].clone(),
                    area: from_corner(self.place.out, cell),
                    selected: i == at,
                },
            );
            i = i + 1;
        }
        Some(TonePlan { popover: from_corner(self.place.out, popover), tones })
    }

    /// What an output draws of the picker: nothing unless it is the one that the picker is open
    /// on.
    pub fn render_plan(&self, table: &EmojiTable, output: u64) -> (plan: Option<PickerPlan>)
        requires
            self@.wf(*table),
        ensures
            plan is Some <==> self@.output == Some(output),
            plan matches Some(p) ==> self@.is_drawn(*table, p),
    {
        match self.output {
            Some(open) => if open != output {
                return None;
            },
            None => {
                return None;
            },
        }
        let out = self.place.out;
        let rail = self.place.rail();
        let line = Area { x: rail.x, y: rail.y - GAP / 2, w: rail.w, h: UNITS };
        let tones = self.placed_tones(table);
        let mut layers: Vec<PickerLayer> = Vec::new();
        if tones.is_some() {
            layers.push(PickerLayer::Tones);
        }
        layers.push(PickerLayer::Entry);
        layers.push(PickerLayer::Panel);
        assert(layers@ =~= picker_layers(self@.tones_show()));
        Some(
            PickerPlan {
                layers,
                panel: from_corner(out, self.place.panel()),
                entry: from_corner(out, self.place.entry()),
                cells: self.placed_cells(table),
                line: from_corner(out, line),
                tabs: self.placed_tabs(table),
                tones,
            },
        )
    }
}

/// The line above the rail is between the grid and the rail, touching neither.
pub proof fn law_the_line_parts_the_grid_from_the_rail(place: Place)
    ensures
        place.grid_y() + ROWS * CELL_SIDE < place.rail_y() - GAP / 2,
        place.rail_y() - GAP / 2 + UNITS < place.rail_y(),
{
}

} // verus!
