//! The overview's app grid: pages of installed apps and folders.
//!
//! Here is what the grid does with its entries, its pages, the pointer and the keyboard; where
//! things are on a page is in `grid_layout`. A page change takes effect at once, and the view
//! slides after it. The slide's and the previews' animations are the caller's, and so is the
//! tracker of a swipe's velocity.

use vstd::prelude::*;

use crate::grid_entry::{AppGridEntry, EntryView};
use crate::grid_layout::{larger, smaller, Band, Grid, PageAlign, FINE, MAX_ENTRIES};
use crate::icon::AppIconRef;
use crate::lists::{first_where, lemma_first_where};
use crate::text::{same_text, views};

verus! {

/// How long a drop target holds still before the grid makes room for it.
pub const DELAYED_MOVE_MS: u64 = 200;

/// How near the grid's edge a drag flips the page at once, in logical pixels.
pub const EDGE_BUMP_PX: u32 = 20;

/// How long a drag is over a side band before the page flips, and flips again.
pub const PAGE_SWITCH_INITIAL_MS: u64 = 1000;

pub const PAGE_SWITCH_REPEAT_MS: u64 = 1000;

/// How long the view takes to slide to another page.
pub const PAGE_SWITCH_MS: u64 = 300;

/// How many of a folder's members its tile shows.
pub const FOLDER_SUBICONS: usize = 4;

/// What a two-finger scroll's travel is multiplied by.
pub const SWIPE_SCROLL_MULTIPLIER: u32 = 10;

/// The travel on a touchpad that is a page.
pub const SWIPE_TOUCHPAD_PAGE: i128 = 400 * FINE;

/// From what travel in a second a release is a flick.
pub const SWIPE_VELOCITY_THRESHOLD_TOUCHPAD: i128 = 600 * FINE;

pub const SWIPE_VELOCITY_THRESHOLD_TOUCH: i128 = 300 * FINE;

/// How long the view takes to settle after a swipe.
pub const SWIPE_MIN_MS: u64 = 100;

pub const SWIPE_MAX_MS: u64 = 400;

/// How far past a tile's edge another may reach and still count as beside it: a tenth of a
/// pixel.
pub const SLOP: i128 = 13_440;

/// Where a swipe comes from.
#[derive(Clone, Copy, Debug, PartialEq, Eq, Structural)]
pub enum SwipeSource {
    /// Two fingers on a touchpad.
    Touchpad,
    /// A drag with the pointer, as far as the content moves.
    Pointer,
}

/// A direction to move the focus in.
#[derive(Clone, Copy, Debug, PartialEq, Eq, Structural)]
pub enum FocusDir {
    Left,
    Right,
    Up,
    Down,
}

/// The arrow to the page before or to the page after.
#[derive(Clone, Copy, Debug, PartialEq, Eq, Structural)]
pub enum PageArrow {
    Prev,
    Next,
}

/// Where a drag is, relative to the tile under it.
#[derive(Clone, Copy, Debug, PartialEq, Eq, Structural)]
pub enum DragLocation {
    /// Near its leading edge: insert before it.
    StartEdge,
    /// Over its body: nothing is inserted.
    OnIcon,
    /// Near its trailing edge: insert after it.
    EndEdge,
    /// Past the page's last tile: append to the page.
    EmptySpace,
}

/// Where a drag would drop.
#[derive(Clone, Copy, Debug, PartialEq, Eq, Structural)]
pub struct GridDropTarget {
    pub page: usize,
    /// The place on the page, or the page's end.
    pub position: Option<usize>,
    pub location: DragLocation,
}

/// The app grid.
pub struct AppGrid {
    pub entries: Vec<AppGridEntry>,
    /// The entry under the pointer.
    pub hovered: Option<usize>,
    pub hovered_arrow: Option<PageArrow>,
    /// The entry with the keyboard focus.
    pub focused: Option<usize>,
    /// The page that is shown, or that the view is on its way to.
    pub current_page: usize,
    /// The swipe that holds the view.
    pub gesture: Option<Swipe>,
    /// Bumped whenever what the pages show at rest changes.
    pub content_rev: u64,
    /// The ids in order, as they were before a drag.
    pub reorder_restore: Option<Vec<String>>,
    /// A drag is in flight, so the neighbouring pages peek in.
    pub drag_active: bool,
    /// The side band that the drag is over.
    pub hint_hovered: Option<PageArrow>,
    /// A tile that fades, by its id, and how opaque it is.
    pub tile_fade: Option<(String, u32)>,
    pub align: PageAlign,
}

/// A swipe in progress.
#[derive(Clone, Copy, Debug, PartialEq, Eq, Structural)]
pub struct Swipe {
    /// Where the view is, and where it was to start with.
    pub pos: i128,
    pub from: i128,
    /// What a page is in those units.
    pub unit: i128,
    pub source: SwipeSource,
}

/// The entries by their characters.
pub open spec fn seen(entries: Seq<AppGridEntry>) -> Seq<EntryView> {
    entries.map_values(|e: AppGridEntry| e.seen())
}

/// The entries' ids, in order.
pub open spec fn ids(entries: Seq<AppGridEntry>) -> Seq<Seq<char>> {
    entries.map_values(|e: AppGridEntry| e.id@)
}

/// Which entries have this id.
pub open spec fn has_id(entries: Seq<AppGridEntry>, id: Seq<char>) -> spec_fn(int) -> bool {
    |i: int| entries[i].id@ == id
}

/// The first entry with this id, or the entries' number.
pub open spec fn index_in(entries: Seq<AppGridEntry>, id: Seq<char>) -> int {
    first_where(entries.len() as int, has_id(entries, id), 0)
}

fn same_entries(a: &Vec<AppGridEntry>, b: &Vec<AppGridEntry>) -> (same: bool)
    ensures
        same == (seen(a@) == seen(b@)),
{
    if a.len() != b.len() {
        assert(seen(a@).len() != seen(b@).len());
        return false;
    }
    let mut i: usize = 0;
    while i < a.len()
        invariant
            i <= a@.len(),
            a@.len() == b@.len(),
            forall|j: int| 0 <= j < i ==> seen(a@)[j] == seen(b@)[j],
        decreases a@.len() - i,
    {
        if !a[i].same(&b[i]) {
            assert(seen(a@)[i as int] != seen(b@)[i as int]);
            return false;
        }
        i = i + 1;
    }
    assert(seen(a@) =~= seen(b@));
    true
}

fn find(entries: &Vec<AppGridEntry>, id: &str) -> (found: Option<usize>)
    ensures
        match found {
            Some(i) => i < entries@.len() && i == index_in(entries@, id@) && entries@[i as int].id@
                == id@,
            None => index_in(entries@, id@) == entries@.len(),
        },
{
    let ghost wanted = has_id(entries@, id@);
    let ghost n = entries@.len() as int;
    let mut i: usize = 0;
    while i < entries.len()
        invariant
            i <= entries@.len(),
            n == entries@.len(),
            wanted == has_id(entries@, id@),
            first_where(n, wanted, 0) == first_where(n, wanted, i as int),
        decreases entries@.len() - i,
    {
        assert(wanted(i as int) == (entries@[i as int].id@ == id@));
        if same_text(entries[i].id.as_str(), id) {
            return Some(i);
        }
        i = i + 1;
    }
    None
}

impl AppGrid {
    /// The grid as its geometry sees it.
    pub open spec fn grid(&self, band: Band) -> Grid {
        Grid { n: self.entries@.len() as int, align: self.align, band }
    }

    /// The band and the entries can be measured.
    pub open spec fn measured(&self, band: Band) -> bool {
        band.good() && self.entries@.len() <= MAX_ENTRIES
    }

    pub open spec fn empty_of(align: PageAlign, grid: AppGrid) -> bool {
        &&& grid.entries@.len() == 0
        &&& grid.hovered is None
        &&& grid.hovered_arrow is None
        &&& grid.focused is None
        &&& grid.current_page == 0
        &&& grid.gesture is None
        &&& grid.content_rev == 0
        &&& grid.reorder_restore is None
        &&& !grid.drag_active
        &&& grid.hint_hovered is None
        &&& grid.tile_fade is None
        &&& grid.align == align
    }

    /// An empty grid.
    pub fn new() -> (grid: Self)
        ensures
            AppGrid::empty_of(PageAlign::Fill, grid),
    {
        AppGrid::with_align(PageAlign::Fill)
    }

    /// A folder's own grid, empty: one page mode, and the cells together in the middle.
    pub fn folder_view() -> (grid: Self)
        ensures
            AppGrid::empty_of(PageAlign::Center, grid),
    {
        AppGrid::with_align(PageAlign::Center)
    }

    fn with_align(align: PageAlign) -> (grid: Self)
        ensures
            AppGrid::empty_of(align, grid),
    {
        AppGrid {
            entries: Vec::new(),
            hovered: None,
            hovered_arrow: None,
            focused: None,
            current_page: 0,
            gesture: None,
            content_rev: 0,
            reorder_restore: None,
            drag_active: false,
            hint_hovered: None,
            tile_fade: None,
            align,
        }
    }

    /// Let the neighbouring pages peek in, or not any more. Returns whether they start to
    /// move.
    pub fn set_drag_active(&mut self, active: bool) -> (moves: bool)
        ensures
            moves == (old(self).drag_active != active),
            *final(self) == (AppGrid {
                drag_active: active,
                hint_hovered: if moves && !active {
                    None
                } else {
                    old(self).hint_hovered
                },
                ..*old(self)
            }),
    {
        if self.drag_active == active {
            return false;
        }
        self.drag_active = active;
        if !active {
            self.hint_hovered = None;
        }
        true
    }

    /// Take note of the side band that a drag is over. Returns whether that is a change.
    pub fn set_hint_hovered(&mut self, hint: Option<PageArrow>) -> (changed: bool)
        ensures
            changed == (old(self).hint_hovered != hint),
            *final(self) == (AppGrid { hint_hovered: hint, ..*old(self) }),
    {
        if same_arrow(self.hint_hovered, hint) {
            return false;
        }
        self.hint_hovered = hint;
        true
    }

    /// Whether something still moves: the previews, or the view on its own.
    pub fn are_animations_ongoing(&self, peek_done: bool, slide_done: bool) -> (ongoing: bool)
        ensures
            ongoing == (!peek_done || (self.gesture is None && !slide_done)),
    {
        !peek_done || (self.gesture.is_none() && !slide_done)
    }

    /// Replace the entries. Returns whether that is a change. A hover or a focus past the end
    /// is let go.
    pub fn set_entries(&mut self, entries: Vec<AppGridEntry>) -> (changed: bool)
        ensures
            changed == (seen(entries@) != seen(old(self).entries@)),
            *final(self) == if changed {
                AppGrid {
                    entries,
                    hovered: kept(old(self).hovered, entries@.len()),
                    focused: kept(old(self).focused, entries@.len()),
                    content_rev: old(self).content_rev.wrapping_add(1),
                    ..*old(self)
                }
            } else {
                *old(self)
            },
    {
        if same_entries(&self.entries, &entries) {
            return false;
        }
        self.entries = entries;
        if let Some(i) = self.hovered {
            if i >= self.entries.len() {
                self.hovered = None;
            }
        }
        if let Some(i) = self.focused {
            if i >= self.entries.len() {
                self.focused = None;
            }
        }
        self.content_rev = self.content_rev.wrapping_add(1);
        true
    }

    /// The id of entry `i`: what a click launches.
    pub fn entry_id(&self, i: usize) -> (id: Option<&str>)
        ensures
            match id {
                Some(id) => i < self.entries@.len() && id@ == self.entries@[i as int].id@,
                None => i >= self.entries@.len(),
            },
    {
        if i < self.entries.len() {
            Some(self.entries[i].id.as_str())
        } else {
            None
        }
    }

    /// The entry with this id.
    pub fn index_of(&self, id: &str) -> (index: Option<usize>)
        ensures
            match index {
                Some(i) => i < self.entries@.len() && i == index_in(self.entries@, id@)
                    && self.entries@[i as int].id@ == id@,
                None => index_in(self.entries@, id@) == self.entries@.len(),
            },
    {
        find(&self.entries, id)
    }

    /// The name of entry `i`.
    pub fn entry_name(&self, i: usize) -> (name: Option<&str>)
        ensures
            match name {
                Some(name) => i < self.entries@.len() && name@ == self.entries@[i as int].name@,
                None => i >= self.entries@.len(),
            },
    {
        if i < self.entries.len() {
            Some(self.entries[i].name.as_str())
        } else {
            None
        }
    }

    /// The members of entry `i`, if it is a folder.
    pub fn entry_folder(&self, i: usize) -> (members: Option<&Vec<AppGridEntry>>)
        ensures
            match members {
                Some(members) => i < self.entries@.len() && self.entries@[i as int].folder == Some(
                    *members,
                ),
                None => i >= self.entries@.len() || self.entries@[i as int].folder is None,
            },
    {
        if i < self.entries.len() {
            self.entries[i].folder.as_ref()
        } else {
            None
        }
    }

    /// The icon of entry `i`.
    pub fn entry_icon(&self, i: usize) -> (icon: Option<&AppIconRef>)
        ensures
            match icon {
                Some(icon) => i < self.entries@.len() && *icon == self.entries@[i as int].icon,
                None => i >= self.entries@.len(),
            },
    {
        if i < self.entries.len() {
            Some(&self.entries[i].icon)
        } else {
            None
        }
    }

    /// Take note of the entry under the pointer. Returns whether that is a change. What the
    /// pages show at rest is not: the hover is drawn apart.
    pub fn set_hovered(&mut self, hovered: Option<usize>) -> (changed: bool)
        ensures
            changed == (old(self).hovered != hovered),
            *final(self) == (AppGrid { hovered, ..*old(self) }),
    {
        if same_index(self.hovered, hovered) {
            return false;
        }
        self.hovered = hovered;
        true
    }

    /// The entry with the keyboard focus.
    pub fn focused(&self) -> (focused: Option<usize>)
        ensures
            focused == self.focused,
    {
        self.focused
    }

    /// Move the keyboard focus, or drop it. Returns whether that is a change.
    pub fn set_focused(&mut self, focused: Option<usize>) -> (changed: bool)
        ensures
            changed == (old(self).focused != kept(focused, old(self).entries@.len())),
            *final(self) == (AppGrid {
                focused: kept(focused, old(self).entries@.len()),
                ..*old(self)
            }),
    {
        let focused = match focused {
            Some(i) => if i < self.entries.len() {
                Some(i)
            } else {
                None
            },
            None => None,
        };
        if same_index(self.focused, focused) {
            return false;
        }
        self.focused = focused;
        true
    }

    /// Fade a tile by its id, or none. Returns whether that is a change. Which tile fades
    /// changes what the pages show at rest; how far it has faded does not.
    pub fn set_tile_fade(&mut self, fade: Option<(String, u32)>) -> (changed: bool)
        ensures
            changed == (fade_view(fade) != fade_view(old(self).tile_fade)),
            fade_view(final(self).tile_fade) == fade_view(fade),
            *final(self) == (AppGrid {
                tile_fade: final(self).tile_fade,
                content_rev: if fade_id(fade) != fade_id(old(self).tile_fade) {
                    old(self).content_rev.wrapping_add(1)
                } else {
                    old(self).content_rev
                },
                ..*old(self)
            }),
    {
        let same_tile = match (&self.tile_fade, &fade) {
            (Some((a, _)), Some((b, _))) => same_text(a.as_str(), b.as_str()),
            (None, None) => true,
            _ => false,
        };
        let same_opacity = match (&self.tile_fade, &fade) {
            (Some((_, a)), Some((_, b))) => *a == *b,
            _ => true,
        };
        if same_tile && same_opacity {
            return false;
        }
        self.tile_fade = fade;
        if !same_tile {
            self.content_rev = self.content_rev.wrapping_add(1);
        }
        true
    }

    /// Take note of the arrow under the pointer. Returns whether that is a change.
    pub fn set_arrow_hovered(&mut self, arrow: Option<PageArrow>) -> (changed: bool)
        ensures
            changed == (old(self).hovered_arrow != arrow),
            *final(self) == (AppGrid { hovered_arrow: arrow, ..*old(self) }),
    {
        if same_arrow(self.hovered_arrow, arrow) {
            return false;
        }
        self.hovered_arrow = arrow;
        true
    }

    pub fn current_page(&self) -> (page: usize)
        ensures
            page == self.current_page,
    {
        self.current_page
    }

    pub fn content_rev(&self) -> (revision: u64)
        ensures
            revision == self.content_rev,
    {
        self.content_rev
    }
}

/// An index that is still below `n`.
pub open spec fn kept(index: Option<usize>, n: nat) -> Option<usize> {
    match index {
        Some(i) if i < n => Some(i),
        _ => None,
    }
}

pub open spec fn fade_view(fade: Option<(String, u32)>) -> Option<(Seq<char>, u32)> {
    match fade {
        Some(f) => Some((f.0@, f.1)),
        None => None,
    }
}

/// The tile that fades.
pub open spec fn fade_id(fade: Option<(String, u32)>) -> Option<Seq<char>> {
    match fade {
        Some(f) => Some(f.0@),
        None => None,
    }
}

fn same_arrow(a: Option<PageArrow>, b: Option<PageArrow>) -> (same: bool)
    ensures
        same == (a == b),
{
    match (a, b) {
        (Some(x), Some(y)) => x == y,
        (None, None) => true,
        _ => false,
    }
}

fn same_index(a: Option<usize>, b: Option<usize>) -> (same: bool)
    ensures
        same == (a == b),
{
    match (a, b) {
        (Some(x), Some(y)) => x == y,
        (None, None) => true,
        _ => false,
    }
}

/// Where an entry that was pulled out goes back in, in a list of `n` others: at its place on
/// the page, or at the page's end.
pub open spec fn landing(target: GridDropTarget, per_page: int, n: int) -> int {
    let start = smaller(target.page * per_page, n);
    let end = smaller(start + per_page, n);
    match target.position {
        Some(position) => smaller(start + position, end),
        None => end,
    }
}

/// The entries with one moved.
pub open spec fn moved_entries(
    entries: Seq<AppGridEntry>,
    from: int,
    target: GridDropTarget,
    per_page: int,
) -> Seq<AppGridEntry> {
    entries.remove(from).insert(landing(target, per_page, entries.len() - 1), entries[from])
}

/// The entries in the order of these ids, and those of no such id behind them.
pub open spec fn in_order(order: Seq<Seq<char>>, entries: Seq<AppGridEntry>) -> Seq<AppGridEntry>
    decreases order.len(),
{
    if order.len() == 0 {
        entries
    } else {
        let k = index_in(entries, order[0]);
        if k < entries.len() {
            seq![entries[k]] + in_order(order.drop_first(), entries.remove(k))
        } else {
            in_order(order.drop_first(), entries)
        }
    }
}

/// As far as both go, the ids are those of the entries.
pub open spec fn agrees(order: Seq<Seq<char>>, entries: Seq<AppGridEntry>) -> bool {
    forall|i: int|
        0 <= i < order.len() && i < entries.len() ==> #[trigger] order[i] == entries[i].id@
}

fn agree(order: &Vec<String>, entries: &Vec<AppGridEntry>) -> (agree: bool)
    ensures
        agree == agrees(views(order@), entries@),
{
    let mut i: usize = 0;
    while i < order.len() && i < entries.len()
        invariant
            i <= order@.len(),
            i <= entries@.len(),
            forall|j: int| 0 <= j < i ==> #[trigger] views(order@)[j] == entries@[j].id@,
        decreases order@.len() - i,
    {
        if !same_text(order[i].as_str(), entries[i].id.as_str()) {
            assert(views(order@)[i as int] != entries@[i as int].id@);
            return false;
        }
        i = i + 1;
    }
    true
}

impl AppGrid {
    /// The id at a drop target: none at a page's end.
    pub fn entry_id_at(&self, target: GridDropTarget, per_page: usize) -> (id: Option<&str>)
        ensures
            match id {
                Some(id) => target.position is Some && target.page * per_page
                    + target.position->Some_0 < self.entries@.len() && id@ == self.entries@[
                target.page * per_page + target.position->Some_0].id@,
                None => target.position is None || target.page * per_page
                    + target.position->Some_0 >= self.entries@.len(),
            },
    {
        match target.position {
            Some(position) => {
                let start: u128 = product(target.page, per_page);
                let index: u128 = start + position as u128;
                if index < self.entries.len() as u128 {
                    self.entry_id(index as usize)
                } else {
                    None
                }
            },
            None => None,
        }
    }

    /// Move the entry with this id to a drop target: it is pulled out, and goes back in among
    /// the others. Returns whether anything moved.
    pub fn move_entry(&mut self, id: &str, target: GridDropTarget, per_page: usize) -> (moved: bool)
        ensures
            ({
                let was = *old(self);
                let from = index_in(was.entries@, id@);
                let to = landing(target, per_page as int, was.entries@.len() - 1);
                &&& moved == (from < was.entries@.len() && to != from)
                &&& final(self).entries@ == if from < was.entries@.len() {
                    moved_entries(was.entries@, from, target, per_page as int)
                } else {
                    was.entries@
                }
                &&& !moved ==> final(self).entries@ == was.entries@
                &&& *final(self) == (AppGrid {
                    entries: final(self).entries,
                    hovered: if moved {
                        None
                    } else {
                        was.hovered
                    },
                    content_rev: if moved {
                        was.content_rev.wrapping_add(1)
                    } else {
                        was.content_rev
                    },
                    ..was
                })
            }),
    {
        let ghost was = self.entries@;
        let from: usize = match find(&self.entries, id) {
            Some(from) => from,
            None => return false,
        };
        let entry = self.entries.remove(from);
        let n: u128 = self.entries.len() as u128;
        let start: u128 = product(target.page, per_page);
        let start: u128 = if start < n {
            start
        } else {
            n
        };
        let end: u128 = if start + (per_page as u128) < n {
            start + per_page as u128
        } else {
            n
        };
        let to: u128 = match target.position {
            Some(position) => if start + (position as u128) < end {
                start + position as u128
            } else {
                end
            },
            None => end,
        };
        let to: usize = to as usize;
        self.entries.insert(to, entry);
        assert(self.entries@ =~= moved_entries(was, from as int, target, per_page as int));
        if to == from {
            assert(self.entries@ =~= was);
            return false;
        }
        self.hovered = None;
        self.content_rev = self.content_rev.wrapping_add(1);
        true
    }

    /// Remember the order, for a drag that ends nowhere.
    pub fn begin_reorder(&mut self)
        ensures
            final(self).reorder_restore matches Some(order) && views(order@) == ids(
                old(self).entries@,
            ),
            *final(self) == (AppGrid {
                reorder_restore: final(self).reorder_restore,
                ..*old(self)
            }),
    {
        let order = self.ids_between(0, self.entries.len());
        assert(self.entries@.subrange(0, self.entries@.len() as int) =~= self.entries@);
        self.reorder_restore = Some(order);
    }

    /// The ids of a run of entries.
    fn ids_between(&self, start: usize, end: usize) -> (order: Vec<String>)
        requires
            start <= end <= self.entries@.len(),
        ensures
            views(order@) == ids(self.entries@.subrange(start as int, end as int)),
    {
        let mut order: Vec<String> = Vec::new();
        let mut i: usize = start;
        while i < end
            invariant
                start <= i <= end <= self.entries@.len(),
                order@.len() == i - start,
                forall|j: int|
                    0 <= j < i - start ==> #[trigger] views(order@)[j] == self.entries@[start
                        + j].id@,
            decreases end - i,
        {
            let ghost before = order@;
            order.push(self.entries[i].id.clone());
            assert forall|j: int| 0 <= j < i + 1 - start implies #[trigger] views(order@)[j]
                == self.entries@[start + j].id@ by {
                if j < i - start {
                    assert(views(before)[j] == self.entries@[start + j].id@);
                }
            }
            i = i + 1;
        }
        assert(views(order@) =~= ids(self.entries@.subrange(start as int, end as int)));
        order
    }

    /// Put the order back that a drag started with. Returns whether anything moved. If there
    /// are more or fewer entries by now, they stay as they are; an entry that was not there
    /// goes behind the others.
    pub fn cancel_reorder(&mut self) -> (moved: bool)
        ensures
            ({
                let was = *old(self);
                let order = views(was.reorder_restore->Some_0@);
                &&& moved == (was.reorder_restore is Some && order.len() == was.entries@.len()
                    && !agrees(order, was.entries@))
                &&& final(self).entries@ == if moved {
                    in_order(order, was.entries@)
                } else {
                    was.entries@
                }
                &&& *final(self) == (AppGrid {
                    entries: final(self).entries,
                    reorder_restore: None,
                    hovered: if moved {
                        None
                    } else {
                        was.hovered
                    },
                    content_rev: if moved {
                        was.content_rev.wrapping_add(1)
                    } else {
                        was.content_rev
                    },
                    ..was
                })
            }),
    {
        let order = match self.reorder_restore.take() {
            Some(order) => order,
            None => return false,
        };
        if order.len() != self.entries.len() || agree(&order, &self.entries) {
            return false;
        }
        let ghost was = self.entries@;
        let ghost wanted = views(order@);
        let mut restored: Vec<AppGridEntry> = Vec::new();
        let mut i: usize = 0;
        assert(wanted.skip(0) =~= wanted);
        assert(restored@ + in_order(wanted.skip(0), self.entries@) =~= in_order(wanted, was));
        while i < order.len()
            invariant
                i <= order@.len(),
                wanted == views(order@),
                restored@ + in_order(wanted.skip(i as int), self.entries@) == in_order(wanted, was),
                *self == (AppGrid { entries: self.entries, reorder_restore: None, ..*old(self) }),
            decreases order@.len() - i,
        {
            let ghost before = restored@;
            let ghost rest = self.entries@;
            assert(wanted.skip(i as int)[0] == wanted[i as int]);
            assert(wanted.skip(i as int).drop_first() =~= wanted.skip(i + 1));
            assert(wanted[i as int] == order@[i as int]@);
            match find(&self.entries, order[i].as_str()) {
                Some(k) => {
                    let entry = self.entries.remove(k);
                    restored.push(entry);
                    assert(restored@ + in_order(wanted.skip(i + 1), self.entries@) =~= before
                        + in_order(wanted.skip(i as int), rest));
                },
                None => {},
            }
            i = i + 1;
        }
        assert(wanted.skip(i as int).len() == 0);
        restored.append(&mut self.entries);
        self.entries = restored;
        self.hovered = None;
        self.content_rev = self.content_rev.wrapping_add(1);
        true
    }

    /// Keep the order that a drag left. Returns whether it differs from the one before.
    pub fn finish_reorder(&mut self) -> (changed: bool)
        ensures
            changed == (old(self).reorder_restore matches Some(order) && !agrees(
                views(order@),
                old(self).entries@,
            )),
            *final(self) == (AppGrid { reorder_restore: None, ..*old(self) }),
    {
        match self.reorder_restore.take() {
            Some(order) => !agree(&order, &self.entries),
            None => false,
        }
    }

    /// The order as pages of ids.
    pub fn pages(&self, per_page: usize) -> (pages: Vec<Vec<String>>)
        ensures
            ({
                let size = larger(per_page as int, 1);
                let n = self.entries@.len() as int;
                &&& pages@.len() == (n + size - 1) / size
                &&& forall|p: int|
                    0 <= p < pages@.len() ==> views((#[trigger] pages@[p])@) == ids(
                        self.entries@.subrange(p * size, smaller(p * size + size, n)),
                    )
            }),
    {
        let size: usize = if per_page == 0 {
            1
        } else {
            per_page
        };
        let n: usize = self.entries.len();
        let mut pages: Vec<Vec<String>> = Vec::new();
        let mut start: usize = 0;
        assert((size - 1) / (size as int) == 0 && 0 * size == 0) by (nonlinear_arith)
            requires
                size >= 1,
        ;
        while start < n
            invariant
                n == self.entries@.len(),
                size == larger(per_page as int, 1),
                start < n ==> start == pages@.len() * size,
                start >= n ==> start == n && pages@.len() == (n + size - 1) / (size as int),
                forall|p: int|
                    0 <= p < pages@.len() ==> views((#[trigger] pages@[p])@) == ids(
                        self.entries@.subrange(p * size, smaller(p * size + size, n as int)),
                    ),
            decreases n - start,
        {
            let end: usize = if size < n - start {
                start + size
            } else {
                n
            };
            let ghost count = pages@.len() as int;
            pages.push(self.ids_between(start, end));
            proof {
                assert((count + 1) * size == count * size + size) by (nonlinear_arith);
                if end == n {
                    lemma_page_total(n as int, size as int, count);
                }
            }
            start = end;
        }
        pages
    }

    /// Every app's icon. A folder's own is not among them.
    pub fn icon_refs(&self) -> (icons: Vec<&AppIconRef>)
        ensures
            icon_views(icons@) == app_icons(self.entries@),
    {
        let ghost all = self.entries@;
        let mut icons: Vec<&AppIconRef> = Vec::new();
        let mut i: usize = 0;
        assert(icon_views(icons@) =~= app_icons(all.take(0)));
        while i < self.entries.len()
            invariant
                i <= self.entries@.len(),
                all == self.entries@,
                icon_views(icons@) == app_icons(all.take(i as int)),
            decreases self.entries@.len() - i,
        {
            let ghost before = icons@;
            if self.entries[i].folder.is_none() {
                icons.push(&self.entries[i].icon);
                assert(icon_views(icons@) =~= icon_views(before).push(all[i as int].icon@));
            }
            i = i + 1;
            assert(all.take(i as int).drop_last() =~= all.take(i - 1));
        }
        assert(all.take(i as int) =~= all);
        icons
    }

    /// The icons that the folders' tiles show: those of their first members.
    pub fn folder_icon_refs(&self) -> (icons: Vec<&AppIconRef>)
        ensures
            icon_views(icons@) == folder_icons(self.entries@),
    {
        let ghost all = self.entries@;
        let mut icons: Vec<&AppIconRef> = Vec::new();
        let mut i: usize = 0;
        assert(icon_views(icons@) =~= folder_icons(all.take(0)));
        while i < self.entries.len()
            invariant
                i <= self.entries@.len(),
                all == self.entries@,
                icon_views(icons@) == folder_icons(all.take(i as int)),
            decreases self.entries@.len() - i,
        {
            let ghost before = icons@;
            if let Some(members) = &self.entries[i].folder {
                let shown: usize = if members.len() < FOLDER_SUBICONS {
                    members.len()
                } else {
                    FOLDER_SUBICONS
                };
                let ghost mine = member_icons(all[i as int]);
                let mut k: usize = 0;
                while k < shown
                    invariant
                        k <= shown <= members@.len(),
                        mine.len() == shown,
                        forall|j: int| 0 <= j < shown ==> #[trigger] mine[j] == members@[j].icon@,
                        icon_views(icons@) == icon_views(before) + mine.take(k as int),
                    decreases shown - k,
                {
                    let ghost now = icons@;
                    icons.push(&members[k].icon);
                    assert(icon_views(icons@) =~= icon_views(now).push(mine[k as int]));
                    assert(icon_views(before) + mine.take(k + 1) =~= (icon_views(before)
                        + mine.take(k as int)).push(mine[k as int]));
                    k = k + 1;
                }
                assert(mine.take(k as int) =~= mine);
            }
            i = i + 1;
            assert(all.take(i as int).drop_last() =~= all.take(i - 1));
            assert(icon_views(before) + Seq::<Option<Seq<char>>>::empty() =~= icon_views(before));
        }
        assert(all.take(i as int) =~= all);
        icons
    }
}

pub open spec fn icon_views(icons: Seq<&AppIconRef>) -> Seq<Option<Seq<char>>> {
    icons.map_values(|icon: &AppIconRef| icon@)
}

/// The icons of the apps among the entries.
pub open spec fn app_icons(entries: Seq<AppGridEntry>) -> Seq<Option<Seq<char>>>
    decreases entries.len(),
{
    if entries.len() == 0 {
        Seq::empty()
    } else if entries.last().folder is None {
        app_icons(entries.drop_last()).push(entries.last().icon@)
    } else {
        app_icons(entries.drop_last())
    }
}

/// The icons that an entry's tile shows of its members.
pub open spec fn member_icons(entry: AppGridEntry) -> Seq<Option<Seq<char>>> {
    match entry.folder {
        Some(members) => Seq::new(
            smaller(members@.len() as int, FOLDER_SUBICONS as int) as nat,
            |i: int| members@[i].icon@,
        ),
        None => Seq::empty(),
    }
}

/// The icons that the folders' tiles show.
pub open spec fn folder_icons(entries: Seq<AppGridEntry>) -> Seq<Option<Seq<char>>>
    decreases entries.len(),
{
    if entries.len() == 0 {
        Seq::empty()
    } else {
        folder_icons(entries.drop_last()) + member_icons(entries.last())
    }
}

fn product(a: usize, b: usize) -> (p: u128)
    ensures
        p == a * b,
        p <= 0xffff_ffff_ffff_fffe_0000_0000_0000_0001,
{
    assert(a * b <= 0xffff_ffff_ffff_ffff * 0xffff_ffff_ffff_ffff) by (nonlinear_arith)
        requires
            a <= 0xffff_ffff_ffff_ffff,
            b <= 0xffff_ffff_ffff_ffff,
    ;
    a as u128 * b as u128
}

proof fn lemma_page_total(n: int, size: int, count: int)
    by (nonlinear_arith)
    requires
        1 <= size,
        0 <= count,
        count * size < n <= count * size + size,
    ensures
        count + 1 == (n + size - 1) / size,
{
}

/// How a tile of a page is drawn.
#[derive(Clone, Copy, Debug, PartialEq, Eq, Structural)]
pub struct TilePlan {
    /// It fades, apart from the others.
    pub faded: bool,
    /// Its caption is drawn apart from the page's others: it does not fit its box, or fades.
    pub own_caption: bool,
    /// Its caption is spelled out over several lines.
    pub expanded: bool,
    /// Its folder's background is drawn with the page's others.
    pub folder_fill: bool,
    /// The pointer's wash and the keyboard's ring are on it.
    pub hovered: bool,
    pub focused: bool,
    /// A folder shows so many of its members' icons, in place of one of its own.
    pub members: Option<usize>,
}

impl AppGrid {
    /// Which entries of a run are the tile that fades.
    pub open spec fn fades(&self, first: int) -> spec_fn(int) -> bool {
        |k: int| fade_id(self.tile_fade) == Some(self.entries@[first + k].id@)
    }

    /// The tile that fades among the `n` entries from `first` on, or `n`.
    pub open spec fn faded_tile(&self, first: int, n: int) -> int {
        first_where(n, self.fades(first), 0)
    }

    /// How the `k`th of `n` tiles from `first` on is drawn, if its caption fits its box or
    /// not.
    pub open spec fn plan_of(&self, first: int, n: int, k: int, fits: bool) -> TilePlan {
        let faded = k == self.faded_tile(first, n);
        let hovered = self.hovered matches Some(i) && i == first + k;
        let focused = self.focused matches Some(i) && i == first + k;
        TilePlan {
            faded,
            own_caption: !fits || faded,
            expanded: (!fits || faded) && (hovered || focused),
            folder_fill: self.entries@[first + k].folder is Some && !faded,
            hovered,
            focused,
            members: match self.entries@[first + k].folder {
                Some(members) => Some(
                    smaller(members@.len() as int, FOLDER_SUBICONS as int) as usize,
                ),
                None => None,
            },
        }
    }

    /// How a page's tiles are drawn, from which of their captions fit.
    pub fn page_plan(&self, first: usize, fits: &Vec<bool>) -> (plan: Vec<TilePlan>)
        requires
            first + fits@.len() <= self.entries@.len(),
        ensures
            plan@.len() == fits@.len(),
            forall|k: int|
                0 <= k < plan@.len() ==> #[trigger] plan@[k] == self.plan_of(
                    first as int,
                    fits@.len() as int,
                    k,
                    fits@[k],
                ),
    {
        let n: usize = fits.len();
        let total: usize = self.entries.len();
        let ghost wanted = self.fades(first as int);
        let mut faded: usize = 0;
        let mut found = false;
        while faded < n && !found
            invariant
                faded <= n,
                n == fits@.len(),
                first + n <= total == self.entries@.len(),
                wanted == self.fades(first as int),
                !found ==> first_where(n as int, wanted, 0) == first_where(
                    n as int,
                    wanted,
                    faded as int,
                ),
                found ==> first_where(n as int, wanted, 0) == faded,
            decreases n - faded, !found as int,
        {
            let this = match &self.tile_fade {
                Some((id, _)) => same_text(id.as_str(), self.entries[first + faded].id.as_str()),
                None => false,
            };
            assert(wanted(faded as int) == this);
            if this {
                found = true;
            } else {
                faded = faded + 1;
            }
        }
        let mut plan: Vec<TilePlan> = Vec::new();
        let mut k: usize = 0;
        while k < n
            invariant
                k <= n,
                n == fits@.len(),
                first + n <= total == self.entries@.len(),
                faded == self.faded_tile(first as int, n as int),
                plan@.len() == k,
                forall|j: int|
                    0 <= j < k ==> #[trigger] plan@[j] == self.plan_of(
                        first as int,
                        n as int,
                        j,
                        fits@[j],
                    ),
            decreases n - k,
        {
            let hovered = same_index(self.hovered, Some(first + k));
            let focused = same_index(self.focused, Some(first + k));
            let members = match &self.entries[first + k].folder {
                Some(members) => Some(
                    if members.len() < FOLDER_SUBICONS {
                        members.len()
                    } else {
                        FOLDER_SUBICONS
                    },
                ),
                None => None,
            };
            let own_caption = !fits[k] || k == faded;
            plan.push(
                TilePlan {
                    faded: k == faded,
                    own_caption,
                    expanded: own_caption && (hovered || focused),
                    folder_fill: self.entries[first + k].folder.is_some() && k != faded,
                    hovered,
                    focused,
                    members,
                },
            );
            k = k + 1;
        }
        plan
    }
}

/// Moving an entry loses none and makes none.
pub proof fn law_move_keeps_entries(
    entries: Seq<AppGridEntry>,
    from: int,
    target: GridDropTarget,
    per_page: int,
)
    requires
        0 <= from < entries.len(),
        0 <= per_page,
    ensures
        moved_entries(entries, from, target, per_page).to_multiset() == entries.to_multiset(),
        moved_entries(entries, from, target, per_page).len() == entries.len(),
{
    broadcast use vstd::seq_lib::group_to_multiset_ensures;

    let others = entries.remove(from);
    let to = landing(target, per_page, entries.len() - 1);
    assert(0 <= target.page * per_page) by (nonlinear_arith)
        requires
            0 <= per_page,
    ;
    assert(0 <= to <= others.len());
    assert(others.insert(to, entries[from]).to_multiset() =~= others.to_multiset().insert(
        entries[from],
    ));
    assert(others.to_multiset() =~= entries.to_multiset().remove(entries[from]));
    assert(entries.to_multiset().count(entries[from]) > 0) by {
        assert(entries.contains(entries[from]));
    }
    assert(moved_entries(entries, from, target, per_page).to_multiset() =~= entries.to_multiset());
}

/// No two entries have the same id.
pub open spec fn distinct_ids(entries: Seq<AppGridEntry>) -> bool {
    forall|i: int, j: int|
        0 <= i < j < entries.len() ==> (#[trigger] entries[i]).id@ != (#[trigger] entries[j]).id@
}

/// A drag that nobody accepts leaves the entries as they were before it: in the order that was
/// remembered, whatever moved meanwhile.
pub proof fn law_cancel_restores(before: Seq<AppGridEntry>, now: Seq<AppGridEntry>)
    requires
        distinct_ids(before),
        now.to_multiset() == before.to_multiset(),
    ensures
        in_order(ids(before), now) == before,
    decreases before.len(),
{
    broadcast use vstd::seq_lib::group_to_multiset_ensures;

    vstd::seq_lib::to_multiset_len(now);
    vstd::seq_lib::to_multiset_len(before);
    if before.len() == 0 {
        assert(now =~= before);
    } else {
        let head = before[0];
        let order = ids(before);
        assert(before.contains(head));
        assert(now.contains(head)) by {
            assert(before.to_multiset().count(head) > 0);
            assert(now.to_multiset().count(head) > 0);
        }
        let at = choose|i: int| 0 <= i < now.len() && now[i] == head;
        let wanted = has_id(now, order[0]);
        lemma_first_where(now.len() as int, wanted, 0);
        let k = index_in(now, order[0]);
        assert(wanted(at));
        assert(k < now.len());
        assert(wanted(k));
        assert(now.contains(now[k]));
        assert(before.contains(now[k])) by {
            assert(now.to_multiset().count(now[k]) > 0);
            assert(before.to_multiset().count(now[k]) > 0);
        }
        let j = choose|j: int| 0 <= j < before.len() && before[j] == now[k];
        assert(j == 0) by {
            if j > 0 {
                assert(before[0].id@ != before[j].id@);
            }
        }
        assert(now[k] == head);
        let rest = before.drop_first();
        assert(before.remove(0) =~= rest);
        assert(rest.to_multiset() =~= before.to_multiset().remove(head));
        assert(now.remove(k).to_multiset() =~= now.to_multiset().remove(head));
        assert(distinct_ids(rest)) by {
            assert forall|a: int, b: int| 0 <= a < b < rest.len() implies (#[trigger] rest[a]).id@
                != (#[trigger] rest[b]).id@ by {
                assert(before[a + 1].id@ != before[b + 1].id@);
            }
        }
        law_cancel_restores(rest, now.remove(k));
        assert(order.drop_first() =~= ids(rest));
        assert(seq![head] + rest =~= before);
    }
}

/// Entry `i` is on page `i / size`, at place `i % size`, and the pages hold nothing else.
pub proof fn law_pages_hold_all(
    entries: Seq<AppGridEntry>,
    pages: Seq<Seq<Seq<char>>>,
    size: int,
    i: int,
)
    requires
        size >= 1,
        pages.len() == (entries.len() + size - 1) / size,
        forall|p: int|
            0 <= p < pages.len() ==> #[trigger] pages[p] == ids(
                entries.subrange(p * size, smaller(p * size + size, entries.len() as int)),
            ),
        0 <= i < entries.len(),
    ensures
        0 <= i / size < pages.len(),
        0 <= i % size < pages[i / size].len(),
        pages[i / size][i % size] == entries[i].id@,
{
    let p = i / size;
    let n = entries.len() as int;
    assert(0 <= p && p * size <= i < p * size + size && i == p * size + i % size && 0 <= i % size
        < size && p < (n + size - 1) / size) by (nonlinear_arith)
        requires
            p == i / size,
            size >= 1,
            0 <= i < n,
    ;
    assert(pages[p] == ids(entries.subrange(p * size, smaller(p * size + size, n))));
}

/// Where a drop puts an entry among the `n` others: on place `position` of its page, counted
/// from the page's first; past the page's last place or at none, behind the page; and never past
/// the end of all. The others keep their order.
pub proof fn law_a_drop_lands_on_its_place(
    grid: &mut AppGrid,
    id: &str,
    target: GridDropTarget,
    per_page: usize,
    moved: bool,
    at: int,
)
    requires
        call_ensures(AppGrid::move_entry, (grid, id, target, per_page), moved),
        ids(old(grid).entries@).contains(id@),
        at == match target.position {
            Some(place) if place < per_page => target.page * per_page + place,
            _ => (target.page + 1) * per_page,
        },
    ensures
        final(grid).entries@.len() == old(grid).entries@.len(),
        at < old(grid).entries@.len() ==> final(grid).entries@[at].id@ == id@,
        at >= old(grid).entries@.len() ==> final(grid).entries@.last().id@ == id@,
        // On a place of a page, it is on that page.
        target.position matches Some(place) ==> place < per_page ==> at / (per_page as int)
            == target.page && at % (per_page as int) == place,
        exists|from: int, to: int|
            {
                &&& 0 <= from < old(grid).entries@.len()
                &&& 0 <= to < old(grid).entries@.len()
                &&& old(grid).entries@[from].id@ == id@
                &&& final(grid).entries@[to] == old(grid).entries@[from]
                &&& (#[trigger] old(grid).entries@.remove(from))
                    == #[trigger] final(grid).entries@.remove(to)
                &&& moved == (from != to)
            },
        !moved ==> final(grid).entries@ == old(grid).entries@,
{
    let was = old(grid).entries@;
    let now = final(grid).entries@;
    let wanted = has_id(was, id@);
    let n = was.len() as int;
    lemma_first_where(n, wanted, 0);
    let at_id = choose|i: int| 0 <= i < ids(was).len() && ids(was)[i] == id@;
    assert(wanted(at_id));
    let from = index_in(was, id@);
    assert(wanted(from));
    let to = landing(target, per_page as int, n - 1);
    let (g, pp) = (target.page as int, per_page as int);
    assert(0 <= g * pp && (g + 1) * pp == g * pp + pp) by (nonlinear_arith)
        requires
            0 <= g,
            0 <= pp,
    ;
    assert(now.remove(to) =~= was.remove(from));
    assert(now[to] == was[from]);
    if let Some(place) = target.position {
        if place < per_page {
            let p = place as int;
            assert((g * pp + p) / pp == g && (g * pp + p) % pp == p) by (nonlinear_arith)
                requires
                    0 <= p < pp,
            ;
        }
    }
}

/// Moving an id that the grid does not have changes nothing.
pub proof fn law_an_unknown_id_moves_nothing(
    grid: &mut AppGrid,
    id: &str,
    target: GridDropTarget,
    per_page: usize,
    moved: bool,
)
    requires
        call_ensures(AppGrid::move_entry, (grid, id, target, per_page), moved),
        !ids(old(grid).entries@).contains(id@),
    ensures
        !moved,
        final(grid).entries@ == old(grid).entries@,
        final(grid).content_rev == old(grid).content_rev,
        final(grid).hovered == old(grid).hovered,
{
    let was = old(grid).entries@;
    let wanted = has_id(was, id@);
    lemma_first_where(was.len() as int, wanted, 0);
    let from = index_in(was, id@);
    if from < was.len() {
        assert(wanted(from));
        assert(ids(was)[from] == id@);
    }
}

/// A drag that ends nowhere puts every entry back where it was when the drag began, whatever
/// the drag moved on its way.
pub proof fn law_a_cancelled_drag_moves_nothing(
    before: &mut AppGrid,
    after: &mut AppGrid,
    moved: bool,
)
    requires
        call_ensures(AppGrid::begin_reorder, (before,), ()),
        distinct_ids(old(before).entries@),
        old(after).reorder_restore == final(before).reorder_restore,
        old(after).entries@.to_multiset() == old(before).entries@.to_multiset(),
        call_ensures(AppGrid::cancel_reorder, (after,), moved),
    ensures
        final(after).entries@ == old(before).entries@,
        final(after).reorder_restore is None,
        final(after).current_page == old(after).current_page,
        moved <==> old(after).entries@ != old(before).entries@,
        final(before).entries == old(before).entries,
{
    broadcast use vstd::seq_lib::group_to_multiset_ensures;

    let was = old(before).entries@;
    let now = old(after).entries@;
    vstd::seq_lib::to_multiset_len(was);
    vstd::seq_lib::to_multiset_len(now);
    law_cancel_restores(was, now);
    let order = ids(was);
    if agrees(order, now) {
        assert forall|i: int| 0 <= i < was.len() implies was[i] == now[i] by {
            assert(now.contains(now[i]));
            assert(now.to_multiset().count(now[i]) > 0);
            assert(was.to_multiset().count(now[i]) > 0);
            assert(was.contains(now[i]));
            let j = choose|j: int| 0 <= j < was.len() && was[j] == now[i];
            assert(order[i] == was[i].id@);
            if i < j {
                assert(was[i].id@ != was[j].id@);
            } else if j < i {
                assert(was[j].id@ != was[i].id@);
            }
        }
        assert(was =~= now);
    }
}

/// A drag that ended somewhere has changed the order exactly if some place holds another entry
/// than when it began; the entries stay as it left them.
pub proof fn law_a_finished_drag_keeps_its_order(
    before: &mut AppGrid,
    after: &mut AppGrid,
    changed: bool,
)
    requires
        call_ensures(AppGrid::begin_reorder, (before,), ()),
        old(after).reorder_restore == final(before).reorder_restore,
        old(after).entries@.len() == old(before).entries@.len(),
        call_ensures(AppGrid::finish_reorder, (after,), changed),
    ensures
        final(after).entries == old(after).entries,
        final(after).reorder_restore is None,
        !changed ==> forall|i: int|
            0 <= i < old(after).entries@.len() ==> (#[trigger] old(after).entries@[i]).id@
                == old(before).entries@[i].id@,
        changed ==> exists|i: int|
            0 <= i < old(after).entries@.len() && (#[trigger] old(after).entries@[i]).id@
                != old(before).entries@[i].id@,
{
    let was = old(before).entries@;
    let now = old(after).entries@;
    if !changed {
        assert forall|i: int| 0 <= i < now.len() implies (#[trigger] now[i]).id@ == was[i].id@ by {
            assert(ids(was)[i] == was[i].id@);
        }
    } else if forall|i: int| 0 <= i < now.len() ==> (#[trigger] now[i]).id@ == was[i].id@ {
        assert(agrees(ids(was), now));
    }
}

/// The entry at a place of the order is at that place of that page of ids, and it is the one
/// that a drop at that place is over.
pub proof fn law_an_entry_is_on_its_page(
    grid: AppGrid,
    per_page: usize,
    pages: Vec<Vec<String>>,
    page: usize,
    place: usize,
    location: DragLocation,
    id: Option<&str>,
)
    requires
        per_page >= 1,
        place < per_page,
        page * per_page + place < grid.entries@.len(),
        call_ensures(AppGrid::pages, (&grid, per_page), pages),
        call_ensures(
            AppGrid::entry_id_at,
            (&grid, GridDropTarget { page, position: Some(place), location }, per_page),
            id,
        ),
    ensures
        page < pages@.len(),
        place < pages@[page as int]@.len(),
        pages@[page as int]@[place as int]@ == grid.entries@[page * per_page + place].id@,
        id is Some,
        id->0@ == pages@[page as int]@[place as int]@,
        pages@[page as int]@.len() <= per_page,
{
    let (n, size, p, k) = (
        grid.entries@.len() as int,
        per_page as int,
        page as int,
        place as int,
    );
    assert(p < (n + size - 1) / size) by (nonlinear_arith)
        requires
            size >= 1,
            0 <= k,
            p * size + k < n,
    ;
    let held = pages@[p];
    let run = grid.entries@.subrange(p * size, smaller(p * size + size, n));
    assert(0 <= p * size) by (nonlinear_arith)
        requires
            0 <= p,
            0 <= size,
    ;
    assert(views(held@) == ids(run));
    assert(views(held@).len() == held@.len());
    assert(views(held@)[k] == held@[k]@);
    assert(ids(run)[k] == run[k].id@);
}

/// New entries take the place of the old; a hover or a focus past their end is let go, and any
/// other stays. The page stays.
pub proof fn law_new_entries_replace_the_old(
    grid: &mut AppGrid,
    entries: Vec<AppGridEntry>,
    changed: bool,
)
    requires
        call_ensures(AppGrid::set_entries, (grid, entries), changed),
    ensures
        changed ==> final(grid).entries == entries,
        changed ==> final(grid).content_rev != old(grid).content_rev,
        !changed ==> *final(grid) == *old(grid),
        final(grid).current_page == old(grid).current_page,
        changed ==> (final(grid).focused is Some ==> final(grid).focused->0 < entries@.len()),
        changed ==> (final(grid).hovered is Some ==> final(grid).hovered->0 < entries@.len()),
        old(grid).focused is Some && old(grid).focused->0 < entries@.len() ==> final(grid).focused
            == old(grid).focused,
        old(grid).hovered is Some && old(grid).hovered->0 < entries@.len() ==> final(grid).hovered
            == old(grid).hovered,
{
}

/// The focus is on an entry that there is, or on none; a drag that ends lets go of the side
/// band.
pub proof fn law_the_focus_is_on_an_entry(
    grid: &mut AppGrid,
    focused: Option<usize>,
    changed: bool,
    dragged: &mut AppGrid,
    active: bool,
    moves: bool,
)
    requires
        call_ensures(AppGrid::set_focused, (grid, focused), changed),
        call_ensures(AppGrid::set_drag_active, (dragged, active), moves),
    ensures
        focused is Some && focused->0 < old(grid).entries@.len() ==> final(grid).focused
            == focused,
        focused is None || focused->0 >= old(grid).entries@.len() ==> final(grid).focused is None,
        changed <==> final(grid).focused != old(grid).focused,
        final(grid).hovered == old(grid).hovered,
        final(grid).current_page == old(grid).current_page,
        final(dragged).drag_active == active,
        moves <==> old(dragged).drag_active != active,
        moves && !active ==> final(dragged).hint_hovered is None,
        final(dragged).entries == old(dragged).entries,
{
}

} // verus!
