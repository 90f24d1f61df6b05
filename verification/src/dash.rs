//! The dash: favorite apps, then running ones behind a divider, then the show-apps button.
//!
//! The dash's own lengths are in 64ths of a logical pixel: at every rung of the icon ladder
//! they are whole numbers of that unit. What the drop gap has moved is laid out in finer parts,
//! in which a gap that is part-way open comes out even too.

use vstd::prelude::*;

use crate::area::{Area, FAR, UNITS};
use crate::icon::AppIconRef;
use crate::lists::{ints, lemma_picked, lemma_picked_alike, picked, raised};
use crate::text::same_text;

verus! {

/// The icon size of the full dash, in pixels: the largest rung of the ladder.
pub const ICON_PX: u32 = 64;

/// The icon sizes the dash draws at, in pixels, largest first.
pub const ICON_LADDER: [u32; 6] = [64, 48, 32, 24, 22, 16];

/// The horizontal space the divider takes from the run: a 1 px line with 4 px either side.
pub const SEPARATOR_ADVANCE: i128 = 9 * UNITS;

/// The divider's side margin.
pub const SEPARATOR_MARGIN: i128 = 4 * UNITS;

/// The divider's width.
pub const SEPARATOR_W: i128 = UNITS;

/// The drop gap's open width at the full size, in pixels.
pub const PLACEHOLDER_W: u32 = 64;

/// The fine parts of a logical pixel that the dash is laid out in, and those of a unit.
pub const FINE: i128 = 4096;

pub const PARTS: i128 = 64;

/// The longest length of a band.
pub const MAX_BAND: i64 = 0x100_0000_0000;

/// The room around the glows' layer, in fine parts: a shadow bleeds past its box, and a layer
/// as large as the pill would clip the outermost ones flat.
pub const GLOW_PAD: i128 = 21 * FINE;

/// How long the drop gap takes to open or close, in milliseconds.
pub const GAP_ANIMATION_MS: u64 = 200;

/// Every dash length, for one icon size.
#[derive(Clone, Copy, Debug, PartialEq, Eq, Structural)]
pub struct DashMetrics {
    /// Icon side, in pixels.
    pub icon_px: u32,
    /// The tile's side: the icon and its padding.
    pub tile: i64,
    /// A tile's side margin.
    pub item_margin: i64,
    /// From one tile to the next.
    pub item_advance: i64,
    pub pill_pad_h: i64,
    pub pill_pad_v: i64,
    pub pill_h: i64,
    pub pill_radius: i64,
    /// Gap from the screen's bottom edge.
    pub margin_bottom: i64,
}

/// The largest rung of the ladder at or below `limit` pixels, or the smallest of all.
pub open spec fn rung_within(limit: int) -> u32 {
    if limit >= 64 {
        64
    } else if limit >= 48 {
        48
    } else if limit >= 32 {
        32
    } else if limit >= 24 {
        24
    } else if limit >= 22 {
        22
    } else {
        16
    }
}

/// The largest rung at or below `limit` pixels, or the smallest of all.
fn rung(limit: i128) -> (icon: u32)
    ensures
        icon == rung_within(limit as int),
{
    let mut i: usize = 0;
    while i < 6
        invariant
            i <= 6,
            forall|j: int| 0 <= j < i ==> ICON_LADDER[j] > limit,
        decreases 6 - i,
    {
        if ICON_LADDER[i] as i128 <= limit {
            assert(i > 0 ==> ICON_LADDER[i - 1] > limit);
            return ICON_LADDER[i];
        }
        i = i + 1;
    }
    assert(ICON_LADDER[5] > limit);
    16
}

impl DashMetrics {
    /// The lengths of a dash with this icon size: those of the full dash, in proportion.
    pub open spec fn of(icon: u32) -> DashMetrics {
        DashMetrics {
            icon_px: icon,
            tile: (76 * icon) as i64,
            item_margin: (2 * icon) as i64,
            item_advance: (80 * icon) as i64,
            pill_pad_h: (10 * icon) as i64,
            pill_pad_v: (12 * icon) as i64,
            pill_h: (100 * icon) as i64,
            pill_radius: (28 * icon) as i64,
            margin_bottom: (12 * icon) as i64,
        }
    }

    /// The lengths for `icon_px`, every one of them proportional to it, which is what keeps
    /// a shrunk dash looking like the dash.
    pub fn for_icon(icon_px: u32) -> (metrics: Self)
        ensures
            metrics == DashMetrics::of(icon_px),
    {
        let icon = icon_px as i64;
        DashMetrics {
            icon_px,
            tile: 76 * icon,
            item_margin: 2 * icon,
            item_advance: 80 * icon,
            pill_pad_h: 10 * icon,
            pill_pad_v: 12 * icon,
            pill_h: 100 * icon,
            pill_radius: 28 * icon,
            margin_bottom: 12 * icon,
        }
    }

    /// The full dash.
    pub fn gnome() -> (metrics: Self)
        ensures
            metrics == DashMetrics::of(64),
            metrics.tile == 76 * UNITS,
            metrics.pill_h == 100 * UNITS,
    {
        DashMetrics::for_icon(ICON_PX)
    }

    /// The metrics of the largest rung whose pill and bottom margin fit `height`, of the
    /// smallest if none does. A pill and its margin are 112 units high to a pixel of icon.
    pub fn fitting(height: i128) -> (metrics: Self)
        ensures
            metrics == DashMetrics::of(rung_within(height as int / 112)),
    {
        let limit: i128 = if height < 0 {
            0
        } else {
            height / 112
        };
        DashMetrics::for_icon(rung(limit))
    }

    /// What the dash asks the overview for: the pill and the gap below it.
    pub fn preferred_height(&self) -> (height: i128)
        ensures
            height == self.pill_h + self.margin_bottom,
    {
        self.pill_h as i128 + self.margin_bottom as i128
    }
}

/// What the dash asks for where the canvas shrinks a full-size icon to `icon_limit` pixels,
/// rounded down.
pub fn preferred_height(icon_limit: i128) -> (height: i128)
    ensures
        height == 112 * rung_within(icon_limit as int),
{
    DashMetrics::for_icon(rung(icon_limit)).preferred_height()
}

/// One app in the dash.
#[derive(Debug, PartialEq, Eq)]
pub struct DashEntry {
    pub id: String,
    pub name: String,
    pub icon: AppIconRef,
    /// The app has an open window, which draws the running dot.
    pub running: bool,
    /// One of its windows is demanding attention.
    pub urgent: bool,
}

/// What a dash entry says.
pub struct DashEntryView {
    pub id: Seq<char>,
    pub name: Seq<char>,
    pub icon: Option<Seq<char>>,
    pub running: bool,
    pub urgent: bool,
}

impl View for DashEntry {
    type V = DashEntryView;

    open spec fn view(&self) -> DashEntryView {
        DashEntryView {
            id: self.id@,
            name: self.name@,
            icon: self.icon@,
            running: self.running,
            urgent: self.urgent,
        }
    }
}

impl Clone for DashEntry {
    fn clone(&self) -> (copy: Self)
        ensures
            copy == *self,
    {
        DashEntry {
            id: self.id.clone(),
            name: self.name.clone(),
            icon: self.icon.clone(),
            running: self.running,
            urgent: self.urgent,
        }
    }
}

impl DashEntry {
    fn same(&self, other: &DashEntry) -> (same: bool)
        ensures
            same == (self@ == other@),
    {
        same_text(self.id.as_str(), other.id.as_str()) && same_text(
            self.name.as_str(),
            other.name.as_str(),
        ) && self.icon.same(&other.icon) && self.running == other.running && self.urgent
            == other.urgent
    }
}

/// What a list of dash entries says.
pub open spec fn entries_view(items: Seq<DashEntry>) -> Seq<DashEntryView> {
    items.map_values(|e: DashEntry| e@)
}

fn same_entries(a: &Vec<DashEntry>, b: &Vec<DashEntry>) -> (same: bool)
    ensures
        same == (entries_view(a@) == entries_view(b@)),
{
    if a.len() != b.len() {
        assert(entries_view(a@).len() != entries_view(b@).len());
        return false;
    }
    let mut i: usize = 0;
    while i < a.len()
        invariant
            i <= a.len(),
            a.len() == b.len(),
            forall|j: int| 0 <= j < i ==> entries_view(a@)[j] == entries_view(b@)[j],
        decreases a.len() - i,
    {
        if !a[i].same(&b[i]) {
            assert(entries_view(a@)[i as int] != entries_view(b@)[i as int]);
            return false;
        }
        i = i + 1;
    }
    assert(entries_view(a@) =~= entries_view(b@));
    true
}

/// What a point over the dash hit.
#[derive(Clone, Copy, Debug, PartialEq, Eq, Structural)]
pub enum DashHit {
    /// App at this index: favorites first, then running non-favorites.
    App(usize),
    /// The trailing show-apps button.
    ShowApps,
    /// The pill's padding, gaps and divider: consumes the click, no action.
    Background,
}

/// The band the dash is given, in units, and how wide the drop gap currently is, in the units of
/// a full-size dash: the gap follows the icon down with everything else.
#[derive(Clone, Copy, Debug, PartialEq, Eq, Structural)]
pub struct DashBand {
    pub x: i64,
    pub y: i64,
    pub w: i64,
    pub h: i64,
    pub gap: i64,
}

impl DashBand {
    pub open spec fn good(self) -> bool {
        &&& -MAX_BAND <= self.x <= MAX_BAND
        &&& -MAX_BAND <= self.y <= MAX_BAND
        &&& 0 <= self.w <= MAX_BAND
        &&& 0 <= self.h <= MAX_BAND
        &&& 0 <= self.gap <= PLACEHOLDER_W * UNITS
    }

    /// The icon size of the dash in this band: the largest whose pill and bottom margin fit.
    pub open spec fn icon(self) -> u32 {
        rung_within(self.h as int / 112)
    }
}

/// The whole number nearest to a quotient, and of two the one further from zero.
pub open spec fn nearest(n: int, d: int) -> int {
    if n >= 0 {
        (2 * n + d) / (2 * d)
    } else {
        -((-2 * n + d) / (2 * d))
    }
}

proof fn lemma_nearest(n: int, d: int)
    requires
        d > 0,
    ensures
        -d <= 2 * (d * nearest(n, d)) - 2 * n <= d,
{
    let m = if n >= 0 {
        2 * n + d
    } else {
        -2 * n + d
    };
    let q = m / (2 * d);
    vstd::arithmetic::div_mod::lemma_fundamental_div_mod(m, 2 * d);
    vstd::arithmetic::div_mod::lemma_mod_bound(m, 2 * d);
    assert((2 * d) * q == 2 * (d * q)) by (nonlinear_arith);
    assert(d * (-q) == -(d * q)) by (nonlinear_arith);
}

fn nearest_to(n: i128, d: i128) -> (q: i128)
    requires
        -FAR <= n <= FAR,
        0 < d <= 0x1_0000,
    ensures
        q == nearest(n as int, d as int),
{
    if n >= 0 {
        (2 * n + d) / (2 * d)
    } else {
        -((-2 * n + d) / (2 * d))
    }
}

/// How the drop gap is to move.
#[derive(Clone, Copy, Debug, PartialEq, Eq, Structural)]
pub enum GapEase {
    Open,
    Close,
}

/// Where everything is, in fine parts of a logical pixel.
pub struct DashLayout {
    pub metrics: DashMetrics,
    pub pill: Area,
    /// The tiles; the last one is the show-apps button.
    pub tiles: Vec<Area>,
    pub n_items: usize,
    /// The divider, when one is drawn.
    pub separator: Option<Area>,
}

/// What the pill's own layer is drawn from.
#[derive(Clone, Copy, Debug, PartialEq, Eq, Structural)]
pub struct ChromePlan {
    /// The layer's own box.
    pub pill: Area,
    /// The divider, relative to the pill.
    pub separator: Option<Area>,
    /// The tile with the hover fill, and its box relative to the pill.
    pub hovered_tile: Option<usize>,
    pub hovered_box: Option<Area>,
    /// The key under which the drawn layer is kept.
    pub revision: u64,
    /// Whether a blurred capture of the scene goes under the pill.
    pub backdrop: bool,
}

/// One layer of the dash.
#[derive(Clone, Copy, Debug, PartialEq, Eq, Structural)]
pub enum DashLayer {
    /// All running dots.
    Dots,
    /// The icon of the app at this index.
    Icon(usize),
    /// All glows.
    Glow,
    /// The show-apps button's glyph.
    ShowApps,
    /// The pill, its divider and its hover fill.
    Pill,
    /// The blurred capture of the scene.
    Backdrop,
}

/// The layers of a frame, topmost first: the running dots over the icons, the glow under them,
/// and under that the rest of the dash, the backdrop below everything. A poke ends with the glow.
pub open spec fn layers_of(
    dots: Seq<usize>,
    icons: Seq<usize>,
    glows: Seq<usize>,
    poking: bool,
    blur: bool,
) -> Seq<DashLayer> {
    let over = if dots.len() > 0 {
        seq![DashLayer::Dots]
    } else {
        Seq::empty()
    };
    let under = if glows.len() > 0 {
        seq![DashLayer::Glow]
    } else {
        Seq::empty()
    };
    let chrome = if poking {
        Seq::empty()
    } else if blur {
        seq![DashLayer::ShowApps, DashLayer::Pill, DashLayer::Backdrop]
    } else {
        seq![DashLayer::ShowApps, DashLayer::Pill]
    };
    over + icons.map_values(|k: usize| DashLayer::Icon(k)) + under + chrome
}

/// What one frame of the dash draws. Each list of apps has its boxes beside it.
pub struct RenderPlan {
    /// What is drawn, topmost first.
    pub layers: Vec<DashLayer>,
    pub dots: Vec<usize>,
    /// Relative to the pill.
    pub dot_boxes: Vec<Area>,
    pub icons: Vec<usize>,
    pub icon_boxes: Vec<Area>,
    pub glows: Vec<usize>,
    /// Relative to the glows' layer.
    pub glow_boxes: Vec<Area>,
    /// The glows' layer, if there are any.
    pub glow_layer: Option<Area>,
    pub glow_revision: u64,
    pub show_apps: Option<Area>,
    pub chrome: Option<ChromePlan>,
}

pub struct Dash {
    /// Favorites first, then running non-favorites.
    pub items: Vec<DashEntry>,
    /// How many leading items are favorites.
    pub n_favorites: usize,
    /// Bumped when the items change.
    pub content_rev: u64,
    /// While a drag hovers the dash, the favorites index the drop would land at.
    pub drop_slot: Option<usize>,
    /// Where the gap's space is: the drop slot while one is open, and the last one while the
    /// gap closes.
    pub gap_slot: usize,
    /// An app-icon drag is in flight anywhere.
    pub drag_active: bool,
    pub hovered: Option<DashHit>,
}

impl Dash {
    /// The items that count as favorites.
    pub open spec fn favorites(&self) -> int {
        if self.n_favorites <= self.items@.len() {
            self.n_favorites as int
        } else {
            self.items@.len() as int
        }
    }

    /// The first favorite with this id.
    pub open spec fn is_favorite_at(&self, id: Seq<char>, i: int) -> bool {
        &&& 0 <= i < self.favorites()
        &&& self.items@[i].id@ == id
        &&& forall|j: int| 0 <= j < i ==> (#[trigger] self.items@[j]).id@ != id
    }

    /// Whether an app with this id is pinned.
    pub open spec fn is_favorite(&self, id: Seq<char>) -> bool {
        exists|i: int| 0 <= i < self.favorites() && (#[trigger] self.items@[i]).id@ == id
    }

    /// Where the divider stands: between the favorites and the rest, if there are both.
    pub open spec fn divider(&self) -> Option<usize> {
        if 0 < self.n_favorites < self.items@.len() {
            Some(self.n_favorites)
        } else {
            None
        }
    }

    /// How far the divider pushes item `k`.
    pub open spec fn divider_shift(&self, k: int) -> int {
        match self.divider() {
            Some(at) if k >= at => SEPARATOR_ADVANCE as int,
            _ => 0,
        }
    }

    /// The room an empty dash keeps for the first drop, while a drag is on.
    pub open spec fn empty_target(&self, icon: u32) -> int {
        if self.drag_active && self.items@.len() == 0 {
            32 * icon
        } else {
            0
        }
    }

    /// The run of tiles with the gap closed, in units.
    pub open spec fn closed_run(&self, icon: u32) -> int {
        80 * icon * (self.items@.len() + 1) + self.divider_shift(self.items@.len() as int)
            + self.empty_target(icon)
    }

    /// The run of tiles, in fine parts.
    pub open spec fn run_w(&self, band: DashBand) -> int {
        PARTS * self.closed_run(band.icon()) + band.gap * band.icon()
    }

    pub open spec fn pill_w(&self, band: DashBand) -> int {
        self.run_w(band) + PARTS * (20 * band.icon())
    }

    /// The pill is centred in the band, to a whole pixel.
    pub open spec fn pill_x(&self, band: DashBand) -> int {
        FINE * nearest(PARTS * (2 * band.x + band.w) - self.pill_w(band), 2 * FINE)
    }

    /// The pill is its margin above the band's bottom, to a whole pixel.
    pub open spec fn pill_y(&self, band: DashBand) -> int {
        FINE * nearest(band.y + band.h - 112 * band.icon(), UNITS as int)
    }

    /// The left edge of tile `k` in a pill with the gap closed, in units.
    pub open spec fn tile_left(&self, icon: u32, k: int) -> int {
        10 * icon + 80 * icon * k + self.divider_shift(k) + self.empty_target(icon) + 2 * icon
    }

    /// How far the gap pushes tile `k`.
    pub open spec fn gap_shift(&self, band: DashBand, k: int) -> int {
        if k >= self.gap_slot {
            band.gap * band.icon()
        } else {
            0
        }
    }

    pub open spec fn tile_x(&self, band: DashBand, k: int) -> int {
        self.pill_x(band) + PARTS * self.tile_left(band.icon(), k) + self.gap_shift(band, k)
    }

    pub open spec fn tile_y(&self, band: DashBand) -> int {
        self.pill_y(band) + PARTS * (12 * band.icon())
    }

    pub open spec fn tile_side(&self, band: DashBand) -> int {
        PARTS * (76 * band.icon())
    }

    /// The divider's left edge, before item `at`.
    pub open spec fn divider_x(&self, band: DashBand, at: int) -> int {
        self.pill_x(band) + PARTS * (10 * band.icon() + 80 * band.icon() * at + SEPARATOR_MARGIN)
            + self.gap_shift(band, at)
    }

    /// The area is tile `k`.
    pub open spec fn is_tile(&self, band: DashBand, k: int, tile: Area) -> bool {
        &&& tile.x == self.tile_x(band, k)
        &&& tile.y == self.tile_y(band)
        &&& tile.w == self.tile_side(band)
        &&& tile.h == self.tile_side(band)
    }

    /// Everything about the layout.
    pub open spec fn is_layout(&self, band: DashBand, layout: DashLayout) -> bool {
        &&& layout.metrics == DashMetrics::of(band.icon())
        &&& layout.pill.x == self.pill_x(band)
        &&& layout.pill.y == self.pill_y(band)
        &&& layout.pill.w == self.pill_w(band)
        &&& layout.pill.h == PARTS * (100 * band.icon())
        &&& layout.n_items == self.items@.len()
        &&& layout.tiles@.len() == self.items@.len() + 1
        &&& forall|k: int|
            0 <= k <= self.items@.len() ==> self.is_tile(band, k, #[trigger] layout.tiles@[k])
        &&& layout.separator is Some <==> self.divider() is Some
        &&& layout.separator matches Some(line) ==> {
            &&& line.x == self.divider_x(band, self.divider()->0 as int)
            &&& line.y == self.tile_y(band) + PARTS * (6 * band.icon())
            &&& line.w == PARTS * SEPARATOR_W
            &&& line.h == PARTS * (64 * band.icon())
        }
    }

    /// The point is in the strip that tile `k` answers for: the tile and its side margins.
    pub open spec fn over_tile(&self, band: DashBand, x: int, k: int) -> bool {
        self.tile_x(band, k) - PARTS * (2 * band.icon()) <= PARTS * x < self.tile_x(band, k)
            + self.tile_side(band) + PARTS * (2 * band.icon())
    }

    /// The point is within the pill's width and not above it.
    pub open spec fn over_pill(&self, band: DashBand, x: int, y: int) -> bool {
        &&& self.pill_x(band) <= PARTS * x < self.pill_x(band) + self.pill_w(band)
        &&& self.pill_y(band) <= PARTS * y
    }

    /// What a point over the dash hits.
    pub open spec fn hits(&self, band: DashBand, x: int, y: int, hit: Option<DashHit>) -> bool {
        if !self.over_pill(band, x, y) {
            hit is None
        } else if PARTS * y < self.tile_y(band) {
            hit == Some(DashHit::Background)
        } else {
            match hit {
                None => false,
                Some(DashHit::App(k)) => {
                    &&& k < self.items@.len()
                    &&& self.over_tile(band, x, k as int)
                    &&& forall|j: int| 0 <= j < k ==> !self.over_tile(band, x, j)
                },
                Some(DashHit::ShowApps) => {
                    &&& self.over_tile(band, x, self.items@.len() as int)
                    &&& forall|j: int| 0 <= j < self.items@.len() ==> !self.over_tile(band, x, j)
                },
                Some(DashHit::Background) => forall|j: int|
                    0 <= j <= self.items@.len() ==> !self.over_tile(band, x, j),
            }
        }
    }

    /// How far along the run of tiles a point is.
    pub open spec fn along(&self, band: DashBand, x: int) -> int {
        PARTS * x - self.pill_x(band) - PARTS * (10 * band.icon())
    }

    /// The icons' box: the run without the show-apps button, which is the unpin target instead.
    pub open spec fn box_w(&self, band: DashBand) -> int {
        self.run_w(band) - PARTS * (80 * band.icon())
    }

    pub open spec fn over_box(&self, band: DashBand, x: int, y: int) -> bool {
        self.over_pill(band, x, y) && 0 <= self.along(band, x) < self.box_w(band)
    }

    /// The width that the icons share: the box without the divider and the gap. Taking out the
    /// gap's current width keeps a share the same while it eases open; otherwise the answer
    /// would drift under a motionless pointer and the gap would chase itself across slots.
    pub open spec fn shared_w(&self, band: DashBand) -> int {
        self.box_w(band) - PARTS * self.divider_shift(self.items@.len() as int) - band.gap
            * band.icon()
    }

    /// One icon's share of that width: an advance.
    pub open spec fn share_w(&self, band: DashBand) -> int {
        PARTS * (80 * band.icon())
    }

    /// The favorites index of a drop: the share the point is in, and the end of the favorites
    /// for one past them.
    pub open spec fn share_at(&self, band: DashBand, x: int) -> int {
        let share = self.along(band, x) / self.share_w(band);
        if share <= self.n_favorites {
            share
        } else {
            self.n_favorites as int
        }
    }

    /// Where a drag carrying `id` would drop.
    pub open spec fn drop_at(&self, band: DashBand, x: int, y: int, id: Seq<char>) -> Option<int> {
        if !self.over_box(band, x, y) {
            None
        } else if self.items@.len() == 0 {
            Some(0)
        } else if self.beside_itself(id, self.share_at(band, x)) {
            None
        } else {
            Some(self.share_at(band, x))
        }
    }

    /// The app is pinned, and `slot` is right before or right after it.
    pub open spec fn beside_itself(&self, id: Seq<char>, slot: int) -> bool {
        exists|from: int|
            #[trigger] self.is_favorite_at(id, from) && (slot == from || slot == from + 1)
    }

    pub fn new() -> (dash: Self)
        ensures
            dash.items@.len() == 0,
            dash.n_favorites == 0,
            dash.content_rev == 0,
            dash.drop_slot is None,
            dash.gap_slot == 0,
            !dash.drag_active,
            dash.hovered is None,
    {
        Dash {
            items: Vec::new(),
            n_favorites: 0,
            content_rev: 0,
            drop_slot: None,
            gap_slot: 0,
            drag_active: false,
            hovered: None,
        }
    }

    /// The current apps, favorites first.
    pub fn items(&self) -> (items: &Vec<DashEntry>)
        ensures
            items@ == self.items@,
    {
        &self.items
    }

    /// Replace the apps: `items` is favorites (the first `n_favorites`) followed by running
    /// non-favorites. Returns whether that is a change.
    ///
    /// A change clears the hover: it is a position, and may now be another app's or none's.
    pub fn set_items(&mut self, items: Vec<DashEntry>, n_favorites: usize) -> (changed: bool)
        ensures
            changed == (entries_view(items@) != entries_view(old(self).items@) || n_favorites
                != old(self).n_favorites),
            !changed ==> *final(self) == *old(self),
            changed ==> {
                &&& final(self).items == items
                &&& final(self).n_favorites == n_favorites
                &&& final(self).content_rev == old(self).content_rev.wrapping_add(1)
                &&& final(self).hovered is None
                &&& final(self).drop_slot == old(self).drop_slot
                &&& final(self).gap_slot == old(self).gap_slot
                &&& final(self).drag_active == old(self).drag_active
            },
    {
        if same_entries(&items, &self.items) && n_favorites == self.n_favorites {
            return false;
        }
        self.items = items;
        self.n_favorites = n_favorites;
        self.content_rev = self.content_rev.wrapping_add(1);
        self.hovered = None;
        true
    }

    /// Open, move or close the drop gap. Returns whether that is a change.
    ///
    /// The gap's place is kept while it closes, so the icons after it stay parted until it
    /// is gone.
    pub fn set_drop_slot(&mut self, slot: Option<usize>) -> (changed: bool)
        ensures
            changed == (old(self).drop_slot != slot),
            final(self).drop_slot == slot,
            final(self).gap_slot == match slot {
                Some(s) if changed => s,
                _ => old(self).gap_slot,
            },
            final(self).items == old(self).items,
            final(self).n_favorites == old(self).n_favorites,
            final(self).content_rev == old(self).content_rev,
            final(self).drag_active == old(self).drag_active,
            final(self).hovered == old(self).hovered,
    {
        if self.drop_slot == slot {
            return false;
        }
        self.drop_slot = slot;
        if let Some(s) = slot {
            self.gap_slot = s;
        }
        true
    }

    /// How the gap moves when the drop slot goes from `was` to `is`: it eases open and shut,
    /// from wherever it is, and jumps between slots.
    pub fn gap_ease(was: Option<usize>, is: Option<usize>) -> (ease: Option<GapEase>)
        ensures
            ease == if was is None && is is Some {
                Some(GapEase::Open)
            } else if was is Some && is is None {
                Some(GapEase::Close)
            } else {
                None
            },
    {
        match (was, is) {
            (None, Some(_)) => Some(GapEase::Open),
            (Some(_), None) => Some(GapEase::Close),
            _ => None,
        }
    }

    /// The open drop gap, if any: what a drop lands on.
    pub fn drop_slot(&self) -> (slot: Option<usize>)
        ensures
            slot == self.drop_slot,
    {
        self.drop_slot
    }

    /// Tell the dash an app-icon drag began or ended. Returns whether the pill changes shape,
    /// which only an empty one does: it makes room for something to aim at.
    pub fn set_drag_active(&mut self, active: bool) -> (reshaped: bool)
        ensures
            reshaped == (old(self).drag_active != active && old(self).items@.len() == 0),
            *final(self) == (Dash { drag_active: active, ..*old(self) }),
    {
        if self.drag_active == active {
            return false;
        }
        self.drag_active = active;
        self.items.is_empty()
    }

    /// Where `id` sits among the favorites, if it is one.
    pub fn favorite_index(&self, id: &str) -> (index: Option<usize>)
        ensures
            match index {
                Some(i) => self.is_favorite_at(id@, i as int),
                None => !self.is_favorite(id@),
            },
    {
        let n: usize = if self.n_favorites <= self.items.len() {
            self.n_favorites
        } else {
            self.items.len()
        };
        let mut i: usize = 0;
        while i < n
            invariant
                i <= n,
                n == self.favorites(),
                n <= self.items.len(),
                forall|j: int| 0 <= j < i ==> (#[trigger] self.items@[j]).id@ != id@,
            decreases n - i,
        {
            if same_text(self.items[i].id.as_str(), id) {
                return Some(i);
            }
            i = i + 1;
        }
        None
    }

    fn separator_after(&self) -> (at: Option<usize>)
        ensures
            at == self.divider(),
    {
        if self.n_favorites > 0 && self.n_favorites < self.items.len() {
            Some(self.n_favorites)
        } else {
            None
        }
    }

    fn empty_drop_target_w(&self, icon_px: u32) -> (w: i128)
        ensures
            w == self.empty_target(icon_px),
    {
        if self.drag_active && self.items.is_empty() {
            32 * (icon_px as i128)
        } else {
            0
        }
    }

    proof fn lemma_reach(&self, band: DashBand, k: int)
        requires
            band.good(),
            0 <= k <= self.items@.len() <= 0xffff_ffff_ffff_ffff,
        ensures
            16 <= band.icon() <= 64,
            band.icon() % 2 == 0,
            0 <= 80 * band.icon() * k <= 80 * band.icon() * self.items@.len(),
            80 * band.icon() * (self.items@.len() + 1) == 80 * band.icon() * self.items@.len() + 80
                * band.icon(),
            0 <= band.gap * band.icon() <= 0x40_0000,
            0 <= self.closed_run(band.icon()) <= 0x1_0000_0000_0000_0000_0000,
            0 <= self.tile_left(band.icon(), k) <= 0x1_0000_0000_0000_0000_0000,
            -0x100_0000_0000_0000_0000_0000 <= self.pill_x(band) <= 0x100_0000_0000_0000_0000_0000,
            -0x100_0000_0000_0000_0000_0000 <= self.pill_y(band) <= 0x100_0000_0000_0000_0000_0000,
    {
        let icon = band.icon() as int;
        let n = self.items@.len() as int;
        assert(0 <= 80 * icon * k <= 80 * icon * n <= 80 * 64 * 0xffff_ffff_ffff_ffff)
            by (nonlinear_arith)
            requires
                0 <= k <= n <= 0xffff_ffff_ffff_ffff,
                16 <= icon <= 64,
        ;
        assert(80 * icon * (n + 1) == 80 * icon * n + 80 * icon) by (nonlinear_arith);
        assert(0 <= band.gap * icon <= 4096 * 64) by (nonlinear_arith)
            requires
                0 <= band.gap <= 4096,
                16 <= icon <= 64,
        ;
        self.lemma_pill_place(band);
    }

    /// The pill's place before it is moved to a whole pixel, and how far that moves it.
    proof fn lemma_pill_place(&self, band: DashBand)
        ensures
            -FINE <= 2 * self.pill_x(band) + self.pill_w(band) - 64 * (2 * band.x + band.w) <= FINE,
            -FINE <= 2 * self.pill_y(band) - 128 * (band.y + band.h - 112 * band.icon()) <= FINE,
    {
        let across = PARTS * (2 * band.x + band.w) - self.pill_w(band);
        let down = band.y + band.h - 112 * band.icon();
        assert(across == 64 * (2 * band.x + band.w) - self.pill_w(band));
        lemma_nearest(across, 8192);
        lemma_nearest(down, 64);
        assert(self.pill_x(band) == 4096 * nearest(across, 8192));
        assert(self.pill_y(band) == 4096 * nearest(down, 64));
    }

    /// The lengths for the band the dash was given.
    pub fn metrics(band: DashBand) -> (metrics: DashMetrics)
        ensures
            metrics == DashMetrics::of(band.icon()),
    {
        DashMetrics::fitting(band.h as i128)
    }

    /// Lay out the dash in its band. There is always at least the show-apps button, so the pill
    /// is never empty.
    pub fn layout(&self, band: DashBand) -> (layout: DashLayout)
        requires
            band.good(),
        ensures
            self.is_layout(band, layout),
            layout.pill.near(),
            forall|k: int|
                0 <= k < layout.tiles@.len() ==> (#[trigger] layout.tiles@[k]).near(),
    {
        let metrics = Self::metrics(band);
        let icon = metrics.icon_px as i128;
        let n: usize = self.items.len();
        proof {
            self.lemma_reach(band, n as int);
        }
        let gap: i128 = band.gap as i128 * icon;
        let empty: i128 = self.empty_drop_target_w(metrics.icon_px);
        let separator_after = self.separator_after();
        let separator_space: i128 = match separator_after {
            Some(_) => SEPARATOR_ADVANCE,
            None => 0,
        };
        let run_w: i128 = PARTS * (80 * icon * (n as i128) + 80 * icon + separator_space + empty)
            + gap;
        let pill_w: i128 = run_w + PARTS * (20 * icon);
        let pill_x: i128 = FINE * nearest_to(
            PARTS * (2 * band.x as i128 + band.w as i128) - pill_w,
            2 * FINE,
        );
        let pill_y: i128 = FINE * nearest_to(
            band.y as i128 + band.h as i128 - 112 * icon,
            UNITS,
        );
        let pill = Area { x: pill_x, y: pill_y, w: pill_w, h: PARTS * (100 * icon) };
        let tile_y: i128 = pill_y + PARTS * (12 * icon);
        let side: i128 = PARTS * (76 * icon);
        let mut tiles: Vec<Area> = Vec::new();
        let mut k: usize = 0;
        let mut more = true;
        while more
            invariant
                band.good(),
                n == self.items@.len(),
                k <= n,
                more ==> tiles@.len() == k,
                !more ==> tiles@.len() == n + 1,
                icon == band.icon(),
                gap == band.gap * band.icon(),
                empty == self.empty_target(band.icon()),
                separator_after == self.divider(),
                pill_x == self.pill_x(band),
                tile_y == self.tile_y(band),
                side == self.tile_side(band),
                -FAR <= tile_y <= FAR,
                forall|j: int|
                    0 <= j < tiles@.len() ==> self.is_tile(band, j, #[trigger] tiles@[j]),
                forall|j: int| 0 <= j < tiles@.len() ==> (#[trigger] tiles@[j]).near(),
            decreases n + 1 - tiles@.len(),
        {
            proof {
                self.lemma_reach(band, k as int);
            }
            let shift: i128 = match separator_after {
                Some(at) => if k >= at {
                    SEPARATOR_ADVANCE
                } else {
                    0
                },
                None => 0,
            };
            let gap_shift: i128 = if k >= self.gap_slot {
                gap
            } else {
                0
            };
            let left: i128 = 10 * icon + 80 * icon * (k as i128) + shift + empty + 2 * icon;
            let x: i128 = pill_x + PARTS * left + gap_shift;
            tiles.push(Area { x, y: tile_y, w: side, h: side });
            if k < n {
                k = k + 1;
            } else {
                more = false;
            }
        }
        let separator: Option<Area> = match separator_after {
            Some(at) => {
                proof {
                    self.lemma_reach(band, at as int);
                }
                let gap_shift: i128 = if at >= self.gap_slot {
                    gap
                } else {
                    0
                };
                Some(
                    Area {
                        x: pill_x + PARTS * (10 * icon + 80 * icon * (at as i128)
                            + SEPARATOR_MARGIN) + gap_shift,
                        y: tile_y + PARTS * (6 * icon),
                        w: PARTS * SEPARATOR_W,
                        h: PARTS * (64 * icon),
                    },
                )
            },
            None => None,
        };
        DashLayout { metrics, pill, tiles, n_items: n, separator }
    }

    /// Which element is under a point. Click targets reach down to the screen's bottom edge;
    /// the padding above the tiles and beside them is background, and so is any room the
    /// layout leaves between tiles.
    pub fn hit_test(&self, band: DashBand, x: i64, y: i64) -> (hit: Option<DashHit>)
        requires
            band.good(),
        ensures
            self.hits(band, x as int, y as int, hit),
    {
        let layout = self.layout(band);
        let left: i128 = PARTS * x as i128;
        let top: i128 = PARTS * y as i128;
        let pill = layout.pill;
        if left < pill.x || left >= pill.x + pill.w || top < pill.y {
            return None;
        }
        let margin: i128 = PARTS * (2 * layout.metrics.icon_px as i128);
        if top < pill.y + PARTS * (12 * layout.metrics.icon_px as i128) {
            return Some(DashHit::Background);
        }
        let mut k: usize = 0;
        while k < layout.tiles.len()
            invariant
                k <= layout.tiles@.len(),
                self.is_layout(band, layout),
                left == PARTS * x,
                margin == PARTS * (2 * band.icon()),
                0 <= margin <= PARTS * 128,
                forall|j: int|
                    0 <= j < layout.tiles@.len() ==> (#[trigger] layout.tiles@[j]).near(),
                forall|j: int| 0 <= j < k ==> !self.over_tile(band, x as int, j),
                self.over_pill(band, x as int, y as int),
                PARTS * y >= self.tile_y(band),
            decreases layout.tiles@.len() - k,
        {
            let tile = layout.tiles[k];
            assert(self.is_tile(band, k as int, tile));
            assert(tile.near());
            if left >= tile.x - margin && left < tile.x + tile.w + margin {
                return if k < layout.n_items {
                    Some(DashHit::App(k))
                } else {
                    Some(DashHit::ShowApps)
                };
            }
            k = k + 1;
        }
        Some(DashHit::Background)
    }

    /// Where a drag carrying `dragged_id` would drop, as an index into the favorites, or
    /// `None` where it would not: off the box, or beside itself for an app already pinned
    /// there.
    ///
    /// The box is divided into as many equal shares as there are icons, measured without the
    /// gap and the divider, which makes each an advance wide; the point still ranges over the
    /// whole box. That is what makes the place past the last favorite reachable: the room that
    /// the open gap adds at the right end is the only place it comes from when nothing else is
    /// running.
    pub fn drop_slot_at(&self, band: DashBand, x: i64, y: i64, dragged_id: &str) -> (slot: Option<
        usize,
    >)
        requires
            band.good(),
        ensures
            match slot {
                Some(s) => self.drop_at(band, x as int, y as int, dragged_id@) == Some(s as int),
                None => self.drop_at(band, x as int, y as int, dragged_id@) is None,
            },
            slot matches Some(s) ==> s <= self.n_favorites,
    {
        let layout = self.layout(band);
        let left: i128 = PARTS * x as i128;
        let top: i128 = PARTS * y as i128;
        let pill = layout.pill;
        if left < pill.x || left >= pill.x + pill.w || top < pill.y {
            return None;
        }
        let icon = layout.metrics.icon_px as i128;
        let n: usize = self.items.len();
        proof {
            self.lemma_reach(band, n as int);
        }
        let along: i128 = left - pill.x - PARTS * (10 * icon);
        let box_w: i128 = pill.w - PARTS * (100 * icon);
        if along < 0 || along >= box_w {
            return None;
        }
        if n == 0 {
            return Some(0);
        }
        let share: i128 = along / (PARTS * (80 * icon));
        let at: usize = if share <= self.n_favorites as i128 {
            share as usize
        } else {
            self.n_favorites
        };
        assert(at == self.share_at(band, x as int));
        if let Some(from) = self.favorite_index(dragged_id) {
            assert forall|other: int| self.is_favorite_at(dragged_id@, other) implies other
                == from by {
                if other < from {
                    assert(self.items@[other].id@ != dragged_id@);
                } else if other > from {
                    assert(self.items@[from as int].id@ != dragged_id@);
                }
            }
            if at == from || at == from + 1 {
                assert(self.beside_itself(dragged_id@, at as int));
                return None;
            }
        }
        Some(at)
    }

    /// Whether a drag carrying `dragged_id` is over the unpin target: the show-apps button,
    /// for an app that is pinned.
    pub fn unpin_target_at(&self, band: DashBand, x: i64, y: i64, dragged_id: &str) -> (over: bool)
        requires
            band.good(),
        ensures
            over == (self.is_favorite(dragged_id@) && self.hits(
                band,
                x as int,
                y as int,
                Some(DashHit::ShowApps),
            )),
    {
        let hit = self.hit_test(band, x, y);
        proof {
            self.law_a_point_hits_one_thing(band, x as int, y as int, hit, Some(DashHit::ShowApps));
        }
        let on_button = match hit {
            Some(DashHit::ShowApps) => true,
            _ => false,
        };
        self.favorite_index(dragged_id).is_some() && on_button
    }

    /// A point hits one thing.
    pub proof fn law_a_point_hits_one_thing(
        &self,
        band: DashBand,
        x: int,
        y: int,
        a: Option<DashHit>,
        b: Option<DashHit>,
    )
        requires
            self.hits(band, x, y, a),
        ensures
            self.hits(band, x, y, b) <==> a == b,
    {
    }

    /// The desktop id of app `i`, if present.
    pub fn item_id(&self, i: usize) -> (id: Option<&str>)
        ensures
            match id {
                Some(t) => i < self.items@.len() && t@ == self.items@[i as int].id@,
                None => i >= self.items@.len(),
            },
    {
        if i < self.items.len() {
            Some(self.items[i].id.as_str())
        } else {
            None
        }
    }

    /// Whether app `i` draws its running dot.
    pub fn item_shows_running_dot(&self, i: usize) -> (shows: Option<bool>)
        ensures
            shows == if i < self.items@.len() {
                Some(self.items@[i as int].running)
            } else {
                None
            },
    {
        if i < self.items.len() {
            Some(self.items[i].running)
        } else {
            None
        }
    }

    /// The icon of app `i`, if present: what a drag of that tile carries.
    pub fn item_icon(&self, i: usize) -> (icon: Option<&AppIconRef>)
        ensures
            icon == if i < self.items@.len() {
                Some(&self.items@[i as int].icon)
            } else {
                None
            },
    {
        if i < self.items.len() {
            Some(&self.items[i].icon)
        } else {
            None
        }
    }

    /// Every item's icon, in order.
    pub fn icon_refs(&self) -> (icons: Vec<AppIconRef>)
        ensures
            icons@ == self.items@.map_values(|e: DashEntry| e.icon),
    {
        let mut icons: Vec<AppIconRef> = Vec::new();
        let mut i: usize = 0;
        while i < self.items.len()
            invariant
                i <= self.items@.len(),
                icons@.len() == i,
                forall|j: int| 0 <= j < i ==> #[trigger] icons@[j] == self.items@[j].icon,
            decreases self.items@.len() - i,
        {
            icons.push(self.items[i].icon.clone());
            i = i + 1;
        }
        assert(icons@ =~= self.items@.map_values(|e: DashEntry| e.icon));
        icons
    }

    /// Set the hovered element; returns whether that is a change.
    pub fn set_hovered(&mut self, hovered: Option<DashHit>) -> (changed: bool)
        ensures
            changed == (old(self).hovered != hovered),
            *final(self) == (Dash { hovered, ..*old(self) }),
    {
        let same = match (self.hovered, hovered) {
            (None, None) => true,
            (Some(a), Some(b)) => a == b,
            _ => false,
        };
        self.hovered = hovered;
        !same
    }

    /// Narrow a hit to what a poking dock draws: the icons demanding attention. The tiles it
    /// does not draw keep their places, and must not be clickable.
    pub fn filter_poke(&self, hit: DashHit, poking: bool) -> (kept: Option<DashHit>)
        ensures
            kept == if !poking || (hit matches DashHit::App(k) && k < self.items@.len()
                && self.items@[k as int].urgent) {
                Some(hit)
            } else {
                None
            },
    {
        if !poking {
            return Some(hit);
        }
        match hit {
            DashHit::App(k) => if k < self.items.len() && self.items[k].urgent {
                Some(hit)
            } else {
                None
            },
            _ => None,
        }
    }

    /// The trailing show-apps button's index: the number of apps.
    pub fn show_apps_index(&self) -> (index: usize)
        ensures
            index == self.items@.len(),
    {
        self.items.len()
    }

    /// The middle of tile `i`, if there is such a tile: where a drag of it picks the icon up
    /// from.
    pub fn tile_center(&self, i: usize, band: DashBand) -> (center: Option<(i128, i128)>)
        requires
            band.good(),
        ensures
            match center {
                Some(c) => {
                    &&& i <= self.items@.len()
                    &&& 2 * c.0 == 2 * self.tile_x(band, i as int) + self.tile_side(band)
                    &&& 2 * c.1 == 2 * self.tile_y(band) + self.tile_side(band)
                },
                None => i > self.items@.len(),
            },
    {
        match self.tile_rect(i, band) {
            Some(tile) => Some((tile.x + tile.w / 2, tile.y + tile.h / 2)),
            None => None,
        }
    }

    /// Tile `i`, if there is such a tile: what a context menu anchors on.
    pub fn tile_rect(&self, i: usize, band: DashBand) -> (tile: Option<Area>)
        requires
            band.good(),
        ensures
            match tile {
                Some(t) => i <= self.items@.len() && self.is_tile(band, i as int, t) && t.near(),
                None => i > self.items@.len(),
            },
    {
        let layout = self.layout(band);
        if i < layout.tiles.len() {
            Some(layout.tiles[i])
        } else {
            None
        }
    }

    /// A running dot: centred on its tile, and lifted off the pill's bottom edge so that it
    /// lands in the room below the icon.
    pub fn dot_box(tile: Area, pill: Area, metrics: DashMetrics) -> (dot: Area)
        requires
            tile.near(),
            pill.near(),
            metrics == DashMetrics::of(metrics.icon_px),
            tile.w == PARTS * metrics.tile,
        ensures
            dot.w == PARTS * (5 * metrics.icon_px),
            dot.h == dot.w,
            2 * dot.x + dot.w == 2 * tile.x + tile.w,
            dot.y + dot.h + PARTS * (12 * metrics.icon_px) == pill.y + pill.h,
            -4 * FAR <= dot.x <= 4 * FAR,
            -4 * FAR <= dot.y <= 4 * FAR,
    {
        let icon = metrics.icon_px as i128;
        let side: i128 = PARTS * (5 * icon);
        Area {
            x: tile.x + (tile.w - side) / 2,
            y: pill.y + pill.h - side - PARTS * (12 * icon),
            w: side,
            h: side,
        }
    }

    /// The running dot of app `i`, if it is running.
    pub fn dot_box_for(&self, i: usize, band: DashBand) -> (dot: Option<Area>)
        requires
            band.good(),
        ensures
            dot is Some <==> i < self.items@.len() && self.items@[i as int].running,
            dot matches Some(d) ==> {
                &&& d.w == PARTS * (5 * band.icon())
                &&& d.h == d.w
                &&& 2 * d.x + d.w == 2 * self.tile_x(band, i as int) + self.tile_side(band)
                &&& d.y + d.h + PARTS * (12 * band.icon()) == self.pill_y(band) + PARTS * (100
                    * band.icon())
            },
    {
        if i >= self.items.len() || !self.items[i].running {
            return None;
        }
        let layout = self.layout(band);
        let tile = layout.tiles[i];
        assert(self.is_tile(band, i as int, tile));
        assert(tile.near());
        Some(Self::dot_box(tile, layout.pill, layout.metrics))
    }

    /// The tile with the hover fill, if it is one of those laid out.
    pub open spec fn hovered_tile(&self) -> Option<usize> {
        match self.hovered {
            Some(DashHit::App(k)) if k < self.items@.len() => Some(k),
            Some(DashHit::ShowApps) => Some(self.items@.len() as usize),
            _ => None,
        }
    }

    /// The area is a running dot, relative to the pill: centred on tile `k`, and lifted off the
    /// pill's bottom edge.
    pub open spec fn is_dot(&self, band: DashBand, k: int, dot: Area) -> bool {
        &&& dot.w == PARTS * (5 * band.icon())
        &&& dot.h == dot.w
        &&& 2 * (self.pill_x(band) + dot.x) + dot.w == 2 * self.tile_x(band, k) + self.tile_side(
            band,
        )
        &&& dot.y + dot.h + PARTS * (12 * band.icon()) == PARTS * (100 * band.icon())
    }

    /// The area is an icon: in the middle of tile `k`.
    pub open spec fn is_icon(&self, band: DashBand, k: int, icon: Area) -> bool {
        &&& icon.w == PARTS * (64 * band.icon())
        &&& icon.h == icon.w
        &&& 2 * icon.x + icon.w == 2 * self.tile_x(band, k) + self.tile_side(band)
        &&& 2 * icon.y + icon.h == 2 * self.tile_y(band) + self.tile_side(band)
    }

    /// The area is tile `k`, relative to a corner `pad` up and left of the pill's.
    pub open spec fn is_tile_in(&self, band: DashBand, k: int, pad: int, tile: Area) -> bool {
        &&& tile.x == self.tile_x(band, k) - self.pill_x(band) + pad
        &&& tile.y == self.tile_y(band) - self.pill_y(band) + pad
        &&& tile.w == self.tile_side(band)
        &&& tile.h == self.tile_side(band)
    }

    /// The pill's layer.
    pub open spec fn is_chrome(&self, band: DashBand, chrome: ChromePlan) -> bool {
        &&& chrome.pill.x == self.pill_x(band)
        &&& chrome.pill.y == self.pill_y(band)
        &&& chrome.pill.w == self.pill_w(band)
        &&& chrome.pill.h == PARTS * (100 * band.icon())
        &&& chrome.separator is Some <==> self.divider() is Some
        &&& chrome.separator matches Some(line) ==> {
            &&& line.x == self.divider_x(band, self.divider()->0 as int) - self.pill_x(band)
            &&& line.y == PARTS * (18 * band.icon())
            &&& line.w == PARTS * SEPARATOR_W
            &&& line.h == PARTS * (64 * band.icon())
        }
        &&& chrome.hovered_tile == self.hovered_tile()
        &&& match (chrome.hovered_tile, chrome.hovered_box) {
            (Some(k), Some(tile)) => self.is_tile_in(band, k as int, 0, tile),
            (None, None) => true,
            _ => false,
        }
    }

    fn dots_at(&self, band: DashBand, layout: &DashLayout, at: &Vec<usize>) -> (boxes: Vec<Area>)
        requires
            band.good(),
            self.is_layout(band, *layout),
            layout.pill.near(),
            forall|k: int| 0 <= k < layout.tiles@.len() ==> (#[trigger] layout.tiles@[k]).near(),
            forall|j: int| 0 <= j < at@.len() ==> #[trigger] at@[j] < self.items@.len(),
        ensures
            boxes@.len() == at@.len(),
            forall|j: int|
                0 <= j < at@.len() ==> self.is_dot(band, at@[j] as int, #[trigger] boxes@[j]),
    {
        let mut boxes: Vec<Area> = Vec::new();
        let mut j: usize = 0;
        while j < at.len()
            invariant
                band.good(),
                self.is_layout(band, *layout),
                layout.pill.near(),
                forall|k: int|
                    0 <= k < layout.tiles@.len() ==> (#[trigger] layout.tiles@[k]).near(),
                forall|i: int| 0 <= i < at@.len() ==> #[trigger] at@[i] < self.items@.len(),
                j <= at@.len(),
                boxes@.len() == j,
                forall|i: int|
                    0 <= i < j ==> self.is_dot(band, at@[i] as int, #[trigger] boxes@[i]),
            decreases at@.len() - j,
        {
            let tile = layout.tiles[at[j]];
            assert(self.is_tile(band, at@[j as int] as int, tile));
            assert(tile.near());
            let dot = Self::dot_box(tile, layout.pill, layout.metrics);
            boxes.push(
                Area { x: dot.x - layout.pill.x, y: dot.y - layout.pill.y, w: dot.w, h: dot.h },
            );
            j = j + 1;
        }
        boxes
    }

    fn icon_box(&self, band: DashBand, layout: &DashLayout, k: usize) -> (icon: Area)
        requires
            band.good(),
            self.is_layout(band, *layout),
            k <= self.items@.len(),
            layout.tiles@[k as int].near(),
        ensures
            self.is_icon(band, k as int, icon),
    {
        let tile = layout.tiles[k];
        assert(self.is_tile(band, k as int, tile));
        let px = layout.metrics.icon_px as i128;
        Area {
            x: tile.x + PARTS * (6 * px),
            y: tile.y + PARTS * (6 * px),
            w: PARTS * (64 * px),
            h: PARTS * (64 * px),
        }
    }

    fn icons_at(&self, band: DashBand, layout: &DashLayout, at: &Vec<usize>) -> (boxes: Vec<Area>)
        requires
            band.good(),
            self.is_layout(band, *layout),
            forall|k: int| 0 <= k < layout.tiles@.len() ==> (#[trigger] layout.tiles@[k]).near(),
            forall|j: int| 0 <= j < at@.len() ==> #[trigger] at@[j] < self.items@.len(),
        ensures
            boxes@.len() == at@.len(),
            forall|j: int|
                0 <= j < at@.len() ==> self.is_icon(band, at@[j] as int, #[trigger] boxes@[j]),
    {
        let mut boxes: Vec<Area> = Vec::new();
        let mut j: usize = 0;
        while j < at.len()
            invariant
                band.good(),
                self.is_layout(band, *layout),
                forall|k: int|
                    0 <= k < layout.tiles@.len() ==> (#[trigger] layout.tiles@[k]).near(),
                forall|i: int| 0 <= i < at@.len() ==> #[trigger] at@[i] < self.items@.len(),
                j <= at@.len(),
                boxes@.len() == j,
                forall|i: int|
                    0 <= i < j ==> self.is_icon(band, at@[i] as int, #[trigger] boxes@[i]),
            decreases at@.len() - j,
        {
            boxes.push(self.icon_box(band, layout, at[j]));
            j = j + 1;
        }
        boxes
    }

    fn tile_in(&self, band: DashBand, layout: &DashLayout, k: usize, pad: i128) -> (area: Area)
        requires
            band.good(),
            self.is_layout(band, *layout),
            layout.pill.near(),
            k <= self.items@.len(),
            layout.tiles@[k as int].near(),
            0 <= pad <= GLOW_PAD,
        ensures
            self.is_tile_in(band, k as int, pad as int, area),
    {
        let tile = layout.tiles[k];
        assert(self.is_tile(band, k as int, tile));
        Area {
            x: tile.x - layout.pill.x + pad,
            y: tile.y - layout.pill.y + pad,
            w: tile.w,
            h: tile.h,
        }
    }

    fn glows_at(&self, band: DashBand, layout: &DashLayout, at: &Vec<usize>) -> (boxes: Vec<Area>)
        requires
            band.good(),
            self.is_layout(band, *layout),
            layout.pill.near(),
            forall|k: int| 0 <= k < layout.tiles@.len() ==> (#[trigger] layout.tiles@[k]).near(),
            forall|j: int| 0 <= j < at@.len() ==> #[trigger] at@[j] < self.items@.len(),
        ensures
            boxes@.len() == at@.len(),
            forall|j: int|
                0 <= j < at@.len() ==> self.is_tile_in(
                    band,
                    at@[j] as int,
                    GLOW_PAD as int,
                    #[trigger] boxes@[j],
                ),
    {
        let mut boxes: Vec<Area> = Vec::new();
        let mut j: usize = 0;
        while j < at.len()
            invariant
                band.good(),
                self.is_layout(band, *layout),
                layout.pill.near(),
                forall|k: int|
                    0 <= k < layout.tiles@.len() ==> (#[trigger] layout.tiles@[k]).near(),
                forall|i: int| 0 <= i < at@.len() ==> #[trigger] at@[i] < self.items@.len(),
                j <= at@.len(),
                boxes@.len() == j,
                forall|i: int|
                    0 <= i < j ==> self.is_tile_in(
                        band,
                        at@[i] as int,
                        GLOW_PAD as int,
                        #[trigger] boxes@[i],
                    ),
            decreases at@.len() - j,
        {
            boxes.push(self.tile_in(band, layout, at[j], GLOW_PAD));
            j = j + 1;
        }
        boxes
    }

    fn chrome(
        &self,
        band: DashBand,
        layout: &DashLayout,
        blur: bool,
        appearance: u64,
    ) -> (chrome: ChromePlan)
        requires
            band.good(),
            self.is_layout(band, *layout),
            layout.pill.near(),
            forall|k: int| 0 <= k < layout.tiles@.len() ==> (#[trigger] layout.tiles@[k]).near(),
        ensures
            self.is_chrome(band, chrome),
            chrome.revision == chrome_key(
                self.content_rev,
                appearance,
                hover_code(self.hovered_tile()),
            ),
            chrome.backdrop == blur,
    {
        let n: usize = self.items.len();
        let hovered_tile: Option<usize> = match self.hovered {
            Some(DashHit::App(k)) => if k < n {
                Some(k)
            } else {
                None
            },
            Some(DashHit::ShowApps) => Some(n),
            _ => None,
        };
        let code: u64 = match hovered_tile {
            Some(k) => (k as u64).wrapping_add(1),
            None => 0,
        };
        let hovered_box: Option<Area> = match hovered_tile {
            Some(k) => Some(self.tile_in(band, layout, k, 0)),
            None => None,
        };
        let separator: Option<Area> = match layout.separator {
            Some(line) => {
                proof {
                    self.lemma_reach(band, self.divider()->0 as int);
                }
                Some(
                    Area {
                        x: line.x - layout.pill.x,
                        y: line.y - layout.pill.y,
                        w: line.w,
                        h: line.h,
                    },
                )
            },
            None => None,
        };
        ChromePlan {
            pill: layout.pill,
            separator,
            hovered_tile,
            hovered_box,
            revision: (self.content_rev << 21u64) | (appearance << 20u64) | (code & 0xf_ffff),
            backdrop: blur,
        }
    }

    /// What one frame draws in its band, with `poking` for a dock that only pokes out, `blur`
    /// for one that wants the scene blurred under it, `appearance` for the number of the light
    /// or dark appearance, and the accent color.
    ///
    /// A poke is the urgent icons and their glow, and nothing else. A glow is drawn wherever
    /// the dash is: an app that wants attention still does once the dock is pulled out.
    pub fn render_plan(
        &self,
        band: DashBand,
        poking: bool,
        blur: bool,
        appearance: u64,
        accent: (u8, u8, u8),
    ) -> (plan: RenderPlan)
        requires
            band.good(),
        ensures
            ints(plan.dots@) == picked(
                self.items@.len(),
                |i: int| !poking && self.items@[i].running,
            ),
            plan.dot_boxes@.len() == plan.dots@.len(),
            forall|j: int|
                0 <= j < plan.dots@.len() ==> self.is_dot(
                    band,
                    plan.dots@[j] as int,
                    #[trigger] plan.dot_boxes@[j],
                ),
            ints(plan.icons@) == picked(
                self.items@.len(),
                |i: int| !poking || self.items@[i].urgent,
            ),
            plan.icon_boxes@.len() == plan.icons@.len(),
            forall|j: int|
                0 <= j < plan.icons@.len() ==> self.is_icon(
                    band,
                    plan.icons@[j] as int,
                    #[trigger] plan.icon_boxes@[j],
                ),
            ints(plan.glows@) == picked(self.items@.len(), |i: int| self.items@[i].urgent),
            plan.glow_boxes@.len() == plan.glows@.len(),
            forall|j: int|
                0 <= j < plan.glows@.len() ==> self.is_tile_in(
                    band,
                    plan.glows@[j] as int,
                    GLOW_PAD as int,
                    #[trigger] plan.glow_boxes@[j],
                ),
            plan.layers@ == layers_of(plan.dots@, plan.icons@, plan.glows@, poking, blur),
            plan.glow_layer is Some <==> plan.glows@.len() > 0,
            plan.glow_layer matches Some(layer) ==> {
                &&& layer.x == self.pill_x(band) - GLOW_PAD
                &&& layer.y == self.pill_y(band) - GLOW_PAD
                &&& layer.w == self.pill_w(band) + 2 * GLOW_PAD
                &&& layer.h == PARTS * (100 * band.icon()) + 2 * GLOW_PAD
            },
            plan.glow_revision == glow_key(self.content_rev, accent.0, accent.1, accent.2),
            plan.show_apps is Some <==> !poking,
            plan.show_apps matches Some(icon) ==> self.is_icon(
                band,
                self.items@.len() as int,
                icon,
            ),
            plan.chrome is Some <==> !poking,
            plan.chrome matches Some(chrome) ==> {
                &&& self.is_chrome(band, chrome)
                &&& chrome.revision == chrome_key(
                    self.content_rev,
                    appearance,
                    hover_code(self.hovered_tile()),
                )
                &&& chrome.backdrop == blur
            },
    {
        let layout = self.layout(band);
        let n: usize = self.items.len();
        let mut running: Vec<bool> = Vec::new();
        let mut drawn: Vec<bool> = Vec::new();
        let mut urgent: Vec<bool> = Vec::new();
        let mut i: usize = 0;
        while i < n
            invariant
                n == self.items@.len(),
                i <= n,
                running@.len() == i,
                drawn@.len() == i,
                urgent@.len() == i,
                forall|j: int|
                    0 <= j < i ==> #[trigger] running@[j] == (!poking && self.items@[j].running),
                forall|j: int|
                    0 <= j < i ==> #[trigger] drawn@[j] == (!poking || self.items@[j].urgent),
                forall|j: int| 0 <= j < i ==> #[trigger] urgent@[j] == self.items@[j].urgent,
            decreases n - i,
        {
            running.push(!poking && self.items[i].running);
            drawn.push(!poking || self.items[i].urgent);
            urgent.push(self.items[i].urgent);
            i = i + 1;
        }
        proof {
            lemma_picked_alike(
                n as nat,
                |i: int| running@[i],
                |i: int| !poking && self.items@[i].running,
            );
            lemma_picked_alike(
                n as nat,
                |i: int| drawn@[i],
                |i: int| !poking || self.items@[i].urgent,
            );
            lemma_picked_alike(n as nat, |i: int| urgent@[i], |i: int| self.items@[i].urgent);
        }
        let dots = raised_in(&running);
        let icons = raised_in(&drawn);
        let glows = raised_in(&urgent);
        let pill = layout.pill;
        let glow_layer: Option<Area> = if glows.len() > 0 {
            Some(
                Area {
                    x: pill.x - GLOW_PAD,
                    y: pill.y - GLOW_PAD,
                    w: pill.w + 2 * GLOW_PAD,
                    h: pill.h + 2 * GLOW_PAD,
                },
            )
        } else {
            None
        };
        assert(layout.tiles@[n as int].near());
        let (show_apps, chrome): (Option<Area>, Option<ChromePlan>) = if poking {
            (None, None)
        } else {
            (
                Some(self.icon_box(band, &layout, n)),
                Some(self.chrome(band, &layout, blur, appearance)),
            )
        };
        RenderPlan {
            layers: stack(&dots, &icons, &glows, poking, blur),
            dot_boxes: self.dots_at(band, &layout, &dots),
            icon_boxes: self.icons_at(band, &layout, &icons),
            glow_boxes: self.glows_at(band, &layout, &glows),
            dots,
            icons,
            glows,
            glow_layer,
            glow_revision: (self.content_rev << 24u64) | (((accent.0 as u64) << 16u64) | ((
            accent.1 as u64) << 8u64) | (accent.2 as u64)),
            show_apps,
            chrome,
        }
    }
}

fn stack(
    dots: &Vec<usize>,
    icons: &Vec<usize>,
    glows: &Vec<usize>,
    poking: bool,
    blur: bool,
) -> (layers: Vec<DashLayer>)
    ensures
        layers@ == layers_of(dots@, icons@, glows@, poking, blur),
{
    let mut layers: Vec<DashLayer> = Vec::new();
    if dots.len() > 0 {
        layers.push(DashLayer::Dots);
    }
    let ghost over = layers@;
    let ghost drawn = icons@.map_values(|k: usize| DashLayer::Icon(k));
    assert(over + drawn.take(0) =~= over);
    let mut j: usize = 0;
    while j < icons.len()
        invariant
            j <= icons@.len(),
            drawn == icons@.map_values(|k: usize| DashLayer::Icon(k)),
            layers@ == over + drawn.take(j as int),
        decreases icons@.len() - j,
    {
        layers.push(DashLayer::Icon(icons[j]));
        j = j + 1;
        assert(over + drawn.take(j as int) =~= (over + drawn.take(j - 1)).push(drawn[j - 1]));
    }
    assert(drawn.take(j as int) =~= drawn);
    if glows.len() > 0 {
        layers.push(DashLayer::Glow);
    }
    if !poking {
        layers.push(DashLayer::ShowApps);
        layers.push(DashLayer::Pill);
        if blur {
            layers.push(DashLayer::Backdrop);
        }
    }
    assert(layers@ =~= layers_of(dots@, icons@, glows@, poking, blur));
    layers
}

/// The positions of the flags that are up, each of them one of the flags.
fn raised_in(flags: &Vec<bool>) -> (positions: Vec<usize>)
    ensures
        ints(positions@) == picked(flags@.len(), |i: int| flags@[i]),
        forall|j: int| 0 <= j < positions@.len() ==> #[trigger] positions@[j] < flags@.len(),
{
    let positions = raised(flags);
    proof {
        lemma_picked(flags@.len(), |i: int| flags@[i]);
        assert forall|j: int| 0 <= j < positions@.len() implies #[trigger] positions@[j]
            < flags@.len() by {
            assert(ints(positions@)[j] == positions@[j]);
        }
    }
    positions
}

/// The number of a hovered tile in a key: one more than its index, and zero for none.
pub open spec fn hover_code(tile: Option<usize>) -> u64 {
    match tile {
        Some(k) => (k as u64).wrapping_add(1),
        None => 0,
    }
}

/// The key of the pill's layer: the content's revision, the appearance, the hovered tile.
pub open spec fn chrome_key(content_rev: u64, appearance: u64, code: u64) -> u64 {
    (content_rev << 21u64) | (appearance << 20u64) | (code & 0xf_ffff)
}

/// The key of the glows: the content's revision and the accent color.
pub open spec fn glow_key(content_rev: u64, r: u8, g: u8, b: u8) -> u64 {
    (content_rev << 24u64) | (((r as u64) << 16u64) | ((g as u64) << 8u64) | (b as u64))
}

/// Toggling the appearance, or moving the hover among the first million tiles, always
/// changes the pill's key, so the layer is drawn again.
pub proof fn law_the_pill_key_tells_appearance_and_hover(
    content_rev: u64,
    appearance_a: u64,
    appearance_b: u64,
    code_a: u64,
    code_b: u64,
)
    requires
        appearance_a <= 1,
        appearance_b <= 1,
        code_a <= 0xf_ffff,
        code_b <= 0xf_ffff,
        chrome_key(content_rev, appearance_a, code_a) == chrome_key(
            content_rev,
            appearance_b,
            code_b,
        ),
    ensures
        appearance_a == appearance_b,
        code_a == code_b,
{
    assert(appearance_a == appearance_b && code_a == code_b) by (bit_vector)
        requires
            appearance_a <= 1,
            appearance_b <= 1,
            code_a <= 0xf_ffff,
            code_b <= 0xf_ffff,
            (content_rev << 21u64) | (appearance_a << 20u64) | (code_a & 0xf_ffff) == (content_rev
                << 21u64) | (appearance_b << 20u64) | (code_b & 0xf_ffff),
    ;
}

/// Another accent color always changes the key of the glows.
pub proof fn law_the_glow_key_tells_the_accent(
    content_rev: u64,
    a: (u8, u8, u8),
    b: (u8, u8, u8),
)
    requires
        glow_key(content_rev, a.0, a.1, a.2) == glow_key(content_rev, b.0, b.1, b.2),
    ensures
        a == b,
{
    let (r1, g1, b1) = a;
    let (r2, g2, b2) = b;
    assert(r1 == r2 && g1 == g2 && b1 == b2) by (bit_vector)
        requires
            (content_rev << 24u64) | (((r1 as u64) << 16u64) | ((g1 as u64) << 8u64) | (
            b1 as u64)) == (content_rev << 24u64) | (((r2 as u64) << 16u64) | ((g2 as u64)
                << 8u64) | (b2 as u64)),
    ;
}

/// A poke draws the urgent icons over one glow and nothing else, and nothing at all where no app
/// is urgent.
pub proof fn law_a_poke_is_icons_over_their_glow(urgent: Seq<usize>, blur: bool)
    ensures
        urgent.len() == 0 ==> layers_of(Seq::empty(), urgent, urgent, true, blur).len() == 0,
        urgent.len() > 0 ==> layers_of(Seq::empty(), urgent, urgent, true, blur)
            == urgent.map_values(|k: usize| DashLayer::Icon(k)).push(DashLayer::Glow),
{
    if urgent.len() > 0 {
        assert(layers_of(Seq::empty(), urgent, urgent, true, blur) =~= urgent.map_values(
            |k: usize| DashLayer::Icon(k),
        ).push(DashLayer::Glow));
    }
}

/// Every length of a dash is in proportion to its icon: scaling the lengths of one size to
/// another gives the lengths of that other size.
pub proof fn law_lengths_are_proportional(a: u32, b: u32)
    ensures
        DashMetrics::of(a).tile * b == DashMetrics::of(b).tile * a,
        DashMetrics::of(a).item_margin * b == DashMetrics::of(b).item_margin * a,
        DashMetrics::of(a).item_advance * b == DashMetrics::of(b).item_advance * a,
        DashMetrics::of(a).pill_pad_h * b == DashMetrics::of(b).pill_pad_h * a,
        DashMetrics::of(a).pill_pad_v * b == DashMetrics::of(b).pill_pad_v * a,
        DashMetrics::of(a).pill_h * b == DashMetrics::of(b).pill_h * a,
        DashMetrics::of(a).pill_radius * b == DashMetrics::of(b).pill_radius * a,
        DashMetrics::of(a).margin_bottom * b == DashMetrics::of(b).margin_bottom * a,
{
    lemma_scaled(76, a, b);
    lemma_scaled(2, a, b);
    lemma_scaled(80, a, b);
    lemma_scaled(10, a, b);
    lemma_scaled(12, a, b);
    lemma_scaled(100, a, b);
    lemma_scaled(28, a, b);
}

proof fn lemma_scaled(factor: int, a: u32, b: u32)
    ensures
        (factor * a) * b == (factor * b) * a,
{
    assert((factor * a) * b == (factor * b) * a) by (nonlinear_arith);
}

/// A point in a tile's width hits that tile from the tile's top down, however far, divider and
/// drop gap or not: an app's own, and past the last app the show-apps button. Between the pill's
/// top and the tile's it hits the background, and above the pill nothing.
pub proof fn law_points_in_a_tile_hit_it(dash: Dash, band: DashBand, k: usize, x: int, y: int)
    requires
        band.good(),
        dash.items@.len() <= usize::MAX,
        k <= dash.items@.len(),
        dash.tile_x(band, k as int) <= PARTS * x < dash.tile_x(band, k as int) + dash.tile_side(
            band,
        ),
    ensures
        dash.hits(
            band,
            x,
            y,
            if PARTS * y < dash.pill_y(band) {
                None
            } else if PARTS * y < dash.tile_y(band) {
                Some(DashHit::Background)
            } else if k < dash.items@.len() {
                Some(DashHit::App(k))
            } else {
                Some(DashHit::ShowApps)
            },
        ),
{
    let icon = band.icon() as int;
    dash.lemma_reach(band, k as int);
    assert(dash.over_tile(band, x, k as int));
    assert forall|j: int| 0 <= j < k implies !dash.over_tile(band, x, j) by {
        assert(80 * icon * j + 80 * icon <= 80 * icon * k) by (nonlinear_arith)
            requires
                j + 1 <= k,
                0 <= icon,
        ;
    }
}

/// The middle of every tile, to the unit, hits that tile.
pub proof fn law_tile_centres_hit_their_tiles(dash: Dash, band: DashBand, k: usize, x: int, y: int)
    requires
        band.good(),
        dash.items@.len() <= usize::MAX,
        k <= dash.items@.len(),
        0 <= 2 * dash.tile_x(band, k as int) + dash.tile_side(band) - 2 * (PARTS * x) < 2 * PARTS,
        0 <= 2 * dash.tile_y(band) + dash.tile_side(band) - 2 * (PARTS * y) < 2 * PARTS,
    ensures
        dash.hits(
            band,
            x,
            y,
            Some(
                if k < dash.items@.len() {
                    DashHit::App(k)
                } else {
                    DashHit::ShowApps
                },
            ),
        ),
{
    dash.lemma_reach(band, k as int);
    law_points_in_a_tile_hit_it(dash, band, k, x, y);
}

/// The pill stands in the middle of its band, and its margin above the band's bottom, to half a
/// pixel.
pub proof fn law_the_pill_is_centred(dash: Dash, band: DashBand)
    ensures
        -FINE <= 2 * dash.pill_x(band) + dash.pill_w(band) - PARTS * (2 * band.x + band.w) <= FINE,
        -FINE <= 2 * (dash.pill_y(band) + PARTS * (100 * band.icon()) + PARTS * (12 * band.icon())
            - PARTS * (band.y + band.h)) <= FINE,
{
    dash.lemma_pill_place(band);
}

/// Showing the divider widens the pill by exactly its advance, and pushes what stands past
/// it by as much.
pub proof fn law_the_divider_takes_its_advance(with: Dash, without: Dash, band: DashBand, k: int)
    requires
        with.items@.len() == without.items@.len(),
        with.drag_active == without.drag_active,
        with.gap_slot == without.gap_slot,
        with.divider() is Some,
        without.divider() is None,
    ensures
        with.pill_w(band) == without.pill_w(band) + PARTS * SEPARATOR_ADVANCE,
        with.tile_x(band, k) - with.pill_x(band) == without.tile_x(band, k) - without.pill_x(band)
            + if k >= with.divider()->0 {
            PARTS * SEPARATOR_ADVANCE
        } else {
            0
        },
{
}

/// The divider stands between the last favorite's tile and the next one, touching neither,
/// wherever the gap is.
pub proof fn law_the_divider_stands_between(dash: Dash, band: DashBand)
    requires
        band.good(),
        dash.items@.len() <= usize::MAX,
        dash.divider() is Some,
    ensures
        ({
            let at = dash.divider()->0 as int;
            &&& dash.tile_x(band, at - 1) + dash.tile_side(band) <= dash.divider_x(band, at)
            &&& dash.divider_x(band, at) + PARTS * SEPARATOR_W <= dash.tile_x(band, at)
        }),
{
    let at = dash.divider()->0 as int;
    let icon = band.icon() as int;
    dash.lemma_reach(band, at);
    assert(80 * icon * (at - 1) + 80 * icon == 80 * icon * at) by (nonlinear_arith);
}

/// A click on the divider does nothing.
pub proof fn law_the_divider_is_inert(dash: Dash, band: DashBand, x: int, y: int)
    requires
        band.good(),
        dash.items@.len() <= usize::MAX,
        dash.divider() is Some,
        dash.divider_x(band, dash.divider()->0 as int) <= PARTS * x < dash.divider_x(
            band,
            dash.divider()->0 as int,
        ) + PARTS * SEPARATOR_W,
        PARTS * y >= dash.pill_y(band),
    ensures
        dash.hits(band, x, y, Some(DashHit::Background)),
{
    let at = dash.divider()->0 as int;
    let n = dash.items@.len() as int;
    let icon = band.icon() as int;
    dash.lemma_reach(band, at);
    assert(dash.over_pill(band, x, y));
    assert forall|j: int| 0 <= j <= n implies !dash.over_tile(band, x, j) by {
        if j < at {
            assert(80 * icon * j + 80 * icon <= 80 * icon * at) by (nonlinear_arith)
                requires
                    j + 1 <= at,
                    0 <= icon,
            ;
        } else {
            assert(80 * icon * at <= 80 * icon * j) by (nonlinear_arith)
                requires
                    at <= j,
                    0 <= icon,
            ;
        }
    }
}

/// Opening the gap widens the pill by the gap's width and slides what is at or past its slot by
/// as much, and nothing before it.
pub proof fn law_the_gap_shifts_what_is_past_it(dash: Dash, open: DashBand, k: int)
    requires
        open.good(),
    ensures
        ({
            let shut = DashBand { gap: 0, ..open };
            &&& dash.pill_w(open) == dash.pill_w(shut) + open.gap * open.icon()
            &&& dash.tile_x(open, k) - dash.pill_x(open) == dash.tile_x(shut, k) - dash.pill_x(shut)
                + if k >= dash.gap_slot {
                open.gap * open.icon()
            } else {
                0
            }
        }),
{
    assert(0 * open.icon() == 0) by (nonlinear_arith);
}

/// The icons share the box evenly, an advance each, at every size and however far the gap is
/// open: the answer does not drift under a motionless pointer.
pub proof fn law_the_shares_keep_their_width(dash: Dash, open: DashBand)
    requires
        open.good(),
        0 < dash.items@.len() <= usize::MAX,
    ensures
        dash.shared_w(open) == dash.items@.len() * dash.share_w(open),
        dash.shared_w(open) == dash.shared_w(DashBand { gap: 0, ..open }),
{
    let n = dash.items@.len() as int;
    let icon = open.icon() as int;
    dash.lemma_reach(open, n);
    dash.lemma_reach(DashBand { gap: 0, ..open }, n);
    assert(0 * icon == 0);
    assert(64 * (80 * icon * n) == n * (64 * (80 * icon))) by (nonlinear_arith);
}

/// With nothing but favorites and the gap shut, no drop lands past the last one.
pub proof fn law_appending_needs_an_open_gap(
    dash: Dash,
    band: DashBand,
    x: int,
    y: int,
    id: Seq<char>,
)
    requires
        band.good(),
        0 < dash.items@.len() <= usize::MAX,
        dash.n_favorites == dash.items@.len(),
        band.gap == 0,
    ensures
        dash.drop_at(band, x, y, id) matches Some(slot) ==> slot < dash.n_favorites,
{
    let n = dash.items@.len() as int;
    if dash.over_box(band, x, y) {
        let along = dash.along(band, x);
        let share = dash.share_w(band);
        dash.lemma_reach(band, n);
        law_the_shares_keep_their_width(dash, band);
        assert(0 * band.icon() == 0);
        assert(along < n * share);
        assert(along / share < n) by (nonlinear_arith)
            requires
                along < n * share,
                share > 0,
        ;
    }
}

/// The room that the open gap adds at the right end of the box is where an app is appended.
pub proof fn law_the_gap_makes_room_to_append(
    dash: Dash,
    band: DashBand,
    x: int,
    y: int,
    id: Seq<char>,
)
    requires
        band.good(),
        0 < dash.items@.len() <= usize::MAX,
        dash.n_favorites == dash.items@.len(),
        !dash.is_favorite(id),
        dash.over_box(band, x, y),
        dash.along(band, x) >= dash.shared_w(band),
    ensures
        dash.drop_at(band, x, y, id) == Some(dash.n_favorites as int),
{
    let n = dash.items@.len() as int;
    let along = dash.along(band, x);
    let share = dash.share_w(band);
    dash.lemma_reach(band, n);
    law_the_shares_keep_their_width(dash, band);
    assert(along / share >= n) by (nonlinear_arith)
        requires
            along >= n * share,
            share > 0,
    ;
    assert(dash.drop_at(band, x, y, id) is Some);
}

/// A point on a tile, or straight below it, hits that tile's app; on the last tile it hits the
/// show-apps button. What it hits is never further off than the tile's side margin.
pub proof fn law_a_point_hits_the_tile_it_is_on(
    dash: Dash,
    band: DashBand,
    layout: DashLayout,
    k: usize,
    x: i64,
    y: i64,
    hit: Option<DashHit>,
)
    requires
        band.good(),
        call_ensures(Dash::layout, (&dash, band), layout),
        call_ensures(Dash::hit_test, (&dash, band, x, y), hit),
        k < layout.tiles@.len(),
        layout.tiles@[k as int].y <= PARTS * y,
    ensures
        layout.tiles@.len() == dash.items@.len() + 1,
        layout.tiles@[k as int].x <= PARTS * x < layout.tiles@[k as int].x + layout.tiles@[
        k as int].w ==> hit == Some(
            if k < dash.items@.len() {
                DashHit::App(k)
            } else {
                DashHit::ShowApps
            },
        ),
        hit == Some(DashHit::App(k)) ==> k < dash.items@.len() && layout.tiles@[k as int].x
            - layout.tiles@[k as int].w <= PARTS * x < layout.tiles@[k as int].x + 2
            * layout.tiles@[k as int].w,
        hit is None <==> !(layout.pill.x <= PARTS * x < layout.pill.x + layout.pill.w),
{
    assert(dash.is_tile(band, k as int, layout.tiles@[k as int]));
    assert(dash.items.len() == dash.items@.len());
    if layout.tiles@[k as int].x <= PARTS * x < layout.tiles@[k as int].x + layout.tiles@[
    k as int].w {
        law_points_in_a_tile_hit_it(dash, band, k, x as int, y as int);
        let expected = Some(
            if k < dash.items@.len() {
                DashHit::App(k)
            } else {
                DashHit::ShowApps
            },
        );
        dash.law_a_point_hits_one_thing(band, x as int, y as int, hit, expected);
    }
}

/// The tiles stand side by side in the apps' order, the show-apps button last, each clear of
/// the next and all of them level.
pub proof fn law_the_tiles_stand_in_order(
    dash: Dash,
    band: DashBand,
    layout: DashLayout,
    a: int,
    b: int,
)
    requires
        band.good(),
        call_ensures(Dash::layout, (&dash, band), layout),
        0 <= a < b < layout.tiles@.len(),
    ensures
        layout.tiles@[a].y == layout.tiles@[b].y,
        layout.tiles@[a].x + layout.tiles@[a].w < layout.tiles@[b].x,
        layout.tiles@[a].w == layout.tiles@[b].w,
        layout.tiles@[a].h == layout.tiles@[a].w,
        layout.pill.x < layout.tiles@[a].x,
        layout.tiles@[b].x + layout.tiles@[b].w < layout.pill.x + layout.pill.w,
        layout.separator matches Some(line) ==> {
            let at = dash.n_favorites as int;
            &&& b < at ==> layout.tiles@[b].x + layout.tiles@[b].w < line.x
            &&& a >= at ==> line.x + line.w < layout.tiles@[a].x
        },
{
    assert(dash.is_tile(band, a, layout.tiles@[a]));
    assert(dash.is_tile(band, b, layout.tiles@[b]));
    let icon = band.icon() as int;
    let n = dash.items@.len() as int;
    let at = dash.n_favorites as int;
    assert(16 <= icon <= 64);
    assert(80 * icon * a + 80 * icon <= 80 * icon * b && 80 * icon * b <= 80 * icon * n && 80
        * icon * (n + 1) == 80 * icon * n + 80 * icon && 0 <= 80 * icon * a) by (nonlinear_arith)
        requires
            0 <= a,
            a + 1 <= b <= n,
            0 <= icon,
    ;
    assert(0 <= band.gap * icon) by (nonlinear_arith)
        requires
            0 <= band.gap,
            0 <= icon,
    ;
    assert(b < at ==> 80 * icon * b + 80 * icon <= 80 * icon * at) by (nonlinear_arith)
        requires
            0 <= icon,
    ;
    assert(a >= at ==> 80 * icon * at <= 80 * icon * a) by (nonlinear_arith)
        requires
            0 <= icon,
    ;
}

/// A drag over an app's tile drops where that app is among the favorites, and past them at
/// their end; for an app that is pinned it drops nowhere right beside itself. That is so ahead
/// of the gap and of the divider.
pub proof fn law_a_drop_on_a_tile_takes_its_place(
    dash: Dash,
    band: DashBand,
    layout: DashLayout,
    k: usize,
    x: i64,
    y: i64,
    dragged: &str,
    pinned: Option<usize>,
    slot: Option<usize>,
)
    requires
        band.good(),
        call_ensures(Dash::layout, (&dash, band), layout),
        call_ensures(Dash::favorite_index, (&dash, dragged), pinned),
        call_ensures(Dash::drop_slot_at, (&dash, band, x, y, dragged), slot),
        k < dash.items@.len(),
        band.gap == 0 || k < dash.gap_slot,
        layout.separator is None || k < dash.n_favorites,
        layout.tiles@[k as int].x <= PARTS * x < layout.tiles@[k as int].x + layout.tiles@[
        k as int].w,
        layout.pill.y <= PARTS * y,
    ensures
        ({
            let place = if k < dash.n_favorites {
                k
            } else {
                dash.n_favorites
            };
            &&& pinned is None ==> slot == Some(place)
            &&& pinned matches Some(from) ==> slot == if place == from || place == from + 1 {
                None
            } else {
                Some(place)
            }
        }),
{
    assert(dash.is_tile(band, k as int, layout.tiles@[k as int]));
    let icon = band.icon() as int;
    let n = dash.items@.len() as int;
    let at = k as int;
    assert(16 <= icon <= 64);
    assert(80 * icon * at + 80 * icon <= 80 * icon * n && 80 * icon * (n + 1) == 80 * icon * n + 80
        * icon && 0 <= 80 * icon * at) by (nonlinear_arith)
        requires
            0 <= at,
            at + 1 <= n,
            0 <= icon,
    ;
    assert(0 <= band.gap * icon) by (nonlinear_arith)
        requires
            0 <= band.gap,
            0 <= icon,
    ;
    assert(band.gap == 0 ==> band.gap * icon == 0) by (nonlinear_arith);
    let along = dash.along(band, x as int);
    let share = dash.share_w(band);
    assert(share * at == PARTS * (80 * icon * at)) by (nonlinear_arith)
        requires
            share == PARTS * (80 * icon),
    ;
    assert(share * at <= along < share * at + share);
    assert(along / share == at) by (nonlinear_arith)
        requires
            share * at <= along < share * at + share,
            share > 0,
    ;
    let place = dash.share_at(band, x as int);
    if let Some(from) = pinned {
        assert(dash.is_favorite_at(dragged@, from as int));
        assert forall|other: int| #[trigger]
            dash.is_favorite_at(dragged@, other) implies other == from by {
            if other < from {
                assert(dash.items@[other].id@ != dragged@);
            } else if other > from {
                assert(dash.items@[from as int].id@ != dragged@);
            }
        }
    } else if dash.beside_itself(dragged@, place) {
        let from = choose|from: int| #[trigger]
            dash.is_favorite_at(dragged@, from) && (place == from || place == from + 1);
        assert(dash.is_favorite_at(dragged@, from));
        assert(dash.items@[from].id@ == dragged@);
    }
}

/// An app is unpinned on the show-apps button and nowhere else, and only if it is pinned.
pub proof fn law_a_pinned_app_is_unpinned_on_the_button(
    dash: Dash,
    band: DashBand,
    x: i64,
    y: i64,
    dragged: &str,
    hit: Option<DashHit>,
    pinned: Option<usize>,
    over: bool,
)
    requires
        band.good(),
        call_ensures(Dash::hit_test, (&dash, band, x, y), hit),
        call_ensures(Dash::favorite_index, (&dash, dragged), pinned),
        call_ensures(Dash::unpin_target_at, (&dash, band, x, y, dragged), over),
    ensures
        over <==> hit == Some(DashHit::ShowApps) && pinned is Some,
        pinned matches Some(i) ==> {
            &&& i < dash.n_favorites
            &&& i < dash.items@.len()
            &&& dash.items@[i as int].id@ == dragged@
        },
        pinned is None ==> forall|i: int|
            0 <= i < dash.n_favorites && i < dash.items@.len() ==> (#[trigger] dash.items@[i]).id@
                != dragged@,
{
    dash.law_a_point_hits_one_thing(
        band,
        x as int,
        y as int,
        hit,
        Some(DashHit::ShowApps),
    );
    if let Some(i) = pinned {
        assert(dash.is_favorite_at(dragged@, i as int));
        assert(dash.items@[i as int].id@ == dragged@);
    }
}

/// New apps take the place of the old and let the hover go; the same apps change nothing.
pub proof fn law_new_apps_replace_the_old(
    dash: &mut Dash,
    items: Vec<DashEntry>,
    n_favorites: usize,
    changed: bool,
)
    requires
        call_ensures(Dash::set_items, (dash, items, n_favorites), changed),
    ensures
        final(dash).n_favorites == n_favorites,
        changed ==> final(dash).items == items && final(dash).hovered is None,
        changed ==> final(dash).content_rev != old(dash).content_rev,
        !changed ==> *final(dash) == *old(dash),
        old(dash).items == items && old(dash).n_favorites == n_favorites ==> !changed,
        final(dash).drop_slot == old(dash).drop_slot,
{
}

/// The gap is where the drop would land; it eases open where there was none and shut where
/// there is none any more, and its place stays while it closes.
pub proof fn law_the_gap_is_where_the_drop_lands(
    dash: &mut Dash,
    slot: Option<usize>,
    changed: bool,
    ease: Option<GapEase>,
    landing: Option<usize>,
)
    requires
        call_ensures(Dash::set_drop_slot, (dash, slot), changed),
        call_ensures(Dash::gap_ease, (old(dash).drop_slot, slot), ease),
        call_ensures(Dash::drop_slot, (&*final(dash),), landing),
    ensures
        landing == slot,
        changed <==> old(dash).drop_slot != slot,
        slot is Some && changed ==> final(dash).gap_slot == slot->0,
        slot is None ==> final(dash).gap_slot == old(dash).gap_slot,
        ease == Some(GapEase::Open) <==> old(dash).drop_slot is None && slot is Some,
        ease == Some(GapEase::Close) <==> old(dash).drop_slot is Some && slot is None,
        final(dash).items == old(dash).items,
        final(dash).hovered == old(dash).hovered,
{
}

/// A poking dock answers on the icons that want attention and nowhere else; any other dock
/// answers everywhere.
pub proof fn law_a_poke_answers_on_urgent_icons(
    dash: Dash,
    hit: DashHit,
    poking: bool,
    kept: Option<DashHit>,
)
    requires
        call_ensures(Dash::filter_poke, (&dash, hit, poking), kept),
    ensures
        kept is None || kept == Some(hit),
        !poking ==> kept == Some(hit),
        poking && (hit == DashHit::ShowApps || hit == DashHit::Background) ==> kept is None,
        poking ==> (hit matches DashHit::App(k) ==> k < dash.items@.len() ==> (kept is Some
            <==> dash.items@[k as int].urgent)),
{
}

} // verus!
