//! What a page of the app grid draws, the topmost first.
//!
//! A page is a list of layers: all icons over all captions, the captions over the keyboard's
//! ring, the ring over the pointer's wash, and that over the folders' backgrounds. The tile
//! that fades has its layers to itself, so that all of it fades as one.

use vstd::prelude::*;

use crate::app_grid::{member_icons, AppGrid, TilePlan, FOLDER_SUBICONS};
use crate::area::{Area, FAR};
use crate::grid_entry::AppGridEntry;
use crate::grid_layout::{round_quotient, GridLayout, FINE};
use crate::icon::AppIconRef;
use crate::lists::ints;

verus! {

/// How a name comes out in the box for a tile's caption.
#[derive(Clone, Copy, Debug, PartialEq, Eq, Structural)]
pub struct CaptionText {
    /// It is on one line, uncut.
    pub fits: bool,
    /// The lines it takes cut, and spelled out.
    pub folded: usize,
    pub full: usize,
}

/// The box for a caption, in fine parts.
#[derive(Clone, Copy, Debug, PartialEq, Eq, Structural)]
pub struct CaptionBox {
    pub w: i128,
    pub line_h: i128,
    /// From the tile's top.
    pub top: i128,
}

/// The largest measure of a caption's box.
pub const MAX_BOX: i128 = 0x100_0000_0000;

impl CaptionBox {
    pub open spec fn good(self) -> bool {
        &&& 0 <= self.w <= MAX_BOX
        &&& 0 <= self.line_h <= MAX_BOX
        &&& 0 <= self.top <= MAX_BOX
    }
}

/// The accent color.
#[derive(Clone, Copy, Debug, PartialEq, Eq, Structural)]
pub struct Accent {
    pub r: u8,
    pub g: u8,
    pub b: u8,
}

/// What a layer of a page shows. Its picture is made anew when this changes, or its size, and a
/// caption's when its lines read otherwise.
#[derive(Clone, Copy, Debug, PartialEq, Eq, Structural)]
pub enum PageLayer {
    /// The icon of an app, or that of one of a folder's first members.
    Icon { tile: usize, member: Option<usize> },
    /// A caption that a tile has to itself.
    Caption { tile: usize, lines: usize },
    /// The captions of all tiles that have none to themselves.
    Captions { revision: u64 },
    /// The keyboard's ring, in the accent color.
    Ring { tile: usize, accent: Accent },
    /// The pointer's wash.
    Wash { tile: usize },
    /// The backgrounds of all folders but one that fades.
    Folders { revision: u64 },
    /// The background of the folder that fades.
    FadedFolder { tile: usize },
}

/// A layer of a page, and where it is. An icon is somewhere in its tile.
#[derive(Clone, Copy, Debug, PartialEq, Eq, Structural)]
pub struct PageElement {
    pub layer: PageLayer,
    pub area: Area,
    /// How opaque it is next to the page, if it belongs to the tile that fades.
    pub fade: Option<u32>,
}

/// The layers that tiles have each to itself.
#[derive(Clone, Copy, Debug, PartialEq, Eq, Structural)]
pub enum Part {
    Icons,
    Captions,
    Ring,
    Wash,
    FadedFolder,
}

/// A tile of a page, and all that its layers depend on.
#[derive(Clone, Copy, Debug, PartialEq, Eq, Structural)]
pub struct TileLook {
    pub tile: usize,
    pub area: Area,
    pub plan: TilePlan,
    pub text: CaptionText,
    pub label: CaptionBox,
    /// How opaque the tile that fades is.
    pub opacity: Option<u32>,
    pub accent: Accent,
}

impl TileLook {
    pub open spec fn good(self) -> bool {
        &&& self.area.near()
        &&& self.label.good()
    }

    pub open spec fn fade(self) -> Option<u32> {
        if self.plan.faded {
            self.opacity
        } else {
            None
        }
    }

    /// An app has one icon, a folder those of its first members.
    pub open spec fn icons(self) -> nat {
        match self.plan.members {
            Some(shown) => shown as nat,
            None => 1,
        }
    }

    pub open spec fn icon(self, i: int) -> PageElement {
        PageElement {
            layer: PageLayer::Icon {
                tile: self.tile,
                member: if self.plan.members is Some {
                    Some(i as usize)
                } else {
                    None
                },
            },
            area: self.area,
            fade: self.fade(),
        }
    }

    /// The lines of a caption that the tile has to itself.
    pub open spec fn lines(self) -> usize {
        if self.plan.expanded {
            self.text.full
        } else {
            self.text.folded
        }
    }

    /// Its caption is in the middle of the tile, on a whole pixel.
    pub open spec fn caption_area(self) -> Area {
        Area {
            x: round_quotient(2 * self.area.x + self.area.w - self.label.w, 2) as i128,
            y: (self.area.y + self.label.top) as i128,
            w: self.label.w,
            h: (self.label.line_h * self.lines()) as i128,
        }
    }

    /// A caption that is spelled out makes its tile taller by the lines past the first.
    pub open spec fn growth(self) -> int {
        if self.plan.expanded {
            self.label.line_h * (self.text.full - 1)
        } else {
            0
        }
    }

    /// The ring and the wash are around the caption too.
    pub open spec fn grown(self) -> Area {
        Area { h: (self.area.h + self.growth()) as i128, ..self.area }
    }

    /// The tile's layers of one part.
    pub open spec fn layers(self, part: Part) -> Seq<PageElement> {
        let fade = self.fade();
        match part {
            Part::Icons => Seq::new(self.icons(), |i: int| self.icon(i)),
            Part::Captions => if self.plan.own_caption {
                seq![
                    PageElement {
                        layer: PageLayer::Caption { tile: self.tile, lines: self.lines() },
                        area: self.caption_area(),
                        fade,
                    },
                ]
            } else {
                Seq::empty()
            },
            Part::Ring => if self.plan.focused {
                seq![
                    PageElement {
                        layer: PageLayer::Ring { tile: self.tile, accent: self.accent },
                        area: self.grown(),
                        fade,
                    },
                ]
            } else {
                Seq::empty()
            },
            Part::Wash => if self.plan.hovered {
                seq![
                    PageElement {
                        layer: PageLayer::Wash { tile: self.tile },
                        area: self.grown(),
                        fade,
                    },
                ]
            } else {
                Seq::empty()
            },
            Part::FadedFolder => if self.plan.faded && self.plan.members is Some {
                seq![
                    PageElement {
                        layer: PageLayer::FadedFolder { tile: self.tile },
                        area: self.area,
                        fade,
                    },
                ]
            } else {
                Seq::empty()
            },
        }
    }

    fn faded_by(&self) -> (fade: Option<u32>)
        ensures
            fade == self.fade(),
    {
        if self.plan.faded {
            self.opacity
        } else {
            None
        }
    }

    /// Where a caption goes that the tile has to itself.
    pub fn caption(&self) -> (area: Area)
        requires
            self.good(),
        ensures
            area == self.caption_area(),
    {
        let lines: usize = if self.plan.expanded {
            self.text.full
        } else {
            self.text.folded
        };
        proof {
            lemma_lines(self.label.line_h as int, lines as int);
        }
        Area {
            x: half_px(2 * self.area.x + self.area.w - self.label.w),
            y: self.area.y + self.label.top,
            w: self.label.w,
            h: self.label.line_h * (lines as i128),
        }
    }

    /// Where the ring and the wash go.
    pub fn around(&self) -> (area: Area)
        requires
            self.good(),
        ensures
            area == self.grown(),
    {
        if !self.plan.expanded {
            return self.area;
        }
        proof {
            lemma_lines(self.label.line_h as int, self.text.full - 1);
        }
        let past: i128 = self.text.full as i128 - 1;
        Area {
            x: self.area.x,
            y: self.area.y,
            w: self.area.w,
            h: self.area.h + self.label.line_h * past,
        }
    }

    fn draw(&self, part: Part, layers: &mut Vec<PageElement>)
        requires
            self.good(),
        ensures
            final(layers)@ == old(layers)@ + self.layers(part),
    {
        let fade = self.faded_by();
        match part {
            Part::Icons => {
                let shown: usize = match self.plan.members {
                    Some(shown) => shown,
                    None => 1,
                };
                let ghost before = layers@;
                let ghost all = self.layers(part);
                let mut i: usize = 0;
                while i < shown
                    invariant
                        i <= shown,
                        shown == self.icons(),
                        all.len() == shown,
                        forall|j: int| 0 <= j < shown ==> #[trigger] all[j] == self.icon(j),
                        fade == self.fade(),
                        layers@ == before + all.take(i as int),
                    decreases shown - i,
                {
                    let member = if self.plan.members.is_some() {
                        Some(i)
                    } else {
                        None
                    };
                    layers.push(
                        PageElement {
                            layer: PageLayer::Icon { tile: self.tile, member },
                            area: self.area,
                            fade,
                        },
                    );
                    assert(all.take(i + 1) =~= all.take(i as int).push(all[i as int]));
                    i = i + 1;
                }
                assert(all.take(i as int) =~= all);
            },
            Part::Captions => if self.plan.own_caption {
                let lines: usize = if self.plan.expanded {
                    self.text.full
                } else {
                    self.text.folded
                };
                layers.push(
                    PageElement {
                        layer: PageLayer::Caption { tile: self.tile, lines },
                        area: self.caption(),
                        fade,
                    },
                );
            },
            Part::Ring => if self.plan.focused {
                layers.push(
                    PageElement {
                        layer: PageLayer::Ring { tile: self.tile, accent: self.accent },
                        area: self.around(),
                        fade,
                    },
                );
            },
            Part::Wash => if self.plan.hovered {
                layers.push(
                    PageElement {
                        layer: PageLayer::Wash { tile: self.tile },
                        area: self.around(),
                        fade,
                    },
                );
            },
            Part::FadedFolder => if self.plan.faded && self.plan.members.is_some() {
                layers.push(
                    PageElement {
                        layer: PageLayer::FadedFolder { tile: self.tile },
                        area: self.area,
                        fade,
                    },
                );
            },
        }
    }
}

/// The whole pixel nearest to half of a length.
fn half_px(v: i128) -> (px: i128)
    requires
        -4 * FAR <= v <= 4 * FAR,
    ensures
        px == round_quotient(v as int, 2),
{
    if v >= 0 {
        (v + FINE) / (2 * FINE) * FINE
    } else {
        -((-v + FINE) / (2 * FINE) * FINE)
    }
}

proof fn lemma_lines(line_h: int, lines: int)
    by (nonlinear_arith)
    requires
        0 <= line_h <= 0x100_0000_0000,
        -1 <= lines <= 0xffff_ffff_ffff_ffff,
    ensures
        -0x100_0000_0000 <= line_h * lines <= 0x100_0000_0000 * 0xffff_ffff_ffff_ffff,
{
}

/// The layers of one part that the first `n` tiles have.
pub open spec fn part_layers(part: Part, looks: Seq<TileLook>, n: int) -> Seq<PageElement>
    decreases n,
{
    if n <= 0 {
        Seq::empty()
    } else {
        part_layers(part, looks, n - 1) + looks[n - 1].layers(part)
    }
}

/// Some folder's background is drawn with the others.
pub open spec fn some_folder(looks: Seq<TileLook>) -> bool {
    exists|k: int| 0 <= k < looks.len() && (#[trigger] looks[k]).plan.folder_fill
}

/// A page's layers, the topmost first: the icons, the captions that tiles have to themselves,
/// all other captions in one, the ring, the wash, the folders' backgrounds in one, and that of
/// the folder that fades.
pub open spec fn page_layers(looks: Seq<TileLook>, block: Area, revision: u64) -> Seq<PageElement> {
    let n = looks.len() as int;
    part_layers(Part::Icons, looks, n) + part_layers(Part::Captions, looks, n) + seq![
        PageElement { layer: PageLayer::Captions { revision }, area: block, fade: None },
    ] + part_layers(Part::Ring, looks, n) + part_layers(Part::Wash, looks, n) + (if some_folder(
        looks,
    ) {
        seq![PageElement { layer: PageLayer::Folders { revision }, area: block, fade: None }]
    } else {
        Seq::empty()
    }) + part_layers(Part::FadedFolder, looks, n)
}

fn draw_part(part: Part, looks: &Vec<TileLook>, layers: &mut Vec<PageElement>)
    requires
        forall|k: int| 0 <= k < looks@.len() ==> (#[trigger] looks@[k]).good(),
    ensures
        final(layers)@ == old(layers)@ + part_layers(part, looks@, looks@.len() as int),
{
    let ghost before = layers@;
    let mut k: usize = 0;
    while k < looks.len()
        invariant
            k <= looks@.len(),
            forall|j: int| 0 <= j < looks@.len() ==> (#[trigger] looks@[j]).good(),
            layers@ == before + part_layers(part, looks@, k as int),
        decreases looks@.len() - k,
    {
        looks[k].draw(part, layers);
        assert(layers@ =~= before + part_layers(part, looks@, k + 1));
        k = k + 1;
    }
}

/// Draw a page from its tiles.
pub fn draw_page(looks: &Vec<TileLook>, block: Area, revision: u64) -> (layers: Vec<PageElement>)
    requires
        forall|k: int| 0 <= k < looks@.len() ==> (#[trigger] looks@[k]).good(),
    ensures
        layers@ == page_layers(looks@, block, revision),
{
    let mut layers: Vec<PageElement> = Vec::new();
    draw_part(Part::Icons, looks, &mut layers);
    draw_part(Part::Captions, looks, &mut layers);
    layers.push(PageElement { layer: PageLayer::Captions { revision }, area: block, fade: None });
    draw_part(Part::Ring, looks, &mut layers);
    draw_part(Part::Wash, looks, &mut layers);
    let mut folders = false;
    let mut k: usize = 0;
    while k < looks.len()
        invariant
            k <= looks@.len(),
            folders == exists|j: int| 0 <= j < k && (#[trigger] looks@[j]).plan.folder_fill,
        decreases looks@.len() - k,
    {
        if looks[k].plan.folder_fill {
            folders = true;
        }
        k = k + 1;
    }
    if folders {
        layers.push(PageElement { layer: PageLayer::Folders { revision }, area: block, fade: None });
    }
    draw_part(Part::FadedFolder, looks, &mut layers);
    assert(layers@ =~= page_layers(looks@, block, revision));
    layers
}

impl AppGrid {
    /// How opaque the tile that fades is.
    pub open spec fn opacity(&self) -> Option<u32> {
        match self.tile_fade {
            Some((_, opacity)) => Some(opacity),
            None => None,
        }
    }

    /// The `k`th of a page's tiles, which start at entry `first`.
    pub open spec fn look(
        &self,
        first: int,
        tiles: Seq<Area>,
        captions: Seq<CaptionText>,
        label: CaptionBox,
        accent: Accent,
        k: int,
    ) -> TileLook {
        TileLook {
            tile: k as usize,
            area: tiles[k],
            plan: self.plan_of(first, tiles.len() as int, k, captions[first + k].fits),
            text: captions[first + k],
            label,
            opacity: self.opacity(),
            accent,
        }
    }

    pub open spec fn looks(
        &self,
        first: int,
        tiles: Seq<Area>,
        captions: Seq<CaptionText>,
        label: CaptionBox,
        accent: Accent,
    ) -> Seq<TileLook> {
        Seq::new(tiles.len(), |k: int| self.look(first, tiles, captions, label, accent, k))
    }

    /// The layers of a page that is laid out, from how the entries' names come out.
    pub open spec fn page_of(
        &self,
        first: int,
        tiles: Seq<Area>,
        block: Area,
        captions: Seq<CaptionText>,
        label: CaptionBox,
        accent: Accent,
    ) -> Seq<PageElement> {
        page_layers(self.looks(first, tiles, captions, label, accent), block, self.content_rev)
    }

    /// Draw a page that is laid out: its layers, the topmost first.
    pub fn render_page(
        &self,
        layout: &GridLayout,
        captions: &Vec<CaptionText>,
        label: CaptionBox,
        accent: Accent,
    ) -> (layers: Vec<PageElement>)
        requires
            layout.near(),
            layout.first_index + layout.tiles@.len() <= self.entries@.len(),
            captions@.len() == self.entries@.len(),
            label.good(),
        ensures
            layers@ == self.page_of(
                layout.first_index as int,
                layout.tiles@,
                layout.block,
                captions@,
                label,
                accent,
            ),
    {
        let n: usize = layout.tiles.len();
        let first: usize = layout.first_index;
        let total: usize = captions.len();
        let mut fits: Vec<bool> = Vec::new();
        let mut k: usize = 0;
        while k < n
            invariant
                k <= n,
                first + n <= total == captions@.len(),
                fits@.len() == k,
                forall|j: int| 0 <= j < k ==> #[trigger] fits@[j] == captions@[first + j].fits,
            decreases n - k,
        {
            fits.push(captions[first + k].fits);
            k = k + 1;
        }
        let plan = self.page_plan(first, &fits);
        let opacity = match &self.tile_fade {
            Some((_, opacity)) => Some(*opacity),
            None => None,
        };
        let ghost all = self.looks(first as int, layout.tiles@, captions@, label, accent);
        let mut looks: Vec<TileLook> = Vec::new();
        let mut k: usize = 0;
        while k < n
            invariant
                k <= n,
                n == layout.tiles@.len(),
                n == plan@.len(),
                n == fits@.len(),
                first + n <= total == captions@.len(),
                layout.near(),
                label.good(),
                opacity == self.opacity(),
                all == self.looks(first as int, layout.tiles@, captions@, label, accent),
                forall|j: int| 0 <= j < n ==> #[trigger] fits@[j] == captions@[first + j].fits,
                forall|j: int|
                    0 <= j < n ==> #[trigger] plan@[j] == self.plan_of(
                        first as int,
                        n as int,
                        j,
                        fits@[j],
                    ),
                looks@ == all.take(k as int),
                forall|j: int| 0 <= j < looks@.len() ==> (#[trigger] looks@[j]).good(),
            decreases n - k,
        {
            looks.push(
                TileLook {
                    tile: k,
                    area: layout.tiles[k],
                    plan: plan[k],
                    text: captions[first + k],
                    label,
                    opacity,
                    accent,
                },
            );
            assert(looks@ =~= all.take(k + 1));
            k = k + 1;
        }
        assert(all.take(k as int) =~= all);
        draw_page(&looks, layout.block, self.content_rev)
    }
}

/// An icon by its source's characters, and the size it is drawn at.
pub struct IconKey {
    pub icon: Option<Seq<char>>,
    pub px: u16,
}

pub open spec fn key_of(slot: (&AppIconRef, u16)) -> IconKey {
    IconKey { icon: slot.0@, px: slot.1 }
}

pub open spec fn keys_of(slots: Seq<(&AppIconRef, u16)>) -> Seq<IconKey> {
    slots.map_values(|slot: (&AppIconRef, u16)| key_of(slot))
}

/// The icons that an entry's tile shows: its own, or its first members' at the smaller size.
pub open spec fn tile_icons(entry: AppGridEntry, icon_px: u16, member_px: u16) -> Seq<IconKey> {
    match entry.folder {
        Some(_) => member_icons(entry).map_values(
            |icon: Option<Seq<char>>| IconKey { icon, px: member_px },
        ),
        None => seq![IconKey { icon: entry.icon@, px: icon_px }],
    }
}

pub open spec fn page_icons(entries: Seq<AppGridEntry>, icon_px: u16, member_px: u16) -> Seq<
    IconKey,
>
    decreases entries.len(),
{
    if entries.len() == 0 {
        Seq::empty()
    } else {
        page_icons(entries.drop_last(), icon_px, member_px) + tile_icons(
            entries.last(),
            icon_px,
            member_px,
        )
    }
}

/// Nothing is drawn smaller than a pixel.
pub open spec fn at_least_one(px: u16) -> u16 {
    if px == 0 {
        1
    } else {
        px
    }
}

impl AppGrid {
    /// The icons of `n` tiles from entry `first` on, in the order in which they are drawn.
    pub fn icons_on_page(&self, first: usize, n: usize, icon_px: u16, member_px: u16) -> (slots: Vec<
        (&AppIconRef, u16),
    >)
        requires
            first + n <= self.entries@.len(),
        ensures
            keys_of(slots@) == page_icons(
                self.entries@.subrange(first as int, first + n),
                at_least_one(icon_px),
                at_least_one(member_px),
            ),
    {
        let icon_px: u16 = if icon_px == 0 {
            1
        } else {
            icon_px
        };
        let member_px: u16 = if member_px == 0 {
            1
        } else {
            member_px
        };
        let ghost all = self.entries@.subrange(first as int, first + n);
        let total: usize = self.entries.len();
        let mut slots: Vec<(&AppIconRef, u16)> = Vec::new();
        let mut i: usize = 0;
        assert(keys_of(slots@) =~= page_icons(all.take(0), icon_px, member_px));
        while i < n
            invariant
                i <= n,
                first + n <= total == self.entries@.len(),
                all == self.entries@.subrange(first as int, first + n),
                keys_of(slots@) == page_icons(all.take(i as int), icon_px, member_px),
            decreases n - i,
        {
            let ghost before = slots@;
            let ghost mine = tile_icons(all[i as int], icon_px, member_px);
            let entry = &self.entries[first + i];
            assert(*entry == all[i as int]);
            match &entry.folder {
                Some(members) => {
                    let shown: usize = if members.len() < FOLDER_SUBICONS {
                        members.len()
                    } else {
                        FOLDER_SUBICONS
                    };
                    let mut k: usize = 0;
                    while k < shown
                        invariant
                            k <= shown <= members@.len(),
                            mine.len() == shown,
                            forall|j: int|
                                0 <= j < shown ==> #[trigger] mine[j] == (IconKey {
                                    icon: members@[j].icon@,
                                    px: member_px,
                                }),
                            keys_of(slots@) == keys_of(before) + mine.take(k as int),
                        decreases shown - k,
                    {
                        let ghost now = slots@;
                        slots.push((&members[k].icon, member_px));
                        assert(keys_of(slots@) =~= keys_of(now).push(mine[k as int]));
                        assert(keys_of(before) + mine.take(k + 1) =~= (keys_of(before) + mine.take(
                            k as int,
                        )).push(mine[k as int]));
                        k = k + 1;
                    }
                    assert(mine.take(k as int) =~= mine);
                },
                None => {
                    slots.push((&entry.icon, icon_px));
                    assert(keys_of(slots@) =~= keys_of(before) + mine);
                },
            }
            i = i + 1;
            assert(all.take(i as int).drop_last() =~= all.take(i - 1));
        }
        assert(all.take(i as int) =~= all);
        slots
    }
}

/// The first `n` icons' uploads: of those that are decoded and not there yet, the first of each.
pub open spec fn to_upload(keys: Seq<IconKey>, there: Seq<bool>, decoded: Seq<bool>, n: int) -> Seq<
    int,
>
    decreases n,
{
    if n <= 0 {
        Seq::empty()
    } else {
        let before = to_upload(keys, there, decoded, n - 1);
        if !there[n - 1] && decoded[n - 1] && !(exists|j: int|
            0 <= j < before.len() && keys[#[trigger] before[j]] == keys[n - 1]) {
            before.push(n - 1)
        } else {
            before
        }
    }
}

/// No icon goes up twice at one size, and none that is there or not decoded yet.
pub proof fn law_no_icon_goes_up_twice(
    keys: Seq<IconKey>,
    there: Seq<bool>,
    decoded: Seq<bool>,
    n: int,
)
    requires
        0 <= n <= keys.len(),
    ensures
        ({
            let all = to_upload(keys, there, decoded, n);
            &&& forall|i: int|
                0 <= i < all.len() ==> 0 <= (#[trigger] all[i]) < n && !there[all[i]]
                    && decoded[all[i]]
            &&& forall|i: int, j: int|
                0 <= i < j < all.len() ==> keys[#[trigger] all[i]] != keys[#[trigger] all[j]]
        }),
    decreases n,
{
    if n > 0 {
        law_no_icon_goes_up_twice(keys, there, decoded, n - 1);
        let before = to_upload(keys, there, decoded, n - 1);
        let all = to_upload(keys, there, decoded, n);
        assert forall|i: int, j: int| 0 <= i < j < all.len() implies keys[#[trigger] all[i]]
            != keys[#[trigger] all[j]] by {
            assert(all[i] == before[i]);
            if j < before.len() {
                assert(all[j] == before[j]);
            }
        }
    }
}

/// The icons to upload in one go, if there is more than one to upload: a single one goes up as
/// well by itself.
pub fn batch(slots: &Vec<(&AppIconRef, u16)>, there: &Vec<bool>, decoded: &Vec<bool>) -> (uploads:
    Vec<usize>)
    requires
        there@.len() == slots@.len(),
        decoded@.len() == slots@.len(),
    ensures
        ({
            let all = to_upload(keys_of(slots@), there@, decoded@, slots@.len() as int);
            ints(uploads@) == if all.len() > 1 {
                all
            } else {
                Seq::empty()
            }
        }),
{
    let ghost keys = keys_of(slots@);
    let mut uploads: Vec<usize> = Vec::new();
    let mut i: usize = 0;
    assert(ints(uploads@) =~= to_upload(keys, there@, decoded@, 0));
    while i < slots.len()
        invariant
            i <= slots@.len(),
            there@.len() == slots@.len(),
            decoded@.len() == slots@.len(),
            keys == keys_of(slots@),
            ints(uploads@) == to_upload(keys, there@, decoded@, i as int),
            forall|j: int| 0 <= j < uploads@.len() ==> #[trigger] uploads@[j] < i,
        decreases slots@.len() - i,
    {
        let ghost before = ints(uploads@);
        let mut found = false;
        let mut j: usize = 0;
        while j < uploads.len()
            invariant
                j <= uploads@.len(),
                i < slots@.len(),
                keys == keys_of(slots@),
                before == ints(uploads@),
                forall|k: int| 0 <= k < uploads@.len() ==> #[trigger] uploads@[k] < i,
                found == exists|k: int| 0 <= k < j && keys[#[trigger] before[k]] == keys[i as int],
            decreases uploads@.len() - j,
        {
            let at: usize = uploads[j];
            let same = slots[at].1 == slots[i].1 && slots[at].0.same(slots[i].0);
            assert(before[j as int] == at);
            assert(same == (keys[before[j as int]] == keys[i as int]));
            if same {
                found = true;
            }
            j = j + 1;
        }
        if !there[i] && decoded[i] && !found {
            uploads.push(i);
            assert(ints(uploads@) =~= before.push(i as int));
        }
        i = i + 1;
    }
    if uploads.len() > 1 {
        uploads
    } else {
        let none: Vec<usize> = Vec::new();
        assert(ints(none@) =~= Seq::empty());
        none
    }
}

/// How far down a layer is.
pub open spec fn depth(layer: PageLayer) -> int {
    match layer {
        PageLayer::Icon { .. } => 0,
        PageLayer::Caption { .. } => 1,
        PageLayer::Captions { .. } => 2,
        PageLayer::Ring { .. } => 3,
        PageLayer::Wash { .. } => 4,
        PageLayer::Folders { .. } => 5,
        PageLayer::FadedFolder { .. } => 6,
    }
}

spec fn part_depth(part: Part) -> int {
    match part {
        Part::Icons => 0,
        Part::Captions => 1,
        Part::Ring => 3,
        Part::Wash => 4,
        Part::FadedFolder => 6,
    }
}

/// The tile that a layer belongs to, if it belongs to one.
pub open spec fn tile_of(layer: PageLayer) -> Option<usize> {
    match layer {
        PageLayer::Icon { tile, .. } => Some(tile),
        PageLayer::Caption { tile, .. } => Some(tile),
        PageLayer::Captions { .. } => None,
        PageLayer::Ring { tile, .. } => Some(tile),
        PageLayer::Wash { tile } => Some(tile),
        PageLayer::Folders { .. } => None,
        PageLayer::FadedFolder { tile } => Some(tile),
    }
}

/// A layer is as opaque as the tile that it belongs to.
spec fn is_of(looks: Seq<TileLook>, element: PageElement) -> bool {
    match tile_of(element.layer) {
        Some(k) => k < looks.len() && element.fade == looks[k as int].fade(),
        None => element.fade is None,
    }
}

spec fn numbered(looks: Seq<TileLook>) -> bool {
    forall|k: int| 0 <= k < looks.len() ==> (#[trigger] looks[k]).tile == k
}

proof fn lemma_part(part: Part, looks: Seq<TileLook>, n: int)
    requires
        0 <= n <= looks.len(),
        numbered(looks),
    ensures
        forall|i: int|
            0 <= i < part_layers(part, looks, n).len() ==> {
                let element = #[trigger] part_layers(part, looks, n)[i];
                depth(element.layer) == part_depth(part) && is_of(looks, element)
            },
    decreases n,
{
    if n > 0 {
        lemma_part(part, looks, n - 1);
        let before = part_layers(part, looks, n - 1);
        let mine = looks[n - 1].layers(part);
        assert forall|i: int| 0 <= i < part_layers(part, looks, n).len() implies {
            let element = #[trigger] part_layers(part, looks, n)[i];
            depth(element.layer) == part_depth(part) && is_of(looks, element)
        } by {
            if i < before.len() {
                assert(part_layers(part, looks, n)[i] == before[i]);
            } else {
                assert(part_layers(part, looks, n)[i] == mine[i - before.len()]);
            }
        }
    }
}

impl AppGrid {
    /// Nothing of a page is over what it belongs under: icons are on top, then captions, the
    /// ring, the wash, and the folders' backgrounds.
    pub proof fn law_layers_are_in_order(
        &self,
        first: int,
        tiles: Seq<Area>,
        block: Area,
        captions: Seq<CaptionText>,
        label: CaptionBox,
        accent: Accent,
        i: int,
        j: int,
    )
        requires
            tiles.len() <= usize::MAX,
            0 <= i <= j < self.page_of(first, tiles, block, captions, label, accent).len(),
        ensures
            ({
                let page = self.page_of(first, tiles, block, captions, label, accent);
                depth(page[i].layer) <= depth(page[j].layer)
            }),
    {
        let looks = self.looks(first, tiles, captions, label, accent);
        let n = looks.len() as int;
        lemma_part(Part::Icons, looks, n);
        lemma_part(Part::Captions, looks, n);
        lemma_part(Part::Ring, looks, n);
        lemma_part(Part::Wash, looks, n);
        lemma_part(Part::FadedFolder, looks, n);
    }

    /// All that belongs to the tile that fades is as opaque as it is, and nothing else fades.
    pub proof fn law_a_tile_fades_as_one(
        &self,
        first: int,
        tiles: Seq<Area>,
        block: Area,
        captions: Seq<CaptionText>,
        label: CaptionBox,
        accent: Accent,
        i: int,
    )
        requires
            tiles.len() <= usize::MAX,
            0 <= i < self.page_of(first, tiles, block, captions, label, accent).len(),
        ensures
            ({
                let element = self.page_of(first, tiles, block, captions, label, accent)[i];
                element.fade == if tile_of(element.layer) matches Some(k) && k == self.faded_tile(
                    first,
                    tiles.len() as int,
                ) {
                    self.opacity()
                } else {
                    None
                }
            }),
    {
        let looks = self.looks(first, tiles, captions, label, accent);
        let n = looks.len() as int;
        lemma_part(Part::Icons, looks, n);
        lemma_part(Part::Captions, looks, n);
        lemma_part(Part::Ring, looks, n);
        lemma_part(Part::Wash, looks, n);
        lemma_part(Part::FadedFolder, looks, n);
        let element = self.page_of(first, tiles, block, captions, label, accent)[i];
        assert(is_of(looks, element));
    }
}

} // verus!
