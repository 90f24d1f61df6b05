//! What of the message list is on the screen, and in what order it is drawn.

use vstd::prelude::*;

use crate::area::{Area, FAR};
use crate::lists::{first_where, lemma_first_where, lemma_picked, picked};
use crate::message_layout::{
    peek_below, BlockKind, ListLayout, ListMeasure, Spot, CARD_GAP, GROUP_COLLAPSE_D,
    GROUP_HEADER_H, GROUP_HEADER_PAD, LIST_PAD, LIST_SCROLL_R, MAX_CARDS, SPAN,
};
use crate::message_list::{
    CalendarMessageList, CardZone, HitView, HoverView, KeyView, ListHover, ListView, SourceKey,
};
use crate::popover::MediaControl;
use crate::text::same_text;

verus! {

/// One thing to draw.
#[derive(Clone, Copy, Debug, PartialEq, Eq, Structural)]
pub enum Element {
    /// A media card, whether it is hovered, and its button under the pointer.
    Player { p: usize, hovered: bool, control: Option<MediaControl> },
    /// A card, whether it is hovered, and its button under the pointer.
    Card { g: usize, c: usize, hovered: bool, zone: Option<CardZone> },
    /// A card that shows below a stack's top one, the deeper the darker.
    Peek { g: usize, depth: usize },
    /// A fanned-out group's header, and whether its button is hovered.
    Header { g: usize, hovered: bool },
}

/// An element, what its texture is cached under, and where it is in the content.
#[derive(Clone, Copy, Debug, PartialEq, Eq, Structural)]
pub struct PlanItem {
    pub key: u64,
    pub element: Element,
    pub area: Area,
}

/// What the texture of the `n`th element is cached under. The revision is in the upper half,
/// so a key of an old revision is known for one.
pub open spec fn cache_key(revision: u64, n: u64) -> u64 {
    ((revision & 0xffff_ffff) << 32) | n
}

impl ListView {
    /// A media card, with its hover.
    pub open spec fn player_element(self, p: int) -> Element {
        match self.hovered {
            Some(HoverView::Media { bus_name, control }) if bus_name == self.players[p].bus_name =>
                Element::Player { p: p as usize, hovered: true, control },
            _ => Element::Player { p: p as usize, hovered: false, control: None },
        }
    }

    /// A card, with its hover.
    pub open spec fn card_element(self, g: int, c: int) -> Element {
        match self.hovered {
            Some(HoverView::Card { id, zone }) if id == self.groups[g].cards[c].id =>
                Element::Card { g: g as usize, c: c as usize, hovered: true, zone },
            _ => Element::Card { g: g as usize, c: c as usize, hovered: false, zone: None },
        }
    }

    /// The area is where the element is drawn in the content.
    pub open spec fn is_placed(self, m: ListMeasure, element: Element, area: Area) -> bool {
        match element {
            Element::Player { p, .. } => {
                &&& area.x == LIST_PAD
                &&& area.y == self.media_top(m, p as int)
                &&& area.w == m.card_w()
                &&& area.h == m.media_h
            },
            Element::Card { g, c, .. } => {
                &&& area.x == LIST_PAD
                &&& area.y == self.card_top(m, g as int, c as int)
                &&& area.w == m.card_w()
                &&& area.h == m.groups@[g as int].cards@[c as int].h
            },
            Element::Peek { g, depth } => {
                &&& area.x == LIST_PAD + depth * m.peek_inset
                &&& area.y == self.block_top(m, g as int) + peek_below(m.peeks@, depth as int)
                &&& area.w == m.card_w() - 2 * (depth * m.peek_inset)
                &&& area.h == m.groups@[g as int].cards@[0].h
            },
            Element::Header { g, .. } => {
                &&& area.x == LIST_PAD
                &&& area.y == self.block_top(m, g as int)
                &&& area.w == m.card_w()
                &&& area.h == GROUP_HEADER_H
            },
        }
    }

    /// The elements of group `g`, the topmost first.
    pub open spec fn block_elements(self, m: ListMeasure, g: int) -> Seq<Element> {
        match self.kind(g) {
            BlockKind::Empty => Seq::empty(),
            BlockKind::Single => seq![self.card_element(g, 0)],
            BlockKind::Stack => seq![self.card_element(g, 0)] + Seq::new(
                m.depth(self.groups[g].cards.len() as int) as nat,
                |i: int| Element::Peek { g: g as usize, depth: (i + 1) as usize },
            ),
            BlockKind::Fan => seq![
                Element::Header {
                    g: g as usize,
                    hovered: self.hovered == Some(HoverView::GroupCollapse),
                },
            ] + Seq::new(self.groups[g].cards.len(), |c: int| self.card_element(g, c)),
        }
    }

    /// The media cards, then the elements of the first `g` groups.
    pub open spec fn elements(self, m: ListMeasure, g: int) -> Seq<Element>
        decreases g,
    {
        if g <= 0 {
            Seq::new(self.players.len(), |p: int| self.player_element(p))
        } else {
            self.elements(m, g - 1) + self.block_elements(m, g - 1)
        }
    }
}

/// The plan draws these elements of a list, in order, each in its place.
pub open spec fn draws(
    list: ListView,
    m: ListMeasure,
    plan: Seq<PlanItem>,
    elements: Seq<Element>,
) -> bool {
    &&& plan.len() == elements.len()
    &&& forall|i: int|
        0 <= i < plan.len() ==> {
            &&& (#[trigger] plan[i]).element == elements[i]
            &&& plan[i].key == cache_key(list.revision, i as u64)
            &&& list.is_placed(m, plan[i].element, plan[i].area)
        }
}

/// Draw one element more.
fn draw(plan: &mut Vec<PlanItem>, revision: u64, element: Element, area: Area)
    ensures
        final(plan)@ == old(plan)@.push(
            PlanItem { key: cache_key(revision, old(plan)@.len() as u64), element, area },
        ),
{
    let n: u64 = plan.len() as u64;
    plan.push(PlanItem { key: ((revision & 0xffff_ffff) << 32) | n, element, area });
}

impl CalendarMessageList {
    /// Whether a player's card is hovered, and which of its buttons.
    pub fn media_hover_for(&self, bus_name: &str) -> (hover: (bool, Option<MediaControl>))
        ensures
            hover == match self@.hovered {
                Some(HoverView::Media { bus_name: name, control }) if name == bus_name@ => (
                    true,
                    control,
                ),
                _ => (false, None),
            },
    {
        match &self.hovered {
            Some(ListHover::Media { bus_name: name, control }) => if same_text(
                name.as_str(),
                bus_name,
            ) {
                (true, *control)
            } else {
                (false, None)
            },
            _ => (false, None),
        }
    }

    /// Whether a notification's card is hovered, and which of its buttons.
    pub fn card_hover_for(&self, id: u32) -> (hover: (bool, Option<CardZone>))
        ensures
            hover == match self@.hovered {
                Some(HoverView::Card { id: hovered, zone }) if hovered == id => (true, zone),
                _ => (false, None),
            },
    {
        match &self.hovered {
            Some(ListHover::Card { id: hovered, zone }) => if *hovered == id {
                (true, *zone)
            } else {
                (false, None)
            },
            _ => (false, None),
        }
    }

    fn card_element(&self, g: usize, c: usize) -> (element: Element)
        requires
            g < self@.groups.len(),
            c < self@.groups[g as int].cards.len(),
        ensures
            element == self@.card_element(g as int, c as int),
    {
        let id: u32 = self.groups[g].cards[c].id;
        assert(self@.groups[g as int].cards[c as int].id == id);
        let (hovered, zone) = self.card_hover_for(id);
        Element::Card { g, c, hovered, zone }
    }

    /// Where card `c` of group `g` is in the content.
    fn card_area(&self, m: &ListMeasure, layout: &ListLayout, g: usize, c: usize) -> (area: Area)
        requires
            m.suits(self@),
            self@.is_layout(*m, *layout),
            g < self@.groups.len(),
            c < self@.shown(g as int),
            c < self@.groups[g as int].cards.len(),
        ensures
            self@.is_placed(*m, self@.card_element(g as int, c as int), area),
    {
        assert(self@.is_block(*m, g as int, layout.blocks@[g as int]));
        assert(m.groups@[g as int].cards@[c as int].good());
        assert(m.groups@[g as int].cards@.len() == self@.groups[g as int].cards.len());
        Area {
            x: LIST_PAD,
            y: layout.blocks[g].cards[c],
            w: m.list_w as i128 - LIST_SCROLL_R,
            h: m.groups[g].cards[c].h as i128,
        }
    }

    /// Draw group `g`.
    fn draw_block(&self, m: &ListMeasure, layout: &ListLayout, g: usize, plan: &mut Vec<PlanItem>)
        requires
            m.suits(self@),
            self@.is_layout(*m, *layout),
            g < self@.groups.len(),
            draws(self@, *m, old(plan)@, self@.elements(*m, g as int)),
        ensures
            draws(self@, *m, final(plan)@, self@.elements(*m, g + 1)),
    {
        let ghost view = self@;
        let ghost base = view.elements(*m, g as int);
        let ghost all = view.elements(*m, g + 1);
        let ghost mine = view.block_elements(*m, g as int);
        assert(all == base + mine);
        let n: usize = self.groups[g].cards.len();
        assert(view.groups[g as int].cards.len() == n);
        let block = &layout.blocks[g];
        assert(view.is_block(*m, g as int, *block));
        proof {
            view.lemma_reach(*m, g as int);
        }
        match self.block_kind(g) {
            BlockKind::Empty => {
                assert(all =~= base);
            },
            BlockKind::Single => {
                let area = self.card_area(m, layout, g, 0);
                draw(plan, self.revision, self.card_element(g, 0), area);
            },
            BlockKind::Stack => {
                let area = self.card_area(m, layout, g, 0);
                draw(plan, self.revision, self.card_element(g, 0), area);
                let deepest: usize = m.shown_peeks(n);
                let peeks = self.stack_peeks(m, g);
                let mut depth: usize = 1;
                while depth <= deepest
                    invariant
                        view == self@,
                        m.suits(view),
                        g < view.groups.len(),
                        block.top == view.block_top(*m, g as int),
                        0 <= block.top <= SPAN * MAX_CARDS,
                        1 <= depth <= deepest + 1,
                        deepest < usize::MAX,
                        deepest <= m.peeks@.len(),
                        peeks@.len() == deepest,
                        forall|i: int|
                            0 <= i < peeks@.len() ==> {
                                &&& (#[trigger] peeks@[i]).x == (i + 1) * m.peek_inset
                                &&& peeks@[i].y == peek_below(m.peeks@, i + 1)
                                &&& peeks@[i].w == m.card_w() - 2 * ((i + 1) * m.peek_inset)
                                &&& peeks@[i].h == m.groups@[g as int].cards@[0].h
                            },
                        mine.len() == deepest + 1,
                        all == base + mine,
                        mine == view.block_elements(*m, g as int),
                        view.kind(g as int) == BlockKind::Stack,
                        draws(view, *m, plan@, (base + mine.take(depth as int))),
                    decreases deepest + 1 - depth,
                {
                    let ghost before = plan@;
                    assert(mine[depth as int] == Element::Peek { g, depth });
                    let peek = peeks[depth - 1];
                    assert(0 <= peek_below(m.peeks@, depth as int));
                    assert(0 <= depth * m.peek_inset <= 0x1_0000_0000_0000_0000 * 0x100_0000_0000)
                        by (nonlinear_arith)
                        requires
                            0 <= depth <= 0x1_0000_0000_0000_0000,
                            0 <= m.peek_inset <= 0x100_0000_0000,
                    ;
                    let area = Area {
                        x: LIST_PAD + peek.x,
                        y: block.top + peek.y,
                        w: peek.w,
                        h: peek.h,
                    };
                    assert(view.is_placed(*m, Element::Peek { g, depth }, area));
                    draw(plan, self.revision, Element::Peek { g, depth }, area);
                    assert((base + mine.take(depth + 1)) =~= (base + mine.take(
                        depth as int,
                    )).push(mine[depth as int]));
                    depth = depth + 1;
                }
                assert(mine.take(depth as int) =~= mine);
            },
            BlockKind::Fan => {
                let hovered = match &self.hovered {
                    Some(ListHover::GroupCollapse) => true,
                    _ => false,
                };
                let area = Area {
                    x: LIST_PAD,
                    y: block.top,
                    w: m.list_w as i128 - LIST_SCROLL_R,
                    h: GROUP_HEADER_H,
                };
                draw(plan, self.revision, Element::Header { g, hovered }, area);
                let mut c: usize = 0;
                while c < n
                    invariant
                        view == self@,
                        m.suits(view),
                        view.is_layout(*m, *layout),
                        c <= n,
                        g < view.groups.len(),
                        n == view.groups[g as int].cards.len(),
                        mine.len() == n + 1,
                        all == base + mine,
                        mine == view.block_elements(*m, g as int),
                        view.kind(g as int) == BlockKind::Fan,
                        draws(view, *m, plan@, (base + mine.take(c + 1))),
                    decreases n - c,
                {
                    assert(mine[c + 1] == view.card_element(g as int, c as int));
                    let area = self.card_area(m, layout, g, c);
                    draw(plan, self.revision, self.card_element(g, c), area);
                    assert((base + mine.take(c + 2)) =~= (base + mine.take(c + 1)).push(
                        mine[c + 1],
                    ));
                    c = c + 1;
                }
                assert(mine.take(c + 1) =~= mine);
            },
        }
    }

    /// Everything to draw, the topmost of a group first, and where it is in the content.
    pub fn render_plan(&self, m: &ListMeasure) -> (plan: Vec<PlanItem>)
        requires
            m.suits(self@),
        ensures
            draws(
                self@,
                *m,
                plan@,
                self@.elements(*m, self@.groups.len() as int),
            ),
    {
        let ghost view = self@;
        let layout = self.layout(m);
        let mut plan: Vec<PlanItem> = Vec::new();
        let mut p: usize = 0;
        while p < self.players.len()
            invariant
                view == self@,
                m.suits(view),
                view.is_layout(*m, layout),
                p <= self.players@.len(),
                draws(view, *m, plan@, view.elements(*m, 0).take(p as int)),
            decreases self.players@.len() - p,
        {
            assert(view.players[p as int] == self.players@[p as int]@);
            let (hovered, control) = self.media_hover_for(self.players[p].bus_name.as_str());
            assert(view.elements(*m, 0)[p as int] == view.player_element(p as int));
            let area = Area {
                x: LIST_PAD,
                y: layout.media[p],
                w: m.list_w as i128 - LIST_SCROLL_R,
                h: m.media_h as i128,
            };
            draw(&mut plan, self.revision, Element::Player { p, hovered, control }, area);
            p = p + 1;
        }
        assert(view.elements(*m, 0).take(p as int) =~= view.elements(*m, 0));
        let mut g: usize = 0;
        while g < self.groups.len()
            invariant
                view == self@,
                m.suits(view),
                view.is_layout(*m, layout),
                g <= self.groups@.len(),
                draws(view, *m, plan@, view.elements(*m, g as int)),
            decreases self.groups@.len() - g,
        {
            self.draw_block(m, &layout, g, &mut plan);
            g = g + 1;
        }
        plan
    }
}

/// A key's upper half is the revision's lower half, and its lower half tells the elements of
/// one revision apart.
pub proof fn law_cache_keys(revision: u64, a: u64, b: u64)
    requires
        a < 0x1_0000_0000,
        b < 0x1_0000_0000,
    ensures
        cache_key(revision, a) >> 32 == revision & 0xffff_ffff,
        cache_key(revision, a) == cache_key(revision, b) <==> a == b,
{
    assert((((revision & 0xffff_ffff) << 32) | a) >> 32 == revision & 0xffff_ffff)
        by (bit_vector)
        requires
            a < 0x1_0000_0000,
    ;
    assert((((revision & 0xffff_ffff) << 32) | a) == (((revision & 0xffff_ffff) << 32) | b) <==> a
        == b) by (bit_vector)
        requires
            a < 0x1_0000_0000,
            b < 0x1_0000_0000,
    ;
}

/// A media card on the screen.
pub struct MediaCardRects {
    pub p: usize,
    pub card: Area,
    pub previous: Area,
    pub play_pause: Area,
    pub next: Area,
}

/// A card on the screen that takes clicks of its own.
#[derive(Clone, Copy, Debug, PartialEq, Eq, Structural)]
pub struct ShownCard {
    pub g: usize,
    pub c: usize,
    pub id: u32,
    pub card: Area,
}

/// A group on the screen.
#[derive(Clone, Copy, Debug, PartialEq, Eq, Structural)]
pub struct GroupRect {
    pub g: usize,
    pub bounds: Area,
    pub expanded: bool,
}

/// The box, moved.
pub open spec fn is_moved(area: Area, by: Area, x: int, y: int) -> bool {
    area.x == by.x + x && area.y == by.y + y && area.w == by.w && area.h == by.h
}

/// A box moved to where its owner is.
pub fn moved(area: &Area, x: i128, y: i128) -> (at: Area)
    requires
        area.near(),
        -FAR <= x <= FAR,
        -FAR <= y <= FAR,
    ensures
        is_moved(at, *area, x as int, y as int),
{
    Area { x: area.x + x, y: area.y + y, w: area.w, h: area.h }
}

impl ListView {
    /// A stretch of the popover is at least partly in the viewport.
    pub open spec fn shows(self, height: int, top: int, h: int) -> bool {
        h > 0 && top < LIST_PAD + self.viewport_h(height) && LIST_PAD < top + h
    }

    /// Where media card `p` is in the popover.
    pub open spec fn media_y(self, m: ListMeasure, height: int, p: int) -> int {
        self.media_top(m, p) + self.off_y(m, height)
    }

    /// Where group `g` is in the popover.
    pub open spec fn block_y(self, m: ListMeasure, height: int, g: int) -> int {
        self.block_top(m, g) + self.off_y(m, height)
    }

    /// Where card `c` of group `g` is in the popover.
    pub open spec fn card_y(self, m: ListMeasure, height: int, g: int, c: int) -> int {
        self.card_top(m, g, c) + self.off_y(m, height)
    }

    /// Which media cards are on the screen.
    pub open spec fn shows_player(self, m: ListMeasure, height: int) -> spec_fn(int) -> bool {
        |p: int| self.shows(height, self.media_y(m, height, p), m.media_h as int)
    }

    /// Which groups are on the screen.
    pub open spec fn shows_block(self, m: ListMeasure, height: int) -> spec_fn(int) -> bool {
        |g: int| self.shows(height, self.block_y(m, height, g), self.block_h(m, g))
    }

    /// Which cards of group `g` are on the screen and take clicks of their own. A stack does
    /// as a whole.
    pub open spec fn shows_card(self, m: ListMeasure, height: int, g: int) -> spec_fn(int) -> bool {
        |c: int|
            {
                &&& self.kind(g) != BlockKind::Stack
                &&& self.shows(
                    height,
                    self.card_y(m, height, g, c),
                    m.groups@[g].cards@[c].h as int,
                )
            }
    }

    /// The cards of the first `g` groups that are on the screen and take clicks of their own.
    pub open spec fn shown_cards(self, m: ListMeasure, height: int, g: int) -> Seq<(int, int)>
        decreases g,
    {
        if g <= 0 {
            Seq::empty()
        } else {
            self.shown_cards(m, height, g - 1) + pairs(
                g - 1,
                picked(self.shown(g - 1) as nat, self.shows_card(m, height, g - 1)),
            )
        }
    }

    /// The shown card is this one.
    pub open spec fn is_shown(
        self,
        m: ListMeasure,
        height: int,
        at: (int, int),
        shown: ShownCard,
    ) -> bool {
        &&& shown.g == at.0
        &&& shown.c == at.1
        &&& shown.id == self.groups[at.0].cards[at.1].id
        &&& shown.card.x == LIST_PAD
        &&& shown.card.y == self.card_y(m, height, at.0, at.1)
        &&& shown.card.w == m.card_w()
        &&& shown.card.h == m.groups@[at.0].cards@[at.1].h
    }

    /// Group `g` is a stack of this source whose close button is on the screen.
    pub open spec fn has_stack_close(
        self,
        m: ListMeasure,
        height: int,
        key: KeyView,
    ) -> spec_fn(int) -> bool {
        |g: int|
            {
                let close = m.groups@[g].cards@[0].close;
                &&& self.groups[g].key == key
                &&& self.kind(g) == BlockKind::Stack
                &&& self.shows(height, close.y + self.block_y(m, height, g), close.h as int)
            }
    }

    /// Group `g` is a fanned-out one of this source whose collapse button is on the screen.
    pub open spec fn has_collapse(
        self,
        m: ListMeasure,
        height: int,
        key: KeyView,
    ) -> spec_fn(int) -> bool {
        |g: int|
            {
                &&& self.groups[g].key == key
                &&& self.kind(g) == BlockKind::Fan
                &&& self.shows(
                    height,
                    self.block_y(m, height, g) + GROUP_HEADER_PAD,
                    GROUP_COLLAPSE_D as int,
                )
            }
    }
}

impl ListView {
    /// The media cards on the screen, and their buttons.
    pub open spec fn is_media_rects(
        self,
        m: ListMeasure,
        height: int,
        rects: Seq<MediaCardRects>,
    ) -> bool {
        let players = picked(self.players.len(), self.shows_player(m, height));
        &&& rects.len() == players.len()
        &&& forall|i: int|
            0 <= i < rects.len() ==> {
                let y = self.media_y(m, height, players[i]);
                &&& (#[trigger] rects[i]).p == players[i]
                &&& is_moved(rects[i].previous, m.previous, LIST_PAD as int, y)
                &&& is_moved(rects[i].play_pause, m.play_pause, LIST_PAD as int, y)
                &&& is_moved(rects[i].next, m.next, LIST_PAD as int, y)
                &&& rects[i].card.x == LIST_PAD
                &&& rects[i].card.y == y
                &&& rects[i].card.w == m.card_w()
                &&& rects[i].card.h == m.media_h
            }
    }

    /// The groups on the screen.
    pub open spec fn is_group_rects(
        self,
        m: ListMeasure,
        height: int,
        rects: Seq<GroupRect>,
    ) -> bool {
        let groups = picked(self.groups.len(), self.shows_block(m, height));
        &&& rects.len() == groups.len()
        &&& forall|i: int|
            0 <= i < rects.len() ==> {
                &&& (#[trigger] rects[i]).g == groups[i]
                &&& rects[i].expanded == (self.kind(groups[i]) == BlockKind::Fan)
                &&& rects[i].bounds.x == LIST_PAD
                &&& rects[i].bounds.y == self.block_y(m, height, groups[i])
                &&& rects[i].bounds.w == m.card_w()
                &&& rects[i].bounds.h == self.block_h(m, groups[i])
            }
    }

    /// The close button of the first stack of a source that has it on the screen.
    pub open spec fn is_stack_close(
        self,
        m: ListMeasure,
        height: int,
        key: KeyView,
        close: Option<Area>,
    ) -> bool {
        let g = first_where(self.groups.len() as int, self.has_stack_close(m, height, key), 0);
        match close {
            Some(area) => g < self.groups.len() && is_moved(
                area,
                m.groups@[g].cards@[0].close,
                LIST_PAD as int,
                self.block_y(m, height, g),
            ),
            None => g == self.groups.len(),
        }
    }

    /// The collapse button of the first fanned-out group of a source that has it on the
    /// screen.
    pub open spec fn is_collapse_button(
        self,
        m: ListMeasure,
        height: int,
        key: KeyView,
        button: Option<Area>,
    ) -> bool {
        let g = first_where(self.groups.len() as int, self.has_collapse(m, height, key), 0);
        match button {
            Some(area) => {
                &&& g < self.groups.len()
                &&& area.x == LIST_PAD + m.card_w() - GROUP_HEADER_PAD - GROUP_COLLAPSE_D
                &&& area.y == self.block_y(m, height, g) + GROUP_HEADER_PAD
                &&& area.w == GROUP_COLLAPSE_D
                &&& area.h == GROUP_COLLAPSE_D
            },
            None => g == self.groups.len(),
        }
    }

    /// Every shown card is one of a group.
    pub proof fn lemma_shown_in_range(self, m: ListMeasure, height: int, n: int, i: int)
        requires
            0 <= n <= self.groups.len(),
            0 <= i < self.shown_cards(m, height, n).len(),
        ensures
            0 <= self.shown_cards(m, height, n)[i].0 < n,
            0 <= self.shown_cards(m, height, n)[i].1
                < self.groups[self.shown_cards(m, height, n)[i].0].cards.len(),
        decreases n,
    {
        if n > 0 {
            let before = self.shown_cards(m, height, n - 1);
            if i < before.len() {
                self.lemma_shown_in_range(m, height, n - 1, i);
            } else {
                let keep = self.shows_card(m, height, n - 1);
                let shown = self.shown(n - 1) as nat;
                lemma_picked(shown, keep);
                assert(0 <= picked(shown, keep)[i - before.len()] < shown);
            }
        }
    }

    /// A card is within reach.
    pub proof fn lemma_card_reach(self, m: ListMeasure, height: int, g: int, c: int)
        requires
            m.suits(self),
            -FAR <= height <= FAR,
            0 <= g < self.groups.len(),
            0 <= c < self.groups[g].cards.len(),
        ensures
            -FAR <= self.card_y(m, height, g, c) <= FAR,
            0 <= m.groups@[g].cards@[c].h <= FAR,
            -FAR <= m.card_w() <= FAR,
    {
        self.lemma_reach(m, g);
        self.lemma_reach(m, self.groups.len() as int);
        assert(self.block_top(m, g) <= self.card_top(m, g, c));
        assert(m.groups@[g].cards@.len() == self.groups[g].cards.len());
        assert(m.groups@[g].cards@[c].good());
    }
}

/// Each of `seconds`, with `first` before it.
pub open spec fn pairs(first: int, seconds: Seq<int>) -> Seq<(int, int)> {
    Seq::new(seconds.len(), |i: int| (first, seconds[i]))
}

impl CalendarMessageList {
    fn shows(&self, height: i128, top: i128, h: i128) -> (shows: bool)
        requires
            -FAR <= height <= FAR,
            -4 * FAR <= top <= 4 * FAR,
            -FAR <= h <= FAR,
        ensures
            shows == self@.shows(height as int, top as int, h as int),
    {
        h > 0 && top < LIST_PAD + self.viewport_h(height) && LIST_PAD < top + h
    }

    /// What takes content to the popover.
    fn off_y(&self, content_h: i128, height: i128) -> (off: i128)
        requires
            -FAR <= height <= FAR,
            0 <= content_h <= SPAN * MAX_CARDS,
        ensures
            off == LIST_PAD - crate::message_layout::within(
                self@.scroll as int,
                crate::message_layout::at_least(
                    content_h - self@.viewport_h(height as int),
                    0,
                ),
            ),
            -SPAN * MAX_CARDS <= off <= LIST_PAD,
    {
        LIST_PAD - self.scrolled(content_h, height)
    }

    /// The media cards on the screen, and their buttons.
    pub fn visible_media_cards(&self, m: &ListMeasure, height: i128) -> (rects: Vec<MediaCardRects>)
        requires
            m.suits(self@),
            -FAR <= height <= FAR,
        ensures
            self@.is_media_rects(*m, height as int, rects@),
    {
        let ghost view = self@;
        let ghost keep = view.shows_player(*m, height as int);
        let layout = self.layout(m);
        proof {
            view.lemma_reach(*m, view.groups.len() as int);
        }
        let off: i128 = self.off_y(layout.content_h, height);
        let mut rects: Vec<MediaCardRects> = Vec::new();
        let mut p: usize = 0;
        while p < self.players.len()
            invariant
                p <= self.players@.len(),
                view == self@,
                m.suits(view),
                -FAR <= height <= FAR,
                view.is_layout(*m, layout),
                keep == view.shows_player(*m, height as int),
                off == view.off_y(*m, height as int),
                -SPAN * MAX_CARDS <= off <= LIST_PAD,
                rects@.len() == picked(p as nat, keep).len(),
                forall|i: int|
                    0 <= i < rects@.len() ==> {
                        let q = picked(p as nat, keep)[i];
                        let y = view.media_y(*m, height as int, q);
                        &&& (#[trigger] rects@[i]).p == q
                        &&& is_moved(rects@[i].previous, m.previous, LIST_PAD as int, y)
                        &&& is_moved(rects@[i].play_pause, m.play_pause, LIST_PAD as int, y)
                        &&& is_moved(rects@[i].next, m.next, LIST_PAD as int, y)
                        &&& rects@[i].card.x == LIST_PAD
                        &&& rects@[i].card.y == y
                        &&& rects@[i].card.w == m.card_w()
                        &&& rects@[i].card.h == m.media_h
                    },
            decreases self.players@.len() - p,
        {
            proof {
                view.lemma_media_reach(*m, p as int);
            }
            let y: i128 = layout.media[p] + off;
            assert(keep(p as int) == view.shows(height as int, y as int, m.media_h as int));
            if self.shows(height, y, m.media_h as i128) {
                rects.push(
                    MediaCardRects {
                        p,
                        card: Area {
                            x: LIST_PAD,
                            y,
                            w: (m.list_w as i128 - LIST_SCROLL_R),
                            h: m.media_h as i128,
                        },
                        previous: moved(&m.previous, LIST_PAD, y),
                        play_pause: moved(&m.play_pause, LIST_PAD, y),
                        next: moved(&m.next, LIST_PAD, y),
                    },
                );
            }
            p = p + 1;
        }
        rects
    }

    /// The cards on the screen that take clicks of their own: those of single notifications
    /// and of the fanned-out group.
    pub fn visible_interactive_cards(&self, m: &ListMeasure, height: i128) -> (cards: Vec<
        ShownCard,
    >)
        requires
            m.suits(self@),
            -FAR <= height <= FAR,
        ensures
            ({
                let shown = self@.shown_cards(
                    *m,
                    height as int,
                    self@.groups.len() as int,
                );
                &&& cards@.len() == shown.len()
                &&& forall|i: int|
                    0 <= i < cards@.len() ==> self@.is_shown(
                        *m,
                        height as int,
                        shown[i],
                        #[trigger] cards@[i],
                    )
            }),
    {
        let ghost view = self@;
        let layout = self.layout(m);
        proof {
            view.lemma_reach(*m, view.groups.len() as int);
        }
        let off: i128 = self.off_y(layout.content_h, height);
        let mut cards: Vec<ShownCard> = Vec::new();
        let mut g: usize = 0;
        while g < self.groups.len()
            invariant
                g <= self.groups@.len(),
                view == self@,
                m.suits(view),
                -FAR <= height <= FAR,
                view.is_layout(*m, layout),
                off == view.off_y(*m, height as int),
                -SPAN * MAX_CARDS <= off <= LIST_PAD,
                cards@.len() == view.shown_cards(*m, height as int, g as int).len(),
                forall|i: int|
                    0 <= i < cards@.len() ==> view.is_shown(
                        *m,
                        height as int,
                        view.shown_cards(*m, height as int, g as int)[i],
                        #[trigger] cards@[i],
                    ),
            decreases self.groups@.len() - g,
        {
            let block = &layout.blocks[g];
            let ghost before = view.shown_cards(*m, height as int, g as int);
            let ghost keep = view.shows_card(*m, height as int, g as int);
            assert(view.is_block(*m, g as int, layout.blocks@[g as int]));
            let mut c: usize = 0;
            assert(before + pairs(g as int, picked(0, keep)) =~= before);
            while c < block.cards.len()
                invariant
                    g < self.groups@.len(),
                    c <= block.cards@.len(),
                    view == self@,
                    m.suits(view),
                    -FAR <= height <= FAR,
                    view.is_block(*m, g as int, *block),
                    off == view.off_y(*m, height as int),
                    -SPAN * MAX_CARDS <= off <= LIST_PAD,
                    keep == view.shows_card(*m, height as int, g as int),
                    cards@.len() == (before + pairs(g as int, picked(c as nat, keep))).len(),
                    forall|i: int|
                        0 <= i < cards@.len() ==> view.is_shown(
                            *m,
                            height as int,
                            (before + pairs(g as int, picked(c as nat, keep)))[i],
                            #[trigger] cards@[i],
                        ),
                decreases block.cards@.len() - c,
            {
                proof {
                    view.lemma_reach(*m, g as int);
                    assert(m.groups@[g as int].cards@.len() == view.groups[g as int].cards.len());
                    assert(m.groups@[g as int].cards@[c as int].good());
                    assert(view.block_top(*m, g as int) <= view.card_top(*m, g as int, c as int));
                }
                let id: u32 = self.groups[g].cards[c].id;
                assert(view.groups[g as int].cards[c as int].id == id);
                let y: i128 = block.cards[c] + off;
                let h: i128 = m.groups[g].cards[c].h as i128;
                assert(keep(c as int) == (view.kind(g as int) != BlockKind::Stack && view.shows(
                    height as int,
                    y as int,
                    h as int,
                )));
                if block.kind != BlockKind::Stack && self.shows(height, y, h) {
                    let ghost all = before + pairs(g as int, picked((c + 1) as nat, keep));
                    cards.push(
                        ShownCard {
                            g,
                            c,
                            id,
                            card: Area { x: LIST_PAD, y, w: (m.list_w as i128 - LIST_SCROLL_R), h },
                        },
                    );
                    assert(all =~= (before + pairs(g as int, picked(c as nat, keep))).push(
                        (g as int, c as int),
                    ));
                }
                c = c + 1;
            }
            g = g + 1;
        }
        cards
    }

    /// The groups on the screen.
    pub fn visible_groups(&self, m: &ListMeasure, height: i128) -> (rects: Vec<GroupRect>)
        requires
            m.suits(self@),
            -FAR <= height <= FAR,
        ensures
            self@.is_group_rects(*m, height as int, rects@),
    {
        let ghost view = self@;
        let ghost keep = view.shows_block(*m, height as int);
        let layout = self.layout(m);
        proof {
            view.lemma_reach(*m, view.groups.len() as int);
        }
        let off: i128 = self.off_y(layout.content_h, height);
        let mut rects: Vec<GroupRect> = Vec::new();
        let mut g: usize = 0;
        while g < self.groups.len()
            invariant
                g <= self.groups@.len(),
                view == self@,
                m.suits(view),
                -FAR <= height <= FAR,
                view.is_layout(*m, layout),
                keep == view.shows_block(*m, height as int),
                off == view.off_y(*m, height as int),
                -SPAN * MAX_CARDS <= off <= LIST_PAD,
                rects@.len() == picked(g as nat, keep).len(),
                forall|i: int|
                    0 <= i < rects@.len() ==> {
                        let h = picked(g as nat, keep)[i];
                        &&& (#[trigger] rects@[i]).g == h
                        &&& rects@[i].expanded == (view.kind(h) == BlockKind::Fan)
                        &&& rects@[i].bounds.x == LIST_PAD
                        &&& rects@[i].bounds.y == view.block_y(*m, height as int, h)
                        &&& rects@[i].bounds.w == m.card_w()
                        &&& rects@[i].bounds.h == view.block_h(*m, h)
                    },
            decreases self.groups@.len() - g,
        {
            let block = &layout.blocks[g];
            proof {
                view.lemma_reach(*m, g as int);
                assert(view.is_block(*m, g as int, layout.blocks@[g as int]));
            }
            let y: i128 = block.top + off;
            assert(keep(g as int) == view.shows(height as int, y as int, block.h as int));
            if self.shows(height, y, block.h) {
                rects.push(
                    GroupRect {
                        g,
                        bounds: Area { x: LIST_PAD, y, w: (m.list_w as i128 - LIST_SCROLL_R), h: block.h },
                        expanded: block.kind == BlockKind::Fan,
                    },
                );
            }
            g = g + 1;
        }
        rects
    }

    /// The close button of a source's stack, if that is on the screen.
    pub fn stack_close_rect(&self, m: &ListMeasure, key: &SourceKey, height: i128) -> (close:
        Option<Area>)
        requires
            m.suits(self@),
            -FAR <= height <= FAR,
        ensures
            self@.is_stack_close(*m, height as int, key@, close),
    {
        let ghost view = self@;
        let ghost wanted = view.has_stack_close(*m, height as int, key@);
        let ghost n = view.groups.len() as int;
        let layout = self.layout(m);
        proof {
            view.lemma_reach(*m, n);
        }
        let off: i128 = self.off_y(layout.content_h, height);
        let mut g: usize = 0;
        while g < self.groups.len()
            invariant
                g <= self.groups@.len(),
                view == self@,
                n == view.groups.len(),
                m.suits(view),
                -FAR <= height <= FAR,
                view.is_layout(*m, layout),
                wanted == view.has_stack_close(*m, height as int, key@),
                off == view.off_y(*m, height as int),
                -SPAN * MAX_CARDS <= off <= LIST_PAD,
                first_where(n, wanted, 0) == first_where(n, wanted, g as int),
            decreases self.groups@.len() - g,
        {
            let block = &layout.blocks[g];
            assert(view.groups[g as int] == self.groups@[g as int]@);
            proof {
                view.lemma_reach(*m, g as int);
                assert(view.is_block(*m, g as int, layout.blocks@[g as int]));
                assert(m.groups@[g as int].cards@.len() == view.groups[g as int].cards.len());
            }
            let mine = self.groups[g].key.same(key);
            if mine && block.kind == BlockKind::Stack {
                assert(m.groups@[g as int].cards@[0].good());
                let at = moved(&m.groups[g].cards[0].close, LIST_PAD, block.top + off);
                assert(wanted(g as int) == view.shows(height as int, at.y as int, at.h as int));
                if self.shows(height, at.y, at.h) {
                    return Some(at);
                }
            }
            assert(!wanted(g as int));
            g = g + 1;
        }
        None
    }

    /// The button that collapses a source's fanned-out group, if that is on the screen.
    pub fn group_collapse_rect(&self, m: &ListMeasure, key: &SourceKey, height: i128) -> (button:
        Option<Area>)
        requires
            m.suits(self@),
            -FAR <= height <= FAR,
        ensures
            self@.is_collapse_button(*m, height as int, key@, button),
    {
        let ghost view = self@;
        let ghost wanted = view.has_collapse(*m, height as int, key@);
        let ghost n = view.groups.len() as int;
        let layout = self.layout(m);
        proof {
            view.lemma_reach(*m, n);
        }
        let off: i128 = self.off_y(layout.content_h, height);
        let mut g: usize = 0;
        while g < self.groups.len()
            invariant
                g <= self.groups@.len(),
                view == self@,
                n == view.groups.len(),
                m.suits(view),
                -FAR <= height <= FAR,
                view.is_layout(*m, layout),
                wanted == view.has_collapse(*m, height as int, key@),
                off == view.off_y(*m, height as int),
                -SPAN * MAX_CARDS <= off <= LIST_PAD,
                first_where(n, wanted, 0) == first_where(n, wanted, g as int),
            decreases self.groups@.len() - g,
        {
            let block = &layout.blocks[g];
            assert(view.groups[g as int] == self.groups@[g as int]@);
            proof {
                view.lemma_reach(*m, g as int);
                assert(view.is_block(*m, g as int, layout.blocks@[g as int]));
            }
            let y: i128 = block.top + off + GROUP_HEADER_PAD;
            let mine = self.groups[g].key.same(key);
            assert(wanted(g as int) == (mine && block.kind == BlockKind::Fan && view.shows(
                height as int,
                y as int,
                GROUP_COLLAPSE_D as int,
            )));
            if mine && block.kind == BlockKind::Fan && self.shows(height, y, GROUP_COLLAPSE_D) {
                return Some(
                    Area {
                        x: LIST_PAD + (m.list_w as i128 - LIST_SCROLL_R) - GROUP_HEADER_PAD
                            - GROUP_COLLAPSE_D,
                        y,
                        w: GROUP_COLLAPSE_D,
                        h: GROUP_COLLAPSE_D,
                    },
                );
            }
            g = g + 1;
        }
        None
    }
}

impl ListView {
    /// One source at a time is fanned out.
    pub proof fn law_one_fan(self, g: int, h: int)
        requires
            0 <= g < self.groups.len(),
            0 <= h < self.groups.len(),
            self.kind(g) == BlockKind::Fan,
            self.kind(h) == BlockKind::Fan,
        ensures
            self.groups[g].key == self.groups[h].key,
    {
    }

    /// The groups are one below the other, at least a gap apart.
    pub proof fn law_blocks_apart(self, m: ListMeasure, g: int, h: int)
        requires
            m.suits(self),
            0 <= g < h <= self.groups.len(),
            self.kind(g) != BlockKind::Empty,
        ensures
            self.block_top(m, g) + self.block_h(m, g) + CARD_GAP <= self.block_top(m, h),
        decreases h,
    {
        self.lemma_block_bounds(m, h - 1);
        if g < h - 1 {
            self.law_blocks_apart(m, g, h - 1);
        }
    }

    /// The media cards are above all groups, one below the other and a gap apart.
    pub proof fn law_media_apart(self, m: ListMeasure, p: int, q: int, g: int)
        requires
            m.suits(self),
            0 <= p < q <= self.players.len(),
            0 <= g <= self.groups.len(),
        ensures
            self.media_top(m, p) + m.media_h + CARD_GAP <= self.media_top(m, q),
            self.media_top(m, p) + m.media_h + CARD_GAP <= self.block_top(m, g),
        decreases g,
    {
        let k = m.media_h + CARD_GAP;
        let n = self.players.len() as int;
        assert((p + 1) * k <= q * k && (p + 1) * k <= n * k && (p + 1) * k == p * k + k)
            by (nonlinear_arith)
            requires
                0 <= k,
                p + 1 <= q <= n,
        ;
        if g > 0 {
            self.law_media_apart(m, p, q, g - 1);
            self.lemma_block_bounds(m, g - 1);
        }
    }

    /// The cards of a fanned-out group are below its header, and a gap apart.
    pub proof fn law_cards_apart(self, m: ListMeasure, g: int, c: int, d: int)
        requires
            m.suits(self),
            0 <= g < self.groups.len(),
            self.kind(g) == BlockKind::Fan,
            0 <= c < d < self.groups[g].cards.len(),
        ensures
            self.block_top(m, g) + crate::message_layout::GROUP_HEADER_H <= self.card_top(m, g, c),
            self.card_top(m, g, c) + m.groups@[g].cards@[c].h + CARD_GAP <= self.card_top(m, g, d),
            self.card_top(m, g, d) + m.groups@[g].cards@[d].h <= self.block_top(m, g)
                + self.block_h(m, g),
        decreases d,
    {
        let cards = m.groups@[g].cards@;
        self.lemma_block_bounds(m, g);
        assert(0 <= crate::message_layout::fan_below(cards, c));
        assert(0 <= crate::message_layout::fan_below(cards, d));
        assert(m.groups@[g].cards@.len() == self.groups[g].cards.len());
        assert(m.groups@[g].cards@[d - 1].good());
        if c < d - 1 {
            self.law_cards_apart(m, g, c, d - 1);
        }
    }

    /// A point on a group is over that group and nothing else.
    pub proof fn law_point_in_block(self, m: ListMeasure, g: int, x: int, y: int)
        requires
            m.suits(self),
            0 <= g < self.groups.len(),
            LIST_PAD <= x < LIST_PAD + m.card_w(),
            self.block_top(m, g) <= y < self.block_top(m, g) + self.block_h(m, g),
        ensures
            self.content_spot(m, x, y) == self.spot_in(m, g, x, y),
    {
        let n = self.players.len() as int;
        let groups = self.groups.len() as int;
        let over_player = self.over_player(m, x, y);
        let over_block = self.over_block(m, x, y);
        lemma_first_where(n, over_player, 0);
        lemma_first_where(groups, over_block, 0);
        let p = first_where(n, over_player, 0);
        let h = first_where(groups, over_block, 0);
        if p < n {
            self.law_media_apart(m, p, p + 1, g);
            assert(over_player(p));
        }
        assert(over_block(g));
        if h < groups && h != g {
            assert(over_block(h));
            if h < g {
                self.law_blocks_apart(m, h, g);
            } else {
                self.law_blocks_apart(m, g, h);
            }
        }
    }

    /// A point on a card of a fanned-out group is over that card, and its button if it is on
    /// one.
    pub proof fn law_point_in_card(self, m: ListMeasure, g: int, c: int, x: int, y: int)
        requires
            m.suits(self),
            0 <= g < self.groups.len(),
            self.kind(g) == BlockKind::Fan,
            0 <= c < self.groups[g].cards.len(),
            LIST_PAD <= x < LIST_PAD + m.card_w(),
            self.card_top(m, g, c) <= y < self.card_top(m, g, c) + m.groups@[g].cards@[c].h,
        ensures
            self.content_spot(m, x, y) == (Spot::Card {
                g: g as usize,
                c: c as usize,
                zone: m.groups@[g].cards@[c].zone(x - LIST_PAD, y - self.card_top(m, g, c)),
            }),
    {
        let cards = m.groups@[g].cards@;
        let n = cards.len() as int;
        assert(m.groups@[g].cards@.len() == self.groups[g].cards.len());
        if c + 1 < n {
            self.law_cards_apart(m, g, c, c + 1);
        }
        if c > 0 {
            self.law_cards_apart(m, g, c - 1, c);
        }
        let last = n - 1;
        if c < last {
            self.law_cards_apart(m, g, c, last);
        }
        assert(m.groups@[g].cards@[last].good());
        self.law_point_in_block(m, g, x, y);
        let over = self.over_card(m, g, x, y);
        lemma_first_where(n, over, 0);
        let d = first_where(n, over, 0);
        assert(over(c));
        if d < n && d != c {
            assert(over(d));
            if d < c {
                self.law_cards_apart(m, g, d, c);
            } else {
                self.law_cards_apart(m, g, c, d);
            }
        }
    }

    /// What lights up is what a click would hit: a card's button, the collapse button, the
    /// Clear pill, a media button.
    pub proof fn law_hover_is_hit(self, spot: Spot, bus_name: Seq<char>, control: MediaControl)
        ensures
            spot matches Spot::Card { g, c, zone } ==> {
                let card = self.groups[g as int].cards[c as int];
                &&& self.hover_of(spot) == Some(HoverView::Card { id: card.id, zone })
                &&& zone == Some(CardZone::Close) <==> self.hit_of(spot) == Some(
                    HitView::Close(card.id),
                )
                &&& zone == Some(CardZone::Caret) <==> self.hit_of(spot) == Some(
                    HitView::ToggleExpand(card.id),
                )
                &&& zone is None <==> self.hit_of(spot) == Some(
                    HitView::Body { id: card.id, has_default: card.has_default_action },
                )
            },
            self.hover_of(spot) == Some(HoverView::Clear) <==> self.hit_of(spot) == Some(
                HitView::Clear,
            ),
            self.hover_of(spot) == Some(HoverView::GroupCollapse) ==> self.hit_of(spot) == Some(
                HitView::CollapseGroup,
            ),
            self.hover_of(spot) == Some(
                HoverView::Media { bus_name, control: Some(control) },
            ) <==> self.hit_of(spot) == Some(HitView::MediaControl { bus_name, control }),
    {
    }

    /// The list is never scrolled past an end.
    pub proof fn law_scroll_in_range(self, m: ListMeasure, height: int)
        ensures
            0 <= self.scrolled(m, height) <= self.max_scroll(m, height),
    {
    }

    /// In a popover as tall as the list asks for, nothing scrolls and every card shows whole.
    pub proof fn law_natural_height_fits(self, m: ListMeasure, height: int, g: int)
        requires
            m.suits(self),
            height >= LIST_PAD + self.content_h(m) + self.controls_h(),
            0 <= g < self.groups.len(),
            self.kind(g) != BlockKind::Empty,
        ensures
            self.scrolled(m, height) == 0,
            LIST_PAD <= self.block_y(m, height, g),
            self.block_y(m, height, g) + self.block_h(m, g) <= LIST_PAD + self.viewport_h(height),
    {
        self.lemma_reach(m, g);
        self.lemma_within_content(m, g, self.groups.len() as int);
    }

    proof fn lemma_within_content(self, m: ListMeasure, g: int, h: int)
        requires
            m.suits(self),
            0 <= g < h <= self.groups.len(),
            self.kind(g) != BlockKind::Empty,
        ensures
            self.block_top(m, g) + self.block_h(m, g) <= self.end_of(m, h),
        decreases h,
    {
        self.lemma_block_bounds(m, h - 1);
        self.lemma_reach(m, h - 1);
        if g < h - 1 {
            self.lemma_within_content(m, g, h - 1);
            self.law_blocks_apart(m, g, h - 1);
        }
    }

    /// Scrolled to the end, the list shows the end of its content at the viewport's bottom.
    pub proof fn law_scrolled_to_the_end(self, m: ListMeasure, height: int)
        requires
            self.max_scroll(m, height) > 0,
            self.scrolled(m, height) == self.max_scroll(m, height),
        ensures
            self.content_h(m) + self.off_y(m, height) == LIST_PAD + self.viewport_h(height),
    {
    }
}

} // verus!
