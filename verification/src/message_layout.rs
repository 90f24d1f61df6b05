//! Where the message list's cards are, and what is under the pointer.
//!
//! Lengths are in 64ths of a logical pixel. How tall a card is, and where its buttons are in
//! it, is the caller's to measure. Content starts at 0 and grows down; the viewport shows a
//! stretch of it.

use vstd::prelude::*;

use crate::area::{Area, FAR, UNITS};
use crate::lists::{first_where, lemma_first_where};
use crate::message_list::{
    count, CalendarMessageList, CardZone, GroupView, HitView, HoverView, ListHit, ListHover,
    ListView,
};
use crate::popover::MediaControl;

verus! {

broadcast use vstd::std_specs::hash::group_hash_axioms;

/// The inset between the popover's box and its content.
pub const LIST_PAD: i128 = 10 * UNITS;

/// The scrollbar's room right of the cards.
pub const LIST_SCROLL_R: i128 = 12 * UNITS;

/// Between two cards.
pub const CARD_GAP: i128 = 12 * UNITS;

/// A fanned-out group's header, and the padding and the button in it.
pub const GROUP_HEADER_H: i128 = 36 * UNITS;

pub const GROUP_HEADER_PAD: i128 = 6 * UNITS;

pub const GROUP_COLLAPSE_D: i128 = 24 * UNITS;

/// The controls row: padding at the sides and the top, at the bottom, and the Clear pill.
pub const CONTROLS_PAD: i128 = 12 * UNITS;

pub const CONTROLS_PAD_B: i128 = 9 * UNITS;

pub const CLEAR_H: i128 = 28 * UNITS;

/// The longest length that is measured.
pub const MAX_LEN: i64 = 0x100_0000_0000;

/// The most cards, groups and players that fit.
pub const MAX_CARDS: u64 = 0x1000_0000_0000_0000;

/// A card as measured: its height, and its buttons from its own top-left corner.
pub struct CardLayout {
    pub h: i64,
    pub close: Area,
    /// The caret's place, and whether there is more to fold out.
    pub expand: Option<Area>,
    pub can_expand: bool,
    pub actions: Vec<Area>,
}

impl CardLayout {
    pub open spec fn good(&self) -> bool {
        &&& 0 <= self.h <= MAX_LEN
        &&& self.close.near()
        &&& self.expand matches Some(caret) ==> caret.near()
        &&& forall|i: int| 0 <= i < self.actions@.len() ==> (#[trigger] self.actions@[i]).near()
    }

    pub open spec fn over_action(&self, x: int, y: int) -> spec_fn(int) -> bool {
        |i: int| self.actions@[i].has(x, y)
    }

    /// The button under a point of the card.
    pub open spec fn zone(&self, x: int, y: int) -> Option<CardZone> {
        let i = first_where(self.actions@.len() as int, self.over_action(x, y), 0);
        if self.close.has(x, y) {
            Some(CardZone::Close)
        } else if self.can_expand && (self.expand matches Some(caret) && caret.has(x, y)) {
            Some(CardZone::Caret)
        } else if i < self.actions@.len() {
            Some(CardZone::Action(i as usize))
        } else {
            None
        }
    }

    pub fn zone_at(&self, x: i128, y: i128) -> (zone: Option<CardZone>)
        requires
            self.good(),
        ensures
            zone == self.zone(x as int, y as int),
            zone matches Some(CardZone::Action(i)) ==> i < self.actions@.len(),
    {
        if self.close.contains(x, y) {
            return Some(CardZone::Close);
        }
        if self.can_expand {
            if let Some(caret) = &self.expand {
                if caret.contains(x, y) {
                    return Some(CardZone::Caret);
                }
            }
        }
        let ghost over = self.over_action(x as int, y as int);
        let mut i: usize = 0;
        while i < self.actions.len()
            invariant
                i <= self.actions@.len(),
                self.good(),
                over == self.over_action(x as int, y as int),
                !self.close.has(x as int, y as int),
                !(self.can_expand && (self.expand matches Some(caret) && caret.has(
                    x as int,
                    y as int,
                ))),
                first_where(self.actions@.len() as int, over, 0) == first_where(
                    self.actions@.len() as int,
                    over,
                    i as int,
                ),
            decreases self.actions@.len() - i,
        {
            assert(over(i as int) == self.actions@[i as int].has(x as int, y as int));
            if self.actions[i].contains(x, y) {
                return Some(CardZone::Action(i));
            }
            i = i + 1;
        }
        None
    }
}

/// A group as measured: each card.
pub struct GroupMeasure {
    pub cards: Vec<CardLayout>,
}

/// What the caller measured.
pub struct ListMeasure {
    pub list_w: i64,
    /// A media card's height, and its buttons from its own top-left corner.
    pub media_h: i64,
    pub previous: Area,
    pub play_pause: Area,
    pub next: Area,
    /// The Clear pill's width.
    pub clear_w: i64,
    /// The margin under a fanned-out group, on top of the gap between cards.
    pub fan_margin: i64,
    /// How far each card under a stack's top one shows below the card above it, the shallowest
    /// first: no deeper card shows.
    pub peeks: Vec<i64>,
    /// How much narrower than the one above it each of those is, on either side.
    pub peek_inset: i64,
    pub groups: Vec<GroupMeasure>,
}

impl ListMeasure {
    /// The measure is of this list, and everything in it can be measured.
    pub open spec fn suits(&self, list: ListView) -> bool {
        &&& 0 <= self.list_w <= MAX_LEN
        &&& 0 <= self.media_h <= MAX_LEN
        &&& 0 <= self.clear_w <= MAX_LEN
        &&& 0 <= self.fan_margin <= MAX_LEN
        &&& 0 <= self.peek_inset <= MAX_LEN
        &&& forall|n: int|
            0 <= n <= self.peeks@.len() ==> 0 <= #[trigger] peek_below(self.peeks@, n) <= MAX_LEN
        &&& self.previous.near() && self.play_pause.near() && self.next.near()
        &&& self.groups@.len() == list.groups.len()
        &&& forall|g: int|
            0 <= g < list.groups.len() ==> (#[trigger] self.groups@[g]).cards@.len()
                == list.groups[g].cards.len()
        &&& forall|g: int, c: int|
            0 <= g < list.groups.len() && 0 <= c < list.groups[g].cards.len() ==> {
                &&& (#[trigger] self.groups@[g].cards@[c]).good()
                &&& self.groups@[g].cards@[c].actions@.len()
                    <= list.groups[g].cards[c].actions.len()
            }
        &&& list.players.len() + list.groups.len() + count(list.groups) <= MAX_CARDS
    }

    /// How many cards show below the top one of a stack of `n`.
    pub open spec fn depth(&self, n: int) -> int {
        if n - 1 <= self.peeks@.len() {
            n - 1
        } else {
            self.peeks@.len() as int
        }
    }

    /// How many cards show below the top one of a stack of `n`.
    pub fn shown_peeks(&self, n: usize) -> (depth: usize)
        requires
            n > 0,
        ensures
            depth == self.depth(n as int),
    {
        if n - 1 <= self.peeks.len() {
            n - 1
        } else {
            self.peeks.len()
        }
    }

    /// How far the first `n` cards under a stack's top one show below it.
    fn peek_h(&self, n: usize) -> (h: i64)
        requires
            n <= self.peeks@.len(),
            forall|k: int|
                0 <= k <= self.peeks@.len() ==> 0 <= #[trigger] peek_below(self.peeks@, k)
                    <= MAX_LEN,
        ensures
            h == peek_below(self.peeks@, n as int),
            0 <= h <= MAX_LEN,
    {
        let mut h: i64 = 0;
        let mut k: usize = 0;
        while k < n
            invariant
                k <= n <= self.peeks@.len(),
                h == peek_below(self.peeks@, k as int),
                0 <= h <= MAX_LEN,
                forall|j: int|
                    0 <= j <= self.peeks@.len() ==> 0 <= #[trigger] peek_below(self.peeks@, j)
                        <= MAX_LEN,
            decreases n - k,
        {
            assert(peek_below(self.peeks@, k + 1) == h + self.peeks@[k as int]);
            h = h + self.peeks[k];
            k = k + 1;
        }
        h
    }

    /// A card's width: the scrollbar has room beside it.
    pub open spec fn card_w(&self) -> int {
        self.list_w - LIST_SCROLL_R
    }

    /// The media button under a point of a media card.
    pub open spec fn control(&self, x: int, y: int) -> Option<MediaControl> {
        if self.previous.has(x, y) {
            Some(MediaControl::Previous)
        } else if self.play_pause.has(x, y) {
            Some(MediaControl::PlayPause)
        } else if self.next.has(x, y) {
            Some(MediaControl::Next)
        } else {
            None
        }
    }
}

/// How a group shows.
#[derive(Clone, Copy, Debug, PartialEq, Eq, Structural)]
pub enum BlockKind {
    Empty,
    /// One notification: a plain card.
    Single,
    /// A collapsed stack.
    Stack,
    /// Fanned out, under a header.
    Fan,
}

/// What a point is over.
#[derive(Clone, Copy, Debug, PartialEq, Eq, Structural)]
pub enum Spot {
    Nothing,
    Clear,
    /// A media card, and its button if that reacts.
    Player { p: usize, control: Option<MediaControl> },
    /// A plain card, or one of a fanned-out group.
    Card { g: usize, c: usize, zone: Option<CardZone> },
    /// A collapsed stack, and whether that is its top card's close button.
    Stack { g: usize, close: bool },
    /// The button that collapses a fanned-out group.
    Collapse(usize),
    /// The rest of a fanned-out group: its header, and between its cards.
    Header(usize),
}

/// How far the first `n` cards under a stack's top one show below it.
pub open spec fn peek_below(peeks: Seq<i64>, n: int) -> int
    decreases n,
{
    if n <= 0 {
        0
    } else {
        peek_below(peeks, n - 1) + peeks[n - 1]
    }
}

/// The height of a group's first `n` cards fanned out, each with the gap below it.
pub open spec fn fan_below(cards: Seq<CardLayout>, n: int) -> int
    decreases n,
{
    if n <= 0 {
        0
    } else {
        fan_below(cards, n - 1) + cards[n - 1].h + CARD_GAP
    }
}

impl ListView {
    /// How group `g` shows.
    pub open spec fn kind(self, g: int) -> BlockKind {
        let group = self.groups[g];
        if group.cards.len() == 0 {
            BlockKind::Empty
        } else if group.cards.len() == 1 {
            BlockKind::Single
        } else if self.group_expanded == Some(group.key) {
            BlockKind::Fan
        } else {
            BlockKind::Stack
        }
    }

    /// How tall group `g` is.
    pub open spec fn block_h(self, m: ListMeasure, g: int) -> int {
        let cards = m.groups@[g].cards@;
        match self.kind(g) {
            BlockKind::Empty => 0,
            BlockKind::Single => cards[0].h as int,
            BlockKind::Stack => cards[0].h + peek_below(
                m.peeks@,
                m.depth(cards.len() as int),
            ),
            BlockKind::Fan => GROUP_HEADER_H + fan_below(cards, cards.len() as int) - CARD_GAP,
        }
    }

    /// How far below group `g`'s top the next group starts.
    pub open spec fn block_step(self, m: ListMeasure, g: int) -> int {
        match self.kind(g) {
            BlockKind::Empty => 0,
            BlockKind::Fan => self.block_h(m, g) + CARD_GAP + m.fan_margin,
            _ => self.block_h(m, g) + CARD_GAP,
        }
    }

    /// Where media card `p` starts.
    pub open spec fn media_top(self, m: ListMeasure, p: int) -> int {
        p * (m.media_h + CARD_GAP)
    }

    /// Where group `g` starts: below the media cards and the groups before it.
    pub open spec fn block_top(self, m: ListMeasure, g: int) -> int
        decreases g,
    {
        if g <= 0 {
            self.media_top(m, self.players.len() as int)
        } else {
            self.block_top(m, g - 1) + self.block_step(m, g - 1)
        }
    }

    /// Where the media cards and the first `g` groups end.
    pub open spec fn end_of(self, m: ListMeasure, g: int) -> int
        decreases g,
    {
        if g <= 0 {
            if self.players.len() == 0 {
                0
            } else {
                self.media_top(m, self.players.len() - 1) + m.media_h
            }
        } else if self.kind(g - 1) == BlockKind::Empty {
            self.end_of(m, g - 1)
        } else {
            self.block_top(m, g - 1) + self.block_h(m, g - 1)
        }
    }

    /// How tall the content is.
    pub open spec fn content_h(self, m: ListMeasure) -> int {
        self.end_of(m, self.groups.len() as int)
    }

    /// How many cards group `g` shows in full.
    pub open spec fn shown(self, g: int) -> int {
        match self.kind(g) {
            BlockKind::Empty => 0,
            BlockKind::Fan => self.groups[g].cards.len() as int,
            _ => 1,
        }
    }

    /// Where card `c` of group `g` starts.
    pub open spec fn card_top(self, m: ListMeasure, g: int, c: int) -> int {
        if self.kind(g) == BlockKind::Fan {
            self.block_top(m, g) + GROUP_HEADER_H + fan_below(m.groups@[g].cards@, c)
        } else {
            self.block_top(m, g)
        }
    }

    /// The controls row's height: it shows while there is something to clear.
    pub open spec fn controls_h(self) -> int {
        if self.groups.len() == 0 {
            0
        } else {
            CONTROLS_PAD + CLEAR_H + CONTROLS_PAD_B
        }
    }

    /// How much of the content shows in a popover this tall.
    pub open spec fn viewport_h(self, height: int) -> int {
        at_least(height - self.controls_h() - LIST_PAD, 0)
    }

    /// How far the list can scroll.
    pub open spec fn max_scroll(self, m: ListMeasure, height: int) -> int {
        at_least(self.content_h(m) - self.viewport_h(height), 0)
    }

    /// How far the list is scrolled: what was asked for, within what there is.
    pub open spec fn scrolled(self, m: ListMeasure, height: int) -> int {
        within(self.scroll as int, self.max_scroll(m, height))
    }

    /// What takes content to the popover.
    pub open spec fn off_y(self, m: ListMeasure, height: int) -> int {
        LIST_PAD - self.scrolled(m, height)
    }

    /// The point is on the Clear pill.
    pub open spec fn over_clear(self, m: ListMeasure, height: int, x: int, y: int) -> bool {
        &&& self.groups.len() > 0
        &&& LIST_PAD + CONTROLS_PAD <= x < LIST_PAD + CONTROLS_PAD + m.clear_w
        &&& height - CONTROLS_PAD_B - CLEAR_H <= y < height - CONTROLS_PAD_B
    }

    /// The point is in the viewport.
    pub open spec fn in_viewport(self, m: ListMeasure, height: int, x: int, y: int) -> bool {
        0 <= x < m.list_w && LIST_PAD <= y < LIST_PAD + self.viewport_h(height)
    }

    /// Which media cards a point of the content is in.
    pub open spec fn over_player(self, m: ListMeasure, x: int, y: int) -> spec_fn(int) -> bool {
        |p: int|
            LIST_PAD <= x < LIST_PAD + m.card_w() && self.media_top(m, p) <= y < self.media_top(m, p)
                + m.media_h
    }

    /// Which groups a point of the content is in.
    pub open spec fn over_block(self, m: ListMeasure, x: int, y: int) -> spec_fn(int) -> bool {
        |g: int|
            LIST_PAD <= x < LIST_PAD + m.card_w() && self.block_top(m, g) <= y < self.block_top(m, g)
                + self.block_h(m, g)
    }

    /// Which cards of a fanned-out group a point of the content is in.
    pub open spec fn over_card(
        self,
        m: ListMeasure,
        g: int,
        x: int,
        y: int,
    ) -> spec_fn(int) -> bool {
        |c: int|
            LIST_PAD <= x < LIST_PAD + m.card_w() && self.card_top(m, g, c) <= y < self.card_top(
                m,
                g,
                c,
            ) + m.groups@[g].cards@[c].h
    }

    /// The point of the content is on the button that collapses group `g`.
    pub open spec fn over_collapse(self, m: ListMeasure, g: int, x: int, y: int) -> bool {
        let left = LIST_PAD + m.card_w() - GROUP_HEADER_PAD - GROUP_COLLAPSE_D;
        let top = self.block_top(m, g) + GROUP_HEADER_PAD;
        left <= x < left + GROUP_COLLAPSE_D && top <= y < top + GROUP_COLLAPSE_D
    }

    /// The button under a point of media card `p`, if it reacts.
    pub open spec fn live_control(self, m: ListMeasure, p: int, x: int, y: int) -> Option<
        MediaControl,
    > {
        match m.control(x - LIST_PAD, y - self.media_top(m, p)) {
            Some(control) if self.players[p].reacts(control) => Some(control),
            _ => None,
        }
    }

    /// What a point of the content is over, in group `g`.
    pub open spec fn spot_in(self, m: ListMeasure, g: int, x: int, y: int) -> Spot {
        let cards = m.groups@[g].cards@;
        let c = first_where(cards.len() as int, self.over_card(m, g, x, y), 0);
        match self.kind(g) {
            BlockKind::Empty => Spot::Nothing,
            BlockKind::Single => Spot::Card {
                g: g as usize,
                c: 0,
                zone: cards[0].zone(x - LIST_PAD, y - self.block_top(m, g)),
            },
            BlockKind::Stack => Spot::Stack {
                g: g as usize,
                close: cards[0].close.has(x - LIST_PAD, y - self.block_top(m, g)),
            },
            BlockKind::Fan => if self.over_collapse(m, g, x, y) {
                Spot::Collapse(g as usize)
            } else if c < cards.len() {
                Spot::Card {
                    g: g as usize,
                    c: c as usize,
                    zone: cards[c].zone(x - LIST_PAD, y - self.card_top(m, g, c)),
                }
            } else {
                Spot::Header(g as usize)
            },
        }
    }

    /// What a point of the content is over.
    pub open spec fn content_spot(self, m: ListMeasure, x: int, y: int) -> Spot {
        let p = first_where(self.players.len() as int, self.over_player(m, x, y), 0);
        let g = first_where(self.groups.len() as int, self.over_block(m, x, y), 0);
        if p < self.players.len() {
            Spot::Player { p: p as usize, control: self.live_control(m, p, x, y) }
        } else if g < self.groups.len() {
            self.spot_in(m, g, x, y)
        } else {
            Spot::Nothing
        }
    }

    /// What a point of the popover is over. The Clear pill is under the viewport; outside both
    /// there is nothing.
    pub open spec fn spot(self, m: ListMeasure, height: int, x: int, y: int) -> Spot {
        if self.over_clear(m, height, x, y) {
            Spot::Clear
        } else if !self.in_viewport(m, height, x, y) {
            Spot::Nothing
        } else {
            self.content_spot(m, x, y - self.off_y(m, height))
        }
    }
}

pub open spec fn at_least(n: int, least: int) -> int {
    if n < least {
        least
    } else {
        n
    }
}

/// What is left of `n` between 0 and `most`.
pub open spec fn within(n: int, most: int) -> int {
    if n < 0 {
        0
    } else if n > most {
        most
    } else {
        n
    }
}

/// A group's place in the content.
pub struct Block {
    pub kind: BlockKind,
    pub top: i128,
    pub h: i128,
    /// Where each card that it shows in full starts.
    pub cards: Vec<i128>,
}

/// Every place in the content.
pub struct ListLayout {
    /// Where each media card starts.
    pub media: Vec<i128>,
    pub blocks: Vec<Block>,
    pub content_h: i128,
}

impl ListView {
    pub open spec fn is_block(self, m: ListMeasure, g: int, block: Block) -> bool {
        &&& block.kind == self.kind(g)
        &&& block.top == self.block_top(m, g)
        &&& block.h == self.block_h(m, g)
        &&& block.cards@.len() == self.shown(g)
        &&& forall|c: int|
            0 <= c < self.shown(g) ==> #[trigger] block.cards@[c] == self.card_top(m, g, c)
    }

    pub open spec fn is_layout(self, m: ListMeasure, layout: ListLayout) -> bool {
        &&& layout.media@.len() == self.players.len()
        &&& forall|p: int|
            0 <= p < self.players.len() ==> #[trigger] layout.media@[p] == self.media_top(m, p)
        &&& layout.blocks@.len() == self.groups.len()
        &&& forall|g: int|
            0 <= g < self.groups.len() ==> self.is_block(m, g, #[trigger] layout.blocks@[g])
        &&& layout.content_h == self.content_h(m)
    }

    /// No group is taller than its cards can make it.
    pub proof fn lemma_block_bounds(self, m: ListMeasure, g: int)
        requires
            m.suits(self),
            0 <= g < self.groups.len(),
        ensures
            0 <= self.block_h(m, g) <= self.block_step(m, g),
            self.block_step(m, g) <= SPAN * (self.groups[g].cards.len() + 1),
            self.kind(g) != BlockKind::Empty ==> self.block_h(m, g) + CARD_GAP
                <= self.block_step(m, g),
            forall|c: int|
                0 <= c < self.groups[g].cards.len() ==> 0 <= #[trigger] fan_below(
                    m.groups@[g].cards@,
                    c,
                ) && fan_below(m.groups@[g].cards@, c) + m.groups@[g].cards@[c].h + CARD_GAP
                    <= fan_below(m.groups@[g].cards@, self.groups[g].cards.len() as int),
    {
        let cards = m.groups@[g].cards@;
        let n = cards.len() as int;
        assert(m.groups@[g].cards@.len() == self.groups[g].cards.len());
        assert forall|c: int| 0 <= c < n implies 0 <= (#[trigger] cards[c]).h <= MAX_LEN by {
            assert(m.groups@[g].cards@[c].good());
        }
        lemma_fan_bounds(cards, n);
        assert forall|c: int| 0 <= c < n implies 0 <= #[trigger] fan_below(cards, c) && fan_below(
            cards,
            c,
        ) + cards[c].h + CARD_GAP <= fan_below(cards, n) by {
            lemma_fan_grows(cards, c + 1, n);
            lemma_fan_bounds(cards, c);
        }
        if n >= 2 {
            assert(0 <= peek_below(m.peeks@, m.depth(n)) <= MAX_LEN);
            assert(0 <= cards[0].h);
            lemma_fan_grows(cards, 1, n);
            assert(fan_below(cards, 1) == fan_below(cards, 0) + cards[0].h + CARD_GAP);
        }
    }

    /// Every place is within reach, and each starts below the end of what is before it.
    proof fn lemma_top_bounds(self, m: ListMeasure, g: int)
        requires
            m.suits(self),
            0 <= g <= self.groups.len(),
        ensures
            0 <= self.end_of(m, g) <= self.block_top(m, g),
            self.block_top(m, g) <= SPAN * (self.players.len() + g + count(self.groups.take(g))),
        decreases g,
    {
        let n = self.players.len() as int;
        let k = m.media_h + CARD_GAP;
        if g == 0 {
            assert(0 <= n * k <= SPAN * n) by (nonlinear_arith)
                requires
                    0 <= n,
                    0 <= k <= SPAN,
            ;
            assert(n > 0 ==> 0 <= (n - 1) * k && (n - 1) * k + k == n * k) by (nonlinear_arith)
                requires
                    0 <= k,
            ;
            assert(self.groups.take(0) =~= Seq::empty());
        } else {
            self.lemma_top_bounds(m, g - 1);
            self.lemma_block_bounds(m, g - 1);
            crate::message_list::lemma_count_step(self.groups, g - 1);
        }
    }

    /// The whole content is within reach.
    pub proof fn lemma_reach(self, m: ListMeasure, g: int)
        requires
            m.suits(self),
            0 <= g <= self.groups.len(),
        ensures
            0 <= self.end_of(m, g) <= self.block_top(m, g) <= SPAN * MAX_CARDS,
            g < self.groups.len() ==> 0 <= self.block_h(m, g) <= self.block_step(m, g)
                && self.block_top(m, g) + self.block_step(m, g) <= SPAN * MAX_CARDS,
            g < self.groups.len() ==> forall|c: int|
                0 <= c < self.groups[g].cards.len() ==> self.block_top(m, g) <= (
                #[trigger] self.card_top(m, g, c)) <= SPAN * MAX_CARDS,
    {
        self.lemma_top_bounds(m, g);
        lemma_count_part(self.groups, g);
        if g < self.groups.len() {
            self.lemma_top_bounds(m, g + 1);
            lemma_count_part(self.groups, g + 1);
            self.lemma_block_bounds(m, g);
            let cards = m.groups@[g].cards@;
            assert forall|c: int| 0 <= c < self.groups[g].cards.len() implies self.block_top(m, g)
                <= (#[trigger] self.card_top(m, g, c)) <= SPAN * MAX_CARDS by {
                assert(0 <= fan_below(cards, c));
                assert(m.groups@[g].cards@[c].good());
            }
        }
    }

    pub proof fn lemma_media_reach(self, m: ListMeasure, p: int)
        requires
            m.suits(self),
            0 <= p <= self.players.len(),
        ensures
            0 <= self.media_top(m, p) <= SPAN * MAX_CARDS,
    {
        let k = m.media_h + CARD_GAP;
        lemma_count_part(self.groups, 0);
        assert(self.groups.take(0) =~= Seq::empty());
        assert(0 <= p * k <= SPAN * p) by (nonlinear_arith)
            requires
                0 <= p,
                0 <= k <= SPAN,
        ;
    }
}

/// More than one card's share of the content.
pub const SPAN: i128 = 0x400_0000_0000;

/// Some groups count no more than all of them.
proof fn lemma_count_part(groups: Seq<GroupView>, g: int)
    requires
        0 <= g <= groups.len(),
    ensures
        0 <= count(groups.take(g)) <= count(groups),
    decreases g,
{
    if g == 0 {
        assert(groups.take(0) =~= Seq::empty());
        if groups.len() > 0 {
            crate::message_list::lemma_count_step(groups, 0);
        } else {
            assert(groups =~= groups.take(0));
        }
    } else {
        lemma_count_part(groups, g - 1);
        crate::message_list::lemma_count_step(groups, g - 1);
    }
}

proof fn lemma_fan_bounds(cards: Seq<CardLayout>, n: int)
    requires
        0 <= n <= cards.len(),
        forall|c: int| 0 <= c < cards.len() ==> 0 <= (#[trigger] cards[c]).h <= MAX_LEN,
    ensures
        0 <= fan_below(cards, n) <= (MAX_LEN + CARD_GAP) * n,
    decreases n,
{
    if n > 0 {
        lemma_fan_bounds(cards, n - 1);
        assert(0 <= cards[n - 1].h <= MAX_LEN);
    }
}

proof fn lemma_fan_grows(cards: Seq<CardLayout>, a: int, b: int)
    requires
        0 <= a <= b <= cards.len(),
        forall|c: int| 0 <= c < cards.len() ==> 0 <= (#[trigger] cards[c]).h <= MAX_LEN,
    ensures
        fan_below(cards, a) <= fan_below(cards, b),
    decreases b - a,
{
    if a < b {
        lemma_fan_grows(cards, a, b - 1);
        assert(0 <= cards[b - 1].h);
    }
}

/// How a card is to be measured: with its body folded out or not, and with the place of the
/// caret kept or not.
#[derive(Clone, Copy, Debug, PartialEq, Eq, Structural)]
pub struct CardForm {
    pub expanded: bool,
    pub caret: bool,
}

impl CalendarMessageList {
    /// How group `g` shows.
    pub fn block_kind(&self, g: usize) -> (kind: BlockKind)
        requires
            g < self@.groups.len(),
        ensures
            kind == self@.kind(g as int),
    {
        let group = &self.groups[g];
        assert(self@.groups[g as int] == group@);
        if group.cards.len() == 0 {
            BlockKind::Empty
        } else if group.cards.len() == 1 {
            BlockKind::Single
        } else {
            let fanned = match &self.group_expanded {
                Some(key) => key.same(&group.key),
                None => false,
            };
            if fanned {
                BlockKind::Fan
            } else {
                BlockKind::Stack
            }
        }
    }

    /// How card `c` of group `g` is to be measured. A stack is one thing to click, so its top
    /// card has no caret and is not folded out.
    pub fn card_form(&self, g: usize, c: usize) -> (form: CardForm)
        requires
            g < self@.groups.len(),
            c < self@.groups[g as int].cards.len(),
        ensures
            form.caret == (self@.kind(g as int) != BlockKind::Stack),
            form.expanded == (form.caret && self@.body_expanded.contains(
                self@.groups[g as int].cards[c as int].id,
            )),
    {
        let id: u32 = self.groups[g].cards[c].id;
        assert(self@.groups[g as int].cards[c as int].id == id);
        let caret = self.block_kind(g) != BlockKind::Stack;
        CardForm { expanded: caret && self.body_expanded.contains(&id), caret }
    }

    /// Lay group `g` out from `top`.
    fn block(&self, m: &ListMeasure, g: usize, top: i128) -> (block: Block)
        requires
            m.suits(self@),
            g < self@.groups.len(),
            top == self@.block_top(*m, g as int),
        ensures
            self@.is_block(*m, g as int, block),
    {
        let kind = self.block_kind(g);
        let cards = &m.groups[g].cards;
        let ghost view = self@;
        proof {
            view.lemma_reach(*m, g as int);
            view.lemma_block_bounds(*m, g as int);
            assert(m.groups@[g as int].cards@.len() == view.groups[g as int].cards.len());
        }
        match kind {
            BlockKind::Empty => Block { kind, top, h: 0, cards: Vec::new() },
            BlockKind::Fan => {
                let mut tops: Vec<i128> = Vec::new();
                let mut c: usize = 0;
                let mut y: i128 = top + GROUP_HEADER_H;
                while c < cards.len()
                    invariant
                        c <= cards@.len(),
                        view == self@,
                        m.suits(view),
                        g < view.groups.len(),
                        *cards == m.groups@[g as int].cards,
                        cards@.len() == view.groups[g as int].cards.len(),
                        view.kind(g as int) == BlockKind::Fan,
                        top == view.block_top(*m, g as int),
                        0 <= top <= SPAN * MAX_CARDS,
                        y == top + GROUP_HEADER_H + fan_below(cards@, c as int),
                        tops@.len() == c,
                        forall|d: int|
                            0 <= d < c ==> #[trigger] tops@[d] == view.card_top(*m, g as int, d),
                        top + GROUP_HEADER_H + fan_below(cards@, cards@.len() as int) <= SPAN
                            * MAX_CARDS + CARD_GAP,
                    decreases cards@.len() - c,
                {
                    proof {
                        view.lemma_block_bounds(*m, g as int);
                        assert(m.groups@[g as int].cards@[c as int].good());
                        assert(0 <= fan_below(m.groups@[g as int].cards@, c as int));
                    }
                    tops.push(y);
                    y = y + cards[c].h as i128 + CARD_GAP;
                    c = c + 1;
                }
                Block { kind, top, h: y - CARD_GAP - top, cards: tops }
            },
            BlockKind::Single => {
                assert(m.groups@[g as int].cards@[0].good());
                let mut tops: Vec<i128> = Vec::new();
                tops.push(top);
                Block { kind, top, h: cards[0].h as i128, cards: tops }
            },
            BlockKind::Stack => {
                assert(m.groups@[g as int].cards@[0].good());
                let mut tops: Vec<i128> = Vec::new();
                tops.push(top);
                let depth: usize = m.shown_peeks(cards.len());
                Block { kind, top, h: cards[0].h as i128 + m.peek_h(depth) as i128, cards: tops }
            },
        }
    }

    /// Lay everything out: media cards, then the groups, one below the other. Nothing is left
    /// out; the list scrolls to what does not fit.
    pub fn layout(&self, m: &ListMeasure) -> (layout: ListLayout)
        requires
            m.suits(self@),
        ensures
            self@.is_layout(*m, layout),
    {
        let ghost view = self@;
        let mut media: Vec<i128> = Vec::new();
        let mut y: i128 = 0;
        let mut end: i128 = 0;
        let mut p: usize = 0;
        while p < self.players.len()
            invariant
                p <= self.players@.len(),
                view == self@,
                m.suits(view),
                y == view.media_top(*m, p as int),
                end == if p == 0 {
                    0
                } else {
                    view.media_top(*m, p - 1) + m.media_h
                },
                media@.len() == p,
                forall|q: int| 0 <= q < p ==> #[trigger] media@[q] == view.media_top(*m, q),
            decreases self.players@.len() - p,
        {
            proof {
                let k = m.media_h + CARD_GAP;
                view.lemma_media_reach(*m, p as int);
                assert((p + 1) * k == p * k + k) by (nonlinear_arith);
            }
            media.push(y);
            end = y + m.media_h as i128;
            y = y + m.media_h as i128 + CARD_GAP;
            p = p + 1;
        }
        let mut blocks: Vec<Block> = Vec::new();
        let mut g: usize = 0;
        while g < self.groups.len()
            invariant
                g <= self.groups@.len(),
                view == self@,
                m.suits(view),
                y == view.block_top(*m, g as int),
                end == view.end_of(*m, g as int),
                blocks@.len() == g,
                forall|h: int| 0 <= h < g ==> view.is_block(*m, h, #[trigger] blocks@[h]),
            decreases self.groups@.len() - g,
        {
            let block = self.block(m, g, y);
            proof {
                view.lemma_reach(*m, g as int);
                view.lemma_block_bounds(*m, g as int);
            }
            match block.kind {
                BlockKind::Empty => {},
                BlockKind::Fan => {
                    end = y + block.h;
                    y = y + block.h + CARD_GAP + m.fan_margin as i128;
                },
                _ => {
                    end = y + block.h;
                    y = y + block.h + CARD_GAP;
                },
            }
            blocks.push(block);
            g = g + 1;
        }
        ListLayout { media, blocks, content_h: end }
    }

    /// Where the cards that show below the top one of stack `g` are, from the top one's corner,
    /// the shallowest first: each as tall as the top one, further down and narrower.
    pub fn stack_peeks(&self, m: &ListMeasure, g: usize) -> (peeks: Vec<Area>)
        requires
            m.suits(self@),
            g < self@.groups.len(),
            self@.kind(g as int) == BlockKind::Stack,
        ensures
            peeks@.len() == m.depth(self@.groups[g as int].cards.len() as int),
            forall|i: int|
                0 <= i < peeks@.len() ==> {
                    &&& (#[trigger] peeks@[i]).x == (i + 1) * m.peek_inset
                    &&& peeks@[i].y == peek_below(m.peeks@, i + 1)
                    &&& peeks@[i].w == m.card_w() - 2 * ((i + 1) * m.peek_inset)
                    &&& peeks@[i].h == m.groups@[g as int].cards@[0].h
                },
    {
        let cards = &m.groups[g].cards;
        assert(cards@.len() == self@.groups[g as int].cards.len());
        assert(m.groups@[g as int].cards@[0].good());
        let n: usize = m.shown_peeks(cards.len());
        let w: i128 = m.list_w as i128 - LIST_SCROLL_R;
        let mut peeks: Vec<Area> = Vec::new();
        let mut i: usize = 0;
        while i < n
            invariant
                m.suits(self@),
                g < self@.groups.len(),
                *cards == m.groups@[g as int].cards,
                cards@.len() > 0,
                i <= n <= m.peeks@.len(),
                w == m.card_w(),
                peeks@.len() == i,
                forall|j: int|
                    0 <= j < i ==> {
                        &&& (#[trigger] peeks@[j]).x == (j + 1) * m.peek_inset
                        &&& peeks@[j].y == peek_below(m.peeks@, j + 1)
                        &&& peeks@[j].w == m.card_w() - 2 * ((j + 1) * m.peek_inset)
                        &&& peeks@[j].h == m.groups@[g as int].cards@[0].h
                    },
            decreases n - i,
        {
            let depth: i128 = i as i128 + 1;
            assert(0 <= depth * m.peek_inset <= 0x1_0000_0000_0000_0000 * 0x100_0000_0000)
                by (nonlinear_arith)
                requires
                    0 <= depth <= 0x1_0000_0000_0000_0000,
                    0 <= m.peek_inset <= 0x100_0000_0000,
            ;
            let inset: i128 = depth * m.peek_inset as i128;
            peeks.push(
                Area {
                    x: inset,
                    y: m.peek_h(i + 1) as i128,
                    w: w - 2 * inset,
                    h: cards[0].h as i128,
                },
            );
            i = i + 1;
        }
        peeks
    }

    fn controls_h(&self) -> (h: i128)
        ensures
            h == self@.controls_h(),
    {
        if self.can_clear() {
            CONTROLS_PAD + CLEAR_H + CONTROLS_PAD_B
        } else {
            0
        }
    }

    /// How much of the content shows in a popover this tall: what is between the top inset
    /// and the controls row.
    pub fn viewport_h(&self, height: i128) -> (h: i128)
        requires
            -FAR <= height <= FAR,
        ensures
            h == self@.viewport_h(height as int),
    {
        let room: i128 = height - self.controls_h() - LIST_PAD;
        if room < 0 {
            0
        } else {
            room
        }
    }

    /// The scroll offset, clamped to what there is.
    pub fn scrolled(&self, content_h: i128, height: i128) -> (offset: i128)
        requires
            -FAR <= height <= FAR,
            0 <= content_h <= FAR,
        ensures
            offset == within(
                self.scroll as int,
                at_least(content_h - self@.viewport_h(height as int), 0),
            ),
    {
        let most: i128 = content_h - self.viewport_h(height);
        if self.scroll < 0 || most <= 0 {
            0
        } else if self.scroll > most {
            most
        } else {
            self.scroll
        }
    }

    /// Scroll by `delta`, down if that is positive. Returns whether the list moved. An offset
    /// left too large by content that shrank counts as the end it is clamped to, so the first
    /// scroll back moves.
    pub fn scroll_by(&mut self, m: &ListMeasure, delta: i64, height: i128) -> (moved: bool)
        requires
            m.suits(old(self)@),
            -FAR <= height <= FAR,
        ensures
            final(self)@ == (ListView { scroll: final(self)@.scroll, ..old(self)@ }),
            final(self)@.scroll == within(
                old(self)@.scrolled(*m, height as int) + delta,
                old(self)@.max_scroll(*m, height as int),
            ),
            moved == (final(self)@.scroll != old(self)@.scrolled(*m, height as int)),
    {
        let layout = self.layout(m);
        proof {
            self@.lemma_reach(*m, self@.groups.len() as int);
        }
        let current: i128 = self.scrolled(layout.content_h, height);
        let room: i128 = layout.content_h - self.viewport_h(height);
        let most: i128 = if room < 0 {
            0
        } else {
            room
        };
        let wanted: i128 = current + delta as i128;
        let after: i128 = if wanted < 0 {
            0
        } else if wanted > most {
            most
        } else {
            wanted
        };
        self.scroll = after;
        after != current
    }

    /// The list's height with nothing scrolled: the popover grows to this, and the list
    /// scrolls once it cannot.
    pub fn natural_height(&self, m: &ListMeasure) -> (h: i128)
        requires
            m.suits(self@),
        ensures
            h == LIST_PAD + self@.content_h(*m) + self@.controls_h(),
            0 <= h <= FAR,
    {
        let layout = self.layout(m);
        proof {
            self@.lemma_reach(*m, self@.groups.len() as int);
        }
        LIST_PAD + layout.content_h + self.controls_h()
    }

    /// Whether the content overflows the viewport by more than half a pixel, so that the list
    /// clips and shows a scrollbar.
    pub fn overflowing(&self, m: &ListMeasure, height: i128) -> (over: bool)
        requires
            m.suits(self@),
            -FAR <= height <= FAR,
        ensures
            over == (self@.content_h(*m) > self@.viewport_h(height as int) + UNITS / 2),
    {
        self.layout(m).content_h > self.viewport_h(height) + UNITS / 2
    }

    /// The Clear pill, while there is something to clear.
    pub fn clear_rect(&self, m: &ListMeasure, height: i128) -> (pill: Option<Area>)
        requires
            m.suits(self@),
            -FAR <= height <= FAR,
        ensures
            pill is Some <==> self@.groups.len() > 0,
            pill matches Some(area) ==> area == (Area {
                x: (LIST_PAD + CONTROLS_PAD) as i128,
                y: (height - CONTROLS_PAD_B - CLEAR_H) as i128,
                w: m.clear_w as i128,
                h: CLEAR_H,
            }),
            pill matches Some(area) ==> forall|x: int, y: int| #[trigger]
                area.has(x, y) == self@.over_clear(*m, height as int, x, y),
    {
        if !self.can_clear() {
            return None;
        }
        Some(
            Area {
                x: LIST_PAD + CONTROLS_PAD,
                y: height - CONTROLS_PAD_B - CLEAR_H,
                w: m.clear_w as i128,
                h: CLEAR_H,
            },
        )
    }
}

impl CalendarMessageList {
    /// What a point of the popover is over.
    pub fn spot_at(&self, m: &ListMeasure, height: i128, x: i64, y: i64) -> (spot: Spot)
        requires
            m.suits(self@),
            -FAR <= height <= FAR,
        ensures
            spot == self@.spot(*m, height as int, x as int, y as int),
            self@.on_list(spot),
    {
        let left: i128 = x as i128;
        let down: i128 = y as i128;
        if self.can_clear() && LIST_PAD + CONTROLS_PAD <= left && left < LIST_PAD + CONTROLS_PAD
            + m.clear_w as i128 && height - CONTROLS_PAD_B - CLEAR_H <= down && down < height
            - CONTROLS_PAD_B {
            return Spot::Clear;
        }
        if left < 0 || left >= m.list_w as i128 || down < LIST_PAD || down >= LIST_PAD
            + self.viewport_h(height) {
            return Spot::Nothing;
        }
        let layout = self.layout(m);
        proof {
            self@.lemma_reach(*m, self@.groups.len() as int);
        }
        let off_y: i128 = LIST_PAD - self.scrolled(layout.content_h, height);
        self.content_spot(m, &layout, left, down - off_y)
    }

    /// What a point of the content is over.
    fn content_spot(&self, m: &ListMeasure, layout: &ListLayout, x: i128, y: i128) -> (spot: Spot)
        requires
            m.suits(self@),
            self@.is_layout(*m, *layout),
            -FAR <= x <= FAR,
            -FAR <= y <= FAR,
        ensures
            spot == self@.content_spot(*m, x as int, y as int),
            self@.on_list(spot),
    {
        let ghost view = self@;
        let ghost over_player = view.over_player(*m, x as int, y as int);
        let ghost over_block = view.over_block(*m, x as int, y as int);
        let ghost players = view.players.len() as int;
        let ghost groups = view.groups.len() as int;
        let over_column = LIST_PAD <= x && x < LIST_PAD + (m.list_w as i128 - LIST_SCROLL_R);
        let mut p: usize = 0;
        while p < self.players.len()
            invariant
                p <= self.players@.len(),
                view == self@,
                players == view.players.len(),
                m.suits(view),
                view.is_layout(*m, *layout),
                -FAR <= x <= FAR,
                -FAR <= y <= FAR,
                over_column == (LIST_PAD <= x && x < LIST_PAD + m.card_w()),
                over_player == view.over_player(*m, x as int, y as int),
                first_where(players, over_player, 0) == first_where(players, over_player, p as int),
            decreases self.players@.len() - p,
        {
            let top: i128 = layout.media[p];
            proof {
                view.lemma_media_reach(*m, p as int);
            }
            assert(over_player(p as int) == (over_column && top <= y < top + m.media_h));
            if over_column && top <= y && y < top + m.media_h as i128 {
                let control = self.live_control(m, p, x - LIST_PAD, y - top);
                return Spot::Player { p, control };
            }
            p = p + 1;
        }
        let mut g: usize = 0;
        while g < self.groups.len()
            invariant
                g <= self.groups@.len(),
                view == self@,
                players == view.players.len(),
                groups == view.groups.len(),
                m.suits(view),
                view.is_layout(*m, *layout),
                -FAR <= x <= FAR,
                -FAR <= y <= FAR,
                over_column == (LIST_PAD <= x && x < LIST_PAD + m.card_w()),
                over_player == view.over_player(*m, x as int, y as int),
                over_block == view.over_block(*m, x as int, y as int),
                first_where(players, over_player, 0) == players,
                first_where(groups, over_block, 0) == first_where(groups, over_block, g as int),
            decreases self.groups@.len() - g,
        {
            let block = &layout.blocks[g];
            proof {
                view.lemma_reach(*m, g as int);
                assert(view.is_block(*m, g as int, layout.blocks@[g as int]));
            }
            assert(over_block(g as int) == (over_column && block.top <= y < block.top + block.h));
            if over_column && block.top <= y && y < block.top + block.h {
                return self.spot_in(m, block, g, x, y);
            }
            g = g + 1;
        }
        Spot::Nothing
    }

    /// The button under a point of media card `p`, if it reacts.
    fn live_control(&self, m: &ListMeasure, p: usize, x: i128, y: i128) -> (control: Option<
        MediaControl,
    >)
        requires
            m.suits(self@),
            p < self@.players.len(),
        ensures
            control == match m.control(x as int, y as int) {
                Some(control) if self@.players[p as int].reacts(control) => Some(control),
                _ => None,
            },
    {
        let player = &self.players[p];
        assert(self@.players[p as int] == player@);
        let control = if m.previous.contains(x, y) {
            MediaControl::Previous
        } else if m.play_pause.contains(x, y) {
            MediaControl::PlayPause
        } else if m.next.contains(x, y) {
            MediaControl::Next
        } else {
            return None;
        };
        if player.is_sensitive(control) {
            Some(control)
        } else {
            None
        }
    }

    /// What a point of the content is over, in group `g`.
    fn spot_in(&self, m: &ListMeasure, block: &Block, g: usize, x: i128, y: i128) -> (spot: Spot)
        requires
            m.suits(self@),
            g < self@.groups.len(),
            self@.is_block(*m, g as int, *block),
            -FAR <= x <= FAR,
            -FAR <= y <= FAR,
        ensures
            spot == self@.spot_in(*m, g as int, x as int, y as int),
            self@.on_list(spot),
    {
        let ghost view = self@;
        let cards = &m.groups[g].cards;
        proof {
            view.lemma_reach(*m, g as int);
            assert(m.groups@[g as int].cards@.len() == view.groups[g as int].cards.len());
        }
        match block.kind {
            BlockKind::Empty => Spot::Nothing,
            BlockKind::Single => {
                assert(m.groups@[g as int].cards@[0].good());
                Spot::Card { g, c: 0, zone: cards[0].zone_at(x - LIST_PAD, y - block.top) }
            },
            BlockKind::Stack => {
                assert(m.groups@[g as int].cards@[0].good());
                Spot::Stack { g, close: cards[0].close.contains(x - LIST_PAD, y - block.top) }
            },
            BlockKind::Fan => {
                let left: i128 = LIST_PAD + (m.list_w as i128 - LIST_SCROLL_R) - GROUP_HEADER_PAD
                    - GROUP_COLLAPSE_D;
                let top: i128 = block.top + GROUP_HEADER_PAD;
                if left <= x && x < left + GROUP_COLLAPSE_D && top <= y && y < top
                    + GROUP_COLLAPSE_D {
                    return Spot::Collapse(g);
                }
                let ghost over = view.over_card(*m, g as int, x as int, y as int);
                let ghost n = cards@.len() as int;
                let over_column = LIST_PAD <= x && x < LIST_PAD + (m.list_w as i128 - LIST_SCROLL_R);
                let mut c: usize = 0;
                while c < cards.len()
                    invariant
                        c <= cards@.len(),
                        n == cards@.len(),
                        view == self@,
                        m.suits(view),
                        g < view.groups.len(),
                        view.is_block(*m, g as int, *block),
                        view.kind(g as int) == BlockKind::Fan,
                        *cards == m.groups@[g as int].cards,
                        n == view.groups[g as int].cards.len(),
                        -FAR <= x <= FAR,
                        -FAR <= y <= FAR,
                        over_column == (LIST_PAD <= x && x < LIST_PAD + m.card_w()),
                        !view.over_collapse(*m, g as int, x as int, y as int),
                        over == view.over_card(*m, g as int, x as int, y as int),
                        first_where(n, over, 0) == first_where(n, over, c as int),
                    decreases cards@.len() - c,
                {
                    let card_top: i128 = block.cards[c];
                    proof {
                        view.lemma_reach(*m, g as int);
                        assert(view.block_top(*m, g as int) <= view.card_top(
                            *m,
                            g as int,
                            c as int,
                        ));
                        assert(m.groups@[g as int].cards@[c as int].good());
                    }
                    assert(over(c as int) == (over_column && card_top <= y < card_top
                        + cards@[c as int].h));
                    if over_column && card_top <= y && y < card_top + cards[c].h as i128 {
                        return Spot::Card {
                            g,
                            c,
                            zone: cards[c].zone_at(x - LIST_PAD, y - card_top),
                        };
                    }
                    c = c + 1;
                }
                Spot::Header(g)
            },
        }
    }

    /// What a click at a point of the popover hits.
    pub fn hit(&self, m: &ListMeasure, height: i128, x: i64, y: i64) -> (hit: Option<ListHit>)
        requires
            m.suits(self@),
            -FAR <= height <= FAR,
        ensures
            hit_view(hit) == self@.hit_of(self@.spot(*m, height as int, x as int, y as int)),
    {
        let spot = self.spot_at(m, height, x, y);
        self.resolve(spot)
    }

    /// What a click on a spot means. A button that does not react lets the click through to
    /// its card; anywhere on a stack but its close button fans the group out; anywhere on a
    /// fanned-out group but its cards collapses it.
    pub fn resolve(&self, spot: Spot) -> (hit: Option<ListHit>)
        requires
            self@.on_list(spot),
        ensures
            hit_view(hit) == self@.hit_of(spot),
    {
        match spot {
            Spot::Nothing => None,
            Spot::Clear => Some(ListHit::Clear),
            Spot::Player { p, control } => {
                assert(self@.players[p as int] == self.players@[p as int]@);
                let bus_name = self.players[p].bus_name.clone();
                match control {
                    Some(control) => Some(ListHit::MediaControl { bus_name, control }),
                    None => Some(ListHit::MediaBody(bus_name)),
                }
            },
            Spot::Card { g, c, zone } => {
                let card = &self.groups[g].cards[c];
                assert(self@.groups[g as int].cards[c as int] == card@);
                Some(
                    match zone {
                        Some(CardZone::Close) => ListHit::Close(card.id),
                        Some(CardZone::Caret) => ListHit::ToggleExpand(card.id),
                        Some(CardZone::Action(i)) => ListHit::Action {
                            id: card.id,
                            key: card.actions[i].clone(),
                        },
                        None => ListHit::Body {
                            id: card.id,
                            has_default: card.has_default_action,
                        },
                    },
                )
            },
            Spot::Stack { g, close } => {
                assert(self@.groups[g as int] == self.groups@[g as int]@);
                if close {
                    Some(ListHit::CloseGroup(self.ids(g)))
                } else {
                    Some(ListHit::ExpandGroup(self.groups[g].key.clone()))
                }
            },
            Spot::Collapse(_) => Some(ListHit::CollapseGroup),
            Spot::Header(_) => Some(ListHit::CollapseGroup),
        }
    }

    /// The notifications of group `g`.
    fn ids(&self, g: usize) -> (ids: Vec<u32>)
        requires
            g < self@.groups.len(),
        ensures
            ids@ == ids_of(self@.groups[g as int]),
    {
        let ghost group = self@.groups[g as int];
        let mut ids: Vec<u32> = Vec::new();
        let mut c: usize = 0;
        while c < self.groups[g].cards.len()
            invariant
                g < self@.groups.len(),
                group == self@.groups[g as int],
                c <= self.groups@[g as int].cards@.len(),
                ids@.len() == c,
                forall|d: int| 0 <= d < c ==> #[trigger] ids@[d] == group.cards[d].id,
            decreases self.groups@[g as int].cards@.len() - c,
        {
            ids.push(self.groups[g].cards[c].id);
            c = c + 1;
        }
        assert(ids@ =~= ids_of(group));
        ids
    }

    /// What lights up under a point of the popover.
    pub fn hover_zone(&self, m: &ListMeasure, height: i128, x: i64, y: i64) -> (hover: Option<
        ListHover,
    >)
        requires
            m.suits(self@),
            -FAR <= height <= FAR,
        ensures
            crate::message_list::hover_view(hover) == self@.hover_of(
                self@.spot(*m, height as int, x as int, y as int),
            ),
    {
        let spot = self.spot_at(m, height, x, y);
        match spot {
            Spot::Nothing => None,
            Spot::Clear => Some(ListHover::Clear),
            Spot::Player { p, control } => {
                assert(self@.players[p as int] == self.players@[p as int]@);
                Some(ListHover::Media { bus_name: self.players[p].bus_name.clone(), control })
            },
            Spot::Card { g, c, zone } => {
                let id: u32 = self.groups[g].cards[c].id;
                assert(self@.groups[g as int].cards[c as int].id == id);
                Some(ListHover::Card { id, zone })
            },
            Spot::Stack { g, close } => {
                let id: u32 = self.groups[g].cards[0].id;
                assert(self@.groups[g as int].cards[0].id == id);
                Some(
                    ListHover::Card {
                        id,
                        zone: if close {
                            Some(CardZone::Close)
                        } else {
                            None
                        },
                    },
                )
            },
            Spot::Collapse(_) => Some(ListHover::GroupCollapse),
            Spot::Header(_) => None,
        }
    }

    /// Follow the pointer; `None` once it left. Returns whether what lights up changed. Only a
    /// change on the cards is a new revision: the Clear pill is drawn apart from them.
    pub fn hover(&mut self, m: &ListMeasure, height: i128, pos: Option<(i64, i64)>) -> (changed:
        bool)
        requires
            m.suits(old(self)@),
            -FAR <= height <= FAR,
        ensures
            final(self)@ == old(self)@.hovering(old(self)@.hover_at(*m, height as int, pos)),
            changed == (old(self)@.hover_at(*m, height as int, pos) != old(self)@.hovered),
    {
        let new = match pos {
            Some((x, y)) => self.hover_zone(m, height, x, y),
            None => None,
        };
        self.set_hovered(new)
    }
}

/// A hit by its characters.
pub open spec fn hit_view(hit: Option<ListHit>) -> Option<HitView> {
    match hit {
        Some(h) => Some(h@),
        None => None,
    }
}

/// The notifications of a group, in order.
pub open spec fn ids_of(group: GroupView) -> Seq<u32> {
    Seq::new(group.cards.len(), |c: int| group.cards[c].id)
}

impl ListView {
    /// The spot is on something that is there.
    pub open spec fn on_list(self, spot: Spot) -> bool {
        match spot {
            Spot::Player { p, .. } => p < self.players.len(),
            Spot::Card { g, c, zone } => {
                &&& g < self.groups.len()
                &&& c < self.groups[g as int].cards.len()
                &&& zone matches Some(CardZone::Action(i)) ==> i
                    < self.groups[g as int].cards[c as int].actions.len()
            },
            Spot::Stack { g, .. } => g < self.groups.len() && self.groups[g as int].cards.len() > 0,
            _ => true,
        }
    }

    /// What a click on a spot means.
    pub open spec fn hit_of(self, spot: Spot) -> Option<HitView> {
        match spot {
            Spot::Nothing => None,
            Spot::Clear => Some(HitView::Clear),
            Spot::Player { p, control } => Some(
                match control {
                    Some(control) => HitView::MediaControl {
                        bus_name: self.players[p as int].bus_name,
                        control,
                    },
                    None => HitView::MediaBody(self.players[p as int].bus_name),
                },
            ),
            Spot::Card { g, c, zone } => {
                let card = self.groups[g as int].cards[c as int];
                Some(
                    match zone {
                        Some(CardZone::Close) => HitView::Close(card.id),
                        Some(CardZone::Caret) => HitView::ToggleExpand(card.id),
                        Some(CardZone::Action(i)) => HitView::Action {
                            id: card.id,
                            key: card.actions[i as int],
                        },
                        None => HitView::Body {
                            id: card.id,
                            has_default: card.has_default_action,
                        },
                    },
                )
            },
            Spot::Stack { g, close } => Some(
                if close {
                    HitView::CloseGroup(ids_of(self.groups[g as int]))
                } else {
                    HitView::ExpandGroup(self.groups[g as int].key)
                },
            ),
            Spot::Collapse(_) => Some(HitView::CollapseGroup),
            Spot::Header(_) => Some(HitView::CollapseGroup),
        }
    }

    /// What lights up over a spot: cards and their buttons, a stack's top card, the collapse
    /// button and the Clear pill.
    pub open spec fn hover_of(self, spot: Spot) -> Option<HoverView> {
        match spot {
            Spot::Nothing => None,
            Spot::Clear => Some(HoverView::Clear),
            Spot::Player { p, control } => Some(
                HoverView::Media { bus_name: self.players[p as int].bus_name, control },
            ),
            Spot::Card { g, c, zone } => Some(
                HoverView::Card { id: self.groups[g as int].cards[c as int].id, zone },
            ),
            Spot::Stack { g, close } => Some(
                HoverView::Card {
                    id: self.groups[g as int].cards[0].id,
                    zone: if close {
                        Some(CardZone::Close)
                    } else {
                        None
                    },
                },
            ),
            Spot::Collapse(_) => Some(HoverView::GroupCollapse),
            Spot::Header(_) => None,
        }
    }

    pub open spec fn hover_at(self, m: ListMeasure, height: int, pos: Option<(i64, i64)>) -> Option<
        HoverView,
    > {
        match pos {
            Some(at) => self.hover_of(self.spot(m, height, at.0 as int, at.1 as int)),
            None => None,
        }
    }
}

/// A point of a card is on its close button, else on its caret if there is more to fold out, else
/// on the first action button that it is in, and else on none.
pub proof fn law_a_point_is_on_its_button(
    card: CardLayout,
    x: i128,
    y: i128,
    zone: Option<CardZone>,
    i: int,
)
    requires
        call_ensures(CardLayout::zone_at, (&card, x, y), zone),
    ensures
        ({
            let (px, py) = (x as int, y as int);
            let caret = card.can_expand && card.expand is Some && card.expand->Some_0.has(px, py);
            let button = 0 <= i < card.actions@.len() && card.actions@[i].has(px, py);
            let first = forall|j: int| 0 <= j < i ==> !(#[trigger] card.actions@[j]).has(px, py);
            &&& card.close.has(px, py) <==> zone == Some(CardZone::Close)
            &&& !card.close.has(px, py) && caret <==> zone == Some(CardZone::Caret)
            &&& !card.close.has(px, py) && !caret && button && first ==> zone == Some(
                CardZone::Action(i as usize),
            )
            &&& button ==> zone is Some
            &&& zone matches Some(CardZone::Action(k)) ==> k < card.actions@.len()
                && card.actions@[k as int].has(px, py)
        }),
{
    assert(card.actions.len() == card.actions@.len());
    let over = card.over_action(x as int, y as int);
    let n = card.actions@.len() as int;
    lemma_first_where(n, over, 0);
    let k = first_where(n, over, 0);
    if 0 <= i < n && card.actions@[i].has(x as int, y as int) {
        assert(over(i));
    }
    if k < n {
        assert(over(k));
    }
}

/// A click on a card asks for what its place says, of that card: the close button closes it, the
/// caret folds it out, action button `i` invokes the card's own `i`th action, and the rest of the
/// card activates it.
pub proof fn law_a_click_on_a_card_is_its_own(
    list: CalendarMessageList,
    g: usize,
    c: usize,
    zone: Option<CardZone>,
    hit: Option<ListHit>,
)
    requires
        call_ensures(
            CalendarMessageList::resolve,
            (&list, Spot::Card { g, c, zone }),
            hit,
        ),
        g < list.groups@.len(),
        c < list.groups@[g as int].cards@.len(),
        zone matches Some(CardZone::Action(i)) ==> i
            < list.groups@[g as int].cards@[c as int].actions@.len(),
    ensures
        ({
            let card = list.groups@[g as int].cards@[c as int];
            match zone {
                Some(CardZone::Close) => hit == Some(ListHit::Close(card.id)),
                Some(CardZone::Caret) => hit == Some(ListHit::ToggleExpand(card.id)),
                Some(CardZone::Action(i)) => hit matches Some(ListHit::Action { id, key }) && id
                    == card.id && key@ == card.actions@[i as int]@,
                None => hit == Some(
                    ListHit::Body { id: card.id, has_default: card.has_default_action },
                ),
            }
        }),
{
    let card = list.groups@[g as int].cards@[c as int];
    assert(list@.groups[g as int].cards[c as int] == card@);
}

/// Where a point of the popover is in the content, on the part of it that shows.
pub open spec fn shows_at(
    m: ListMeasure,
    viewport_h: i128,
    offset: i128,
    x: int,
    y: int,
    at: int,
) -> bool {
    &&& 0 <= x < m.list_w
    &&& LIST_PAD <= y < LIST_PAD + viewport_h
    &&& at == y - LIST_PAD + offset
}

/// A click on a card that shows in full, plain or in a fan, is a click on that card, on the button
/// that the point is on in it.
pub proof fn law_a_click_hits_the_card_under_it(
    list: CalendarMessageList,
    m: ListMeasure,
    height: i128,
    x: i64,
    y: i64,
    hit: Option<ListHit>,
    layout: ListLayout,
    viewport_h: i128,
    offset: i128,
    g: int,
    c: int,
    at: int,
    zone: Option<CardZone>,
)
    requires
        m.suits(list@),
        -FAR <= height <= FAR,
        call_ensures(CalendarMessageList::hit, (&list, &m, height, x, y), hit),
        call_ensures(CalendarMessageList::layout, (&list, &m), layout),
        call_ensures(CalendarMessageList::viewport_h, (&list, height), viewport_h),
        call_ensures(CalendarMessageList::scrolled, (&list, layout.content_h, height), offset),
        shows_at(m, viewport_h, offset, x as int, y as int, at),
        0 <= g < layout.blocks@.len(),
        layout.blocks@[g].kind == BlockKind::Single || layout.blocks@[g].kind == BlockKind::Fan,
        0 <= c < layout.blocks@[g].cards@.len(),
        LIST_PAD <= x < LIST_PAD + m.list_w - LIST_SCROLL_R,
        layout.blocks@[g].cards@[c] <= at < layout.blocks@[g].cards@[c] + m.groups@[g].cards@[c].h,
        call_ensures(
            CardLayout::zone_at,
            (
                &m.groups@[g].cards@[c],
                (x - LIST_PAD) as i128,
                (at - layout.blocks@[g].cards@[c]) as i128,
            ),
            zone,
        ),
    ensures
        ({
            let card = list.groups@[g].cards@[c];
            match zone {
                Some(CardZone::Close) => hit == Some(ListHit::Close(card.id)),
                Some(CardZone::Caret) => hit == Some(ListHit::ToggleExpand(card.id)),
                Some(CardZone::Action(i)) => hit matches Some(ListHit::Action { id, key }) && id
                    == card.id && key@ == card.actions@[i as int]@,
                None => hit == Some(
                    ListHit::Body { id: card.id, has_default: card.has_default_action },
                ),
            }
        }),
{
    let view = list@;
    assert(list.groups.len() == list.groups@.len());
    assert(list.groups@[g].cards.len() == list.groups@[g].cards@.len());
    assert(view.groups[g] == list.groups@[g]@);
    assert(view.is_block(m, g, layout.blocks@[g]));
    assert(layout.blocks@[g].cards@[c] == view.card_top(m, g, c));
    view.lemma_reach(m, g);
    view.lemma_reach(m, view.groups.len() as int);
    assert(m.groups@[g].cards@.len() == view.groups[g].cards.len());
    assert(m.groups@[g].cards@[c].good());
    if view.kind(g) == BlockKind::Fan {
        view.law_point_in_card(m, g, c, x as int, at);
    } else {
        view.law_point_in_block(m, g, x as int, at);
    }
    assert(view.spot(m, height as int, x as int, y as int) == view.content_spot(
        m,
        x as int,
        at,
    ));
    assert(view.groups[g].cards[c] == list.groups@[g].cards@[c]@);
}

/// A click on a stack fans its group out, but for its top card's close button: that closes every
/// notification of the group.
pub proof fn law_a_click_on_a_stack_is_its_groups(
    list: CalendarMessageList,
    m: ListMeasure,
    height: i128,
    x: i64,
    y: i64,
    hit: Option<ListHit>,
    layout: ListLayout,
    viewport_h: i128,
    offset: i128,
    g: int,
    at: int,
)
    requires
        m.suits(list@),
        -FAR <= height <= FAR,
        call_ensures(CalendarMessageList::hit, (&list, &m, height, x, y), hit),
        call_ensures(CalendarMessageList::layout, (&list, &m), layout),
        call_ensures(CalendarMessageList::viewport_h, (&list, height), viewport_h),
        call_ensures(CalendarMessageList::scrolled, (&list, layout.content_h, height), offset),
        shows_at(m, viewport_h, offset, x as int, y as int, at),
        0 <= g < layout.blocks@.len(),
        layout.blocks@[g].kind == BlockKind::Stack,
        LIST_PAD <= x < LIST_PAD + m.list_w - LIST_SCROLL_R,
        layout.blocks@[g].top <= at < layout.blocks@[g].top + layout.blocks@[g].h,
    ensures
        ({
            let group = list.groups@[g];
            if m.groups@[g].cards@[0].close.has(x - LIST_PAD, at - layout.blocks@[g].top) {
                hit matches Some(ListHit::CloseGroup(ids)) && {
                    &&& ids@.len() == group.cards@.len()
                    &&& forall|c: int|
                        0 <= c < ids@.len() ==> #[trigger] ids@[c] == group.cards@[c].id
                }
            } else {
                hit matches Some(ListHit::ExpandGroup(key)) && key@ == group.key@
            }
        }),
{
    let view = list@;
    assert(list.groups.len() == list.groups@.len());
    assert(list.groups@[g].cards.len() == list.groups@[g].cards@.len());
    assert(view.groups[g] == list.groups@[g]@);
    assert(view.is_block(m, g, layout.blocks@[g]));
    view.lemma_reach(m, view.groups.len() as int);
    view.law_point_in_block(m, g, x as int, at);
    assert(view.spot(m, height as int, x as int, y as int) == view.content_spot(
        m,
        x as int,
        at,
    ));
    assert(view.groups[g] == list.groups@[g]@);
    assert forall|c: int| 0 <= c < list.groups@[g].cards@.len() implies #[trigger] view.groups[g].cards[c].id
        == list.groups@[g].cards@[c].id by {}
    if let Some(ListHit::CloseGroup(ids)) = hit {
        assert(ids@ == ids_of(view.groups[g]));
        assert forall|c: int| 0 <= c < ids@.len() implies #[trigger] ids@[c]
            == list.groups@[g].cards@[c].id by {
            assert(view.groups[g].cards[c].id == list.groups@[g].cards@[c].id);
        }
    }
}

/// Anywhere on a fanned-out group but on its cards, a click collapses it.
pub proof fn law_a_click_beside_the_fans_cards_collapses_it(
    list: CalendarMessageList,
    m: ListMeasure,
    height: i128,
    x: i64,
    y: i64,
    hit: Option<ListHit>,
    layout: ListLayout,
    viewport_h: i128,
    offset: i128,
    g: int,
    at: int,
)
    requires
        m.suits(list@),
        -FAR <= height <= FAR,
        call_ensures(CalendarMessageList::hit, (&list, &m, height, x, y), hit),
        call_ensures(CalendarMessageList::layout, (&list, &m), layout),
        call_ensures(CalendarMessageList::viewport_h, (&list, height), viewport_h),
        call_ensures(CalendarMessageList::scrolled, (&list, layout.content_h, height), offset),
        shows_at(m, viewport_h, offset, x as int, y as int, at),
        0 <= g < layout.blocks@.len(),
        layout.blocks@[g].kind == BlockKind::Fan,
        LIST_PAD <= x < LIST_PAD + m.list_w - LIST_SCROLL_R,
        layout.blocks@[g].top <= at < layout.blocks@[g].top + layout.blocks@[g].h,
        forall|c: int|
            0 <= c < layout.blocks@[g].cards@.len() ==> !((#[trigger] layout.blocks@[g].cards@[c])
                <= at < layout.blocks@[g].cards@[c] + m.groups@[g].cards@[c].h),
    ensures
        hit == Some(ListHit::CollapseGroup),
{
    let view = list@;
    assert(list.groups.len() == list.groups@.len());
    assert(list.groups@[g].cards.len() == list.groups@[g].cards@.len());
    assert(view.groups[g] == list.groups@[g]@);
    assert(view.is_block(m, g, layout.blocks@[g]));
    view.lemma_reach(m, view.groups.len() as int);
    view.law_point_in_block(m, g, x as int, at);
    assert(view.spot(m, height as int, x as int, y as int) == view.content_spot(
        m,
        x as int,
        at,
    ));
    let over = view.over_card(m, g, x as int, at);
    let n = m.groups@[g].cards@.len() as int;
    assert(n == view.groups[g].cards.len());
    lemma_first_where(n, over, 0);
    let c = first_where(n, over, 0);
    if c < n {
        assert(over(c));
        assert(layout.blocks@[g].cards@[c] == view.card_top(m, g, c));
    }
}

/// A click on a media card's button asks its player for that, if the button reacts; anywhere else
/// on the card it raises the player.
pub proof fn law_a_click_on_a_media_card_is_its_players(
    list: CalendarMessageList,
    m: ListMeasure,
    height: i128,
    x: i64,
    y: i64,
    hit: Option<ListHit>,
    layout: ListLayout,
    viewport_h: i128,
    offset: i128,
    p: int,
    at: int,
)
    requires
        m.suits(list@),
        -FAR <= height <= FAR,
        call_ensures(CalendarMessageList::hit, (&list, &m, height, x, y), hit),
        call_ensures(CalendarMessageList::layout, (&list, &m), layout),
        call_ensures(CalendarMessageList::viewport_h, (&list, height), viewport_h),
        call_ensures(CalendarMessageList::scrolled, (&list, layout.content_h, height), offset),
        shows_at(m, viewport_h, offset, x as int, y as int, at),
        0 <= p < layout.media@.len(),
        LIST_PAD <= x < LIST_PAD + m.list_w - LIST_SCROLL_R,
        layout.media@[p] <= at < layout.media@[p] + m.media_h,
    ensures
        ({
            let player = list.players@[p];
            let (px, py) = (x - LIST_PAD, at - layout.media@[p]);
            let on_previous = m.previous.has(px, py);
            let on_play = !on_previous && m.play_pause.has(px, py);
            let on_next = !on_previous && !on_play && m.next.has(px, py);
            let asked = if on_previous && player.can_previous {
                Some(MediaControl::Previous)
            } else if on_play && player.can_play_pause {
                Some(MediaControl::PlayPause)
            } else if on_next && player.can_next {
                Some(MediaControl::Next)
            } else {
                None
            };
            match asked {
                Some(control) => hit matches Some(ListHit::MediaControl { bus_name, control: c })
                    && c == control && bus_name@ == player.bus_name@,
                None => hit matches Some(ListHit::MediaBody(bus_name)) && bus_name@
                    == player.bus_name@,
            }
        }),
{
    let view = list@;
    let n = view.players.len() as int;
    assert(list.players.len() == list.players@.len());
    view.lemma_reach(m, view.groups.len() as int);
    let over = view.over_player(m, x as int, at);
    lemma_first_where(n, over, 0);
    let q = first_where(n, over, 0);
    assert(over(p));
    if q != p {
        assert(over(q));
        if q < p {
            view.law_media_apart(m, q, p, 0);
        } else {
            view.law_media_apart(m, p, q, 0);
        }
    }
    assert(view.players[p] == list.players@[p]@);
    assert(view.spot(m, height as int, x as int, y as int) == view.content_spot(
        m,
        x as int,
        at,
    ));
}

/// The Clear pill clears; and a point that is neither on it nor where the content shows is on
/// nothing.
pub proof fn law_the_pill_clears_and_outside_is_nothing(
    list: CalendarMessageList,
    m: ListMeasure,
    height: i128,
    x: i64,
    y: i64,
    hit: Option<ListHit>,
    pill: Option<Area>,
    viewport_h: i128,
)
    requires
        m.suits(list@),
        -FAR <= height <= FAR,
        call_ensures(CalendarMessageList::hit, (&list, &m, height, x, y), hit),
        call_ensures(CalendarMessageList::clear_rect, (&list, &m, height), pill),
        call_ensures(CalendarMessageList::viewport_h, (&list, height), viewport_h),
    ensures
        pill is Some && pill->Some_0.has(x as int, y as int) <==> hit == Some(ListHit::Clear),
        !(pill is Some && pill->Some_0.has(x as int, y as int)) && !(0 <= x < m.list_w && LIST_PAD
            <= y < LIST_PAD + viewport_h) ==> hit is None,
        pill is Some <==> list.groups@.len() > 0,
        pill matches Some(area) ==> area.y + area.h + CONTROLS_PAD_B == height && area.x == LIST_PAD
            + CONTROLS_PAD && area.w == m.clear_w && area.h == CLEAR_H,
{
    assert(list@.groups.len() == list.groups@.len());
}

/// Media cards stand above all groups, and everything in the list's own order: each starts a gap
/// below the end of the one before, a fan with its margin on top, and an empty group takes no
/// room.
pub proof fn law_the_list_runs_down_in_order(
    list: CalendarMessageList,
    m: ListMeasure,
    layout: ListLayout,
    g: int,
    p: int,
)
    requires
        m.suits(list@),
        call_ensures(CalendarMessageList::layout, (&list, &m), layout),
    ensures
        layout.media@.len() == list.players@.len(),
        layout.blocks@.len() == list.groups@.len(),
        layout.media@.len() > 0 ==> layout.media@[0] == 0,
        0 <= p < layout.media@.len() - 1 ==> layout.media@[p + 1] == layout.media@[p] + m.media_h
            + CARD_GAP,
        layout.blocks@.len() > 0 ==> layout.blocks@[0].top == if layout.media@.len() > 0 {
            layout.media@.last() + m.media_h + CARD_GAP
        } else {
            0
        },
        0 <= g < layout.blocks@.len() - 1 ==> layout.blocks@[g + 1].top == layout.blocks@[g].top
            + match layout.blocks@[g].kind {
            BlockKind::Empty => 0,
            BlockKind::Fan => layout.blocks@[g].h + CARD_GAP + m.fan_margin,
            _ => layout.blocks@[g].h + CARD_GAP,
        },
        layout.media@.len() == 0 && layout.blocks@.len() == 0 ==> layout.content_h == 0,
        layout.blocks@.len() > 0 && layout.blocks@.last().kind != BlockKind::Empty
            ==> layout.content_h == layout.blocks@.last().top + layout.blocks@.last().h,
        layout.blocks@.len() == 0 && layout.media@.len() > 0 ==> layout.content_h
            == layout.media@.last() + m.media_h,
{
    let view = list@;
    let n = view.players.len() as int;
    let k = m.media_h + CARD_GAP;
    assert((p + 1) * k == p * k + k) by (nonlinear_arith);
    assert((n - 1) * k + k == n * k) by (nonlinear_arith);
    assert(0 * k == 0);
    assert forall|h: int| 0 <= h < view.groups.len() implies view.is_block(
        m,
        h,
        #[trigger] layout.blocks@[h],
    ) by {}
    if 0 <= g < layout.blocks@.len() - 1 {
        assert(view.is_block(m, g, layout.blocks@[g]));
        assert(view.is_block(m, g + 1, layout.blocks@[g + 1]));
    }
    if layout.blocks@.len() > 0 {
        assert(view.is_block(m, 0, layout.blocks@[0]));
        assert(view.is_block(
            m,
            layout.blocks@.len() - 1,
            layout.blocks@[layout.blocks@.len() - 1],
        ));
    }
}

/// A group of one is a plain card; of more, a stack, or a fan if it is the one that is fanned out.
/// A plain card and a stack are as tall as the top card, a stack with what shows below it. A fan's
/// cards are all there, below its header and a gap apart, down to its end.
pub proof fn law_a_group_is_a_card_a_stack_or_a_fan(
    list: CalendarMessageList,
    m: ListMeasure,
    layout: ListLayout,
    g: int,
    c: int,
)
    requires
        m.suits(list@),
        call_ensures(CalendarMessageList::layout, (&list, &m), layout),
        0 <= g < layout.blocks@.len(),
    ensures
        ({
            let n = list.groups@[g].cards@.len() as int;
            let block = layout.blocks@[g];
            let open = list.group_expanded matches Some(key) && key@ == list.groups@[g].key@;
            let cards = m.groups@[g].cards@;
            &&& block.kind == if n == 0 {
                BlockKind::Empty
            } else if n == 1 {
                BlockKind::Single
            } else if open {
                BlockKind::Fan
            } else {
                BlockKind::Stack
            }
            &&& block.cards@.len() == if n <= 1 || open {
                n
            } else {
                1
            }
            &&& n == 0 ==> block.h == 0
            &&& n == 1 ==> block.h == cards[0].h && block.cards@[0] == block.top
            &&& n >= 2 && !open ==> block.h >= cards[0].h && block.cards@[0] == block.top
            &&& n >= 2 && open ==> {
                &&& block.cards@[0] == block.top + GROUP_HEADER_H
                &&& block.cards@[n - 1] + cards[n - 1].h == block.top + block.h
                &&& 0 <= c < n - 1 ==> block.cards@[c + 1] == block.cards@[c] + cards[c].h
                    + CARD_GAP
            }
        }),
{
    let view = list@;
    assert(list.groups.len() == list.groups@.len());
    assert(list.groups@[g].cards.len() == list.groups@[g].cards@.len());
    assert(view.groups[g] == list.groups@[g]@);
    assert(view.is_block(m, g, layout.blocks@[g]));
    assert(view.groups[g] == list.groups@[g]@);
    assert(m.groups@[g].cards@.len() == view.groups[g].cards.len());
    let n = view.groups[g].cards.len() as int;
    let cards = m.groups@[g].cards@;
    if n >= 2 {
        assert(0 <= peek_below(m.peeks@, m.depth(n)));
        if view.kind(g) == BlockKind::Fan {
            assert(layout.blocks@[g].cards@[n - 1] == view.card_top(m, g, n - 1));
            assert(layout.blocks@[g].cards@[0] == view.card_top(m, g, 0));
            assert(fan_below(cards, n) == fan_below(cards, n - 1) + cards[n - 1].h + CARD_GAP);
            if 0 <= c < n - 1 {
                assert(layout.blocks@[g].cards@[c] == view.card_top(m, g, c));
                assert(layout.blocks@[g].cards@[c + 1] == view.card_top(m, g, c + 1));
                assert(fan_below(cards, c + 1) == fan_below(cards, c) + cards[c].h + CARD_GAP);
            }
        }
    }
}

/// Scrolling moves the list by so much and no further than its ends: down for more, up for less,
/// and by nothing where all of it shows.
pub proof fn law_a_scroll_moves_within_the_content(
    list: &mut CalendarMessageList,
    m: &ListMeasure,
    delta: i64,
    height: i128,
    moved: bool,
    layout: ListLayout,
    viewport_h: i128,
    was: i128,
    is_at: i128,
)
    requires
        m.suits(old(list)@),
        call_ensures(CalendarMessageList::scroll_by, (list, m, delta, height), moved),
        call_ensures(CalendarMessageList::layout, (&*old(list), m), layout),
        call_ensures(CalendarMessageList::viewport_h, (&*old(list), height), viewport_h),
        call_ensures(
            CalendarMessageList::scrolled,
            (&*old(list), layout.content_h, height),
            was,
        ),
        call_ensures(
            CalendarMessageList::scrolled,
            (&*final(list), layout.content_h, height),
            is_at,
        ),
    ensures
        0 <= is_at,
        is_at > 0 ==> is_at <= layout.content_h - viewport_h,
        0 <= was + delta <= layout.content_h - viewport_h ==> is_at == was + delta,
        was + delta < 0 ==> is_at == 0,
        was + delta > layout.content_h - viewport_h && layout.content_h >= viewport_h ==> is_at
            == layout.content_h - viewport_h,
        layout.content_h <= viewport_h ==> is_at == 0,
        moved == (is_at != was),
{
}

/// What lights up under the pointer is what a click there would reach: a notification's close
/// button closes it, or its group; its caret folds it; its action button invokes an action of
/// its; the collapse button collapses; and where nothing lights up nothing is closed or invoked.
pub proof fn law_what_lights_up_is_what_is_clicked(
    list: CalendarMessageList,
    m: &ListMeasure,
    height: i128,
    x: i64,
    y: i64,
    hover: Option<ListHover>,
    hit: Option<ListHit>,
)
    requires
        m.suits(list@),
        -FAR <= height <= FAR,
        call_ensures(CalendarMessageList::hover_zone, (&list, m, height, x, y), hover),
        call_ensures(CalendarMessageList::hit, (&list, m, height, x, y), hit),
    ensures
        hit matches Some(ListHit::Close(id)) ==> crate::message_list::hover_view(hover) == Some(
            HoverView::Card { id, zone: Some(CardZone::Close) },
        ),
        hit matches Some(ListHit::ToggleExpand(id)) ==> crate::message_list::hover_view(hover)
            == Some(HoverView::Card { id, zone: Some(CardZone::Caret) }),
        hit matches Some(ListHit::Action { id, key }) ==> hover matches Some(ListHover::Card {
            id: lit,
            zone: Some(CardZone::Action(_)),
        }) && lit == id,
        hit matches Some(ListHit::MediaControl { bus_name, control }) ==> crate::message_list::hover_view(
            hover,
        ) == Some(HoverView::Media { bus_name: bus_name@, control: Some(control) }),
        hit == Some(ListHit::Clear) <==> hover == Some(ListHover::Clear),
        hover is None ==> hit is None || hit == Some(ListHit::CollapseGroup),
{
}

} // verus!
