//! The date menu's message list: media cards, then notifications grouped by their source.
//!
//! A source with one notification is a plain card. One with more is a collapsed stack, which
//! a click fans out into a list under a header; one source at a time is fanned out. Where all
//! of that is on the screen is in `message_layout`.

use vstd::prelude::*;

use crate::popover::MediaControl;
use crate::text::{opt_view, same_opt_text, same_text, same_texts, views};

verus! {

broadcast use vstd::std_specs::hash::group_hash_axioms;

/// Where a notification comes from.
#[derive(Debug, PartialEq, Eq)]
pub enum SourceKey {
    App(String),
    PidName(u32, String),
}

/// A source by its characters.
pub enum KeyView {
    App(Seq<char>),
    PidName(u32, Seq<char>),
}

impl View for SourceKey {
    type V = KeyView;

    open spec fn view(&self) -> KeyView {
        match *self {
            SourceKey::App(id) => KeyView::App(id@),
            SourceKey::PidName(pid, name) => KeyView::PidName(pid, name@),
        }
    }
}

impl Clone for SourceKey {
    fn clone(&self) -> (copy: Self)
        ensures
            copy == *self,
    {
        match self {
            SourceKey::App(id) => SourceKey::App(id.clone()),
            SourceKey::PidName(pid, name) => SourceKey::PidName(*pid, name.clone()),
        }
    }
}

impl SourceKey {
    /// Whether two sources are the same.
    pub fn same(&self, other: &SourceKey) -> (same: bool)
        ensures
            same == (self@ == other@),
    {
        match (self, other) {
            (SourceKey::App(a), SourceKey::App(b)) => same_text(a.as_str(), b.as_str()),
            (SourceKey::PidName(p, a), SourceKey::PidName(q, b)) => *p == *q && same_text(
                a.as_str(),
                b.as_str(),
            ),
            _ => false,
        }
    }
}

/// A notification.
pub struct CardContent {
    pub id: u32,
    /// The keys of its action buttons.
    pub actions: Vec<String>,
    pub has_default_action: bool,
    /// Everything else the card shows.
    pub shown: Vec<String>,
}

pub struct CardView {
    pub id: u32,
    pub actions: Seq<Seq<char>>,
    pub has_default_action: bool,
    pub shown: Seq<Seq<char>>,
}

impl View for CardContent {
    type V = CardView;

    open spec fn view(&self) -> CardView {
        CardView {
            id: self.id,
            actions: views(self.actions@),
            has_default_action: self.has_default_action,
            shown: views(self.shown@),
        }
    }
}

impl CardContent {
    fn same(&self, other: &CardContent) -> (same: bool)
        ensures
            same == (self@ == other@),
    {
        self.id == other.id && self.has_default_action == other.has_default_action && same_texts(
            &self.actions,
            &other.actions,
        ) && same_texts(&self.shown, &other.shown)
    }
}

/// The notifications of one source, the newest first.
pub struct CardGroup {
    pub key: SourceKey,
    pub source_title: String,
    pub cards: Vec<CardContent>,
}

pub struct GroupView {
    pub key: KeyView,
    pub source_title: Seq<char>,
    pub cards: Seq<CardView>,
}

pub open spec fn card_views(cards: Seq<CardContent>) -> Seq<CardView> {
    cards.map_values(|c: CardContent| c@)
}

impl View for CardGroup {
    type V = GroupView;

    open spec fn view(&self) -> GroupView {
        GroupView {
            key: self.key@,
            source_title: self.source_title@,
            cards: card_views(self.cards@),
        }
    }
}

pub open spec fn group_views(groups: Seq<CardGroup>) -> Seq<GroupView> {
    groups.map_values(|g: CardGroup| g@)
}

impl CardGroup {
    fn same(&self, other: &CardGroup) -> (same: bool)
        ensures
            same == (self@ == other@),
    {
        if !self.key.same(&other.key) || !same_text(
            self.source_title.as_str(),
            other.source_title.as_str(),
        ) {
            return false;
        }
        if self.cards.len() != other.cards.len() {
            assert(self@.cards.len() != other@.cards.len());
            return false;
        }
        let mut i: usize = 0;
        while i < self.cards.len()
            invariant
                i <= self.cards@.len(),
                self.cards@.len() == other.cards@.len(),
                forall|j: int| 0 <= j < i ==> card_views(self.cards@)[j] == card_views(other.cards@)[j],
            decreases self.cards@.len() - i,
        {
            if !self.cards[i].same(&other.cards[i]) {
                assert(card_views(self.cards@)[i as int] != card_views(other.cards@)[i as int]);
                return false;
            }
            i = i + 1;
        }
        assert(self@.cards =~= other@.cards);
        true
    }
}

fn same_groups(a: &Vec<CardGroup>, b: &Vec<CardGroup>) -> (same: bool)
    ensures
        same == (group_views(a@) == group_views(b@)),
{
    if a.len() != b.len() {
        assert(group_views(a@).len() != group_views(b@).len());
        return false;
    }
    let mut i: usize = 0;
    while i < a.len()
        invariant
            i <= a@.len(),
            a@.len() == b@.len(),
            forall|j: int| 0 <= j < i ==> group_views(a@)[j] == group_views(b@)[j],
        decreases a@.len() - i,
    {
        if !a[i].same(&b[i]) {
            assert(group_views(a@)[i as int] != group_views(b@)[i as int]);
            return false;
        }
        i = i + 1;
    }
    assert(group_views(a@) =~= group_views(b@));
    true
}

/// A media player.
pub struct MediaCardContent {
    pub bus_name: String,
    /// Where its album art is found.
    pub art: Option<String>,
    pub can_previous: bool,
    pub can_play_pause: bool,
    pub can_next: bool,
    /// Everything else the card shows.
    pub shown: Vec<String>,
}

pub struct PlayerView {
    pub bus_name: Seq<char>,
    pub art: Option<Seq<char>>,
    pub can_previous: bool,
    pub can_play_pause: bool,
    pub can_next: bool,
    pub shown: Seq<Seq<char>>,
}

impl View for MediaCardContent {
    type V = PlayerView;

    open spec fn view(&self) -> PlayerView {
        PlayerView {
            bus_name: self.bus_name@,
            art: opt_view(self.art),
            can_previous: self.can_previous,
            can_play_pause: self.can_play_pause,
            can_next: self.can_next,
            shown: views(self.shown@),
        }
    }
}

pub open spec fn player_views(players: Seq<MediaCardContent>) -> Seq<PlayerView> {
    players.map_values(|p: MediaCardContent| p@)
}

impl PlayerView {
    /// The button reacts.
    pub open spec fn reacts(self, control: MediaControl) -> bool {
        match control {
            MediaControl::Previous => self.can_previous,
            MediaControl::PlayPause => self.can_play_pause,
            MediaControl::Next => self.can_next,
        }
    }

}

impl MediaCardContent {
    /// Whether a button reacts.
    pub fn is_sensitive(&self, control: MediaControl) -> (reacts: bool)
        ensures
            reacts == self@.reacts(control),
    {
        match control {
            MediaControl::Previous => self.can_previous,
            MediaControl::PlayPause => self.can_play_pause,
            MediaControl::Next => self.can_next,
        }
    }

    fn same(&self, other: &MediaCardContent) -> (same: bool)
        ensures
            same == (self@ == other@),
    {
        same_text(self.bus_name.as_str(), other.bus_name.as_str()) && same_opt_text(
            &self.art,
            &other.art,
        ) && self.can_previous == other.can_previous && self.can_play_pause
            == other.can_play_pause && self.can_next == other.can_next && same_texts(
            &self.shown,
            &other.shown,
        )
    }
}

fn same_players(a: &Vec<MediaCardContent>, b: &Vec<MediaCardContent>) -> (same: bool)
    ensures
        same == (player_views(a@) == player_views(b@)),
{
    if a.len() != b.len() {
        assert(player_views(a@).len() != player_views(b@).len());
        return false;
    }
    let mut i: usize = 0;
    while i < a.len()
        invariant
            i <= a@.len(),
            a@.len() == b@.len(),
            forall|j: int| 0 <= j < i ==> player_views(a@)[j] == player_views(b@)[j],
        decreases a@.len() - i,
    {
        if !a[i].same(&b[i]) {
            assert(player_views(a@)[i as int] != player_views(b@)[i as int]);
            return false;
        }
        i = i + 1;
    }
    assert(player_views(a@) =~= player_views(b@));
    true
}

/// A card's button.
#[derive(Clone, Copy, Debug, PartialEq, Eq, Structural)]
pub enum CardZone {
    Close,
    Caret,
    Action(usize),
}

/// What the pointer is over, of what lights up. A card darkens wherever it is hovered; its
/// button under the pointer lightens on top.
#[derive(Debug, PartialEq, Eq)]
pub enum ListHover {
    Card { id: u32, zone: Option<CardZone> },
    GroupCollapse,
    Clear,
    Media { bus_name: String, control: Option<MediaControl> },
}

pub enum HoverView {
    Card { id: u32, zone: Option<CardZone> },
    GroupCollapse,
    Clear,
    Media { bus_name: Seq<char>, control: Option<MediaControl> },
}

impl View for ListHover {
    type V = HoverView;

    open spec fn view(&self) -> HoverView {
        match *self {
            ListHover::Card { id, zone } => HoverView::Card { id, zone },
            ListHover::GroupCollapse => HoverView::GroupCollapse,
            ListHover::Clear => HoverView::Clear,
            ListHover::Media { bus_name, control } => HoverView::Media {
                bus_name: bus_name@,
                control,
            },
        }
    }
}

pub open spec fn hover_view(hover: Option<ListHover>) -> Option<HoverView> {
    match hover {
        Some(h) => Some(h@),
        None => None,
    }
}

fn same_zone(a: &Option<CardZone>, b: &Option<CardZone>) -> (same: bool)
    ensures
        same == (*a == *b),
{
    match (a, b) {
        (Some(x), Some(y)) => *x == *y,
        (None, None) => true,
        _ => false,
    }
}

fn same_control(a: &Option<MediaControl>, b: &Option<MediaControl>) -> (same: bool)
    ensures
        same == (*a == *b),
{
    match (a, b) {
        (Some(x), Some(y)) => *x == *y,
        (None, None) => true,
        _ => false,
    }
}

fn same_hover(a: &Option<ListHover>, b: &Option<ListHover>) -> (same: bool)
    ensures
        same == (hover_view(*a) == hover_view(*b)),
{
    match (a, b) {
        (Some(x), Some(y)) => match (x, y) {
            (ListHover::Card { id: i, zone: z }, ListHover::Card { id: j, zone: w }) => *i == *j
                && same_zone(z, w),
            (ListHover::GroupCollapse, ListHover::GroupCollapse) => true,
            (ListHover::Clear, ListHover::Clear) => true,
            (
                ListHover::Media { bus_name: m, control: c },
                ListHover::Media { bus_name: n, control: d },
            ) => same_text(m.as_str(), n.as_str()) && same_control(c, d),
            _ => false,
        },
        (None, None) => true,
        _ => false,
    }
}

/// What lights up is drawn into the cards: anything but the Clear pill.
pub open spec fn is_on_cards(hover: Option<HoverView>) -> bool {
    hover matches Some(h) && !(h is Clear)
}

fn on_cards(hover: &Option<ListHover>) -> (on: bool)
    ensures
        on == is_on_cards(hover_view(*hover)),
{
    match hover {
        Some(ListHover::Clear) => false,
        Some(_) => true,
        None => false,
    }
}

/// What a click inside the list hit.
#[derive(Debug, PartialEq, Eq)]
pub enum ListHit {
    /// A card's close button.
    Close(u32),
    /// A card's caret: fold its body out or in.
    ToggleExpand(u32),
    /// A card's action button.
    Action { id: u32, key: String },
    /// A card's body: activate the notification.
    Body { id: u32, has_default: bool },
    /// A collapsed stack: fan the group out.
    ExpandGroup(SourceKey),
    /// A fanned-out group's header, or between its cards: collapse it.
    CollapseGroup,
    /// The close button of a stack's top card: close the whole group.
    CloseGroup(Vec<u32>),
    /// The Clear pill.
    Clear,
    MediaControl { bus_name: String, control: MediaControl },
    /// A media card's body: raise the player.
    MediaBody(String),
}

pub enum HitView {
    Close(u32),
    ToggleExpand(u32),
    Action { id: u32, key: Seq<char> },
    Body { id: u32, has_default: bool },
    ExpandGroup(KeyView),
    CollapseGroup,
    CloseGroup(Seq<u32>),
    Clear,
    MediaControl { bus_name: Seq<char>, control: MediaControl },
    MediaBody(Seq<char>),
}

impl View for ListHit {
    type V = HitView;

    open spec fn view(&self) -> HitView {
        match *self {
            ListHit::Close(id) => HitView::Close(id),
            ListHit::ToggleExpand(id) => HitView::ToggleExpand(id),
            ListHit::Action { id, key } => HitView::Action { id, key: key@ },
            ListHit::Body { id, has_default } => HitView::Body { id, has_default },
            ListHit::ExpandGroup(key) => HitView::ExpandGroup(key@),
            ListHit::CollapseGroup => HitView::CollapseGroup,
            ListHit::CloseGroup(ids) => HitView::CloseGroup(ids@),
            ListHit::Clear => HitView::Clear,
            ListHit::MediaControl { bus_name, control } => HitView::MediaControl {
                bus_name: bus_name@,
                control,
            },
            ListHit::MediaBody(bus_name) => HitView::MediaBody(bus_name@),
        }
    }
}

/// The message list.
pub struct CalendarMessageList {
    pub groups: Vec<CardGroup>,
    /// The players, the newest first, each a card above every group.
    pub players: Vec<MediaCardContent>,
    /// The notifications whose body is folded out.
    pub body_expanded: std::collections::HashSet<u32>,
    /// The one group that is fanned out.
    pub group_expanded: Option<SourceKey>,
    pub hovered: Option<ListHover>,
    /// Bumped whenever what the cards show changes.
    pub revision: u64,
    /// How far the list is scrolled, before it is clamped to what there is.
    pub scroll: i128,
}

/// The message list's state.
#[verifier::ext_equal]
pub struct ListView {
    pub groups: Seq<GroupView>,
    pub players: Seq<PlayerView>,
    pub body_expanded: Set<u32>,
    pub group_expanded: Option<KeyView>,
    pub hovered: Option<HoverView>,
    pub revision: u64,
    pub scroll: i128,
}

pub open spec fn key_view(key: Option<SourceKey>) -> Option<KeyView> {
    match key {
        Some(k) => Some(k@),
        None => None,
    }
}

impl View for CalendarMessageList {
    type V = ListView;

    open spec fn view(&self) -> ListView {
        ListView {
            groups: group_views(self.groups@),
            players: player_views(self.players@),
            body_expanded: self.body_expanded@,
            group_expanded: key_view(self.group_expanded),
            hovered: hover_view(self.hovered),
            revision: self.revision,
            scroll: self.scroll,
        }
    }
}

/// Some group holds a notification with this id.
pub open spec fn is_live(groups: Seq<GroupView>, id: u32) -> bool {
    exists|g: int, c: int|
        0 <= g < groups.len() && 0 <= c < groups[g].cards.len() && (#[trigger] groups[g].cards[c]).id
            == id
}

/// Some group of this source holds more than one notification.
pub open spec fn is_grouped(groups: Seq<GroupView>, key: KeyView) -> bool {
    exists|g: int|
        0 <= g < groups.len() && (#[trigger] groups[g]).key == key && groups[g].cards.len() > 1
}

/// The first group of this source.
pub open spec fn first_of(groups: Seq<GroupView>, key: KeyView, g: int) -> bool {
    &&& 0 <= g < groups.len()
    &&& groups[g].key == key
    &&& forall|h: int| 0 <= h < g ==> (#[trigger] groups[h]).key != key
}

impl ListView {
    pub open spec fn bumped(self) -> ListView {
        ListView { revision: self.revision.wrapping_add(1), ..self }
    }

    /// The list with fresh notifications. What was folded out stays so while it is there,
    /// and the fanned-out group while it is a group; the hover lets go, as the cards have
    /// just moved.
    pub open spec fn with_groups(self, groups: Seq<GroupView>) -> ListView {
        ListView {
            groups,
            body_expanded: self.body_expanded.filter(|id: u32| is_live(groups, id)),
            group_expanded: match self.group_expanded {
                Some(key) if is_grouped(groups, key) => Some(key),
                _ => None,
            },
            hovered: None,
            ..self
        }.bumped()
    }

    /// The first group of a source does not hold this notification.
    pub open spec fn bodies_without(self, key: KeyView, id: u32) -> bool {
        forall|g: int| first_of(self.groups, key, g) ==> !holds(#[trigger] self.groups[g], id)
    }

    /// Which bodies stay folded out once the first group of a source is collapsed.
    pub open spec fn stays_out(self, key: KeyView) -> spec_fn(u32) -> bool {
        |id: u32| self.bodies_without(key, id)
    }

    /// The list with the group collapsed that `key` names: its members' bodies fold in.
    pub open spec fn collapsed(self, key: KeyView) -> ListView {
        ListView {
            body_expanded: self.body_expanded.filter(self.stays_out(key)),
            group_expanded: None,
            ..self
        }.bumped()
    }

    /// The list with a source's group toggled: the fanned-out one collapses, any other fans
    /// out in its place. Whichever group closes, its members' bodies fold in.
    pub open spec fn toggled(self, key: KeyView) -> ListView {
        match self.group_expanded {
            Some(open) => ListView {
                group_expanded: if open == key {
                    None
                } else {
                    Some(key)
                },
                ..self.collapsed(open)
            },
            None => ListView { group_expanded: Some(key), ..self }.bumped(),
        }
    }

    /// The list with something else lit up.
    pub open spec fn hovering(self, hovered: Option<HoverView>) -> ListView {
        let revision = if hovered != self.hovered && (is_on_cards(hovered) || is_on_cards(
            self.hovered,
        )) {
            self.revision.wrapping_add(1)
        } else {
            self.revision
        };
        ListView { hovered, revision, ..self }
    }

    /// The list with a card's body folded out, or back in.
    pub open spec fn body_toggled(self, id: u32) -> ListView {
        ListView {
            body_expanded: if self.body_expanded.contains(id) {
                self.body_expanded.remove(id)
            } else {
                self.body_expanded.insert(id)
            },
            ..self
        }.bumped()
    }
}

impl CalendarMessageList {
    pub fn new(groups: Vec<CardGroup>) -> (list: Self)
        ensures
            list@ == (ListView {
                groups: group_views(groups@),
                players: Seq::empty(),
                body_expanded: Set::empty(),
                group_expanded: None,
                hovered: None,
                revision: 0,
                scroll: 0,
            }),
    {
        CalendarMessageList {
            groups,
            players: Vec::new(),
            body_expanded: std::collections::HashSet::new(),
            group_expanded: None,
            hovered: None,
            revision: 0,
            scroll: 0,
        }
    }

    /// Nothing at all to show.
    pub fn is_empty(&self) -> (empty: bool)
        ensures
            empty == (self@.groups.len() == 0 && self@.players.len() == 0),
    {
        self.groups.len() == 0 && self.players.len() == 0
    }

    /// Whether the Clear pill shows. A media card cannot be closed, so players alone show
    /// none.
    pub fn can_clear(&self) -> (can: bool)
        ensures
            can == (self@.groups.len() > 0),
    {
        self.groups.len() > 0
    }

    fn bump(&mut self)
        ensures
            final(self)@ == old(self)@.bumped(),
            final(self).groups == old(self).groups,
            final(self).players == old(self).players,
    {
        self.revision = self.revision.wrapping_add(1);
    }

    /// Replace the players, the newest first. Returns whether that is a change. The hover
    /// lets go: the cards have just moved.
    pub fn set_players(&mut self, players: Vec<MediaCardContent>) -> (changed: bool)
        ensures
            changed == (player_views(players@) != old(self)@.players),
            final(self)@ == if changed {
                (ListView { players: player_views(players@), hovered: None, ..old(self)@ }).bumped()
            } else {
                old(self)@
            },
    {
        if same_players(&self.players, &players) {
            return false;
        }
        self.players = players;
        self.hovered = None;
        self.bump();
        true
    }

    /// An album-art load landed: the cards are to be drawn again if one shows that source.
    pub fn note_art_decoded(&mut self, source: &str) -> (changed: bool)
        ensures
            changed == exists|p: int|
                0 <= p < old(self)@.players.len() && (#[trigger] old(self)@.players[p]).art == Some(
                    source@,
                ),
            final(self)@ == if changed {
                old(self)@.bumped()
            } else {
                old(self)@
            },
    {
        let mut i: usize = 0;
        while i < self.players.len()
            invariant
                i <= self.players@.len(),
                *self == *old(self),
                forall|p: int|
                    0 <= p < i ==> (#[trigger] self@.players[p]).art != Some(source@),
            decreases self.players@.len() - i,
        {
            let shows = match &self.players[i].art {
                Some(art) => same_text(art.as_str(), source),
                None => false,
            };
            if shows {
                assert(self@.players[i as int].art == Some(source@));
                self.bump();
                return true;
            }
            i = i + 1;
        }
        false
    }

    /// The art sources the list is showing, in the cards' order.
    pub fn art_sources(&self) -> (sources: Vec<String>)
        ensures
            views(sources@) == arts_of(self@.players),
    {
        let mut sources: Vec<String> = Vec::new();
        let mut i: usize = 0;
        let ghost all = self@.players;
        assert(views(sources@) =~= arts_of(all.take(0)));
        while i < self.players.len()
            invariant
                i <= self.players@.len(),
                all == self@.players,
                views(sources@) == arts_of(all.take(i as int)),
            decreases self.players@.len() - i,
        {
            let ghost before = sources@;
            if let Some(art) = &self.players[i].art {
                sources.push(art.clone());
                assert(views(sources@) =~= views(before).push(art@));
            }
            i = i + 1;
            assert(all.take(i as int).drop_last() =~= all.take(i - 1));
            assert(all.take(i as int).last() == all[i - 1]);
        }
        assert(all.take(i as int) =~= all);
        sources
    }

    /// How many notifications there are, over all groups.
    pub fn len(&self) -> (n: usize)
        requires
            count(self@.groups) <= usize::MAX,
        ensures
            n == count(self@.groups),
    {
        let ghost all = self@.groups;
        let mut n: usize = 0;
        let mut i: usize = 0;
        while i < self.groups.len()
            invariant
                i <= self.groups@.len(),
                all == self@.groups,
                n == count(all.take(i as int)),
                count(all) <= usize::MAX,
            decreases self.groups@.len() - i,
        {
            let len: usize = self.groups[i].cards.len();
            proof {
                assert(all[i as int].cards.len() == len);
                lemma_count_step(all, i as int);
            }
            n = n + len;
            i = i + 1;
        }
        assert(all.take(i as int) =~= all);
        n
    }

    /// The ids folded out that some group still holds.
    fn live_bodies(&self) -> (kept: std::collections::HashSet<u32>)
        ensures
            kept@ == self@.body_expanded.filter(|id: u32| is_live(self@.groups, id)),
    {
        let mut kept: std::collections::HashSet<u32> = std::collections::HashSet::new();
        let mut g: usize = 0;
        while g < self.groups.len()
            invariant
                g <= self.groups@.len(),
                forall|id: u32| #[trigger]
                    kept@.contains(id) <==> self@.body_expanded.contains(id) && live_below(
                        self@.groups,
                        id,
                        g as int,
                        0,
                    ),
            decreases self.groups@.len() - g,
        {
            let mut c: usize = 0;
            while c < self.groups[g].cards.len()
                invariant
                    g < self.groups@.len(),
                    c <= self.groups@[g as int].cards@.len(),
                    forall|id: u32| #[trigger]
                        kept@.contains(id) <==> self@.body_expanded.contains(id) && live_below(
                            self@.groups,
                            id,
                            g as int,
                            c as int,
                        ),
                decreases self.groups@[g as int].cards@.len() - c,
            {
                let id: u32 = self.groups[g].cards[c].id;
                let ghost before = kept@;
                assert(self@.groups[g as int].cards[c as int].id == id);
                if self.body_expanded.contains(&id) {
                    kept.insert(id);
                }
                assert forall|other: u32| #[trigger]
                    kept@.contains(other) <==> self@.body_expanded.contains(other) && live_below(
                        self@.groups,
                        other,
                        g as int,
                        c + 1,
                    ) by {
                    lemma_live_step(self@.groups, other, g as int, c as int);
                    assert(before.contains(other) <==> self@.body_expanded.contains(other)
                        && live_below(self@.groups, other, g as int, c as int));
                }
                c = c + 1;
            }
            assert forall|id: u32| #[trigger]
                kept@.contains(id) <==> self@.body_expanded.contains(id) && live_below(
                    self@.groups,
                    id,
                    g + 1,
                    0,
                ) by {
                lemma_live_group(self@.groups, id, g as int);
            }
            g = g + 1;
        }
        assert forall|id: u32| live_below(self@.groups, id, g as int, 0) == is_live(
            self@.groups,
            id,
        ) by {
            lemma_live_all(self@.groups, id);
        }
        assert(kept@ =~= self@.body_expanded.filter(|id: u32| is_live(self@.groups, id)));
        kept
    }

    /// Whether some group of this source holds more than one notification.
    fn grouped(&self, key: &SourceKey) -> (grouped: bool)
        ensures
            grouped == is_grouped(self@.groups, key@),
    {
        let mut g: usize = 0;
        while g < self.groups.len()
            invariant
                g <= self.groups@.len(),
                forall|h: int|
                    0 <= h < g ==> (#[trigger] self@.groups[h]).key != key@
                        || self@.groups[h].cards.len() <= 1,
            decreases self.groups@.len() - g,
        {
            assert(self@.groups[g as int] == self.groups@[g as int]@);
            if self.groups[g].key.same(key) && self.groups[g].cards.len() > 1 {
                return true;
            }
            g = g + 1;
        }
        false
    }

    /// Replace the notifications. Returns whether that is a change.
    pub fn set_groups(&mut self, groups: Vec<CardGroup>) -> (changed: bool)
        ensures
            changed == (group_views(groups@) != old(self)@.groups),
            final(self)@ == if changed {
                old(self)@.with_groups(group_views(groups@))
            } else {
                old(self)@
            },
    {
        if same_groups(&self.groups, &groups) {
            return false;
        }
        self.groups = groups;
        self.body_expanded = self.live_bodies();
        let gone = match &self.group_expanded {
            Some(key) => !self.grouped(key),
            None => false,
        };
        if gone {
            self.group_expanded = None;
        }
        self.hovered = None;
        self.bump();
        true
    }

    /// Fold a card's body out, or back in: its caret was clicked.
    pub fn toggle_body_expanded(&mut self, id: u32)
        ensures
            final(self)@ == old(self)@.body_toggled(id),
    {
        if !self.body_expanded.remove(&id) {
            self.body_expanded.insert(id);
        }
        self.bump();
    }

    /// Fold in the body of every notification of the first group `key` names.
    fn unexpand_group_bodies(&mut self, key: &SourceKey)
        ensures
            final(self)@ == (ListView {
                body_expanded: old(self)@.body_expanded.filter(old(self)@.stays_out(key@)),
                ..old(self)@
            }),
    {
        let ghost was = self@;
        let mut g: usize = 0;
        while g < self.groups.len()
            invariant
                g <= self.groups@.len(),
                self@ == was,
                *self == *old(self),
                forall|h: int| 0 <= h < g ==> (#[trigger] was.groups[h]).key != key@,
            decreases self.groups@.len() - g,
        {
            assert(was.groups[g as int] == self.groups@[g as int]@);
            if self.groups[g].key.same(key) {
                self.fold_in(g);
                assert forall|id: u32| #[trigger]
                    self@.body_expanded.contains(id) <==> was.body_expanded.contains(id)
                        && was.bodies_without(key@, id) by {
                    assert(first_of(was.groups, key@, g as int));
                    assert(forall|h: int| first_of(was.groups, key@, h) ==> h == g) by {
                        assert forall|h: int| first_of(was.groups, key@, h) implies h == g by {
                            assert(was.groups[h].key == key@);
                        }
                    }
                }
                assert(self@.body_expanded =~= was.body_expanded.filter(was.stays_out(key@)));
                return ;
            }
            g = g + 1;
        }
        assert(self@.body_expanded =~= was.body_expanded.filter(was.stays_out(key@)));
    }

    /// Fold in the body of every notification of group `g`.
    fn fold_in(&mut self, g: usize)
        requires
            g < old(self)@.groups.len(),
        ensures
            forall|id: u32| #[trigger]
                final(self)@.body_expanded.contains(id) <==> old(self)@.body_expanded.contains(id)
                    && !holds(old(self)@.groups[g as int], id),
            final(self)@ == (ListView {
                body_expanded: final(self)@.body_expanded,
                ..old(self)@
            }),
    {
        let ghost was = self@;
        let ghost group = was.groups[g as int];
        let mut c: usize = 0;
        while c < self.groups[g].cards.len()
            invariant
                g < self.groups@.len(),
                group == self.groups@[g as int]@,
                c <= self.groups@[g as int].cards@.len(),
                self@ == (ListView { body_expanded: self@.body_expanded, ..was }),
                forall|id: u32| #[trigger]
                    self@.body_expanded.contains(id) <==> was.body_expanded.contains(id)
                        && !holds_below(group, id, c as int),
            decreases self.groups@[g as int].cards@.len() - c,
        {
            let id: u32 = self.groups[g].cards[c].id;
            let ghost before = self@.body_expanded;
            assert(group.cards[c as int].id == id);
            self.body_expanded.remove(&id);
            assert forall|other: u32| #[trigger]
                self@.body_expanded.contains(other) <==> was.body_expanded.contains(other)
                    && !holds_below(group, other, c + 1) by {
                assert(before.contains(other) <==> was.body_expanded.contains(other)
                    && !holds_below(group, other, c as int));
                if holds_below(group, other, c as int) {
                    let d = choose|d: int|
                        0 <= d < c && (#[trigger] group.cards[d]).id == other;
                    assert(group.cards[d].id == other);
                }
            }
            c = c + 1;
        }
    }

    /// Take note of what lights up now. Returns whether that is a change.
    pub fn set_hovered(&mut self, hovered: Option<ListHover>) -> (changed: bool)
        ensures
            final(self)@ == old(self)@.hovering(hover_view(hovered)),
            changed == (hover_view(hovered) != old(self)@.hovered),
    {
        if same_hover(&self.hovered, &hovered) {
            return false;
        }
        if on_cards(&self.hovered) || on_cards(&hovered) {
            self.bump();
        }
        self.hovered = hovered;
        true
    }

    /// Fan a source's group out, collapsing any other; or collapse it if it is fanned out.
    pub fn toggle_group(&mut self, key: SourceKey)
        ensures
            final(self)@ == old(self)@.toggled(key@),
    {
        let expanded = match &self.group_expanded {
            Some(open) => Some(open.clone()),
            None => None,
        };
        let closes = match &expanded {
            Some(open) => {
                self.unexpand_group_bodies(open);
                open.same(&key)
            },
            None => false,
        };
        self.group_expanded = if closes {
            None
        } else {
            Some(key)
        };
        self.bump();
    }

    /// Collapse the fanned-out group, if there is one.
    pub fn collapse_group(&mut self)
        ensures
            final(self)@ == match old(self)@.group_expanded {
                Some(key) => old(self)@.collapsed(key),
                None => old(self)@,
            },
    {
        let expanded = match &self.group_expanded {
            Some(key) => Some(key.clone()),
            None => None,
        };
        if let Some(key) = expanded {
            self.group_expanded = None;
            self.unexpand_group_bodies(&key);
            self.bump();
        }
    }
}

/// A notification of the group has this id.
pub open spec fn holds(group: GroupView, id: u32) -> bool {
    holds_below(group, id, group.cards.len() as int)
}

/// One of the group's first `n` notifications has this id.
pub open spec fn holds_below(group: GroupView, id: u32, n: int) -> bool {
    exists|c: int| 0 <= c < n && (#[trigger] group.cards[c]).id == id
}

/// A notification of the first `g` groups has this id, or one of the next group's first `c`.
spec fn live_below(groups: Seq<GroupView>, id: u32, g: int, c: int) -> bool {
    ||| exists|h: int| 0 <= h < g && holds(#[trigger] groups[h], id)
    ||| holds_below(groups[g], id, c)
}

proof fn lemma_live_step(groups: Seq<GroupView>, id: u32, g: int, c: int)
    requires
        0 <= g < groups.len(),
        0 <= c < groups[g].cards.len(),
    ensures
        live_below(groups, id, g, c + 1) == (live_below(groups, id, g, c)
            || groups[g].cards[c].id == id),
{
    if holds_below(groups[g], id, c) {
        let d = choose|d: int| 0 <= d < c && (#[trigger] groups[g].cards[d]).id == id;
        assert(groups[g].cards[d].id == id);
    }
}

proof fn lemma_live_group(groups: Seq<GroupView>, id: u32, g: int)
    requires
        0 <= g < groups.len(),
    ensures
        live_below(groups, id, g + 1, 0) == live_below(
            groups,
            id,
            g,
            groups[g].cards.len() as int,
        ),
{
    if exists|h: int| 0 <= h < g && holds(#[trigger] groups[h], id) {
        let h = choose|h: int| 0 <= h < g && holds(#[trigger] groups[h], id);
        assert(holds(groups[h], id));
    }
    if holds(groups[g], id) {
        assert(holds(groups[g], id));
    }
}

proof fn lemma_live_all(groups: Seq<GroupView>, id: u32)
    ensures
        live_below(groups, id, groups.len() as int, 0) == is_live(groups, id),
{
    if is_live(groups, id) {
        let (g, c) = choose|g: int, c: int|
            0 <= g < groups.len() && 0 <= c < groups[g].cards.len() && (
            #[trigger] groups[g].cards[c]).id == id;
        assert(groups[g].cards[c].id == id);
        assert(holds(groups[g], id));
    }
}

/// The art the players have, in order.
pub open spec fn arts_of(players: Seq<PlayerView>) -> Seq<Seq<char>>
    decreases players.len(),
{
    if players.len() == 0 {
        Seq::empty()
    } else {
        match players.last().art {
            Some(art) => arts_of(players.drop_last()).push(art),
            None => arts_of(players.drop_last()),
        }
    }
}

/// The notifications of all groups.
pub open spec fn count(groups: Seq<GroupView>) -> int
    decreases groups.len(),
{
    if groups.len() == 0 {
        0
    } else {
        count(groups.drop_last()) + groups.last().cards.len()
    }
}

/// One group more counts its notifications more.
pub proof fn lemma_count_step(groups: Seq<GroupView>, i: int)
    requires
        0 <= i < groups.len(),
    ensures
        count(groups.take(i + 1)) == count(groups.take(i)) + groups[i].cards.len(),
        count(groups.take(i + 1)) <= count(groups),
    decreases groups.len() - i,
{
    assert(groups.take(i + 1).drop_last() =~= groups.take(i));
    assert(groups.take(i + 1).last() == groups[i]);
    if i + 1 < groups.len() {
        lemma_count_step(groups, i + 1);
    } else {
        assert(groups.take(i + 1) =~= groups);
    }
}

impl ListView {
    /// A group that shrank to one notification, or lost its source, is not fanned out again by
    /// whatever arrives later.
    pub proof fn law_no_resurrection(self, fewer: Seq<GroupView>, later: Seq<GroupView>)
        requires
            self.group_expanded matches Some(key) ==> !is_grouped(fewer, key),
        ensures
            self.with_groups(fewer).group_expanded is None,
            self.with_groups(fewer).with_groups(later).group_expanded is None,
    {
    }

    /// New notifications fold nothing out, and nothing stays folded out that is gone.
    pub proof fn law_only_live_bodies(self, groups: Seq<GroupView>, id: u32)
        ensures
            self.with_groups(groups).body_expanded.contains(id) <==> self.body_expanded.contains(id)
                && is_live(groups, id),
    {
    }

    /// Collapsing a group folds in the bodies of its notifications and no others.
    pub proof fn law_collapse_folds_in(self, key: KeyView, g: int, id: u32)
        requires
            first_of(self.groups, key, g),
        ensures
            self.collapsed(key).body_expanded.contains(id) <==> self.body_expanded.contains(id)
                && !holds(self.groups[g], id),
    {
        assert forall|h: int| first_of(self.groups, key, h) implies h == g by {
            assert(self.groups[g].key == key);
            assert(self.groups[h].key == key);
        }
    }

    /// Toggling a group that is not fanned out fans it out, in place of any other; toggling it
    /// again leaves none fanned out. With none fanned out before, no body folds in.
    pub proof fn law_toggle_group_twice(self, key: KeyView)
        requires
            self.group_expanded != Some(key),
        ensures
            self.toggled(key).group_expanded == Some(key),
            self.group_expanded is None ==> self.toggled(key).body_expanded == self.body_expanded,
            self.toggled(key).toggled(key).group_expanded is None,
            self.toggled(key).revision == self.revision.wrapping_add(1),
    {
    }

    /// Fanning out another group folds in the bodies of the one that closes, and no others.
    pub proof fn law_the_closing_group_folds_in(self, open: KeyView, key: KeyView, g: int, id: u32)
        requires
            self.group_expanded == Some(open),
            first_of(self.groups, open, g),
        ensures
            self.toggled(key).body_expanded.contains(id) <==> self.body_expanded.contains(id)
                && !holds(self.groups[g], id),
    {
        self.law_collapse_folds_in(open, g, id);
    }

    /// Toggling a body twice leaves what is folded out as it was.
    pub proof fn law_toggle_body_twice(self, id: u32)
        ensures
            self.body_toggled(id).body_toggled(id).body_expanded == self.body_expanded,
            self.body_toggled(id).body_expanded.contains(id) == !self.body_expanded.contains(id),
    {
        assert(self.body_toggled(id).body_toggled(id).body_expanded =~= self.body_expanded);
    }

    /// The pointer on the Clear pill or off everything leaves the cards' revision alone.
    pub proof fn law_clear_hover_keeps_revision(self, hovered: Option<HoverView>)
        requires
            !is_on_cards(self.hovered),
            !is_on_cards(hovered),
        ensures
            self.hovering(hovered).revision == self.revision,
    {
    }
}

/// The caret folds one body out or in, and no other.
pub proof fn law_a_caret_folds_its_own_body(list: &mut CalendarMessageList, id: u32, other: u32)
    requires
        call_ensures(CalendarMessageList::toggle_body_expanded, (list, id), ()),
    ensures
        final(list).body_expanded@.contains(id) == !old(list).body_expanded@.contains(id),
        other != id ==> final(list).body_expanded@.contains(other)
            == old(list).body_expanded@.contains(other),
        final(list)@.groups == old(list)@.groups,
        final(list)@.group_expanded == old(list)@.group_expanded,
        final(list)@.players == old(list)@.players,
        final(list)@.scroll == old(list)@.scroll,
        final(list).revision != old(list).revision,
{
}

/// Fanning a group out makes it the one that is fanned out; fanning it again collapses it. No
/// other body folds out, and those of other groups stay.
pub proof fn law_one_group_is_fanned_out(list: &mut CalendarMessageList, key: SourceKey, id: u32)
    requires
        call_ensures(CalendarMessageList::toggle_group, (list, key), ()),
    ensures
        ({
            let was = key_view(old(list).group_expanded);
            key_view(final(list).group_expanded) == if was == Some(key@) {
                None
            } else {
                Some(key@)
            }
        }),
        final(list).body_expanded@.contains(id) ==> old(list).body_expanded@.contains(id),
        old(list).group_expanded is None ==> final(list)@.body_expanded == old(list)@.body_expanded,
        final(list)@.groups == old(list)@.groups,
        final(list)@.players == old(list)@.players,
        final(list)@.scroll == old(list)@.scroll,
        final(list).revision != old(list).revision,
{
}

/// Collapsing leaves no group fanned out, and folds in the bodies of the one that was; without
/// one it does nothing.
pub proof fn law_collapsing_leaves_no_fan(list: &mut CalendarMessageList, g: int, c: int)
    requires
        call_ensures(CalendarMessageList::collapse_group, (list,), ()),
    ensures
        final(list).group_expanded is None,
        old(list).group_expanded is None ==> final(list)@ == old(list)@,
        old(list).group_expanded matches Some(key) ==> {
            first_of(old(list)@.groups, key@, g) && 0 <= c < old(list)@.groups[g].cards.len()
                ==> !final(list)@.body_expanded.contains(old(list)@.groups[g].cards[c].id)
        },
        final(list)@.groups == old(list)@.groups,
{
    if let Some(key) = old(list).group_expanded {
        let was = old(list)@;
        if first_of(was.groups, key@, g) && 0 <= c < was.groups[g].cards.len() {
            let id = was.groups[g].cards[c].id;
            assert(holds(was.groups[g], id));
            assert(!was.bodies_without(key@, id));
        }
    }
}

/// Fresh notifications are the list's from then on. A body that was folded out is so exactly if
/// its notification is still there, and the fan stays exactly if it is still a group.
pub proof fn law_fresh_notifications_replace_the_old(
    list: &mut CalendarMessageList,
    groups: Vec<CardGroup>,
    changed: bool,
    id: u32,
)
    requires
        call_ensures(CalendarMessageList::set_groups, (list, groups), changed),
    ensures
        final(list)@.groups == group_views(groups@),
        changed == (old(list)@.groups != group_views(groups@)),
        changed ==> final(list)@.body_expanded.contains(id) == (old(list)@.body_expanded.contains(
            id,
        ) && is_live(group_views(groups@), id)),
        changed ==> final(list)@.group_expanded == match old(list)@.group_expanded {
            Some(key) if is_grouped(group_views(groups@), key) => Some(key),
            _ => None,
        },
        changed ==> final(list).hovered is None,
        changed ==> final(list).revision != old(list).revision,
        final(list)@.players == old(list)@.players,
        final(list)@.scroll == old(list)@.scroll,
{
}

/// New players take the place of the old and let the hover go; the notifications stay as they
/// are. The same players change nothing.
pub proof fn law_new_players_replace_the_old(
    list: &mut CalendarMessageList,
    players: Vec<MediaCardContent>,
    changed: bool,
)
    requires
        call_ensures(CalendarMessageList::set_players, (list, players), changed),
    ensures
        final(list)@.players == player_views(players@),
        changed <==> old(list)@.players != player_views(players@),
        changed ==> final(list)@.hovered is None && final(list)@.revision != old(list)@.revision,
        !changed ==> final(list)@ == old(list)@,
        final(list)@.groups == old(list)@.groups,
        final(list)@.body_expanded == old(list)@.body_expanded,
        final(list)@.group_expanded == old(list)@.group_expanded,
        final(list)@.scroll == old(list)@.scroll,
{
}

/// A list that was just made shows its notifications folded in, from the top; it can be cleared
/// if there are any, and players alone do not make it clearable.
pub proof fn law_a_new_list_is_folded_in(
    groups: Vec<CardGroup>,
    list: CalendarMessageList,
    can: bool,
    empty: bool,
)
    requires
        call_ensures(CalendarMessageList::new, (groups,), list),
        call_ensures(CalendarMessageList::can_clear, (&list,), can),
        call_ensures(CalendarMessageList::is_empty, (&list,), empty),
    ensures
        list@.groups == group_views(groups@),
        list@.players.len() == 0,
        list@.group_expanded is None,
        forall|id: u32| !list@.body_expanded.contains(id),
        list@.scroll == 0,
        list@.hovered is None,
        can <==> groups@.len() > 0,
        empty <==> groups@.len() == 0,
{
    assert(group_views(groups@).len() == groups@.len());
}

} // verus!
