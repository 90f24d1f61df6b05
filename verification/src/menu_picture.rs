//! The pictures that the date menu keeps: what each shows, and the key it is kept under.
//!
//! A picture is made anew when its key has changed. So a key holds all that the picture shows
//! and that can change while the menu is up, its height in device pixels among it.

use vstd::prelude::*;

use crate::area::{device_px, to_device, FAR, MAX_SCALE};
use crate::date_menu::{
    alike_clocks, alike_events, clock_rows, event_rows, DateMeasure, DateMenu,
};
use crate::menu_view::ClockCell;
use crate::message_layout::LIST_PAD;
use crate::message_list::{HoverView, ListHover};

verus! {

/// The key of the picture behind the columns.
#[derive(Clone, Copy, Debug, PartialEq, Eq, Structural)]
pub struct ChromeKey {
    /// The list has nothing to show.
    pub empty: bool,
    /// It has something that can be cleared.
    pub clearable: bool,
    pub clear_hovered: bool,
    pub px_h: i128,
}

/// The picture behind the columns: its size in device pixels, and what it shows besides the line
/// between them. Where that stands follows from the height.
#[derive(Clone, Copy, Debug, PartialEq, Eq, Structural)]
pub struct ChromePicture {
    pub px_w: i128,
    pub px_h: i128,
    /// The text in place of an empty list.
    pub placeholder: bool,
    /// The Clear pill, and whether the pointer's wash is on it.
    pub pill: Option<bool>,
}

/// The key of a card's picture.
#[derive(Clone, Copy, Debug, PartialEq, Eq, Structural)]
pub struct CardKey {
    pub revision: u64,
    pub hovered: bool,
    pub px_h: i128,
}

/// The Events card's picture: its size in device pixels, its texts, and the pointer's wash.
pub struct EventsPicture {
    pub px_w: int,
    pub px_h: int,
    pub title: Seq<char>,
    pub rows: Seq<(Seq<char>, Seq<char>)>,
    pub hovered: bool,
}

/// The World Clocks card's picture: its size in device pixels, its texts, whether the header is
/// muted, and the pointer's wash.
pub struct ClocksPicture {
    pub px_w: int,
    pub px_h: int,
    pub header: Seq<char>,
    pub muted: bool,
    pub rows: Seq<(Seq<char>, Seq<char>, Seq<char>)>,
    pub hovered: bool,
}

/// The side of a picture, which has a pixel at least.
pub open spec fn side(px: int) -> int {
    if px < 1 {
        1
    } else {
        px
    }
}

fn side_of(len: i128, scale: u16) -> (px: i128)
    requires
        -FAR <= len <= FAR,
        scale <= MAX_SCALE,
    ensures
        px == side(device_px(len as int, scale)),
{
    let px: i128 = to_device(len, scale);
    if px < 1 {
        1
    } else {
        px
    }
}

impl DateMenu {
    pub open spec fn is_chrome_key(&self, m: DateMeasure, scale: u16, key: ChromeKey) -> bool {
        &&& key.empty == (self.list@.groups.len() == 0 && self.list@.players.len() == 0)
        &&& key.clearable == (self.list@.groups.len() > 0)
        &&& key.clear_hovered == (self.list@.hovered == Some(HoverView::Clear))
        &&& key.px_h == device_px(self.height(m), scale)
    }

    pub open spec fn is_chrome(&self, m: DateMeasure, scale: u16, picture: ChromePicture) -> bool {
        &&& picture.px_w == side(device_px(m.col_x() + self.cal(m).w + LIST_PAD, scale))
        &&& picture.px_h == side(device_px(self.height(m), scale))
        &&& picture.placeholder == (self.list@.groups.len() == 0 && self.list@.players.len() == 0)
        &&& picture.pill == if self.list@.groups.len() > 0 {
            Some(self.list@.hovered == Some(HoverView::Clear))
        } else {
            None
        }
    }

    pub open spec fn is_events_key(&self, m: DateMeasure, scale: u16, key: CardKey) -> bool {
        &&& key.revision == self.events_rev
        &&& key.hovered == self.events_hovered
        &&& key.px_h == device_px(self.events_alloc(m), scale)
    }

    pub open spec fn is_clocks_key(&self, m: DateMeasure, scale: u16, key: CardKey) -> bool {
        &&& key.revision == self.world_clocks_rev
        &&& key.hovered == self.world_clocks_hovered
        &&& key.px_h == device_px(self.clocks_alloc(m), scale)
    }

    /// What the Events card's picture shows.
    pub open spec fn events_picture(&self, m: DateMeasure, scale: u16) -> EventsPicture {
        EventsPicture {
            px_w: side(device_px(self.cal(m).w as int, scale)),
            px_h: side(device_px(self.events_alloc(m), scale)),
            title: self.events.title@,
            rows: event_rows(self.events.rows@),
            hovered: self.events_hovered,
        }
    }

    /// What the World Clocks card's picture shows.
    pub open spec fn clocks_picture(&self, m: DateMeasure, scale: u16) -> ClocksPicture {
        ClocksPicture {
            px_w: side(device_px(self.cal(m).w as int, scale)),
            px_h: side(device_px(self.clocks_alloc(m), scale)),
            header: self.world_clocks.header@,
            muted: self.is_muted(ClockCell::Header),
            rows: clock_rows(self.world_clocks.rows@),
            hovered: self.world_clocks_hovered,
        }
    }

    fn clear_hovered(&self) -> (hovered: bool)
        ensures
            hovered == (self.list@.hovered == Some(HoverView::Clear)),
    {
        match &self.list.hovered {
            Some(ListHover::Clear) => true,
            _ => false,
        }
    }

    /// The key of the picture behind the columns, on an output of this scale.
    pub fn chrome_key(&self, m: &DateMeasure, scale: u16) -> (key: ChromeKey)
        requires
            self.measured(*m),
            scale <= MAX_SCALE,
        ensures
            self.is_chrome_key(*m, scale, key),
    {
        let size = self.logical_size(m);
        ChromeKey {
            empty: self.list.is_empty(),
            clearable: self.list.can_clear(),
            clear_hovered: self.clear_hovered(),
            px_h: to_device(size.1, scale),
        }
    }

    /// The picture behind the columns, on an output of this scale.
    pub fn chrome(&self, m: &DateMeasure, scale: u16) -> (picture: ChromePicture)
        requires
            self.measured(*m),
            scale <= MAX_SCALE,
        ensures
            self.is_chrome(*m, scale, picture),
    {
        proof {
            self.lemma_rows();
            self.lemma_bounds(*m);
        }
        let size = self.logical_size(m);
        ChromePicture {
            px_w: side_of(size.0, scale),
            px_h: side_of(size.1, scale),
            placeholder: self.list.is_empty(),
            pill: if self.list.can_clear() {
                Some(self.clear_hovered())
            } else {
                None
            },
        }
    }

    /// The key of the Events card's picture, on an output of this scale.
    pub fn events_key(&self, m: &DateMeasure, scale: u16) -> (key: CardKey)
        requires
            m.good(),
            scale <= MAX_SCALE,
        ensures
            self.is_events_key(*m, scale, key),
    {
        proof {
            self.lemma_rows();
            self.lemma_bounds(*m);
        }
        CardKey {
            revision: self.events_rev,
            hovered: self.events_hovered,
            px_h: to_device(self.events_alloc_h(m), scale),
        }
    }

    /// The key of the World Clocks card's picture, on an output of this scale.
    pub fn clocks_key(&self, m: &DateMeasure, scale: u16) -> (key: CardKey)
        requires
            m.good(),
            scale <= MAX_SCALE,
        ensures
            self.is_clocks_key(*m, scale, key),
    {
        proof {
            self.lemma_rows();
            self.lemma_bounds(*m);
        }
        CardKey {
            revision: self.world_clocks_rev,
            hovered: self.world_clocks_hovered,
            px_h: to_device(self.world_clocks_alloc_h(m), scale),
        }
    }

    /// The size of the Events card's picture, in device pixels.
    pub fn events_px(&self, m: &DateMeasure, scale: u16) -> (size: (i128, i128))
        requires
            m.good(),
            scale <= MAX_SCALE,
        ensures
            size.0 == self.events_picture(*m, scale).px_w,
            size.1 == self.events_picture(*m, scale).px_h,
    {
        proof {
            self.lemma_rows();
            self.lemma_bounds(*m);
        }
        (side_of(self.calendar_box(m).w, scale), side_of(self.events_alloc_h(m), scale))
    }

    /// The size of the World Clocks card's picture, in device pixels.
    pub fn clocks_px(&self, m: &DateMeasure, scale: u16) -> (size: (i128, i128))
        requires
            m.good(),
            scale <= MAX_SCALE,
        ensures
            size.0 == self.clocks_picture(*m, scale).px_w,
            size.1 == self.clocks_picture(*m, scale).px_h,
    {
        proof {
            self.lemma_rows();
            self.lemma_bounds(*m);
        }
        (side_of(self.calendar_box(m).w, scale), side_of(self.world_clocks_alloc_h(m), scale))
    }

    /// The two menus have their columns alike.
    pub open spec fn as_wide(&self, m: DateMeasure, other: &DateMenu, later: DateMeasure) -> bool {
        &&& self.calendar.show_week_numbers == other.calendar.show_week_numbers
        &&& m.cal == later.cal
        &&& m.list.list_w == later.list.list_w
    }

    /// A picture behind the columns that is still under its key is still right: a list that
    /// grows, shrinks or empties, or a pill that lights up, changes the key.
    pub proof fn law_the_chrome_key_tells_the_picture(
        &self,
        m: DateMeasure,
        was: ChromePicture,
        other: &DateMenu,
        later: DateMeasure,
        now: ChromePicture,
        scale: u16,
        key: ChromeKey,
    )
        requires
            self.as_wide(m, other, later),
            self.is_chrome_key(m, scale, key),
            other.is_chrome_key(later, scale, key),
            self.is_chrome(m, scale, was),
            other.is_chrome(later, scale, now),
        ensures
            was == now,
    {
    }

    /// A list that makes the popover taller or shorter by a device pixel changes the key of the
    /// picture behind it.
    pub proof fn law_the_chrome_follows_the_height(
        &self,
        m: DateMeasure,
        key: ChromeKey,
        other: &DateMenu,
        later: DateMeasure,
        next: ChromeKey,
        scale: u16,
    )
        requires
            self.is_chrome_key(m, scale, key),
            other.is_chrome_key(later, scale, next),
            device_px(self.height(m), scale) != device_px(other.height(later), scale),
        ensures
            key != next,
    {
    }

    /// The Events section of `now` is the one that `self` had, or the next.
    pub open spec fn took_events(&self, now: &DateMenu) -> bool {
        alike_events(self.events, now.events) || now.events_rev == self.events_rev.wrapping_add(1)
    }

    pub open spec fn took_clocks(&self, now: &DateMenu) -> bool {
        alike_clocks(self.world_clocks, now.world_clocks) || now.world_clocks_rev
            == self.world_clocks_rev.wrapping_add(1)
    }

    /// An Events card's picture that is still under its key is still right: another section, the
    /// pointer's wash and another height each change the key.
    pub proof fn law_the_events_key_tells_the_picture(
        &self,
        m: DateMeasure,
        now: &DateMenu,
        later: DateMeasure,
        scale: u16,
        key: CardKey,
    )
        requires
            self.as_wide(m, now, later),
            self.took_events(now),
            self.is_events_key(m, scale, key),
            now.is_events_key(later, scale, key),
        ensures
            self.events_picture(m, scale) == now.events_picture(later, scale),
    {
    }

    /// And so is a World Clocks card's.
    pub proof fn law_the_clocks_key_tells_the_picture(
        &self,
        m: DateMeasure,
        now: &DateMenu,
        later: DateMeasure,
        scale: u16,
        key: CardKey,
    )
        requires
            self.as_wide(m, now, later),
            self.took_clocks(now),
            self.is_clocks_key(m, scale, key),
            now.is_clocks_key(later, scale, key),
        ensures
            self.clocks_picture(m, scale) == now.clocks_picture(later, scale),
    {
    }
}

} // verus!
