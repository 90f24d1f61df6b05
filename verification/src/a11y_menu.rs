//! The panel's accessibility menu: ten switches and the settings action.
//!
//! A click flips the row's setting. The menu is built from a snapshot of the settings but is
//! not frozen: a setting written by anyone else moves the switch under an open menu.

use vstd::prelude::*;

use crate::area::{Area, UNITS};
use crate::lists::{lemma_widest, widest, widest_of};
use crate::popover::{A11yToggle, ActionView, PopoverAction};
use crate::text::views;

verus! {

/// Padding at the top and the bottom.
pub const PAD: i128 = 8 * UNITS;

pub const ROW_H: i128 = 36 * UNITS;

pub const ROW_GAP: i128 = 2 * UNITS;

/// Beside the rows' bands.
pub const ROW_MARGIN: i128 = 6 * UNITS;

/// Beside the labels and the switches.
pub const TEXT_INSET: i128 = 12 * UNITS;

/// Extra space above the trailing settings item.
pub const SEP_EXTRA: i128 = 9 * UNITS;

/// The least width.
pub const MIN_W: i128 = 260 * UNITS;

/// The menu's corner radius in logical pixels.
pub const RADIUS: u32 = 14;

/// The switch rows.
pub const TOGGLES: usize = 10;

/// The switch rows and the settings item.
pub const ROWS: usize = 11;

/// The label of the trailing action row.
pub const SETTINGS_LABEL: &'static str = "Accessibility Settings";

/// The accessibility settings.
#[derive(Clone, Copy, Debug, PartialEq, Eq, Structural)]
pub struct A11ySettings {
    pub high_contrast: bool,
    pub zoom: bool,
    pub large_text: bool,
    pub screen_reader: bool,
    pub screen_keyboard: bool,
    pub visual_alerts: bool,
    pub sticky_keys: bool,
    pub slow_keys: bool,
    pub bounce_keys: bool,
    pub mouse_keys: bool,
}

impl Default for A11ySettings {
    fn default() -> (settings: Self)
        ensures
            forall|toggle: A11yToggle| !settings.is_on(toggle),
    {
        A11ySettings {
            high_contrast: false,
            zoom: false,
            large_text: false,
            screen_reader: false,
            screen_keyboard: false,
            visual_alerts: false,
            sticky_keys: false,
            slow_keys: false,
            bounce_keys: false,
            mouse_keys: false,
        }
    }
}

impl A11ySettings {
    pub open spec fn is_on(self, toggle: A11yToggle) -> bool {
        match toggle {
            A11yToggle::HighContrast => self.high_contrast,
            A11yToggle::Zoom => self.zoom,
            A11yToggle::LargeText => self.large_text,
            A11yToggle::ScreenReader => self.screen_reader,
            A11yToggle::ScreenKeyboard => self.screen_keyboard,
            A11yToggle::VisualAlerts => self.visual_alerts,
            A11yToggle::StickyKeys => self.sticky_keys,
            A11yToggle::SlowKeys => self.slow_keys,
            A11yToggle::BounceKeys => self.bounce_keys,
            A11yToggle::MouseKeys => self.mouse_keys,
        }
    }

    pub fn get(&self, toggle: A11yToggle) -> (on: bool)
        ensures
            on == self.is_on(toggle),
    {
        match toggle {
            A11yToggle::HighContrast => self.high_contrast,
            A11yToggle::Zoom => self.zoom,
            A11yToggle::LargeText => self.large_text,
            A11yToggle::ScreenReader => self.screen_reader,
            A11yToggle::ScreenKeyboard => self.screen_keyboard,
            A11yToggle::VisualAlerts => self.visual_alerts,
            A11yToggle::StickyKeys => self.sticky_keys,
            A11yToggle::SlowKeys => self.slow_keys,
            A11yToggle::BounceKeys => self.bounce_keys,
            A11yToggle::MouseKeys => self.mouse_keys,
        }
    }

    /// The settings with one switch put on or off, and the others as they were.
    pub open spec fn with(self, toggle: A11yToggle, on: bool, now: A11ySettings) -> bool {
        forall|t: A11yToggle| #[trigger]
            now.is_on(t) == if t == toggle {
                on
            } else {
                self.is_on(t)
            }
    }

    pub fn set(&mut self, toggle: A11yToggle, on: bool)
        ensures
            old(self).with(toggle, on, *final(self)),
    {
        match toggle {
            A11yToggle::HighContrast => {
                self.high_contrast = on;
            },
            A11yToggle::Zoom => {
                self.zoom = on;
            },
            A11yToggle::LargeText => {
                self.large_text = on;
            },
            A11yToggle::ScreenReader => {
                self.screen_reader = on;
            },
            A11yToggle::ScreenKeyboard => {
                self.screen_keyboard = on;
            },
            A11yToggle::VisualAlerts => {
                self.visual_alerts = on;
            },
            A11yToggle::StickyKeys => {
                self.sticky_keys = on;
            },
            A11yToggle::SlowKeys => {
                self.slow_keys = on;
            },
            A11yToggle::BounceKeys => {
                self.bounce_keys = on;
            },
            A11yToggle::MouseKeys => {
                self.mouse_keys = on;
            },
        }
    }
}

/// The switch of row `k`, top to bottom.
pub open spec fn toggle_at(k: int) -> A11yToggle {
    if k == 0 {
        A11yToggle::HighContrast
    } else if k == 1 {
        A11yToggle::Zoom
    } else if k == 2 {
        A11yToggle::LargeText
    } else if k == 3 {
        A11yToggle::ScreenReader
    } else if k == 4 {
        A11yToggle::ScreenKeyboard
    } else if k == 5 {
        A11yToggle::VisualAlerts
    } else if k == 6 {
        A11yToggle::StickyKeys
    } else if k == 7 {
        A11yToggle::SlowKeys
    } else if k == 8 {
        A11yToggle::BounceKeys
    } else {
        A11yToggle::MouseKeys
    }
}

/// Which menu row an index maps to.
#[derive(Clone, Copy, Debug, PartialEq, Eq, Structural)]
pub enum RowKind {
    Toggle(A11yToggle),
    Settings,
}

/// The top of row `k`. The settings item sits below a break after the last switch row.
pub open spec fn top_of_row(k: int) -> int {
    PAD + k * (ROW_H + ROW_GAP) + if k >= TOGGLES {
        SEP_EXTRA as int
    } else {
        0
    }
}

/// What the caller measured: the width of each switch row's label and of the settings item's,
/// and a switch's size.
pub struct A11yMeasure {
    pub labels: Vec<i64>,
    pub settings_w: i64,
    pub switch_w: i64,
    pub switch_h: i64,
}

impl A11yMeasure {
    /// The menu's width. A switch row is a label, a gap and a switch; the settings row is just
    /// its label.
    pub open spec fn width(self) -> int {
        let row = widest(self.labels@) + TEXT_INSET + self.switch_w;
        let content = if row > self.settings_w {
            row
        } else {
            self.settings_w as int
        };
        if TEXT_INSET + content + TEXT_INSET > MIN_W {
            TEXT_INSET + content + TEXT_INSET
        } else {
            MIN_W as int
        }
    }

    /// The point is in row `k`'s band.
    pub open spec fn in_row(self, x: int, y: int, k: int) -> bool {
        &&& 0 <= k < ROWS
        &&& ROW_MARGIN <= x < self.width() - ROW_MARGIN
        &&& top_of_row(k) <= y < top_of_row(k) + ROW_H
    }
}

pub struct A11yMenu {
    pub settings: A11ySettings,
    pub hovered: Option<usize>,
    pub revision: u64,
}

impl A11yMenu {
    pub fn new(settings: A11ySettings) -> (menu: Self)
        ensures
            menu.settings == settings,
            menu.hovered is None,
            menu.revision == 0,
    {
        A11yMenu { settings, hovered: None, revision: 0 }
    }

    /// Adopt fresh settings while the menu is open. Returns whether they are a change.
    pub fn set_settings(&mut self, settings: A11ySettings) -> (changed: bool)
        ensures
            changed == (settings != old(self).settings),
            *final(self) == if changed {
                (A11yMenu {
                    settings,
                    revision: old(self).revision.wrapping_add(1),
                    ..*old(self)
                })
            } else {
                *old(self)
            },
    {
        if settings == self.settings {
            return false;
        }
        self.settings = settings;
        self.revision = self.revision.wrapping_add(1);
        true
    }

    /// Which row `k` is: the ten switches, then the settings item.
    pub fn row_kind(&self, k: usize) -> (kind: RowKind)
        ensures
            kind == if k < TOGGLES {
                RowKind::Toggle(toggle_at(k as int))
            } else {
                RowKind::Settings
            },
    {
        match k {
            0 => RowKind::Toggle(A11yToggle::HighContrast),
            1 => RowKind::Toggle(A11yToggle::Zoom),
            2 => RowKind::Toggle(A11yToggle::LargeText),
            3 => RowKind::Toggle(A11yToggle::ScreenReader),
            4 => RowKind::Toggle(A11yToggle::ScreenKeyboard),
            5 => RowKind::Toggle(A11yToggle::VisualAlerts),
            6 => RowKind::Toggle(A11yToggle::StickyKeys),
            7 => RowKind::Toggle(A11yToggle::SlowKeys),
            8 => RowKind::Toggle(A11yToggle::BounceKeys),
            9 => RowKind::Toggle(A11yToggle::MouseKeys),
            _ => RowKind::Settings,
        }
    }

    /// A row's label.
    pub fn row_label(&self, k: usize) -> (label: &'static str)
        ensures
            label@ == if k >= TOGGLES {
                "Accessibility Settings"@
            } else {
                label_of(toggle_at(k as int))
            },
    {
        match self.row_kind(k) {
            RowKind::Toggle(toggle) => toggle_label(toggle),
            RowKind::Settings => SETTINGS_LABEL,
        }
    }

    /// The top of row `k`.
    pub fn row_top(&self, k: usize) -> (top: i128)
        requires
            k < ROWS,
        ensures
            top == top_of_row(k as int),
            PAD <= top <= 400 * UNITS,
    {
        let sep: i128 = if k >= TOGGLES {
            SEP_EXTRA
        } else {
            0
        };
        PAD + k as i128 * (ROW_H + ROW_GAP) + sep
    }

    /// The menu's size.
    pub fn logical_size(&self, m: &A11yMeasure) -> (size: (i128, i128))
        ensures
            size.0 == m.width(),
            size.1 == top_of_row(ROWS - 1) + ROW_H + PAD,
            MIN_W <= size.0 <= 0x4_0000_0000_0000_0000,
    {
        let row: i128 = widest_of(&m.labels) as i128 + TEXT_INSET + m.switch_w as i128;
        let content: i128 = if row > m.settings_w as i128 {
            row
        } else {
            m.settings_w as i128
        };
        let w: i128 = if TEXT_INSET + content + TEXT_INSET > MIN_W {
            TEXT_INSET + content + TEXT_INSET
        } else {
            MIN_W
        };
        (w, 2 * PAD + 11 * ROW_H + 10 * ROW_GAP + SEP_EXTRA)
    }

    /// The menu's corner radius, for the shadow behind it.
    pub fn corner_radius(&self) -> (radius: u32)
        ensures
            radius == RADIUS,
    {
        RADIUS
    }

    /// Row `k`'s band: the full width less the side margins.
    pub fn row_rect(&self, m: &A11yMeasure, k: usize) -> (row: Area)
        requires
            k < ROWS,
        ensures
            row.x == ROW_MARGIN,
            row.y == top_of_row(k as int),
            row.w == m.width() - 2 * ROW_MARGIN,
            row.h == ROW_H,
            row.near(),
            forall|x: int, y: int| #[trigger] row.has(x, y) == m.in_row(x, y, k as int),
    {
        let size = self.logical_size(m);
        Area { x: ROW_MARGIN, y: self.row_top(k), w: size.0 - 2 * ROW_MARGIN, h: ROW_H }
    }

    /// The switch in row `k`: at the right, halfway down. In half units.
    pub fn switch_rect(&self, m: &A11yMeasure, k: usize) -> (switch: Area)
        requires
            k < TOGGLES,
        ensures
            switch.x == 2 * (m.width() - TEXT_INSET - m.switch_w),
            switch.y == 2 * top_of_row(k as int) + ROW_H - m.switch_h,
            switch.w == 2 * m.switch_w,
            switch.h == 2 * m.switch_h,
    {
        let row = self.row_rect(m, k);
        Area {
            x: 2 * (row.x + row.w - TEXT_INSET + ROW_MARGIN - m.switch_w as i128),
            y: 2 * row.y + row.h - m.switch_h as i128,
            w: 2 * m.switch_w as i128,
            h: 2 * m.switch_h as i128,
        }
    }

    /// Row `k`'s middle. In half units.
    pub fn row_center(&self, m: &A11yMeasure, k: usize) -> (center: (i128, i128))
        requires
            k < ROWS,
        ensures
            center.0 == m.width(),
            center.1 == 2 * top_of_row(k as int) + ROW_H,
            m.in_row(center.0 as int / 2, center.1 as int / 2, k as int),
    {
        let row = self.row_rect(m, k);
        (2 * row.x + row.w, 2 * row.y + row.h)
    }

    /// Whether row `k`'s switch reads as on, or `None` for the settings row.
    pub fn row_state(&self, k: usize) -> (on: Option<bool>)
        ensures
            on == if k < TOGGLES {
                Some(self.settings.is_on(toggle_at(k as int)))
            } else {
                None
            },
    {
        match self.row_kind(k) {
            RowKind::Toggle(toggle) => Some(self.settings.get(toggle)),
            RowKind::Settings => None,
        }
    }

    /// The row at a point.
    fn row_at(&self, m: &A11yMeasure, x: i64, y: i64) -> (row: Option<usize>)
        ensures
            match row {
                Some(k) => m.in_row(x as int, y as int, k as int),
                None => forall|k: int| !m.in_row(x as int, y as int, k),
            },
    {
        let mut k: usize = 0;
        while k < ROWS
            invariant
                k <= ROWS,
                forall|j: int| 0 <= j < k ==> !m.in_row(x as int, y as int, j),
            decreases ROWS - k,
        {
            let row = self.row_rect(m, k);
            assert(row.has(x as int, y as int) == m.in_row(x as int, y as int, k as int));
            if row.contains(x as i128, y as i128) {
                return Some(k);
            }
            k = k + 1;
        }
        None
    }

    /// What a click on a row asks for.
    pub open spec fn answers(&self, m: A11yMeasure, x: int, y: int, action: ActionView) -> bool {
        forall|k: int| #[trigger]
            m.in_row(x, y, k) ==> action == if k < TOGGLES {
                ActionView::SetA11yToggle {
                    toggle: toggle_at(k),
                    on: !self.settings.is_on(toggle_at(k)),
                }
            } else {
                ActionView::Spawn(seq!["gtk-launch"@, "gnome-universal-access-panel"@])
            }
    }

    /// Route a click to its action. The whole row is the target, not just its switch: a
    /// switch row asks for the opposite of its setting.
    pub fn pointer_click(&self, m: &A11yMeasure, x: i64, y: i64) -> (action: PopoverAction)
        ensures
            self.answers(*m, x as int, y as int, action@),
            (forall|k: int| !m.in_row(x as int, y as int, k)) ==> action@ is Consumed,
            // A click on a row closes the menu, and no other does.
            action@.closes() == Some(exists|k: int| m.in_row(x as int, y as int, k)),
    {
        match self.row_at(m, x, y) {
            Some(k) => {
                assert forall|j: int| m.in_row(x as int, y as int, j) implies j == k by {
                    assert(m.in_row(x as int, y as int, k as int));
                }
                match self.row_kind(k) {
                    RowKind::Toggle(toggle) => PopoverAction::SetA11yToggle {
                        toggle,
                        on: !self.settings.get(toggle),
                    },
                    RowKind::Settings => {
                        let mut argv: Vec<String> = Vec::new();
                        argv.push("gtk-launch".to_owned());
                        argv.push("gnome-universal-access-panel".to_owned());
                        assert(views(argv@) =~= seq![
                            "gtk-launch"@,
                            "gnome-universal-access-panel"@,
                        ]);
                        PopoverAction::Spawn(argv)
                    },
                }
            },
            None => PopoverAction::Consumed,
        }
    }

    /// Update the hovered row from the pointer, or clear it where that is nowhere. Returns
    /// whether it changed.
    pub fn pointer_hover(&mut self, m: &A11yMeasure, pos: Option<(i64, i64)>) -> (changed: bool)
        ensures
            match (final(self).hovered, pos) {
                (Some(k), Some((x, y))) => m.in_row(x as int, y as int, k as int),
                (None, Some((x, y))) => forall|k: int| !m.in_row(x as int, y as int, k),
                (hovered, None) => hovered is None,
            },
            changed == (final(self).hovered != old(self).hovered),
            final(self).settings == old(self).settings,
            final(self).revision == if changed {
                old(self).revision.wrapping_add(1)
            } else {
                old(self).revision
            },
    {
        let hovered = match pos {
            Some((x, y)) => self.row_at(m, x, y),
            None => None,
        };
        if hovered != self.hovered {
            self.hovered = hovered;
            self.revision = self.revision.wrapping_add(1);
            true
        } else {
            false
        }
    }
}

/// A switch's label.
pub open spec fn label_of(toggle: A11yToggle) -> Seq<char> {
    match toggle {
        A11yToggle::HighContrast => "High Contrast"@,
        A11yToggle::Zoom => "Zoom"@,
        A11yToggle::LargeText => "Large Text"@,
        A11yToggle::ScreenReader => "Screen Reader"@,
        A11yToggle::ScreenKeyboard => "Screen Keyboard"@,
        A11yToggle::VisualAlerts => "Visual Alerts"@,
        A11yToggle::StickyKeys => "Sticky Keys"@,
        A11yToggle::SlowKeys => "Slow Keys"@,
        A11yToggle::BounceKeys => "Bounce Keys"@,
        A11yToggle::MouseKeys => "Mouse Keys"@,
    }
}

fn toggle_label(toggle: A11yToggle) -> (label: &'static str)
    ensures
        label@ == label_of(toggle),
{
    match toggle {
        A11yToggle::HighContrast => "High Contrast",
        A11yToggle::Zoom => "Zoom",
        A11yToggle::LargeText => "Large Text",
        A11yToggle::ScreenReader => "Screen Reader",
        A11yToggle::ScreenKeyboard => "Screen Keyboard",
        A11yToggle::VisualAlerts => "Visual Alerts",
        A11yToggle::StickyKeys => "Sticky Keys",
        A11yToggle::SlowKeys => "Slow Keys",
        A11yToggle::BounceKeys => "Bounce Keys",
        A11yToggle::MouseKeys => "Mouse Keys",
    }
}

/// Rows do not overlap, every row's middle is in it, and all of them are inside the menu.
pub proof fn law_rows_are_apart_and_inside(m: A11yMeasure, k: int, other: int, x: int, y: int)
    requires
        0 <= k < ROWS,
    ensures
        m.in_row(m.width() / 2, top_of_row(k) + ROW_H / 2, k),
        m.in_row(x, y, k) && m.in_row(x, y, other) ==> k == other,
        m.in_row(x, y, k) ==> 0 <= x < m.width() && PAD <= y < top_of_row(ROWS - 1) + ROW_H,
{
}

/// A switch is in its row, and clear of the row's label.
pub proof fn law_switches_are_in_their_rows(m: A11yMeasure, k: int, x: int, y: int)
    requires
        0 <= k < TOGGLES,
        m.labels@.len() == TOGGLES,
        0 <= m.switch_w,
        0 <= m.switch_h <= ROW_H,
        m.width() - TEXT_INSET - m.switch_w <= x < m.width() - TEXT_INSET,
        2 * top_of_row(k) + ROW_H - m.switch_h <= 2 * y < 2 * top_of_row(k) + ROW_H + m.switch_h,
    ensures
        m.in_row(x, y, k),
        TEXT_INSET + m.labels@[k] + TEXT_INSET <= x,
{
    lemma_widest(m.labels@, k);
}

/// A click anywhere on a switch's row asks for the opposite of what the row reads; carrying
/// that out flips that row and no other.
pub proof fn law_a_click_flips_its_row(
    menu: A11yMenu,
    m: &A11yMeasure,
    k: usize,
    row: Area,
    x: i64,
    y: i64,
    action: PopoverAction,
    was: Option<bool>,
    settings: &mut A11ySettings,
    toggle: A11yToggle,
    on: bool,
    other: usize,
    after: A11yMenu,
    now: Option<bool>,
    other_was: Option<bool>,
    other_now: Option<bool>,
)
    requires
        k < TOGGLES,
        other < TOGGLES,
        call_ensures(A11yMenu::row_rect, (&menu, m, k), row),
        row.has(x as int, y as int),
        call_ensures(A11yMenu::pointer_click, (&menu, m, x, y), action),
        call_ensures(A11yMenu::row_state, (&menu, k), was),
        action@ == (ActionView::SetA11yToggle { toggle, on }),
        *old(settings) == menu.settings,
        call_ensures(A11ySettings::set, (settings, toggle, on), ()),
        after.settings == *final(settings),
        call_ensures(A11yMenu::row_state, (&after, k), now),
        call_ensures(A11yMenu::row_state, (&menu, other), other_was),
        call_ensures(A11yMenu::row_state, (&after, other), other_now),
    ensures
        was is Some,
        now == Some(!was->0),
        on == !was->0,
        other != k ==> other_now == other_was,
{
    assert(m.in_row(x as int, y as int, k as int));
    assert(final(settings).is_on(toggle_at(k as int)) == on);
    assert(final(settings).is_on(toggle_at(other as int)) == if toggle_at(other as int) == toggle {
        on
    } else {
        old(settings).is_on(toggle_at(other as int))
    });
}

/// A click on a switch's row asks for that row's switch, one on the last row for the settings,
/// and one on no row for nothing.
pub proof fn law_a_click_is_its_rows(
    menu: A11yMenu,
    m: &A11yMeasure,
    k: usize,
    row: Area,
    kind: RowKind,
    x: i64,
    y: i64,
    action: PopoverAction,
)
    requires
        k < ROWS,
        call_ensures(A11yMenu::row_rect, (&menu, m, k), row),
        call_ensures(A11yMenu::row_kind, (&menu, k), kind),
        call_ensures(A11yMenu::pointer_click, (&menu, m, x, y), action),
    ensures
        row.has(x as int, y as int) ==> match kind {
            RowKind::Toggle(toggle) => k < 10 && action@ == (ActionView::SetA11yToggle {
                toggle,
                on: !menu.settings.is_on(toggle),
            }),
            RowKind::Settings => k == 10 && action@ == ActionView::Spawn(
                seq!["gtk-launch"@, "gnome-universal-access-panel"@],
            ),
        },
        action@ == ActionView::Consumed ==> !row.has(x as int, y as int),
{
    assert(row.has(x as int, y as int) == m.in_row(x as int, y as int, k as int));
}

/// The rows run down the menu without a gap larger than the break before the last, and each
/// has its own switch.
pub proof fn law_the_rows_run_down_in_order(
    menu: A11yMenu,
    m: &A11yMeasure,
    a: usize,
    b: usize,
    upper: Area,
    lower: Area,
    upper_kind: RowKind,
    lower_kind: RowKind,
    size: (i128, i128),
)
    requires
        a < b < ROWS,
        call_ensures(A11yMenu::row_rect, (&menu, m, a), upper),
        call_ensures(A11yMenu::row_rect, (&menu, m, b), lower),
        call_ensures(A11yMenu::row_kind, (&menu, a), upper_kind),
        call_ensures(A11yMenu::row_kind, (&menu, b), lower_kind),
        call_ensures(A11yMenu::logical_size, (&menu, m), size),
    ensures
        upper.y + upper.h < lower.y,
        upper.x == lower.x && upper.w == lower.w && upper.h == lower.h,
        upper.x + upper.w + upper.x == size.0,
        0 < upper.y,
        lower.y + lower.h < size.1,
        upper_kind != lower_kind,
        upper_kind is Toggle,
        lower_kind is Settings <==> b == 10,
{
}

/// What is set reads back, and nothing else changes.
pub proof fn law_a_setting_reads_back(
    settings: &mut A11ySettings,
    toggle: A11yToggle,
    on: bool,
    other: A11yToggle,
    before: bool,
    read: bool,
)
    requires
        call_ensures(A11ySettings::get, (&*old(settings), other), before),
        call_ensures(A11ySettings::set, (settings, toggle, on), ()),
        call_ensures(A11ySettings::get, (&*final(settings), other), read),
    ensures
        other == toggle ==> read == on,
        other != toggle ==> read == before,
{
    assert(final(settings).is_on(other) == if other == toggle {
        on
    } else {
        old(settings).is_on(other)
    });
}

} // verus!
