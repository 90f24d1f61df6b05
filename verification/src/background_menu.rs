//! The desktop's context menu.

use vstd::prelude::*;

use crate::popover::{
    entry_views, item_labels, labels_of, ActionView, EntryView, MenuEntry, MenuHit, PopoverAction,
    SETTINGS_DESKTOP_ID,
};
use crate::text::views;

verus! {

pub struct BackgroundMenu {
    pub entries: Vec<MenuEntry>,
    /// What each row does, by the number the menu hands back.
    pub actions: Vec<PopoverAction>,
}

/// The rows' labels, top to bottom.
pub open spec fn row_labels() -> Seq<Seq<char>> {
    seq!["Change Background…"@, "Display Settings"@, "Settings"@]
}

/// What the rows do.
pub open spec fn row_actions() -> Seq<ActionView> {
    seq![
        ActionView::LaunchSettingsPanel { panel: "background"@, args: Seq::empty() },
        ActionView::LaunchSettingsPanel { panel: "display"@, args: Seq::empty() },
        ActionView::ActivateApp("org.gnome.Settings.desktop"@),
    ]
}

/// The menu's lines: a separator after the first row only.
pub open spec fn menu_lines() -> Seq<EntryView> {
    seq![
        EntryView::Item { id: 0, label: "Change Background…"@ },
        EntryView::Separator,
        EntryView::Item { id: 1, label: "Display Settings"@ },
        EntryView::Item { id: 2, label: "Settings"@ },
    ]
}

impl BackgroundMenu {
    /// What the menu's rows do, by their number.
    pub open spec fn action_views(&self) -> Seq<ActionView> {
        self.actions@.map_values(|a: PopoverAction| a@)
    }

    pub fn new() -> (menu: Self)
        ensures
            entry_views(menu.entries@) == menu_lines(),
            item_labels(entry_views(menu.entries@)) == row_labels(),
            menu.action_views() == row_actions(),
    {
        let mut entries: Vec<MenuEntry> = Vec::new();
        entries.push(MenuEntry::Item { id: 0, label: "Change Background…".to_owned() });
        entries.push(MenuEntry::Separator);
        entries.push(MenuEntry::Item { id: 1, label: "Display Settings".to_owned() });
        entries.push(MenuEntry::Item { id: 2, label: "Settings".to_owned() });
        let mut actions: Vec<PopoverAction> = Vec::new();
        let none: Vec<String> = Vec::new();
        assert(views(none@) =~= Seq::<Seq<char>>::empty());
        actions.push(
            PopoverAction::LaunchSettingsPanel { panel: "background".to_owned(), args: none },
        );
        let none: Vec<String> = Vec::new();
        assert(views(none@) =~= Seq::<Seq<char>>::empty());
        actions.push(PopoverAction::LaunchSettingsPanel { panel: "display".to_owned(), args: none });
        actions.push(PopoverAction::ActivateApp(SETTINGS_DESKTOP_ID.to_owned()));
        let menu = BackgroundMenu { entries, actions };
        proof {
            assert(entry_views(menu.entries@) =~= menu_lines());
            assert(menu.action_views() =~= row_actions());
            let lines = menu_lines();
            reveal_with_fuel(item_labels, 5);
            assert(lines.drop_last().drop_last().drop_last().drop_last() =~= Seq::empty());
            assert(item_labels(lines) =~= row_labels());
        }
        menu
    }

    /// Every item's label, top to bottom, separators excluded.
    pub fn labels(&self) -> (labels: Vec<String>)
        ensures
            views(labels@) == item_labels(entry_views(self.entries@)),
    {
        labels_of(&self.entries)
    }

    /// Turn a press on the menu into the action it means. A press that activates no row is
    /// consumed without doing anything.
    pub fn resolve(&self, hit: MenuHit) -> (action: PopoverAction)
        ensures
            action@ == match hit {
                MenuHit::Activated(id) if id < self.actions@.len() => self.action_views()[id as int],
                _ => ActionView::Consumed,
            },
    {
        match hit {
            MenuHit::Activated(id) => if id < self.actions.len() as u64 {
                self.actions[id as usize].clone()
            } else {
                PopoverAction::Consumed
            },
            MenuHit::Other => PopoverAction::Consumed,
        }
    }

    /// Route a click that the menu answered with `hit` to its action.
    pub fn pointer_click(&self, hit: MenuHit) -> (action: PopoverAction)
        ensures
            action@ == match hit {
                MenuHit::Activated(id) if id < self.actions@.len() => self.action_views()[id as int],
                _ => ActionView::Consumed,
            },
    {
        self.resolve(hit)
    }

    /// Activate the keyboard-focused row, which the menu answered with `hit`.
    pub fn activate_focused(&self, hit: MenuHit) -> (action: PopoverAction)
        ensures
            action@ == match hit {
                MenuHit::Activated(id) if id < self.actions@.len() => self.action_views()[id as int],
                _ => ActionView::Consumed,
            },
    {
        self.resolve(hit)
    }
}

impl Default for BackgroundMenu {
    fn default() -> (menu: Self)
        ensures
            entry_views(menu.entries@) == menu_lines(),
            menu.action_views() == row_actions(),
    {
        BackgroundMenu::new()
    }
}

/// Each row does what it reads, by click and by key alike, and what is no row does nothing.
pub proof fn law_a_row_does_what_it_reads(
    menu: BackgroundMenu,
    labels: Vec<String>,
    row: u64,
    clicked: PopoverAction,
    typed: PopoverAction,
    beside: PopoverAction,
)
    requires
        call_ensures(BackgroundMenu::new, (), menu),
        call_ensures(BackgroundMenu::labels, (&menu,), labels),
        call_ensures(BackgroundMenu::pointer_click, (&menu, MenuHit::Activated(row)), clicked),
        call_ensures(BackgroundMenu::activate_focused, (&menu, MenuHit::Activated(row)), typed),
        call_ensures(BackgroundMenu::pointer_click, (&menu, MenuHit::Other), beside),
    ensures
        clicked@ == typed@,
        labels@.len() == 3,
        row == 0 ==> labels@[0]@ == "Change Background…"@ && clicked@
            == (ActionView::LaunchSettingsPanel { panel: "background"@, args: Seq::empty() }),
        row == 1 ==> labels@[1]@ == "Display Settings"@ && clicked@
            == (ActionView::LaunchSettingsPanel { panel: "display"@, args: Seq::empty() }),
        row == 2 ==> labels@[2]@ == "Settings"@ && clicked@ == ActionView::ActivateApp(
            "org.gnome.Settings.desktop"@,
        ),
        row > 2 ==> clicked@ == ActionView::Consumed,
        beside@ == ActionView::Consumed,
{
    let read = views(labels@);
    assert(read.len() == labels@.len());
    assert(read[0] == labels@[0]@);
    assert(read[1] == labels@[1]@);
    assert(read[2] == labels@[2]@);
    assert(menu.action_views().len() == menu.actions@.len());
}

} // verus!
