//! What the popovers ask the shell to do, and the rows of a menu.

use vstd::prelude::*;

use crate::text::{copy_texts, views};

verus! {

/// The desktop id of the settings app.
pub const SETTINGS_DESKTOP_ID: &'static str = "org.gnome.Settings.desktop";

/// The accessibility settings that have a switch, in menu order.
#[derive(Clone, Copy, Debug, PartialEq, Eq, Structural)]
pub enum A11yToggle {
    HighContrast,
    Zoom,
    LargeText,
    ScreenReader,
    ScreenKeyboard,
    VisualAlerts,
    StickyKeys,
    SlowKeys,
    BounceKeys,
    MouseKeys,
}

/// What a media card's buttons ask the player.
#[derive(Clone, Copy, Debug, PartialEq, Eq, Structural)]
pub enum MediaControl {
    Previous,
    PlayPause,
    Next,
}

/// What a click in a popover asks the shell to do.
#[derive(Debug, PartialEq, Eq)]
pub enum PopoverAction {
    /// Nothing; the click goes no further.
    Consumed,
    SetA11yToggle { toggle: A11yToggle, on: bool },
    Spawn(Vec<String>),
    LaunchSettingsPanel { panel: String, args: Vec<String> },
    ActivateApp(String),
    AppNewWindow(String),
    AppLaunchAction { id: String, action: String },
    AppToggleFavorite(String),
    AppActivateWindow(u64),
    AppDetails(String),
    AppQuit(String),
    CloseNotification(u32),
    InvokeNotificationAction { notification: u32, key: String },
    ActivateNotification { notification: u32, has_default: bool },
    CloseNotificationGroup(Vec<u32>),
    ClearNotifications,
    MediaControl { bus_name: String, control: MediaControl },
    RaiseMediaPlayer(String),
}

impl PopoverAction {
    /// Whether a click that asks for this closes the menu it was made in: a switch does and so
    /// does a row of an app's menu, the launch of an app from a card, and raising a player; a
    /// click that asks for nothing leaves the menu up. Of the rest the shell decides.
    pub fn closes_menu(&self) -> (closes: Option<bool>)
        ensures
            closes == self@.closes(),
    {
        match self {
            PopoverAction::Consumed => Some(false),
            PopoverAction::SetA11yToggle { .. } => Some(true),
            PopoverAction::Spawn(_) => Some(true),
            PopoverAction::AppNewWindow(_) => Some(true),
            PopoverAction::AppLaunchAction { .. } => Some(true),
            PopoverAction::AppToggleFavorite(_) => Some(true),
            PopoverAction::AppActivateWindow(_) => Some(true),
            PopoverAction::AppDetails(_) => Some(true),
            PopoverAction::AppQuit(_) => Some(true),
            PopoverAction::RaiseMediaPlayer(_) => Some(true),
            _ => None,
        }
    }
}

impl ActionView {
    /// Whether a click that asks for this closes the menu it was made in, where that is known.
    pub open spec fn closes(self) -> Option<bool> {
        match self {
            ActionView::Consumed => Some(false),
            ActionView::SetA11yToggle { .. } => Some(true),
            ActionView::Spawn(_) => Some(true),
            ActionView::AppNewWindow(_) => Some(true),
            ActionView::AppLaunchAction { .. } => Some(true),
            ActionView::AppToggleFavorite(_) => Some(true),
            ActionView::AppActivateWindow(_) => Some(true),
            ActionView::AppDetails(_) => Some(true),
            ActionView::AppQuit(_) => Some(true),
            ActionView::RaiseMediaPlayer(_) => Some(true),
            _ => None,
        }
    }
}

/// A popover action by its characters.
#[verifier::ext_equal]
pub enum ActionView {
    Consumed,
    SetA11yToggle { toggle: A11yToggle, on: bool },
    Spawn(Seq<Seq<char>>),
    LaunchSettingsPanel { panel: Seq<char>, args: Seq<Seq<char>> },
    ActivateApp(Seq<char>),
    AppNewWindow(Seq<char>),
    AppLaunchAction { id: Seq<char>, action: Seq<char> },
    AppToggleFavorite(Seq<char>),
    AppActivateWindow(u64),
    AppDetails(Seq<char>),
    AppQuit(Seq<char>),
    CloseNotification(u32),
    InvokeNotificationAction { notification: u32, key: Seq<char> },
    ActivateNotification { notification: u32, has_default: bool },
    CloseNotificationGroup(Seq<u32>),
    ClearNotifications,
    MediaControl { bus_name: Seq<char>, control: MediaControl },
    RaiseMediaPlayer(Seq<char>),
}

impl View for PopoverAction {
    type V = ActionView;

    open spec fn view(&self) -> ActionView {
        match *self {
            PopoverAction::Consumed => ActionView::Consumed,
            PopoverAction::SetA11yToggle { toggle, on } => ActionView::SetA11yToggle { toggle, on },
            PopoverAction::Spawn(argv) => ActionView::Spawn(views(argv@)),
            PopoverAction::LaunchSettingsPanel { panel, args } => ActionView::LaunchSettingsPanel {
                panel: panel@,
                args: views(args@),
            },
            PopoverAction::ActivateApp(id) => ActionView::ActivateApp(id@),
            PopoverAction::AppNewWindow(id) => ActionView::AppNewWindow(id@),
            PopoverAction::AppLaunchAction { id, action } => ActionView::AppLaunchAction {
                id: id@,
                action: action@,
            },
            PopoverAction::AppToggleFavorite(id) => ActionView::AppToggleFavorite(id@),
            PopoverAction::AppActivateWindow(window) => ActionView::AppActivateWindow(window),
            PopoverAction::AppDetails(id) => ActionView::AppDetails(id@),
            PopoverAction::AppQuit(id) => ActionView::AppQuit(id@),
            PopoverAction::CloseNotification(id) => ActionView::CloseNotification(id),
            PopoverAction::InvokeNotificationAction {
                notification,
                key,
            } => ActionView::InvokeNotificationAction { notification, key: key@ },
            PopoverAction::ActivateNotification {
                notification,
                has_default,
            } => ActionView::ActivateNotification { notification, has_default },
            PopoverAction::CloseNotificationGroup(ids) => ActionView::CloseNotificationGroup(ids@),
            PopoverAction::ClearNotifications => ActionView::ClearNotifications,
            PopoverAction::MediaControl { bus_name, control } => ActionView::MediaControl {
                bus_name: bus_name@,
                control,
            },
            PopoverAction::RaiseMediaPlayer(bus_name) => ActionView::RaiseMediaPlayer(bus_name@),
        }
    }
}

/// One line of a menu.
#[derive(Debug, PartialEq, Eq)]
pub enum MenuEntry {
    /// A row that can be activated, by the number the menu hands back.
    Item { id: u64, label: String },
    Separator,
    SectionHeader(String),
}

/// A line of a menu by its characters.
pub enum EntryView {
    Item { id: u64, label: Seq<char> },
    Separator,
    SectionHeader(Seq<char>),
}

impl View for MenuEntry {
    type V = EntryView;

    open spec fn view(&self) -> EntryView {
        match *self {
            MenuEntry::Item { id, label } => EntryView::Item { id, label: label@ },
            MenuEntry::Separator => EntryView::Separator,
            MenuEntry::SectionHeader(label) => EntryView::SectionHeader(label@),
        }
    }
}

/// The lines of a menu by their characters.
pub open spec fn entry_views(entries: Seq<MenuEntry>) -> Seq<EntryView> {
    entries.map_values(|e: MenuEntry| e@)
}

/// What a press on the menu came to.
#[derive(Clone, Copy, Debug, PartialEq, Eq, Structural)]
pub enum MenuHit {
    /// The row with this number.
    Activated(u64),
    /// Anything else: a separator, the padding, a submenu that opened or closed.
    Other,
}

/// The labels of a menu's rows, top to bottom.
pub open spec fn item_labels(entries: Seq<EntryView>) -> Seq<Seq<char>>
    decreases entries.len(),
{
    if entries.len() == 0 {
        Seq::empty()
    } else {
        match entries.last() {
            EntryView::Item { label, .. } => item_labels(entries.drop_last()).push(label),
            _ => item_labels(entries.drop_last()),
        }
    }
}

/// The rows of two runs of lines, one below the other.
pub proof fn lemma_labels_add(a: Seq<EntryView>, b: Seq<EntryView>)
    ensures
        item_labels(a + b) == item_labels(a) + item_labels(b),
    decreases b.len(),
{
    if b.len() == 0 {
        assert(a + b =~= a);
        assert(item_labels(a) + item_labels(b) =~= item_labels(a));
    } else {
        lemma_labels_add(a, b.drop_last());
        assert((a + b).drop_last() =~= a + b.drop_last());
        assert((a + b).last() == b.last());
        assert(item_labels(a + b) =~= item_labels(a) + item_labels(b));
    }
}

/// The labels of a menu's rows, top to bottom.
pub fn labels_of(entries: &Vec<MenuEntry>) -> (labels: Vec<String>)
    ensures
        views(labels@) == item_labels(entry_views(entries@)),
{
    let ghost all = entry_views(entries@);
    let mut labels: Vec<String> = Vec::new();
    let mut i: usize = 0;
    assert(views(labels@) =~= item_labels(all.take(0)));
    while i < entries.len()
        invariant
            i <= entries@.len(),
            all == entry_views(entries@),
            views(labels@) == item_labels(all.take(i as int)),
        decreases entries@.len() - i,
    {
        let ghost before = labels@;
        if let MenuEntry::Item { label, .. } = &entries[i] {
            labels.push(label.clone());
            assert(views(labels@) =~= views(before).push(label@));
        }
        i = i + 1;
        assert(all.take(i as int).drop_last() =~= all.take(i - 1));
        assert(all.take(i as int).last() == all[i - 1]);
    }
    assert(all.take(i as int) =~= all);
    labels
}

impl Clone for PopoverAction {
    fn clone(&self) -> (copy: Self)
        ensures
            copy@ == self@,
    {
        match self {
            PopoverAction::Consumed => PopoverAction::Consumed,
            PopoverAction::SetA11yToggle { toggle, on } => PopoverAction::SetA11yToggle {
                toggle: *toggle,
                on: *on,
            },
            PopoverAction::Spawn(argv) => PopoverAction::Spawn(copy_texts(argv)),
            PopoverAction::LaunchSettingsPanel {
                panel,
                args,
            } => PopoverAction::LaunchSettingsPanel { panel: panel.clone(), args: copy_texts(args) },
            PopoverAction::ActivateApp(id) => PopoverAction::ActivateApp(id.clone()),
            PopoverAction::AppNewWindow(id) => PopoverAction::AppNewWindow(id.clone()),
            PopoverAction::AppLaunchAction { id, action } => PopoverAction::AppLaunchAction {
                id: id.clone(),
                action: action.clone(),
            },
            PopoverAction::AppToggleFavorite(id) => PopoverAction::AppToggleFavorite(id.clone()),
            PopoverAction::AppActivateWindow(window) => PopoverAction::AppActivateWindow(*window),
            PopoverAction::AppDetails(id) => PopoverAction::AppDetails(id.clone()),
            PopoverAction::AppQuit(id) => PopoverAction::AppQuit(id.clone()),
            PopoverAction::CloseNotification(id) => PopoverAction::CloseNotification(*id),
            PopoverAction::InvokeNotificationAction {
                notification,
                key,
            } => PopoverAction::InvokeNotificationAction {
                notification: *notification,
                key: key.clone(),
            },
            PopoverAction::ActivateNotification {
                notification,
                has_default,
            } => PopoverAction::ActivateNotification {
                notification: *notification,
                has_default: *has_default,
            },
            PopoverAction::CloseNotificationGroup(
                ids,
            ) => PopoverAction::CloseNotificationGroup(ids.clone()),
            PopoverAction::ClearNotifications => PopoverAction::ClearNotifications,
            PopoverAction::MediaControl { bus_name, control } => PopoverAction::MediaControl {
                bus_name: bus_name.clone(),
                control: *control,
            },
            PopoverAction::RaiseMediaPlayer(bus_name) => PopoverAction::RaiseMediaPlayer(
                bus_name.clone(),
            ),
        }
    }
}

} // verus!
