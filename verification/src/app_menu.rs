//! An app's context menu: its open windows, its launch verbs, pinning, details, quitting.

use vstd::prelude::*;

use crate::popover::{
    entry_views, item_labels, labels_of, lemma_labels_add, ActionView, EntryView, MenuEntry,
    MenuHit, PopoverAction,
};
use crate::text::{opt_view, same_text, views};

verus! {

/// A verb the app's desktop file offers.
pub struct DesktopAction {
    pub id: String,
    pub name: String,
}

/// An app of the catalog.
pub struct AppEntry {
    pub id: String,
    pub name: String,
    pub actions: Vec<DesktopAction>,
}

#[derive(Clone, Copy, Debug, PartialEq, Eq, Structural)]
pub enum AppState {
    Stopped,
    Starting,
    Running,
}

/// One of the app's open windows.
pub struct RunningWindow {
    pub id: u64,
    pub title: Option<String>,
}

/// What the menu needs to know about the app beyond its catalog entry. Taken once, because
/// activating any row closes the menu.
pub struct AppMenuContext<'a> {
    pub entry: &'a AppEntry,
    pub is_favorite: bool,
    pub state: AppState,
    /// Most recently used first.
    pub windows: &'a Vec<RunningWindow>,
    /// Whether an app that shows details about others is installed.
    pub has_software: bool,
}

/// What activating a row does.
#[derive(Debug, PartialEq, Eq)]
pub enum RowAction {
    NewWindow,
    LaunchAction(String),
    ToggleFavorite,
    ActivateWindow(u64),
    AppDetails,
    Quit,
}

/// What a row does, by its characters.
pub enum RowActionView {
    NewWindow,
    LaunchAction(Seq<char>),
    ToggleFavorite,
    ActivateWindow(u64),
    AppDetails,
    Quit,
}

impl View for RowAction {
    type V = RowActionView;

    open spec fn view(&self) -> RowActionView {
        match *self {
            RowAction::NewWindow => RowActionView::NewWindow,
            RowAction::LaunchAction(id) => RowActionView::LaunchAction(id@),
            RowAction::ToggleFavorite => RowActionView::ToggleFavorite,
            RowAction::ActivateWindow(id) => RowActionView::ActivateWindow(id),
            RowAction::AppDetails => RowActionView::AppDetails,
            RowAction::Quit => RowActionView::Quit,
        }
    }
}

/// A row of the menu.
pub struct Row {
    pub label: Seq<char>,
    pub action: RowActionView,
}

/// A window's row: its title, or the app's name where it has none.
pub open spec fn window_row(window: RunningWindow, name: Seq<char>) -> Row {
    Row {
        label: match opt_view(window.title) {
            Some(title) if title.len() > 0 => title,
            _ => name,
        },
        action: RowActionView::ActivateWindow(window.id),
    }
}

pub open spec fn window_rows(windows: Seq<RunningWindow>, name: Seq<char>) -> Seq<Row> {
    windows.map_values(|w: RunningWindow| window_row(w, name))
}

pub open spec fn verb_rows(actions: Seq<DesktopAction>) -> Seq<Row> {
    actions.map_values(
        |a: DesktopAction| Row { label: a.name@, action: RowActionView::LaunchAction(a.id@) },
    )
}

/// One of the app's own verbs opens a new window.
pub open spec fn has_new_window(actions: Seq<DesktopAction>) -> bool {
    exists|i: int| 0 <= i < actions.len() && (#[trigger] actions[i]).id@ == "new-window"@
}

/// The launch verbs. "New Window" is left out where one of the app's own would restate it,
/// and while the app is starting.
pub open spec fn launch_rows(actions: Seq<DesktopAction>, state: AppState) -> Seq<Row> {
    let own = if !has_new_window(actions) && state != AppState::Starting {
        seq![Row { label: "New Window"@, action: RowActionView::NewWindow }]
    } else {
        Seq::empty()
    };
    own + verb_rows(actions)
}

pub open spec fn favorite_rows(is_favorite: bool) -> Seq<Row> {
    seq![
        Row {
            label: if is_favorite {
                "Unpin"@
            } else {
                "Pin to Dash"@
            },
            action: RowActionView::ToggleFavorite,
        },
    ]
}

/// The app's details, with something installed to show them.
pub open spec fn details_rows(has_software: bool) -> Seq<Row> {
    if has_software {
        seq![Row { label: "App Details"@, action: RowActionView::AppDetails }]
    } else {
        Seq::empty()
    }
}

/// Quitting, for a running app.
pub open spec fn quit_rows(state: AppState) -> Seq<Row> {
    if state == AppState::Running {
        seq![Row { label: "Quit"@, action: RowActionView::Quit }]
    } else {
        Seq::empty()
    }
}

/// The rows as menu lines, numbered from `first`.
pub open spec fn numbered(rows: Seq<Row>, first: int) -> Seq<EntryView> {
    Seq::new(
        rows.len(),
        |i: int| EntryView::Item { id: (first + i) as u64, label: rows[i].label },
    )
}

/// One more group of lines, set apart by a separator from what stands above it.
pub open spec fn with_group(lines: Seq<EntryView>, group: Seq<EntryView>) -> Seq<EntryView> {
    if group.len() == 0 {
        lines
    } else if lines.len() == 0 {
        group
    } else {
        lines.push(EntryView::Separator) + group
    }
}

/// The windows' lines, under their header.
pub open spec fn window_lines(rows: Seq<Row>) -> Seq<EntryView> {
    if rows.len() == 0 {
        Seq::empty()
    } else {
        seq![EntryView::SectionHeader("Open Windows"@)] + numbered(rows, 0)
    }
}

impl<'a> AppMenuContext<'a> {
    /// All rows, top to bottom. A row's number is its place in this list.
    pub open spec fn rows(&self) -> Seq<Row> {
        self.rows_to_favorite() + details_rows(self.has_software) + quit_rows(self.state)
    }

    pub open spec fn rows_to_favorite(&self) -> Seq<Row> {
        window_rows(self.windows@, self.entry.name@) + launch_rows(
            self.entry.actions@,
            self.state,
        ) + favorite_rows(self.is_favorite)
    }

    /// The menu's lines: the groups that have rows, with a separator between any two.
    pub open spec fn lines(&self) -> Seq<EntryView> {
        let windows = window_rows(self.windows@, self.entry.name@);
        let launch = launch_rows(self.entry.actions@, self.state);
        let at_launch = windows.len() as int;
        let at_favorite = at_launch + launch.len();
        let details = details_rows(self.has_software);
        let at_details = at_favorite + 1;
        let at_quit = at_details + details.len();
        with_group(
            with_group(
                with_group(
                    with_group(window_lines(windows), numbered(launch, at_launch)),
                    numbered(favorite_rows(self.is_favorite), at_favorite),
                ),
                numbered(details, at_details),
            ),
            numbered(quit_rows(self.state), at_quit),
        )
    }
}

pub struct AppMenu {
    /// The app this menu is for.
    pub app_id: String,
    pub entries: Vec<MenuEntry>,
    /// What each row does, by the number the menu hands back.
    pub actions: Vec<RowAction>,
}

/// The rows so far, and the lines of the group being built.
struct Builder {
    actions: Vec<RowAction>,
    group: Vec<MenuEntry>,
}

pub open spec fn row_action_views(actions: Seq<RowAction>) -> Seq<RowActionView> {
    actions.map_values(|a: RowAction| a@)
}

impl Builder {
    fn row(&mut self, label: String, action: RowAction)
        ensures
            row_action_views(final(self).actions@) == row_action_views(old(self).actions@).push(
                action@,
            ),
            entry_views(final(self).group@) == entry_views(old(self).group@).push(
                EntryView::Item { id: old(self).actions@.len() as u64, label: label@ },
            ),
            final(self).actions@.len() == old(self).actions@.len() + 1,
    {
        let id: u64 = self.actions.len() as u64;
        self.actions.push(action);
        self.group.push(MenuEntry::Item { id, label });
        assert(row_action_views(self.actions@) =~= row_action_views(old(self).actions@).push(
            action@,
        ));
        assert(entry_views(self.group@) =~= entry_views(old(self).group@).push(
            EntryView::Item { id: old(self).actions@.len() as u64, label: label@ },
        ));
    }

    /// The open windows, headed by a label.
    fn add_windows(&mut self, windows: &Vec<RunningWindow>, name: &String)
        requires
            old(self).actions@.len() == 0,
            old(self).group@.len() == 0,
        ensures
            row_action_views(final(self).actions@) == actions_of(window_rows(windows@, name@)),
            final(self).actions@.len() == windows@.len(),
            entry_views(final(self).group@) == window_lines(window_rows(windows@, name@)),
    {
        let ghost rows = window_rows(windows@, name@);
        if windows.len() == 0 {
            assert(row_action_views(self.actions@) =~= actions_of(rows));
            assert(entry_views(self.group@) =~= window_lines(rows));
            return ;
        }
        let ghost header = seq![EntryView::SectionHeader("Open Windows"@)];
        self.group.push(MenuEntry::SectionHeader("Open Windows".to_owned()));
        assert(entry_views(self.group@) =~= header + numbered(rows.take(0), 0));
        assert(row_action_views(self.actions@) =~= actions_of(rows.take(0)));
        let mut i: usize = 0;
        while i < windows.len()
            invariant
                i <= windows@.len(),
                rows == window_rows(windows@, name@),
                self.actions@.len() == i,
                row_action_views(self.actions@) == actions_of(rows.take(i as int)),
                entry_views(self.group@) == header + numbered(rows.take(i as int), 0),
            decreases windows@.len() - i,
        {
            let window = &windows[i];
            let label = match &window.title {
                Some(title) => if title.as_str().is_empty() {
                    name.clone()
                } else {
                    title.clone()
                },
                None => name.clone(),
            };
            assert(label@ == rows[i as int].label);
            self.row(label, RowAction::ActivateWindow(window.id));
            proof {
                lemma_one_more(rows, i as int, 0);
            }
            i = i + 1;
            assert(entry_views(self.group@) =~= header + numbered(rows.take(i as int), 0));
        }
        assert(rows.take(i as int) =~= rows);
    }

    /// The launch verbs.
    fn add_launch(&mut self, actions: &Vec<DesktopAction>, state: AppState)
        requires
            old(self).group@.len() == 0,
        ensures
            row_action_views(final(self).actions@) == row_action_views(old(self).actions@)
                + actions_of(launch_rows(actions@, state)),
            final(self).actions@.len() == old(self).actions@.len() + launch_rows(
                actions@,
                state,
            ).len(),
            entry_views(final(self).group@) == numbered(
                launch_rows(actions@, state),
                old(self).actions@.len() as int,
            ),
    {
        let ghost rows = launch_rows(actions@, state);
        let ghost at = self.actions@.len() as int;
        let ghost above = row_action_views(self.actions@);
        let mut restated = false;
        let mut i: usize = 0;
        while i < actions.len()
            invariant
                i <= actions@.len(),
                restated == exists|j: int|
                    0 <= j < i && (#[trigger] actions@[j]).id@ == "new-window"@,
            decreases actions@.len() - i,
        {
            if same_text(actions[i].id.as_str(), "new-window") {
                restated = true;
            }
            i = i + 1;
        }
        let own: usize = if !restated && state != AppState::Starting {
            1
        } else {
            0
        };
        assert(rows.len() == own + actions@.len());
        if own == 1 {
            self.row("New Window".to_owned(), RowAction::NewWindow);
            assert(rows[0] == (Row { label: "New Window"@, action: RowActionView::NewWindow }));
        }
        assert(entry_views(self.group@) =~= numbered(rows.take(own as int), at));
        assert(row_action_views(self.actions@) =~= above + actions_of(rows.take(own as int)));
        let mut i: usize = 0;
        while i < actions.len()
            invariant
                i <= actions@.len(),
                own <= 1,
                rows == launch_rows(actions@, state),
                rows.len() == own + actions@.len(),
                self.actions@.len() == at + own + i,
                row_action_views(self.actions@) == above + actions_of(rows.take(own + i)),
                entry_views(self.group@) == numbered(rows.take(own + i), at),
            decreases actions@.len() - i,
        {
            let action = &actions[i];
            assert(rows[own + i] == verb_rows(actions@)[i as int]);
            self.row(action.name.clone(), RowAction::LaunchAction(action.id.clone()));
            proof {
                lemma_one_more(rows, own + i, at);
            }
            i = i + 1;
            assert(row_action_views(self.actions@) =~= above + actions_of(rows.take(own + i)));
        }
        assert(rows.take(own + i) =~= rows);
    }

    /// One row, if it is offered.
    fn add_one(&mut self, offered: bool, label: &str, action: RowAction)
        requires
            old(self).group@.len() == 0,
        ensures
            ({
                let rows = if offered {
                    seq![Row { label: label@, action: action@ }]
                } else {
                    Seq::empty()
                };
                &&& row_action_views(final(self).actions@) == row_action_views(old(self).actions@)
                    + actions_of(rows)
                &&& final(self).actions@.len() == old(self).actions@.len() + rows.len()
                &&& entry_views(final(self).group@) == numbered(
                    rows,
                    old(self).actions@.len() as int,
                )
            }),
    {
        let ghost rows = if offered {
            seq![Row { label: label@, action: action@ }]
        } else {
            Seq::<Row>::empty()
        };
        let ghost at = self.actions@.len() as int;
        let ghost above = row_action_views(self.actions@);
        if offered {
            self.row(label.to_owned(), action);
        }
        assert(row_action_views(self.actions@) =~= above + actions_of(rows));
        assert(entry_views(self.group@) =~= numbered(rows, at));
    }

    /// Close the group: set it below the lines, with a separator if both hold something.
    fn close(&mut self, lines: &mut Vec<MenuEntry>)
        ensures
            entry_views(final(lines)@) == with_group(
                entry_views(old(lines)@),
                entry_views(old(self).group@),
            ),
            final(self).group@.len() == 0,
            final(self).actions == old(self).actions,
    {
        if self.group.len() > 0 {
            if lines.len() > 0 {
                lines.push(MenuEntry::Separator);
                assert(entry_views(lines@) =~= entry_views(old(lines)@).push(EntryView::Separator));
            }
            let ghost above = lines@;
            let ghost added = self.group@;
            lines.append(&mut self.group);
            assert(lines@ =~= above + added);
            assert(entry_views(lines@) =~= entry_views(above) + entry_views(added));
            proof {
                if old(lines)@.len() == 0 {
                    assert(entry_views(lines@) =~= entry_views(added));
                }
            }
        }
    }
}

/// What the rows do.
pub open spec fn actions_of(rows: Seq<Row>) -> Seq<RowActionView> {
    rows.map_values(|r: Row| r.action)
}

impl AppMenu {
    /// Build the menu from a snapshot of the app.
    pub fn new(ctx: &AppMenuContext<'_>) -> (menu: Self)
        ensures
            menu.app_id@ == ctx.entry.id@,
            entry_views(menu.entries@) == ctx.lines(),
            row_action_views(menu.actions@) == actions_of(ctx.rows()),
    {
        let entry = ctx.entry;
        let ghost windows = window_rows(ctx.windows@, entry.name@);
        let ghost launch = launch_rows(entry.actions@, ctx.state);
        let ghost favorite = favorite_rows(ctx.is_favorite);
        let ghost details = details_rows(ctx.has_software);
        let ghost quit = quit_rows(ctx.state);
        let mut lines: Vec<MenuEntry> = Vec::new();
        let mut b = Builder { actions: Vec::new(), group: Vec::new() };
        assert(entry_views(lines@) =~= Seq::empty());
        b.add_windows(ctx.windows, &entry.name);
        b.close(&mut lines);
        b.add_launch(&entry.actions, ctx.state);
        b.close(&mut lines);
        let label = if ctx.is_favorite {
            "Unpin"
        } else {
            "Pin to Dash"
        };
        b.add_one(true, label, RowAction::ToggleFavorite);
        b.close(&mut lines);
        b.add_one(ctx.has_software, "App Details", RowAction::AppDetails);
        b.close(&mut lines);
        b.add_one(ctx.state == AppState::Running, "Quit", RowAction::Quit);
        b.close(&mut lines);
        assert(row_action_views(b.actions@) =~= actions_of(
            windows + launch + favorite + details + quit,
        ));
        AppMenu { app_id: entry.id.clone(), entries: lines, actions: b.actions }
    }

    /// Every item's label, top to bottom, separators excluded.
    pub fn labels(&self) -> (labels: Vec<String>)
        ensures
            views(labels@) == item_labels(entry_views(self.entries@)),
    {
        labels_of(&self.entries)
    }

    /// Route a click that the menu answered with `hit` to its action. A click that activates
    /// no row is consumed without doing anything.
    pub fn pointer_click(&self, hit: MenuHit) -> (action: PopoverAction)
        ensures
            action@ == match hit {
                MenuHit::Activated(id) if id < self.actions@.len() => asked(
                    self.actions@[id as int]@,
                    self.app_id@,
                ),
                _ => ActionView::Consumed,
            },
            // Activating any row closes the menu.
            action@.closes() == Some(
                hit matches MenuHit::Activated(id) && id < self.actions@.len(),
            ),
    {
        let id: u64 = match hit {
            MenuHit::Activated(id) => id,
            MenuHit::Other => {
                return PopoverAction::Consumed;
            },
        };
        if id >= self.actions.len() as u64 {
            return PopoverAction::Consumed;
        }
        let app = self.app_id.clone();
        match &self.actions[id as usize] {
            RowAction::NewWindow => PopoverAction::AppNewWindow(app),
            RowAction::LaunchAction(action) => PopoverAction::AppLaunchAction {
                id: app,
                action: action.clone(),
            },
            RowAction::ToggleFavorite => PopoverAction::AppToggleFavorite(app),
            RowAction::ActivateWindow(window) => PopoverAction::AppActivateWindow(*window),
            RowAction::AppDetails => PopoverAction::AppDetails(app),
            RowAction::Quit => PopoverAction::AppQuit(app),
        }
    }
}

/// What a row asks the shell to do for an app.
pub open spec fn asked(row: RowActionView, app: Seq<char>) -> ActionView {
    match row {
        RowActionView::NewWindow => ActionView::AppNewWindow(app),
        RowActionView::LaunchAction(action) => ActionView::AppLaunchAction { id: app, action },
        RowActionView::ToggleFavorite => ActionView::AppToggleFavorite(app),
        RowActionView::ActivateWindow(window) => ActionView::AppActivateWindow(window),
        RowActionView::AppDetails => ActionView::AppDetails(app),
        RowActionView::Quit => ActionView::AppQuit(app),
    }
}

/// One more row is one more line.
proof fn lemma_one_more(rows: Seq<Row>, i: int, first: int)
    requires
        0 <= i < rows.len(),
    ensures
        numbered(rows.take(i + 1), first) == numbered(rows.take(i), first).push(
            EntryView::Item { id: (first + i) as u64, label: rows[i].label },
        ),
        actions_of(rows.take(i + 1)) == actions_of(rows.take(i)).push(rows[i].action),
{
    assert(numbered(rows.take(i + 1), first) =~= numbered(rows.take(i), first).push(
        EntryView::Item { id: (first + i) as u64, label: rows[i].label },
    ));
    assert(actions_of(rows.take(i + 1)) =~= actions_of(rows.take(i)).push(rows[i].action));
}

/// No separator leads a menu, trails it or stands next to another.
pub open spec fn tidy(lines: Seq<EntryView>) -> bool {
    &&& lines.len() > 0 ==> !(lines[0] is Separator) && !(lines.last() is Separator)
    &&& forall|i: int|
        0 <= i < lines.len() - 1 ==> !((#[trigger] lines[i]) is Separator && lines[i
            + 1] is Separator)
}

proof fn lemma_group_keeps_tidy(lines: Seq<EntryView>, group: Seq<EntryView>)
    requires
        tidy(lines),
        forall|i: int| 0 <= i < group.len() ==> !((#[trigger] group[i]) is Separator),
    ensures
        tidy(with_group(lines, group)),
{
    let all = with_group(lines, group);
    if group.len() > 0 && lines.len() > 0 {
        assert forall|i: int| 0 <= i < all.len() - 1 implies !((#[trigger] all[i]) is Separator
            && all[i + 1] is Separator) by {
            if i + 1 < lines.len() {
                assert(all[i] == lines[i] && all[i + 1] == lines[i + 1]);
            } else if i + 1 == lines.len() {
                assert(all[i] == lines.last());
            } else {
                assert(all[i + 1] == group[i - lines.len()]);
            }
        }
        assert(all[0] == lines[0]);
        assert(all.last() == group[group.len() - 1]);
    }
}

/// However few groups an app has, its menu has no separator at either end and never two in a
/// row.
pub proof fn law_separators_stand_between_groups(ctx: AppMenuContext<'_>)
    ensures
        tidy(ctx.lines()),
{
    let windows = window_rows(ctx.windows@, ctx.entry.name@);
    let launch = launch_rows(ctx.entry.actions@, ctx.state);
    let at = windows.len() as int;
    let a = window_lines(windows);
    assert(tidy(a));
    let details = details_rows(ctx.has_software);
    let g1 = numbered(launch, at);
    let g2 = numbered(favorite_rows(ctx.is_favorite), at + launch.len());
    let g3 = numbered(details, at + launch.len() + 1);
    let g4 = numbered(quit_rows(ctx.state), at + launch.len() + 1 + details.len());
    lemma_group_keeps_tidy(a, g1);
    let b = with_group(a, g1);
    lemma_group_keeps_tidy(b, g2);
    let c = with_group(b, g2);
    lemma_group_keeps_tidy(c, g3);
    let d = with_group(c, g3);
    lemma_group_keeps_tidy(d, g4);
}

/// Pinning is always offered, quitting exactly for a running app, and details exactly where
/// something can show them.
pub proof fn law_what_the_menu_offers(ctx: AppMenuContext<'_>)
    ensures
        actions_of(ctx.rows()).contains(RowActionView::ToggleFavorite),
        actions_of(ctx.rows()).contains(RowActionView::Quit) <==> ctx.state == AppState::Running,
        actions_of(ctx.rows()).contains(RowActionView::AppDetails) <==> ctx.has_software,
        actions_of(ctx.rows()).contains(RowActionView::NewWindow) <==> !has_new_window(
            ctx.entry.actions@,
        ) && ctx.state != AppState::Starting,
{
    let windows = window_rows(ctx.windows@, ctx.entry.name@);
    let verbs = verb_rows(ctx.entry.actions@);
    let launch = launch_rows(ctx.entry.actions@, ctx.state);
    let favorite = favorite_rows(ctx.is_favorite);
    let details = details_rows(ctx.has_software);
    let quit = quit_rows(ctx.state);
    let rows = ctx.rows();
    let acts = actions_of(rows);
    let n: int = windows.len() + launch.len() as int;
    assert(rows[n] == favorite[0]);
    assert(acts[n] == RowActionView::ToggleFavorite);
    if ctx.state == AppState::Running {
        let last = rows.len() - 1;
        assert(rows[last] == quit[0]);
        assert(acts[last] == RowActionView::Quit);
    }
    if ctx.has_software {
        assert(rows[n + 1] == details[0]);
        assert(acts[n + 1] == RowActionView::AppDetails);
    }
    if !has_new_window(ctx.entry.actions@) && ctx.state != AppState::Starting {
        assert(rows[windows.len() as int] == launch[0]);
        assert(acts[windows.len() as int] == RowActionView::NewWindow);
    }
    assert forall|i: int| 0 <= i < rows.len() implies {
        &&& (#[trigger] acts[i]) is Quit ==> ctx.state == AppState::Running
        &&& acts[i] is AppDetails ==> ctx.has_software
        &&& acts[i] is NewWindow ==> !has_new_window(ctx.entry.actions@) && ctx.state
            != AppState::Starting
    } by {
        if i < windows.len() {
            assert(rows[i] == windows[i]);
        } else if i < n {
            assert(rows[i] == launch[i - windows.len()]);
            let own = launch.len() - verbs.len();
            if i - windows.len() >= own {
                assert(launch[i - windows.len()] == verbs[i - windows.len() - own]);
            }
        } else if i == n {
            assert(rows[i] == favorite[0]);
        } else if i < n + 1 + details.len() {
            assert(rows[i] == details[i - n - 1]);
        } else {
            assert(rows[i] == quit[i - n - 1 - details.len()]);
        }
    }
}

/// The labels of some rows.
pub open spec fn row_labels(rows: Seq<Row>) -> Seq<Seq<char>> {
    rows.map_values(|r: Row| r.label)
}

proof fn lemma_numbered_labels(rows: Seq<Row>, first: int)
    ensures
        item_labels(numbered(rows, first)) == row_labels(rows),
    decreases rows.len(),
{
    if rows.len() == 0 {
        assert(row_labels(rows) =~= item_labels(numbered(rows, first)));
    } else {
        let rest = rows.drop_last();
        lemma_numbered_labels(rest, first);
        assert(numbered(rows, first).drop_last() =~= numbered(rest, first));
        assert(row_labels(rows) =~= row_labels(rest).push(rows.last().label));
    }
}

proof fn lemma_group_labels(lines: Seq<EntryView>, rows: Seq<Row>, first: int)
    ensures
        item_labels(with_group(lines, numbered(rows, first))) == item_labels(lines) + row_labels(
            rows,
        ),
{
    let group = numbered(rows, first);
    lemma_numbered_labels(rows, first);
    if rows.len() == 0 {
        assert(item_labels(lines) + row_labels(rows) =~= item_labels(lines));
    } else if lines.len() == 0 {
        assert(item_labels(lines) + row_labels(rows) =~= row_labels(rows));
    } else {
        lemma_labels_add(lines.push(EntryView::Separator), group);
        assert(lines.push(EntryView::Separator).drop_last() =~= lines);
    }
}

/// What a person reads down the menu is the rows' labels, in the order of their numbers.
pub proof fn law_the_labels_are_the_rows(ctx: AppMenuContext<'_>)
    ensures
        item_labels(ctx.lines()) == row_labels(ctx.rows()),
{
    let windows = window_rows(ctx.windows@, ctx.entry.name@);
    let launch = launch_rows(ctx.entry.actions@, ctx.state);
    let favorite = favorite_rows(ctx.is_favorite);
    let details = details_rows(ctx.has_software);
    let quit = quit_rows(ctx.state);
    let at = windows.len() as int;
    let a = window_lines(windows);
    lemma_numbered_labels(windows, 0);
    if windows.len() > 0 {
        let header = seq![EntryView::SectionHeader("Open Windows"@)];
        lemma_labels_add(header, numbered(windows, 0));
        assert(header.drop_last() =~= Seq::empty());
        reveal_with_fuel(item_labels, 2);
        assert(item_labels(header) =~= Seq::empty());
    }
    assert(item_labels(a) =~= row_labels(windows));
    lemma_group_labels(a, launch, at);
    let b = with_group(a, numbered(launch, at));
    lemma_group_labels(b, favorite, at + launch.len());
    let c = with_group(b, numbered(favorite, at + launch.len()));
    lemma_group_labels(c, details, at + launch.len() + 1);
    let d = with_group(c, numbered(details, at + launch.len() + 1));
    lemma_group_labels(d, quit, at + launch.len() + 1 + details.len());
    assert(row_labels(ctx.rows()) =~= row_labels(windows) + row_labels(launch) + row_labels(
        favorite,
    ) + row_labels(details) + row_labels(quit));
}

/// The row of an open window brings up that window; the row of one of the app's verbs runs
/// that verb of that app. The windows come first, in the order given.
pub proof fn law_a_row_does_what_it_is_for(
    ctx: AppMenuContext<'_>,
    menu: AppMenu,
    row: u64,
    i: int,
    action: PopoverAction,
)
    requires
        call_ensures(AppMenu::new, (&ctx,), menu),
        call_ensures(AppMenu::pointer_click, (&menu, MenuHit::Activated(row)), action),
        0 <= i,
    ensures
        row == i && i < ctx.windows@.len() ==> action@ == ActionView::AppActivateWindow(
            ctx.windows@[i].id,
        ),
        ({
            let offered = ctx.state != AppState::Starting && (forall|j: int|
                0 <= j < ctx.entry.actions@.len() ==> (#[trigger] ctx.entry.actions@[j]).id@
                    != "new-window"@);
            let verbs = ctx.windows@.len() + if offered {
                1int
            } else {
                0
            };
            let pin = verbs + ctx.entry.actions@.len();
            let details = pin + 1;
            let quit = details + if ctx.has_software {
                1int
            } else {
                0
            };
            &&& offered && row == ctx.windows@.len() ==> action@ == ActionView::AppNewWindow(
                ctx.entry.id@,
            )
            &&& row == verbs + i && i < ctx.entry.actions@.len() ==> action@
                == (ActionView::AppLaunchAction {
                id: ctx.entry.id@,
                action: ctx.entry.actions@[i].id@,
            })
            &&& row == pin ==> action@ == ActionView::AppToggleFavorite(ctx.entry.id@)
            &&& ctx.has_software && row == details ==> action@ == ActionView::AppDetails(
                ctx.entry.id@,
            )
            &&& ctx.state == AppState::Running && row == quit ==> action@ == ActionView::AppQuit(
                ctx.entry.id@,
            )
            &&& row >= quit && ctx.state != AppState::Running ==> action@ == ActionView::Consumed
            &&& row > quit ==> action@ == ActionView::Consumed
        }),
{
    let windows = window_rows(ctx.windows@, ctx.entry.name@);
    let verbs = verb_rows(ctx.entry.actions@);
    let launch = launch_rows(ctx.entry.actions@, ctx.state);
    let favorite = favorite_rows(ctx.is_favorite);
    let details = details_rows(ctx.has_software);
    let quit = quit_rows(ctx.state);
    let rows = ctx.rows();
    let acts = actions_of(rows);
    let own = launch.len() - verbs.len();
    let r = row as int;
    assert(row_action_views(menu.actions@).len() == menu.actions@.len());
    if r < rows.len() {
        assert(acts[r] == rows[r].action);
        assert(row_action_views(menu.actions@)[r] == menu.actions@[r]@);
        if r < windows.len() {
            assert(rows[r] == windows[r]);
        } else if r < windows.len() + launch.len() {
            assert(rows[r] == launch[r - windows.len()]);
            if r - windows.len() >= own {
                assert(launch[r - windows.len()] == verbs[r - windows.len() - own]);
            }
        } else if r == windows.len() + launch.len() {
            assert(rows[r] == favorite[0]);
        } else if r < windows.len() + launch.len() + 1 + details.len() {
            assert(rows[r] == details[r - windows.len() - launch.len() - 1]);
        } else {
            assert(rows[r] == quit[r - windows.len() - launch.len() - 1 - details.len()]);
        }
    }
}

/// A menu reads down: an open window's row by its title, or by the app's name where it has
/// none, a verb's by its name; pinning as what it would do.
pub proof fn law_a_row_reads_as_what_it_is_for(
    ctx: AppMenuContext<'_>,
    menu: AppMenu,
    labels: Vec<String>,
    i: int,
)
    requires
        call_ensures(AppMenu::new, (&ctx,), menu),
        call_ensures(AppMenu::labels, (&menu,), labels),
        0 <= i,
    ensures
        labels@.len() == menu.actions@.len(),
        i < ctx.windows@.len() ==> labels@[i]@ == match ctx.windows@[i].title {
            Some(title) => if title@.len() > 0 {
                title@
            } else {
                ctx.entry.name@
            },
            None => ctx.entry.name@,
        },
        ctx.state == AppState::Running ==> labels@.last()@ == "Quit"@,
        ctx.state != AppState::Running && !ctx.has_software ==> labels@.last()@
            == if ctx.is_favorite {
            "Unpin"@
        } else {
            "Pin to Dash"@
        },
        ctx.state == AppState::Starting && i < ctx.entry.actions@.len()
            ==> labels@[ctx.windows@.len() + i]@ == ctx.entry.actions@[i].name@,
{
    law_the_labels_are_the_rows(ctx);
    let rows = ctx.rows();
    let windows = window_rows(ctx.windows@, ctx.entry.name@);
    let verbs = verb_rows(ctx.entry.actions@);
    let launch = launch_rows(ctx.entry.actions@, ctx.state);
    let favorite = favorite_rows(ctx.is_favorite);
    let quit = quit_rows(ctx.state);
    let read = views(labels@);
    assert(read == row_labels(rows));
    assert(read.len() == labels@.len());
    assert(row_action_views(menu.actions@).len() == menu.actions@.len());
    assert(actions_of(rows).len() == rows.len());
    if i < ctx.windows@.len() {
        assert(rows[i] == windows[i]);
        assert(read[i] == labels@[i]@);
        assert(row_labels(rows)[i] == rows[i].label);
    }
    let last = rows.len() - 1;
    assert(read[last] == labels@[last]@);
    assert(row_labels(rows)[last] == rows[last].label);
    if ctx.state == AppState::Running {
        assert(rows[last] == quit[0]);
    } else if !ctx.has_software {
        assert(rows[last] == favorite[0]);
    }
    if ctx.state == AppState::Starting && i < ctx.entry.actions@.len() {
        let at = windows.len() + i;
        assert(rows[at] == launch[i]);
        assert(launch[i] == verbs[i]);
        assert(read[at] == labels@[at]@);
        assert(row_labels(rows)[at] == rows[at].label);
    }
}

} // verus!
