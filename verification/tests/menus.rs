use synoik_ui::a11y_menu::{
    A11yMeasure, A11yMenu, A11ySettings, RowKind, ROWS, ROW_H, TEXT_INSET, TOGGLES,
};
use synoik_ui::app_menu::{
    AppEntry, AppMenu, AppMenuContext, AppState, DesktopAction, RunningWindow,
};
use synoik_ui::area::UNITS;
use synoik_ui::background_menu::BackgroundMenu;
use synoik_ui::popover::{A11yToggle, MenuEntry, MenuHit, PopoverAction, SETTINGS_DESKTOP_ID};

const ALL: [A11yToggle; 10] = [
    A11yToggle::HighContrast,
    A11yToggle::Zoom,
    A11yToggle::LargeText,
    A11yToggle::ScreenReader,
    A11yToggle::ScreenKeyboard,
    A11yToggle::VisualAlerts,
    A11yToggle::StickyKeys,
    A11yToggle::SlowKeys,
    A11yToggle::BounceKeys,
    A11yToggle::MouseKeys,
];

fn all_off() -> A11ySettings {
    A11ySettings::default()
}

/// Labels of 80 to 98 pixels, and switches of 46 by 26.
fn measure() -> A11yMeasure {
    let px = |n: i64| n * UNITS as i64;
    A11yMeasure {
        labels: (0..10).map(|k| px(80 + 2 * k)).collect(),
        settings_w: px(160),
        switch_w: px(46),
        switch_h: px(26),
    }
}

fn center(m: &A11yMenu, k: usize) -> (i64, i64) {
    let (x, y) = m.row_center(&measure(), k);
    ((x / 2) as i64, (y / 2) as i64)
}

fn click_row(m: &A11yMenu, k: usize) -> PopoverAction {
    let (x, y) = center(m, k);
    m.pointer_click(&measure(), x, y)
}

#[test]
fn rows_follow_gnome_order_and_toggle_the_right_key() {
    let m = A11yMenu::new(all_off());
    for (k, &toggle) in ALL.iter().enumerate() {
        assert_eq!(
            click_row(&m, k),
            PopoverAction::SetA11yToggle { toggle, on: true },
            "row {k} should be {toggle:?}",
        );
    }
    // The trailing item is the settings action, past the separator.
    assert!(matches!(click_row(&m, ALL.len()),
            PopoverAction::Spawn(c) if c == ["gtk-launch", "gnome-universal-access-panel"]));
}

#[test]
fn clicking_an_on_row_turns_it_off() {
    let mut settings = all_off();
    settings.set(A11yToggle::Zoom, true);
    settings.set(A11yToggle::LargeText, true);
    let m = A11yMenu::new(settings);

    assert_eq!(
        click_row(&m, 1),
        PopoverAction::SetA11yToggle {
            toggle: A11yToggle::Zoom,
            on: false
        }
    );
    assert_eq!(
        click_row(&m, 2),
        PopoverAction::SetA11yToggle {
            toggle: A11yToggle::LargeText,
            on: false
        }
    );
}

#[test]
fn hover_tracks_rows_and_reports_change() {
    let mut m = A11yMenu::new(all_off());
    let first = center(&m, 0);
    assert!(m.pointer_hover(&measure(), Some(first)));
    assert_eq!(m.hovered, Some(0));
    assert!(!m.pointer_hover(&measure(), Some(first)));
    assert!(m.pointer_hover(&measure(), None));
    assert_eq!(m.hovered, None);
}

#[test]
fn an_external_write_moves_an_open_menus_switch() {
    let mut m = A11yMenu::new(all_off());
    let before = m.revision;

    let mut changed = all_off();
    changed.set(A11yToggle::Zoom, true);
    assert!(m.set_settings(changed));
    assert!(m.revision > before, "the bake must be invalidated");

    // The row now reads as on, so clicking it asks to turn it OFF.
    assert_eq!(
        click_row(&m, 1),
        PopoverAction::SetA11yToggle {
            toggle: A11yToggle::Zoom,
            on: false
        }
    );

    // Re-pushing the same state is a no-op (no redraw churn).
    assert!(!m.set_settings(changed));
}

#[test]
fn a_switch_is_read_back_and_no_other_moves() {
    for toggle in ALL {
        let mut settings = all_off();
        settings.set(toggle, true);
        for other in ALL {
            assert_eq!(settings.get(other), other == toggle);
        }
    }
}

#[test]
fn toggling_closes_the_menu() {
    let m = A11yMenu::new(all_off());
    assert_eq!(click_row(&m, 0).closes_menu(), Some(true));
}

#[test]
fn actions_close_their_menu_and_clicks_on_nothing_do_not() {
    let app = || "a".to_owned();
    assert_eq!(PopoverAction::Consumed.closes_menu(), Some(false));
    for action in [
        PopoverAction::Spawn(vec![app()]),
        PopoverAction::AppNewWindow(app()),
        PopoverAction::AppLaunchAction { id: app(), action: app() },
        PopoverAction::AppToggleFavorite(app()),
        PopoverAction::AppActivateWindow(1),
        PopoverAction::AppDetails(app()),
        PopoverAction::AppQuit(app()),
        PopoverAction::RaiseMediaPlayer(app()),
    ] {
        assert_eq!(action.closes_menu(), Some(true));
    }
    assert_eq!(PopoverAction::ClearNotifications.closes_menu(), None);
}

#[test]
fn switches_sit_at_the_right_end_of_their_row() {
    let m = A11yMenu::new(all_off());
    for k in 0..ALL.len() {
        let row = m.row_rect(&measure(), k);
        let sw = m.switch_rect(&measure(), k);
        assert!(
            2 * row.x <= sw.x && sw.x + sw.w <= 2 * (row.x + row.w) && 2 * row.y <= sw.y
                && sw.y + sw.h <= 2 * (row.y + row.h),
            "switch {k} escapes its row"
        );
        assert!(sw.x > 2 * TEXT_INSET * 2, "switch {k} runs into the label");
        assert_eq!(sw.y - 2 * row.y, 10 * UNITS);
    }
}

#[test]
fn rows_stand_one_below_the_other_with_a_break_before_the_last() {
    let m = A11yMenu::new(all_off());
    for k in 1..ROWS {
        let gap = m.row_top(k) - m.row_top(k - 1) - ROW_H;
        assert_eq!(gap, if k == TOGGLES { 11 } else { 2 } * UNITS);
    }
    assert_eq!(m.row_top(0), 8 * UNITS);
    assert_eq!(m.logical_size(&measure()), (260 * UNITS, 441 * UNITS), "never narrower than this");
    let mut wide = measure();
    wide.labels[3] = 200 * UNITS as i64;
    assert_eq!(m.logical_size(&wide).0, (12 + 200 + 12 + 46 + 12) * UNITS);
    wide.settings_w = 300 * UNITS as i64;
    assert_eq!(m.logical_size(&wide).0, (12 + 300 + 12) * UNITS);
    assert_eq!(m.corner_radius(), 14);
    assert_eq!(m.row_kind(0), RowKind::Toggle(A11yToggle::HighContrast));
    assert_eq!(m.row_kind(TOGGLES), RowKind::Settings);
    assert_eq!(m.row_label(TOGGLES), "Accessibility Settings");
    assert_eq!(m.row_label(1), "Zoom");
}

#[test]
fn between_the_rows_nothing_happens() {
    let mut m = A11yMenu::new(all_off());
    let (x, _) = center(&m, 0);
    let between = m.row_top(1) as i64 - 1;
    assert_eq!(m.pointer_click(&measure(), x, between), PopoverAction::Consumed);
    assert!(!m.pointer_hover(&measure(), Some((x, between))));
    let margin = 6 * UNITS as i64;
    let (_, y) = center(&m, 0);
    assert_eq!(m.pointer_click(&measure(), margin - 1, y), PopoverAction::Consumed);
    assert_ne!(m.pointer_click(&measure(), margin, y), PopoverAction::Consumed);
    let mut settings = all_off();
    settings.set(A11yToggle::MouseKeys, true);
    let m = A11yMenu::new(settings);
    assert_eq!(m.row_state(9), Some(true));
    assert_eq!(m.row_state(0), Some(false));
    assert_eq!(m.row_state(10), None);
}

#[test]
fn the_desktop_menu_is_gnomes_three_rows() {
    let menu = BackgroundMenu::new();
    assert_eq!(
        menu.labels(),
        ["Change Background…", "Display Settings", "Settings"]
    );
}

/// The number the menu hands back for a row.
fn row_of(entries: &Vec<MenuEntry>, wanted: &str) -> MenuHit {
    for entry in entries {
        if let MenuEntry::Item { id, label } = entry {
            if label == wanted {
                return MenuHit::Activated(*id);
            }
        }
    }
    panic!("no row {wanted}");
}

#[test]
fn every_row_opens_what_it_names() {
    for (label, expected) in [
        ("Change Background…", "background"),
        ("Display Settings", "display"),
    ] {
        let menu = BackgroundMenu::new();
        let at = row_of(&menu.entries, label);
        match menu.pointer_click(at) {
            PopoverAction::LaunchSettingsPanel { panel, args } => {
                assert_eq!(panel, expected);
                assert!(args.is_empty());
            }
            other => panic!("{label} gave {other:?}"),
        }
    }

    let menu = BackgroundMenu::new();
    let at = row_of(&menu.entries, "Settings");
    match menu.pointer_click(at) {
        PopoverAction::ActivateApp(id) => assert_eq!(id, SETTINGS_DESKTOP_ID),
        other => panic!("Settings gave {other:?}"),
    }
}

#[test]
fn a_press_on_no_row_is_consumed() {
    let menu = BackgroundMenu::new();
    assert_eq!(menu.pointer_click(MenuHit::Other), PopoverAction::Consumed);
    assert_eq!(menu.resolve(MenuHit::Activated(3)), PopoverAction::Consumed);
    assert_eq!(
        menu.activate_focused(MenuHit::Activated(2)),
        PopoverAction::ActivateApp(SETTINGS_DESKTOP_ID.to_owned())
    );
    assert_eq!(BackgroundMenu::default().labels(), menu.labels());
}

fn app(actions: &[(&str, &str)]) -> AppEntry {
    AppEntry {
        id: "org.example.Editor.desktop".to_owned(),
        name: "Editor".to_owned(),
        actions: actions
            .iter()
            .map(|(id, name)| DesktopAction { id: (*id).to_owned(), name: (*name).to_owned() })
            .collect(),
    }
}

#[test]
fn a_running_apps_menu_offers_everything() {
    let entry = app(&[("new-document", "New Document")]);
    let windows = vec![
        RunningWindow { id: 7, title: Some("notes.txt".to_owned()) },
        RunningWindow { id: 9, title: Some(String::new()) },
        RunningWindow { id: 11, title: None },
    ];
    let menu = AppMenu::new(&AppMenuContext {
        entry: &entry,
        is_favorite: true,
        state: AppState::Running,
        windows: &windows,
        has_software: true,
    });
    assert_eq!(
        menu.labels(),
        [
            "notes.txt",
            "Editor",
            "Editor",
            "New Window",
            "New Document",
            "Unpin",
            "App Details",
            "Quit"
        ]
    );
    let app_id = "org.example.Editor.desktop".to_owned();
    let click = |label: &str| menu.pointer_click(row_of(&menu.entries, label));
    assert_eq!(click("notes.txt"), PopoverAction::AppActivateWindow(7));
    assert_eq!(click("New Window"), PopoverAction::AppNewWindow(app_id.clone()));
    assert_eq!(
        click("New Document"),
        PopoverAction::AppLaunchAction {
            id: app_id.clone(),
            action: "new-document".to_owned()
        }
    );
    assert_eq!(click("Unpin"), PopoverAction::AppToggleFavorite(app_id.clone()));
    assert_eq!(click("App Details"), PopoverAction::AppDetails(app_id.clone()));
    assert_eq!(click("Quit"), PopoverAction::AppQuit(app_id));
    assert_eq!(menu.pointer_click(MenuHit::Other), PopoverAction::Consumed);
    assert_eq!(menu.pointer_click(MenuHit::Activated(99)), PopoverAction::Consumed);
}

#[test]
fn new_window_is_not_offered_twice_nor_while_starting() {
    let none: Vec<RunningWindow> = Vec::new();
    let own = app(&[("new-window", "Open a Window")]);
    let menu = |entry: &AppEntry, state: AppState| {
        AppMenu::new(&AppMenuContext {
            entry,
            is_favorite: false,
            state,
            windows: &none,
            has_software: false,
        })
        .labels()
    };
    assert_eq!(menu(&own, AppState::Stopped), ["Open a Window", "Pin to Dash"]);
    let plain = app(&[]);
    assert_eq!(menu(&plain, AppState::Stopped), ["New Window", "Pin to Dash"]);
    assert_eq!(menu(&plain, AppState::Starting), ["Pin to Dash"]);
    assert_eq!(menu(&plain, AppState::Running), ["New Window", "Pin to Dash", "Quit"]);
}

#[test]
fn separators_stand_only_between_groups() {
    let windows = vec![RunningWindow { id: 1, title: None }];
    let none: Vec<RunningWindow> = Vec::new();
    for state in [AppState::Stopped, AppState::Starting, AppState::Running] {
        for list in [&windows, &none] {
            for has_software in [false, true] {
                let entry = app(&[]);
                let menu = AppMenu::new(&AppMenuContext {
                    entry: &entry,
                    is_favorite: false,
                    state,
                    windows: list,
                    has_software,
                });
                let separator =
                    |e: Option<&MenuEntry>| matches!(e, Some(MenuEntry::Separator));
                assert!(!separator(menu.entries.first()));
                assert!(!separator(menu.entries.last()));
                for pair in menu.entries.windows(2) {
                    assert!(!(separator(pair.first()) && separator(pair.last())));
                }
            }
        }
    }
}
