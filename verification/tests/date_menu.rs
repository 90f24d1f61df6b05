//! The date menu: the message list, the calendar, and the two sections below it.

use synoik_ui::area::{Area, UNITS};
use synoik_ui::calendar::{CalMetrics, Calendar, Layout};
use synoik_ui::date_menu::{ClockRow, DateMeasure, DateMenu, WorldClocksModel};
use synoik_ui::dates::Ymd;
use synoik_ui::menu_picture::{CardKey, ChromePicture};
use synoik_ui::menu_view::{placeholder_centers, ClockCell, EventText, MenuPart};
use synoik_ui::events::{EventRow, EventsSectionModel};
use synoik_ui::message_layout::{CardLayout, GroupMeasure, ListMeasure, LIST_PAD};
use synoik_ui::message_list::{CardContent, CardGroup, MediaCardContent, SourceKey};
use synoik_ui::popover::{MediaControl, PopoverAction};

const TODAY: Ymd = Ymd { year: 2026, month: 3, day: 10 };

/// A length in logical pixels.
fn px(n: i64) -> i64 {
    n * UNITS as i64
}

fn long(n: i64) -> i128 {
    px(n) as i128
}

fn area(x: i64, y: i64, w: i64, h: i64) -> Area {
    Area { x: long(x), y: long(y), w: long(w), h: long(h) }
}

fn center(area: Area) -> (i64, i64) {
    ((area.x + area.w / 2) as i64, (area.y + area.h / 2) as i64)
}

fn sample_card(id: u32) -> CardContent {
    CardContent {
        id,
        actions: Vec::new(),
        has_default_action: false,
        shown: vec!["App".to_owned(), format!("Title {id}"), "Body".to_owned()],
    }
}

fn single_group(card: CardContent) -> CardGroup {
    CardGroup {
        key: SourceKey::PidName(card.id, "App".to_owned()),
        source_title: "App".to_owned(),
        cards: vec![card],
    }
}

fn multi_group(pid: u32, cards: Vec<CardContent>) -> CardGroup {
    CardGroup {
        key: SourceKey::PidName(pid, "App".to_owned()),
        source_title: "App".to_owned(),
        cards,
    }
}

fn app_key() -> SourceKey {
    SourceKey::PidName(7, "App".to_owned())
}

fn cal_metrics() -> CalMetrics {
    CalMetrics { header_h: px(38), weekday_h: px(29), cell: px(40), today_h: px(64) }
}

/// What the reference font measures, with cards 98 pixels tall.
fn measure(menu: &DateMenu) -> DateMeasure {
    let mut groups: Vec<GroupMeasure> = Vec::new();
    for (g, group) in menu.list.groups.iter().enumerate() {
        let mut cards: Vec<CardLayout> = Vec::new();
        for (c, card) in group.cards.iter().enumerate() {
            let form = menu.list.card_form(g, c);
            let acts = form.expanded && !card.actions.is_empty();
            cards.push(CardLayout {
                h: px(if acts { 138 } else { 98 }),
                close: area(383, 6, 24, 24),
                expand: if form.caret { Some(area(353, 6, 24, 24)) } else { None },
                can_expand: form.caret,
                actions: if acts { vec![area(6, 100, 90, 30)] } else { Vec::new() },
            });
        }
        groups.push(GroupMeasure { cards });
    }
    DateMeasure {
        list: ListMeasure {
            list_w: px(425),
            media_h: px(84),
            previous: area(300, 30, 32, 32),
            play_pause: area(336, 30, 32, 32),
            next: area(372, 30, 32, 32),
            clear_w: px(60),
            fan_margin: px(12),
            // The two cards under a stack's top one show 10 and 10 / 1.4 pixels of themselves.
            peeks: vec![px(10), 457],
            peek_inset: px(8),
            groups,
        },
        cal: cal_metrics(),
        title_h: px(19),
        summary_h: px(19),
        time_h: px(19),
        clock_header_h: px(19),
        clock_row_h: px(19),
    }
}

fn click(menu: &mut DateMenu, pos: (i64, i64)) -> PopoverAction {
    let m = measure(menu);
    menu.pointer_click(&m, pos.0, pos.1)
}

fn hover(menu: &mut DateMenu, pos: Option<(i64, i64)>) -> bool {
    let m = measure(menu);
    menu.pointer_hover(&m, pos)
}

fn height(menu: &DateMenu) -> i128 {
    menu.logical_size(&measure(menu)).1
}

fn menu(groups: Vec<CardGroup>) -> DateMenu {
    DateMenu::new(0, false, TODAY, groups)
}

fn calendar_size() -> (i128, i128) {
    let whole = Calendar::new(0, false, TODAY).layout(cal_metrics()).bounds();
    (whole.w, whole.h)
}

#[test]
fn popover_columns_match_the_live_shell() {
    let dm = DateMenu::new(0, true, TODAY, vec![]);
    let m = measure(&dm);
    assert_eq!(
        dm.calendar_col_x(&m),
        long(10 + 432 + 10),
        "the list's content is 425, its box 432, and the columns are 10 apart"
    );
    assert_eq!(
        dm.logical_size(&m).0,
        long(791),
        "10 + 432 + 10 + 329 + 10, inside the popover's own border"
    );
    let one = menu(vec![single_group(sample_card(1))]);
    assert_eq!(one.card_rects(&measure(&one))[0].card.w, long(413), "a message is 413 wide");
    assert_eq!(dm.corner_radius(), 30);
}

#[test]
fn date_menu_is_two_columns_list_first() {
    let dm = menu(vec![single_group(sample_card(1))]);
    let m = measure(&dm);
    let cal = calendar_size();
    let size = dm.logical_size(&m);
    // The padding is on the right and at the bottom; the single-card list is shorter than the
    // calendar column.
    assert_eq!(size.0, dm.calendar_col_x(&m) + cal.0 + LIST_PAD);
    assert_eq!(size.1, cal.1 + LIST_PAD);
    assert!(
        dm.calendar_col_x(&m) > long(425),
        "the list column is 29em wide plus its margins"
    );
}

#[test]
fn date_menu_routes_clicks_to_list_and_calendar() {
    let mut dm = menu(vec![single_group(sample_card(1)), single_group(sample_card(2))]);

    // A calendar-column click still works through the composition: the next-month pager is at
    // the calendar's own coordinates shifted by the list column.
    let before = (dm.calendar.year, dm.calendar.month);
    let next = center(Layout::new(false, cal_metrics()).next_arrow());
    let col_x = dm.calendar_col_x(&measure(&dm)) as i64;
    assert_eq!(click(&mut dm, (next.0 + col_x, next.1)), PopoverAction::Consumed);
    assert_ne!(
        (dm.calendar.year, dm.calendar.month),
        before,
        "the pager click must reach the calendar"
    );

    // Card hits: close button, then body (with and without a default action), then the Clear
    // pill.
    let rects = dm.card_rects(&measure(&dm));
    assert_eq!(rects.len(), 2);
    assert_eq!(rects[0].id, 1, "cards render in snapshot order");
    assert_eq!(click(&mut dm, center(rects[0].close)), PopoverAction::CloseNotification(1));
    // A body click low in the card (away from the close button).
    let low = |card: Area| ((card.x + long(30)) as i64, (card.y + card.h - long(10)) as i64);
    assert_eq!(
        click(&mut dm, low(rects[0].card)),
        PopoverAction::ActivateNotification { notification: 1, has_default: false }
    );
    let mut with_default = sample_card(3);
    with_default.has_default_action = true;
    assert!(dm.set_notifications(vec![single_group(with_default)]));
    let card = dm.card_rects(&measure(&dm))[0].card;
    assert_eq!(
        click(&mut dm, low(card)),
        PopoverAction::ActivateNotification { notification: 3, has_default: true }
    );
    let pill = dm.clear_pill_rect(&measure(&dm)).expect("non-empty list has a Clear pill");
    assert_eq!(click(&mut dm, center(pill)), PopoverAction::ClearNotifications);

    // Empty list-column space is consumed without an action (the popover stays open).
    let dead = ((LIST_PAD + long(5)) as i64, (height(&dm) - long(120)) as i64);
    assert_eq!(click(&mut dm, dead), PopoverAction::Consumed);
}

#[test]
fn date_menu_placeholder_and_snapshot_pushes() {
    let mut dm = menu(Vec::new());
    assert!(dm.list().is_empty());
    assert!(
        dm.clear_pill_rect(&measure(&dm)).is_none(),
        "the Clear pill hides with the placeholder"
    );
    assert!(!dm.set_notifications(Vec::new()), "no change, no redraw");
    assert!(dm.set_notifications(vec![single_group(sample_card(1))]));
    assert_eq!(dm.list().len(), 1);
    assert!(dm.clear_pill_rect(&measure(&dm)).is_some());
    assert!(
        !dm.set_notifications(vec![single_group(sample_card(1))]),
        "an identical snapshot must not invalidate the cards"
    );
}

#[test]
fn date_menu_grows_to_fit_then_caps_at_available_height() {
    let cal_h = calendar_size().1;
    let groups: Vec<CardGroup> = (1..=10).map(|i| single_group(sample_card(i))).collect();
    let mut dm = menu(groups);
    let m = measure(&dm);

    // Unbounded: grow past the calendar to fit the whole list, and at that natural height
    // nothing overflows.
    let grown = height(&dm);
    assert!(
        grown > cal_h,
        "popover grows past the calendar to fit the list ({grown} vs {cal_h})"
    );
    assert!(
        !dm.list().overflowing(&m.list, grown),
        "at its natural height the list fully fits (no scroll)"
    );

    // Capped to the calendar column: the popover clamps at the calendar grid plus the bottom
    // pad, and the list now overflows, so it scrolls.
    let cap = cal_h + LIST_PAD;
    dm.set_available_height(cap as i64);
    assert_eq!(height(&dm), cap, "clamped to the available height");
    assert!(dm.list().overflowing(&m.list, cap), "past the cap the list scrolls");

    // An empty popover never grows below or above the bare calendar.
    let mut empty = menu(Vec::new());
    empty.set_available_height(px(10_000));
    assert_eq!(
        height(&empty),
        cal_h + LIST_PAD,
        "an empty popover is the calendar height plus the content-box bottom pad"
    );
    empty.set_available_height(px(5));
    assert_eq!(height(&empty), cal_h + LIST_PAD, "and the calendar is never clipped");
}

#[test]
fn date_menu_scroll_routes_to_the_right_column() {
    let mut dm = menu(vec![single_group(sample_card(1))]);
    dm.calendar.year = 2024;
    dm.calendar.month = 6;
    let m = measure(&dm);

    let cal_x = dm.calendar_col_x(&m) as i64 + px(10);
    assert!(dm.scroll(&m, cal_x, 1), "down over the calendar pages a month");
    assert_eq!((dm.calendar.year, dm.calendar.month), (2024, 7));
    assert!(dm.scroll(&m, cal_x, -1), "up over the calendar pages back");
    assert_eq!((dm.calendar.year, dm.calendar.month), (2024, 6));

    // Over the list column, the month must not change.
    dm.scroll(&m, LIST_PAD as i64 + px(10), 1);
    assert_eq!(
        (dm.calendar.year, dm.calendar.month),
        (2024, 6),
        "a list-column scroll must not page the calendar"
    );
}

#[test]
fn message_list_collapses_a_multi_notification_group() {
    let cards: Vec<CardContent> = (1..=4).map(sample_card).collect();
    let dm = menu(vec![multi_group(7, cards)]);
    let m = measure(&dm);

    // Collapsed: not broken out into interactive cards.
    assert!(dm.card_rects(&m).is_empty(), "a collapsed stack exposes no per-card rects");
    let groups = dm.group_rects(&m);
    assert_eq!(groups.len(), 1);
    assert!(!groups[0].expanded);
    // The stack adds the two visible peeks' offsets (10 + 10/1.4) to a lone card.
    let expected = 98. + 10. + 10. / 1.4;
    let stack = groups[0].bounds.h as f64 / UNITS as f64;
    assert!((stack - expected).abs() < 0.01, "stack height {stack} vs {expected}");
}

#[test]
fn message_list_group_expand_collapse_and_group_close() {
    let cards: Vec<CardContent> = (1..=2).map(sample_card).collect();
    let mut dm = menu(vec![multi_group(7, cards)]);

    // The collapsed stack's top-card close closes the whole group.
    let close =
        dm.stack_close_rect(&measure(&dm), &app_key()).expect("collapsed stack has a close");
    assert_eq!(
        click(&mut dm, center(close)),
        PopoverAction::CloseNotificationGroup(vec![1, 2])
    );

    // A click elsewhere on the stack expands the group.
    let bounds = dm.group_rects(&measure(&dm))[0].bounds;
    let expand_pt = ((bounds.x + long(20)) as i64, (bounds.y + bounds.h - long(6)) as i64);
    assert_eq!(click(&mut dm, expand_pt), PopoverAction::Consumed);
    let m = measure(&dm);
    assert!(dm.group_rects(&m)[0].expanded, "clicking the stack expanded the group");
    // Now both cards are individually interactive.
    assert_eq!(dm.card_rects(&m).len(), 2);

    // The header collapse button fans it back to a stack.
    let collapse =
        dm.group_collapse_rect(&m, &app_key()).expect("expanded group has a collapse button");
    assert_eq!(click(&mut dm, center(collapse)), PopoverAction::Consumed);
    let m = measure(&dm);
    assert!(!dm.group_rects(&m)[0].expanded, "the collapse button re-fanned the stack");
    assert!(dm.card_rects(&m).is_empty());
}

#[test]
fn message_list_header_background_click_collapses_the_group() {
    let mut dm = menu(vec![multi_group(7, vec![sample_card(1), sample_card(2)])]);
    let bounds = dm.group_rects(&measure(&dm))[0].bounds;
    let expand_pt = ((bounds.x + long(20)) as i64, (bounds.y + bounds.h - long(6)) as i64);
    click(&mut dm, expand_pt);
    let fanned = dm.group_rects(&measure(&dm))[0];
    assert!(fanned.expanded, "the stack expanded");

    // The header row (top of the group), to the left of the collapse button at the far right.
    let header_pt = ((fanned.bounds.x + long(10)) as i64, (fanned.bounds.y + long(5)) as i64);
    assert_eq!(click(&mut dm, header_pt), PopoverAction::Consumed);
    assert!(
        !dm.group_rects(&measure(&dm))[0].expanded,
        "clicking the header background collapsed the group"
    );
}

#[test]
fn events_section_grows_the_calendar_column() {
    let mut dm = menu(vec![]);
    let base = height(&dm);
    // A hidden section (no calendars) adds no height.
    assert!(dm.set_events(EventsSectionModel {
        visible: false,
        title: "Today".to_owned(),
        rows: vec![],
    }));
    assert_eq!(height(&dm), base, "hidden section adds no height");
    // A visible section with rows grows the column.
    assert!(dm.set_events(EventsSectionModel {
        visible: true,
        title: "Today".to_owned(),
        rows: vec![
            EventRow { summary: "Standup".to_owned(), time: "09:00".to_owned() },
            EventRow { summary: "Lunch".to_owned(), time: "12:00".to_owned() },
        ],
    }));
    assert!(height(&dm) > base, "a visible events section grows the calendar column");
    assert!(!dm.events().rows.is_empty());
}

fn visible_events() -> EventsSectionModel {
    EventsSectionModel {
        visible: true,
        title: "Today".to_owned(),
        rows: vec![EventRow { summary: "Standup".to_owned(), time: "09:00".to_owned() }],
    }
}

fn spawn(argv: &[&str]) -> PopoverAction {
    PopoverAction::Spawn(argv.iter().map(|a| (*a).to_owned()).collect())
}

#[test]
fn events_click_launches_calendar() {
    let mut dm = menu(vec![]);
    dm.set_events(visible_events());
    let rect = dm.events_rect(&measure(&dm)).expect("visible section has a rect");
    assert_eq!(
        click(&mut dm, center(rect)),
        spawn(&["gtk-launch", "org.gnome.Calendar"]),
        "clicking the card launches the calendar app"
    );
}

#[test]
fn events_hover_lights_up_the_card() {
    let mut dm = menu(vec![]);
    dm.set_events(visible_events());
    let rect = dm.events_rect(&measure(&dm)).expect("visible section has a rect");
    // Moving onto the card sets the hover wash and reports a redraw.
    assert!(hover(&mut dm, Some(center(rect))), "entering the card redraws");
    assert!(dm.events_hovered, "pointer over the card is hovered");
    // Idempotent while still inside.
    assert!(!hover(&mut dm, Some(center(rect))), "staying inside is a no-op");
    // Leaving clears it.
    assert!(hover(&mut dm, None), "leaving the card redraws");
    assert!(!dm.events_hovered, "pointer gone is not hovered");
}

fn wc_model(visible: bool, rows: usize) -> WorldClocksModel {
    WorldClocksModel {
        visible,
        header: if rows == 0 { "Add World Clocks…" } else { "World Clocks" }.to_owned(),
        empty: rows == 0,
        rows: (0..rows)
            .map(|i| ClockRow {
                city: format!("City {i}"),
                time: "12:00".to_owned(),
                tz_offset: "+1".to_owned(),
            })
            .collect(),
    }
}

#[test]
fn display_cards_match_the_live_shell() {
    let mut dm = menu(vec![]);
    let m = measure(&dm);

    assert_eq!(dm.events_card_h(&m), long(70), "the empty events card is 1 + 12 + 44 + 12 + 1");

    dm.set_world_clocks(wc_model(true, 4));
    assert_eq!(
        dm.world_clocks_card_h(&m),
        long(145),
        "four world-clock rows are 1 + 12 + 119 + 12 + 1"
    );
}

#[test]
fn world_clocks_section_grows_the_calendar_column() {
    let mut dm = menu(vec![]);
    let base = height(&dm);
    // Hidden adds no height.
    assert!(dm.set_world_clocks(wc_model(false, 2)));
    assert_eq!(height(&dm), base, "hidden section adds no height");
    // A visible section grows the column.
    assert!(dm.set_world_clocks(wc_model(true, 2)));
    assert!(height(&dm) > base, "a visible world-clocks section grows the calendar column");
    assert_eq!(dm.world_clocks().rows.len(), 2);
}

#[test]
fn world_clocks_click_launches_clocks() {
    let mut dm = menu(vec![]);
    dm.set_world_clocks(wc_model(true, 1));
    let rect = dm.world_clocks_rect(&measure(&dm)).expect("visible section has a rect");
    assert_eq!(
        click(&mut dm, center(rect)),
        spawn(&["gtk-launch", "org.gnome.clocks"]),
        "clicking the card launches the clocks app"
    );
}

#[test]
fn world_clocks_hover_lights_up_the_card() {
    let mut dm = menu(vec![]);
    dm.set_world_clocks(wc_model(true, 1));
    let rect = dm.world_clocks_rect(&measure(&dm)).expect("visible section has a rect");
    // Moving onto the card sets the hover wash and reports a redraw.
    assert!(hover(&mut dm, Some(center(rect))), "entering the card redraws");
    assert!(dm.world_clocks_hovered, "pointer over the card is hovered");
    // Idempotent while still inside.
    assert!(!hover(&mut dm, Some(center(rect))), "staying inside is a no-op");
    // Leaving clears it.
    assert!(hover(&mut dm, None), "leaving the card redraws");
    assert!(!dm.world_clocks_hovered, "pointer gone is not hovered");
}

#[test]
fn the_sections_stack_below_the_calendar() {
    let mut dm = menu(vec![]);
    dm.set_events(visible_events());
    dm.set_world_clocks(wc_model(true, 1));
    let m = measure(&dm);
    let events = dm.events_rect(&m).unwrap();
    let clocks = dm.world_clocks_rect(&m).unwrap();
    assert!(events.y >= calendar_size().1);
    assert!(events.y + events.h <= clocks.y, "the cards are apart");
    assert!(clocks.y + clocks.h <= height(&dm));
    assert_eq!(events.x, clocks.x);
    assert!(!dm.set_events(visible_events()), "the same section is no change");
    assert!(!dm.set_world_clocks(wc_model(true, 1)));
    // Where events take the room, the clocks are cut short, and then left out.
    dm.set_available_height((calendar_size().1 + LIST_PAD) as i64);
    assert!(dm.world_clocks_alloc_h(&m) <= dm.world_clocks_card_h(&m));
    assert!(dm.events_alloc_h(&m) <= dm.events_card_h(&m));
}

#[test]
fn card_buttons_are_found_by_notification() {
    let mut card = sample_card(5);
    card.actions = vec!["ok".to_owned()];
    let mut dm = menu(vec![single_group(card)]);
    let m = measure(&dm);
    let caret = dm.card_expand_rect(&m, 5).expect("the card folds out");
    assert_eq!(caret, area(363, 16, 24, 24));
    assert_eq!(dm.card_expand_rect(&m, 6), None);
    assert!(dm.card_action_rects(&m, 5).is_empty(), "a folded card shows no buttons");
    assert_eq!(click(&mut dm, center(caret)), PopoverAction::Consumed);
    let m = measure(&dm);
    let buttons = dm.card_action_rects(&m, 5);
    assert_eq!(buttons, [area(16, 110, 90, 30)]);
    assert_eq!(
        click(&mut dm, center(buttons[0])),
        PopoverAction::InvokeNotificationAction { notification: 5, key: "ok".to_owned() }
    );
}

#[test]
fn media_cards_control_and_raise_their_players() {
    let mut dm = menu(vec![]);
    assert!(dm.set_media_players(vec![MediaCardContent {
        bus_name: "org.mpris.MediaPlayer2.a".to_owned(),
        art: Some("/tmp/cover.png".to_owned()),
        can_previous: true,
        can_play_pause: true,
        can_next: false,
        shown: vec![],
    }]));
    assert!(dm.note_art_decoded("/tmp/cover.png"));
    assert!(!dm.note_art_decoded("/tmp/other.png"));
    let rects = dm.media_card_rects(&measure(&dm));
    assert_eq!(rects.len(), 1);
    assert_eq!(
        click(&mut dm, center(rects[0].previous)),
        PopoverAction::MediaControl {
            bus_name: "org.mpris.MediaPlayer2.a".to_owned(),
            control: MediaControl::Previous
        }
    );
    assert_eq!(
        click(&mut dm, center(rects[0].next)),
        PopoverAction::RaiseMediaPlayer("org.mpris.MediaPlayer2.a".to_owned()),
        "a button that does not react leaves the click to the card"
    );
}

#[test]
fn the_parts_are_drawn_where_they_answer() {
    let mut dm = menu(vec![]);
    let parts = |dm: &DateMenu| -> Vec<(MenuPart, i128, i128)> {
        dm.render_plan(&measure(dm)).iter().map(|p| (p.part, p.x, p.y)).collect()
    };
    assert_eq!(
        parts(&dm),
        [
            (MenuPart::Placeholder, 0, 0),
            (MenuPart::Calendar, long(452), 0),
            (MenuPart::Chrome, 0, 0),
        ]
    );
    dm.set_notifications(vec![single_group(sample_card(1))]);
    dm.set_events(visible_events());
    dm.set_world_clocks(wc_model(true, 1));
    let placed = parts(&dm);
    let kinds: Vec<MenuPart> = placed.iter().map(|p| p.0).collect();
    assert_eq!(
        kinds,
        [
            MenuPart::List,
            MenuPart::Calendar,
            MenuPart::Events,
            MenuPart::WorldClocks,
            MenuPart::Chrome,
        ]
    );
    let m = measure(&dm);
    assert_eq!(placed[2].2, dm.events_rect(&m).unwrap().y - long(4));
    assert_eq!(placed[3].2, dm.world_clocks_rect(&m).unwrap().y - long(4));
    assert_eq!(placed[3].2, placed[2].2 + dm.events_alloc_h(&m) + long(6));
}

#[test]
fn the_event_lines_fill_their_card() {
    let mut dm = menu(vec![]);
    let m = measure(&dm);
    let lines = dm.events_lines(&m);
    let texts: Vec<EventText> = lines.iter().map(|l| l.text).collect();
    assert_eq!(texts, [EventText::Title, EventText::NoEvents]);
    assert_eq!(lines[1].y, long(17 + 19 + 6));

    let row = |n: usize| EventRow { summary: format!("Event {n}"), time: "09:00".to_owned() };
    dm.set_events(EventsSectionModel {
        visible: true,
        title: "Today".to_owned(),
        rows: vec![row(0), row(1)],
    });
    let lines = dm.events_lines(&m);
    let tops: Vec<i128> = lines.iter().map(|l| l.y).collect();
    assert_eq!(tops, [long(17), long(42), long(67), long(92), long(117)]);
    assert_eq!(lines[4].text, EventText::Time(1));
    let last = lines[4];
    assert_eq!(last.y + last.h, long(4) + dm.events_card_h(&m) - long(13));
}

#[test]
fn the_clock_columns_are_as_wide_as_their_widest_cell() {
    let mut dm = DateMenu::new(0, true, TODAY, vec![]);
    dm.set_world_clocks(wc_model(true, 2));
    let m = measure(&dm);
    assert_eq!(dm.clock_tops(&m), [long(17 + 19 + 6), long(17 + 19 + 6 + 25)]);
    assert_eq!(dm.clock_tops(&m)[1] + long(19), long(4) + dm.world_clocks_card_h(&m) - long(13));

    // The column is 329 wide, so the card's text spans 17 to 312.
    let columns = dm.clock_columns(&m, &vec![px(40), px(50)], &vec![px(30), px(20)]);
    assert_eq!(columns.city_x, long(17));
    assert_eq!(columns.offset_right, long(312));
    assert_eq!(columns.time_right, long(312 - 30 - 12));
    assert_eq!(columns.city_w, long(270 - 50 - 12 - 17));
    let wide = dm.clock_columns(&m, &vec![px(400)], &vec![]);
    assert_eq!(wide.city_w, 0, "no room is left for the cities");
    assert_eq!(wide.time_right, long(300));
}

#[test]
fn the_placeholder_stands_halfway_down() {
    // 96 of icon, 12 of gap and 20 of text leave 36 above and below, in half units.
    let (icon, label) = placeholder_centers(px(20), px(200));
    assert_eq!(icon, 2 * long(36 + 48));
    assert_eq!(label, 2 * long(36 + 96 + 12 + 10));
}

#[test]
fn date_menu_background_tracks_the_growing_and_shrinking_height() {
    let px = |dm: &DateMenu| (height(dm) + UNITS / 2) / UNITS;
    let picture = |dm: &DateMenu| dm.chrome(&measure(dm), 120);
    let key = |dm: &DateMenu| dm.chrome_key(&measure(dm), 120);

    // Open with a couple of cards: the bg is as tall as the popover.
    let mut dm = menu(vec![single_group(sample_card(1)), single_group(sample_card(2))]);
    let (small, first) = (px(&dm), key(&dm));
    assert_eq!(picture(&dm).px_h, small, "the bg matches the popover height");

    // Notifications arrive while open: the popover grows, and the bg with it.
    let groups: Vec<CardGroup> = (1..=12).map(|i| single_group(sample_card(i))).collect();
    assert!(dm.set_notifications(groups));
    let grown = px(&dm);
    assert!(grown > small, "the popover grew ({grown} vs {small})");
    assert_eq!(picture(&dm).px_h, grown, "the bg is made anew at the grown height");
    assert_ne!(key(&dm), first);

    // Notifications are dismissed: the popover shrinks, and the bg again with it.
    let second = key(&dm);
    assert!(dm.set_notifications(vec![single_group(sample_card(1))]));
    let shrunk = px(&dm);
    assert!(shrunk < grown, "the popover shrank ({shrunk} vs {grown})");
    assert_eq!(picture(&dm).px_h, shrunk, "the bg is made anew at the shrunk height");
    assert_ne!(key(&dm), second);
}

#[test]
fn the_background_is_kept_under_what_it_shows() {
    let mut dm = menu(vec![]);
    let m = measure(&dm);
    let empty = dm.chrome_key(&m, 120);
    assert!(empty.empty && !empty.clearable && !empty.clear_hovered);
    assert_eq!(dm.chrome_key(&m, 120), empty);
    assert_eq!(dm.chrome(&m, 120).pill, None);
    assert!(dm.chrome(&m, 120).placeholder);
    // One and a half times the size, to the nearest pixel.
    let twice = dm.chrome(&m, 240);
    let scaled = dm.chrome(&m, 180);
    assert_eq!(scaled.px_h, (height(&dm) * 3 + UNITS) / (2 * UNITS));
    assert_eq!(twice.px_h, (height(&dm) * 2 + UNITS / 2) / UNITS);

    dm.set_notifications(vec![single_group(sample_card(1))]);
    let m = measure(&dm);
    let plain = dm.chrome_key(&m, 120);
    let pill = dm.clear_pill_rect(&m).unwrap();
    hover(&mut dm, Some(center(pill)));
    let lit = dm.chrome_key(&measure(&dm), 120);
    assert_ne!(plain, lit);
    assert!(lit.clear_hovered && lit.px_h == plain.px_h);
    let ChromePicture { placeholder, pill, .. } = dm.chrome(&measure(&dm), 120);
    assert_eq!((placeholder, pill), (false, Some(true)));
}

#[test]
fn a_card_is_kept_under_its_section_its_wash_and_its_height() {
    let mut dm = menu(vec![]);
    dm.set_events(visible_events());
    dm.set_world_clocks(wc_model(true, 2));
    let keys = |dm: &DateMenu| -> (CardKey, CardKey) {
        let m = measure(dm);
        (dm.events_key(&m, 120), dm.clocks_key(&m, 120))
    };
    let (events, clocks) = keys(&dm);
    assert_eq!(keys(&dm), (events, clocks));
    let m = measure(&dm);
    let (top, bottom) = (dm.events_rect(&m).unwrap(), dm.world_clocks_rect(&m).unwrap());
    hover(&mut dm, Some(center(top)));
    assert_eq!(keys(&dm), (CardKey { hovered: true, ..events }, clocks));
    hover(&mut dm, Some(center(bottom)));
    assert_eq!(keys(&dm), (events, CardKey { hovered: true, ..clocks }));
    hover(&mut dm, None);
    // The same section again keeps the picture, another does not.
    dm.set_world_clocks(wc_model(true, 2));
    assert_eq!(keys(&dm), (events, clocks));
    dm.set_world_clocks(wc_model(true, 3));
    assert_eq!(keys(&dm).1.revision, clocks.revision + 1);
    // A lower ceiling cuts the cards, which no section has noticed.
    let low = calendar_size().1 + long(60);
    dm.set_available_height(low as i64);
    let cut = keys(&dm).0;
    assert_eq!(cut.revision, events.revision);
    assert!(cut.px_h < events.px_h);
}

#[test]
fn events_card_bakes_at_multiple_scales() {
    let mut dm = menu(vec![]);
    dm.set_events(EventsSectionModel {
        visible: true,
        title: "Today".to_owned(),
        rows: vec![EventRow {
            summary: "Standup".to_owned(),
            time: "09:00 \u{2013} 09:30".to_owned(),
        }],
    });
    for scale in [120, 180, 240] {
        let (w, h) = dm.events_px(&measure(&dm), scale);
        assert!(w > 0 && h > 0, "non-empty at scale {scale}");
        assert_eq!(h, dm.events_key(&measure(&dm), scale).px_h);
    }
    // Empty (placeholder) also has its lines.
    dm.set_events(EventsSectionModel {
        visible: true,
        title: "Today".to_owned(),
        rows: vec![],
    });
    assert!(dm.events_key(&measure(&dm), 240).px_h > 0);
    assert_eq!(dm.events_lines(&measure(&dm)).len(), 2);
}

#[test]
fn world_clocks_card_bakes_at_multiple_scales() {
    let mut dm = menu(vec![]);
    dm.set_world_clocks(wc_model(true, 2));
    for scale in [120, 180, 240] {
        let (w, h) = dm.clocks_px(&measure(&dm), scale);
        assert!(w > 0 && h > 0, "non-empty at scale {scale}");
        assert_eq!(h, dm.clocks_key(&measure(&dm), scale).px_h);
    }
    // Empty (Add World Clocks…) also has its header.
    dm.set_world_clocks(wc_model(true, 0));
    assert!(dm.clocks_key(&measure(&dm), 240).px_h > 0);
}

#[test]
fn the_clocks_header_is_muted_over_clocks_alone() {
    let mut dm = menu(vec![]);
    dm.set_world_clocks(wc_model(true, 2));
    assert!(dm.clock_muted(ClockCell::Header) && dm.clock_muted(ClockCell::Offset));
    assert!(!dm.clock_muted(ClockCell::City) && !dm.clock_muted(ClockCell::Time));
    dm.set_world_clocks(wc_model(true, 0));
    assert!(!dm.clock_muted(ClockCell::Header));
    assert!(!EventText::Summary(0).is_muted());
    assert!(EventText::Title.is_muted() && EventText::Time(0).is_muted());
    assert!(EventText::NoEvents.is_muted());
}

#[test]
fn an_overflowing_events_card_stays_within_the_available_height() {
    let mut dm = menu(Vec::new());
    let rows = (0..60)
        .map(|i| EventRow { summary: format!("Event {i}"), time: "All Day".to_owned() })
        .collect();
    dm.set_events(EventsSectionModel { rows, ..visible_events() });
    let floor = calendar_size().1 + LIST_PAD;
    for extra in [0, 1, 20, 200] {
        let available = floor + long(extra);
        dm.set_available_height(available as i64);
        assert!(height(&dm) <= available);
        assert!(height(&dm) >= floor, "the calendar is never cut");
    }
    dm.set_available_height(0);
    assert_eq!(height(&dm), floor);
}
