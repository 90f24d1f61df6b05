//! The emoji picker, over a small table of its own.

use synoik_ui::area::{Area, UNITS};
use synoik_ui::emoji_picker::{
    rail_label, Emoji, EmojiGroup, EmojiPicker, EmojiTable, KeyOutcome, KeyStep, Slot, Wash, CELL,
    COLS, RAIL_H, ROWS, TABS, TAB_W,
};
use synoik_ui::keys::Key;
use synoik_ui::picker_place::Place;
use synoik_ui::picker_view::PickerLayer;

/// How long a history the tests keep.
const MAX_EMOJI_RECENTS: usize = 21;

const GROUPS: [&str; 9] = [
    "Smileys & Emotion",
    "People & Body",
    "Animals & Nature",
    "Food & Drink",
    "Travel & Places",
    "Activities",
    "Objects",
    "Symbols",
    "Flags",
];

const PER_GROUP: usize = 12;

fn emoji(ch: &str, name: &str) -> Emoji {
    Emoji { ch: ch.to_owned(), name: name.to_owned(), tones: Vec::new() }
}

/// Nine groups of a dozen, led by the grinning faces, the hands and the animals. The hands come
/// in five tones.
fn table() -> EmojiTable {
    let mut entries: Vec<Emoji> = Vec::new();
    let mut groups: Vec<EmojiGroup> = Vec::new();
    for (g, name) in GROUPS.iter().enumerate() {
        for i in 0..PER_GROUP {
            let mut entry = match (g, i) {
                (0, 0) => emoji("\u{1f600}", "grinning face"),
                (0, 1) => emoji("\u{1f601}", "beaming face with smiling eyes"),
                (0, 2) => emoji("\u{1f602}", "face with tears of joy"),
                (1, 0) => emoji("\u{1f44d}", "thumbs up"),
                (1, 1) => emoji("\u{1f44e}", "thumbs down"),
                (2, 0) => emoji("\u{1f408}", "cat"),
                (2, 1) => emoji("\u{1f431}", "cat face"),
                (6, 0) => emoji("\u{1f3a9}", "top hat"),
                (6, 1) => emoji("\u{1f452}", "woman's hat"),
                _ => emoji(&format!("<{g}.{i}>"), &format!("thing {i} of {name}")),
            };
            if g == 1 && i < 2 {
                for tone in ['\u{1f3fb}', '\u{1f3fc}', '\u{1f3fd}', '\u{1f3fe}', '\u{1f3ff}'] {
                    entry.tones.push(format!("{}{tone}", entry.ch));
                }
            }
            entries.push(entry);
        }
        groups.push(EmojiGroup {
            name: (*name).to_owned(),
            start: g * PER_GROUP,
            end: (g + 1) * PER_GROUP,
        });
    }
    EmojiTable { entries, groups }
}

/// Where the table has each recent.
fn resolved(table: &EmojiTable, recents: &[String]) -> Vec<Option<Slot>> {
    recents
        .iter()
        .map(|text| {
            table.entries.iter().enumerate().find_map(|(at, e)| {
                if e.ch == *text {
                    return Some(Slot { at, tone: None });
                }
                e.tones.iter().position(|t| t == text).map(|t| Slot { at, tone: Some(t) })
            })
        })
        .collect()
}

/// The entries whose names hold the text.
fn matches(table: &EmojiTable, text: &str) -> Vec<usize> {
    (0..table.entries.len()).filter(|&i| table.entries[i].name.contains(text.trim())).collect()
}

fn picker(table: &EmojiTable) -> EmojiPicker {
    let mut picker = EmojiPicker::new();
    picker.rebuild_view(table, &Vec::new(), &Vec::new());
    picker
}

fn picker_with_recents(table: &EmojiTable, recents: &[&str]) -> EmojiPicker {
    let mut picker = EmojiPicker::new();
    picker.set_recents(recents.iter().map(|s| (*s).to_owned()).collect());
    picker.on_recents = !picker.recents.is_empty();
    let slots = resolved(table, &picker.recents);
    picker.rebuild_view(table, &Vec::new(), &slots);
    picker
}

fn search(picker: &mut EmojiPicker, table: &EmojiTable, text: &str) {
    let slots = resolved(table, &picker.recents);
    picker.edited(table, true, text.to_owned(), &matches(table, text), &slots);
}

fn go_to_tab(picker: &mut EmojiPicker, table: &EmojiTable, tab: usize) {
    let slots = resolved(table, &picker.recents);
    picker.go_to_tab(table, &slots, tab);
}

fn press(picker: &mut EmojiPicker, table: &EmojiTable, key: Key, shift: bool) -> KeyStep {
    let slots = resolved(table, &picker.recents);
    picker.handle_key(table, &slots, Some(key), shift, true)
}

fn inserts(text: &str) -> KeyStep {
    KeyStep::Done(KeyOutcome::Insert(text.to_owned()))
}

fn first_toned(picker: &EmojiPicker, table: &EmojiTable) -> usize {
    picker
        .view
        .iter()
        .position(|slot| slot.emoji(table).has_tones())
        .expect("the table has toned emoji")
}

fn area(x: i64, y: i64, w: i64, h: i64) -> Area {
    let px = |n: i64| n as i128 * UNITS;
    Area { x: px(x), y: px(y), w: px(w), h: px(h) }
}

/// A caret at (100, 100) of a full-HD output, under an entry 34 pixels tall.
fn place() -> Place {
    Place {
        anchor: area(100, 100, 0, 0),
        out: area(0, 0, 1920, 1080),
        entry_h: 34 * UNITS as i64,
    }
}

fn open(picker: &mut EmojiPicker, table: &EmojiTable) {
    let slots = resolved(table, &picker.recents);
    picker.open(1, place(), table, &slots);
}

/// A position by its offset in the grid, in logical pixels. The panel is below the caret.
fn in_grid(x: i64, y: i64) -> (i64, i64) {
    ((100 + 12 + x) * UNITS as i64, (108 + 12 + 34 + 8 + y) * UNITS as i64)
}

fn on_tab(tab: usize) -> (i64, i64) {
    in_grid(TAB_W * tab as i64 + TAB_W / 2, CELL * ROWS as i64 + 8 + RAIL_H / 2)
}

fn center(area: Area) -> (i64, i64) {
    ((area.x + area.w / 2) as i64, (area.y + area.h / 2) as i64)
}

fn motion(picker: &mut EmojiPicker, pos: (i64, i64)) -> bool {
    picker.pointer_motion(pos.0, pos.1)
}

fn click(
    picker: &mut EmojiPicker,
    table: &EmojiTable,
    pos: (i64, i64),
    secondary: bool,
) -> Option<String> {
    let slots = resolved(table, &picker.recents);
    picker.pointer_click(table, &slots, pos.0, pos.1, secondary)
}

/// The middle of spelling `at` of the open tone popover.
fn on_tone(picker: &EmojiPicker, table: &EmojiTable, at: i64) -> (i64, i64) {
    let (popover, cols) = picker.tone_geometry(table).expect("the popover is up");
    let (col, row) = (at % cols as i64, at / cols as i64);
    let px = UNITS as i64;
    (
        popover.x as i64 + (6 + CELL * col + CELL / 2) * px,
        popover.y as i64 + (6 + CELL * row + CELL / 2) * px,
    )
}

#[test]
fn the_rail_tracks_the_pointer() {
    let table = table();
    let mut picker = EmojiPicker::new();
    open(&mut picker, &table);

    assert!(motion(&mut picker, on_tab(3)));
    assert_eq!(picker.hovered_tab(), Some(3));
    assert_eq!(picker.hovered_index(), None, "a tab is not a cell");

    assert!(!motion(&mut picker, on_tab(3)), "no move, no redraw");

    assert!(motion(&mut picker, on_tab(4)));
    assert_eq!(picker.hovered_tab(), Some(4));

    // Into the grid: the tab lets go and a cell takes over.
    assert!(motion(&mut picker, in_grid(CELL / 2, CELL / 2)));
    assert_eq!(picker.hovered_tab(), None);
    assert_eq!(picker.hovered_index(), Some(0));
}

#[test]
fn a_pick_leads_the_history_without_repeating() {
    let table = table();
    let mut picker = picker_with_recents(&table, &["\u{1f600}", "\u{1f601}"]);

    assert_eq!(
        picker.record_pick("\u{1f602}", MAX_EMOJI_RECENTS),
        ["\u{1f602}", "\u{1f600}", "\u{1f601}"],
        "a new pick leads"
    );
    assert_eq!(
        picker.record_pick("\u{1f600}", MAX_EMOJI_RECENTS),
        ["\u{1f600}", "\u{1f602}", "\u{1f601}"],
        "an old one moves up rather than repeating"
    );

    for entry in table.entries.iter().take(MAX_EMOJI_RECENTS + 5) {
        picker.record_pick(&entry.ch, MAX_EMOJI_RECENTS);
    }
    assert_eq!(picker.recents.len(), MAX_EMOJI_RECENTS, "and it is capped");
}

#[test]
fn a_toned_recent_comes_back_with_its_tone() {
    let table = table();
    let toned = table.entries.iter().find(|e| e.has_tones()).expect("the table has toned emoji");
    let toned = toned.tones[2].clone();

    let picker = picker_with_recents(&table, &[&toned]);
    assert_eq!(picker.view.len(), 1);
    assert_eq!(picker.text_of(&table, 0), Some(toned.as_str()));
    assert_eq!(picker.current_tab(&table), Some(0), "and the rail latches the recents");
}

#[test]
fn a_recent_the_table_cannot_spell_drops_out_of_the_grid() {
    let table = table();
    let picker = picker_with_recents(&table, &["\u{1f600}", "\u{10fffd}"]);
    assert_eq!(picker.view.len(), 1, "one of the two has a cell");
    assert_eq!(picker.text_of(&table, 0), Some("\u{1f600}"));
    assert_eq!(picker.recents.len(), 2, "both are still the history");
}

#[test]
fn a_search_leaves_the_recents_tab() {
    let table = table();
    let mut picker = picker_with_recents(&table, &["\u{1f600}"]);
    search(&mut picker, &table, "cat");

    assert!(picker.view.len() > 1, "the search is over the whole table");
    assert_eq!(picker.current_tab(&table), None, "no tab describes a search");

    // Tab out of a search walks from the notional place before the first tab, so it lands on the
    // first group and Shift+Tab on the recents: neither skips one.
    press(&mut picker, &table, Key::Tab, false);
    assert_eq!(picker.current_tab(&table), Some(1));
    search(&mut picker, &table, "cat");
    press(&mut picker, &table, Key::Tab, true);
    assert_eq!(picker.current_tab(&table), Some(0));

    search(&mut picker, &table, "cat");
    go_to_tab(&mut picker, &table, 0);
    assert!(picker.search.is_empty(), "the tab clears the search");
    assert_eq!(picker.view.len(), 1, "and the recents are back");
}

#[test]
fn the_search_view_maps_back_to_the_right_entries() {
    let table = table();
    let mut picker = picker(&table);
    search(&mut picker, &table, "thumbs up");

    let first = picker.at(&table, 0).expect("thumbs up matches something");
    assert_eq!(first.ch, "\u{1f44d}", "got {:?}", first.name);
}

#[test]
fn the_selection_scrolls_the_grid_and_stops_at_the_ends() {
    let table = table();
    let mut picker = picker(&table);
    assert_eq!(picker.first_row, 0);

    picker.move_selection(COLS as isize * ROWS as isize);
    assert_eq!(picker.selected, COLS * ROWS);
    assert_eq!(picker.first_row, 1, "one row scrolled into view");

    picker.move_selection(-(COLS as isize) * 100);
    assert_eq!(picker.selected, 0);
    assert_eq!(picker.first_row, 0, "and back off again");

    picker.move_selection(isize::MAX / 2);
    assert_eq!(picker.selected, picker.view.len() - 1, "clamped to the end");
}

#[test]
fn the_rail_jumps_to_a_group_clearing_the_search() {
    let table = table();
    let mut picker = picker(&table);
    search(&mut picker, &table, "hat");
    assert_eq!(picker.current_group(&table), None, "no tab describes a search");

    go_to_tab(&mut picker, &table, 4);
    assert_eq!(picker.search, "");
    assert_eq!(
        picker.current_group(&table),
        Some(3),
        "and the tab it jumped to is the latched one"
    );
    assert_eq!(picker.selected, table.groups[3].start, "landing on the group's first emoji");
}

#[test]
fn the_tone_popover_leads_with_the_plain_form() {
    let table = table();
    let mut picker = picker(&table);
    picker.selected = first_toned(&picker, &table);
    let base = picker.at(&table, picker.selected).unwrap();
    let choices = picker.tone_choices(&table, picker.selected).unwrap();
    assert_eq!(choices[0], base.ch);
    assert_eq!(choices.len(), base.tones.len() + 1);

    assert_eq!(press(&mut picker, &table, Key::Return, true), KeyStep::Done(KeyOutcome::Handled));
    assert!(picker.tone.is_some(), "Shift+Return opens the variants");

    // One right, then pick: the first tone.
    press(&mut picker, &table, Key::Right, false);
    let picked = press(&mut picker, &table, Key::Return, false);
    assert_eq!(picked, inserts(&base.tones[0]));
    assert_eq!(picker.default_tone, Some(0), "and it is remembered");
    assert!(picker.tone.is_none());

    // Back to the plain form forgets it again.
    press(&mut picker, &table, Key::Return, true);
    press(&mut picker, &table, Key::Left, false);
    assert_eq!(press(&mut picker, &table, Key::Return, false), inserts(&base.ch));
    assert_eq!(picker.default_tone, None);
}

#[test]
fn a_remembered_tone_applies_to_the_next_plain_pick() {
    let table = table();
    let mut picker = picker(&table);
    picker.default_tone = Some(2);

    let toned = first_toned(&picker, &table);
    let base = picker.at(&table, toned).unwrap();
    picker.selected = toned;
    assert_eq!(press(&mut picker, &table, Key::Return, false), inserts(&base.tones[2]));

    let plain = picker.view.iter().position(|slot| !slot.emoji(&table).has_tones()).unwrap();
    picker.selected = plain;
    let plain_ch = picker.at(&table, plain).unwrap().ch.clone();
    assert_eq!(
        press(&mut picker, &table, Key::Return, false),
        inserts(&plain_ch),
        "an emoji with no tones is unaffected"
    );
}

#[test]
fn the_tone_popover_holds_the_grid_still() {
    let table = table();
    let mut picker = picker(&table);
    picker.selected = first_toned(&picker, &table);
    let selected = picker.selected;
    press(&mut picker, &table, Key::Return, true);

    press(&mut picker, &table, Key::Down, false);
    assert_eq!(picker.selected, selected, "the grid did not move");

    // Escape dismisses the popover and leaves the picker up.
    assert_eq!(press(&mut picker, &table, Key::Escape, false), KeyStep::Done(KeyOutcome::Handled));
    assert!(picker.tone.is_none());
}

#[test]
fn an_empty_search_result_has_nothing_to_insert() {
    let table = table();
    let mut picker = picker(&table);
    search(&mut picker, &table, "zzzzznothing");
    assert!(picker.view.is_empty());

    assert_eq!(
        press(&mut picker, &table, Key::Return, false),
        KeyStep::Done(KeyOutcome::Handled),
        "Enter on nothing is not a close and not an insert"
    );
}

#[test]
fn the_grid_without_a_search_is_the_whole_table_in_order() {
    let table = table();
    let picker = picker(&table);
    assert_eq!(picker.view.len(), table.entries.len());
    for (i, slot) in picker.view.iter().enumerate() {
        assert_eq!(*slot, Slot::plain(i));
    }
    assert_eq!(picker.selected_entry(), 0);
    assert_eq!(picker.at(&table, 108).map(|e| e.ch.clone()), None);
    assert_eq!(picker.text_of(&table, 108), None);
}

#[test]
fn opening_shows_the_recents_when_there_are_any() {
    let table = table();
    let mut picker = EmojiPicker::new();
    assert!(!picker.is_open());
    assert_eq!(picker.output(), None);
    picker.open(7, place(), &table, &Vec::new());
    assert!(picker.is_open());
    assert_eq!(picker.output(), Some(7));
    assert_eq!(picker.current_tab(&table), Some(1));
    assert!(picker.close());
    assert!(!picker.close(), "closing twice closes once");

    picker.set_recents(vec!["\u{1f601}".to_owned()]);
    search(&mut picker, &table, "cat");
    let slots = resolved(&table, &picker.recents);
    picker.open(7, place(), &table, &slots);
    assert_eq!(picker.search, "");
    assert_eq!(picker.current_tab(&table), Some(0));
    assert_eq!(picker.selected_entry(), 1);
}

#[test]
fn a_search_of_white_space_is_no_search() {
    let table = table();
    let mut picker = picker(&table);
    search(&mut picker, &table, " \t\u{2003}");
    assert_eq!(picker.view.len(), table.entries.len());
    assert_eq!(picker.current_tab(&table), None, "but the rail latches nothing while there is text");
}

#[test]
fn an_unchanged_search_entry_keeps_the_grid() {
    let table = table();
    let mut picker = picker(&table);
    picker.move_selection(20);
    let revision = picker.revision;
    picker.edited(&table, false, String::new(), &Vec::new(), &Vec::new());
    assert_eq!(picker.selected, 20);
    assert_eq!(picker.revision, revision + 1);
}

#[test]
fn cells_are_numbered_by_row_and_column() {
    let table = table();
    let mut picker = EmojiPicker::new();
    open(&mut picker, &table);
    for slot in 0..COLS * ROWS {
        let (col, row) = ((slot % COLS) as i64, (slot / COLS) as i64);
        motion(&mut picker, in_grid(CELL * col + CELL / 2, CELL * row + CELL / 2));
        assert_eq!(picker.hovered_index(), Some(slot));
    }
    // The edges: the last pixel of a cell, and the first past the grid.
    motion(&mut picker, in_grid(CELL - 1, 0));
    assert_eq!(picker.hovered_index(), Some(0));
    motion(&mut picker, in_grid(CELL, 0));
    assert_eq!(picker.hovered_index(), Some(1));
    motion(&mut picker, in_grid(CELL * COLS as i64, 0));
    assert_eq!(picker.hovered_index(), None);
    motion(&mut picker, in_grid(-1, 0));
    assert_eq!(picker.hovered_index(), None);
    // Every tab spans its share of the rail.
    for tab in 0..TABS {
        motion(&mut picker, on_tab(tab));
        assert_eq!(picker.hovered_tab(), Some(tab));
    }
    // A closed picker answers nothing.
    picker.close();
    motion(&mut picker, in_grid(0, 0));
    assert_eq!(picker.hovered_index(), None);
}

#[test]
fn wheel_rows_clamp_and_clear_the_hover() {
    let table = table();
    let mut picker = EmojiPicker::new();
    open(&mut picker, &table);
    motion(&mut picker, in_grid(0, 0));
    assert!(picker.scroll_rows(2));
    assert_eq!((picker.first_row, picker.hovered_index()), (2, None));
    motion(&mut picker, in_grid(0, 0));
    assert_eq!(picker.hovered_index(), Some(2 * COLS), "the cell under a point follows the rows");
    assert!(picker.scroll_rows(isize::MAX));
    assert_eq!(picker.first_row, 6, "108 cells are twelve rows, six of them on screen");
    assert!(!picker.scroll_rows(1), "at the end");
    assert!(picker.scroll_rows(isize::MIN));
    assert_eq!(picker.first_row, 0);
    assert!(!picker.scroll_rows(-1));
}

#[test]
fn keys_step_the_grid() {
    let table = table();
    let mut picker = picker(&table);
    let handled = KeyStep::Done(KeyOutcome::Handled);
    assert_eq!(press(&mut picker, &table, Key::Right, false), handled);
    assert_eq!(picker.selected, 1);
    assert_eq!(press(&mut picker, &table, Key::Down, false), handled);
    assert_eq!(picker.selected, 1 + COLS);
    assert_eq!(press(&mut picker, &table, Key::Left, false), handled);
    assert_eq!(picker.selected, COLS);
    assert_eq!(press(&mut picker, &table, Key::Up, false), handled);
    assert_eq!(picker.selected, 0);
    assert_eq!(press(&mut picker, &table, Key::PageDown, false), handled);
    assert_eq!(picker.selected, COLS * ROWS);
    assert_eq!(press(&mut picker, &table, Key::PageUp, false), handled);
    assert_eq!(picker.selected, 0);
    assert_eq!(press(&mut picker, &table, Key::Escape, false), KeyStep::Done(KeyOutcome::Close));
    assert_eq!(press(&mut picker, &table, Key::Other, false), KeyStep::Edit);

    let slots: Vec<Option<Slot>> = Vec::new();
    assert_eq!(
        picker.handle_key(&table, &slots, Some(Key::Escape), false, false),
        KeyStep::Done(KeyOutcome::Handled),
        "a release does nothing"
    );
    assert_eq!(press(&mut picker, &table, Key::KpEnter, false), inserts("\u{1f600}"));
}

#[test]
fn tab_walks_the_rail_and_stops_at_its_ends() {
    let table = table();
    let mut picker = picker_with_recents(&table, &["\u{1f600}"]);
    for tab in 1..TABS {
        press(&mut picker, &table, Key::Tab, false);
        assert_eq!(picker.current_tab(&table), Some(tab));
        assert_eq!(picker.selected, table.groups[tab - 1].start);
    }
    press(&mut picker, &table, Key::Tab, false);
    assert_eq!(picker.current_tab(&table), Some(TABS - 1));
    for tab in (0..TABS - 1).rev() {
        press(&mut picker, &table, Key::Tab, true);
        assert_eq!(picker.current_tab(&table), Some(tab));
    }
    press(&mut picker, &table, Key::Tab, true);
    assert_eq!(picker.current_tab(&table), Some(0));
}

#[test]
fn a_tab_past_the_rail_is_nothing() {
    let table = table();
    let mut picker = picker(&table);
    picker.move_selection(20);
    let revision = picker.revision;
    go_to_tab(&mut picker, &table, TABS);
    assert_eq!((picker.selected, picker.revision), (20, revision));
}

#[test]
fn clicks_pick_open_tones_and_change_tabs() {
    let table = table();
    let mut picker = EmojiPicker::new();
    open(&mut picker, &table);

    // The fourth cell of the second row is the first of the people.
    let hand = in_grid(CELL * 3, CELL);
    assert_eq!(click(&mut picker, &table, hand, false), Some("\u{1f44d}".to_owned()));

    // A secondary click opens its tones, and the next click answers them.
    assert_eq!(click(&mut picker, &table, hand, true), None);
    assert!(picker.tone_is_open());
    let third = on_tone(&picker, &table, 2);
    assert_eq!(
        click(&mut picker, &table, third, false),
        Some("\u{1f44d}\u{1f3fc}".to_owned())
    );
    assert_eq!(picker.default_tone, Some(1));
    assert!(!picker.tone_is_open());

    // The sixth spelling starts the popover's second row.
    click(&mut picker, &table, hand, true);
    let sixth = on_tone(&picker, &table, 5);
    assert_eq!(
        click(&mut picker, &table, sixth, false),
        Some("\u{1f44d}\u{1f3ff}".to_owned())
    );

    // A click off the popover only dismisses it.
    click(&mut picker, &table, hand, true);
    assert_eq!(click(&mut picker, &table, hand, false), None);
    assert!(!picker.tone_is_open());

    assert_eq!(click(&mut picker, &table, on_tab(5), false), None);
    assert_eq!(picker.current_tab(&table), Some(5));

    // A secondary click on an emoji without tones picks it.
    open(&mut picker, &table);
    assert_eq!(click(&mut picker, &table, in_grid(0, 0), true), Some("\u{1f600}".to_owned()));
    // Beside the grid and the rail a click does nothing.
    assert_eq!(click(&mut picker, &table, in_grid(-1, 0), false), None);
}

#[test]
fn the_panel_is_below_its_anchor_where_it_fits() {
    let table = table();
    let mut picker = EmojiPicker::new();
    assert_eq!(picker.geometry(), None);
    assert_eq!(picker.anchor(), None);
    open(&mut picker, &table);
    // 24 of padding, the entry, the grid of 240, the rail of 36 and the gaps.
    assert_eq!(picker.geometry(), Some(area(100, 108, 384, 350)));
    assert_eq!(picker.anchor(), Some(area(100, 100, 0, 0)));

    let at = |x: i64, y: i64| {
        let mut picker = EmojiPicker::new();
        let place = Place { anchor: area(x, y, 2, 20), ..place() };
        picker.open(1, place, &table, &Vec::new());
        picker.geometry().unwrap()
    };
    assert_eq!(at(100, 702), area(100, 730, 384, 350), "the last place that fits below");
    assert_eq!(at(100, 703), area(100, 345, 384, 350), "above, so the text stays visible");
    assert_eq!(at(1900, 100), area(1536, 128, 384, 350), "pushed in from the right");
    assert_eq!(at(-50, 100), area(0, 128, 384, 350), "and from the left");

    // An output shorter than the panel keeps its top.
    let mut squat = EmojiPicker::new();
    let place = Place { out: area(0, 0, 1920, 200), ..place() };
    squat.open(1, place, &table, &Vec::new());
    assert_eq!(squat.geometry(), Some(area(100, 0, 384, 350)));
}

#[test]
fn the_parts_of_the_panel_are_where_they_answer() {
    let table = table();
    let mut picker = EmojiPicker::new();
    open(&mut picker, &table);
    let place = place();
    assert_eq!(place.entry(), area(112, 120, 360, 34));
    assert_eq!(place.grid(), area(112, 162, 360, 240));
    assert_eq!(place.rail(), area(112, 410, 360, 36));
    assert_eq!(picker.cell_global_rect(10), Some(area(152, 202, 40, 40)));
    assert_eq!(picker.cell_global_rect(54), None, "below the visible rows");
    picker.scroll_rows(1);
    assert_eq!(picker.cell_global_rect(10), Some(area(152, 162, 40, 40)));
    assert_eq!(picker.cell_global_rect(8), None, "scrolled off");
    for tab in 0..TABS {
        motion(&mut picker, center(place.tab(tab)));
        assert_eq!(picker.hovered_tab(), Some(tab));
    }
}

#[test]
fn the_tone_popover_hangs_off_its_cell() {
    let table = table();
    let mut picker = EmojiPicker::new();
    open(&mut picker, &table);
    assert_eq!(picker.tone_geometry(&table), None);

    // Six spellings are two rows, and the panel has no room for them above its second row.
    click(&mut picker, &table, in_grid(CELL * 3, CELL), true);
    assert_eq!(picker.tone_geometry(&table), Some((area(146, 250, 212, 92), 5)));
    let px = UNITS as i64;
    assert!(picker.contains(&table, 150 * px, 300 * px));
    assert!(picker.contains(&table, 100 * px, 108 * px), "the panel's own corner");
    assert!(!picker.contains(&table, 99 * px, 108 * px));

    // At the grid's edge it is pushed in.
    let mut edge = EmojiPicker::new();
    open(&mut edge, &table);
    edge.view[9] = Slot::plain(12);
    click(&mut edge, &table, in_grid(0, CELL), true);
    assert_eq!(edge.tone_geometry(&table).unwrap().0.x, 100 * UNITS);

    // In the lower rows it is above its cell.
    edge.view[45] = Slot::plain(12);
    click(&mut edge, &table, in_grid(-5, 0), false);
    click(&mut edge, &table, in_grid(0, CELL * 5), true);
    assert_eq!(edge.tone_geometry(&table).unwrap().0.y, (362 - 8 - 92) * UNITS);

    // Scrolled off, it is not on the screen.
    edge.scroll_rows(6);
    assert_eq!(edge.tone_geometry(&table), None);
    edge.close();
    assert!(!edge.contains(&table, 150 * px, 300 * px));
}

#[test]
fn the_rail_lights_the_latched_tab_over_the_hovered_one() {
    let table = table();
    let mut picker = EmojiPicker::new();
    open(&mut picker, &table);
    motion(&mut picker, on_tab(3));
    let washes = |picker: &EmojiPicker| -> Vec<Wash> {
        picker.rail_tabs(&table).iter().map(|t| t.wash).collect()
    };
    let mut expected = vec![Wash::Plain; TABS];
    expected[1] = Wash::Selected;
    expected[3] = Wash::Hovered;
    assert_eq!(washes(&picker), expected);
    motion(&mut picker, on_tab(1));
    expected[3] = Wash::Plain;
    assert_eq!(washes(&picker), expected, "one tab can be both");
    assert_eq!(picker.rail_tabs(&table)[0].label, "\u{1f552}");
    assert_eq!(rail_label(9), "\u{1f6a9}");
}

#[test]
fn the_visible_cells_are_a_screenful_from_the_first_row() {
    let table = table();
    let mut picker = EmojiPicker::new();
    open(&mut picker, &table);
    motion(&mut picker, in_grid(CELL, 0));
    let cells = picker.visible_cells(&table);
    assert_eq!(cells.len(), COLS * ROWS);
    assert_eq!(cells[0].ch, "\u{1f600}");
    assert!(cells[0].selected && !cells[0].hovered);
    assert!(cells[1].hovered && !cells[1].selected);
    assert_eq!(cells[53].slot, 53);

    picker.scroll_rows(1);
    let cells = picker.visible_cells(&table);
    assert_eq!(cells[3].ch, "\u{1f44d}");
    assert!(!cells[0].selected, "the selection has scrolled off");

    search(&mut picker, &table, "cat");
    assert_eq!(picker.visible_cells(&table).len(), 2);
}

#[test]
fn a_history_without_room_keeps_nothing() {
    let mut picker = EmojiPicker::new();
    assert_eq!(picker.record_pick("\u{1f600}", 0), Vec::<String>::new());
    assert_eq!(picker.record_pick("\u{1f600}", 1), ["\u{1f600}"]);
    assert_eq!(picker.record_pick("\u{1f600}", 1), ["\u{1f600}"], "picking again changes nothing");
    assert_eq!(picker.record_pick("\u{1f601}", 1), ["\u{1f601}"], "the oldest drops out");
}

#[test]
fn the_plan_places_what_the_picker_shows() {
    let table = table();
    let mut picker = EmojiPicker::new();
    assert!(picker.render_plan(&table, 7).is_none(), "a closed picker draws nothing");
    open(&mut picker, &table);
    let output = picker.output().unwrap();
    assert!(picker.render_plan(&table, output + 1).is_none(), "nor does another output");

    motion(&mut picker, in_grid(CELL + 5, 5));
    let place = picker.place;
    let plan = picker.render_plan(&table, output).unwrap();
    let local = |area: Area| Area { x: area.x - place.out.x, y: area.y - place.out.y, ..area };
    assert_eq!(plan.panel, local(place.panel()));
    assert_eq!(plan.entry, local(place.entry()));
    assert_eq!(plan.cells.len(), COLS * ROWS);
    assert_eq!(plan.cells[0].ch, "\u{1f600}");
    assert_eq!(plan.cells[0].wash, Wash::Selected);
    assert_eq!(plan.cells[1].wash, Wash::Hovered);
    assert_eq!(plan.cells[2].wash, Wash::Plain);
    for (i, cell) in plan.cells.iter().enumerate() {
        assert_eq!(cell.area, local(place.cell(i)));
    }
    assert_eq!(plan.line.y, local(place.rail()).y - 4 * UNITS);
    assert_eq!((plan.line.w, plan.line.h), (360 * UNITS, UNITS));
    assert_eq!(plan.tabs.len(), TABS);
    assert_eq!(plan.tabs[1].wash, Wash::Selected);
    assert_eq!(plan.tabs[2].area, local(place.tab(2)));
    assert!(plan.tones.is_none());
    assert_eq!(plan.layers, [PickerLayer::Entry, PickerLayer::Panel]);

    click(&mut picker, &table, in_grid(CELL * 3, CELL), true);
    let plan = picker.render_plan(&table, output).unwrap();
    assert_eq!(
        plan.layers,
        [PickerLayer::Tones, PickerLayer::Entry, PickerLayer::Panel],
        "the popover is over the panel that it hangs off"
    );
    let tones = plan.tones.unwrap();
    let (popover, cols) = picker.tone_geometry(&table).unwrap();
    assert_eq!(tones.popover, local(popover));
    assert_eq!(tones.tones.len(), 6);
    assert_eq!(tones.tones[0].text, "\u{1f44d}");
    assert!(tones.tones[0].selected && !tones.tones[1].selected);
    assert_eq!(cols, 5);
    // The sixth spelling starts the second row.
    assert_eq!(tones.tones[5].area.x, tones.popover.x + 6 * UNITS);
    assert_eq!(tones.tones[5].area.y, tones.popover.y + 46 * UNITS);
    assert_eq!(tones.tones[4].area.x, tones.popover.x + 166 * UNITS);
}

#[test]
fn the_tones_open_on_what_a_pick_inserts() {
    let mut table = table();
    // A second toned emoji with two tones only.
    table.entries[13].tones.truncate(2);
    let mut picker = EmojiPicker::new();
    open(&mut picker, &table);
    picker.default_tone = Some(3);
    // The remembered tone, where the emoji has it.
    click(&mut picker, &table, in_grid(CELL * 3, CELL), true);
    assert_eq!(picker.tone, Some((12, 4)));
    press(&mut picker, &table, Key::Escape, false);
    // The plain form, where it has not: that is what a plain pick inserts.
    click(&mut picker, &table, in_grid(CELL * 4, CELL), true);
    assert_eq!(picker.tone, Some((13, 0)));
    assert_eq!(press(&mut picker, &table, Key::Return, false), inserts("\u{1f44e}"));
    // A place's own tone outranks the remembered one.
    picker.view[12] = Slot { at: 12, tone: Some(1) };
    click(&mut picker, &table, in_grid(CELL * 3, CELL), true);
    assert_eq!(picker.tone, Some((12, 2)));
    assert!(picker.suits(&table));
    let plain = picker.text_of(&table, 12).unwrap().to_owned();
    assert_eq!(press(&mut picker, &table, Key::Return, false), inserts(&plain));
}

#[test]
fn a_picker_suits_its_own_table() {
    let table = table();
    let mut picker = EmojiPicker::new();
    open(&mut picker, &table);
    assert!(picker.suits(&table));
    let empty = EmojiTable { entries: Vec::new(), groups: Vec::new() };
    assert!(!picker.suits(&empty));
    picker.selected = picker.view.len();
    assert!(!picker.suits(&table));
    picker.selected = 0;
    picker.tone = Some((0, 0));
    assert!(!picker.suits(&table), "a grinning face has no tones");
    picker.tone = Some((12, 6));
    assert!(!picker.suits(&table), "nor has a hand so many");
    picker.tone = Some((12, 5));
    assert!(picker.suits(&table));
    picker.first_row = usize::MAX;
    assert!(!picker.suits(&table));
}
