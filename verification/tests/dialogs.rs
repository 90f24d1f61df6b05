use synoik_ui::area::UNITS;
use synoik_ui::card::{
    content_box, inner_box, keycap, label_origin, stacked_origins, text_card, CardPx, TextInk,
};
use synoik_ui::config_error_notification::{
    error_text, BannerState, ConfigErrorNotification, CREATED_TIME, ERROR_TIME, SLIDE,
};
use synoik_ui::end_session_dialog::{
    self, content, revision_for, Button, DialogInk, DialogOutcome, DialogPx, EndSessionDialog,
    EndSessionType, Screen, WIDTH,
};
use synoik_ui::exit_confirm_dialog::{self, DialogLayer, DialogState, ExitConfirmDialog};
use synoik_ui::flashspot::{FlashSpot, Opacity, OUT_TIME};
use synoik_ui::keys::Key;
use synoik_ui::rect::Rect;

const MS: u128 = 1_000_000;

fn rect(x: i32, y: i32, w: i32, h: i32) -> Rect {
    Rect { x, y, w, h }
}

#[test]
fn buttons_do_not_overlap_and_fit_within_the_dialog() {
    let cancel = EndSessionDialog::button_rect(Button::Cancel);
    let action = EndSessionDialog::button_rect(Button::Action);
    assert!(
        cancel.0 + cancel.2 <= action.0,
        "cancel must sit fully left of the action button",
    );
    assert!(
        action.0 + action.2 <= WIDTH,
        "the action button must fit within the dialog width",
    );
}

const HD: Screen = Screen { w: 1920 * 64, h: 1080 * 64 };

/// A button's box on a full-HD output, in units.
fn on_screen(button: Button) -> (i64, i64, i64, i64) {
    let (x, y, w, h) = EndSessionDialog::button_rect(button);
    let units = |px: i32| i64::from(px) * 64;
    (units(760 + x), units(445 + y), units(w), units(h))
}

fn open_dialog() -> EndSessionDialog {
    let mut dialog = EndSessionDialog::new();
    dialog.show(EndSessionType::Shutdown);
    dialog.advance_animations(true);
    dialog
}

#[test]
fn keys_move_the_focus_confirm_and_cancel() {
    let mut dialog = open_dialog();
    let first = dialog.focused;
    assert_eq!(dialog.handle_key(Some(Key::Tab), true), DialogOutcome::Handled);
    assert_ne!(dialog.focused, first);
    assert_eq!(dialog.handle_key(Some(Key::Left), true), DialogOutcome::Handled);
    assert_eq!(dialog.focused, first);
    assert_eq!(dialog.focused.toggled().toggled(), first);

    dialog.focused = Button::Action;
    for key in [Key::Return, Key::KpEnter, Key::IsoEnter] {
        assert_eq!(dialog.handle_key(Some(key), true), DialogOutcome::Confirm);
    }
    dialog.focused = Button::Cancel;
    assert_eq!(dialog.handle_key(Some(Key::Return), true), DialogOutcome::Cancel);
    assert_eq!(dialog.handle_key(Some(Key::Escape), true), DialogOutcome::Cancel);
    assert_eq!(dialog.handle_key(Some(Key::Other), true), DialogOutcome::Handled);
    assert_eq!(dialog.handle_key(None, true), DialogOutcome::Handled);
    // A release does nothing.
    assert_eq!(dialog.handle_key(Some(Key::Escape), false), DialogOutcome::Handled);
}

#[test]
fn a_dialog_that_is_not_fully_open_does_nothing() {
    let mut dialog = EndSessionDialog::new();
    assert!(!dialog.is_open());
    assert_eq!(dialog.handle_key(Some(Key::Escape), true), DialogOutcome::Handled);
    dialog.show(EndSessionType::Logout);
    assert!(dialog.is_open());
    assert!(dialog.are_animations_ongoing());
    assert_eq!(dialog.handle_key(Some(Key::Escape), true), DialogOutcome::Handled);
    let (x, y, _, _) = on_screen(Button::Cancel);
    assert_eq!(dialog.pointer_click(HD, x, y), DialogOutcome::Handled);
    assert!(!dialog.pointer_motion(HD, x, y));
    dialog.advance_animations(true);
    assert_eq!(dialog.pointer_click(HD, x, y), DialogOutcome::Cancel);
    assert!(dialog.start_hiding());
    assert!(!dialog.start_hiding());
    assert_eq!(dialog.handle_key(Some(Key::Escape), true), DialogOutcome::Handled);
    dialog.advance_animations(true);
    assert_eq!(dialog.state, DialogState::Hidden);
}

#[test]
fn hovering_a_button_focuses_it_and_clicking_it_acts() {
    let mut dialog = open_dialog();
    dialog.focused = Button::Action;
    let (x, y, w, h) = on_screen(Button::Cancel);
    assert!(dialog.pointer_motion(HD, x, y));
    assert_eq!(dialog.focused, Button::Cancel);
    assert!(!dialog.pointer_motion(HD, x + w - 1, y + h - 1));
    // Off the buttons the focus stays.
    assert!(!dialog.pointer_motion(HD, x + w, y));
    assert!(!dialog.pointer_motion(HD, x - 1, y));
    assert_eq!(dialog.focused, Button::Cancel);
    assert_eq!(dialog.pointer_click(HD, x + w, y), DialogOutcome::Handled);
    let (x, y, _, _) = on_screen(Button::Action);
    assert_eq!(dialog.pointer_click(HD, x, y), DialogOutcome::Confirm);
}

#[test]
fn the_dialog_is_centred_but_not_off_the_near_edge() {
    assert_eq!(EndSessionDialog::origin(HD), (1520 * 64, 890 * 64));
    // A smaller output shows the dialog from its corner.
    let small = Screen { w: 300 * 64, h: 100 * 64 };
    assert_eq!(EndSessionDialog::origin(small), (0, 0));
    let dialog = open_dialog();
    assert_eq!(
        dialog.pointer_click(small, 124 * 64, 126 * 64),
        DialogOutcome::Cancel
    );
    // On an odd width the corner is on half a unit.
    let odd = Screen { w: 1920 * 64 + 1, h: 1080 * 64 };
    assert_eq!(EndSessionDialog::origin(odd).0, 1520 * 64 + 1);
    let (x, y, _, _) = on_screen(Button::Cancel);
    assert_eq!(dialog.pointer_click(odd, x, y), DialogOutcome::Handled);
    assert_eq!(dialog.pointer_click(odd, x + 1, y), DialogOutcome::Cancel);
}

#[test]
fn the_dialog_stacks_its_text_and_centres_its_labels() {
    let mut dialog = open_dialog();
    dialog.focused = Button::Cancel;
    let px = DialogPx {
        w: 800,
        h: 380,
        padding: 48,
        border: 4,
        gap: 24,
        cancel: rect(248, 252, 240, 80),
        action: rect(512, 252, 240, 80),
    };
    let ink = DialogInk {
        title: rect(1, 6, 200, 30),
        description: rect(0, 4, 500, 20),
        cancel: rect(0, 3, 90, 21),
        action: rect(0, 2, 110, 100),
    };
    let layout = dialog.prepare(&px, &ink);
    assert_eq!(layout.inner, rect(4, 4, 792, 372));
    assert_eq!(layout.title, (48, 42));
    assert_eq!(layout.description, (48, 48 + 30 + 24 - 4));
    assert_eq!(layout.cancel, (248, 252 + 29 - 3));
    assert_eq!(layout.action, (512, 252 - 10 - 2));
    assert_eq!(layout.accented, Button::Cancel);
}

#[test]
fn a_card_wraps_its_text_and_keeps_the_patch_inside() {
    let px = CardPx { padding: 8, border: 2, patch_x: 4, patch_y: 2 };
    let ink = TextInk { all: rect(1, -3, 300, 20), span: rect(200, -3, 101, 20) };
    let layout = text_card(ink, px);
    assert_eq!((layout.card.w, layout.card.h), (316, 36));
    assert_eq!((layout.card.text_x, layout.card.text_y), (7, 11));
    assert_eq!(layout.inner, rect(2, 2, 312, 32));
    assert_eq!(layout.patch, Some(rect(203, 6, 109, 24)));
    // A wide patch is cut at the border, and a span without ink has none.
    let wide = CardPx { patch_x: 100, ..px };
    assert_eq!(text_card(ink, wide).patch, Some(rect(107, 6, 207, 24)));
    let bare = TextInk { span: rect(200, 0, 0, 20), ..ink };
    assert_eq!(text_card(bare, px).patch, None);
}

#[test]
fn the_exit_dialog_sets_its_key_apart() {
    let spans = exit_confirm_dialog::spans();
    let texts: Vec<&str> = spans.iter().map(|s| s.text.as_str()).collect();
    assert_eq!(
        texts,
        ["Are you sure you want to exit synoik?\n\nPress", " Enter ", " to confirm."]
    );
    assert!(spans[1].mono && !spans[0].mono && !spans[2].mono);
}

#[test]
fn the_banner_slides_in_to_where_it_rests() {
    let mut banner = ConfigErrorNotification::new();
    assert_eq!(banner.place(1000, 300, 40, 0), None);
    banner.show(false);
    let slide = SLIDE as i64;
    let at = |banner: &ConfigErrorNotification, slid: i64| {
        let place = banner.place(1920 * 64, 300 * 64, 40 * 64, slid).unwrap();
        (place.left, place.top)
    };
    assert_eq!(at(&banner, 0), (1620 * 64, -40 * 64 * SLIDE));
    assert_eq!(at(&banner, slide / 2).1, -12 * 64 * SLIDE);
    let landed = at(&banner, slide);
    banner.advance_animations(true, 0);
    assert_eq!(at(&banner, 0), landed);
    assert_eq!(landed.1, 16 * 64 * SLIDE);
    // On an output that is too narrow it starts at the edge.
    assert_eq!(banner.place(64, 128, 64, 0).unwrap().left, 0);
}

#[test]
fn the_text_counts_down() {
    assert_eq!(
        content(EndSessionType::Logout, Some(59)),
        (
            "Log Out",
            "Log Out",
            "The system will be logged out automatically in 59 seconds.".to_owned()
        )
    );
    assert_eq!(
        content(EndSessionType::Shutdown, Some(0)).2,
        "The system will be powered off automatically in 0 seconds."
    );
    assert_eq!(
        content(EndSessionType::Restart, None),
        ("Restart", "Restart", "Do you want to restart?".to_owned())
    );
}

#[test]
fn the_countdown_leaves_the_focus_alone() {
    let mut dialog = open_dialog();
    dialog.focused = Button::Cancel;
    dialog.set_content(EndSessionType::Restart, Some(59));
    assert_eq!(dialog.content, Some((EndSessionType::Restart, Some(59))));
    assert_eq!(dialog.focused, Button::Cancel);
    assert!(dialog.is_open());
}

#[test]
fn the_key_tells_what_is_shown() {
    let mut keys = Vec::new();
    for kind in [
        EndSessionType::Logout,
        EndSessionType::Shutdown,
        EndSessionType::Restart,
    ] {
        for seconds in [None, Some(0), Some(1), Some(59)] {
            for focused in [Button::Cancel, Button::Action] {
                keys.push(revision_for(kind, seconds, focused));
            }
        }
    }
    let n = keys.len();
    keys.sort();
    keys.dedup();
    assert_eq!(keys.len(), n);
    assert_eq!(
        revision_for(EndSessionType::Restart, Some(59), Button::Action),
        2 | (1 << 2) | (60 << 3)
    );
}

#[test]
fn the_session_dialogs_node_is_a_modal_alert() {
    let node = end_session_dialog::a11y_node();
    assert_eq!(node.role(), accesskit::Role::AlertDialog);
    assert_eq!(node.label(), Some("End Session"));
    assert_eq!(node.description(), None);
    assert!(node.is_modal());
}

#[test]
fn the_exit_dialogs_node_spells_its_message_out() {
    let node = exit_confirm_dialog::a11y_node();
    assert_eq!(node.role(), accesskit::Role::AlertDialog);
    assert_eq!(node.label(), Some("Exit synoik"));
    assert_eq!(
        node.description(),
        Some("Are you sure you want to exit synoik?\n\nPress Enter to confirm.")
    );
    assert!(node.is_modal());
}

#[test]
fn the_exit_dialog_opens_and_closes() {
    let mut dialog = ExitConfirmDialog::new();
    assert!(dialog.can_show());
    assert!(!dialog.is_open());
    assert!(!dialog.start_hiding());
    assert!(dialog.show());
    assert!(dialog.is_open() && dialog.are_animations_ongoing());
    // Showing it again leaves it as it is.
    dialog.advance_animations(true);
    assert!(dialog.show());
    assert_eq!(dialog.state, DialogState::Visible);
    assert!(!dialog.are_animations_ongoing());
    assert!(dialog.start_hiding());
    assert!(!dialog.is_open());
    dialog.advance_animations(false);
    assert_eq!(dialog.state, DialogState::Hiding);
    // It can come back while it is going away.
    assert!(dialog.show());
    assert!(dialog.is_open());
}

#[test]
fn a_settled_dialog_rests() {
    for state in [
        DialogState::Hidden,
        DialogState::Showing,
        DialogState::Visible,
        DialogState::Hiding,
    ] {
        let settled = state.settle(true);
        assert!(!settled.moving());
        assert_eq!(settled.up(), state.up());
        assert_eq!(state.settle(false), state);
    }
}

#[test]
fn the_banner_says_what_failed_or_was_created() {
    let mut banner = ConfigErrorNotification::new();
    assert!(!banner.are_animations_ongoing());
    banner.show(false);
    let text: String = banner.spans().iter().map(|s| s.text.clone()).collect();
    assert_eq!(text, error_text());
    assert_eq!(
        text,
        "Failed to parse the config file. Please run niri validate to see the errors."
    );
    let mono: Vec<bool> = banner.spans().iter().map(|s| s.mono).collect();
    assert_eq!(mono, [false, true, false]);

    banner.show_created("/home/u/config.kdl");
    let spans = banner.spans();
    assert_eq!(spans.len(), 2);
    assert_eq!(spans[0].text, "Created a default config file at ");
    assert_eq!(spans[1].text, "\"/home/u/config.kdl\"");
    assert_eq!(banner.spans_with("here")[1].text, "here");
    assert!(spans[1].mono);
}

#[test]
fn the_banner_shows_stays_and_goes() {
    let mut banner = ConfigErrorNotification::new();
    banner.show(true);
    assert_eq!(banner.state, BannerState::Hidden, "switched off");
    banner.show(false);
    assert_eq!(banner.state, BannerState::Showing);
    banner.advance_animations(false, 0);
    assert_eq!(banner.state, BannerState::Showing);
    banner.advance_animations(true, 10 * MS);
    assert_eq!(banner.state, BannerState::Shown(10 * MS + ERROR_TIME));
    assert_eq!(ERROR_TIME, 4000 * MS);
    banner.advance_animations(true, 10 * MS + ERROR_TIME - 1);
    assert_eq!(banner.state, BannerState::Shown(10 * MS + ERROR_TIME));
    banner.advance_animations(true, 10 * MS + ERROR_TIME);
    assert_eq!(banner.state, BannerState::Hiding);
    banner.advance_animations(true, 20_000 * MS);
    assert_eq!(banner.state, BannerState::Hidden);
    banner.start_hiding();
    assert_eq!(banner.state, BannerState::Hidden);

    // A created file stays longer, and showing it anew starts over.
    banner.show_created("/a");
    banner.advance_animations(true, 0);
    assert_eq!(banner.state, BannerState::Shown(CREATED_TIME));
    banner.start_hiding();
    assert_eq!(banner.state, BannerState::Hiding);
    banner.show_created("/a");
    assert_eq!(banner.state, BannerState::Showing);
}

#[test]
fn the_banner_is_drawn_anew_only_for_new_content() {
    let mut banner = ConfigErrorNotification::new();
    banner.show(false);
    banner.show(false);
    assert_eq!(banner.revision, 0);
    banner.show_created("/a/c");
    assert_eq!(banner.revision, 1);
    banner.show_created("/a/c");
    assert_eq!(banner.revision, 1);
    // The same file by another spelling of its path.
    banner.show_created("/a//c/");
    assert_eq!(banner.revision, 1);
    assert_eq!(banner.created_path.as_deref(), Some("/a/c"));
    banner.show_created("/b");
    assert_eq!(banner.revision, 2);
    banner.show_file("/d", true);
    assert_eq!(banner.revision, 2);
    banner.show(false);
    assert_eq!(banner.revision, 3);
    assert!(banner.created_path.is_none());
}

#[test]
fn the_flash_fades_out_fast_then_slow() {
    let mut flash = FlashSpot::new();
    flash.fire(rect(0, 0, 100, 100), 0);

    let alpha = |ms: u128| flash.alpha(ms * MS).map(|(_, a)| a.part as f64 / a.whole as f64);

    assert_eq!(alpha(0), Some(1.), "starts fully opaque");
    assert_eq!(alpha(500), None, "and is gone at the end");
    assert_eq!(alpha(10_000), None, "and stays gone");

    let quarter = alpha(125).unwrap();
    let half = alpha(250).unwrap();
    assert!(
        (quarter - 0.5625).abs() < 1e-5,
        "ease-out quad at t=0.25, got {quarter}"
    );
    assert!(
        half < 0.5,
        "more than half the fade is done by halfway, got {half}"
    );
}

#[test]
fn a_second_flash_replaces_the_first() {
    let mut flash = FlashSpot::new();
    let first = rect(0, 0, 10, 10);
    let second = rect(50, 50, 20, 20);

    flash.fire(first, 0);
    flash.fire(second, 250 * MS);

    let (area, alpha) = flash.alpha(250 * MS).unwrap();
    assert_eq!(area, second);
    assert_eq!(alpha.part, alpha.whole, "the new flash starts from the top");
    assert!(flash.is_animating(700 * MS));
}

#[test]
fn a_flash_is_cut_to_each_output() {
    let mut flash = FlashSpot::new();
    assert_eq!(flash.visible_part(rect(0, 0, 100, 100), 0), None);
    flash.fire(rect(90, 10, 40, 20), 0);
    let whole = OUT_TIME * OUT_TIME;
    assert_eq!(
        flash.visible_part(rect(0, 0, 100, 100), 0),
        Some((rect(90, 10, 10, 20), Opacity { part: whole, whole }))
    );
    assert_eq!(
        flash.visible_part(rect(100, 0, 100, 100), 100 * MS),
        Some((rect(0, 10, 30, 20), Opacity { part: 400 * MS * 400 * MS, whole }))
    );
    assert_eq!(flash.visible_part(rect(200, 0, 100, 100), 0), None);
    flash.advance(499 * MS);
    assert!(flash.active.is_some());
    flash.advance(500 * MS);
    assert!(flash.active.is_none());
    assert!(!flash.is_animating(0));
}

#[test]
fn rectangles_share_what_they_overlap() {
    let a = rect(0, 0, 10, 10);
    assert_eq!(a.intersection(&rect(5, 6, 10, 10)), Some(rect(5, 6, 5, 4)));
    assert_eq!(a.intersection(&rect(10, 0, 5, 5)), None);
    assert!(a.contains(0, 0));
    assert!(a.contains(9, 9));
    assert!(!a.contains(10, 9));
    assert!(!a.contains(-1, 0));
    // An edge past the largest number ends there.
    let far = rect(i32::MAX - 5, 0, i32::MAX, 10);
    assert!(far.contains(i32::MAX - 1, 3));
    assert!(!far.contains(i32::MAX, 3));
}

#[test]
fn a_card_wraps_its_ink() {
    let card = content_box(rect(2, -3, 100, 20), 16);
    assert_eq!((card.w, card.h), (132, 52));
    assert_eq!((card.text_x, card.text_y), (14, 19));
    let empty = content_box(rect(0, 0, -50, 0), 0);
    assert_eq!((empty.w, empty.h), (1, 1));
    assert_eq!(inner_box(100, 50, 8), rect(8, 8, 84, 34));
    assert_eq!(inner_box(10, 50, 8), rect(8, 8, 0, 34));
}

#[test]
fn a_keycap_is_padded_and_cut() {
    let clip = rect(0, 0, 100, 50);
    assert_eq!(
        keycap(rect(30, 10, 20, 12), (5, 5), (4, 2), clip),
        Some(rect(31, 13, 28, 16))
    );
    assert_eq!(
        keycap(rect(90, 10, 20, 12), (5, 5), (4, 2), clip),
        Some(rect(91, 13, 9, 16))
    );
    assert_eq!(keycap(rect(30, 10, 0, 12), (5, 5), (4, 2), clip), None);
    assert_eq!(keycap(rect(300, 10, 20, 12), (5, 5), (4, 2), clip), None);
}

#[test]
fn labels_and_stacked_text_are_placed_by_their_ink() {
    assert_eq!(label_origin(rect(10, 20, 120, 40), rect(3, -8, 60, 15)), (10, 40));
    // Ink taller than its button sticks out evenly, the odd pixel below.
    assert_eq!(label_origin(rect(10, 20, 120, 10), rect(0, 0, 60, 15)), (10, 18));
    let (title, description) = stacked_origins(rect(0, 3, 80, 16), rect(0, -2, 90, 12), 24, 12);
    assert_eq!(title, (24, 21));
    assert_eq!(description, (24, 54));
}

#[test]
fn a_dialog_that_is_not_hidden_dims_what_is_behind_it() {
    let mut exit = ExitConfirmDialog::new();
    assert!(exit.render_plan(true).is_empty());
    exit.show();
    assert_eq!(exit.render_plan(true), [DialogLayer::Card, DialogLayer::Backdrop]);
    assert_eq!(exit.render_plan(false), [DialogLayer::Backdrop], "even without its box");
    exit.advance_animations(true);
    exit.start_hiding();
    assert_eq!(exit.render_plan(false), [DialogLayer::Backdrop]);
    exit.advance_animations(true);
    assert!(exit.render_plan(true).is_empty());

    let mut end = EndSessionDialog::new();
    assert!(end.render_plan(true).is_empty());
    end.show(EndSessionType::Logout);
    assert_eq!(end.render_plan(true), [DialogLayer::Card, DialogLayer::Backdrop]);
    assert_eq!(end.render_plan(false), [DialogLayer::Backdrop]);
}

#[test]
fn the_exit_dialog_is_centred_and_never_off_the_near_edge() {
    let out = Screen { w: 1920 * UNITS as i64, h: 1080 * UNITS as i64 };
    let at = |scale: u16, w: u32, h: u32| {
        let p = ExitConfirmDialog::place(out, scale, w, h);
        (p.x, p.y)
    };
    assert_eq!(at(120, 400, 200), (760, 440));
    // Half a pixel goes to the right and down.
    assert_eq!(at(120, 401, 201), (760, 440));
    assert_eq!(at(120, 399, 199), (761, 441));
    // At one and a half, in the pixels of a 2880 by 1620 screen.
    assert_eq!(at(180, 600, 300), (1140, 660));
    assert_eq!(at(120, 2000, 1200), (0, 0), "a box too large is cut at the far end");
    let p = ExitConfirmDialog::place(out, 120, 401, 200);
    assert_eq!((p.pivot_x, p.pivot_y), (p.x + 201, p.y + 100));
}
