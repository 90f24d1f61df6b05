//! The message list: notifications by source, and media players above them.

use synoik_ui::area::{Area, UNITS};
use synoik_ui::message_layout::{BlockKind, CardLayout, GroupMeasure, ListMeasure, Spot};
use synoik_ui::message_list::{
    CalendarMessageList, CardContent, CardGroup, CardZone, ListHit, ListHover, MediaCardContent,
    SourceKey,
};
use synoik_ui::menu_view::ListLayer;
use synoik_ui::message_view::Element;
use synoik_ui::popover::MediaControl;

/// A length in logical pixels.
fn px(n: i64) -> i64 {
    n * UNITS as i64
}

fn long(n: i64) -> i128 {
    px(n) as i128
}

fn area(x: i64, y: i64, w: i64, h: i64) -> Area {
    Area { x: long(x), y: long(y), w: long(w), h: long(h) }
}

fn center(area: Area) -> (i64, i64) {
    ((area.x + area.w / 2) as i64, (area.y + area.h / 2) as i64)
}

fn player_with_art(bus: &str, art: Option<&str>) -> MediaCardContent {
    MediaCardContent {
        bus_name: bus.to_owned(),
        art: art.map(|a| a.to_owned()),
        can_previous: false,
        can_play_pause: true,
        can_next: false,
        shown: vec!["Rhythmbox".to_owned(), "So What".to_owned(), "Miles Davis".to_owned()],
    }
}

fn sample_card(id: u32) -> CardContent {
    CardContent {
        id,
        actions: Vec::new(),
        has_default_action: false,
        shown: vec!["App".to_owned(), format!("Title {id}"), "Body".to_owned()],
    }
}

fn card_with_action(id: u32) -> CardContent {
    CardContent { actions: vec!["ok".to_owned()], ..sample_card(id) }
}

fn single_group(card: CardContent) -> CardGroup {
    CardGroup {
        key: SourceKey::PidName(card.id, "App".to_owned()),
        source_title: "App".to_owned(),
        cards: vec![card],
    }
}

fn multi_group(pid: u32, cards: Vec<CardContent>) -> CardGroup {
    CardGroup {
        key: SourceKey::PidName(pid, "App".to_owned()),
        source_title: "App".to_owned(),
        cards,
    }
}

fn app_key() -> SourceKey {
    SourceKey::PidName(7, "App".to_owned())
}

/// Measured cards: 98 pixels tall, 40 more with the body folded out, and 36 more for buttons.
/// The close button is at the top right, the caret beside it.
fn measure(list: &CalendarMessageList) -> ListMeasure {
    let mut groups: Vec<GroupMeasure> = Vec::new();
    for (g, group) in list.groups.iter().enumerate() {
        let mut cards: Vec<CardLayout> = Vec::new();
        for (c, card) in group.cards.iter().enumerate() {
            let form = list.card_form(g, c);
            let body = if form.expanded { 138 } else { 98 };
            let acts = form.expanded && !card.actions.is_empty();
            cards.push(CardLayout {
                h: px(if acts { body + 36 } else { body }),
                close: area(383, 6, 24, 24),
                expand: if form.caret { Some(area(353, 6, 24, 24)) } else { None },
                can_expand: form.caret,
                actions: if acts {
                    (0..card.actions.len() as i64).map(|i| area(6 + 100 * i, body, 90, 30)).collect()
                } else {
                    Vec::new()
                },
            });
        }
        groups.push(GroupMeasure { cards });
    }
    ListMeasure {
        list_w: px(425),
        media_h: px(84),
        previous: area(300, 30, 32, 32),
        play_pause: area(336, 30, 32, 32),
        next: area(372, 30, 32, 32),
        clear_w: px(60),
        fan_margin: px(12),
        // The two cards under a stack's top one show 10 and 10 / 1.4 pixels of themselves.
        peeks: vec![px(10), 457],
        peek_inset: px(8),
        groups,
    }
}

/// A point of a shown card, by its offset from the card's corner.
fn point_in(list: &CalendarMessageList, h: i128, id: u32, x: i64, y: i64) -> (i64, i64) {
    let shown = list.visible_interactive_cards(&measure(list), h);
    let card = shown.iter().find(|c| c.id == id).expect("the card is visible").card;
    (card.x as i64 + px(x), card.y as i64 + px(y))
}

fn hover(list: &mut CalendarMessageList, pos: (i64, i64), h: i128) -> bool {
    let m = measure(list);
    list.hover(&m, h, Some(pos))
}

fn hit(list: &CalendarMessageList, pos: (i64, i64), h: i128) -> Option<ListHit> {
    list.hit(&measure(list), h, pos.0, pos.1)
}

#[test]
fn an_album_art_decode_invalidates_only_the_list_showing_it() {
    let mut list = CalendarMessageList::new(Vec::new());
    assert!(list.set_players(vec![
        player_with_art("org.mpris.MediaPlayer2.a", Some("/tmp/cover-a.png")),
        player_with_art("org.mpris.MediaPlayer2.b", None),
    ]));
    let before = list.revision;

    assert!(
        !list.note_art_decoded("/tmp/some-other-cover.png"),
        "an unrelated decode must not re-bake the list"
    );
    assert_eq!(list.revision, before);

    assert!(list.note_art_decoded("/tmp/cover-a.png"));
    assert!(list.revision > before, "the shown cover's decode must invalidate the cards");

    // The player without art contributes nothing to keep alive.
    assert_eq!(list.art_sources(), ["/tmp/cover-a.png"]);
}

#[test]
fn message_list_expansion_shows_full_wrap_regardless_of_height() {
    let mut list = CalendarMessageList::new(vec![single_group(card_with_action(1))]);
    list.toggle_body_expanded(1);

    // The expanded layout is identical at a roomy and a tight height.
    let m = measure(&list);
    let roomy = list.visible_interactive_cards(&m, long(400));
    let tight = list.visible_interactive_cards(&m, long(150));
    assert_eq!(roomy.len(), 1);
    assert_eq!(tight.len(), 1);
    assert!(list.card_form(0, 0).expanded);
    assert_eq!(
        roomy[0].card.h, tight[0].card.h,
        "the expansion does not depend on the popover height"
    );
    assert_eq!(roomy[0].card.h, long(138 + 36));
}

#[test]
fn message_list_scrolls_to_reveal_overflow() {
    // More single-card groups than fit: the viewport shows a subset, and scrolling reveals the
    // rest.
    let groups: Vec<CardGroup> = (1..=10).map(|i| single_group(sample_card(i))).collect();
    let mut list = CalendarMessageList::new(groups);
    let m = measure(&list);
    let h = long(346);
    assert!(list.overflowing(&m, h), "10 cards overflow the popover");

    let ids = |list: &CalendarMessageList| -> Vec<u32> {
        list.visible_interactive_cards(&m, h).iter().map(|c| c.id).collect()
    };
    let top_ids = ids(&list);
    assert!(!top_ids.is_empty());
    assert!(top_ids.len() < 10, "not all 10 fit the viewport at once");
    assert!(top_ids.contains(&1), "the newest card is visible at the top");
    assert!(!top_ids.contains(&10), "the last card is initially scrolled off");

    // Scroll to the bottom: the last card becomes visible, the first leaves.
    assert!(list.scroll_by(&m, px(10_000), h), "a big scroll moves the offset");
    assert!(
        !list.scroll_by(&m, px(10_000), h),
        "scrolling past the end is clamped (no further move)"
    );
    let bottom_ids = ids(&list);
    assert!(bottom_ids.contains(&10), "scrolling reveals the last card");
    assert!(!bottom_ids.contains(&1), "the first card scrolled away");

    // Scroll back up past the top: clamped to 0, first card visible again.
    assert!(list.scroll_by(&m, px(-10_000), h));
    assert!(!list.scroll_by(&m, px(-10_000), h), "clamped at the top");
    assert!(ids(&list).contains(&1));
}

#[test]
fn message_list_group_expansion_does_not_resurrect_after_shrink() {
    let mut list =
        CalendarMessageList::new(vec![multi_group(7, vec![sample_card(1), sample_card(2)])]);
    list.toggle_group(app_key());
    let expanded =
        |list: &CalendarMessageList| list.visible_groups(&measure(list), long(400))[0].expanded;
    assert!(expanded(&list), "the group is expanded");

    // Shrink to one notification: renders as a plain card and drops the expansion state
    // entirely.
    assert!(list.set_groups(vec![multi_group(7, vec![sample_card(1)])]));
    assert!(list.group_expanded.is_none(), "shrink-to-one clears the expanded-group state");

    // A later arrival grows the source again: a collapsed stack, not a resurrected expansion.
    assert!(list.set_groups(vec![multi_group(7, vec![sample_card(1), sample_card(2)])]));
    assert!(!expanded(&list), "the re-grown group is collapsed, not expanded");
}

#[test]
fn message_list_collapse_unexpands_member_bodies() {
    let mut list =
        CalendarMessageList::new(vec![multi_group(7, vec![sample_card(1), sample_card(2)])]);
    list.toggle_group(app_key());
    list.toggle_body_expanded(1);
    assert!(list.body_expanded.contains(&1));
    list.collapse_group();
    assert!(
        !list.body_expanded.contains(&1),
        "collapsing the group un-expanded the member body"
    );
}

#[test]
fn message_list_hover_tracks_card_buttons() {
    let mut list = CalendarMessageList::new(vec![
        single_group(card_with_action(1)),
        single_group(sample_card(2)),
    ]);
    list.toggle_body_expanded(1);
    let h = long(600);

    // The close button: the card is hovered and the close zone is named.
    let close = point_in(&list, h, 1, 395, 18);
    assert!(hover(&mut list, close, h));
    assert_eq!(list.hovered, Some(ListHover::Card { id: 1, zone: Some(CardZone::Close) }));

    // An action pill: named by its index.
    let action = point_in(&list, h, 1, 51, 153);
    assert!(hover(&mut list, action, h));
    assert_eq!(list.hovered, Some(ListHover::Card { id: 1, zone: Some(CardZone::Action(0)) }));

    // The card body: the card is still hovered (it darkens), with no button zone.
    let body = point_in(&list, h, 1, 206, 87);
    assert!(hover(&mut list, body, h));
    assert_eq!(list.hovered, Some(ListHover::Card { id: 1, zone: None }));

    // The Clear pill highlights.
    let clear = list.clear_rect(&measure(&list), h).expect("there is something to clear");
    assert!(hover(&mut list, center(clear), h));
    assert_eq!(list.hovered, Some(ListHover::Clear));

    let m = measure(&list);
    assert!(list.hover(&m, h, None), "leaving the list clears the hover");
    assert_eq!(list.hovered, None);
}

#[test]
fn message_list_hover_clears_on_content_change() {
    let mut list =
        CalendarMessageList::new(vec![single_group(sample_card(1)), single_group(sample_card(2))]);
    let h = long(600);
    let close = point_in(&list, h, 1, 395, 18);
    hover(&mut list, close, h);
    assert!(matches!(list.hovered, Some(ListHover::Card { id: 1, .. })));

    list.set_groups(vec![
        single_group(sample_card(1)),
        single_group(sample_card(2)),
        single_group(sample_card(3)),
    ]);
    assert_eq!(list.hovered, None, "a content change clears the now-stale hover");
}

#[test]
fn message_list_clear_hover_does_not_rebake_cards() {
    let mut list = CalendarMessageList::new(vec![single_group(sample_card(1))]);
    let h = long(600);
    let rev0 = list.revision;
    let clear = list.clear_rect(&measure(&list), h).unwrap();
    assert!(hover(&mut list, center(clear), h));
    assert_eq!(list.hovered, Some(ListHover::Clear));
    assert_eq!(list.revision, rev0, "a Clear-pill hover must not bump the card revision");
}

#[test]
fn media_cards_come_first_and_cannot_be_cleared() {
    let mut list = CalendarMessageList::new(Vec::new());
    assert!(list.is_empty() && !list.can_clear());
    list.set_players(vec![player_with_art("a", None), player_with_art("b", None)]);
    assert!(!list.is_empty());
    assert!(!list.can_clear(), "players alone leave nothing to clear");
    assert_eq!(list.len(), 0, "players are no notifications");
    assert_eq!(list.clear_rect(&measure(&list), long(600)), None);
    assert!(!list.set_players(vec![player_with_art("a", None), player_with_art("b", None)]));

    list.set_groups(vec![single_group(sample_card(1))]);
    let h = long(600);
    let m = measure(&list);
    let layout = list.layout(&m);
    assert_eq!(layout.media, [0, long(96)]);
    assert_eq!(layout.blocks[0].top, long(192));
    assert_eq!(layout.content_h, long(290));
    assert_eq!(list.natural_height(&m), long(10 + 290 + 49));
    assert!(!list.overflowing(&m, list.natural_height(&m)));

    let rects = list.visible_media_cards(&m, h);
    assert_eq!(rects.len(), 2);
    assert_eq!(rects[1].p, 1);
    assert_eq!(rects[1].card, area(10, 106, 413, 84));
    assert_eq!(rects[1].play_pause, area(346, 136, 32, 32));

    // A button reacts where the player lets it; elsewhere the card is raised.
    let play = center(rects[0].play_pause);
    assert_eq!(
        hit(&list, play, h),
        Some(ListHit::MediaControl { bus_name: "a".to_owned(), control: MediaControl::PlayPause })
    );
    let next = center(rects[0].next);
    assert_eq!(hit(&list, next, h), Some(ListHit::MediaBody("a".to_owned())));
    assert!(list.players[0].is_sensitive(MediaControl::PlayPause));
    assert!(!list.players[0].is_sensitive(MediaControl::Previous));

    hover(&mut list, play, h);
    assert_eq!(list.media_hover_for("a"), (true, Some(MediaControl::PlayPause)));
    assert_eq!(list.media_hover_for("b"), (false, None));
}

#[test]
fn cards_answer_by_their_zones() {
    let mut with_default = card_with_action(1);
    with_default.has_default_action = true;
    let mut list = CalendarMessageList::new(vec![single_group(with_default)]);
    let h = long(600);
    assert_eq!(hit(&list, point_in(&list, h, 1, 395, 18), h), Some(ListHit::Close(1)));
    assert_eq!(hit(&list, point_in(&list, h, 1, 365, 18), h), Some(ListHit::ToggleExpand(1)));
    assert_eq!(
        hit(&list, point_in(&list, h, 1, 51, 80), h),
        Some(ListHit::Body { id: 1, has_default: true })
    );
    list.toggle_body_expanded(1);
    assert_eq!(
        hit(&list, point_in(&list, h, 1, 51, 153), h),
        Some(ListHit::Action { id: 1, key: "ok".to_owned() })
    );
    // Beside and above the cards there is nothing.
    assert_eq!(hit(&list, (px(9), px(50)), h), None);
    assert_eq!(hit(&list, (px(30), px(9)), h), None);
    assert_eq!(hit(&list, (px(423), px(50)), h), None, "the scrollbar's room");
    assert_eq!(hit(&list, (px(30), px(595)), h), None, "under the Clear pill");
}

#[test]
fn a_stack_closes_whole_and_a_fan_by_its_cards() {
    let cards: Vec<CardContent> = (1..=4).map(sample_card).collect();
    let mut list = CalendarMessageList::new(vec![multi_group(7, cards)]);
    let h = long(900);
    assert_eq!(list.block_kind(0), BlockKind::Stack);
    let m = measure(&list);
    assert_eq!(list.layout(&m).blocks[0].h, long(98) + 1097);
    assert_eq!(
        list.stack_peeks(&m, 0),
        [
            area(8, 10, 413 - 16, 98),
            Area { y: 1097, ..area(16, 0, 413 - 32, 98) },
        ],
        "each lower card is further down and narrower"
    );
    let close = list.stack_close_rect(&m, &app_key(), h).unwrap();
    assert_eq!(hit(&list, center(close), h), Some(ListHit::CloseGroup(vec![1, 2, 3, 4])));
    assert_eq!(hit(&list, (px(30), px(110)), h), Some(ListHit::ExpandGroup(app_key())));
    assert_eq!(list.spot_at(&m, h, px(30), px(110)), Spot::Stack { g: 0, close: false });

    list.toggle_group(app_key());
    let m = measure(&list);
    assert_eq!(list.block_kind(0), BlockKind::Fan);
    assert_eq!(list.stack_close_rect(&m, &app_key(), h), None);
    let layout = list.layout(&m);
    assert_eq!(layout.blocks[0].cards, [long(36), long(146), long(256), long(366)]);
    assert_eq!(layout.blocks[0].h, long(464));
    assert_eq!(hit(&list, (px(30), px(150)), h), Some(ListHit::CollapseGroup), "between two cards");
    let button = list.group_collapse_rect(&m, &app_key(), h).unwrap();
    assert_eq!(button, area(393, 16, 24, 24));
    assert_eq!(list.spot_at(&m, h, px(400), px(20)), Spot::Collapse(0));
    hover(&mut list, center(button), h);
    assert_eq!(list.hovered, Some(ListHover::GroupCollapse));
    assert_eq!(hit(&list, point_in(&list, h, 3, 395, 18), h), Some(ListHit::Close(3)));
}

#[test]
fn one_group_fans_out_at_a_time() {
    let mut list = CalendarMessageList::new(vec![
        multi_group(7, vec![sample_card(1), sample_card(2)]),
        multi_group(8, vec![sample_card(3), sample_card(4)]),
    ]);
    let other = SourceKey::PidName(8, "App".to_owned());
    list.toggle_group(app_key());
    list.toggle_group(other.clone());
    assert_eq!(list.block_kind(0), BlockKind::Stack);
    assert_eq!(list.block_kind(1), BlockKind::Fan);
    list.toggle_group(other);
    assert_eq!(list.block_kind(1), BlockKind::Stack);
    assert!(list.group_expanded.is_none(), "toggling twice collapses");
}

#[test]
fn bodies_of_gone_notifications_are_forgotten() {
    let mut list =
        CalendarMessageList::new(vec![single_group(sample_card(1)), single_group(sample_card(2))]);
    list.toggle_body_expanded(1);
    list.toggle_body_expanded(2);
    list.set_groups(vec![single_group(sample_card(2))]);
    assert!(!list.body_expanded.contains(&1));
    assert!(list.body_expanded.contains(&2));
    list.toggle_body_expanded(2);
    assert!(list.body_expanded.is_empty(), "toggling twice folds in");
}

#[test]
fn sources_are_told_apart_by_kind_and_name() {
    let app = |s: &str| SourceKey::App(s.to_owned());
    assert!(app("a").same(&app("a")));
    assert!(!app("a").same(&app("b")));
    assert!(!app("App").same(&app_key()));
    assert!(!app_key().same(&SourceKey::PidName(8, "App".to_owned())));
    assert!(app_key().same(&app_key().clone()));
}

#[test]
fn a_change_of_any_shown_text_is_a_change() {
    let mut list = CalendarMessageList::new(vec![single_group(sample_card(1))]);
    assert!(!list.set_groups(vec![single_group(sample_card(1))]));
    let mut renamed = sample_card(1);
    renamed.shown[2] = "Body, edited".to_owned();
    assert!(list.set_groups(vec![single_group(renamed)]));
    assert!(list.set_groups(vec![single_group(card_with_action(1))]));
    assert_eq!(list.len(), 1);
}

#[test]
fn the_plan_draws_in_order_with_keys_of_its_revision() {
    let mut list = CalendarMessageList::new(vec![
        multi_group(7, (1..=5).map(sample_card).collect()),
        single_group(sample_card(9)),
    ]);
    list.set_players(vec![player_with_art("a", None)]);
    let elements = |list: &CalendarMessageList| -> Vec<Element> {
        list.render_plan(&measure(list)).iter().map(|item| item.element).collect()
    };
    let card = |g: usize, c: usize| Element::Card { g, c, hovered: false, zone: None };
    assert_eq!(
        elements(&list),
        [
            Element::Player { p: 0, hovered: false, control: None },
            card(0, 0),
            Element::Peek { g: 0, depth: 1 },
            Element::Peek { g: 0, depth: 2 },
            card(1, 0),
        ],
        "of a stack the top card and two peeks show, the front one first"
    );
    list.toggle_group(app_key());
    assert_eq!(
        elements(&list)[1..],
        [
            Element::Header { g: 0, hovered: false },
            card(0, 0),
            card(0, 1),
            card(0, 2),
            card(0, 3),
            card(0, 4),
            card(1, 0),
        ]
    );
    list.revision = 3;
    let keys: Vec<u64> = list.render_plan(&measure(&list)).iter().map(|item| item.key).collect();
    assert_eq!(keys[..3], [0x3_0000_0000, 0x3_0000_0001, 0x3_0000_0002]);

    list.set_hovered(Some(ListHover::Card { id: 9, zone: Some(CardZone::Caret) }));
    assert_eq!(list.card_hover_for(9), (true, Some(CardZone::Caret)));
    assert_eq!(list.card_hover_for(1), (false, None));
    assert_eq!(list.revision, 4);
}

#[test]
fn a_short_viewport_shows_nothing_and_scrolls_everything() {
    let mut list = CalendarMessageList::new(vec![single_group(sample_card(1))]);
    let m = measure(&list);
    assert_eq!(list.viewport_h(0), 0);
    assert_eq!(list.viewport_h(long(59)), 0);
    assert_eq!(list.viewport_h(long(60)), long(1));
    assert!(list.visible_interactive_cards(&m, 0).is_empty());
    assert!(list.scroll_by(&m, px(200), 0));
    assert_eq!(list.scroll, long(98));
    assert_eq!(list.scrolled(long(98), long(400)), 0, "a taller popover needs no scroll");
}

#[test]
fn a_stack_of_two_shows_one_card_below() {
    let list = CalendarMessageList::new(vec![multi_group(7, vec![sample_card(1), sample_card(2)])]);
    let m = measure(&list);
    assert_eq!(m.shown_peeks(1), 0);
    assert_eq!(m.shown_peeks(2), 1);
    assert_eq!(m.shown_peeks(9), 2);
    assert_eq!(list.stack_peeks(&m, 0).len(), 1);
    assert_eq!(list.layout(&m).blocks[0].h, long(108));
}

#[test]
fn the_scrollbar_tracks_the_list() {
    let groups: Vec<CardGroup> = (1..=10).map(|i| single_group(sample_card(i))).collect();
    let mut list = CalendarMessageList::new(groups);
    let m = measure(&list);
    // Ten cards and nine gaps are 1088 tall, in a viewport of 272.
    let (h, tall) = (px(331), 331);
    assert_eq!(list.viewport_h(long(tall)), long(272));
    // In whole units, where it comes out in them.
    let thumb = |list: &CalendarMessageList, h: i64| {
        let t = list.scrollbar_thumb(&m, h).unwrap();
        assert_eq!((t.y % t.parts, t.h % t.parts), (0, 0));
        Area { x: t.x, y: t.y / t.parts, w: t.w, h: t.h / t.parts }
    };
    assert_eq!(thumb(&list, h), area(415, 10, 6, 68));
    list.scroll_by(&m, px(408), long(tall));
    assert_eq!(thumb(&list, h), area(415, 112, 6, 68), "halfway");
    list.scroll_by(&m, px(10_000), long(tall));
    assert_eq!(thumb(&list, h), area(415, 214, 6, 68), "at the end");
    assert_eq!(list.scrollbar_thumb(&m, px(5000)), None, "everything shows");
    // Never too short to grab, unless the viewport is.
    let tall = |h: i64| {
        let t = list.scrollbar_thumb(&m, h).unwrap();
        (t.h / t.parts, t.h % t.parts)
    };
    assert_eq!(tall(px(159)), (long(24), 0));
    assert_eq!(tall(px(69)), (long(10), 0));
    // And not to the unit below where it does not.
    let odd = list.scrollbar_thumb(&m, h + 1).unwrap();
    let (vh, content) = (long(272) + 1, long(1088));
    assert_eq!(odd.h * content, odd.parts * vh * vh);
    assert_ne!(odd.h % odd.parts, 0);
}

#[test]
fn the_plan_places_every_card() {
    let mut list = CalendarMessageList::new(vec![
        multi_group(7, (1..=5).map(sample_card).collect()),
        single_group(sample_card(9)),
    ]);
    list.set_players(vec![player_with_art("a", None)]);
    let areas = |list: &CalendarMessageList| -> Vec<Area> {
        list.render_plan(&measure(list)).iter().map(|item| item.area).collect()
    };
    let m = measure(&list);
    let layout = list.layout(&m);
    let (pad, w) = (areas(&list)[0].x, areas(&list)[0].w);
    assert!(w < long(425));
    let top = layout.blocks[0].top;
    let stacked = areas(&list);
    assert_eq!(stacked[0], Area { x: pad, y: 0, w, h: long(84) });
    assert_eq!(stacked[1], Area { x: pad, y: top, w, h: long(98) });
    // Each card below the top one is further down, and narrower on either side.
    assert_eq!(
        stacked[2],
        Area { x: pad + long(8), y: top + long(10), w: w - long(16), h: long(98) }
    );
    assert_eq!(stacked[3].y, top + long(10) + 457);
    assert_eq!(stacked[4].y, layout.blocks[1].top);
    list.toggle_group(app_key());
    let fan = list.layout(&measure(&list));
    let fanned = areas(&list);
    assert_eq!(fanned[1].y, fan.blocks[0].top);
    for c in 0..5 {
        assert_eq!(fanned[2 + c].y, fan.blocks[0].cards[c]);
    }
}

#[test]
fn an_overflowing_list_is_seen_through_a_window() {
    let groups: Vec<CardGroup> = (1..=10).map(|i| single_group(sample_card(i))).collect();
    let mut list = CalendarMessageList::new(groups);
    let m = measure(&list);
    let natural = list.natural_height(&m) as i64;
    let pad = list.natural_height(&m) - list.layout(&m).content_h;
    assert!(pad > 0);
    assert!(matches!(list.scene(&m, natural, true)[..], [ListLayer::Content { .. }]));
    assert!(
        matches!(list.scene(&m, natural, false)[..], [ListLayer::Content { .. }]),
        "what fits needs no window"
    );
    list.scroll_by(&m, px(50), long(400));
    let layers = list.scene(&m, px(400), true);
    assert_eq!(layers.len(), 2);
    assert_eq!(layers[0], ListLayer::Thumb(list.scrollbar_thumb(&m, px(400)).unwrap()));
    let ListLayer::Window { area, scroll } = layers[1] else {
        panic!("the window is under the thumb");
    };
    assert_eq!(scroll, long(50));
    assert_eq!(area.h, list.viewport_h(long(400)));
    assert!(list.scene(&m, px(400), false).is_empty(), "never a lone thumb");
}

#[test]
fn fanning_out_another_group_folds_in_the_one_that_closes() {
    let mut list = CalendarMessageList::new(vec![
        multi_group(7, (1..=2).map(sample_card).collect()),
        multi_group(8, (3..=4).map(sample_card).collect()),
    ]);
    list.toggle_group(app_key());
    list.toggle_body_expanded(1);
    list.toggle_body_expanded(3);
    let before = list.revision;
    list.toggle_group(SourceKey::PidName(8, "App".to_owned()));
    assert_eq!(list.revision, before + 1);
    assert!(!list.body_expanded.contains(&1), "the closing group's body folds in");
    assert!(list.body_expanded.contains(&3));
    assert!(list.group_expanded.as_ref().unwrap().same(&SourceKey::PidName(8, "App".to_owned())));
}
