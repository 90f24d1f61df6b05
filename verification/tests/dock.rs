use synoik_ui::area::UNITS;
use synoik_ui::dash::preferred_height;
use synoik_ui::dock::{
    Dock, DockState, Level, Screen, Slide, HIDE_DELAY, ONE, SLIDE_MS,
};

const MS: u128 = 1_000_000;
const OUTPUT: u64 = 1;
const OTHER: u64 = 2;

fn slide_time() -> u128 {
    u128::from(SLIDE_MS) * MS
}

/// A full-HD output, with a full-size dash.
fn screen() -> Screen {
    let px = |n: i64| n * UNITS as i64;
    Screen { w: px(1920), h: px(1080), dash_h: preferred_height(64) as i64 }
}

/// The pointer moves onto the dock's place, or to the middle of the screen.
fn point(dock: &mut Dock, on_edge: bool, over: bool, now: u128) -> bool {
    let y = if over { 1079 } else { 540 };
    dock.pointer_motion(OUTPUT, screen(), 960 * UNITS as i64, y * UNITS as i64, on_edge, now)
}

/// Whether the dock has an area on an output, and where that starts with a slide at `current`.
fn there(dock: &Dock, output: u64) -> bool {
    dock.area(output, screen(), 0).is_some()
}

fn top(dock: &Dock, current: i64) -> i128 {
    dock.area(OUTPUT, screen(), current).expect("it is out").y / ONE as i128
}

/// A dock that is all the way out, with the pointer on it.
fn shown_and_hovered() -> Dock {
    let mut dock = Dock::new();
    dock.show(OUTPUT);
    dock.advance_animations(true, slide_time());
    point(&mut dock, false, true, slide_time());
    dock
}

#[test]
fn urgency_pokes_the_dock_above_the_edge() {
    let mut dock = Dock::new();
    assert!(!there(&dock, OUTPUT), "nothing to show at rest");

    let rise = dock.set_poking(Some(OUTPUT), true);
    assert_eq!(rise, Some(Slide { from: Level::Away, to: Level::Poke }));
    dock.advance_animations(true, slide_time());
    assert!(there(&dock, OUTPUT), "urgency must put it on screen");
    let poked = top(&dock, 0);
    // The poke sits lower than the shown dock, but still on screen.
    assert_eq!(dock.progress(), Level::Poke);
    assert!(dock.is_poking());

    dock.show(OUTPUT);
    dock.advance_animations(true, 3 * slide_time());
    assert!(there(&dock, OUTPUT));
    assert_eq!(dock.progress(), Level::Out);
    let full = top(&dock, 0);
    assert!(poked > full, "the poke sits lower than the shown dock ({poked} vs {full})");
    assert!(poked < 1080 * UNITS, "but still on screen, or there is nothing to see");
    assert!(!dock.is_poking());
}

#[test]
fn the_poke_outlives_a_hide_and_ends_with_the_urgency() {
    let mut dock = Dock::new();
    dock.set_poking(Some(OUTPUT), true);
    dock.show(OUTPUT);
    dock.advance_animations(true, slide_time());

    let away = dock.start_hiding();
    assert_eq!(away.map(|s| s.to), Some(Level::Poke));
    dock.advance_animations(true, 2 * slide_time());
    assert!(
        there(&dock, OUTPUT),
        "hiding must fall back to the poke while the app still wants attention"
    );

    dock.set_poking(Some(OUTPUT), false);
    dock.advance_animations(true, 4 * slide_time());
    assert!(!there(&dock, OUTPUT), "and clearing the urgency puts it away");
    assert_eq!(dock.output(), None);
}

#[test]
fn leaving_by_any_device_re_arms_the_barrier() {
    let mut dock = Dock::new();
    assert!(!point(&mut dock, true, false, 0), "on the edge it stays armed");
    // The pointer is carried away by a device that never pushes.
    assert!(point(&mut dock, false, false, 0));
}

#[test]
fn the_middle_of_the_screen_is_not_the_edge() {
    let dock = Dock::new();
    let step = dock.push(OUTPUT, false);
    assert!(!step.push && !step.leave_first);
    assert!(dock.push(OUTPUT, true).push);
}

#[test]
fn pressure_does_not_carry_to_another_output() {
    let mut dock = Dock::new();
    dock.output = Some(OUTPUT);
    assert!(dock.push(OTHER, true).leave_first);
    assert!(!dock.push(OUTPUT, true).leave_first);
    // Unless the dock is out.
    dock.show(OUTPUT);
    assert!(!dock.push(OTHER, true).leave_first);
}

#[test]
fn it_slides_up_into_place() {
    let mut dock = Dock::new();
    assert!(!there(&dock, OUTPUT), "hidden: no area at all");

    assert_eq!(
        dock.show(OUTPUT),
        Some(Slide { from: Level::Away, to: Level::Out }),
        "it must travel upward, not down"
    );
    assert_eq!(dock.progress(), Level::Current);
    let start = top(&dock, 0);
    dock.advance_animations(false, slide_time() / 2);
    assert_eq!(dock.progress(), Level::Current);
    let mid = top(&dock, ONE / 4 * 3);

    dock.advance_animations(true, slide_time());
    assert!(there(&dock, OUTPUT));
    assert_eq!(dock.progress(), Level::Out);
    let end = top(&dock, ONE);
    assert_eq!(start, 1080 * UNITS, "it starts just off the screen");
    assert!(mid < start, "it must travel upward, not down");
    assert!(end < mid, "and keep going");
    assert_eq!(end, 1080 * UNITS - preferred_height(64), "it settles flush with the bottom edge");
    assert_eq!(mid, end + preferred_height(64) / 4);
    assert!(!dock.are_animations_ongoing(), "and stops animating");
}

#[test]
fn leaving_hides_after_a_grace_period() {
    let mut dock = shown_and_hovered();

    point(&mut dock, false, false, slide_time());
    dock.advance_animations(false, slide_time() + HIDE_DELAY / 2);
    assert!(
        !dock.are_animations_ongoing(),
        "it must not start hiding inside the grace period"
    );
    assert_eq!(
        dock.next_wakeup(),
        Some(slide_time() + HIDE_DELAY),
        "leaving must arm a wake-up, or an idle session never hides it"
    );

    // Back on the dock: the hide is called off.
    point(&mut dock, false, true, slide_time() + HIDE_DELAY / 2);
    dock.advance_animations(false, slide_time() + HIDE_DELAY * 2);
    assert!(dock.is_visible(), "returning must cancel the hide");
    assert!(!dock.are_animations_ongoing());

    // Leaving for good does hide it.
    point(&mut dock, false, false, slide_time() + HIDE_DELAY * 2);
    let slide = dock.advance_animations(false, slide_time() + HIDE_DELAY * 4);
    assert_eq!(slide, Some(Slide { from: Level::Out, to: Level::Away }));
    assert!(dock.are_animations_ongoing(), "now it slides away");
}

#[test]
fn restating_the_drag_does_not_postpone_the_hide() {
    let mut dock = shown_and_hovered();
    point(&mut dock, false, false, slide_time());

    let deadline = dock.next_wakeup().expect("leaving arms a hide");

    // Frames keep coming, each re-stating "no drag in progress".
    for ms in [210, 220, 230, 240] {
        dock.set_dragging(false, ms * MS);
        dock.advance_animations(false, ms * MS);
    }
    assert_eq!(
        dock.next_wakeup(),
        Some(deadline),
        "the hide deadline must not move just because frames happened"
    );

    let later = slide_time() + HIDE_DELAY * 2;
    dock.set_dragging(false, later);
    dock.advance_animations(false, later);
    assert!(dock.are_animations_ongoing(), "and it does eventually hide");
}

#[test]
fn a_drag_holds_the_dock_open() {
    let mut dock = shown_and_hovered();
    dock.set_dragging(true, slide_time());

    point(&mut dock, false, false, slide_time());
    dock.advance_animations(false, 5000 * MS);
    assert!(!dock.are_animations_ongoing(), "a drag pins it open");
    assert!(dock.next_wakeup().is_none(), "and arms no hide timer");

    dock.set_dragging(false, 5000 * MS);
    dock.advance_animations(false, 5000 * MS + HIDE_DELAY * 2);
    assert!(dock.are_animations_ongoing(), "dropping releases it");
}

#[test]
fn a_menu_holds_the_dock_open() {
    let mut dock = shown_and_hovered();
    dock.set_menu_open(true, slide_time());

    // Up to the menu, well off the dock.
    point(&mut dock, false, false, slide_time());
    dock.advance_animations(false, 5000 * MS);
    assert!(there(&dock, OUTPUT), "an open menu pins it");
    assert!(dock.next_wakeup().is_none(), "and arms no hide timer");

    dock.set_menu_open(false, 5000 * MS);
    dock.advance_animations(false, 5000 * MS + HIDE_DELAY * 2);
    assert!(
        dock.are_animations_ongoing(),
        "closing it releases the dock"
    );
}

#[test]
fn re_stating_the_menu_hold_does_not_re_arm_the_deadline() {
    let mut dock = shown_and_hovered();
    point(&mut dock, false, false, slide_time());
    let armed = dock.next_wakeup().expect("leaving arms the hide");

    for i in 1..=10 {
        dock.set_menu_open(false, slide_time() + i * 16 * MS);
    }
    assert_eq!(
        dock.next_wakeup(),
        Some(armed),
        "re-stating `false` must not push the deadline out"
    );
}

#[test]
fn a_peek_holds_the_dock_and_several_holds_add_up() {
    let mut dock = shown_and_hovered();
    dock.set_peeked(true, slide_time());
    dock.set_menu_open(true, slide_time());
    dock.pointer_left(slide_time());
    // Releasing one of two holds keeps it out.
    dock.set_peeked(false, 1000 * MS);
    assert!(dock.next_wakeup().is_none());
    dock.set_menu_open(false, 2000 * MS);
    assert_eq!(dock.next_wakeup(), Some(2000 * MS + HIDE_DELAY));
}

#[test]
fn showing_a_hiding_dock_turns_it_round() {
    let mut dock = shown_and_hovered();
    assert_eq!(
        dock.start_hiding(),
        Some(Slide { from: Level::Out, to: Level::Away })
    );
    assert_eq!(dock.start_hiding(), None);
    assert_eq!(
        dock.show(OUTPUT),
        Some(Slide { from: Level::Current, to: Level::Out })
    );
    assert_eq!(dock.show(OUTPUT), None, "already on its way");
    // On another output it starts over from the edge.
    assert_eq!(
        dock.show(OTHER),
        Some(Slide { from: Level::Away, to: Level::Out })
    );
    assert!(!there(&dock, OUTPUT) && there(&dock, OTHER));
}

#[test]
fn a_dismissed_dock_is_simply_gone() {
    let mut dock = shown_and_hovered();
    dock.set_poking(Some(OUTPUT), true);
    dock.set_dragging(true, slide_time());
    dock.dismiss();
    assert!(!dock.is_visible() && !dock.are_animations_ongoing());
    assert_eq!(dock.state, DockState::Hidden);
    assert_eq!(dock.output(), None);
    assert!(dock.next_wakeup().is_none());
}

#[test]
fn restating_the_urgency_does_nothing() {
    let mut dock = Dock::new();
    assert!(dock.set_poking(Some(OUTPUT), true).is_some());
    assert!(dock.set_poking(Some(OTHER), true).is_none());
    assert_eq!(dock.output(), Some(OUTPUT));
    dock.advance_animations(true, 0);
    assert_eq!(
        dock.set_poking(None, false),
        Some(Slide { from: Level::Poke, to: Level::Away })
    );
}

#[test]
fn the_pointer_counts_where_the_dock_rests() {
    let mut dock = Dock::new();
    assert_eq!(dock.hover_area(OUTPUT, screen()), None);
    dock.show(OUTPUT);
    let rest = dock.hover_area(OUTPUT, screen()).unwrap();
    assert_eq!((rest.x, rest.y), (0, 968 * UNITS));
    assert_eq!((rest.w, rest.h), (1920 * UNITS, 112 * UNITS));
    // Just inside the area that the dock has yet to slide into.
    dock.pointer_motion(OUTPUT, screen(), 0, rest.y as i64, false, 0);
    assert!(dock.hovered);
    dock.pointer_motion(OUTPUT, screen(), 0, rest.y as i64 - 1, false, 0);
    assert!(!dock.hovered);
    assert_eq!(dock.hover_area(OTHER, screen()), None);
}

#[test]
fn a_slide_keeps_its_fraction_of_a_unit() {
    let mut dock = Dock::new();
    dock.show(OUTPUT);
    let one = ONE as i128;
    let rest = dock.hover_area(OUTPUT, screen()).unwrap();
    let area = dock.area(OUTPUT, screen(), 1).unwrap();
    assert_eq!(area.y, one * 1080 * UNITS - rest.h);
    assert_eq!((area.w, area.h), (one * rest.w, one * rest.h));
}

#[test]
fn a_poking_dock_comes_out_from_its_poke() {
    let mut dock = Dock::new();
    dock.set_poking(Some(1), true);
    dock.advance_animations(true, 0);
    assert_eq!(dock.progress(), Level::Poke);
    // On another output nothing of it is out yet.
    let mut elsewhere = Dock::new();
    elsewhere.set_poking(Some(1), true);
    elsewhere.advance_animations(true, 0);
    assert_eq!(elsewhere.show(2), Some(Slide { from: Level::Away, to: Level::Out }));
    assert_eq!(dock.show(1), Some(Slide { from: Level::Poke, to: Level::Out }));
}
