use synoik_ui::area::{Area, UNITS};
use synoik_ui::dash::{
    preferred_height, Dash, DashBand, DashEntry, DashHit, DashLayer, DashLayout, DashMetrics, GapEase,
    FINE, PARTS, PLACEHOLDER_W, SEPARATOR_ADVANCE, SEPARATOR_W,
};
use synoik_ui::icon::AppIconRef;

fn entry(id: &str) -> DashEntry {
    DashEntry {
        id: id.to_owned(),
        name: id.to_owned(),
        icon: AppIconRef::Fallback,
        running: false,
        urgent: false,
    }
}

fn dash_with(n: usize) -> Dash {
    let mut dash = Dash::new();
    let items = (0..n).map(|i| entry(&format!("app{i}.desktop"))).collect();
    dash.set_items(items, n);
    dash
}

/// A dash with `n_fav` favorites followed by `n_running` running non-favorites.
fn dash_with_running(n_fav: usize, n_running: usize) -> Dash {
    let mut dash = Dash::new();
    let mut items: Vec<DashEntry> = (0..n_fav)
        .map(|i| entry(&format!("fav{i}.desktop")))
        .collect();
    for i in 0..n_running {
        items.push(DashEntry {
            running: true,
            urgent: false,
            ..entry(&format!("run{i}.desktop"))
        });
    }
    dash.set_items(items, n_fav);
    dash
}

fn gnome() -> DashMetrics {
    DashMetrics::gnome()
}

/// The bottom band of a 1920x1080 output, with the gap `gap` pixels open.
fn box_1080(gap: i64) -> DashBand {
    DashBand { x: 0, y: (1080 - 112) * 64, w: 1920 * 64, h: 112 * 64, gap: gap * 64 }
}

/// A coordinate in fine parts, to the unit.
fn units(fine: i128) -> i64 {
    i64::try_from(fine.div_euclid(PARTS)).unwrap()
}

/// The middle of a tile, in units.
fn icon_center(layout: &DashLayout, i: usize) -> (i64, i64) {
    let tile = layout.tiles[i];
    (units(tile.x + tile.w / 2), units(tile.y + tile.h / 2))
}

fn hit(dash: &Dash, pos: (i64, i64), band: DashBand) -> Option<DashHit> {
    dash.hit_test(band, pos.0, pos.1)
}

#[test]
fn the_drop_gap_eases_open_and_shut_but_jumps_between_slots() {
    let mut dash = dash_with(3);
    let closed_w = dash.layout(box_1080(0)).pill.w;
    let placeholder = i64::from(PLACEHOLDER_W);
    assert_eq!(placeholder, 64);

    // Opening: eased.
    assert!(dash.set_drop_slot(Some(1)));
    assert_eq!(Dash::gap_ease(None, Some(1)), Some(GapEase::Open));
    assert_eq!(
        dash.layout(box_1080(0)).pill.w,
        closed_w,
        "the gap must start closed and grow"
    );
    let open = box_1080(placeholder);
    assert_eq!(
        dash.layout(open).pill.w,
        closed_w + i128::from(placeholder) * FINE,
        "the open gap widens the pill by exactly the placeholder"
    );

    // Moving: instant, and the space moves with it.
    let before = dash.layout(open).tiles[1].x;
    assert!(dash.set_drop_slot(Some(2)));
    assert_eq!(Dash::gap_ease(Some(1), Some(2)), None, "moving must not re-animate");
    assert_eq!(
        dash.layout(open).tiles[1].x,
        before - i128::from(placeholder) * FINE,
        "tile 1 is no longer after the gap, so it comes back by its width"
    );

    // Closing: eased, and the icons stay parted around it until it is gone.
    assert!(dash.set_drop_slot(None));
    assert_eq!(Dash::gap_ease(Some(2), None), Some(GapEase::Close));
    let mid = 16;
    let layout = dash.layout(box_1080(mid));
    assert_eq!(
        layout.tiles[2].x - layout.tiles[1].x,
        i128::from(gnome().item_advance) * PARTS + i128::from(mid) * FINE,
        "the collapsing gap keeps parting the icons it was between"
    );
    assert_eq!(dash.layout(box_1080(0)).pill.w, closed_w);
    assert!(!dash.set_drop_slot(None));
    assert_eq!(dash.drop_slot(), None);
}

#[test]
fn hit_test_round_trips_layout() {
    let dash = dash_with(3);
    let area = box_1080(0);
    let layout = dash.layout(area);
    for i in 0..3 {
        assert_eq!(
            hit(&dash, icon_center(&layout, i), area),
            Some(DashHit::App(i))
        );
    }
    // The show-apps button is the trailing tile.
    assert_eq!(
        hit(&dash, icon_center(&layout, 3), area),
        Some(DashHit::ShowApps)
    );
    // The pill's left padding is Background, not a favorite.
    let pad = (
        units(layout.pill.x) + 2 * 64,
        units(layout.pill.y) + layout.metrics.pill_h / 2,
    );
    assert_eq!(hit(&dash, pad, area), Some(DashHit::Background));
    // Well outside the pill: no hit.
    assert_eq!(hit(&dash, (10 * 64, 10 * 64), area), None);
}

#[test]
fn hit_test_top_padding_is_background() {
    let dash = dash_with(2);
    let area = box_1080(0);
    let layout = dash.layout(area);
    let (cx, _) = icon_center(&layout, 0);
    let top = units(layout.pill.y);
    // 1px below the pill's top edge, over favorite 0's column: still padding.
    assert_eq!(hit(&dash, (cx, top + 64), area), Some(DashHit::Background));
    // Just inside the tile top it becomes the favorite.
    let pad = layout.metrics.pill_pad_v;
    assert_eq!(hit(&dash, (cx, top + pad + 64), area), Some(DashHit::App(0)));
}

#[test]
fn set_favorites_clears_hover() {
    let mut dash = dash_with(3);
    assert!(dash.set_hovered(Some(DashHit::App(2))));
    assert_eq!(dash.hovered, Some(DashHit::App(2)));
    // Shrinking to one favorite would leave index 2 dangling — must clear.
    dash.set_items(vec![entry("only.desktop")], 1);
    assert_eq!(dash.hovered, None, "a favorites change clears the hover");
}

#[test]
fn a_poke_can_only_be_clicked_on_its_urgent_icons() {
    let mut dash = dash_with(3);
    let mut items: Vec<DashEntry> = (0..3).map(|i| entry(&format!("app{i}.desktop"))).collect();
    items[1].urgent = true;
    dash.set_items(items, 3);

    // Not poking: every hit passes through untouched.
    assert_eq!(
        dash.filter_poke(DashHit::App(0), false),
        Some(DashHit::App(0))
    );
    assert_eq!(
        dash.filter_poke(DashHit::ShowApps, false),
        Some(DashHit::ShowApps)
    );

    // Poking: only the urgent app survives.
    assert_eq!(
        dash.filter_poke(DashHit::App(1), true),
        Some(DashHit::App(1)),
        "the icon that is actually drawn must stay clickable"
    );
    assert_eq!(dash.filter_poke(DashHit::App(0), true), None);
    assert_eq!(dash.filter_poke(DashHit::App(2), true), None);
    assert_eq!(
        dash.filter_poke(DashHit::ShowApps, true),
        None,
        "the app grid is not an app demanding attention"
    );
    assert_eq!(dash.filter_poke(DashHit::Background, true), None);
}

#[test]
fn hit_test_extends_to_screen_bottom() {
    let dash = dash_with(2);
    let area = box_1080(0);
    let (cx, _) = icon_center(&dash.layout(area), 0);
    // A click at the very bottom edge, under favorite 0, still hits it.
    assert_eq!(hit(&dash, (cx, (1080 - 1) * 64), area), Some(DashHit::App(0)));
}

#[test]
fn empty_favorites_still_has_show_apps() {
    let dash = dash_with(0);
    let area = box_1080(0);
    let layout = dash.layout(area);
    assert_eq!(layout.tiles.len(), 1);
    assert_eq!(
        hit(&dash, icon_center(&layout, 0), area),
        Some(DashHit::ShowApps)
    );
}

#[test]
fn set_favorites_reports_change() {
    let mut dash = Dash::new();
    assert!(dash.set_items(vec![entry("a.desktop")], 1));
    assert!(!dash.set_items(vec![entry("a.desktop")], 1));
    assert!(
        dash.set_items(
            vec![DashEntry {
                running: true,
                urgent: false,
                ..entry("a.desktop")
            }],
            1
        ),
        "an app starting is a change — the running dot appears"
    );
}

#[test]
fn running_dot_sits_in_the_gap_below_the_icon() {
    let area = box_1080(0);
    let dash = dash_with_running(1, 1); // fav0, then the running app at index 1
    let layout = dash.layout(area);
    let pill = layout.pill;
    assert_eq!(dash.item_shows_running_dot(1), Some(true));
    let dot = dash
        .dot_box_for(1, area)
        .expect("the running app has a dot");

    // Bottom edge is 12px above the pill bottom — the pin.
    assert_eq!(dot.y + dot.h, pill.y + pill.h - 12 * FINE);
    // Centered on its tile horizontally.
    let tile = layout.tiles[1];
    assert_eq!(dot.x + dot.w / 2, tile.x + tile.w / 2);
    // ...and strictly below the icon's canvas — in the gap, not on the icon.
    let icon_bottom = tile.y + tile.h / 2 + i128::from(layout.metrics.icon_px) * FINE / 2;
    assert!(
        dot.y >= icon_bottom,
        "dot top {} must be at/below the icon bottom {icon_bottom}",
        dot.y
    );
    assert!(dash.dot_box_for(0, area).is_none());
    assert!(dash.dot_box_for(2, area).is_none());
    assert_eq!(Dash::dot_box(tile, pill, layout.metrics), dot);
}

#[test]
fn dash_background_node_matches_the_pill_constants() {
    let m = gnome();
    assert_eq!(m.tile + 2 * m.pill_pad_v, m.pill_h);
    // GNOME's own numbers, so the ladder's top rung is still the reference dash.
    assert_eq!(
        (m.icon_px, m.tile as i128, m.pill_h as i128),
        (64, 76 * UNITS, 100 * UNITS)
    );
    // The pill is the run of tiles and its padding, and the run stands in by exactly that.
    let layout = dash_with(0).layout(box_1080(0));
    assert_eq!(
        layout.pill.w,
        (m.item_advance + 2 * m.pill_pad_h) as i128 * PARTS
    );
    assert_eq!(layout.pill.h, m.pill_h as i128 * PARTS);
    let tile = layout.tiles[0];
    assert_eq!(
        (tile.x - layout.pill.x, tile.y - layout.pill.y),
        (
            (m.pill_pad_h + m.item_margin) as i128 * PARTS,
            m.pill_pad_v as i128 * PARTS
        )
    );
}

#[test]
fn separator_only_between_favorites_and_running() {
    let area = box_1080(0);

    let both = dash_with_running(2, 1);
    let with_sep = both.layout(area);
    let sep = with_sep
        .separator
        .expect("favorites + running draws a divider");
    assert_eq!(
        (sep.w, sep.h),
        (SEPARATOR_W * PARTS, i128::from(gnome().icon_px) * FINE)
    );
    assert_eq!(sep.w, FINE);

    // It sits between the last favorite and the first running app.
    assert!(sep.x >= with_sep.tiles[1].x + with_sep.tiles[1].w);
    assert!(sep.x + sep.w <= with_sep.tiles[2].x);
    // ...and is vertically centered on the tile row.
    let tile = with_sep.tiles[0];
    assert_eq!(
        sep.y + sep.h / 2,
        tile.y + tile.h / 2,
        "the divider is centered on the icon row"
    );

    // Favorites only, and running only, both draw none.
    assert!(dash_with_running(3, 0).layout(area).separator.is_none());
    assert!(dash_with_running(0, 2).layout(area).separator.is_none());
}

#[test]
fn separator_widens_the_pill_by_its_advance() {
    let area = box_1080(0);
    let without = dash_with_running(3, 0).layout(area).pill.w;
    let with = dash_with_running(2, 1).layout(area).pill.w;
    assert_eq!(with - without, SEPARATOR_ADVANCE * PARTS);
    assert_eq!(SEPARATOR_ADVANCE, 9 * UNITS);
}

#[test]
fn separator_band_is_inert_and_does_not_shift_hits() {
    let dash = dash_with_running(2, 2);
    let area = box_1080(0);
    let layout = dash.layout(area);

    for i in 0..4 {
        assert_eq!(
            hit(&dash, icon_center(&layout, i), area),
            Some(DashHit::App(i)),
            "tile {i} round-trips across the divider"
        );
    }
    assert_eq!(
        hit(&dash, icon_center(&layout, 4), area),
        Some(DashHit::ShowApps)
    );

    let sep = layout.separator.unwrap();
    let on_sep = (units(sep.x + sep.w / 2), icon_center(&layout, 0).1);
    assert_eq!(
        hit(&dash, on_sep, area),
        Some(DashHit::Background),
        "the divider consumes its click but does nothing"
    );
}

#[test]
fn every_length_is_in_proportion_to_the_icon() {
    for icon in [64, 48, 32, 24, 22, 16] {
        let m = DashMetrics::for_icon(icon);
        assert_eq!(m.tile * 64, gnome().tile * i64::from(icon));
        assert_eq!(m.pill_h * 64, gnome().pill_h * i64::from(icon));
        assert_eq!(m.margin_bottom * 64, gnome().margin_bottom * i64::from(icon));
    }
}

#[test]
fn the_largest_rung_that_fits_is_taken() {
    // A pill and its margin are 112px at the full size.
    assert_eq!(DashMetrics::fitting(112 * UNITS).icon_px, 64);
    assert_eq!(DashMetrics::fitting(112 * UNITS - 1).icon_px, 48);
    assert_eq!(DashMetrics::fitting(84 * UNITS).icon_px, 48);
    assert_eq!(DashMetrics::fitting(84 * UNITS - 1).icon_px, 32);
    assert_eq!(DashMetrics::fitting(0).icon_px, 16);
    assert_eq!(DashMetrics::fitting(-5).icon_px, 16);
    assert_eq!(preferred_height(64), 112 * UNITS);
    assert_eq!(preferred_height(63), 84 * UNITS);
    assert_eq!(preferred_height(1), 28 * UNITS);
    assert_eq!(gnome().preferred_height(), 112 * UNITS);
}

#[test]
fn a_drop_lands_beside_the_favorite_it_is_over() {
    let dash = dash_with_running(3, 1);
    let area = box_1080(0);
    let layout = dash.layout(area);
    // The four icons share 320 px, from the left edge of the run.
    let over = |px: i64, id: &str| {
        let x = units(layout.pill.x) + (10 + px) * 64;
        dash.drop_slot_at(area, x, 1030 * 64, id)
    };
    assert_eq!(over(0, "new.desktop"), Some(0));
    assert_eq!(over(79, "new.desktop"), Some(0));
    assert_eq!(over(80, "new.desktop"), Some(1));
    assert_eq!(over(160, "new.desktop"), Some(2));
    // Past the last favorite is after it.
    assert_eq!(over(300, "new.desktop"), Some(3));
    assert_eq!(over(328, "new.desktop"), Some(3));
    // Beside itself is nowhere.
    assert_eq!(over(80, "fav1.desktop"), None);
    assert_eq!(over(160, "fav1.desktop"), None);
    assert_eq!(over(240, "fav1.desktop"), Some(3));
    assert_eq!(over(0, "fav1.desktop"), Some(0));
    // A running app that is not pinned can land anywhere.
    assert_eq!(over(80, "run0.desktop"), Some(1));
    // The padding and the show-apps button are not part of the box.
    assert_eq!(over(-1, "new.desktop"), None);
    assert_eq!(over(329, "new.desktop"), None);
    // Nor is what is above the pill.
    let x = units(layout.pill.x) + 20 * 64;
    assert_eq!(dash.drop_slot_at(area, x, 900 * 64, "new.desktop"), None);
}

#[test]
fn appending_takes_two_moves() {
    let mut dash = dash_with(2);
    let shut = box_1080(0);
    let run = units(dash.layout(shut).pill.x) + 10 * 64;
    // The last point of the box is still before the end.
    assert_eq!(
        dash.drop_slot_at(shut, run + 159 * 64, 1030 * 64, "new.desktop"),
        Some(1)
    );
    // The gap that opened there adds the strip past it.
    dash.set_drop_slot(Some(1));
    let open = box_1080(64);
    let run = units(dash.layout(open).pill.x) + 10 * 64;
    assert_eq!(
        dash.drop_slot_at(open, run + 159 * 64, 1030 * 64, "new.desktop"),
        Some(1)
    );
    assert_eq!(
        dash.drop_slot_at(open, run + 160 * 64, 1030 * 64, "new.desktop"),
        Some(2)
    );
}

#[test]
fn the_pill_is_centred_in_its_band() {
    let layout = dash_with(3).layout(box_1080(0));
    // Four advances and the padding, in a 1920 px band, 12 px above its bottom.
    assert_eq!(
        layout.pill,
        Area { x: 790 * FINE, y: 968 * FINE, w: 340 * FINE, h: 100 * FINE }
    );
    // An odd width rounds away from zero.
    let narrow = DashBand { w: 1919 * 64, ..box_1080(0) };
    assert_eq!(dash_with(3).layout(narrow).pill.x, 790 * FINE);
    let left = DashBand { x: -1920 * 64, w: 1919 * 64, ..box_1080(0) };
    assert_eq!(dash_with(3).layout(left).pill.x, -1131 * FINE);
}

#[test]
fn a_lower_band_shrinks_the_dash() {
    let band = DashBand { h: 84 * 64, y: 996 * 64, ..box_1080(64) };
    let mut dash = dash_with(2);
    dash.set_drop_slot(Some(0));
    let layout = dash.layout(band);
    assert_eq!(layout.metrics.icon_px, 48);
    // Three advances of 60 px, 15 px of padding, and the gap at 48 px.
    assert_eq!(layout.pill.w, 243 * FINE);
    assert_eq!(layout.tiles[0].w, 57 * FINE);
    assert_eq!(2 * (layout.tiles[0].x - layout.pill.x), 114 * FINE);
    assert_eq!(Dash::metrics(band).icon_px, 48);
}

#[test]
fn an_empty_dash_makes_room_for_a_drop() {
    let mut dash = dash_with(0);
    let area = box_1080(0);
    let w = dash.layout(area).pill.w;
    assert!(dash.set_drag_active(true));
    assert!(!dash.set_drag_active(true));
    let pill = dash.layout(area).pill;
    assert_eq!(pill.w, w + 32 * FINE);
    let x = units(pill.x) + 12 * 64;
    assert_eq!(dash.drop_slot_at(area, x, 1030 * 64, "new.desktop"), Some(0));
    assert!(dash.set_drag_active(false));
    assert_eq!(dash.drop_slot_at(area, x, 1030 * 64, "new.desktop"), None);
    let mut full = dash_with(2);
    assert!(!full.set_drag_active(true), "only an empty pill changes shape");
}

#[test]
fn only_a_favorite_is_unpinned_over_the_show_apps_button() {
    let dash = dash_with_running(1, 1);
    let area = box_1080(0);
    let layout = dash.layout(area);
    let over = |i: usize, id: &str| {
        let (x, y) = icon_center(&layout, i);
        dash.unpin_target_at(area, x, y, id)
    };
    assert!(over(2, "fav0.desktop"));
    assert!(!over(2, "run0.desktop"));
    assert!(!over(0, "fav0.desktop"));
    assert_eq!(dash.favorite_index("fav0.desktop"), Some(0));
    assert_eq!(dash.favorite_index("run0.desktop"), None);
}

#[test]
fn the_gap_is_inert_and_does_not_shift_hits() {
    let mut dash = dash_with(3);
    dash.set_drop_slot(Some(1));
    for gap in [0, 1, 17, 64] {
        let area = box_1080(gap);
        let layout = dash.layout(area);
        for i in 0..3 {
            assert_eq!(
                hit(&dash, icon_center(&layout, i), area),
                Some(DashHit::App(i))
            );
        }
    }
    let area = box_1080(64);
    let layout = dash.layout(area);
    let between = units((layout.tiles[0].x + layout.tiles[0].w + layout.tiles[1].x) / 2);
    assert_eq!(
        hit(&dash, (between, 1030 * 64), area),
        Some(DashHit::Background)
    );
}

#[test]
fn items_are_read_by_index() {
    let dash = dash_with_running(1, 1);
    assert_eq!(dash.items().len(), 2);
    assert_eq!(dash.item_id(1), Some("run0.desktop"));
    assert_eq!(dash.item_id(2), None);
    assert_eq!(dash.item_icon(0), Some(&AppIconRef::Fallback));
    assert_eq!(dash.item_icon(2), None);
    assert_eq!(dash.item_shows_running_dot(0), Some(false));
    assert_eq!(dash.item_shows_running_dot(5), None);
    assert_eq!(dash.icon_refs().len(), 2);
    assert_eq!(dash.show_apps_index(), 2);
    let area = box_1080(0);
    let tile = dash.tile_rect(0, area).unwrap();
    assert_eq!(tile, dash.layout(area).tiles[0]);
    assert_eq!(
        dash.tile_center(0, area),
        Some((tile.x + 38 * FINE, tile.y + 38 * FINE))
    );
    assert!(dash.tile_rect(2, area).is_some());
    assert_eq!(dash.tile_rect(3, area), None);
    assert_eq!(dash.tile_center(3, area), None);
}

#[test]
fn a_poke_draws_the_urgent_icons_and_nothing_else() {
    let mut dash = Dash::new();
    let mut items = vec![entry("a"), entry("b"), entry("c")];
    items[0].running = true;
    items[2].urgent = true;
    dash.set_items(items, 3);
    dash.set_hovered(Some(DashHit::ShowApps));

    let plan = dash.render_plan(box_1080(0), false, true, 1, (1, 2, 3));
    assert_eq!(plan.dots, [0]);
    assert_eq!(plan.icons, [0, 1, 2]);
    assert_eq!(plan.glows, [2]);
    assert!(plan.show_apps.is_some());
    let chrome = plan.chrome.unwrap();
    assert_eq!(chrome.hovered_tile, Some(3));
    assert!(chrome.backdrop);
    // Everything is where the layout has it: icons in their tiles, the rest against the layer
    // that it is drawn in.
    let layout = dash.layout(box_1080(0));
    let tile = |i: usize| layout.tiles[i];
    assert_eq!(
        plan.icon_boxes[1],
        Area {
            x: tile(1).x + 6 * FINE,
            y: tile(1).y + 6 * FINE,
            w: 64 * FINE,
            h: 64 * FINE
        }
    );
    assert_eq!(plan.show_apps.unwrap().x, tile(3).x + 6 * FINE);
    let dot = dash.dot_box_for(0, box_1080(0)).unwrap();
    assert_eq!(plan.dot_boxes[0].x, dot.x - layout.pill.x);
    assert_eq!(plan.dot_boxes[0].y, dot.y - layout.pill.y);
    let layer = plan.glow_layer.unwrap();
    assert_eq!(layer.x, layout.pill.x - 21 * FINE);
    assert_eq!(layer.w, layout.pill.w + 42 * FINE);
    assert_eq!(layer.x + plan.glow_boxes[0].x, tile(2).x);
    assert_eq!(layer.y + plan.glow_boxes[0].y, tile(2).y);
    assert_eq!(chrome.pill, layout.pill);
    assert_eq!(chrome.separator, None);
    assert_eq!(chrome.hovered_box.unwrap().x, tile(3).x - layout.pill.x);

    let poke = dash.render_plan(box_1080(0), true, true, 1, (1, 2, 3));
    assert!(poke.dots.is_empty());
    assert_eq!(poke.icons, [2]);
    assert_eq!(poke.glows, [2]);
    assert!(poke.show_apps.is_none() && poke.chrome.is_none());
    assert!(poke.dot_boxes.is_empty() && poke.glow_layer.is_some());

    // What the pill shows is in its key.
    let other = dash.render_plan(box_1080(0), false, true, 0, (1, 2, 3));
    assert_ne!(other.chrome.unwrap().revision, chrome.revision);
    dash.set_hovered(None);
    let unlit = dash.render_plan(box_1080(0), false, true, 1, (1, 2, 3));
    assert_ne!(unlit.chrome.unwrap().revision, chrome.revision);
    assert_ne!(
        dash.render_plan(box_1080(0), false, true, 1, (9, 2, 3)).glow_revision,
        plan.glow_revision
    );
}

#[test]
fn a_shrunk_dash_is_hit_where_it_is_drawn() {
    let dash = dash_with(3);
    // Bands for icons of 48, 32, 24, 22 and 16 pixels.
    for h in [84, 56, 42, 39, 28] {
        let band = DashBand { h: h * 64, y: (1080 - h) * 64, ..box_1080(0) };
        let layout = dash.layout(band);
        for i in 0..4 {
            let expected = if i < 3 { DashHit::App(i) } else { DashHit::ShowApps };
            let tile = layout.tiles[i];
            let (left, right) = (-(-tile.x).div_euclid(PARTS), tile.x + tile.w - 1);
            let top = -(-tile.y).div_euclid(PARTS);
            for x in [i64::try_from(left).unwrap(), units(right)] {
                let y = i64::try_from(top).unwrap();
                assert_eq!(dash.hit_test(band, x, y), Some(expected));
                assert_eq!(dash.hit_test(band, x, y + 5000), Some(expected));
                assert_eq!(dash.hit_test(band, x, y - 1), Some(DashHit::Background));
                assert_eq!(dash.hit_test(band, x, units(layout.pill.y) - 1), None);
            }
        }
    }
}

#[test]
fn the_open_gap_does_not_move_the_answer_on_a_shrunk_dash() {
    let mut dash = dash_with(4);
    dash.set_drop_slot(Some(0));
    for gap in [0, 20, 64] {
        let band = DashBand { h: 84 * 64, y: 996 * 64, ..box_1080(gap) };
        let run = units(dash.layout(band).pill.x) + 480;
        // Icons of 48 pixels advance by 60.
        let drop = |px: i64| dash.drop_slot_at(band, run + px * 64, 1030 * 64, "new.desktop");
        for slot in 0..4 {
            assert_eq!(drop(60 * slot + 1), Some(slot as usize));
            assert_eq!(drop(60 * slot + 58), Some(slot as usize));
        }
    }
}

#[test]
fn the_layers_are_stacked_in_order() {
    let mut dash = Dash::new();
    let mut items = vec![entry("a"), entry("b"), entry("c")];
    items[0].running = true;
    items[2].urgent = true;
    dash.set_items(items, 3);
    let layers = |poking: bool, blur: bool| {
        dash.render_plan(box_1080(0), poking, blur, 1, (1, 2, 3)).layers
    };
    assert_eq!(
        layers(false, true),
        [
            DashLayer::Dots,
            DashLayer::Icon(0),
            DashLayer::Icon(1),
            DashLayer::Icon(2),
            DashLayer::Glow,
            DashLayer::ShowApps,
            DashLayer::Pill,
            DashLayer::Backdrop,
        ]
    );
    assert_eq!(layers(false, false).last(), Some(&DashLayer::Pill));
    assert_eq!(layers(true, true), [DashLayer::Icon(2), DashLayer::Glow]);
    let calm = dash_with(2).render_plan(box_1080(0), true, true, 1, (1, 2, 3)).layers;
    assert!(calm.is_empty(), "nothing urgent, nothing drawn");
}
