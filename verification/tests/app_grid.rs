use synoik_ui::app_grid::{
    AppGrid, DragLocation, FocusDir, GridDropTarget, PageArrow, SwipeSource, PAGE_SWITCH_MS,
    SWIPE_MAX_MS, SWIPE_MIN_MS,
};
use synoik_ui::grid_entry::AppGridEntry;
use synoik_ui::grid_layout::{
    distribute, indicators_w, Band, PageAlign, ARROW_DISC, ARROW_MARGIN, FINE, INDICATORS_STRIP_H,
    MAX_SPACING, PAGE_PAD_H, SPACING,
};
use synoik_ui::grid_page::{batch, Accent, CaptionBox, CaptionText, PageLayer};
use synoik_ui::grid_scene::{GridElement, GridLayer, PEEK};
use synoik_ui::grid_swipe::{visible_pages, SwipeStep, SUB};
use synoik_ui::icon::AppIconRef;

fn entry(id: &str, name: &str) -> AppGridEntry {
    AppGridEntry {
        id: id.to_owned(),
        name: name.to_owned(),
        icon: AppIconRef::Fallback,
        folder: None,
    }
}

fn folder(id: &str, members: usize) -> AppGridEntry {
    AppGridEntry {
        id: id.to_owned(),
        name: id.to_owned(),
        icon: AppIconRef::Fallback,
        folder: Some(
            (0..members)
                .map(|i| AppGridEntry {
                    id: format!("{id}-{i}"),
                    name: format!("{id} {i}"),
                    icon: AppIconRef::Source(format!("{id}-icon-{i}")),
                    folder: None,
                })
                .collect(),
        ),
    }
}

fn apps(n: usize) -> Vec<AppGridEntry> {
    (0..n)
        .map(|i| entry(&format!("app{i:02}.desktop"), &format!("App {i:02}")))
        .collect()
}

fn grid_n(n: usize) -> AppGrid {
    let mut g = AppGrid::new();
    g.set_entries(apps(n));
    g
}

fn rect(x: i64, y: i64, w: i64, h: i64) -> Band {
    Band { x: x * 64, y: y * 64, w: w * 64, h: h * 64 }
}

/// A landscape band the size of a 1920×1080 work area's app-display.
fn wide() -> Band {
    rect(0, 0, 1920, 550)
}

fn ids(g: &AppGrid) -> Vec<String> {
    g.entries.iter().map(|e| e.id.clone()).collect()
}

/// The middle of the current page's tile `k`.
fn tile_center(g: &AppGrid, k: usize, band: Band) -> Option<(i128, i128)> {
    g.layout(band)
        .tiles
        .get(k)
        .map(|t| (t.x + t.w / 2, t.y + t.h / 2))
}

fn arrow_center(g: &AppGrid, arrow: PageArrow, band: Band) -> Option<(i128, i128)> {
    let layout = g.layout(band);
    let disc = match arrow {
        PageArrow::Prev => layout.prev_arrow,
        PageArrow::Next => layout.next_arrow,
    };
    disc.map(|d| (d.x + d.w / 2, d.y + d.h / 2))
}

#[test]
fn wide_band_lays_eight_columns_at_ninety_six_px() {
    let l = grid_n(24).layout(wide());
    assert_eq!(l.n_pages, 1);
    assert_eq!(l.tiles.len(), 24);
    // First eight tiles share row 0; the ninth starts row 1 → 8 columns.
    assert!((0..8).all(|i| l.tiles[i].y == l.tiles[0].y));
    assert!(l.tiles[8].y > l.tiles[0].y);
    // 96px icon → a 144 square tile, filling its square cell; one page, no dots.
    assert_eq!((l.tiles[0].w, l.tiles[0].h), (144 * FINE, 144 * FINE));
    assert!(l.indicators.is_none());
}

#[test]
fn paginates_and_navigates_pages() {
    let mut g = grid_n(30);
    let area = wide();
    assert_eq!(g.page_count(area), 2);
    // Page 0 holds a full 24; page 1 the remaining 6.
    let l0 = g.layout(area);
    assert_eq!((l0.first_index, l0.tiles.len()), (0, 24));
    assert!(g.set_page(1, area));
    let l1 = g.layout(area);
    assert_eq!((l1.page, l1.first_index, l1.tiles.len()), (1, 24, 6));
}

#[test]
fn hit_test_returns_the_absolute_index_on_a_later_page() {
    let mut g = grid_n(30);
    let area = wide();
    g.set_page(1, area);
    // The first tile on page 1 is entry 24.
    let (x, y) = tile_center(&g, 0, area).unwrap();
    assert_eq!(g.hit_test(area, x, y), Some(24));
    assert_eq!(g.hit_test(area, -100 * FINE, -100 * FINE), None);
}

#[test]
fn indicators_track_the_pages() {
    let g = grid_n(30);
    let area = wide();
    let dots = g.layout(area).indicators.unwrap();
    assert_eq!(dots.len(), 2);
    // The padded box around a dot is clickable → its page.
    assert_eq!(g.indicator_hit(area, dots[1].0, dots[1].1), Some(1));
    // A single page shows no dots.
    assert!(grid_n(10).layout(area).indicators.is_none());
}

#[test]
fn arrows_appear_only_beside_a_neighbouring_page() {
    let mut g = grid_n(30);
    let area = wide();
    // Page 0: no previous, a next.
    let l0 = g.layout(area);
    assert!(l0.prev_arrow.is_none());
    assert!(l0.next_arrow.is_some());
    // Last page: a previous, no next.
    g.set_page(1, area);
    let l1 = g.layout(area);
    assert!(l1.prev_arrow.is_some());
    assert!(l1.next_arrow.is_none());
    // A single page shows neither.
    let l = grid_n(10).layout(area);
    assert!(l.prev_arrow.is_none() && l.next_arrow.is_none());
}

#[test]
fn the_drop_target_reads_edges_body_and_empty_space() {
    let g = grid_n(3);
    let area = wide();
    let l = g.layout(area);
    let (t0, t2) = (l.tiles[0], l.tiles[2]);
    let mid_y = t0.y + t0.h / 2;
    let at = |x: i128, y: i128| g.drop_target_at(area, x, y, "nothing");

    let body = at(t0.x + t0.w / 2, mid_y).expect("over a tile");
    assert_eq!(body.location, DragLocation::OnIcon);

    // Leading edge of the *third* tile: nothing is being dragged out of the grid
    // here, so the reflow pushes right and the target stays where it was.
    let lead = at(t2.x + 5 * FINE, mid_y).expect("a tile edge");
    assert_eq!(
        (lead.position, lead.location),
        (Some(2), DragLocation::StartEdge)
    );
    // Trailing edge of the first tile retargets to the next tile's leading edge —
    // the reflow can push tile 1 away, tile 0 it cannot.
    let trail = at(t0.x + t0.w - 5 * FINE, mid_y).expect("a tile edge");
    assert_eq!(
        (trail.position, trail.location),
        (Some(1), DragLocation::StartEdge)
    );

    // Past the last tile of the row, still within the rows: append.
    let past = at(t2.x + t2.w + 200 * FINE, mid_y).expect("empty space");
    assert_eq!(
        (past.position, past.location),
        (None, DragLocation::EmptySpace)
    );

    // Above and below the rows there is no target at all.
    assert!(at(t0.x + 5 * FINE, l.block.y - 5 * FINE).is_none());
    assert!(at(t0.x + 5 * FINE, l.block.y + l.block.h + 5 * FINE).is_none());
}

#[test]
fn a_forward_drag_retargets_the_edge_it_cannot_push() {
    let g = grid_n(4);
    let area = wide();
    let l = g.layout(area);
    let mid_y = l.tiles[0].y + l.tiles[0].h / 2;
    let dragged = g.entry_id(0).unwrap().to_owned();

    // Leading edge of tile 2 while dragging tile 0: retargeted back onto tile 1's
    // trailing edge, which is the slot that can actually open.
    let t = g
        .drop_target_at(area, l.tiles[2].x + 5 * FINE, mid_y, &dragged)
        .expect("a tile edge");
    assert_eq!((t.position, t.location), (Some(1), DragLocation::EndEdge));
}

#[test]
fn moving_an_entry_reindexes_against_the_shortened_list() {
    let mut g = grid_n(4);
    let target = |position: Option<usize>| GridDropTarget {
        page: 0,
        position,
        location: DragLocation::StartEdge,
    };

    assert!(g.move_entry("app00.desktop", target(Some(2)), 24));
    assert_eq!(
        ids(&g),
        [
            "app01.desktop",
            "app02.desktop",
            "app00.desktop",
            "app03.desktop"
        ]
    );
    // An append target goes to the end of the page.
    assert!(g.move_entry("app00.desktop", target(None), 24));
    assert_eq!(*ids(&g).last().unwrap(), "app00.desktop");
    // A move that changes nothing reports nothing.
    assert!(!g.move_entry("app00.desktop", target(None), 24));
}

#[test]
fn a_cancelled_reorder_restores_the_order() {
    let mut g = grid_n(4);
    let before = ids(&g);
    let target = GridDropTarget {
        page: 0,
        position: Some(3),
        location: DragLocation::StartEdge,
    };

    g.begin_reorder();
    assert!(g.move_entry("app00.desktop", target, 24));
    assert_ne!(ids(&g), before);
    assert!(g.cancel_reorder());
    assert_eq!(ids(&g), before);

    g.begin_reorder();
    assert!(!g.finish_reorder(), "an untouched drag saves nothing");
    g.begin_reorder();
    assert!(g.move_entry("app00.desktop", target, 24));
    assert!(g.finish_reorder(), "a real move is worth persisting");
    assert!(!g.cancel_reorder(), "…and cannot then be undone");
}

#[test]
fn pages_chunk_the_order_for_persistence() {
    let g = grid_n(5);
    assert_eq!(
        g.pages(2),
        vec![
            vec!["app00.desktop".to_owned(), "app01.desktop".to_owned()],
            vec!["app02.desktop".to_owned(), "app03.desktop".to_owned()],
            vec!["app04.desktop".to_owned()],
        ]
    );
}

#[test]
fn the_preview_bands_are_targets_only_while_a_drag_is_in_flight() {
    let mut g = grid_n(30);
    let area = wide();
    let width = 1920 * FINE;
    let mid_y = 275 * FINE;
    let band = indicators_w(area);
    let left = (band / 2, mid_y);
    let right = (width - band / 2, mid_y);

    assert_eq!(g.hint_at(area, false, left.0, left.1), None, "no drag, no bands");
    assert_eq!(g.hint_at(area, false, right.0, right.1), None);

    assert!(g.set_drag_active(true));
    assert!(g.are_animations_ongoing(false, true), "the previews slide in");
    assert!(!g.are_animations_ongoing(true, true));

    assert_eq!(
        g.hint_at(area, true, left.0, left.1),
        None,
        "page 0 has no previous page to preview"
    );
    assert_eq!(g.hint_at(area, true, right.0, right.1), Some(PageArrow::Next));
    assert_eq!(
        g.hint_at(area, true, width / 2, mid_y),
        None,
        "the middle of the grid is not a band"
    );

    g.set_page(1, area);
    assert_eq!(g.hint_at(area, true, left.0, left.1), Some(PageArrow::Prev));
    assert_eq!(
        g.hint_at(area, true, right.0, right.1),
        Some(PageArrow::Next),
        "the last page still previews forward — that is how a page is created"
    );

    assert!(g.set_drag_active(false));
    assert_eq!(g.hint_at(area, false, right.0, right.1), None, "the drag ended");
}

#[test]
fn the_page_preview_bands_are_reserved_out_of_the_grid() {
    let area = wide(); // 1920 wide
    let l = grid_n(30).layout(area);
    let band = 192 * FINE;
    assert_eq!(indicators_w(area), band);
    let right_band_x = 1920 * FINE - band;
    // Nothing of the grid reaches into a band, and the page padding is on top of it.
    assert!(l.block.x >= band + PAGE_PAD_H);
    assert!(l.block.x + l.block.w <= right_band_x - PAGE_PAD_H);
    // The next arrow is centered in its band, on both axes.
    let arrow = l.next_arrow.expect("30 apps paginate");
    assert_eq!(arrow.x + ARROW_DISC / 2, right_band_x + band / 2);
    let page_h = 550 * FINE - INDICATORS_STRIP_H;
    assert_eq!(arrow.y + ARROW_DISC / 2, page_h / 2);

    // On a narrow band the share would be thinner than an arrow, so the arrow wins.
    assert_eq!(
        indicators_w(rect(0, 0, 500, 550)),
        ARROW_DISC + 2 * ARROW_MARGIN
    );
}

#[test]
fn arrow_hit_steps_the_page() {
    let mut g = grid_n(30);
    let area = wide();
    let next = arrow_center(&g, PageArrow::Next, area).unwrap();
    assert_eq!(g.arrow_hit(area, next.0, next.1), Some(PageArrow::Next));
    // The next arrow sits to the right of the grid block; the prev arrow is absent.
    assert!(arrow_center(&g, PageArrow::Prev, area).is_none());
    // Clicking through it advances, and the prev arrow then appears and returns.
    g.set_page(1, area);
    let prev = arrow_center(&g, PageArrow::Prev, area).unwrap();
    assert_eq!(g.arrow_hit(area, prev.0, prev.1), Some(PageArrow::Prev));
    assert_eq!(g.arrow_hit(area, -100 * FINE, -100 * FINE), None);
}

#[test]
fn set_page_clamps_and_resets() {
    let mut g = grid_n(30);
    let area = wide();
    assert!(g.set_page(5, area)); // clamps to the last page (1)
    assert_eq!(g.current_page(), 1);
    assert!(!g.set_page(5, area)); // already there → no move
    assert!(g.reset_page(false));
    assert_eq!(g.current_page(), 0);
    assert!(!g.reset_page(true));
}

#[test]
fn narrow_tall_band_picks_more_rows_and_shrinks_the_icon() {
    // A portrait band picks the 3×8 mode and drops below 96px to fit.
    let l = grid_n(24).layout(rect(0, 0, 400, 1000));
    assert!((0..3).all(|i| l.tiles[i].y == l.tiles[0].y));
    assert!(l.tiles[3].y > l.tiles[0].y);
    assert!(l.tiles[0].w < 120 * FINE);
}

#[test]
fn empty_when_no_apps_or_no_room() {
    assert_eq!(grid_n(0).layout(wide()).tiles.len(), 0);
    // A band too small for the padding + one tile.
    assert_eq!(grid_n(1).layout(rect(0, 0, 20, 20)).tiles.len(), 0);
}

#[test]
fn a_moving_tile_fade_does_not_bump_the_bake_revision() {
    let mut g = grid_n(30);
    let rev = g.content_rev();

    assert!(g.set_tile_fade(Some(("app02.desktop".to_owned(), 100))));
    assert_ne!(
        g.content_rev(),
        rev,
        "a tile joining the fade leaves the shared bakes, so they must re-bake"
    );

    let rev = g.content_rev();
    for alpha in [75, 50, 25, 0] {
        assert!(
            g.set_tile_fade(Some(("app02.desktop".to_owned(), alpha))),
            "a new alpha still reports a change (→ redraw)"
        );
        assert_eq!(
            g.content_rev(),
            rev,
            "…but must not re-bake: it moves every frame"
        );
    }

    assert!(g.set_tile_fade(Some(("app03.desktop".to_owned(), 50))));
    assert_ne!(g.content_rev(), rev, "a different tile re-bakes");
    let rev = g.content_rev();
    assert!(g.set_tile_fade(None));
    assert_ne!(g.content_rev(), rev, "and so does clearing it");
    assert!(!g.set_tile_fade(None), "an unchanged fade is not a change");
}

#[test]
fn hover_does_not_bump_the_bake_revision() {
    let mut g = grid_n(30);
    let area = wide();
    let rev = g.content_rev();
    assert!(
        g.set_hovered(Some(2)),
        "a new hover still reports a change (→ redraw)"
    );
    assert!(g.set_arrow_hovered(Some(PageArrow::Next)));
    assert_eq!(
        g.content_rev(),
        rev,
        "tile/arrow hover must not invalidate the label bake"
    );
    assert!(g.set_page(1, area));
    assert_eq!(
        g.content_rev(),
        rev,
        "a page change must not invalidate the other page's bake"
    );
    assert!(g.set_entries(vec![entry("a", "a")]));
    assert_ne!(g.content_rev(), rev, "an entries change re-bakes");
}

#[test]
fn stale_hover_is_dropped_on_shrink() {
    let mut g = grid_n(3);
    assert!(g.set_hovered(Some(2)));
    assert!(g.set_entries(vec![entry("a", "a")]));
    assert_eq!(g.hovered, None);
}

#[test]
fn setting_the_same_entries_is_no_change() {
    let mut g = AppGrid::new();
    assert!(g.set_entries(vec![entry("a", "A"), folder("f", 3)]));
    let rev = g.content_rev();
    assert!(!g.set_entries(vec![entry("a", "A"), folder("f", 3)]));
    assert_eq!(g.content_rev(), rev);
    // One more member in a folder is a change.
    assert!(g.set_entries(vec![entry("a", "A"), folder("f", 4)]));
    assert!(g.set_entries(vec![entry("a", "B"), folder("f", 4)]));
}

#[test]
fn entries_are_found_by_index_and_id() {
    let mut g = AppGrid::new();
    g.set_entries(vec![entry("a", "A"), folder("f", 6), entry("b", "B")]);
    assert_eq!(g.entry_id(2), Some("b"));
    assert_eq!(g.entry_id(3), None);
    assert_eq!(g.entry_name(0), Some("A"));
    assert_eq!(g.entry_name(9), None);
    assert_eq!(g.index_of("f"), Some(1));
    assert_eq!(g.index_of("zzz"), None);
    assert!(g.entry_folder(0).is_none());
    assert_eq!(g.entry_folder(1).map(|m| m.len()), Some(6));
    assert!(g.entry_folder(7).is_none());
    assert_eq!(g.entry_icon(0), Some(&AppIconRef::Fallback));
    assert!(g.entry_icon(3).is_none());
    // The apps' icons, and the first four members' of the folder.
    assert_eq!(g.icon_refs().len(), 2);
    let shown = g.folder_icon_refs();
    assert_eq!(shown.len(), 4);
    assert_eq!(*shown[3], AppIconRef::Source("f-icon-3".to_owned()));
    let at = |position| GridDropTarget { page: 1, position, location: DragLocation::OnIcon };
    assert_eq!(g.entry_id_at(at(Some(0)), 2), Some("b"));
    assert_eq!(g.entry_id_at(at(Some(1)), 2), None);
    assert_eq!(g.entry_id_at(at(None), 2), None);
}

#[test]
fn focus_is_kept_within_the_entries() {
    let mut g = grid_n(5);
    assert!(g.set_focused(Some(4)));
    assert_eq!(g.focused(), Some(4));
    assert!(!g.set_focused(Some(4)));
    assert!(g.set_focused(Some(5)), "an entry that is not there takes no focus");
    assert_eq!(g.focused(), None);
    g.set_focused(Some(4));
    g.set_entries(apps(2));
    assert_eq!(g.focused(), None);
}

#[test]
fn arrows_move_the_focus_to_the_nearest_tile_that_way() {
    let mut g = grid_n(30);
    let area = wide();
    // Nothing focused yet: the page's first tile.
    assert!(g.focus_navigate(FocusDir::Down, area));
    assert_eq!(g.focused(), Some(0));
    assert!(g.focus_navigate(FocusDir::Right, area));
    assert_eq!(g.focused(), Some(1));
    assert!(g.focus_navigate(FocusDir::Down, area));
    assert_eq!(g.focused(), Some(9));
    assert!(g.focus_navigate(FocusDir::Left, area));
    assert_eq!(g.focused(), Some(8));
    assert!(g.focus_navigate(FocusDir::Up, area));
    assert_eq!(g.focused(), Some(0));
    // Nothing lies above or to the left of the first tile.
    assert!(!g.focus_navigate(FocusDir::Up, area));
    assert!(!g.focus_navigate(FocusDir::Left, area));
    assert_eq!(g.focused(), Some(0));
    // Off the end of the first row is the next page's first row, and the page follows.
    g.set_focused(Some(7));
    assert!(g.focus_navigate(FocusDir::Right, area));
    assert_eq!(g.focused(), Some(24));
    assert_eq!(g.current_page(), 1);
    assert!(g.focus_navigate(FocusDir::Left, area));
    assert_eq!(g.focused(), Some(7));
    assert_eq!(g.current_page(), 0);
    // An empty grid has nothing to focus.
    assert!(!grid_n(0).focus_navigate(FocusDir::Right, area));
}

#[test]
fn tab_goes_around_in_order() {
    let mut g = grid_n(26);
    let area = wide();
    assert!(g.focus_tab(true, area));
    assert_eq!(g.focused(), Some(0));
    assert!(g.focus_tab(false, area));
    assert_eq!((g.focused(), g.current_page()), (Some(25), 1));
    assert!(g.focus_tab(true, area));
    assert_eq!((g.focused(), g.current_page()), (Some(0), 0));
    let mut g = grid_n(26);
    assert!(g.focus_tab(false, area));
    assert_eq!(g.focused(), Some(25));
    // There and back.
    g.set_focused(Some(9));
    g.focus_tab(true, area);
    g.focus_tab(false, area);
    assert_eq!(g.focused(), Some(9));
    // One entry has nowhere else to go, none has nowhere at all.
    let mut one = grid_n(1);
    assert!(one.focus_tab(true, area));
    assert!(!one.focus_tab(true, area));
    assert!(!grid_n(0).focus_tab(true, area));
}

#[test]
fn every_tile_is_hit_at_its_corners_and_middle() {
    for (n, area) in [
        (24, wide()),
        (17, rect(13, 40, 1280, 700)),
        (9, rect(-100, -50, 400, 1000)),
    ] {
        let g = grid_n(n);
        let l = g.layout(area);
        for (k, t) in l.tiles.iter().enumerate() {
            let want = Some(l.first_index + k);
            assert_eq!(g.hit_test(area, t.x, t.y), want);
            assert_eq!(g.hit_test(area, t.x + t.w - 1, t.y + t.h - 1), want);
            assert_eq!(g.hit_test(area, t.x + t.w / 2, t.y + t.h / 2), want);
        }
    }
}

#[test]
fn an_entry_off_the_page_has_no_tile() {
    let g = grid_n(30);
    let area = wide();
    let l = g.layout(area);
    assert_eq!(g.entry_rect(3, area), Some(l.tiles[3]));
    assert_eq!(
        g.entry_center(3, area),
        Some((l.tiles[3].x + l.tiles[3].w / 2, l.tiles[3].y + l.tiles[3].h / 2))
    );
    assert_eq!(g.entry_rect(24, area), None);
    assert_eq!(g.entry_center(24, area), None);
    let mut g = grid_n(30);
    g.set_page(1, area);
    assert_eq!(g.entry_rect(3, area), None);
    assert!(g.entry_rect(24, area).is_some());
    assert_eq!(g.items_per_page(area), 24);
    assert_eq!(g.metrics_for(area), 96);
    assert_eq!(g.metrics_for(rect(0, 0, 1280, 450)), 64);
    // Three rows of 48px icons take 312px; a page that is just as tall is too short for them.
    assert_eq!(g.metrics_for(rect(0, 0, 1280, 401)), 48);
    assert_eq!(g.metrics_for(rect(0, 0, 1280, 400)), 32);
}

#[test]
fn the_wide_page_is_placed_to_the_pixel() {
    // 1920 - 2 * (18 + 192) = 1500 across: eight 144s leave 348 for seven gaps, which is more
    // than 36 each; 24 more each is 168, and what is left of 264 centers the cells.
    let l = grid_n(24).layout(wide());
    assert_eq!(l.h_sp, MAX_SPACING);
    assert_eq!(l.block.w, (8 * 144 + 7 * 36) * FINE);
    assert_eq!(l.block.x, (18 + 192 + 48) * FINE);
    assert_eq!(l.tiles[1].x - l.tiles[0].x, (144 + 36) * FINE);
    // 510 - 2 * 24 = 462 down: three 144s leave 30 for two gaps.
    assert_eq!(l.v_sp, 15 * FINE);
    assert_eq!(l.block.y, 24 * FINE);
    assert_eq!(l.tiles[8].y - l.tiles[0].y, (144 + 15) * FINE);
}

#[test]
fn cells_spread_or_stay_together() {
    // Fill: the room goes between the cells up to the limit, then around them.
    assert_eq!(
        distribute(462 * FINE, 3, 144 * FINE, 0, PageAlign::Fill),
        (0, 15 * FINE)
    );
    assert_eq!(
        distribute(600 * FINE, 3, 144 * FINE, 0, PageAlign::Fill),
        (48 * FINE, MAX_SPACING)
    );
    // Center: all of it goes around them, in whole pixels.
    assert_eq!(
        distribute(601 * FINE, 3, 144 * FINE, 10 * FINE, PageAlign::Center),
        (10 * FINE + 62 * FINE, SPACING)
    );
    assert_eq!(
        distribute(100 * FINE, 3, 144 * FINE, 10 * FINE, PageAlign::Center),
        (10 * FINE, SPACING)
    );
}

#[test]
fn a_folder_is_three_by_three() {
    let mut g = AppGrid::folder_view();
    g.set_entries(apps(10));
    let area = rect(0, 0, 900, 700);
    let l = g.layout(area);
    assert_eq!((l.cols, l.per_page, l.n_pages), (3, 9, 2));
    assert_eq!(l.h_sp, SPACING);
}

#[test]
fn hovering_a_side_band_is_dropped_with_the_drag() {
    let mut g = grid_n(30);
    assert!(g.set_drag_active(true));
    assert!(!g.set_drag_active(true));
    assert!(g.set_hint_hovered(Some(PageArrow::Next)));
    assert!(!g.set_hint_hovered(Some(PageArrow::Next)));
    assert!(g.set_drag_active(false));
    assert_eq!(g.hint_hovered, None);
    assert!(!g.are_animations_ongoing(true, true));
    assert!(g.are_animations_ongoing(true, false));
}

#[test]
fn a_swipe_follows_the_fingers_a_page_at_most() {
    let mut g = grid_n(30 * 3);
    let area = wide();
    assert_eq!(g.gesture_update(1000, area), SwipeStep::Ignored);
    // From page 1 at rest; a touchpad page is 400px.
    g.set_page(1, area);
    g.gesture_begin(SwipeSource::Touchpad, SUB as i64, area);
    assert!(g.gesture_is_active());
    let page = 400 * FINE as i64;
    assert_eq!(g.gesture_update(page / 4, area), SwipeStep::Moved);
    let swipe = g.gesture.unwrap();
    assert_eq!(swipe.pos * 4, swipe.unit * 5);
    // No further than one page either side.
    assert_eq!(g.gesture_update(9 * page, area), SwipeStep::Moved);
    assert_eq!(g.gesture.unwrap().pos, 2 * swipe.unit);
    assert_eq!(g.gesture_update(page, area), SwipeStep::Held);
    assert_eq!(g.gesture_update(-9 * page, area), SwipeStep::Moved);
    assert_eq!(g.gesture.unwrap().pos, 0);
    // While a swipe holds the view, the slide does not count as moving.
    assert!(!g.are_animations_ongoing(true, false));
    // One page has nowhere to go.
    let mut one = grid_n(3);
    one.gesture_begin(SwipeSource::Pointer, 0, area);
    assert_eq!(one.gesture_update(page, area), SwipeStep::Ignored);
}

#[test]
fn a_release_settles_on_a_page() {
    let area = wide();
    let page = 400 * FINE as i64;
    let swiped = |travel: i64| {
        let mut g = grid_n(90);
        g.set_page(1, area);
        g.gesture_begin(SwipeSource::Touchpad, SUB as i64, area);
        g.gesture_update(travel, area);
        g
    };
    // Slow: to the nearest page, at the usual pace when it did not move at all.
    let mut g = swiped(page / 4);
    let settle = g.gesture_end(0, area).unwrap();
    assert_eq!((settle.page, settle.ms), (1, PAGE_SWITCH_MS));
    assert_eq!(g.current_page(), 1);
    assert!(!g.gesture_is_active());
    let mut g = swiped(page / 2);
    assert_eq!(g.gesture_end(0, area).unwrap().page, 2);
    // A flick goes one page its way, however little it moved.
    let fast = 1000 * FINE as i64;
    let mut g = swiped(page / 10);
    let settle = g.gesture_end(fast, area).unwrap();
    assert_eq!(settle.page, 2);
    // 360px to go at 1px/ms, times three, is over the limit.
    assert_eq!(settle.ms, SWIPE_MAX_MS);
    let mut g = swiped(page / 10);
    assert_eq!(g.gesture_end(-fast, area).unwrap().page, 0);
    // 40px to go at 10px/ms, times three, is under it.
    let mut g = swiped(page - page / 10);
    assert_eq!(g.gesture_end(10 * fast, area).unwrap().ms, SWIPE_MIN_MS);
    // 200px to go at 4px/ms, times three.
    let mut g = swiped(page / 2);
    assert_eq!(g.gesture_end(4 * fast, area).unwrap().ms, 150);
    // Giving up settles on the nearest page too.
    let mut g = swiped(page / 4);
    assert_eq!(g.gesture_cancel(area).unwrap().page, 1);
    assert!(g.gesture_cancel(area).is_none());
    assert!(g.gesture_end(0, area).is_none());
}

#[test]
fn a_pointer_drag_needs_less_speed_to_be_a_flick() {
    let area = wide();
    let speed = 400 * FINE as i64;
    let mut pad = grid_n(90);
    pad.gesture_begin(SwipeSource::Touchpad, 0, area);
    assert_eq!(pad.gesture_end(speed, area).unwrap().page, 0);
    let mut pointer = grid_n(90);
    pointer.gesture_begin(SwipeSource::Pointer, 0, area);
    assert_eq!(pointer.gesture_end(speed, area).unwrap().page, 1);
}

#[test]
fn two_pages_show_while_the_view_is_between_them() {
    let at_rest = visible_pages(2 * SUB, SUB, 4);
    assert_eq!(at_rest.len(), 1);
    assert_eq!((at_rest[0].page, at_rest[0].dx), (2, 0));
    let between = visible_pages(SUB + SUB / 4, SUB, 4);
    assert_eq!(between.len(), 2);
    assert_eq!((between[0].page, between[0].dx), (1, -(SUB / 4)));
    assert_eq!((between[1].page, between[1].dx), (2, SUB - SUB / 4));
    // The last page has none after it.
    assert_eq!(visible_pages(3 * SUB + 1, SUB, 4).len(), 1);
    assert_eq!(visible_pages(9 * SUB, SUB, 4).len(), 0);
}

#[test]
fn a_shifted_page_keeps_its_dots_and_arrows() {
    let g = grid_n(30);
    let area = wide();
    let rest = g.layout_at(area, 0, 0);
    let shifted = g.layout_at(area, 0, -1920 * FINE);
    assert_eq!(shifted.tiles[0].x, rest.tiles[0].x - 1920 * FINE);
    assert_eq!(shifted.tiles[0].y, rest.tiles[0].y);
    assert_eq!(shifted.indicators, rest.indicators);
    assert_eq!(shifted.next_arrow, rest.next_arrow);
    // Past the last page is the last page.
    assert_eq!(g.layout_at(area, 9, 0).page, 1);
}

#[test]
fn a_page_plan_keeps_the_faded_tile_apart() {
    let mut g = AppGrid::new();
    g.set_entries(vec![entry("a", "A"), folder("f", 2), folder("h", 2), entry("b", "B")]);
    g.set_tile_fade(Some(("f".to_owned(), 10)));
    g.set_hovered(Some(0));
    g.set_focused(Some(3));
    let plan = g.page_plan(0, &vec![false, true, true, true]);
    assert!(plan[0].own_caption && plan[0].expanded && !plan[0].folder_fill);
    assert!(plan[1].faded && plan[1].own_caption && !plan[1].expanded && !plan[1].folder_fill);
    assert!(!plan[2].faded && !plan[2].own_caption && plan[2].folder_fill);
    // A caption that fits does not spell itself out.
    assert!(!plan[3].own_caption && !plan[3].expanded);
    assert!(plan[0].hovered && !plan[0].focused);
    assert!(plan[3].focused && !plan[3].hovered);
    assert_eq!((plan[0].members, plan[1].members), (None, Some(2)));
    g.set_entries(vec![folder("big", 9), folder("empty", 0)]);
    let plan = g.page_plan(0, &vec![true, true]);
    assert_eq!((plan[0].members, plan[1].members), (Some(4), Some(0)));
}

#[test]
fn the_side_bands_lead_to_a_page_or_make_one() {
    let mut g = grid_n(60);
    let arrows = |g: &AppGrid| -> Vec<(PageArrow, bool)> {
        g.hint_plan(wide()).iter().map(|h| (h.arrow, h.dnd)).collect()
    };
    assert_eq!(arrows(&g), [(PageArrow::Next, false)], "nothing is before the first page");
    g.set_page(2, wide());
    g.set_hint_hovered(Some(PageArrow::Next));
    assert_eq!(
        arrows(&g),
        [(PageArrow::Prev, false), (PageArrow::Next, true)],
        "a drop past the last page makes a new one"
    );
    let plan = g.hint_plan(wide());
    assert_eq!((plan[0].area.x, plan[0].area.w), (0, 192 * FINE));
    assert_eq!(plan[1].area.x, (1920 - 192) * FINE);
    assert!(grid_n(0).hint_plan(wide()).is_empty());
}

#[test]
fn the_neighbouring_pages_peek_in_beside_the_current_one() {
    let mut g = grid_n(60);
    assert!(grid_n(0).preview_plan(wide()).is_empty());
    let next = g.preview_plan(wide());
    assert_eq!(next.len(), 1);
    assert_eq!((next[0].page, next[0].first, next[0].count), (1, 24, 24));

    g.set_page(1, wide());
    let both = g.preview_plan(wide());
    assert_eq!((both[0].page, both[0].first, both[0].count), (0, 0, 24));
    assert_eq!((both[1].page, both[1].first, both[1].count), (2, 48, 12));
    let l = g.layout(wide());
    assert_eq!(both[0].x + l.block.w + l.h_sp, l.prev_hint.x + l.prev_hint.w);
    assert_eq!(both[1].x, l.next_hint.x + l.h_sp);
    // A whole page width away from there they are off the output.
    assert_eq!((both[0].travel, both[1].travel), (-1920 * FINE, 1920 * FINE));
    assert!(both[0].x + both[0].travel + l.block.w <= 0);
    assert!(both[1].x + both[1].travel >= 1920 * FINE);
}

#[test]
fn cancelling_keeps_what_the_catalog_changed() {
    let mut g = grid_n(3);
    g.begin_reorder();
    g.set_entries(apps(4));
    assert!(!g.cancel_reorder(), "more entries than before stay as they are");
    assert_eq!(g.entries.len(), 4);
    // An entry that replaced another goes behind the others.
    let mut g = grid_n(3);
    g.begin_reorder();
    g.set_entries(vec![entry("new", "New"), entry("app02.desktop", "x"), entry("app00.desktop", "y")]);
    assert!(g.cancel_reorder());
    assert_eq!(ids(&g), ["app00.desktop", "app02.desktop", "new"]);
}

#[test]
fn a_move_keeps_every_entry_and_drops_the_hover() {
    let mut g = grid_n(30);
    g.set_hovered(Some(1));
    let target = GridDropTarget { page: 1, position: Some(40), location: DragLocation::StartEdge };
    assert!(g.move_entry("app03.desktop", target, 24));
    assert_eq!(g.hovered, None);
    assert_eq!(ids(&g).last().unwrap(), "app03.desktop");
    let mut sorted = ids(&g);
    sorted.sort();
    assert_eq!(sorted, ids(&grid_n(30)));
    assert!(!g.move_entry("nobody", target, 24));
    // A page far past the end is the end.
    let far = GridDropTarget {
        page: usize::MAX,
        position: Some(usize::MAX),
        location: DragLocation::EndEdge,
    };
    assert!(!g.move_entry("app03.desktop", far, usize::MAX));
}

#[test]
fn pages_of_no_size_hold_one_each() {
    assert_eq!(grid_n(2).pages(0).len(), 2);
    assert!(grid_n(0).pages(5).is_empty());
}

const LABEL: CaptionBox = CaptionBox { w: 120 * FINE, line_h: 18 * FINE, top: 110 * FINE };

const BLUE: Accent = Accent { r: 53, g: 132, b: 228 };

fn fitting(n: usize) -> Vec<CaptionText> {
    vec![CaptionText { fits: true, folded: 1, full: 1 }; n]
}

fn scene(g: &AppGrid, pos: i128, peek: u32) -> Vec<GridElement> {
    g.render(wide(), 255, pos, SUB, peek, &fitting(g.entries.len()), LABEL, BLUE)
}

fn layers(scene: &[GridElement]) -> Vec<GridLayer> {
    scene.iter().map(|e| e.layer).collect()
}

#[test]
fn a_page_is_icons_over_captions_over_the_ring_the_wash_and_the_folders() {
    let mut g = AppGrid::new();
    g.set_entries(vec![entry("a", "A"), folder("f", 2), folder("h", 6), entry("b", "B")]);
    g.set_tile_fade(Some(("f".to_owned(), 10)));
    g.set_hovered(Some(0));
    g.set_focused(Some(3));
    let mut captions = fitting(4);
    captions[0] = CaptionText { fits: false, folded: 1, full: 3 };
    let l = g.layout(wide());
    let page = g.render_page(&l, &captions, LABEL, BLUE);
    let revision = g.content_rev();
    let icon = |tile, member| PageLayer::Icon { tile, member };
    assert_eq!(
        page.iter().map(|e| e.layer).collect::<Vec<_>>(),
        [
            icon(0, None),
            icon(1, Some(0)),
            icon(1, Some(1)),
            icon(2, Some(0)),
            icon(2, Some(1)),
            icon(2, Some(2)),
            icon(2, Some(3)),
            icon(3, None),
            PageLayer::Caption { tile: 0, lines: 3 },
            PageLayer::Caption { tile: 1, lines: 1 },
            PageLayer::Captions { revision },
            PageLayer::Ring { tile: 3, accent: BLUE },
            PageLayer::Wash { tile: 0 },
            PageLayer::Folders { revision },
            PageLayer::FadedFolder { tile: 1 },
        ]
    );
    // The folder that fades does so with its icons, its caption and its background.
    let faded: Vec<usize> =
        (0..page.len()).filter(|&i| page[i].fade == Some(10)).collect();
    assert_eq!(faded, [1, 2, 9, 14]);
    assert!((0..page.len()).all(|i| faded.contains(&i) || page[i].fade.is_none()));
    // Two lines more make the wash taller, and leave the ring alone.
    assert_eq!((page[12].area.y, page[12].area.h), (l.tiles[0].y, 180 * FINE));
    assert_eq!(page[11].area, l.tiles[3]);
    let caption = page[8].area;
    assert_eq!((caption.x, caption.y), (l.tiles[0].x + 12 * FINE, l.tiles[0].y + 110 * FINE));
    assert_eq!((caption.w, caption.h), (120 * FINE, 54 * FINE));
    // In another accent the ring is another picture, and nothing else is.
    let green = Accent { r: 0, g: 255, b: 0 };
    let other = g.render_page(&l, &captions, LABEL, green);
    let changed: Vec<usize> = (0..page.len()).filter(|&i| page[i] != other[i]).collect();
    assert_eq!(changed, [11]);
    assert_eq!((page[10].area, page[13].area, page[14].area), (l.block, l.block, l.tiles[1]));
}

#[test]
fn a_page_at_rest_has_its_icons_and_captions_only() {
    let g = grid_n(3);
    let l = g.layout(wide());
    let page = g.render_page(&l, &fitting(3), LABEL, BLUE);
    assert_eq!(page.len(), 4);
    assert_eq!(page[3].layer, PageLayer::Captions { revision: g.content_rev() });
    assert!(page.iter().all(|e| e.fade.is_none()));
    // The wash and the ring of a tile on another page are not drawn.
    let mut g = grid_n(30);
    g.set_hovered(Some(25));
    g.set_focused(Some(25));
    let l = g.layout(wide());
    assert_eq!(g.render_page(&l, &fitting(30), LABEL, BLUE).len(), 25);
}

#[test]
fn the_grid_draws_its_page_then_the_dots_the_arrows_and_their_wash() {
    let mut g = grid_n(60);
    g.set_page(1, wide());
    g.set_arrow_hovered(Some(PageArrow::Next));
    let s = scene(&g, SUB, 0);
    assert_eq!(s.len(), 25 + 4);
    assert!(s[..25].iter().all(|e| matches!(e.layer, GridLayer::Page { page: 1, .. })));
    assert_eq!(
        layers(&s[25..]),
        [
            GridLayer::Dots { lit: 1, revision: g.content_rev() },
            GridLayer::Arrow { arrow: PageArrow::Prev },
            GridLayer::Arrow { arrow: PageArrow::Next },
            GridLayer::ArrowWash { arrow: PageArrow::Next },
        ]
    );
    let l = g.layout(wide());
    assert_eq!(Some(s[28].area), l.next_arrow);
    // On the last page the arrow under the pointer is gone, and its wash with it.
    g.set_page(2, wide());
    let s = scene(&g, 2 * SUB, 0);
    assert_eq!(layers(&s[s.len() - 1..]), [GridLayer::Arrow { arrow: PageArrow::Prev }]);
    assert!(g.render(wide(), 0, 0, SUB, 0, &fitting(60), LABEL, BLUE).is_empty());
    assert!(scene(&grid_n(0), 0, 0).is_empty());
}

#[test]
fn the_current_pages_dot_is_lit() {
    let mut g = grid_n(60);
    let before = scene(&g, 0, 0)[25].layer;
    g.set_page(2, wide());
    let strip = g.dot_strip(wide()).unwrap();
    assert_eq!((strip.lit, strip.revision), (2, g.content_rev()));
    assert_eq!(strip.dots.iter().map(|d| d.lit).collect::<Vec<_>>(), [false, false, true]);
    // Three dots, 34 px apart, around the middle of the band.
    assert_eq!((strip.area.x, strip.area.w), ((960 - 34 - 5) * FINE, 78 * FINE));
    assert_eq!((strip.dots[2].area.x, strip.dots[2].area.w), (68 * FINE, 10 * FINE));
    assert_eq!((strip.dots[0].area.x, strip.dots[0].area.w), (5 * FINE / 3, 20 * FINE / 3));
    // The page alone makes the strip another picture.
    let s = scene(&g, 2 * SUB, 0);
    let dots = s.iter().find(|e| matches!(e.layer, GridLayer::Dots { .. })).unwrap();
    assert_ne!(dots.layer, before);
    assert_eq!(dots.area, strip.area);
    assert!(grid_n(3).dot_strip(wide()).is_none());
}

#[test]
fn the_neighbours_peek_in_below_the_page() {
    let mut g = grid_n(60);
    g.set_page(1, wide());
    g.set_hint_hovered(Some(PageArrow::Prev));
    let revision = g.content_rev();
    let s = scene(&g, SUB, PEEK);
    // Only the column beside the page is on the band.
    assert_eq!(
        layers(&s[25..34]),
        [
            GridLayer::Hint { arrow: PageArrow::Prev, dnd: true },
            GridLayer::Hint { arrow: PageArrow::Next, dnd: false },
            GridLayer::PeekIcon { entry: 7 },
            GridLayer::PeekIcon { entry: 15 },
            GridLayer::PeekIcon { entry: 23 },
            GridLayer::PeekCaptions { page: 0, revision },
            GridLayer::PeekIcon { entry: 48 },
            GridLayer::PeekIcon { entry: 56 },
            GridLayer::PeekCaptions { page: 2, revision },
        ]
    );
    assert!(matches!(s[34].layer, GridLayer::Dots { .. }));
    let l = g.layout(wide());
    assert_eq!((s[25].area, s[26].area), (l.prev_hint, l.next_hint));
    assert_eq!((s[27].area.x, s[27].area.w), (12 * FINE, 144 * FINE));
    assert_eq!(s[31].area.x, (1920 - 192 + 36) * FINE);
    assert_eq!((s[33].area.y, s[33].area.h), (l.block.y, l.block.h));
    // Half way, the bands are half in and the neighbours still off the band.
    let s = scene(&g, SUB, PEEK / 2);
    assert_eq!(s[25].area.x, -96 * FINE);
    assert_eq!(s[26].area.x, (1920 - 96) * FINE);
    assert!(matches!(s[27].layer, GridLayer::PeekCaptions { page: 0, .. }));
    assert!(matches!(s[28].layer, GridLayer::PeekCaptions { page: 2, .. }));
}

#[test]
fn a_view_between_two_pages_draws_both() {
    let g = grid_n(60);
    let s = scene(&g, SUB / 2, 0);
    let rest = g.layout(wide());
    assert_eq!(s[0].area.x, rest.tiles[0].x - 960 * FINE);
    assert!(matches!(s[24].layer, GridLayer::Page { page: 0, .. }));
    assert!(matches!(s[25].layer, GridLayer::Page { page: 1, .. }));
    assert_eq!(s[25].area.x, rest.tiles[0].x + 960 * FINE);
}

#[test]
fn icons_go_up_together_and_each_once() {
    let source = |name: &str| AppIconRef::Source(name.to_owned());
    let mut a = entry("a", "A");
    a.icon = source("f-icon-0");
    let mut b = entry("b", "B");
    b.icon = source("f-icon-0");
    let mut g = AppGrid::new();
    g.set_entries(vec![a, folder("f", 6), b]);
    let slots = g.icons_on_page(0, 3, 96, 0);
    let first = source("f-icon-0");
    assert_eq!(slots.len(), 6);
    assert_eq!((slots[0], slots[5]), ((&first, 96), (&first, 96)));
    // The same icon at another size is another upload.
    assert_eq!(slots[1], (&first, 1));
    assert_eq!(slots[4], (&source("f-icon-3"), 1));
    let none = vec![false; 6];
    let all = vec![true; 6];
    assert_eq!(batch(&slots, &none, &all), [0, 1, 2, 3, 4]);
    assert_eq!(
        batch(&slots, &vec![true, false, true, false, false, true], &all),
        [1, 3, 4],
        "what is there stays"
    );
    assert_eq!(batch(&slots, &none, &vec![false, true, false, true, false, false]), [1, 3]);
    assert!(
        batch(&slots, &none, &vec![false, true, false, false, false, false]).is_empty(),
        "one by itself is no batch"
    );
    assert!(batch(&slots, &all, &all).is_empty());
}

#[test]
fn a_slide_and_a_peek_keep_their_fractions() {
    let mut g = grid_n(60);
    g.set_page(1, wide());
    // A third of the way: what is left of 192 px of hint is 128 px, to the last fraction.
    let peek = PEEK / 3;
    let s = scene(&g, SUB, peek);
    let left = (PEEK - peek) as i128;
    let at = |e: &GridElement| e.area.x * PEEK as i128 + e.past as i128;
    assert_eq!(at(&s[25]), -192 * FINE * left);
    assert_eq!(at(&s[26]), (1920 - 192) * FINE * PEEK as i128 + 192 * FINE * left);
    assert_ne!(s[25].past, 0);
    // A tile half a pixel short of a whole one, and a hair nearer, rounds to the nearer.
    let g = grid_n(60);
    let rest = g.layout(wide()).tiles[0].x;
    let px = |pos: i128, unit: i128| {
        g.render(wide(), 255, pos, unit, 0, &fitting(60), LABEL, BLUE)[0].area.x
    };
    let far = rest / FINE;
    // Two units to a page's pixel: one unit is half a pixel.
    let unit = 1920 * 2 * 1000;
    assert_eq!(px(1000, unit), rest, "half a pixel to the left rounds up");
    assert_eq!(px(1001, unit), rest - FINE);
    // Left of the screen's edge, half a pixel rounds to the left.
    let gone = (far + 10) * 2000;
    assert_eq!(px(gone + 1000, unit), -11 * FINE);
    assert_eq!(px(gone + 999, unit), -10 * FINE);
}
