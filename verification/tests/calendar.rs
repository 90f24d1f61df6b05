//! The month view.

use synoik_ui::area::{Area, UNITS};
use synoik_ui::calendar::{
    grid_range_of, local_day_bounds, month_grid, signed_decimal, today_grid_range, weekday_abbrev,
    CalHover, CalMetrics, Calendar, DayColor, DayDisc, Layout, GRID_COLS,
};
use synoik_ui::calendar_view::{CalText, CalWords, CalendarPlan, Spot};
use synoik_ui::dates::{add_days, day_number, days_in_month, Ymd};

fn ymd(year: i32, month: u32, day: u32) -> Ymd {
    Ymd { year, month, day }
}

/// A length in logical pixels.
fn px(n: i128) -> i128 {
    n * UNITS
}

/// The measures of the reference font at its default size.
fn metrics() -> CalMetrics {
    let px = |n: i64| n * UNITS as i64;
    CalMetrics { header_h: px(38), weekday_h: px(29), cell: px(40), today_h: px(64) }
}

fn center(area: Area) -> (i64, i64) {
    ((area.x + area.w / 2) as i64, (area.y + area.h / 2) as i64)
}

fn click(calendar: &mut Calendar, area: Area) -> bool {
    let (x, y) = center(area);
    calendar.pointer_click(metrics(), x, y)
}

fn hover(calendar: &mut Calendar, area: Area) -> bool {
    calendar.hover(metrics(), Some(center(area)))
}

#[test]
fn grid_starts_on_the_week_start_column_and_covers_the_month() {
    // January 2024: the 1st is a Monday. With the week starting on Sunday, the 1st sits in
    // column 1, so the grid opens on Sunday 2023-12-31.
    let cal = Calendar::new(0, false, ymd(2024, 1, 1));
    let grid = cal.grid();
    assert_eq!(
        grid[0],
        ymd(2023, 12, 31),
        "week_start=Sunday must open the grid on the Sunday before the 1st"
    );
    // Column 1 (Monday) is the 1st.
    assert_eq!(grid[1], ymd(2024, 1, 1));
    // 42 consecutive days.
    assert_eq!(grid[41], add_days(grid[0], 41));
    // Every day of the month appears in-grid.
    for day in 1..=days_in_month(2024, 1) {
        assert!(grid.iter().any(|d| d.month == 1 && d.day == day));
    }
}

#[test]
fn week_start_monday_rotates_the_grid() {
    let mut cal = Calendar::new(1, false, ymd(2026, 3, 10));
    cal.year = 2024;
    cal.month = 1;
    let grid = cal.grid();
    assert_eq!(
        grid[0],
        ymd(2024, 1, 1),
        "week_start=Monday must put a Monday-1st in column 0"
    );
}

#[test]
fn clicking_pagers_and_days_updates_state() {
    let mut cal = Calendar::new(0, false, ymd(2026, 3, 10));
    cal.year = 2024;
    cal.month = 6;
    cal.revision = 0;
    let layout = Layout::new(false, metrics());

    // Next-month pager.
    let hit = click(&mut cal, layout.next_arrow());
    assert!(hit);
    assert_eq!((cal.year, cal.month), (2024, 7));

    // Prev twice: back to May.
    click(&mut cal, layout.prev_arrow());
    click(&mut cal, layout.prev_arrow());
    assert_eq!((cal.year, cal.month), (2024, 5));

    // Clicking a day cell selects that date.
    let before = cal.revision;
    click(&mut cal, layout.cell(2, 3));
    assert!(cal.revision > before);
    assert_eq!(cal.selected, ymd(2024, 5, 15), "the third Wednesday of May 2024");
}

#[test]
fn calendar_matches_the_live_shell() {
    let layout = Layout::new(true, metrics());

    let today = layout.today_button();
    assert_eq!((today.w, today.h), (px(321), px(64)));

    let card = layout.calendar_card();
    assert_eq!((card.w, card.h), (px(321), px(309)));
    assert_eq!(
        card.y - (today.y + today.h),
        px(10),
        "the cards are 10 apart: the today card's 4px bottom margin plus 6px column spacing"
    );

    let whole = Calendar::new(0, true, ymd(2026, 3, 10)).layout(metrics()).bounds();
    assert_eq!(
        (whole.w, whole.h),
        (px(329), px(391)),
        "the column is both card boxes plus their margins"
    );
    assert_eq!(
        Calendar::new(0, true, ymd(2026, 3, 10)).logical_size(metrics()),
        (px(329), px(391))
    );
}

#[test]
fn today_button_returns_to_today_only_when_off_today() {
    // A fresh calendar is already on today: clicking the card is a no-op (no revision bump).
    let mut cal = Calendar::new(0, false, ymd(2026, 3, 10));
    cal.revision = 0;
    let layout = Layout::new(false, metrics());
    let card = layout.today_button();
    assert!(click(&mut cal, card), "the card is a hit region");
    assert_eq!(cal.revision, 0, "clicking the card while on today's month changes nothing");
    assert_eq!(cal.selected, cal.today);

    // Page away without selecting another day: the selection stays today but the view shows a
    // different month. Clicking the card must still snap the view back.
    click(&mut cal, layout.next_arrow());
    assert_eq!(cal.selected, cal.today, "paging keeps the selection put");
    assert_ne!(
        (cal.year, cal.month),
        (cal.today.year, cal.today.month),
        "paged off today's month"
    );
    let before = cal.revision;
    assert!(click(&mut cal, card));
    assert_eq!(
        (cal.year, cal.month),
        (cal.today.year, cal.today.month),
        "the card snaps the view back to today's month"
    );
    assert!(cal.revision > before, "snapping the view back bumps the revision");

    // Page away and select a different day, then click the card: selection and view both return.
    click(&mut cal, layout.next_arrow());
    click(&mut cal, layout.cell(3, 3));
    assert_ne!(cal.selected, cal.today, "moved off today");
    let before = cal.revision;
    assert!(click(&mut cal, card));
    assert_eq!(cal.selected, cal.today, "the card returns the selection to today");
    assert_eq!((cal.year, cal.month), (cal.today.year, cal.today.month));
    assert!(cal.revision > before, "returning to today bumps the revision");
}

#[test]
fn calendar_hover_tracks_regions() {
    let mut cal = Calendar::new(0, false, ymd(2026, 3, 10));
    let layout = Layout::new(false, metrics());

    let rev0 = cal.revision();
    assert!(hover(&mut cal, layout.today_button()));
    assert_eq!(cal.hovered, Some(CalHover::Today));
    assert!(cal.revision() > rev0, "a hover change bumps the revision");
    // Re-hovering the same region is a no-op (no redraw, no revision bump).
    let rev1 = cal.revision();
    assert!(!hover(&mut cal, layout.today_button()));
    assert_eq!(cal.revision(), rev1);

    assert!(hover(&mut cal, layout.next_arrow()));
    assert_eq!(cal.hovered, Some(CalHover::Next));

    assert!(hover(&mut cal, layout.cell(2, 3)));
    assert_eq!(cal.hovered, Some(CalHover::Cell(2 * GRID_COLS + 3)));

    assert!(cal.hover(metrics(), None), "leaving the calendar clears the hover");
    assert_eq!(cal.hovered, None);
}

#[test]
fn day_bounds_span_one_local_day() {
    let (since, until) = local_day_bounds(ymd(2026, 3, 10));
    assert_eq!(since, ymd(2026, 3, 10));
    assert_eq!(until, ymd(2026, 3, 11));
    assert_eq!(local_day_bounds(ymd(2026, 12, 31)).1, ymd(2027, 1, 1));
}

#[test]
fn grid_range_covers_the_whole_month_grid() {
    // The 42-cell grid spans six weeks and contains a day's own interval.
    let (since, until) = grid_range_of(2026, 7, 0);
    let number = |d: Ymd| day_number(d);
    assert_eq!(number(until) - number(since), 42);
    assert_eq!(since, ymd(2026, 6, 28));
    // July 15 sits inside July's grid.
    let (day_since, day_until) = local_day_bounds(ymd(2026, 7, 15));
    assert!(number(since) <= number(day_since) && number(day_until) <= number(until));
    assert_eq!(today_grid_range(0, ymd(2026, 7, 15)), (since, until));
}

#[test]
fn grid_range_tracks_the_displayed_month() {
    let mut cal = Calendar::new(0, false, ymd(2026, 3, 10));
    let r0 = cal.grid_range();
    assert!(cal.scroll(1), "a nonzero scroll pages the month");
    let r1 = cal.grid_range();
    assert_ne!(r0, r1, "the next month's grid range differs");
    assert!(cal.scroll(-1));
    assert_eq!(cal.grid_range(), r0, "and paging back shows the first again");
    assert!(!cal.scroll(0));
}

#[test]
fn paging_wraps_the_year() {
    let mut cal = Calendar::new(0, false, ymd(2026, 12, 10));
    cal.scroll(1);
    assert_eq!((cal.year, cal.month), (2027, 1));
    cal.scroll(-1);
    cal.scroll(-1);
    assert_eq!((cal.year, cal.month), (2026, 11));
    assert_eq!(cal.selected(), ymd(2026, 12, 10));
    assert_eq!(cal.selected_day_bounds(), (ymd(2026, 12, 10), ymd(2026, 12, 11)));
}

#[test]
fn columns_are_weekdays() {
    for week_start in 0..7u8 {
        let cal = Calendar::new(week_start, false, ymd(2026, 3, 10));
        for (i, date) in month_grid(2026, 3, week_start).iter().enumerate() {
            let weekday = synoik_ui::dates::weekday(*date) as usize;
            assert_eq!(weekday, cal.column_weekday(i % GRID_COLS));
        }
    }
}

#[test]
fn the_gaps_are_no_region() {
    let mut cal = Calendar::new(0, true, ymd(2026, 3, 10));
    let layout = Layout::new(true, metrics());
    // The margin, the week numbers and the gap between the cards answer nothing.
    assert_eq!(layout.region_at(0, 0), None);
    let first = layout.cell(0, 0);
    let beside = ((first.x - px(10)) as i64, (first.y + px(5)) as i64);
    assert_eq!(layout.region_at(beside.0, beside.1), None);
    let card = layout.calendar_card();
    assert_eq!(layout.region_at(card.x as i64, (card.y - px(1)) as i64), None);
    // A click there is taken without doing anything; one off the column is not.
    let revision = cal.revision;
    assert!(cal.pointer_click(metrics(), 0, 0));
    assert!(!cal.pointer_click(metrics(), -1, 0));
    assert_eq!(cal.revision, revision);
    assert!(!cal.hover(metrics(), Some((0, 0))));
    // Areas hold their first corner and not the one past them.
    let last = layout.cell(5, 6);
    assert_eq!(layout.region_at(last.x as i64, last.y as i64), Some(CalHover::Cell(41)));
    assert_eq!(layout.region_at((last.x + last.w) as i64, last.y as i64), None);
    let prev = center(layout.prev_arrow());
    assert_eq!(layout.region_at(prev.0, prev.1), Some(CalHover::Prev));
}

#[test]
fn week_numbers_name_the_rows() {
    let cal = Calendar::new(1, true, ymd(2024, 1, 10));
    assert_eq!(cal.week_numbers(), [1, 2, 3, 4, 5, 6]);
    let cal = Calendar::new(1, true, ymd(2027, 1, 10));
    assert_eq!(cal.week_numbers()[0], 53, "Friday the 1st is in the old year's last week");
    let cal = Calendar::new(1, false, ymd(2024, 1, 10));
    assert!(cal.week_numbers().is_empty());
}

#[test]
fn day_cells_tell_today_from_selected() {
    // March 2026: the 10th is a Tuesday, the 14th a Saturday.
    let mut cal = Calendar::new(0, false, ymd(2026, 3, 10));
    cal.selected = ymd(2026, 3, 14);
    cal.hovered = Some(CalHover::Cell(9));

    let today = cal.day_cell(9, ymd(2026, 3, 10));
    assert_eq!(today.label, "10");
    assert!(today.bold && today.wash);
    assert_eq!((today.color, today.disc), (DayColor::Text, DayDisc::Accent));

    let selected = cal.day_cell(13, ymd(2026, 3, 14));
    assert!(selected.bold && !selected.wash);
    assert_eq!((selected.color, selected.disc), (DayColor::Weekend, DayDisc::Selected));

    let other = cal.day_cell(41, ymd(2026, 4, 11));
    assert!(!other.bold);
    assert_eq!((other.color, other.disc), (DayColor::Dim, DayDisc::Plain));
}

#[test]
fn the_title_names_another_year() {
    let mut cal = Calendar::new(0, false, ymd(2026, 3, 10));
    assert_eq!(cal.title("March"), "March");
    cal.year = 2027;
    assert_eq!(cal.title("March"), "March 2027");
    cal.year = -44;
    assert_eq!(cal.title("March"), "March -44");
    assert_eq!(signed_decimal(0), "0");
    assert_eq!(signed_decimal(i32::MIN), "-2147483648");
}

#[test]
fn weekday_abbreviations_are_one_letter() {
    assert_eq!(weekday_abbrev("Monday"), "M");
    assert_eq!(weekday_abbrev("Ötag"), "Ö");
    assert_eq!(weekday_abbrev(""), "");
}

fn plan_of(cal: &Calendar) -> CalendarPlan {
    let px = |n: i64| n * UNITS as i64;
    let text = CalText { day_row: px(19), date_row: px(25), weeks: vec![(px(12), px(9)); 6] };
    let words = CalWords {
        month: "Month".to_owned(),
        today_month: "March".to_owned(),
        today_weekday: "Tuesday".to_owned(),
        weekdays: ["Sun", "Mon", "Tue", "Wed", "Thu", "Fri", "Sat"].map(str::to_owned).to_vec(),
    };
    cal.draw_plan(metrics(), &text, &words)
}

fn spot(x: i128, y: i128) -> Spot {
    Spot { x: x * UNITS, y: y * UNITS }
}

#[test]
fn the_plan_places_every_line() {
    let mut cal = Calendar::new(0, true, ymd(2026, 3, 10));
    let plan = plan_of(&cal);
    // The card starts 4 px in, with a border and 9 px of padding; its lines are 19 and 25 px.
    assert_eq!(plan.day_label.at, spot(28, 28 + 19));
    assert_eq!(plan.date_label.at, spot(28, 28 + 38 + 25));
    assert_eq!(plan.today_wash, None);
    assert_eq!(plan.prev.wash, None);
    // The header is centred on the whole column.
    assert_eq!(plan.title.at, spot(329, 2 * 79 + 38));
    // Columns are 40 px, right of the week numbers.
    assert_eq!(plan.weekdays.len(), 7);
    assert_eq!(plan.weekdays[0].at, spot(2 * (5 + 39) + 40, 2 * (79 + 38) + 29));
    assert_eq!(plan.weekdays[6].at.x - plan.weekdays[0].at.x, 2 * px(240));
    assert_eq!(plan.weeks.len(), 6);
    assert_eq!(plan.weeks[0].week, 9);
    assert_eq!(plan.weeks[0].pill.w, 2 * px(24));
    assert_eq!(plan.weeks[0].pill.h, 2 * px(15));
    assert_eq!(plan.weeks[1].pill.x + px(24), plan.weeks[1].at.x);
    assert_eq!(plan.days.len(), 42);
    assert_eq!(plan.days[9].date, ymd(2026, 3, 10));
    assert_eq!(plan.days[9].cell.disc, DayDisc::Accent);
    assert_eq!(plan.days[9].disc.w, 2 * px(39));

    cal.hovered = Some(CalHover::Next);
    let plan = plan_of(&cal);
    let disc = plan.next.wash.unwrap();
    assert_eq!(disc.x + px(39), plan.next.at.x);
    assert_eq!(plan.prev.wash, None);
    cal.hovered = Some(CalHover::Today);
    assert_eq!(
        plan_of(&cal).today_wash,
        Some(Layout::new(true, metrics()).today_button())
    );
    cal.hovered = Some(CalHover::Cell(3));
    assert!(plan_of(&cal).days[3].cell.wash);
}

#[test]
fn headings_line_up_with_their_days() {
    let plan = plan_of(&Calendar::new(1, true, ymd(2026, 3, 10)));
    for (i, day) in plan.days.iter().enumerate() {
        assert_eq!(day.at.x, plan.weekdays[i % 7].at.x);
        assert_eq!(day.at.y, plan.weeks[i / 7].at.y);
    }
    for pair in plan.days[..7].windows(2) {
        assert!(pair[0].disc.x + pair[0].disc.w < pair[1].disc.x);
    }
    let bare = plan_of(&Calendar::new(1, false, ymd(2026, 3, 10)));
    assert!(bare.weeks.is_empty());
    assert_eq!(plan.weekdays[0].at.x - bare.weekdays[0].at.x, 2 * px(39));
}

#[test]
fn the_today_card_names_the_date() {
    let cal = Calendar::new(1, true, ymd(2026, 3, 10));
    assert_eq!(cal.today_date("March"), "March 10 2026");
}

#[test]
fn the_plan_says_what_each_line_reads() {
    let letters = |cal: &Calendar| -> String {
        plan_of(cal).weekdays.iter().map(|l| l.text.clone()).collect()
    };
    let mut cal = Calendar::new(0, true, ymd(2026, 3, 10));
    assert_eq!(letters(&cal), "SMTWTFS");
    assert_eq!(letters(&Calendar::new(1, true, ymd(2026, 3, 10))), "MTWTFSS");
    let plan = plan_of(&cal);
    assert_eq!(plan.day_label.text, "Tuesday");
    assert_eq!(plan.date_label.text, "March 10 2026");
    assert_eq!(plan.title.text, "Month");
    cal.year = 2025;
    assert_eq!(plan_of(&cal).title.text, "Month 2025");
}
