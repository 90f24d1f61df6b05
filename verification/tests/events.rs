//! The Events section.

use synoik_ui::dates::{add_days, Ymd};
use synoik_ui::events::{
    events_section_model, events_title, format_event_time, format_time, CalendarEvent, DayClock,
    LocalMoment, MAX_EVENT_ROWS,
};

const EN_DASH: &str = "–";

fn ymd(year: i32, month: u32, day: u32) -> Ymd {
    Ymd { year, month, day }
}

/// 2026-06-15 00:00, in a zone without an offset.
const DAY_START: i64 = 1_781_481_600;

const DAY: Ymd = Ymd { year: 2026, month: 6, day: 15 };

fn date_text(date: Ymd) -> String {
    format!("{:02}/{:02}/{}", date.month, date.day, date.year)
}

/// The moment at `seconds` past the start of the day.
fn moment(seconds: i64) -> LocalMoment {
    let date = add_days(DAY, seconds.div_euclid(86_400));
    let of_day = seconds.rem_euclid(86_400) as u32;
    LocalMoment {
        date,
        hour: of_day / 3600,
        minute: of_day / 60 % 60,
        second: of_day % 60,
        date_text: date_text(date),
        date_before_text: date_text(add_days(date, -1)),
        half_text: if of_day < 43_200 { "AM".to_owned() } else { "PM".to_owned() },
    }
}

fn event(from: i64, to: i64) -> CalendarEvent {
    CalendarEvent {
        summary: "Standup".to_owned(),
        start: DAY_START + from,
        end: DAY_START + to,
        start_local: moment(from),
        end_local: moment(to),
    }
}

fn clock() -> DayClock {
    DayClock {
        selected: DAY,
        day_start: DAY_START,
        day_end: DAY_START + 86_400,
        today: DAY,
        is_24h: true,
    }
}

/// The clock for the day `days` from today.
fn away(days: i64) -> DayClock {
    DayClock {
        selected: add_days(DAY, days),
        day_start: DAY_START + days * 86_400,
        day_end: DAY_START + (days + 1) * 86_400,
        ..clock()
    }
}

#[test]
fn events_title_relative_buckets() {
    assert_eq!(events_title(&away(0), "June"), "Today");
    assert_eq!(events_title(&away(-1), "June"), "Yesterday");
    assert_eq!(events_title(&away(1), "June"), "Tomorrow");
    // A day well away from now is a formatted date, not a bucket.
    let far = events_title(&away(40), "July");
    assert!(!["Today", "Yesterday", "Tomorrow"].contains(&far.as_str()) && !far.is_empty());
    assert_eq!(far, "July 25");
    assert_eq!(events_title(&away(-2), "June"), "June 13");
    assert_eq!(events_title(&away(2), "June"), "June 17");
    assert_eq!(events_title(&away(200), "January"), "January 1 2027");
}

#[test]
fn the_buckets_end_where_the_days_do() {
    // The day after June 15 is 25 hours long: its last hour is still the day after.
    let long = DayClock { today: ymd(2026, 6, 16), day_end: DAY_START + 86_400, ..clock() };
    assert_eq!(events_title(&long, "June"), "Yesterday");
    let title = |today: Ymd| events_title(&DayClock { today, ..clock() }, "June");
    assert_eq!(title(ymd(2026, 6, 13)), "June 15");
    assert_eq!(title(ymd(2026, 6, 14)), "Tomorrow");
    assert_eq!(title(ymd(2026, 6, 15)), "Today");
    assert_eq!(title(ymd(2026, 6, 17)), "June 15");
    assert_eq!(title(ymd(2025, 6, 15)), "June 15 2026");
    // Over a year's end.
    let eve = DayClock { selected: ymd(2025, 12, 31), today: ymd(2026, 1, 1), ..clock() };
    assert_eq!(events_title(&eve, "December"), "Yesterday");
}

#[test]
fn format_event_time_structure() {
    assert_eq!(format_event_time(&event(0, 86_400), &clock()), "All Day");
    // In-day range: an en dash between two times.
    let r = format_event_time(&event(3600, 7200), &clock());
    assert!(r.contains(EN_DASH), "range uses en dash: {r}");
    assert_eq!(r, "01:00 – 02:00");
    // Zero-length in-day: a single time, no dash.
    let z = format_event_time(&event(3600, 3600), &clock());
    assert!(!z.contains(EN_DASH) && !z.is_empty(), "zero-length shows one time: {z}");
    assert_eq!(z, "01:00");
    // Ends after today: multi-day, still a dash-joined range.
    let m = format_event_time(&event(3600, 86_400 + 7200), &clock());
    assert!(m.contains(EN_DASH), "multi-day uses en dash: {m}");
    assert_eq!(m, "06/15 01:00 – 06/16 02:00");
}

#[test]
fn midnight_end_shows_the_previous_calendar_day() {
    let s = format_event_time(&event(-3600, 2 * 86_400), &clock());
    // The shown end date is the day after, never the one past it.
    assert!(s.contains("06/16"), "midnight end shows 06/16: {s}");
    assert!(!s.contains("06/17"), "midnight end must not show 06/17: {s}");
    assert_eq!(s, "06/14 23:00 – 06/16 00:00");
    // From midnight to midnight there are no times to tell.
    assert_eq!(format_event_time(&event(-86_400, 2 * 86_400), &clock()), "06/14 – 06/16");
}

#[test]
fn dates_of_another_year_are_in_the_locales_form() {
    let then = DayClock { today: ymd(2025, 6, 15), ..clock() };
    assert_eq!(
        format_event_time(&event(-3600, 2 * 86_400), &then),
        "06/14/2026 23:00 – 06/16/2026 00:00"
    );
    assert_eq!(
        format_event_time(&event(3600, 86_400 + 7200), &then),
        "06/15/2026 01:00 – 06/16/2026 02:00"
    );
    // An end that midnight takes back over the new year is of the old one.
    let mut new_year = event(-3600, 86_400 * 2);
    new_year.end_local = LocalMoment { date: ymd(2027, 1, 1), ..moment(0) };
    assert_eq!(format_event_time(&new_year, &clock()), "06/14 23:00 – 12/31 00:00");
}

#[test]
fn clock_faces_have_no_zero() {
    let at = |seconds: i64| format_time(&moment(seconds), false);
    assert_eq!(at(0), "12:00 AM");
    assert_eq!(at(5 * 60), "12:05 AM");
    assert_eq!(at(9 * 3600 + 30 * 60), "9:30 AM");
    assert_eq!(at(12 * 3600), "12:00 PM");
    assert_eq!(at(13 * 3600), "1:00 PM");
    assert_eq!(format_time(&moment(9 * 3600 + 5 * 60), true), "09:05");
    assert_eq!(format_time(&moment(23 * 3600 + 59 * 60), true), "23:59");
}

#[test]
fn the_section_lists_the_days_events() {
    let events = vec![event(0, 86_400), event(9 * 3600, 9 * 3600 + 900)];
    let model = events_section_model(&events, true, &clock(), "June");
    assert!(model.visible);
    assert_eq!(model.title, "Today");
    let times: Vec<&str> = model.rows.iter().map(|r| r.time.as_str()).collect();
    assert_eq!(times, ["All Day", "09:00 – 09:15"]);
    assert_eq!(model.rows[1].summary, "Standup");

    assert!(!events_section_model(&Vec::new(), false, &clock(), "June").visible);
    let many: Vec<CalendarEvent> = (0..200).map(|i| event(i, i)).collect();
    assert_eq!(events_section_model(&many, true, &clock(), "June").rows.len(), MAX_EVENT_ROWS);
}
