//! The date menu's Events section: the selected day's title, and when each event is.
//!
//! What a moment is called in the local time zone and in the user's language comes from the
//! caller: the date and time it falls on, and the words for them.

use vstd::prelude::*;
use vstd::string::*;

use crate::calendar::{signed_decimal, year_text};
use crate::dates::{add_days, day_number, in_range, Ymd};
use crate::text::{decimal, digits};

verus! {

/// The most events the section lists.
pub const MAX_EVENT_ROWS: usize = 128;

/// A moment in local time.
pub struct LocalMoment {
    pub date: Ymd,
    pub hour: u32,
    pub minute: u32,
    pub second: u32,
    /// The date in the locale's own form, and that of the day before.
    pub date_text: String,
    pub date_before_text: String,
    /// The locale's word for the half of the day.
    pub half_text: String,
}

impl LocalMoment {
    pub open spec fn midnight(&self) -> bool {
        self.hour == 0 && self.minute == 0 && self.second == 0
    }

    /// The date, and the day before it, are ones that can be written down.
    pub open spec fn wf(&self) -> bool {
        self.date.month <= i32::MAX && self.date.day <= i32::MAX && in_range(
            self.date.number() - 1,
        )
    }
}

/// An event of the day.
pub struct CalendarEvent {
    pub summary: String,
    /// Seconds of Unix time.
    pub start: i64,
    pub end: i64,
    pub start_local: LocalMoment,
    pub end_local: LocalMoment,
}

/// A listed event.
#[derive(Debug, PartialEq, Eq)]
pub struct EventRow {
    pub summary: String,
    pub time: String,
}

/// The Events section for a given day.
#[derive(Debug, PartialEq, Eq)]
pub struct EventsSectionModel {
    /// There are calendars to show events of.
    pub visible: bool,
    pub title: String,
    /// The day's events; none is shown as such.
    pub rows: Vec<EventRow>,
}

/// The day that the section is about, and the clock by which it is named.
#[derive(Clone, Copy, Debug, PartialEq, Eq, Structural)]
pub struct DayClock {
    pub selected: Ymd,
    /// The day's first second, and the first that is past it.
    pub day_start: i64,
    pub day_end: i64,
    /// The local date it is now.
    pub today: Ymd,
    pub is_24h: bool,
}

impl DayClock {
    /// Both dates are ones that can be counted.
    pub open spec fn wf(self) -> bool {
        &&& self.selected.month <= i32::MAX
        &&& self.selected.day <= i32::MAX
        &&& self.today.month <= i32::MAX
        &&& self.today.day <= i32::MAX
    }

    /// How many days the selected day is from today.
    pub open spec fn days_away(self) -> int {
        self.selected.number() - self.today.number()
    }
}

/// A number in two digits, or more where it takes more.
pub open spec fn two_digits(n: nat) -> Seq<char> {
    if n < 10 {
        "0"@ + digits(n)
    } else {
        digits(n)
    }
}

fn pad2(n: u32) -> (text: String)
    ensures
        text@ == two_digits(n as nat),
{
    let number = decimal(n as u64);
    if n < 10 {
        let mut text = "0".to_owned();
        text.append(number.as_str());
        text
    } else {
        number
    }
}

/// The hour on a clock's face.
pub open spec fn hour_12(hour: int) -> int {
    if hour % 12 == 0 {
        12
    } else {
        hour % 12
    }
}

/// A time of day: hours and minutes, on a 24-hour clock or on a face with the half of the
/// day.
pub open spec fn time_text(moment: LocalMoment, is_24h: bool) -> Seq<char> {
    if is_24h {
        two_digits(moment.hour as nat) + ":"@ + two_digits(moment.minute as nat)
    } else {
        digits(hour_12(moment.hour as int) as nat) + ":"@ + two_digits(moment.minute as nat) + " "@
            + moment.half_text@
    }
}

/// A moment's time of day.
pub fn format_time(moment: &LocalMoment, is_24h: bool) -> (text: String)
    ensures
        text@ == time_text(*moment, is_24h),
{
    let minutes = pad2(moment.minute);
    if is_24h {
        let mut text = pad2(moment.hour);
        text.append(":");
        text.append(minutes.as_str());
        text
    } else {
        let hour: u32 = if moment.hour % 12 == 0 {
            12
        } else {
            moment.hour % 12
        };
        let mut text = decimal(hour as u64);
        text.append(":");
        text.append(minutes.as_str());
        text.append(" ");
        text.append(moment.half_text.as_str());
        text
    }
}

/// Month and day in digits.
pub open spec fn month_day(date: Ymd) -> Seq<char> {
    two_digits(date.month as nat) + "/"@ + two_digits(date.day as nat)
}

fn month_day_text(date: Ymd) -> (text: String)
    ensures
        text@ == month_day(date),
{
    let mut text = pad2(date.month);
    text.append("/");
    let day = pad2(date.day);
    text.append(day.as_str());
    text
}

/// The date an event's end is shown under: an end at midnight belongs to the day before, by
/// the calendar and not by a count of seconds.
pub open spec fn shown_end(end: LocalMoment, shown: Ymd) -> bool {
    if end.midnight() {
        shown.valid() && shown.number() == end.date.number() - 1
    } else {
        shown == end.date
    }
}

/// An event that starts before the day or ends after it, with its end shown under `shown`:
/// the date on either side, and the time too unless both are midnights. Dates of this year
/// are month and day, others are in the locale's form.
pub open spec fn span_text(
    start: LocalMoment,
    end: LocalMoment,
    shown: Ymd,
    this_year: i32,
    is_24h: bool,
) -> Seq<char> {
    let short = start.date.year == this_year && this_year == shown.year;
    let from = if short {
        month_day(start.date)
    } else {
        start.date_text@
    };
    let to = if short {
        month_day(shown)
    } else if end.midnight() {
        end.date_before_text@
    } else {
        end.date_text@
    };
    if start.midnight() && end.midnight() {
        from + " – "@ + to
    } else {
        from + " "@ + time_text(start, is_24h) + " – "@ + to + " "@ + time_text(end, is_24h)
    }
}

/// The event starts before the day or ends after it.
pub open spec fn spills(start: i64, end: i64, day_start: i64, day_end: i64) -> bool {
    start < day_start || end > day_end
}

/// When an event is, for a given day.
pub open spec fn event_time(event: CalendarEvent, clock: DayClock, text: Seq<char>) -> bool {
    if event.start == clock.day_start && event.end == clock.day_end {
        text == "All Day"@
    } else if spills(event.start, event.end, clock.day_start, clock.day_end) {
        exists|shown: Ymd| #[trigger]
            shown_end(event.end_local, shown) && text == span_text(
                event.start_local,
                event.end_local,
                shown,
                clock.today.year,
                clock.is_24h,
            )
    } else if event.start == event.end {
        text == time_text(event.start_local, clock.is_24h)
    } else {
        text == time_text(event.start_local, clock.is_24h) + " – "@ + time_text(
            event.end_local,
            clock.is_24h,
        )
    }
}

/// An event's time for a given day.
pub fn format_event_time(event: &CalendarEvent, clock: &DayClock) -> (text: String)
    requires
        event.end_local.wf(),
    ensures
        event_time(*event, *clock, text@),
{
    if event.start == clock.day_start && event.end == clock.day_end {
        return "All Day".to_owned();
    }
    let start = &event.start_local;
    let end = &event.end_local;
    if event.start < clock.day_start || event.end > clock.day_end {
        let start_mid = start.hour == 0 && start.minute == 0 && start.second == 0;
        let end_mid = end.hour == 0 && end.minute == 0 && end.second == 0;
        let shown = if end_mid {
            add_days(end.date, -1)
        } else {
            end.date
        };
        assert(shown_end(event.end_local, shown));
        let short = start.date.year == clock.today.year && clock.today.year == shown.year;
        let mut text = if short {
            month_day_text(start.date)
        } else {
            start.date_text.clone()
        };
        let to = if short {
            month_day_text(shown)
        } else if end_mid {
            end.date_before_text.clone()
        } else {
            end.date_text.clone()
        };
        if start_mid && end_mid {
            text.append(" – ");
            text.append(to.as_str());
        } else {
            let start_time = format_time(start, clock.is_24h);
            let end_time = format_time(end, clock.is_24h);
            text.append(" ");
            text.append(start_time.as_str());
            text.append(" – ");
            text.append(to.as_str());
            text.append(" ");
            text.append(end_time.as_str());
        }
        return text;
    }
    let mut text = format_time(start, clock.is_24h);
    if event.start != event.end {
        text.append(" – ");
        let end_time = format_time(end, clock.is_24h);
        text.append(end_time.as_str());
    }
    text
}

/// What the section calls its day: by its distance from today in days of the calendar, however
/// many hours those have, or by its date, with the year where that is another.
pub open spec fn day_title(clock: DayClock, month_name: Seq<char>) -> Seq<char> {
    if clock.days_away() == 0 {
        "Today"@
    } else if clock.days_away() == -1 {
        "Yesterday"@
    } else if clock.days_away() == 1 {
        "Tomorrow"@
    } else if clock.selected.year == clock.today.year {
        month_name + " "@ + digits(clock.selected.day as nat)
    } else {
        month_name + " "@ + digits(clock.selected.day as nat) + " "@ + year_text(
            clock.selected.year as int,
        )
    }
}

/// The section's title. `month_name` is the selected month's.
pub fn events_title(clock: &DayClock, month_name: &str) -> (title: String)
    requires
        clock.wf(),
    ensures
        title@ == day_title(*clock, month_name@),
{
    let away: i128 = day_number(clock.selected) as i128 - day_number(clock.today) as i128;
    if away == 0 {
        "Today".to_owned()
    } else if away == -1 {
        "Yesterday".to_owned()
    } else if away == 1 {
        "Tomorrow".to_owned()
    } else {
        let mut title = month_name.to_owned();
        title.append(" ");
        let day = decimal(clock.selected.day as u64);
        title.append(day.as_str());
        if clock.selected.year != clock.today.year {
            title.append(" ");
            let year = signed_decimal(clock.selected.year);
            title.append(year.as_str());
        }
        title
    }
}

/// Build the section for the selected day from its events, in their order.
pub fn events_section_model(
    events: &Vec<CalendarEvent>,
    has_calendars: bool,
    clock: &DayClock,
    month_name: &str,
) -> (model: EventsSectionModel)
    requires
        clock.wf(),
        forall|i: int| 0 <= i < events@.len() ==> (#[trigger] events@[i]).end_local.wf(),
    ensures
        model.visible == has_calendars,
        model.title@ == day_title(*clock, month_name@),
        model.rows@.len() == if events@.len() <= MAX_EVENT_ROWS {
            events@.len() as int
        } else {
            MAX_EVENT_ROWS as int
        },
        forall|i: int|
            0 <= i < model.rows@.len() ==> {
                &&& (#[trigger] model.rows@[i]).summary@ == events@[i].summary@
                &&& event_time(events@[i], *clock, model.rows@[i].time@)
            },
{
    let mut rows: Vec<EventRow> = Vec::new();
    let mut i: usize = 0;
    while i < events.len() && i < MAX_EVENT_ROWS
        invariant
            i <= events@.len(),
            i <= MAX_EVENT_ROWS,
            forall|j: int| 0 <= j < events@.len() ==> (#[trigger] events@[j]).end_local.wf(),
            rows@.len() == i,
            forall|j: int|
                0 <= j < i ==> {
                    &&& (#[trigger] rows@[j]).summary@ == events@[j].summary@
                    &&& event_time(events@[j], *clock, rows@[j].time@)
                },
        decreases events@.len() - i,
    {
        let event = &events[i];
        assert(events@[i as int].end_local.wf());
        rows.push(
            EventRow { summary: event.summary.clone(), time: format_event_time(event, clock) },
        );
        i = i + 1;
    }
    EventsSectionModel { visible: has_calendars, title: events_title(clock, month_name), rows }
}

/// Today, the day before and the day after have titles of their own, and no other day has one of
/// these.
pub proof fn law_three_days_are_named(clock: DayClock, month_name: Seq<char>)
    ensures
        clock.days_away() == 0 <==> day_title(clock, month_name) == "Today"@,
        clock.days_away() == -1 <==> day_title(clock, month_name) == "Yesterday"@,
        clock.days_away() == 1 <==> day_title(clock, month_name) == "Tomorrow"@,
{
    reveal_strlit("Today");
    reveal_strlit("Yesterday");
    reveal_strlit("Tomorrow");
    reveal_strlit(" ");
    let title = day_title(clock, month_name);
    if !(-1 <= clock.days_away() <= 1) {
        let gap = month_name.len() as int;
        assert(title[gap] == ' ');
        assert(forall|i: int| 0 <= i < 5 ==> "Today"@[i] != ' ');
        assert(forall|i: int| 0 <= i < 9 ==> "Yesterday"@[i] != ' ');
        assert(forall|i: int| 0 <= i < 8 ==> "Tomorrow"@[i] != ' ');
        assert(gap < title.len());
    }
    assert("Today"@[0] == 'T' && "Tomorrow"@[0] == 'T' && "Yesterday"@[0] == 'Y');
    assert("Today"@.len() != "Tomorrow"@.len());
}

/// A time of day on a clock of twenty-four hours has two digits for the hour; on a clock's
/// face the hours run from twelve over one to eleven, in either half of the day.
pub proof fn law_a_time_reads_as_on_a_clock(moment: LocalMoment, is_24h: bool, text: String)
    requires
        moment.hour < 24,
        moment.minute < 60,
        call_ensures(format_time, (&moment, is_24h), text),
    ensures
        ({
            let minutes = ":"@ + if moment.minute < 10 {
                "0"@ + digits(moment.minute as nat)
            } else {
                digits(moment.minute as nat)
            };
            let half = " "@ + moment.half_text@;
            &&& is_24h && moment.hour < 10 ==> text@ == "0"@ + digits(moment.hour as nat) + minutes
            &&& is_24h && moment.hour >= 10 ==> text@ == digits(moment.hour as nat) + minutes
            &&& !is_24h && (moment.hour == 0 || moment.hour == 12) ==> text@ == digits(12)
                + minutes + half
            &&& !is_24h && 0 < moment.hour < 12 ==> text@ == digits(moment.hour as nat) + minutes
                + half
            &&& !is_24h && moment.hour > 12 ==> text@ == digits((moment.hour - 12) as nat)
                + minutes + half
        }),
{
    let minutes = ":"@ + two_digits(moment.minute as nat);
    let half = " "@ + moment.half_text@;
    let hours = if is_24h {
        two_digits(moment.hour as nat)
    } else {
        digits(hour_12(moment.hour as int) as nat)
    };
    if is_24h {
        assert(text@ =~= hours + minutes);
    } else {
        assert(text@ =~= hours + minutes + half);
    }
}

/// An event that fills the day is said to; one within it is given from its start to its end,
/// or by its start alone if it is over at once.
pub proof fn law_an_event_reads_from_start_to_end(
    event: CalendarEvent,
    clock: DayClock,
    from: String,
    to: String,
    text: String,
)
    requires
        call_ensures(format_time, (&event.start_local, clock.is_24h), from),
        call_ensures(format_time, (&event.end_local, clock.is_24h), to),
        call_ensures(format_event_time, (&event, &clock), text),
        clock.day_start <= event.start <= event.end <= clock.day_end,
    ensures
        event.start == clock.day_start && event.end == clock.day_end ==> text@ == "All Day"@,
        !(event.start == clock.day_start && event.end == clock.day_end) && event.start
            == event.end ==> text@ == from@,
        !(event.start == clock.day_start && event.end == clock.day_end) && event.start
            < event.end ==> text@ == from@ + " – "@ + to@,
{
}

/// An event of several days is given by its dates, the last being the day before where it ends
/// at midnight; the times stand with them unless both ends are midnights.
pub proof fn law_a_long_event_reads_by_its_dates(
    event: CalendarEvent,
    clock: DayClock,
    from: String,
    to: String,
    last: Ymd,
    text: String,
)
    requires
        event.end_local.wf(),
        event.end_local.date.valid(),
        event.start < clock.day_start || event.end > clock.day_end,
        call_ensures(format_time, (&event.start_local, clock.is_24h), from),
        call_ensures(format_time, (&event.end_local, clock.is_24h), to),
        call_ensures(format_event_time, (&event, &clock), text),
        ({
            let end = event.end_local;
            if end.hour == 0 && end.minute == 0 && end.second == 0 {
                call_ensures(add_days, (end.date, -1i64), last)
            } else {
                last == end.date
            }
        }),
    ensures
        ({
            let (start, end) = (event.start_local, event.end_local);
            let end_mid = end.hour == 0 && end.minute == 0 && end.second == 0;
            let start_mid = start.hour == 0 && start.minute == 0 && start.second == 0;
            let this_year = start.date.year == clock.today.year && last.year == clock.today.year;
            let since = if this_year {
                two_digits(start.date.month as nat) + "/"@ + two_digits(start.date.day as nat)
            } else {
                start.date_text@
            };
            let until = if this_year {
                two_digits(last.month as nat) + "/"@ + two_digits(last.day as nat)
            } else if end_mid {
                end.date_before_text@
            } else {
                end.date_text@
            };
            &&& start_mid && end_mid ==> text@ == since + " – "@ + until
            &&& !(start_mid && end_mid) ==> text@ == since + " "@ + from@ + " – "@ + until + " "@
                + to@
        }),
{
    assert(spills(event.start, event.end, clock.day_start, clock.day_end));
    if !(event.start == clock.day_start && event.end == clock.day_end) {
        let shown = choose|shown: Ymd| #[trigger]
            shown_end(event.end_local, shown) && text@ == span_text(
                event.start_local,
                event.end_local,
                shown,
                clock.today.year,
                clock.is_24h,
            );
        assert(shown_end(event.end_local, shown));
        if event.end_local.midnight() {
            crate::dates::law_day_numbers_tell_dates_apart(shown, last);
        }
        assert(shown == last);
    }
}

/// Today, yesterday and tomorrow are called so, by the calendar; any other day by its date,
/// with the year if that is another one.
pub proof fn law_a_day_is_called_by_its_distance(
    clock: DayClock,
    month_name: &str,
    delta: i64,
    day: Ymd,
    title: String,
)
    requires
        clock.wf(),
        clock.selected.valid(),
        clock.today.valid(),
        call_ensures(add_days, (clock.today, delta), day),
        clock.selected == day,
        call_ensures(events_title, (&clock, month_name), title),
    ensures
        delta == 0 ==> title@ == "Today"@,
        delta == 1 ==> title@ == "Tomorrow"@,
        delta == -1 ==> title@ == "Yesterday"@,
        (delta > 1 || delta < -1) && day.year == clock.today.year ==> title@ == month_name@ + " "@
            + digits(day.day as nat),
        (delta > 1 || delta < -1) && day.year != clock.today.year ==> title@ == month_name@ + " "@
            + digits(day.day as nat) + " "@ + year_text(day.year as int),
{
}

/// The section lists the day's events in their order, as many as it can, under the day's
/// title, and shows if there are calendars.
pub proof fn law_the_section_lists_the_days_events(
    events: Vec<CalendarEvent>,
    has_calendars: bool,
    clock: DayClock,
    month_name: &str,
    title: String,
    model: EventsSectionModel,
    i: int,
)
    requires
        call_ensures(events_title, (&clock, month_name), title),
        call_ensures(events_section_model, (&events, has_calendars, &clock, month_name), model),
        0 <= i < events@.len(),
    ensures
        model.visible == has_calendars,
        model.title@ == title@,
        events@.len() <= 128 ==> model.rows@.len() == events@.len(),
        events@.len() > 128 ==> model.rows@.len() == 128,
{
}

} // verus!
