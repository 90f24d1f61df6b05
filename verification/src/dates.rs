//! Calendar dates, by way of a count of days.
//!
//! Day 1 is the first of January of the year 1, in the Gregorian calendar carried back and
//! forth without end. Day numbers turn steps across months and years into sums.

use vstd::prelude::*;

verus! {

/// A date.
#[derive(Clone, Copy, Debug, PartialEq, Eq, Structural)]
pub struct Ymd {
    pub year: i32,
    pub month: u32,
    pub day: u32,
}

/// A year with a 29th of February.
pub open spec fn leap(year: int) -> bool {
    (year % 4 == 0 && year % 100 != 0) || year % 400 == 0
}

/// How many days a month has. A number that is no month's counts as a short one.
pub open spec fn month_len(year: int, month: int) -> int {
    if month == 2 {
        if leap(year) {
            29
        } else {
            28
        }
    } else if month == 1 || month == 3 || month == 5 || month == 7 || month == 8 || month == 10
        || month == 12 {
        31
    } else {
        30
    }
}

/// The days of all years from the year 1 up to `year`, and less than none before it.
pub open spec fn days_before_year(year: int) -> int {
    365 * (year - 1) + (year - 1) / 4 - (year - 1) / 100 + (year - 1) / 400
}

/// The days of a year's months before `month`.
pub open spec fn days_before_month(year: int, month: int) -> int
    decreases month,
{
    if month <= 1 {
        0
    } else {
        days_before_month(year, month - 1) + month_len(year, month - 1)
    }
}

impl Ymd {
    /// A day that the calendar has.
    pub open spec fn valid(self) -> bool {
        &&& 1 <= self.month <= 12
        &&& 1 <= self.day <= month_len(self.year as int, self.month as int)
    }

    /// The day's place in its year, from 1.
    pub open spec fn day_of_year(self) -> int {
        days_before_month(self.year as int, self.month as int) + self.day
    }

    /// The count of days up to and including this one. A month past the twelfth, or before
    /// the first, belongs to another year; a day past the month's last belongs to a later
    /// month.
    pub open spec fn number(self) -> int {
        let year = self.year + (self.month - 1) / 12;
        let month = (self.month - 1) % 12 + 1;
        days_before_year(year) + days_before_month(year, month) + self.day
    }
}

/// A day of a year that a date can hold, and that the C library counts from 1900.
pub open spec fn in_range(number: int) -> bool {
    days_before_year(i32::MIN + 1900) < number <= days_before_year(i32::MAX + 1)
}

/// The weekday of a day, with Sunday as 0: the first day of the year 1 was a Monday.
pub open spec fn weekday_of(number: int) -> int {
    number % 7
}

fn floor_div(a: i64, b: i64) -> (q: i64)
    requires
        b > 0,
    ensures
        q == a as int / b as int,
{
    assert(i64::MIN <= (a as int) / (b as int) <= i64::MAX) by (nonlinear_arith)
        requires
            b > 0,
            i64::MIN <= a <= i64::MAX,
    ;
    a.checked_div_euclid(b).unwrap()
}

fn floor_mod(a: i64, b: i64) -> (r: i64)
    requires
        b > 0,
    ensures
        r == a as int % b as int,
        0 <= r < b,
{
    assert(0 <= (a as int) % (b as int) < b) by (nonlinear_arith)
        requires
            b > 0,
    ;
    a.checked_rem_euclid(b).unwrap()
}

/// Whether a year has a 29th of February.
pub fn is_leap(year: i32) -> (is: bool)
    ensures
        is == leap(year as int),
{
    let y = year as i64;
    (floor_mod(y, 4) == 0 && floor_mod(y, 100) != 0) || floor_mod(y, 400) == 0
}

/// How many days a month has.
pub fn days_in_month(year: i32, month: u32) -> (days: u32)
    ensures
        days == month_len(year as int, month as int),
{
    match month {
        1 | 3 | 5 | 7 | 8 | 10 | 12 => 31,
        4 | 6 | 9 | 11 => 30,
        2 => if is_leap(year) {
            29
        } else {
            28
        },
        _ => 30,
    }
}

/// A month as a count of months.
pub open spec fn month_number(year: int, month: int) -> int {
    year * 12 + (month - 1)
}

/// Add `delta` months, returning the normalized month.
pub fn add_months(year: i32, month: u32, delta: i32) -> (shifted: (i32, u32))
    requires
        i32::MIN <= year * 12 <= i32::MAX,
        month <= i32::MAX,
        i32::MIN <= month_number(year as int, month as int) <= i32::MAX,
        i32::MIN <= month_number(year as int, month as int) + delta <= i32::MAX,
    ensures
        1 <= shifted.1 <= 12,
        month_number(shifted.0 as int, shifted.1 as int) == month_number(
            year as int,
            month as int,
        ) + delta,
{
    let idx: i64 = year as i64 * 12 + (month as i64 - 1) + delta as i64;
    (floor_div(idx, 12) as i32, (floor_mod(idx, 12) + 1) as u32)
}

proof fn lemma_days_before_month(year: int)
    ensures
        days_before_month(year, 1) == 0,
        days_before_month(year, 2) == 31,
        days_before_month(year, 3) == 31 + month_len(year, 2),
        days_before_month(year, 4) == 62 + month_len(year, 2),
        days_before_month(year, 5) == 92 + month_len(year, 2),
        days_before_month(year, 6) == 123 + month_len(year, 2),
        days_before_month(year, 7) == 153 + month_len(year, 2),
        days_before_month(year, 8) == 184 + month_len(year, 2),
        days_before_month(year, 9) == 215 + month_len(year, 2),
        days_before_month(year, 10) == 245 + month_len(year, 2),
        days_before_month(year, 11) == 276 + month_len(year, 2),
        days_before_month(year, 12) == 306 + month_len(year, 2),
        days_before_month(year, 13) == 337 + month_len(year, 2),
{
    reveal_with_fuel(days_before_month, 14);
}

/// A year is 365 days, and a leap year one more.
#[verifier::spinoff_prover]
pub proof fn law_a_year_has_365_days_or_366(year: int)
    ensures
        days_before_year(year + 1) - days_before_year(year) == if leap(year) {
            366int
        } else {
            365
        },
        days_before_month(year, 13) == days_before_year(year + 1) - days_before_year(year),
{
    lemma_step_of_quotient(year, 4);
    lemma_step_of_quotient(year, 100);
    lemma_step_of_quotient(year, 400);
    assert(year % 400 == 0 ==> year % 100 == 0) by (nonlinear_arith);
    assert(year % 100 == 0 ==> year % 4 == 0) by (nonlinear_arith);
    lemma_days_before_month(year);
}

proof fn lemma_step_of_quotient(n: int, d: int)
    requires
        d > 1,
    ensures
        n / d - (n - 1) / d == if n % d == 0 {
            1int
        } else {
            0
        },
{
    assert(n / d - (n - 1) / d == if n % d == 0 {
        1int
    } else {
        0
    }) by (nonlinear_arith)
        requires
            d > 1,
    ;
}

proof fn lemma_years_in_order(a: int, b: int)
    requires
        a <= b,
    ensures
        days_before_year(a) + 365 * (b - a) <= days_before_year(b),
    decreases b - a,
{
    if a < b {
        lemma_years_in_order(a, b - 1);
        law_a_year_has_365_days_or_366(b - 1);
    }
}

/// The day number of a date.
pub fn day_number(date: Ymd) -> (number: i64)
    requires
        date.month <= i32::MAX,
        date.day <= i32::MAX,
    ensures
        number == date.number(),
{
    let m: i64 = date.month as i64 - 1;
    let year: i64 = date.year as i64 + floor_div(m, 12);
    let month: i64 = floor_mod(m, 12) + 1;
    let y: i64 = year - 1;
    let before_year: i64 = 365 * y + floor_div(y, 4) - floor_div(y, 100) + floor_div(y, 400);
    let leap_day: i64 = if (floor_mod(year, 4) == 0 && floor_mod(year, 100) != 0) || floor_mod(
        year,
        400,
    ) == 0 {
        1
    } else {
        0
    };
    let before_month: i64 = months_before(month as u32, leap_day);
    proof {
        lemma_days_before_month(year as int);
    }
    before_year + before_month + date.day as i64
}

/// Whether the days before and after a date are ones that a date can hold.
pub fn has_neighbours(date: Ymd) -> (has: bool)
    ensures
        has == (date.month <= i32::MAX && date.day <= i32::MAX && in_range(date.number() - 1)
            && in_range(date.number() + 1)),
{
    if date.month > i32::MAX as u32 || date.day > i32::MAX as u32 {
        return false;
    }
    let number = day_number(date);
    let first: i64 = day_number(Ymd { year: i32::MIN + 1900, month: 1, day: 1 });
    let last: i64 = day_number(Ymd { year: i32::MAX, month: 12, day: 31 });
    proof {
        law_a_year_has_365_days_or_366(i32::MAX as int);
        lemma_days_before_month(i32::MAX as int);
    }
    first < number && number < last
}

/// The days of the months before `month`, with `leap_day` for a 29th of February.
fn months_before(month: u32, leap_day: i64) -> (days: i64)
    requires
        1 <= month <= 13,
        0 <= leap_day <= 1,
    ensures
        forall|year: int| leap(year) == (leap_day == 1) ==> days == #[trigger] days_before_month(
            year,
            month as int,
        ),
        0 <= days <= 366,
{
    let days: i64 = match month {
        1 => 0,
        2 => 31,
        3 => 59 + leap_day,
        4 => 90 + leap_day,
        5 => 120 + leap_day,
        6 => 151 + leap_day,
        7 => 181 + leap_day,
        8 => 212 + leap_day,
        9 => 243 + leap_day,
        10 => 273 + leap_day,
        11 => 304 + leap_day,
        12 => 334 + leap_day,
        _ => 365 + leap_day,
    };
    assert forall|year: int| leap(year) == (leap_day == 1) implies days
        == #[trigger] days_before_month(year, month as int) by {
        lemma_days_before_month(year);
    }
    days
}

/// The date with a day number.
pub fn date_of(number: i64) -> (date: Ymd)
    requires
        in_range(number as int),
    ensures
        date.valid(),
        date.number() == number,
{
    let n: i64 = number - 1;
    let era: i64 = floor_div(n, 146_097);
    let in_era: i64 = floor_mod(n, 146_097);
    let c: i64 = if in_era / 36_524 > 3 {
        3
    } else {
        in_era / 36_524
    };
    let in_century: i64 = in_era - c * 36_524;
    let q: i64 = in_century / 1_461;
    let in_four: i64 = in_century - q * 1_461;
    let y: i64 = if in_four / 365 > 3 {
        3
    } else {
        in_four / 365
    };
    let doy: i64 = in_four - y * 365;
    let year: i64 = 400 * era + 100 * c + 4 * q + y + 1;
    proof {
        lemma_year_parts(era as int, c as int, q as int, y as int);
        assert(n == 146_097 * era + in_era);
        assert(number == days_before_year(year as int) + 1 + doy);
        law_a_year_has_365_days_or_366(year as int);
        lemma_days_before_month(year as int);
        assert(0 <= doy < days_before_month(year as int, 13));
        // The year is one that a date can hold.
        if year > i32::MAX {
            lemma_years_in_order(i32::MAX + 1, year as int);
        }
        if year < i32::MIN + 1900 {
            lemma_years_in_order(year + 1, i32::MIN + 1900);
        }
    }
    let leap_day: i64 = if is_leap(year as i32) {
        1
    } else {
        0
    };
    let mut month: u32 = 1;
    while month < 12 && months_before(month + 1, leap_day) <= doy
        invariant
            1 <= month <= 12,
            0 <= leap_day <= 1,
            leap(year as int) == (leap_day == 1),
            days_before_month(year as int, month as int) <= doy,
            doy < days_before_month(year as int, 13),
        ensures
            1 <= month <= 12,
            days_before_month(year as int, month as int) <= doy,
            doy < days_before_month(year as int, month + 1),
        decreases 12 - month,
    {
        month = month + 1;
    }
    let day: i64 = doy - months_before(month, leap_day) + 1;
    Ymd { year: year as i32, month, day: day as u32 }
}

proof fn lemma_year_parts(era: int, c: int, q: int, y: int)
    requires
        0 <= c <= 3,
        0 <= q <= 24,
        0 <= y <= 3,
    ensures
        ({
            let year = 400 * era + 100 * c + 4 * q + y + 1;
            &&& days_before_year(year) == 146_097 * era + 36_524 * c + 1_461 * q + 365 * y
            &&& leap(year) <==> y == 3 && (q < 24 || c == 3)
        }),
{
    let year = 400 * era + 100 * c + 4 * q + y + 1;
    assert((year - 1) / 4 == 100 * era + 25 * c + q);
    assert((year - 1) / 100 == 4 * era + c);
    assert((year - 1) / 400 == era);
}

/// The weekday of a date, 0 for Sunday to 6 for Saturday.
pub fn weekday(date: Ymd) -> (w: u32)
    requires
        date.month <= i32::MAX,
        date.day <= i32::MAX,
    ensures
        w == weekday_of(date.number()),
        w < 7,
{
    floor_mod(day_number(date), 7) as u32
}

/// A date shifted by `delta` days, normalized across month and year boundaries.
pub fn add_days(date: Ymd, delta: i64) -> (shifted: Ymd)
    requires
        date.month <= i32::MAX,
        date.day <= i32::MAX,
        in_range(date.number() + delta),
    ensures
        shifted.valid(),
        shifted.number() == date.number() + delta,
{
    let number: i64 = day_number(date);
    proof {
        lemma_range_is_small(number + delta);
    }
    date_of(number + delta)
}

proof fn lemma_range_is_small(number: int)
    requires
        in_range(number),
    ensures
        -1_000_000_000_000 < number < 1_000_000_000_000,
{
}

/// The Thursday of the week, Monday to Sunday, that a day is in.
pub open spec fn thursday_of(number: int) -> int {
    number - (number + 6) % 7 + 3
}

/// The week number of a day by ISO 8601: weeks start on Monday, belong to the year their
/// Thursday is in, and count from 1 there.
pub open spec fn is_iso_week(number: int, week: int) -> bool {
    exists|thursday: Ymd|
        {
            &&& #[trigger] thursday.valid()
            &&& thursday.number() == thursday_of(number)
            &&& week == (thursday.day_of_year() - 1) / 7 + 1
        }
}

/// The ISO 8601 week number of a date.
pub fn iso_week(date: Ymd) -> (week: u32)
    requires
        date.month <= i32::MAX,
        date.day <= i32::MAX,
        in_range(date.number() - 3),
        in_range(date.number() + 3),
    ensures
        is_iso_week(date.number(), week as int),
        1 <= week <= 53,
{
    let number: i64 = day_number(date);
    let thursday = date_of(number - floor_mod(number + 6, 7) + 3);
    let leap_day: i64 = if is_leap(thursday.year) {
        1
    } else {
        0
    };
    let doy: i64 = months_before(thursday.month, leap_day) + thursday.day as i64;
    proof {
        lemma_days_before_month(thursday.year as int);
        assert(thursday.valid());
        assert(doy == thursday.day_of_year());
    }
    ((doy - 1) / 7 + 1) as u32
}

proof fn lemma_valid_day_of_year(date: Ymd)
    requires
        date.valid(),
    ensures
        1 <= date.day_of_year(),
        date.day_of_year() <= days_before_month(date.year as int, 13),
        date.number() == days_before_year(date.year as int) + date.day_of_year(),
{
    lemma_days_before_month(date.year as int);
}

/// Days of the calendar are in the order of their numbers, and no two share one.
pub proof fn law_day_numbers_tell_dates_apart(a: Ymd, b: Ymd)
    requires
        a.valid(),
        b.valid(),
    ensures
        a.number() == b.number() <==> a == b,
        a.number() < b.number() <==> (a.year < b.year || a.year == b.year && (a.month < b.month
            || a.month == b.month && a.day < b.day)),
{
    lemma_valid_day_of_year(a);
    lemma_valid_day_of_year(b);
    law_a_year_has_365_days_or_366(a.year as int);
    law_a_year_has_365_days_or_366(b.year as int);
    if a.year < b.year {
        lemma_years_in_order(a.year + 1, b.year as int);
    } else if b.year < a.year {
        lemma_years_in_order(b.year + 1, a.year as int);
    } else {
        lemma_days_before_month(a.year as int);
    }
}

/// A step of days and the step back lead to where they started.
pub proof fn law_days_there_and_back(start: Ymd, there: Ymd, back: Ymd, delta: int)
    requires
        start.valid(),
        there.number() == start.number() + delta,
        back.valid(),
        back.number() == there.number() - delta,
    ensures
        back == start,
{
    law_day_numbers_tell_dates_apart(start, back);
}

/// One day on is one weekday on, across any month or year boundary.
pub proof fn law_the_next_day_is_the_next_weekday(number: int)
    ensures
        weekday_of(number + 1) == (weekday_of(number) + 1) % 7,
        weekday_of(number + 7) == weekday_of(number),
{
}

/// A shift of months and the shift back lead to where they started.
pub proof fn law_months_there_and_back(
    start: (i32, u32),
    there: (i32, u32),
    back: (i32, u32),
    delta: int,
)
    requires
        1 <= start.1 <= 12,
        1 <= back.1 <= 12,
        month_number(there.0 as int, there.1 as int) == month_number(
            start.0 as int,
            start.1 as int,
        ) + delta,
        month_number(back.0 as int, back.1 as int) == month_number(
            there.0 as int,
            there.1 as int,
        ) - delta,
    ensures
        back == start,
{
}

/// The seven days from a Monday on are one week.
pub proof fn law_a_week_runs_from_monday_to_sunday(monday: int, k: int)
    requires
        weekday_of(monday) == 1,
        0 <= k < 7,
    ensures
        thursday_of(monday + k) == monday + 3,
{
}

/// A month on is the next month, and from December the next year's first; a month back is the
/// other way around, and twelve months are a year.
#[verifier::spinoff_prover]
pub proof fn law_months_run_through_the_year(
    year: i32,
    month: u32,
    delta: i32,
    shifted: (i32, u32),
)
    requires
        1 <= month <= 12,
        call_ensures(add_months, (year, month, delta), shifted),
    ensures
        delta == 0 ==> shifted == (year, month),
        delta == 1 && month < 12 ==> shifted.0 == year && shifted.1 == month + 1,
        delta == 1 && month == 12 ==> shifted.0 == year + 1 && shifted.1 == 1,
        delta == -1 && month > 1 ==> shifted.0 == year && shifted.1 == month - 1,
        delta == -1 && month == 1 ==> shifted.0 == year - 1 && shifted.1 == 12,
        delta == 12 ==> shifted.0 == year + 1 && shifted.1 == month,
        delta == -12 ==> shifted.0 == year - 1 && shifted.1 == month,
{
}

/// A day on is the next of the month, from the month's last day the first of the next month,
/// and from the last day of December the first of the next year.
#[verifier::spinoff_prover]
pub proof fn law_days_run_through_the_month(date: Ymd, days: u32, next: Ymd)
    requires
        date.valid(),
        date.year < i32::MAX,
        call_ensures(days_in_month, (date.year, date.month), days),
        call_ensures(add_days, (date, 1i64), next),
    ensures
        date.day < days ==> next == (Ymd {
            year: date.year,
            month: date.month,
            day: (date.day + 1) as u32,
        }),
        date.day == days && date.month < 12 ==> next == (Ymd {
            year: date.year,
            month: (date.month + 1) as u32,
            day: 1,
        }),
        date.day == days && date.month == 12 ==> next == (Ymd {
            year: (date.year + 1) as i32,
            month: 1,
            day: 1,
        }),
        date.day <= days,
{
    let follows = if date.day < days {
        Ymd { year: date.year, month: date.month, day: (date.day + 1) as u32 }
    } else if date.month < 12 {
        Ymd { year: date.year, month: (date.month + 1) as u32, day: 1 }
    } else {
        Ymd { year: (date.year + 1) as i32, month: 1, day: 1 }
    };
    lemma_valid_day_of_year(date);
    lemma_valid_day_of_year(follows);
    lemma_days_before_month(date.year as int);
    lemma_days_before_month(follows.year as int);
    law_a_year_has_365_days_or_366(date.year as int);
    assert(follows.number() == date.number() + 1);
    law_day_numbers_tell_dates_apart(next, follows);
}

/// A month has thirty-one days or thirty, by its name, and February twenty-eight, or
/// twenty-nine in every fourth year but for the centuries that four hundred does not divide.
pub proof fn law_months_have_their_lengths(year: i32, month: u32, days: u32, long: bool)
    requires
        1 <= month <= 12,
        call_ensures(days_in_month, (year, month), days),
        call_ensures(is_leap, (year,), long),
    ensures
        month == 2 ==> days == if long {
            29int
        } else {
            28
        },
        month == 4 || month == 6 || month == 9 || month == 11 ==> days == 30,
        month == 1 || month == 3 || month == 5 || month == 7 || month == 8 || month == 10 || month
            == 12 ==> days == 31,
        year as int % 4 != 0 ==> !long,
        year as int % 4 == 0 && year as int % 100 != 0 ==> long,
        year as int % 100 == 0 && year as int % 400 != 0 ==> !long,
        year as int % 400 == 0 ==> long,
{
}

/// A day on is the next weekday, with Sunday after Saturday.
#[verifier::spinoff_prover]
pub proof fn law_weekdays_run_through_the_week(date: Ymd, delta: i64, then: Ymd, a: u32, b: u32)
    requires
        call_ensures(add_days, (date, delta), then),
        call_ensures(weekday, (date,), a),
        call_ensures(weekday, (then,), b),
    ensures
        a < 7 && b < 7,
        delta == 1 ==> b == if a == 6 {
            0int
        } else {
            a + 1
        },
        delta == 7 || delta == -7 ==> b == a,
        b as int == (a + delta) % 7,
{
    lemma_weekday_step(date.number(), then.number(), delta as int);
}

proof fn lemma_weekday_step(n: int, m: int, delta: int)
    by (nonlinear_arith)
    requires
        m == n + delta,
    ensures
        0 <= n % 7 < 7,
        m % 7 == (n % 7 + delta) % 7,
        delta == 1 ==> m % 7 == if n % 7 == 6 {
            0
        } else {
            n % 7 + 1
        },
        delta == 7 || delta == -7 ==> m % 7 == n % 7,
{
}

/// The days from a Monday to the Sunday after it share a week number, and the fourth of
/// January is in the year's first week.
#[verifier::spinoff_prover]
pub proof fn law_a_week_has_one_number(date: Ymd, w: u32, delta: i64, then: Ymd, a: u32, b: u32)
    requires
        date.valid(),
        call_ensures(weekday, (date,), w),
        call_ensures(add_days, (date, delta), then),
        call_ensures(iso_week, (date,), a),
        call_ensures(iso_week, (then,), b),
    ensures
        w == 1 && 0 <= delta < 7 ==> a == b,
        date.month == 1 && date.day == 4 ==> a == 1,
        1 <= a <= 53,
{
    let number = date.number();
    let first = choose|thursday: Ymd|
        {
            &&& #[trigger] thursday.valid()
            &&& thursday.number() == thursday_of(number)
            &&& a == (thursday.day_of_year() - 1) / 7 + 1
        };
    assert(first.valid());
    if w == 1 && 0 <= delta < 7 {
        let second = choose|thursday: Ymd|
            {
                &&& #[trigger] thursday.valid()
                &&& thursday.number() == thursday_of(then.number())
                &&& b == (thursday.day_of_year() - 1) / 7 + 1
            };
        assert(second.valid());
        law_a_week_runs_from_monday_to_sunday(number, delta as int);
        law_a_week_runs_from_monday_to_sunday(number, 0);
        law_day_numbers_tell_dates_apart(first, second);
    }
    if date.month == 1 && date.day == 4 {
        let away = thursday_of(number) - number;
        assert(-3 <= away <= 3);
        let thursday = Ymd { year: date.year, month: 1, day: (4 + away) as u32 };
        lemma_valid_day_of_year(date);
        lemma_days_before_month(date.year as int);
        lemma_valid_day_of_year(thursday);
        law_day_numbers_tell_dates_apart(first, thursday);
    }
}

} // verus!
