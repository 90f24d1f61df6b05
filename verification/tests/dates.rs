use synoik_ui::dates::{
    add_days, add_months, date_of, day_number, days_in_month, has_neighbours, is_leap, iso_week,
    weekday, Ymd,
};

fn ymd(year: i32, month: u32, day: u32) -> Ymd {
    Ymd { year, month, day }
}

#[test]
fn days_in_month_handles_leap_years() {
    assert_eq!(days_in_month(2023, 2), 28);
    assert_eq!(days_in_month(2024, 2), 29); // leap
    assert_eq!(days_in_month(2000, 2), 29); // /400
    assert_eq!(days_in_month(1900, 2), 28); // /100 not /400
    assert_eq!(days_in_month(2023, 4), 30);
    assert_eq!(days_in_month(2023, 12), 31);
}

#[test]
fn weekday_is_known_good() {
    // 2024-01-01 was a Monday (=1), 2023-01-01 a Sunday (=0).
    assert_eq!(weekday(ymd(2024, 1, 1)), 1);
    assert_eq!(weekday(ymd(2023, 1, 1)), 0);
}

#[test]
fn add_days_and_months_normalize() {
    assert_eq!(add_days(ymd(2024, 2, 28), 1), ymd(2024, 2, 29));
    assert_eq!(add_days(ymd(2023, 12, 31), 1), ymd(2024, 1, 1));
    assert_eq!(add_months(2024, 1, -1), (2023, 12));
    assert_eq!(add_months(2024, 12, 1), (2025, 1));
}

#[test]
fn leap_years_follow_the_four_hundred_year_rule() {
    assert!(is_leap(2024));
    assert!(is_leap(2000));
    assert!(!is_leap(1900));
    assert!(!is_leap(2023));
    assert!(is_leap(-4));
}

#[test]
fn day_numbers_count_days_and_give_the_date_back() {
    assert_eq!(day_number(ymd(2024, 3, 1)) - day_number(ymd(2024, 2, 1)), 29);
    assert_eq!(day_number(ymd(2025, 1, 1)) - day_number(ymd(2024, 1, 1)), 366);
    for number in [-1_000_000, -1, 0, 1, 59, 719_163, 738_000, 900_001] {
        assert_eq!(day_number(date_of(number)), number);
    }
}

#[test]
fn shifting_by_days_or_months_and_back_is_no_shift() {
    let start = ymd(2024, 2, 29);
    for delta in [0, 1, 28, 366, 10_000, -59, -40_000] {
        assert_eq!(add_days(add_days(start, delta), -delta), start);
    }
    for delta in [0, 1, 11, 12, 25, -1, -13] {
        let (year, month) = add_months(2024, 2, delta);
        assert_eq!(add_months(year, month, -delta), (2024, 2));
    }
}

#[test]
fn the_next_day_is_the_next_weekday() {
    let mut day = ymd(2023, 12, 25);
    for _ in 0..20 {
        let next = add_days(day, 1);
        assert_eq!(weekday(next), (weekday(day) + 1) % 7);
        day = next;
    }
}

#[test]
fn iso_weeks_run_from_monday_to_sunday() {
    // 2021-01-03 is a Sunday of the last week of 2020, which had 53.
    assert_eq!(iso_week(ymd(2021, 1, 3)), 53);
    assert_eq!(iso_week(ymd(2021, 1, 4)), 1);
    assert_eq!(iso_week(ymd(2021, 1, 10)), 1);
    // 2024-12-30 is the Monday of the first week of 2025.
    assert_eq!(iso_week(ymd(2024, 12, 29)), 52);
    assert_eq!(iso_week(ymd(2024, 12, 30)), 1);
}

#[test]
fn overlong_months_and_days_carry_over() {
    assert_eq!(add_days(ymd(2023, 13, 1), 0), ymd(2024, 1, 1));
    assert_eq!(add_days(ymd(2024, 2, 30), 0), ymd(2024, 3, 1));
    assert_eq!(add_days(ymd(2024, 1, 0), 0), ymd(2023, 12, 31));
}

#[test]
fn the_ends_of_the_calendar_have_one_neighbour() {
    assert!(has_neighbours(ymd(2026, 6, 15)));
    assert!(has_neighbours(ymd(i32::MAX, 12, 30)));
    assert!(!has_neighbours(ymd(i32::MAX, 12, 31)));
    assert!(!has_neighbours(ymd(i32::MIN + 1900, 1, 1)));
    assert!(has_neighbours(ymd(i32::MIN + 1900, 1, 2)));
    assert!(!has_neighbours(ymd(2026, u32::MAX, 1)));
}
