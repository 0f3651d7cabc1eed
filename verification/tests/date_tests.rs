use std::ops::RangeInclusive;

use timesheet_core::{Date, Month, WeekDay, Year};

fn date(year: usize, month: usize, day: usize) -> Date {
    Date::new(
        Year::new(year),
        Month::from_ordinal(month).unwrap(),
        day,
    )
    .unwrap()
}

#[test]
fn test_date() {
    assert_eq!(
        Date::new(Year::new(2022), Month::January, 31).map(|d| d.display()),
        Ok("2022-01-31".to_string())
    );
}

fn sort_array<T: Ord, const N: usize>(mut array: [T; N]) -> [T; N] {
    array.sort();
    array
}

#[test]
fn test_date_sorting() {
    assert_eq!(
        sort_array([date(2022, 1, 3), date(2022, 1, 2), date(2022, 1, 1)]),
        [date(2022, 1, 1), date(2022, 1, 2), date(2022, 1, 3)]
    );

    assert_eq!(
        sort_array([date(2012, 1, 3), date(2013, 1, 2), date(2024, 1, 1)]),
        [date(2012, 1, 3), date(2013, 1, 2), date(2024, 1, 1)]
    );

    assert_eq!(
        sort_array([date(2000, 1, 1), date(2000, 4, 1), date(2000, 3, 1)]),
        [date(2000, 1, 1), date(2000, 3, 1), date(2000, 4, 1)]
    );
}

#[test]
fn test_add_day() {
    assert_eq!(date(2022, 1, 1).add_days(1), date(2022, 1, 2));
    assert_eq!(date(2022, 1, 1).add_days(30), date(2022, 1, 31));
    assert_eq!(date(2022, 1, 1).add_days(31), date(2022, 2, 1));
    assert_eq!(date(2022, 1, 1).add_days(58), date(2022, 2, 28));
    assert_eq!(date(2022, 1, 1).add_days(59), date(2022, 3, 1));

    assert_eq!(date(2022, 12, 24).add_days(8), date(2023, 1, 1));
    assert_eq!(date(2022, 12, 24).add_days(8 + 365), date(2024, 1, 1));
}

#[test]
fn test_ordinal() {
    assert_eq!(date(2022, 1, 1).ordinal(), 1);
    assert_eq!(date(2022, 2, 1).ordinal(), 32);
    assert_eq!(date(2022, 2, 5).ordinal(), 36);

    for year_value in 2020..=3000usize {
        let year = Year::new(year_value);
        let mut current_ordinal = 0;
        for month in Month::months() {
            for day in 1..=year.number_of_days_in_month(month) {
                current_ordinal += 1;
                let date = Date::new(year, month, day).unwrap();

                assert_eq!(date.ordinal(), current_ordinal);
            }
        }
    }
}

#[test]
fn test_from_days_since_base_date() {
    for year_value in 2020..=2025usize {
        let year = Year::new(year_value);
        for month in Month::months() {
            for day in 1..year.number_of_days_in_month(month) {
                let date = Date::new(year, month, day).unwrap();

                assert_eq!(
                    Date::from_days_since_base_date(date.days_since_base_date()),
                    date
                );
            }
        }
    }
}

fn test_week_number_value(
    year: Year,
    month: Month,
    expected: usize,
    days: impl IntoIterator<Item = usize>,
) {
    for day in days {
        let actual = Date::new(year, month, day).unwrap().week_number();
        assert_eq!(
            expected,
            actual,
            "week_number({}-{:02}-{:02}): expected: {}, actual: {}",
            year.as_usize(),
            month.as_usize(),
            day,
            expected,
            actual,
        );
    }
}

fn iter_weeks(year: Year, month: Month) -> Vec<(usize, RangeInclusive<usize>)> {
    let mut result = Vec::new();
    // NOTE: if monday is the first day, then this will be 0
    let day_before_first_monday = Date::new(year, month, 1)
        .unwrap()
        .week_day()
        .days_until(WeekDay::Monday);
    let days_in_month = year.number_of_days_in_month(month);

    let mut init = 0;
    if day_before_first_monday != 0 {
        result.push((1, 1..=day_before_first_monday));
        init = 1;
    }

    let mut week_number = init + 1;
    let mut day = day_before_first_monday + 1;
    while day <= days_in_month {
        let end = (day + 6).min(days_in_month);
        result.push((week_number, day..=end));
        week_number += 1;
        day += 7;
    }

    result
}

#[test]
fn test_week_start_end() {
    for year_value in 2000..=2022usize {
        let year = Year::new(year_value);
        for month in Month::months() {
            for (_, days) in iter_weeks(year, month) {
                let week_start = Date::new(year, month, *days.start()).unwrap();
                let week_end = Date::new(year, month, *days.end()).unwrap();

                for day in days.into_iter().map(|d| Date::new(year, month, d).unwrap()) {
                    assert_eq!(
                        day.week_start(),
                        week_start,
                        "week_start of day: {}",
                        day.display()
                    );
                    assert_eq!(
                        day.week_end(),
                        week_end,
                        "week_end of day: {}",
                        day.display()
                    );
                }
            }
        }
    }
}

#[test]
fn test_week_number() {
    let year = Year::new(2022);
    let month = Month::November;

    test_week_number_value(year, month, 1, 1..=6);
    test_week_number_value(year, month, 2, 7..=13);
    test_week_number_value(year, month, 3, 14..=20);
    test_week_number_value(year, month, 4, 21..=27);
    test_week_number_value(year, month, 5, 28..=30);

    let year = Year::new(2022);
    let month = Month::December;

    test_week_number_value(year, month, 1, 1..=4);
    test_week_number_value(year, month, 2, 5..=11);
    test_week_number_value(year, month, 3, 12..=18);
    test_week_number_value(year, month, 4, 19..=25);
    test_week_number_value(year, month, 5, 26..=31);

    let year = Year::new(2021);
    let month = Month::November;

    test_week_number_value(year, month, 1, 1..=7);
    test_week_number_value(year, month, 2, 8..=14);
    test_week_number_value(year, month, 3, 15..=21);
    test_week_number_value(year, month, 4, 22..=28);
    test_week_number_value(year, month, 5, 29..=30);
}

#[test]
fn test_week_number_elaborate() {
    for year_value in 1990..=2030usize {
        let year = Year::new(year_value);
        for month in Month::months() {
            for (week_number, week) in iter_weeks(year, month) {
                test_week_number_value(year, month, week_number, week);
            }
        }
    }
}

#[test]
fn test_new_rejects_out_of_range_days() {
    // A day is accepted exactly when it lies within the month.
    assert!(Date::new(Year::new(2023), Month::February, 28).is_ok());
    assert!(Date::new(Year::new(2023), Month::February, 29).is_err());
    assert!(Date::new(Year::new(2024), Month::February, 29).is_ok());
    assert!(Date::new(Year::new(2024), Month::February, 30).is_err());
    assert!(Date::new(Year::new(2022), Month::April, 31).is_err());
    assert!(Date::new(Year::new(2022), Month::April, 0).is_err());
    // Century years are leap years only when divisible by 400.
    assert!(Date::new(Year::new(2000), Month::February, 29).is_ok());
    assert!(Date::new(Year::new(1900), Month::February, 29).is_err());
}

#[test]
fn test_invalid_date_fields() {
    let err = Date::new(Year::new(2023), Month::February, 30).unwrap_err();
    assert_eq!(err.year, Year::new(2023));
    assert_eq!(err.month, Month::February);
    assert_eq!(err.day, 30);
}

#[test]
fn test_parse_and_display_round_trip() {
    for text in ["2022-01-31", "2023-12-25", "2024-02-29", "0004-02-29"] {
        let parsed = Date::parse(text).unwrap();
        assert_eq!(parsed.display(), text);
        assert_eq!(Date::parse(&parsed.display()).unwrap(), parsed);
    }
    assert_eq!(Date::parse("2022-1-1").unwrap(), date(2022, 1, 1));
}

#[test]
fn test_parse_rejects_malformed_text() {
    assert!(Date::parse("2023-02-30").is_err());
    assert!(Date::parse("2023/02/01").is_err());
    assert!(Date::parse("2023-02").is_err());
    assert!(Date::parse("2023-02-01-05").is_err());
    assert!(Date::parse("2023-0x-01").is_err());
    assert!(Date::parse("-02-01").is_err());
    assert!(Date::parse("2023-13-01").is_err());
    assert!(Date::parse("2023-00-01").is_err());
    assert!(Date::parse("").is_err());
    let err = Date::parse("not a date").unwrap_err();
    assert_eq!(err.string, "not a date".to_string());
}

#[test]
fn test_formatted_templates() {
    let d = date(2022, 1, 31);
    assert_eq!(d.formatted("{year}-{month}-{day}"), "2022-01-31");
    assert_eq!(d.formatted("{day}.{month}.{year}"), "31.01.2022");
    assert_eq!(d.formatted("{month}"), "01");
    assert_eq!(d.formatted("no placeholders"), "no placeholders");
    assert_eq!(d.formatted("{hour} and {year}"), "{hour} and 2022");
}

#[test]
fn test_week_day_of_known_dates() {
    assert_eq!(date(2022, 11, 7).week_day(), WeekDay::Monday);
    assert_eq!(date(2022, 11, 6).week_day(), WeekDay::Sunday);
    assert_eq!(date(2000, 1, 1).week_day(), WeekDay::Saturday);
    assert_eq!(date(2024, 2, 29).week_day(), WeekDay::Thursday);
}

#[test]
fn test_is_holiday_and_workday() {
    assert!(date(2022, 12, 25).is_holiday());
    assert!(date(2022, 12, 26).is_holiday());
    assert!(date(2022, 1, 1).is_holiday());
    assert!(date(2022, 1, 6).is_holiday());
    assert!(date(2022, 11, 1).is_holiday());
    assert!(!date(2022, 11, 2).is_holiday());

    // A workday is exactly a day that is neither a holiday nor a Sunday.
    assert!(!date(2022, 11, 1).is_workday()); // holiday on a Tuesday
    assert!(!date(2022, 11, 6).is_workday()); // an ordinary Sunday
    assert!(date(2022, 11, 2).is_workday());
    for day in 1..=30 {
        let d = date(2022, 11, day);
        assert_eq!(
            d.is_workday(),
            !d.is_holiday() && d.week_day() != WeekDay::Sunday
        );
    }
}

#[test]
fn test_next_week_start() {
    // November 2022 begins on a Tuesday; its last Monday is the 28th.
    assert_eq!(date(2022, 11, 1).next_week_start(), Some(date(2022, 11, 7)));
    assert_eq!(date(2022, 11, 9).next_week_start(), Some(date(2022, 11, 14)));
    assert_eq!(date(2022, 11, 24).next_week_start(), Some(date(2022, 11, 28)));
    // One week past the 28th would fall into December.
    assert_eq!(date(2022, 11, 28).next_week_start(), None);
    assert_eq!(date(2022, 11, 30).next_week_start(), None);
}

#[test]
fn test_week_bounds_stay_in_month() {
    for year_value in [2021usize, 2022, 2024] {
        let year = Year::new(year_value);
        for month in Month::months() {
            for day in 1..=year.number_of_days_in_month(month) {
                let d = Date::new(year, month, day).unwrap();
                let start = d.week_start();
                let end = d.week_end();
                assert!(start <= d && d <= end);
                assert_eq!(start.month(), month);
                assert_eq!(end.month(), month);
                assert_eq!(start.year(), year);
                assert_eq!(end.year(), year);
            }
        }
    }
}

#[test]
fn test_first_and_last_day() {
    assert_eq!(Date::first_day(Year::new(2022), Month::March), date(2022, 3, 1));
    assert_eq!(Date::last_day(Year::new(2022), Month::March), date(2022, 3, 31));
    assert_eq!(Date::last_day(Year::new(2024), Month::February), date(2024, 2, 29));
}

#[test]
fn test_month_next_wraps() {
    assert_eq!(Month::January.next(), Month::February);
    assert_eq!(Month::December.next(), Month::January);
    let months = Month::months();
    assert_eq!(months.len(), 12);
    for (i, m) in months.iter().enumerate() {
        assert_eq!(m.as_usize(), i + 1);
    }
}

#[test]
fn test_week_day_days_until() {
    assert_eq!(WeekDay::Monday.days_until(WeekDay::Sunday), 6);
    assert_eq!(WeekDay::Sunday.days_until(WeekDay::Monday), 1);
    assert_eq!(WeekDay::Wednesday.days_until(WeekDay::Wednesday), 0);
    assert_eq!(WeekDay::Saturday.days_until(WeekDay::Friday), 6);
}

#[test]
fn test_year_days_and_leap_rule() {
    assert_eq!(Year::new(2022).days(), 365);
    assert_eq!(Year::new(2024).days(), 366);
    assert_eq!(Year::new(2000).days(), 366);
    assert_eq!(Year::new(1900).days(), 365);
    assert_eq!(Year::new(2022).next(), Year::new(2023));
    // The base-date offset of a year grows by exactly the year's length.
    for y in 1990..=2030usize {
        assert_eq!(
            Year::new(y).days_since_base_date() + Year::new(y).days(),
            Year::new(y + 1).days_since_base_date()
        );
    }
}

#[test]
fn test_steps_between_and_checked_stepping() {
    let a = date(2022, 12, 24);
    let b = date(2023, 1, 1);
    assert_eq!(Date::steps_between(&a, &b), Some(8));
    assert_eq!(Date::steps_between(&b, &a), None);
    assert_eq!(Date::steps_between(&a, &a), Some(0));
    assert_eq!(a.forward_checked(8), Some(b));
    assert_eq!(b.backward_checked(8), Some(a));
    assert_eq!(date(0, 1, 3).backward_checked(5), None);
}

#[test]
fn test_error_messages() {
    let invalid = Date::new(Year::new(2023), Month::February, 30).unwrap_err();
    assert_eq!(invalid.message(), "2023-02-30: not a valid date");
    let parse = Date::parse("2023/02/01").unwrap_err();
    assert_eq!(
        parse.message(),
        "`2023/02/01`: not a valid date, format must be `YYYY-MM-DD`"
    );
}
