use waifu_calendar::{Birthday, Date, DateTime, Duration, InvalidCalendarDate, Month};

fn date(year: i32, month: Month, day: u8) -> Date {
    Date::from_calendar_date(year, month, day).unwrap()
}

fn months() -> Vec<Month> {
    vec![
        Month::January,
        Month::February,
        Month::March,
        Month::April,
        Month::May,
        Month::June,
        Month::July,
        Month::August,
        Month::September,
        Month::October,
        Month::November,
        Month::December,
    ]
}

fn next_day(d: &Date) -> Date {
    let ms = months();
    if let Ok(n) = Date::from_calendar_date(d.year(), d.month(), d.day() + 1) {
        return n;
    }
    let m = d.month().number();
    if m < 12 {
        date(d.year(), ms[m as usize], 1)
    } else {
        date(d.year() + 1, Month::January, 1)
    }
}

#[test]
fn a_rule_needs_a_day_the_month_can_have() {
    assert!(Birthday::new(Month::February, 29).is_some());
    assert!(Birthday::new(Month::February, 30).is_none());
    assert!(Birthday::new(Month::April, 30).is_some());
    assert!(Birthday::new(Month::April, 31).is_none());
    assert!(Birthday::new(Month::December, 31).is_some());
    assert!(Birthday::new(Month::December, 32).is_none());
    assert!(Birthday::new(Month::January, 0).is_none());
}

#[test]
fn occurrence_in_year_fails_where_the_day_is_missing() {
    let leap = Birthday::new(Month::February, 29).unwrap();
    assert_eq!(leap.occurrence_in_year(2025), Err(InvalidCalendarDate));
    assert_eq!(leap.occurrence_in_year(2100), Err(InvalidCalendarDate));
    assert_eq!(
        leap.occurrence_in_year(2024),
        Ok(date(2024, Month::February, 29))
    );
    let plain = Birthday::new(Month::March, 3).unwrap();
    assert_eq!(plain.occurrence_in_year(10_000), Err(InvalidCalendarDate));
    assert_eq!(plain.occurrence_in_year(9999), Ok(date(9999, Month::March, 3)));
}

#[test]
fn leap_day_next_occurrence_is_the_next_leap_year() {
    let leap = Birthday::new(Month::February, 29).unwrap();
    assert_eq!(
        leap.next_occurrence(&date(2025, Month::January, 1)),
        Ok(date(2028, Month::February, 29))
    );
    assert_eq!(
        leap.next_occurrence(&date(2024, Month::January, 13)),
        Ok(date(2024, Month::February, 29))
    );
    assert_eq!(
        leap.next_occurrence(&date(2024, Month::February, 29)),
        Ok(date(2024, Month::February, 29))
    );
    assert_eq!(
        leap.next_occurrence(&date(2024, Month::March, 1)),
        Ok(date(2028, Month::February, 29))
    );
    assert_eq!(
        leap.next_occurrence(&date(2096, Month::March, 1)),
        Ok(date(2104, Month::February, 29))
    );
    assert_eq!(
        leap.next_occurrence(&date(2100, Month::February, 28)),
        Ok(date(2104, Month::February, 29))
    );
}

#[test]
fn to_date_stays_in_the_year_of_the_day() {
    let leap = Birthday::new(Month::February, 29).unwrap();
    assert_eq!(
        leap.to_date(&date(2024, Month::December, 31)),
        Ok(date(2024, Month::February, 29))
    );
    assert_eq!(
        leap.to_date(&date(2025, Month::January, 1)),
        Err(InvalidCalendarDate)
    );
    assert_eq!(
        leap.to_date(&date(2100, Month::June, 1)),
        Err(InvalidCalendarDate)
    );
    assert_eq!(
        leap.to_date(&date(2000, Month::June, 1)),
        Ok(date(2000, Month::February, 29))
    );
    let plain = Birthday::new(Month::January, 13).unwrap();
    assert_eq!(
        plain.to_date(&date(2025, Month::December, 1)),
        Ok(date(2025, Month::January, 13))
    );
    assert_eq!(
        plain.to_date(&date(-9999, Month::December, 1)),
        Ok(date(-9999, Month::January, 13))
    );
}

#[test]
fn next_occurrence_fails_only_beyond_the_calendar() {
    let first = Birthday::new(Month::January, 1).unwrap();
    assert_eq!(
        first.next_occurrence(&date(9999, Month::January, 2)),
        Err(InvalidCalendarDate)
    );
    assert_eq!(
        first.next_occurrence(&date(9999, Month::January, 1)),
        Ok(date(9999, Month::January, 1))
    );
    let leap = Birthday::new(Month::February, 29).unwrap();
    assert_eq!(
        leap.next_occurrence(&date(9996, Month::March, 1)),
        Err(InvalidCalendarDate)
    );
    assert_eq!(
        leap.next_occurrence(&date(9996, Month::February, 29)),
        Ok(date(9996, Month::February, 29))
    );
}

#[test]
fn next_occurrence_is_never_before_the_reference_day() {
    let rules = vec![
        Birthday::new(Month::January, 1).unwrap(),
        Birthday::new(Month::February, 29).unwrap(),
        Birthday::new(Month::July, 31).unwrap(),
        Birthday::new(Month::December, 31).unwrap(),
    ];
    for rule in &rules {
        let mut day = date(2023, Month::December, 25);
        for _ in 0..800 {
            let next = rule.next_occurrence(&day).unwrap();
            assert!(day.is_on_or_before(&next));
            assert!(day <= next);
            assert!(rule.is_occurring_on(&next));
            day = next_day(&day);
        }
    }
}

#[test]
fn next_occurrence_a_day_later_is_the_same_or_later() {
    let rules = vec![
        Birthday::new(Month::March, 1).unwrap(),
        Birthday::new(Month::February, 29).unwrap(),
        Birthday::new(Month::February, 28).unwrap(),
    ];
    for rule in &rules {
        let mut day = date(2099, Month::January, 1);
        for _ in 0..1500 {
            let tomorrow = next_day(&day);
            let first = rule.next_occurrence(&day).unwrap();
            let second = rule.next_occurrence(&tomorrow).unwrap();
            assert!(first.is_on_or_before(&second));
            assert_eq!(first != second, rule.is_occurring_on(&day));
            day = tomorrow;
        }
    }
}

#[test]
fn is_occurring_on_needs_a_leap_year_for_the_leap_day() {
    let leap = Birthday::new(Month::February, 29).unwrap();
    assert!(leap.is_occurring_on(&date(2024, Month::February, 29)));
    assert!(!leap.is_occurring_on(&date(2025, Month::February, 28)));
    assert!(!leap.is_occurring_on(&date(2025, Month::March, 1)));
    assert!(!leap.is_occurring_on(&date(2024, Month::February, 28)));
}

#[test]
fn til_next_counts_from_the_instant_to_midnight() {
    let rule = Birthday::new(Month::January, 15).unwrap();
    let now = DateTime::new(date(2024, Month::January, 13), 10, 30, 15, 0).unwrap();
    let span = rule.til_next(&now);
    assert_eq!(span.whole_seconds(), 2 * 86_400 - (10 * 3600 + 30 * 60 + 15));
    assert_eq!(span.subsec_nanoseconds(), 0);
    assert_eq!(span.whole_days(), 1);

    let now = DateTime::new(date(2024, Month::January, 13), 0, 0, 0, 250).unwrap();
    let span = rule.til_next(&now);
    assert_eq!(span.whole_seconds(), 2 * 86_400 - 1);
    assert_eq!(span.subsec_nanoseconds(), 999_999_750);
    assert_eq!(span.whole_nanoseconds(), 2 * 86_400 * 1_000_000_000 - 250);
}

#[test]
fn til_next_is_zero_at_midnight_of_the_birthday_and_negative_after() {
    let rule = Birthday::new(Month::January, 13).unwrap();
    let midnight = DateTime::midnight(date(2024, Month::January, 13));
    assert_eq!(rule.til_next(&midnight), Duration::seconds(0));
    assert!(!rule.til_next(&midnight).is_negative());

    let later = DateTime::new(date(2024, Month::January, 13), 10, 0, 0, 5).unwrap();
    let span = rule.til_next(&later);
    assert!(span.is_negative());
    assert_eq!(span.whole_seconds(), -36_000);
    assert_eq!(span.subsec_nanoseconds(), -5);
    assert_eq!(span.whole_hours(), -10);
    assert_eq!(span.whole_days(), 0);
}

#[test]
fn til_next_spans_years() {
    let rule = Birthday::new(Month::February, 29).unwrap();
    let now = DateTime::midnight(date(2025, Month::January, 1));
    let span = rule.til_next(&now);
    assert_eq!(span.whole_days(), 365 + 365 + 365 + 31 + 28);
    assert_eq!(span.whole_minutes(), (365 + 365 + 365 + 31 + 28) * 24 * 60);
}

#[test]
fn birthday_text() {
    let bd = Birthday::new(Month::January, 13).unwrap();
    assert_eq!(bd.to_string(), "January 13");
    assert_eq!(bd.to_iso_string(), "01-13");
    let bd = Birthday::new(Month::December, 5).unwrap();
    assert_eq!(bd.to_string(), "December 5");
    assert_eq!(bd.to_iso_string(), "12-05");
    let names: Vec<String> = months().iter().map(|m| m.name()).collect();
    assert_eq!(
        names,
        vec![
            "January",
            "February",
            "March",
            "April",
            "May",
            "June",
            "July",
            "August",
            "September",
            "October",
            "November",
            "December"
        ]
    );
}

#[test]
fn month_numbers_round_trip() {
    for (i, m) in months().iter().enumerate() {
        assert_eq!(m.number() as usize, i + 1);
        assert_eq!(Month::from_number(m.number()), Some(*m));
    }
    assert_eq!(Month::from_number(0), None);
    assert_eq!(Month::from_number(13), None);
}

#[test]
fn duration_parts() {
    let d = Duration::new(90_061, 500).unwrap();
    assert_eq!(d.whole_days(), 1);
    assert_eq!(d.whole_hours(), 25);
    assert_eq!(d.whole_minutes(), 1501);
    assert_eq!(d.whole_seconds(), 90_061);
    assert_eq!(d.subsec_nanoseconds(), 500);
    let d = Duration::new(1, -1_500_000_000).unwrap();
    assert_eq!(d.whole_seconds(), 0);
    assert_eq!(d.subsec_nanoseconds(), -500_000_000);
    assert!(d.is_negative());
    assert!(Duration::new(i64::MAX, 1_000_000_000).is_none());
    assert!(Duration::new(i64::MIN, -1_000_000_000).is_none());
    assert!(Duration::new(i64::MAX, 999_999_999).is_some());
    assert_eq!(Duration::new(i64::MAX, -1).unwrap().whole_seconds(), i64::MAX - 1);
}

#[test]
fn duration_rounded_text_comes_from_the_largest_unit() {
    assert_eq!(Duration::seconds(5 * 86_400).to_rounded_string(), "5d");
    assert_eq!(Duration::seconds(-36_000).to_rounded_string(), "-10h");
    assert_eq!(Duration::seconds(0).to_rounded_string(), "0s");
    assert_eq!(Duration::seconds(90).to_rounded_string(), "2m");
}

#[test]
fn instants_need_a_time_of_the_day() {
    let d = date(2024, Month::January, 13);
    assert!(DateTime::new(d, 23, 59, 59, 999_999_999).is_some());
    assert!(DateTime::new(d, 24, 0, 0, 0).is_none());
    assert!(DateTime::new(d, 0, 60, 0, 0).is_none());
    assert!(DateTime::new(d, 0, 0, 60, 0).is_none());
    assert!(DateTime::new(d, 0, 0, 0, 1_000_000_000).is_none());
    let t = DateTime::new(d, 1, 2, 3, 4).unwrap();
    assert_eq!((t.date(), t.hour(), t.minute(), t.second(), t.nanosecond()), (d, 1, 2, 3, 4));
}
