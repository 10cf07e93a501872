use waifu_calendar::{Date, InvalidCalendarDate, Month};

#[test]
fn date_exists_only_where_the_calendar_has_it() {
    assert!(Date::from_calendar_date(2024, Month::February, 29).is_ok());
    assert_eq!(
        Date::from_calendar_date(2025, Month::February, 29),
        Err(InvalidCalendarDate)
    );
    assert!(Date::from_calendar_date(2100, Month::February, 29).is_err());
    assert!(Date::from_calendar_date(2000, Month::February, 29).is_ok());
    assert!(Date::from_calendar_date(2024, Month::April, 31).is_err());
    assert!(Date::from_calendar_date(2024, Month::April, 0).is_err());
    assert!(Date::from_calendar_date(10000, Month::January, 1).is_err());
    assert!(Date::from_calendar_date(-9999, Month::January, 1).is_ok());
    assert!(Date::from_calendar_date(-10000, Month::December, 31).is_err());
}

#[test]
fn date_ordinal_and_julian_day() {
    let d = Date::from_calendar_date(2000, Month::January, 1).unwrap();
    assert_eq!(d.ordinal(), 1);
    assert_eq!(d.to_julian_day(), 2_451_545);
    let d = Date::from_calendar_date(2019, Month::December, 31).unwrap();
    assert_eq!(d.ordinal(), 365);
    assert_eq!(d.to_julian_day(), 2_458_849);
    let d = Date::from_calendar_date(2024, Month::March, 1).unwrap();
    assert_eq!(d.ordinal(), 61);
    let d = Date::from_calendar_date(-4713, Month::November, 24).unwrap();
    assert_eq!(d.to_julian_day(), 0);
}

#[test]
fn date_text_is_iso() {
    let d = Date::from_calendar_date(2024, Month::January, 13).unwrap();
    assert_eq!(d.to_string(), "2024-01-13");
    let d = Date::from_calendar_date(7, Month::December, 3).unwrap();
    assert_eq!(d.to_string(), "0007-12-03");
    let d = Date::from_calendar_date(-44, Month::March, 15).unwrap();
    assert_eq!(d.to_string(), "-0044-03-15");
}
