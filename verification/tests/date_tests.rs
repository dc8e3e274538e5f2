use std::str::FromStr;
use task_server::date::Date;

#[test]
fn new_okay() {
    let date = Date::new(2023, 10, 20).unwrap();

    assert!(
        date.year() == 2023 &&
        date.month() == 10 &&
        date.day() == 20
    );
}

#[test]
fn new_invalid_year() {
    assert!(
        match Date::new(0, 10, 20) {
            Ok(_) => false,
            Err(_) => true,
        }
    )
}

#[test]
fn new_invalid_month() {
    assert!(
        match Date::new(2023, 15, 20) {
            Ok(_) => false,
            Err(_) => true,
        }
    )
}

#[test]
fn new_invalid_day() {
    assert!(
        match Date::new(2023, 10, 35) {
            Ok(_) => false,
            Err(_) => true,
        }
    )
}

#[test]
fn new_valid_leap_year() {
    assert!(
        match Date::new(2024, 2, 29) {
            Ok(_) => true,
            Err(_) => false,
        }
    )
}

#[test]
fn new_invalid_leap_year() {
    assert!(
        match Date::new(2023, 2, 29) {
            Ok(_) => false,
            Err(_) => true,
        }
    )
}

#[test]
fn to_string() {
    let date = Date::new(2004, 8, 1).unwrap();

    assert_eq!(date.format(), "08/01/2004");
}

#[test]
fn from_string_okay() {
    let date = Date::from_str("4/12/2030").unwrap();

    assert!(
        date.year() == 2030 &&
        date.month() == 4 &&
        date.day() == 12
    );
}

#[test]
fn from_string_invalid_year() {
    assert!(
        match Date::from_str("12/1/5000") {
            Ok(_) => false,
            Err(_) => true,
        }
    )
}

#[test]
fn from_string_invalid_month() {
    assert!(
        match Date::from_str("15/1/2030") {
            Ok(_) => false,
            Err(_) => true,
        }
    )
}

#[test]
fn from_string_invalid_day() {
    assert!(
        match Date::from_str("12/0/2030") {
            Ok(_) => false,
            Err(_) => true,
        }
    )
}

#[test]
fn from_string_invalid() {
    assert!(
        match Date::from_str("bee/gees") {
            Ok(_) => false,
            Err(_) => true,
        }
    )
}

#[test]
fn set_year_valid() {
    let mut date = Date::new(2023, 10, 27).unwrap();

    assert!(
        match date.set_year(2025) {
            Ok(_) => true,
            Err(_) => false,
        }
    )
}

#[test]
fn set_year_invalid() {
    let mut date = Date::new(2023, 10, 27).unwrap();

    assert!(
        match date.set_year(8111) {
            Ok(_) => false,
            Err(_) => true,
        }
    )
}

#[test]
fn set_month_valid() {
    let mut date = Date::new(2023, 10, 27).unwrap();

    assert!(
        match date.set_month(5) {
            Ok(_) => true,
            Err(_) => false,
        }
    )
}

#[test]
fn set_month_invalid() {
    let mut date = Date::new(2023, 10, 27).unwrap();

    assert!(
        match date.set_month(80) {
            Ok(_) => false,
            Err(_) => true,
        }
    )
}

#[test]
fn set_day_valid() {
    let mut date = Date::new(2023, 10, 27).unwrap();

    assert!(
        match date.set_day(19, 10, false) {
            Ok(_) => true,
            Err(_) => false,
        }
    )
}

#[test]
fn set_day_invalid() {
    let mut date = Date::new(2023, 10, 27).unwrap();

    assert!(
        match date.set_day(50, 10, false) {
            Ok(_) => false,
            Err(_) => true,
        }
    )
}

#[test]
fn difference_negative() {
    let d1 = Date::new(2023, 10, 27).unwrap();
    let d2 = Date::new(2023, 11, 19).unwrap();

    assert!(
        Date::difference(&d1, &d2) < 0
    )
}

#[test]
fn difference_zero() {
    let d1 = Date::new(2023, 10, 27).unwrap();
    let d2 = Date::new(2023, 10, 27).unwrap();

    assert!(
        Date::difference(&d1, &d2) == 0
    )
}

#[test]
fn difference_positive() {
    let d1 = Date::new(2023, 10, 27).unwrap();
    let d2 = Date::new(2023, 11, 19).unwrap();

    assert!(
        Date::difference(&d2, &d1) > 0
    )
}

#[test]
fn today_or_later_before() {
    let date = Date::new(2020, 4, 1).unwrap();

    assert!(
        !Date::is_today_or_later(&date)
    )
}

#[test]
fn today_or_later_now() {
    let date = Date::today();

    assert!(
        Date::is_today_or_later(&date)
    )
}

#[test]
fn today_or_later_after() {
    let date = Date::new(2080, 12, 17).unwrap();

    assert!(
        Date::is_today_or_later(&date)
    )
}

#[test]
fn difference_exact_values() {
    let d1 = Date::new(2023, 10, 27).unwrap();
    let d2 = Date::new(2023, 11, 19).unwrap();
    assert_eq!(Date::difference(&d2, &d1), 23);
    assert_eq!(Date::difference(&d1, &d2), -23);

    let first = Date::new(1970, 1, 1).unwrap();
    let last = Date::new(2100, 12, 31).unwrap();
    assert_eq!(Date::difference(&last, &first), 47846);
}

#[test]
fn difference_across_leap_day() {
    let before = Date::new(2024, 2, 28).unwrap();
    let after = Date::new(2024, 3, 1).unwrap();
    assert_eq!(Date::difference(&after, &before), 2);

    let before = Date::new(2023, 2, 28).unwrap();
    let after = Date::new(2023, 3, 1).unwrap();
    assert_eq!(Date::difference(&after, &before), 1);
}

#[test]
fn leap_year_century_rule() {
    assert!(Date::new(2000, 2, 29).is_ok());
    assert!(Date::new(2024, 2, 29).is_ok());
    assert!(Date::new(2023, 2, 29).is_err());
}

#[test]
fn format_parse_round_trip() {
    let d = Date::new(1970, 1, 1).unwrap();
    assert_eq!(d.format(), "01/01/1970");
    let back = Date::from_str(&d.format()).unwrap();
    assert!(back.year() == 1970 && back.month() == 1 && back.day() == 1);

    let d = Date::new(2100, 12, 31).unwrap();
    let back = Date::from_str(&d.format()).unwrap();
    assert!(back.year() == 2100 && back.month() == 12 && back.day() == 31);
}

#[test]
fn parse_rejects_padding_and_signs() {
    assert!(Date::from_str("4/12/2030 ").is_err());
    assert!(Date::from_str("+4/12/2030").is_err());
    assert!(Date::from_str("4//2030").is_err());
    assert!(Date::from_str("4/12/2030/1").is_err());
    assert!(Date::from_str("").is_err());
    assert!(Date::from_str("04/012/2030").is_ok());
}

#[test]
fn set_year_rejects_leap_day_loss() {
    let mut date = Date::new(2024, 2, 29).unwrap();
    assert!(date.set_year(2023).is_err());
    assert!(date.year() == 2024 && date.month() == 2 && date.day() == 29);
    assert!(date.set_year(2028).is_ok());
    assert!(date.year() == 2028);
}

#[test]
fn set_month_rejects_short_month() {
    let mut date = Date::new(2023, 10, 31).unwrap();
    assert!(date.set_month(11).is_err());
    assert!(date.month() == 10);
    assert!(date.set_month(12).is_ok());
    assert!(date.month() == 12);
}

#[test]
fn clamped_reading_keeps_or_clamps() {
    let kept = Date::from_clamped_ymd(2030, 4, 12);
    assert!(kept.year() == 2030 && kept.month() == 4 && kept.day() == 12);

    let low = Date::from_clamped_ymd(1969, 12, 31);
    assert!(low.year() == 1970 && low.month() == 1 && low.day() == 1);

    let high = Date::from_clamped_ymd(2101, 1, 1);
    assert!(high.year() == 2100 && high.month() == 12 && high.day() == 31);
}

#[test]
fn on_or_after_matches_difference_sign() {
    let earlier = Date::new(2030, 4, 10).unwrap();
    let later = Date::new(2030, 4, 12).unwrap();
    assert!(Date::is_on_or_after(&later, &earlier));
    assert!(Date::is_on_or_after(&later, &later));
    assert!(!Date::is_on_or_after(&earlier, &later));
}

#[test]
fn set_day_validates_against_stored_month() {
    // the stored month and leap status decide, whatever context the caller passes
    let mut date = Date::new(2023, 10, 27).unwrap();
    assert!(date.set_day(19, 2, true).is_ok());
    assert!(date.year() == 2023 && date.month() == 10 && date.day() == 19);

    let mut feb = Date::new(2023, 2, 10).unwrap();
    assert!(feb.set_day(30, 1, false).is_err());
    assert!(feb.year() == 2023 && feb.month() == 2 && feb.day() == 10);
}
