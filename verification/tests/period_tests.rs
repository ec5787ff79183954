use time_period_checker::Date;
use time_period_checker::TimePeriod;
use time_period_checker::Weekday;
use time_period_checker::calculate_easter;
use time_period_checker::get_current_period;
use time_period_checker::last_weekday_of_month;
use time_period_checker::nth_weekday_of_month;
use time_period_checker::parse_flexible_date;
use time_period_checker::period_from_yaml;

#[test]
fn test_fixed_date_parsing() {
    let date = parse_flexible_date("February 6", 2025);
    assert_eq!(date, Some(Date::from_ymd_opt(2025, 2, 6).unwrap()));
}

#[test]
fn test_easter_date() {
    let easter = calculate_easter(2025);
    assert_eq!(easter, Date::from_ymd_opt(2025, 4, 20).unwrap());
}

#[test]
fn test_nth_weekday_of_month() {
    let date = nth_weekday_of_month(2025, 5, Weekday::Sun, 2);
    assert_eq!(date, Some(Date::from_ymd_opt(2025, 5, 11).unwrap())); // 2nd Sunday of May
}

#[test]
fn test_last_weekday_of_month() {
    let date = last_weekday_of_month(2025, 5, Weekday::Mon);
    assert_eq!(date, Some(Date::from_ymd_opt(2025, 5, 26).unwrap())); // Memorial Day
}

#[test]
fn test_parse_the_second_sunday() {
    let date = parse_flexible_date("The second Sunday of May", 2025);
    assert_eq!(date, Some(Date::from_ymd_opt(2025, 5, 11).unwrap()));
}

#[test]
fn test_parse_thanksgiving() {
    let date = parse_flexible_date("Thanksgiving", 2025);
    assert_eq!(date, Some(Date::from_ymd_opt(2025, 11, 27).unwrap())); // 4th Thursday of Nov
}

#[test]
fn test_get_current_period_match() {
    let mut periods = Vec::new();
    periods.push((
        "MyPeriod".to_string(),
        TimePeriod {
            date: "February 6".to_string(),
            days_before: 2,
            days_after: 2,
        },
    ));
    let test_date = Date::from_ymd_opt(2025, 2, 5).unwrap();
    assert_eq!(get_current_period(&periods, test_date), "MyPeriod");
}

#[test]
fn test_get_current_period_multiple_matches() {
    let mut periods = Vec::new();
    periods.push((
        "Period1".to_string(),
        TimePeriod {
            date: "February 6".to_string(),
            days_before: 2,
            days_after: 2,
        },
    ));
    periods.push((
        "Period2".to_string(),
        TimePeriod {
            date: "February 6".to_string(),
            days_before: 1,
            days_after: 1,
        },
    ));
    let test_date = Date::from_ymd_opt(2025, 2, 6).unwrap();
    // both periods contain the date; the one earlier in the list wins
    assert_eq!(get_current_period(&periods, test_date), "Period1");
}

#[test]
fn test_get_current_period_no_match() {
    let mut periods = Vec::new();
    periods.push((
        "MyPeriod".to_string(),
        TimePeriod {
            date: "February 6".to_string(),
            days_before: 2,
            days_after: 2,
        },
    ));
    let test_date = Date::from_ymd_opt(2025, 3, 1).unwrap();
    assert_eq!(get_current_period(&periods, test_date), "Default");
}

#[test]
fn test_yaml_deserialization() {
    let yaml = r#"
Date: Easter
DaysBefore: 3
DaysAfter: 2
Comment: Easter celebration
"#;
    let v: serde_yaml::Value = serde_yaml::from_str(yaml).unwrap();
    let tp: TimePeriod = period_from_yaml(&v).unwrap();
    assert_eq!(tp.date, "Easter");
    assert_eq!(tp.days_before, 3);
    assert_eq!(tp.days_after, 2);
}

#[test]
fn test_parse_invalid_flexible_date() {
    assert_eq!(parse_flexible_date("Invalid date", 2025), None);
}
