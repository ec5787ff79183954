use time_period_checker::Date;
use time_period_checker::TimePeriod;
use time_period_checker::Weekday;
use time_period_checker::calculate_easter;
use time_period_checker::default_config_yaml;
use time_period_checker::get_current_period;
use time_period_checker::last_weekday_of_month;
use time_period_checker::load_yaml_file;
use time_period_checker::nth_weekday_of_month;
use time_period_checker::parse_flexible_date;
use time_period_checker::period_matches;

#[test]
fn easter_always_between_march_22_and_april_25() {
    for year in 1900..=2099 {
        let e = calculate_easter(year);
        assert_eq!(e.year, year);
        assert!(
            (e.month == 3 && (22..=31).contains(&e.day)) || (e.month == 4 && (1..=25).contains(&e.day)),
            "Easter {} fell on {}-{}",
            year,
            e.month,
            e.day
        );
    }
}

#[test]
fn easter_known_dates() {
    assert_eq!(calculate_easter(2024), Date::from_ymd_opt(2024, 3, 31).unwrap());
    assert_eq!(calculate_easter(2000), Date::from_ymd_opt(2000, 4, 23).unwrap());
    assert_eq!(calculate_easter(1943), Date::from_ymd_opt(1943, 4, 25).unwrap());
    assert_eq!(calculate_easter(2008), Date::from_ymd_opt(2008, 3, 23).unwrap());
}

#[test]
fn weekday_of_known_date() {
    assert_eq!(Date::from_ymd_opt(2025, 1, 1).unwrap().weekday(), Weekday::Wed);
    assert_eq!(Date::from_ymd_opt(2025, 5, 11).unwrap().weekday(), Weekday::Sun);
    assert_eq!(Date::from_ymd_opt(2024, 2, 29).unwrap().weekday(), Weekday::Thu);
}

#[test]
fn nth_weekday_counts_occurrences() {
    // the Sundays of May 2025 are the 4th, 11th, 18th and 25th
    assert_eq!(
        nth_weekday_of_month(2025, 5, Weekday::Sun, 1),
        Some(Date::from_ymd_opt(2025, 5, 4).unwrap())
    );
    assert_eq!(
        nth_weekday_of_month(2025, 5, Weekday::Sun, 2),
        Some(Date::from_ymd_opt(2025, 5, 11).unwrap())
    );
    assert_eq!(
        nth_weekday_of_month(2025, 5, Weekday::Sun, 3),
        Some(Date::from_ymd_opt(2025, 5, 18).unwrap())
    );
    assert_eq!(
        nth_weekday_of_month(2025, 5, Weekday::Sun, 4),
        Some(Date::from_ymd_opt(2025, 5, 25).unwrap())
    );
    assert_eq!(nth_weekday_of_month(2025, 5, Weekday::Sun, 5), None);
    // August 2025 has five Fridays
    assert_eq!(
        nth_weekday_of_month(2025, 8, Weekday::Fri, 5),
        Some(Date::from_ymd_opt(2025, 8, 29).unwrap())
    );
}

#[test]
fn nth_weekday_rejects_out_of_range_ordinals() {
    assert_eq!(nth_weekday_of_month(2025, 5, Weekday::Sun, 0), None);
    assert_eq!(nth_weekday_of_month(2025, 5, Weekday::Sun, -1), None);
    assert_eq!(nth_weekday_of_month(2025, 13, Weekday::Sun, 1), None);
}

#[test]
fn last_weekday_examples() {
    // February 28, 2025 is a Friday; February 29, 2024 is a Thursday
    assert_eq!(
        last_weekday_of_month(2025, 2, Weekday::Fri),
        Some(Date::from_ymd_opt(2025, 2, 28).unwrap())
    );
    assert_eq!(
        last_weekday_of_month(2024, 2, Weekday::Thu),
        Some(Date::from_ymd_opt(2024, 2, 29).unwrap())
    );
    assert_eq!(
        last_weekday_of_month(2025, 5, Weekday::Sat),
        Some(Date::from_ymd_opt(2025, 5, 31).unwrap())
    );
}

#[test]
fn parse_holiday_names_case_insensitively() {
    assert_eq!(
        parse_flexible_date("  eAsTeR  ", 2025),
        Some(Date::from_ymd_opt(2025, 4, 20).unwrap())
    );
    assert_eq!(
        parse_flexible_date("LaborDay", 2025),
        Some(Date::from_ymd_opt(2025, 9, 1).unwrap())
    );
    assert_eq!(
        parse_flexible_date("MemorialDay", 2025),
        Some(Date::from_ymd_opt(2025, 5, 26).unwrap())
    );
    assert_eq!(
        parse_flexible_date("MLKDay", 2025),
        Some(Date::from_ymd_opt(2025, 1, 20).unwrap())
    );
}

#[test]
fn parse_ordinal_phrase_rejections() {
    // ordinal not in the recognized set; the phrase rule fails as a whole
    assert_eq!(parse_flexible_date("The sixth Sunday of May", 2025), None);
    assert_eq!(parse_flexible_date("The second Funday of May", 2025), None);
    assert_eq!(parse_flexible_date("The second Sunday in May", 2025), None);
    assert_eq!(parse_flexible_date("The second Sunday of Smarch", 2025), None);
}

#[test]
fn parse_fixed_date_forms() {
    assert_eq!(
        parse_flexible_date("February 06", 2025),
        Some(Date::from_ymd_opt(2025, 2, 6).unwrap())
    );
    assert_eq!(
        parse_flexible_date("february 6", 2025),
        Some(Date::from_ymd_opt(2025, 2, 6).unwrap())
    );
    // abbreviations are not recognized, only full month names
    assert_eq!(parse_flexible_date("Feb 6", 2025), None);
    // days that do not exist in the month do not resolve
    assert_eq!(parse_flexible_date("February 30", 2025), None);
    assert_eq!(parse_flexible_date("February 29", 2025), None);
    assert_eq!(
        parse_flexible_date("February 29", 2024),
        Some(Date::from_ymd_opt(2024, 2, 29).unwrap())
    );
}

#[test]
fn matcher_on_empty_list_answers_default() {
    let periods: Vec<(String, TimePeriod)> = Vec::new();
    let d = Date::from_ymd_opt(2025, 1, 15).unwrap();
    assert_eq!(get_current_period(&periods, d), "Default");
}

#[test]
fn window_is_inclusive_at_both_endpoints() {
    let tp = TimePeriod {
        date: "February 6".to_string(),
        days_before: 2,
        days_after: 3,
    };
    // the window runs from February 4 through February 9, inclusive
    assert!(!period_matches(&tp, Date::from_ymd_opt(2025, 2, 3).unwrap()));
    for day in 4..=9 {
        assert!(period_matches(&tp, Date::from_ymd_opt(2025, 2, day).unwrap()));
    }
    assert!(!period_matches(&tp, Date::from_ymd_opt(2025, 2, 10).unwrap()));
}

#[test]
fn negative_offsets_shift_the_window() {
    // a negative DaysBefore moves the window start past the anchor
    let tp = TimePeriod {
        date: "February 6".to_string(),
        days_before: -1,
        days_after: 2,
    };
    assert!(!period_matches(&tp, Date::from_ymd_opt(2025, 2, 6).unwrap()));
    assert!(period_matches(&tp, Date::from_ymd_opt(2025, 2, 7).unwrap()));
    assert!(period_matches(&tp, Date::from_ymd_opt(2025, 2, 8).unwrap()));
    assert!(!period_matches(&tp, Date::from_ymd_opt(2025, 2, 9).unwrap()));
}

#[test]
fn unresolvable_anchor_never_matches() {
    let tp = TimePeriod {
        date: "Invalid date".to_string(),
        days_before: 1000,
        days_after: 1000,
    };
    assert!(!period_matches(&tp, Date::from_ymd_opt(2025, 2, 6).unwrap()));
}

fn default_periods() -> Vec<(String, TimePeriod)> {
    load_yaml_file(default_config_yaml())
}

#[test]
fn scenario_mothers_day() {
    let d = Date::from_ymd_opt(2025, 5, 11).unwrap();
    assert_eq!(get_current_period(&default_periods(), d), "MothersDay");
}

#[test]
fn scenario_easter_period() {
    let d = Date::from_ymd_opt(2025, 4, 20).unwrap();
    assert_eq!(get_current_period(&default_periods(), d), "EasterPeriod");
}

#[test]
fn scenario_thanksgiving() {
    let d = Date::from_ymd_opt(2025, 11, 27).unwrap();
    assert_eq!(get_current_period(&default_periods(), d), "Thanksgiving");
}

#[test]
fn scenario_tamara_birthday() {
    let d = Date::from_ymd_opt(2025, 2, 6).unwrap();
    assert_eq!(get_current_period(&default_periods(), d), "TamaraBirthday");
}

#[test]
fn scenario_window_crosses_month_boundary() {
    // TamaraBirthday runs from January 30 through February 6
    let d = Date::from_ymd_opt(2025, 1, 31).unwrap();
    assert_eq!(get_current_period(&default_periods(), d), "TamaraBirthday");
    let before = Date::from_ymd_opt(2025, 1, 29).unwrap();
    assert_eq!(get_current_period(&default_periods(), before), "Default");
}

#[test]
fn anchors_are_recomputed_in_the_query_year() {
    // a window reaching past December 31 never matches the next year's days,
    // because the anchor is resolved anew in the query date's year
    let mut periods = Vec::new();
    periods.push((
        "NewYear".to_string(),
        TimePeriod {
            date: "December 31".to_string(),
            days_before: 0,
            days_after: 2,
        },
    ));
    assert_eq!(
        get_current_period(&periods, Date::from_ymd_opt(2025, 12, 31).unwrap()),
        "NewYear"
    );
    assert_eq!(
        get_current_period(&periods, Date::from_ymd_opt(2026, 1, 1).unwrap()),
        "Default"
    );
}

#[test]
fn scenario_uncovered_date_is_default() {
    let d = Date::from_ymd_opt(2025, 1, 15).unwrap();
    assert_eq!(get_current_period(&default_periods(), d), "Default");
}

#[test]
fn scenario_mlk_reflection() {
    let d = Date::from_ymd_opt(2025, 1, 20).unwrap();
    assert_eq!(get_current_period(&default_periods(), d), "MLKReflection");
}
