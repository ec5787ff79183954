//! The anchor-date expression language: named movable holidays, ordinal
//! weekday phrases ("The second Sunday of May"), and fixed dates
//! ("February 6"), resolved against a given year.
//!
//! The rules are tried in a fixed priority order and the first whose shape
//! fits decides the outcome: an expression shaped like an ordinal weekday
//! phrase whose sub-tokens do not all resolve yields no date, rather than
//! being read as a fixed date.

use vstd::prelude::*;
use crate::dates::{Date, Weekday, spec_valid_date};
use crate::easter::{calculate_easter, spec_easter};
use crate::text::{ci_matches, spec_day_token, spec_split_ws, split_whitespace_tokens, token_ci_eq};
use crate::weekdays::{
    last_weekday_of_month, lemma_last_weekday_correct, lemma_nth_weekday_correct,
    nth_weekday_of_month, spec_date_of, spec_last_weekday_day, spec_nth_weekday_day,
};

verus! {

/// Ordinal denoted by a token: "first" through "fifth".
pub open spec fn spec_ordinal(t: Seq<char>) -> Option<i64> {
    if ci_matches(t, "first"@) {
        Some(1i64)
    } else if ci_matches(t, "second"@) {
        Some(2i64)
    } else if ci_matches(t, "third"@) {
        Some(3i64)
    } else if ci_matches(t, "fourth"@) {
        Some(4i64)
    } else if ci_matches(t, "fifth"@) {
        Some(5i64)
    } else {
        None
    }
}

/// Weekday denoted by a token: a full English weekday name.
pub open spec fn spec_weekday_name(t: Seq<char>) -> Option<Weekday> {
    if ci_matches(t, "monday"@) {
        Some(Weekday::Mon)
    } else if ci_matches(t, "tuesday"@) {
        Some(Weekday::Tue)
    } else if ci_matches(t, "wednesday"@) {
        Some(Weekday::Wed)
    } else if ci_matches(t, "thursday"@) {
        Some(Weekday::Thu)
    } else if ci_matches(t, "friday"@) {
        Some(Weekday::Fri)
    } else if ci_matches(t, "saturday"@) {
        Some(Weekday::Sat)
    } else if ci_matches(t, "sunday"@) {
        Some(Weekday::Sun)
    } else {
        None
    }
}

/// Month number denoted by a token: a full English month name.
pub open spec fn spec_month_name(t: Seq<char>) -> Option<u32> {
    if ci_matches(t, "january"@) {
        Some(1u32)
    } else if ci_matches(t, "february"@) {
        Some(2u32)
    } else if ci_matches(t, "march"@) {
        Some(3u32)
    } else if ci_matches(t, "april"@) {
        Some(4u32)
    } else if ci_matches(t, "may"@) {
        Some(5u32)
    } else if ci_matches(t, "june"@) {
        Some(6u32)
    } else if ci_matches(t, "july"@) {
        Some(7u32)
    } else if ci_matches(t, "august"@) {
        Some(8u32)
    } else if ci_matches(t, "september"@) {
        Some(9u32)
    } else if ci_matches(t, "october"@) {
        Some(10u32)
    } else if ci_matches(t, "november"@) {
        Some(11u32)
    } else if ci_matches(t, "december"@) {
        Some(12u32)
    } else {
        None
    }
}

/// Whether a single token names a movable holiday.
pub open spec fn spec_is_holiday_name(t: Seq<char>) -> bool {
    ||| ci_matches(t, "easter"@)
    ||| ci_matches(t, "thanksgiving"@)
    ||| ci_matches(t, "laborday"@)
    ||| ci_matches(t, "memorialday"@)
    ||| ci_matches(t, "mlkday"@)
}

/// Date of Easter Sunday as a `Date` value.
pub open spec fn spec_easter_date(year: i32) -> Date {
    Date {
        year,
        month: spec_easter(year as int).0 as u32,
        day: spec_easter(year as int).1 as u32,
    }
}

/// Date a holiday name resolves to: Easter by the computus, the others by
/// their United States conventions.
pub open spec fn spec_holiday_date(t: Seq<char>, year: i32) -> Option<Date> {
    if ci_matches(t, "easter"@) {
        if 1 <= year <= 9999 {
            Some(spec_easter_date(year))
        } else {
            None
        }
    } else if ci_matches(t, "thanksgiving"@) {
        spec_date_of(year as int, 11, spec_nth_weekday_day(year as int, 11, Weekday::Thu, 4))
    } else if ci_matches(t, "laborday"@) {
        spec_date_of(year as int, 9, spec_nth_weekday_day(year as int, 9, Weekday::Mon, 1))
    } else if ci_matches(t, "memorialday"@) {
        spec_date_of(year as int, 5, spec_last_weekday_day(year as int, 5, Weekday::Mon))
    } else if ci_matches(t, "mlkday"@) {
        spec_date_of(year as int, 1, spec_nth_weekday_day(year as int, 1, Weekday::Mon, 3))
    } else {
        None
    }
}

/// Date an ordinal weekday phrase resolves to, from its ordinal, weekday and
/// month tokens; `None` when any sub-token is not in its set or the month has
/// too few of that weekday.
pub open spec fn spec_phrase_date(
    ord: Seq<char>,
    wd: Seq<char>,
    mon: Seq<char>,
    year: i32,
) -> Option<Date> {
    match (spec_ordinal(ord), spec_weekday_name(wd), spec_month_name(mon)) {
        (Some(n), Some(w), Some(m)) => spec_date_of(
            year as int,
            m as int,
            spec_nth_weekday_day(year as int, m as int, w, n as int),
        ),
        _ => None,
    }
}

/// Date a fixed-date expression resolves to: a month name and a day number,
/// combined with the year; `None` when the shape or any part does not fit, or
/// the day does not exist in that month of that year.
pub open spec fn spec_fixed_date(ts: Seq<Seq<char>>, year: i32) -> Option<Date> {
    if ts.len() == 2 {
        match (spec_month_name(ts[0]), spec_day_token(ts[1])) {
            (Some(m), Some(d)) => if spec_valid_date(year as int, m as int, d as int) {
                Some(Date { year, month: m, day: d })
            } else {
                None
            },
            _ => None,
        }
    } else {
        None
    }
}

/// Date an anchor expression resolves to. The expression's whitespace-
/// separated tokens are matched, case-insensitively, against three rules in
/// priority order: a holiday name, an ordinal weekday phrase
/// "the <ordinal> <weekday> of <month>", and a fixed date "<month> <day>".
pub open spec fn spec_parse_flexible(s: Seq<char>, year: i32) -> Option<Date> {
    let ts = spec_split_ws(s);
    if ts.len() == 1 && spec_is_holiday_name(ts[0]) {
        spec_holiday_date(ts[0], year)
    } else if ts.len() == 5 && ci_matches(ts[0], "the"@) && ci_matches(ts[3], "of"@) {
        spec_phrase_date(ts[1], ts[2], ts[4], year)
    } else {
        spec_fixed_date(ts, year)
    }
}

/// Whatever date an anchor expression resolves to is a valid calendar date in
/// the requested year.
pub proof fn lemma_parse_flexible_valid(s: Seq<char>, year: i32)
    requires
        spec_parse_flexible(s, year) is Some,
    ensures
        spec_parse_flexible(s, year)->Some_0.valid(),
        spec_parse_flexible(s, year)->Some_0.year == year,
{
    let ts = spec_split_ws(s);
    let y = year as int;
    if ts.len() == 1 && spec_is_holiday_name(ts[0]) {
        let t = ts[0];
        if ci_matches(t, "easter"@) && 1 <= year <= 9999 {
            crate::easter::lemma_easter_range(y);
        } else if ci_matches(t, "thanksgiving"@) {
            lemma_nth_weekday_correct(y, 11, Weekday::Thu, 4);
        } else if ci_matches(t, "laborday"@) {
            lemma_nth_weekday_correct(y, 9, Weekday::Mon, 1);
        } else if ci_matches(t, "memorialday"@) && 1 <= y <= 9999 {
            lemma_last_weekday_correct(y, 5, Weekday::Mon);
        } else if ci_matches(t, "mlkday"@) {
            lemma_nth_weekday_correct(y, 1, Weekday::Mon, 3);
        }
    } else if ts.len() == 5 && ci_matches(ts[0], "the"@) && ci_matches(ts[3], "of"@) {
        match (spec_ordinal(ts[1]), spec_weekday_name(ts[2]), spec_month_name(ts[4])) {
            (Some(n), Some(w), Some(m)) => {
                if spec_nth_weekday_day(y, m as int, w, n as int) is Some {
                    lemma_nth_weekday_correct(y, m as int, w, n as int);
                }
            },
            _ => {},
        }
    }
}

/// Month number of a token holding a full English month name.
fn month_from_name(t: &str) -> (r: Option<u32>)
    ensures
        r == spec_month_name(t@),
{
    if token_ci_eq(t, "january") {
        Some(1)
    } else if token_ci_eq(t, "february") {
        Some(2)
    } else if token_ci_eq(t, "march") {
        Some(3)
    } else if token_ci_eq(t, "april") {
        Some(4)
    } else if token_ci_eq(t, "may") {
        Some(5)
    } else if token_ci_eq(t, "june") {
        Some(6)
    } else if token_ci_eq(t, "july") {
        Some(7)
    } else if token_ci_eq(t, "august") {
        Some(8)
    } else if token_ci_eq(t, "september") {
        Some(9)
    } else if token_ci_eq(t, "october") {
        Some(10)
    } else if token_ci_eq(t, "november") {
        Some(11)
    } else if token_ci_eq(t, "december") {
        Some(12)
    } else {
        None
    }
}

/// Ordinal of a token holding "first" through "fifth".
fn ordinal_from_name(t: &str) -> (r: Option<i64>)
    ensures
        r == spec_ordinal(t@),
{
    if token_ci_eq(t, "first") {
        Some(1)
    } else if token_ci_eq(t, "second") {
        Some(2)
    } else if token_ci_eq(t, "third") {
        Some(3)
    } else if token_ci_eq(t, "fourth") {
        Some(4)
    } else if token_ci_eq(t, "fifth") {
        Some(5)
    } else {
        None
    }
}

/// Weekday of a token holding a full English weekday name.
fn weekday_from_name(t: &str) -> (r: Option<Weekday>)
    ensures
        r == spec_weekday_name(t@),
{
    if token_ci_eq(t, "monday") {
        Some(Weekday::Mon)
    } else if token_ci_eq(t, "tuesday") {
        Some(Weekday::Tue)
    } else if token_ci_eq(t, "wednesday") {
        Some(Weekday::Wed)
    } else if token_ci_eq(t, "thursday") {
        Some(Weekday::Thu)
    } else if token_ci_eq(t, "friday") {
        Some(Weekday::Fri)
    } else if token_ci_eq(t, "saturday") {
        Some(Weekday::Sat)
    } else if token_ci_eq(t, "sunday") {
        Some(Weekday::Sun)
    } else {
        None
    }
}

/// Day number of a token holding one or two decimal digits.
fn day_from_token(t: &str) -> (r: Option<u32>)
    ensures
        r == spec_day_token(t@),
{
    let n = t.unicode_len();
    if n == 1 {
        digit_val(t.get_char(0))
    } else if n == 2 {
        let hi = digit_val(t.get_char(0));
        let lo = digit_val(t.get_char(1));
        match (hi, lo) {
            (Some(h), Some(l)) => Some(h * 10 + l),
            _ => None,
        }
    } else {
        None
    }
}

/// Value of a decimal digit character.
fn digit_val(c: char) -> (r: Option<u32>)
    ensures
        r == crate::text::spec_digit(c),
{
    let cu = c as u32;
    if cu >= ('0' as u32) && cu <= ('9' as u32) {
        Some(cu - ('0' as u32))
    } else {
        None
    }
}

/// Resolves an anchor-date expression against a year. The expression's
/// whitespace-separated tokens are matched case-insensitively against three
/// rules in priority order: a movable-holiday name (`Easter`, `Thanksgiving`,
/// `LaborDay`, `MemorialDay`, `MLKDay`), an ordinal weekday phrase
/// ("The second Sunday of May"), and a fixed date ("February 6"). Returns
/// `None` when no rule resolves.
pub fn parse_flexible_date(date_str: &str, year: i32) -> (r: Option<Date>)
    ensures
        r == spec_parse_flexible(date_str@, year),
        r is Some ==> r->Some_0.valid() && r->Some_0.year == year,
{
    proof {
        if spec_parse_flexible(date_str@, year) is Some {
            lemma_parse_flexible_valid(date_str@, year);
        }
    }
    let toks = split_whitespace_tokens(date_str);
    let ghost ts = spec_split_ws(date_str@);
    if toks.len() == 1 {
        let t = toks[0].as_str();
        assert(t@ == ts[0]);
        if token_ci_eq(t, "easter") {
            if 1 <= year && year <= 9999 {
                return Some(calculate_easter(year));
            } else {
                return None;
            }
        }
        if token_ci_eq(t, "thanksgiving") {
            return nth_weekday_of_month(year, 11, Weekday::Thu, 4);
        }
        if token_ci_eq(t, "laborday") {
            return nth_weekday_of_month(year, 9, Weekday::Mon, 1);
        }
        if token_ci_eq(t, "memorialday") {
            return last_weekday_of_month(year, 5, Weekday::Mon);
        }
        if token_ci_eq(t, "mlkday") {
            return nth_weekday_of_month(year, 1, Weekday::Mon, 3);
        }
        // a single token that names no holiday fits no other rule
        return None;
    }
    if toks.len() == 5 {
        if token_ci_eq(toks[0].as_str(), "the") && token_ci_eq(toks[3].as_str(), "of") {
            assert(toks[1]@ == ts[1] && toks[2]@ == ts[2] && toks[4]@ == ts[4]);
            let n = ordinal_from_name(toks[1].as_str());
            let w = weekday_from_name(toks[2].as_str());
            let m = month_from_name(toks[4].as_str());
            return match (n, w, m) {
                (Some(n), Some(w), Some(m)) => nth_weekday_of_month(year, m, w, n),
                _ => None,
            };
        }
        return None;
    }
    if toks.len() == 2 {
        let m = month_from_name(toks[0].as_str());
        let d = day_from_token(toks[1].as_str());
        return match (m, d) {
            (Some(m), Some(d)) => Date::from_ymd_opt(year, m, d),
            _ => None,
        };
    }
    None
}

} // verus!
