//! A Gregorian calendar kernel: dates as plain (year, month, day) values,
//! month lengths, a linear day numbering, and weekdays derived from it.

use vstd::prelude::*;
use vstd::arithmetic::div_mod::{
    lemma_fundamental_div_mod, lemma_fundamental_div_mod_converse_div,
    lemma_fundamental_div_mod_converse_mod, lemma_mod_multiples_vanish,
};

verus! {

/// Days of the week.
#[derive(Clone, Copy, Debug, PartialEq, Eq, Structural)]
pub enum Weekday {
    Mon,
    Tue,
    Wed,
    Thu,
    Fri,
    Sat,
    Sun,
}

impl Weekday {
    /// Numbers the days of the week from Monday, 0 through 6.
    pub open spec fn index(self) -> int {
        match self {
            Weekday::Mon => 0,
            Weekday::Tue => 1,
            Weekday::Wed => 2,
            Weekday::Thu => 3,
            Weekday::Fri => 4,
            Weekday::Sat => 5,
            Weekday::Sun => 6,
        }
    }

    /// Number of this weekday counted from Monday, 0 through 6.
    pub fn as_index(self) -> (i: u32)
        ensures
            i as int == self.index(),
    {
        match self {
            Weekday::Mon => 0,
            Weekday::Tue => 1,
            Weekday::Wed => 2,
            Weekday::Thu => 3,
            Weekday::Fri => 4,
            Weekday::Sat => 5,
            Weekday::Sun => 6,
        }
    }
}

/// Gregorian leap-year rule.
pub open spec fn spec_is_leap_year(y: int) -> bool {
    (y % 4 == 0 && y % 100 != 0) || y % 400 == 0
}

/// Number of days in a month; 0 when the month number is out of range.
pub open spec fn spec_days_in_month(y: int, m: int) -> int {
    if m == 2 {
        if spec_is_leap_year(y) {
            29
        } else {
            28
        }
    } else if m == 4 || m == 6 || m == 9 || m == 11 {
        30
    } else if 1 <= m && m <= 12 {
        31
    } else {
        0
    }
}

/// A calendar date is valid when the year is in the supported range and the
/// day exists in the given month of that year.
pub open spec fn spec_valid_date(y: int, m: int, d: int) -> bool {
    &&& 1 <= y <= 9999
    &&& 1 <= m <= 12
    &&& 1 <= d <= spec_days_in_month(y, m)
}

/// A calendar date, held as plain year, month and day numbers.
#[derive(Clone, Copy, Debug, PartialEq, Eq, Structural)]
pub struct Date {
    pub year: i32,
    pub month: u32,
    pub day: u32,
}

/// Serial number of a date: days counted from March 1 of year 0, so that
/// consecutive calendar days get consecutive numbers. The formula is the
/// standard era/day-of-era decomposition of the Gregorian calendar.
pub open spec fn spec_day_num(y: int, m: int, d: int) -> int {
    let yy = if m <= 2 {
        y - 1
    } else {
        y
    };
    let era = yy / 400;
    let yoe = yy % 400;
    let mp = if m > 2 {
        m - 3
    } else {
        m + 9
    };
    let doy = (153 * mp + 2) / 5 + d - 1;
    let doe = yoe * 365 + yoe / 4 - yoe / 100 + doy;
    era * 146097 + doe
}

/// Weekday of a date, numbered from Monday: the day numbering advances one
/// weekday per day, and its origin is aligned so that 0 means Monday.
pub open spec fn spec_weekday_index(y: int, m: int, d: int) -> int {
    (spec_day_num(y, m, d) + 2) % 7
}

/// Components of the calendar day after (y, m, d).
pub open spec fn spec_next_ymd(y: int, m: int, d: int) -> (int, int, int) {
    if d < spec_days_in_month(y, m) {
        (y, m, d + 1)
    } else if m < 12 {
        (y, m + 1, 1)
    } else {
        (y + 1, 1, 1)
    }
}

/// Days from March 1 of year `yy` to March 1 of year `yy + 1`, written as the
/// day-numbering formula's year part: stepping the year adds the length of
/// the year that ends at the later March 1.
proof fn lemma_year_step(yy: int)
    requires
        1 <= yy,
    ensures
        (yy / 400) * 146097 + (yy % 400) * 365 + (yy % 400) / 4 - (yy % 400) / 100 == ((yy - 1)
            / 400) * 146097 + ((yy - 1) % 400) * 365 + ((yy - 1) % 400) / 4 - ((yy - 1) % 400)
            / 100 + (if spec_is_leap_year(yy) {
            366int
        } else {
            365int
        }),
{
    let a = yy - 1;
    let e0 = a / 400;
    let x0 = a % 400;
    lemma_fundamental_div_mod(a, 400);
    let x = x0 + 1;
    if x == 400 {
        assert(yy == 400 * (e0 + 1));
        lemma_fundamental_div_mod_converse_div(yy, 400, e0 + 1, 0);
        lemma_fundamental_div_mod_converse_mod(yy, 400, e0 + 1, 0);
        lemma_fundamental_div_mod_converse_mod(yy, 4, 100 * (e0 + 1), 0);
        assert(x0 / 4 == 99 && x0 / 100 == 3);
    } else {
        lemma_fundamental_div_mod_converse_div(yy, 400, e0, x);
        lemma_fundamental_div_mod_converse_mod(yy, 400, e0, x);
        assert(yy % 4 == x % 4) by {
            lemma_mod_multiples_vanish(100 * e0, x, 4);
        }
        assert(yy % 100 == x % 100) by {
            lemma_mod_multiples_vanish(4 * e0, x, 100);
        }
        let q4 = x / 4;
        let r4 = x % 4;
        lemma_fundamental_div_mod(x, 4);
        if r4 == 0 {
            lemma_fundamental_div_mod_converse_div(x0, 4, q4 - 1, 3);
        } else {
            lemma_fundamental_div_mod_converse_div(x0, 4, q4, r4 - 1);
        }
        let q100 = x / 100;
        let r100 = x % 100;
        lemma_fundamental_div_mod(x, 100);
        if r100 == 0 {
            lemma_fundamental_div_mod_converse_div(x0, 100, q100 - 1, 99);
            // a multiple of 100 is a multiple of 4
            assert(x % 4 == 0) by {
                lemma_fundamental_div_mod_converse_mod(x, 4, 25 * q100, 0);
            }
        } else {
            lemma_fundamental_div_mod_converse_div(x0, 100, q100, r100 - 1);
        }
    }
}

/// The day numbering counts calendar days one by one: the calendar day after
/// a valid date has the next day number. Together with the month lengths this
/// pins the numbering to the Gregorian calendar, so that differences of day
/// numbers are counts of calendar days.
pub proof fn lemma_day_num_counts_days(y: int, m: int, d: int)
    requires
        spec_valid_date(y, m, d),
    ensures
        ({
            let (y2, m2, d2) = spec_next_ymd(y, m, d);
            spec_day_num(y2, m2, d2) == spec_day_num(y, m, d) + 1
        }),
{
    if d < spec_days_in_month(y, m) {
        // same month: the formula is linear in the day
    } else if m == 2 {
        // February into March: the year part of the formula steps from
        // y - 1 to y, adding the length of the year that just ended there
        lemma_year_step(y);
    } else {
        // all other month ends, December 31 included, keep the same year
        // part; the day-of-year offsets differ by exactly the month length
        assert(m == 1 || 3 <= m <= 12);
    }
}

/// Whether the year is a Gregorian leap year.
pub fn is_leap_year(year: i32) -> (b: bool)
    requires
        1 <= year,
    ensures
        b == spec_is_leap_year(year as int),
{
    (year % 4 == 0 && year % 100 != 0) || year % 400 == 0
}

/// Number of days in the given month, or 0 for an out-of-range month number.
pub fn days_in_month(year: i32, month: u32) -> (n: u32)
    requires
        1 <= year,
    ensures
        n as int == spec_days_in_month(year as int, month as int),
{
    if month == 2 {
        if is_leap_year(year) {
            29
        } else {
            28
        }
    } else if month == 4 || month == 6 || month == 9 || month == 11 {
        30
    } else if 1 <= month && month <= 12 {
        31
    } else {
        0
    }
}

impl Date {
    /// The date is a real Gregorian calendar date in the supported year range.
    pub open spec fn valid(self) -> bool {
        spec_valid_date(self.year as int, self.month as int, self.day as int)
    }

    /// Serial day number of this date.
    pub open spec fn spec_day_num(self) -> int {
        spec_day_num(self.year as int, self.month as int, self.day as int)
    }

    /// Builds a date when the components form a valid calendar date, and
    /// returns `None` otherwise.
    pub fn from_ymd_opt(year: i32, month: u32, day: u32) -> (r: Option<Date>)
        ensures
            r == (if spec_valid_date(year as int, month as int, day as int) {
                Some(Date { year, month, day })
            } else {
                None::<Date>
            }),
    {
        if year < 1 || year > 9999 {
            return None;
        }
        if month < 1 || month > 12 {
            return None;
        }
        if day < 1 || day > days_in_month(year, month) {
            return None;
        }
        Some(Date { year, month, day })
    }

    /// Serial day number; fits comfortably in a `u32` for the supported years.
    pub fn day_number(self) -> (n: u32)
        requires
            self.valid(),
        ensures
            n as int == self.spec_day_num(),
    {
        let y = self.year as u32;
        let m = self.month;
        let d = self.day;
        let yy: u32 = if m <= 2 {
            y - 1
        } else {
            y
        };
        let era: u32 = yy / 400;
        let yoe: u32 = yy % 400;
        let mp: u32 = if m > 2 {
            m - 3
        } else {
            m + 9
        };
        let doy: u32 = (153 * mp + 2) / 5 + d - 1;
        let doe: u32 = yoe * 365 + yoe / 4 - yoe / 100 + doy;
        era * 146097 + doe
    }

    /// Weekday of this date.
    pub fn weekday(self) -> (w: Weekday)
        requires
            self.valid(),
        ensures
            w.index() == spec_weekday_index(self.year as int, self.month as int, self.day as int),
    {
        let n = self.day_number();
        let i = (n + 2) % 7;
        if i == 0 {
            Weekday::Mon
        } else if i == 1 {
            Weekday::Tue
        } else if i == 2 {
            Weekday::Wed
        } else if i == 3 {
            Weekday::Thu
        } else if i == 4 {
            Weekday::Fri
        } else if i == 5 {
            Weekday::Sat
        } else {
            Weekday::Sun
        }
    }
}

} // verus!
