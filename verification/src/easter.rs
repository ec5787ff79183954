//! The Gregorian computus: the date of Western Easter Sunday for a year,
//! by the anonymous Meeus/Jones/Butcher algorithm.

use vstd::prelude::*;
use crate::dates::{Date, spec_valid_date};

verus! {

/// The (month, day) of Easter Sunday for a year, by the Meeus/Jones/Butcher
/// computus. All divisions are floor divisions on non-negative operands.
pub open spec fn spec_easter(y: int) -> (int, int) {
    let a = y % 19;
    let b = y / 100;
    let c = y % 100;
    let d = b / 4;
    let e = b % 4;
    let f = (b + 8) / 25;
    let g = (b - f + 1) / 3;
    let h = (19 * a + b - d - g + 15) % 30;
    let i = c / 4;
    let k = c % 4;
    let l = (32 + 2 * e + 2 * i - h - k) % 7;
    let m = (a + 11 * h + 22 * l) / 451;
    let mo = (h + l - 7 * m + 114) / 31;
    let da = ((h + l - 7 * m + 114) % 31) + 1;
    (mo, da)
}

/// Easter Sunday always falls between March 22 and April 25 inclusive; in
/// particular the computed (month, day) pair is a valid calendar date.
pub proof fn lemma_easter_range(y: int)
    requires
        0 <= y,
    ensures
        ({
            let (mo, da) = spec_easter(y);
            (mo == 3 && 22 <= da <= 31) || (mo == 4 && 1 <= da <= 25)
        }),
{
    let a = y % 19;
    let h = (19 * a + y / 100 - (y / 100) / 4 - (y / 100 - (y / 100 + 8) / 25 + 1) / 3 + 15) % 30;
    let c = y % 100;
    let e = (y / 100) % 4;
    let i = c / 4;
    let k = c % 4;
    let l = (32 + 2 * e + 2 * i - h - k) % 7;
    let x = a + 11 * h + 22 * l;
    let m = x / 451;
    assert(0 <= a < 19);
    assert(0 <= h < 30);
    assert(0 <= l < 7);
    assert(x <= 18 + 11 * 29 + 22 * 6);
    assert(0 <= m <= 1) by {
        assert(451 * (x / 451) + x % 451 == x) by {
            vstd::arithmetic::div_mod::lemma_fundamental_div_mod(x, 451);
        }
    }
    if m == 1 {
        assert(x >= 451) by {
            vstd::arithmetic::div_mod::lemma_fundamental_div_mod(x, 451);
        }
        assert(h + l >= 7);
    }
    if h + l == 35 {
        assert(h == 29 && l == 6);
        assert(x >= 451);
        assert(m == 1) by {
            vstd::arithmetic::div_mod::lemma_fundamental_div_mod(x, 451);
        }
    }
    let dd = h + l - 7 * m + 114;
    assert(114 <= dd <= 148);
    assert(31 * (dd / 31) + dd % 31 == dd) by {
        vstd::arithmetic::div_mod::lemma_fundamental_div_mod(dd, 31);
    }
    assert(0 <= dd % 31 < 31);
}

/// Date of Easter Sunday for the given year.
pub fn calculate_easter(year: i32) -> (r: Date)
    requires
        1 <= year <= 9999,
    ensures
        r.year == year,
        r.month as int == spec_easter(year as int).0,
        r.day as int == spec_easter(year as int).1,
        r.valid(),
{
    proof {
        lemma_easter_range(year as int);
    }
    let a = year % 19;
    let b = year / 100;
    let c = year % 100;
    let d = b / 4;
    let e = b % 4;
    let f = (b + 8) / 25;
    let g = (b - f + 1) / 3;
    let h = (19 * a + b - d - g + 15) % 30;
    let i = c / 4;
    let k = c % 4;
    let l = (32 + 2 * e + 2 * i - h - k) % 7;
    let m = (a + 11 * h + 22 * l) / 451;
    let month = (h + l - 7 * m + 114) / 31;
    let day = ((h + l - 7 * m + 114) % 31) + 1;
    Date { year, month: month as u32, day: day as u32 }
}

} // verus!
