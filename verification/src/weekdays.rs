//! Resolvers for "the nth weekday of a month" and "the last weekday of a
//! month", with proofs that the resolved day is the right occurrence.

use vstd::prelude::*;
use vstd::arithmetic::div_mod::{
    lemma_add_mod_noop_right, lemma_fundamental_div_mod,
    lemma_fundamental_div_mod_converse_div, lemma_fundamental_div_mod_converse_mod,
    lemma_mod_add_multiples_vanish, lemma_small_mod, lemma_sub_mod_noop_right,
};
use crate::dates::{
    Date, Weekday, days_in_month, spec_day_num, spec_days_in_month, spec_valid_date,
    spec_weekday_index,
};

verus! {

/// First day of the month that falls on the given weekday; always in 1..=7.
pub open spec fn spec_first_dom(y: int, m: int, wd: Weekday) -> int {
    1 + ((wd.index() - spec_weekday_index(y, m, 1)) % 7)
}

/// Day of the nth occurrence of a weekday within a month, if the month has
/// that many; `None` when `n < 1`, the year or month is out of range, or the
/// occurrence falls past the end of the month.
pub open spec fn spec_nth_weekday_day(y: int, m: int, wd: Weekday, n: int) -> Option<int> {
    if 1 <= y <= 9999 && 1 <= m <= 12 && n >= 1 {
        let day = spec_first_dom(y, m, wd) + 7 * (n - 1);
        if day <= spec_days_in_month(y, m) {
            Some(day)
        } else {
            None
        }
    } else {
        None
    }
}

/// Day of the last occurrence of a weekday within a month; every month has
/// one, so this is `None` only for an out-of-range year or month.
pub open spec fn spec_last_weekday_day(y: int, m: int, wd: Weekday) -> Option<int> {
    if 1 <= y <= 9999 && 1 <= m <= 12 {
        let dim = spec_days_in_month(y, m);
        Some(dim - ((dim - spec_first_dom(y, m, wd)) % 7))
    } else {
        None
    }
}

/// Lifts a resolved day within a month to a calendar date.
pub open spec fn spec_date_of(y: int, m: int, day: Option<int>) -> Option<Date> {
    match day {
        Some(d) => Some(Date { year: y as i32, month: m as u32, day: d as u32 }),
        None => None,
    }
}

/// How many days in 1..=d of the given month fall on the given weekday.
pub open spec fn count_weekday_upto(y: int, m: int, wd: Weekday, d: int) -> int
    decreases d,
{
    if d <= 0 {
        0
    } else {
        count_weekday_upto(y, m, wd, d - 1) + if spec_weekday_index(y, m, d) == wd.index() {
            1int
        } else {
            0int
        }
    }
}

/// The day numbering is linear in the day of the month.
pub proof fn lemma_day_num_linear(y: int, m: int, d: int)
    ensures
        spec_day_num(y, m, d) == spec_day_num(y, m, 1) + d - 1,
{
}

/// A day of the month falls on weekday `wd` exactly when its offset from the
/// first such day is a multiple of a week.
pub proof fn lemma_weekday_eq_iff(y: int, m: int, wd: Weekday, d: int)
    ensures
        spec_weekday_index(y, m, d) == wd.index() <==> (d - spec_first_dom(y, m, wd)) % 7 == 0,
{
    let n = spec_day_num(y, m, 1) + 2;
    let w1 = spec_weekday_index(y, m, 1);
    let wdi = wd.index();
    lemma_day_num_linear(y, m, d);
    assert(spec_weekday_index(y, m, d) == (n + d - 1) % 7) by {
        assert(spec_day_num(y, m, d) + 2 == n + d - 1);
    }
    assert(w1 == n % 7);
    // (d - first) % 7 == (n + d - 1 - wdi) % 7
    assert((d - spec_first_dom(y, m, wd)) % 7 == (d - 1 - (wdi - w1)) % 7) by {
        lemma_sub_mod_noop_right(d - 1, wdi - w1, 7);
    }
    assert((d - 1 - (wdi - w1)) % 7 == (d - 1 - wdi + n) % 7) by {
        lemma_add_mod_noop_right(d - 1 - wdi, n, 7);
    }
    let x = n + d - 1;
    if x % 7 == wdi {
        assert((x - wdi) % 7 == 0) by {
            lemma_fundamental_div_mod(x, 7);
            assert(x - wdi == 7 * (x / 7));
            lemma_fundamental_div_mod_converse_mod(x - wdi, 7, x / 7, 0);
        }
    }
    if (x - wdi) % 7 == 0 {
        assert(x % 7 == wdi) by {
            lemma_fundamental_div_mod(x - wdi, 7);
            assert(x == 7 * ((x - wdi) / 7) + wdi);
            lemma_fundamental_div_mod_converse_mod(x, 7, (x - wdi) / 7, wdi);
        }
    }
}

/// Closed form for the count of a weekday's occurrences up to a day.
pub proof fn lemma_count_closed(y: int, m: int, wd: Weekday, d: int)
    requires
        0 <= d,
    ensures
        count_weekday_upto(y, m, wd, d) == (if d < spec_first_dom(y, m, wd) {
            0int
        } else {
            (d - spec_first_dom(y, m, wd)) / 7 + 1
        }),
    decreases d,
{
    let first = spec_first_dom(y, m, wd);
    assert(1 <= first <= 7);
    if d == 0 {
    } else {
        lemma_count_closed(y, m, wd, d - 1);
        lemma_weekday_eq_iff(y, m, wd, d);
        let t = d - first;
        if d < first {
            // -7 < t < 0, so t % 7 == t + 7, which is not 0
            assert(t % 7 == t + 7) by {
                lemma_fundamental_div_mod_converse_mod(t, 7, -1, t + 7);
            }
        } else if d == first {
            assert(t % 7 == 0) by {
                lemma_small_mod(0, 7);
            }
            assert(t / 7 == 0) by {
                lemma_fundamental_div_mod_converse_div(t, 7, 0, 0);
            }
        } else {
            let q = t / 7;
            let r = t % 7;
            lemma_fundamental_div_mod(t, 7);
            if r == 0 {
                assert((t - 1) / 7 == q - 1) by {
                    lemma_fundamental_div_mod_converse_div(t - 1, 7, q - 1, 6);
                }
            } else {
                assert((t - 1) / 7 == q) by {
                    lemma_fundamental_div_mod_converse_div(t - 1, 7, q, r - 1);
                }
            }
        }
    }
}

/// When the nth occurrence resolves, it is a valid date of the requested
/// month, falls on the requested weekday, and exactly n - 1 earlier days of
/// the month fall on that weekday.
pub proof fn lemma_nth_weekday_correct(y: int, m: int, wd: Weekday, n: int)
    requires
        spec_nth_weekday_day(y, m, wd, n) is Some,
    ensures
        ({
            let d = spec_nth_weekday_day(y, m, wd, n)->Some_0;
            &&& spec_valid_date(y, m, d)
            &&& spec_weekday_index(y, m, d) == wd.index()
            &&& count_weekday_upto(y, m, wd, d - 1) == n - 1
        }),
{
    let first = spec_first_dom(y, m, wd);
    let d = first + 7 * (n - 1);
    assert(1 <= first <= 7);
    assert(spec_weekday_index(y, m, d) == wd.index()) by {
        lemma_weekday_eq_iff(y, m, wd, d);
        lemma_fundamental_div_mod_converse_mod(7 * (n - 1), 7, n - 1, 0);
    }
    lemma_count_closed(y, m, wd, d - 1);
    if n == 1 {
    } else {
        assert((d - 1 - first) / 7 == n - 2) by {
            lemma_fundamental_div_mod_converse_div(7 * (n - 1) - 1, 7, n - 2, 6);
        }
    }
}

/// When the nth occurrence does not resolve for a month in range, the month
/// has fewer than n days on that weekday.
pub proof fn lemma_nth_weekday_absent(y: int, m: int, wd: Weekday, n: int)
    requires
        1 <= y <= 9999,
        1 <= m <= 12,
        n >= 1,
        spec_nth_weekday_day(y, m, wd, n) is None,
    ensures
        count_weekday_upto(y, m, wd, spec_days_in_month(y, m)) < n,
{
    let first = spec_first_dom(y, m, wd);
    let dim = spec_days_in_month(y, m);
    assert(1 <= first <= 7);
    lemma_count_closed(y, m, wd, dim);
    if dim >= first {
        let t = dim - first;
        // first + 7(n-1) > dim, so t <= 7(n-1) - 1, hence t / 7 <= n - 2
        lemma_fundamental_div_mod(t, 7);
        assert(t / 7 <= n - 2);
    }
}

/// The last occurrence falls on the requested weekday, and no later day of
/// the month does.
pub proof fn lemma_last_weekday_correct(y: int, m: int, wd: Weekday)
    requires
        1 <= y <= 9999,
        1 <= m <= 12,
    ensures
        ({
            let d = spec_last_weekday_day(y, m, wd)->Some_0;
            &&& spec_valid_date(y, m, d)
            &&& spec_weekday_index(y, m, d) == wd.index()
            &&& forall|d2: int|
                d < d2 <= spec_days_in_month(y, m) ==> spec_weekday_index(y, m, d2) != wd.index()
        }),
{
    let dim = spec_days_in_month(y, m);
    let first = spec_first_dom(y, m, wd);
    let wdi = wd.index();
    let off = (dim - first) % 7;
    let d = dim - off;
    assert(1 <= first <= 7);
    assert(28 <= dim <= 31);
    assert(0 <= off < 7);
    assert(spec_weekday_index(y, m, d) == wdi) by {
        lemma_weekday_eq_iff(y, m, wd, d);
        // (d - first) % 7 == (dim - first - off) % 7 == 0
        lemma_fundamental_div_mod(dim - first, 7);
        assert(d - first == 7 * ((dim - first) / 7));
        lemma_fundamental_div_mod_converse_mod(d - first, 7, (dim - first) / 7, 0);
    }
    assert forall|d2: int| d < d2 <= dim implies spec_weekday_index(y, m, d2) != wdi by {
        lemma_weekday_eq_iff(y, m, wd, d2);
        let s = d2 - d;
        assert(1 <= s <= 6);
        assert((d2 - first) % 7 == s) by {
            lemma_fundamental_div_mod(dim - first, 7);
            assert(d2 - first == 7 * ((dim - first) / 7) + s);
            lemma_fundamental_div_mod_converse_mod(d2 - first, 7, (dim - first) / 7, s);
        }
    }
}

/// The nth occurrence of a weekday within a month: scanning the month's days
/// in ascending order, the nth one that falls on the weekday. `None` when
/// `nth < 1` or the month has fewer than `nth` such days.
pub fn nth_weekday_of_month(year: i32, month: u32, weekday: Weekday, nth: i64) -> (r: Option<
    Date,
>)
    ensures
        r == spec_date_of(
            year as int,
            month as int,
            spec_nth_weekday_day(year as int, month as int, weekday, nth as int),
        ),
        r is Some ==> r->Some_0.valid(),
{
    if year < 1 || year > 9999 || month < 1 || month > 12 || nth < 1 {
        return None;
    }
    let dim = days_in_month(year, month);
    if nth > 5 {
        // the fifth occurrence is the last that can fit in 31 days
        assert(spec_first_dom(year as int, month as int, weekday) + 7 * (nth - 1) > dim);
        return None;
    }
    let w1 = Date { year, month, day: 1 }.weekday().as_index();
    let wdi = weekday.as_index();
    let first = 1 + (wdi + 7 - w1) % 7;
    proof {
        lemma_mod_add_multiples_vanish(wdi as int - w1 as int, 7);
    }
    let day = first + 7 * ((nth as u32) - 1);
    if day <= dim {
        proof {
            lemma_nth_weekday_correct(year as int, month as int, weekday, nth as int);
        }
        Some(Date { year, month, day })
    } else {
        None
    }
}

/// The last occurrence of a weekday within a month: scanning the month's days
/// in descending order, the first one that falls on the weekday.
pub fn last_weekday_of_month(year: i32, month: u32, weekday: Weekday) -> (r: Option<Date>)
    ensures
        r == spec_date_of(
            year as int,
            month as int,
            spec_last_weekday_day(year as int, month as int, weekday),
        ),
        r is Some ==> r->Some_0.valid(),
{
    if year < 1 || year > 9999 || month < 1 || month > 12 {
        return None;
    }
    let dim = days_in_month(year, month);
    let w1 = Date { year, month, day: 1 }.weekday().as_index();
    let wdi = weekday.as_index();
    let first = 1 + (wdi + 7 - w1) % 7;
    proof {
        lemma_mod_add_multiples_vanish(wdi as int - w1 as int, 7);
        lemma_last_weekday_correct(year as int, month as int, weekday);
    }
    let off = (dim - first) % 7;
    let day = dim - off;
    Some(Date { year, month, day })
}

} // verus!
