//! Named time periods and the matcher: a period is an anchor-date expression
//! with inclusive day offsets around it, and the matcher returns the name of
//! the first period in list order whose window contains the query date, or
//! "Default" when none does.

use vstd::prelude::*;
use crate::dates::Date;
use crate::parse::{parse_flexible_date, spec_parse_flexible};

verus! {

/// A configured time period: an anchor-date expression and the number of days
/// the period extends before and after the anchor.
#[derive(Clone, Debug)]
pub struct TimePeriod {
    pub date: String,
    pub days_before: i64,
    pub days_after: i64,
}

/// Whether the period's window contains the query date: the anchor expression
/// resolves in the query date's year, and the query date lies in the inclusive
/// window from `days_before` days before the anchor to `days_after` days after
/// it.
pub open spec fn spec_period_matches(p: TimePeriod, q: Date) -> bool {
    match spec_parse_flexible(p.date@, q.year) {
        Some(anchor) => anchor.spec_day_num() - p.days_before <= q.spec_day_num()
            <= anchor.spec_day_num() + p.days_after,
        None => false,
    }
}

/// Name of the first period in list order that contains the query date, or
/// "Default" when none does.
pub open spec fn spec_current_period(ps: Seq<(String, TimePeriod)>, q: Date) -> Seq<char>
    decreases ps.len(),
{
    if ps.len() == 0 {
        "Default"@
    } else if spec_period_matches(ps[0].1, q) {
        ps[0].0@
    } else {
        spec_current_period(ps.drop_first(), q)
    }
}

/// Whether the period's window contains the query date.
pub fn period_matches(period: &TimePeriod, query: Date) -> (b: bool)
    requires
        query.valid(),
    ensures
        b == spec_period_matches(*period, query),
{
    match parse_flexible_date(period.date.as_str(), query.year) {
        Some(anchor) => {
            let a = anchor.day_number() as i64;
            let q = query.day_number() as i64;
            a - q <= period.days_before && q - a <= period.days_after
        },
        None => false,
    }
}

/// Name of the first period in list order that contains the query date, or
/// "Default" when none does.
#[verifier::rlimit(50)]
pub fn get_current_period(periods: &Vec<(String, TimePeriod)>, current_date: Date) -> (r: String)
    requires
        current_date.valid(),
    ensures
        r@ == spec_current_period(periods@, current_date),
{
    let mut i: usize = 0;
    proof {
        assert(periods@.skip(0) =~= periods@);
    }
    while i < periods.len()
        invariant
            0 <= i <= periods@.len(),
            current_date.valid(),
            spec_current_period(periods@, current_date) == spec_current_period(
                periods@.skip(i as int),
                current_date,
            ),
        decreases periods@.len() - i,
    {
        let pair = &periods[i];
        assert(periods@.skip(i as int)[0] == periods@[i as int]);
        if period_matches(&pair.1, current_date) {
            return pair.0.clone();
        }
        proof {
            assert(periods@.skip(i as int).drop_first() =~= periods@.skip(i as int + 1));
        }
        i = i + 1;
    }
    "Default".to_owned()
}

/// The matcher is total: it answers the name of some matching period from the
/// list, or the literal "Default".
pub proof fn lemma_matcher_totality(ps: Seq<(String, TimePeriod)>, q: Date)
    ensures
        spec_current_period(ps, q) == "Default"@ || exists|i: int|
            0 <= i < ps.len() && spec_current_period(ps, q) == ps[i].0@ && spec_period_matches(
                ps[i].1,
                q,
            ),
    decreases ps.len(),
{
    if ps.len() == 0 {
    } else if spec_period_matches(ps[0].1, q) {
        assert(spec_current_period(ps, q) == ps[0].0@ && spec_period_matches(ps[0].1, q));
    } else {
        lemma_matcher_totality(ps.drop_first(), q);
        if spec_current_period(ps, q) != "Default"@ {
            let j = choose|j: int|
                0 <= j < ps.drop_first().len() && spec_current_period(ps.drop_first(), q)
                    == ps.drop_first()[j].0@ && spec_period_matches(ps.drop_first()[j].1, q);
            assert(ps.drop_first()[j] == ps[j + 1]);
            assert(spec_current_period(ps, q) == ps[j + 1].0@ && spec_period_matches(
                ps[j + 1].1,
                q,
            ));
        }
    }
}

/// When no period in the list contains the query date, the matcher answers
/// the literal "Default".
pub proof fn lemma_no_match_default(ps: Seq<(String, TimePeriod)>, q: Date)
    requires
        forall|i: int| 0 <= i < ps.len() ==> !spec_period_matches(#[trigger] ps[i].1, q),
    ensures
        spec_current_period(ps, q) == "Default"@,
    decreases ps.len(),
{
    if ps.len() > 0 {
        assert(!spec_period_matches(ps[0].1, q));
        assert(forall|i: int|
            0 <= i < ps.drop_first().len() ==> !spec_period_matches(
                #[trigger] ps.drop_first()[i].1,
                q,
            ));
        lemma_no_match_default(ps.drop_first(), q);
    }
}

/// As long as no period is itself named "Default", the matcher answers the
/// sentinel "Default" exactly when no period in the list contains the query
/// date.
#[verifier::rlimit(50)]
pub proof fn lemma_default_iff_no_match(ps: Seq<(String, TimePeriod)>, q: Date)
    requires
        forall|i: int| 0 <= i < ps.len() ==> (#[trigger] ps[i].0)@ != "Default"@,
    ensures
        (spec_current_period(ps, q) == "Default"@) <==> (forall|i: int|
            0 <= i < ps.len() ==> !spec_period_matches(#[trigger] ps[i].1, q)),
    decreases ps.len(),
{
    if ps.len() == 0 {
    } else if spec_period_matches(ps[0].1, q) {
        assert(spec_current_period(ps, q) == ps[0].0@);
    } else {
        let tail = ps.drop_first();
        assert(forall|i: int| 0 <= i < tail.len() ==> #[trigger] tail[i] == ps[i + 1]);
        lemma_default_iff_no_match(tail, q);
        assert(spec_current_period(ps, q) == spec_current_period(tail, q));
        if spec_current_period(tail, q) == "Default"@ {
            assert forall|i: int| 0 <= i < ps.len() implies !spec_period_matches(
                #[trigger] ps[i].1,
                q,
            ) by {
                if i > 0 {
                    assert(ps[i] == tail[i - 1]);
                }
            }
        } else {
            let j = choose|j: int|
                0 <= j < tail.len() && spec_period_matches(#[trigger] tail[j].1, q);
            assert(spec_period_matches(ps[j + 1].1, q));
        }
    }
}

/// When several periods contain the query date, the earliest in list order
/// wins: the matcher answers the name of the first matching period.
pub proof fn lemma_order_precedence(ps: Seq<(String, TimePeriod)>, q: Date, i: int)
    requires
        0 <= i < ps.len(),
        spec_period_matches(ps[i].1, q),
        forall|j: int| 0 <= j < i ==> !spec_period_matches(#[trigger] ps[j].1, q),
    ensures
        spec_current_period(ps, q) == ps[i].0@,
    decreases i,
{
    if i == 0 {
    } else {
        assert(!spec_period_matches(ps[0].1, q));
        assert(ps.drop_first()[i - 1] == ps[i]);
        assert(forall|j: int|
            0 <= j < i - 1 ==> !spec_period_matches(#[trigger] ps.drop_first()[j].1, q));
        lemma_order_precedence(ps.drop_first(), q, i - 1);
    }
}

/// The window is inclusive at both endpoints: a period whose anchor resolves
/// matches exactly the dates whose day number lies between `days_before` days
/// before the anchor and `days_after` days after it, and a one-period list
/// answers the period's name on exactly those dates and "Default" otherwise.
pub proof fn lemma_window_inclusivity(name: String, p: TimePeriod, q: Date)
    requires
        spec_parse_flexible(p.date@, q.year) is Some,
    ensures
        ({
            let a = spec_parse_flexible(p.date@, q.year)->Some_0;
            &&& (spec_period_matches(p, q) <==> a.spec_day_num() - p.days_before
                <= q.spec_day_num() <= a.spec_day_num() + p.days_after)
            &&& (spec_period_matches(p, q) ==> spec_current_period(seq![(name, p)], q) == name@)
            &&& (!spec_period_matches(p, q) ==> spec_current_period(seq![(name, p)], q)
                == "Default"@)
        }),
{
    let one = seq![(name, p)];
    if spec_period_matches(p, q) {
        assert(spec_current_period(one, q) == one[0].0@);
    } else {
        assert(spec_current_period(one, q) == spec_current_period(one.drop_first(), q));
        assert(one.drop_first().len() == 0);
    }
}

} // verus!
