//! Configuration loading: a YAML document holds a `TimePeriods` sequence of
//! single-entry mappings, each mapping a period name to its `Date`,
//! `DaysBefore` and `DaysAfter` fields. The YAML tree comes from serde_yaml
//! through the trusted wrappers of `crate::yaml`; the traversal that
//! assembles the ordered period list is verified against `spec_load_periods`:
//! entries come out in document order, malformed entries are skipped, and a
//! missing or malformed document yields an empty list.

use vstd::prelude::*;
use crate::period::TimePeriod;
use crate::yaml::{
    spec_as_i64, spec_as_mapping, spec_as_sequence, spec_as_str, spec_get, yaml_as_i64,
    yaml_as_sequence, yaml_as_str, yaml_from_str, yaml_get, yaml_mapping_entries, yaml_model,
    yaml_of, YamlData,
};

verus! {

/// The period specification a YAML mapping holds: its `Date` string and its
/// `DaysBefore` and `DaysAfter` integers. `None` when any of the three keys
/// is missing or of the wrong kind; other keys play no part.
pub open spec fn spec_period_of(d: YamlData) -> Option<(Seq<char>, i64, i64)> {
    match (spec_get(d, "Date"@), spec_get(d, "DaysBefore"@), spec_get(d, "DaysAfter"@)) {
        (Some(dv), Some(bv), Some(av)) => match (spec_as_str(dv), spec_as_i64(bv), spec_as_i64(
            av,
        )) {
            (Some(date), Some(before), Some(after)) => Some((date, before, after)),
            _ => None,
        },
        _ => None,
    }
}

/// The named period of a list of mapping entries: the first entry whose key
/// is a string and whose value holds a well-formed period specification.
pub open spec fn spec_first_entry(pairs: Seq<(YamlData, YamlData)>) -> Option<
    (Seq<char>, (Seq<char>, i64, i64)),
>
    decreases pairs.len(),
{
    if pairs.len() == 0 {
        None
    } else {
        match (spec_as_str(pairs[0].0), spec_period_of(pairs[0].1)) {
            (Some(name), Some(p)) => Some((name, p)),
            _ => spec_first_entry(pairs.drop_first()),
        }
    }
}

/// The named period a `TimePeriods` element yields: the element must be a
/// mapping, and its first well-formed entry names the period.
pub open spec fn spec_entry_of(d: YamlData) -> Option<(Seq<char>, (Seq<char>, i64, i64))> {
    match spec_as_mapping(d) {
        Some(pairs) => spec_first_entry(pairs),
        None => None,
    }
}

/// The named periods of the `TimePeriods` elements, in document order;
/// elements that yield no period are skipped.
pub open spec fn spec_entries_of(elems: Seq<YamlData>) -> Seq<
    (Seq<char>, (Seq<char>, i64, i64)),
>
    decreases elems.len(),
{
    if elems.len() == 0 {
        Seq::empty()
    } else {
        let rest = spec_entries_of(elems.drop_last());
        match spec_entry_of(elems.last()) {
            Some(e) => rest.push(e),
            None => rest,
        }
    }
}

/// The ordered period list a configuration text yields: empty unless the
/// text parses to a document whose `TimePeriods` key holds a sequence, and
/// then the well-formed entries of that sequence in document order.
pub open spec fn spec_load_periods(s: Seq<char>) -> Seq<(Seq<char>, (Seq<char>, i64, i64))> {
    match yaml_of(s) {
        None => Seq::empty(),
        Some(doc) => match spec_get(doc, "TimePeriods"@) {
            None => Seq::empty(),
            Some(tps) => match spec_as_sequence(tps) {
                None => Seq::empty(),
                Some(elems) => spec_entries_of(elems),
            },
        },
    }
}

/// Appending an element extends the entry list by that element's period,
/// when it yields one.
proof fn lemma_entries_of_step(elems: Seq<YamlData>, i: int)
    requires
        0 <= i < elems.len(),
    ensures
        spec_entries_of(elems.take(i + 1)) == (match spec_entry_of(elems[i]) {
            Some(e) => spec_entries_of(elems.take(i)).push(e),
            None => spec_entries_of(elems.take(i)),
        }),
{
    assert(elems.take(i + 1).drop_last() =~= elems.take(i));
    assert(elems.take(i + 1).last() == elems[i]);
}

/// Reads a period specification out of a YAML mapping: its `Date` string and
/// its `DaysBefore` and `DaysAfter` integers. `None` when any of the three is
/// missing or of the wrong kind; other keys are ignored.
pub fn period_from_yaml(v: &serde_yaml::Value) -> (r: Option<TimePeriod>)
    ensures
        r is Some <==> spec_period_of(yaml_model(*v)) is Some,
        r is Some ==> ({
            let p = spec_period_of(yaml_model(*v))->Some_0;
            &&& r->Some_0.date@ == p.0
            &&& r->Some_0.days_before == p.1
            &&& r->Some_0.days_after == p.2
        }),
{
    let date = match yaml_get(v, "Date") {
        Some(d) => match yaml_as_str(d) {
            Some(s) => s,
            None => {
                return None;
            },
        },
        None => {
            return None;
        },
    };
    let days_before = match yaml_get(v, "DaysBefore") {
        Some(d) => match yaml_as_i64(d) {
            Some(n) => n,
            None => {
                return None;
            },
        },
        None => {
            return None;
        },
    };
    let days_after = match yaml_get(v, "DaysAfter") {
        Some(d) => match yaml_as_i64(d) {
            Some(n) => n,
            None => {
                return None;
            },
        },
        None => {
            return None;
        },
    };
    Some(TimePeriod { date, days_before, days_after })
}

/// The named period a `TimePeriods` element yields: the element's mapping is
/// scanned in document order for the first entry with a string key and a
/// well-formed period specification.
fn entry_from_yaml(entry: &serde_yaml::Value) -> (r: Option<(String, TimePeriod)>)
    ensures
        r is Some <==> spec_entry_of(yaml_model(*entry)) is Some,
        r is Some ==> ({
            let e = spec_entry_of(yaml_model(*entry))->Some_0;
            &&& r->Some_0.0@ == e.0
            &&& r->Some_0.1.date@ == e.1.0
            &&& r->Some_0.1.days_before == e.1.1
            &&& r->Some_0.1.days_after == e.1.2
        }),
{
    let entries = match yaml_mapping_entries(entry) {
        Some(es) => es,
        None => {
            return None;
        },
    };
    let ghost pairs = spec_as_mapping(yaml_model(*entry))->Some_0;
    proof {
        assert(pairs.skip(0) =~= pairs);
    }
    let mut j: usize = 0;
    while j < entries.len()
        invariant
            0 <= j <= entries@.len(),
            entries@.len() == pairs.len(),
            spec_as_mapping(yaml_model(*entry)) == Some(pairs),
            forall|k: int|
                0 <= k < pairs.len() ==> (#[trigger] yaml_model(entries@[k].0)) == pairs[k].0
                    && yaml_model(entries@[k].1) == pairs[k].1,
            spec_first_entry(pairs.skip(j as int)) == spec_first_entry(pairs),
        decreases entries@.len() - j,
    {
        proof {
            assert(pairs.skip(j as int)[0] == pairs[j as int]);
            assert(yaml_model(entries@[j as int].0) == pairs[j as int].0);
            assert(yaml_model(entries@[j as int].1) == pairs[j as int].1);
        }
        let kv = &entries[j];
        if let Some(name) = yaml_as_str(&kv.0) {
            if let Some(tp) = period_from_yaml(&kv.1) {
                proof {
                    assert(spec_as_str(pairs[j as int].0) is Some);
                    assert(spec_period_of(pairs[j as int].1) is Some);
                    assert(spec_first_entry(pairs.skip(j as int)) == Some(
                        (
                            spec_as_str(pairs[j as int].0)->Some_0,
                            spec_period_of(pairs[j as int].1)->Some_0,
                        ),
                    ));
                }
                return Some((name, tp));
            }
        }
        proof {
            assert(pairs.skip(j as int).drop_first() =~= pairs.skip(j as int + 1));
        }
        j = j + 1;
    }
    proof {
        assert(pairs.skip(pairs.len() as int) =~= Seq::<(YamlData, YamlData)>::empty());
    }
    None
}

/// Loads the ordered period list out of a configuration document. The
/// document is a mapping with a `TimePeriods` key holding a sequence of
/// single-entry mappings from a period name to its specification. Entries
/// that do not fit are skipped, document order is preserved, and text that
/// is not such a document yields an empty list.
pub fn load_yaml_file(content: &str) -> (r: Vec<(String, TimePeriod)>)
    ensures
        r@.len() == spec_load_periods(content@).len(),
        forall|i: int|
            0 <= i < r@.len() ==> ({
                let e = spec_load_periods(content@)[i];
                &&& (#[trigger] r@[i]).0@ == e.0
                &&& r@[i].1.date@ == e.1.0
                &&& r@[i].1.days_before == e.1.1
                &&& r@[i].1.days_after == e.1.2
            }),
{
    let doc = match yaml_from_str(content) {
        Some(d) => d,
        None => {
            return Vec::new();
        },
    };
    let tps = match yaml_get(&doc, "TimePeriods") {
        Some(v) => v,
        None => {
            return Vec::new();
        },
    };
    let arr = match yaml_as_sequence(tps) {
        Some(a) => a,
        None => {
            return Vec::new();
        },
    };
    let ghost elems = spec_as_sequence(yaml_model(*tps))->Some_0;
    proof {
        assert(spec_load_periods(content@) == spec_entries_of(elems));
        assert(elems.take(0) =~= Seq::<YamlData>::empty());
    }
    let mut out: Vec<(String, TimePeriod)> = Vec::new();
    let mut i: usize = 0;
    while i < arr.len()
        invariant
            0 <= i <= arr@.len(),
            arr@.len() == elems.len(),
            forall|k: int|
                0 <= k < elems.len() ==> (#[trigger] yaml_model(arr@[k])) == elems[k],
            out@.len() == spec_entries_of(elems.take(i as int)).len(),
            forall|k: int|
                0 <= k < out@.len() ==> ({
                    let e = spec_entries_of(elems.take(i as int))[k];
                    &&& (#[trigger] out@[k]).0@ == e.0
                    &&& out@[k].1.date@ == e.1.0
                    &&& out@[k].1.days_before == e.1.1
                    &&& out@[k].1.days_after == e.1.2
                }),
        decreases arr@.len() - i,
    {
        proof {
            lemma_entries_of_step(elems, i as int);
        }
        if let Some(named) = entry_from_yaml(&arr[i]) {
            out.push(named);
        }
        i = i + 1;
    }
    proof {
        assert(elems.take(elems.len() as int) =~= elems);
    }
    out
}

/// The bundled default configuration, written for a fresh installation.
pub fn default_config_yaml() -> (r: &'static str)
    ensures
        r@
            == "TimePeriods:\n  - MothersDay:\n      Date: The second Sunday of May\n      DaysBefore: 3\n      DaysAfter: 1\n      Comment: Mother's Day\n  - FathersDay:\n      Date: The third Sunday of June\n      DaysBefore: 3\n      DaysAfter: 1\n      Comment: Father's Day\n  - EasterPeriod:\n      Date: Easter\n      DaysBefore: 5\n      DaysAfter: 2\n  - Thanksgiving:\n      Date: Thanksgiving\n      DaysBefore: 3\n      DaysAfter: 2\n  - LaborWeek:\n      Date: LaborDay\n      DaysBefore: 1\n      DaysAfter: 2\n  - TamaraBirthday:\n      Date: February 6\n      DaysBefore: 7\n      DaysAfter: 0\n  - MLKReflection:\n      Date: MLKDay\n      DaysBefore: 0\n      DaysAfter: 1\n"@,
{
    "TimePeriods:\n  - MothersDay:\n      Date: The second Sunday of May\n      DaysBefore: 3\n      DaysAfter: 1\n      Comment: Mother's Day\n  - FathersDay:\n      Date: The third Sunday of June\n      DaysBefore: 3\n      DaysAfter: 1\n      Comment: Father's Day\n  - EasterPeriod:\n      Date: Easter\n      DaysBefore: 5\n      DaysAfter: 2\n  - Thanksgiving:\n      Date: Thanksgiving\n      DaysBefore: 3\n      DaysAfter: 2\n  - LaborWeek:\n      Date: LaborDay\n      DaysBefore: 1\n      DaysAfter: 2\n  - TamaraBirthday:\n      Date: February 6\n      DaysBefore: 7\n      DaysAfter: 0\n  - MLKReflection:\n      Date: MLKDay\n      DaysBefore: 0\n      DaysAfter: 1\n"
}

} // verus!
