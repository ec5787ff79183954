//! A ghost model of YAML documents, and trusted wrappers around serde_yaml
//! whose contracts are stated over it.
//!
//! `YamlData` mirrors serde_yaml's value tree with plain values: mapping
//! entries are kept as a sequence in document order, integers that fit an
//! `i64` carry their value, and a tagged node keeps its underlying value
//! (its tag name plays no part here). `yaml_model` names the model of a
//! `serde_yaml::Value`, and `yaml_of` names the outcome of parsing a text;
//! both get their meaning through the wrappers' contracts alone.

use vstd::prelude::*;

verus! {

/// Model of a YAML value: what the loader can observe of it.
pub enum YamlData {
    Null,
    Bool(bool),
    /// An integer representable as an `i64`.
    Int(i64),
    /// Any other number: too large for an `i64`, or floating point.
    OtherNum,
    Str(Seq<char>),
    Sequence(Seq<YamlData>),
    /// Entries in document order; keys are unique.
    Mapping(Seq<(YamlData, YamlData)>),
    /// A `!Tag`-annotated value, holding the value under the tag.
    Tagged(Box<YamlData>),
}

/// Model of a serde_yaml value. What holds of it is stated by the contracts
/// of the wrappers below.
pub uninterp spec fn yaml_model(v: serde_yaml::Value) -> YamlData;

/// What parsing a text as YAML yields: `None` for ill-formed text, otherwise
/// the model of the parsed document. Parsing is a function of the text alone.
pub uninterp spec fn yaml_of(s: Seq<char>) -> Option<YamlData>;

/// A tagged value reads as the value under the tag; anything else reads as
/// itself. serde_yaml's accessors see through one level of tagging this way.
pub open spec fn spec_untag(d: YamlData) -> YamlData {
    match d {
        YamlData::Tagged(inner) => *inner,
        _ => d,
    }
}

/// The string content of a YAML value, if it is a string.
pub open spec fn spec_as_str(d: YamlData) -> Option<Seq<char>> {
    match spec_untag(d) {
        YamlData::Str(s) => Some(s),
        _ => None,
    }
}

/// The integer content of a YAML value, if it is an integer that fits an
/// `i64`.
pub open spec fn spec_as_i64(d: YamlData) -> Option<i64> {
    match spec_untag(d) {
        YamlData::Int(n) => Some(n),
        _ => None,
    }
}

/// The elements of a YAML value, if it is a sequence.
pub open spec fn spec_as_sequence(d: YamlData) -> Option<Seq<YamlData>> {
    match spec_untag(d) {
        YamlData::Sequence(elems) => Some(elems),
        _ => None,
    }
}

/// The entries of a YAML value, if it is a mapping.
pub open spec fn spec_as_mapping(d: YamlData) -> Option<Seq<(YamlData, YamlData)>> {
    match spec_untag(d) {
        YamlData::Mapping(pairs) => Some(pairs),
        _ => None,
    }
}

/// The value under the first entry whose key is the string `key`. A mapping's
/// keys are unique, so the first such entry is the only one.
pub open spec fn spec_lookup(pairs: Seq<(YamlData, YamlData)>, key: Seq<char>) -> Option<
    YamlData,
>
    decreases pairs.len(),
{
    if pairs.len() == 0 {
        None
    } else if pairs[0].0 == YamlData::Str(key) {
        Some(pairs[0].1)
    } else {
        spec_lookup(pairs.drop_first(), key)
    }
}

/// The value under a string key of a YAML mapping, `None` when the value is
/// no mapping or has no such key.
pub open spec fn spec_get(d: YamlData, key: Seq<char>) -> Option<YamlData> {
    match spec_as_mapping(d) {
        Some(pairs) => spec_lookup(pairs, key),
        None => None,
    }
}

#[verifier::external_type_specification]
#[verifier::external_body]
pub struct ExYamlValue(serde_yaml::Value);

/// Relies on serde_yaml::from_str::<serde_yaml::Value>: parses YAML text into
/// the generic value tree; `None` when the text is not well-formed YAML. The
/// result depends on the text alone.
#[verifier::external_body]
pub(crate) fn yaml_from_str(s: &str) -> (r: Option<serde_yaml::Value>)
    ensures
        r is Some <==> yaml_of(s@) is Some,
        r is Some ==> yaml_model(r->Some_0) == yaml_of(s@)->Some_0,
{
    serde_yaml::from_str(s).ok()
}

/// Relies on serde_yaml::Value::get with a string key: looks the key up in a
/// mapping (seeing through one tag level) by string equality, and yields the
/// entry's value; `None` for any other kind of value or an absent key.
#[verifier::external_body]
pub(crate) fn yaml_get<'a>(v: &'a serde_yaml::Value, key: &str) -> (r: Option<
    &'a serde_yaml::Value,
>)
    ensures
        r is Some <==> spec_get(yaml_model(*v), key@) is Some,
        r is Some ==> yaml_model(*r->Some_0) == spec_get(yaml_model(*v), key@)->Some_0,
{
    v.get(key)
}

/// Relies on serde_yaml::Value::as_str: the content of a YAML string value,
/// `None` for any other kind of value.
#[verifier::external_body]
pub(crate) fn yaml_as_str(v: &serde_yaml::Value) -> (r: Option<String>)
    ensures
        r is Some <==> spec_as_str(yaml_model(*v)) is Some,
        r is Some ==> r->Some_0@ == spec_as_str(yaml_model(*v))->Some_0,
{
    v.as_str().map(|s| s.to_string())
}

/// Relies on serde_yaml::Value::as_i64: the content of a YAML integer value
/// that fits an `i64`, `None` for any other kind of value.
#[verifier::external_body]
pub(crate) fn yaml_as_i64(v: &serde_yaml::Value) -> (r: Option<i64>)
    ensures
        r == spec_as_i64(yaml_model(*v)),
{
    v.as_i64()
}

/// Relies on serde_yaml::Value::as_sequence: the elements of a YAML sequence
/// in document order, `None` for any other kind of value.
#[verifier::external_body]
pub(crate) fn yaml_as_sequence<'a>(v: &'a serde_yaml::Value) -> (r: Option<
    &'a Vec<serde_yaml::Value>,
>)
    ensures
        r is Some <==> spec_as_sequence(yaml_model(*v)) is Some,
        r is Some ==> ({
            let elems = spec_as_sequence(yaml_model(*v))->Some_0;
            &&& r->Some_0@.len() == elems.len()
            &&& forall|i: int|
                0 <= i < elems.len() ==> (#[trigger] yaml_model(r->Some_0@[i])) == elems[i]
        }),
{
    v.as_sequence()
}

/// Relies on serde_yaml::Value::as_mapping and serde_yaml::Mapping::iter: the
/// key-value entries of a YAML mapping in document order (the mapping is
/// insertion-ordered), `None` for any other kind of value.
#[verifier::external_body]
pub(crate) fn yaml_mapping_entries(v: &serde_yaml::Value) -> (r: Option<
    Vec<(serde_yaml::Value, serde_yaml::Value)>,
>)
    ensures
        r is Some <==> spec_as_mapping(yaml_model(*v)) is Some,
        r is Some ==> ({
            let pairs = spec_as_mapping(yaml_model(*v))->Some_0;
            &&& r->Some_0@.len() == pairs.len()
            &&& forall|i: int|
                0 <= i < pairs.len() ==> (#[trigger] yaml_model(r->Some_0@[i].0)) == pairs[i].0
                    && yaml_model(r->Some_0@[i].1) == pairs[i].1
        }),
{
    v.as_mapping().map(|m| m.iter().map(|(k, val)| (k.clone(), val.clone())).collect())
}

} // verus!
