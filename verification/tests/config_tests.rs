use time_period_checker::TimePeriod;
use time_period_checker::default_config_yaml;
use time_period_checker::load_yaml_file;

fn assert_same_periods(a: &[(String, TimePeriod)], b: &[(String, TimePeriod)]) {
    assert_eq!(a.len(), b.len());
    for (x, y) in a.iter().zip(b.iter()) {
        assert_eq!(x.0, y.0);
        assert_eq!(x.1.date, y.1.date);
        assert_eq!(x.1.days_before, y.1.days_before);
        assert_eq!(x.1.days_after, y.1.days_after);
    }
}

fn reserialize(list: &[(String, TimePeriod)]) -> String {
    let mut items = Vec::new();
    for (name, tp) in list {
        let mut spec = serde_yaml::Mapping::new();
        spec.insert(
            serde_yaml::Value::String("Date".to_string()),
            serde_yaml::Value::String(tp.date.clone()),
        );
        spec.insert(
            serde_yaml::Value::String("DaysBefore".to_string()),
            serde_yaml::Value::Number(serde_yaml::Number::from(tp.days_before)),
        );
        spec.insert(
            serde_yaml::Value::String("DaysAfter".to_string()),
            serde_yaml::Value::Number(serde_yaml::Number::from(tp.days_after)),
        );
        let mut entry = serde_yaml::Mapping::new();
        entry.insert(
            serde_yaml::Value::String(name.clone()),
            serde_yaml::Value::Mapping(spec),
        );
        items.push(serde_yaml::Value::Mapping(entry));
    }
    let mut doc = serde_yaml::Mapping::new();
    doc.insert(
        serde_yaml::Value::String("TimePeriods".to_string()),
        serde_yaml::Value::Sequence(items),
    );
    serde_yaml::to_string(&serde_yaml::Value::Mapping(doc)).unwrap()
}

#[test]
fn default_config_round_trips() {
    let loaded = load_yaml_file(default_config_yaml());
    assert_eq!(loaded.len(), 7);
    let reloaded = load_yaml_file(&reserialize(&loaded));
    assert_same_periods(&loaded, &reloaded);
}

#[test]
fn load_preserves_document_order() {
    let text = "TimePeriods:\n  - Second:\n      Date: March 1\n      DaysBefore: 0\n      DaysAfter: 0\n  - First:\n      Date: January 1\n      DaysBefore: 1\n      DaysAfter: 1\n";
    let loaded = load_yaml_file(text);
    assert_eq!(loaded.len(), 2);
    assert_eq!(loaded[0].0, "Second");
    assert_eq!(loaded[0].1.date, "March 1");
    assert_eq!(loaded[1].0, "First");
    assert_eq!(loaded[1].1.days_after, 1);
}

#[test]
fn load_skips_malformed_entries() {
    let text = "TimePeriods:\n  - Broken:\n      DaysBefore: 1\n      DaysAfter: 1\n  - AlsoBroken:\n      Date: 3\n      DaysBefore: 1\n      DaysAfter: 1\n  - NotEvenAMapping\n  - Good:\n      Date: February 6\n      DaysBefore: 1\n      DaysAfter: 1\n      Comment: kept\n";
    let loaded = load_yaml_file(text);
    assert_eq!(loaded.len(), 1);
    assert_eq!(loaded[0].0, "Good");
    assert_eq!(loaded[0].1.date, "February 6");
}

#[test]
fn tagged_values_read_as_their_content() {
    // a `!tag` annotation on a field's value is transparent to the accessors
    let text = "TimePeriods:\n  - Tagged:\n      Date: !note Easter\n      DaysBefore: !n 1\n      DaysAfter: 2\n";
    let loaded = load_yaml_file(text);
    assert_eq!(loaded.len(), 1);
    assert_eq!(loaded[0].0, "Tagged");
    assert_eq!(loaded[0].1.date, "Easter");
    assert_eq!(loaded[0].1.days_before, 1);
    assert_eq!(loaded[0].1.days_after, 2);
}

#[test]
fn load_of_malformed_documents_is_empty() {
    assert!(load_yaml_file("").is_empty());
    assert!(load_yaml_file("not yaml: [unclosed").is_empty());
    assert!(load_yaml_file("SomethingElse: 3\n").is_empty());
    assert!(load_yaml_file("TimePeriods: notalist\n").is_empty());
}
