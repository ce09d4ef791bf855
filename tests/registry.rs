use sioctl::{Control, Event, Registry};

fn control(group: &str, name: &str, func: &str, value: u8) -> Control {
    Control { group: group.to_string(), name: name.to_string(), func: func.to_string(), value }
}

fn values(r: &Registry) -> Vec<(String, u8)> {
    let mut v: Vec<(String, u8)> = r.snapshot().into_iter().map(|c| (c.name, c.value)).collect();
    v.sort();
    v
}

#[test]
fn end_to_end_description_then_value() {
    let mut r = Registry::new();
    assert!(r.apply(Event::Description { address: 1, control: control("output", "level", "level", 80) }).is_none());
    let snap = r.snapshot();
    assert_eq!(snap.len(), 1);
    assert_eq!(snap[0].group, "output");
    assert_eq!(snap[0].name, "level");
    assert_eq!(snap[0].func, "level");
    assert_eq!(snap[0].value, 80);

    let mut seen: Vec<u8> = Vec::new();
    if let Some(c) = r.apply(Event::Value { address: 1, value: 42 }) {
        seen.push(c.value);
    }
    assert_eq!(seen, vec![42]);
    let snap = r.snapshot();
    assert_eq!(snap.len(), 1);
    assert_eq!(snap[0].group, "output");
    assert_eq!(snap[0].name, "level");
    assert_eq!(snap[0].value, 42);
}

#[test]
fn unknown_address_value_is_ignored() {
    let mut r = Registry::new();
    r.upsert_description(1, control("output", "level", "level", 80));
    assert!(r.update_value(7, 3).is_none());
    assert_eq!(values(&r), vec![("level".to_string(), 80)]);
    let mut empty = Registry::new();
    assert!(empty.update_value(7, 3).is_none());
    assert!(empty.snapshot().is_empty());
}

#[test]
fn interleaved_events_keep_last_value_per_described_address() {
    let mut r = Registry::new();
    r.apply(Event::Value { address: 2, value: 9 });
    r.apply(Event::Description { address: 1, control: control("a", "one", "level", 10) });
    r.apply(Event::Value { address: 1, value: 11 });
    r.apply(Event::Description { address: 2, control: control("b", "two", "mute", 0) });
    r.apply(Event::Value { address: 3, value: 5 });
    r.apply(Event::Value { address: 1, value: 12 });
    r.apply(Event::Value { address: 2, value: 1 });
    assert_eq!(values(&r), vec![("one".to_string(), 12), ("two".to_string(), 1)]);
}

#[test]
fn description_again_replaces_metadata_and_level() {
    let mut r = Registry::new();
    r.upsert_description(4, control("g", "old", "level", 1));
    r.upsert_description(4, control("g", "new", "level", 2));
    let snap = r.snapshot();
    assert_eq!(snap.len(), 1);
    assert_eq!(snap[0].name, "new");
    assert_eq!(snap[0].value, 2);
}

#[test]
fn notice_is_the_updated_control() {
    let mut r = Registry::new();
    r.upsert_description(5, control("input", "mic", "level", 100));
    let c = r.update_value(5, 7).unwrap();
    assert_eq!(c.group, "input");
    assert_eq!(c.name, "mic");
    assert_eq!(c.value, 7);
}

#[test]
fn control_clone_keeps_fields() {
    let c = control("x", "y", "z", 3);
    let d = c.clone();
    assert_eq!((d.group, d.name, d.func, d.value), ("x".to_string(), "y".to_string(), "z".to_string(), 3));
}

#[test]
fn apply_all_keeps_one_control_per_described_address() {
    let mut r = Registry::new();
    r.apply_all(vec![
        Event::Value { address: 3, value: 1 },
        Event::Description { address: 3, control: control("g", "three", "level", 30) },
        Event::Description { address: 4, control: control("g", "four", "level", 40) },
        Event::Description { address: 3, control: control("g", "three", "level", 31) },
        Event::Value { address: 4, value: 41 },
        Event::Value { address: 5, value: 50 },
    ]);
    assert_eq!(r.snapshot().len(), 2);
    assert_eq!(values(&r), vec![("four".to_string(), 41), ("three".to_string(), 31)]);
    r.apply_all(Vec::new());
    assert_eq!(values(&r), vec![("four".to_string(), 41), ("three".to_string(), 31)]);
}
