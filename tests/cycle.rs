use biliup_core::cycle::StatusCycle;
use biliup_core::status::{monitor_step, StreamStatus};

#[test]
fn round_robin_visits_each_once() {
    let mut c = StatusCycle::new();
    c.insert("a".to_string(), StreamStatus::Idle);
    c.insert("b".to_string(), StreamStatus::Downloading);
    c.insert("c".to_string(), StreamStatus::Pending);
    let mut cursor: usize = 7;
    let mut seen: Vec<String> = Vec::new();
    for _ in 0..3 {
        seen.push(c.get(&mut cursor).unwrap().0);
    }
    assert_eq!(seen, vec!["b".to_string(), "c".to_string(), "a".to_string()]);
    assert_eq!(cursor, 1);
    seen.sort();
    assert_eq!(seen, vec!["a".to_string(), "b".to_string(), "c".to_string()]);
}

#[test]
fn get_on_empty_cycle_yields_nothing() {
    let c = StatusCycle::new();
    let mut cursor: usize = 3;
    assert!(c.get(&mut cursor).is_none());
    assert_eq!(cursor, 3);
    assert_eq!(c.len(), 0);
}

#[test]
fn get_from_largest_cursor() {
    let mut c = StatusCycle::with_source("a".to_string(), StreamStatus::Idle);
    c.insert("b".to_string(), StreamStatus::Idle);
    let mut cursor: usize = usize::MAX;
    assert_eq!(c.get(&mut cursor), Some(("b".to_string(), StreamStatus::Idle)));
    assert_eq!(cursor, 2);
    assert_eq!(c.get(&mut cursor), Some(("a".to_string(), StreamStatus::Idle)));
    assert_eq!(cursor, 1);
    assert_eq!(c.get(&mut cursor), Some(("b".to_string(), StreamStatus::Idle)));
}

#[test]
fn insert_updates_in_place() {
    let mut c = StatusCycle::new();
    assert_eq!(c.insert("a".to_string(), StreamStatus::Idle), None);
    assert_eq!(c.insert("b".to_string(), StreamStatus::Idle), None);
    assert_eq!(c.insert("a".to_string(), StreamStatus::Uploading), Some(StreamStatus::Idle));
    assert_eq!(c.len(), 2);
    let mut cursor: usize = 0;
    assert_eq!(c.get(&mut cursor), Some(("a".to_string(), StreamStatus::Uploading)));
    assert_eq!(c.get(&mut cursor), Some(("b".to_string(), StreamStatus::Idle)));
}

#[test]
fn remove_keeps_order() {
    let mut c = StatusCycle::new();
    c.insert("a".to_string(), StreamStatus::Idle);
    c.insert("b".to_string(), StreamStatus::Pending);
    c.insert("c".to_string(), StreamStatus::Idle);
    assert_eq!(c.remove("a"), Some(StreamStatus::Idle));
    assert_eq!(c.remove("a"), None);
    let mut cursor: usize = 0;
    assert_eq!(c.get(&mut cursor).unwrap().0, "b");
    assert_eq!(c.get(&mut cursor).unwrap().0, "c");
    assert_eq!(c.status("b"), Some(StreamStatus::Pending));
    assert_eq!(c.status("a"), None);
}

#[test]
fn set_existing_only_touches_present_sources() {
    let mut c = StatusCycle::with_source("a".to_string(), StreamStatus::Idle);
    assert!(c.set_existing("a", StreamStatus::Downloading));
    assert_eq!(c.status("a"), Some(StreamStatus::Downloading));
    assert!(!c.set_existing("b", StreamStatus::Downloading));
    assert_eq!(c.len(), 1);
}

#[test]
fn monitor_step_table() {
    assert_eq!(monitor_step(StreamStatus::Idle, true), (StreamStatus::Downloading, true));
    assert_eq!(monitor_step(StreamStatus::Idle, false), (StreamStatus::Idle, false));
    assert_eq!(monitor_step(StreamStatus::Downloading, true), (StreamStatus::Downloading, false));
    assert_eq!(monitor_step(StreamStatus::Downloading, false), (StreamStatus::Downloading, false));
    assert_eq!(monitor_step(StreamStatus::Pending, true), (StreamStatus::Pending, false));
    assert_eq!(monitor_step(StreamStatus::Uploading, true), (StreamStatus::Uploading, false));
}
