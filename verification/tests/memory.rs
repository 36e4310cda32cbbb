//! The heap and its collector.

use aura::vm::heap::{GcMode, Heap, HeapError};
use aura::vm::value::{AuraObject, GcRef, Value};

fn text(s: &str) -> AuraObject {
    AuraObject::String(s.to_string())
}

fn list(vs: Vec<Value>) -> AuraObject {
    AuraObject::Array { elements: vs }
}

#[test]
fn handles_start_at_one_and_are_not_reused() {
    let mut h = Heap::new();
    let a = h.allocate(text("a"));
    let b = h.allocate(text("b"));
    assert_ne!(a, b);
    assert_eq!(h.total_allocations(), 2);
    h.collect_major(&Vec::new());
    assert_eq!(h.live_count(), 0);
    assert_eq!(h.get(a).unwrap_err(), HeapError::InvalidRef(a));
    let c = h.allocate(text("c"));
    assert!(c != a && c != b);
    assert_eq!(h.total_allocations(), 3);
}

#[test]
fn a_major_collection_keeps_exactly_what_is_reachable() {
    let mut h = Heap::new();
    let leaf = h.allocate(text("leaf"));
    let root = h.allocate(list(vec![Value::String(leaf)]));
    let lost = h.allocate(list(vec![Value::Object(root)]));
    h.collect_major(&vec![root.0]);
    assert!(h.contains(leaf) && h.contains(root) && !h.contains(lost));
    assert_eq!(h.live_count(), 2);
    assert_eq!(h.major_collections(), 1);
}

#[test]
fn a_minor_collection_leaves_old_objects_alone() {
    let mut h = Heap::new();
    let old_thing = h.allocate(list(Vec::new()));
    h.collect_minor(&vec![old_thing.0]);
    let young = h.allocate(text("young"));
    let lost = h.allocate(text("lost"));
    // A store into an old object keeps the young one reachable.
    match h.get_mut(old_thing).unwrap() {
        AuraObject::Array { elements } => elements.push(Value::String(young)),
        _ => unreachable!(),
    }
    h.collect_minor(&Vec::new());
    assert!(h.contains(old_thing) && h.contains(young) && !h.contains(lost));
    assert_eq!(h.minor_collections(), 2);
}

#[test]
fn cycles_are_collected() {
    let mut h = Heap::new();
    let a = h.allocate(list(Vec::new()));
    let b = h.allocate(list(vec![Value::Object(a)]));
    match h.get_mut(a).unwrap() {
        AuraObject::Array { elements } => elements.push(Value::Object(b)),
        _ => unreachable!(),
    }
    h.collect_major(&vec![a.0]);
    assert_eq!(h.live_count(), 2);
    h.collect_major(&Vec::new());
    assert_eq!(h.live_count(), 0);
}

#[test]
fn kinds_are_told_apart() {
    let mut h = Heap::new();
    let s = h.allocate(text("s"));
    let l = h.allocate(list(Vec::new()));
    assert_eq!(h.get_string(s), Some("s"));
    assert_eq!(h.get_string(l), None);
    assert_eq!(h.get_string(GcRef(99)), None);
    assert!(h.get_enum(s).is_err());
    assert!(h.get_tuple(s).is_err());
}

#[test]
fn thresholds_start_collections() {
    let mut h = Heap::with_threshold(1);
    assert!(!h.needs_collect());
    h.allocate(text("something"));
    assert!(h.needs_collect());
    h.collect(&Vec::new());
    assert_eq!(h.collections(), 1);
    assert!(!h.needs_collect());
    h.set_max_heap(Some(1));
    h.allocate(text("too much"));
    let (used, limit) = h.over_max_heap().unwrap();
    assert!(used > limit);
    assert_eq!(limit, 1);
    h.set_max_heap(None);
    assert_eq!(h.over_max_heap(), None);
}

#[test]
fn modes_set_the_nursery() {
    let mut h = Heap::new();
    assert_eq!(h.stats().nursery_size, h.stats().threshold / 2);
    h.set_mode(GcMode::Latency);
    assert_eq!(h.stats().nursery_size, 16384);
    h.set_mode(GcMode::Throughput);
    assert_eq!(h.stats().nursery_size, 262144);
    h.set_nursery_size(Some(0));
    assert_eq!(h.stats().nursery_size, 1);
    h.set_mode(GcMode::Balanced);
    assert_eq!(h.stats().nursery_size, h.stats().threshold / 2);
}

#[test]
fn the_nursery_is_tried_first() {
    let mut h = Heap::with_threshold(1000);
    assert!(!h.starts_minor());
    h.allocate(text("x"));
    assert!(h.starts_minor());
    h.set_threshold(1);
    assert!(!h.starts_minor());
}

#[test]
fn pauses_are_counted() {
    let mut h = Heap::new();
    h.allocate(text("x"));
    h.collect_minor(&Vec::new());
    h.note_minor_pause(5);
    h.collect_major(&Vec::new());
    h.note_major_pause(9);
    let s = h.stats();
    assert_eq!(s.minor_collections, 1);
    assert_eq!(s.major_collections, 1);
    assert_eq!((s.minor_pause_total, s.max_minor_pause), (5, 5));
    assert_eq!((s.major_pause_total, s.max_major_pause), (9, 9));
    h.set_nursery_size(Some(65536));
    h.set_pause_target(Some(4));
    h.note_minor_pause(5);
    assert_eq!(h.stats().nursery_size, 32768);
    h.note_minor_pause(0);
    assert_eq!(h.stats().nursery_size, 65536);
}

#[test]
fn a_collection_settles_what_was_pending() {
    let mut h = Heap::with_threshold(1);
    let kept = h.allocate(text("kept"));
    let lost = h.allocate(text("lost"));
    assert!(h.needs_collect());
    h.collect(&vec![kept.0]);
    assert!(!h.needs_collect());
    assert!(h.contains(kept) && !h.contains(lost));
    assert!(h.collections() > 0);
    assert_eq!(h.collections(), h.minor_collections() + h.major_collections());
}
