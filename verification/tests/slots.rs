//! Values in slots of two words.

use aura::jit::value::{
    is_float, is_int, is_truthy, read_value, to_parts, verify_layout, Slot, TAG_BOOL,
    TAG_FLOAT, TAG_INT,
};
use aura::vm::value::{GcRef, Value};

#[test]
fn layout_is_verified() {
    verify_layout().unwrap();
}

#[test]
fn roundtrip_slot() {
    let mut slot = Slot { tag: 0, payload: 0 };
    slot.tag = TAG_FLOAT;
    slot.payload = 1.25f64.to_bits();
    assert!(is_float(&slot));
    assert!(!is_int(&slot));
    assert!(is_truthy(&slot));
    let v = read_value(&slot);
    assert_eq!(v, Some(Value::Float(1.25f64.to_bits())));
    slot.tag = TAG_BOOL;
    slot.payload = 0;
    assert!(!is_truthy(&slot));
}

#[test]
fn parts_are_read_back() {
    for v in [
        Value::Unit,
        Value::Int(-5),
        Value::Int(0x1122334455667788),
        Value::Float(3.5f64.to_bits()),
        Value::Bool(true),
        Value::Bool(false),
        Value::Char('A'),
        Value::String(GcRef(7)),
        Value::Object(GcRef(9)),
        Value::Null,
    ] {
        let (tag, payload) = to_parts(&v);
        assert_eq!(read_value(&Slot { tag, payload }), Some(v));
    }
    assert_eq!(to_parts(&Value::Int(-1)), (TAG_INT, u64::MAX));
    assert_eq!(to_parts(&Value::Char('A')), (4 | 65 << 32, 0));
}
