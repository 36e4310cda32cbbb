//! Compact 16-byte value model used by JIT-generated code.
//!
//! JIT code treats a value slot as `[tag: u64][payload: u64]`: an 8-byte tag word
//! at offset 0 followed by an 8-byte payload word at offset 8.

use crate::text::{cat3, dec_u64};
use crate::vm::value::{truthy, GcRef, Value};
use vstd::prelude::*;

verus! {

/// `Value::Unit` tag.
pub const TAG_UNIT: u64 = 0;

/// `Value::Int` tag.
pub const TAG_INT: u64 = 1;

/// `Value::Float` tag.
pub const TAG_FLOAT: u64 = 2;

/// `Value::Bool` tag (truth bit packed at bit 8).
pub const TAG_BOOL: u64 = 3;

/// `Value::Char` tag (char code packed at bit 32).
pub const TAG_CHAR: u64 = 4;

/// `Value::String` tag.
pub const TAG_STRING: u64 = 5;

/// `Value::Object` tag.
pub const TAG_OBJECT: u64 = 6;

/// `Value::Enum` tag.
pub const TAG_ENUM: u64 = 7;

/// `Value::Tuple` tag.
pub const TAG_TUPLE: u64 = 8;

/// `Value::Null` tag.
pub const TAG_NULL: u64 = 9;

/// Byte offset of the tag word within a value slot.
pub const TAG_OFF: usize = 0;

/// Byte offset of the payload word within a value slot.
pub const PAYLOAD_OFF: usize = 8;

/// Bit 8 of the tag word.
pub const BOOL_BIT: u64 = 0x100;

/// Bit 32 of the tag word.
pub const CHAR_UNIT: u64 = 0x1_0000_0000;

/// A value slot.
#[derive(Debug, Clone, Copy, PartialEq, Eq, Structural)]
pub struct Slot {
    /// Tag word.
    pub tag: u64,
    /// Payload word.
    pub payload: u64,
}

/// The number whose bits are those of the payload of an integer.
pub open spec fn int_bits(i: i64) -> u64 {
    if i < 0 {
        (i + 0x1_0000_0000_0000_0000) as u64
    } else {
        i as u64
    }
}

/// The canonical slot parts of a value; unused bits are zero.
pub open spec fn parts_of(v: Value) -> (u64, u64) {
    match v {
        Value::Unit => (TAG_UNIT, 0),
        Value::Int(i) => (TAG_INT, int_bits(i)),
        Value::Float(f) => (TAG_FLOAT, f),
        Value::Bool(b) => (if b {
            (TAG_BOOL + BOOL_BIT) as u64
        } else {
            TAG_BOOL
        }, 0),
        Value::Char(c) => ((TAG_CHAR + (c as u32) * CHAR_UNIT) as u64, 0),
        Value::String(r) => (TAG_STRING, r.0 as u64),
        Value::Object(r) => (TAG_OBJECT, r.0 as u64),
        Value::Enum(r) => (TAG_ENUM, r.0 as u64),
        Value::Tuple(r) => (TAG_TUPLE, r.0 as u64),
        Value::Null => (TAG_NULL, 0),
    }
}

/// A slot holds a value in canonical form.
pub open spec fn holds_value(s: Slot, v: Value) -> bool {
    parts_of(v) == (s.tag, s.payload)
}

fn bits_of_int(i: i64) -> (r: u64)
    ensures
        r == int_bits(i),
{
    if i < 0 {
        let low: i64 = i - i64::MIN;
        low as u64 + 0x8000_0000_0000_0000
    } else {
        i as u64
    }
}

fn int_of_bits(b: u64) -> (r: i64)
    ensures
        int_bits(r) == b,
{
    if b >= 0x8000_0000_0000_0000 {
        let low: u64 = b - 0x8000_0000_0000_0000;
        low as i64 + i64::MIN
    } else {
        b as i64
    }
}

/// Decompose a value into its canonical `(tag, payload)` slot parts: generated
/// code reads the tag and payload as whole words and relies on the unused bits
/// being zero.
pub fn to_parts(v: &Value) -> (r: (u64, u64))
    ensures
        r == parts_of(*v),
{
    match v {
        Value::Unit => (TAG_UNIT, 0),
        Value::Int(i) => (TAG_INT, bits_of_int(*i)),
        Value::Float(f) => (TAG_FLOAT, *f),
        Value::Bool(b) => (if *b {
            TAG_BOOL + BOOL_BIT
        } else {
            TAG_BOOL
        }, 0),
        Value::Char(c) => (TAG_CHAR + (*c as u32) as u64 * CHAR_UNIT, 0),
        Value::String(r) => (TAG_STRING, r.0 as u64),
        Value::Object(r) => (TAG_OBJECT, r.0 as u64),
        Value::Enum(r) => (TAG_ENUM, r.0 as u64),
        Value::Tuple(r) => (TAG_TUPLE, r.0 as u64),
        Value::Null => (TAG_NULL, 0),
    }
}

/// The slot of a value in canonical form.
pub fn canonicalize(v: &Value) -> (s: Slot)
    ensures
        holds_value(s, *v),
{
    let (tag, payload) = to_parts(v);
    Slot { tag, payload }
}

/// The value that a slot holds, if it holds one in canonical form.
pub fn read_value(s: &Slot) -> (r: Option<Value>)
    ensures
        match r {
            Some(v) => holds_value(*s, v),
            None => forall|v: Value| !holds_value(*s, v),
        },
{
    let low: u64 = s.tag % CHAR_UNIT;
    let high: u64 = s.tag / CHAR_UNIT;
    proof {
        assert forall|c: char| #![trigger parts_of(Value::Char(c))] parts_of(Value::Char(c)).0
            == s.tag implies low == TAG_CHAR && high == c as u32 by {
            let k = c as u32 as int;
            assert(s.tag == TAG_CHAR + k * CHAR_UNIT);
            assert((TAG_CHAR + k * CHAR_UNIT) % (CHAR_UNIT as int) == TAG_CHAR && (TAG_CHAR + k
                * CHAR_UNIT) / (CHAR_UNIT as int) == k) by (nonlinear_arith)
                requires
                    TAG_CHAR == 4,
                    CHAR_UNIT == 0x1_0000_0000,
                    0 <= k,
            ;
        }
    }
    if low == TAG_CHAR {
        let code: u32 = high as u32;
        match char::from_u32(code) {
            Some(c) => {
                if s.payload == 0 {
                    assert(s.tag == TAG_CHAR + high * CHAR_UNIT);
                    return Some(Value::Char(c));
                }
            },
            None => {},
        }
        proof {
            assert forall|v: Value| !holds_value(*s, v) by {
                match v {
                    Value::Char(c) => {
                        assert(parts_of(Value::Char(c)).1 == 0);
                        if holds_value(*s, v) {
                            assert(high == c as u32);
                        }
                    },
                    _ => {},
                }
            }
        }
        return None;
    }
    proof {
        assert forall|c: char| !holds_value(*s, Value::Char(c)) by {
            assert(parts_of(Value::Char(c)).1 == 0);
        }
    }
    if s.tag == TAG_INT {
        return Some(Value::Int(int_of_bits(s.payload)));
    }
    if s.tag == TAG_FLOAT {
        return Some(Value::Float(s.payload));
    }
    if s.tag == TAG_STRING || s.tag == TAG_OBJECT || s.tag == TAG_ENUM || s.tag == TAG_TUPLE {
        if s.payload > usize::MAX as u64 {
            return None;
        }
        let r: GcRef = GcRef(s.payload as usize);
        return Some(
            if s.tag == TAG_STRING {
                Value::String(r)
            } else if s.tag == TAG_OBJECT {
                Value::Object(r)
            } else if s.tag == TAG_ENUM {
                Value::Enum(r)
            } else {
                Value::Tuple(r)
            },
        );
    }
    if s.payload != 0 {
        return None;
    }
    if s.tag == TAG_UNIT {
        Some(Value::Unit)
    } else if s.tag == TAG_NULL {
        Some(Value::Null)
    } else if s.tag == TAG_BOOL {
        Some(Value::Bool(false))
    } else if s.tag == TAG_BOOL + BOOL_BIT {
        Some(Value::Bool(true))
    } else {
        None
    }
}

/// True if the value slot is an integer.
pub fn is_int(s: &Slot) -> (r: bool)
    ensures
        r == (s.tag == TAG_INT),
        forall|v: Value| #[trigger] holds_value(*s, v) ==> r == (v is Int),
{
    proof {
        char_tags();
    }
    s.tag == TAG_INT
}

/// True if the value slot is a float.
pub fn is_float(s: &Slot) -> (r: bool)
    ensures
        r == (s.tag == TAG_FLOAT),
        forall|v: Value| #[trigger] holds_value(*s, v) ==> r == (v is Float),
{
    proof {
        char_tags();
    }
    s.tag == TAG_FLOAT
}

/// True if the value slot is truthy.
pub fn is_truthy(s: &Slot) -> (r: bool)
    ensures
        forall|v: Value| #[trigger] holds_value(*s, v) ==> r == truthy(v),
{
    proof {
        char_tags();
    }
    if s.tag == TAG_BOOL || s.tag == TAG_UNIT || s.tag == TAG_NULL {
        false
    } else if s.tag == TAG_INT {
        s.payload != 0
    } else if s.tag == TAG_FLOAT {
        // 0.0 and -0.0 are falsy, NaN truthy.
        s.payload % 0x8000_0000_0000_0000 != 0
    } else {
        true
    }
}

/// `GcRef` payload of a reference value (string/object/enum/tuple).
pub fn gc_ref(tag: u64, payload: u64) -> (r: GcRef)
    requires
        tag == TAG_STRING || tag == TAG_OBJECT || tag == TAG_ENUM || tag == TAG_TUPLE,
        payload <= usize::MAX,
    ensures
        r.0 == payload,
{
    GcRef(payload as usize)
}

proof fn char_tags()
    ensures
        forall|c: char|
            #![trigger parts_of(Value::Char(c))]
            parts_of(Value::Char(c)).0 == TAG_CHAR || parts_of(Value::Char(c)).0 >= CHAR_UNIT,
        forall|c: char| #![trigger parts_of(Value::Char(c))] parts_of(Value::Char(c)).1 == 0,
{
    assert forall|c: char| #![trigger parts_of(Value::Char(c))] parts_of(Value::Char(c)).0
        == TAG_CHAR || parts_of(Value::Char(c)).0 >= CHAR_UNIT by {
        vstd::utf8::char_is_scalar(c);
        let k = c as u32 as int;
        assert(0 <= k < 0x110000);
        assert(TAG_CHAR + k * CHAR_UNIT <= u64::MAX);
    }
}

/// A slot holds one value only, so that a value is read back as it was written.
pub proof fn slots_are_exact(s: Slot, v: Value, w: Value)
    requires
        holds_value(s, v),
        holds_value(s, w),
    ensures
        v == w,
{
    char_tags();
    match (v, w) {
        (Value::Char(a), Value::Char(b)) => {
            let x = a as u32 as int;
            let y = b as u32 as int;
            assert(TAG_CHAR + x * CHAR_UNIT == TAG_CHAR + y * CHAR_UNIT);
            assert(x == y);
        },
        (Value::Char(a), _) => {
            assert(parts_of(Value::Char(a)).0 == s.tag);
        },
        (_, Value::Char(b)) => {
            assert(parts_of(Value::Char(b)).0 == s.tag);
        },
        _ => {},
    }
}

fn round_trips(v: Value) -> (r: bool)
    ensures
        r,
{
    let s: Slot = canonicalize(&v);
    match read_value(&s) {
        Some(w) => {
            proof {
                slots_are_exact(s, v, w);
            }
            true
        },
        None => {
            assert(holds_value(s, v));
            false
        },
    }
}

/// Verify the boxed slot layout the JIT relies on: a 16-byte value that is read
/// back from its slot as it was written.
pub fn verify_layout() -> (r: Result<(), String>)
    ensures
        r is Ok <==> vstd::layout::size_of::<Value>() == 16,
{
    let samples: bool = round_trips(Value::Unit) && round_trips(Value::Int(0x1122334455667788))
        && round_trips(Value::Float(0x400C_0000_0000_0000)) && round_trips(Value::Bool(true))
        && round_trips(Value::Bool(false)) && round_trips(Value::Char('A')) && round_trips(
        Value::String(GcRef(7)),
    ) && round_trips(Value::Object(GcRef(9))) && round_trips(Value::Null);
    if !samples {
        return Err(crate::text::own("a value is not read back from its slot"));
    }
    let size: usize = std::mem::size_of::<Value>();
    if size != 16 {
        let shown: String = dec_u64(size as u64);
        return Err(cat3("Value is ", shown.as_str(), " bytes, expected 16"));
    }
    Ok(())
}

} // verus!
