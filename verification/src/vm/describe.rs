//! Hashes and descriptions of values, and stack traces.

use crate::arith::rank;
use crate::bytecode::{
    class_of, enum_of, method_entry, ClassDef, ClassId, EnumId, FieldDef, MethodDef, MethodId,
    Module,
};
use crate::text::{cat2, cat3, cat4, char_text, dec, dec_i64, dec_int, dec_u64, own, same};
use crate::vm::heap::{heap_ok, object_at, string_at, Heap, HeapModel};
use crate::vm::inspect::{
    instance_of, is_instance_of, is_record, same_value, VALUE_DEPTH,
};
use crate::vm::value::{AuraObject, ObjectModel, Value};
use crate::vm::world::{float_text, text_or_ask, Answers, Ask, Question, World};
use vstd::prelude::*;

verus! {

// ---------------------------------------------------------------------------
// Hashes
// ---------------------------------------------------------------------------

/// The 32-bit integer that is left of a number.
pub open spec fn wrap32(n: int) -> i32 {
    let m = n % 0x1_0000_0000;
    if m >= 0x8000_0000 {
        (m - 0x1_0000_0000) as i32
    } else {
        m as i32
    }
}

/// One step of a hash.
pub open spec fn mixed(h: i32, x: i32) -> i32 {
    wrap32(h * 31 + x)
}

/// FNV-1a 32-bit hash of the bytes from `i` on, starting with `h`.
pub open spec fn fnv_from(bytes: Seq<u8>, i: int, h: u32) -> u32
    decreases bytes.len() - i,
{
    if i < 0 || i >= bytes.len() {
        h
    } else {
        fnv_from(
            bytes,
            i + 1,
            (((h ^ (bytes[i] as u32)) * 0x0100_0193) % 0x1_0000_0000) as u32,
        )
    }
}

/// FNV-1a 32-bit hash of a text.
pub open spec fn fnv(s: Seq<char>) -> i32 {
    wrap32(fnv_from(vstd::utf8::encode_utf8(s), 0, 0x811c_9dc5) as int)
}

/// The hash of the values from `i` on, starting with `acc`.
pub open spec fn hash_list(
    module: Module,
    h: HeapModel,
    vs: Seq<Value>,
    i: int,
    acc: i32,
    left: nat,
) -> i32
    decreases left, vs.len() - i,
{
    if left == 0 || i < 0 || i >= vs.len() {
        acc
    } else {
        hash_list(
            module,
            h,
            vs,
            i + 1,
            mixed(acc, hash_of(module, h, vs[i], (left - 1) as nat)),
            left,
        )
    }
}

/// Structural hash of a value. Record instances hash over their fields;
/// strings hash by content; non-record objects hash by identity.
pub open spec fn hash_of(module: Module, h: HeapModel, v: Value, left: nat) -> i32
    decreases left, 0int,
{
    if left == 0 {
        0
    } else {
        let next = (left - 1) as nat;
        match v {
            Value::Int(i) => wrap32(i as int),
            Value::Float(f) => wrap32(f as int),
            Value::Bool(b) => if b {
                1
            } else {
                0
            },
            Value::Char(c) => wrap32((c as u32) as int),
            Value::Null => 0,
            Value::Unit => 0,
            Value::String(r) => match string_at(h, r.0) {
                Some(s) => fnv(s),
                None => 0,
            },
            Value::Object(r) => match object_at(h.objects, r.0) {
                Some(ObjectModel::String(s)) => fnv(s),
                Some(ObjectModel::Instance(c, f)) => if is_record(module, c) {
                    hash_list(module, h, f, 0, 17, next)
                } else {
                    wrap32(r.0 as int)
                },
                _ => wrap32(r.0 as int),
            },
            Value::Enum(r) => match object_at(h.objects, r.0) {
                Some(ObjectModel::Enum(e, k, f)) => hash_list(
                    module,
                    h,
                    f,
                    0,
                    mixed(mixed(17, wrap32(e as int)), wrap32(k as int)),
                    next,
                ),
                _ => wrap32(r.0 as int),
            },
            Value::Tuple(r) => match object_at(h.objects, r.0) {
                Some(ObjectModel::Tuple(f)) => hash_list(module, h, f, 0, 17, next),
                _ => wrap32(r.0 as int),
            },
        }
    }
}

fn to_i32(n: i64) -> (r: i32)
    ensures
        r == wrap32(n as int),
{
    let m: i64 = n % 0x1_0000_0000;
    let k: i64 = if m < 0 {
        m + 0x1_0000_0000
    } else {
        m
    };
    proof {
        trunc_mod(n as int);
    }
    if k >= 0x8000_0000 {
        (k - 0x1_0000_0000) as i32
    } else {
        k as i32
    }
}

proof fn trunc_mod(n: int)
    ensures
        n >= 0 ==> n % 0x1_0000_0000 == n - (n / 0x1_0000_0000) * 0x1_0000_0000,
        n < 0 ==> ((-n) % 0x1_0000_0000 == 0 ==> n % 0x1_0000_0000 == 0) && ((-n) % 0x1_0000_0000
            != 0 ==> n % 0x1_0000_0000 == 0x1_0000_0000 - (-n) % 0x1_0000_0000),
{
}

fn low_i32(n: u64) -> (r: i32)
    ensures
        r == wrap32(n as int),
{
    let m: u64 = n % 0x1_0000_0000;
    if m >= 0x8000_0000 {
        (m as i64 - 0x1_0000_0000) as i32
    } else {
        m as i32
    }
}

fn mix(h: i32, x: i32) -> (r: i32)
    ensures
        r == mixed(h, x),
{
    to_i32(h as i64 * 31 + x as i64)
}

/// FNV-1a 32-bit hash of a string, used for string hashing.
pub fn fnv_hash(s: &str) -> (r: i32)
    ensures
        r == fnv(s@),
{
    let bytes: &[u8] = s.as_bytes();
    let mut h: u32 = 0x811c_9dc5;
    let mut i: usize = 0;
    while i < bytes.len()
        invariant
            i <= bytes@.len(),
            bytes@ == vstd::utf8::encode_utf8(s@),
            fnv_from(bytes@, 0, 0x811c_9dc5) == fnv_from(bytes@, i as int, h),
        decreases bytes.len() - i,
    {
        let x: u32 = h ^ (bytes[i] as u32);
        let p: u64 = x as u64 * 0x0100_0193;
        h = (p % 0x1_0000_0000) as u32;
        i = i + 1;
    }
    low_i32(h as u64)
}

fn hash_values(module: &Module, heap: &Heap, vs: &Vec<Value>, start: i32, left: u32) -> (r: i32)
    requires
        heap_ok(heap@),
    ensures
        r == hash_list(*module, heap@, vs@, 0, start, left as nat),
    decreases left, 1int,
{
    let mut acc: i32 = start;
    if left == 0 {
        return acc;
    }
    let mut i: usize = 0;
    while i < vs.len()
        invariant
            i <= vs@.len(),
            left > 0,
            heap_ok(heap@),
            hash_list(*module, heap@, vs@, 0, start, left as nat) == hash_list(
                *module,
                heap@,
                vs@,
                i as int,
                acc,
                left as nat,
            ),
        decreases vs.len() - i,
    {
        acc = mix(acc, hash_value(module, heap, vs[i], left - 1));
        i = i + 1;
    }
    acc
}

fn hash_value(module: &Module, heap: &Heap, v: Value, left: u32) -> (r: i32)
    requires
        heap_ok(heap@),
    ensures
        r == hash_of(*module, heap@, v, left as nat),
    decreases left, 0int,
{
    if left == 0 {
        return 0;
    }
    match v {
        Value::Int(i) => to_i32(i),
        Value::Float(f) => low_i32(f),
        Value::Bool(b) => if b {
            1
        } else {
            0
        },
        Value::Char(c) => low_i32((c as u32) as u64),
        Value::Null => 0,
        Value::Unit => 0,
        Value::String(r) => match heap.get_string(r) {
            Some(s) => fnv_hash(s),
            None => 0,
        },
        Value::Object(r) => match heap.get(r) {
            Ok(o) => match o {
                AuraObject::String(s) => fnv_hash(s.as_str()),
                AuraObject::Instance { class_id, fields } => {
                    let record: bool = match module.class(*class_id) {
                        Some(c) => c.is_record,
                        None => false,
                    };
                    if record {
                        hash_values(module, heap, fields, 17, left - 1)
                    } else {
                        low_i32(r.0 as u64)
                    }
                },
                _ => low_i32(r.0 as u64),
            },
            Err(_) => low_i32(r.0 as u64),
        },
        Value::Enum(r) => match heap.get_enum(r) {
            Ok(e) => hash_values(
                module,
                heap,
                &e.fields,
                mix(mix(17, low_i32(e.enum_id as u64)), low_i32(e.variant_idx as u64)),
                left - 1,
            ),
            Err(_) => low_i32(r.0 as u64),
        },
        Value::Tuple(r) => match heap.get_tuple(r) {
            Ok(t) => hash_values(module, heap, &t.elements, 17, left - 1),
            Err(_) => low_i32(r.0 as u64),
        },
    }
}

/// The hash of a value as far as it is hashed.
pub open spec fn value_hash_of(module: Module, h: HeapModel, v: Value) -> i32 {
    hash_of(module, h, v, VALUE_DEPTH as nat)
}

/// Structural hash of a value.
pub fn value_hash(module: &Module, heap: &Heap, v: Value) -> (r: i32)
    requires
        heap_ok(heap@),
    ensures
        r == value_hash_of(*module, heap@, v),
{
    hash_value(module, heap, v, VALUE_DEPTH)
}

/// No zero: there are two of them, which are equal and hash differently.
pub open spec fn no_zero(v: Value) -> bool {
    v matches Value::Float(f) ==> rank(f) != 0
}

/// The values that a compared object holds.
pub open spec fn fields_of(o: Option<ObjectModel>) -> Seq<Value> {
    match o {
        Some(ObjectModel::Instance(_, f)) => f,
        Some(ObjectModel::Enum(_, _, f)) => f,
        Some(ObjectModel::Tuple(f)) => f,
        _ => seq![],
    }
}

/// No object holds a float zero.
pub open spec fn no_zeros(h: HeapModel) -> bool {
    forall|x: usize, i: int|
        0 <= i < fields_of(object_at(h.objects, x)).len() ==> no_zero(
            #[trigger] fields_of(object_at(h.objects, x))[i],
        )
}

proof fn equal_lists_hash(
    module: Module,
    h: HeapModel,
    f: Seq<Value>,
    g: Seq<Value>,
    i: int,
    acc: i32,
    left: nat,
    k: nat,
)
    requires
        f.len() == g.len(),
        no_zeros(h),
        forall|j: int| 0 <= j < f.len() ==> no_zero(#[trigger] f[j]),
        forall|j: int| 0 <= j < g.len() ==> no_zero(#[trigger] g[j]),
        forall|j: int| 0 <= j < f.len() ==> same_value(module, h, #[trigger] f[j], g[j], left),
    ensures
        hash_list(module, h, f, i, acc, k) == hash_list(module, h, g, i, acc, k),
    decreases left, 1int, f.len() - i,
{
    if k > 0 && 0 <= i < f.len() {
        assert(no_zero(g[i]));
        assert(same_value(module, h, f[i], g[i], left));
        equal_values_hash(module, h, f[i], g[i], left, (k - 1) as nat);
        equal_lists_hash(
            module,
            h,
            f,
            g,
            i + 1,
            mixed(acc, hash_of(module, h, f[i], (k - 1) as nat)),
            left,
            k,
        );
    }
}

/// Equal values have equal hashes, where no float is zero.
pub proof fn equal_values_hash(
    module: Module,
    h: HeapModel,
    a: Value,
    b: Value,
    left: nat,
    k: nat,
)
    requires
        same_value(module, h, a, b, left),
        no_zero(a),
        no_zero(b),
        no_zeros(h),
    ensures
        hash_of(module, h, a, k) == hash_of(module, h, b, k),
    decreases left, 0int, 0int,
{
    if k > 0 && a != b {
        let next = (k - 1) as nat;
        match (a, b) {
            (Value::Float(x), Value::Float(y)) => {
                assert(x == y);
            },
            (Value::Object(x), Value::Object(y)) => {
                let f = fields_of(object_at(h.objects, x.0));
                let g = fields_of(object_at(h.objects, y.0));
                assert forall|j: int| 0 <= j < f.len() implies no_zero(#[trigger] f[j]) by {
                    assert(no_zero(fields_of(object_at(h.objects, x.0))[j]));
                }
                assert forall|j: int| 0 <= j < g.len() implies no_zero(#[trigger] g[j]) by {
                    assert(no_zero(fields_of(object_at(h.objects, y.0))[j]));
                }
                if object_at(h.objects, x.0) is Some && object_at(h.objects, x.0)->0 is Instance {
                    equal_lists_hash(module, h, f, g, 0, 17, (left - 1) as nat, next);
                }
            },
            (Value::Enum(x), Value::Enum(y)) => {
                let f = fields_of(object_at(h.objects, x.0));
                let g = fields_of(object_at(h.objects, y.0));
                assert forall|j: int| 0 <= j < f.len() implies no_zero(#[trigger] f[j]) by {
                    assert(no_zero(fields_of(object_at(h.objects, x.0))[j]));
                }
                assert forall|j: int| 0 <= j < g.len() implies no_zero(#[trigger] g[j]) by {
                    assert(no_zero(fields_of(object_at(h.objects, y.0))[j]));
                }
                let o = object_at(h.objects, x.0)->0;
                let start = mixed(mixed(17, wrap32(o->Enum_0 as int)), wrap32(o->Enum_1 as int));
                equal_lists_hash(module, h, f, g, 0, start, (left - 1) as nat, next);
            },
            (Value::Tuple(x), Value::Tuple(y)) => {
                let f = fields_of(object_at(h.objects, x.0));
                let g = fields_of(object_at(h.objects, y.0));
                assert forall|j: int| 0 <= j < f.len() implies no_zero(#[trigger] f[j]) by {
                    assert(no_zero(fields_of(object_at(h.objects, x.0))[j]));
                }
                assert forall|j: int| 0 <= j < g.len() implies no_zero(#[trigger] g[j]) by {
                    assert(no_zero(fields_of(object_at(h.objects, y.0))[j]));
                }
                equal_lists_hash(module, h, f, g, 0, 17, (left - 1) as nat, next);
            },
            _ => {},
        }
    }
}

// ---------------------------------------------------------------------------
// Descriptions
// ---------------------------------------------------------------------------

/// The names of an enum and of one of its variants.
pub open spec fn variant_names(module: Module, id: u32, variant: u32) -> (Seq<char>, Seq<char>) {
    match enum_of(module, EnumId(id)) {
        Some(e) => (
            e.name@,
            if variant < e.variants@.len() {
                e.variants@[variant as int].name@
            } else {
                "#"@ + dec(variant as nat)
            },
        ),
        None => ("enum#"@ + dec(id as nat), "#"@ + dec(variant as nat)),
    }
}

/// `true` or `false`.
pub open spec fn bool_text(b: bool) -> Seq<char> {
    if b {
        "true"@
    } else {
        "false"@
    }
}

/// Human-readable description of a value, used in error messages.
pub open spec fn described(module: Module, h: HeapModel, w: Answers, v: Value) -> Result<
    Seq<char>,
    Question,
> {
    match v {
        Value::Int(i) => Ok(dec_int(i as int)),
        Value::Float(f) => float_text(w, f),
        Value::Bool(b) => Ok(bool_text(b)),
        Value::Char(c) => Ok("'"@ + seq![c] + "'"@),
        Value::Null => Ok("null"@),
        Value::Unit => Ok("unit"@),
        Value::String(r) => match string_at(h, r.0) {
            Some(s) => Ok(s),
            None => Ok("<string>"@),
        },
        Value::Enum(r) => match object_at(h.objects, r.0) {
            Some(ObjectModel::Enum(e, k, f)) => {
                let names = variant_names(module, e, k);
                if f.len() == 0 {
                    Ok(names.0 + "."@ + names.1)
                } else {
                    Ok(names.0 + "."@ + names.1 + "(...)"@)
                }
            },
            _ => Ok("enum"@),
        },
        Value::Object(r) => match object_at(h.objects, r.0) {
            Some(ObjectModel::Instance(c, _)) => match class_of(module, c) {
                Some(class) => Ok(class.name@),
                None => Ok("instance"@),
            },
            _ => Ok("instance"@),
        },
        Value::Tuple(_) => Ok("tuple"@),
    }
}

/// A value as it is printed and concatenated.
pub open spec fn shown(module: Module, h: HeapModel, w: Answers, v: Value) -> Result<
    Seq<char>,
    Question,
> {
    match v {
        Value::String(r) => match string_at(h, r.0) {
            Some(s) => Ok(s),
            None => Ok(""@),
        },
        Value::Char(c) => Ok(seq![c]),
        Value::Unit => Ok("()"@),
        _ => described(module, h, w, v),
    }
}

fn bool_name(b: bool) -> (r: &'static str)
    ensures
        r@ == bool_text(b),
{
    if b {
        "true"
    } else {
        "false"
    }
}

fn names_of_variant(module: &Module, id: u32, variant: u32) -> (r: (String, String))
    ensures
        ((r.0)@, (r.1)@) == variant_names(*module, id, variant),
{
    let number: String = dec_u64(variant as u64);
    match module.enum_def(EnumId(id)) {
        Some(e) => {
            let i: usize = variant as usize;
            let name: String = if i < e.variants.len() {
                e.variants[i].name.clone()
            } else {
                cat2("#", number.as_str())
            };
            (e.name.clone(), name)
        },
        None => {
            let n: String = dec_u64(id as u64);
            (cat2("enum#", n.as_str()), cat2("#", number.as_str()))
        },
    }
}

/// Human-readable description of a value, used in error messages.
pub fn describe_value(module: &Module, heap: &Heap, world: &World, v: Value) -> (r: Result<
    String,
    Ask,
>)
    requires
        heap_ok(heap@),
    ensures
        text_or_ask(r) == described(*module, heap@, world@, v),
{
    match v {
        Value::Int(i) => Ok(dec_i64(i)),
        Value::Float(f) => world.text_of(f),
        Value::Bool(b) => Ok(own(bool_name(b))),
        Value::Char(c) => {
            let s: String = char_text(c);
            Ok(cat3("'", s.as_str(), "'"))
        },
        Value::Null => Ok(own("null")),
        Value::Unit => Ok(own("unit")),
        Value::String(r) => match heap.get_string(r) {
            Some(s) => Ok(own(s)),
            None => Ok(own("<string>")),
        },
        Value::Enum(r) => match heap.get_enum(r) {
            Ok(e) => {
                let (name, variant) = names_of_variant(module, e.enum_id, e.variant_idx);
                if e.fields.len() == 0 {
                    Ok(cat3(name.as_str(), ".", variant.as_str()))
                } else {
                    Ok(cat4(name.as_str(), ".", variant.as_str(), "(...)"))
                }
            },
            Err(_) => Ok(own("enum")),
        },
        Value::Object(r) => {
            if let Ok(o) = heap.get(r) {
                if let AuraObject::Instance { class_id, fields: _ } = o {
                    if let Some(c) = module.class(*class_id) {
                        return Ok(c.name.clone());
                    }
                }
            }
            Ok(own("instance"))
        },
        Value::Tuple(_) => Ok(own("tuple")),
    }
}

/// A value as it is printed and concatenated.
pub fn show_value(module: &Module, heap: &Heap, world: &World, v: Value) -> (r: Result<String, Ask>)
    requires
        heap_ok(heap@),
    ensures
        text_or_ask(r) == shown(*module, heap@, world@, v),
{
    match v {
        Value::String(r) => match heap.get_string(r) {
            Some(s) => Ok(own(s)),
            None => Ok(own("")),
        },
        Value::Char(c) => Ok(char_text(c)),
        Value::Unit => Ok(own("()")),
        _ => describe_value(module, heap, world, v),
    }
}

// ---------------------------------------------------------------------------
// Stack traces
// ---------------------------------------------------------------------------

/// `ClassName.Method` label for a method, from the class in position `i` on.
pub open spec fn label_from(cs: Seq<(ClassId, ClassDef)>, id: MethodId, i: int) -> Seq<char>
    decreases cs.len() - i,
{
    if i < 0 || i >= cs.len() {
        "MethodId("@ + dec(id.0 as nat) + ")"@
    } else {
        match method_entry(cs[i].1.methods@, id, 0) {
            Some(m) => cs[i].1.name@ + "."@ + m.name@,
            None => match method_entry(cs[i].1.static_methods@, id, 0) {
                Some(m) => cs[i].1.name@ + "."@ + m.name@,
                None => label_from(cs, id, i + 1),
            },
        }
    }
}

/// `ClassName.Method` label for a method.
pub open spec fn label_of(module: Module, id: MethodId) -> Seq<char> {
    label_from(module.classes@, id, 0)
}

/// The lines of a stack trace: the first `n` methods, the innermost last.
pub open spec fn trace_lines(module: Module, calls: Seq<MethodId>, n: int) -> Seq<char>
    decreases n,
{
    if n <= 0 {
        seq![]
    } else if n == 1 {
        "  at "@ + label_of(module, calls[0])
    } else {
        trace_lines(module, calls, n - 1) + "\n"@ + "  at "@ + label_of(module, calls[n - 1])
    }
}

/// Multi-line stack trace of the calls, innermost frame last.
pub open spec fn stack_trace(module: Module, calls: Seq<MethodId>) -> Seq<char> {
    if calls.len() == 0 {
        "  at <entrypoint>"@
    } else {
        trace_lines(module, calls, calls.len() as int)
    }
}

fn find_entry<'a>(ms: &'a Vec<(MethodId, MethodDef)>, id: MethodId) -> (r: Option<&'a MethodDef>)
    ensures
        match r {
            Some(m) => method_entry(ms@, id, 0) == Some(*m),
            None => method_entry(ms@, id, 0) is None,
        },
{
    let mut i: usize = 0;
    while i < ms.len()
        invariant
            i <= ms@.len(),
            method_entry(ms@, id, 0) == method_entry(ms@, id, i as int),
        decreases ms.len() - i,
    {
        if ms[i].0 == id {
            return Some(&ms[i].1);
        }
        i = i + 1;
    }
    None
}

/// `ClassName.Method` label for a method id.
pub fn frame_label(module: &Module, id: MethodId) -> (r: String)
    ensures
        r@ == label_of(*module, id),
{
    let mut i: usize = 0;
    while i < module.classes.len()
        invariant
            i <= module.classes@.len(),
            label_of(*module, id) == label_from(module.classes@, id, i as int),
        decreases module.classes.len() - i,
    {
        let c: &ClassDef = &module.classes[i].1;
        if let Some(m) = find_entry(&c.methods, id) {
            return cat3(c.name.as_str(), ".", m.name.as_str());
        }
        if let Some(m) = find_entry(&c.static_methods, id) {
            return cat3(c.name.as_str(), ".", m.name.as_str());
        }
        i = i + 1;
    }
    let n: String = dec_u64(id.0 as u64);
    cat3("MethodId(", n.as_str(), ")")
}

/// Multi-line stack trace of the calls, innermost frame last.
pub fn capture_stack_trace(module: &Module, calls: &Vec<MethodId>) -> (r: String)
    ensures
        r@ == stack_trace(*module, calls@),
{
    if calls.len() == 0 {
        return own("  at <entrypoint>");
    }
    let first: String = frame_label(module, calls[0]);
    let mut out: String = cat2("  at ", first.as_str());
    let mut i: usize = 1;
    while i < calls.len()
        invariant
            1 <= i <= calls@.len(),
            out@ == trace_lines(*module, calls@, i as int),
        decreases calls.len() - i,
    {
        let label: String = frame_label(module, calls[i]);
        out = cat4(out.as_str(), "\n", "  at ", label.as_str());
        i = i + 1;
    }
    out
}

// ---------------------------------------------------------------------------
// Exceptions
// ---------------------------------------------------------------------------

/// The class called `Exception`, from position `i` on.
pub open spec fn exception_from(cs: Seq<(ClassId, ClassDef)>, i: int) -> Option<ClassId>
    decreases cs.len() - i,
{
    if i < 0 || i >= cs.len() {
        None
    } else if cs[i].1.name@ == "Exception"@ {
        Some(cs[i].0)
    } else {
        exception_from(cs, i + 1)
    }
}

/// The class and the fields of an instance of the standard `Exception` class.
pub open spec fn exception_parts(module: Module, h: HeapModel, v: Value) -> Option<
    (ClassId, ClassDef, Seq<Value>),
> {
    match v {
        Value::Object(r) => match object_at(h.objects, r.0) {
            Some(ObjectModel::Instance(c, f)) => match exception_from(module.classes@, 0) {
                Some(e) => if instance_of(module, c, e) {
                    match class_of(module, c) {
                        Some(class) => Some((c, class, f)),
                        None => None,
                    }
                } else {
                    None
                },
                None => None,
            },
            _ => None,
        },
        _ => None,
    }
}

/// The position of the field called `name` from `i` on, or the length.
pub open spec fn field_place(fs: Seq<FieldDef>, name: Seq<char>, i: int) -> int
    decreases fs.len() - i,
{
    if i < 0 || i >= fs.len() {
        fs.len() as int
    } else if fs[i].name@ == name {
        i
    } else {
        field_place(fs, name, i + 1)
    }
}

/// A value as text, strings read out of the heap.
pub open spec fn as_text(module: Module, h: HeapModel, w: Answers, v: Value) -> Result<
    Seq<char>,
    Question,
> {
    match v {
        Value::String(r) => match string_at(h, r.0) {
            Some(s) => Ok(s),
            None => Ok(""@),
        },
        _ => described(module, h, w, v),
    }
}

/// A field of an instance as text; a field that is not there is empty.
pub open spec fn field_text(
    module: Module,
    h: HeapModel,
    w: Answers,
    class: ClassDef,
    fields: Seq<Value>,
    name: Seq<char>,
) -> Result<Seq<char>, Question> {
    let p = field_place(class.fields@, name, 0);
    if p < class.fields@.len() && p < fields.len() {
        as_text(module, h, w, fields[p])
    } else {
        Ok(seq![])
    }
}

/// A thrown value for the uncaught-exception error message. Exception
/// instances render as `Class: message` followed by their stack trace.
pub open spec fn exception_text(module: Module, h: HeapModel, w: Answers, v: Value) -> Result<
    Seq<char>,
    Question,
> {
    match exception_parts(module, h, v) {
        None => described(module, h, w, v),
        Some((_, class, fields)) => match field_text(module, h, w, class, fields, "message"@) {
            Err(q) => Err(q),
            Ok(message) => match field_text(module, h, w, class, fields, "stackTrace"@) {
                Err(q) => Err(q),
                Ok(trace) => Ok(
                    class.name@ + (if message.len() == 0 {
                        seq![]
                    } else {
                        ": "@ + message
                    }) + (if trace.len() == 0 {
                        seq![]
                    } else {
                        "\n"@ + trace
                    }),
                ),
            },
        },
    }
}

/// The id of the standard `Exception` class, if present in the module.
pub fn exception_class_id(module: &Module) -> (r: Option<ClassId>)
    ensures
        r == exception_from(module.classes@, 0),
{
    let mut i: usize = 0;
    while i < module.classes.len()
        invariant
            i <= module.classes@.len(),
            exception_from(module.classes@, 0) == exception_from(module.classes@, i as int),
        decreases module.classes.len() - i,
    {
        if same(module.classes[i].1.name.as_str(), "Exception") {
            return Some(module.classes[i].0);
        }
        i = i + 1;
    }
    None
}

/// The position of the field called `name`, or the length.
pub fn find_field(fs: &Vec<FieldDef>, name: &str) -> (r: usize)
    ensures
        r == field_place(fs@, name@, 0),
        r <= fs@.len(),
{
    let mut i: usize = 0;
    while i < fs.len()
        invariant
            i <= fs@.len(),
            field_place(fs@, name@, 0) == field_place(fs@, name@, i as int),
        decreases fs.len() - i,
    {
        if same(fs[i].name.as_str(), name) {
            return i;
        }
        i = i + 1;
    }
    i
}

/// The class and the fields of an instance of the standard `Exception` class.
pub fn find_exception<'a>(module: &'a Module, heap: &'a Heap, v: Value) -> (r: Option<
    (ClassId, &'a ClassDef, &'a Vec<Value>),
>)
    requires
        heap_ok(heap@),
    ensures
        match r {
            Some((c, class, f)) => exception_parts(*module, heap@, v) == Some((c, *class, f@)),
            None => exception_parts(*module, heap@, v) is None,
        },
{
    if let Value::Object(h) = v {
        if let Ok(o) = heap.get(h) {
            if let AuraObject::Instance { class_id, fields } = o {
                if let Some(e) = exception_class_id(module) {
                    if is_instance_of(module, *class_id, e) {
                        if let Some(class) = module.class(*class_id) {
                            return Some((*class_id, class, fields));
                        }
                    }
                }
            }
        }
    }
    None
}

/// Render a value as text, reading strings out of the heap.
pub fn value_as_string(module: &Module, heap: &Heap, world: &World, v: Value) -> (r: Result<
    String,
    Ask,
>)
    requires
        heap_ok(heap@),
    ensures
        text_or_ask(r) == as_text(*module, heap@, world@, v),
{
    match v {
        Value::String(h) => match heap.get_string(h) {
            Some(s) => Ok(own(s)),
            None => Ok(own("")),
        },
        _ => describe_value(module, heap, world, v),
    }
}

fn text_of_field(
    module: &Module,
    heap: &Heap,
    world: &World,
    class: &ClassDef,
    fields: &Vec<Value>,
    name: &str,
) -> (r: Result<String, Ask>)
    requires
        heap_ok(heap@),
    ensures
        text_or_ask(r) == field_text(*module, heap@, world@, *class, fields@, name@),
{
    let p: usize = find_field(&class.fields, name);
    if p < class.fields.len() && p < fields.len() {
        value_as_string(module, heap, world, fields[p])
    } else {
        let none: String = String::new();
        assert(none@ =~= seq![]);
        Ok(none)
    }
}

/// Format a thrown value for the uncaught-exception error message. Exception
/// instances render as `Class: message` followed by their stack trace.
pub fn describe_exception(module: &Module, heap: &Heap, world: &World, e: Value) -> (r: Result<
    String,
    Ask,
>)
    requires
        heap_ok(heap@),
    ensures
        text_or_ask(r) == exception_text(*module, heap@, world@, e),
{
    let (_, class, fields) = match find_exception(module, heap, e) {
        Some(x) => x,
        None => return describe_value(module, heap, world, e),
    };
    let message: String = match text_of_field(module, heap, world, class, fields, "message") {
        Ok(s) => s,
        Err(a) => return Err(a),
    };
    let trace: String = match text_of_field(module, heap, world, class, fields, "stackTrace") {
        Ok(s) => s,
        Err(a) => return Err(a),
    };
    let head: String = if message.as_str().unicode_len() == 0 {
        assert(class.name@ + Seq::<char>::empty() =~= class.name@);
        class.name.clone()
    } else {
        assert(class.name@ + ": "@ + message@ =~= class.name@ + (": "@ + message@));
        cat3(class.name.as_str(), ": ", message.as_str())
    };
    if trace.as_str().unicode_len() == 0 {
        assert(head@ + Seq::<char>::empty() =~= head@);
        Ok(head)
    } else {
        assert(head@ + "\n"@ + trace@ =~= head@ + ("\n"@ + trace@));
        Ok(cat3(head.as_str(), "\n", trace.as_str()))
    }
}

} // verus!
