//! Runtime values and the objects that live on the heap.

use crate::arith::float_is_zero;
use crate::bytecode::{ClassId, MethodId};
use vstd::prelude::*;

verus! {

/// A handle of an object on the heap.
#[derive(Debug, Clone, Copy, PartialEq, Eq, Structural)]
pub struct GcRef(pub usize);

/// A runtime value.
#[derive(Debug, Clone, Copy, PartialEq, Eq, Structural)]
pub enum Value {
    /// No value.
    Unit,
    /// Integer.
    Int(i64),
    /// Float, by its bits.
    Float(u64),
    /// Boolean.
    Bool(bool),
    /// Character.
    Char(char),
    /// String on the heap.
    String(GcRef),
    /// Object on the heap.
    Object(GcRef),
    /// Enum value on the heap.
    Enum(GcRef),
    /// Tuple on the heap.
    Tuple(GcRef),
    /// `null`.
    Null,
}

/// The name of the type of a value.
pub open spec fn type_text(v: Value) -> Seq<char> {
    match v {
        Value::Unit => "unit"@,
        Value::Int(_) => "int"@,
        Value::Float(_) => "float"@,
        Value::Bool(_) => "bool"@,
        Value::Char(_) => "char"@,
        Value::String(_) => "string"@,
        Value::Object(_) => "object"@,
        Value::Enum(_) => "enum"@,
        Value::Tuple(_) => "tuple"@,
        Value::Null => "null"@,
    }
}

/// `false`, zero, `null` and no value are false; everything else is true.
pub open spec fn truthy(v: Value) -> bool {
    match v {
        Value::Bool(b) => b,
        Value::Int(i) => i != 0,
        Value::Float(f) => crate::arith::rank(f) != 0,
        Value::Unit => false,
        Value::Null => false,
        _ => true,
    }
}

/// The handle in a value.
pub open spec fn handle_in(v: Value) -> Option<usize> {
    match v {
        Value::String(r) => Some(r.0),
        Value::Object(r) => Some(r.0),
        Value::Enum(r) => Some(r.0),
        Value::Tuple(r) => Some(r.0),
        _ => None,
    }
}

impl Value {
    /// The name of the type.
    pub fn kind_name(&self) -> (r: &'static str)
        ensures
            r@ == type_text(*self),
    {
        match self {
            Value::Unit => "unit",
            Value::Int(_) => "int",
            Value::Float(_) => "float",
            Value::Bool(_) => "bool",
            Value::Char(_) => "char",
            Value::String(_) => "string",
            Value::Object(_) => "object",
            Value::Enum(_) => "enum",
            Value::Tuple(_) => "tuple",
            Value::Null => "null",
        }
    }

    /// Whether the value counts as true.
    pub fn is_truthy(&self) -> (r: bool)
        ensures
            r == truthy(*self),
    {
        match self {
            Value::Bool(b) => *b,
            Value::Int(i) => *i != 0,
            Value::Float(f) => !float_is_zero(*f),
            Value::Unit => false,
            Value::Null => false,
            _ => true,
        }
    }

    /// The handle in the value.
    pub fn reference(&self) -> (r: Option<usize>)
        ensures
            r == handle_in(*self),
    {
        match self {
            Value::String(r) => Some(r.0),
            Value::Object(r) => Some(r.0),
            Value::Enum(r) => Some(r.0),
            Value::Tuple(r) => Some(r.0),
            _ => None,
        }
    }
}

/// An enum value.
#[derive(Debug)]
pub struct EnumValue {
    /// The enum.
    pub enum_id: u32,
    /// Number of the variant.
    pub variant_idx: u32,
    /// Fields.
    pub fields: Vec<Value>,
}

/// A tuple.
#[derive(Debug)]
pub struct TupleValue {
    /// Elements.
    pub elements: Vec<Value>,
}

/// An object on the heap.
#[derive(Debug)]
pub enum AuraObject {
    /// String.
    String(String),
    /// Instance of a class.
    Instance {
        /// The class.
        class_id: ClassId,
        /// Fields.
        fields: Vec<Value>,
    },
    /// List.
    Array {
        /// Elements.
        elements: Vec<Value>,
    },
    /// Map, as a list of entries.
    Dict {
        /// Entries in the order in which their keys came first.
        entries: Vec<(Value, Value)>,
    },
    /// Set, as a list of its elements.
    ItemSet {
        /// Elements in the order in which they came.
        elements: Vec<Value>,
    },
    /// Enum value.
    Enum(EnumValue),
    /// Tuple.
    Tuple(TupleValue),
    /// Function with the values that it captured.
    Closure {
        /// The function.
        method: MethodId,
        /// Captured values.
        captured: Vec<Value>,
    },
    /// Task with its result, once it has one.
    Task {
        /// The result.
        result: Option<Value>,
    },
}

/// An object by value.
#[verifier::ext_equal]
pub ghost enum ObjectModel {
    /// String.
    String(Seq<char>),
    /// Instance of a class.
    Instance(ClassId, Seq<Value>),
    /// List.
    Array(Seq<Value>),
    /// Map.
    Dict(Seq<(Value, Value)>),
    /// Set.
    ItemSet(Seq<Value>),
    /// Enum value.
    Enum(u32, u32, Seq<Value>),
    /// Tuple.
    Tuple(Seq<Value>),
    /// Function with captured values.
    Closure(MethodId, Seq<Value>),
    /// Task.
    Task(Option<Value>),
}

impl View for AuraObject {
    type V = ObjectModel;

    open spec fn view(&self) -> ObjectModel {
        match self {
            AuraObject::String(s) => ObjectModel::String(s@),
            AuraObject::Instance { class_id, fields } => ObjectModel::Instance(*class_id, fields@),
            AuraObject::Array { elements } => ObjectModel::Array(elements@),
            AuraObject::Dict { entries } => ObjectModel::Dict(entries@),
            AuraObject::ItemSet { elements } => ObjectModel::ItemSet(elements@),
            AuraObject::Enum(e) => ObjectModel::Enum(e.enum_id, e.variant_idx, e.fields@),
            AuraObject::Tuple(t) => ObjectModel::Tuple(t.elements@),
            AuraObject::Closure { method, captured } => ObjectModel::Closure(*method, captured@),
            AuraObject::Task { result } => ObjectModel::Task(*result),
        }
    }
}

/// Some value of a list holds the handle.
pub open spec fn some_holds(vs: Seq<Value>, h: usize) -> bool {
    exists|i: int| 0 <= i < vs.len() && handle_in(#[trigger] vs[i]) == Some(h)
}

/// Some entry of a map holds the handle.
pub open spec fn some_entry_holds(es: Seq<(Value, Value)>, h: usize) -> bool {
    exists|i: int|
        0 <= i < es.len() && (handle_in((#[trigger] es[i]).0) == Some(h) || handle_in(es[i].1)
            == Some(h))
}

/// An object refers to another.
pub open spec fn points_to(o: ObjectModel, h: usize) -> bool {
    match o {
        ObjectModel::String(_) => false,
        ObjectModel::Instance(_, vs) => some_holds(vs, h),
        ObjectModel::Array(vs) => some_holds(vs, h),
        ObjectModel::Dict(es) => some_entry_holds(es, h),
        ObjectModel::ItemSet(vs) => some_holds(vs, h),
        ObjectModel::Enum(_, _, vs) => some_holds(vs, h),
        ObjectModel::Tuple(vs) => some_holds(vs, h),
        ObjectModel::Closure(_, vs) => some_holds(vs, h),
        ObjectModel::Task(r) => r matches Some(v) && handle_in(v) == Some(h),
    }
}

/// Append the handles in a list of values.
pub fn push_handles(out: &mut Vec<usize>, vs: &Vec<Value>)
    ensures
        forall|h: usize|
            #![trigger final(out)@.contains(h)]
            final(out)@.contains(h) <==> old(out)@.contains(h) || some_holds(vs@, h),
{
    let ghost before = out@;
    let mut i: usize = 0;
    while i < vs.len()
        invariant
            i <= vs@.len(),
            before == old(out)@,
            forall|h: usize|
                #![trigger out@.contains(h)]
                out@.contains(h) <==> before.contains(h) || some_holds(
                    vs@.subrange(0, i as int),
                    h,
                ),
        decreases vs.len() - i,
    {
        let ghost mid = out@;
        let ghost seen = vs@.subrange(0, i as int);
        let ghost next = vs@.subrange(0, i + 1);
        assert(next =~= seen.push(vs@[i as int]));
        let v: Value = vs[i];
        if let Some(r) = v.reference() {
            out.push(r);
            proof {
                pushed_contains(mid, r);
            }
        }
        proof {
            assert forall|h: usize| #![trigger out@.contains(h)] out@.contains(h)
                <==> before.contains(h) || some_holds(next, h) by {
                grown_holds(seen, vs@[i as int], h);
                assert(mid.contains(h) <==> before.contains(h) || some_holds(seen, h));
            }
        }
        i = i + 1;
    }
    assert(vs@.subrange(0, i as int) =~= vs@);
}

/// What a list with one more element contains.
pub proof fn pushed_contains<A>(s: Seq<A>, x: A)
    ensures
        forall|y: A| #![trigger s.push(x).contains(y)] s.push(x).contains(y) <==> s.contains(y) || y == x,
{
    assert forall|y: A| #![trigger s.push(x).contains(y)] s.push(x).contains(y) <==> s.contains(y)
        || y == x by {
        if s.contains(y) {
            let k = choose|k: int| 0 <= k < s.len() && s[k] == y;
            assert(s.push(x)[k] == y);
        }
        if y == x {
            assert(s.push(x)[s.len() as int] == y);
        }
        if s.push(x).contains(y) {
            let k = choose|k: int| 0 <= k < s.push(x).len() && s.push(x)[k] == y;
            if k < s.len() {
                assert(s[k] == y);
            }
        }
    }
}

proof fn grown_holds(vs: Seq<Value>, v: Value, h: usize)
    ensures
        some_holds(vs.push(v), h) <==> some_holds(vs, h) || handle_in(v) == Some(h),
{
    let w = vs.push(v);
    if some_holds(vs, h) {
        let k = choose|k: int| 0 <= k < vs.len() && handle_in(#[trigger] vs[k]) == Some(h);
        assert(handle_in(w[k]) == Some(h));
    }
    if handle_in(v) == Some(h) {
        assert(handle_in(w[vs.len() as int]) == Some(h));
    }
    if some_holds(w, h) {
        let k = choose|k: int| 0 <= k < w.len() && handle_in(#[trigger] w[k]) == Some(h);
        if k < vs.len() {
            assert(handle_in(vs[k]) == Some(h));
        }
    }
}

fn push_entry_handles(out: &mut Vec<usize>, es: &Vec<(Value, Value)>)
    ensures
        forall|h: usize|
            #![trigger final(out)@.contains(h)]
            final(out)@.contains(h) <==> old(out)@.contains(h) || some_entry_holds(es@, h),
{
    let ghost before = out@;
    let mut i: usize = 0;
    while i < es.len()
        invariant
            i <= es@.len(),
            before == old(out)@,
            forall|h: usize|
                #![trigger out@.contains(h)]
                out@.contains(h) <==> before.contains(h) || some_entry_holds(
                    es@.subrange(0, i as int),
                    h,
                ),
        decreases es.len() - i,
    {
        let ghost mid = out@;
        let ghost seen = es@.subrange(0, i as int);
        let ghost next = es@.subrange(0, i + 1);
        assert(next =~= seen.push(es@[i as int]));
        let k: Value = es[i].0;
        let v: Value = es[i].1;
        if let Some(r) = k.reference() {
            out.push(r);
            proof {
                pushed_contains(mid, r);
            }
        }
        let ghost half = out@;
        if let Some(r) = v.reference() {
            out.push(r);
            proof {
                pushed_contains(half, r);
            }
        }
        proof {
            assert forall|h: usize| #![trigger out@.contains(h)] out@.contains(h)
                <==> before.contains(h) || some_entry_holds(next, h) by {
                grown_entry_holds(seen, es@[i as int], h);
                assert(mid.contains(h) <==> before.contains(h) || some_entry_holds(seen, h));
                assert(half.contains(h) <==> mid.contains(h) || handle_in(k) == Some(h));
            }
        }
        i = i + 1;
    }
    assert(es@.subrange(0, i as int) =~= es@);
}

proof fn grown_entry_holds(es: Seq<(Value, Value)>, e: (Value, Value), h: usize)
    ensures
        some_entry_holds(es.push(e), h) <==> some_entry_holds(es, h) || handle_in(e.0) == Some(h)
            || handle_in(e.1) == Some(h),
{
    let w = es.push(e);
    if some_entry_holds(es, h) {
        let k = choose|k: int|
            0 <= k < es.len() && (handle_in((#[trigger] es[k]).0) == Some(h) || handle_in(es[k].1)
                == Some(h));
        assert(w[k] == es[k]);
    }
    assert(w[es.len() as int] == e);
    if some_entry_holds(w, h) {
        let k = choose|k: int|
            0 <= k < w.len() && (handle_in((#[trigger] w[k]).0) == Some(h) || handle_in(w[k].1)
                == Some(h));
        if k < es.len() {
            assert(w[k] == es[k]);
        }
    }
}

impl AuraObject {
    /// Append the handles that the object refers to.
    pub fn references(&self, out: &mut Vec<usize>)
        ensures
            forall|h: usize|
                #![trigger final(out)@.contains(h)]
                final(out)@.contains(h) <==> old(out)@.contains(h) || points_to(self@, h),
    {
        match self {
            AuraObject::String(_) => {},
            AuraObject::Instance { class_id: _, fields } => push_handles(out, fields),
            AuraObject::Array { elements } => push_handles(out, elements),
            AuraObject::Dict { entries } => push_entry_handles(out, entries),
            AuraObject::ItemSet { elements } => push_handles(out, elements),
            AuraObject::Enum(e) => push_handles(out, &e.fields),
            AuraObject::Tuple(t) => push_handles(out, &t.elements),
            AuraObject::Closure { method: _, captured } => push_handles(out, captured),
            AuraObject::Task { result } => {
                if let Some(v) = result {
                    if let Some(r) = v.reference() {
                        let ghost before = out@;
                        out.push(r);
                        proof {
                            pushed_contains(before, r);
                        }
                    }
                }
            },
        }
    }
}

} // verus!
