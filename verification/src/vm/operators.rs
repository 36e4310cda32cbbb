//! What the operations promise to programs, in terms of the values that go in and
//! come out.

use crate::arith::{division_law, is_nan, quotient, rank, remainder, wrap};
use crate::bytecode::{method_of, ClassId, EnumId, MethodId, Op, TypeDesc};
use crate::vm::apply::apply_effect;
use crate::vm::heap::{allocation_law, change_law, heap_ok};
use crate::vm::inspect::{equal_values, same_value_symmetric, VALUE_DEPTH};
use crate::vm::ops::{statics_place, StoreModel};
use crate::vm::promises::{only_at, only_new, there, Setting};
use crate::vm::value::{GcRef, ObjectModel, Value};
use crate::vm::world::{Effect, Fault};
use vstd::prelude::*;

verus! {

/// What an operation with its operands comes to.
#[verifier::opaque]
pub open spec fn doing(c: Setting, s: StoreModel, op: Op, args: Seq<Value>) -> (Effect, StoreModel) {
    apply_effect(c.module, c.checks, s, c.calls, c.world, op, args)
}

/// The value is all that an operation gives.
pub open spec fn gives(r: (Effect, StoreModel), s: StoreModel, v: Value) -> bool {
    r == (Effect::Value(v), s)
}

/// The failure is all that an operation gives.
pub open spec fn fails(r: (Effect, StoreModel), s: StoreModel, f: Fault) -> bool {
    r == (Effect::Failed(f), s)
}

/// A 64-bit integer.
pub open spec fn held(n: int) -> bool {
    -0x8000_0000_0000_0000 <= n < 0x8000_0000_0000_0000
}

/// An exact result comes out where it is held. Where it is not, checked arithmetic
/// fails, and unchecked arithmetic gives the integer that differs from it by a
/// multiple of the number of all integers.
pub open spec fn comes_to(c: Setting, s: StoreModel, r: (Effect, StoreModel), n: int) -> bool {
    if held(n) {
        gives(r, s, Value::Int(n as i64))
    } else if c.checks {
        fails(r, s, Fault::Overflow)
    } else {
        &&& r.1 == s
        &&& r.0 matches Effect::Value(Value::Int(i)) && exists|k: int|
            n == i + #[trigger] (k * 0x1_0000_0000_0000_0000)
    }
}

proof fn wrapped(n: int)
    ensures
        exists|k: int| n == wrap(n) + #[trigger] (k * 0x1_0000_0000_0000_0000),
{
    let m = 0x1_0000_0000_0000_0000int;
    let q = n / m;
    assert(n == q * m + n % m) by (nonlinear_arith)
        requires
            m == 0x1_0000_0000_0000_0000int,
            q == n / m,
    ;
    if n % m > i64::MAX {
        assert(n == wrap(n) + (q + 1) * 0x1_0000_0000_0000_0000);
    } else {
        assert(n == wrap(n) + q * 0x1_0000_0000_0000_0000);
    }
}

/// Addition, subtraction, multiplication and negation of integers.
pub proof fn sum_law(c: Setting, s: StoreModel, x: i64, y: i64)
    ensures
        comes_to(c, s, doing(c, s, Op::Add, seq![Value::Int(x), Value::Int(y)]), x + y),
        comes_to(c, s, doing(c, s, Op::Sub, seq![Value::Int(x), Value::Int(y)]), x - y),
        comes_to(c, s, doing(c, s, Op::Mul, seq![Value::Int(x), Value::Int(y)]), x * y),
        comes_to(c, s, doing(c, s, Op::Neg, seq![Value::Int(x)]), -x),
{
    reveal(doing);
    wrapped(x + y);
    wrapped(x - y);
    wrapped(x * y);
    wrapped(-x);
}

/// Division rounds toward zero, the remainder has the sign of the dividend, and
/// the two belong together; dividing by zero fails.
pub proof fn quotient_law(c: Setting, s: StoreModel, x: i64, y: i64) -> (qr: (int, int))
    ensures
        ({
            let args = seq![Value::Int(x), Value::Int(y)];
            let d = if y < 0 {
                -y
            } else {
                y as int
            };
            let least = x == -0x8000_0000_0000_0000 && y == -1;
            &&& y == 0 ==> fails(doing(c, s, Op::Div, args), s, Fault::DivideByZero)
            &&& y == 0 ==> fails(doing(c, s, Op::Rem, args), s, Fault::DivideByZero)
            &&& y != 0 ==> comes_to(c, s, doing(c, s, Op::Div, args), qr.0)
            &&& y != 0 && !(c.checks && least) ==> gives(
                doing(c, s, Op::Rem, args),
                s,
                Value::Int(qr.1 as i64),
            )
            &&& c.checks && least ==> fails(doing(c, s, Op::Rem, args), s, Fault::Overflow)
            &&& y != 0 ==> x == qr.0 * y + qr.1 && -d < qr.1 < d
            &&& y != 0 && x >= 0 ==> 0 <= qr.1
            &&& y != 0 && x <= 0 ==> qr.1 <= 0
        }),
{
    reveal(doing);
    let q = quotient(x as int, y as int);
    let r = remainder(x as int, y as int);
    if y != 0 {
        division_law(x as int, y as int);
        wrapped(q);
        let d = if y < 0 {
            -y
        } else {
            y as int
        };
        let e = if x < 0 {
            -x
        } else {
            x as int
        };
        assert(0 <= e % d < d) by (nonlinear_arith)
            requires
                d > 0,
        ;
    }
    (q, r)
}

/// The order of integers.
pub proof fn order_law(c: Setting, s: StoreModel, x: i64, y: i64)
    ensures
        gives(doing(c, s, Op::Lt, seq![Value::Int(x), Value::Int(y)]), s, Value::Bool(x < y)),
        gives(doing(c, s, Op::Le, seq![Value::Int(x), Value::Int(y)]), s, Value::Bool(x <= y)),
        gives(doing(c, s, Op::Gt, seq![Value::Int(x), Value::Int(y)]), s, Value::Bool(x > y)),
        gives(doing(c, s, Op::Ge, seq![Value::Int(x), Value::Int(y)]), s, Value::Bool(x >= y)),
{
    reveal(doing);
}

/// The order of floats: of two numbers exactly one is less or they are equal,
/// turning the operands turns the comparison, and what is no number is neither
/// less, nor equal, nor more.
pub proof fn float_order_law(c: Setting, s: StoreModel, x: u64, y: u64)
    ensures
        ({
            let a = Value::Float(x);
            let b = Value::Float(y);
            let numbers = !is_nan(x) && !is_nan(y);
            &&& gives(doing(c, s, Op::Lt, seq![a, b]), s, Value::Bool(numbers && rank(x) < rank(y)))
            &&& doing(c, s, Op::Gt, seq![a, b]) == doing(c, s, Op::Lt, seq![b, a])
            &&& doing(c, s, Op::Le, seq![a, b]) == doing(c, s, Op::Ge, seq![b, a])
            &&& gives(
                doing(c, s, Op::Le, seq![a, b]),
                s,
                Value::Bool(numbers && !(rank(y) < rank(x))),
            )
            &&& gives(
                doing(c, s, Op::Eq, seq![a, b]),
                s,
                Value::Bool(numbers && !(rank(y) < rank(x)) && !(rank(x) < rank(y))),
            )
        }),
{
    reveal(doing);
}

/// The logic of truth values: `false`, zero, `null` and no value count as false.
pub proof fn logic_law(c: Setting, s: StoreModel, a: Value, b: Value)
    ensures
        ({
            let p = !(a == Value::Bool(false) || a == Value::Int(0) || a is Null || a is Unit || (
            a is Float && (a->Float_0 == 0 || a->Float_0 == 0x8000_0000_0000_0000)));
            let q = !(b == Value::Bool(false) || b == Value::Int(0) || b is Null || b is Unit || (
            b is Float && (b->Float_0 == 0 || b->Float_0 == 0x8000_0000_0000_0000)));
            &&& gives(doing(c, s, Op::Not, seq![a]), s, Value::Bool(!p))
            &&& gives(doing(c, s, Op::And, seq![a, b]), s, Value::Bool(p && q))
            &&& gives(doing(c, s, Op::Or, seq![a, b]), s, Value::Bool(p || q))
        }),
{
    reveal(doing);
}

/// Comparing for equality: plain values by what they are, objects by identity,
/// and `null` is equal to nothing but `null`.
pub proof fn equality_law(c: Setting, s: StoreModel, a: Value, b: Value)
    ensures
        a is Int && b is Int || a is Bool && b is Bool || a is Char && b is Char || a is Null
            || b is Null || a is Object && b is Object ==> gives(
            doing(c, s, Op::Eq, seq![a, b]),
            s,
            Value::Bool(a == b),
        ),
        a is Int && (b is Bool || b is Char || b is Object || b is String) ==> doing(
            c,
            s,
            Op::Eq,
            seq![a, b],
        ).0 is Failed,
        doing(c, s, Op::ValueEq, seq![a, b]) == doing(c, s, Op::ValueEq, seq![b, a]),
        a is Enum && b is Enum || a is Tuple && b is Tuple ==> doing(c, s, Op::Eq, seq![a, b])
            == doing(c, s, Op::ValueEq, seq![a, b]),
{
    reveal(doing);
    same_value_symmetric(c.module, s.heap, a, b, VALUE_DEPTH as nat);
}

/// Comparing by value: texts by what they hold, plain values by what they are, and
/// values of two kinds are never equal.
pub proof fn value_equality_law(c: Setting, s: StoreModel, a: Value, b: Value)
    ensures
        a is Int || a is Bool || a is Char || a is Null ==> gives(
            doing(c, s, Op::ValueEq, seq![a, b]),
            s,
            Value::Bool(a == b),
        ),
        a matches Value::String(x) ==> b matches Value::String(y) ==> there(s, x) matches Some(
            ObjectModel::String(p),
        ) ==> there(s, y) matches Some(ObjectModel::String(q)) ==> gives(
            doing(c, s, Op::ValueEq, seq![a, b]),
            s,
            Value::Bool(p == q),
        ),
        a matches Value::Object(x) ==> b matches Value::Object(y) ==> there(s, x) matches Some(
            ObjectModel::Instance(d, _),
        ) ==> (crate::bytecode::class_of(c.module, d) matches Some(def) ==> !def.is_record)
            ==> gives(doing(c, s, Op::ValueEq, seq![a, b]), s, Value::Bool(x == y)),
        a is String && !(b is String) || a is Object && !(b is Object) || a is Enum && !(b is Enum)
            || a is Tuple && !(b is Tuple) || a is Float && !(b is Float) ==> gives(
            doing(c, s, Op::ValueEq, seq![a, b]),
            s,
            Value::Bool(false),
        ),
{
    reveal(doing);
}

/// Tuples are equal where all their parts are. (Parts are compared one level less
/// deep.)
pub proof fn tuple_equality_law(c: Setting, s: StoreModel, x: GcRef, y: GcRef)
    requires
        x != y,
    ensures
        there(s, x) matches Some(ObjectModel::Tuple(f)) ==> there(s, y) matches Some(
            ObjectModel::Tuple(g),
        ) ==> (equal_values(c.module, s.heap, Value::Tuple(x), Value::Tuple(y)) <==> alike(
            c,
            s,
            f,
            g,
        )),
{
}

/// Values of an enum are equal where they are of one variant and all their parts are
/// equal.
pub proof fn variant_equality_law(c: Setting, s: StoreModel, x: GcRef, y: GcRef)
    requires
        x != y,
    ensures
        there(s, x) matches Some(ObjectModel::Enum(e, j, f)) ==> there(s, y) matches Some(
            ObjectModel::Enum(d, k, g),
        ) ==> (equal_values(c.module, s.heap, Value::Enum(x), Value::Enum(y)) <==> e == d && j == k
            && alike(c, s, f, g)),
{
}

/// Two instances are equal where they are of one class, which is a record, and all
/// their fields are equal.
pub proof fn record_equality_law(c: Setting, s: StoreModel, x: GcRef, y: GcRef)
    requires
        x != y,
    ensures
        there(s, x) matches Some(ObjectModel::Instance(d, f)) ==> there(s, y) matches Some(
            ObjectModel::Instance(e, g),
        ) ==> (equal_values(c.module, s.heap, Value::Object(x), Value::Object(y)) <==> d == e && (
        crate::bytecode::class_of(c.module, d) matches Some(def) && def.is_record) && alike(
            c,
            s,
            f,
            g,
        )),
{
}

/// Two lists of values are equal, value by value.
pub open spec fn alike(c: Setting, s: StoreModel, f: Seq<Value>, g: Seq<Value>) -> bool {
    f.len() == g.len() && forall|i: int|
        0 <= i < f.len() ==> crate::vm::inspect::same_value(
            c.module,
            s.heap,
            #[trigger] f[i],
            g[i],
            (VALUE_DEPTH - 1) as nat,
        )
}

/// An instance on the heap.
pub open spec fn is_instance(s: StoreModel, r: GcRef, class: ClassId, fields: Seq<Value>) -> bool {
    heap_ok(s.heap) && there(s, r) == Some(ObjectModel::Instance(class, fields))
}

/// Fields: a field that was written is read back, the other fields and the other
/// objects are as before, and a field that is not there is neither read nor
/// written.
pub proof fn field_law(
    c: Setting,
    s: StoreModel,
    r: GcRef,
    class: ClassId,
    fields: Seq<Value>,
    idx: u16,
    v: Value,
    k: u16,
)
    requires
        is_instance(s, r, class, fields),
    ensures
        idx < fields.len() ==> gives(
            doing(c, s, Op::Ldfld(idx), seq![Value::Object(r)]),
            s,
            fields[idx as int],
        ),
        idx < fields.len() ==> ({
            let (e, after) = doing(c, s, Op::Stfld(idx), seq![Value::Object(r), v]);
            &&& e == Effect::Nothing
            &&& only_at(s, after, r)
            &&& gives(doing(c, after, Op::Ldfld(idx), seq![Value::Object(r)]), after, v)
            &&& k != idx ==> doing(c, after, Op::Ldfld(k), seq![Value::Object(r)]).0 == doing(
                c,
                s,
                Op::Ldfld(k),
                seq![Value::Object(r)],
            ).0
        }),
        idx >= fields.len() ==> doing(c, s, Op::Ldfld(idx), seq![Value::Object(r)]).0 is Failed
            && doing(c, s, Op::Stfld(idx), seq![Value::Object(r), v]).0 is Failed && doing(
            c,
            s,
            Op::Stfld(idx),
            seq![Value::Object(r), v],
        ).1 == s,
        doing(c, s, Op::Ldfld(idx), seq![Value::Null]).0 is Failed,
{
    reveal(doing);
    if idx < fields.len() {
        let o = ObjectModel::Instance(class, fields.update(idx as int, v));
        let after = doing(c, s, Op::Stfld(idx), seq![Value::Object(r), v]).1;
        change_law(s.heap, r.0, o, r.0);
        assert forall|q: GcRef| q != r implies #[trigger] there(after, q) == there(s, q) by {
            change_law(s.heap, r.0, o, q.0);
        }
        assert(there(after, r) == Some(o));
    }
}

proof fn statics_found(ss: Seq<(ClassId, Seq<Value>)>, id: ClassId, i: int)
    requires
        0 <= i <= ss.len(),
    ensures
        i <= statics_place(ss, id, i) <= ss.len(),
        statics_place(ss, id, i) < ss.len() ==> ss[statics_place(ss, id, i)].0 == id,
    decreases ss.len() - i,
{
    if i < ss.len() && ss[i].0 != id {
        statics_found(ss, id, i + 1);
    }
}

proof fn statics_stay(
    ss: Seq<(ClassId, Seq<Value>)>,
    tt: Seq<(ClassId, Seq<Value>)>,
    id: ClassId,
    i: int,
)
    requires
        ss.len() == tt.len(),
        0 <= i <= ss.len(),
        forall|j: int| 0 <= j < ss.len() ==> (#[trigger] ss[j]).0 == tt[j].0,
    ensures
        statics_place(ss, id, i) == statics_place(tt, id, i),
    decreases ss.len() - i,
{
    if i < ss.len() && ss[i].0 != id {
        statics_stay(ss, tt, id, i + 1);
    }
}

/// Static fields: one that was written is read back, every other static field is
/// as before, and so is the heap.
pub proof fn static_law(
    c: Setting,
    s: StoreModel,
    class: ClassId,
    idx: u16,
    v: Value,
    other: ClassId,
    k: u16,
)
    requires
        doing(c, s, Op::Ldsfld(class, idx), seq![]).0 is Value,
    ensures
        ({
            let (e, after) = doing(c, s, Op::Stsfld(class, idx), seq![v]);
            &&& e == Effect::Nothing
            &&& after.heap == s.heap
            &&& gives(doing(c, after, Op::Ldsfld(class, idx), seq![]), after, v)
            &&& (other != class || k != idx) ==> doing(c, after, Op::Ldsfld(other, k), seq![]).0
                == doing(c, s, Op::Ldsfld(other, k), seq![]).0
        }),
        doing(c, s, Op::Ldsfld(class, idx), seq![]).1 == s,
{
    reveal(doing);
    let after = doing(c, s, Op::Stsfld(class, idx), seq![v]).1;
    statics_found(s.statics, class, 0);
    statics_found(s.statics, other, 0);
    statics_stay(s.statics, after.statics, class, 0);
    statics_stay(s.statics, after.statics, other, 0);
}

/// A value of a variant: its parts and the number of the variant are read back.
pub proof fn variant_law(c: Setting, s: StoreModel, id: EnumId, k: u16, parts: Seq<Value>, i: u16)
    requires
        heap_ok(s.heap),
        s.heap.next < usize::MAX,
        i < parts.len(),
    ensures
        ({
            let (e, after) = doing(c, s, Op::NewEnum(id, k), parts);
            let r = GcRef(s.heap.next);
            &&& e == Effect::Value(Value::Enum(r))
            &&& only_new(s, after, r)
            &&& gives(
                doing(c, after, Op::EnumTag, seq![Value::Enum(r)]),
                after,
                Value::Int(k as i64),
            )
            &&& gives(doing(c, after, Op::EnumField(i), seq![Value::Enum(r)]), after, parts[i as int])
        }),
{
    reveal(doing);
    let o = ObjectModel::Enum(id.0, k as u32, parts);
    let after = doing(c, s, Op::NewEnum(id, k), parts).1;
    allocation_law(s.heap, o, 0);
    assert forall|q: GcRef| q != GcRef(s.heap.next) implies #[trigger] there(after, q) == there(s, q) by {
        allocation_law(s.heap, o, q.0);
    }
    assert(there(after, GcRef(s.heap.next)) == Some(o));
}

/// A tuple: its parts are read back.
pub proof fn tuple_law(c: Setting, s: StoreModel, n: u16, parts: Seq<Value>, i: u16)
    requires
        heap_ok(s.heap),
        s.heap.next < usize::MAX,
    ensures
        ({
            let (e, after) = doing(c, s, Op::NewTuple(n), parts);
            let r = GcRef(s.heap.next);
            &&& e == Effect::Value(Value::Tuple(r))
            &&& only_new(s, after, r)
            &&& i < parts.len() ==> gives(
                doing(c, after, Op::TupleField(i), seq![Value::Tuple(r)]),
                after,
                parts[i as int],
            )
            &&& i >= parts.len() ==> doing(c, after, Op::TupleField(i), seq![Value::Tuple(r)]).0 is Failed
        }),
{
    reveal(doing);
    let o = ObjectModel::Tuple(parts);
    let after = doing(c, s, Op::NewTuple(n), parts).1;
    allocation_law(s.heap, o, 0);
    assert forall|q: GcRef| q != GcRef(s.heap.next) implies #[trigger] there(after, q) == there(s, q) by {
        allocation_law(s.heap, o, q.0);
    }
    assert(there(after, GcRef(s.heap.next)) == Some(o));
}

/// A new instance has the class and a value for each field: zero for a number,
/// `false` for a truth value, the first character, and `null` for the rest. There
/// is none of an abstract class or an interface.
pub proof fn instance_law(
    c: Setting,
    s: StoreModel,
    id: ClassId,
    def: crate::bytecode::ClassDef,
    args: Vec<TypeDesc>,
)
    requires
        heap_ok(s.heap),
        s.heap.next < usize::MAX,
        crate::bytecode::class_of(c.module, id) == Some(def),
    ensures
        def.is_abstract || def.is_interface ==> doing(c, s, Op::NewObj(id, args), seq![]).0 is Failed,
        !def.is_abstract && !def.is_interface ==> born(
            s,
            doing(c, s, Op::NewObj(id, args), seq![]),
            id,
            def,
        ),
{
    reveal(doing);
    if !def.is_abstract && !def.is_interface {
        let fields = crate::vm::ops::field_defaults(def.fields@, def.generic_params@, args@);
        let o = ObjectModel::Instance(id, fields);
        let after = doing(c, s, Op::NewObj(id, args), seq![]).1;
        allocation_law(s.heap, o, 0);
        assert forall|q: GcRef| q != GcRef(s.heap.next) implies #[trigger] there(after, q) == there(
            s,
            q,
        ) by {
            allocation_law(s.heap, o, q.0);
        }
        assert(there(after, GcRef(s.heap.next)) == Some(o));
        assert forall|i: int| 0 <= i < fields.len() implies empty_of(
            (#[trigger] def.fields@[i]).ty,
            fields[i],
        ) by {
            crate::vm::inspect::default_by_model(def.fields@[i].ty);
        }
    }
}

/// The value of a field of a type before anything is written. (What a type
/// parameter stands for is not looked into here.)
pub open spec fn empty_of(ty: TypeDesc, v: Value) -> bool {
    match ty {
        TypeDesc::Int8
        | TypeDesc::Int16
        | TypeDesc::Int32
        | TypeDesc::Int64
        | TypeDesc::UInt8
        | TypeDesc::UInt16
        | TypeDesc::UInt32
        | TypeDesc::UInt64 => v == Value::Int(0),
        TypeDesc::Float32 | TypeDesc::Float64 => v == Value::Float(0),
        TypeDesc::Bool => v == Value::Bool(false),
        TypeDesc::Char => v == Value::Char('\0'),
        TypeDesc::GenericParam(_) => true,
        _ => v is Null,
    }
}

/// A new instance has come.
pub open spec fn born(
    s: StoreModel,
    r: (Effect, StoreModel),
    id: ClassId,
    def: crate::bytecode::ClassDef,
) -> bool {
    let q = GcRef(s.heap.next);
    &&& r.0 == Effect::Value(Value::Object(q))
    &&& only_new(s, r.1, q)
    &&& there(r.1, q) matches Some(ObjectModel::Instance(c, fields)) && c == id && fields.len()
        == def.fields@.len() && forall|i: int|
        0 <= i < fields.len() ==> empty_of((#[trigger] def.fields@[i]).ty, fields[i])
}

/// A call runs the method with the arguments, in order.
pub proof fn call_law(c: Setting, s: StoreModel, id: MethodId, args: Seq<Value>)
    requires
        method_of(c.module, id) is Some,
        (method_of(c.module, id)->0).params@.len() == args.len(),
    ensures
        doing(c, s, Op::Call(id), args) == (Effect::Invoke(id, args), s),
        args.len() > 0 && args[0] is Object ==> doing(c, s, Op::CallSuper(id), args) == (
            Effect::Invoke(id, args),
            s,
        ),
{
    reveal(doing);
}

/// What is thrown is the value itself; constants are what the pool holds.
pub proof fn constant_law(c: Setting, s: StoreModel, v: Value, idx: u32)
    requires
        heap_ok(s.heap),
        s.heap.next < usize::MAX,
    ensures
        doing(c, s, Op::Throw, seq![v]).0 == Effect::Thrown(v),
        idx < c.module.constant_pool@.len() ==> ({
            let (e, after) = doing(c, s, Op::LdStr(idx), seq![]);
            let r = GcRef(s.heap.next);
            &&& e == Effect::Value(Value::String(r))
            &&& only_new(s, after, r)
            &&& there(after, r) == Some(
                ObjectModel::String(c.module.constant_pool@[idx as int]@),
            )
        }),
{
    reveal(doing);
    if idx < c.module.constant_pool@.len() {
        let o = ObjectModel::String(c.module.constant_pool@[idx as int]@);
        let after = doing(c, s, Op::LdStr(idx), seq![]).1;
        allocation_law(s.heap, o, 0);
        assert forall|q: GcRef| q != GcRef(s.heap.next) implies #[trigger] there(after, q) == there(
            s,
            q,
        ) by {
            allocation_law(s.heap, o, q.0);
        }
    }
}

/// How many integers a type has, where a conversion cuts down to them.
pub open spec fn width(ty: TypeDesc) -> int {
    match ty {
        TypeDesc::Int8 | TypeDesc::UInt8 => 256,
        TypeDesc::Int16 | TypeDesc::UInt16 => 65_536,
        TypeDesc::Int32 | TypeDesc::UInt32 => 4_294_967_296,
        _ => 0,
    }
}

/// An integer is one of a type.
pub open spec fn belongs(ty: TypeDesc, n: int) -> bool {
    match ty {
        TypeDesc::Int8 => -128 <= n < 128,
        TypeDesc::UInt8 => 0 <= n < 256,
        TypeDesc::Int16 => -32_768 <= n < 32_768,
        TypeDesc::UInt16 => 0 <= n < 65_536,
        TypeDesc::Int32 => -2_147_483_648 <= n < 2_147_483_648,
        TypeDesc::UInt32 => 0 <= n < 4_294_967_296,
        TypeDesc::UInt64 => 0 <= n,
        _ => true,
    }
}

/// Converting an integer to an integer type keeps one that is of the type. Any other
/// one is an overflow where overflow is detected; where it is not, what comes out is
/// of the type and differs by a multiple of how many integers the type has, and the
/// wide types keep every integer.
pub proof fn conversion_law(c: Setting, s: StoreModel, ty: TypeDesc, n: i64)
    requires
        ty is Int8 || ty is UInt8 || ty is Int16 || ty is UInt16 || ty is Int32 || ty is UInt32
            || ty is Int64 || ty is UInt64,
    ensures
        ({
            let r = doing(c, s, Op::Conv(ty), seq![Value::Int(n)]);
            &&& belongs(ty, n as int) ==> gives(r, s, Value::Int(n))
            &&& !belongs(ty, n as int) && c.checks ==> fails(r, s, Fault::Overflow)
            &&& !c.checks && width(ty) == 0 ==> gives(r, s, Value::Int(n))
            &&& !c.checks && width(ty) > 0 ==> r.1 == s && (r.0 matches Effect::Value(
                Value::Int(m),
            ) && belongs(ty, m as int) && (n - m) % width(ty) == 0)
        }),
{
    reveal(doing);
    if width(ty) > 0 {
        let w = width(ty);
        let low = if ty is Int8 || ty is Int16 || ty is Int32 {
            -(w / 2)
        } else {
            0
        };
        let m = (n - low) % w + low;
        assert(0 <= (n - low) % w < w) by (nonlinear_arith)
            requires
                w > 0,
        ;
        assert((n - m) % w == 0) by (nonlinear_arith)
            requires
                w > 0,
                m == (n - low) % w + low,
        ;
        if belongs(ty, n as int) {
            assert((n - low) % w == n - low) by (nonlinear_arith)
                requires
                    0 <= n - low < w,
            ;
        }
    }
}

proof fn fact_found(facts: Seq<crate::arith::FloatFact>, ask: crate::arith::FloatAsk, i: int)
    requires
        0 <= i,
    ensures
        crate::arith::answer_from(facts, ask, i) matches Some(b) ==> exists|k: int|
            i <= k < facts.len() && (#[trigger] facts[k]).ask == ask && facts[k].result == b,
        crate::arith::answer_from(facts, ask, i) is None ==> forall|k: int|
            i <= k < facts.len() ==> (#[trigger] facts[k]).ask != ask,
    decreases facts.len() - i,
{
    if i < facts.len() && facts[i].ask != ask {
        fact_found(facts, ask, i + 1);
    }
}

/// Arithmetic on floats is what the world says: the result of the operation on
/// these two, or the question for it where nothing is known of it. Dividing by zero
/// fails.
pub proof fn float_law(c: Setting, s: StoreModel, op: Op, x: u64, y: u64)
    requires
        op is Add || op is Sub || op is Mul || op is Div || op is Rem,
        rank(y) != 0 || is_nan(y) || !(op is Div || op is Rem),
    ensures
        ({
            let r = doing(c, s, op, seq![Value::Float(x), Value::Float(y)]);
            let ask = crate::arith::FloatAsk {
                op: match op {
                    Op::Add => crate::arith::FloatOp::Add,
                    Op::Sub => crate::arith::FloatOp::Sub,
                    Op::Mul => crate::arith::FloatOp::Mul,
                    Op::Div => crate::arith::FloatOp::Div,
                    _ => crate::arith::FloatOp::Rem,
                },
                x,
                y,
            };
            &&& r.1 == s
            &&& r.0 matches Effect::Value(v) ==> v is Float && exists|k: int|
                0 <= k < c.world.floats.len() && (#[trigger] c.world.floats[k]).ask == ask
                    && c.world.floats[k].result == v->Float_0
            &&& r.0 is Value || r.0 == Effect::Ask(crate::vm::world::Question::Float(ask))
        }),
{
    reveal(doing);
    let ask = crate::arith::FloatAsk {
        op: match op {
            Op::Add => crate::arith::FloatOp::Add,
            Op::Sub => crate::arith::FloatOp::Sub,
            Op::Mul => crate::arith::FloatOp::Mul,
            Op::Div => crate::arith::FloatOp::Div,
            _ => crate::arith::FloatOp::Rem,
        },
        x,
        y,
    };
    fact_found(c.world.floats, ask, 0);
}

} // verus!
