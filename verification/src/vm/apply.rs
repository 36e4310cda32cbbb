//! One operation on its operands. The interpreter and compiled code both come
//! here, with the operands in the order in which they were pushed.

use crate::bytecode::{frame_op_text, show_frame_op, Module, MethodId, Op};
use crate::natives::{native_arity, native_of, NativeId};
use crate::text::{cat2, dec, dec_u64, own};
use crate::vm::collections::runtime;
use crate::vm::describe::{value_hash, value_hash_of};
use crate::vm::heap::{heap_ok, Heap, HeapModel};
use crate::vm::inspect::{equal_values, value_eq, value_is, value_is_instance};
use crate::vm::numeric::{
    arith_effect, arithmetic, comparison, conv_effect, convert, neg_effect, negation, order_effect,
    Arith, Compare,
};
use crate::vm::ops::{
    call_effect, call_method, call_super, call_virtual, concat_effect, copy_values, enum_field_effect,
    eq_effect, equality, get_enum_field, get_tag, get_tuple_field, load_field, load_static, made,
    new_effect, print_effect, store_field, store_ok, store_static, string_effect, super_effect,
    tag_effect, throw_effect, tuple_field_effect, virtual_effect, Boxed, Store, StoreModel,
};
use crate::vm::stdlib::native_effect;
use crate::vm::value::{truthy, AuraObject, EnumValue, ObjectModel, TupleValue, Value};
use crate::vm::world::{Answers, Applied, Effect, Fault, VmError, World};
use vstd::prelude::*;

verus! {

/// What an operation on two values does.
pub open spec fn binary_effect(
    module: Module,
    checks: bool,
    h: HeapModel,
    w: Answers,
    op: Op,
    a: Value,
    b: Value,
) -> Effect {
    match op {
        Op::Add => arith_effect(Arith::Plus, checks, w, a, b),
        Op::Sub => arith_effect(Arith::Minus, checks, w, a, b),
        Op::Mul => arith_effect(Arith::Times, checks, w, a, b),
        Op::Div => arith_effect(Arith::Over, checks, w, a, b),
        Op::Rem => arith_effect(Arith::Modulo, checks, w, a, b),
        Op::Lt => order_effect(Compare::Less, w, a, b),
        Op::Le => order_effect(Compare::AtMost, w, a, b),
        Op::Gt => order_effect(Compare::More, w, a, b),
        Op::Ge => order_effect(Compare::AtLeast, w, a, b),
        Op::Eq => eq_effect(module, h, a, b),
        Op::And => Effect::Value(Value::Bool(truthy(a) && truthy(b))),
        Op::Or => Effect::Value(Value::Bool(truthy(a) || truthy(b))),
        _ => Effect::Value(Value::Bool(equal_values(module, h, a, b))),
    }
}

/// What an operation on one value does.
pub open spec fn unary_effect(
    module: Module,
    checks: bool,
    h: HeapModel,
    w: Answers,
    op: Op,
    v: Value,
) -> Effect {
    match op {
        Op::Neg => neg_effect(checks, v),
        Op::Not => Effect::Value(Value::Bool(!truthy(v))),
        Op::Conv(ty) => conv_effect(checks, w, v, ty),
        Op::Hash => Effect::Value(Value::Int(value_hash_of(module, h, v) as i64)),
        Op::IsInst(class) => Effect::Value(Value::Bool(value_is(module, h, v, class))),
        _ => Effect::Failed(Fault::StackUnderflow),
    }
}

/// Whether an operation takes two values and leaves the heap alone.
pub open spec fn is_binary(op: Op) -> bool {
    match op {
        Op::Add
        | Op::Sub
        | Op::Mul
        | Op::Div
        | Op::Rem
        | Op::Lt
        | Op::Le
        | Op::Gt
        | Op::Ge
        | Op::Eq
        | Op::And
        | Op::Or
        | Op::ValueEq => true,
        _ => false,
    }
}

/// Whether an operation takes one value and leaves the heap alone.
pub open spec fn is_unary(op: Op) -> bool {
    match op {
        Op::Neg | Op::Not | Op::Conv(_) | Op::Hash | Op::IsInst(_) => true,
        _ => false,
    }
}

/// A call of a native function by its number.
pub open spec fn numbered_native(
    module: Module,
    s: StoreModel,
    w: Answers,
    n: u16,
    args: Seq<Value>,
) -> (Effect, StoreModel) {
    match native_of(n) {
        None => (runtime("unknown native id "@ + dec(n as nat)), s),
        Some(id) => if args.len() != native_arity(id) {
            (Effect::Failed(Fault::StackUnderflow), s)
        } else {
            native_effect(module, s, w, id, args)
        },
    }
}

/// What an operation does with its operands; `calls` are the methods that are
/// running, outermost first.
pub open spec fn apply_effect(
    module: Module,
    checks: bool,
    s: StoreModel,
    calls: Seq<MethodId>,
    w: Answers,
    op: Op,
    args: Seq<Value>,
) -> (Effect, StoreModel) {
    if is_binary(op) {
        if args.len() < 2 {
            (Effect::Failed(Fault::StackUnderflow), s)
        } else {
            (binary_effect(module, checks, s.heap, w, op, args[0], args[1]), s)
        }
    } else if is_unary(op) {
        if args.len() < 1 {
            (Effect::Failed(Fault::StackUnderflow), s)
        } else {
            (unary_effect(module, checks, s.heap, w, op, args[0]), s)
        }
    } else {
        match op {
            Op::Call(id) => (call_effect(module, id, args), s),
            Op::CallVirt(name) => (virtual_effect(module, s.heap, name@, args), s),
            Op::CallSuper(id) => (super_effect(id, args), s),
            Op::NewObj(id, type_args) => new_effect(module, s, id, type_args@),
            Op::Ldfld(idx) => (load_field(s.heap, idx, args), s),
            Op::Stfld(idx) => store_field(s, idx, args),
            Op::Ldsfld(id, idx) => (load_static(s, id, idx), s),
            Op::Stsfld(id, idx) => store_static(s, id, idx, args),
            Op::NewEnum(id, k) => made(
                s,
                Boxed::Choice,
                ObjectModel::Enum(id.0, k as u32, args),
            ),
            Op::EnumTag => (tag_effect(s.heap, args), s),
            Op::EnumField(idx) => (enum_field_effect(s.heap, idx, args), s),
            Op::NewTuple(_) => made(s, Boxed::Group, ObjectModel::Tuple(args)),
            Op::TupleField(idx) => (tuple_field_effect(s.heap, idx, args), s),
            Op::Print => (print_effect(module, s.heap, w, args), s),
            Op::PrintLn => (Effect::Show("\n"@), s),
            Op::StringConcat(count) => concat_effect(module, s, w, count, args),
            Op::Throw => throw_effect(module, s, calls, args),
            Op::LdStr(idx) => string_effect(module, s, idx),
            Op::NativeCall(n) => numbered_native(module, s, w, n, args),
            _ => (runtime("jit: unhandled helper op "@ + frame_op_text(op)), s),
        }
    }
}

fn apply_binary(
    module: &Module,
    checks: bool,
    heap: &Heap,
    world: &World,
    op: &Op,
    a: Value,
    b: Value,
) -> (r: Applied)
    requires
        heap_ok(heap@),
    ensures
        r@ == binary_effect(*module, checks, heap@, world@, *op, a, b),
{
    match op {
        Op::Add => arithmetic(Arith::Plus, checks, world, a, b),
        Op::Sub => arithmetic(Arith::Minus, checks, world, a, b),
        Op::Mul => arithmetic(Arith::Times, checks, world, a, b),
        Op::Div => arithmetic(Arith::Over, checks, world, a, b),
        Op::Rem => arithmetic(Arith::Modulo, checks, world, a, b),
        Op::Lt => comparison(Compare::Less, world, a, b),
        Op::Le => comparison(Compare::AtMost, world, a, b),
        Op::Gt => comparison(Compare::More, world, a, b),
        Op::Ge => comparison(Compare::AtLeast, world, a, b),
        Op::Eq => equality(module, heap, a, b),
        Op::And => Applied::Value(Value::Bool(a.is_truthy() && b.is_truthy())),
        Op::Or => Applied::Value(Value::Bool(a.is_truthy() || b.is_truthy())),
        _ => Applied::Value(Value::Bool(value_eq(module, heap, a, b))),
    }
}

fn apply_unary(
    module: &Module,
    checks: bool,
    heap: &Heap,
    world: &World,
    op: &Op,
    v: Value,
) -> (r: Applied)
    requires
        heap_ok(heap@),
    ensures
        r@ == unary_effect(*module, checks, heap@, world@, *op, v),
{
    match op {
        Op::Neg => negation(checks, v),
        Op::Not => Applied::Value(Value::Bool(!v.is_truthy())),
        Op::Conv(ty) => convert(checks, world, v, ty),
        Op::Hash => Applied::Value(Value::Int(value_hash(module, heap, v) as i64)),
        Op::IsInst(class) => Applied::Value(
            Value::Bool(value_is_instance(module, heap, v, *class)),
        ),
        _ => Applied::Failed(VmError::StackUnderflow),
    }
}

fn takes_two(op: &Op) -> (r: bool)
    ensures
        r == is_binary(*op),
{
    match op {
        Op::Add
        | Op::Sub
        | Op::Mul
        | Op::Div
        | Op::Rem
        | Op::Lt
        | Op::Le
        | Op::Gt
        | Op::Ge
        | Op::Eq
        | Op::And
        | Op::Or
        | Op::ValueEq => true,
        _ => false,
    }
}

fn takes_one(op: &Op) -> (r: bool)
    ensures
        r == is_unary(*op),
{
    match op {
        Op::Neg | Op::Not | Op::Conv(_) | Op::Hash | Op::IsInst(_) => true,
        _ => false,
    }
}

impl Store {
    fn call_native(&mut self, module: &Module, world: &World, n: u16, args: &Vec<Value>) -> (r:
        Applied)
        requires
            store_ok(old(self)@),
        ensures
            store_ok(final(self)@),
            (r@, final(self)@) == numbered_native(*module, old(self)@, world@, n, args@),
    {
        match NativeId::from_u16(n) {
            None => {
                let d: String = dec_u64(n as u64);
                Applied::Failed(VmError::Runtime(cat2("unknown native id ", d.as_str())))
            },
            Some(id) => {
                if args.len() != id.arity() {
                    return Applied::Failed(VmError::StackUnderflow);
                }
                self.exec_native(module, world, id, args)
            },
        }
    }

    /// Execute an operation on its operands; `calls` are the methods that are
    /// running, outermost first.
    pub fn apply(
        &mut self,
        module: &Module,
        checks: bool,
        calls: &Vec<MethodId>,
        world: &World,
        op: &Op,
        args: &Vec<Value>,
    ) -> (r: Applied)
        requires
            store_ok(old(self)@),
        ensures
            store_ok(final(self)@),
            (r@, final(self)@) == apply_effect(
                *module,
                checks,
                old(self)@,
                calls@,
                world@,
                *op,
                args@,
            ),
    {
        if takes_two(op) {
            if args.len() < 2 {
                return Applied::Failed(VmError::StackUnderflow);
            }
            return apply_binary(module, checks, &self.heap, world, op, args[0], args[1]);
        }
        if takes_one(op) {
            if args.len() < 1 {
                return Applied::Failed(VmError::StackUnderflow);
            }
            return apply_unary(module, checks, &self.heap, world, op, args[0]);
        }
        match op {
            Op::Call(id) => call_method(module, *id, args),
            Op::CallVirt(name) => call_virtual(module, &self.heap, name.as_str(), args),
            Op::CallSuper(id) => call_super(*id, args),
            Op::NewObj(id, type_args) => self.new_object(module, *id, type_args),
            Op::Ldfld(idx) => self.get_field(*idx, args),
            Op::Stfld(idx) => self.set_field(*idx, args),
            Op::Ldsfld(id, idx) => self.get_static(*id, *idx),
            Op::Stsfld(id, idx) => self.set_static(*id, *idx, args),
            Op::NewEnum(id, k) => {
                let fields: Vec<Value> = copy_values(args);
                self.make(
                    Boxed::Choice,
                    AuraObject::Enum(
                        EnumValue { enum_id: id.0, variant_idx: *k as u32, fields },
                    ),
                )
            },
            Op::EnumTag => get_tag(&self.heap, args),
            Op::EnumField(idx) => get_enum_field(&self.heap, *idx, args),
            Op::NewTuple(_) => {
                let elements: Vec<Value> = copy_values(args);
                self.make(Boxed::Group, AuraObject::Tuple(TupleValue { elements }))
            },
            Op::TupleField(idx) => get_tuple_field(&self.heap, *idx, args),
            Op::Print => self.print_text(module, world, args),
            Op::PrintLn => Applied::Show(own("\n")),
            Op::StringConcat(count) => self.concat_text(module, world, *count, args),
            Op::Throw => self.throw_value(module, calls, args),
            Op::LdStr(idx) => self.string_constant(module, *idx),
            Op::NativeCall(n) => self.call_native(module, world, *n, args),
            _ => {
                let what: String = show_frame_op(op);
                Applied::Failed(
                    VmError::Runtime(cat2("jit: unhandled helper op ", what.as_str())),
                )
            },
        }
    }
}

/// Where a question is asked, nothing has changed.
pub proof fn question_changes_nothing(
    module: Module,
    checks: bool,
    s: StoreModel,
    calls: Seq<MethodId>,
    w: Answers,
    op: Op,
    args: Seq<Value>,
)
    ensures
        ({
            let (e, after) = apply_effect(module, checks, s, calls, w, op, args);
            e is Ask ==> after == s
        }),
{
}

} // verus!
