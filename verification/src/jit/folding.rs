//! Constant folding gives the value that the interpreter computes.

use crate::bytecode::{Module, Op};
use crate::jit::ir::{BinOp, BlockModel, UnOp, VReg};
use crate::jit::optimize::{bool_const, float_const, fold_bin, fold_un, int_const, Const, Fold};
use crate::vm::apply::{binary_effect, unary_effect};
use crate::vm::heap::HeapModel;
use crate::vm::value::Value;
use crate::vm::world::{Answers, Effect, Question};
use vstd::prelude::*;

verus! {

/// The value of a constant.
pub open spec fn const_value(c: Const) -> Value {
    match c {
        Const::Int(x) => Value::Int(x),
        Const::Float(x) => Value::Float(x),
        Const::Bool(x) => Value::Bool(x),
    }
}

/// The operation of the interpreter that an instruction stands for.
pub open spec fn bin_source(op: BinOp) -> Op {
    match op {
        BinOp::Add => Op::Add,
        BinOp::Sub => Op::Sub,
        BinOp::Mul => Op::Mul,
        BinOp::Div => Op::Div,
        BinOp::Rem => Op::Rem,
        BinOp::Eq => Op::Eq,
        BinOp::And => Op::And,
        BinOp::Or => Op::Or,
        BinOp::Lt => Op::Lt,
        BinOp::Le => Op::Le,
        BinOp::Gt => Op::Gt,
        BinOp::Ge => Op::Ge,
    }
}

/// The operation of the interpreter that an instruction stands for.
pub open spec fn un_source(op: UnOp) -> Op {
    match op {
        UnOp::Neg => Op::Neg,
        UnOp::Not => Op::Not,
    }
}

/// A register holds the constant `v`.
pub open spec fn holds_const(bs: Seq<BlockModel>, r: VReg, v: Value) -> bool {
    match v {
        Value::Int(x) => int_const(bs, r) == Some(x),
        Value::Float(x) => float_const(bs, r) == Some(x),
        Value::Bool(x) => bool_const(bs, r) == Some(x),
        _ => false,
    }
}

/// Where an instruction with two operands becomes a constant, its operands are
/// constants, and the constant is what the interpreter computes from them.
pub proof fn folded_pair_is_exact(
    module: Module,
    h: HeapModel,
    w: Answers,
    bs: Seq<BlockModel>,
    checks: bool,
    op: BinOp,
    a: VReg,
    b: VReg,
    c: Const,
) -> (r: (Value, Value))
    requires
        fold_bin(bs, w.floats, checks, op, a, b) == Fold::Become(c),
    ensures
        holds_const(bs, a, r.0),
        holds_const(bs, b, r.1),
        binary_effect(module, checks, h, w, bin_source(op), r.0, r.1) == Effect::Value(
            const_value(c),
        ),
{
    if op is And || op is Or {
        (Value::Bool(bool_const(bs, a)->0), Value::Bool(bool_const(bs, b)->0))
    } else if int_const(bs, a) is Some && int_const(bs, b) is Some {
        (Value::Int(int_const(bs, a)->0), Value::Int(int_const(bs, b)->0))
    } else if float_const(bs, a) is Some && float_const(bs, b) is Some {
        (Value::Float(float_const(bs, a)->0), Value::Float(float_const(bs, b)->0))
    } else {
        (Value::Bool(bool_const(bs, a)->0), Value::Bool(bool_const(bs, b)->0))
    }
}

/// Where an instruction with one operand becomes a constant, its operand is a
/// constant, and the constant is what the interpreter computes from it.
pub proof fn folded_single_is_exact(
    module: Module,
    h: HeapModel,
    w: Answers,
    bs: Seq<BlockModel>,
    checks: bool,
    op: UnOp,
    a: VReg,
    c: Const,
) -> (r: Value)
    requires
        fold_un(bs, checks, op, a) == Fold::Become(c),
    ensures
        holds_const(bs, a, r),
        unary_effect(module, checks, h, w, un_source(op), r) == Effect::Value(const_value(c)),
{
    if int_const(bs, a) is Some {
        Value::Int(int_const(bs, a)->0)
    } else if float_const(bs, a) is Some {
        Value::Float(float_const(bs, a)->0)
    } else {
        Value::Bool(bool_const(bs, a)->0)
    }
}

/// Where folding asks for a float, the interpreter asks for the same one.
pub proof fn folding_asks_alike(
    module: Module,
    h: HeapModel,
    w: Answers,
    bs: Seq<BlockModel>,
    checks: bool,
    op: BinOp,
    a: VReg,
    b: VReg,
)
    requires
        fold_bin(bs, w.floats, checks, op, a, b) is Ask,
    ensures
        float_const(bs, a) is Some,
        float_const(bs, b) is Some,
        binary_effect(
            module,
            checks,
            h,
            w,
            bin_source(op),
            Value::Float(float_const(bs, a)->0),
            Value::Float(float_const(bs, b)->0),
        ) == Effect::Ask(Question::Float(fold_bin(bs, w.floats, checks, op, a, b)->Ask_0)),
{
}

} // verus!
