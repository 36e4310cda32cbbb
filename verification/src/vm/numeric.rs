//! Arithmetic, comparison and conversion of values.

use crate::arith::{
    fit, float_is_zero, float_le, float_lt, float_neg, float_to_int, float_trunc, int_add, int_div,
    int_mul, int_neg, int_rem, int_sub, is_nan, neg_bits, ordered, quotient, rank, rem_result,
    saturated, truncated, FloatAsk, FloatOp,
};
use crate::bytecode::TypeDesc;
use crate::jit::value::{int_bits, to_parts};
use crate::text::{cat3, own};
use crate::vm::value::{type_text, Value};
use crate::vm::world::{
    bits_or_ask, float_result, Answers, Applied, Ask, Effect, Fault, Question, VmError, World,
};
use vstd::prelude::*;

verus! {

/// A question about a float operation.
pub open spec fn asked(op: FloatOp, x: u64, y: u64) -> FloatAsk {
    FloatAsk { op, x, y }
}

/// A number as a float.
pub open spec fn as_float(w: Answers, v: Value) -> Result<u64, Question> {
    match v {
        Value::Int(i) => float_result(w, asked(FloatOp::FromInt, int_bits(i), 0)),
        Value::Float(f) => Ok(f),
        _ => Ok(0),
    }
}

/// Numbers.
pub open spec fn is_number(v: Value) -> bool {
    v is Int || v is Float
}

/// The complaint about two values that are no numbers.
pub open spec fn not_numbers(a: Value, b: Value) -> Effect {
    Effect::Failed(
        Fault::TypeMismatch("int or float"@, type_text(a) + " and "@ + type_text(b)),
    )
}

/// An integer, or an overflow.
pub open spec fn int_effect(r: Option<i64>) -> Effect {
    match r {
        Some(i) => Effect::Value(Value::Int(i)),
        None => Effect::Failed(Fault::Overflow),
    }
}

/// The operations on numbers.
#[derive(Debug, Clone, Copy, PartialEq, Eq, Structural)]
pub enum Arith {
    /// Addition.
    Plus,
    /// Subtraction.
    Minus,
    /// Multiplication.
    Times,
    /// Division.
    Over,
    /// Remainder.
    Modulo,
}

/// An operation on integers.
pub open spec fn int_result(op: Arith, checks: bool, x: i64, y: i64) -> Effect {
    match op {
        Arith::Plus => int_effect(fit(checks, x + y)),
        Arith::Minus => int_effect(fit(checks, x - y)),
        Arith::Times => int_effect(fit(checks, x * y)),
        Arith::Over => if y == 0 {
            Effect::Failed(Fault::DivideByZero)
        } else {
            int_effect(fit(checks, quotient(x as int, y as int)))
        },
        Arith::Modulo => if y == 0 {
            Effect::Failed(Fault::DivideByZero)
        } else {
            int_effect(rem_result(checks, x as int, y as int))
        },
    }
}

/// The float operation.
pub open spec fn float_op(op: Arith) -> FloatOp {
    match op {
        Arith::Plus => FloatOp::Add,
        Arith::Minus => FloatOp::Sub,
        Arith::Times => FloatOp::Mul,
        Arith::Over => FloatOp::Div,
        Arith::Modulo => FloatOp::Rem,
    }
}

/// A float or a question.
pub open spec fn float_effect(r: Result<u64, Question>) -> Effect {
    match r {
        Ok(b) => Effect::Value(Value::Float(b)),
        Err(q) => Effect::Ask(q),
    }
}

/// An operation on numbers: on integers where both are, else on floats.
pub open spec fn arith_effect(op: Arith, checks: bool, w: Answers, a: Value, b: Value) -> Effect {
    match (a, b) {
        (Value::Int(x), Value::Int(y)) => int_result(op, checks, x, y),
        _ => if !is_number(a) || !is_number(b) {
            not_numbers(a, b)
        } else {
            match as_float(w, a) {
                Err(q) => Effect::Ask(q),
                Ok(x) => match as_float(w, b) {
                    Err(q) => Effect::Ask(q),
                    Ok(y) => if (op == Arith::Over || op == Arith::Modulo) && !is_nan(y) && rank(y)
                        == 0 {
                        Effect::Failed(Fault::DivideByZero)
                    } else {
                        float_effect(float_result(w, asked(float_op(op), x, y)))
                    },
                },
            }
        },
    }
}

/// The comparisons of numbers.
#[derive(Debug, Clone, Copy, PartialEq, Eq, Structural)]
pub enum Compare {
    /// Less than.
    Less,
    /// Less than or equal.
    AtMost,
    /// Greater than.
    More,
    /// Greater than or equal.
    AtLeast,
}

/// A comparison of numbers by their order.
pub open spec fn compared(c: Compare, x: int, y: int) -> bool {
    match c {
        Compare::Less => x < y,
        Compare::AtMost => x <= y,
        Compare::More => x > y,
        Compare::AtLeast => x >= y,
    }
}

/// A comparison of numbers: of integers where both are, else of floats.
pub open spec fn order_effect(c: Compare, w: Answers, a: Value, b: Value) -> Effect {
    match (a, b) {
        (Value::Int(x), Value::Int(y)) => Effect::Value(
            Value::Bool(compared(c, x as int, y as int)),
        ),
        _ => if !is_number(a) || !is_number(b) {
            not_numbers(a, b)
        } else {
            match as_float(w, a) {
                Err(q) => Effect::Ask(q),
                Ok(x) => match as_float(w, b) {
                    Err(q) => Effect::Ask(q),
                    Ok(y) => Effect::Value(
                        Value::Bool(ordered(x, y) && compared(c, rank(x), rank(y))),
                    ),
                },
            }
        },
    }
}

/// Negation of a number.
pub open spec fn neg_effect(checks: bool, v: Value) -> Effect {
    match v {
        Value::Int(i) => int_effect(fit(checks, -i)),
        Value::Float(f) => Effect::Value(Value::Float(neg_bits(f))),
        _ => Effect::Failed(Fault::TypeMismatch("int or float"@, type_text(v))),
    }
}

/// Inclusive range of an integer type, as far as it can be held.
pub open spec fn type_range(ty: TypeDesc) -> (int, int) {
    match ty {
        TypeDesc::Int8 => (-128, 127),
        TypeDesc::Int16 => (-32768, 32767),
        TypeDesc::Int32 => (-0x8000_0000, 0x7FFF_FFFF),
        TypeDesc::UInt8 => (0, 255),
        TypeDesc::UInt16 => (0, 65535),
        TypeDesc::UInt32 => (0, 0xFFFF_FFFF),
        TypeDesc::UInt64 => (0, i64::MAX as int),
        _ => (i64::MIN as int, i64::MAX as int),
    }
}

/// A number reduced to a range that starts at `low` and holds `size` numbers.
pub open spec fn reduced(n: int, low: int, size: int) -> int {
    (n - low) % size + low
}

/// An integer as an integer type holds it.
pub open spec fn narrowed(ty: TypeDesc, n: i64) -> i64 {
    match ty {
        TypeDesc::Int8 => reduced(n as int, -128, 256) as i64,
        TypeDesc::Int16 => reduced(n as int, -32768, 65536) as i64,
        TypeDesc::Int32 => reduced(n as int, -0x8000_0000, 0x1_0000_0000) as i64,
        TypeDesc::UInt8 => reduced(n as int, 0, 256) as i64,
        TypeDesc::UInt16 => reduced(n as int, 0, 65536) as i64,
        TypeDesc::UInt32 => reduced(n as int, 0, 0x1_0000_0000) as i64,
        _ => n,
    }
}

/// Conversion of an integer to an integer type. With overflow checking enabled,
/// a value that does not fit the target is an overflow; else it is narrowed.
pub open spec fn int_conv(checks: bool, ty: TypeDesc, n: i64) -> Effect {
    let r = type_range(ty);
    if checks && !(r.0 <= n <= r.1) {
        Effect::Failed(Fault::Overflow)
    } else {
        Effect::Value(Value::Int(narrowed(ty, n)))
    }
}

/// Conversion of a float to an integer type. With overflow checking enabled, a
/// float whose whole part does not fit the target is an overflow; else it is
/// taken as the nearest 64-bit integer and narrowed.
pub open spec fn float_conv(checks: bool, ty: TypeDesc, f: u64) -> Effect {
    let r = type_range(ty);
    if checks && !(truncated(f) matches Some(n) && r.0 <= n <= r.1) {
        Effect::Failed(Fault::Overflow)
    } else {
        Effect::Value(Value::Int(narrowed(ty, saturated(f))))
    }
}

/// Conversion of a value to a numeric type.
pub open spec fn conv_effect(checks: bool, w: Answers, v: Value, ty: TypeDesc) -> Effect {
    if !ty.float_type() && !ty.int_type() {
        Effect::Failed(Fault::TypeMismatch("numeric type"@, type_text(v)))
    } else if !is_number(v) {
        Effect::Failed(Fault::TypeMismatch("int or float"@, type_text(v)))
    } else if ty.float_type() {
        match as_float(w, v) {
            Err(q) => Effect::Ask(q),
            Ok(f) => if ty is Float32 {
                float_effect(float_result(w, asked(FloatOp::ToSingle, f, 0)))
            } else {
                Effect::Value(Value::Float(f))
            },
        }
    } else {
        match v {
            Value::Int(i) => int_conv(checks, ty, i),
            Value::Float(f) => float_conv(checks, ty, f),
            _ => Effect::Nothing,
        }
    }
}

fn float_of(world: &World, v: Value) -> (r: Result<u64, Ask>)
    ensures
        bits_or_ask(r) == as_float(world@, v),
{
    match v {
        Value::Int(_) => {
            let (_, bits) = to_parts(&v);
            world.float(FloatAsk { op: FloatOp::FromInt, x: bits, y: 0 })
        },
        Value::Float(f) => Ok(f),
        _ => Ok(0),
    }
}

fn number(v: Value) -> (r: bool)
    ensures
        r == is_number(v),
{
    matches!(v, Value::Int(_) | Value::Float(_))
}

fn fail_not_numbers(a: Value, b: Value) -> (r: Applied)
    ensures
        r@ == not_numbers(a, b),
{
    Applied::Failed(
        VmError::TypeMismatch {
            expected: "int or float",
            got: cat3(a.kind_name(), " and ", b.kind_name()),
        },
    )
}

fn int_or_overflow(r: Option<i64>) -> (x: Applied)
    ensures
        x@ == int_effect(r),
{
    match r {
        Some(i) => Applied::Value(Value::Int(i)),
        None => Applied::Failed(VmError::Overflow),
    }
}

fn int_arith(op: Arith, checks: bool, x: i64, y: i64) -> (r: Applied)
    ensures
        r@ == int_result(op, checks, x, y),
{
    match op {
        Arith::Plus => int_or_overflow(int_add(checks, x, y)),
        Arith::Minus => int_or_overflow(int_sub(checks, x, y)),
        Arith::Times => int_or_overflow(int_mul(checks, x, y)),
        Arith::Over => if y == 0 {
            Applied::Failed(VmError::DivideByZero)
        } else {
            int_or_overflow(int_div(checks, x, y))
        },
        Arith::Modulo => if y == 0 {
            Applied::Failed(VmError::DivideByZero)
        } else {
            int_or_overflow(int_rem(checks, x, y))
        },
    }
}

fn op_of(op: Arith) -> (r: FloatOp)
    ensures
        r == float_op(op),
{
    match op {
        Arith::Plus => FloatOp::Add,
        Arith::Minus => FloatOp::Sub,
        Arith::Times => FloatOp::Mul,
        Arith::Over => FloatOp::Div,
        Arith::Modulo => FloatOp::Rem,
    }
}

fn float_or_ask(r: Result<u64, Ask>) -> (x: Applied)
    ensures
        x@ == float_effect(bits_or_ask(r)),
{
    match r {
        Ok(b) => Applied::Value(Value::Float(b)),
        Err(a) => Applied::Ask(a),
    }
}

/// An operation on numbers.
pub fn arithmetic(op: Arith, checks: bool, world: &World, a: Value, b: Value) -> (r: Applied)
    ensures
        r@ == arith_effect(op, checks, world@, a, b),
{
    if let Value::Int(x) = a {
        if let Value::Int(y) = b {
            return int_arith(op, checks, x, y);
        }
    }
    if !number(a) || !number(b) {
        return fail_not_numbers(a, b);
    }
    let x: u64 = match float_of(world, a) {
        Ok(x) => x,
        Err(q) => return Applied::Ask(q),
    };
    let y: u64 = match float_of(world, b) {
        Ok(y) => y,
        Err(q) => return Applied::Ask(q),
    };
    if (op == Arith::Over || op == Arith::Modulo) && float_is_zero(y) {
        return Applied::Failed(VmError::DivideByZero);
    }
    float_or_ask(world.float(FloatAsk { op: op_of(op), x, y }))
}

/// A comparison of numbers.
pub fn comparison(c: Compare, world: &World, a: Value, b: Value) -> (r: Applied)
    ensures
        r@ == order_effect(c, world@, a, b),
{
    if let Value::Int(x) = a {
        if let Value::Int(y) = b {
            let yes: bool = match c {
                Compare::Less => x < y,
                Compare::AtMost => x <= y,
                Compare::More => x > y,
                Compare::AtLeast => x >= y,
            };
            return Applied::Value(Value::Bool(yes));
        }
    }
    if !number(a) || !number(b) {
        return fail_not_numbers(a, b);
    }
    let x: u64 = match float_of(world, a) {
        Ok(x) => x,
        Err(q) => return Applied::Ask(q),
    };
    let y: u64 = match float_of(world, b) {
        Ok(y) => y,
        Err(q) => return Applied::Ask(q),
    };
    let yes: bool = match c {
        Compare::Less => float_lt(x, y),
        Compare::AtMost => float_le(x, y),
        Compare::More => float_lt(y, x),
        Compare::AtLeast => float_le(y, x),
    };
    Applied::Value(Value::Bool(yes))
}

/// Negation of a number.
pub fn negation(checks: bool, v: Value) -> (r: Applied)
    ensures
        r@ == neg_effect(checks, v),
{
    match v {
        Value::Int(i) => int_or_overflow(int_neg(checks, i)),
        Value::Float(f) => Applied::Value(Value::Float(float_neg(f))),
        _ => Applied::Failed(
            VmError::TypeMismatch { expected: "int or float", got: own(v.kind_name()) },
        ),
    }
}

fn reduce(n: i64, low: i64, size: i64) -> (r: i64)
    requires
        -0x1_0000_0000 <= low <= 0,
        0 < size <= 0x1_0000_0000,
        low + size <= 0x1_0000_0000,
    ensures
        r == reduced(n as int, low as int, size as int),
{
    let m: i128 = (n as i128 - low as i128) % size as i128;
    let k: i128 = if m < 0 {
        m + size as i128
    } else {
        m
    };
    proof {
        trunc_mod_of(n - low, size as int);
    }
    (k + low as i128) as i64
}

proof fn trunc_mod_of(n: int, d: int)
    requires
        d > 0,
    ensures
        n < 0 ==> ((-n) % d == 0 ==> n % d == 0) && ((-n) % d != 0 ==> n % d == d - (-n) % d),
        0 <= n % d < d,
{
    if n < 0 {
        let q = (-n) / d;
        let r = (-n) % d;
        assert(-n == q * d + r && 0 <= r < d) by (nonlinear_arith)
            requires
                d > 0,
                q == (-n) / d,
                r == (-n) % d,
        ;
        if r == 0 {
            assert(n == d * (-q) + 0) by (nonlinear_arith)
                requires
                    -n == q * d,
            ;
            vstd::arithmetic::div_mod::lemma_fundamental_div_mod_converse(n, d, -q, 0);
        } else {
            assert(n == d * (-q - 1) + (d - r)) by (nonlinear_arith)
                requires
                    -n == q * d + r,
            ;
            vstd::arithmetic::div_mod::lemma_fundamental_div_mod_converse(n, d, -q - 1, d - r);
        }
    }
    assert(0 <= n % d < d) by (nonlinear_arith)
        requires
            d > 0,
    ;
}

fn narrow(ty: &TypeDesc, n: i64) -> (r: i64)
    ensures
        r == narrowed(*ty, n),
{
    match ty {
        TypeDesc::Int8 => reduce(n, -128, 256),
        TypeDesc::Int16 => reduce(n, -32768, 65536),
        TypeDesc::Int32 => reduce(n, -0x8000_0000, 0x1_0000_0000),
        TypeDesc::UInt8 => reduce(n, 0, 256),
        TypeDesc::UInt16 => reduce(n, 0, 65536),
        TypeDesc::UInt32 => reduce(n, 0, 0x1_0000_0000),
        _ => n,
    }
}

/// Inclusive integer range of an integer type.
pub fn int_range(ty: &TypeDesc) -> (r: (i64, i64))
    ensures
        (r.0 as int, r.1 as int) == type_range(*ty),
{
    match ty {
        TypeDesc::Int8 => (-128, 127),
        TypeDesc::Int16 => (-32768, 32767),
        TypeDesc::Int32 => (-0x8000_0000, 0x7FFF_FFFF),
        TypeDesc::UInt8 => (0, 255),
        TypeDesc::UInt16 => (0, 65535),
        TypeDesc::UInt32 => (0, 0xFFFF_FFFF),
        TypeDesc::UInt64 => (0, i64::MAX),
        _ => (i64::MIN, i64::MAX),
    }
}

fn convert_int(checks: bool, ty: &TypeDesc, n: i64) -> (r: Applied)
    ensures
        r@ == int_conv(checks, *ty, n),
{
    let (low, high) = int_range(ty);
    if checks && (n < low || n > high) {
        return Applied::Failed(VmError::Overflow);
    }
    Applied::Value(Value::Int(narrow(ty, n)))
}

fn convert_float(checks: bool, ty: &TypeDesc, f: u64) -> (r: Applied)
    ensures
        r@ == float_conv(checks, *ty, f),
{
    let (low, high) = int_range(ty);
    if checks {
        let fits: bool = match float_trunc(f) {
            Some(n) => low <= n && n <= high,
            None => false,
        };
        if !fits {
            return Applied::Failed(VmError::Overflow);
        }
    }
    Applied::Value(Value::Int(narrow(ty, float_to_int(f))))
}

/// Convert a value to the given numeric type. Narrowing truncates; with
/// overflow checking enabled, a value that does not fit the target width
/// raises [`VmError::Overflow`] instead of wrapping.
pub fn convert(checks: bool, world: &World, v: Value, ty: &TypeDesc) -> (r: Applied)
    ensures
        r@ == conv_effect(checks, world@, v, *ty),
{
    let floats: bool = ty.is_float();
    if !floats && !ty.is_int() {
        return Applied::Failed(
            VmError::TypeMismatch { expected: "numeric type", got: own(v.kind_name()) },
        );
    }
    if !number(v) {
        return Applied::Failed(
            VmError::TypeMismatch { expected: "int or float", got: own(v.kind_name()) },
        );
    }
    if floats {
        let f: u64 = match float_of(world, v) {
            Ok(f) => f,
            Err(q) => return Applied::Ask(q),
        };
        if matches!(ty, TypeDesc::Float32) {
            return float_or_ask(world.float(FloatAsk { op: FloatOp::ToSingle, x: f, y: 0 }));
        }
        return Applied::Value(Value::Float(f));
    }
    match v {
        Value::Int(i) => convert_int(checks, ty, i),
        Value::Float(f) => convert_float(checks, ty, f),
        _ => Applied::Nothing,
    }
}

/// A converted integer is in the range of its type, and one that already is
/// stays as it is. The range of unsigned 64-bit integers is held only in part.
pub proof fn conversion_laws(ty: TypeDesc, n: i64)
    requires
        ty.int_type(),
        !(ty is UInt64),
    ensures
        type_range(ty).0 <= narrowed(ty, n) <= type_range(ty).1,
        type_range(ty).0 <= n <= type_range(ty).1 ==> narrowed(ty, n) == n,
{
}

} // verus!
