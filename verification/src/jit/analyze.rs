//! Analysis of the operand stack.
//!
//! Determines, block by block, the depth of the operand stack at entry and the
//! abstract types of its slots, and the abstract types of the locals.

use crate::bytecode::{
    call_virt_arity, enum_of, method_of, virtual_arity_opt, EnumId, MethodDef, Module, Op,
};
use crate::jit::cfg::{
    block_ranges, block_ranges_bounds, block_succs, block_succs_bounds, find_terminator, lists,
    starts_from, succs_from_index, terminator, terminator_bounds, Cfg,
};
use crate::jit::ir::{join, kjoin, ktype_of, BinOp, KType};
use crate::natives::{native_arity, native_of, NativeId};
use crate::text::{cat2, cat3, cat6, dec, dec_u64, own};
use vstd::prelude::*;

verus! {

// ---------------------------------------------------------------------------
// Operands and results
// ---------------------------------------------------------------------------

/// How many values a new enum value takes from the stack: as many as its variant
/// has fields.
pub open spec fn enum_fields(m: Module, id: EnumId, k: u16) -> Option<nat> {
    match enum_of(m, id) {
        Some(e) => if k < e.variants@.len() {
            Some(e.variants@[k as int].fields@.len())
        } else {
            None
        },
        None => None,
    }
}

/// Number of operands beneath the receiver, and whether there is a receiver.
pub open spec fn operands(m: Module, op: Op) -> Result<(nat, bool), Seq<char>> {
    match op {
        Op::Conv(_) => Ok((1, false)),
        Op::Stloc(_) => Ok((1, false)),
        Op::Pop => Ok((1, false)),
        Op::Neg => Ok((1, false)),
        Op::Not => Ok((1, false)),
        Op::Hash => Ok((1, false)),
        Op::EnumTag => Ok((1, false)),
        Op::Ldfld(_) => Ok((1, false)),
        Op::Stsfld(_, _) => Ok((1, false)),
        Op::IsInst(_) => Ok((1, false)),
        Op::EnumField(_) => Ok((1, false)),
        Op::TupleField(_) => Ok((1, false)),
        Op::Print => Ok((1, false)),
        Op::Throw => Ok((1, false)),
        Op::Ret => Ok((1, false)),
        Op::BrFalse(_) => Ok((1, false)),
        Op::BrTrue(_) => Ok((1, false)),
        Op::Add => Ok((2, false)),
        Op::Sub => Ok((2, false)),
        Op::Mul => Ok((2, false)),
        Op::Div => Ok((2, false)),
        Op::Rem => Ok((2, false)),
        Op::Eq => Ok((2, false)),
        Op::Lt => Ok((2, false)),
        Op::Le => Ok((2, false)),
        Op::Gt => Ok((2, false)),
        Op::Ge => Ok((2, false)),
        Op::ValueEq => Ok((2, false)),
        Op::And => Ok((2, false)),
        Op::Or => Ok((2, false)),
        Op::Stfld(_) => Ok((1, true)),
        Op::NewClosure(_, count) => Ok((count as nat, false)),
        Op::NewTuple(count) => Ok((count as nat, false)),
        Op::StringConcat(count) => Ok((count as nat, false)),
        Op::Invoke(argc) => Ok((argc as nat, true)),
        Op::Call(id) => match method_of(m, id) {
            Some(d) => Ok((d.params@.len(), false)),
            None => Err("unknown method"@),
        },
        Op::CallSuper(id) => match method_of(m, id) {
            Some(d) => Ok((d.params@.len(), true)),
            None => Err("unknown method"@),
        },
        Op::CallVirt(name) => match virtual_arity_opt(m, name@) {
            Some(a) => Ok((a, true)),
            None => Err("cannot determine arity of virtual call `"@ + name@ + "`"@),
        },
        Op::NativeCall(id) => match native_of(id) {
            Some(n) => Ok((native_arity(n), false)),
            None => Err("unknown native id "@ + dec(id as nat)),
        },
        Op::NewEnum(id, k) => match enum_fields(m, id, k) {
            Some(n) => Ok((n, false)),
            None => Err("unknown enum variant"@),
        },
        Op::Break => Err("Break/Continue should have been resolved"@),
        Op::Continue => Err("Break/Continue should have been resolved"@),
        Op::EndFinally => Err("EndFinally without handlers"@),
        _ => Ok((0, false)),
    }
}

/// How many values an operation takes from the stack.
pub open spec fn operand_count(m: Module, op: Op) -> Result<nat, Seq<char>> {
    match operands(m, op) {
        Ok((n, receiver)) => Ok(n + (if receiver {
            1nat
        } else {
            0nat
        })),
        Err(e) => Err(e),
    }
}

/// The arithmetic or comparison that an operation performs.
pub open spec fn bin_of(op: Op) -> Option<BinOp> {
    match op {
        Op::Add => Some(BinOp::Add),
        Op::Sub => Some(BinOp::Sub),
        Op::Mul => Some(BinOp::Mul),
        Op::Div => Some(BinOp::Div),
        Op::Rem => Some(BinOp::Rem),
        Op::Eq => Some(BinOp::Eq),
        Op::Lt => Some(BinOp::Lt),
        Op::Le => Some(BinOp::Le),
        Op::Gt => Some(BinOp::Gt),
        Op::Ge => Some(BinOp::Ge),
        _ => None,
    }
}

/// Abstract result type of a binary operation: comparisons give truth values,
/// two integers or two floats their own kind; helpers give untyped values.
pub open spec fn bin_kind(op: BinOp, a: KType, b: KType) -> KType {
    if op.compares() {
        KType::Bool
    } else if a == b && (a == KType::Int || a == KType::Float) && !op.divides() {
        a
    } else {
        KType::Unknown
    }
}

/// Whether a binary operation is delegated: divisions always, so that all
/// engines share the treatment of zero divisors and overflow, and whatever is not
/// on two numbers of one kind, but for equality.
pub open spec fn bin_delegated(op: BinOp, a: KType, b: KType) -> bool {
    if op is Eq {
        !(a == b && a != KType::Unknown)
    } else {
        op.divides() || !(a == b && (a == KType::Int || a == KType::Float))
    }
}

/// Abstract result type of a unary operation.
pub open spec fn un_kind(neg: bool, a: KType) -> KType {
    if !neg {
        KType::Bool
    } else if a == KType::Int || a == KType::Float {
        a
    } else {
        KType::Unknown
    }
}

/// Whether a unary operation is delegated.
pub open spec fn un_delegated(neg: bool, a: KType) -> bool {
    if neg {
        !(a == KType::Int || a == KType::Float)
    } else {
        a == KType::Unknown
    }
}

/// Abstract type of the value that an operation pushes, if it pushes one that
/// depends on its operands `args` alone.
pub open spec fn result_kind(op: Op, args: Seq<KType>) -> Option<KType> {
    match bin_of(op) {
        Some(b) => Some(bin_kind(b, args[0], args[1])),
        None => match op {
            Op::LdInt(_) => Some(KType::Int),
            Op::LdInt64(_) => Some(KType::Int),
            Op::LdFloat(_) => Some(KType::Float),
            Op::Conv(ty) => Some(ktype_of(ty)),
            Op::LdBool(_) => Some(KType::Bool),
            Op::LdChar(_) => Some(KType::Char),
            Op::Neg => Some(un_kind(true, args[0])),
            Op::Not => Some(un_kind(false, args[0])),
            Op::ValueEq => Some(KType::Bool),
            Op::And => Some(KType::Bool),
            Op::Or => Some(KType::Bool),
            Op::IsInst(_) => Some(KType::Bool),
            Op::Hash => Some(KType::Int),
            Op::EnumTag => Some(KType::Int),
            Op::LdStr(_) => Some(KType::Unknown),
            Op::LdNull => Some(KType::Unknown),
            Op::NewObj(_, _) => Some(KType::Unknown),
            Op::Ldsfld(_, _) => Some(KType::Unknown),
            Op::NewClosure(_, _) => Some(KType::Unknown),
            Op::Invoke(_) => Some(KType::Unknown),
            Op::Call(_) => Some(KType::Unknown),
            Op::CallVirt(_) => Some(KType::Unknown),
            Op::CallSuper(_) => Some(KType::Unknown),
            Op::Ldfld(_) => Some(KType::Unknown),
            Op::NativeCall(_) => Some(KType::Unknown),
            Op::NewEnum(_, _) => Some(KType::Unknown),
            Op::EnumField(_) => Some(KType::Unknown),
            Op::NewTuple(_) => Some(KType::Unknown),
            Op::TupleField(_) => Some(KType::Unknown),
            Op::StringConcat(_) => Some(KType::Unknown),
            _ => None,
        },
    }
}

/// The arithmetic or comparison that an operation performs.
pub fn bin_op(op: &Op) -> (r: Option<BinOp>)
    ensures
        r == bin_of(*op),
{
    match op {
        Op::Add => Some(BinOp::Add),
        Op::Sub => Some(BinOp::Sub),
        Op::Mul => Some(BinOp::Mul),
        Op::Div => Some(BinOp::Div),
        Op::Rem => Some(BinOp::Rem),
        Op::Eq => Some(BinOp::Eq),
        Op::Lt => Some(BinOp::Lt),
        Op::Le => Some(BinOp::Le),
        Op::Gt => Some(BinOp::Gt),
        Op::Ge => Some(BinOp::Ge),
        _ => None,
    }
}

/// Abstract result type of a binary operation for the given operand types.
pub fn bin_result_kind(op: BinOp, a: KType, b: KType) -> (k: KType)
    ensures
        k == bin_kind(op, a, b),
{
    if op.is_comparison() {
        return KType::Bool;
    }
    if a == b {
        match a {
            KType::Int | KType::Float => {
                if op.is_divrem() {
                    KType::Unknown
                } else {
                    a
                }
            },
            _ => KType::Unknown,
        }
    } else {
        KType::Unknown
    }
}

/// True if a binary operation must be delegated for these operand types.
pub fn bin_use_helper(op: BinOp, a: KType, b: KType) -> (r: bool)
    ensures
        r == bin_delegated(op, a, b),
{
    if matches!(op, BinOp::Eq) {
        return !(a == b && a.is_known());
    }
    if op.is_divrem() {
        return true;
    }
    !(a == b && matches!(a, KType::Int | KType::Float))
}

/// Abstract result type of a unary operation.
pub fn un_result_kind(is_neg: bool, a: KType) -> (k: KType)
    ensures
        k == un_kind(is_neg, a),
{
    if is_neg {
        match a {
            KType::Int | KType::Float => a,
            _ => KType::Unknown,
        }
    } else {
        KType::Bool
    }
}

/// True if a unary operation must be delegated.
pub fn un_use_helper(is_neg: bool, a: KType) -> (r: bool)
    ensures
        r == un_delegated(is_neg, a),
{
    if is_neg {
        !matches!(a, KType::Int | KType::Float)
    } else {
        !a.is_known()
    }
}

fn enum_field_count(m: &Module, id: EnumId, k: u16) -> (r: Option<usize>)
    ensures
        match r {
            Some(n) => enum_fields(*m, id, k) == Some(n as nat),
            None => enum_fields(*m, id, k) is None,
        },
{
    match m.enum_def(id) {
        Some(e) => if (k as usize) < e.variants.len() {
            Some(e.variants[k as usize].fields.len())
        } else {
            None
        },
        None => None,
    }
}

fn find_operands(m: &Module, op: &Op) -> (r: Result<(usize, bool), String>)
    ensures
        match r {
            Ok((n, receiver)) => operands(*m, *op) == Ok::<(nat, bool), Seq<char>>(
                (n as nat, receiver),
            ),
            Err(e) => operands(*m, *op) == Err::<(nat, bool), Seq<char>>(e@),
        },
{
    match op {
        Op::Conv(_)
        | Op::Stloc(_)
        | Op::Pop
        | Op::Neg
        | Op::Not
        | Op::Hash
        | Op::EnumTag
        | Op::Ldfld(_)
        | Op::Stsfld(_, _)
        | Op::IsInst(_)
        | Op::EnumField(_)
        | Op::TupleField(_)
        | Op::Print
        | Op::Throw
        | Op::Ret
        | Op::BrFalse(_)
        | Op::BrTrue(_) => Ok((1, false)),
        Op::Add
        | Op::Sub
        | Op::Mul
        | Op::Div
        | Op::Rem
        | Op::Eq
        | Op::Lt
        | Op::Le
        | Op::Gt
        | Op::Ge
        | Op::ValueEq
        | Op::And
        | Op::Or => Ok((2, false)),
        Op::Stfld(_) => Ok((1, true)),
        Op::NewClosure(_, count) => Ok((*count as usize, false)),
        Op::NewTuple(count) => Ok((*count as usize, false)),
        Op::StringConcat(count) => Ok((*count as usize, false)),
        Op::Invoke(argc) => Ok((*argc as usize, true)),
        Op::Call(id) => match m.method(*id) {
            Some(d) => Ok((d.params.len(), false)),
            None => Err(own("unknown method")),
        },
        Op::CallSuper(id) => match m.method(*id) {
            Some(d) => Ok((d.params.len(), true)),
            None => Err(own("unknown method")),
        },
        Op::CallVirt(name) => match call_virt_arity(m, name.as_str()) {
            Some(a) => Ok((a, true)),
            None => Err(cat3("cannot determine arity of virtual call `", name.as_str(), "`")),
        },
        Op::NativeCall(id) => match NativeId::from_u16(*id) {
            Some(n) => Ok((n.arity(), false)),
            None => {
                let digits: String = dec_u64(*id as u64);
                Err(cat2("unknown native id ", digits.as_str()))
            },
        },
        Op::NewEnum(id, k) => match enum_field_count(m, *id, *k) {
            Some(n) => Ok((n, false)),
            None => Err(own("unknown enum variant")),
        },
        Op::Break | Op::Continue => Err(own("Break/Continue should have been resolved")),
        Op::EndFinally => Err(own("EndFinally without handlers")),
        _ => Ok((0, false)),
    }
}

/// How many of `len` stacked values an operation takes: an error where it
/// takes an unknown number or more than there are.
pub fn take_count(m: &Module, op: &Op, len: usize) -> (r: Result<usize, String>)
    ensures
        match r {
            Ok(n) => operand_count(*m, *op) == Ok::<nat, Seq<char>>(n as nat) && n <= len,
            Err(e) => match operand_count(*m, *op) {
                Ok(n) => n > len && e@ == "stack underflow"@,
                Err(x) => e@ == x,
            },
        },
{
    match find_operands(m, op) {
        Err(e) => Err(e),
        Ok((n, receiver)) => {
            if receiver {
                if len <= n {
                    Err(own("stack underflow"))
                } else {
                    Ok(n + 1)
                }
            } else if len < n {
                Err(own("stack underflow"))
            } else {
                Ok(n)
            }
        },
    }
}

/// Abstract type of the value that an operation pushes.
pub fn find_result_kind(op: &Op, args: &Vec<KType>) -> (r: Option<KType>)
    requires
        bin_of(*op) is Some ==> args@.len() == 2,
        *op is Neg || *op is Not ==> args@.len() == 1,
    ensures
        r == result_kind(*op, args@),
{
    if let Some(b) = bin_op(op) {
        return Some(bin_result_kind(b, args[0], args[1]));
    }
    match op {
        Op::LdInt(_) | Op::LdInt64(_) => Some(KType::Int),
        Op::LdFloat(_) => Some(KType::Float),
        Op::Conv(ty) => Some(KType::from_typedesc(ty)),
        Op::LdBool(_) => Some(KType::Bool),
        Op::LdChar(_) => Some(KType::Char),
        Op::Neg => Some(un_result_kind(true, args[0])),
        Op::Not => Some(un_result_kind(false, args[0])),
        Op::ValueEq | Op::And | Op::Or | Op::IsInst(_) => Some(KType::Bool),
        Op::Hash | Op::EnumTag => Some(KType::Int),
        Op::LdStr(_)
        | Op::LdNull
        | Op::NewObj(_, _)
        | Op::Ldsfld(_, _)
        | Op::NewClosure(_, _)
        | Op::Invoke(_)
        | Op::Call(_)
        | Op::CallVirt(_)
        | Op::CallSuper(_)
        | Op::Ldfld(_)
        | Op::NativeCall(_)
        | Op::NewEnum(_, _)
        | Op::EnumField(_)
        | Op::NewTuple(_)
        | Op::TupleField(_)
        | Op::StringConcat(_) => Some(KType::Unknown),
        _ => None,
    }
}

// ---------------------------------------------------------------------------
// Stack and type analysis
// ---------------------------------------------------------------------------

/// The effect of an operation on the abstract stack and the types of locals.
pub open spec fn sim(m: Module, op: Op, stack: Seq<KType>, locals: Seq<KType>) -> Result<
    (Seq<KType>, Seq<KType>),
    Seq<char>,
> {
    match operand_count(m, op) {
        Err(e) => Err(e),
        Ok(n) => if stack.len() < n {
            Err("stack underflow"@)
        } else {
            let rest = stack.subrange(0, stack.len() - n);
            let args = stack.subrange(stack.len() - n, stack.len() as int);
            match op {
                Op::Dup => Ok(
                    (
                        stack.push(
                            if stack.len() > 0 {
                                stack.last()
                            } else {
                                KType::Unknown
                            },
                        ),
                        locals,
                    ),
                ),
                Op::Ldloc(i) => Ok((stack.push(locals[i as int]), locals)),
                Op::Ldarg(i) => Ok((stack.push(locals[i as int]), locals)),
                Op::Stloc(i) => Ok(
                    (
                        rest,
                        if i < locals.len() {
                            locals.update(i as int, join(locals[i as int], args[0]))
                        } else {
                            locals
                        },
                    ),
                ),
                _ => match result_kind(op, args) {
                    Some(k) => Ok((rest.push(k), locals)),
                    None => Ok((rest, locals)),
                },
            }
        },
    }
}

/// The local that an operation loads exists.
pub open spec fn loads_local(op: Op, locals: int) -> bool {
    match op {
        Op::Ldloc(i) => i < locals,
        Op::Ldarg(i) => i < locals,
        _ => true,
    }
}

/// Every local that the body loads exists.
pub open spec fn loads_locals(body: Seq<Op>, locals: int) -> bool {
    forall|i: int| 0 <= i < body.len() ==> loads_local(#[trigger] body[i], locals)
}

fn sim_op(m: &Module, op: &Op, stack: &mut Vec<KType>, locals: &mut Vec<KType>) -> (r: Result<
    (),
    String,
>)
    requires
        loads_local(*op, old(locals)@.len() as int),
    ensures
        final(locals)@.len() == old(locals)@.len(),
        match r {
            Ok(_) => sim(*m, *op, old(stack)@, old(locals)@) == Ok::<
                (Seq<KType>, Seq<KType>),
                Seq<char>,
            >((final(stack)@, final(locals)@)),
            Err(e) => sim(*m, *op, old(stack)@, old(locals)@) == Err::<
                (Seq<KType>, Seq<KType>),
                Seq<char>,
            >(e@),
        },
{
    let n: usize = match take_count(m, op, stack.len()) {
        Ok(n) => n,
        Err(e) => {
            return Err(e);
        },
    };
    let len: usize = stack.len();
    match op {
        Op::Dup => {
            let k: KType = if len > 0 {
                stack[len - 1]
            } else {
                KType::Unknown
            };
            stack.push(k);
        },
        Op::Ldloc(i) | Op::Ldarg(i) => {
            let k: KType = locals[*i as usize];
            stack.push(k);
        },
        Op::Stloc(i) => {
            let k: KType = stack[len - 1];
            stack.truncate(len - 1);
            let i: usize = *i as usize;
            if i < locals.len() {
                let joined: KType = kjoin(locals[i], k);
                locals.set(i, joined);
            }
        },
        _ => {
            let args: Vec<KType> = stack.split_off(len - n);
            if let Some(k) = find_result_kind(op, &args) {
                stack.push(k);
            }
        },
    }
    Ok(())
}

/// The effect of the operations in `[i, t)`.
pub open spec fn sim_range(
    m: Module,
    body: Seq<Op>,
    i: int,
    t: int,
    stack: Seq<KType>,
    locals: Seq<KType>,
) -> Result<(Seq<KType>, Seq<KType>), Seq<char>>
    decreases t - i,
{
    if i >= t {
        Ok((stack, locals))
    } else {
        match sim(m, body[i], stack, locals) {
            Err(e) => Err(e),
            Ok((s, l)) => sim_range(m, body, i + 1, t, s, l),
        }
    }
}

/// The stack that a block hands to its successors: a conditional branch has
/// taken its condition.
pub open spec fn sim_block(
    m: Module,
    body: Seq<Op>,
    range: (usize, usize),
    stack: Seq<KType>,
    locals: Seq<KType>,
) -> Result<(Seq<KType>, Seq<KType>), Seq<char>> {
    let t = terminator(body, range.0 as int, range.1 as int);
    match sim_range(m, body, range.0 as int, t, stack, locals) {
        Err(e) => Err(e),
        Ok((s, l)) => if t < range.1 && (body[t] is BrFalse || body[t] is BrTrue) {
            if s.len() == 0 {
                Err("stack underflow at branch"@)
            } else {
                Ok((s.drop_last(), l))
            }
        } else {
            Ok((s, l))
        },
    }
}

/// Elementwise join.
pub open spec fn join_all(a: Seq<KType>, b: Seq<KType>) -> Seq<KType> {
    Seq::new(a.len(), |i: int| join(a[i], b[i]))
}

/// The complaint about a block that is entered with different depths.
pub open spec fn height_error(block: int, h: int, height: int) -> Seq<char> {
    "inconsistent stack height for block "@ + dec(block as nat) + ": "@ + dec(h as nat) + " vs "@
        + dec(height as nat)
}

/// The entry state of `block` after an edge with `types` has been added to it.
pub open spec fn merged(old: Option<Seq<KType>>, block: int, types: Seq<KType>) -> Result<
    Seq<KType>,
    Seq<char>,
> {
    match old {
        None => Ok(types),
        Some(have) => if have.len() != types.len() {
            Err(height_error(block, have.len() as int, types.len() as int))
        } else {
            Ok(join_all(have, types))
        },
    }
}

/// The state of the analysis: entry stacks of the blocks, types of the locals,
/// and the blocks that wait to be visited.
#[verifier::ext_equal]
pub ghost struct Flow {
    /// Entry stacks; none for a block that has not been reached.
    pub states: Seq<Option<Seq<KType>>>,
    /// Types of the locals.
    pub locals: Seq<KType>,
    /// Blocks to visit, the next one last.
    pub queue: Seq<usize>,
    /// Whether a block waits in the queue.
    pub queued: Seq<bool>,
}

/// Adds the edges to the successors from `k` on.
pub open spec fn merge_succs(flow: Flow, types: Seq<KType>, succs: Seq<usize>, k: int) -> Result<
    Flow,
    Seq<char>,
>
    decreases succs.len() - k,
{
    if k < 0 || k >= succs.len() {
        Ok(flow)
    } else {
        let s = succs[k] as int;
        match merged(flow.states[s], s, types) {
            Err(e) => Err(e),
            Ok(next) => {
                let changed = flow.states[s] != Some(next);
                let states = flow.states.update(s, Some(next));
                let flow2 = if changed && !flow.queued[s] {
                    Flow {
                        states,
                        locals: flow.locals,
                        queue: flow.queue.push(s as usize),
                        queued: flow.queued.update(s, true),
                    }
                } else {
                    Flow { states, ..flow }
                };
                merge_succs(flow2, types, succs, k + 1)
            },
        }
    }
}

/// How many blocks the analysis may visit.
pub open spec fn visit_limit(blocks: nat) -> nat {
    blocks * 4 + 16
}

/// The analysis from `flow` on, after `visits` visits: blocks are visited, the
/// latest queued first, until no entry state changes any more.
pub open spec fn flow_result(
    m: Module,
    body: Seq<Op>,
    ranges: Seq<(usize, usize)>,
    succs: Seq<Seq<usize>>,
    flow: Flow,
    visits: nat,
) -> Result<Flow, Seq<char>>
    decreases visit_limit(ranges.len()) + 1 - visits, flow.queue.len(),
{
    if flow.queue.len() == 0 {
        Ok(flow)
    } else {
        let b = flow.queue.last() as int;
        let popped = Flow {
            queue: flow.queue.drop_last(),
            queued: flow.queued.update(b, false),
            ..flow
        };
        match flow.states[b] {
            None => flow_result(m, body, ranges, succs, popped, visits),
            Some(stack) => match sim_block(m, body, ranges[b], stack, flow.locals) {
                Err(e) => Err(e),
                Ok((out, locals)) => match merge_succs(
                    Flow { locals, ..popped },
                    out,
                    succs[b],
                    0,
                ) {
                    Err(e) => Err(e),
                    Ok(next) => if visits + 1 > visit_limit(ranges.len()) {
                        Err("analysis did not converge"@)
                    } else {
                        flow_result(m, body, ranges, succs, next, visits + 1)
                    },
                },
            },
        }
    }
}

/// The type with which local `i` starts: that of the parameter it holds.
pub open spec fn initial_local(method: MethodDef, i: int) -> KType {
    let p = i - (if method.is_instance {
        1int
    } else {
        0
    });
    if 0 <= p < method.params@.len() {
        ktype_of(method.params@[p])
    } else {
        KType::Unknown
    }
}

/// The state in which the analysis starts.
pub open spec fn initial_flow(method: MethodDef, blocks: nat) -> Flow {
    Flow {
        states: Seq::new(
            blocks,
            |b: int|
                if b == 0 {
                    Some(Seq::<KType>::empty())
                } else {
                    None
                },
        ),
        locals: Seq::new(method.locals as nat, |i: int| initial_local(method, i)),
        queue: seq![0usize],
        queued: Seq::new(blocks, |b: int| b == 0),
    }
}

/// Values of a list of optional lists.
pub open spec fn states_model(v: Seq<Option<Vec<KType>>>) -> Seq<Option<Seq<KType>>> {
    Seq::new(
        v.len(),
        |i: int|
            match v[i] {
                Some(x) => Some(x@),
                None => None,
            },
    )
}

/// Entry states and local types of the blocks of a method.
pub struct Analysis {
    /// Entry stacks; none for a block that has not been reached.
    pub states: Vec<Option<Vec<KType>>>,
    /// Types of the locals.
    pub local_types: Vec<KType>,
}

/// A copy of a list of abstract types.
pub fn clone_kinds(v: &Vec<KType>) -> (r: Vec<KType>)
    ensures
        r@ == v@,
{
    let mut out: Vec<KType> = Vec::new();
    let mut i: usize = 0;
    while i < v.len()
        invariant
            i <= v.len(),
            out@ == v@.take(i as int),
        decreases v.len() - i,
    {
        out.push(v[i]);
        i = i + 1;
        assert(out@ =~= v@.take(i as int));
    }
    assert(v@.take(v@.len() as int) =~= v@);
    out
}

fn sim_block_exec(
    m: &Module,
    body: &Vec<Op>,
    range: (usize, usize),
    stack: &mut Vec<KType>,
    locals: &mut Vec<KType>,
) -> (r: Result<(), String>)
    requires
        range.0 <= range.1 <= body@.len(),
        loads_locals(body@, old(locals)@.len() as int),
    ensures
        final(locals)@.len() == old(locals)@.len(),
        match r {
            Ok(_) => sim_block(*m, body@, range, old(stack)@, old(locals)@) == Ok::<
                (Seq<KType>, Seq<KType>),
                Seq<char>,
            >((final(stack)@, final(locals)@)),
            Err(e) => sim_block(*m, body@, range, old(stack)@, old(locals)@) == Err::<
                (Seq<KType>, Seq<KType>),
                Seq<char>,
            >(e@),
        },
{
    let t: usize = find_terminator(body, range.0, range.1);
    proof {
        terminator_bounds(body@, range.0 as int, range.1 as int);
    }
    let ghost all = sim_range(*m, body@, range.0 as int, t as int, stack@, locals@);
    let mut i: usize = range.0;
    while i < t
        invariant
            range.0 <= i <= t <= range.1 <= body@.len(),
            loads_locals(body@, locals@.len() as int),
            locals@.len() == old(locals)@.len(),
            t == terminator(body@, range.0 as int, range.1 as int),
            all == sim_range(
                *m,
                body@,
                range.0 as int,
                t as int,
                old(stack)@,
                old(locals)@,
            ),
            all == sim_range(*m, body@, i as int, t as int, stack@, locals@),
        decreases t - i,
    {
        assert(loads_local(body@[i as int], locals@.len() as int));
        match sim_op(m, &body[i], stack, locals) {
            Ok(_) => {},
            Err(e) => {
                return Err(e);
            },
        }
        i = i + 1;
    }
    if t < range.1 {
        if matches!(&body[t], Op::BrFalse(_) | Op::BrTrue(_)) {
            if stack.len() == 0 {
                return Err(own("stack underflow at branch"));
            }
            let ghost before = stack@;
            let last: usize = stack.len() - 1;
            stack.truncate(last);
            assert(stack@ =~= before.drop_last());
        }
    }
    Ok(())
}

/// Merge a predecessor's outgoing types into a block's entry state. Returns
/// whether the entry state changed.
fn merge_state(
    states: &mut Vec<Option<Vec<KType>>>,
    block: usize,
    types: &Vec<KType>,
) -> (r: Result<bool, String>)
    requires
        block < old(states)@.len(),
    ensures
        final(states)@.len() == old(states)@.len(),
        match r {
            Ok(changed) => {
                &&& merged(states_model(old(states)@)[block as int], block as int, types@) is Ok
                &&& ({
                    let next = merged(
                        states_model(old(states)@)[block as int],
                        block as int,
                        types@,
                    )->Ok_0;
                    &&& changed == (states_model(old(states)@)[block as int] != Some(next))
                    &&& states_model(final(states)@) == states_model(old(states)@).update(
                        block as int,
                        Some(next),
                    )
                })
            },
            Err(e) => merged(states_model(old(states)@)[block as int], block as int, types@)
                == Err::<Seq<KType>, Seq<char>>(e@),
        },
{
    let ghost model0 = states_model(states@);
    let mut next: Vec<KType> = Vec::new();
    let mut changed: bool = false;
    match &states[block] {
        None => {
            next = clone_kinds(types);
            changed = true;
        },
        Some(have) => {
            if have.len() != types.len() {
                let a: String = dec_u64(block as u64);
                let b: String = dec_u64(have.len() as u64);
                let c: String = dec_u64(types.len() as u64);
                return Err(
                    cat6(
                        "inconsistent stack height for block ",
                        a.as_str(),
                        ": ",
                        b.as_str(),
                        " vs ",
                        c.as_str(),
                    ),
                );
            }
            let mut i: usize = 0;
            assert(next@ =~= have@.take(0));
            while i < have.len()
                invariant
                    i <= have.len(),
                    have@.len() == types@.len(),
                    next@ == join_all(have@, types@).take(i as int),
                    changed == (next@ != have@.take(i as int)),
                decreases have.len() - i,
            {
                let joined: KType = kjoin(have[i], types[i]);
                let ghost before = next@;
                if joined != have[i] {
                    changed = true;
                }
                next.push(joined);
                i = i + 1;
                proof {
                    assert(next@ =~= join_all(have@, types@).take(i as int));
                    assert(have@.take(i as int) =~= have@.take(i - 1).push(have@[i - 1]));
                    assert(next@.drop_last() =~= before);
                    assert(have@.take(i as int).drop_last() =~= have@.take(i - 1));
                    if next@ == have@.take(i as int) {
                        assert(before == have@.take(i - 1));
                        assert(next@.last() == have@.take(i as int).last());
                    } else if before == have@.take(i - 1) && joined == have@[i - 1] {
                        assert(next@ =~= have@.take(i as int));
                    }
                }
            }
            assert(next@ =~= join_all(have@, types@));
            assert(have@.take(have@.len() as int) =~= have@);
        },
    }
    let ghost value = next@;
    states.set(block, Some(next));
    assert(states_model(states@) =~= model0.update(block as int, Some(value)));
    Ok(changed)
}

fn merge_succs_exec(
    states: &mut Vec<Option<Vec<KType>>>,
    locals: &Vec<KType>,
    queue: &mut Vec<usize>,
    queued: &mut Vec<bool>,
    types: &Vec<KType>,
    succs: &Vec<usize>,
) -> (r: Result<(), String>)
    requires
        old(queued)@.len() == old(states)@.len(),
        forall|k: int| 0 <= k < succs@.len() ==> (#[trigger] succs@[k]) < old(states)@.len(),
        forall|k: int| 0 <= k < old(queue)@.len() ==> (#[trigger] old(queue)@[k]) < old(states)@.len(),
    ensures
        final(states)@.len() == old(states)@.len(),
        final(queued)@.len() == old(queued)@.len(),
        forall|k: int| 0 <= k < final(queue)@.len() ==> (#[trigger] final(queue)@[k]) < old(states)@.len(),
        match r {
            Ok(_) => merge_succs(
                Flow {
                    states: states_model(old(states)@),
                    locals: locals@,
                    queue: old(queue)@,
                    queued: old(queued)@,
                },
                types@,
                succs@,
                0,
            ) == Ok::<Flow, Seq<char>>(
                Flow {
                    states: states_model(final(states)@),
                    locals: locals@,
                    queue: final(queue)@,
                    queued: final(queued)@,
                },
            ),
            Err(e) => merge_succs(
                Flow {
                    states: states_model(old(states)@),
                    locals: locals@,
                    queue: old(queue)@,
                    queued: old(queued)@,
                },
                types@,
                succs@,
                0,
            ) == Err::<Flow, Seq<char>>(e@),
        },
{
    let n: usize = states.len();
    let ghost all = merge_succs(
        Flow {
            states: states_model(states@),
            locals: locals@,
            queue: queue@,
            queued: queued@,
        },
        types@,
        succs@,
        0,
    );
    let mut k: usize = 0;
    while k < succs.len()
        invariant
            k <= succs@.len(),
            n == states@.len(),
            n == old(states)@.len(),
            queued@.len() == n,
            old(queued)@.len() == n,
            forall|k: int| 0 <= k < succs@.len() ==> (#[trigger] succs@[k]) < n,
            forall|k: int| 0 <= k < queue@.len() ==> (#[trigger] queue@[k]) < n,
            all == merge_succs(
                Flow {
                    states: states_model(old(states)@),
                    locals: locals@,
                    queue: old(queue)@,
                    queued: old(queued)@,
                },
                types@,
                succs@,
                0,
            ),
            all == merge_succs(
                Flow {
                    states: states_model(states@),
                    locals: locals@,
                    queue: queue@,
                    queued: queued@,
                },
                types@,
                succs@,
                k as int,
            ),
        decreases succs.len() - k,
    {
        let s: usize = succs[k];
        match merge_state(states, s, types) {
            Err(e) => {
                return Err(e);
            },
            Ok(changed) => {
                if changed && !queued[s] {
                    queued.set(s, true);
                    queue.push(s);
                }
            },
        }
        k = k + 1;
    }
    Ok(())
}

fn initial_states(n: usize) -> (r: Vec<Option<Vec<KType>>>)
    requires
        n > 0,
    ensures
        r@.len() == n,
        states_model(r@) == Seq::new(
            n as nat,
            |b: int|
                if b == 0 {
                    Some(Seq::<KType>::empty())
                } else {
                    None
                },
        ),
{
    let mut out: Vec<Option<Vec<KType>>> = Vec::new();
    let first: Vec<KType> = Vec::new();
    out.push(Some(first));
    while out.len() < n
        invariant
            1 <= out@.len() <= n,
            out@[0] matches Some(v) && v@ == Seq::<KType>::empty(),
            forall|b: int| 1 <= b < out@.len() ==> out@[b] is None,
        decreases n - out.len(),
    {
        out.push(None);
    }
    assert(states_model(out@) =~= Seq::new(
        n as nat,
        |b: int|
            if b == 0 {
                Some(Seq::<KType>::empty())
            } else {
                None
            },
    ));
    out
}

fn initial_locals(method: &MethodDef) -> (r: Vec<KType>)
    ensures
        r@ == Seq::new(method.locals as nat, |i: int| initial_local(*method, i)),
{
    let mut out: Vec<KType> = Vec::new();
    let mut i: usize = 0;
    let n: usize = method.locals as usize;
    while i < n
        invariant
            i <= n,
            n == method.locals,
            out@.len() == i,
            forall|j: int| 0 <= j < i ==> out@[j] == initial_local(*method, j),
        decreases n - i,
    {
        let k: KType = if method.is_instance {
            if i >= 1 && i - 1 < method.params.len() {
                KType::from_typedesc(&method.params[i - 1])
            } else {
                KType::Unknown
            }
        } else if i < method.params.len() {
            KType::from_typedesc(&method.params[i])
        } else {
            KType::Unknown
        };
        out.push(k);
        i = i + 1;
    }
    assert(out@ =~= Seq::new(method.locals as nat, |i: int| initial_local(*method, i)));
    out
}

/// Determine the entry stack of every block and the types of the locals.
pub fn analyze(m: &Module, method: &MethodDef, cfg: &Cfg) -> (r: Result<Analysis, String>)
    requires
        method.body@.len() < usize::MAX / 8,
        cfg.graph_of(method.body@),
        loads_locals(method.body@, method.locals as int),
    ensures
        match r {
            Ok(a) => {
                &&& a.states@.len() == cfg.ranges@.len()
                &&& flow_result(
                    *m,
                    method.body@,
                    cfg.ranges@,
                    lists(cfg.succs@),
                    initial_flow(*method, cfg.ranges@.len()),
                    0,
                ) matches Ok(f) && f.states == states_model(a.states@) && f.locals
                    == a.local_types@
                &&& a.local_types@.len() == method.locals
            },
            Err(e) => flow_result(
                *m,
                method.body@,
                cfg.ranges@,
                lists(cfg.succs@),
                initial_flow(*method, cfg.ranges@.len()),
                0,
            ) == Err::<Flow, Seq<char>>(e@),
        },
{
    let n: usize = cfg.ranges.len();
    let ghost succs = lists(cfg.succs@);
    proof {
        block_ranges_bounds(method.body@);
        blocks_bounded(method.body@);
        succs_bounded(method.body@, *cfg);
    }
    let mut states: Vec<Option<Vec<KType>>> = initial_states(n);
    let mut locals: Vec<KType> = initial_locals(method);
    let mut queue: Vec<usize> = Vec::new();
    queue.push(0);
    let mut queued: Vec<bool> = Vec::new();
    queued.push(true);
    while queued.len() < n
        invariant
            1 <= queued@.len() <= n,
            queued@[0],
            forall|b: int| 1 <= b < queued@.len() ==> !queued@[b],
        decreases n - queued.len(),
    {
        queued.push(false);
    }
    let ghost all = flow_result(
        *m,
        method.body@,
        cfg.ranges@,
        succs,
        initial_flow(*method, n as nat),
        0,
    );
    proof {
        assert(queue@ =~= seq![0usize]);
        assert(queued@ =~= Seq::new(n as nat, |b: int| b == 0));
    }
    let mut visits: usize = 0;
    let limit: usize = n * 4 + 16;
    while queue.len() > 0
        invariant
            n == cfg.ranges@.len(),
            cfg.ranges@ == block_ranges(method.body@),
            cfg.succs@.len() == n,
            succs == lists(cfg.succs@),
            n <= method.body@.len() + 1,
            method.body@.len() < usize::MAX / 8,
            limit == visit_limit(n as nat),
            visits <= limit,
            states@.len() == n,
            queued@.len() == n,
            locals@.len() == method.locals,
            loads_locals(method.body@, method.locals as int),
            forall|k: int| 0 <= k < queue@.len() ==> (#[trigger] queue@[k]) < n,
            forall|k: int|
                0 <= k < n ==> (#[trigger] cfg.ranges@[k]).0 <= cfg.ranges@[k].1
                    <= method.body@.len(),
            forall|b: int, j: int|
                0 <= b < n && 0 <= j < cfg.succs@[b]@.len() ==> (#[trigger] cfg.succs@[b]@[j]) < n,
            all == flow_result(
                *m,
                method.body@,
                cfg.ranges@,
                succs,
                initial_flow(*method, n as nat),
                0,
            ),
            all == flow_result(
                *m,
                method.body@,
                cfg.ranges@,
                succs,
                Flow {
                    states: states_model(states@),
                    locals: locals@,
                    queue: queue@,
                    queued: queued@,
                },
                visits as nat,
            ),
        decreases limit + 1 - visits, queue.len(),
    {
        let last: usize = queue.len() - 1;
        let b: usize = queue[last];
        let ghost queue0 = queue@;
        queue.truncate(last);
        queued.set(b, false);
        assert(queue@ =~= queue0.drop_last());
        let entry: Option<Vec<KType>> = match &states[b] {
            Some(v) => Some(clone_kinds(v)),
            None => None,
        };
        if let Some(mut stack) = entry {
            assert(states_model(states@)[b as int] == Some(stack@));
            match sim_block_exec(m, &method.body, cfg.ranges[b], &mut stack, &mut locals) {
                Ok(_) => {},
                Err(e) => {
                    return Err(e);
                },
            }
            assert(succs[b as int] == cfg.succs@[b as int]@);
            match merge_succs_exec(
                &mut states,
                &locals,
                &mut queue,
                &mut queued,
                &stack,
                &cfg.succs[b],
            ) {
                Ok(_) => {},
                Err(e) => {
                    return Err(e);
                },
            }
            if visits + 1 > limit {
                return Err(own("analysis did not converge"));
            }
            visits = visits + 1;
        }
    }
    Ok(Analysis { states, local_types: locals })
}

proof fn starts_count(body: Seq<Op>, i: int)
    requires
        0 <= i <= body.len() + 1,
    ensures
        starts_from(body, i).len() <= body.len() + 1 - i,
    decreases body.len() + 1 - i,
{
    if i <= body.len() {
        starts_count(body, i + 1);
    }
}

/// There are at most as many blocks as operations, and one.
pub proof fn blocks_bounded(body: Seq<Op>)
    ensures
        block_ranges(body).len() <= body.len() + 1,
{
    starts_count(body, 0);
}

/// Every successor is a block.
pub proof fn succs_bounded(body: Seq<Op>, cfg: Cfg)
    requires
        body.len() < usize::MAX,
        cfg.graph_of(body),
    ensures
        forall|b: int, j: int|
            0 <= b < cfg.ranges@.len() && 0 <= j < cfg.succs@[b]@.len() ==> (
            #[trigger] cfg.succs@[b]@[j]) < cfg.ranges@.len(),
{
    blocks_bounded(body);
    succs_from_index(body, cfg.ranges@, 0);
    let ss = lists(cfg.succs@);
    assert forall|b: int, j: int|
        0 <= b < cfg.ranges@.len() && 0 <= j < cfg.succs@[b]@.len() implies (
    #[trigger] cfg.succs@[b]@[j]) < cfg.ranges@.len() by {
        assert(block_succs(body, cfg.ranges@, 0 + b) == Ok::<Seq<usize>, Seq<char>>(ss[b]));
        block_succs_bounds(body, cfg.ranges@, b);
        assert(ss[b] == cfg.succs@[b]@);
        let found = block_succs(body, cfg.ranges@, b)->Ok_0;
        assert(found[j] < cfg.ranges@.len());
    }
}

} // verus!
