//! What the intermediate representation means, and that lowered code does what
//! the interpreter does.

use crate::bytecode::{method_of, MethodId, Module, Op, TypeDesc};
use crate::jit::folding::{bin_source, un_source};
use crate::jit::ir::{conv_target_of, BinOp, ConvTarget, Insn, InsnModel, KType, UnOp, VReg};
use crate::jit::analyze::{
    bin_delegated, bin_kind, bin_of, operand_count as compiled_count, un_delegated, un_kind,
};
use crate::jit::lower::{
    conv_delegated, define_plain, delegate, delegate_effect, delegated_kind, helper_args, lower, next_reg,
    regs_below, Low, Lowered,
};
use crate::natives::{native_of, NativeId};
use crate::vm::apply::{apply_effect, binary_effect, is_binary, is_unary, unary_effect};
use crate::vm::collections::{dict_effect, dict_in, list_effect, list_in, set_effect, set_in};
use crate::vm::frames::{callee, operands, FrameModel};
use crate::vm::heap::HeapModel;
use crate::vm::machine::{frame_effect, pushed};
use crate::vm::numeric::conv_effect;
use crate::vm::ops::{virtual_effect, StoreModel};
use crate::vm::stdlib::{family, file_effect, native_effect, str_of, text_effect, text_list, Family};
use crate::vm::value::Value;
use crate::vm::world::{Answers, Effect, Fault};
use vstd::prelude::*;

verus! {

/// The state in which lowered code runs: virtual registers, locals, and the heap
/// with the static fields.
pub ghost struct IrState {
    /// Virtual registers.
    pub regs: Map<VReg, Value>,
    /// Locals.
    pub locals: Seq<Value>,
    /// Heap and static fields.
    pub store: StoreModel,
}

/// What surrounds the code: the program, whether overflow is detected, the
/// running methods, the answers, and the body with the delegated operations.
pub ghost struct Around {
    /// The program.
    pub module: Module,
    /// Whether overflow is detected.
    pub checks: bool,
    /// The running methods.
    pub calls: Seq<MethodId>,
    /// The answers.
    pub world: Answers,
    /// The body that was lowered.
    pub body: Seq<Op>,
}

/// A state with a value in a register.
pub open spec fn with_reg(m: IrState, r: VReg, v: Value) -> IrState {
    IrState { regs: m.regs.insert(r, v), ..m }
}

/// The values of registers.
pub open spec fn values(m: IrState, rs: Seq<VReg>) -> Seq<Value> {
    Seq::new(rs.len(), |i: int| m.regs[rs[i]])
}

/// The type to which a conversion converts.
pub open spec fn conv_type(to: ConvTarget) -> TypeDesc {
    match to {
        ConvTarget::Int8 => TypeDesc::Int8,
        ConvTarget::Int16 => TypeDesc::Int16,
        ConvTarget::Int32 => TypeDesc::Int32,
        ConvTarget::Int64 => TypeDesc::Int64,
        ConvTarget::UInt8 => TypeDesc::UInt8,
        ConvTarget::UInt16 => TypeDesc::UInt16,
        ConvTarget::UInt32 => TypeDesc::UInt32,
        ConvTarget::UInt64 => TypeDesc::UInt64,
        ConvTarget::F32 => TypeDesc::Float32,
        ConvTarget::F64 => TypeDesc::Float64,
    }
}

/// A result goes into a register; anything else is handed on.
pub open spec fn into_reg(m: IrState, dst: Option<VReg>, e: Effect) -> (Effect, IrState) {
    match (e, dst) {
        (Effect::Value(v), Some(r)) => (Effect::Nothing, with_reg(m, r, v)),
        (e, _) => (e, m),
    }
}

/// What an instruction does; `helpers` are the positions of the delegated
/// operations in the body.
pub open spec fn insn_meaning(a: Around, helpers: Seq<int>, m: IrState, i: InsnModel) -> (
    Effect,
    IrState,
) {
    match i {
        InsnModel::Helper { dst, op_id, args } => {
            let (e, s) = apply_effect(
                a.module,
                a.checks,
                m.store,
                a.calls,
                a.world,
                a.body[helpers[op_id as int]],
                values(m, args),
            );
            into_reg(IrState { store: s, ..m }, dst, e)
        },
        InsnModel::Plain(p) => match p {
            Insn::ConstInt { dst, val } => (Effect::Nothing, with_reg(m, dst, Value::Int(val))),
            Insn::ConstFloat { dst, bits } => (
                Effect::Nothing,
                with_reg(m, dst, Value::Float(bits)),
            ),
            Insn::ConstBool { dst, val } => (Effect::Nothing, with_reg(m, dst, Value::Bool(val))),
            Insn::ConstChar { dst, ch } => (Effect::Nothing, with_reg(m, dst, Value::Char(ch))),
            Insn::ConstNull { dst } => (Effect::Nothing, with_reg(m, dst, Value::Null)),
            Insn::ConstUnit { dst } => (Effect::Nothing, with_reg(m, dst, Value::Unit)),
            Insn::LdLocal { dst, idx } => (
                Effect::Nothing,
                with_reg(m, dst, m.locals[idx as int]),
            ),
            Insn::StLocal { idx, src } => (
                Effect::Nothing,
                IrState { locals: m.locals.update(idx as int, m.regs[src]), ..m },
            ),
            Insn::Bin { dst, op, a: x, b: y } => into_reg(
                m,
                Some(dst),
                binary_effect(
                    a.module,
                    a.checks,
                    m.store.heap,
                    a.world,
                    bin_source(op),
                    m.regs[x],
                    m.regs[y],
                ),
            ),
            Insn::Un { dst, op, a: x } => into_reg(
                m,
                Some(dst),
                unary_effect(
                    a.module,
                    a.checks,
                    m.store.heap,
                    a.world,
                    un_source(op),
                    m.regs[x],
                ),
            ),
            Insn::Conv { dst, to, src } => into_reg(
                m,
                Some(dst),
                conv_effect(a.checks, a.world, m.regs[src], conv_type(to)),
            ),
            Insn::Helper { .. } => (Effect::Nothing, m),
        },
    }
}

/// What an operation that does not leave the block does in the interpreter: what
/// comes of it, and the store and the frame after it.
pub open spec fn op_meaning(a: Around, s: StoreModel, f: FrameModel, op: Op) -> (
    Effect,
    StoreModel,
    FrameModel,
) {
    match frame_effect(a.module, f, op) {
        Some(Ok(g)) => (Effect::Nothing, s, g),
        Some(Err(e)) => (Effect::Failed(e), s, f),
        None => match operands(a.module, s.heap, op, f.stack) {
            Err(e) => (Effect::Failed(e), s, f),
            Ok((args, rest)) => {
                let (e, later) = apply_effect(
                    a.module,
                    a.checks,
                    s,
                    a.calls,
                    a.world,
                    op,
                    args,
                );
                let g = FrameModel { stack: rest, ..f };
                match e {
                    Effect::Value(v) => (Effect::Nothing, later, pushed(g, v)),
                    e => (e, later, g),
                }
            },
        },
    }
}

/// The operations that a block is made of: all but those that end it, and those
/// that the interpreter does not execute.
pub open spec fn inner(op: Op) -> bool {
    match op {
        Op::Br(_)
        | Op::BrTrue(_)
        | Op::BrFalse(_)
        | Op::Ret
        | Op::EndFinally
        | Op::Break
        | Op::Continue
        | Op::NewClosure(_, _)
        | Op::Invoke(_) => false,
        _ => true,
    }
}

/// The locals that an operation names exist.
pub open spec fn in_range(op: Op, locals: nat) -> bool {
    match op {
        Op::Ldloc(i) | Op::Ldarg(i) | Op::Stloc(i) => i < locals,
        _ => true,
    }
}

/// Lowered code and the interpreter are at the same point: the registers on the
/// stack of the lowering hold the operands, and locals, heap and static fields
/// are the same.
pub open spec fn abreast(st: Low, m: IrState, s: StoreModel, f: FrameModel) -> bool {
    &&& f.stack == values(m, st.stack)
    &&& f.locals == m.locals
    &&& s == m.store
}

/// What the lowering of one operation comes to when it is run.
pub open spec fn run_lowered(a: Around, before: Low, after: Low, m: IrState) -> (Effect, IrState) {
    if after.insns.len() == before.insns.len() {
        (Effect::Nothing, m)
    } else {
        insn_meaning(a, after.helpers, m, after.insns.last())
    }
}

proof fn values_of_parts(m: IrState, rs: Seq<VReg>, n: int)
    requires
        0 <= n <= rs.len(),
    ensures
        values(m, rs.subrange(0, n)) == values(m, rs).subrange(0, n),
        values(m, rs.subrange(n, rs.len() as int)) == values(m, rs).subrange(n, rs.len() as int),
{
    assert(values(m, rs.subrange(0, n)) =~= values(m, rs).subrange(0, n));
    assert(values(m, rs.subrange(n, rs.len() as int)) =~= values(m, rs).subrange(
        n,
        rs.len() as int,
    ));
}

proof fn fresh_reg_is_apart(m: IrState, rs: Seq<VReg>, r: VReg, v: Value)
    requires
        regs_below(rs, r as int),
    ensures
        values(with_reg(m, r, v), rs.push(r)) == values(m, rs).push(v),
        values(with_reg(m, r, v), rs) == values(m, rs),
{
    assert(values(with_reg(m, r, v), rs) =~= values(m, rs));
    assert(values(with_reg(m, r, v), rs.push(r)) =~= values(m, rs).push(v));
}

/// Whether the interpreter works on the frame alone for an operation.
spec fn frame_only(op: Op) -> bool {
    match op {
        Op::Nop
        | Op::LdInt(_)
        | Op::LdInt64(_)
        | Op::LdFloat(_)
        | Op::LdBool(_)
        | Op::LdChar(_)
        | Op::LdNull
        | Op::Ldloc(_)
        | Op::Ldarg(_)
        | Op::Stloc(_)
        | Op::Dup
        | Op::Pop => true,
        _ => false,
    }
}

/// The compiler and the interpreter take the same number of operands.
proof fn counts_agree(module: Module, op: Op)
    requires
        inner(op),
        !frame_only(op),
        !(op is CallVirt) && !(op is CallSuper) && !(op is Stfld),
        compiled_count(module, op) is Ok,
    ensures
        crate::vm::frames::operand_count(module, op) == Ok::<nat, Fault>(
            compiled_count(module, op)->Ok_0,
        ),
{
}

/// What holds after an operation.
spec fn kept_abreast(
    a: Around,
    st: Low,
    after: Low,
    m: IrState,
    s: StoreModel,
    f: FrameModel,
    op: Op,
) -> bool {
    let (e, s1, f1) = op_meaning(a, s, f, op);
    let (d, m1) = run_lowered(a, st, after, m);
    &&& e == d
    &&& m1.store == s1
    &&& e is Nothing || e is Show ==> abreast(after, m1, s1, f1)
    &&& regs_below(after.stack, after.types.len() as int)
}

proof fn frame_op_simulates(
    a: Around,
    locals: Seq<KType>,
    st: Low,
    after: Low,
    m: IrState,
    s: StoreModel,
    f: FrameModel,
    op: Op,
    pc: int,
)
    requires
        frame_only(op),
        in_range(op, f.locals.len()),
        abreast(st, m, s, f),
        regs_below(st.stack, st.types.len() as int),
        st.types.len() <= u32::MAX,
        lower(a.module, locals, a.checks, st, op, pc) == Lowered::Ok(after),
    ensures
        kept_abreast(a, st, after, m, s, f, op),
{
    let len = st.stack.len() as int;
    values_of_parts(m, st.stack, len);
    match op {
        Op::Dup => {
            assert(values(m, after.stack) =~= f.stack.push(f.stack.last()));
        },
        Op::Pop | Op::Stloc(_) => {
            values_of_parts(m, st.stack, len - 1);
            let (d, m1) = run_lowered(a, st, after, m);
            assert(values(m1, after.stack) =~= f.stack.drop_last());
        },
        Op::Nop => {
            assert(after.stack =~= st.stack);
        },
        _ => {
            let (d, m1) = run_lowered(a, st, after, m);
            let r = st.types.len() as u32;
            assert(st.stack.subrange(0, len) =~= st.stack);
            fresh_reg_is_apart(m, st.stack, r, m1.regs[r]);
            assert(m1 == with_reg(m, r, m1.regs[r]));
        },
    }
}

/// An operation that is taken from the stack with its operands, as far as the
/// interpreter goes.
spec fn taken_from(
    a: Around,
    st: Low,
    m: IrState,
    s: StoreModel,
    f: FrameModel,
    op: Op,
    args: Seq<VReg>,
    rest: Seq<VReg>,
) -> bool {
    &&& abreast(st, m, s, f)
    &&& regs_below(rest, st.types.len() as int)
    &&& frame_effect(a.module, f, op) is None
    &&& operands(a.module, s.heap, op, f.stack) == Ok::<(Seq<Value>, Seq<Value>), Fault>(
        (values(m, args), values(m, rest)),
    )
}

proof fn delegated_simulates(
    a: Around,
    st: Low,
    after: Low,
    m: IrState,
    s: StoreModel,
    f: FrameModel,
    op: Op,
    pc: int,
    k: KType,
    args: Seq<VReg>,
    rest: Seq<VReg>,
)
    requires
        taken_from(a, st, m, s, f, op, args, rest),
        st.types.len() <= u32::MAX,
        st.helpers.len() < u32::MAX,
        a.body[pc] == op,
        !silent(op),
        delegate(Low { stack: rest, ..st }, k, pc, args) == Lowered::Ok(after),
    ensures
        kept_abreast(a, st, after, m, s, f, op),
{
    let (e, later) = apply_effect(a.module, a.checks, s, a.calls, a.world, op, values(m, args));
    let r = st.types.len() as u32;
    let m1 = IrState { store: later, ..m };
    assert(values(m1, rest) =~= values(m, rest));
    assert(after.helpers[st.helpers.len() as int] == pc);
    if let Effect::Value(v) = e {
        fresh_reg_is_apart(m1, rest, r, v);
    }
    silent_op_has_no_value(a, s, op, values(m, args));
}

proof fn effect_simulates(
    a: Around,
    st: Low,
    after: Low,
    m: IrState,
    s: StoreModel,
    f: FrameModel,
    op: Op,
    pc: int,
    args: Seq<VReg>,
    rest: Seq<VReg>,
)
    requires
        taken_from(a, st, m, s, f, op, args, rest),
        st.helpers.len() < u32::MAX,
        a.body[pc] == op,
        silent(op),
        delegate_effect(Low { stack: rest, ..st }, pc, args) == Lowered::Ok(after),
    ensures
        kept_abreast(a, st, after, m, s, f, op),
{
    let (e, later) = apply_effect(a.module, a.checks, s, a.calls, a.world, op, values(m, args));
    let m1 = IrState { store: later, ..m };
    assert(values(m1, rest) =~= values(m, rest));
    assert(after.helpers[st.helpers.len() as int] == pc);
    silent_op_has_no_value(a, s, op, values(m, args));
}

/// Operations that give no value.
spec fn silent(op: Op) -> bool {
    op is Stfld || op is Stsfld || op is Print || op is PrintLn || op is Throw
}

/// What an operation with a result may come to.
spec fn not_quiet(e: Effect) -> bool {
    !(e is Nothing) && !(e is Show)
}

proof fn text_native_is_not_quiet(
    module: Module,
    s: StoreModel,
    w: Answers,
    id: NativeId,
    args: Seq<Value>,
    t: Seq<char>,
)
    ensures
        not_quiet(text_effect(module, s, w, id, args, t).0),
{
    assert forall|ts: Seq<Seq<char>>| not_quiet((#[trigger] text_list(s, ts)).0) by {}
}

proof fn native_is_not_quiet(module: Module, s: StoreModel, w: Answers, id: NativeId, args: Seq<Value>)
    ensures
        not_quiet(native_effect(module, s, w, id, args).0),
{
    match family(id) {
        Family::List => {
            if let Some((r, xs)) = list_in(s.heap, args[0]) {
                assert(not_quiet(list_effect(module, s, w, id, args, r, xs).0));
            }
        },
        Family::Dict => {
            if let Some((r, es)) = dict_in(s.heap, args[0]) {
                assert(not_quiet(dict_effect(module, s, w, id, args, r, es).0));
            }
        },
        Family::Items => {
            if let Some((r, xs)) = set_in(s.heap, args[0]) {
                assert(not_quiet(set_effect(module, s, id, args, r, xs).0));
            }
        },
        Family::Text => {
            if let Ok(t) = str_of(s.heap, id, args[0]) {
                text_native_is_not_quiet(module, s, w, id, args, t);
            }
        },
        Family::File => {
            assert forall|path: Seq<char>, t: Seq<char>| not_quiet(
                (#[trigger] file_effect(s, w, id, path, t)).0,
            ) by {}
        },
        _ => {},
    }
}

proof fn plain_is_not_quiet(a: Around, h: HeapModel, op: Op, x: Value, y: Value)
    ensures
        is_binary(op) ==> not_quiet(binary_effect(a.module, a.checks, h, a.world, op, x, y)),
        is_unary(op) ==> not_quiet(unary_effect(a.module, a.checks, h, a.world, op, x)),
{
}

/// An operation either always gives a value when it ends, or never.
proof fn silent_op_has_no_value(a: Around, s: StoreModel, op: Op, args: Seq<Value>)
    ensures
        ({
            let (e, later) = apply_effect(a.module, a.checks, s, a.calls, a.world, op, args);
            &&& silent(op) ==> !(e is Value)
            &&& !silent(op) ==> not_quiet(e)
        }),
{
    if is_binary(op) {
        if args.len() >= 2 {
            plain_is_not_quiet(a, s.heap, op, args[0], args[1]);
        }
    } else if is_unary(op) {
        if args.len() >= 1 {
            plain_is_not_quiet(a, s.heap, op, args[0], args[0]);
        }
    } else if let Op::NativeCall(n) = op {
        if let Some(id) = native_of(n) {
            native_is_not_quiet(a.module, s, a.world, id, args);
        }
    }
}

proof fn inlined_simulates(
    a: Around,
    st: Low,
    after: Low,
    m: IrState,
    s: StoreModel,
    f: FrameModel,
    op: Op,
    k: KType,
    insn: Insn,
    e: Effect,
    args: Seq<VReg>,
    rest: Seq<VReg>,
)
    requires
        taken_from(a, st, m, s, f, op, args, rest),
        st.types.len() <= u32::MAX,
        define_plain(Low { stack: rest, ..st }, k, insn) == Lowered::Ok(after),
        insn_meaning(a, after.helpers, m, InsnModel::Plain(insn)) == into_reg(
            m,
            Some(st.types.len() as u32),
            e,
        ),
        apply_effect(a.module, a.checks, s, a.calls, a.world, op, values(m, args)) == (e, s),
        not_quiet(e),
    ensures
        kept_abreast(a, st, after, m, s, f, op),
{
    let r = st.types.len() as u32;
    if let Effect::Value(v) = e {
        fresh_reg_is_apart(m, rest, r, v);
    }
}

/// The operands of an operation that takes them in the order of the stack.
proof fn taken_in_order(
    a: Around,
    st: Low,
    m: IrState,
    s: StoreModel,
    f: FrameModel,
    op: Op,
)
    requires
        inner(op),
        !frame_only(op),
        !(op is CallVirt) && !(op is CallSuper) && !(op is Stfld),
        abreast(st, m, s, f),
        regs_below(st.stack, st.types.len() as int),
        compiled_count(a.module, op) matches Ok(n) && n <= st.stack.len(),
    ensures
        ({
            let n = compiled_count(a.module, op)->Ok_0 as int;
            let len = st.stack.len() as int;
            taken_from(
                a,
                st,
                m,
                s,
                f,
                op,
                st.stack.subrange(len - n, len),
                st.stack.subrange(0, len - n),
            )
        }),
{
    counts_agree(a.module, op);
    let n = compiled_count(a.module, op)->Ok_0 as int;
    let len = st.stack.len() as int;
    values_of_parts(m, st.stack, len - n);
}

proof fn pair_simulates(
    a: Around,
    locals: Seq<KType>,
    st: Low,
    after: Low,
    m: IrState,
    s: StoreModel,
    f: FrameModel,
    op: Op,
    pc: int,
)
    requires
        bin_of(op) is Some || op is And || op is Or,
        abreast(st, m, s, f),
        regs_below(st.stack, st.types.len() as int),
        st.types.len() <= u32::MAX,
        st.helpers.len() < u32::MAX,
        a.body[pc] == op,
        lower(a.module, locals, a.checks, st, op, pc) == Lowered::Ok(after),
    ensures
        kept_abreast(a, st, after, m, s, f, op),
{
    taken_in_order(a, st, m, s, f, op);
    let len = st.stack.len() as int;
    let args = st.stack.subrange(len - 2, len);
    let rest = st.stack.subrange(0, len - 2);
    let b = match op {
        Op::And => BinOp::And,
        Op::Or => BinOp::Or,
        _ => bin_of(op)->0,
    };
    let (ta, tb) = (st.types[args[0] as int], st.types[args[1] as int]);
    let below = Low { stack: rest, ..st };
    let inlined = if op is And || op is Or {
        ta == KType::Bool && tb == KType::Bool
    } else {
        !bin_delegated(b, ta, tb)
    };
    if inlined {
        let k = if op is And || op is Or {
            KType::Bool
        } else {
            bin_kind(b, ta, tb)
        };
        let e = binary_effect(
            a.module,
            a.checks,
            s.heap,
            a.world,
            op,
            m.regs[args[0]],
            m.regs[args[1]],
        );
        plain_is_not_quiet(a, s.heap, op, m.regs[args[0]], m.regs[args[1]]);
        assert(values(m, args)[0] == m.regs[args[0]] && values(m, args)[1] == m.regs[args[1]]);
        let insn = Insn::Bin { dst: next_reg(below), op: b, a: args[0], b: args[1] };
        inlined_simulates(a, st, after, m, s, f, op, k, insn, e, args, rest);
    } else {
        let k = if op is And || op is Or {
            delegated_kind(a.module, op)
        } else {
            bin_kind(b, ta, tb)
        };
        delegated_simulates(a, st, after, m, s, f, op, pc, k, args, rest);
    }
}

proof fn single_simulates(
    a: Around,
    locals: Seq<KType>,
    st: Low,
    after: Low,
    m: IrState,
    s: StoreModel,
    f: FrameModel,
    op: Op,
    pc: int,
)
    requires
        op is Neg || op is Not || op is Conv,
        abreast(st, m, s, f),
        regs_below(st.stack, st.types.len() as int),
        st.types.len() <= u32::MAX,
        st.helpers.len() < u32::MAX,
        a.body[pc] == op,
        lower(a.module, locals, a.checks, st, op, pc) == Lowered::Ok(after),
    ensures
        kept_abreast(a, st, after, m, s, f, op),
{
    taken_in_order(a, st, m, s, f, op);
    let len = st.stack.len() as int;
    let args = st.stack.subrange(len - 1, len);
    let rest = st.stack.subrange(0, len - 1);
    let x = m.regs[args[0]];
    let t = st.types[args[0] as int];
    let below = Low { stack: rest, ..st };
    let dst = next_reg(below);
    let e = unary_effect(a.module, a.checks, s.heap, a.world, op, x);
    plain_is_not_quiet(a, s.heap, op, x, x);
    assert(values(m, args)[0] == x);
    match op {
        Op::Conv(ty) => match conv_target_of(ty) {
            None => delegated_simulates(a, st, after, m, s, f, op, pc, KType::Unknown, args, rest),
            Some(to) => {
                if conv_delegated(to, t, a.checks) {
                    delegated_simulates(a, st, after, m, s, f, op, pc, to.result(), args, rest);
                } else {
                    let insn = Insn::Conv { dst, to, src: args[0] };
                    inlined_simulates(
                        a,
                        st,
                        after,
                        m,
                        s,
                        f,
                        op,
                        to.result(),
                        insn,
                        e,
                        args,
                        rest,
                    );
                }
            },
        },
        _ => {
            let neg = op is Neg;
            let u = if neg {
                UnOp::Neg
            } else {
                UnOp::Not
            };
            let k = un_kind(neg, t);
            if un_delegated(neg, t) {
                delegated_simulates(a, st, after, m, s, f, op, pc, k, args, rest);
            } else {
                let insn = Insn::Un { dst, op: u, a: args[0] };
                inlined_simulates(a, st, after, m, s, f, op, k, insn, e, args, rest);
            }
        },
    }
}

/// A virtual call takes as many operands as the method takes that it comes to.
pub open spec fn arity_fits(a: Around, s: StoreModel, f: FrameModel, op: Op) -> bool {
    op matches Op::CallVirt(name) ==> f.stack.len() > 0 ==> (virtual_effect(
        a.module,
        s.heap,
        name@,
        seq![f.stack.last()],
    ) matches Effect::Invoke(id, _) ==> (method_of(a.module, id) matches Some(d) && Ok::<
        nat,
        Seq<char>,
    >(d.params@.len() + 1) == compiled_count(a.module, op)))
}

/// The receiver comes first.
proof fn receiver_is_first(m: IrState, stack: Seq<VReg>, n: int)
    requires
        1 <= n <= stack.len(),
    ensures
        ({
            let len = stack.len() as int;
            let args = stack.subrange(len - n, len);
            let all = values(m, stack);
            &&& values(m, seq![args.last()] + args.drop_last()) == seq![all.last()]
                + all.drop_last().subrange(len - n, len - 1)
            &&& values(m, stack.subrange(0, len - n)) == all.drop_last().subrange(0, len - n)
        }),
{
    let len = stack.len() as int;
    let args = stack.subrange(len - n, len);
    let all = values(m, stack);
    assert(values(m, seq![args.last()] + args.drop_last()) =~= seq![all.last()]
        + all.drop_last().subrange(len - n, len - 1));
    assert(values(m, stack.subrange(0, len - n)) =~= all.drop_last().subrange(0, len - n));
}

proof fn received_simulates(
    a: Around,
    locals: Seq<KType>,
    st: Low,
    after: Low,
    m: IrState,
    s: StoreModel,
    f: FrameModel,
    op: Op,
    pc: int,
)
    requires
        op is CallVirt || op is CallSuper || op is Stfld,
        arity_fits(a, s, f, op),
        abreast(st, m, s, f),
        regs_below(st.stack, st.types.len() as int),
        st.types.len() <= u32::MAX,
        st.helpers.len() < u32::MAX,
        a.body[pc] == op,
        lower(a.module, locals, a.checks, st, op, pc) == Lowered::Ok(after),
    ensures
        kept_abreast(a, st, after, m, s, f, op),
{
    let n = compiled_count(a.module, op)->Ok_0 as int;
    let len = st.stack.len() as int;
    let popped = st.stack.subrange(len - n, len);
    let rest = st.stack.subrange(0, len - n);
    let args = helper_args(op, popped);
    receiver_is_first(m, st.stack, n);
    let vs = values(m, args);
    assert(vs[0] == f.stack.last());
    assert(after.helpers[st.helpers.len() as int] == pc);
    assert(frame_effect(a.module, f, op) is None);
    match op {
        Op::Stfld(_) => {
            assert(vs =~= seq![f.stack.last(), f.stack[len - 2]]);
            assert(f.stack.drop_last().subrange(0, len - 2) =~= f.stack.subrange(0, len - 2));
            effect_simulates(a, st, after, m, s, f, op, pc, args, rest);
        },
        _ => {
            match callee(a.module, s.heap, op, f.stack.last()) {
                Ok(id) => {
                    assert(operands(a.module, s.heap, op, f.stack) == Ok::<
                        (Seq<Value>, Seq<Value>),
                        Fault,
                    >((vs, values(m, rest))));
                    delegated_simulates(
                        a,
                        st,
                        after,
                        m,
                        s,
                        f,
                        op,
                        pc,
                        KType::Unknown,
                        args,
                        rest,
                    );
                },
                Err(e) => {
                    assert(apply_effect(a.module, a.checks, s, a.calls, a.world, op, vs) == (
                        Effect::Failed(e),
                        s,
                    ));
                },
            }
        },
    }
}

/// Lowering preserves what an operation does: where lowered code and the
/// interpreter are at the same point, the same comes of the operation in both,
/// and where they go on, they are at the same point again.
pub proof fn operation_law(
    a: Around,
    locals: Seq<KType>,
    st: Low,
    after: Low,
    m: IrState,
    s: StoreModel,
    f: FrameModel,
    op: Op,
    pc: int,
)
    requires
        inner(op),
        in_range(op, f.locals.len()),
        arity_fits(a, s, f, op),
        abreast(st, m, s, f),
        regs_below(st.stack, st.types.len() as int),
        st.types.len() <= u32::MAX,
        st.helpers.len() < u32::MAX,
        a.body[pc] == op,
        lower(a.module, locals, a.checks, st, op, pc) == Lowered::Ok(after),
    ensures
        ({
            let (e, s1, f1) = op_meaning(a, s, f, op);
            let (d, m1) = run_lowered(a, st, after, m);
            &&& e == d
            &&& m1.store == s1
            &&& e is Nothing || e is Show ==> abreast(after, m1, s1, f1)
            &&& regs_below(after.stack, after.types.len() as int)
        }),
{
    if frame_only(op) {
        frame_op_simulates(a, locals, st, after, m, s, f, op, pc);
    } else if op is CallVirt || op is CallSuper || op is Stfld {
        received_simulates(a, locals, st, after, m, s, f, op, pc);
    } else if bin_of(op) is Some || op is And || op is Or {
        pair_simulates(a, locals, st, after, m, s, f, op, pc);
    } else if op is Neg || op is Not || op is Conv {
        single_simulates(a, locals, st, after, m, s, f, op, pc);
    } else {
        taken_in_order(a, st, m, s, f, op);
        let n = compiled_count(a.module, op)->Ok_0 as int;
        let len = st.stack.len() as int;
        let args = st.stack.subrange(len - n, len);
        let rest = st.stack.subrange(0, len - n);
        if silent(op) {
            effect_simulates(a, st, after, m, s, f, op, pc, args, rest);
        } else {
            let k = delegated_kind(a.module, op);
            delegated_simulates(a, st, after, m, s, f, op, pc, k, args, rest);
        }
    }
}

} // verus!
