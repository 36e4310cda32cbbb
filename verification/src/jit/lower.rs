//! Lowering of bytecode into the intermediate representation.
//!
//! Every operation becomes at most one instruction on virtual registers: the
//! operand stack only exists while lowering. At the end of a block the stack
//! is copied into the parameters of each successor.

use crate::bytecode::{
    method_of, same_op, EnumDef, FloatConst, MethodDef, MethodId, Module, Op,
};
use crate::jit::analyze::{
    analyze, bin_delegated, bin_kind, bin_of, bin_op, bin_result_kind, bin_use_helper,
    blocks_bounded, clone_kinds, flow_result, initial_flow, loads_locals, operand_count,
    states_model, succs_bounded, take_count, un_delegated, un_kind, un_result_kind, un_use_helper,
    Analysis,
};
use crate::jit::cfg::{
    block, block_at, block_ranges, block_ranges_bounds, build_cfg, find_terminator, lists, lookup_block,
    preds_upto, reachable_blocks, reaches, succs_from, target_block, terminator, terminator_bounds, Cfg,
};
use crate::jit::ir::{
    blocks_model, clone_regs, conv_target_of, insns_model, ktype_of, moves_model, BinOp, Block,
    BlockModel, ConvTarget, Function, Insn, InsnModel, KType, Term, UnOp, VReg,
};
use crate::text::{cat2, cat3, dec, dec_u64, is_scalar, own};
use vstd::prelude::*;

verus! {

// ---------------------------------------------------------------------------
// One operation
// ---------------------------------------------------------------------------

/// What lowering has produced so far: the types of the virtual registers, the
/// positions of the delegated operations, the instructions of the current
/// block, and the operand stack.
#[verifier::ext_equal]
pub ghost struct Low {
    /// Abstract type of each virtual register.
    pub types: Seq<KType>,
    /// Position in the body of each delegated operation.
    pub helpers: Seq<int>,
    /// Instructions of the current block.
    pub insns: Seq<InsnModel>,
    /// Operand stack.
    pub stack: Seq<VReg>,
}

/// The outcome of a lowering step.
pub type Lowered = Result<Low, Seq<char>>;

/// The next virtual register.
pub open spec fn next_reg(st: Low) -> VReg {
    st.types.len() as u32
}

/// Defines the next register by `insn` and pushes it.
pub open spec fn define(st: Low, k: KType, insn: InsnModel) -> Lowered {
    if st.types.len() >= u32::MAX {
        Err("too many virtual registers"@)
    } else {
        Ok(
            Low {
                types: st.types.push(k),
                helpers: st.helpers,
                insns: st.insns.push(insn),
                stack: st.stack.push(next_reg(st)),
            },
        )
    }
}

/// Defines the next register by an instruction that is not a helper call.
pub open spec fn define_plain(st: Low, k: KType, insn: Insn) -> Lowered {
    define(st, k, InsnModel::Plain(insn))
}

/// Delegates the operation at `pc` and pushes its result.
pub open spec fn delegate(st: Low, k: KType, pc: int, args: Seq<VReg>) -> Lowered {
    define(
        Low { helpers: st.helpers.push(pc), ..st },
        k,
        InsnModel::Helper {
            dst: Some(next_reg(st)),
            op_id: st.helpers.len() as u32,
            args,
        },
    )
}

/// Delegates the operation at `pc`, which has no result.
pub open spec fn delegate_effect(st: Low, pc: int, args: Seq<VReg>) -> Lowered {
    Ok(
        Low {
            helpers: st.helpers.push(pc),
            insns: st.insns.push(
                InsnModel::Helper { dst: None, op_id: st.helpers.len() as u32, args },
            ),
            ..st
        },
    )
}

/// Whether the receiver, which is on top of the stack, goes first.
pub open spec fn receiver_first(op: Op) -> bool {
    op is CallVirt || op is CallSuper || op is Invoke || op is Stfld
}

/// The arguments of a helper call, from the operands in stack order.
pub open spec fn helper_args(op: Op, operands: Seq<VReg>) -> Seq<VReg> {
    if receiver_first(op) {
        seq![operands.last()] + operands.drop_last()
    } else {
        operands
    }
}

/// Whether a conversion is delegated: from a float to an integer (which
/// saturates), to an integer type that may not hold it when overflow is checked,
/// and from what is no number.
pub open spec fn conv_delegated(target: ConvTarget, src: KType, checks: bool) -> bool {
    ||| target.to_int() && src == KType::Float
    ||| src == KType::Int && checks && (target.narrows() || target is UInt64)
    ||| src != KType::Int && src != KType::Float
}

/// The abstract type of field `idx` in the variants from `v` on of enum `e`
/// and in the later enums, given the type `acc` of the earlier ones. None
/// where two variants disagree.
pub open spec fn field_type_from(
    enums: Seq<(crate::bytecode::EnumId, EnumDef)>,
    e: int,
    v: int,
    idx: int,
    acc: Option<KType>,
) -> Option<KType>
    decreases enums.len() - e, (if 0 <= e < enums.len() { enums[e].1.variants@.len() - v } else { 0 }),
{
    if e < 0 || e >= enums.len() {
        acc
    } else if v < 0 || v >= enums[e].1.variants@.len() {
        field_type_from(enums, e + 1, 0, idx, acc)
    } else {
        let fields = enums[e].1.variants@[v].fields@;
        if 0 <= idx < fields.len() {
            let k = ktype_of(fields[idx].ty);
            match acc {
                None => field_type_from(enums, e, v + 1, idx, Some(k)),
                Some(k0) => if k0 != k {
                    None
                } else {
                    field_type_from(enums, e, v + 1, idx, acc)
                },
            }
        } else {
            field_type_from(enums, e, v + 1, idx, acc)
        }
    }
}

/// The abstract type that field `idx` has in all variants of all enums.
pub open spec fn field_type(m: Module, idx: int) -> KType {
    match field_type_from(m.enums@, 0, 0, idx, None) {
        Some(k) => k,
        None => KType::Unknown,
    }
}

/// The abstract type of the result of a delegated operation.
pub open spec fn delegated_kind(m: Module, op: Op) -> KType {
    match op {
        Op::ValueEq => KType::Bool,
        Op::And => KType::Bool,
        Op::Or => KType::Bool,
        Op::IsInst(_) => KType::Bool,
        Op::EnumTag => KType::Int,
        Op::Hash => KType::Int,
        Op::EnumField(idx) => field_type(m, idx as int),
        _ => KType::Unknown,
    }
}

/// Lowers the operation `op` at `pc`. `locals` are the types of the locals.
pub open spec fn lower(
    m: Module,
    locals: Seq<KType>,
    checks: bool,
    st: Low,
    op: Op,
    pc: int,
) -> Lowered {
    match op {
        Op::Dup => if st.stack.len() == 0 {
            Err("stack underflow at dup"@)
        } else {
            Ok(Low { stack: st.stack.push(st.stack.last()), ..st })
        },
        _ => match operand_count(m, op) {
            Err(e) => Err(e),
            Ok(n) => if st.stack.len() < n {
                Err("stack underflow"@)
            } else {
                let len = st.stack.len() as int;
                let args = st.stack.subrange(len - n, len);
                let st = Low { stack: st.stack.subrange(0, len - n), ..st };
                lower_with(m, locals, checks, st, op, pc, args)
            },
        },
    }
}

/// Lowers the operation `op` at `pc` whose operands `args` have been popped.
pub open spec fn lower_with(
    m: Module,
    locals: Seq<KType>,
    checks: bool,
    st: Low,
    op: Op,
    pc: int,
    args: Seq<VReg>,
) -> Lowered {
    let dst = next_reg(st);
    match op {
        Op::LdInt(i) => define_plain(st, KType::Int, Insn::ConstInt { dst, val: i as i64 }),
        Op::LdInt64(i) => define_plain(st, KType::Int, Insn::ConstInt { dst, val: i }),
        Op::LdFloat(idx) => if idx >= m.float_pool@.len() {
            Err("float constant out of range"@)
        } else {
            match m.float_pool@[idx as int] {
                FloatConst::Bits(bits) => define_plain(
                    st,
                    KType::Float,
                    Insn::ConstFloat { dst, bits },
                ),
                FloatConst::Bad(e) => Err("bad float constant: "@ + e@),
            }
        },
        Op::LdBool(b) => define_plain(st, KType::Bool, Insn::ConstBool { dst, val: b }),
        Op::LdChar(c) => define_plain(
            st,
            KType::Char,
            Insn::ConstChar {
                dst,
                ch: if is_scalar(c) {
                    c as char
                } else {
                    '\0'
                },
            },
        ),
        Op::LdNull => define_plain(st, KType::Unknown, Insn::ConstNull { dst }),
        Op::Ldloc(idx) => define_plain(st, locals[idx as int], Insn::LdLocal { dst, idx }),
        Op::Ldarg(idx) => define_plain(st, locals[idx as int], Insn::LdLocal { dst, idx }),
        Op::Stloc(idx) => Ok(
            Low {
                insns: st.insns.push(InsnModel::Plain(Insn::StLocal { idx, src: args[0] })),
                ..st
            },
        ),
        Op::Conv(ty) => match conv_target_of(ty) {
            None => delegate(st, KType::Unknown, pc, args),
            Some(to) => if conv_delegated(to, st.types[args[0] as int], checks) {
                delegate(st, to.result(), pc, args)
            } else {
                define_plain(st, to.result(), Insn::Conv { dst, to, src: args[0] })
            },
        },
        Op::Neg => lower_unary(st, UnOp::Neg, pc, args),
        Op::Not => lower_unary(st, UnOp::Not, pc, args),
        Op::And => lower_logical(m, st, op, BinOp::And, pc, args),
        Op::Or => lower_logical(m, st, op, BinOp::Or, pc, args),
        Op::Nop => Ok(st),
        Op::Pop => Ok(st),
        Op::Br(_) => Ok(st),
        Op::BrFalse(_) => Ok(st),
        Op::BrTrue(_) => Ok(st),
        Op::Ret => Ok(st),
        Op::Stfld(_) => delegate_effect(st, pc, helper_args(op, args)),
        Op::Stsfld(_, _) => delegate_effect(st, pc, args),
        Op::Print => delegate_effect(st, pc, args),
        Op::PrintLn => delegate_effect(st, pc, args),
        Op::Throw => delegate_effect(st, pc, args),
        _ => match bin_of(op) {
            Some(b) => {
                let (ta, tb) = (st.types[args[0] as int], st.types[args[1] as int]);
                if bin_delegated(b, ta, tb) {
                    delegate(st, bin_kind(b, ta, tb), pc, args)
                } else {
                    define_plain(
                        st,
                        bin_kind(b, ta, tb),
                        Insn::Bin { dst, op: b, a: args[0], b: args[1] },
                    )
                }
            },
            None => delegate(st, delegated_kind(m, op), pc, helper_args(op, args)),
        },
    }
}

/// Lowers a negation or logical not.
pub open spec fn lower_unary(st: Low, op: UnOp, pc: int, args: Seq<VReg>) -> Lowered {
    let k = st.types[args[0] as int];
    let neg = op == UnOp::Neg;
    if un_delegated(neg, k) {
        delegate(st, un_kind(neg, k), pc, args)
    } else {
        define_plain(st, un_kind(neg, k), Insn::Un { dst: next_reg(st), op, a: args[0] })
    }
}

/// Lowers a conjunction or disjunction.
pub open spec fn lower_logical(
    m: Module,
    st: Low,
    op: Op,
    bop: BinOp,
    pc: int,
    args: Seq<VReg>,
) -> Lowered {
    if st.types[args[0] as int] == KType::Bool && st.types[args[1] as int] == KType::Bool {
        define_plain(
            st,
            KType::Bool,
            Insn::Bin { dst: next_reg(st), op: bop, a: args[0], b: args[1] },
        )
    } else {
        delegate(st, delegated_kind(m, op), pc, args)
    }
}

fn find_field_type(m: &Module, idx: u16) -> (k: KType)
    ensures
        k == field_type(*m, idx as int),
{
    let mut acc: Option<KType> = None;
    let mut e: usize = 0;
    while e < m.enums.len()
        invariant
            e <= m.enums@.len(),
            field_type_from(m.enums@, 0, 0, idx as int, None) == field_type_from(
                m.enums@,
                e as int,
                0,
                idx as int,
                acc,
            ),
        decreases m.enums.len() - e,
    {
        let mut v: usize = 0;
        while v < m.enums[e as usize].1.variants.len()
            invariant
                e < m.enums@.len(),
                v <= m.enums@[e as int].1.variants@.len(),
                field_type_from(m.enums@, 0, 0, idx as int, None) == field_type_from(
                    m.enums@,
                    e as int,
                    v as int,
                    idx as int,
                    acc,
                ),
            decreases m.enums@[e as int].1.variants@.len() - v,
        {
            let variant = &m.enums[e].1.variants[v];
            if (idx as usize) < variant.fields.len() {
                let k: KType = KType::from_typedesc(&variant.fields[idx as usize].ty);
                match acc {
                    None => {
                        acc = Some(k);
                    },
                    Some(k0) => {
                        if k0 != k {
                            return KType::Unknown;
                        }
                    },
                }
            }
            v = v + 1;
        }
        e = e + 1;
    }
    match acc {
        Some(k) => k,
        None => KType::Unknown,
    }
}

/// The state of lowering.
struct Lowering {
    types: Vec<KType>,
    helper_ops: Vec<Op>,
    insns: Vec<Insn>,
    stack: Vec<VReg>,
    helpers: Ghost<Seq<int>>,
}

/// `ops` are the operations of `body` at the positions `pcs`.
pub open spec fn ops_at(ops: Seq<Op>, body: Seq<Op>, pcs: Seq<int>) -> bool {
    &&& ops.len() == pcs.len()
    &&& forall|k: int|
        0 <= k < ops.len() ==> 0 <= #[trigger] pcs[k] < body.len() && same_op(ops[k], body[pcs[k]])
}

/// Every register on the stack is one of `n`.
pub open spec fn regs_below(stack: Seq<VReg>, n: int) -> bool {
    forall|k: int| 0 <= k < stack.len() ==> (#[trigger] stack[k]) < n
}

impl Lowering {
    spec fn model(&self) -> Low {
        Low {
            types: self.types@,
            helpers: self.helpers@,
            insns: insns_model(self.insns@),
            stack: self.stack@,
        }
    }

    spec fn wf(&self, body: Seq<Op>) -> bool {
        &&& ops_at(self.helper_ops@, body, self.helpers@)
        &&& regs_below(self.stack@, self.types@.len() as int)
        &&& self.types@.len() <= u32::MAX
        &&& body.len() <= u32::MAX
    }

    /// The next virtual register, if there is one.
    fn fresh(&self) -> (r: Result<VReg, String>)
        requires
            self.types@.len() <= u32::MAX,
        ensures
            match r {
                Ok(v) => self.types@.len() < u32::MAX && v == next_reg(self.model()),
                Err(e) => self.types@.len() >= u32::MAX && e@ == "too many virtual registers"@,
            },
    {
        if self.types.len() >= u32::MAX as usize {
            Err(own("too many virtual registers"))
        } else {
            Ok(self.types.len() as u32)
        }
    }

    fn define(&mut self, k: KType, v: VReg, insn: Insn, body: Ghost<Seq<Op>>)
        requires
            old(self).wf(body@),
            old(self).types@.len() < u32::MAX,
            v == next_reg(old(self).model()),
        ensures
            final(self).wf(body@),
            define(old(self).model(), k, insn@) == Lowered::Ok(final(self).model()),
            final(self).helper_ops@.len() == old(self).helper_ops@.len(),
    {
        let ghost m0 = self.model();
        let ghost value = insn@;
        self.types.push(k);
        self.insns.push(insn);
        self.stack.push(v);
        assert(insns_model(self.insns@) =~= m0.insns.push(value));
        assert(self.stack@ =~= m0.stack.push(v));
    }

    fn helper_op(&mut self, op: &Op, pc: usize, body: Ghost<Seq<Op>>) -> (id: u32)
        requires
            old(self).wf(body@),
            pc < body@.len(),
            *op == body@[pc as int],
            old(self).helper_ops@.len() < u32::MAX,
        ensures
            final(self).wf(body@),
            id == old(self).helpers@.len(),
            final(self).model() == (Low {
                helpers: old(self).model().helpers.push(pc as int),
                ..old(self).model()
            }),
            final(self).helper_ops@.len() == old(self).helper_ops@.len() + 1,
    {
        let id: u32 = self.helper_ops.len() as u32;
        self.helper_ops.push(op.clone());
        proof {
            self.helpers@ = self.helpers@.push(pc as int);
        }
        id
    }

    fn delegate(&mut self, k: KType, op: &Op, pc: usize, args: Vec<VReg>, body: Ghost<Seq<Op>>) -> (r:
        Result<(), String>)
        requires
            old(self).wf(body@),
            pc < body@.len(),
            *op == body@[pc as int],
            old(self).helper_ops@.len() < u32::MAX,
        ensures
            match r {
                Ok(_) => final(self).wf(body@) && delegate(old(self).model(), k, pc as int, args@)
                    == Lowered::Ok(final(self).model()) && final(self).helper_ops@.len()
                    == old(self).helper_ops@.len() + 1,
                Err(e) => delegate(old(self).model(), k, pc as int, args@) == Lowered::Err(e@),
            },
    {
        let v: VReg = match self.fresh() {
            Ok(v) => v,
            Err(e) => {
                return Err(e);
            },
        };
        let op_id: u32 = self.helper_op(op, pc, Ghost(body@));
        self.define(k, v, Insn::Helper { dst: Some(v), op_id, args }, Ghost(body@));
        Ok(())
    }

    fn delegate_effect(&mut self, op: &Op, pc: usize, args: Vec<VReg>, body: Ghost<Seq<Op>>)
        requires
            old(self).wf(body@),
            pc < body@.len(),
            *op == body@[pc as int],
            old(self).helper_ops@.len() < u32::MAX,
        ensures
            final(self).wf(body@),
            delegate_effect(old(self).model(), pc as int, args@) == Lowered::Ok(
                final(self).model(),
            ),
            final(self).helper_ops@.len() == old(self).helper_ops@.len() + 1,
    {
        let op_id: u32 = self.helper_op(op, pc, Ghost(body@));
        let ghost m0 = self.model();
        let insn: Insn = Insn::Helper { dst: None, op_id, args };
        let ghost value = insn@;
        self.insns.push(insn);
        assert(insns_model(self.insns@) =~= m0.insns.push(value));
    }

    fn define_fresh(&mut self, k: KType, insn: Insn, body: Ghost<Seq<Op>>)
        requires
            old(self).wf(body@),
            old(self).types@.len() < u32::MAX,
            !(insn is Helper),
        ensures
            final(self).wf(body@),
            define_plain(old(self).model(), k, insn) == Lowered::Ok(final(self).model()),
            final(self).helper_ops@.len() == old(self).helper_ops@.len(),
    {
        let v: VReg = self.types.len() as u32;
        self.define(k, v, insn, Ghost(body@));
    }
}

/// The operands with the receiver, which is last, in front.
fn receiver_to_front(args: Vec<VReg>) -> (r: Vec<VReg>)
    requires
        args@.len() > 0,
    ensures
        r@ == seq![args@.last()] + args@.drop_last(),
{
    let n: usize = args.len();
    let mut out: Vec<VReg> = Vec::new();
    out.push(args[n - 1]);
    let mut i: usize = 0;
    while i < n - 1
        invariant
            n == args@.len(),
            n > 0,
            i <= n - 1,
            out@ == seq![args@.last()] + args@.drop_last().take(i as int),
        decreases n - 1 - i,
    {
        out.push(args[i]);
        i = i + 1;
        assert(out@ =~= seq![args@.last()] + args@.drop_last().take(i as int));
    }
    assert(out@ =~= seq![args@.last()] + args@.drop_last());
    out
}

impl Lowering {
    /// Lower one operation into the current block.
    fn lower_op(
        &mut self,
        m: &Module,
        locals: &Vec<KType>,
        checks: bool,
        op: &Op,
        pc: usize,
        body: Ghost<Seq<Op>>,
    ) -> (r: Result<(), String>)
        requires
            old(self).wf(body@),
            pc < body@.len(),
            *op == body@[pc as int],
            old(self).helper_ops@.len() < u32::MAX,
            loads_locals(body@, locals@.len() as int),
        ensures
            match r {
                Ok(_) => final(self).wf(body@) && lower(
                    *m,
                    locals@,
                    checks,
                    old(self).model(),
                    *op,
                    pc as int,
                ) == Lowered::Ok(final(self).model()) && final(self).helper_ops@.len()
                    <= old(self).helper_ops@.len() + 1,
                Err(e) => lower(*m, locals@, checks, old(self).model(), *op, pc as int)
                    == Lowered::Err(e@),
            },
    {
        if matches!(op, Op::Dup) {
            let len: usize = self.stack.len();
            if len == 0 {
                return Err(own("stack underflow at dup"));
            }
            let v: VReg = self.stack[len - 1];
            self.stack.push(v);
            return Ok(());
        }
        let len: usize = self.stack.len();
        let n: usize = match take_count(m, op, len) {
            Ok(n) => n,
            Err(e) => {
                return Err(e);
            },
        };
        let ghost before = self.stack@;
        let args: Vec<VReg> = self.stack.split_off(len - n);
        proof {
            assert(regs_below(self.stack@, self.types@.len() as int));
            assert forall|k: int| 0 <= k < args@.len() implies (#[trigger] args@[k])
                < self.types@.len() by {
                assert(args@[k] == before[len - n + k]);
            }
        }
        self.lower_args(m, locals, checks, op, pc, args, Ghost(body@))
    }

    fn lower_args(
        &mut self,
        m: &Module,
        locals: &Vec<KType>,
        checks: bool,
        op: &Op,
        pc: usize,
        args: Vec<VReg>,
        body: Ghost<Seq<Op>>,
    ) -> (r: Result<(), String>)
        requires
            old(self).wf(body@),
            pc < body@.len(),
            *op == body@[pc as int],
            !(*op is Dup),
            old(self).helper_ops@.len() < u32::MAX,
            loads_locals(body@, locals@.len() as int),
            operand_count(*m, *op) == Ok::<nat, Seq<char>>(args@.len()),
            regs_below(args@, old(self).types@.len() as int),
        ensures
            match r {
                Ok(_) => final(self).wf(body@) && lower_with(
                    *m,
                    locals@,
                    checks,
                    old(self).model(),
                    *op,
                    pc as int,
                    args@,
                ) == Lowered::Ok(final(self).model()) && final(self).helper_ops@.len()
                    <= old(self).helper_ops@.len() + 1,
                Err(e) => lower_with(
                    *m,
                    locals@,
                    checks,
                    old(self).model(),
                    *op,
                    pc as int,
                    args@,
                ) == Lowered::Err(e@),
            },
    {
        assert(crate::jit::analyze::loads_local(body@[pc as int], locals@.len() as int));
        match op {
            Op::LdInt(i) => {
                let dst: VReg = self.fresh()?;
                self.define_fresh(
                    KType::Int,
                    Insn::ConstInt { dst, val: *i as i64 },
                    Ghost(body@),
                );
            },
            Op::LdInt64(i) => {
                let dst: VReg = self.fresh()?;
                self.define_fresh(KType::Int, Insn::ConstInt { dst, val: *i }, Ghost(body@));
            },
            Op::LdFloat(idx) => {
                let i: usize = *idx as usize;
                if i >= m.float_pool.len() {
                    return Err(own("float constant out of range"));
                }
                match &m.float_pool[i] {
                    FloatConst::Bits(bits) => {
                        let dst: VReg = self.fresh()?;
                        self.define_fresh(
                            KType::Float,
                            Insn::ConstFloat { dst, bits: *bits },
                            Ghost(body@),
                        );
                    },
                    FloatConst::Bad(e) => {
                        return Err(cat2("bad float constant: ", e.as_str()));
                    },
                }
            },
            Op::LdBool(b) => {
                let dst: VReg = self.fresh()?;
                self.define_fresh(KType::Bool, Insn::ConstBool { dst, val: *b }, Ghost(body@));
            },
            Op::LdChar(c) => {
                let ch: char = match char::from_u32(*c) {
                    Some(ch) => ch,
                    None => '\0',
                };
                let dst: VReg = self.fresh()?;
                self.define_fresh(KType::Char, Insn::ConstChar { dst, ch }, Ghost(body@));
            },
            Op::LdNull => {
                let dst: VReg = self.fresh()?;
                self.define_fresh(KType::Unknown, Insn::ConstNull { dst }, Ghost(body@));
            },
            Op::Ldloc(idx) | Op::Ldarg(idx) => {
                let k: KType = locals[*idx as usize];
                let dst: VReg = self.fresh()?;
                self.define_fresh(k, Insn::LdLocal { dst, idx: *idx }, Ghost(body@));
            },
            Op::Stloc(idx) => {
                let ghost m0 = self.model();
                let insn: Insn = Insn::StLocal { idx: *idx, src: args[0] };
                let ghost value = insn@;
                self.insns.push(insn);
                assert(insns_model(self.insns@) =~= m0.insns.push(value));
            },
            Op::Conv(ty) => {
                let src: VReg = args[0];
                let src_kind: KType = self.types[src as usize];
                match ConvTarget::from_typedesc(ty) {
                    None => {
                        return self.delegate(KType::Unknown, op, pc, args, Ghost(body@));
                    },
                    Some(to) => {
                        let needs_helper: bool = (to.is_int() && src_kind == KType::Float) || (
                        src_kind == KType::Int && checks && (to.is_narrowing_int() || matches!(
                            to,
                            ConvTarget::UInt64
                        ))) || !matches!(src_kind, KType::Int | KType::Float);
                        if needs_helper {
                            return self.delegate(to.result_ktype(), op, pc, args, Ghost(body@));
                        }
                        let dst: VReg = self.fresh()?;
                        self.define_fresh(
                            to.result_ktype(),
                            Insn::Conv { dst, to, src },
                            Ghost(body@),
                        );
                    },
                }
            },
            Op::Neg | Op::Not => {
                let a: VReg = args[0];
                let k: KType = self.types[a as usize];
                let is_neg: bool = matches!(op, Op::Neg);
                let result: KType = un_result_kind(is_neg, k);
                if un_use_helper(is_neg, k) {
                    return self.delegate(result, op, pc, args, Ghost(body@));
                }
                let uop: UnOp = if is_neg {
                    UnOp::Neg
                } else {
                    UnOp::Not
                };
                let dst: VReg = self.fresh()?;
                self.define_fresh(result, Insn::Un { dst, op: uop, a }, Ghost(body@));
            },
            Op::And | Op::Or => {
                let (a, b) = (args[0], args[1]);
                let (ta, tb) = (self.types[a as usize], self.types[b as usize]);
                if ta == KType::Bool && tb == KType::Bool {
                    let bop: BinOp = if matches!(op, Op::And) {
                        BinOp::And
                    } else {
                        BinOp::Or
                    };
                    let dst: VReg = self.fresh()?;
                    self.define_fresh(KType::Bool, Insn::Bin { dst, op: bop, a, b }, Ghost(body@));
                } else {
                    return self.delegate(KType::Bool, op, pc, args, Ghost(body@));
                }
            },
            Op::Nop | Op::Pop | Op::Br(_) | Op::BrFalse(_) | Op::BrTrue(_) | Op::Ret => {},
            Op::Stfld(_) => {
                let args: Vec<VReg> = receiver_to_front(args);
                self.delegate_effect(op, pc, args, Ghost(body@));
            },
            Op::Stsfld(_, _) | Op::Print | Op::PrintLn | Op::Throw => {
                self.delegate_effect(op, pc, args, Ghost(body@));
            },
            _ => {
                if let Some(bop) = bin_op(op) {
                    let (a, b) = (args[0], args[1]);
                    let (ta, tb) = (self.types[a as usize], self.types[b as usize]);
                    let result: KType = bin_result_kind(bop, ta, tb);
                    if bin_use_helper(bop, ta, tb) {
                        return self.delegate(result, op, pc, args, Ghost(body@));
                    }
                    let dst: VReg = self.fresh()?;
                    self.define_fresh(result, Insn::Bin { dst, op: bop, a, b }, Ghost(body@));
                } else {
                    return self.delegate_plain(m, op, pc, args, Ghost(body@));
                }
            },
        }
        Ok(())
    }

    fn delegate_plain(
        &mut self,
        m: &Module,
        op: &Op,
        pc: usize,
        args: Vec<VReg>,
        body: Ghost<Seq<Op>>,
    ) -> (r: Result<(), String>)
        requires
            old(self).wf(body@),
            pc < body@.len(),
            *op == body@[pc as int],
            old(self).helper_ops@.len() < u32::MAX,
            receiver_first(*op) ==> args@.len() > 0,
        ensures
            match r {
                Ok(_) => final(self).wf(body@) && delegate(
                    old(self).model(),
                    delegated_kind(*m, *op),
                    pc as int,
                    helper_args(*op, args@),
                ) == Lowered::Ok(final(self).model()) && final(self).helper_ops@.len()
                    == old(self).helper_ops@.len() + 1,
                Err(e) => delegate(
                    old(self).model(),
                    delegated_kind(*m, *op),
                    pc as int,
                    helper_args(*op, args@),
                ) == Lowered::Err(e@),
            },
    {
        let k: KType = match op {
            Op::ValueEq | Op::And | Op::Or | Op::IsInst(_) => KType::Bool,
            Op::EnumTag | Op::Hash => KType::Int,
            Op::EnumField(idx) => find_field_type(m, *idx),
            _ => KType::Unknown,
        };
        let args: Vec<VReg> = if matches!(op, Op::CallVirt(_) | Op::CallSuper(_) | Op::Invoke(_) | Op::Stfld(_)) {
            receiver_to_front(args)
        } else {
            args
        };
        self.delegate(k, op, pc, args, Ghost(body@))
    }
}

// ---------------------------------------------------------------------------
// Blocks
// ---------------------------------------------------------------------------

/// What lowering goes by: the method and the outcome of the analysis.
pub ghost struct Plan {
    /// The program.
    pub module: Module,
    /// Operations of the method.
    pub body: Seq<Op>,
    /// Whether integer overflow is checked.
    pub checks: bool,
    /// Start and end of each block.
    pub ranges: Seq<(usize, usize)>,
    /// Successors of each block.
    pub succs: Seq<Seq<usize>>,
    /// Types of the locals.
    pub locals: Seq<KType>,
    /// Parameters of each block.
    pub params: Seq<Seq<VReg>>,
    /// Whether each block is reachable.
    pub reach: Seq<bool>,
}

/// Lowers the operations in `[i, t)`.
pub open spec fn lower_range(p: Plan, i: int, t: int, st: Low) -> Lowered
    decreases t - i,
{
    if i >= t {
        Ok(st)
    } else {
        match lower(p.module, p.locals, p.checks, st, p.body[i], i) {
            Err(e) => Err(e),
            Ok(next) => lower_range(p, i + 1, t, next),
        }
    }
}

/// The moves of an edge into a block with parameters `params`, from the `j`th
/// on: each parameter takes the stack slot of its position. A slot that is not
/// there is filled with null.
pub open spec fn edge_from(
    st: Low,
    params: Seq<VReg>,
    j: int,
    moves: Seq<(VReg, VReg)>,
) -> Result<(Low, Seq<(VReg, VReg)>), Seq<char>>
    decreases params.len() - j,
{
    if j < 0 || j >= params.len() {
        Ok((st, moves))
    } else if j < st.stack.len() {
        edge_from(st, params, j + 1, moves.push((params[j], st.stack[j])))
    } else if st.types.len() >= u32::MAX {
        Err("too many virtual registers"@)
    } else {
        let dst = next_reg(st);
        let filled = Low {
            types: st.types.push(KType::Unknown),
            insns: st.insns.push(InsnModel::Plain(Insn::ConstNull { dst })),
            ..st
        };
        edge_from(filled, params, j + 1, moves.push((params[j], dst)))
    }
}

/// The end of a block: its terminator, the moves on its edges, and the state
/// behind it.
pub ghost struct Ending {
    /// State behind the block.
    pub st: Low,
    /// Terminator.
    pub term: Term,
    /// Moves on the edges.
    pub moves: Seq<(usize, Seq<(VReg, VReg)>)>,
}

/// Ends a block with a jump to `target`.
pub open spec fn end_jump(p: Plan, st: Low, target: usize) -> Result<Ending, Seq<char>> {
    match edge_from(st, p.params[target as int], 0, seq![]) {
        Err(e) => Err(e),
        Ok((next, moves)) => Ok(
            Ending { st: next, term: Term::Br(target), moves: seq![(target, moves)] },
        ),
    }
}

/// Ends a block with a conditional branch to `off` or else to `fall`.
pub open spec fn end_cond(p: Plan, st: Low, off: int, fall: int, on_true: bool) -> Result<
    Ending,
    Seq<char>,
> {
    match target_block(p.ranges, off) {
        Err(e) => Err(e),
        Ok(target) => if st.stack.len() == 0 {
            Err("stack underflow at branch"@)
        } else {
            let cond = st.stack.last();
            let popped = Low { stack: st.stack.drop_last(), ..st };
            let term = if on_true {
                Term::BrTrue(cond, target)
            } else {
                Term::BrFalse(cond, target)
            };
            match edge_from(popped, p.params[target as int], 0, seq![]) {
                Err(e) => Err(e),
                Ok((st1, moves1)) => match block_at(p.ranges, fall) {
                    None => Ok(Ending { st: st1, term, moves: seq![(target, moves1)] }),
                    Some(f) => if f == target {
                        Ok(Ending { st: st1, term, moves: seq![(target, moves1)] })
                    } else {
                        match edge_from(st1, p.params[f as int], 0, seq![]) {
                            Err(e) => Err(e),
                            Ok((st2, moves2)) => Ok(
                                Ending {
                                    st: st2,
                                    term,
                                    moves: seq![(target, moves1), (f, moves2)],
                                },
                            ),
                        }
                    },
                },
            }
        },
    }
}

/// Ends the block whose straight-line part ends at `t` and which ends at `e`.
pub open spec fn end_block(p: Plan, t: int, e: int, st: Low) -> Result<Ending, Seq<char>> {
    if t >= e {
        match block_at(p.ranges, e) {
            Some(f) => end_jump(p, st, f),
            None => Ok(Ending { st, term: Term::Unreachable, moves: seq![] }),
        }
    } else {
        match p.body[t] {
            Op::Br(off) => match target_block(p.ranges, off as int) {
                Err(m) => Err(m),
                Ok(target) => end_jump(p, st, target),
            },
            Op::BrFalse(off) => end_cond(p, st, off as int, t + 1, false),
            Op::BrTrue(off) => end_cond(p, st, off as int, t + 1, true),
            Op::Ret => if st.stack.len() == 0 {
                Err("stack underflow at return"@)
            } else {
                Ok(
                    Ending {
                        st: Low { stack: st.stack.drop_last(), ..st },
                        term: Term::Ret(st.stack.last()),
                        moves: seq![],
                    },
                )
            },
            Op::Throw => match lower(p.module, p.locals, p.checks, st, p.body[t], t) {
                Err(m) => Err(m),
                Ok(next) => Ok(Ending { st: next, term: Term::Unreachable, moves: seq![] }),
            },
            _ => Ok(Ending { st, term: Term::Unreachable, moves: seq![] }),
        }
    }
}

/// The place of a block that cannot be reached.
pub open spec fn dead_block(b: int) -> BlockModel {
    BlockModel {
        id: b as usize,
        params: seq![],
        insns: seq![],
        term: Term::Unreachable,
        preds: seq![],
        succs: seq![],
        moves: seq![],
        reachable: false,
    }
}

/// Lowered blocks with the registers and delegated operations they use.
#[verifier::ext_equal]
pub ghost struct Blocks {
    /// Blocks.
    pub blocks: Seq<BlockModel>,
    /// Abstract type of each virtual register.
    pub types: Seq<KType>,
    /// Position in the body of each delegated operation.
    pub helpers: Seq<int>,
}

/// Lowers block `b` behind the blocks `acc`.
pub open spec fn lower_block(p: Plan, b: int, acc: Blocks) -> Result<Blocks, Seq<char>> {
    if !p.reach[b] {
        Ok(Blocks { blocks: acc.blocks.push(dead_block(b)), ..acc })
    } else {
        let (s, e) = p.ranges[b];
        let t = terminator(p.body, s as int, e as int);
        let st = Low {
            types: acc.types,
            helpers: acc.helpers,
            insns: seq![],
            stack: p.params[b],
        };
        match lower_range(p, s as int, t, st) {
            Err(m) => Err(m),
            Ok(mid) => match end_block(p, t, e as int, mid) {
                Err(m) => Err(m),
                Ok(end) => Ok(
                    Blocks {
                        blocks: acc.blocks.push(
                            BlockModel {
                                id: b as usize,
                                params: p.params[b],
                                insns: end.st.insns,
                                term: end.term,
                                preds: preds_upto(p.succs, b, p.succs.len() as int),
                                succs: p.succs[b],
                                moves: end.moves,
                                reachable: true,
                            },
                        ),
                        types: end.st.types,
                        helpers: end.st.helpers,
                    },
                ),
            },
        }
    }
}

/// Lowers the blocks from `b` on.
pub open spec fn lower_blocks(p: Plan, b: int, acc: Blocks) -> Result<Blocks, Seq<char>>
    decreases p.ranges.len() - b,
{
    if b < 0 || b >= p.ranges.len() {
        Ok(acc)
    } else {
        match lower_block(p, b, acc) {
            Err(m) => Err(m),
            Ok(next) => lower_blocks(p, b + 1, next),
        }
    }
}

/// The entry stack of a block; empty for one that has not been reached.
pub open spec fn entry_types(states: Seq<Option<Seq<KType>>>, b: int) -> Seq<KType> {
    match states[b] {
        Some(ts) => ts,
        None => seq![],
    }
}

/// Parameters for the blocks from `b` on: fresh registers of the types of the
/// entry stack for every reachable block.
pub open spec fn alloc_params(
    states: Seq<Option<Seq<KType>>>,
    reach: Seq<bool>,
    b: int,
    types: Seq<KType>,
    params: Seq<Seq<VReg>>,
) -> Result<(Seq<KType>, Seq<Seq<VReg>>), Seq<char>>
    decreases reach.len() - b,
{
    if b < 0 || b >= reach.len() {
        Ok((types, params))
    } else if !reach[b] {
        alloc_params(states, reach, b + 1, types, params.push(seq![]))
    } else {
        let ts = entry_types(states, b);
        if types.len() + ts.len() > u32::MAX {
            Err("too many virtual registers"@)
        } else {
            let mine = Seq::new(ts.len(), |j: int| (types.len() + j) as u32);
            alloc_params(states, reach, b + 1, types + ts, params.push(mine))
        }
    }
}

/// A lowered method.
#[verifier::ext_equal]
pub ghost struct FunctionModel {
    /// Blocks, registers and delegated operations.
    pub code: Blocks,
    /// Types of the locals.
    pub locals: Seq<KType>,
}

/// Which blocks are reachable.
pub open spec fn reach_marks(succs: Seq<Seq<usize>>) -> Seq<bool> {
    Seq::new(succs.len(), |b: int| reaches(succs, b))
}

/// Lowers a method that has no exception handlers.
pub open spec fn lower_body(m: Module, method: MethodDef, checks: bool) -> Result<
    FunctionModel,
    Seq<char>,
> {
    let body = method.body@;
    let ranges = block_ranges(body);
    match succs_from(body, ranges, 0) {
        Err(e) => Err(e),
        Ok(succs) => match flow_result(
            m,
            body,
            ranges,
            succs,
            initial_flow(method, ranges.len()),
            0,
        ) {
            Err(e) => Err(e),
            Ok(flow) => {
                let reach = reach_marks(succs);
                match alloc_params(flow.states, reach, 0, seq![], seq![]) {
                    Err(e) => Err(e),
                    Ok((types, params)) => {
                        let p = Plan {
                            module: m,
                            body,
                            checks,
                            ranges,
                            succs,
                            locals: flow.locals,
                            params,
                            reach,
                        };
                        let start = Blocks { blocks: seq![], types, helpers: seq![] };
                        match lower_blocks(p, 0, start) {
                            Err(e) => Err(e),
                            Ok(code) => Ok(FunctionModel { code, locals: flow.locals }),
                        }
                    },
                }
            },
        },
    }
}

/// Lowers a method.
pub open spec fn lower_method(m: Module, method: MethodDef, checks: bool) -> Result<
    FunctionModel,
    Seq<char>,
> {
    if method.handlers@.len() > 0 {
        Err("exception handlers are not supported by the JIT yet"@)
    } else {
        lower_body(m, method, checks)
    }
}

impl Lowering {
    /// The copy moves for an edge into a block with the given parameters.
    fn finish_edge(&mut self, params: &Vec<VReg>, body: Ghost<Seq<Op>>) -> (r: Result<
        Vec<(VReg, VReg)>,
        String,
    >)
        requires
            old(self).wf(body@),
        ensures
            match r {
                Ok(moves) => {
                    &&& final(self).wf(body@)
                    &&& edge_from(old(self).model(), params@, 0, seq![]) == Ok::<
                        (Low, Seq<(VReg, VReg)>),
                        Seq<char>,
                    >((final(self).model(), moves@))
                    &&& final(self).helper_ops@.len() == old(self).helper_ops@.len()
                },
                Err(e) => edge_from(old(self).model(), params@, 0, seq![]) == Err::<
                    (Low, Seq<(VReg, VReg)>),
                    Seq<char>,
                >(e@),
            },
    {
        let mut moves: Vec<(VReg, VReg)> = Vec::new();
        let ghost all = edge_from(self.model(), params@, 0, seq![]);
        let mut j: usize = 0;
        assert(moves@ =~= seq![]);
        while j < params.len()
            invariant
                j <= params@.len(),
                self.wf(body@),
                self.helper_ops@.len() == old(self).helper_ops@.len(),
                all == edge_from(old(self).model(), params@, 0, seq![]),
                all == edge_from(self.model(), params@, j as int, moves@),
            decreases params.len() - j,
        {
            let src: VReg = if j < self.stack.len() {
                self.stack[j]
            } else {
                let v: VReg = self.fresh()?;
                let ghost m0 = self.model();
                self.types.push(KType::Unknown);
                let insn: Insn = Insn::ConstNull { dst: v };
                let ghost value = insn@;
                self.insns.push(insn);
                assert(insns_model(self.insns@) =~= m0.insns.push(value));
                v
            };
            moves.push((params[j], src));
            j = j + 1;
        }
        Ok(moves)
    }
}

/// What lowering goes by.
struct Source<'a> {
    module: &'a Module,
    method: &'a MethodDef,
    checks: bool,
    cfg: &'a Cfg,
    locals: &'a Vec<KType>,
    params: &'a Vec<Vec<VReg>>,
    reach: &'a Vec<bool>,
}

/// Values of a list of lists of registers.
pub open spec fn reg_lists(v: Seq<Vec<VReg>>) -> Seq<Seq<VReg>> {
    Seq::new(v.len(), |i: int| v[i]@)
}

impl<'a> Source<'a> {
    spec fn plan(&self) -> Plan {
        Plan {
            module: *self.module,
            body: self.method.body@,
            checks: self.checks,
            ranges: self.cfg.ranges@,
            succs: lists(self.cfg.succs@),
            locals: self.locals@,
            params: reg_lists(self.params@),
            reach: self.reach@,
        }
    }

    spec fn wf(&self) -> bool {
        &&& self.method.body@.len() < usize::MAX
        &&& self.method.body@.len() < u32::MAX
        &&& self.cfg.graph_of(self.method.body@)
        &&& loads_locals(self.method.body@, self.locals@.len() as int)
        &&& self.params@.len() == self.cfg.ranges@.len()
        &&& self.reach@.len() == self.cfg.ranges@.len()
    }

    fn range(&self, lw: &mut Lowering, s: usize, t: usize) -> (r: Result<(), String>)
        requires
            self.wf(),
            old(lw).wf(self.method.body@),
            s <= t <= self.method.body@.len(),
            old(lw).helper_ops@.len() <= s,
        ensures
            match r {
                Ok(_) => final(lw).wf(self.method.body@) && lower_range(
                    self.plan(),
                    s as int,
                    t as int,
                    old(lw).model(),
                ) == Lowered::Ok(final(lw).model()) && final(lw).helper_ops@.len() <= t,
                Err(e) => lower_range(self.plan(), s as int, t as int, old(lw).model())
                    == Lowered::Err(e@),
            },
    {
        let ghost all = lower_range(self.plan(), s as int, t as int, lw.model());
        let mut i: usize = s;
        while i < t
            invariant
                s <= i <= t <= self.method.body@.len(),
                self.wf(),
                lw.wf(self.method.body@),
                lw.helper_ops@.len() <= i,
                all == lower_range(self.plan(), s as int, t as int, old(lw).model()),
                all == lower_range(self.plan(), i as int, t as int, lw.model()),
            decreases t - i,
        {
            lw.lower_op(
                self.module,
                self.locals,
                self.checks,
                &self.method.body[i],
                i,
                Ghost(self.method.body@),
            )?;
            i = i + 1;
        }
        Ok(())
    }

    fn jump(&self, lw: &mut Lowering, target: usize) -> (r: Result<
        (Term, Vec<(usize, Vec<(VReg, VReg)>)>),
        String,
    >)
        requires
            self.wf(),
            old(lw).wf(self.method.body@),
            target < self.params@.len(),
        ensures
            match r {
                Ok((term, moves)) => {
                    &&& final(lw).wf(self.method.body@)
                    &&& end_jump(self.plan(), old(lw).model(), target) == Ok::<
                        Ending,
                        Seq<char>,
                    >(Ending { st: final(lw).model(), term, moves: moves_model(moves@) })
                    &&& final(lw).helper_ops@.len() == old(lw).helper_ops@.len()
                },
                Err(e) => end_jump(self.plan(), old(lw).model(), target) == Err::<
                    Ending,
                    Seq<char>,
                >(e@),
            },
    {
        assert(self.plan().params[target as int] == self.params@[target as int]@);
        let moves: Vec<(VReg, VReg)> = lw.finish_edge(
            &self.params[target],
            Ghost(self.method.body@),
        )?;
        let mut all: Vec<(usize, Vec<(VReg, VReg)>)> = Vec::new();
        let ghost value = moves@;
        all.push((target, moves));
        assert(moves_model(all@) =~= seq![(target, value)]);
        Ok((Term::Br(target), all))
    }

    fn cond(&self, lw: &mut Lowering, off: usize, fall: usize, on_true: bool) -> (r: Result<
        (Term, Vec<(usize, Vec<(VReg, VReg)>)>),
        String,
    >)
        requires
            self.wf(),
            old(lw).wf(self.method.body@),
        ensures
            match r {
                Ok((term, moves)) => {
                    &&& final(lw).wf(self.method.body@)
                    &&& end_cond(
                        self.plan(),
                        old(lw).model(),
                        off as int,
                        fall as int,
                        on_true,
                    ) == Ok::<Ending, Seq<char>>(
                        Ending { st: final(lw).model(), term, moves: moves_model(moves@) },
                    )
                    &&& final(lw).helper_ops@.len() == old(lw).helper_ops@.len()
                },
                Err(e) => end_cond(
                    self.plan(),
                    old(lw).model(),
                    off as int,
                    fall as int,
                    on_true,
                ) == Err::<Ending, Seq<char>>(e@),
            },
    {
        let target: usize = block(&self.cfg.ranges, off)?;
        proof {
            blocks_bounded(self.method.body@);
            crate::jit::cfg::block_from_bounds(self.cfg.ranges@, off as int, 0);
            crate::jit::cfg::block_from_bounds(self.cfg.ranges@, fall as int, 0);
        }
        let len: usize = lw.stack.len();
        if len == 0 {
            return Err(own("stack underflow at branch"));
        }
        let c: VReg = lw.stack[len - 1];
        let ghost stack0 = lw.stack@;
        lw.stack.truncate(len - 1);
        assert(lw.stack@ =~= stack0.drop_last());
        let term: Term = if on_true {
            Term::BrTrue(c, target)
        } else {
            Term::BrFalse(c, target)
        };
        assert(self.plan().params[target as int] == self.params@[target as int]@);
        let moves: Vec<(VReg, VReg)> = lw.finish_edge(
            &self.params[target],
            Ghost(self.method.body@),
        )?;
        let mut all: Vec<(usize, Vec<(VReg, VReg)>)> = Vec::new();
        let ghost value = moves@;
        all.push((target, moves));
        assert(moves_model(all@) =~= seq![(target, value)]);
        if let Some(f) = lookup_block(&self.cfg.ranges, fall) {
            if f != target {
                assert(self.plan().params[f as int] == self.params@[f as int]@);
                let more: Vec<(VReg, VReg)> = lw.finish_edge(
                    &self.params[f],
                    Ghost(self.method.body@),
                )?;
                let ghost value2 = more@;
                all.push((f, more));
                assert(moves_model(all@) =~= seq![(target, value), (f, value2)]);
            }
        }
        Ok((term, all))
    }

    fn end(&self, lw: &mut Lowering, t: usize, e: usize) -> (r: Result<
        (Term, Vec<(usize, Vec<(VReg, VReg)>)>),
        String,
    >)
        requires
            self.wf(),
            old(lw).wf(self.method.body@),
            t <= e <= self.method.body@.len(),
            old(lw).helper_ops@.len() <= t,
        ensures
            match r {
                Ok((term, moves)) => {
                    &&& final(lw).wf(self.method.body@)
                    &&& end_block(self.plan(), t as int, e as int, old(lw).model()) == Ok::<
                        Ending,
                        Seq<char>,
                    >(Ending { st: final(lw).model(), term, moves: moves_model(moves@) })
                    &&& final(lw).helper_ops@.len() <= e
                },
                Err(m) => end_block(self.plan(), t as int, e as int, old(lw).model()) == Err::<
                    Ending,
                    Seq<char>,
                >(m@),
            },
    {
        let none: Vec<(usize, Vec<(VReg, VReg)>)> = Vec::new();
        assert(moves_model(none@) =~= seq![]);
        proof {
            blocks_bounded(self.method.body@);
            crate::jit::cfg::block_from_bounds(self.cfg.ranges@, e as int, 0);
        }
        if t >= e {
            return match lookup_block(&self.cfg.ranges, e) {
                Some(f) => self.jump(lw, f),
                None => Ok((Term::Unreachable, none)),
            };
        }
        match &self.method.body[t] {
            Op::Br(off) => {
                let target: usize = block(&self.cfg.ranges, *off as usize)?;
                proof {
                    crate::jit::cfg::block_from_bounds(self.cfg.ranges@, *off as int, 0);
                }
                self.jump(lw, target)
            },
            Op::BrFalse(off) => self.cond(lw, *off as usize, t + 1, false),
            Op::BrTrue(off) => self.cond(lw, *off as usize, t + 1, true),
            Op::Ret => {
                let len: usize = lw.stack.len();
                if len == 0 {
                    return Err(own("stack underflow at return"));
                }
                let v: VReg = lw.stack[len - 1];
                let ghost stack0 = lw.stack@;
                lw.stack.truncate(len - 1);
                assert(lw.stack@ =~= stack0.drop_last());
                Ok((Term::Ret(v), none))
            },
            Op::Throw => {
                lw.lower_op(
                    self.module,
                    self.locals,
                    self.checks,
                    &self.method.body[t],
                    t,
                    Ghost(self.method.body@),
                )?;
                Ok((Term::Unreachable, none))
            },
            _ => Ok((Term::Unreachable, none)),
        }
    }
}

fn clone_list(v: &Vec<usize>) -> (r: Vec<usize>)
    ensures
        r@ == v@,
{
    let mut out: Vec<usize> = Vec::new();
    let mut i: usize = 0;
    while i < v.len()
        invariant
            i <= v.len(),
            out@ == v@.take(i as int),
        decreases v.len() - i,
    {
        out.push(v[i]);
        i = i + 1;
        assert(out@ =~= v@.take(i as int));
    }
    assert(v@.take(v@.len() as int) =~= v@);
    out
}

/// Every parameter is one of `n` registers.
pub open spec fn params_below(params: Seq<Seq<VReg>>, n: int) -> bool {
    forall|b: int| 0 <= b < params.len() ==> regs_below(#[trigger] params[b], n)
}

impl<'a> Source<'a> {
    fn dead(b: usize) -> (r: Block)
        ensures
            r@ == dead_block(b as int),
    {
        let r: Block = Block {
            id: b,
            params: Vec::new(),
            insns: Vec::new(),
            term: Term::Unreachable,
            preds: Vec::new(),
            succs: Vec::new(),
            edge_moves: Vec::new(),
            reachable: false,
        };
        assert(r@ =~= dead_block(b as int));
        r
    }

    /// Lower one reachable block.
    fn live(&self, lw: &mut Lowering, b: usize) -> (r: Result<Block, String>)
        requires
            self.wf(),
            b < self.cfg.ranges@.len(),
            self.reach@[b as int],
            old(lw).wf(self.method.body@),
            old(lw).insns@.len() == 0,
            old(lw).helper_ops@.len() <= self.cfg.ranges@[b as int].0,
            params_below(reg_lists(self.params@), old(lw).types@.len() as int),
        ensures
            match r {
                Ok(blk) => {
                    &&& final(lw).wf(self.method.body@)
                    &&& final(lw).insns@.len() == 0
                    &&& final(lw).helper_ops@.len() <= self.cfg.ranges@[b as int].1
                    &&& forall|acc: Blocks|
                        acc.types == old(lw).types@ && acc.helpers == old(lw).helpers@
                            ==> #[trigger] lower_block(self.plan(), b as int, acc) == Ok::<
                            Blocks,
                            Seq<char>,
                        >(
                            Blocks {
                                blocks: acc.blocks.push(blk@),
                                types: final(lw).types@,
                                helpers: final(lw).helpers@,
                            },
                        )
                    &&& final(lw).types@.len() >= old(lw).types@.len()
                },
                Err(m) => forall|acc: Blocks|
                    acc.types == old(lw).types@ && acc.helpers == old(lw).helpers@
                        ==> #[trigger] lower_block(self.plan(), b as int, acc) == Err::<
                        Blocks,
                        Seq<char>,
                    >(m@),
            },
    {
        let (s, e) = self.cfg.ranges[b];
        proof {
            block_ranges_bounds(self.method.body@);
            assert(self.cfg.ranges@[b as int].0 <= self.cfg.ranges@[b as int].1);
            terminator_bounds(self.method.body@, s as int, e as int);
            assert(reg_lists(self.params@)[b as int] == self.params@[b as int]@);
            assert(lists(self.cfg.succs@)[b as int] == self.cfg.succs@[b as int]@);
        }
        let t: usize = find_terminator(&self.method.body, s, e);
        lw.stack = clone_regs(&self.params[b]);
        proof {
            assert(regs_below(reg_lists(self.params@)[b as int], lw.types@.len() as int));
            assert(insns_model(lw.insns@) =~= seq![]);
        }
        let ghost st0 = lw.model();
        self.range(lw, s, t)?;
        let ghost mid = lw.model();
        proof {
            lower_range_grows(self.plan(), s as int, t as int, st0);
        }
        let (term, edge_moves) = self.end(lw, t, e)?;
        proof {
            end_block_grows(self.plan(), t as int, e as int, mid);
        }
        let mut insns: Vec<Insn> = Vec::new();
        let ghost done = insns_model(lw.insns@);
        insns.append(&mut lw.insns);
        assert(insns_model(insns@) =~= done);
        let blk: Block = Block {
            id: b,
            params: clone_regs(&self.params[b]),
            insns,
            term,
            preds: clone_list(&self.cfg.preds[b]),
            succs: clone_list(&self.cfg.succs[b]),
            edge_moves,
            reachable: true,
        };
        Ok(blk)
    }
}

/// Lowering only adds registers.
proof fn lower_grows(
    m: Module,
    locals: Seq<KType>,
    checks: bool,
    st: Low,
    op: Op,
    pc: int,
)
    ensures
        lower(m, locals, checks, st, op, pc) matches Ok(next) ==> next.types.len()
            >= st.types.len(),
{
}

proof fn lower_range_grows(p: Plan, i: int, t: int, st: Low)
    ensures
        lower_range(p, i, t, st) matches Ok(next) ==> next.types.len() >= st.types.len(),
    decreases t - i,
{
    if i < t {
        lower_grows(p.module, p.locals, p.checks, st, p.body[i], i);
        if let Ok(next) = lower(p.module, p.locals, p.checks, st, p.body[i], i) {
            lower_range_grows(p, i + 1, t, next);
        }
    }
}

proof fn edge_grows(st: Low, params: Seq<VReg>, j: int, moves: Seq<(VReg, VReg)>)
    ensures
        edge_from(st, params, j, moves) matches Ok((next, _)) ==> next.types.len()
            >= st.types.len(),
    decreases params.len() - j,
{
    if 0 <= j < params.len() {
        if j < st.stack.len() {
            edge_grows(st, params, j + 1, moves.push((params[j], st.stack[j])));
        } else if st.types.len() < u32::MAX {
            let dst = next_reg(st);
            let filled = Low {
                types: st.types.push(KType::Unknown),
                insns: st.insns.push(InsnModel::Plain(Insn::ConstNull { dst })),
                ..st
            };
            edge_grows(filled, params, j + 1, moves.push((params[j], dst)));
        }
    }
}

proof fn end_block_grows(p: Plan, t: int, e: int, st: Low)
    ensures
        end_block(p, t, e, st) matches Ok(end) ==> end.st.types.len() >= st.types.len(),
{
    let popped = Low { stack: st.stack.drop_last(), ..st };
    assert forall|target: usize| #[trigger]
        end_jump(p, st, target) matches Ok(end) ==> end.st.types.len() >= st.types.len() by {
        edge_grows(st, p.params[target as int], 0, seq![]);
    }
    if t < e {
        lower_grows(p.module, p.locals, p.checks, st, p.body[t], t);
        match p.body[t] {
            Op::BrFalse(off) => {
                end_cond_grows(p, st, off as int, t + 1, false);
            },
            Op::BrTrue(off) => {
                end_cond_grows(p, st, off as int, t + 1, true);
            },
            _ => {},
        }
    }
}

proof fn end_cond_grows(p: Plan, st: Low, off: int, fall: int, on_true: bool)
    ensures
        end_cond(p, st, off, fall, on_true) matches Ok(end) ==> end.st.types.len()
            >= st.types.len(),
{
    let popped = Low { stack: st.stack.drop_last(), ..st };
    if let Ok(target) = target_block(p.ranges, off) {
        edge_grows(popped, p.params[target as int], 0, seq![]);
        if let Ok((st1, _)) = edge_from(popped, p.params[target as int], 0, seq![]) {
            if let Some(f) = block_at(p.ranges, fall) {
                edge_grows(st1, p.params[f as int], 0, seq![]);
            }
        }
    }
}

// ---------------------------------------------------------------------------
// Whole methods
// ---------------------------------------------------------------------------

proof fn alloc_params_below(
    states: Seq<Option<Seq<KType>>>,
    reach: Seq<bool>,
    b: int,
    types: Seq<KType>,
    params: Seq<Seq<VReg>>,
)
    requires
        0 <= b <= reach.len(),
        params.len() == b,
        params_below(params, types.len() as int),
    ensures
        alloc_params(states, reach, b, types, params) matches Ok((ts, ps)) ==> {
            &&& ps.len() == reach.len()
            &&& params_below(ps, ts.len() as int)
        },
    decreases reach.len() - b,
{
    if b < reach.len() {
        if !reach[b] {
            let next = params.push(seq![]);
            assert forall|c: int| 0 <= c < next.len() implies regs_below(
                #[trigger] next[c],
                types.len() as int,
            ) by {
                if c < params.len() {
                    assert(next[c] == params[c]);
                }
            }
            alloc_params_below(states, reach, b + 1, types, next);
        } else {
            let ts = entry_types(states, b);
            if types.len() + ts.len() <= u32::MAX {
                let mine = Seq::new(ts.len(), |j: int| (types.len() + j) as u32);
                let next = params.push(mine);
                assert forall|c: int| 0 <= c < next.len() implies regs_below(
                    #[trigger] next[c],
                    (types + ts).len() as int,
                ) by {
                    if c < params.len() {
                        assert(regs_below(params[c], types.len() as int));
                        assert forall|k: int| 0 <= k < next[c].len() implies (#[trigger] next[c][k])
                            < (types + ts).len() by {
                            assert(params[c][k] < types.len());
                        }
                    }
                }
                alloc_params_below(states, reach, b + 1, types + ts, next);
            }
        }
    }
}

/// Fresh registers for the entry stacks of the reachable blocks.
fn preallocate_params(states: &Vec<Option<Vec<KType>>>, reach: &Vec<bool>) -> (r: Result<
    (Vec<KType>, Vec<Vec<VReg>>),
    String,
>)
    requires
        states@.len() == reach@.len(),
    ensures
        match r {
            Ok((types, params)) => {
                &&& alloc_params(states_model(states@), reach@, 0, seq![], seq![]) == Ok::<
                    (Seq<KType>, Seq<Seq<VReg>>),
                    Seq<char>,
                >((types@, reg_lists(params@)))
                &&& types@.len() <= u32::MAX
            },
            Err(e) => alloc_params(states_model(states@), reach@, 0, seq![], seq![]) == Err::<
                (Seq<KType>, Seq<Seq<VReg>>),
                Seq<char>,
            >(e@),
        },
{
    let mut types: Vec<KType> = Vec::new();
    let mut params: Vec<Vec<VReg>> = Vec::new();
    let ghost model = states_model(states@);
    let ghost all = alloc_params(model, reach@, 0, seq![], seq![]);
    proof {
        assert(types@ =~= seq![]);
        assert(reg_lists(params@) =~= seq![]);
    }
    let mut b: usize = 0;
    while b < reach.len()
        invariant
            b <= reach@.len(),
            states@.len() == reach@.len(),
            model == states_model(states@),
            params@.len() == b,
            types@.len() <= u32::MAX,
            all == alloc_params(model, reach@, 0, seq![], seq![]),
            all == alloc_params(model, reach@, b as int, types@, reg_lists(params@)),
        decreases reach.len() - b,
    {
        let ghost params0 = reg_lists(params@);
        let ghost types0 = types@;
        let mut mine: Vec<VReg> = Vec::new();
        if reach[b] {
            if let Some(ts) = &states[b] {
                assert(entry_types(model, b as int) == ts@);
                let room: usize = u32::MAX as usize - types.len();
                if ts.len() > room {
                    return Err(own("too many virtual registers"));
                }
                let mut j: usize = 0;
                while j < ts.len()
                    invariant
                        j <= ts@.len(),
                        types0.len() + ts@.len() <= u32::MAX,
                        types@ == types0 + ts@.take(j as int),
                        mine@ == Seq::new(j as nat, |k: int| (types0.len() + k) as u32),
                    decreases ts.len() - j,
                {
                    mine.push(types.len() as u32);
                    types.push(ts[j]);
                    j = j + 1;
                    assert(types@ =~= types0 + ts@.take(j as int));
                    assert(mine@ =~= Seq::new(j as nat, |k: int| (types0.len() + k) as u32));
                }
                assert(ts@.take(ts@.len() as int) =~= ts@);
            } else {
                assert(entry_types(model, b as int) =~= seq![]);
                assert(types@ =~= types0 + Seq::<KType>::empty());
                assert(mine@ =~= Seq::new(0, |k: int| (types0.len() + k) as u32));
            }
        } else {
            assert(mine@ =~= seq![]);
        }
        let ghost value = mine@;
        params.push(mine);
        assert(reg_lists(params@) =~= params0.push(value));
        b = b + 1;
    }
    Ok((types, params))
}

/// Blocks follow each other without gaps.
proof fn ranges_chain(body: Seq<Op>, b: int)
    requires
        0 <= b,
        b + 1 < block_ranges(body).len(),
    ensures
        block_ranges(body)[b].1 == block_ranges(body)[b + 1].0,
{
}

impl<'a> Source<'a> {
    /// Lower all blocks in order.
    fn blocks(&self, lw: &mut Lowering) -> (r: Result<Vec<Block>, String>)
        requires
            self.wf(),
            old(lw).wf(self.method.body@),
            old(lw).insns@.len() == 0,
            old(lw).helper_ops@.len() == 0,
            old(lw).helpers@.len() == 0,
            params_below(reg_lists(self.params@), old(lw).types@.len() as int),
        ensures
            match r {
                Ok(blocks) => {
                    &&& final(lw).wf(self.method.body@)
                    &&& lower_blocks(
                        self.plan(),
                        0,
                        Blocks { blocks: seq![], types: old(lw).types@, helpers: seq![] },
                    ) == Ok::<Blocks, Seq<char>>(
                        Blocks {
                            blocks: blocks_model(blocks@),
                            types: final(lw).types@,
                            helpers: final(lw).helpers@,
                        },
                    )
                },
                Err(e) => lower_blocks(
                    self.plan(),
                    0,
                    Blocks { blocks: seq![], types: old(lw).types@, helpers: seq![] },
                ) == Err::<Blocks, Seq<char>>(e@),
            },
    {
        let mut out: Vec<Block> = Vec::new();
        let ghost p = self.plan();
        let ghost all = lower_blocks(
            p,
            0,
            Blocks { blocks: seq![], types: lw.types@, helpers: seq![] },
        );
        proof {
            block_ranges_bounds(self.method.body@);
            assert(blocks_model(out@) =~= seq![]);
            assert(lw.helpers@ =~= seq![]);
        }
        let n: usize = self.cfg.ranges.len();
        let mut b: usize = 0;
        while b < n
            invariant
                n == self.cfg.ranges@.len(),
                b <= n,
                self.wf(),
                p == self.plan(),
                lw.wf(self.method.body@),
                lw.insns@.len() == 0,
                b < n ==> lw.helper_ops@.len() <= self.cfg.ranges@[b as int].0,
                params_below(reg_lists(self.params@), lw.types@.len() as int),
                all == lower_blocks(
                    p,
                    0,
                    Blocks { blocks: seq![], types: old(lw).types@, helpers: seq![] },
                ),
                all == lower_blocks(
                    p,
                    b as int,
                    Blocks {
                        blocks: blocks_model(out@),
                        types: lw.types@,
                        helpers: lw.helpers@,
                    },
                ),
            decreases n - b,
        {
            let ghost acc = Blocks {
                blocks: blocks_model(out@),
                types: lw.types@,
                helpers: lw.helpers@,
            };
            let ghost types0 = lw.types@;
            proof {
                if b + 1 < n {
                    ranges_chain(self.method.body@, b as int);
                }
                block_ranges_bounds(self.method.body@);
                assert(self.cfg.ranges@[b as int].0 <= self.cfg.ranges@[b as int].1);
            }
            let blk: Block = if self.reach[b] {
                match self.live(lw, b) {
                    Ok(blk) => blk,
                    Err(e) => {
                        assert(lower_block(p, b as int, acc) == Err::<Blocks, Seq<char>>(e@));
                        return Err(e);
                    },
                }
            } else {
                Self::dead(b)
            };
            let ghost value = blk@;
            out.push(blk);
            proof {
                assert(blocks_model(out@) =~= acc.blocks.push(value));
                assert(lower_block(p, b as int, acc) == Ok::<Blocks, Seq<char>>(
                    Blocks {
                        blocks: blocks_model(out@),
                        types: lw.types@,
                        helpers: lw.helpers@,
                    },
                ));
                assert forall|c: int| 0 <= c < reg_lists(self.params@).len() implies regs_below(
                    #[trigger] reg_lists(self.params@)[c],
                    lw.types@.len() as int,
                ) by {
                    let ps = reg_lists(self.params@)[c];
                    assert(regs_below(ps, types0.len() as int));
                    assert forall|k: int| 0 <= k < ps.len() implies (#[trigger] ps[k])
                        < lw.types@.len() by {
                        assert(ps[k] < types0.len());
                    }
                }
            }
            b = b + 1;
        }
        Ok(out)
    }
}

/// Lowers the bytecode of one method.
pub struct Lowerer<'a> {
    module: &'a Module,
    method: &'a MethodDef,
    method_id: MethodId,
    overflow_checks: bool,
}

/// A method within the limits of the machine: positions fit 32 bits, the
/// receiver and the parameters fit 16 bits, and every local that is loaded
/// exists.
pub open spec fn lowerable(method: MethodDef) -> bool {
    &&& method.body@.len() < u32::MAX
    &&& method.body@.len() < usize::MAX / 8
    &&& method.params@.len() < u16::MAX
    &&& loads_locals(method.body@, method.locals as int)
}

/// `f` is the method `method` lowered to `code`.
pub open spec fn is_lowered(f: Function, method: MethodDef, id: MethodId, checks: bool, code: FunctionModel) -> bool {
    &&& f.method_id == id
    &&& f.name@ == method.name@
    &&& blocks_model(f.blocks@) == code.code.blocks
    &&& f.types@ == code.code.types
    &&& ops_at(f.helper_ops@, method.body@, code.code.helpers)
    &&& f.locals == method.locals
    &&& f.params == method.params@.len() + (if method.is_instance {
        1int
    } else {
        0
    })
    &&& f.local_types@ == code.locals
    &&& f.max_stack == method.max_stack
    &&& f.spill_bytes == 0
    &&& f.overflow_checks == checks
}

impl<'a> Lowerer<'a> {
    /// The program.
    pub closed spec fn module(&self) -> Module {
        *self.module
    }

    /// The method.
    pub closed spec fn method(&self) -> MethodDef {
        *self.method
    }

    /// The identifier of the method.
    pub closed spec fn id(&self) -> MethodId {
        self.method_id
    }

    /// Whether integer overflow is checked.
    pub closed spec fn checks(&self) -> bool {
        self.overflow_checks
    }

    /// Prepare to lower the method `method_id`.
    pub fn new(module: &'a Module, method_id: MethodId, overflow_checks: bool) -> (r: Result<
        Self,
        String,
    >)
        ensures
            match r {
                Ok(l) => {
                    &&& method_of(*module, method_id) == Some(l.method())
                    &&& l.module() == *module
                    &&& l.id() == method_id
                    &&& l.checks() == overflow_checks
                },
                Err(e) => method_of(*module, method_id) is None && e@ == "unknown method MethodId("@
                    + dec(method_id.0 as nat) + ")"@,
            },
    {
        match module.method(method_id) {
            Some(method) => Ok(Lowerer { module, method, method_id, overflow_checks }),
            None => {
                let digits: String = dec_u64(method_id.0 as u64);
                Err(cat3("unknown method MethodId(", digits.as_str(), ")"))
            },
        }
    }

    /// Lower the method.
    pub fn lower(self) -> (r: Result<Function, String>)
        requires
            lowerable(self.method()),
        ensures
            match r {
                Ok(f) => lower_method(self.module(), self.method(), self.checks()) matches Ok(code)
                    && is_lowered(f, self.method(), self.id(), self.checks(), code),
                Err(e) => lower_method(self.module(), self.method(), self.checks()) == Err::<
                    FunctionModel,
                    Seq<char>,
                >(e@),
            },
    {
        let method: &MethodDef = self.method;
        if method.handlers.len() > 0 {
            return Err(own("exception handlers are not supported by the JIT yet"));
        }
        let cfg: Cfg = build_cfg(&method.body)?;
        proof {
            block_ranges_bounds(method.body@);
            blocks_bounded(method.body@);
            succs_bounded(method.body@, cfg);
        }
        let analysis: Analysis = analyze(self.module, method, &cfg)?;
        let reach: Vec<bool> = reachable_blocks(&cfg.succs);
        assert(reach@ =~= reach_marks(lists(cfg.succs@)));
        let (types, params) = preallocate_params(&analysis.states, &reach)?;
        proof {
            alloc_params_below(states_model(analysis.states@), reach@, 0, seq![], seq![]);
        }
        let source: Source = Source {
            module: self.module,
            method,
            checks: self.overflow_checks,
            cfg: &cfg,
            locals: &analysis.local_types,
            params: &params,
            reach: &reach,
        };
        let mut lw: Lowering = Lowering {
            types,
            helper_ops: Vec::new(),
            insns: Vec::new(),
            stack: Vec::new(),
            helpers: Ghost(Seq::empty()),
        };
        let blocks: Vec<Block> = source.blocks(&mut lw)?;
        let params_count: u16 = if method.is_instance {
            method.params.len() as u16 + 1
        } else {
            method.params.len() as u16
        };
        let f: Function = Function {
            method_id: self.method_id,
            name: method.name.clone(),
            blocks,
            types: lw.types,
            helper_ops: lw.helper_ops,
            locals: method.locals,
            params: params_count,
            local_types: clone_kinds(&analysis.local_types),
            max_stack: method.max_stack,
            spill_bytes: 0,
            overflow_checks: self.overflow_checks,
        };
        Ok(f)
    }
}

} // verus!
