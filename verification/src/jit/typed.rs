//! Lowered code is typed: what is computed in place is computed on operands whose
//! types are known, so that it fails only where a checked number overflows.

use crate::bytecode::Op;
use crate::jit::analyze::{bin_delegated, operand_count as compiled_count};
use crate::jit::blocks::{insns_meaning, term_meaning, Exit};
use crate::jit::cfg::{block_at, target_block, terminator};
use crate::jit::ir::{acting, used_by, Insn, InsnModel, KType, VReg};
use crate::jit::lower::{
    conv_delegated, edge_from, end_block, lower, lower_block, lower_blocks, lower_range, next_reg,
    regs_below, Blocks, Ending, Low, Lowered, Plan,
};
use crate::jit::methods::{executed, Finish};
use crate::jit::preserve::edges_lead_inside;
use crate::jit::simulate::{insn_meaning, Around, IrState};
use crate::jit::sweep::{calm, calm_insns, shown_does_not_matter};
use crate::jit::tidy::lower_one;
use crate::vm::value::Value;
use crate::vm::world::Effect;
use vstd::prelude::*;

verus! {

/// A value is of a type that the compiler has derived.
pub open spec fn of_type(k: KType, v: Value) -> bool {
    match k {
        KType::Int => v is Int,
        KType::Float => v is Float,
        KType::Bool => v is Bool,
        KType::Char => v is Char,
        KType::Unknown => true,
    }
}

/// The operands of an instruction that computes in place are of the types that the
/// compiler has derived for them.
pub open spec fn operands_fit(types: Seq<KType>, m: IrState, i: InsnModel) -> bool {
    i is Plain ==> forall|k: int|
        0 <= k < used_by(i).len() ==> of_type(
            types[(#[trigger] used_by(i)[k]) as int],
            m.regs[used_by(i)[k]],
        )
}

/// In a run of instructions, operands are of their types.
pub open spec fn typed_insns(
    a: Around,
    helpers: Seq<int>,
    types: Seq<KType>,
    m: IrState,
    insns: Seq<InsnModel>,
    j: int,
) -> bool
    decreases insns.len() - j,
{
    0 <= j < insns.len() ==> {
        let (e, m1) = insn_meaning(a, helpers, m, insns[j]);
        &&& operands_fit(types, m, insns[j])
        &&& e is Nothing || e is Show ==> typed_insns(a, helpers, types, m1, insns, j + 1)
    }
}

/// In a run of blocks, operands are of their types.
pub open spec fn typed_run(a: Around, code: Blocks, b: int, m: IrState, fuel: nat) -> bool
    decreases fuel,
{
    fuel > 0 ==> {
        let block = code.blocks[b];
        let (e, m1, out) = insns_meaning(a, code.helpers, m, block.insns, 0, seq![]);
        &&& typed_insns(a, code.helpers, code.types, m, block.insns, 0)
        &&& e is Nothing ==> (term_meaning(m1, block.term, block.moves, block.succs)
            matches Exit::Goto(c, x) ==> typed_run(a, code, c, x, (fuel - 1) as nat))
    }
}

/// A float that the answers do not hold is asked for.
pub open spec fn asks_float(e: Effect) -> bool {
    e matches Effect::Ask(q) && q is Float
}

/// An instruction that computes in place has operands on which it is computed in
/// place.
pub open spec fn in_place(types: Seq<KType>, checks: bool, i: InsnModel) -> bool {
    match i {
        InsnModel::Plain(Insn::Bin { op, a, b, .. }) => if op is And || op is Or {
            types[a as int] == KType::Bool && types[b as int] == KType::Bool
        } else {
            !bin_delegated(op, types[a as int], types[b as int])
        },
        InsnModel::Plain(Insn::Un { op, a, .. }) => op is Neg ==> types[a as int] == KType::Int
            || types[a as int] == KType::Float,
        InsnModel::Plain(Insn::Conv { to, src, .. }) => !conv_delegated(
            to,
            types[src as int],
            checks,
        ),
        _ => true,
    }
}

/// All instructions are computed in place on such operands, and use registers that
/// have a type.
pub open spec fn all_in_place(types: Seq<KType>, checks: bool, insns: Seq<InsnModel>) -> bool {
    &&& forall|j: int| 0 <= j < insns.len() ==> in_place(types, checks, #[trigger] insns[j])
    &&& forall|j: int, k: int|
        0 <= j < insns.len() && 0 <= k < used_by(insns[j]).len() ==> (#[trigger] used_by(
            insns[j],
        )[k]) < types.len()
}

/// Every block is computed in place on such operands.
pub open spec fn code_in_place(code: Blocks, checks: bool) -> bool {
    forall|b: int|
        0 <= b < code.blocks.len() ==> all_in_place(
            code.types,
            checks,
            (#[trigger] code.blocks[b]).insns,
        )
}

/// What is not meant to act gives a value, or asks for a float.
proof fn in_place_gives(a: Around, helpers: Seq<int>, types: Seq<KType>, m: IrState, i: InsnModel)
    requires
        in_place(types, a.checks, i),
        operands_fit(types, m, i),
        !acting(a.checks, i),
    ensures
        insn_meaning(a, helpers, m, i).0 is Nothing || asks_float(
            insn_meaning(a, helpers, m, i).0,
        ),
{
    if let InsnModel::Plain(p) = i {
        if used_by(i).len() > 0 {
            assert(of_type(types[used_by(i)[0] as int], m.regs[used_by(i)[0]]));
        }
        if used_by(i).len() > 1 {
            assert(of_type(types[used_by(i)[1] as int], m.regs[used_by(i)[1]]));
        }
    }
}

proof fn typed_insns_calm(
    a: Around,
    helpers: Seq<int>,
    types: Seq<KType>,
    m: IrState,
    insns: Seq<InsnModel>,
    j: int,
    shown: Seq<Seq<char>>,
)
    requires
        0 <= j,
        all_in_place(types, a.checks, insns),
        typed_insns(a, helpers, types, m, insns, j),
        !asks_float(insns_meaning(a, helpers, m, insns, j, shown).0),
    ensures
        calm_insns(a, helpers, m, insns, j),
    decreases insns.len() - j,
{
    if j < insns.len() {
        let (e, m1) = insn_meaning(a, helpers, m, insns[j]);
        assert(in_place(types, a.checks, insns[j]));
        if !acting(a.checks, insns[j]) {
            in_place_gives(a, helpers, types, m, insns[j]);
        }
        match e {
            Effect::Nothing => typed_insns_calm(a, helpers, types, m1, insns, j + 1, shown),
            Effect::Show(x) => typed_insns_calm(a, helpers, types, m1, insns, j + 1, shown.push(x)),
            _ => {},
        }
    }
}

/// In a typed run that asks for no float, what is not meant to act never fails.
pub proof fn typed_runs_are_calm(
    a: Around,
    code: Blocks,
    b: int,
    m: IrState,
    shown: Seq<Seq<char>>,
    fuel: nat,
)
    requires
        code_in_place(code, a.checks),
        edges_lead_inside(code.blocks),
        0 <= b < code.blocks.len(),
        typed_run(a, code, b, m, fuel),
        !(executed(a, code, b, m, shown, fuel).0 matches Finish::Came(e) && asks_float(e)),
    ensures
        calm(a, code, b, m, fuel),
    decreases fuel,
{
    if fuel > 0 {
        let block = code.blocks[b];
        let (e, m1, out) = insns_meaning(a, code.helpers, m, block.insns, 0, shown);
        shown_does_not_matter(a, code.helpers, m, block.insns, 0, shown, seq![]);
        typed_insns_calm(a, code.helpers, code.types, m, block.insns, 0, shown);
        if e is Nothing {
            if let Exit::Goto(c, x) = term_meaning(m1, block.term, block.moves, block.succs) {
                typed_runs_are_calm(a, code, c, x, out, (fuel - 1) as nat);
            }
        }
    }
}

/// The list of types has grown.
spec fn grown(old: Seq<KType>, new: Seq<KType>) -> bool {
    &&& old.len() <= new.len()
    &&& forall|k: int| 0 <= k < old.len() ==> new[k] == old[k]
}

proof fn in_place_grown(old: Seq<KType>, new: Seq<KType>, checks: bool, insns: Seq<InsnModel>)
    requires
        grown(old, new),
        all_in_place(old, checks, insns),
    ensures
        all_in_place(new, checks, insns),
{
    assert forall|j: int| 0 <= j < insns.len() implies in_place(new, checks, #[trigger] insns[j]) by {
        let i = insns[j];
        assert(in_place(old, checks, i));
        if used_by(i).len() > 0 {
            assert(used_by(insns[j])[0] < old.len());
        }
        if used_by(i).len() > 1 {
            assert(used_by(insns[j])[1] < old.len());
        }
    }
    assert forall|j: int, k: int| 0 <= j < insns.len() && 0 <= k < used_by(insns[j]).len() implies (
    #[trigger] used_by(insns[j])[k]) < new.len() by {
        assert(used_by(insns[j])[k] < old.len());
    }
}

proof fn in_place_pushed(types: Seq<KType>, checks: bool, insns: Seq<InsnModel>, i: InsnModel)
    requires
        all_in_place(types, checks, insns),
        in_place(types, checks, i),
        forall|k: int| 0 <= k < used_by(i).len() ==> (#[trigger] used_by(i)[k]) < types.len(),
    ensures
        all_in_place(types, checks, insns.push(i)),
{
    let all = insns.push(i);
    assert forall|j: int| 0 <= j < all.len() implies in_place(types, checks, #[trigger] all[j]) by {
        if j < insns.len() {
            assert(all[j] == insns[j]);
        }
    }
    assert forall|j: int, k: int| 0 <= j < all.len() && 0 <= k < used_by(all[j]).len() implies (
    #[trigger] used_by(all[j])[k]) < types.len() by {
        if j < insns.len() {
            assert(all[j] == insns[j]);
            assert(used_by(insns[j])[k] < types.len());
        }
    }
}

/// The lowering of a block is typed so far.
spec fn typed_low(st: Low, checks: bool) -> bool {
    &&& st.types.len() <= u32::MAX
    &&& all_in_place(st.types, checks, st.insns)
    &&& regs_below(st.stack, st.types.len() as int)
}

proof fn new_is_in_place(p: Plan, st: Low, after: Low, op: Op, pc: int)
    requires
        lower(p.module, p.locals, p.checks, st, op, pc) == Lowered::Ok(after),
        regs_below(st.stack, st.types.len() as int),
        st.types.len() <= u32::MAX,
    ensures
        grown(st.types, after.types),
        after.insns == st.insns || in_place(st.types, p.checks, after.insns.last()),
{
    if let Ok(n) = compiled_count(p.module, op) {
        let len = st.stack.len() as int;
        if n <= len {
            let args = st.stack.subrange(len - n, len);
            assert forall|k: int| 0 <= k < args.len() implies (#[trigger] args[k]) < st.types.len() by {
                assert(args[k] == st.stack[len - n + k]);
            }
        }
    }
}

proof fn op_stays_typed(p: Plan, st: Low, after: Low, op: Op, pc: int)
    requires
        lower(p.module, p.locals, p.checks, st, op, pc) == Lowered::Ok(after),
        typed_low(st, p.checks),
    ensures
        typed_low(after, p.checks),
        grown(st.types, after.types),
{
    lower_one(p, st, after, op, pc);
    new_is_in_place(p, st, after, op, pc);
    if after.insns != st.insns {
        let i = after.insns.last();
        assert forall|k: int| 0 <= k < used_by(i).len() implies (#[trigger] used_by(i)[k])
            < st.types.len() by {
            assert(st.stack.contains(used_by(i)[k]));
        }
        in_place_pushed(st.types, p.checks, st.insns, i);
        in_place_grown(st.types, after.types, p.checks, after.insns);
    } else {
        in_place_grown(st.types, after.types, p.checks, st.insns);
    }
}

proof fn range_stays_typed(p: Plan, i: int, t: int, st: Low, after: Low)
    requires
        lower_range(p, i, t, st) == Lowered::Ok(after),
        typed_low(st, p.checks),
    ensures
        typed_low(after, p.checks),
        grown(st.types, after.types),
    decreases t - i,
{
    if i < t {
        let next = lower(p.module, p.locals, p.checks, st, p.body[i], i)->Ok_0;
        op_stays_typed(p, st, next, p.body[i], i);
        range_stays_typed(p, i + 1, t, next, after);
    }
}

proof fn edge_stays_typed(st: Low, params: Seq<VReg>, j: int, moves: Seq<(VReg, VReg)>, checks: bool)
    requires
        typed_low(st, checks),
    ensures
        edge_from(st, params, j, moves) matches Ok((next, all)) ==> typed_low(next, checks) && grown(
            st.types,
            next.types,
        ) && next.stack == st.stack,
    decreases params.len() - j,
{
    if 0 <= j < params.len() {
        if j < st.stack.len() {
            edge_stays_typed(st, params, j + 1, moves.push((params[j], st.stack[j])), checks);
        } else if st.types.len() < u32::MAX {
            let dst = next_reg(st);
            let i = InsnModel::Plain(Insn::ConstNull { dst });
            let filled = Low {
                types: st.types.push(KType::Unknown),
                insns: st.insns.push(i),
                ..st
            };
            in_place_pushed(st.types, checks, st.insns, i);
            in_place_grown(st.types, filled.types, checks, filled.insns);
            assert forall|k: int| 0 <= k < filled.stack.len() implies (#[trigger] filled.stack[k])
                < filled.types.len() by {
                assert(st.stack[k] < st.types.len());
            }
            edge_stays_typed(filled, params, j + 1, moves.push((params[j], dst)), checks);
        }
    }
}

proof fn ending_stays_typed(p: Plan, t: int, e: int, st: Low, end: Ending)
    requires
        end_block(p, t, e, st) == Ok::<Ending, Seq<char>>(end),
        typed_low(st, p.checks),
    ensures
        all_in_place(end.st.types, p.checks, end.st.insns),
        end.st.types.len() <= u32::MAX,
        grown(st.types, end.st.types),
{
    if t >= e {
        if let Some(f) = block_at(p.ranges, e) {
            edge_stays_typed(st, p.params[f as int], 0, seq![], p.checks);
        }
    } else {
        match p.body[t] {
            Op::Br(off) => {
                if let Ok(f) = target_block(p.ranges, off as int) {
                    edge_stays_typed(st, p.params[f as int], 0, seq![], p.checks);
                }
            },
            Op::BrTrue(off) | Op::BrFalse(off) => {
                let target = target_block(p.ranges, off as int)->Ok_0;
                let popped = Low { stack: st.stack.drop_last(), ..st };
                assert(typed_low(popped, p.checks)) by {
                    assert forall|k: int| 0 <= k < popped.stack.len() implies (
                    #[trigger] popped.stack[k]) < st.types.len() by {
                        assert(popped.stack[k] == st.stack[k]);
                    }
                }
                edge_stays_typed(popped, p.params[target as int], 0, seq![], p.checks);
                let (st1, moves1) = edge_from(popped, p.params[target as int], 0, seq![])->Ok_0;
                if let Some(f) = block_at(p.ranges, t + 1) {
                    if f != target {
                        edge_stays_typed(st1, p.params[f as int], 0, seq![], p.checks);
                    }
                }
            },
            Op::Throw => {
                if let Ok(next) = lower(p.module, p.locals, p.checks, st, p.body[t], t) {
                    op_stays_typed(p, st, next, p.body[t], t);
                }
            },
            _ => {},
        }
    }
}

proof fn block_is_typed(p: Plan, b: int, acc: Blocks, next: Blocks, base: int)
    requires
        lower_block(p, b, acc) == Ok::<Blocks, Seq<char>>(next),
        code_in_place(acc, p.checks),
        base <= acc.types.len() <= u32::MAX,
        regs_below(p.params[b], base),
    ensures
        code_in_place(next, p.checks),
        acc.types.len() <= next.types.len() <= u32::MAX,
        grown(acc.types, next.types),
{
    if p.reach[b] {
        let (s, e) = p.ranges[b];
        let t = terminator(p.body, s as int, e as int);
        let st = Low {
            types: acc.types,
            helpers: acc.helpers,
            insns: seq![],
            stack: p.params[b],
        };
        assert(typed_low(st, p.checks)) by {
            assert forall|k: int| 0 <= k < st.stack.len() implies (#[trigger] st.stack[k])
                < acc.types.len() by {
                assert(p.params[b][k] < base);
            }
        }
        let mid = lower_range(p, s as int, t, st)->Ok_0;
        range_stays_typed(p, s as int, t, st, mid);
        let end = end_block(p, t, e as int, mid)->Ok_0;
        ending_stays_typed(p, t, e as int, mid, end);
    }
    assert forall|c: int| 0 <= c < next.blocks.len() implies all_in_place(
        next.types,
        p.checks,
        (#[trigger] next.blocks[c]).insns,
    ) by {
        if c < acc.blocks.len() {
            assert(next.blocks[c] == acc.blocks[c]);
            in_place_grown(acc.types, next.types, p.checks, acc.blocks[c].insns);
        }
    }
}

/// Lowered code computes in place only on operands whose types are known.
pub proof fn lowered_is_typed(p: Plan, b: int, acc: Blocks, code: Blocks, base: int)
    requires
        lower_blocks(p, b, acc) == Ok::<Blocks, Seq<char>>(code),
        0 <= b <= p.ranges.len(),
        code_in_place(acc, p.checks),
        base <= acc.types.len() <= u32::MAX,
        p.params.len() == p.ranges.len(),
        forall|c: int| 0 <= c < p.params.len() ==> regs_below(#[trigger] p.params[c], base),
    ensures
        code_in_place(code, p.checks),
    decreases p.ranges.len() - b,
{
    if b < p.ranges.len() {
        let next = lower_block(p, b, acc)->Ok_0;
        assert(regs_below(p.params[b], base));
        block_is_typed(p, b, acc, next, base);
        lowered_is_typed(p, b + 1, next, code, base);
    }
}

} // verus!
