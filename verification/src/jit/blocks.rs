//! Lowered blocks do what the interpreter does from one end to the other.

use crate::bytecode::{method_of, Op};
use crate::jit::analyze::operand_count as compiled_count;
use crate::jit::cfg::{
    block_at, block_from_bounds, block_succs, cond_succs, target_block, terminator, terminator_bounds,
};
use crate::jit::codegen::fall_of;
use crate::jit::ir::{InsnModel, KType, Term, VReg};
use crate::jit::lower::{
    alloc_params, edge_from, end_block, end_cond, end_jump, lower, lower_block, lower_range, regs_below,
    entry_types, Blocks, Ending, Low, Lowered, Plan,
};
use crate::jit::simulate::{
    abreast, arity_fits, in_range, inner, insn_meaning, op_meaning, operation_law, run_lowered, values,
    with_reg, Around, IrState,
};
use crate::vm::frames::FrameModel;
use crate::vm::inspect::dispatched;
use crate::vm::machine::frame_effect;
use crate::vm::ops::StoreModel;
use crate::vm::value::{truthy, Value};
use crate::vm::world::Effect;
use vstd::prelude::*;

verus! {

/// What the operations in `[i, t)` do in the interpreter, and the texts that are
/// shown meanwhile. It ends where something else than a text comes of one.
pub open spec fn range_meaning(
    a: Around,
    i: int,
    t: int,
    s: StoreModel,
    f: FrameModel,
    shown: Seq<Seq<char>>,
) -> (Effect, StoreModel, FrameModel, Seq<Seq<char>>)
    decreases t - i,
{
    if i >= t {
        (Effect::Nothing, s, f, shown)
    } else {
        let (e, s1, f1) = op_meaning(a, s, f, a.body[i]);
        match e {
            Effect::Nothing => range_meaning(a, i + 1, t, s1, f1, shown),
            Effect::Show(x) => range_meaning(a, i + 1, t, s1, f1, shown.push(x)),
            e => (e, s1, f1, shown),
        }
    }
}

/// What the instructions from `j` on do, and the texts that are shown meanwhile.
pub open spec fn insns_meaning(
    a: Around,
    helpers: Seq<int>,
    m: IrState,
    insns: Seq<InsnModel>,
    j: int,
    shown: Seq<Seq<char>>,
) -> (Effect, IrState, Seq<Seq<char>>)
    decreases insns.len() - j,
{
    if j < 0 || j >= insns.len() {
        (Effect::Nothing, m, shown)
    } else {
        let (e, m1) = insn_meaning(a, helpers, m, insns[j]);
        match e {
            Effect::Nothing => insns_meaning(a, helpers, m1, insns, j + 1, shown),
            Effect::Show(x) => insns_meaning(a, helpers, m1, insns, j + 1, shown.push(x)),
            e => (e, m1, shown),
        }
    }
}

/// Every method that a virtual call can come to takes as many operands as the
/// compiler takes.
pub open spec fn arity_known(a: Around, op: Op) -> bool {
    op matches Op::CallVirt(name) ==> forall|c: crate::bytecode::ClassId|
        (#[trigger] dispatched(a.module, c, name@)) matches Ok(id) ==> (method_of(
            a.module,
            id,
        ) matches Some(d) && Ok::<nat, Seq<char>>(d.params@.len() + 1) == compiled_count(
            a.module,
            op,
        ))
}

proof fn known_arity_fits(a: Around, s: StoreModel, f: FrameModel, op: Op)
    requires
        arity_known(a, op),
    ensures
        arity_fits(a, s, f, op),
{
}

/// An operation adds at most one instruction and at most one delegated
/// operation.
pub proof fn lowering_appends(p: Plan, st: Low, after: Low, op: Op, pc: int)
    requires
        lower(p.module, p.locals, p.checks, st, op, pc) == Lowered::Ok(after),
        st.types.len() <= u32::MAX,
    ensures
        after.insns == st.insns || after.insns == st.insns.push(after.insns.last()),
        after.helpers == st.helpers || after.helpers == st.helpers.push(pc),
        st.types.len() <= after.types.len() <= u32::MAX,
        after.insns.len() > st.insns.len() ==> (after.insns.last() matches InsnModel::Helper {
            op_id,
            ..
        } ==> op_id == st.helpers.len() as u32 && after.helpers.len() == st.helpers.len() + 1),
{
    if let Ok(n) = compiled_count(p.module, op) {
        let len = st.stack.len() as int;
    }
}

/// Operations add instructions and delegated operations behind what is there.
pub proof fn range_appends(p: Plan, i: int, t: int, st: Low, after: Low)
    requires
        lower_range(p, i, t, st) == Lowered::Ok(after),
        st.types.len() <= u32::MAX,
    ensures
        st.insns.len() <= after.insns.len(),
        after.insns.subrange(0, st.insns.len() as int) == st.insns,
        st.helpers.len() <= after.helpers.len(),
        after.helpers.subrange(0, st.helpers.len() as int) == st.helpers,
        st.types.len() <= after.types.len() <= u32::MAX,
    decreases t - i,
{
    if i >= t {
        assert(st.insns.subrange(0, st.insns.len() as int) =~= st.insns);
        assert(st.helpers.subrange(0, st.helpers.len() as int) =~= st.helpers);
    } else {
        let next = lower(p.module, p.locals, p.checks, st, p.body[i], i)->Ok_0;
        lowering_appends(p, st, next, p.body[i], i);
        range_appends(p, i + 1, t, next, after);
        assert(after.insns.subrange(0, st.insns.len() as int) =~= after.insns.subrange(
            0,
            next.insns.len() as int,
        ).subrange(0, st.insns.len() as int));
        assert(next.insns.subrange(0, st.insns.len() as int) =~= st.insns);
        assert(after.helpers.subrange(0, st.helpers.len() as int) =~= after.helpers.subrange(
            0,
            next.helpers.len() as int,
        ).subrange(0, st.helpers.len() as int));
        assert(next.helpers.subrange(0, st.helpers.len() as int) =~= st.helpers);
    }
}

/// No operation changes the number of locals.
pub proof fn locals_stay(a: Around, s: StoreModel, f: FrameModel, op: Op)
    ensures
        op_meaning(a, s, f, op).2.locals.len() == f.locals.len(),
{
}

/// The plan is for the body, the program and the checks that surround the code.
pub open spec fn planned(a: Around, p: Plan) -> bool {
    &&& p.module == a.module
    &&& p.body == a.body
    &&& p.checks == a.checks
}

/// The operations in `[i, t)` stay in the block and name locals that exist, and
/// the arity of their calls is known.
pub open spec fn straight(a: Around, i: int, t: int, locals: nat) -> bool {
    forall|k: int|
        i <= k < t ==> inner(#[trigger] a.body[k]) && in_range(a.body[k], locals) && arity_known(
            a,
            a.body[k],
        )
}

/// Lowering preserves what a run of operations does: the same comes of it, the
/// same is shown, heap and static fields are the same after it, and where it
/// ends, the registers on the stack of the lowering hold the operands.
pub proof fn range_law(
    a: Around,
    p: Plan,
    i: int,
    t: int,
    st: Low,
    after: Low,
    m: IrState,
    s: StoreModel,
    f: FrameModel,
    shown: Seq<Seq<char>>,
)
    requires
        planned(a, p),
        straight(a, i, t, f.locals.len()),
        abreast(st, m, s, f),
        regs_below(st.stack, st.types.len() as int),
        st.types.len() <= u32::MAX,
        after.helpers.len() < u32::MAX,
        lower_range(p, i, t, st) == Lowered::Ok(after),
    ensures
        ({
            let (e, s1, f1, out) = range_meaning(a, i, t, s, f, shown);
            let (d, m1, told) = insns_meaning(
                a,
                after.helpers,
                m,
                after.insns,
                st.insns.len() as int,
                shown,
            );
            &&& e == d
            &&& out == told
            &&& m1.store == s1
            &&& e is Nothing ==> abreast(after, m1, s1, f1) && f1.locals.len() == f.locals.len()
            &&& regs_below(after.stack, after.types.len() as int)
        }),
    decreases t - i,
{
    if i < t {
        let op = a.body[i];
        let next = lower(p.module, p.locals, p.checks, st, op, i)->Ok_0;
        lowering_appends(p, st, next, op, i);
        range_appends(p, i + 1, t, next, after);
        known_arity_fits(a, s, f, op);
        operation_law(a, p.locals, st, next, m, s, f, op, i);
        locals_stay(a, s, f, op);
        let (e, s1, f1) = op_meaning(a, s, f, op);
        let (d, m1) = run_lowered(a, st, next, m);
        let j = st.insns.len() as int;
        if next.insns.len() > j {
            assert(after.insns[j] == after.insns.subrange(0, next.insns.len() as int)[j]);
            assert(after.insns[j] == next.insns.last());
            if let InsnModel::Helper { op_id, .. } = next.insns.last() {
                assert(after.helpers[op_id as int] == after.helpers.subrange(
                    0,
                    next.helpers.len() as int,
                )[op_id as int]);
            }
            assert(insn_meaning(a, after.helpers, m, after.insns[j]) == (d, m1));
        }
        match e {
            Effect::Nothing => range_law(a, p, i + 1, t, next, after, m1, s1, f1, shown),
            Effect::Show(x) => range_law(
                a,
                p,
                i + 1,
                t,
                next,
                after,
                m1,
                s1,
                f1,
                shown.push(x),
            ),
            _ => {
                stack_stays_below(a, p, i + 1, t, next, after);
            },
        }
    }
}

proof fn stack_stays_below(a: Around, p: Plan, i: int, t: int, st: Low, after: Low)
    requires
        planned(a, p),
        regs_below(st.stack, st.types.len() as int),
        st.types.len() <= u32::MAX,
        lower_range(p, i, t, st) == Lowered::Ok(after),
    ensures
        regs_below(after.stack, after.types.len() as int),
    decreases t - i,
{
    if i < t {
        let next = lower(p.module, p.locals, p.checks, st, p.body[i], i)->Ok_0;
        lowering_appends(p, st, next, p.body[i], i);
        new_stack_is_below(p, st, next, p.body[i], i);
        stack_stays_below(a, p, i + 1, t, next, after);
    }
}

proof fn new_stack_is_below(p: Plan, st: Low, after: Low, op: Op, pc: int)
    requires
        lower(p.module, p.locals, p.checks, st, op, pc) == Lowered::Ok(after),
        regs_below(st.stack, st.types.len() as int),
        st.types.len() <= u32::MAX,
    ensures
        regs_below(after.stack, after.types.len() as int),
{
    if let Ok(n) = compiled_count(p.module, op) {
        let len = st.stack.len() as int;
        assert forall|k: int| 0 <= k < after.stack.len() implies (#[trigger] after.stack[k])
            < after.types.len() by {
            if k < len {
                assert(st.stack[k] < st.types.len());
            }
        }
    }
}

// ---------------------------------------------------------------------------
// The ends of blocks
// ---------------------------------------------------------------------------

/// Where a block is left.
pub ghost enum Exit<S> {
    /// The method returns a value.
    Return(Value),
    /// It goes on at a place.
    Goto(int, S),
    /// The block does not end here.
    Stuck,
}

/// How the interpreter leaves a block whose straight-line part ends at `t` and
/// which ends at `e`: at which operation it goes on, with which operands.
pub open spec fn exit_meaning(a: Around, f: FrameModel, t: int, e: int) -> Exit<Seq<Value>> {
    if t >= e {
        Exit::Goto(e, f.stack)
    } else {
        match a.body[t] {
            Op::Ret => Exit::Return(
                if f.stack.len() > 0 {
                    f.stack.last()
                } else {
                    Value::Unit
                },
            ),
            Op::Br(_) | Op::BrTrue(_) | Op::BrFalse(_) => match frame_effect(
                a.module,
                FrameModel { pc: (t + 1) as usize, ..f },
                a.body[t],
            ) {
                Some(Ok(g)) => Exit::Goto(g.pc as int, g.stack),
                _ => Exit::Stuck,
            },
            _ => Exit::Stuck,
        }
    }
}

/// The state after the first `n` moves, one after the other.
pub open spec fn moved(m: IrState, moves: Seq<(VReg, VReg)>, n: int) -> IrState
    decreases n,
{
    if n <= 0 {
        m
    } else {
        let x = moved(m, moves, n - 1);
        with_reg(x, moves[n - 1].0, x.regs[moves[n - 1].1])
    }
}

/// The moves on the edge to a successor, tried from `i` on.
pub open spec fn moves_to(moves: Seq<(usize, Seq<(VReg, VReg)>)>, succ: usize, i: int) -> Seq<
    (VReg, VReg),
>
    decreases moves.len() - i,
{
    if i < 0 || i >= moves.len() {
        seq![]
    } else if moves[i].0 == succ {
        moves[i].1
    } else {
        moves_to(moves, succ, i + 1)
    }
}

/// The edge to a successor is taken.
pub open spec fn along(m: IrState, moves: Seq<(usize, Seq<(VReg, VReg)>)>, succ: usize) -> Exit<
    IrState,
> {
    let mine = moves_to(moves, succ, 0);
    Exit::Goto(succ as int, moved(m, mine, mine.len() as int))
}

/// How lowered code leaves a block.
pub open spec fn term_meaning(
    m: IrState,
    term: Term,
    moves: Seq<(usize, Seq<(VReg, VReg)>)>,
    succs: Seq<usize>,
) -> Exit<IrState> {
    match term {
        Term::Ret(v) => Exit::Return(m.regs[v]),
        Term::Br(target) => along(m, moves, target),
        Term::BrTrue(v, target) => if truthy(m.regs[v]) {
            along(m, moves, target)
        } else {
            along(m, moves, fall_or(succs, target))
        },
        Term::BrFalse(v, target) => if truthy(m.regs[v]) {
            along(m, moves, fall_or(succs, target))
        } else {
            along(m, moves, target)
        },
        Term::Unreachable => Exit::Stuck,
    }
}

/// The successor where a branch is not taken.
pub open spec fn fall_or(succs: Seq<usize>, target: usize) -> usize {
    match fall_of(succs, target, 0) {
        Some(f) => f,
        None => target,
    }
}

/// Values can be moved one after the other from the registers on the stack into
/// parameters: no parameter is overwritten while it is still to be moved.
pub open spec fn movable(params: Seq<VReg>, stack: Seq<VReg>) -> bool {
    &&& params.len() == stack.len()
    &&& forall|j: int, k: int|
        0 <= j < k < params.len() ==> #[trigger] params[j] != #[trigger] params[k]
    &&& forall|j: int, k: int|
        0 <= j < k < params.len() && #[trigger] stack[k] == #[trigger] params[j] ==> stack[j]
            == params[j]
}

/// The moves of an edge.
pub open spec fn pairs(params: Seq<VReg>, stack: Seq<VReg>) -> Seq<(VReg, VReg)> {
    Seq::new(params.len(), |j: int| (params[j], stack[j]))
}

proof fn moved_upto(m: IrState, params: Seq<VReg>, stack: Seq<VReg>, n: int)
    requires
        movable(params, stack),
        0 <= n <= params.len(),
    ensures
        forall|j: int|
            0 <= j < n ==> moved(m, pairs(params, stack), n).regs[#[trigger] params[j]]
                == m.regs[stack[j]],
        forall|r: VReg|
            (forall|j: int| 0 <= j < n ==> #[trigger] params[j] != r) ==> #[trigger] moved(
                m,
                pairs(params, stack),
                n,
            ).regs[r] == m.regs[r],
        moved(m, pairs(params, stack), n).locals == m.locals,
        moved(m, pairs(params, stack), n).store == m.store,
    decreases n,
{
    if n > 0 {
        moved_upto(m, params, stack, n - 1);
        let x = moved(m, pairs(params, stack), n - 1);
        let src = stack[n - 1];
        assert(x.regs[src] == m.regs[src]) by {
            if exists|j: int| 0 <= j < n - 1 && #[trigger] params[j] == src {
                let j = choose|j: int| 0 <= j < n - 1 && #[trigger] params[j] == src;
                assert(stack[j] == params[j]);
            }
        }
    }
}

/// Moving values along an edge gives the parameters of the successor the values
/// that stood on the stack.
pub proof fn edge_law(m: IrState, params: Seq<VReg>, stack: Seq<VReg>)
    requires
        movable(params, stack),
    ensures
        ({
            let x = moved(m, pairs(params, stack), params.len() as int);
            &&& values(x, params) == values(m, stack)
            &&& x.locals == m.locals
            &&& x.store == m.store
        }),
{
    moved_upto(m, params, stack, params.len() as int);
    let x = moved(m, pairs(params, stack), params.len() as int);
    assert(values(x, params) =~= values(m, stack));
}

proof fn edge_pairs(st: Low, params: Seq<VReg>, j: int)
    requires
        params.len() == st.stack.len(),
        0 <= j <= params.len(),
    ensures
        edge_from(st, params, j, pairs(params, st.stack).subrange(0, j)) == Ok::<
            (Low, Seq<(VReg, VReg)>),
            Seq<char>,
        >((st, pairs(params, st.stack))),
    decreases params.len() - j,
{
    let all = pairs(params, st.stack);
    if j < params.len() {
        edge_pairs(st, params, j + 1);
        assert(all.subrange(0, j).push((params[j], st.stack[j])) =~= all.subrange(0, j + 1));
    } else {
        assert(all.subrange(0, j) =~= all);
    }
}

/// The edge of a jump holds the moves from the stack.
proof fn whole_edge(st: Low, params: Seq<VReg>)
    requires
        params.len() == st.stack.len(),
    ensures
        edge_from(st, params, 0, seq![]) == Ok::<(Low, Seq<(VReg, VReg)>), Seq<char>>(
            (st, pairs(params, st.stack)),
        ),
{
    edge_pairs(st, params, 0);
    assert(pairs(params, st.stack).subrange(0, 0) =~= seq![]);
}

/// The registers that a block hands on: those on the stack, without the
/// condition where it ends in a branch.
pub open spec fn handed_on(op: Op, stack: Seq<VReg>) -> Seq<VReg> {
    if op is BrTrue || op is BrFalse {
        stack.drop_last()
    } else {
        stack
    }
}

/// The interpreter goes on where lowered code goes on, with the same operands.
pub open spec fn arrives(
    p: Plan,
    here: Exit<Seq<Value>>,
    there: Exit<IrState>,
    locals: Seq<Value>,
    s: StoreModel,
) -> bool {
    match here {
        Exit::Return(v) => there == Exit::<IrState>::Return(v),
        Exit::Goto(pc, stack) => there matches Exit::Goto(b, x) && {
            &&& 0 <= b < p.ranges.len()
            &&& block_at(p.ranges, pc) == Some(b as usize)
            &&& values(x, p.params[b]) == stack
            &&& x.locals == locals
            &&& x.store == s
        },
        Exit::Stuck => true,
    }
}

proof fn edge_arrives(
    p: Plan,
    st: Low,
    m: IrState,
    moves: Seq<(usize, Seq<(VReg, VReg)>)>,
    succ: usize,
    pc: int,
    stack: Seq<Value>,
)
    requires
        succ < p.ranges.len(),
        block_at(p.ranges, pc) == Some(succ),
        movable(p.params[succ as int], st.stack),
        moves_to(moves, succ, 0) == pairs(p.params[succ as int], st.stack),
        stack == values(m, st.stack),
    ensures
        arrives(p, Exit::Goto(pc, stack), along(m, moves, succ), m.locals, m.store),
{
    edge_law(m, p.params[succ as int], st.stack);
}

proof fn jump_arrives(p: Plan, st: Low, end: Ending, m: IrState, target: usize, pc: int)
    requires
        target < p.ranges.len(),
        block_at(p.ranges, pc) == Some(target),
        movable(p.params[target as int], st.stack),
        end_jump(p, st, target) == Ok::<Ending, Seq<char>>(end),
    ensures
        end.st == st,
        forall|succs: Seq<usize>|
            arrives(
                p,
                Exit::Goto(pc, values(m, st.stack)),
                #[trigger] term_meaning(m, end.term, end.moves, succs),
                m.locals,
                m.store,
            ),
{
    whole_edge(st, p.params[target as int]);
    edge_arrives(p, st, m, end.moves, target, pc, values(m, st.stack));
}

proof fn branch_arrives(
    p: Plan,
    st: Low,
    end: Ending,
    m: IrState,
    off: int,
    fall: int,
    on_true: bool,
)
    requires
        p.ranges.len() <= usize::MAX,
        st.stack.len() > 0,
        cond_succs(p.ranges, off, fall) is Ok,
        block_at(p.ranges, fall) is Some,
        forall|k: int|
            0 <= k < cond_succs(p.ranges, off, fall)->Ok_0.len() ==> movable(
                p.params[#[trigger] cond_succs(p.ranges, off, fall)->Ok_0[k] as int],
                st.stack.drop_last(),
            ),
        end_cond(p, st, off, fall, on_true) == Ok::<Ending, Seq<char>>(end),
    ensures
        end.st.insns == st.insns,
        ({
            let taken = truthy(m.regs[st.stack.last()]) == on_true;
            arrives(
                p,
                Exit::Goto(
                    if taken {
                        off
                    } else {
                        fall
                    },
                    values(m, st.stack.drop_last()),
                ),
                term_meaning(m, end.term, end.moves, cond_succs(p.ranges, off, fall)->Ok_0),
                m.locals,
                m.store,
            )
        }),
{
    let target = target_block(p.ranges, off)->Ok_0;
    let f = block_at(p.ranges, fall)->Some_0;
    let succs = cond_succs(p.ranges, off, fall)->Ok_0;
    block_from_bounds(p.ranges, off, 0);
    block_from_bounds(p.ranges, fall, 0);
    let popped = Low { stack: st.stack.drop_last(), ..st };
    assert(succs[0] == target);
    assert(movable(p.params[succs[0] as int], popped.stack));
    whole_edge(popped, p.params[target as int]);
    let vs = values(m, popped.stack);
    if f != target {
        assert(succs[1] == f);
        assert(movable(p.params[succs[1] as int], popped.stack));
        whole_edge(popped, p.params[f as int]);
        assert(fall_of(succs, target, 1) == Some(f));
        assert(fall_of(succs, target, 0) == Some(f));
        assert(moves_to(end.moves, f, 1) == pairs(p.params[f as int], popped.stack));
        assert(moves_to(end.moves, f, 0) == pairs(p.params[f as int], popped.stack));
    } else {
        assert(fall_of(succs, target, 1) is None);
        assert(fall_of(succs, target, 0) is None);
    }
    assert(moves_to(end.moves, target, 0) == pairs(p.params[target as int], popped.stack));
    edge_arrives(p, popped, m, end.moves, target, off, vs);
    edge_arrives(p, popped, m, end.moves, f, fall, vs);
}

/// Lowering preserves how a block is left: it returns the same value, or goes on
/// in the block that starts where the interpreter goes on, whose parameters hold
/// the operands.
pub proof fn exit_law(
    a: Around,
    p: Plan,
    b: int,
    st: Low,
    end: Ending,
    m: IrState,
    s: StoreModel,
    f: FrameModel,
)
    requires
        planned(a, p),
        0 <= b < p.ranges.len() <= usize::MAX,
        p.ranges[b].0 <= p.ranges[b].1,
        abreast(st, m, s, f),
        block_succs(p.body, p.ranges, b) == Ok::<Seq<usize>, Seq<char>>(p.succs[b]),
        ({
            let (lo, e) = p.ranges[b];
            let t = terminator(p.body, lo as int, e as int);
            &&& end_block(p, t, e as int, st) == Ok::<Ending, Seq<char>>(end)
            &&& t >= e ==> block_at(p.ranges, e as int) is Some
            &&& t < e && (p.body[t] is BrTrue || p.body[t] is BrFalse) ==> block_at(
                p.ranges,
                t + 1,
            ) is Some
            &&& forall|k: int|
                0 <= k < p.succs[b].len() ==> movable(
                    p.params[#[trigger] p.succs[b][k] as int],
                    if t < e {
                        handed_on(p.body[t], st.stack)
                    } else {
                        st.stack
                    },
                )
        }),
    ensures
        ({
            let (lo, e) = p.ranges[b];
            let t = terminator(p.body, lo as int, e as int);
            let here = exit_meaning(a, f, t, e as int);
            &&& arrives(p, here, term_meaning(m, end.term, end.moves, p.succs[b]), f.locals, s)
            &&& here is Goto ==> end.st.insns == st.insns
        }),
{
    let (lo, e) = p.ranges[b];
    let t = terminator(p.body, lo as int, e as int);
    terminator_bounds(p.body, lo as int, e as int);
    if t >= e {
        block_from_bounds(p.ranges, e as int, 0);
        let target = block_at(p.ranges, e as int)->Some_0;
        assert(p.succs[b][0] == target);
        jump_arrives(p, st, end, m, target, e as int);
    } else {
        match p.body[t] {
            Op::Br(off) => {
                block_from_bounds(p.ranges, off as int, 0);
                let target = target_block(p.ranges, off as int)->Ok_0;
                assert(p.succs[b][0] == target);
                jump_arrives(p, st, end, m, target, off as int);
            },
            Op::BrTrue(off) => {
                assert(values(m, st.stack.drop_last()) =~= f.stack.drop_last());
                assert(f.stack.last() == m.regs[st.stack.last()]);
                branch_arrives(p, st, end, m, off as int, t + 1, true);
            },
            Op::BrFalse(off) => {
                assert(values(m, st.stack.drop_last()) =~= f.stack.drop_last());
                assert(f.stack.last() == m.regs[st.stack.last()]);
                branch_arrives(p, st, end, m, off as int, t + 1, false);
            },
            _ => {},
        }
    }
}

// ---------------------------------------------------------------------------
// Whole blocks
// ---------------------------------------------------------------------------

/// The registers below `n` on a stack are parameters, and each of these still
/// stands where it stood at the entry.
spec fn settled_low(stack: Seq<VReg>, params: Seq<VReg>, n: int) -> bool {
    forall|k: int|
        0 <= k < stack.len() && (#[trigger] stack[k]) < n ==> exists|j: int|
            0 <= j <= k && j < params.len() && stack[k] == #[trigger] params[j] && stack[j]
                == params[j]
}

#[verifier::spinoff_prover]
#[verifier::rlimit(80)]
proof fn operation_settles(p: Plan, st: Low, after: Low, op: Op, pc: int, params: Seq<VReg>, n: int)
    requires
        lower(p.module, p.locals, p.checks, st, op, pc) == Lowered::Ok(after),
        settled_low(st.stack, params, n),
        n <= st.types.len() <= u32::MAX,
    ensures
        settled_low(after.stack, params, n),
        n <= after.types.len(),
{
    let len = st.stack.len() as int;
    let count = if op is Dup {
        0
    } else {
        compiled_count(p.module, op)->Ok_0 as int
    };
    let rest = st.stack.subrange(0, len - count);
    assert(settled_low(rest, params, n)) by {
        assert forall|k: int| 0 <= k < rest.len() && (#[trigger] rest[k]) < n implies exists|j: int|
            0 <= j <= k && j < params.len() && rest[k] == #[trigger] params[j] && rest[j]
                == params[j] by {
            assert(st.stack[k] < n);
            let j = choose|j: int|
                0 <= j <= k && j < params.len() && st.stack[k] == #[trigger] params[j]
                    && st.stack[j] == params[j];
            assert(rest[j] == params[j]);
        }
    }
    if op is Dup {
        assert(rest =~= st.stack);
        assert forall|k: int| 0 <= k < after.stack.len() && (#[trigger] after.stack[k])
            < n implies exists|j: int|
            0 <= j <= k && j < params.len() && after.stack[k] == #[trigger] params[j]
                && after.stack[j] == params[j] by {
            let i = if k < len {
                k
            } else {
                len - 1
            };
            assert(st.stack[i] < n);
            let j = choose|j: int|
                0 <= j <= i && j < params.len() && st.stack[i] == #[trigger] params[j]
                    && st.stack[j] == params[j];
            assert(after.stack[j] == params[j]);
        }
    } else {
        assert(after.stack == rest || after.stack == rest.push(st.types.len() as u32));
        assert forall|k: int| 0 <= k < after.stack.len() && (#[trigger] after.stack[k])
            < n implies exists|j: int|
            0 <= j <= k && j < params.len() && after.stack[k] == #[trigger] params[j]
                && after.stack[j] == params[j] by {
            assert(k < rest.len());
            assert(rest[k] < n);
            let j = choose|j: int|
                0 <= j <= k && j < params.len() && rest[k] == #[trigger] params[j] && rest[j]
                    == params[j];
            assert(after.stack[j] == params[j]);
        }
    }
}

proof fn range_settles(p: Plan, i: int, t: int, st: Low, after: Low, params: Seq<VReg>, n: int)
    requires
        lower_range(p, i, t, st) == Lowered::Ok(after),
        settled_low(st.stack, params, n),
        n <= st.types.len() <= u32::MAX,
    ensures
        settled_low(after.stack, params, n),
    decreases t - i,
{
    if i < t {
        let next = lower(p.module, p.locals, p.checks, st, p.body[i], i)->Ok_0;
        lowering_appends(p, st, next, p.body[i], i);
        operation_settles(p, st, next, p.body[i], i, params, n);
        range_settles(p, i + 1, t, next, after, params, n);
    }
}

/// Every register is a parameter of one block at most, once, and the parameters
/// are the first `n` registers.
pub open spec fn params_apart(params: Seq<Seq<VReg>>, n: int) -> bool {
    &&& forall|b: int, j: int|
        0 <= b < params.len() && 0 <= j < params[b].len() ==> (#[trigger] params[b][j]) < n
    &&& forall|b: int, j: int, c: int, k: int|
        0 <= b < params.len() && 0 <= j < params[b].len() && 0 <= c < params.len() && 0 <= k
            < params[c].len() && #[trigger] params[b][j] == #[trigger] params[c][k] ==> b == c && j
            == k
}

proof fn settled_is_movable(
    params: Seq<Seq<VReg>>,
    n: int,
    b: int,
    succ: int,
    stack: Seq<VReg>,
)
    requires
        params_apart(params, n),
        0 <= b < params.len(),
        0 <= succ < params.len(),
        settled_low(stack, params[b], n),
        params[succ].len() == stack.len(),
    ensures
        movable(params[succ], stack),
{
    let mine = params[succ];
    assert forall|j: int, k: int|
        0 <= j < k < mine.len() && #[trigger] stack[k] == #[trigger] mine[j] implies stack[j]
        == mine[j] by {
        assert(params[succ][j] < n);
        assert(stack[k] < n);
        let i = choose|i: int|
            0 <= i <= k && i < params[b].len() && stack[k] == #[trigger] params[b][i] && stack[i]
                == params[b][i];
        assert(params[b][i] == params[succ][j]);
    }
    assert forall|j: int, k: int| 0 <= j < k < mine.len() implies #[trigger] mine[j]
        != #[trigger] mine[k] by {
        assert(params[succ][j] == mine[j] && params[succ][k] == mine[k]);
    }
}

proof fn popped_is_settled(stack: Seq<VReg>, params: Seq<VReg>, n: int)
    requires
        settled_low(stack, params, n),
        stack.len() > 0,
    ensures
        settled_low(stack.drop_last(), params, n),
{
    let rest = stack.drop_last();
    assert forall|k: int| 0 <= k < rest.len() && (#[trigger] rest[k]) < n implies exists|j: int|
        0 <= j <= k && j < params.len() && rest[k] == #[trigger] params[j] && rest[j]
            == params[j] by {
        assert(stack[k] < n);
        let j = choose|j: int|
            0 <= j <= k && j < params.len() && stack[k] == #[trigger] params[j] && stack[j]
                == params[j];
        assert(rest[j] == params[j]);
    }
}

/// Where the straight-line part of a block ends.
pub open spec fn ends_at(p: Plan, b: int) -> int {
    terminator(p.body, p.ranges[b].0 as int, p.ranges[b].1 as int)
}

/// The operations of a block that become instructions: the straight-line part,
/// and a `throw` behind it.
pub open spec fn lowered_to(p: Plan, b: int) -> int {
    let t = ends_at(p, b);
    if t < p.ranges[b].1 && p.body[t] is Throw {
        t + 1
    } else {
        t
    }
}

/// The state in which the lowering of a block starts.
pub open spec fn at_entry(p: Plan, b: int, acc: Blocks) -> Low {
    Low { types: acc.types, helpers: acc.helpers, insns: seq![], stack: p.params[b] }
}

/// A block can be left: what follows it is a block, and the stack has the height
/// that the successors expect.
pub open spec fn leavable(p: Plan, b: int, acc: Blocks) -> bool {
    let e = p.ranges[b].1 as int;
    let t = ends_at(p, b);
    &&& t >= e ==> block_at(p.ranges, e) is Some
    &&& t < e && (p.body[t] is BrTrue || p.body[t] is BrFalse) ==> block_at(p.ranges, t + 1) is Some
    &&& lower_range(p, p.ranges[b].0 as int, t, at_entry(p, b, acc)) matches Ok(mid) && forall|
        k: int,
    |
        0 <= k < p.succs[b].len() ==> (#[trigger] p.succs[b][k]) < p.params.len()
            && p.params[p.succs[b][k] as int].len() == (if t < e {
            handed_on(p.body[t], mid.stack)
        } else {
            mid.stack
        }).len()
}

/// Operations are lowered one after the other.
pub proof fn range_split(p: Plan, i: int, t: int, st: Low, mid: Low)
    requires
        i <= t,
        lower_range(p, i, t, st) == Lowered::Ok(mid),
    ensures
        lower_range(p, i, t + 1, st) == lower(p.module, p.locals, p.checks, mid, p.body[t], t),
    decreases t - i,
{
    if i < t {
        let next = lower(p.module, p.locals, p.checks, st, p.body[i], i)->Ok_0;
        range_split(p, i + 1, t, next, mid);
    } else {
        let r = lower(p.module, p.locals, p.checks, st, p.body[t], t);
        if let Ok(next) = r {
            assert(lower_range(p, t + 1, t + 1, next) == Lowered::Ok(next));
        }
    }
}

/// Lowering preserves what a block does, from its entry to where it is left:
/// where the parameters hold the operands and locals, heap and static fields are
/// the same, the same comes of it, the same is shown, and lowered code goes on
/// where the interpreter goes on.
pub proof fn block_law(
    a: Around,
    p: Plan,
    b: int,
    acc: Blocks,
    next: Blocks,
    n: int,
    m: IrState,
    s: StoreModel,
    f: FrameModel,
    shown: Seq<Seq<char>>,
)
    requires
        planned(a, p),
        0 <= b < p.ranges.len() <= usize::MAX,
        p.ranges[b].0 <= p.ranges[b].1,
        p.params.len() == p.ranges.len(),
        params_apart(p.params, n),
        n <= acc.types.len() <= u32::MAX,
        p.reach[b],
        block_succs(p.body, p.ranges, b) == Ok::<Seq<usize>, Seq<char>>(p.succs[b]),
        lower_block(p, b, acc) == Ok::<Blocks, Seq<char>>(next),
        next.helpers.len() < u32::MAX,
        leavable(p, b, acc),
        straight(a, p.ranges[b].0 as int, lowered_to(p, b), f.locals.len()),
        f.stack == values(m, p.params[b]),
        f.locals == m.locals,
        s == m.store,
    ensures
        ({
            let block = next.blocks.last();
            let (e, s1, f1, out) = range_meaning(
                a,
                p.ranges[b].0 as int,
                lowered_to(p, b),
                s,
                f,
                shown,
            );
            let (d, m1, told) = insns_meaning(a, next.helpers, m, block.insns, 0, shown);
            &&& e == d
            &&& out == told
            &&& m1.store == s1
            &&& e is Nothing ==> arrives(
                p,
                exit_meaning(a, f1, ends_at(p, b), p.ranges[b].1 as int),
                term_meaning(m1, block.term, block.moves, block.succs),
                f1.locals,
                s1,
            )
        }),
{
    let lo = p.ranges[b].0 as int;
    let e = p.ranges[b].1 as int;
    let t = ends_at(p, b);
    terminator_bounds(p.body, lo, e);
    let st = at_entry(p, b, acc);
    let mid = lower_range(p, lo, t, st)->Ok_0;
    let end = end_block(p, t, e, mid)->Ok_0;
    assert(settled_low(st.stack, p.params[b], n));
    assert(regs_below(st.stack, st.types.len() as int)) by {
        assert forall|k: int| 0 <= k < st.stack.len() implies (#[trigger] st.stack[k])
            < st.types.len() by {
            assert(p.params[b][k] < n);
        }
    }
    range_settles(p, lo, t, st, mid, p.params[b], n);
    if t < e && p.body[t] is Throw {
        range_split(p, lo, t, st, mid);
        range_law(a, p, lo, t + 1, st, end.st, m, s, f, shown);
    } else {
        let out_stack = if t < e {
            handed_on(p.body[t], mid.stack)
        } else {
            mid.stack
        };
        if mid.stack.len() > 0 {
            popped_is_settled(mid.stack, p.params[b], n);
        }
        assert(out_stack == mid.stack || mid.stack.len() > 0);
        assert forall|k: int| 0 <= k < p.succs[b].len() implies movable(
            p.params[#[trigger] p.succs[b][k] as int],
            out_stack,
        ) by {
            settled_is_movable(p.params, n, b, p.succs[b][k] as int, out_stack);
        }
        endings_add_nothing(p, b, mid, end);
        range_law(a, p, lo, t, st, mid, m, s, f, shown);
        let (x, s1, f1, out) = range_meaning(a, lo, t, s, f, shown);
        let (d, m1, told) = insns_meaning(a, mid.helpers, m, mid.insns, 0, shown);
        if x is Nothing {
            exit_law(a, p, b, mid, end, m1, s1, f1);
        }
    }
}

/// The end of a block that can be left adds no instruction.
pub proof fn endings_add_nothing(p: Plan, b: int, st: Low, end: Ending)
    requires
        0 <= b < p.ranges.len() <= usize::MAX,
        p.ranges[b].0 <= p.ranges[b].1,
        block_succs(p.body, p.ranges, b) == Ok::<Seq<usize>, Seq<char>>(p.succs[b]),
        ({
            let e = p.ranges[b].1 as int;
            let t = ends_at(p, b);
            &&& end_block(p, t, e, st) == Ok::<Ending, Seq<char>>(end)
            &&& t < e ==> !(p.body[t] is Throw)
            &&& forall|k: int|
                0 <= k < p.succs[b].len() ==> p.params[#[trigger] p.succs[b][k] as int].len() == (
                if t < e {
                    handed_on(p.body[t], st.stack)
                } else {
                    st.stack
                }).len()
        }),
    ensures
        end.st.insns == st.insns,
        end.st.helpers == st.helpers,
        end.st.types == st.types,
{
    let e = p.ranges[b].1 as int;
    let t = ends_at(p, b);
    terminator_bounds(p.body, p.ranges[b].0 as int, e);
    if t >= e {
        if let Some(target) = block_at(p.ranges, e) {
            assert(p.succs[b][0] == target);
            whole_edge(st, p.params[target as int]);
        }
    } else {
        match p.body[t] {
            Op::Br(off) => {
                let target = target_block(p.ranges, off as int)->Ok_0;
                assert(p.succs[b][0] == target);
                whole_edge(st, p.params[target as int]);
            },
            Op::BrTrue(off) | Op::BrFalse(off) => {
                let target = target_block(p.ranges, off as int)->Ok_0;
                let popped = Low { stack: st.stack.drop_last(), ..st };
                assert(p.succs[b][0] == target);
                whole_edge(popped, p.params[target as int]);
                if let Some(g) = block_at(p.ranges, t + 1) {
                    if g != target {
                        assert(p.succs[b][1] == g);
                        whole_edge(popped, p.params[g as int]);
                    }
                }
            },
            _ => {},
        }
    }
}

proof fn apart_upto(
    states: Seq<Option<Seq<KType>>>,
    reach: Seq<bool>,
    b: int,
    types: Seq<KType>,
    params: Seq<Seq<VReg>>,
)
    requires
        0 <= b <= reach.len(),
        params.len() == b,
        params_apart(params, types.len() as int),
        types.len() <= u32::MAX,
    ensures
        alloc_params(states, reach, b, types, params) matches Ok((ts, ps)) ==> params_apart(
            ps,
            ts.len() as int,
        ) && ps.len() == reach.len() && ts.len() <= u32::MAX,
    decreases reach.len() - b,
{
    if b < reach.len() {
        if !reach[b] {
            let next = params.push(seq![]);
            assert(params_apart(next, types.len() as int)) by {
                assert forall|x: int, j: int|
                    0 <= x < next.len() && 0 <= j < next[x].len() implies (#[trigger] next[x][j])
                    < types.len() by {
                    assert(params[x][j] < types.len());
                }
                assert forall|x: int, j: int, c: int, k: int|
                    0 <= x < next.len() && 0 <= j < next[x].len() && 0 <= c < next.len() && 0 <= k
                        < next[c].len() && #[trigger] next[x][j] == #[trigger] next[c][k] implies x
                    == c && j == k by {
                    assert(params[x][j] == params[c][k]);
                }
            }
            apart_upto(states, reach, b + 1, types, next);
        } else {
            let ts = entry_types(states, b);
            if types.len() + ts.len() <= u32::MAX {
                let mine = Seq::new(ts.len(), |j: int| (types.len() + j) as u32);
                let next = params.push(mine);
                let all = types + ts;
                assert(params_apart(next, all.len() as int)) by {
                    assert forall|x: int, j: int|
                        0 <= x < next.len() && 0 <= j < next[x].len() implies (
                    #[trigger] next[x][j]) < all.len() && (x < b ==> next[x][j] < types.len()) && (x
                        == b ==> next[x][j] == types.len() + j) by {
                        if x < b {
                            assert(params[x][j] < types.len());
                        }
                    }
                    assert forall|x: int, j: int, c: int, k: int|
                        0 <= x < next.len() && 0 <= j < next[x].len() && 0 <= c < next.len() && 0
                            <= k < next[c].len() && #[trigger] next[x][j]
                            == #[trigger] next[c][k] implies x == c && j == k by {
                        if x < b && c < b {
                            assert(params[x][j] == params[c][k]);
                        }
                    }
                }
                apart_upto(states, reach, b + 1, all, next);
            }
        }
    }
}

/// The parameters of the blocks are registers of their own.
pub proof fn params_are_apart(states: Seq<Option<Seq<KType>>>, reach: Seq<bool>)
    ensures
        alloc_params(states, reach, 0, seq![], seq![]) matches Ok((ts, ps)) ==> params_apart(
            ps,
            ts.len() as int,
        ) && ps.len() == reach.len() && ts.len() <= u32::MAX,
{
    apart_upto(states, reach, 0, seq![], seq![]);
}

} // verus!
