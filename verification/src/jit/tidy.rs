//! Lowered code is tidy: every register is set by one instruction or by moves,
//! every register that is used has a type, and every edge leads to a block.

use crate::bytecode::Op;
use crate::jit::analyze::operand_count as compiled_count;
use crate::jit::blocks::fall_or;
use crate::jit::cfg::{block_at, block_from_bounds, target_block, terminator};
use crate::jit::codegen::fall_of;
use crate::jit::heights::edges_inside;
use crate::jit::ir::{defined_by, used_by, BlockModel, Insn, InsnModel, KType, Term, VReg};
use crate::jit::lower::{
    dead_block, edge_from, end_block, lower, lower_block, lower_blocks, lower_range, next_reg,
    regs_below, Blocks, Ending, Low, Lowered, Plan,
};
use crate::jit::optimize::term_uses;
use crate::jit::preserve::{contained, edges_lead_inside, set_before, set_once};
use crate::jit::sweep::uses_below;
use vstd::prelude::*;

verus! {

/// A register is a parameter, or one of the instructions sets it.
spec fn known(insns: Seq<InsnModel>, params: Seq<VReg>, v: VReg) -> bool {
    params.contains(v) || set_before(insns, insns.len() as int, v)
}

/// Every instruction sets a register of its own from `lo` on, and uses registers
/// that have a type and are parameters or set before.
spec fn fresh(insns: Seq<InsnModel>, params: Seq<VReg>, lo: int, hi: int) -> bool {
    &&& forall|j: int|
        0 <= j < insns.len() ==> (defined_by(#[trigger] insns[j]) matches Some(r) ==> lo <= r < hi)
    &&& forall|j: int, k: int|
        0 <= j < insns.len() && 0 <= k < insns.len() && defined_by(#[trigger] insns[j]) is Some
            && defined_by(insns[j]) == defined_by(#[trigger] insns[k]) ==> j == k
    &&& forall|j: int, k: int|
        0 <= j < insns.len() && 0 <= k < used_by(insns[j]).len() ==> (#[trigger] used_by(
            insns[j],
        )[k]) < hi && (params.contains(used_by(insns[j])[k]) || set_before(
            insns,
            j,
            used_by(insns[j])[k],
        ))
}

/// The lowering of a block is tidy so far.
spec fn tidy_low(st: Low, params: Seq<VReg>, lo: int) -> bool {
    &&& lo <= st.types.len() <= u32::MAX
    &&& forall|k: int| 0 <= k < st.stack.len() ==> known(st.insns, params, #[trigger] st.stack[k])
    &&& fresh(st.insns, params, lo, st.types.len() as int)
    &&& regs_below(st.stack, st.types.len() as int)
}

/// An operation adds at most one instruction, which sets a new register and uses
/// registers on the stack.
pub proof fn lower_one(p: Plan, st: Low, after: Low, op: Op, pc: int)
    requires
        lower(p.module, p.locals, p.checks, st, op, pc) == Lowered::Ok(after),
        st.types.len() <= u32::MAX,
        regs_below(st.stack, st.types.len() as int),
    ensures
        st.types.len() <= after.types.len() <= u32::MAX,
        regs_below(after.stack, after.types.len() as int),
        after.insns == st.insns || {
            let i = after.insns.last();
            &&& after.insns == st.insns.push(i)
            &&& defined_by(i) matches Some(r) ==> r == st.types.len() && after.types.len()
                == st.types.len() + 1
            &&& forall|k: int| 0 <= k < used_by(i).len() ==> st.stack.contains(#[trigger] used_by(i)[k])
        },
        forall|k: int|
            0 <= k < after.stack.len() ==> st.stack.contains(#[trigger] after.stack[k]) || (
            after.insns != st.insns && defined_by(after.insns.last()) == Some(after.stack[k])),
{
    if let Ok(n) = compiled_count(p.module, op) {
        let len = st.stack.len() as int;
        if n <= len {
            let rest = st.stack.subrange(0, len - n);
            let args = st.stack.subrange(len - n, len);
            assert forall|k: int| 0 <= k < rest.len() implies (#[trigger] rest[k]) < st.types.len()
                && st.stack.contains(rest[k]) by {
                assert(rest[k] == st.stack[k]);
            }
            assert forall|k: int| 0 <= k < args.len() implies (#[trigger] args[k]) < st.types.len()
                && st.stack.contains(args[k]) by {
                assert(args[k] == st.stack[len - n + k]);
            }
        }
    }
}

proof fn fresh_pushed(
    insns: Seq<InsnModel>,
    params: Seq<VReg>,
    i: InsnModel,
    lo: int,
    hi: int,
    next: int,
)
    requires
        fresh(insns, params, lo, hi),
        lo <= hi <= next,
        defined_by(i) matches Some(r) ==> r == hi && next == hi + 1,
        forall|k: int|
            0 <= k < used_by(i).len() ==> (#[trigger] used_by(i)[k]) < hi && known(
                insns,
                params,
                used_by(i)[k],
            ),
    ensures
        fresh(insns.push(i), params, lo, next),
        forall|v: VReg| known(insns, params, v) ==> #[trigger] known(insns.push(i), params, v),
        defined_by(i) matches Some(r) ==> known(insns.push(i), params, r),
{
    let all = insns.push(i);
    assert(all[insns.len() as int] == i);
    assert forall|j: int, v: VReg| 0 <= j <= insns.len() && set_before(
        insns,
        j,
        v,
    ) implies #[trigger] set_before(all, j, v) by {
        let y = choose|y: int|
            0 <= y < j && y < insns.len() && defined_by(#[trigger] insns[y]) == Some(v);
        assert(all[y] == insns[y]);
    }
    assert forall|v: VReg| known(insns, params, v) implies #[trigger] known(all, params, v) by {
        if !params.contains(v) {
            let y = choose|y: int|
                0 <= y < insns.len() && defined_by(#[trigger] insns[y]) == Some(v);
            assert(all[y] == insns[y]);
        }
    }
    assert forall|j: int| 0 <= j < all.len() implies (defined_by(#[trigger] all[j]) matches Some(r)
        ==> lo <= r < next) by {
        if j < insns.len() {
            assert(all[j] == insns[j]);
        }
    }
    assert forall|j: int, k: int|
        0 <= j < all.len() && 0 <= k < all.len() && defined_by(#[trigger] all[j]) is Some
            && defined_by(all[j]) == defined_by(#[trigger] all[k]) implies j == k by {
        if j < insns.len() {
            assert(all[j] == insns[j]);
        }
        if k < insns.len() {
            assert(all[k] == insns[k]);
        }
    }
    assert forall|j: int, k: int| 0 <= j < all.len() && 0 <= k < used_by(all[j]).len() implies (
    #[trigger] used_by(all[j])[k]) < next && (params.contains(used_by(all[j])[k]) || set_before(
        all,
        j,
        used_by(all[j])[k],
    )) by {
        if j < insns.len() {
            assert(all[j] == insns[j]);
            assert(used_by(insns[j])[k] < hi);
            assert(params.contains(used_by(insns[j])[k]) || set_before(
                insns,
                j,
                used_by(insns[j])[k],
            ));
        } else {
            assert(known(insns, params, used_by(i)[k]));
        }
    }
}

proof fn fresh_widened(
    insns: Seq<InsnModel>,
    params: Seq<VReg>,
    lo: int,
    low: int,
    hi: int,
    next: int,
)
    requires
        fresh(insns, params, lo, hi),
        low <= lo,
        hi <= next,
    ensures
        fresh(insns, params, low, next),
{
    assert forall|j: int, k: int| 0 <= j < insns.len() && 0 <= k < used_by(insns[j]).len() implies (
    #[trigger] used_by(insns[j])[k]) < next && (params.contains(used_by(insns[j])[k]) || set_before(
        insns,
        j,
        used_by(insns[j])[k],
    )) by {
        assert(used_by(insns[j])[k] < hi);
    }
}

proof fn op_stays_tidy(
    p: Plan,
    st: Low,
    after: Low,
    op: Op,
    pc: int,
    params: Seq<VReg>,
    lo: int,
)
    requires
        lower(p.module, p.locals, p.checks, st, op, pc) == Lowered::Ok(after),
        tidy_low(st, params, lo),
    ensures
        tidy_low(after, params, lo),
        st.types.len() <= after.types.len(),
{
    lower_one(p, st, after, op, pc);
    assert forall|v: VReg| #[trigger] st.stack.contains(v) implies v < st.types.len() && known(
        st.insns,
        params,
        v,
    ) by {
        let k = choose|k: int| 0 <= k < st.stack.len() && st.stack[k] == v;
        assert(known(st.insns, params, st.stack[k]));
    }
    if after.insns == st.insns {
        fresh_widened(st.insns, params, lo, lo, st.types.len() as int, after.types.len() as int);
    } else {
        fresh_pushed(
            st.insns,
            params,
            after.insns.last(),
            lo,
            st.types.len() as int,
            after.types.len() as int,
        );
    }
}

proof fn range_stays_tidy(
    p: Plan,
    i: int,
    t: int,
    st: Low,
    after: Low,
    params: Seq<VReg>,
    lo: int,
)
    requires
        lower_range(p, i, t, st) == Lowered::Ok(after),
        tidy_low(st, params, lo),
    ensures
        tidy_low(after, params, lo),
        st.types.len() <= after.types.len(),
    decreases t - i,
{
    if i < t {
        let next = lower(p.module, p.locals, p.checks, st, p.body[i], i)->Ok_0;
        op_stays_tidy(p, st, next, p.body[i], i, params, lo);
        range_stays_tidy(p, i + 1, t, next, after, params, lo);
    }
}

/// Moves set parameters, from registers that have a type.
spec fn moves_tidy(moves: Seq<(VReg, VReg)>, base: int, hi: int) -> bool {
    forall|l: int| 0 <= l < moves.len() ==> (#[trigger] moves[l]).0 < base && moves[l].1 < hi
}

proof fn edge_stays_tidy(
    st: Low,
    params: Seq<VReg>,
    j: int,
    moves: Seq<(VReg, VReg)>,
    base: int,
    own: Seq<VReg>,
    lo: int,
)
    requires
        0 <= j,
        tidy_low(st, own, lo),
        regs_below(params, base),
        moves_tidy(moves, base, st.types.len() as int),
    ensures
        edge_from(st, params, j, moves) matches Ok((next, all)) ==> {
            &&& tidy_low(next, own, lo)
            &&& st.types.len() <= next.types.len()
            &&& next.stack == st.stack
            &&& forall|v: VReg| known(st.insns, own, v) ==> #[trigger] known(next.insns, own, v)
            &&& moves_tidy(all, base, next.types.len() as int)
        },
    decreases params.len() - j,
{
    if j < params.len() {
        if j < st.stack.len() {
            let more = moves.push((params[j], st.stack[j]));
            assert(moves_tidy(more, base, st.types.len() as int)) by {
                assert forall|l: int| 0 <= l < more.len() implies (#[trigger] more[l]).0 < base
                    && more[l].1 < st.types.len() by {
                    if l < moves.len() {
                        assert(more[l] == moves[l]);
                    }
                }
            }
            edge_stays_tidy(st, params, j + 1, more, base, own, lo);
        } else if st.types.len() < u32::MAX {
            let dst = next_reg(st);
            let i = InsnModel::Plain(Insn::ConstNull { dst });
            let filled = Low {
                types: st.types.push(KType::Unknown),
                insns: st.insns.push(i),
                ..st
            };
            let hi = st.types.len() as int;
            fresh_pushed(st.insns, own, i, lo, hi, hi + 1);
            let more = moves.push((params[j], dst));
            assert(moves_tidy(more, base, hi + 1)) by {
                assert forall|l: int| 0 <= l < more.len() implies (#[trigger] more[l]).0 < base
                    && more[l].1 < hi + 1 by {
                    if l < moves.len() {
                        assert(more[l] == moves[l]);
                    }
                }
            }
            assert(tidy_low(filled, own, lo)) by {
                assert forall|k: int| 0 <= k < filled.stack.len() implies (#[trigger] filled.stack[k])
                    < hi + 1 && known(filled.insns, own, filled.stack[k]) by {
                    assert(st.stack[k] < hi);
                    assert(known(st.insns, own, st.stack[k]));
                }
            }
            edge_stays_tidy(filled, params, j + 1, more, base, own, lo);
        }
    }
}

/// How a block ends is tidy.
spec fn tidy_end(
    insns: Seq<InsnModel>,
    params: Seq<VReg>,
    term: Term,
    moves: Seq<(usize, Seq<(VReg, VReg)>)>,
    base: int,
    hi: int,
) -> bool {
    &&& forall|v: VReg| #[trigger] term_uses(term, v) ==> v < hi && known(insns, params, v)
    &&& forall|k: int| 0 <= k < moves.len() ==> moves_tidy((#[trigger] moves[k]).1, base, hi)
}

proof fn moves_widened(moves: Seq<(VReg, VReg)>, base: int, hi: int, next: int)
    requires
        moves_tidy(moves, base, hi),
        hi <= next,
    ensures
        moves_tidy(moves, base, next),
{
}

proof fn ending_stays_tidy(
    p: Plan,
    t: int,
    e: int,
    st: Low,
    end: Ending,
    base: int,
    params: Seq<VReg>,
    lo: int,
)
    requires
        end_block(p, t, e, st) == Ok::<Ending, Seq<char>>(end),
        tidy_low(st, params, lo),
        p.ranges.len() <= usize::MAX,
        p.params.len() == p.ranges.len(),
        forall|b: int| 0 <= b < p.params.len() ==> regs_below(#[trigger] p.params[b], base),
    ensures
        tidy_low(end.st, params, lo),
        st.types.len() <= end.st.types.len(),
        tidy_end(
            end.st.insns,
            params,
            end.term,
            end.moves,
            base,
            end.st.types.len() as int,
        ),
        match end.term {
            Term::Br(x) => x < p.ranges.len(),
            Term::BrTrue(_, x) => x < p.ranges.len(),
            Term::BrFalse(_, x) => x < p.ranges.len(),
            _ => true,
        },
{
    if t >= e {
        block_from_bounds(p.ranges, e, 0);
        if let Some(f) = block_at(p.ranges, e) {
            edge_stays_tidy(st, p.params[f as int], 0, seq![], base, params, lo);
        }
    } else {
        match p.body[t] {
            Op::Br(off) => {
                block_from_bounds(p.ranges, off as int, 0);
                if let Ok(f) = target_block(p.ranges, off as int) {
                    edge_stays_tidy(st, p.params[f as int], 0, seq![], base, params, lo);
                }
            },
            Op::BrTrue(off) | Op::BrFalse(off) => {
                block_from_bounds(p.ranges, off as int, 0);
                block_from_bounds(p.ranges, t + 1, 0);
                let target = target_block(p.ranges, off as int)->Ok_0;
                let popped = Low { stack: st.stack.drop_last(), ..st };
                assert(tidy_low(popped, params, lo)) by {
                    assert forall|k: int| 0 <= k < popped.stack.len() implies (
                    #[trigger] popped.stack[k]) < st.types.len() && known(
                        st.insns,
                        params,
                        popped.stack[k],
                    ) by {
                        assert(popped.stack[k] == st.stack[k]);
                        assert(known(st.insns, params, st.stack[k]));
                    }
                }
                edge_stays_tidy(popped, p.params[target as int], 0, seq![], base, params, lo);
                let (st1, moves1) = edge_from(popped, p.params[target as int], 0, seq![])->Ok_0;
                assert(st.stack.last() < st.types.len() && known(st.insns, params, st.stack.last())) by {
                    assert(st.stack[st.stack.len() - 1] < st.types.len());
                    assert(known(st.insns, params, st.stack[st.stack.len() - 1]));
                }
                assert(known(st1.insns, params, st.stack.last()));
                if let Some(f) = block_at(p.ranges, t + 1) {
                    if f != target {
                        edge_stays_tidy(st1, p.params[f as int], 0, seq![], base, params, lo);
                        let (st2, moves2) = edge_from(st1, p.params[f as int], 0, seq![])->Ok_0;
                        moves_widened(
                            moves1,
                            base,
                            st1.types.len() as int,
                            st2.types.len() as int,
                        );
                        assert(end.moves == seq![(target, moves1), (f, moves2)]);
                    }
                }
            },
            Op::Ret => {
                if st.stack.len() > 0 {
                    let rest = st.stack.drop_last();
                    assert forall|k: int| 0 <= k < rest.len() implies (#[trigger] rest[k])
                        < st.types.len() && known(st.insns, params, rest[k]) by {
                        assert(rest[k] == st.stack[k]);
                        assert(known(st.insns, params, st.stack[k]));
                    }
                    assert(st.stack[st.stack.len() - 1] < st.types.len());
                    assert(known(st.insns, params, st.stack[st.stack.len() - 1]));
                }
            },
            Op::Throw => {
                if let Ok(next) = lower(p.module, p.locals, p.checks, st, p.body[t], t) {
                    op_stays_tidy(p, st, next, p.body[t], t, params, lo);
                }
            },
            _ => {},
        }
    }
}

/// The blocks that have been lowered are tidy; `count` blocks come in all.
spec fn tidy(acc: Blocks, base: int, count: int) -> bool {
    let bs = acc.blocks;
    let hi = acc.types.len() as int;
    &&& base <= hi <= u32::MAX
    &&& set_once(bs)
    &&& forall|b: int|
        0 <= b < bs.len() ==> fresh((#[trigger] bs[b]).insns, bs[b].params, base, hi) && regs_below(
            bs[b].params,
            base,
        )
    &&& forall|b: int|
        0 <= b < bs.len() ==> tidy_end(
            (#[trigger] bs[b]).insns,
            bs[b].params,
            bs[b].term,
            bs[b].moves,
            base,
            hi,
        )
    &&& forall|b: int| 0 <= b < bs.len() ==> leads_inside(#[trigger] bs[b], count)
}

/// A block is left to one of `count` blocks.
spec fn leads_inside(b: BlockModel, count: int) -> bool {
    match b.term {
        Term::Br(t) => t < count,
        Term::BrTrue(_, t) => t < count && fall_or(b.succs, t) < count,
        Term::BrFalse(_, t) => t < count && fall_or(b.succs, t) < count,
        _ => true,
    }
}

proof fn falls_inside(succs: Seq<usize>, target: usize, i: int, count: int)
    requires
        0 <= i,
        target < count,
        forall|k: int| 0 <= k < succs.len() ==> (#[trigger] succs[k]) < count,
    ensures
        fall_of(succs, target, i) matches Some(f) ==> f < count,
    decreases succs.len() - i,
{
    if i < succs.len() && succs[i] == target {
        falls_inside(succs, target, i + 1, count);
    }
}

proof fn tidy_pushed(acc: Blocks, block: BlockModel, types: Blocks, base: int, count: int)
    requires
        tidy(acc, base, count),
        types.blocks == acc.blocks.push(block),
        acc.types.len() <= types.types.len() <= u32::MAX,
        fresh(block.insns, block.params, acc.types.len() as int, types.types.len() as int),
        regs_below(block.params, base),
        tidy_end(
            block.insns,
            block.params,
            block.term,
            block.moves,
            base,
            types.types.len() as int,
        ),
        leads_inside(block, count),
    ensures
        tidy(types, base, count),
{
    let bs = types.blocks;
    let mid = acc.types.len() as int;
    let hi = types.types.len() as int;
    assert forall|b: int| 0 <= b < bs.len() implies fresh(
        (#[trigger] bs[b]).insns,
        bs[b].params,
        base,
        hi,
    ) && regs_below(bs[b].params, base) by {
        if b < acc.blocks.len() {
            assert(bs[b] == acc.blocks[b]);
            fresh_widened(bs[b].insns, bs[b].params, base, base, mid, hi);
        } else {
            fresh_widened(bs[b].insns, bs[b].params, mid, base, hi, hi);
        }
    }
    assert forall|b: int| 0 <= b < bs.len() implies tidy_end(
        (#[trigger] bs[b]).insns,
        bs[b].params,
        bs[b].term,
        bs[b].moves,
        base,
        hi,
    ) by {
        if b < acc.blocks.len() {
            assert(bs[b] == acc.blocks[b]);
            assert(tidy_end(bs[b].insns, bs[b].params, bs[b].term, bs[b].moves, base, mid));
            assert forall|k: int| 0 <= k < bs[b].moves.len() implies moves_tidy(
                (#[trigger] bs[b].moves[k]).1,
                base,
                hi,
            ) by {
                assert(moves_tidy(bs[b].moves[k].1, base, mid));
            }
        }
    }
    assert forall|b: int| 0 <= b < bs.len() implies leads_inside(#[trigger] bs[b], count) by {
        if b < acc.blocks.len() {
            assert(bs[b] == acc.blocks[b]);
        }
    }
    assert(set_once(bs)) by {
        assert forall|b: int, j: int, c: int, k: int|
            0 <= b < bs.len() && 0 <= j < bs[b].insns.len() && 0 <= c < bs.len() && 0 <= k
                < bs[c].insns.len() && defined_by(#[trigger] bs[b].insns[j]) is Some && defined_by(
                bs[b].insns[j],
            ) == defined_by(#[trigger] bs[c].insns[k]) implies b == c && j == k by {
            if b < acc.blocks.len() {
                assert(bs[b] == acc.blocks[b]);
                assert(fresh(acc.blocks[b].insns, acc.blocks[b].params, base, mid));
                assert(acc.blocks[b].insns[j] == bs[b].insns[j]);
            }
            if c < acc.blocks.len() {
                assert(bs[c] == acc.blocks[c]);
                assert(fresh(acc.blocks[c].insns, acc.blocks[c].params, base, mid));
                assert(acc.blocks[c].insns[k] == bs[c].insns[k]);
            }
            if b >= acc.blocks.len() {
                assert(block.insns[j] == bs[b].insns[j]);
            }
            if c >= acc.blocks.len() {
                assert(block.insns[k] == bs[c].insns[k]);
            }
        }
    }
}

proof fn block_is_tidy(p: Plan, b: int, acc: Blocks, next: Blocks, base: int)
    requires
        lower_block(p, b, acc) == Ok::<Blocks, Seq<char>>(next),
        tidy(acc, base, p.ranges.len() as int),
        0 <= b < p.ranges.len() <= usize::MAX,
        p.params.len() == p.ranges.len(),
        p.succs.len() == p.ranges.len(),
        edges_inside(p.succs),
        forall|c: int| 0 <= c < p.params.len() ==> regs_below(#[trigger] p.params[c], base),
    ensures
        tidy(next, base, p.ranges.len() as int),
        next.blocks.len() == acc.blocks.len() + 1,
{
    let count = p.ranges.len() as int;
    let lo = acc.types.len() as int;
    let params = p.params[b];
    if !p.reach[b] {
        tidy_pushed(acc, dead_block(b), next, base, count);
    } else {
        let (s, e) = p.ranges[b];
        let t = terminator(p.body, s as int, e as int);
        let st = Low {
            types: acc.types,
            helpers: acc.helpers,
            insns: seq![],
            stack: p.params[b],
        };
        assert(tidy_low(st, params, lo)) by {
            assert(regs_below(p.params[b], base));
            assert forall|k: int| 0 <= k < st.stack.len() implies (#[trigger] st.stack[k]) < lo
                && known(st.insns, params, st.stack[k]) by {
                assert(p.params[b][k] < base);
                assert(params.contains(params[k]));
            }
        }
        let mid = lower_range(p, s as int, t, st)->Ok_0;
        range_stays_tidy(p, s as int, t, st, mid, params, lo);
        let end = end_block(p, t, e as int, mid)->Ok_0;
        ending_stays_tidy(p, t, e as int, mid, end, base, params, lo);
        let block = next.blocks.last();
        assert(next.blocks == acc.blocks.push(block));
        assert forall|k: int| 0 <= k < p.succs[b].len() implies (#[trigger] p.succs[b][k]) < count by {}
        match end.term {
            Term::BrTrue(_, x) => falls_inside(p.succs[b], x, 0, count),
            Term::BrFalse(_, x) => falls_inside(p.succs[b], x, 0, count),
            _ => {},
        }
        tidy_pushed(acc, block, next, base, count);
    }
}

proof fn blocks_are_tidy(p: Plan, b: int, acc: Blocks, code: Blocks, base: int)
    requires
        lower_blocks(p, b, acc) == Ok::<Blocks, Seq<char>>(code),
        tidy(acc, base, p.ranges.len() as int),
        acc.blocks.len() == b,
        0 <= b <= p.ranges.len() <= usize::MAX,
        p.params.len() == p.ranges.len(),
        p.succs.len() == p.ranges.len(),
        edges_inside(p.succs),
        forall|c: int| 0 <= c < p.params.len() ==> regs_below(#[trigger] p.params[c], base),
    ensures
        tidy(code, base, p.ranges.len() as int),
        code.blocks.len() == p.ranges.len(),
    decreases p.ranges.len() - b,
{
    if b < p.ranges.len() {
        let next = lower_block(p, b, acc)->Ok_0;
        block_is_tidy(p, b, acc, next, base);
        blocks_are_tidy(p, b + 1, next, code, base);
    }
}

/// Lowered code is tidy.
pub proof fn lowered_is_tidy(p: Plan, start: Blocks, code: Blocks)
    requires
        lower_blocks(p, 0, start) == Ok::<Blocks, Seq<char>>(code),
        start.blocks.len() == 0,
        start.types.len() <= u32::MAX,
        p.ranges.len() <= usize::MAX,
        p.params.len() == p.ranges.len(),
        p.succs.len() == p.ranges.len(),
        edges_inside(p.succs),
        forall|c: int|
            0 <= c < p.params.len() ==> regs_below(#[trigger] p.params[c], start.types.len() as int),
    ensures
        set_once(code.blocks),
        contained(code.blocks),
        edges_lead_inside(code.blocks),
        uses_below(code.blocks, code.types.len() as int),
        code.blocks.len() == p.ranges.len(),
{
    let base = start.types.len() as int;
    blocks_are_tidy(p, 0, start, code, base);
    let bs = code.blocks;
    let n = code.types.len() as int;
    assert(edges_lead_inside(bs)) by {
        assert forall|b: int| 0 <= b < bs.len() implies match (#[trigger] bs[b]).term {
            Term::Br(t) => t < bs.len(),
            Term::BrTrue(_, t) => t < bs.len() && fall_or(bs[b].succs, t) < bs.len(),
            Term::BrFalse(_, t) => t < bs.len() && fall_or(bs[b].succs, t) < bs.len(),
            _ => true,
        } by {
            assert(leads_inside(bs[b], p.ranges.len() as int));
        }
    }
    assert forall|b: int, j: int, k: int|
        0 <= b < bs.len() && 0 <= j < bs[b].insns.len() && 0 <= k < used_by(
            bs[b].insns[j],
        ).len() implies (#[trigger] used_by(bs[b].insns[j])[k]) < n by {
        assert(fresh(bs[b].insns, bs[b].params, base, n));
    }
    assert forall|b: int, v: VReg| 0 <= b < bs.len() && #[trigger] term_uses(bs[b].term, v) implies v
        < n by {
        assert(tidy_end(bs[b].insns, bs[b].params, bs[b].term, bs[b].moves, base, n));
    }
    assert forall|b: int, k: int, l: int|
        0 <= b < bs.len() && 0 <= k < bs[b].moves.len() && 0 <= l
            < bs[b].moves[k].1.len() implies (#[trigger] bs[b].moves[k].1[l]).1 < n by {
        assert(tidy_end(bs[b].insns, bs[b].params, bs[b].term, bs[b].moves, base, n));
        assert(moves_tidy(bs[b].moves[k].1, base, n));
    }
    assert(contained(bs)) by {
        assert forall|b: int, j: int, k: int|
            0 <= b < bs.len() && 0 <= j < bs[b].insns.len() && 0 <= k < used_by(
                bs[b].insns[j],
            ).len() implies bs[b].params.contains(#[trigger] used_by(bs[b].insns[j])[k])
            || set_before(bs[b].insns, j, used_by(bs[b].insns[j])[k]) by {
            assert(fresh(bs[b].insns, bs[b].params, base, n));
        }
        assert forall|b: int, v: VReg| 0 <= b < bs.len() && #[trigger] term_uses(
            bs[b].term,
            v,
        ) implies bs[b].params.contains(v) || set_before(
            bs[b].insns,
            bs[b].insns.len() as int,
            v,
        ) by {
            assert(tidy_end(bs[b].insns, bs[b].params, bs[b].term, bs[b].moves, base, n));
            assert(known(bs[b].insns, bs[b].params, v));
        }
        assert forall|b: int, j: int, c: int, v: VReg|
            0 <= b < bs.len() && 0 <= j < bs[b].insns.len() && 0 <= c < bs.len()
                && #[trigger] bs[c].params.contains(v) implies defined_by(
            #[trigger] bs[b].insns[j],
        ) != Some(v) by {
            assert(fresh(bs[b].insns, bs[b].params, base, n));
            assert(regs_below(bs[c].params, base));
        }
    }
}

} // verus!
