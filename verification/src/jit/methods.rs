//! Lowered methods do what the interpreter does, block by block.

use crate::jit::blocks::{
    at_entry, block_law, endings_add_nothing, ends_at, exit_meaning, insns_meaning, leavable,
    locals_stay, lowered_to, lowering_appends, params_apart, planned, range_appends, range_meaning,
    range_split, straight, term_meaning, Exit,
};
use crate::jit::cfg::{block_at, block_succs, terminator_bounds};
use crate::jit::ir::InsnModel;
use crate::jit::lower::{
    end_block, lower, lower_block, lower_blocks, lower_range, Blocks, Low, Lowered, Plan,
};
use crate::jit::simulate::{insn_meaning, op_meaning, values, Around, IrState};
use crate::vm::frames::FrameModel;
use crate::vm::ops::StoreModel;
use crate::vm::value::Value;
use crate::vm::world::Effect;
use vstd::prelude::*;

verus! {

/// How far a method has come.
pub ghost enum Finish {
    /// It returned a value.
    Returned(Value),
    /// Something came of an operation that the surroundings have to deal with.
    Came(Effect),
    /// It is still running.
    Going,
    /// It has left its code.
    Lost,
}

/// What up to `fuel` blocks do in the interpreter, from block `b` on: how far it
/// came, the heap with the static fields, and what was shown.
pub open spec fn interpreted(
    a: Around,
    p: Plan,
    b: int,
    s: StoreModel,
    f: FrameModel,
    shown: Seq<Seq<char>>,
    fuel: nat,
) -> (Finish, StoreModel, Seq<Seq<char>>)
    decreases fuel,
{
    if fuel == 0 {
        (Finish::Going, s, shown)
    } else {
        let (e, s1, f1, out) = range_meaning(
            a,
            p.ranges[b].0 as int,
            lowered_to(p, b),
            s,
            f,
            shown,
        );
        if !(e is Nothing) {
            (Finish::Came(e), s1, out)
        } else {
            match exit_meaning(a, f1, ends_at(p, b), p.ranges[b].1 as int) {
                Exit::Return(v) => (Finish::Returned(v), s1, out),
                Exit::Goto(pc, stack) => match block_at(p.ranges, pc) {
                    Some(c) => interpreted(
                        a,
                        p,
                        c as int,
                        s1,
                        FrameModel { stack, ..f1 },
                        out,
                        (fuel - 1) as nat,
                    ),
                    None => (Finish::Lost, s1, out),
                },
                Exit::Stuck => (Finish::Lost, s1, out),
            }
        }
    }
}

/// What up to `fuel` blocks of lowered code do, from block `b` on.
pub open spec fn executed(
    a: Around,
    code: Blocks,
    b: int,
    m: IrState,
    shown: Seq<Seq<char>>,
    fuel: nat,
) -> (Finish, StoreModel, Seq<Seq<char>>)
    decreases fuel,
{
    if fuel == 0 {
        (Finish::Going, m.store, shown)
    } else {
        let block = code.blocks[b];
        let (e, m1, out) = insns_meaning(a, code.helpers, m, block.insns, 0, shown);
        if !(e is Nothing) {
            (Finish::Came(e), m1.store, out)
        } else {
            match term_meaning(m1, block.term, block.moves, block.succs) {
                Exit::Return(v) => (Finish::Returned(v), m1.store, out),
                Exit::Goto(c, x) => executed(a, code, c, x, out, (fuel - 1) as nat),
                Exit::Stuck => (Finish::Lost, m1.store, out),
            }
        }
    }
}

/// The blocks that are lowered before block `b`.
pub open spec fn lowered_before(p: Plan, start: Blocks, b: int) -> Blocks
    decreases b,
{
    if b <= 0 {
        start
    } else {
        lower_block(p, b - 1, lowered_before(p, start, b - 1))->Ok_0
    }
}

/// The numbers of the delegated operations are below `n`.
spec fn ids_below(insns: Seq<InsnModel>, n: int) -> bool {
    forall|i: int|
        0 <= i < insns.len() ==> ((#[trigger] insns[i]) matches InsnModel::Helper { op_id, .. }
            ==> op_id < n)
}

proof fn range_ids(p: Plan, i: int, t: int, st: Low, after: Low)
    requires
        lower_range(p, i, t, st) == Lowered::Ok(after),
        st.types.len() <= u32::MAX,
        after.helpers.len() < u32::MAX,
        ids_below(st.insns, st.helpers.len() as int),
    ensures
        ids_below(after.insns, after.helpers.len() as int),
    decreases t - i,
{
    if i < t {
        let next = lower(p.module, p.locals, p.checks, st, p.body[i], i)->Ok_0;
        lowering_appends(p, st, next, p.body[i], i);
        range_appends(p, i + 1, t, next, after);
        assert(ids_below(next.insns, next.helpers.len() as int)) by {
            assert forall|k: int| 0 <= k < next.insns.len() implies ((
            #[trigger] next.insns[k]) matches InsnModel::Helper { op_id, .. } ==> op_id
                < next.helpers.len()) by {
                if k < st.insns.len() {
                    assert(next.insns[k] == st.insns[k]);
                }
            }
        }
        range_ids(p, i + 1, t, next, after);
    }
}

/// What holds of every block that is lowered.
pub open spec fn in_order(p: Plan, b: int, acc: Blocks) -> bool {
    &&& p.ranges[b].0 <= p.ranges[b].1
    &&& block_succs(p.body, p.ranges, b) == Ok::<Seq<usize>, Seq<char>>(p.succs[b])
    &&& p.reach[b] ==> leavable(p, b, acc)
}

proof fn block_appends(p: Plan, b: int, acc: Blocks, next: Blocks)
    requires
        0 <= b < p.ranges.len() <= usize::MAX,
        in_order(p, b, acc),
        acc.types.len() <= u32::MAX,
        lower_block(p, b, acc) == Ok::<Blocks, Seq<char>>(next),
    ensures
        next.blocks == acc.blocks.push(next.blocks.last()),
        acc.types.len() <= next.types.len() <= u32::MAX,
        acc.helpers.len() <= next.helpers.len(),
        next.helpers.subrange(0, acc.helpers.len() as int) == acc.helpers,
        next.helpers.len() < u32::MAX ==> ids_below(
            next.blocks.last().insns,
            next.helpers.len() as int,
        ),
{
    if p.reach[b] {
        let lo = p.ranges[b].0 as int;
        let e = p.ranges[b].1 as int;
        let t = ends_at(p, b);
        terminator_bounds(p.body, lo, e);
        let st = at_entry(p, b, acc);
        let mid = lower_range(p, lo, t, st)->Ok_0;
        let end = end_block(p, t, e, mid)->Ok_0;
        if t < e && p.body[t] is Throw {
            range_split(p, lo, t, st, mid);
            range_appends(p, lo, t + 1, st, end.st);
            if next.helpers.len() < u32::MAX {
                range_ids(p, lo, t + 1, st, end.st);
            }
        } else {
            endings_add_nothing(p, b, mid, end);
            range_appends(p, lo, t, st, mid);
            if next.helpers.len() < u32::MAX {
                range_ids(p, lo, t, st, mid);
            }
        }
    } else {
        assert(acc.helpers.subrange(0, acc.helpers.len() as int) =~= acc.helpers);
    }
}

/// A list starts with another one.
spec fn starts_with(all: Seq<int>, first: Seq<int>) -> bool {
    first.len() <= all.len() && all.subrange(0, first.len() as int) == first
}

proof fn starts_chained(a: Seq<int>, b: Seq<int>, c: Seq<int>)
    requires
        starts_with(b, a),
        starts_with(c, b),
    ensures
        starts_with(c, a),
{
    assert(c.subrange(0, a.len() as int) =~= c.subrange(0, b.len() as int).subrange(
        0,
        a.len() as int,
    ));
}

proof fn helpers_suffice(
    a: Around,
    few: Seq<int>,
    many: Seq<int>,
    m: IrState,
    insns: Seq<InsnModel>,
    j: int,
    shown: Seq<Seq<char>>,
)
    requires
        starts_with(many, few),
        ids_below(insns, few.len() as int),
        0 <= j,
    ensures
        insns_meaning(a, few, m, insns, j, shown) == insns_meaning(a, many, m, insns, j, shown),
    decreases insns.len() - j,
{
    if j < insns.len() {
        if let InsnModel::Helper { op_id, .. } = insns[j] {
            assert(many[op_id as int] == many.subrange(0, few.len() as int)[op_id as int]);
        }
        let (e, m1) = insn_meaning(a, few, m, insns[j]);
        match e {
            Effect::Nothing => helpers_suffice(a, few, many, m1, insns, j + 1, shown),
            Effect::Show(x) => helpers_suffice(a, few, many, m1, insns, j + 1, shown.push(x)),
            _ => {},
        }
    }
}

/// All blocks are in order, the parameters are registers of their own, and what
/// follows a reachable block is reachable.
pub open spec fn well_planned(p: Plan, start: Blocks) -> bool {
    &&& p.ranges.len() <= usize::MAX
    &&& p.params.len() == p.ranges.len()
    &&& params_apart(p.params, start.types.len() as int)
    &&& start.types.len() <= u32::MAX
    &&& start.blocks.len() == 0
    &&& forall|b: int|
        0 <= b < p.ranges.len() ==> in_order(p, b, #[trigger] lowered_before(p, start, b))
    &&& forall|b: int, k: int|
        0 <= b < p.ranges.len() && p.reach[b] && 0 <= k < p.succs[b].len() ==> p.reach[
        #[trigger] p.succs[b][k] as int]
}

proof fn lowered_from(p: Plan, start: Blocks, b: int, code: Blocks)
    requires
        well_planned(p, start),
        0 <= b <= p.ranges.len(),
        lower_blocks(p, b, lowered_before(p, start, b)) == Ok::<Blocks, Seq<char>>(code),
        lowered_before(p, start, b).blocks.len() == b,
        start.types.len() <= lowered_before(p, start, b).types.len() <= u32::MAX,
    ensures
        starts_with(code.helpers, lowered_before(p, start, b).helpers),
        b <= code.blocks.len(),
        code.blocks.subrange(0, b) == lowered_before(p, start, b).blocks,
        forall|c: int|
            b <= c < p.ranges.len() ==> {
                let acc = #[trigger] lowered_before(p, start, c);
                &&& lower_block(p, c, acc) matches Ok(next)
                &&& c < code.blocks.len()
                &&& code.blocks[c] == next.blocks.last()
                &&& starts_with(code.helpers, next.helpers)
                &&& start.types.len() <= acc.types.len() <= u32::MAX
            },
    decreases p.ranges.len() - b,
{
    let acc = lowered_before(p, start, b);
    if b < p.ranges.len() {
        let next = lower_block(p, b, acc)->Ok_0;
        assert(lowered_before(p, start, b + 1) == next);
        block_appends(p, b, acc, next);
        lowered_from(p, start, b + 1, code);
        starts_chained(acc.helpers, next.helpers, code.helpers);
        assert(code.blocks.subrange(0, b) =~= code.blocks.subrange(0, b + 1).subrange(0, b));
        assert(next.blocks.subrange(0, b) =~= acc.blocks);
        assert(code.blocks[b] == code.blocks.subrange(0, b + 1)[b]);
    } else {
        assert(code.helpers.subrange(0, code.helpers.len() as int) =~= code.helpers);
        assert(code.blocks.subrange(0, b) =~= code.blocks);
    }
}

proof fn locals_stay_in_range(
    a: Around,
    i: int,
    t: int,
    s: StoreModel,
    f: FrameModel,
    shown: Seq<Seq<char>>,
)
    ensures
        range_meaning(a, i, t, s, f, shown).2.locals.len() == f.locals.len(),
    decreases t - i,
{
    if i < t {
        locals_stay(a, s, f, a.body[i]);
        let (e, s1, f1) = op_meaning(a, s, f, a.body[i]);
        match e {
            Effect::Nothing => locals_stay_in_range(a, i + 1, t, s1, f1, shown),
            Effect::Show(x) => locals_stay_in_range(a, i + 1, t, s1, f1, shown.push(x)),
            _ => {},
        }
    }
}

proof fn exits_are_successors(a: Around, p: Plan, b: int, f: FrameModel)
    requires
        planned(a, p),
        0 <= b < p.ranges.len() <= usize::MAX,
        p.ranges[b].0 <= p.ranges[b].1,
        block_succs(p.body, p.ranges, b) == Ok::<Seq<usize>, Seq<char>>(p.succs[b]),
    ensures
        exit_meaning(a, f, ends_at(p, b), p.ranges[b].1 as int) matches Exit::Goto(pc, _) ==> (
        block_at(p.ranges, pc) matches Some(c) ==> exists|k: int|
            0 <= k < p.succs[b].len() && #[trigger] p.succs[b][k] == c),
{
    let e = p.ranges[b].1 as int;
    let t = ends_at(p, b);
    terminator_bounds(p.body, p.ranges[b].0 as int, e);
    if let Exit::Goto(pc, stack) = exit_meaning(a, f, t, e) {
        if let Some(c) = block_at(p.ranges, pc) {
            if p.succs[b].len() > 0 && p.succs[b][0] == c {
            } else {
                assert(p.succs[b][1] == c);
            }
        }
    }
}

/// Lowering preserves what a method does: however many blocks are run, lowered
/// code comes as far as the interpreter and to the same end, shows the same
/// texts, and leaves the same heap and static fields.
pub proof fn method_law(
    a: Around,
    p: Plan,
    start: Blocks,
    code: Blocks,
    b: int,
    m: IrState,
    s: StoreModel,
    f: FrameModel,
    shown: Seq<Seq<char>>,
    fuel: nat,
)
    requires
        planned(a, p),
        well_planned(p, start),
        lower_blocks(p, 0, start) == Ok::<Blocks, Seq<char>>(code),
        code.helpers.len() < u32::MAX,
        forall|c: int|
            0 <= c < p.ranges.len() && #[trigger] p.reach[c] ==> straight(
                a,
                p.ranges[c].0 as int,
                lowered_to(p, c),
                f.locals.len(),
            ),
        0 <= b < p.ranges.len(),
        p.reach[b],
        f.stack == values(m, p.params[b]),
        f.locals == m.locals,
        s == m.store,
        !(interpreted(a, p, b, s, f, shown, fuel).0 is Lost),
    ensures
        executed(a, code, b, m, shown, fuel) == interpreted(a, p, b, s, f, shown, fuel),
    decreases fuel,
{
    if fuel > 0 {
        assert(lowered_before(p, start, 0) == start);
        assert(start.blocks.subrange(0, 0) =~= start.blocks);
        lowered_from(p, start, 0, code);
        let acc = lowered_before(p, start, b);
        let next = lower_block(p, b, acc)->Ok_0;
        assert(in_order(p, b, acc));
        block_appends(p, b, acc, next);
        let block = code.blocks[b];
        assert(straight(a, p.ranges[b].0 as int, lowered_to(p, b), f.locals.len()));
        block_law(a, p, b, acc, next, start.types.len() as int, m, s, f, shown);
        helpers_suffice(a, next.helpers, code.helpers, m, block.insns, 0, shown);
        let lo = p.ranges[b].0 as int;
        let (e, s1, f1, out) = range_meaning(a, lo, lowered_to(p, b), s, f, shown);
        let (d, m1, told) = insns_meaning(a, code.helpers, m, block.insns, 0, shown);
        locals_stay_in_range(a, lo, lowered_to(p, b), s, f, shown);
        if e is Nothing {
            let here = exit_meaning(a, f1, ends_at(p, b), p.ranges[b].1 as int);
            if let Exit::Goto(pc, stack) = here {
                exits_are_successors(a, p, b, f1);
                let there = term_meaning(m1, block.term, block.moves, block.succs);
                let c = there->Goto_0;
                let x = there->Goto_1;
                let k = choose|k: int|
                    0 <= k < p.succs[b].len() && #[trigger] p.succs[b][k] == c as usize;
                assert(p.reach[p.succs[b][k] as int]);
                method_law(
                    a,
                    p,
                    start,
                    code,
                    c,
                    x,
                    s1,
                    FrameModel { stack, ..f1 },
                    out,
                    (fuel - 1) as nat,
                );
            }
        }
    }
}

} // verus!
