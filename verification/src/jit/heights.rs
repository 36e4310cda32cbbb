//! The analysis finds the height of the stack at the entry of every block: every
//! edge into a block leaves as many operands as the block expects.

use crate::bytecode::{MethodDef, Module, Op};
use crate::jit::analyze::{
    flow_result, initial_flow, merge_succs, merged, operand_count, result_kind, sim, sim_block,
    sim_range, visit_limit, Flow,
};
use crate::jit::cfg::{
    block_from_bounds, block_ranges, block_ranges_bounds, block_succs, is_path, reaches, succs_from,
    succs_from_index, terminator,
};
use crate::jit::ir::KType;
use crate::jit::lower::{lower, lower_range, Low, Plan};
use vstd::prelude::*;

verus! {

/// Whether an operation leaves a value.
pub open spec fn leaves_value(op: Op) -> bool {
    match op {
        Op::Dup | Op::Ldloc(_) | Op::Ldarg(_) => true,
        Op::Stloc(_) => false,
        _ => result_kind(op, seq![KType::Unknown, KType::Unknown]) is Some,
    }
}

/// The height of the stack after an operation.
pub open spec fn height_after(m: Module, op: Op, n: int) -> int {
    n - (match operand_count(m, op) {
        Ok(c) => c as int,
        Err(_) => 0,
    }) + (if leaves_value(op) {
        1int
    } else {
        0
    })
}

/// The height of the stack after the operations in `[i, t)`.
pub open spec fn height_at(m: Module, body: Seq<Op>, i: int, t: int, n: int) -> int
    decreases t - i,
{
    if i >= t {
        n
    } else {
        height_at(m, body, i + 1, t, height_after(m, body[i], n))
    }
}

/// The height of the stack that a block hands on.
pub open spec fn height_out(m: Module, body: Seq<Op>, range: (usize, usize), n: int) -> int {
    let t = terminator(body, range.0 as int, range.1 as int);
    height_at(m, body, range.0 as int, t, n) - (if t < range.1 && (body[t] is BrFalse || body[t]
        is BrTrue) {
        1int
    } else {
        0
    })
}

proof fn kinds_alike(op: Op, args: Seq<KType>)
    ensures
        result_kind(op, args) is Some == (result_kind(op, seq![KType::Unknown, KType::Unknown])
            is Some),
{
}

proof fn sim_height(m: Module, op: Op, stack: Seq<KType>, locals: Seq<KType>)
    ensures
        sim(m, op, stack, locals) matches Ok((s, l)) ==> s.len() == height_after(
            m,
            op,
            stack.len() as int,
        ),
{
    if let Ok(n) = operand_count(m, op) {
        let len = stack.len() as int;
        if n <= len {
            kinds_alike(op, stack.subrange(len - n, len));
        }
    }
}

proof fn sim_range_height(
    m: Module,
    body: Seq<Op>,
    i: int,
    t: int,
    stack: Seq<KType>,
    locals: Seq<KType>,
)
    ensures
        sim_range(m, body, i, t, stack, locals) matches Ok((s, l)) ==> s.len() == height_at(
            m,
            body,
            i,
            t,
            stack.len() as int,
        ),
    decreases t - i,
{
    if i < t {
        sim_height(m, body[i], stack, locals);
        if let Ok((s, l)) = sim(m, body[i], stack, locals) {
            sim_range_height(m, body, i + 1, t, s, l);
        }
    }
}

proof fn sim_block_height(
    m: Module,
    body: Seq<Op>,
    range: (usize, usize),
    stack: Seq<KType>,
    locals: Seq<KType>,
)
    ensures
        sim_block(m, body, range, stack, locals) matches Ok((s, l)) ==> s.len() == height_out(
            m,
            body,
            range,
            stack.len() as int,
        ),
{
    let t = terminator(body, range.0 as int, range.1 as int);
    sim_range_height(m, body, range.0 as int, t, stack, locals);
}

/// Lowering keeps the heights that the analysis found.
proof fn lower_height(p: Plan, st: Low, op: Op, pc: int)
    ensures
        lower(p.module, p.locals, p.checks, st, op, pc) matches Ok(after) ==> after.stack.len()
            == height_after(p.module, op, st.stack.len() as int),
{
}

/// Lowering keeps the heights that the analysis found.
pub proof fn lower_range_height(p: Plan, i: int, t: int, st: Low)
    ensures
        lower_range(p, i, t, st) matches Ok(after) ==> after.stack.len() == height_at(
            p.module,
            p.body,
            i,
            t,
            st.stack.len() as int,
        ),
    decreases t - i,
{
    if i < t {
        lower_height(p, st, p.body[i], i);
        if let Ok(next) = lower(p.module, p.locals, p.checks, st, p.body[i], i) {
            lower_range_height(p, i + 1, t, next);
        }
    }
}

/// The edges stay inside the graph.
pub open spec fn edges_inside(succs: Seq<Seq<usize>>) -> bool {
    forall|b: int, k: int|
        0 <= b < succs.len() && 0 <= k < succs[b].len() ==> (#[trigger] succs[b][k]) < succs.len()
}

/// Every successor of block `b` is entered with the height that `b` hands on.
pub open spec fn settled(
    m: Module,
    body: Seq<Op>,
    ranges: Seq<(usize, usize)>,
    succs: Seq<Seq<usize>>,
    states: Seq<Option<Seq<KType>>>,
    b: int,
) -> bool {
    states[b] matches Some(ts) ==> forall|k: int|
        0 <= k < succs[b].len() ==> (states[(#[trigger] succs[b][k]) as int] matches Some(us)
            && us.len() == height_out(m, body, ranges[b], ts.len() as int))
}

/// What the analysis keeps: a block that does not wait is settled.
spec fn steady(
    m: Module,
    body: Seq<Op>,
    ranges: Seq<(usize, usize)>,
    succs: Seq<Seq<usize>>,
    flow: Flow,
) -> bool {
    &&& flow.states.len() == succs.len()
    &&& flow.queued.len() == succs.len()
    &&& succs.len() <= usize::MAX
    &&& forall|b: int| 0 <= b < flow.queue.len() ==> (#[trigger] flow.queue[b]) < succs.len()
    &&& forall|b: int|
        0 <= b < succs.len() && #[trigger] flow.queued[b] ==> flow.queue.contains(b as usize)
    &&& forall|b: int|
        0 <= b < succs.len() && !(#[trigger] flow.queued[b]) ==> settled(
            m,
            body,
            ranges,
            succs,
            flow.states,
            b,
        )
}

/// `later` has what `flow` has: the same heights, and every change waits.
spec fn grown(flow: Flow, later: Flow) -> bool {
    &&& later.states.len() == flow.states.len()
    &&& later.queued.len() == flow.queued.len()
    &&& forall|c: int|
        0 <= c < flow.states.len() ==> ((#[trigger] flow.states[c]) matches Some(ts) ==> (
        later.states[c] matches Some(us) && us.len() == ts.len()))
    &&& forall|c: int|
        0 <= c < flow.states.len() && !(#[trigger] later.queued[c]) ==> !flow.queued[c]
            && later.states[c] == flow.states[c]
    &&& forall|c: int|
        0 <= c < flow.states.len() && #[trigger] later.queued[c] ==> flow.queued[c]
            || later.queue.contains(c as usize)
    &&& forall|c: usize| flow.queue.contains(c) ==> #[trigger] later.queue.contains(c)
    &&& forall|c: usize|
        #[trigger] later.queue.contains(c) ==> flow.queue.contains(c) || c < flow.states.len()
}

proof fn grown_chained(a: Flow, b: Flow, c: Flow)
    requires
        grown(a, b),
        grown(b, c),
    ensures
        grown(a, c),
{
    assert forall|i: int| 0 <= i < a.states.len() implies ((#[trigger] a.states[i]) matches Some(
        ts,
    ) ==> (c.states[i] matches Some(us) && us.len() == ts.len())) by {
        assert(b.states[i] == b.states[i]);
    }
    assert forall|i: int| 0 <= i < a.states.len() && !(#[trigger] c.queued[i]) implies !a.queued[i]
        && c.states[i] == a.states[i] by {
        assert(!b.queued[i]);
    }
    assert forall|i: int| 0 <= i < a.states.len() && #[trigger] c.queued[i] implies a.queued[i]
        || c.queue.contains(i as usize) by {
        if b.queued[i] && !a.queued[i] {
            assert(b.queue.contains(i as usize));
        }
    }
}

proof fn merging_grows(flow: Flow, types: Seq<KType>, succs: Seq<usize>, k: int, later: Flow)
    requires
        0 <= k <= succs.len(),
        flow.states.len() == flow.queued.len(),
        flow.states.len() <= usize::MAX,
        forall|j: int| 0 <= j < succs.len() ==> (#[trigger] succs[j]) < flow.states.len(),
        merge_succs(flow, types, succs, k) == Ok::<Flow, Seq<char>>(later),
    ensures
        grown(flow, later),
        forall|j: int|
            k <= j < succs.len() ==> (later.states[(#[trigger] succs[j]) as int] matches Some(us)
                && us.len() == types.len()),
    decreases succs.len() - k,
{
    if k < succs.len() {
        let s = succs[k] as int;
        let next = merged(flow.states[s], s, types)->Ok_0;
        let states = flow.states.update(s, Some(next));
        let changed = flow.states[s] != Some(next);
        let flow2 = if changed && !flow.queued[s] {
            Flow {
                states,
                locals: flow.locals,
                queue: flow.queue.push(s as usize),
                queued: flow.queued.update(s, true),
            }
        } else {
            Flow { states, ..flow }
        };
        assert(grown(flow, flow2)) by {
            if changed && !flow.queued[s] {
                assert(flow2.queue[flow.queue.len() as int] == s as usize);
                assert forall|c: usize| flow.queue.contains(c) implies #[trigger] flow2.queue.contains(
                c) by {
                    let i = choose|i: int| 0 <= i < flow.queue.len() && flow.queue[i] == c;
                    assert(flow2.queue[i] == c);
                }
                assert forall|c: usize| #[trigger] flow2.queue.contains(c) implies flow.queue.contains(
                c) || c < flow.states.len() by {
                    let i = choose|i: int| 0 <= i < flow2.queue.len() && flow2.queue[i] == c;
                    if i < flow.queue.len() {
                        assert(flow.queue[i] == c);
                    }
                }
            }
        }
        merging_grows(flow2, types, succs, k + 1, later);
        grown_chained(flow, flow2, later);
        assert(flow2.states[s] == Some(next));
        assert(next.len() == types.len());
    }
}

proof fn flow_settles(
    m: Module,
    body: Seq<Op>,
    ranges: Seq<(usize, usize)>,
    succs: Seq<Seq<usize>>,
    flow: Flow,
    visits: nat,
    end: Flow,
)
    requires
        edges_inside(succs),
        steady(m, body, ranges, succs, flow),
        flow_result(m, body, ranges, succs, flow, visits) == Ok::<Flow, Seq<char>>(end),
    ensures
        end.states.len() == succs.len(),
        forall|b: int|
            0 <= b < succs.len() ==> #[trigger] settled(m, body, ranges, succs, end.states, b),
        flow.states.len() > 0 && flow.states[0] is Some ==> end.states[0] is Some
            && end.states[0]->Some_0.len() == flow.states[0]->Some_0.len(),
    decreases visit_limit(ranges.len()) + 1 - visits, flow.queue.len(),
{
    if flow.queue.len() == 0 {
        assert forall|b: int| 0 <= b < succs.len() implies #[trigger] settled(
            m,
            body,
            ranges,
            succs,
            end.states,
            b,
        ) by {
            assert(!flow.queued[b]);
        }
    } else {
        let b = flow.queue.last() as int;
        assert(flow.queue[flow.queue.len() - 1] == b);
        let popped = Flow {
            queue: flow.queue.drop_last(),
            queued: flow.queued.update(b, false),
            ..flow
        };
        assert forall|c: int| 0 <= c < succs.len() && c != b && flow.queued[c] implies
            popped.queue.contains(c as usize) by {
            let i = choose|i: int| 0 <= i < flow.queue.len() && flow.queue[i] == c as usize;
            assert(popped.queue[i] == c as usize);
        }
        match flow.states[b] {
            None => {
                assert(steady(m, body, ranges, succs, popped));
                flow_settles(m, body, ranges, succs, popped, visits, end);
            },
            Some(stack) => {
                let (out, locals) = sim_block(m, body, ranges[b], stack, flow.locals)->Ok_0;
                sim_block_height(m, body, ranges[b], stack, flow.locals);
                let ready = Flow { locals, ..popped };
                let next = merge_succs(ready, out, succs[b], 0)->Ok_0;
                merging_grows(ready, out, succs[b], 0, next);
                visited_is_steady(m, body, ranges, succs, ready, next, b, stack, out);
                flow_settles(m, body, ranges, succs, next, visits + 1, end);
            },
        }
    }
}

proof fn visited_is_steady(
    m: Module,
    body: Seq<Op>,
    ranges: Seq<(usize, usize)>,
    succs: Seq<Seq<usize>>,
    ready: Flow,
    next: Flow,
    b: int,
    stack: Seq<KType>,
    out: Seq<KType>,
)
    requires
        edges_inside(succs),
        succs.len() <= usize::MAX,
        0 <= b < succs.len(),
        ready.states.len() == succs.len(),
        ready.queued.len() == succs.len(),
        ready.states[b] == Some(stack),
        out.len() == height_out(m, body, ranges[b], stack.len() as int),
        forall|i: int| 0 <= i < ready.queue.len() ==> (#[trigger] ready.queue[i]) < succs.len(),
        forall|c: int|
            0 <= c < succs.len() && #[trigger] ready.queued[c] ==> ready.queue.contains(c as usize),
        forall|c: int|
            0 <= c < succs.len() && c != b && !(#[trigger] ready.queued[c]) ==> settled(
                m,
                body,
                ranges,
                succs,
                ready.states,
                c,
            ),
        grown(ready, next),
        forall|j: int|
            0 <= j < succs[b].len() ==> (next.states[(#[trigger] succs[b][j]) as int] matches Some(
                us,
            ) && us.len() == out.len()),
    ensures
        steady(m, body, ranges, succs, next),
{
    assert forall|i: int| 0 <= i < next.queue.len() implies (#[trigger] next.queue[i])
        < succs.len() by {
        let c = next.queue[i];
        assert(next.queue.contains(c));
        if ready.queue.contains(c) {
            let j = choose|j: int| 0 <= j < ready.queue.len() && ready.queue[j] == c;
            assert(ready.queue[j] < succs.len());
        }
    }
    assert forall|c: int| 0 <= c < succs.len() && !(#[trigger] next.queued[c]) implies settled(
        m,
        body,
        ranges,
        succs,
        next.states,
        c,
    ) by {
        if c != b {
            assert(!ready.queued[c]);
            assert(settled(m, body, ranges, succs, ready.states, c));
            if let Some(ts) = next.states[c] {
                assert forall|k: int| 0 <= k < succs[c].len() implies (next.states[(
                #[trigger] succs[c][k]) as int] matches Some(us) && us.len() == height_out(
                    m,
                    body,
                    ranges[c],
                    ts.len() as int,
                )) by {
                    assert(ready.states[succs[c][k] as int] is Some);
                }
            }
        }
    }
}

/// Every block that can be reached has an entry state, that of the entry block is
/// empty, and every edge into a block leaves as many operands as the block
/// expects.
pub proof fn heights_law(m: Module, method: MethodDef, succs: Seq<Seq<usize>>, end: Flow)
    requires
        method.body@.len() < usize::MAX,
        succs_from(method.body@, block_ranges(method.body@), 0) == Ok::<
            Seq<Seq<usize>>,
            Seq<char>,
        >(succs),
        flow_result(
            m,
            method.body@,
            block_ranges(method.body@),
            succs,
            initial_flow(method, block_ranges(method.body@).len()),
            0,
        ) == Ok::<Flow, Seq<char>>(end),
    ensures
        end.states.len() == succs.len(),
        end.states[0] == Some(Seq::<KType>::empty()),
        forall|b: int| #[trigger] reaches(succs, b) ==> end.states[b] is Some,
        forall|b: int|
            0 <= b < succs.len() ==> #[trigger] settled(
                m,
                method.body@,
                block_ranges(method.body@),
                succs,
                end.states,
                b,
            ),
{
    let body = method.body@;
    let ranges = block_ranges(body);
    block_ranges_bounds(body);
    succs_from_index(body, ranges, 0);
    edges_stay(body, ranges, succs);
    let flow = initial_flow(method, ranges.len());
    assert(steady(m, body, ranges, succs, flow)) by {
        assert(flow.queue[0] == 0);
        assert(flow.queue.contains(0usize));
        assert forall|b: int| 0 <= b < succs.len() && !(#[trigger] flow.queued[b]) implies settled(
            m,
            body,
            ranges,
            succs,
            flow.states,
            b,
        ) by {
            assert(flow.states[b] is None);
        }
    }
    flow_settles(m, body, ranges, succs, flow, 0, end);
    assert(end.states[0]->Some_0 =~= Seq::<KType>::empty());
    assert forall|b: int| #[trigger] reaches(succs, b) implies end.states[b] is Some by {
        let path = choose|path: Seq<int>| #[trigger] is_path(succs, path) && path.last() == b;
        path_is_entered(m, body, ranges, succs, end.states, path, path.len() - 1);
    }
}

proof fn path_is_entered(
    m: Module,
    body: Seq<Op>,
    ranges: Seq<(usize, usize)>,
    succs: Seq<Seq<usize>>,
    states: Seq<Option<Seq<KType>>>,
    path: Seq<int>,
    k: int,
)
    requires
        succs.len() <= usize::MAX,
        is_path(succs, path),
        0 <= k < path.len(),
        states.len() == succs.len(),
        states[0] is Some,
        forall|b: int|
            0 <= b < succs.len() ==> #[trigger] settled(m, body, ranges, succs, states, b),
    ensures
        states[path[k]] is Some,
    decreases k,
{
    if k > 0 {
        path_is_entered(m, body, ranges, succs, states, path, k - 1);
        let b = path[k - 1];
        assert(settled(m, body, ranges, succs, states, b));
        assert(succs[path[k - 1]].contains(path[k - 1 + 1] as usize));
        let j = choose|j: int| 0 <= j < succs[b].len() && succs[b][j] == path[k] as usize;
        assert(states[succs[b][j] as int] is Some);
    }
}

/// The edges of a method stay inside its blocks.
pub proof fn edges_stay(body: Seq<Op>, ranges: Seq<(usize, usize)>, succs: Seq<Seq<usize>>)
    requires
        ranges.len() <= usize::MAX,
        succs.len() == ranges.len(),
        forall|b: int|
            0 <= b < succs.len() ==> block_succs(body, ranges, b) == Ok::<Seq<usize>, Seq<char>>(
                #[trigger] succs[b],
            ),
    ensures
        edges_inside(succs),
{
    assert forall|b: int, k: int| 0 <= b < succs.len() && 0 <= k < succs[b].len() implies (
    #[trigger] succs[b][k]) < succs.len() by {
        let (s, e) = ranges[b];
        let t = terminator(body, s as int, e as int);
        block_from_bounds(ranges, e as int, 0);
        block_from_bounds(ranges, t + 1, 0);
        assert(block_succs(body, ranges, b) == Ok::<Seq<usize>, Seq<char>>(succs[b]));
        match body[t] {
            Op::Br(off) => block_from_bounds(ranges, off as int, 0),
            Op::BrFalse(off) => block_from_bounds(ranges, off as int, 0),
            Op::BrTrue(off) => block_from_bounds(ranges, off as int, 0),
            _ => {},
        }
    }
}

} // verus!
