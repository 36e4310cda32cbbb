//! Whole methods: what the lowering of a method gives, with and without
//! optimization, does what the interpreter does with the method.

use crate::bytecode::{MethodDef, Module};
use crate::jit::analyze::{flow_result, initial_flow, Flow};
use crate::jit::blocks::{at_entry, ends_at, leavable, lowered_to, params_are_apart, straight};
use crate::jit::cfg::{
    block_at, block_ranges, block_ranges_bounds, is_path, reaches, succs_from, succs_from_index,
    terminator_bounds,
};
use crate::jit::heights::{edges_inside, edges_stay, height_out, heights_law, lower_range_height, settled};
use crate::jit::ir::{KType, VReg};
use crate::jit::lower::{
    alloc_params, entry_types, lower_block, lower_blocks, lower_body, lower_range, reach_marks,
    regs_below, Blocks, FunctionModel, Plan,
};
use crate::jit::methods::{
    executed, in_order, interpreted, lowered_before, method_law, well_planned, Finish,
};
use crate::jit::optimize::optimized;
use crate::jit::preserve::optimizing_law;
use crate::jit::simulate::{values, Around, IrState};
use crate::jit::tidy::lowered_is_tidy;
use crate::jit::typed::{asks_float, lowered_is_typed, typed_run, typed_runs_are_calm};
use crate::vm::frames::FrameModel;
use vstd::prelude::*;

verus! {

/// The edges of a method.
pub open spec fn edges_of(method: MethodDef) -> Seq<Seq<usize>> {
    succs_from(method.body@, block_ranges(method.body@), 0)->Ok_0
}

/// What the analysis finds of a method.
pub open spec fn flow_of(m: Module, method: MethodDef) -> Flow {
    let ranges = block_ranges(method.body@);
    flow_result(m, method.body@, ranges, edges_of(method), initial_flow(method, ranges.len()), 0)->Ok_0
}

/// Types of the parameters of the blocks, and the parameters.
pub open spec fn params_of(m: Module, method: MethodDef) -> (Seq<KType>, Seq<Seq<VReg>>) {
    alloc_params(flow_of(m, method).states, reach_marks(edges_of(method)), 0, seq![], seq![])->Ok_0
}

/// The plan by which a method is lowered.
pub open spec fn plan_of(m: Module, method: MethodDef, checks: bool) -> Plan {
    Plan {
        module: m,
        body: method.body@,
        checks,
        ranges: block_ranges(method.body@),
        succs: edges_of(method),
        locals: flow_of(m, method).locals,
        params: params_of(m, method).1,
        reach: reach_marks(edges_of(method)),
    }
}

/// Nothing runs off the end of the code: behind every block that can be reached
/// and that can be left at its end, there is another one.
pub open spec fn goes_on(p: Plan) -> bool {
    forall|b: int|
        0 <= b < p.ranges.len() && #[trigger] p.reach[b] ==> {
            let e = p.ranges[b].1 as int;
            let t = ends_at(p, b);
            &&& t >= e ==> block_at(p.ranges, e) is Some
            &&& t < e && (p.body[t] is BrTrue || p.body[t] is BrFalse) ==> block_at(
                p.ranges,
                t + 1,
            ) is Some
        }
}

proof fn params_fit(
    states: Seq<Option<Seq<KType>>>,
    reach: Seq<bool>,
    b: int,
    types: Seq<KType>,
    params: Seq<Seq<VReg>>,
)
    requires
        0 <= b <= reach.len(),
        params.len() == b,
        forall|c: int|
            0 <= c < b && reach[c] ==> (#[trigger] params[c]).len() == entry_types(states, c).len(),
    ensures
        alloc_params(states, reach, b, types, params) matches Ok((ts, ps)) ==> ps.len()
            == reach.len() && forall|c: int|
            0 <= c < reach.len() && reach[c] ==> (#[trigger] ps[c]).len() == entry_types(
                states,
                c,
            ).len(),
    decreases reach.len() - b,
{
    if b < reach.len() {
        if !reach[b] {
            params_fit(states, reach, b + 1, types, params.push(seq![]));
        } else {
            let ts = entry_types(states, b);
            if types.len() + ts.len() <= u32::MAX {
                let mine = Seq::new(ts.len(), |j: int| (types.len() + j) as u32);
                params_fit(states, reach, b + 1, types + ts, params.push(mine));
            }
        }
    }
}

/// What can be reached goes on to what can be reached.
proof fn reach_goes_on(succs: Seq<Seq<usize>>, b: int, k: int)
    requires
        succs.len() <= usize::MAX,
        edges_inside(succs),
        0 <= b < succs.len(),
        0 <= k < succs[b].len(),
        reaches(succs, b),
    ensures
        reaches(succs, succs[b][k] as int),
{
    let path = choose|path: Seq<int>| #[trigger] is_path(succs, path) && path.last() == b;
    let c = succs[b][k] as int;
    let longer = path.push(c);
    assert(is_path(succs, longer)) by {
        assert forall|i: int| 0 <= i < longer.len() implies 0 <= #[trigger] longer[i]
            < succs.len() by {
            if i < path.len() {
                assert(longer[i] == path[i]);
            }
        }
        assert forall|i: int| 0 <= i < longer.len() - 1 implies succs[#[trigger] longer[i]].contains(
            longer[i + 1] as usize,
        ) by {
            assert(longer[i] == path[i]);
            if i + 1 < path.len() {
                assert(succs[path[i]].contains(path[i + 1] as usize));
            } else {
                assert(succs[b][k] == c as usize);
            }
        }
    }
    assert(longer.last() == c);
}

proof fn block_is_in_order(m: Module, method: MethodDef, checks: bool, b: int, acc: Blocks)
    requires
        method.body@.len() < usize::MAX,
        lower_body(m, method, checks) is Ok,
        goes_on(plan_of(m, method, checks)),
        0 <= b < block_ranges(method.body@).len(),
        lower_block(plan_of(m, method, checks), b, acc) is Ok,
    ensures
        in_order(plan_of(m, method, checks), b, acc),
{
    let p = plan_of(m, method, checks);
    let states = flow_of(m, method).states;
    block_ranges_bounds(p.body);
    succs_from_index(p.body, p.ranges, 0);
    assert(p.succs[0 + b] == p.succs[b]);
    edges_stay(p.body, p.ranges, p.succs);
    if p.reach[b] {
        let e = p.ranges[b].1 as int;
        let t = ends_at(p, b);
        terminator_bounds(p.body, p.ranges[b].0 as int, e);
        let st = at_entry(p, b, acc);
        let mid = lower_range(p, p.ranges[b].0 as int, t, st)->Ok_0;
        lower_range_height(p, p.ranges[b].0 as int, t, st);
        heights_law(m, method, p.succs, flow_of(m, method));
        params_fit(states, p.reach, 0, seq![], seq![]);
        assert(reaches(p.succs, b));
        assert(settled(m, p.body, p.ranges, p.succs, states, b));
        let ts = states[b]->Some_0;
        assert(p.params[b].len() == ts.len());
        assert forall|k: int| 0 <= k < p.succs[b].len() implies (#[trigger] p.succs[b][k])
            < p.params.len() && p.params[p.succs[b][k] as int].len() == height_out(
            m,
            p.body,
            p.ranges[b],
            ts.len() as int,
        ) by {
            reach_goes_on(p.succs, b, k);
            let c = p.succs[b][k] as int;
            assert(p.reach[c]);
            assert(states[c] is Some);
            assert(p.params[c].len() == entry_types(states, c).len());
        }
        assert(leavable(p, b, acc));
    }
}

proof fn all_are_lowered(p: Plan, start: Blocks, b: int)
    requires
        0 <= b < p.ranges.len(),
        lower_blocks(p, 0, start) is Ok,
    ensures
        lower_blocks(p, b, lowered_before(p, start, b)) is Ok,
        lower_block(p, b, lowered_before(p, start, b)) is Ok,
    decreases b,
{
    if b > 0 {
        all_are_lowered(p, start, b - 1);
    }
}

/// A method that is lowered is well planned, where nothing runs off its end.
pub proof fn lowered_is_planned(m: Module, method: MethodDef, checks: bool)
    requires
        method.body@.len() < usize::MAX,
        lower_body(m, method, checks) is Ok,
        goes_on(plan_of(m, method, checks)),
    ensures
        well_planned(
            plan_of(m, method, checks),
            (Blocks { blocks: seq![], types: params_of(m, method).0, helpers: seq![] }),
        ),
{
    let p = plan_of(m, method, checks);
    let start = Blocks { blocks: seq![], types: params_of(m, method).0, helpers: seq![] };
    block_ranges_bounds(p.body);
    succs_from_index(p.body, p.ranges, 0);
    edges_stay(p.body, p.ranges, p.succs);
    params_are_apart(flow_of(m, method).states, p.reach);
    assert forall|b: int| 0 <= b < p.ranges.len() implies in_order(
        p,
        b,
        #[trigger] lowered_before(p, start, b),
    ) by {
        all_are_lowered(p, start, b);
        block_is_in_order(m, method, checks, b, lowered_before(p, start, b));
    }
    assert forall|b: int, k: int|
        0 <= b < p.ranges.len() && p.reach[b] && 0 <= k < p.succs[b].len() implies p.reach[
    #[trigger] p.succs[b][k] as int] by {
        reach_goes_on(p.succs, b, k);
    }
}

/// Lowering preserves what a method does: run from its entry, with the same
/// locals, heap and static fields, the lowered method comes as far as the
/// interpreter and to the same end, shows the same texts, and leaves the same
/// heap and static fields.
pub proof fn lowered_method_law(
    a: Around,
    method: MethodDef,
    function: FunctionModel,
    m: IrState,
    shown: Seq<Seq<char>>,
    f: FrameModel,
    fuel: nat,
)
    requires
        method.body@.len() < usize::MAX,
        lower_body(a.module, method, a.checks) == Ok::<FunctionModel, Seq<char>>(function),
        a.body == method.body@,
        goes_on(plan_of(a.module, method, a.checks)),
        function.code.helpers.len() < u32::MAX,
        forall|c: int|
            0 <= c < block_ranges(method.body@).len() && #[trigger] reaches(edges_of(method), c)
                ==> straight(
                a,
                block_ranges(method.body@)[c].0 as int,
                lowered_to(plan_of(a.module, method, a.checks), c),
                f.locals.len(),
            ),
        f.stack.len() == 0,
        f.locals == m.locals,
        !(interpreted(a, plan_of(a.module, method, a.checks), 0, m.store, f, shown, fuel).0
            is Lost),
    ensures
        executed(a, function.code, 0, m, shown, fuel) == interpreted(
            a,
            plan_of(a.module, method, a.checks),
            0,
            m.store,
            f,
            shown,
            fuel,
        ),
{
    let p = plan_of(a.module, method, a.checks);
    let start = Blocks { blocks: seq![], types: params_of(a.module, method).0, helpers: seq![] };
    block_ranges_bounds(p.body);
    succs_from_index(p.body, p.ranges, 0);
    lowered_is_planned(a.module, method, a.checks);
    let path = seq![0int];
    assert(is_path(p.succs, path));
    assert(path.last() == 0);
    assert(p.reach[0]);
    heights_law(a.module, method, p.succs, flow_of(a.module, method));
    params_fit(flow_of(a.module, method).states, p.reach, 0, seq![], seq![]);
    assert(p.params[0].len() == 0);
    assert(f.stack =~= values(m, p.params[0]));
    assert forall|c: int| 0 <= c < p.ranges.len() && #[trigger] p.reach[c] implies straight(
        a,
        p.ranges[c].0 as int,
        lowered_to(p, c),
        f.locals.len(),
    ) by {
        assert(reaches(edges_of(method), c));
    }
    method_law(a, p, start, function.code, 0, m, m.store, f, shown, fuel);
}

/// Lowering with optimization preserves what a method does: run from its entry,
/// with the same locals, heap and static fields, the optimized method comes as
/// far as the interpreter and to the same end, shows the same texts, and leaves
/// the same heap and static fields. Values are of the types that the compiler has
/// derived for them, and floats are at hand.
pub proof fn optimized_method_law(
    a: Around,
    method: MethodDef,
    function: FunctionModel,
    m: IrState,
    shown: Seq<Seq<char>>,
    f: FrameModel,
    fuel: nat,
)
    requires
        method.body@.len() < usize::MAX,
        lower_body(a.module, method, a.checks) == Ok::<FunctionModel, Seq<char>>(function),
        a.body == method.body@,
        goes_on(plan_of(a.module, method, a.checks)),
        function.code.helpers.len() < u32::MAX,
        forall|c: int|
            0 <= c < block_ranges(method.body@).len() && #[trigger] reaches(edges_of(method), c)
                ==> straight(
                a,
                block_ranges(method.body@)[c].0 as int,
                lowered_to(plan_of(a.module, method, a.checks), c),
                f.locals.len(),
            ),
        f.stack.len() == 0,
        f.locals == m.locals,
        !(interpreted(a, plan_of(a.module, method, a.checks), 0, m.store, f, shown, fuel).0
            is Lost),
        !(interpreted(a, plan_of(a.module, method, a.checks), 0, m.store, f, shown, fuel).0
            matches Finish::Came(e) && asks_float(e)),
        typed_run(a, function.code, 0, m, fuel),
    ensures
        executed(
            a,
            (Blocks {
                blocks: optimized(
                    function.code.blocks,
                    a.world.floats,
                    a.checks,
                    function.code.types.len() as int,
                ),
                ..function.code
            }),
            0,
            m,
            shown,
            fuel,
        ) == interpreted(
            a,
            plan_of(a.module, method, a.checks),
            0,
            m.store,
            f,
            shown,
            fuel,
        ),
{
    let p = plan_of(a.module, method, a.checks);
    let start = Blocks { blocks: seq![], types: params_of(a.module, method).0, helpers: seq![] };
    lowered_method_law(a, method, function, m, shown, f, fuel);
    block_ranges_bounds(p.body);
    succs_from_index(p.body, p.ranges, 0);
    edges_stay(p.body, p.ranges, p.succs);
    params_are_apart(flow_of(a.module, method).states, p.reach);
    assert forall|c: int| 0 <= c < p.params.len() implies regs_below(
        #[trigger] p.params[c],
        start.types.len() as int,
    ) by {
        assert forall|j: int| 0 <= j < p.params[c].len() implies (#[trigger] p.params[c][j])
            < start.types.len() by {}
    }
    lowered_is_tidy(p, start, function.code);
    lowered_is_typed(p, 0, start, function.code, start.types.len() as int);
    typed_runs_are_calm(a, function.code, 0, m, shown, fuel);
    optimizing_law(
        a,
        function.code,
        function.code.types.len() as int,
        0,
        m,
        shown,
        fuel,
    );
}

} // verus!
