//! What register allocation promises to the code: a value stays in its home from
//! where it is set to its last use.

use crate::jit::ir::{defined_by, used_by, BlockModel, InsnModel, KType, VReg};
use crate::jit::liveness::{
    block_end, block_start, end_upto, entry_at, exit_at, first_def, first_exit, is_interval, last_use,
    param_at, positions_fit, start_upto, used_at_end, well_linked, Interval,
};
use crate::jit::regalloc::{homes_do_not_clash, is_allocation, Allocation};
use vstd::prelude::*;

verus! {

proof fn earliest(bs: Seq<BlockModel>, v: VReg, b: int, n: int)
    requires
        0 <= b < n <= bs.len(),
    ensures
        start_upto(bs, v, n) <= block_start(bs, v, b),
    decreases n,
{
    if b < n - 1 {
        earliest(bs, v, b, n - 1);
    }
}

proof fn latest(bs: Seq<BlockModel>, v: VReg, b: int, n: int)
    requires
        0 <= b < n <= bs.len(),
    ensures
        end_upto(bs, v, n) >= block_end(bs, v, b),
    decreases n,
{
    if b < n - 1 {
        latest(bs, v, b, n - 1);
    }
}

proof fn first_def_is_first(insns: Seq<InsnModel>, v: VReg, i: int, k: int)
    requires
        0 <= i <= k < insns.len(),
        defined_by(insns[k]) == Some(v),
    ensures
        first_def(insns, v, i) matches Some(d) && i <= d <= k,
    decreases k - i,
{
    if defined_by(insns[i]) != Some(v) {
        first_def_is_first(insns, v, i + 1, k);
    }
}

proof fn last_use_is_last(insns: Seq<InsnModel>, v: VReg, j: int, n: int)
    requires
        0 <= j < n <= insns.len(),
        used_by(insns[j]).contains(v),
    ensures
        last_use(insns, v, n) matches Some(l) && j <= l < n,
    decreases n,
{
    if !used_by(insns[n - 1]).contains(v) {
        last_use_is_last(insns, v, j, n - 1);
    }
}

/// A block sets a register at a position: a parameter where the predecessors
/// leave, and what an instruction defines where it stands.
pub open spec fn sets_at(bs: Seq<BlockModel>, b: int, v: VReg, at: int) -> bool {
    ||| bs[b].params.contains(v) && at == param_at(bs, b)
    ||| exists|k: int|
        0 <= k < bs[b].insns.len() && defined_by(#[trigger] bs[b].insns[k]) == Some(v) && at
            == entry_at(bs, b) + 1 + k
}

/// A block uses a register at a position: an instruction where it stands, the
/// terminator and the moves to the successors at the exit.
pub open spec fn uses_at(bs: Seq<BlockModel>, b: int, v: VReg, at: int) -> bool {
    ||| used_at_end(bs[b], v) && at == exit_at(bs, b)
    ||| exists|j: int|
        0 <= j < bs[b].insns.len() && used_by(#[trigger] bs[b].insns[j]).contains(v) && at
            == entry_at(bs, b) + 1 + j
}

/// The interval of a register starts no later than it is set, and ends behind
/// every use.
pub proof fn interval_covers(bs: Seq<BlockModel>, v: VReg, i: Interval, b: int, at: int)
    requires
        is_interval(bs, v, i),
        0 <= b < bs.len(),
        bs[b].reachable,
    ensures
        sets_at(bs, b, v, at) ==> i.start <= at,
        uses_at(bs, b, v, at) ==> at < i.end,
{
    let insns = bs[b].insns;
    earliest(bs, v, b, bs.len() as int);
    latest(bs, v, b, bs.len() as int);
    if sets_at(bs, b, v, at) {
        if !(bs[b].params.contains(v) && at == param_at(bs, b)) {
            let k = choose|k: int|
                0 <= k < insns.len() && defined_by(#[trigger] insns[k]) == Some(v) && at
                    == entry_at(bs, b) + 1 + k;
            first_def_is_first(insns, v, 0, k);
        }
    }
    if uses_at(bs, b, v, at) {
        if !(used_at_end(bs[b], v) && at == exit_at(bs, b)) {
            let j = choose|j: int|
                0 <= j < insns.len() && used_by(#[trigger] insns[j]).contains(v) && at == entry_at(
                    bs,
                    b,
                ) + 1 + j;
            last_use_is_last(insns, v, j, insns.len() as int);
        }
    }
}

/// No value is overwritten while it is needed: where a register is set before a
/// position and used at it or behind, another register that is set there and
/// used later has another home.
pub proof fn no_value_is_lost(
    bs: Seq<BlockModel>,
    ivs: Seq<Interval>,
    types: Seq<KType>,
    order: Seq<VReg>,
    a: Allocation,
    v: VReg,
    set_in: int,
    set_at: int,
    used_in: int,
    used: int,
    u: VReg,
    other_in: int,
    other_set: int,
    later_in: int,
    later_used: int,
)
    requires
        types.len() <= u32::MAX,
        types.len() <= usize::MAX,
        ivs.len() == types.len(),
        forall|x: int| 0 <= x < ivs.len() ==> is_interval(bs, x as u32, #[trigger] ivs[x]),
        is_allocation(ivs, types, order, a),
        v < types.len(),
        u < types.len(),
        u != v,
        0 <= set_in < bs.len() && bs[set_in].reachable && sets_at(bs, set_in, v, set_at),
        0 <= used_in < bs.len() && bs[used_in].reachable && uses_at(bs, used_in, v, used),
        0 <= other_in < bs.len() && bs[other_in].reachable && sets_at(bs, other_in, u, other_set),
        0 <= later_in < bs.len() && bs[later_in].reachable && uses_at(bs, later_in, u, later_used),
        set_at <= other_set <= used,
        other_set <= later_used,
    ensures
        a.homes@[v as int] != a.homes@[u as int],
{
    assert(is_interval(bs, v, ivs[v as int]));
    assert(is_interval(bs, u, ivs[u as int]));
    interval_covers(bs, v, ivs[v as int], set_in, set_at);
    interval_covers(bs, v, ivs[v as int], used_in, used);
    interval_covers(bs, u, ivs[u as int], other_in, other_set);
    interval_covers(bs, u, ivs[u as int], later_in, later_used);
    homes_do_not_clash(ivs, types, order, a, v as int, u as int);
}

proof fn no_later_exit(bs: Seq<BlockModel>, preds: Seq<usize>, k: int, i: int)
    requires
        0 <= i < k <= preds.len(),
        preds[i] < bs.len(),
        bs[preds[i] as int].reachable,
    ensures
        first_exit(bs, preds, k) <= exit_at(bs, preds[i] as int),
    decreases k,
{
    if i < k - 1 {
        no_later_exit(bs, preds, k - 1, i);
    }
}

/// A move on an edge overwrites no value that the edge still needs: the home of
/// an entry parameter that the successor uses is none of the homes of the other
/// registers that the block moves or tests at its exit.
pub proof fn moves_lose_nothing(
    bs: Seq<BlockModel>,
    ivs: Seq<Interval>,
    types: Seq<KType>,
    order: Seq<VReg>,
    a: Allocation,
    b: usize,
    succ: int,
    param: VReg,
    used: int,
    v: VReg,
    set_in: int,
    set_at: int,
)
    requires
        well_linked(bs),
        types.len() <= u32::MAX,
        types.len() <= usize::MAX,
        ivs.len() == types.len(),
        forall|x: int| 0 <= x < ivs.len() ==> is_interval(bs, x as u32, #[trigger] ivs[x]),
        is_allocation(ivs, types, order, a),
        v < types.len(),
        param < types.len(),
        param != v,
        b < bs.len() && bs[b as int].reachable,
        0 <= succ < bs.len() && bs[succ].reachable,
        bs[succ].preds.contains(b),
        bs[succ].params.contains(param),
        uses_at(bs, succ, param, used),
        used_at_end(bs[b as int], v),
        0 <= set_in < bs.len() && bs[set_in].reachable && sets_at(bs, set_in, v, set_at),
        set_at <= used,
    ensures
        a.homes@[v as int] != a.homes@[param as int],
{
    let preds = bs[succ].preds;
    let i = choose|i: int| 0 <= i < preds.len() && preds[i] == b;
    positions_fit(bs, b as int);
    no_later_exit(bs, preds, preds.len() as int, i);
    let at = param_at(bs, succ);
    assert(at <= exit_at(bs, b as int));
    assert(is_interval(bs, v, ivs[v as int]));
    assert(is_interval(bs, param, ivs[param as int]));
    assert(sets_at(bs, succ, param, at));
    assert(uses_at(bs, b as int, v, exit_at(bs, b as int) as int));
    interval_covers(bs, param, ivs[param as int], succ, at);
    interval_covers(bs, param, ivs[param as int], succ, used);
    interval_covers(bs, v, ivs[v as int], b as int, exit_at(bs, b as int) as int);
    interval_covers(bs, v, ivs[v as int], set_in, set_at);
    homes_do_not_clash(ivs, types, order, a, v as int, param as int);
}

} // verus!
