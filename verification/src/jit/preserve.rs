//! Optimization preserves what a method does: constant folding and the folding of
//! branches here, and the removal of dead code.

use crate::jit::blocks::{fall_or, insns_meaning, moves_to, term_meaning, Exit};
use crate::jit::codegen::fall_of;
use crate::jit::folding::{const_value, folded_pair_is_exact, folded_single_is_exact, holds_const};
use crate::jit::ir::{
    defined_by, effectful, used_by, BlockModel, Insn, InsnModel, Term, VReg,
};
use crate::jit::lower::Blocks;
use crate::jit::methods::executed;
use crate::jit::optimize::{
    bool_const, const_from, const_of, fold_branch, fold_branches, fold_branches_insns, fold_insn,
    fold_round, fold_rounds, fold_step, folded, int_const, only_moves, optimized, other_succ, set_const,
    term_uses, truth, unlink, without, ConstKind, Fold, FoldState,
};
use crate::jit::simulate::{insn_meaning, Around, IrState};
use crate::jit::sweep::{calm, calm_insns, shown_does_not_matter, sweeping_law, uses_below};
use crate::vm::value::{truthy, Value};
use crate::vm::world::Effect;
use vstd::prelude::*;

verus! {

/// The register and the value that an instruction with a constant sets.
pub open spec fn const_insn(i: InsnModel) -> Option<(VReg, Value)> {
    match i {
        InsnModel::Plain(Insn::ConstInt { dst, val }) => Some((dst, Value::Int(val))),
        InsnModel::Plain(Insn::ConstFloat { dst, bits }) => Some((dst, Value::Float(bits))),
        InsnModel::Plain(Insn::ConstBool { dst, val }) => Some((dst, Value::Bool(val))),
        _ => None,
    }
}

/// Every register that is set to a constant in front of instruction `j` of block
/// `b` holds it.
spec fn informed(bs: Seq<BlockModel>, b: int, j: int, m: IrState) -> bool {
    forall|y: int|
        0 <= y < j && y < bs[b].insns.len() ==> (const_insn(#[trigger] bs[b].insns[y]) matches Some(
            (r, v),
        ) ==> m.regs[r] == v)
}

/// No two instructions set the same register.
pub open spec fn set_once(bs: Seq<BlockModel>) -> bool {
    forall|b: int, j: int, c: int, k: int|
        0 <= b < bs.len() && 0 <= j < bs[b].insns.len() && 0 <= c < bs.len() && 0 <= k
            < bs[c].insns.len() && defined_by(#[trigger] bs[b].insns[j]) is Some && defined_by(
            bs[b].insns[j],
        ) == defined_by(#[trigger] bs[c].insns[k]) ==> b == c && j == k
}

/// One of the instructions in front of `j` sets `v`.
pub open spec fn set_before(insns: Seq<InsnModel>, j: int, v: VReg) -> bool {
    exists|y: int| 0 <= y < j && y < insns.len() && defined_by(#[trigger] insns[y]) == Some(v)
}

/// A block uses only its parameters and what it has set before, and no
/// instruction sets a parameter.
pub open spec fn contained(bs: Seq<BlockModel>) -> bool {
    &&& forall|b: int, j: int, k: int|
        0 <= b < bs.len() && 0 <= j < bs[b].insns.len() && 0 <= k < used_by(bs[b].insns[j]).len()
            ==> bs[b].params.contains(#[trigger] used_by(bs[b].insns[j])[k]) || set_before(
            bs[b].insns,
            j,
            used_by(bs[b].insns[j])[k],
        )
    &&& forall|b: int, v: VReg|
        0 <= b < bs.len() && #[trigger] term_uses(bs[b].term, v) ==> bs[b].params.contains(v)
            || set_before(bs[b].insns, bs[b].insns.len() as int, v)
    &&& forall|b: int, j: int, c: int, v: VReg|
        0 <= b < bs.len() && 0 <= j < bs[b].insns.len() && 0 <= c < bs.len()
            && #[trigger] bs[c].params.contains(v) ==> defined_by(#[trigger] bs[b].insns[j]) != Some(v)
}

proof fn const_is_there(bs: Seq<BlockModel>, b: int, j: int, v: VReg, kind: ConstKind)
    requires
        0 <= b,
        0 <= j,
    ensures
        const_from(bs, b, j, v, kind) matches Some(c) ==> exists|x: int, y: int|
            0 <= x < bs.len() && 0 <= y < bs[x].insns.len() && const_insn(
                #[trigger] bs[x].insns[y],
            ) == Some((v, const_value(c))),
    decreases blocks_left(bs, b, j).0, blocks_left(bs, b, j).1,
{
    if b < bs.len() {
        if j >= bs[b].insns.len() {
            const_is_there(bs, b + 1, 0, v, kind);
        } else if const_of(bs[b].insns[j], v, kind) is None {
            const_is_there(bs, b, j + 1, v, kind);
        } else {
            let c = const_of(bs[b].insns[j], v, kind)->Some_0;
            assert(const_insn(bs[b].insns[j]) == Some((v, const_value(c))));
        }
    }
}

/// How many blocks, and how many instructions of block `b`, are left.
spec fn blocks_left(bs: Seq<BlockModel>, b: int, j: int) -> (int, int) {
    (
        bs.len() - b,
        if 0 <= b < bs.len() {
            bs[b].insns.len() - j
        } else {
            0
        },
    )
}

proof fn constant_is_held(bs: Seq<BlockModel>, b: int, j: int, m: IrState, r: VReg, v: Value)
    requires
        set_once(bs),
        contained(bs),
        0 <= b < bs.len(),
        bs[b].params.contains(r) || set_before(bs[b].insns, j, r),
        informed(bs, b, j, m),
        holds_const(bs, r, v),
    ensures
        m.regs[r] == v,
{
    const_is_there(bs, 0, 0, r, ConstKind::Int);
    const_is_there(bs, 0, 0, r, ConstKind::Float);
    const_is_there(bs, 0, 0, r, ConstKind::Bool);
    let (x, y) = choose|x: int, y: int|
        0 <= x < bs.len() && 0 <= y < bs[x].insns.len() && const_insn(#[trigger] bs[x].insns[y])
            == Some((r, v));
    assert(defined_by(bs[x].insns[y]) == Some(r));
    let z = choose|z: int|
        0 <= z < j && z < bs[b].insns.len() && defined_by(#[trigger] bs[b].insns[z]) == Some(r);
    assert(defined_by(bs[b].insns[z]) == defined_by(bs[x].insns[y]));
    assert(x == b && y == z);
}

/// Two instructions do the same at place `j` of block `b`, where the registers
/// hold the constants of `top`.
spec fn agree(
    a: Around,
    helpers: Seq<int>,
    top: Seq<BlockModel>,
    b: int,
    j: int,
    x: InsnModel,
    y: InsnModel,
) -> bool {
    forall|m: IrState|
        informed(top, b, j, m) ==> #[trigger] insn_meaning(a, helpers, m, x) == insn_meaning(
            a,
            helpers,
            m,
            y,
        )
}

/// The blocks differ only in instructions that do the same, and keep their
/// constants.
spec fn alike(
    a: Around,
    helpers: Seq<int>,
    top: Seq<BlockModel>,
    old: Seq<BlockModel>,
    new: Seq<BlockModel>,
) -> bool {
    &&& new.len() == old.len()
    &&& forall|b: int|
        0 <= b < old.len() ==> (#[trigger] new[b]).insns.len() == old[b].insns.len()
            && new[b].term == old[b].term && new[b].succs == old[b].succs && new[b].moves
            == old[b].moves && new[b].params == old[b].params
    &&& forall|b: int, j: int|
        0 <= b < old.len() && 0 <= j < old[b].insns.len() ==> agree(
            a,
            helpers,
            top,
            b,
            j,
            old[b].insns[j],
            #[trigger] new[b].insns[j],
        ) && lesser(old[b].insns[j], new[b].insns[j])
}

/// An instruction sets the same register as another one, has an effect if it has
/// one, and is the same or uses no register.
spec fn lesser(x: InsnModel, y: InsnModel) -> bool {
    &&& defined_by(x) == defined_by(y)
    &&& effectful(x) == effectful(y)
    &&& y == x || used_by(y).len() == 0
}

/// The constants of `old` are in `new`.
spec fn constants_stay(old: Seq<BlockModel>, new: Seq<BlockModel>) -> bool {
    &&& new.len() == old.len()
    &&& forall|b: int|
        0 <= b < old.len() ==> (#[trigger] new[b]).insns.len() == old[b].insns.len()
    &&& forall|b: int, j: int|
        0 <= b < old.len() && 0 <= j < old[b].insns.len() && const_insn(old[b].insns[j]) is Some
            ==> #[trigger] new[b].insns[j] == old[b].insns[j]
}

proof fn constants_chained(x: Seq<BlockModel>, y: Seq<BlockModel>, z: Seq<BlockModel>)
    requires
        constants_stay(x, y),
        constants_stay(y, z),
    ensures
        constants_stay(x, z),
{
    assert forall|b: int| 0 <= b < x.len() implies (#[trigger] z[b]).insns.len()
        == x[b].insns.len() by {
        assert(y[b].insns.len() == x[b].insns.len());
    }
    assert forall|b: int, j: int|
        0 <= b < x.len() && 0 <= j < x[b].insns.len() && const_insn(x[b].insns[j])
            is Some implies #[trigger] z[b].insns[j] == x[b].insns[j] by {
        assert(y[b].insns.len() == x[b].insns.len());
        assert(y[b].insns[j] == x[b].insns[j]);
    }
}

proof fn informed_below(old: Seq<BlockModel>, new: Seq<BlockModel>, b: int, j: int, m: IrState)
    requires
        constants_stay(old, new),
        0 <= b < old.len(),
        informed(new, b, j, m),
    ensures
        informed(old, b, j, m),
{
    assert(new[b].insns.len() == old[b].insns.len());
    assert forall|y: int| 0 <= y < j && y < old[b].insns.len() implies (const_insn(
        #[trigger] old[b].insns[y],
    ) matches Some((r, v)) ==> m.regs[r] == v) by {
        assert(const_insn(old[b].insns[y]) is Some ==> new[b].insns[y] == old[b].insns[y]);
    }
}

/// The blocks have the same shape: the same parameters and ends, and
/// instructions that are the same or less.
spec fn shaped(old: Seq<BlockModel>, new: Seq<BlockModel>) -> bool {
    &&& new.len() == old.len()
    &&& forall|b: int|
        0 <= b < old.len() ==> (#[trigger] new[b]).insns.len() == old[b].insns.len()
            && new[b].term == old[b].term && new[b].params == old[b].params
    &&& forall|b: int, j: int|
        0 <= b < old.len() && 0 <= j < old[b].insns.len() ==> lesser(
            old[b].insns[j],
            #[trigger] new[b].insns[j],
        )
}

proof fn shape_keeps(old: Seq<BlockModel>, new: Seq<BlockModel>)
    requires
        shaped(old, new),
        set_once(old),
        contained(old),
    ensures
        set_once(new),
        contained(new),
{
    assert forall|b: int, j: int, c: int, k: int|
        0 <= b < new.len() && 0 <= j < new[b].insns.len() && 0 <= c < new.len() && 0 <= k
            < new[c].insns.len() && defined_by(#[trigger] new[b].insns[j]) is Some && defined_by(
            new[b].insns[j],
        ) == defined_by(#[trigger] new[c].insns[k]) implies b == c && j == k by {
        assert(lesser(old[b].insns[j], new[b].insns[j]));
        assert(lesser(old[c].insns[k], new[c].insns[k]));
    }
    assert forall|b: int, j: int, v: VReg|
        0 <= b < new.len() && set_before(old[b].insns, j, v) implies #[trigger] set_before(
        new[b].insns,
        j,
        v,
    ) by {
        let y = choose|y: int|
            0 <= y < j && y < old[b].insns.len() && defined_by(#[trigger] old[b].insns[y]) == Some(v);
        assert(lesser(old[b].insns[y], new[b].insns[y]));
        assert(defined_by(new[b].insns[y]) == Some(v));
    }
    assert forall|b: int, j: int, k: int|
        0 <= b < new.len() && 0 <= j < new[b].insns.len() && 0 <= k < used_by(
            new[b].insns[j],
        ).len() implies new[b].params.contains(#[trigger] used_by(new[b].insns[j])[k]) || set_before(
        new[b].insns,
        j,
        used_by(new[b].insns[j])[k],
    ) by {
        assert(lesser(old[b].insns[j], new[b].insns[j]));
        let u = used_by(old[b].insns[j])[k];
        assert(new[b].params == old[b].params);
        assert(old[b].params.contains(u) || set_before(old[b].insns, j, u));
    }
    assert forall|b: int, v: VReg| 0 <= b < new.len() && #[trigger] term_uses(
        new[b].term,
        v,
    ) implies new[b].params.contains(v) || set_before(
        new[b].insns,
        new[b].insns.len() as int,
        v,
    ) by {
        assert(new[b].term == old[b].term);
        assert(term_uses(old[b].term, v));
        assert(old[b].params.contains(v) || set_before(
            old[b].insns,
            old[b].insns.len() as int,
            v,
        ));
    }
    assert forall|b: int, j: int, c: int, v: VReg|
        0 <= b < new.len() && 0 <= j < new[b].insns.len() && 0 <= c < new.len()
            && #[trigger] new[c].params.contains(v) implies defined_by(#[trigger] new[b].insns[j])
        != Some(v) by {
        assert(lesser(old[b].insns[j], new[b].insns[j]));
        assert(new[c].params == old[c].params);
        assert(old[c].params.contains(v));
        assert(defined_by(old[b].insns[j]) != Some(v));
    }
}

proof fn alike_chained(
    a: Around,
    helpers: Seq<int>,
    top: Seq<BlockModel>,
    x: Seq<BlockModel>,
    y: Seq<BlockModel>,
    z: Seq<BlockModel>,
)
    requires
        alike(a, helpers, top, x, y),
        alike(a, helpers, top, y, z),
    ensures
        alike(a, helpers, top, x, z),
{
    assert forall|b: int| 0 <= b < x.len() implies (#[trigger] z[b]).insns.len()
        == x[b].insns.len() && z[b].term == x[b].term && z[b].succs == x[b].succs && z[b].moves
        == x[b].moves && z[b].params == x[b].params by {
        assert(y[b].insns.len() == x[b].insns.len());
    }
    assert forall|b: int, j: int| 0 <= b < x.len() && 0 <= j < x[b].insns.len() implies agree(
        a,
        helpers,
        top,
        b,
        j,
        x[b].insns[j],
        #[trigger] z[b].insns[j],
    ) && lesser(x[b].insns[j], z[b].insns[j]) by {
        assert(y[b].insns.len() == x[b].insns.len());
        let i = x[b].insns[j];
        assert(agree(a, helpers, top, b, j, i, y[b].insns[j]));
        assert(agree(a, helpers, top, b, j, y[b].insns[j], z[b].insns[j]));
        assert forall|m: IrState| informed(top, b, j, m) implies #[trigger] insn_meaning(
            a,
            helpers,
            m,
            i,
        ) == insn_meaning(a, helpers, m, z[b].insns[j]) by {
            assert(insn_meaning(a, helpers, m, i) == insn_meaning(a, helpers, m, y[b].insns[j]));
        }
    }
}

proof fn folded_agrees(
    a: Around,
    helpers: Seq<int>,
    bs: Seq<BlockModel>,
    top: Seq<BlockModel>,
    b: int,
    j: int,
)
    requires
        constants_stay(bs, top),
        set_once(bs),
        contained(bs),
        0 <= b < bs.len(),
        0 <= j < bs[b].insns.len(),
    ensures
        fold_insn(bs, a.world.floats, a.checks, bs[b].insns[j]) matches Fold::Become(c) ==> agree(
            a,
            helpers,
            top,
            b,
            j,
            bs[b].insns[j],
            set_const(defined_by(bs[b].insns[j])->Some_0, c),
        ),
{
    let i = bs[b].insns[j];
    if let Fold::Become(c) = fold_insn(bs, a.world.floats, a.checks, i) {
        let k = set_const(defined_by(i)->Some_0, c);
        assert forall|l: int| 0 <= l < used_by(i).len() implies bs[b].params.contains(
            #[trigger] used_by(i)[l],
        ) || set_before(bs[b].insns, j, used_by(i)[l]) by {
            assert(bs[b].params.contains(used_by(bs[b].insns[j])[l]) || set_before(
                bs[b].insns,
                j,
                used_by(bs[b].insns[j])[l],
            ));
        }
        assert forall|m: IrState| informed(top, b, j, m) implies #[trigger] insn_meaning(
            a,
            helpers,
            m,
            i,
        ) == insn_meaning(a, helpers, m, k) by {
            informed_below(bs, top, b, j, m);
            match i {
                InsnModel::Plain(Insn::Bin { dst, op, a: x, b: y }) => {
                    let (u, v) = folded_pair_is_exact(
                        a.module,
                        m.store.heap,
                        a.world,
                        bs,
                        a.checks,
                        op,
                        x,
                        y,
                        c,
                    );
                    assert(used_by(i)[0] == x && used_by(i)[1] == y);
                    constant_is_held(bs, b, j, m, x, u);
                    constant_is_held(bs, b, j, m, y, v);
                },
                InsnModel::Plain(Insn::Un { dst, op, a: x }) => {
                    let u = folded_single_is_exact(
                        a.module,
                        m.store.heap,
                        a.world,
                        bs,
                        a.checks,
                        op,
                        x,
                        c,
                    );
                    assert(used_by(i)[0] == x);
                    constant_is_held(bs, b, j, m, x, u);
                },
                _ => {},
            }
        }
    }
}

proof fn alike_itself(a: Around, helpers: Seq<int>, top: Seq<BlockModel>, bs: Seq<BlockModel>)
    ensures
        alike(a, helpers, top, bs, bs),
        constants_stay(bs, bs),
{
}

proof fn step_keeps_constants(st: FoldState, a: Around, b: int, j: int)
    requires
        0 <= b < st.blocks.len(),
        0 <= j < st.blocks[b].insns.len(),
    ensures
        constants_stay(st.blocks, fold_step(st, a.world.floats, a.checks, b, j).blocks),
        shaped(st.blocks, fold_step(st, a.world.floats, a.checks, b, j).blocks),
{
}

proof fn step_is_alike(
    a: Around,
    helpers: Seq<int>,
    top: Seq<BlockModel>,
    st: FoldState,
    b: int,
    j: int,
)
    requires
        0 <= b < st.blocks.len(),
        0 <= j < st.blocks[b].insns.len(),
        set_once(st.blocks),
        contained(st.blocks),
        constants_stay(fold_step(st, a.world.floats, a.checks, b, j).blocks, top),
    ensures
        alike(
            a,
            helpers,
            top,
            st.blocks,
            fold_step(st, a.world.floats, a.checks, b, j).blocks,
        ),
{
    let next = fold_step(st, a.world.floats, a.checks, b, j).blocks;
    step_keeps_constants(st, a, b, j);
    constants_chained(st.blocks, next, top);
    folded_agrees(a, helpers, st.blocks, top, b, j);
}

proof fn round_is_alike(
    a: Around,
    helpers: Seq<int>,
    top: Seq<BlockModel>,
    st: FoldState,
    b: int,
    j: int,
)
    requires
        0 <= b,
        0 <= j,
        set_once(st.blocks),
        contained(st.blocks),
        constants_stay(fold_round(st, a.world.floats, a.checks, b, j).blocks, top),
    ensures
        constants_stay(st.blocks, fold_round(st, a.world.floats, a.checks, b, j).blocks),
        alike(
            a,
            helpers,
            top,
            st.blocks,
            fold_round(st, a.world.floats, a.checks, b, j).blocks,
        ),
    decreases blocks_left(st.blocks, b, j).0, blocks_left(st.blocks, b, j).1,
{
    let end = fold_round(st, a.world.floats, a.checks, b, j).blocks;
    if b >= st.blocks.len() {
        alike_itself(a, helpers, top, st.blocks);
    } else if j >= st.blocks[b].insns.len() {
        round_is_alike(a, helpers, top, st, b + 1, 0);
    } else {
        let next = fold_step(st, a.world.floats, a.checks, b, j);
        step_keeps_constants(st, a, b, j);
        shape_keeps(st.blocks, next.blocks);
        round_is_alike(a, helpers, top, next, b, j + 1);
        constants_chained(next.blocks, end, top);
        step_is_alike(a, helpers, top, st, b, j);
        constants_chained(st.blocks, next.blocks, end);
        alike_chained(a, helpers, top, st.blocks, next.blocks, end);
    }
}

proof fn rounds_are_alike(
    a: Around,
    helpers: Seq<int>,
    top: Seq<BlockModel>,
    st: FoldState,
    rounds: nat,
)
    requires
        set_once(st.blocks),
        contained(st.blocks),
        constants_stay(fold_rounds(st, a.world.floats, a.checks, rounds).blocks, top),
    ensures
        constants_stay(st.blocks, fold_rounds(st, a.world.floats, a.checks, rounds).blocks),
        alike(
            a,
            helpers,
            top,
            st.blocks,
            fold_rounds(st, a.world.floats, a.checks, rounds).blocks,
        ),
    decreases rounds,
{
    if !st.changed || rounds == 0 {
        alike_itself(a, helpers, top, st.blocks);
    } else {
        let fresh = FoldState { changed: false, ..st };
        let next = fold_round(fresh, a.world.floats, a.checks, 0, 0);
        let end = fold_rounds(st, a.world.floats, a.checks, rounds).blocks;
        alike_itself(a, helpers, next.blocks, next.blocks);
        round_is_alike(a, helpers, next.blocks, fresh, 0, 0);
        assert(shaped(st.blocks, next.blocks));
        shape_keeps(st.blocks, next.blocks);
        rounds_are_alike(a, helpers, top, next, (rounds - 1) as nat);
        constants_chained(next.blocks, end, top);
        round_is_alike(a, helpers, top, fresh, 0, 0);
        constants_chained(st.blocks, next.blocks, end);
        alike_chained(a, helpers, top, st.blocks, next.blocks, end);
    }
}

/// Block `b` is left alike in two forms, where the registers hold the constants
/// of `top`.
spec fn leave_alike(top: Seq<BlockModel>, b: int, x: BlockModel, y: BlockModel) -> bool {
    forall|m: IrState|
        informed(top, b, top[b].insns.len() as int, m) ==> #[trigger] term_meaning(m, x.term, x.moves, x.succs) == term_meaning(
            m,
            y.term,
            y.moves,
            y.succs,
        )
}

/// Where the registers hold the constants of `new`, its instructions do what
/// those of `old` do, and its blocks are left alike.
spec fn similar(
    a: Around,
    helpers: Seq<int>,
    old: Seq<BlockModel>,
    new: Seq<BlockModel>,
) -> bool {
    &&& new.len() == old.len()
    &&& forall|b: int|
        0 <= b < old.len() ==> (#[trigger] new[b]).insns.len() == old[b].insns.len()
            && leave_alike(new, b, old[b], new[b])
    &&& forall|b: int, j: int|
        0 <= b < old.len() && 0 <= j < old[b].insns.len() ==> agree(
            a,
            helpers,
            new,
            b,
            j,
            old[b].insns[j],
            #[trigger] new[b].insns[j],
        ) && lesser(old[b].insns[j], new[b].insns[j])
}

/// Blocks are left to blocks.
pub open spec fn edges_lead_inside(bs: Seq<BlockModel>) -> bool {
    forall|b: int|
        0 <= b < bs.len() ==> match (#[trigger] bs[b]).term {
            Term::Br(t) => t < bs.len(),
            Term::BrTrue(_, t) => t < bs.len() && fall_or(bs[b].succs, t) < bs.len(),
            Term::BrFalse(_, t) => t < bs.len() && fall_or(bs[b].succs, t) < bs.len(),
            _ => true,
        }
}

proof fn similar_sets_once(a: Around, helpers: Seq<int>, old: Seq<BlockModel>, new: Seq<BlockModel>)
    requires
        similar(a, helpers, old, new),
        set_once(old),
    ensures
        set_once(new),
{
    assert forall|b: int, j: int, c: int, k: int|
        0 <= b < new.len() && 0 <= j < new[b].insns.len() && 0 <= c < new.len() && 0 <= k
            < new[c].insns.len() && defined_by(#[trigger] new[b].insns[j]) is Some && defined_by(
            new[b].insns[j],
        ) == defined_by(#[trigger] new[c].insns[k]) implies b == c && j == k by {
        assert(lesser(old[b].insns[j], new[b].insns[j]));
        assert(lesser(old[c].insns[k], new[c].insns[k]));
    }
}

proof fn insn_keeps_informed(
    a: Around,
    helpers: Seq<int>,
    new: Seq<BlockModel>,
    b: int,
    j: int,
    m: IrState,
)
    requires
        set_once(new),
        0 <= b < new.len(),
        0 <= j < new[b].insns.len(),
        informed(new, b, j, m),
        insn_meaning(a, helpers, m, new[b].insns[j]).0 is Nothing || insn_meaning(
            a,
            helpers,
            m,
            new[b].insns[j],
        ).0 is Show,
    ensures
        informed(new, b, j + 1, insn_meaning(a, helpers, m, new[b].insns[j]).1),
{
    let i = new[b].insns[j];
    let after = insn_meaning(a, helpers, m, i).1;
    assert forall|y: int| 0 <= y < j + 1 && y < new[b].insns.len() implies (const_insn(
        #[trigger] new[b].insns[y],
    ) matches Some((r, v)) ==> after.regs[r] == v) by {
        if let Some((r, v)) = const_insn(new[b].insns[y]) {
            assert(defined_by(new[b].insns[y]) == Some(r));
            if defined_by(i) == Some(r) {
                assert(y == j);
            } else {
                assert(after.regs[r] == m.regs[r]);
            }
        }
    }
}

proof fn insn_runs_alike(
    a: Around,
    helpers: Seq<int>,
    old: Seq<BlockModel>,
    new: Seq<BlockModel>,
    b: int,
    j: int,
    m: IrState,
)
    requires
        similar(a, helpers, old, new),
        0 <= b < new.len(),
        0 <= j < new[b].insns.len(),
        informed(new, b, j, m),
    ensures
        insn_meaning(a, helpers, m, old[b].insns[j]) == insn_meaning(a, helpers, m, new[b].insns[j]),
        lesser(old[b].insns[j], new[b].insns[j]),
{
    assert(agree(a, helpers, new, b, j, old[b].insns[j], new[b].insns[j]));
}

proof fn insns_run_alike(
    a: Around,
    helpers: Seq<int>,
    old: Seq<BlockModel>,
    new: Seq<BlockModel>,
    b: int,
    j: int,
    m: IrState,
    shown: Seq<Seq<char>>,
)
    requires
        similar(a, helpers, old, new),
        set_once(new),
        0 <= b < new.len(),
        0 <= j <= new[b].insns.len(),
        informed(new, b, j, m),
    ensures
        insns_meaning(a, helpers, m, old[b].insns, j, shown) == insns_meaning(
            a,
            helpers,
            m,
            new[b].insns,
            j,
            shown,
        ),
        insns_meaning(a, helpers, m, new[b].insns, j, shown).0 is Nothing ==> informed(
            new,
            b,
            new[b].insns.len() as int,
            insns_meaning(a, helpers, m, new[b].insns, j, shown).1,
        ),
    decreases new[b].insns.len() - j,
{
    assert(new[b].insns.len() == old[b].insns.len());
    if j < new[b].insns.len() {
        insn_runs_alike(a, helpers, old, new, b, j, m);
        let (e, m1) = insn_meaning(a, helpers, m, new[b].insns[j]);
        match e {
            Effect::Nothing => {
                insn_keeps_informed(a, helpers, new, b, j, m);
                insns_run_alike(a, helpers, old, new, b, j + 1, m1, shown);
            },
            Effect::Show(x) => {
                insn_keeps_informed(a, helpers, new, b, j, m);
                insns_run_alike(a, helpers, old, new, b, j + 1, m1, shown.push(x));
            },
            _ => {},
        }
    }
}

proof fn insns_calm_alike(
    a: Around,
    helpers: Seq<int>,
    old: Seq<BlockModel>,
    new: Seq<BlockModel>,
    b: int,
    j: int,
    m: IrState,
)
    requires
        similar(a, helpers, old, new),
        set_once(new),
        0 <= b < new.len(),
        0 <= j <= new[b].insns.len(),
        informed(new, b, j, m),
    ensures
        calm_insns(a, helpers, m, old[b].insns, j) ==> calm_insns(a, helpers, m, new[b].insns, j),
    decreases new[b].insns.len() - j,
{
    if j < new[b].insns.len() {
        insn_runs_alike(a, helpers, old, new, b, j, m);
        let (e, m1) = insn_meaning(a, helpers, m, new[b].insns[j]);
        if e is Nothing || e is Show {
            insn_keeps_informed(a, helpers, new, b, j, m);
            insns_calm_alike(a, helpers, old, new, b, j + 1, m1);
        }
    }
}

proof fn runs_alike(
    a: Around,
    old: Blocks,
    new: Blocks,
    b: int,
    m: IrState,
    shown: Seq<Seq<char>>,
    fuel: nat,
)
    requires
        old.helpers == new.helpers,
        similar(a, old.helpers, old.blocks, new.blocks),
        set_once(new.blocks),
        edges_lead_inside(old.blocks),
        0 <= b < old.blocks.len(),
    ensures
        executed(a, new, b, m, shown, fuel) == executed(a, old, b, m, shown, fuel),
        calm(a, old, b, m, fuel) ==> calm(a, new, b, m, fuel),
    decreases fuel,
{
    if fuel > 0 {
        let x = old.blocks[b];
        let y = new.blocks[b];
        insns_run_alike(a, old.helpers, old.blocks, new.blocks, b, 0, m, shown);
        insns_calm_alike(a, old.helpers, old.blocks, new.blocks, b, 0, m);
        shown_does_not_matter(a, old.helpers, m, x.insns, 0, shown, seq![]);
        shown_does_not_matter(a, old.helpers, m, y.insns, 0, shown, seq![]);
        let (e, m1, out) = insns_meaning(a, old.helpers, m, x.insns, 0, shown);
        if e is Nothing {
            assert(leave_alike(new.blocks, b, x, y));
            assert(term_meaning(m1, x.term, x.moves, x.succs) == term_meaning(
                m1,
                y.term,
                y.moves,
                y.succs,
            ));
            if let Exit::Goto(c, next) = term_meaning(m1, x.term, x.moves, x.succs) {
                runs_alike(a, old, new, c, next, out, (fuel - 1) as nat);
            }
        }
    }
}

/// Constant folding preserves what a method does: the folded method comes to the
/// same.
pub proof fn folding_law(
    a: Around,
    code: Blocks,
    b: int,
    m: IrState,
    shown: Seq<Seq<char>>,
    fuel: nat,
)
    requires
        set_once(code.blocks),
        contained(code.blocks),
        edges_lead_inside(code.blocks),
        0 <= b < code.blocks.len(),
    ensures
        executed(
            a,
            (Blocks { blocks: folded(code.blocks, a.world.floats, a.checks).blocks, ..code }),
            b,
            m,
            shown,
            fuel,
        ) == executed(a, code, b, m, shown, fuel),
        calm(a, code, b, m, fuel) ==> calm(
            a,
            (Blocks { blocks: folded(code.blocks, a.world.floats, a.checks).blocks, ..code }),
            b,
            m,
            fuel,
        ),
{
    let end = folded(code.blocks, a.world.floats, a.checks).blocks;
    let new = Blocks { blocks: end, ..code };
    folded_is_similar(a, code.helpers, code.blocks);
    similar_sets_once(a, code.helpers, code.blocks, end);
    runs_alike(a, code, new, b, m, shown, fuel);
}

proof fn folded_is_similar(a: Around, helpers: Seq<int>, bs: Seq<BlockModel>)
    requires
        set_once(bs),
        contained(bs),
    ensures
        similar(a, helpers, bs, folded(bs, a.world.floats, a.checks).blocks),
        alike(
            a,
            helpers,
            folded(bs, a.world.floats, a.checks).blocks,
            bs,
            folded(bs, a.world.floats, a.checks).blocks,
        ),
{
    let st = FoldState { blocks: bs, asks: seq![], changed: true };
    let end = folded(bs, a.world.floats, a.checks).blocks;
    alike_itself(a, helpers, end, end);
    rounds_are_alike(a, helpers, end, st, 1 + bs.len() * 2);
    assert forall|b: int| 0 <= b < bs.len() implies (#[trigger] end[b]).insns.len()
        == bs[b].insns.len() && leave_alike(end, b, bs[b], end[b]) by {}
}

/// The blocks differ only in how they are left, and are left alike.
spec fn only_ends_differ(
    top: Seq<BlockModel>,
    old: Seq<BlockModel>,
    new: Seq<BlockModel>,
) -> bool {
    &&& new.len() == old.len()
    &&& forall|b: int|
        0 <= b < old.len() ==> (#[trigger] new[b]).insns == old[b].insns && leave_alike(
            top,
            b,
            old[b],
            new[b],
        ) && shortened(old[b], new[b])
}

/// A block ends as another one, or with a jump to where that one branches.
spec fn shortened(x: BlockModel, y: BlockModel) -> bool {
    ||| y.term == x.term && y.moves == x.moves && y.succs == x.succs && y.params == x.params
    ||| {
        &&& y.params == x.params
        &&& y.term matches Term::Br(to) && match x.term {
            Term::BrTrue(_, t) => to == t || to == fall_or(x.succs, t),
            Term::BrFalse(_, t) => to == t || to == fall_or(x.succs, t),
            _ => false,
        }
        &&& forall|k: int| 0 <= k < y.moves.len() ==> x.moves.contains(#[trigger] y.moves[k])
    }
}

proof fn alike_twice(top: Seq<BlockModel>, b: int, x: BlockModel, y: BlockModel, z: BlockModel)
    requires
        leave_alike(top, b, x, y),
        leave_alike(top, b, y, z),
    ensures
        leave_alike(top, b, x, z),
{
    assert forall|m: IrState| informed(top, b, top[b].insns.len() as int, m) implies #[trigger] term_meaning(
        m,
        x.term,
        x.moves,
        x.succs,
    ) == term_meaning(m, z.term, z.moves, z.succs) by {
        assert(term_meaning(m, x.term, x.moves, x.succs) == term_meaning(m, y.term, y.moves, y.succs));
        assert(term_meaning(m, y.term, y.moves, y.succs) == term_meaning(m, z.term, z.moves, z.succs));
    }
}

proof fn shortened_twice(x: BlockModel, y: BlockModel, z: BlockModel)
    requires
        shortened(x, y),
        shortened(y, z),
    ensures
        shortened(x, z),
{
    if z.term == y.term && z.moves == y.moves && z.succs == y.succs && z.params == y.params {
        if !(y.term == x.term && y.moves == x.moves && y.succs == x.succs && y.params == x.params) {
            assert forall|k: int| 0 <= k < z.moves.len() implies x.moves.contains(#[trigger] z.moves[k]) by {
                assert(x.moves.contains(y.moves[k]));
            }
        }
    } else {
        assert(y.term == x.term && y.succs == x.succs && y.params == x.params);
        assert(y.moves == x.moves);
    }
}

proof fn ends_chained(
    top: Seq<BlockModel>,
    x: Seq<BlockModel>,
    y: Seq<BlockModel>,
    z: Seq<BlockModel>,
)
    requires
        only_ends_differ(top, x, y),
        only_ends_differ(top, y, z),
    ensures
        only_ends_differ(top, x, z),
{
    assert forall|b: int| 0 <= b < x.len() implies (#[trigger] z[b]).insns == x[b].insns
        && leave_alike(top, b, x[b], z[b]) && shortened(x[b], z[b]) by {
        assert(y[b].insns == x[b].insns);
        alike_twice(top, b, x[b], y[b], z[b]);
        shortened_twice(x[b], y[b], z[b]);
    }
}

/// Two blocks differ at most in their predecessors and in whether they can be reached.
spec fn same_end(x: BlockModel, y: BlockModel) -> bool {
    &&& y.insns == x.insns
    &&& y.term == x.term
    &&& y.moves == x.moves
    &&& y.succs == x.succs
    &&& y.params == x.params
}

/// Blocks that differ at most in that.
spec fn same_ends(old: Seq<BlockModel>, new: Seq<BlockModel>) -> bool {
    &&& new.len() == old.len()
    &&& forall|c: int| 0 <= c < old.len() ==> same_end(old[c], #[trigger] new[c])
}

proof fn same_ends_chained(x: Seq<BlockModel>, y: Seq<BlockModel>, z: Seq<BlockModel>)
    requires
        same_ends(x, y),
        same_ends(y, z),
    ensures
        same_ends(x, z),
{
    assert forall|c: int| 0 <= c < x.len() implies same_end(x[c], #[trigger] z[c]) by {
        assert(same_end(y[c], z[c]));
        assert(same_end(x[c], y[c]));
    }
}

proof fn unlinking_keeps_ends(
    bs: Seq<BlockModel>,
    succs: Seq<usize>,
    taken: usize,
    i: usize,
    k: int,
)
    ensures
        same_ends(bs, unlink(bs, succs, taken, i, k)),
    decreases succs.len() - k,
{
    if 0 <= k < succs.len() {
        let s = succs[k] as int;
        let next = if succs[k] != taken && s < bs.len() {
            bs.update(s, BlockModel { preds: without(bs[s].preds, i), ..bs[s] })
        } else {
            bs
        };
        assert(same_ends(bs, next));
        unlinking_keeps_ends(next, succs, taken, i, k + 1);
        same_ends_chained(bs, next, unlink(next, succs, taken, i, k + 1));
    }
}

proof fn falls_agree(succs: Seq<usize>, target: usize, k: int)
    ensures
        other_succ(succs, target, k) == fall_of(succs, target, k),
    decreases succs.len() - k,
{
    if 0 <= k < succs.len() && succs[k] == target {
        falls_agree(succs, target, k + 1);
    }
}

proof fn moves_at_the_back(v: Seq<(usize, Seq<(VReg, VReg)>)>, x: usize, i: int)
    requires
        0 <= i < v.len(),
    ensures
        (exists|k: int| i <= k < v.len() - 1 && (#[trigger] v[k]).0 == x) ==> moves_to(v, x, i)
            == moves_to(v.drop_last(), x, i),
        (forall|k: int| i <= k < v.len() - 1 ==> (#[trigger] v[k]).0 != x) ==> moves_to(v, x, i)
            == (if v.last().0 == x {
            v.last().1
        } else {
            seq![]
        }),
    decreases v.len() - i,
{
    if i < v.len() - 1 {
        assert(v.drop_last()[i] == v[i]);
        if v[i].0 != x {
            moves_at_the_back(v, x, i + 1);
        }
    } else {
        assert(moves_to(v, x, i + 1) == Seq::<(VReg, VReg)>::empty());
    }
}

proof fn only_moves_first(v: Seq<(usize, Seq<(VReg, VReg)>)>, x: usize)
    ensures
        forall|k: int| 0 <= k < only_moves(v, x).len() ==> (#[trigger] only_moves(v, x)[k]).0 == x,
        only_moves(v, x).len() == 0 ==> forall|k: int| 0 <= k < v.len() ==> (#[trigger] v[k]).0 != x,
        only_moves(v, x).len() > 0 ==> exists|k: int| 0 <= k < v.len() && (#[trigger] v[k]).0 == x,
        moves_to(v, x, 0) == (if only_moves(v, x).len() > 0 {
            only_moves(v, x)[0].1
        } else {
            seq![]
        }),
    decreases v.len(),
{
    if v.len() > 0 {
        let w = v.drop_last();
        only_moves_first(w, x);
        moves_at_the_back(v, x, 0);
        assert forall|k: int| 0 <= k < w.len() implies w[k] == v[k] by {}
        if only_moves(w, x).len() > 0 {
            let k = choose|k: int| 0 <= k < w.len() && (#[trigger] w[k]).0 == x;
            assert(v[k].0 == x);
        } else {
            assert forall|k: int| 0 <= k < v.len() - 1 implies (#[trigger] v[k]).0 != x by {
                assert(w[k].0 != x);
            }
            if v.last().0 == x {
                assert(v[v.len() - 1].0 == x);
            }
        }
    }
}

proof fn only_moves_were_there(v: Seq<(usize, Seq<(VReg, VReg)>)>, x: usize)
    ensures
        forall|k: int|
            0 <= k < only_moves(v, x).len() ==> v.contains(#[trigger] only_moves(v, x)[k]),
    decreases v.len(),
{
    if v.len() > 0 {
        let w = v.drop_last();
        only_moves_were_there(w, x);
        assert forall|k: int| 0 <= k < only_moves(v, x).len() implies v.contains(
            #[trigger] only_moves(v, x)[k],
        ) by {
            if k < only_moves(w, x).len() {
                assert(only_moves(v, x)[k] == only_moves(w, x)[k]);
                let l = choose|l: int| 0 <= l < w.len() && w[l] == only_moves(w, x)[k];
                assert(v[l] == only_moves(v, x)[k]);
            } else {
                assert(v[v.len() - 1] == only_moves(v, x)[k]);
            }
        }
    }
}

proof fn filtered_moves_stay(v: Seq<(usize, Seq<(VReg, VReg)>)>, x: usize)
    ensures
        moves_to(only_moves(v, x), x, 0) == moves_to(v, x, 0),
{
    only_moves_first(v, x);
}

proof fn truth_is_held(top: Seq<BlockModel>, bs: Seq<BlockModel>, b: int, m: IrState, c: VReg)
    requires
        constants_stay(bs, top),
        set_once(bs),
        contained(bs),
        0 <= b < bs.len(),
        term_uses(bs[b].term, c),
        informed(top, b, top[b].insns.len() as int, m),
    ensures
        truth(bs, c) matches Some(t) ==> truthy(m.regs[c]) == t,
{
    let n = bs[b].insns.len() as int;
    assert(top[b].insns.len() == n);
    informed_below(bs, top, b, n, m);
    if let Some(t) = truth(bs, c) {
        if bool_const(bs, c) is Some {
            constant_is_held(bs, b, n, m, c, Value::Bool(bool_const(bs, c)->Some_0));
        } else {
            constant_is_held(bs, b, n, m, c, Value::Int(int_const(bs, c)->Some_0));
        }
    }
}

proof fn branch_is_alike(top: Seq<BlockModel>, bs: Seq<BlockModel>, i: int, c: VReg, t: usize, when: bool)
    requires
        constants_stay(bs, top),
        set_once(bs),
        contained(bs),
        0 <= i < bs.len(),
        bs[i].term == (if when {
            Term::BrTrue(c, t)
        } else {
            Term::BrFalse(c, t)
        }),
    ensures
        only_ends_differ(top, bs, fold_branch(bs, i, c, t, when)),
{
    let next = fold_branch(bs, i, c, t, when);
    let x = bs[i];
    falls_agree(x.succs, t, 0);
    if let Some(v) = truth(bs, c) {
        let taken = if v == when {
            Some(t)
        } else {
            other_succ(x.succs, t, 0)
        };
        if let Some(to) = taken {
            unlinking_keeps_ends(bs, x.succs, to, i as usize, 0);
            filtered_moves_stay(x.moves, to);
        }
        assert forall|m: IrState| informed(top, i, top[i].insns.len() as int, m) implies #[trigger] term_meaning(
            m,
            x.term,
            x.moves,
            x.succs,
        ) == term_meaning(m, next[i].term, next[i].moves, next[i].succs) by {
            assert(term_uses(bs[i].term, c));
            truth_is_held(top, bs, i, m, c);
        }
        assert(leave_alike(top, i, x, next[i]));
        assert(shortened(x, next[i])) by {
            if let Some(to) = taken {
                only_moves_were_there(x.moves, to);
            } else {
                assert forall|k: int| 0 <= k < x.moves.len() implies x.moves.contains(
                    #[trigger] next[i].moves[k],
                ) by {
                    assert(x.moves[k] == next[i].moves[k]);
                }
            }
        }
        assert forall|b: int| 0 <= b < bs.len() implies (#[trigger] next[b]).insns == bs[b].insns
            && leave_alike(top, b, bs[b], next[b]) && shortened(bs[b], next[b]) by {
            if let Some(to) = taken {
                let cut = unlink(bs, x.succs, to, i as usize, 0);
                assert(cut[b].insns == bs[b].insns);
            }
        }
    }
}

proof fn ends_keep_contained(top: Seq<BlockModel>, old: Seq<BlockModel>, new: Seq<BlockModel>)
    requires
        only_ends_differ(top, old, new),
        set_once(old),
        contained(old),
    ensures
        set_once(new),
        contained(new),
{
    assert forall|b: int, j: int, c: int, k: int|
        0 <= b < new.len() && 0 <= j < new[b].insns.len() && 0 <= c < new.len() && 0 <= k
            < new[c].insns.len() && defined_by(#[trigger] new[b].insns[j]) is Some && defined_by(
            new[b].insns[j],
        ) == defined_by(#[trigger] new[c].insns[k]) implies b == c && j == k by {
        assert(new[b].insns == old[b].insns && new[c].insns == old[c].insns);
        assert(defined_by(old[b].insns[j]) == defined_by(old[c].insns[k]));
    }
    assert forall|b: int, j: int, k: int|
        0 <= b < new.len() && 0 <= j < new[b].insns.len() && 0 <= k < used_by(
            new[b].insns[j],
        ).len() implies new[b].params.contains(#[trigger] used_by(new[b].insns[j])[k]) || set_before(
        new[b].insns,
        j,
        used_by(new[b].insns[j])[k],
    ) by {
        assert(new[b].insns == old[b].insns && shortened(old[b], new[b]));
        assert(old[b].params.contains(used_by(old[b].insns[j])[k]) || set_before(
            old[b].insns,
            j,
            used_by(old[b].insns[j])[k],
        ));
    }
    assert forall|b: int, v: VReg| 0 <= b < new.len() && #[trigger] term_uses(
        new[b].term,
        v,
    ) implies new[b].params.contains(v) || set_before(
        new[b].insns,
        new[b].insns.len() as int,
        v,
    ) by {
        assert(new[b].insns == old[b].insns && shortened(old[b], new[b]));
        assert(term_uses(old[b].term, v));
    }
    assert forall|b: int, j: int, c: int, v: VReg|
        0 <= b < new.len() && 0 <= j < new[b].insns.len() && 0 <= c < new.len()
            && #[trigger] new[c].params.contains(v) implies defined_by(#[trigger] new[b].insns[j])
        != Some(v) by {
        assert(new[b].insns == old[b].insns && shortened(old[c], new[c]));
        assert(old[c].params.contains(v));
        assert(defined_by(old[b].insns[j]) != Some(v));
    }
}

proof fn branches_are_alike(top: Seq<BlockModel>, bs: Seq<BlockModel>, i: int)
    requires
        constants_stay(bs, top),
        set_once(bs),
        contained(bs),
        0 <= i,
    ensures
        only_ends_differ(top, bs, fold_branches(bs, i)),
    decreases bs.len() - i,
{
    if i < bs.len() {
        let next = match bs[i].term {
            Term::BrTrue(c, t) => fold_branch(bs, i, c, t, true),
            Term::BrFalse(c, t) => fold_branch(bs, i, c, t, false),
            _ => bs,
        };
        match bs[i].term {
            Term::BrTrue(c, t) => branch_is_alike(top, bs, i, c, t, true),
            Term::BrFalse(c, t) => branch_is_alike(top, bs, i, c, t, false),
            _ => {},
        }
        assert(only_ends_differ(top, bs, next));
        assert(constants_stay(next, top)) by {
            assert forall|b: int| 0 <= b < next.len() implies (#[trigger] top[b]).insns.len()
                == next[b].insns.len() by {
                assert(next[b].insns == bs[b].insns);
            }
            assert forall|b: int, j: int|
                0 <= b < next.len() && 0 <= j < next[b].insns.len() && const_insn(
                    next[b].insns[j],
                ) is Some implies #[trigger] top[b].insns[j] == next[b].insns[j] by {
                assert(next[b].insns == bs[b].insns);
            }
        }
        ends_keep_contained(top, bs, next);
        branches_are_alike(top, next, i + 1);
        ends_chained(top, bs, next, fold_branches(next, i + 1));
    }
}

/// Folding branches preserves what a method does: the method comes to the same
/// after it.
pub proof fn branches_law(
    a: Around,
    code: Blocks,
    b: int,
    m: IrState,
    shown: Seq<Seq<char>>,
    fuel: nat,
)
    requires
        set_once(code.blocks),
        contained(code.blocks),
        edges_lead_inside(code.blocks),
        0 <= b < code.blocks.len(),
    ensures
        executed(
            a,
            (Blocks { blocks: fold_branches(code.blocks, 0), ..code }),
            b,
            m,
            shown,
            fuel,
        ) == executed(a, code, b, m, shown, fuel),
        calm(a, code, b, m, fuel) ==> calm(
            a,
            (Blocks { blocks: fold_branches(code.blocks, 0), ..code }),
            b,
            m,
            fuel,
        ),
{
    let bs = code.blocks;
    let end = fold_branches(bs, 0);
    let new = Blocks { blocks: end, ..code };
    fold_branches_insns(bs, 0);
    assert(constants_stay(bs, end));
    branches_are_alike(end, bs, 0);
    assert(similar(a, code.helpers, bs, end)) by {
        assert forall|c: int, j: int| 0 <= c < bs.len() && 0 <= j < bs[c].insns.len() implies agree(
            a,
            code.helpers,
            end,
            c,
            j,
            bs[c].insns[j],
            #[trigger] end[c].insns[j],
        ) && lesser(bs[c].insns[j], end[c].insns[j]) by {
            assert(end[c].insns == bs[c].insns);
        }
    }
    similar_sets_once(a, code.helpers, bs, end);
    runs_alike(a, code, new, b, m, shown, fuel);
}

proof fn folding_keeps_bounds(a: Around, helpers: Seq<int>, bs: Seq<BlockModel>, n: int)
    requires
        set_once(bs),
        contained(bs),
        edges_lead_inside(bs),
        uses_below(bs, n),
    ensures
        contained(folded(bs, a.world.floats, a.checks).blocks),
        set_once(folded(bs, a.world.floats, a.checks).blocks),
        edges_lead_inside(folded(bs, a.world.floats, a.checks).blocks),
        uses_below(folded(bs, a.world.floats, a.checks).blocks, n),
{
    let new = folded(bs, a.world.floats, a.checks).blocks;
    folded_is_similar(a, helpers, bs);
    similar_sets_once(a, helpers, bs, new);
    assert(shaped(bs, new));
    shape_keeps(bs, new);
    assert forall|b: int| 0 <= b < new.len() implies match (#[trigger] new[b]).term {
        Term::Br(t) => t < new.len(),
        Term::BrTrue(_, t) => t < new.len() && fall_or(new[b].succs, t) < new.len(),
        Term::BrFalse(_, t) => t < new.len() && fall_or(new[b].succs, t) < new.len(),
        _ => true,
    } by {
        assert(new[b].term == bs[b].term && new[b].succs == bs[b].succs);
    }
    assert forall|b: int, j: int, k: int|
        0 <= b < new.len() && 0 <= j < new[b].insns.len() && 0 <= k < used_by(
            new[b].insns[j],
        ).len() implies (#[trigger] used_by(new[b].insns[j])[k]) < n by {
        assert(lesser(bs[b].insns[j], new[b].insns[j]));
        assert(used_by(bs[b].insns[j])[k] < n);
    }
    assert forall|b: int, v: VReg| 0 <= b < new.len() && #[trigger] term_uses(new[b].term, v) implies v
        < n by {
        assert(new[b].term == bs[b].term);
        assert(term_uses(bs[b].term, v));
    }
    assert forall|b: int, k: int, l: int|
        0 <= b < new.len() && 0 <= k < new[b].moves.len() && 0 <= l
            < new[b].moves[k].1.len() implies (#[trigger] new[b].moves[k].1[l]).1 < n by {
        assert(new[b].moves == bs[b].moves);
        assert(bs[b].moves[k].1[l].1 < n);
    }
}

proof fn branches_keep_bounds(bs: Seq<BlockModel>, n: int)
    requires
        set_once(bs),
        contained(bs),
        edges_lead_inside(bs),
        uses_below(bs, n),
    ensures
        edges_lead_inside(fold_branches(bs, 0)),
        uses_below(fold_branches(bs, 0), n),
{
    let new = fold_branches(bs, 0);
    fold_branches_insns(bs, 0);
    assert(constants_stay(bs, new));
    branches_are_alike(new, bs, 0);
    assert forall|b: int| 0 <= b < new.len() implies match (#[trigger] new[b]).term {
        Term::Br(t) => t < new.len(),
        Term::BrTrue(_, t) => t < new.len() && fall_or(new[b].succs, t) < new.len(),
        Term::BrFalse(_, t) => t < new.len() && fall_or(new[b].succs, t) < new.len(),
        _ => true,
    } by {
        assert(shortened(bs[b], new[b]));
    }
    assert forall|b: int, j: int, k: int|
        0 <= b < new.len() && 0 <= j < new[b].insns.len() && 0 <= k < used_by(
            new[b].insns[j],
        ).len() implies (#[trigger] used_by(new[b].insns[j])[k]) < n by {
        assert(new[b].insns == bs[b].insns);
        assert(used_by(bs[b].insns[j])[k] < n);
    }
    assert forall|b: int, v: VReg| 0 <= b < new.len() && #[trigger] term_uses(new[b].term, v) implies v
        < n by {
        assert(shortened(bs[b], new[b]));
        assert(term_uses(bs[b].term, v));
    }
    assert forall|b: int, k: int, l: int|
        0 <= b < new.len() && 0 <= k < new[b].moves.len() && 0 <= l
            < new[b].moves[k].1.len() implies (#[trigger] new[b].moves[k].1[l]).1 < n by {
        assert(shortened(bs[b], new[b]));
        let x = if new[b].moves == bs[b].moves {
            k
        } else {
            choose|x: int| 0 <= x < bs[b].moves.len() && bs[b].moves[x] == new[b].moves[k]
        };
        assert(bs[b].moves[x].1[l].1 < n);
    }
}

/// Optimization preserves what a method does: the optimized method comes as far
/// and to the same end, shows the same texts, and leaves the same heap and static
/// fields, where no instruction that only computes fails in the run.
pub proof fn optimizing_law(
    a: Around,
    code: Blocks,
    n: int,
    b: int,
    m: IrState,
    shown: Seq<Seq<char>>,
    fuel: nat,
)
    requires
        set_once(code.blocks),
        edges_lead_inside(code.blocks),
        contained(code.blocks),
        uses_below(code.blocks, n),
        0 <= b < code.blocks.len(),
        calm(a, code, b, m, fuel),
    ensures
        executed(
            a,
            (Blocks { blocks: optimized(code.blocks, a.world.floats, a.checks, n), ..code }),
            b,
            m,
            shown,
            fuel,
        ) == executed(a, code, b, m, shown, fuel),
{
    let first = Blocks { blocks: folded(code.blocks, a.world.floats, a.checks).blocks, ..code };
    let second = Blocks { blocks: fold_branches(first.blocks, 0), ..code };
    folding_law(a, code, b, m, shown, fuel);
    folding_keeps_bounds(a, code.helpers, code.blocks, n);
    folded_is_similar(a, code.helpers, code.blocks);
    branches_law(a, first, b, m, shown, fuel);
    branches_keep_bounds(first.blocks, n);
    fold_branches_insns(first.blocks, 0);
    sweeping_law(a, second, n, b, m, shown, fuel, 4);
}

} // verus!
