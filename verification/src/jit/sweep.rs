//! The removal of dead code preserves what a method does.

use crate::jit::blocks::{fall_or, insns_meaning, moved, moves_to, term_meaning, Exit};
use crate::jit::ir::{acting, defined_by, effectful, used_by, BlockModel, InsnModel, Term, VReg};
use crate::jit::lower::Blocks;
use crate::jit::methods::executed;
use crate::jit::optimize::{
    block_needs, depends, is_root, kept_insns, live, need_chain, stays, swept, swept_rounds, term_uses,
};
use crate::jit::preserve::edges_lead_inside;
use crate::jit::simulate::{insn_meaning, values, Around, IrState};
use crate::vm::world::Effect;
use vstd::prelude::*;

verus! {

/// Every register that is used has a type.
pub open spec fn uses_below(bs: Seq<BlockModel>, n: int) -> bool {
    &&& forall|b: int, j: int, k: int|
        0 <= b < bs.len() && 0 <= j < bs[b].insns.len() && 0 <= k < used_by(bs[b].insns[j]).len()
            ==> (#[trigger] used_by(bs[b].insns[j])[k]) < n
    &&& forall|b: int, v: VReg|
        0 <= b < bs.len() && #[trigger] term_uses(bs[b].term, v) ==> v < n
    &&& forall|b: int, k: int, l: int|
        0 <= b < bs.len() && 0 <= k < bs[b].moves.len() && 0 <= l < bs[b].moves[k].1.len() ==> (
        #[trigger] bs[b].moves[k].1[l]).1 < n
}

/// In a run of instructions, those that only compute always give a value.
pub open spec fn calm_insns(
    a: Around,
    helpers: Seq<int>,
    m: IrState,
    insns: Seq<InsnModel>,
    j: int,
) -> bool
    decreases insns.len() - j,
{
    0 <= j < insns.len() ==> {
        let (e, m1) = insn_meaning(a, helpers, m, insns[j]);
        &&& !acting(a.checks, insns[j]) ==> e is Nothing
        &&& e is Nothing || e is Show ==> calm_insns(a, helpers, m1, insns, j + 1)
    }
}

/// In a run of blocks, instructions that only compute always give a value.
pub open spec fn calm(a: Around, code: Blocks, b: int, m: IrState, fuel: nat) -> bool
    decreases fuel,
{
    fuel > 0 ==> {
        let block = code.blocks[b];
        let (e, m1, out) = insns_meaning(a, code.helpers, m, block.insns, 0, seq![]);
        &&& calm_insns(a, code.helpers, m, block.insns, 0)
        &&& e is Nothing ==> (term_meaning(m1, block.term, block.moves, block.succs)
            matches Exit::Goto(c, x) ==> calm(a, code, c, x, (fuel - 1) as nat))
    }
}

/// The states agree in all that is needed.
spec fn close(checks: bool, bs: Seq<BlockModel>, n: int, m: IrState, w: IrState) -> bool {
    &&& m.locals == w.locals
    &&& m.store == w.store
    &&& forall|r: VReg| #[trigger] live(checks, bs, n, r) ==> m.regs[r] == w.regs[r]
}

proof fn root_is_live(checks: bool, bs: Seq<BlockModel>, n: int, v: VReg)
    requires
        is_root(checks, bs, v),
        v < n,
    ensures
        live(checks, bs, n, v),
{
    let chain = seq![v];
    assert(need_chain(checks, bs, n, chain));
    assert(chain.last() == v);
}

proof fn source_is_live(checks: bool, bs: Seq<BlockModel>, n: int, v: VReg, u: VReg)
    requires
        live(checks, bs, n, v),
        depends(bs, v, u),
        u < n,
    ensures
        live(checks, bs, n, u),
{
    let chain = choose|chain: Seq<VReg>| #[trigger] need_chain(checks, bs, n, chain) && chain.last() == v;
    let longer = chain.push(u);
    assert(need_chain(checks, bs, n, longer)) by {
        assert(longer[0] == chain[0]);
        assert forall|k: int| 0 <= k < longer.len() implies (#[trigger] longer[k]) < n by {
            if k < chain.len() {
                assert(longer[k] == chain[k]);
            }
        }
        assert forall|k: int| 0 <= k < longer.len() - 1 implies depends(
            bs,
            #[trigger] longer[k],
            longer[k + 1],
        ) by {
            assert(longer[k] == chain[k]);
            if k + 1 < chain.len() {
                assert(depends(bs, chain[k], chain[k + 1]));
            }
        }
    }
    assert(longer.last() == u);
}

/// What an instruction that stays uses is needed.
proof fn used_is_live(checks: bool, bs: Seq<BlockModel>, n: int, b: int, j: int)
    requires
        uses_below(bs, n),
        0 <= b < bs.len(),
        0 <= j < bs[b].insns.len(),
        stays(checks, bs, n, bs[b].insns[j]),
        acting(checks, bs[b].insns[j]) || defined_by(bs[b].insns[j]) is Some,
    ensures
        forall|k: int|
            0 <= k < used_by(bs[b].insns[j]).len() ==> live(
                checks,
                bs,
                n,
                #[trigger] used_by(bs[b].insns[j])[k],
            ),
{
    let i = bs[b].insns[j];
    assert forall|k: int| 0 <= k < used_by(i).len() implies live(checks, bs, n, #[trigger] used_by(i)[k]) by {
        let u = used_by(i)[k];
        assert(used_by(bs[b].insns[j])[k] < n);
        assert(used_by(i).contains(u));
        if acting(checks, i) {
            assert(block_needs(checks, bs[b], u));
            assert(is_root(checks, bs, u));
            root_is_live(checks, bs, n, u);
        } else {
            let v = defined_by(i)->Some_0;
            assert(depends(bs, v, u));
            source_is_live(checks, bs, n, v, u);
        }
    }
}

/// An instruction does the same where the registers that it uses are the same.
proof fn insn_alike(a: Around, helpers: Seq<int>, m: IrState, w: IrState, i: InsnModel)
    requires
        m.locals == w.locals,
        m.store == w.store,
        forall|k: int| 0 <= k < used_by(i).len() ==> m.regs[#[trigger] used_by(i)[k]] == w.regs[used_by(i)[k]],
    ensures
        insn_meaning(a, helpers, m, i).0 == insn_meaning(a, helpers, w, i).0,
        insn_meaning(a, helpers, m, i).1.locals == insn_meaning(a, helpers, w, i).1.locals,
        insn_meaning(a, helpers, m, i).1.store == insn_meaning(a, helpers, w, i).1.store,
        forall|r: VReg|
            m.regs[r] == w.regs[r] ==> #[trigger] insn_meaning(a, helpers, m, i).1.regs[r]
                == insn_meaning(a, helpers, w, i).1.regs[r],
{
    match i {
        InsnModel::Helper { dst, op_id, args } => {
            assert(values(m, args) =~= values(w, args)) by {
                assert forall|k: int| 0 <= k < args.len() implies m.regs[args[k]] == w.regs[args[k]] by {
                    assert(m.regs[used_by(i)[k]] == w.regs[used_by(i)[k]]);
                }
            }
        },
        InsnModel::Plain(p) => {
            if used_by(i).len() > 0 {
                assert(m.regs[used_by(i)[0]] == w.regs[used_by(i)[0]]);
            }
            if used_by(i).len() > 1 {
                assert(m.regs[used_by(i)[1]] == w.regs[used_by(i)[1]]);
            }
        },
    }
}

/// An instruction that gives no effect but a value changes no other register.
proof fn pure_changes_one(a: Around, helpers: Seq<int>, m: IrState, i: InsnModel)
    requires
        !effectful(i),
        insn_meaning(a, helpers, m, i).0 is Nothing,
    ensures
        insn_meaning(a, helpers, m, i).1.locals == m.locals,
        insn_meaning(a, helpers, m, i).1.store == m.store,
        forall|r: VReg|
            defined_by(i) != Some(r) ==> #[trigger] insn_meaning(a, helpers, m, i).1.regs[r]
                == m.regs[r],
{
}

proof fn kept_prefix(checks: bool, bs: Seq<BlockModel>, n: int, insns: Seq<InsnModel>, j: int)
    requires
        0 <= j <= insns.len(),
    ensures
        kept_insns(checks, bs, n, insns.take(j)).len() <= kept_insns(checks, bs, n, insns).len(),
        kept_insns(checks, bs, n, insns).take(kept_insns(checks, bs, n, insns.take(j)).len() as int) == kept_insns(
            checks,
            bs,
            n,
            insns.take(j),
        ),
    decreases insns.len(),
{
    let all = kept_insns(checks, bs, n, insns);
    if j == insns.len() {
        assert(insns.take(j) =~= insns);
        assert(all.take(all.len() as int) =~= all);
    } else {
        let shorter = insns.drop_last();
        kept_prefix(checks, bs, n, shorter, j);
        assert(shorter.take(j) =~= insns.take(j));
        let first = kept_insns(checks, bs, n, shorter);
        let count = kept_insns(checks, bs, n, insns.take(j)).len() as int;
        assert(all.take(count) =~= first.take(count));
    }
}

proof fn kept_next(checks: bool, bs: Seq<BlockModel>, n: int, insns: Seq<InsnModel>, j: int)
    requires
        0 <= j < insns.len(),
    ensures
        ({
            let before = kept_insns(checks, bs, n, insns.take(j));
            let after = kept_insns(checks, bs, n, insns.take(j + 1));
            if stays(checks, bs, n, insns[j]) {
                &&& after.len() == before.len() + 1
                &&& before.len() < kept_insns(checks, bs, n, insns).len()
                &&& kept_insns(checks, bs, n, insns)[before.len() as int] == insns[j]
            } else {
                after == before
            }
        }),
{
    kept_prefix(checks, bs, n, insns, j);
    kept_prefix(checks, bs, n, insns, j + 1);
    let before = kept_insns(checks, bs, n, insns.take(j));
    let after = kept_insns(checks, bs, n, insns.take(j + 1));
    assert(insns.take(j + 1).drop_last() =~= insns.take(j));
    assert(insns.take(j + 1).last() == insns[j]);
    if stays(checks, bs, n, insns[j]) {
        assert(after == before.push(insns[j]));
        let all = kept_insns(checks, bs, n, insns);
        assert(all.take(after.len() as int)[before.len() as int] == insns[j]);
    }
}

proof fn insns_run_close(
    a: Around,
    helpers: Seq<int>,
    bs: Seq<BlockModel>,
    n: int,
    b: int,
    j: int,
    m: IrState,
    w: IrState,
    shown: Seq<Seq<char>>,
)
    requires
        uses_below(bs, n),
        0 <= b < bs.len(),
        0 <= j <= bs[b].insns.len(),
        close(a.checks, bs, n, m, w),
        calm_insns(a, helpers, m, bs[b].insns, j),
    ensures
        ({
            let at = kept_insns(a.checks, bs, n, bs[b].insns.take(j)).len() as int;
            let left = kept_insns(a.checks, bs, n, bs[b].insns);
            let (e, m1, out) = insns_meaning(a, helpers, m, bs[b].insns, j, shown);
            let (d, w1, told) = insns_meaning(a, helpers, w, left, at, shown);
            &&& d == e
            &&& told == out
            &&& close(a.checks, bs, n, m1, w1)
            &&& calm_insns(a, helpers, w, left, at)
        }),
    decreases bs[b].insns.len() - j,
{
    let insns = bs[b].insns;
    let left = kept_insns(a.checks, bs, n, insns);
    let at = kept_insns(a.checks, bs, n, insns.take(j)).len() as int;
    if j < insns.len() {
        let i = insns[j];
        kept_next(a.checks, bs, n, insns, j);
        let (e, m1) = insn_meaning(a, helpers, m, i);
        if stays(a.checks, bs, n, i) {
            if acting(a.checks, i) || defined_by(i) is Some {
                used_is_live(a.checks, bs, n, b, j);
            }
            assert forall|k: int| 0 <= k < used_by(i).len() implies m.regs[#[trigger] used_by(i)[k]]
                == w.regs[used_by(i)[k]] by {
                assert(live(a.checks, bs, n, used_by(bs[b].insns[j])[k]));
            }
            insn_alike(a, helpers, m, w, i);
            let (d, w1) = insn_meaning(a, helpers, w, i);
            assert(close(a.checks, bs, n, m1, w1)) by {
                assert forall|r: VReg| #[trigger] live(a.checks, bs, n, r) implies m1.regs[r]
                    == w1.regs[r] by {
                    assert(m.regs[r] == w.regs[r]);
                }
            }
            match e {
                Effect::Nothing => insns_run_close(a, helpers, bs, n, b, j + 1, m1, w1, shown),
                Effect::Show(x) => insns_run_close(a,
                    helpers,
                    bs,
                    n,
                    b,
                    j + 1,
                    m1,
                    w1,
                    shown.push(x),
                ),
                _ => {},
            }
        } else {
            pure_changes_one(a, helpers, m, i);
            assert(close(a.checks, bs, n, m1, w)) by {
                assert forall|r: VReg| #[trigger] live(a.checks, bs, n, r) implies m1.regs[r] == w.regs[r] by {
                    assert(defined_by(i) != Some(r));
                }
            }
            insns_run_close(a, helpers, bs, n, b, j + 1, m1, w, shown);
        }
    } else {
        assert(insns.take(j) =~= insns);
    }
}

/// What comes of instructions does not depend on what has been shown before.
pub proof fn shown_does_not_matter(
    a: Around,
    helpers: Seq<int>,
    m: IrState,
    insns: Seq<InsnModel>,
    j: int,
    x: Seq<Seq<char>>,
    y: Seq<Seq<char>>,
)
    ensures
        insns_meaning(a, helpers, m, insns, j, x).0 == insns_meaning(a, helpers, m, insns, j, y).0,
        insns_meaning(a, helpers, m, insns, j, x).1 == insns_meaning(a, helpers, m, insns, j, y).1,
    decreases insns.len() - j,
{
    if 0 <= j < insns.len() {
        let (e, m1) = insn_meaning(a, helpers, m, insns[j]);
        match e {
            Effect::Nothing => shown_does_not_matter(a, helpers, m1, insns, j + 1, x, y),
            Effect::Show(t) => shown_does_not_matter(
                a,
                helpers,
                m1,
                insns,
                j + 1,
                x.push(t),
                y.push(t),
            ),
            _ => {},
        }
    }
}

proof fn moves_keep_close(
    checks: bool,
    bs: Seq<BlockModel>,
    n: int,
    b: int,
    k: int,
    count: int,
    m: IrState,
    w: IrState,
)
    requires
        uses_below(bs, n),
        0 <= b < bs.len(),
        0 <= k < bs[b].moves.len(),
        0 <= count <= bs[b].moves[k].1.len(),
        close(checks, bs, n, m, w),
    ensures
        close(checks, bs, n, moved(m, bs[b].moves[k].1, count), moved(w, bs[b].moves[k].1, count)),
    decreases count,
{
    if count > 0 {
        moves_keep_close(checks, bs, n, b, k, count - 1, m, w);
        let v = bs[b].moves[k].1[count - 1].1;
        assert(block_needs(checks, bs[b], v));
        assert(is_root(checks, bs, v));
        root_is_live(checks, bs, n, v);
    }
}

proof fn edge_keeps_close(
    checks: bool,
    bs: Seq<BlockModel>,
    n: int,
    b: int,
    succ: usize,
    i: int,
    m: IrState,
    w: IrState,
)
    requires
        uses_below(bs, n),
        0 <= b < bs.len(),
        0 <= i,
        close(checks, bs, n, m, w),
    ensures
        ({
            let mine = moves_to(bs[b].moves, succ, i);
            close(checks, bs, n, moved(m, mine, mine.len() as int), moved(w, mine, mine.len() as int))
        }),
    decreases bs[b].moves.len() - i,
{
    if i < bs[b].moves.len() {
        if bs[b].moves[i].0 == succ {
            moves_keep_close(checks, bs, n, b, i, bs[b].moves[i].1.len() as int, m, w);
        } else {
            edge_keeps_close(checks, bs, n, b, succ, i + 1, m, w);
        }
    }
}

proof fn exits_are_close(checks: bool, bs: Seq<BlockModel>, n: int, b: int, m: IrState, w: IrState)
    requires
        uses_below(bs, n),
        edges_lead_inside(bs),
        0 <= b < bs.len(),
        close(checks, bs, n, m, w),
    ensures
        match term_meaning(m, bs[b].term, bs[b].moves, bs[b].succs) {
            Exit::Goto(c, x) => term_meaning(w, bs[b].term, bs[b].moves, bs[b].succs)
                matches Exit::Goto(d, y) && d == c && 0 <= c < bs.len() && close(checks, bs, n, x, y),
            other => term_meaning(w, bs[b].term, bs[b].moves, bs[b].succs) == other,
        },
{
    assert forall|v: VReg| #[trigger] term_uses(bs[b].term, v) implies m.regs[v] == w.regs[v] by {
        assert(block_needs(checks, bs[b], v));
        assert(is_root(checks, bs, v));
        root_is_live(checks, bs, n, v);
    }
    match bs[b].term {
        Term::Ret(v) => {
            assert(term_uses(bs[b].term, v));
        },
        Term::Br(t) => edge_keeps_close(checks, bs, n, b, t, 0, m, w),
        Term::BrTrue(v, t) => {
            assert(term_uses(bs[b].term, v));
            edge_keeps_close(checks, bs, n, b, t, 0, m, w);
            edge_keeps_close(checks, bs, n, b, fall_or(bs[b].succs, t), 0, m, w);
        },
        Term::BrFalse(v, t) => {
            assert(term_uses(bs[b].term, v));
            edge_keeps_close(checks, bs, n, b, t, 0, m, w);
            edge_keeps_close(checks, bs, n, b, fall_or(bs[b].succs, t), 0, m, w);
        },
        _ => {},
    }
}

proof fn sweep_runs_close(
    a: Around,
    code: Blocks,
    n: int,
    b: int,
    m: IrState,
    w: IrState,
    shown: Seq<Seq<char>>,
    fuel: nat,
)
    requires
        uses_below(code.blocks, n),
        edges_lead_inside(code.blocks),
        0 <= b < code.blocks.len(),
        close(a.checks, code.blocks, n, m, w),
        calm(a, code, b, m, fuel),
    ensures
        executed(a, (Blocks { blocks: swept(a.checks, code.blocks, n), ..code }), b, w, shown, fuel)
            == executed(a, code, b, m, shown, fuel),
        calm(a, (Blocks { blocks: swept(a.checks, code.blocks, n), ..code }), b, w, fuel),
    decreases fuel,
{
    if fuel > 0 {
        let bs = code.blocks;
        let new = Blocks { blocks: swept(a.checks, bs, n), ..code };
        let insns = bs[b].insns;
        let left = kept_insns(a.checks, bs, n, insns);
        assert(new.blocks[b].insns == left);
        assert(insns.take(0) =~= seq![]);
        assert(kept_insns(a.checks, bs, n, insns.take(0)).len() == 0);
        insns_run_close(a, code.helpers, bs, n, b, 0, m, w, shown);
        shown_does_not_matter(a, code.helpers, m, insns, 0, shown, seq![]);
        shown_does_not_matter(a, code.helpers, w, left, 0, shown, seq![]);
        let (e, m1, out) = insns_meaning(a, code.helpers, m, insns, 0, shown);
        let (d, w1, told) = insns_meaning(a, code.helpers, w, left, 0, shown);
        if e is Nothing {
            exits_are_close(a.checks, bs, n, b, m1, w1);
            if let Exit::Goto(c, x) = term_meaning(m1, bs[b].term, bs[b].moves, bs[b].succs) {
                let y = term_meaning(w1, bs[b].term, bs[b].moves, bs[b].succs)->Goto_1;
                sweep_runs_close(a, code, n, c, x, y, out, (fuel - 1) as nat);
            }
        }
    }
}

proof fn kept_were_there(checks: bool, bs: Seq<BlockModel>, n: int, insns: Seq<InsnModel>)
    ensures
        forall|k: int|
            0 <= k < kept_insns(checks, bs, n, insns).len() ==> insns.contains(
                #[trigger] kept_insns(checks, bs, n, insns)[k],
            ),
    decreases insns.len(),
{
    if insns.len() > 0 {
        let shorter = insns.drop_last();
        kept_were_there(checks, bs, n, shorter);
        assert forall|k: int| 0 <= k < kept_insns(checks, bs, n, insns).len() implies insns.contains(
            #[trigger] kept_insns(checks, bs, n, insns)[k],
        ) by {
            let i = kept_insns(checks, bs, n, insns)[k];
            if k < kept_insns(checks, bs, n, shorter).len() {
                assert(i == kept_insns(checks, bs, n, shorter)[k]);
                let l = choose|l: int| 0 <= l < shorter.len() && shorter[l] == i;
                assert(insns[l] == i);
            } else {
                assert(insns[insns.len() - 1] == i);
            }
        }
    }
}

proof fn sweeping_keeps_bounds(checks: bool, bs: Seq<BlockModel>, n: int)
    requires
        uses_below(bs, n),
        edges_lead_inside(bs),
    ensures
        uses_below(swept(checks, bs, n), n),
        edges_lead_inside(swept(checks, bs, n)),
{
    let new = swept(checks, bs, n);
    assert forall|b: int, j: int, k: int|
        0 <= b < new.len() && 0 <= j < new[b].insns.len() && 0 <= k < used_by(
            new[b].insns[j],
        ).len() implies (#[trigger] used_by(new[b].insns[j])[k]) < n by {
        kept_were_there(checks, bs, n, bs[b].insns);
        let i = new[b].insns[j];
        assert(bs[b].insns.contains(kept_insns(checks, bs, n, bs[b].insns)[j]));
        let l = choose|l: int| 0 <= l < bs[b].insns.len() && bs[b].insns[l] == i;
        assert(used_by(bs[b].insns[l])[k] < n);
    }
    assert forall|b: int, v: VReg| 0 <= b < new.len() && #[trigger] term_uses(new[b].term, v) implies v
        < n by {
        assert(term_uses(bs[b].term, v));
    }
    assert forall|b: int, k: int, l: int|
        0 <= b < new.len() && 0 <= k < new[b].moves.len() && 0 <= l
            < new[b].moves[k].1.len() implies (#[trigger] new[b].moves[k].1[l]).1 < n by {
        assert(bs[b].moves[k].1[l].1 < n);
    }
    assert forall|b: int| 0 <= b < new.len() implies match (#[trigger] new[b]).term {
        Term::Br(t) => t < new.len(),
        Term::BrTrue(_, t) => t < new.len() && fall_or(new[b].succs, t) < new.len(),
        Term::BrFalse(_, t) => t < new.len() && fall_or(new[b].succs, t) < new.len(),
        _ => true,
    } by {
        assert(new[b].term == bs[b].term);
        assert(new[b].succs == bs[b].succs);
    }
}

/// The removal of dead code preserves what a method does, where no instruction
/// that only computes fails in its run.
pub proof fn sweeping_law(
    a: Around,
    code: Blocks,
    n: int,
    b: int,
    m: IrState,
    shown: Seq<Seq<char>>,
    fuel: nat,
    rounds: nat,
)
    requires
        uses_below(code.blocks, n),
        edges_lead_inside(code.blocks),
        0 <= b < code.blocks.len(),
        calm(a, code, b, m, fuel),
    ensures
        executed(
            a,
            (Blocks { blocks: swept_rounds(a.checks, code.blocks, n, rounds), ..code }),
            b,
            m,
            shown,
            fuel,
        ) == executed(a, code, b, m, shown, fuel),
    decreases rounds,
{
    let bs = code.blocks;
    if rounds == 0 || swept(a.checks, bs, n) == bs {
        assert(Blocks { blocks: bs, ..code } == code);
    } else {
        let new = Blocks { blocks: swept(a.checks, bs, n), ..code };
        sweep_runs_close(a, code, n, b, m, m, shown, fuel);
        sweeping_keeps_bounds(a.checks, bs, n);
        sweeping_law(a, new, n, b, m, shown, fuel, (rounds - 1) as nat);
    }
}

} // verus!
