//! The code of the instructions of a block does what they mean, one after the other.

use crate::jit::code::{bind_of, well_labelled, Code};
use crate::jit::codegen::{insn_code, insns_upto, LABEL_LIMIT};
use crate::jit::frame::Cx;
use crate::jit::insns::{abreast, apart, homes_fit, plain_insn_law, results_fit};
use crate::jit::ir::{defined_by, used_by, BlockModel, InsnModel, VReg};
use crate::jit::liveness::used_at_end;
use crate::jit::meaning::Cpu;
use crate::jit::processor::{hops, joined, leads, parted, placed};
use crate::jit::select::OVERFLOW_LABEL;
use crate::jit::simulate::{insn_meaning, Around, IrState};
use crate::jit::typed::{in_place, operands_fit};
use crate::vm::world::{Effect, Fault};
use vstd::prelude::*;

verus! {

/// A block needs a register in front of instruction `j`.
pub open spec fn needed(b: BlockModel, v: VReg, j: int) -> bool
    decreases b.insns.len() - j,
{
    if j < 0 || j >= b.insns.len() {
        used_at_end(b, v)
    } else {
        used_by(b.insns[j]).contains(v) || (needed(b, v, j + 1) && defined_by(b.insns[j]) != Some(v))
    }
}

/// The registers that a block needs in front of instruction `j`.
pub open spec fn needs(b: BlockModel, j: int) -> Set<VReg> {
    Set::new(|v: VReg| needed(b, v, j))
}

/// Where the code of instruction `j` starts in the code of its block.
pub open spec fn place(cx: Cx, b: BlockModel, j: int, n: int) -> int {
    insns_upto(cx, b.insns, j, n)->Ok_0.0.len() as int
}

/// The first free label in front of instruction `j`.
pub open spec fn label_at(cx: Cx, b: BlockModel, j: int, n: int) -> int {
    insns_upto(cx, b.insns, j, n)->Ok_0.1
}

/// The code of every instruction stands at its place.
pub proof fn insn_stands(cs: Seq<Code>, p: int, cx: Cx, b: BlockModel, k: int, n: int, j: int)
    requires
        0 <= j < k <= b.insns.len(),
        0 <= n,
        insns_upto(cx, b.insns, k, n) is Ok,
        placed(cs, p, insns_upto(cx, b.insns, k, n)->Ok_0.0),
    ensures
        insns_upto(cx, b.insns, j, n) is Ok,
        n <= label_at(cx, b, j, n) <= LABEL_LIMIT,
        insn_code(cx, b.insns[j], label_at(cx, b, j, n)) is Ok,
        placed(
            cs,
            p + place(cx, b, j, n),
            insn_code(cx, b.insns[j], label_at(cx, b, j, n))->Ok_0,
        ),
        place(cx, b, j + 1, n) == place(cx, b, j, n) + insn_code(
            cx,
            b.insns[j],
            label_at(cx, b, j, n),
        )->Ok_0.len(),
    decreases k,
{
    let (front, l) = insns_upto(cx, b.insns, k - 1, n)->Ok_0;
    let last = insn_code(cx, b.insns[k - 1], l)->Ok_0;
    parted(cs, p, front, last);
    labels_grow(cx, b.insns, k - 1, n);
    if j < k - 1 {
        insn_stands(cs, p, cx, b, k - 1, n, j);
    }
}

proof fn labels_grow(cx: Cx, insns: Seq<InsnModel>, k: int, n: int)
    requires
        0 <= k <= insns.len(),
        insns_upto(cx, insns, k, n) is Ok,
    ensures
        n <= insns_upto(cx, insns, k, n)->Ok_0.1,
    decreases k,
{
    if k > 0 {
        labels_grow(cx, insns, k - 1, n);
    }
}

/// The instructions of a block are computed in place on operands that have a type, and
/// what an instruction sets has another home than what is needed behind it.
pub open spec fn block_sound(a: Around, cx: Cx, b: BlockModel) -> bool {
    &&& homes_fit(cx)
    &&& cx.checks == a.checks
    &&& forall|j: int|
        #![trigger b.insns[j]]
        0 <= j < b.insns.len() ==> {
            let i = b.insns[j];
            &&& in_place(cx.types, cx.checks, i)
            &&& i is Plain ==> !(i->Plain_0 is Helper)
            &&& forall|k: int| 0 <= k < used_by(i).len() ==> (#[trigger] used_by(i)[k]) < cx.types.len()
            &&& defined_by(i) matches Some(d) ==> apart(cx, d, needs(b, j + 1))
        }
}

/// In a run of the instructions from `j` to `k`, operands and results are of their types.
pub open spec fn fitting(
    a: Around,
    helpers: Seq<int>,
    cx: Cx,
    ir: IrState,
    insns: Seq<InsnModel>,
    j: int,
    k: int,
) -> bool
    decreases k - j,
{
    j < k ==> {
        let (e, ir1) = insn_meaning(a, helpers, ir, insns[j]);
        &&& operands_fit(cx.types, ir, insns[j])
        &&& results_fit(a, helpers, cx, ir, insns[j])
        &&& e is Nothing ==> fitting(a, helpers, cx, ir1, insns, j + 1, k)
    }
}

/// What the instructions from `j` to `k` do.
pub open spec fn ran(a: Around, helpers: Seq<int>, ir: IrState, insns: Seq<InsnModel>, j: int, k: int) -> (
    Effect,
    IrState,
)
    decreases k - j,
{
    if j >= k {
        (Effect::Nothing, ir)
    } else {
        let (e, ir1) = insn_meaning(a, helpers, ir, insns[j]);
        if e is Nothing {
            ran(a, helpers, ir1, insns, j + 1, k)
        } else {
            (e, ir1)
        }
    }
}

/// The code of instructions that compute in place does what they mean, one after the
/// other: the processor comes to the place behind them and holds what is needed there,
/// or to the report of an overflow.
pub proof fn stretch_law(
    a: Around,
    helpers: Seq<int>,
    cs: Seq<Code>,
    p: int,
    cx: Cx,
    b: BlockModel,
    n: int,
    j: int,
    k: int,
    m: Cpu,
    ir: IrState,
) -> (r: Cpu)
    requires
        block_sound(a, cx, b),
        well_labelled(cs),
        0 <= j <= k <= b.insns.len(),
        0 <= n,
        forall|i: int| j <= i < k ==> (#[trigger] b.insns[i]) is Plain,
        insns_upto(cx, b.insns, b.insns.len() as int, n) is Ok,
        placed(cs, p, insns_upto(cx, b.insns, b.insns.len() as int, n)->Ok_0.0),
        fitting(a, helpers, cx, ir, b.insns, j, k),
        abreast(cx, m, ir, needs(b, j)),
    ensures
        ({
            let (e, ir1) = ran(a, helpers, ir, b.insns, j, k);
            &&& e is Nothing ==> leads(
                a.world,
                cs,
                p + place(cx, b, j, n),
                m,
                p + place(cx, b, k, n),
                r,
            ) && abreast(cx, r, ir1, needs(b, k)) && r.g[13] == m.g[13]
            &&& e == Effect::Failed(Fault::Overflow) ==> leads(
                a.world,
                cs,
                p + place(cx, b, j, n),
                m,
                bind_of(cs, OVERFLOW_LABEL, 0),
                r,
            ) && r.g[13] == m.g[13]
        }),
    decreases k - j,
{
    reveal(leads);
    let w = a.world;
    let here = p + place(cx, b, j, n);
    if j == k {
        assert(hops(w, cs, here, m, 0) == Some((here, m)));
        m
    } else {
        let i = b.insns[j];
        insn_stands(cs, p, cx, b, b.insns.len() as int, n, j);
        let (e, ir1) = insn_meaning(a, helpers, ir, i);
        let live = needs(b, j);
        let after = needs(b, j + 1);
        assert forall|q: int| 0 <= q < used_by(i).len() implies live.contains(#[trigger] used_by(i)[q]) by {
            assert(used_by(i).contains(used_by(i)[q]));
        }
        let x = plain_insn_law(
            a,
            helpers,
            cs,
            here,
            cx,
            i,
            label_at(cx, b, j, n),
            m,
            ir,
            live,
            after,
        );
        if e is Nothing {
            let r = stretch_law(a, helpers, cs, p, cx, b, n, j + 1, k, x, ir1);
            let (e2, ir2) = ran(a, helpers, ir, b.insns, j, k);
            let next = p + place(cx, b, j + 1, n);
            if e2 is Nothing {
                joined(w, cs, here, m, next, x, p + place(cx, b, k, n), r);
            } else if e2 == Effect::Failed(Fault::Overflow) {
                joined(w, cs, here, m, next, x, bind_of(cs, OVERFLOW_LABEL, 0), r);
            }
            r
        } else {
            x
        }
    }
}

} // verus!
