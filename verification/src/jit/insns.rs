//! The code of single instructions and of lists of moves does what they mean.

use crate::jit::assembler::{Gpr, Xmm};
use crate::jit::code::{bind_of, well_labelled, Code};
use crate::jit::codegen::insn_code;
use crate::jit::frame::{home_in, layout_ok, Cx};
use crate::jit::inline::{
    float_compare_goes, int_bin_goes, int_compare_goes, logic_goes, tag_compare_goes,
};
use crate::jit::ir::{defined_by, used_by, BinOp, Insn, InsnModel, KType, VReg};
use crate::jit::meaning::Cpu;
use crate::jit::plain::{
    const_goes, float_bin_goes, float_neg_goes, int_neg_goes, load_local_goes, locals_held,
    narrow_goes, not_goes, only_keeps, only_keeps_locals, store_local_goes, to_float_goes,
    words_keep, words_written,
};
use crate::jit::processor::{frame_at, holds, keeps_value, leads, only, placed, sound_home, stored};
use crate::jit::regalloc::Home;
use crate::jit::select::OVERFLOW_LABEL;
use crate::jit::simulate::{insn_meaning, with_reg, Around, IrState};
use crate::jit::typed::{in_place, of_type, operands_fit};
use crate::vm::value::Value;
use crate::vm::world::{Effect, Fault};
use vstd::prelude::*;

verus! {

/// Every register has a home in which the values of its type can be kept.
pub open spec fn homes_fit(cx: Cx) -> bool {
    &&& layout_ok(cx.lay)
    &&& forall|v: VReg|
        v < cx.types.len() ==> match #[trigger] home_in(cx, v) {
            Some(Home::Slot(_)) => true,
            Some(Home::Gpr(g)) => keeps_value(g) && (cx.types[v as int] == KType::Int
                || cx.types[v as int] == KType::Bool || cx.types[v as int] == KType::Char),
            Some(Home::Xmm(x)) => 0 < x.0 < 16 && cx.types[v as int] == KType::Float,
            None => false,
        }
}

/// The processor and the intermediate form are at the same point: the locals are in the
/// frame, and the registers in `live` are in their homes.
pub open spec fn abreast(cx: Cx, m: Cpu, ir: IrState, live: Set<VReg>) -> bool {
    &&& m.g.len() == 16
    &&& m.x.len() == 16
    &&& ir.locals.len() == cx.lay.locals
    &&& ir.locals.len() == cx.local_types.len()
    &&& locals_held(m, ir.locals)
    &&& forall|v: VReg| live.contains(v) ==> #[trigger] holds(m, cx, v, ir.regs[v])
}

/// The home of a register is none of the homes of the others.
pub open spec fn apart(cx: Cx, v: VReg, others: Set<VReg>) -> bool {
    forall|u: VReg|
        others.contains(u) && u != v ==> #[trigger] home_in(cx, u) != home_in(cx, v)
}

/// The values of the locals and of the result of an instruction are of their types.
pub open spec fn results_fit(a: Around, helpers: Seq<int>, cx: Cx, ir: IrState, i: InsnModel) -> bool {
    let (e, ir1) = insn_meaning(a, helpers, ir, i);
    &&& defined_by(i) matches Some(d) ==> d < cx.types.len() && (e is Nothing ==> of_type(
        cx.types[d as int],
        ir1.regs[d],
    ))
    &&& i matches InsnModel::Plain(Insn::LdLocal { idx, .. }) ==> of_type(
        cx.local_types[idx as int],
        ir.locals[idx as int],
    )
    &&& i matches InsnModel::Plain(Insn::StLocal { idx, src }) ==> of_type(
        cx.local_types[idx as int],
        ir.regs[src],
    )
}

proof fn one_kept(cx: Cx, m: Cpu, x: Cpu, dst: VReg, val: Value, v: VReg, held: Value)
    requires
        layout_ok(cx.lay),
        stored(cx, m, x, dst, val),
        holds(m, cx, v, held),
        home_in(cx, v) != home_in(cx, dst),
    ensures
        holds(x, cx, v, held),
{
    only_keeps(cx, m, x, Some(dst), v, held);
}

/// A value that is set keeps the processor abreast.
pub proof fn set_keeps(cx: Cx, m: Cpu, x: Cpu, ir: IrState, live: Set<VReg>, dst: VReg, val: Value)
    requires
        homes_fit(cx),
        abreast(cx, m, ir, live),
        stored(cx, m, x, dst, val),
        apart(cx, dst, live),
    ensures
        abreast(cx, x, with_reg(ir, dst, val), live.insert(dst)),
{
    only_keeps_locals(cx, m, x, Some(dst), ir.locals);
    let ir1 = with_reg(ir, dst, val);
    assert forall|v: VReg| live.insert(dst).contains(v) implies #[trigger] holds(x, cx, v, ir1.regs[v]) by {
        if v != dst {
            assert(live.contains(v));
            one_kept(cx, m, x, dst, val, v, ir.regs[v]);
        }
    }
}

/// A result that is set keeps the processor abreast as far as it is needed behind it.
proof fn result_keeps(
    cx: Cx,
    m: Cpu,
    x: Cpu,
    ir: IrState,
    live: Set<VReg>,
    after: Set<VReg>,
    dst: VReg,
    val: Value,
)
    requires
        homes_fit(cx),
        abreast(cx, m, ir, live),
        stored(cx, m, x, dst, val),
        apart(cx, dst, after),
        forall|v: VReg| #[trigger] after.contains(v) ==> live.contains(v) || v == dst,
    ensures
        abreast(cx, x, with_reg(ir, dst, val), after),
        x.g[13] == m.g[13],
{
    only_keeps_locals(cx, m, x, Some(dst), ir.locals);
    let ir1 = with_reg(ir, dst, val);
    assert forall|v: VReg| after.contains(v) implies #[trigger] holds(x, cx, v, ir1.regs[v]) by {
        if v != dst {
            assert(live.contains(v));
            one_kept(cx, m, x, dst, val, v, ir.regs[v]);
        }
    }
}

/// A local that is written keeps the processor abreast.
proof fn local_keeps(cx: Cx, m: Cpu, x: Cpu, ir: IrState, live: Set<VReg>, idx: u16, val: Value)
    requires
        homes_fit(cx),
        abreast(cx, m, ir, live),
        idx < ir.locals.len(),
        words_written(m, x, idx * 16, val),
    ensures
        abreast(cx, x, (IrState { locals: ir.locals.update(idx as int, val), ..ir }), live),
{
    let after = ir.locals.update(idx as int, val);
    assert forall|v: VReg| live.contains(v) implies #[trigger] holds(x, cx, v, ir.regs[v]) by {
        assert(holds(m, cx, v, ir.regs[v]));
        words_keep(cx, m, x, idx * 16, val, v, ir.regs[v]);
    }
    assert(x.g[13] == m.g[13]);
    assert forall|i: int|
        #![trigger after[i]]
        0 <= i < after.len() implies x.mem[frame_at(x, i * 16)] == crate::jit::value::parts_of(after[i]).0
        && x.mem[frame_at(x, i * 16 + 8)] == crate::jit::value::parts_of(after[i]).1 by {
        let old = ir.locals[i];
        if i != idx {
            assert(x.mem[frame_at(m, i * 16)] == m.mem[frame_at(m, i * 16)]);
            assert(x.mem[frame_at(m, i * 16 + 8)] == m.mem[frame_at(m, i * 16 + 8)]);
        }
    }
}

/// What the code of an instruction must be like to be followed.
pub open spec fn at_insn(a: Around, cs: Seq<Code>, p: int, cx: Cx, i: InsnModel, n: int) -> bool {
    &&& homes_fit(cx)
    &&& cx.checks == a.checks
    &&& well_labelled(cs)
    &&& 0 <= n <= usize::MAX - 8
    &&& in_place(cx.types, cx.checks, i)
    &&& insn_code(cx, i, n) is Ok
    &&& placed(cs, p, insn_code(cx, i, n)->Ok_0)
    &&& forall|k: int| 0 <= k < used_by(i).len() ==> (#[trigger] used_by(i)[k]) < cx.types.len()
}

/// The code of an operation on two operands.
proof fn bin_goes(
    a: Around,
    helpers: Seq<int>,
    cs: Seq<Code>,
    p: int,
    cx: Cx,
    dst: VReg,
    op: BinOp,
    x: VReg,
    y: VReg,
    n: int,
    m: Cpu,
    ir: IrState,
) -> (r: Cpu)
    requires
        at_insn(a, cs, p, cx, InsnModel::Plain(Insn::Bin { dst, op, a: x, b: y }), n),
        operands_fit(cx.types, ir, InsnModel::Plain(Insn::Bin { dst, op, a: x, b: y })),
        results_fit(a, helpers, cx, ir, InsnModel::Plain(Insn::Bin { dst, op, a: x, b: y })),
        m.g.len() == 16,
        m.x.len() == 16,
        holds(m, cx, x, ir.regs[x]),
        holds(m, cx, y, ir.regs[y]),
    ensures
        ({
            let i = InsnModel::Plain(Insn::Bin { dst, op, a: x, b: y });
            let (e, ir1) = insn_meaning(a, helpers, ir, i);
            let len = insn_code(cx, i, n)->Ok_0.len();
            &&& e is Nothing ==> ir1 == with_reg(ir, dst, ir1.regs[dst]) && leads(
                a.world,
                cs,
                p,
                m,
                p + len,
                r,
            ) && stored(cx, m, r, dst, ir1.regs[dst])
            &&& e == Effect::Failed(Fault::Overflow) ==> leads(
                a.world,
                cs,
                p,
                m,
                bind_of(cs, OVERFLOW_LABEL, 0),
                r,
            ) && only(cx, m, r, None)
        }),
{
    let i = InsnModel::Plain(Insn::Bin { dst, op, a: x, b: y });
    let w = a.world;
    let (e, ir1) = insn_meaning(a, helpers, ir, i);
    assert(used_by(i)[0] == x && used_by(i)[1] == y);
    assert(home_in(cx, dst) is Some);
    let (u, v) = (ir.regs[x], ir.regs[y]);
    match cx.types[x as int] {
        KType::Int => {
            if op is Add || op is Sub || op is Mul {
                assert forall|k: i64| #[trigger] sound_home(cx, dst, Value::Int(k)) by {}
                int_bin_goes(w, cs, p, cx, dst, op, x, y, m, u->Int_0, v->Int_0)
            } else {
                int_compare_goes(w, cs, p, cx, dst, op, x, y, m, u->Int_0, v->Int_0)
            }
        },
        KType::Float => {
            if op is Add || op is Sub || op is Mul {
                if e is Nothing {
                    let f = ir1.regs[dst]->Float_0;
                    float_bin_goes(w, cs, p, cx, dst, op, x, y, m, u->Float_0, v->Float_0, f)
                } else {
                    m
                }
            } else {
                float_compare_goes(w, cs, p, cx, dst, op, x, y, m, u->Float_0, v->Float_0)
            }
        },
        _ => {
            if op is And || op is Or {
                assert forall|t: bool| #[trigger] sound_home(cx, dst, Value::Bool(t)) by {}
                logic_goes(w, cs, p, cx, dst, op, x, y, m, u->Bool_0, v->Bool_0)
            } else {
                tag_compare_goes(w, cs, p, cx, dst, x, y, m, u, v)
            }
        },
    }
}

/// The code of an operation on one operand, and of a conversion.
proof fn one_operand_goes(
    a: Around,
    helpers: Seq<int>,
    cs: Seq<Code>,
    p: int,
    cx: Cx,
    i: InsnModel,
    n: int,
    m: Cpu,
    ir: IrState,
) -> (r: Cpu)
    requires
        i matches InsnModel::Plain(j) && (j is Un || j is Conv),
        at_insn(a, cs, p, cx, i, n),
        operands_fit(cx.types, ir, i),
        results_fit(a, helpers, cx, ir, i),
        m.g.len() == 16,
        m.x.len() == 16,
        holds(m, cx, used_by(i)[0], ir.regs[used_by(i)[0]]),
    ensures
        ({
            let dst = defined_by(i)->Some_0;
            let (e, ir1) = insn_meaning(a, helpers, ir, i);
            let len = insn_code(cx, i, n)->Ok_0.len();
            &&& e is Nothing ==> ir1 == with_reg(ir, dst, ir1.regs[dst]) && leads(
                a.world,
                cs,
                p,
                m,
                p + len,
                r,
            ) && stored(cx, m, r, dst, ir1.regs[dst])
            &&& e == Effect::Failed(Fault::Overflow) ==> leads(
                a.world,
                cs,
                p,
                m,
                bind_of(cs, OVERFLOW_LABEL, 0),
                r,
            ) && only(cx, m, r, None)
        }),
{
    let w = a.world;
    let dst = defined_by(i)->Some_0;
    let (e, ir1) = insn_meaning(a, helpers, ir, i);
    let src = used_by(i)[0];
    let u = ir.regs[src];
    assert(src < cx.types.len());
    assert(home_in(cx, dst) is Some);
    assert(of_type(cx.types[src as int], u));
    match i {
        InsnModel::Plain(Insn::Un { op, .. }) => {
            if op is Neg {
                if cx.types[src as int] == KType::Int {
                    assert forall|k: i64| #[trigger] sound_home(cx, dst, Value::Int(k)) by {}
                    int_neg_goes(w, cs, p, cx, dst, src, n, m, u->Int_0)
                } else {
                    float_neg_goes(w, cs, p, cx, dst, src, n, m, u->Float_0)
                }
            } else {
                not_goes(w, cs, p, cx, dst, src, n, m, u)
            }
        },
        InsnModel::Plain(Insn::Conv { to, .. }) => {
            if to.to_int() {
                assert(cx.types[src as int] == KType::Int);
                assert(sound_home(
                    cx,
                    dst,
                    Value::Int(
                        crate::vm::numeric::narrowed(crate::jit::simulate::conv_type(to), u->Int_0),
                    ),
                ));
                narrow_goes(w, cs, p, cx, dst, to, src, m, u->Int_0)
            } else if e is Nothing {
                to_float_goes(w, cs, p, cx, dst, to, src, m, u, ir1.regs[dst]->Float_0)
            } else {
                m
            }
        },
        _ => m,
    }
}

/// The code of an instruction that computes in place does what it means: where it gives
/// a value or writes a local, the processor comes to the end of the code and is abreast
/// of the intermediate form again; where it overflows, it comes to the report.
pub proof fn plain_insn_law(
    a: Around,
    helpers: Seq<int>,
    cs: Seq<Code>,
    p: int,
    cx: Cx,
    i: InsnModel,
    n: int,
    m: Cpu,
    ir: IrState,
    live: Set<VReg>,
    after: Set<VReg>,
) -> (r: Cpu)
    requires
        i is Plain,
        !(i->Plain_0 is Helper),
        at_insn(a, cs, p, cx, i, n),
        operands_fit(cx.types, ir, i),
        results_fit(a, helpers, cx, ir, i),
        abreast(cx, m, ir, live),
        forall|k: int| 0 <= k < used_by(i).len() ==> live.contains(#[trigger] used_by(i)[k]),
        forall|v: VReg| #[trigger] after.contains(v) ==> live.contains(v) || defined_by(i) == Some(v),
        defined_by(i) matches Some(d) ==> apart(cx, d, after),
    ensures
        ({
            let (e, ir1) = insn_meaning(a, helpers, ir, i);
            let len = insn_code(cx, i, n)->Ok_0.len();
            &&& e is Nothing ==> leads(a.world, cs, p, m, p + len, r) && abreast(cx, r, ir1, after)
                && r.g[13] == m.g[13]
            &&& e == Effect::Failed(Fault::Overflow) ==> leads(
                a.world,
                cs,
                p,
                m,
                bind_of(cs, OVERFLOW_LABEL, 0),
                r,
            ) && only(cx, m, r, None)
        }),
{
    let w = a.world;
    let (e, ir1) = insn_meaning(a, helpers, ir, i);
    if used_by(i).len() > 0 {
        assert(live.contains(used_by(i)[0]));
        assert(used_by(i)[0] < cx.types.len());
        assert(of_type(cx.types[used_by(i)[0] as int], ir.regs[used_by(i)[0]]));
    }
    if used_by(i).len() > 1 {
        assert(live.contains(used_by(i)[1]));
    }
    if let Some(d) = defined_by(i) {
        assert(home_in(cx, d) is Some);
    }
    let r = match i->Plain_0 {
        Insn::Bin { dst, op, a: x, b: y } => bin_goes(
            a,
            helpers,
            cs,
            p,
            cx,
            dst,
            op,
            x,
            y,
            n,
            m,
            ir,
        ),
        Insn::Un { .. } | Insn::Conv { .. } => one_operand_goes(
            a,
            helpers,
            cs,
            p,
            cx,
            i,
            n,
            m,
            ir,
        ),
        Insn::LdLocal { dst, idx } => {
            let v = ir.locals[idx as int];
            load_local_goes(w, cs, p, cx, dst, idx, m, v)
        },
        Insn::StLocal { idx, src } => store_local_goes(w, cs, p, cx, idx, src, m, ir.regs[src]),
        j => const_goes(w, cs, p, cx, j, n, m, ir1.regs[defined_by(i)->Some_0]),
    };
    if e is Nothing {
        match defined_by(i) {
            Some(d) => {
                result_keeps(cx, m, r, ir, live, after, d, ir1.regs[d]);
                assert(ir1 == with_reg(ir, d, ir1.regs[d]));
            },
            None => {
                if let Insn::StLocal { idx, src } = i->Plain_0 {
                    local_keeps(cx, m, r, ir, live, idx, ir.regs[src]);
                    assert(r.g[13] == m.g[13]);
                }
            },
        }
    }
    r
}

} // verus!
