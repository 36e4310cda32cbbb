//! The code of moves and terminators does what they mean.

use crate::jit::assembler::{Cond, Gpr, Xmm};
use crate::jit::blocks::moved;
use crate::jit::code::{bind_of, well_labelled, Alu, Code};
use crate::jit::codegen::{
    block_label, edge_code, load_native, move_code, moves_to, moves_upto, native, ret_code,
    test_code, EPILOGUE_LABEL, NF_RESULT,
};
use crate::jit::decide::digit;
use crate::jit::regs::R10;
use crate::jit::frame::{
    layout_ok,
    home_in, load_float, load_int, load_tag, marshal, marshal_tag, next_word, store_float,
    store_int, store_tag, type_in, Cx,
};
use crate::jit::insns::{abreast, apart, homes_fit, set_keeps};
use crate::jit::ir::{BlockModel, KType, VReg};
use crate::jit::meaning::{with_g, with_x, Cpu};
use crate::jit::plain::{marshal_goes, truth_goes};
use crate::jit::processor::{
    finish_float, finish_int, finish_tag, g_is_scratch, only_then, scratch_is_only, simple, simply,
    simply_goes, stays, x_is_scratch, act, frame_at, holds, hop, hops, joined, leads,
    load_float_goes, load_int_goes, load_tag_goes, only, only_scratch, parted, placed, slot_words,
    stored,
};
use crate::jit::regs::{RAX, RCX};
use crate::jit::select::{truth, truth_labels};
use crate::jit::simulate::{with_reg, IrState};
use crate::jit::typed::of_type;
use crate::jit::value::{int_bits, parts_of};
use crate::jit::xmms::XMM0;
use crate::vm::value::{truthy, Value};
use crate::vm::world::Answers;
use vstd::prelude::*;

verus! {

proof fn move_int(
    w: Answers,
    cs: Seq<Code>,
    p: int,
    cx: Cx,
    param: VReg,
    src: VReg,
    m: Cpu,
    val: Value,
) -> (r: Cpu)
    requires
        m.g.len() == 16,
        m.x.len() == 16,
        homes_fit(cx),
        param < cx.types.len(),
        of_type(cx.types[param as int], val),
        cx.types[param as int] == KType::Int,
        holds(m, cx, src, val),
        move_code(cx, param, src) is Ok,
        placed(cs, p, move_code(cx, param, src)->Ok_0),
    ensures
        leads(w, cs, p, m, p + move_code(cx, param, src)->Ok_0.len(), r),
        stored(cx, m, r, param, val),
{
    assert(home_in(cx, param) is Some);
    let c1 = load_int(cx, src)->Ok_0;
    let c2 = store_int(cx, param)->Ok_0;
    parted(cs, p, c1, c2);
    load_int_goes(w, cs, p, cx, src, m, val->Int_0);
    let m1 = with_g(m, Gpr(RAX), int_bits(val->Int_0));
    g_is_scratch(m, RAX, int_bits(val->Int_0));
    scratch_is_only(cx, m, m1);
    finish_int(w, cs, p, p + c1.len(), cx, param, m, m1, val->Int_0)
}

proof fn move_packed(
    w: Answers,
    cs: Seq<Code>,
    p: int,
    cx: Cx,
    param: VReg,
    src: VReg,
    m: Cpu,
    val: Value,
) -> (r: Cpu)
    requires
        m.g.len() == 16,
        m.x.len() == 16,
        homes_fit(cx),
        param < cx.types.len(),
        of_type(cx.types[param as int], val),
        cx.types[param as int] == KType::Bool || cx.types[param as int] == KType::Char,
        holds(m, cx, src, val),
        move_code(cx, param, src) is Ok,
        placed(cs, p, move_code(cx, param, src)->Ok_0),
    ensures
        leads(w, cs, p, m, p + move_code(cx, param, src)->Ok_0.len(), r),
        stored(cx, m, r, param, val),
{
    assert(home_in(cx, param) is Some);
    let c1 = load_tag(cx, src)->Ok_0;
    let c2 = store_tag(cx, param)->Ok_0;
    parted(cs, p, c1, c2);
    load_tag_goes(w, cs, p, cx, src, m, val);
    let m1 = with_g(m, Gpr(RAX), parts_of(val).0);
    g_is_scratch(m, RAX, parts_of(val).0);
    scratch_is_only(cx, m, m1);
    finish_tag(w, cs, p, p + c1.len(), cx, param, m, m1, val)
}

proof fn move_float(
    w: Answers,
    cs: Seq<Code>,
    p: int,
    cx: Cx,
    param: VReg,
    src: VReg,
    m: Cpu,
    val: Value,
) -> (r: Cpu)
    requires
        m.g.len() == 16,
        m.x.len() == 16,
        homes_fit(cx),
        param < cx.types.len(),
        of_type(cx.types[param as int], val),
        cx.types[param as int] == KType::Float,
        holds(m, cx, src, val),
        move_code(cx, param, src) is Ok,
        placed(cs, p, move_code(cx, param, src)->Ok_0),
    ensures
        leads(w, cs, p, m, p + move_code(cx, param, src)->Ok_0.len(), r),
        stored(cx, m, r, param, val),
{
    assert(home_in(cx, param) is Some);
    let c1 = load_float(cx, src)->Ok_0;
    let c2 = store_float(cx, param)->Ok_0;
    parted(cs, p, c1, c2);
    load_float_goes(w, cs, p, cx, src, m, val->Float_0);
    let m1 = with_x(m, Xmm(XMM0), val->Float_0);
    x_is_scratch(m, val->Float_0);
    scratch_is_only(cx, m, m1);
    finish_float(w, cs, p, p + c1.len(), cx, param, m, m1, val->Float_0)
}

/// A value is moved from one home to another.
pub proof fn move_goes(
    w: Answers,
    cs: Seq<Code>,
    p: int,
    cx: Cx,
    param: VReg,
    src: VReg,
    m: Cpu,
    val: Value,
) -> (r: Cpu)
    requires
        m.g.len() == 16,
        m.x.len() == 16,
        homes_fit(cx),
        param < cx.types.len(),
        of_type(cx.types[param as int], val),
        holds(m, cx, src, val),
        move_code(cx, param, src) is Ok,
        placed(cs, p, move_code(cx, param, src)->Ok_0),
    ensures
        leads(w, cs, p, m, p + move_code(cx, param, src)->Ok_0.len(), r),
        stored(cx, m, r, param, val),
{
    match cx.types[param as int] {
        KType::Int => move_int(w, cs, p, cx, param, src, m, val),
        KType::Bool | KType::Char => move_packed(w, cs, p, cx, param, src, m, val),
        KType::Float => move_float(w, cs, p, cx, param, src, m, val),
        KType::Unknown => copy_goes(w, cs, p, cx, param, src, m, val),
    }
}

proof fn copy_goes(
    w: Answers,
    cs: Seq<Code>,
    p: int,
    cx: Cx,
    param: VReg,
    src: VReg,
    m: Cpu,
    val: Value,
) -> (r: Cpu)
    requires
        m.g.len() == 16,
        m.x.len() == 16,
        homes_fit(cx),
        param < cx.types.len(),
        cx.types[param as int] == KType::Unknown,
        holds(m, cx, src, val),
        move_code(cx, param, src) is Ok,
        placed(cs, p, move_code(cx, param, src)->Ok_0),
    ensures
        leads(w, cs, p, m, p + move_code(cx, param, src)->Ok_0.len(), r),
        stored(cx, m, r, param, val),
{
    let frag = move_code(cx, param, src)->Ok_0;
    let d = home_in(cx, param)->Some_0->Slot_0;
    let s = home_in(cx, src)->Some_0->Slot_0;
    slot_words(m, cx, s);
    slot_words(m, cx, d);
    reveal_with_fuel(simply, 5);
    let x1 = simple(m, frag[0])->Some_0;
    assert(simply(frag, 1, m) == Some(x1));
    let x2 = simple(x1, frag[1])->Some_0;
    assert(simply(frag, 2, m) == Some(x2));
    assert(x2.g[0] == parts_of(val).0 && x2.g[1] == parts_of(val).1);
    assert(x2.g[13] == m.g[13] && x2.mem == m.mem);
    let x3 = simple(x2, frag[2])->Some_0;
    assert(simply(frag, 3, m) == Some(x3));
    let x4 = simple(x3, frag[3])->Some_0;
    assert(simply(frag, 4, m) == Some(x4));
    simply_goes(w, cs, p, frag, 4, m);
    x4
}

/// The registers that the first `k` moves set and the others still read.
pub open spec fn in_transit(ms: Seq<(VReg, VReg)>, k: int) -> Set<VReg> {
    Set::new(
        |v: VReg|
            (exists|i: int| 0 <= i < k && i < ms.len() && (#[trigger] ms[i]).0 == v) || (exists|i: int|
                k <= i < ms.len() && (#[trigger] ms[i]).1 == v),
    )
}

/// Moves that can be made one after the other: no move writes into the home of another
/// register that was set before or is still to be read.
pub open spec fn moves_apart(cx: Cx, ms: Seq<(VReg, VReg)>) -> bool {
    forall|k: int|
        0 <= k < ms.len() ==> apart(cx, (#[trigger] ms[k]).0, in_transit(ms, k + 1))
}

/// What moves put into parameters is of their types.
pub open spec fn moves_fit(cx: Cx, ms: Seq<(VReg, VReg)>, ir: IrState) -> bool {
    forall|k: int|
        0 <= k < ms.len() ==> (#[trigger] ms[k]).0 < cx.types.len() && of_type(
            cx.types[ms[k].0 as int],
            moved(ir, ms, k).regs[ms[k].1],
        )
}

proof fn transit_step(cx: Cx, ms: Seq<(VReg, VReg)>, k: int, x: Cpu, r: Cpu, ir: IrState)
    requires
        homes_fit(cx),
        0 < k <= ms.len(),
        moves_apart(cx, ms),
        abreast(cx, x, moved(ir, ms, k - 1), in_transit(ms, k - 1)),
        stored(cx, x, r, ms[k - 1].0, moved(ir, ms, k - 1).regs[ms[k - 1].1]),
    ensures
        abreast(cx, r, moved(ir, ms, k), in_transit(ms, k)),
        r.g[13] == x.g[13],
{
    let (param, src) = ms[k - 1];
    let ir1 = moved(ir, ms, k - 1);
    let val = ir1.regs[src];
    let kept = in_transit(ms, k).remove(param);
    assert forall|v: VReg| kept.contains(v) implies in_transit(ms, k - 1).contains(v) by {
        if exists|i: int| 0 <= i < k && i < ms.len() && (#[trigger] ms[i]).0 == v {
            let i = choose|i: int| 0 <= i < k && i < ms.len() && (#[trigger] ms[i]).0 == v;
            assert(ms[i].0 == v);
        } else {
            let i = choose|i: int| k <= i < ms.len() && (#[trigger] ms[i]).1 == v;
            assert(ms[i].1 == v);
        }
    }
    assert(abreast(cx, x, ir1, kept));
    assert(apart(cx, ms[k - 1].0, in_transit(ms, k - 1 + 1)));
    assert(apart(cx, param, kept));
    set_keeps(cx, x, r, ir1, kept, param, val);
    let ir2 = moved(ir, ms, k);
    assert(ir2 == with_reg(ir1, param, val));
    assert forall|v: VReg| in_transit(ms, k).contains(v) implies #[trigger] holds(
        r,
        cx,
        v,
        ir2.regs[v],
    ) by {
        assert(kept.insert(param).contains(v));
    }
}

proof fn source_held(cx: Cx, ms: Seq<(VReg, VReg)>, k: int, x: Cpu, ir: IrState)
    requires
        0 <= k < ms.len(),
        moves_fit(cx, ms, ir),
        abreast(cx, x, moved(ir, ms, k), in_transit(ms, k)),
    ensures
        ms[k].0 < cx.types.len(),
        of_type(cx.types[ms[k].0 as int], moved(ir, ms, k).regs[ms[k].1]),
        holds(x, cx, ms[k].1, moved(ir, ms, k).regs[ms[k].1]),
{
    assert(in_transit(ms, k).contains(ms[k].1));
}

proof fn moves_end(cx: Cx, ms: Seq<(VReg, VReg)>, k: int)
    requires
        0 < k <= ms.len(),
        moves_upto(cx, ms, k) is Ok,
    ensures
        moves_upto(cx, ms, k - 1) is Ok,
        move_code(cx, ms[k - 1].0, ms[k - 1].1) is Ok,
        moves_upto(cx, ms, k)->Ok_0 == moves_upto(cx, ms, k - 1)->Ok_0 + move_code(
            cx,
            ms[k - 1].0,
            ms[k - 1].1,
        )->Ok_0,
{
}

/// The code of the first moves of an edge does what they mean.
#[verifier::spinoff_prover]
#[verifier::rlimit(30)]
pub proof fn moves_go(
    w: Answers,
    cs: Seq<Code>,
    p: int,
    cx: Cx,
    ms: Seq<(VReg, VReg)>,
    k: int,
    m: Cpu,
    ir: IrState,
) -> (r: Cpu)
    requires
        homes_fit(cx),
        0 <= k <= ms.len(),
        moves_apart(cx, ms),
        moves_fit(cx, ms, ir),
        abreast(cx, m, ir, in_transit(ms, 0)),
        moves_upto(cx, ms, k) is Ok,
        placed(cs, p, moves_upto(cx, ms, k)->Ok_0),
    ensures
        leads(w, cs, p, m, p + moves_upto(cx, ms, k)->Ok_0.len(), r),
        abreast(cx, r, moved(ir, ms, k), in_transit(ms, k)),
        r.g[13] == m.g[13],
    decreases k,
{
    if k == 0 {
        stays(w, cs, p, m);
        m
    } else {
        moves_end(cx, ms, k);
        let front = moves_upto(cx, ms, k - 1)->Ok_0;
        let (param, src) = ms[k - 1];
        let last = move_code(cx, param, src)->Ok_0;
        parted(cs, p, front, last);
        let x = moves_go(w, cs, p, cx, ms, k - 1, m, ir);
        let val = moved(ir, ms, k - 1).regs[src];
        source_held(cx, ms, k - 1, x, ir);
        let r = move_goes(w, cs, p + front.len(), cx, param, src, x, val);
        joined(w, cs, p, m, p + front.len(), x, p + (front + last).len(), r);
        transit_step(cx, ms, k, x, r, ir);
        r
    }
}

/// The code of an edge does what its moves mean.
pub proof fn edge_goes(w: Answers, cs: Seq<Code>, p: int, cx: Cx, b: BlockModel, succ: usize, m: Cpu, ir: IrState) -> (r:
    Cpu)
    requires
        homes_fit(cx),
        moves_apart(cx, moves_to(b.moves, succ, 0)),
        moves_fit(cx, moves_to(b.moves, succ, 0), ir),
        abreast(cx, m, ir, in_transit(moves_to(b.moves, succ, 0), 0)),
        edge_code(cx, b, succ) is Ok,
        placed(cs, p, edge_code(cx, b, succ)->Ok_0),
    ensures
        ({
            let ms = moves_to(b.moves, succ, 0);
            &&& leads(w, cs, p, m, p + edge_code(cx, b, succ)->Ok_0.len(), r)
            &&& abreast(cx, r, moved(ir, ms, ms.len() as int), in_transit(ms, ms.len() as int))
            &&& r.g[13] == m.g[13]
        }),
{
    let ms = moves_to(b.moves, succ, 0);
    moves_go(w, cs, p, cx, ms, ms.len() as int, m, ir)
}

/// A jump leads to its label.
proof fn jump_goes(w: Answers, cs: Seq<Code>, p: int, l: usize, m: Cpu)
    requires
        placed(cs, p, seq![Code::Jmp(l)]),
    ensures
        leads(w, cs, p, m, bind_of(cs, l, 0), m),
{
    reveal(placed);
    reveal(leads);
    assert(cs[p + 0] == seq![Code::Jmp(l)][0]);
    reveal_with_fuel(hops, 2);
    assert(hops(w, cs, p, m, 1) == Some((bind_of(cs, l, 0), m)));
}

/// A branch leads to its target with the parameters of that block set.
pub proof fn br_goes(
    w: Answers,
    cs: Seq<Code>,
    p: int,
    cx: Cx,
    b: BlockModel,
    target: usize,
    m: Cpu,
    ir: IrState,
) -> (r: Cpu)
    requires
        homes_fit(cx),
        moves_apart(cx, moves_to(b.moves, target, 0)),
        moves_fit(cx, moves_to(b.moves, target, 0), ir),
        abreast(cx, m, ir, in_transit(moves_to(b.moves, target, 0), 0)),
        edge_code(cx, b, target) is Ok,
        placed(cs, p, edge_code(cx, b, target)->Ok_0 + seq![Code::Jmp(block_label(target))]),
    ensures
        ({
            let ms = moves_to(b.moves, target, 0);
            &&& leads(w, cs, p, m, bind_of(cs, block_label(target), 0), r)
            &&& abreast(cx, r, moved(ir, ms, ms.len() as int), in_transit(ms, ms.len() as int))
            &&& r.g[13] == m.g[13]
        }),
{
    let c1 = edge_code(cx, b, target)->Ok_0;
    parted(cs, p, c1, seq![Code::Jmp(block_label(target))]);
    let r = edge_goes(w, cs, p, cx, b, target, m, ir);
    jump_goes(w, cs, p + c1.len(), block_label(target), r);
    joined(w, cs, p, m, p + c1.len(), r, bind_of(cs, block_label(target), 0), r);
    r
}

proof fn test_steps(w: Answers, cs: Seq<Code>, q: int, skip_on: Cond, skip: usize, m: Cpu, t: bool) -> (r: Cpu)
    requires
        m.g.len() == 16,
        m.x.len() == 16,
        m.g[0] == digit(t),
        skip_on is Z || skip_on is NZ,
        placed(cs, q, seq![Code::Test(Gpr(RAX), Gpr(RAX)), Code::Jcc(skip_on, skip)]),
    ensures
        t == (skip_on is Z) ==> leads(w, cs, q, m, q + 2, r),
        t != (skip_on is Z) ==> leads(w, cs, q, m, bind_of(cs, skip, 0), r),
        only_scratch(m, r),
{
    reveal(act);
    reveal(placed);
    reveal(leads);
    let c2 = seq![Code::Test(Gpr(RAX), Gpr(RAX)), Code::Jcc(skip_on, skip)];
    let b = m.g[0];
    assert(b & b == b) by (bit_vector);
    let r = act(w, m, c2[0])->Some_0;
    assert(cs[q + 0] == c2[0]);
    assert(cs[q + 1] == c2[1]);
    assert(hop(w, cs, q, m) == Some((q + 1, r)));
    reveal_with_fuel(hops, 3);
    if t == (skip_on is Z) {
        assert(hops(w, cs, q, m, 2) == Some((q + 2, r)));
    } else {
        assert(hops(w, cs, q, m, 2) == Some((bind_of(cs, skip, 0), r)));
    }
    r
}

/// The test of a condition leads behind it, or to the label behind the way to the target.
pub proof fn test_goes(
    w: Answers,
    cs: Seq<Code>,
    p: int,
    cx: Cx,
    cond: VReg,
    skip_on: Cond,
    n: int,
    m: Cpu,
    val: Value,
) -> (r: Cpu)
    requires
        m.g.len() == 16,
        m.x.len() == 16,
        homes_fit(cx),
        well_labelled(cs),
        0 <= n <= usize::MAX - 8,
        skip_on is Z || skip_on is NZ,
        holds(m, cx, cond, val),
        type_in(cx, cond) matches Some(k) && of_type(k, val),
        test_code(cx, cond, skip_on, n) is Ok,
        placed(cs, p, test_code(cx, cond, skip_on, n)->Ok_0),
    ensures
        truthy(val) == (skip_on is Z) ==> leads(
            w,
            cs,
            p,
            m,
            p + test_code(cx, cond, skip_on, n)->Ok_0.len(),
            r,
        ),
        truthy(val) != (skip_on is Z) ==> leads(
            w,
            cs,
            p,
            m,
            bind_of(cs, (n + truth_labels(cx, cond)) as usize, 0),
            r,
        ),
        only(cx, m, r, None),
{
    let skip = (n + truth_labels(cx, cond)) as usize;
    let c1 = truth(cx, cond, n)->Ok_0;
    let c2 = seq![Code::Test(Gpr(RAX), Gpr(RAX)), Code::Jcc(skip_on, skip)];
    parted(cs, p, c1, c2);
    let m1 = truth_goes(w, cs, p, cx, cond, n, m, val);
    let q = p + c1.len();
    let m2 = test_steps(w, cs, q, skip_on, skip, m1, truthy(val));
    scratch_is_only(cx, m1, m2);
    only_then(cx, m, m1, m2, None);
    if truthy(val) == (skip_on is Z) {
        joined(w, cs, p, m, q, m1, p + (c1 + c2).len(), m2);
    } else {
        joined(w, cs, p, m, q, m1, bind_of(cs, skip, 0), m2);
    }
    m2
}

/// The code that hands a value over at the end of a function.
spec fn hand_over(cx: Cx) -> Seq<Code> {
    let mem = marshal_tag(cx.lay, 0);
    seq![
        load_native(cx),
        Code::MovRm(Gpr(RAX), mem),
        Code::MovRm(Gpr(RCX), next_word(mem)),
        Code::MovMr(native(NF_RESULT), Gpr(RAX)),
        Code::MovMr(native((NF_RESULT + 8) as i32), Gpr(RCX)),
        Code::AluRr(Alu::Xor, Gpr(RAX), Gpr(RAX)),
        Code::Jmp(EPILOGUE_LABEL),
    ]
}

proof fn result_goes(w: Answers, cs: Seq<Code>, q: int, cx: Cx, m: Cpu, val: Value, nf: u64) -> (r: Cpu)
    requires
        m.g.len() == 16,
        m.x.len() == 16,
        layout_ok(cx.lay),
        placed(cs, q, hand_over(cx)),
        m.mem[frame_at(m, cx.lay.nf_slot as int)] == nf,
        m.mem[frame_at(m, cx.lay.marshal_base as int)] == parts_of(val).0,
        m.mem[frame_at(m, cx.lay.marshal_base + 8)] == parts_of(val).1,
    ensures
        leads(w, cs, q, m, bind_of(cs, EPILOGUE_LABEL, 0), r),
        r.g.len() == 16,
        r.g[0] == 0,
        r.g[13] == m.g[13],
        r.mem[nf + NF_RESULT] == parts_of(val).0,
        r.mem[nf + NF_RESULT + 8] == parts_of(val).1,
{
    let front = hand_over(cx).subrange(0, 6);
    let last = seq![Code::Jmp(EPILOGUE_LABEL)];
    assert(hand_over(cx) =~= front + last);
    parted(cs, q, front, last);
    reveal_with_fuel(simply, 7);
    let x1 = with_g(m, Gpr(R10), nf);
    assert(simply(front, 1, m) == Some(x1));
    let x2 = with_g(x1, Gpr(RAX), parts_of(val).0);
    assert(simply(front, 2, m) == Some(x2));
    let x3 = with_g(x2, Gpr(RCX), parts_of(val).1);
    assert(simply(front, 3, m) == Some(x3));
    let x4 = Cpu { mem: x3.mem.insert(nf + NF_RESULT, parts_of(val).0), ..x3 };
    assert(simply(front, 4, m) == Some(x4));
    let x5 = Cpu { mem: x4.mem.insert(nf + NF_RESULT + 8, parts_of(val).1), ..x4 };
    assert(simply(front, 5, m) == Some(x5));
    let x6 = simple(x5, front[5])->Some_0;
    assert(simply(front, 6, m) == Some(x6));
    simply_goes(w, cs, q, front, 6, m);
    jump_goes(w, cs, q + 6, EPILOGUE_LABEL, x6);
    joined(w, cs, q, m, q + 6, x6, bind_of(cs, EPILOGUE_LABEL, 0), x6);
    x6
}

/// A return leads to the end of the function: the value is in the native frame, and
/// `rax` holds 0.
pub proof fn ret_goes(w: Answers, cs: Seq<Code>, p: int, cx: Cx, v: VReg, m: Cpu, val: Value) -> (r: Cpu)
    requires
        m.g.len() == 16,
        m.x.len() == 16,
        homes_fit(cx),
        holds(m, cx, v, val),
        type_in(cx, v) matches Some(k) && of_type(k, val),
        ret_code(cx, v) is Ok,
        placed(cs, p, ret_code(cx, v)->Ok_0),
    ensures
        ({
            let nf = m.mem[frame_at(m, cx.lay.nf_slot as int)];
            &&& leads(w, cs, p, m, bind_of(cs, EPILOGUE_LABEL, 0), r)
            &&& r.g.len() == 16
            &&& r.g[0] == 0
            &&& r.g[13] == m.g[13]
            &&& r.mem[nf + NF_RESULT] == parts_of(val).0
            &&& r.mem[nf + NF_RESULT + 8] == parts_of(val).1
        }),
{
    let mem = marshal_tag(cx.lay, 0);
    let c1 = marshal(cx, mem, v)->Ok_0;
    let c2 = hand_over(cx);
    parted(cs, p, c1, c2);
    let d = cx.lay.marshal_base as int;
    let m1 = marshal_goes(w, cs, p, cx, d, v, m, val);
    let q = p + c1.len();
    let nf = m.mem[frame_at(m, cx.lay.nf_slot as int)];
    assert(m1.g[13] == m.g[13]);
    assert(m1.mem[frame_at(m, cx.lay.nf_slot as int)] == nf);
    let x6 = result_goes(w, cs, q, cx, m1, val, nf);
    joined(w, cs, p, m, q, m1, bind_of(cs, EPILOGUE_LABEL, 0), x6);
    x6
}

} // verus!
