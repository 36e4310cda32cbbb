//! What the code of an instruction that computes in place does on the processor: it
//! does what the instruction means, and leaves alone what is still needed.

use crate::arith::{fit, neg_bits, wrap};
use crate::jit::assembler::{Cond, Gpr, Xmm};
use crate::jit::code::{bind_of, well_labelled, Alu, Code, Shift};
use crate::jit::codegen::{bool_word, char_word, insn_code, load_local, store_local};
use crate::jit::decide::{digit, digits, float_truth_law};
use crate::jit::frame::{
    home_in, in_frame, layout_ok, load_float, load_int, load_tag, local_payload, local_tag, marshal,
    spill_payload, spill_tag, store_float, store_int, store_tag, type_in, Cx,
};
use crate::jit::inline::{all_quiet, comes_to, int_value, quiet, straight_goes};
use crate::jit::ir::{defined_by, BinOp, ConvTarget, Insn, InsnModel, KType, UnOp, VReg};
use crate::jit::lower::conv_delegated;
use crate::jit::meaning::{
    bits_are, decides, fits, meaning, narrow_law, run, run_all, box_truth_law, tagify_law, walked,
    with_g, with_x, Cpu, Flags,
};
use crate::jit::processor::{
    finish_float, finish_int, finish_tag, g_is_scratch, only_then, scratch_is_only, scratch_keeps,
    simple, simple_acts, simply, simply_goes, stays, steps_on, x_is_scratch, act, float_bits,
    frame_at, holds, in_scratch, in_slot, joined, leads, load_float_goes, load_int_goes,
    load_tag_goes, one, only, only_scratch, parted, placed, scratch_after, slot_words, sound_home,
    store_box_goes, stored,
};
use crate::jit::regalloc::Home;
use crate::jit::regs::{R13, RAX, RCX};
use crate::jit::select::{
    bin_code, conv_code, float_arith, float_truth, narrow, overflow_check, round, tagify, truth, un_code,
    OVERFLOW_LABEL,
};
use crate::jit::simulate::conv_type;
use crate::jit::typed::of_type;
use crate::jit::value::{int_bits, parts_of};
use crate::jit::xmms::XMM0;
use crate::vm::value::{truthy, Value};
use crate::vm::world::{Answers, Effect};
use vstd::prelude::*;

verus! {

// ---------------------------------------------------------------------------
// What stays
// ---------------------------------------------------------------------------

/// A value stays where only another home has changed.
pub proof fn only_keeps(cx: Cx, m: Cpu, x: Cpu, dst: Option<VReg>, v: VReg, val: Value)
    requires
        layout_ok(cx.lay),
        only(cx, m, x, dst),
        holds(m, cx, v, val),
        dst matches Some(d) ==> home_in(cx, d) != home_in(cx, v),
    ensures
        holds(x, cx, v, val),
{
    match home_in(cx, v) {
        Some(Home::Slot(s)) => {
            slot_words(m, cx, s);
            let a = frame_at(m, cx.lay.spill_base + s * 16);
            let b = frame_at(m, cx.lay.spill_base + s * 16 + 8);
            assert(!in_scratch(m, cx, a) && !in_scratch(m, cx, b));
            assert(!in_slot(m, cx, dst, a));
            assert(!in_slot(m, cx, dst, b));
            assert(x.mem[a] == m.mem[a]);
            assert(x.mem[b] == m.mem[b]);
        },
        Some(Home::Gpr(g)) => {
            assert(Gpr(g.0) == g);
            assert(x.g[g.0 as int] == m.g[g.0 as int]);
        },
        Some(Home::Xmm(g)) => {
            assert(Xmm(g.0) == g);
            assert(x.x[g.0 as int] == m.x[g.0 as int]);
        },
        None => {},
    }
}

/// The frame holds the locals.
pub open spec fn locals_held(m: Cpu, locals: Seq<Value>) -> bool {
    forall|i: int|
        #![trigger locals[i]]
        0 <= i < locals.len() ==> m.mem[frame_at(m, i * 16)] == parts_of(locals[i]).0 && m.mem[frame_at(
            m,
            i * 16 + 8,
        )] == parts_of(locals[i]).1
}

/// The locals stay where only a home has changed.
pub proof fn only_keeps_locals(cx: Cx, m: Cpu, x: Cpu, dst: Option<VReg>, locals: Seq<Value>)
    requires
        layout_ok(cx.lay),
        only(cx, m, x, dst),
        locals_held(m, locals),
        locals.len() <= cx.lay.locals,
    ensures
        locals_held(x, locals),
{
    assert forall|i: int|
        #![trigger locals[i]]
        0 <= i < locals.len() implies x.mem[frame_at(x, i * 16)] == parts_of(locals[i]).0 && x.mem[frame_at(
        x,
        i * 16 + 8,
    )] == parts_of(locals[i]).1 by {
        let a = frame_at(m, i * 16);
        let b = frame_at(m, i * 16 + 8);
        if let Some(d) = dst {
            if let Some(Home::Slot(s)) = home_in(cx, d) {
                slot_words(m, cx, s);
            }
        }
        assert(!in_scratch(m, cx, a) && !in_scratch(m, cx, b));
        assert(!in_slot(m, cx, dst, a) && !in_slot(m, cx, dst, b));
        assert(x.mem[a] == m.mem[a]);
        assert(x.mem[b] == m.mem[b]);
    }
}

// ---------------------------------------------------------------------------
// Floats
// ---------------------------------------------------------------------------

/// The float operation of an arithmetic operation.
pub open spec fn bin_float(op: BinOp) -> crate::arith::FloatOp {
    match op {
        BinOp::Add => crate::arith::FloatOp::Add,
        BinOp::Sub => crate::arith::FloatOp::Sub,
        _ => crate::arith::FloatOp::Mul,
    }
}

proof fn float_arith_acts(w: Answers, cx: Cx, op: BinOp, b: VReg, m: Cpu, x: u64, y: u64, f: u64)
    requires
        m.g.len() == 16,
        m.x.len() == 16,
        layout_ok(cx.lay),
        op is Add || op is Sub || op is Mul,
        m.x[0] == x,
        holds(m, cx, b, Value::Float(y)),
        float_bits(w, bin_float(op), x, y) == Some(f),
        float_arith(cx, op, b) is Ok,
    ensures
        float_arith(cx, op, b)->Ok_0.len() == 1,
        act(w, m, float_arith(cx, op, b)->Ok_0[0]) == Some(with_x(m, Xmm(XMM0), f)),
{
    reveal(act);
    if let Some(Home::Slot(s)) = home_in(cx, b) {
        slot_words(m, cx, s);
    }
}

/// Arithmetic on floats.
pub proof fn float_bin_goes(
    w: Answers,
    cs: Seq<Code>,
    p: int,
    cx: Cx,
    dst: VReg,
    op: BinOp,
    a: VReg,
    b: VReg,
    m: Cpu,
    x: u64,
    y: u64,
    f: u64,
) -> (r: Cpu)
    requires
        m.g.len() == 16,
        m.x.len() == 16,
        layout_ok(cx.lay),
        op is Add || op is Sub || op is Mul,
        type_in(cx, a) == Some(KType::Float),
        holds(m, cx, a, Value::Float(x)),
        holds(m, cx, b, Value::Float(y)),
        float_bits(w, bin_float(op), x, y) == Some(f),
        sound_home(cx, dst, Value::Float(f)),
        bin_code(cx, dst, op, a, b) is Ok,
        placed(cs, p, bin_code(cx, dst, op, a, b)->Ok_0),
    ensures
        leads(w, cs, p, m, p + bin_code(cx, dst, op, a, b)->Ok_0.len(), r),
        stored(cx, m, r, dst, Value::Float(f)),
{
    let c1 = load_float(cx, a)->Ok_0;
    let c2 = float_arith(cx, op, b)->Ok_0;
    let c3 = store_float(cx, dst)->Ok_0;
    parted(cs, p, c1 + c2, c3);
    parted(cs, p, c1, c2);
    load_float_goes(w, cs, p, cx, a, m, x);
    let m1 = with_x(m, Xmm(XMM0), x);
    x_is_scratch(m, x);
    scratch_keeps(cx, m, m1, b, Value::Float(y));
    float_arith_acts(w, cx, op, b, m1, x, y, f);
    let m2 = with_x(m1, Xmm(XMM0), f);
    steps_on(w, cs, p + c1.len(), c2, 0, m1);
    joined(w, cs, p, m, p + c1.len(), m1, p + c1.len() + 1, m2);
    x_is_scratch(m1, f);
    scratch_after(m, m1, m2);
    scratch_is_only(cx, m, m2);
    finish_float(w, cs, p, p + (c1 + c2).len(), cx, dst, m, m2, f)
}

// ---------------------------------------------------------------------------
// One operand
// ---------------------------------------------------------------------------

proof fn neg_acts(w: Answers, m: Cpu, x: i64) -> (r: Cpu)
    requires
        m.g.len() == 16,
        m.x.len() == 16,
        m.g[0] == int_bits(x),
    ensures
        act(w, m, Code::Neg(Gpr(RAX))) == Some(r),
        only_scratch(m, r),
        r.g[0] == int_bits(wrap(-x)),
        r.flags == Flags::Result(int_bits(wrap(-x)), !fits(-x)),
{
    reveal(act);
    bits_are(x);
    crate::jit::meaning::wrap_bits(-x);
    act(w, m, Code::Neg(Gpr(RAX)))->Some_0
}

/// Negation of an integer.
pub proof fn int_neg_goes(
    w: Answers,
    cs: Seq<Code>,
    p: int,
    cx: Cx,
    dst: VReg,
    a: VReg,
    n: int,
    m: Cpu,
    x: i64,
) -> (r: Cpu)
    requires
        m.g.len() == 16,
        m.x.len() == 16,
        layout_ok(cx.lay),
        type_in(cx, a) == Some(KType::Int),
        holds(m, cx, a, Value::Int(x)),
        forall|k: i64| #[trigger] sound_home(cx, dst, Value::Int(k)),
        un_code(cx, dst, UnOp::Neg, a, n) is Ok,
        placed(cs, p, un_code(cx, dst, UnOp::Neg, a, n)->Ok_0),
    ensures
        comes_to(
            w,
            cs,
            p,
            un_code(cx, dst, UnOp::Neg, a, n)->Ok_0.len(),
            cx,
            m,
            r,
            dst,
            int_value(fit(cx.checks, -x)),
        ),
{
    let c1 = load_int(cx, a)->Ok_0;
    let c2 = seq![Code::Neg(Gpr(RAX))];
    let c3 = overflow_check(cx);
    let c4 = store_int(cx, dst)->Ok_0;
    parted(cs, p, c1 + c2 + c3, c4);
    parted(cs, p, c1 + c2, c3);
    parted(cs, p, c1, c2);
    load_int_goes(w, cs, p, cx, a, m, x);
    let m1 = with_g(m, Gpr(RAX), int_bits(x));
    g_is_scratch(m, RAX, int_bits(x));
    let m2 = neg_acts(w, m1, x);
    steps_on(w, cs, p + c1.len(), c2, 0, m1);
    joined(w, cs, p, m, p + c1.len(), m1, p + c1.len() + 1, m2);
    scratch_after(m, m1, m2);
    scratch_is_only(cx, m, m2);
    let q = p + (c1 + c2).len();
    let k = wrap(-x);
    crate::jit::meaning::wrap_fits(-x);
    crate::jit::inline::overflow_goes(w, cs, q, cx, m2, int_bits(k), !fits(-x));
    if cx.checks && !fits(-x) {
        joined(w, cs, p, m, q, m2, bind_of(cs, OVERFLOW_LABEL, 0), m2);
        m2
    } else {
        joined(w, cs, p, m, q, m2, q + c3.len(), m2);
        assert(sound_home(cx, dst, Value::Int(k)));
        finish_int(w, cs, p, p + (c1 + c2 + c3).len(), cx, dst, m, m2, k)
    }
}

/// The code that changes the sign of the double in `xmm0`.
spec fn float_flip() -> Seq<Code> {
    seq![
        Code::MovqGx(Gpr(RAX), Xmm(XMM0)),
        Code::Movabs(Gpr(RCX), 0x8000_0000_0000_0000),
        Code::AluRr(Alu::Xor, Gpr(RAX), Gpr(RCX)),
        Code::MovqXg(Xmm(XMM0), Gpr(RAX)),
    ]
}

proof fn xor_acts(w: Answers, m: Cpu)
    requires
        m.g.len() == 16,
        m.x.len() == 16,
    ensures
        act(w, m, Code::AluRr(Alu::Xor, Gpr(RAX), Gpr(RCX))) == Some(
            Cpu {
                flags: Flags::Result(m.g[0] ^ m.g[1], false),
                ..with_g(m, Gpr(RAX), m.g[0] ^ m.g[1])
            },
        ),
{
    reveal(act);
}

proof fn flip_goes(w: Answers, cs: Seq<Code>, p: int, m: Cpu, x: u64) -> (r: Cpu)
    requires
        m.g.len() == 16,
        m.x.len() == 16,
        m.x[0] == x,
        placed(cs, p, float_flip()),
    ensures
        leads(w, cs, p, m, p + 4, r),
        only_scratch(m, r),
        r.x[0] == neg_bits(x),
{
    let sign = 0x8000_0000_0000_0000u64;
    assert(x >= sign ==> x ^ sign == x - sign) by (bit_vector)
        requires
            sign == 0x8000_0000_0000_0000u64,
    ;
    assert(x < sign ==> x ^ sign == x + sign) by (bit_vector)
        requires
            sign == 0x8000_0000_0000_0000u64,
    ;
    let frag = float_flip();
    let y1 = with_g(m, Gpr(RAX), x);
    simple_acts(w, m, frag[0]);
    steps_on(w, cs, p, frag, 0, m);
    let y2 = with_g(y1, Gpr(RCX), sign);
    simple_acts(w, y1, frag[1]);
    steps_on(w, cs, p, frag, 1, y1);
    joined(w, cs, p, m, p + 1, y1, p + 2, y2);
    xor_acts(w, y2);
    let y3 = act(w, y2, frag[2])->Some_0;
    steps_on(w, cs, p, frag, 2, y2);
    joined(w, cs, p, m, p + 2, y2, p + 3, y3);
    let y4 = with_x(y3, Xmm(XMM0), neg_bits(x));
    simple_acts(w, y3, frag[3]);
    steps_on(w, cs, p, frag, 3, y3);
    joined(w, cs, p, m, p + 3, y3, p + 4, y4);
    y4
}

/// Negation of a float.
pub proof fn float_neg_goes(
    w: Answers,
    cs: Seq<Code>,
    p: int,
    cx: Cx,
    dst: VReg,
    a: VReg,
    n: int,
    m: Cpu,
    x: u64,
) -> (r: Cpu)
    requires
        m.g.len() == 16,
        m.x.len() == 16,
        layout_ok(cx.lay),
        type_in(cx, a) == Some(KType::Float),
        holds(m, cx, a, Value::Float(x)),
        sound_home(cx, dst, Value::Float(neg_bits(x))),
        un_code(cx, dst, UnOp::Neg, a, n) is Ok,
        placed(cs, p, un_code(cx, dst, UnOp::Neg, a, n)->Ok_0),
    ensures
        leads(w, cs, p, m, p + un_code(cx, dst, UnOp::Neg, a, n)->Ok_0.len(), r),
        stored(cx, m, r, dst, Value::Float(neg_bits(x))),
{
    let c1 = load_float(cx, a)->Ok_0;
    let c2 = float_flip();
    let c3 = store_float(cx, dst)->Ok_0;
    parted(cs, p, c1 + c2, c3);
    parted(cs, p, c1, c2);
    load_float_goes(w, cs, p, cx, a, m, x);
    let m1 = with_x(m, Xmm(XMM0), x);
    x_is_scratch(m, x);
    let m2 = flip_goes(w, cs, p + c1.len(), m1, x);
    joined(w, cs, p, m, p + c1.len(), m1, p + c1.len() + 4, m2);
    scratch_after(m, m1, m2);
    scratch_is_only(cx, m, m2);
    finish_float(w, cs, p, p + (c1 + c2).len(), cx, dst, m, m2, neg_bits(x))
}

// ---------------------------------------------------------------------------
// Truth
// ---------------------------------------------------------------------------

/// An instruction that writes nothing but registers in which code computes and the
/// scratch part of the frame.
pub open spec fn steady(cx: Cx, c: Code) -> bool {
    quiet(c) && !(c is Jcc) && !(c is Jmp) || (c matches Code::MovMr(at, _) && at.base == Gpr(R13) && cx.lay.marshal_base <= at.disp
        < cx.lay.nf_slot)
}

/// All instructions are steady.
pub open spec fn all_steady(cx: Cx, cs: Seq<Code>) -> bool {
    forall|i: int| 0 <= i < cs.len() ==> steady(cx, #[trigger] cs[i])
}

proof fn steady_step(w: Answers, cx: Cx, m: Cpu, c: Code)
    requires
        steady(cx, c),
        m.g.len() == 16,
        m.x.len() == 16,
        meaning(m, c) is Some,
        !(c is Jcc) && !(c is Jmp),
    ensures
        only(cx, m, meaning(m, c)->Some_0, None),
        act(w, m, c) == meaning(m, c),
{
    reveal(act);
    let x = meaning(m, c)->Some_0;
    assert forall|a: int| !in_scratch(m, cx, a) && !in_slot(m, cx, None, a) implies
        #[trigger] x.mem[a] == m.mem[a] by {}
}

proof fn steady_run(w: Answers, cs: Seq<Code>, p: int, cx: Cx, frag: Seq<Code>, n: int, m: Cpu)
    requires
        placed(cs, p, frag),
        all_steady(cx, frag),
        0 <= n <= frag.len(),
        m.g.len() == 16,
        m.x.len() == 16,
        run(frag, n, m) is Some,
    ensures
        only(cx, m, run(frag, n, m)->Some_0, None),
        leads(w, cs, p, m, p + n, run(frag, n, m)->Some_0),
    decreases n,
{
    if n > 0 {
        steady_run(w, cs, p, cx, frag, n - 1, m);
        let x = run(frag, n - 1, m)->Some_0;
        let y = run(frag, n, m)->Some_0;
        assert(steady(cx, frag[n - 1]));
        steady_step(w, cx, x, frag[n - 1]);
        only_then(cx, m, x, y, None);
        steps_on(w, cs, p, frag, n - 1, x);
        joined(w, cs, p, m, p + n - 1, x, p + n, y);
    } else {
        stays(w, cs, p, m);
        scratch_is_only(cx, m, m);
    }
}

/// Straight code goes through to its end.
pub proof fn steady_goes(w: Answers, cs: Seq<Code>, p: int, cx: Cx, frag: Seq<Code>, m: Cpu)
    requires
        placed(cs, p, frag),
        all_steady(cx, frag),
        m.g.len() == 16,
        m.x.len() == 16,
        run_all(frag, m) is Some,
    ensures
        leads(w, cs, p, m, p + frag.len(), run_all(frag, m)->Some_0),
        only(cx, m, run_all(frag, m)->Some_0, None),
{
    steady_run(w, cs, p, cx, frag, frag.len() as int, m);
}

/// The code of a truth that is decided with jumps goes through to its end.
proof fn box_truth_goes(w: Answers, cs: Seq<Code>, p: int, n: int, m: Cpu, v: Value) -> (x: Cpu)
    requires
        placed(cs, p, crate::jit::select::box_truth(n)),
        well_labelled(cs),
        0 <= n <= usize::MAX - 8,
        m.g.len() == 16,
        m.x.len() == 16,
        (m.g[0], m.g[1]) == parts_of(v),
    ensures
        leads(w, cs, p, m, p + crate::jit::select::box_truth(n).len(), x),
        only_scratch(m, x),
        x.g[0] == digit(truthy(v)),
{
    let frag = crate::jit::select::box_truth(n);
    box_truth_law(m, n, v);
    let fuel = choose|fuel: nat| decides(n, m, fuel, truthy(v));
    let x = walked(frag, 0, m, fuel)->Some_0.1;
    assert(all_quiet(frag));
    crate::jit::meaning::truth_binds(n);
    crate::jit::inline::walk_goes(w, cs, p, frag, 0, m, fuel, x);
    x
}

proof fn nonzero_acts(w: Answers, cs: Seq<Code>, p: int, m: Cpu, i: i64) -> (r: Cpu)
    requires
        m.g.len() == 16,
        m.x.len() == 16,
        m.g[0] == int_bits(i),
        placed(
            cs,
            p,
            seq![Code::Test(Gpr(RAX), Gpr(RAX)), Code::Setcc(Cond::NZ, Gpr(RAX))],
        ),
    ensures
        leads(w, cs, p, m, p + 2, r),
        only_scratch(m, r),
        r.g[0] == digit(i != 0),
{
    reveal(act);
    let b = int_bits(i);
    assert(b & b == b) by (bit_vector);
    bits_are(i);
    let c = Code::Test(Gpr(RAX), Gpr(RAX));
    let d = Code::Setcc(Cond::NZ, Gpr(RAX));
    crate::jit::processor::two(w, cs, p, c, d, m);
    act(w, act(w, m, c)->Some_0, d)->Some_0
}

proof fn bool_acts(w: Answers, m: Cpu, t: bool) -> (r: Cpu)
    requires
        m.g.len() == 16,
        m.x.len() == 16,
        m.g[0] == parts_of(Value::Bool(t)).0,
    ensures
        act(w, m, Code::ShiftRi(Shift::Right, Gpr(RAX), 8)) == Some(r),
        only_scratch(m, r),
        r.g[0] == digit(t),
{
    reveal(act);
    vstd::arithmetic::power2::lemma2_to64();
    act(w, m, Code::ShiftRi(Shift::Right, Gpr(RAX), 8))->Some_0
}

proof fn truth_of_int(w: Answers, cs: Seq<Code>, p: int, cx: Cx, v: VReg, n: int, m: Cpu, val: Value) -> (x:
    Cpu)
    requires
        m.g.len() == 16,
        m.x.len() == 16,
        layout_ok(cx.lay),
        well_labelled(cs),
        0 <= n <= usize::MAX - 8,
        holds(m, cx, v, val),
        type_in(cx, v) matches Some(k) && of_type(k, val) && k == KType::Int,
        truth(cx, v, n) is Ok,
        placed(cs, p, truth(cx, v, n)->Ok_0),
    ensures
        leads(w, cs, p, m, p + truth(cx, v, n)->Ok_0.len(), x),
        only(cx, m, x, None),
        x.g[0] == digit(truthy(val)),
{
    let i = val->Int_0;
    let c1 = load_int(cx, v)->Ok_0;
    let c2 = seq![Code::Test(Gpr(RAX), Gpr(RAX)), Code::Setcc(Cond::NZ, Gpr(RAX))];
    parted(cs, p, c1, c2);
    load_int_goes(w, cs, p, cx, v, m, i);
    let m1 = with_g(m, Gpr(RAX), int_bits(i));
    g_is_scratch(m, RAX, int_bits(i));
    let m2 = nonzero_acts(w, cs, p + c1.len(), m1, i);
    joined(w, cs, p, m, p + c1.len(), m1, p + (c1 + c2).len(), m2);
    scratch_after(m, m1, m2);
    scratch_is_only(cx, m, m2);
    m2
}

proof fn truth_of_bool(w: Answers, cs: Seq<Code>, p: int, cx: Cx, v: VReg, n: int, m: Cpu, val: Value) -> (x:
    Cpu)
    requires
        m.g.len() == 16,
        m.x.len() == 16,
        layout_ok(cx.lay),
        well_labelled(cs),
        0 <= n <= usize::MAX - 8,
        holds(m, cx, v, val),
        type_in(cx, v) matches Some(k) && of_type(k, val) && k == KType::Bool,
        truth(cx, v, n) is Ok,
        placed(cs, p, truth(cx, v, n)->Ok_0),
    ensures
        leads(w, cs, p, m, p + truth(cx, v, n)->Ok_0.len(), x),
        only(cx, m, x, None),
        x.g[0] == digit(truthy(val)),
{
    let t = val->Bool_0;
    let c1 = load_tag(cx, v)->Ok_0;
    let c2 = seq![Code::ShiftRi(Shift::Right, Gpr(RAX), 8)];
    parted(cs, p, c1, c2);
    load_tag_goes(w, cs, p, cx, v, m, val);
    let m1 = with_g(m, Gpr(RAX), parts_of(val).0);
    g_is_scratch(m, RAX, parts_of(val).0);
    let m2 = bool_acts(w, m1, t);
    steps_on(w, cs, p + c1.len(), c2, 0, m1);
    joined(w, cs, p, m, p + c1.len(), m1, p + (c1 + c2).len(), m2);
    scratch_after(m, m1, m2);
    scratch_is_only(cx, m, m2);
    m2
}

proof fn truth_of_char(w: Answers, cs: Seq<Code>, p: int, cx: Cx, v: VReg, n: int, m: Cpu, val: Value) -> (x:
    Cpu)
    requires
        m.g.len() == 16,
        m.x.len() == 16,
        layout_ok(cx.lay),
        well_labelled(cs),
        0 <= n <= usize::MAX - 8,
        holds(m, cx, v, val),
        type_in(cx, v) matches Some(k) && of_type(k, val) && k == KType::Char,
        truth(cx, v, n) is Ok,
        placed(cs, p, truth(cx, v, n)->Ok_0),
    ensures
        leads(w, cs, p, m, p + truth(cx, v, n)->Ok_0.len(), x),
        only(cx, m, x, None),
        x.g[0] == digit(truthy(val)),
{
    let c = Code::MovRi(Gpr(RAX), 1);
    simple_acts(w, m, c);
    one(w, cs, p, c, m);
    let m2 = with_g(m, Gpr(RAX), int_bits(1));
    g_is_scratch(m, RAX, int_bits(1));
    scratch_is_only(cx, m, m2);
    m2
}

proof fn truth_of_float(w: Answers, cs: Seq<Code>, p: int, cx: Cx, v: VReg, n: int, m: Cpu, val: Value) -> (x:
    Cpu)
    requires
        m.g.len() == 16,
        m.x.len() == 16,
        layout_ok(cx.lay),
        well_labelled(cs),
        0 <= n <= usize::MAX - 8,
        holds(m, cx, v, val),
        type_in(cx, v) matches Some(k) && of_type(k, val) && k == KType::Float,
        truth(cx, v, n) is Ok,
        placed(cs, p, truth(cx, v, n)->Ok_0),
    ensures
        leads(w, cs, p, m, p + truth(cx, v, n)->Ok_0.len(), x),
        only(cx, m, x, None),
        x.g[0] == digit(truthy(val)),
{
    let f = val->Float_0;
    let c1 = load_float(cx, v)->Ok_0;
    let c2 = float_truth(cx);
    parted(cs, p, c1, c2);
    load_float_goes(w, cs, p, cx, v, m, f);
    let m1 = with_x(m, Xmm(XMM0), f);
    x_is_scratch(m, f);
    float_truth_law(m1, cx, f);
    assert(all_steady(cx, c2));
    steady_goes(w, cs, p + c1.len(), cx, c2, m1);
    let m2 = run_all(c2, m1)->Some_0;
    joined(w, cs, p, m, p + c1.len(), m1, p + (c1 + c2).len(), m2);
    scratch_is_only(cx, m, m1);
    only_then(cx, m, m1, m2, None);
    m2
}

proof fn truth_of_unknown(w: Answers, cs: Seq<Code>, p: int, cx: Cx, v: VReg, n: int, m: Cpu, val: Value) -> (x:
    Cpu)
    requires
        m.g.len() == 16,
        m.x.len() == 16,
        layout_ok(cx.lay),
        well_labelled(cs),
        0 <= n <= usize::MAX - 8,
        holds(m, cx, v, val),
        type_in(cx, v) matches Some(k) && of_type(k, val) && k == KType::Unknown,
        truth(cx, v, n) is Ok,
        placed(cs, p, truth(cx, v, n)->Ok_0),
    ensures
        leads(w, cs, p, m, p + truth(cx, v, n)->Ok_0.len(), x),
        only(cx, m, x, None),
        x.g[0] == digit(truthy(val)),
{
    let s = home_in(cx, v)->Some_0->Slot_0;
    slot_words(m, cx, s);
    let c = Code::MovRm(Gpr(RAX), spill_tag(cx.lay, s));
    let d = Code::MovRm(Gpr(RCX), spill_payload(cx.lay, s));
    let head = seq![c, d];
    let rest = crate::jit::select::box_truth(n);
    parted(cs, p, head, rest);
    let x1 = with_g(m, Gpr(RAX), parts_of(val).0);
    let m1 = with_g(x1, Gpr(RCX), parts_of(val).1);
    simple_acts(w, m, c);
    simple_acts(w, x1, d);
    crate::jit::processor::two(w, cs, p, c, d, m);
    g_is_scratch(m, RAX, parts_of(val).0);
    g_is_scratch(x1, RCX, parts_of(val).1);
    scratch_after(m, x1, m1);
    let m2 = box_truth_goes(w, cs, p + 2, n, m1, val);
    joined(w, cs, p, m, p + 2, m1, p + (head + rest).len(), m2);
    scratch_after(m, m1, m2);
    scratch_is_only(cx, m, m2);
    m2
}

/// The truth of a register is computed into `rax`.
pub proof fn truth_goes(w: Answers, cs: Seq<Code>, p: int, cx: Cx, v: VReg, n: int, m: Cpu, val: Value) -> (x:
    Cpu)
    requires
        m.g.len() == 16,
        m.x.len() == 16,
        layout_ok(cx.lay),
        well_labelled(cs),
        0 <= n <= usize::MAX - 8,
        holds(m, cx, v, val),
        type_in(cx, v) matches Some(k) && of_type(k, val),
        truth(cx, v, n) is Ok,
        placed(cs, p, truth(cx, v, n)->Ok_0),
    ensures
        leads(w, cs, p, m, p + truth(cx, v, n)->Ok_0.len(), x),
        only(cx, m, x, None),
        x.g[0] == digit(truthy(val)),
{
    match type_in(cx, v)->Some_0 {
        KType::Int => truth_of_int(w, cs, p, cx, v, n, m, val),
        KType::Bool => truth_of_bool(w, cs, p, cx, v, n, m, val),
        KType::Char => truth_of_char(w, cs, p, cx, v, n, m, val),
        KType::Float => truth_of_float(w, cs, p, cx, v, n, m, val),
        KType::Unknown => truth_of_unknown(w, cs, p, cx, v, n, m, val),
    }
}

proof fn flip_digit_acts(w: Answers, m: Cpu, t: bool) -> (r: Cpu)
    requires
        m.g.len() == 16,
        m.x.len() == 16,
        m.g[0] == digit(t),
    ensures
        act(w, m, Code::AluRi(Alu::Xor, Gpr(RAX), 1)) == Some(r),
        only_scratch(m, r),
        r.g[0] == digit(!t),
{
    reveal(act);
    digits(t, t);
    act(w, m, Code::AluRi(Alu::Xor, Gpr(RAX), 1))->Some_0
}

/// The opposite of the truth of a register.
pub proof fn not_goes(
    w: Answers,
    cs: Seq<Code>,
    p: int,
    cx: Cx,
    dst: VReg,
    a: VReg,
    n: int,
    m: Cpu,
    val: Value,
) -> (r: Cpu)
    requires
        m.g.len() == 16,
        m.x.len() == 16,
        layout_ok(cx.lay),
        well_labelled(cs),
        0 <= n <= usize::MAX - 8,
        holds(m, cx, a, val),
        type_in(cx, a) matches Some(k) && of_type(k, val),
        sound_home(cx, dst, Value::Bool(!truthy(val))),
        un_code(cx, dst, UnOp::Not, a, n) is Ok,
        placed(cs, p, un_code(cx, dst, UnOp::Not, a, n)->Ok_0),
    ensures
        leads(w, cs, p, m, p + un_code(cx, dst, UnOp::Not, a, n)->Ok_0.len(), r),
        stored(cx, m, r, dst, Value::Bool(!truthy(val))),
{
    let c1 = truth(cx, a, n)->Ok_0;
    let c2 = seq![Code::AluRi(Alu::Xor, Gpr(RAX), 1)];
    let c3 = tagify();
    let c4 = store_tag(cx, dst)->Ok_0;
    parted(cs, p, c1 + c2 + c3, c4);
    parted(cs, p, c1 + c2, c3);
    parted(cs, p, c1, c2);
    let m1 = truth_goes(w, cs, p, cx, a, n, m, val);
    let t = truthy(val);
    let m2 = flip_digit_acts(w, m1, t);
    steps_on(w, cs, p + c1.len(), c2, 0, m1);
    joined(w, cs, p, m, p + c1.len(), m1, p + (c1 + c2).len(), m2);
    tagify_law(m2, !t);
    assert(all_quiet(c3));
    straight_goes(w, cs, p + (c1 + c2).len(), c3, m2);
    let m3 = run_all(c3, m2)->Some_0;
    joined(w, cs, p, m, p + (c1 + c2).len(), m2, p + (c1 + c2 + c3).len(), m3);
    scratch_after(m1, m2, m3);
    scratch_is_only(cx, m1, m3);
    only_then(cx, m, m1, m3, None);
    finish_tag(w, cs, p, p + (c1 + c2 + c3).len(), cx, dst, m, m3, Value::Bool(!t))
}

// ---------------------------------------------------------------------------
// Conversions
// ---------------------------------------------------------------------------

/// An integer as an integer of another type.
pub proof fn narrow_goes(
    w: Answers,
    cs: Seq<Code>,
    p: int,
    cx: Cx,
    dst: VReg,
    to: ConvTarget,
    src: VReg,
    m: Cpu,
    n: i64,
) -> (r: Cpu)
    requires
        m.g.len() == 16,
        m.x.len() == 16,
        layout_ok(cx.lay),
        type_in(cx, src) == Some(KType::Int),
        to.to_int(),
        !conv_delegated(to, KType::Int, cx.checks),
        holds(m, cx, src, Value::Int(n)),
        sound_home(cx, dst, Value::Int(crate::vm::numeric::narrowed(conv_type(to), n))),
        conv_code(cx, dst, to, src) is Ok,
        placed(cs, p, conv_code(cx, dst, to, src)->Ok_0),
    ensures
        crate::vm::numeric::int_conv(cx.checks, conv_type(to), n) == Effect::Value(
            Value::Int(crate::vm::numeric::narrowed(conv_type(to), n)),
        ),
        leads(w, cs, p, m, p + conv_code(cx, dst, to, src)->Ok_0.len(), r),
        stored(cx, m, r, dst, Value::Int(crate::vm::numeric::narrowed(conv_type(to), n))),
{
    let c1 = load_int(cx, src)->Ok_0;
    let c2 = narrow(to);
    let c3 = store_int(cx, dst)->Ok_0;
    let k = crate::vm::numeric::narrowed(conv_type(to), n);
    parted(cs, p, c1 + c2, c3);
    parted(cs, p, c1, c2);
    load_int_goes(w, cs, p, cx, src, m, n);
    let m1 = with_g(m, Gpr(RAX), int_bits(n));
    g_is_scratch(m, RAX, int_bits(n));
    narrow_law(m1, cx.checks, conv_type(to), to, n);
    assert(all_quiet(c2));
    straight_goes(w, cs, p + c1.len(), c2, m1);
    let m2 = run_all(c2, m1)->Some_0;
    scratch_after(m, m1, m2);
    scratch_is_only(cx, m, m2);
    joined(w, cs, p, m, p + c1.len(), m1, p + (c1 + c2).len(), m2);
    finish_int(w, cs, p, p + (c1 + c2).len(), cx, dst, m, m2, k)
}

/// A float is rounded where that is asked for.
proof fn round_goes(w: Answers, cs: Seq<Code>, p: int, to: ConvTarget, m: Cpu, f: u64) -> (x: Cpu)
    requires
        m.g.len() == 16,
        m.x.len() == 16,
        placed(cs, p, round(to)),
        to == ConvTarget::F32 ==> float_bits(w, crate::arith::FloatOp::ToSingle, m.x[0], 0) == Some(f),
        to != ConvTarget::F32 ==> f == m.x[0],
    ensures
        leads(w, cs, p, m, p + round(to).len(), x),
        only_scratch(m, x),
        x.x[0] == f,
{
    if to == ConvTarget::F32 {
        reveal(act);
        crate::jit::processor::two(w, cs, p, round(to)[0], round(to)[1], m);
        act(w, act(w, m, round(to)[0])->Some_0, round(to)[1])->Some_0
    } else {
        stays(w, cs, p, m);
        m
    }
}

proof fn from_int_acts(w: Answers, m: Cpu, f: u64)
    requires
        float_bits(w, crate::arith::FloatOp::FromInt, m.g[0], 0) == Some(f),
    ensures
        act(w, m, Code::Cvtsi2sd(Xmm(XMM0), Gpr(RAX))) == Some(with_x(m, Xmm(XMM0), f)),
{
    reveal(act);
}

proof fn int_to_float_goes(
    w: Answers,
    cs: Seq<Code>,
    p: int,
    cx: Cx,
    dst: VReg,
    to: ConvTarget,
    src: VReg,
    m: Cpu,
    val: Value,
    f: u64,
) -> (r: Cpu)
    requires
        m.g.len() == 16,
        m.x.len() == 16,
        layout_ok(cx.lay),
        !to.to_int(),
        type_in(cx, src) == Some(KType::Int),
        type_in(cx, src) matches Some(k) && of_type(k, val),
        holds(m, cx, src, val),
        crate::vm::numeric::conv_effect(cx.checks, w, val, conv_type(to)) == Effect::Value(
            Value::Float(f),
        ),
        sound_home(cx, dst, Value::Float(f)),
        conv_code(cx, dst, to, src) is Ok,
        placed(cs, p, conv_code(cx, dst, to, src)->Ok_0),
    ensures
        leads(w, cs, p, m, p + conv_code(cx, dst, to, src)->Ok_0.len(), r),
        stored(cx, m, r, dst, Value::Float(f)),
{
    let i = val->Int_0;
    let c1 = load_int(cx, src)->Ok_0;
    let c2 = seq![Code::Cvtsi2sd(Xmm(XMM0), Gpr(RAX))];
    let c3 = round(to);
    let c4 = store_float(cx, dst)->Ok_0;
    parted(cs, p, c1 + c2 + c3, c4);
    parted(cs, p, c1 + c2, c3);
    parted(cs, p, c1, c2);
    load_int_goes(w, cs, p, cx, src, m, i);
    let m1 = with_g(m, Gpr(RAX), int_bits(i));
    g_is_scratch(m, RAX, int_bits(i));
    let e = float_bits(w, crate::arith::FloatOp::FromInt, int_bits(i), 0)->Some_0;
    from_int_acts(w, m1, e);
    let m2 = with_x(m1, Xmm(XMM0), e);
    x_is_scratch(m1, e);
    scratch_after(m, m1, m2);
    steps_on(w, cs, p + c1.len(), c2, 0, m1);
    joined(w, cs, p, m, p + c1.len(), m1, p + (c1 + c2).len(), m2);
    let m3 = round_goes(w, cs, p + (c1 + c2).len(), to, m2, f);
    scratch_after(m, m2, m3);
    scratch_is_only(cx, m, m3);
    joined(w, cs, p, m, p + (c1 + c2).len(), m2, p + (c1 + c2 + c3).len(), m3);
    finish_float(w, cs, p, p + (c1 + c2 + c3).len(), cx, dst, m, m3, f)
}

proof fn float_to_float_goes(
    w: Answers,
    cs: Seq<Code>,
    p: int,
    cx: Cx,
    dst: VReg,
    to: ConvTarget,
    src: VReg,
    m: Cpu,
    val: Value,
    f: u64,
) -> (r: Cpu)
    requires
        m.g.len() == 16,
        m.x.len() == 16,
        layout_ok(cx.lay),
        !to.to_int(),
        type_in(cx, src) == Some(KType::Float),
        type_in(cx, src) matches Some(k) && of_type(k, val),
        holds(m, cx, src, val),
        crate::vm::numeric::conv_effect(cx.checks, w, val, conv_type(to)) == Effect::Value(
            Value::Float(f),
        ),
        sound_home(cx, dst, Value::Float(f)),
        conv_code(cx, dst, to, src) is Ok,
        placed(cs, p, conv_code(cx, dst, to, src)->Ok_0),
    ensures
        leads(w, cs, p, m, p + conv_code(cx, dst, to, src)->Ok_0.len(), r),
        stored(cx, m, r, dst, Value::Float(f)),
{
    let e = val->Float_0;
    let c1 = load_float(cx, src)->Ok_0;
    let c3 = round(to);
    let c4 = store_float(cx, dst)->Ok_0;
    parted(cs, p, c1 + c3, c4);
    parted(cs, p, c1, c3);
    load_float_goes(w, cs, p, cx, src, m, e);
    let m2 = with_x(m, Xmm(XMM0), e);
    x_is_scratch(m, e);
    let m3 = round_goes(w, cs, p + c1.len(), to, m2, f);
    scratch_after(m, m2, m3);
    scratch_is_only(cx, m, m3);
    joined(w, cs, p, m, p + c1.len(), m2, p + (c1 + c3).len(), m3);
    finish_float(w, cs, p, p + (c1 + c3).len(), cx, dst, m, m3, f)
}

/// A number as a float.
pub proof fn to_float_goes(
    w: Answers,
    cs: Seq<Code>,
    p: int,
    cx: Cx,
    dst: VReg,
    to: ConvTarget,
    src: VReg,
    m: Cpu,
    val: Value,
    f: u64,
) -> (r: Cpu)
    requires
        m.g.len() == 16,
        m.x.len() == 16,
        layout_ok(cx.lay),
        !to.to_int(),
        type_in(cx, src) matches Some(k) && of_type(k, val),
        holds(m, cx, src, val),
        crate::vm::numeric::conv_effect(cx.checks, w, val, conv_type(to)) == Effect::Value(
            Value::Float(f),
        ),
        sound_home(cx, dst, Value::Float(f)),
        conv_code(cx, dst, to, src) is Ok,
        placed(cs, p, conv_code(cx, dst, to, src)->Ok_0),
    ensures
        leads(w, cs, p, m, p + conv_code(cx, dst, to, src)->Ok_0.len(), r),
        stored(cx, m, r, dst, Value::Float(f)),
{
    if type_in(cx, src) == Some(KType::Int) {
        int_to_float_goes(w, cs, p, cx, dst, to, src, m, val, f)
    } else {
        float_to_float_goes(w, cs, p, cx, dst, to, src, m, val, f)
    }
}

// ---------------------------------------------------------------------------
// Constants
// ---------------------------------------------------------------------------

proof fn const_int(w: Answers, cs: Seq<Code>, p: int, cx: Cx, i: Insn, n: int, m: Cpu, val: Value) -> (r:
    Cpu)
    requires
        i is ConstInt,
        m.g.len() == 16,
        m.x.len() == 16,
        layout_ok(cx.lay),
        match i {
            Insn::ConstInt { val: v, .. } => val == Value::Int(v),
            Insn::ConstFloat { bits, .. } => val == Value::Float(bits),
            Insn::ConstBool { val: v, .. } => val == Value::Bool(v),
            Insn::ConstChar { ch, .. } => val == Value::Char(ch),
            Insn::ConstNull { .. } => val == Value::Null,
            Insn::ConstUnit { .. } => val == Value::Unit,
            _ => false,
        },
        defined_by(InsnModel::Plain(i)) matches Some(dst) && sound_home(cx, dst, val),
        insn_code(cx, InsnModel::Plain(i), n) is Ok,
        placed(cs, p, insn_code(cx, InsnModel::Plain(i), n)->Ok_0),
    ensures
        leads(w, cs, p, m, p + insn_code(cx, InsnModel::Plain(i), n)->Ok_0.len(), r),
        stored(cx, m, r, defined_by(InsnModel::Plain(i))->Some_0, val),
{
    let dst = defined_by(InsnModel::Plain(i))->Some_0;
    let v = val->Int_0;
    let c = Code::MovRi(Gpr(RAX), v);
    let c2 = store_int(cx, dst)->Ok_0;
    parted(cs, p, seq![c], c2);
    simple_acts(w, m, c);
    one(w, cs, p, c, m);
    let m1 = with_g(m, Gpr(RAX), int_bits(v));
    g_is_scratch(m, RAX, int_bits(v));
    scratch_is_only(cx, m, m1);
    finish_int(w, cs, p, p + 1, cx, dst, m, m1, v)
}

proof fn const_float(w: Answers, cs: Seq<Code>, p: int, cx: Cx, i: Insn, n: int, m: Cpu, val: Value) -> (r:
    Cpu)
    requires
        i is ConstFloat,
        m.g.len() == 16,
        m.x.len() == 16,
        layout_ok(cx.lay),
        match i {
            Insn::ConstInt { val: v, .. } => val == Value::Int(v),
            Insn::ConstFloat { bits, .. } => val == Value::Float(bits),
            Insn::ConstBool { val: v, .. } => val == Value::Bool(v),
            Insn::ConstChar { ch, .. } => val == Value::Char(ch),
            Insn::ConstNull { .. } => val == Value::Null,
            Insn::ConstUnit { .. } => val == Value::Unit,
            _ => false,
        },
        defined_by(InsnModel::Plain(i)) matches Some(dst) && sound_home(cx, dst, val),
        insn_code(cx, InsnModel::Plain(i), n) is Ok,
        placed(cs, p, insn_code(cx, InsnModel::Plain(i), n)->Ok_0),
    ensures
        leads(w, cs, p, m, p + insn_code(cx, InsnModel::Plain(i), n)->Ok_0.len(), r),
        stored(cx, m, r, defined_by(InsnModel::Plain(i))->Some_0, val),
{
    let dst = defined_by(InsnModel::Plain(i))->Some_0;
    let bits = val->Float_0;
    let c = Code::Movabs(Gpr(RAX), bits);
    let d = Code::MovqXg(Xmm(XMM0), Gpr(RAX));
    let c2 = store_float(cx, dst)->Ok_0;
    parted(cs, p, seq![c, d], c2);
    let m1 = with_g(m, Gpr(RAX), bits);
    let m2 = with_x(m1, Xmm(XMM0), bits);
    simple_acts(w, m, c);
    simple_acts(w, m1, d);
    crate::jit::processor::two(w, cs, p, c, d, m);
    g_is_scratch(m, RAX, bits);
    x_is_scratch(m1, bits);
    scratch_after(m, m1, m2);
    scratch_is_only(cx, m, m2);
    finish_float(w, cs, p, p + 2, cx, dst, m, m2, bits)
}

proof fn packed_words(b: bool, c: char)
    ensures
        int_bits(bool_word(b)) == parts_of(Value::Bool(b)).0,
        int_bits(char_word(c)) == parts_of(Value::Char(c)).0,
{
    assert((c as u32) <= 0x10FFFF);
}

proof fn const_packed(w: Answers, cs: Seq<Code>, p: int, cx: Cx, i: Insn, n: int, m: Cpu, val: Value) -> (r:
    Cpu)
    requires
        i is ConstBool || i is ConstChar,
        m.g.len() == 16,
        m.x.len() == 16,
        layout_ok(cx.lay),
        match i {
            Insn::ConstInt { val: v, .. } => val == Value::Int(v),
            Insn::ConstFloat { bits, .. } => val == Value::Float(bits),
            Insn::ConstBool { val: v, .. } => val == Value::Bool(v),
            Insn::ConstChar { ch, .. } => val == Value::Char(ch),
            Insn::ConstNull { .. } => val == Value::Null,
            Insn::ConstUnit { .. } => val == Value::Unit,
            _ => false,
        },
        defined_by(InsnModel::Plain(i)) matches Some(dst) && sound_home(cx, dst, val),
        insn_code(cx, InsnModel::Plain(i), n) is Ok,
        placed(cs, p, insn_code(cx, InsnModel::Plain(i), n)->Ok_0),
    ensures
        leads(w, cs, p, m, p + insn_code(cx, InsnModel::Plain(i), n)->Ok_0.len(), r),
        stored(cx, m, r, defined_by(InsnModel::Plain(i))->Some_0, val),
{
    let dst = defined_by(InsnModel::Plain(i))->Some_0;
    let word = match i {
        Insn::ConstBool { val: v, .. } => bool_word(v),
        Insn::ConstChar { ch, .. } => char_word(ch),
        _ => 0,
    };
    let c = Code::MovRi(Gpr(RAX), word);
    let c2 = store_tag(cx, dst)->Ok_0;
    parted(cs, p, seq![c], c2);
    simple_acts(w, m, c);
    one(w, cs, p, c, m);
    let m1 = with_g(m, Gpr(RAX), int_bits(word));
    match val {
        Value::Bool(b) => packed_words(b, 'x'),
        Value::Char(c) => packed_words(true, c),
        _ => {},
    }
    g_is_scratch(m, RAX, int_bits(word));
    scratch_is_only(cx, m, m1);
    finish_tag(w, cs, p, p + 1, cx, dst, m, m1, val)
}

/// A constant.
pub proof fn const_goes(w: Answers, cs: Seq<Code>, p: int, cx: Cx, i: Insn, n: int, m: Cpu, val: Value) -> (r:
    Cpu)
    requires
        m.g.len() == 16,
        m.x.len() == 16,
        layout_ok(cx.lay),
        match i {
            Insn::ConstInt { val: v, .. } => val == Value::Int(v),
            Insn::ConstFloat { bits, .. } => val == Value::Float(bits),
            Insn::ConstBool { val: v, .. } => val == Value::Bool(v),
            Insn::ConstChar { ch, .. } => val == Value::Char(ch),
            Insn::ConstNull { .. } => val == Value::Null,
            Insn::ConstUnit { .. } => val == Value::Unit,
            _ => false,
        },
        defined_by(InsnModel::Plain(i)) matches Some(dst) && sound_home(cx, dst, val),
        insn_code(cx, InsnModel::Plain(i), n) is Ok,
        placed(cs, p, insn_code(cx, InsnModel::Plain(i), n)->Ok_0),
    ensures
        leads(w, cs, p, m, p + insn_code(cx, InsnModel::Plain(i), n)->Ok_0.len(), r),
        stored(cx, m, r, defined_by(InsnModel::Plain(i))->Some_0, val),
{
    match i {
        Insn::ConstInt { .. } => const_int(w, cs, p, cx, i, n, m, val),
        Insn::ConstFloat { .. } => const_float(w, cs, p, cx, i, n, m, val),
        Insn::ConstBool { .. } | Insn::ConstChar { .. } => const_packed(w, cs, p, cx, i, n, m, val),
        _ => store_box_goes(w, cs, p, cx, defined_by(InsnModel::Plain(i))->Some_0, m, val),
    }
}

// ---------------------------------------------------------------------------
// Words of the frame
// ---------------------------------------------------------------------------

/// The two words of a value were written at a place of the frame, and nothing else has
/// changed but the registers in which code computes.
pub open spec fn words_written(m: Cpu, x: Cpu, d: int, val: Value) -> bool {
    &&& m.g.len() == 16
    &&& m.x.len() == 16
    &&& x.g.len() == 16
    &&& x.x.len() == 16
    &&& forall|r: int| 2 < r < 16 ==> #[trigger] x.g[r] == m.g[r]
    &&& forall|r: int| 0 < r < 16 ==> #[trigger] x.x[r] == m.x[r]
    &&& forall|a: int|
        a != frame_at(m, d) && a != frame_at(m, d + 8) ==> #[trigger] x.mem[a] == m.mem[a]
    &&& x.mem[frame_at(m, d)] == parts_of(val).0
    &&& x.mem[frame_at(m, d + 8)] == parts_of(val).1
}

proof fn marshal_slot(w: Answers, cs: Seq<Code>, p: int, cx: Cx, d: int, v: VReg, m: Cpu, val: Value) -> (x:
    Cpu)
    requires
        m.g.len() == 16,
        m.x.len() == 16,
        layout_ok(cx.lay),
        0 <= d <= cx.lay.frame - 16,
        holds(m, cx, v, val),
        type_in(cx, v) matches Some(k) && of_type(k, val),
        home_in(cx, v) is Some && home_in(cx, v)->Some_0 is Slot,
        marshal(cx, in_frame(d), v) is Ok,
        placed(cs, p, marshal(cx, in_frame(d), v)->Ok_0),
    ensures
        leads(w, cs, p, m, p + marshal(cx, in_frame(d), v)->Ok_0.len(), x),
        words_written(m, x, d, val),
{
    let s = home_in(cx, v)->Some_0->Slot_0;
    slot_words(m, cx, s);
    let frag = marshal(cx, in_frame(d), v)->Ok_0;
    reveal_with_fuel(simply, 5);
    let x1 = simple(m, frag[0])->Some_0;
    assert(simply(frag, 1, m) == Some(x1));
    let x2 = simple(x1, frag[1])->Some_0;
    assert(simply(frag, 2, m) == Some(x2));
    let x3 = simple(x2, frag[2])->Some_0;
    assert(simply(frag, 3, m) == Some(x3));
    let x4 = simple(x3, frag[3])->Some_0;
    assert(simply(frag, 4, m) == Some(x4));
    assert(frag.len() == 4);
    simply_goes(w, cs, p, frag, 4, m);
    x4
}

proof fn marshal_packed(w: Answers, cs: Seq<Code>, p: int, cx: Cx, d: int, v: VReg, m: Cpu, val: Value) -> (x:
    Cpu)
    requires
        m.g.len() == 16,
        m.x.len() == 16,
        layout_ok(cx.lay),
        0 <= d <= cx.lay.frame - 16,
        holds(m, cx, v, val),
        type_in(cx, v) matches Some(k) && of_type(k, val),
        home_in(cx, v) is Some && home_in(cx, v)->Some_0 is Gpr,
        marshal(cx, in_frame(d), v) is Ok,
        placed(cs, p, marshal(cx, in_frame(d), v)->Ok_0),
    ensures
        leads(w, cs, p, m, p + marshal(cx, in_frame(d), v)->Ok_0.len(), x),
        words_written(m, x, d, val),
{
    let frag = marshal(cx, in_frame(d), v)->Ok_0;
    reveal_with_fuel(simply, 4);
    let x1 = simple(m, frag[0])->Some_0;
    assert(simply(frag, 1, m) == Some(x1));
    let x2 = simple(x1, frag[1])->Some_0;
    assert(simply(frag, 2, m) == Some(x2));
    let x3 = simple(x2, frag[2])->Some_0;
    assert(simply(frag, 3, m) == Some(x3));
    assert(frag.len() == 3);
    simply_goes(w, cs, p, frag, 3, m);
    x3
}

proof fn marshal_float(w: Answers, cs: Seq<Code>, p: int, cx: Cx, d: int, v: VReg, m: Cpu, val: Value) -> (x:
    Cpu)
    requires
        m.g.len() == 16,
        m.x.len() == 16,
        layout_ok(cx.lay),
        0 <= d <= cx.lay.frame - 16,
        holds(m, cx, v, val),
        type_in(cx, v) matches Some(k) && of_type(k, val),
        home_in(cx, v) is Some && home_in(cx, v)->Some_0 is Xmm,
        marshal(cx, in_frame(d), v) is Ok,
        placed(cs, p, marshal(cx, in_frame(d), v)->Ok_0),
    ensures
        leads(w, cs, p, m, p + marshal(cx, in_frame(d), v)->Ok_0.len(), x),
        words_written(m, x, d, val),
{
    let frag = marshal(cx, in_frame(d), v)->Ok_0;
    reveal_with_fuel(simply, 5);
    let x1 = simple(m, frag[0])->Some_0;
    assert(simply(frag, 1, m) == Some(x1));
    let x2 = simple(x1, frag[1])->Some_0;
    assert(simply(frag, 2, m) == Some(x2));
    let x3 = simple(x2, frag[2])->Some_0;
    assert(simply(frag, 3, m) == Some(x3));
    let x4 = simple(x3, frag[3])->Some_0;
    assert(simply(frag, 4, m) == Some(x4));
    assert(frag.len() == 4);
    simply_goes(w, cs, p, frag, 4, m);
    x4
}

/// The value of a register is written to a place of the frame.
pub proof fn marshal_goes(w: Answers, cs: Seq<Code>, p: int, cx: Cx, d: int, v: VReg, m: Cpu, val: Value) -> (x:
    Cpu)
    requires
        m.g.len() == 16,
        m.x.len() == 16,
        layout_ok(cx.lay),
        0 <= d <= cx.lay.frame - 16,
        holds(m, cx, v, val),
        type_in(cx, v) matches Some(k) && of_type(k, val),
        marshal(cx, in_frame(d), v) is Ok,
        placed(cs, p, marshal(cx, in_frame(d), v)->Ok_0),
    ensures
        leads(w, cs, p, m, p + marshal(cx, in_frame(d), v)->Ok_0.len(), x),
        words_written(m, x, d, val),
{
    match home_in(cx, v) {
        Some(Home::Slot(_)) => marshal_slot(w, cs, p, cx, d, v, m, val),
        Some(Home::Gpr(_)) => marshal_packed(w, cs, p, cx, d, v, m, val),
        _ => marshal_float(w, cs, p, cx, d, v, m, val),
    }
}

/// Writing the words of a local leaves the homes of registers alone.
pub proof fn words_keep(cx: Cx, m: Cpu, x: Cpu, d: int, val: Value, v: VReg, held: Value)
    requires
        layout_ok(cx.lay),
        words_written(m, x, d, val),
        0 <= d,
        d + 16 <= cx.lay.spill_base,
        holds(m, cx, v, held),
    ensures
        holds(x, cx, v, held),
{
    if let Some(Home::Slot(s)) = home_in(cx, v) {
        slot_words(m, cx, s);
    }
    assert(x.g[13] == m.g[13]);
}

proof fn store_local_int(
    w: Answers,
    cs: Seq<Code>,
    p: int,
    cx: Cx,
    idx: u16,
    src: VReg,
    m: Cpu,
    val: Value,
) -> (x: Cpu)
    requires
        m.g.len() == 16,
        m.x.len() == 16,
        layout_ok(cx.lay),
        holds(m, cx, src, val),
        idx < cx.local_types.len(),
        of_type(cx.local_types[idx as int], val),
        cx.local_types[idx as int] == KType::Int,
        store_local(cx, idx, src) is Ok,
        placed(cs, p, store_local(cx, idx, src)->Ok_0),
    ensures
        leads(w, cs, p, m, p + store_local(cx, idx, src)->Ok_0.len(), x),
        words_written(m, x, idx * 16, val),
{
    let c1 = load_int(cx, src)->Ok_0;
    let frag = seq![
        Code::MovMr(local_payload(idx), Gpr(RAX)),
        Code::MovRi(Gpr(RAX), 1),
        Code::MovMr(local_tag(idx), Gpr(RAX)),
    ];
    parted(cs, p, c1, frag);
    load_int_goes(w, cs, p, cx, src, m, val->Int_0);
    let m1 = with_g(m, Gpr(RAX), int_bits(val->Int_0));
    let q = p + c1.len();
    reveal_with_fuel(simply, 4);
    let x1 = simple(m1, frag[0])->Some_0;
    assert(simply(frag, 1, m1) == Some(x1));
    let x2 = simple(x1, frag[1])->Some_0;
    assert(simply(frag, 2, m1) == Some(x2));
    let x3 = simple(x2, frag[2])->Some_0;
    assert(simply(frag, 3, m1) == Some(x3));
    simply_goes(w, cs, q, frag, 3, m1);
    joined(w, cs, p, m, q, m1, q + 3, x3);
    x3
}

proof fn store_local_packed(
    w: Answers,
    cs: Seq<Code>,
    p: int,
    cx: Cx,
    idx: u16,
    src: VReg,
    m: Cpu,
    val: Value,
) -> (x: Cpu)
    requires
        m.g.len() == 16,
        m.x.len() == 16,
        layout_ok(cx.lay),
        holds(m, cx, src, val),
        idx < cx.local_types.len(),
        of_type(cx.local_types[idx as int], val),
        cx.local_types[idx as int] == KType::Bool || cx.local_types[idx as int] == KType::Char,
        store_local(cx, idx, src) is Ok,
        placed(cs, p, store_local(cx, idx, src)->Ok_0),
    ensures
        leads(w, cs, p, m, p + store_local(cx, idx, src)->Ok_0.len(), x),
        words_written(m, x, idx * 16, val),
{
    let c1 = load_tag(cx, src)->Ok_0;
    let frag = seq![
        Code::MovMr(local_tag(idx), Gpr(RAX)),
        Code::AluRr(Alu::Xor, Gpr(RAX), Gpr(RAX)),
        Code::MovMr(local_payload(idx), Gpr(RAX)),
    ];
    parted(cs, p, c1, frag);
    load_tag_goes(w, cs, p, cx, src, m, val);
    let m1 = with_g(m, Gpr(RAX), parts_of(val).0);
    let q = p + c1.len();
    reveal_with_fuel(simply, 4);
    let x1 = simple(m1, frag[0])->Some_0;
    assert(simply(frag, 1, m1) == Some(x1));
    let x2 = simple(x1, frag[1])->Some_0;
    assert(simply(frag, 2, m1) == Some(x2));
    let x3 = simple(x2, frag[2])->Some_0;
    assert(simply(frag, 3, m1) == Some(x3));
    simply_goes(w, cs, q, frag, 3, m1);
    joined(w, cs, p, m, q, m1, q + 3, x3);
    x3
}

proof fn store_local_float(
    w: Answers,
    cs: Seq<Code>,
    p: int,
    cx: Cx,
    idx: u16,
    src: VReg,
    m: Cpu,
    val: Value,
) -> (x: Cpu)
    requires
        m.g.len() == 16,
        m.x.len() == 16,
        layout_ok(cx.lay),
        holds(m, cx, src, val),
        idx < cx.local_types.len(),
        of_type(cx.local_types[idx as int], val),
        cx.local_types[idx as int] == KType::Float,
        store_local(cx, idx, src) is Ok,
        placed(cs, p, store_local(cx, idx, src)->Ok_0),
    ensures
        leads(w, cs, p, m, p + store_local(cx, idx, src)->Ok_0.len(), x),
        words_written(m, x, idx * 16, val),
{
    let c1 = load_float(cx, src)->Ok_0;
    let frag = seq![
        Code::MovRi(Gpr(RAX), 2),
        Code::MovMr(local_tag(idx), Gpr(RAX)),
        Code::MovqGx(Gpr(RAX), Xmm(XMM0)),
        Code::MovMr(local_payload(idx), Gpr(RAX)),
    ];
    parted(cs, p, c1, frag);
    load_float_goes(w, cs, p, cx, src, m, val->Float_0);
    let m1 = with_x(m, Xmm(XMM0), val->Float_0);
    let q = p + c1.len();
    reveal_with_fuel(simply, 5);
    let x1 = simple(m1, frag[0])->Some_0;
    assert(simply(frag, 1, m1) == Some(x1));
    let x2 = simple(x1, frag[1])->Some_0;
    assert(simply(frag, 2, m1) == Some(x2));
    let x3 = simple(x2, frag[2])->Some_0;
    assert(simply(frag, 3, m1) == Some(x3));
    let x4 = simple(x3, frag[3])->Some_0;
    assert(simply(frag, 4, m1) == Some(x4));
    simply_goes(w, cs, q, frag, 4, m1);
    joined(w, cs, p, m, q, m1, q + 4, x4);
    x4
}

/// A local is written.
pub proof fn store_local_goes(
    w: Answers,
    cs: Seq<Code>,
    p: int,
    cx: Cx,
    idx: u16,
    src: VReg,
    m: Cpu,
    val: Value,
) -> (x: Cpu)
    requires
        m.g.len() == 16,
        m.x.len() == 16,
        layout_ok(cx.lay),
        holds(m, cx, src, val),
        idx < cx.local_types.len(),
        of_type(cx.local_types[idx as int], val),
        type_in(cx, src) matches Some(k) && of_type(k, val),
        store_local(cx, idx, src) is Ok,
        placed(cs, p, store_local(cx, idx, src)->Ok_0),
    ensures
        leads(w, cs, p, m, p + store_local(cx, idx, src)->Ok_0.len(), x),
        words_written(m, x, idx * 16, val),
{
    match cx.local_types[idx as int] {
        KType::Int => store_local_int(w, cs, p, cx, idx, src, m, val),
        KType::Bool | KType::Char => store_local_packed(w, cs, p, cx, idx, src, m, val),
        KType::Float => store_local_float(w, cs, p, cx, idx, src, m, val),
        KType::Unknown => marshal_goes(w, cs, p, cx, idx * 16, src, m, val),
    }
}

/// A local is read.
pub proof fn load_local_goes(
    w: Answers,
    cs: Seq<Code>,
    p: int,
    cx: Cx,
    dst: VReg,
    idx: u16,
    m: Cpu,
    val: Value,
) -> (x: Cpu)
    requires
        m.g.len() == 16,
        m.x.len() == 16,
        layout_ok(cx.lay),
        idx < cx.local_types.len(),
        of_type(cx.local_types[idx as int], val),
        m.mem[frame_at(m, idx * 16)] == parts_of(val).0,
        m.mem[frame_at(m, idx * 16 + 8)] == parts_of(val).1,
        sound_home(cx, dst, val),
        load_local(cx, dst, idx) is Ok,
        placed(cs, p, load_local(cx, dst, idx)->Ok_0),
    ensures
        leads(w, cs, p, m, p + load_local(cx, dst, idx)->Ok_0.len(), x),
        stored(cx, m, x, dst, val),
{
    let frag = load_local(cx, dst, idx)->Ok_0;
    let n = frag.len() as int;
    if let Some(Home::Slot(s)) = home_in(cx, dst) {
        slot_words(m, cx, s);
    }
    reveal_with_fuel(simply, 5);
    simply_goes(w, cs, p, frag, n, m);
    simply(frag, n, m)->Some_0
}

} // verus!
