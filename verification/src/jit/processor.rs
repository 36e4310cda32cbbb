//! Generated code on the processor: where it goes, what it leaves in the homes of
//! registers, and what it leaves alone.

use crate::arith::{answer_from, FloatAsk, FloatOp};
use crate::jit::assembler::{Gpr, Xmm};
use crate::jit::code::{bind_of, Alu, Code, Sse};
use crate::jit::frame::{
    home_in, layout_ok, load_float, load_int, load_tag, spill_payload, spill_tag, store_box,
    store_float, store_int, store_tag, Cx,
};
use crate::jit::ir::VReg;
use crate::jit::meaning::{address, bits, meaning, met, with_g, with_x, Cpu, Flags};
use crate::jit::regalloc::Home;
use crate::jit::regs::{R13, RAX, RCX, RDX, RSP};
use crate::jit::value::{int_bits, parts_of};
use crate::jit::xmms::XMM0;
use crate::vm::value::Value;
use crate::vm::world::Answers;
use vstd::prelude::*;

verus! {

// ---------------------------------------------------------------------------
// Steps
// ---------------------------------------------------------------------------

/// The bits of a float result, where they are at hand.
pub open spec fn float_bits(w: Answers, op: FloatOp, x: u64, y: u64) -> Option<u64> {
    answer_from(w.floats, FloatAsk { op, x, y }, 0)
}

/// A processor with a float result in a register.
pub open spec fn with_float(m: Cpu, d: Xmm, r: Option<u64>) -> Option<Cpu> {
    match r {
        Some(b) => Some(with_x(m, d, b)),
        None => None,
    }
}

/// The float operation of an instruction.
pub open spec fn sse_float(op: Sse) -> Option<FloatOp> {
    match op {
        Sse::Add => Some(FloatOp::Add),
        Sse::Sub => Some(FloatOp::Sub),
        Sse::Mul => Some(FloatOp::Mul),
        _ => None,
    }
}

/// What an instruction does that goes on to the next one. Rounded floats are taken
/// from the answers; a float of single precision is held as the double of the same
/// value.
#[verifier::opaque]
pub open spec fn act(w: Answers, m: Cpu, c: Code) -> Option<Cpu> {
    match c {
        Code::SseRr(op, d, s) => match sse_float(op) {
            Some(f) => with_float(m, d, float_bits(w, f, m.x[d.0 as int], m.x[s.0 as int])),
            None => meaning(m, c),
        },
        Code::SseRm(op, d, at) => match sse_float(op) {
            Some(f) => with_float(
                m,
                d,
                float_bits(w, f, m.x[d.0 as int], m.mem[address(m, at)]),
            ),
            None => meaning(m, c),
        },
        Code::Cvtsi2sd(d, s) => with_float(
            m,
            d,
            float_bits(w, FloatOp::FromInt, m.g[s.0 as int], 0),
        ),
        Code::Cvtsd2ss(d, s) => with_float(
            m,
            d,
            float_bits(w, FloatOp::ToSingle, m.x[s.0 as int], 0),
        ),
        Code::Cvtss2sd(d, s) => Some(with_x(m, d, m.x[s.0 as int])),
        Code::MovqXg(d, s) => Some(with_x(m, d, m.g[s.0 as int])),
        Code::MovqGx(d, s) => Some(with_g(m, d, m.x[s.0 as int])),
        Code::Lea(d, at) => Some(with_g(m, d, bits(address(m, at)))),
        Code::Pop(d) => Some(
            with_g(
                with_g(m, d, m.mem[m.g[RSP as int] as int]),
                Gpr(RSP),
                bits(m.g[RSP as int] + 8),
            ),
        ),
        Code::Push(s) => Some(
            Cpu {
                mem: m.mem.insert(bits(m.g[RSP as int] - 8) as int, m.g[s.0 as int]),
                ..with_g(m, Gpr(RSP), bits(m.g[RSP as int] - 8))
            },
        ),
        Code::SubRsp(n) => Some(with_g(m, Gpr(RSP), bits(m.g[RSP as int] - n))),
        Code::Jcc(_, _) | Code::Jmp(_) => None,
        _ => meaning(m, c),
    }
}

/// One instruction at a place, with jumps.
pub open spec fn hop(w: Answers, cs: Seq<Code>, pc: int, m: Cpu) -> Option<(int, Cpu)> {
    if 0 <= pc < cs.len() {
        match cs[pc] {
            Code::Jmp(l) => Some((bind_of(cs, l, 0), m)),
            Code::Jcc(c, l) => if met(m.flags, c) {
                Some((bind_of(cs, l, 0), m))
            } else {
                Some((pc + 1, m))
            },
            c => match act(w, m, c) {
                Some(x) => Some((pc + 1, x)),
                None => None,
            },
        }
    } else {
        None
    }
}

/// `n` instructions from a place on, with jumps.
pub open spec fn hops(w: Answers, cs: Seq<Code>, pc: int, m: Cpu, n: nat) -> Option<(int, Cpu)>
    decreases n,
{
    if n == 0 {
        Some((pc, m))
    } else {
        match hop(w, cs, pc, m) {
            None => None,
            Some((p, x)) => hops(w, cs, p, x, (n - 1) as nat),
        }
    }
}

/// Code leads from one place and state to another.
#[verifier::opaque]
pub open spec fn leads(w: Answers, cs: Seq<Code>, pc: int, m: Cpu, to: int, x: Cpu) -> bool {
    exists|n: nat| #[trigger] hops(w, cs, pc, m, n) == Some((to, x))
}

/// Steps behind steps.
pub proof fn hops_joined(w: Answers, cs: Seq<Code>, pc: int, m: Cpu, n: nat, k: nat)
    requires
        hops(w, cs, pc, m, n) is Some,
    ensures
        hops(w, cs, pc, m, n + k) == hops(
            w,
            cs,
            hops(w, cs, pc, m, n)->Some_0.0,
            hops(w, cs, pc, m, n)->Some_0.1,
            k,
        ),
    decreases n,
{
    if n > 0 {
        let (p, x) = hop(w, cs, pc, m)->Some_0;
        hops_joined(w, cs, p, x, (n - 1) as nat, k);
        assert((n + k - 1) as nat == (n - 1) as nat + k);
    }
}

/// Ways can be joined.
pub proof fn joined(w: Answers, cs: Seq<Code>, p: int, m: Cpu, q: int, x: Cpu, r: int, y: Cpu)
    requires
        leads(w, cs, p, m, q, x),
        leads(w, cs, q, x, r, y),
    ensures
        leads(w, cs, p, m, r, y),
{
    reveal(leads);
    let n = choose|n: nat| #[trigger] hops(w, cs, p, m, n) == Some((q, x));
    let k = choose|k: nat| #[trigger] hops(w, cs, q, x, k) == Some((r, y));
    hops_joined(w, cs, p, m, n, k);
    assert(hops(w, cs, p, m, n + k) == Some((r, y)));
}

/// A piece of code stands at a place.
#[verifier::opaque]
pub open spec fn placed(cs: Seq<Code>, p: int, frag: Seq<Code>) -> bool {
    &&& 0 <= p
    &&& p + frag.len() <= cs.len()
    &&& forall|i: int| 0 <= i < frag.len() ==> #[trigger] cs[p + i] == frag[i]
}

/// The parts of a piece stand behind each other.
pub proof fn parted(cs: Seq<Code>, p: int, a: Seq<Code>, b: Seq<Code>)
    requires
        placed(cs, p, a + b),
    ensures
        placed(cs, p, a),
        placed(cs, p + a.len(), b),
{
    reveal(placed);
    assert forall|i: int| 0 <= i < a.len() implies #[trigger] cs[p + i] == a[i] by {
        assert((a + b)[i] == a[i]);
    }
    assert forall|i: int| 0 <= i < b.len() implies #[trigger] cs[p + a.len() + i] == b[i] by {
        assert((a + b)[a.len() + i] == b[i]);
        assert(cs[p + (a.len() + i)] == (a + b)[a.len() + i]);
    }
}

/// One instruction that goes on to the next one.
pub proof fn one(w: Answers, cs: Seq<Code>, p: int, c: Code, m: Cpu)
    requires
        placed(cs, p, seq![c]),
        act(w, m, c) is Some,
    ensures
        leads(w, cs, p, m, p + 1, act(w, m, c)->Some_0),
{
    steps_on(w, cs, p, seq![c], 0, m);
}

/// Two instructions.
pub proof fn two(w: Answers, cs: Seq<Code>, p: int, c: Code, d: Code, m: Cpu)
    requires
        placed(cs, p, seq![c, d]),
        act(w, m, c) is Some,
        act(w, act(w, m, c)->Some_0, d) is Some,
    ensures
        leads(w, cs, p, m, p + 2, act(w, act(w, m, c)->Some_0, d)->Some_0),
{
    let frag = seq![c, d];
    let x = act(w, m, c)->Some_0;
    let y = act(w, x, d)->Some_0;
    steps_on(w, cs, p, frag, 0, m);
    steps_on(w, cs, p, frag, 1, x);
    joined(w, cs, p, m, p + 1, x, p + 2, y);
}

// ---------------------------------------------------------------------------
// Homes
// ---------------------------------------------------------------------------

/// A general purpose register in which values are kept: not one that code computes
/// in, nor one of those for the stack and the frame.
pub open spec fn keeps_value(g: Gpr) -> bool {
    g.0 < 16 && g.0 != RAX && g.0 != RCX && g.0 != RDX && g.0 != R13 && g.0 != RSP
}

/// The address of a word of the frame.
pub open spec fn frame_at(m: Cpu, disp: int) -> int {
    m.g[R13 as int] + disp
}

/// The word that stands for a value in a general purpose register.
pub open spec fn word_of(v: Value) -> u64 {
    if v is Int {
        parts_of(v).1
    } else {
        parts_of(v).0
    }
}

/// The home of a register holds a value.
pub open spec fn holds(m: Cpu, cx: Cx, v: VReg, val: Value) -> bool {
    match home_in(cx, v) {
        Some(Home::Gpr(g)) => keeps_value(g) && m.g[g.0 as int] == word_of(val) && (val is Int
            || val is Bool || val is Char),
        Some(Home::Xmm(x)) => 0 < x.0 < 16 && val is Float && m.x[x.0 as int] == parts_of(val).1,
        Some(Home::Slot(s)) => m.mem[frame_at(m, cx.lay.spill_base + s * 16)] == parts_of(val).0
            && m.mem[frame_at(m, cx.lay.spill_base + s * 16 + 8)] == parts_of(val).1,
        None => false,
    }
}

/// A home in which a value can be kept.
pub open spec fn sound_home(cx: Cx, v: VReg, val: Value) -> bool {
    match home_in(cx, v) {
        Some(Home::Gpr(g)) => keeps_value(g) && (val is Int || val is Bool || val is Char),
        Some(Home::Xmm(x)) => 0 < x.0 < 16 && val is Float,
        Some(Home::Slot(_)) => true,
        None => false,
    }
}

/// An address belongs to the slot of a register.
pub open spec fn in_slot(m: Cpu, cx: Cx, v: Option<VReg>, a: int) -> bool {
    v matches Some(r) && (home_in(cx, r) matches Some(Home::Slot(s)) && (a == frame_at(
        m,
        cx.lay.spill_base + s * 16,
    ) || a == frame_at(m, cx.lay.spill_base + s * 16 + 8)))
}

/// An address belongs to the part of the frame for arguments and the zero.
pub open spec fn in_scratch(m: Cpu, cx: Cx, a: int) -> bool {
    frame_at(m, cx.lay.marshal_base as int) <= a < frame_at(m, cx.lay.nf_slot as int)
}

/// Only the registers in which code computes, the scratch part of the frame, and the
/// home of `dst` have changed.
pub open spec fn only(cx: Cx, m: Cpu, x: Cpu, dst: Option<VReg>) -> bool {
    &&& m.g.len() == 16
    &&& m.x.len() == 16
    &&& x.g.len() == 16
    &&& x.x.len() == 16
    &&& forall|r: int|
        2 < r < 16 && !(dst matches Some(d) && home_in(cx, d) == Some(Home::Gpr(Gpr(r as u8))))
            ==> #[trigger] x.g[r] == m.g[r]
    &&& forall|r: int|
        0 < r < 16 && !(dst matches Some(d) && home_in(cx, d) == Some(Home::Xmm(Xmm(r as u8))))
            ==> #[trigger] x.x[r] == m.x[r]
    &&& forall|a: int|
        !in_scratch(m, cx, a) && !in_slot(m, cx, dst, a) ==> #[trigger] x.mem[a] == m.mem[a]
    &&& x.g[R13 as int] == m.g[R13 as int]
}

/// Changes of the registers in which code computes alone.
pub open spec fn only_scratch(m: Cpu, x: Cpu) -> bool {
    &&& m.g.len() == 16
    &&& m.x.len() == 16
    &&& x.g.len() == 16
    &&& x.x.len() == 16
    &&& forall|r: int| 2 < r < 16 ==> #[trigger] x.g[r] == m.g[r]
    &&& forall|r: int| 0 < r < 16 ==> #[trigger] x.x[r] == m.x[r]
    &&& x.mem == m.mem
}

/// What a register holds is not lost where code only computes.
pub proof fn scratch_keeps(cx: Cx, m: Cpu, x: Cpu, v: VReg, val: Value)
    requires
        only_scratch(m, x),
        holds(m, cx, v, val),
    ensures
        holds(x, cx, v, val),
{
}

/// What follows computing changes no more than it does by itself.
pub proof fn only_after(cx: Cx, m: Cpu, x: Cpu, y: Cpu, dst: Option<VReg>)
    requires
        only_scratch(m, x),
        only(cx, x, y, dst),
    ensures
        only(cx, m, y, dst),
{
    assert forall|a: int| !in_scratch(m, cx, a) && !in_slot(m, cx, dst, a) implies
        #[trigger] y.mem[a] == m.mem[a] by {
        assert(x.g[13] == m.g[13]);
    }
    assert forall|r: int|
        2 < r < 16 && !(dst matches Some(d) && home_in(cx, d) == Some(Home::Gpr(Gpr(r as u8))))
        implies #[trigger] y.g[r] == m.g[r] by {
        assert(x.g[r] == m.g[r]);
    }
    assert forall|r: int|
        0 < r < 16 && !(dst matches Some(d) && home_in(cx, d) == Some(Home::Xmm(Xmm(r as u8))))
        implies #[trigger] y.x[r] == m.x[r] by {
        assert(x.x[r] == m.x[r]);
    }
}

/// Computing after computing.
pub proof fn scratch_after(m: Cpu, x: Cpu, y: Cpu)
    requires
        only_scratch(m, x),
        only_scratch(x, y),
    ensures
        only_scratch(m, y),
{
    assert forall|r: int| 2 < r < 16 implies #[trigger] y.g[r] == m.g[r] by {
        assert(x.g[r] == m.g[r]);
    }
    assert forall|r: int| 0 < r < 16 implies #[trigger] y.x[r] == m.x[r] by {
        assert(x.x[r] == m.x[r]);
    }
}

/// Where the words of a slot are.
pub proof fn slot_words(m: Cpu, cx: Cx, s: usize)
    requires
        layout_ok(cx.lay),
        s < cx.lay.slots,
    ensures
        address(m, spill_tag(cx.lay, s)) == frame_at(m, cx.lay.spill_base + s * 16),
        address(m, spill_payload(cx.lay, s)) == frame_at(m, cx.lay.spill_base + s * 16 + 8),
        cx.lay.spill_base > cx.lay.nf_slot,
{
    let d = cx.lay.spill_base + s * 16;
    assert(0 <= d && d + 16 <= cx.lay.frame) by (nonlinear_arith)
        requires
            d == cx.lay.spill_base + s * 16,
            s < cx.lay.slots,
            cx.lay.frame == cx.lay.spill_base + cx.lay.slots * 16,
            cx.lay.spill_base >= 0,
    ;
}

// ---------------------------------------------------------------------------
// Loads and stores
// ---------------------------------------------------------------------------

/// An integer is loaded into `rax`.
pub proof fn load_int_goes(w: Answers, cs: Seq<Code>, p: int, cx: Cx, v: VReg, m: Cpu, n: i64)
    requires
        m.g.len() == 16,
        layout_ok(cx.lay),
        holds(m, cx, v, Value::Int(n)),
        load_int(cx, v) is Ok,
        placed(cs, p, load_int(cx, v)->Ok_0),
    ensures
        leads(
            w,
            cs,
            p,
            m,
            p + load_int(cx, v)->Ok_0.len(),
            with_g(m, Gpr(RAX), int_bits(n)),
        ),
{
    match home_in(cx, v) {
        Some(Home::Gpr(g)) => {
            simple_acts(w, m, Code::MovRr(Gpr(RAX), g));
            one(w, cs, p, Code::MovRr(Gpr(RAX), g), m);
        },
        Some(Home::Slot(s)) => {
            slot_words(m, cx, s);
            simple_acts(w, m, Code::MovRm(Gpr(RAX), spill_payload(cx.lay, s)));
            one(w, cs, p, Code::MovRm(Gpr(RAX), spill_payload(cx.lay, s)), m);
        },
        _ => {},
    }
}

/// A tag word is loaded into `rax`.
pub proof fn load_tag_goes(w: Answers, cs: Seq<Code>, p: int, cx: Cx, v: VReg, m: Cpu, val: Value)
    requires
        m.g.len() == 16,
        layout_ok(cx.lay),
        holds(m, cx, v, val),
        val is Bool || val is Char,
        load_tag(cx, v) is Ok,
        placed(cs, p, load_tag(cx, v)->Ok_0),
    ensures
        leads(
            w,
            cs,
            p,
            m,
            p + load_tag(cx, v)->Ok_0.len(),
            with_g(m, Gpr(RAX), parts_of(val).0),
        ),
{
    match home_in(cx, v) {
        Some(Home::Gpr(g)) => {
            simple_acts(w, m, Code::MovRr(Gpr(RAX), g));
            one(w, cs, p, Code::MovRr(Gpr(RAX), g), m);
        },
        Some(Home::Slot(s)) => {
            slot_words(m, cx, s);
            simple_acts(w, m, Code::MovRm(Gpr(RAX), spill_tag(cx.lay, s)));
            one(w, cs, p, Code::MovRm(Gpr(RAX), spill_tag(cx.lay, s)), m);
        },
        _ => {},
    }
}

/// A double is loaded into `xmm0`.
pub proof fn load_float_goes(w: Answers, cs: Seq<Code>, p: int, cx: Cx, v: VReg, m: Cpu, f: u64)
    requires
        m.g.len() == 16,
        layout_ok(cx.lay),
        holds(m, cx, v, Value::Float(f)),
        load_float(cx, v) is Ok,
        placed(cs, p, load_float(cx, v)->Ok_0),
    ensures
        leads(w, cs, p, m, p + load_float(cx, v)->Ok_0.len(), with_x(m, Xmm(XMM0), f)),
{
    match home_in(cx, v) {
        Some(Home::Xmm(x)) => {
            simple_acts(w, m, Code::SseRr(Sse::Move, Xmm(XMM0), x));
            one(w, cs, p, Code::SseRr(Sse::Move, Xmm(XMM0), x), m);
        },
        Some(Home::Slot(s)) => {
            slot_words(m, cx, s);
            simple_acts(w, m, Code::SseRm(Sse::Move, Xmm(XMM0), spill_payload(cx.lay, s)));
            one(w, cs, p, Code::SseRm(Sse::Move, Xmm(XMM0), spill_payload(cx.lay, s)), m);
        },
        _ => {},
    }
}

/// A register has got a value, and nothing else has changed.
pub open spec fn stored(cx: Cx, m: Cpu, x: Cpu, dst: VReg, val: Value) -> bool {
    only(cx, m, x, Some(dst)) && holds(x, cx, dst, val)
}

/// An integer is stored from `rax`.
pub proof fn store_int_goes(w: Answers, cs: Seq<Code>, p: int, cx: Cx, dst: VReg, m: Cpu, n: i64) -> (x:
    Cpu)
    requires
        m.g.len() == 16,
        m.x.len() == 16,
        layout_ok(cx.lay),
        m.g[0] == int_bits(n),
        sound_home(cx, dst, Value::Int(n)),
        store_int(cx, dst) is Ok,
        placed(cs, p, store_int(cx, dst)->Ok_0),
    ensures
        leads(w, cs, p, m, p + store_int(cx, dst)->Ok_0.len(), x),
        stored(cx, m, x, dst, Value::Int(n)),
{
    reveal(act);
    reveal(placed);
    reveal(leads);
    match home_in(cx, dst) {
        Some(Home::Gpr(h)) => {
            one(w, cs, p, Code::MovRr(h, Gpr(RAX)), m);
            with_g(m, h, int_bits(n))
        },
        Some(Home::Slot(s)) => {
            slot_words(m, cx, s);
            let a = spill_payload(cx.lay, s);
            let b = spill_tag(cx.lay, s);
            let frag = store_int(cx, dst)->Ok_0;
            let m1 = Cpu { mem: m.mem.insert(address(m, a), m.g[0]), ..m };
            let m2 = with_g(m1, Gpr(RAX), int_bits(1));
            let m3 = Cpu { mem: m2.mem.insert(address(m2, b), m2.g[0]), ..m2 };
            assert(cs[p + 0] == frag[0]);
            assert(cs[p + 1] == frag[1]);
            assert(cs[p + 2] == frag[2]);
            assert(hop(w, cs, p, m) == Some((p + 1, m1)));
            assert(hop(w, cs, p + 1, m1) == Some((p + 2, m2)));
            assert(hop(w, cs, p + 2, m2) == Some((p + 3, m3)));
            reveal_with_fuel(hops, 4);
            assert(hops(w, cs, p, m, 3) == Some((p + 3, m3)));
            m3
        },
        _ => m,
    }
}

/// A tag word is stored from `rax`.
pub proof fn store_tag_goes(w: Answers, cs: Seq<Code>, p: int, cx: Cx, dst: VReg, m: Cpu, val: Value) -> (x:
    Cpu)
    requires
        m.g.len() == 16,
        m.x.len() == 16,
        layout_ok(cx.lay),
        m.g[0] == parts_of(val).0,
        val is Bool || val is Char,
        sound_home(cx, dst, val),
        store_tag(cx, dst) is Ok,
        placed(cs, p, store_tag(cx, dst)->Ok_0),
    ensures
        leads(w, cs, p, m, p + store_tag(cx, dst)->Ok_0.len(), x),
        stored(cx, m, x, dst, val),
{
    reveal(act);
    reveal(placed);
    reveal(leads);
    match home_in(cx, dst) {
        Some(Home::Gpr(h)) => {
            one(w, cs, p, Code::MovRr(h, Gpr(RAX)), m);
            with_g(m, h, m.g[0])
        },
        Some(Home::Slot(s)) => {
            slot_words(m, cx, s);
            let a = spill_payload(cx.lay, s);
            let b = spill_tag(cx.lay, s);
            let frag = store_tag(cx, dst)->Ok_0;
            let m1 = Cpu { mem: m.mem.insert(address(m, b), m.g[0]), ..m };
            let m2 = act(w, m1, Code::AluRr(Alu::Xor, Gpr(RAX), Gpr(RAX)))->Some_0;
            let t = m.g[0];
            assert(t ^ t == 0) by (bit_vector);
            let m3 = Cpu { mem: m2.mem.insert(address(m2, a), m2.g[0]), ..m2 };
            assert(cs[p + 0] == frag[0]);
            assert(cs[p + 1] == frag[1]);
            assert(cs[p + 2] == frag[2]);
            assert(hop(w, cs, p, m) == Some((p + 1, m1)));
            assert(hop(w, cs, p + 1, m1) == Some((p + 2, m2)));
            assert(hop(w, cs, p + 2, m2) == Some((p + 3, m3)));
            reveal_with_fuel(hops, 4);
            assert(hops(w, cs, p, m, 3) == Some((p + 3, m3)));
            m3
        },
        _ => m,
    }
}

/// A double is stored from `xmm0`.
pub proof fn store_float_goes(w: Answers, cs: Seq<Code>, p: int, cx: Cx, dst: VReg, m: Cpu, f: u64) -> (x:
    Cpu)
    requires
        m.g.len() == 16,
        m.x.len() == 16,
        layout_ok(cx.lay),
        m.x[0] == f,
        sound_home(cx, dst, Value::Float(f)),
        store_float(cx, dst) is Ok,
        placed(cs, p, store_float(cx, dst)->Ok_0),
    ensures
        leads(w, cs, p, m, p + store_float(cx, dst)->Ok_0.len(), x),
        stored(cx, m, x, dst, Value::Float(f)),
{
    reveal(act);
    reveal(placed);
    reveal(leads);
    match home_in(cx, dst) {
        Some(Home::Xmm(h)) => {
            one(w, cs, p, Code::SseRr(Sse::Move, h, Xmm(XMM0)), m);
            with_x(m, h, f)
        },
        Some(Home::Slot(s)) => {
            slot_words(m, cx, s);
            let a = spill_payload(cx.lay, s);
            let b = spill_tag(cx.lay, s);
            let frag = store_float(cx, dst)->Ok_0;
            let m1 = with_g(m, Gpr(RAX), int_bits(2));
            let m2 = Cpu { mem: m1.mem.insert(address(m1, b), m1.g[0]), ..m1 };
            let m3 = with_g(m2, Gpr(RAX), f);
            let m4 = Cpu { mem: m3.mem.insert(address(m3, a), m3.g[0]), ..m3 };
            assert(cs[p + 0] == frag[0]);
            assert(cs[p + 1] == frag[1]);
            assert(cs[p + 2] == frag[2]);
            assert(cs[p + 3] == frag[3]);
            assert(hop(w, cs, p, m) == Some((p + 1, m1)));
            assert(hop(w, cs, p + 1, m1) == Some((p + 2, m2)));
            assert(hop(w, cs, p + 2, m2) == Some((p + 3, m3)));
            assert(hop(w, cs, p + 3, m3) == Some((p + 4, m4)));
            reveal_with_fuel(hops, 5);
            assert(hops(w, cs, p, m, 4) == Some((p + 4, m4)));
            m4
        },
        _ => m,
    }
}

/// A constant without payload is written into a slot.
pub proof fn store_box_goes(w: Answers, cs: Seq<Code>, p: int, cx: Cx, dst: VReg, m: Cpu, val: Value) -> (x:
    Cpu)
    requires
        m.g.len() == 16,
        m.x.len() == 16,
        layout_ok(cx.lay),
        val is Null || val is Unit,
        store_box(cx, dst, (parts_of(val).0 as i64)) is Ok,
        placed(cs, p, store_box(cx, dst, (parts_of(val).0 as i64))->Ok_0),
    ensures
        leads(w, cs, p, m, p + store_box(cx, dst, (parts_of(val).0 as i64))->Ok_0.len(), x),
        stored(cx, m, x, dst, val),
{
    reveal(act);
    reveal(placed);
    reveal(leads);
    let tag = parts_of(val).0 as i64;
    match home_in(cx, dst) {
        Some(Home::Slot(s)) => {
            slot_words(m, cx, s);
            let a = spill_payload(cx.lay, s);
            let b = spill_tag(cx.lay, s);
            let frag = store_box(cx, dst, tag)->Ok_0;
            let m1 = with_g(m, Gpr(RAX), int_bits(tag));
            let m2 = Cpu { mem: m1.mem.insert(address(m1, b), m1.g[0]), ..m1 };
            let m3 = act(w, m2, Code::AluRr(Alu::Xor, Gpr(RAX), Gpr(RAX)))->Some_0;
            let t = m2.g[0];
            assert(t ^ t == 0) by (bit_vector);
            let m4 = Cpu { mem: m3.mem.insert(address(m3, a), m3.g[0]), ..m3 };
            assert(cs[p + 0] == frag[0]);
            assert(cs[p + 1] == frag[1]);
            assert(cs[p + 2] == frag[2]);
            assert(cs[p + 3] == frag[3]);
            assert(hop(w, cs, p, m) == Some((p + 1, m1)));
            assert(hop(w, cs, p + 1, m1) == Some((p + 2, m2)));
            assert(hop(w, cs, p + 2, m2) == Some((p + 3, m3)));
            assert(hop(w, cs, p + 3, m3) == Some((p + 4, m4)));
            reveal_with_fuel(hops, 5);
            assert(hops(w, cs, p, m, 4) == Some((p + 4, m4)));
            m4
        },
        _ => m,
    }
}

// ---------------------------------------------------------------------------
// Straight code
// ---------------------------------------------------------------------------

/// What an instruction does that only moves words.
pub open spec fn simple(m: Cpu, c: Code) -> Option<Cpu> {
    match c {
        Code::MovRr(d, s) => Some(with_g(m, d, m.g[s.0 as int])),
        Code::MovRi(d, v) => Some(with_g(m, d, int_bits(v))),
        Code::Movabs(d, v) => Some(with_g(m, d, v)),
        Code::MovRm(d, at) => Some(with_g(m, d, m.mem[address(m, at)])),
        Code::MovMr(at, s) => Some(
            Cpu { mem: m.mem.insert(address(m, at), m.g[s.0 as int]), ..m },
        ),
        Code::SseRr(Sse::Move, d, s) => Some(with_x(m, d, m.x[s.0 as int])),
        Code::SseRm(Sse::Move, d, at) => Some(with_x(m, d, m.mem[address(m, at)])),
        Code::MovqXg(d, s) => Some(with_x(m, d, m.g[s.0 as int])),
        Code::MovqGx(d, s) => Some(with_g(m, d, m.x[s.0 as int])),
        Code::AluRr(Alu::Xor, d, s) => if d == s {
            Some(Cpu { flags: Flags::Result(0, false), ..with_g(m, d, 0) })
        } else {
            None
        },
        _ => None,
    }
}

/// Such an instruction does that.
pub proof fn simple_acts(w: Answers, m: Cpu, c: Code)
    requires
        simple(m, c) is Some,
    ensures
        act(w, m, c) == simple(m, c),
{
    reveal(act);
    if let Code::AluRr(_, d, _) = c {
        let v = m.g[d.0 as int];
        assert(v ^ v == 0) by (bit_vector);
    }
}

/// What instructions do one after the other that only move words.
pub open spec fn simply(frag: Seq<Code>, n: int, m: Cpu) -> Option<Cpu>
    decreases n,
{
    if n <= 0 {
        Some(m)
    } else {
        match simply(frag, n - 1, m) {
            None => None,
            Some(x) => simple(x, frag[n - 1]),
        }
    }
}

/// Such code goes through to its end.
pub proof fn simply_goes(w: Answers, cs: Seq<Code>, p: int, frag: Seq<Code>, n: int, m: Cpu)
    requires
        placed(cs, p, frag),
        0 <= n <= frag.len(),
        simply(frag, n, m) is Some,
    ensures
        leads(w, cs, p, m, p + n, simply(frag, n, m)->Some_0),
    decreases n,
{
    if n > 0 {
        simply_goes(w, cs, p, frag, n - 1, m);
        let x = simply(frag, n - 1, m)->Some_0;
        let y = simply(frag, n, m)->Some_0;
        simple_acts(w, x, frag[n - 1]);
        steps_on(w, cs, p, frag, n - 1, x);
        joined(w, cs, p, m, p + n - 1, x, p + n, y);
    } else {
        stays(w, cs, p, m);
    }
}

/// No step leads nowhere else.
pub proof fn stays(w: Answers, cs: Seq<Code>, p: int, m: Cpu)
    ensures
        leads(w, cs, p, m, p, m),
{
    reveal(leads);
    assert(hops(w, cs, p, m, 0) == Some((p, m)));
}

/// The instruction with number `i` of a piece of code leads to the next one.
pub proof fn steps_on(w: Answers, cs: Seq<Code>, p: int, frag: Seq<Code>, i: int, m: Cpu)
    requires
        placed(cs, p, frag),
        0 <= i < frag.len(),
        act(w, m, frag[i]) is Some,
    ensures
        leads(w, cs, p + i, m, p + i + 1, act(w, m, frag[i])->Some_0),
{
    reveal(placed);
    reveal(leads);
    reveal(act);
    let x = act(w, m, frag[i])->Some_0;
    assert(cs[p + i] == frag[i]);
    assert(hop(w, cs, p + i, m) == Some((p + i + 1, x)));
    reveal_with_fuel(hops, 2);
    assert(hops(w, cs, p + i, m, 1) == Some((p + i + 1, x)));
}

/// Computing is a change that concerns no register.
pub proof fn scratch_is_only(cx: Cx, m: Cpu, x: Cpu)
    requires
        only_scratch(m, x),
    ensures
        only(cx, m, x, None),
{
    assert(x.g[13] == m.g[13]);
}

/// Changes behind changes that concern no register.
pub proof fn only_then(cx: Cx, m: Cpu, x: Cpu, y: Cpu, dst: Option<VReg>)
    requires
        only(cx, m, x, None),
        only(cx, x, y, dst),
    ensures
        only(cx, m, y, dst),
{
    assert forall|a: int| !in_scratch(m, cx, a) && !in_slot(m, cx, dst, a) implies
        #[trigger] y.mem[a] == m.mem[a] by {
        assert(!in_slot(m, cx, None, a));
        assert(x.mem[a] == m.mem[a]);
    }
    assert forall|r: int|
        2 < r < 16 && !(dst matches Some(d) && home_in(cx, d) == Some(Home::Gpr(Gpr(r as u8))))
        implies #[trigger] y.g[r] == m.g[r] by {
        assert(x.g[r] == m.g[r]);
    }
    assert forall|r: int|
        0 < r < 16 && !(dst matches Some(d) && home_in(cx, d) == Some(Home::Xmm(Xmm(r as u8))))
        implies #[trigger] y.x[r] == m.x[r] by {
        assert(x.x[r] == m.x[r]);
    }
}

/// An integer that was computed into `rax` is stored.
pub proof fn finish_int(w: Answers, cs: Seq<Code>, p: int, q: int, cx: Cx, dst: VReg, m: Cpu, x: Cpu, n: i64) -> (r:
    Cpu)
    requires
        layout_ok(cx.lay),
        leads(w, cs, p, m, q, x),
        only(cx, m, x, None),
        x.g[0] == int_bits(n),
        sound_home(cx, dst, Value::Int(n)),
        store_int(cx, dst) is Ok,
        placed(cs, q, store_int(cx, dst)->Ok_0),
    ensures
        leads(w, cs, p, m, q + store_int(cx, dst)->Ok_0.len(), r),
        stored(cx, m, r, dst, Value::Int(n)),
{
    let r = store_int_goes(w, cs, q, cx, dst, x, n);
    joined(w, cs, p, m, q, x, q + store_int(cx, dst)->Ok_0.len(), r);
    only_then(cx, m, x, r, Some(dst));
    r
}

/// A tag word that was computed into `rax` is stored.
pub proof fn finish_tag(w: Answers, cs: Seq<Code>, p: int, q: int, cx: Cx, dst: VReg, m: Cpu, x: Cpu, v: Value) -> (r:
    Cpu)
    requires
        layout_ok(cx.lay),
        leads(w, cs, p, m, q, x),
        only(cx, m, x, None),
        v is Bool || v is Char,
        x.g[0] == parts_of(v).0,
        sound_home(cx, dst, v),
        store_tag(cx, dst) is Ok,
        placed(cs, q, store_tag(cx, dst)->Ok_0),
    ensures
        leads(w, cs, p, m, q + store_tag(cx, dst)->Ok_0.len(), r),
        stored(cx, m, r, dst, v),
{
    let r = store_tag_goes(w, cs, q, cx, dst, x, v);
    joined(w, cs, p, m, q, x, q + store_tag(cx, dst)->Ok_0.len(), r);
    only_then(cx, m, x, r, Some(dst));
    r
}

/// A double that was computed into `xmm0` is stored.
pub proof fn finish_float(w: Answers, cs: Seq<Code>, p: int, q: int, cx: Cx, dst: VReg, m: Cpu, x: Cpu, f: u64) -> (r:
    Cpu)
    requires
        layout_ok(cx.lay),
        leads(w, cs, p, m, q, x),
        only(cx, m, x, None),
        x.x[0] == f,
        sound_home(cx, dst, Value::Float(f)),
        store_float(cx, dst) is Ok,
        placed(cs, q, store_float(cx, dst)->Ok_0),
    ensures
        leads(w, cs, p, m, q + store_float(cx, dst)->Ok_0.len(), r),
        stored(cx, m, r, dst, Value::Float(f)),
{
    let r = store_float_goes(w, cs, q, cx, dst, x, f);
    joined(w, cs, p, m, q, x, q + store_float(cx, dst)->Ok_0.len(), r);
    only_then(cx, m, x, r, Some(dst));
    r
}

/// A register in which code computes has other bits.
pub proof fn g_is_scratch(m: Cpu, r: u8, v: u64)
    requires
        m.g.len() == 16,
        m.x.len() == 16,
        r <= 2,
    ensures
        only_scratch(m, with_g(m, Gpr(r), v)),
{
}

/// The float register in which code computes has other bits.
pub proof fn x_is_scratch(m: Cpu, v: u64)
    requires
        m.g.len() == 16,
        m.x.len() == 16,
    ensures
        only_scratch(m, with_x(m, Xmm(XMM0), v)),
{
}

} // verus!
