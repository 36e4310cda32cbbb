//! How generated code is entered and left: the prologue hands the arguments over to the
//! local slots, and the epilogue gives back the registers that the prologue saved.

use crate::jit::assembler::{Cond, Gpr, Mem};
use crate::jit::code::{bind_of, bind_unique, well_labelled, Alu, Code};
use crate::jit::codegen::{copy_params, epilogue, prologue, EPILOGUE_LABEL, NF_FRAME_BASE};
use crate::jit::frame::{in_frame, layout_ok, Cx};
use crate::jit::meaning::{met, with_g, Cpu};
use crate::jit::plain::locals_held;
use crate::jit::processor::{
    act, frame_at, hop, hops, joined, leads, parted, placed, simple_acts, steps_on,
};
use crate::jit::regs::{R11, R13, R14, R15, RAX, RBP, RBX, RCX, RDI, RSI, RSP};
use crate::jit::value::parts_of;
use crate::vm::value::Value;
use crate::vm::world::Answers;
use vstd::prelude::*;

verus! {

/// The two words of argument `k`, which stand behind each other from `rsi` on.
pub open spec fn argument_words(m: Cpu, k: int) -> (u64, u64) {
    (m.mem[m.g[RSI as int] + k * 16], m.mem[m.g[RSI as int] + k * 16 + 8])
}

/// Where the frame starts: below the five registers that are saved.
pub open spec fn frame_start(cx: Cx, m: Cpu) -> int {
    m.g[RSP as int] - 40 - cx.lay.frame
}

/// A state in which a function may be entered: there is room for the frame below the
/// stack pointer, and neither the arguments nor the native frame lie in it.
pub open spec fn enterable(cx: Cx, params: u16, m: Cpu) -> bool {
    let argv = m.g[RSI as int] as int;
    let published = m.g[RDI as int] + NF_FRAME_BASE;
    &&& m.g.len() == 16
    &&& m.x.len() == 16
    &&& layout_ok(cx.lay)
    &&& params <= cx.lay.locals
    &&& frame_start(cx, m) >= 0
    &&& argv + params * 16 <= u64::MAX
    &&& argv + params * 16 <= frame_start(cx, m) || argv >= m.g[RSP as int]
    &&& published + 8 <= frame_start(cx, m) || published >= m.g[RSP as int]
    &&& published + 8 <= argv || published >= argv + params * 16
}

/// The words of a slot of the frame.
pub open spec fn slot_words_at(m: Cpu, k: int) -> (u64, u64) {
    (m.mem[frame_at(m, k * 16)], m.mem[frame_at(m, k * 16 + 8)])
}

/// The registers that the caller wants back are on the stack below `top`.
pub open spec fn saved_below(m: Cpu, top: int, x: Cpu) -> bool {
    &&& x.mem[top - 8] == m.g[RBP as int]
    &&& x.mem[top - 16] == m.g[R13 as int]
    &&& x.mem[top - 24] == m.g[R14 as int]
    &&& x.mem[top - 32] == m.g[R15 as int]
    &&& x.mem[top - 40] == m.g[RBX as int]
}

proof fn push_acts(w: Answers, m: Cpu, r: Gpr)
    requires
        m.g.len() == 16,
        m.g[4] >= 8,
    ensures
        act(w, m, Code::Push(r)) == Some(
            Cpu {
                mem: m.mem.insert(m.g[4] - 8, m.g[r.0 as int]),
                ..with_g(m, Gpr(RSP), (m.g[4] - 8) as u64)
            },
        ),
{
    reveal(act);
    assert((m.g[4] - 8) % crate::jit::meaning::words() == m.g[4] - 8);
}

proof fn room_acts(w: Answers, m: Cpu, n: u32)
    requires
        m.g.len() == 16,
        m.g[4] >= n,
    ensures
        act(w, m, Code::SubRsp(n)) == Some(with_g(m, Gpr(RSP), (m.g[4] - n) as u64)),
{
    reveal(act);
    assert((m.g[4] - n) % crate::jit::meaning::words() == m.g[4] - n);
}

proof fn add_acts(w: Answers, m: Cpu, r: Gpr, v: i32) -> (x: Cpu)
    requires
        m.g.len() == 16,
        r.0 < 16,
        0 <= v,
        m.g[r.0 as int] + v <= u64::MAX,
    ensures
        act(w, m, Code::AluRi(Alu::Add, r, v)) == Some(x),
        x.g == m.g.update(r.0 as int, (m.g[r.0 as int] + v) as u64),
        x.x == m.x,
        x.mem == m.mem,
{
    reveal(act);
    let s = m.g[r.0 as int] + v;
    assert(s % crate::jit::meaning::words() == s);
    act(w, m, Code::AluRi(Alu::Add, r, v))->Some_0
}

/// The instructions in front of the copy loop.
spec fn opening(cx: Cx) -> Seq<Code> {
    seq![
        Code::Push(Gpr(RBP)),
        Code::MovRr(Gpr(RBP), Gpr(RSP)),
        Code::Push(Gpr(R13)),
        Code::Push(Gpr(R14)),
        Code::Push(Gpr(R15)),
        Code::Push(Gpr(RBX)),
        Code::SubRsp(cx.lay.frame as u32),
        Code::MovRr(Gpr(R13), Gpr(RSP)),
        Code::MovMr(in_frame(cx.lay.nf_slot as int), Gpr(RDI)),
        Code::MovMr((Mem { base: Gpr(RDI), disp: NF_FRAME_BASE }), Gpr(R13)),
    ]
}

proof fn saving_goes(w: Answers, cs: Seq<Code>, p: int, cx: Cx, m: Cpu) -> (r: Cpu)
    requires
        m.g.len() == 16,
        m.x.len() == 16,
        m.g[4] >= 40,
        placed(cs, p, opening(cx)),
    ensures
        leads(w, cs, p, m, p + 6, r),
        r.g == m.g.update(5, (m.g[4] - 8) as u64).update(4, (m.g[4] - 40) as u64),
        r.x == m.x,
        saved_below(m, m.g[4] as int, r),
        forall|a: int| a < m.g[4] - 40 || a >= m.g[4] ==> #[trigger] r.mem[a] == m.mem[a],
{
    let f = opening(cx);
    push_acts(w, m, Gpr(RBP));
    let x1 = act(w, m, f[0])->Some_0;
    steps_on(w, cs, p, f, 0, m);
    simple_acts(w, x1, f[1]);
    let x2 = act(w, x1, f[1])->Some_0;
    steps_on(w, cs, p, f, 1, x1);
    joined(w, cs, p, m, p + 1, x1, p + 2, x2);
    push_acts(w, x2, Gpr(R13));
    let x3 = act(w, x2, f[2])->Some_0;
    steps_on(w, cs, p, f, 2, x2);
    joined(w, cs, p, m, p + 2, x2, p + 3, x3);
    push_acts(w, x3, Gpr(R14));
    let x4 = act(w, x3, f[3])->Some_0;
    steps_on(w, cs, p, f, 3, x3);
    joined(w, cs, p, m, p + 3, x3, p + 4, x4);
    push_acts(w, x4, Gpr(R15));
    let x5 = act(w, x4, f[4])->Some_0;
    steps_on(w, cs, p, f, 4, x4);
    joined(w, cs, p, m, p + 4, x4, p + 5, x5);
    push_acts(w, x5, Gpr(RBX));
    let x6 = act(w, x5, f[5])->Some_0;
    steps_on(w, cs, p, f, 5, x5);
    joined(w, cs, p, m, p + 5, x5, p + 6, x6);
    assert(x6.g =~= m.g.update(5, (m.g[4] - 8) as u64).update(4, (m.g[4] - 40) as u64));
    x6
}

proof fn opening_goes(w: Answers, cs: Seq<Code>, p: int, cx: Cx, params: u16, m: Cpu) -> (r: Cpu)
    requires
        enterable(cx, params, m),
        placed(cs, p, opening(cx)),
    ensures
        leads(w, cs, p, m, p + 10, r),
        r.g.len() == 16,
        r.x == m.x,
        r.g[4] == frame_start(cx, m),
        r.g[13] == frame_start(cx, m),
        r.g[6] == m.g[6],
        r.g[7] == m.g[7],
        saved_below(m, m.g[4] as int, r),
        r.mem[frame_at(r, cx.lay.nf_slot as int)] == m.g[7],
        r.mem[m.g[7] + NF_FRAME_BASE] == frame_start(cx, m),
        forall|a: int|
            (a < frame_start(cx, m) || a >= m.g[4]) && a != m.g[7] + NF_FRAME_BASE
                ==> #[trigger] r.mem[a] == m.mem[a],
{
    let f = opening(cx);
    let base = frame_start(cx, m);
    let x6 = saving_goes(w, cs, p, cx, m);
    room_acts(w, x6, cx.lay.frame as u32);
    let x7 = act(w, x6, f[6])->Some_0;
    steps_on(w, cs, p, f, 6, x6);
    joined(w, cs, p, m, p + 6, x6, p + 7, x7);
    assert(x7.g[4] == base && x7.g[7] == m.g[7] && x7.g[6] == m.g[6]);
    simple_acts(w, x7, f[7]);
    let x8 = with_g(x7, Gpr(R13), base as u64);
    steps_on(w, cs, p, f, 7, x7);
    joined(w, cs, p, m, p + 7, x7, p + 8, x8);
    simple_acts(w, x8, f[8]);
    let x9 = Cpu { mem: x8.mem.insert(base + cx.lay.nf_slot, m.g[7]), ..x8 };
    steps_on(w, cs, p, f, 8, x8);
    joined(w, cs, p, m, p + 8, x8, p + 9, x9);
    simple_acts(w, x9, f[9]);
    let x10 = Cpu { mem: x9.mem.insert(m.g[7] + NF_FRAME_BASE, base as u64), ..x9 };
    steps_on(w, cs, p, f, 9, x9);
    joined(w, cs, p, m, p + 9, x9, p + 10, x10);
    x10
}

// ---------------------------------------------------------------------------
// The copy loop
// ---------------------------------------------------------------------------

/// The loop has copied the first `k` arguments of `m`.
spec fn copied(m: Cpu, x: Cpu, k: int) -> bool {
    &&& x.g.len() == 16
    &&& x.x == m.x
    &&& x.g[1] == k
    &&& x.g[11] == m.g[13] + k * 16
    &&& x.g[6] == m.g[6] + k * 16
    &&& x.g[13] == m.g[13]
    &&& x.g[4] == m.g[4]
    &&& x.g[7] == m.g[7]
    &&& forall|j: int|
        #![trigger argument_words(m, j)]
        0 <= j < k ==> slot_words_at(x, j) == argument_words(m, j)
    &&& forall|a: int|
        a < m.g[13] || a >= m.g[13] + k * 16 ==> #[trigger] x.mem[a] == m.mem[a]
}

/// The arguments are not in the slots into which they are copied.
spec fn copyable(params: u16, m: Cpu) -> bool {
    &&& m.g.len() == 16
    &&& m.x.len() == 16
    &&& m.g[6] + params * 16 <= u64::MAX
    &&& m.g[13] + params * 16 <= u64::MAX
    &&& m.g[6] + params * 16 <= m.g[13] || m.g[6] >= m.g[13] + params * 16
}

/// One argument is copied.
proof fn one_argument_goes(w: Answers, cs: Seq<Code>, p: int, params: u16, n: int, m: Cpu, x: Cpu, k: int) -> (r:
    Cpu)
    requires
        placed(cs, p, copy_params(params, n)),
        copyable(params, m),
        0 <= k < params,
        copied(m, x, k),
    ensures
        leads(w, cs, p + 5, x, p + 12, r),
        copied(m, r, k + 1),
{
    let f = copy_params(params, n);
    let argv = m.g[6] + k * 16;
    let slot = m.g[13] + k * 16;
    let (tag, payload) = argument_words(m, k);
    assert(x.mem[argv] == tag && x.mem[argv + 8] == payload);
    let y1 = with_g(x, Gpr(RAX), tag);
    simple_acts(w, x, f[5]);
    steps_on(w, cs, p, f, 5, x);
    let y2 = Cpu { mem: y1.mem.insert(slot, tag), ..y1 };
    simple_acts(w, y1, f[6]);
    steps_on(w, cs, p, f, 6, y1);
    joined(w, cs, p + 5, x, p + 6, y1, p + 7, y2);
    let y3 = with_g(y2, Gpr(RAX), payload);
    simple_acts(w, y2, f[7]);
    steps_on(w, cs, p, f, 7, y2);
    joined(w, cs, p + 5, x, p + 7, y2, p + 8, y3);
    let y4 = Cpu { mem: y3.mem.insert(slot + 8, payload), ..y3 };
    simple_acts(w, y3, f[8]);
    steps_on(w, cs, p, f, 8, y3);
    joined(w, cs, p + 5, x, p + 8, y3, p + 9, y4);
    let y5 = add_acts(w, y4, Gpr(RSI), 16);
    steps_on(w, cs, p, f, 9, y4);
    joined(w, cs, p + 5, x, p + 9, y4, p + 10, y5);
    let y6 = add_acts(w, y5, Gpr(R11), 16);
    steps_on(w, cs, p, f, 10, y5);
    joined(w, cs, p + 5, x, p + 10, y5, p + 11, y6);
    let y7 = add_acts(w, y6, Gpr(RCX), 1);
    steps_on(w, cs, p, f, 11, y6);
    joined(w, cs, p + 5, x, p + 11, y6, p + 12, y7);
    assert forall|j: int|
        #![trigger argument_words(m, j)]
        0 <= j < k + 1 implies slot_words_at(y7, j) == argument_words(m, j) by {
        if j < k {
            assert(slot_words_at(x, j) == argument_words(m, j));
        }
    }
    y7
}

/// The test at the top of the loop.
proof fn loop_test_goes(w: Answers, cs: Seq<Code>, p: int, params: u16, n: int, m: Cpu, x: Cpu, k: int) -> (r:
    Cpu)
    requires
        placed(cs, p, copy_params(params, n)),
        copied(m, x, k),
        0 <= k <= params,
    ensures
        copied(m, r, k),
        k < params ==> leads(w, cs, p + 2, x, p + 5, r),
        k >= params ==> leads(w, cs, p + 2, x, bind_of(cs, (n + 1) as usize, 0), r),
{
    reveal(act);
    reveal(placed);
    reveal(leads);
    let f = copy_params(params, n);
    let r = act(w, x, f[3])->Some_0;
    assert(x.g.update(1, x.g[1]) =~= x.g);
    assert(r.g == x.g && r.mem == x.mem && r.x == x.x);
    assert(cs[p + 2] == f[2]);
    assert(cs[p + 3] == f[3]);
    assert(cs[p + 4] == f[4]);
    assert(hop(w, cs, p + 2, x) == Some((p + 3, x)));
    assert(hop(w, cs, p + 3, x) == Some((p + 4, r)));
    assert(met(r.flags, Cond::GE) == (k >= params));
    assert(forall|j: int| slot_words_at(r, j) == #[trigger] slot_words_at(x, j));
    reveal_with_fuel(hops, 4);
    if k < params {
        assert(hops(w, cs, p + 2, x, 3) == Some((p + 5, r)));
    } else {
        assert(hops(w, cs, p + 2, x, 3) == Some((bind_of(cs, (n + 1) as usize, 0), r)));
    }
    r
}

/// From the top of the loop on, all arguments that are left are copied.
proof fn loop_goes(w: Answers, cs: Seq<Code>, p: int, params: u16, n: int, m: Cpu, x: Cpu, k: int) -> (r: Cpu)
    requires
        placed(cs, p, copy_params(params, n)),
        well_labelled(cs),
        0 <= n <= usize::MAX - 2,
        copyable(params, m),
        copied(m, x, k),
        0 <= k <= params,
    ensures
        leads(w, cs, p + 2, x, p + 14, r),
        copied(m, r, params as int),
    decreases params - k,
{
    let f = copy_params(params, n);
    let y = loop_test_goes(w, cs, p, params, n, m, x, k);
    loop_labels(cs, p, params, n);
    if k < params {
        let z = one_argument_goes(w, cs, p, params, n, m, y, k);
        joined(w, cs, p + 2, x, p + 5, y, p + 12, z);
        jump_back(w, cs, p, params, n, z);
        joined(w, cs, p + 2, x, p + 12, z, p + 2, z);
        let r = loop_goes(w, cs, p, params, n, m, z, k + 1);
        joined(w, cs, p + 2, x, p + 2, z, p + 14, r);
        r
    } else {
        bind_acts(w, y, (n + 1) as usize);
        steps_on(w, cs, p, f, 13, y);
        joined(w, cs, p + 2, x, p + 13, y, p + 14, y);
        y
    }
}

proof fn bind_acts(w: Answers, m: Cpu, l: usize)
    ensures
        act(w, m, Code::Bind(l)) == Some(m),
{
    reveal(act);
}

proof fn loop_labels(cs: Seq<Code>, p: int, params: u16, n: int)
    requires
        placed(cs, p, copy_params(params, n)),
        well_labelled(cs),
    ensures
        bind_of(cs, n as usize, 0) == p + 2,
        bind_of(cs, (n + 1) as usize, 0) == p + 13,
{
    reveal(placed);
    let f = copy_params(params, n);
    assert(cs[p + 2] == f[2]);
    assert(cs[p + 13] == f[13]);
    bind_unique(cs, n as usize, p + 2, 0);
    bind_unique(cs, (n + 1) as usize, p + 13, 0);
}

proof fn jump_back(w: Answers, cs: Seq<Code>, p: int, params: u16, n: int, m: Cpu)
    requires
        placed(cs, p, copy_params(params, n)),
        well_labelled(cs),
    ensures
        leads(w, cs, p + 12, m, p + 2, m),
{
    loop_labels(cs, p, params, n);
    reveal(placed);
    reveal(leads);
    assert(cs[p + 12] == copy_params(params, n)[12]);
    reveal_with_fuel(hops, 2);
    assert(hops(w, cs, p + 12, m, 1) == Some((p + 2, m)));
}

proof fn copying_goes(w: Answers, cs: Seq<Code>, p: int, params: u16, n: int, m: Cpu) -> (r: Cpu)
    requires
        placed(cs, p, copy_params(params, n)),
        well_labelled(cs),
        0 <= n <= usize::MAX - 2,
        copyable(params, m),
    ensures
        leads(w, cs, p, m, p + 14, r),
        copied(m, r, params as int),
{
    let f = copy_params(params, n);
    simple_acts(w, m, f[0]);
    let x1 = act(w, m, f[0])->Some_0;
    steps_on(w, cs, p, f, 0, m);
    simple_acts(w, x1, f[1]);
    let x2 = with_g(x1, Gpr(R11), m.g[13]);
    steps_on(w, cs, p, f, 1, x1);
    joined(w, cs, p, m, p + 1, x1, p + 2, x2);
    let r = loop_goes(w, cs, p, params, n, m, x2, 0);
    joined(w, cs, p, m, p + 2, x2, p + 14, r);
    r
}

// ---------------------------------------------------------------------------
// Laws
// ---------------------------------------------------------------------------

/// The prologue makes the frame, and leaves in every local slot that belongs to a
/// parameter exactly the two words of the argument of the same number. The registers
/// that the caller wants back are saved above the frame, and the native frame knows the
/// frame and is known to it.
pub proof fn prologue_law(w: Answers, cs: Seq<Code>, p: int, cx: Cx, params: u16, n: int, m: Cpu) -> (r: Cpu)
    requires
        enterable(cx, params, m),
        well_labelled(cs),
        0 <= n <= usize::MAX - 2,
        placed(cs, p, prologue(cx, params, n)),
    ensures
        leads(w, cs, p, m, p + prologue(cx, params, n).len(), r),
        r.g.len() == 16,
        r.x == m.x,
        r.g[13] == m.g[4] - 40 - cx.lay.frame,
        r.g[4] == r.g[13],
        forall|k: int|
            #![trigger argument_words(m, k)]
            0 <= k < params ==> slot_words_at(r, k) == argument_words(m, k),
        saved_below(m, m.g[4] as int, r),
        r.mem[frame_at(r, cx.lay.nf_slot as int)] == m.g[7],
        r.mem[m.g[7] + NF_FRAME_BASE] == r.g[13],
{
    let c1 = opening(cx);
    let c2 = if params > 0 {
        copy_params(params, n)
    } else {
        seq![]
    };
    assert(prologue(cx, params, n) =~= c1 + c2);
    parted(cs, p, c1, c2);
    let x = opening_goes(w, cs, p, cx, params, m);
    if params > 0 {
        let r = copying_goes(w, cs, p + 10, params, n, x);
        joined(w, cs, p, m, p + 10, x, p + 24, r);
        assert forall|k: int|
            #![trigger argument_words(m, k)]
            0 <= k < params implies slot_words_at(r, k) == argument_words(m, k) by {
            assert(argument_words(x, k) == argument_words(m, k));
            assert(slot_words_at(r, k) == argument_words(x, k));
        }
        let top = m.g[4] as int;
        assert(r.mem[top - 8] == x.mem[top - 8]);
        assert(r.mem[top - 16] == x.mem[top - 16]);
        assert(r.mem[top - 24] == x.mem[top - 24]);
        assert(r.mem[top - 32] == x.mem[top - 32]);
        assert(r.mem[top - 40] == x.mem[top - 40]);
        let nf = frame_at(x, cx.lay.nf_slot as int);
        assert(r.mem[nf] == x.mem[nf]);
        let published = m.g[7] + NF_FRAME_BASE;
        assert(r.mem[published] == x.mem[published]);
        r
    } else {
        x
    }
}

/// Boxed arguments arrive: where the arguments behind `rsi` are the words of values, the
/// frame holds these values as its first locals after the prologue, each in the slot of
/// its own number.
pub proof fn arguments_arrive(
    w: Answers,
    cs: Seq<Code>,
    p: int,
    cx: Cx,
    params: u16,
    n: int,
    m: Cpu,
    args: Seq<Value>,
) -> (r: Cpu)
    requires
        enterable(cx, params, m),
        well_labelled(cs),
        0 <= n <= usize::MAX - 2,
        placed(cs, p, prologue(cx, params, n)),
        args.len() == params,
        forall|k: int|
            0 <= k < params ==> m.mem[m.g[6] + k * 16] == parts_of(#[trigger] args[k]).0 && m.mem[m.g[6]
                + k * 16 + 8] == parts_of(args[k]).1,
    ensures
        leads(w, cs, p, m, p + prologue(cx, params, n).len(), r),
        forall|k: int|
            0 <= k < params ==> r.mem[r.g[13] + k * 16] == parts_of(#[trigger] args[k]).0 && r.mem[r.g[13]
                + k * 16 + 8] == parts_of(args[k]).1,
        locals_held(r, args),
{
    let r = prologue_law(w, cs, p, cx, params, n, m);
    assert forall|k: int| 0 <= k < params implies r.mem[r.g[13] + k * 16] == parts_of(
        #[trigger] args[k],
    ).0 && r.mem[r.g[13] + k * 16 + 8] == parts_of(args[k]).1 by {
        assert(slot_words_at(r, k) == argument_words(m, k));
    }
    r
}

proof fn pop_acts(w: Answers, m: Cpu, r: u8)
    requires
        m.g.len() == 16,
        r < 16,
        r != 4,
        m.g[4] + 8 <= u64::MAX,
    ensures
        act(w, m, Code::Pop(Gpr(r))) == Some(
            with_g(
                with_g(m, Gpr(r), m.mem[m.g[4] as int]),
                Gpr(RSP),
                (m.g[4] + 8) as u64,
            ),
        ),
{
    reveal(act);
    assert((m.g[4] + 8) % crate::jit::meaning::words() == m.g[4] + 8);
}

/// The epilogue undoes the prologue: from the end of the function on, with the stack
/// pointer at the frame and the saved registers above it, the processor comes to the
/// return with the stack pointer and the registers of the caller as they were at the
/// entry `m`, and with the status in `rax` untouched.
pub proof fn epilogue_law(w: Answers, cs: Seq<Code>, p: int, cx: Cx, overflow_addr: u64, m: Cpu, x: Cpu) -> (r:
    Cpu)
    requires
        layout_ok(cx.lay),
        well_labelled(cs),
        placed(cs, p, epilogue(cx, overflow_addr)),
        m.g.len() == 16,
        x.g.len() == 16,
        frame_start(cx, m) >= 0,
        x.g[4] == frame_start(cx, m),
        saved_below(m, m.g[4] as int, x),
    ensures
        leads(w, cs, bind_of(cs, EPILOGUE_LABEL, 0), x, p + 14, r),
        cs[p + 14] == Code::Ret,
        r.g[RAX as int] == x.g[RAX as int],
        r.g[RSP as int] == m.g[RSP as int],
        r.g[RBX as int] == m.g[RBX as int],
        r.g[RBP as int] == m.g[RBP as int],
        r.g[R13 as int] == m.g[R13 as int],
        r.g[R14 as int] == m.g[R14 as int],
        r.g[R15 as int] == m.g[R15 as int],
        r.mem == x.mem,
{
    let f = epilogue(cx, overflow_addr);
    assert(cs[p + 7] == f[7] && cs[p + 14] == f[14]) by {
        reveal(placed);
    }
    assert(0 <= p && p + 14 < cs.len()) by {
        reveal(placed);
    }
    bind_unique(cs, EPILOGUE_LABEL, p + 7, 0);
    bind_acts(w, x, EPILOGUE_LABEL);
    steps_on(w, cs, p, f, 7, x);
    let y0 = add_acts(w, x, Gpr(RSP), cx.lay.frame as i32);
    steps_on(w, cs, p, f, 8, x);
    joined(w, cs, p + 7, x, p + 8, x, p + 9, y0);
    assert(y0.g[4] == m.g[4] - 40);
    pop_acts(w, y0, RBX);
    let y1 = act(w, y0, f[9])->Some_0;
    steps_on(w, cs, p, f, 9, y0);
    joined(w, cs, p + 7, x, p + 9, y0, p + 10, y1);
    pop_acts(w, y1, R15);
    let y2 = act(w, y1, f[10])->Some_0;
    steps_on(w, cs, p, f, 10, y1);
    joined(w, cs, p + 7, x, p + 10, y1, p + 11, y2);
    pop_acts(w, y2, R14);
    let y3 = act(w, y2, f[11])->Some_0;
    steps_on(w, cs, p, f, 11, y2);
    joined(w, cs, p + 7, x, p + 11, y2, p + 12, y3);
    pop_acts(w, y3, R13);
    let y4 = act(w, y3, f[12])->Some_0;
    steps_on(w, cs, p, f, 12, y3);
    joined(w, cs, p + 7, x, p + 12, y3, p + 13, y4);
    pop_acts(w, y4, RBP);
    let y5 = act(w, y4, f[13])->Some_0;
    steps_on(w, cs, p, f, 13, y4);
    joined(w, cs, p + 7, x, p + 13, y4, p + 14, y5);
    y5
}

} // verus!
