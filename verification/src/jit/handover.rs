//! How generated code asks the machine for help: the arguments are laid out, the
//! dispatcher is called with them, and its result goes to where it is wanted.

use crate::jit::assembler::{Cond, Gpr, Mem};
use crate::jit::code::{bind_of, bind_unique, well_labelled, Alu, Code};
use crate::jit::codegen::{
    dispatch, load_native, load_result, marshal_upto, native, result_in, EPILOGUE_LABEL, NF_DISPATCHER,
    NF_OP, NF_RESULT,
};
use crate::jit::compiler::{dispatched_as, outcome_of, FrameResult};
use crate::jit::frame::{home_in, in_frame, layout_ok, marshal, marshal_tag, type_in, Cx};
use crate::jit::ir::VReg;
use crate::jit::meaning::{address, with_g, Cpu, Flags};
use crate::jit::plain::marshal_goes;
use crate::jit::processor::{
    act, frame_at, holds, hops, joined, keeps_value, leads, parted, placed, simple_acts, slot_words,
    stays, steps_on,
};
use crate::jit::regalloc::Home;
use crate::jit::regs::{R10, R11, RAX, RCX, RDI, RDX, RSI};
use crate::jit::typed::of_type;
use crate::jit::value::parts_of;
use crate::vm::value::Value;
use crate::vm::world::{Answers, Effect, Fault};
use vstd::prelude::*;

verus! {

// ---------------------------------------------------------------------------
// Arguments
// ---------------------------------------------------------------------------

/// The two words of argument `j` as the dispatcher finds them.
pub open spec fn handed(m: Cpu, cx: Cx, j: int) -> (u64, u64) {
    (
        m.mem[frame_at(m, cx.lay.marshal_base + j * 16)],
        m.mem[frame_at(m, cx.lay.marshal_base + j * 16 + 8)],
    )
}

/// Nothing has changed but the registers in which code computes and the part of the
/// frame for arguments.
pub open spec fn laid_out(m: Cpu, x: Cpu, cx: Cx) -> bool {
    &&& x.g.len() == 16
    &&& x.x.len() == 16
    &&& forall|r: int| 2 < r < 16 ==> #[trigger] x.g[r] == m.g[r]
    &&& forall|r: int| 0 < r < 16 ==> #[trigger] x.x[r] == m.x[r]
    &&& forall|a: int|
        a < frame_at(m, cx.lay.marshal_base as int) || a >= frame_at(m, cx.lay.zero_slot as int)
            ==> #[trigger] x.mem[a] == m.mem[a]
}

/// Every argument is in the home of its register.
pub open spec fn arguments_held(m: Cpu, cx: Cx, args: Seq<VReg>, vals: Seq<Value>) -> bool {
    &&& args.len() == vals.len()
    &&& args.len() <= cx.lay.args
    &&& forall|j: int|
        0 <= j < args.len() ==> holds(m, cx, #[trigger] args[j], vals[j]) && (type_in(cx, args[j])
            matches Some(k) && of_type(k, vals[j]))
}

proof fn home_stays(m: Cpu, x: Cpu, cx: Cx, v: VReg, val: Value)
    requires
        layout_ok(cx.lay),
        laid_out(m, x, cx),
        holds(m, cx, v, val),
    ensures
        holds(x, cx, v, val),
{
    if let Some(Home::Slot(s)) = home_in(cx, v) {
        slot_words(m, cx, s);
        assert(frame_at(m, cx.lay.spill_base + s * 16) >= frame_at(m, cx.lay.zero_slot as int));
    }
    assert(x.g[13] == m.g[13]);
}

proof fn upto_ends(cx: Cx, args: Seq<VReg>, k: int)
    requires
        0 < k <= args.len(),
        marshal_upto(cx, args, k) is Ok,
    ensures
        marshal_upto(cx, args, k - 1) is Ok,
        marshal(cx, marshal_tag(cx.lay, k - 1), args[k - 1]) is Ok,
        marshal_upto(cx, args, k)->Ok_0 == marshal_upto(cx, args, k - 1)->Ok_0 + marshal(
            cx,
            marshal_tag(cx.lay, k - 1),
            args[k - 1],
        )->Ok_0,
{
}

/// The code that lays out arguments leaves the words of argument `j` in place `j`,
/// for every argument, and leaves everything else alone.
pub proof fn layout_law(
    w: Answers,
    cs: Seq<Code>,
    p: int,
    cx: Cx,
    args: Seq<VReg>,
    k: int,
    m: Cpu,
    vals: Seq<Value>,
) -> (x: Cpu)
    requires
        m.g.len() == 16,
        m.x.len() == 16,
        layout_ok(cx.lay),
        arguments_held(m, cx, args, vals),
        0 <= k <= args.len(),
        marshal_upto(cx, args, k) is Ok,
        placed(cs, p, marshal_upto(cx, args, k)->Ok_0),
    ensures
        leads(w, cs, p, m, p + marshal_upto(cx, args, k)->Ok_0.len(), x),
        laid_out(m, x, cx),
        forall|j: int| 0 <= j < k ==> #[trigger] handed(x, cx, j) == parts_of(vals[j]),
    decreases k,
{
    if k == 0 {
        stays(w, cs, p, m);
        m
    } else {
        upto_ends(cx, args, k);
        let front = marshal_upto(cx, args, k - 1)->Ok_0;
        let last = marshal(cx, marshal_tag(cx.lay, k - 1), args[k - 1])->Ok_0;
        parted(cs, p, front, last);
        let y = layout_law(w, cs, p, cx, args, k - 1, m, vals);
        home_stays(m, y, cx, args[k - 1], vals[k - 1]);
        let d = cx.lay.marshal_base + (k - 1) * 16;
        assert(0 <= d && d + 16 <= cx.lay.zero_slot && d + 16 <= cx.lay.frame) by (nonlinear_arith)
            requires
                d == cx.lay.marshal_base + (k - 1) * 16,
                0 < k <= cx.lay.args,
                cx.lay.marshal_base == cx.lay.locals * 16,
                cx.lay.zero_slot == (cx.lay.locals + cx.lay.args) * 16,
                cx.lay.zero_slot + 16 <= cx.lay.frame,
        ;
        let x = marshal_goes(w, cs, p + front.len(), cx, d, args[k - 1], y, vals[k - 1]);
        joined(w, cs, p, m, p + front.len(), y, p + (front + last).len(), x);
        assert(x.g[13] == m.g[13] && y.g[13] == m.g[13]);
        assert forall|j: int| 0 <= j < k implies #[trigger] handed(x, cx, j) == parts_of(vals[j]) by {
            if j < k - 1 {
                assert(handed(y, cx, j) == parts_of(vals[j]));
            }
        }
        x
    }
}

// ---------------------------------------------------------------------------
// The call
// ---------------------------------------------------------------------------

/// The frame of the native call, which the machine and generated code share.
pub open spec fn shared(m: Cpu, cx: Cx) -> int {
    m.mem[frame_at(m, cx.lay.nf_slot as int)] as int
}

/// In front of the call of the dispatcher: it is what the shared frame names, it is
/// handed that frame, the arguments and how many there are, and the number of the
/// operation is in the frame. Nothing else in memory has changed.
pub proof fn dispatch_law(w: Answers, cs: Seq<Code>, p: int, cx: Cx, op_id: u32, count: nat, m: Cpu) -> (x:
    Cpu)
    requires
        m.g.len() == 16,
        m.x.len() == 16,
        layout_ok(cx.lay),
        count <= i64::MAX,
        frame_at(m, cx.lay.marshal_base as int) <= u64::MAX,
        placed(cs, p, dispatch(cx, op_id, count)),
    ensures
        leads(w, cs, p, m, p + 7, x),
        cs[p + 7] == Code::CallR(Gpr(R11)),
        x.g[R11 as int] == m.mem[shared(m, cx) + 0x40],
        x.g[RDI as int] == shared(m, cx),
        x.g[RSI as int] == frame_at(m, cx.lay.marshal_base as int),
        x.g[RDX as int] == count,
        x.mem[shared(m, cx) + 8] == op_id,
        forall|a: int| a != shared(m, cx) + 8 ==> #[trigger] x.mem[a] == m.mem[a],
        x.x == m.x,
        x.g[13] == m.g[13],
{
    let f = dispatch(cx, op_id, count);
    let nf = shared(m, cx);
    assert(address(m, in_frame(cx.lay.nf_slot as int)) == frame_at(m, cx.lay.nf_slot as int));
    simple_acts(w, m, f[0]);
    let x1 = act(w, m, f[0])->Some_0;
    steps_on(w, cs, p, f, 0, m);
    simple_acts(w, x1, f[1]);
    let x2 = act(w, x1, f[1])->Some_0;
    steps_on(w, cs, p, f, 1, x1);
    simple_acts(w, x2, f[2]);
    let x3 = act(w, x2, f[2])->Some_0;
    steps_on(w, cs, p, f, 2, x2);
    assert(address(x2, native(NF_OP)) == nf + 8);
    lea_acts(w, x3, marshal_tag(cx.lay, 0));
    let x4 = act(w, x3, f[3])->Some_0;
    steps_on(w, cs, p, f, 3, x3);
    assert(address(x3, marshal_tag(cx.lay, 0)) == frame_at(m, cx.lay.marshal_base as int));
    simple_acts(w, x4, f[4]);
    let x5 = act(w, x4, f[4])->Some_0;
    steps_on(w, cs, p, f, 4, x4);
    simple_acts(w, x5, f[5]);
    let x6 = act(w, x5, f[5])->Some_0;
    steps_on(w, cs, p, f, 5, x5);
    simple_acts(w, x6, f[6]);
    let x7 = act(w, x6, f[6])->Some_0;
    steps_on(w, cs, p, f, 6, x6);
    assert(address(x6, native(NF_DISPATCHER)) == nf + 0x40);
    joined(w, cs, p, m, p + 1, x1, p + 2, x2);
    joined(w, cs, p, m, p + 2, x2, p + 3, x3);
    joined(w, cs, p, m, p + 3, x3, p + 4, x4);
    joined(w, cs, p, m, p + 4, x4, p + 5, x5);
    joined(w, cs, p, m, p + 5, x5, p + 6, x6);
    joined(w, cs, p, m, p + 6, x6, p + 7, x7);
    assert(cs[p + 7] == f[7]) by {
        reveal(placed);
    }
    x7
}

proof fn lea_acts(w: Answers, m: Cpu, at: Mem)
    requires
        m.g.len() == 16,
        0 <= address(m, at) <= u64::MAX,
    ensures
        act(w, m, Code::Lea(Gpr(RSI), at)) == Some(with_g(m, Gpr(RSI), address(m, at) as u64)),
{
    reveal(act);
    assert(address(m, at) % crate::jit::meaning::words() == address(m, at));
}

/// Behind the call: a status other than zero leaves the function, and zero goes on.
pub proof fn status_law(w: Answers, cs: Seq<Code>, p: int, cx: Cx, op_id: u32, count: nat, m: Cpu) -> (x:
    Cpu)
    requires
        placed(cs, p, dispatch(cx, op_id, count)),
    ensures
        leads(
            w,
            cs,
            p + 8,
            m,
            if m.g[RAX as int] == 0 {
                p + 10
            } else {
                bind_of(cs, EPILOGUE_LABEL, 0)
            },
            x,
        ),
        x.g == m.g,
        x.x == m.x,
        x.mem == m.mem,
{
    let f = dispatch(cx, op_id, count);
    let v = m.g[RAX as int];
    assert(v & v == v) by (bit_vector);
    reveal(act);
    let x = act(w, m, f[8])->Some_0;
    steps_on(w, cs, p, f, 8, m);
    assert(x.flags == Flags::Result(v, false));
    let to = if v == 0 {
        p + 10
    } else {
        bind_of(cs, EPILOGUE_LABEL, 0)
    };
    branch_goes(w, cs, p, f, 9, x, Cond::NZ, EPILOGUE_LABEL);
    joined(w, cs, p + 8, m, p + 9, x, to, x);
    x
}

proof fn branch_goes(
    w: Answers,
    cs: Seq<Code>,
    p: int,
    f: Seq<Code>,
    i: int,
    m: Cpu,
    c: Cond,
    l: usize,
)
    requires
        placed(cs, p, f),
        0 <= i < f.len(),
        f[i] == Code::Jcc(c, l),
    ensures
        leads(
            w,
            cs,
            p + i,
            m,
            if crate::jit::meaning::met(m.flags, c) {
                bind_of(cs, l, 0)
            } else {
                p + i + 1
            },
            m,
        ),
{
    reveal(placed);
    reveal(leads);
    assert(cs[p + i] == f[i]);
    reveal_with_fuel(hops, 2);
    let to = if crate::jit::meaning::met(m.flags, c) {
        bind_of(cs, l, 0)
    } else {
        p + i + 1
    };
    assert(hops(w, cs, p + i, m, 1) == Some((to, m)));
}

proof fn jump_goes(w: Answers, cs: Seq<Code>, p: int, f: Seq<Code>, i: int, m: Cpu, l: usize)
    requires
        placed(cs, p, f),
        0 <= i < f.len(),
        f[i] == Code::Jmp(l),
    ensures
        leads(w, cs, p + i, m, bind_of(cs, l, 0), m),
{
    reveal(placed);
    reveal(leads);
    assert(cs[p + i] == f[i]);
    reveal_with_fuel(hops, 2);
    assert(hops(w, cs, p + i, m, 1) == Some((bind_of(cs, l, 0), m)));
}

proof fn label_stands(cs: Seq<Code>, p: int, f: Seq<Code>, i: int, l: usize)
    requires
        well_labelled(cs),
        placed(cs, p, f),
        0 <= i < f.len(),
        f[i] == Code::Bind(l),
    ensures
        bind_of(cs, l, 0) == p + i,
{
    reveal(placed);
    assert(cs[p + i] == f[i]);
    bind_unique(cs, l, p + i, 0);
}

// ---------------------------------------------------------------------------
// The result
// ---------------------------------------------------------------------------

/// The dispatcher has left the words of a value in the shared frame.
pub open spec fn answered(m: Cpu, cx: Cx, val: Value) -> bool {
    &&& m.mem[shared(m, cx) + 0x20] == parts_of(val).0
    &&& m.mem[shared(m, cx) + 0x28] == parts_of(val).1
}

proof fn head_goes(w: Answers, cs: Seq<Code>, p: int, cx: Cx, f: Seq<Code>, m: Cpu, val: Value) -> (x: Cpu)
    requires
        m.g.len() == 16,
        m.x.len() == 16,
        layout_ok(cx.lay),
        answered(m, cx, val),
        f.len() >= 3,
        f[0] == load_native(cx),
        f[1] == Code::MovRm(Gpr(RAX), native(NF_RESULT)),
        f[2] == Code::MovRm(Gpr(RCX), native((NF_RESULT + 8) as i32)),
        placed(cs, p, f),
    ensures
        leads(w, cs, p, m, p + 3, x),
        x.g[0] == parts_of(val).0,
        x.g[1] == parts_of(val).1,
        x.g.len() == 16,
        x.x == m.x,
        x.mem == m.mem,
        forall|r: int| 1 < r < 16 && r != R10 ==> #[trigger] x.g[r] == m.g[r],
{
    assert(address(m, in_frame(cx.lay.nf_slot as int)) == frame_at(m, cx.lay.nf_slot as int));
    simple_acts(w, m, f[0]);
    let x1 = act(w, m, f[0])->Some_0;
    steps_on(w, cs, p, f, 0, m);
    simple_acts(w, x1, f[1]);
    let x2 = act(w, x1, f[1])->Some_0;
    steps_on(w, cs, p, f, 1, x1);
    simple_acts(w, x2, f[2]);
    let x3 = act(w, x2, f[2])->Some_0;
    steps_on(w, cs, p, f, 2, x2);
    assert(address(x1, native(NF_RESULT)) == shared(m, cx) + 0x20);
    assert(address(x2, native((NF_RESULT + 8) as i32)) == shared(m, cx) + 0x28);
    joined(w, cs, p, m, p + 1, x1, p + 2, x2);
    joined(w, cs, p, m, p + 2, x2, p + 3, x3);
    x3
}

proof fn tags(val: Value)
    requires
        val is Int || val is Bool || val is Char,
    ensures
        val is Int ==> parts_of(val).0 & 0xFF == 1,
        val is Bool ==> parts_of(val).0 & 0xFF == 3,
        val is Char ==> parts_of(val).0 & 0xFF == 4,
{
    let t = parts_of(val).0;
    assert(t & 0xFF == t % 256) by (bit_vector);
    if let Value::Char(c) = val {
        let n = c as u32;
        assert((4 + n * 0x1_0000_0000) % 256 == 4) by (nonlinear_arith);
    }
}

proof fn masked(w: Answers, m: Cpu, t: u64) -> (x: Cpu)
    requires
        m.g.len() == 16,
        m.g[2] == t,
    ensures
        act(w, m, Code::AluRi(Alu::And, Gpr(RDX), 0xFF)) == Some(x),
        x.g == m.g.update(2, t & 0xFF),
        x.x == m.x,
        x.mem == m.mem,
{
    reveal(act);
    act(w, m, Code::AluRi(Alu::And, Gpr(RDX), 0xFF))->Some_0
}

proof fn compares(w: Answers, m: Cpu, v: i32) -> (x: Cpu)
    requires
        m.g.len() == 16,
        0 <= v,
    ensures
        act(w, m, Code::AluRi(Alu::Compare, Gpr(RDX), v)) == Some(x),
        x.g == m.g,
        x.x == m.x,
        x.mem == m.mem,
        x.flags == Flags::Compared(m.g[2], v as u64),
{
    reveal(act);
    let x = act(w, m, Code::AluRi(Alu::Compare, Gpr(RDX), v))->Some_0;
    assert(x.g =~= m.g);
    x
}

/// The code that sorts out a result that goes to a general purpose register.
proof fn sorted_out(w: Answers, cs: Seq<Code>, p: int, h: Gpr, n: int, m: Cpu, val: Value) -> (x: Cpu)
    requires
        m.g.len() == 16,
        0 <= n,
        n + 2 <= usize::MAX,
        keeps_value(h),
        well_labelled(cs),
        placed(cs, p, result_in(h, n)),
        m.g[0] == parts_of(val).0,
        m.g[1] == parts_of(val).1,
        val is Int || val is Bool || val is Char,
    ensures
        leads(w, cs, p, m, p + 15, x),
        x.g[h.0 as int] == if val is Int {
            parts_of(val).1
        } else {
            parts_of(val).0
        },
        x.g.len() == 16,
        x.x == m.x,
        x.mem == m.mem,
        forall|r: int| 2 < r < 16 && r != h.0 ==> #[trigger] x.g[r] == m.g[r],
{
    let f = result_in(h, n);
    let (ints, packed, done) = (n as usize, (n + 1) as usize, (n + 2) as usize);
    tags(val);
    label_stands(cs, p, f, 9, ints);
    label_stands(cs, p, f, 12, packed);
    label_stands(cs, p, f, 14, done);
    let t = parts_of(val).0;
    simple_acts(w, m, f[0]);
    let x1 = act(w, m, f[0])->Some_0;
    steps_on(w, cs, p, f, 0, m);
    let x2 = masked(w, x1, t);
    steps_on(w, cs, p, f, 1, x1);
    let x3 = compares(w, x2, 1);
    steps_on(w, cs, p, f, 2, x2);
    branch_goes(w, cs, p, f, 3, x3, Cond::Z, ints);
    joined(w, cs, p, m, p + 1, x1, p + 2, x2);
    joined(w, cs, p, m, p + 2, x2, p + 3, x3);
    if val is Int {
        joined(w, cs, p, m, p + 3, x3, p + 9, x3);
        bind_acts(w, cs, p, f, 9, x3, ints);
        joined(w, cs, p, m, p + 9, x3, p + 10, x3);
        simple_acts(w, x3, f[10]);
        let x4 = act(w, x3, f[10])->Some_0;
        steps_on(w, cs, p, f, 10, x3);
        joined(w, cs, p, m, p + 10, x3, p + 11, x4);
        jump_goes(w, cs, p, f, 11, x4, done);
        joined(w, cs, p, m, p + 11, x4, p + 14, x4);
        bind_acts(w, cs, p, f, 14, x4, done);
        joined(w, cs, p, m, p + 14, x4, p + 15, x4);
        x4
    } else {
        joined(w, cs, p, m, p + 3, x3, p + 4, x3);
        let x4 = compares(w, x3, 3);
        steps_on(w, cs, p, f, 4, x3);
        joined(w, cs, p, m, p + 4, x3, p + 5, x4);
        branch_goes(w, cs, p, f, 5, x4, Cond::Z, packed);
        let x5 = if val is Bool {
            joined(w, cs, p, m, p + 5, x4, p + 12, x4);
            x4
        } else {
            joined(w, cs, p, m, p + 5, x4, p + 6, x4);
            let y = compares(w, x4, 4);
            steps_on(w, cs, p, f, 6, x4);
            joined(w, cs, p, m, p + 6, x4, p + 7, y);
            branch_goes(w, cs, p, f, 7, y, Cond::Z, packed);
            joined(w, cs, p, m, p + 7, y, p + 12, y);
            y
        };
        bind_acts(w, cs, p, f, 12, x5, packed);
        joined(w, cs, p, m, p + 12, x5, p + 13, x5);
        simple_acts(w, x5, f[13]);
        let x6 = act(w, x5, f[13])->Some_0;
        steps_on(w, cs, p, f, 13, x5);
        joined(w, cs, p, m, p + 13, x5, p + 14, x6);
        bind_acts(w, cs, p, f, 14, x6, done);
        joined(w, cs, p, m, p + 14, x6, p + 15, x6);
        x6
    }
}

proof fn bind_acts(w: Answers, cs: Seq<Code>, p: int, f: Seq<Code>, i: int, m: Cpu, l: usize)
    requires
        placed(cs, p, f),
        0 <= i < f.len(),
        f[i] == Code::Bind(l),
    ensures
        leads(w, cs, p + i, m, p + i + 1, m),
{
    assert(act(w, m, f[i]) == Some(m)) by {
        reveal(act);
    }
    steps_on(w, cs, p, f, i, m);
}

/// A home that can hold a value.
pub open spec fn has_room(cx: Cx, dst: VReg, val: Value) -> bool {
    match home_in(cx, dst) {
        Some(Home::Gpr(g)) => keeps_value(g) && (val is Int || val is Bool || val is Char),
        Some(Home::Xmm(x)) => 0 < x.0 < 16 && val is Float,
        Some(Home::Slot(_)) => true,
        None => false,
    }
}

/// The code that fetches a result puts the value that the dispatcher left into the
/// home of the register that it is wanted in.
pub proof fn result_law(w: Answers, cs: Seq<Code>, p: int, cx: Cx, dst: VReg, n: int, m: Cpu, val: Value) -> (x:
    Cpu)
    requires
        m.g.len() == 16,
        m.x.len() == 16,
        layout_ok(cx.lay),
        0 <= n,
        n + 2 <= usize::MAX,
        well_labelled(cs),
        answered(m, cx, val),
        has_room(cx, dst, val),
        load_result(cx, dst, n) is Ok,
        placed(cs, p, load_result(cx, dst, n)->Ok_0),
    ensures
        leads(w, cs, p, m, p + load_result(cx, dst, n)->Ok_0.len(), x),
        holds(x, cx, dst, val),
        x.g[13] == m.g[13],
{
    let f = load_result(cx, dst, n)->Ok_0;
    let y = head_goes(w, cs, p, cx, f, m, val);
    match home_in(cx, dst) {
        Some(Home::Gpr(h)) => {
            let head = f.subrange(0, 3);
            assert(f =~= head + result_in(h, n));
            parted(cs, p, head, result_in(h, n));
            let x = sorted_out(w, cs, p + 3, h, n, y, val);
            joined(w, cs, p, m, p + 3, y, p + 18, x);
            x
        },
        Some(Home::Xmm(_)) => {
            simple_acts(w, y, f[3]);
            let x = act(w, y, f[3])->Some_0;
            steps_on(w, cs, p, f, 3, y);
            joined(w, cs, p, m, p + 3, y, p + 4, x);
            x
        },
        Some(Home::Slot(s)) => {
            slot_words(y, cx, s);
            simple_acts(w, y, f[3]);
            let x1 = act(w, y, f[3])->Some_0;
            steps_on(w, cs, p, f, 3, y);
            slot_words(x1, cx, s);
            simple_acts(w, x1, f[4]);
            let x2 = act(w, x1, f[4])->Some_0;
            steps_on(w, cs, p, f, 4, x1);
            joined(w, cs, p, m, p + 3, y, p + 4, x1);
            joined(w, cs, p, m, p + 4, x1, p + 5, x2);
            x2
        },
        None => m,
    }
}

/// What the dispatcher says by its status: zero, on which generated code goes on,
/// where the operation came to a value or to nothing; and a status that tells a
/// thrown exception from a failure. The exception arrives as such.
pub proof fn reply_law(e: Effect, v: Value)
    ensures
        dispatched_as(e) matches Some((s, _)) ==> (s == 0 <==> e is Value || e is Nothing
            || e is Show),
        dispatched_as(Effect::Value(v)) == Some((0u64, Some(v))),
        dispatched_as(Effect::Thrown(v)) matches Some((s, r)) && r == Some(v) && outcome_of(s, v)
            == Ok::<FrameResult, Fault>(FrameResult::Exception(v)),
        outcome_of(0, v) == Ok::<FrameResult, Fault>(FrameResult::Normal(v)),
        e is Failed ==> (dispatched_as(e) matches Some((s, r)) && r is None && outcome_of(s, v)
            is Err),
{
}

} // verus!
