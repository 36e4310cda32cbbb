//! Comparisons of floats, logic and truth in generated code: they come out as
//! in the interpreter.

use crate::arith::{ordered, rank};
use crate::jit::assembler::{Cond, Gpr, Xmm};
use crate::jit::code::{Alu, Code, Sse};
use crate::jit::frame::{
    cat, home_in, in_frame, load_float, load_tag, spill_payload, spill_tag, Cx,
};
use crate::jit::ir::{BinOp, VReg};
use crate::jit::meaning::{
    address, meaning, met, run, run_all, run_joined, run_one, tagify_law, with_g, with_x, Cpu, Flags,
};
use crate::jit::regalloc::Home;
use crate::jit::regs::RAX;
use crate::jit::select::{
    alu_tag, condition, float_cond, float_truth, ordered_condition, sse_operand, tagify,
};
use crate::jit::value::parts_of;
use crate::jit::xmms::XMM0;
use crate::vm::numeric::{compared, Compare};
use crate::vm::value::{truthy, Value};
use vstd::prelude::*;

verus! {

/// One or zero.
pub open spec fn digit(b: bool) -> u64 {
    if b {
        1
    } else {
        0
    }
}

/// The outcome of a comparison of floats in the interpreter.
pub open spec fn floats_compare(op: BinOp, x: u64, y: u64) -> bool {
    ordered(x, y) && (match op {
        BinOp::Lt => compared(Compare::Less, rank(x), rank(y)),
        BinOp::Le => compared(Compare::AtMost, rank(x), rank(y)),
        BinOp::Gt => compared(Compare::More, rank(x), rank(y)),
        BinOp::Ge => compared(Compare::AtLeast, rank(x), rank(y)),
        _ => rank(x) == rank(y),
    })
}

/// Bitwise operations on 0 and 1.
pub proof fn digits(b: bool, c: bool)
    ensures
        digit(b) & digit(c) == digit(b && c),
        digit(b) | digit(c) == digit(b || c),
        digit(b) ^ 1 == digit(!b),
{
    assert(0u64 & 0u64 == 0 && 0u64 & 1u64 == 0 && 1u64 & 0u64 == 0 && 1u64 & 1u64 == 1)
        by (bit_vector);
    assert(0u64 | 0u64 == 0 && 0u64 | 1u64 == 1 && 1u64 | 0u64 == 1 && 1u64 | 1u64 == 1)
        by (bit_vector);
    assert(0u64 ^ 1u64 == 1 && 1u64 ^ 1u64 == 0) by (bit_vector);
}

proof fn ordered_runs(m: Cpu, cc: Cond)
    requires
        m.g.len() == 16,
        m.flags is Floats,
    ensures
        run_all(ordered_condition(cc), m) matches Some(x) && x.g.len() == 16 && x.g[0] == digit(
            met(m.flags, cc) && !met(m.flags, Cond::P),
        ) && x.mem == m.mem && x.x == m.x && x.g[13] == m.g[13],
{
    let cs = ordered_condition(cc);
    reveal_with_fuel(run, 5);
    let a = met(m.flags, cc);
    let p = met(m.flags, Cond::P);
    digits(p, p);
    digits(a, !p);
    let m1 = run(cs, 1, m)->Some_0;
    let m2 = run(cs, 2, m)->Some_0;
    assert(m2.g[0] == digit(a) && m2.g[1] == digit(p));
    let m3 = run(cs, 3, m)->Some_0;
    assert(m3.g[1] == digit(!p));
}

/// After a comparison of two floats, the code for the outcome leaves the tag
/// word of what the interpreter says in `rax`.
pub proof fn float_condition_law(m: Cpu, op: BinOp, x: u64, y: u64)
    requires
        m.g.len() == 16,
        m.flags == Flags::Floats(x, y),
        op is Eq || op is Lt || op is Le || op is Gt || op is Ge,
    ensures
        run_all(float_cond(op) + tagify(), m) matches Some(r) && r.g[0] == parts_of(
            Value::Bool(floats_compare(op, x, y)),
        ).0 && r.mem == m.mem,
{
    let cs = float_cond(op);
    match op {
        BinOp::Lt => ordered_runs(m, Cond::B),
        BinOp::Le => ordered_runs(m, Cond::BE),
        BinOp::Gt => run_one(Code::Setcc(Cond::A, Gpr(RAX)), m),
        BinOp::Ge => run_one(Code::Setcc(Cond::AE, Gpr(RAX)), m),
        _ => ordered_runs(m, Cond::Z),
    }
    let m1 = run_all(cs, m)->Some_0;
    assert(m1.g[0] == digit(floats_compare(op, x, y)));
    tagify_law(m1, floats_compare(op, x, y));
    run_joined(cs, tagify(), m);
}

/// A virtual register has a home in which a float can be kept, not `xmm0`.
pub open spec fn float_homed(cx: Cx, v: VReg) -> bool {
    match home_in(cx, v) {
        Some(Home::Xmm(x)) => 0 < x.0 < 16,
        Some(Home::Slot(_)) => true,
        _ => false,
    }
}

/// A virtual register holds a float in its home.
pub open spec fn holds_float(m: Cpu, cx: Cx, v: VReg, f: u64) -> bool {
    match home_in(cx, v) {
        Some(Home::Xmm(x)) => m.x[x.0 as int] == f,
        Some(Home::Slot(s)) => m.mem[address(m, spill_payload(cx.lay, s))] == f,
        _ => false,
    }
}

proof fn load_float_runs(m: Cpu, cx: Cx, v: VReg, f: u64)
    requires
        m.x.len() == 16,
        float_homed(cx, v),
        holds_float(m, cx, v, f),
    ensures
        load_float(cx, v) is Ok,
        run_all(load_float(cx, v)->Ok_0, m) == Some(with_x(m, Xmm(XMM0), f)),
{
    match home_in(cx, v) {
        Some(Home::Xmm(x)) => run_one(Code::SseRr(Sse::Move, Xmm(XMM0), x), m),
        Some(Home::Slot(s)) => run_one(
            Code::SseRm(Sse::Move, Xmm(XMM0), spill_payload(cx.lay, s)),
            m,
        ),
        _ => {},
    }
}

/// Inlined comparisons of floats do what the interpreter does: `rax` holds the
/// tag word of the outcome when it is stored.
pub proof fn float_compare_law(m: Cpu, cx: Cx, op: BinOp, a: VReg, b: VReg, x: u64, y: u64)
    requires
        m.g.len() == 16,
        m.x.len() == 16,
        op is Eq || op is Lt || op is Le || op is Gt || op is Ge,
        float_homed(cx, a),
        float_homed(cx, b),
        holds_float(m, cx, a, x),
        holds_float(m, cx, b, y),
    ensures
        ({
            let code = cat(
                cat(cat(load_float(cx, a), sse_operand(cx, Sse::Compare, b)), Ok(float_cond(op))),
                Ok(tagify()),
            );
            &&& code is Ok
            &&& run_all(code->Ok_0, m) matches Some(r)
            &&& r.g[0] == parts_of(Value::Bool(floats_compare(op, x, y))).0
            &&& r.mem == m.mem
        }),
{
    load_float_runs(m, cx, a, x);
    let m1 = with_x(m, Xmm(XMM0), x);
    assert(holds_float(m1, cx, b, y));
    let c1 = load_float(cx, a)->Ok_0;
    let c2 = sse_operand(cx, Sse::Compare, b)->Ok_0;
    match home_in(cx, b) {
        Some(Home::Xmm(r)) => run_one(Code::SseRr(Sse::Compare, Xmm(XMM0), r), m1),
        Some(Home::Slot(s)) => run_one(
            Code::SseRm(Sse::Compare, Xmm(XMM0), spill_payload(cx.lay, s)),
            m1,
        ),
        _ => {},
    }
    let m2 = run_all(c2, m1)->Some_0;
    assert(m2.flags == Flags::Floats(x, y));
    run_joined(c1, c2, m);
    float_condition_law(m2, op, x, y);
    let tail = float_cond(op) + tagify();
    run_joined(c1 + c2, tail, m);
    assert(c1 + c2 + float_cond(op) + tagify() =~= c1 + c2 + tail);
}

/// The truth of the float in `xmm0` comes out as in the interpreter.
pub proof fn float_truth_law(m: Cpu, cx: Cx, f: u64)
    requires
        m.g.len() == 16,
        m.x.len() == 16,
        m.x[0] == f,
    ensures
        run_all(float_truth(cx), m) matches Some(r) && r.g[0] == digit(truthy(Value::Float(f))),
{
    let cs = float_truth(cx);
    let zero = in_frame(cx.lay.zero_slot as int);
    reveal_with_fuel(run, 8);
    assert(m.g[0] ^ m.g[0] == 0) by {
        let v = m.g[0];
        assert(v ^ v == 0u64) by (bit_vector);
    }
    let m1 = run(cs, 1, m)->Some_0;
    assert(m1.g[0] == 0);
    assert(m1.g[13] == m.g[13]);
    let m2 = run(cs, 2, m)->Some_0;
    assert(m2.mem[address(m2, zero)] == 0);
    let m3 = run(cs, 3, m)->Some_0;
    assert(m3.flags == Flags::Floats(f, 0));
    let p = met(m3.flags, Cond::P);
    let z = met(m3.flags, Cond::Z);
    let m5 = run(cs, 5, m)->Some_0;
    assert(m5.g[0] == digit(p) && m5.g[1] == digit(z));
    digits(z, z);
    let m6 = run(cs, 6, m)->Some_0;
    assert(m6.g[1] == digit(!z));
    digits(p, !z);
}

/// A virtual register has a home in which a tag word can be kept.
pub open spec fn tag_homed(cx: Cx, v: VReg) -> bool {
    match home_in(cx, v) {
        Some(Home::Gpr(g)) => 3 <= g.0 < 16,
        Some(Home::Slot(_)) => true,
        _ => false,
    }
}

/// A virtual register holds the tag word of a value in its home.
pub open spec fn holds_tag(m: Cpu, cx: Cx, v: VReg, t: u64) -> bool {
    match home_in(cx, v) {
        Some(Home::Gpr(g)) => m.g[g.0 as int] == t,
        Some(Home::Slot(s)) => m.mem[address(m, spill_tag(cx.lay, s))] == t,
        _ => false,
    }
}

/// Inlined logic on truth values does what the interpreter does: `rax` holds the
/// tag word of the outcome when it is stored.
pub proof fn logic_law(m: Cpu, cx: Cx, a: VReg, b: VReg, x: bool, y: bool)
    requires
        m.g.len() == 16,
        tag_homed(cx, a),
        tag_homed(cx, b),
        holds_tag(m, cx, a, parts_of(Value::Bool(x)).0),
        holds_tag(m, cx, b, parts_of(Value::Bool(y)).0),
    ensures
        ({
            let code = cat(load_tag(cx, a), alu_tag(cx, Alu::And, b));
            &&& code is Ok
            &&& run_all(code->Ok_0, m) matches Some(r)
            &&& r.g[0] == parts_of(Value::Bool(x && y)).0
            &&& r.mem == m.mem
        }),
        ({
            let code = cat(load_tag(cx, a), alu_tag(cx, Alu::Or, b));
            &&& code is Ok
            &&& run_all(code->Ok_0, m) matches Some(r)
            &&& r.g[0] == parts_of(Value::Bool(x || y)).0
            &&& r.mem == m.mem
        }),
{
    assert(3u64 & 3u64 == 3 && 3u64 & 259u64 == 3 && 259u64 & 3u64 == 3 && 259u64 & 259u64 == 259)
        by (bit_vector);
    assert(3u64 | 3u64 == 3 && 3u64 | 259u64 == 259 && 259u64 | 3u64 == 259 && 259u64 | 259u64
        == 259) by (bit_vector);
    logic_runs(m, cx, Alu::And, a, b, parts_of(Value::Bool(x)).0, parts_of(Value::Bool(y)).0);
    logic_runs(m, cx, Alu::Or, a, b, parts_of(Value::Bool(x)).0, parts_of(Value::Bool(y)).0);
}

proof fn logic_runs(m: Cpu, cx: Cx, op: Alu, a: VReg, b: VReg, x: u64, y: u64)
    requires
        m.g.len() == 16,
        op is And || op is Or,
        tag_homed(cx, a),
        tag_homed(cx, b),
        holds_tag(m, cx, a, x),
        holds_tag(m, cx, b, y),
    ensures
        ({
            let code = cat(load_tag(cx, a), alu_tag(cx, op, b));
            &&& code is Ok
            &&& run_all(code->Ok_0, m) matches Some(r)
            &&& r.g[0] == crate::jit::meaning::alu(op, x, y).0
            &&& r.mem == m.mem
        }),
{
    let c1 = load_tag(cx, a)->Ok_0;
    let c2 = alu_tag(cx, op, b)->Ok_0;
    match home_in(cx, a) {
        Some(Home::Gpr(g)) => run_one(Code::MovRr(Gpr(RAX), g), m),
        Some(Home::Slot(s)) => run_one(Code::MovRm(Gpr(RAX), spill_tag(cx.lay, s)), m),
        _ => {},
    }
    let m1 = with_g(m, Gpr(RAX), x);
    assert(holds_tag(m1, cx, b, y));
    match home_in(cx, b) {
        Some(Home::Gpr(g)) => run_one(Code::AluRr(op, Gpr(RAX), g), m1),
        Some(Home::Slot(s)) => run_one(Code::AluRm(op, Gpr(RAX), spill_tag(cx.lay, s)), m1),
        _ => {},
    }
    run_joined(c1, c2, m);
}

/// Inlined equality of truth values and of characters does what the interpreter
/// does: `rax` holds the tag word of the outcome when it is stored.
pub proof fn tag_compare_law(m: Cpu, cx: Cx, a: VReg, b: VReg, u: Value, v: Value)
    requires
        m.g.len() == 16,
        u is Bool && v is Bool || u is Char && v is Char,
        tag_homed(cx, a),
        tag_homed(cx, b),
        holds_tag(m, cx, a, parts_of(u).0),
        holds_tag(m, cx, b, parts_of(v).0),
    ensures
        ({
            let code = cat(
                cat(load_tag(cx, a), alu_tag(cx, Alu::Compare, b)),
                Ok(condition(Cond::Z)),
            );
            &&& code is Ok
            &&& run_all(code->Ok_0, m) matches Some(r)
            &&& r.g[0] == parts_of(Value::Bool(u == v)).0
            &&& r.mem == m.mem
        }),
{
    let c1 = load_tag(cx, a)->Ok_0;
    let c2 = alu_tag(cx, Alu::Compare, b)->Ok_0;
    match home_in(cx, a) {
        Some(Home::Gpr(g)) => run_one(Code::MovRr(Gpr(RAX), g), m),
        Some(Home::Slot(s)) => run_one(Code::MovRm(Gpr(RAX), spill_tag(cx.lay, s)), m),
        _ => {},
    }
    let m1 = with_g(m, Gpr(RAX), parts_of(u).0);
    assert(holds_tag(m1, cx, b, parts_of(v).0));
    match home_in(cx, b) {
        Some(Home::Gpr(g)) => run_one(Code::AluRr(Alu::Compare, Gpr(RAX), g), m1),
        Some(Home::Slot(s)) => run_one(
            Code::AluRm(Alu::Compare, Gpr(RAX), spill_tag(cx.lay, s)),
            m1,
        ),
        _ => {},
    }
    let m2 = run_all(c2, m1)->Some_0;
    run_joined(c1, c2, m);
    let set = seq![Code::Setcc(Cond::Z, Gpr(RAX))];
    run_one(Code::Setcc(Cond::Z, Gpr(RAX)), m2);
    let m3 = run_all(set, m2)->Some_0;
    assert(m3.g[0] == digit(u == v));
    tagify_law(m3, u == v);
    run_joined(set, tagify(), m2);
    run_joined(c1 + c2, condition(Cond::Z), m);
}

} // verus!
