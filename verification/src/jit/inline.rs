//! The code of instructions that compute in place.

use crate::arith::fit;
use crate::jit::assembler::{Cond, Gpr};
use crate::jit::code::{bind_found, bind_of, bind_unique, branch_of, well_labelled, Alu, Code, Sse};
use crate::jit::decide::{
    float_compare_law, float_homed, floats_compare, holds_float, holds_tag, logic_law,
    tag_compare_law, tag_homed,
};
use crate::jit::frame::{
    cat, home_in, layout_ok, load_float, load_int, load_tag, store_int, store_tag, type_in, Cx,
};
use crate::jit::ir::{BinOp, KType, VReg};
use crate::jit::meaning::{
    arith_runs, compares, exact, holds_int, homed, int_compare_law, load_int_runs, meaning, run,
    run_all, run_joined, stepped, walked, wrap_fits, with_g, Cpu, Flags,
};
use crate::jit::processor::{
    act,
    holds, hop, hops, hops_joined, joined, leads, only, only_after, only_scratch, parted, placed,
    scratch_after, slot_words, sound_home, store_int_goes, store_tag_goes, stored,
};
use crate::jit::regalloc::Home;
use crate::jit::regs::RAX;
use crate::jit::select::{
    alu_payload, alu_tag, bin_code, condition, float_cond, int_arith, int_cond, overflow_check,
    sse_operand, tagify, OVERFLOW_LABEL,
};
use crate::jit::value::{int_bits, parts_of};
use crate::vm::value::Value;
use crate::vm::world::Answers;
use vstd::prelude::*;

verus! {

/// An instruction that writes nothing but registers in which code computes.
pub open spec fn quiet(c: Code) -> bool {
    match c {
        Code::MovRr(d, _) => d.0 <= 2,
        Code::MovRi(d, _) => d.0 <= 2,
        Code::MovRm(d, _) => d.0 <= 2,
        Code::Movabs(d, _) => d.0 <= 2,
        Code::AluRr(_, d, _) => d.0 <= 2,
        Code::AluRm(_, d, _) => d.0 <= 2,
        Code::AluRi(_, d, _) => d.0 <= 2,
        Code::Imul(d, _) => d.0 <= 2,
        Code::ShiftRi(_, d, _) => d.0 <= 2,
        Code::Neg(d) => d.0 <= 2,
        Code::Setcc(_, d) => d.0 <= 2,
        Code::Test(_, _) => true,
        Code::SseRr(op, d, _) => op is Compare || op is Move && d.0 == 0,
        Code::SseRm(op, d, _) => op is Compare || op is Move && d.0 == 0,
        Code::Jcc(_, _) => true,
        Code::Jmp(_) => true,
        Code::Bind(_) => true,
        _ => false,
    }
}

/// All instructions are quiet.
pub open spec fn all_quiet(cs: Seq<Code>) -> bool {
    forall|i: int| 0 <= i < cs.len() ==> quiet(#[trigger] cs[i])
}

proof fn quiet_step(m: Cpu, c: Code)
    requires
        quiet(c),
        m.g.len() == 16,
        m.x.len() == 16,
        meaning(m, c) is Some,
    ensures
        only_scratch(m, meaning(m, c)->Some_0),
{
}

proof fn quiet_run(frag: Seq<Code>, n: int, m: Cpu)
    requires
        all_quiet(frag),
        0 <= n <= frag.len(),
        m.g.len() == 16,
        m.x.len() == 16,
        run(frag, n, m) is Some,
    ensures
        only_scratch(m, run(frag, n, m)->Some_0),
    decreases n,
{
    if n > 0 {
        quiet_run(frag, n - 1, m);
        let x = run(frag, n - 1, m)->Some_0;
        quiet_step(x, frag[n - 1]);
        scratch_after(m, x, run(frag, n, m)->Some_0);
    }
}

proof fn run_goes(w: Answers, cs: Seq<Code>, p: int, frag: Seq<Code>, n: int, m: Cpu)
    requires
        placed(cs, p, frag),
        0 <= n <= frag.len(),
        run(frag, n, m) is Some,
        all_quiet(frag),
    ensures
        hops(w, cs, p, m, n as nat) == Some((p + n, run(frag, n, m)->Some_0)),
    decreases n,
{
    reveal(act);
    reveal(placed);
    if n > 0 {
        run_goes(w, cs, p, frag, n - 1, m);
        let x = run(frag, n - 1, m)->Some_0;
        let y = run(frag, n, m)->Some_0;
        assert(cs[p + (n - 1)] == frag[n - 1]);
        assert(quiet(frag[n - 1]));
        assert(hop(w, cs, p + n - 1, x) == Some((p + n, y)));
        hops_joined(w, cs, p, m, (n - 1) as nat, 1);
        reveal_with_fuel(hops, 2);
        assert((n - 1) as nat + 1 == n as nat);
    }
}

/// Straight code that only computes goes through to its end.
pub proof fn straight_goes(w: Answers, cs: Seq<Code>, p: int, frag: Seq<Code>, m: Cpu)
    requires
        placed(cs, p, frag),
        run_all(frag, m) is Some,
        all_quiet(frag),
        m.g.len() == 16,
        m.x.len() == 16,
    ensures
        leads(w, cs, p, m, p + frag.len(), run_all(frag, m)->Some_0),
        only_scratch(m, run_all(frag, m)->Some_0),
{
    reveal(leads);
    run_goes(w, cs, p, frag, frag.len() as int, m);
    quiet_run(frag, frag.len() as int, m);
}

/// The jumps of a piece of code stay in it.
pub open spec fn self_contained(frag: Seq<Code>) -> bool {
    forall|i: int|
        0 <= i < frag.len() ==> (branch_of(#[trigger] frag[i]) matches Some((_, l)) ==> bind_of(
            frag,
            l,
            0,
        ) < frag.len())
}

/// Code with jumps that only computes goes through to its end.
pub proof fn walk_goes(w: Answers, cs: Seq<Code>, p: int, frag: Seq<Code>, i: int, m: Cpu, fuel: nat, x: Cpu)
    requires
        placed(cs, p, frag),
        well_labelled(cs),
        self_contained(frag),
        all_quiet(frag),
        0 <= i <= frag.len(),
        m.g.len() == 16,
        m.x.len() == 16,
        walked(frag, i, m, fuel) == Some((frag.len() as int, x)),
    ensures
        leads(w, cs, p + i, m, p + frag.len(), x),
        only_scratch(m, x),
    decreases fuel,
{
    reveal(act);
    reveal(placed);
    reveal(leads);
    if fuel == 0 || i >= frag.len() {
        assert(hops(w, cs, p + i, m, 0) == Some((p + i, m)));
    } else {
        let (j, y) = stepped(frag, i, m)->Some_0;
        assert(cs[p + i] == frag[i]);
        assert(quiet(frag[i]));
        if let Some((_, l)) = branch_of(frag[i]) {
            bind_found(frag, l, 0);
            let k = bind_of(frag, l, 0);
            assert(cs[p + k] == frag[k]);
            bind_unique(cs, l, p + k, 0);
        } else {
            quiet_step(m, frag[i]);
        }
        assert(hop(w, cs, p + i, m) == Some((p + j, y)));
        reveal_with_fuel(hops, 2);
        assert(hops(w, cs, p + i, m, 1) == Some((p + j, y)));
        walk_goes(w, cs, p, frag, j, y, (fuel - 1) as nat, x);
        joined(w, cs, p + i, m, p + j, y, p + frag.len(), x);
        scratch_after(m, y, x);
    }
}

/// What is held as an integer.
proof fn int_held(m: Cpu, cx: Cx, v: VReg, n: i64)
    requires
        layout_ok(cx.lay),
        holds(m, cx, v, Value::Int(n)),
    ensures
        homed(cx, v),
        holds_int(m, cx, v, n),
        load_int(cx, v) is Ok,
        all_quiet(load_int(cx, v)->Ok_0),
{
    if let Some(Home::Slot(s)) = home_in(cx, v) {
        slot_words(m, cx, s);
    }
}

proof fn tag_held(m: Cpu, cx: Cx, v: VReg, val: Value)
    requires
        layout_ok(cx.lay),
        holds(m, cx, v, val),
        val is Bool || val is Char,
    ensures
        tag_homed(cx, v),
        holds_tag(m, cx, v, parts_of(val).0),
        load_tag(cx, v) is Ok,
        all_quiet(load_tag(cx, v)->Ok_0),
{
    if let Some(Home::Slot(s)) = home_in(cx, v) {
        slot_words(m, cx, s);
    }
}

proof fn float_held(m: Cpu, cx: Cx, v: VReg, f: u64)
    requires
        layout_ok(cx.lay),
        holds(m, cx, v, Value::Float(f)),
    ensures
        float_homed(cx, v),
        holds_float(m, cx, v, f),
        load_float(cx, v) is Ok,
        all_quiet(load_float(cx, v)->Ok_0),
{
    if let Some(Home::Slot(s)) = home_in(cx, v) {
        slot_words(m, cx, s);
    }
}

proof fn quiet_joined(a: Seq<Code>, b: Seq<Code>)
    requires
        all_quiet(a),
        all_quiet(b),
    ensures
        all_quiet(a + b),
{
}

/// Where a computation ends: at the end of its code with the result in its home, or
/// at the report of an overflow.
pub open spec fn comes_to(
    w: Answers,
    cs: Seq<Code>,
    p: int,
    len: nat,
    cx: Cx,
    m: Cpu,
    x: Cpu,
    dst: VReg,
    r: Option<Value>,
) -> bool {
    match r {
        Some(v) => leads(w, cs, p, m, p + len, x) && stored(cx, m, x, dst, v),
        None => leads(w, cs, p, m, bind_of(cs, OVERFLOW_LABEL, 0), x) && only(cx, m, x, None),
    }
}

/// The result as a value.
pub open spec fn int_value(r: Option<i64>) -> Option<Value> {
    match r {
        Some(n) => Some(Value::Int(n)),
        None => None,
    }
}

/// The check for an overflow is passed, or leads to the report.
pub proof fn overflow_goes(w: Answers, cs: Seq<Code>, p: int, cx: Cx, m: Cpu, r: u64, o: bool)
    requires
        placed(cs, p, overflow_check(cx)),
        m.flags == Flags::Result(r, o),
    ensures
        cx.checks && o ==> leads(w, cs, p, m, bind_of(cs, OVERFLOW_LABEL, 0), m),
        !(cx.checks && o) ==> leads(w, cs, p, m, p + overflow_check(cx).len(), m),
{
    reveal(placed);
    reveal(leads);
    reveal_with_fuel(hops, 2);
    if cx.checks {
        assert(cs[p + 0] == overflow_check(cx)[0]);
        assert(hops(w, cs, p, m, 1) == hop(w, cs, p, m));
    } else {
        assert(hops(w, cs, p, m, 0) == Some((p, m)));
    }
}

/// Arithmetic on integers.
#[verifier::spinoff_prover]
#[verifier::rlimit(100)]
pub proof fn int_bin_goes(
    w: Answers,
    cs: Seq<Code>,
    p: int,
    cx: Cx,
    dst: VReg,
    op: BinOp,
    a: VReg,
    b: VReg,
    m: Cpu,
    x: i64,
    y: i64,
) -> (r: Cpu)
    requires
        m.g.len() == 16,
        m.x.len() == 16,
        layout_ok(cx.lay),
        op is Add || op is Sub || op is Mul,
        type_in(cx, a) == Some(KType::Int),
        holds(m, cx, a, Value::Int(x)),
        holds(m, cx, b, Value::Int(y)),
        forall|n: i64| #[trigger] sound_home(cx, dst, Value::Int(n)),
        bin_code(cx, dst, op, a, b) is Ok,
        placed(cs, p, bin_code(cx, dst, op, a, b)->Ok_0),
    ensures
        comes_to(
            w,
            cs,
            p,
            bin_code(cx, dst, op, a, b)->Ok_0.len(),
            cx,
            m,
            r,
            dst,
            int_value(fit(cx.checks, exact(op, x, y))),
        ),
{
    int_held(m, cx, a, x);
    int_held(m, cx, b, y);
    load_int_runs(m, cx, a, x);
    let m1 = with_g(m, Gpr(RAX), int_bits(x));
    assert(holds_int(m1, cx, b, y));
    arith_runs(m1, cx, op, b, x, y);
    let c1 = load_int(cx, a)->Ok_0;
    let c2 = int_arith(cx, op, b)->Ok_0;
    let c3 = overflow_check(cx);
    let c4 = store_int(cx, dst)->Ok_0;
    run_joined(c1, c2, m);
    let m2 = run_all(c2, m1)->Some_0;
    parted(cs, p, c1 + c2 + c3, c4);
    parted(cs, p, c1 + c2, c3);
    assert(all_quiet(c1 + c2)) by {
        assert(all_quiet(c2));
        quiet_joined(c1, c2);
    }
    straight_goes(w, cs, p, c1 + c2, m);
    let q = p + (c1 + c2).len();
    let n = wrap_of(exact(op, x, y));
    overflow_goes(w, cs, q, cx, m2, int_bits(n), !crate::jit::meaning::fits(exact(op, x, y)));
    wrap_fits(exact(op, x, y));
    if cx.checks && !crate::jit::meaning::fits(exact(op, x, y)) {
        joined(w, cs, p, m, q, m2, bind_of(cs, OVERFLOW_LABEL, 0), m2);
        assert(only(cx, m, m2, None)) by {
            assert(m2.g[13] == m.g[13]);
        }
        m2
    } else {
        joined(w, cs, p, m, q, m2, q + c3.len(), m2);
        assert(sound_home(cx, dst, Value::Int(n)));
        let r = store_int_goes(w, cs, p + (c1 + c2 + c3).len(), cx, dst, m2, n);
        joined(w, cs, p, m, q + c3.len(), m2, p + (c1 + c2 + c3 + c4).len(), r);
        only_after(cx, m, m2, r, Some(dst));
        r
    }
}

/// The wrapped number.
pub open spec fn wrap_of(n: int) -> i64 {
    crate::arith::wrap(n)
}

/// A truth value that was computed into `rax` by quiet code is stored.
proof fn tag_after(
    w: Answers,
    cs: Seq<Code>,
    p: int,
    cx: Cx,
    dst: VReg,
    frag: Seq<Code>,
    m: Cpu,
    t: bool,
) -> (r: Cpu)
    requires
        m.g.len() == 16,
        m.x.len() == 16,
        layout_ok(cx.lay),
        all_quiet(frag),
        run_all(frag, m) is Some,
        run_all(frag, m)->Some_0.g[0] == parts_of(Value::Bool(t)).0,
        sound_home(cx, dst, Value::Bool(t)),
        store_tag(cx, dst) is Ok,
        placed(cs, p, frag + store_tag(cx, dst)->Ok_0),
    ensures
        leads(w, cs, p, m, p + (frag + store_tag(cx, dst)->Ok_0).len(), r),
        stored(cx, m, r, dst, Value::Bool(t)),
{
    let c = store_tag(cx, dst)->Ok_0;
    parted(cs, p, frag, c);
    straight_goes(w, cs, p, frag, m);
    let m1 = run_all(frag, m)->Some_0;
    let r = store_tag_goes(w, cs, p + frag.len(), cx, dst, m1, Value::Bool(t));
    joined(w, cs, p, m, p + frag.len(), m1, p + (frag + c).len(), r);
    only_after(cx, m, m1, r, Some(dst));
    r
}

/// Comparison of integers.
pub proof fn int_compare_goes(
    w: Answers,
    cs: Seq<Code>,
    p: int,
    cx: Cx,
    dst: VReg,
    op: BinOp,
    a: VReg,
    b: VReg,
    m: Cpu,
    x: i64,
    y: i64,
) -> (r: Cpu)
    requires
        m.g.len() == 16,
        m.x.len() == 16,
        layout_ok(cx.lay),
        op.compares(),
        type_in(cx, a) == Some(KType::Int),
        holds(m, cx, a, Value::Int(x)),
        holds(m, cx, b, Value::Int(y)),
        sound_home(cx, dst, Value::Bool(compares(op, x, y))),
        bin_code(cx, dst, op, a, b) is Ok,
        placed(cs, p, bin_code(cx, dst, op, a, b)->Ok_0),
    ensures
        leads(w, cs, p, m, p + bin_code(cx, dst, op, a, b)->Ok_0.len(), r),
        stored(cx, m, r, dst, Value::Bool(compares(op, x, y))),
{
    int_held(m, cx, a, x);
    int_held(m, cx, b, y);
    int_compare_law(m, cx, op, a, b, x, y);
    let frag = cat(
        cat(load_int(cx, a), alu_payload(cx, Alu::Compare, b)),
        Ok(condition(int_cond(op))),
    )->Ok_0;
    tag_after(w, cs, p, cx, dst, frag, m, compares(op, x, y))
}

/// Comparison of floats.
pub proof fn float_compare_goes(
    w: Answers,
    cs: Seq<Code>,
    p: int,
    cx: Cx,
    dst: VReg,
    op: BinOp,
    a: VReg,
    b: VReg,
    m: Cpu,
    x: u64,
    y: u64,
) -> (r: Cpu)
    requires
        m.g.len() == 16,
        m.x.len() == 16,
        layout_ok(cx.lay),
        op.compares(),
        type_in(cx, a) == Some(KType::Float),
        holds(m, cx, a, Value::Float(x)),
        holds(m, cx, b, Value::Float(y)),
        sound_home(cx, dst, Value::Bool(floats_compare(op, x, y))),
        bin_code(cx, dst, op, a, b) is Ok,
        placed(cs, p, bin_code(cx, dst, op, a, b)->Ok_0),
    ensures
        leads(w, cs, p, m, p + bin_code(cx, dst, op, a, b)->Ok_0.len(), r),
        stored(cx, m, r, dst, Value::Bool(floats_compare(op, x, y))),
{
    float_held(m, cx, a, x);
    float_held(m, cx, b, y);
    float_compare_law(m, cx, op, a, b, x, y);
    let c1 = load_float(cx, a)->Ok_0;
    let c2 = sse_operand(cx, Sse::Compare, b)->Ok_0;
    let c3 = float_cond(op);
    assert(all_quiet(c2));
    assert(all_quiet(c3));
    assert(all_quiet(tagify()));
    quiet_joined(c1, c2);
    quiet_joined(c1 + c2, c3);
    quiet_joined(c1 + c2 + c3, tagify());
    tag_after(w, cs, p, cx, dst, c1 + c2 + c3 + tagify(), m, floats_compare(op, x, y))
}

/// Equality of truth values and of characters.
pub proof fn tag_compare_goes(
    w: Answers,
    cs: Seq<Code>,
    p: int,
    cx: Cx,
    dst: VReg,
    a: VReg,
    b: VReg,
    m: Cpu,
    u: Value,
    v: Value,
) -> (r: Cpu)
    requires
        m.g.len() == 16,
        m.x.len() == 16,
        layout_ok(cx.lay),
        type_in(cx, a) == Some(KType::Bool) || type_in(cx, a) == Some(KType::Char),
        u is Bool && v is Bool || u is Char && v is Char,
        holds(m, cx, a, u),
        holds(m, cx, b, v),
        sound_home(cx, dst, Value::Bool(u == v)),
        bin_code(cx, dst, BinOp::Eq, a, b) is Ok,
        placed(cs, p, bin_code(cx, dst, BinOp::Eq, a, b)->Ok_0),
    ensures
        leads(w, cs, p, m, p + bin_code(cx, dst, BinOp::Eq, a, b)->Ok_0.len(), r),
        stored(cx, m, r, dst, Value::Bool(u == v)),
{
    tag_held(m, cx, a, u);
    tag_held(m, cx, b, v);
    tag_compare_law(m, cx, a, b, u, v);
    let c1 = load_tag(cx, a)->Ok_0;
    let c2 = alu_tag(cx, Alu::Compare, b)->Ok_0;
    let c3 = condition(Cond::Z);
    assert(all_quiet(c2));
    assert(all_quiet(c3));
    quiet_joined(c1, c2);
    quiet_joined(c1 + c2, c3);
    tag_after(w, cs, p, cx, dst, c1 + c2 + c3, m, u == v)
}

/// Logic on truth values.
pub proof fn logic_goes(
    w: Answers,
    cs: Seq<Code>,
    p: int,
    cx: Cx,
    dst: VReg,
    op: BinOp,
    a: VReg,
    b: VReg,
    m: Cpu,
    x: bool,
    y: bool,
) -> (r: Cpu)
    requires
        m.g.len() == 16,
        m.x.len() == 16,
        layout_ok(cx.lay),
        op is And || op is Or,
        type_in(cx, a) is Some,
        holds(m, cx, a, Value::Bool(x)),
        holds(m, cx, b, Value::Bool(y)),
        forall|t: bool| #[trigger] sound_home(cx, dst, Value::Bool(t)),
        bin_code(cx, dst, op, a, b) is Ok,
        placed(cs, p, bin_code(cx, dst, op, a, b)->Ok_0),
    ensures
        leads(w, cs, p, m, p + bin_code(cx, dst, op, a, b)->Ok_0.len(), r),
        stored(
            cx,
            m,
            r,
            dst,
            Value::Bool(if op is And {
                x && y
            } else {
                x || y
            }),
        ),
{
    tag_held(m, cx, a, Value::Bool(x));
    tag_held(m, cx, b, Value::Bool(y));
    logic_law(m, cx, a, b, x, y);
    let c1 = load_tag(cx, a)->Ok_0;
    let alu = if op is And {
        Alu::And
    } else {
        Alu::Or
    };
    let t = if op is And {
        x && y
    } else {
        x || y
    };
    let c2 = alu_tag(cx, alu, b)->Ok_0;
    assert(all_quiet(c2));
    quiet_joined(c1, c2);
    assert(sound_home(cx, dst, Value::Bool(t)));
    tag_after(w, cs, p, cx, dst, c1 + c2, m, t)
}

} // verus!
