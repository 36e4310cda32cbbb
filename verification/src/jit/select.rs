//! Instruction selection: the machine code of each operation on known types.

use crate::jit::assembler::{Cond, Gpr, Mem, Xmm};
use crate::jit::code::{Alu, Code, Shift, Sse};
use crate::jit::frame::{
    cat, emits, home_in, in_frame, load_float, load_int, load_tag, misplaced, spill_payload,
    spill_tag, store_float, store_int, store_tag, type_in, Codegen, Cx, Emitted,
};
use crate::jit::ir::{BinOp, ConvTarget, KType, UnOp, VReg};
use crate::jit::regalloc::Home;
use crate::jit::regs::{R13, RAX, RCX, RDX};
use crate::jit::xmms::XMM0;
use crate::text::{cat2, own};
use vstd::prelude::*;

verus! {

/// The label of the code that reports an overflow.
pub const OVERFLOW_LABEL: usize = 1;

/// Turn 0 or 1 in `rax` into the tag word of a truth value.
pub open spec fn tagify() -> Seq<Code> {
    seq![
        Code::ShiftRi(Shift::Left, Gpr(RAX), 8),
        Code::AluRi(Alu::Or, Gpr(RAX), 3),
    ]
}

/// A condition as the tag word of a truth value in `rax`.
pub open spec fn condition(cc: Cond) -> Seq<Code> {
    seq![Code::Setcc(cc, Gpr(RAX))] + tagify()
}

/// A condition that fails where floats are not ordered, as 0 or 1 in `rax`.
pub open spec fn ordered_condition(cc: Cond) -> Seq<Code> {
    seq![
        Code::Setcc(cc, Gpr(RAX)),
        Code::Setcc(Cond::P, Gpr(RCX)),
        Code::AluRi(Alu::Xor, Gpr(RCX), 1),
        Code::AluRr(Alu::And, Gpr(RAX), Gpr(RCX)),
    ]
}

/// A jump to the report where the last operation overflowed.
pub open spec fn overflow_check(cx: Cx) -> Seq<Code> {
    if cx.checks {
        seq![Code::Jcc(Cond::O, OVERFLOW_LABEL)]
    } else {
        seq![]
    }
}

/// An integer operation on `rax` and the payload of `b`.
pub open spec fn alu_payload(cx: Cx, op: Alu, b: VReg) -> Emitted {
    match home_in(cx, b) {
        Some(Home::Gpr(g)) => Ok(seq![Code::AluRr(op, Gpr(RAX), g)]),
        Some(Home::Slot(s)) => Ok(seq![Code::AluRm(op, Gpr(RAX), spill_payload(cx.lay, s))]),
        _ => Err(misplaced()),
    }
}

/// An integer operation on `rax` and the tag word of `b`.
pub open spec fn alu_tag(cx: Cx, op: Alu, b: VReg) -> Emitted {
    match home_in(cx, b) {
        Some(Home::Gpr(g)) => Ok(seq![Code::AluRr(op, Gpr(RAX), g)]),
        Some(Home::Slot(s)) => Ok(seq![Code::AluRm(op, Gpr(RAX), spill_tag(cx.lay, s))]),
        _ => Err(misplaced()),
    }
}

/// The product of `rax` and the payload of `b`.
pub open spec fn times_payload(cx: Cx, b: VReg) -> Emitted {
    match home_in(cx, b) {
        Some(Home::Gpr(g)) => Ok(seq![Code::Imul(Gpr(RAX), g)]),
        Some(Home::Slot(s)) => Ok(
            seq![
                Code::MovRm(Gpr(RDX), spill_payload(cx.lay, s)),
                Code::Imul(Gpr(RAX), Gpr(RDX)),
            ],
        ),
        _ => Err(misplaced()),
    }
}

/// A float operation on `xmm0` and `b`.
pub open spec fn sse_operand(cx: Cx, op: Sse, b: VReg) -> Emitted {
    match home_in(cx, b) {
        Some(Home::Xmm(x)) => Ok(seq![Code::SseRr(op, Xmm(XMM0), x)]),
        Some(Home::Slot(s)) => Ok(seq![Code::SseRm(op, Xmm(XMM0), spill_payload(cx.lay, s))]),
        _ => Err(misplaced()),
    }
}

/// The condition of an integer comparison.
pub open spec fn int_cond(op: BinOp) -> Cond {
    match op {
        BinOp::Lt => Cond::L,
        BinOp::Le => Cond::LE,
        BinOp::Gt => Cond::G,
        BinOp::Ge => Cond::GE,
        _ => Cond::Z,
    }
}

/// The outcome of a float comparison as 0 or 1 in `rax`.
pub open spec fn float_cond(op: BinOp) -> Seq<Code> {
    match op {
        BinOp::Lt => ordered_condition(Cond::B),
        BinOp::Le => ordered_condition(Cond::BE),
        BinOp::Gt => seq![Code::Setcc(Cond::A, Gpr(RAX))],
        BinOp::Ge => seq![Code::Setcc(Cond::AE, Gpr(RAX))],
        _ => ordered_condition(Cond::Z),
    }
}

/// Integer arithmetic of `rax` and `b`.
pub open spec fn int_arith(cx: Cx, op: BinOp, b: VReg) -> Emitted {
    match op {
        BinOp::Add => alu_payload(cx, Alu::Add, b),
        BinOp::Sub => alu_payload(cx, Alu::Sub, b),
        _ => times_payload(cx, b),
    }
}

/// Float arithmetic of `xmm0` and `b`.
pub open spec fn float_arith(cx: Cx, op: BinOp, b: VReg) -> Emitted {
    match op {
        BinOp::Add => sse_operand(cx, Sse::Add, b),
        BinOp::Sub => sse_operand(cx, Sse::Sub, b),
        _ => sse_operand(cx, Sse::Mul, b),
    }
}

/// The code of an operation on two registers of the same type.
pub open spec fn bin_code(cx: Cx, dst: VReg, op: BinOp, a: VReg, b: VReg) -> Emitted {
    match (op, type_in(cx, a)) {
        (BinOp::Add, Some(KType::Int))
        | (BinOp::Sub, Some(KType::Int))
        | (BinOp::Mul, Some(KType::Int)) => cat(
            cat(cat(load_int(cx, a), int_arith(cx, op, b)), Ok(overflow_check(cx))),
            store_int(cx, dst),
        ),
        (BinOp::Add, Some(KType::Float))
        | (BinOp::Sub, Some(KType::Float))
        | (BinOp::Mul, Some(KType::Float)) => cat(
            cat(load_float(cx, a), float_arith(cx, op, b)),
            store_float(cx, dst),
        ),
        (BinOp::Eq, Some(KType::Int))
        | (BinOp::Lt, Some(KType::Int))
        | (BinOp::Le, Some(KType::Int))
        | (BinOp::Gt, Some(KType::Int))
        | (BinOp::Ge, Some(KType::Int)) => cat(
            cat(
                cat(load_int(cx, a), alu_payload(cx, Alu::Compare, b)),
                Ok(condition(int_cond(op))),
            ),
            store_tag(cx, dst),
        ),
        (BinOp::Eq, Some(KType::Bool)) | (BinOp::Eq, Some(KType::Char)) => cat(
            cat(
                cat(load_tag(cx, a), alu_tag(cx, Alu::Compare, b)),
                Ok(condition(Cond::Z)),
            ),
            store_tag(cx, dst),
        ),
        (BinOp::Eq, Some(KType::Float))
        | (BinOp::Lt, Some(KType::Float))
        | (BinOp::Le, Some(KType::Float))
        | (BinOp::Gt, Some(KType::Float))
        | (BinOp::Ge, Some(KType::Float)) => cat(
            cat(
                cat(
                    cat(load_float(cx, a), sse_operand(cx, Sse::Compare, b)),
                    Ok(float_cond(op)),
                ),
                Ok(tagify()),
            ),
            store_tag(cx, dst),
        ),
        (BinOp::And, Some(_)) => cat(
            cat(load_tag(cx, a), alu_tag(cx, Alu::And, b)),
            store_tag(cx, dst),
        ),
        (BinOp::Or, Some(_)) => cat(
            cat(load_tag(cx, a), alu_tag(cx, Alu::Or, b)),
            store_tag(cx, dst),
        ),
        _ => Err(misplaced()),
    }
}

fn bad_operand() -> (r: String)
    ensures
        r@ == misplaced(),
{
    own("codegen: unexpected operand")
}

fn put_tagify(out: &mut Vec<Code>)
    ensures
        final(out)@ == old(out)@ + tagify(),
{
    out.push(Code::ShiftRi(Shift::Left, Gpr(RAX), 8));
    out.push(Code::AluRi(Alu::Or, Gpr(RAX), 3));
    assert(out@ =~= old(out)@ + tagify());
}

fn put_condition(cc: Cond, out: &mut Vec<Code>)
    ensures
        final(out)@ == old(out)@ + condition(cc),
{
    out.push(Code::Setcc(cc, Gpr(RAX)));
    put_tagify(out);
    assert(out@ =~= old(out)@ + condition(cc));
}

fn put_ordered(cc: Cond, out: &mut Vec<Code>)
    ensures
        final(out)@ == old(out)@ + ordered_condition(cc),
{
    out.push(Code::Setcc(cc, Gpr(RAX)));
    out.push(Code::Setcc(Cond::P, Gpr(RCX)));
    out.push(Code::AluRi(Alu::Xor, Gpr(RCX), 1));
    out.push(Code::AluRr(Alu::And, Gpr(RAX), Gpr(RCX)));
    assert(out@ =~= old(out)@ + ordered_condition(cc));
}

fn put_float_cond(op: BinOp, out: &mut Vec<Code>)
    ensures
        final(out)@ == old(out)@ + float_cond(op),
{
    match op {
        BinOp::Lt => put_ordered(Cond::B, out),
        BinOp::Le => put_ordered(Cond::BE, out),
        BinOp::Gt => out.push(Code::Setcc(Cond::A, Gpr(RAX))),
        BinOp::Ge => out.push(Code::Setcc(Cond::AE, Gpr(RAX))),
        _ => put_ordered(Cond::Z, out),
    }
    assert(out@ =~= old(out)@ + float_cond(op));
}

fn find_int_cond(op: BinOp) -> (r: Cond)
    ensures
        r == int_cond(op),
{
    match op {
        BinOp::Lt => Cond::L,
        BinOp::Le => Cond::LE,
        BinOp::Gt => Cond::G,
        BinOp::Ge => Cond::GE,
        _ => Cond::Z,
    }
}

impl<'a> Codegen<'a> {
    fn emit_alu_payload(&self, op: Alu, b: VReg, out: &mut Vec<Code>) -> (r: Result<(), String>)
        requires
            self.ok(),
        ensures
            emits(r, old(out)@, final(out)@, alu_payload(self.cx(), op, b)),
    {
        match self.home(b) {
            Some(Home::Gpr(g)) => out.push(Code::AluRr(op, Gpr(RAX), g)),
            Some(Home::Slot(s)) => out.push(Code::AluRm(op, Gpr(RAX), self.slot_payload(s))),
            _ => return Err(bad_operand()),
        }
        assert(out@ =~= old(out)@ + alu_payload(self.cx(), op, b)->Ok_0);
        Ok(())
    }

    fn emit_alu_tag(&self, op: Alu, b: VReg, out: &mut Vec<Code>) -> (r: Result<(), String>)
        requires
            self.ok(),
        ensures
            emits(r, old(out)@, final(out)@, alu_tag(self.cx(), op, b)),
    {
        match self.home(b) {
            Some(Home::Gpr(g)) => out.push(Code::AluRr(op, Gpr(RAX), g)),
            Some(Home::Slot(s)) => out.push(Code::AluRm(op, Gpr(RAX), self.slot_tag(s))),
            _ => return Err(bad_operand()),
        }
        assert(out@ =~= old(out)@ + alu_tag(self.cx(), op, b)->Ok_0);
        Ok(())
    }

    fn emit_int_arith(&self, op: BinOp, b: VReg, out: &mut Vec<Code>) -> (r: Result<(), String>)
        requires
            self.ok(),
        ensures
            emits(r, old(out)@, final(out)@, int_arith(self.cx(), op, b)),
    {
        match op {
            BinOp::Add => self.emit_alu_payload(Alu::Add, b, out),
            BinOp::Sub => self.emit_alu_payload(Alu::Sub, b, out),
            _ => {
                match self.home(b) {
                    Some(Home::Gpr(g)) => out.push(Code::Imul(Gpr(RAX), g)),
                    Some(Home::Slot(s)) => {
                        out.push(Code::MovRm(Gpr(RDX), self.slot_payload(s)));
                        out.push(Code::Imul(Gpr(RAX), Gpr(RDX)));
                    },
                    _ => return Err(bad_operand()),
                }
                assert(out@ =~= old(out)@ + times_payload(self.cx(), b)->Ok_0);
                Ok(())
            },
        }
    }

    fn emit_sse(&self, op: Sse, b: VReg, out: &mut Vec<Code>) -> (r: Result<(), String>)
        requires
            self.ok(),
        ensures
            emits(r, old(out)@, final(out)@, sse_operand(self.cx(), op, b)),
    {
        match self.home(b) {
            Some(Home::Xmm(x)) => out.push(Code::SseRr(op, Xmm(XMM0), x)),
            Some(Home::Slot(s)) => out.push(Code::SseRm(op, Xmm(XMM0), self.slot_payload(s))),
            _ => return Err(bad_operand()),
        }
        assert(out@ =~= old(out)@ + sse_operand(self.cx(), op, b)->Ok_0);
        Ok(())
    }

    fn emit_overflow_check(&self, out: &mut Vec<Code>)
        ensures
            final(out)@ == old(out)@ + overflow_check(self.cx()),
    {
        if self.func.overflow_checks {
            out.push(Code::Jcc(Cond::O, OVERFLOW_LABEL));
        }
        assert(out@ =~= old(out)@ + overflow_check(self.cx()));
    }

    fn emit_int_bin(&self, dst: VReg, op: BinOp, a: VReg, b: VReg, out: &mut Vec<Code>) -> (r:
        Result<(), String>)
        requires
            self.ok(),
            op is Add || op is Sub || op is Mul || op is Eq || op is Lt || op is Le || op is Gt
                || op is Ge,
            type_in(self.cx(), a) == Some(KType::Int),
        ensures
            emits(r, old(out)@, final(out)@, bin_code(self.cx(), dst, op, a, b)),
    {
        self.emit_load_int(a, out)?;
        match op {
            BinOp::Add | BinOp::Sub | BinOp::Mul => {
                self.emit_int_arith(op, b, out)?;
                self.emit_overflow_check(out);
                self.emit_store_int(dst, out)?;
            },
            _ => {
                self.emit_alu_payload(Alu::Compare, b, out)?;
                put_condition(find_int_cond(op), out);
                self.emit_store_tag(dst, out)?;
            },
        }
        assert(out@ =~= old(out)@ + bin_code(self.cx(), dst, op, a, b)->Ok_0);
        Ok(())
    }

    fn emit_float_bin(&self, dst: VReg, op: BinOp, a: VReg, b: VReg, out: &mut Vec<Code>) -> (r:
        Result<(), String>)
        requires
            self.ok(),
            op is Add || op is Sub || op is Mul || op is Eq || op is Lt || op is Le || op is Gt
                || op is Ge,
            type_in(self.cx(), a) == Some(KType::Float),
        ensures
            emits(r, old(out)@, final(out)@, bin_code(self.cx(), dst, op, a, b)),
    {
        self.emit_load_float(a, out)?;
        match op {
            BinOp::Add => self.emit_sse(Sse::Add, b, out)?,
            BinOp::Sub => self.emit_sse(Sse::Sub, b, out)?,
            BinOp::Mul => self.emit_sse(Sse::Mul, b, out)?,
            _ => self.emit_sse(Sse::Compare, b, out)?,
        }
        match op {
            BinOp::Add | BinOp::Sub | BinOp::Mul => {
                self.emit_store_float(dst, out)?;
            },
            _ => {
                put_float_cond(op, out);
                put_tagify(out);
                self.emit_store_tag(dst, out)?;
            },
        }
        assert(out@ =~= old(out)@ + bin_code(self.cx(), dst, op, a, b)->Ok_0);
        Ok(())
    }

    /// Emit an operation on two registers of the same type.
    pub(crate) fn emit_bin(
        &self,
        dst: VReg,
        op: BinOp,
        a: VReg,
        b: VReg,
        out: &mut Vec<Code>,
    ) -> (r: Result<(), String>)
        requires
            self.ok(),
        ensures
            emits(r, old(out)@, final(out)@, bin_code(self.cx(), dst, op, a, b)),
    {
        let ty: KType = match self.vtype(a) {
            Some(t) => t,
            None => return Err(bad_operand()),
        };
        match op {
            BinOp::Div | BinOp::Rem => Err(bad_operand()),
            BinOp::And | BinOp::Or => {
                self.emit_load_tag(a, out)?;
                if op == BinOp::And {
                    self.emit_alu_tag(Alu::And, b, out)?;
                } else {
                    self.emit_alu_tag(Alu::Or, b, out)?;
                }
                self.emit_store_tag(dst, out)?;
                assert(out@ =~= old(out)@ + bin_code(self.cx(), dst, op, a, b)->Ok_0);
                Ok(())
            },
            _ => match ty {
                KType::Int => self.emit_int_bin(dst, op, a, b, out),
                KType::Float => self.emit_float_bin(dst, op, a, b, out),
                KType::Bool | KType::Char => {
                    if op != BinOp::Eq {
                        return Err(bad_operand());
                    }
                    self.emit_load_tag(a, out)?;
                    self.emit_alu_tag(Alu::Compare, b, out)?;
                    put_condition(Cond::Z, out);
                    self.emit_store_tag(dst, out)?;
                    assert(out@ =~= old(out)@ + bin_code(self.cx(), dst, op, a, b)->Ok_0);
                    Ok(())
                },
                KType::Unknown => Err(bad_operand()),
            },
        }
    }
}

// ---------------------------------------------------------------------------
// Truth
// ---------------------------------------------------------------------------

/// How many labels the truth of a value takes.
pub open spec fn truth_labels(cx: Cx, v: VReg) -> nat {
    if type_in(cx, v) == Some(KType::Unknown) {
        7
    } else {
        0
    }
}

/// The truth of the value of unknown type with tag word `rax` and payload `rcx`,
/// as 0 or 1 in `rax`; `n` is the first free label.
pub open spec fn box_truth(n: int) -> Seq<Code> {
    let (refs, packed, ints) = (n as usize, (n + 1) as usize, (n + 2) as usize);
    let (floats, chars, nulls) = ((n + 3) as usize, (n + 4) as usize, (n + 5) as usize);
    let done = (n + 6) as usize;
    let rax = Gpr(RAX);
    let rcx = Gpr(RCX);
    seq![
        Code::AluRi(Alu::Compare, rax, 5),
        Code::Jcc(Cond::AE, refs),
        Code::AluRi(Alu::Compare, rax, 3),
        Code::Jcc(Cond::AE, packed),
        Code::AluRi(Alu::Compare, rax, 1),
        Code::Jcc(Cond::Z, ints),
        Code::AluRi(Alu::Compare, rax, 2),
        Code::Jcc(Cond::Z, floats),
        Code::AluRr(Alu::Xor, rax, rax),
        Code::Jmp(done),
        Code::Bind(packed),
        Code::AluRi(Alu::Compare, rax, 4),
        Code::Jcc(Cond::Z, chars),
        Code::ShiftRi(Shift::Right, rax, 8),
        Code::Jmp(done),
        Code::Bind(chars),
        Code::MovRi(rax, 1),
        Code::Jmp(done),
        Code::Bind(ints),
        Code::Test(rcx, rcx),
        Code::Setcc(Cond::NZ, rax),
        Code::Jmp(done),
        Code::Bind(floats),
        Code::ShiftRi(Shift::Left, rcx, 1),
        Code::Test(rcx, rcx),
        Code::Setcc(Cond::NZ, rax),
        Code::Jmp(done),
        Code::Bind(refs),
        Code::AluRi(Alu::Compare, rax, 9),
        Code::Jcc(Cond::Z, nulls),
        Code::MovRi(rax, 1),
        Code::Jmp(done),
        Code::Bind(nulls),
        Code::AluRr(Alu::Xor, rax, rax),
        Code::Bind(done),
    ]
}

/// The truth of the double in `xmm0` as 0 or 1 in `rax`: it is not zero, or not
/// a number.
pub open spec fn float_truth(cx: Cx) -> Seq<Code> {
    let zero = in_frame(cx.lay.zero_slot as int);
    seq![
        Code::AluRr(Alu::Xor, Gpr(RAX), Gpr(RAX)),
        Code::MovMr(zero, Gpr(RAX)),
        Code::SseRm(Sse::Compare, Xmm(XMM0), zero),
        Code::Setcc(Cond::P, Gpr(RAX)),
        Code::Setcc(Cond::Z, Gpr(RCX)),
        Code::AluRi(Alu::Xor, Gpr(RCX), 1),
        Code::AluRr(Alu::Or, Gpr(RAX), Gpr(RCX)),
    ]
}

/// The truth of a register as 0 or 1 in `rax`.
pub open spec fn truth(cx: Cx, v: VReg, n: int) -> Emitted {
    match type_in(cx, v) {
        Some(KType::Int) => cat(
            load_int(cx, v),
            Ok(
                seq![
                    Code::Test(Gpr(RAX), Gpr(RAX)),
                    Code::Setcc(Cond::NZ, Gpr(RAX)),
                ],
            ),
        ),
        Some(KType::Bool) => cat(
            load_tag(cx, v),
            Ok(seq![Code::ShiftRi(Shift::Right, Gpr(RAX), 8)]),
        ),
        Some(KType::Char) => Ok(seq![Code::MovRi(Gpr(RAX), 1)]),
        Some(KType::Float) => cat(load_float(cx, v), Ok(float_truth(cx))),
        Some(KType::Unknown) => match home_in(cx, v) {
            Some(Home::Slot(s)) => Ok(
                seq![
                    Code::MovRm(Gpr(RAX), spill_tag(cx.lay, s)),
                    Code::MovRm(Gpr(RCX), spill_payload(cx.lay, s)),
                ] + box_truth(n),
            ),
            _ => Err(misplaced()),
        },
        None => Err(misplaced()),
    }
}

fn put_box_truth(n: usize, out: &mut Vec<Code>)
    requires
        n <= usize::MAX - 8,
    ensures
        final(out)@ == old(out)@ + box_truth(n as int),
{
    let rax: Gpr = Gpr(RAX);
    let rcx: Gpr = Gpr(RCX);
    out.push(Code::AluRi(Alu::Compare, rax, 5));
    out.push(Code::Jcc(Cond::AE, n));
    out.push(Code::AluRi(Alu::Compare, rax, 3));
    out.push(Code::Jcc(Cond::AE, n + 1));
    out.push(Code::AluRi(Alu::Compare, rax, 1));
    out.push(Code::Jcc(Cond::Z, n + 2));
    out.push(Code::AluRi(Alu::Compare, rax, 2));
    out.push(Code::Jcc(Cond::Z, n + 3));
    out.push(Code::AluRr(Alu::Xor, rax, rax));
    out.push(Code::Jmp(n + 6));
    out.push(Code::Bind(n + 1));
    out.push(Code::AluRi(Alu::Compare, rax, 4));
    out.push(Code::Jcc(Cond::Z, n + 4));
    out.push(Code::ShiftRi(Shift::Right, rax, 8));
    out.push(Code::Jmp(n + 6));
    out.push(Code::Bind(n + 4));
    out.push(Code::MovRi(rax, 1));
    out.push(Code::Jmp(n + 6));
    out.push(Code::Bind(n + 2));
    out.push(Code::Test(rcx, rcx));
    out.push(Code::Setcc(Cond::NZ, rax));
    out.push(Code::Jmp(n + 6));
    out.push(Code::Bind(n + 3));
    out.push(Code::ShiftRi(Shift::Left, rcx, 1));
    out.push(Code::Test(rcx, rcx));
    out.push(Code::Setcc(Cond::NZ, rax));
    out.push(Code::Jmp(n + 6));
    out.push(Code::Bind(n));
    out.push(Code::AluRi(Alu::Compare, rax, 9));
    out.push(Code::Jcc(Cond::Z, n + 5));
    out.push(Code::MovRi(rax, 1));
    out.push(Code::Jmp(n + 6));
    out.push(Code::Bind(n + 5));
    out.push(Code::AluRr(Alu::Xor, rax, rax));
    out.push(Code::Bind(n + 6));
    assert(out@ =~= old(out)@ + box_truth(n as int));
}

impl<'a> Codegen<'a> {
    /// Emit the truth of a register as 0 or 1 in `rax`.
    pub(crate) fn emit_truth(&self, v: VReg, n: usize, out: &mut Vec<Code>) -> (r: Result<
        (),
        String,
    >)
        requires
            self.ok(),
            n <= usize::MAX - 8,
        ensures
            emits(r, old(out)@, final(out)@, truth(self.cx(), v, n as int)),
    {
        match self.vtype(v) {
            None => return Err(bad_operand()),
            Some(KType::Int) => {
                self.emit_load_int(v, out)?;
                out.push(Code::Test(Gpr(RAX), Gpr(RAX)));
                out.push(Code::Setcc(Cond::NZ, Gpr(RAX)));
            },
            Some(KType::Bool) => {
                self.emit_load_tag(v, out)?;
                out.push(Code::ShiftRi(Shift::Right, Gpr(RAX), 8));
            },
            Some(KType::Char) => {
                out.push(Code::MovRi(Gpr(RAX), 1));
            },
            Some(KType::Float) => {
                self.emit_load_float(v, out)?;
                let zero: Mem = Mem { base: Gpr(R13), disp: self.lay.zero_slot };
                out.push(Code::AluRr(Alu::Xor, Gpr(RAX), Gpr(RAX)));
                out.push(Code::MovMr(zero, Gpr(RAX)));
                out.push(Code::SseRm(Sse::Compare, Xmm(XMM0), zero));
                out.push(Code::Setcc(Cond::P, Gpr(RAX)));
                out.push(Code::Setcc(Cond::Z, Gpr(RCX)));
                out.push(Code::AluRi(Alu::Xor, Gpr(RCX), 1));
                out.push(Code::AluRr(Alu::Or, Gpr(RAX), Gpr(RCX)));
            },
            Some(KType::Unknown) => match self.home(v) {
                Some(Home::Slot(s)) => {
                    out.push(Code::MovRm(Gpr(RAX), self.slot_tag(s)));
                    out.push(Code::MovRm(Gpr(RCX), self.slot_payload(s)));
                    put_box_truth(n, out);
                },
                _ => return Err(bad_operand()),
            },
        }
        assert(out@ =~= old(out)@ + truth(self.cx(), v, n as int)->Ok_0);
        Ok(())
    }
}

// ---------------------------------------------------------------------------
// One operand
// ---------------------------------------------------------------------------

/// The name of a type.
pub open spec fn ktype_name(t: KType) -> Seq<char> {
    match t {
        KType::Int => "Int"@,
        KType::Float => "Float"@,
        KType::Bool => "Bool"@,
        KType::Char => "Char"@,
        KType::Unknown => "Unknown"@,
    }
}

/// The code of an operation on one register.
pub open spec fn un_code(cx: Cx, dst: VReg, op: UnOp, a: VReg, n: int) -> Emitted {
    match (op, type_in(cx, a)) {
        (_, None) => Err(misplaced()),
        (UnOp::Neg, Some(KType::Int)) => cat(
            cat(cat(load_int(cx, a), Ok(seq![Code::Neg(Gpr(RAX))])), Ok(overflow_check(cx))),
            store_int(cx, dst),
        ),
        (UnOp::Neg, Some(KType::Float)) => cat(
            cat(
                load_float(cx, a),
                Ok(
                    seq![
                        Code::MovqGx(Gpr(RAX), Xmm(XMM0)),
                        Code::Movabs(Gpr(RCX), 0x8000_0000_0000_0000),
                        Code::AluRr(Alu::Xor, Gpr(RAX), Gpr(RCX)),
                        Code::MovqXg(Xmm(XMM0), Gpr(RAX)),
                    ],
                ),
            ),
            store_float(cx, dst),
        ),
        (UnOp::Neg, Some(t)) => Err("codegen: unary neg on "@ + ktype_name(t)),
        (UnOp::Not, Some(_)) => cat(
            cat(
                cat(truth(cx, a, n), Ok(seq![Code::AluRi(Alu::Xor, Gpr(RAX), 1)])),
                Ok(tagify()),
            ),
            store_tag(cx, dst),
        ),
    }
}

/// The code that narrows the integer in `rax`.
pub open spec fn narrow(to: ConvTarget) -> Seq<Code> {
    let rax = Gpr(RAX);
    match to {
        ConvTarget::Int8 => seq![
            Code::ShiftRi(Shift::Left, rax, 56),
            Code::ShiftRi(Shift::Signed, rax, 56),
        ],
        ConvTarget::UInt8 => seq![Code::AluRi(Alu::And, rax, 0xFF)],
        ConvTarget::Int16 => seq![
            Code::ShiftRi(Shift::Left, rax, 48),
            Code::ShiftRi(Shift::Signed, rax, 48),
        ],
        ConvTarget::UInt16 => seq![Code::AluRi(Alu::And, rax, 0xFFFF)],
        ConvTarget::Int32 => seq![
            Code::ShiftRi(Shift::Left, rax, 32),
            Code::ShiftRi(Shift::Signed, rax, 32),
        ],
        ConvTarget::UInt32 => seq![
            Code::ShiftRi(Shift::Left, rax, 32),
            Code::ShiftRi(Shift::Right, rax, 32),
        ],
        _ => seq![],
    }
}

/// The code that rounds the double in `xmm0` to single precision where that is
/// asked for.
pub open spec fn round(to: ConvTarget) -> Seq<Code> {
    if to == ConvTarget::F32 {
        seq![
            Code::Cvtsd2ss(Xmm(XMM0), Xmm(XMM0)),
            Code::Cvtss2sd(Xmm(XMM0), Xmm(XMM0)),
        ]
    } else {
        seq![]
    }
}

/// The code of a conversion.
pub open spec fn conv_code(cx: Cx, dst: VReg, to: ConvTarget, src: VReg) -> Emitted {
    match type_in(cx, src) {
        Some(KType::Int) => if to.to_int() {
            cat(cat(load_int(cx, src), Ok(narrow(to))), store_int(cx, dst))
        } else {
            cat(
                cat(
                    cat(load_int(cx, src), Ok(seq![Code::Cvtsi2sd(Xmm(XMM0), Gpr(RAX))])),
                    Ok(round(to)),
                ),
                store_float(cx, dst),
            )
        },
        Some(KType::Float) => if to.to_int() {
            Err(misplaced())
        } else {
            cat(cat(load_float(cx, src), Ok(round(to))), store_float(cx, dst))
        },
        _ => Err(misplaced()),
    }
}

fn name_of(t: KType) -> (r: &'static str)
    ensures
        r@ == ktype_name(t),
{
    match t {
        KType::Int => "Int",
        KType::Float => "Float",
        KType::Bool => "Bool",
        KType::Char => "Char",
        KType::Unknown => "Unknown",
    }
}

fn put_narrow(to: ConvTarget, out: &mut Vec<Code>)
    ensures
        final(out)@ == old(out)@ + narrow(to),
{
    let rax: Gpr = Gpr(RAX);
    match to {
        ConvTarget::Int8 => {
            out.push(Code::ShiftRi(Shift::Left, rax, 56));
            out.push(Code::ShiftRi(Shift::Signed, rax, 56));
        },
        ConvTarget::UInt8 => out.push(Code::AluRi(Alu::And, rax, 0xFF)),
        ConvTarget::Int16 => {
            out.push(Code::ShiftRi(Shift::Left, rax, 48));
            out.push(Code::ShiftRi(Shift::Signed, rax, 48));
        },
        ConvTarget::UInt16 => out.push(Code::AluRi(Alu::And, rax, 0xFFFF)),
        ConvTarget::Int32 => {
            out.push(Code::ShiftRi(Shift::Left, rax, 32));
            out.push(Code::ShiftRi(Shift::Signed, rax, 32));
        },
        ConvTarget::UInt32 => {
            out.push(Code::ShiftRi(Shift::Left, rax, 32));
            out.push(Code::ShiftRi(Shift::Right, rax, 32));
        },
        _ => {},
    }
    assert(out@ =~= old(out)@ + narrow(to));
}

fn put_round(to: ConvTarget, out: &mut Vec<Code>)
    ensures
        final(out)@ == old(out)@ + round(to),
{
    if to == ConvTarget::F32 {
        out.push(Code::Cvtsd2ss(Xmm(XMM0), Xmm(XMM0)));
        out.push(Code::Cvtss2sd(Xmm(XMM0), Xmm(XMM0)));
    }
    assert(out@ =~= old(out)@ + round(to));
}

impl<'a> Codegen<'a> {
    /// Emit an operation on one register.
    pub(crate) fn emit_un(&self, dst: VReg, op: UnOp, a: VReg, n: usize, out: &mut Vec<Code>) -> (r:
        Result<(), String>)
        requires
            self.ok(),
            n <= usize::MAX - 8,
        ensures
            emits(r, old(out)@, final(out)@, un_code(self.cx(), dst, op, a, n as int)),
    {
        let ty: KType = match self.vtype(a) {
            Some(t) => t,
            None => return Err(bad_operand()),
        };
        match op {
            UnOp::Neg => match ty {
                KType::Int => {
                    self.emit_load_int(a, out)?;
                    out.push(Code::Neg(Gpr(RAX)));
                    self.emit_overflow_check(out);
                    self.emit_store_int(dst, out)?;
                },
                KType::Float => {
                    self.emit_load_float(a, out)?;
                    out.push(Code::MovqGx(Gpr(RAX), Xmm(XMM0)));
                    out.push(Code::Movabs(Gpr(RCX), 0x8000_0000_0000_0000));
                    out.push(Code::AluRr(Alu::Xor, Gpr(RAX), Gpr(RCX)));
                    out.push(Code::MovqXg(Xmm(XMM0), Gpr(RAX)));
                    self.emit_store_float(dst, out)?;
                },
                _ => return Err(cat2("codegen: unary neg on ", name_of(ty))),
            },
            UnOp::Not => {
                self.emit_truth(a, n, out)?;
                out.push(Code::AluRi(Alu::Xor, Gpr(RAX), 1));
                put_tagify(out);
                self.emit_store_tag(dst, out)?;
            },
        }
        assert(out@ =~= old(out)@ + un_code(self.cx(), dst, op, a, n as int)->Ok_0);
        Ok(())
    }

    /// Emit a conversion.
    pub(crate) fn emit_conv(&self, dst: VReg, to: ConvTarget, src: VReg, out: &mut Vec<Code>) -> (r:
        Result<(), String>)
        requires
            self.ok(),
        ensures
            emits(r, old(out)@, final(out)@, conv_code(self.cx(), dst, to, src)),
    {
        match self.vtype(src) {
            Some(KType::Int) => {
                self.emit_load_int(src, out)?;
                if to.is_int() {
                    put_narrow(to, out);
                    self.emit_store_int(dst, out)?;
                } else {
                    out.push(Code::Cvtsi2sd(Xmm(XMM0), Gpr(RAX)));
                    put_round(to, out);
                    self.emit_store_float(dst, out)?;
                }
            },
            Some(KType::Float) => {
                if to.is_int() {
                    return Err(bad_operand());
                }
                self.emit_load_float(src, out)?;
                put_round(to, out);
                self.emit_store_float(dst, out)?;
            },
            _ => return Err(bad_operand()),
        }
        assert(out@ =~= old(out)@ + conv_code(self.cx(), dst, to, src)->Ok_0);
        Ok(())
    }
}

} // verus!
