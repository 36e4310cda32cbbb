//! x86-64 machine-code generation from the intermediate representation.
//!
//! Register allocation assigns every virtual register a fixed home. This module
//! turns each block into straight-line machine code. What is not inlined is
//! marshalled into the argument area of the frame and handed to the dispatcher,
//! which executes it as the interpreter does.

use crate::jit::assembler::{Cond, Gpr, Mem, Xmm};
use crate::jit::code::{assemble_codes, assembled, can_assemble, Alu, Code, Sse};
use crate::jit::frame::{
    cat, copy_words, emits, home_in, in_frame, layout_of, load_float, load_int, load_tag,
    local_payload, local_tag, marshal, marshal_tag, misplaced, next_word, spill_payload, spill_tag,
    store_box, store_float, store_int, store_tag, type_in, Codegen, Cx, Emitted,
};
use crate::jit::ir::{
    blocks_model, insns_model, moves_model, Block, BlockModel, Function, Insn, InsnModel, KType,
    Term, VReg,
};
use crate::jit::regalloc::{Allocation, Home};
use crate::jit::regs::{
    R10, R11, R13, R14, R15, RAX, RBP, RBX, RCX, RDI, RDX, RSI, RSP,
};
use crate::jit::select::{
    bin_code, conv_code, truth, truth_labels, un_code, OVERFLOW_LABEL,
};
use crate::jit::xmms::XMM0;
use crate::text::own;
use vstd::prelude::*;

verus! {

/// Offset of the machine in the native frame.
pub const NF_VM: i32 = 0x00;

/// Offset of the number of the operation.
pub const NF_OP: i32 = 0x08;

/// Offset of the argument array.
pub const NF_ARG_BASE: i32 = 0x10;

/// Offset of the number of arguments.
pub const NF_ARG_COUNT: i32 = 0x18;

/// Offset of the result.
pub const NF_RESULT: i32 = 0x20;

/// Offset of the method id.
pub const NF_METHOD_ID: i32 = 0x30;

/// Offset of the table of operations.
pub const NF_HELPERS: i32 = 0x38;

/// Offset of the address of the dispatcher.
pub const NF_DISPATCHER: i32 = 0x40;

/// Offset of the base of the stack frame.
pub const NF_FRAME_BASE: i32 = 0x48;

/// Offset of the size of the stack frame.
pub const NF_FRAME_BYTES: i32 = 0x50;

/// Size of the native frame.
pub const NF_SIZE: usize = 0x58;

/// Success.
pub const STATUS_OK: u64 = 0;

/// The method threw; the exception is in the result.
pub const STATUS_EXCEPTION: u64 = 1;

/// An error of the machine.
pub const STATUS_ERROR: u64 = 2;

/// The label of the epilogue.
pub const EPILOGUE_LABEL: usize = 0;

/// How many labels a function can have.
pub const LABEL_LIMIT: usize = 0x0400_0000;

// ---------------------------------------------------------------------------
// Instructions
// ---------------------------------------------------------------------------

/// Load a local.
pub open spec fn load_local(cx: Cx, dst: VReg, idx: u16) -> Emitted {
    if idx < cx.local_types.len() && idx < cx.lay.locals {
        match (cx.local_types[idx as int], home_in(cx, dst)) {
            (_, Some(Home::Slot(s))) => Ok(copy_words(local_tag(idx), spill_tag(cx.lay, s))),
            (KType::Int, Some(Home::Gpr(h))) => Ok(seq![Code::MovRm(h, local_payload(idx))]),
            (KType::Bool, Some(Home::Gpr(h))) | (KType::Char, Some(Home::Gpr(h))) => Ok(
                seq![Code::MovRm(h, local_tag(idx))],
            ),
            (KType::Float, Some(Home::Xmm(x))) => Ok(
                seq![Code::SseRm(Sse::Move, x, local_payload(idx))],
            ),
            _ => Err(misplaced()),
        }
    } else {
        Err(misplaced())
    }
}

/// Store into a local.
pub open spec fn store_local(cx: Cx, idx: u16, src: VReg) -> Emitted {
    if idx < cx.local_types.len() && idx < cx.lay.locals {
        match cx.local_types[idx as int] {
            KType::Int => cat(
                load_int(cx, src),
                Ok(
                    seq![
                        Code::MovMr(local_payload(idx), Gpr(RAX)),
                        Code::MovRi(Gpr(RAX), 1),
                        Code::MovMr(local_tag(idx), Gpr(RAX)),
                    ],
                ),
            ),
            KType::Bool | KType::Char => cat(
                load_tag(cx, src),
                Ok(
                    seq![
                        Code::MovMr(local_tag(idx), Gpr(RAX)),
                        Code::AluRr(Alu::Xor, Gpr(RAX), Gpr(RAX)),
                        Code::MovMr(local_payload(idx), Gpr(RAX)),
                    ],
                ),
            ),
            KType::Float => cat(
                load_float(cx, src),
                Ok(
                    seq![
                        Code::MovRi(Gpr(RAX), 2),
                        Code::MovMr(local_tag(idx), Gpr(RAX)),
                        Code::MovqGx(Gpr(RAX), Xmm(XMM0)),
                        Code::MovMr(local_payload(idx), Gpr(RAX)),
                    ],
                ),
            ),
            KType::Unknown => marshal(cx, local_tag(idx), src),
        }
    } else {
        Err(misplaced())
    }
}

/// The arguments of a helper call, those before `k`.
pub open spec fn marshal_upto(cx: Cx, args: Seq<VReg>, k: int) -> Emitted
    decreases k,
{
    if k <= 0 {
        Ok(Seq::empty())
    } else {
        cat(marshal_upto(cx, args, k - 1), marshal(cx, marshal_tag(cx.lay, k - 1), args[k - 1]))
    }
}

/// The native frame pointer into `r10`.
pub open spec fn load_native(cx: Cx) -> Code {
    Code::MovRm(Gpr(R10), in_frame(cx.lay.nf_slot as int))
}

/// A field of the native frame.
pub open spec fn native(disp: i32) -> Mem {
    Mem { base: Gpr(R10), disp }
}

/// The call of the dispatcher for the operation `op_id` with `count` arguments.
pub open spec fn dispatch(cx: Cx, op_id: u32, count: nat) -> Seq<Code> {
    seq![
        load_native(cx),
        Code::MovRi(Gpr(RAX), op_id as i64),
        Code::MovMr(native(NF_OP), Gpr(RAX)),
        Code::Lea(Gpr(RSI), marshal_tag(cx.lay, 0)),
        Code::MovRi(Gpr(RDX), count as i64),
        Code::MovRr(Gpr(RDI), Gpr(R10)),
        Code::MovRm(Gpr(R11), native(NF_DISPATCHER)),
        Code::CallR(Gpr(R11)),
        Code::Test(Gpr(RAX), Gpr(RAX)),
        Code::Jcc(Cond::NZ, EPILOGUE_LABEL),
    ]
}

/// How many labels the result of a helper call takes.
pub open spec fn result_labels(cx: Cx, dst: Option<VReg>) -> nat {
    match dst {
        Some(d) => if home_in(cx, d) matches Some(Home::Gpr(_)) {
            3
        } else {
            0
        },
        None => 0,
    }
}

/// The result of a helper call into a general purpose register: the payload of
/// an integer, the tag word of a truth value or a character.
pub open spec fn result_in(h: Gpr, n: int) -> Seq<Code> {
    let (ints, packed, done) = (n as usize, (n + 1) as usize, (n + 2) as usize);
    seq![
        Code::MovRr(Gpr(RDX), Gpr(RAX)),
        Code::AluRi(Alu::And, Gpr(RDX), 0xFF),
        Code::AluRi(Alu::Compare, Gpr(RDX), 1),
        Code::Jcc(Cond::Z, ints),
        Code::AluRi(Alu::Compare, Gpr(RDX), 3),
        Code::Jcc(Cond::Z, packed),
        Code::AluRi(Alu::Compare, Gpr(RDX), 4),
        Code::Jcc(Cond::Z, packed),
        Code::Jmp(ints),
        Code::Bind(ints),
        Code::MovRr(h, Gpr(RCX)),
        Code::Jmp(done),
        Code::Bind(packed),
        Code::MovRr(h, Gpr(RAX)),
        Code::Bind(done),
    ]
}

/// The result of a helper call into the home of a register.
pub open spec fn load_result(cx: Cx, dst: VReg, n: int) -> Emitted {
    let head = seq![
        load_native(cx),
        Code::MovRm(Gpr(RAX), native(NF_RESULT)),
        Code::MovRm(Gpr(RCX), native((NF_RESULT + 8) as i32)),
    ];
    match home_in(cx, dst) {
        Some(Home::Gpr(h)) => Ok(head + result_in(h, n)),
        Some(Home::Xmm(x)) => Ok(head + seq![Code::MovqXg(x, Gpr(RCX))]),
        Some(Home::Slot(s)) => Ok(
            head + seq![
                Code::MovMr(spill_tag(cx.lay, s), Gpr(RAX)),
                Code::MovMr(spill_payload(cx.lay, s), Gpr(RCX)),
            ],
        ),
        None => Err(misplaced()),
    }
}

/// A helper call.
pub open spec fn helper_code(cx: Cx, dst: Option<VReg>, op_id: u32, args: Seq<VReg>, n: int) -> Emitted {
    if args.len() > cx.lay.args {
        Err(misplaced())
    } else {
        let call = cat(
            marshal_upto(cx, args, args.len() as int),
            Ok(dispatch(cx, op_id, args.len())),
        );
        match dst {
            Some(d) => cat(call, load_result(cx, d, n)),
            None => call,
        }
    }
}

/// The tag word of a truth value.
pub open spec fn bool_word(b: bool) -> i64 {
    if b {
        0x103
    } else {
        3
    }
}

/// The tag word of a character.
pub open spec fn char_word(c: char) -> i64 {
    (4 + (c as int) * 0x1_0000_0000) as i64
}

/// The code of an instruction; `n` is the first free label.
pub open spec fn insn_code(cx: Cx, i: InsnModel, n: int) -> Emitted {
    match i {
        InsnModel::Helper { dst, op_id, args } => helper_code(cx, dst, op_id, args, n),
        InsnModel::Plain(p) => match p {
            Insn::ConstInt { dst, val } => cat(
                Ok(seq![Code::MovRi(Gpr(RAX), val)]),
                store_int(cx, dst),
            ),
            Insn::ConstFloat { dst, bits } => cat(
                Ok(
                    seq![
                        Code::Movabs(Gpr(RAX), bits),
                        Code::MovqXg(Xmm(XMM0), Gpr(RAX)),
                    ],
                ),
                store_float(cx, dst),
            ),
            Insn::ConstBool { dst, val } => cat(
                Ok(seq![Code::MovRi(Gpr(RAX), bool_word(val))]),
                store_tag(cx, dst),
            ),
            Insn::ConstChar { dst, ch } => cat(
                Ok(seq![Code::MovRi(Gpr(RAX), char_word(ch))]),
                store_tag(cx, dst),
            ),
            Insn::ConstNull { dst } => store_box(cx, dst, 9),
            Insn::ConstUnit { dst } => store_box(cx, dst, 0),
            Insn::LdLocal { dst, idx } => load_local(cx, dst, idx),
            Insn::StLocal { idx, src } => store_local(cx, idx, src),
            Insn::Bin { dst, op, a, b } => bin_code(cx, dst, op, a, b),
            Insn::Un { dst, op, a } => un_code(cx, dst, op, a, n),
            Insn::Conv { dst, to, src } => conv_code(cx, dst, to, src),
            Insn::Helper { .. } => Err(misplaced()),
        },
    }
}

/// How many labels an instruction takes.
pub open spec fn insn_labels(cx: Cx, i: InsnModel) -> nat {
    match i {
        InsnModel::Helper { dst, .. } => result_labels(cx, dst),
        InsnModel::Plain(p) => match p {
            Insn::Un { a, .. } => truth_labels(cx, a),
            _ => 0,
        },
    }
}

fn bad_operand() -> (r: String)
    ensures
        r@ == misplaced(),
{
    own("codegen: unexpected operand")
}

fn char_tag(c: char) -> (r: i64)
    ensures
        r == char_word(c),
{
    4 + (c as u32) as i64 * 0x1_0000_0000
}

fn put_result_in(h: Gpr, n: usize, out: &mut Vec<Code>)
    requires
        n <= usize::MAX - 8,
    ensures
        final(out)@ == old(out)@ + result_in(h, n as int),
{
    out.push(Code::MovRr(Gpr(RDX), Gpr(RAX)));
    out.push(Code::AluRi(Alu::And, Gpr(RDX), 0xFF));
    out.push(Code::AluRi(Alu::Compare, Gpr(RDX), 1));
    out.push(Code::Jcc(Cond::Z, n));
    out.push(Code::AluRi(Alu::Compare, Gpr(RDX), 3));
    out.push(Code::Jcc(Cond::Z, n + 1));
    out.push(Code::AluRi(Alu::Compare, Gpr(RDX), 4));
    out.push(Code::Jcc(Cond::Z, n + 1));
    out.push(Code::Jmp(n));
    out.push(Code::Bind(n));
    out.push(Code::MovRr(h, Gpr(RCX)));
    out.push(Code::Jmp(n + 2));
    out.push(Code::Bind(n + 1));
    out.push(Code::MovRr(h, Gpr(RAX)));
    out.push(Code::Bind(n + 2));
    assert(out@ =~= old(out)@ + result_in(h, n as int));
}

impl<'a> Codegen<'a> {
    fn emit_load_local(&self, dst: VReg, idx: u16, out: &mut Vec<Code>) -> (r: Result<(), String>)
        requires
            self.ok(),
        ensures
            emits(r, old(out)@, final(out)@, load_local(self.cx(), dst, idx)),
    {
        let i: usize = idx as usize;
        if i >= self.func.local_types.len() || idx >= self.lay.locals {
            return Err(bad_operand());
        }
        let tag: Mem = Mem { base: Gpr(R13), disp: idx as i32 * 16 };
        let payload: Mem = Mem { base: Gpr(R13), disp: idx as i32 * 16 + 8 };
        match (self.func.local_types[i], self.home(dst)) {
            (_, Some(Home::Slot(s))) => self.emit_copy(tag, self.slot_tag(s), out),
            (KType::Int, Some(Home::Gpr(h))) => out.push(Code::MovRm(h, payload)),
            (KType::Bool, Some(Home::Gpr(h))) | (KType::Char, Some(Home::Gpr(h))) => out.push(
                Code::MovRm(h, tag),
            ),
            (KType::Float, Some(Home::Xmm(x))) => out.push(Code::SseRm(Sse::Move, x, payload)),
            _ => return Err(bad_operand()),
        }
        assert(out@ =~= old(out)@ + load_local(self.cx(), dst, idx)->Ok_0);
        Ok(())
    }

    fn emit_store_local(&self, idx: u16, src: VReg, out: &mut Vec<Code>) -> (r: Result<(), String>)
        requires
            self.ok(),
        ensures
            emits(r, old(out)@, final(out)@, store_local(self.cx(), idx, src)),
    {
        let i: usize = idx as usize;
        if i >= self.func.local_types.len() || idx >= self.lay.locals {
            return Err(bad_operand());
        }
        let tag: Mem = Mem { base: Gpr(R13), disp: idx as i32 * 16 };
        let payload: Mem = Mem { base: Gpr(R13), disp: idx as i32 * 16 + 8 };
        match self.func.local_types[i] {
            KType::Int => {
                self.emit_load_int(src, out)?;
                out.push(Code::MovMr(payload, Gpr(RAX)));
                out.push(Code::MovRi(Gpr(RAX), 1));
                out.push(Code::MovMr(tag, Gpr(RAX)));
            },
            KType::Bool | KType::Char => {
                self.emit_load_tag(src, out)?;
                out.push(Code::MovMr(tag, Gpr(RAX)));
                out.push(Code::AluRr(Alu::Xor, Gpr(RAX), Gpr(RAX)));
                out.push(Code::MovMr(payload, Gpr(RAX)));
            },
            KType::Float => {
                self.emit_load_float(src, out)?;
                out.push(Code::MovRi(Gpr(RAX), 2));
                out.push(Code::MovMr(tag, Gpr(RAX)));
                out.push(Code::MovqGx(Gpr(RAX), Xmm(XMM0)));
                out.push(Code::MovMr(payload, Gpr(RAX)));
            },
            KType::Unknown => {
                self.emit_marshal(tag, src, out)?;
            },
        }
        assert(out@ =~= old(out)@ + store_local(self.cx(), idx, src)->Ok_0);
        Ok(())
    }

    fn emit_args(&self, args: &Vec<VReg>, out: &mut Vec<Code>) -> (r: Result<(), String>)
        requires
            self.ok(),
            args@.len() <= self.lay.args,
        ensures
            emits(
                r,
                old(out)@,
                final(out)@,
                marshal_upto(self.cx(), args@, args@.len() as int),
            ),
    {
        let mut k: usize = 0;
        assert(out@ =~= old(out)@ + Seq::<Code>::empty());
        while k < args.len()
            invariant
                self.ok(),
                k <= args@.len() <= self.lay.args,
                marshal_upto(self.cx(), args@, k as int) is Ok,
                out@ == old(out)@ + marshal_upto(self.cx(), args@, k as int)->Ok_0,
            decreases args.len() - k,
        {
            let to: Mem = Mem { base: Gpr(R13), disp: self.lay.marshal_base + k as i32 * 16 };
            match self.emit_marshal(to, args[k], out) {
                Ok(_) => {},
                Err(e) => {
                    proof {
                        failed_args(self.cx(), args@, k + 1, args@.len() as int);
                    }
                    return Err(e);
                },
            }
            assert(out@ =~= old(out)@ + marshal_upto(self.cx(), args@, k + 1)->Ok_0);
            k = k + 1;
        }
        Ok(())
    }

    fn emit_result(&self, dst: VReg, n: usize, out: &mut Vec<Code>) -> (r: Result<(), String>)
        requires
            self.ok(),
            n <= usize::MAX - 8,
        ensures
            emits(r, old(out)@, final(out)@, load_result(self.cx(), dst, n as int)),
    {
        let home: Home = match self.home(dst) {
            Some(h) => h,
            None => return Err(bad_operand()),
        };
        out.push(Code::MovRm(Gpr(R10), Mem { base: Gpr(R13), disp: self.lay.nf_slot }));
        out.push(Code::MovRm(Gpr(RAX), Mem { base: Gpr(R10), disp: NF_RESULT }));
        out.push(Code::MovRm(Gpr(RCX), Mem { base: Gpr(R10), disp: NF_RESULT + 8 }));
        match home {
            Home::Gpr(h) => put_result_in(h, n, out),
            Home::Xmm(x) => out.push(Code::MovqXg(x, Gpr(RCX))),
            Home::Slot(s) => {
                out.push(Code::MovMr(self.slot_tag(s), Gpr(RAX)));
                out.push(Code::MovMr(self.slot_payload(s), Gpr(RCX)));
            },
        }
        assert(out@ =~= old(out)@ + load_result(self.cx(), dst, n as int)->Ok_0);
        Ok(())
    }

    fn emit_helper(
        &self,
        dst: Option<VReg>,
        op_id: u32,
        args: &Vec<VReg>,
        n: usize,
        out: &mut Vec<Code>,
    ) -> (r: Result<(), String>)
        requires
            self.ok(),
            n <= usize::MAX - 8,
        ensures
            emits(r, old(out)@, final(out)@, helper_code(self.cx(), dst, op_id, args@, n as int)),
    {
        if args.len() > self.lay.args as usize {
            return Err(bad_operand());
        }
        self.emit_args(args, out)?;
        out.push(Code::MovRm(Gpr(R10), Mem { base: Gpr(R13), disp: self.lay.nf_slot }));
        out.push(Code::MovRi(Gpr(RAX), op_id as i64));
        out.push(Code::MovMr(Mem { base: Gpr(R10), disp: NF_OP }, Gpr(RAX)));
        out.push(Code::Lea(Gpr(RSI), Mem { base: Gpr(R13), disp: self.lay.marshal_base }));
        out.push(Code::MovRi(Gpr(RDX), args.len() as i64));
        out.push(Code::MovRr(Gpr(RDI), Gpr(R10)));
        out.push(Code::MovRm(Gpr(R11), Mem { base: Gpr(R10), disp: NF_DISPATCHER }));
        out.push(Code::CallR(Gpr(R11)));
        out.push(Code::Test(Gpr(RAX), Gpr(RAX)));
        out.push(Code::Jcc(Cond::NZ, EPILOGUE_LABEL));
        assert(out@ =~= old(out)@ + cat(
            marshal_upto(self.cx(), args@, args@.len() as int),
            Ok(dispatch(self.cx(), op_id, args@.len())),
        )->Ok_0);
        if let Some(d) = dst {
            self.emit_result(d, n, out)?;
        }
        assert(out@ =~= old(out)@ + helper_code(self.cx(), dst, op_id, args@, n as int)->Ok_0);
        Ok(())
    }

    fn emit_insn(&self, insn: &Insn, n: usize, out: &mut Vec<Code>) -> (r: Result<(), String>)
        requires
            self.ok(),
            n <= usize::MAX - 8,
        ensures
            emits(r, old(out)@, final(out)@, insn_code(self.cx(), insn@, n as int)),
    {
        match insn {
            Insn::ConstInt { dst, val } => {
                out.push(Code::MovRi(Gpr(RAX), *val));
                self.emit_store_int(*dst, out)?;
            },
            Insn::ConstFloat { dst, bits } => {
                out.push(Code::Movabs(Gpr(RAX), *bits));
                out.push(Code::MovqXg(Xmm(XMM0), Gpr(RAX)));
                self.emit_store_float(*dst, out)?;
            },
            Insn::ConstBool { dst, val } => {
                let word: i64 = if *val {
                    0x103
                } else {
                    3
                };
                out.push(Code::MovRi(Gpr(RAX), word));
                self.emit_store_tag(*dst, out)?;
            },
            Insn::ConstChar { dst, ch } => {
                out.push(Code::MovRi(Gpr(RAX), char_tag(*ch)));
                self.emit_store_tag(*dst, out)?;
            },
            Insn::ConstNull { dst } => self.emit_store_box(*dst, 9, out)?,
            Insn::ConstUnit { dst } => self.emit_store_box(*dst, 0, out)?,
            Insn::LdLocal { dst, idx } => self.emit_load_local(*dst, *idx, out)?,
            Insn::StLocal { idx, src } => self.emit_store_local(*idx, *src, out)?,
            Insn::Bin { dst, op, a, b } => self.emit_bin(*dst, *op, *a, *b, out)?,
            Insn::Un { dst, op, a } => self.emit_un(*dst, *op, *a, n, out)?,
            Insn::Conv { dst, to, src } => self.emit_conv(*dst, *to, *src, out)?,
            Insn::Helper { dst, op_id, args } => self.emit_helper(*dst, *op_id, args, n, out)?,
        }
        assert(out@ =~= old(out)@ + insn_code(self.cx(), insn@, n as int)->Ok_0);
        Ok(())
    }

    fn count_labels(&self, insn: &Insn) -> (r: usize)
        ensures
            r == insn_labels(self.cx(), insn@),
            r <= 7,
    {
        match insn {
            Insn::Helper { dst, .. } => match dst {
                Some(d) => match self.home(*d) {
                    Some(Home::Gpr(_)) => 3,
                    _ => 0,
                },
                None => 0,
            },
            Insn::Un { a, .. } => match self.vtype(*a) {
                Some(KType::Unknown) => 7,
                _ => 0,
            },
            _ => 0,
        }
    }
}

/// Where an argument cannot be marshalled, no more of them can.
proof fn failed_args(cx: Cx, args: Seq<VReg>, k: int, n: int)
    requires
        0 < k <= n,
        marshal_upto(cx, args, k) is Err,
    ensures
        marshal_upto(cx, args, n) == marshal_upto(cx, args, k),
    decreases n - k,
{
    if k < n {
        failed_args(cx, args, k, n - 1);
    }
}

// ---------------------------------------------------------------------------
// Edges and terminators
// ---------------------------------------------------------------------------

/// A move on an edge: a register into an entry parameter.
pub open spec fn move_code(cx: Cx, param: VReg, src: VReg) -> Emitted {
    match type_in(cx, param) {
        Some(KType::Int) => cat(load_int(cx, src), store_int(cx, param)),
        Some(KType::Bool) | Some(KType::Char) => cat(load_tag(cx, src), store_tag(cx, param)),
        Some(KType::Float) => cat(load_float(cx, src), store_float(cx, param)),
        Some(KType::Unknown) => match (home_in(cx, param), home_in(cx, src)) {
            (Some(Home::Slot(d)), Some(Home::Slot(s))) => Ok(
                copy_words(spill_tag(cx.lay, s), spill_tag(cx.lay, d)),
            ),
            _ => Err(misplaced()),
        },
        None => Err(misplaced()),
    }
}

/// The first `k` moves of a list.
pub open spec fn moves_upto(cx: Cx, moves: Seq<(VReg, VReg)>, k: int) -> Emitted
    decreases k,
{
    if k <= 0 {
        Ok(Seq::empty())
    } else {
        cat(moves_upto(cx, moves, k - 1), move_code(cx, moves[k - 1].0, moves[k - 1].1))
    }
}

/// The moves to a successor, from the entry with number `i` on.
pub open spec fn moves_to(ms: Seq<(usize, Seq<(VReg, VReg)>)>, succ: usize, i: int) -> Seq<
    (VReg, VReg),
>
    decreases ms.len() - i,
{
    if i < 0 || i >= ms.len() {
        Seq::empty()
    } else if ms[i].0 == succ {
        ms[i].1
    } else {
        moves_to(ms, succ, i + 1)
    }
}

/// The moves on the edge to a successor.
pub open spec fn edge_code(cx: Cx, b: BlockModel, succ: usize) -> Emitted {
    let ms = moves_to(b.moves, succ, 0);
    moves_upto(cx, ms, ms.len() as int)
}

/// The first successor from `i` on that is not the target.
pub open spec fn fall_of(succs: Seq<usize>, target: usize, i: int) -> Option<usize>
    decreases succs.len() - i,
{
    if i < 0 || i >= succs.len() {
        None
    } else if succs[i] != target {
        Some(succs[i])
    } else {
        fall_of(succs, target, i + 1)
    }
}

/// The label of a block.
pub open spec fn block_label(b: usize) -> usize {
    (b + 2) as usize
}

/// The code of a return.
pub open spec fn ret_code(cx: Cx, v: VReg) -> Emitted {
    let mem = marshal_tag(cx.lay, 0);
    cat(
        marshal(cx, mem, v),
        Ok(
            seq![
                load_native(cx),
                Code::MovRm(Gpr(RAX), mem),
                Code::MovRm(Gpr(RCX), next_word(mem)),
                Code::MovMr(native(NF_RESULT), Gpr(RAX)),
                Code::MovMr(native((NF_RESULT + 8) as i32), Gpr(RCX)),
                Code::AluRr(Alu::Xor, Gpr(RAX), Gpr(RAX)),
                Code::Jmp(EPILOGUE_LABEL),
            ],
        ),
    )
}

/// The test of a condition, with a jump where it is not met.
pub open spec fn test_code(cx: Cx, cond: VReg, skip_on: Cond, n: int) -> Emitted {
    cat(
        truth(cx, cond, n),
        Ok(
            seq![
                Code::Test(Gpr(RAX), Gpr(RAX)),
                Code::Jcc(skip_on, (n + truth_labels(cx, cond)) as usize),
            ],
        ),
    )
}

/// The way to the target, and the place behind it.
pub open spec fn taken_code(cx: Cx, b: BlockModel, target: usize, skip: usize) -> Emitted {
    cat(
        edge_code(cx, b, target),
        Ok(seq![Code::Jmp(block_label(target)), Code::Bind(skip)]),
    )
}

/// The way to the block that follows; the target itself where it is the only
/// successor.
pub open spec fn fall_code(cx: Cx, b: BlockModel, target: usize) -> Emitted {
    match fall_of(b.succs, target, 0) {
        Some(f) => edge_code(cx, b, f),
        None => edge_code(cx, b, target),
    }
}

/// The code of a conditional branch that is not taken on `skip_on`.
pub open spec fn branch_code(
    cx: Cx,
    b: BlockModel,
    cond: VReg,
    target: usize,
    skip_on: Cond,
    n: int,
) -> Emitted {
    cat(
        cat(
            test_code(cx, cond, skip_on, n),
            taken_code(cx, b, target, (n + truth_labels(cx, cond)) as usize),
        ),
        fall_code(cx, b, target),
    )
}

/// The code of a terminator.
pub open spec fn term_code(cx: Cx, b: BlockModel, n: int) -> Emitted {
    match b.term {
        Term::Ret(v) => ret_code(cx, v),
        Term::Br(target) => if target < LABEL_LIMIT {
            cat(edge_code(cx, b, target), Ok(seq![Code::Jmp(block_label(target))]))
        } else {
            Err(misplaced())
        },
        Term::BrTrue(cond, target) => if target < LABEL_LIMIT {
            branch_code(cx, b, cond, target, Cond::Z, n)
        } else {
            Err(misplaced())
        },
        Term::BrFalse(cond, target) => if target < LABEL_LIMIT {
            branch_code(cx, b, cond, target, Cond::NZ, n)
        } else {
            Err(misplaced())
        },
        Term::Unreachable => Ok(Seq::empty()),
    }
}

/// How many labels a terminator takes.
pub open spec fn term_labels(cx: Cx, b: BlockModel) -> nat {
    match b.term {
        Term::BrTrue(cond, _) | Term::BrFalse(cond, _) => truth_labels(cx, cond) + 1,
        _ => 0,
    }
}

proof fn failed_moves(cx: Cx, moves: Seq<(VReg, VReg)>, k: int, n: int)
    requires
        0 < k <= n,
        moves_upto(cx, moves, k) is Err,
    ensures
        moves_upto(cx, moves, n) == moves_upto(cx, moves, k),
    decreases n - k,
{
    if k < n {
        failed_moves(cx, moves, k, n - 1);
    }
}

fn find_fall(succs: &Vec<usize>, target: usize) -> (r: Option<usize>)
    ensures
        r == fall_of(succs@, target, 0),
{
    let mut i: usize = 0;
    while i < succs.len()
        invariant
            i <= succs@.len(),
            fall_of(succs@, target, 0) == fall_of(succs@, target, i as int),
        decreases succs.len() - i,
    {
        if succs[i] != target {
            return Some(succs[i]);
        }
        i = i + 1;
    }
    None
}

impl<'a> Codegen<'a> {
    fn emit_move(&self, param: VReg, src: VReg, out: &mut Vec<Code>) -> (r: Result<(), String>)
        requires
            self.ok(),
        ensures
            emits(r, old(out)@, final(out)@, move_code(self.cx(), param, src)),
    {
        match self.vtype(param) {
            Some(KType::Int) => {
                self.emit_load_int(src, out)?;
                self.emit_store_int(param, out)?;
            },
            Some(KType::Bool) | Some(KType::Char) => {
                self.emit_load_tag(src, out)?;
                self.emit_store_tag(param, out)?;
            },
            Some(KType::Float) => {
                self.emit_load_float(src, out)?;
                self.emit_store_float(param, out)?;
            },
            Some(KType::Unknown) => match (self.home(param), self.home(src)) {
                (Some(Home::Slot(d)), Some(Home::Slot(s))) => self.emit_copy(
                    self.slot_tag(s),
                    self.slot_tag(d),
                    out,
                ),
                _ => return Err(bad_operand()),
            },
            None => return Err(bad_operand()),
        }
        assert(out@ =~= old(out)@ + move_code(self.cx(), param, src)->Ok_0);
        Ok(())
    }

    fn emit_moves(&self, moves: &Vec<(VReg, VReg)>, out: &mut Vec<Code>) -> (r: Result<(), String>)
        requires
            self.ok(),
        ensures
            emits(
                r,
                old(out)@,
                final(out)@,
                moves_upto(self.cx(), moves@, moves@.len() as int),
            ),
    {
        let mut k: usize = 0;
        assert(out@ =~= old(out)@ + Seq::<Code>::empty());
        while k < moves.len()
            invariant
                self.ok(),
                k <= moves@.len(),
                moves_upto(self.cx(), moves@, k as int) is Ok,
                out@ == old(out)@ + moves_upto(self.cx(), moves@, k as int)->Ok_0,
            decreases moves.len() - k,
        {
            match self.emit_move(moves[k].0, moves[k].1, out) {
                Ok(_) => {},
                Err(e) => {
                    proof {
                        failed_moves(self.cx(), moves@, k + 1, moves@.len() as int);
                    }
                    return Err(e);
                },
            }
            assert(out@ =~= old(out)@ + moves_upto(self.cx(), moves@, k + 1)->Ok_0);
            k = k + 1;
        }
        Ok(())
    }

    fn emit_edge(&self, block: &Block, succ: usize, out: &mut Vec<Code>) -> (r: Result<(), String>)
        requires
            self.ok(),
        ensures
            emits(r, old(out)@, final(out)@, edge_code(self.cx(), block@, succ)),
    {
        let ghost ms = block@.moves;
        let mut i: usize = 0;
        while i < block.edge_moves.len()
            invariant
                self.ok(),
                i <= block.edge_moves@.len(),
                ms == moves_model(block.edge_moves@),
                ms == block@.moves,
                out@ == old(out)@,
                moves_to(ms, succ, 0) == moves_to(ms, succ, i as int),
            decreases block.edge_moves.len() - i,
        {
            assert(ms[i as int] == (block.edge_moves@[i as int].0, block.edge_moves@[i as int].1@));
            if block.edge_moves[i].0 == succ {
                return self.emit_moves(&block.edge_moves[i].1, out);
            }
            i = i + 1;
        }
        assert(out@ =~= old(out)@ + Seq::<Code>::empty());
        Ok(())
    }

    fn emit_ret(&self, v: VReg, out: &mut Vec<Code>) -> (r: Result<(), String>)
        requires
            self.ok(),
        ensures
            emits(r, old(out)@, final(out)@, ret_code(self.cx(), v)),
    {
        let mem: Mem = Mem { base: Gpr(R13), disp: self.lay.marshal_base };
        self.emit_marshal(mem, v, out)?;
        out.push(Code::MovRm(Gpr(R10), Mem { base: Gpr(R13), disp: self.lay.nf_slot }));
        out.push(Code::MovRm(Gpr(RAX), mem));
        out.push(Code::MovRm(Gpr(RCX), Mem { base: Gpr(R13), disp: mem.disp + 8 }));
        out.push(Code::MovMr(Mem { base: Gpr(R10), disp: NF_RESULT }, Gpr(RAX)));
        out.push(Code::MovMr(Mem { base: Gpr(R10), disp: NF_RESULT + 8 }, Gpr(RCX)));
        out.push(Code::AluRr(Alu::Xor, Gpr(RAX), Gpr(RAX)));
        out.push(Code::Jmp(EPILOGUE_LABEL));
        assert(out@ =~= old(out)@ + ret_code(self.cx(), v)->Ok_0);
        Ok(())
    }

    fn emit_test(&self, cond: VReg, skip_on: Cond, n: usize, out: &mut Vec<Code>) -> (r: Result<
        usize,
        String,
    >)
        requires
            self.ok(),
            n <= LABEL_LIMIT,
        ensures
            r matches Ok(skip) ==> skip == n + truth_labels(self.cx(), cond),
            emits(
                match r {
                    Ok(_) => Ok(()),
                    Err(e) => Err(e),
                },
                old(out)@,
                final(out)@,
                test_code(self.cx(), cond, skip_on, n as int),
            ),
    {
        let more: usize = match self.vtype(cond) {
            Some(KType::Unknown) => 7,
            _ => 0,
        };
        self.emit_truth(cond, n, out)?;
        out.push(Code::Test(Gpr(RAX), Gpr(RAX)));
        out.push(Code::Jcc(skip_on, n + more));
        assert(out@ =~= old(out)@ + test_code(self.cx(), cond, skip_on, n as int)->Ok_0);
        Ok(n + more)
    }

    fn emit_taken(&self, block: &Block, target: usize, skip: usize, out: &mut Vec<Code>) -> (r:
        Result<(), String>)
        requires
            self.ok(),
            target < LABEL_LIMIT,
        ensures
            emits(r, old(out)@, final(out)@, taken_code(self.cx(), block@, target, skip)),
    {
        self.emit_edge(block, target, out)?;
        out.push(Code::Jmp(target + 2));
        out.push(Code::Bind(skip));
        assert(out@ =~= old(out)@ + taken_code(self.cx(), block@, target, skip)->Ok_0);
        Ok(())
    }

    fn emit_fall(&self, block: &Block, target: usize, out: &mut Vec<Code>) -> (r: Result<
        (),
        String,
    >)
        requires
            self.ok(),
        ensures
            emits(r, old(out)@, final(out)@, fall_code(self.cx(), block@, target)),
    {
        match find_fall(&block.succs, target) {
            Some(f) => self.emit_edge(block, f, out),
            None => self.emit_edge(block, target, out),
        }
    }

    fn emit_branch(
        &self,
        block: &Block,
        cond: VReg,
        target: usize,
        skip_on: Cond,
        n: usize,
        out: &mut Vec<Code>,
    ) -> (r: Result<(), String>)
        requires
            self.ok(),
            n <= LABEL_LIMIT,
            target < LABEL_LIMIT,
        ensures
            emits(
                r,
                old(out)@,
                final(out)@,
                branch_code(self.cx(), block@, cond, target, skip_on, n as int),
            ),
    {
        let skip: usize = self.emit_test(cond, skip_on, n, out)?;
        self.emit_taken(block, target, skip, out)?;
        self.emit_fall(block, target, out)?;
        assert(out@ =~= old(out)@ + branch_code(
            self.cx(),
            block@,
            cond,
            target,
            skip_on,
            n as int,
        )->Ok_0);
        Ok(())
    }

    fn emit_term(&self, block: &Block, n: usize, out: &mut Vec<Code>) -> (r: Result<(), String>)
        requires
            self.ok(),
            n <= LABEL_LIMIT,
        ensures
            emits(r, old(out)@, final(out)@, term_code(self.cx(), block@, n as int)),
    {
        match block.term {
            Term::Ret(v) => self.emit_ret(v, out),
            Term::Br(target) => {
                if target >= LABEL_LIMIT {
                    return Err(bad_operand());
                }
                self.emit_edge(block, target, out)?;
                out.push(Code::Jmp(target + 2));
                assert(out@ =~= old(out)@ + term_code(self.cx(), block@, n as int)->Ok_0);
                Ok(())
            },
            Term::BrTrue(cond, target) => {
                if target >= LABEL_LIMIT {
                    return Err(bad_operand());
                }
                self.emit_branch(block, cond, target, Cond::Z, n, out)
            },
            Term::BrFalse(cond, target) => {
                if target >= LABEL_LIMIT {
                    return Err(bad_operand());
                }
                self.emit_branch(block, cond, target, Cond::NZ, n, out)
            },
            Term::Unreachable => {
                assert(out@ =~= old(out)@ + Seq::<Code>::empty());
                Ok(())
            },
        }
    }
}

// ---------------------------------------------------------------------------
// Blocks and functions
// ---------------------------------------------------------------------------

/// Code with the first label that is free behind it, or why there is none.
pub type Numbered = Result<(Seq<Code>, int), Seq<char>>;

/// There is too much code.
pub open spec fn too_large() -> Seq<char> {
    "codegen: function too large"@
}

/// The code of the first `k` instructions of a block.
pub open spec fn insns_upto(cx: Cx, insns: Seq<InsnModel>, k: int, n: int) -> Numbered
    decreases k,
{
    if k <= 0 {
        Ok((Seq::empty(), n))
    } else {
        match insns_upto(cx, insns, k - 1, n) {
            Err(e) => Err(e),
            Ok((cs, m)) => if m > LABEL_LIMIT {
                Err(too_large())
            } else {
                match insn_code(cx, insns[k - 1], m) {
                    Err(e) => Err(e),
                    Ok(c) => Ok((cs + c, m + insn_labels(cx, insns[k - 1]))),
                }
            },
        }
    }
}

/// The code of a block.
pub open spec fn block_code(cx: Cx, b: BlockModel, n: int) -> Numbered {
    match insns_upto(cx, b.insns, b.insns.len() as int, n) {
        Err(e) => Err(e),
        Ok((cs, m)) => if m > LABEL_LIMIT {
            Err(too_large())
        } else {
            match term_code(cx, b, m) {
                Err(e) => Err(e),
                Ok(c) => Ok((cs + c, m + term_labels(cx, b))),
            }
        },
    }
}

/// The code of the first `k` blocks; those that are not reachable have none.
pub open spec fn blocks_upto(cx: Cx, bs: Seq<BlockModel>, k: int, n: int) -> Numbered
    decreases k,
{
    if k <= 0 {
        Ok((Seq::empty(), n))
    } else {
        match blocks_upto(cx, bs, k - 1, n) {
            Err(e) => Err(e),
            Ok((cs, m)) => if !bs[k - 1].reachable {
                Ok((cs, m))
            } else {
                match block_code(cx, bs[k - 1], m) {
                    Err(e) => Err(e),
                    Ok((c, m2)) => Ok(
                        (cs + (seq![Code::Bind(block_label((k - 1) as usize))] + c), m2),
                    ),
                }
            },
        }
    }
}

/// The loop that copies the arguments into the first locals.
pub open spec fn copy_params(params: u16, n: int) -> Seq<Code> {
    let (again, done) = (n as usize, (n + 1) as usize);
    seq![
        Code::AluRr(Alu::Xor, Gpr(RCX), Gpr(RCX)),
        Code::MovRr(Gpr(R11), Gpr(R13)),
        Code::Bind(again),
        Code::AluRi(Alu::Compare, Gpr(RCX), params as i32),
        Code::Jcc(Cond::GE, done),
        Code::MovRm(Gpr(RAX), (Mem { base: Gpr(RSI), disp: 0 })),
        Code::MovMr((Mem { base: Gpr(R11), disp: 0 }), Gpr(RAX)),
        Code::MovRm(Gpr(RAX), (Mem { base: Gpr(RSI), disp: 8 })),
        Code::MovMr((Mem { base: Gpr(R11), disp: 8 }), Gpr(RAX)),
        Code::AluRi(Alu::Add, Gpr(RSI), 16),
        Code::AluRi(Alu::Add, Gpr(R11), 16),
        Code::AluRi(Alu::Add, Gpr(RCX), 1),
        Code::Jmp(again),
        Code::Bind(done),
    ]
}

/// The prologue: save registers, make the frame, publish its base, copy the
/// arguments.
pub open spec fn prologue(cx: Cx, params: u16, n: int) -> Seq<Code> {
    seq![
        Code::Push(Gpr(RBP)),
        Code::MovRr(Gpr(RBP), Gpr(RSP)),
        Code::Push(Gpr(R13)),
        Code::Push(Gpr(R14)),
        Code::Push(Gpr(R15)),
        Code::Push(Gpr(RBX)),
        Code::SubRsp(cx.lay.frame as u32),
        Code::MovRr(Gpr(R13), Gpr(RSP)),
        Code::MovMr(in_frame(cx.lay.nf_slot as int), Gpr(RDI)),
        Code::MovMr((Mem { base: Gpr(RDI), disp: NF_FRAME_BASE }), Gpr(R13)),
    ] + (if params > 0 {
        copy_params(params, n)
    } else {
        seq![]
    })
}

/// The report of an overflow, and the epilogue.
pub open spec fn epilogue(cx: Cx, overflow_addr: u64) -> Seq<Code> {
    seq![
        Code::Bind(OVERFLOW_LABEL),
        load_native(cx),
        Code::MovRm(Gpr(RDI), native(NF_VM)),
        Code::Movabs(Gpr(R11), overflow_addr),
        Code::CallR(Gpr(R11)),
        Code::MovRi(Gpr(RAX), 2),
        Code::Jmp(EPILOGUE_LABEL),
        Code::Bind(EPILOGUE_LABEL),
        Code::AluRi(Alu::Add, Gpr(RSP), cx.lay.frame as i32),
        Code::Pop(Gpr(RBX)),
        Code::Pop(Gpr(R15)),
        Code::Pop(Gpr(R14)),
        Code::Pop(Gpr(R13)),
        Code::Pop(Gpr(RBP)),
        Code::Ret,
    ]
}

/// The code of a function with the number of its labels; `overflow_addr` is the
/// address of the function that reports an overflow.
pub open spec fn function_code(cx: Cx, f: Function, overflow_addr: u64) -> Numbered {
    let n = f.blocks@.len() as int + 2;
    match blocks_upto(cx, blocks_model(f.blocks@), f.blocks@.len() as int, n + 2) {
        Err(e) => Err(e),
        Ok((cs, m)) => Ok((prologue(cx, f.params, n) + cs + epilogue(cx, overflow_addr), m)),
    }
}

/// The machine code of a function and the size of its frame.
pub open spec fn function_bytes(f: Function, a: Allocation, overflow_addr: u64) -> Result<
    (Seq<u8>, usize),
    Seq<char>,
> {
    match layout_of(f, a.slot_count) {
        None => Err(too_large()),
        Some(lay) => {
            let cx = Cx {
                types: f.types@,
                homes: a.homes@,
                local_types: f.local_types@,
                lay,
                checks: f.overflow_checks,
            };
            if f.blocks@.len() >= LABEL_LIMIT {
                Err(too_large())
            } else {
                match function_code(cx, f, overflow_addr) {
                    Err(e) => Err(e),
                    Ok((cs, m)) => if can_assemble(cs, m as usize) {
                        Ok((assembled(cs), lay.frame))
                    } else {
                        Err("codegen: code cannot be assembled"@)
                    },
                }
            }
        },
    }
}

/// What became of an attempt to emit code with labels.
pub open spec fn numbers(
    r: Result<usize, String>,
    old: Seq<Code>,
    new: Seq<Code>,
    e: Numbered,
) -> bool {
    match e {
        Ok((cs, m)) => r matches Ok(k) && k == m && new == old + cs,
        Err(why) => r matches Err(s) && s@ == why,
    }
}

proof fn failed_insns(cx: Cx, insns: Seq<InsnModel>, k: int, m: int, n: int)
    requires
        0 < k <= m,
        insns_upto(cx, insns, k, n) is Err,
    ensures
        insns_upto(cx, insns, m, n) == insns_upto(cx, insns, k, n),
    decreases m - k,
{
    if k < m {
        failed_insns(cx, insns, k, m - 1, n);
    }
}

proof fn failed_blocks(cx: Cx, bs: Seq<BlockModel>, k: int, m: int, n: int)
    requires
        0 < k <= m,
        blocks_upto(cx, bs, k, n) is Err,
    ensures
        blocks_upto(cx, bs, m, n) == blocks_upto(cx, bs, k, n),
    decreases m - k,
{
    if k < m {
        failed_blocks(cx, bs, k, m - 1, n);
    }
}

fn large() -> (r: String)
    ensures
        r@ == too_large(),
{
    own("codegen: function too large")
}

impl<'a> Codegen<'a> {
    fn emit_insns(&self, insns: &Vec<Insn>, n: usize, out: &mut Vec<Code>) -> (r: Result<
        usize,
        String,
    >)
        requires
            self.ok(),
            n <= LABEL_LIMIT + 16,
        ensures
            numbers(
                r,
                old(out)@,
                final(out)@,
                insns_upto(self.cx(), insns_model(insns@), insns@.len() as int, n as int),
            ),
            r matches Ok(m) ==> m <= LABEL_LIMIT + 16,
    {
        let ghost is = insns_model(insns@);
        let mut k: usize = 0;
        let mut m: usize = n;
        assert(out@ =~= old(out)@ + Seq::<Code>::empty());
        while k < insns.len()
            invariant
                self.ok(),
                k <= insns@.len(),
                is == insns_model(insns@),
                m <= LABEL_LIMIT + 16,
                insns_upto(self.cx(), is, k as int, n as int) is Ok,
                out@ == old(out)@ + (insns_upto(self.cx(), is, k as int, n as int)->Ok_0).0,
                m == (insns_upto(self.cx(), is, k as int, n as int)->Ok_0).1,
            decreases insns.len() - k,
        {
            assert(is[k as int] == insns@[k as int]@);
            if m > LABEL_LIMIT {
                proof {
                    failed_insns(self.cx(), is, k + 1, insns@.len() as int, n as int);
                }
                return Err(large());
            }
            match self.emit_insn(&insns[k], m, out) {
                Ok(_) => {},
                Err(e) => {
                    proof {
                        failed_insns(self.cx(), is, k + 1, insns@.len() as int, n as int);
                    }
                    return Err(e);
                },
            }
            m = m + self.count_labels(&insns[k]);
            assert(out@ =~= old(out)@ + (insns_upto(self.cx(), is, k + 1, n as int)->Ok_0).0);
            k = k + 1;
        }
        Ok(m)
    }

    fn emit_block(&self, block: &Block, n: usize, out: &mut Vec<Code>) -> (r: Result<usize, String>)
        requires
            self.ok(),
            n <= LABEL_LIMIT + 16,
        ensures
            numbers(r, old(out)@, final(out)@, block_code(self.cx(), block@, n as int)),
            r matches Ok(m) ==> m <= LABEL_LIMIT + 16,
    {
        let m: usize = self.emit_insns(&block.insns, n, out)?;
        if m > LABEL_LIMIT {
            return Err(large());
        }
        self.emit_term(block, m, out)?;
        let more: usize = match block.term {
            Term::BrTrue(cond, _) | Term::BrFalse(cond, _) => match self.vtype(cond) {
                Some(KType::Unknown) => 8,
                _ => 1,
            },
            _ => 0,
        };
        assert(out@ =~= old(out)@ + (block_code(self.cx(), block@, n as int)->Ok_0).0);
        Ok(m + more)
    }

    fn emit_blocks(&self, n: usize, out: &mut Vec<Code>) -> (r: Result<usize, String>)
        requires
            self.ok(),
            n <= LABEL_LIMIT + 16,
            self.func.blocks@.len() < LABEL_LIMIT,
        ensures
            numbers(
                r,
                old(out)@,
                final(out)@,
                blocks_upto(
                    self.cx(),
                    blocks_model(self.func.blocks@),
                    self.func.blocks@.len() as int,
                    n as int,
                ),
            ),
    {
        let ghost bs = blocks_model(self.func.blocks@);
        let mut k: usize = 0;
        let mut m: usize = n;
        assert(out@ =~= old(out)@ + Seq::<Code>::empty());
        while k < self.func.blocks.len()
            invariant
                self.ok(),
                k <= self.func.blocks@.len() < LABEL_LIMIT,
                bs == blocks_model(self.func.blocks@),
                m <= LABEL_LIMIT + 16,
                blocks_upto(self.cx(), bs, k as int, n as int) is Ok,
                out@ == old(out)@ + (blocks_upto(self.cx(), bs, k as int, n as int)->Ok_0).0,
                m == (blocks_upto(self.cx(), bs, k as int, n as int)->Ok_0).1,
            decreases self.func.blocks.len() - k,
        {
            assert(bs[k as int] == self.func.blocks@[k as int]@);
            if self.func.blocks[k].reachable {
                out.push(Code::Bind(k + 2));
                match self.emit_block(&self.func.blocks[k], m, out) {
                    Ok(next) => {
                        m = next;
                    },
                    Err(e) => {
                        proof {
                            failed_blocks(
                                self.cx(),
                                bs,
                                k + 1,
                                self.func.blocks@.len() as int,
                                n as int,
                            );
                        }
                        return Err(e);
                    },
                }
            }
            assert(out@ =~= old(out)@ + (blocks_upto(self.cx(), bs, k + 1, n as int)->Ok_0).0);
            k = k + 1;
        }
        Ok(m)
    }

    fn emit_prologue(&self, n: usize, out: &mut Vec<Code>)
        requires
            self.ok(),
            n <= LABEL_LIMIT + 16,
        ensures
            final(out)@ == old(out)@ + prologue(self.cx(), self.func.params, n as int),
    {
        out.push(Code::Push(Gpr(RBP)));
        out.push(Code::MovRr(Gpr(RBP), Gpr(RSP)));
        out.push(Code::Push(Gpr(R13)));
        out.push(Code::Push(Gpr(R14)));
        out.push(Code::Push(Gpr(R15)));
        out.push(Code::Push(Gpr(RBX)));
        out.push(Code::SubRsp(self.lay.frame as u32));
        out.push(Code::MovRr(Gpr(R13), Gpr(RSP)));
        out.push(Code::MovMr(Mem { base: Gpr(R13), disp: self.lay.nf_slot }, Gpr(RDI)));
        out.push(Code::MovMr(Mem { base: Gpr(RDI), disp: NF_FRAME_BASE }, Gpr(R13)));
        let params: u16 = self.func.params;
        if params > 0 {
            out.push(Code::AluRr(Alu::Xor, Gpr(RCX), Gpr(RCX)));
            out.push(Code::MovRr(Gpr(R11), Gpr(R13)));
            out.push(Code::Bind(n));
            out.push(Code::AluRi(Alu::Compare, Gpr(RCX), params as i32));
            out.push(Code::Jcc(Cond::GE, n + 1));
            out.push(Code::MovRm(Gpr(RAX), Mem { base: Gpr(RSI), disp: 0 }));
            out.push(Code::MovMr(Mem { base: Gpr(R11), disp: 0 }, Gpr(RAX)));
            out.push(Code::MovRm(Gpr(RAX), Mem { base: Gpr(RSI), disp: 8 }));
            out.push(Code::MovMr(Mem { base: Gpr(R11), disp: 8 }, Gpr(RAX)));
            out.push(Code::AluRi(Alu::Add, Gpr(RSI), 16));
            out.push(Code::AluRi(Alu::Add, Gpr(R11), 16));
            out.push(Code::AluRi(Alu::Add, Gpr(RCX), 1));
            out.push(Code::Jmp(n));
            out.push(Code::Bind(n + 1));
        }
        assert(out@ =~= old(out)@ + prologue(self.cx(), self.func.params, n as int));
    }

    fn emit_epilogue(&self, overflow_addr: u64, out: &mut Vec<Code>)
        requires
            self.ok(),
        ensures
            final(out)@ == old(out)@ + epilogue(self.cx(), overflow_addr),
    {
        out.push(Code::Bind(OVERFLOW_LABEL));
        out.push(Code::MovRm(Gpr(R10), Mem { base: Gpr(R13), disp: self.lay.nf_slot }));
        out.push(Code::MovRm(Gpr(RDI), Mem { base: Gpr(R10), disp: NF_VM }));
        out.push(Code::Movabs(Gpr(R11), overflow_addr));
        out.push(Code::CallR(Gpr(R11)));
        out.push(Code::MovRi(Gpr(RAX), 2));
        out.push(Code::Jmp(EPILOGUE_LABEL));
        out.push(Code::Bind(EPILOGUE_LABEL));
        out.push(Code::AluRi(Alu::Add, Gpr(RSP), self.lay.frame as i32));
        out.push(Code::Pop(Gpr(RBX)));
        out.push(Code::Pop(Gpr(R15)));
        out.push(Code::Pop(Gpr(R14)));
        out.push(Code::Pop(Gpr(R13)));
        out.push(Code::Pop(Gpr(RBP)));
        out.push(Code::Ret);
        assert(out@ =~= old(out)@ + epilogue(self.cx(), overflow_addr));
    }
}

/// Machine code or an error, by value.
pub open spec fn bytes_or_error(r: Result<(Vec<u8>, usize), String>) -> Result<
    (Seq<u8>, usize),
    Seq<char>,
> {
    match r {
        Ok((code, frame)) => Ok((code@, frame)),
        Err(e) => Err(e@),
    }
}

/// Generate machine code for a function, with the homes that were allocated.
/// Returns the code bytes and the size of the stack frame in bytes.
pub fn emit_function(func: &Function, alloc: &Allocation, overflow_addr: u64) -> (r: Result<
    (Vec<u8>, usize),
    String,
>)
    ensures
        bytes_or_error(r) == function_bytes(*func, *alloc, overflow_addr),
{
    let cg: Codegen = match Codegen::new(func, alloc) {
        Some(cg) => cg,
        None => return Err(large()),
    };
    let count: usize = func.blocks.len();
    if count >= LABEL_LIMIT {
        return Err(large());
    }
    let mut out: Vec<Code> = Vec::new();
    cg.emit_prologue(count + 2, &mut out);
    let labels: usize = cg.emit_blocks(count + 4, &mut out)?;
    cg.emit_epilogue(overflow_addr, &mut out);
    assert(out@ =~= (function_code(cg.cx(), *func, overflow_addr)->Ok_0).0);
    match assemble_codes(&out, labels) {
        Some(code) => Ok((code, cg.lay.frame)),
        None => Err(own("codegen: code cannot be assembled")),
    }
}

} // verus!
