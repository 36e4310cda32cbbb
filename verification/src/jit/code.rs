//! Machine instructions as data, and their assembly into bytes.
//!
//! A list of instructions with numbered labels is assembled in one pass. The
//! contract gives the bytes: every instruction in its encoding, every branch
//! with the displacement to the place where its label stands.

use crate::jit::assembler::{
    appended, branched, cond_bits, displacement, enc_alu_imm, enc_mov_imm, enc_r, enc_rm, enc_rr,
    enc_setcc, enc_short, enc_sse_rm, enc_sse_rr, fits_i32, in_pending, le4, le8, link_holds,
    links_bound, Asm, Cond, Gpr, Label, Link, Mem, Xmm,
};
use vstd::prelude::*;

verus! {

/// Integer operations.
#[derive(Debug, Clone, Copy, PartialEq, Eq, Structural)]
pub enum Alu {
    /// Addition.
    Add,
    /// Subtraction.
    Sub,
    /// Bitwise and.
    And,
    /// Bitwise or.
    Or,
    /// Bitwise exclusive or.
    Xor,
    /// Comparison.
    Compare,
}

/// Shifts.
#[derive(Debug, Clone, Copy, PartialEq, Eq, Structural)]
pub enum Shift {
    /// To the left.
    Left,
    /// To the right, without the sign.
    Right,
    /// To the right, with the sign.
    Signed,
}

/// Float operations.
#[derive(Debug, Clone, Copy, PartialEq, Eq, Structural)]
pub enum Sse {
    /// Move.
    Move,
    /// Addition.
    Add,
    /// Subtraction.
    Sub,
    /// Multiplication.
    Mul,
    /// Comparison.
    Compare,
}

/// A machine instruction, or the place of a label.
#[derive(Debug, Clone, Copy, PartialEq, Eq, Structural)]
pub enum Code {
    /// Register to register.
    MovRr(Gpr, Gpr),
    /// Constant to register.
    MovRi(Gpr, i64),
    /// Memory to register.
    MovRm(Gpr, Mem),
    /// Register to memory.
    MovMr(Mem, Gpr),
    /// 64-bit constant to register.
    Movabs(Gpr, u64),
    /// Address to register.
    Lea(Gpr, Mem),
    /// Integer operation on registers.
    AluRr(Alu, Gpr, Gpr),
    /// Integer operation on a register and memory.
    AluRm(Alu, Gpr, Mem),
    /// Integer operation on a register and a constant.
    AluRi(Alu, Gpr, i32),
    /// Multiplication.
    Imul(Gpr, Gpr),
    /// Bitwise and, for the flags alone.
    Test(Gpr, Gpr),
    /// Shift by a constant.
    ShiftRi(Shift, Gpr, u8),
    /// Negation.
    Neg(Gpr),
    /// A condition as 0 or 1.
    Setcc(Cond, Gpr),
    /// Float operation on registers.
    SseRr(Sse, Xmm, Xmm),
    /// Float operation on a register and memory.
    SseRm(Sse, Xmm, Mem),
    /// Integer to double.
    Cvtsi2sd(Xmm, Gpr),
    /// Double to single.
    Cvtsd2ss(Xmm, Xmm),
    /// Single to double.
    Cvtss2sd(Xmm, Xmm),
    /// Bits of an integer register to a float register.
    MovqXg(Xmm, Gpr),
    /// Bits of a float register to an integer register.
    MovqGx(Gpr, Xmm),
    /// Push.
    Push(Gpr),
    /// Pop.
    Pop(Gpr),
    /// Lower the stack pointer.
    SubRsp(u32),
    /// Call through a register.
    CallR(Gpr),
    /// Return.
    Ret,
    /// A label stands here.
    Bind(usize),
    /// Jump.
    Jmp(usize),
    /// Jump on a condition.
    Jcc(Cond, usize),
}

// ---------------------------------------------------------------------------
// Encodings
// ---------------------------------------------------------------------------

/// The opcode of an operation on registers, the second one the source.
pub open spec fn alu_rr(op: Alu) -> u8 {
    match op {
        Alu::Add => 0x01,
        Alu::Or => 0x09,
        Alu::And => 0x21,
        Alu::Sub => 0x29,
        Alu::Xor => 0x31,
        Alu::Compare => 0x39,
    }
}

/// The opcode of an operation on a register and memory.
pub open spec fn alu_rm(op: Alu) -> u8 {
    match op {
        Alu::Add => 0x03,
        Alu::Or => 0x0B,
        Alu::And => 0x23,
        Alu::Sub => 0x2B,
        Alu::Xor => 0x33,
        Alu::Compare => 0x3B,
    }
}

/// The opcode extension of an operation with a constant.
pub open spec fn alu_digit(op: Alu) -> u8 {
    match op {
        Alu::Add => 0,
        Alu::Or => 1,
        Alu::And => 4,
        Alu::Sub => 5,
        Alu::Xor => 6,
        Alu::Compare => 7,
    }
}

/// The opcode extension of a shift.
pub open spec fn shift_digit(op: Shift) -> u8 {
    match op {
        Shift::Left => 4,
        Shift::Right => 5,
        Shift::Signed => 7,
    }
}

/// The prefix and the opcode of a float operation.
pub open spec fn sse_op(op: Sse) -> (u8, u8) {
    match op {
        Sse::Move => (0xF2, 0x10),
        Sse::Add => (0xF2, 0x58),
        Sse::Sub => (0xF2, 0x5C),
        Sse::Mul => (0xF2, 0x59),
        Sse::Compare => (0x66, 0x2E),
    }
}

/// The label that an instruction branches to, with the opcode of the branch.
pub open spec fn branch_of(c: Code) -> Option<(Seq<u8>, usize)> {
    match c {
        Code::Jmp(l) => Some((seq![0xE9u8], l)),
        Code::Jcc(cond, l) => Some((seq![0x0Fu8, (0x80 + cond_bits(cond)) as u8], l)),
        _ => None,
    }
}

/// The bytes of an instruction; of a branch, those before the displacement.
pub open spec fn enc(c: Code) -> Seq<u8> {
    match c {
        Code::MovRr(d, s) => enc_rr(true, seq![0x8Bu8], d.0, s.0),
        Code::MovRi(d, v) => enc_mov_imm(d.0, v),
        Code::MovRm(d, m) => enc_rm(true, seq![0x8Bu8], d.0, m),
        Code::MovMr(m, s) => enc_rm(true, seq![0x89u8], s.0, m),
        Code::Movabs(d, v) => enc_short(true, 0xB8, d.0) + le8(v),
        Code::Lea(d, m) => enc_rm(true, seq![0x8Du8], d.0, m),
        Code::AluRr(op, d, s) => enc_rr(true, seq![alu_rr(op)], s.0, d.0),
        Code::AluRm(op, d, m) => enc_rm(true, seq![alu_rm(op)], d.0, m),
        Code::AluRi(op, d, v) => enc_alu_imm(alu_digit(op), d.0, v as i64),
        Code::Imul(d, s) => enc_rr(true, seq![0x0Fu8, 0xAF], d.0, s.0),
        Code::Test(a, b) => enc_rr(true, seq![0x85u8], a.0, b.0),
        Code::ShiftRi(op, d, n) => enc_r(true, 0xC1, shift_digit(op), d.0) + seq![n],
        Code::Neg(d) => enc_r(true, 0xF7, 3, d.0),
        Code::Setcc(cond, d) => enc_setcc(cond, d.0),
        Code::SseRr(op, d, s) => enc_sse_rr(sse_op(op).0, false, sse_op(op).1, d.0, s.0),
        Code::SseRm(op, d, m) => enc_sse_rm(sse_op(op).0, sse_op(op).1, d.0, m),
        Code::Cvtsi2sd(d, s) => enc_sse_rr(0xF2, true, 0x2A, d.0, s.0),
        Code::Cvtsd2ss(d, s) => enc_sse_rr(0xF2, false, 0x5A, d.0, s.0),
        Code::Cvtss2sd(d, s) => enc_sse_rr(0xF3, false, 0x5A, d.0, s.0),
        Code::MovqXg(d, s) => enc_sse_rr(0x66, true, 0x6E, d.0, s.0),
        Code::MovqGx(d, s) => enc_sse_rr(0x66, true, 0x7E, s.0, d.0),
        Code::Push(r) => enc_short(false, 0x50, r.0),
        Code::Pop(r) => enc_short(false, 0x58, r.0),
        Code::SubRsp(n) => enc_r(true, 0x81, 5, 4) + le4(n),
        Code::CallR(r) => enc_r(false, 0xFF, 2, r.0),
        Code::Ret => seq![0xC3u8],
        Code::Bind(_) => seq![],
        Code::Jmp(_) => seq![0xE9u8],
        Code::Jcc(cond, _) => seq![0x0Fu8, (0x80 + cond_bits(cond)) as u8],
    }
}

/// How many bytes an instruction takes.
pub open spec fn size(c: Code) -> nat {
    if branch_of(c) is Some {
        enc(c).len() + 4
    } else {
        enc(c).len()
    }
}

/// Where the instruction with number `i` starts.
pub open spec fn place(cs: Seq<Code>, i: int) -> nat
    decreases i,
{
    if i <= 0 {
        0
    } else {
        place(cs, i - 1) + size(cs[i - 1])
    }
}

/// Which instruction a label stands before: the number of its `Bind`, or the
/// length.
pub open spec fn bind_of(cs: Seq<Code>, l: usize, i: int) -> int
    decreases cs.len() - i,
{
    if i < 0 || i >= cs.len() {
        cs.len() as int
    } else if cs[i] == Code::Bind(l) {
        i
    } else {
        bind_of(cs, l, i + 1)
    }
}

/// Where a label stands.
pub open spec fn label_place(cs: Seq<Code>, l: usize) -> int {
    place(cs, bind_of(cs, l, 0)) as int
}

/// Every label stands at one place at most, and every branch goes to a label
/// that stands somewhere.
pub open spec fn well_labelled(cs: Seq<Code>) -> bool {
    &&& forall|i: int, j: int|
        0 <= i < j < cs.len() && (#[trigger] cs[i]) is Bind ==> cs[i] != #[trigger] cs[j]
    &&& forall|i: int|
        0 <= i < cs.len() ==> ((branch_of(#[trigger] cs[i]) matches Some((_, l)) ==> bind_of(
            cs,
            l,
            0,
        ) < cs.len()))
}

/// The bytes of the instruction with number `i`.
pub open spec fn bytes_of(cs: Seq<Code>, i: int) -> Seq<u8> {
    match branch_of(cs[i]) {
        None => enc(cs[i]),
        Some((op, l)) => op + le4(
            (displacement((place(cs, i) + op.len()) as int, label_place(cs, l)) as i32) as u32,
        ),
    }
}

/// The bytes of the first `n` instructions.
pub open spec fn assembled_upto(cs: Seq<Code>, n: int) -> Seq<u8>
    decreases n,
{
    if n <= 0 {
        Seq::empty()
    } else {
        assembled_upto(cs, n - 1) + bytes_of(cs, n - 1)
    }
}

/// The bytes of all instructions.
pub open spec fn assembled(cs: Seq<Code>) -> Seq<u8> {
    assembled_upto(cs, cs.len() as int)
}

// ---------------------------------------------------------------------------
// Sizes
// ---------------------------------------------------------------------------

proof fn rm_size(w: bool, op: Seq<u8>, reg: u8, mem: Mem)
    ensures
        enc_rm(w, op, reg, mem).len() <= op.len() + 7,
{
}

proof fn rr_size(w: bool, op: Seq<u8>, reg: u8, rm: u8)
    ensures
        enc_rr(w, op, reg, rm).len() <= op.len() + 2,
{
}

#[verifier::spinoff_prover]
proof fn size_bound(c: Code)
    ensures
        size(c) <= 16,
{
    match c {
        Code::MovRm(d, m) => rm_size(true, seq![0x8Bu8], d.0, m),
        Code::MovMr(m, s) => rm_size(true, seq![0x89u8], s.0, m),
        Code::Lea(d, m) => rm_size(true, seq![0x8Du8], d.0, m),
        Code::AluRm(op, d, m) => rm_size(true, seq![alu_rm(op)], d.0, m),
        Code::SseRm(op, d, m) => rm_size(false, seq![0x0Fu8, sse_op(op).1], d.0, m),
        Code::MovRr(d, s) => rr_size(true, seq![0x8Bu8], d.0, s.0),
        Code::AluRr(op, d, s) => rr_size(true, seq![alu_rr(op)], s.0, d.0),
        Code::Imul(d, s) => rr_size(true, seq![0x0Fu8, 0xAF], d.0, s.0),
        Code::Test(a, b) => rr_size(true, seq![0x85u8], a.0, b.0),
        Code::Setcc(_, d) => rr_size(true, seq![0x0Fu8, 0xB6], d.0, d.0),
        Code::SseRr(op, d, s) => rr_size(false, seq![0x0Fu8, sse_op(op).1], d.0, s.0),
        Code::Cvtsi2sd(d, s) => rr_size(true, seq![0x0Fu8, 0x2A], d.0, s.0),
        Code::Cvtsd2ss(d, s) => rr_size(false, seq![0x0Fu8, 0x5A], d.0, s.0),
        Code::Cvtss2sd(d, s) => rr_size(false, seq![0x0Fu8, 0x5A], d.0, s.0),
        Code::MovqXg(d, s) => rr_size(true, seq![0x0Fu8, 0x6E], d.0, s.0),
        Code::MovqGx(d, s) => rr_size(true, seq![0x0Fu8, 0x7E], s.0, d.0),
        _ => {},
    }
}

proof fn place_grows(cs: Seq<Code>, i: int, j: int)
    requires
        0 <= i <= j,
    ensures
        place(cs, i) <= place(cs, j),
        place(cs, j) <= place(cs, i) + 16 * (j - i),
    decreases j - i,
{
    if i < j {
        place_grows(cs, i, j - 1);
        size_bound(cs[j - 1]);
    }
}

/// A label is found where it stands, or nowhere.
pub proof fn bind_found(cs: Seq<Code>, l: usize, i: int)
    requires
        0 <= i <= cs.len(),
    ensures
        i <= bind_of(cs, l, i) <= cs.len(),
        bind_of(cs, l, i) < cs.len() ==> cs[bind_of(cs, l, i)] == Code::Bind(l),
    decreases cs.len() - i,
{
    if i < cs.len() && cs[i] != Code::Bind(l) {
        bind_found(cs, l, i + 1);
    }
}

/// Where a label stands only once, its place is where it stands.
pub proof fn bind_unique(cs: Seq<Code>, l: usize, k: int, i: int)
    requires
        well_labelled(cs),
        0 <= i <= k < cs.len(),
        cs[k] == Code::Bind(l),
    ensures
        bind_of(cs, l, i) == k,
    decreases k - i,
{
    if i < k {
        if cs[i] == Code::Bind(l) {
            assert(cs[i] is Bind);
            assert(cs[i] != cs[k]);
        }
        bind_unique(cs, l, k, i + 1);
    }
}

// ---------------------------------------------------------------------------
// Assembly
// ---------------------------------------------------------------------------

/// The branch with number `j`, after the first `i` instructions.
spec fn link_at(cs: Seq<Code>, j: int, i: int) -> Link {
    let (op, l) = branch_of(cs[j])->Some_0;
    Link {
        offset: (place(cs, j) + op.len()) as int,
        label: l,
        target: if bind_of(cs, l, 0) < i {
            Some(label_place(cs, l))
        } else {
            None
        },
    }
}

/// The branches among the first `k` instructions, after the first `i`.
spec fn links_of(cs: Seq<Code>, k: int, i: int) -> Seq<Link>
    decreases k,
{
    if k <= 0 {
        Seq::empty()
    } else if branch_of(cs[k - 1]) is Some {
        links_of(cs, k - 1, i).push(link_at(cs, k - 1, i))
    } else {
        links_of(cs, k - 1, i)
    }
}

/// The bytes of an instruction, but for the displacement of a branch, stand
/// where they belong.
spec fn stands(bytes: Seq<u8>, cs: Seq<Code>, j: int) -> bool {
    &&& place(cs, j) + enc(cs[j]).len() <= bytes.len()
    &&& forall|q: int|
        0 <= q < enc(cs[j]).len() ==> #[trigger] bytes[place(cs, j) + q] == enc(cs[j])[q]
}

/// An assembler after the first `i` instructions.
spec fn matching(a: Asm, cs: Seq<Code>, i: int) -> bool {
    &&& a.wf()
    &&& a.bytes().len() == place(cs, i)
    &&& a.links() == links_of(cs, i, i)
    &&& forall|l: usize| #[trigger] a.bound().contains_key(l) <==> bind_of(cs, l, 0) < i
    &&& forall|l: usize|
        #[trigger] a.bound().contains_key(l) ==> a.bound()[l] == label_place(cs, l)
    &&& forall|j: int| 0 <= j < i ==> #[trigger] stands(a.bytes(), cs, j)
}

/// Every branch belongs to one of the instructions.
proof fn link_owner(cs: Seq<Code>, k: int, i: int, x: int) -> (j: int)
    requires
        0 <= x < links_of(cs, k, i).len(),
    ensures
        0 <= j < k,
        branch_of(cs[j]) is Some,
        links_of(cs, k, i)[x] == link_at(cs, j, i),
    decreases k,
{
    if k <= 0 {
        0
    } else if branch_of(cs[k - 1]) is Some && x == links_of(cs, k - 1, i).len() {
        k - 1
    } else {
        link_owner(cs, k - 1, i, x)
    }
}

/// Every branch is in the list.
proof fn link_listed(cs: Seq<Code>, k: int, i: int, j: int) -> (x: int)
    requires
        0 <= j < k,
        branch_of(cs[j]) is Some,
    ensures
        0 <= x < links_of(cs, k, i).len(),
        links_of(cs, k, i)[x] == link_at(cs, j, i),
    decreases k,
{
    if j == k - 1 {
        links_of(cs, k - 1, i).len() as int
    } else {
        link_listed(cs, k - 1, i, j)
    }
}

/// An instruction at which no label stands changes no target.
proof fn links_same(cs: Seq<Code>, k: int, i: int)
    requires
        0 <= i < cs.len(),
        !(cs[i] is Bind),
    ensures
        links_of(cs, k, i + 1) == links_of(cs, k, i),
    decreases k,
{
    if k > 0 {
        links_same(cs, k - 1, i);
        if let Some((_, l)) = branch_of(cs[k - 1]) {
            bind_found(cs, l, 0);
        }
    }
}

/// A label that stands gives its branches their target.
proof fn links_get_target(cs: Seq<Code>, k: int, i: int, l: usize)
    requires
        well_labelled(cs),
        0 <= i < cs.len(),
        cs[i] == Code::Bind(l),
    ensures
        links_bound(links_of(cs, k, i), l, place(cs, i) as int) == links_of(cs, k, i + 1),
    decreases k,
{
    bind_unique(cs, l, i, 0);
    if k > 0 {
        links_get_target(cs, k - 1, i, l);
        let before = links_of(cs, k - 1, i);
        let after = links_of(cs, k - 1, i + 1);
        assert(links_bound(before, l, place(cs, i) as int) == after);
        if let Some((_, m)) = branch_of(cs[k - 1]) {
            if m != l {
                bind_found(cs, m, 0);
            }
            let x = link_at(cs, k - 1, i);
            let y = link_at(cs, k - 1, i + 1);
            assert(links_bound(before.push(x), l, place(cs, i) as int) =~= links_bound(
                before,
                l,
                place(cs, i) as int,
            ).push(y));
        }
    } else {
        assert(links_bound(links_of(cs, k, i), l, place(cs, i) as int) =~= links_of(cs, k, i + 1));
    }
}

/// What stands does not lie in the displacement of a branch.
proof fn stands_apart(cs: Seq<Code>, i: int, j: int, q: int, l: usize)
    requires
        0 <= j < i <= cs.len(),
        0 <= q < enc(cs[j]).len(),
    ensures
        !in_pending(links_of(cs, i, i), l, place(cs, j) + q),
{
    let links = links_of(cs, i, i);
    let p = place(cs, j) + q;
    if in_pending(links, l, p) {
        let x = choose|x: int|
            0 <= x < links.len() && (#[trigger] links[x]).target is None && links[x].label == l
                && links[x].offset <= p < links[x].offset + 4;
        let k = link_owner(cs, i, i, x);
        assert(enc(cs[k]) =~= branch_of(cs[k])->Some_0.0);
        if k < j {
            place_grows(cs, k + 1, j);
        } else if j < k {
            place_grows(cs, j + 1, k);
        }
    }
}

fn put_alu(out: &mut Asm, op: Alu, d: Gpr, s: Gpr)
    requires
        old(out).wf(),
    ensures
        appended(*old(out), *final(out), enc(Code::AluRr(op, d, s))),
{
    match op {
        Alu::Add => out.add_rr(d, s),
        Alu::Sub => out.sub_rr(d, s),
        Alu::And => out.and_rr(d, s),
        Alu::Or => out.or_rr(d, s),
        Alu::Xor => out.xor_rr(d, s),
        Alu::Compare => out.cmp_rr(d, s),
    }
}

fn put_alu_mem(out: &mut Asm, op: Alu, d: Gpr, m: Mem)
    requires
        old(out).wf(),
    ensures
        appended(*old(out), *final(out), enc(Code::AluRm(op, d, m))),
{
    match op {
        Alu::Add => out.add_rm(d, m),
        Alu::Sub => out.sub_rm(d, m),
        Alu::And => out.and_rm(d, m),
        Alu::Or => out.or_rm(d, m),
        Alu::Xor => out.xor_rm(d, m),
        Alu::Compare => out.cmp_rm(d, m),
    }
}

fn put_alu_const(out: &mut Asm, op: Alu, d: Gpr, v: i64)
    requires
        old(out).wf(),
        i32::MIN <= v <= i32::MAX,
    ensures
        appended(
            *old(out),
            *final(out),
            enc_alu_imm(alu_digit(op), d.0, v),
        ),
{
    match op {
        Alu::Add => out.add_ri(d, v),
        Alu::Sub => out.sub_ri(d, v),
        Alu::And => out.and_ri(d, v),
        Alu::Or => out.or_ri(d, v),
        Alu::Xor => out.xor_ri(d, v),
        Alu::Compare => out.cmp_ri(d, v),
    }
}

fn put_plain(out: &mut Asm, c: Code)
    requires
        old(out).wf(),
        branch_of(c) is None,
        !(c is Bind),
    ensures
        appended(*old(out), *final(out), enc(c)),
{
    match c {
        Code::MovRr(d, s) => out.mov_rr(d, s),
        Code::MovRi(d, v) => out.mov_ri(d, v),
        Code::MovRm(d, m) => out.mov_rm(d, m),
        Code::MovMr(m, s) => out.mov_mr(m, s),
        Code::Movabs(d, v) => out.movabs(d, v),
        Code::Lea(d, m) => out.lea(d, m),
        Code::AluRr(op, d, s) => put_alu(out, op, d, s),
        Code::AluRm(op, d, m) => put_alu_mem(out, op, d, m),
        Code::AluRi(op, d, v) => put_alu_const(out, op, d, v as i64),
        Code::Imul(d, s) => out.imul_rr(d, s),
        Code::Test(a, b) => out.test_rr(a, b),
        Code::ShiftRi(op, d, n) => match op {
            Shift::Left => out.shl_ri(d, n),
            Shift::Right => out.shr_ri(d, n),
            Shift::Signed => out.sar_ri(d, n),
        },
        Code::Neg(d) => out.neg(d),
        Code::Setcc(cond, d) => out.setcc(cond, d),
        Code::SseRr(op, d, s) => match op {
            Sse::Move => out.movsd_rr(d, s),
            Sse::Add => out.addsd_rr(d, s),
            Sse::Sub => out.subsd_rr(d, s),
            Sse::Mul => out.mulsd_rr(d, s),
            Sse::Compare => out.ucomisd_rr(d, s),
        },
        Code::SseRm(op, d, m) => match op {
            Sse::Move => out.movsd_rm(d, m),
            Sse::Add => out.addsd_rm(d, m),
            Sse::Sub => out.subsd_rm(d, m),
            Sse::Mul => out.mulsd_rm(d, m),
            Sse::Compare => out.ucomisd_rm(d, m),
        },
        Code::Cvtsi2sd(d, s) => out.cvtsi2sd_rr(d, s),
        Code::Cvtsd2ss(d, s) => out.cvtsd2ss_rr(d, s),
        Code::Cvtss2sd(d, s) => out.cvtss2sd_rr(d, s),
        Code::MovqXg(d, s) => out.movq_xmm_rr(d, s),
        Code::MovqGx(d, s) => out.movq_rr_xmm(d, s),
        Code::Push(r) => out.push(r),
        Code::Pop(r) => out.pop(r),
        Code::SubRsp(n) => out.sub_rsp_imm(n),
        Code::CallR(r) => out.call_r(r),
        Code::Ret => out.ret(),
        _ => {},
    }
}

/// What stands goes on standing where the bytes at its place are kept.
proof fn stands_on(before: Seq<u8>, after: Seq<u8>, cs: Seq<Code>, j: int)
    requires
        stands(before, cs, j),
        before.len() <= after.len(),
        forall|q: int|
            0 <= q < enc(cs[j]).len() ==> #[trigger] after[place(cs, j) + q] == before[place(cs, j)
                + q],
    ensures
        stands(after, cs, j),
{
    assert forall|q: int| 0 <= q < enc(cs[j]).len() implies #[trigger] after[place(cs, j) + q]
        == enc(cs[j])[q] by {
        assert(before[place(cs, j) + q] == enc(cs[j])[q]);
    }
}

proof fn step_plain(a: Asm, b: Asm, cs: Seq<Code>, i: int)
    requires
        matching(a, cs, i),
        0 <= i < cs.len(),
        branch_of(cs[i]) is None,
        !(cs[i] is Bind),
        appended(a, b, enc(cs[i])),
    ensures
        matching(b, cs, i + 1),
{
    links_same(cs, i, i);
    assert forall|l: usize| #[trigger] b.bound().contains_key(l) <==> bind_of(cs, l, 0) < i + 1 by {
        bind_found(cs, l, 0);
        assert(a.bound().contains_key(l) <==> bind_of(cs, l, 0) < i);
    }
    assert forall|j: int| 0 <= j < i + 1 implies #[trigger] stands(b.bytes(), cs, j) by {
        if j < i {
            assert(stands(a.bytes(), cs, j));
            place_grows(cs, j + 1, i);
            stands_on(a.bytes(), b.bytes(), cs, j);
        }
    }
}

proof fn step_branch(a: Asm, b: Asm, cs: Seq<Code>, i: int, op: Seq<u8>, label: Label)
    requires
        matching(a, cs, i),
        0 <= i < cs.len(),
        branch_of(cs[i]) == Some((op, label.id())),
        enc(cs[i]) == op,
        branched(a, b, op, label),
    ensures
        matching(b, cs, i + 1),
{
    links_same(cs, i, i);
    let l = label.id();
    bind_found(cs, l, 0);
    assert(a.bound().contains_key(l) <==> bind_of(cs, l, 0) < i);
    assert(b.links() == links_of(cs, i, i).push(link_at(cs, i, i + 1)));
    assert(links_of(cs, i + 1, i + 1) == links_of(cs, i, i + 1).push(link_at(cs, i, i + 1)));
    assert forall|m: usize| #[trigger] b.bound().contains_key(m) <==> bind_of(cs, m, 0) < i + 1 by {
        bind_found(cs, m, 0);
        assert(a.bound().contains_key(m) <==> bind_of(cs, m, 0) < i);
    }
    let head = a.bytes() + op;
    assert forall|p: int| 0 <= p < head.len() implies #[trigger] b.bytes()[p] == head[p] by {
        assert(b.bytes().subrange(0, head.len() as int)[p] == head[p]);
    }
    assert forall|j: int| 0 <= j < i + 1 implies #[trigger] stands(b.bytes(), cs, j) by {
        if j < i {
            assert(stands(a.bytes(), cs, j));
            place_grows(cs, j + 1, i);
            stands_on(a.bytes(), b.bytes(), cs, j);
        }
    }
}

proof fn step_bind(a: Asm, b: Asm, cs: Seq<Code>, i: int, l: usize)
    requires
        matching(a, cs, i),
        well_labelled(cs),
        0 <= i < cs.len(),
        cs[i] == Code::Bind(l),
        place(cs, i) <= usize::MAX,
        b.wf(),
        b.links() == links_bound(a.links(), l, a.bytes().len() as int),
        b.bound() == a.bound().insert(l, a.bytes().len() as usize),
        b.bytes().len() == a.bytes().len(),
        forall|p: int|
            0 <= p < a.bytes().len() && !in_pending(a.links(), l, p) ==> b.bytes()[p]
                == a.bytes()[p],
    ensures
        matching(b, cs, i + 1),
{
    links_get_target(cs, i, i, l);
    bind_unique(cs, l, i, 0);
    assert forall|m: usize| #[trigger] b.bound().contains_key(m) <==> bind_of(cs, m, 0) < i + 1 by {
        bind_found(cs, m, 0);
        assert(a.bound().contains_key(m) <==> bind_of(cs, m, 0) < i);
    }
    assert forall|m: usize| #[trigger] b.bound().contains_key(m) implies b.bound()[m]
        == label_place(cs, m) by {
        if m != l {
            assert(a.bound().contains_key(m));
        }
    }
    assert forall|j: int| 0 <= j < i + 1 implies #[trigger] stands(b.bytes(), cs, j) by {
        if j < i {
            assert(stands(a.bytes(), cs, j));
            place_grows(cs, j + 1, i);
            assert forall|q: int| 0 <= q < enc(cs[j]).len() implies #[trigger] b.bytes()[place(
                cs,
                j,
            ) + q] == a.bytes()[place(cs, j) + q] by {
                stands_apart(cs, i, j, q, l);
            }
            stands_on(a.bytes(), b.bytes(), cs, j);
        }
    }
}

/// The bytes are those of the instructions.
proof fn all_stand(code: Seq<u8>, cs: Seq<Code>, n: int)
    requires
        well_labelled(cs),
        0 <= n <= cs.len(),
        place(cs, cs.len() as int) == code.len(),
        forall|j: int| 0 <= j < cs.len() ==> #[trigger] stands(code, cs, j),
        forall|x: int|
            0 <= x < links_of(cs, cs.len() as int, cs.len() as int).len() ==> link_holds(
                code,
                #[trigger] links_of(cs, cs.len() as int, cs.len() as int)[x],
            ),
    ensures
        code.subrange(0, place(cs, n) as int) == assembled_upto(cs, n),
        place(cs, n) <= code.len(),
    decreases n,
{
    place_grows(cs, n, cs.len() as int);
    if n > 0 {
        all_stand(code, cs, n - 1);
        let j = n - 1;
        assert(stands(code, cs, j));
        let from = place(cs, j) as int;
        let to = place(cs, n) as int;
        let part = code.subrange(from, to);
        if let Some((op, l)) = branch_of(cs[j]) {
            let x = link_listed(cs, cs.len() as int, cs.len() as int, j);
            let link = links_of(cs, cs.len() as int, cs.len() as int)[x];
            assert(link_holds(code, link));
            assert(enc(cs[j]) =~= op);
            let d = le4((displacement(from + op.len(), label_place(cs, l)) as i32) as u32);
            assert(code.subrange(from + op.len(), from + op.len() + 4) == d);
            assert forall|q: int| 0 <= q < part.len() implies part[q] == (op + d)[q] by {
                if q < op.len() {
                    assert(code[place(cs, j) + q] == enc(cs[j])[q]);
                } else {
                    assert(code.subrange(from + op.len(), from + op.len() + 4)[q - op.len()]
                        == d[q - op.len()]);
                }
            }
            assert(part =~= bytes_of(cs, j));
        } else {
            assert forall|q: int| 0 <= q < part.len() implies part[q] == enc(cs[j])[q] by {
                assert(code[place(cs, j) + q] == enc(cs[j])[q]);
            }
            assert(part =~= bytes_of(cs, j));
        }
        assert(code.subrange(0, to) =~= code.subrange(0, from) + part);
    } else {
        assert(code.subrange(0, 0) =~= Seq::<u8>::empty());
    }
}

/// How many instructions can be assembled together, so that every displacement
/// fits its four bytes.
pub const CODE_LIMIT: usize = 0x0400_0000;

/// The label of an instruction, where it has one.
pub open spec fn label_in(c: Code) -> Option<usize> {
    match c {
        Code::Bind(l) => Some(l),
        Code::Jmp(l) => Some(l),
        Code::Jcc(_, l) => Some(l),
        _ => None,
    }
}

/// Instructions that can be assembled: there are not too many, the labels have
/// numbers below `labels`, and they stand where branches go.
pub open spec fn can_assemble(cs: Seq<Code>, labels: usize) -> bool {
    &&& cs.len() < CODE_LIMIT
    &&& forall|i: int|
        0 <= i < cs.len() ==> ((label_in(#[trigger] cs[i]) matches Some(l) ==> l < labels))
    &&& well_labelled(cs)
}

/// The first place is not after any other.
proof fn bind_is_first(cs: Seq<Code>, l: usize, k: int, i: int)
    requires
        0 <= i <= k < cs.len(),
        cs[k] == Code::Bind(l),
    ensures
        bind_of(cs, l, i) <= k,
    decreases k - i,
{
    if i < k {
        bind_is_first(cs, l, k, i + 1);
    }
}

/// No label stands twice among the first `n` instructions.
spec fn distinct_upto(cs: Seq<Code>, n: int) -> bool {
    forall|i: int, j: int|
        0 <= i < j < n && (#[trigger] cs[i]) is Bind ==> cs[i] != #[trigger] cs[j]
}

fn check_labels(cs: &Vec<Code>, labels: usize) -> (r: bool)
    requires
        cs@.len() < CODE_LIMIT,
    ensures
        r == can_assemble(cs@, labels),
{
    let mut seen: Vec<bool> = Vec::new();
    let mut k: usize = 0;
    while k < labels
        invariant
            k <= labels,
            seen@.len() == k,
            forall|l: int| 0 <= l < k ==> !(#[trigger] seen@[l]),
        decreases labels - k,
    {
        seen.push(false);
        k = k + 1;
    }
    assert forall|l: int| 0 <= l < labels implies #[trigger] seen@[l] == (bind_of(
        cs@,
        l as usize,
        0,
    ) < 0) by {
        bind_found(cs@, l as usize, 0);
    }
    let mut i: usize = 0;
    while i < cs.len()
        invariant
            i <= cs@.len(),
            cs@.len() < CODE_LIMIT,
            seen@.len() == labels,
            forall|l: int|
                0 <= l < labels ==> #[trigger] seen@[l] == (bind_of(cs@, l as usize, 0) < i),
            distinct_upto(cs@, i as int),
            forall|j: int|
                0 <= j < i ==> ((label_in(#[trigger] cs@[j]) matches Some(l) ==> l < labels)),
        decreases cs.len() - i,
    {
        let mut found: Option<usize> = None;
        match cs[i] {
            Code::Bind(l) => {
                if l >= labels {
                    assert(label_in(cs@[i as int]) == Some(l));
                    return false;
                }
                if seen[l] {
                    proof {
                        bind_found(cs@, l, 0);
                        let p = bind_of(cs@, l, 0);
                        assert(cs@[p] is Bind);
                        assert(cs@[p] == cs@[i as int]);
                    }
                    return false;
                }
                found = Some(l);
            },
            Code::Jmp(l) => {
                if l >= labels {
                    assert(label_in(cs@[i as int]) == Some(l));
                    return false;
                }
            },
            Code::Jcc(_, l) => {
                if l >= labels {
                    assert(label_in(cs@[i as int]) == Some(l));
                    return false;
                }
            },
            _ => {},
        }
        let ghost before = seen@;
        proof {
            assert forall|a: int, b: int| 0 <= a < b < i + 1 && (#[trigger] cs@[a]) is Bind implies cs@[a]
                != #[trigger] cs@[b] by {
                if b == i && cs@[a] == cs@[b] {
                    let l = cs@[a]->Bind_0;
                    bind_is_first(cs@, l, a, 0);
                    assert(before[l as int]);
                }
            }
        }
        if let Some(l) = found {
            seen.set(l, true);
        }
        proof {
            assert forall|l: int| 0 <= l < labels implies #[trigger] seen@[l] == (bind_of(
                cs@,
                l as usize,
                0,
            ) < i + 1) by {
                bind_found(cs@, l as usize, 0);
                assert(before[l] == (bind_of(cs@, l as usize, 0) < i));
                if found == Some(l as usize) {
                    bind_is_first(cs@, l as usize, i as int, 0);
                }
            }
        }
        i = i + 1;
    }
    let mut j: usize = 0;
    while j < cs.len()
        invariant
            j <= cs@.len(),
            cs@.len() < CODE_LIMIT,
            seen@.len() == labels,
            forall|l: int|
                0 <= l < labels ==> #[trigger] seen@[l] == (bind_of(cs@, l as usize, 0)
                    < cs@.len()),
            forall|i: int|
                0 <= i < cs@.len() ==> ((label_in(#[trigger] cs@[i]) matches Some(l) ==> l
                    < labels)),
            distinct_upto(cs@, cs@.len() as int),
            forall|i: int|
                0 <= i < j ==> ((branch_of(#[trigger] cs@[i]) matches Some((_, l)) ==> bind_of(
                    cs@,
                    l,
                    0,
                ) < cs@.len())),
        decreases cs.len() - j,
    {
        assert(label_in(cs@[j as int]) matches Some(l) ==> l < labels);
        match cs[j] {
            Code::Jmp(l) => {
                if !seen[l] {
                    assert(branch_of(cs@[j as int]) is Some);
                    return false;
                }
            },
            Code::Jcc(_, l) => {
                if !seen[l] {
                    assert(branch_of(cs@[j as int]) is Some);
                    return false;
                }
            },
            _ => {},
        }
        j = j + 1;
    }
    true
}

/// Every displacement fits.
proof fn reaches(cs: Seq<Code>, offset: int, target: int)
    requires
        cs.len() < CODE_LIMIT,
        0 <= offset <= place(cs, cs.len() as int) + 16,
        0 <= target <= place(cs, cs.len() as int),
    ensures
        fits_i32(displacement(offset, target)),
{
    place_grows(cs, 0, cs.len() as int);
}

/// Assemble instructions with labels numbered below `labels`.
pub fn assemble_codes(cs: &Vec<Code>, labels: usize) -> (r: Option<Vec<u8>>)
    ensures
        r is Some <==> can_assemble(cs@, labels),
        r matches Some(code) ==> code@ == assembled(cs@),
{
    if cs.len() >= CODE_LIMIT || !check_labels(cs, labels) {
        return None;
    }
    let mut out: Asm = Asm::new();
    let mut table: Vec<Label> = Vec::new();
    let mut k: usize = 0;
    while k < labels
        invariant
            k <= labels,
            out.wf(),
            out.labels() == k,
            out.bytes() == Seq::<u8>::empty(),
            out.links() == Seq::<Link>::empty(),
            out.bound() == Map::<usize, usize>::empty(),
            table@.len() == k,
            forall|l: int| 0 <= l < k ==> (#[trigger] table@[l]).id() == l,
        decreases labels - k,
    {
        table.push(out.label());
        k = k + 1;
    }
    let mut i: usize = 0;
    proof {
        assert forall|l: usize| #[trigger] out.bound().contains_key(l) <==> bind_of(cs@, l, 0)
            < 0 by {
            bind_found(cs@, l, 0);
        }
        assert(matching(out, cs@, 0));
    }
    while i < cs.len()
        invariant
            i <= cs@.len(),
            can_assemble(cs@, labels),
            matching(out, cs@, i as int),
            table@.len() == labels,
            forall|l: int| 0 <= l < labels ==> (#[trigger] table@[l]).id() == l,
        decreases cs.len() - i,
    {
        let c: Code = cs[i];
        let ghost a = out;
        proof {
            place_grows(cs@, 0, i as int);
            place_grows(cs@, i as int, cs@.len() as int);
            place_grows(cs@, 0, cs@.len() as int);
            assert(label_in(cs@[i as int]) matches Some(l) ==> l < labels);
            if let Some(l) = label_in(c) {
                bind_found(cs@, l, 0);
                assert(table@[l as int].id() == l);
                if a.bound().contains_key(l) {
                    place_grows(cs@, bind_of(cs@, l, 0), cs@.len() as int);
                }
            }
        }
        match c {
            Code::Bind(l) => {
                proof {
                    assert forall|x: int| 0 <= x < a.links().len() && (#[trigger] a.links()[x]).target is None
                        && a.links()[x].label == l implies fits_i32(
                        displacement(a.links()[x].offset, a.bytes().len() as int),
                    ) by {
                        let j = link_owner(cs@, i as int, i as int, x);
                        place_grows(cs@, j, cs@.len() as int);
                        reaches(cs@, a.links()[x].offset, a.bytes().len() as int);
                    }
                }
                out.bind(table[l]);
                proof {
                    step_bind(a, out, cs@, i as int, l);
                }
            },
            Code::Jmp(l) => {
                proof {
                    if a.bound().contains_key(l) {
                        reaches(cs@, place(cs@, i as int) as int + 1, label_place(cs@, l));
                    }
                }
                out.jmp(table[l]);
                proof {
                    step_branch(a, out, cs@, i as int, seq![0xE9u8], table@[l as int]);
                }
            },
            Code::Jcc(cond, l) => {
                proof {
                    if a.bound().contains_key(l) {
                        reaches(cs@, place(cs@, i as int) as int + 2, label_place(cs@, l));
                    }
                }
                out.jcc(cond, table[l]);
                proof {
                    step_branch(
                        a,
                        out,
                        cs@,
                        i as int,
                        seq![0x0Fu8, (0x80 + cond_bits(cond)) as u8],
                        table@[l as int],
                    );
                }
            },
            _ => {
                put_plain(&mut out, c);
                proof {
                    step_plain(a, out, cs@, i as int);
                }
            },
        }
        i = i + 1;
    }
    proof {
        let n = cs@.len() as int;
        assert forall|x: int| 0 <= x < out.links().len() implies (#[trigger] out.links()[x]).target is Some by {
            let j = link_owner(cs@, n, n, x);
        }
    }
    let code: Vec<u8> = out.assemble();
    proof {
        let n = cs@.len() as int;
        all_stand(code@, cs@, n);
        assert(code@.subrange(0, place(cs@, n) as int) =~= code@);
    }
    Some(code)
}

} // verus!
