//! Reading machine code back: what the processor finds in the bytes of an
//! instruction is the instruction.

use crate::jit::assembler::{
    displacement, enc_r, enc_rm, enc_rr, enc_short, ext, fits_i32, fits_i8, le4, le8, mem_bytes,
    mem_mode, modrm_byte, modrm_fields, rex_bytes, Cond, Gpr, Mem,
};
use crate::jit::code::{
    assembled, assembled_upto, branch_of, bytes_of, enc, label_place, place, Alu, Code, Shift, Sse,
};
use vstd::prelude::*;

verus! {

// ---------------------------------------------------------------------------
// The parts of an instruction
// ---------------------------------------------------------------------------

/// The byte that picks another table of operations, or zero.
pub open spec fn prefix(b: Seq<u8>) -> u8 {
    if b.len() > 0 && (b[0] == 0x66 || b[0] == 0xF2 || b[0] == 0xF3) {
        b[0]
    } else {
        0
    }
}

/// Where the byte stands that extends registers, if it is there.
pub open spec fn rex_at(b: Seq<u8>) -> int {
    if prefix(b) == 0 {
        0
    } else {
        1
    }
}

/// Whether there is a byte that extends registers.
pub open spec fn has_rex(b: Seq<u8>) -> bool {
    rex_at(b) < b.len() && 0x40 <= b[rex_at(b)] < 0x50
}

/// What the byte says that extends registers.
pub open spec fn rex(b: Seq<u8>) -> int {
    if has_rex(b) {
        b[rex_at(b)] - 0x40
    } else {
        0
    }
}

/// Where the operation stands.
pub open spec fn opcode_at(b: Seq<u8>) -> int {
    if has_rex(b) {
        rex_at(b) + 1
    } else {
        rex_at(b)
    }
}

/// Whether the operation is of the second table.
pub open spec fn second(b: Seq<u8>) -> bool {
    b[opcode_at(b)] == 0x0F
}

/// Where the operands stand.
pub open spec fn operands_at(b: Seq<u8>) -> int {
    if second(b) {
        opcode_at(b) + 2
    } else {
        opcode_at(b) + 1
    }
}

/// The operation.
pub open spec fn opcode(b: Seq<u8>) -> u8 {
    b[operands_at(b) - 1]
}

/// Whether the operands have 64 bits.
pub open spec fn wide(b: Seq<u8>) -> bool {
    rex(b) / 8 % 2 == 1
}

/// How the second operand is found: 3 for a register.
pub open spec fn mode(b: Seq<u8>) -> int {
    b[operands_at(b)] as int / 64
}

/// The digit that goes with some operations.
pub open spec fn digit(b: Seq<u8>) -> int {
    b[operands_at(b)] as int / 8 % 8
}

/// The register that is the first operand.
pub open spec fn first(b: Seq<u8>) -> int {
    rex(b) / 4 % 2 * 8 + b[operands_at(b)] as int / 8 % 8
}

/// The register that is the second operand, or in which its address is.
pub open spec fn other(b: Seq<u8>) -> int {
    rex(b) % 2 * 8 + b[operands_at(b)] as int % 8
}

/// The register that is part of the operation.
pub open spec fn own(b: Seq<u8>) -> int {
    rex(b) % 2 * 8 + b[operands_at(b) - 1] as int % 8
}

/// The number in four bytes, the lowest one first.
pub open spec fn number(b: Seq<u8>, i: int) -> int {
    b[i] + 256 * b[i + 1] + 65_536 * b[i + 2] + 16_777_216 * b[i + 3]
}

/// The number in four bytes, with a sign.
pub open spec fn signed(b: Seq<u8>, i: int) -> int {
    if number(b, i) >= 2_147_483_648 {
        number(b, i) - 4_294_967_296
    } else {
        number(b, i)
    }
}

/// The number in one byte, with a sign.
pub open spec fn small(b: Seq<u8>, i: int) -> int {
    if b[i] >= 128 {
        b[i] - 256
    } else {
        b[i] as int
    }
}

/// The number in eight bytes.
pub open spec fn long(b: Seq<u8>, i: int) -> int {
    number(b, i) + 4_294_967_296 * number(b, i + 4)
}

/// An operation of the first or of the second table on 64-bit registers.
pub open spec fn on_registers(b: Seq<u8>, pre: u8, two: bool, op: int, r: int, m: int) -> bool {
    &&& prefix(b) == pre
    &&& second(b) == two
    &&& opcode(b) == op
    &&& mode(b) == 3
    &&& first(b) == r
    &&& other(b) == m
    &&& b.len() == operands_at(b) + 1
}

/// An operation on a register and the memory at `disp` from where a register
/// points. No register is added to it, and it is not relative to the instruction.
pub open spec fn on_memory(b: Seq<u8>, pre: u8, two: bool, op: int, r: int, m: Mem) -> bool {
    let at = operands_at(b) + (if m.base.0 % 8 == 4 {
        2int
    } else {
        1int
    });
    &&& prefix(b) == pre
    &&& second(b) == two
    &&& opcode(b) == op
    &&& first(b) == r
    &&& other(b) == m.base.0
    &&& m.base.0 % 8 == 4 ==> b[operands_at(b) + 1] == 0x24
    &&& mode(b) == 0 && m.base.0 % 8 != 5 && m.disp == 0 && b.len() == at || mode(b) == 1 && m.disp
        == small(b, at) && b.len() == at + 1 || mode(b) == 2 && m.disp == signed(b, at) && b.len()
        == at + 4
}

/// The number of an operation on integers in the tables of the processor.
pub open spec fn alu_number(op: Alu) -> int {
    match op {
        Alu::Add => 0,
        Alu::Or => 1,
        Alu::And => 4,
        Alu::Sub => 5,
        Alu::Xor => 6,
        Alu::Compare => 7,
    }
}

/// The number of a condition: each even one is followed by its opposite.
pub open spec fn condition_number(c: Cond) -> int {
    match c {
        Cond::O => 0,
        Cond::B => 2,
        Cond::AE => 3,
        Cond::Z => 4,
        Cond::NZ => 5,
        Cond::BE => 6,
        Cond::A => 7,
        Cond::S => 8,
        Cond::NS => 9,
        Cond::P => 10,
        Cond::NP => 11,
        Cond::L => 12,
        Cond::GE => 13,
        Cond::LE => 14,
        Cond::G => 15,
    }
}

/// What the processor finds in the bytes is the instruction.
pub open spec fn reads(b: Seq<u8>, c: Code) -> bool {
    match c {
        Code::MovRr(d, s) => wide(b) && on_registers(b, 0, false, 139, d.0 as int, s.0 as int),
        Code::MovRm(d, m) => wide(b) && on_memory(b, 0, false, 139, d.0 as int, m),
        Code::MovMr(m, s) => wide(b) && on_memory(b, 0, false, 137, s.0 as int, m),
        Code::Lea(d, m) => wide(b) && on_memory(b, 0, false, 141, d.0 as int, m),
        Code::AluRr(op, d, s) => wide(b) && on_registers(
            b,
            0,
            false,
            alu_number(op) * 8 + 1,
            s.0 as int,
            d.0 as int,
        ),
        Code::AluRm(op, d, m) => wide(b) && on_memory(
            b,
            0,
            false,
            alu_number(op) * 8 + 3,
            d.0 as int,
            m,
        ),
        Code::Imul(d, s) => wide(b) && on_registers(b, 0, true, 175, d.0 as int, s.0 as int),
        Code::Test(x, y) => wide(b) && on_registers(b, 0, false, 133, x.0 as int, y.0 as int),
        Code::Neg(d) => wide(b) && on_one(b, 247, 3, d.0 as int, 0),
        Code::CallR(d) => on_one(b, 255, 2, d.0 as int, 0),
        Code::ShiftRi(op, d, n) => wide(b) && on_one(
            b,
            193,
            match op {
                Shift::Left => 4,
                Shift::Right => 5,
                Shift::Signed => 7,
            },
            d.0 as int,
            1,
        ) && b.last() == n,
        Code::AluRi(op, d, v) => wide(b) && (on_one(b, 131, alu_number(op), d.0 as int, 1) && small(
            b,
            b.len() - 1,
        ) == v || on_one(b, 129, alu_number(op), d.0 as int, 4) && signed(b, b.len() - 4) == v),
        Code::SubRsp(n) => wide(b) && on_one(b, 129, 5, 4, 4) && number(b, b.len() - 4) == n,
        Code::MovRi(d, v) => wide(b) && (on_one(b, 199, 0, d.0 as int, 4) && signed(b, b.len() - 4)
            == v || carries(b, 184, d.0 as int, 8) && (long(b, b.len() - 8) == v || long(
            b,
            b.len() - 8,
        ) == v + 18_446_744_073_709_551_616)),
        Code::Movabs(d, v) => wide(b) && carries(b, 184, d.0 as int, 8) && long(b, b.len() - 8) == v,
        Code::Push(r) => carries(b, 80, r.0 as int, 0),
        Code::Pop(r) => carries(b, 88, r.0 as int, 0),
        Code::Ret => b == seq![195u8],
        Code::SseRr(op, d, s) => !wide(b) && on_registers(
            b,
            sse_prefix(op),
            true,
            sse_number(op),
            d.0 as int,
            s.0 as int,
        ),
        Code::SseRm(op, d, m) => !wide(b) && on_memory(
            b,
            sse_prefix(op),
            true,
            sse_number(op),
            d.0 as int,
            m,
        ),
        Code::Cvtsi2sd(d, s) => wide(b) && on_registers(b, 242, true, 42, d.0 as int, s.0 as int),
        Code::Cvtsd2ss(d, s) => on_registers(b, 242, true, 90, d.0 as int, s.0 as int),
        Code::Cvtss2sd(d, s) => on_registers(b, 243, true, 90, d.0 as int, s.0 as int),
        Code::MovqXg(d, s) => wide(b) && on_registers(b, 102, true, 110, d.0 as int, s.0 as int),
        Code::MovqGx(d, s) => wide(b) && on_registers(b, 102, true, 126, s.0 as int, d.0 as int),
        Code::Setcc(cond, d) => {
            let set = b.subrange(0, 4);
            let widen = b.subrange(4, b.len() as int);
            // The byte of the condition, and then the byte as the whole register.
            &&& on_registers(set, 0, true, 144 + condition_number(cond), 0, d.0 as int)
            &&& has_rex(set)
            &&& wide(widen)
            &&& on_registers(widen, 0, true, 182, d.0 as int, d.0 as int)
        },
        Code::Jmp(_) => b == seq![233u8],
        Code::Jcc(cond, _) => b.len() == 2 && b[0] == 15 && b[1] == 128 + condition_number(cond),
        Code::Bind(_) => b.len() == 0,
    }
}

/// An operation with a digit on one register, and then `n` bytes.
pub open spec fn on_one(b: Seq<u8>, op: int, d: int, m: int, n: int) -> bool {
    &&& prefix(b) == 0
    &&& !second(b)
    &&& opcode(b) == op
    &&& mode(b) == 3
    &&& digit(b) == d
    &&& other(b) == m
    &&& b.len() == operands_at(b) + 1 + n
}

/// An operation that has the register in it, and then `n` bytes.
pub open spec fn carries(b: Seq<u8>, op: int, m: int, n: int) -> bool {
    &&& prefix(b) == 0
    &&& !second(b)
    &&& opcode(b) - opcode(b) % 8 == op
    &&& own(b) == m
    &&& b.len() == operands_at(b) + n
}

/// The table of an operation on floats.
pub open spec fn sse_prefix(op: Sse) -> u8 {
    match op {
        Sse::Compare => 102,
        _ => 242,
    }
}

/// The number of an operation on floats.
pub open spec fn sse_number(op: Sse) -> int {
    match op {
        Sse::Move => 16,
        Sse::Add => 88,
        Sse::Mul => 89,
        Sse::Sub => 92,
        Sse::Compare => 46,
    }
}

// ---------------------------------------------------------------------------
// Proofs
// ---------------------------------------------------------------------------

/// The start of an instruction: a prefix or none, and the operation.
pub open spec fn starts(pre: Seq<u8>, op: Seq<u8>) -> bool {
    &&& pre.len() == 0 || pre.len() == 1 && (pre[0] == 0x66 || pre[0] == 0xF2 || pre[0] == 0xF3)
    &&& op.len() == 2 && op[0] == 0x0F || op.len() == 1 && op[0] != 0x0F && op[0] != 0x66 && op[0]
        != 0xF2 && op[0] != 0xF3 && !(0x40 <= op[0] < 0x50)
}

proof fn head_reads(pre: Seq<u8>, w: bool, r: bool, x: bool, op: Seq<u8>, tail: Seq<u8>)
    requires
        starts(pre, op),
    ensures
        ({
            let b = pre + rex_bytes(w, r, x) + op + tail;
            &&& prefix(b) == if pre.len() == 1 {
                pre[0]
            } else {
                0
            }
            &&& second(b) == (op.len() == 2)
            &&& opcode(b) == op.last()
            &&& operands_at(b) == pre.len() + rex_bytes(w, r, x).len() + op.len()
            &&& rex(b) / 8 % 2 == if w {
                1int
            } else {
                0
            }
            &&& rex(b) / 4 % 2 == if r {
                1int
            } else {
                0
            }
            &&& rex(b) % 2 == if x {
                1int
            } else {
                0
            }
        }),
{
    let b = pre + rex_bytes(w, r, x) + op + tail;
    let p = pre.len() as int;
    let q = rex_bytes(w, r, x).len() as int;
    if p > 0 {
        assert(b[0] == pre[0]);
    }
    if q > 0 {
        assert(b[p] == rex_bytes(w, r, x)[0]);
    }
    assert(b[p + q] == op[0]);
    if op.len() == 2 {
        assert(b[p + q + 1] == op[1]);
    }
}

proof fn rr_reads(pre: Seq<u8>, w: bool, op: Seq<u8>, r: u8, m: u8)
    requires
        starts(pre, op),
        r < 16,
        m < 16,
    ensures
        ({
            let b = pre + enc_rr(w, op, r, m);
            on_registers(
                b,
                if pre.len() == 1 {
                    pre[0]
                } else {
                    0
                },
                op.len() == 2,
                op.last() as int,
                r as int,
                m as int,
            ) && wide(b) == w
        }),
{
    let tail = seq![modrm_byte(3, r, m)];
    let b = pre + enc_rr(w, op, r, m);
    head_reads(pre, w, ext(r), ext(m), op, tail);
    assert(b =~= pre + rex_bytes(w, ext(r), ext(m)) + op + tail);
    modrm_fields(3, r, m);
    assert(b[operands_at(b)] == tail[0]);
}

proof fn bytes_read(v: u32, b: Seq<u8>, i: int)
    requires
        0 <= i,
        i + 4 <= b.len(),
        b.subrange(i, i + 4) == le4(v),
    ensures
        number(b, i) == v,
{
    let x = b.subrange(i, i + 4);
    assert(b[i] == x[0] && b[i + 1] == x[1] && b[i + 2] == x[2] && b[i + 3] == x[3]);
    assert(v == v % 256 + 256 * (v / 256 % 256) + 65_536 * (v / 65536 % 256) + 16_777_216 * (v
        / 16777216 % 256)) by (nonlinear_arith)
        requires
            0 <= v <= 0xFFFF_FFFF,
    ;
}

proof fn signs(v: i32)
    ensures
        v as u32 == if v < 0 {
            v + 4_294_967_296
        } else {
            v as int
        },
{
    assert(v < 0 ==> v as u32 == v + 4_294_967_296) by (bit_vector);
    assert(v >= 0 ==> v as u32 == v) by (bit_vector);
}

proof fn small_signs(v: i8)
    ensures
        v as u8 == if v < 0 {
            v + 256
        } else {
            v as int
        },
{
    assert(v < 0 ==> v as u8 == v + 256) by (bit_vector);
    assert(v >= 0 ==> v as u8 == v) by (bit_vector);
}

/// What the bytes of a memory operand say.
spec fn mem_says(t: Seq<u8>, m: Mem) -> bool {
    let k = if m.base.0 % 8 == 4 {
        2int
    } else {
        1int
    };
    &&& t.len() >= k
    &&& t[0] / 64 == mem_mode(m)
    &&& m.base.0 % 8 == 4 ==> t[1] == 0x24
    &&& mem_mode(m) == 0 ==> m.disp == 0 && m.base.0 % 8 != 5 && t.len() == k
    &&& mem_mode(m) == 1 ==> m.disp == small(t, k) && t.len() == k + 1
    &&& mem_mode(m) == 2 ==> m.disp == signed(t, k) && t.len() == k + 4
}

proof fn mem_reads(r: u8, m: Mem)
    ensures
        mem_says(mem_bytes(r, m), m),
        mem_bytes(r, m)[0] == modrm_byte(mem_mode(m), r, m.base.0),
{
    let t = mem_bytes(r, m);
    let k = if m.base.0 % 8 == 4 {
        2int
    } else {
        1int
    };
    modrm_fields(mem_mode(m), r, m.base.0);
    if mem_mode(m) == 1 {
        small_signs(m.disp as i8);
    }
    if mem_mode(m) == 2 {
        signs(m.disp);
        assert(t.subrange(k, k + 4) =~= le4(m.disp as u32));
        bytes_read(m.disp as u32, t, k);
    }
}

proof fn rm_head(pre: Seq<u8>, w: bool, op: Seq<u8>, r: u8, m: Mem) -> (start: Seq<u8>)
    requires
        starts(pre, op),
        r < 16,
        m.base.0 < 16,
    ensures
        ({
            let b = pre + enc_rm(w, op, r, m);
            &&& b == start + mem_bytes(r, m)
            &&& operands_at(b) == start.len()
            &&& prefix(b) == if pre.len() == 1 {
                pre[0]
            } else {
                0
            }
            &&& second(b) == (op.len() == 2)
            &&& opcode(b) == op.last()
            &&& wide(b) == w
            &&& rex(b) / 4 % 2 == r / 8
            &&& rex(b) % 2 == m.base.0 / 8
        }),
{
    let tail = mem_bytes(r, m);
    let start = pre + rex_bytes(w, ext(r), ext(m.base.0)) + op;
    head_reads(pre, w, ext(r), ext(m.base.0), op, tail);
    assert(pre + enc_rm(w, op, r, m) =~= start + tail);
    start
}

proof fn rm_reads(pre: Seq<u8>, w: bool, op: Seq<u8>, r: u8, m: Mem)
    requires
        starts(pre, op),
        r < 16,
        m.base.0 < 16,
    ensures
        ({
            let b = pre + enc_rm(w, op, r, m);
            on_memory(
                b,
                if pre.len() == 1 {
                    pre[0]
                } else {
                    0
                },
                op.len() == 2,
                op.last() as int,
                r as int,
                m,
            ) && wide(b) == w
        }),
{
    let b = pre + enc_rm(w, op, r, m);
    let start = rm_head(pre, w, op, r, m);
    let t = mem_bytes(r, m);
    mem_reads(r, m);
    modrm_fields(mem_mode(m), r, m.base.0);
    rm_joined(b, start, t, m);
}

proof fn rm_joined(b: Seq<u8>, start: Seq<u8>, t: Seq<u8>, m: Mem)
    requires
        b == start + t,
        operands_at(b) == start.len(),
        mem_says(t, m),
    ensures
        ({
            let at = operands_at(b) + (if m.base.0 % 8 == 4 {
                2int
            } else {
                1int
            });
            &&& b[operands_at(b)] == t[0]
            &&& m.base.0 % 8 == 4 ==> b[operands_at(b) + 1] == 0x24
            &&& mode(b) == 0 && m.base.0 % 8 != 5 && m.disp == 0 && b.len() == at || mode(b) == 1
                && m.disp == small(b, at) && b.len() == at + 1 || mode(b) == 2 && m.disp == signed(
                b,
                at,
            ) && b.len() == at + 4
        }),
{
    let o = start.len() as int;
    let k = if m.base.0 % 8 == 4 {
        2int
    } else {
        1int
    };
    assert(b[o] == t[0]);
    if k == 2 {
        assert(b[o + 1] == t[1]);
    }
    if mem_mode(m) == 1 {
        assert(b[o + k] == t[k]);
    }
    if mem_mode(m) == 2 {
        assert(b[o + k] == t[k]);
        assert(b[o + k + 1] == t[k + 1]);
        assert(b[o + k + 2] == t[k + 2]);
        assert(b[o + k + 3] == t[k + 3]);
    }
}

proof fn one_reads(w: bool, op: u8, d: u8, m: u8, tail: Seq<u8>)
    requires
        starts(seq![], seq![op]),
        d < 8,
        m < 16,
    ensures
        ({
            let b = enc_r(w, op, d, m) + tail;
            &&& on_one(b, op as int, d as int, m as int, tail.len() as int)
            &&& wide(b) == w
            &&& b.subrange(b.len() - tail.len(), b.len() as int) == tail
        }),
{
    let rest = seq![modrm_byte(3, d, m)] + tail;
    let b = enc_r(w, op, d, m) + tail;
    head_reads(seq![], w, false, ext(m), seq![op], rest);
    assert(b =~= seq![] + rex_bytes(w, false, ext(m)) + seq![op] + rest);
    modrm_fields(3, d, m);
    assert(b[operands_at(b)] == rest[0]);
    assert(b.subrange(b.len() - tail.len(), b.len() as int) =~= tail);
}

proof fn short_reads(w: bool, op: u8, m: u8, tail: Seq<u8>)
    requires
        op == 0x50 || op == 0x58 || op == 0xB8,
        m < 16,
    ensures
        ({
            let b = enc_short(w, op, m) + tail;
            &&& carries(b, op as int, m as int, tail.len() as int)
            &&& wide(b) == w
            &&& b.subrange(b.len() - tail.len(), b.len() as int) == tail
        }),
{
    let o = (op + m % 8) as u8;
    let b = enc_short(w, op, m) + tail;
    head_reads(seq![], w, false, ext(m), seq![o], tail);
    assert(b =~= seq![] + rex_bytes(w, false, ext(m)) + seq![o] + tail);
    assert(b.subrange(b.len() - tail.len(), b.len() as int) =~= tail);
}

proof fn long_reads(v: u64, b: Seq<u8>, i: int)
    requires
        0 <= i,
        i + 8 <= b.len(),
        b.subrange(i, i + 8) == le8(v),
    ensures
        long(b, i) == v,
{
    let x = b.subrange(i, i + 8);
    assert(b.subrange(i, i + 4) =~= x.subrange(0, 4));
    assert(b.subrange(i + 4, i + 8) =~= x.subrange(4, 8));
    assert(x.subrange(0, 4) =~= le4((v % 4294967296) as u32));
    assert(x.subrange(4, 8) =~= le4((v / 4294967296) as u32));
    bytes_read((v % 4294967296) as u32, b, i);
    bytes_read((v / 4294967296) as u32, b, i + 4);
}

/// The registers of an instruction are there.
pub open spec fn in_range(c: Code) -> bool {
    match c {
        Code::MovRr(d, s) | Code::AluRr(_, d, s) | Code::Imul(d, s) | Code::Test(d, s) => d.0 < 16
            && s.0 < 16,
        Code::MovRi(d, _)
        | Code::Movabs(d, _)
        | Code::AluRi(_, d, _)
        | Code::ShiftRi(_, d, _)
        | Code::Neg(d)
        | Code::Setcc(_, d)
        | Code::Push(d)
        | Code::Pop(d)
        | Code::CallR(d) => d.0 < 16,
        Code::MovRm(d, m) | Code::MovMr(m, d) | Code::Lea(d, m) | Code::AluRm(_, d, m) => d.0 < 16
            && m.base.0 < 16,
        Code::SseRr(_, d, s) | Code::Cvtsd2ss(d, s) | Code::Cvtss2sd(d, s) => d.0 < 16 && s.0 < 16,
        Code::SseRm(_, d, m) => d.0 < 16 && m.base.0 < 16,
        Code::Cvtsi2sd(d, s) => d.0 < 16 && s.0 < 16,
        Code::MovqXg(d, s) => d.0 < 16 && s.0 < 16,
        Code::MovqGx(d, s) => d.0 < 16 && s.0 < 16,
        _ => true,
    }
}

proof fn alu_reads(c: Code)
    requires
        in_range(c),
        c is AluRr || c is AluRm || c is AluRi,
    ensures
        reads(enc(c), c),
{
    let none = Seq::<u8>::empty();
    match c {
        Code::AluRr(op, d, s) => {
            let o = seq![crate::jit::code::alu_rr(op)];
            rr_reads(none, true, o, s.0, d.0);
            assert(none + enc_rr(true, o, s.0, d.0) =~= enc(c));
        },
        Code::AluRm(op, d, m) => {
            let o = seq![crate::jit::code::alu_rm(op)];
            rm_reads(none, true, o, d.0, m);
            assert(none + enc_rm(true, o, d.0, m) =~= enc(c));
        },
        Code::AluRi(op, d, v) => {
            let n = crate::jit::code::alu_digit(op);
            if fits_i8(v as int) {
                let tail = seq![(v as i64 as i8) as u8];
                one_reads(true, 0x83, n, d.0, tail);
                small_signs(v as i8);
                let b = enc(c);
                assert(b[b.len() - 1] == b.subrange(b.len() - 1, b.len() as int)[0]);
            } else {
                let tail = le4((v as i64 as i32) as u32);
                one_reads(true, 0x81, n, d.0, tail);
                signs(v);
                let b = enc(c);
                assert(b.subrange(b.len() - 4, b.len() - 4 + 4) =~= tail);
                bytes_read(v as u32, b, b.len() - 4);
            }
        },
        _ => {},
    }
}

proof fn move_reads(c: Code)
    requires
        in_range(c),
        c is MovRr || c is MovRm || c is MovMr || c is Lea || c is MovRi || c is Movabs,
    ensures
        reads(enc(c), c),
{
    let none = Seq::<u8>::empty();
    match c {
        Code::MovRr(d, s) => {
            rr_reads(none, true, seq![0x8Bu8], d.0, s.0);
            assert(none + enc_rr(true, seq![0x8Bu8], d.0, s.0) =~= enc(c));
        },
        Code::MovRm(d, m) => {
            rm_reads(none, true, seq![0x8Bu8], d.0, m);
            assert(none + enc_rm(true, seq![0x8Bu8], d.0, m) =~= enc(c));
        },
        Code::MovMr(m, s) => {
            rm_reads(none, true, seq![0x89u8], s.0, m);
            assert(none + enc_rm(true, seq![0x89u8], s.0, m) =~= enc(c));
        },
        Code::Lea(d, m) => {
            rm_reads(none, true, seq![0x8Du8], d.0, m);
            assert(none + enc_rm(true, seq![0x8Du8], d.0, m) =~= enc(c));
        },
        Code::MovRi(d, v) => {
            let b = enc(c);
            if fits_i32(v as int) {
                let tail = le4((v as i32) as u32);
                one_reads(true, 0xC7, 0, d.0, tail);
                signs(v as i32);
                assert(b.subrange(b.len() - 4, b.len() - 4 + 4) =~= tail);
                bytes_read((v as i32) as u32, b, b.len() - 4);
            } else {
                let tail = le8(v as u64);
                short_reads(true, 0xB8, d.0, tail);
                assert(b.subrange(b.len() - 8, b.len() - 8 + 8) =~= tail);
                long_reads(v as u64, b, b.len() - 8);
                assert(v < 0 ==> v as u64 == v + 18_446_744_073_709_551_616) by (bit_vector);
                assert(v >= 0 ==> v as u64 == v) by (bit_vector);
            }
        },
        Code::Movabs(d, v) => {
            let b = enc(c);
            let tail = le8(v);
            short_reads(true, 0xB8, d.0, tail);
            assert(b.subrange(b.len() - 8, b.len() - 8 + 8) =~= tail);
            long_reads(v, b, b.len() - 8);
        },
        _ => {},
    }
}

proof fn float_reads(c: Code)
    requires
        in_range(c),
        c is SseRr || c is SseRm || c is Cvtsi2sd || c is Cvtsd2ss || c is Cvtss2sd || c is MovqXg
            || c is MovqGx,
    ensures
        reads(enc(c), c),
{
    match c {
        Code::SseRr(op, d, s) => {
            let (p, o) = crate::jit::code::sse_op(op);
            rr_reads(seq![p], false, seq![0x0Fu8, o], d.0, s.0);
        },
        Code::SseRm(op, d, m) => {
            let (p, o) = crate::jit::code::sse_op(op);
            rm_reads(seq![p], false, seq![0x0Fu8, o], d.0, m);
        },
        Code::Cvtsi2sd(d, s) => rr_reads(seq![0xF2u8], true, seq![0x0Fu8, 0x2A], d.0, s.0),
        Code::Cvtsd2ss(d, s) => rr_reads(seq![0xF2u8], false, seq![0x0Fu8, 0x5A], d.0, s.0),
        Code::Cvtss2sd(d, s) => rr_reads(seq![0xF3u8], false, seq![0x0Fu8, 0x5A], d.0, s.0),
        Code::MovqXg(d, s) => rr_reads(seq![0x66u8], true, seq![0x0Fu8, 0x6E], d.0, s.0),
        Code::MovqGx(d, s) => rr_reads(seq![0x66u8], true, seq![0x0Fu8, 0x7E], s.0, d.0),
        _ => {},
    }
}

proof fn set_reads(cond: Cond, d: Gpr)
    requires
        d.0 < 16,
    ensures
        reads(enc(Code::Setcc(cond, d)), Code::Setcc(cond, d)),
{
    let b = enc(Code::Setcc(cond, d));
    let none = Seq::<u8>::empty();
    let op = seq![0x0Fu8, 0xB6];
    let set = b.subrange(0, 4);
    let widen = b.subrange(4, b.len() as int);
    assert(widen =~= none + enc_rr(true, op, d.0, d.0));
    rr_reads(none, true, op, d.0, d.0);
    modrm_fields(3, 0, d.0);
    assert(set =~= seq![
        (0x40 + d.0 / 8 % 2) as u8,
        0x0Fu8,
        (0x90 + crate::jit::assembler::cond_bits(cond)) as u8,
        modrm_byte(3, 0, d.0),
    ]);
}

proof fn plain_reads(c: Code)
    requires
        in_range(c),
        c is Imul || c is Test || c is Neg || c is CallR || c is ShiftRi || c is SubRsp || c is Push
            || c is Pop,
    ensures
        reads(enc(c), c),
{
    let none = Seq::<u8>::empty();
    let b = enc(c);
    match c {
        Code::Imul(d, s) => {
            rr_reads(none, true, seq![0x0Fu8, 0xAF], d.0, s.0);
            assert(none + enc_rr(true, seq![0x0Fu8, 0xAF], d.0, s.0) =~= b);
        },
        Code::Test(x, y) => {
            rr_reads(none, true, seq![0x85u8], x.0, y.0);
            assert(none + enc_rr(true, seq![0x85u8], x.0, y.0) =~= b);
        },
        Code::Neg(d) => {
            one_reads(true, 0xF7, 3, d.0, none);
            assert(enc_r(true, 0xF7, 3, d.0) + none =~= b);
        },
        Code::CallR(d) => {
            one_reads(false, 0xFF, 2, d.0, none);
            assert(enc_r(false, 0xFF, 2, d.0) + none =~= b);
        },
        Code::ShiftRi(op, d, n) => {
            one_reads(true, 0xC1, crate::jit::code::shift_digit(op), d.0, seq![n]);
        },
        Code::SubRsp(n) => {
            one_reads(true, 0x81, 5, 4, le4(n));
            assert(b.subrange(b.len() - 4, b.len() - 4 + 4) =~= le4(n));
            bytes_read(n, b, b.len() - 4);
        },
        Code::Push(r) => {
            short_reads(false, 0x50, r.0, none);
            assert(enc_short(false, 0x50, r.0) + none =~= b);
        },
        Code::Pop(r) => {
            short_reads(false, 0x58, r.0, none);
            assert(enc_short(false, 0x58, r.0) + none =~= b);
        },
        _ => {},
    }
}

/// The bytes of an instruction are read as that instruction, with its registers,
/// its memory operand and its number.
pub proof fn encoding_law(c: Code)
    requires
        in_range(c),
    ensures
        reads(enc(c), c),
{
    match c {
        Code::AluRr(_, _, _) | Code::AluRm(_, _, _) | Code::AluRi(_, _, _) => alu_reads(c),
        Code::MovRr(_, _)
        | Code::MovRm(_, _)
        | Code::MovMr(_, _)
        | Code::Lea(_, _)
        | Code::MovRi(_, _)
        | Code::Movabs(_, _) => move_reads(c),
        Code::SseRr(_, _, _)
        | Code::SseRm(_, _, _)
        | Code::Cvtsi2sd(_, _)
        | Code::Cvtsd2ss(_, _)
        | Code::Cvtss2sd(_, _)
        | Code::MovqXg(_, _)
        | Code::MovqGx(_, _) => float_reads(c),
        Code::Setcc(cond, d) => set_reads(cond, d),
        Code::Ret | Code::Jmp(_) | Code::Jcc(_, _) | Code::Bind(_) => {},
        _ => plain_reads(c),
    }
}

// ---------------------------------------------------------------------------
// Branches, and instructions one behind the other
// ---------------------------------------------------------------------------

/// A branch goes to its label: the displacement in its last four bytes, counted from
/// the end of the instruction, leads to where the label stands.
pub proof fn branch_law(cs: Seq<Code>, i: int, op: Seq<u8>, l: usize)
    requires
        0 <= i < cs.len(),
        branch_of(cs[i]) == Some((op, l)),
        fits_i32(displacement((place(cs, i) + op.len()) as int, label_place(cs, l))),
    ensures
        ({
            let b = bytes_of(cs, i);
            &&& b.subrange(0, op.len() as int) == op
            &&& b.len() == op.len() + 4
            &&& place(cs, i) + b.len() + signed(b, op.len() as int) == label_place(cs, l)
            &&& place(cs, i + 1) == place(cs, i) + b.len()
        }),
{
    let b = bytes_of(cs, i);
    let d = displacement((place(cs, i) + op.len()) as int, label_place(cs, l)) as i32;
    let n = op.len() as int;
    assert(b.subrange(0, n) =~= op);
    assert(b.subrange(n, n + 4) =~= le4(d as u32));
    bytes_read(d as u32, b, n);
    signs(d);
}

proof fn upto_stands(cs: Seq<Code>, n: int, i: int)
    requires
        0 <= i < n <= cs.len(),
    ensures
        assembled_upto(cs, n).len() == place(cs, n),
        place(cs, i) + bytes_of(cs, i).len() <= place(cs, n),
        assembled_upto(cs, n).subrange(place(cs, i) as int, place(cs, i) as int + bytes_of(cs, i).len())
            == bytes_of(cs, i),
    decreases n,
{
    let front = assembled_upto(cs, n - 1);
    let last = bytes_of(cs, n - 1);
    let a = place(cs, i) as int;
    let e = a + bytes_of(cs, i).len();
    if n > 1 {
        upto_stands(cs, n - 1, if i < n - 1 {
            i
        } else {
            n - 2
        });
    }
    assert(assembled_upto(cs, n) == front + last);
    if i < n - 1 {
        assert((front + last).subrange(a, e) =~= front.subrange(a, e));
    } else {
        assert((front + last).subrange(a, e) =~= last);
    }
}

/// The bytes of every instruction stand in the code at its place.
pub proof fn stream_law(cs: Seq<Code>, i: int)
    requires
        0 <= i < cs.len(),
    ensures
        place(cs, i) + bytes_of(cs, i).len() <= assembled(cs).len(),
        assembled(cs).subrange(place(cs, i) as int, place(cs, i) as int + bytes_of(cs, i).len()) == bytes_of(
            cs,
            i,
        ),
{
    upto_stands(cs, cs.len() as int, i);
}

} // verus!
