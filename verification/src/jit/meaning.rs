//! What machine instructions mean, and that generated code does what the
//! interpreter does.

use crate::arith::{ordered, rank, wrap};
use crate::bytecode::TypeDesc;
use crate::jit::assembler::{Cond, Gpr, Mem, Xmm};
use crate::jit::code::{bind_of, Alu, Code, Shift, Sse};
use crate::jit::frame::{
    cat, home_in, layout_ok, load_int, spill_payload, spill_tag, store_int, type_in, Cx,
};
use crate::jit::ir::{conv_target_of, BinOp, ConvTarget, KType, VReg};
use crate::jit::lower::conv_delegated;
use crate::jit::regalloc::Home;
use crate::jit::regs::{R13, RAX, RCX, RDX};
use crate::jit::select::{
    alu_payload, bin_code, box_truth, condition, int_arith, int_cond, narrow, overflow_check, tagify,
};
use crate::jit::value::{int_bits, parts_of};
use crate::vm::numeric::{int_conv, narrowed, reduced};
use crate::vm::value::{truthy, Value};
use crate::vm::world::Effect;
use vstd::arithmetic::power2::pow2;
use vstd::prelude::*;

verus! {

/// What the flags remember: the last operation that set them.
pub ghost enum Flags {
    /// Two numbers were compared.
    Compared(u64, u64),
    /// An operation had a result, and overflowed or not.
    Result(u64, bool),
    /// Two doubles were compared.
    Floats(u64, u64),
}

/// The state of the processor, as far as generated code can see it. Memory is
/// read and written in words of eight bytes.
pub ghost struct Cpu {
    /// General purpose registers.
    pub g: Seq<u64>,
    /// Float registers.
    pub x: Seq<u64>,
    /// Memory words by address.
    pub mem: Map<int, u64>,
    /// Flags.
    pub flags: Flags,
}

/// Two to the power of 64.
pub open spec fn words() -> int {
    0x1_0000_0000_0000_0000
}

/// The number that the bits denote with a sign.
pub open spec fn signed(b: u64) -> int {
    if b > i64::MAX {
        b - words()
    } else {
        b as int
    }
}

/// The bits of a number.
pub open spec fn bits(n: int) -> u64 {
    (n % words()) as u64
}

/// A number fits the register.
pub open spec fn fits(n: int) -> bool {
    i64::MIN <= n <= i64::MAX
}

/// Whether a condition is met.
pub open spec fn met(f: Flags, c: Cond) -> bool {
    match f {
        Flags::Compared(a, b) => match c {
            Cond::O => !fits(signed(a) - signed(b)),
            Cond::Z => a == b,
            Cond::NZ => a != b,
            Cond::L => signed(a) < signed(b),
            Cond::LE => signed(a) <= signed(b),
            Cond::G => signed(a) > signed(b),
            Cond::GE => signed(a) >= signed(b),
            Cond::B => a < b,
            Cond::BE => a <= b,
            Cond::A => a > b,
            Cond::AE => a >= b,
            _ => false,
        },
        Flags::Result(r, o) => match c {
            Cond::O => o,
            Cond::Z => r == 0,
            Cond::NZ => r != 0,
            _ => false,
        },
        Flags::Floats(a, b) => match c {
            Cond::P => !ordered(a, b),
            Cond::NP => ordered(a, b),
            Cond::Z => !ordered(a, b) || rank(a) == rank(b),
            Cond::NZ => ordered(a, b) && rank(a) != rank(b),
            Cond::B => !ordered(a, b) || rank(a) < rank(b),
            Cond::BE => !ordered(a, b) || rank(a) <= rank(b),
            Cond::A => ordered(a, b) && rank(a) > rank(b),
            Cond::AE => ordered(a, b) && rank(a) >= rank(b),
            _ => false,
        },
    }
}

/// The address of a memory operand.
pub open spec fn address(m: Cpu, at: Mem) -> int {
    m.g[at.base.0 as int] + at.disp
}

/// The result of an integer operation and the flags after it.
pub open spec fn alu(op: Alu, a: u64, b: u64) -> (u64, Flags) {
    match op {
        Alu::Add => (
            bits(a + b),
            Flags::Result(bits(a + b), !fits(signed(a) + signed(b))),
        ),
        Alu::Sub => (
            bits(a - b),
            Flags::Result(bits(a - b), !fits(signed(a) - signed(b))),
        ),
        Alu::And => (a & b, Flags::Result(a & b, false)),
        Alu::Or => (a | b, Flags::Result(a | b, false)),
        Alu::Xor => (a ^ b, Flags::Result(a ^ b, false)),
        Alu::Compare => (a, Flags::Compared(a, b)),
    }
}

/// The result of a shift.
pub open spec fn shifted(op: Shift, v: u64, n: u8) -> u64 {
    match op {
        Shift::Left => bits(v * pow2(n as nat)),
        Shift::Right => (v as int / pow2(n as nat) as int) as u64,
        Shift::Signed => bits(signed(v) / pow2(n as nat) as int),
    }
}

/// A processor with another value in a register.
pub open spec fn with_g(m: Cpu, r: Gpr, v: u64) -> Cpu {
    Cpu { g: m.g.update(r.0 as int, v), ..m }
}

/// A processor with other bits in a float register.
pub open spec fn with_x(m: Cpu, r: Xmm, v: u64) -> Cpu {
    Cpu { x: m.x.update(r.0 as int, v), ..m }
}

/// What an instruction does that goes on to the next one. None where it does
/// not, or is one that is not modelled here.
pub open spec fn meaning(m: Cpu, c: Code) -> Option<Cpu> {
    match c {
        Code::MovRr(d, s) => Some(with_g(m, d, m.g[s.0 as int])),
        Code::MovRi(d, v) => Some(with_g(m, d, int_bits(v))),
        Code::Movabs(d, v) => Some(with_g(m, d, v)),
        Code::MovRm(d, at) => Some(with_g(m, d, m.mem[address(m, at)])),
        Code::MovMr(at, s) => Some(
            Cpu { mem: m.mem.insert(address(m, at), m.g[s.0 as int]), ..m },
        ),
        Code::AluRr(op, d, s) => {
            let (r, f) = alu(op, m.g[d.0 as int], m.g[s.0 as int]);
            Some(Cpu { flags: f, ..with_g(m, d, r) })
        },
        Code::AluRm(op, d, at) => {
            let (r, f) = alu(op, m.g[d.0 as int], m.mem[address(m, at)]);
            Some(Cpu { flags: f, ..with_g(m, d, r) })
        },
        Code::AluRi(op, d, v) => {
            let (r, f) = alu(op, m.g[d.0 as int], int_bits(v as i64));
            Some(Cpu { flags: f, ..with_g(m, d, r) })
        },
        Code::Imul(d, s) => {
            let p = signed(m.g[d.0 as int]) * signed(m.g[s.0 as int]);
            Some(Cpu { flags: Flags::Result(bits(p), !fits(p)), ..with_g(m, d, bits(p)) })
        },
        Code::Test(a, b) => Some(
            Cpu {
                flags: Flags::Result(m.g[a.0 as int] & m.g[b.0 as int], false),
                ..m
            },
        ),
        Code::ShiftRi(op, d, n) => {
            let r = shifted(op, m.g[d.0 as int], n);
            Some(Cpu { flags: Flags::Result(r, false), ..with_g(m, d, r) })
        },
        Code::Neg(d) => {
            let n = -signed(m.g[d.0 as int]);
            Some(Cpu { flags: Flags::Result(bits(n), !fits(n)), ..with_g(m, d, bits(n)) })
        },
        Code::Setcc(c, d) => Some(
            with_g(
                m,
                d,
                if met(m.flags, c) {
                    1
                } else {
                    0
                },
            ),
        ),
        Code::SseRr(Sse::Move, d, s) => Some(with_x(m, d, m.x[s.0 as int])),
        Code::SseRm(Sse::Move, d, at) => Some(with_x(m, d, m.mem[address(m, at)])),
        Code::SseRr(Sse::Compare, a, b) => Some(
            Cpu { flags: Flags::Floats(m.x[a.0 as int], m.x[b.0 as int]), ..m },
        ),
        Code::SseRm(Sse::Compare, a, at) => Some(
            Cpu { flags: Flags::Floats(m.x[a.0 as int], m.mem[address(m, at)]), ..m },
        ),
        Code::Jcc(c, _) => if met(m.flags, c) {
            None
        } else {
            Some(m)
        },
        Code::Bind(_) => Some(m),
        _ => None,
    }
}

/// What the first `n` instructions do one after the other.
pub open spec fn run(cs: Seq<Code>, n: int, m: Cpu) -> Option<Cpu>
    decreases n,
{
    if n <= 0 {
        Some(m)
    } else {
        match run(cs, n - 1, m) {
            None => None,
            Some(x) => meaning(x, cs[n - 1]),
        }
    }
}

/// What instructions do one after the other.
pub open spec fn run_all(cs: Seq<Code>, m: Cpu) -> Option<Cpu> {
    run(cs, cs.len() as int, m)
}

proof fn run_front(a: Seq<Code>, b: Seq<Code>, n: int, m: Cpu)
    requires
        0 <= n <= a.len(),
    ensures
        run(a + b, n, m) == run(a, n, m),
    decreases n,
{
    if n > 0 {
        run_front(a, b, n - 1, m);
        assert((a + b)[n - 1] == a[n - 1]);
    }
}

proof fn run_back(a: Seq<Code>, b: Seq<Code>, n: int, m: Cpu)
    requires
        0 <= n <= b.len(),
    ensures
        run(a + b, a.len() + n, m) == (match run_all(a, m) {
            None => None,
            Some(x) => run(b, n, x),
        }),
    decreases n,
{
    if n > 0 {
        run_back(a, b, n - 1, m);
        assert((a + b)[a.len() + n - 1] == b[n - 1]);
    } else {
        run_front(a, b, a.len() as int, m);
    }
}

/// Code behind other code goes on where that left off.
pub proof fn run_joined(a: Seq<Code>, b: Seq<Code>, m: Cpu)
    ensures
        run_all(a + b, m) == (match run_all(a, m) {
            None => None,
            Some(x) => run_all(b, x),
        }),
{
    run_back(a, b, b.len() as int, m);
}

// ---------------------------------------------------------------------------
// Numbers
// ---------------------------------------------------------------------------

/// The bits of a 64-bit number denote it.
pub proof fn bits_are(n: i64)
    ensures
        bits(n as int) == int_bits(n),
        signed(int_bits(n)) == n,
{
}

/// Sums and differences of bits are those of the numbers, wrapped.
pub proof fn sum_bits(x: i64, y: i64)
    ensures
        bits(int_bits(x) + int_bits(y)) == int_bits(wrap(x + y)),
        bits(int_bits(x) - int_bits(y)) == int_bits(wrap(x - y)),
{
    let a = int_bits(x) as int;
    let b = int_bits(y) as int;
    assert((a + b) % words() == (x + y) % words()) by {
        vstd::arithmetic::div_mod::lemma_mod_multiples_vanish(0, x + y, words());
        if x < 0 && y < 0 {
            vstd::arithmetic::div_mod::lemma_mod_multiples_vanish(2, x + y, words());
        } else if x < 0 || y < 0 {
            vstd::arithmetic::div_mod::lemma_mod_multiples_vanish(1, x + y, words());
        }
    }
    assert((a - b) % words() == (x - y) % words()) by {
        if x < 0 && y >= 0 {
            vstd::arithmetic::div_mod::lemma_mod_multiples_vanish(1, x - y, words());
        } else if x >= 0 && y < 0 {
            vstd::arithmetic::div_mod::lemma_mod_multiples_vanish(-1, x - y, words());
        }
    }
}

/// The bits of a number are those of the wrapped number.
pub proof fn wrap_bits(n: int)
    ensures
        bits(n) == int_bits(wrap(n)),
{
}

/// Turning 0 or 1 into a truth value gives its tag word.
pub proof fn tagify_law(m: Cpu, b: bool)
    requires
        m.g.len() == 16,
        m.g[0] == (if b {
            1u64
        } else {
            0
        }),
    ensures
        run_all(tagify(), m) matches Some(x) && x.g == m.g.update(
            0,
            parts_of(Value::Bool(b)).0,
        ) && x.mem == m.mem,
{
    vstd::arithmetic::power2::lemma2_to64();
    reveal_with_fuel(run, 3);
    assert(256u64 | 3u64 == 259) by (bit_vector);
    assert(0u64 | 3u64 == 3) by (bit_vector);
    let m1 = run(tagify(), 1, m)->Some_0;
    assert(m1.g[0] == (if b {
        256u64
    } else {
        0
    }));
    let x = run(tagify(), 2, m)->Some_0;
    assert(x.g =~= m.g.update(0, parts_of(Value::Bool(b)).0));
}

// ---------------------------------------------------------------------------
// Conversions
// ---------------------------------------------------------------------------

/// The powers of two by which values are shifted.
proof fn powers()
    ensures
        pow2(1) == 2,
        pow2(8) == 0x100,
        pow2(32) == 0x1_0000_0000,
        pow2(48) == 0x1_0000_0000_0000,
        pow2(56) == 0x100_0000_0000_0000,
{
    vstd::arithmetic::power2::lemma2_to64();
    vstd::arithmetic::power2::lemma_pow2_adds(32, 16);
    vstd::arithmetic::power2::lemma_pow2_adds(48, 8);
}

/// Shifting out all but the last digits.
proof fn shifted_out(v: int, d: int, e: int)
    requires
        v >= 0,
        d > 0,
        e > 0,
        d * e == words(),
    ensures
        (v * d) % words() == (v % e) * d,
        0 <= (v % e) * d <= words() - d,
{
    let q = v / e;
    let r = v % e;
    vstd::arithmetic::div_mod::lemma_fundamental_div_mod(v, e);
    assert(v * d == q * words() + r * d) by (nonlinear_arith)
        requires
            v == e * q + r,
            d * e == words(),
    ;
    assert(0 <= r * d <= words() - d) by (nonlinear_arith)
        requires
            0 <= r < e,
            d > 0,
            d * e == words(),
    ;
    vstd::arithmetic::div_mod::lemma_fundamental_div_mod_converse(v * d, words(), q, r * d);
}

proof fn same_rest(n: i64, e: int)
    requires
        e == 0x100 || e == 0x1_0000 || e == 0x1_0000_0000,
    ensures
        (int_bits(n) as int) % e == (n as int) % e,
{
    if n < 0 {
        let k = words() / e;
        assert(k * e == words());
        vstd::arithmetic::div_mod::lemma_mod_multiples_vanish(k, n as int, e);
    }
}

/// The last digits with their sign.
proof fn signed_rest(n: int, half: int)
    requires
        half == 0x80 || half == 0x8000 || half == 0x8000_0000,
    ensures
        reduced(n, -half, 2 * half) == (if n % (2 * half) < half {
            n % (2 * half)
        } else {
            n % (2 * half) - 2 * half
        }),
{
    let e = 2 * half;
    let r = n % e;
    let q = n / e;
    vstd::arithmetic::div_mod::lemma_fundamental_div_mod(n, e);
    if r < half {
        vstd::arithmetic::div_mod::lemma_fundamental_div_mod_converse(n + half, e, q, r + half);
    } else {
        vstd::arithmetic::div_mod::lemma_fundamental_div_mod_converse(
            n + half,
            e,
            q + 1,
            r - half,
        );
    }
}

/// Shifting to the left and, with the sign, back.
proof fn sign_extended(v: u64, k: u8, d: int, half: int)
    requires
        pow2(k as nat) == d,
        d > 0,
        half > 0,
        d * (2 * half) == words(),
    ensures
        ({
            let r = (v as int) % (2 * half);
            shifted(Shift::Signed, shifted(Shift::Left, v, k), k) == bits(
                if r < half {
                    r
                } else {
                    r - 2 * half
                },
            )
        }),
{
    let e = 2 * half;
    let r = (v as int) % e;
    shifted_out(v as int, d, e);
    let s = shifted(Shift::Left, v, k);
    assert(s == r * d);
    assert(half * d == 0x8000_0000_0000_0000) by (nonlinear_arith)
        requires
            d * (2 * half) == words(),
            words() == 0x1_0000_0000_0000_0000,
    ;
    if r < half {
        assert(r * d < half * d) by (nonlinear_arith)
            requires
                r < half,
                d > 0,
        ;
        vstd::arithmetic::div_mod::lemma_fundamental_div_mod_converse(r * d, d, r, 0);
    } else {
        assert(r * d >= half * d) by (nonlinear_arith)
            requires
                r >= half,
                d > 0,
        ;
        assert(r * d - words() == (r - e) * d) by (nonlinear_arith)
            requires
                d * e == words(),
        ;
        vstd::arithmetic::div_mod::lemma_fundamental_div_mod_converse(
            r * d - words(),
            d,
            r - e,
            0,
        );
    }
}

/// What narrowing does to the bits.
pub open spec fn narrowed_bits(to: ConvTarget, v: u64) -> u64 {
    match to {
        ConvTarget::Int8 => shifted(Shift::Signed, shifted(Shift::Left, v, 56), 56),
        ConvTarget::Int16 => shifted(Shift::Signed, shifted(Shift::Left, v, 48), 48),
        ConvTarget::Int32 => shifted(Shift::Signed, shifted(Shift::Left, v, 32), 32),
        ConvTarget::UInt8 => v & int_bits(0xFF),
        ConvTarget::UInt16 => v & int_bits(0xFFFF),
        ConvTarget::UInt32 => shifted(Shift::Right, shifted(Shift::Left, v, 32), 32),
        _ => v,
    }
}

/// One instruction.
pub proof fn run_one(c: Code, m: Cpu)
    ensures
        run_all(seq![c], m) == meaning(m, c),
{
    reveal_with_fuel(run, 2);
}

proof fn run_two(c: Code, d: Code, m: Cpu)
    requires
        meaning(m, c) is Some,
    ensures
        run_all(seq![c, d], m) == meaning(meaning(m, c)->Some_0, d),
{
    reveal_with_fuel(run, 3);
    let cs = seq![c, d];
    assert(run(cs, 1, m) == meaning(m, c));
}

proof fn shift_back(op: Shift, k: u8, m: Cpu)
    requires
        m.g.len() == 16,
    ensures
        run_all(
            seq![
                Code::ShiftRi(Shift::Left, Gpr(RAX), k),
                Code::ShiftRi(op, Gpr(RAX), k),
            ],
            m,
        ) matches Some(x) && x.mem == m.mem && x.g == m.g.update(
            0,
            shifted(op, shifted(Shift::Left, m.g[0], k), k),
        ),
{
    let c = Code::ShiftRi(Shift::Left, Gpr(RAX), k);
    let d = Code::ShiftRi(op, Gpr(RAX), k);
    run_two(c, d, m);
    let m1 = meaning(m, c)->Some_0;
    let x = meaning(m1, d)->Some_0;
    assert(x.g =~= m.g.update(0, shifted(op, shifted(Shift::Left, m.g[0], k), k)));
}

proof fn narrow_runs(to: ConvTarget, m: Cpu)
    requires
        m.g.len() == 16,
    ensures
        run_all(narrow(to), m) matches Some(x) && x.mem == m.mem && x.g == m.g.update(
            0,
            narrowed_bits(to, m.g[0]),
        ),
{
    match to {
        ConvTarget::Int8 => shift_back(Shift::Signed, 56, m),
        ConvTarget::Int16 => shift_back(Shift::Signed, 48, m),
        ConvTarget::Int32 => shift_back(Shift::Signed, 32, m),
        ConvTarget::UInt32 => shift_back(Shift::Right, 32, m),
        ConvTarget::UInt8 => run_one(Code::AluRi(Alu::And, Gpr(RAX), 0xFF), m),
        ConvTarget::UInt16 => run_one(Code::AluRi(Alu::And, Gpr(RAX), 0xFFFF), m),
        _ => {
            assert(run_all(narrow(to), m) == Some(m));
            assert(m.g =~= m.g.update(0, m.g[0]));
        },
    }
}

proof fn narrow_signed(to: ConvTarget, ty: TypeDesc, n: i64)
    requires
        conv_target_of(ty) == Some(to),
        to is Int8 || to is Int16 || to is Int32,
    ensures
        narrowed_bits(to, int_bits(n)) == int_bits(narrowed(ty, n)),
{
    powers();
    let v = int_bits(n);
    if to is Int8 {
        sign_extended(v, 56, 0x100_0000_0000_0000, 0x80);
        same_rest(n, 0x100);
        signed_rest(n as int, 0x80);
    } else if to is Int16 {
        sign_extended(v, 48, 0x1_0000_0000_0000, 0x8000);
        same_rest(n, 0x1_0000);
        signed_rest(n as int, 0x8000);
    } else {
        sign_extended(v, 32, 0x1_0000_0000, 0x8000_0000);
        same_rest(n, 0x1_0000_0000);
        signed_rest(n as int, 0x8000_0000);
    }
    bits_are(narrowed(ty, n));
}

proof fn narrow_unsigned(to: ConvTarget, ty: TypeDesc, n: i64)
    requires
        conv_target_of(ty) == Some(to),
        to is UInt8 || to is UInt16 || to is UInt32,
    ensures
        narrowed_bits(to, int_bits(n)) == int_bits(narrowed(ty, n)),
{
    powers();
    let v = int_bits(n);
    if to is UInt8 {
        same_rest(n, 0x100);
        assert(v & 0xFFu64 == v % 256) by (bit_vector);
    } else if to is UInt16 {
        same_rest(n, 0x1_0000);
        assert(v & 0xFFFFu64 == v % 0x1_0000) by (bit_vector);
    } else {
        same_rest(n, 0x1_0000_0000);
        shifted_out(v as int, 0x1_0000_0000, 0x1_0000_0000);
    }
}

/// Conversions between integer types that are not delegated do what the
/// interpreter does: the number in `rax` becomes the number that the conversion
/// gives.
pub proof fn narrow_law(m: Cpu, checks: bool, ty: TypeDesc, to: ConvTarget, n: i64)
    requires
        m.g.len() == 16,
        m.g[0] == int_bits(n),
        conv_target_of(ty) == Some(to),
        to.to_int(),
        !conv_delegated(to, KType::Int, checks),
    ensures
        int_conv(checks, ty, n) == Effect::Value(Value::Int(narrowed(ty, n))),
        run_all(narrow(to), m) matches Some(x) && x.g == m.g.update(0, int_bits(narrowed(ty, n)))
            && x.mem == m.mem,
{
    narrow_runs(to, m);
    if to is Int8 || to is Int16 || to is Int32 {
        narrow_signed(to, ty, n);
    } else if to is UInt8 || to is UInt16 || to is UInt32 {
        narrow_unsigned(to, ty, n);
    }
}

// ---------------------------------------------------------------------------
// Integers
// ---------------------------------------------------------------------------

/// A register in which generated code keeps a value: not one that it computes
/// in, nor the base of the frame.
pub open spec fn keeps(g: Gpr) -> bool {
    g.0 < 16 && g.0 != RAX && g.0 != RCX && g.0 != RDX && g.0 != R13
}

/// A virtual register has a home in which a number can be kept.
pub open spec fn homed(cx: Cx, v: VReg) -> bool {
    match home_in(cx, v) {
        Some(Home::Gpr(g)) => keeps(g),
        Some(Home::Slot(_)) => true,
        _ => false,
    }
}

/// A virtual register holds a number in its home.
pub open spec fn holds_int(m: Cpu, cx: Cx, v: VReg, n: i64) -> bool {
    match home_in(cx, v) {
        Some(Home::Gpr(g)) => m.g[g.0 as int] == int_bits(n),
        Some(Home::Slot(s)) => m.mem[address(m, spill_payload(cx.lay, s))] == int_bits(n),
        _ => false,
    }
}

/// The exact result of an integer operation.
pub open spec fn exact(op: BinOp, x: i64, y: i64) -> int {
    match op {
        BinOp::Add => x + y,
        BinOp::Sub => x - y,
        _ => x * y,
    }
}

/// Loading an integer puts its bits into `rax`.
pub proof fn load_int_runs(m: Cpu, cx: Cx, v: VReg, n: i64)
    requires
        m.g.len() == 16,
        homed(cx, v),
        holds_int(m, cx, v, n),
    ensures
        load_int(cx, v) is Ok,
        run_all(load_int(cx, v)->Ok_0, m) == Some(with_g(m, Gpr(RAX), int_bits(n))),
{
    match home_in(cx, v) {
        Some(Home::Gpr(g)) => run_one(Code::MovRr(Gpr(RAX), g), m),
        Some(Home::Slot(s)) => run_one(Code::MovRm(Gpr(RAX), spill_payload(cx.lay, s)), m),
        _ => {},
    }
}

/// A step that leaves the number in `rax` and everything else as it was, but for
/// `rdx` and the flags.
pub open spec fn only_result(m: Cpu, x: Cpu, r: u64, o: bool) -> bool {
    &&& x.g.len() == 16
    &&& x.g[0] == r
    &&& x.mem == m.mem
    &&& x.g[13] == m.g[13]
    &&& x.flags == Flags::Result(r, o)
}

/// Arithmetic leaves the wrapped result in `rax`, and whether it fits in the flags.
pub proof fn arith_runs(m: Cpu, cx: Cx, op: BinOp, b: VReg, x: i64, y: i64)
    requires
        m.g.len() == 16,
        op is Add || op is Sub || op is Mul,
        m.g[0] == int_bits(x),
        homed(cx, b),
        holds_int(m, cx, b, y),
    ensures
        int_arith(cx, op, b) is Ok,
        run_all(int_arith(cx, op, b)->Ok_0, m) matches Some(r) && only_result(
            m,
            r,
            int_bits(wrap(exact(op, x, y))),
            !fits(exact(op, x, y)),
        ),
{
    bits_are(x);
    bits_are(y);
    sum_bits(x, y);
    wrap_bits(exact(op, x, y));
    let alu_op = if op is Add {
        Alu::Add
    } else {
        Alu::Sub
    };
    match home_in(cx, b) {
        Some(Home::Gpr(g)) => {
            if op is Mul {
                run_one(Code::Imul(Gpr(RAX), g), m);
            } else {
                run_one(Code::AluRr(alu_op, Gpr(RAX), g), m);
            }
        },
        Some(Home::Slot(s)) => {
            let at = spill_payload(cx.lay, s);
            if op is Mul {
                let c = Code::MovRm(Gpr(RDX), at);
                run_two(c, Code::Imul(Gpr(RAX), Gpr(RDX)), m);
                let m1 = meaning(m, c)->Some_0;
                assert(m1.g[2] == int_bits(y));
                assert(m1.g[0] == int_bits(x));
            } else {
                run_one(Code::AluRm(alu_op, Gpr(RAX), at), m);
            }
        },
        _ => {},
    }
}

proof fn store_int_runs(m: Cpu, cx: Cx, dst: VReg, n: i64)
    requires
        m.g.len() == 16,
        layout_ok(cx.lay),
        homed(cx, dst),
        m.g[0] == int_bits(n),
    ensures
        store_int(cx, dst) is Ok,
        run_all(store_int(cx, dst)->Ok_0, m) matches Some(r) && holds_int(r, cx, dst, n),
{
    match home_in(cx, dst) {
        Some(Home::Gpr(g)) => {
            run_one(Code::MovRr(g, Gpr(RAX)), m);
        },
        Some(Home::Slot(s)) => {
            reveal_with_fuel(run, 4);
            let pay = spill_payload(cx.lay, s);
            let tag = spill_tag(cx.lay, s);
            let cs = store_int(cx, dst)->Ok_0;
            let m1 = run(cs, 1, m)->Some_0;
            let m2 = run(cs, 2, m)->Some_0;
            let m3 = run(cs, 3, m)->Some_0;
            assert(m1.mem[address(m, pay)] == int_bits(n));
            assert(m2.g[13] == m.g[13]);
            assert(pay.disp == tag.disp + 8);
            assert(address(m2, tag) != address(m, pay));
            assert(m3.mem[address(m, pay)] == int_bits(n));
            assert(address(m3, pay) == address(m, pay));
        },
        _ => {},
    }
}

/// Inlined integer arithmetic does what the interpreter does: the home of the
/// result holds the result, wrapped where overflow is not checked. Where it is
/// checked and the result does not fit, control goes to the report.
pub proof fn int_arith_law(
    m: Cpu,
    cx: Cx,
    dst: VReg,
    op: BinOp,
    a: VReg,
    b: VReg,
    x: i64,
    y: i64,
)
    requires
        m.g.len() == 16,
        layout_ok(cx.lay),
        op is Add || op is Sub || op is Mul,
        type_in(cx, a) == Some(KType::Int),
        homed(cx, a),
        homed(cx, b),
        homed(cx, dst),
        holds_int(m, cx, a, x),
        holds_int(m, cx, b, y),
    ensures
        bin_code(cx, dst, op, a, b) is Ok,
        match run_all(bin_code(cx, dst, op, a, b)->Ok_0, m) {
            Some(r) => crate::arith::fit(cx.checks, exact(op, x, y)) matches Some(n) && holds_int(
                r,
                cx,
                dst,
                n,
            ),
            None => crate::arith::fit(cx.checks, exact(op, x, y)) is None,
        },
{
    load_int_runs(m, cx, a, x);
    let m1 = with_g(m, Gpr(RAX), int_bits(x));
    assert(holds_int(m1, cx, b, y));
    arith_runs(m1, cx, op, b, x, y);
    let c1 = load_int(cx, a)->Ok_0;
    let c2 = int_arith(cx, op, b)->Ok_0;
    let c3 = overflow_check(cx);
    run_joined(c1, c2, m);
    let m2 = run_all(c2, m1)->Some_0;
    run_joined(c1 + c2, c3, m);
    let r = int_bits(wrap(exact(op, x, y)));
    if cx.checks {
        run_one(Code::Jcc(Cond::O, crate::jit::select::OVERFLOW_LABEL), m2);
    } else {
        assert(run_all(c3, m2) == Some(m2));
    }
    store_int_runs(m2, cx, dst, wrap(exact(op, x, y)));
    run_joined(c1 + c2 + c3, store_int(cx, dst)->Ok_0, m);
    wrap_fits(exact(op, x, y));
}

/// A number that fits is wrapped to itself.
pub proof fn wrap_fits(n: int)
    ensures
        fits(n) ==> wrap(n) == n,
{
}

/// The outcome of a comparison of numbers.
pub open spec fn compares(op: BinOp, x: i64, y: i64) -> bool {
    match op {
        BinOp::Lt => x < y,
        BinOp::Le => x <= y,
        BinOp::Gt => x > y,
        BinOp::Ge => x >= y,
        _ => x == y,
    }
}

/// Inlined comparisons of integers do what the interpreter does: `rax` holds the
/// tag word of the outcome when it is stored.
pub proof fn int_compare_law(m: Cpu, cx: Cx, op: BinOp, a: VReg, b: VReg, x: i64, y: i64)
    requires
        m.g.len() == 16,
        op is Eq || op is Lt || op is Le || op is Gt || op is Ge,
        homed(cx, a),
        homed(cx, b),
        holds_int(m, cx, a, x),
        holds_int(m, cx, b, y),
    ensures
        ({
            let code = cat(
                cat(load_int(cx, a), alu_payload(cx, Alu::Compare, b)),
                Ok(condition(int_cond(op))),
            );
            &&& code is Ok
            &&& run_all(code->Ok_0, m) matches Some(r)
            &&& r.g[0] == parts_of(Value::Bool(compares(op, x, y))).0
            &&& r.mem == m.mem
        }),
{
    load_int_runs(m, cx, a, x);
    let m1 = with_g(m, Gpr(RAX), int_bits(x));
    assert(holds_int(m1, cx, b, y));
    let c1 = load_int(cx, a)->Ok_0;
    let c2 = alu_payload(cx, Alu::Compare, b)->Ok_0;
    match home_in(cx, b) {
        Some(Home::Gpr(g)) => run_one(Code::AluRr(Alu::Compare, Gpr(RAX), g), m1),
        Some(Home::Slot(s)) => run_one(
            Code::AluRm(Alu::Compare, Gpr(RAX), spill_payload(cx.lay, s)),
            m1,
        ),
        _ => {},
    }
    let m2 = run_all(c2, m1)->Some_0;
    run_joined(c1, c2, m);
    bits_are(x);
    bits_are(y);
    let cc = int_cond(op);
    let set = seq![Code::Setcc(cc, Gpr(RAX))];
    run_one(Code::Setcc(cc, Gpr(RAX)), m2);
    let m3 = run_all(set, m2)->Some_0;
    assert(m3.g[0] == (if compares(op, x, y) {
        1u64
    } else {
        0
    }));
    tagify_law(m3, compares(op, x, y));
    run_joined(set, tagify(), m2);
    run_joined(c1 + c2, condition(cc), m);
}

// ---------------------------------------------------------------------------
// Truth
// ---------------------------------------------------------------------------

/// One instruction at a place, with jumps.
pub open spec fn stepped(cs: Seq<Code>, pc: int, m: Cpu) -> Option<(int, Cpu)> {
    match cs[pc] {
        Code::Jmp(l) => Some((bind_of(cs, l, 0), m)),
        Code::Jcc(c, l) => if met(m.flags, c) {
            Some((bind_of(cs, l, 0), m))
        } else {
            Some((pc + 1, m))
        },
        c => match meaning(m, c) {
            Some(x) => Some((pc + 1, x)),
            None => None,
        },
    }
}

/// Up to `fuel` instructions from a place on, with jumps.
pub open spec fn walked(cs: Seq<Code>, pc: int, m: Cpu, fuel: nat) -> Option<(int, Cpu)>
    decreases fuel,
{
    if fuel == 0 || pc >= cs.len() || pc < 0 {
        Some((pc, m))
    } else {
        match stepped(cs, pc, m) {
            None => None,
            Some((p, x)) => walked(cs, p, x, (fuel - 1) as nat),
        }
    }
}

/// Where the labels of the truth of a value are.
pub proof fn truth_binds(n: int)
    requires
        0 <= n <= usize::MAX - 8,
    ensures
        bind_of(box_truth(n), n as usize, 0) == 27,
        bind_of(box_truth(n), (n + 1) as usize, 0) == 10,
        bind_of(box_truth(n), (n + 2) as usize, 0) == 18,
        bind_of(box_truth(n), (n + 3) as usize, 0) == 22,
        bind_of(box_truth(n), (n + 4) as usize, 0) == 15,
        bind_of(box_truth(n), (n + 5) as usize, 0) == 32,
        bind_of(box_truth(n), (n + 6) as usize, 0) == 34,
{
    reveal_with_fuel(bind_of, 36);
}

/// The outcome of the truth of a value: 0 or 1 in `rax` at the end of the code.
pub open spec fn decides(n: int, m: Cpu, fuel: nat, t: bool) -> bool {
    walked(box_truth(n), 0, m, fuel) matches Some((p, x)) && p == box_truth(n).len() && x.g[0] == (
    if t {
        1u64
    } else {
        0
    })
}

proof fn same_bits(v: u64)
    ensures
        v & v == v,
        v ^ v == 0,
{
    assert(v & v == v) by (bit_vector);
    assert(v ^ v == 0) by (bit_vector);
}

/// A comparison of `rax` with a number and the jump behind it.
proof fn compare_jumps(cs: Seq<Code>, i: int, v: i32, c: Cond, l: usize, m: Cpu, fuel: nat) -> (r: (int, Cpu))
    requires
        0 <= i < cs.len() - 1,
        cs[i] == Code::AluRi(Alu::Compare, Gpr(RAX), v),
        cs[i + 1] == Code::Jcc(c, l),
        m.g.len() == 16,
        fuel >= 2,
    ensures
        r.1 == (Cpu { flags: Flags::Compared(m.g[0], int_bits(v as i64)), ..m }),
        r.0 == (if met(r.1.flags, c) {
            bind_of(cs, l, 0)
        } else {
            i + 2
        }),
        walked(cs, i, m, fuel) == walked(cs, r.0, r.1, (fuel - 2) as nat),
{
    let x = Cpu { flags: Flags::Compared(m.g[0], int_bits(v as i64)), ..m };
    assert(m.g.update(0, m.g[0]) =~= m.g);
    assert(stepped(cs, i, m) == Some((i + 1, x)));
    reveal_with_fuel(walked, 3);
    assert((fuel - 1) as nat - 1 == fuel - 2);
    (
        if met(x.flags, c) {
            bind_of(cs, l, 0)
        } else {
            i + 2
        },
        x,
    )
}

/// One instruction on the way.
proof fn walks_on(cs: Seq<Code>, i: int, m: Cpu, fuel: nat) -> (r: (int, Cpu))
    requires
        0 <= i < cs.len(),
        fuel > 0,
        stepped(cs, i, m) is Some,
    ensures
        r == stepped(cs, i, m)->Some_0,
        walked(cs, i, m, fuel) == walked(cs, r.0, r.1, (fuel - 1) as nat),
{
    stepped(cs, i, m)->Some_0
}

/// The first comparisons, where the tag word is below 3.
proof fn small_tags(n: int, m: Cpu, fuel: nat) -> (r: Cpu)
    requires
        0 <= n <= usize::MAX - 8,
        m.g.len() == 16,
        m.g[0] < 3,
        fuel >= 4,
    ensures
        r.g == m.g,
        walked(box_truth(n), 0, m, fuel) == walked(box_truth(n), 4, r, (fuel - 4) as nat),
{
    let cs = box_truth(n);
    let (p, x) = compare_jumps(cs, 0, 5, Cond::AE, n as usize, m, fuel);
    let (q, y) = compare_jumps(cs, 2, 3, Cond::AE, (n + 1) as usize, x, (fuel - 2) as nat);
    y
}

#[verifier::rlimit(40)]
proof fn truth_of_refs(n: int, m: Cpu)
    requires
        0 <= n <= usize::MAX - 8,
        m.g.len() == 16,
        m.g[0] >= 5,
    ensures
        decides(n, m, 12, m.g[0] != 9),
{
    let cs = box_truth(n);
    truth_binds(n);
    same_bits(m.g[0]);
    let (p, x) = compare_jumps(cs, 0, 5, Cond::AE, n as usize, m, 12);
    assert(walked(cs, 27, x, 10) == walked(cs, 28, x, 9));
    let (q, y) = compare_jumps(cs, 28, 9, Cond::Z, (n + 5) as usize, x, 9);
    let (a, b) = walks_on(cs, q, y, 7);
    let (c, d) = walks_on(cs, a, b, 6);
    let (e, f) = walks_on(cs, c, d, 5);
}

#[verifier::rlimit(40)]
proof fn truth_of_packed(n: int, m: Cpu)
    requires
        0 <= n <= usize::MAX - 8,
        m.g.len() == 16,
        m.g[0] == 3 || m.g[0] == 4,
    ensures
        decides(n, m, 12, m.g[0] == 4),
{
    let cs = box_truth(n);
    truth_binds(n);
    powers();
    let (p, x) = compare_jumps(cs, 0, 5, Cond::AE, n as usize, m, 12);
    let (q, y) = compare_jumps(cs, 2, 3, Cond::AE, (n + 1) as usize, x, 10);
    assert(walked(cs, 10, y, 8) == walked(cs, 11, y, 7));
    let (u, z) = compare_jumps(cs, 11, 4, Cond::Z, (n + 4) as usize, y, 7);
    let (a, b) = walks_on(cs, u, z, 5);
    let (c, d) = walks_on(cs, a, b, 4);
    let (e, f) = walks_on(cs, c, d, 3);
    if m.g[0] == 4 {
        let (g, h) = walks_on(cs, e, f, 2);
    }
}

#[verifier::rlimit(40)]
proof fn truth_of_ints(n: int, m: Cpu)
    requires
        0 <= n <= usize::MAX - 8,
        m.g.len() == 16,
        m.g[0] == 1,
    ensures
        decides(n, m, 12, m.g[1] != 0),
{
    let cs = box_truth(n);
    truth_binds(n);
    same_bits(m.g[1]);
    let x = small_tags(n, m, 12);
    let (p, y) = compare_jumps(cs, 4, 1, Cond::Z, (n + 2) as usize, x, 8);
    let (a, b) = walks_on(cs, p, y, 6);
    let (c, d) = walks_on(cs, a, b, 5);
    let (e, f) = walks_on(cs, c, d, 4);
    let (g, h) = walks_on(cs, e, f, 3);
    let (i, j) = walks_on(cs, g, h, 2);
}

#[verifier::rlimit(40)]
proof fn truth_of_floats(n: int, m: Cpu)
    requires
        0 <= n <= usize::MAX - 8,
        m.g.len() == 16,
        m.g[0] == 2,
    ensures
        decides(n, m, 15, (m.g[1] * 2) % words() != 0),
{
    let cs = box_truth(n);
    truth_binds(n);
    powers();
    same_bits(bits(m.g[1] * 2));
    let x = small_tags(n, m, 15);
    let (p, y) = compare_jumps(cs, 4, 1, Cond::Z, (n + 2) as usize, x, 11);
    let (q, z) = compare_jumps(cs, 6, 2, Cond::Z, (n + 3) as usize, y, 9);
    let (a, b) = walks_on(cs, q, z, 7);
    let (c, d) = walks_on(cs, a, b, 6);
    let (e, f) = walks_on(cs, c, d, 5);
    let (g, h) = walks_on(cs, e, f, 4);
    let (i, j) = walks_on(cs, g, h, 3);
    let (k, l) = walks_on(cs, i, j, 2);
}

#[verifier::rlimit(40)]
proof fn truth_of_unit(n: int, m: Cpu)
    requires
        0 <= n <= usize::MAX - 8,
        m.g.len() == 16,
        m.g[0] == 0,
    ensures
        decides(n, m, 12, false),
{
    let cs = box_truth(n);
    truth_binds(n);
    same_bits(m.g[0]);
    let x = small_tags(n, m, 12);
    let (p, y) = compare_jumps(cs, 4, 1, Cond::Z, (n + 2) as usize, x, 8);
    let (q, z) = compare_jumps(cs, 6, 2, Cond::Z, (n + 3) as usize, y, 6);
    let (a, b) = walks_on(cs, q, z, 4);
    let (c, d) = walks_on(cs, a, b, 3);
    let (e, f) = walks_on(cs, c, d, 2);
}

/// The truth of a value of unknown type is computed as the interpreter computes
/// it, whatever the value is: with its two words in `rax` and `rcx`, the code
/// ends with 1 in `rax` where the value is true, and 0 where it is not.
pub proof fn box_truth_law(m: Cpu, n: int, v: Value)
    requires
        0 <= n <= usize::MAX - 8,
        m.g.len() == 16,
        (m.g[0], m.g[1]) == parts_of(v),
    ensures
        exists|fuel: nat| decides(n, m, fuel, truthy(v)),
{
    match v {
        Value::Unit => {
            truth_of_unit(n, m);
            assert(decides(n, m, 12, truthy(v)));
        },
        Value::Int(_) => {
            truth_of_ints(n, m);
            assert(decides(n, m, 12, truthy(v)));
        },
        Value::Float(f) => {
            truth_of_floats(n, m);
            assert(decides(n, m, 15, truthy(v)));
        },
        Value::Bool(b) => {
            if b {
                truth_of_refs(n, m);
            } else {
                truth_of_packed(n, m);
            }
            assert(decides(n, m, 12, truthy(v)));
        },
        Value::Char(c) => {
            if (c as u32) == 0 {
                truth_of_packed(n, m);
            } else {
                truth_of_refs(n, m);
            }
            assert(decides(n, m, 12, truthy(v)));
        },
        _ => {
            truth_of_refs(n, m);
            assert(decides(n, m, 12, truthy(v)));
        },
    }
}

} // verus!
