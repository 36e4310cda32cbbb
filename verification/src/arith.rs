//! Arithmetic on the scalar values of the language.
//!
//! Integers are 64 bits wide; overflow is an error when it is checked and
//! wraps around otherwise. Floats are given by their bits: what can be told
//! from the bits (order, sign, zero) is decided here, and rounding arithmetic
//! is looked up among [`FloatFact`]s that the caller provides.

use vstd::arithmetic::power2::{lemma2_to64, lemma_pow2_pos, lemma_pow2_strictly_increases, pow2};
use vstd::bits::{lemma_u64_shl_is_mul, lemma_u64_shr_is_div};
use vstd::prelude::*;

verus! {

// ---------------------------------------------------------------------------
// Integers
// ---------------------------------------------------------------------------

/// `n` reduced to the range of 64-bit integers.
pub open spec fn wrap(n: int) -> i64 {
    let r = n % 0x1_0000_0000_0000_0000;
    if r > i64::MAX {
        (r - 0x1_0000_0000_0000_0000) as i64
    } else {
        r as i64
    }
}

/// An exact result, as far as it fits: wrapped when overflow is not checked.
pub open spec fn fit(checks: bool, n: int) -> Option<i64> {
    if i64::MIN <= n <= i64::MAX {
        Some(n as i64)
    } else if checks {
        None
    } else {
        Some(wrap(n))
    }
}

/// Quotient rounded toward zero.
pub open spec fn quotient(x: int, y: int) -> int {
    if x >= 0 && y > 0 {
        x / y
    } else if x < 0 && y < 0 {
        (-x) / (-y)
    } else if x < 0 {
        -((-x) / y)
    } else {
        -(x / (-y))
    }
}

/// Remainder with the sign of the dividend.
pub open spec fn remainder(x: int, y: int) -> int {
    let d = if y < 0 {
        -y
    } else {
        y
    };
    if x >= 0 {
        x % d
    } else {
        -((-x) % d)
    }
}

/// `x % y`; the one quotient that does not fit makes a checked remainder fail.
pub open spec fn rem_result(checks: bool, x: int, y: int) -> Option<i64> {
    if checks && x == i64::MIN && y == -1 {
        None
    } else {
        Some(remainder(x, y) as i64)
    }
}

/// `x + y`.
pub fn int_add(checks: bool, x: i64, y: i64) -> (r: Option<i64>)
    ensures
        r == fit(checks, x + y),
{
    if checks {
        x.checked_add(y)
    } else {
        Some(x.wrapping_add(y))
    }
}

/// `x - y`.
pub fn int_sub(checks: bool, x: i64, y: i64) -> (r: Option<i64>)
    ensures
        r == fit(checks, x - y),
{
    if checks {
        x.checked_sub(y)
    } else {
        Some(x.wrapping_sub(y))
    }
}

/// `x * y`.
pub fn int_mul(checks: bool, x: i64, y: i64) -> (r: Option<i64>)
    ensures
        r == fit(checks, x * y),
{
    if checks {
        x.checked_mul(y)
    } else {
        Some(x.wrapping_mul(y))
    }
}

/// `-x`.
pub fn int_neg(checks: bool, x: i64) -> (r: Option<i64>)
    ensures
        r == fit(checks, -x),
{
    if x == i64::MIN {
        if checks {
            None
        } else {
            Some(i64::MIN)
        }
    } else {
        Some(-x)
    }
}

/// `x / y`.
pub fn int_div(checks: bool, x: i64, y: i64) -> (r: Option<i64>)
    requires
        y != 0,
    ensures
        r == fit(checks, quotient(x as int, y as int)),
{
    if x == i64::MIN && y == -1 {
        assert(quotient(x as int, y as int) == 0x8000_0000_0000_0000);
        if checks {
            None
        } else {
            Some(i64::MIN)
        }
    } else {
        proof {
            quotient_fits(x, y);
        }
        x.checked_div(y)
    }
}

/// `x % y`.
pub fn int_rem(checks: bool, x: i64, y: i64) -> (r: Option<i64>)
    requires
        y != 0,
    ensures
        r == rem_result(checks, x as int, y as int),
{
    if x == i64::MIN && y == -1 {
        assert(remainder(x as int, y as int) == 0);
        if checks {
            None
        } else {
            Some(0)
        }
    } else {
        proof {
            remainder_fits(x, y);
            assert((x as int) * -1 == -(x as int));
            assert((y as int) * -1 == -(y as int));
            assert(x == 0 ==> (x as int) % (if y < 0 { -(y as int) } else { y as int }) == 0)
                by (nonlinear_arith)
                requires
                    y != 0,
            ;
        }
        x.checked_rem(y)
    }
}

proof fn quotient_fits(x: i64, y: i64)
    requires
        y != 0,
        !(x == i64::MIN && y == -1),
    ensures
        i64::MIN <= quotient(x as int, y as int) <= i64::MAX,
{
    let a: int = if x < 0 {
        -x
    } else {
        x as int
    };
    let b: int = if y < 0 {
        -y
    } else {
        y as int
    };
    assert(0 <= a / b <= a) by (nonlinear_arith)
        requires
            a >= 0,
            b >= 1,
    ;
    if x == i64::MIN && y < 0 {
        assert(a / b < a) by (nonlinear_arith)
            requires
                a > 0,
                b >= 2,
        ;
    }
}

proof fn remainder_fits(x: i64, y: i64)
    requires
        y != 0,
    ensures
        i64::MIN <= remainder(x as int, y as int) <= i64::MAX,
{
    let a: int = if x < 0 {
        -x
    } else {
        x as int
    };
    let b: int = if y < 0 {
        -y
    } else {
        y as int
    };
    assert(0 <= a % b <= a && a % b < b) by (nonlinear_arith)
        requires
            a >= 0,
            b >= 1,
    ;
}

/// Quotient and remainder give back the dividend.
pub proof fn division_law(x: int, y: int)
    requires
        y != 0,
    ensures
        x == quotient(x, y) * y + remainder(x, y),
{
    let a = if x < 0 {
        -x
    } else {
        x
    };
    let b = if y < 0 {
        -y
    } else {
        y
    };
    let q = a / b;
    let r = a % b;
    assert(a == q * b + r) by (nonlinear_arith)
        requires
            q == a / b,
            r == a % b,
            b >= 1,
    ;
    if x >= 0 && y > 0 {
    } else if x < 0 && y < 0 {
        assert(q * y == -(q * b)) by (nonlinear_arith)
            requires
                y == -b,
        ;
    } else if x < 0 {
        assert((-q) * y == -(q * b)) by (nonlinear_arith)
            requires
                y == b,
        ;
    } else {
        assert((-q) * y == q * b) by (nonlinear_arith)
            requires
                y == -b,
        ;
    }
}

// ---------------------------------------------------------------------------
// Floats
// ---------------------------------------------------------------------------

/// The sign bit.
pub const SIGN: u64 = 0x8000_0000_0000_0000;

/// The bits of infinity.
pub const INFINITY: u64 = 0x7FF0_0000_0000_0000;

/// Whether the bits denote no number.
pub open spec fn is_nan(bits: u64) -> bool {
    bits % SIGN > INFINITY
}

/// The place of a number in the order of floats; both zeros have the same.
pub open spec fn rank(bits: u64) -> int {
    if bits >= SIGN {
        -(bits - SIGN)
    } else {
        bits as int
    }
}

/// Whether two floats are ordered at all.
pub open spec fn ordered(x: u64, y: u64) -> bool {
    !is_nan(x) && !is_nan(y)
}

/// `x == y` as floats.
pub fn float_eq(x: u64, y: u64) -> (r: bool)
    ensures
        r == (ordered(x, y) && rank(x) == rank(y)),
{
    !float_is_nan(x) && !float_is_nan(y) && (x == y || (x % SIGN == 0 && y % SIGN == 0))
}

/// `x < y` as floats.
pub fn float_lt(x: u64, y: u64) -> (r: bool)
    ensures
        r == (ordered(x, y) && rank(x) < rank(y)),
{
    if float_is_nan(x) || float_is_nan(y) {
        false
    } else if x >= SIGN {
        if y >= SIGN {
            x > y
        } else {
            x > SIGN || y > 0
        }
    } else {
        y < SIGN && x < y
    }
}

/// `x <= y` as floats.
pub fn float_le(x: u64, y: u64) -> (r: bool)
    ensures
        r == (ordered(x, y) && rank(x) <= rank(y)),
{
    float_lt(x, y) || float_eq(x, y)
}

/// Whether the bits denote no number.
pub fn float_is_nan(x: u64) -> (r: bool)
    ensures
        r == is_nan(x),
{
    x % SIGN > INFINITY
}

/// Whether the float is zero.
pub fn float_is_zero(x: u64) -> (r: bool)
    ensures
        r == (!is_nan(x) && rank(x) == 0),
{
    x % SIGN == 0
}

/// The bits with the sign flipped.
pub open spec fn neg_bits(x: u64) -> u64 {
    if x >= SIGN {
        (x - SIGN) as u64
    } else {
        (x + SIGN) as u64
    }
}

/// `-x` as a float.
pub fn float_neg(x: u64) -> (r: u64)
    ensures
        r == neg_bits(x),
{
    if x >= SIGN {
        x - SIGN
    } else {
        x + SIGN
    }
}

/// Equality of floats is symmetric, excludes order, and orders are opposite.
pub proof fn float_order_laws(x: u64, y: u64)
    requires
        ordered(x, y),
    ensures
        rank(x) == rank(y) || rank(x) < rank(y) || rank(y) < rank(x),
        rank(neg_bits(x)) == -rank(x),
        neg_bits(neg_bits(x)) == x,
        !is_nan(neg_bits(x)),
{
}

/// The exponent field of a float.
pub open spec fn exponent(bits: u64) -> int {
    ((bits % SIGN) / 0x10_0000_0000_0000) as int
}

/// The digits of a float with the leading one that is not stored.
pub open spec fn digits(bits: u64) -> nat {
    (0x10_0000_0000_0000 + bits % 0x10_0000_0000_0000) as nat
}

/// The whole part of the size of a finite float.
pub open spec fn whole(bits: u64) -> nat {
    let e = exponent(bits);
    if e < 1023 {
        0
    } else if e < 1075 {
        digits(bits) / pow2((1075 - e) as nat)
    } else {
        digits(bits) * pow2((e - 1075) as nat)
    }
}

/// A finite float without its fraction, and nothing for any other.
pub open spec fn truncated(bits: u64) -> Option<int> {
    if exponent(bits) == 2047 {
        None
    } else if bits >= SIGN {
        Some(-whole(bits))
    } else {
        Some(whole(bits) as int)
    }
}

/// A float as the nearest 64-bit integer toward zero: the ends of the range
/// stand for what lies beyond them, and zero for what is no number.
pub open spec fn saturated(bits: u64) -> i64 {
    if is_nan(bits) {
        0
    } else {
        match truncated(bits) {
            Some(n) if i64::MIN <= n <= i64::MAX => n as i64,
            _ => if bits >= SIGN {
                i64::MIN
            } else {
                i64::MAX
            },
        }
    }
}

proof fn large_digits(d: nat, k: nat)
    requires
        0x10_0000_0000_0000 <= d,
        11 <= k,
    ensures
        d * pow2(k) >= 0x8000_0000_0000_0000,
        d * pow2(k) == 0x8000_0000_0000_0000 <==> d == 0x10_0000_0000_0000 && k == 11,
{
    lemma2_to64();
    if k > 11 {
        lemma_pow2_strictly_increases(11, k);
        lemma_pow2_strictly_increases(11, 12);
        if k > 12 {
            lemma_pow2_strictly_increases(12, k);
        }
        assert(d * pow2(k) >= 0x10_0000_0000_0000 * 4096) by (nonlinear_arith)
            requires
                d >= 0x10_0000_0000_0000,
                pow2(k) >= 4096,
        ;
    } else {
        assert(d * 2048 >= 0x8000_0000_0000_0000);
    }
}

/// The float without its fraction, where it is a 64-bit integer.
pub fn float_trunc(x: u64) -> (r: Option<i64>)
    ensures
        r == (match truncated(x) {
            Some(n) if i64::MIN <= n <= i64::MAX => Some(n as i64),
            _ => None,
        }),
{
    let e: u64 = (x % SIGN) / 0x10_0000_0000_0000;
    let d: u64 = 0x10_0000_0000_0000 + x % 0x10_0000_0000_0000;
    proof {
        lemma2_to64();
    }
    if e == 2047 {
        return None;
    }
    if e >= 1086 {
        proof {
            large_digits(d as nat, (e - 1075) as nat);
        }
        return if x >= SIGN && e == 1086 && d == 0x10_0000_0000_0000 {
            Some(i64::MIN)
        } else {
            None
        };
    }
    let size: u64 = if e < 1023 {
        0
    } else if e < 1075 {
        let k: u64 = 1075 - e;
        proof {
            lemma_u64_shr_is_div(d, k);
            lemma_pow2_pos(k as nat);
            assert(d as nat / pow2(k as nat) <= d) by (nonlinear_arith)
                requires
                    pow2(k as nat) >= 1,
            ;
        }
        d >> k
    } else {
        let k: u64 = e - 1075;
        proof {
            if k < 10 {
                lemma_pow2_strictly_increases(k as nat, 10);
            }
            lemma_pow2_pos(k as nat);
            assert(d * pow2(k as nat) <= 0x1F_FFFF_FFFF_FFFF * 1024) by (nonlinear_arith)
                requires
                    d <= 0x1F_FFFF_FFFF_FFFF,
                    0 < pow2(k as nat) <= 1024,
            ;
            lemma_u64_shl_is_mul(d, k);
        }
        d << k
    };
    if x >= SIGN {
        Some(-(size as i64))
    } else {
        Some(size as i64)
    }
}

/// The nearest 64-bit integer toward zero.
pub fn float_to_int(x: u64) -> (r: i64)
    ensures
        r == saturated(x),
{
    match float_trunc(x) {
        Some(n) => n,
        None => if float_is_nan(x) {
            0
        } else if x >= SIGN {
            i64::MIN
        } else {
            i64::MAX
        },
    }
}

/// A float operation whose result is rounded.
#[derive(Debug, Clone, Copy, PartialEq, Eq, Structural)]
pub enum FloatOp {
    /// Addition.
    Add,
    /// Subtraction.
    Sub,
    /// Multiplication.
    Mul,
    /// Division.
    Div,
    /// Remainder.
    Rem,
    /// Conversion of the integer with the bits of the first operand.
    FromInt,
    /// Rounding to single precision.
    ToSingle,
}

/// A question about a float operation.
#[derive(Debug, Clone, Copy, PartialEq, Eq, Structural)]
pub struct FloatAsk {
    /// Operation.
    pub op: FloatOp,
    /// Bits of the first operand.
    pub x: u64,
    /// Bits of the second operand, zero where there is none.
    pub y: u64,
}

/// A question about a float operation with its answer.
#[derive(Debug, Clone, Copy, PartialEq, Eq, Structural)]
pub struct FloatFact {
    /// Question.
    pub ask: FloatAsk,
    /// Bits of the result.
    pub result: u64,
}

/// The answer among the facts from `i` on; the first one counts.
pub open spec fn answer_from(facts: Seq<FloatFact>, ask: FloatAsk, i: int) -> Option<u64>
    decreases facts.len() - i,
{
    if i < 0 || i >= facts.len() {
        None
    } else if facts[i].ask == ask {
        Some(facts[i].result)
    } else {
        answer_from(facts, ask, i + 1)
    }
}

/// The answer to a question.
pub fn find_answer(facts: &Vec<FloatFact>, ask: FloatAsk) -> (r: Option<u64>)
    ensures
        r == answer_from(facts@, ask, 0),
{
    let mut i: usize = 0;
    while i < facts.len()
        invariant
            i <= facts@.len(),
            answer_from(facts@, ask, 0) == answer_from(facts@, ask, i as int),
        decreases facts.len() - i,
    {
        if facts[i].ask == ask {
            return Some(facts[i].result);
        }
        i = i + 1;
    }
    None
}

/// A result that fits is exact. One that does not is refused where overflow is
/// checked; else it is the one 64-bit integer that differs from it by a multiple of
/// the number of them.
pub proof fn fitting_law(n: int)
    ensures
        i64::MIN <= n <= i64::MAX ==> fit(true, n) == Some(n as i64) && fit(false, n) == Some(
            n as i64,
        ),
        n < i64::MIN || i64::MAX < n ==> fit(true, n) is None,
        fit(false, n) matches Some(m) && (n - m) % 0x1_0000_0000_0000_0000 == 0,
{
}

/// The remainder is smaller than the divisor, and has the sign of what was divided.
/// It fails only where it is checked and the quotient does not fit.
pub proof fn remainder_law(x: i64, y: i64)
    requires
        y != 0,
    ensures
        ({
            let r = remainder(x as int, y as int);
            &&& y > 0 ==> -y < r < y
            &&& y < 0 ==> y < r < -y
            &&& x >= 0 ==> r >= 0
            &&& x <= 0 ==> r <= 0
            &&& rem_result(false, x as int, y as int) == Some(r as i64)
            &&& i64::MIN <= quotient(x as int, y as int) <= i64::MAX ==> rem_result(
                true,
                x as int,
                y as int,
            ) == Some(r as i64)
            &&& quotient(x as int, y as int) > i64::MAX ==> rem_result(true, x as int, y as int) is None
        }),
{
    let d: int = if y < 0 {
        -(y as int)
    } else {
        y as int
    };
    let a: int = if x < 0 {
        -(x as int)
    } else {
        x as int
    };
    assert(0 <= a % d < d) by (nonlinear_arith)
        requires
            d > 0,
    ;
    assert(0 <= a / d <= a) by (nonlinear_arith)
        requires
            d > 0,
            a >= 0,
    ;
    assert(a / 1 == a) by (nonlinear_arith);
    assert(a == 0 ==> a % d == 0) by (nonlinear_arith)
        requires
            d > 0,
    ;
    if x == i64::MIN && y != -1 && y < 0 {
        assert(a / d <= a / 2) by (nonlinear_arith)
            requires
                d >= 2,
                a >= 0,
        ;
    }
}

/// The whole part of a float is what is left of its digits: the largest number of
/// units, of the size that the exponent gives, that are in them. What is below one
/// has none; infinities and what is no number have no whole part at all. The sign
/// makes no other difference.
pub proof fn truncation_law(bits: u64)
    ensures
        truncated(bits) is None <==> bits % SIGN >= INFINITY,
        exponent(bits) < 1023 ==> truncated(bits) == Some(0int),
        1023 <= exponent(bits) < 1075 ==> {
            let unit = pow2((1075 - exponent(bits)) as nat);
            whole(bits) * unit <= digits(bits) < (whole(bits) + 1) * unit
        },
        1075 <= exponent(bits) < 2047 ==> whole(bits) == digits(bits) * pow2(
            (exponent(bits) - 1075) as nat,
        ),
        truncated(bits) matches Some(n) ==> {
            &&& n == whole(bits) || n == -whole(bits)
            &&& bits < SIGN ==> n >= 0
            &&& bits >= SIGN ==> n <= 0
            &&& truncated(neg_bits(bits)) == Some(-n)
        },
{
    let e = exponent(bits);
    assert(neg_bits(bits) % SIGN == bits % SIGN);
    assert(neg_bits(bits) % 0x10_0000_0000_0000 == bits % 0x10_0000_0000_0000);
    if 1023 <= e < 1075 {
        let unit = pow2((1075 - e) as nat);
        let d = digits(bits);
        vstd::arithmetic::power2::lemma_pow2_pos((1075 - e) as nat);
        assert((d / unit) * unit <= d < (d / unit + 1) * unit) by (nonlinear_arith)
            requires
                unit > 0,
        ;
    }
}

/// A float becomes the integer that it is without its fraction; the ends of the
/// range stand for what is beyond them, the infinities too, and zero for what is no
/// number.
pub proof fn saturation_law(bits: u64)
    ensures
        bits % SIGN > INFINITY ==> saturated(bits) == 0,
        bits == INFINITY ==> saturated(bits) == i64::MAX,
        bits == INFINITY + SIGN ==> saturated(bits) == i64::MIN,
        truncated(bits) matches Some(n) ==> {
            &&& i64::MIN <= n <= i64::MAX ==> saturated(bits) == n
            &&& n > i64::MAX ==> saturated(bits) == i64::MAX
            &&& n < i64::MIN ==> saturated(bits) == i64::MIN
        },
{
}

} // verus!
