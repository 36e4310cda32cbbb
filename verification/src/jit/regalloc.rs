//! Linear-scan register allocation.
//!
//! Each virtual register gets a fixed *home*: a general purpose register
//! (`Int`/`Bool`/`Char`), an SSE register (`Float`), or a 16-byte spill slot.
//! Registers of an unknown type always live in slots (they hold full values).
//!
//! * Values that are live behind a helper call are placed in callee-saved
//!   registers (the helper preserves them) or in slots.
//! * Values that never cross a call may use caller-saved registers as well.
//! * Register pressure spills to dedicated slots.
//!
//! Allocation is a greedy first fit over live intervals, those that cross a
//! call first, so that scarce callee-saved registers go to the values that
//! need them.

use crate::jit::assembler::{Gpr, Xmm};
use crate::jit::ir::{blocks_model, Function, KType, VReg};
use crate::jit::liveness::{find_intervals, is_interval, well_linked, Interval};
use crate::jit::regs::{R10, R11, R14, R15, R8, R9, RBX, RDI, RSI};
use crate::jit::xmms::{
    XMM1, XMM10, XMM11, XMM12, XMM13, XMM14, XMM15, XMM2, XMM3, XMM4, XMM5, XMM6, XMM7, XMM8, XMM9,
};
use vstd::prelude::*;

verus! {

/// Size of every frame slot in bytes (locals and spills).
pub const SLOT_BYTES: usize = 16;

/// Where the value of a virtual register lives.
#[derive(Debug, Clone, Copy, PartialEq, Eq, Structural)]
pub enum Home {
    /// 64-bit payload in a general purpose register (`Int`/`Bool`/`Char`).
    Gpr(Gpr),
    /// Double payload in an SSE register (`Float`).
    Xmm(Xmm),
    /// 16-byte spill slot; the byte offset is `slot * SLOT_BYTES`.
    Slot(usize),
}

/// Result of register allocation.
#[derive(Debug)]
pub struct Allocation {
    /// Home of every virtual register.
    pub homes: Vec<Home>,
    /// Number of 16-byte spill slots required.
    pub slot_count: usize,
}

// ---------------------------------------------------------------------------
// Candidates
// ---------------------------------------------------------------------------

/// Callee-saved registers for values of the given kind.
pub open spec fn callee_saved(float: bool) -> Seq<Home> {
    if float {
        seq![
            Home::Xmm(Xmm(XMM8)),
            Home::Xmm(Xmm(XMM9)),
            Home::Xmm(Xmm(XMM10)),
            Home::Xmm(Xmm(XMM11)),
            Home::Xmm(Xmm(XMM12)),
            Home::Xmm(Xmm(XMM13)),
            Home::Xmm(Xmm(XMM14)),
            Home::Xmm(Xmm(XMM15)),
        ]
    } else {
        seq![Home::Gpr(Gpr(RBX)), Home::Gpr(Gpr(R14)), Home::Gpr(Gpr(R15))]
    }
}

/// Caller-saved registers for values of the given kind.
pub open spec fn caller_saved(float: bool) -> Seq<Home> {
    if float {
        seq![
            Home::Xmm(Xmm(XMM1)),
            Home::Xmm(Xmm(XMM2)),
            Home::Xmm(Xmm(XMM3)),
            Home::Xmm(Xmm(XMM4)),
            Home::Xmm(Xmm(XMM5)),
            Home::Xmm(Xmm(XMM6)),
            Home::Xmm(Xmm(XMM7)),
        ]
    } else {
        seq![
            Home::Gpr(Gpr(RSI)),
            Home::Gpr(Gpr(RDI)),
            Home::Gpr(Gpr(R8)),
            Home::Gpr(Gpr(R9)),
            Home::Gpr(Gpr(R10)),
            Home::Gpr(Gpr(R11)),
        ]
    }
}

/// The registers to try for a value, in order.
pub open spec fn candidates(float: bool, crosses: bool) -> Seq<Home> {
    if crosses {
        callee_saved(float)
    } else {
        callee_saved(float) + caller_saved(float)
    }
}

fn find_candidates(float: bool, crosses: bool) -> (r: Vec<Home>)
    ensures
        r@ == candidates(float, crosses),
{
    let mut out: Vec<Home> = if float {
        vec![
            Home::Xmm(Xmm(XMM8)),
            Home::Xmm(Xmm(XMM9)),
            Home::Xmm(Xmm(XMM10)),
            Home::Xmm(Xmm(XMM11)),
            Home::Xmm(Xmm(XMM12)),
            Home::Xmm(Xmm(XMM13)),
            Home::Xmm(Xmm(XMM14)),
            Home::Xmm(Xmm(XMM15)),
        ]
    } else {
        vec![Home::Gpr(Gpr(RBX)), Home::Gpr(Gpr(R14)), Home::Gpr(Gpr(R15))]
    };
    assert(out@ =~= callee_saved(float));
    if !crosses {
        let mut more: Vec<Home> = if float {
            vec![
                Home::Xmm(Xmm(XMM1)),
                Home::Xmm(Xmm(XMM2)),
                Home::Xmm(Xmm(XMM3)),
                Home::Xmm(Xmm(XMM4)),
                Home::Xmm(Xmm(XMM5)),
                Home::Xmm(Xmm(XMM6)),
                Home::Xmm(Xmm(XMM7)),
            ]
        } else {
            vec![
                Home::Gpr(Gpr(RSI)),
                Home::Gpr(Gpr(RDI)),
                Home::Gpr(Gpr(R8)),
                Home::Gpr(Gpr(R9)),
                Home::Gpr(Gpr(R10)),
                Home::Gpr(Gpr(R11)),
            ]
        };
        assert(more@ =~= caller_saved(float));
        out.append(&mut more);
    }
    out
}

// ---------------------------------------------------------------------------
// Order
// ---------------------------------------------------------------------------

/// `u` is allocated before `v`: values that cross a call first, then by the
/// start of the interval, then by number.
pub open spec fn goes_before(ivs: Seq<Interval>, u: VReg, v: VReg) -> bool {
    let (a, b) = (ivs[u as int], ivs[v as int]);
    if a.crosses != b.crosses {
        a.crosses
    } else if a.start != b.start {
        a.start < b.start
    } else {
        u < v
    }
}

/// `order` lists the first `n` registers of a known type in the order in which
/// they are allocated.
pub open spec fn is_order(ivs: Seq<Interval>, types: Seq<KType>, n: int, order: Seq<VReg>) -> bool {
    &&& forall|i: int, j: int|
        0 <= i < j < order.len() ==> goes_before(ivs, #[trigger] order[i], #[trigger] order[j])
    &&& forall|i: int|
        0 <= i < order.len() ==> (#[trigger] order[i]) < n && types[order[i] as int]
            != KType::Unknown
    &&& forall|v: VReg|
        v < n && (#[trigger] types[v as int]) != KType::Unknown ==> order.contains(v)
}

/// There is only one such order.
pub proof fn order_unique(
    ivs: Seq<Interval>,
    types: Seq<KType>,
    n: int,
    a: Seq<VReg>,
    b: Seq<VReg>,
)
    requires
        is_order(ivs, types, n, a),
        is_order(ivs, types, n, b),
    ensures
        a == b,
{
    order_prefix(ivs, types, n, a, b, a.len() as int);
    order_prefix(ivs, types, n, b, a, b.len() as int);
    assert(a =~= b);
}

proof fn order_prefix(
    ivs: Seq<Interval>,
    types: Seq<KType>,
    n: int,
    a: Seq<VReg>,
    b: Seq<VReg>,
    k: int,
)
    requires
        is_order(ivs, types, n, a),
        is_order(ivs, types, n, b),
        0 <= k <= a.len(),
    ensures
        k <= b.len(),
        forall|i: int| 0 <= i < k ==> a[i] == b[i],
    decreases k,
{
    if k > 0 {
        order_prefix(ivs, types, n, a, b, k - 1);
        let v = a[k - 1];
        assert(types[v as int] != KType::Unknown);
        assert(b.contains(v));
        let j = choose|j: int| 0 <= j < b.len() && b[j] == v;
        if j < k - 1 {
            assert(a[j] == b[j]);
            assert(goes_before(ivs, a[j], a[k - 1]));
        }
        if j > k - 1 {
            let w = b[k - 1];
            assert(types[w as int] != KType::Unknown);
            assert(a.contains(w));
            assert(goes_before(ivs, b[k - 1], b[j]));
            let i = choose|i: int| 0 <= i < a.len() && a[i] == w;
            if i < k - 1 {
                assert(b[i] == a[i]);
                assert(goes_before(ivs, b[i], b[k - 1]));
            } else if i > k - 1 {
                assert(goes_before(ivs, a[k - 1], a[i]));
            }
        }
    }
}

fn precedes(ivs: &Vec<Interval>, u: VReg, v: VReg) -> (r: bool)
    requires
        u < ivs@.len(),
        v < ivs@.len(),
    ensures
        r == goes_before(ivs@, u, v),
{
    let a: Interval = ivs[u as usize];
    let b: Interval = ivs[v as usize];
    if a.crosses != b.crosses {
        a.crosses
    } else if a.start != b.start {
        a.start < b.start
    } else {
        u < v
    }
}

/// The registers of a known type in the order in which they are allocated.
fn find_order(ivs: &Vec<Interval>, types: &Vec<KType>) -> (order: Vec<VReg>)
    requires
        ivs@.len() == types@.len(),
        types@.len() <= u32::MAX,
    ensures
        is_order(ivs@, types@, types@.len() as int, order@),
{
    let n: usize = types.len();
    let mut order: Vec<VReg> = Vec::new();
    let mut v: usize = 0;
    while v < n
        invariant
            n == types@.len(),
            n == ivs@.len(),
            n <= u32::MAX,
            v <= n,
            is_order(ivs@, types@, v as int, order@),
        decreases n - v,
    {
        let ghost before = order@;
        if types[v].is_known() {
            // Find the place of the new register.
            let mut k: usize = order.len();
            while k > 0 && !precedes(ivs, order[k - 1], v as u32)
                invariant
                    k <= order@.len(),
                    order@ == before,
                    n == ivs@.len(),
                    n <= u32::MAX,
                    v < n,
                    is_order(ivs@, types@, v as int, order@),
                    forall|i: int|
                        k <= i < order@.len() ==> !goes_before(ivs@, #[trigger] order@[i], v as u32),
                decreases k,
            {
                k = k - 1;
            }
            order.insert(k, v as u32);
            proof {
                inserted(ivs@, types@, v as int, before, k as int);
            }
        } else {
            assert(is_order(ivs@, types@, v + 1, order@)) by {
                assert forall|w: VReg|
                    w < v + 1 && (#[trigger] types@[w as int]) != KType::Unknown implies order@.contains(
                    w,
                ) by {
                    assert(w < v);
                }
            }
        }
        v = v + 1;
    }
    order
}

proof fn inserted(ivs: Seq<Interval>, types: Seq<KType>, v: int, order: Seq<VReg>, k: int)
    requires
        is_order(ivs, types, v, order),
        0 <= v <= u32::MAX,
        types[v] != KType::Unknown,
        0 <= k <= order.len(),
        k > 0 ==> goes_before(ivs, order[k - 1], v as u32),
        forall|i: int| k <= i < order.len() ==> !goes_before(ivs, #[trigger] order[i], v as u32),
    ensures
        is_order(ivs, types, v + 1, order.insert(k, v as u32)),
{
    let next = order.insert(k, v as u32);
    assert forall|i: int, j: int| 0 <= i < j < next.len() implies goes_before(
        ivs,
        #[trigger] next[i],
        #[trigger] next[j],
    ) by {
        if i < k && j == k {
            if i < k - 1 {
                assert(goes_before(ivs, order[i], order[k - 1]));
            }
        } else if i == k {
            assert(next[j] == order[j - 1]);
            assert(order[j - 1] < v);
            assert(!goes_before(ivs, order[j - 1], v as u32));
        } else {
            let a = if i < k {
                i
            } else {
                i - 1
            };
            let b = if j < k {
                j
            } else {
                j - 1
            };
            assert(next[i] == order[a]);
            assert(next[j] == order[b]);
            assert(goes_before(ivs, order[a], order[b]));
        }
    }
    assert forall|i: int| 0 <= i < next.len() implies (#[trigger] next[i]) < v + 1 && types[
    next[i] as int] != KType::Unknown by {
        if i < k {
            assert(next[i] == order[i]);
        } else if i > k {
            assert(next[i] == order[i - 1]);
        }
    }
    assert forall|w: VReg|
        w < v + 1 && (#[trigger] types[w as int]) != KType::Unknown implies next.contains(w) by {
        if w == v {
            assert(next[k] == w);
        } else {
            let i = choose|i: int| 0 <= i < order.len() && order[i] == w;
            if i < k {
                assert(next[i] == w);
            } else {
                assert(next[i + 1] == w);
            }
        }
    }
}

// ---------------------------------------------------------------------------
// Assignment
// ---------------------------------------------------------------------------

/// Two intervals have a position in common.
pub open spec fn overlap(a: Interval, b: Interval) -> bool {
    a.start < b.end && b.start < a.end
}

/// Register `h` is free for `v`: none of the first `k` registers of the order
/// that live in `h` overlaps `v`.
pub open spec fn free_for(
    ivs: Seq<Interval>,
    order: Seq<VReg>,
    homes: Seq<Home>,
    k: int,
    h: Home,
    v: VReg,
) -> bool {
    forall|j: int|
        0 <= j < k && #[trigger] homes[j] == h ==> !overlap(ivs[v as int], ivs[order[j] as int])
}

/// The first candidate from `c` on that is free.
pub open spec fn first_free(
    ivs: Seq<Interval>,
    order: Seq<VReg>,
    homes: Seq<Home>,
    v: VReg,
    cands: Seq<Home>,
    c: int,
) -> Option<Home>
    decreases cands.len() - c,
{
    if c < 0 || c >= cands.len() {
        None
    } else if free_for(ivs, order, homes, homes.len() as int, cands[c], v) {
        Some(cands[c])
    } else {
        first_free(ivs, order, homes, v, cands, c + 1)
    }
}

/// The register for the next value of the order: none for a value that is
/// never used.
pub open spec fn pick(
    ivs: Seq<Interval>,
    types: Seq<KType>,
    order: Seq<VReg>,
    homes: Seq<Home>,
) -> Option<Home> {
    let v = order[homes.len() as int];
    let i = ivs[v as int];
    if i.end == 0 {
        None
    } else {
        first_free(
            ivs,
            order,
            homes,
            v,
            candidates(types[v as int] == KType::Float, i.crosses),
            0,
        )
    }
}

/// The homes of the first `k` values of the order, with the number of slots
/// they take: each gets the first free candidate, or else a slot of its own.
pub open spec fn assigned(
    ivs: Seq<Interval>,
    types: Seq<KType>,
    order: Seq<VReg>,
    k: int,
) -> (Seq<Home>, nat)
    decreases k,
{
    if k <= 0 {
        (seq![], 0)
    } else {
        let (homes, slots) = assigned(ivs, types, order, k - 1);
        match pick(ivs, types, order, homes) {
            Some(h) => (homes.push(h), slots),
            None => (homes.push(Home::Slot(slots as usize)), slots + 1),
        }
    }
}

/// How many of the first `v` registers have an unknown type.
pub open spec fn unknowns(types: Seq<KType>, v: int) -> nat
    decreases v,
{
    if v <= 0 {
        0
    } else {
        unknowns(types, v - 1) + (if types[v - 1] == KType::Unknown {
            1nat
        } else {
            0nat
        })
    }
}

/// The position of `v` in the order, tried from `k` on.
pub open spec fn place_in(order: Seq<VReg>, v: VReg, k: int) -> int
    decreases order.len() - k,
{
    if k < 0 || k >= order.len() || order[k] == v {
        k
    } else {
        place_in(order, v, k + 1)
    }
}

/// The home of register `v`: registers of a known type as assigned, the others
/// in the slots behind, by number.
pub open spec fn home_of(
    ivs: Seq<Interval>,
    types: Seq<KType>,
    order: Seq<VReg>,
    v: int,
) -> Home {
    let (homes, slots) = assigned(ivs, types, order, order.len() as int);
    if types[v] == KType::Unknown {
        Home::Slot((slots + unknowns(types, v)) as usize)
    } else {
        homes[place_in(order, v as u32, 0)]
    }
}

/// The number of slots in all.
pub open spec fn slots_of(ivs: Seq<Interval>, types: Seq<KType>, order: Seq<VReg>) -> nat {
    assigned(ivs, types, order, order.len() as int).1 + unknowns(types, types.len() as int)
}

/// `a` is the allocation for code with the given intervals and types.
pub open spec fn is_allocation(
    ivs: Seq<Interval>,
    types: Seq<KType>,
    order: Seq<VReg>,
    a: Allocation,
) -> bool {
    &&& is_order(ivs, types, types.len() as int, order)
    &&& a.homes@.len() == types.len()
    &&& forall|v: int| 0 <= v < types.len() ==> (#[trigger] a.homes@[v]) == home_of(ivs, types, order, v)
    &&& a.slot_count == slots_of(ivs, types, order)
}

proof fn assigned_bounds(ivs: Seq<Interval>, types: Seq<KType>, order: Seq<VReg>, k: int)
    requires
        0 <= k,
    ensures
        assigned(ivs, types, order, k).0.len() == k,
        assigned(ivs, types, order, k).1 <= k,
    decreases k,
{
    if k > 0 {
        assigned_bounds(ivs, types, order, k - 1);
    }
}

proof fn unknowns_bounds(types: Seq<KType>, a: int, b: int)
    requires
        0 <= a <= b,
    ensures
        unknowns(types, a) <= unknowns(types, b) <= unknowns(types, a) + (b - a),
    decreases b - a,
{
    if a < b {
        unknowns_bounds(types, a, b - 1);
    }
}

proof fn place_found(order: Seq<VReg>, v: VReg, k: int, at: int)
    requires
        0 <= k <= at < order.len(),
        order[at] == v,
        forall|i: int, j: int| 0 <= i < j < order.len() ==> order[i] != order[j],
    ensures
        place_in(order, v, k) == at,
    decreases at - k,
{
    if k < at {
        assert(order[k] != order[at]);
        place_found(order, v, k + 1, at);
    }
}

/// The order holds no register twice.
pub proof fn order_distinct(ivs: Seq<Interval>, types: Seq<KType>, n: int, order: Seq<VReg>)
    requires
        is_order(ivs, types, n, order),
    ensures
        forall|i: int, j: int| 0 <= i < j < order.len() ==> order[i] != order[j],
{
    assert forall|i: int, j: int| 0 <= i < j < order.len() implies order[i] != order[j] by {
        assert(goes_before(ivs, order[i], order[j]));
    }
}

/// A distinct list of numbers below `n` is no longer than `n`.
proof fn order_short(order: Seq<VReg>, n: int)
    requires
        0 <= n,
        forall|i: int, j: int| 0 <= i < j < order.len() ==> order[i] != order[j],
        forall|i: int| 0 <= i < order.len() ==> (#[trigger] order[i]) < n,
    ensures
        order.len() <= n,
    decreases n,
{
    if order.len() > 0 {
        if n == 0 {
            assert(order[0] < 0);
        } else if order.contains((n - 1) as u32) {
            let k = choose|k: int| 0 <= k < order.len() && order[k] == (n - 1) as u32;
            let rest = order.remove(k);
            assert forall|i: int, j: int| 0 <= i < j < rest.len() implies rest[i] != rest[j] by {
                let a = if i < k {
                    i
                } else {
                    i + 1
                };
                let b = if j < k {
                    j
                } else {
                    j + 1
                };
                assert(rest[i] == order[a]);
                assert(rest[j] == order[b]);
            }
            assert forall|i: int| 0 <= i < rest.len() implies (#[trigger] rest[i]) < n - 1 by {
                let a = if i < k {
                    i
                } else {
                    i + 1
                };
                assert(rest[i] == order[a]);
                assert(order[a] < n);
                if a < k {
                    assert(order[a] != order[k]);
                } else {
                    assert(order[k] != order[a]);
                }
            }
            order_short(rest, n - 1);
        } else {
            assert forall|i: int| 0 <= i < order.len() implies (#[trigger] order[i]) < n - 1 by {
                if order[i] == n - 1 {
                    assert(order.contains((n - 1) as u32));
                }
            }
            order_short(order, n - 1);
        }
    }
}

fn is_free(ivs: &Vec<Interval>, order: &Vec<VReg>, homes: &Vec<Home>, h: Home, v: VReg) -> (r: bool)
    requires
        v < ivs@.len(),
        homes@.len() <= order@.len(),
        forall|i: int| 0 <= i < order@.len() ==> (#[trigger] order@[i]) < ivs@.len(),
    ensures
        r == free_for(ivs@, order@, homes@, homes@.len() as int, h, v),
{
    let mine: Interval = ivs[v as usize];
    let mut j: usize = 0;
    while j < homes.len()
        invariant
            j <= homes@.len(),
            homes@.len() <= order@.len(),
            v < ivs@.len(),
            mine == ivs@[v as int],
            forall|i: int| 0 <= i < order@.len() ==> (#[trigger] order@[i]) < ivs@.len(),
            free_for(ivs@, order@, homes@, j as int, h, v),
        decreases homes.len() - j,
    {
        if homes[j] == h {
            let other: Interval = ivs[order[j] as usize];
            if mine.start < other.end && other.start < mine.end {
                assert(homes@[j as int] == h);
                return false;
            }
        }
        j = j + 1;
    }
    true
}

/// First-fit assignment of the values in the given order.
fn assign(ivs: &Vec<Interval>, types: &Vec<KType>, order: &Vec<VReg>) -> (r: (Vec<Home>, usize))
    requires
        ivs@.len() == types@.len(),
        forall|i: int| 0 <= i < order@.len() ==> (#[trigger] order@[i]) < ivs@.len(),
        order@.len() <= u32::MAX,
    ensures
        (r.0@, r.1 as nat) == assigned(ivs@, types@, order@, order@.len() as int),
{
    let mut homes: Vec<Home> = Vec::new();
    let mut slots: usize = 0;
    assert(homes@ =~= seq![]);
    while homes.len() < order.len()
        invariant
            homes@.len() <= order@.len(),
            order@.len() <= u32::MAX,
            ivs@.len() == types@.len(),
            forall|i: int| 0 <= i < order@.len() ==> (#[trigger] order@[i]) < ivs@.len(),
            (homes@, slots as nat) == assigned(ivs@, types@, order@, homes@.len() as int),
        decreases order.len() - homes.len(),
    {
        let k: usize = homes.len();
        let v: VReg = order[k];
        let i: Interval = ivs[v as usize];
        proof {
            assigned_bounds(ivs@, types@, order@, k as int);
        }
        let mut chosen: Option<Home> = None;
        if i.end != 0 {
            let float: bool = matches!(types[v as usize], KType::Float);
            let cands: Vec<Home> = find_candidates(float, i.crosses);
            let mut c: usize = 0;
            while c < cands.len()
                invariant_except_break
                    chosen is None,
                    first_free(ivs@, order@, homes@, v, cands@, 0) == first_free(
                        ivs@,
                        order@,
                        homes@,
                        v,
                        cands@,
                        c as int,
                    ),
                invariant
                    c <= cands@.len(),
                    v < ivs@.len(),
                    homes@.len() <= order@.len(),
                    forall|i: int| 0 <= i < order@.len() ==> (#[trigger] order@[i]) < ivs@.len(),
                ensures
                    chosen == first_free(ivs@, order@, homes@, v, cands@, 0),
                decreases cands.len() - c,
            {
                if is_free(ivs, order, &homes, cands[c], v) {
                    chosen = Some(cands[c]);
                    break;
                }
                c = c + 1;
            }
        }
        assert(chosen == pick(ivs@, types@, order@, homes@));
        match chosen {
            Some(h) => {
                homes.push(h);
            },
            None => {
                homes.push(Home::Slot(slots));
                slots = slots + 1;
            },
        }
    }
    (homes, slots)
}

fn find_place(order: &Vec<VReg>, v: VReg) -> (k: usize)
    ensures
        k == place_in(order@, v, 0),
        k <= order@.len(),
{
    let mut k: usize = 0;
    while k < order.len()
        invariant
            k <= order@.len(),
            place_in(order@, v, 0) == place_in(order@, v, k as int),
        decreases order.len() - k,
    {
        if order[k] == v {
            return k;
        }
        k = k + 1;
    }
    k
}

/// Allocate homes for every virtual register in `func`.
pub fn allocate(func: &mut Function) -> (a: Allocation)
    requires
        well_linked(blocks_model(old(func).blocks@)),
        old(func).types@.len() <= u32::MAX,
        old(func).types@.len() <= usize::MAX / 16,
    ensures
        exists|ivs: Seq<Interval>, order: Seq<VReg>|
            {
                &&& ivs.len() == old(func).types@.len()
                &&& forall|v: int|
                    0 <= v < ivs.len() ==> is_interval(
                        blocks_model(old(func).blocks@),
                        v as u32,
                        #[trigger] ivs[v],
                    )
                &&& #[trigger] is_allocation(ivs, old(func).types@, order, a)
            },
        final(func).spill_bytes == a.slot_count * SLOT_BYTES,
        final(func).method_id == old(func).method_id,
        final(func).name == old(func).name,
        final(func).blocks == old(func).blocks,
        final(func).types == old(func).types,
        final(func).helper_ops == old(func).helper_ops,
        final(func).locals == old(func).locals,
        final(func).params == old(func).params,
        final(func).local_types == old(func).local_types,
        final(func).max_stack == old(func).max_stack,
        final(func).overflow_checks == old(func).overflow_checks,
{
    let n: usize = func.types.len();
    let ivs: Vec<Interval> = find_intervals(&func.blocks, n);
    let order: Vec<VReg> = find_order(&ivs, &func.types);
    proof {
        order_distinct(ivs@, func.types@, n as int, order@);
        order_short(order@, n as int);
    }
    let (assigned_homes, slots) = assign(&ivs, &func.types, &order);
    let ghost types = func.types@;
    proof {
        assigned_bounds(ivs@, types, order@, order@.len() as int);
    }
    let mut homes: Vec<Home> = Vec::new();
    let mut next: usize = slots;
    let mut v: usize = 0;
    proof {
        known_count(types, order@, n as int);
    }
    while v < n
        invariant
            v <= n,
            n == types.len(),
            n <= u32::MAX,
            n <= usize::MAX / 16,
            types == func.types@,
            homes@.len() == v,
            is_order(ivs@, types, n as int, order@),
            forall|i: int, j: int| 0 <= i < j < order@.len() ==> order@[i] != order@[j],
            assigned_homes@.len() == order@.len(),
            (assigned_homes@, slots as nat) == assigned(
                ivs@,
                types,
                order@,
                order@.len() as int,
            ),
            slots <= order@.len(),
            order@.len() + unknowns(types, n as int) <= n,
            next == slots + unknowns(types, v as int),
            forall|w: int| 0 <= w < v ==> (#[trigger] homes@[w]) == home_of(ivs@, types, order@, w),
        decreases n - v,
    {
        proof {
            unknowns_bounds(types, v as int, n as int);
            unknowns_bounds(types, v + 1, n as int);
        }
        if func.types[v].is_known() {
            let k: usize = find_place(&order, v as u32);
            proof {
                assert(order@.contains(v as u32));
                let at = choose|at: int| 0 <= at < order@.len() && order@[at] == v as u32;
                place_found(order@, v as u32, 0, at);
            }
            homes.push(assigned_homes[k]);
        } else {
            homes.push(Home::Slot(next));
            next = next + 1;
        }
        v = v + 1;
    }
    func.spill_bytes = next * SLOT_BYTES;
    let a: Allocation = Allocation { homes, slot_count: next };
    assert(is_allocation(ivs@, types, order@, a));
    a
}

/// Registers of a known type and of an unknown type make up all registers.
proof fn known_count(types: Seq<KType>, order: Seq<VReg>, n: int)
    requires
        0 <= n <= u32::MAX,
        n <= types.len(),
        forall|i: int, j: int| 0 <= i < j < order.len() ==> order[i] != order[j],
        forall|i: int|
            0 <= i < order.len() ==> (#[trigger] order[i]) < n && types[order[i] as int]
                != KType::Unknown,
    ensures
        order.len() + unknowns(types, n) <= n,
    decreases n,
{
    if n > 0 {
        if order.contains((n - 1) as u32) {
            let k = choose|k: int| 0 <= k < order.len() && order[k] == (n - 1) as u32;
            let rest = order.remove(k);
            assert forall|i: int, j: int| 0 <= i < j < rest.len() implies rest[i] != rest[j] by {
                let a = if i < k {
                    i
                } else {
                    i + 1
                };
                let b = if j < k {
                    j
                } else {
                    j + 1
                };
                assert(rest[i] == order[a]);
                assert(rest[j] == order[b]);
            }
            assert forall|i: int| 0 <= i < rest.len() implies (#[trigger] rest[i]) < n - 1 && types[
            rest[i] as int] != KType::Unknown by {
                let a = if i < k {
                    i
                } else {
                    i + 1
                };
                assert(rest[i] == order[a]);
                if a < k {
                    assert(order[a] != order[k]);
                } else {
                    assert(order[k] != order[a]);
                }
            }
            assert(types[order[k] as int] != KType::Unknown);
            known_count(types, rest, n - 1);
        } else {
            assert forall|i: int| 0 <= i < order.len() implies (#[trigger] order[i]) < n - 1
                && types[order[i] as int] != KType::Unknown by {
                if order[i] == n - 1 {
                    assert(order.contains((n - 1) as u32));
                }
            }
            known_count(types, order, n - 1);
        }
    } else if order.len() > 0 {
        assert(order[0] < 0);
    }
}

// ---------------------------------------------------------------------------
// Laws
// ---------------------------------------------------------------------------

/// What holds of the first `k` homes: each is a slot below the number of slots,
/// or a candidate of its value; two values with the same home share a register
/// and their intervals do not overlap.
spec fn fair(
    ivs: Seq<Interval>,
    types: Seq<KType>,
    order: Seq<VReg>,
    homes: Seq<Home>,
    slots: nat,
) -> bool {
    &&& forall|i: int|
        0 <= i < homes.len() ==> match #[trigger] homes[i] {
            Home::Slot(s) => s < slots,
            h => candidates(
                types[order[i] as int] == KType::Float,
                ivs[order[i] as int].crosses,
            ).contains(h),
        }
    &&& forall|i: int, j: int|
        0 <= i < j < homes.len() && #[trigger] homes[i] == #[trigger] homes[j] ==> {
            &&& !(homes[i] is Slot)
            &&& !overlap(ivs[order[j] as int], ivs[order[i] as int])
        }
}

proof fn first_free_is_free(
    ivs: Seq<Interval>,
    order: Seq<VReg>,
    homes: Seq<Home>,
    v: VReg,
    cands: Seq<Home>,
    c: int,
)
    requires
        0 <= c,
    ensures
        first_free(ivs, order, homes, v, cands, c) matches Some(h) ==> cands.contains(h)
            && free_for(ivs, order, homes, homes.len() as int, h, v),
    decreases cands.len() - c,
{
    if c < cands.len() {
        assert(cands.contains(cands[c]));
        first_free_is_free(ivs, order, homes, v, cands, c + 1);
    }
}

proof fn assigned_fair(ivs: Seq<Interval>, types: Seq<KType>, order: Seq<VReg>, k: int)
    requires
        0 <= k <= order.len(),
        order.len() <= usize::MAX,
    ensures
        fair(
            ivs,
            types,
            order,
            assigned(ivs, types, order, k).0,
            assigned(ivs, types, order, k).1,
        ),
    decreases k,
{
    if k > 0 {
        assigned_fair(ivs, types, order, k - 1);
        assigned_bounds(ivs, types, order, k - 1);
        let (homes, slots) = assigned(ivs, types, order, k - 1);
        let v = order[homes.len() as int];
        let cands = candidates(types[v as int] == KType::Float, ivs[v as int].crosses);
        first_free_is_free(ivs, order, homes, v, cands, 0);
        candidates_are_registers(types[v as int] == KType::Float, ivs[v as int].crosses);
        let (next, _) = assigned(ivs, types, order, k);
        assert forall|i: int, j: int|
            0 <= i < j < next.len() && #[trigger] next[i] == #[trigger] next[j] implies {
            &&& !(next[i] is Slot)
            &&& !overlap(ivs[order[j] as int], ivs[order[i] as int])
        } by {
            if j < k - 1 {
                assert(homes[i] == homes[j]);
            } else {
                assert(next[i] == homes[i]);
            }
        }
    }
}

proof fn candidates_are_registers(float: bool, crosses: bool)
    ensures
        forall|h: Home| #[trigger]
            candidates(float, crosses).contains(h) ==> if float {
                h is Xmm
            } else {
                h is Gpr
            },
{
    let c = candidates(float, crosses);
    assert forall|i: int| 0 <= i < c.len() implies if float {
        (#[trigger] c[i]) is Xmm
    } else {
        c[i] is Gpr
    } by {
        if i < callee_saved(float).len() {
            assert(c[i] == callee_saved(float)[i]);
        } else {
            assert(c[i] == caller_saved(float)[i - callee_saved(float).len()]);
        }
    }
}

/// Two values that are alive at the same time never share a home: two virtual
/// registers with the same home are in a machine register and their intervals
/// do not overlap. In particular no two share a spill slot, and every slot is
/// below the number of slots.
pub proof fn homes_do_not_clash(
    ivs: Seq<Interval>,
    types: Seq<KType>,
    order: Seq<VReg>,
    a: Allocation,
    u: int,
    v: int,
)
    requires
        types.len() <= u32::MAX,
        types.len() <= usize::MAX,
        is_allocation(ivs, types, order, a),
        0 <= u < types.len(),
        0 <= v < types.len(),
    ensures
        a.homes@[u] matches Home::Slot(s) ==> s < a.slot_count,
        u != v && a.homes@[u] == a.homes@[v] ==> !(a.homes@[u] is Slot) && !overlap(
            ivs[u],
            ivs[v],
        ),
{
    let k = order.len() as int;
    let n = types.len() as int;
    order_distinct(ivs, types, n, order);
    known_count(types, order, n);
    unknowns_bounds(types, 0, n);
    assigned_bounds(ivs, types, order, k);
    assigned_fair(ivs, types, order, k);
    if types[u] == KType::Unknown {
        slot_of_unknown(ivs, types, order, u);
    }
    if types[v] == KType::Unknown {
        slot_of_unknown(ivs, types, order, v);
    }
    if types[u] == KType::Unknown && types[v] == KType::Unknown {
        if u < v {
            unknowns_bounds(types, u + 1, v);
        } else if v < u {
            unknowns_bounds(types, v + 1, u);
        }
    }
    if types[u] != KType::Unknown {
        known_place(types, order, ivs, u);
    }
    if types[v] != KType::Unknown {
        known_place(types, order, ivs, v);
    }
}

proof fn known_place(types: Seq<KType>, order: Seq<VReg>, ivs: Seq<Interval>, v: int)
    requires
        types.len() <= u32::MAX,
        is_order(ivs, types, types.len() as int, order),
        0 <= v < types.len(),
        types[v] != KType::Unknown,
    ensures
        0 <= place_in(order, v as u32, 0) < order.len(),
        order[place_in(order, v as u32, 0)] == v,
{
    order_distinct(ivs, types, types.len() as int, order);
    assert(types[v as u32 as int] != KType::Unknown);
    assert(order.contains(v as u32));
    let at = choose|at: int| 0 <= at < order.len() && order[at] == v as u32;
    place_found(order, v as u32, 0, at);
}

proof fn slot_of_unknown(ivs: Seq<Interval>, types: Seq<KType>, order: Seq<VReg>, v: int)
    requires
        types.len() <= u32::MAX,
        types.len() <= usize::MAX,
        is_order(ivs, types, types.len() as int, order),
        0 <= v < types.len(),
        types[v] == KType::Unknown,
    ensures
        ({
            let slots = assigned(ivs, types, order, order.len() as int).1;
            &&& home_of(ivs, types, order, v) == Home::Slot((slots + unknowns(types, v)) as usize)
            &&& (slots + unknowns(types, v)) as usize == slots + unknowns(types, v)
            &&& slots + unknowns(types, v) < slots_of(ivs, types, order)
        }),
{
    let n = types.len() as int;
    order_distinct(ivs, types, n, order);
    known_count(types, order, n);
    assigned_bounds(ivs, types, order, order.len() as int);
    unknowns_bounds(types, v + 1, n);
}

/// What kind of home a value gets: a register of unknown type lives in a slot;
/// a double in an SSE register or a slot; any other value in a general purpose
/// register or a slot; and a value that lives across a helper call in a
/// callee-saved register or a slot.
pub proof fn homes_fit_types(
    ivs: Seq<Interval>,
    types: Seq<KType>,
    order: Seq<VReg>,
    a: Allocation,
    v: int,
)
    requires
        types.len() <= u32::MAX,
        types.len() <= usize::MAX,
        is_allocation(ivs, types, order, a),
        0 <= v < types.len(),
    ensures
        types[v] == KType::Unknown ==> a.homes@[v] is Slot,
        types[v] == KType::Float ==> !(a.homes@[v] is Gpr),
        types[v] != KType::Float ==> !(a.homes@[v] is Xmm),
        ivs[v].crosses && !(a.homes@[v] is Slot) ==> callee_saved(
            types[v] == KType::Float,
        ).contains(a.homes@[v]),
{
    if types[v] != KType::Unknown {
        known_place(types, order, ivs, v);
        order_distinct(ivs, types, types.len() as int, order);
        order_short(order, types.len() as int);
        assigned_fair(ivs, types, order, order.len() as int);
        assigned_bounds(ivs, types, order, order.len() as int);
        candidates_are_registers(types[v] == KType::Float, ivs[v].crosses);
    } else {
        slot_of_unknown(ivs, types, order, v);
    }
}

} // verus!
