//! Control-flow graph of a method body.

use crate::bytecode::Op;
use crate::text::{cat3, dec, dec_u64};
use vstd::prelude::*;

verus! {

/// The position that a branch goes to.
pub open spec fn branch_target(op: Op) -> Option<usize> {
    match op {
        Op::Br(t) => Some(t as usize),
        Op::BrTrue(t) => Some(t as usize),
        Op::BrFalse(t) => Some(t as usize),
        _ => None,
    }
}

/// Whether the operation ends a block.
pub open spec fn control(op: Op) -> bool {
    op is Br || op is BrFalse || op is BrTrue || op is Ret || op is Throw
}

/// One of the first `m` operations branches to `i`.
pub open spec fn targeted(body: Seq<Op>, i: int, m: int) -> bool {
    exists|j: int| 0 <= j < m && branch_target(#[trigger] body[j]) == Some(i as usize)
}

/// Whether a block starts at `i`: at the entry, at the target of a branch, and
/// behind an operation that ends a block.
pub open spec fn starts_block(body: Seq<Op>, i: int) -> bool {
    ||| i == 0
    ||| 0 <= i < body.len() && targeted(body, i, body.len() as int)
    ||| 0 < i < body.len() && control(body[i - 1])
}

/// The starts of the blocks at or after `i`, in ascending order.
pub open spec fn starts_from(body: Seq<Op>, i: int) -> Seq<usize>
    decreases body.len() + 1 - i,
{
    if i < 0 || i > body.len() {
        seq![]
    } else if starts_block(body, i) {
        seq![i as usize] + starts_from(body, i + 1)
    } else {
        starts_from(body, i + 1)
    }
}

/// The starts of all blocks.
pub open spec fn block_starts(body: Seq<Op>) -> Seq<usize> {
    starts_from(body, 0)
}

/// The blocks: each reaches from its start to the next one.
pub open spec fn block_ranges(body: Seq<Op>) -> Seq<(usize, usize)> {
    let starts = block_starts(body);
    Seq::new(
        starts.len(),
        |k: int|
            (starts[k], if k + 1 < starts.len() {
                starts[k + 1]
            } else {
                body.len() as usize
            }),
    )
}

/// The block that starts at `pc`, tried from block `k`.
pub open spec fn block_from(ranges: Seq<(usize, usize)>, pc: int, k: int) -> Option<usize>
    decreases ranges.len() - k,
{
    if k < 0 || k >= ranges.len() {
        None
    } else if ranges[k].0 == pc {
        Some(k as usize)
    } else {
        block_from(ranges, pc, k + 1)
    }
}

/// The block that starts at `pc`.
pub open spec fn block_at(ranges: Seq<(usize, usize)>, pc: int) -> Option<usize> {
    block_from(ranges, pc, 0)
}

/// The last operation of `[s, e)` that ends a block.
pub open spec fn last_control(body: Seq<Op>, s: int, e: int) -> Option<int>
    decreases e - s,
{
    if e <= s {
        None
    } else if control(body[e - 1]) {
        Some(e - 1)
    } else {
        last_control(body, s, e - 1)
    }
}

/// Where the straight-line part of the block `[s, e)` ends: at the operation
/// that ends the block, or at `e` if it falls through.
pub open spec fn terminator(body: Seq<Op>, s: int, e: int) -> int {
    match last_control(body, s, e) {
        Some(t) => t,
        None => e,
    }
}

/// The complaint about a branch to `pc`.
pub open spec fn not_a_block(pc: int) -> Seq<char> {
    "branch target "@ + dec(pc as nat) + " is not a block"@
}

/// The block at the target of a branch.
pub open spec fn target_block(ranges: Seq<(usize, usize)>, pc: int) -> Result<usize, Seq<char>> {
    match block_at(ranges, pc) {
        Some(b) => Ok(b),
        None => Err(not_a_block(pc)),
    }
}

/// The successors of a block.
pub open spec fn block_succs(body: Seq<Op>, ranges: Seq<(usize, usize)>, b: int) -> Result<
    Seq<usize>,
    Seq<char>,
> {
    let (s, e) = ranges[b];
    let t = terminator(body, s as int, e as int);
    if t >= e {
        match block_at(ranges, e as int) {
            Some(f) => Ok(seq![f]),
            None => Ok(seq![]),
        }
    } else {
        match body[t] {
            Op::Br(off) => match target_block(ranges, off as int) {
                Ok(target) => Ok(seq![target]),
                Err(m) => Err(m),
            },
            Op::BrFalse(off) => cond_succs(ranges, off as int, t + 1),
            Op::BrTrue(off) => cond_succs(ranges, off as int, t + 1),
            _ => Ok(seq![]),
        }
    }
}

/// The successors of a block that ends in a conditional branch.
pub open spec fn cond_succs(ranges: Seq<(usize, usize)>, off: int, fall: int) -> Result<
    Seq<usize>,
    Seq<char>,
> {
    match target_block(ranges, off) {
        Ok(target) => match block_at(ranges, fall) {
            Some(f) => if f != target {
                Ok(seq![target, f])
            } else {
                Ok(seq![target])
            },
            None => Ok(seq![target]),
        },
        Err(m) => Err(m),
    }
}

/// The successors of the blocks at or after `b`; the first bad branch is an error.
pub open spec fn succs_from(body: Seq<Op>, ranges: Seq<(usize, usize)>, b: int) -> Result<
    Seq<Seq<usize>>,
    Seq<char>,
>
    decreases ranges.len() - b,
{
    if b < 0 || b >= ranges.len() {
        Ok(seq![])
    } else {
        match block_succs(body, ranges, b) {
            Err(m) => Err(m),
            Ok(first) => match succs_from(body, ranges, b + 1) {
                Err(m) => Err(m),
                Ok(rest) => Ok(seq![first] + rest),
            },
        }
    }
}

/// The predecessors of block `b` among the first `k` blocks.
pub open spec fn preds_upto(succs: Seq<Seq<usize>>, b: int, k: int) -> Seq<usize>
    decreases k,
{
    if k <= 0 {
        seq![]
    } else if succs[k - 1].contains(b as usize) {
        preds_upto(succs, b, k - 1).push((k - 1) as usize)
    } else {
        preds_upto(succs, b, k - 1)
    }
}

/// Values of a list of lists.
pub open spec fn lists(v: Seq<Vec<usize>>) -> Seq<Seq<usize>> {
    Seq::new(v.len(), |i: int| v[i]@)
}

/// The control-flow graph.
pub struct Cfg {
    /// Start and end of each block.
    pub ranges: Vec<(usize, usize)>,
    /// Successors of each block.
    pub succs: Vec<Vec<usize>>,
    /// Predecessors of each block.
    pub preds: Vec<Vec<usize>>,
}

impl Cfg {
    /// This is the graph of `body`.
    pub open spec fn graph_of(&self, body: Seq<Op>) -> bool {
        &&& self.ranges@ == block_ranges(body)
        &&& succs_from(body, self.ranges@, 0) == Ok::<Seq<Seq<usize>>, Seq<char>>(
            lists(self.succs@),
        )
        &&& self.succs@.len() == self.ranges@.len()
        &&& self.preds@.len() == self.ranges@.len()
        &&& forall|b: int|
            0 <= b < self.preds@.len() ==> (#[trigger] self.preds@[b])@ == preds_upto(
                lists(self.succs@),
                b,
                self.succs@.len() as int,
            )
    }
}

// ---------------------------------------------------------------------------
// Facts about blocks
// ---------------------------------------------------------------------------

proof fn starts_from_bounds(body: Seq<Op>, i: int)
    requires
        0 <= i,
        body.len() < usize::MAX,
    ensures
        forall|k: int|
            0 <= k < starts_from(body, i).len() ==> i <= (#[trigger] starts_from(body, i)[k])
                <= body.len(),
        forall|k: int, l: int|
            0 <= k < l < starts_from(body, i).len() ==> (#[trigger] starts_from(body, i)[k]) < (
            #[trigger] starts_from(body, i)[l]),
        i <= body.len() + 1 ==> starts_from(body, i).len() <= body.len() + 1 - i,
    decreases body.len() + 1 - i,
{
    if i <= body.len() {
        starts_from_bounds(body, i + 1);
        let rest = starts_from(body, i + 1);
        let all = starts_from(body, i);
        if starts_block(body, i) {
            assert(all == seq![i as usize] + rest);
            assert forall|k: int| 0 <= k < all.len() implies i <= (#[trigger] all[k])
                <= body.len() by {
                if k > 0 {
                    assert(all[k] == rest[k - 1]);
                }
            }
            assert forall|k: int, l: int| 0 <= k < l < all.len() implies (#[trigger] all[k]) < (
            #[trigger] all[l]) by {
                assert(all[l] == rest[l - 1]);
                if k > 0 {
                    assert(all[k] == rest[k - 1]);
                }
            }
        }
    }
}

/// The blocks are not empty lists of positions: there is one, they ascend, and
/// they stay within the body.
pub proof fn block_ranges_bounds(body: Seq<Op>)
    requires
        body.len() < usize::MAX,
    ensures
        0 < block_ranges(body).len() <= body.len() + 1,
        block_ranges(body)[0].0 == 0,
        forall|k: int|
            0 <= k < block_ranges(body).len() ==> (#[trigger] block_ranges(body)[k]).0
                <= block_ranges(body)[k].1 <= body.len(),
{
    starts_from_bounds(body, 0);
    assert(starts_block(body, 0));
    assert(starts_from(body, 0) == seq![0usize] + starts_from(body, 1));
    let starts = block_starts(body);
    assert(starts[0] == 0);
    assert forall|k: int| 0 <= k < block_ranges(body).len() implies (#[trigger] block_ranges(
        body,
    )[k]).0 <= block_ranges(body)[k].1 <= body.len() by {
        assert(starts[k] <= body.len());
        if k + 1 < starts.len() {
            assert(starts[k] < starts[k + 1]);
            assert(starts[k + 1] <= body.len());
        }
    }
}

/// A block that is found is one of the blocks.
pub proof fn block_from_bounds(ranges: Seq<(usize, usize)>, pc: int, k: int)
    requires
        0 <= k,
        ranges.len() <= usize::MAX,
    ensures
        block_from(ranges, pc, k) matches Some(b) ==> b < ranges.len() && ranges[b as int].0 == pc,
    decreases ranges.len() - k,
{
    if k < ranges.len() && ranges[k].0 != pc {
        block_from_bounds(ranges, pc, k + 1);
    }
}

proof fn last_control_bounds(body: Seq<Op>, s: int, e: int)
    ensures
        last_control(body, s, e) matches Some(t) ==> s <= t < e && control(body[t]),
    decreases e - s,
{
    if e > s && !control(body[e - 1]) {
        last_control_bounds(body, s, e - 1);
    }
}

/// The end of the straight-line part lies in the block.
pub proof fn terminator_bounds(body: Seq<Op>, s: int, e: int)
    requires
        s <= e,
    ensures
        s <= terminator(body, s, e) <= e,
        terminator(body, s, e) < e ==> control(body[terminator(body, s, e)]),
{
    last_control_bounds(body, s, e);
}

/// Every successor is a block.
pub proof fn block_succs_bounds(body: Seq<Op>, ranges: Seq<(usize, usize)>, b: int)
    requires
        ranges.len() <= usize::MAX,
    ensures
        block_succs(body, ranges, b) matches Ok(ss) ==> forall|k: int|
            0 <= k < ss.len() ==> (#[trigger] ss[k]) < ranges.len(),
{
    let (s, e) = ranges[b];
    let t = terminator(body, s as int, e as int);
    block_from_bounds(ranges, e as int, 0);
    block_from_bounds(ranges, t + 1, 0);
    if t < e {
        match body[t] {
            Op::Br(off) => {
                block_from_bounds(ranges, off as int, 0);
            },
            Op::BrFalse(off) => {
                block_from_bounds(ranges, off as int, 0);
            },
            Op::BrTrue(off) => {
                block_from_bounds(ranges, off as int, 0);
            },
            _ => {},
        }
    }
}

/// The successors of all blocks, one by one.
pub proof fn succs_from_index(body: Seq<Op>, ranges: Seq<(usize, usize)>, b: int)
    requires
        0 <= b <= ranges.len(),
    ensures
        succs_from(body, ranges, b) matches Ok(all) ==> {
            &&& all.len() == ranges.len() - b
            &&& forall|k: int|
                0 <= k < all.len() ==> block_succs(body, ranges, b + k) == Ok::<
                    Seq<usize>,
                    Seq<char>,
                >(#[trigger] all[k])
        },
    decreases ranges.len() - b,
{
    if b < ranges.len() {
        succs_from_index(body, ranges, b + 1);
        if let Ok(all) = succs_from(body, ranges, b) {
            let rest = succs_from(body, ranges, b + 1)->Ok_0;
            assert forall|k: int| 0 <= k < all.len() implies block_succs(body, ranges, b + k) == Ok::<
                Seq<usize>,
                Seq<char>,
            >(#[trigger] all[k]) by {
                if k > 0 {
                    assert(all[k] == rest[k - 1]);
                    assert(b + k == b + 1 + (k - 1));
                }
            }
        }
    }
}

// ---------------------------------------------------------------------------
// Construction
// ---------------------------------------------------------------------------

/// Whether the operation ends a block.
pub fn is_control(op: &Op) -> (b: bool)
    ensures
        b == control(*op),
{
    matches!(op, Op::Br(_) | Op::BrFalse(_) | Op::BrTrue(_) | Op::Ret | Op::Throw)
}

fn jump_target(op: &Op) -> (r: Option<usize>)
    ensures
        r == branch_target(*op),
{
    match op {
        Op::Br(t) => Some(*t as usize),
        Op::BrTrue(t) => Some(*t as usize),
        Op::BrFalse(t) => Some(*t as usize),
        _ => None,
    }
}

/// Which positions start a block.
fn mark_starts(body: &Vec<Op>) -> (marks: Vec<bool>)
    requires
        body@.len() < usize::MAX,
    ensures
        marks@.len() == body@.len() + 1,
        forall|i: int| 0 <= i <= body@.len() ==> marks@[i] == starts_block(body@, i),
{
    let n: usize = body.len();
    let mut marks: Vec<bool> = Vec::new();
    let mut i: usize = 0;
    while i <= n
        invariant
            i <= n + 1,
            n == body@.len(),
            n < usize::MAX,
            marks@.len() == i,
            forall|k: int| 0 <= k < i ==> marks@[k] == (k == 0 || (0 < k < n && control(body@[k - 1]))),
        decreases n + 1 - i,
    {
        let m: bool = if i == 0 {
            true
        } else if i < n {
            is_control(&body[i - 1])
        } else {
            false
        };
        marks.push(m);
        i = i + 1;
    }
    let ghost base = marks@;
    let mut j: usize = 0;
    while j < n
        invariant
            j <= n,
            n == body@.len(),
            marks@.len() == n + 1,
            base.len() == n + 1,
            forall|k: int| 0 <= k <= n ==> base[k] == (k == 0 || (0 < k < n && control(body@[k - 1]))),
            forall|k: int|
                0 <= k <= n ==> marks@[k] == (base[k] || (k < n && targeted(body@, k, j as int))),
        decreases n - j,
    {
        let target: Option<usize> = jump_target(&body[j]);
        let ghost before = marks@;
        if let Some(t) = target {
            if t < n {
                marks.set(t, true);
            }
        }
        proof {
            assert forall|k: int| 0 <= k <= n implies marks@[k] == (base[k] || (k < n && targeted(
                body@,
                k,
                j + 1,
            ))) by {
                assert(before[k] == (base[k] || (k < n && targeted(body@, k, j as int))));
                if branch_target(body@[j as int]) == Some(k as usize) {
                    assert(targeted(body@, k, j + 1));
                    assert(k < n ==> marks@[k]);
                    assert(k == n ==> marks@[k] == before[k]);
                } else {
                    assert(targeted(body@, k, j + 1) == targeted(body@, k, j as int));
                    assert(marks@[k] == before[k]);
                }
            }
        }
        j = j + 1;
    }
    proof {
        assert forall|i: int| 0 <= i <= n implies marks@[i] == starts_block(body@, i) by {
            assert(marks@[i] == (base[i] || (i < n && targeted(body@, i, n as int))));
            assert(base[i] == (i == 0 || (0 < i < n && control(body@[i - 1]))));
        }
    }
    marks
}

fn find_block(ranges: &Vec<(usize, usize)>, pc: usize) -> (r: Option<usize>)
    ensures
        r == block_at(ranges@, pc as int),
{
    let mut k: usize = 0;
    while k < ranges.len()
        invariant
            k <= ranges.len(),
            block_at(ranges@, pc as int) == block_from(ranges@, pc as int, k as int),
        decreases ranges.len() - k,
    {
        if ranges[k].0 == pc {
            return Some(k);
        }
        k = k + 1;
    }
    None
}

/// The block that starts at `pc`.
pub fn lookup_block(ranges: &Vec<(usize, usize)>, pc: usize) -> (r: Option<usize>)
    ensures
        r == block_at(ranges@, pc as int),
{
    find_block(ranges, pc)
}

/// The block at the target of a branch.
pub fn block(ranges: &Vec<(usize, usize)>, pc: usize) -> (r: Result<usize, String>)
    ensures
        match r {
            Ok(b) => target_block(ranges@, pc as int) == Ok::<usize, Seq<char>>(b),
            Err(m) => target_block(ranges@, pc as int) == Err::<usize, Seq<char>>(m@),
        },
{
    match find_block(ranges, pc) {
        Some(b) => Ok(b),
        None => {
            let digits: String = dec_u64(pc as u64);
            Err(cat3("branch target ", digits.as_str(), " is not a block"))
        },
    }
}

/// Index of the control-flow operation that ends block `[s, e)`.
pub fn find_terminator(body: &Vec<Op>, s: usize, e: usize) -> (t: usize)
    requires
        s <= e <= body@.len(),
    ensures
        t == terminator(body@, s as int, e as int),
{
    let mut t: usize = e;
    while t > s
        invariant
            s <= t <= e <= body@.len(),
            last_control(body@, s as int, e as int) == last_control(body@, s as int, t as int),
        decreases t - s,
    {
        if is_control(&body[t - 1]) {
            return t - 1;
        }
        t = t - 1;
    }
    e
}

fn succs_of(body: &Vec<Op>, ranges: &Vec<(usize, usize)>, b: usize) -> (r: Result<Vec<usize>, String>)
    requires
        body@.len() < usize::MAX,
        b < ranges@.len(),
        ranges@[b as int].0 <= ranges@[b as int].1 <= body@.len(),
    ensures
        match r {
            Ok(v) => block_succs(body@, ranges@, b as int) == Ok::<Seq<usize>, Seq<char>>(v@),
            Err(m) => block_succs(body@, ranges@, b as int) == Err::<Seq<usize>, Seq<char>>(m@),
        },
{
    let (s, e) = ranges[b];
    let t: usize = find_terminator(body, s, e);
    proof {
        terminator_bounds(body@, s as int, e as int);
    }
    let mut out: Vec<usize> = Vec::new();
    if t >= e {
        if let Some(f) = find_block(ranges, e) {
            out.push(f);
            assert(out@ =~= seq![f]);
        } else {
            assert(out@ =~= seq![]);
        }
        return Ok(out);
    }
    match &body[t] {
        Op::Br(off) => {
            let target: usize = block(ranges, *off as usize)?;
            out.push(target);
            assert(out@ =~= seq![target]);
        },
        Op::BrFalse(off) | Op::BrTrue(off) => {
            let target: usize = block(ranges, *off as usize)?;
            out.push(target);
            assert(out@ =~= seq![target]);
            if let Some(f) = find_block(ranges, t + 1) {
                if f != target {
                    out.push(f);
                    assert(out@ =~= seq![target, f]);
                }
            }
        },
        _ => {
            assert(out@ =~= seq![]);
        },
    }
    Ok(out)
}

fn list_contains(v: &Vec<usize>, x: usize) -> (r: bool)
    ensures
        r == v@.contains(x),
{
    let mut i: usize = 0;
    while i < v.len()
        invariant
            i <= v.len(),
            forall|j: int| 0 <= j < i ==> v@[j] != x,
        decreases v.len() - i,
    {
        if v[i] == x {
            assert(v@.contains(x));
            return true;
        }
        i = i + 1;
    }
    false
}

fn ranges_of(body: &Vec<Op>) -> (ranges: Vec<(usize, usize)>)
    requires
        body@.len() < usize::MAX,
    ensures
        ranges@ == block_ranges(body@),
{
    let n: usize = body.len();
    let marks: Vec<bool> = mark_starts(body);
    let mut starts: Vec<usize> = Vec::new();
    let mut i: usize = 0;
    proof {
        assert(starts@ + starts_from(body@, 0) =~= block_starts(body@));
    }
    while i <= n
        invariant
            i <= n + 1,
            n == body@.len(),
            n < usize::MAX,
            marks@.len() == n + 1,
            forall|k: int| 0 <= k <= n ==> marks@[k] == starts_block(body@, k),
            starts@ + starts_from(body@, i as int) == block_starts(body@),
        decreases n + 1 - i,
    {
        let ghost before = starts@;
        if marks[i] {
            starts.push(i);
        }
        i = i + 1;
        proof {
            assert(starts@ + starts_from(body@, i as int) =~= before + starts_from(
                body@,
                i - 1,
            ));
        }
    }
    assert(starts@ =~= block_starts(body@));
    let mut ranges: Vec<(usize, usize)> = Vec::new();
    let mut k: usize = 0;
    while k < starts.len()
        invariant
            k <= starts.len(),
            n == body@.len(),
            starts@ == block_starts(body@),
            ranges@ == block_ranges(body@).take(k as int),
        decreases starts.len() - k,
    {
        let end: usize = if k + 1 < starts.len() {
            starts[k + 1]
        } else {
            n
        };
        ranges.push((starts[k], end));
        k = k + 1;
        assert(ranges@ =~= block_ranges(body@).take(k as int));
    }
    assert(ranges@ =~= block_ranges(body@));
    ranges
}

fn preds_of(succs: &Vec<Vec<usize>>) -> (preds: Vec<Vec<usize>>)
    ensures
        preds@.len() == succs@.len(),
        forall|b: int|
            0 <= b < preds@.len() ==> (#[trigger] preds@[b])@ == preds_upto(
                lists(succs@),
                b,
                succs@.len() as int,
            ),
{
    let mut preds: Vec<Vec<usize>> = Vec::new();
    let mut b: usize = 0;
    while b < succs.len()
        invariant
            b <= succs.len(),
            preds@.len() == b,
            forall|c: int|
                0 <= c < b ==> (#[trigger] preds@[c])@ == preds_upto(
                    lists(succs@),
                    c,
                    succs@.len() as int,
                ),
        decreases succs.len() - b,
    {
        let mut mine: Vec<usize> = Vec::new();
        let mut k: usize = 0;
        while k < succs.len()
            invariant
                k <= succs.len(),
                mine@ == preds_upto(lists(succs@), b as int, k as int),
            decreases succs.len() - k,
        {
            assert(lists(succs@)[k as int] == succs@[k as int]@);
            if list_contains(&succs[k], b) {
                mine.push(k);
            }
            k = k + 1;
        }
        preds.push(mine);
        b = b + 1;
    }
    preds
}

/// Build the control-flow graph of a method body.
pub fn build_cfg(body: &Vec<Op>) -> (r: Result<Cfg, String>)
    requires
        body@.len() < usize::MAX,
    ensures
        match r {
            Ok(g) => g.graph_of(body@),
            Err(m) => succs_from(body@, block_ranges(body@), 0) == Err::<
                Seq<Seq<usize>>,
                Seq<char>,
            >(m@),
        },
{
    let ranges: Vec<(usize, usize)> = ranges_of(body);
    proof {
        block_ranges_bounds(body@);
    }
    let mut succs: Vec<Vec<usize>> = Vec::new();
    let mut b: usize = 0;
    let ghost total = succs_from(body@, ranges@, 0);
    proof {
        if let Ok(all) = total {
            assert(lists(succs@) + all =~= all);
        }
    }
    while b < ranges.len()
        invariant
            b <= ranges.len(),
            body@.len() < usize::MAX,
            ranges@ == block_ranges(body@),
            succs@.len() == b,
            total == succs_from(body@, ranges@, 0),
            forall|k: int|
                0 <= k < ranges@.len() ==> (#[trigger] ranges@[k]).0 <= ranges@[k].1 <= body@.len(),
            match succs_from(body@, ranges@, b as int) {
                Ok(rest) => total == Ok::<Seq<Seq<usize>>, Seq<char>>(lists(succs@) + rest),
                Err(m) => total == Err::<Seq<Seq<usize>>, Seq<char>>(m),
            },
        decreases ranges.len() - b,
    {
        let ghost before = lists(succs@);
        match succs_of(body, &ranges, b) {
            Err(m) => {
                return Err(m);
            },
            Ok(v) => {
                succs.push(v);
                proof {
                    assert(lists(succs@) =~= before.push(v@));
                    if let Ok(rest) = succs_from(body@, ranges@, b + 1) {
                        assert(before + (seq![v@] + rest) =~= lists(succs@) + rest);
                    }
                }
            },
        }
        b = b + 1;
    }
    proof {
        assert(lists(succs@) + Seq::<Seq<usize>>::empty() =~= lists(succs@));
    }
    let preds: Vec<Vec<usize>> = preds_of(&succs);
    Ok(Cfg { ranges, succs, preds })
}

// ---------------------------------------------------------------------------
// Reachability
// ---------------------------------------------------------------------------

/// `path` follows edges of the graph from the entry block.
pub open spec fn is_path(succs: Seq<Seq<usize>>, path: Seq<int>) -> bool {
    &&& path.len() > 0
    &&& path[0] == 0
    &&& forall|k: int| 0 <= k < path.len() ==> 0 <= #[trigger] path[k] < succs.len()
    &&& forall|k: int|
        0 <= k < path.len() - 1 ==> succs[#[trigger] path[k]].contains(path[k + 1] as usize)
}

/// Block `b` can be reached from the entry block.
pub open spec fn reaches(succs: Seq<Seq<usize>>, b: int) -> bool {
    exists|path: Seq<int>| #[trigger] is_path(succs, path) && path.last() == b
}

proof fn path_marked(succs: Seq<Seq<usize>>, marks: Seq<bool>, path: Seq<int>, k: int)
    requires
        marks.len() == succs.len(),
        succs.len() <= usize::MAX,
        is_path(succs, path),
        marks[0],
        forall|a: int, j: int|
            0 <= a < succs.len() && marks[a] && 0 <= j < succs[a].len() && succs[a][j]
                < succs.len() ==> marks[(#[trigger] succs[a][j]) as int],
        0 <= k < path.len(),
    ensures
        marks[path[k]],
    decreases k,
{
    if k > 0 {
        path_marked(succs, marks, path, k - 1);
        let a = path[k - 1];
        assert(succs[a].contains(path[k] as usize));
        let j = choose|j: int| 0 <= j < succs[a].len() && succs[a][j] == path[k] as usize;
        assert(marks[succs[a][j] as int]);
    }
}

/// How many entries of `marks` are false.
pub open spec fn unmarked(marks: Seq<bool>) -> nat
    decreases marks.len(),
{
    if marks.len() == 0 {
        0
    } else {
        unmarked(marks.drop_last()) + (if marks.last() {
            0nat
        } else {
            1nat
        })
    }
}

/// Setting a mark leaves one fewer unmarked.
pub proof fn unmarked_update(marks: Seq<bool>, i: int)
    requires
        0 <= i < marks.len(),
        !marks[i],
    ensures
        unmarked(marks.update(i, true)) + 1 == unmarked(marks),
    decreases marks.len(),
{
    let next = marks.update(i, true);
    if i == marks.len() - 1 {
        assert(next.drop_last() =~= marks.drop_last());
    } else {
        assert(next.drop_last() =~= marks.drop_last().update(i, true));
        unmarked_update(marks.drop_last(), i);
    }
}

/// Which blocks can be reached from the entry block.
pub fn reachable_blocks(succs: &Vec<Vec<usize>>) -> (marks: Vec<bool>)
    requires
        succs@.len() > 0,
        forall|b: int, j: int|
            0 <= b < succs@.len() && 0 <= j < succs@[b]@.len() ==> (#[trigger] succs@[b]@[j])
                < succs@.len(),
    ensures
        marks@.len() == succs@.len(),
        forall|b: int| 0 <= b < succs@.len() ==> (#[trigger] marks@[b]) == reaches(lists(succs@), b),
{
    let n: usize = succs.len();
    let ghost ss = lists(succs@);
    let mut marks: Vec<bool> = Vec::new();
    while marks.len() < n
        invariant
            marks@.len() <= n,
            forall|k: int| 0 <= k < marks@.len() ==> !marks@[k],
        decreases n - marks.len(),
    {
        marks.push(false);
    }
    let mut queue: Vec<usize> = Vec::new();
    marks.set(0, true);
    queue.push(0);
    proof {
        let start = seq![0int];
        assert(is_path(ss, start) && start.last() == 0);
        assert(queue@[0] == 0);
    }
    // Marked blocks wait in the queue until their successors are marked too.
    while queue.len() > 0
        invariant
            n == succs@.len(),
            n > 0,
            ss == lists(succs@),
            marks@.len() == n,
            marks@[0],
            forall|b: int, j: int|
                0 <= b < succs@.len() && 0 <= j < succs@[b]@.len() ==> (#[trigger] succs@[b]@[j])
                    < succs@.len(),
            forall|k: int| 0 <= k < queue@.len() ==> (#[trigger] queue@[k]) < n && marks@[queue@[k] as int],
            forall|b: int| 0 <= b < n && #[trigger] marks@[b] ==> reaches(ss, b),
            forall|a: int, j: int|
                0 <= a < n && marks@[a] && 0 <= j < succs@[a]@.len() && !queue@.contains(a as usize)
                    ==> marks@[(#[trigger] succs@[a]@[j]) as int],
        decreases unmarked(marks@), queue.len(),
    {
        let last: usize = queue.len() - 1;
        let b: usize = queue[last];
        let ghost queue0 = queue@;
        queue.truncate(last);
        proof {
            assert(marks@[b as int]);
            assert(queue@ =~= queue0.drop_last());
            assert(queue0.last() == b);
        }
        let ghost pending = queue@;
        let mut j: usize = 0;
        let ghost marks0 = marks@;
        proof {
            assert forall|a: int, i: int|
                0 <= a < n && marks@[a] && 0 <= i < succs@[a]@.len() && !queue@.contains(a as usize)
                    && a != b implies marks@[(#[trigger] succs@[a]@[i]) as int] by {
                if queue0.contains(a as usize) {
                    let w = choose|w: int| 0 <= w < queue0.len() && queue0[w] == a as usize;
                    assert(queue@[w] == a as usize);
                }
            }
        }
        while j < succs[b as usize].len()
            invariant
                n == succs@.len(),
                ss == lists(succs@),
                b < n,
                j <= succs@[b as int]@.len(),
                marks@.len() == n,
                marks@[0],
                marks@[b as int],
                forall|b: int, j: int|
                    0 <= b < succs@.len() && 0 <= j < succs@[b]@.len() ==> (
                    #[trigger] succs@[b]@[j]) < succs@.len(),
                forall|k: int|
                    0 <= k < queue@.len() ==> (#[trigger] queue@[k]) < n && marks@[queue@[k] as int],
                forall|b: int| 0 <= b < n && #[trigger] marks@[b] ==> reaches(ss, b),
                forall|a: int, i: int|
                    0 <= a < n && marks@[a] && 0 <= i < succs@[a]@.len() && !queue@.contains(
                        a as usize,
                    ) && a != b ==> marks@[(#[trigger] succs@[a]@[i]) as int],
                forall|i: int| 0 <= i < j ==> marks@[(#[trigger] succs@[b as int]@[i]) as int],
                unmarked(marks@) < unmarked(marks0) || (marks@ == marks0 && queue@ == pending),
            decreases succs@[b as int]@.len() - j,
        {
            let s: usize = succs[b as usize][j];
            assert(succs@[b as int]@[j as int] < succs@.len());
            if !marks[s] {
                let ghost before = marks@;
                let ghost queue1 = queue@;
                marks.set(s, true);
                queue.push(s);
                proof {
                    unmarked_update(before, s as int);
                    let path = choose|path: Seq<int>|
                        #[trigger] is_path(ss, path) && path.last() == b as int;
                    assert(reaches(ss, b as int));
                    let longer = path.push(s as int);
                    assert(ss[b as int].contains(s)) by {
                        assert(ss[b as int][j as int] == s);
                    }
                    assert forall|k: int| 0 <= k < longer.len() - 1 implies ss[
                    #[trigger] longer[k]].contains(longer[k + 1] as usize) by {
                        if k < path.len() - 1 {
                            assert(longer[k] == path[k]);
                            assert(longer[k + 1] == path[k + 1]);
                        }
                    }
                    assert(is_path(ss, longer));
                    assert(longer.last() == s);
                    assert(reaches(ss, s as int));
                    assert(queue@.contains(s)) by {
                        assert(queue@[queue1.len() as int] == s);
                    }
                    assert forall|a: int, i: int|
                        0 <= a < n && marks@[a] && 0 <= i < succs@[a]@.len() && !queue@.contains(
                            a as usize,
                        ) && a != b implies marks@[(#[trigger] succs@[a]@[i]) as int] by {
                        if queue1.contains(a as usize) {
                            let w = choose|w: int|
                                0 <= w < queue1.len() && queue1[w] == a as usize;
                            assert(queue@[w] == a as usize);
                        }
                    }
                }
            }
            j = j + 1;
        }
        proof {
            assert forall|a: int, i: int|
                0 <= a < n && marks@[a] && 0 <= i < succs@[a]@.len() && !queue@.contains(a as usize)
                    implies marks@[(#[trigger] succs@[a]@[i]) as int] by {
                if a == b {
                    assert(marks@[succs@[b as int]@[i] as int]);
                }
            }
        }
    }
    proof {
        assert forall|b: int| 0 <= b < n implies (#[trigger] marks@[b]) == reaches(ss, b) by {
            if reaches(ss, b) {
                let path = choose|path: Seq<int>|
                    #[trigger] is_path(ss, path) && path.last() == b;
                assert forall|a: int, j: int|
                    0 <= a < ss.len() && marks@[a] && 0 <= j < ss[a].len() && ss[a][j]
                        < ss.len() implies marks@[(#[trigger] ss[a][j]) as int] by {
                    assert(ss[a][j] == succs@[a]@[j]);
                }
                path_marked(ss, marks@, path, path.len() - 1);
            }
        }
    }
    marks
}

} // verus!
