//! Live intervals of virtual registers.

use crate::jit::cfg::{unmarked, unmarked_update};
use crate::jit::ir::{
    blocks_model, defined_by, used_by, Block, BlockModel, Insn, InsnModel, Term, VReg,
};
use vstd::prelude::*;

verus! {

// ---------------------------------------------------------------------------
// Where a register is used and defined
// ---------------------------------------------------------------------------

/// The register that a terminator uses.
pub open spec fn term_reg(t: Term) -> Option<VReg> {
    match t {
        Term::Ret(v) => Some(v),
        Term::BrTrue(v, _) => Some(v),
        Term::BrFalse(v, _) => Some(v),
        _ => None,
    }
}

/// `v` is a source of one of the first `n` lists of moves.
pub open spec fn moved_upto(moves: Seq<(usize, Seq<(VReg, VReg)>)>, n: int, v: VReg) -> bool {
    exists|a: int, i: int|
        0 <= a < n && 0 <= i < moves[a].1.len() && (#[trigger] moves[a].1[i]).1 == v
}

/// `v` is needed at the end of the block, by its terminator or by a move.
pub open spec fn used_at_end(b: BlockModel, v: VReg) -> bool {
    term_reg(b.term) == Some(v) || moved_upto(b.moves, b.moves.len() as int, v)
}

/// The last of the first `n` instructions that uses `v`.
pub open spec fn last_use(insns: Seq<InsnModel>, v: VReg, n: int) -> Option<int>
    decreases n,
{
    if n <= 0 {
        None
    } else if used_by(insns[n - 1]).contains(v) {
        Some(n - 1)
    } else {
        last_use(insns, v, n - 1)
    }
}

/// The first instruction from `i` on that defines `v`.
pub open spec fn first_def(insns: Seq<InsnModel>, v: VReg, i: int) -> Option<int>
    decreases insns.len() - i,
{
    if i < 0 || i >= insns.len() {
        None
    } else if defined_by(insns[i]) == Some(v) {
        Some(i)
    } else {
        first_def(insns, v, i + 1)
    }
}

/// The block uses `v`.
pub open spec fn block_uses(b: BlockModel, v: VReg) -> bool {
    last_use(b.insns, v, b.insns.len() as int) is Some || used_at_end(b, v)
}

/// The block defines `v`.
pub open spec fn block_defs(b: BlockModel, v: VReg) -> bool {
    b.params.contains(v) || first_def(b.insns, v, 0) is Some
}

// ---------------------------------------------------------------------------
// Liveness
// ---------------------------------------------------------------------------

/// `path` leads over reachable blocks from its first to its last block, which
/// uses `v`, and no block before that defines `v`.
pub open spec fn use_path(bs: Seq<BlockModel>, v: VReg, path: Seq<int>) -> bool {
    &&& path.len() > 0
    &&& forall|k: int|
        0 <= k < path.len() ==> 0 <= #[trigger] path[k] < bs.len() && bs[path[k]].reachable
    &&& forall|k: int|
        0 <= k < path.len() - 1 ==> bs[#[trigger] path[k]].succs.contains(path[k + 1] as usize)
            && !block_defs(bs[path[k]], v)
    &&& block_uses(bs[path.last()], v)
}

/// `v` is live at the entry of block `b`.
pub open spec fn live_in(bs: Seq<BlockModel>, v: VReg, b: int) -> bool {
    exists|path: Seq<int>| #[trigger] use_path(bs, v, path) && path[0] == b
}

/// `v` is live behind block `b`: at the entry of one of its successors.
pub open spec fn live_out(bs: Seq<BlockModel>, v: VReg, b: int) -> bool {
    exists|k: int|
        0 <= k < bs[b].succs.len() && (#[trigger] bs[b].succs[k]) < bs.len() && live_in(
            bs,
            v,
            bs[b].succs[k] as int,
        )
}

/// `v` is live in front of instruction `j` of block `b`.
pub open spec fn live_at(bs: Seq<BlockModel>, v: VReg, b: int, j: int) -> bool
    decreases bs[b].insns.len() - j,
{
    if j < 0 || j >= bs[b].insns.len() {
        live_out(bs, v, b) || used_at_end(bs[b], v)
    } else {
        used_by(bs[b].insns[j]).contains(v) || (live_at(bs, v, b, j + 1) && defined_by(
            bs[b].insns[j],
        ) != Some(v))
    }
}

/// `v` is live behind a helper call.
pub open spec fn crosses_call(bs: Seq<BlockModel>, v: VReg) -> bool {
    exists|b: int, j: int|
        0 <= b < bs.len() && bs[b].reachable && 0 <= j < bs[b].insns.len()
            && #[trigger] bs[b].insns[j] is Helper && live_at(bs, v, b, j + 1)
}

// ---------------------------------------------------------------------------
// Intervals
// ---------------------------------------------------------------------------

/// How many positions a block has: entry, instructions and exit.
pub open spec fn width(b: BlockModel) -> nat {
    if b.reachable {
        b.insns.len() + 2
    } else {
        0
    }
}

/// The position of the entry of block `b`.
pub open spec fn entry_at(bs: Seq<BlockModel>, b: int) -> nat
    decreases b,
{
    if b <= 0 {
        0
    } else {
        entry_at(bs, b - 1) + width(bs[b - 1])
    }
}

/// The position of the exit of block `b`.
pub open spec fn exit_at(bs: Seq<BlockModel>, b: int) -> nat {
    entry_at(bs, b) + 1 + bs[b].insns.len()
}

/// The position that stands for "nowhere".
pub const NOWHERE: usize = usize::MAX;

/// The smaller of two numbers.
pub open spec fn lesser(a: int, b: int) -> int {
    if a <= b {
        a
    } else {
        b
    }
}

/// The greater of two numbers.
pub open spec fn greater(a: int, b: int) -> int {
    if a >= b {
        a
    } else {
        b
    }
}

/// The first exit of the first `k` predecessors that are reachable.
pub open spec fn first_exit(bs: Seq<BlockModel>, preds: Seq<usize>, k: int) -> int
    decreases k,
{
    if k <= 0 {
        NOWHERE as int
    } else {
        let rest = first_exit(bs, preds, k - 1);
        let p = preds[k - 1] as int;
        if p < bs.len() && bs[p].reachable {
            lesser(rest, exit_at(bs, p) as int)
        } else {
            rest
        }
    }
}

/// Where the parameters of block `b` are set: at the first exit of its
/// predecessors, or at its entry where it has none.
pub open spec fn param_at(bs: Seq<BlockModel>, b: int) -> int {
    let p = first_exit(bs, bs[b].preds, bs[b].preds.len() as int);
    if p == NOWHERE {
        entry_at(bs, b) as int
    } else {
        p
    }
}

/// Where block `b` first sets `v`.
pub open spec fn block_start(bs: Seq<BlockModel>, v: VReg, b: int) -> int {
    if !bs[b].reachable {
        NOWHERE as int
    } else {
        let p = if bs[b].params.contains(v) {
            param_at(bs, b)
        } else {
            NOWHERE as int
        };
        match first_def(bs[b].insns, v, 0) {
            Some(i) => lesser(p, entry_at(bs, b) + 1 + i),
            None => p,
        }
    }
}

/// Where the first `n` blocks first set `v`.
pub open spec fn start_upto(bs: Seq<BlockModel>, v: VReg, n: int) -> int
    decreases n,
{
    if n <= 0 {
        NOWHERE as int
    } else {
        lesser(start_upto(bs, v, n - 1), block_start(bs, v, n - 1))
    }
}

/// Behind the last use of `v` in block `b`.
pub open spec fn block_end(bs: Seq<BlockModel>, v: VReg, b: int) -> int {
    if !bs[b].reachable {
        0
    } else if used_at_end(bs[b], v) {
        exit_at(bs, b) as int + 1
    } else {
        match last_use(bs[b].insns, v, bs[b].insns.len() as int) {
            Some(i) => entry_at(bs, b) + 1 + i + 1,
            None => 0,
        }
    }
}

/// Behind the last use of `v` in the first `n` blocks.
pub open spec fn end_upto(bs: Seq<BlockModel>, v: VReg, n: int) -> int
    decreases n,
{
    if n <= 0 {
        0
    } else {
        greater(end_upto(bs, v, n - 1), block_end(bs, v, n - 1))
    }
}

/// The part of the code in which a register holds a value.
#[derive(Debug, Clone, Copy, PartialEq, Eq, Structural)]
pub struct Interval {
    /// Position at which it is first set.
    pub start: usize,
    /// Position behind its last use; zero where it is never used.
    pub end: usize,
    /// Whether it is live behind a helper call.
    pub crosses: bool,
}

/// `i` is the interval of register `v`.
pub open spec fn is_interval(bs: Seq<BlockModel>, v: VReg, i: Interval) -> bool {
    &&& i.start == start_upto(bs, v, bs.len() as int)
    &&& i.end == end_upto(bs, v, bs.len() as int)
    &&& i.crosses == crosses_call(bs, v)
}

/// The successors and predecessors of the blocks are blocks, and the code has
/// a length that can be counted.
pub open spec fn well_linked(bs: Seq<BlockModel>) -> bool {
    &&& forall|b: int, k: int|
        0 <= b < bs.len() && 0 <= k < bs[b].succs.len() ==> (#[trigger] bs[b].succs[k]) < bs.len()
    &&& forall|b: int, k: int|
        0 <= b < bs.len() && 0 <= k < bs[b].preds.len() ==> (#[trigger] bs[b].preds[k]) < bs.len()
    &&& entry_at(bs, bs.len() as int) < usize::MAX
}

proof fn entry_grows(bs: Seq<BlockModel>, a: int, b: int)
    requires
        0 <= a <= b,
    ensures
        entry_at(bs, a) <= entry_at(bs, b),
    decreases b - a,
{
    if a < b {
        entry_grows(bs, a, b - 1);
    }
}

/// Positions of a reachable block are counted.
pub proof fn positions_fit(bs: Seq<BlockModel>, b: int)
    requires
        well_linked(bs),
        0 <= b < bs.len(),
        bs[b].reachable,
    ensures
        exit_at(bs, b) + 1 <= entry_at(bs, bs.len() as int) < usize::MAX,
{
    assert(entry_at(bs, b + 1) == entry_at(bs, b) + width(bs[b]));
    entry_grows(bs, b + 1, bs.len() as int);
}

// ---------------------------------------------------------------------------
// Computation
// ---------------------------------------------------------------------------

fn list_has(list: &Vec<VReg>, v: VReg) -> (r: bool)
    ensures
        r == list@.contains(v),
{
    let mut i: usize = 0;
    while i < list.len()
        invariant
            i <= list.len(),
            forall|j: int| 0 <= j < i ==> list@[j] != v,
        decreases list.len() - i,
    {
        if list[i] == v {
            assert(list@.contains(v));
            return true;
        }
        i = i + 1;
    }
    false
}

fn insn_uses(insn: &Insn, v: VReg) -> (r: bool)
    ensures
        r == used_by(insn@).contains(v),
{
    let uses: Vec<VReg> = insn.uses();
    list_has(&uses, v)
}

/// The terminator's value use, if any.
pub fn term_use(term: Term) -> (r: Option<VReg>)
    ensures
        r == term_reg(term),
{
    match term {
        Term::Ret(v) => Some(v),
        Term::BrTrue(v, _) => Some(v),
        Term::BrFalse(v, _) => Some(v),
        _ => None,
    }
}

fn moves_use(b: &Block, v: VReg) -> (r: bool)
    ensures
        r == moved_upto(b@.moves, b@.moves.len() as int, v),
{
    let ghost m = b@.moves;
    let mut a: usize = 0;
    while a < b.edge_moves.len()
        invariant
            a <= b.edge_moves@.len(),
            m == b@.moves,
            !moved_upto(m, a as int, v),
        decreases b.edge_moves.len() - a,
    {
        let mut i: usize = 0;
        assert(m[a as int].1 == b.edge_moves@[a as int].1@);
        while i < b.edge_moves[a as usize].1.len()
            invariant
                a < b.edge_moves@.len(),
                m == b@.moves,
                m[a as int].1 == b.edge_moves@[a as int].1@,
                i <= m[a as int].1.len(),
                forall|j: int| 0 <= j < i ==> (#[trigger] m[a as int].1[j]).1 != v,
            decreases m[a as int].1.len() - i,
        {
            if b.edge_moves[a].1[i].1 == v {
                assert(m[a as int].1[i as int].1 == v);
                return true;
            }
            i = i + 1;
        }
        proof {
            if moved_upto(m, a + 1, v) {
                let (c, j) = choose|c: int, j: int|
                    0 <= c < a + 1 && 0 <= j < m[c].1.len() && (#[trigger] m[c].1[j]).1 == v;
                if c < a {
                    assert(moved_upto(m, a as int, v));
                }
            }
        }
        a = a + 1;
    }
    false
}

fn find_used_at_end(b: &Block, v: VReg) -> (r: bool)
    ensures
        r == used_at_end(b@, v),
{
    if let Some(x) = term_use(b.term) {
        if x == v {
            return true;
        }
    }
    moves_use(b, v)
}

fn find_last_use(b: &Block, v: VReg) -> (r: Option<usize>)
    ensures
        match r {
            Some(i) => last_use(b@.insns, v, b@.insns.len() as int) == Some(i as int) && i
                < b@.insns.len(),
            None => last_use(b@.insns, v, b@.insns.len() as int) is None,
        },
{
    let mut n: usize = b.insns.len();
    let ghost insns = b@.insns;
    while n > 0
        invariant
            n <= b.insns@.len(),
            insns == b@.insns,
            last_use(insns, v, insns.len() as int) == last_use(insns, v, n as int),
        decreases n,
    {
        assert(insns[n - 1] == b.insns@[n - 1]@);
        if insn_uses(&b.insns[n - 1], v) {
            return Some(n - 1);
        }
        n = n - 1;
    }
    None
}

fn find_first_def(b: &Block, v: VReg) -> (r: Option<usize>)
    ensures
        match r {
            Some(i) => first_def(b@.insns, v, 0) == Some(i as int) && i < b@.insns.len(),
            None => first_def(b@.insns, v, 0) is None,
        },
{
    let mut i: usize = 0;
    let ghost insns = b@.insns;
    while i < b.insns.len()
        invariant
            i <= b.insns@.len(),
            insns == b@.insns,
            first_def(insns, v, 0) == first_def(insns, v, i as int),
        decreases b.insns.len() - i,
    {
        assert(insns[i as int] == b.insns@[i as int]@);
        if let Some(d) = b.insns[i].defined() {
            if d == v {
                return Some(i);
            }
        }
        i = i + 1;
    }
    None
}

/// What follows about the entries of blocks from what is known.
spec fn flow_seen(bs: Seq<BlockModel>, v: VReg, marks: Seq<bool>, b: int) -> bool {
    bs[b].reachable && (block_uses(bs[b], v) || (!block_defs(bs[b], v) && exists|k: int|
        0 <= k < bs[b].succs.len() && (#[trigger] bs[b].succs[k]) < bs.len()
            && marks[bs[b].succs[k] as int]))
}

proof fn path_prefixed(bs: Seq<BlockModel>, v: VReg, b: int, s: int)
    requires
        0 <= b < bs.len(),
        0 <= s < bs.len(),
        bs.len() <= usize::MAX,
        bs[b].reachable,
        bs[b].succs.contains(s as usize),
        !block_defs(bs[b], v),
        live_in(bs, v, s),
    ensures
        live_in(bs, v, b),
{
    let path = choose|path: Seq<int>| #[trigger] use_path(bs, v, path) && path[0] == s;
    let longer = seq![b] + path;
    assert forall|k: int| 0 <= k < longer.len() implies 0 <= #[trigger] longer[k] < bs.len()
        && bs[longer[k]].reachable by {
        if k > 0 {
            assert(longer[k] == path[k - 1]);
        }
    }
    assert forall|k: int| 0 <= k < longer.len() - 1 implies bs[
    #[trigger] longer[k]].succs.contains(longer[k + 1] as usize) && !block_defs(
        bs[longer[k]],
        v,
    ) by {
        assert(longer[k + 1] == path[k]);
        if k > 0 {
            assert(longer[k] == path[k - 1]);
            assert(path[k - 1 + 1] == path[k]);
        }
    }
    assert(longer.last() == path.last());
    assert(use_path(bs, v, longer) && longer[0] == b);
}

proof fn path_marked(bs: Seq<BlockModel>, v: VReg, marks: Seq<bool>, path: Seq<int>, k: int)
    requires
        marks.len() == bs.len(),
        bs.len() <= usize::MAX,
        use_path(bs, v, path),
        forall|b: int| 0 <= b < bs.len() && #[trigger] flow_seen(bs, v, marks, b) ==> marks[b],
        0 <= k < path.len(),
    ensures
        marks[path[k]],
    decreases path.len() - k,
{
    if k == path.len() - 1 {
        assert(flow_seen(bs, v, marks, path[k]));
    } else {
        path_marked(bs, v, marks, path, k + 1);
        let b = path[k];
        assert(bs[b].succs.contains(path[k + 1] as usize));
        let j = choose|j: int| 0 <= j < bs[b].succs.len() && bs[b].succs[j] == path[k + 1] as usize;
        assert(marks[bs[b].succs[j] as int]);
        assert(flow_seen(bs, v, marks, b));
    }
}

fn any_succ_marked(b: &Block, marks: &Vec<bool>) -> (r: bool)
    requires
        forall|k: int| 0 <= k < b.succs@.len() ==> (#[trigger] b.succs@[k]) < marks@.len(),
    ensures
        r == exists|k: int|
            0 <= k < b.succs@.len() && (#[trigger] b.succs@[k]) < marks@.len()
                && marks@[b.succs@[k] as int],
{
    let mut k: usize = 0;
    while k < b.succs.len()
        invariant
            k <= b.succs@.len(),
            forall|k: int| 0 <= k < b.succs@.len() ==> (#[trigger] b.succs@[k]) < marks@.len(),
            forall|j: int| 0 <= j < k ==> !marks@[(#[trigger] b.succs@[j]) as int],
        decreases b.succs.len() - k,
    {
        if marks[b.succs[k]] {
            return true;
        }
        k = k + 1;
    }
    false
}

/// At the entry of which blocks `v` is live.
fn find_live_in(blocks: &Vec<Block>, v: VReg) -> (marks: Vec<bool>)
    requires
        well_linked(blocks_model(blocks@)),
    ensures
        marks@.len() == blocks@.len(),
        forall|b: int|
            0 <= b < blocks@.len() ==> (#[trigger] marks@[b]) == live_in(
                blocks_model(blocks@),
                v,
                b,
            ),
{
    let ghost bs = blocks_model(blocks@);
    let n: usize = blocks.len();
    let mut uses: Vec<bool> = Vec::new();
    let mut defs: Vec<bool> = Vec::new();
    let mut marks: Vec<bool> = Vec::new();
    let mut i: usize = 0;
    while i < n
        invariant
            n == blocks@.len(),
            i <= n,
            bs == blocks_model(blocks@),
            uses@.len() == i,
            defs@.len() == i,
            marks@.len() == i,
            forall|b: int| 0 <= b < i ==> (#[trigger] uses@[b]) == block_uses(bs[b], v),
            forall|b: int| 0 <= b < i ==> (#[trigger] defs@[b]) == block_defs(bs[b], v),
            forall|b: int| 0 <= b < i ==> !(#[trigger] marks@[b]),
        decreases n - i,
    {
        assert(bs[i as int] == blocks@[i as int]@);
        let used: bool = find_last_use(&blocks[i], v).is_some() || find_used_at_end(&blocks[i], v);
        let defined: bool = list_has(&blocks[i].params, v) || find_first_def(
            &blocks[i],
            v,
        ).is_some();
        uses.push(used);
        defs.push(defined);
        marks.push(false);
        i = i + 1;
    }
    let mut changed: bool = true;
    while changed
        invariant
            n == blocks@.len(),
            bs == blocks_model(blocks@),
            well_linked(bs),
            uses@.len() == n,
            defs@.len() == n,
            marks@.len() == n,
            forall|b: int| 0 <= b < n ==> (#[trigger] uses@[b]) == block_uses(bs[b], v),
            forall|b: int| 0 <= b < n ==> (#[trigger] defs@[b]) == block_defs(bs[b], v),
            forall|b: int| 0 <= b < n && #[trigger] marks@[b] ==> live_in(bs, v, b),
            !changed ==> forall|b: int|
                0 <= b < n && #[trigger] flow_seen(bs, v, marks@, b) ==> marks@[b],
        decreases unmarked(marks@), changed as int,
    {
        let ghost marks0 = marks@;
        changed = false;
        let mut b: usize = 0;
        while b < n
            invariant
                n == blocks@.len(),
                b <= n,
                bs == blocks_model(blocks@),
                well_linked(bs),
                uses@.len() == n,
                defs@.len() == n,
                marks@.len() == n,
                forall|b: int| 0 <= b < n ==> (#[trigger] uses@[b]) == block_uses(bs[b], v),
                forall|b: int| 0 <= b < n ==> (#[trigger] defs@[b]) == block_defs(bs[b], v),
                forall|b: int| 0 <= b < n && #[trigger] marks@[b] ==> live_in(bs, v, b),
                !changed ==> marks@ == marks0 && forall|c: int|
                    0 <= c < b && #[trigger] flow_seen(bs, v, marks@, c) ==> marks@[c],
                changed ==> unmarked(marks@) < unmarked(marks0),
            decreases n - b,
        {
            assert(bs[b as int] == blocks@[b as int]@);
            if blocks[b].reachable && !marks[b] {
                proof {
                    assert forall|k: int| 0 <= k < blocks@[b as int].succs@.len() implies (
                    #[trigger] blocks@[b as int].succs@[k]) < marks@.len() by {
                        assert(bs[b as int].succs[k] < bs.len());
                    }
                }
                let flows: bool = !defs[b] && any_succ_marked(&blocks[b], &marks);
                if uses[b] || flows {
                    let ghost before = marks@;
                    proof {
                        if uses@[b as int] {
                            let path = seq![b as int];
                            assert(use_path(bs, v, path) && path[0] == b);
                        } else {
                            let k = choose|k: int|
                                0 <= k < bs[b as int].succs.len() && (
                                #[trigger] bs[b as int].succs[k]) < bs.len()
                                    && marks@[bs[b as int].succs[k] as int];
                            let s = bs[b as int].succs[k] as int;
                            assert(live_in(bs, v, s));
                            path_prefixed(bs, v, b as int, s);
                        }
                        unmarked_update(before, b as int);
                    }
                    marks.set(b, true);
                    changed = true;
                }
            }
            b = b + 1;
        }
    }
    proof {
        assert forall|b: int| 0 <= b < n implies (#[trigger] marks@[b]) == live_in(bs, v, b) by {
            if live_in(bs, v, b) {
                let path = choose|path: Seq<int>| #[trigger] use_path(bs, v, path) && path[0] == b;
                path_marked(bs, v, marks@, path, 0);
            }
        }
    }
    marks
}

/// Whether `v` is live behind a helper call of block `b`.
fn block_crosses(blocks: &Vec<Block>, v: VReg, b: usize, marks: &Vec<bool>) -> (r: bool)
    requires
        b < blocks@.len(),
        well_linked(blocks_model(blocks@)),
        marks@.len() == blocks@.len(),
        forall|c: int|
            0 <= c < blocks@.len() ==> (#[trigger] marks@[c]) == live_in(
                blocks_model(blocks@),
                v,
                c,
            ),
    ensures
        r == exists|j: int|
            0 <= j < blocks_model(blocks@)[b as int].insns.len() && (#[trigger] blocks_model(
                blocks@,
            )[b as int].insns[j]) is Helper && live_at(
                blocks_model(blocks@),
                v,
                b as int,
                j + 1,
            ),
{
    let ghost bs = blocks_model(blocks@);
    assert(bs[b as int] == blocks@[b as int]@);
    proof {
        assert forall|k: int| 0 <= k < blocks@[b as int].succs@.len() implies (
        #[trigger] blocks@[b as int].succs@[k]) < marks@.len() by {
            assert(bs[b as int].succs[k] < bs.len());
        }
    }
    let out: bool = any_succ_marked(&blocks[b], marks);
    proof {
        assert(out == live_out(bs, v, b as int)) by {
            if out {
                let k = choose|k: int|
                    0 <= k < bs[b as int].succs.len() && (#[trigger] bs[b as int].succs[k])
                        < bs.len() && marks@[bs[b as int].succs[k] as int];
                assert(live_in(bs, v, bs[b as int].succs[k] as int));
            }
            if live_out(bs, v, b as int) {
                let k = choose|k: int|
                    0 <= k < bs[b as int].succs.len() && (#[trigger] bs[b as int].succs[k])
                        < bs.len() && live_in(bs, v, bs[b as int].succs[k] as int);
                assert(marks@[bs[b as int].succs[k] as int]);
                assert(blocks@[b as int].succs@[k] < marks@.len());
            }
        }
    }
    let mut live: bool = out || find_used_at_end(&blocks[b], v);
    let mut found: bool = false;
    let mut j: usize = blocks[b].insns.len();
    while j > 0
        invariant
            b < blocks@.len(),
            bs == blocks_model(blocks@),
            bs[b as int] == blocks@[b as int]@,
            j <= bs[b as int].insns.len(),
            live == live_at(bs, v, b as int, j as int),
            found == exists|i: int|
                j <= i < bs[b as int].insns.len() && (#[trigger] bs[b as int].insns[i]) is Helper
                    && live_at(bs, v, b as int, i + 1),
        decreases j,
    {
        j = j - 1;
        assert(bs[b as int].insns[j as int] == blocks@[b as int].insns@[j as int]@);
        let ghost found0 = found;
        if live && matches!(&blocks[b].insns[j], Insn::Helper { .. }) {
            found = true;
        }
        proof {
            if found0 {
                let i = choose|i: int|
                    j + 1 <= i < bs[b as int].insns.len() && (
                    #[trigger] bs[b as int].insns[i]) is Helper && live_at(bs, v, b as int, i + 1);
                assert(bs[b as int].insns[i] is Helper);
            }
        }
        let defined: bool = match blocks[b].insns[j].defined() {
            Some(d) => d == v,
            None => false,
        };
        live = insn_uses(&blocks[b].insns[j], v) || (live && !defined);
    }
    found
}

/// Positions of the entries of the blocks.
fn find_entries(blocks: &Vec<Block>) -> (r: Vec<usize>)
    requires
        well_linked(blocks_model(blocks@)),
    ensures
        r@.len() == blocks@.len(),
        forall|b: int|
            0 <= b < blocks@.len() ==> (#[trigger] r@[b]) == entry_at(blocks_model(blocks@), b),
{
    let ghost bs = blocks_model(blocks@);
    let mut out: Vec<usize> = Vec::new();
    let mut cur: usize = 0;
    let mut b: usize = 0;
    while b < blocks.len()
        invariant
            b <= blocks@.len(),
            bs == blocks_model(blocks@),
            well_linked(bs),
            out@.len() == b,
            cur == entry_at(bs, b as int),
            forall|c: int| 0 <= c < b ==> (#[trigger] out@[c]) == entry_at(bs, c),
        decreases blocks.len() - b,
    {
        assert(bs[b as int] == blocks@[b as int]@);
        proof {
            entry_grows(bs, b + 1, bs.len() as int);
        }
        out.push(cur);
        if blocks[b].reachable {
            cur = cur + blocks[b].insns.len() + 2;
        }
        b = b + 1;
    }
    out
}

fn find_param_at(blocks: &Vec<Block>, entries: &Vec<usize>, b: usize) -> (p: usize)
    requires
        b < blocks@.len(),
        well_linked(blocks_model(blocks@)),
        entries@.len() == blocks@.len(),
        forall|c: int|
            0 <= c < blocks@.len() ==> (#[trigger] entries@[c]) == entry_at(
                blocks_model(blocks@),
                c,
            ),
    ensures
        p == param_at(blocks_model(blocks@), b as int),
{
    let ghost bs = blocks_model(blocks@);
    assert(bs[b as int] == blocks@[b as int]@);
    let mut first: usize = NOWHERE;
    let mut k: usize = 0;
    while k < blocks[b as usize].preds.len()
        invariant
            b < blocks@.len(),
            bs == blocks_model(blocks@),
            bs[b as int] == blocks@[b as int]@,
            well_linked(bs),
            entries@.len() == blocks@.len(),
            forall|c: int| 0 <= c < blocks@.len() ==> (#[trigger] entries@[c]) == entry_at(bs, c),
            k <= bs[b as int].preds.len(),
            first == first_exit(bs, bs[b as int].preds, k as int),
        decreases bs[b as int].preds.len() - k,
    {
        let p: usize = blocks[b].preds[k];
        assert(bs[b as int].preds[k as int] < bs.len());
        assert(bs[p as int] == blocks@[p as int]@);
        if blocks[p].reachable {
            proof {
                positions_fit(bs, p as int);
            }
            let exit: usize = entries[p] + 1 + blocks[p].insns.len();
            if exit < first {
                first = exit;
            }
        }
        k = k + 1;
    }
    if first == NOWHERE {
        entries[b]
    } else {
        first
    }
}

/// The interval of register `v`.
fn find_interval(blocks: &Vec<Block>, entries: &Vec<usize>, v: VReg) -> (r: Interval)
    requires
        well_linked(blocks_model(blocks@)),
        entries@.len() == blocks@.len(),
        forall|c: int|
            0 <= c < blocks@.len() ==> (#[trigger] entries@[c]) == entry_at(
                blocks_model(blocks@),
                c,
            ),
    ensures
        is_interval(blocks_model(blocks@), v, r),
{
    let ghost bs = blocks_model(blocks@);
    let marks: Vec<bool> = find_live_in(blocks, v);
    let mut start: usize = NOWHERE;
    let mut end: usize = 0;
    let mut crosses: bool = false;
    let mut b: usize = 0;
    while b < blocks.len()
        invariant
            b <= blocks@.len(),
            bs == blocks_model(blocks@),
            well_linked(bs),
            entries@.len() == blocks@.len(),
            forall|c: int| 0 <= c < blocks@.len() ==> (#[trigger] entries@[c]) == entry_at(bs, c),
            marks@.len() == blocks@.len(),
            forall|c: int| 0 <= c < blocks@.len() ==> (#[trigger] marks@[c]) == live_in(bs, v, c),
            start == start_upto(bs, v, b as int),
            end == end_upto(bs, v, b as int),
            crosses == exists|c: int, j: int|
                0 <= c < b && bs[c].reachable && 0 <= j < bs[c].insns.len() && (
                #[trigger] bs[c].insns[j]) is Helper && live_at(bs, v, c, j + 1),
        decreases blocks.len() - b,
    {
        assert(bs[b as int] == blocks@[b as int]@);
        let ghost crosses0 = crosses;
        if blocks[b].reachable {
            proof {
                positions_fit(bs, b as int);
            }
            if list_has(&blocks[b].params, v) {
                let p: usize = find_param_at(blocks, entries, b);
                if p < start {
                    start = p;
                }
            }
            if let Some(i) = find_first_def(&blocks[b], v) {
                let p: usize = entries[b] + 1 + i;
                if p < start {
                    start = p;
                }
            }
            if find_used_at_end(&blocks[b], v) {
                let p: usize = entries[b] + 1 + blocks[b].insns.len() + 1;
                if p > end {
                    end = p;
                }
            } else if let Some(i) = find_last_use(&blocks[b], v) {
                let p: usize = entries[b] + 1 + i + 1;
                if p > end {
                    end = p;
                }
            }
            if block_crosses(blocks, v, b, &marks) {
                crosses = true;
            }
        }
        proof {
            if crosses0 {
                let (c, j) = choose|c: int, j: int|
                    0 <= c < b && bs[c].reachable && 0 <= j < bs[c].insns.len() && (
                    #[trigger] bs[c].insns[j]) is Helper && live_at(bs, v, c, j + 1);
                assert(bs[c].insns[j] is Helper);
            } else if crosses {
                let j = choose|j: int|
                    0 <= j < bs[b as int].insns.len() && (
                    #[trigger] bs[b as int].insns[j]) is Helper && live_at(bs, v, b as int, j + 1);
                assert(bs[b as int].insns[j] is Helper);
            }
        }
        b = b + 1;
    }
    Interval { start, end, crosses }
}

/// The intervals of the first `n` registers.
pub fn find_intervals(blocks: &Vec<Block>, n: usize) -> (r: Vec<Interval>)
    requires
        well_linked(blocks_model(blocks@)),
        n <= u32::MAX,
    ensures
        r@.len() == n,
        forall|v: int| 0 <= v < n ==> is_interval(blocks_model(blocks@), v as u32, #[trigger] r@[v]),
{
    let entries: Vec<usize> = find_entries(blocks);
    let mut out: Vec<Interval> = Vec::new();
    let mut v: usize = 0;
    while v < n
        invariant
            v <= n <= u32::MAX,
            well_linked(blocks_model(blocks@)),
            entries@.len() == blocks@.len(),
            forall|c: int|
                0 <= c < blocks@.len() ==> (#[trigger] entries@[c]) == entry_at(
                    blocks_model(blocks@),
                    c,
                ),
            out@.len() == v,
            forall|w: int|
                0 <= w < v ==> is_interval(blocks_model(blocks@), w as u32, #[trigger] out@[w]),
        decreases n - v,
    {
        let i: Interval = find_interval(blocks, &entries, v as u32);
        out.push(i);
        v = v + 1;
    }
    out
}

} // verus!
