//! Optimization of lowered methods: constant folding, folding of branches on
//! constants, and removal of instructions whose results are never used.

use crate::arith::{
    answer_from, find_answer, fit, float_eq, float_is_zero, float_neg, int_add, int_div, int_mul,
    int_neg, int_rem, int_sub, is_nan, neg_bits, ordered, quotient, rank, rem_result, FloatAsk,
    FloatFact, FloatOp,
};
use crate::jit::cfg::{unmarked, unmarked_update};
use crate::jit::ir::{
    acting, blocks_model, defined_by, effectful, insns_model, moves_model, used_by, BinOp, Block,
    BlockModel, Function, Insn, InsnModel, Term, UnOp, VReg,
};
use vstd::prelude::*;

verus! {

// ---------------------------------------------------------------------------
// Constants
// ---------------------------------------------------------------------------

/// Kind of a constant.
#[derive(Debug, Clone, Copy, PartialEq, Eq, Structural)]
pub enum ConstKind {
    /// Integer.
    Int,
    /// Float.
    Float,
    /// Boolean.
    Bool,
}

/// A constant.
#[derive(Debug, Clone, Copy, PartialEq, Eq, Structural)]
pub enum Const {
    /// Integer.
    Int(i64),
    /// Float, by its bits.
    Float(u64),
    /// Boolean.
    Bool(bool),
}

/// The constant of the given kind that an instruction sets register `v` to.
pub open spec fn const_of(i: InsnModel, v: VReg, kind: ConstKind) -> Option<Const> {
    match i {
        InsnModel::Plain(Insn::ConstInt { dst, val }) => if dst == v && kind == ConstKind::Int {
            Some(Const::Int(val))
        } else {
            None
        },
        InsnModel::Plain(Insn::ConstFloat { dst, bits }) => if dst == v && kind
            == ConstKind::Float {
            Some(Const::Float(bits))
        } else {
            None
        },
        InsnModel::Plain(Insn::ConstBool { dst, val }) => if dst == v && kind == ConstKind::Bool {
            Some(Const::Bool(val))
        } else {
            None
        },
        _ => None,
    }
}

/// The first such constant among the instructions from `j` on of block `b` and
/// those of the later blocks.
pub open spec fn const_from(
    blocks: Seq<BlockModel>,
    b: int,
    j: int,
    v: VReg,
    kind: ConstKind,
) -> Option<Const>
    decreases blocks.len() - b, (if 0 <= b < blocks.len() { blocks[b].insns.len() - j } else { 0 }),
{
    if b < 0 || b >= blocks.len() {
        None
    } else if j < 0 || j >= blocks[b].insns.len() {
        const_from(blocks, b + 1, 0, v, kind)
    } else {
        match const_of(blocks[b].insns[j], v, kind) {
            Some(c) => Some(c),
            None => const_from(blocks, b, j + 1, v, kind),
        }
    }
}

/// The integer constant in register `v`.
pub open spec fn int_const(blocks: Seq<BlockModel>, v: VReg) -> Option<i64> {
    match const_from(blocks, 0, 0, v, ConstKind::Int) {
        Some(Const::Int(x)) => Some(x),
        _ => None,
    }
}

/// The float constant in register `v`.
pub open spec fn float_const(blocks: Seq<BlockModel>, v: VReg) -> Option<u64> {
    match const_from(blocks, 0, 0, v, ConstKind::Float) {
        Some(Const::Float(x)) => Some(x),
        _ => None,
    }
}

/// The boolean constant in register `v`.
pub open spec fn bool_const(blocks: Seq<BlockModel>, v: VReg) -> Option<bool> {
    match const_from(blocks, 0, 0, v, ConstKind::Bool) {
        Some(Const::Bool(x)) => Some(x),
        _ => None,
    }
}

fn find_const(blocks: &Vec<Block>, v: VReg, kind: ConstKind) -> (r: Option<Const>)
    ensures
        r == const_from(blocks_model(blocks@), 0, 0, v, kind),
{
    let ghost bs = blocks_model(blocks@);
    let mut b: usize = 0;
    while b < blocks.len()
        invariant
            b <= blocks@.len(),
            bs == blocks_model(blocks@),
            const_from(bs, 0, 0, v, kind) == const_from(bs, b as int, 0, v, kind),
        decreases blocks.len() - b,
    {
        let mut j: usize = 0;
        while j < blocks[b as usize].insns.len()
            invariant
                b < blocks@.len(),
                bs == blocks_model(blocks@),
                j <= blocks@[b as int].insns@.len(),
                const_from(bs, 0, 0, v, kind) == const_from(bs, b as int, j as int, v, kind),
            decreases blocks@[b as int].insns@.len() - j,
        {
            assert(bs[b as int].insns[j as int] == blocks@[b as int].insns@[j as int]@);
            match &blocks[b].insns[j] {
                Insn::ConstInt { dst, val } => {
                    if *dst == v && kind == ConstKind::Int {
                        return Some(Const::Int(*val));
                    }
                },
                Insn::ConstFloat { dst, bits } => {
                    if *dst == v && kind == ConstKind::Float {
                        return Some(Const::Float(*bits));
                    }
                },
                Insn::ConstBool { dst, val } => {
                    if *dst == v && kind == ConstKind::Bool {
                        return Some(Const::Bool(*val));
                    }
                },
                _ => {},
            }
            j = j + 1;
        }
        b = b + 1;
    }
    None
}

fn const_int(blocks: &Vec<Block>, v: VReg) -> (r: Option<i64>)
    ensures
        r == int_const(blocks_model(blocks@), v),
{
    match find_const(blocks, v, ConstKind::Int) {
        Some(Const::Int(x)) => Some(x),
        _ => None,
    }
}

fn const_float(blocks: &Vec<Block>, v: VReg) -> (r: Option<u64>)
    ensures
        r == float_const(blocks_model(blocks@), v),
{
    match find_const(blocks, v, ConstKind::Float) {
        Some(Const::Float(x)) => Some(x),
        _ => None,
    }
}

fn const_bool(blocks: &Vec<Block>, v: VReg) -> (r: Option<bool>)
    ensures
        r == bool_const(blocks_model(blocks@), v),
{
    match find_const(blocks, v, ConstKind::Bool) {
        Some(Const::Bool(x)) => Some(x),
        _ => None,
    }
}

// ---------------------------------------------------------------------------
// Constant folding
// ---------------------------------------------------------------------------

/// What becomes of an instruction.
#[derive(Debug)]
pub enum Fold {
    /// It stays.
    Keep,
    /// It becomes this constant.
    Become(Const),
    /// It becomes a constant once this question is answered.
    Ask(FloatAsk),
}

/// An integer result: a constant, or kept where it overflows.
pub open spec fn fold_int(r: Option<i64>) -> Fold {
    match r {
        Some(v) => Fold::Become(Const::Int(v)),
        None => Fold::Keep,
    }
}

/// A float result, by the facts.
pub open spec fn fold_float(facts: Seq<FloatFact>, op: FloatOp, x: u64, y: u64) -> Fold {
    let ask = FloatAsk { op, x, y };
    match answer_from(facts, ask, 0) {
        Some(r) => Fold::Become(Const::Float(r)),
        None => Fold::Ask(ask),
    }
}

/// Folds an operation that gives a number: exact on integers, by the facts on
/// floats.
pub open spec fn fold_number(
    bs: Seq<BlockModel>,
    facts: Seq<FloatFact>,
    a: VReg,
    b: VReg,
    ints: Option<i64>,
    op: FloatOp,
) -> Fold {
    if int_const(bs, a) is Some && int_const(bs, b) is Some {
        fold_int(ints)
    } else {
        match (float_const(bs, a), float_const(bs, b)) {
            (Some(x), Some(y)) => fold_float(facts, op, x, y),
            _ => Fold::Keep,
        }
    }
}

/// The integers in two registers; zero where there is none.
pub open spec fn int_pair(bs: Seq<BlockModel>, a: VReg, b: VReg) -> (int, int) {
    match (int_const(bs, a), int_const(bs, b)) {
        (Some(x), Some(y)) => (x as int, y as int),
        _ => (0, 0),
    }
}

/// Folds a comparison of integers.
pub open spec fn fold_compare(bs: Seq<BlockModel>, a: VReg, b: VReg, result: bool) -> Fold {
    if int_const(bs, a) is Some && int_const(bs, b) is Some {
        Fold::Become(Const::Bool(result))
    } else {
        Fold::Keep
    }
}

/// Folds a binary operation on constants. Divisions by zero stay.
pub open spec fn fold_bin(
    bs: Seq<BlockModel>,
    facts: Seq<FloatFact>,
    checks: bool,
    op: BinOp,
    a: VReg,
    b: VReg,
) -> Fold {
    let (x, y) = int_pair(bs, a, b);
    let ints = int_const(bs, a) is Some && int_const(bs, b) is Some;
    match op {
        BinOp::Add => fold_number(bs, facts, a, b, fit(checks, x + y), FloatOp::Add),
        BinOp::Sub => fold_number(bs, facts, a, b, fit(checks, x - y), FloatOp::Sub),
        BinOp::Mul => fold_number(bs, facts, a, b, fit(checks, x * y), FloatOp::Mul),
        BinOp::Div => if ints {
            if y == 0 {
                Fold::Keep
            } else {
                fold_int(fit(checks, quotient(x, y)))
            }
        } else {
            match (float_const(bs, a), float_const(bs, b)) {
                (Some(u), Some(v)) => if !is_nan(v) && rank(v) == 0 {
                    Fold::Keep
                } else {
                    fold_float(facts, FloatOp::Div, u, v)
                },
                _ => Fold::Keep,
            }
        },
        BinOp::Rem => if ints && y != 0 {
            fold_int(rem_result(checks, x, y))
        } else {
            Fold::Keep
        },
        BinOp::Eq => if ints {
            Fold::Become(Const::Bool(x == y))
        } else {
            match (float_const(bs, a), float_const(bs, b)) {
                (Some(u), Some(v)) => Fold::Become(
                    Const::Bool(ordered(u, v) && rank(u) == rank(v)),
                ),
                _ => match (bool_const(bs, a), bool_const(bs, b)) {
                    (Some(u), Some(v)) => Fold::Become(Const::Bool(u == v)),
                    _ => Fold::Keep,
                },
            }
        },
        BinOp::Lt => fold_compare(bs, a, b, x < y),
        BinOp::Le => fold_compare(bs, a, b, x <= y),
        BinOp::Gt => fold_compare(bs, a, b, x > y),
        BinOp::Ge => fold_compare(bs, a, b, x >= y),
        BinOp::And => match (bool_const(bs, a), bool_const(bs, b)) {
            (Some(u), Some(v)) => Fold::Become(Const::Bool(u && v)),
            _ => Fold::Keep,
        },
        BinOp::Or => match (bool_const(bs, a), bool_const(bs, b)) {
            (Some(u), Some(v)) => Fold::Become(Const::Bool(u || v)),
            _ => Fold::Keep,
        },
    }
}

/// Folds a unary operation on a constant.
pub open spec fn fold_un(bs: Seq<BlockModel>, checks: bool, op: UnOp, a: VReg) -> Fold {
    match op {
        UnOp::Neg => match int_const(bs, a) {
            Some(x) => fold_int(fit(checks, -(x as int))),
            None => match float_const(bs, a) {
                Some(x) => Fold::Become(Const::Float(neg_bits(x))),
                None => Fold::Keep,
            },
        },
        UnOp::Not => match int_const(bs, a) {
            Some(x) => Fold::Become(Const::Bool(x == 0)),
            None => match float_const(bs, a) {
                Some(x) => Fold::Become(Const::Bool(!is_nan(x) && rank(x) == 0)),
                None => match bool_const(bs, a) {
                    Some(x) => Fold::Become(Const::Bool(!x)),
                    None => Fold::Keep,
                },
            },
        },
    }
}

/// The instruction that sets `dst` to a constant.
pub open spec fn set_const(dst: VReg, c: Const) -> InsnModel {
    match c {
        Const::Int(val) => InsnModel::Plain(Insn::ConstInt { dst, val }),
        Const::Float(bits) => InsnModel::Plain(Insn::ConstFloat { dst, bits }),
        Const::Bool(val) => InsnModel::Plain(Insn::ConstBool { dst, val }),
    }
}

/// Folds an instruction.
pub open spec fn fold_insn(
    bs: Seq<BlockModel>,
    facts: Seq<FloatFact>,
    checks: bool,
    i: InsnModel,
) -> Fold {
    match i {
        InsnModel::Plain(Insn::Bin { dst, op, a, b }) => fold_bin(bs, facts, checks, op, a, b),
        InsnModel::Plain(Insn::Un { dst, op, a }) => fold_un(bs, checks, op, a),
        _ => Fold::Keep,
    }
}

/// The state of folding: the blocks, the open questions, and whether anything
/// has changed in this round.
#[verifier::ext_equal]
pub ghost struct FoldState {
    /// Blocks.
    pub blocks: Seq<BlockModel>,
    /// Open questions.
    pub asks: Seq<FloatAsk>,
    /// Whether anything has changed.
    pub changed: bool,
}

/// The blocks with one instruction replaced.
pub open spec fn with_insn(bs: Seq<BlockModel>, b: int, j: int, i: InsnModel) -> Seq<BlockModel> {
    bs.update(b, BlockModel { insns: bs[b].insns.update(j, i), ..bs[b] })
}

/// One step of folding, at instruction `j` of block `b`.
pub open spec fn fold_step(
    st: FoldState,
    facts: Seq<FloatFact>,
    checks: bool,
    b: int,
    j: int,
) -> FoldState {
    let i = st.blocks[b].insns[j];
    match fold_insn(st.blocks, facts, checks, i) {
        Fold::Keep => st,
        Fold::Become(c) => FoldState {
            blocks: with_insn(st.blocks, b, j, set_const(defined_by(i)->Some_0, c)),
            changed: true,
            ..st
        },
        Fold::Ask(ask) => FoldState { asks: st.asks.push(ask), ..st },
    }
}

/// A round of folding, from instruction `j` of block `b` on: each instruction
/// sees the constants that the earlier ones have become.
pub open spec fn fold_round(
    st: FoldState,
    facts: Seq<FloatFact>,
    checks: bool,
    b: int,
    j: int,
) -> FoldState
    decreases
        st.blocks.len() - b,
        (if 0 <= b < st.blocks.len() { st.blocks[b].insns.len() - j } else { 0 }),
{
    if b < 0 || b >= st.blocks.len() {
        st
    } else if j < 0 || j >= st.blocks[b].insns.len() {
        fold_round(st, facts, checks, b + 1, 0)
    } else {
        fold_round(fold_step(st, facts, checks, b, j), facts, checks, b, j + 1)
    }
}

/// Folds, round after round, while something changes and `rounds` are left.
pub open spec fn fold_rounds(
    st: FoldState,
    facts: Seq<FloatFact>,
    checks: bool,
    rounds: nat,
) -> FoldState
    decreases rounds,
{
    if !st.changed || rounds == 0 {
        st
    } else {
        fold_rounds(
            fold_round(FoldState { changed: false, ..st }, facts, checks, 0, 0),
            facts,
            checks,
            (rounds - 1) as nat,
        )
    }
}

/// Constant folding of a method.
pub open spec fn folded(bs: Seq<BlockModel>, facts: Seq<FloatFact>, checks: bool) -> FoldState {
    fold_rounds(
        FoldState { blocks: bs, asks: seq![], changed: true },
        facts,
        checks,
        1 + bs.len() * 2,
    )
}

fn fold_float_exec(facts: &Vec<FloatFact>, op: FloatOp, x: u64, y: u64) -> (r: Fold)
    ensures
        r == fold_float(facts@, op, x, y),
{
    let ask: FloatAsk = FloatAsk { op, x, y };
    match find_answer(facts, ask) {
        Some(v) => Fold::Become(Const::Float(v)),
        None => Fold::Ask(ask),
    }
}

fn fold_int_exec(r: Option<i64>) -> (f: Fold)
    ensures
        f == fold_int(r),
{
    match r {
        Some(v) => Fold::Become(Const::Int(v)),
        None => Fold::Keep,
    }
}

fn fold_bin_exec(
    blocks: &Vec<Block>,
    facts: &Vec<FloatFact>,
    checks: bool,
    op: BinOp,
    a: VReg,
    b: VReg,
) -> (r: Fold)
    ensures
        r == fold_bin(blocks_model(blocks@), facts@, checks, op, a, b),
{
    if let (Some(x), Some(y)) = (const_int(blocks, a), const_int(blocks, b)) {
        return match op {
            BinOp::Add => fold_int_exec(int_add(checks, x, y)),
            BinOp::Sub => fold_int_exec(int_sub(checks, x, y)),
            BinOp::Mul => fold_int_exec(int_mul(checks, x, y)),
            BinOp::Div => if y == 0 {
                Fold::Keep
            } else {
                fold_int_exec(int_div(checks, x, y))
            },
            BinOp::Rem => if y == 0 {
                Fold::Keep
            } else {
                fold_int_exec(int_rem(checks, x, y))
            },
            BinOp::Eq => Fold::Become(Const::Bool(x == y)),
            BinOp::Lt => Fold::Become(Const::Bool(x < y)),
            BinOp::Le => Fold::Become(Const::Bool(x <= y)),
            BinOp::Gt => Fold::Become(Const::Bool(x > y)),
            BinOp::Ge => Fold::Become(Const::Bool(x >= y)),
            BinOp::And => match (const_bool(blocks, a), const_bool(blocks, b)) {
                (Some(u), Some(v)) => Fold::Become(Const::Bool(u && v)),
                _ => Fold::Keep,
            },
            BinOp::Or => match (const_bool(blocks, a), const_bool(blocks, b)) {
                (Some(u), Some(v)) => Fold::Become(Const::Bool(u || v)),
                _ => Fold::Keep,
            },
        };
    }
    match op {
        BinOp::Add | BinOp::Sub | BinOp::Mul | BinOp::Div | BinOp::Eq => {
            if let (Some(x), Some(y)) = (const_float(blocks, a), const_float(blocks, b)) {
                return match op {
                    BinOp::Add => fold_float_exec(facts, FloatOp::Add, x, y),
                    BinOp::Sub => fold_float_exec(facts, FloatOp::Sub, x, y),
                    BinOp::Mul => fold_float_exec(facts, FloatOp::Mul, x, y),
                    BinOp::Div => if float_is_zero(y) {
                        Fold::Keep
                    } else {
                        fold_float_exec(facts, FloatOp::Div, x, y)
                    },
                    _ => Fold::Become(Const::Bool(float_eq(x, y))),
                };
            }
            if matches!(op, BinOp::Eq) {
                if let (Some(x), Some(y)) = (const_bool(blocks, a), const_bool(blocks, b)) {
                    return Fold::Become(Const::Bool(x == y));
                }
            }
            Fold::Keep
        },
        BinOp::And => match (const_bool(blocks, a), const_bool(blocks, b)) {
            (Some(u), Some(v)) => Fold::Become(Const::Bool(u && v)),
            _ => Fold::Keep,
        },
        BinOp::Or => match (const_bool(blocks, a), const_bool(blocks, b)) {
            (Some(u), Some(v)) => Fold::Become(Const::Bool(u || v)),
            _ => Fold::Keep,
        },
        _ => Fold::Keep,
    }
}

fn fold_un_exec(blocks: &Vec<Block>, checks: bool, op: UnOp, a: VReg) -> (r: Fold)
    ensures
        r == fold_un(blocks_model(blocks@), checks, op, a),
{
    match op {
        UnOp::Neg => {
            if let Some(x) = const_int(blocks, a) {
                return fold_int_exec(int_neg(checks, x));
            }
            match const_float(blocks, a) {
                Some(x) => Fold::Become(Const::Float(float_neg(x))),
                None => Fold::Keep,
            }
        },
        UnOp::Not => {
            if let Some(x) = const_int(blocks, a) {
                return Fold::Become(Const::Bool(x == 0));
            }
            if let Some(x) = const_float(blocks, a) {
                return Fold::Become(Const::Bool(float_is_zero(x)));
            }
            match const_bool(blocks, a) {
                Some(x) => Fold::Become(Const::Bool(!x)),
                None => Fold::Keep,
            }
        },
    }
}

fn set_const_exec(dst: VReg, c: Const) -> (i: Insn)
    ensures
        i@ == set_const(dst, c),
{
    match c {
        Const::Int(val) => Insn::ConstInt { dst, val },
        Const::Float(bits) => Insn::ConstFloat { dst, bits },
        Const::Bool(val) => Insn::ConstBool { dst, val },
    }
}

/// Replacing an instruction of a block replaces it in the values.
proof fn with_insn_model(blocks: Seq<Block>, b: int, j: int, next: Seq<Block>, i: Insn)
    requires
        0 <= b < blocks.len(),
        0 <= j < blocks[b].insns@.len(),
        next.len() == blocks.len(),
        forall|k: int| 0 <= k < blocks.len() && k != b ==> next[k] == blocks[k],
        next[b].insns@ == blocks[b].insns@.update(j, i),
        next[b].id == blocks[b].id,
        next[b].params == blocks[b].params,
        next[b].term == blocks[b].term,
        next[b].preds == blocks[b].preds,
        next[b].succs == blocks[b].succs,
        next[b].edge_moves == blocks[b].edge_moves,
        next[b].reachable == blocks[b].reachable,
    ensures
        blocks_model(next) == with_insn(blocks_model(blocks), b, j, i@),
{
    let want = with_insn(blocks_model(blocks), b, j, i@);
    assert(next[b]@.insns =~= blocks[b]@.insns.update(j, i@));
    assert(next[b]@ =~= want[b]);
    assert(blocks_model(next) =~= want);
}

/// Fold constant arithmetic into constants. The questions about float
/// arithmetic that the facts do not answer are returned.
pub fn constant_fold(blocks: &mut Vec<Block>, facts: &Vec<FloatFact>, checks: bool) -> (asks: Vec<
    FloatAsk,
>)
    requires
        old(blocks)@.len() < usize::MAX / 4,
    ensures
        folded(blocks_model(old(blocks)@), facts@, checks).blocks == blocks_model(final(blocks)@),
        folded(blocks_model(old(blocks)@), facts@, checks).asks == asks@,
        final(blocks)@.len() == old(blocks)@.len(),
{
    let n: usize = blocks.len();
    let mut asks: Vec<FloatAsk> = Vec::new();
    let mut changed: bool = true;
    let mut left: usize = 1 + n * 2;
    let ghost all = folded(blocks_model(blocks@), facts@, checks);
    assert(asks@ =~= seq![]);
    while changed && left > 0
        invariant
            blocks@.len() == n,
            n == old(blocks)@.len(),
            all == folded(blocks_model(old(blocks)@), facts@, checks),
            all == fold_rounds(
                FoldState { blocks: blocks_model(blocks@), asks: asks@, changed },
                facts@,
                checks,
                left as nat,
            ),
        decreases left,
    {
        let ghost round = fold_round(
            FoldState { blocks: blocks_model(blocks@), asks: asks@, changed: false },
            facts@,
            checks,
            0,
            0,
        );
        changed = false;
        left = left - 1;
        let mut b: usize = 0;
        while b < n
            invariant
                b <= n,
                blocks@.len() == n,
                round == fold_round(
                    FoldState { blocks: blocks_model(blocks@), asks: asks@, changed },
                    facts@,
                    checks,
                    b as int,
                    0,
                ),
            decreases n - b,
        {
            let len: usize = blocks[b].insns.len();
            let mut j: usize = 0;
            while j < len
                invariant
                    b < n,
                    blocks@.len() == n,
                    len == blocks@[b as int].insns@.len(),
                    j <= len,
                    round == fold_round(
                        FoldState { blocks: blocks_model(blocks@), asks: asks@, changed },
                        facts@,
                        checks,
                        b as int,
                        j as int,
                    ),
                decreases len - j,
            {
                let ghost before = blocks@;
                let ghost bs = blocks_model(blocks@);
                assert(bs[b as int].insns[j as int] == blocks@[b as int].insns@[j as int]@);
                let (dst, fold): (VReg, Fold) = match &blocks[b].insns[j] {
                    Insn::Bin { dst, op, a, b } => (
                        *dst,
                        fold_bin_exec(blocks, facts, checks, *op, *a, *b),
                    ),
                    Insn::Un { dst, op, a } => (*dst, fold_un_exec(blocks, checks, *op, *a)),
                    _ => (0, Fold::Keep),
                };
                match fold {
                    Fold::Keep => {},
                    Fold::Become(c) => {
                        let insn: Insn = set_const_exec(dst, c);
                        let ghost value = insn;
                        blocks[b].insns[j] = insn;
                        changed = true;
                        proof {
                            with_insn_model(before, b as int, j as int, blocks@, value);
                        }
                    },
                    Fold::Ask(ask) => {
                        asks.push(ask);
                    },
                }
                j = j + 1;
            }
            b = b + 1;
        }
    }
    asks
}

// ---------------------------------------------------------------------------
// Branches on constants
// ---------------------------------------------------------------------------

/// The truth of a constant condition.
pub open spec fn truth(bs: Seq<BlockModel>, v: VReg) -> Option<bool> {
    match bool_const(bs, v) {
        Some(b) => Some(b),
        None => match int_const(bs, v) {
            Some(x) => Some(x != 0),
            None => None,
        },
    }
}

/// The elements that differ from `x`.
pub open spec fn without(v: Seq<usize>, x: usize) -> Seq<usize>
    decreases v.len(),
{
    if v.len() == 0 {
        seq![]
    } else if v.last() == x {
        without(v.drop_last(), x)
    } else {
        without(v.drop_last(), x).push(v.last())
    }
}

/// The elements that equal `x`.
pub open spec fn only(v: Seq<usize>, x: usize) -> Seq<usize>
    decreases v.len(),
{
    if v.len() == 0 {
        seq![]
    } else if v.last() == x {
        only(v.drop_last(), x).push(v.last())
    } else {
        only(v.drop_last(), x)
    }
}

/// The moves on the edge to `x`.
pub open spec fn only_moves(v: Seq<(usize, Seq<(VReg, VReg)>)>, x: usize) -> Seq<
    (usize, Seq<(VReg, VReg)>),
>
    decreases v.len(),
{
    if v.len() == 0 {
        seq![]
    } else if v.last().0 == x {
        only_moves(v.drop_last(), x).push(v.last())
    } else {
        only_moves(v.drop_last(), x)
    }
}

/// The first successor, from `k` on, that is not `target`.
pub open spec fn other_succ(succs: Seq<usize>, target: usize, k: int) -> Option<usize>
    decreases succs.len() - k,
{
    if k < 0 || k >= succs.len() {
        None
    } else if succs[k] != target {
        Some(succs[k])
    } else {
        other_succ(succs, target, k + 1)
    }
}

/// The blocks with `i` taken out of the predecessors of the successors, from
/// `k` on, that are not `taken`.
pub open spec fn unlink(
    bs: Seq<BlockModel>,
    succs: Seq<usize>,
    taken: usize,
    i: usize,
    k: int,
) -> Seq<BlockModel>
    decreases succs.len() - k,
{
    if k < 0 || k >= succs.len() {
        bs
    } else {
        let s = succs[k] as int;
        let next = if succs[k] != taken && s < bs.len() {
            bs.update(s, BlockModel { preds: without(bs[s].preds, i), ..bs[s] })
        } else {
            bs
        };
        unlink(next, succs, taken, i, k + 1)
    }
}

/// The blocks after the conditional branch of block `i` has become a jump to
/// `taken`.
pub open spec fn take_branch(bs: Seq<BlockModel>, i: int, taken: usize) -> Seq<BlockModel> {
    let cut = unlink(bs, bs[i].succs, taken, i as usize, 0);
    cut.update(
        i,
        BlockModel {
            succs: only(cut[i].succs, taken),
            moves: only_moves(cut[i].moves, taken),
            term: Term::Br(taken),
            ..cut[i]
        },
    )
}

/// The blocks after the branch at the end of block `i` has been folded: on a
/// condition `cond`, to `target` where it has the truth `when`.
pub open spec fn fold_branch(
    bs: Seq<BlockModel>,
    i: int,
    cond: VReg,
    target: usize,
    when: bool,
) -> Seq<BlockModel> {
    match truth(bs, cond) {
        None => bs,
        Some(t) => {
            let taken = if t == when {
                Some(target)
            } else {
                other_succ(bs[i].succs, target, 0)
            };
            match taken {
                Some(x) => take_branch(bs, i, x),
                None => bs.update(i, BlockModel { term: Term::Br(target), ..bs[i] }),
            }
        },
    }
}

/// Folds the branches at the ends of the blocks from `i` on.
pub open spec fn fold_branches(bs: Seq<BlockModel>, i: int) -> Seq<BlockModel>
    decreases bs.len() - i,
    when 0 <= i
    via fold_branches_decreases
{
    if i >= bs.len() {
        bs
    } else {
        match bs[i].term {
            Term::BrTrue(c, t) => fold_branches(fold_branch(bs, i, c, t, true), i + 1),
            Term::BrFalse(c, t) => fold_branches(fold_branch(bs, i, c, t, false), i + 1),
            _ => fold_branches(bs, i + 1),
        }
    }
}

#[via_fn]
proof fn fold_branches_decreases(bs: Seq<BlockModel>, i: int) {
    if i < bs.len() {
        match bs[i].term {
            Term::BrTrue(c, t) => {
                fold_branch_len(bs, i, c, t, true);
            },
            Term::BrFalse(c, t) => {
                fold_branch_len(bs, i, c, t, false);
            },
            _ => {},
        }
    }
}

proof fn unlink_len(bs: Seq<BlockModel>, succs: Seq<usize>, taken: usize, i: usize, k: int)
    ensures
        unlink(bs, succs, taken, i, k).len() == bs.len(),
    decreases succs.len() - k,
{
    if 0 <= k < succs.len() {
        let s = succs[k] as int;
        let next = if succs[k] != taken && s < bs.len() {
            bs.update(s, BlockModel { preds: without(bs[s].preds, i), ..bs[s] })
        } else {
            bs
        };
        unlink_len(next, succs, taken, i, k + 1);
    }
}

proof fn fold_branch_len(bs: Seq<BlockModel>, i: int, cond: VReg, target: usize, when: bool)
    requires
        0 <= i < bs.len(),
    ensures
        fold_branch(bs, i, cond, target, when).len() == bs.len(),
{
    assert forall|x: usize| #[trigger] take_branch(bs, i, x).len() == bs.len() by {
        unlink_len(bs, bs[i].succs, x, i as usize, 0);
    }
}

fn without_exec(v: &Vec<usize>, x: usize) -> (r: Vec<usize>)
    ensures
        r@ == without(v@, x),
{
    let mut out: Vec<usize> = Vec::new();
    let mut i: usize = 0;
    assert(v@.take(0) =~= seq![]);
    while i < v.len()
        invariant
            i <= v@.len(),
            out@ == without(v@.take(i as int), x),
        decreases v.len() - i,
    {
        assert(v@.take(i + 1).drop_last() =~= v@.take(i as int));
        if v[i] != x {
            out.push(v[i]);
        }
        i = i + 1;
    }
    assert(v@.take(v@.len() as int) =~= v@);
    out
}

fn only_exec(v: &Vec<usize>, x: usize) -> (r: Vec<usize>)
    ensures
        r@ == only(v@, x),
{
    let mut out: Vec<usize> = Vec::new();
    let mut i: usize = 0;
    assert(v@.take(0) =~= seq![]);
    while i < v.len()
        invariant
            i <= v@.len(),
            out@ == only(v@.take(i as int), x),
        decreases v.len() - i,
    {
        assert(v@.take(i + 1).drop_last() =~= v@.take(i as int));
        if v[i] == x {
            out.push(v[i]);
        }
        i = i + 1;
    }
    assert(v@.take(v@.len() as int) =~= v@);
    out
}

fn clone_moves(v: &Vec<(VReg, VReg)>) -> (r: Vec<(VReg, VReg)>)
    ensures
        r@ == v@,
{
    let mut out: Vec<(VReg, VReg)> = Vec::new();
    let mut i: usize = 0;
    while i < v.len()
        invariant
            i <= v.len(),
            out@ == v@.take(i as int),
        decreases v.len() - i,
    {
        out.push(v[i]);
        i = i + 1;
        assert(out@ =~= v@.take(i as int));
    }
    assert(v@.take(v@.len() as int) =~= v@);
    out
}

fn only_moves_exec(v: &Vec<(usize, Vec<(VReg, VReg)>)>, x: usize) -> (r: Vec<
    (usize, Vec<(VReg, VReg)>),
>)
    ensures
        moves_model(r@) == only_moves(moves_model(v@), x),
{
    let mut out: Vec<(usize, Vec<(VReg, VReg)>)> = Vec::new();
    let ghost mv = moves_model(v@);
    let mut i: usize = 0;
    assert(mv.take(0) =~= seq![]);
    assert(moves_model(out@) =~= seq![]);
    while i < v.len()
        invariant
            i <= v@.len(),
            mv == moves_model(v@),
            moves_model(out@) == only_moves(mv.take(i as int), x),
        decreases v.len() - i,
    {
        assert(mv.take(i + 1).drop_last() =~= mv.take(i as int));
        assert(mv.take(i + 1).last() == (v@[i as int].0, v@[i as int].1@));
        if v[i].0 == x {
            let ghost before = moves_model(out@);
            let copy: Vec<(VReg, VReg)> = clone_moves(&v[i].1);
            let ghost value = copy@;
            out.push((x, copy));
            assert(moves_model(out@) =~= before.push((x, value)));
        }
        i = i + 1;
    }
    assert(mv.take(mv.len() as int) =~= mv);
    out
}

/// The value of a block list after one block has changed.
proof fn block_changed(before: Seq<Block>, after: Seq<Block>, b: int, want: BlockModel)
    requires
        0 <= b < before.len(),
        after.len() == before.len(),
        forall|k: int| 0 <= k < before.len() && k != b ==> after[k] == before[k],
        after[b]@ == want,
    ensures
        blocks_model(after) == blocks_model(before).update(b, want),
{
    assert(blocks_model(after) =~= blocks_model(before).update(b, want));
}

fn take_branch_exec(blocks: &mut Vec<Block>, i: usize, taken: usize)
    requires
        i < old(blocks)@.len(),
    ensures
        final(blocks)@.len() == old(blocks)@.len(),
        blocks_model(final(blocks)@) == take_branch(
            blocks_model(old(blocks)@),
            i as int,
            taken,
        ),
{
    let n: usize = blocks.len();
    let ghost bs = blocks_model(blocks@);
    let ghost succs = bs[i as int].succs;
    let count: usize = blocks[i].succs.len();
    let ghost cut = unlink(bs, succs, taken, i, 0);
    let mut k: usize = 0;
    while k < count
        invariant
            n == blocks@.len(),
            i < n,
            count == succs.len(),
            succs == blocks@[i as int].succs@,
            k <= count,
            cut == unlink(blocks_model(blocks@), succs, taken, i, k as int),
        decreases count - k,
    {
        let s: usize = blocks[i].succs[k];
        if s != taken && s < n {
            let ghost before = blocks@;
            let cleaned: Vec<usize> = without_exec(&blocks[s].preds, i);
            blocks[s].preds = cleaned;
            proof {
                let want = BlockModel {
                    preds: without(before[s as int]@.preds, i),
                    ..before[s as int]@
                };
                assert(blocks@[s as int]@ =~= want);
                block_changed(before, blocks@, s as int, want);
            }
        }
        k = k + 1;
    }
    let ghost before = blocks@;
    let kept: Vec<usize> = only_exec(&blocks[i].succs, taken);
    blocks[i].succs = kept;
    let moves: Vec<(usize, Vec<(VReg, VReg)>)> = only_moves_exec(&blocks[i].edge_moves, taken);
    blocks[i].edge_moves = moves;
    blocks[i].term = Term::Br(taken);
    proof {
        let want = BlockModel {
            succs: only(cut[i as int].succs, taken),
            moves: only_moves(cut[i as int].moves, taken),
            term: Term::Br(taken),
            ..cut[i as int]
        };
        assert(before[i as int]@ == cut[i as int]);
        assert(blocks@[i as int]@ =~= want);
        block_changed(before, blocks@, i as int, want);
    }
}

/// Fold branches on constant conditions.
pub fn fold_trivial_branches(blocks: &mut Vec<Block>)
    ensures
        final(blocks)@.len() == old(blocks)@.len(),
        blocks_model(final(blocks)@) == fold_branches(blocks_model(old(blocks)@), 0),
{
    let n: usize = blocks.len();
    let ghost all = fold_branches(blocks_model(blocks@), 0);
    let mut i: usize = 0;
    while i < n
        invariant
            n == blocks@.len(),
            n == old(blocks)@.len(),
            i <= n,
            all == fold_branches(blocks_model(old(blocks)@), 0),
            all == fold_branches(blocks_model(blocks@), i as int),
        decreases n - i,
    {
        let ghost bs = blocks_model(blocks@);
        assert(bs[i as int] == blocks@[i as int]@);
        let found: Option<(VReg, usize, bool)> = match blocks[i].term {
            Term::BrTrue(c, t) => Some((c, t, true)),
            Term::BrFalse(c, t) => Some((c, t, false)),
            _ => None,
        };
        if let Some((cond, target, when)) = found {
            let truthy: Option<bool> = match const_bool(blocks, cond) {
                Some(b) => Some(b),
                None => match const_int(blocks, cond) {
                    Some(x) => Some(x != 0),
                    None => None,
                },
            };
            if let Some(t) = truthy {
                let mut taken: Option<usize> = None;
                if t == when {
                    taken = Some(target);
                } else {
                    let mut k: usize = 0;
                    let count: usize = blocks[i].succs.len();
                    let ghost succs = blocks@[i as int].succs@;
                    while k < count
                        invariant_except_break
                            taken is None,
                            other_succ(succs, target, 0) == other_succ(succs, target, k as int),
                        invariant
                            i < blocks@.len(),
                            succs == blocks@[i as int].succs@,
                            count == succs.len(),
                            k <= count,
                        ensures
                            taken == other_succ(succs, target, 0),
                        decreases count - k,
                    {
                        let s: usize = blocks[i].succs[k];
                        if s != target {
                            taken = Some(s);
                            break;
                        }
                        k = k + 1;
                    }
                }
                match taken {
                    Some(x) => {
                        take_branch_exec(blocks, i, x);
                    },
                    None => {
                        let ghost before = blocks@;
                        blocks[i].term = Term::Br(target);
                        proof {
                            let want = BlockModel {
                                term: Term::Br(target),
                                ..before[i as int]@
                            };
                            assert(blocks@[i as int]@ =~= want);
                            block_changed(before, blocks@, i as int, want);
                        }
                    },
                }
            }
        }
        i = i + 1;
    }
}

// ---------------------------------------------------------------------------
// Dead code
// ---------------------------------------------------------------------------

/// The register that a terminator uses.
pub open spec fn term_uses(t: Term, v: VReg) -> bool {
    match t {
        Term::Ret(x) => x == v,
        Term::BrTrue(x, _) => x == v,
        Term::BrFalse(x, _) => x == v,
        _ => false,
    }
}

/// An instruction with an effect or one that can fail, the terminator or a move of
/// block `b` uses `v`.
pub open spec fn block_needs(checks: bool, b: BlockModel, v: VReg) -> bool {
    ||| exists|j: int|
        0 <= j < b.insns.len() && acting(checks, #[trigger] b.insns[j]) && used_by(b.insns[j]).contains(
            v,
        )
    ||| term_uses(b.term, v)
    ||| exists|k: int, l: int|
        0 <= k < b.moves.len() && 0 <= l < b.moves[k].1.len() && (#[trigger] b.moves[k].1[l]).1 == v
}

/// Some block needs `v`.
pub open spec fn is_root(checks: bool, bs: Seq<BlockModel>, v: VReg) -> bool {
    exists|b: int| 0 <= b < bs.len() && block_needs(checks, #[trigger] bs[b], v)
}

/// An instruction that defines `v` uses `u`.
pub open spec fn depends(bs: Seq<BlockModel>, v: VReg, u: VReg) -> bool {
    exists|b: int, j: int|
        0 <= b < bs.len() && 0 <= j < bs[b].insns.len() && defined_by(#[trigger] bs[b].insns[j])
            == Some(v) && used_by(bs[b].insns[j]).contains(u)
}

/// `chain` leads from a register that is needed along dependencies, over
/// registers below `n`.
pub open spec fn need_chain(checks: bool, bs: Seq<BlockModel>, n: int, chain: Seq<VReg>) -> bool {
    &&& chain.len() > 0
    &&& is_root(checks, bs, chain[0])
    &&& forall|k: int| 0 <= k < chain.len() ==> (#[trigger] chain[k]) < n
    &&& forall|k: int| 0 <= k < chain.len() - 1 ==> depends(bs, #[trigger] chain[k], chain[k + 1])
}

/// The value in `v` is needed.
pub open spec fn live(checks: bool, bs: Seq<BlockModel>, n: int, v: VReg) -> bool {
    exists|chain: Seq<VReg>| #[trigger] need_chain(checks, bs, n, chain) && chain.last() == v
}

/// Whether an instruction stays.
pub open spec fn stays(checks: bool, bs: Seq<BlockModel>, n: int, i: InsnModel) -> bool {
    match defined_by(i) {
        None => true,
        Some(v) => acting(checks, i) || live(checks, bs, n, v),
    }
}

/// The instructions that stay.
pub open spec fn kept_insns(checks: bool, bs: Seq<BlockModel>, n: int, insns: Seq<InsnModel>) -> Seq<InsnModel>
    decreases insns.len(),
{
    if insns.len() == 0 {
        seq![]
    } else if stays(checks, bs, n, insns.last()) {
        kept_insns(checks, bs, n, insns.drop_last()).push(insns.last())
    } else {
        kept_insns(checks, bs, n, insns.drop_last())
    }
}

/// The blocks with only the instructions that stay.
pub open spec fn swept(checks: bool, bs: Seq<BlockModel>, n: int) -> Seq<BlockModel> {
    Seq::new(
        bs.len(),
        |b: int| BlockModel { insns: kept_insns(checks, bs, n, bs[b].insns), ..bs[b] },
    )
}

/// Sweeps until nothing is removed, at most `rounds` times.
pub open spec fn swept_rounds(checks: bool, bs: Seq<BlockModel>, n: int, rounds: nat) -> Seq<BlockModel>
    decreases rounds,
{
    if rounds == 0 || swept(checks, bs, n) == bs {
        bs
    } else {
        swept_rounds(checks, swept(checks, bs, n), n, (rounds - 1) as nat)
    }
}

/// Every register that an instruction defines has a type.
pub open spec fn defs_below(bs: Seq<BlockModel>, n: int) -> bool {
    forall|b: int, j: int|
        0 <= b < bs.len() && 0 <= j < bs[b].insns.len() ==> match defined_by(
            #[trigger] bs[b].insns[j],
        ) {
            Some(v) => v < n,
            None => true,
        }
}

/// What has been found to be needed: marked registers and those to be visited.
spec fn marks_sound(checks: bool, bs: Seq<BlockModel>, n: int, marks: Seq<bool>) -> bool {
    forall|v: int| 0 <= v < n && #[trigger] marks[v] ==> live(checks, bs, n, v as u32)
}

/// `v` is marked, out of range or waits in `stack`.
spec fn seen(marks: Seq<bool>, stack: Seq<VReg>, v: VReg) -> bool {
    v >= marks.len() || marks[v as int] || stack.contains(v)
}

/// `v` is a root or follows from a marked register.
spec fn wanted(checks: bool, bs: Seq<BlockModel>, marks: Seq<bool>, v: VReg) -> bool {
    is_root(checks, bs, v) || exists|w: u32|
        w < marks.len() && marks[w as int] && #[trigger] depends(bs, w, v)
}

fn push_all(stack: &mut Vec<VReg>, more: &Vec<VReg>)
    ensures
        final(stack)@ == old(stack)@ + more@,
{
    let mut i: usize = 0;
    let ghost base = stack@;
    assert(base + more@.take(0) =~= base);
    while i < more.len()
        invariant
            i <= more@.len(),
            base == old(stack)@,
            stack@ == base + more@.take(i as int),
        decreases more.len() - i,
    {
        stack.push(more[i]);
        i = i + 1;
        assert(stack@ =~= base + more@.take(i as int));
    }
    assert(more@.take(more@.len() as int) =~= more@);
}

/// The registers that a block needs.
fn block_roots(checks: bool, b: &Block) -> (r: Vec<VReg>)
    ensures
        forall|v: VReg| r@.contains(v) <==> block_needs(checks, b@, v),
{
    let mut out: Vec<VReg> = Vec::new();
    let ghost m = b@;
    let mut j: usize = 0;
    while j < b.insns.len()
        invariant
            j <= b.insns@.len(),
            m == b@,
            forall|v: VReg| #[trigger]
                out@.contains(v) <==> exists|i: int|
                    0 <= i < j && acting(checks, #[trigger] m.insns[i]) && used_by(
                        m.insns[i],
                    ).contains(v),
        decreases b.insns.len() - j,
    {
        let ghost before = out@;
        assert(m.insns[j as int] == b.insns@[j as int]@);
        if b.insns[j].acts(checks) {
            let uses: Vec<VReg> = b.insns[j].uses();
            push_all(&mut out, &uses);
            proof {
                assert forall|v: VReg| #[trigger] out@.contains(v) implies exists|i: int|
                    0 <= i < j + 1 && acting(checks, #[trigger] m.insns[i]) && used_by(
                        m.insns[i],
                    ).contains(v) by {
                    let w = choose|w: int| 0 <= w < out@.len() && out@[w] == v;
                    if w < before.len() {
                        assert(before[w] == v);
                        assert(before.contains(v));
                    } else {
                        assert(uses@[w - before.len()] == v);
                        assert(used_by(m.insns[j as int]).contains(v));
                    }
                }
                assert forall|v: VReg| (exists|i: int|
                    0 <= i < j + 1 && acting(checks, #[trigger] m.insns[i]) && used_by(
                        m.insns[i],
                    ).contains(v)) implies #[trigger] out@.contains(v) by {
                    let i = choose|i: int|
                        0 <= i < j + 1 && acting(checks, #[trigger] m.insns[i]) && used_by(
                            m.insns[i],
                        ).contains(v);
                    if i < j {
                        assert(before.contains(v));
                        let w = choose|w: int| 0 <= w < before.len() && before[w] == v;
                        assert(out@[w] == v);
                    } else {
                        let w = choose|w: int| 0 <= w < uses@.len() && uses@[w] == v;
                        assert(out@[before.len() + w] == v);
                    }
                }
            }
        }
        j = j + 1;
    }
    let ghost from_insns = out@;
    match b.term {
        Term::Ret(v) | Term::BrTrue(v, _) | Term::BrFalse(v, _) => {
            out.push(v);
        },
        _ => {},
    }
    let ghost from_term = out@;
    proof {
        assert forall|v: VReg| #[trigger] from_term.contains(v) <==> (from_insns.contains(v)
            || term_uses(m.term, v)) by {
            if from_insns.contains(v) {
                let w = choose|w: int| 0 <= w < from_insns.len() && from_insns[w] == v;
                assert(from_term[w] == v);
            }
            if term_uses(m.term, v) {
                assert(from_term[from_term.len() - 1] == v);
            }
            if from_term.contains(v) {
                let w = choose|w: int| 0 <= w < from_term.len() && from_term[w] == v;
                if w < from_insns.len() {
                    assert(from_insns[w] == v);
                }
            }
        }
    }
    let mut k: usize = 0;
    while k < b.edge_moves.len()
        invariant
            k <= b.edge_moves@.len(),
            m == b@,
            forall|v: VReg| #[trigger]
                out@.contains(v) <==> from_term.contains(v) || move_source(m.moves, k as int, v),
        decreases b.edge_moves.len() - k,
    {
        let mut l: usize = 0;
        assert(m.moves[k as int].1 == b.edge_moves@[k as int].1@);
        let ghost before = out@;
        while l < b.edge_moves[k as usize].1.len()
            invariant
                k < b.edge_moves@.len(),
                m == b@,
                m.moves[k as int].1 == b.edge_moves@[k as int].1@,
                l <= b.edge_moves@[k as int].1@.len(),
                forall|v: VReg| #[trigger]
                    out@.contains(v) <==> before.contains(v) || exists|i: int|
                        0 <= i < l && (#[trigger] m.moves[k as int].1[i]).1 == v,
            decreases b.edge_moves@[k as int].1@.len() - l,
        {
            let src: VReg = b.edge_moves[k].1[l].1;
            let ghost inner = out@;
            out.push(src);
            proof {
                assert forall|v: VReg| #[trigger] out@.contains(v) <==> before.contains(v)
                    || exists|i: int|
                    0 <= i < l + 1 && (#[trigger] m.moves[k as int].1[i]).1 == v by {
                    assert(m.moves[k as int].1[l as int].1 == src);
                    if inner.contains(v) {
                        let w = choose|w: int| 0 <= w < inner.len() && inner[w] == v;
                        assert(out@[w] == v);
                    }
                    if v == src {
                        assert(out@[inner.len() as int] == v);
                    }
                    if out@.contains(v) {
                        let w = choose|w: int| 0 <= w < out@.len() && out@[w] == v;
                        if w < inner.len() {
                            assert(inner[w] == v);
                            assert(inner.contains(v));
                        }
                    }
                }
            }
            l = l + 1;
        }
        proof {
            assert forall|v: VReg| #[trigger] out@.contains(v) <==> from_term.contains(v)
                || move_source(m.moves, k + 1, v) by {
                if move_source(m.moves, k + 1, v) {
                    let (a, i) = choose|a: int, i: int|
                        0 <= a < k + 1 && 0 <= i < m.moves[a].1.len() && (
                        #[trigger] m.moves[a].1[i]).1 == v;
                    if a < k {
                        assert(move_source(m.moves, k as int, v));
                        assert(before.contains(v));
                    }
                }
                if out@.contains(v) && !before.contains(v) {
                    let i = choose|i: int|
                        0 <= i < m.moves[k as int].1.len() && (
                        #[trigger] m.moves[k as int].1[i]).1 == v;
                    assert(m.moves[k as int].1[i].1 == v);
                }
                if before.contains(v) && !from_term.contains(v) {
                    assert(move_source(m.moves, k as int, v));
                    let (a, i) = choose|a: int, i: int|
                        0 <= a < k && 0 <= i < m.moves[a].1.len() && (
                        #[trigger] m.moves[a].1[i]).1 == v;
                    assert(m.moves[a].1[i].1 == v);
                }
            }
        }
        k = k + 1;
    }
    proof {
        assert forall|v: VReg| out@.contains(v) <==> block_needs(checks, m, v) by {
            assert(out@.contains(v) <==> from_term.contains(v) || move_source(
                m.moves,
                m.moves.len() as int,
                v,
            ));
            assert(from_term.contains(v) <==> (from_insns.contains(v) || term_uses(m.term, v)));
        }
    }
    out
}

/// One of the first `n` lists of moves has the source `v`.
spec fn move_source(moves: Seq<(usize, Seq<(VReg, VReg)>)>, n: int, v: VReg) -> bool {
    exists|a: int, i: int|
        0 <= a < n && 0 <= i < moves[a].1.len() && (#[trigger] moves[a].1[i]).1 == v
}

/// An instruction among those before `j` of block `b` and those of the earlier
/// blocks defines `v` and uses `u`.
spec fn depends_upto(bs: Seq<BlockModel>, b: int, j: int, v: VReg, u: VReg) -> bool {
    exists|c: int, i: int|
        0 <= c < bs.len() && 0 <= i < bs[c].insns.len() && (c < b || (c == b && i < j))
            && defined_by(#[trigger] bs[c].insns[i]) == Some(v) && used_by(
            bs[c].insns[i],
        ).contains(u)
}

proof fn depends_step(bs: Seq<BlockModel>, b: int, j: int, v: VReg, u: VReg)
    requires
        0 <= b < bs.len(),
        0 <= j < bs[b].insns.len(),
    ensures
        depends_upto(bs, b, j + 1, v, u) <==> (depends_upto(bs, b, j, v, u) || (defined_by(
            bs[b].insns[j],
        ) == Some(v) && used_by(bs[b].insns[j]).contains(u))),
{
    if depends_upto(bs, b, j + 1, v, u) {
        let (c, i) = choose|c: int, i: int|
            0 <= c < bs.len() && 0 <= i < bs[c].insns.len() && (c < b || (c == b && i < j + 1))
                && defined_by(#[trigger] bs[c].insns[i]) == Some(v) && used_by(
                bs[c].insns[i],
            ).contains(u);
        if c < b || i < j {
            assert(defined_by(bs[c].insns[i]) == Some(v));
        }
    }
    if depends_upto(bs, b, j, v, u) {
        let (c, i) = choose|c: int, i: int|
            0 <= c < bs.len() && 0 <= i < bs[c].insns.len() && (c < b || (c == b && i < j))
                && defined_by(#[trigger] bs[c].insns[i]) == Some(v) && used_by(
                bs[c].insns[i],
            ).contains(u);
        assert(defined_by(bs[c].insns[i]) == Some(v));
    }
    if defined_by(bs[b].insns[j]) == Some(v) && used_by(bs[b].insns[j]).contains(u) {
        assert(depends_upto(bs, b, j + 1, v, u));
    }
}

proof fn depends_block(bs: Seq<BlockModel>, b: int, v: VReg, u: VReg)
    requires
        0 <= b < bs.len(),
    ensures
        depends_upto(bs, b, bs[b].insns.len() as int, v, u) <==> depends_upto(bs, b + 1, 0, v, u),
{
    if depends_upto(bs, b + 1, 0, v, u) {
        let (c, i) = choose|c: int, i: int|
            0 <= c < bs.len() && 0 <= i < bs[c].insns.len() && (c < b + 1 || (c == b + 1 && i < 0))
                && defined_by(#[trigger] bs[c].insns[i]) == Some(v) && used_by(
                bs[c].insns[i],
            ).contains(u);
        assert(defined_by(bs[c].insns[i]) == Some(v));
    }
    if depends_upto(bs, b, bs[b].insns.len() as int, v, u) {
        let (c, i) = choose|c: int, i: int|
            0 <= c < bs.len() && 0 <= i < bs[c].insns.len() && (c < b || (c == b && i
                < bs[b].insns.len())) && defined_by(#[trigger] bs[c].insns[i]) == Some(v)
                && used_by(bs[c].insns[i]).contains(u);
        assert(defined_by(bs[c].insns[i]) == Some(v));
    }
}

proof fn contains_concat(a: Seq<VReg>, b: Seq<VReg>, v: VReg)
    ensures
        (a + b).contains(v) <==> a.contains(v) || b.contains(v),
{
    if a.contains(v) {
        let w = choose|w: int| 0 <= w < a.len() && a[w] == v;
        assert((a + b)[w] == v);
    }
    if b.contains(v) {
        let w = choose|w: int| 0 <= w < b.len() && b[w] == v;
        assert((a + b)[a.len() + w] == v);
    }
    if (a + b).contains(v) {
        let w = choose|w: int| 0 <= w < (a + b).len() && (a + b)[w] == v;
        if w < a.len() {
            assert(a[w] == v);
        } else {
            assert(b[w - a.len()] == v);
        }
    }
}

/// Push what the instructions that define `v` use.
fn push_deps(blocks: &Vec<Block>, v: VReg, stack: &mut Vec<VReg>)
    ensures
        forall|u: VReg| #[trigger]
            final(stack)@.contains(u) <==> old(stack)@.contains(u) || depends(
                blocks_model(blocks@),
                v,
                u,
            ),
{
    let ghost bs = blocks_model(blocks@);
    let ghost base = stack@;
    let mut b: usize = 0;
    while b < blocks.len()
        invariant
            b <= blocks@.len(),
            bs == blocks_model(blocks@),
            base == old(stack)@,
            forall|u: VReg| #[trigger]
                stack@.contains(u) <==> base.contains(u) || depends_upto(bs, b as int, 0, v, u),
        decreases blocks.len() - b,
    {
        let mut j: usize = 0;
        while j < blocks[b as usize].insns.len()
            invariant
                b < blocks@.len(),
                bs == blocks_model(blocks@),
                j <= blocks@[b as int].insns@.len(),
                forall|u: VReg| #[trigger]
                    stack@.contains(u) <==> base.contains(u) || depends_upto(
                        bs,
                        b as int,
                        j as int,
                        v,
                        u,
                    ),
            decreases blocks@[b as int].insns@.len() - j,
        {
            let ghost before = stack@;
            assert(bs[b as int].insns[j as int] == blocks@[b as int].insns@[j as int]@);
            let defined: Option<VReg> = blocks[b].insns[j].defined();
            if let Some(d) = defined {
                if d == v {
                    let uses: Vec<VReg> = blocks[b].insns[j].uses();
                    push_all(stack, &uses);
                    proof {
                        assert forall|u: VReg| #[trigger] stack@.contains(u) <==> before.contains(u)
                            || uses@.contains(u) by {
                            contains_concat(before, uses@, u);
                        }
                    }
                }
            }
            proof {
                assert forall|u: VReg| #[trigger] stack@.contains(u) <==> base.contains(u)
                    || depends_upto(bs, b as int, j + 1, v, u) by {
                    depends_step(bs, b as int, j as int, v, u);
                    assert(before.contains(u) <==> base.contains(u) || depends_upto(
                        bs,
                        b as int,
                        j as int,
                        v,
                        u,
                    ));
                }
            }
            j = j + 1;
        }
        proof {
            assert forall|u: VReg| #[trigger] stack@.contains(u) <==> base.contains(u)
                || depends_upto(bs, b + 1, 0, v, u) by {
                depends_block(bs, b as int, v, u);
            }
        }
        b = b + 1;
    }
    proof {
        assert forall|u: VReg| #[trigger] stack@.contains(u) <==> base.contains(u) || depends(
            bs,
            v,
            u,
        ) by {
            if depends(bs, v, u) {
                let (c, i) = choose|c: int, i: int|
                    0 <= c < bs.len() && 0 <= i < bs[c].insns.len() && defined_by(
                        #[trigger] bs[c].insns[i],
                    ) == Some(v) && used_by(bs[c].insns[i]).contains(u);
                assert(depends_upto(bs, b as int, 0, v, u));
            }
        }
    }
}

/// The registers that the blocks need.
fn all_roots(checks: bool, blocks: &Vec<Block>) -> (r: Vec<VReg>)
    ensures
        forall|v: VReg| #[trigger] r@.contains(v) <==> is_root(checks, blocks_model(blocks@), v),
{
    let ghost bs = blocks_model(blocks@);
    let mut out: Vec<VReg> = Vec::new();
    let mut b: usize = 0;
    while b < blocks.len()
        invariant
            b <= blocks@.len(),
            bs == blocks_model(blocks@),
            forall|v: VReg| #[trigger]
                out@.contains(v) <==> exists|c: int| 0 <= c < b && block_needs(checks, #[trigger] bs[c], v),
        decreases blocks.len() - b,
    {
        let ghost before = out@;
        let more: Vec<VReg> = block_roots(checks, &blocks[b]);
        push_all(&mut out, &more);
        proof {
            assert(bs[b as int] == blocks@[b as int]@);
            assert forall|v: VReg| #[trigger] out@.contains(v) <==> exists|c: int|
                0 <= c < b + 1 && block_needs(checks, #[trigger] bs[c], v) by {
                contains_concat(before, more@, v);
                assert(more@.contains(v) <==> block_needs(checks, bs[b as int], v));
                if before.contains(v) {
                    let c = choose|c: int| 0 <= c < b && block_needs(checks, #[trigger] bs[c], v);
                    assert(block_needs(checks, bs[c], v));
                }
                if exists|c: int| 0 <= c < b + 1 && block_needs(checks, #[trigger] bs[c], v) {
                    let c = choose|c: int| 0 <= c < b + 1 && block_needs(checks, #[trigger] bs[c], v);
                    if c < b {
                        assert(before.contains(v));
                    }
                }
            }
        }
        b = b + 1;
    }
    out
}

proof fn live_root(checks: bool, bs: Seq<BlockModel>, n: int, v: VReg)
    requires
        is_root(checks, bs, v),
        v < n,
    ensures
        live(checks, bs, n, v),
{
    let chain = seq![v];
    assert(need_chain(checks, bs, n, chain) && chain.last() == v);
}

proof fn live_step(checks: bool, bs: Seq<BlockModel>, n: int, v: VReg, u: VReg)
    requires
        live(checks, bs, n, v),
        depends(bs, v, u),
        u < n,
    ensures
        live(checks, bs, n, u),
{
    let chain = choose|chain: Seq<VReg>|
        #[trigger] need_chain(checks, bs, n, chain) && chain.last() == v;
    let longer = chain.push(u);
    assert forall|k: int| 0 <= k < longer.len() - 1 implies depends(
        bs,
        #[trigger] longer[k],
        longer[k + 1],
    ) by {
        assert(longer[k] == chain[k]);
        if k < chain.len() - 1 {
            assert(longer[k + 1] == chain[k + 1]);
        }
    }
    assert(longer[0] == chain[0]);
    assert(need_chain(checks, bs, n, longer) && longer.last() == u);
}

proof fn chain_marked(checks: bool, bs: Seq<BlockModel>, marks: Seq<bool>, chain: Seq<VReg>, k: int)
    requires
        need_chain(checks, bs, marks.len() as int, chain),
        forall|v: VReg| #[trigger] wanted(checks, bs, marks, v) ==> v >= marks.len() || marks[v as int],
        0 <= k < chain.len(),
    ensures
        marks[chain[k] as int],
    decreases k,
{
    if k > 0 {
        chain_marked(checks, bs, marks, chain, k - 1);
        assert(depends(bs, chain[k - 1], chain[k - 1 + 1]));
        assert(wanted(checks, bs, marks, chain[k]));
    } else {
        assert(wanted(checks, bs, marks, chain[0]));
    }
}

/// Which registers hold values that are needed.
fn mark_live(checks: bool, blocks: &Vec<Block>, n: usize) -> (marks: Vec<bool>)
    ensures
        marks@.len() == n,
        forall|v: u32| v < n ==> (#[trigger] marks@[v as int]) == live(
            checks,
            blocks_model(blocks@),
            n as int,
            v,
        ),
{
    let ghost bs = blocks_model(blocks@);
    let mut marks: Vec<bool> = Vec::new();
    while marks.len() < n
        invariant
            marks@.len() <= n,
            forall|k: int| 0 <= k < marks@.len() ==> !marks@[k],
        decreases n - marks.len(),
    {
        marks.push(false);
    }
    let mut stack: Vec<VReg> = all_roots(checks, blocks);
    proof {
        assert forall|v: VReg| stack@.contains(v) && v < n implies live(checks, bs, n as int, v) by {
            live_root(checks, bs, n as int, v);
        }
    }
    while stack.len() > 0
        invariant
            marks@.len() == n,
            bs == blocks_model(blocks@),
            marks_sound(checks, bs, n as int, marks@),
            forall|v: VReg| #[trigger] stack@.contains(v) && v < n ==> live(checks, bs, n as int, v),
            forall|v: VReg| #[trigger] wanted(checks, bs, marks@, v) ==> seen(marks@, stack@, v),
        decreases unmarked(marks@), stack.len(),
    {
        let ghost stack0 = stack@;
        let last: usize = stack.len() - 1;
        let v: VReg = stack[last];
        stack.truncate(last);
        proof {
            assert(stack0[last as int] == v);
            assert(stack0.contains(v));
            assert(stack@ + seq![v] =~= stack0);
            assert forall|u: VReg| #[trigger] stack0.contains(u) <==> stack@.contains(u) || u
                == v by {
                contains_concat(stack@, seq![v], u);
                assert(seq![v][0] == v);
            }
        }
        if (v as usize) < n && !marks[v as usize] {
            let ghost marks0 = marks@;
            let ghost rest = stack@;
            marks.set(v as usize, true);
            proof {
                unmarked_update(marks0, v as int);
                assert(live(checks, bs, n as int, v));
            }
            push_deps(blocks, v, &mut stack);
            proof {
                assert forall|w: int| 0 <= w < n && #[trigger] marks@[w] implies live(
                    checks,
                    bs,
                    n as int,
                    w as u32,
                ) by {
                    if w != v {
                        assert(marks0[w]);
                    }
                }
                assert forall|u: VReg| #[trigger] stack@.contains(u) && u < n implies live(
                    checks,
                    bs,
                    n as int,
                    u,
                ) by {
                    if rest.contains(u) {
                        assert(stack0.contains(u));
                    } else {
                        live_step(checks, bs, n as int, v, u);
                    }
                }
                assert forall|u: VReg| #[trigger] wanted(checks, bs, marks@, u) implies seen(
                    marks@,
                    stack@,
                    u,
                ) by {
                    if wanted(checks, bs, marks0, u) {
                        assert(seen(marks0, stack0, u));
                    } else {
                        let w = choose|w: u32|
                            w < marks@.len() && marks@[w as int] && #[trigger] depends(bs, w, u);
                        if w != v {
                            assert(marks0[w as int]);
                            assert(wanted(checks, bs, marks0, u));
                        }
                        assert(depends(bs, v, u));
                        assert(stack@.contains(u));
                    }
                }
            }
        } else {
            proof {
                assert forall|u: VReg| #[trigger] wanted(checks, bs, marks@, u) implies seen(
                    marks@,
                    stack@,
                    u,
                ) by {
                    assert(seen(marks@, stack0, u));
                }
                assert forall|u: VReg| #[trigger] stack@.contains(u) && u < n implies live(
                    checks,
                    bs,
                    n as int,
                    u,
                ) by {
                    assert(stack0.contains(u));
                }
            }
        }
    }
    proof {
        assert forall|v: u32| v < n implies (#[trigger] marks@[v as int]) == live(
            checks,
            bs,
            n as int,
            v,
        ) by {
            if live(checks, bs, n as int, v) {
                let chain = choose|chain: Seq<VReg>|
                    #[trigger] need_chain(checks, bs, n as int, chain) && chain.last() == v;
                assert forall|u: VReg| #[trigger] wanted(checks, bs, marks@, u) implies u >= marks@.len()
                    || marks@[u as int] by {
                    assert(seen(marks@, stack@, u));
                }
                chain_marked(checks, bs, marks@, chain, chain.len() - 1);
            }
        }
    }
    marks
}

/// The instructions that stay, and whether any is gone.
fn sweep_insns(checks: bool, insns: &Vec<Insn>, marks: &Vec<bool>, bs: Ghost<Seq<BlockModel>>) -> (r: (
    Vec<Insn>,
    bool,
))
    requires
        forall|v: u32| v < marks@.len() ==> (#[trigger] marks@[v as int]) == live(
            checks,
            bs@,
            marks@.len() as int,
            v,
        ),
        forall|j: int|
            0 <= j < insns@.len() ==> match defined_by((#[trigger] insns@[j])@) {
                Some(v) => v < marks@.len(),
                None => true,
            },
    ensures
        insns_model(r.0@) == kept_insns(checks, bs@, marks@.len() as int, insns_model(insns@)),
        r.1 == (insns_model(r.0@) != insns_model(insns@)),
{
    let ghost all = insns_model(insns@);
    let ghost n = marks@.len() as int;
    let mut kept: Vec<Insn> = Vec::new();
    let mut removed: bool = false;
    let mut j: usize = 0;
    assert(all.take(0) =~= seq![]);
    assert(insns_model(kept@) =~= seq![]);
    while j < insns.len()
        invariant
            j <= insns@.len(),
            all == insns_model(insns@),
            n == marks@.len(),
            forall|v: u32| v < marks@.len() ==> (#[trigger] marks@[v as int]) == live(checks, bs@, n, v),
            forall|j: int|
                0 <= j < insns@.len() ==> match defined_by((#[trigger] insns@[j])@) {
                    Some(v) => v < marks@.len(),
                    None => true,
                },
            insns_model(kept@) == kept_insns(checks, bs@, n, all.take(j as int)),
            kept@.len() <= j,
            removed == (kept@.len() < j),
            !removed ==> insns_model(kept@) == all.take(j as int),
        decreases insns.len() - j,
    {
        let ghost before = insns_model(kept@);
        assert(all.take(j + 1).drop_last() =~= all.take(j as int));
        assert(all.take(j + 1).last() == insns@[j as int]@);
        let keep: bool = match insns[j].defined() {
            None => true,
            Some(v) => insns[j].acts(checks) || marks[v as usize],
        };
        if keep {
            let copy: Insn = insns[j].clone();
            let ghost value = copy@;
            kept.push(copy);
            proof {
                assert(insns_model(kept@) =~= before.push(value));
                if !removed {
                    assert(insns_model(kept@) =~= all.take(j + 1));
                }
            }
        } else {
            removed = true;
        }
        j = j + 1;
    }
    assert(all.take(all.len() as int) =~= all);
    (kept, removed)
}

/// Remove pure instructions whose results are never used.
pub fn dead_code(checks: bool, blocks: &mut Vec<Block>, types: usize)
    requires
        defs_below(blocks_model(old(blocks)@), types as int),
    ensures
        final(blocks)@.len() == old(blocks)@.len(),
        blocks_model(final(blocks)@) == swept_rounds(
            checks,
            blocks_model(old(blocks)@),
            types as int,
            4,
        ),
{
    let n: usize = blocks.len();
    let ghost all = swept_rounds(checks, blocks_model(blocks@), types as int, 4);
    let mut left: usize = 4;
    let mut removed: bool = true;
    while left > 0 && removed
        invariant
            n == blocks@.len(),
            n == old(blocks)@.len(),
            left <= 4,
            defs_below(blocks_model(blocks@), types as int),
            all == swept_rounds(checks, blocks_model(old(blocks)@), types as int, 4),
            removed ==> all == swept_rounds(checks, blocks_model(blocks@), types as int, left as nat),
            !removed ==> all == blocks_model(blocks@),
        decreases left,
    {
        let ghost bs = blocks_model(blocks@);
        let marks: Vec<bool> = mark_live(checks, blocks, types);
        removed = false;
        let mut b: usize = 0;
        while b < n
            invariant
                b <= n,
                n == blocks@.len(),
                n == bs.len(),
                marks@.len() == types,
                defs_below(bs, types as int),
                forall|v: u32| v < types ==> (#[trigger] marks@[v as int]) == live(
                    checks,
                    bs,
                    types as int,
                    v,
                ),
                forall|c: int|
                    0 <= c < b ==> (#[trigger] blocks@[c])@ == swept(checks, bs, types as int)[c],
                forall|c: int| b <= c < n ==> (#[trigger] blocks@[c])@ == bs[c],
                removed == exists|c: int| 0 <= c < b && #[trigger] swept(checks, bs, types as int)[c] != bs[c],
            decreases n - b,
        {
            let ghost before = blocks@;
            assert(blocks@[b as int]@ == bs[b as int]);
            proof {
                assert forall|j: int|
                    0 <= j < blocks@[b as int].insns@.len() implies match defined_by(
                    (#[trigger] blocks@[b as int].insns@[j])@,
                ) {
                    Some(v) => v < marks@.len(),
                    None => true,
                } by {
                    assert(bs[b as int].insns[j] == blocks@[b as int].insns@[j]@);
                }
            }
            let (kept, gone) = sweep_insns(checks, &blocks[b].insns, &marks, Ghost(bs));
            blocks[b].insns = kept;
            if gone {
                removed = true;
            }
            proof {
                assert(blocks@[b as int]@ =~= swept(checks, bs, types as int)[b as int]);
                assert(gone == (swept(checks, bs, types as int)[b as int] != bs[b as int])) by {
                    if !gone {
                        assert(blocks@[b as int]@ =~= bs[b as int]);
                    }
                }
            }
            b = b + 1;
        }
        proof {
            let next = swept(checks, bs, types as int);
            assert(blocks_model(blocks@) =~= next);
            if removed {
                let c = choose|c: int| 0 <= c < n && #[trigger] next[c] != bs[c];
                assert(next != bs);
            } else {
                assert(next =~= bs);
            }
            swept_defs(checks, bs, types as int);
        }
        left = left - 1;
    }
}

proof fn kept_subset(checks: bool, bs: Seq<BlockModel>, n: int, insns: Seq<InsnModel>, j: int)
    requires
        0 <= j < kept_insns(checks, bs, n, insns).len(),
    ensures
        insns.contains(kept_insns(checks, bs, n, insns)[j]),
    decreases insns.len(),
{
    let prev = kept_insns(checks, bs, n, insns.drop_last());
    if stays(checks, bs, n, insns.last()) && j == prev.len() {
        assert(insns[insns.len() - 1] == insns.last());
    } else {
        kept_subset(checks, bs, n, insns.drop_last(), j);
        let w = choose|w: int|
            0 <= w < insns.drop_last().len() && insns.drop_last()[w] == kept_insns(
                checks,
                bs,
                n,
                insns.drop_last(),
            )[j];
        assert(insns[w] == kept_insns(checks, bs, n, insns)[j]);
    }
}

proof fn swept_defs(checks: bool, bs: Seq<BlockModel>, n: int)
    requires
        defs_below(bs, n),
    ensures
        defs_below(swept(checks, bs, n), n),
{
    let next = swept(checks, bs, n);
    assert forall|b: int, j: int|
        0 <= b < next.len() && 0 <= j < next[b].insns.len() implies match defined_by(
        #[trigger] next[b].insns[j],
    ) {
        Some(v) => v < n,
        None => true,
    } by {
        kept_subset(checks, bs, n, bs[b].insns, j);
        let w = choose|w: int| 0 <= w < bs[b].insns.len() && bs[b].insns[w] == next[b].insns[j];
        assert(match defined_by(bs[b].insns[w]) {
            Some(v) => v < n,
            None => true,
        });
    }
}

// ---------------------------------------------------------------------------
// All passes
// ---------------------------------------------------------------------------

/// The optimized blocks of a method with `n` registers.
pub open spec fn optimized(
    bs: Seq<BlockModel>,
    facts: Seq<FloatFact>,
    checks: bool,
    n: int,
) -> Seq<BlockModel> {
    swept_rounds(checks, fold_branches(folded(bs, facts, checks).blocks, 0), n, 4)
}

/// Run the optimization passes: constant folding, folding of branches on
/// constants, and dead code elimination. Float arithmetic is folded as far as
/// the facts go; the questions that they leave open are returned.
pub fn optimize(func: &mut Function, facts: &Vec<FloatFact>) -> (asks: Vec<FloatAsk>)
    requires
        old(func).blocks@.len() < usize::MAX / 4,
        defs_below(blocks_model(old(func).blocks@), old(func).types@.len() as int),
    ensures
        blocks_model(final(func).blocks@) == optimized(
            blocks_model(old(func).blocks@),
            facts@,
            old(func).overflow_checks,
            old(func).types@.len() as int,
        ),
        asks@ == folded(
            blocks_model(old(func).blocks@),
            facts@,
            old(func).overflow_checks,
        ).asks,
        final(func).method_id == old(func).method_id,
        final(func).name == old(func).name,
        final(func).types == old(func).types,
        final(func).helper_ops == old(func).helper_ops,
        final(func).locals == old(func).locals,
        final(func).params == old(func).params,
        final(func).local_types == old(func).local_types,
        final(func).max_stack == old(func).max_stack,
        final(func).spill_bytes == old(func).spill_bytes,
        final(func).overflow_checks == old(func).overflow_checks,
{
    let n: usize = func.types.len();
    let checks: bool = func.overflow_checks;
    let ghost bs = blocks_model(func.blocks@);
    let asks: Vec<FloatAsk> = constant_fold(&mut func.blocks, facts, checks);
    proof {
        folded_defs(bs, facts@, checks, n as int);
        fold_branches_insns(folded(bs, facts@, checks).blocks, 0);
    }
    fold_trivial_branches(&mut func.blocks);
    proof {
        let a = folded(bs, facts@, checks).blocks;
        let b = fold_branches(a, 0);
        assert forall|c: int, j: int|
            0 <= c < b.len() && 0 <= j < b[c].insns.len() implies match defined_by(
            #[trigger] b[c].insns[j],
        ) {
            Some(v) => v < n,
            None => true,
        } by {
            assert(b[c].insns == a[c].insns);
            assert(match defined_by(a[c].insns[j]) {
                Some(v) => v < n,
                None => true,
            });
        }
    }
    dead_code(checks, &mut func.blocks, n);
    asks
}

// ---------------------------------------------------------------------------
// Laws
// ---------------------------------------------------------------------------

/// The same instruction, or a pure one that sets the same register.
pub open spec fn refines(old: InsnModel, new: InsnModel) -> bool {
    new == old || (!effectful(old) && !effectful(new) && defined_by(new) == defined_by(old)
        && defined_by(old) is Some)
}

/// Every instruction of `new` refines the one in its place in `old`.
pub open spec fn blocks_refine(old: Seq<BlockModel>, new: Seq<BlockModel>) -> bool {
    &&& new.len() == old.len()
    &&& forall|b: int|
        0 <= b < old.len() ==> (#[trigger] new[b]).insns.len() == old[b].insns.len()
            && new[b].term == old[b].term && new[b].succs == old[b].succs && new[b].moves
            == old[b].moves
    &&& forall|b: int, j: int|
        0 <= b < old.len() && 0 <= j < old[b].insns.len() ==> refines(
            old[b].insns[j],
            #[trigger] new[b].insns[j],
        )
}

proof fn refine_trans(a: Seq<BlockModel>, b: Seq<BlockModel>, c: Seq<BlockModel>)
    requires
        blocks_refine(a, b),
        blocks_refine(b, c),
    ensures
        blocks_refine(a, c),
{
    assert forall|k: int| 0 <= k < a.len() implies (#[trigger] c[k]).insns.len()
        == a[k].insns.len() && c[k].term == a[k].term && c[k].succs == a[k].succs && c[k].moves
        == a[k].moves by {
        assert(b[k].insns.len() == a[k].insns.len());
    }
    assert forall|k: int, j: int| 0 <= k < a.len() && 0 <= j < a[k].insns.len() implies refines(
        a[k].insns[j],
        #[trigger] c[k].insns[j],
    ) by {
        assert(b[k].insns.len() == a[k].insns.len());
        assert(refines(a[k].insns[j], b[k].insns[j]));
        assert(refines(b[k].insns[j], c[k].insns[j]));
    }
}

proof fn fold_step_refines(st: FoldState, facts: Seq<FloatFact>, checks: bool, b: int, j: int)
    requires
        0 <= b < st.blocks.len(),
        0 <= j < st.blocks[b].insns.len(),
    ensures
        blocks_refine(st.blocks, fold_step(st, facts, checks, b, j).blocks),
{
    let i = st.blocks[b].insns[j];
    match fold_insn(st.blocks, facts, checks, i) {
        Fold::Become(c) => {
            let next = with_insn(st.blocks, b, j, set_const(defined_by(i)->Some_0, c));
            assert(refines(i, next[b].insns[j]));
            assert forall|k: int, l: int|
                0 <= k < st.blocks.len() && 0 <= l < st.blocks[k].insns.len() implies refines(
                st.blocks[k].insns[l],
                #[trigger] next[k].insns[l],
            ) by {
                if k == b && l == j {
                } else {
                    assert(next[k].insns[l] == st.blocks[k].insns[l]);
                }
            }
        },
        _ => {},
    }
}

proof fn fold_round_refines(st: FoldState, facts: Seq<FloatFact>, checks: bool, b: int, j: int)
    requires
        0 <= b,
        0 <= j,
    ensures
        blocks_refine(st.blocks, fold_round(st, facts, checks, b, j).blocks),
    decreases
        st.blocks.len() - b,
        (if 0 <= b < st.blocks.len() { st.blocks[b].insns.len() - j } else { 0 }),
{
    if b < st.blocks.len() {
        if j >= st.blocks[b].insns.len() {
            fold_round_refines(st, facts, checks, b + 1, 0);
        } else {
            fold_step_refines(st, facts, checks, b, j);
            let next = fold_step(st, facts, checks, b, j);
            fold_round_refines(next, facts, checks, b, j + 1);
            refine_trans(
                st.blocks,
                next.blocks,
                fold_round(next, facts, checks, b, j + 1).blocks,
            );
        }
    }
}

proof fn fold_rounds_refines(st: FoldState, facts: Seq<FloatFact>, checks: bool, rounds: nat)
    ensures
        blocks_refine(st.blocks, fold_rounds(st, facts, checks, rounds).blocks),
    decreases rounds,
{
    if st.changed && rounds > 0 {
        let start = FoldState { changed: false, ..st };
        let next = fold_round(start, facts, checks, 0, 0);
        fold_round_refines(start, facts, checks, 0, 0);
        fold_rounds_refines(next, facts, checks, (rounds - 1) as nat);
        refine_trans(
            st.blocks,
            next.blocks,
            fold_rounds(next, facts, checks, (rounds - 1) as nat).blocks,
        );
    }
}

/// Constant folding only turns pure instructions into constants of the same
/// register: every helper call and store stays where it is, and so do the
/// terminators and the moves.
pub proof fn folding_keeps_effects(bs: Seq<BlockModel>, facts: Seq<FloatFact>, checks: bool)
    ensures
        blocks_refine(bs, folded(bs, facts, checks).blocks),
{
    fold_rounds_refines(
        FoldState { blocks: bs, asks: seq![], changed: true },
        facts,
        checks,
        1 + bs.len() * 2,
    );
}

proof fn folded_defs(bs: Seq<BlockModel>, facts: Seq<FloatFact>, checks: bool, n: int)
    requires
        defs_below(bs, n),
    ensures
        defs_below(folded(bs, facts, checks).blocks, n),
{
    folding_keeps_effects(bs, facts, checks);
    let next = folded(bs, facts, checks).blocks;
    assert forall|b: int, j: int|
        0 <= b < next.len() && 0 <= j < next[b].insns.len() implies match defined_by(
        #[trigger] next[b].insns[j],
    ) {
        Some(v) => v < n,
        None => true,
    } by {
        assert(refines(bs[b].insns[j], next[b].insns[j]));
        assert(match defined_by(bs[b].insns[j]) {
            Some(v) => v < n,
            None => true,
        });
    }
}

/// The same instructions in every block.
pub open spec fn same_insns(a: Seq<BlockModel>, b: Seq<BlockModel>) -> bool {
    &&& a.len() == b.len()
    &&& forall|k: int| 0 <= k < a.len() ==> (#[trigger] b[k]).insns == a[k].insns
}

proof fn unlink_insns(bs: Seq<BlockModel>, succs: Seq<usize>, taken: usize, i: usize, k: int)
    ensures
        same_insns(bs, unlink(bs, succs, taken, i, k)),
    decreases succs.len() - k,
{
    if 0 <= k < succs.len() {
        let s = succs[k] as int;
        let next = if succs[k] != taken && s < bs.len() {
            bs.update(s, BlockModel { preds: without(bs[s].preds, i), ..bs[s] })
        } else {
            bs
        };
        unlink_insns(next, succs, taken, i, k + 1);
        let last = unlink(next, succs, taken, i, k + 1);
        assert forall|c: int| 0 <= c < bs.len() implies (#[trigger] last[c]).insns
            == bs[c].insns by {
            assert(last[c].insns == next[c].insns);
        }
    }
}

/// Folding branches leaves the instructions of every block as they are.
pub proof fn fold_branches_insns(bs: Seq<BlockModel>, i: int)
    requires
        0 <= i,
    ensures
        same_insns(bs, fold_branches(bs, i)),
    decreases bs.len() - i,
{
    if i < bs.len() {
        let next = match bs[i].term {
            Term::BrTrue(c, t) => fold_branch(bs, i, c, t, true),
            Term::BrFalse(c, t) => fold_branch(bs, i, c, t, false),
            _ => bs,
        };
        match bs[i].term {
            Term::BrTrue(c, t) => {
                fold_branch_len(bs, i, c, t, true);
            },
            Term::BrFalse(c, t) => {
                fold_branch_len(bs, i, c, t, false);
            },
            _ => {},
        }
        assert(same_insns(bs, next)) by {
            assert forall|x: usize| same_insns(bs, #[trigger] take_branch(bs, i, x)) by {
                unlink_insns(bs, bs[i].succs, x, i as usize, 0);
                let cut = unlink(bs, bs[i].succs, x, i as usize, 0);
                assert forall|c: int| 0 <= c < bs.len() implies (#[trigger] take_branch(
                    bs,
                    i,
                    x,
                )[c]).insns == bs[c].insns by {
                    assert(cut[c].insns == bs[c].insns);
                }
            }
        }
        fold_branches_insns(next, i + 1);
        let last = fold_branches(next, i + 1);
        assert forall|c: int| 0 <= c < bs.len() implies (#[trigger] last[c]).insns
            == bs[c].insns by {
            assert(last[c].insns == next[c].insns);
        }
    }
}

/// The instructions with an effect, in order.
pub open spec fn effects(insns: Seq<InsnModel>) -> Seq<InsnModel>
    decreases insns.len(),
{
    if insns.len() == 0 {
        seq![]
    } else if effectful(insns.last()) {
        effects(insns.drop_last()).push(insns.last())
    } else {
        effects(insns.drop_last())
    }
}

proof fn kept_effects(checks: bool, bs: Seq<BlockModel>, n: int, insns: Seq<InsnModel>)
    ensures
        effects(kept_insns(checks, bs, n, insns)) == effects(insns),
    decreases insns.len(),
{
    if insns.len() > 0 {
        let prev = kept_insns(checks, bs, n, insns.drop_last());
        kept_effects(checks, bs, n, insns.drop_last());
        if stays(checks, bs, n, insns.last()) {
            assert(prev.push(insns.last()).drop_last() =~= prev);
        }
    }
}

proof fn swept_rounds_effects(checks: bool, bs: Seq<BlockModel>, n: int, rounds: nat, b: int)
    requires
        0 <= b < bs.len(),
    ensures
        swept_rounds(checks, bs, n, rounds).len() == bs.len(),
        effects(swept_rounds(checks, bs, n, rounds)[b].insns) == effects(bs[b].insns),
    decreases rounds,
{
    if rounds > 0 && swept(checks, bs, n) != bs {
        kept_effects(checks, bs, n, bs[b].insns);
        swept_rounds_effects(checks, swept(checks, bs, n), n, (rounds - 1) as nat, b);
    }
}

proof fn refine_effects(old: Seq<InsnModel>, new: Seq<InsnModel>)
    requires
        old.len() == new.len(),
        forall|j: int| 0 <= j < old.len() ==> refines(old[j], #[trigger] new[j]),
    ensures
        effects(new) == effects(old),
    decreases old.len(),
{
    if old.len() > 0 {
        assert(refines(old[old.len() - 1], new[new.len() - 1]));
        assert forall|j: int| 0 <= j < old.drop_last().len() implies refines(
            old.drop_last()[j],
            #[trigger] new.drop_last()[j],
        ) by {
            assert(refines(old[j], new[j]));
        }
        refine_effects(old.drop_last(), new.drop_last());
    }
}

/// Optimization neither drops, adds nor reorders the instructions with an
/// effect of any block.
pub proof fn optimize_keeps_effects(
    bs: Seq<BlockModel>,
    facts: Seq<FloatFact>,
    checks: bool,
    n: int,
    b: int,
)
    requires
        0 <= b < bs.len(),
    ensures
        optimized(bs, facts, checks, n).len() == bs.len(),
        effects(optimized(bs, facts, checks, n)[b].insns) == effects(bs[b].insns),
{
    folding_keeps_effects(bs, facts, checks);
    let a = folded(bs, facts, checks).blocks;
    fold_branches_insns(a, 0);
    let c = fold_branches(a, 0);
    assert(c[b].insns == a[b].insns);
    assert forall|j: int| 0 <= j < bs[b].insns.len() implies refines(
        bs[b].insns[j],
        #[trigger] a[b].insns[j],
    ) by {
    }
    assert(a[b].insns.len() == bs[b].insns.len());
    refine_effects(bs[b].insns, a[b].insns);
    swept_rounds_effects(checks, c, n, 4, b);
}

} // verus!
