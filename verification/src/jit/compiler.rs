//! The driver of the compiler: the cache of compiled methods, the passes in
//! their order, and what the status of compiled code means.

use crate::arith::{FloatAsk, FloatFact};
use crate::bytecode::{method_of, MethodDef, MethodId, Module, Op};
use crate::jit::analyze::loads_local;
use crate::jit::codegen::{emit_function, function_bytes, STATUS_ERROR, STATUS_EXCEPTION, STATUS_OK};
use crate::jit::ir::{blocks_model, defined_by, Block, BlockModel, Function, VReg};
use crate::jit::liveness::{entry_at, is_interval, well_linked, Interval};
use crate::jit::lower::{is_lowered, lower_method, lowerable, Lowerer};
use crate::jit::optimize::{defs_below, optimize, optimized};
use crate::jit::regalloc::{allocate, is_allocation, Allocation};
use crate::text::{cat2, dec, dec_u64, own};
use crate::vm::value::Value;
use crate::vm::world::{Applied, Effect, Fault, VmError};
use vstd::prelude::*;

verus! {

/// Default number of interpreter invocations before a method is compiled.
pub const JIT_THRESHOLD: u64 = 100;

/// Why a method was not compiled.
#[derive(Debug)]
pub enum CompileError {
    /// The method uses a construct the compiler cannot lower.
    Unsupported(String),
    /// Failed to allocate executable memory.
    OutOfMemory,
}

impl CompileError {
    /// The text of the error.
    pub fn message(&self) -> (r: String)
        ensures
            r@ == (match *self {
                CompileError::Unsupported(msg) => "jit: unsupported: "@ + msg@,
                CompileError::OutOfMemory => "jit: out of executable memory"@,
            }),
    {
        match self {
            CompileError::Unsupported(msg) => cat2("jit: unsupported: ", msg.as_str()),
            CompileError::OutOfMemory => own("jit: out of executable memory"),
        }
    }
}

/// Result of running a compiled method.
#[derive(Debug, Clone, Copy, PartialEq, Eq, Structural)]
pub enum FrameResult {
    /// The method returned normally with this value.
    Normal(Value),
    /// The method threw; the value is the exception.
    Exception(Value),
}

/// What a status of compiled code with the value in the result slot means.
pub open spec fn outcome_of(status: u64, result: Value) -> Result<FrameResult, Fault> {
    if status == STATUS_OK {
        Ok(FrameResult::Normal(result))
    } else if status == STATUS_EXCEPTION {
        Ok(FrameResult::Exception(result))
    } else {
        Err(Fault::Runtime("jit: unknown return status "@ + dec(status as nat)))
    }
}

/// What a status of compiled code with the value in the result slot means,
/// where no error was recorded.
pub fn frame_result(status: u64, result: Value) -> (r: Result<FrameResult, VmError>)
    ensures
        outcome_of(status, result) == (match r {
            Ok(x) => Ok(x),
            Err(e) => Err(e@),
        }),
{
    if status == STATUS_OK {
        Ok(FrameResult::Normal(result))
    } else if status == STATUS_EXCEPTION {
        Ok(FrameResult::Exception(result))
    } else {
        let n: String = dec_u64(status);
        Err(VmError::Runtime(cat2("jit: unknown return status ", n.as_str())))
    }
}

/// What the dispatcher hands back to compiled code after an operation: a status
/// and the value for the result slot, if there is one. None where the operation
/// is not finished: a method is to be run, or a question to be answered.
pub open spec fn dispatched_as(e: Effect) -> Option<(u64, Option<Value>)> {
    match e {
        Effect::Value(v) => Some((STATUS_OK, Some(v))),
        Effect::Nothing => Some((STATUS_OK, None)),
        Effect::Show(_) => Some((STATUS_OK, None)),
        Effect::Thrown(v) => Some((STATUS_EXCEPTION, Some(v))),
        Effect::Failed(_) => Some((STATUS_ERROR, None)),
        Effect::Invoke(_, _) => None,
        Effect::Ask(_) => None,
    }
}

/// What the dispatcher hands back to compiled code after an operation.
pub fn dispatch_status(e: &Applied) -> (r: Option<(u64, Option<Value>)>)
    ensures
        r == dispatched_as(e@),
{
    match e {
        Applied::Value(v) => Some((STATUS_OK, Some(*v))),
        Applied::Nothing => Some((STATUS_OK, None)),
        Applied::Show(_) => Some((STATUS_OK, None)),
        Applied::Thrown(v) => Some((STATUS_EXCEPTION, Some(*v))),
        Applied::Failed(_) => Some((STATUS_ERROR, None)),
        Applied::Invoke(_, _) => None,
        Applied::Ask(_) => None,
    }
}

/// A compiled method.
#[derive(Debug)]
pub struct CompiledMethod {
    /// The method.
    pub method_id: MethodId,
    /// How many locals it has.
    pub locals_count: u16,
    /// The operations that its code hands to the dispatcher, by number.
    pub helpers: Vec<Op>,
    /// Machine code.
    pub code: Vec<u8>,
    /// Size of its stack frame.
    pub frame_bytes: usize,
    /// Questions about floats that were open: with the answers, more of them
    /// are folded.
    pub asks: Vec<FloatAsk>,
}

impl CompiledMethod {
    /// The method this was compiled from.
    pub fn method_id(&self) -> (r: MethodId)
        ensures
            r == self.method_id,
    {
        self.method_id
    }
}

// ---------------------------------------------------------------------------
// Limits
// ---------------------------------------------------------------------------

/// The passes can work on a function: registers and blocks are numbered in
/// range.
pub open spec fn in_range(bs: Seq<BlockModel>, n: nat) -> bool {
    &&& n <= u32::MAX
    &&& n <= usize::MAX / 16
    &&& bs.len() < usize::MAX / 4
    &&& defs_below(bs, n as int)
    &&& well_linked(bs)
}

fn check_loads(op: &Op, locals: u16) -> (r: bool)
    ensures
        r == loads_local(*op, locals as int),
{
    match op {
        Op::Ldloc(i) | Op::Ldarg(i) => *i < locals,
        _ => true,
    }
}

fn check_method(method: &MethodDef) -> (r: bool)
    ensures
        r == lowerable(*method),
{
    if method.body.len() as u64 >= u32::MAX as u64 || method.body.len() >= usize::MAX / 8
        || method.params.len() >= 65535 {
        return false;
    }
    let mut i: usize = 0;
    while i < method.body.len()
        invariant
            i <= method.body@.len(),
            forall|j: int|
                0 <= j < i ==> loads_local(#[trigger] method.body@[j], method.locals as int),
        decreases method.body.len() - i,
    {
        if !check_loads(&method.body[i], method.locals) {
            assert(!loads_local(method.body@[i as int], method.locals as int));
            return false;
        }
        i = i + 1;
    }
    true
}

fn check_defs(block: &Block, n: usize) -> (r: bool)
    ensures
        r == (forall|j: int|
            0 <= j < block@.insns.len() ==> match defined_by(#[trigger] block@.insns[j]) {
                Some(v) => v < n,
                None => true,
            }),
{
    let mut j: usize = 0;
    while j < block.insns.len()
        invariant
            j <= block.insns@.len(),
            forall|k: int|
                0 <= k < j ==> match defined_by(#[trigger] block@.insns[k]) {
                    Some(v) => v < n,
                    None => true,
                },
        decreases block.insns.len() - j,
    {
        assert(block@.insns[j as int] == block.insns@[j as int]@);
        if let Some(v) = block.insns[j].defined() {
            if v as usize >= n {
                return false;
            }
        }
        j = j + 1;
    }
    true
}

fn all_below(xs: &Vec<usize>, n: usize) -> (r: bool)
    ensures
        r == (forall|k: int| 0 <= k < xs@.len() ==> (#[trigger] xs@[k]) < n),
{
    let mut k: usize = 0;
    while k < xs.len()
        invariant
            k <= xs@.len(),
            forall|j: int| 0 <= j < k ==> (#[trigger] xs@[j]) < n,
        decreases xs.len() - k,
    {
        if xs[k] >= n {
            assert(!(xs@[k as int] < n));
            return false;
        }
        k = k + 1;
    }
    true
}

proof fn entries_grow(bs: Seq<BlockModel>, a: int, b: int)
    requires
        0 <= a <= b,
    ensures
        entry_at(bs, a) <= entry_at(bs, b),
    decreases b - a,
{
    if a < b {
        entries_grow(bs, a, b - 1);
    }
}

fn check_function(func: &Function) -> (r: bool)
    ensures
        r == in_range(blocks_model(func.blocks@), func.types@.len()),
{
    let n: usize = func.types.len();
    let count: usize = func.blocks.len();
    if n as u64 > u32::MAX as u64 || n > usize::MAX / 16 || count >= usize::MAX / 4 {
        return false;
    }
    let ghost bs = blocks_model(func.blocks@);
    let mut at: usize = 0;
    let mut b: usize = 0;
    while b < count
        invariant
            b <= count,
            count == func.blocks@.len(),
            n == func.types@.len(),
            bs == blocks_model(func.blocks@),
            at == entry_at(bs, b as int),
            at < usize::MAX,
            forall|c: int, j: int|
                0 <= c < b && 0 <= j < bs[c].insns.len() ==> match defined_by(
                    #[trigger] bs[c].insns[j],
                ) {
                    Some(v) => v < n,
                    None => true,
                },
            forall|c: int, k: int|
                0 <= c < b && 0 <= k < bs[c].succs.len() ==> (#[trigger] bs[c].succs[k])
                    < bs.len(),
            forall|c: int, k: int|
                0 <= c < b && 0 <= k < bs[c].preds.len() ==> (#[trigger] bs[c].preds[k])
                    < bs.len(),
        decreases count - b,
    {
        let block: &Block = &func.blocks[b];
        assert(bs[b as int] == block@);
        if !check_defs(block, n) {
            assert(!defs_below(bs, n as int));
            return false;
        }
        if !all_below(&block.succs, count) {
            proof {
                let k = choose|k: int|
                    0 <= k < block.succs@.len() && !((#[trigger] block.succs@[k]) < count);
                assert(!(bs[b as int].succs[k] < bs.len()));
            }
            return false;
        }
        if !all_below(&block.preds, count) {
            proof {
                let k = choose|k: int|
                    0 <= k < block.preds@.len() && !((#[trigger] block.preds@[k]) < count);
                assert(!(bs[b as int].preds[k] < bs.len()));
            }
            return false;
        }
        proof {
            entries_grow(bs, b + 1, count as int);
        }
        if block.reachable {
            let more: usize = block.insns.len();
            assert(bs[b as int].insns.len() == more);
            if more > usize::MAX - 2 || at >= usize::MAX - (more + 2) {
                assert(entry_at(bs, b + 1) >= usize::MAX);
                return false;
            }
            at = at + (more + 2);
        }
        b = b + 1;
    }
    true
}

// ---------------------------------------------------------------------------
// The passes
// ---------------------------------------------------------------------------

/// A function with other blocks and spill slots.
pub open spec fn same_but_blocks(f: Function, g: Function) -> bool {
    &&& g.method_id == f.method_id
    &&& g.types == f.types
    &&& g.helper_ops == f.helper_ops
    &&& g.locals == f.locals
    &&& g.params == f.params
    &&& g.local_types == f.local_types
    &&& g.max_stack == f.max_stack
    &&& g.overflow_checks == f.overflow_checks
}

/// `g` with the homes `a` is the lowered function `f` after optimization and
/// register allocation.
pub open spec fn is_prepared(f: Function, facts: Seq<FloatFact>, g: Function, a: Allocation) -> bool {
    &&& same_but_blocks(f, g)
    &&& blocks_model(g.blocks@) == optimized(
        blocks_model(f.blocks@),
        facts,
        f.overflow_checks,
        f.types@.len() as int,
    )
    &&& exists|ivs: Seq<Interval>, order: Seq<VReg>|
        {
            &&& ivs.len() == f.types@.len()
            &&& forall|v: int|
                0 <= v < ivs.len() ==> is_interval(
                    blocks_model(g.blocks@),
                    v as u32,
                    #[trigger] ivs[v],
                )
            &&& #[trigger] is_allocation(ivs, f.types@, order, a)
        }
}

/// `code` and `frame` come from compiling the lowered function `f`.
pub open spec fn comes_from(
    f: Function,
    facts: Seq<FloatFact>,
    overflow_addr: u64,
    made: Result<(Seq<u8>, usize), Seq<char>>,
) -> bool {
    exists|g: Function, a: Allocation|
        is_prepared(f, facts, g, a) && #[trigger] function_bytes(g, a, overflow_addr) == made
}

/// A lowered function with more registers or blocks than the passes can number,
/// before or after optimization.
pub open spec fn exceeds(f: Function, facts: Seq<FloatFact>) -> bool {
    ||| !in_range(blocks_model(f.blocks@), f.types@.len())
    ||| !in_range(
        optimized(
            blocks_model(f.blocks@),
            facts,
            f.overflow_checks,
            f.types@.len() as int,
        ),
        f.types@.len(),
    )
}

/// What compiling a method comes to: machine code for what the method is
/// lowered to, or the error of the pass that refuses it.
pub open spec fn is_compiled(
    module: Module,
    id: MethodId,
    checks: bool,
    facts: Seq<FloatFact>,
    overflow_addr: u64,
    r: Result<CompiledMethod, CompileError>,
) -> bool {
    match method_of(module, id) {
        None => r matches Err(CompileError::Unsupported(e)) && e@ == "unknown method MethodId("@
            + dec(id.0 as nat) + ")"@,
        Some(method) => if !lowerable(method) {
            r matches Err(CompileError::Unsupported(e)) && e@ == "method out of range"@
        } else {
            match lower_method(module, method, checks) {
                Err(why) => r matches Err(CompileError::Unsupported(e)) && e@ == why,
                Ok(model) => match r {
                    Ok(c) => exists|f: Function|
                        {
                            &&& #[trigger] is_lowered(f, method, id, checks, model)
                            &&& comes_from(
                                f,
                                facts,
                                overflow_addr,
                                Ok((c.code@, c.frame_bytes)),
                            )
                            &&& c.method_id == id
                            &&& c.helpers == f.helper_ops
                            &&& c.locals_count == f.locals
                        },
                    Err(CompileError::Unsupported(e)) => exists|f: Function|
                        {
                            &&& #[trigger] is_lowered(f, method, id, checks, model)
                            &&& e@ == "method out of range"@ && exceeds(f, facts) || comes_from(
                                f,
                                facts,
                                overflow_addr,
                                Err(e@),
                            )
                        },
                    Err(CompileError::OutOfMemory) => false,
                },
            }
        },
    }
}

fn out_of_range() -> (r: CompileError)
    ensures
        r matches CompileError::Unsupported(e) && e@ == "method out of range"@,
{
    CompileError::Unsupported(own("method out of range"))
}

/// Compile a method: lower it, optimize it with what is known of floats,
/// allocate registers and generate machine code.
pub fn compile_method(
    module: &Module,
    method_id: MethodId,
    overflow_checks: bool,
    facts: &Vec<FloatFact>,
    overflow_addr: u64,
) -> (r: Result<CompiledMethod, CompileError>)
    ensures
        is_compiled(*module, method_id, overflow_checks, facts@, overflow_addr, r),
{
    let lowerer: Lowerer = match Lowerer::new(module, method_id, overflow_checks) {
        Ok(l) => l,
        Err(e) => return Err(CompileError::Unsupported(e)),
    };
    match module.method(method_id) {
        Some(m) => {
            if !check_method(m) {
                return Err(out_of_range());
            }
        },
        None => return Err(out_of_range()),
    }
    let mut func: Function = match lowerer.lower() {
        Ok(f) => f,
        Err(e) => return Err(CompileError::Unsupported(e)),
    };
    let ghost f = func;
    if !check_function(&func) {
        return Err(out_of_range());
    }
    let asks: Vec<FloatAsk> = optimize(&mut func, facts);
    if !check_function(&func) {
        return Err(out_of_range());
    }
    let ghost g0 = func;
    let alloc: Allocation = allocate(&mut func);
    let ghost g = func;
    proof {
        assert(is_prepared(f, facts@, g, alloc));
    }
    match emit_function(&func, &alloc, overflow_addr) {
        Ok((code, frame_bytes)) => {
            assert(function_bytes(g, alloc, overflow_addr) == Ok::<(Seq<u8>, usize), Seq<char>>(
                (code@, frame_bytes),
            ));
            assert(comes_from(f, facts@, overflow_addr, Ok((code@, frame_bytes))));
            Ok(
                CompiledMethod {
                    method_id,
                    locals_count: func.locals,
                    helpers: func.helper_ops,
                    code,
                    frame_bytes,
                    asks,
                },
            )
        },
        Err(e) => {
            assert(function_bytes(g, alloc, overflow_addr) == Err::<(Seq<u8>, usize), Seq<char>>(e@));
            assert(comes_from(f, facts@, overflow_addr, Err(e@)));
            Err(CompileError::Unsupported(e))
        },
    }
}

// ---------------------------------------------------------------------------
// The cache
// ---------------------------------------------------------------------------

/// Compiled methods, by method and overflow mode, since both affect the code.
pub struct Jit {
    cache: Vec<(MethodId, bool, CompiledMethod)>,
    compiled_count: usize,
}

/// The place of a method in the cache from `i` on, or the length.
pub open spec fn cached_at(keys: Seq<(MethodId, bool)>, id: MethodId, checks: bool, i: int) -> int
    decreases keys.len() - i,
{
    if i < 0 || i >= keys.len() {
        keys.len() as int
    } else if keys[i] == (id, checks) {
        i
    } else {
        cached_at(keys, id, checks, i + 1)
    }
}

impl Jit {
    /// The methods that are in the cache.
    pub closed spec fn keys(&self) -> Seq<(MethodId, bool)> {
        Seq::new(self.cache@.len(), |i: int| (self.cache@[i].0, self.cache@[i].1))
    }

    /// The compiled method at a place in the cache.
    pub closed spec fn entry(&self, i: int) -> CompiledMethod {
        self.cache@[i].2
    }

    /// How many methods have been compiled.
    pub closed spec fn count(&self) -> usize {
        self.compiled_count
    }

    /// Create an empty cache.
    pub fn new() -> (r: Self)
        ensures
            r.keys() == Seq::<(MethodId, bool)>::empty(),
            r.count() == 0,
    {
        let r: Jit = Jit { cache: Vec::new(), compiled_count: 0 };
        assert(r.keys() =~= Seq::empty());
        r
    }

    /// The compiled version of a method, if it is in the cache.
    pub fn get(&self, method_id: MethodId, overflow_checks: bool) -> (r: Option<&CompiledMethod>)
        ensures
            ({
                let p = cached_at(self.keys(), method_id, overflow_checks, 0);
                match r {
                    Some(c) => p < self.keys().len() && *c == self.entry(p),
                    None => p == self.keys().len(),
                }
            }),
    {
        let ghost keys = self.keys();
        let mut i: usize = 0;
        while i < self.cache.len()
            invariant
                i <= self.cache@.len(),
                keys == self.keys(),
                keys.len() == self.cache@.len(),
                cached_at(keys, method_id, overflow_checks, 0) == cached_at(
                    keys,
                    method_id,
                    overflow_checks,
                    i as int,
                ),
            decreases self.cache.len() - i,
        {
            assert(keys[i as int] == (self.cache@[i as int].0, self.cache@[i as int].1));
            if self.cache[i].0 == method_id && self.cache[i].1 == overflow_checks {
                return Some(&self.cache[i].2);
            }
            i = i + 1;
        }
        None
    }

    /// Compile a method if it is not in the cache already.
    pub fn compile(
        &mut self,
        module: &Module,
        method_id: MethodId,
        overflow_checks: bool,
        facts: &Vec<FloatFact>,
        overflow_addr: u64,
    ) -> (r: Result<(), CompileError>)
        requires
            old(self).count() < usize::MAX,
        ensures
            ({
                let keys = old(self).keys();
                let p = cached_at(keys, method_id, overflow_checks, 0);
                if p < keys.len() {
                    r is Ok && *final(self) == *old(self)
                } else {
                    match r {
                        Ok(_) => {
                            &&& final(self).keys() == keys.push((method_id, overflow_checks))
                            &&& forall|i: int|
                                0 <= i < keys.len() ==> #[trigger] final(self).entry(i) == old(
                                    self,
                                ).entry(i)
                            &&& final(self).count() == old(self).count() + 1
                            &&& is_compiled(
                                *module,
                                method_id,
                                overflow_checks,
                                facts@,
                                overflow_addr,
                                Ok(final(self).entry(keys.len() as int)),
                            )
                        },
                        Err(e) => *final(self) == *old(self) && is_compiled(
                            *module,
                            method_id,
                            overflow_checks,
                            facts@,
                            overflow_addr,
                            Err(e),
                        ),
                    }
                }
            }),
    {
        if self.get(method_id, overflow_checks).is_some() {
            return Ok(());
        }
        match compile_method(module, method_id, overflow_checks, facts, overflow_addr) {
            Ok(c) => {
                let ghost keys = self.keys();
                self.cache.push((method_id, overflow_checks, c));
                self.compiled_count = self.compiled_count + 1;
                assert(self.keys() =~= keys.push((method_id, overflow_checks)));
                Ok(())
            },
            Err(e) => Err(e),
        }
    }

    /// Number of distinct methods compiled so far.
    pub fn compiled_count(&self) -> (r: usize)
        ensures
            r == self.count(),
    {
        self.compiled_count
    }

    /// Drop all compiled code and reset the counter.
    pub fn clear(&mut self)
        ensures
            final(self).keys() == Seq::<(MethodId, bool)>::empty(),
            final(self).count() == 0,
    {
        self.cache = Vec::new();
        self.compiled_count = 0;
        assert(self.keys() =~= Seq::empty());
    }
}

proof fn cached_bounds(keys: Seq<(MethodId, bool)>, id: MethodId, checks: bool, i: int)
    requires
        0 <= i <= keys.len(),
        cached_at(keys, id, checks, i) == keys.len(),
    ensures
        cached_at(keys.push((id, checks)), id, checks, i) == keys.len(),
    decreases keys.len() - i,
{
    let more = keys.push((id, checks));
    if i < keys.len() {
        assert(more[i] == keys[i]);
        cached_bounds(keys, id, checks, i + 1);
    }
}

/// A method that was compiled is found in the cache.
pub proof fn compiled_is_cached(keys: Seq<(MethodId, bool)>, id: MethodId, checks: bool)
    requires
        cached_at(keys, id, checks, 0) == keys.len(),
    ensures
        cached_at(keys.push((id, checks)), id, checks, 0) == keys.len(),
{
    cached_bounds(keys, id, checks, 0);
}

} // verus!
