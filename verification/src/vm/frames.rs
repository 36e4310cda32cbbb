//! Call frames, the operands of an operation, and exception handlers.

use crate::bytecode::{enum_of, method_of, EnumId, ExceptionHandler, MethodId, Module, Op};
use crate::natives::{native_arity, native_of, NativeId};
use crate::text::{cat2, cat3, dec, dec_u64};
use crate::vm::apply::{is_binary, is_unary};
use crate::vm::heap::{heap_ok, Heap, HeapModel};
use crate::vm::inspect::{matches_type, method_or_fault, value_matches};
use crate::vm::ops::{call_super, call_virtual, super_effect, virtual_effect};
use crate::vm::value::Value;
use crate::vm::world::{Applied, Effect, Fault, VmError};
use vstd::prelude::*;

verus! {

/// A single call frame.
#[derive(Debug)]
pub struct Frame {
    /// The method.
    pub method_id: MethodId,
    /// The next operation.
    pub pc: usize,
    /// Arguments and locals.
    pub locals: Vec<Value>,
    /// Operands.
    pub stack: Vec<Value>,
    /// The exception that goes on when the running `finally` block ends.
    pub after_finally: Option<Value>,
}

/// A call frame by value.
#[verifier::ext_equal]
pub ghost struct FrameModel {
    /// The method.
    pub method: MethodId,
    /// The next operation.
    pub pc: usize,
    /// Arguments and locals.
    pub locals: Seq<Value>,
    /// Operands.
    pub stack: Seq<Value>,
    /// The exception that goes on after `finally`.
    pub after_finally: Option<Value>,
}

impl View for Frame {
    type V = FrameModel;

    open spec fn view(&self) -> FrameModel {
        FrameModel {
            method: self.method_id,
            pc: self.pc,
            locals: self.locals@,
            stack: self.stack@,
            after_finally: self.after_finally,
        }
    }
}

/// Frames by value.
pub open spec fn frame_models(fs: Seq<Frame>) -> Seq<FrameModel> {
    Seq::new(fs.len(), |i: int| fs[i]@)
}

/// The first locals are the arguments; the others hold no value yet.
pub open spec fn first_locals(args: Seq<Value>, n: nat) -> Seq<Value> {
    Seq::new(
        n,
        |i: int|
            if i < args.len() {
                args[i]
            } else {
                Value::Unit
            },
    )
}

/// The frame of a method at its start.
pub open spec fn new_frame(id: MethodId, args: Seq<Value>, locals: u16) -> FrameModel {
    FrameModel {
        method: id,
        pc: 0,
        locals: first_locals(args, locals as nat),
        stack: Seq::empty(),
        after_finally: None,
    }
}

impl Frame {
    /// The frame of a method at its start.
    pub fn new(method_id: MethodId, params: Vec<Value>, locals_count: u16) -> (r: Self)
        ensures
            r@ == new_frame(method_id, params@, locals_count),
    {
        let mut locals: Vec<Value> = Vec::new();
        let n: usize = locals_count as usize;
        let mut i: usize = 0;
        while i < n
            invariant
                i <= n,
                locals@ == first_locals(params@, n as nat).subrange(0, i as int),
            decreases n - i,
        {
            if i < params.len() {
                locals.push(params[i]);
            } else {
                locals.push(Value::Unit);
            }
            assert(locals@ =~= first_locals(params@, n as nat).subrange(0, i + 1));
            i = i + 1;
        }
        assert(locals@ =~= first_locals(params@, n as nat));
        Frame { method_id, pc: 0, locals, stack: Vec::new(), after_finally: None }
    }
}

// ---------------------------------------------------------------------------
// Operands
// ---------------------------------------------------------------------------

/// How many operands an operation takes, the receiver of a call not counted.
pub open spec fn operand_count(module: Module, op: Op) -> Result<nat, Fault> {
    if is_binary(op) {
        Ok(2)
    } else if is_unary(op) {
        Ok(1)
    } else {
        match op {
            Op::Call(id) => match method_of(module, id) {
                Some(m) => Ok(m.params@.len()),
                None => Err(Fault::UnknownMethod(id)),
            },
            Op::NewEnum(id, k) => match enum_of(module, id) {
                None => Err(
                    Fault::Runtime("unknown enum EnumId("@ + dec(id.0 as nat) + ")"@),
                ),
                Some(e) => if k < e.variants@.len() {
                    Ok(e.variants@[k as int].fields@.len())
                } else {
                    Err(Fault::Runtime("unknown variant index "@ + dec(k as nat)))
                },
            },
            Op::NativeCall(n) => match native_of(n) {
                Some(id) => Ok(native_arity(id)),
                None => Ok(0),
            },
            Op::NewTuple(n) => Ok(n as nat),
            Op::StringConcat(n) => Ok(n as nat),
            Op::Ldfld(_)
            | Op::Stsfld(_, _)
            | Op::EnumTag
            | Op::EnumField(_)
            | Op::TupleField(_)
            | Op::Print
            | Op::Throw => Ok(1),
            _ => Ok(0),
        }
    }
}

/// The last `n` values of the stack and what is below them.
pub open spec fn taken(stack: Seq<Value>, n: nat) -> Result<(Seq<Value>, Seq<Value>), Fault> {
    if stack.len() < n {
        Err(Fault::StackUnderflow)
    } else {
        Ok(
            (
                stack.subrange(stack.len() - n, stack.len() as int),
                stack.subrange(0, stack.len() - n),
            ),
        )
    }
}

/// The method that a call on a receiver comes to.
pub open spec fn callee(module: Module, h: HeapModel, op: Op, receiver: Value) -> Result<
    MethodId,
    Fault,
> {
    let e = match op {
        Op::CallVirt(name) => virtual_effect(module, h, name@, seq![receiver]),
        Op::CallSuper(id) => super_effect(id, seq![receiver]),
        _ => Effect::Failed(Fault::StackUnderflow),
    };
    match e {
        Effect::Invoke(m, _) => Ok(m),
        Effect::Failed(f) => Err(f),
        _ => Err(Fault::StackUnderflow),
    }
}

/// The operands of an operation in the order in which it wants them, and what
/// is below them. The receiver of a call and the object of a field store are on
/// top of the other operands and come first.
pub open spec fn operands(module: Module, h: HeapModel, op: Op, stack: Seq<Value>) -> Result<
    (Seq<Value>, Seq<Value>),
    Fault,
> {
    match op {
        Op::CallVirt(_) | Op::CallSuper(_) => if stack.len() == 0 {
            Err(Fault::StackUnderflow)
        } else {
            match callee(module, h, op, stack.last()) {
                Err(e) => Err(e),
                Ok(id) => match method_of(module, id) {
                    None => Err(Fault::UnknownMethod(id)),
                    Some(m) => match taken(stack.drop_last(), m.params@.len()) {
                        Err(e) => Err(e),
                        Ok((args, rest)) => Ok((seq![stack.last()] + args, rest)),
                    },
                },
            }
        },
        Op::Stfld(_) => if stack.len() < 2 {
            Err(Fault::StackUnderflow)
        } else {
            Ok(
                (
                    seq![stack.last(), stack[stack.len() - 2]],
                    stack.subrange(0, stack.len() - 2),
                ),
            )
        },
        _ => match operand_count(module, op) {
            Err(e) => Err(e),
            Ok(n) => taken(stack, n),
        },
    }
}

/// A count or an error, by value.
pub open spec fn count_or_fault(r: Result<usize, VmError>) -> Result<nat, Fault> {
    match r {
        Ok(n) => Ok(n as nat),
        Err(e) => Err(e@),
    }
}

fn count_operands(module: &Module, op: &Op) -> (r: Result<usize, VmError>)
    ensures
        count_or_fault(r) == operand_count(*module, *op),
{
    match op {
        Op::Add
        | Op::Sub
        | Op::Mul
        | Op::Div
        | Op::Rem
        | Op::Lt
        | Op::Le
        | Op::Gt
        | Op::Ge
        | Op::Eq
        | Op::And
        | Op::Or
        | Op::ValueEq => Ok(2),
        Op::Neg | Op::Not | Op::Conv(_) | Op::Hash | Op::IsInst(_) => Ok(1),
        Op::Call(id) => match module.method(*id) {
            Some(m) => Ok(m.params.len()),
            None => Err(VmError::UnknownMethod(*id)),
        },
        Op::NewEnum(id, k) => match module.enum_def(*id) {
            None => {
                let n: String = dec_u64(id.0 as u64);
                Err(VmError::Runtime(cat3("unknown enum EnumId(", n.as_str(), ")")))
            },
            Some(e) => {
                let i: usize = *k as usize;
                if i < e.variants.len() {
                    Ok(e.variants[i].fields.len())
                } else {
                    let n: String = dec_u64(*k as u64);
                    Err(VmError::Runtime(cat2("unknown variant index ", n.as_str())))
                }
            },
        },
        Op::NativeCall(n) => match NativeId::from_u16(*n) {
            Some(id) => Ok(id.arity()),
            None => Ok(0),
        },
        Op::NewTuple(n) => Ok(*n as usize),
        Op::StringConcat(n) => Ok(*n as usize),
        Op::Ldfld(_)
        | Op::Stsfld(_, _)
        | Op::EnumTag
        | Op::EnumField(_)
        | Op::TupleField(_)
        | Op::Print
        | Op::Throw => Ok(1),
        _ => Ok(0),
    }
}

fn copy_range(vs: &Vec<Value>, from: usize, to: usize) -> (r: Vec<Value>)
    requires
        from <= to <= vs@.len(),
    ensures
        r@ == vs@.subrange(from as int, to as int),
{
    let mut out: Vec<Value> = Vec::new();
    let mut i: usize = from;
    while i < to
        invariant
            from <= i <= to <= vs@.len(),
            out@ == vs@.subrange(from as int, i as int),
        decreases to - i,
    {
        out.push(vs[i]);
        assert(out@ =~= vs@.subrange(from as int, i + 1));
        i = i + 1;
    }
    out
}

fn find_callee(module: &Module, heap: &Heap, op: &Op, receiver: Value) -> (r: Result<
    MethodId,
    VmError,
>)
    requires
        heap_ok(heap@),
    ensures
        method_or_fault(r) == callee(*module, heap@, *op, receiver),
{
    let args: Vec<Value> = vec![receiver];
    assert(args@ =~= seq![receiver]);
    let e: Applied = match op {
        Op::CallVirt(name) => call_virtual(module, heap, name.as_str(), &args),
        Op::CallSuper(id) => call_super(*id, &args),
        _ => Applied::Failed(VmError::StackUnderflow),
    };
    match e {
        Applied::Invoke(m, _) => Ok(m),
        Applied::Failed(f) => Err(f),
        _ => Err(VmError::StackUnderflow),
    }
}

/// Operands and how many values are below them, or an error, by value.
pub open spec fn operands_or_fault(r: Result<(Vec<Value>, usize), VmError>, stack: Seq<Value>) -> Result<
    (Seq<Value>, Seq<Value>),
    Fault,
> {
    match r {
        Ok((args, n)) => Ok((args@, stack.subrange(0, n as int))),
        Err(e) => Err(e@),
    }
}

/// The operands of an operation, and how many values are below them.
pub(crate) fn take_operands(module: &Module, heap: &Heap, op: &Op, stack: &Vec<Value>) -> (r: Result<
    (Vec<Value>, usize),
    VmError,
>)
    requires
        heap_ok(heap@),
    ensures
        operands_or_fault(r, stack@) == operands(*module, heap@, *op, stack@),
        r matches Ok((_, n)) ==> n <= stack@.len(),
{
    let len: usize = stack.len();
    match op {
        Op::CallVirt(_) | Op::CallSuper(_) => {
            if len == 0 {
                return Err(VmError::StackUnderflow);
            }
            let receiver: Value = stack[len - 1];
            let id: MethodId = find_callee(module, heap, op, receiver)?;
            let n: usize = match module.method(id) {
                Some(m) => m.params.len(),
                None => return Err(VmError::UnknownMethod(id)),
            };
            if len - 1 < n {
                return Err(VmError::StackUnderflow);
            }
            let mut args: Vec<Value> = vec![receiver];
            let mut others: Vec<Value> = copy_range(stack, len - 1 - n, len - 1);
            args.append(&mut others);
            let ghost below = stack@.drop_last();
            assert(below.subrange(below.len() - n, below.len() as int) =~= stack@.subrange(
                len - 1 - n,
                len - 1,
            ));
            assert(below.subrange(0, below.len() - n) =~= stack@.subrange(0, len - 1 - n));
            assert(args@ =~= seq![receiver] + stack@.subrange(len - 1 - n, len - 1));
            Ok((args, len - 1 - n))
        },
        Op::Stfld(_) => {
            if len < 2 {
                return Err(VmError::StackUnderflow);
            }
            let args: Vec<Value> = vec![stack[len - 1], stack[len - 2]];
            assert(args@ =~= seq![stack@.last(), stack@[stack@.len() - 2]]);
            Ok((args, len - 2))
        },
        _ => {
            let n: usize = count_operands(module, op)?;
            if len < n {
                return Err(VmError::StackUnderflow);
            }
            Ok((copy_range(stack, len - n, len), len - n))
        },
    }
}

// ---------------------------------------------------------------------------
// Exception handlers
// ---------------------------------------------------------------------------

/// Whether a handler covers `pc` and applies to an exception.
pub open spec fn applies(
    module: Module,
    h: HeapModel,
    handler: ExceptionHandler,
    pc: int,
    exc: Value,
) -> bool {
    &&& handler.start <= pc < handler.end
    &&& match handler.catch_type {
        Some(ty) => matches_type(module, h, ty, exc),
        None => true,
    }
}

/// Whether a handler goes before another one: its region starts later, or ends
/// earlier, or it catches where the other one is the `finally` of the same
/// region.
pub open spec fn goes_before(a: ExceptionHandler, b: ExceptionHandler) -> bool {
    ||| a.start > b.start
    ||| a.start == b.start && a.end < b.end
    ||| a.start == b.start && a.end == b.end && a.catch_type is Some && b.catch_type is None
}

/// The place of the handler for an exception at `pc` among the first `n`.
pub open spec fn handler_upto(
    module: Module,
    h: HeapModel,
    hs: Seq<ExceptionHandler>,
    pc: int,
    exc: Value,
    n: int,
) -> Option<int>
    decreases n,
{
    if n <= 0 {
        None
    } else {
        let best = handler_upto(module, h, hs, pc, exc, n - 1);
        if !applies(module, h, hs[n - 1], pc, exc) {
            best
        } else {
            match best {
                None => Some(n - 1),
                Some(b) => if goes_before(hs[n - 1], hs[b]) {
                    Some(n - 1)
                } else {
                    best
                },
            }
        }
    }
}

/// The place of the handler for an exception at `pc`.
pub open spec fn handler_for(
    module: Module,
    h: HeapModel,
    hs: Seq<ExceptionHandler>,
    pc: int,
    exc: Value,
) -> Option<int> {
    handler_upto(module, h, hs, pc, exc, hs.len() as int)
}

proof fn handler_in_range(
    module: Module,
    h: HeapModel,
    hs: Seq<ExceptionHandler>,
    pc: int,
    exc: Value,
    n: int,
)
    requires
        0 <= n <= hs.len(),
    ensures
        handler_upto(module, h, hs, pc, exc, n) matches Some(k) ==> 0 <= k < n && applies(
            module,
            h,
            hs[k],
            pc,
            exc,
        ),
        forall|j: int|
            0 <= j < n && #[trigger] applies(module, h, hs[j], pc, exc) ==> handler_upto(
                module,
                h,
                hs,
                pc,
                exc,
                n,
            ) is Some && !goes_before(
                hs[j],
                hs[handler_upto(module, h, hs, pc, exc, n)->Some_0],
            ),
    decreases n,
{
    if n > 0 {
        handler_in_range(module, h, hs, pc, exc, n - 1);
    }
}

/// The innermost handler: the one that is taken covers the place and applies to
/// the exception, and no other one that does goes before it. Where any handler
/// covers the place and applies, one is taken.
pub proof fn handler_is_innermost(
    module: Module,
    h: HeapModel,
    hs: Seq<ExceptionHandler>,
    pc: int,
    exc: Value,
    j: int,
)
    requires
        0 <= j < hs.len(),
        applies(module, h, hs[j], pc, exc),
    ensures
        ({
            let k = handler_for(module, h, hs, pc, exc);
            &&& k is Some
            &&& 0 <= k->Some_0 < hs.len()
            &&& applies(module, h, hs[k->Some_0], pc, exc)
            &&& !goes_before(hs[j], hs[k->Some_0])
        }),
{
    handler_in_range(module, h, hs, pc, exc, hs.len() as int);
}

/// Find the innermost handler for an exception at `pc`.
pub fn find_handler(
    module: &Module,
    heap: &Heap,
    handlers: &Vec<ExceptionHandler>,
    pc: usize,
    exc: Value,
) -> (r: Option<usize>)
    requires
        heap_ok(heap@),
    ensures
        handler_for(*module, heap@, handlers@, pc as int, exc) == (match r {
            Some(k) => Some(k as int),
            None => None::<int>,
        }),
        r matches Some(k) ==> k < handlers@.len(),
{
    let mut best: Option<usize> = None;
    let mut i: usize = 0;
    while i < handlers.len()
        invariant
            i <= handlers@.len(),
            heap_ok(heap@),
            handler_upto(*module, heap@, handlers@, pc as int, exc, i as int) == (match best {
                Some(k) => Some(k as int),
                None => None::<int>,
            }),
            best matches Some(k) ==> k < i,
        decreases handlers.len() - i,
    {
        let h: &ExceptionHandler = &handlers[i];
        let covers: bool = h.start as usize <= pc && pc < h.end as usize;
        let fits: bool = match &h.catch_type {
            Some(ty) => value_matches(module, heap, ty, exc),
            None => true,
        };
        if covers && fits {
            let better: bool = match best {
                None => true,
                Some(b) => {
                    let o: &ExceptionHandler = &handlers[b];
                    h.start > o.start || (h.start == o.start && (h.end < o.end || (h.end == o.end
                        && h.catch_type.is_some() && o.catch_type.is_none())))
                },
            };
            if better {
                best = Some(i);
            }
        }
        i = i + 1;
    }
    best
}

} // verus!
