//! The interpreter: one operation after the other on a stack of call frames.

use crate::bytecode::{
    method_of, ClassDef, ClassId, ExceptionHandler, FloatConst, MethodDef, MethodId, Module, Op,
};
use crate::text::{cat3, dec, dec_u64, is_scalar, own};
use crate::vm::apply::{apply_effect, question_changes_nothing};
use crate::vm::frames::{
    find_handler, frame_models, handler_for, new_frame, operands, take_operands, Frame, FrameModel,
};
use crate::vm::heap::{empty_heap, heap_ok, Heap, HeapModel};
use crate::vm::inspect::{default_of, default_value};
use crate::vm::ops::{static_models, store_ok, Store, StoreModel};
use crate::vm::value::{truthy, Value};
use crate::vm::world::{Answers, Applied, Ask, Effect, Fault, Question, VmError, World};
use vstd::prelude::*;

verus! {

/// What a step came to.
#[derive(Debug)]
pub enum Stepped {
    /// There is more to do.
    Running,
    /// The outermost method returned a value.
    Done(Value),
    /// No method handled an exception.
    Uncaught(Value),
    /// An error.
    Failed(VmError),
    /// A question is to be answered first; nothing has changed.
    Ask(Ask),
    /// A text is to be shown; there is more to do.
    Show(String),
}

/// What a step came to, by value.
#[verifier::ext_equal]
pub ghost enum Outcome {
    /// There is more to do.
    Running,
    /// The outermost method returned.
    Done(Value),
    /// No method handled an exception.
    Uncaught(Value),
    /// An error.
    Failed(Fault),
    /// A question.
    Ask(Question),
    /// A text.
    Show(Seq<char>),
}

impl View for Stepped {
    type V = Outcome;

    open spec fn view(&self) -> Outcome {
        match self {
            Stepped::Running => Outcome::Running,
            Stepped::Done(v) => Outcome::Done(*v),
            Stepped::Uncaught(v) => Outcome::Uncaught(*v),
            Stepped::Failed(e) => Outcome::Failed(e@),
            Stepped::Ask(a) => Outcome::Ask(a@),
            Stepped::Show(s) => Outcome::Show(s@),
        }
    }
}

// ---------------------------------------------------------------------------
// Exceptions
// ---------------------------------------------------------------------------

/// The operation that a frame is at: the one before the next one.
pub open spec fn place_in(f: FrameModel) -> int {
    if f.pc > 0 {
        f.pc - 1
    } else {
        0
    }
}

/// The handlers of the method of a frame.
pub open spec fn handlers_of(module: Module, f: FrameModel) -> Seq<ExceptionHandler> {
    match method_of(module, f.method) {
        Some(m) => m.handlers@,
        None => Seq::empty(),
    }
}

/// A frame that goes on in a handler. A `catch` puts the exception into its
/// local; a `finally` keeps it until it ends.
pub open spec fn handled(f: FrameModel, handler: ExceptionHandler, exc: Value) -> FrameModel {
    match handler.catch_type {
        Some(_) => FrameModel {
            pc: handler.handler_pc as usize,
            locals: if handler.catch_local < f.locals.len() {
                f.locals.update(handler.catch_local as int, exc)
            } else {
                f.locals
            },
            ..f
        },
        None => FrameModel {
            pc: handler.handler_pc as usize,
            after_finally: Some(exc),
            ..f
        },
    }
}

/// What an exception comes to: the innermost frame that handles it goes on, and
/// the frames above it are gone.
pub open spec fn raised(module: Module, h: HeapModel, frames: Seq<FrameModel>, exc: Value) -> (
    Outcome,
    Seq<FrameModel>,
)
    decreases frames.len(),
{
    if frames.len() == 0 {
        (Outcome::Uncaught(exc), frames)
    } else {
        let f = frames.last();
        let hs = handlers_of(module, f);
        match handler_for(module, h, hs, place_in(f), exc) {
            Some(k) => (
                Outcome::Running,
                frames.drop_last().push(handled(f, hs[k], exc)),
            ),
            None => raised(module, h, frames.drop_last(), exc),
        }
    }
}

/// Hand an exception to the innermost frame that handles it.
fn raise(module: &Module, heap: &Heap, frames: &mut Vec<Frame>, exc: Value) -> (r: Stepped)
    requires
        heap_ok(heap@),
    ensures
        (r@, frame_models(final(frames)@)) == raised(
            *module,
            heap@,
            frame_models(old(frames)@),
            exc,
        ),
{
    let ghost want = raised(*module, heap@, frame_models(frames@), exc);
    while frames.len() > 0
        invariant
            heap_ok(heap@),
            want == raised(*module, heap@, frame_models(old(frames)@), exc),
            want == raised(*module, heap@, frame_models(frames@), exc),
        decreases frames.len(),
    {
        let ghost before = frame_models(frames@);
        let mut f: Frame = match frames.pop() {
            Some(f) => f,
            None => return Stepped::Uncaught(exc),
        };
        assert(frame_models(frames@) =~= before.drop_last());
        let ghost f0 = f@;
        assert(before.last() == f0);
        let at: usize = if f.pc > 0 {
            f.pc - 1
        } else {
            0
        };
        if let Some(m) = module.method(f.method_id) {
            if let Some(k) = find_handler(module, heap, &m.handlers, at, exc) {
                let handler: &ExceptionHandler = &m.handlers[k];
                if handler.catch_type.is_some() {
                    let i: usize = handler.catch_local as usize;
                    if i < f.locals.len() {
                        f.locals.set(i, exc);
                    }
                } else {
                    f.after_finally = Some(exc);
                }
                f.pc = handler.handler_pc as usize;
                let ghost g = f@;
                assert(g =~= handled(f0, *handler, exc));
                frames.push(f);
                assert(frame_models(frames@) =~= before.drop_last().push(g));
                return Stepped::Running;
            }
        }
    }
    assert(frame_models(frames@) =~= Seq::empty());
    Stepped::Uncaught(exc)
}

// ---------------------------------------------------------------------------
// Operations on the frame alone
// ---------------------------------------------------------------------------

/// A frame with one more operand.
pub open spec fn pushed(f: FrameModel, v: Value) -> FrameModel {
    FrameModel { stack: f.stack.push(v), ..f }
}

/// A frame without its last operand.
pub open spec fn popped(f: FrameModel) -> FrameModel {
    FrameModel { stack: f.stack.drop_last(), ..f }
}

/// There is no such local.
pub open spec fn no_local(idx: u16) -> Fault {
    Fault::Runtime("local "@ + dec(idx as nat) + " out of range"@)
}

/// The float constant with a number.
pub open spec fn float_constant(module: Module, idx: u32) -> Result<Value, Fault> {
    if idx < module.float_pool@.len() {
        match module.float_pool@[idx as int] {
            FloatConst::Bits(b) => Ok(Value::Float(b)),
            FloatConst::Bad(e) => Err(Fault::Runtime(e@)),
        }
    } else {
        Err(Fault::Runtime("float constant out of range"@))
    }
}

/// A jump that is taken on a condition.
pub open spec fn branched(f: FrameModel, on: bool, to: u32) -> Result<FrameModel, Fault> {
    if f.stack.len() == 0 {
        Err(Fault::StackUnderflow)
    } else if truthy(f.stack.last()) == on {
        Ok(FrameModel { pc: to as usize, ..popped(f) })
    } else {
        Ok(popped(f))
    }
}

/// What an operation does that touches nothing but the frame; `f` is the frame
/// with the next operation behind this one. None where it is another operation.
pub open spec fn frame_effect(module: Module, f: FrameModel, op: Op) -> Option<
    Result<FrameModel, Fault>,
> {
    match op {
        Op::Nop => Some(Ok(f)),
        Op::LdInt(i) => Some(Ok(pushed(f, Value::Int(i as i64)))),
        Op::LdInt64(i) => Some(Ok(pushed(f, Value::Int(i)))),
        Op::LdFloat(idx) => Some(
            match float_constant(module, idx) {
                Ok(v) => Ok(pushed(f, v)),
                Err(e) => Err(e),
            },
        ),
        Op::LdBool(b) => Some(Ok(pushed(f, Value::Bool(b)))),
        Op::LdChar(c) => Some(
            Ok(
                pushed(
                    f,
                    Value::Char(
                        if is_scalar(c) {
                            c as char
                        } else {
                            '\0'
                        },
                    ),
                ),
            ),
        ),
        Op::LdNull => Some(Ok(pushed(f, Value::Null))),
        Op::Ldloc(idx) | Op::Ldarg(idx) => Some(
            if idx < f.locals.len() {
                Ok(pushed(f, f.locals[idx as int]))
            } else {
                Err(no_local(idx))
            },
        ),
        Op::Stloc(idx) => Some(
            if f.stack.len() == 0 {
                Err(Fault::StackUnderflow)
            } else if idx < f.locals.len() {
                Ok(
                    FrameModel {
                        locals: f.locals.update(idx as int, f.stack.last()),
                        ..popped(f)
                    },
                )
            } else {
                Err(no_local(idx))
            },
        ),
        Op::Dup => Some(
            if f.stack.len() == 0 {
                Err(Fault::StackUnderflow)
            } else {
                Ok(pushed(f, f.stack.last()))
            },
        ),
        Op::Pop => Some(
            if f.stack.len() == 0 {
                Err(Fault::StackUnderflow)
            } else {
                Ok(popped(f))
            },
        ),
        Op::Br(to) => Some(Ok(FrameModel { pc: to as usize, ..f })),
        Op::BrTrue(to) => Some(branched(f, true, to)),
        Op::BrFalse(to) => Some(branched(f, false, to)),
        Op::Break | Op::Continue | Op::NewClosure(_, _) | Op::Invoke(_) => Some(
            Err(Fault::Runtime("operation cannot be executed"@)),
        ),
        _ => None,
    }
}

fn local_error(idx: u16) -> (r: VmError)
    ensures
        r@ == no_local(idx),
{
    let n: String = dec_u64(idx as u64);
    VmError::Runtime(cat3("local ", n.as_str(), " out of range"))
}

fn branch(f: &mut Frame, on: bool, to: u32) -> (r: Result<(), VmError>)
    ensures
        branched(old(f)@, on, to) == (match r {
            Ok(_) => Ok(final(f)@),
            Err(e) => Err(e@),
        }),
        r is Err ==> final(f)@ == old(f)@,
{
    match f.stack.pop() {
        None => Err(VmError::StackUnderflow),
        Some(v) => {
            if v.is_truthy() == on {
                f.pc = to as usize;
            }
            assert(f@.stack =~= old(f)@.stack.drop_last());
            Ok(())
        },
    }
}

/// Execute an operation that touches nothing but the frame.
fn frame_step(module: &Module, f: &mut Frame, op: &Op) -> (r: Option<Result<(), VmError>>)
    ensures
        frame_effect(*module, old(f)@, *op) == (match r {
            Some(Ok(_)) => Some(Ok(final(f)@)),
            Some(Err(e)) => Some(Err(e@)),
            None => None::<Result<FrameModel, Fault>>,
        }),
        r is None || r->Some_0 is Err ==> final(f)@ == old(f)@,
{
    match op {
        Op::Nop => Some(Ok(())),
        Op::LdInt(i) => {
            f.stack.push(Value::Int(*i as i64));
            Some(Ok(()))
        },
        Op::LdInt64(i) => {
            f.stack.push(Value::Int(*i));
            Some(Ok(()))
        },
        Op::LdFloat(idx) => {
            let i: usize = *idx as usize;
            if i < module.float_pool.len() {
                match &module.float_pool[i] {
                    FloatConst::Bits(b) => {
                        f.stack.push(Value::Float(*b));
                        Some(Ok(()))
                    },
                    FloatConst::Bad(e) => Some(Err(VmError::Runtime(e.clone()))),
                }
            } else {
                Some(Err(VmError::Runtime(own("float constant out of range"))))
            }
        },
        Op::LdBool(b) => {
            f.stack.push(Value::Bool(*b));
            Some(Ok(()))
        },
        Op::LdChar(c) => {
            let ch: char = match char::from_u32(*c) {
                Some(ch) => ch,
                None => '\0',
            };
            f.stack.push(Value::Char(ch));
            Some(Ok(()))
        },
        Op::LdNull => {
            f.stack.push(Value::Null);
            Some(Ok(()))
        },
        Op::Ldloc(idx) | Op::Ldarg(idx) => {
            let i: usize = *idx as usize;
            if i < f.locals.len() {
                f.stack.push(f.locals[i]);
                Some(Ok(()))
            } else {
                Some(Err(local_error(*idx)))
            }
        },
        Op::Stloc(idx) => {
            let i: usize = *idx as usize;
            if f.stack.len() > 0 && i >= f.locals.len() {
                return Some(Err(local_error(*idx)));
            }
            match f.stack.pop() {
                None => Some(Err(VmError::StackUnderflow)),
                Some(v) => {
                    f.locals.set(i, v);
                    assert(f@.stack =~= old(f)@.stack.drop_last());
                    Some(Ok(()))
                },
            }
        },
        Op::Dup => {
            let n: usize = f.stack.len();
            if n == 0 {
                Some(Err(VmError::StackUnderflow))
            } else {
                f.stack.push(f.stack[n - 1]);
                Some(Ok(()))
            }
        },
        Op::Pop => match f.stack.pop() {
            None => Some(Err(VmError::StackUnderflow)),
            Some(_) => {
                assert(f@.stack =~= old(f)@.stack.drop_last());
                Some(Ok(()))
            },
        },
        Op::Br(to) => {
            f.pc = *to as usize;
            Some(Ok(()))
        },
        Op::BrTrue(to) => Some(branch(f, true, *to)),
        Op::BrFalse(to) => Some(branch(f, false, *to)),
        Op::Break | Op::Continue | Op::NewClosure(_, _) | Op::Invoke(_) => Some(
            Err(VmError::Runtime(own("operation cannot be executed"))),
        ),
        _ => None,
    }
}

// ---------------------------------------------------------------------------
// Steps
// ---------------------------------------------------------------------------

/// The methods that are running, outermost first.
pub open spec fn calls_of(frames: Seq<FrameModel>) -> Seq<MethodId> {
    Seq::new(frames.len(), |i: int| frames[i].method)
}

/// Frames with another innermost one.
pub open spec fn with_top(frames: Seq<FrameModel>, f: FrameModel) -> Seq<FrameModel> {
    frames.drop_last().push(f)
}

/// What a return comes to.
pub open spec fn returned(frames: Seq<FrameModel>) -> (Outcome, Seq<FrameModel>) {
    let f = frames.last();
    let v = if f.stack.len() > 0 {
        f.stack.last()
    } else {
        Value::Unit
    };
    let rest = frames.drop_last();
    if rest.len() == 0 {
        (Outcome::Done(v), rest)
    } else {
        (Outcome::Running, with_top(rest, pushed(rest.last(), v)))
    }
}

/// What the effect of an operation comes to; `next` is the frame with the next
/// operation behind this one and without the operands.
pub open spec fn settled(
    module: Module,
    h: HeapModel,
    frames: Seq<FrameModel>,
    next: FrameModel,
    e: Effect,
) -> (Outcome, Seq<FrameModel>) {
    match e {
        Effect::Value(v) => (Outcome::Running, with_top(frames, pushed(next, v))),
        Effect::Nothing => (Outcome::Running, with_top(frames, next)),
        Effect::Thrown(exc) => raised(
            module,
            h,
            with_top(frames, FrameModel { after_finally: None, ..next }),
            exc,
        ),
        Effect::Failed(f) => (Outcome::Failed(f), frames),
        Effect::Invoke(id, args) => match method_of(module, id) {
            None => (Outcome::Failed(Fault::UnknownMethod(id)), frames),
            Some(m) => (
                Outcome::Running,
                with_top(frames, next).push(new_frame(id, args, m.locals)),
            ),
        },
        Effect::Ask(q) => (Outcome::Ask(q), frames),
        Effect::Show(s) => (Outcome::Show(s), with_top(frames, next)),
    }
}

/// What the next operation comes to.
pub open spec fn step_effect(
    module: Module,
    checks: bool,
    s: StoreModel,
    frames: Seq<FrameModel>,
    w: Answers,
) -> (Outcome, StoreModel, Seq<FrameModel>) {
    let f = frames.last();
    match method_of(module, f.method) {
        None => (Outcome::Failed(Fault::UnknownMethod(f.method)), s, frames),
        Some(m) => if f.pc >= m.body@.len() {
            (Outcome::Failed(Fault::Runtime("pc out of bounds"@)), s, frames)
        } else {
            let op = m.body@[f.pc as int];
            let next = FrameModel { pc: (f.pc + 1) as usize, ..f };
            match op {
                Op::Ret => {
                    let (o, fs) = returned(frames);
                    (o, s, fs)
                },
                Op::EndFinally => match f.after_finally {
                    None => (Outcome::Running, s, with_top(frames, next)),
                    Some(exc) => {
                        let (o, fs) = raised(
                            module,
                            s.heap,
                            with_top(frames, FrameModel { after_finally: None, ..next }),
                            exc,
                        );
                        (o, s, fs)
                    },
                },
                _ => match frame_effect(module, next, op) {
                    Some(Ok(g)) => (Outcome::Running, s, with_top(frames, g)),
                    Some(Err(e)) => (Outcome::Failed(e), s, frames),
                    None => match operands(module, s.heap, op, f.stack) {
                        Err(e) => (Outcome::Failed(e), s, frames),
                        Ok((args, rest)) => {
                            let (e, s2) = apply_effect(
                                module,
                                checks,
                                s,
                                calls_of(frames),
                                w,
                                op,
                                args,
                            );
                            let (o, fs) = settled(
                                module,
                                s2.heap,
                                frames,
                                FrameModel { stack: rest, ..next },
                                e,
                            );
                            (o, s2, fs)
                        },
                    },
                },
            }
        },
    }
}

fn list_calls(frames: &Vec<Frame>) -> (r: Vec<MethodId>)
    ensures
        r@ == calls_of(frame_models(frames@)),
{
    let ghost fs = frame_models(frames@);
    let mut out: Vec<MethodId> = Vec::new();
    let mut i: usize = 0;
    while i < frames.len()
        invariant
            i <= frames@.len(),
            fs == frame_models(frames@),
            out@ == calls_of(fs).subrange(0, i as int),
        decreases frames.len() - i,
    {
        out.push(frames[i].method_id);
        assert(out@ =~= calls_of(fs).subrange(0, i + 1));
        i = i + 1;
    }
    assert(calls_of(fs).subrange(0, i as int) =~= calls_of(fs));
    out
}

fn return_value(frames: &mut Vec<Frame>) -> (r: Stepped)
    requires
        old(frames)@.len() > 0,
    ensures
        (r@, frame_models(final(frames)@)) == returned(frame_models(old(frames)@)),
{
    let ghost fs = frame_models(frames@);
    let mut f: Frame = match frames.pop() {
        Some(f) => f,
        None => return Stepped::Running,
    };
    assert(fs.last() == f@);
    assert(frame_models(frames@) =~= fs.drop_last());
    let v: Value = match f.stack.pop() {
        Some(v) => v,
        None => Value::Unit,
    };
    match frames.pop() {
        None => Stepped::Done(v),
        Some(mut g) => {
            let ghost rest = fs.drop_last();
            assert(rest.last() == g@);
            assert(frame_models(frames@) =~= rest.drop_last());
            let ghost g0 = g@;
            g.stack.push(v);
            let ghost g1 = g@;
            assert(g1 =~= pushed(g0, v));
            frames.push(g);
            assert(frame_models(frames@) =~= rest.drop_last().push(g1));
            Stepped::Running
        },
    }
}

/// A frame that was taken off and put back.
proof fn put_back(rest: Seq<Frame>, f: Frame, all: Seq<FrameModel>)
    requires
        all.len() > 0,
        all.last() == f@,
        frame_models(rest) == all.drop_last(),
    ensures
        frame_models(rest.push(f)) == all,
{
    let got = frame_models(rest.push(f));
    assert(frame_models(rest).len() == all.len() - 1);
    assert forall|i: int| 0 <= i < all.len() implies got[i] == all[i] by {
        if i < rest.len() {
            assert(frame_models(rest)[i] == all.drop_last()[i]);
        }
    }
    assert(got =~= all);
}

/// Carry out the effect of an operation; the innermost frame has been taken
/// off, and is `f`.
fn settle(
    module: &Module,
    heap: &Heap,
    frames: &mut Vec<Frame>,
    f: Frame,
    below: usize,
    e: Applied,
    Ghost(all): Ghost<Seq<FrameModel>>,
) -> (r: Stepped)
    requires
        heap_ok(heap@),
        all.len() > 0,
        all.last() == f@,
        frame_models(old(frames)@) == all.drop_last(),
        below <= f.stack@.len(),
        f.pc < usize::MAX,
    ensures
        (r@, frame_models(final(frames)@)) == settled(
            *module,
            heap@,
            all,
            FrameModel {
                pc: (f.pc + 1) as usize,
                stack: f@.stack.subrange(0, below as int),
                ..f@
            },
            e@,
        ),
{
    let ghost next = FrameModel {
        pc: (f.pc + 1) as usize,
        stack: f@.stack.subrange(0, below as int),
        ..f@
    };
    let mut f: Frame = f;
    match e {
        Applied::Failed(err) => {
            proof {
                put_back(frames@, f, all);
            }
            frames.push(f);
            Stepped::Failed(err)
        },
        Applied::Ask(a) => {
            proof {
                put_back(frames@, f, all);
            }
            frames.push(f);
            Stepped::Ask(a)
        },
        Applied::Value(v) => {
            f.stack.truncate(below);
            f.pc = f.pc + 1;
            assert(f@ =~= next);
            f.stack.push(v);
            let ghost g = f@;
            frames.push(f);
            assert(frame_models(frames@) =~= all.drop_last().push(g));
            Stepped::Running
        },
        Applied::Nothing => {
            f.stack.truncate(below);
            f.pc = f.pc + 1;
            assert(f@ =~= next);
            frames.push(f);
            assert(frame_models(frames@) =~= all.drop_last().push(next));
            Stepped::Running
        },
        Applied::Show(s) => {
            f.stack.truncate(below);
            f.pc = f.pc + 1;
            assert(f@ =~= next);
            frames.push(f);
            assert(frame_models(frames@) =~= all.drop_last().push(next));
            Stepped::Show(s)
        },
        Applied::Thrown(exc) => {
            f.stack.truncate(below);
            f.pc = f.pc + 1;
            f.after_finally = None;
            let ghost g = f@;
            assert(g =~= FrameModel { after_finally: None, ..next });
            frames.push(f);
            assert(frame_models(frames@) =~= all.drop_last().push(g));
            raise(module, heap, frames, exc)
        },
        Applied::Invoke(id, args) => match module.method(id) {
            None => {
                proof {
                    put_back(frames@, f, all);
                }
                frames.push(f);
                Stepped::Failed(VmError::UnknownMethod(id))
            },
            Some(m) => {
                f.stack.truncate(below);
                f.pc = f.pc + 1;
                assert(f@ =~= next);
                frames.push(f);
                assert(frame_models(frames@) =~= all.drop_last().push(next));
                let g: Frame = Frame::new(id, args, m.locals);
                let ghost gm = g@;
                let ghost before = frame_models(frames@);
                frames.push(g);
                assert(frame_models(frames@) =~= before.push(gm));
                Stepped::Running
            },
        },
    }
}

/// Execute the next operation.
fn step_in(
    module: &Module,
    checks: bool,
    store: &mut Store,
    frames: &mut Vec<Frame>,
    world: &World,
) -> (r: Stepped)
    requires
        store_ok(old(store)@),
        old(frames)@.len() > 0,
    ensures
        store_ok(final(store)@),
        (r@, final(store)@, frame_models(final(frames)@)) == step_effect(
            *module,
            checks,
            old(store)@,
            frame_models(old(frames)@),
            world@,
        ),
{
    let ghost all = frame_models(frames@);
    let ghost s0 = store@;
    let mut f: Frame = match frames.pop() {
        Some(f) => f,
        None => return Stepped::Running,
    };
    let ghost f0 = f@;
    assert(all.last() == f0);
    assert(frame_models(frames@) =~= all.drop_last());
    let m: &MethodDef = match module.method(f.method_id) {
        Some(m) => m,
        None => {
            let id: MethodId = f.method_id;
            proof {
                put_back(frames@, f, all);
            }
            frames.push(f);
            return Stepped::Failed(VmError::UnknownMethod(id));
        },
    };
    if f.pc >= m.body.len() {
        proof {
            put_back(frames@, f, all);
        }
        frames.push(f);
        return Stepped::Failed(VmError::Runtime(own("pc out of bounds")));
    }
    let op: &Op = &m.body[f.pc];
    match op {
        Op::Ret => {
            proof {
                put_back(frames@, f, all);
            }
            frames.push(f);
            return return_value(frames);
        },
        Op::EndFinally => {
            f.pc = f.pc + 1;
            let after: Option<Value> = f.after_finally;
            f.after_finally = None;
            let ghost g = f@;
            frames.push(f);
            assert(frame_models(frames@) =~= all.drop_last().push(g));
            return match after {
                Some(exc) => raise(module, &store.heap, frames, exc),
                None => Stepped::Running,
            };
        },
        _ => {},
    }
    f.pc = f.pc + 1;
    match frame_step(module, &mut f, op) {
        Some(Ok(_)) => {
            let ghost g = f@;
            frames.push(f);
            assert(frame_models(frames@) =~= all.drop_last().push(g));
            return Stepped::Running;
        },
        Some(Err(e)) => {
            f.pc = f.pc - 1;
            assert(f@ =~= f0);
            proof {
                put_back(frames@, f, all);
            }
            frames.push(f);
            return Stepped::Failed(e);
        },
        None => {},
    }
    f.pc = f.pc - 1;
    assert(f@ =~= f0);
    let (args, below) = match take_operands(module, &store.heap, op, &f.stack) {
        Ok(p) => p,
        Err(e) => {
            proof {
                put_back(frames@, f, all);
            }
            frames.push(f);
            return Stepped::Failed(e);
        },
    };
    let calls: Vec<MethodId> = match op {
        Op::Throw => {
            let mut calls: Vec<MethodId> = list_calls(frames);
            calls.push(f.method_id);
            assert(calls@ =~= calls_of(all));
            calls
        },
        _ => Vec::new(),
    };
    let e: Applied = store.apply(module, checks, &calls, world, op, &args);
    settle(module, &store.heap, frames, f, below, e, Ghost(all))
}

// ---------------------------------------------------------------------------
// The machine
// ---------------------------------------------------------------------------

/// A virtual machine execution context.
pub struct Vm {
    /// The program.
    pub module: Module,
    /// Heap and static fields.
    pub store: Store,
    /// The methods that are running, outermost first.
    pub frames: Vec<Frame>,
    /// When true, integer arithmetic and narrowing conversions detect overflow
    /// and raise a runtime error; when false they wrap.
    pub overflow_checks: bool,
}

/// A machine by value, but for its program.
#[verifier::ext_equal]
pub ghost struct VmModel {
    /// Heap and static fields.
    pub store: StoreModel,
    /// The methods that are running.
    pub frames: Seq<FrameModel>,
    /// Whether overflow is detected.
    pub checks: bool,
}

impl View for Vm {
    type V = VmModel;

    open spec fn view(&self) -> VmModel {
        VmModel {
            store: self.store@,
            frames: frame_models(self.frames@),
            checks: self.overflow_checks,
        }
    }
}

/// The static fields of all classes before anything has run.
pub open spec fn first_statics(cs: Seq<(ClassId, ClassDef)>) -> Seq<(ClassId, Seq<Value>)> {
    Seq::new(
        cs.len(),
        |i: int|
            (
                cs[i].0,
                Seq::new(
                    cs[i].1.static_fields@.len(),
                    |j: int| default_of(cs[i].1.static_fields@[j].ty),
                ),
            ),
    )
}

/// A machine before anything has run.
pub open spec fn fresh(module: Module) -> VmModel {
    VmModel {
        store: StoreModel {
            heap: empty_heap(crate::vm::heap::DEFAULT_GC_THRESHOLD),
            statics: first_statics(module.classes@),
        },
        frames: Seq::empty(),
        checks: false,
    }
}

/// What the next operation of a machine comes to, and the machine after it. A
/// failure ends the run: no method is running after it.
pub open spec fn stepped(module: Module, m: VmModel, w: Answers) -> (Outcome, VmModel) {
    let (o, s, fs) = step_effect(module, m.checks, m.store, m.frames, w);
    let left = if o is Failed {
        Seq::empty()
    } else {
        fs
    };
    (o, VmModel { store: s, frames: left, checks: m.checks })
}

/// The answers after a step: input and output are used up.
pub open spec fn used(o: Outcome, w: Answers) -> Answers {
    if o is Ask {
        w
    } else {
        Answers { reply: None, ..w }
    }
}

/// What up to `fuel` operations come to. A machine stops before that where it
/// has to hand something out.
pub open spec fn advanced(module: Module, m: VmModel, w: Answers, fuel: nat) -> (
    Outcome,
    VmModel,
    Answers,
)
    decreases fuel,
{
    if fuel == 0 || m.frames.len() == 0 {
        (Outcome::Running, m, w)
    } else {
        let (o, m2) = stepped(module, m, w);
        if o is Running {
            advanced(module, m2, used(o, w), (fuel - 1) as nat)
        } else {
            (o, m2, used(o, w))
        }
    }
}

/// A call from outside.
pub open spec fn invoked(module: Module, m: VmModel, id: MethodId, args: Seq<Value>) -> Result<
    VmModel,
    Fault,
> {
    match method_of(module, id) {
        None => Err(Fault::UnknownMethod(id)),
        Some(def) => Ok(
            VmModel { frames: m.frames.push(new_frame(id, args, def.locals)), ..m },
        ),
    }
}

fn default_statics(module: &Module) -> (r: Vec<(ClassId, Vec<Value>)>)
    ensures
        static_models(r@) == first_statics(module.classes@),
{
    let ghost want = first_statics(module.classes@);
    let mut out: Vec<(ClassId, Vec<Value>)> = Vec::new();
    let mut i: usize = 0;
    while i < module.classes.len()
        invariant
            i <= module.classes@.len(),
            want == first_statics(module.classes@),
            static_models(out@) == want.subrange(0, i as int),
        decreases module.classes.len() - i,
    {
        let class: &ClassDef = &module.classes[i].1;
        let mut vs: Vec<Value> = Vec::new();
        let mut j: usize = 0;
        while j < class.static_fields.len()
            invariant
                j <= class.static_fields@.len(),
                vs@.len() == j,
                forall|k: int|
                    0 <= k < j ==> vs@[k] == default_of(#[trigger] class.static_fields@[k].ty),
            decreases class.static_fields.len() - j,
        {
            vs.push(default_value(&class.static_fields[j].ty));
            j = j + 1;
        }
        assert(vs@ =~= want[i as int].1);
        let ghost vm = vs@;
        let ghost before = static_models(out@);
        out.push((module.classes[i].0, vs));
        assert(static_models(out@) =~= before.push((module.classes@[i as int].0, vm)));
        assert(static_models(out@) =~= want.subrange(0, i + 1));
        i = i + 1;
    }
    assert(want.subrange(0, i as int) =~= want);
    out
}

impl Vm {
    /// Create a machine for the given module.
    pub fn new(module: Module) -> (r: Self)
        ensures
            r.module == module,
            r@ == fresh(module),
            store_ok(r@.store),
    {
        let statics: Vec<(ClassId, Vec<Value>)> = default_statics(&module);
        let r: Vm = Vm {
            module,
            store: Store { heap: Heap::new(), statics },
            frames: Vec::new(),
            overflow_checks: false,
        };
        assert(r@.frames =~= Seq::empty());
        r
    }

    /// Enable or disable runtime overflow checking. When enabled, integer
    /// overflow in arithmetic and narrowing conversions is an error; when
    /// disabled, results wrap around.
    pub fn set_overflow_checks(&mut self, enabled: bool)
        ensures
            final(self).module == old(self).module,
            final(self)@ == (VmModel { checks: enabled, ..old(self)@ }),
    {
        self.overflow_checks = enabled;
    }

    /// Access the heap directly.
    pub fn heap(&self) -> (r: &Heap)
        ensures
            r@ == self@.store.heap,
    {
        &self.store.heap
    }

    /// Start a method with the supplied arguments.
    pub fn invoke(&mut self, method_id: MethodId, args: Vec<Value>) -> (r: Result<(), VmError>)
        ensures
            final(self).module == old(self).module,
            invoked(old(self).module, old(self)@, method_id, args@) == (match r {
                Ok(_) => Ok(final(self)@),
                Err(e) => Err(e@),
            }),
            r is Err ==> final(self)@ == old(self)@,
    {
        let locals: u16 = match self.module.method(method_id) {
            Some(m) => m.locals,
            None => return Err(VmError::UnknownMethod(method_id)),
        };
        let f: Frame = Frame::new(method_id, args, locals);
        let ghost before = self@.frames;
        let ghost g = f@;
        self.frames.push(f);
        assert(self@.frames =~= before.push(g));
        Ok(())
    }

    /// Start the entrypoint of the module.
    pub fn run(&mut self) -> (r: Result<(), VmError>)
        ensures
            final(self).module == old(self).module,
            match old(self).module.entrypoint {
                None => r matches Err(VmError::NoEntrypoint) && final(self)@ == old(self)@,
                Some(entry) => invoked(old(self).module, old(self)@, entry, Seq::empty()) == (
                match r {
                    Ok(_) => Ok(final(self)@),
                    Err(e) => Err(e@),
                }),
            },
    {
        match self.module.entrypoint {
            None => Err(VmError::NoEntrypoint),
            Some(entry) => {
                let args: Vec<Value> = Vec::new();
                assert(args@ =~= Seq::empty());
                self.invoke(entry, args)
            },
        }
    }

    /// Execute the next operation. A failure ends the run.
    pub fn step(&mut self, world: &World) -> (r: Stepped)
        requires
            store_ok(old(self)@.store),
            old(self).frames@.len() > 0,
        ensures
            final(self).module == old(self).module,
            store_ok(final(self)@.store),
            (r@, final(self)@) == stepped(old(self).module, old(self)@, world@),
    {
        let r: Stepped = step_in(
            &self.module,
            self.overflow_checks,
            &mut self.store,
            &mut self.frames,
            world,
        );
        if let Stepped::Failed(_) = &r {
            self.frames.clear();
            assert(frame_models(self.frames@) =~= Seq::empty());
        }
        r
    }

    /// Execute up to `fuel` operations, until something is to be handed out.
    pub fn advance(&mut self, world: &mut World, fuel: u64) -> (r: Stepped)
        requires
            store_ok(old(self)@.store),
        ensures
            final(self).module == old(self).module,
            store_ok(final(self)@.store),
            (r@, final(self)@, final(world)@) == advanced(
                old(self).module,
                old(self)@,
                old(world)@,
                fuel as nat,
            ),
    {
        let ghost want = advanced(self.module, self@, world@, fuel as nat);
        let mut left: u64 = fuel;
        while left > 0 && self.frames.len() > 0
            invariant
                store_ok(self@.store),
                self.module == old(self).module,
                want == advanced(old(self).module, old(self)@, old(world)@, fuel as nat),
                want == advanced(self.module, self@, world@, left as nat),
            decreases left,
        {
            let ghost w = world@;
            assert(self@.frames.len() > 0);
            let r: Stepped = self.step(world);
            match r {
                Stepped::Ask(a) => {
                    return Stepped::Ask(a);
                },
                Stepped::Running => {
                    world.reply = None;
                    assert(world@ =~= used(Outcome::Running, w));
                },
                other => {
                    world.reply = None;
                    assert(world@ =~= used(other@, w));
                    return other;
                },
            }
            left = left - 1;
        }
        Stepped::Running
    }
}

/// A machine that asks has not changed, so that the operation can be executed
/// again when the answer is known.
pub proof fn question_stops_machine(module: Module, m: VmModel, w: Answers)
    requires
        m.frames.len() > 0,
    ensures
        stepped(module, m, w).0 is Ask ==> stepped(module, m, w).1 == m,
{
    let f = m.frames.last();
    if let Some(def) = method_of(module, f.method) {
        if f.pc < def.body@.len() {
            let op = def.body@[f.pc as int];
            let next = FrameModel { pc: (f.pc + 1) as usize, ..f };
            if f.after_finally is Some {
                raise_asks_nothing(
                    module,
                    m.store.heap,
                    with_top(m.frames, FrameModel { after_finally: None, ..next }),
                    f.after_finally->Some_0,
                );
            }
            if let Ok((args, rest)) = operands(module, m.store.heap, op, f.stack) {
                question_changes_nothing(
                    module,
                    m.checks,
                    m.store,
                    calls_of(m.frames),
                    w,
                    op,
                    args,
                );
                let (e, s2) = apply_effect(
                    module,
                    m.checks,
                    m.store,
                    calls_of(m.frames),
                    w,
                    op,
                    args,
                );
                if let Effect::Thrown(exc) = e {
                    raise_asks_nothing(
                        module,
                        s2.heap,
                        with_top(
                            m.frames,
                            FrameModel { after_finally: None, stack: rest, ..next },
                        ),
                        exc,
                    );
                }
            }
        }
    }
}

proof fn raise_asks_nothing(module: Module, h: HeapModel, frames: Seq<FrameModel>, exc: Value)
    ensures
        !(raised(module, h, frames, exc).0 is Ask),
    decreases frames.len(),
{
    if frames.len() > 0 {
        raise_asks_nothing(module, h, frames.drop_last(), exc);
    }
}

/// An exception that a `catch` of the running method covers goes there: the
/// method goes on in the handler with the exception in its local, and its
/// callers are as they were.
pub proof fn caught_where_covered(
    module: Module,
    h: HeapModel,
    frames: Seq<FrameModel>,
    exc: Value,
    k: int,
)
    requires
        frames.len() > 0,
        handler_for(
            module,
            h,
            handlers_of(module, frames.last()),
            place_in(frames.last()),
            exc,
        ) == Some(k),
        handlers_of(module, frames.last())[k].catch_type is Some,
        handlers_of(module, frames.last())[k].catch_local < frames.last().locals.len(),
    ensures
        ({
            let handler = handlers_of(module, frames.last())[k];
            let (o, after) = raised(module, h, frames, exc);
            &&& o == Outcome::Running
            &&& after.len() == frames.len()
            &&& after.drop_last() == frames.drop_last()
            &&& after.last().pc == handler.handler_pc
            &&& after.last().locals[handler.catch_local as int] == exc
        }),
{
    let handler = handlers_of(module, frames.last())[k];
    let f = handled(frames.last(), handler, exc);
    assert(frames.drop_last().push(f).drop_last() =~= frames.drop_last());
}

} // verus!
