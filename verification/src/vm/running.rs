//! What a step of the machine does to the frames: operands, locals, jumps, calls
//! and returns.

use crate::bytecode::{method_of, ExceptionHandler, MethodDef, MethodId, Module, Op};
use crate::vm::frames::FrameModel;
use crate::vm::machine::{advanced, handled, invoked, raised, stepped, used, Outcome, VmModel};
use crate::vm::operators::doing;
use crate::vm::promises::Setting;
use crate::vm::value::{truthy, Value};
use crate::vm::world::{Answers, Effect};
use vstd::prelude::*;

verus! {

/// The machine is about to execute an operation.
pub open spec fn before(module: Module, m: VmModel, op: Op) -> bool {
    &&& m.frames.len() > 0
    &&& m.frames.last().pc < usize::MAX
    &&& method_of(module, m.frames.last().method) matches Some(def) && m.frames.last().pc
        < def.body@.len() && def.body@[m.frames.last().pc as int] == op
}

/// What one operation comes to.
#[verifier::opaque]
pub open spec fn one(module: Module, m: VmModel, w: Answers) -> (Outcome, VmModel) {
    stepped(module, m, w)
}

/// The machine went on in the same frame, which now has these locals and operands
/// and goes on at `pc`; nothing else has changed.
pub open spec fn went(
    r: (Outcome, VmModel),
    m: VmModel,
    pc: int,
    locals: Seq<Value>,
    stack: Seq<Value>,
) -> bool {
    &&& r.0 == Outcome::Running
    &&& r.1.store == m.store
    &&& r.1.checks == m.checks
    &&& r.1.frames.len() == m.frames.len()
    &&& forall|i: int|
        0 <= i < m.frames.len() - 1 ==> #[trigger] r.1.frames[i] == m.frames[i]
    &&& r.1.frames.last().method == m.frames.last().method
    &&& r.1.frames.last().after_finally == m.frames.last().after_finally
    &&& r.1.frames.last().pc == pc
    &&& r.1.frames.last().locals == locals
    &&& r.1.frames.last().stack == stack
}

/// Constants go on top of the operands.
pub proof fn constant_law(module: Module, m: VmModel, w: Answers, op: Op)
    requires
        before(module, m, op),
    ensures
        ({
            let f = m.frames.last();
            let r = one(module, m, w);
            &&& op is Nop ==> went(r, m, f.pc + 1, f.locals, f.stack)
            &&& op matches Op::LdInt(i) ==> went(
                r,
                m,
                f.pc + 1,
                f.locals,
                f.stack.push(Value::Int(i as i64)),
            )
            &&& op matches Op::LdInt64(i) ==> went(
                r,
                m,
                f.pc + 1,
                f.locals,
                f.stack.push(Value::Int(i)),
            )
            &&& op matches Op::LdBool(b) ==> went(
                r,
                m,
                f.pc + 1,
                f.locals,
                f.stack.push(Value::Bool(b)),
            )
            &&& op is LdNull ==> went(r, m, f.pc + 1, f.locals, f.stack.push(Value::Null))
        }),
{
    reveal(one);
}

/// Locals: reading one puts its value on top, writing one takes the value on top,
/// and no other local changes.
pub proof fn local_law(module: Module, m: VmModel, w: Answers, i: u16, op: Op)
    requires
        before(module, m, op),
        i < m.frames.last().locals.len(),
    ensures
        ({
            let f = m.frames.last();
            let r = one(module, m, w);
            &&& op == Op::Ldloc(i) || op == Op::Ldarg(i) ==> went(
                r,
                m,
                f.pc + 1,
                f.locals,
                f.stack.push(f.locals[i as int]),
            )
            &&& op == Op::Stloc(i) && f.stack.len() > 0 ==> {
                let after = r.1.frames.last();
                &&& went(r, m, f.pc + 1, after.locals, f.stack.drop_last())
                &&& after.locals.len() == f.locals.len()
                &&& after.locals[i as int] == f.stack.last()
                &&& forall|k: int|
                    0 <= k < f.locals.len() && k != i ==> #[trigger] after.locals[k] == f.locals[k]
            }
        }),
{
    reveal(one);
}

/// Operands: one is doubled or dropped.
pub proof fn operand_law(module: Module, m: VmModel, w: Answers, op: Op)
    requires
        before(module, m, op),
        m.frames.last().stack.len() > 0,
    ensures
        ({
            let f = m.frames.last();
            let r = one(module, m, w);
            &&& op is Dup ==> went(r, m, f.pc + 1, f.locals, f.stack.push(f.stack.last()))
            &&& op is Pop ==> went(r, m, f.pc + 1, f.locals, f.stack.drop_last())
        }),
{
    reveal(one);
}

/// Jumps: a condition is dropped, and decides between the target and the next
/// operation.
pub proof fn jump_law(module: Module, m: VmModel, w: Answers, op: Op, to: u32)
    requires
        before(module, m, op),
    ensures
        ({
            let f = m.frames.last();
            let r = one(module, m, w);
            let holds = truthy(f.stack.last());
            &&& op == Op::Br(to) ==> went(r, m, to as int, f.locals, f.stack)
            &&& op == Op::BrTrue(to) && f.stack.len() > 0 ==> went(
                r,
                m,
                if holds {
                    to as int
                } else {
                    f.pc + 1
                },
                f.locals,
                f.stack.drop_last(),
            )
            &&& op == Op::BrFalse(to) && f.stack.len() > 0 ==> went(
                r,
                m,
                if holds {
                    f.pc + 1
                } else {
                    to as int
                },
                f.locals,
                f.stack.drop_last(),
            )
        }),
{
    reveal(one);
}

/// The rest of what surrounds an operation of a machine.
pub open spec fn setting(module: Module, m: VmModel, w: Answers) -> Setting {
    Setting {
        module,
        checks: m.checks,
        calls: Seq::new(m.frames.len(), |i: int| m.frames[i].method),
        world: w,
    }
}

/// An operation on two operands that gives a value: the value takes the place of
/// the two, of which the upper one is the right one.
pub proof fn binary_law(
    module: Module,
    m: VmModel,
    w: Answers,
    op: Op,
    below: Seq<Value>,
    a: Value,
    b: Value,
    v: Value,
)
    requires
        before(module, m, op),
        m.frames.last().stack == below.push(a).push(b),
        op is Add || op is Sub || op is Mul || op is Div || op is Rem || op is Eq || op is Lt
            || op is Le || op is Gt || op is Ge || op is And || op is Or || op is ValueEq,
        doing(setting(module, m, w), m.store, op, seq![a, b]) == (Effect::Value(v), m.store),
    ensures
        went(
            one(module, m, w),
            m,
            m.frames.last().pc + 1,
            m.frames.last().locals,
            below.push(v),
        ),
{
    reveal(one);
    reveal(doing);
    let stack = m.frames.last().stack;
    assert(stack.subrange(stack.len() - 2, stack.len() as int) =~= seq![a, b]);
    assert(stack.subrange(0, stack.len() - 2) =~= below);
    assert(crate::vm::machine::calls_of(m.frames) =~= setting(module, m, w).calls);
}

/// An operation on one operand that gives a value: the value takes its place.
pub proof fn unary_law(
    module: Module,
    m: VmModel,
    w: Answers,
    op: Op,
    below: Seq<Value>,
    a: Value,
    v: Value,
)
    requires
        before(module, m, op),
        m.frames.last().stack == below.push(a),
        op is Neg || op is Not || op is Conv || op is Hash || op is IsInst || op is Ldfld || op is EnumTag
            || op is EnumField || op is TupleField,
        doing(setting(module, m, w), m.store, op, seq![a]) == (Effect::Value(v), m.store),
    ensures
        went(
            one(module, m, w),
            m,
            m.frames.last().pc + 1,
            m.frames.last().locals,
            below.push(v),
        ),
{
    reveal(one);
    reveal(doing);
    let stack = m.frames.last().stack;
    assert(stack.subrange(stack.len() - 1, stack.len() as int) =~= seq![a]);
    assert(stack.subrange(0, stack.len() - 1) =~= below);
    assert(crate::vm::machine::calls_of(m.frames) =~= setting(module, m, w).calls);
}

/// Calls: the arguments leave the caller and are the first locals of the callee,
/// in order, which starts with its first operation and with no operands. The
/// caller goes on behind the call.
pub proof fn call_law(
    module: Module,
    m: VmModel,
    w: Answers,
    id: MethodId,
    def: MethodDef,
    below: Seq<Value>,
    args: Seq<Value>,
)
    requires
        before(module, m, Op::Call(id)),
        method_of(module, id) == Some(def),
        args.len() == def.params@.len(),
        args.len() <= def.locals,
        m.frames.last().stack == below + args,
    ensures
        ({
            let (o, after) = one(module, m, w);
            let n = m.frames.len() as int;
            let f = m.frames.last();
            let callee = after.frames[n];
            let caller = after.frames[n - 1];
            &&& o == Outcome::Running
            &&& after.store == m.store
            &&& after.frames.len() == n + 1
            &&& forall|i: int| 0 <= i < n - 1 ==> #[trigger] after.frames[i] == m.frames[i]
            &&& caller.stack == below
            &&& caller.locals == f.locals
            &&& caller.pc == f.pc + 1
            &&& caller.method == f.method
            &&& callee.method == id
            &&& callee.pc == 0
            &&& callee.stack.len() == 0
            &&& callee.locals.len() == def.locals
            &&& forall|i: int| 0 <= i < args.len() ==> #[trigger] callee.locals[i] == args[i]
        }),
{
    reveal(one);
    let stack = m.frames.last().stack;
    assert(stack.subrange(stack.len() - args.len(), stack.len() as int) =~= args);
    assert(stack.subrange(0, stack.len() - args.len()) =~= below);
}

/// Calls on a receiver, which is on top of the arguments: it is the first local of
/// the callee and the arguments follow in order.
pub proof fn receiver_law(
    module: Module,
    m: VmModel,
    w: Answers,
    op: Op,
    id: MethodId,
    def: MethodDef,
    below: Seq<Value>,
    args: Seq<Value>,
    receiver: Value,
)
    requires
        before(module, m, op),
        op is CallVirt || op is CallSuper,
        doing(setting(module, m, w), m.store, op, seq![receiver]).0 == Effect::Invoke(
            id,
            seq![receiver],
        ),
        method_of(module, id) == Some(def),
        args.len() == def.params@.len(),
        args.len() < def.locals,
        m.frames.last().stack == (below + args).push(receiver),
    ensures
        ({
            let (o, after) = one(module, m, w);
            let n = m.frames.len() as int;
            let callee = after.frames[n];
            let caller = after.frames[n - 1];
            &&& o == Outcome::Running
            &&& after.store == m.store
            &&& after.frames.len() == n + 1
            &&& caller.stack == below
            &&& caller.locals == m.frames.last().locals
            &&& caller.pc == m.frames.last().pc + 1
            &&& callee.method == id
            &&& callee.pc == 0
            &&& callee.locals[0] == receiver
            &&& forall|i: int| 0 <= i < args.len() ==> #[trigger] args[i] == callee.locals[i + 1]
        }),
{
    reveal(one);
    reveal(doing);
    let stack = m.frames.last().stack;
    let under = stack.drop_last();
    assert(under =~= below + args);
    assert(under.subrange(under.len() - args.len(), under.len() as int) =~= args);
    assert(under.subrange(0, under.len() - args.len()) =~= below);
    assert((seq![receiver] + args)[0] == receiver);
}

/// Writing a field takes the object from the top and the value from below it.
pub proof fn field_store_law(
    module: Module,
    m: VmModel,
    w: Answers,
    idx: u16,
    below: Seq<Value>,
    v: Value,
    object: Value,
)
    requires
        before(module, m, Op::Stfld(idx)),
        m.frames.last().stack == below.push(v).push(object),
        doing(setting(module, m, w), m.store, Op::Stfld(idx), seq![object, v]).0 == Effect::Nothing,
    ensures
        ({
            let (o, after) = one(module, m, w);
            &&& o == Outcome::Running
            &&& after.store == doing(
                setting(module, m, w),
                m.store,
                Op::Stfld(idx),
                seq![object, v],
            ).1
            &&& after.frames.len() == m.frames.len()
            &&& after.frames.last().stack == below
            &&& after.frames.last().locals == m.frames.last().locals
            &&& after.frames.last().pc == m.frames.last().pc + 1
        }),
{
    reveal(one);
    reveal(doing);
    let stack = m.frames.last().stack;
    assert(seq![stack.last(), stack[stack.len() - 2]] =~= seq![object, v]);
    assert(stack.subrange(0, stack.len() - 2) =~= below);
}

/// Returns: the frame is gone, and the value on top of its operands is on top of
/// those of the caller, which is otherwise as it was. The outermost return ends
/// the run with that value.
pub proof fn return_law(module: Module, m: VmModel, w: Answers)
    requires
        before(module, m, Op::Ret),
    ensures
        ({
            let (o, after) = one(module, m, w);
            let n = m.frames.len() as int;
            let f = m.frames.last();
            let v = if f.stack.len() > 0 {
                f.stack.last()
            } else {
                Value::Unit
            };
            &&& after.store == m.store
            &&& n == 1 ==> o == Outcome::Done(v) && after.frames.len() == 0
            &&& n > 1 ==> {
                let caller = after.frames[n - 2];
                &&& o == Outcome::Running
                &&& after.frames.len() == n - 1
                &&& forall|i: int| 0 <= i < n - 2 ==> #[trigger] after.frames[i] == m.frames[i]
                &&& caller.stack == m.frames[n - 2].stack.push(v)
                &&& caller.locals == m.frames[n - 2].locals
                &&& caller.pc == m.frames[n - 2].pc
                &&& caller.method == m.frames[n - 2].method
            }
        }),
{
    reveal(one);
}

/// A `finally` that was entered by an exception raises it again where it ends; one
/// that was not goes on behind it.
pub proof fn finally_law(module: Module, m: VmModel, w: Answers)
    requires
        before(module, m, Op::EndFinally),
    ensures
        ({
            let f = m.frames.last();
            let (o, after) = one(module, m, w);
            &&& f.after_finally is None ==> went((o, after), m, f.pc + 1, f.locals, f.stack)
            &&& f.after_finally matches Some(exc) ==> after.store == m.store && (o, after.frames)
                == raised(
                module,
                m.store.heap,
                m.frames.drop_last().push(
                    FrameModel { pc: (f.pc + 1) as usize, after_finally: None, ..f },
                ),
                exc,
            )
        }),
{
    reveal(one);
    raised_runs(
        module,
        m.store.heap,
        m.frames.drop_last().push(
            FrameModel {
                pc: (m.frames.last().pc + 1) as usize,
                after_finally: None,
                ..m.frames.last()
            },
        ),
        m.frames.last().after_finally->0,
    );
}

proof fn raised_runs(
    module: Module,
    h: crate::vm::heap::HeapModel,
    frames: Seq<FrameModel>,
    exc: Value,
)
    ensures
        !(raised(module, h, frames, exc).0 is Failed),
    decreases frames.len(),
{
    if frames.len() > 0 {
        raised_runs(module, h, frames.drop_last(), exc);
    }
}

/// A handler that is entered: the frame goes on where the handler starts; a `catch`
/// has the exception in its local and leaves the other locals alone, a `finally`
/// leaves them all alone and keeps the exception.
pub proof fn entering_law(f: FrameModel, handler: ExceptionHandler, exc: Value, k: int)
    requires
        0 <= k < f.locals.len(),
    ensures
        ({
            let g = handled(f, handler, exc);
            &&& g.method == f.method
            &&& g.pc == handler.handler_pc
            &&& g.locals.len() == f.locals.len()
            &&& handler.catch_type is Some ==> (g.locals[k] == if k == handler.catch_local {
                exc
            } else {
                f.locals[k]
            })
            &&& handler.catch_type is None ==> g.locals == f.locals && g.after_finally == Some(exc)
        }),
{
}

/// A failure leaves no method running.
pub proof fn failure_law(module: Module, m: VmModel, w: Answers)
    requires
        one(module, m, w).0 is Failed,
    ensures
        one(module, m, w).1.frames.len() == 0,
{
    reveal(one);
}

/// A call from outside starts the method with the arguments as its first locals;
/// what was running is below it.
pub proof fn entry_law(module: Module, m: VmModel, id: MethodId, args: Seq<Value>, i: int)
    ensures
        invoked(module, m, id, args) is Ok <==> method_of(module, id) is Some,
        invoked(module, m, id, args) matches Ok(after) ==> {
            &&& after.store == m.store
            &&& after.frames.drop_last() == m.frames
            &&& after.frames.last().method == id
            &&& after.frames.last().pc == 0
            &&& after.frames.last().stack.len() == 0
            &&& 0 <= i < args.len() && i < after.frames.last().locals.len()
                ==> after.frames.last().locals[i] == args[i]
        },
{
    if method_of(module, id) is Some {
        assert((invoked(module, m, id, args)->Ok_0).frames.drop_last() =~= m.frames);
    }
}

/// Running in parts: some operations and then some more come to the same as all of
/// them at once, as long as the machine goes on.
pub proof fn parts_law(module: Module, m: VmModel, w: Answers, a: nat, b: nat)
    ensures
        ({
            let (o, m2, w2) = advanced(module, m, w, a);
            o is Running ==> advanced(module, m, w, a + b) == advanced(module, m2, w2, b)
        }),
        ({
            let (o, m2, w2) = advanced(module, m, w, a);
            !(o is Running) ==> advanced(module, m, w, a + b) == (o, m2, w2)
        }),
    decreases a,
{
    reveal_with_fuel(advanced, 2);
    if a > 0 && m.frames.len() > 0 {
        let (o, m2) = stepped(module, m, w);
        if o is Running {
            parts_law(module, m2, used(o, w), (a - 1) as nat, b);
            assert((a + b - 1) as nat == (a - 1) as nat + b);
        }
    }
}

} // verus!
