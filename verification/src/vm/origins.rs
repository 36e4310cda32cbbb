//! What a program starts from: the values of fields before anything is written, the
//! methods that a name reaches, and the calls that led to a failure.

use crate::bytecode::{
    class_of, own_method, own_method_from, parents, resolve_name, virtual_arity_opt,
    virtual_method, ClassDef, ClassId, MethodDef, MethodId, Module, TypeDesc,
};
use crate::vm::describe::{label_of, stack_trace, trace_lines};
use crate::vm::inspect::{default_by_model, default_of, param_place, substituted};
use crate::vm::machine::{calls_of, fresh};
use crate::vm::ops::field_defaults;
use crate::vm::value::Value;
use vstd::prelude::*;

verus! {

/// Before anything is written a number is zero, a truth value is false, a character
/// is the first one, and anything else is `null`.
pub proof fn default_law(ty: TypeDesc)
    ensures
        ty is Int8 || ty is Int16 || ty is Int32 || ty is Int64 || ty is UInt8 || ty is UInt16
            || ty is UInt32 || ty is UInt64 ==> default_of(ty) == Value::Int(0),
        ty is Float32 || ty is Float64 ==> default_of(ty) == Value::Float(0),
        ty is Bool ==> default_of(ty) == Value::Bool(false),
        ty is Char ==> default_of(ty) == Value::Char('\0'),
        ty is String || ty is Null || ty is Unit || ty is Class || ty is Tuple || ty is Enum
            || ty is GenericParam ==> default_of(ty) is Null,
{
}

proof fn places(ps: Seq<String>, name: Seq<char>, i: int, k: int)
    requires
        0 <= i <= k < ps.len(),
        ps[k]@ == name,
        forall|j: int| i <= j < k ==> (#[trigger] ps[j])@ != name,
    ensures
        param_place(ps, name, i) == k,
    decreases k - i,
{
    if i < k {
        places(ps, name, i + 1, k);
    }
}

/// A field whose type is a type parameter starts with the value for the argument
/// that the class was given.
pub proof fn argument_law(
    fs: Seq<crate::bytecode::FieldDef>,
    ps: Seq<String>,
    args: Seq<TypeDesc>,
    i: int,
    k: u16,
)
    requires
        0 <= i < fs.len(),
        fs[i].ty == TypeDesc::GenericParam(k),
        k < ps.len(),
        k < args.len(),
        forall|j: int| 0 <= j < k ==> (#[trigger] ps[j])@ != ps[k as int]@,
    ensures
        field_defaults(fs, ps, args).len() == fs.len(),
        field_defaults(fs, ps, args)[i] == default_of(args[k as int]),
{
    places(ps, ps[k as int]@, 0, k as int);
    default_by_model(args[k as int]);
    assert(substituted(fs[i].ty, ps, args) == crate::bytecode::type_model(args[k as int]));
}

/// A program starts with an empty heap and no calls, and each class with its static
/// fields at their first values.
pub proof fn start_law(module: Module, i: int, j: int)
    requires
        0 <= i < module.classes@.len(),
        0 <= j < module.classes@[i].1.static_fields@.len(),
    ensures
        fresh(module).frames.len() == 0,
        fresh(module).store.heap.objects.len() == 0,
        fresh(module).store.statics.len() == module.classes@.len(),
        fresh(module).store.statics[i].0 == module.classes@[i].0,
        fresh(module).store.statics[i].1.len() == module.classes@[i].1.static_fields@.len(),
        fresh(module).store.statics[i].1[j] == default_of(
            module.classes@[i].1.static_fields@[j].ty,
        ),
{
}

proof fn own_found(ms: Seq<(MethodId, MethodDef)>, name: Seq<char>, i: int)
    requires
        0 <= i,
    ensures
        own_method_from(ms, name, i) matches Some(m) ==> m.name@ == name && exists|k: int|
            i <= k < ms.len() && (#[trigger] ms[k]).1 == m,
        own_method_from(ms, name, i) is None ==> forall|k: int|
            i <= k < ms.len() ==> (#[trigger] ms[k]).1.name@ != name,
    decreases ms.len() - i,
{
    if i < ms.len() {
        if ms[i].1.name@ == name {
            assert(ms[i].1 == own_method_from(ms, name, i)->0);
        } else {
            own_found(ms, name, i + 1);
        }
    }
}

/// A method that a class declares itself has the name, and is one of its own; where
/// none is found, none has the name.
pub proof fn own_law(class: ClassDef, name: Seq<char>)
    ensures
        own_method(class, name) matches Some(m) ==> m.name@ == name && ((exists|k: int|
            0 <= k < class.methods@.len() && (#[trigger] class.methods@[k]).1 == m) || (exists|k: int|

            0 <= k < class.static_methods@.len() && (#[trigger] class.static_methods@[k]).1 == m)),
        own_method(class, name) is None <==> (forall|k: int|
            0 <= k < class.methods@.len() ==> (#[trigger] class.methods@[k]).1.name@ != name) && (
        forall|k: int|
            0 <= k < class.static_methods@.len() ==> (#[trigger] class.static_methods@[k]).1.name@
                != name),
{
    own_found(class.methods@, name, 0);
    own_found(class.static_methods@, name, 0);
}

/// A name reaches the method of the class before any that it inherits, and then
/// that of the first it inherits from that has one.
pub proof fn name_law(
    module: Module,
    id: ClassId,
    class: ClassDef,
    up: ClassId,
    parent: ClassDef,
    name: Seq<char>,
)
    requires
        class_of(module, id) == Some(class),
        class_of(module, up) == Some(parent),
        up != id,
    ensures
        own_method(class, name) matches Some(m) ==> resolve_name(module, seq![id], seq![], name)
            == Some(m),
        own_method(class, name) is None && parents(class).len() > 0 && parents(class)[0] == up ==> (
        own_method(parent, name) matches Some(m) ==> resolve_name(module, seq![id], seq![], name)
            == Some(m)),
        own_method(class, name) is None && parents(class).len() == 0 ==> resolve_name(
            module,
            seq![id],
            seq![],
            name,
        ) is None,
        class.super_class == Some(up) ==> parents(class).len() > 0 && parents(class)[0] == up,
{
    let rest = seq![id].subrange(1, 1);
    let work = parents(class) + rest;
    reveal_with_fuel(resolve_name, 2);
    assert(seq![id][0] == id);
    if own_method(class, name) is None {
        assert(resolve_name(module, seq![id], seq![], name) == resolve_name(
            module,
            work,
            Seq::<ClassId>::empty().push(id),
            name,
        ));
        if parents(class).len() > 0 && parents(class)[0] == up {
            assert(work[0] == up);
            assert(!Seq::<ClassId>::empty().push(id).contains(up));
        } else if parents(class).len() == 0 {
            assert(work.len() == 0);
        }
    }
}

/// The number of parameters of a virtual call is known where some class answers the
/// name, and all that do agree on it; then it is theirs.
pub proof fn arity_law(module: Module, name: Seq<char>, i: int, j: int)
    requires
        0 <= i < module.classes@.len(),
        0 <= j < module.classes@.len(),
        virtual_method(module, name, i) is Some,
        virtual_method(module, name, j) is Some,
    ensures
        ({
            let (a, b) = (virtual_method(module, name, i)->0, virtual_method(module, name, j)->0);
            &&& virtual_arity_opt(module, name) matches Some(n) ==> a.params@.len() == n
                && b.params@.len() == n
            &&& a.params@.len() != b.params@.len() ==> virtual_arity_opt(module, name) is None
        }),
        (forall|k: int|
            0 <= k < module.classes@.len() ==> ((#[trigger] virtual_method(module, name, k))
                matches Some(m) ==> m.params@.len() == (virtual_method(
                module,
                name,
                i,
            )->0).params@.len())) ==> virtual_arity_opt(module, name) is Some,
{
    let n = (virtual_method(module, name, i)->0).params@.len();
    if forall|k: int|
        0 <= k < module.classes@.len() ==> ((#[trigger] virtual_method(module, name, k))
            matches Some(m) ==> m.params@.len() == n) {
        assert(crate::bytecode::virtual_arity(module, name, n));
    }
}

/// The trace of calls has a line for each, the innermost last.
pub proof fn trace_law(module: Module, calls: Seq<MethodId>, last: MethodId, n: int)
    requires
        0 <= n <= calls.len(),
    ensures
        trace_lines(module, calls.push(last), n) == trace_lines(module, calls, n),
        n == calls.len() && n > 0 ==> stack_trace(module, calls.push(last)) == stack_trace(
            module,
            calls,
        ) + "\n"@ + "  at "@ + label_of(module, last),
        n == calls.len() && n == 0 ==> stack_trace(module, calls.push(last)) == "  at "@ + label_of(
            module,
            last,
        ),
    decreases n,
{
    if n > 0 {
        trace_law(module, calls, last, n - 1);
        let all = calls.push(last);
        assert(trace_lines(module, all, n) == trace_lines(module, calls, n));
        if n == calls.len() {
            assert(all[n] == last);
            assert(trace_lines(module, all, n + 1) == trace_lines(module, all, n) + "\n"@ + "  at "@
                + label_of(module, last));
        }
    }
}

/// The calls of a machine are those of its frames, from the outermost on.
pub proof fn calls_law(frames: Seq<crate::vm::frames::FrameModel>, i: int)
    requires
        0 <= i < frames.len(),
    ensures
        calls_of(frames).len() == frames.len(),
        calls_of(frames)[i] == frames[i].method,
{
}

} // verus!
