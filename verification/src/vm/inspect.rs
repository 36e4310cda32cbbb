//! Looking at values: classes, equality, hashes and descriptions.

use crate::arith::{float_eq, ordered, rank};
use crate::bytecode::{
    class_entry_found, class_of, parents, type_model, type_models, unvisited, unvisited_pushed,
    ClassDef, ClassId, MethodDef, MethodId, Module, TypeDesc, TypeModel,
};
use crate::text::{cat3, same};
use crate::vm::heap::{heap_ok, object_at, string_at, Heap, HeapModel};
use crate::vm::value::{AuraObject, ObjectModel, Value};
use crate::vm::world::{Fault, VmError};
use vstd::prelude::*;

verus! {

/// How deep values are compared and hashed at most.
pub const VALUE_DEPTH: u32 = 1000000;

// ---------------------------------------------------------------------------
// Classes
// ---------------------------------------------------------------------------

/// `base` is among the classes in `work` or among what these inherit from.
pub open spec fn ancestor(
    module: Module,
    work: Seq<ClassId>,
    visited: Seq<ClassId>,
    base: ClassId,
) -> bool
    decreases unvisited(module.classes@, visited, module.classes@.len() as int), work.len(),
{
    if work.len() == 0 {
        false
    } else {
        let id = work[0];
        let rest = work.subrange(1, work.len() as int);
        if id == base {
            true
        } else if visited.contains(id) {
            ancestor(module, rest, visited, base)
        } else {
            match class_of(module, id) {
                None => ancestor(module, rest, visited, base),
                Some(class) => {
                    proof {
                        class_entry_found(module.classes@, id, 0);
                        unvisited_pushed(
                            module.classes@,
                            visited,
                            id,
                            module.classes@.len() as int,
                        );
                    }
                    ancestor(module, parents(class) + rest, visited.push(id), base)
                },
            }
        }
    }
}

/// `sub` is the same as, a subclass of, or an implementer of `base`.
pub open spec fn instance_of(module: Module, sub: ClassId, base: ClassId) -> bool {
    ancestor(module, seq![sub], seq![], base)
}

/// The position of the first method called `name` from `i` on, as its
/// identifier.
pub open spec fn method_id_from(ms: Seq<(MethodId, MethodDef)>, name: Seq<char>, i: int) -> Option<
    MethodId,
>
    decreases ms.len() - i,
{
    if i < 0 || i >= ms.len() {
        None
    } else if ms[i].1.name@ == name {
        Some(ms[i].0)
    } else {
        method_id_from(ms, name, i + 1)
    }
}

/// The instance method called `name` of the classes in `work` or of what these
/// inherit from, each class before what it inherits from.
pub open spec fn virtual_in(
    module: Module,
    work: Seq<ClassId>,
    visited: Seq<ClassId>,
    name: Seq<char>,
) -> Option<MethodId>
    decreases unvisited(module.classes@, visited, module.classes@.len() as int), work.len(),
{
    if work.len() == 0 {
        None
    } else {
        let id = work[0];
        let rest = work.subrange(1, work.len() as int);
        if visited.contains(id) {
            virtual_in(module, rest, visited, name)
        } else {
            match class_of(module, id) {
                None => virtual_in(module, rest, visited, name),
                Some(class) => match method_id_from(class.methods@, name, 0) {
                    Some(m) => Some(m),
                    None => {
                        proof {
                            class_entry_found(module.classes@, id, 0);
                            unvisited_pushed(
                                module.classes@,
                                visited,
                                id,
                                module.classes@.len() as int,
                            );
                        }
                        virtual_in(module, parents(class) + rest, visited.push(id), name)
                    },
                },
            }
        }
    }
}

/// The method that a call of `name` on an instance of a class runs.
pub open spec fn dispatched(module: Module, class: ClassId, name: Seq<char>) -> Result<
    MethodId,
    Fault,
> {
    match class_of(module, class) {
        None => Err(Fault::UnknownClass(class)),
        Some(_) => match virtual_in(module, seq![class], seq![], name) {
            Some(m) => Ok(m),
            None => Err(Fault::Runtime("method "@ + name + " not found"@)),
        },
    }
}

fn class_visited(visited: &Vec<ClassId>, id: ClassId) -> (r: bool)
    ensures
        r == visited@.contains(id),
{
    let mut i: usize = 0;
    while i < visited.len()
        invariant
            i <= visited@.len(),
            forall|j: int| 0 <= j < i ==> visited@[j] != id,
        decreases visited.len() - i,
    {
        if visited[i] == id {
            return true;
        }
        i = i + 1;
    }
    false
}

fn push_parents(work: &mut Vec<ClassId>, class: &ClassDef)
    ensures
        final(work)@.reverse() == parents(*class) + old(work)@.reverse(),
{
    let ghost rest = work@;
    let n: usize = class.interfaces.len();
    let mut k: usize = n;
    while k > 0
        invariant
            k <= n,
            n == class.interfaces@.len(),
            work@ == rest + class.interfaces@.subrange(k as int, n as int).reverse(),
        decreases k,
    {
        k = k - 1;
        work.push(class.interfaces[k]);
        assert(work@ =~= rest + class.interfaces@.subrange(k as int, n as int).reverse());
    }
    assert(class.interfaces@.subrange(0, n as int) =~= class.interfaces@);
    if let Some(s) = class.super_class {
        work.push(s);
    }
    assert(work@.reverse() =~= parents(*class) + rest.reverse());
}

/// True if `sub` is the same as, a subclass of, or an implementer of `base`.
pub fn is_instance_of(module: &Module, sub: ClassId, base: ClassId) -> (r: bool)
    ensures
        r == instance_of(*module, sub, base),
{
    // The class to try next is the last one of `work`.
    let mut work: Vec<ClassId> = Vec::new();
    work.push(sub);
    let mut visited: Vec<ClassId> = Vec::new();
    assert(work@.reverse() =~= seq![sub]);
    while work.len() > 0
        invariant
            instance_of(*module, sub, base) == ancestor(
                *module,
                work@.reverse(),
                visited@,
                base,
            ),
        decreases
            unvisited(module.classes@, visited@, module.classes@.len() as int),
            work.len(),
    {
        let ghost before = work@.reverse();
        let last: usize = work.len() - 1;
        let next: ClassId = work[last];
        work.truncate(last);
        proof {
            assert(before[0] == next);
            assert(before.subrange(1, before.len() as int) =~= work@.reverse());
        }
        if next == base {
            return true;
        }
        if !class_visited(&visited, next) {
            if let Some(class) = module.class(next) {
                proof {
                    class_entry_found(module.classes@, next, 0);
                    unvisited_pushed(
                        module.classes@,
                        visited@,
                        next,
                        module.classes@.len() as int,
                    );
                }
                push_parents(&mut work, class);
                visited.push(next);
            }
        }
    }
    false
}

fn find_method_id(ms: &Vec<(MethodId, MethodDef)>, name: &str) -> (r: Option<MethodId>)
    ensures
        r == method_id_from(ms@, name@, 0),
{
    let mut i: usize = 0;
    while i < ms.len()
        invariant
            i <= ms@.len(),
            method_id_from(ms@, name@, 0) == method_id_from(ms@, name@, i as int),
        decreases ms.len() - i,
    {
        if same(ms[i].1.name.as_str(), name) {
            return Some(ms[i].0);
        }
        i = i + 1;
    }
    None
}

/// A method or an error, by value.
pub open spec fn method_or_fault(r: Result<MethodId, VmError>) -> Result<MethodId, Fault> {
    match r {
        Ok(m) => Ok(m),
        Err(e) => Err(e@),
    }
}

/// Search a class's own methods, then its super class chain, then its
/// implemented/extended interfaces for a method by name.
pub fn resolve_virtual(module: &Module, class_id: ClassId, name: &str) -> (r: Result<
    MethodId,
    VmError,
>)
    ensures
        method_or_fault(r) == dispatched(*module, class_id, name@),
{
    if module.class(class_id).is_none() {
        return Err(VmError::UnknownClass(class_id));
    }
    let mut work: Vec<ClassId> = Vec::new();
    work.push(class_id);
    let mut visited: Vec<ClassId> = Vec::new();
    assert(work@.reverse() =~= seq![class_id]);
    while work.len() > 0
        invariant
            class_of(*module, class_id) is Some,
            virtual_in(*module, seq![class_id], seq![], name@) == virtual_in(
                *module,
                work@.reverse(),
                visited@,
                name@,
            ),
        decreases
            unvisited(module.classes@, visited@, module.classes@.len() as int),
            work.len(),
    {
        let ghost before = work@.reverse();
        let last: usize = work.len() - 1;
        let next: ClassId = work[last];
        work.truncate(last);
        proof {
            assert(before[0] == next);
            assert(before.subrange(1, before.len() as int) =~= work@.reverse());
        }
        if !class_visited(&visited, next) {
            if let Some(class) = module.class(next) {
                if let Some(m) = find_method_id(&class.methods, name) {
                    return Ok(m);
                }
                proof {
                    class_entry_found(module.classes@, next, 0);
                    unvisited_pushed(
                        module.classes@,
                        visited@,
                        next,
                        module.classes@.len() as int,
                    );
                }
                push_parents(&mut work, class);
                visited.push(next);
            }
        }
    }
    Err(VmError::Runtime(cat3("method ", name, " not found")))
}

/// The instances of a class are compared by their fields.
pub open spec fn is_record(module: Module, class: ClassId) -> bool {
    class_of(module, class) matches Some(c) && c.is_record
}

fn class_is_record(module: &Module, class: ClassId) -> (r: bool)
    ensures
        r == is_record(*module, class),
{
    match module.class(class) {
        Some(c) => c.is_record,
        None => false,
    }
}

/// The value is an instance of the class.
pub open spec fn value_is(module: Module, h: HeapModel, v: Value, class: ClassId) -> bool {
    v matches Value::Object(r) && (object_at(h.objects, r.0) matches Some(
        ObjectModel::Instance(c, _),
    ) && instance_of(module, c, class))
}

/// Whether a value is an instance of a class.
pub fn value_is_instance(module: &Module, heap: &Heap, v: Value, class: ClassId) -> (r: bool)
    requires
        heap_ok(heap@),
    ensures
        r == value_is(*module, heap@, v, class),
{
    if let Value::Object(h) = v {
        if let Ok(o) = heap.get(h) {
            if let AuraObject::Instance { class_id, fields: _ } = o {
                return is_instance_of(module, *class_id, class);
            }
        }
    }
    false
}

// ---------------------------------------------------------------------------
// Types
// ---------------------------------------------------------------------------

/// The value matches a type that is caught.
pub open spec fn matches_type(module: Module, h: HeapModel, ty: TypeDesc, v: Value) -> bool {
    match v {
        Value::String(_) => ty is String || ty is GenericParam,
        Value::Int(_) => ty.int_type() || ty is GenericParam,
        Value::Float(_) => ty.float_type() || ty is GenericParam,
        Value::Bool(_) => ty is Bool || ty is GenericParam,
        Value::Null => ty is Null || ty is GenericParam,
        Value::Tuple(_) => ty is Tuple || ty is GenericParam,
        Value::Enum(r) => ty is GenericParam || (ty matches TypeDesc::Enum(id) && (object_at(
            h.objects,
            r.0,
        ) matches Some(ObjectModel::Enum(e, _, _)) && id.0 == e)),
        Value::Object(_) => ty is GenericParam || (ty matches TypeDesc::Class(c, _) && value_is(
            module,
            h,
            v,
            c,
        )),
        _ => ty is GenericParam,
    }
}

/// True if the runtime type of `v` is assignable to `ty`.
pub fn value_matches(module: &Module, heap: &Heap, ty: &TypeDesc, v: Value) -> (r: bool)
    requires
        heap_ok(heap@),
    ensures
        r == matches_type(*module, heap@, *ty, v),
{
    if matches!(ty, TypeDesc::GenericParam(_)) {
        return true;
    }
    match v {
        Value::String(_) => matches!(ty, TypeDesc::String),
        Value::Int(_) => ty.is_int(),
        Value::Float(_) => ty.is_float(),
        Value::Bool(_) => matches!(ty, TypeDesc::Bool),
        Value::Null => matches!(ty, TypeDesc::Null),
        Value::Tuple(_) => matches!(ty, TypeDesc::Tuple(_)),
        Value::Enum(h) => match ty {
            TypeDesc::Enum(id) => match heap.get_enum(h) {
                Ok(e) => id.0 == e.enum_id,
                Err(_) => false,
            },
            _ => false,
        },
        Value::Object(_) => match ty {
            TypeDesc::Class(c, _) => value_is_instance(module, heap, v, *c),
            _ => false,
        },
        _ => false,
    }
}

/// Default (zero) value for a field of the given type.
pub open spec fn default_of(ty: TypeDesc) -> Value {
    if ty.int_type() {
        Value::Int(0)
    } else if ty.float_type() {
        Value::Float(0)
    } else if ty is Bool {
        Value::Bool(false)
    } else if ty is Char {
        Value::Char('\0')
    } else {
        Value::Null
    }
}

/// Default (zero) value for a field of the given type.
pub fn default_value(ty: &TypeDesc) -> (r: Value)
    ensures
        r == default_of(*ty),
{
    if ty.is_int() {
        Value::Int(0)
    } else if ty.is_float() {
        Value::Float(0)
    } else if matches!(ty, TypeDesc::Bool) {
        Value::Bool(false)
    } else if matches!(ty, TypeDesc::Char) {
        Value::Char('\0')
    } else {
        Value::Null
    }
}

/// The position of the first type parameter called `name` from `i` on, or the
/// length.
pub open spec fn param_place(ps: Seq<String>, name: Seq<char>, i: int) -> int
    decreases ps.len() - i,
{
    if i < 0 || i >= ps.len() {
        ps.len() as int
    } else if ps[i]@ == name {
        i
    } else {
        param_place(ps, name, i + 1)
    }
}

/// What a type parameter stands for: the argument for the first parameter of
/// its name.
pub open spec fn argument_for(ps: Seq<String>, args: Seq<TypeDesc>, i: u16) -> Option<TypeDesc> {
    if i < ps.len() {
        let p = param_place(ps, ps[i as int]@, 0);
        if p < args.len() {
            Some(args[p])
        } else {
            None
        }
    } else {
        None
    }
}

/// A type with its type parameters replaced.
pub open spec fn substituted(ty: TypeDesc, ps: Seq<String>, args: Seq<TypeDesc>) -> TypeModel
    decreases ty,
{
    match ty {
        TypeDesc::GenericParam(i) => match argument_for(ps, args, i) {
            Some(a) => type_model(a),
            None => type_model(ty),
        },
        TypeDesc::Class(id, ts) => TypeModel::Class(id, substituted_all(ts@, ps, args)),
        TypeDesc::Tuple(ts) => TypeModel::Tuple(substituted_all(ts@, ps, args)),
        _ => type_model(ty),
    }
}

/// Types with their type parameters replaced.
pub open spec fn substituted_all(ts: Seq<TypeDesc>, ps: Seq<String>, args: Seq<TypeDesc>) -> Seq<
    TypeModel,
>
    decreases ts,
{
    Seq::new(
        ts.len(),
        |i: int|
            if 0 <= i < ts.len() {
                substituted(ts[i], ps, args)
            } else {
                TypeModel::Plain(0)
            },
    )
}

fn find_param(ps: &Vec<String>, name: &str) -> (r: usize)
    ensures
        r == param_place(ps@, name@, 0),
{
    let mut i: usize = 0;
    while i < ps.len()
        invariant
            i <= ps@.len(),
            param_place(ps@, name@, 0) == param_place(ps@, name@, i as int),
        decreases ps.len() - i,
    {
        if same(ps[i].as_str(), name) {
            return i;
        }
        i = i + 1;
    }
    i
}

fn substitute_list(ts: &Vec<TypeDesc>, ps: &Vec<String>, args: &Vec<TypeDesc>) -> (r: Vec<TypeDesc>)
    ensures
        type_models(r@) == substituted_all(ts@, ps@, args@),
    decreases ts,
{
    let mut out: Vec<TypeDesc> = Vec::new();
    let mut i: usize = 0;
    while i < ts.len()
        invariant
            i <= ts@.len(),
            out@.len() == i,
            forall|j: int|
                0 <= j < i ==> type_model(#[trigger] out@[j]) == substituted(
                    ts@[j],
                    ps@,
                    args@,
                ),
        decreases ts.len() - i,
    {
        proof {
            assert(decreases_to!(ts => ts@[i as int]));
        }
        out.push(substitute_type_desc(&ts[i], ps, args));
        i = i + 1;
    }
    assert(type_models(out@) =~= substituted_all(ts@, ps@, args@));
    out
}

/// Substitute generic parameters in a type with concrete types.
pub fn substitute_type_desc(ty: &TypeDesc, generic_params: &Vec<String>, type_args: &Vec<TypeDesc>) -> (r:
    TypeDesc)
    ensures
        type_model(r) == substituted(*ty, generic_params@, type_args@),
    decreases ty,
{
    match ty {
        TypeDesc::GenericParam(idx) => {
            let i: usize = *idx as usize;
            if i < generic_params.len() {
                // Look up the parameter name by index, then find the
                // corresponding type argument.
                let p: usize = find_param(generic_params, generic_params[i].as_str());
                if p < type_args.len() {
                    return type_args[p].clone();
                }
            }
            ty.clone()
        },
        TypeDesc::Class(id, args) => TypeDesc::Class(
            *id,
            substitute_list(args, generic_params, type_args),
        ),
        TypeDesc::Tuple(types) => TypeDesc::Tuple(
            substitute_list(types, generic_params, type_args),
        ),
        _ => ty.clone(),
    }
}

/// Default value for a type, given by its model.
pub open spec fn default_of_model(t: TypeModel) -> Value {
    match t {
        TypeModel::Plain(n) => if n <= 7 {
            Value::Int(0)
        } else if n <= 9 {
            Value::Float(0)
        } else if n == 10 {
            Value::Bool(false)
        } else if n == 11 {
            Value::Char('\0')
        } else {
            Value::Null
        },
        _ => Value::Null,
    }
}

/// The default value of a type depends on its model alone.
pub proof fn default_by_model(ty: TypeDesc)
    ensures
        default_of(ty) == default_of_model(type_model(ty)),
{
}

// ---------------------------------------------------------------------------
// Equality
// ---------------------------------------------------------------------------

/// Deep structural equality. Record instances compare field-by-field;
/// non-record objects compare by identity; strings compare by content.
pub open spec fn same_value(module: Module, h: HeapModel, a: Value, b: Value, left: nat) -> bool
    decreases left,
{
    match (a, b) {
        (Value::Int(x), Value::Int(y)) => x == y,
        (Value::Float(x), Value::Float(y)) => ordered(x, y) && rank(x) == rank(y),
        (Value::Bool(x), Value::Bool(y)) => x == y,
        (Value::Char(x), Value::Char(y)) => x == y,
        (Value::Null, Value::Null) => true,
        (Value::String(x), Value::String(y)) => string_at(h, x.0) == string_at(h, y.0),
        (Value::Object(x), Value::Object(y)) => x == y || match (
            object_at(h.objects, x.0),
            object_at(h.objects, y.0),
        ) {
            (Some(ObjectModel::String(s)), Some(ObjectModel::String(t))) => s == t,
            (Some(ObjectModel::Instance(c, f)), Some(ObjectModel::Instance(d, g))) => c == d
                && is_record(module, c) && left > 0 && f.len() == g.len() && forall|i: int|
                0 <= i < f.len() ==> same_value(
                    module,
                    h,
                    #[trigger] f[i],
                    g[i],
                    (left - 1) as nat,
                ),
            _ => false,
        },
        (Value::Enum(x), Value::Enum(y)) => x == y || match (
            object_at(h.objects, x.0),
            object_at(h.objects, y.0),
        ) {
            (Some(ObjectModel::Enum(c, v, f)), Some(ObjectModel::Enum(d, w, g))) => c == d && v == w
                && left > 0 && f.len() == g.len() && forall|i: int|
                0 <= i < f.len() ==> same_value(
                    module,
                    h,
                    #[trigger] f[i],
                    g[i],
                    (left - 1) as nat,
                ),
            _ => false,
        },
        (Value::Tuple(x), Value::Tuple(y)) => x == y || match (
            object_at(h.objects, x.0),
            object_at(h.objects, y.0),
        ) {
            (Some(ObjectModel::Tuple(f)), Some(ObjectModel::Tuple(g))) => left > 0 && f.len()
                == g.len() && forall|i: int|
                0 <= i < f.len() ==> same_value(
                    module,
                    h,
                    #[trigger] f[i],
                    g[i],
                    (left - 1) as nat,
                ),
            _ => false,
        },
        _ => false,
    }
}

/// Values are equal as far as they are compared.
pub open spec fn equal_values(module: Module, h: HeapModel, a: Value, b: Value) -> bool {
    same_value(module, h, a, b, VALUE_DEPTH as nat)
}

fn same_lists(module: &Module, heap: &Heap, f: &Vec<Value>, g: &Vec<Value>, left: u32) -> (r: bool)
    requires
        heap_ok(heap@),
    ensures
        r == (left > 0 && f@.len() == g@.len() && forall|i: int|
            0 <= i < f@.len() ==> same_value(
                *module,
                heap@,
                #[trigger] f@[i],
                g@[i],
                (left - 1) as nat,
            )),
    decreases left, 0int,
{
    if left == 0 || f.len() != g.len() {
        return false;
    }
    let mut i: usize = 0;
    while i < f.len()
        invariant
            i <= f@.len(),
            f@.len() == g@.len(),
            left > 0,
            heap_ok(heap@),
            forall|j: int|
                0 <= j < i ==> same_value(
                    *module,
                    heap@,
                    #[trigger] f@[j],
                    g@[j],
                    (left - 1) as nat,
                ),
        decreases f.len() - i,
    {
        if !compare_values(module, heap, f[i], g[i], left - 1) {
            assert(!same_value(*module, heap@, f@[i as int], g@[i as int], (left - 1) as nat));
            return false;
        }
        i = i + 1;
    }
    true
}

fn compare_values(module: &Module, heap: &Heap, a: Value, b: Value, left: u32) -> (r: bool)
    requires
        heap_ok(heap@),
    ensures
        r == same_value(*module, heap@, a, b, left as nat),
    decreases left, 1int,
{
    match (a, b) {
        (Value::Int(x), Value::Int(y)) => x == y,
        (Value::Float(x), Value::Float(y)) => float_eq(x, y),
        (Value::Bool(x), Value::Bool(y)) => x == y,
        (Value::Char(x), Value::Char(y)) => x == y,
        (Value::Null, Value::Null) => true,
        (Value::String(x), Value::String(y)) => match (heap.get_string(x), heap.get_string(y)) {
            (Some(s), Some(t)) => same(s, t),
            (None, None) => true,
            _ => false,
        },
        (Value::Object(x), Value::Object(y)) => {
            if x == y {
                return true;
            }
            match (heap.get(x), heap.get(y)) {
                (Ok(p), Ok(q)) => match (p, q) {
                    (AuraObject::String(s), AuraObject::String(t)) => same(
                        s.as_str(),
                        t.as_str(),
                    ),
                    (
                        AuraObject::Instance { class_id: c, fields: f },
                        AuraObject::Instance { class_id: d, fields: g },
                    ) => *c == *d && class_is_record(module, *c) && same_lists(
                        module,
                        heap,
                        f,
                        g,
                        left,
                    ),
                    _ => false,
                },
                _ => false,
            }
        },
        (Value::Enum(x), Value::Enum(y)) => {
            if x == y {
                return true;
            }
            match (heap.get_enum(x), heap.get_enum(y)) {
                (Ok(e), Ok(f)) => e.enum_id == f.enum_id && e.variant_idx == f.variant_idx
                    && same_lists(module, heap, &e.fields, &f.fields, left),
                _ => false,
            }
        },
        (Value::Tuple(x), Value::Tuple(y)) => {
            if x == y {
                return true;
            }
            match (heap.get_tuple(x), heap.get_tuple(y)) {
                (Ok(t), Ok(u)) => same_lists(module, heap, &t.elements, &u.elements, left),
                _ => false,
            }
        },
        _ => false,
    }
}

/// Deep structural equality.
pub fn value_eq(module: &Module, heap: &Heap, a: Value, b: Value) -> (r: bool)
    requires
        heap_ok(heap@),
    ensures
        r == equal_values(*module, heap@, a, b),
{
    compare_values(module, heap, a, b, VALUE_DEPTH)
}

/// Equality of values is symmetric.
pub proof fn same_value_symmetric(module: Module, h: HeapModel, a: Value, b: Value, left: nat)
    ensures
        same_value(module, h, a, b, left) == same_value(module, h, b, a, left),
    decreases left,
{
    if left > 0 {
        let fields = |o: Option<ObjectModel>|
            match o {
                Some(ObjectModel::Instance(_, f)) => f,
                Some(ObjectModel::Enum(_, _, f)) => f,
                Some(ObjectModel::Tuple(f)) => f,
                _ => seq![],
            };
        let f = match crate::vm::value::handle_in(a) {
            Some(x) => fields(object_at(h.objects, x)),
            None => seq![],
        };
        let g = match crate::vm::value::handle_in(b) {
            Some(x) => fields(object_at(h.objects, x)),
            None => seq![],
        };
        if f.len() == g.len() {
            let k = (left - 1) as nat;
            assert((forall|i: int| 0 <= i < f.len() ==> same_value(module, h, #[trigger] f[i], g[i], k))
                == (forall|i: int|
                0 <= i < g.len() ==> same_value(module, h, #[trigger] g[i], f[i], k))) by {
                if forall|i: int|
                    0 <= i < f.len() ==> same_value(module, h, #[trigger] f[i], g[i], k) {
                    assert forall|i: int| 0 <= i < g.len() implies same_value(
                        module,
                        h,
                        #[trigger] g[i],
                        f[i],
                        k,
                    ) by {
                        assert(same_value(module, h, f[i], g[i], k));
                        same_value_symmetric(module, h, f[i], g[i], k);
                    }
                }
                if forall|i: int|
                    0 <= i < g.len() ==> same_value(module, h, #[trigger] g[i], f[i], k) {
                    assert forall|i: int| 0 <= i < f.len() implies same_value(
                        module,
                        h,
                        #[trigger] f[i],
                        g[i],
                        k,
                    ) by {
                        assert(same_value(module, h, g[i], f[i], k));
                        same_value_symmetric(module, h, g[i], f[i], k);
                    }
                }
            }
        }
    }
}

} // verus!
