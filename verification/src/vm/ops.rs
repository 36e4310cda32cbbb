//! What the operations do that work on the heap. The interpreter and compiled
//! code hand their operands to the same function, so that the two tiers agree.

use crate::arith::{float_eq, ordered, rank};
use crate::bytecode::{class_of, method_of, ClassDef, ClassId, FieldDef, MethodId, Module, TypeDesc};
use crate::text::{cat3, cat5, dec, dec_u64, own};
use crate::vm::describe::{
    as_text, capture_stack_trace, exception_parts, field_place, find_exception, find_field, shown,
    show_value, stack_trace, value_as_string,
};
use crate::vm::heap::{heap_ok, object_at, with_change, with_object, Heap, HeapError, HeapModel};
use crate::vm::inspect::{
    default_by_model, default_of_model, default_value, dispatched, equal_values, resolve_virtual,
    substitute_type_desc, substituted, value_eq,
};
use crate::vm::value::{type_text, AuraObject, GcRef, ObjectModel, Value};
use crate::vm::world::{
    text_or_ask, Answers, Applied, Ask, Effect, Fault, Question, VmError, World,
};
use vstd::prelude::*;

verus! {

/// The heap and the static fields.
pub struct Store {
    /// The heap.
    pub heap: Heap,
    /// Static fields by class.
    pub statics: Vec<(ClassId, Vec<Value>)>,
}

/// The heap and the static fields, by value.
#[verifier::ext_equal]
pub ghost struct StoreModel {
    /// The heap.
    pub heap: HeapModel,
    /// Static fields by class.
    pub statics: Seq<(ClassId, Seq<Value>)>,
}

/// Static fields by value.
pub open spec fn static_models(s: Seq<(ClassId, Vec<Value>)>) -> Seq<(ClassId, Seq<Value>)> {
    Seq::new(s.len(), |i: int| (s[i].0, s[i].1@))
}

impl View for Store {
    type V = StoreModel;

    open spec fn view(&self) -> StoreModel {
        StoreModel { heap: self.heap@, statics: static_models(self.statics@) }
    }
}

/// A store whose heap is in order.
pub open spec fn store_ok(s: StoreModel) -> bool {
    heap_ok(s.heap)
}

/// A store with another heap.
pub open spec fn with_heap(s: StoreModel, h: HeapModel) -> StoreModel {
    StoreModel { heap: h, statics: s.statics }
}

// ---------------------------------------------------------------------------
// Allocation
// ---------------------------------------------------------------------------

/// A handle, if any is left.
pub open spec fn next_handle(s: StoreModel) -> Result<GcRef, Fault> {
    if s.heap.next < usize::MAX {
        Ok(GcRef(s.heap.next))
    } else {
        Err(Fault::Runtime("out of heap handles"@))
    }
}

/// The store with one more object, if a handle is left for it.
pub open spec fn stored(s: StoreModel, o: ObjectModel) -> StoreModel {
    if s.heap.next < usize::MAX {
        with_heap(s, with_object(s.heap, o))
    } else {
        s
    }
}

/// What a value on the heap is called.
#[derive(Debug, Clone, Copy, PartialEq, Eq, Structural)]
pub enum Boxed {
    /// String.
    Text,
    /// Object.
    Thing,
    /// Enum value.
    Choice,
    /// Tuple.
    Group,
}

/// The value with a handle.
pub open spec fn boxed(b: Boxed, r: GcRef) -> Value {
    match b {
        Boxed::Text => Value::String(r),
        Boxed::Thing => Value::Object(r),
        Boxed::Choice => Value::Enum(r),
        Boxed::Group => Value::Tuple(r),
    }
}

/// A new object on the heap.
pub open spec fn made(s: StoreModel, b: Boxed, o: ObjectModel) -> (Effect, StoreModel) {
    match next_handle(s) {
        Ok(r) => (Effect::Value(boxed(b, r)), stored(s, o)),
        Err(e) => (Effect::Failed(e), s),
    }
}

/// A handle or an error, by value.
pub open spec fn handle_or_fault(r: Result<GcRef, VmError>) -> Result<GcRef, Fault> {
    match r {
        Ok(h) => Ok(h),
        Err(e) => Err(e@),
    }
}

impl Store {
    /// A new object on the heap, if a handle is left for it.
    pub fn store(&mut self, o: AuraObject) -> (r: Result<GcRef, VmError>)
        requires
            store_ok(old(self)@),
        ensures
            store_ok(final(self)@),
            handle_or_fault(r) == next_handle(old(self)@),
            final(self)@ == stored(old(self)@, o@),
    {
        if !self.heap.has_room() {
            return Err(VmError::Runtime(own("out of heap handles")));
        }
        Ok(self.heap.allocate(o))
    }

    /// A new object on the heap, as a value.
    pub fn make(&mut self, b: Boxed, o: AuraObject) -> (r: Applied)
        requires
            store_ok(old(self)@),
        ensures
            store_ok(final(self)@),
            (r@, final(self)@) == made(old(self)@, b, o@),
    {
        match self.store(o) {
            Ok(h) => Applied::Value(
                match b {
                    Boxed::Text => Value::String(h),
                    Boxed::Thing => Value::Object(h),
                    Boxed::Choice => Value::Enum(h),
                    Boxed::Group => Value::Tuple(h),
                },
            ),
            Err(e) => Applied::Failed(e),
        }
    }
}

/// A copy of values.
pub fn copy_values(vs: &Vec<Value>) -> (r: Vec<Value>)
    ensures
        r@ == vs@,
{
    let mut out: Vec<Value> = Vec::new();
    let mut i: usize = 0;
    while i < vs.len()
        invariant
            i <= vs@.len(),
            out@ == vs@.subrange(0, i as int),
        decreases vs.len() - i,
    {
        out.push(vs[i]);
        assert(out@ =~= vs@.subrange(0, i + 1));
        i = i + 1;
    }
    assert(vs@.subrange(0, i as int) =~= vs@);
    out
}

fn copy_first(vs: &Vec<Value>, n: usize) -> (r: Vec<Value>)
    requires
        n <= vs@.len(),
    ensures
        r@ == vs@.subrange(0, n as int),
{
    let mut out: Vec<Value> = Vec::new();
    let mut i: usize = 0;
    while i < n
        invariant
            i <= n <= vs@.len(),
            out@ == vs@.subrange(0, i as int),
        decreases n - i,
    {
        out.push(vs[i]);
        assert(out@ =~= vs@.subrange(0, i + 1));
        i = i + 1;
    }
    out
}

// ---------------------------------------------------------------------------
// Calls and objects
// ---------------------------------------------------------------------------

/// Something else was expected.
pub open spec fn wrong_kind(expected: Seq<char>, v: Value) -> Effect {
    Effect::Failed(Fault::TypeMismatch(expected, type_text(v)))
}

fn fail_kind(expected: &'static str, v: Value) -> (r: Applied)
    ensures
        r@ == wrong_kind(expected@, v),
{
    Applied::Failed(VmError::TypeMismatch { expected, got: own(v.kind_name()) })
}

/// A call of a method with as many arguments as it takes.
pub open spec fn call_effect(module: Module, id: MethodId, args: Seq<Value>) -> Effect {
    match method_of(module, id) {
        None => Effect::Failed(Fault::UnknownMethod(id)),
        Some(m) => if m.params@.len() < args.len() {
            Effect::Invoke(id, args.subrange(0, m.params@.len() as int))
        } else {
            Effect::Invoke(id, args)
        },
    }
}

/// The class of the instance in a value.
pub open spec fn class_in(h: HeapModel, v: Value) -> Result<(usize, ClassId, Seq<Value>), Fault> {
    match v {
        Value::Object(r) => match object_at(h.objects, r.0) {
            None => Err(Fault::Heap(HeapError::InvalidRef(r))),
            Some(ObjectModel::Instance(c, f)) => Ok((r.0, c, f)),
            Some(_) => Err(Fault::TypeMismatch("instance"@, "non-instance object"@)),
        },
        _ => Err(Fault::TypeMismatch("object"@, type_text(v))),
    }
}

/// A call of an instance method by name; the receiver comes first.
pub open spec fn virtual_effect(
    module: Module,
    h: HeapModel,
    name: Seq<char>,
    args: Seq<Value>,
) -> Effect {
    if args.len() == 0 {
        Effect::Failed(Fault::StackUnderflow)
    } else {
        match class_in(h, args[0]) {
            Err(e) => Effect::Failed(e),
            Ok((_, c, _)) => match dispatched(module, c, name) {
                Err(e) => Effect::Failed(e),
                Ok(m) => Effect::Invoke(m, args),
            },
        }
    }
}

/// A call of an instance method without dispatch; the receiver comes first.
pub open spec fn super_effect(id: MethodId, args: Seq<Value>) -> Effect {
    if args.len() == 0 {
        Effect::Failed(Fault::StackUnderflow)
    } else if !(args[0] is Object) {
        wrong_kind("object"@, args[0])
    } else {
        Effect::Invoke(id, args)
    }
}

/// The default values of the fields of a class, before `n`.
pub open spec fn field_defaults(
    fs: Seq<FieldDef>,
    ps: Seq<String>,
    args: Seq<TypeDesc>,
) -> Seq<Value> {
    Seq::new(
        fs.len(),
        |i: int| default_of_model(substituted(fs[i].ty, ps, args)),
    )
}

/// A new instance of a class.
pub open spec fn new_effect(
    module: Module,
    s: StoreModel,
    id: ClassId,
    type_args: Seq<TypeDesc>,
) -> (Effect, StoreModel) {
    match class_of(module, id) {
        None => (Effect::Failed(Fault::UnknownClass(id)), s),
        Some(c) => if c.is_abstract || c.is_interface {
            (
                Effect::Failed(
                    Fault::Runtime(
                        "cannot instantiate "@ + (if c.is_interface {
                            "interface"@
                        } else {
                            "abstract class"@
                        }) + " `"@ + c.name@ + "`"@,
                    ),
                ),
                s,
            )
        } else {
            made(
                s,
                Boxed::Thing,
                ObjectModel::Instance(
                    id,
                    field_defaults(c.fields@, c.generic_params@, type_args),
                ),
            )
        },
    }
}

/// A field of an instance.
pub open spec fn load_field(h: HeapModel, idx: u16, args: Seq<Value>) -> Effect {
    if args.len() == 0 {
        Effect::Failed(Fault::StackUnderflow)
    } else {
        match class_in(h, args[0]) {
            Err(e) => Effect::Failed(e),
            Ok((_, _, f)) => if idx < f.len() {
                Effect::Value(f[idx as int])
            } else {
                Effect::Failed(Fault::Runtime("field index out of range"@))
            },
        }
    }
}

/// Another value for a field of an instance.
pub open spec fn store_field(s: StoreModel, idx: u16, args: Seq<Value>) -> (Effect, StoreModel) {
    if args.len() < 2 {
        (Effect::Failed(Fault::StackUnderflow), s)
    } else {
        match class_in(s.heap, args[0]) {
            Err(e) => (Effect::Failed(e), s),
            Ok((r, c, f)) => if idx < f.len() {
                (
                    Effect::Nothing,
                    with_heap(
                        s,
                        with_change(
                            s.heap,
                            r,
                            ObjectModel::Instance(c, f.update(idx as int, args[1])),
                        ),
                    ),
                )
            } else {
                (Effect::Failed(Fault::Runtime("field index out of range"@)), s)
            },
        }
    }
}

/// The position of the static fields of a class from `i` on, or the length.
pub open spec fn statics_place(ss: Seq<(ClassId, Seq<Value>)>, id: ClassId, i: int) -> int
    decreases ss.len() - i,
{
    if i < 0 || i >= ss.len() {
        ss.len() as int
    } else if ss[i].0 == id {
        i
    } else {
        statics_place(ss, id, i + 1)
    }
}

/// A static field.
pub open spec fn load_static(s: StoreModel, id: ClassId, idx: u16) -> Effect {
    let p = statics_place(s.statics, id, 0);
    if p >= s.statics.len() {
        Effect::Failed(Fault::UnknownClass(id))
    } else if idx >= s.statics[p].1.len() {
        Effect::Failed(Fault::Runtime("static field index out of range"@))
    } else {
        Effect::Value(s.statics[p].1[idx as int])
    }
}

/// Another value for a static field.
pub open spec fn store_static(s: StoreModel, id: ClassId, idx: u16, args: Seq<Value>) -> (
    Effect,
    StoreModel,
) {
    let p = statics_place(s.statics, id, 0);
    if args.len() == 0 {
        (Effect::Failed(Fault::StackUnderflow), s)
    } else if p >= s.statics.len() {
        (Effect::Failed(Fault::UnknownClass(id)), s)
    } else if idx >= s.statics[p].1.len() {
        (Effect::Failed(Fault::Runtime("static field index out of range"@)), s)
    } else {
        (
            Effect::Nothing,
            StoreModel {
                heap: s.heap,
                statics: s.statics.update(
                    p,
                    (s.statics[p].0, s.statics[p].1.update(idx as int, args[0])),
                ),
            },
        )
    }
}

pub(crate) fn call_method(module: &Module, id: MethodId, args: &Vec<Value>) -> (r: Applied)
    ensures
        r@ == call_effect(*module, id, args@),
{
    match module.method(id) {
        None => Applied::Failed(VmError::UnknownMethod(id)),
        Some(m) => {
            let n: usize = m.params.len();
            if n < args.len() {
                Applied::Invoke(id, copy_first(args, n))
            } else {
                Applied::Invoke(id, copy_values(args))
            }
        },
    }
}

/// The instance in a value or an error, by value.
pub open spec fn class_or_fault(r: Result<(usize, ClassId, &Vec<Value>), VmError>) -> Result<
    (usize, ClassId, Seq<Value>),
    Fault,
> {
    match r {
        Ok((h, c, f)) => Ok((h, c, f@)),
        Err(e) => Err(e@),
    }
}

fn find_class_in<'a>(heap: &'a Heap, v: Value) -> (r: Result<
    (usize, ClassId, &'a Vec<Value>),
    VmError,
>)
    requires
        heap_ok(heap@),
    ensures
        class_or_fault(r) == class_in(heap@, v),
{
    match v {
        Value::Object(h) => match heap.get(h) {
            Err(e) => Err(VmError::Heap(e)),
            Ok(o) => match o {
                AuraObject::Instance { class_id, fields } => Ok((h.0, *class_id, fields)),
                _ => Err(
                    VmError::TypeMismatch {
                        expected: "instance",
                        got: own("non-instance object"),
                    },
                ),
            },
        },
        _ => Err(VmError::TypeMismatch { expected: "object", got: own(v.kind_name()) }),
    }
}

pub(crate) fn call_virtual(module: &Module, heap: &Heap, name: &str, args: &Vec<Value>) -> (r: Applied)
    requires
        heap_ok(heap@),
    ensures
        r@ == virtual_effect(*module, heap@, name@, args@),
{
    if args.len() == 0 {
        return Applied::Failed(VmError::StackUnderflow);
    }
    let class: ClassId = match find_class_in(heap, args[0]) {
        Ok((_, c, _)) => c,
        Err(e) => return Applied::Failed(e),
    };
    match resolve_virtual(module, class, name) {
        Ok(m) => Applied::Invoke(m, copy_values(args)),
        Err(e) => Applied::Failed(e),
    }
}

pub(crate) fn call_super(id: MethodId, args: &Vec<Value>) -> (r: Applied)
    ensures
        r@ == super_effect(id, args@),
{
    if args.len() == 0 {
        return Applied::Failed(VmError::StackUnderflow);
    }
    if !matches!(args[0], Value::Object(_)) {
        return fail_kind("object", args[0]);
    }
    Applied::Invoke(id, copy_values(args))
}

fn default_fields(c: &ClassDef, type_args: &Vec<TypeDesc>) -> (r: Vec<Value>)
    ensures
        r@ == field_defaults(c.fields@, c.generic_params@, type_args@),
{
    let mut out: Vec<Value> = Vec::new();
    let mut i: usize = 0;
    while i < c.fields.len()
        invariant
            i <= c.fields@.len(),
            out@.len() == i,
            forall|j: int|
                0 <= j < i ==> #[trigger] out@[j] == default_of_model(
                    substituted(c.fields@[j].ty, c.generic_params@, type_args@),
                ),
        decreases c.fields.len() - i,
    {
        // Substitute generic parameters in field types.
        let ty: TypeDesc = substitute_type_desc(
            &c.fields[i].ty,
            &c.generic_params,
            type_args,
        );
        proof {
            default_by_model(ty);
        }
        out.push(default_value(&ty));
        i = i + 1;
    }
    assert(out@ =~= field_defaults(c.fields@, c.generic_params@, type_args@));
    out
}

impl Store {
    pub(crate) fn new_object(&mut self, module: &Module, id: ClassId, type_args: &Vec<TypeDesc>) -> (r:
        Applied)
        requires
            store_ok(old(self)@),
        ensures
            store_ok(final(self)@),
            (r@, final(self)@) == new_effect(*module, old(self)@, id, type_args@),
    {
        let c: &ClassDef = match module.class(id) {
            Some(c) => c,
            None => return Applied::Failed(VmError::UnknownClass(id)),
        };
        if c.is_abstract || c.is_interface {
            let what: &str = if c.is_interface {
                "interface"
            } else {
                "abstract class"
            };
            return Applied::Failed(
                VmError::Runtime(
                    cat5("cannot instantiate ", what, " `", c.name.as_str(), "`"),
                ),
            );
        }
        let fields: Vec<Value> = default_fields(c, type_args);
        self.make(Boxed::Thing, AuraObject::Instance { class_id: id, fields })
    }

    pub(crate) fn get_field(&self, idx: u16, args: &Vec<Value>) -> (r: Applied)
        requires
            store_ok(self@),
        ensures
            r@ == load_field(self@.heap, idx, args@),
    {
        if args.len() == 0 {
            return Applied::Failed(VmError::StackUnderflow);
        }
        match find_class_in(&self.heap, args[0]) {
            Ok((_, _, f)) => {
                let i: usize = idx as usize;
                if i < f.len() {
                    Applied::Value(f[i])
                } else {
                    Applied::Failed(VmError::Runtime(own("field index out of range")))
                }
            },
            Err(e) => Applied::Failed(e),
        }
    }

    pub(crate) fn set_field(&mut self, idx: u16, args: &Vec<Value>) -> (r: Applied)
        requires
            store_ok(old(self)@),
        ensures
            store_ok(final(self)@),
            (r@, final(self)@) == store_field(old(self)@, idx, args@),
    {
        if args.len() < 2 {
            return Applied::Failed(VmError::StackUnderflow);
        }
        let i: usize = idx as usize;
        let (h, n) = match find_class_in(&self.heap, args[0]) {
            Ok((h, _, f)) => (h, f.len()),
            Err(e) => return Applied::Failed(e),
        };
        if i >= n {
            return Applied::Failed(VmError::Runtime(own("field index out of range")));
        }
        match self.heap.get_mut(GcRef(h)) {
            Ok(o) => {
                if let AuraObject::Instance { class_id: _, fields } = o {
                    fields.set(i, args[1]);
                }
            },
            Err(e) => return Applied::Failed(VmError::Heap(e)),
        }
        Applied::Nothing
    }

    fn find_statics(&self, id: ClassId) -> (r: usize)
        ensures
            r == statics_place(self@.statics, id, 0),
            r <= self.statics@.len(),
    {
        let ghost ss = self@.statics;
        let mut i: usize = 0;
        while i < self.statics.len()
            invariant
                i <= self.statics@.len(),
                ss == self@.statics,
                statics_place(ss, id, 0) == statics_place(ss, id, i as int),
            decreases self.statics.len() - i,
        {
            assert(ss[i as int].0 == self.statics@[i as int].0);
            if self.statics[i].0 == id {
                return i;
            }
            i = i + 1;
        }
        i
    }

    pub(crate) fn get_static(&self, id: ClassId, idx: u16) -> (r: Applied)
        ensures
            r@ == load_static(self@, id, idx),
    {
        let p: usize = self.find_statics(id);
        if p >= self.statics.len() {
            return Applied::Failed(VmError::UnknownClass(id));
        }
        assert(self@.statics[p as int].1 == self.statics@[p as int].1@);
        let i: usize = idx as usize;
        if i >= self.statics[p].1.len() {
            return Applied::Failed(VmError::Runtime(own("static field index out of range")));
        }
        Applied::Value(self.statics[p].1[i])
    }

    pub(crate) fn set_static(&mut self, id: ClassId, idx: u16, args: &Vec<Value>) -> (r: Applied)
        requires
            store_ok(old(self)@),
        ensures
            store_ok(final(self)@),
            (r@, final(self)@) == store_static(old(self)@, id, idx, args@),
    {
        if args.len() == 0 {
            return Applied::Failed(VmError::StackUnderflow);
        }
        let p: usize = self.find_statics(id);
        if p >= self.statics.len() {
            return Applied::Failed(VmError::UnknownClass(id));
        }
        let ghost before = self@;
        assert(before.statics[p as int].1 == self.statics@[p as int].1@);
        let i: usize = idx as usize;
        if i >= self.statics[p].1.len() {
            return Applied::Failed(VmError::Runtime(own("static field index out of range")));
        }
        self.statics[p].1.set(i, args[0]);
        assert(self@.statics =~= store_static(before, id, idx, args@).1.statics);
        Applied::Nothing
    }
}

// ---------------------------------------------------------------------------
// Enums and tuples
// ---------------------------------------------------------------------------

/// The number of the variant of an enum value.
pub open spec fn tag_effect(h: HeapModel, args: Seq<Value>) -> Effect {
    if args.len() == 0 {
        Effect::Failed(Fault::StackUnderflow)
    } else {
        match args[0] {
            Value::Enum(r) => match object_at(h.objects, r.0) {
                Some(ObjectModel::Enum(_, k, _)) => Effect::Value(Value::Int(k as i64)),
                _ => Effect::Failed(Fault::Heap(HeapError::InvalidRef(r))),
            },
            v => wrong_kind("enum"@, v),
        }
    }
}

/// A field of an enum value.
pub open spec fn enum_field_effect(h: HeapModel, idx: u16, args: Seq<Value>) -> Effect {
    if args.len() == 0 {
        Effect::Failed(Fault::StackUnderflow)
    } else {
        match args[0] {
            Value::Enum(r) => match object_at(h.objects, r.0) {
                Some(ObjectModel::Enum(_, _, f)) => if idx < f.len() {
                    Effect::Value(f[idx as int])
                } else {
                    Effect::Failed(
                        Fault::Runtime(
                            "enum field index "@ + dec(idx as nat) + " out of range"@,
                        ),
                    )
                },
                _ => Effect::Failed(Fault::Heap(HeapError::InvalidRef(r))),
            },
            v => wrong_kind("enum"@, v),
        }
    }
}

/// An element of a tuple.
pub open spec fn tuple_field_effect(h: HeapModel, idx: u16, args: Seq<Value>) -> Effect {
    if args.len() == 0 {
        Effect::Failed(Fault::StackUnderflow)
    } else {
        match args[0] {
            Value::Tuple(r) => match object_at(h.objects, r.0) {
                Some(ObjectModel::Tuple(f)) => if idx < f.len() {
                    Effect::Value(f[idx as int])
                } else {
                    Effect::Failed(
                        Fault::Runtime("tuple index "@ + dec(idx as nat) + " out of range"@),
                    )
                },
                _ => Effect::Failed(Fault::Heap(HeapError::InvalidRef(r))),
            },
            v => wrong_kind("tuple"@, v),
        }
    }
}

pub(crate) fn get_tag(heap: &Heap, args: &Vec<Value>) -> (r: Applied)
    requires
        heap_ok(heap@),
    ensures
        r@ == tag_effect(heap@, args@),
{
    if args.len() == 0 {
        return Applied::Failed(VmError::StackUnderflow);
    }
    match args[0] {
        Value::Enum(h) => match heap.get_enum(h) {
            Ok(e) => Applied::Value(Value::Int(e.variant_idx as i64)),
            Err(e) => Applied::Failed(VmError::Heap(e)),
        },
        v => fail_kind("enum", v),
    }
}

pub(crate) fn get_enum_field(heap: &Heap, idx: u16, args: &Vec<Value>) -> (r: Applied)
    requires
        heap_ok(heap@),
    ensures
        r@ == enum_field_effect(heap@, idx, args@),
{
    if args.len() == 0 {
        return Applied::Failed(VmError::StackUnderflow);
    }
    match args[0] {
        Value::Enum(h) => match heap.get_enum(h) {
            Ok(e) => {
                let i: usize = idx as usize;
                if i < e.fields.len() {
                    Applied::Value(e.fields[i])
                } else {
                    let n: String = dec_u64(idx as u64);
                    Applied::Failed(
                        VmError::Runtime(
                            cat3("enum field index ", n.as_str(), " out of range"),
                        ),
                    )
                }
            },
            Err(e) => Applied::Failed(VmError::Heap(e)),
        },
        v => fail_kind("enum", v),
    }
}

pub(crate) fn get_tuple_field(heap: &Heap, idx: u16, args: &Vec<Value>) -> (r: Applied)
    requires
        heap_ok(heap@),
    ensures
        r@ == tuple_field_effect(heap@, idx, args@),
{
    if args.len() == 0 {
        return Applied::Failed(VmError::StackUnderflow);
    }
    match args[0] {
        Value::Tuple(h) => match heap.get_tuple(h) {
            Ok(t) => {
                let i: usize = idx as usize;
                if i < t.elements.len() {
                    Applied::Value(t.elements[i])
                } else {
                    let n: String = dec_u64(idx as u64);
                    Applied::Failed(
                        VmError::Runtime(cat3("tuple index ", n.as_str(), " out of range")),
                    )
                }
            },
            Err(e) => Applied::Failed(VmError::Heap(e)),
        },
        v => fail_kind("tuple", v),
    }
}

// ---------------------------------------------------------------------------
// Text
// ---------------------------------------------------------------------------

/// The values from `i` on as one text, after `acc`.
pub open spec fn concat_from(
    module: Module,
    h: HeapModel,
    w: Answers,
    vs: Seq<Value>,
    i: int,
    acc: Seq<char>,
) -> Result<Seq<char>, Question>
    decreases vs.len() - i,
{
    if i < 0 || i >= vs.len() {
        Ok(acc)
    } else {
        match shown(module, h, w, vs[i]) {
            Err(q) => Err(q),
            Ok(s) => concat_from(module, h, w, vs, i + 1, acc + s),
        }
    }
}

/// Values concatenated as text.
pub open spec fn concat_effect(
    module: Module,
    s: StoreModel,
    w: Answers,
    count: u16,
    args: Seq<Value>,
) -> (Effect, StoreModel) {
    if args.len() < count {
        (Effect::Failed(Fault::StackUnderflow), s)
    } else {
        match concat_from(module, s.heap, w, args.subrange(0, count as int), 0, seq![]) {
            Err(q) => (Effect::Ask(q), s),
            Ok(text) => made(s, Boxed::Text, ObjectModel::String(text)),
        }
    }
}

/// A value is printed.
pub open spec fn print_effect(module: Module, h: HeapModel, w: Answers, args: Seq<Value>) -> Effect {
    if args.len() == 0 {
        Effect::Failed(Fault::StackUnderflow)
    } else {
        match as_text(module, h, w, args[0]) {
            Ok(s) => Effect::Show(s),
            Err(q) => Effect::Ask(q),
        }
    }
}

/// A string constant.
pub open spec fn string_effect(module: Module, s: StoreModel, idx: u32) -> (Effect, StoreModel) {
    if idx < module.constant_pool@.len() {
        made(s, Boxed::Text, ObjectModel::String(module.constant_pool@[idx as int]@))
    } else {
        (Effect::Failed(Fault::Runtime("string constant out of range"@)), s)
    }
}

/// The store after the current stack trace was recorded in an exception.
pub open spec fn traced(module: Module, s: StoreModel, calls: Seq<MethodId>, v: Value) -> StoreModel {
    match exception_parts(module, s.heap, v) {
        None => s,
        Some((c, class, f)) => {
            let p = field_place(class.fields@, "stackTrace"@, 0);
            if p >= class.fields@.len() || s.heap.next >= usize::MAX {
                s
            } else {
                let next = stored(s, ObjectModel::String(stack_trace(module, calls)));
                if p < f.len() {
                    with_heap(
                        next,
                        with_change(
                            next.heap,
                            (v->Object_0).0,
                            ObjectModel::Instance(
                                c,
                                f.update(p, Value::String(GcRef(s.heap.next))),
                            ),
                        ),
                    )
                } else {
                    next
                }
            }
        },
    }
}

/// An exception is thrown.
pub open spec fn throw_effect(
    module: Module,
    s: StoreModel,
    calls: Seq<MethodId>,
    args: Seq<Value>,
) -> (Effect, StoreModel) {
    if args.len() == 0 {
        (Effect::Failed(Fault::StackUnderflow), s)
    } else {
        (Effect::Thrown(args[0]), traced(module, s, calls, args[0]))
    }
}

fn concat_values(module: &Module, heap: &Heap, world: &World, vs: &Vec<Value>, n: usize) -> (r:
    Result<String, Ask>)
    requires
        heap_ok(heap@),
        n <= vs@.len(),
    ensures
        text_or_ask(r) == concat_from(
            *module,
            heap@,
            world@,
            vs@.subrange(0, n as int),
            0,
            seq![],
        ),
{
    let mut out: String = String::new();
    let ghost all = vs@.subrange(0, n as int);
    assert(out@ =~= seq![]);
    let mut i: usize = 0;
    while i < n
        invariant
            i <= n <= vs@.len(),
            heap_ok(heap@),
            all == vs@.subrange(0, n as int),
            concat_from(*module, heap@, world@, all, 0, seq![]) == concat_from(
                *module,
                heap@,
                world@,
                all,
                i as int,
                out@,
            ),
        decreases n - i,
    {
        assert(all[i as int] == vs@[i as int]);
        match show_value(module, heap, world, vs[i]) {
            Ok(s) => {
                out = out.concat(s.as_str());
            },
            Err(a) => return Err(a),
        }
        i = i + 1;
    }
    Ok(out)
}

impl Store {
    pub(crate) fn concat_text(&mut self, module: &Module, world: &World, count: u16, args: &Vec<Value>) -> (r:
        Applied)
        requires
            store_ok(old(self)@),
        ensures
            store_ok(final(self)@),
            (r@, final(self)@) == concat_effect(*module, old(self)@, world@, count, args@),
    {
        let n: usize = count as usize;
        if args.len() < n {
            return Applied::Failed(VmError::StackUnderflow);
        }
        match concat_values(module, &self.heap, world, args, n) {
            Ok(s) => self.make(Boxed::Text, AuraObject::String(s)),
            Err(a) => Applied::Ask(a),
        }
    }

    pub(crate) fn print_text(&self, module: &Module, world: &World, args: &Vec<Value>) -> (r: Applied)
        requires
            store_ok(self@),
        ensures
            r@ == print_effect(*module, self@.heap, world@, args@),
    {
        if args.len() == 0 {
            return Applied::Failed(VmError::StackUnderflow);
        }
        match value_as_string(module, &self.heap, world, args[0]) {
            Ok(s) => Applied::Show(s),
            Err(a) => Applied::Ask(a),
        }
    }

    pub(crate) fn string_constant(&mut self, module: &Module, idx: u32) -> (r: Applied)
        requires
            store_ok(old(self)@),
        ensures
            store_ok(final(self)@),
            (r@, final(self)@) == string_effect(*module, old(self)@, idx),
    {
        let i: usize = idx as usize;
        if i < module.constant_pool.len() {
            self.make(Boxed::Text, AuraObject::String(module.constant_pool[i].clone()))
        } else {
            Applied::Failed(VmError::Runtime(own("string constant out of range")))
        }
    }

    /// If `exc` is an instance of the standard `Exception` class, record the
    /// current stack trace into its `stackTrace` field.
    pub fn attach_stack_trace(&mut self, module: &Module, calls: &Vec<MethodId>, exc: Value)
        requires
            store_ok(old(self)@),
        ensures
            store_ok(final(self)@),
            final(self)@ == traced(*module, old(self)@, calls@, exc),
    {
        let h: usize = match exc {
            Value::Object(h) => h.0,
            _ => return,
        };
        let (p, n) = match find_exception(module, &self.heap, exc) {
            Some((_, class, f)) => {
                let p: usize = find_field(&class.fields, "stackTrace");
                if p >= class.fields.len() {
                    return;
                }
                (p, f.len())
            },
            None => return,
        };
        let ghost before = self@;
        let trace: String = capture_stack_trace(module, calls);
        let t: GcRef = match self.store(AuraObject::String(trace)) {
            Ok(t) => t,
            Err(_) => return,
        };
        if p < n {
            proof {
                crate::vm::heap::allocation_law(
                    before.heap,
                    ObjectModel::String(stack_trace(*module, calls@)),
                    h,
                );
                let q = crate::vm::heap::object_from_some(before.heap.objects, h, 0);
                assert(before.heap.objects[q].0 < before.heap.next);
            }
            if let Ok(o) = self.heap.get_mut(GcRef(h)) {
                if let AuraObject::Instance { class_id: _, fields } = o {
                    fields.set(p, Value::String(t));
                }
            }
        }
    }

    pub(crate) fn throw_value(&mut self, module: &Module, calls: &Vec<MethodId>, args: &Vec<Value>) -> (r:
        Applied)
        requires
            store_ok(old(self)@),
        ensures
            store_ok(final(self)@),
            (r@, final(self)@) == throw_effect(*module, old(self)@, calls@, args@),
    {
        if args.len() == 0 {
            return Applied::Failed(VmError::StackUnderflow);
        }
        self.attach_stack_trace(module, calls, args[0]);
        Applied::Thrown(args[0])
    }
}

// ---------------------------------------------------------------------------
// Equality and logic
// ---------------------------------------------------------------------------

/// Equality: numbers, booleans and characters by value, objects by identity,
/// enum values and tuples by their parts; null equals nothing but null.
pub open spec fn eq_effect(module: Module, h: HeapModel, a: Value, b: Value) -> Effect {
    match (a, b) {
        (Value::Int(x), Value::Int(y)) => Effect::Value(Value::Bool(x == y)),
        (Value::Float(x), Value::Float(y)) => Effect::Value(
            Value::Bool(ordered(x, y) && rank(x) == rank(y)),
        ),
        (Value::Bool(x), Value::Bool(y)) => Effect::Value(Value::Bool(x == y)),
        (Value::Char(x), Value::Char(y)) => Effect::Value(Value::Bool(x == y)),
        (Value::Null, Value::Null) => Effect::Value(Value::Bool(true)),
        (Value::Null, _) => Effect::Value(Value::Bool(false)),
        (_, Value::Null) => Effect::Value(Value::Bool(false)),
        (Value::Object(x), Value::Object(y)) => Effect::Value(Value::Bool(x == y)),
        (Value::Enum(_), Value::Enum(_)) => Effect::Value(
            Value::Bool(equal_values(module, h, a, b)),
        ),
        (Value::Tuple(_), Value::Tuple(_)) => Effect::Value(
            Value::Bool(equal_values(module, h, a, b)),
        ),
        _ => Effect::Failed(
            Fault::TypeMismatch("comparable values"@, type_text(a) + " and "@ + type_text(b)),
        ),
    }
}

pub(crate) fn equality(module: &Module, heap: &Heap, a: Value, b: Value) -> (r: Applied)
    requires
        heap_ok(heap@),
    ensures
        r@ == eq_effect(*module, heap@, a, b),
{
    match (a, b) {
        (Value::Int(x), Value::Int(y)) => Applied::Value(Value::Bool(x == y)),
        (Value::Float(x), Value::Float(y)) => Applied::Value(Value::Bool(float_eq(x, y))),
        (Value::Bool(x), Value::Bool(y)) => Applied::Value(Value::Bool(x == y)),
        (Value::Char(x), Value::Char(y)) => Applied::Value(Value::Bool(x == y)),
        (Value::Null, Value::Null) => Applied::Value(Value::Bool(true)),
        (Value::Null, _) => Applied::Value(Value::Bool(false)),
        (_, Value::Null) => Applied::Value(Value::Bool(false)),
        (Value::Object(x), Value::Object(y)) => Applied::Value(Value::Bool(x == y)),
        (Value::Enum(_), Value::Enum(_)) => Applied::Value(
            Value::Bool(value_eq(module, heap, a, b)),
        ),
        (Value::Tuple(_), Value::Tuple(_)) => Applied::Value(
            Value::Bool(value_eq(module, heap, a, b)),
        ),
        _ => Applied::Failed(
            VmError::TypeMismatch {
                expected: "comparable values",
                got: cat3(a.kind_name(), " and ", b.kind_name()),
            },
        ),
    }
}

} // verus!
