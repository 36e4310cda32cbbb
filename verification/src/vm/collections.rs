//! The collections of the standard library: lists, maps and sets. Elements and
//! keys are compared by value.

use crate::bytecode::Module;
use crate::natives::{native_class, native_name, NativeId};
use crate::text::{cat3, cat4, cat5, cat6, dec, dec_i64, dec_int, dec_u64};
use crate::vm::describe::{describe_value, described};
use crate::vm::heap::{heap_ok, object_at, with_change, Heap, HeapModel};
use crate::vm::inspect::{equal_values, value_eq};
use crate::vm::ops::{copy_values, made, store_ok, with_heap, Boxed, Store, StoreModel};
use crate::vm::value::{type_text, AuraObject, GcRef, ObjectModel, Value};
use crate::vm::world::{Answers, Applied, Ask, Effect, Fault, VmError, World};
use vstd::prelude::*;

verus! {

// ---------------------------------------------------------------------------
// Arguments
// ---------------------------------------------------------------------------

/// A runtime error.
pub open spec fn runtime(s: Seq<char>) -> Effect {
    Effect::Failed(Fault::Runtime(s))
}

/// The receiver is of the wrong kind.
pub open spec fn wrong_receiver(id: NativeId, v: Value) -> Effect {
    runtime(
        native_name(id) + ": expected "@ + native_class(id) + " receiver, got "@ + type_text(v),
    )
}

/// The index is out of range.
pub open spec fn out_of_range(id: NativeId, idx: int, len: nat) -> Effect {
    runtime(
        native_name(id) + ": index "@ + dec(idx as nat) + " out of range (count "@ + dec(len)
            + ")"@,
    )
}

/// An index: an integer that is not negative.
pub open spec fn index_of_arg(
    module: Module,
    h: HeapModel,
    w: Answers,
    id: NativeId,
    v: Value,
) -> Result<int, Effect> {
    match v {
        Value::Int(i) => if i >= 0 {
            Ok(i as int)
        } else {
            Err(runtime(native_name(id) + ": negative index "@ + dec_int(i as int)))
        },
        _ => match described(module, h, w, v) {
            Ok(s) => Err(runtime(native_name(id) + ": expected int index, got "@ + s)),
            Err(q) => Err(Effect::Ask(q)),
        },
    }
}

/// How many there are.
pub open spec fn count_value(n: nat) -> Value {
    Value::Int((n as usize) as i64)
}

/// A store with another object behind a handle.
pub open spec fn changed(s: StoreModel, r: usize, o: ObjectModel) -> StoreModel {
    with_heap(s, with_change(s.heap, r, o))
}

pub(crate) fn bad_receiver(id: NativeId, v: Value) -> (r: Applied)
    ensures
        r@ == wrong_receiver(id, v),
{
    Applied::Failed(
        VmError::Runtime(
            cat5(id.name(), ": expected ", id.class_name(), " receiver, got ", v.kind_name()),
        ),
    )
}

pub(crate) fn bad_index(id: NativeId, idx: u64, len: usize) -> (r: Applied)
    ensures
        r@ == out_of_range(id, idx as int, len as nat),
{
    let i: String = dec_u64(idx);
    let n: String = dec_u64(len as u64);
    Applied::Failed(
        VmError::Runtime(
            cat6(id.name(), ": index ", i.as_str(), " out of range (count ", n.as_str(), ")"),
        ),
    )
}

/// An index or what came instead, by value.
pub open spec fn index_or_effect(r: Result<u64, Applied>) -> Result<int, Effect> {
    match r {
        Ok(i) => Ok(i as int),
        Err(a) => Err(a@),
    }
}

pub(crate) fn index_arg(module: &Module, heap: &Heap, world: &World, id: NativeId, v: Value) -> (r:
    Result<u64, Applied>)
    requires
        heap_ok(heap@),
    ensures
        index_or_effect(r) == index_of_arg(*module, heap@, world@, id, v),
        r matches Ok(i) ==> i <= i64::MAX,
{
    match v {
        Value::Int(i) => if i >= 0 {
            Ok(i as u64)
        } else {
            let n: String = dec_i64(i);
            Err(
                Applied::Failed(
                    VmError::Runtime(cat3(id.name(), ": negative index ", n.as_str())),
                ),
            )
        },
        _ => match describe_value(module, heap, world, v) {
            Ok(s) => Err(
                Applied::Failed(
                    VmError::Runtime(cat3(id.name(), ": expected int index, got ", s.as_str())),
                ),
            ),
            Err(a) => Err(Applied::Ask(a)),
        },
    }
}

// ---------------------------------------------------------------------------
// Places
// ---------------------------------------------------------------------------

/// The first place from `i` on of an element equal to `v`, or the length.
pub open spec fn place_of(module: Module, h: HeapModel, xs: Seq<Value>, v: Value, i: int) -> int
    decreases xs.len() - i,
{
    if i < 0 || i >= xs.len() {
        xs.len() as int
    } else if equal_values(module, h, xs[i], v) {
        i
    } else {
        place_of(module, h, xs, v, i + 1)
    }
}

/// The keys of a map.
pub open spec fn keys_of(es: Seq<(Value, Value)>) -> Seq<Value> {
    Seq::new(es.len(), |i: int| es[i].0)
}

/// The values of a map.
pub open spec fn values_of(es: Seq<(Value, Value)>) -> Seq<Value> {
    Seq::new(es.len(), |i: int| es[i].1)
}

fn find_place(module: &Module, heap: &Heap, xs: &Vec<Value>, v: Value) -> (r: usize)
    requires
        heap_ok(heap@),
    ensures
        r == place_of(*module, heap@, xs@, v, 0),
        r <= xs@.len(),
{
    let mut i: usize = 0;
    while i < xs.len()
        invariant
            i <= xs@.len(),
            heap_ok(heap@),
            place_of(*module, heap@, xs@, v, 0) == place_of(*module, heap@, xs@, v, i as int),
        decreases xs.len() - i,
    {
        if value_eq(module, heap, xs[i], v) {
            return i;
        }
        i = i + 1;
    }
    i
}

fn find_key(module: &Module, heap: &Heap, es: &Vec<(Value, Value)>, v: Value) -> (r: usize)
    requires
        heap_ok(heap@),
    ensures
        r == place_of(*module, heap@, keys_of(es@), v, 0),
        r <= es@.len(),
{
    let ghost ks = keys_of(es@);
    let mut i: usize = 0;
    while i < es.len()
        invariant
            i <= es@.len(),
            ks == keys_of(es@),
            heap_ok(heap@),
            place_of(*module, heap@, ks, v, 0) == place_of(*module, heap@, ks, v, i as int),
        decreases es.len() - i,
    {
        assert(ks[i as int] == es@[i as int].0);
        if value_eq(module, heap, es[i].0, v) {
            return i;
        }
        i = i + 1;
    }
    i
}

// ---------------------------------------------------------------------------
// Lists
// ---------------------------------------------------------------------------

/// The list that a value refers to.
pub open spec fn list_in(h: HeapModel, v: Value) -> Option<(usize, Seq<Value>)> {
    match v {
        Value::Object(r) => match object_at(h.objects, r.0) {
            Some(ObjectModel::Array(xs)) => Some((r.0, xs)),
            _ => None,
        },
        _ => None,
    }
}

/// What a native function of lists does with the list `xs` at `r`.
pub open spec fn list_effect(
    module: Module,
    s: StoreModel,
    w: Answers,
    id: NativeId,
    args: Seq<Value>,
    r: usize,
    xs: Seq<Value>,
) -> (Effect, StoreModel) {
    match id {
        NativeId::ListAdd => (
            Effect::Value(Value::Unit),
            changed(s, r, ObjectModel::Array(xs.push(args[1]))),
        ),
        NativeId::ListGet => match index_of_arg(module, s.heap, w, id, args[1]) {
            Err(e) => (e, s),
            Ok(i) => if i < xs.len() {
                (Effect::Value(xs[i]), s)
            } else {
                (out_of_range(id, i, xs.len()), s)
            },
        },
        NativeId::ListSet => match index_of_arg(module, s.heap, w, id, args[1]) {
            Err(e) => (e, s),
            Ok(i) => if i < xs.len() {
                (
                    Effect::Value(Value::Unit),
                    changed(s, r, ObjectModel::Array(xs.update(i, args[2]))),
                )
            } else {
                (out_of_range(id, i, xs.len()), s)
            },
        },
        NativeId::ListInsert => match index_of_arg(module, s.heap, w, id, args[1]) {
            Err(e) => (e, s),
            Ok(i) => if i <= xs.len() {
                (
                    Effect::Value(Value::Unit),
                    changed(s, r, ObjectModel::Array(xs.insert(i, args[2]))),
                )
            } else {
                (out_of_range(id, i, xs.len()), s)
            },
        },
        NativeId::ListRemoveAt => match index_of_arg(module, s.heap, w, id, args[1]) {
            Err(e) => (e, s),
            Ok(i) => if i < xs.len() {
                (Effect::Value(xs[i]), changed(s, r, ObjectModel::Array(xs.remove(i))))
            } else {
                (out_of_range(id, i, xs.len()), s)
            },
        },
        NativeId::ListIndexOf => {
            let p = place_of(module, s.heap, xs, args[1], 0);
            (
                Effect::Value(
                    if p < xs.len() {
                        count_value(p as nat)
                    } else {
                        Value::Int((-1int) as i64)
                    },
                ),
                s,
            )
        },
        NativeId::ListContains => (
            Effect::Value(Value::Bool(place_of(module, s.heap, xs, args[1], 0) < xs.len())),
            s,
        ),
        NativeId::ListClear => (
            Effect::Value(Value::Unit),
            changed(s, r, ObjectModel::Array(Seq::empty())),
        ),
        _ => (Effect::Value(count_value(xs.len())), s),
    }
}

fn find_list<'a>(heap: &'a Heap, v: Value) -> (r: Option<(usize, &'a Vec<Value>)>)
    requires
        heap_ok(heap@),
    ensures
        list_in(heap@, v) == (match r {
            Some((h, xs)) => Some((h, xs@)),
            None => None,
        }),
{
    match v {
        Value::Object(h) => match heap.get(h) {
            Ok(o) => match o {
                AuraObject::Array { elements } => Some((h.0, elements)),
                _ => None,
            },
            Err(_) => None,
        },
        _ => None,
    }
}

impl Store {
    fn replace_list(&mut self, h: usize, xs: Vec<Value>)
        requires
            store_ok(old(self)@),
            object_at(old(self)@.heap.objects, h) matches Some(ObjectModel::Array(_)),
        ensures
            store_ok(final(self)@),
            final(self)@ == changed(old(self)@, h, ObjectModel::Array(xs@)),
    {
        if let Ok(o) = self.heap.get_mut(GcRef(h)) {
            *o = AuraObject::Array { elements: xs };
        }
    }

    fn list_add(&mut self, h: usize, v: Value)
        requires
            store_ok(old(self)@),
            object_at(old(self)@.heap.objects, h) matches Some(ObjectModel::Array(_)),
        ensures
            store_ok(final(self)@),
            final(self)@ == changed(
                old(self)@,
                h,
                ObjectModel::Array(
                    object_at(old(self)@.heap.objects, h)->Some_0->Array_0.push(v),
                ),
            ),
    {
        if let Ok(o) = self.heap.get_mut(GcRef(h)) {
            if let AuraObject::Array { elements } = o {
                elements.push(v);
            }
        }
    }

    fn list_set(&mut self, h: usize, i: usize, v: Value)
        requires
            store_ok(old(self)@),
            object_at(old(self)@.heap.objects, h) matches Some(ObjectModel::Array(xs)) && i
                < xs.len(),
        ensures
            store_ok(final(self)@),
            final(self)@ == changed(
                old(self)@,
                h,
                ObjectModel::Array(
                    object_at(old(self)@.heap.objects, h)->Some_0->Array_0.update(i as int, v),
                ),
            ),
    {
        if let Ok(o) = self.heap.get_mut(GcRef(h)) {
            if let AuraObject::Array { elements } = o {
                elements.set(i, v);
            }
        }
    }

    fn list_insert(&mut self, h: usize, i: usize, v: Value)
        requires
            store_ok(old(self)@),
            object_at(old(self)@.heap.objects, h) matches Some(ObjectModel::Array(xs)) && i
                <= xs.len(),
        ensures
            store_ok(final(self)@),
            final(self)@ == changed(
                old(self)@,
                h,
                ObjectModel::Array(
                    object_at(old(self)@.heap.objects, h)->Some_0->Array_0.insert(i as int, v),
                ),
            ),
    {
        if let Ok(o) = self.heap.get_mut(GcRef(h)) {
            if let AuraObject::Array { elements } = o {
                elements.insert(i, v);
            }
        }
    }

    fn list_remove(&mut self, h: usize, i: usize) -> (r: Value)
        requires
            store_ok(old(self)@),
            object_at(old(self)@.heap.objects, h) matches Some(ObjectModel::Array(xs)) && i
                < xs.len(),
        ensures
            store_ok(final(self)@),
            r == object_at(old(self)@.heap.objects, h)->Some_0->Array_0[i as int],
            final(self)@ == changed(
                old(self)@,
                h,
                ObjectModel::Array(
                    object_at(old(self)@.heap.objects, h)->Some_0->Array_0.remove(i as int),
                ),
            ),
    {
        let mut out: Value = Value::Unit;
        if let Ok(o) = self.heap.get_mut(GcRef(h)) {
            if let AuraObject::Array { elements } = o {
                out = elements.remove(i);
            }
        }
        out
    }

    /// A native function of lists.
    pub(crate) fn list_native(
        &mut self,
        module: &Module,
        world: &World,
        id: NativeId,
        args: &Vec<Value>,
    ) -> (r: Applied)
        requires
            store_ok(old(self)@),
            args@.len() >= 1,
            id is ListAdd || id is ListGet || id is ListRemoveAt || id is ListIndexOf
                || id is ListContains ==> args@.len() >= 2,
            id is ListSet || id is ListInsert ==> args@.len() >= 3,
        ensures
            store_ok(final(self)@),
            (r@, final(self)@) == (match list_in(old(self)@.heap, args@[0]) {
                None => (wrong_receiver(id, args@[0]), old(self)@),
                Some((h, xs)) => list_effect(*module, old(self)@, world@, id, args@, h, xs),
            }),
    {
        let (h, n) = match find_list(&self.heap, args[0]) {
            Some((h, xs)) => (h, xs.len()),
            None => return bad_receiver(id, args[0]),
        };
        match id {
            NativeId::ListAdd => {
                self.list_add(h, args[1]);
                Applied::Value(Value::Unit)
            },
            NativeId::ListGet => match index_arg(module, &self.heap, world, id, args[1]) {
                Err(e) => e,
                Ok(i) => {
                    if i < n as u64 {
                        match find_list(&self.heap, args[0]) {
                            Some((_, xs)) => Applied::Value(xs[i as usize]),
                            None => bad_receiver(id, args[0]),
                        }
                    } else {
                        bad_index(id, i, n)
                    }
                },
            },
            NativeId::ListSet => match index_arg(module, &self.heap, world, id, args[1]) {
                Err(e) => e,
                Ok(i) => {
                    if i < n as u64 {
                        self.list_set(h, i as usize, args[2]);
                        Applied::Value(Value::Unit)
                    } else {
                        bad_index(id, i, n)
                    }
                },
            },
            NativeId::ListInsert => match index_arg(module, &self.heap, world, id, args[1]) {
                Err(e) => e,
                Ok(i) => {
                    if i <= n as u64 {
                        self.list_insert(h, i as usize, args[2]);
                        Applied::Value(Value::Unit)
                    } else {
                        bad_index(id, i, n)
                    }
                },
            },
            NativeId::ListRemoveAt => match index_arg(module, &self.heap, world, id, args[1]) {
                Err(e) => e,
                Ok(i) => {
                    if i < n as u64 {
                        Applied::Value(self.list_remove(h, i as usize))
                    } else {
                        bad_index(id, i, n)
                    }
                },
            },
            NativeId::ListIndexOf | NativeId::ListContains => {
                let p: usize = match find_list(&self.heap, args[0]) {
                    Some((_, xs)) => find_place(module, &self.heap, xs, args[1]),
                    None => return bad_receiver(id, args[0]),
                };
                if id == NativeId::ListContains {
                    Applied::Value(Value::Bool(p < n))
                } else if p < n {
                    Applied::Value(Value::Int(p as i64))
                } else {
                    Applied::Value(Value::Int(-1))
                }
            },
            NativeId::ListClear => {
                self.replace_list(h, Vec::new());
                Applied::Value(Value::Unit)
            },
            _ => Applied::Value(Value::Int(n as i64)),
        }
    }
}

// ---------------------------------------------------------------------------
// Maps
// ---------------------------------------------------------------------------

/// The map that a value refers to.
pub open spec fn dict_in(h: HeapModel, v: Value) -> Option<(usize, Seq<(Value, Value)>)> {
    match v {
        Value::Object(r) => match object_at(h.objects, r.0) {
            Some(ObjectModel::Dict(es)) => Some((r.0, es)),
            _ => None,
        },
        _ => None,
    }
}

/// A map with a value under a key: in the place of the key, or at the end.
pub open spec fn with_entry(es: Seq<(Value, Value)>, p: int, k: Value, v: Value) -> Seq<
    (Value, Value),
> {
    if p < es.len() {
        es.update(p, (es[p].0, v))
    } else {
        es.push((k, v))
    }
}

/// What a native function of maps does with the map `es` at `r`.
pub open spec fn dict_effect(
    module: Module,
    s: StoreModel,
    w: Answers,
    id: NativeId,
    args: Seq<Value>,
    r: usize,
    es: Seq<(Value, Value)>,
) -> (Effect, StoreModel) {
    let p = place_of(module, s.heap, keys_of(es), args[1], 0);
    match id {
        NativeId::MapPut => (
            Effect::Value(Value::Unit),
            changed(s, r, ObjectModel::Dict(with_entry(es, p, args[1], args[2]))),
        ),
        NativeId::MapGet => if p < es.len() {
            (Effect::Value(es[p].1), s)
        } else {
            match described(module, s.heap, w, args[1]) {
                Ok(t) => (runtime(native_name(id) + ": key "@ + t + " not found"@), s),
                Err(q) => (Effect::Ask(q), s),
            }
        },
        NativeId::MapContainsKey => (Effect::Value(Value::Bool(p < es.len())), s),
        NativeId::MapRemove => if p < es.len() {
            (Effect::Value(Value::Bool(true)), changed(s, r, ObjectModel::Dict(es.remove(p))))
        } else {
            (Effect::Value(Value::Bool(false)), s)
        },
        NativeId::MapKeys => made(s, Boxed::Thing, ObjectModel::Array(keys_of(es))),
        NativeId::MapValues => made(s, Boxed::Thing, ObjectModel::Array(values_of(es))),
        NativeId::MapClear => (
            Effect::Value(Value::Unit),
            changed(s, r, ObjectModel::Dict(Seq::empty())),
        ),
        _ => (Effect::Value(count_value(es.len())), s),
    }
}

fn find_dict<'a>(heap: &'a Heap, v: Value) -> (r: Option<(usize, &'a Vec<(Value, Value)>)>)
    requires
        heap_ok(heap@),
    ensures
        dict_in(heap@, v) == (match r {
            Some((h, es)) => Some((h, es@)),
            None => None,
        }),
{
    match v {
        Value::Object(h) => match heap.get(h) {
            Ok(o) => match o {
                AuraObject::Dict { entries } => Some((h.0, entries)),
                _ => None,
            },
            Err(_) => None,
        },
        _ => None,
    }
}

fn list_keys(es: &Vec<(Value, Value)>) -> (r: Vec<Value>)
    ensures
        r@ == keys_of(es@),
{
    let mut out: Vec<Value> = Vec::new();
    let mut i: usize = 0;
    while i < es.len()
        invariant
            i <= es@.len(),
            out@ == keys_of(es@).subrange(0, i as int),
        decreases es.len() - i,
    {
        out.push(es[i].0);
        assert(out@ =~= keys_of(es@).subrange(0, i + 1));
        i = i + 1;
    }
    assert(keys_of(es@).subrange(0, i as int) =~= keys_of(es@));
    out
}

fn list_values(es: &Vec<(Value, Value)>) -> (r: Vec<Value>)
    ensures
        r@ == values_of(es@),
{
    let mut out: Vec<Value> = Vec::new();
    let mut i: usize = 0;
    while i < es.len()
        invariant
            i <= es@.len(),
            out@ == values_of(es@).subrange(0, i as int),
        decreases es.len() - i,
    {
        out.push(es[i].1);
        assert(out@ =~= values_of(es@).subrange(0, i + 1));
        i = i + 1;
    }
    assert(values_of(es@).subrange(0, i as int) =~= values_of(es@));
    out
}

impl Store {
    fn dict_put(&mut self, h: usize, p: usize, k: Value, v: Value)
        requires
            store_ok(old(self)@),
            object_at(old(self)@.heap.objects, h) matches Some(ObjectModel::Dict(_)),
        ensures
            store_ok(final(self)@),
            final(self)@ == changed(
                old(self)@,
                h,
                ObjectModel::Dict(
                    with_entry(
                        object_at(old(self)@.heap.objects, h)->Some_0->Dict_0,
                        p as int,
                        k,
                        v,
                    ),
                ),
            ),
    {
        if let Ok(o) = self.heap.get_mut(GcRef(h)) {
            if let AuraObject::Dict { entries } = o {
                if p < entries.len() {
                    let k2: Value = entries[p].0;
                    entries.set(p, (k2, v));
                } else {
                    entries.push((k, v));
                }
            }
        }
    }

    fn dict_remove(&mut self, h: usize, p: usize)
        requires
            store_ok(old(self)@),
            object_at(old(self)@.heap.objects, h) matches Some(ObjectModel::Dict(es)) && p
                < es.len(),
        ensures
            store_ok(final(self)@),
            final(self)@ == changed(
                old(self)@,
                h,
                ObjectModel::Dict(
                    object_at(old(self)@.heap.objects, h)->Some_0->Dict_0.remove(p as int),
                ),
            ),
    {
        if let Ok(o) = self.heap.get_mut(GcRef(h)) {
            if let AuraObject::Dict { entries } = o {
                entries.remove(p);
            }
        }
    }

    fn dict_clear(&mut self, h: usize)
        requires
            store_ok(old(self)@),
            object_at(old(self)@.heap.objects, h) matches Some(ObjectModel::Dict(_)),
        ensures
            store_ok(final(self)@),
            final(self)@ == changed(old(self)@, h, ObjectModel::Dict(Seq::empty())),
    {
        if let Ok(o) = self.heap.get_mut(GcRef(h)) {
            *o = AuraObject::Dict { entries: Vec::new() };
        }
    }

    /// A native function of maps.
    pub(crate) fn dict_native(
        &mut self,
        module: &Module,
        world: &World,
        id: NativeId,
        args: &Vec<Value>,
    ) -> (r: Applied)
        requires
            store_ok(old(self)@),
            args@.len() >= 1,
            id is MapGet || id is MapContainsKey || id is MapRemove ==> args@.len() >= 2,
            id is MapPut ==> args@.len() >= 3,
        ensures
            store_ok(final(self)@),
            (r@, final(self)@) == (match dict_in(old(self)@.heap, args@[0]) {
                None => (wrong_receiver(id, args@[0]), old(self)@),
                Some((h, es)) => dict_effect(*module, old(self)@, world@, id, args@, h, es),
            }),
    {
        let (h, es) = match find_dict(&self.heap, args[0]) {
            Some((h, es)) => (h, es),
            None => return bad_receiver(id, args[0]),
        };
        let n: usize = es.len();
        match id {
            NativeId::MapPut => {
                let p: usize = find_key(module, &self.heap, es, args[1]);
                self.dict_put(h, p, args[1], args[2]);
                Applied::Value(Value::Unit)
            },
            NativeId::MapGet => {
                let p: usize = find_key(module, &self.heap, es, args[1]);
                if p < n {
                    Applied::Value(es[p].1)
                } else {
                    match describe_value(module, &self.heap, world, args[1]) {
                        Ok(t) => Applied::Failed(
                            VmError::Runtime(
                                cat4(id.name(), ": key ", t.as_str(), " not found"),
                            ),
                        ),
                        Err(a) => Applied::Ask(a),
                    }
                }
            },
            NativeId::MapContainsKey => {
                let p: usize = find_key(module, &self.heap, es, args[1]);
                Applied::Value(Value::Bool(p < n))
            },
            NativeId::MapRemove => {
                let p: usize = find_key(module, &self.heap, es, args[1]);
                if p < n {
                    self.dict_remove(h, p);
                    Applied::Value(Value::Bool(true))
                } else {
                    Applied::Value(Value::Bool(false))
                }
            },
            NativeId::MapKeys => {
                let ks: Vec<Value> = list_keys(es);
                self.make(Boxed::Thing, AuraObject::Array { elements: ks })
            },
            NativeId::MapValues => {
                let vs: Vec<Value> = list_values(es);
                self.make(Boxed::Thing, AuraObject::Array { elements: vs })
            },
            NativeId::MapClear => {
                self.dict_clear(h);
                Applied::Value(Value::Unit)
            },
            _ => Applied::Value(Value::Int(n as i64)),
        }
    }
}

// ---------------------------------------------------------------------------
// Sets
// ---------------------------------------------------------------------------

/// The set that a value refers to.
pub open spec fn set_in(h: HeapModel, v: Value) -> Option<(usize, Seq<Value>)> {
    match v {
        Value::Object(r) => match object_at(h.objects, r.0) {
            Some(ObjectModel::ItemSet(xs)) => Some((r.0, xs)),
            _ => None,
        },
        _ => None,
    }
}

/// What a native function of sets does with the set `xs` at `r`.
pub open spec fn set_effect(
    module: Module,
    s: StoreModel,
    id: NativeId,
    args: Seq<Value>,
    r: usize,
    xs: Seq<Value>,
) -> (Effect, StoreModel) {
    let p = place_of(module, s.heap, xs, args[1], 0);
    match id {
        NativeId::SetAdd => if p < xs.len() {
            (Effect::Value(Value::Bool(false)), s)
        } else {
            (
                Effect::Value(Value::Bool(true)),
                changed(s, r, ObjectModel::ItemSet(xs.push(args[1]))),
            )
        },
        NativeId::SetContains => (Effect::Value(Value::Bool(p < xs.len())), s),
        NativeId::SetRemove => if p < xs.len() {
            (
                Effect::Value(Value::Bool(true)),
                changed(s, r, ObjectModel::ItemSet(xs.remove(p))),
            )
        } else {
            (Effect::Value(Value::Bool(false)), s)
        },
        NativeId::SetToList => made(s, Boxed::Thing, ObjectModel::Array(xs)),
        NativeId::SetClear => (
            Effect::Value(Value::Unit),
            changed(s, r, ObjectModel::ItemSet(Seq::empty())),
        ),
        _ => (Effect::Value(count_value(xs.len())), s),
    }
}

fn find_set<'a>(heap: &'a Heap, v: Value) -> (r: Option<(usize, &'a Vec<Value>)>)
    requires
        heap_ok(heap@),
    ensures
        set_in(heap@, v) == (match r {
            Some((h, xs)) => Some((h, xs@)),
            None => None,
        }),
{
    match v {
        Value::Object(h) => match heap.get(h) {
            Ok(o) => match o {
                AuraObject::ItemSet { elements } => Some((h.0, elements)),
                _ => None,
            },
            Err(_) => None,
        },
        _ => None,
    }
}

impl Store {
    fn set_push(&mut self, h: usize, v: Value)
        requires
            store_ok(old(self)@),
            object_at(old(self)@.heap.objects, h) matches Some(ObjectModel::ItemSet(_)),
        ensures
            store_ok(final(self)@),
            final(self)@ == changed(
                old(self)@,
                h,
                ObjectModel::ItemSet(
                    object_at(old(self)@.heap.objects, h)->Some_0->ItemSet_0.push(v),
                ),
            ),
    {
        if let Ok(o) = self.heap.get_mut(GcRef(h)) {
            if let AuraObject::ItemSet { elements } = o {
                elements.push(v);
            }
        }
    }

    fn set_remove(&mut self, h: usize, p: usize)
        requires
            store_ok(old(self)@),
            object_at(old(self)@.heap.objects, h) matches Some(ObjectModel::ItemSet(xs)) && p
                < xs.len(),
        ensures
            store_ok(final(self)@),
            final(self)@ == changed(
                old(self)@,
                h,
                ObjectModel::ItemSet(
                    object_at(old(self)@.heap.objects, h)->Some_0->ItemSet_0.remove(p as int),
                ),
            ),
    {
        if let Ok(o) = self.heap.get_mut(GcRef(h)) {
            if let AuraObject::ItemSet { elements } = o {
                elements.remove(p);
            }
        }
    }

    fn set_clear(&mut self, h: usize)
        requires
            store_ok(old(self)@),
            object_at(old(self)@.heap.objects, h) matches Some(ObjectModel::ItemSet(_)),
        ensures
            store_ok(final(self)@),
            final(self)@ == changed(old(self)@, h, ObjectModel::ItemSet(Seq::empty())),
    {
        if let Ok(o) = self.heap.get_mut(GcRef(h)) {
            *o = AuraObject::ItemSet { elements: Vec::new() };
        }
    }

    /// A native function of sets.
    pub(crate) fn set_native(&mut self, module: &Module, id: NativeId, args: &Vec<Value>) -> (r:
        Applied)
        requires
            store_ok(old(self)@),
            args@.len() >= 1,
            id is SetAdd || id is SetContains || id is SetRemove ==> args@.len() >= 2,
        ensures
            store_ok(final(self)@),
            (r@, final(self)@) == (match set_in(old(self)@.heap, args@[0]) {
                None => (wrong_receiver(id, args@[0]), old(self)@),
                Some((h, xs)) => set_effect(*module, old(self)@, id, args@, h, xs),
            }),
    {
        let (h, xs) = match find_set(&self.heap, args[0]) {
            Some((h, xs)) => (h, xs),
            None => return bad_receiver(id, args[0]),
        };
        let n: usize = xs.len();
        match id {
            NativeId::SetAdd => {
                let p: usize = find_place(module, &self.heap, xs, args[1]);
                if p < n {
                    Applied::Value(Value::Bool(false))
                } else {
                    self.set_push(h, args[1]);
                    Applied::Value(Value::Bool(true))
                }
            },
            NativeId::SetContains => {
                let p: usize = find_place(module, &self.heap, xs, args[1]);
                Applied::Value(Value::Bool(p < n))
            },
            NativeId::SetRemove => {
                let p: usize = find_place(module, &self.heap, xs, args[1]);
                if p < n {
                    self.set_remove(h, p);
                    Applied::Value(Value::Bool(true))
                } else {
                    Applied::Value(Value::Bool(false))
                }
            },
            NativeId::SetToList => {
                let elements: Vec<Value> = copy_values(xs);
                self.make(Boxed::Thing, AuraObject::Array { elements })
            },
            NativeId::SetClear => {
                self.set_clear(h);
                Applied::Value(Value::Unit)
            },
            _ => Applied::Value(Value::Int(n as i64)),
        }
    }
}

// ---------------------------------------------------------------------------
// Laws
// ---------------------------------------------------------------------------

proof fn place_bounds(module: Module, h: HeapModel, xs: Seq<Value>, v: Value, i: int)
    requires
        0 <= i <= xs.len(),
    ensures
        i <= place_of(module, h, xs, v, i) <= xs.len(),
        place_of(module, h, xs, v, i) < xs.len() ==> equal_values(
            module,
            h,
            xs[place_of(module, h, xs, v, i)],
            v,
        ),
    decreases xs.len() - i,
{
    if i < xs.len() && !equal_values(module, h, xs[i], v) {
        place_bounds(module, h, xs, v, i + 1);
    }
}

/// Two lists that agree before the first place of `v` in one, and there, have
/// that place in common.
proof fn same_place(module: Module, h: HeapModel, xs: Seq<Value>, ys: Seq<Value>, v: Value, i: int)
    requires
        0 <= i <= xs.len() <= ys.len(),
        forall|j: int| 0 <= j < xs.len() ==> xs[j] == ys[j],
    ensures
        place_of(module, h, xs, v, i) < xs.len() ==> place_of(module, h, ys, v, i) == place_of(
            module,
            h,
            xs,
            v,
            i,
        ),
        place_of(module, h, xs, v, i) == xs.len() ==> place_of(module, h, ys, v, i) == place_of(
            module,
            h,
            ys,
            v,
            xs.len() as int,
        ),
    decreases xs.len() - i,
{
    if i < xs.len() && !equal_values(module, h, xs[i], v) {
        same_place(module, h, xs, ys, v, i + 1);
    }
}

/// What is put under a key is found under it, and what was under a key that is
/// not equal to it stays there.
pub proof fn put_is_found(
    module: Module,
    h: HeapModel,
    es: Seq<(Value, Value)>,
    k: Value,
    v: Value,
    other: Value,
)
    requires
        equal_values(module, h, k, k),
        !equal_values(module, h, k, other),
    ensures
        ({
            let p = place_of(module, h, keys_of(es), k, 0);
            let after = with_entry(es, p, k, v);
            let q = place_of(module, h, keys_of(after), k, 0);
            &&& q < after.len()
            &&& after[q].1 == v
        }),
        ({
            let p = place_of(module, h, keys_of(es), k, 0);
            let q = place_of(module, h, keys_of(es), other, 0);
            let after = with_entry(es, p, k, v);
            let q2 = place_of(module, h, keys_of(after), other, 0);
            &&& (q < es.len()) == (q2 < after.len())
            &&& q < es.len() && q != p ==> q2 == q && after[q] == es[q]
        }),
{
    let ks = keys_of(es);
    let p = place_of(module, h, ks, k, 0);
    let after = with_entry(es, p, k, v);
    let ks2 = keys_of(after);
    place_bounds(module, h, ks, k, 0);
    place_bounds(module, h, ks, other, 0);
    if p < es.len() {
        assert(ks2 =~= ks);
    } else {
        assert(forall|j: int| 0 <= j < ks.len() ==> ks[j] == ks2[j]);
        same_place(module, h, ks, ks2, k, 0);
        same_place(module, h, ks, ks2, other, 0);
        assert(ks2[es.len() as int] == k);
        assert(place_of(module, h, ks2, other, es.len() as int + 1) == ks2.len());
    }
}

/// A set holds nothing twice: what was added is found once, and adding it again
/// changes nothing.
pub proof fn added_once(module: Module, h: HeapModel, xs: Seq<Value>, v: Value)
    requires
        equal_values(module, h, v, v),
        place_of(module, h, xs, v, 0) == xs.len(),
    ensures
        place_of(module, h, xs.push(v), v, 0) == xs.len(),
        place_of(module, h, xs.push(v), v, 0) < xs.push(v).len(),
{
    let ys = xs.push(v);
    assert(forall|j: int| 0 <= j < xs.len() ==> xs[j] == ys[j]);
    same_place(module, h, xs, ys, v, 0);
}

} // verus!
