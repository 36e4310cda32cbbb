//! What the native collections promise to programs: how a call shows in what later calls
//! give back.

use crate::bytecode::{MethodId, Module, Op};
use crate::natives::{native_arity, native_of, NativeId};
use crate::vm::apply::apply_effect;
use crate::vm::collections::{keys_of, place_of, values_of};
use crate::vm::heap::{allocation_law, change_law, heap_ok, object_at, HeapModel};
use crate::vm::inspect::equal_values;
use crate::vm::ops::StoreModel;
use crate::vm::stdlib::native_effect;
use crate::vm::value::{GcRef, ObjectModel, Value};
use crate::vm::world::{Answers, Effect};
use vstd::prelude::*;

verus! {

/// What surrounds a call.
pub ghost struct Setting {
    /// The program.
    pub module: Module,
    /// Whether overflow is detected.
    pub checks: bool,
    /// The running methods.
    pub calls: Seq<MethodId>,
    /// The answers.
    pub world: Answers,
}

/// What a call of the native function with number `n` comes to.
#[verifier::opaque]
pub open spec fn calling(c: Setting, s: StoreModel, n: u16, args: Seq<Value>) -> (Effect, StoreModel) {
    apply_effect(c.module, c.checks, s, c.calls, c.world, Op::NativeCall(n), args)
}

/// A call with as many arguments as the function takes comes to what the function does.
pub proof fn calling_is(c: Setting, s: StoreModel, n: u16, id: NativeId, args: Seq<Value>)
    requires
        native_of(n) == Some(id),
        args.len() == native_arity(id),
    ensures
        calling(c, s, n, args) == native_effect(c.module, s, c.world, id, args),
{
    reveal(calling);
}

/// An object on the heap.
pub open spec fn there(s: StoreModel, r: GcRef) -> Option<ObjectModel> {
    object_at(s.heap.objects, r.0)
}

/// A list on the heap.
pub open spec fn is_list(s: StoreModel, r: GcRef, xs: Seq<Value>) -> bool {
    heap_ok(s.heap) && there(s, r) == Some(ObjectModel::Array(xs))
}

/// A map on the heap.
pub open spec fn is_map(s: StoreModel, r: GcRef, es: Seq<(Value, Value)>) -> bool {
    heap_ok(s.heap) && there(s, r) == Some(ObjectModel::Dict(es))
}

/// A set on the heap.
pub open spec fn is_set(s: StoreModel, r: GcRef, xs: Seq<Value>) -> bool {
    heap_ok(s.heap) && there(s, r) == Some(ObjectModel::ItemSet(xs))
}

/// Nothing but the object behind `r` has changed.
pub open spec fn only_at(s: StoreModel, after: StoreModel, r: GcRef) -> bool {
    &&& heap_ok(after.heap)
    &&& after.statics == s.statics
    &&& after.heap.next == s.heap.next
    &&& forall|q: GcRef| q != r ==> #[trigger] there(after, q) == there(s, q)
}

/// Nothing but one new object has come.
pub open spec fn only_new(s: StoreModel, after: StoreModel, r: GcRef) -> bool {
    &&& r.0 == s.heap.next
    &&& after.statics == s.statics
    &&& forall|q: GcRef| q != r ==> #[trigger] there(after, q) == there(s, q)
}

proof fn changed_only(s: StoreModel, r: GcRef, o: ObjectModel)
    requires
        heap_ok(s.heap),
        there(s, r) is Some,
    ensures
        only_at(s, crate::vm::collections::changed(s, r.0, o), r),
        there(crate::vm::collections::changed(s, r.0, o), r) == Some(o),
{
    let after = crate::vm::collections::changed(s, r.0, o);
    change_law(s.heap, r.0, o, r.0);
    assert forall|q: GcRef| q != r implies #[trigger] there(after, q) == there(s, q) by {
        change_law(s.heap, r.0, o, q.0);
    }
}

proof fn made_only(s: StoreModel, b: crate::vm::ops::Boxed, o: ObjectModel)
    requires
        heap_ok(s.heap),
        s.heap.next < usize::MAX,
    ensures
        only_new(s, crate::vm::ops::made(s, b, o).1, GcRef(s.heap.next)),
        there(crate::vm::ops::made(s, b, o).1, GcRef(s.heap.next)) == Some(o),
{
    let after = crate::vm::ops::made(s, b, o).1;
    allocation_law(s.heap, o, 0);
    assert forall|q: GcRef| q != GcRef(s.heap.next) implies #[trigger] there(after, q) == there(s, q) by {
        allocation_law(s.heap, o, q.0);
    }
}

/// The place of the first element that is equal to a value.
proof fn place_found(module: Module, h: HeapModel, xs: Seq<Value>, v: Value, i: int)
    requires
        0 <= i <= xs.len(),
    ensures
        i <= place_of(module, h, xs, v, i) <= xs.len(),
        forall|j: int|
            i <= j < place_of(module, h, xs, v, i) ==> !equal_values(module, h, #[trigger] xs[j], v),
        place_of(module, h, xs, v, i) < xs.len() ==> equal_values(
            module,
            h,
            xs[place_of(module, h, xs, v, i)],
            v,
        ),
    decreases xs.len() - i,
{
    if i < xs.len() && !equal_values(module, h, xs[i], v) {
        place_found(module, h, xs, v, i + 1);
    }
}

/// Every native function has one number, and every number below 47 is the number of one.
pub proof fn numbering_law(m: u16, n: u16)
    ensures
        native_of(n) is Some <==> n < 47,
        native_of(m) is Some && native_of(m) == native_of(n) ==> m == n,
{
}

// ---------------------------------------------------------------------------
// Lists
// ---------------------------------------------------------------------------

/// A new list, map or set is empty, and an object of its own.
pub proof fn new_collection_law(c: Setting, s: StoreModel, n: u16)
    requires
        heap_ok(s.heap),
        s.heap.next < usize::MAX,
        native_of(n) == Some(NativeId::ListNew) || native_of(n) == Some(NativeId::MapNew) || native_of(
            n,
        ) == Some(NativeId::SetNew),
    ensures
        ({
            let r = GcRef(s.heap.next);
            let (e, after) = calling(c, s, n, seq![]);
            &&& e == Effect::Value(Value::Object(r))
            &&& there(s, r) is None
            &&& only_new(s, after, r)
            &&& there(after, r) == Some(
                if native_of(n) == Some(NativeId::ListNew) {
                    ObjectModel::Array(seq![])
                } else if native_of(n) == Some(NativeId::MapNew) {
                    ObjectModel::Dict(seq![])
                } else {
                    ObjectModel::ItemSet(seq![])
                },
            )
        }),
{
    calling_is(c, s, n, native_of(n)->Some_0, seq![]);
    let o = if native_of(n) == Some(NativeId::ListNew) {
        ObjectModel::Array(seq![])
    } else if native_of(n) == Some(NativeId::MapNew) {
        ObjectModel::Dict(seq![])
    } else {
        ObjectModel::ItemSet(seq![])
    };
    made_only(s, crate::vm::ops::Boxed::Thing, o);
    if object_at(s.heap.objects, s.heap.next) is Some {
        let p = crate::vm::heap::object_from_some(s.heap.objects, s.heap.next, 0);
        assert(s.heap.objects[p].0 < s.heap.next);
    }
}

/// Adding to a list puts the value behind the others.
pub proof fn list_add_law(c: Setting, s: StoreModel, n: u16, r: GcRef, xs: Seq<Value>, v: Value)
    requires
        native_of(n) == Some(NativeId::ListAdd),
        is_list(s, r, xs),
    ensures
        ({
            let (e, after) = calling(c, s, n, seq![Value::Object(r), v]);
            &&& e == Effect::Value(Value::Unit)
            &&& is_list(after, r, xs + seq![v])
            &&& only_at(s, after, r)
        }),
{
    calling_is(c, s, n, NativeId::ListAdd, seq![Value::Object(r), v]);
    changed_only(s, r, ObjectModel::Array(xs.push(v)));
    assert(xs + seq![v] =~= xs.push(v));
}

/// Reading a list changes nothing: the count is the number of elements, and an element is
/// read at its index. An index that is not one of the list is an error.
pub proof fn list_read_law(c: Setting, s: StoreModel, count: u16, get: u16, r: GcRef, xs: Seq<Value>, i: i64)
    requires
        native_of(count) == Some(NativeId::ListCount),
        native_of(get) == Some(NativeId::ListGet),
        is_list(s, r, xs),
        xs.len() <= i64::MAX,
        xs.len() <= usize::MAX,
    ensures
        calling(c, s, count, seq![Value::Object(r)]) == (Effect::Value(Value::Int(xs.len() as i64)), s),
        0 <= i < xs.len() ==> calling(c, s, get, seq![Value::Object(r), Value::Int(i)]) == (
            Effect::Value(xs[i as int]),
            s,
        ),
        i < 0 || i >= xs.len() ==> {
            let (e, after) = calling(c, s, get, seq![Value::Object(r), Value::Int(i)]);
            e is Failed && after == s
        },
{
    calling_is(c, s, count, NativeId::ListCount, seq![Value::Object(r)]);
    calling_is(c, s, get, NativeId::ListGet, seq![Value::Object(r), Value::Int(i)]);
}

/// Setting an element changes the element at the index alone; inserting puts the value in
/// front of it and moves the others up; removing gives the element back and closes the
/// gap. An index that is not one of the list is an error that changes nothing.
pub proof fn list_write_law(
    c: Setting,
    s: StoreModel,
    set: u16,
    insert: u16,
    remove: u16,
    r: GcRef,
    xs: Seq<Value>,
    i: i64,
    v: Value,
)
    requires
        native_of(set) == Some(NativeId::ListSet),
        native_of(insert) == Some(NativeId::ListInsert),
        native_of(remove) == Some(NativeId::ListRemoveAt),
        is_list(s, r, xs),
    ensures
        ({
            let (e, after) = calling(c, s, set, seq![Value::Object(r), Value::Int(i), v]);
            if 0 <= i < xs.len() {
                &&& e == Effect::Value(Value::Unit)
                &&& is_list(
                    after,
                    r,
                    xs.subrange(0, i as int) + seq![v] + xs.subrange(i + 1, xs.len() as int),
                )
                &&& only_at(s, after, r)
            } else {
                e is Failed && after == s
            }
        }),
        ({
            let (e, after) = calling(c, s, insert, seq![Value::Object(r), Value::Int(i), v]);
            if 0 <= i <= xs.len() {
                &&& e == Effect::Value(Value::Unit)
                &&& is_list(
                    after,
                    r,
                    xs.subrange(0, i as int) + seq![v] + xs.subrange(i as int, xs.len() as int),
                )
                &&& only_at(s, after, r)
            } else {
                e is Failed && after == s
            }
        }),
        ({
            let (e, after) = calling(c, s, remove, seq![Value::Object(r), Value::Int(i)]);
            if 0 <= i < xs.len() {
                &&& e == Effect::Value(xs[i as int])
                &&& is_list(after, r, xs.subrange(0, i as int) + xs.subrange(i + 1, xs.len() as int))
                &&& only_at(s, after, r)
            } else {
                e is Failed && after == s
            }
        }),
{
    calling_is(c, s, set, NativeId::ListSet, seq![Value::Object(r), Value::Int(i), v]);
    calling_is(c, s, insert, NativeId::ListInsert, seq![Value::Object(r), Value::Int(i), v]);
    calling_is(c, s, remove, NativeId::ListRemoveAt, seq![Value::Object(r), Value::Int(i)]);
    if 0 <= i < xs.len() {
        changed_only(s, r, ObjectModel::Array(xs.update(i as int, v)));
        changed_only(s, r, ObjectModel::Array(xs.remove(i as int)));
        assert(xs.update(i as int, v) =~= xs.subrange(0, i as int) + seq![v] + xs.subrange(
            i + 1,
            xs.len() as int,
        ));
        assert(xs.remove(i as int) =~= xs.subrange(0, i as int) + xs.subrange(i + 1, xs.len() as int));
    }
    if 0 <= i <= xs.len() {
        changed_only(s, r, ObjectModel::Array(xs.insert(i as int, v)));
        assert(xs.insert(i as int, v) =~= xs.subrange(0, i as int) + seq![v] + xs.subrange(
            i as int,
            xs.len() as int,
        ));
    }
}

/// A cleared list, map or set is empty.
pub proof fn clear_law(c: Setting, s: StoreModel, n: u16, r: GcRef)
    requires
        native_of(n) == Some(NativeId::ListClear) && there(s, r) is Some && there(s, r)->Some_0 is Array
            || native_of(n) == Some(NativeId::MapClear) && there(s, r) is Some && there(s, r)->Some_0 is Dict
            || native_of(n) == Some(NativeId::SetClear) && there(s, r) is Some && there(
            s,
            r,
        )->Some_0 is ItemSet,
        heap_ok(s.heap),
    ensures
        ({
            let (e, after) = calling(c, s, n, seq![Value::Object(r)]);
            &&& e == Effect::Value(Value::Unit)
            &&& only_at(s, after, r)
            &&& there(after, r) == Some(
                match there(s, r)->Some_0 {
                    ObjectModel::Array(_) => ObjectModel::Array(seq![]),
                    ObjectModel::Dict(_) => ObjectModel::Dict(seq![]),
                    _ => ObjectModel::ItemSet(seq![]),
                },
            )
        }),
{
    calling_is(c, s, n, native_of(n)->Some_0, seq![Value::Object(r)]);
    changed_only(s, r, ObjectModel::Array(seq![]));
    changed_only(s, r, ObjectModel::Dict(seq![]));
    changed_only(s, r, ObjectModel::ItemSet(seq![]));
}

/// A list contains a value exactly where one of its elements equals the value; the index
/// of a value is that of the first such element, and -1 where there is none.
pub proof fn list_search_law(
    c: Setting,
    s: StoreModel,
    contains: u16,
    index_of: u16,
    r: GcRef,
    xs: Seq<Value>,
    v: Value,
)
    requires
        native_of(contains) == Some(NativeId::ListContains),
        native_of(index_of) == Some(NativeId::ListIndexOf),
        is_list(s, r, xs),
        xs.len() <= i64::MAX,
        xs.len() <= usize::MAX,
    ensures
        calling(c, s, contains, seq![Value::Object(r), v]) == (
            Effect::Value(
                Value::Bool(
                    exists|i: int| 0 <= i < xs.len() && equal_values(c.module, s.heap, #[trigger] xs[i], v),
                ),
            ),
            s,
        ),
        ({
            let (e, after) = calling(c, s, index_of, seq![Value::Object(r), v]);
            &&& after == s
            &&& e matches Effect::Value(Value::Int(k))
            &&& k >= -1
            &&& k == -1 ==> forall|i: int|
                0 <= i < xs.len() ==> !equal_values(c.module, s.heap, #[trigger] xs[i], v)
            &&& k >= 0 ==> k < xs.len() && equal_values(c.module, s.heap, xs[k as int], v) && forall|i: int|
                0 <= i < k ==> !equal_values(c.module, s.heap, #[trigger] xs[i], v)
        }),
{
    calling_is(c, s, contains, NativeId::ListContains, seq![Value::Object(r), v]);
    calling_is(c, s, index_of, NativeId::ListIndexOf, seq![Value::Object(r), v]);
    place_found(c.module, s.heap, xs, v, 0);
    let p = place_of(c.module, s.heap, xs, v, 0);
    if p < xs.len() {
        assert(equal_values(c.module, s.heap, xs[p], v));
    }
}

/// What was added to a list is in it: a value that equals itself is contained right after
/// it was added.
pub proof fn added_is_contained(
    c: Setting,
    s: StoreModel,
    add: u16,
    contains: u16,
    r: GcRef,
    xs: Seq<Value>,
    v: Value,
)
    requires
        native_of(add) == Some(NativeId::ListAdd),
        native_of(contains) == Some(NativeId::ListContains),
        is_list(s, r, xs),
        equal_values(c.module, calling(c, s, add, seq![Value::Object(r), v]).1.heap, v, v),
    ensures
        ({
            let after = calling(c, s, add, seq![Value::Object(r), v]).1;
            calling(c, after, contains, seq![Value::Object(r), v]).0 == Effect::Value(Value::Bool(true))
        }),
{
    list_add_law(c, s, add, r, xs, v);
    let after = calling(c, s, add, seq![Value::Object(r), v]).1;
    calling_is(c, after, contains, NativeId::ListContains, seq![Value::Object(r), v]);
    let ys = xs + seq![v];
    place_found(c.module, after.heap, ys, v, 0);
    assert(ys[xs.len() as int] == v);
}

// ---------------------------------------------------------------------------
// Maps
// ---------------------------------------------------------------------------

/// A map has an entry at `i`, and it is the first one whose key equals `k`.
pub open spec fn first_entry(module: Module, h: HeapModel, es: Seq<(Value, Value)>, k: Value, i: int) -> bool {
    &&& 0 <= i < es.len()
    &&& equal_values(module, h, es[i].0, k)
    &&& forall|j: int| 0 <= j < i ==> !equal_values(module, h, (#[trigger] es[j]).0, k)
}

/// No key of a map equals `k`.
pub open spec fn no_entry(module: Module, h: HeapModel, es: Seq<(Value, Value)>, k: Value) -> bool {
    forall|j: int| 0 <= j < es.len() ==> !equal_values(module, h, (#[trigger] es[j]).0, k)
}

proof fn entry_place(module: Module, h: HeapModel, es: Seq<(Value, Value)>, k: Value) -> (p: int)
    ensures
        p == place_of(module, h, keys_of(es), k, 0),
        0 <= p <= es.len(),
        p < es.len() ==> first_entry(module, h, es, k, p),
        p == es.len() ==> no_entry(module, h, es, k),
{
    let ks = keys_of(es);
    place_found(module, h, ks, k, 0);
    let p = place_of(module, h, ks, k, 0);
    assert forall|j: int| 0 <= j < p implies !equal_values(module, h, (#[trigger] es[j]).0, k) by {
        assert(ks[j] == es[j].0);
    }
    p
}

/// Reading a map changes nothing: a key is there exactly where an entry has a key that
/// equals it, its value is that of the first such entry, and where there is none there is
/// no value; the count is the number of entries.
pub proof fn map_read_law(
    c: Setting,
    s: StoreModel,
    get: u16,
    has: u16,
    count: u16,
    r: GcRef,
    es: Seq<(Value, Value)>,
    k: Value,
    i: int,
)
    requires
        native_of(get) == Some(NativeId::MapGet),
        native_of(has) == Some(NativeId::MapContainsKey),
        native_of(count) == Some(NativeId::MapCount),
        is_map(s, r, es),
        es.len() <= i64::MAX,
        es.len() <= usize::MAX,
    ensures
        calling(c, s, count, seq![Value::Object(r)]) == (Effect::Value(Value::Int(es.len() as i64)), s),
        first_entry(c.module, s.heap, es, k, i) ==> {
            &&& calling(c, s, has, seq![Value::Object(r), k]) == (Effect::Value(Value::Bool(true)), s)
            &&& calling(c, s, get, seq![Value::Object(r), k]) == (Effect::Value(es[i].1), s)
        },
        no_entry(c.module, s.heap, es, k) ==> {
            &&& calling(c, s, has, seq![Value::Object(r), k]) == (Effect::Value(Value::Bool(false)), s)
            &&& calling(c, s, get, seq![Value::Object(r), k]).1 == s
            &&& !(calling(c, s, get, seq![Value::Object(r), k]).0 is Value)
        },
{
    calling_is(c, s, get, NativeId::MapGet, seq![Value::Object(r), k]);
    calling_is(c, s, has, NativeId::MapContainsKey, seq![Value::Object(r), k]);
    calling_is(c, s, count, NativeId::MapCount, seq![Value::Object(r)]);
    let p = entry_place(c.module, s.heap, es, k);
    if first_entry(c.module, s.heap, es, k, i) {
        if p < i {
            assert(!equal_values(c.module, s.heap, es[p].0, k));
        }
        if p < es.len() && i < p {
            assert(!equal_values(c.module, s.heap, es[i].0, k));
        }
        if p == es.len() {
            assert(!equal_values(c.module, s.heap, es[i].0, k));
        }
    }
    if no_entry(c.module, s.heap, es, k) && p < es.len() {
        assert(!equal_values(c.module, s.heap, es[p].0, k));
    }
}

/// Putting a value under a key changes the value of the first entry with that key, and
/// adds an entry behind the others where there is none. Removing a key takes that entry
/// away, and says whether there was one.
pub proof fn map_write_law(
    c: Setting,
    s: StoreModel,
    put: u16,
    remove: u16,
    r: GcRef,
    es: Seq<(Value, Value)>,
    k: Value,
    v: Value,
    i: int,
)
    requires
        native_of(put) == Some(NativeId::MapPut),
        native_of(remove) == Some(NativeId::MapRemove),
        is_map(s, r, es),
    ensures
        ({
            let (e, after) = calling(c, s, put, seq![Value::Object(r), k, v]);
            &&& e == Effect::Value(Value::Unit)
            &&& only_at(s, after, r)
            &&& first_entry(c.module, s.heap, es, k, i) ==> is_map(
                after,
                r,
                es.subrange(0, i) + seq![(es[i].0, v)] + es.subrange(i + 1, es.len() as int),
            )
            &&& no_entry(c.module, s.heap, es, k) ==> is_map(after, r, es + seq![(k, v)])
        }),
        ({
            let (e, after) = calling(c, s, remove, seq![Value::Object(r), k]);
            &&& first_entry(c.module, s.heap, es, k, i) ==> e == Effect::Value(Value::Bool(true)) && only_at(
                s,
                after,
                r,
            ) && is_map(after, r, es.subrange(0, i) + es.subrange(i + 1, es.len() as int))
            &&& no_entry(c.module, s.heap, es, k) ==> e == Effect::Value(Value::Bool(false)) && after == s
        }),
{
    calling_is(c, s, put, NativeId::MapPut, seq![Value::Object(r), k, v]);
    calling_is(c, s, remove, NativeId::MapRemove, seq![Value::Object(r), k]);
    let p = entry_place(c.module, s.heap, es, k);
    if first_entry(c.module, s.heap, es, k, i) {
        if p < i {
            assert(!equal_values(c.module, s.heap, es[p].0, k));
        }
        if i < p {
            assert(!equal_values(c.module, s.heap, es[i].0, k));
        }
        assert(es.update(i, (es[i].0, v)) =~= es.subrange(0, i) + seq![(es[i].0, v)] + es.subrange(
            i + 1,
            es.len() as int,
        ));
        assert(es.remove(i) =~= es.subrange(0, i) + es.subrange(i + 1, es.len() as int));
        changed_only(s, r, ObjectModel::Dict(es.remove(i)));
    }
    if no_entry(c.module, s.heap, es, k) {
        if p < es.len() {
            assert(!equal_values(c.module, s.heap, es[p].0, k));
        }
        assert(es.push((k, v)) =~= es + seq![(k, v)]);
    }
    changed_only(
        s,
        r,
        ObjectModel::Dict(crate::vm::collections::with_entry(es, p, k, v)),
    );
}

/// What was put under a key is got from it, where the key equals itself and the change of
/// the map does not change what equals the key.
pub proof fn put_is_got(
    c: Setting,
    s: StoreModel,
    put: u16,
    get: u16,
    has: u16,
    count: u16,
    r: GcRef,
    es: Seq<(Value, Value)>,
    k: Value,
    v: Value,
)
    requires
        native_of(put) == Some(NativeId::MapPut),
        native_of(get) == Some(NativeId::MapGet),
        native_of(has) == Some(NativeId::MapContainsKey),
        native_of(count) == Some(NativeId::MapCount),
        is_map(s, r, es),
        es.len() < i64::MAX,
        es.len() < usize::MAX,
        ({
            let h = calling(c, s, put, seq![Value::Object(r), k, v]).1.heap;
            &&& equal_values(c.module, h, k, k)
            &&& forall|j: int|
                0 <= j < es.len() ==> equal_values(c.module, h, (#[trigger] es[j]).0, k) == equal_values(
                    c.module,
                    s.heap,
                    es[j].0,
                    k,
                )
        }),
    ensures
        ({
            let after = calling(c, s, put, seq![Value::Object(r), k, v]).1;
            &&& calling(c, after, get, seq![Value::Object(r), k]) == (Effect::Value(v), after)
            &&& calling(c, after, has, seq![Value::Object(r), k]).0 == Effect::Value(Value::Bool(true))
        }),
{
    let p = entry_place(c.module, s.heap, es, k);
    map_write_law(c, s, put, 14, r, es, k, v, p);
    let after = calling(c, s, put, seq![Value::Object(r), k, v]).1;
    if p < es.len() {
        let now = es.subrange(0, p) + seq![(es[p].0, v)] + es.subrange(p + 1, es.len() as int);
        assert forall|j: int| 0 <= j < p implies !equal_values(
            c.module,
            after.heap,
            (#[trigger] now[j]).0,
            k,
        ) by {
            assert(now[j] == es[j]);
        }
        assert(first_entry(c.module, after.heap, now, k, p));
        map_read_law(c, after, get, has, count, r, now, k, p);
    } else {
        let now = es + seq![(k, v)];
        assert forall|j: int| 0 <= j < p implies !equal_values(
            c.module,
            after.heap,
            (#[trigger] now[j]).0,
            k,
        ) by {
            assert(now[j] == es[j]);
        }
        assert(first_entry(c.module, after.heap, now, k, p));
        map_read_law(c, after, get, has, count, r, now, k, p);
    }
}

/// The keys and the values of a map are handed out as a new list, in the order of the
/// entries; so are the elements of a set.
pub proof fn listing_law(
    c: Setting,
    s: StoreModel,
    keys: u16,
    values: u16,
    elements: u16,
    r: GcRef,
    es: Seq<(Value, Value)>,
    q: GcRef,
    xs: Seq<Value>,
)
    requires
        native_of(keys) == Some(NativeId::MapKeys),
        native_of(values) == Some(NativeId::MapValues),
        native_of(elements) == Some(NativeId::SetToList),
        is_map(s, r, es),
        is_set(s, q, xs),
        s.heap.next < usize::MAX,
    ensures
        ({
            let new = GcRef(s.heap.next);
            let (e, after) = calling(c, s, keys, seq![Value::Object(r)]);
            &&& e == Effect::Value(Value::Object(new))
            &&& only_new(s, after, new)
            &&& there(after, new) matches Some(ObjectModel::Array(ks))
            &&& ks.len() == es.len()
            &&& forall|i: int| 0 <= i < es.len() ==> #[trigger] ks[i] == es[i].0
        }),
        ({
            let new = GcRef(s.heap.next);
            let (e, after) = calling(c, s, values, seq![Value::Object(r)]);
            &&& e == Effect::Value(Value::Object(new))
            &&& only_new(s, after, new)
            &&& there(after, new) matches Some(ObjectModel::Array(vs))
            &&& vs.len() == es.len()
            &&& forall|i: int| 0 <= i < es.len() ==> #[trigger] vs[i] == es[i].1
        }),
        ({
            let new = GcRef(s.heap.next);
            let (e, after) = calling(c, s, elements, seq![Value::Object(q)]);
            &&& e == Effect::Value(Value::Object(new))
            &&& only_new(s, after, new)
            &&& there(after, new) == Some(ObjectModel::Array(xs))
        }),
{
    calling_is(c, s, keys, NativeId::MapKeys, seq![Value::Object(r)]);
    calling_is(c, s, values, NativeId::MapValues, seq![Value::Object(r)]);
    calling_is(c, s, elements, NativeId::SetToList, seq![Value::Object(q)]);
    made_only(s, crate::vm::ops::Boxed::Thing, ObjectModel::Array(keys_of(es)));
    made_only(s, crate::vm::ops::Boxed::Thing, ObjectModel::Array(values_of(es)));
    made_only(s, crate::vm::ops::Boxed::Thing, ObjectModel::Array(xs));
}

// ---------------------------------------------------------------------------
// Sets
// ---------------------------------------------------------------------------

/// An element of a set equals `v`.
pub open spec fn is_element(module: Module, h: HeapModel, xs: Seq<Value>, v: Value) -> bool {
    exists|i: int| 0 <= i < xs.len() && equal_values(module, h, #[trigger] xs[i], v)
}

/// A set contains a value exactly where one of its elements equals it. Adding a value that
/// it contains changes nothing and says so; else the value is added. Removing takes the
/// first element that equals the value away, and says whether there was one.
pub proof fn set_law(
    c: Setting,
    s: StoreModel,
    has: u16,
    add: u16,
    remove: u16,
    count: u16,
    r: GcRef,
    xs: Seq<Value>,
    v: Value,
)
    requires
        native_of(has) == Some(NativeId::SetContains),
        native_of(add) == Some(NativeId::SetAdd),
        native_of(remove) == Some(NativeId::SetRemove),
        native_of(count) == Some(NativeId::SetCount),
        is_set(s, r, xs),
        xs.len() <= i64::MAX,
        xs.len() <= usize::MAX,
    ensures
        calling(c, s, count, seq![Value::Object(r)]) == (Effect::Value(Value::Int(xs.len() as i64)), s),
        calling(c, s, has, seq![Value::Object(r), v]) == (
            Effect::Value(Value::Bool(is_element(c.module, s.heap, xs, v))),
            s,
        ),
        ({
            let (e, after) = calling(c, s, add, seq![Value::Object(r), v]);
            &&& e == Effect::Value(Value::Bool(!is_element(c.module, s.heap, xs, v)))
            &&& is_element(c.module, s.heap, xs, v) ==> after == s
            &&& !is_element(c.module, s.heap, xs, v) ==> only_at(s, after, r) && is_set(
                after,
                r,
                xs + seq![v],
            )
        }),
        ({
            let (e, after) = calling(c, s, remove, seq![Value::Object(r), v]);
            &&& e == Effect::Value(Value::Bool(is_element(c.module, s.heap, xs, v)))
            &&& !is_element(c.module, s.heap, xs, v) ==> after == s
            &&& is_element(c.module, s.heap, xs, v) ==> only_at(s, after, r) && exists|i: int|
                0 <= i < xs.len() && equal_values(c.module, s.heap, #[trigger] xs[i], v) && (forall|j: int|
                    0 <= j < i ==> !equal_values(c.module, s.heap, #[trigger] xs[j], v)) && is_set(
                    after,
                    r,
                    xs.subrange(0, i) + xs.subrange(i + 1, xs.len() as int),
                )
        }),
{
    calling_is(c, s, has, NativeId::SetContains, seq![Value::Object(r), v]);
    calling_is(c, s, add, NativeId::SetAdd, seq![Value::Object(r), v]);
    calling_is(c, s, remove, NativeId::SetRemove, seq![Value::Object(r), v]);
    calling_is(c, s, count, NativeId::SetCount, seq![Value::Object(r)]);
    place_found(c.module, s.heap, xs, v, 0);
    let p = place_of(c.module, s.heap, xs, v, 0);
    if p < xs.len() {
        assert(equal_values(c.module, s.heap, xs[p], v));
        assert(xs.remove(p) =~= xs.subrange(0, p) + xs.subrange(p + 1, xs.len() as int));
        changed_only(s, r, ObjectModel::ItemSet(xs.remove(p)));
    } else {
        assert(xs.push(v) =~= xs + seq![v]);
        changed_only(s, r, ObjectModel::ItemSet(xs.push(v)));
    }
}

/// A native function of lists, maps, sets or strings on anything else is an error that
/// changes nothing, and so is one with another number of arguments.
pub proof fn receiver_law(c: Setting, s: StoreModel, n: u16, id: NativeId, args: Seq<Value>)
    requires
        native_of(n) == Some(id),
    ensures
        args.len() != native_arity(id) ==> calling(c, s, n, args).0 is Failed && calling(c, s, n, args).1 == s,
        args.len() == native_arity(id) && (id is ListAdd || id is ListGet || id is ListSet || id is ListInsert
            || id is ListRemoveAt || id is ListIndexOf || id is ListContains || id is ListClear
            || id is ListCount) && !(args[0] matches Value::Object(r) && (there(s, r) matches Some(
            ObjectModel::Array(_),
        ))) ==> calling(c, s, n, args).0 is Failed && calling(c, s, n, args).1 == s,
        args.len() == native_arity(id) && (id is MapPut || id is MapGet || id is MapContainsKey || id is MapRemove
            || id is MapKeys || id is MapValues || id is MapClear || id is MapCount) && !(args[0]
            matches Value::Object(r) && (there(s, r) matches Some(ObjectModel::Dict(_)))) ==> calling(
            c,
            s,
            n,
            args,
        ).0 is Failed && calling(c, s, n, args).1 == s,
        args.len() == native_arity(id) && (id is SetAdd || id is SetContains || id is SetRemove || id is SetToList
            || id is SetClear || id is SetCount) && !(args[0] matches Value::Object(r) && (there(s, r)
            matches Some(ObjectModel::ItemSet(_)))) ==> calling(c, s, n, args).0 is Failed && calling(
            c,
            s,
            n,
            args,
        ).1 == s,
        args.len() == native_arity(id) && (id is StrLength || id is StrSubstring || id is StrCharAt
            || id is StrContains || id is StrStartsWith || id is StrEndsWith || id is StrIndexOf
            || id is StrSplit || id is StrTrim || id is StrToUpper || id is StrToLower || id is StrReplace
            || id is StrToInt || id is StrToFloat) && !(args[0] matches Value::String(r) && (there(s, r)
            matches Some(ObjectModel::String(_)))) ==> calling(c, s, n, args).0 is Failed && calling(
            c,
            s,
            n,
            args,
        ).1 == s,
{
    if args.len() == native_arity(id) {
        calling_is(c, s, n, id, args);
    } else {
        reveal(calling);
    }
}

} // verus!
