//! No reference dangles: whatever a machine executes and whenever it collects,
//! every handle in a frame, a static field or an object has its object.

use crate::bytecode::{
    class_of, method_of, ClassId, ExceptionHandler, FieldDef, MethodId, Module, Op, TypeDesc,
};
use crate::natives::{native_arity, native_of, NativeId};
use crate::vm::apply::{apply_effect, binary_effect, is_binary, is_unary, unary_effect};
use crate::vm::collections::{
    changed, dict_effect, dict_in, keys_of, list_effect, list_in, place_of, set_effect, set_in,
    values_of, with_entry,
};
use crate::vm::describe::{exception_parts, field_place, stack_trace};
use crate::vm::frames::{new_frame, operands, taken, FrameModel};
use crate::vm::heap::{
    after_collect, after_major, after_minor, allocation_law, barrier, barrier_after_collect,
    barrier_with_change, barrier_with_object, change_law, heap_ok, kept_at, leads_to,
    major_is_exact, major_keeps, minor_first, minor_keeps, minor_seed, object_at, object_from_some,
    reached_in, with_change, with_object, HeapModel,
};
use crate::vm::machine::{
    advanced, calls_of, frame_effect, fresh, handled, invoked, pushed, raised, settled, stepped, used,
    with_top, VmModel,
};
use crate::vm::ops::{
    class_in, concat_from, field_defaults, load_static, made, new_effect, statics_place, store_field,
    store_static, stored, traced, with_heap, Boxed, StoreModel,
};
use crate::vm::roots::{
    at_safepoint, collection_keeps, frame_is_rooted, kept_back, major_is_in_order, minor_is_in_order,
    roots_of, statics_are_rooted,
};
use crate::vm::stdlib::{
    family, file_effect, native_effect, str_of, stored_texts, text_effect, text_list, Family,
};
use crate::vm::strings::{chomped, lines_from};
use crate::vm::value::{handle_in, points_to, some_holds, GcRef, ObjectModel, Value};
use crate::vm::world::{Answers, Effect, ReplyModel};
use vstd::prelude::*;

verus! {

/// The handle in a value, if any, has an object.
pub open spec fn alive(h: HeapModel, v: Value) -> bool {
    handle_in(v) matches Some(x) ==> object_at(h.objects, x) is Some
}

/// All values are alive.
pub open spec fn all_alive(h: HeapModel, vs: Seq<Value>) -> bool {
    forall|i: int| 0 <= i < vs.len() ==> alive(h, #[trigger] vs[i])
}

/// Every handle in an object has an object.
pub open spec fn object_alive(h: HeapModel, o: ObjectModel) -> bool {
    forall|x: usize| #[trigger] points_to(o, x) ==> object_at(h.objects, x) is Some
}

/// A heap that obeys the write barrier and in which no reference dangles.
pub open spec fn sound_heap(h: HeapModel) -> bool {
    &&& heap_ok(h)
    &&& barrier(h)
    &&& forall|g: usize, x: usize| #[trigger]
        leads_to(h.objects, 0, g, x) ==> object_at(h.objects, x) is Some
}

/// A heap and static fields in which no reference dangles.
pub open spec fn sound_store(s: StoreModel) -> bool {
    &&& sound_heap(s.heap)
    &&& forall|i: int| 0 <= i < s.statics.len() ==> all_alive(s.heap, (#[trigger] s.statics[i]).1)
}

/// No reference in a frame dangles.
pub open spec fn frame_alive(h: HeapModel, f: FrameModel) -> bool {
    &&& all_alive(h, f.locals)
    &&& all_alive(h, f.stack)
    &&& f.after_finally matches Some(v) ==> alive(h, v)
}

/// No reference in frames dangles.
pub open spec fn frames_alive(h: HeapModel, fs: Seq<FrameModel>) -> bool {
    forall|i: int| 0 <= i < fs.len() ==> frame_alive(h, #[trigger] fs[i])
}

/// A machine in which no reference dangles.
pub open spec fn sound(m: VmModel) -> bool {
    &&& sound_store(m.store)
    &&& frames_alive(m.store.heap, m.frames)
}

/// No reference in what came of an operation dangles.
pub open spec fn effect_alive(h: HeapModel, e: Effect) -> bool {
    match e {
        Effect::Value(v) => alive(h, v),
        Effect::Thrown(v) => alive(h, v),
        Effect::Invoke(_, args) => all_alive(h, args),
        _ => true,
    }
}

/// What has an object has one later.
pub open spec fn extends(h: HeapModel, later: HeapModel) -> bool {
    forall|x: usize|
        object_at(h.objects, x) is Some ==> #[trigger] object_at(later.objects, x) is Some
}

/// What came of an operation, and the store after it: no reference dangles, and
/// nothing has gone.
pub open spec fn keeps(s: StoreModel, e: Effect, later: StoreModel) -> bool {
    &&& sound_store(later)
    &&& extends(s.heap, later.heap)
    &&& effect_alive(later.heap, e)
}

// ---------------------------------------------------------------------------
// Changes of the heap
// ---------------------------------------------------------------------------

proof fn later_alive(h: HeapModel, later: HeapModel, vs: Seq<Value>)
    requires
        extends(h, later),
        all_alive(h, vs),
    ensures
        all_alive(later, vs),
{
    assert forall|i: int| 0 <= i < vs.len() implies alive(later, #[trigger] vs[i]) by {
        assert(alive(h, vs[i]));
    }
}

proof fn later_statics(s: StoreModel, later: HeapModel)
    requires
        sound_store(s),
        extends(s.heap, later),
        sound_heap(later),
    ensures
        sound_store(with_heap(s, later)),
{
    assert forall|i: int| 0 <= i < s.statics.len() implies all_alive(
        later,
        (#[trigger] s.statics[i]).1,
    ) by {
        later_alive(s.heap, later, s.statics[i].1);
    }
}

proof fn later_frames(h: HeapModel, later: HeapModel, fs: Seq<FrameModel>)
    requires
        extends(h, later),
        frames_alive(h, fs),
    ensures
        frames_alive(later, fs),
{
    assert forall|i: int| 0 <= i < fs.len() implies frame_alive(later, #[trigger] fs[i]) by {
        later_alive(h, later, fs[i].locals);
        later_alive(h, later, fs[i].stack);
    }
}

/// Values that are alive make an object whose references are.
proof fn holds_alive(h: HeapModel, vs: Seq<Value>, x: usize)
    requires
        all_alive(h, vs),
        some_holds(vs, x),
    ensures
        object_at(h.objects, x) is Some,
{
    let i = choose|i: int| 0 <= i < vs.len() && handle_in(#[trigger] vs[i]) == Some(x);
    assert(alive(h, vs[i]));
}

/// The values of an object on the heap are alive.
proof fn contents_alive(h: HeapModel, r: usize, vs: Seq<Value>)
    requires
        sound_heap(h),
        object_at(h.objects, r) matches Some(o) && forall|x: usize|
            some_holds(vs, x) ==> #[trigger] points_to(o, x),
    ensures
        all_alive(h, vs),
{
    let o = object_at(h.objects, r)->0;
    assert forall|i: int| 0 <= i < vs.len() implies alive(h, #[trigger] vs[i]) by {
        if let Some(x) = handle_in(vs[i]) {
            assert(some_holds(vs, x));
            assert(points_to(o, x));
            assert(leads_to(h.objects, 0, r, x));
        }
    }
}

/// A new object.
proof fn object_keeps(h: HeapModel, o: ObjectModel)
    requires
        sound_heap(h),
        h.next < usize::MAX,
        object_alive(h, o),
    ensures
        sound_heap(with_object(h, o)),
        extends(h, with_object(h, o)),
        object_at(with_object(h, o).objects, h.next) is Some,
{
    let w = with_object(h, o);
    assert forall|x: usize| points_to(o, x) implies x < h.next by {
        let p = object_from_some(h.objects, x, 0);
        assert(h.objects[p].0 < h.next);
    }
    barrier_with_object(h, o);
    allocation_law(h, o, h.next);
    assert forall|x: usize| object_at(h.objects, x) is Some implies #[trigger] object_at(
        w.objects,
        x,
    ) is Some by {
        allocation_law(h, o, x);
    }
    assert forall|g: usize, x: usize| #[trigger] leads_to(w.objects, 0, g, x) implies object_at(
        w.objects,
        x,
    ) is Some by {
        allocation_law(h, o, g);
        if g == h.next {
            assert(points_to(o, x));
        } else {
            assert(leads_to(h.objects, 0, g, x));
        }
        assert(object_at(h.objects, x) is Some);
    }
    assert(heap_ok(w)) by {
        assert forall|i: int, j: int| 0 <= i < j < w.objects.len() implies (
        #[trigger] w.objects[i]).0 < (#[trigger] w.objects[j]).0 by {
            assert(w.objects[i] == h.objects[i]);
        }
    }
}

/// Another object behind a handle.
proof fn change_keeps(h: HeapModel, r: usize, o: ObjectModel)
    requires
        sound_heap(h),
        object_at(h.objects, r) is Some,
        object_alive(h, o),
    ensures
        sound_heap(with_change(h, r, o)),
        extends(h, with_change(h, r, o)),
{
    let w = with_change(h, r, o);
    assert forall|x: usize| points_to(o, x) implies x < h.next by {
        let p = object_from_some(h.objects, x, 0);
        assert(h.objects[p].0 < h.next);
    }
    barrier_with_change(h, r, o);
    change_law(h, r, o, r);
    assert forall|x: usize| object_at(h.objects, x) is Some implies #[trigger] object_at(
        w.objects,
        x,
    ) is Some by {
        change_law(h, r, o, x);
    }
    assert forall|g: usize, x: usize| #[trigger] leads_to(w.objects, 0, g, x) implies object_at(
        w.objects,
        x,
    ) is Some by {
        change_law(h, r, o, g);
        if g == r {
            assert(points_to(o, x));
        } else {
            assert(leads_to(h.objects, 0, g, x));
        }
        assert(object_at(h.objects, x) is Some);
    }
}

proof fn stored_keeps(s: StoreModel, o: ObjectModel)
    requires
        sound_store(s),
        object_alive(s.heap, o),
    ensures
        sound_store(stored(s, o)),
        extends(s.heap, stored(s, o).heap),
        s.heap.next < usize::MAX ==> object_at(stored(s, o).heap.objects, s.heap.next) is Some,
{
    if s.heap.next < usize::MAX {
        object_keeps(s.heap, o);
        later_statics(s, with_object(s.heap, o));
    }
}

proof fn made_keeps(s: StoreModel, b: Boxed, o: ObjectModel)
    requires
        sound_store(s),
        object_alive(s.heap, o),
    ensures
        keeps(s, made(s, b, o).0, made(s, b, o).1),
{
    stored_keeps(s, o);
}

proof fn changed_keeps(s: StoreModel, e: Effect, r: usize, o: ObjectModel)
    requires
        sound_store(s),
        object_at(s.heap.objects, r) is Some,
        object_alive(s.heap, o),
        effect_alive(s.heap, e),
    ensures
        keeps(s, e, changed(s, r, o)),
{
    change_keeps(s.heap, r, o);
    let later = with_change(s.heap, r, o);
    later_statics(s, later);
    if let Effect::Invoke(_, args) = e {
        later_alive(s.heap, later, args);
    }
}

// ---------------------------------------------------------------------------
// Native functions
// ---------------------------------------------------------------------------

proof fn array_alive(h: HeapModel, vs: Seq<Value>)
    requires
        all_alive(h, vs),
    ensures
        object_alive(h, ObjectModel::Array(vs)),
        object_alive(h, ObjectModel::ItemSet(vs)),
        object_alive(h, ObjectModel::Tuple(vs)),
        forall|c: ClassId| #[trigger] object_alive(h, ObjectModel::Instance(c, vs)),
        forall|e: u32, k: u32| #[trigger] object_alive(h, ObjectModel::Enum(e, k, vs)),
{
    assert forall|x: usize| some_holds(vs, x) implies #[trigger] object_at(h.objects, x) is Some by {
        holds_alive(h, vs, x);
    }
}

/// All keys and values of a map are alive.
pub open spec fn entries_alive(h: HeapModel, es: Seq<(Value, Value)>) -> bool {
    forall|i: int| 0 <= i < es.len() ==> alive(h, (#[trigger] es[i]).0) && alive(h, es[i].1)
}

proof fn dict_alive(h: HeapModel, es: Seq<(Value, Value)>)
    requires
        entries_alive(h, es),
    ensures
        object_alive(h, ObjectModel::Dict(es)),
{
    assert forall|x: usize| #[trigger] points_to(ObjectModel::Dict(es), x) implies object_at(
        h.objects,
        x,
    ) is Some by {
        let i = choose|i: int|
            0 <= i < es.len() && (handle_in((#[trigger] es[i]).0) == Some(x) || handle_in(es[i].1)
                == Some(x));
        assert(alive(h, es[i].0) && alive(h, es[i].1));
    }
}

proof fn entries_found(h: HeapModel, r: usize, es: Seq<(Value, Value)>)
    requires
        sound_heap(h),
        object_at(h.objects, r) == Some(ObjectModel::Dict(es)),
    ensures
        entries_alive(h, es),
{
    assert forall|i: int| 0 <= i < es.len() implies alive(h, (#[trigger] es[i]).0) && alive(
        h,
        es[i].1,
    ) by {
        if let Some(x) = handle_in(es[i].0) {
            assert(points_to(ObjectModel::Dict(es), x));
            assert(leads_to(h.objects, 0, r, x));
        }
        if let Some(x) = handle_in(es[i].1) {
            assert(points_to(ObjectModel::Dict(es), x));
            assert(leads_to(h.objects, 0, r, x));
        }
    }
}

proof fn list_keeps(
    module: Module,
    s: StoreModel,
    w: Answers,
    id: NativeId,
    args: Seq<Value>,
    r: usize,
    xs: Seq<Value>,
)
    requires
        sound_store(s),
        all_alive(s.heap, args),
        args.len() == native_arity(id),
        object_at(s.heap.objects, r) == Some(ObjectModel::Array(xs)),
    ensures
        ({
            let (e, later) = list_effect(module, s, w, id, args, r, xs);
            keeps(s, e, later)
        }),
{
    let (e, later) = list_effect(module, s, w, id, args, r, xs);
    contents_alive(s.heap, r, xs);
    match id {
        NativeId::ListAdd => {
            array_alive(s.heap, xs.push(args[1]));
            changed_keeps(s, e, r, ObjectModel::Array(xs.push(args[1])));
        },
        NativeId::ListSet => {
            if later != s {
                let i = args[1]->Int_0 as int;
                array_alive(s.heap, xs.update(i, args[2]));
                changed_keeps(s, e, r, ObjectModel::Array(xs.update(i, args[2])));
            }
        },
        NativeId::ListInsert => {
            if later != s {
                let i = args[1]->Int_0 as int;
                array_alive(s.heap, xs.insert(i, args[2]));
                changed_keeps(s, e, r, ObjectModel::Array(xs.insert(i, args[2])));
            }
        },
        NativeId::ListRemoveAt => {
            if later != s {
                let i = args[1]->Int_0 as int;
                array_alive(s.heap, xs.remove(i));
                changed_keeps(s, e, r, ObjectModel::Array(xs.remove(i)));
            }
        },
        NativeId::ListClear => {
            array_alive(s.heap, Seq::empty());
            changed_keeps(s, e, r, ObjectModel::Array(Seq::empty()));
        },
        _ => {},
    }
}

proof fn dict_keeps(
    module: Module,
    s: StoreModel,
    w: Answers,
    id: NativeId,
    args: Seq<Value>,
    r: usize,
    es: Seq<(Value, Value)>,
)
    requires
        sound_store(s),
        all_alive(s.heap, args),
        args.len() == native_arity(id),
        object_at(s.heap.objects, r) == Some(ObjectModel::Dict(es)),
    ensures
        ({
            let (e, later) = dict_effect(module, s, w, id, args, r, es);
            keeps(s, e, later)
        }),
{
    let (e, later) = dict_effect(module, s, w, id, args, r, es);
    let p = place_of(module, s.heap, keys_of(es), args[1], 0);
    place_bounds(module, s.heap, keys_of(es), args[1], 0);
    entries_found(s.heap, r, es);
    match id {
        NativeId::MapPut => {
            let next = with_entry(es, p, args[1], args[2]);
            dict_alive(s.heap, next);
            changed_keeps(s, e, r, ObjectModel::Dict(next));
        },
        NativeId::MapRemove => {
            if p < es.len() {
                dict_alive(s.heap, es.remove(p));
                changed_keeps(s, e, r, ObjectModel::Dict(es.remove(p)));
            }
        },
        NativeId::MapKeys => {
            array_alive(s.heap, keys_of(es));
            made_keeps(s, Boxed::Thing, ObjectModel::Array(keys_of(es)));
        },
        NativeId::MapValues => {
            array_alive(s.heap, values_of(es));
            made_keeps(s, Boxed::Thing, ObjectModel::Array(values_of(es)));
        },
        NativeId::MapClear => {
            dict_alive(s.heap, Seq::empty());
            changed_keeps(s, e, r, ObjectModel::Dict(Seq::empty()));
        },
        _ => {},
    }
}

proof fn place_bounds(module: Module, h: HeapModel, xs: Seq<Value>, v: Value, i: int)
    requires
        0 <= i,
    ensures
        0 <= place_of(module, h, xs, v, i) <= xs.len(),
    decreases xs.len() - i,
{
    if i < xs.len() {
        place_bounds(module, h, xs, v, i + 1);
    }
}

proof fn set_keeps(
    module: Module,
    s: StoreModel,
    id: NativeId,
    args: Seq<Value>,
    r: usize,
    xs: Seq<Value>,
)
    requires
        sound_store(s),
        all_alive(s.heap, args),
        args.len() == native_arity(id),
        object_at(s.heap.objects, r) == Some(ObjectModel::ItemSet(xs)),
    ensures
        ({
            let (e, later) = set_effect(module, s, id, args, r, xs);
            keeps(s, e, later)
        }),
{
    let (e, later) = set_effect(module, s, id, args, r, xs);
    let p = place_of(module, s.heap, xs, args[1], 0);
    place_bounds(module, s.heap, xs, args[1], 0);
    contents_alive(s.heap, r, xs);
    match id {
        NativeId::SetAdd => {
            if p >= xs.len() {
                array_alive(s.heap, xs.push(args[1]));
                changed_keeps(s, e, r, ObjectModel::ItemSet(xs.push(args[1])));
            }
        },
        NativeId::SetRemove => {
            if p < xs.len() {
                array_alive(s.heap, xs.remove(p));
                changed_keeps(s, e, r, ObjectModel::ItemSet(xs.remove(p)));
            }
        },
        NativeId::SetToList => {
            array_alive(s.heap, xs);
            made_keeps(s, Boxed::Thing, ObjectModel::Array(xs));
        },
        NativeId::SetClear => {
            array_alive(s.heap, Seq::empty());
            changed_keeps(s, e, r, ObjectModel::ItemSet(Seq::empty()));
        },
        _ => {},
    }
}

proof fn texts_keep(s: StoreModel, ts: Seq<Seq<char>>, n: int)
    requires
        sound_store(s),
    ensures
        ({
            let (vs, later) = stored_texts(s, ts, n);
            &&& sound_store(later)
            &&& extends(s.heap, later.heap)
            &&& vs matches Ok(v) ==> all_alive(later.heap, v)
        }),
    decreases n,
{
    if n > 0 {
        texts_keep(s, ts, n - 1);
        let (vs, later) = stored_texts(s, ts, n - 1);
        if let Ok(v) = vs {
            let o = ObjectModel::String(ts[n - 1]);
            stored_keeps(later, o);
            later_alive(later.heap, stored(later, o).heap, v);
        }
    }
}

proof fn text_list_keeps(s: StoreModel, ts: Seq<Seq<char>>)
    requires
        sound_store(s),
    ensures
        keeps(s, text_list(s, ts).0, text_list(s, ts).1),
{
    texts_keep(s, ts, ts.len() as int);
    let (vs, later) = stored_texts(s, ts, ts.len() as int);
    if let Ok(v) = vs {
        array_alive(later.heap, v);
        made_keeps(later, Boxed::Thing, ObjectModel::Array(v));
    }
}

/// Strings hold no references.
proof fn text_keeps(s: StoreModel, t: Seq<char>)
    requires
        sound_store(s),
    ensures
        keeps(
            s,
            made(s, Boxed::Text, ObjectModel::String(t)).0,
            made(s, Boxed::Text, ObjectModel::String(t)).1,
        ),
{
    made_keeps(s, Boxed::Text, ObjectModel::String(t));
}

proof fn text_effect_keeps(
    module: Module,
    s: StoreModel,
    w: Answers,
    id: NativeId,
    args: Seq<Value>,
    t: Seq<char>,
)
    requires
        sound_store(s),
    ensures
        ({
            let (e, later) = text_effect(module, s, w, id, args, t);
            keeps(s, e, later)
        }),
{
    assert forall|u: Seq<char>|
        {
            let (e, later) = #[trigger] made(s, Boxed::Text, ObjectModel::String(u));
            keeps(s, e, later)
        } by {
        text_keeps(s, u);
    }
    assert forall|ts: Seq<Seq<char>>|
        {
            let (e, later) = #[trigger] text_list(s, ts);
            keeps(s, e, later)
        } by {
        text_list_keeps(s, ts);
    }
}

proof fn file_effect_keeps(
    s: StoreModel,
    w: Answers,
    id: NativeId,
    path: Seq<char>,
    contents: Seq<char>,
)
    requires
        sound_store(s),
    ensures
        ({
            let (e, later) = file_effect(s, w, id, path, contents);
            keeps(s, e, later)
        }),
{
    if let Some(ReplyModel::Text(t)) = w.reply {
        text_keeps(s, t);
        text_list_keeps(s, lines_from(t, 0));
    }
}

proof fn native_keeps(module: Module, s: StoreModel, w: Answers, id: NativeId, args: Seq<Value>)
    requires
        sound_store(s),
        all_alive(s.heap, args),
        args.len() == native_arity(id),
    ensures
        ({
            let (e, later) = native_effect(module, s, w, id, args);
            keeps(s, e, later)
        }),
{
    match family(id) {
        Family::Make => {
            array_alive(s.heap, Seq::empty());
            dict_alive(s.heap, Seq::empty());
            made_keeps(s, Boxed::Thing, ObjectModel::Array(Seq::empty()));
            made_keeps(s, Boxed::Thing, ObjectModel::ItemSet(Seq::empty()));
            made_keeps(s, Boxed::Thing, ObjectModel::Dict(Seq::empty()));
        },
        Family::List => {
            if let Some((r, xs)) = list_in(s.heap, args[0]) {
                list_keeps(module, s, w, id, args, r, xs);
            }
        },
        Family::Dict => {
            if let Some((r, es)) = dict_in(s.heap, args[0]) {
                dict_keeps(module, s, w, id, args, r, es);
            }
        },
        Family::Items => {
            if let Some((r, xs)) = set_in(s.heap, args[0]) {
                set_keeps(module, s, id, args, r, xs);
            }
        },
        Family::Text => {
            if let Ok(t) = str_of(s.heap, id, args[0]) {
                text_effect_keeps(module, s, w, id, args, t);
            }
        },
        Family::Line => {
            if let Some(ReplyModel::Text(l)) = w.reply {
                text_keeps(s, chomped(l));
            }
        },
        Family::File => {
            if let Ok(path) = str_of(s.heap, id, args[0]) {
                file_effect_keeps(s, w, id, path, Seq::empty());
                if let Ok(t) = str_of(s.heap, id, args[1]) {
                    file_effect_keeps(s, w, id, path, t);
                }
            }
        },
    }
}

// ---------------------------------------------------------------------------
// Operations
// ---------------------------------------------------------------------------

proof fn class_alive(h: HeapModel, v: Value)
    requires
        sound_heap(h),
    ensures
        class_in(h, v) matches Ok((r, c, f)) ==> all_alive(h, f) && object_at(h.objects, r)
            is Some,
{
    if let Ok((r, c, f)) = class_in(h, v) {
        contents_alive(h, r, f);
    }
}

proof fn store_field_keeps(s: StoreModel, idx: u16, args: Seq<Value>)
    requires
        sound_store(s),
        all_alive(s.heap, args),
    ensures
        keeps(s, store_field(s, idx, args).0, store_field(s, idx, args).1),
{
    if args.len() >= 2 {
        class_alive(s.heap, args[0]);
        if let Ok((r, c, f)) = class_in(s.heap, args[0]) {
            if idx < f.len() {
                let next = f.update(idx as int, args[1]);
                array_alive(s.heap, next);
                changed_keeps(s, Effect::Nothing, r, ObjectModel::Instance(c, next));
            }
        }
    }
}

proof fn statics_bounds(ss: Seq<(ClassId, Seq<Value>)>, id: ClassId, i: int)
    requires
        0 <= i <= ss.len(),
    ensures
        0 <= statics_place(ss, id, i) <= ss.len(),
    decreases ss.len() - i,
{
    if i < ss.len() {
        statics_bounds(ss, id, i + 1);
    }
}

proof fn statics_keep(s: StoreModel, id: ClassId, idx: u16, args: Seq<Value>)
    requires
        sound_store(s),
        all_alive(s.heap, args),
    ensures
        keeps(s, load_static(s, id, idx), s),
        keeps(s, store_static(s, id, idx, args).0, store_static(s, id, idx, args).1),
{
    let p = statics_place(s.statics, id, 0);
    statics_bounds(s.statics, id, 0);
    let later = store_static(s, id, idx, args).1;
    if p < s.statics.len() {
        assert(all_alive(s.heap, s.statics[p].1));
        assert forall|i: int| 0 <= i < later.statics.len() implies all_alive(
            later.heap,
            (#[trigger] later.statics[i]).1,
        ) by {
            assert(all_alive(s.heap, s.statics[i].1));
        }
    }
}

proof fn traced_keeps(module: Module, s: StoreModel, calls: Seq<MethodId>, v: Value)
    requires
        sound_store(s),
        alive(s.heap, v),
    ensures
        keeps(s, Effect::Thrown(v), traced(module, s, calls, v)),
{
    if let Some((c, class, f)) = exception_parts(module, s.heap, v) {
        let r = (v->Object_0).0;
        let p = field_place(class.fields@, "stackTrace"@, 0);
        if p < class.fields@.len() && s.heap.next < usize::MAX {
            let text = ObjectModel::String(stack_trace(module, calls));
            contents_alive(s.heap, r, f);
            stored_keeps(s, text);
            let next = stored(s, text);
            later_alive(s.heap, next.heap, f);
            if p < f.len() {
                place_of_field(class.fields@, "stackTrace"@, 0);
                let g = f.update(p, Value::String(GcRef(s.heap.next)));
                array_alive(next.heap, g);
                changed_keeps(next, Effect::Thrown(v), r, ObjectModel::Instance(c, g));
            }
        }
    }
}

proof fn place_of_field(fs: Seq<FieldDef>, name: Seq<char>, i: int)
    requires
        0 <= i <= fs.len(),
    ensures
        0 <= field_place(fs, name, i) <= fs.len(),
    decreases fs.len() - i,
{
    if i < fs.len() {
        place_of_field(fs, name, i + 1);
    }
}

proof fn new_keeps(module: Module, s: StoreModel, id: ClassId, type_args: Seq<TypeDesc>)
    requires
        sound_store(s),
    ensures
        ({
            let (e, later) = new_effect(module, s, id, type_args);
            keeps(s, e, later)
        }),
{
    if let Some(c) = class_of(module, id) {
        let fields = field_defaults(c.fields@, c.generic_params@, type_args);
        array_alive(s.heap, fields);
        made_keeps(s, Boxed::Thing, ObjectModel::Instance(id, fields));
    }
}

/// No operation leaves a reference that dangles, whatever it does.
pub proof fn operations_keep(
    module: Module,
    checks: bool,
    s: StoreModel,
    calls: Seq<MethodId>,
    w: Answers,
    op: Op,
    args: Seq<Value>,
)
    requires
        sound_store(s),
        all_alive(s.heap, args),
    ensures
        ({
            let (e, later) = apply_effect(module, checks, s, calls, w, op, args);
            keeps(s, e, later)
        }),
{
    if is_binary(op) || is_unary(op) {
        plain_keeps(module, checks, s, w, op, args);
    } else {
        match op {
            Op::CallVirt(_) => {
                if args.len() > 0 {
                    class_alive(s.heap, args[0]);
                }
            },
            Op::NewObj(id, type_args) => new_keeps(module, s, id, type_args@),
            Op::Ldfld(_) => {
                if args.len() > 0 {
                    class_alive(s.heap, args[0]);
                }
            },
            Op::Stfld(idx) => store_field_keeps(s, idx, args),
            Op::Ldsfld(id, idx) => statics_keep(s, id, idx, args),
            Op::Stsfld(id, idx) => statics_keep(s, id, idx, args),
            Op::NewEnum(id, k) => {
                array_alive(s.heap, args);
                made_keeps(s, Boxed::Choice, ObjectModel::Enum(id.0, k as u32, args));
            },
            Op::EnumField(_) => {
                if args.len() > 0 {
                    if let Value::Enum(r) = args[0] {
                        if let Some(ObjectModel::Enum(_, _, f)) = object_at(s.heap.objects, r.0) {
                            contents_alive(s.heap, r.0, f);
                        }
                    }
                }
            },
            Op::NewTuple(_) => {
                array_alive(s.heap, args);
                made_keeps(s, Boxed::Group, ObjectModel::Tuple(args));
            },
            Op::TupleField(_) => {
                if args.len() > 0 {
                    if let Value::Tuple(r) = args[0] {
                        if let Some(ObjectModel::Tuple(f)) = object_at(s.heap.objects, r.0) {
                            contents_alive(s.heap, r.0, f);
                        }
                    }
                }
            },
            Op::StringConcat(count) => {
                if args.len() >= count {
                    if let Ok(text) = concat_from(
                        module,
                        s.heap,
                        w,
                        args.subrange(0, count as int),
                        0,
                        seq![],
                    ) {
                        text_keeps(s, text);
                    }
                }
            },
            Op::Throw => {
                if args.len() > 0 {
                    traced_keeps(module, s, calls, args[0]);
                }
            },
            Op::LdStr(idx) => {
                text_keeps(s, module.constant_pool@[idx as int]@);
            },
            Op::NativeCall(n) => {
                if let Some(id) = native_of(n) {
                    if args.len() == native_arity(id) {
                        native_keeps(module, s, w, id, args);
                    }
                }
            },
            _ => {},
        }
    }
}

/// Operations on numbers and truth values give no reference.
proof fn plain_keeps(
    module: Module,
    checks: bool,
    s: StoreModel,
    w: Answers,
    op: Op,
    args: Seq<Value>,
)
    requires
        sound_store(s),
        is_binary(op) || is_unary(op),
    ensures
        is_binary(op) && args.len() >= 2 ==> keeps(
            s,
            binary_effect(module, checks, s.heap, w, op, args[0], args[1]),
            s,
        ),
        is_unary(op) && args.len() >= 1 ==> keeps(
            s,
            unary_effect(module, checks, s.heap, w, op, args[0]),
            s,
        ),
{
}

// ---------------------------------------------------------------------------
// The machine
// ---------------------------------------------------------------------------

proof fn operands_alive(module: Module, h: HeapModel, op: Op, stack: Seq<Value>)
    requires
        all_alive(h, stack),
    ensures
        operands(module, h, op, stack) matches Ok((args, rest)) ==> all_alive(h, args) && all_alive(
            h,
            rest,
        ),
{
    if stack.len() > 0 {
        let below = stack.drop_last();
        assert(all_alive(h, below));
        assert forall|n: nat| (#[trigger] taken(below, n)) is Ok implies all_alive(
            h,
            taken(below, n)->Ok_0.1,
        ) && all_alive(h, seq![stack.last()] + taken(below, n)->Ok_0.0) by {
            let args = below.subrange(below.len() - n, below.len() as int);
            let all = seq![stack.last()] + args;
            assert forall|i: int| 0 <= i < all.len() implies alive(h, #[trigger] all[i]) by {
                if i > 0 {
                    assert(all[i] == below[below.len() - n + i - 1]);
                } else {
                    assert(all[0] == stack[stack.len() - 1]);
                }
            }
        }
    }
}

proof fn raised_alive(module: Module, h: HeapModel, fs: Seq<FrameModel>, exc: Value)
    requires
        frames_alive(h, fs),
        alive(h, exc),
    ensures
        frames_alive(h, raised(module, h, fs, exc).1),
    decreases fs.len(),
{
    if fs.len() > 0 {
        let f = fs.last();
        assert(frame_alive(h, f));
        let below = fs.drop_last();
        assert(frames_alive(h, below));
        raised_alive(module, h, below, exc);
        assert forall|handler: ExceptionHandler| frame_alive(
            h,
            #[trigger] handled(f, handler, exc),
        ) by {}
    }
}

proof fn top_alive(h: HeapModel, fs: Seq<FrameModel>, f: FrameModel)
    requires
        fs.len() > 0,
        frames_alive(h, fs),
        frame_alive(h, f),
    ensures
        frames_alive(h, with_top(fs, f)),
{
}

proof fn settled_alive(
    module: Module,
    h: HeapModel,
    fs: Seq<FrameModel>,
    next: FrameModel,
    e: Effect,
)
    requires
        fs.len() > 0,
        frames_alive(h, fs),
        frame_alive(h, next),
        effect_alive(h, e),
    ensures
        frames_alive(h, settled(module, h, fs, next, e).1),
{
    top_alive(h, fs, next);
    match e {
        Effect::Value(v) => {
            let g = pushed(next, v);
            assert(frame_alive(h, g));
            top_alive(h, fs, g);
        },
        Effect::Thrown(exc) => {
            let g = FrameModel { after_finally: None, ..next };
            assert(frame_alive(h, g));
            top_alive(h, fs, g);
            raised_alive(module, h, with_top(fs, g), exc);
        },
        Effect::Invoke(id, args) => {
            if let Some(m) = method_of(module, id) {
                let g = new_frame(id, args, m.locals);
                assert(frame_alive(h, g)) by {
                    assert forall|i: int| 0 <= i < g.locals.len() implies alive(
                        h,
                        #[trigger] g.locals[i],
                    ) by {
                        if i < args.len() {
                            assert(g.locals[i] == args[i]);
                        }
                    }
                }
            }
        },
        _ => {},
    }
}

proof fn frame_effect_alive(module: Module, h: HeapModel, f: FrameModel, op: Op)
    requires
        frame_alive(h, f),
    ensures
        frame_effect(module, f, op) matches Some(Ok(g)) ==> frame_alive(h, g),
{
}

/// No step of a machine leaves a reference that dangles, whatever the program
/// and whatever came of the step.
pub proof fn steps_keep(module: Module, m: VmModel, w: Answers)
    requires
        sound(m),
        m.frames.len() > 0,
    ensures
        sound(stepped(module, m, w).1),
{
    let h = m.store.heap;
    let f = m.frames.last();
    assert(frame_alive(h, f));
    if let Some(def) = method_of(module, f.method) {
        if f.pc < def.body@.len() {
            let op = def.body@[f.pc as int];
            let next = FrameModel { pc: (f.pc + 1) as usize, ..f };
            assert(frame_alive(h, next));
            top_alive(h, m.frames, next);
            match op {
                Op::Ret => {
                    let rest = m.frames.drop_last();
                    assert(frames_alive(h, rest));
                    if rest.len() > 0 {
                        let below = rest.last();
                        assert(frame_alive(h, below));
                        let v = if f.stack.len() > 0 {
                            f.stack.last()
                        } else {
                            Value::Unit
                        };
                        assert(alive(h, v));
                        assert(frame_alive(h, pushed(below, v)));
                        top_alive(h, rest, pushed(below, v));
                    }
                },
                Op::EndFinally => {
                    if let Some(exc) = f.after_finally {
                        let g = FrameModel { after_finally: None, ..next };
                        assert(frame_alive(h, g));
                        top_alive(h, m.frames, g);
                        raised_alive(module, h, with_top(m.frames, g), exc);
                    }
                },
                _ => {
                    frame_effect_alive(module, h, next, op);
                    match frame_effect(module, next, op) {
                        Some(Ok(g)) => top_alive(h, m.frames, g),
                        Some(Err(_)) => {},
                        None => operation_step_keeps(module, m, w, op, next),
                    }
                },
            }
        }
    }
}

proof fn operation_step_keeps(module: Module, m: VmModel, w: Answers, op: Op, next: FrameModel)
    requires
        sound(m),
        m.frames.len() > 0,
        frame_alive(m.store.heap, next),
        next.stack == m.frames.last().stack,
    ensures
        operands(module, m.store.heap, op, next.stack) matches Ok((args, rest)) ==> {
            let (e, later) = apply_effect(
                module,
                m.checks,
                m.store,
                calls_of(m.frames),
                w,
                op,
                args,
            );
            sound_store(later) && frames_alive(
                later.heap,
                settled(module, later.heap, m.frames, FrameModel { stack: rest, ..next }, e).1,
            )
        },
{
    let h = m.store.heap;
    operands_alive(module, h, op, next.stack);
    if let Ok((args, rest)) = operands(module, h, op, next.stack) {
        operations_keep(module, m.checks, m.store, calls_of(m.frames), w, op, args);
        let (e, later) = apply_effect(module, m.checks, m.store, calls_of(m.frames), w, op, args);
        later_frames(h, later.heap, m.frames);
        let g = FrameModel { stack: rest, ..next };
        assert(frame_alive(h, g));
        later_alive(h, later.heap, g.locals);
        later_alive(h, later.heap, g.stack);
        settled_alive(module, later.heap, m.frames, g, e);
    }
}

/// Running a machine leaves no reference that dangles, however far it goes.
pub proof fn running_keeps(module: Module, m: VmModel, w: Answers, fuel: nat)
    requires
        sound(m),
    ensures
        sound(advanced(module, m, w, fuel).1),
    decreases fuel,
{
    if fuel > 0 && m.frames.len() > 0 {
        steps_keep(module, m, w);
        let (o, next) = stepped(module, m, w);
        if o is Running {
            running_keeps(module, next, used(o, w), (fuel - 1) as nat);
        }
    }
}

/// In a machine before anything has run no reference dangles.
pub proof fn fresh_is_sound(module: Module)
    ensures
        sound(fresh(module)),
{
    let m = fresh(module);
    let h = m.store.heap;
    assert forall|g: usize, x: usize| #[trigger] leads_to(h.objects, 0, g, x) implies false by {
        assert(object_at(h.objects, g) is None);
    }
    assert forall|i: int| 0 <= i < m.store.statics.len() implies all_alive(
        h,
        (#[trigger] m.store.statics[i]).1,
    ) by {}
}

/// A call with arguments that are alive leaves no reference that dangles.
pub proof fn calls_keep(module: Module, m: VmModel, id: MethodId, args: Seq<Value>)
    requires
        sound(m),
        all_alive(m.store.heap, args),
    ensures
        invoked(module, m, id, args) matches Ok(next) ==> sound(next),
{
    if let Some(def) = method_of(module, id) {
        let g = new_frame(id, args, def.locals);
        assert forall|i: int| 0 <= i < g.locals.len() implies alive(
            m.store.heap,
            #[trigger] g.locals[i],
        ) by {
            if i < args.len() {
                assert(g.locals[i] == args[i]);
            }
        }
        assert(frame_alive(m.store.heap, g));
    }
}

// ---------------------------------------------------------------------------
// Safepoints
// ---------------------------------------------------------------------------

proof fn minor_collection_keeps(h: HeapModel, roots: Seq<usize>)
    requires
        sound_heap(h),
    ensures
        sound_heap(after_minor(h, roots)),
{
    let m = after_minor(h, roots);
    let keep = |y: usize| minor_keeps(h, roots, y);
    let seed = |y: usize| minor_seed(h, roots, y);
    minor_is_in_order(h, roots);
    barrier_after_collect(h, roots);
    assert forall|g: usize, x: usize| #[trigger] leads_to(m.objects, 0, g, x) implies object_at(
        m.objects,
        x,
    ) is Some by {
        kept_at(h.objects, keep, g);
        kept_at(h.objects, keep, x);
        assert(leads_to(h.objects, 0, g, x));
        if x >= h.young_from {
            if g < h.young_from {
                assert(h.remembered.contains(g));
                assert(seed(x));
                assert(reached_in(h.objects, seed, h.young_from, x, 0));
            } else {
                let n = choose|n: nat| reached_in(h.objects, seed, h.young_from, g, n);
                assert(leads_to(h.objects, h.young_from, g, x));
                assert(reached_in(h.objects, seed, h.young_from, x, n + 1));
            }
        }
        assert(keep(x));
    }
}

proof fn major_collection_keeps(h: HeapModel, roots: Seq<usize>)
    requires
        sound_heap(h),
    ensures
        sound_heap(after_major(h, roots)),
{
    let m = after_major(h, roots);
    let seed = |y: usize| roots.contains(y);
    major_is_in_order(h, roots);
    barrier_after_collect(h, roots);
    assert forall|g: usize, x: usize| #[trigger] leads_to(m.objects, 0, g, x) implies object_at(
        m.objects,
        x,
    ) is Some by {
        major_is_exact(h, roots, g);
        major_is_exact(h, roots, x);
        assert(leads_to(h.objects, 0, g, x));
        let n = choose|n: nat| reached_in(h.objects, seed, 0, g, n);
        assert(reached_in(h.objects, seed, 0, x, n + 1));
    }
}

proof fn root_keeps(h: HeapModel, roots: Seq<usize>, v: Value)
    requires
        sound_heap(h),
        alive(h, v),
        handle_in(v) matches Some(x) ==> roots.contains(x),
    ensures
        alive(after_collect(h, roots), v),
        handle_in(v) matches Some(x) ==> object_at(after_collect(h, roots).objects, x) == object_at(
            h.objects,
            x,
        ),
{
    if let Some(x) = handle_in(v) {
        let seed = |y: usize| roots.contains(y);
        assert(reached_in(h.objects, seed, 0, x, 0));
        assert(major_keeps(h, roots, x));
        collection_keeps(h, roots, x);
    }
}

proof fn roots_keep(h: HeapModel, roots: Seq<usize>, vs: Seq<Value>)
    requires
        sound_heap(h),
        all_alive(h, vs),
        forall|x: usize| some_holds(vs, x) ==> roots.contains(x),
    ensures
        all_alive(after_collect(h, roots), vs),
{
    assert forall|i: int| 0 <= i < vs.len() implies alive(
        after_collect(h, roots),
        #[trigger] vs[i],
    ) by {
        assert(alive(h, vs[i]));
        if let Some(x) = handle_in(vs[i]) {
            assert(some_holds(vs, x));
        }
        root_keeps(h, roots, vs[i]);
    }
}

/// A safepoint leaves no reference that dangles.
pub proof fn safepoints_keep(m: VmModel)
    requires
        sound(m),
    ensures
        sound(at_safepoint(m)),
        at_safepoint(m).frames == m.frames,
        at_safepoint(m).store.statics == m.store.statics,
{
    if m.store.heap.numbers.gc_pending {
        let h = m.store.heap;
        let roots = roots_of(m);
        let later = after_collect(h, roots);
        if minor_first(h) {
            minor_collection_keeps(h, roots);
            major_collection_keeps(after_minor(h, roots), roots);
        } else {
            major_collection_keeps(h, roots);
        }
        assert forall|i: int| 0 <= i < m.frames.len() implies frame_alive(
            later,
            #[trigger] m.frames[i],
        ) by {
            let f = m.frames[i];
            assert(frame_alive(h, f));
            assert forall|x: usize| some_holds(f.locals, x) || some_holds(f.stack, x) || some_holds(
                kept_back(f),
                x,
            ) implies roots.contains(x) by {
                frame_is_rooted(m, i, x);
            }
            roots_keep(h, roots, f.locals);
            roots_keep(h, roots, f.stack);
            roots_keep(h, roots, kept_back(f));
            if let Some(v) = f.after_finally {
                assert(kept_back(f)[0] == v);
            }
        }
        assert forall|i: int| 0 <= i < m.store.statics.len() implies all_alive(
            later,
            (#[trigger] m.store.statics[i]).1,
        ) by {
            let vs = m.store.statics[i].1;
            assert(all_alive(h, vs));
            assert forall|x: usize| some_holds(vs, x) implies roots.contains(x) by {
                statics_are_rooted(m, i, x);
            }
            roots_keep(h, roots, vs);
        }
    }
}

/// What a running method or a static field refers to is the same object after a
/// safepoint.
pub proof fn safepoint_changes_nothing(m: VmModel, x: usize)
    requires
        sound(m),
        (exists|i: int|
            0 <= i < m.frames.len() && {
                let f = #[trigger] m.frames[i];
                some_holds(f.locals, x) || some_holds(f.stack, x) || some_holds(kept_back(f), x)
            }) || (exists|i: int|
            0 <= i < m.store.statics.len() && some_holds((#[trigger] m.store.statics[i]).1, x)),
    ensures
        object_at(at_safepoint(m).store.heap.objects, x) is Some,
        object_at(at_safepoint(m).store.heap.objects, x) == object_at(m.store.heap.objects, x),
{
    let h = m.store.heap;
    let v = Value::Object(GcRef(x));
    if exists|i: int|
        0 <= i < m.frames.len() && {
            let f = #[trigger] m.frames[i];
            some_holds(f.locals, x) || some_holds(f.stack, x) || some_holds(kept_back(f), x)
        } {
        let i = choose|i: int|
            0 <= i < m.frames.len() && {
                let f = #[trigger] m.frames[i];
                some_holds(f.locals, x) || some_holds(f.stack, x) || some_holds(kept_back(f), x)
            };
        let f = m.frames[i];
        assert(frame_alive(h, f));
        frame_is_rooted(m, i, x);
        assert(all_alive(h, kept_back(f)));
        if some_holds(f.locals, x) {
            holds_alive(h, f.locals, x);
        } else if some_holds(f.stack, x) {
            holds_alive(h, f.stack, x);
        } else {
            holds_alive(h, kept_back(f), x);
        }
    } else {
        let i = choose|i: int|
            0 <= i < m.store.statics.len() && some_holds((#[trigger] m.store.statics[i]).1, x);
        statics_are_rooted(m, i, x);
        holds_alive(h, m.store.statics[i].1, x);
    }
    root_keeps(h, roots_of(m), v);
}

} // verus!
