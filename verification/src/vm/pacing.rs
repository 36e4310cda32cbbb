//! When a heap is collected, what it counts, and what keeps an object alive.

use crate::vm::heap::{
    after_collect, after_major, after_minor, approx, dropped_size, empty_heap, kept, major_keeps,
    major_paused, minor_keeps, minor_paused, nursery_size, object_at, pressed, stats_of, total_size,
    with_change, with_numbers, with_object, HeapModel, Numbers, NURSERY_MAX, NURSERY_MIN,
};
use crate::vm::value::{handle_in, points_to, some_holds, ObjectModel, Value};
use vstd::prelude::*;

verus! {

/// An object refers to whatever it holds: the fields of an instance, the elements
/// of a list, set or tuple, the keys and the values of a map, the fields of an enum
/// value, what a function captured and what a task resulted in. A string refers to
/// nothing. A value on the heap is referred to by its handle, any other not at all.
pub proof fn reference_law(v: Value, o: ObjectModel, vs: Seq<Value>, i: int, h: usize)
    requires
        0 <= i < vs.len(),
        vs[i] == v,
        handle_in(v) == Some(h),
    ensures
        v is String || v is Object || v is Enum || v is Tuple,
        o matches ObjectModel::Instance(_, xs) ==> xs == vs ==> points_to(o, h),
        o matches ObjectModel::Array(xs) ==> xs == vs ==> points_to(o, h),
        o matches ObjectModel::ItemSet(xs) ==> xs == vs ==> points_to(o, h),
        o matches ObjectModel::Enum(_, _, xs) ==> xs == vs ==> points_to(o, h),
        o matches ObjectModel::Tuple(xs) ==> xs == vs ==> points_to(o, h),
        o matches ObjectModel::Closure(_, xs) ==> xs == vs ==> points_to(o, h),
        o matches ObjectModel::Task(x) ==> x == Some(v) ==> points_to(o, h),
        o matches ObjectModel::Dict(es) ==> forall|k: int|
            0 <= k < es.len() && ((#[trigger] es[k]).0 == v || es[k].1 == v) ==> points_to(o, h),
        o is String ==> !points_to(o, h),
{
    assert(some_holds(vs, h));
    if o is Dict {
        let es = o->Dict_0;
        assert forall|k: int|
            0 <= k < es.len() && ((#[trigger] es[k]).0 == v || es[k].1 == v) implies points_to(
            o,
            h,
        ) by {
            assert(handle_in(es[k].0) == Some(h) || handle_in(es[k].1) == Some(h));
        }
    }
}

/// An allocation counts the object and its bytes, in the nursery too. A collection
/// is due once the heap reaches its threshold or the nursery its size, and stays
/// due; the settings and the handles that were given out stay as they are.
pub proof fn counting_law(h: HeapModel, o: ObjectModel)
    requires
        h.next < usize::MAX,
        h.numbers.allocated + approx(o) <= usize::MAX,
        h.numbers.young_bytes + approx(o) <= usize::MAX,
        h.numbers.total_allocations < u64::MAX,
    ensures
        ({
            let (n, w) = (h.numbers, with_object(h, o).numbers);
            &&& w.allocated == n.allocated + approx(o)
            &&& w.young_bytes == n.young_bytes + approx(o)
            &&& w.total_allocations == n.total_allocations + 1
            &&& w.gc_pending <==> n.gc_pending || w.allocated >= n.threshold || w.young_bytes
                >= nursery_size(n)
            &&& w.threshold == n.threshold && w.max_heap == n.max_heap && w.nursery_override
                == n.nursery_override && w.pause_target == n.pause_target && w.growth_factor
                == n.growth_factor
            &&& w.collections == n.collections && w.bytes_freed == n.bytes_freed
        }),
        with_object(h, o).objects.len() == h.objects.len() + 1,
        with_object(h, o).next == h.next + 1,
        with_change(h, h.next, o).numbers == h.numbers,
{
}

/// An object is counted with at least what it holds: one more value never makes it
/// smaller.
pub proof fn size_law(vs: Seq<Value>, v: Value, class: crate::bytecode::ClassId)
    ensures
        approx(ObjectModel::Array(vs.push(v))) >= approx(ObjectModel::Array(vs)),
        approx(ObjectModel::Tuple(vs)) == approx(ObjectModel::Array(vs)),
        approx(ObjectModel::ItemSet(vs)) == approx(ObjectModel::Array(vs)),
        approx(ObjectModel::Instance(class, vs)) == approx(ObjectModel::Array(vs)),
{
    let unit = vstd::layout::size_of::<Value>();
    assert((vs.len() + 1) * unit >= vs.len() * unit) by (nonlinear_arith)
        requires
            unit >= 0,
    ;
    assert(vs.push(v).len() == vs.len() + 1);
}

/// The nursery has the size that was set, and where none was set half the
/// threshold; it is never empty.
pub proof fn nursery_law(n: Numbers)
    ensures
        nursery_size(n) >= 1,
        n.nursery_override matches Some(x) ==> x >= 1 ==> nursery_size(n) == x,
        n.nursery_override is None ==> nursery_size(n) <= n.threshold || n.threshold == 0,
        n.nursery_override is None && 2 <= n.threshold < 2 * crate::vm::heap::DEFAULT_GC_THRESHOLD
            ==> 2 * nursery_size(n) <= n.threshold < 2 * nursery_size(n) + 2,
        pressed(n) <==> n.allocated >= n.threshold || n.young_bytes >= nursery_size(n),
{
}

proof fn dropped_is_no_debt(
    objs: Seq<(usize, ObjectModel)>,
    keep: spec_fn(usize) -> bool,
    n: int,
)
    requires
        0 <= n <= objs.len(),
    ensures
        dropped_size(objs, keep, n) >= 0,
        dropped_size(objs, keep, n) + total_size(
            kept(objs, keep, n),
            kept(objs, keep, n).len() as int,
        ) == total_size(objs, n),
    decreases n,
{
    if n > 0 {
        dropped_is_no_debt(objs, keep, n - 1);
        let before = kept(objs, keep, n - 1);
        if keep(objs[n - 1].0) {
            let now = before.push(objs[n - 1]);
            assert(kept(objs, keep, n) == now);
            same_total(before, now, before.len() as int);
        }
    }
}

proof fn same_total(a: Seq<(usize, ObjectModel)>, b: Seq<(usize, ObjectModel)>, n: int)
    requires
        0 <= n <= a.len(),
        n <= b.len(),
        forall|i: int| 0 <= i < n ==> a[i] == b[i],
    ensures
        total_size(a, n) == total_size(b, n),
    decreases n,
{
    if n > 0 {
        same_total(a, b, n - 1);
    }
}

/// A collection of the nursery empties it: what is left is old. Where the bytes of
/// the heap were those of its objects, they are so again; what went is counted as
/// freed. It is one more collection, of the nursery, and leaves the threshold.
pub proof fn minor_law(h: HeapModel, roots: Seq<usize>)
    requires
        h.numbers.allocated == total_size(h.objects, h.objects.len() as int),
        h.numbers.collections < u64::MAX,
        h.numbers.minor_collections < u64::MAX,
        h.numbers.bytes_freed + h.numbers.allocated <= u64::MAX,
    ensures
        ({
            let a = after_minor(h, roots);
            let (n, w) = (h.numbers, a.numbers);
            &&& w.allocated == total_size(a.objects, a.objects.len() as int)
            &&& w.allocated <= n.allocated
            &&& w.bytes_freed == n.bytes_freed + (n.allocated - w.allocated)
            &&& w.young_bytes == 0 && a.young_from == a.next && a.next == h.next
            &&& a.remembered.len() == 0
            &&& w.threshold == n.threshold
            &&& w.gc_pending <==> w.allocated >= w.threshold
            &&& w.collections == n.collections + 1 && w.minor_collections == n.minor_collections + 1
            &&& w.major_collections == n.major_collections
            &&& w.total_allocations == n.total_allocations
        }),
{
    let keep = |x: usize| minor_keeps(h, roots, x);
    let n = h.objects.len() as int;
    dropped_is_no_debt(h.objects, keep, n);
    let left = kept(h.objects, keep, n);
    positive(left, left.len() as int);
    assert(dropped_size(h.objects, keep, n) <= h.numbers.allocated);
}

proof fn positive(objs: Seq<(usize, ObjectModel)>, n: int)
    requires
        0 <= n <= objs.len(),
    ensures
        total_size(objs, n) >= 0,
    decreases n,
{
    if n > 0 {
        positive(objs, n - 1);
    }
}

/// A collection of the whole heap does the same for all of it; the next one is due
/// when the heap has grown by its factor.
pub proof fn major_law(h: HeapModel, roots: Seq<usize>)
    requires
        h.numbers.allocated == total_size(h.objects, h.objects.len() as int),
        h.numbers.collections < u64::MAX,
        h.numbers.major_collections < u64::MAX,
        h.numbers.bytes_freed + h.numbers.allocated <= u64::MAX,
    ensures
        ({
            let a = after_major(h, roots);
            let (n, w) = (h.numbers, a.numbers);
            &&& w.allocated == total_size(a.objects, a.objects.len() as int)
            &&& w.allocated <= n.allocated
            &&& w.bytes_freed == n.bytes_freed + (n.allocated - w.allocated)
            &&& w.young_bytes == 0 && a.young_from == a.next && a.next == h.next
            &&& a.remembered.len() == 0
            &&& w.threshold >= 1
            &&& w.allocated * n.growth_factor <= usize::MAX ==> w.threshold >= w.allocated
                * n.growth_factor
            &&& w.collections == n.collections + 1 && w.major_collections == n.major_collections + 1
            &&& w.minor_collections == n.minor_collections
            &&& w.total_allocations == n.total_allocations
        }),
{
    let keep = |x: usize| major_keeps(h, roots, x);
    let n = h.objects.len() as int;
    dropped_is_no_debt(h.objects, keep, n);
    let left = kept(h.objects, keep, n);
    positive(left, left.len() as int);
}

/// A heap over its limit, or at its threshold, is collected as a whole; else the
/// nursery is enough, unless the heap is still at its threshold.
pub proof fn choice_law(h: HeapModel, roots: Seq<usize>)
    requires
        h.numbers.major_collections < u64::MAX,
        h.numbers.minor_collections < u64::MAX,
    ensures
        ({
            let (n, w) = (h.numbers, after_collect(h, roots).numbers);
            let whole = w.major_collections > n.major_collections;
            &&& (n.max_heap matches Some(limit) && n.allocated > limit) ==> whole
            &&& n.allocated >= n.threshold ==> whole
            &&& !whole ==> w.minor_collections == n.minor_collections + 1 && w.allocated
                < w.threshold
            &&& n.max_heap is None && n.allocated < n.threshold && h.young_from < h.next
                && after_minor(h, roots).numbers.allocated < n.threshold ==> !whole
        }),
{
}

/// Pauses are added up and the longest is kept. A pause over the target shrinks the
/// nursery, one far below it grows it, within the bounds; without a target it stays.
pub proof fn pause_law(n: Numbers, pause: u64)
    requires
        NURSERY_MIN <= nursery_size(n) <= NURSERY_MAX,
        n.minor_pause_total + pause <= u64::MAX,
        n.major_pause_total + pause <= u64::MAX,
    ensures
        ({
            let (a, b) = (minor_paused(n, pause), major_paused(n, pause));
            let (was, now) = (nursery_size(n), nursery_size(a));
            &&& a.minor_pause_total == n.minor_pause_total + pause && a.major_pause_total
                == n.major_pause_total
            &&& b.major_pause_total == n.major_pause_total + pause && b.minor_pause_total
                == n.minor_pause_total
            &&& a.max_minor_pause >= pause && a.max_minor_pause >= n.max_minor_pause && (
            a.max_minor_pause == pause || a.max_minor_pause == n.max_minor_pause)
            &&& b.max_major_pause >= pause && b.max_major_pause >= n.max_major_pause && (
            b.max_major_pause == pause || b.max_major_pause == n.max_major_pause)
            &&& b.nursery_override == n.nursery_override && b.max_minor_pause == n.max_minor_pause
            &&& NURSERY_MIN <= now <= NURSERY_MAX
            &&& n.pause_target is None ==> now == was
            &&& n.pause_target matches Some(t) ==> {
                &&& pause > t ==> now < was || now == NURSERY_MIN
                &&& pause <= t && 4 * pause < t ==> now > was || now == NURSERY_MAX
                &&& pause <= t && 4 * pause >= t ==> now == was
            }
            &&& a.threshold == n.threshold && a.allocated == n.allocated && a.gc_pending
                == n.gc_pending
        }),
{
}

/// A fresh heap is empty, has no limit and is not due for a collection. What is set
/// changes no object.
pub proof fn fresh_law(threshold: usize, h: HeapModel, n: Numbers, x: usize)
    ensures
        object_at(empty_heap(threshold).objects, x) is None,
        empty_heap(threshold).numbers.allocated == 0,
        empty_heap(threshold).numbers.threshold == threshold,
        empty_heap(threshold).numbers.max_heap is None,
        !empty_heap(threshold).numbers.gc_pending,
        stats_of(empty_heap(threshold)).live_objects == 0,
        object_at(with_numbers(h, n).objects, x) == object_at(h.objects, x),
        with_numbers(h, n).numbers == n,
        stats_of(h).live_bytes == h.numbers.allocated,
        stats_of(h).nursery_size == nursery_size(h.numbers),
{
}

} // verus!
