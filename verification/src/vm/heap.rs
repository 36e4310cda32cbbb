//! Managed heap and mark-and-sweep garbage collector.
//!
//! The heap stores [`AuraObject`] values behind opaque [`GcRef`] handles.
//! Handles are numbered in the order of allocation and never used twice, so they
//! stay stable across collections, and the objects allocated since the last
//! collection (the nursery) are those with the highest numbers.

use crate::vm::value::{
    points_to, pushed_contains, AuraObject, EnumValue, GcRef, ObjectModel, TupleValue, Value,
};
use vstd::prelude::*;

verus! {

/// Default heap size threshold that triggers a collection.
pub const DEFAULT_GC_THRESHOLD: usize = 65536;

/// Smallest nursery that the pause target leads to.
pub const NURSERY_MIN: usize = 8192;

/// Largest nursery that the pause target leads to.
pub const NURSERY_MAX: usize = 1048576;

/// Errors that can occur during heap operations.
#[derive(Debug, Clone, Copy, PartialEq, Eq, Structural)]
pub enum HeapError {
    /// Tried to access an invalid or collected handle.
    InvalidRef(GcRef),
}

/// Collector disposition presets: how to trade pause size against
/// collection frequency.
#[derive(Debug, Clone, Copy, PartialEq, Eq, Structural)]
pub enum GcMode {
    /// Larger nursery, faster threshold growth: fewer, bigger pauses.
    Throughput,
    /// The defaults.
    Balanced,
    /// Small nursery: frequent, small minor pauses.
    Latency,
}

/// A point-in-time snapshot of collector counters and configuration. Pauses are
/// in nanoseconds.
#[derive(Debug, Clone, Copy, PartialEq, Eq, Structural)]
pub struct GcStats {
    /// Total collections (minor + major).
    pub collections: u64,
    /// Minor (nursery-only) collections.
    pub minor_collections: u64,
    /// Major (full-heap) collections.
    pub major_collections: u64,
    /// Live objects right now.
    pub live_objects: usize,
    /// Approximate live bytes right now.
    pub live_bytes: usize,
    /// Objects ever allocated.
    pub total_allocations: u64,
    /// Approximate bytes reclaimed across all collections.
    pub bytes_freed: u64,
    /// Current full-heap threshold.
    pub threshold: usize,
    /// Current effective nursery size.
    pub nursery_size: usize,
    /// Cumulative minor pause time.
    pub minor_pause_total: u64,
    /// Cumulative major pause time.
    pub major_pause_total: u64,
    /// Longest single minor pause.
    pub max_minor_pause: u64,
    /// Longest single major pause.
    pub max_major_pause: u64,
}

/// A managed heap.
#[derive(Debug)]
pub struct Heap {
    /// Number of the next handle.
    next_gen: usize,
    /// Live objects by handle, in the order of their handles.
    objects: Vec<(usize, AuraObject)>,
    /// Number of the first handle of the nursery.
    young_from: usize,
    /// Write barrier log: old objects mutated since the last collection, the
    /// only old objects that can point into the nursery.
    remembered: Vec<usize>,
    /// Bytes and configuration.
    numbers: Numbers,
}

/// What the collector counts and is configured with. Pauses are in nanoseconds.
#[derive(Debug, Clone, Copy, PartialEq, Eq, Structural)]
pub struct Numbers {
    /// Approximate allocated bytes.
    pub allocated: usize,
    /// Threshold that triggers the next collection.
    pub threshold: usize,
    /// Set when `allocated` crosses `threshold`; the VM collects at its next
    /// safepoint. Allocation never collects inline, because callers routinely
    /// hold freshly-allocated handles the collector cannot see.
    pub gc_pending: bool,
    /// Number of collections run.
    pub collections: u64,
    /// Minor (nursery-only) collections run.
    pub minor_collections: u64,
    /// Major (full-heap) collections run.
    pub major_collections: u64,
    /// Total objects ever allocated.
    pub total_allocations: u64,
    /// Approximate bytes held by nursery objects.
    pub young_bytes: usize,
    /// Explicit nursery size, overriding the derived default. Also the
    /// lever the pause-target feedback loop adjusts.
    pub nursery_override: Option<usize>,
    /// Hard heap limit: exceeding it after a full collection is an
    /// out-of-memory error surfaced by the VM.
    pub max_heap: Option<usize>,
    /// Full-heap threshold growth factor after a major collection
    /// (throughput mode grows faster: fewer, bigger collections).
    pub growth_factor: usize,
    /// Best-effort soft target for *minor* pause times.
    pub pause_target: Option<u64>,
    /// Cumulative pause time in minor collections.
    pub minor_pause_total: u64,
    /// Cumulative pause time in major collections.
    pub major_pause_total: u64,
    /// Longest single minor pause.
    pub max_minor_pause: u64,
    /// Longest single major pause.
    pub max_major_pause: u64,
    /// Approximate bytes reclaimed across all collections.
    pub bytes_freed: u64,
}

/// The heap by value.
#[verifier::ext_equal]
pub ghost struct HeapModel {
    /// Number of the next handle.
    pub next: usize,
    /// Live objects by handle.
    pub objects: Seq<(usize, ObjectModel)>,
    /// Number of the first handle of the nursery.
    pub young_from: usize,
    /// Old objects mutated since the last collection.
    pub remembered: Seq<usize>,
    /// Bytes and configuration.
    pub numbers: Numbers,
}

/// Objects by value.
pub open spec fn object_models(s: Seq<(usize, AuraObject)>) -> Seq<(usize, ObjectModel)> {
    Seq::new(s.len(), |i: int| (s[i].0, s[i].1@))
}

impl View for Heap {
    type V = HeapModel;

    closed spec fn view(&self) -> HeapModel {
        HeapModel {
            next: self.next_gen,
            objects: object_models(self.objects@),
            young_from: self.young_from,
            remembered: self.remembered@,
            numbers: self.numbers,
        }
    }
}

/// The handles increase.
pub open spec fn increasing(objs: Seq<(usize, ObjectModel)>) -> bool {
    forall|i: int, j: int| 0 <= i < j < objs.len() ==> (#[trigger] objs[i]).0 < (#[trigger] objs[j]).0
}

/// What every heap keeps: the handles increase, all of them were given out, and
/// the nursery is among them.
pub open spec fn heap_ok(h: HeapModel) -> bool {
    &&& increasing(h.objects)
    &&& forall|i: int| 0 <= i < h.objects.len() ==> (#[trigger] h.objects[i]).0 < h.next
    &&& h.young_from <= h.next
}

/// The object behind a handle, from position `i` on.
pub open spec fn object_from(objs: Seq<(usize, ObjectModel)>, h: usize, i: int) -> Option<
    ObjectModel,
>
    decreases objs.len() - i,
{
    if i < 0 || i >= objs.len() {
        None
    } else if objs[i].0 == h {
        Some(objs[i].1)
    } else {
        object_from(objs, h, i + 1)
    }
}

/// The object behind a handle.
pub open spec fn object_at(objs: Seq<(usize, ObjectModel)>, h: usize) -> Option<ObjectModel> {
    object_from(objs, h, 0)
}

proof fn object_from_found(objs: Seq<(usize, ObjectModel)>, h: usize, i: int, p: int)
    requires
        increasing(objs),
        0 <= i <= p < objs.len(),
        objs[p].0 == h,
    ensures
        object_from(objs, h, i) == Some(objs[p].1),
    decreases p - i,
{
    if i < p {
        assert(objs[i].0 < objs[p].0);
        object_from_found(objs, h, i + 1, p);
    }
}

/// The entry with a handle is the object behind it.
pub proof fn object_at_place(objs: Seq<(usize, ObjectModel)>, p: int)
    requires
        increasing(objs),
        0 <= p < objs.len(),
    ensures
        object_at(objs, objs[p].0) == Some(objs[p].1),
{
    object_from_found(objs, objs[p].0, 0, p);
}

/// An object that is found has an entry.
pub proof fn object_from_some(objs: Seq<(usize, ObjectModel)>, h: usize, i: int) -> (p: int)
    requires
        0 <= i,
        object_from(objs, h, i) is Some,
    ensures
        i <= p < objs.len(),
        objs[p] == (h, object_from(objs, h, i)->0),
    decreases objs.len() - i,
{
    if objs[i].0 == h {
        i
    } else {
        object_from_some(objs, h, i + 1)
    }
}

/// The smaller of a number and the largest that fits.
pub open spec fn capped(n: int) -> usize {
    if n > usize::MAX {
        usize::MAX
    } else {
        n as usize
    }
}

/// Approximate size of an object in bytes.
pub open spec fn size_of_object(o: ObjectModel) -> int {
    let unit = vstd::layout::size_of::<Value>();
    let base = vstd::layout::size_of::<AuraObject>();
    match o {
        ObjectModel::String(s) => vstd::utf8::encode_utf8(s).len() as int,
        ObjectModel::Instance(_, vs) => (vs.len() * unit + base) as int,
        ObjectModel::Array(vs) => (vs.len() * unit + base) as int,
        ObjectModel::ItemSet(vs) => (vs.len() * unit + base) as int,
        ObjectModel::Closure(_, vs) => (vs.len() * unit + base) as int,
        ObjectModel::Dict(es) => (es.len() * 2 * unit + base) as int,
        ObjectModel::Enum(_, _, vs) => (vs.len() * unit + base) as int,
        ObjectModel::Tuple(vs) => (vs.len() * unit + base) as int,
        ObjectModel::Task(_) => base as int,
    }
}

/// Approximate size of an object in bytes, as far as it can be counted.
pub open spec fn approx(o: ObjectModel) -> usize {
    capped(size_of_object(o))
}

/// Nursery pressure that triggers a minor collection. Half the full
/// threshold for small heaps, but capped: the nursery stays small even
/// when a large stable old generation has grown the full threshold, so
/// minor collections stay frequent and cheap while majors stay rare.
pub open spec fn nursery_size(n: Numbers) -> usize {
    let base = match n.nursery_override {
        Some(x) => x,
        None => if n.threshold / 2 < DEFAULT_GC_THRESHOLD {
            (n.threshold / 2) as usize
        } else {
            DEFAULT_GC_THRESHOLD
        },
    };
    if base < 1 {
        1
    } else {
        base
    }
}

/// The heap or the nursery is under pressure.
pub open spec fn pressed(n: Numbers) -> bool {
    n.allocated >= n.threshold || n.young_bytes >= nursery_size(n)
}

/// One more, as far as it can be counted.
pub open spec fn one_more(n: u64) -> u64 {
    if n == u64::MAX {
        n
    } else {
        (n + 1) as u64
    }
}

/// The heap with one more object, which gets the next handle.
pub open spec fn with_object(h: HeapModel, o: ObjectModel) -> HeapModel {
    let size = approx(o);
    let n = Numbers {
        allocated: capped(h.numbers.allocated + size),
        young_bytes: capped(h.numbers.young_bytes + size),
        total_allocations: one_more(h.numbers.total_allocations),
        ..h.numbers
    };
    HeapModel {
        next: (h.next + 1) as usize,
        objects: h.objects.push((h.next, o)),
        young_from: h.young_from,
        remembered: h.remembered,
        numbers: if pressed(n) {
            Numbers { gc_pending: true, ..n }
        } else {
            n
        },
    }
}

/// The old objects mutated since the last collection, with one more.
pub open spec fn logged(h: HeapModel, handle: usize) -> Seq<usize> {
    if handle < h.young_from && !h.remembered.contains(handle) {
        h.remembered.push(handle)
    } else {
        h.remembered
    }
}

/// Objects with another object behind a handle.
pub open spec fn replaced(objs: Seq<(usize, ObjectModel)>, handle: usize, o: ObjectModel) -> Seq<
    (usize, ObjectModel),
> {
    Seq::new(
        objs.len(),
        |i: int|
            if objs[i].0 == handle {
                (handle, o)
            } else {
                objs[i]
            },
    )
}

/// The heap with another object behind a handle. An old object joins the
/// remembered set until the next collection.
pub open spec fn with_change(h: HeapModel, handle: usize, o: ObjectModel) -> HeapModel {
    HeapModel {
        next: h.next,
        objects: replaced(h.objects, handle, o),
        young_from: h.young_from,
        remembered: logged(h, handle),
        numbers: h.numbers,
    }
}

fn cap_sum(a: usize, b: usize) -> (r: usize)
    ensures
        r == capped(a + b),
{
    if a > usize::MAX - b {
        usize::MAX
    } else {
        a + b
    }
}

fn cap_product(a: usize, b: usize) -> (r: usize)
    ensures
        r == capped(a * b),
{
    match a.checked_mul(b) {
        Some(x) => x,
        None => usize::MAX,
    }
}

fn count_one(n: u64) -> (r: u64)
    ensures
        r == one_more(n),
{
    if n == u64::MAX {
        n
    } else {
        n + 1
    }
}

fn list_size(n: usize, twice: bool) -> (r: usize)
    ensures
        r == capped(
            (n * (if twice {
                2int
            } else {
                1int
            })) * vstd::layout::size_of::<Value>() + vstd::layout::size_of::<AuraObject>(),
        ),
{
    let unit: usize = std::mem::size_of::<Value>();
    let base: usize = std::mem::size_of::<AuraObject>();
    let count: usize = if twice {
        cap_sum(n, n)
    } else {
        n
    };
    let ghost k = n * (if twice {
        2int
    } else {
        1int
    });
    let all: usize = cap_product(count, unit);
    proof {
        assert(k * unit >= 0) by (nonlinear_arith)
            requires
                k >= 0,
                unit >= 0,
        ;
        if k > usize::MAX && unit >= 1 {
            assert(k * unit >= k) by (nonlinear_arith)
                requires
                    unit >= 1,
                    k >= 0,
            ;
            assert(usize::MAX * unit >= usize::MAX) by (nonlinear_arith)
                requires
                    unit >= 1,
            ;
        }
        if unit == 0 {
            assert(k * unit == 0) by (nonlinear_arith)
                requires
                    unit == 0,
            ;
            assert(count * unit == 0) by (nonlinear_arith)
                requires
                    unit == 0,
            ;
        }
    }
    cap_sum(all, base)
}

impl AuraObject {
    /// Approximate size in bytes.
    pub fn approx_size(&self) -> (r: usize)
        ensures
            r == approx(self@),
    {
        match self {
            AuraObject::String(s) => {
                let n: usize = s.as_str().len();
                let bytes: &[u8] = s.as_str().as_bytes();
                assert(bytes@ == vstd::utf8::encode_utf8(s@));
                bytes.len()
            },
            AuraObject::Instance { class_id: _, fields } => list_size(fields.len(), false),
            AuraObject::Array { elements } => list_size(elements.len(), false),
            AuraObject::ItemSet { elements } => list_size(elements.len(), false),
            AuraObject::Closure { method: _, captured } => list_size(captured.len(), false),
            AuraObject::Dict { entries } => list_size(entries.len(), true),
            AuraObject::Enum(e) => list_size(e.fields.len(), false),
            AuraObject::Tuple(t) => list_size(t.elements.len(), false),
            AuraObject::Task { result: _ } => std::mem::size_of::<AuraObject>(),
        }
    }
}

// ---------------------------------------------------------------------------
// Tracing
// ---------------------------------------------------------------------------

/// A handle is reached from the seeds in `n` steps through live objects whose
/// handles are at least `from`.
pub open spec fn reached_in(
    objs: Seq<(usize, ObjectModel)>,
    seed: spec_fn(usize) -> bool,
    from: usize,
    h: usize,
    n: nat,
) -> bool
    decreases n,
{
    if n == 0 {
        seed(h)
    } else {
        exists|g: usize| #[trigger]
            leads_to(objs, from, g, h) && reached_in(objs, seed, from, g, (n - 1) as nat)
    }
}

/// A live object whose handle is at least `from` refers to a handle.
pub open spec fn leads_to(
    objs: Seq<(usize, ObjectModel)>,
    from: usize,
    g: usize,
    h: usize,
) -> bool {
    g >= from && (object_at(objs, g) matches Some(o) && points_to(o, h))
}

/// A handle is reached from the seeds through live objects whose handles are at
/// least `from`.
pub open spec fn reached(
    objs: Seq<(usize, ObjectModel)>,
    seed: spec_fn(usize) -> bool,
    from: usize,
    h: usize,
) -> bool {
    exists|n: nat| reached_in(objs, seed, from, h, n)
}

/// What is reached from what is reached is reached.
proof fn reached_step(
    objs: Seq<(usize, ObjectModel)>,
    seed: spec_fn(usize) -> bool,
    from: usize,
    g: usize,
    h: usize,
)
    requires
        reached(objs, seed, from, g),
        g >= from,
        object_at(objs, g) is Some,
        points_to(object_at(objs, g)->0, h),
    ensures
        reached(objs, seed, from, h),
{
    let n = choose|n: nat| reached_in(objs, seed, from, g, n);
    assert(leads_to(objs, from, g, h));
    assert(((n + 1) - 1) as nat == n);
    assert(reached_in(objs, seed, from, h, n + 1));
}

/// Nothing is left to be done for a handle: it is not traced, or its object is
/// marked.
pub open spec fn settled(
    objs: Seq<(usize, ObjectModel)>,
    marks: Seq<bool>,
    from: usize,
    h: usize,
) -> bool {
    forall|p: int|
        0 <= p < objs.len() && (#[trigger] objs[p]).0 == h && h >= from ==> marks[p]
}

/// How many of the first `n` objects are not marked.
pub open spec fn unmarked(marks: Seq<bool>, n: int) -> nat
    decreases n,
{
    if n <= 0 {
        0
    } else {
        unmarked(marks, n - 1) + (if marks[n - 1] {
            0nat
        } else {
            1nat
        })
    }
}

proof fn unmarked_set(marks: Seq<bool>, p: int, n: int)
    requires
        0 <= p < marks.len(),
        0 <= n <= marks.len(),
        !marks[p],
    ensures
        p < n ==> unmarked(marks.update(p, true), n) + 1 == unmarked(marks, n),
        p >= n ==> unmarked(marks.update(p, true), n) == unmarked(marks, n),
    decreases n,
{
    if n > 0 {
        unmarked_set(marks, p, n - 1);
    }
}

/// When everything that has been come upon is settled, everything that is
/// reached is settled.
proof fn reached_settled(
    objs: Seq<(usize, ObjectModel)>,
    seed: spec_fn(usize) -> bool,
    from: usize,
    marks: Seq<bool>,
    h: usize,
    n: nat,
)
    requires
        increasing(objs),
        marks.len() == objs.len(),
        forall|x: usize| #[trigger] seed(x) ==> settled(objs, marks, from, x),
        forall|p: int, x: usize|
            0 <= p < objs.len() && marks[p] && #[trigger] points_to(objs[p].1, x) ==> settled(
                objs,
                marks,
                from,
                x,
            ),
        reached_in(objs, seed, from, h, n),
    ensures
        settled(objs, marks, from, h),
    decreases n,
{
    if n > 0 {
        let g = choose|g: usize| #[trigger]
            leads_to(objs, from, g, h) && reached_in(objs, seed, from, g, (n - 1) as nat);
        reached_settled(objs, seed, from, marks, g, (n - 1) as nat);
        let p = object_from_some(objs, g, 0);
        assert(objs[p].0 == g);
        assert(marks[p]);
        assert(points_to(objs[p].1, h));
    }
}

fn find_object(objects: &Vec<(usize, AuraObject)>, h: usize) -> (r: Option<usize>)
    requires
        increasing(object_models(objects@)),
    ensures
        match r {
            Some(p) => p < objects@.len() && objects@[p as int].0 == h && object_at(
                object_models(objects@),
                h,
            ) == Some(objects@[p as int].1@),
            None => object_at(object_models(objects@), h) is None && forall|i: int|
                0 <= i < objects@.len() ==> (#[trigger] objects@[i]).0 != h,
        },
{
    let ghost objs = object_models(objects@);
    let mut lo: usize = 0;
    let mut hi: usize = objects.len();
    while lo < hi
        invariant
            lo <= hi <= objects@.len(),
            objs == object_models(objects@),
            increasing(objs),
            forall|i: int| 0 <= i < lo ==> (#[trigger] objects@[i]).0 < h,
            forall|i: int| hi <= i < objects@.len() ==> (#[trigger] objects@[i]).0 > h,
        decreases hi - lo,
    {
        let mid: usize = lo + (hi - lo) / 2;
        assert(objs[mid as int].0 == objects@[mid as int].0);
        let k: usize = objects[mid].0;
        if k == h {
            proof {
                object_at_place(objs, mid as int);
            }
            return Some(mid);
        }
        if k < h {
            proof {
                assert forall|i: int| 0 <= i < mid + 1 implies (#[trigger] objects@[i]).0 < h by {
                    if i < mid {
                        assert(objs[i].0 < objs[mid as int].0);
                    }
                }
            }
            lo = mid + 1;
        } else {
            proof {
                assert forall|i: int| mid <= i < objects@.len() implies (#[trigger] objects@[i]).0
                    > h by {
                    if i > mid {
                        assert(objs[mid as int].0 < objs[i].0);
                    }
                }
            }
            hi = mid;
        }
    }
    proof {
        if object_at(objs, h) is Some {
            let p = object_from_some(objs, h, 0);
            assert(objects@[p].0 == h);
        }
    }
    None
}

/// The marks of the objects that are reached.
pub open spec fn marks_reached(
    objs: Seq<(usize, ObjectModel)>,
    seed: spec_fn(usize) -> bool,
    from: usize,
    marks: Seq<bool>,
) -> bool {
    &&& marks.len() == objs.len()
    &&& forall|p: int|
        0 <= p < objs.len() ==> (#[trigger] marks[p] <==> objs[p].0 >= from && reached(
            objs,
            seed,
            from,
            objs[p].0,
        ))
}

#[verifier::rlimit(60)]
fn trace(
    objects: &Vec<(usize, AuraObject)>,
    seeds: Vec<usize>,
    from: usize,
    Ghost(seed): Ghost<spec_fn(usize) -> bool>,
) -> (marks: Vec<bool>)
    requires
        increasing(object_models(objects@)),
        forall|h: usize| #![trigger seeds@.contains(h)] seeds@.contains(h) <==> seed(h),
        forall|h: usize| #![trigger seed(h)] seeds@.contains(h) <==> seed(h),
    ensures
        marks_reached(object_models(objects@), seed, from, marks@),
{
    let ghost objs = object_models(objects@);
    let mut marks: Vec<bool> = Vec::new();
    let mut k: usize = 0;
    while k < objects.len()
        invariant
            k <= objects@.len(),
            marks@.len() == k,
            forall|p: int| 0 <= p < k ==> !(#[trigger] marks@[p]),
        decreases objects.len() - k,
    {
        marks.push(false);
        k = k + 1;
    }
    let mut work: Vec<usize> = seeds;
    proof {
        assert forall|h: usize| work@.contains(h) implies reached(objs, seed, from, h) by {
            assert(seed(h));
            assert(reached_in(objs, seed, from, h, 0));
        }
    }
    while work.len() > 0
        invariant
            objs == object_models(objects@),
            objs.len() == objects@.len(),
            increasing(objs),
            marks@.len() == objs.len(),
            forall|p: int|
                0 <= p < objs.len() && #[trigger] marks@[p] ==> objs[p].0 >= from && reached(
                    objs,
                    seed,
                    from,
                    objs[p].0,
                ),
            forall|h: usize| #[trigger] work@.contains(h) ==> reached(objs, seed, from, h),
            forall|h: usize| #[trigger]
                seed(h) ==> work@.contains(h) || settled(objs, marks@, from, h),
            forall|p: int, h: usize|
                0 <= p < objs.len() && marks@[p] && #[trigger] points_to(objs[p].1, h)
                    ==> work@.contains(h) || settled(objs, marks@, from, h),
        decreases unmarked(marks@, marks@.len() as int), work.len(),
    {
        let ghost work0 = work@;
        let ghost marks0 = marks@;
        let last: usize = work.len() - 1;
        let h: usize = work[last];
        assert(work0.contains(h));
        work.truncate(last);
        proof {
            assert(work0 =~= work@.push(h));
            pushed_contains(work@, h);
        }
        let ghost rest = work@;
        match find_object(objects, h) {
            None => {
                assert(settled(objs, marks@, from, h)) by {
                    assert forall|p: int|
                        0 <= p < objs.len() && (#[trigger] objs[p]).0 == h && h
                            >= from implies marks@[p] by {
                        assert(objects@[p].0 != h);
                    }
                }
                proof {
                    assert forall|x: usize| #[trigger] work@.contains(x) implies reached(
                        objs,
                        seed,
                        from,
                        x,
                    ) by {
                        assert(work0.contains(x));
                    }
                    assert forall|x: usize| #[trigger] seed(x) implies work@.contains(x) || settled(
                        objs,
                        marks@,
                        from,
                        x,
                    ) by {
                        assert(work0.contains(x) || settled(objs, marks0, from, x));
                    }
                }
            },
            Some(p) => {
                assert(objs[p as int].0 == h);
                assert(objs[p as int].1 == objects@[p as int].1@);
                if h >= from && !marks[p] {
                    marks.set(p, true);
                    objects[p].1.references(&mut work);
                    proof {
                        unmarked_set(marks0, p as int, marks0.len() as int);
                        assert(settled(objs, marks@, from, h)) by {
                            assert forall|q: int|
                                0 <= q < objs.len() && (#[trigger] objs[q]).0 == h && h
                                    >= from implies marks@[q] by {
                                if q != p {
                                    if q < p {
                                        assert(objs[q].0 < objs[p as int].0);
                                    } else {
                                        assert(objs[p as int].0 < objs[q].0);
                                    }
                                }
                            }
                        }
                        assert forall|x: usize| settled(objs, marks0, from, x) implies settled(
                            objs,
                            marks@,
                            from,
                            x,
                        ) by {
                            assert forall|q: int|
                                0 <= q < objs.len() && (#[trigger] objs[q]).0 == x && x
                                    >= from implies marks@[q] by {
                                assert(marks0[q]);
                            }
                        }
                        assert forall|x: usize| #[trigger] work@.contains(x) implies reached(
                            objs,
                            seed,
                            from,
                            x,
                        ) by {
                            if rest.contains(x) {
                                assert(work0.contains(x));
                            } else {
                                assert(points_to(objs[p as int].1, x));
                                object_at_place(objs, p as int);
                                reached_step(objs, seed, from, h, x);
                            }
                        }
                        assert forall|x: usize| #[trigger] seed(x) implies work@.contains(x)
                            || settled(objs, marks@, from, x) by {
                            assert(work0.contains(x) || settled(objs, marks0, from, x));
                            if work0.contains(x) && x != h {
                                assert(rest.contains(x));
                            }
                        }
                        assert forall|q: int, x: usize|
                            0 <= q < objs.len() && marks@[q] && #[trigger] points_to(
                                objs[q].1,
                                x,
                            ) implies work@.contains(x) || settled(objs, marks@, from, x) by {
                            if q != p {
                                assert(marks0[q]);
                                assert(work0.contains(x) || settled(objs, marks0, from, x));
                                if work0.contains(x) && x != h {
                                    assert(rest.contains(x));
                                }
                            } else {
                                assert(work@.contains(x));
                            }
                        }
                    }
                } else {
                    proof {
                        assert(settled(objs, marks@, from, h)) by {
                            assert forall|q: int|
                                0 <= q < objs.len() && (#[trigger] objs[q]).0 == h && h
                                    >= from implies marks@[q] by {
                                if q != p {
                                    if q < p {
                                        assert(objs[q].0 < objs[p as int].0);
                                    } else {
                                        assert(objs[p as int].0 < objs[q].0);
                                    }
                                }
                            }
                        }
                        assert forall|x: usize| #[trigger] work@.contains(x) implies reached(
                            objs,
                            seed,
                            from,
                            x,
                        ) by {
                            assert(work0.contains(x));
                        }
                        assert forall|x: usize| #[trigger] seed(x) implies work@.contains(x)
                            || settled(objs, marks@, from, x) by {
                            assert(work0.contains(x) || settled(objs, marks0, from, x));
                        }
                    }
                }
            },
        }
    }
    proof {
        assert forall|p: int| 0 <= p < objs.len() implies (#[trigger] marks@[p] <==> objs[p].0
            >= from && reached(objs, seed, from, objs[p].0)) by {
            if objs[p].0 >= from && reached(objs, seed, from, objs[p].0) {
                let n = choose|n: nat| reached_in(objs, seed, from, objs[p].0, n);
                assert forall|x: usize| #[trigger] seed(x) implies settled(
                    objs,
                    marks@,
                    from,
                    x,
                ) by {
                    assert(!work@.contains(x));
                }
                assert forall|q: int, x: usize|
                    0 <= q < objs.len() && marks@[q] && #[trigger] points_to(
                        objs[q].1,
                        x,
                    ) implies settled(objs, marks@, from, x) by {
                    assert(!work@.contains(x));
                }
                reached_settled(objs, seed, from, marks@, objs[p].0, n);
            }
        }
    }
    marks
}

// ---------------------------------------------------------------------------
// Sweeping
// ---------------------------------------------------------------------------

/// The first `n` objects that are kept.
pub open spec fn kept(
    objs: Seq<(usize, ObjectModel)>,
    keep: spec_fn(usize) -> bool,
    n: int,
) -> Seq<(usize, ObjectModel)>
    decreases n,
{
    if n <= 0 {
        seq![]
    } else if keep(objs[n - 1].0) {
        kept(objs, keep, n - 1).push(objs[n - 1])
    } else {
        kept(objs, keep, n - 1)
    }
}

/// The size of the objects among the first `n` that are not kept.
pub open spec fn dropped_size(
    objs: Seq<(usize, ObjectModel)>,
    keep: spec_fn(usize) -> bool,
    n: int,
) -> int
    decreases n,
{
    if n <= 0 {
        0
    } else {
        dropped_size(objs, keep, n - 1) + (if keep(objs[n - 1].0) {
            0
        } else {
            approx(objs[n - 1].1) as int
        })
    }
}

/// The size of the first `n` objects.
pub open spec fn total_size(objs: Seq<(usize, ObjectModel)>, n: int) -> int
    decreases n,
{
    if n <= 0 {
        0
    } else {
        total_size(objs, n - 1) + approx(objs[n - 1].1)
    }
}

/// The difference, or zero.
pub open spec fn less(a: int, b: int) -> int {
    if a > b {
        a - b
    } else {
        0
    }
}

/// Numbers after a collection freed what is not in `left`.
pub open spec fn freed_to(n: Numbers, left: usize) -> u64 {
    let sum = n.bytes_freed + less(n.allocated as int, left as int);
    if sum > u64::MAX {
        u64::MAX
    } else {
        sum as u64
    }
}

/// The seeds of a minor collection: the roots, and what the remembered objects
/// refer to.
pub open spec fn minor_seed(h: HeapModel, roots: Seq<usize>, x: usize) -> bool {
    roots.contains(x) || exists|i: int|
        0 <= i < h.remembered.len() && (object_at(h.objects, #[trigger] h.remembered[i]) matches Some(
            o,
        ) && points_to(o, x))
}

/// What a minor collection keeps: old objects, and nursery objects that are
/// reached through the nursery.
pub open spec fn minor_keeps(h: HeapModel, roots: Seq<usize>, x: usize) -> bool {
    x < h.young_from || reached(
        h.objects,
        |y: usize| minor_seed(h, roots, y),
        h.young_from,
        x,
    )
}

/// Minor collection: trace only the nursery. Old objects are terminal
/// during the trace — an old object can only point into the nursery if
/// it was mutated since the last collection, and every such object is in the
/// remembered set, whose children seed the trace.
/// Survivors are promoted (the nursery empties either way).
pub open spec fn after_minor(h: HeapModel, roots: Seq<usize>) -> HeapModel {
    let keep = |x: usize| minor_keeps(h, roots, x);
    let n = h.objects.len() as int;
    let left = less(h.numbers.allocated as int, dropped_size(h.objects, keep, n)) as usize;
    HeapModel {
        next: h.next,
        objects: kept(h.objects, keep, n),
        young_from: h.next,
        remembered: seq![],
        numbers: Numbers {
            allocated: left,
            young_bytes: 0,
            gc_pending: left >= h.numbers.threshold,
            collections: one_more(h.numbers.collections),
            minor_collections: one_more(h.numbers.minor_collections),
            bytes_freed: freed_to(h.numbers, left),
            ..h.numbers
        },
    }
}

/// What a major collection keeps: what is reached from the roots.
pub open spec fn major_keeps(h: HeapModel, roots: Seq<usize>, x: usize) -> bool {
    reached(h.objects, |y: usize| roots.contains(y), 0, x)
}

/// The larger of two numbers.
pub open spec fn larger(a: usize, b: usize) -> usize {
    if a < b {
        b
    } else {
        a
    }
}

/// The smaller of two numbers.
pub open spec fn smaller(a: usize, b: usize) -> usize {
    if b < a {
        b
    } else {
        a
    }
}

/// The threshold after a major collection that left this many bytes.
pub open spec fn next_threshold(n: Numbers, left: usize) -> usize {
    larger(
        larger(capped(left * n.growth_factor), smaller(n.threshold, DEFAULT_GC_THRESHOLD)),
        1,
    )
}

/// Major collection: full mark-and-sweep over every generation.
pub open spec fn after_major(h: HeapModel, roots: Seq<usize>) -> HeapModel {
    let keep = |x: usize| major_keeps(h, roots, x);
    let objs = kept(h.objects, keep, h.objects.len() as int);
    let left = capped(total_size(objs, objs.len() as int));
    let next = Numbers {
        allocated: left,
        young_bytes: 0,
        threshold: next_threshold(h.numbers, left),
        collections: one_more(h.numbers.collections),
        major_collections: one_more(h.numbers.major_collections),
        bytes_freed: freed_to(h.numbers, left),
        ..h.numbers
    };
    HeapModel {
        next: h.next,
        objects: objs,
        young_from: h.next,
        remembered: seq![],
        numbers: Numbers { gc_pending: pressed(next), ..next },
    }
}

/// Only the nursery is under pressure.
pub open spec fn minor_first(h: HeapModel) -> bool {
    &&& !(h.numbers.max_heap matches Some(limit) && h.numbers.allocated > limit)
    &&& h.numbers.allocated < h.numbers.threshold
    &&& h.young_from < h.next
}

/// A collection: a minor (nursery-only) pass when only the nursery is under
/// pressure, escalating to a full mark-and-sweep when the whole heap is.
pub open spec fn after_collect(h: HeapModel, roots: Seq<usize>) -> HeapModel {
    if minor_first(h) {
        let m = after_minor(h, roots);
        if m.numbers.allocated < m.numbers.threshold {
            m
        } else {
            after_major(m, roots)
        }
    } else {
        after_major(h, roots)
    }
}

/// What a minor pause does to the numbers: shrink the nursery when minors run
/// over target (less work per pause), grow it back when far under (fewer
/// pauses), within bounds.
pub open spec fn minor_paused(n: Numbers, pause: u64) -> Numbers {
    let counted = Numbers {
        minor_pause_total: sum_of(n.minor_pause_total, pause),
        max_minor_pause: longer(n.max_minor_pause, pause),
        ..n
    };
    match n.pause_target {
        None => counted,
        Some(target) => {
            let now = nursery_size(n);
            if pause > target {
                Numbers { nursery_override: Some(bounded(now as int / 2)), ..counted }
            } else if pause * 4 < target {
                Numbers { nursery_override: Some(bounded(now * 2)), ..counted }
            } else {
                counted
            }
        },
    }
}

/// A nursery size within its bounds.
pub open spec fn bounded(n: int) -> usize {
    if n < NURSERY_MIN {
        NURSERY_MIN
    } else if n > NURSERY_MAX {
        NURSERY_MAX
    } else {
        n as usize
    }
}

/// The sum, as far as it can be counted.
pub open spec fn sum_of(a: u64, b: u64) -> u64 {
    if a + b > u64::MAX {
        u64::MAX
    } else {
        (a + b) as u64
    }
}

/// The longer of two pauses.
pub open spec fn longer(a: u64, b: u64) -> u64 {
    if a < b {
        b
    } else {
        a
    }
}

/// What a major pause does to the numbers.
pub open spec fn major_paused(n: Numbers, pause: u64) -> Numbers {
    Numbers {
        major_pause_total: sum_of(n.major_pause_total, pause),
        max_major_pause: longer(n.max_major_pause, pause),
        ..n
    }
}

fn sum_up(a: u64, b: u64) -> (r: u64)
    ensures
        r == sum_of(a, b),
{
    if a > u64::MAX - b {
        u64::MAX
    } else {
        a + b
    }
}

fn sat_sub(a: usize, b: usize) -> (r: usize)
    ensures
        r == less(a as int, b as int),
{
    if a > b {
        a - b
    } else {
        0
    }
}

impl Numbers {
    /// Nursery pressure that triggers a minor collection.
    pub fn minor_threshold(&self) -> (r: usize)
        ensures
            r == nursery_size(*self),
    {
        let base: usize = match self.nursery_override {
            Some(x) => x,
            None => if self.threshold / 2 < DEFAULT_GC_THRESHOLD {
                self.threshold / 2
            } else {
                DEFAULT_GC_THRESHOLD
            },
        };
        if base < 1 {
            1
        } else {
            base
        }
    }

    fn is_pressed(&self) -> (r: bool)
        ensures
            r == pressed(*self),
    {
        self.allocated >= self.threshold || self.young_bytes >= self.minor_threshold()
    }

    fn freed(&self, left: usize) -> (r: u64)
        ensures
            r == freed_to(*self, left),
    {
        let gone: usize = sat_sub(self.allocated, left);
        if self.bytes_freed > u64::MAX - gone as u64 {
            u64::MAX
        } else {
            self.bytes_freed + gone as u64
        }
    }
}

impl Heap {
    /// Create a new heap with the default collection threshold.
    pub fn new() -> (r: Self)
        ensures
            heap_ok(r@),
            r@ == empty_heap(DEFAULT_GC_THRESHOLD),
    {
        Self::with_threshold(DEFAULT_GC_THRESHOLD)
    }

    /// Create a new heap with a custom collection threshold.
    pub fn with_threshold(threshold: usize) -> (r: Self)
        ensures
            heap_ok(r@),
            r@ == empty_heap(threshold),
    {
        let r: Heap = Heap {
            next_gen: 1,
            objects: Vec::new(),
            young_from: 1,
            remembered: Vec::new(),
            numbers: Numbers {
                allocated: 0,
                threshold,
                gc_pending: false,
                collections: 0,
                minor_collections: 0,
                major_collections: 0,
                total_allocations: 0,
                young_bytes: 0,
                nursery_override: None,
                max_heap: None,
                growth_factor: 2,
                pause_target: None,
                minor_pause_total: 0,
                major_pause_total: 0,
                max_minor_pause: 0,
                max_major_pause: 0,
                bytes_freed: 0,
            },
        };
        assert(r@ =~= empty_heap(threshold)) by {
            assert(r@.objects =~= seq![]);
            assert(r@.remembered =~= seq![]);
        }
        r
    }

    /// Set an explicit nursery size (None restores the derived default).
    pub fn set_nursery_size(&mut self, bytes: Option<usize>)
        ensures
            final(self)@ == with_numbers(
                old(self)@,
                Numbers { nursery_override: bytes, ..old(self)@.numbers },
            ),
    {
        self.numbers.nursery_override = bytes;
    }

    /// Set a hard heap limit (checked after full collections).
    pub fn set_max_heap(&mut self, bytes: Option<usize>)
        ensures
            final(self)@ == with_numbers(
                old(self)@,
                Numbers { max_heap: bytes, ..old(self)@.numbers },
            ),
    {
        self.numbers.max_heap = bytes;
    }

    /// Live bytes exceeding the configured limit after the last full
    /// collection, as (live, limit).
    pub fn over_max_heap(&self) -> (r: Option<(usize, usize)>)
        ensures
            r == (match self@.numbers.max_heap {
                Some(limit) => if self@.numbers.allocated > limit {
                    Some((self@.numbers.allocated, limit))
                } else {
                    None
                },
                None => None,
            }),
    {
        match self.numbers.max_heap {
            Some(limit) => if self.numbers.allocated > limit {
                Some((self.numbers.allocated, limit))
            } else {
                None
            },
            None => None,
        }
    }

    /// Best-effort soft target for minor pause times in nanoseconds (None
    /// disables the feedback loop).
    pub fn set_pause_target(&mut self, target: Option<u64>)
        ensures
            final(self)@ == with_numbers(
                old(self)@,
                Numbers { pause_target: target, ..old(self)@.numbers },
            ),
    {
        self.numbers.pause_target = target;
    }

    /// Apply a disposition preset.
    pub fn set_mode(&mut self, mode: GcMode)
        ensures
            final(self)@ == with_numbers(
                old(self)@,
                match mode {
                    GcMode::Throughput => Numbers {
                        nursery_override: Some(262144),
                        growth_factor: 3,
                        ..old(self)@.numbers
                    },
                    GcMode::Balanced => Numbers {
                        nursery_override: None,
                        growth_factor: 2,
                        ..old(self)@.numbers
                    },
                    GcMode::Latency => Numbers {
                        nursery_override: Some(16384),
                        growth_factor: 2,
                        ..old(self)@.numbers
                    },
                },
            ),
    {
        match mode {
            GcMode::Throughput => {
                self.numbers.nursery_override = Some(262144);
                self.numbers.growth_factor = 3;
            },
            GcMode::Balanced => {
                self.numbers.nursery_override = None;
                self.numbers.growth_factor = 2;
            },
            GcMode::Latency => {
                self.numbers.nursery_override = Some(16384);
                self.numbers.growth_factor = 2;
            },
        }
    }

    /// Snapshot the collector's counters and configuration.
    pub fn stats(&self) -> (r: GcStats)
        ensures
            r == stats_of(self@),
    {
        assert(self@.objects.len() == self.objects@.len());
        GcStats {
            collections: self.numbers.collections,
            minor_collections: self.numbers.minor_collections,
            major_collections: self.numbers.major_collections,
            live_objects: self.objects.len(),
            live_bytes: self.numbers.allocated,
            total_allocations: self.numbers.total_allocations,
            bytes_freed: self.numbers.bytes_freed,
            threshold: self.numbers.threshold,
            nursery_size: self.numbers.minor_threshold(),
            minor_pause_total: self.numbers.minor_pause_total,
            major_pause_total: self.numbers.major_pause_total,
            max_minor_pause: self.numbers.max_minor_pause,
            max_major_pause: self.numbers.max_major_pause,
        }
    }

    /// Replace the collection threshold (also re-arms the pending check).
    pub fn set_threshold(&mut self, threshold: usize)
        ensures
            ({
                let n = Numbers { threshold, ..old(self)@.numbers };
                final(self)@ == with_numbers(
                    old(self)@,
                    if pressed(n) {
                        Numbers { gc_pending: true, ..n }
                    } else {
                        n
                    },
                )
            }),
    {
        self.numbers.threshold = threshold;
        if self.numbers.is_pressed() {
            self.numbers.gc_pending = true;
        }
    }

    /// True if a collection should run at the next safepoint.
    pub fn needs_collect(&self) -> (r: bool)
        ensures
            r == self@.numbers.gc_pending,
    {
        self.numbers.gc_pending
    }

    /// Number of collections run so far (minor and major combined).
    pub fn collections(&self) -> (r: u64)
        ensures
            r == self@.numbers.collections,
    {
        self.numbers.collections
    }

    /// Number of minor (nursery-only) collections run so far.
    pub fn minor_collections(&self) -> (r: u64)
        ensures
            r == self@.numbers.minor_collections,
    {
        self.numbers.minor_collections
    }

    /// Number of major (full-heap) collections run so far.
    pub fn major_collections(&self) -> (r: u64)
        ensures
            r == self@.numbers.major_collections,
    {
        self.numbers.major_collections
    }

    /// Total number of objects ever allocated (monotonic).
    pub fn total_allocations(&self) -> (r: u64)
        ensures
            r == self@.numbers.total_allocations,
    {
        self.numbers.total_allocations
    }

    /// Number of live objects.
    pub fn live_count(&self) -> (r: usize)
        ensures
            r == self@.objects.len(),
    {
        self.objects.len()
    }

    /// Whether handles are left to be given out.
    pub fn has_room(&self) -> (r: bool)
        ensures
            r == (self@.next < usize::MAX),
    {
        self.next_gen < usize::MAX
    }

    /// True if `handle` refers to a live object.
    pub fn contains(&self, handle: GcRef) -> (r: bool)
        requires
            heap_ok(self@),
        ensures
            r == (object_at(self@.objects, handle.0) is Some),
    {
        find_object(&self.objects, handle.0).is_some()
    }

    /// Allocate a new object on the heap.
    pub fn allocate(&mut self, object: AuraObject) -> (r: GcRef)
        requires
            heap_ok(old(self)@),
            old(self)@.next < usize::MAX,
        ensures
            heap_ok(final(self)@),
            r.0 == old(self)@.next,
            final(self)@ == with_object(old(self)@, object@),
    {
        let ghost before = self@;
        let handle: usize = self.next_gen;
        self.next_gen = handle + 1;
        let size: usize = object.approx_size();
        self.numbers.allocated = cap_sum(self.numbers.allocated, size);
        self.numbers.young_bytes = cap_sum(self.numbers.young_bytes, size);
        self.numbers.total_allocations = count_one(self.numbers.total_allocations);
        let ghost o = object@;
        self.objects.push((handle, object));
        if self.numbers.is_pressed() {
            // Don't collect here: the caller may hold unrooted handles.
            // Flag the need and let the VM collect at a
            // safepoint where every live reference is visible.
            self.numbers.gc_pending = true;
        }
        assert(object_models(self.objects@) =~= before.objects.push((handle, o)));
        assert(self@ =~= with_object(before, o));
        GcRef(handle)
    }

    /// Borrow an object from the heap.
    pub fn get(&self, handle: GcRef) -> (r: Result<&AuraObject, HeapError>)
        requires
            heap_ok(self@),
        ensures
            match r {
                Ok(o) => object_at(self@.objects, handle.0) == Some(o@),
                Err(e) => object_at(self@.objects, handle.0) is None && e == HeapError::InvalidRef(
                    handle,
                ),
            },
    {
        match find_object(&self.objects, handle.0) {
            Some(p) => Ok(&self.objects[p].1),
            None => Err(HeapError::InvalidRef(handle)),
        }
    }

    /// Mutably borrow an object from the heap. Doubles as the write
    /// barrier: a mutable borrow of an old object may store nursery
    /// references into it, so it joins the remembered set until the next
    /// collection.
    pub fn get_mut(&mut self, handle: GcRef) -> (r: Result<&mut AuraObject, HeapError>)
        requires
            heap_ok(old(self)@),
        ensures
            match r {
                Ok(o) => {
                    &&& object_at(old(self)@.objects, handle.0) == Some(o@)
                    &&& final(self)@ == with_change(old(self)@, handle.0, final(o)@)
                    &&& heap_ok(final(self)@)
                },
                Err(e) => {
                    &&& object_at(old(self)@.objects, handle.0) is None
                    &&& e == HeapError::InvalidRef(handle)
                    &&& final(self)@ == old(self)@
                },
            },
    {
        let p: usize = match find_object(&self.objects, handle.0) {
            Some(p) => p,
            None => return Err(HeapError::InvalidRef(handle)),
        };
        if handle.0 < self.young_from && !contains_handle(&self.remembered, handle.0) {
            self.remembered.push(handle.0);
        }
        proof {
            let objs = object_models(self.objects@);
            assert forall|o: AuraObject| #[trigger]
                object_models(self.objects@.update(p as int, (handle.0, o))) == replaced(
                    objs,
                    handle.0,
                    o@,
                ) by {
                change_at(self.objects@, p as int, o);
            }
        }
        Ok(&mut self.objects[p].1)
    }
}

proof fn change_at(objects: Seq<(usize, AuraObject)>, p: int, o: AuraObject)
    requires
        0 <= p < objects.len(),
        increasing(object_models(objects)),
    ensures
        object_models(objects.update(p, (objects[p].0, o))) == replaced(
            object_models(objects),
            objects[p].0,
            o@,
        ),
{
    let objs = object_models(objects);
    let next = object_models(objects.update(p, (objects[p].0, o)));
    assert forall|i: int| 0 <= i < objs.len() implies next[i] == replaced(
        objs,
        objects[p].0,
        o@,
    )[i] by {
        if i < p {
            assert(objs[i].0 < objs[p].0);
        } else if i > p {
            assert(objs[p].0 < objs[i].0);
        }
    }
    assert(next =~= replaced(objs, objects[p].0, o@));
}

fn contains_handle(v: &Vec<usize>, h: usize) -> (r: bool)
    ensures
        r == v@.contains(h),
{
    let mut i: usize = 0;
    while i < v.len()
        invariant
            i <= v@.len(),
            forall|j: int| 0 <= j < i ==> (#[trigger] v@[j]) != h,
        decreases v.len() - i,
    {
        if v[i] == h {
            return true;
        }
        i = i + 1;
    }
    false
}

/// A heap with other numbers.
pub open spec fn with_numbers(h: HeapModel, n: Numbers) -> HeapModel {
    HeapModel { numbers: n, ..h }
}

/// A heap without objects.
pub open spec fn empty_heap(threshold: usize) -> HeapModel {
    HeapModel {
        next: 1,
        objects: seq![],
        young_from: 1,
        remembered: seq![],
        numbers: Numbers {
            allocated: 0,
            threshold,
            gc_pending: false,
            collections: 0,
            minor_collections: 0,
            major_collections: 0,
            total_allocations: 0,
            young_bytes: 0,
            nursery_override: None,
            max_heap: None,
            growth_factor: 2,
            pause_target: None,
            minor_pause_total: 0,
            major_pause_total: 0,
            max_minor_pause: 0,
            max_major_pause: 0,
            bytes_freed: 0,
        },
    }
}

/// A snapshot of the numbers of a heap.
pub open spec fn stats_of(h: HeapModel) -> GcStats {
    GcStats {
        collections: h.numbers.collections,
        minor_collections: h.numbers.minor_collections,
        major_collections: h.numbers.major_collections,
        live_objects: h.objects.len() as usize,
        live_bytes: h.numbers.allocated,
        total_allocations: h.numbers.total_allocations,
        bytes_freed: h.numbers.bytes_freed,
        threshold: h.numbers.threshold,
        nursery_size: nursery_size(h.numbers),
        minor_pause_total: h.numbers.minor_pause_total,
        major_pause_total: h.numbers.major_pause_total,
        max_minor_pause: h.numbers.max_minor_pause,
        max_major_pause: h.numbers.max_major_pause,
    }
}

/// What is kept is what was there and is to be kept.
pub proof fn kept_entries(
    objs: Seq<(usize, ObjectModel)>,
    keep: spec_fn(usize) -> bool,
    n: int,
)
    requires
        increasing(objs),
        0 <= n <= objs.len(),
    ensures
        increasing(kept(objs, keep, n)),
        forall|i: int|
            0 <= i < kept(objs, keep, n).len() ==> {
                &&& keep((#[trigger] kept(objs, keep, n)[i]).0)
                &&& object_at(objs, kept(objs, keep, n)[i].0) == Some(kept(objs, keep, n)[i].1)
                &&& n < objs.len() ==> kept(objs, keep, n)[i].0 < objs[n].0
            },
        forall|p: int|
            0 <= p < n && keep((#[trigger] objs[p]).0) ==> kept(objs, keep, n).contains(objs[p]),
    decreases n,
{
    if n > 0 {
        kept_entries(objs, keep, n - 1);
        let before = kept(objs, keep, n - 1);
        let now = kept(objs, keep, n);
        object_at_place(objs, n - 1);
        if keep(objs[n - 1].0) {
            assert(now =~= before.push(objs[n - 1]));
            pushed_contains(before, objs[n - 1]);
        }
        assert forall|i: int| 0 <= i < now.len() implies {
            &&& keep((#[trigger] now[i]).0)
            &&& object_at(objs, now[i].0) == Some(now[i].1)
            &&& n < objs.len() ==> now[i].0 < objs[n].0
        } by {
            if i < before.len() {
                assert(now[i] == before[i]);
                if n < objs.len() {
                    assert(objs[n - 1].0 < objs[n].0);
                }
            } else {
                assert(now[i] == objs[n - 1]);
                if n < objs.len() {
                    assert(objs[n - 1].0 < objs[n].0);
                }
            }
        }
        assert forall|i: int, j: int| 0 <= i < j < now.len() implies (#[trigger] now[i]).0 < (
        #[trigger] now[j]).0 by {
            if j < before.len() {
                assert(now[i] == before[i] && now[j] == before[j]);
            } else {
                assert(now[i] == before[i] && now[j] == objs[n - 1]);
            }
        }
    }
}

/// The object behind a handle after sweeping.
pub proof fn kept_at(objs: Seq<(usize, ObjectModel)>, keep: spec_fn(usize) -> bool, h: usize)
    requires
        increasing(objs),
    ensures
        object_at(kept(objs, keep, objs.len() as int), h) == (if keep(h) {
            object_at(objs, h)
        } else {
            None
        }),
{
    let n = objs.len() as int;
    let left = kept(objs, keep, n);
    kept_entries(objs, keep, n);
    if object_at(left, h) is Some {
        let p = object_from_some(left, h, 0);
        assert(keep(left[p].0));
    }
    if keep(h) && object_at(objs, h) is Some {
        let p = object_from_some(objs, h, 0);
        assert(left.contains(objs[p]));
        let q = choose|q: int| 0 <= q < left.len() && left[q] == objs[p];
        object_at_place(left, q);
    }
}

/// What is kept is marked or old.
pub open spec fn marks_keep(
    objects: Seq<(usize, AuraObject)>,
    marks: Seq<bool>,
    from: usize,
    keep: spec_fn(usize) -> bool,
) -> bool {
    forall|p: int|
        0 <= p < objects.len() ==> keep((#[trigger] objects[p]).0) == (marks[p] || objects[p].0
            < from)
}

fn sweep(
    objects: Vec<(usize, AuraObject)>,
    marks: &Vec<bool>,
    from: usize,
    allocated: usize,
    Ghost(keep): Ghost<spec_fn(usize) -> bool>,
) -> (r: (Vec<(usize, AuraObject)>, usize))
    requires
        marks@.len() == objects@.len(),
        marks_keep(objects@, marks@, from, keep),
    ensures
        object_models((r.0)@) == kept(
            object_models(objects@),
            keep,
            objects@.len() as int,
        ),
        r.1 == less(
            allocated as int,
            dropped_size(object_models(objects@), keep, objects@.len() as int),
        ),
{
    let ghost objs = object_models(objects@);
    let ghost all = objects@;
    let mut out: Vec<(usize, AuraObject)> = Vec::new();
    assert(object_models(out@) =~= seq![]);
    let mut left: usize = allocated;
    let mut i: usize = 0;
    let n: usize = marks.len();
    for e in it: objects.into_iter()
        invariant
            it.seq() == all,
            i == it.index(),
            n == all.len(),
            i <= n,
            marks@.len() == all.len(),
            objs == object_models(all),
            marks_keep(all, marks@, from, keep),
            object_models(out@) == kept(objs, keep, i as int),
            left == less(allocated as int, dropped_size(objs, keep, i as int)),
            dropped_size(objs, keep, i as int) >= 0,
    {
        assert(e == all[i as int]);
        assert(objs[i as int] == (e.0, e.1@));
        assert(keep(all[i as int].0) == (marks@[i as int] || all[i as int].0 < from));
        if marks[i] || e.0 < from {
            let ghost before = object_models(out@);
            let ghost m = (e.0, e.1@);
            out.push(e);
            assert(object_models(out@) =~= before.push(m));
        } else {
            left = sat_sub(left, e.1.approx_size());
        }
        i = i + 1;
    }
    (out, left)
}

fn count_bytes(objects: &Vec<(usize, AuraObject)>) -> (r: usize)
    ensures
        r == capped(total_size(object_models(objects@), objects@.len() as int)),
{
    let ghost objs = object_models(objects@);
    let mut sum: usize = 0;
    let mut i: usize = 0;
    while i < objects.len()
        invariant
            i <= objects@.len(),
            objs == object_models(objects@),
            sum == capped(total_size(objs, i as int)),
            total_size(objs, i as int) >= 0,
        decreases objects.len() - i,
    {
        assert(objs[i as int].1 == objects@[i as int].1@);
        sum = cap_sum(sum, objects[i].1.approx_size());
        i = i + 1;
    }
    sum
}

fn copy_handles(v: &Vec<usize>) -> (r: Vec<usize>)
    ensures
        r@ == v@,
{
    let mut out: Vec<usize> = Vec::new();
    let mut i: usize = 0;
    while i < v.len()
        invariant
            i <= v@.len(),
            out@ == v@.subrange(0, i as int),
        decreases v.len() - i,
    {
        out.push(v[i]);
        assert(out@ =~= v@.subrange(0, i + 1));
        i = i + 1;
    }
    assert(v@.subrange(0, i as int) =~= v@);
    out
}

impl Heap {
    /// Resolve a string object's contents.
    pub fn get_string(&self, handle: GcRef) -> (r: Option<&str>)
        requires
            heap_ok(self@),
        ensures
            match r {
                Some(s) => string_at(self@, handle.0) == Some(s@),
                None => string_at(self@, handle.0) is None,
            },
    {
        match self.get(handle) {
            Ok(o) => match o {
                AuraObject::String(s) => Some(s.as_str()),
                _ => None,
            },
            Err(_) => None,
        }
    }

    /// Borrow an enum payload from the heap.
    pub fn get_enum(&self, handle: GcRef) -> (r: Result<&EnumValue, HeapError>)
        requires
            heap_ok(self@),
        ensures
            match r {
                Ok(e) => object_at(self@.objects, handle.0) == Some(
                    ObjectModel::Enum(e.enum_id, e.variant_idx, e.fields@),
                ),
                Err(e) => e == HeapError::InvalidRef(handle) && !(object_at(
                    self@.objects,
                    handle.0,
                ) matches Some(ObjectModel::Enum(_, _, _))),
            },
    {
        match self.get(handle) {
            Ok(o) => match o {
                AuraObject::Enum(e) => Ok(e),
                _ => Err(HeapError::InvalidRef(handle)),
            },
            Err(e) => Err(e),
        }
    }

    /// Borrow a tuple payload from the heap.
    pub fn get_tuple(&self, handle: GcRef) -> (r: Result<&TupleValue, HeapError>)
        requires
            heap_ok(self@),
        ensures
            match r {
                Ok(t) => object_at(self@.objects, handle.0) == Some(
                    ObjectModel::Tuple(t.elements@),
                ),
                Err(e) => e == HeapError::InvalidRef(handle) && !(object_at(
                    self@.objects,
                    handle.0,
                ) matches Some(ObjectModel::Tuple(_))),
            },
    {
        match self.get(handle) {
            Ok(o) => match o {
                AuraObject::Tuple(t) => Ok(t),
                _ => Err(HeapError::InvalidRef(handle)),
            },
            Err(e) => Err(e),
        }
    }

    fn minor_seeds(&self, roots: &Vec<usize>) -> (r: Vec<usize>)
        requires
            heap_ok(self@),
        ensures
            forall|x: usize|
                #![trigger r@.contains(x)]
                r@.contains(x) <==> minor_seed(self@, roots@, x),
    {
        let mut out: Vec<usize> = copy_handles(roots);
        let ghost h = self@;
        let mut i: usize = 0;
        while i < self.remembered.len()
            invariant
                i <= self.remembered@.len(),
                h == self@,
                heap_ok(h),
                forall|x: usize|
                    #![trigger out@.contains(x)]
                    out@.contains(x) <==> roots@.contains(x) || exists|k: int|
                        0 <= k < i && (object_at(h.objects, #[trigger] h.remembered[k]) matches Some(
                            o,
                        ) && points_to(o, x)),
            decreases self.remembered.len() - i,
        {
            let ghost before = out@;
            let g: usize = self.remembered[i];
            match self.get(GcRef(g)) {
                Ok(o) => o.references(&mut out),
                Err(_) => {},
            }
            proof {
                assert(h.remembered[i as int] == g);
                assert forall|x: usize| #![trigger out@.contains(x)] out@.contains(x)
                    <==> roots@.contains(x) || exists|k: int|
                    0 <= k < i + 1 && (object_at(h.objects, #[trigger] h.remembered[k]) matches Some(
                        o,
                    ) && points_to(o, x)) by {
                    let now = object_at(h.objects, g) matches Some(o) && points_to(o, x);
                    assert(before.contains(x) <==> roots@.contains(x) || exists|k: int|
                        0 <= k < i && (object_at(h.objects, #[trigger] h.remembered[k]) matches Some(
                            o,
                        ) && points_to(o, x)));
                    assert(out@.contains(x) <==> before.contains(x) || now);
                    if now {
                        assert(object_at(h.objects, h.remembered[i as int]) matches Some(o)
                            && points_to(o, x));
                    }
                }
            }
            i = i + 1;
        }
        out
    }

    /// Minor collection: trace only the nursery.
    pub fn collect_minor(&mut self, roots: &Vec<usize>)
        requires
            heap_ok(old(self)@),
        ensures
            heap_ok(final(self)@),
            final(self)@ == after_minor(old(self)@, roots@),
    {
        let ghost h = self@;
        let ghost seed = |x: usize| minor_seed(h, roots@, x);
        let ghost keep = |x: usize| minor_keeps(h, roots@, x);
        let seeds: Vec<usize> = self.minor_seeds(roots);
        let from: usize = self.young_from;
        let marks: Vec<bool> = trace(&self.objects, seeds, from, Ghost(seed));
        let allocated: usize = self.numbers.allocated;
        let mut objects: Vec<(usize, AuraObject)> = Vec::new();
        std::mem::swap(&mut objects, &mut self.objects);
        assert(object_models(objects@) == h.objects);
        proof {
            assert forall|p: int| 0 <= p < objects@.len() implies keep((#[trigger] objects@[p]).0)
                == (marks@[p] || objects@[p].0 < from) by {
                assert(h.objects[p].0 == objects@[p].0);
                assert(marks@[p] <==> h.objects[p].0 >= from && reached(
                    h.objects,
                    seed,
                    from,
                    h.objects[p].0,
                ));
            }
        }
        let (left, bytes) = sweep(objects, &marks, from, allocated, Ghost(keep));
        self.objects = left;
        self.young_from = self.next_gen;
        self.remembered = Vec::new();
        let freed: u64 = self.numbers.freed(bytes);
        self.numbers.bytes_freed = freed;
        self.numbers.allocated = bytes;
        self.numbers.young_bytes = 0;
        self.numbers.gc_pending = bytes >= self.numbers.threshold;
        self.numbers.collections = count_one(self.numbers.collections);
        self.numbers.minor_collections = count_one(self.numbers.minor_collections);
        proof {
            assert(self@.remembered =~= seq![]);
            kept_entries(h.objects, keep, h.objects.len() as int);
            assert(self@ =~= after_minor(h, roots@));
            assert forall|i: int| 0 <= i < self@.objects.len() implies (#[trigger] self@.objects[i]).0
                < self@.next by {
                let e = self@.objects[i];
                let p = object_from_some(h.objects, e.0, 0);
                assert(h.objects[p].0 < h.next);
            }
        }
    }

    /// Major collection: full mark-and-sweep over every generation.
    pub fn collect_major(&mut self, roots: &Vec<usize>)
        requires
            heap_ok(old(self)@),
        ensures
            heap_ok(final(self)@),
            final(self)@ == after_major(old(self)@, roots@),
    {
        let ghost h = self@;
        let ghost seed = |x: usize| roots@.contains(x);
        let ghost keep = |x: usize| major_keeps(h, roots@, x);
        let seeds: Vec<usize> = copy_handles(roots);
        let marks: Vec<bool> = trace(&self.objects, seeds, 0, Ghost(seed));
        let mut objects: Vec<(usize, AuraObject)> = Vec::new();
        std::mem::swap(&mut objects, &mut self.objects);
        assert(object_models(objects@) == h.objects);
        proof {
            assert forall|p: int| 0 <= p < objects@.len() implies keep((#[trigger] objects@[p]).0)
                == (marks@[p] || objects@[p].0 < 0) by {
                assert(h.objects[p].0 == objects@[p].0);
                assert(marks@[p] <==> h.objects[p].0 >= 0 && reached(
                    h.objects,
                    seed,
                    0,
                    h.objects[p].0,
                ));
            }
        }
        let (left, _) = sweep(objects, &marks, 0, 0, Ghost(keep));
        self.objects = left;
        // Every survivor is old now.
        self.young_from = self.next_gen;
        self.remembered = Vec::new();
        let bytes: usize = count_bytes(&self.objects);
        let freed: u64 = self.numbers.freed(bytes);
        self.numbers.bytes_freed = freed;
        self.numbers.allocated = bytes;
        self.numbers.young_bytes = 0;
        let grown: usize = cap_product(bytes, self.numbers.growth_factor);
        let floor: usize = if DEFAULT_GC_THRESHOLD < self.numbers.threshold {
            DEFAULT_GC_THRESHOLD
        } else {
            self.numbers.threshold
        };
        let wanted: usize = if grown < floor {
            floor
        } else {
            grown
        };
        self.numbers.threshold = if wanted < 1 {
            1
        } else {
            wanted
        };
        self.numbers.collections = count_one(self.numbers.collections);
        self.numbers.major_collections = count_one(self.numbers.major_collections);
        self.numbers.gc_pending = self.numbers.is_pressed();
        proof {
            assert(self@.remembered =~= seq![]);
            assert(self@.objects.len() == self.objects@.len());
            kept_entries(h.objects, keep, h.objects.len() as int);
            assert(self@ =~= after_major(h, roots@));
            assert forall|i: int| 0 <= i < self@.objects.len() implies (#[trigger] self@.objects[i]).0
                < self@.next by {
                let e = self@.objects[i];
                let p = object_from_some(h.objects, e.0, 0);
                assert(h.objects[p].0 < h.next);
            }
        }
    }

    /// Whether a collection starts with the nursery alone.
    pub fn starts_minor(&self) -> (r: bool)
        ensures
            r == minor_first(self@),
    {
        let over: bool = match self.numbers.max_heap {
            Some(limit) => self.numbers.allocated > limit,
            None => false,
        };
        !over && self.numbers.allocated < self.numbers.threshold && self.young_from
            < self.next_gen
    }

    /// Run a collection given the root set: a minor (nursery-only) pass
    /// when only the nursery is under pressure, escalating to a full
    /// mark-and-sweep when the whole heap is.
    pub fn collect(&mut self, roots: &Vec<usize>)
        requires
            heap_ok(old(self)@),
        ensures
            heap_ok(final(self)@),
            final(self)@ == after_collect(old(self)@, roots@),
    {
        if self.starts_minor() {
            self.collect_minor(roots);
            if self.numbers.allocated < self.numbers.threshold {
                return;
            }
            // The nursery pass was not enough; fall through to a full pass.
        }
        self.collect_major(roots);
    }

    /// Count the pause of a minor collection and adapt the nursery to the
    /// target.
    pub fn note_minor_pause(&mut self, pause: u64)
        ensures
            final(self)@ == with_numbers(old(self)@, minor_paused(old(self)@.numbers, pause)),
    {
        let now: usize = self.numbers.minor_threshold();
        self.numbers.minor_pause_total = sum_up(self.numbers.minor_pause_total, pause);
        if self.numbers.max_minor_pause < pause {
            self.numbers.max_minor_pause = pause;
        }
        if let Some(target) = self.numbers.pause_target {
            if pause > target {
                let half: usize = now / 2;
                self.numbers.nursery_override = Some(bound(half));
            } else if (pause as u128) * 4 < target as u128 {
                let twice: usize = cap_sum(now, now);
                self.numbers.nursery_override = Some(bound(twice));
            }
        }
    }

    /// Count the pause of a major collection.
    pub fn note_major_pause(&mut self, pause: u64)
        ensures
            final(self)@ == with_numbers(old(self)@, major_paused(old(self)@.numbers, pause)),
    {
        self.numbers.major_pause_total = sum_up(self.numbers.major_pause_total, pause);
        if self.numbers.max_major_pause < pause {
            self.numbers.max_major_pause = pause;
        }
    }
}

fn bound(n: usize) -> (r: usize)
    ensures
        r == bounded(n as int),
{
    if n < NURSERY_MIN {
        NURSERY_MIN
    } else if n > NURSERY_MAX {
        NURSERY_MAX
    } else {
        n
    }
}

/// The string behind a handle.
pub open spec fn string_at(h: HeapModel, handle: usize) -> Option<Seq<char>> {
    match object_at(h.objects, handle) {
        Some(ObjectModel::String(s)) => Some(s),
        _ => None,
    }
}

// ---------------------------------------------------------------------------
// Laws
// ---------------------------------------------------------------------------

/// A major collection keeps exactly what is reached from the roots, unchanged.
pub proof fn major_is_exact(h: HeapModel, roots: Seq<usize>, x: usize)
    requires
        heap_ok(h),
    ensures
        object_at(after_major(h, roots).objects, x) == (if major_keeps(h, roots, x) {
            object_at(h.objects, x)
        } else {
            None
        }),
{
    kept_at(h.objects, |y: usize| major_keeps(h, roots, y), x);
}

/// Old objects that were not written to since the last collection do not refer
/// to the nursery, and no object refers to a handle that was not given out.
pub open spec fn barrier(h: HeapModel) -> bool {
    &&& forall|g: usize, x: usize|
        (#[trigger] leads_to(h.objects, 0, g, x)) && g < h.young_from && !h.remembered.contains(g)
            ==> x < h.young_from
    &&& forall|g: usize, x: usize| (#[trigger] leads_to(h.objects, 0, g, x)) ==> x < h.next
}

proof fn reached_is_kept(h: HeapModel, roots: Seq<usize>, x: usize, n: nat)
    requires
        heap_ok(h),
        barrier(h),
        reached_in(h.objects, |y: usize| roots.contains(y), 0, x, n),
    ensures
        minor_keeps(h, roots, x),
    decreases n,
{
    let all = |y: usize| roots.contains(y);
    let seed = |y: usize| minor_seed(h, roots, y);
    if n == 0 {
        assert(seed(x));
        assert(reached_in(h.objects, seed, h.young_from, x, 0));
    } else {
        let g = choose|g: usize| #[trigger]
            leads_to(h.objects, 0, g, x) && reached_in(h.objects, all, 0, g, (n - 1) as nat);
        reached_is_kept(h, roots, g, (n - 1) as nat);
        if g >= h.young_from {
            reached_step(h.objects, seed, h.young_from, g, x);
        } else if h.remembered.contains(g) {
            let i = choose|i: int| 0 <= i < h.remembered.len() && h.remembered[i] == g;
            assert(object_at(h.objects, h.remembered[i]) matches Some(o) && points_to(o, x));
            assert(seed(x));
            assert(reached_in(h.objects, seed, h.young_from, x, 0));
        }
    }
}

/// A minor collection keeps everything that is reached from the roots,
/// unchanged, provided that the write barrier was obeyed.
pub proof fn minor_is_sound(h: HeapModel, roots: Seq<usize>, x: usize)
    requires
        heap_ok(h),
        barrier(h),
        major_keeps(h, roots, x),
    ensures
        object_at(after_minor(h, roots).objects, x) == object_at(h.objects, x),
{
    let all = |y: usize| roots.contains(y);
    let n = choose|n: nat| reached_in(h.objects, all, 0, x, n);
    reached_is_kept(h, roots, x, n);
    kept_at(h.objects, |y: usize| minor_keeps(h, roots, y), x);
}

/// A minor collection frees nothing old.
pub proof fn minor_keeps_old(h: HeapModel, roots: Seq<usize>, x: usize)
    requires
        heap_ok(h),
        x < h.young_from,
    ensures
        object_at(after_minor(h, roots).objects, x) == object_at(h.objects, x),
{
    kept_at(h.objects, |y: usize| minor_keeps(h, roots, y), x);
}

/// The write barrier is obeyed by allocation.
pub proof fn barrier_with_object(h: HeapModel, o: ObjectModel)
    requires
        heap_ok(h),
        barrier(h),
        h.next < usize::MAX,
        forall|x: usize| points_to(o, x) ==> x < h.next,
    ensures
        barrier(with_object(h, o)),
{
    let w = with_object(h, o);
    assert forall|g: usize, x: usize| #[trigger]
        leads_to(w.objects, 0, g, x) implies g == h.next && points_to(o, x) || leads_to(
        h.objects,
        0,
        g,
        x,
    ) by {
        let p = object_from_some(w.objects, g, 0);
        if p < h.objects.len() {
            assert(w.objects[p] == h.objects[p]);
            object_at_place(h.objects, p);
        }
    }
}

/// The write barrier is obeyed by a change of an object.
pub proof fn barrier_with_change(h: HeapModel, handle: usize, o: ObjectModel)
    requires
        heap_ok(h),
        barrier(h),
        forall|x: usize| points_to(o, x) ==> x < h.next,
    ensures
        barrier(with_change(h, handle, o)),
{
    let w = with_change(h, handle, o);
    pushed_contains(h.remembered, handle);
    assert forall|g: usize, x: usize| #[trigger]
        leads_to(w.objects, 0, g, x) implies g == handle && points_to(o, x) || (g != handle
        && leads_to(h.objects, 0, g, x)) by {
        let p = object_from_some(w.objects, g, 0);
        if g != handle {
            assert(w.objects[p] == h.objects[p]);
            object_at_place(h.objects, p);
        }
    }
}

/// The write barrier is obeyed by collections.
pub proof fn barrier_after_collect(h: HeapModel, roots: Seq<usize>)
    requires
        heap_ok(h),
        barrier(h),
    ensures
        barrier(after_minor(h, roots)),
        barrier(after_major(h, roots)),
{
    let a = after_minor(h, roots);
    assert forall|g: usize, x: usize| #[trigger] leads_to(a.objects, 0, g, x) implies leads_to(
        h.objects,
        0,
        g,
        x,
    ) by {
        kept_at(h.objects, |y: usize| minor_keeps(h, roots, y), g);
    }
    let b = after_major(h, roots);
    assert forall|g: usize, x: usize| #[trigger] leads_to(b.objects, 0, g, x) implies leads_to(
        h.objects,
        0,
        g,
        x,
    ) by {
        major_is_exact(h, roots, g);
    }
}

/// A heap gives back the object that was allocated, and other handles are not
/// touched.
pub proof fn allocation_law(h: HeapModel, o: ObjectModel, x: usize)
    requires
        heap_ok(h),
        h.next < usize::MAX,
    ensures
        object_at(with_object(h, o).objects, h.next) == Some(o),
        x != h.next ==> object_at(with_object(h, o).objects, x) == object_at(h.objects, x),
{
    let w = with_object(h, o).objects;
    let n = h.objects.len() as int;
    assert(w[n] == (h.next, o));
    assert(increasing(w));
    object_at_place(w, n);
    if x != h.next {
        if object_at(w, x) is Some {
            let p = object_from_some(w, x, 0);
            assert(w[p] == h.objects[p]);
            object_at_place(h.objects, p);
        }
        if object_at(h.objects, x) is Some {
            let p = object_from_some(h.objects, x, 0);
            assert(w[p] == h.objects[p]);
            object_at_place(w, p);
        }
    }
}

/// A heap gives back what was written, and other handles are not touched.
pub proof fn change_law(h: HeapModel, handle: usize, o: ObjectModel, x: usize)
    requires
        heap_ok(h),
        object_at(h.objects, handle) is Some,
    ensures
        object_at(with_change(h, handle, o).objects, handle) == Some(o),
        x != handle ==> object_at(with_change(h, handle, o).objects, x) == object_at(h.objects, x),
        heap_ok(with_change(h, handle, o)),
{
    let w = with_change(h, handle, o).objects;
    assert(increasing(w)) by {
        assert forall|i: int, j: int| 0 <= i < j < w.len() implies (#[trigger] w[i]).0 < (
        #[trigger] w[j]).0 by {
            assert(h.objects[i].0 < h.objects[j].0);
        }
    }
    let p = object_from_some(h.objects, handle, 0);
    assert(w[p] == (handle, o));
    object_at_place(w, p);
    if x != handle {
        if object_at(w, x) is Some {
            let q = object_from_some(w, x, 0);
            assert(w[q] == h.objects[q]);
            object_at_place(h.objects, q);
        }
        if object_at(h.objects, x) is Some {
            let q = object_from_some(h.objects, x, 0);
            assert(w[q] == h.objects[q]);
            object_at_place(w, q);
        }
    }
    assert forall|i: int| 0 <= i < w.len() implies (#[trigger] w[i]).0 < h.next by {
        assert(h.objects[i].0 < h.next);
    }
}

/// The counters add up, and the threshold grows.
pub open spec fn counts_ok(n: Numbers) -> bool {
    &&& n.collections == n.minor_collections + n.major_collections
    &&& n.growth_factor >= 2
}

/// The counters add up in a fresh heap, and stay so whatever is done to a heap, as
/// far as they can count.
pub proof fn counts_add_up(h: HeapModel, threshold: usize, o: ObjectModel, roots: Seq<usize>, pause: u64)
    requires
        counts_ok(h.numbers),
        h.numbers.collections < u64::MAX - 1,
    ensures
        counts_ok(empty_heap(threshold).numbers),
        counts_ok(with_object(h, o).numbers),
        counts_ok(after_minor(h, roots).numbers),
        counts_ok(after_major(h, roots).numbers),
        counts_ok(after_collect(h, roots).numbers),
        counts_ok(minor_paused(h.numbers, pause)),
{
}

proof fn swept_is_ok(h: HeapModel, roots: Seq<usize>)
    requires
        heap_ok(h),
    ensures
        heap_ok(after_minor(h, roots)),
{
    let keep = |x: usize| minor_keeps(h, roots, x);
    kept_entries(h.objects, keep, h.objects.len() as int);
    let left = after_minor(h, roots).objects;
    assert forall|p: int| 0 <= p < left.len() implies (#[trigger] left[p]).0 < h.next by {
        object_at_place(left, p);
        kept_at(h.objects, keep, left[p].0);
        let q = object_from_some(h.objects, left[p].0, 0);
        assert(h.objects[q].0 < h.next);
    }
}

proof fn still_reached(h: HeapModel, roots: Seq<usize>, x: usize, n: nat)
    requires
        heap_ok(h),
        barrier(h),
        reached_in(h.objects, |y: usize| roots.contains(y), 0, x, n),
    ensures
        reached_in(after_minor(h, roots).objects, |y: usize| roots.contains(y), 0, x, n),
    decreases n,
{
    let all = |y: usize| roots.contains(y);
    if n > 0 {
        let g = choose|g: usize| #[trigger]
            leads_to(h.objects, 0, g, x) && reached_in(h.objects, all, 0, g, (n - 1) as nat);
        still_reached(h, roots, g, (n - 1) as nat);
        assert(major_keeps(h, roots, g));
        minor_is_sound(h, roots, g);
        assert(leads_to(after_minor(h, roots).objects, 0, g, x));
    }
}

proof fn was_reached(h: HeapModel, roots: Seq<usize>, x: usize, n: nat)
    requires
        heap_ok(h),
        reached_in(after_minor(h, roots).objects, |y: usize| roots.contains(y), 0, x, n),
    ensures
        reached_in(h.objects, |y: usize| roots.contains(y), 0, x, n),
    decreases n,
{
    let all = |y: usize| roots.contains(y);
    let left = after_minor(h, roots).objects;
    if n > 0 {
        let g = choose|g: usize| #[trigger]
            leads_to(left, 0, g, x) && reached_in(left, all, 0, g, (n - 1) as nat);
        was_reached(h, roots, g, (n - 1) as nat);
        kept_at(h.objects, |y: usize| minor_keeps(h, roots, y), g);
        assert(leads_to(h.objects, 0, g, x));
    }
}

/// A minor pass does not change what is reached.
proof fn reach_stays(h: HeapModel, roots: Seq<usize>, x: usize)
    requires
        heap_ok(h),
        barrier(h),
    ensures
        major_keeps(after_minor(h, roots), roots, x) == major_keeps(h, roots, x),
{
    let all = |y: usize| roots.contains(y);
    if major_keeps(h, roots, x) {
        let n = choose|n: nat| reached_in(h.objects, all, 0, x, n);
        still_reached(h, roots, x, n);
    }
    let m = after_minor(h, roots);
    if major_keeps(m, roots, x) {
        let n = choose|n: nat| reached_in(m.objects, all, 0, x, n);
        was_reached(h, roots, x, n);
    }
}

/// A collection keeps what is reached, unchanged, and brings nothing back; where it
/// went over the whole heap, it keeps nothing else. No collection is due after it,
/// as far as the bytes that are left can be counted, and the counters grow and add
/// up.
pub proof fn collection_law(h: HeapModel, roots: Seq<usize>, x: usize)
    requires
        heap_ok(h),
        barrier(h),
        counts_ok(h.numbers),
        h.numbers.collections < u64::MAX - 1,
        after_collect(h, roots).numbers.allocated < usize::MAX,
    ensures
        ({
            let c = after_collect(h, roots);
            &&& major_keeps(h, roots, x) ==> object_at(c.objects, x) == object_at(h.objects, x)
            &&& object_at(c.objects, x) is Some ==> object_at(c.objects, x) == object_at(h.objects, x)
            &&& c.numbers.major_collections > h.numbers.major_collections ==> (object_at(c.objects, x)
                is Some <==> object_at(h.objects, x) is Some && major_keeps(h, roots, x))
            &&& !c.numbers.gc_pending
            &&& c.numbers.collections > h.numbers.collections
            &&& c.numbers.collections == c.numbers.minor_collections + c.numbers.major_collections
        }),
{
    let m = after_minor(h, roots);
    kept_at(h.objects, |y: usize| minor_keeps(h, roots, y), x);
    if major_keeps(h, roots, x) {
        minor_is_sound(h, roots, x);
    }
    if minor_first(h) {
        if m.numbers.allocated >= m.numbers.threshold {
            swept_is_ok(h, roots);
            reach_stays(h, roots, x);
            major_is_exact(m, roots, x);
            grown_past(m.numbers, after_major(m, roots).numbers.allocated);
        }
    } else {
        major_is_exact(h, roots, x);
        grown_past(h.numbers, after_major(h, roots).numbers.allocated);
    }
}

proof fn grown_past(n: Numbers, left: usize)
    requires
        n.growth_factor >= 2,
        left < usize::MAX,
    ensures
        left < next_threshold(n, left),
{
    assert(left * n.growth_factor >= left * 2) by (nonlinear_arith)
        requires
            n.growth_factor >= 2,
            left >= 0,
    ;
}

} // verus!
