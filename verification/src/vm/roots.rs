//! The roots of a machine, and collections at safepoints: between two operations
//! every reference that is alive stands in a frame or a static field.

use crate::bytecode::{ClassId, Module};
use crate::text::cat2;
use crate::vm::describe::{describe_exception, exception_text};
use crate::vm::frames::{frame_models, Frame, FrameModel};
use crate::vm::heap::{
    after_collect, after_major, after_minor, barrier, heap_ok, kept_entries, leads_to,
    major_is_exact, major_keeps, minor_first, minor_is_sound, minor_keeps, object_at,
    object_from_some, reached, reached_in, HeapModel,
};
use crate::vm::machine::{Vm, VmModel};
use crate::vm::ops::{static_models, store_ok, with_heap};
use crate::vm::value::{handle_in, some_holds, Value};
use crate::vm::world::{Answers, Ask, Fault, Question, VmError, World};
use vstd::prelude::*;

verus! {

/// The handles in the first `n` values.
pub open spec fn handles_upto(vs: Seq<Value>, n: int) -> Seq<usize>
    decreases n,
{
    if n <= 0 {
        Seq::empty()
    } else {
        match handle_in(vs[n - 1]) {
            Some(h) => handles_upto(vs, n - 1).push(h),
            None => handles_upto(vs, n - 1),
        }
    }
}

/// The handles in values.
pub open spec fn handles(vs: Seq<Value>) -> Seq<usize> {
    handles_upto(vs, vs.len() as int)
}

/// The values that a frame holds besides its locals and its operands.
pub open spec fn kept_back(f: FrameModel) -> Seq<Value> {
    match f.after_finally {
        Some(v) => seq![v],
        None => Seq::empty(),
    }
}

/// The handles in a frame.
pub open spec fn frame_handles(f: FrameModel) -> Seq<usize> {
    handles(f.locals) + handles(f.stack) + handles(kept_back(f))
}

/// The handles in the first `n` frames.
pub open spec fn frames_handles(fs: Seq<FrameModel>, n: int) -> Seq<usize>
    decreases n,
{
    if n <= 0 {
        Seq::empty()
    } else {
        frames_handles(fs, n - 1) + frame_handles(fs[n - 1])
    }
}

/// The handles in the static fields of the first `n` classes.
pub open spec fn statics_handles(ss: Seq<(ClassId, Seq<Value>)>, n: int) -> Seq<usize>
    decreases n,
{
    if n <= 0 {
        Seq::empty()
    } else {
        statics_handles(ss, n - 1) + handles(ss[n - 1].1)
    }
}

/// The roots of a machine.
pub open spec fn roots_of(m: VmModel) -> Seq<usize> {
    frames_handles(m.frames, m.frames.len() as int) + statics_handles(
        m.store.statics,
        m.store.statics.len() as int,
    )
}

/// The machine after a safepoint: where a collection is due, it is run.
pub open spec fn at_safepoint(m: VmModel) -> VmModel {
    if m.store.heap.numbers.gc_pending {
        VmModel {
            store: with_heap(m.store, after_collect(m.store.heap, roots_of(m))),
            ..m
        }
    } else {
        m
    }
}

fn add_handles(out: &mut Vec<usize>, vs: &Vec<Value>)
    ensures
        final(out)@ == old(out)@ + handles(vs@),
{
    let ghost before = out@;
    let mut i: usize = 0;
    assert(out@ =~= before + handles_upto(vs@, 0));
    while i < vs.len()
        invariant
            i <= vs@.len(),
            out@ == before + handles_upto(vs@, i as int),
        decreases vs.len() - i,
    {
        if let Some(h) = vs[i].reference() {
            out.push(h);
        }
        assert(out@ =~= before + handles_upto(vs@, i + 1));
        i = i + 1;
    }
}

fn add_frame(out: &mut Vec<usize>, f: &Frame)
    ensures
        final(out)@ == old(out)@ + frame_handles(f@),
{
    add_handles(out, &f.locals);
    add_handles(out, &f.stack);
    let mut last: Vec<Value> = Vec::new();
    if let Some(v) = f.after_finally {
        last.push(v);
    }
    assert(last@ =~= kept_back(f@));
    add_handles(out, &last);
    assert(out@ =~= old(out)@ + frame_handles(f@));
}

/// What a handle is found in.
proof fn handle_found(vs: Seq<Value>, n: int, i: int, h: usize)
    requires
        0 <= i < n <= vs.len(),
        handle_in(vs[i]) == Some(h),
    ensures
        handles_upto(vs, n).contains(h),
    decreases n,
{
    let all = handles_upto(vs, n);
    if i == n - 1 {
        assert(all[all.len() - 1] == h);
    } else {
        handle_found(vs, n - 1, i, h);
        let prev = handles_upto(vs, n - 1);
        let k = choose|k: int| 0 <= k < prev.len() && prev[k] == h;
        assert(all[k] == h);
    }
}

proof fn joined_contains(a: Seq<usize>, b: Seq<usize>, x: usize)
    requires
        a.contains(x) || b.contains(x),
    ensures
        (a + b).contains(x),
{
    if a.contains(x) {
        let k = choose|k: int| 0 <= k < a.len() && a[k] == x;
        assert((a + b)[k] == x);
    } else {
        let k = choose|k: int| 0 <= k < b.len() && b[k] == x;
        assert((a + b)[a.len() + k] == x);
    }
}

proof fn frame_found(fs: Seq<FrameModel>, n: int, i: int, x: usize)
    requires
        0 <= i < n <= fs.len(),
        frame_handles(fs[i]).contains(x),
    ensures
        frames_handles(fs, n).contains(x),
    decreases n,
{
    if i < n - 1 {
        frame_found(fs, n - 1, i, x);
    }
    joined_contains(frames_handles(fs, n - 1), frame_handles(fs[n - 1]), x);
}

/// Every handle in a frame is a root.
pub proof fn frame_is_rooted(m: VmModel, i: int, x: usize)
    requires
        0 <= i < m.frames.len(),
        some_holds(m.frames[i].locals, x) || some_holds(m.frames[i].stack, x) || some_holds(
            kept_back(m.frames[i]),
            x,
        ),
    ensures
        roots_of(m).contains(x),
{
    let f = m.frames[i];
    held_is_found(f.locals, x);
    held_is_found(f.stack, x);
    held_is_found(kept_back(f), x);
    if some_holds(kept_back(f), x) {
        joined_contains(handles(f.locals) + handles(f.stack), handles(kept_back(f)), x);
    } else {
        joined_contains(handles(f.locals), handles(f.stack), x);
        joined_contains(handles(f.locals) + handles(f.stack), handles(kept_back(f)), x);
    }
    frame_found(m.frames, m.frames.len() as int, i, x);
    joined_contains(
        frames_handles(m.frames, m.frames.len() as int),
        statics_handles(m.store.statics, m.store.statics.len() as int),
        x,
    );
}

proof fn held_is_found(vs: Seq<Value>, x: usize)
    ensures
        some_holds(vs, x) ==> handles(vs).contains(x),
{
    if some_holds(vs, x) {
        let j = choose|j: int| 0 <= j < vs.len() && handle_in(#[trigger] vs[j]) == Some(x);
        handle_found(vs, vs.len() as int, j, x);
    }
}

proof fn static_found(ss: Seq<(ClassId, Seq<Value>)>, n: int, i: int, x: usize)
    requires
        0 <= i < n <= ss.len(),
        handles(ss[i].1).contains(x),
    ensures
        statics_handles(ss, n).contains(x),
    decreases n,
{
    if i < n - 1 {
        static_found(ss, n - 1, i, x);
    }
    joined_contains(statics_handles(ss, n - 1), handles(ss[n - 1].1), x);
}

/// Every handle in a static field is a root.
pub proof fn statics_are_rooted(m: VmModel, i: int, x: usize)
    requires
        0 <= i < m.store.statics.len(),
        some_holds(m.store.statics[i].1, x),
    ensures
        roots_of(m).contains(x),
{
    held_is_found(m.store.statics[i].1, x);
    static_found(m.store.statics, m.store.statics.len() as int, i, x);
    joined_contains(
        frames_handles(m.frames, m.frames.len() as int),
        statics_handles(m.store.statics, m.store.statics.len() as int),
        x,
    );
}

proof fn still_reached(h: HeapModel, roots: Seq<usize>, x: usize, n: nat)
    requires
        heap_ok(h),
        barrier(h),
        reached_in(h.objects, |y: usize| roots.contains(y), 0, x, n),
    ensures
        reached_in(after_minor(h, roots).objects, |y: usize| roots.contains(y), 0, x, n),
    decreases n,
{
    let all = |y: usize| roots.contains(y);
    let m = after_minor(h, roots);
    if n > 0 {
        let g = choose|g: usize| #[trigger]
            leads_to(h.objects, 0, g, x) && reached_in(h.objects, all, 0, g, (n - 1) as nat);
        still_reached(h, roots, g, (n - 1) as nat);
        assert(reached(h.objects, all, 0, g));
        assert(major_keeps(h, roots, g));
        minor_is_sound(h, roots, g);
        assert(leads_to(m.objects, 0, g, x));
    }
}

/// The heap is in order after a minor collection.
pub proof fn minor_is_in_order(h: HeapModel, roots: Seq<usize>)
    requires
        heap_ok(h),
    ensures
        heap_ok(after_minor(h, roots)),
{
    let keep = |x: usize| minor_keeps(h, roots, x);
    let m = after_minor(h, roots);
    kept_entries(h.objects, keep, h.objects.len() as int);
    assert forall|i: int| 0 <= i < m.objects.len() implies (#[trigger] m.objects[i]).0 < m.next by {
        let p = object_from_some(h.objects, m.objects[i].0, 0);
        assert(h.objects[p].0 < h.next);
    }
}

/// The heap is in order after a major collection.
pub proof fn major_is_in_order(h: HeapModel, roots: Seq<usize>)
    requires
        heap_ok(h),
    ensures
        heap_ok(after_major(h, roots)),
{
    let keep = |x: usize| major_keeps(h, roots, x);
    let m = after_major(h, roots);
    kept_entries(h.objects, keep, h.objects.len() as int);
    assert forall|i: int| 0 <= i < m.objects.len() implies (#[trigger] m.objects[i]).0 < m.next by {
        let p = object_from_some(h.objects, m.objects[i].0, 0);
        assert(h.objects[p].0 < h.next);
    }
}

/// A collection frees nothing that can be reached from the roots, and changes
/// none of it.
pub proof fn collection_keeps(h: HeapModel, roots: Seq<usize>, x: usize)
    requires
        heap_ok(h),
        barrier(h),
        major_keeps(h, roots, x),
    ensures
        object_at(after_collect(h, roots).objects, x) == object_at(h.objects, x),
{
    let all = |y: usize| roots.contains(y);
    if minor_first(h) {
        minor_is_in_order(h, roots);
        let m = after_minor(h, roots);
        minor_is_sound(h, roots, x);
        let n = choose|n: nat| reached_in(h.objects, all, 0, x, n);
        still_reached(h, roots, x, n);
        assert(reached(m.objects, all, 0, x));
        assert(major_keeps(m, roots, x));
        major_is_exact(m, roots, x);
    } else {
        major_is_exact(h, roots, x);
    }
}

/// The error for an exception that no method handled, or the question.
pub open spec fn uncaught_error(module: Module, h: HeapModel, w: Answers, exc: Value) -> Result<
    Fault,
    Question,
> {
    match exception_text(module, h, w, exc) {
        Ok(s) => Ok(Fault::Runtime("uncaught exception: "@ + s)),
        Err(q) => Err(q),
    }
}

impl Vm {
    /// The roots: every handle in a frame or a static field.
    pub fn roots(&self) -> (r: Vec<usize>)
        ensures
            r@ == roots_of(self@),
    {
        let mut out: Vec<usize> = Vec::new();
        let ghost fs = self@.frames;
        let mut i: usize = 0;
        assert(out@ =~= frames_handles(fs, 0));
        while i < self.frames.len()
            invariant
                i <= self.frames@.len(),
                fs == frame_models(self.frames@),
                out@ == frames_handles(fs, i as int),
            decreases self.frames.len() - i,
        {
            add_frame(&mut out, &self.frames[i]);
            assert(fs[i as int] == self.frames@[i as int]@);
            i = i + 1;
        }
        let ghost first = out@;
        let ghost ss = self@.store.statics;
        let mut j: usize = 0;
        assert(out@ =~= first + statics_handles(ss, 0));
        while j < self.store.statics.len()
            invariant
                j <= self.store.statics@.len(),
                ss == static_models(self.store.statics@),
                out@ == first + statics_handles(ss, j as int),
            decreases self.store.statics.len() - j,
        {
            add_handles(&mut out, &self.store.statics[j].1);
            assert(ss[j as int].1 == self.store.statics@[j as int].1@);
            assert(out@ =~= first + statics_handles(ss, j + 1));
            j = j + 1;
        }
        out
    }

    /// Safepoint: run a collection where one is due.
    pub fn maybe_collect(&mut self)
        requires
            store_ok(old(self)@.store),
        ensures
            final(self).module == old(self).module,
            store_ok(final(self)@.store),
            final(self)@ == at_safepoint(old(self)@),
    {
        if self.store.heap.needs_collect() {
            let roots: Vec<usize> = self.roots();
            self.store.heap.collect(&roots);
        }
    }

    /// The error for an exception that no method handled.
    pub fn uncaught(&self, world: &World, exc: Value) -> (r: Result<VmError, Ask>)
        requires
            store_ok(self@.store),
        ensures
            uncaught_error(self.module, self@.store.heap, world@, exc) == (match r {
                Ok(e) => Ok(e@),
                Err(a) => Err(a@),
            }),
    {
        match describe_exception(&self.module, &self.store.heap, world, exc) {
            Ok(s) => Ok(VmError::Runtime(cat2("uncaught exception: ", s.as_str()))),
            Err(a) => Err(a),
        }
    }
}

} // verus!
