//! A read-only window into a paused machine.

use crate::bytecode::{method_of, ClassDef, ClassId, MethodDef, MethodId, Module};
use crate::text::{cat3, cat4, same};
use crate::vm::debug::{
    line_at, line_for_pc, parse_path, path_fault, path_parts, step_models, value_or_fault,
    walk_step, walked, StepModel,
};
use crate::vm::describe::{frame_label, label_of};
use crate::vm::frames::{frame_models, Frame, FrameModel};
use crate::vm::heap::HeapModel;
use crate::vm::machine::{Vm, VmModel};
use crate::vm::ops::store_ok;
use crate::vm::strings::{occurs_at, starts_with};
use crate::vm::value::Value;
use vstd::prelude::*;

verus! {

/// Read-only window into the paused machine.
pub struct DebugView<'a> {
    /// The machine.
    pub vm: &'a Vm,
}

/// Where a frame is: the label of its method and the line, or 0 where the line
/// is not known.
pub open spec fn location(module: Module, f: FrameModel) -> (Seq<char>, u32) {
    (
        label_of(module, f.method),
        match method_of(module, f.method) {
            Some(m) => match line_at(m, f.pc as int) {
                Some(l) => l,
                None => 0,
            },
            None => 0,
        },
    )
}

/// Locations by value.
pub open spec fn locations(v: Seq<(String, u32)>) -> Seq<(Seq<char>, u32)> {
    Seq::new(v.len(), |i: int| (v[i].0@, v[i].1))
}

/// Whether a label names one of the methods of a class from `i` on.
pub open spec fn label_among(
    class: Seq<char>,
    ms: Seq<(MethodId, MethodDef)>,
    label: Seq<char>,
    i: int,
) -> bool
    decreases ms.len() - i,
{
    if i < 0 || i >= ms.len() {
        false
    } else {
        class + "."@ + ms[i].1.name@ == label || label_among(class, ms, label, i + 1)
    }
}

/// Whether a label names a method of one of the classes from `i` on.
pub open spec fn label_known(cs: Seq<(ClassId, ClassDef)>, label: Seq<char>, i: int) -> bool
    decreases cs.len() - i,
{
    if i < 0 || i >= cs.len() {
        false
    } else {
        label_among(cs[i].1.name@, cs[i].1.methods@, label, 0) || label_among(
            cs[i].1.name@,
            cs[i].1.static_methods@,
            label,
            0,
        ) || label_known(cs, label, i + 1)
    }
}

/// Whether a local is shown: it has a name, and is no compiler temporary.
pub open spec fn shown_name(name: Seq<char>) -> bool {
    name.len() > 0 && !occurs_at(name, "__"@, 0)
}

/// The named locals among the first `n`.
pub open spec fn named_upto(names: Seq<String>, locals: Seq<Value>, n: int) -> Seq<
    (Seq<char>, Value),
>
    decreases n,
{
    if n <= 0 {
        Seq::empty()
    } else if n <= locals.len() && shown_name(names[n - 1]@) {
        named_upto(names, locals, n - 1).push((names[n - 1]@, locals[n - 1]))
    } else {
        named_upto(names, locals, n - 1)
    }
}

/// The named locals of the frame with a number.
pub open spec fn locals_of(module: Module, frames: Seq<FrameModel>, index: int) -> Seq<
    (Seq<char>, Value),
> {
    if 0 <= index < frames.len() {
        match method_of(module, frames[index].method) {
            Some(m) => named_upto(
                m.local_names@,
                frames[index].locals,
                m.local_names@.len() as int,
            ),
            None => Seq::empty(),
        }
    } else {
        Seq::empty()
    }
}

/// Locals by value.
pub open spec fn local_models(v: Seq<(String, Value)>) -> Seq<(Seq<char>, Value)> {
    Seq::new(v.len(), |i: int| (v[i].0@, v[i].1))
}

/// The last local with a name among the first `n`: an inner one hides an outer
/// one.
pub open spec fn local_called(ls: Seq<(Seq<char>, Value)>, name: Seq<char>, n: int) -> Option<
    Value,
>
    decreases n,
{
    if n <= 0 {
        None
    } else if ls[n - 1].0 == name {
        Some(ls[n - 1].1)
    } else {
        local_called(ls, name, n - 1)
    }
}

/// Where the steps from `i` on lead from a value.
pub open spec fn walked_from(
    module: Module,
    h: HeapModel,
    v: Value,
    steps: Seq<StepModel>,
    path: Seq<char>,
    i: int,
) -> Result<Value, Seq<char>>
    decreases steps.len() - i,
{
    if i < 0 || i >= steps.len() {
        Ok(v)
    } else {
        match walked(module, h, v, steps[i], path) {
            Err(e) => Err(e),
            Ok(x) => walked_from(module, h, x, steps, path, i + 1),
        }
    }
}

/// What a path denotes in the frame with a number.
pub open spec fn path_value(
    module: Module,
    m: VmModel,
    index: int,
    path: Seq<char>,
) -> Result<Value, Seq<char>> {
    match path_parts(path) {
        Err(e) => Err(e),
        Ok((root, steps)) => {
            let ls = locals_of(module, m.frames, index);
            match local_called(ls, root, ls.len() as int) {
                None => Err(path_fault(path, "no local `"@ + root + "`"@)),
                Some(v) => walked_from(module, m.store.heap, v, steps, path, 0),
            }
        },
    }
}

fn knows_label(class: &str, methods: &Vec<(MethodId, MethodDef)>, label: &str) -> (r: bool)
    ensures
        r == label_among(class@, methods@, label@, 0),
{
    let mut i: usize = 0;
    while i < methods.len()
        invariant
            i <= methods@.len(),
            label_among(class@, methods@, label@, 0) == label_among(
                class@,
                methods@,
                label@,
                i as int,
            ),
        decreases methods.len() - i,
    {
        let l: String = cat3(class, ".", methods[i].1.name.as_str());
        if same(l.as_str(), label) {
            return true;
        }
        i = i + 1;
    }
    false
}

fn is_shown(name: &str) -> (r: bool)
    ensures
        r == shown_name(name@),
{
    name.unicode_len() > 0 && !starts_with(name, "__")
}

impl<'a> DebugView<'a> {
    /// Number of frames on the call stack (innermost last).
    pub fn frame_count(&self) -> (r: usize)
        ensures
            r == self.vm@.frames.len(),
    {
        self.vm.frames.len()
    }

    /// Structured frames: (`Class.Method`, line) from outermost to innermost;
    /// line 0 when unmapped.
    pub fn frames(&self) -> (r: Vec<(String, u32)>)
        ensures
            locations(r@) == Seq::new(
                self.vm@.frames.len(),
                |i: int| location(self.vm.module, self.vm@.frames[i]),
            ),
    {
        let ghost fs = self.vm@.frames;
        let mut out: Vec<(String, u32)> = Vec::new();
        let mut i: usize = 0;
        while i < self.vm.frames.len()
            invariant
                i <= self.vm.frames@.len(),
                fs == frame_models(self.vm.frames@),
                out@.len() == i,
                forall|k: int|
                    0 <= k < i ==> ((#[trigger] out@[k]).0@, out@[k].1) == location(
                        self.vm.module,
                        fs[k],
                    ),
            decreases self.vm.frames.len() - i,
        {
            let f: &Frame = &self.vm.frames[i];
            assert(fs[i as int] == f@);
            let label: String = frame_label(&self.vm.module, f.method_id);
            let line: u32 = match self.vm.module.method(f.method_id) {
                Some(m) => match line_for_pc(m, f.pc) {
                    Some(l) => l,
                    None => 0,
                },
                None => 0,
            };
            out.push((label, line));
            i = i + 1;
        }
        assert(locations(out@) =~= Seq::new(
            fs.len(),
            |i: int| location(self.vm.module, fs[i]),
        ));
        out
    }

    /// Whether a `Class.Method` label names a real method (for validating
    /// bytecode breakpoints before submitting them).
    pub fn resolve_method_label(&self, label: &str) -> (r: bool)
        ensures
            r == label_known(self.vm.module.classes@, label@, 0),
    {
        let mut i: usize = 0;
        while i < self.vm.module.classes.len()
            invariant
                i <= self.vm.module.classes@.len(),
                label_known(self.vm.module.classes@, label@, 0) == label_known(
                    self.vm.module.classes@,
                    label@,
                    i as int,
                ),
            decreases self.vm.module.classes.len() - i,
        {
            let class: &ClassDef = &self.vm.module.classes[i].1;
            let name: &str = class.name.as_str();
            if knows_label(name, &class.methods, label) || knows_label(
                name,
                &class.static_methods,
                label,
            ) {
                return true;
            }
            i = i + 1;
        }
        false
    }

    /// Named locals of the frame at `index` (0 = outermost).
    pub fn frame_locals(&self, index: usize) -> (r: Vec<(String, Value)>)
        ensures
            local_models(r@) == locals_of(self.vm.module, self.vm@.frames, index as int),
    {
        let mut out: Vec<(String, Value)> = Vec::new();
        assert(local_models(out@) =~= Seq::empty());
        if index >= self.vm.frames.len() {
            return out;
        }
        let f: &Frame = &self.vm.frames[index];
        assert(self.vm@.frames[index as int] == f@);
        let m: &MethodDef = match self.vm.module.method(f.method_id) {
            Some(m) => m,
            None => return out,
        };
        let mut i: usize = 0;
        while i < m.local_names.len()
            invariant
                i <= m.local_names@.len(),
                local_models(out@) == named_upto(m.local_names@, f.locals@, i as int),
            decreases m.local_names.len() - i,
        {
            let ghost before = local_models(out@);
            if i < f.locals.len() && is_shown(m.local_names[i].as_str()) {
                out.push((m.local_names[i].clone(), f.locals[i]));
                assert(local_models(out@) =~= before.push(
                    (m.local_names@[i as int]@, f.locals@[i as int]),
                ));
            }
            i = i + 1;
        }
        out
    }

    /// Evaluate a local-rooted path (`name`, `p.x`, `xs[0]`, `a.b[2].c`)
    /// against the frame at `index` (0 = outermost). This is inspection, not an
    /// evaluator.
    pub fn eval_path(&self, index: usize, path: &str) -> (r: Result<Value, String>)
        requires
            store_ok(self.vm@.store),
        ensures
            value_or_fault(r) == path_value(self.vm.module, self.vm@, index as int, path@),
    {
        let (root, steps) = parse_path(path)?;
        let locals: Vec<(String, Value)> = self.frame_locals(index);
        let ghost ls = local_models(locals@);
        let mut n: usize = locals.len();
        let mut found: Option<Value> = None;
        while n > 0 && found.is_none()
            invariant
                n <= locals@.len(),
                ls == local_models(locals@),
                local_called(ls, root@, ls.len() as int) == (match found {
                    Some(v) => Some(v),
                    None => local_called(ls, root@, n as int),
                }),
            decreases n,
        {
            assert(ls[n - 1] == (locals@[n - 1].0@, locals@[n - 1].1));
            if same(locals[n - 1].0.as_str(), root.as_str()) {
                found = Some(locals[n - 1].1);
            }
            n = n - 1;
        }
        let mut v: Value = match found {
            Some(v) => v,
            None => {
                let what: String = cat3("no local `", root.as_str(), "`");
                return Err(cat4("`", path, "`: ", what.as_str()));
            },
        };
        let ghost sm = step_models(steps@);
        let ghost want = walked_from(self.vm.module, self.vm@.store.heap, v, sm, path@, 0);
        let mut i: usize = 0;
        while i < steps.len()
            invariant
                i <= steps@.len(),
                sm == step_models(steps@),
                store_ok(self.vm@.store),
                path_value(self.vm.module, self.vm@, index as int, path@) == want,
                want == walked_from(
                    self.vm.module,
                    self.vm@.store.heap,
                    v,
                    sm,
                    path@,
                    i as int,
                ),
            decreases steps.len() - i,
        {
            assert(sm[i as int] == steps@[i as int]@);
            v = match walk_step(&self.vm.module, &self.vm.store.heap, v, &steps[i], path) {
                Ok(x) => x,
                Err(e) => return Err(e),
            };
            i = i + 1;
        }
        Ok(v)
    }
}

} // verus!
