//! What the debugger promises: where it stops, which line it shows and which value
//! a path leads to. Also what is found under the numbers of a program.

use crate::bytecode::{
    class_entry, class_of, enum_entry, enum_of, method_entry, method_in, method_of, ClassDef,
    ClassId, EnumDef, EnumId, MethodDef, MethodId, Module,
};
use crate::text::dec;
use crate::vm::debug::{
    digits_end, line_upto, mode_after, name_char, name_end, path_parts, steps_from, stops_at, walked,
    DebugResume, StepModel,
};
use crate::vm::describe::{field_place, label_from, label_of};
use crate::vm::heap::HeapModel;
use crate::vm::strings::is_digit;
use crate::vm::value::{ObjectModel, Value};
use crate::vm::view::{
    label_among, label_known, local_called, locals_of, location, named_upto, path_value, shown_name,
    walked_from,
};
use crate::vm::wording::digits_back;
use vstd::prelude::*;

verus! {

// ---------------------------------------------------------------------------
// Numbers of a program
// ---------------------------------------------------------------------------

proof fn class_found(cs: Seq<(ClassId, ClassDef)>, id: ClassId, i: int)
    requires
        0 <= i,
    ensures
        class_entry(cs, id, i) matches Some(d) ==> exists|k: int|
            i <= k < cs.len() && #[trigger] cs[k] == (id, d) && forall|j: int|
                i <= j < k ==> (#[trigger] cs[j]).0 != id,
        class_entry(cs, id, i) is None ==> forall|k: int|
            i <= k < cs.len() ==> (#[trigger] cs[k]).0 != id,
    decreases cs.len() - i,
{
    if i < cs.len() {
        if cs[i].0 == id {
            assert(cs[i] == (id, cs[i].1));
        } else {
            class_found(cs, id, i + 1);
        }
    }
}

proof fn enum_found(es: Seq<(EnumId, EnumDef)>, id: EnumId, i: int)
    requires
        0 <= i,
    ensures
        enum_entry(es, id, i) matches Some(d) ==> exists|k: int|
            i <= k < es.len() && #[trigger] es[k] == (id, d),
        enum_entry(es, id, i) is None ==> forall|k: int|
            i <= k < es.len() ==> (#[trigger] es[k]).0 != id,
    decreases es.len() - i,
{
    if i < es.len() {
        if es[i].0 == id {
            assert(es[i] == (id, es[i].1));
        } else {
            enum_found(es, id, i + 1);
        }
    }
}

proof fn entry_found(ms: Seq<(MethodId, MethodDef)>, id: MethodId, i: int)
    requires
        0 <= i,
    ensures
        method_entry(ms, id, i) matches Some(d) ==> exists|k: int|
            i <= k < ms.len() && #[trigger] ms[k] == (id, d),
        method_entry(ms, id, i) is None ==> forall|k: int|
            i <= k < ms.len() ==> (#[trigger] ms[k]).0 != id,
    decreases ms.len() - i,
{
    if i < ms.len() {
        if ms[i].0 == id {
            assert(ms[i] == (id, ms[i].1));
        } else {
            entry_found(ms, id, i + 1);
        }
    }
}

/// A method is among the methods of a class, static or not.
pub open spec fn belongs(class: ClassDef, id: MethodId, d: MethodDef) -> bool {
    (exists|k: int| 0 <= k < class.methods@.len() && #[trigger] class.methods@[k] == (id, d)) || (
    exists|k: int|
        0 <= k < class.static_methods@.len() && #[trigger] class.static_methods@[k] == (id, d))
}

/// No method of a class has the number.
pub open spec fn lacks(class: ClassDef, id: MethodId) -> bool {
    &&& forall|k: int| 0 <= k < class.methods@.len() ==> (#[trigger] class.methods@[k]).0 != id
    &&& forall|k: int|
        0 <= k < class.static_methods@.len() ==> (#[trigger] class.static_methods@[k]).0 != id
}

proof fn method_found(cs: Seq<(ClassId, ClassDef)>, id: MethodId, i: int)
    requires
        0 <= i,
    ensures
        method_in(cs, id, i) matches Some(d) ==> exists|k: int|
            i <= k < cs.len() && belongs((#[trigger] cs[k]).1, id, d) && label_from(cs, id, i)
                == cs[k].1.name@ + "."@ + d.name@,
        method_in(cs, id, i) is None ==> forall|k: int|
            i <= k < cs.len() ==> lacks((#[trigger] cs[k]).1, id),
    decreases cs.len() - i,
{
    if i < cs.len() {
        entry_found(cs[i].1.methods@, id, 0);
        entry_found(cs[i].1.static_methods@, id, 0);
        if method_entry(cs[i].1.methods@, id, 0) is Some {
            assert(belongs(cs[i].1, id, method_entry(cs[i].1.methods@, id, 0)->0));
        } else if method_entry(cs[i].1.static_methods@, id, 0) is Some {
            assert(belongs(cs[i].1, id, method_entry(cs[i].1.static_methods@, id, 0)->0));
        } else {
            assert(lacks(cs[i].1, id));
            method_found(cs, id, i + 1);
        }
    }
}

/// What a number stands for: a class or an enum that has it, and a method of some
/// class that has it; nothing where none has it. The label of a method is made of
/// the names of the class and of the method.
pub proof fn number_law(module: Module, c: ClassId, e: EnumId, m: MethodId)
    ensures
        class_of(module, c) matches Some(d) ==> exists|k: int|
            0 <= k < module.classes@.len() && #[trigger] module.classes@[k] == (c, d),
        class_of(module, c) is None ==> forall|k: int|
            0 <= k < module.classes@.len() ==> (#[trigger] module.classes@[k]).0 != c,
        enum_of(module, e) matches Some(d) ==> exists|k: int|
            0 <= k < module.enums@.len() && #[trigger] module.enums@[k] == (e, d),
        enum_of(module, e) is None ==> forall|k: int|
            0 <= k < module.enums@.len() ==> (#[trigger] module.enums@[k]).0 != e,
        method_of(module, m) matches Some(d) ==> exists|k: int|
            0 <= k < module.classes@.len() && belongs((#[trigger] module.classes@[k]).1, m, d)
                && label_of(module, m) == module.classes@[k].1.name@ + "."@ + d.name@,
        method_of(module, m) is None ==> forall|k: int|
            0 <= k < module.classes@.len() ==> lacks((#[trigger] module.classes@[k]).1, m),
{
    class_found(module.classes@, c, 0);
    enum_found(module.enums@, e, 0);
    method_found(module.classes@, m, 0);
}

// ---------------------------------------------------------------------------
// Stopping
// ---------------------------------------------------------------------------

/// Where the debugger stops after it was told how to go on at a depth of calls: at
/// a breakpoint always; else, going on, nowhere; stepping in, at every line;
/// stepping over, at every line that is no deeper; stepping out, at every line that
/// is less deep.
pub proof fn stopping_law(at: usize, depth: usize, line: u32, breakpoints: Seq<u32>)
    ensures
        ({
            let how = |r: DebugResume| stops_at(mode_after(Some(r), at)->0, depth, line, breakpoints);
            let marked = exists|k: int| 0 <= k < breakpoints.len() && breakpoints[k] == line;
            &&& how(DebugResume::Continue) <==> marked
            &&& how(DebugResume::Step)
            &&& how(DebugResume::Next) <==> marked || depth < at || depth == at
            &&& how(DebugResume::Out) <==> marked || depth < at
        }),
        mode_after(None, at) == mode_after(Some(DebugResume::Continue), at),
        forall|r: DebugResume| (#[trigger] mode_after(Some(r), at)) is None <==> r is Quit,
{
}

/// The line of an operation: the one whose table entry is the last that starts at
/// or before it, and none where all start behind it.
pub proof fn line_law(table: Seq<(u32, u32)>, pc: int, n: int)
    requires
        0 <= n <= table.len(),
    ensures
        line_upto(table, pc, n) matches Some(l) ==> exists|k: int|
            0 <= k < n && (#[trigger] table[k]).0 <= pc && table[k].1 == l && forall|j: int|
                k < j < n ==> (#[trigger] table[j]).0 > pc,
        line_upto(table, pc, n) is None ==> forall|k: int|
            0 <= k < n ==> (#[trigger] table[k]).0 > pc,
    decreases n,
{
    if n > 0 {
        if table[n - 1].0 <= pc {
            assert(table[n - 1].1 == line_upto(table, pc, n)->0);
        } else {
            line_law(table, pc, n - 1);
        }
    }
}

// ---------------------------------------------------------------------------
// Paths
// ---------------------------------------------------------------------------

/// A name as it stands in a path.
pub open spec fn is_name(s: Seq<char>) -> bool {
    s.len() > 0 && forall|i: int| 0 <= i < s.len() ==> name_char(#[trigger] s[i])
}

/// The steps of a path as they are written.
pub open spec fn written(steps: Seq<StepModel>) -> Seq<char>
    decreases steps.len(),
{
    if steps.len() == 0 {
        seq![]
    } else {
        (match steps[0] {
            StepModel::Field(name) => seq!['.'] + name,
            StepModel::Index(n) => seq!['['] + dec(n as nat) + seq![']'],
        }) + written(steps.skip(1))
    }
}

/// The steps of a path have names.
pub open spec fn names_steps(steps: Seq<StepModel>) -> bool {
    forall|i: int| 0 <= i < steps.len() ==> ((#[trigger] steps[i]) matches StepModel::Field(name)
        ==> is_name(name))
}

proof fn name_read(s: Seq<char>, i: int, e: int)
    requires
        0 <= i <= e <= s.len(),
        forall|j: int| i <= j < e ==> name_char(#[trigger] s[j]),
        e < s.len() ==> !name_char(s[e]),
    ensures
        name_end(s, i) == e,
    decreases e - i,
{
    if i < e {
        name_read(s, i + 1, e);
    }
}

proof fn digits_read(s: Seq<char>, i: int, e: int)
    requires
        0 <= i <= e < s.len(),
        forall|j: int| i <= j < e ==> is_digit(#[trigger] s[j]),
        !is_digit(s[e]),
    ensures
        digits_end(s, i) == e,
    decreases e - i,
{
    if i < e {
        digits_read(s, i + 1, e);
    }
}

proof fn written_starts(steps: Seq<StepModel>)
    ensures
        written(steps).len() > 0 ==> written(steps)[0] == '.' || written(steps)[0] == '[',
        steps.len() > 0 ==> written(steps).len() > 0,
        steps.len() == 0 ==> written(steps).len() == 0,
{
}

proof fn steps_read(s: Seq<char>, before: Seq<char>, steps: Seq<StepModel>)
    requires
        s == before + written(steps),
        names_steps(steps),
    ensures
        steps_from(s, before.len() as int) == Ok::<Seq<StepModel>, Seq<char>>(steps),
    decreases steps.len(),
{
    let i = before.len() as int;
    written_starts(steps);
    if steps.len() == 0 {
        assert(steps =~= Seq::<StepModel>::empty());
    } else {
        let rest = steps.skip(1);
        let tail = written(rest);
        written_starts(rest);
        assert(s[i] == written(steps)[0]);
        assert(names_steps(rest)) by {
            assert forall|k: int| 0 <= k < rest.len() implies ((#[trigger] rest[k])
                matches StepModel::Field(name) ==> is_name(name)) by {
                assert(rest[k] == steps[k + 1]);
            }
        }
        match steps[0] {
            StepModel::Field(name) => {
                let head = seq!['.'] + name;
                let next = before + head;
                let e = next.len() as int;
                assert(s =~= next + tail);
                assert forall|j: int| i + 1 <= j < e implies name_char(#[trigger] s[j]) by {
                    assert(s[j] == name[j - i - 1]);
                }
                if e < s.len() {
                    assert(s[e] == tail[0]);
                }
                name_read(s, i + 1, e);
                assert(s.subrange(i + 1, e) =~= name);
                steps_read(s, next, rest);
                assert(seq![StepModel::Field(name)] + rest =~= steps);
            },
            StepModel::Index(n) => {
                let d = dec(n as nat);
                digits_back(n as nat);
                let head = seq!['['] + d + seq![']'];
                let next = before + head;
                let e = i + 1 + d.len();
                assert(s =~= next + tail);
                assert forall|j: int| i + 1 <= j < e implies is_digit(#[trigger] s[j]) by {
                    assert(s[j] == d[j - i - 1]);
                }
                assert(s[e] == ']');
                digits_read(s, i + 1, e);
                assert(s.subrange(i + 1, e) =~= d);
                assert(next.len() == e + 1);
                steps_read(s, next, rest);
                assert(seq![StepModel::Index(n)] + rest =~= steps);
            },
        }
    }
}

/// A path that is written down is read as it was meant: a name, and then fields and
/// indices in order.
pub proof fn path_law(root: Seq<char>, steps: Seq<StepModel>)
    requires
        is_name(root),
        names_steps(steps),
    ensures
        path_parts(root + written(steps)) == Ok::<(Seq<char>, Seq<StepModel>), Seq<char>>(
            (root, steps),
        ),
{
    let s = root + written(steps);
    written_starts(steps);
    assert forall|j: int| 0 <= j < root.len() implies name_char(#[trigger] s[j]) by {
        assert(s[j] == root[j]);
    }
    if root.len() < s.len() {
        assert(s[root.len() as int] == written(steps)[0]);
    }
    name_read(s, 0, root.len() as int);
    assert(s.subrange(0, root.len() as int) =~= root);
    steps_read(s, root, steps);
}

proof fn field_found(fs: Seq<crate::bytecode::FieldDef>, name: Seq<char>, i: int)
    requires
        0 <= i <= fs.len(),
    ensures
        i <= field_place(fs, name, i) <= fs.len(),
        field_place(fs, name, i) < fs.len() ==> fs[field_place(fs, name, i)].name@ == name,
        forall|j: int| i <= j < field_place(fs, name, i) ==> (#[trigger] fs[j]).name@ != name,
    decreases fs.len() - i,
{
    if i < fs.len() && fs[i].name@ != name {
        field_found(fs, name, i + 1);
    }
}

/// A step of a path leads to the field of that name, or to the element at that
/// index, of the value.
pub proof fn step_law(module: Module, h: HeapModel, v: Value, step: StepModel, path: Seq<char>)
    requires
        walked(module, h, v, step, path) is Ok,
    ensures
        ({
            let r = crate::vm::value::handle_in(v)->0;
            let x = walked(module, h, v, step, path)->Ok_0;
            &&& v is Object || v is Tuple
            &&& step matches StepModel::Index(i) ==> match crate::vm::heap::object_at(h.objects, r) {
                Some(ObjectModel::Array(xs)) => i < xs.len() && x == xs[i as int],
                Some(ObjectModel::Tuple(xs)) => i < xs.len() && x == xs[i as int],
                _ => false,
            }
            &&& step matches StepModel::Field(name) ==> match crate::vm::heap::object_at(
                h.objects,
                r,
            ) {
                Some(ObjectModel::Instance(c, fields)) => class_of(module, c) matches Some(class)
                    && exists|p: int|
                    0 <= p < class.fields@.len() && p < fields.len() && (
                    #[trigger] class.fields@[p]).name@ == name && x == fields[p],
                _ => false,
            }
        }),
{
    let r = crate::vm::value::handle_in(v)->0;
    if step is Field {
        let c = crate::vm::heap::object_at(h.objects, r)->0->Instance_0;
        let class = class_of(module, c)->0;
        let p = field_place(class.fields@, step->Field_0, 0);
        field_found(class.fields@, step->Field_0, 0);
        assert(class.fields@[p].name@ == step->Field_0);
    }
}

/// The locals that are shown are those with a name that is not the machine's own,
/// each with its value.
pub proof fn locals_law(names: Seq<String>, locals: Seq<Value>, n: int, k: int)
    requires
        0 <= n <= names.len(),
        0 <= k < n,
    ensures
        k < locals.len() && shown_name(names[k]@) ==> named_upto(names, locals, n).contains(
            (names[k]@, locals[k]),
        ),
        forall|i: int|
            0 <= i < named_upto(names, locals, n).len() ==> exists|j: int|
                0 <= j < n && j < locals.len() && shown_name((#[trigger] names[j])@) && (
                #[trigger] named_upto(names, locals, n)[i]) == (names[j]@, locals[j]),
    decreases n,
{
    let shorter = named_upto(names, locals, n - 1);
    let all = named_upto(names, locals, n);
    let here = n <= locals.len() && shown_name(names[n - 1]@);
    if k < n - 1 {
        locals_law(names, locals, n - 1, k);
        if k < locals.len() && shown_name(names[k]@) {
            let i = choose|i: int| 0 <= i < shorter.len() && shorter[i] == (names[k]@, locals[k]);
            assert(all[i] == shorter[i]);
        }
    } else {
        if here {
            assert(all[shorter.len() as int] == (names[k]@, locals[k]));
        }
        if n > 1 {
            locals_law(names, locals, n - 1, n - 2);
        }
    }
    assert forall|i: int| 0 <= i < all.len() implies exists|j: int|
        0 <= j < n && j < locals.len() && shown_name((#[trigger] names[j])@) && (#[trigger] all[i]) == (
        names[j]@,
        locals[j],
    ) by {
        if i < shorter.len() {
            assert(all[i] == shorter[i]);
        } else {
            assert(all[i] == (names[n - 1]@, locals[n - 1]));
        }
    }
}

/// A name stands for the last local of that name.
pub proof fn name_law(ls: Seq<(Seq<char>, Value)>, name: Seq<char>, n: int)
    requires
        0 <= n <= ls.len(),
    ensures
        local_called(ls, name, n) matches Some(v) ==> exists|k: int|
            0 <= k < n && #[trigger] ls[k] == (name, v) && forall|j: int|
                k < j < n ==> (#[trigger] ls[j]).0 != name,
        local_called(ls, name, n) is None ==> forall|k: int|
            0 <= k < n ==> (#[trigger] ls[k]).0 != name,
    decreases n,
{
    if n > 0 {
        if ls[n - 1].0 == name {
            assert(ls[n - 1] == (name, ls[n - 1].1));
        } else {
            name_law(ls, name, n - 1);
        }
    }
}

proof fn label_listed(class: Seq<char>, ms: Seq<(MethodId, MethodDef)>, label: Seq<char>, i: int)
    requires
        0 <= i,
    ensures
        label_among(class, ms, label, i) <==> exists|k: int|
            i <= k < ms.len() && class + "."@ + (#[trigger] ms[k]).1.name@ == label,
    decreases ms.len() - i,
{
    if i < ms.len() {
        label_listed(class, ms, label, i + 1);
        if class + "."@ + ms[i].1.name@ == label {
            assert(class + "."@ + (ms[i]).1.name@ == label);
        }
    }
}

/// A class has a method, static or not, of that label.
pub open spec fn labelled(class: ClassDef, label: Seq<char>) -> bool {
    (exists|k: int|
        0 <= k < class.methods@.len() && class.name@ + "."@ + (#[trigger] class.methods@[k]).1.name@
            == label) || (exists|k: int|
        0 <= k < class.static_methods@.len() && class.name@ + "."@ + (
        #[trigger] class.static_methods@[k]).1.name@ == label)
}

/// A label is known where some class has a method, static or not, of that label.
pub proof fn label_law(cs: Seq<(ClassId, ClassDef)>, label: Seq<char>, i: int)
    requires
        0 <= i,
    ensures
        label_known(cs, label, i) <==> exists|k: int|
            i <= k < cs.len() && labelled((#[trigger] cs[k]).1, label),
    decreases cs.len() - i,
{
    if i < cs.len() {
        label_law(cs, label, i + 1);
        label_listed(cs[i].1.name@, cs[i].1.methods@, label, 0);
        label_listed(cs[i].1.name@, cs[i].1.static_methods@, label, 0);
        if labelled(cs[i].1, label) {
            assert(labelled((cs[i]).1, label));
        }
    }
}

/// A frame is shown by the label of its method and by the line of its operation:
/// that of the last entry of the method's table that starts at or before it, and 0
/// where there is none.
pub proof fn location_law(module: Module, f: crate::vm::frames::FrameModel)
    requires
        method_of(module, f.method) is Some,
    ensures
        ({
            let table = (method_of(module, f.method)->0).line_starts@;
            let (label, line) = location(module, f);
            &&& exists|k: int|
                0 <= k < module.classes@.len() && belongs(
                    (#[trigger] module.classes@[k]).1,
                    f.method,
                    method_of(module, f.method)->0,
                ) && label == module.classes@[k].1.name@ + "."@ + (method_of(
                    module,
                    f.method,
                )->0).name@
            &&& (forall|k: int| 0 <= k < table.len() ==> (#[trigger] table[k]).0 > f.pc) ==> line == 0
            &&& (exists|k: int| 0 <= k < table.len() && (#[trigger] table[k]).0 <= f.pc)
                ==> exists|k: int|
                0 <= k < table.len() && (#[trigger] table[k]).0 <= f.pc && table[k].1 == line
                    && forall|j: int| k < j < table.len() ==> (#[trigger] table[j]).0 > f.pc
        }),
{
    let table = (method_of(module, f.method)->0).line_starts@;
    method_found(module.classes@, f.method, 0);
    line_law(table, f.pc as int, table.len() as int);
}

proof fn walked_on(
    module: Module,
    h: HeapModel,
    v: Value,
    a: Seq<StepModel>,
    b: Seq<StepModel>,
    path: Seq<char>,
    i: int,
)
    requires
        0 <= i <= a.len(),
    ensures
        walked_from(module, h, v, a + b, path, i) == match walked_from(module, h, v, a, path, i) {
            Ok(x) => walked_from(module, h, x, a + b, path, a.len() as int),
            Err(e) => Err(e),
        },
    decreases a.len() - i,
{
    if i < a.len() {
        assert((a + b)[i] == a[i]);
        if walked(module, h, v, a[i], path) is Ok {
            walked_on(module, h, walked(module, h, v, a[i], path)->Ok_0, a, b, path, i + 1);
        }
    }
}

/// A path leads from the local that it names, one step after the other: with one
/// step more it leads where that step leads from where it led before.
pub proof fn walking_law(
    module: Module,
    h: HeapModel,
    v: Value,
    steps: Seq<StepModel>,
    step: StepModel,
    path: Seq<char>,
)
    ensures
        walked_from(module, h, v, Seq::<StepModel>::empty(), path, 0) == Ok::<Value, Seq<char>>(v),
        walked_from(module, h, v, steps, path, 0) matches Ok(x) ==> walked_from(
            module,
            h,
            v,
            steps.push(step),
            path,
            0,
        ) == walked(module, h, x, step, path),
        walked_from(module, h, v, steps, path, 0) matches Err(e) ==> walked_from(
            module,
            h,
            v,
            steps.push(step),
            path,
            0,
        ) == Err::<Value, Seq<char>>(e),
{
    let all = steps + seq![step];
    assert(all =~= steps.push(step));
    walked_on(module, h, v, steps, seq![step], path, 0);
    if walked_from(module, h, v, steps, path, 0) is Ok {
        let x = walked_from(module, h, v, steps, path, 0)->Ok_0;
        assert(all[steps.len() as int] == step);
        reveal_with_fuel(walked_from, 2);
    }
}

/// What is evaluated is what the path says: the local of the frame that it names,
/// and from there its steps.
pub proof fn evaluation_law(
    module: Module,
    m: crate::vm::machine::VmModel,
    index: int,
    root: Seq<char>,
    steps: Seq<StepModel>,
)
    requires
        0 <= index < m.frames.len(),
        is_name(root),
        names_steps(steps),
    ensures
        ({
            let path = root + written(steps);
            let ls = locals_of(module, m.frames, index);
            match local_called(ls, root, ls.len() as int) {
                None => path_value(module, m, index, path) is Err,
                Some(v) => path_value(module, m, index, path) == walked_from(
                    module,
                    m.store.heap,
                    v,
                    steps,
                    path,
                    0,
                ),
            }
        }),
{
    path_law(root, steps);
}

} // verus!
