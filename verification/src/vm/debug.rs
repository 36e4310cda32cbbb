//! Source-level debugging support: line tables, inspection paths and stepping.

use crate::bytecode::{class_of, ClassDef, MethodDef, Module};
use crate::text::{cat3, cat4, cat5, char_text, dec, dec_u64};
use crate::typer::suggest::chars_of;
use crate::vm::describe::{field_place, find_field};
use crate::vm::heap::{heap_ok, object_at, Heap, HeapModel};
use crate::vm::strings::{digits_value, is_digit, text_between};
use crate::vm::value::{AuraObject, GcRef, ObjectModel, Value};
use vstd::prelude::*;

verus! {

/// One method's debug info in a flat layout.
#[derive(Debug)]
pub struct GdbMethodInfo {
    /// Raw method id.
    pub method_id: u32,
    /// `Class.Method` label.
    pub label: String,
    /// Sorted `(first_op_index, line)` pairs.
    pub line_starts: Vec<(u32, u32)>,
    /// Slot-indexed local names.
    pub local_names: Vec<String>,
}

/// Everything the debugger sees at a stop.
#[derive(Debug)]
pub struct DebugStop {
    /// `Class.Method` label of the stopped frame.
    pub method: String,
    /// Source line the machine is stopped at (about to execute).
    pub line: u32,
    /// Call depth (1 = entry frame).
    pub depth: usize,
    /// Named locals of the stopped frame: `(name, rendered value)`.
    pub locals: Vec<(String, String)>,
    /// Backtrace lines, innermost frame last.
    pub backtrace: Vec<String>,
    /// Index of the operation about to execute.
    pub pc: usize,
    /// Watch expressions evaluated at this stop.
    pub watches: Vec<(String, String)>,
}

/// How to resume after a stop.
#[derive(Debug, Clone, Copy, PartialEq, Eq, Structural)]
pub enum DebugResume {
    /// Run until the next breakpoint.
    Continue,
    /// Stop at the next source line, entering calls (step into).
    Step,
    /// Stop at the next source line at the current depth or shallower (step
    /// over).
    Next,
    /// Run until the current frame returns; stop in the caller (step out).
    Out,
    /// Terminate the program.
    Quit,
}

/// The debugger's response to a stop: breakpoint edits plus a resume mode.
#[derive(Debug)]
pub struct DebugCommand {
    /// Lines to add as breakpoints before resuming.
    pub add_breakpoints: Vec<u32>,
    /// Lines to remove before resuming.
    pub remove_breakpoints: Vec<u32>,
    /// Bytecode breakpoints to add: (`Class.Method` label, op index).
    pub add_bytecode_breakpoints: Vec<(String, u32)>,
    /// Bytecode breakpoints to remove.
    pub remove_bytecode_breakpoints: Vec<(String, u32)>,
    /// Watch expressions to evaluate and report at every subsequent stop.
    pub add_watches: Vec<String>,
    /// Watch expressions to stop reporting.
    pub remove_watches: Vec<String>,
    /// Resume mode (defaults to `Continue`).
    pub resume: Option<DebugResume>,
}

/// The machine's stepping state.
#[derive(Debug, Clone, Copy, PartialEq, Eq, Structural)]
pub enum StepMode {
    /// Only breakpoints stop execution.
    Running,
    /// Stop at the next line boundary anywhere.
    Step,
    /// Stop at the next line boundary at the recorded depth or shallower.
    Next(usize),
    /// Stop at the next line boundary strictly shallower than the recorded
    /// depth (after the frame returns).
    Out(usize),
}

// ---------------------------------------------------------------------------
// Lines
// ---------------------------------------------------------------------------

/// The line of the last of the first `n` entries that starts at or before `pc`.
pub open spec fn line_upto(table: Seq<(u32, u32)>, pc: int, n: int) -> Option<u32>
    decreases n,
{
    if n <= 0 {
        None
    } else if table[n - 1].0 <= pc {
        Some(table[n - 1].1)
    } else {
        line_upto(table, pc, n - 1)
    }
}

/// The source line for a pc.
pub open spec fn line_at(method: MethodDef, pc: int) -> Option<u32> {
    line_upto(method.line_starts@, pc, method.line_starts@.len() as int)
}

/// The source line for a pc, from the method's debug line table: the last entry
/// at or before `pc`, or none when there is no debug info.
pub fn line_for_pc(method: &MethodDef, pc: usize) -> (r: Option<u32>)
    ensures
        r == line_at(*method, pc as int),
{
    let mut n: usize = method.line_starts.len();
    while n > 0
        invariant
            n <= method.line_starts@.len(),
            line_at(*method, pc as int) == line_upto(method.line_starts@, pc as int, n as int),
        decreases n,
    {
        if method.line_starts[n - 1].0 as usize <= pc {
            return Some(method.line_starts[n - 1].1);
        }
        n = n - 1;
    }
    None
}

/// In a sorted table, the entry that gives the line is the one whose range of
/// operations holds `pc`: it starts at or before `pc`, and the next one after.
pub proof fn line_range(table: Seq<(u32, u32)>, pc: int, i: int)
    requires
        forall|a: int, b: int|
            0 <= a < b < table.len() ==> (#[trigger] table[a]).0 <= (#[trigger] table[b]).0,
        0 <= i < table.len(),
        table[i].0 <= pc,
        i + 1 < table.len() ==> pc < table[i + 1].0,
    ensures
        line_upto(table, pc, table.len() as int) == Some(table[i].1),
{
    line_from(table, pc, i, table.len() as int);
}

proof fn line_from(table: Seq<(u32, u32)>, pc: int, i: int, n: int)
    requires
        forall|a: int, b: int|
            0 <= a < b < table.len() ==> (#[trigger] table[a]).0 <= (#[trigger] table[b]).0,
        0 <= i < n <= table.len(),
        table[i].0 <= pc,
        i + 1 < table.len() ==> pc < table[i + 1].0,
    ensures
        line_upto(table, pc, n) == Some(table[i].1),
    decreases n,
{
    if n - 1 > i {
        if n - 1 > i + 1 {
            assert(table[i + 1].0 <= table[n - 1].0);
        }
        line_from(table, pc, i, n - 1);
    }
}

// ---------------------------------------------------------------------------
// Stepping
// ---------------------------------------------------------------------------

/// The stepping state after a stop at a depth; none where the program ends.
pub open spec fn mode_after(resume: Option<DebugResume>, depth: usize) -> Option<StepMode> {
    match resume {
        None | Some(DebugResume::Continue) => Some(StepMode::Running),
        Some(DebugResume::Step) => Some(StepMode::Step),
        Some(DebugResume::Next) => Some(StepMode::Next(depth)),
        Some(DebugResume::Out) => Some(StepMode::Out(depth)),
        Some(DebugResume::Quit) => None,
    }
}

/// The stepping state after a stop at a depth; none where the program ends.
pub fn step_mode(resume: Option<DebugResume>, depth: usize) -> (r: Option<StepMode>)
    ensures
        r == mode_after(resume, depth),
{
    match resume {
        None => Some(StepMode::Running),
        Some(r) => match r {
            DebugResume::Continue => Some(StepMode::Running),
            DebugResume::Step => Some(StepMode::Step),
            DebugResume::Next => Some(StepMode::Next(depth)),
            DebugResume::Out => Some(StepMode::Out(depth)),
            DebugResume::Quit => None,
        },
    }
}

/// Whether the machine stops at a line boundary at a depth.
pub open spec fn stops_at(mode: StepMode, depth: usize, line: u32, breakpoints: Seq<u32>) -> bool {
    breakpoints.contains(line) || match mode {
        StepMode::Running => false,
        StepMode::Step => true,
        StepMode::Next(d) => depth <= d,
        StepMode::Out(d) => depth < d,
    }
}

/// Whether the machine stops at a line boundary at a depth.
pub fn should_stop(mode: StepMode, depth: usize, line: u32, breakpoints: &Vec<u32>) -> (r: bool)
    ensures
        r == stops_at(mode, depth, line, breakpoints@),
{
    let mut i: usize = 0;
    while i < breakpoints.len()
        invariant
            i <= breakpoints@.len(),
            forall|j: int| 0 <= j < i ==> breakpoints@[j] != line,
        decreases breakpoints.len() - i,
    {
        if breakpoints[i] == line {
            return true;
        }
        i = i + 1;
    }
    match mode {
        StepMode::Running => false,
        StepMode::Step => true,
        StepMode::Next(d) => depth <= d,
        StepMode::Out(d) => depth < d,
    }
}

// ---------------------------------------------------------------------------
// Paths
// ---------------------------------------------------------------------------

/// One step of an inspection path.
#[derive(Debug)]
pub enum PathStep {
    /// `.name`: instance field access.
    Field(String),
    /// `[n]`: list or tuple element access.
    Index(usize),
}

/// A step by value.
#[verifier::ext_equal]
pub ghost enum StepModel {
    /// A field.
    Field(Seq<char>),
    /// An element.
    Index(usize),
}

impl View for PathStep {
    type V = StepModel;

    open spec fn view(&self) -> StepModel {
        match self {
            PathStep::Field(s) => StepModel::Field(s@),
            PathStep::Index(i) => StepModel::Index(*i),
        }
    }
}

/// Steps by value.
pub open spec fn step_models(v: Seq<PathStep>) -> Seq<StepModel> {
    Seq::new(v.len(), |i: int| v[i]@)
}

/// A character of a name.
pub open spec fn name_char(c: char) -> bool {
    'a' <= c <= 'z' || 'A' <= c <= 'Z' || '0' <= c <= '9' || c == '_'
}

/// The end of the name that starts at `i`.
pub open spec fn name_end(s: Seq<char>, i: int) -> int
    decreases s.len() - i,
{
    if i < 0 || i >= s.len() || !name_char(s[i]) {
        i
    } else {
        name_end(s, i + 1)
    }
}

/// The end of the digits that start at `i`.
pub open spec fn digits_end(s: Seq<char>, i: int) -> int
    decreases s.len() - i,
{
    if i < 0 || i >= s.len() || !is_digit(s[i]) {
        i
    } else {
        digits_end(s, i + 1)
    }
}

/// An error in a path.
pub open spec fn path_fault(path: Seq<char>, what: Seq<char>) -> Seq<char> {
    "`"@ + path + "`: "@ + what
}

/// The name at `i`, with its end.
pub open spec fn name_at(s: Seq<char>, i: int) -> Result<(Seq<char>, int), Seq<char>> {
    let e = name_end(s, i);
    if e <= i || e > s.len() {
        Err(path_fault(s, "expected a name at offset "@ + dec(i as nat)))
    } else {
        Ok((s.subrange(i, e), e))
    }
}

/// The index that starts at `i`, behind the bracket, with the place behind it.
pub open spec fn index_at(s: Seq<char>, i: int) -> Result<(usize, int), Seq<char>> {
    let e = digits_end(s, i);
    if e <= i || e >= s.len() || s[e] != ']' {
        Err(path_fault(s, "malformed index"@))
    } else {
        let n = digits_value(s.subrange(i, e));
        if n > usize::MAX {
            Err(path_fault(s, "index out of range"@))
        } else {
            Ok((n as usize, e + 1))
        }
    }
}

/// The steps of a path from `i` on.
pub open spec fn steps_from(s: Seq<char>, i: int) -> Result<Seq<StepModel>, Seq<char>>
    decreases s.len() - i,
{
    if i < 0 || i >= s.len() {
        Ok(Seq::empty())
    } else if s[i] == '.' {
        match name_at(s, i + 1) {
            Err(e) => Err(e),
            Ok((name, e)) => if e <= i {
                Err(Seq::empty())
            } else {
                match steps_from(s, e) {
                    Err(e) => Err(e),
                    Ok(rest) => Ok(seq![StepModel::Field(name)] + rest),
                }
            },
        }
    } else if s[i] == '[' {
        match index_at(s, i + 1) {
            Err(e) => Err(e),
            Ok((n, e)) => if e <= i {
                Err(Seq::empty())
            } else {
                match steps_from(s, e) {
                    Err(e) => Err(e),
                    Ok(rest) => Ok(seq![StepModel::Index(n)] + rest),
                }
            },
        }
    } else {
        Err(path_fault(s, "unexpected `"@ + seq![s[i]] + "`"@))
    }
}

/// A path: the name of a local, and steps.
pub open spec fn path_parts(s: Seq<char>) -> Result<(Seq<char>, Seq<StepModel>), Seq<char>> {
    match name_at(s, 0) {
        Err(e) => Err(e),
        Ok((root, e)) => match steps_from(s, e) {
            Err(e) => Err(e),
            Ok(steps) => Ok((root, steps)),
        },
    }
}

fn is_name_char(c: char) -> (r: bool)
    ensures
        r == name_char(c),
{
    ('a' <= c && c <= 'z') || ('A' <= c && c <= 'Z') || ('0' <= c && c <= '9') || c == '_'
}

fn fault(path: &str, what: &str) -> (r: String)
    ensures
        r@ == path_fault(path@, what@),
{
    cat4("`", path, "`: ", what)
}

/// A name with its end or an error, by value.
pub open spec fn name_or_fault(r: Result<(String, usize), String>) -> Result<
    (Seq<char>, int),
    Seq<char>,
> {
    match r {
        Ok((s, e)) => Ok((s@, e as int)),
        Err(e) => Err(e@),
    }
}

fn read_name(path: &str, cs: &Vec<char>, i: usize) -> (r: Result<(String, usize), String>)
    requires
        cs@ == path@,
        i <= cs@.len(),
    ensures
        name_or_fault(r) == name_at(path@, i as int),
        r matches Ok((_, e)) ==> i < e <= cs@.len(),
{
    let mut e: usize = i;
    while e < cs.len() && is_name_char(cs[e])
        invariant
            i <= e <= cs@.len(),
            name_end(cs@, i as int) == name_end(cs@, e as int),
        decreases cs.len() - e,
    {
        e = e + 1;
    }
    if e == i {
        let n: String = dec_u64(i as u64);
        let what: String = crate::text::cat2("expected a name at offset ", n.as_str());
        return Err(fault(path, what.as_str()));
    }
    Ok((text_between(cs, i, e), e))
}

/// An index with the place behind it or an error, by value.
pub open spec fn index_or_fault(r: Result<(usize, usize), String>) -> Result<
    (usize, int),
    Seq<char>,
> {
    match r {
        Ok((n, e)) => Ok((n, e as int)),
        Err(e) => Err(e@),
    }
}

fn read_index(path: &str, cs: &Vec<char>, i: usize) -> (r: Result<(usize, usize), String>)
    requires
        cs@ == path@,
        i <= cs@.len(),
    ensures
        index_or_fault(r) == index_at(path@, i as int),
        r matches Ok((_, e)) ==> i < e <= cs@.len(),
{
    let mut e: usize = i;
    let mut value: usize = 0;
    let mut big: bool = false;
    assert(cs@.subrange(i as int, i as int) =~= Seq::<char>::empty());
    while e < cs.len() && '0' <= cs[e] && cs[e] <= '9'
        invariant
            i <= e <= cs@.len(),
            digits_end(cs@, i as int) == digits_end(cs@, e as int),
            !big ==> value == digits_value(cs@.subrange(i as int, e as int)),
            big ==> digits_value(cs@.subrange(i as int, e as int)) > usize::MAX,
        decreases cs.len() - e,
    {
        let ghost next = cs@.subrange(i as int, e + 1);
        assert(next.drop_last() =~= cs@.subrange(i as int, e as int));
        assert(next.last() == cs@[e as int]);
        let d: usize = ((cs[e] as u32) - 48) as usize;
        if !big {
            match value.checked_mul(10) {
                None => {
                    big = true;
                },
                Some(t) => match t.checked_add(d) {
                    None => {
                        big = true;
                    },
                    Some(v) => {
                        value = v;
                    },
                },
            }
        }
        e = e + 1;
    }
    if e == i || e >= cs.len() || cs[e] != ']' {
        return Err(fault(path, "malformed index"));
    }
    if big {
        return Err(fault(path, "index out of range"));
    }
    Ok((value, e + 1))
}

/// A parsed path or an error, by value.
pub open spec fn path_or_fault(r: Result<(String, Vec<PathStep>), String>) -> Result<
    (Seq<char>, Seq<StepModel>),
    Seq<char>,
> {
    match r {
        Ok((s, v)) => Ok((s@, step_models(v@))),
        Err(e) => Err(e@),
    }
}

/// What is in front of the steps that are left.
spec fn joined(steps: Seq<StepModel>, rest: Result<Seq<StepModel>, Seq<char>>) -> Result<
    Seq<StepModel>,
    Seq<char>,
> {
    match rest {
        Ok(r) => Ok(steps + r),
        Err(e) => Err(e),
    }
}

/// Parse a watch or inspection path into its root name and steps.
pub fn parse_path(path: &str) -> (r: Result<(String, Vec<PathStep>), String>)
    ensures
        path_or_fault(r) == path_parts(path@),
{
    let cs: Vec<char> = chars_of(path);
    let (root, first) = read_name(path, &cs, 0)?;
    let mut i: usize = first;
    let mut steps: Vec<PathStep> = Vec::new();
    let ghost want = steps_from(path@, first as int);
    assert(step_models(steps@) =~= Seq::empty());
    proof {
        if let Ok(r) = want {
            assert(step_models(steps@) + r =~= r);
        }
    }
    while i < cs.len()
        invariant
            i <= cs@.len(),
            cs@ == path@,
            name_at(path@, 0) == Ok::<(Seq<char>, int), Seq<char>>((root@, first as int)),
            want == steps_from(path@, first as int),
            want == joined(step_models(steps@), steps_from(path@, i as int)),
        decreases cs.len() - i,
    {
        let ghost before = step_models(steps@);
        if cs[i] == '.' {
            let (name, e) = read_name(path, &cs, i + 1)?;
            let ghost m = StepModel::Field(name@);
            steps.push(PathStep::Field(name));
            assert(step_models(steps@) =~= before.push(m));
            proof {
                if let Ok(rest) = steps_from(path@, e as int) {
                    assert(before + (seq![m] + rest) =~= before.push(m) + rest);
                }
            }
            i = e;
        } else if cs[i] == '[' {
            let (n, e) = read_index(path, &cs, i + 1)?;
            let ghost m = StepModel::Index(n);
            steps.push(PathStep::Index(n));
            assert(step_models(steps@) =~= before.push(m));
            proof {
                if let Ok(rest) = steps_from(path@, e as int) {
                    assert(before + (seq![m] + rest) =~= before.push(m) + rest);
                }
            }
            i = e;
        } else {
            let c: String = char_text(cs[i]);
            let what: String = cat3("unexpected `", c.as_str(), "`");
            return Err(fault(path, what.as_str()));
        }
    }
    assert(step_models(steps@) + Seq::<StepModel>::empty() =~= step_models(steps@));
    Ok((root, steps))
}

// ---------------------------------------------------------------------------
// Walking
// ---------------------------------------------------------------------------

/// An element of a list or a tuple.
pub open spec fn element_at(xs: Seq<Value>, i: usize, path: Seq<char>) -> Result<Value, Seq<char>> {
    if i < xs.len() {
        Ok(xs[i as int])
    } else {
        Err(
            path_fault(
                path,
                "index "@ + dec(i as nat) + " out of range ("@ + dec(xs.len()) + " elements)"@,
            ),
        )
    }
}

/// Where one step of a path leads from a value.
pub open spec fn walked(
    module: Module,
    h: HeapModel,
    v: Value,
    step: StepModel,
    path: Seq<char>,
) -> Result<Value, Seq<char>> {
    match v {
        Value::Object(r) | Value::Tuple(r) => match object_at(h.objects, r.0) {
            None => Err(
                path_fault(path, "invalid heap reference GcRef("@ + dec(r.0 as nat) + ")"@),
            ),
            Some(o) => match (step, o) {
                (StepModel::Field(name), ObjectModel::Instance(c, fields)) => match class_of(
                    module,
                    c,
                ) {
                    None => Err(path_fault(path, "unknown class"@)),
                    Some(class) => {
                        let p = field_place(class.fields@, name, 0);
                        if p >= class.fields@.len() {
                            Err(
                                path_fault(path, "no field `"@ + name + "` on "@ + class.name@),
                            )
                        } else if p < fields.len() {
                            Ok(fields[p])
                        } else {
                            Err(path_fault(path, "field slot missing"@))
                        }
                    },
                },
                (StepModel::Field(name), _) => Err(
                    path_fault(path, "no field `"@ + name + "` here"@),
                ),
                (StepModel::Index(i), ObjectModel::Array(xs)) => element_at(xs, i, path),
                (StepModel::Index(i), ObjectModel::Tuple(xs)) => element_at(xs, i, path),
                (StepModel::Index(_), _) => Err(path_fault(path, "not indexable"@)),
            },
        },
        _ => Err(path_fault(path, "not an object"@)),
    }
}

/// A value or an error, by value.
pub open spec fn value_or_fault(r: Result<Value, String>) -> Result<Value, Seq<char>> {
    match r {
        Ok(v) => Ok(v),
        Err(e) => Err(e@),
    }
}

fn get_element(xs: &Vec<Value>, i: usize, path: &str) -> (r: Result<Value, String>)
    ensures
        value_or_fault(r) == element_at(xs@, i, path@),
{
    if i < xs.len() {
        Ok(xs[i])
    } else {
        let a: String = dec_u64(i as u64);
        let b: String = dec_u64(xs.len() as u64);
        let what: String = cat5("index ", a.as_str(), " out of range (", b.as_str(), " elements)");
        Err(fault(path, what.as_str()))
    }
}

/// Walk one path step from a value.
pub fn walk_step(module: &Module, heap: &Heap, value: Value, step: &PathStep, path: &str) -> (r:
    Result<Value, String>)
    requires
        heap_ok(heap@),
    ensures
        value_or_fault(r) == walked(*module, heap@, value, step@, path@),
{
    let handle: GcRef = match value {
        Value::Object(h) | Value::Tuple(h) => h,
        _ => return Err(fault(path, "not an object")),
    };
    let obj: &AuraObject = match heap.get(handle) {
        Ok(o) => o,
        Err(_) => {
            let n: String = dec_u64(handle.0 as u64);
            let what: String = cat3("invalid heap reference GcRef(", n.as_str(), ")");
            return Err(fault(path, what.as_str()));
        },
    };
    match step {
        PathStep::Field(name) => match obj {
            AuraObject::Instance { class_id, fields } => {
                let class: &ClassDef = match module.class(*class_id) {
                    Some(c) => c,
                    None => return Err(fault(path, "unknown class")),
                };
                let p: usize = find_field(&class.fields, name.as_str());
                if p >= class.fields.len() {
                    let what: String = cat4(
                        "no field `",
                        name.as_str(),
                        "` on ",
                        class.name.as_str(),
                    );
                    return Err(fault(path, what.as_str()));
                }
                if p < fields.len() {
                    Ok(fields[p])
                } else {
                    Err(fault(path, "field slot missing"))
                }
            },
            _ => {
                let what: String = cat3("no field `", name.as_str(), "` here");
                Err(fault(path, what.as_str()))
            },
        },
        PathStep::Index(i) => match obj {
            AuraObject::Array { elements } => get_element(elements, *i, path),
            AuraObject::Tuple(t) => get_element(&t.elements, *i, path),
            _ => Err(fault(path, "not indexable")),
        },
    }
}

} // verus!
