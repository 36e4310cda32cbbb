//! Lines, stepping and inspection paths.

use aura::bytecode::{ClassDef, ClassId, FieldDef, MethodDef, Module, TypeDesc};
use aura::vm::debug::{
    line_for_pc, parse_path, should_stop, step_mode, walk_step, DebugResume, PathStep, StepMode,
};
use aura::vm::heap::Heap;
use aura::vm::value::{AuraObject, TupleValue, Value};

fn method(line_starts: Vec<(u32, u32)>) -> MethodDef {
    MethodDef {
        name: "m".to_string(),
        return_ty: TypeDesc::Unit,
        params: Vec::new(),
        generic_params: Vec::new(),
        is_instance: false,
        body: Vec::new(),
        handlers: Vec::new(),
        max_stack: 0,
        locals: 0,
        line_starts,
        local_names: Vec::new(),
    }
}

#[test]
fn lines_start_at_operations() {
    let m = method(vec![(2, 10), (5, 11)]);
    assert_eq!(line_for_pc(&m, 0), None);
    assert_eq!(line_for_pc(&m, 2), Some(10));
    assert_eq!(line_for_pc(&m, 4), Some(10));
    assert_eq!(line_for_pc(&m, 500), Some(11));
    assert_eq!(line_for_pc(&method(Vec::new()), 0), None);
}

#[test]
fn stepping_respects_depth() {
    assert_eq!(step_mode(None, 3), Some(StepMode::Running));
    assert_eq!(step_mode(Some(DebugResume::Continue), 3), Some(StepMode::Running));
    assert_eq!(step_mode(Some(DebugResume::Step), 3), Some(StepMode::Step));
    assert_eq!(step_mode(Some(DebugResume::Next), 3), Some(StepMode::Next(3)));
    assert_eq!(step_mode(Some(DebugResume::Out), 3), Some(StepMode::Out(3)));
    assert_eq!(step_mode(Some(DebugResume::Quit), 3), None);
    let none = Vec::new();
    assert!(!should_stop(StepMode::Running, 1, 7, &none));
    assert!(should_stop(StepMode::Running, 1, 7, &vec![7]));
    assert!(should_stop(StepMode::Step, 9, 7, &none));
    assert!(should_stop(StepMode::Next(3), 3, 7, &none));
    assert!(!should_stop(StepMode::Next(3), 4, 7, &none));
    assert!(should_stop(StepMode::Out(3), 2, 7, &none));
    assert!(!should_stop(StepMode::Out(3), 3, 7, &none));
}

#[test]
fn paths_are_parsed() {
    let (root, steps) = parse_path("a.b[2].c").unwrap();
    assert_eq!(root, "a");
    assert_eq!(steps.len(), 3);
    assert!(matches!(&steps[0], PathStep::Field(f) if f == "b"));
    assert!(matches!(&steps[1], PathStep::Index(2)));
    assert!(matches!(&steps[2], PathStep::Field(f) if f == "c"));
    assert_eq!(parse_path("").unwrap_err(), "``: expected a name at offset 0");
    assert_eq!(parse_path("a.").unwrap_err(), "`a.`: expected a name at offset 2");
    assert!(parse_path("a[x]").unwrap_err().contains("malformed index"));
    assert!(parse_path("a+b").unwrap_err().contains("unexpected `+`"));
}

#[test]
fn paths_are_walked() {
    let point = ClassDef {
        name: "Point".to_string(),
        generic_params: Vec::new(),
        super_class: None,
        interfaces: Vec::new(),
        is_interface: false,
        is_abstract: false,
        is_record: false,
        fields: vec![FieldDef { name: "x".to_string(), ty: TypeDesc::Int64 }],
        static_fields: Vec::new(),
        methods: Vec::new(),
        static_methods: Vec::new(),
    };
    let module = Module {
        name: "m".to_string(),
        classes: vec![(ClassId(0), point)],
        enums: Vec::new(),
        entrypoint: None,
        constant_pool: Vec::new(),
        float_pool: Vec::new(),
    };
    let mut heap = Heap::new();
    let p = heap.allocate(AuraObject::Instance {
        class_id: ClassId(0),
        fields: vec![Value::Int(4)],
    });
    let l = heap.allocate(AuraObject::Array { elements: vec![Value::Object(p)] });
    let x = PathStep::Field("x".to_string());
    let y = PathStep::Field("y".to_string());
    let at = |i: usize| PathStep::Index(i);
    assert_eq!(walk_step(&module, &heap, Value::Object(p), &x, "p.x"), Ok(Value::Int(4)));
    assert_eq!(walk_step(&module, &heap, Value::Object(l), &at(0), "l[0]"), Ok(Value::Object(p)));
    assert!(walk_step(&module, &heap, Value::Object(p), &y, "p.y").unwrap_err().contains("no field `y`"));
    assert!(walk_step(&module, &heap, Value::Object(l), &at(1), "l[1]").unwrap_err().contains("index 1"));
    assert!(walk_step(&module, &heap, Value::Int(1), &x, "i.x").unwrap_err().contains("not an object"));
}

#[test]
fn tuples_are_walked_by_index() {
    let module = Module {
        name: "m".to_string(),
        classes: Vec::new(),
        enums: Vec::new(),
        entrypoint: None,
        constant_pool: Vec::new(),
        float_pool: Vec::new(),
    };
    let mut heap = Heap::new();
    let t = heap.allocate(AuraObject::Tuple(TupleValue {
        elements: vec![Value::Int(7), Value::Bool(true)],
    }));
    let at = |i: usize| PathStep::Index(i);
    let pair = Value::Tuple(t);
    assert_eq!(walk_step(&module, &heap, pair, &at(0), "t[0]"), Ok(Value::Int(7)));
    assert_eq!(walk_step(&module, &heap, pair, &at(1), "t[1]"), Ok(Value::Bool(true)));
    assert!(walk_step(&module, &heap, pair, &at(2), "t[2]").unwrap_err().contains("index 2"));
}
