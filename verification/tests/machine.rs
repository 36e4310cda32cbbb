//! The interpreter on small programs.

use aura::bytecode::{
    ClassDef, ClassId, EnumDef, EnumId, ExceptionHandler, FieldDef, FloatConst, MethodDef, MethodId,
    Module, Op, TypeDesc, VariantDef,
};
use aura::vm::machine::{Stepped, Vm};
use aura::vm::value::{AuraObject, Value};
use aura::vm::view::DebugView;
use aura::vm::world::{Applied, Ask, Reply, VmError, World};

fn world() -> World {
    World { floats: Vec::new(), float_texts: Vec::new(), parsed: Vec::new(), reply: None }
}

fn method(name: &str, params: usize, body: Vec<Op>) -> MethodDef {
    MethodDef {
        name: name.to_string(),
        return_ty: TypeDesc::Int64,
        params: (0..params).map(|_| TypeDesc::Int64).collect(),
        generic_params: Vec::new(),
        is_instance: false,
        body,
        handlers: Vec::new(),
        max_stack: 8,
        locals: 8,
        line_starts: vec![(0, 10), (3, 11)],
        local_names: vec!["a".to_string(), "__t".to_string(), "c".to_string()],
    }
}

fn class(name: &str, fields: Vec<FieldDef>, statics: Vec<(MethodId, MethodDef)>) -> ClassDef {
    ClassDef {
        name: name.to_string(),
        generic_params: Vec::new(),
        super_class: None,
        interfaces: Vec::new(),
        is_interface: false,
        is_abstract: false,
        is_record: false,
        fields,
        static_fields: vec![field("total", TypeDesc::Int64)],
        methods: Vec::new(),
        static_methods: statics,
    }
}

fn field(name: &str, ty: TypeDesc) -> FieldDef {
    FieldDef { name: name.to_string(), ty }
}

fn module(methods: Vec<(MethodId, MethodDef)>) -> Module {
    let exception = class(
        "Exception",
        vec![field("message", TypeDesc::String), field("stackTrace", TypeDesc::String)],
        Vec::new(),
    );
    let shape = EnumDef {
        name: "Shape".to_string(),
        variants: vec![
            VariantDef { name: "Dot".to_string(), fields: Vec::new() },
            VariantDef {
                name: "Box".to_string(),
                fields: vec![field("w", TypeDesc::Int64), field("h", TypeDesc::Int64)],
            },
        ],
    };
    Module {
        name: "m".to_string(),
        classes: vec![(ClassId(0), class("Program", Vec::new(), methods)), (ClassId(1), exception)],
        enums: vec![(EnumId(0), shape)],
        entrypoint: Some(MethodId(1)),
        constant_pool: vec!["hello".to_string(), "1.5".to_string(), "bad".to_string()],
        float_pool: vec![
            FloatConst::Bad("invalid float literal".to_string()),
            FloatConst::Bits(1.5f64.to_bits()),
            FloatConst::Bad("invalid float literal".to_string()),
        ],
    }
}

fn machine(body: Vec<Op>) -> Vm {
    let mut vm = Vm::new(module(vec![(MethodId(1), method("Main", 0, body))]));
    vm.run().unwrap();
    vm
}

fn outcome(body: Vec<Op>) -> Stepped {
    machine(body).advance(&mut world(), 1000)
}

fn value(body: Vec<Op>) -> Value {
    match outcome(body) {
        Stepped::Done(v) => v,
        other => panic!("expected a value, got {other:?}"),
    }
}

fn failure(body: Vec<Op>) -> String {
    match outcome(body) {
        Stepped::Failed(e) => e.message(),
        other => panic!("expected an error, got {other:?}"),
    }
}

#[test]
fn arithmetic_wraps_or_overflows() {
    assert_eq!(value(vec![Op::LdInt(3), Op::LdInt(4), Op::Add, Op::Ret]), Value::Int(7));
    let big = vec![Op::LdInt64(i64::MAX), Op::LdInt(1), Op::Add, Op::Ret];
    assert_eq!(value(big), Value::Int(i64::MIN));
    let mut vm = machine(vec![Op::LdInt64(i64::MAX), Op::LdInt(1), Op::Add, Op::Ret]);
    vm.set_overflow_checks(true);
    assert!(matches!(vm.advance(&mut world(), 10), Stepped::Failed(VmError::Overflow)));
    assert_eq!(
        failure(vec![Op::LdInt(1), Op::LdInt(0), Op::Div, Op::Ret]),
        "divide by zero"
    );
    assert_eq!(value(vec![Op::LdInt(-7), Op::LdInt(2), Op::Div, Op::Ret]), Value::Int(-3));
    assert_eq!(value(vec![Op::LdInt(-7), Op::LdInt(2), Op::Rem, Op::Ret]), Value::Int(-1));
}

#[test]
fn loops_and_locals() {
    // int r = 0; while (r < 5) { r = r + 2; } return r;
    let body = vec![
        Op::LdInt(0),
        Op::Stloc(0),
        Op::Ldloc(0),
        Op::LdInt(5),
        Op::Lt,
        Op::BrFalse(11),
        Op::Ldloc(0),
        Op::LdInt(2),
        Op::Add,
        Op::Stloc(0),
        Op::Br(2),
        Op::Ldloc(0),
        Op::Ret,
    ];
    assert_eq!(value(body), Value::Int(6));
    assert_eq!(failure(vec![Op::Ldloc(9), Op::Ret]), "runtime error: local 9 out of range");
    assert_eq!(failure(vec![Op::Pop]), "stack underflow");
    assert_eq!(failure(vec![Op::Nop]), "runtime error: pc out of bounds");
}

#[test]
fn constants_of_every_kind() {
    assert_eq!(value(vec![Op::LdFloat(1), Op::Ret]), Value::Float(1.5f64.to_bits()));
    assert_eq!(failure(vec![Op::LdFloat(2)]), "runtime error: invalid float literal");
    assert_eq!(failure(vec![Op::LdFloat(9)]), "runtime error: float constant out of range");
    assert_eq!(failure(vec![Op::LdStr(9)]), "runtime error: string constant out of range");
    assert_eq!(value(vec![Op::LdChar(65), Op::Ret]), Value::Char('A'));
    assert_eq!(value(vec![Op::LdChar(0xD800), Op::Ret]), Value::Char('\0'));
    assert_eq!(value(vec![Op::LdNull, Op::Ret]), Value::Null);
    assert_eq!(value(vec![Op::Ret]), Value::Unit);
}

#[test]
fn calls_push_frames() {
    let square = method("Square", 1, vec![Op::Ldarg(0), Op::Dup, Op::Mul, Op::Ret]);
    let main = method("Main", 0, vec![Op::LdInt(6), Op::Call(MethodId(2)), Op::Ret]);
    let mut vm = Vm::new(module(vec![(MethodId(1), main), (MethodId(2), square)]));
    vm.run().unwrap();
    let mut w = world();
    assert!(matches!(vm.advance(&mut w, 2), Stepped::Running));
    assert_eq!(vm.frames.len(), 2);
    {
        let view = DebugView { vm: &vm };
        assert_eq!(view.frame_count(), 2);
        assert_eq!(
            view.frames(),
            vec![("Program.Main".to_string(), 10), ("Program.Square".to_string(), 10)]
        );
        assert!(view.resolve_method_label("Program.Square"));
        assert!(!view.resolve_method_label("Program.Cube"));
        assert_eq!(view.eval_path(1, "a"), Ok(Value::Int(6)));
        assert_eq!(view.eval_path(1, "b"), Err("`b`: no local `b`".to_string()));
        let names: Vec<String> = view.frame_locals(1).into_iter().map(|(n, _)| n).collect();
        assert_eq!(names, vec!["a".to_string(), "c".to_string()]);
    }
    assert!(matches!(vm.advance(&mut w, 100), Stepped::Done(Value::Int(36))));
    assert_eq!(failure(vec![Op::Call(MethodId(7))]), "unknown method MethodId(7)");
}

#[test]
fn an_exception_is_caught() {
    let mut main = method(
        "Main",
        0,
        vec![Op::LdInt(5), Op::Throw, Op::Ldloc(3), Op::LdInt(1), Op::Add, Op::Ret],
    );
    main.handlers = vec![ExceptionHandler {
        start: 0,
        end: 2,
        catch_type: Some(TypeDesc::Int64),
        handler_pc: 2,
        catch_local: 3,
    }];
    let mut vm = Vm::new(module(vec![(MethodId(1), main)]));
    vm.run().unwrap();
    assert!(matches!(vm.advance(&mut world(), 100), Stepped::Done(Value::Int(6))));
}

#[test]
fn finally_runs_before_the_caller_sees_it() {
    let mut inner = method(
        "Inner",
        0,
        vec![
            Op::LdInt(9),
            Op::Throw,
            Op::LdInt(1),
            Op::Stsfld(ClassId(0), 0),
            Op::EndFinally,
            Op::Ret,
        ],
    );
    inner.handlers = vec![ExceptionHandler {
        start: 0,
        end: 2,
        catch_type: None,
        handler_pc: 2,
        catch_local: 0,
    }];
    let mut main = method(
        "Main",
        0,
        vec![Op::Call(MethodId(2)), Op::Ret, Op::Ldsfld(ClassId(0), 0), Op::Ret],
    );
    main.handlers = vec![ExceptionHandler {
        start: 0,
        end: 1,
        catch_type: Some(TypeDesc::Int64),
        handler_pc: 2,
        catch_local: 0,
    }];
    let mut vm = Vm::new(module(vec![(MethodId(1), main), (MethodId(2), inner)]));
    vm.run().unwrap();
    assert!(matches!(vm.advance(&mut world(), 100), Stepped::Done(Value::Int(1))));
}

#[test]
fn the_innermost_handler_is_taken() {
    // Two regions start together; the shorter one is inside the other.
    let mut main = method(
        "Main",
        0,
        vec![Op::LdInt(5), Op::Throw, Op::LdInt(1), Op::Ret, Op::LdInt(2), Op::Ret],
    );
    main.handlers = vec![
        ExceptionHandler {
            start: 0,
            end: 4,
            catch_type: Some(TypeDesc::Int64),
            handler_pc: 4,
            catch_local: 0,
        },
        ExceptionHandler {
            start: 0,
            end: 2,
            catch_type: Some(TypeDesc::Int64),
            handler_pc: 2,
            catch_local: 0,
        },
    ];
    let mut vm = Vm::new(module(vec![(MethodId(1), main)]));
    vm.run().unwrap();
    assert!(matches!(vm.advance(&mut world(), 100), Stepped::Done(Value::Int(1))));
}

#[test]
fn an_uncaught_exception_is_described() {
    let mut vm = machine(vec![Op::LdInt(5), Op::Throw]);
    let exc = match vm.advance(&mut world(), 10) {
        Stepped::Uncaught(v) => v,
        other => panic!("expected an exception, got {other:?}"),
    };
    assert_eq!(exc, Value::Int(5));
    assert!(vm.frames.is_empty());
    let e = vm.uncaught(&world(), exc).unwrap();
    assert_eq!(e.message(), "runtime error: uncaught exception: 5");
}

#[test]
fn exceptions_carry_their_trace() {
    let mut vm = machine(vec![
        Op::NewObj(ClassId(1), Vec::new()),
        Op::Stloc(0),
        Op::LdStr(0),
        Op::Ldloc(0),
        Op::Stfld(0),
        Op::Ldloc(0),
        Op::Throw,
    ]);
    let exc = match vm.advance(&mut world(), 20) {
        Stepped::Uncaught(v) => v,
        other => panic!("expected an exception, got {other:?}"),
    };
    let text = vm.uncaught(&world(), exc).unwrap().message();
    assert!(text.starts_with("runtime error: uncaught exception: Exception: hello"), "{text}");
    assert!(text.contains("Program.Main"), "{text}");
}

#[test]
fn enums_and_tuples() {
    let make = || vec![Op::LdInt(3), Op::LdInt(4), Op::NewEnum(EnumId(0), 1)];
    let mut body = make();
    body.push(Op::EnumField(1));
    body.push(Op::Ret);
    assert_eq!(value(body), Value::Int(4));
    let mut body = make();
    body.push(Op::EnumTag);
    body.push(Op::Ret);
    assert_eq!(value(body), Value::Int(1));
    let mut body = make();
    body.extend(make());
    body.push(Op::Eq);
    body.push(Op::Ret);
    assert_eq!(value(body), Value::Bool(true));
    let mut body = make();
    body.push(Op::EnumField(2));
    assert_eq!(failure(body), "runtime error: enum field index 2 out of range");
    assert_eq!(
        failure(vec![Op::NewEnum(EnumId(0), 7)]),
        "runtime error: unknown variant index 7"
    );
    assert_eq!(
        failure(vec![Op::NewEnum(EnumId(3), 0)]),
        "runtime error: unknown enum EnumId(3)"
    );
    let tuple = vec![Op::LdInt(1), Op::LdBool(true), Op::NewTuple(2), Op::TupleField(1), Op::Ret];
    assert_eq!(value(tuple), Value::Bool(true));
}

#[test]
fn text_is_shown_and_the_machine_goes_on() {
    let mut vm = machine(vec![
        Op::LdStr(0),
        Op::LdInt(7),
        Op::LdChar(33),
        Op::StringConcat(3),
        Op::Print,
        Op::PrintLn,
        Op::LdInt(1),
        Op::Ret,
    ]);
    let mut w = world();
    match vm.advance(&mut w, 100) {
        Stepped::Show(s) => assert_eq!(s, "hello7!"),
        other => panic!("expected text, got {other:?}"),
    }
    match vm.advance(&mut w, 100) {
        Stepped::Show(s) => assert_eq!(s, "\n"),
        other => panic!("expected text, got {other:?}"),
    }
    assert!(matches!(vm.advance(&mut w, 100), Stepped::Done(Value::Int(1))));
}

#[test]
fn a_question_leaves_the_machine_as_it_was() {
    let mut vm = machine(vec![Op::NativeCall(40), Op::Ret]);
    let mut w = world();
    assert!(matches!(vm.advance(&mut w, 10), Stepped::Ask(Ask::ReadLine)));
    assert_eq!(vm.frames.len(), 1);
    assert_eq!(vm.frames[0].pc, 0);
    w.reply = Some(Reply::Text("a line\r\n".to_string()));
    let v = match vm.advance(&mut w, 10) {
        Stepped::Done(Value::String(h)) => h,
        other => panic!("expected a string, got {other:?}"),
    };
    assert_eq!(vm.heap().get_string(v), Some("a line"));
    assert!(w.reply.is_none());
}

#[test]
fn a_collection_keeps_what_runs() {
    let mut vm = machine(vec![
        Op::LdStr(0),
        Op::Stloc(0),
        Op::LdStr(1),
        Op::Pop,
        Op::Nop,
        Op::Ldloc(0),
        Op::Ret,
    ]);
    let mut w = world();
    assert!(matches!(vm.advance(&mut w, 4), Stepped::Running));
    assert_eq!(vm.heap().live_count(), 2);
    assert_eq!(vm.roots().len(), 1);
    vm.store.heap.set_threshold(1);
    assert!(vm.heap().needs_collect());
    vm.maybe_collect();
    assert_eq!(vm.heap().live_count(), 1);
    match vm.advance(&mut w, 10) {
        Stepped::Done(Value::String(h)) => assert_eq!(vm.heap().get_string(h), Some("hello")),
        other => panic!("expected a string, got {other:?}"),
    }
}

#[test]
fn objects_have_fields() {
    let mut vm = machine(vec![
        Op::NewObj(ClassId(1), Vec::new()),
        Op::Stloc(0),
        Op::LdStr(0),
        Op::Ldloc(0),
        Op::Stfld(0),
        Op::Ldloc(0),
        Op::Ldfld(0),
        Op::Ret,
    ]);
    match vm.advance(&mut world(), 100) {
        Stepped::Done(Value::String(h)) => assert_eq!(vm.heap().get_string(h), Some("hello")),
        other => panic!("expected a string, got {other:?}"),
    }
    assert!(matches!(
        vm.heap().get(aura::vm::value::GcRef(1)),
        Ok(AuraObject::Instance { .. })
    ));
    assert_eq!(failure(vec![Op::NewObj(ClassId(8), Vec::new())]), "unknown class ClassId(8)");
    assert_eq!(
        failure(vec![Op::LdInt(1), Op::Ldfld(0)]),
        "type mismatch: expected object, got int"
    );
}

#[test]
fn a_program_without_entrypoint() {
    let mut m = module(Vec::new());
    m.entrypoint = None;
    let mut vm = Vm::new(m);
    assert!(matches!(vm.run(), Err(VmError::NoEntrypoint)));
}

#[test]
fn floats_become_integers_or_overflow() {
    let conv = |bits: u64, checks: bool, ty: TypeDesc| {
        let mut m = module(vec![(
            MethodId(1),
            method("Main", 0, vec![Op::LdFloat(0), Op::Conv(ty), Op::Ret]),
        )]);
        m.float_pool[0] = FloatConst::Bits(bits);
        let mut vm = Vm::new(m);
        vm.set_overflow_checks(checks);
        vm.run().unwrap();
        vm.advance(&mut world(), 10)
    };
    let int = |s: Stepped| match s {
        Stepped::Done(Value::Int(n)) => n,
        other => panic!("expected an integer, got {other:?}"),
    };
    let fails = |s: Stepped| matches!(s, Stepped::Failed(VmError::Overflow));
    for checks in [false, true] {
        assert_eq!(int(conv((-2.75f64).to_bits(), checks, TypeDesc::Int64)), -2);
        assert_eq!(int(conv(0.99f64.to_bits(), checks, TypeDesc::Int64)), 0);
        assert_eq!(int(conv(127.5f64.to_bits(), checks, TypeDesc::Int8)), 127);
        assert_eq!(int(conv((-9.223372036854775808e18f64).to_bits(), checks, TypeDesc::Int64)), i64::MIN);
    }
    assert_eq!(int(conv(1e30f64.to_bits(), false, TypeDesc::Int64)), i64::MAX);
    assert_eq!(int(conv((-1e30f64).to_bits(), false, TypeDesc::Int64)), i64::MIN);
    assert_eq!(int(conv(f64::NAN.to_bits(), false, TypeDesc::Int64)), 0);
    assert!(fails(conv(1e30f64.to_bits(), true, TypeDesc::Int64)));
    assert!(fails(conv(9.223372036854775808e18f64.to_bits(), true, TypeDesc::Int64)));
    assert!(fails(conv(128.0f64.to_bits(), true, TypeDesc::Int8)));
    assert!(fails(conv(f64::NAN.to_bits(), true, TypeDesc::Int64)));
    assert!(fails(conv(f64::INFINITY.to_bits(), true, TypeDesc::Int64)));
}

#[test]
fn a_failed_run_leaves_no_frames() {
    let bad = method("Bad", 0, vec![Op::LdInt(1), Op::LdInt(0), Op::Div, Op::Ret]);
    let main = method("Main", 0, vec![Op::Call(MethodId(2)), Op::Ret]);
    let good = method("Good", 0, vec![Op::LdInt(4), Op::Ret]);
    let mut vm =
        Vm::new(module(vec![(MethodId(1), main), (MethodId(2), bad), (MethodId(3), good)]));
    vm.run().unwrap();
    assert!(matches!(vm.advance(&mut world(), 100), Stepped::Failed(VmError::DivideByZero)));
    assert!(vm.frames.is_empty());
    vm.invoke(MethodId(3), Vec::new()).unwrap();
    assert!(matches!(vm.advance(&mut world(), 100), Stepped::Done(Value::Int(4))));
}

#[test]
fn operations_of_frames_are_named_where_they_are_refused() {
    let mut vm = machine(vec![Op::Ret]);
    let m = module(Vec::new());
    let mut refused = |op: Op| {
        match vm.store.apply(&m, false, &Vec::new(), &world(), &op, &Vec::new()) {
            Applied::Failed(e) => e.message(),
            _ => panic!("expected an error"),
        }
    };
    assert_eq!(refused(Op::Br(3)), "runtime error: jit: unhandled helper op Br(3)");
    assert_eq!(refused(Op::Dup), "runtime error: jit: unhandled helper op Dup");
    assert_eq!(refused(Op::Ret), "runtime error: jit: unhandled helper op Ret");
}
