//! Folded constants are what the interpreter computes.

use aura::arith::{FloatAsk, FloatFact, FloatOp};
use aura::bytecode::{ClassDef, ClassId, FloatConst, MethodDef, MethodId, Module, Op, TypeDesc};
use aura::jit::ir::{Insn, Term};
use aura::jit::lower::Lowerer;
use aura::jit::optimize::optimize;
use aura::vm::machine::{Stepped, Vm};
use aura::vm::value::Value;
use aura::vm::world::{Ask, World};

fn module(body: Vec<Op>) -> Module {
    let main = MethodDef {
        name: "Main".to_string(),
        return_ty: TypeDesc::Int64,
        params: Vec::new(),
        generic_params: Vec::new(),
        is_instance: false,
        body,
        handlers: Vec::new(),
        max_stack: 8,
        locals: 2,
        line_starts: Vec::new(),
        local_names: Vec::new(),
    };
    Module {
        name: "m".to_string(),
        classes: vec![(
            ClassId(0),
            ClassDef {
                name: "Program".to_string(),
                generic_params: Vec::new(),
                super_class: None,
                interfaces: Vec::new(),
                is_interface: false,
                is_abstract: false,
                is_record: false,
                fields: Vec::new(),
                static_fields: Vec::new(),
                methods: Vec::new(),
                static_methods: vec![(MethodId(1), main)],
            },
        )],
        enums: Vec::new(),
        entrypoint: Some(MethodId(1)),
        constant_pool: vec!["0.5".to_string(), "nan".to_string()],
        float_pool: vec![
            FloatConst::Bits(0.5f64.to_bits()),
            FloatConst::Bits(f64::NAN.to_bits()),
        ],
    }
}

fn known() -> Vec<FloatFact> {
    let ask = FloatAsk { op: FloatOp::Add, x: 0.5f64.to_bits(), y: 0.5f64.to_bits() };
    vec![FloatFact { ask, result: 1.0f64.to_bits() }]
}

fn interpreted(body: Vec<Op>) -> Value {
    let mut vm = Vm::new(module(body));
    vm.run().unwrap();
    let mut w = World { floats: known(), float_texts: Vec::new(), parsed: Vec::new(), reply: None };
    match vm.advance(&mut w, 100) {
        Stepped::Done(v) => v,
        other => panic!("expected a value, got {other:?}"),
    }
}

/// The constant that the method returns after optimization.
fn folded(body: Vec<Op>) -> Option<Value> {
    let m = module(body);
    let mut f = Lowerer::new(&m, MethodId(1), false).unwrap().lower().unwrap();
    optimize(&mut f, &known());
    let result = f.blocks.iter().find_map(|b| match b.term {
        Term::Ret(v) => Some(v),
        _ => None,
    })?;
    f.blocks.iter().flat_map(|b| b.insns.iter()).find_map(|i| match i {
        Insn::ConstInt { dst, val } if *dst == result => Some(Value::Int(*val)),
        Insn::ConstFloat { dst, bits } if *dst == result => Some(Value::Float(*bits)),
        Insn::ConstBool { dst, val } if *dst == result => Some(Value::Bool(*val)),
        _ => None,
    })
}

fn both(body: impl Fn() -> Vec<Op>) -> Value {
    let v = interpreted(body());
    assert_eq!(folded(body()), Some(v));
    v
}

#[test]
fn folded_integers_agree() {
    let two = |a: i64, op: fn() -> Op, b: i64| {
        both(|| vec![Op::LdInt64(a), Op::LdInt64(b), op(), Op::Ret])
    };
    assert_eq!(two(i64::MAX, || Op::Add, 1), Value::Int(i64::MIN));
    assert_eq!(two(7, || Op::Sub, 9), Value::Int(-2));
    assert_eq!(two(1 << 40, || Op::Mul, 1 << 40), Value::Int(0));
    assert_eq!(two(3, || Op::Lt, 4), Value::Bool(true));
    assert_eq!(two(4, || Op::Ge, 5), Value::Bool(false));
    assert_eq!(two(4, || Op::Eq, 4), Value::Bool(true));
    assert_eq!(both(|| vec![Op::LdInt64(i64::MIN), Op::Neg, Op::Ret]), Value::Int(i64::MIN));
    assert_eq!(both(|| vec![Op::LdInt(0), Op::Not, Op::Ret]), Value::Bool(true));
}

#[test]
fn folded_floats_agree() {
    assert_eq!(
        both(|| vec![Op::LdFloat(0), Op::LdFloat(0), Op::Add, Op::Ret]),
        Value::Float(1.0f64.to_bits())
    );
    assert_eq!(
        both(|| vec![Op::LdFloat(0), Op::LdFloat(0), Op::Eq, Op::Ret]),
        Value::Bool(true)
    );
    assert_eq!(
        both(|| vec![Op::LdFloat(1), Op::LdFloat(1), Op::Eq, Op::Ret]),
        Value::Bool(false)
    );
    assert_eq!(
        both(|| vec![Op::LdFloat(0), Op::Neg, Op::Ret]),
        Value::Float((-0.5f64).to_bits())
    );
}

#[test]
fn unknown_floats_are_asked_for_alike() {
    let body = || vec![Op::LdFloat(0), Op::LdFloat(0), Op::Mul, Op::Ret];
    let m = module(body());
    let mut f = Lowerer::new(&m, MethodId(1), false).unwrap().lower().unwrap();
    let asks = optimize(&mut f, &known());
    let mut vm = Vm::new(module(body()));
    vm.run().unwrap();
    let mut w = World { floats: known(), float_texts: Vec::new(), parsed: Vec::new(), reply: None };
    match vm.advance(&mut w, 100) {
        Stepped::Ask(Ask::Float(q)) => assert_eq!(asks, vec![q]),
        other => panic!("expected a question, got {other:?}"),
    }
}

#[test]
fn a_machine_survives_collections_between_all_operations() {
    // Builds a list of lists and reads it back while everything else goes.
    let body = vec![
        Op::NativeCall(0),
        Op::Stloc(0),
        Op::NativeCall(0),
        Op::Stloc(1),
        Op::Ldloc(1),
        Op::LdStr(0),
        Op::NativeCall(1),
        Op::Pop,
        Op::Ldloc(0),
        Op::Ldloc(1),
        Op::NativeCall(1),
        Op::Pop,
        Op::LdNull,
        Op::Stloc(1),
        Op::LdStr(1),
        Op::Pop,
        Op::Ldloc(0),
        Op::LdInt(0),
        Op::NativeCall(2),
        Op::LdInt(0),
        Op::NativeCall(2),
        Op::Ret,
    ];
    let mut vm = Vm::new(module(body));
    vm.run().unwrap();
    let mut w = World { floats: known(), float_texts: Vec::new(), parsed: Vec::new(), reply: None };
    loop {
        match vm.advance(&mut w, 1) {
            Stepped::Running => {}
            Stepped::Done(Value::String(h)) => {
                assert_eq!(vm.heap().get_string(h), Some("0.5"));
                break;
            }
            other => panic!("expected a string, got {other:?}"),
        }
        vm.store.heap.set_nursery_size(Some(1));
        let roots = vm.roots();
        vm.store.heap.collect_minor(&roots);
        vm.store.heap.collect_major(&roots);
        vm.maybe_collect();
    }
    assert!(vm.heap().collections() > 0);
}
