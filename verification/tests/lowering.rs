//! Lowering to the intermediate representation, and the passes on it.

use aura::bytecode::{
    ClassDef, ClassId, EnumDef, EnumId, ExceptionHandler, FieldDef, FloatConst, MethodDef, MethodId,
    Module, Op, TypeDesc, VariantDef,
};
use aura::jit::ir::{BinOp, Function, Insn, KType, Term};
use aura::jit::lower::Lowerer;
use aura::jit::optimize::optimize;
use aura::jit::regalloc::allocate;

fn method(
    is_instance: bool,
    body: Vec<Op>,
    params: Vec<TypeDesc>,
    locals: u16,
    max_stack: u16,
) -> MethodDef {
    MethodDef {
        name: "test".to_string(),
        return_ty: TypeDesc::Unit,
        params,
        generic_params: Vec::new(),
        is_instance,
        body,
        handlers: Vec::new(),
        max_stack,
        locals,
        line_starts: Vec::new(),
        local_names: Vec::new(),
    }
}

fn class(
    methods: Vec<(MethodId, MethodDef)>,
    static_methods: Vec<(MethodId, MethodDef)>,
) -> ClassDef {
    ClassDef {
        name: "Test".to_string(),
        generic_params: Vec::new(),
        super_class: None,
        interfaces: Vec::new(),
        is_interface: false,
        is_abstract: false,
        is_record: false,
        fields: Vec::new(),
        static_fields: Vec::new(),
        methods,
        static_methods,
    }
}

fn module(body: Vec<Op>, params: Vec<TypeDesc>, locals: u16, max_stack: u16) -> Module {
    let m = method(false, body, params, locals, max_stack);
    Module {
        name: "test".to_string(),
        classes: vec![(ClassId(0), class(Vec::new(), vec![(MethodId(1), m)]))],
        enums: Vec::new(),
        entrypoint: None,
        constant_pool: vec!["1.5".to_string(), "3.25".to_string()],
        float_pool: vec![
            FloatConst::Bits(1.5f64.to_bits()),
            FloatConst::Bits(3.25f64.to_bits()),
        ],
    }
}

fn lower(body: Vec<Op>, params: Vec<TypeDesc>, locals: u16, max_stack: u16) -> Function {
    let m = module(body, params, locals, max_stack);
    Lowerer::new(&m, MethodId(1), false).unwrap().lower().unwrap()
}

fn instance_module(body: Vec<Op>, params: Vec<TypeDesc>, locals: u16, max_stack: u16) -> Module {
    let m = method(true, body, params, locals, max_stack);
    Module {
        name: "test".to_string(),
        classes: vec![(ClassId(0), class(vec![(MethodId(1), m)], Vec::new()))],
        enums: Vec::new(),
        entrypoint: None,
        constant_pool: vec![],
        float_pool: vec![],
    }
}

#[test]
fn instance_param_local_types_include_this() {
    let m = instance_module(
        vec![Op::Ldarg(0), Op::Ldarg(1), Op::Mul, Op::Ret],
        vec![TypeDesc::Float64, TypeDesc::Int64],
        3,
        2,
    );
    let f = Lowerer::new(&m, MethodId(1), false).unwrap().lower().unwrap();
    assert_eq!(f.params, 3, "this + two params");
    assert_eq!(f.local_types[0], KType::Unknown, "local 0 is `this`");
    assert_eq!(f.local_types[1], KType::Float, "local 1 is the float param");
    assert_eq!(f.local_types[2], KType::Int, "local 2 is the int param");
    // Mixed float x int cannot inline; it must route through a helper.
    assert!(!f.helper_ops.is_empty());
}

#[test]
fn lowers_loop_with_fallthrough_block() {
    // int r = 0; while (r < 2) { r = r + 1; } return r;
    let body = vec![
        Op::LdInt(0),
        Op::Stloc(0),
        Op::Ldloc(0),
        Op::LdInt(2),
        Op::Lt,
        Op::BrFalse(11),
        Op::Ldloc(0),
        Op::LdInt(1),
        Op::Add,
        Op::Stloc(0),
        Op::Br(2),
        Op::Ldloc(0),
        Op::Ret,
    ];
    let f = lower(body, vec![], 1, 2);
    let reachable: Vec<_> = f.blocks.iter().filter(|b| b.reachable).collect();
    assert_eq!(reachable.len(), 4);
    // b0 is the pre-header; it ends without a control op and must fall
    // through to b1 (the loop head) instead of dropping its instructions.
    assert_eq!(f.blocks[0].insns.len(), 2);
    assert!(matches!(f.blocks[0].term, Term::Br(1)));
    assert_eq!(f.blocks[0].succs, vec![1]);
    assert_eq!(f.blocks[0].preds, Vec::<usize>::new());
    // b1 (loop head) branches to b3 (exit) or falls into b2 (body).
    assert!(matches!(f.blocks[1].term, Term::BrFalse(_, 3)));
    assert_eq!(f.blocks[1].succs, vec![3, 2]);
    assert_eq!(f.blocks[2].preds, vec![1]);
    assert_eq!(f.blocks[2].succs, vec![1], "body loops back to the head");
    assert!(matches!(f.blocks[3].term, Term::Ret(_)));
    assert_eq!(f.blocks[3].preds, vec![1]);
}

#[test]
fn int_mul_inlines() {
    let f = lower(vec![Op::LdInt(7), Op::LdInt(2), Op::Mul, Op::Ret], vec![], 0, 2);
    assert!(f.helper_ops.is_empty(), "int mul must not route to a helper");
    let muls = f.blocks[0]
        .insns
        .iter()
        .filter(|i| matches!(i, Insn::Bin { op: BinOp::Mul, .. }))
        .count();
    assert_eq!(muls, 1);
    match &f.blocks[0].term {
        Term::Ret(v) => assert_eq!(f.vtype(*v), KType::Int),
        other => panic!("expected Ret, got {other:?}"),
    }
}

#[test]
fn lowers_int_add() {
    let f = lower(vec![Op::LdInt(3), Op::LdInt(4), Op::Add, Op::Ret], vec![], 0, 2);
    assert_eq!(f.params, 0);
    assert_eq!(f.locals, 0);
    assert!(f.helper_ops.is_empty());
    assert_eq!(f.blocks.len(), 1);
    let block = &f.blocks[0];
    assert!(block.reachable);
    assert_eq!(block.preds, Vec::<usize>::new());
    assert_eq!(block.succs, Vec::<usize>::new());
    let adds: Vec<_> = block
        .insns
        .iter()
        .filter_map(|i| match i {
            Insn::Bin { op: BinOp::Add, a, b, .. } => Some((*a, *b)),
            _ => None,
        })
        .collect();
    assert_eq!(adds.len(), 1);
    let (a, b) = adds[0];
    assert_eq!(f.vtype(a), KType::Int);
    assert_eq!(f.vtype(b), KType::Int);
    match &block.term {
        Term::Ret(v) => assert_eq!(f.vtype(*v), KType::Int),
        other => panic!("expected Ret, got {other:?}"),
    }
}

#[test]
fn lowers_params_and_locals() {
    let f = lower(
        vec![Op::Ldarg(0), Op::Ldarg(1), Op::Add, Op::Stloc(2), Op::Ldloc(2), Op::Ret],
        vec![TypeDesc::Int64, TypeDesc::Int32],
        3,
        2,
    );
    assert_eq!(f.params, 2);
    assert_eq!(f.locals, 3);
    assert_eq!(f.local_types[0], KType::Int);
    assert_eq!(f.local_types[1], KType::Int);
    // Slot 2 starts Unknown and receives an Int store, so it becomes Int.
    assert_eq!(f.local_types[2], KType::Int);
    let loads: Vec<u16> = f.blocks[0]
        .insns
        .iter()
        .filter_map(|i| match i {
            Insn::LdLocal { idx, .. } => Some(*idx),
            Insn::StLocal { idx, .. } => Some(*idx),
            _ => None,
        })
        .collect();
    assert_eq!(loads, vec![0, 1, 2, 2]);
}

#[test]
fn lowers_float_add() {
    let f = lower(vec![Op::LdFloat(0), Op::LdFloat(1), Op::Add, Op::Ret], vec![], 0, 2);
    let adds: Vec<_> = f.blocks[0]
        .insns
        .iter()
        .filter_map(|i| match i {
            Insn::Bin { op: BinOp::Add, a, b, .. } => Some((*a, *b)),
            _ => None,
        })
        .collect();
    assert_eq!(adds.len(), 1);
    assert_eq!(f.vtype(adds[0].0), KType::Float);
    match &f.blocks[0].term {
        Term::Ret(v) => assert_eq!(f.vtype(*v), KType::Float),
        other => panic!("expected Ret, got {other:?}"),
    }
}

#[test]
fn lowers_branch_with_edge_moves() {
    let body = vec![
        Op::LdInt(1),
        Op::LdInt(2),
        Op::Lt,
        Op::BrFalse(6),
        Op::LdInt(9),
        Op::Ret,
        Op::LdInt(10),
        Op::Ret,
    ];
    let f = lower(body, vec![], 0, 2);
    let reachable: Vec<_> = f.blocks.iter().filter(|b| b.reachable).collect();
    // b0: LdInt/Lt/BrFalse; b1: then-path (LdInt 9, Ret); b2: else-path.
    assert_eq!(reachable.len(), 3);
    let b0 = &f.blocks[0];
    assert!(matches!(b0.term, Term::BrFalse(_, _)));
    assert_eq!(b0.succs, vec![2, 1]);
    assert_eq!(f.blocks[1].preds, vec![0]);
    assert_eq!(f.blocks[2].preds, vec![0]);
    assert!(matches!(f.blocks[1].term, Term::Ret(_)));
    assert!(matches!(f.blocks[2].term, Term::Ret(_)));
}

#[test]
fn rejects_exception_handlers() {
    let m = module(vec![Op::LdInt(1), Op::Ret], vec![], 0, 1);
    let mut m = m;
    for (_, class) in m.classes.iter_mut() {
        for (_, method) in class.static_methods.iter_mut() {
            method.handlers = vec![ExceptionHandler {
                start: 0,
                end: 2,
                catch_type: None,
                handler_pc: 2,
                catch_local: 0,
            }];
        }
    }
    let err = Lowerer::new(&m, MethodId(1), false).unwrap().lower().unwrap_err();
    assert!(err.contains("exception handlers"), "unexpected error: {err}");
}

#[test]
fn div_rem_route_to_helpers() {
    for op in [Op::Div, Op::Rem] {
        let f = lower(vec![Op::LdInt(7), Op::LdInt(2), op.clone(), Op::Ret], vec![], 0, 2);
        assert!(!f.helper_ops.is_empty(), "{op:?} must delegate to a helper");
        let helpers = f.blocks[0].insns.iter().filter(|i| matches!(i, Insn::Helper { .. })).count();
        assert_eq!(helpers, 1, "exactly one helper insn for {op:?}");
        match &f.blocks[0].term {
            // Helper results are untyped boxes.
            Term::Ret(v) => assert_eq!(f.vtype(*v), KType::Unknown),
            other => panic!("expected Ret, got {other:?}"),
        }
    }
}

#[test]
fn pipeline_lower_optimize_allocate() {
    // A `div` lowers to a helper call whose result is an untyped box, so the
    // allocator must reserve a 16-byte spill slot even though the rest of the
    // arithmetic fits in registers.
    let mut f = lower(
        vec![
            Op::LdInt(6),
            Op::LdInt(3),
            Op::Div,
            Op::Pop,
            Op::LdInt(1),
            Op::LdInt(2),
            Op::Add,
            Op::Stloc(0),
            Op::Ldloc(0),
            Op::Ret,
        ],
        vec![],
        1,
        2,
    );
    optimize(&mut f, &Vec::new());
    let alloc = allocate(&mut f);
    assert_eq!(alloc.homes.len(), f.types.len(), "every vreg must have a home");
    assert!(f.spill_bytes > 0, "expected a spill slot for the untyped helper result");
}

#[test]
fn constants_are_folded() {
    let mut f = lower(vec![Op::LdInt(3), Op::LdInt(4), Op::Add, Op::Ret], vec![], 0, 2);
    optimize(&mut f, &Vec::new());
    assert_eq!(f.blocks[0].insns.len(), 1);
    assert!(matches!(f.blocks[0].insns[0], Insn::ConstInt { val: 7, .. }));
}

#[test]
fn unknown_method_is_refused() {
    let m = module(vec![Op::Ret], vec![], 0, 0);
    let err = match Lowerer::new(&m, MethodId(9), false) {
        Ok(_) => panic!("method 9 does not exist"),
        Err(e) => e,
    };
    assert_eq!(err, "unknown method MethodId(9)");
}

fn module_with_enum(body: Vec<Op>) -> Module {
    let mut m = module(body, vec![], 0, 3);
    let field = |name: &str| FieldDef { name: name.to_string(), ty: TypeDesc::Int64 };
    m.enums.push((
        EnumId(0),
        EnumDef {
            name: "Shape".to_string(),
            variants: vec![
                VariantDef { name: "Empty".to_string(), fields: vec![] },
                VariantDef { name: "Pair".to_string(), fields: vec![field("a"), field("b")] },
            ],
        },
    ));
    m
}

#[test]
fn variants_take_their_own_fields() {
    let m = module_with_enum(vec![
        Op::LdInt(3),
        Op::LdInt(4),
        Op::NewEnum(EnumId(0), 1),
        Op::Ret,
    ]);
    let f = Lowerer::new(&m, MethodId(1), false).unwrap().lower().unwrap();
    let counts: Vec<usize> = f.blocks[0]
        .insns
        .iter()
        .filter_map(|i| match i {
            Insn::Helper { args, .. } => Some(args.len()),
            _ => None,
        })
        .collect();
    assert_eq!(counts, vec![2]);
    let m = module_with_enum(vec![Op::NewEnum(EnumId(0), 5), Op::Ret]);
    assert_eq!(
        Lowerer::new(&m, MethodId(1), false).unwrap().lower().unwrap_err(),
        "unknown enum variant"
    );
}

#[test]
fn stack_heights_agree_where_blocks_meet() {
    // One way into the last block leaves an operand, the other leaves none.
    let m = module(
        vec![
            Op::LdBool(true),
            Op::BrFalse(3),
            Op::LdInt(1),
            Op::LdNull,
            Op::Ret,
        ],
        vec![],
        0,
        2,
    );
    let message = Lowerer::new(&m, MethodId(1), false).unwrap().lower().unwrap_err();
    assert!(message.starts_with("inconsistent stack height for block "), "{message}");
}

#[test]
fn branches_on_constants_become_jumps() {
    let mut f = lower(
        vec![
            Op::LdBool(true),
            Op::BrFalse(4),
            Op::LdInt(1),
            Op::Ret,
            Op::LdInt(2),
            Op::Ret,
        ],
        vec![],
        0,
        1,
    );
    assert!(matches!(f.blocks[0].term, Term::BrFalse(_, 2)));
    assert_eq!(f.blocks[0].insns.len(), 1);
    let asks = optimize(&mut f, &Vec::new());
    assert!(asks.is_empty());
    assert!(matches!(f.blocks[0].term, Term::Br(1)));
    assert_eq!(f.blocks[0].succs, vec![1]);
    assert!(f.blocks[2].preds.is_empty());
    // Nothing needs the condition any more.
    assert!(f.blocks[0].insns.is_empty());
}

#[test]
fn unused_arithmetic_stays_where_it_may_overflow() {
    let body = || vec![Op::Ldarg(0), Op::LdInt(1), Op::Add, Op::Pop, Op::LdInt(5), Op::Ret];
    let adds = |checks: bool| {
        let m = module(body(), vec![TypeDesc::Int64], 1, 2);
        let mut f = Lowerer::new(&m, MethodId(1), checks).unwrap().lower().unwrap();
        optimize(&mut f, &Vec::new());
        f.blocks
            .iter()
            .flat_map(|b| b.insns.iter())
            .filter(|i| matches!(i, Insn::Bin { op: BinOp::Add, .. }))
            .count()
    };
    assert_eq!(adds(true), 1);
    assert_eq!(adds(false), 0);
}

#[test]
fn what_the_processor_would_do_otherwise_is_delegated() {
    let helpers = |ops: Vec<Op>, params: Vec<TypeDesc>, checks: bool| {
        let mut body: Vec<Op> = (0..params.len()).map(|i| Op::Ldarg(i as u16)).collect();
        body.extend(ops);
        body.push(Op::Ret);
        let n = params.len() as u16;
        let m = module(body, params, n, 2);
        Lowerer::new(&m, MethodId(1), checks).unwrap().lower().unwrap().helper_ops.len()
    };
    // A negative number is no unsigned one.
    assert_eq!(helpers(vec![Op::Conv(TypeDesc::UInt64)], vec![TypeDesc::Int64], true), 1);
    assert_eq!(helpers(vec![Op::Conv(TypeDesc::UInt64)], vec![TypeDesc::Int64], false), 0);
    // Only numbers are ordered and converted.
    assert_eq!(helpers(vec![Op::Lt], vec![TypeDesc::Bool, TypeDesc::Bool], false), 1);
    assert_eq!(helpers(vec![Op::Lt], vec![TypeDesc::Char, TypeDesc::Char], false), 1);
    assert_eq!(helpers(vec![Op::Lt], vec![TypeDesc::Int64, TypeDesc::Int64], false), 0);
    assert_eq!(helpers(vec![Op::Eq], vec![TypeDesc::Bool, TypeDesc::Bool], false), 0);
    assert_eq!(helpers(vec![Op::Conv(TypeDesc::Int64)], vec![TypeDesc::Bool], false), 1);
}
