//! Error messages of the type checker.

use aura::typer::ast::{
    AssignTarget, BinOp, CallExpr, ClassDecl, Decl, EnumDecl, Expr, FieldDecl, GenericParam, IntSuffix, Member,
    MethodDecl, NewtypeDecl, Param, Program, Stmt, Type, Variance, Visibility,
};
use aura::typer::check::TypeChecker;
use aura::typer::info::Intrinsics;
use aura::typer::rules::{extra_hint, member_hint};
use aura::typer::suggest::{edit_distance, suggest};

fn nothing_built_in() -> Intrinsics {
    Intrinsics { classes: Vec::new(), string_methods: Vec::new(), string_properties: Vec::new() }
}

fn check(decls: Vec<Decl>) -> Result<(), String> {
    match TypeChecker::new(nothing_built_in()).check(Program { decls }) {
        Ok(_) => Ok(()),
        Err(e) => Err(e.0),
    }
}

fn err(decls: Vec<Decl>) -> String {
    format!("type error: {}", check(decls).expect_err("should not compile"))
}

fn class_type(name: &str) -> Type {
    Type::Class(name.to_string(), Vec::new())
}

fn var(name: &str) -> Expr {
    Expr::Var(name.to_string())
}

fn num(v: i64) -> Expr {
    Expr::IntLit(v, IntSuffix::Plain)
}

fn field_of(target: Expr, name: &str) -> Expr {
    Expr::Field(Box::new(target), name.to_string())
}

fn call_on(target: Expr, method: &str, args: Vec<Expr>) -> Expr {
    Expr::Call(CallExpr {
        target: Some(Box::new(target)),
        class_or_target: String::new(),
        method: method.to_string(),
        args,
    })
}

fn print(arg: Expr) -> Stmt {
    Stmt::Expr(Expr::Call(CallExpr {
        target: None,
        class_or_target: "__intrinsics".to_string(),
        method: "print".to_string(),
        args: vec![arg],
    }))
}

fn set(name: &str, value: Expr) -> Stmt {
    Stmt::Assign(AssignTarget::Local(name.to_string()), value)
}

fn set_field(name: &str) -> Stmt {
    Stmt::Assign(AssignTarget::Field(Box::new(var("this")), name.to_string()), var(name))
}

fn declare(ty: Type, name: &str, value: Expr) -> Stmt {
    Stmt::VarDecl(ty, name.to_string(), Some(value))
}

fn param(ty: Type, name: &str) -> Param {
    Param { name: name.to_string(), ty }
}

fn method(name: &str, is_static: bool, ret: Type, params: Vec<Param>, body: Vec<Stmt>) -> Member {
    Member::Method(MethodDecl {
        name: name.to_string(),
        generic_params: Vec::new(),
        params,
        return_ty: ret,
        body,
        visibility: Visibility::Public,
        is_static,
        is_constructor: false,
        is_virtual: false,
        is_override: false,
        is_abstract: false,
        is_final: false,
        is_async: false,
        throws: Vec::new(),
        constructor_chain: None,
    })
}

fn constructor(class: &str, params: Vec<Param>, body: Vec<Stmt>) -> Member {
    match method(class, false, Type::Unit, params, body) {
        Member::Method(m) => Member::Method(MethodDecl { is_constructor: true, ..m }),
        other => other,
    }
}

fn field(ty: Type, name: &str) -> Member {
    Member::Field(FieldDecl {
        name: name.to_string(),
        ty,
        visibility: Visibility::Public,
        is_static: false,
        init: None,
    })
}

fn class(name: &str, members: Vec<Member>) -> Decl {
    Decl::Class(ClassDecl {
        name: name.to_string(),
        module: "test".to_string(),
        generic_params: Vec::new(),
        bases: Vec::new(),
        members,
        is_interface: false,
        is_abstract: false,
        is_sealed: false,
        is_static: false,
        is_record: false,
        record_params: Vec::new(),
        extension_on: None,
    })
}

fn program(members: Vec<Member>) -> Vec<Decl> {
    vec![class("Program", members)]
}

fn main_with(body: Vec<Stmt>) -> Vec<Decl> {
    program(vec![method("Main", true, Type::Unit, Vec::new(), body)])
}

fn square(name: &str) -> Expr {
    Expr::Binary(
        BinOp::Mul,
        Box::new(field_of(var("this"), name)),
        Box::new(field_of(var("this"), name)),
    )
}

fn construct(class: &str, args: Vec<Expr>) -> Expr {
    Expr::New(class.to_string(), Vec::new(), args)
}

#[test]
fn multiple_errors_in_one_pass() {
    let point = class(
        "Point",
        vec![
            field(Type::Int32, "x"),
            field(Type::Int32, "y"),
            constructor(
                "Point",
                vec![param(Type::Int32, "x"), param(Type::Int32, "y")],
                vec![Stmt::Mark(5), set_field("x"), set_field("y")],
            ),
            method(
                "norm",
                false,
                Type::Int32,
                Vec::new(),
                vec![
                    Stmt::Mark(6),
                    Stmt::Return(Some(Expr::Binary(
                        BinOp::Add,
                        Box::new(square("x")),
                        Box::new(square("y")),
                    ))),
                ],
            ),
        ],
    );
    let rest = class(
        "Program",
        vec![
            method(
                "helper",
                true,
                Type::Int32,
                Vec::new(),
                vec![
                    Stmt::Mark(10),
                    declare(Type::Int32, "counter", num(0)),
                    Stmt::Mark(11),
                    set(
                        "contuer",
                        Expr::Binary(BinOp::Add, Box::new(var("counter")), Box::new(num(1))),
                    ),
                    Stmt::Mark(12),
                    Stmt::Return(Some(var("counter"))),
                ],
            ),
            method(
                "other",
                true,
                Type::Unit,
                vec![param(class_type("Point"), "p")],
                vec![Stmt::Mark(15), print(field_of(var("p"), "z"))],
            ),
            method(
                "Main",
                true,
                Type::Unit,
                Vec::new(),
                vec![
                    Stmt::Mark(18),
                    declare(class_type("Pont"), "p", construct("Pont", vec![num(1), num(2)])),
                ],
            ),
        ],
    );
    let msg = err(vec![point, rest]);
    assert!(msg.contains("line 11, in `Program.helper`"), "{msg}");
    assert!(msg.contains("line 15, in `Program.other`"), "{msg}");
    assert!(msg.contains("line 18, in `Program.Main`"), "{msg}");
    assert_eq!(
        msg.matches("unknown").count(),
        3,
        "exactly one error per broken method:\n{msg}"
    );
}

#[test]
fn single_error_format_is_unchanged() {
    let msg = err(main_with(vec![
        Stmt::Mark(1),
        declare(Type::Int32, "x", Expr::String("s".to_string())),
    ]));
    assert!(!msg.contains('\n'), "single error stays one line: {msg}");
    assert!(msg.starts_with("type error: "), "{msg}");
}

#[test]
fn did_you_mean_suggestions() {
    let point = class(
        "Point",
        vec![
            field(Type::Int32, "x"),
            constructor("Point", vec![param(Type::Int32, "x")], vec![set_field("x")]),
            method(
                "norm",
                false,
                Type::Int32,
                Vec::new(),
                vec![Stmt::Return(Some(field_of(var("this"), "x")))],
            ),
        ],
    );
    let rest = class(
        "Program",
        vec![
            method(
                "a",
                true,
                Type::Unit,
                vec![param(class_type("Point"), "p")],
                vec![declare(Type::Int32, "a", call_on(var("p"), "nrom", Vec::new()))],
            ),
            method(
                "b",
                true,
                Type::Unit,
                vec![param(class_type("Point"), "p")],
                vec![declare(Type::Int32, "b", field_of(var("p"), "y"))],
            ),
            method(
                "c",
                true,
                Type::Unit,
                Vec::new(),
                vec![declare(Type::Int32, "counter", num(0)), set("contuer", num(1))],
            ),
            method(
                "d",
                true,
                Type::Unit,
                Vec::new(),
                vec![declare(class_type("Pont"), "q", Expr::Null)],
            ),
            method("Main", true, Type::Unit, Vec::new(), Vec::new()),
        ],
    );
    let msg = err(vec![point, rest]);
    assert!(msg.contains("`nrom` on `Point` — did you mean `norm`?"), "{msg}");
    assert!(msg.contains("`y` on `Point` — did you mean `x`?"), "{msg}");
    assert!(msg.contains("`contuer` — did you mean `counter`?"), "{msg}");
    assert!(msg.contains("`Pont` — did you mean `Point`?"), "{msg}");

    let far = err(main_with(vec![set("zzzqqq", num(1))]));
    assert!(!far.contains("did you mean"), "no suggestion for distant names: {far}");
}

#[test]
fn error_count_is_capped() {
    let mut members = Vec::new();
    for i in 0..30 {
        members.push(method(
            &format!("m{i}"),
            true,
            Type::Unit,
            Vec::new(),
            vec![set(&format!("badname{i}"), num(1))],
        ));
    }
    members.push(method("Main", true, Type::Unit, Vec::new(), Vec::new()));
    let msg = err(program(members));
    let count = msg.matches("unknown variable").count();
    assert_eq!(count, 20, "capped at 20, got {count}:\n{msg}");
}

#[test]
fn a_correct_program_passes() {
    let out = TypeChecker::new(nothing_built_in())
        .check(Program {
            decls: main_with(vec![
                declare(Type::Int64, "x", num(5)),
                set("x", Expr::Binary(BinOp::Add, Box::new(var("x")), Box::new(num(1)))),
            ]),
        })
        .unwrap();
    assert_eq!(out.classes.len(), 1);
    assert_eq!(out.classes[0].0, "Program");
}

#[test]
fn literals_must_fit() {
    assert_eq!(check(main_with(vec![declare(Type::Int8, "x", num(127))])), Ok(()));
    let msg = check(main_with(vec![declare(Type::Int8, "x", num(128))])).unwrap_err();
    assert!(msg.starts_with("in `Program.Main`: "), "{msg}");
}

#[test]
fn members_of_a_union_are_quoted() {
    let union = Type::LiteralUnion(
        "Dir".to_string(),
        vec!["left".to_string(), "ri\"ght".to_string()],
    );
    let msg = check(main_with(vec![declare(union, "d", Expr::String("up".to_string()))]))
        .unwrap_err();
    assert!(
        msg.contains("\"up\" is not a member of `Dir` (members: \"left\" | \"ri\\\"ght\")"),
        "{msg}"
    );
}

#[test]
fn newtypes_are_wrapped_and_unwrapped() {
    let decls = |ty: Type, value: Expr| {
        let mut d = main_with(vec![declare(ty, "m", value)]);
        d.push(Decl::Newtype(NewtypeDecl { name: "Meters".to_string(), underlying: Type::Int32 }));
        d
    };
    let meters = || Type::Newtype("Meters".to_string(), Box::new(Type::Int32));
    let msg = check(decls(meters(), num(3))).unwrap_err();
    assert!(msg.contains("hint: wrap the value: `Meters(...)`"), "{msg}");
}

#[test]
fn null_needs_a_nullable_target() {
    let maybe = || Type::Nullable(Box::new(Type::String));
    assert_eq!(check(main_with(vec![declare(maybe(), "s", Expr::Null)])), Ok(()));
    let msg = check(main_with(vec![
        declare(maybe(), "s", Expr::Null),
        declare(Type::String, "t", var("s")),
    ]))
    .unwrap_err();
    assert!(msg.contains("the value may be null"), "{msg}");
}

#[test]
fn private_members_stay_private() {
    let secret = Member::Field(FieldDecl {
        name: "key".to_string(),
        ty: Type::Int32,
        visibility: Visibility::Private,
        is_static: false,
        init: None,
    });
    let decls = |class_name: &str| {
        vec![
            class(
                "Safe",
                vec![Member::Field(FieldDecl {
                    name: "key".to_string(),
                    ty: Type::Int32,
                    visibility: Visibility::Private,
                    is_static: false,
                    init: None,
                })],
            ),
            class(
                class_name,
                vec![method(
                    "open",
                    true,
                    Type::Int32,
                    vec![param(class_type("Safe"), "s")],
                    vec![Stmt::Return(Some(field_of(var("s"), "key")))],
                )],
            ),
        ]
    };
    let msg = check(decls("Thief")).unwrap_err();
    assert!(msg.contains("private"), "{msg}");
    let own = vec![class(
        "Safe",
        vec![
            secret,
            method(
                "open",
                false,
                Type::Int32,
                Vec::new(),
                vec![Stmt::Return(Some(field_of(var("this"), "key")))],
            ),
        ],
    )];
    assert_eq!(check(own), Ok(()));
}

#[test]
fn bounds_of_type_parameters_are_checked() {
    let bounded = Decl::Class(ClassDecl {
        generic_params: vec![GenericParam {
            name: "T".to_string(),
            variance: Variance::Invariant,
            bounds: vec![class_type("Shape")],
            alternatives: Vec::new(),
            requires_new: false,
        }],
        ..match class("Holder", Vec::new()) {
            Decl::Class(c) => c,
            _ => unreachable!(),
        }
    });
    let holder = |arg: &str| Type::Class("Holder".to_string(), vec![class_type(arg)]);
    let use_it = |arg: &str| {
        class(
            "Program",
            vec![method(
                "Main",
                true,
                Type::Unit,
                vec![param(holder(arg), "h")],
                Vec::new(),
            )],
        )
    };
    let msg = check(vec![
        class("Shape", Vec::new()),
        class("Stone", Vec::new()),
        bounded,
        use_it("Stone"),
    ])
    .unwrap_err();
    assert!(msg.contains("Stone") && msg.contains("Shape"), "{msg}");
}

#[test]
fn instances_go_where_a_base_is_expected() {
    let derived = |name: &str, base: &str| {
        Decl::Class(ClassDecl {
            bases: vec![(base.to_string(), Vec::new())],
            ..match class(name, Vec::new()) {
                Decl::Class(c) => c,
                _ => unreachable!(),
            }
        })
    };
    let pass = |from: &str, to: &str| {
        check(vec![
            class("Animal", Vec::new()),
            derived("Dog", "Animal"),
            derived("Puppy", "Dog"),
            class(
                "Program",
                vec![method(
                    "Main",
                    true,
                    Type::Unit,
                    vec![param(class_type(from), "p")],
                    vec![declare(class_type(to), "q", var("p"))],
                )],
            ),
        ])
    };
    assert_eq!(pass("Puppy", "Puppy"), Ok(()));
    assert_eq!(pass("Puppy", "Animal"), Ok(()));
    assert!(pass("Animal", "Puppy").is_err());
}

#[test]
fn distances_are_edits() {
    assert_eq!(edit_distance("norm", "norm", 3), 0);
    assert_eq!(edit_distance("y", "x", 2), 1);
    assert_eq!(edit_distance("contuer", "counter", 5), edit_distance("counter", "contuer", 5));
    assert_eq!(
        suggest(&vec!["norm".to_string(), "area".to_string()], "nrom"),
        " — did you mean `norm`?"
    );
    assert_eq!(suggest(&vec!["norm".to_string()], "zzzqqq"), "");
}

#[test]
fn unions_explain_what_is_missing() {
    let members = vec!["\"a\"".to_string(), "\"b\"".to_string()];
    assert_eq!(
        member_hint("\"c\"", "U", &members, true),
        "\"c\" is not a member of `U` (members: \"a\" | \"b\" | ...)"
    );
    assert_eq!(extra_hint("V", &members, "U"), "`V` can hold \"a\", \"b\" which `U` cannot");
}

fn named_enum(name: &str) -> Decl {
    Decl::Enum(EnumDecl { name: name.to_string(), generic_params: Vec::new(), variants: Vec::new() })
}

fn named_newtype(name: &str) -> Decl {
    Decl::Newtype(NewtypeDecl { name: name.to_string(), underlying: Type::Int32 })
}

#[test]
fn a_newtype_and_an_enum_cannot_share_a_name() {
    let with = |first: Decl, second: Decl| {
        let mut d = main_with(Vec::new());
        d.push(first);
        d.push(second);
        check(d)
    };
    let msg = with(named_newtype("Kind"), named_enum("Kind")).unwrap_err();
    assert!(msg.contains("newtype `Kind` conflicts with an enum of the same name"), "{msg}");
    let msg = with(named_enum("Kind"), named_newtype("Kind")).unwrap_err();
    assert!(msg.contains("newtype `Kind`"), "{msg}");
    assert_eq!(with(named_enum("Kind"), named_newtype("Meters")), Ok(()));
}

#[test]
fn what_one_method_knows_of_a_local_stays_in_it() {
    let maybe = || Type::Nullable(Box::new(Type::String));
    let is_null = || Expr::Binary(BinOp::Eq, Box::new(var("s")), Box::new(Expr::Null));
    let leave = || Stmt::If(is_null(), vec![Stmt::Return(None)], None);
    let guarded = || {
        method(
            "a",
            true,
            Type::Unit,
            vec![param(maybe(), "s")],
            vec![leave(), declare(Type::String, "t", var("s"))],
        )
    };
    let open = || {
        method(
            "b",
            true,
            Type::Unit,
            vec![param(maybe(), "s")],
            vec![declare(Type::String, "t", var("s"))],
        )
    };
    let main = || method("Main", true, Type::Unit, Vec::new(), Vec::new());
    let msg = check(program(vec![guarded(), open(), main()])).unwrap_err();
    assert!(msg.contains("in `Program.b`") && msg.contains("the value may be null"), "{msg}");
}

#[test]
fn an_error_outside_a_method_has_no_line_of_one() {
    let first = class(
        "First",
        vec![method("run", true, Type::Unit, Vec::new(), vec![Stmt::Mark(7), print(num(1))])],
    );
    let second = class(
        "Second",
        vec![Member::Field(FieldDecl {
            name: "count".to_string(),
            ty: Type::Int32,
            visibility: Visibility::Public,
            is_static: false,
            init: Some(Expr::String("s".to_string())),
        })],
    );
    let msg = check(vec![first, second]).unwrap_err();
    assert!(!msg.contains("line 7") && !msg.contains("First.run"), "{msg}");
}
