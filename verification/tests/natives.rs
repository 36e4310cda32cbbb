//! Native functions, as programs call them.

use aura::bytecode::{ClassDef, ClassId, FloatConst, MethodDef, MethodId, Module, Op, TypeDesc};
use aura::natives::NativeId;
use aura::vm::machine::{Stepped, Vm};
use aura::vm::strings::{
    chomp, ends_with, index_of, is_white_space, lines, parse_int, replace, split, starts_with, trim,
};
use aura::vm::value::{AuraObject, Value};
use aura::vm::world::{Ask, Reply, World};

fn world() -> World {
    World { floats: Vec::new(), float_texts: Vec::new(), parsed: Vec::new(), reply: None }
}

fn machine(texts: &[&str], body: Vec<Op>) -> Vm {
    let main = MethodDef {
        name: "Main".to_string(),
        return_ty: TypeDesc::Unit,
        params: Vec::new(),
        generic_params: Vec::new(),
        is_instance: false,
        body,
        handlers: Vec::new(),
        max_stack: 16,
        locals: 4,
        line_starts: Vec::new(),
        local_names: Vec::new(),
    };
    let program = ClassDef {
        name: "Program".to_string(),
        generic_params: Vec::new(),
        super_class: None,
        interfaces: Vec::new(),
        is_interface: false,
        is_abstract: false,
        is_record: false,
        fields: Vec::new(),
        static_fields: Vec::new(),
        methods: Vec::new(),
        static_methods: vec![(MethodId(1), main)],
    };
    let mut vm = Vm::new(Module {
        name: "m".to_string(),
        classes: vec![(ClassId(0), program)],
        enums: Vec::new(),
        entrypoint: Some(MethodId(1)),
        constant_pool: texts.iter().map(|t| t.to_string()).collect(),
        float_pool: texts.iter().map(|_| FloatConst::Bad("no float".to_string())).collect(),
    });
    vm.run().unwrap();
    vm
}

/// The number of a native function.
fn number(id: NativeId) -> u16 {
    (0..200).find(|n| NativeId::from_u16(*n) == Some(id)).unwrap()
}

fn native(id: NativeId) -> Op {
    Op::NativeCall(number(id))
}

fn finish(vm: &mut Vm, w: &mut World) -> Value {
    match vm.advance(w, 1000) {
        Stepped::Done(v) => v,
        other => panic!("expected a value, got {other:?}"),
    }
}

fn value(texts: &[&str], mut body: Vec<Op>) -> Value {
    body.push(Op::Ret);
    finish(&mut machine(texts, body), &mut world())
}

fn text(texts: &[&str], mut body: Vec<Op>) -> String {
    body.push(Op::Ret);
    let mut vm = machine(texts, body);
    match finish(&mut vm, &mut world()) {
        Value::String(h) => vm.heap().get_string(h).unwrap().to_string(),
        other => panic!("expected a string, got {other:?}"),
    }
}

fn texts_of(vm: &Vm, v: Value) -> Vec<String> {
    let handle = match v {
        Value::Object(h) => h,
        other => panic!("expected a list, got {other:?}"),
    };
    match vm.heap().get(handle) {
        Ok(AuraObject::Array { elements }) => elements
            .iter()
            .map(|e| match e {
                Value::String(h) => vm.heap().get_string(*h).unwrap().to_string(),
                other => panic!("expected a string, got {other:?}"),
            })
            .collect(),
        other => panic!("expected a list, got {other:?}"),
    }
}

fn failure(texts: &[&str], body: Vec<Op>) -> String {
    match machine(texts, body).advance(&mut world(), 1000) {
        Stepped::Failed(e) => e.message(),
        other => panic!("expected an error, got {other:?}"),
    }
}

#[test]
fn numbers_and_names() {
    assert_eq!(NativeId::from_u16(0), Some(NativeId::ListNew));
    assert_eq!(NativeId::from_u16(1000), None);
    assert_eq!(NativeId::ListAdd.name(), "List.Add");
    assert_eq!(NativeId::ListAdd.class_name(), "List");
    assert_eq!(NativeId::ListAdd.arity(), 2);
    assert_eq!(failure(&[], vec![Op::NativeCall(999)]), "runtime error: unknown native id 999");
}

#[test]
fn lists_grow_and_shrink() {
    let body = vec![
        native(NativeId::ListNew),
        Op::Stloc(0),
        Op::Ldloc(0),
        Op::LdInt(5),
        native(NativeId::ListAdd),
        Op::Pop,
        Op::Ldloc(0),
        Op::LdInt(0),
        Op::LdInt(4),
        native(NativeId::ListInsert),
        Op::Pop,
        Op::Ldloc(0),
        Op::LdInt(1),
        native(NativeId::ListGet),
        Op::Ldloc(0),
        native(NativeId::ListCount),
        Op::Mul,
    ];
    assert_eq!(value(&[], body), Value::Int(10));
    let find = vec![
        native(NativeId::ListNew),
        Op::Stloc(0),
        Op::Ldloc(0),
        Op::LdInt(5),
        native(NativeId::ListAdd),
        Op::Pop,
        Op::Ldloc(0),
        Op::LdInt(6),
        native(NativeId::ListIndexOf),
    ];
    assert_eq!(value(&[], find), Value::Int(-1));
    let out = failure(
        &[],
        vec![native(NativeId::ListNew), Op::LdInt(3), native(NativeId::ListGet)],
    );
    assert!(out.contains("out of range"), "{out}");
    let wrong = failure(&[], vec![Op::LdInt(3), native(NativeId::ListCount)]);
    assert_eq!(wrong, "runtime error: List.Count: expected List receiver, got int");
}

#[test]
fn maps_find_what_was_put() {
    let body = vec![
        native(NativeId::MapNew),
        Op::Stloc(0),
        Op::Ldloc(0),
        Op::LdStr(0),
        Op::LdInt(1),
        native(NativeId::MapPut),
        Op::Pop,
        Op::Ldloc(0),
        Op::LdStr(0),
        Op::LdInt(2),
        native(NativeId::MapPut),
        Op::Pop,
        Op::Ldloc(0),
        Op::LdStr(0),
        native(NativeId::MapGet),
        Op::Ldloc(0),
        native(NativeId::MapCount),
        Op::Add,
    ];
    assert_eq!(value(&["key"], body), Value::Int(3));
    let missing = vec![native(NativeId::MapNew), Op::LdInt(1), native(NativeId::MapGet)];
    assert_eq!(failure(&[], missing), "runtime error: Map.Get: key 1 not found");
}

#[test]
fn sets_hold_each_value_once() {
    let body = vec![
        native(NativeId::SetNew),
        Op::Stloc(0),
        Op::Ldloc(0),
        Op::LdInt(7),
        native(NativeId::SetAdd),
        Op::Pop,
        Op::Ldloc(0),
        Op::LdInt(7),
        native(NativeId::SetAdd),
        Op::Pop,
        Op::Ldloc(0),
        native(NativeId::SetCount),
    ];
    assert_eq!(value(&[], body), Value::Int(1));
}

#[test]
fn strings_are_taken_apart() {
    assert_eq!(value(&["größe"], vec![Op::LdStr(0), native(NativeId::StrLength)]), Value::Int(5));
    assert_eq!(
        text(
            &["größe"],
            vec![Op::LdStr(0), Op::LdInt(1), Op::LdInt(3), native(NativeId::StrSubstring)]
        ),
        "röß"
    );
    assert_eq!(
        value(&["größe"], vec![Op::LdStr(0), Op::LdInt(2), native(NativeId::StrCharAt)]),
        Value::Char('ö')
    );
    assert_eq!(
        value(&["a,b", ","], vec![Op::LdStr(0), Op::LdStr(1), native(NativeId::StrIndexOf)]),
        Value::Int(1)
    );
    assert_eq!(text(&["  x y\t"], vec![Op::LdStr(0), native(NativeId::StrTrim)]), "x y");
    assert_eq!(text(&["straße"], vec![Op::LdStr(0), native(NativeId::StrToUpper)]), "STRASSE");
    assert_eq!(text(&["ÄB"], vec![Op::LdStr(0), native(NativeId::StrToLower)]), "äb");
    assert_eq!(
        text(
            &["aXbX", "X", "--"],
            vec![Op::LdStr(0), Op::LdStr(1), Op::LdStr(2), native(NativeId::StrReplace)]
        ),
        "a--b--"
    );
    let mut vm = machine(
        &["a,b,,c", ","],
        vec![Op::LdStr(0), Op::LdStr(1), native(NativeId::StrSplit), Op::Ret],
    );
    let v = finish(&mut vm, &mut world());
    assert_eq!(texts_of(&vm, v), vec!["a", "b", "", "c"]);
}

#[test]
fn text_functions_agree_with_their_names() {
    assert_eq!(index_of("banana", "an"), Some(1));
    assert_eq!(index_of("banana", "x"), None);
    assert!(starts_with("banana", "ban") && !starts_with("banana", "an"));
    assert!(ends_with("banana", "ana") && !ends_with("banana", "ban"));
    assert_eq!(split("aaa", "aa"), vec!["", "a"]);
    assert_eq!(replace("aaa", "aa", "b"), "ba");
    assert_eq!(lines("a\r\nb\n\nc"), vec!["a", "b", "", "c"]);
    assert_eq!(chomp("a line\r\n"), "a line");
    assert_eq!(trim("\u{2003}a b\u{a0}"), "a b");
    assert_eq!(parse_int("-42"), Some(-42));
    assert_eq!(parse_int("+7"), Some(7));
    assert_eq!(parse_int("9223372036854775808"), None);
    assert_eq!(parse_int("4x"), None);
}

#[test]
fn numbers_are_read_from_text() {
    assert_eq!(value(&["12"], vec![Op::LdStr(0), native(NativeId::StrToInt)]), Value::Int(12));
    let mut vm = machine(&["2.5"], vec![Op::LdStr(0), native(NativeId::StrToFloat), Op::Ret]);
    let mut w = world();
    match vm.advance(&mut w, 10) {
        Stepped::Ask(Ask::ParseFloat(s)) => assert_eq!(s, "2.5"),
        other => panic!("expected a question, got {other:?}"),
    }
    w.parsed.push(("2.5".to_string(), Some(2.5f64.to_bits())));
    assert_eq!(finish(&mut vm, &mut w), Value::Float(2.5f64.to_bits()));
}

#[test]
fn files_are_asked_for() {
    let mut vm = machine(
        &["notes.txt"],
        vec![Op::LdStr(0), native(NativeId::FileReadAllLines), Op::Ret],
    );
    let mut w = world();
    match vm.advance(&mut w, 10) {
        Stepped::Ask(Ask::ReadFile(name)) => assert_eq!(name, "notes.txt"),
        other => panic!("expected a question, got {other:?}"),
    }
    w.reply = Some(Reply::Text("one\ntwo\n".to_string()));
    let v = finish(&mut vm, &mut w);
    assert_eq!(texts_of(&vm, v), vec!["one", "two"]);

    let mut vm = machine(
        &["notes.txt"],
        vec![Op::LdStr(0), native(NativeId::FileReadAllText), Op::Ret],
    );
    let mut w = world();
    assert!(matches!(vm.advance(&mut w, 10), Stepped::Ask(Ask::ReadFile(_))));
    w.reply = Some(Reply::Failed("gone".to_string()));
    match vm.advance(&mut w, 10) {
        Stepped::Failed(e) => assert!(e.message().contains("gone"), "{}", e.message()),
        other => panic!("expected an error, got {other:?}"),
    }

    let mut vm = machine(
        &["notes.txt", "text"],
        vec![Op::LdStr(0), Op::LdStr(1), native(NativeId::FileWriteAllText), Op::Ret],
    );
    let mut w = world();
    match vm.advance(&mut w, 10) {
        Stepped::Ask(Ask::WriteFile(name, contents)) => {
            assert_eq!((name.as_str(), contents.as_str()), ("notes.txt", "text"))
        }
        other => panic!("expected a question, got {other:?}"),
    }
    w.reply = Some(Reply::Done);
    assert_eq!(finish(&mut vm, &mut w), Value::Unit);
}

#[test]
fn empty_separators_are_refused() {
    assert_eq!(
        failure(&["abc", ""], vec![Op::LdStr(0), Op::LdStr(1), native(NativeId::StrSplit)]),
        "runtime error: string.Split: empty separator"
    );
    assert_eq!(
        failure(
            &["abc", ""],
            vec![Op::LdStr(0), Op::LdStr(1), Op::LdStr(0), native(NativeId::StrReplace)]
        ),
        "runtime error: string.Replace: empty search string"
    );
    assert_eq!(
        failure(&["x1"], vec![Op::LdStr(0), native(NativeId::StrToInt)]),
        "runtime error: string.ToInt: cannot parse `x1` as int"
    );
}

#[test]
fn input_ends() {
    let mut vm = machine(&[], vec![native(NativeId::ConsoleReadLine), Op::Ret]);
    let mut w = world();
    assert!(matches!(vm.advance(&mut w, 10), Stepped::Ask(Ask::ReadLine)));
    w.reply = Some(Reply::End);
    assert_eq!(finish(&mut vm, &mut w), Value::Null);
}

#[test]
fn white_space_is_what_unicode_says() {
    for c in '\0'..=char::MAX {
        assert_eq!(is_white_space(c), c.is_whitespace(), "{c:?}");
    }
}
