//! What a checked program keeps to: a value only goes where its type fits, and a
//! statement that passes has had its parts checked.

use crate::typer::assign::{assignable, flows, satisfies};
use crate::typer::ast::{AssignTarget, BinOp, Expr, Stmt, Ty, UnaryOp};
use crate::typer::calls::{args_fit, call_subst, call_ty};
use crate::typer::descent::{descends, subclass_law};
use crate::typer::flow::Status;
use crate::typer::hierarchy::{class_method, subclass, Walk};
use crate::typer::info::{MethodModel, TableModel};
use crate::typer::infer::{
    bare_call, check, check_var, func_args_from, infer, infer_expecting, stmts_from, target_ty, Ran,
};
use crate::typer::keyed::{lookup, put, put_laws};
use crate::typer::rules::Around;
use crate::typer::types::subst_ty;
use vstd::prelude::*;

verus! {

/// The integers of a type, by its width and its sign.
pub open spec fn counts(ty: Ty, v: int) -> bool {
    match ty {
        Ty::Int8 => -128 <= v < 128,
        Ty::Int16 => -32_768 <= v < 32_768,
        Ty::Int32 => -2_147_483_648 <= v < 2_147_483_648,
        Ty::Int64 => -9_223_372_036_854_775_808 <= v < 9_223_372_036_854_775_808,
        Ty::UInt8 => 0 <= v < 256,
        Ty::UInt16 => 0 <= v < 65_536,
        Ty::UInt32 => 0 <= v < 4_294_967_296,
        Ty::UInt64 => 0 <= v < 18_446_744_073_709_551_616,
        _ => false,
    }
}

/// A type with integers in it.
pub open spec fn integral(ty: Ty) -> bool {
    counts(ty, 0)
}

/// A type whose values are no numbers.
pub open spec fn without_numbers(ty: Ty) -> bool {
    &&& !integral(ty)
    &&& !(ty is Float32)
    &&& !(ty is Float64)
    &&& !(ty is IntLit)
    &&& !(ty is FloatLit)
}

/// Neither `null` nor a type variable is about.
pub open spec fn settled(ty: Ty) -> bool {
    !(ty is Nullable) && !(ty is GenericParam)
}

/// Numbers: what goes into an integer type is a literal in its range, or of a
/// type all of whose integers are in its range. Every integer goes into the
/// floats. A float goes into no integer type, and no double into a single.
pub proof fn number_law(t: TableModel, target: Ty, source: Ty)
    requires
        settled(target),
        settled(source),
    ensures
        integral(target) && source is IntLit ==> (flows(t, target, source) <==> counts(
            target,
            source->IntLit_0 as int,
        )),
        integral(target) && integral(source) ==> (flows(t, target, source) <==> (forall|v: int|
            counts(source, v) ==> #[trigger] counts(target, v))),
        integral(target) && flows(t, target, source) ==> source is IntLit || integral(source),
        target is Float64 ==> (flows(t, target, source) <==> !without_numbers(source)),
        target is Float32 ==> (flows(t, target, source) <==> !without_numbers(source)
            && !(source is Float64)),
        without_numbers(target) && flows(t, target, source) ==> without_numbers(source),
{
    let m = -9_223_372_036_854_775_808int;
    assert(counts(source, 127) || source is IntLit || !integral(source));
    assert(counts(source, -128) || counts(source, 0) || !integral(source));
    if integral(target) && integral(source) {
        let low = lowest(source);
        let high = highest(source);
        assert(counts(source, low) && counts(source, high));
        if flows(t, target, source) {
            assert forall|v: int| counts(source, v) implies #[trigger] counts(target, v) by {}
        } else {
            assert(!(counts(target, low) && counts(target, high)));
        }
    }
}

spec fn lowest(ty: Ty) -> int {
    match ty {
        Ty::Int8 => -128,
        Ty::Int16 => -32_768,
        Ty::Int32 => -2_147_483_648,
        Ty::Int64 => -9_223_372_036_854_775_808,
        _ => 0,
    }
}

spec fn highest(ty: Ty) -> int {
    match ty {
        Ty::Int8 => 127,
        Ty::Int16 => 32_767,
        Ty::Int32 => 2_147_483_647,
        Ty::Int64 => 9_223_372_036_854_775_807,
        Ty::UInt8 => 255,
        Ty::UInt16 => 65_535,
        Ty::UInt32 => 4_294_967_295,
        _ => 18_446_744_073_709_551_615,
    }
}

/// What is no number: booleans, characters, functions, wrappers and the unit take
/// their own kind only, strings take strings, a union of texts takes the texts
/// that are in it.
pub proof fn kind_law(t: TableModel, target: Ty, source: Ty)
    requires
        settled(target),
        settled(source),
    ensures
        target is Unit || target is Bool || target is Char || target is Func || target is Newtype
            ==> (flows(t, target, source) <==> source == target),
        source is Unit || source is Bool || source is Char || source is Func || source is Newtype
            ==> (flows(t, target, source) <==> source == target),
        target is String ==> (flows(t, target, source) <==> source is String
            || source is StringLit || source is LiteralUnion),
        target is LiteralUnion && source is StringLit ==> (flows(t, target, source)
            <==> target->LiteralUnion_1.contains(source->StringLit_0)),
        target is LiteralUnion && source is LiteralUnion && flows(t, target, source) ==> (forall|
            s: Seq<char>,
        |
            source->LiteralUnion_1.contains(s) ==> #[trigger] target->LiteralUnion_1.contains(s)),
        target is LiteralUnion && flows(t, target, source) ==> source is StringLit
            || source is LiteralUnion,
        source is StringLit && flows(t, target, source) ==> target is String
            || target is LiteralUnion || target == source,
{
    if target is LiteralUnion && source is LiteralUnion && flows(t, target, source) {
        assert forall|s: Seq<char>|
            source->LiteralUnion_1.contains(s) implies #[trigger] target->LiteralUnion_1.contains(
            s,
        ) by {
            let b = source->LiteralUnion_1;
            let i = choose|i: int| 0 <= i < b.len() && b[i] == s;
            assert(b[i] == s);
        }
    }
}

/// `null` goes where a type says so: into a nullable type, or into a type
/// variable. (No class is called `null`; an enum of that name would be taken for
/// it.)
pub proof fn null_law(t: TableModel, target: Ty, source: Ty)
    requires
        lookup(t.classes, "null"@) is None,
    ensures
        flows(t, target, Ty::Class("null"@, seq![])) ==> target is Nullable
            || target is GenericParam || target.is_null() || target == Ty::Enum("null"@),
        flows(t, target, Ty::Nullable(Box::new(source))) ==> target is Nullable
            || target is GenericParam,
        target is Nullable ==> flows(t, target, Ty::Class("null"@, seq![])),
{
    let null = "null"@;
    if target is Class && target->Class_0 != null {
        let m = target->Class_0;
        subclass_law(t.classes, null, m, m);
        if descends(t.classes, Walk::Up, null, m) {
            let n = choose|n: nat|
                crate::typer::descent::descends_in(t.classes, Walk::Up, null, m, n);
            assert(n != 0);
        }
        assert(!subclass(t.classes, null, m));
    }
}

/// Tuples go component by component.
pub proof fn tuple_law(t: TableModel, depth: nat, xs: Seq<Ty>, ys: Seq<Ty>)
    requires
        depth > 0,
        assignable(t, depth, Ty::Tuple(xs), Ty::Tuple(ys)),
    ensures
        xs.len() == ys.len(),
        forall|i: int|
            0 <= i < xs.len() ==> assignable(t, (depth - 1) as nat, #[trigger] xs[i], ys[i]) || xs[i]
                == ys[i],
{
}

/// Between classes without type arguments a value goes up the hierarchy, or into
/// an interface each of whose abstract methods the class has: public, of an
/// instance, and with the same types.
pub proof fn class_law(t: TableModel, class: Seq<char>, target: Seq<char>)
    requires
        flows(t, Ty::Class(target, seq![]), Ty::Class(class, seq![])),
        !descends(t.classes, Walk::Up, class, target),
    ensures
        lookup(t.classes, target) matches Some(info) && info.is_interface && (forall|i: int|
            0 <= i < info.methods.len() && (#[trigger] info.methods[i]).1.is_abstract
                ==> has_method(t, class, info.methods[i])),
{
    subclass_law(t.classes, class, target, target);
    subclass_law(t.classes, target, target, target);
    assert(class != target);
    assert(satisfies(t, class, target));
    crate::typer::descent::walk_law(t.classes, Walk::Interfaces, target, target);
    assert(crate::typer::descent::descends_in(t.classes, Walk::Interfaces, target, target, 0));
    let names = crate::typer::hierarchy::reach(
        t.classes,
        seq![target],
        seq![],
        Walk::Interfaces,
    );
    let k = choose|k: int| 0 <= k < names.len() && names[k] == target;
    assert(crate::typer::assign::provides_all(t.classes, class, names[k]));
    let info = lookup(t.classes, target)->0;
    assert forall|i: int|
        0 <= i < info.methods.len() && (#[trigger] info.methods[i]).1.is_abstract implies has_method(
        t,
        class,
        info.methods[i],
    ) by {
        assert(crate::typer::assign::provides(t.classes, class, info.methods[i]));
    }
}

/// A class has a method for an entry of an interface.
pub open spec fn has_method(t: TableModel, class: Seq<char>, entry: (Seq<char>, MethodModel)) -> bool {
    &&& class_method(t.classes, class, entry.0) is Some
    &&& (class_method(t.classes, class, entry.0)->0).1.is_instance
    &&& (class_method(t.classes, class, entry.0)->0).1.visibility
        == crate::typer::ast::Visibility::Public
    &&& (class_method(t.classes, class, entry.0)->0).1.params == entry.1.params
    &&& (class_method(t.classes, class, entry.0)->0).1.return_ty == entry.1.return_ty
}

// ---------------------------------------------------------------------------
// Statements
// ---------------------------------------------------------------------------

/// An expression has a type.
#[verifier::opaque]
pub open spec fn has_type(
    t: TableModel,
    sc: Around,
    locals: Seq<(Seq<char>, Ty)>,
    st: Status,
    e: Expr,
    ty: Ty,
) -> bool {
    infer(t, sc, locals, st, e).0 == Ok::<Ty, Seq<char>>(ty)
}

/// An expression has a type, where `ty` is expected, that goes into `ty`.
#[verifier::opaque]
pub open spec fn taken(
    t: TableModel,
    sc: Around,
    locals: Seq<(Seq<char>, Ty)>,
    st: Status,
    e: Expr,
    ty: Ty,
) -> bool {
    let typed = infer_expecting(t, sc, locals, st, e, ty);
    typed.0 is Ok && flows(t, ty, typed.0->Ok_0)
}

/// An argument is taken for a parameter, whatever was checked before it.
pub open spec fn argued(
    t: TableModel,
    sc: Around,
    locals: Seq<(Seq<char>, Ty)>,
    e: Expr,
    ty: Ty,
) -> bool {
    exists|before: Status| #[trigger] taken(t, sc, locals, before, e, ty)
}

/// A statement passes.
#[verifier::opaque]
pub open spec fn passes(
    t: TableModel,
    sc: Around,
    locals: Seq<(Seq<char>, Ty)>,
    st: Status,
    stmt: Stmt,
    after: Ran,
) -> bool {
    check(t, sc, locals, st, stmt) == after && after.result is Ok
}

/// Checking `return`: a value that is returned has a type that goes into the type
/// of the method, one that does not is refused, and only a method without a result
/// returns nothing.
pub proof fn return_law(
    t: TableModel,
    sc: Around,
    locals: Seq<(Seq<char>, Ty)>,
    st: Status,
    e: Expr,
)
    ensures
        check(t, sc, locals, st, Stmt::Return(Some(e))).result is Ok <==> !(e is Hole) && taken(
            t,
            sc,
            locals,
            st,
            e,
            sc.return_ty,
        ),
        check(t, sc, locals, st, Stmt::Return(None)).result is Ok <==> sc.return_ty is Unit,
{
    reveal(taken);
}

proof fn literal_taken(
    t: TableModel,
    sc: Around,
    locals: Seq<(Seq<char>, Ty)>,
    st: Status,
    e: Expr,
    ty: Ty,
) -> (x: Ty)
    requires
        taken(t, sc, locals, st, e, ty),
        e is String || e is Bool || e is Char || e is IntLit || e is FloatLit,
    ensures
        flows(t, ty, x),
        e is String ==> x == Ty::StringLit(e->String_0@),
        e is Bool ==> x is Bool,
        e is Char ==> x is Char,
        e is IntLit ==> x == Ty::IntLit(e->IntLit_0) || (integral(x) && counts(
            x,
            e->IntLit_0 as int,
        )),
        e is FloatLit ==> x is FloatLit || x is Float32 || x is Float64,
{
    reveal(taken);
    infer_expecting(t, sc, locals, st, e, ty).0->Ok_0
}

/// A literal goes into no type of another kind: no text, truth value or character
/// into a number, no number into a text or a truth value, no integer into a type
/// whose range it is out of.
pub proof fn literal_law(
    t: TableModel,
    sc: Around,
    locals: Seq<(Seq<char>, Ty)>,
    st: Status,
    e: Expr,
    ty: Ty,
)
    requires
        settled(ty),
        taken(t, sc, locals, st, e, ty),
    ensures
        e is String ==> !integral(ty) && !(ty is Bool) && !(ty is Unit) && (ty is LiteralUnion
            ==> ty->LiteralUnion_1.contains(e->String_0@)),
        e is String ==> ty is String || ty is LiteralUnion || ty == Ty::StringLit(e->String_0@),
        e is Bool ==> ty is Bool,
        e is Char ==> ty is Char,
        e is IntLit && integral(ty) ==> counts(ty, e->IntLit_0 as int),
        e is IntLit ==> !without_numbers(ty),
        e is FloatLit ==> !without_numbers(ty) && !integral(ty),
{
    if e is String || e is Bool || e is Char || e is IntLit || e is FloatLit {
        let x = literal_taken(t, sc, locals, st, e, ty);
        number_law(t, ty, x);
        kind_law(t, ty, x);
        if integral(ty) && integral(x) {
            assert(counts(x, e->IntLit_0 as int) ==> counts(ty, e->IntLit_0 as int));
        }
    }
}

/// Declaring a variable of a type: the initial value goes into the type, and
/// afterwards the name, and no other, stands for it. Only a type with a value of
/// its own goes without.
pub proof fn declaration_law(
    t: TableModel,
    sc: Around,
    locals: Seq<(Seq<char>, Ty)>,
    st: Status,
    ty: crate::typer::ast::Type,
    name: String,
    init: Option<Expr>,
    other: Seq<char>,
    after: Ran,
)
    requires
        !(ty@ is Infer),
        passes(t, sc, locals, st, Stmt::VarDecl(ty, name, init), after),
    ensures
        lookup(after.locals, name@) == Some(ty@),
        other != name@ ==> lookup(after.locals, other) == lookup(locals, other),
        init is Some ==> taken(t, sc, locals, st, init->0, ty@),
        init is None ==> !(ty@ is Class) && !(ty@ is String) && !(ty@ is Enum) && !(ty@ is Tuple)
            && !(ty@ is GenericParam),
{
    put_laws(locals, name@, ty@, other);
    if init is Some {
        declared(t, sc, locals, st, ty, name, init->0, after);
    } else {
        var_passes(t, sc, locals, st, ty, name, init, after);
    }
}

proof fn var_passes(
    t: TableModel,
    sc: Around,
    locals: Seq<(Seq<char>, Ty)>,
    st: Status,
    ty: crate::typer::ast::Type,
    name: String,
    init: Option<Expr>,
    after: Ran,
)
    requires
        passes(t, sc, locals, st, Stmt::VarDecl(ty, name, init), after),
    ensures
        after == check_var(t, sc, locals, st, ty@, name@, init),
        after.result is Ok,
{
    reveal(passes);
}

proof fn declared(
    t: TableModel,
    sc: Around,
    locals: Seq<(Seq<char>, Ty)>,
    st: Status,
    ty: crate::typer::ast::Type,
    name: String,
    e: Expr,
    after: Ran,
)
    requires
        !(ty@ is Infer),
        passes(t, sc, locals, st, Stmt::VarDecl(ty, name, Some(e)), after),
    ensures
        after.locals == put(locals, name@, ty@),
        taken(t, sc, locals, st, e, ty@),
{
    var_passes(t, sc, locals, st, ty, name, Some(e), after);
    reveal(taken);
}

/// Declaring a variable without a type: it has the type of its value, literals
/// taken by their natural type, and that is neither the unit nor `null`.
pub proof fn inference_law(
    t: TableModel,
    sc: Around,
    locals: Seq<(Seq<char>, Ty)>,
    st: Status,
    ty: crate::typer::ast::Type,
    name: String,
    init: Option<Expr>,
    other: Seq<char>,
    after: Ran,
)
    requires
        ty@ is Infer,
        passes(t, sc, locals, st, Stmt::VarDecl(ty, name, init), after),
    ensures
        init is Some,
        other != name@ ==> lookup(after.locals, other) == lookup(locals, other),
        lookup(after.locals, name@) matches Some(v) && !(v is IntLit) && !(v is FloatLit) && !(
        v is StringLit) && !(v is Unit) && !v.is_null() && exists|x: Ty|
            #[trigger] has_type(t, sc, locals, st, init->0, x) && flows(t, v, x),
{
    let x = inferred(t, sc, locals, st, ty, name, init, after);
    let v = crate::typer::types::resolved(x);
    put_laws(locals, name@, v, other);
    natural_law(t, x);
}

/// A literal goes into its natural type, and every other type is its own.
pub proof fn natural_law(t: TableModel, x: Ty)
    ensures
        flows(t, crate::typer::types::resolved(x), x),
        !(x is IntLit) && !(x is FloatLit) && !(x is StringLit) ==> crate::typer::types::resolved(x)
            == x,
        !(crate::typer::types::resolved(x) is IntLit),
        !(crate::typer::types::resolved(x) is FloatLit),
        !(crate::typer::types::resolved(x) is StringLit),
{
}

proof fn inferred(
    t: TableModel,
    sc: Around,
    locals: Seq<(Seq<char>, Ty)>,
    st: Status,
    ty: crate::typer::ast::Type,
    name: String,
    init: Option<Expr>,
    after: Ran,
) -> (x: Ty)
    requires
        ty@ is Infer,
        passes(t, sc, locals, st, Stmt::VarDecl(ty, name, init), after),
    ensures
        init is Some,
        has_type(t, sc, locals, st, init->0, x),
        after.locals == put(locals, name@, crate::typer::types::resolved(x)),
        !(crate::typer::types::resolved(x) is Unit),
        !crate::typer::types::resolved(x).is_null(),
{
    var_passes(t, sc, locals, st, ty, name, init, after);
    reveal(has_type);
    infer(t, sc, locals, st, init->0).0->Ok_0
}

/// Assigning: a value goes into the type of the target. A local that a test had
/// narrowed is measured by the type that it was declared with, and has it again
/// afterwards.
pub proof fn assignment_law(
    t: TableModel,
    sc: Around,
    locals: Seq<(Seq<char>, Ty)>,
    st: Status,
    target: AssignTarget,
    value: Expr,
    other: Seq<char>,
)
    requires
        check(t, sc, locals, st, Stmt::Assign(target, value)).result is Ok,
    ensures
        ({
            let ran = check(t, sc, locals, st, Stmt::Assign(target, value));
            let place = target_ty(t, sc, locals, st, target);
            let declared = if target is Local {
                lookup(st.narrowed, target->Local_0@)
            } else {
                None
            };
            &&& !(value is Hole)
            &&& declared is None ==> {
                let typed = infer_expecting(t, sc, locals, place.1, value, place.0->Ok_0);
                &&& place.0 is Ok
                &&& typed.0 is Ok
                &&& flows(t, place.0->Ok_0, typed.0->Ok_0)
                &&& ran.locals == locals
            }
            &&& declared is Some ==> {
                let typed = infer_expecting(t, sc, locals, st, value, declared->0);
                &&& typed.0 is Ok
                &&& flows(t, declared->0, typed.0->Ok_0)
                &&& lookup(ran.locals, target->Local_0@) == declared
                &&& other != target->Local_0@ ==> lookup(ran.locals, other) == lookup(
                    locals,
                    other,
                )
            }
        }),
        target is Local && lookup(st.narrowed, target->Local_0@) is None ==> lookup(
            locals,
            target->Local_0@,
        ) is Some && ({
            let typed = infer_expecting(
                t,
                sc,
                locals,
                st,
                value,
                lookup(locals, target->Local_0@)->0,
            );
            typed.0 is Ok && flows(t, lookup(locals, target->Local_0@)->0, typed.0->Ok_0)
        }),
{
    if target is Local && lookup(st.narrowed, target->Local_0@) is Some {
        put_laws(locals, target->Local_0@, lookup(st.narrowed, target->Local_0@)->0, other);
    }
}

/// What decides about a branch or a loop is a truth value.
pub proof fn condition_law(
    t: TableModel,
    sc: Around,
    locals: Seq<(Seq<char>, Ty)>,
    st: Status,
    stmt: Stmt,
)
    requires
        check(t, sc, locals, st, stmt).result is Ok,
    ensures
        stmt matches Stmt::If(cond, _, _) ==> infer(t, sc, locals, st, cond).0 == Ok::<Ty, Seq<char>>(
            Ty::Bool,
        ),
        stmt matches Stmt::While { label, condition, body } ==> infer(t, sc, locals, st, condition).0
            == Ok::<Ty, Seq<char>>(Ty::Bool),
        stmt matches Stmt::For { label, init, condition, update, body } ==> ({
            let a = check(t, sc, locals, st, *init);
            a.result is Ok && infer(t, sc, a.locals, a.status, condition).0 == Ok::<Ty, Seq<char>>(
                Ty::Bool,
            )
        }),
        stmt matches Stmt::DoWhile { label, body, condition } ==> ({
            let a = stmts_from(t, sc, locals, st, body, 0);
            a.result is Ok && infer(t, sc, a.locals, a.status, condition).0 == Ok::<Ty, Seq<char>>(
                Ty::Bool,
            )
        }),
{
}

/// Statements passed one after the other, with these stages between them.
pub open spec fn stages(t: TableModel, sc: Around, stmts: Seq<Stmt>, rs: Seq<Ran>) -> bool {
    &&& rs.len() == stmts.len() + 1
    &&& forall|i: int|
        0 <= i < stmts.len() ==> passes(
            t,
            sc,
            (#[trigger] rs[i]).locals,
            rs[i].status,
            stmts[i],
            rs[i + 1],
        )
}

#[verifier::opaque]
spec fn rest(t: TableModel, sc: Around, r: Ran, stmts: Vec<Stmt>, i: int) -> Ran {
    stmts_from(t, sc, r.locals, r.status, stmts, i)
}

proof fn rest_none(t: TableModel, sc: Around, r: Ran, stmts: Vec<Stmt>)
    ensures
        rest(t, sc, r, stmts, stmts@.len() as int).locals == r.locals,
        rest(t, sc, r, stmts, stmts@.len() as int).status == r.status,
{
    reveal(rest);
}

proof fn rest_one(t: TableModel, sc: Around, r: Ran, stmts: Vec<Stmt>, i: int) -> (next: Ran)
    requires
        0 <= i < stmts@.len(),
        rest(t, sc, r, stmts, i).result is Ok,
    ensures
        passes(t, sc, r.locals, r.status, stmts@[i], next),
        rest(t, sc, next, stmts, i + 1) == rest(t, sc, r, stmts, i),
{
    reveal(rest);
    reveal(passes);
    check(t, sc, r.locals, r.status, stmts@[i])
}

proof fn stages_from(t: TableModel, sc: Around, r: Ran, stmts: Vec<Stmt>, i: int) -> (rs: Seq<Ran>)
    requires
        0 <= i <= stmts@.len(),
        rest(t, sc, r, stmts, i).result is Ok,
    ensures
        stages(t, sc, stmts@.skip(i), rs),
        rs[0] == r,
        rs.last().locals == rest(t, sc, r, stmts, i).locals,
        rs.last().status == rest(t, sc, r, stmts, i).status,
    decreases stmts@.len() - i,
{
    if i == stmts@.len() {
        rest_none(t, sc, r, stmts);
        seq![r]
    } else {
        let next = rest_one(t, sc, r, stmts, i);
        let after = stages_from(t, sc, next, stmts, i + 1);
        let rs = seq![r] + after;
        assert forall|k: int| 0 <= k < stmts@.skip(i).len() implies passes(
            t,
            sc,
            (#[trigger] rs[k]).locals,
            rs[k].status,
            stmts@.skip(i)[k],
            rs[k + 1],
        ) by {
            if k > 0 {
                assert(rs[k] == after[k - 1]);
                assert(rs[k + 1] == after[k - 1 + 1]);
                assert(stmts@.skip(i)[k] == stmts@.skip(i + 1)[k - 1]);
            }
        }
        rs
    }
}

/// Statements pass where each one does, in the locals that the ones before it
/// leave: none is passed over.
pub proof fn sequence_law(
    t: TableModel,
    sc: Around,
    locals: Seq<(Seq<char>, Ty)>,
    st: Status,
    stmts: Vec<Stmt>,
) -> (rs: Seq<Ran>)
    requires
        stmts_from(t, sc, locals, st, stmts, 0).result is Ok,
    ensures
        stages(t, sc, stmts@, rs),
        rs[0].locals == locals,
        rs[0].status == st,
        rs.last().locals == stmts_from(t, sc, locals, st, stmts, 0).locals,
        rs.last().status == stmts_from(t, sc, locals, st, stmts, 0).status,
{
    let r = Ran { result: Ok(()), locals, status: st };
    assert(rest(t, sc, r, stmts, 0) == stmts_from(t, sc, locals, st, stmts, 0)) by {
        reveal(rest);
    }
    assert(stmts@.skip(0) =~= stmts@);
    stages_from(t, sc, r, stmts, 0)
}

#[verifier::opaque]
spec fn given(
    t: TableModel,
    sc: Around,
    locals: Seq<(Seq<char>, Ty)>,
    st: Status,
    args: Vec<Expr>,
    i: int,
    name: Seq<char>,
    ps: Seq<Ty>,
    ret: Ty,
) -> Result<Ty, Seq<char>> {
    func_args_from(t, sc, locals, st, args, i, name, ps, ret).0
}

proof fn given_one(
    t: TableModel,
    sc: Around,
    locals: Seq<(Seq<char>, Ty)>,
    st: Status,
    args: Vec<Expr>,
    i: int,
    name: Seq<char>,
    ps: Seq<Ty>,
    ret: Ty,
) -> (next: Status)
    requires
        0 <= i <= args@.len(),
        given(t, sc, locals, st, args, i, name, ps, ret) is Ok,
    ensures
        i == args@.len() ==> given(t, sc, locals, st, args, i, name, ps, ret)->Ok_0 == ret,
        i < args@.len() ==> taken(t, sc, locals, st, args@[i], ps[i]) && given(
            t,
            sc,
            locals,
            next,
            args,
            i + 1,
            name,
            ps,
            ret,
        ) == given(t, sc, locals, st, args, i, name, ps, ret),
{
    reveal(given);
    reveal(taken);
    infer_expecting(t, sc, locals, st, args@[i], ps[i]).1
}

proof fn all_given(
    t: TableModel,
    sc: Around,
    locals: Seq<(Seq<char>, Ty)>,
    st: Status,
    args: Vec<Expr>,
    i: int,
    name: Seq<char>,
    ps: Seq<Ty>,
    ret: Ty,
)
    requires
        0 <= i <= args@.len(),
        given(t, sc, locals, st, args, i, name, ps, ret) is Ok,
    ensures
        given(t, sc, locals, st, args, i, name, ps, ret)->Ok_0 == ret,
        forall|k: int|
            i <= k < args@.len() ==> argued(t, sc, locals, #[trigger] args@[k], ps[k]),
    decreases args@.len() - i,
{
    let next = given_one(t, sc, locals, st, args, i, name, ps, ret);
    if i < args@.len() {
        assert(taken(t, sc, locals, st, args@[i], ps[i]));
        all_given(t, sc, locals, next, args, i + 1, name, ps, ret);
    }
}

#[verifier::opaque]
spec fn called(
    t: TableModel,
    sc: Around,
    locals: Seq<(Seq<char>, Ty)>,
    st: Status,
    name: Seq<char>,
    method: Seq<char>,
    args: Vec<Expr>,
) -> Result<Ty, Seq<char>> {
    bare_call(t, sc, locals, st, name, method, args).0
}

proof fn called_local(
    t: TableModel,
    sc: Around,
    locals: Seq<(Seq<char>, Ty)>,
    st: Status,
    name: Seq<char>,
    method: Seq<char>,
    args: Vec<Expr>,
)
    requires
        lookup(locals, name) is Some,
        lookup(locals, name)->0 is Func,
    ensures
        ({
            let f = lookup(locals, name)->0;
            called(t, sc, locals, st, name, method, args) is Ok ==> args@.len() == f->Func_0.len()
                && called(t, sc, locals, st, name, method, args) == given(
                t,
                sc,
                locals,
                st,
                args,
                0,
                name,
                f->Func_0,
                *f->Func_1,
            )
        }),
{
    reveal(called);
    reveal(given);
}

/// A call by a bare name of a local function has as many arguments as the function
/// has parameters, each goes into its parameter, and the call has the type of the
/// result.
pub proof fn local_call_law(
    t: TableModel,
    sc: Around,
    locals: Seq<(Seq<char>, Ty)>,
    st: Status,
    name: Seq<char>,
    method: Seq<char>,
    args: Vec<Expr>,
)
    requires
        lookup(locals, name) is Some,
        lookup(locals, name)->0 is Func,
        bare_call(t, sc, locals, st, name, method, args).0 is Ok,
    ensures
        args@.len() == (lookup(locals, name)->0)->Func_0.len(),
        bare_call(t, sc, locals, st, name, method, args).0->Ok_0 == *(lookup(
            locals,
            name,
        )->0)->Func_1,
        forall|k: int|
            0 <= k < args@.len() ==> argued(
                t,
                sc,
                locals,
                #[trigger] args@[k],
                (lookup(locals, name)->0)->Func_0[k],
            ),
{
    let f = lookup(locals, name)->0;
    assert(called(t, sc, locals, st, name, method, args) == bare_call(
        t,
        sc,
        locals,
        st,
        name,
        method,
        args,
    ).0) by {
        reveal(called);
    }
    called_local(t, sc, locals, st, name, method, args);
    all_given(t, sc, locals, st, args, 0, name, f->Func_0, *f->Func_1);
}

proof fn all_fit(
    t: TableModel,
    method: Seq<char>,
    params: Seq<Ty>,
    s: Seq<(Seq<char>, Ty)>,
    args: Seq<Ty>,
    i: int,
)
    requires
        0 <= i,
        args_fit(t, method, params, s, args, i) is Ok,
    ensures
        forall|k: int|
            i <= k < args.len() && k < params.len() ==> flows(
                t,
                subst_ty(#[trigger] params[k], s),
                args[k],
            ),
    decreases args.len() - i,
{
    if i < args.len() && i < params.len() {
        all_fit(t, method, params, s, args, i + 1);
    }
}

/// A call of a method that is not generic: each argument goes into its parameter,
/// the class's type arguments put in, and the call has the result type of the
/// method, with the same put in.
pub proof fn method_call_law(
    t: TableModel,
    method: Seq<char>,
    m: MethodModel,
    s: Seq<(Seq<char>, Ty)>,
    args: Seq<Ty>,
)
    requires
        m.generics.len() == 0,
        args.len() == m.params.len(),
    ensures
        call_ty(t, method, m, s, args) is Ok <==> (forall|k: int|
            0 <= k < args.len() ==> flows(t, subst_ty(#[trigger] m.params[k], s), args[k])),
        call_ty(t, method, m, s, args) is Ok ==> call_ty(t, method, m, s, args)->Ok_0 == subst_ty(
            m.return_ty,
            s,
        ),
{
    if call_ty(t, method, m, s, args) is Ok {
        all_fit(t, method, m.params, s, args, 0);
    } else {
        misfit(t, method, m.params, s, args, 0);
    }
}

proof fn misfit(
    t: TableModel,
    method: Seq<char>,
    params: Seq<Ty>,
    s: Seq<(Seq<char>, Ty)>,
    args: Seq<Ty>,
    i: int,
)
    requires
        0 <= i,
        args_fit(t, method, params, s, args, i) is Err,
    ensures
        exists|k: int|
            i <= k < args.len() && k < params.len() && !flows(
                t,
                subst_ty(#[trigger] params[k], s),
                args[k],
            ),
    decreases args.len() - i,
{
    if i < args.len() && i < params.len() {
        if flows(t, subst_ty(params[i], s), args[i]) {
            misfit(t, method, params, s, args, i + 1);
        }
    }
}

/// A generic method is called with types for all its parameters under which each
/// argument goes into its parameter.
pub proof fn generic_call_law(
    t: TableModel,
    method: Seq<char>,
    m: MethodModel,
    s: Seq<(Seq<char>, Ty)>,
    args: Seq<Ty>,
)
    requires
        args.len() == m.params.len(),
        call_ty(t, method, m, s, args) is Ok,
    ensures
        exists|u: Seq<(Seq<char>, Ty)>|
            {
                &&& call_ty(t, method, m, s, args)->Ok_0 == #[trigger] subst_ty(m.return_ty, u)
                &&& forall|k: int|
                    0 <= k < args.len() ==> flows(t, subst_ty(#[trigger] m.params[k], u), args[k])
            },
{
    let u = call_subst(t, method, m, s, args)->Ok_0;
    all_fit(t, method, m.params, u, args, 0);
    assert(call_ty(t, method, m, s, args)->Ok_0 == subst_ty(m.return_ty, u));
}

/// The types of literals, of names and of the operators on truth values and
/// numbers.
pub proof fn expression_law(
    t: TableModel,
    sc: Around,
    locals: Seq<(Seq<char>, Ty)>,
    st: Status,
    e: Expr,
)
    ensures
        e is Bool ==> infer(t, sc, locals, st, e).0 == Ok::<Ty, Seq<char>>(Ty::Bool),
        e is Char ==> infer(t, sc, locals, st, e).0 == Ok::<Ty, Seq<char>>(Ty::Char),
        e is String ==> infer(t, sc, locals, st, e).0 == Ok::<Ty, Seq<char>>(
            Ty::StringLit(e->String_0@),
        ),
        e matches Expr::Var(name) ==> name@ != "this"@ && name@ != "super"@ && lookup(
            locals,
            name@,
        ) is Some ==> infer(t, sc, locals, st, e).0 == Ok::<Ty, Seq<char>>(lookup(locals, name@)->0),
        e is Hole ==> infer(t, sc, locals, st, e).0 is Err,
        e matches Expr::Unary(UnaryOp::Not, x) ==> infer(t, sc, locals, st, e).0 is Ok ==> infer(
            t,
            sc,
            locals,
            st,
            *x,
        ).0 == Ok::<Ty, Seq<char>>(Ty::Bool) && infer(t, sc, locals, st, e).0->Ok_0 is Bool,
        e matches Expr::Binary(op, a, b) ==> (op == BinOp::And || op == BinOp::Or) ==> infer(
            t,
            sc,
            locals,
            st,
            e,
        ).0 is Ok ==> infer(t, sc, locals, st, *a).0 == Ok::<Ty, Seq<char>>(Ty::Bool) && infer(
            t,
            sc,
            locals,
            st,
            e,
        ).0->Ok_0 is Bool,
        e matches Expr::Ternary(c, a, b) ==> infer(t, sc, locals, st, e).0 is Ok ==> infer(
            t,
            sc,
            locals,
            st,
            *c,
        ).0 == Ok::<Ty, Seq<char>>(Ty::Bool),
        e matches Expr::Await(x) ==> infer(t, sc, locals, st, e).0 is Ok ==> sc.is_async,
{
}

} // verus!
