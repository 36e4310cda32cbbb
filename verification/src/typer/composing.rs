//! How the type of an expression comes from the types of its parts.

use crate::typer::assign::flows;
use crate::typer::ast::{BinOp, Expr, InterpPart, MatchArm, Stmt, Ty, Type, UnaryOp};
use crate::typer::exprs::{binary_ty, coalesce_ty, field_ty, ternary_ty};
use crate::typer::flow::{assigned_by, declared_by, facts, locals_under, Status};
use crate::typer::infer::{
    arm, arms_from, captured, infer, lambda, lambda_names, lambda_params_from, parts_from,
    updates_from,
};
use crate::typer::info::{ClassModel, TableModel};
use crate::typer::keyed::lookup;
use crate::typer::operands::{number, whole};
use crate::typer::rules::Around;
use vstd::prelude::*;

verus! {

/// What is cast is a number and becomes the number type asked for; a test gives a
/// truth value; `!` behind a value takes `null` away; a component is one of the
/// tuple's; what is awaited is a task.
pub proof fn part_law(
    t: TableModel,
    sc: Around,
    locals: Seq<(Seq<char>, Ty)>,
    st: Status,
    e: Expr,
    got: Ty,
)
    requires
        infer(t, sc, locals, st, e).0 == Ok::<Ty, Seq<char>>(got),
    ensures
        e matches Expr::Cast(x, ty) ==> got == ty@ && number(got) && (infer(t, sc, locals, st, *x).0
            matches Ok(from) && number(from)),
        e matches Expr::Is(x, _, _) ==> got is Bool && infer(t, sc, locals, st, *x).0 is Ok,
        e matches Expr::NonNullAssert(x) ==> (infer(t, sc, locals, st, *x).0 matches Ok(from) && if from
            is Nullable {
            got == *from->Nullable_0
        } else {
            got == from
        }),
        e matches Expr::TupleIndex(x, i) ==> (infer(t, sc, locals, st, *x).0 matches Ok(from)
            && from is Tuple && i < from->Tuple_0.len() && got == from->Tuple_0[i as int]),
        e matches Expr::Await(x) ==> (infer(t, sc, locals, st, *x).0 matches Ok(from) && from
            is Class && from->Class_0 == "Task"@ && from->Class_1.len() == 1 && got
            == from->Class_1[0]),
        e matches Expr::Field(x, name) ==> (infer(t, sc, locals, st, *x).0 matches Ok(from) && !(from
            is Nullable) && field_ty(t, sc, from, name@) == Ok::<Ty, Seq<char>>(got)),
        e matches Expr::NullConditionalField(x, _) ==> got is Nullable && infer(
            t,
            sc,
            locals,
            st,
            *x,
        ).0 is Ok,
        e is Null ==> got.is_null(),
{
}

/// The minus sign keeps the type of a number. The right side of `&&` is typed under
/// what the left side tells where it holds, that of `||` where it does not; both are
/// truth values. Any other operator is applied to the types of both sides.
pub proof fn operator_law(
    t: TableModel,
    sc: Around,
    locals: Seq<(Seq<char>, Ty)>,
    st: Status,
    e: Expr,
    got: Ty,
)
    requires
        infer(t, sc, locals, st, e).0 == Ok::<Ty, Seq<char>>(got),
    ensures
        e matches Expr::Unary(UnaryOp::Neg, x) ==> !(*x is IntLit) && !(*x is FloatLit) ==> number(got)
            && infer(t, sc, locals, st, *x).0 == Ok::<Ty, Seq<char>>(got),
        e matches Expr::Binary(op, a, b) ==> (op == BinOp::And || op == BinOp::Or) ==> {
            let l = infer(t, sc, locals, st, *a);
            let fs = facts(*a, locals, op == BinOp::And);
            &&& got is Bool
            &&& l.0 == Ok::<Ty, Seq<char>>(Ty::Bool)
            &&& infer(t, sc, locals_under(locals, fs, fs.len() as int), l.1, *b).0 == Ok::<
                Ty,
                Seq<char>,
            >(Ty::Bool)
        },
        e matches Expr::Binary(op, a, b) ==> op != BinOp::And && op != BinOp::Or ==> {
            let l = infer(t, sc, locals, st, *a);
            let r = infer(t, sc, locals, l.1, *b);
            &&& l.0 is Ok && r.0 is Ok
            &&& binary_ty(t, sc, op, l.0->Ok_0, r.0->Ok_0) == Ok::<Ty, Seq<char>>(got)
        },
{
}

/// A choice, a replacement for `null` and a range are typed by both of their sides.
pub proof fn pair_law(
    t: TableModel,
    sc: Around,
    locals: Seq<(Seq<char>, Ty)>,
    st: Status,
    e: Expr,
    got: Ty,
)
    requires
        infer(t, sc, locals, st, e).0 == Ok::<Ty, Seq<char>>(got),
    ensures
        e matches Expr::Ternary(c, a, b) ==> {
            let x = infer(t, sc, locals, st, *c);
            let y = infer(t, sc, locals, x.1, *a);
            let z = infer(t, sc, locals, y.1, *b);
            &&& x.0 == Ok::<Ty, Seq<char>>(Ty::Bool)
            &&& y.0 is Ok && z.0 is Ok
            &&& ternary_ty(t, y.0->Ok_0, z.0->Ok_0) == Ok::<Ty, Seq<char>>(got)
        },
        e matches Expr::NullCoalesce(a, b) ==> {
            let y = infer(t, sc, locals, st, *a);
            let z = infer(t, sc, locals, y.1, *b);
            &&& y.0 is Ok && z.0 is Ok
            &&& coalesce_ty(t, y.0->Ok_0, z.0->Ok_0) == Ok::<Ty, Seq<char>>(got)
        },
        e matches Expr::Range(a, b, _) ==> {
            let y = infer(t, sc, locals, st, *a);
            let z = infer(t, sc, locals, y.1, *b);
            &&& y.0 is Ok && z.0 is Ok
            &&& whole(y.0->Ok_0) || y.0->Ok_0 is IntLit
            &&& whole(z.0->Ok_0) || z.0->Ok_0 is IntLit
            &&& got == Ty::Class("Range"@, seq![])
        },
{
}

/// A text with expressions in it is a text, and each of the expressions has a type.
pub proof fn interpolation_law(
    t: TableModel,
    sc: Around,
    locals: Seq<(Seq<char>, Ty)>,
    st: Status,
    parts: Vec<InterpPart>,
    i: int,
    k: int,
    x: Expr,
)
    requires
        parts_from(t, sc, locals, st, parts, i).0 is Ok,
        0 <= i <= k < parts@.len(),
        parts@[k] == InterpPart::Expr(x),
    ensures
        parts_from(t, sc, locals, st, parts, i).0->Ok_0 is String,
        exists|at: Status| (#[trigger] infer(t, sc, locals, at, x)).0 is Ok,
    decreases parts@.len() - i,
{
    match parts@[i] {
        InterpPart::Text(_) => {
            interpolation_law(t, sc, locals, st, parts, i + 1, k, x);
        },
        InterpPart::Expr(y) => {
            let r = infer(t, sc, locals, st, y);
            if i < k {
                interpolation_law(t, sc, locals, r.1, parts, i + 1, k, x);
            } else {
                all_text(t, sc, locals, r.1, parts, i + 1);
            }
        },
    }
}

proof fn all_text(
    t: TableModel,
    sc: Around,
    locals: Seq<(Seq<char>, Ty)>,
    st: Status,
    parts: Vec<InterpPart>,
    i: int,
)
    requires
        0 <= i <= parts@.len(),
        parts_from(t, sc, locals, st, parts, i).0 is Ok,
    ensures
        parts_from(t, sc, locals, st, parts, i).0->Ok_0 is String,
    decreases parts@.len() - i,
{
    if i < parts@.len() {
        match parts@[i] {
            InterpPart::Text(_) => {
                all_text(t, sc, locals, st, parts, i + 1);
            },
            InterpPart::Expr(y) => {
                all_text(t, sc, locals, infer(t, sc, locals, st, y).1, parts, i + 1);
            },
        }
    }
}

/// The type of a `match` is that of its first arm, and what any other arm gives goes
/// into it.
pub proof fn match_law(
    t: TableModel,
    sc: Around,
    locals: Seq<(Seq<char>, Ty)>,
    st: Status,
    arms: Vec<MatchArm>,
    i: int,
    subject: Ty,
    result: Option<Ty>,
    k: int,
)
    requires
        arms_from(t, sc, locals, st, arms, i, subject, result).0 is Ok,
        0 <= i <= k < arms@.len(),
    ensures
        ({
            let got = arms_from(t, sc, locals, st, arms, i, subject, result).0->Ok_0;
            &&& result matches Some(ty) ==> got == ty
            &&& result is None ==> arm(t, sc, locals, st, arms@[i], subject).0 == Ok::<
                Ty,
                Seq<char>,
            >(got)
            &&& i < k || result is Some ==> exists|at: Status|
                (#[trigger] arm(t, sc, locals, at, arms@[k], subject)).0 matches Ok(ty) && flows(
                    t,
                    got,
                    ty,
                )
        }),
    decreases arms@.len() - i,
{
    let r = arm(t, sc, locals, st, arms@[i], subject);
    let next = match result {
        Some(x) => Some(x),
        None => Some(r.0->Ok_0),
    };
    if i < k {
        match_law(t, sc, locals, r.1, arms, i + 1, subject, next, k);
    } else if i + 1 < arms@.len() {
        match_law(t, sc, locals, r.1, arms, i + 1, subject, next, i + 1);
    }
    if i == k && result is Some {
        assert(arm(t, sc, locals, st, arms@[k], subject).0 is Ok);
    }
}

/// A copy of a record has the type of the record; each field that it changes is one
/// of the record's, and the value goes into it.
pub proof fn copy_law(
    t: TableModel,
    sc: Around,
    locals: Seq<(Seq<char>, Ty)>,
    st: Status,
    updates: Vec<(String, Expr)>,
    i: int,
    obj: Ty,
    class: Seq<char>,
    info: ClassModel,
    k: int,
)
    requires
        updates_from(t, sc, locals, st, updates, i, obj, class, info).0 is Ok,
        0 <= i <= k < updates@.len(),
    ensures
        updates_from(t, sc, locals, st, updates, i, obj, class, info).0->Ok_0 == obj,
        lookup(info.instance_fields, updates@[k].0@) is Some,
        exists|at: Status|
            (#[trigger] infer(t, sc, locals, at, updates@[k].1)).0 matches Ok(ty) && flows(
                t,
                lookup(info.instance_fields, updates@[k].0@)->0,
                ty,
            ),
    decreases updates@.len() - i,
{
    let r = infer(t, sc, locals, st, updates@[i].1);
    if i < k {
        copy_law(t, sc, locals, r.1, updates, i + 1, obj, class, info, k);
    } else {
        if i + 1 < updates@.len() {
            copy_law(t, sc, locals, r.1, updates, i + 1, obj, class, info, i + 1);
        }
        assert(infer(t, sc, locals, st, updates@[k].1).0 is Ok);
    }
}

/// `with` copies records only.
pub proof fn record_law(
    t: TableModel,
    sc: Around,
    locals: Seq<(Seq<char>, Ty)>,
    st: Status,
    obj: Box<Expr>,
    updates: Vec<(String, Expr)>,
)
    requires
        infer(t, sc, locals, st, Expr::With(obj, updates)).0 is Ok,
    ensures
        infer(t, sc, locals, st, *obj).0 matches Ok(ty) && ty is Class && (lookup(
            t.classes,
            ty->Class_0,
        ) matches Some(info) && info.is_record),
{
}

proof fn params_typed(
    t: TableModel,
    sc: Around,
    params: Seq<(String, Option<Type>)>,
    i: int,
    exp: Option<(Seq<Ty>, Ty)>,
    acc: Seq<Ty>,
    k: int,
)
    requires
        lambda_params_from(t, sc, params, i, exp, acc) is Ok,
        0 <= i <= params.len(),
        acc.len() == i,
    ensures
        ({
            let got = lambda_params_from(t, sc, params, i, exp, acc)->Ok_0;
            &&& got.len() == params.len()
            &&& forall|j: int| 0 <= j < i ==> #[trigger] got[j] == acc[j]
            &&& i <= k < params.len() ==> {
                &&& params[k].1 matches Some(x) ==> got[k] == x@
                &&& params[k].1 is None ==> exp is Some && got[k] == (exp->0).0[k]
            }
        }),
    decreases params.len() - i,
{
    if i < params.len() {
        let x: Ty = match params[i].1 {
            Some(x) => x@,
            None => (exp->0).0[i],
        };
        let next = acc.push(x);
        params_typed(t, sc, params, i + 1, exp, next, k);
        let got = lambda_params_from(t, sc, params, i, exp, acc)->Ok_0;
        assert(got == lambda_params_from(t, sc, params, i + 1, exp, next)->Ok_0);
        assert(got[i] == next[i]);
        assert forall|j: int| 0 <= j < i implies #[trigger] got[j] == acc[j] by {
            assert(got[j] == next[j]);
        }
    }
}

proof fn none_captured(
    names: Seq<Seq<char>>,
    i: int,
    own: Seq<Seq<char>>,
    locals: Seq<(Seq<char>, Ty)>,
    k: int,
)
    requires
        captured(names, i, own, locals) is None,
        0 <= i <= k < names.len(),
    ensures
        own.contains(names[k]) || lookup(locals, names[k]) is None,
    decreases k - i,
{
    if i < k {
        none_captured(names, i + 1, own, locals, k);
    }
}

/// A function written in place has the parameters that it writes, with the types that
/// it writes or else those that are expected. It does not assign the locals around
/// it: what it assigns is its own.
pub proof fn lambda_law(
    t: TableModel,
    sc: Around,
    locals: Seq<(Seq<char>, Ty)>,
    st: Status,
    params: Vec<(String, Option<Type>)>,
    body: Vec<Stmt>,
    ps: Seq<Ty>,
    ret: Ty,
    k: int,
    j: int,
)
    requires
        lambda(
            t,
            sc,
            locals,
            st,
            params,
            body,
            Some(Ty::Func(ps, Box::new(ret))),
            None,
        ).0 is Ok,
        0 <= k < params@.len(),
        0 <= j < assigned_by(body).len(),
    ensures
        ({
            let got = lambda(
                t,
                sc,
                locals,
                st,
                params,
                body,
                Some(Ty::Func(ps, Box::new(ret))),
                None,
            ).0->Ok_0;
            &&& params@.len() == ps.len()
            &&& got is Func
            &&& got->Func_0.len() == params@.len()
            &&& params@[k].1 matches Some(x) ==> got->Func_0[k] == x@
            &&& params@[k].1 is None ==> got->Func_0[k] == ps[k]
            &&& (lambda_names(params@) + declared_by(body)).contains(assigned_by(body)[j]) || lookup(
                locals,
                assigned_by(body)[j],
            ) is None
        }),
{
    params_typed(t, sc, params@, 0, Some((ps, ret)), seq![], k);
    none_captured(assigned_by(body), 0, lambda_names(params@) + declared_by(body), locals, j);
}

} // verus!
