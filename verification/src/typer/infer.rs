//! Checking expressions, patterns and statements.

use crate::arith::{neg_bits, rank};
use crate::text::{dec, dec_int, own};
use crate::typer::assign::flows;
use crate::typer::ast::{
    texts, ty_name, tys, AssignTarget, BinOp, CallExpr, CatchClause, Expr, FloatSuffix, InterpPart,
    MatchArm, Pattern, Stmt, Ty, Type, UnaryOp,
};
use crate::typer::calls::{
    call_ty, instance_callee, lambda_resolved, lambda_subst, mentions_var, new_class, new_ty,
    param_names, receiver, static_callee, string_callee, super_callee, Reached,
};
use crate::typer::exprs::{
    await_ty, bare_variant, binary_ty, cast_ty, coalesce_ty, component_ty, construction_ty,
    declaring, field_target_ty, field_ty, is_test_ty, null_call_ty, null_field_ty, range_ty,
    static_member_ty, stringlike, super_member_ty, ternary_ty, try_unwrap_ty, var_ty, variant_for,
    variant_named, without_null,
};
use crate::typer::flow::{
    assigned_by, declared_by, facts, locals_after, locals_under, narrowed_under, restored,
    saved_locals, saved_narrowed, terminates, Status,
};
use crate::typer::hierarchy::static_method;
use crate::typer::info::{ClassModel, MethodModel, TableModel};
use crate::typer::keyed::{dropped, keys, lookup, put, put_back};
use crate::typer::rules::{
    accessible, disposable, hole_text, mismatch, throws_handled, valid, Around,
};
use crate::typer::suggest::suggestion;
use crate::typer::types::{fits, numeric, resolved, subst_of, subst_ty, suffixed};
use vstd::prelude::*;

verus! {

/// A type or an error, and the status afterwards.
pub type Typed = (Result<Ty, Seq<char>>, Status);

/// What checking statements gives. The locals count only where there is no error.
pub ghost struct Ran {
    /// Whether the statements are right.
    pub result: Result<(), Seq<char>>,
    /// The locals afterwards.
    pub locals: Seq<(Seq<char>, Ty)>,
    /// The status afterwards.
    pub status: Status,
}

/// A type is turned into another, or into an error.
pub open spec fn mapped(r: Typed, f: spec_fn(Ty) -> Result<Ty, Seq<char>>) -> Typed {
    match r.0 {
        Err(m) => (Err(m), r.1),
        Ok(ty) => (f(ty), r.1),
    }
}

/// Checking stops with an error.
pub open spec fn stopped(m: Seq<char>, locals: Seq<(Seq<char>, Ty)>, st: Status) -> Ran {
    Ran { result: Err(m), locals, status: st }
}

/// Checking goes on.
pub open spec fn passed(locals: Seq<(Seq<char>, Ty)>, st: Status) -> Ran {
    Ran { result: Ok(()), locals, status: st }
}

/// A condition has to be a boolean.
pub open spec fn condition_ok(what: Seq<char>, ty: Ty) -> Result<Ty, Seq<char>> {
    if ty is Bool {
        Ok(Ty::Bool)
    } else {
        Err(what + " must be bool, got "@ + ty_name(ty))
    }
}

/// The type of a negated float literal.
pub open spec fn negated_float(v: u64, s: FloatSuffix) -> Ty {
    match s {
        FloatSuffix::Plain => Ty::FloatLit(rank(neg_bits(v))),
        FloatSuffix::F32 => Ty::Float32,
        FloatSuffix::F64 => Ty::Float64,
    }
}

/// The type of a float literal.
pub open spec fn float_ty(v: u64, s: FloatSuffix) -> Ty {
    match s {
        FloatSuffix::Plain => Ty::FloatLit(rank(v)),
        FloatSuffix::F32 => Ty::Float32,
        FloatSuffix::F64 => Ty::Float64,
    }
}

// ---------------------------------------------------------------------------
// Expressions
// ---------------------------------------------------------------------------

/// The types of the expressions from `i` on, after those in `acc`.
pub open spec fn infer_from(
    t: TableModel,
    sc: Around,
    locals: Seq<(Seq<char>, Ty)>,
    st: Status,
    args: Vec<Expr>,
    i: int,
    acc: Seq<Ty>,
) -> (Result<Seq<Ty>, Seq<char>>, Status)
    decreases args, args@.len() - i,
{
    if i < 0 || i >= args@.len() {
        (Ok(acc), st)
    } else {
        let r = infer(t, sc, locals, st, args@[i]);
        match r.0 {
            Err(m) => (Err(m), r.1),
            Ok(ty) => infer_from(t, sc, locals, r.1, args, i + 1, acc.push(ty)),
        }
    }
}

/// The embedded expressions from `i` on have types.
pub open spec fn parts_from(
    t: TableModel,
    sc: Around,
    locals: Seq<(Seq<char>, Ty)>,
    st: Status,
    parts: Vec<InterpPart>,
    i: int,
) -> Typed
    decreases parts, parts@.len() - i,
{
    if i < 0 || i >= parts@.len() {
        (Ok(Ty::String), st)
    } else {
        match parts@[i] {
            InterpPart::Text(_) => parts_from(t, sc, locals, st, parts, i + 1),
            InterpPart::Expr(e) => {
                let r = infer(t, sc, locals, st, e);
                match r.0 {
                    Err(m) => (Err(m), r.1),
                    Ok(_) => parts_from(t, sc, locals, r.1, parts, i + 1),
                }
            },
        }
    }
}

/// The type of a variant that is constructed.
pub open spec fn construct(
    t: TableModel,
    sc: Around,
    locals: Seq<(Seq<char>, Ty)>,
    st: Status,
    enum_name: Seq<char>,
    variant: Seq<char>,
    args: Vec<Expr>,
) -> Typed
    decreases args, args@.len() + 1,
{
    match variant_for(t, enum_name, variant, args@.len()) {
        Err(m) => (Err(m), st),
        Ok((e, v)) => {
            let r = infer_from(t, sc, locals, st, args, 0, seq![]);
            match r.0 {
                Err(m) => (Err(m), r.1),
                Ok(tys) => (construction_ty(t, enum_name, variant, e, v, tys), r.1),
            }
        },
    }
}

/// The type of a variant without arguments.
pub open spec fn construct_plain(t: TableModel, enum_name: Seq<char>, variant: Seq<char>) -> Result<
    Ty,
    Seq<char>,
> {
    match variant_for(t, enum_name, variant, 0) {
        Err(m) => Err(m),
        Ok((e, v)) => construction_ty(t, enum_name, variant, e, v, seq![]),
    }
}

/// The arguments from `i` on of `super.m(..)` fit the parameters.
pub open spec fn super_args_from(
    t: TableModel,
    sc: Around,
    locals: Seq<(Seq<char>, Ty)>,
    st: Status,
    args: Vec<Expr>,
    i: int,
    method: Seq<char>,
    m: MethodModel,
) -> Typed
    decreases args, args@.len() - i,
{
    if i < 0 || i >= args@.len() {
        (Ok(m.return_ty), st)
    } else {
        let r = infer(t, sc, locals, st, args@[i]);
        match r.0 {
            Err(e) => (Err(e), r.1),
            Ok(ty) => if flows(t, m.params[i], ty) {
                super_args_from(t, sc, locals, r.1, args, i + 1, method, m)
            } else {
                (
                    Err(
                        "argument type mismatch in `"@ + method + "`: expected "@ + ty_name(
                            m.params[i],
                        ) + ", got "@ + ty_name(ty),
                    ),
                    r.1,
                )
            },
        }
    }
}

/// The updates from `i` on of a record fit its fields.
pub open spec fn updates_from(
    t: TableModel,
    sc: Around,
    locals: Seq<(Seq<char>, Ty)>,
    st: Status,
    updates: Vec<(String, Expr)>,
    i: int,
    obj_ty: Ty,
    class: Seq<char>,
    info: ClassModel,
) -> Typed
    decreases updates, updates@.len() - i,
{
    if i < 0 || i >= updates@.len() {
        (Ok(obj_ty), st)
    } else {
        let field = updates@[i].0@;
        match lookup(info.instance_fields, field) {
            None => (Err("record `"@ + class + "` has no field `"@ + field + "`"@), st),
            Some(fty) => {
                let r = infer(t, sc, locals, st, updates@[i].1);
                match r.0 {
                    Err(e) => (Err(e), r.1),
                    Ok(ty) => if flows(t, fty, ty) {
                        updates_from(t, sc, locals, r.1, updates, i + 1, obj_ty, class, info)
                    } else {
                        (
                            Err(
                                "cannot assign "@ + ty_name(ty) + " to record field `"@ + class
                                    + "."@ + field + "` of type "@ + ty_name(fty),
                            ),
                            r.1,
                        )
                    },
                }
            },
        }
    }
}

/// The record that `with` copies.
pub open spec fn with_record(t: TableModel, obj_ty: Ty) -> Result<(Seq<char>, ClassModel), Seq<char>> {
    match obj_ty {
        Ty::Class(class, _) => match lookup(t.classes, class) {
            None => Err("unknown class `"@ + class + "`"@),
            Some(info) => if info.is_record {
                Ok((class, info))
            } else {
                Err("`with` requires a record value, got "@ + ty_name(obj_ty))
            },
        },
        _ => Err("`with` requires a record value, got "@ + ty_name(obj_ty)),
    }
}

/// The names that bindings from `i` on introduce.
pub open spec fn bind_upto(
    locals: Seq<(Seq<char>, Ty)>,
    bs: Seq<(Seq<char>, Ty)>,
    n: int,
) -> Seq<(Seq<char>, Ty)>
    decreases n,
{
    if n <= 0 {
        locals
    } else {
        put(bind_upto(locals, bs, n - 1), bs[n - 1].0, bs[n - 1].1)
    }
}

/// The arms from `i` on of a `match`; `result` is the type of the arms before.
pub open spec fn arms_from(
    t: TableModel,
    sc: Around,
    locals: Seq<(Seq<char>, Ty)>,
    st: Status,
    arms: Vec<MatchArm>,
    i: int,
    subject: Ty,
    result: Option<Ty>,
) -> Typed
    decreases arms, arms@.len() - i,
{
    if i < 0 || i >= arms@.len() {
        (
            Ok(
                match result {
                    Some(ty) => ty,
                    None => Ty::Unit,
                },
            ),
            st,
        )
    } else {
        let r = arm(t, sc, locals, st, arms@[i], subject);
        match r.0 {
            Err(m) => (Err(m), r.1),
            Ok(ty) => match result {
                None => arms_from(t, sc, locals, r.1, arms, i + 1, subject, Some(ty)),
                Some(expected) => if flows(t, expected, ty) {
                    arms_from(t, sc, locals, r.1, arms, i + 1, subject, result)
                } else {
                    (
                        Err(
                            "match arms must have compatible types, expected "@ + ty_name(expected)
                                + " but got "@ + ty_name(ty),
                        ),
                        r.1,
                    )
                },
            },
        }
    }
}

/// The type of one arm.
pub open spec fn arm(
    t: TableModel,
    sc: Around,
    locals: Seq<(Seq<char>, Ty)>,
    st: Status,
    a: MatchArm,
    subject: Ty,
) -> Typed
    decreases a, 1int,
{
    let p = patterns_from(t, sc, locals, st, a.patterns, 0, subject, seq![]);
    match p.0 {
        Err(m) => (Err(m), p.1),
        Ok(bs) => {
            let inner = bind_upto(locals, bs, bs.len() as int);
            let g = match a.guard {
                None => (Ok(Ty::Bool), p.1),
                Some(guard) => mapped(
                    infer(t, sc, inner, p.1, guard),
                    |ty: Ty| condition_ok("match guard"@, ty),
                ),
            };
            match g.0 {
                Err(m) => (Err(m), g.1),
                Ok(_) => mapped(infer(t, sc, inner, g.1, a.body), |ty: Ty| Ok(resolved(ty))),
            }
        },
    }
}

/// The value of a block: its statements from `i` on; the last one, if it is an
/// expression, gives the value.
pub open spec fn block_from(
    t: TableModel,
    sc: Around,
    locals: Seq<(Seq<char>, Ty)>,
    st: Status,
    stmts: Vec<Stmt>,
    i: int,
) -> Typed
    decreases stmts, stmts@.len() - i,
{
    if i < 0 || i >= stmts@.len() {
        (Ok(Ty::Unit), st)
    } else if i + 1 == stmts@.len() && stmts@[i] is Expr {
        infer(t, sc, locals, st, stmts@[i]->Expr_0)
    } else {
        let r = check(t, sc, locals, st, stmts@[i]);
        match r.result {
            Err(m) => (Err(m), r.status),
            Ok(_) => block_from(t, sc, r.locals, r.status, stmts, i + 1),
        }
    }
}

/// The type of an expression.
pub open spec fn infer(
    t: TableModel,
    sc: Around,
    locals: Seq<(Seq<char>, Ty)>,
    st: Status,
    e: Expr,
) -> Typed
    decreases e, 0int,
{
    match e {
        Expr::IntLit(v, s) => (suffixed(s, v), st),
        Expr::FloatLit(v, s) => (Ok(float_ty(v, s)), st),
        Expr::Cast(inner, ty) => mapped(
            infer(t, sc, locals, st, *inner),
            |x: Ty| cast_ty(x, ty@),
        ),
        Expr::Bool(_) => (Ok(Ty::Bool), st),
        Expr::Char(_) => (Ok(Ty::Char), st),
        Expr::String(s) => (Ok(Ty::StringLit(s@)), st),
        Expr::InterpolatedString(parts) => parts_from(t, sc, locals, st, parts, 0),
        Expr::Null => (Ok(Ty::Class("null"@, seq![])), st),
        Expr::Var(name) => (var_ty(t, sc, locals, name@), st),
        Expr::Field(obj, name) => mapped(
            infer(t, sc, locals, st, *obj),
            |x: Ty| field_ty(t, sc, x, name@),
        ),
        Expr::StaticField(class, name) => (
            if lookup(t.enums, class@) is Some {
                construct_plain(t, class@, name@)
            } else {
                static_member_ty(t, sc, class@, name@, false)
            },
            st,
        ),
        Expr::Hole => (
            Err(
                "type hole: the expected type cannot be determined at this position; use `_` where a typed value is expected (an initializer, argument, or return value)"@,
            ),
            st,
        ),
        Expr::Is(subject, ty, _) => mapped(
            infer(t, sc, locals, st, *subject),
            |x: Ty| is_test_ty(t, x, ty@),
        ),
        Expr::Binary(op, left, right) => if op == BinOp::And || op == BinOp::Or {
            let l = infer(t, sc, locals, st, *left);
            match l.0 {
                Err(m) => (Err(m), l.1),
                Ok(lt) => if !(lt is Bool) {
                    (Err("logical operators require booleans"@), l.1)
                } else {
                    let fs = facts(*left, locals, op == BinOp::And);
                    mapped(
                        infer(t, sc, locals_under(locals, fs, fs.len() as int), l.1, *right),
                        |rt: Ty|
                            if rt is Bool {
                                Ok(Ty::Bool)
                            } else {
                                Err("logical operators require booleans"@)
                            },
                    )
                },
            }
        } else {
            let l = infer(t, sc, locals, st, *left);
            match l.0 {
                Err(m) => (Err(m), l.1),
                Ok(lt) => mapped(
                    infer(t, sc, locals, l.1, *right),
                    |rt: Ty| binary_ty(t, sc, op, lt, rt),
                ),
            }
        },
        Expr::Unary(op, operand) => match op {
            UnaryOp::Neg => match *operand {
                Expr::IntLit(v, s) => (
                    if v == i64::MIN {
                        Err("integer literal "@ + dec_int(v as int) + " is too small to negate"@)
                    } else {
                        suffixed(s, (-v) as i64)
                    },
                    st,
                ),
                Expr::FloatLit(v, s) => (Ok(negated_float(v, s)), st),
                _ => mapped(
                    infer(t, sc, locals, st, *operand),
                    |x: Ty|
                        if numeric(x) {
                            Ok(x)
                        } else {
                            Err("cannot negate "@ + ty_name(x))
                        },
                ),
            },
            UnaryOp::Not => mapped(
                infer(t, sc, locals, st, *operand),
                |x: Ty|
                    if x is Bool {
                        Ok(Ty::Bool)
                    } else {
                        Err("`!` requires bool"@)
                    },
            ),
        },
        Expr::Call(call) => call_of(t, sc, locals, st, call, false),
        Expr::Lambda { params, body } => lambda(t, sc, locals, st, params, body, None, None),
        Expr::Await(inner) => if sc.is_async {
            mapped(infer(t, sc, locals, st, *inner), |x: Ty| await_ty(x))
        } else {
            (Err("`await` is only allowed inside `async` methods"@), st)
        },
        Expr::New(class, written, args) => match new_class(t, sc, class@) {
            Err(m) => (Err(m), st),
            Ok(c) => {
                let r = infer_from(t, sc, locals, st, args, 0, seq![]);
                match r.0 {
                    Err(m) => (Err(m), r.1),
                    Ok(ts) => (new_ty(t, sc, c, class@, tys(written@), ts), r.1),
                }
            },
        },
        Expr::Ternary(cond, a, b) => {
            let c = mapped(
                infer(t, sc, locals, st, *cond),
                |x: Ty| condition_ok("ternary condition"@, x),
            );
            match c.0 {
                Err(m) => (Err(m), c.1),
                Ok(_) => {
                    let x = infer(t, sc, locals, c.1, *a);
                    match x.0 {
                        Err(m) => (Err(m), x.1),
                        Ok(xt) => mapped(
                            infer(t, sc, locals, x.1, *b),
                            |yt: Ty| ternary_ty(t, xt, yt),
                        ),
                    }
                },
            }
        },
        Expr::NonNullAssert(inner) => mapped(
            infer(t, sc, locals, st, *inner),
            |x: Ty| Ok(without_null(x)),
        ),
        Expr::NullCoalesce(a, b) => {
            let x = infer(t, sc, locals, st, *a);
            match x.0 {
                Err(m) => (Err(m), x.1),
                Ok(xt) => mapped(
                    infer(t, sc, locals, x.1, *b),
                    |yt: Ty| coalesce_ty(t, xt, yt),
                ),
            }
        },
        Expr::NullConditionalField(obj, name) => mapped(
            infer(t, sc, locals, st, *obj),
            |x: Ty| null_field_ty(t, sc, x, name@),
        ),
        Expr::NullConditionalCall(call) => mapped(
            call_of(t, sc, locals, st, call, true),
            |x: Ty| Ok(null_call_ty(x)),
        ),
        Expr::Match(subject, arms) => {
            let s = infer(t, sc, locals, st, *subject);
            match s.0 {
                Err(m) => (Err(m), s.1),
                Ok(ty) => arms_from(t, sc, locals, s.1, arms, 0, ty, None),
            }
        },
        Expr::EnumVariant(enum_name, variant, args) => construct(
            t,
            sc,
            locals,
            st,
            enum_name@,
            variant@,
            args,
        ),
        Expr::Tuple(elements) => {
            let r = infer_from(t, sc, locals, st, elements, 0, seq![]);
            match r.0 {
                Err(m) => (Err(m), r.1),
                Ok(ts) => (Ok(Ty::Tuple(ts)), r.1),
            }
        },
        Expr::TupleIndex(tuple, idx) => mapped(
            infer(t, sc, locals, st, *tuple),
            |x: Ty| component_ty(x, idx),
        ),
        Expr::Range(a, b, _) => {
            let x = infer(t, sc, locals, st, *a);
            match x.0 {
                Err(m) => (Err(m), x.1),
                Ok(xt) => mapped(infer(t, sc, locals, x.1, *b), |yt: Ty| range_ty(xt, yt)),
            }
        },
        Expr::SuperCall(method, args) => match super_callee(t, sc, method@, args@.len()) {
            Err(m) => (Err(m), st),
            Ok(mi) => super_args_from(t, sc, locals, st, args, 0, method@, mi),
        },
        Expr::SuperField(name) => (super_member_ty(t, sc, name@, false), st),
        Expr::With(obj, updates) => {
            let o = infer(t, sc, locals, st, *obj);
            match o.0 {
                Err(m) => (Err(m), o.1),
                Ok(ty) => match with_record(t, ty) {
                    Err(m) => (Err(m), o.1),
                    Ok((class, info)) => updates_from(
                        t,
                        sc,
                        locals,
                        o.1,
                        updates,
                        0,
                        ty,
                        class,
                        info,
                    ),
                },
            }
        },
        Expr::Block(stmts) => block_from(t, sc, locals, st, stmts, 0),
        Expr::TryUnwrap(inner) => mapped(
            infer(t, sc, locals, st, *inner),
            |x: Ty| try_unwrap_ty(t, sc, x),
        ),
    }
}

/// The type of an expression where a type is expected: lambdas are typed by it.
pub open spec fn infer_expecting(
    t: TableModel,
    sc: Around,
    locals: Seq<(Seq<char>, Ty)>,
    st: Status,
    e: Expr,
    expected: Ty,
) -> Typed
    decreases e, 1int,
{
    match e {
        Expr::Lambda { params, body } => lambda(
            t,
            sc,
            locals,
            st,
            params,
            body,
            Some(expected),
            None,
        ),
        _ => infer(t, sc, locals, st, e),
    }
}

// ---------------------------------------------------------------------------
// Lambdas
// ---------------------------------------------------------------------------

/// The function type that is expected, down through `null`.
pub open spec fn expected_func(expected: Option<Ty>) -> Option<(Seq<Ty>, Ty)> {
    match expected {
        Some(Ty::Func(ps, r)) => Some((ps, *r)),
        Some(Ty::Nullable(u)) => match *u {
            Ty::Func(ps, r) => Some((ps, *r)),
            _ => None,
        },
        _ => None,
    }
}

/// The types of the parameters of a lambda from `i` on, after those in `acc`.
pub open spec fn lambda_params_from(
    t: TableModel,
    sc: Around,
    params: Seq<(String, Option<Type>)>,
    i: int,
    exp: Option<(Seq<Ty>, Ty)>,
    acc: Seq<Ty>,
) -> Result<Seq<Ty>, Seq<char>>
    decreases params.len() - i,
{
    if i < 0 || i >= params.len() {
        Ok(acc)
    } else {
        let name = params[i].0@;
        let ty: Option<Ty> = match params[i].1 {
            Some(x) => Some(x@),
            None => match exp {
                Some((ps, _)) => Some(ps[i]),
                None => None,
            },
        };
        match ty {
            None => Err(
                "cannot infer the type of lambda parameter `"@ + name + "`: annotate it (`(int "@
                    + name + ") => ...`) or give the lambda a Func<...> target type"@,
            ),
            Some(x) => match valid(t, x, sc.generics) {
                Err(m) => Err(m),
                Ok(_) => lambda_params_from(t, sc, params, i + 1, exp, acc.push(x)),
            },
        }
    }
}

/// The names of the parameters of a lambda.
pub open spec fn lambda_names(params: Seq<(String, Option<Type>)>) -> Seq<Seq<char>> {
    Seq::new(params.len(), |i: int| params[i].0@)
}

/// The first of the names from `i` on that a lambda assigns though it captures
/// it.
pub open spec fn captured(
    names: Seq<Seq<char>>,
    i: int,
    own: Seq<Seq<char>>,
    locals: Seq<(Seq<char>, Ty)>,
) -> Option<Seq<char>>
    decreases names.len() - i,
{
    if i < 0 || i >= names.len() {
        None
    } else if !own.contains(names[i]) && lookup(locals, names[i]) is Some {
        Some(names[i])
    } else {
        captured(names, i + 1, own, locals)
    }
}

/// The locals with the first `n` parameters of a lambda.
pub open spec fn lambda_locals(
    locals: Seq<(Seq<char>, Ty)>,
    names: Seq<Seq<char>>,
    tys: Seq<Ty>,
    n: int,
) -> Seq<(Seq<char>, Ty)>
    decreases n,
{
    if n <= 0 {
        locals
    } else {
        put(lambda_locals(locals, names, tys, n - 1), names[n - 1], tys[n - 1])
    }
}

/// Some variable occurs in a type.
pub open spec fn is_open(ty: Ty, vars: Option<Seq<Seq<char>>>) -> bool {
    match vars {
        Some(vs) => mentions_var(seq![ty], vs),
        None => false,
    }
}

/// The expression of an expression body.
pub open spec fn body_expr(body: Vec<Stmt>) -> Option<Expr> {
    if body@.len() == 1 {
        match body@[0] {
            Stmt::Return(Some(e)) => Some(e),
            _ => None,
        }
    } else {
        None
    }
}

/// The scope of a lambda body that returns `ret`.
pub open spec fn lambda_scope(sc: Around, ret: Ty) -> Around {
    Around { return_ty: ret, is_async: false, ..sc }
}

/// The type of a lambda. Parameter types come from annotations or from the
/// expected function type; the body is checked against the expected result.
/// Without one, or where it mentions a variable in `open`, the body must be an
/// expression, whose type is the result. Outer locals are captured by value.
pub open spec fn lambda(
    t: TableModel,
    sc: Around,
    locals: Seq<(Seq<char>, Ty)>,
    st: Status,
    params: Vec<(String, Option<Type>)>,
    body: Vec<Stmt>,
    expected: Option<Ty>,
    open: Option<Seq<Seq<char>>>,
) -> Typed
    decreases body, body@.len() + 2,
{
    let exp = expected_func(expected);
    let names = lambda_names(params@);
    if exp is Some && (exp->0).0.len() != params@.len() {
        (
            Err(
                "lambda has "@ + dec(params@.len()) + " parameter(s) but "@ + ty_name(expected->0)
                    + " takes "@ + dec((exp->0).0.len()),
            ),
            st,
        )
    } else {
        match lambda_params_from(t, sc, params@, 0, exp, seq![]) {
            Err(m) => (Err(m), st),
            Ok(ptys) => match captured(
                assigned_by(body),
                0,
                names + declared_by(body),
                locals,
            ) {
                Some(name) => (
                    Err(
                        "lambda captures `"@ + name
                            + "` by value; assigning to it inside the lambda would not affect the outer variable"@,
                    ),
                    st,
                ),
                None => {
                    let inner = lambda_locals(locals, names, ptys, params@.len() as int);
                    let fresh = Status { narrowed: seq![], line: st.line };
                    let r = lambda_body(t, sc, inner, fresh, body, ptys, exp, open);
                    (r.0, Status { narrowed: st.narrowed, line: r.1.line })
                },
            },
        }
    }
}

/// The type of a lambda with parameters of types `ptys`.
pub open spec fn lambda_body(
    t: TableModel,
    sc: Around,
    locals: Seq<(Seq<char>, Ty)>,
    st: Status,
    body: Vec<Stmt>,
    ptys: Seq<Ty>,
    exp: Option<(Seq<Ty>, Ty)>,
    open: Option<Seq<Seq<char>>>,
) -> Typed
    decreases body, body@.len() + 1,
{
    if exp is Some && !is_open((exp->0).1, open) {
        let ret = (exp->0).1;
        if ret is Unit && body_expr(body) is Some {
            mapped(
                infer(t, lambda_scope(sc, ret), locals, st, body_expr(body)->0),
                |x: Ty| Ok(Ty::Func(ptys, Box::new(Ty::Unit))),
            )
        } else {
            let r = stmts_from(t, lambda_scope(sc, ret), locals, st, body, 0);
            (
                match r.result {
                    Err(m) => Err(m),
                    Ok(_) => Ok(Ty::Func(ptys, Box::new(ret))),
                },
                r.status,
            )
        }
    } else {
        match body_expr(body) {
            Some(e) => mapped(
                infer(t, lambda_scope(sc, Ty::Unit), locals, st, e),
                |x: Ty| Ok(Ty::Func(ptys, Box::new(resolved(x)))),
            ),
            None => (
                Err(
                    "a block-bodied lambda needs a target type: assign it to a Func<...>/Action<...> variable or pass it to a typed parameter"@,
                ),
                st,
            ),
        }
    }
}

// ---------------------------------------------------------------------------
// Calls
// ---------------------------------------------------------------------------

/// The position of the first hole among the arguments from `i` on.
pub open spec fn hole_at(args: Seq<Expr>, i: int) -> int
    decreases args.len() - i,
{
    if i < 0 || i >= args.len() {
        args.len() as int
    } else if args[i] is Hole {
        i
    } else {
        hole_at(args, i + 1)
    }
}

/// The types of the arguments from `i` on that are no lambdas.
pub open spec fn known_from(
    t: TableModel,
    sc: Around,
    locals: Seq<(Seq<char>, Ty)>,
    st: Status,
    args: Vec<Expr>,
    i: int,
    acc: Seq<Option<Ty>>,
) -> (Result<Seq<Option<Ty>>, Seq<char>>, Status)
    decreases args, args@.len() - i,
{
    if i < 0 || i >= args@.len() {
        (Ok(acc), st)
    } else if args@[i] is Lambda {
        known_from(t, sc, locals, st, args, i + 1, acc.push(None))
    } else {
        let r = infer(t, sc, locals, st, args@[i]);
        match r.0 {
            Err(m) => (Err(m), r.1),
            Ok(ty) => known_from(t, sc, locals, r.1, args, i + 1, acc.push(Some(ty))),
        }
    }
}

/// The types of all arguments from `i` on, where those that are no lambdas are
/// known and lambdas are typed by the parameters.
pub open spec fn lambdas_from(
    t: TableModel,
    sc: Around,
    locals: Seq<(Seq<char>, Ty)>,
    st: Status,
    args: Vec<Expr>,
    i: int,
    known: Seq<Option<Ty>>,
    m: MethodModel,
    pre: Seq<(Seq<char>, Ty)>,
    acc: Seq<Ty>,
) -> (Result<Seq<Ty>, Seq<char>>, Status)
    decreases args, args@.len() - i,
{
    if i < 0 || i >= args@.len() {
        (Ok(acc), st)
    } else {
        match known[i] {
            Some(ty) => lambdas_from(
                t,
                sc,
                locals,
                st,
                args,
                i + 1,
                known,
                m,
                pre,
                acc.push(ty),
            ),
            None => match args@[i] {
                Expr::Lambda { params, body } => {
                    let pty = subst_ty(m.params[i], pre);
                    let vars = param_names(m.generics);
                    let r = if lambda_resolved(pty, vars) {
                        lambda(t, sc, locals, st, params, body, Some(pty), Some(vars))
                    } else {
                        lambda(t, sc, locals, st, params, body, None, None)
                    };
                    match r.0 {
                        Err(e) => (Err(e), r.1),
                        Ok(ty) => lambdas_from(
                            t,
                            sc,
                            locals,
                            r.1,
                            args,
                            i + 1,
                            known,
                            m,
                            pre,
                            acc.push(ty),
                        ),
                    }
                },
                _ => (Ok(acc), st),
            },
        }
    }
}

/// The type of a call of a method with these arguments.
pub open spec fn call_args(
    t: TableModel,
    sc: Around,
    locals: Seq<(Seq<char>, Ty)>,
    st: Status,
    args: Vec<Expr>,
    method: Seq<char>,
    m: MethodModel,
    s: Seq<(Seq<char>, Ty)>,
) -> Typed
    decreases args, args@.len() + 1,
{
    if args@.len() != m.params.len() {
        (
            Err(
                "method `"@ + method + "` expects "@ + dec(m.params.len()) + " arguments, got "@
                    + dec(args@.len()),
            ),
            st,
        )
    } else if hole_at(args@, 0) < args@.len() {
        (Err(hole_text(t, subst_ty(m.params[hole_at(args@, 0)], s), locals)), st)
    } else {
        let k = known_from(t, sc, locals, st, args, 0, seq![]);
        match k.0 {
            Err(e) => (Err(e), k.1),
            Ok(known) => {
                let r = lambdas_from(
                    t,
                    sc,
                    locals,
                    k.1,
                    args,
                    0,
                    known,
                    m,
                    lambda_subst(m, s, known),
                    seq![],
                );
                match r.0 {
                    Err(e) => (Err(e), r.1),
                    Ok(ts) => (call_ty(t, method, m, s, ts), r.1),
                }
            },
        }
    }
}

/// The type of a call whose method has been resolved.
pub open spec fn finish_call(
    t: TableModel,
    sc: Around,
    locals: Seq<(Seq<char>, Ty)>,
    st: Status,
    args: Vec<Expr>,
    method: Seq<char>,
    r: Result<Reached, Seq<char>>,
) -> Typed
    decreases args, args@.len() + 2,
{
    match r {
        Err(e) => (Err(e), st),
        Ok(c) => match throws_handled(t, sc, c.method.throws, 0, c.label) {
            Err(e) => (Err(e), st),
            Ok(_) => call_args(t, sc, locals, st, args, method, c.method, c.subst),
        },
    }
}

/// The arguments from `i` on of a call of a local function fit its parameters.
pub open spec fn func_args_from(
    t: TableModel,
    sc: Around,
    locals: Seq<(Seq<char>, Ty)>,
    st: Status,
    args: Vec<Expr>,
    i: int,
    name: Seq<char>,
    ps: Seq<Ty>,
    ret: Ty,
) -> Typed
    decreases args, args@.len() - i,
{
    if i < 0 || i >= args@.len() {
        (Ok(ret), st)
    } else if args@[i] is Hole {
        (Err(hole_text(t, ps[i], locals)), st)
    } else {
        let r = infer_expecting(t, sc, locals, st, args@[i], ps[i]);
        match r.0 {
            Err(e) => (Err(e), r.1),
            Ok(ty) => if flows(t, ps[i], ty) {
                func_args_from(t, sc, locals, r.1, args, i + 1, name, ps, ret)
            } else {
                (
                    Err(
                        mismatch(
                            t,
                            "argument of type "@ + ty_name(ty)
                                + " does not fit parameter of type "@ + ty_name(ps[i])
                                + " in call to `"@ + name + "`"@,
                            ps[i],
                            ty,
                        ),
                    ),
                    r.1,
                )
            },
        }
    }
}

/// The type of a call.
pub open spec fn call_of(
    t: TableModel,
    sc: Around,
    locals: Seq<(Seq<char>, Ty)>,
    st: Status,
    call: CallExpr,
    nullable: bool,
) -> Typed
    decreases call, 0int,
{
    let method = call.method@;
    let class = call.class_or_target@;
    let args = call.args;
    if class == "__intrinsics"@ && method == "print"@ {
        if args@.len() != 1 {
            (Err("print expects 1 argument"@), st)
        } else {
            mapped(infer(t, sc, locals, st, args@[0]), |x: Ty| Ok(Ty::Unit))
        }
    } else if class == "__intrinsics"@ && method == "println"@ {
        if args@.len() != 0 {
            (Err("println expects 0 arguments"@), st)
        } else {
            (Ok(Ty::Unit), st)
        }
    } else {
        match call.target {
            Some(target) => if *target is Var && (*target)->Var_0@ == "super"@ {
                (Err("`super` in static method"@), st)
            } else if *target is Var && (*target)->Var_0@ == "this"@ {
                if !sc.in_instance {
                    (Err("`this` in static method"@), st)
                } else {
                    finish_call(
                        t,
                        sc,
                        locals,
                        st,
                        args,
                        method,
                        instance_callee(t, sc, sc.class.name, seq![], method),
                    )
                }
            } else if *target is Var && lookup(t.classes, (*target)->Var_0@) is Some {
                finish_call(
                    t,
                    sc,
                    locals,
                    st,
                    args,
                    method,
                    static_callee(t, sc, (*target)->Var_0@, method, true),
                )
            } else {
                let r = infer(t, sc, locals, st, *target);
                match r.0 {
                    Err(e) => (Err(e), r.1),
                    Ok(full) => {
                        let ty = if nullable {
                            without_null(full)
                        } else {
                            full
                        };
                        if stringlike(ty) {
                            finish_call(t, sc, locals, r.1, args, method, string_callee(t, method))
                        } else {
                            match receiver(t, sc, ty, method) {
                                Err(e) => (Err(e), r.1),
                                Ok((c, targs)) => finish_call(
                                    t,
                                    sc,
                                    locals,
                                    r.1,
                                    args,
                                    method,
                                    instance_callee(t, sc, c, targs, method),
                                ),
                            }
                        }
                    },
                }
            },
            None => bare_call(t, sc, locals, st, class, method, args),
        }
    }
}

/// The type of wrapping a value of type `x` in a newtype.
pub open spec fn newtype_ty(
    t: TableModel,
    method: Seq<char>,
    underlying: Ty,
    x: Ty,
) -> Result<Ty, Seq<char>> {
    if flows(t, underlying, x) {
        Ok(Ty::Newtype(method, Box::new(underlying)))
    } else {
        Err(
            "cannot construct "@ + method + "("@ + ty_name(x) + "): expected "@ + ty_name(
                underlying,
            ),
        )
    }
}

/// What a bare call of a static method of the current class reaches.
pub open spec fn own_static(
    t: TableModel,
    sc: Around,
    class: Seq<char>,
    method: Seq<char>,
) -> Result<Reached, Seq<char>> {
    match static_method(t.classes, sc.class.name, method) {
        Some((d, m)) => if accessible(t.classes, sc.class.name, d, m.visibility) {
            Ok(Reached { label: d + "."@ + method, method: m, subst: seq![] })
        } else {
            Err("unknown class `"@ + class + "`"@)
        },
        None => Err("unknown class `"@ + class + "`"@),
    }
}

/// The type of a call without a receiver: of a local function, of a variant, of
/// a newtype, or of a static method.
pub open spec fn bare_call(
    t: TableModel,
    sc: Around,
    locals: Seq<(Seq<char>, Ty)>,
    st: Status,
    class: Seq<char>,
    method: Seq<char>,
    args: Vec<Expr>,
) -> Typed
    decreases args, args@.len() + 3,
{
    let local = lookup(locals, class);
    if local is Some && local->0 is Func {
        let ps = (local->0)->Func_0;
        let ret = (local->0)->Func_1;
        if args@.len() != ps.len() {
            (
                Err(
                    "`"@ + class + "` takes "@ + dec(ps.len()) + " argument(s), got "@ + dec(
                        args@.len(),
                    ),
                ),
                st,
            )
        } else {
            func_args_from(t, sc, locals, st, args, 0, class, ps, *ret)
        }
    } else if local is Some && local->0 is Nullable && *(local->0)->Nullable_0 is Func {
        (
            Err(
                "`"@ + class + "` may be null (type "@ + ty_name(local->0)
                    + "): narrow it before calling"@,
            ),
            st,
        )
    } else if lookup(t.enums, class) is Some {
        construct(t, sc, locals, st, class, method, args)
    } else if lookup(t.classes, class) is Some {
        finish_call(
            t,
            sc,
            locals,
            st,
            args,
            method,
            static_callee(t, sc, class, method, false),
        )
    } else if declaring(t.enums, method, 0) < t.enums.len() {
        match bare_variant(t, method) {
            Err(e) => (Err(e), st),
            Ok(p) => construct(t, sc, locals, st, t.enums[p].0, method, args),
        }
    } else {
        match lookup(t.newtypes, method) {
            Some(underlying) => if args@.len() != 1 {
                (
                    Err(
                        "newtype constructor `"@ + method + "` expects 1 argument, got "@ + dec(
                            args@.len(),
                        ),
                    ),
                    st,
                )
            } else {
                mapped(
                    infer(t, sc, locals, st, args@[0]),
                    |x: Ty| newtype_ty(t, method, underlying, x),
                )
            },
            None => finish_call(t, sc, locals, st, args, method, own_static(t, sc, class, method)),
        }
    }
}

// ---------------------------------------------------------------------------
// Patterns
// ---------------------------------------------------------------------------

/// Names with the types of the values that they will hold, or an error.
pub type Bindings = (Result<Seq<(Seq<char>, Ty)>, Seq<char>>, Status);

/// The bindings of the patterns from `i` on against one type, after `acc`.
pub open spec fn patterns_from(
    t: TableModel,
    sc: Around,
    locals: Seq<(Seq<char>, Ty)>,
    st: Status,
    ps: Vec<Pattern>,
    i: int,
    expected: Ty,
    acc: Seq<(Seq<char>, Ty)>,
) -> Bindings
    decreases ps, ps@.len() - i,
{
    if i < 0 || i >= ps@.len() {
        (Ok(acc), st)
    } else {
        let r = pattern(t, sc, locals, st, ps@[i], expected);
        match r.0 {
            Err(m) => (Err(m), r.1),
            Ok(bs) => patterns_from(t, sc, locals, r.1, ps, i + 1, expected, acc + bs),
        }
    }
}

/// The bindings of the patterns from `i` on against fields, after `acc`.
pub open spec fn fields_from(
    t: TableModel,
    sc: Around,
    locals: Seq<(Seq<char>, Ty)>,
    st: Status,
    ps: Vec<Pattern>,
    i: int,
    fields: Seq<(Seq<char>, Ty)>,
    s: Seq<(Seq<char>, Ty)>,
    acc: Seq<(Seq<char>, Ty)>,
) -> Bindings
    decreases ps, ps@.len() - i,
{
    if i < 0 || i >= ps@.len() {
        (Ok(acc), st)
    } else {
        let r = pattern(t, sc, locals, st, ps@[i], subst_ty(fields[i].1, s));
        match r.0 {
            Err(m) => (Err(m), r.1),
            Ok(bs) => fields_from(t, sc, locals, r.1, ps, i + 1, fields, s, acc + bs),
        }
    }
}

/// The type arguments of a value of an enum.
pub open spec fn enum_args(enum_name: Seq<char>, ty: Ty) -> Option<Seq<Ty>> {
    match ty {
        Ty::Enum(n) => if n == enum_name {
            Some(seq![])
        } else {
            None
        },
        Ty::Class(n, args) => if n == enum_name {
            Some(args)
        } else {
            None
        },
        _ => None,
    }
}

/// What a variant pattern of a named enum takes apart: the fields and what the
/// type arguments stand for.
pub open spec fn variant_fields(
    t: TableModel,
    enum_name: Seq<char>,
    variant: Seq<char>,
    n: nat,
    expected: Ty,
) -> Result<(Seq<(Seq<char>, Ty)>, Seq<(Seq<char>, Ty)>), Seq<char>> {
    match lookup(t.enums, enum_name) {
        None => Err("unknown enum `"@ + enum_name + "`"@),
        Some(e) => match variant_named(e, variant) {
            None => Err("unknown variant `"@ + enum_name + "."@ + variant + "`"@),
            Some(v) => if n != v.fields.len() {
                Err(
                    "variant `"@ + enum_name + "."@ + variant + "` has "@ + dec(v.fields.len())
                        + " fields but pattern has "@ + dec(n) + " sub-patterns"@,
                )
            } else {
                match enum_args(enum_name, expected) {
                    None => Err(
                        "cannot match enum `"@ + enum_name + "` against value of type `"@ + ty_name(
                            expected,
                        ) + "`"@,
                    ),
                    Some(args) => Ok((v.fields, subst_of(e.generics, args))),
                }
            },
        },
    }
}

/// What a pattern takes apart that is a record or a variant of an enum that is
/// not named.
pub open spec fn record_fields(t: TableModel, name: Seq<char>, n: nat, expected: Ty) -> Result<
    (Seq<(Seq<char>, Ty)>, Seq<(Seq<char>, Ty)>),
    Seq<char>,
> {
    match lookup(t.classes, name) {
        Some(info) => if !info.is_record {
            Err("`"@ + name + "` is not a record class"@)
        } else {
            match expected {
                Ty::Class(en, _) => if en != name {
                    Err(
                        "record pattern `"@ + name + "` cannot match value of type `"@ + ty_name(
                            expected,
                        ) + "`"@,
                    )
                } else if n != info.instance_fields.len() {
                    Err(
                        "record `"@ + name + "` has "@ + dec(info.instance_fields.len())
                            + " fields but pattern has "@ + dec(n) + " sub-patterns"@,
                    )
                } else {
                    Ok((info.instance_fields, seq![]))
                },
                _ => Err(
                    "cannot match record `"@ + name + "` against value of type `"@ + ty_name(
                        expected,
                    ) + "`"@,
                ),
            }
        },
        None => match bare_variant(t, name) {
            Err(m) => Err(m),
            Ok(p) => {
                let (enum_name, e) = t.enums[p];
                let v = variant_named(e, name)->0;
                if n != v.fields.len() {
                    Err(
                        "variant `"@ + name + "` has "@ + dec(v.fields.len())
                            + " fields but pattern has "@ + dec(n) + " sub-patterns"@,
                    )
                } else {
                    match enum_args(enum_name, expected) {
                        None => Err(
                            "cannot match variant `"@ + name + "` against value of type `"@
                                + ty_name(expected) + "`"@,
                        ),
                        Some(args) => Ok((v.fields, subst_of(e.generics, args))),
                    }
                }
            },
        },
    }
}

/// A pattern that binds nothing matches values of a type.
pub open spec fn literal_pattern(p: Pattern, expected: Ty) -> Result<Seq<(Seq<char>, Ty)>, Seq<char>> {
    match p {
        Pattern::Int(v) => if !expected.is_int() {
            Err("integer pattern cannot match subject of type "@ + ty_name(expected))
        } else if !fits(expected, v as int) {
            Err(
                "integer pattern "@ + dec_int(v as int) + " does not fit subject type "@ + ty_name(
                    expected,
                ),
            )
        } else {
            Ok(seq![])
        },
        Pattern::Float(_) => if !expected.is_float() {
            Err("float pattern cannot match subject of type "@ + ty_name(expected))
        } else {
            Ok(seq![])
        },
        Pattern::Bool(_) => if !(expected is Bool) {
            Err("bool pattern cannot match subject of type "@ + ty_name(expected))
        } else {
            Ok(seq![])
        },
        Pattern::StringLit(_) => if !(expected is String) {
            Err("string pattern cannot match subject of type "@ + ty_name(expected))
        } else {
            Ok(seq![])
        },
        _ => Ok(seq![]),
    }
}

/// The bindings of a pattern against a type.
pub open spec fn pattern(
    t: TableModel,
    sc: Around,
    locals: Seq<(Seq<char>, Ty)>,
    st: Status,
    p: Pattern,
    expected: Ty,
) -> Bindings
    decreases p, 0int,
{
    match p {
        Pattern::Binding(name) => (Ok(seq![(name@, expected)]), st),
        Pattern::EnumVariant(enum_name, variant, subs) => match variant_fields(
            t,
            enum_name@,
            variant@,
            subs@.len(),
            expected,
        ) {
            Err(m) => (Err(m), st),
            Ok((fields, s)) => fields_from(t, sc, locals, st, subs, 0, fields, s, seq![]),
        },
        Pattern::RecordClass(name, subs) => match record_fields(
            t,
            name@,
            subs@.len(),
            expected,
        ) {
            Err(m) => (Err(m), st),
            Ok((fields, s)) => fields_from(t, sc, locals, st, subs, 0, fields, s, seq![]),
        },
        Pattern::Range(a, b, _) => if !expected.is_int() && !expected.is_float() {
            (
                Err("range pattern requires int or float subject, got "@ + ty_name(expected)),
                st,
            )
        } else {
            let x = infer(t, sc, locals, st, *a);
            match x.0 {
                Err(m) => (Err(m), x.1),
                Ok(xt) => {
                    let y = infer(t, sc, locals, x.1, *b);
                    match y.0 {
                        Err(m) => (Err(m), y.1),
                        Ok(yt) => if flows(t, expected, xt) && flows(t, expected, yt) {
                            (Ok(seq![]), y.1)
                        } else {
                            (
                                Err(
                                    "range pattern bounds must match subject type "@ + ty_name(
                                        expected,
                                    ) + ", got "@ + ty_name(xt) + " and "@ + ty_name(yt),
                                ),
                                y.1,
                            )
                        },
                    }
                },
            }
        },
        _ => (literal_pattern(p, expected), st),
    }
}

// ---------------------------------------------------------------------------
// Statements
// ---------------------------------------------------------------------------

/// The statements from `i` on.
pub open spec fn stmts_from(
    t: TableModel,
    sc: Around,
    locals: Seq<(Seq<char>, Ty)>,
    st: Status,
    stmts: Vec<Stmt>,
    i: int,
) -> Ran
    decreases stmts, stmts@.len() - i,
{
    if i < 0 || i >= stmts@.len() {
        passed(locals, st)
    } else {
        let r = check(t, sc, locals, st, stmts@[i]);
        match r.result {
            Err(_) => r,
            Ok(_) => stmts_from(t, sc, r.locals, r.status, stmts, i + 1),
        }
    }
}

/// Statements under facts that hold only there.
pub open spec fn guarded(
    t: TableModel,
    sc: Around,
    locals: Seq<(Seq<char>, Ty)>,
    st: Status,
    fs: Seq<crate::typer::flow::Fact>,
    stmts: Vec<Stmt>,
) -> Ran
    decreases stmts, stmts@.len() + 1,
{
    let n = fs.len() as int;
    let r = stmts_from(
        t,
        sc,
        locals_under(locals, fs, n),
        Status { narrowed: narrowed_under(st.narrowed, fs, n), line: st.line },
        stmts,
        0,
    );
    let sl = saved_locals(locals, fs, n);
    let sn = saved_narrowed(st.narrowed, fs, n);
    Ran {
        result: r.result,
        locals: restored(r.locals, sl, sl.len() as int),
        status: Status {
            narrowed: restored(r.status.narrowed, sn, sn.len() as int),
            line: r.status.line,
        },
    }
}

/// The locals with the names of a tuple declaration.
pub open spec fn names_upto(
    locals: Seq<(Seq<char>, Ty)>,
    names: Seq<Seq<char>>,
    ts: Seq<Ty>,
    n: int,
) -> Seq<(Seq<char>, Ty)>
    decreases n,
{
    if n <= 0 {
        locals
    } else {
        put(names_upto(locals, names, ts, n - 1), names[n - 1], ts[n - 1])
    }
}

/// A declared type that has to be initialized.
pub open spec fn needs_value(ty: Ty) -> bool {
    ty is Class || ty is String || ty is Enum || ty is Tuple || ty is GenericParam
}

/// A variable declaration.
pub open spec fn check_var(
    t: TableModel,
    sc: Around,
    locals: Seq<(Seq<char>, Ty)>,
    st: Status,
    ty: Ty,
    name: Seq<char>,
    init: Option<Expr>,
) -> Ran
    decreases init, 0int,
{
    if ty is Infer {
        match init {
            None => stopped(
                "`var "@ + name + "` requires an initializer to infer from"@,
                locals,
                st,
            ),
            Some(e) => if e is Hole {
                stopped(
                    "`var "@ + name + "` cannot infer from a hole; annotate the type"@,
                    locals,
                    st,
                )
            } else {
                let r = infer(t, sc, locals, st, e);
                match r.0 {
                    Err(m) => stopped(m, locals, r.1),
                    Ok(x) => if resolved(x) is Unit || resolved(x).is_null() {
                        stopped(
                            "cannot infer a type for `"@ + name + "` from "@ + ty_name(resolved(x))
                                + "; annotate the type"@,
                            locals,
                            r.1,
                        )
                    } else {
                        passed(put(locals, name, resolved(x)), r.1)
                    },
                }
            },
        }
    } else {
        match valid(t, ty, sc.generics) {
            Err(m) => stopped(m, locals, st),
            Ok(_) => match init {
                None => if needs_value(ty) {
                    stopped(
                        "variable `"@ + name + "` of non-nullable type "@ + ty_name(ty)
                            + " must be initialized (or declared as "@ + ty_name(ty) + "?)"@,
                        locals,
                        st,
                    )
                } else {
                    passed(put(locals, name, ty), st)
                },
                Some(e) => if e is Hole {
                    stopped(hole_text(t, ty, locals), locals, st)
                } else {
                    let r = infer_expecting(t, sc, locals, st, e, ty);
                    match r.0 {
                        Err(m) => stopped(m, locals, r.1),
                        Ok(x) => if flows(t, ty, x) {
                            passed(put(locals, name, ty), r.1)
                        } else {
                            stopped(
                                mismatch(
                                    t,
                                    "cannot assign "@ + ty_name(x) + " to variable `"@ + name
                                        + "` of type "@ + ty_name(ty),
                                    ty,
                                    x,
                                ),
                                locals,
                                r.1,
                            )
                        },
                    }
                },
            },
        }
    }
}

/// The type of an assignment target.
pub open spec fn target_ty(
    t: TableModel,
    sc: Around,
    locals: Seq<(Seq<char>, Ty)>,
    st: Status,
    target: AssignTarget,
) -> Typed
    decreases target, 0int,
{
    match target {
        AssignTarget::Local(name) => (
            match lookup(locals, name@) {
                Some(ty) => Ok(ty),
                None => Err(
                    "unknown variable `"@ + name@ + "`"@ + suggestion(keys(locals), name@),
                ),
            },
            st,
        ),
        AssignTarget::Field(obj, name) => mapped(
            infer(t, sc, locals, st, *obj),
            |x: Ty| field_target_ty(t, sc, x, name@),
        ),
        AssignTarget::StaticField(class, name) => (
            static_member_ty(t, sc, class@, name@, true),
            st,
        ),
        AssignTarget::SuperField(name) => (super_member_ty(t, sc, name@, true), st),
    }
}

/// The declared type of a target that is a narrowed local.
pub open spec fn narrowed_target(st: Status, target: AssignTarget) -> Option<Ty> {
    match target {
        AssignTarget::Local(name) => lookup(st.narrowed, name@),
        _ => None,
    }
}

/// The type of the loop variable of `for .. in`.
pub open spec fn loop_ty(t: TableModel, var: Ty, iter: Ty) -> Result<Ty, Seq<char>> {
    match iter {
        Ty::Class(name, args) => if name == "Range"@ {
            if var is Infer {
                Ok(Ty::Int32)
            } else if var.is_int() {
                Ok(var)
            } else {
                Err("for-in loop variable must be an integer, got "@ + ty_name(var))
            }
        } else if name == "List"@ || name == "Set"@ {
            if var is Infer {
                if args.len() > 0 {
                    Ok(args[0])
                } else {
                    Err(
                        "cannot infer the element type of this "@ + name
                            + "; annotate the loop variable"@,
                    )
                }
            } else if args.len() > 0 && !flows(t, var, args[0]) {
                Err(
                    "for-in loop variable of type "@ + ty_name(var) + " cannot hold "@ + name
                        + " elements of type "@ + ty_name(args[0]),
                )
            } else {
                Ok(var)
            }
        } else {
            Err("for-in requires a range, List, or Set expression, got "@ + ty_name(iter))
        },
        _ => Err("for-in requires a range, List, or Set expression, got "@ + ty_name(iter)),
    }
}

/// The handlers from `i` on of a `try`.
pub open spec fn catches_from(
    t: TableModel,
    sc: Around,
    locals: Seq<(Seq<char>, Ty)>,
    st: Status,
    catches: Vec<CatchClause>,
    i: int,
) -> Ran
    decreases catches, catches@.len() - i,
{
    if i < 0 || i >= catches@.len() {
        passed(locals, st)
    } else {
        let c = catches@[i];
        match valid(t, c.ty@, sc.generics) {
            Err(m) => stopped(m, locals, st),
            Ok(_) => {
                let r = stmts_from(t, sc, put(locals, c.name@, c.ty@), st, c.body, 0);
                match r.result {
                    Err(_) => r,
                    Ok(_) => catches_from(t, sc, r.locals, r.status, catches, i + 1),
                }
            },
        }
    }
}

/// The types that handlers catch.
pub open spec fn catch_tys(catches: Seq<CatchClause>) -> Seq<Ty> {
    Seq::new(catches.len(), |i: int| catches[i].ty@)
}

/// The scope of the protected statements of a `try`.
pub open spec fn try_scope(sc: Around, catches: Seq<CatchClause>) -> Around {
    Around { handled: sc.handled + catch_tys(catches), ..sc }
}

/// The locals of a `using` statement.
pub open spec fn using_locals(
    t: TableModel,
    sc: Around,
    locals: Seq<(Seq<char>, Ty)>,
    declared: Option<Ty>,
    name: Option<Seq<char>>,
    ty: Ty,
) -> Result<Seq<(Seq<char>, Ty)>, Seq<char>> {
    match (declared, name) {
        (Some(d), Some(n)) => match valid(t, d, sc.generics) {
            Err(m) => Err(m),
            Ok(_) => if flows(t, d, ty) {
                Ok(put(locals, n, d))
            } else {
                Err(
                    "cannot use value of type "@ + ty_name(ty) + " as `using` resource of type "@
                        + ty_name(d),
                )
            },
        },
        (None, Some(n)) => Ok(put(locals, n, ty)),
        (_, None) => Ok(locals),
    }
}

/// What the bound names stood for before.
pub open spec fn saved_names(locals: Seq<(Seq<char>, Ty)>, bs: Seq<(Seq<char>, Ty)>) -> Seq<
    (Seq<char>, Option<Ty>),
> {
    Seq::new(bs.len(), |i: int| (bs[i].0, lookup(locals, bs[i].0)))
}

/// The first `n` saved entries are put back, the first one first.
pub open spec fn put_back_upto(
    s: Seq<(Seq<char>, Ty)>,
    saved: Seq<(Seq<char>, Option<Ty>)>,
    n: int,
) -> Seq<(Seq<char>, Ty)>
    decreases n,
{
    if n <= 0 {
        s
    } else {
        put_back(put_back_upto(s, saved, n - 1), saved[n - 1].0, saved[n - 1].1)
    }
}

/// Optional types of an optional list.
pub open spec fn opt_ty_of(t: Option<Type>) -> Option<Ty> {
    match t {
        Some(x) => Some(x@),
        None => None,
    }
}

/// An optional text.
pub open spec fn opt_name_of(s: Option<String>) -> Option<Seq<char>> {
    match s {
        Some(x) => Some(x@),
        None => None,
    }
}

/// A statement.
pub open spec fn check(
    t: TableModel,
    sc: Around,
    locals: Seq<(Seq<char>, Ty)>,
    st: Status,
    stmt: Stmt,
) -> Ran
    decreases stmt, 1int,
{
    match stmt {
        Stmt::VarDecl(ty, name, init) => check_var(t, sc, locals, st, ty@, name@, init),
        Stmt::TupleDecl(names, e) => {
            let r = infer(t, sc, locals, st, e);
            match r.0 {
                Err(m) => stopped(m, locals, r.1),
                Ok(ty) => match ty {
                    Ty::Tuple(ts) => if names@.len() != ts.len() {
                        stopped(
                            "tuple destructuring expects "@ + dec(ts.len())
                                + " variables but got "@ + dec(names@.len()),
                            locals,
                            r.1,
                        )
                    } else {
                        passed(names_upto(locals, texts(names@), ts, names@.len() as int), r.1)
                    },
                    _ => stopped(
                        "cannot destructure non-tuple type "@ + ty_name(ty),
                        locals,
                        r.1,
                    ),
                },
            }
        },
        Stmt::Expr(e) => {
            let r = infer(t, sc, locals, st, e);
            match r.0 {
                Err(m) => stopped(m, locals, r.1),
                Ok(_) => passed(locals, r.1),
            }
        },
        Stmt::Assign(target, value) => match narrowed_target(st, target) {
            Some(declared) => if value is Hole {
                stopped(hole_text(t, declared, locals), locals, st)
            } else {
                let name = target->Local_0@;
                let r = infer_expecting(t, sc, locals, st, value, declared);
                match r.0 {
                    Err(m) => stopped(m, locals, r.1),
                    Ok(x) => if flows(t, declared, x) {
                        passed(
                            put(locals, name, declared),
                            Status { narrowed: dropped(r.1.narrowed, name), line: r.1.line },
                        )
                    } else {
                        stopped(
                            mismatch(
                                t,
                                "cannot assign "@ + ty_name(x) + " to `"@ + name + "` of type "@
                                    + ty_name(declared),
                                declared,
                                x,
                            ),
                            locals,
                            r.1,
                        )
                    },
                }
            },
            None => {
                let g = target_ty(t, sc, locals, st, target);
                match g.0 {
                    Err(m) => stopped(m, locals, g.1),
                    Ok(ty) => if value is Hole {
                        stopped(hole_text(t, ty, locals), locals, g.1)
                    } else {
                        let r = infer_expecting(t, sc, locals, g.1, value, ty);
                        match r.0 {
                            Err(m) => stopped(m, locals, r.1),
                            Ok(x) => if flows(t, ty, x) {
                                passed(locals, r.1)
                            } else {
                                stopped(
                                    "cannot assign "@ + ty_name(x) + " to "@ + ty_name(ty),
                                    locals,
                                    r.1,
                                )
                            },
                        }
                    },
                }
            },
        },
        Stmt::Return(value) => match value {
            None => if sc.return_ty is Unit {
                passed(locals, st)
            } else {
                stopped("expected return value of type "@ + ty_name(sc.return_ty), locals, st)
            },
            Some(e) => if e is Hole {
                stopped(hole_text(t, sc.return_ty, locals), locals, st)
            } else {
                let r = infer_expecting(t, sc, locals, st, e, sc.return_ty);
                match r.0 {
                    Err(m) => stopped(m, locals, r.1),
                    Ok(x) => if flows(t, sc.return_ty, x) {
                        passed(locals, r.1)
                    } else {
                        stopped(
                            mismatch(
                                t,
                                "return type mismatch: expected "@ + ty_name(sc.return_ty)
                                    + ", got "@ + ty_name(x),
                                sc.return_ty,
                                x,
                            ),
                            locals,
                            r.1,
                        )
                    },
                }
            },
        },
        Stmt::If(cond, yes, no) => {
            let c = mapped(
                infer(t, sc, locals, st, cond),
                |x: Ty| condition_ok("if condition"@, x),
            );
            match c.0 {
                Err(m) => stopped(m, locals, c.1),
                Ok(_) => {
                    let fs = facts(cond, locals, true);
                    let gs = facts(cond, locals, false);
                    let a = guarded(t, sc, locals, c.1, fs, yes);
                    match a.result {
                        Err(_) => a,
                        Ok(_) => match no {
                            Some(other) => guarded(t, sc, a.locals, a.status, gs, other),
                            None => if terminates(yes@) {
                                passed(
                                    locals_after(a.locals, gs, gs.len() as int),
                                    Status {
                                        narrowed: narrowed_under(
                                            a.status.narrowed,
                                            gs,
                                            gs.len() as int,
                                        ),
                                        line: a.status.line,
                                    },
                                )
                            } else {
                                a
                            },
                        },
                    }
                },
            }
        },
        Stmt::IfLet(p, e, yes, no) => {
            let s = infer(t, sc, locals, st, e);
            match s.0 {
                Err(m) => stopped(m, locals, s.1),
                Ok(ty) => {
                    let b = pattern(t, sc, locals, s.1, p, ty);
                    match b.0 {
                        Err(m) => stopped(m, locals, b.1),
                        Ok(bs) => {
                            let a = stmts_from(
                                t,
                                sc,
                                bind_upto(locals, bs, bs.len() as int),
                                b.1,
                                yes,
                                0,
                            );
                            match a.result {
                                Err(_) => a,
                                Ok(_) => {
                                    let back = put_back_upto(
                                        a.locals,
                                        saved_names(locals, bs),
                                        bs.len() as int,
                                    );
                                    match no {
                                        Some(other) => stmts_from(
                                            t,
                                            sc,
                                            back,
                                            a.status,
                                            other,
                                            0,
                                        ),
                                        None => passed(back, a.status),
                                    }
                                },
                            }
                        },
                    }
                },
            }
        },
        Stmt::While { label: _, condition, body } => {
            let c = mapped(
                infer(t, sc, locals, st, condition),
                |x: Ty| condition_ok("while condition"@, x),
            );
            match c.0 {
                Err(m) => stopped(m, locals, c.1),
                Ok(_) => guarded(t, sc, locals, c.1, facts(condition, locals, true), body),
            }
        },
        Stmt::For { label: _, init, condition, update, body } => {
            let a = check(t, sc, locals, st, *init);
            match a.result {
                Err(_) => a,
                Ok(_) => {
                    let c = mapped(
                        infer(t, sc, a.locals, a.status, condition),
                        |x: Ty| condition_ok("for condition"@, x),
                    );
                    match c.0 {
                        Err(m) => stopped(m, a.locals, c.1),
                        Ok(_) => {
                            let u = check(t, sc, a.locals, c.1, *update);
                            match u.result {
                                Err(_) => u,
                                Ok(_) => stmts_from(t, sc, u.locals, u.status, body, 0),
                            }
                        },
                    }
                },
            }
        },
        Stmt::ForIn { label: _, var_type, var_name, iterable, body } => match valid(
            t,
            var_type@,
            sc.generics,
        ) {
            Err(m) => stopped(m, locals, st),
            Ok(_) => {
                let r = mapped(
                    infer(t, sc, locals, st, iterable),
                    |x: Ty| loop_ty(t, var_type@, x),
                );
                match r.0 {
                    Err(m) => stopped(m, locals, r.1),
                    Ok(ty) => stmts_from(t, sc, put(locals, var_name@, ty), r.1, body, 0),
                }
            },
        },
        Stmt::DoWhile { label: _, body, condition } => {
            let a = stmts_from(t, sc, locals, st, body, 0);
            match a.result {
                Err(_) => a,
                Ok(_) => {
                    let c = mapped(
                        infer(t, sc, a.locals, a.status, condition),
                        |x: Ty| condition_ok("do-while condition"@, x),
                    );
                    match c.0 {
                        Err(m) => stopped(m, a.locals, c.1),
                        Ok(_) => passed(a.locals, c.1),
                    }
                },
            }
        },
        Stmt::Mark(line) => passed(locals, Status { narrowed: st.narrowed, line }),
        Stmt::Break(_) => passed(locals, st),
        Stmt::Continue(_) => passed(locals, st),
        Stmt::Throw(e) => {
            let r = infer(t, sc, locals, st, e);
            match r.0 {
                Err(m) => stopped(m, locals, r.1),
                Ok(_) => passed(locals, r.1),
            }
        },
        Stmt::Try { try_body, catches, finally_body } => {
            let a = stmts_from(t, try_scope(sc, catches@), locals, st, try_body, 0);
            match a.result {
                Err(_) => a,
                Ok(_) => {
                    let c = catches_from(t, sc, a.locals, a.status, catches, 0);
                    match c.result {
                        Err(_) => c,
                        Ok(_) => match finally_body {
                            Some(f) => stmts_from(t, sc, c.locals, c.status, f, 0),
                            None => c,
                        },
                    }
                },
            }
        },
        Stmt::Using { resource_ty, name, expr, body } => {
            let r = infer(t, sc, locals, st, expr);
            match r.0 {
                Err(m) => stopped(m, locals, r.1),
                Ok(ty) => match using_locals(
                    t,
                    sc,
                    locals,
                    opt_ty_of(resource_ty),
                    opt_name_of(name),
                    ty,
                ) {
                    Err(m) => stopped(m, locals, r.1),
                    Ok(ls) => match disposable(t, ty) {
                        Err(m) => stopped(m, ls, r.1),
                        Ok(_) => stmts_from(t, sc, ls, r.1, body, 0),
                    },
                },
            }
        },
        Stmt::Block(stmts) => stmts_from(t, sc, locals, st, stmts, 0),
    }
}

} // verus!
