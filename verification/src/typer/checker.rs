//! The functions that check expressions, patterns and statements.

use crate::arith::float_neg;
use crate::text::{
    cat2, cat3, cat4, cat5, cat6, cat7, cat8, cat9, dec_i64, dec_u64, own, same,
};
use crate::typer::ast::{
    clone_tys, has_text, texts, tys, AssignTarget, BinOp, CallExpr, CatchClause, Expr, FloatSuffix,
    InterpPart, MatchArm, Pattern, Stmt, Ty, Type, UnaryOp, views,
};
use crate::typer::calls::{
    any_mentions_var, find_lambda_subst, is_lambda_resolved, names_of, param_names, reached,
    slots_of, Callee,
};
use crate::typer::exprs::{
    await_type, cast_type, component_type, find_variant, is_stringlike, non_nullable,
    null_call_type, range_type, unknown_class,
};
use crate::typer::flow::{
    apply_fact_types, apply_facts, assigned_by, branch_terminates, clone_locals,
    collect_assigned_locals, collect_declared_names, condition_facts, keep_non_null, restore_all,
    save, saved_of, GuardFact, Saved, State,
};
use crate::typer::hierarchy::push_keys;
use crate::typer::infer::{
    narrowed_target,
    arm, arms_from, bare_call, bind_upto, block_from, body_expr, call_args, call_of, captured,
    catch_tys, catches_from, check, check_var, condition_ok, construct, construct_plain, enum_args,
    expected_func, fields_from, finish_call, func_args_from, guarded, hole_at, infer,
    infer_expecting, infer_from, is_open, known_from, lambda, lambda_body, lambda_locals,
    lambda_names, lambda_params_from, lambda_scope, lambdas_from, literal_pattern, loop_ty,
    names_upto, newtype_ty, own_static, opt_name_of, opt_ty_of, parts_from, pattern, patterns_from,
    put_back_upto, record_fields, saved_names, stmts_from, super_args_from, target_ty, try_scope,
    updates_from, using_locals, variant_fields, with_record, Ran,
};
use crate::typer::info::{ClassInfo, ClassModel, EnumInfo, MethodInfo, Tables, VariantInfo};
use crate::typer::keyed::{entries, find, holds, insert, keys, remove, restore};
use crate::typer::rules::{done, Scope};
use crate::typer::suggest::suggest;
use crate::typer::types::{
    build_subst, int_target_fits, is_numeric, outcome, resolve_literal, substitute_type,
    suffixed_int_type,
};
use vstd::prelude::*;

verus! {

/// A list of types or an error, by value.
pub open spec fn list_outcome(r: Result<Vec<Type>, String>) -> Result<Seq<Ty>, Seq<char>> {
    match r {
        Ok(v) => Ok(tys(v@)),
        Err(e) => Err(e@),
    }
}

/// Bindings or an error, by value.
pub open spec fn bindings_outcome(r: Result<Vec<(String, Type)>, String>) -> Result<
    Seq<(Seq<char>, Ty)>,
    Seq<char>,
> {
    match r {
        Ok(v) => Ok(entries(v@)),
        Err(e) => Err(e@),
    }
}

/// What a function that checks statements did is what checking them gives.
pub open spec fn did(
    r: Result<(), String>,
    locals: Seq<(String, Type)>,
    st: State,
    ran: Ran,
) -> bool {
    &&& done(r) == ran.result
    &&& st@ == ran.status
    &&& r is Ok ==> entries(locals) == ran.locals
}

fn push_ty(out: &mut Vec<Type>, t: Type)
    ensures
        tys(final(out)@) == tys(old(out)@).push(t@),
        final(out)@.len() == old(out)@.len() + 1,
{
    let ghost before = tys(out@);
    out.push(t);
    assert(tys(out@) =~= before.push(t@));
}

fn no_types() -> (r: Vec<Type>)
    ensures
        tys(r@) == Seq::<Ty>::empty(),
        r@.len() == 0,
{
    let v: Vec<Type> = Vec::new();
    assert(tys(v@) =~= Seq::<Ty>::empty());
    v
}

fn no_bindings() -> (r: Vec<(String, Type)>)
    ensures
        entries(r@) == Seq::<(Seq<char>, Ty)>::empty(),
{
    let v: Vec<(String, Type)> = Vec::new();
    assert(entries(v@) =~= Seq::<(Seq<char>, Ty)>::empty());
    v
}

fn append_bindings(out: &mut Vec<(String, Type)>, more: Vec<(String, Type)>)
    ensures
        entries(final(out)@) == entries(old(out)@) + entries(more@),
{
    let ghost before = entries(out@);
    let ghost extra = entries(more@);
    let mut rest: Vec<(String, Type)> = more;
    out.append(&mut rest);
    assert(entries(out@) =~= before + extra);
}

fn require_bool(what: &str, ty: &Type) -> (r: Result<Type, String>)
    ensures
        outcome(r) == condition_ok(what@, ty@),
{
    match ty {
        Type::Bool => Ok(Type::Bool),
        _ => {
            let shown: String = ty.name();
            Err(cat3(what, " must be bool, got ", shown.as_str()))
        },
    }
}

/// Introduces the names that bindings hold.
fn bind_all(locals: &mut Vec<(String, Type)>, bs: &Vec<(String, Type)>)
    ensures
        entries(final(locals)@) == bind_upto(
            entries(old(locals)@),
            entries(bs@),
            bs@.len() as int,
        ),
{
    let ghost before = entries(locals@);
    let mut i: usize = 0;
    while i < bs.len()
        invariant
            i <= bs@.len(),
            entries(locals@) == bind_upto(before, entries(bs@), i as int),
        decreases bs.len() - i,
    {
        insert(locals, bs[i].0.as_str(), bs[i].1.clone());
        i = i + 1;
    }
}

fn show_names(locals: &Vec<(String, Type)>) -> (r: Vec<String>)
    ensures
        texts(r@) == keys(entries(locals@)),
{
    let mut out: Vec<String> = Vec::new();
    push_keys(&mut out, locals);
    assert(texts(out@) =~= keys(entries(locals@)));
    out
}

// ---------------------------------------------------------------------------
// Expressions
// ---------------------------------------------------------------------------

impl Tables {
    pub(crate) fn infer_all(
        &self,
        sc: &Scope<'_>,
        locals: &Vec<(String, Type)>,
        st: &mut State,
        args: &Vec<Expr>,
    ) -> (r: Result<Vec<Type>, String>)
        ensures
            (list_outcome(r), final(st)@) == infer_from(
                self@,
                sc@,
                entries(locals@),
                old(st)@,
                *args,
                0,
                seq![],
            ),
            r matches Ok(v) ==> v@.len() == args@.len(),
        decreases args, 0int,
    {
        let mut out: Vec<Type> = no_types();
        let mut i: usize = 0;
        let ghost want = infer_from(self@, sc@, entries(locals@), st@, *args, 0, seq![]);
        while i < args.len()
            invariant
                i <= args@.len(),
                out@.len() == i,
                want == infer_from(self@, sc@, entries(locals@), old(st)@, *args, 0, seq![]),
                want == infer_from(
                    self@,
                    sc@,
                    entries(locals@),
                    st@,
                    *args,
                    i as int,
                    tys(out@),
                ),
            decreases args.len() - i,
        {
            proof {
                assert(decreases_to!(args => args@[i as int]));
            }
            match self.infer_expr(sc, locals, st, &args[i]) {
                Ok(t) => push_ty(&mut out, t),
                Err(e) => return Err(e),
            }
            i = i + 1;
        }
        Ok(out)
    }

    fn infer_parts(
        &self,
        sc: &Scope<'_>,
        locals: &Vec<(String, Type)>,
        st: &mut State,
        parts: &Vec<InterpPart>,
    ) -> (r: Result<Type, String>)
        ensures
            (outcome(r), final(st)@) == parts_from(
                self@,
                sc@,
                entries(locals@),
                old(st)@,
                *parts,
                0,
            ),
        decreases parts, 0int,
    {
        let mut i: usize = 0;
        let ghost want = parts_from(self@, sc@, entries(locals@), st@, *parts, 0);
        while i < parts.len()
            invariant
                i <= parts@.len(),
                want == parts_from(self@, sc@, entries(locals@), old(st)@, *parts, 0),
                want == parts_from(self@, sc@, entries(locals@), st@, *parts, i as int),
            decreases parts.len() - i,
        {
            proof {
                assert(decreases_to!(parts => parts@[i as int]));
            }
            if let InterpPart::Expr(e) = &parts[i] {
                match self.infer_expr(sc, locals, st, e) {
                    Ok(_) => {},
                    Err(m) => return Err(m),
                }
            }
            i = i + 1;
        }
        Ok(Type::String)
    }

    /// Type-check construction of an enum variant, e.g. `Result.Ok(5)` or a
    /// bare `Ok(5)`. `enum_name` is the resolved sum-type/enum name.
    fn infer_enum_construction(
        &self,
        sc: &Scope<'_>,
        locals: &Vec<(String, Type)>,
        st: &mut State,
        enum_name: &str,
        variant_name: &str,
        args: &Vec<Expr>,
    ) -> (r: Result<Type, String>)
        ensures
            (outcome(r), final(st)@) == construct(
                self@,
                sc@,
                entries(locals@),
                old(st)@,
                enum_name@,
                variant_name@,
                *args,
            ),
        decreases args, 1int,
    {
        let (e, v) = match self.variant_with(enum_name, variant_name, args.len()) {
            Ok(x) => x,
            Err(m) => return Err(m),
        };
        assert(v@.fields.len() == v.fields@.len());
        let ts: Vec<Type> = match self.infer_all(sc, locals, st, args) {
            Ok(ts) => ts,
            Err(m) => return Err(m),
        };
        self.construction_type(enum_name, variant_name, e, v, &ts)
    }

    fn plain_construction(&self, enum_name: &str, variant_name: &str) -> (r: Result<Type, String>)
        ensures
            outcome(r) == construct_plain(self@, enum_name@, variant_name@),
    {
        let (e, v) = match self.variant_with(enum_name, variant_name, 0) {
            Ok(x) => x,
            Err(m) => return Err(m),
        };
        assert(v@.fields.len() == v.fields@.len());
        self.construction_type(enum_name, variant_name, e, v, &no_types())
    }

    fn check_super_args(
        &self,
        sc: &Scope<'_>,
        locals: &Vec<(String, Type)>,
        st: &mut State,
        args: &Vec<Expr>,
        method: &str,
        m: &MethodInfo,
    ) -> (r: Result<Type, String>)
        requires
            args@.len() == m.params@.len(),
        ensures
            (outcome(r), final(st)@) == super_args_from(
                self@,
                sc@,
                entries(locals@),
                old(st)@,
                *args,
                0,
                method@,
                m@,
            ),
        decreases args, 0int,
    {
        let mut i: usize = 0;
        let ghost want = super_args_from(
            self@,
            sc@,
            entries(locals@),
            st@,
            *args,
            0,
            method@,
            m@,
        );
        while i < args.len()
            invariant
                i <= args@.len(),
                args@.len() == m.params@.len(),
                want == super_args_from(
                    self@,
                    sc@,
                    entries(locals@),
                    old(st)@,
                    *args,
                    0,
                    method@,
                    m@,
                ),
                want == super_args_from(
                    self@,
                    sc@,
                    entries(locals@),
                    st@,
                    *args,
                    i as int,
                    method@,
                    m@,
                ),
            decreases args.len() - i,
        {
            proof {
                assert(decreases_to!(args => args@[i as int]));
                assert(m@.params[i as int] == m.params@[i as int]@);
            }
            let ty: Type = match self.infer_expr(sc, locals, st, &args[i]) {
                Ok(t) => t,
                Err(e) => return Err(e),
            };
            if !self.is_assignable(&m.params[i], &ty) {
                let x: String = m.params[i].name();
                let y: String = ty.name();
                return Err(
                    cat6(
                        "argument type mismatch in `",
                        method,
                        "`: expected ",
                        x.as_str(),
                        ", got ",
                        y.as_str(),
                    ),
                );
            }
            i = i + 1;
        }
        Ok(m.return_ty.clone())
    }

    fn check_updates(
        &self,
        sc: &Scope<'_>,
        locals: &Vec<(String, Type)>,
        st: &mut State,
        updates: &Vec<(String, Expr)>,
        obj_ty: &Type,
        class_name: &str,
        info: &ClassInfo,
    ) -> (r: Result<Type, String>)
        ensures
            (outcome(r), final(st)@) == updates_from(
                self@,
                sc@,
                entries(locals@),
                old(st)@,
                *updates,
                0,
                obj_ty@,
                class_name@,
                info@,
            ),
        decreases updates, 0int,
    {
        let mut i: usize = 0;
        let ghost want = updates_from(
            self@,
            sc@,
            entries(locals@),
            st@,
            *updates,
            0,
            obj_ty@,
            class_name@,
            info@,
        );
        while i < updates.len()
            invariant
                i <= updates@.len(),
                want == updates_from(
                    self@,
                    sc@,
                    entries(locals@),
                    old(st)@,
                    *updates,
                    0,
                    obj_ty@,
                    class_name@,
                    info@,
                ),
                want == updates_from(
                    self@,
                    sc@,
                    entries(locals@),
                    st@,
                    *updates,
                    i as int,
                    obj_ty@,
                    class_name@,
                    info@,
                ),
            decreases updates.len() - i,
        {
            proof {
                assert(decreases_to!(updates => updates@[i as int]));
                assert(decreases_to!(updates => updates@[i as int].1));
            }
            let field: &str = updates[i].0.as_str();
            let fty: &Type = match find(&info.instance_fields, field) {
                Some(t) => t,
                None => {
                    return Err(cat5("record `", class_name, "` has no field `", field, "`"));
                },
            };
            let ty: Type = match self.infer_expr(sc, locals, st, &updates[i].1) {
                Ok(t) => t,
                Err(e) => return Err(e),
            };
            if !self.is_assignable(fty, &ty) {
                let x: String = ty.name();
                let y: String = fty.name();
                return Err(
                    cat8(
                        "cannot assign ",
                        x.as_str(),
                        " to record field `",
                        class_name,
                        ".",
                        field,
                        "` of type ",
                        y.as_str(),
                    ),
                );
            }
            i = i + 1;
        }
        Ok(obj_ty.clone())
    }

    fn find_with_record<'a, 'b>(&'a self, obj_ty: &'b Type) -> (r: Result<
        (&'b String, &'a ClassInfo),
        String,
    >)
        ensures
            match r {
                Ok((n, c)) => with_record(self@, obj_ty@) == Ok::<
                    (Seq<char>, ClassModel),
                    Seq<char>,
                >((n@, c@)),
                Err(e) => with_record(self@, obj_ty@) == Err::<(Seq<char>, ClassModel), Seq<char>>(
                    e@,
                ),
            },
    {
        let shown: String = obj_ty.name();
        match obj_ty {
            Type::Class(class_name, _) => match find(&self.classes, class_name.as_str()) {
                None => Err(unknown_class(class_name.as_str())),
                Some(info) => {
                    if info.is_record {
                        Ok((class_name, info))
                    } else {
                        Err(cat2("`with` requires a record value, got ", shown.as_str()))
                    }
                },
            },
            _ => Err(cat2("`with` requires a record value, got ", shown.as_str())),
        }
    }

    fn check_arm(
        &self,
        sc: &Scope<'_>,
        locals: &Vec<(String, Type)>,
        st: &mut State,
        a: &MatchArm,
        subject: &Type,
    ) -> (r: Result<Type, String>)
        ensures
            (outcome(r), final(st)@) == arm(
                self@,
                sc@,
                entries(locals@),
                old(st)@,
                *a,
                subject@,
            ),
        decreases a, 1int,
    {
        let bs: Vec<(String, Type)> = match self.check_patterns(
            sc,
            locals,
            st,
            &a.patterns,
            subject,
        ) {
            Ok(bs) => bs,
            Err(m) => return Err(m),
        };
        let mut inner: Vec<(String, Type)> = clone_locals(locals);
        bind_all(&mut inner, &bs);
        if let Some(guard) = &a.guard {
            let g: Type = match self.infer_expr(sc, &inner, st, guard) {
                Ok(t) => t,
                Err(m) => return Err(m),
            };
            match require_bool("match guard", &g) {
                Ok(_) => {},
                Err(m) => return Err(m),
            }
        }
        match self.infer_expr(sc, &inner, st, &a.body) {
            Ok(t) => Ok(resolve_literal(&t)),
            Err(m) => Err(m),
        }
    }

    fn check_arms(
        &self,
        sc: &Scope<'_>,
        locals: &Vec<(String, Type)>,
        st: &mut State,
        arms: &Vec<MatchArm>,
        subject: &Type,
    ) -> (r: Result<Type, String>)
        ensures
            (outcome(r), final(st)@) == arms_from(
                self@,
                sc@,
                entries(locals@),
                old(st)@,
                *arms,
                0,
                subject@,
                None,
            ),
        decreases arms, 0int,
    {
        let mut result: Option<Type> = None;
        let mut i: usize = 0;
        let ghost want = arms_from(
            self@,
            sc@,
            entries(locals@),
            st@,
            *arms,
            0,
            subject@,
            None,
        );
        while i < arms.len()
            invariant
                i <= arms@.len(),
                want == arms_from(
                    self@,
                    sc@,
                    entries(locals@),
                    old(st)@,
                    *arms,
                    0,
                    subject@,
                    None,
                ),
                want == arms_from(
                    self@,
                    sc@,
                    entries(locals@),
                    st@,
                    *arms,
                    i as int,
                    subject@,
                    opt_ty_of(result),
                ),
            decreases arms.len() - i,
        {
            proof {
                assert(decreases_to!(arms => arms@[i as int]));
            }
            let ty: Type = match self.check_arm(sc, locals, st, &arms[i], subject) {
                Ok(t) => t,
                Err(m) => return Err(m),
            };
            match &result {
                None => {
                    result = Some(ty);
                },
                Some(expected) => {
                    if !self.is_assignable(expected, &ty) {
                        let x: String = expected.name();
                        let y: String = ty.name();
                        return Err(
                            cat4(
                                "match arms must have compatible types, expected ",
                                x.as_str(),
                                " but got ",
                                y.as_str(),
                            ),
                        );
                    }
                },
            }
            i = i + 1;
        }
        match result {
            Some(t) => Ok(t),
            None => Ok(Type::Unit),
        }
    }

    fn infer_block(
        &self,
        sc: &Scope<'_>,
        locals: &Vec<(String, Type)>,
        st: &mut State,
        stmts: &Vec<Stmt>,
    ) -> (r: Result<Type, String>)
        ensures
            (outcome(r), final(st)@) == block_from(
                self@,
                sc@,
                entries(locals@),
                old(st)@,
                *stmts,
                0,
            ),
        decreases stmts, 0int,
    {
        // Block locals are scoped to the block and do not leak out.
        let mut inner: Vec<(String, Type)> = clone_locals(locals);
        let mut i: usize = 0;
        let ghost want = block_from(self@, sc@, entries(locals@), st@, *stmts, 0);
        while i < stmts.len()
            invariant
                i <= stmts@.len(),
                want == block_from(self@, sc@, entries(locals@), old(st)@, *stmts, 0),
                want == block_from(self@, sc@, entries(inner@), st@, *stmts, i as int),
            decreases stmts.len() - i,
        {
            proof {
                assert(decreases_to!(stmts => stmts@[i as int]));
            }
            if i == stmts.len() - 1 {
                if let Stmt::Expr(e) = &stmts[i] {
                    proof {
                        assert(decreases_to!(stmts => stmts@[i as int]->Expr_0));
                    }
                    return self.infer_expr(sc, &inner, st, e);
                }
            }
            match self.check_stmt(sc, &mut inner, st, &stmts[i]) {
                Ok(_) => {},
                Err(m) => return Err(m),
            }
            i = i + 1;
        }
        Ok(Type::Unit)
    }

    /// Infer an expression's type.
    #[verifier::spinoff_prover]
    #[verifier::rlimit(100)]
    pub fn infer_expr(
        &self,
        sc: &Scope<'_>,
        locals: &Vec<(String, Type)>,
        st: &mut State,
        e: &Expr,
    ) -> (r: Result<Type, String>)
        ensures
            (outcome(r), final(st)@) == infer(self@, sc@, entries(locals@), old(st)@, *e),
        decreases e, 0int,
    {
        match e {
            Expr::IntLit(v, suffix) => suffixed_int_type(*suffix, *v),
            Expr::FloatLit(v, suffix) => match suffix {
                FloatSuffix::Plain => Ok(Type::FloatLit(*v)),
                FloatSuffix::F32 => Ok(Type::Float32),
                FloatSuffix::F64 => Ok(Type::Float64),
            },
            Expr::Cast(inner, ty) => match self.infer_expr(sc, locals, st, inner) {
                Ok(x) => cast_type(&x, ty),
                Err(m) => Err(m),
            },
            Expr::Bool(_) => Ok(Type::Bool),
            Expr::Char(_) => Ok(Type::Char),
            Expr::String(v) => Ok(Type::StringLit(v.clone())),
            Expr::InterpolatedString(parts) => self.infer_parts(sc, locals, st, parts),
            Expr::Null => Ok(Type::Class(own("null"), no_types())),
            Expr::Var(name) => self.var_type(sc, locals, name.as_str()),
            Expr::Field(obj, name) => match self.infer_expr(sc, locals, st, obj) {
                Ok(x) => self.field_type(sc, &x, name.as_str()),
                Err(m) => Err(m),
            },
            Expr::StaticField(class_name, name) => {
                if holds(&self.enums, class_name.as_str()) {
                    self.plain_construction(class_name.as_str(), name.as_str())
                } else {
                    self.static_member_type(sc, class_name.as_str(), name.as_str(), false)
                }
            },
            Expr::Hole => Err(
                own(
                    "type hole: the expected type cannot be determined at this position; use `_` where a typed value is expected (an initializer, argument, or return value)",
                ),
            ),
            Expr::Is(subject, ty, _) => match self.infer_expr(sc, locals, st, subject) {
                Ok(x) => self.is_test_type(&x, ty),
                Err(m) => Err(m),
            },
            Expr::Binary(op, left, right) => {
                if matches!(op, BinOp::And | BinOp::Or) {
                    let lt: Type = match self.infer_expr(sc, locals, st, left) {
                        Ok(t) => t,
                        Err(m) => return Err(m),
                    };
                    if !matches!(lt, Type::Bool) {
                        return Err(own("logical operators require booleans"));
                    }
                    let fs: Vec<GuardFact> = condition_facts(
                        left,
                        locals,
                        matches!(op, BinOp::And),
                    );
                    let mut rhs: Vec<(String, Type)> = clone_locals(locals);
                    apply_fact_types(&fs, &mut rhs);
                    let rt: Type = match self.infer_expr(sc, &rhs, st, right) {
                        Ok(t) => t,
                        Err(m) => return Err(m),
                    };
                    if !matches!(rt, Type::Bool) {
                        return Err(own("logical operators require booleans"));
                    }
                    return Ok(Type::Bool);
                }
                let lt: Type = match self.infer_expr(sc, locals, st, left) {
                    Ok(t) => t,
                    Err(m) => return Err(m),
                };
                let rt: Type = match self.infer_expr(sc, locals, st, right) {
                    Ok(t) => t,
                    Err(m) => return Err(m),
                };
                self.binary_type(sc, *op, &lt, &rt)
            },
            Expr::Unary(op, operand) => match op {
                UnaryOp::Neg => match &**operand {
                    Expr::IntLit(v, suffix) => {
                        if *v == i64::MIN {
                            let shown: String = dec_i64(*v);
                            return Err(
                                cat3("integer literal ", shown.as_str(), " is too small to negate"),
                            );
                        }
                        suffixed_int_type(*suffix, -*v)
                    },
                    Expr::FloatLit(v, suffix) => match suffix {
                        FloatSuffix::Plain => Ok(Type::FloatLit(float_neg(*v))),
                        FloatSuffix::F32 => Ok(Type::Float32),
                        FloatSuffix::F64 => Ok(Type::Float64),
                    },
                    _ => match self.infer_expr(sc, locals, st, operand) {
                        Ok(x) => {
                            if is_numeric(&x) {
                                Ok(x)
                            } else {
                                let shown: String = x.name();
                                Err(cat2("cannot negate ", shown.as_str()))
                            }
                        },
                        Err(m) => Err(m),
                    },
                },
                UnaryOp::Not => match self.infer_expr(sc, locals, st, operand) {
                    Ok(x) => {
                        if matches!(x, Type::Bool) {
                            Ok(Type::Bool)
                        } else {
                            Err(own("`!` requires bool"))
                        }
                    },
                    Err(m) => Err(m),
                },
            },
            Expr::Call(call) => self.check_call(sc, locals, st, call, false),
            Expr::Lambda { params, body } => self.check_lambda(
                sc,
                locals,
                st,
                params,
                body,
                None,
                None,
            ),
            Expr::Await(inner) => {
                if !sc.is_async {
                    return Err(own("`await` is only allowed inside `async` methods"));
                }
                match self.infer_expr(sc, locals, st, inner) {
                    Ok(x) => await_type(&x),
                    Err(m) => Err(m),
                }
            },
            Expr::New(class_name, written, args) => {
                let c: &ClassInfo = match self.find_new_class(sc, class_name.as_str()) {
                    Ok(c) => c,
                    Err(m) => return Err(m),
                };
                match self.infer_all(sc, locals, st, args) {
                    Ok(ts) => self.new_type(sc, c, class_name.as_str(), written, &ts),
                    Err(m) => Err(m),
                }
            },
            Expr::Ternary(cond, a, b) => {
                let c: Type = match self.infer_expr(sc, locals, st, cond) {
                    Ok(t) => t,
                    Err(m) => return Err(m),
                };
                match require_bool("ternary condition", &c) {
                    Ok(_) => {},
                    Err(m) => return Err(m),
                }
                let x: Type = match self.infer_expr(sc, locals, st, a) {
                    Ok(t) => t,
                    Err(m) => return Err(m),
                };
                let y: Type = match self.infer_expr(sc, locals, st, b) {
                    Ok(t) => t,
                    Err(m) => return Err(m),
                };
                self.ternary_type(&x, &y)
            },
            Expr::NonNullAssert(inner) => match self.infer_expr(sc, locals, st, inner) {
                Ok(x) => Ok(non_nullable(x)),
                Err(m) => Err(m),
            },
            Expr::NullCoalesce(a, b) => {
                let x: Type = match self.infer_expr(sc, locals, st, a) {
                    Ok(t) => t,
                    Err(m) => return Err(m),
                };
                let y: Type = match self.infer_expr(sc, locals, st, b) {
                    Ok(t) => t,
                    Err(m) => return Err(m),
                };
                self.coalesce_type(&x, &y)
            },
            Expr::NullConditionalField(obj, name) => match self.infer_expr(sc, locals, st, obj) {
                Ok(x) => self.null_field_type(sc, x, name.as_str()),
                Err(m) => Err(m),
            },
            Expr::NullConditionalCall(call) => match self.check_call(sc, locals, st, call, true) {
                Ok(x) => Ok(null_call_type(x)),
                Err(m) => Err(m),
            },
            Expr::Match(subject, arms) => match self.infer_expr(sc, locals, st, subject) {
                Ok(x) => self.check_arms(sc, locals, st, arms, &x),
                Err(m) => Err(m),
            },
            Expr::EnumVariant(enum_name, variant_name, args) => self.infer_enum_construction(
                sc,
                locals,
                st,
                enum_name.as_str(),
                variant_name.as_str(),
                args,
            ),
            Expr::Tuple(elements) => match self.infer_all(sc, locals, st, elements) {
                Ok(ts) => Ok(Type::Tuple(ts)),
                Err(m) => Err(m),
            },
            Expr::TupleIndex(tuple, idx) => match self.infer_expr(sc, locals, st, tuple) {
                Ok(x) => component_type(&x, *idx),
                Err(m) => Err(m),
            },
            Expr::Range(a, b, _) => {
                let x: Type = match self.infer_expr(sc, locals, st, a) {
                    Ok(t) => t,
                    Err(m) => return Err(m),
                };
                let y: Type = match self.infer_expr(sc, locals, st, b) {
                    Ok(t) => t,
                    Err(m) => return Err(m),
                };
                range_type(&x, &y)
            },
            Expr::SuperCall(method, args) => {
                let m: &MethodInfo = match self.find_super_callee(sc, method.as_str(), args.len()) {
                    Ok(m) => m,
                    Err(e) => return Err(e),
                };
                assert(tys(m.params@).len() == m.params@.len());
                self.check_super_args(sc, locals, st, args, method.as_str(), m)
            },
            Expr::SuperField(name) => self.super_member_type(sc, name.as_str(), false),
            Expr::With(obj, updates) => {
                let x: Type = match self.infer_expr(sc, locals, st, obj) {
                    Ok(t) => t,
                    Err(m) => return Err(m),
                };
                let (class_name, info) = match self.find_with_record(&x) {
                    Ok(c) => c,
                    Err(m) => return Err(m),
                };
                self.check_updates(sc, locals, st, updates, &x, class_name.as_str(), info)
            },
            Expr::Block(stmts) => self.infer_block(sc, locals, st, stmts),
            Expr::TryUnwrap(inner) => match self.infer_expr(sc, locals, st, inner) {
                Ok(x) => self.try_unwrap_type(sc, &x),
                Err(m) => Err(m),
            },
        }
    }

    /// Infer an expression's type with an expected type. Lambdas
    /// are the only target-typed expressions: their parameter and return
    /// types come from the expected `Func<...>` when not annotated.
    fn infer_expr_expecting(
        &self,
        sc: &Scope<'_>,
        locals: &Vec<(String, Type)>,
        st: &mut State,
        e: &Expr,
        expected: &Type,
    ) -> (r: Result<Type, String>)
        ensures
            (outcome(r), final(st)@) == infer_expecting(
                self@,
                sc@,
                entries(locals@),
                old(st)@,
                *e,
                expected@,
            ),
        decreases e, 1int,
    {
        if let Expr::Lambda { params, body } = e {
            return self.check_lambda(sc, locals, st, params, body, Some(expected), None);
        }
        self.infer_expr(sc, locals, st, e)
    }
}

// ---------------------------------------------------------------------------
// Lambdas
// ---------------------------------------------------------------------------

/// Optional references to types, by value.
pub open spec fn opt_ref_ty(t: Option<&Type>) -> Option<Ty> {
    match t {
        Some(x) => Some(x@),
        None => None,
    }
}

/// Optional lists of names, by value.
pub open spec fn opt_names(v: Option<&Vec<String>>) -> Option<Seq<Seq<char>>> {
    match v {
        Some(x) => Some(texts(x@)),
        None => None,
    }
}

/// An expected function type, by value.
pub open spec fn opt_func(f: Option<(&Vec<Type>, &Type)>) -> Option<(Seq<Ty>, Ty)> {
    match f {
        Some((ps, r)) => Some((tys(ps@), r@)),
        None => None,
    }
}

fn find_expected_func<'a>(expected: Option<&'a Type>) -> (r: Option<(&'a Vec<Type>, &'a Type)>)
    ensures
        opt_func(r) == expected_func(opt_ref_ty(expected)),
{
    match expected {
        Some(t) => match t {
            Type::Func(ps, ret) => {
                assert(t@ == Ty::Func(tys(ps@), Box::new(ret@)));
                Some((ps, &**ret))
            },
            Type::Nullable(inner) => {
                assert(t@ == Ty::Nullable(Box::new(inner@)));
                match &**inner {
                    Type::Func(ps, ret) => Some((ps, &**ret)),
                    _ => None,
                }
            },
            _ => None,
        },
        None => None,
    }
}

fn find_body_expr<'a>(body: &'a Vec<Stmt>) -> (r: Option<&'a Expr>)
    ensures
        match r {
            Some(e) => body_expr(*body) == Some(*e),
            None => body_expr(*body) is None,
        },
{
    if body.len() != 1 {
        return None;
    }
    match &body[0] {
        Stmt::Return(v) => match v {
            Some(e) => Some(e),
            None => None,
        },
        _ => None,
    }
}

fn find_captured(names: &Vec<String>, mine: &Vec<String>, locals: &Vec<(String, Type)>) -> (r:
    Option<String>)
    ensures
        opt_name_of(r) == captured(texts(names@), 0, texts(mine@), entries(locals@)),
{
    let mut i: usize = 0;
    while i < names.len()
        invariant
            i <= names@.len(),
            captured(texts(names@), 0, texts(mine@), entries(locals@)) == captured(
                texts(names@),
                i as int,
                texts(mine@),
                entries(locals@),
            ),
        decreases names.len() - i,
    {
        if !has_text(mine, names[i].as_str()) && holds(locals, names[i].as_str()) {
            return Some(names[i].clone());
        }
        i = i + 1;
    }
    None
}

fn names_of_params(params: &Vec<(String, Option<Type>)>) -> (r: Vec<String>)
    ensures
        texts(r@) == lambda_names(params@),
{
    let mut out: Vec<String> = Vec::new();
    let mut i: usize = 0;
    while i < params.len()
        invariant
            i <= params@.len(),
            out@.len() == i,
            forall|j: int| 0 <= j < i ==> (#[trigger] out@[j])@ == params@[j].0@,
        decreases params.len() - i,
    {
        out.push(params[i].0.clone());
        i = i + 1;
    }
    assert(texts(out@) =~= lambda_names(params@));
    out
}

fn is_open_in(ty: &Type, vars: Option<&Vec<String>>) -> (r: bool)
    ensures
        r == is_open(ty@, opt_names(vars)),
{
    match vars {
        None => false,
        Some(vs) => {
            let mut one: Vec<Type> = no_types();
            push_ty(&mut one, ty.clone());
            assert(tys(one@) =~= seq![ty@]);
            any_mentions_var(&one, vs)
        },
    }
}

impl Tables {
    fn lambda_param_types(
        &self,
        sc: &Scope<'_>,
        params: &Vec<(String, Option<Type>)>,
        exp: Option<(&Vec<Type>, &Type)>,
    ) -> (r: Result<Vec<Type>, String>)
        requires
            exp matches Some((ps, _)) ==> ps@.len() == params@.len(),
        ensures
            list_outcome(r) == lambda_params_from(
                self@,
                sc@,
                params@,
                0,
                opt_func(exp),
                seq![],
            ),
            r matches Ok(v) ==> v@.len() == params@.len(),
    {
        let mut out: Vec<Type> = no_types();
        let mut i: usize = 0;
        let ghost want = lambda_params_from(self@, sc@, params@, 0, opt_func(exp), seq![]);
        while i < params.len()
            invariant
                i <= params@.len(),
                out@.len() == i,
                exp matches Some((ps, _)) ==> ps@.len() == params@.len(),
                want == lambda_params_from(self@, sc@, params@, 0, opt_func(exp), seq![]),
                want == lambda_params_from(
                    self@,
                    sc@,
                    params@,
                    i as int,
                    opt_func(exp),
                    tys(out@),
                ),
            decreases params.len() - i,
        {
            let name: &str = params[i].0.as_str();
            let ty: Type = match &params[i].1 {
                Some(t) => t.clone(),
                None => match exp {
                    Some((ps, _)) => {
                        assert(tys(ps@)[i as int] == ps@[i as int]@);
                        ps[i].clone()
                    },
                    None => {
                        return Err(
                            cat5(
                                "cannot infer the type of lambda parameter `",
                                name,
                                "`: annotate it (`(int ",
                                name,
                                ") => ...`) or give the lambda a Func<...> target type",
                            ),
                        );
                    },
                },
            };
            match self.validate_type_with_generics(&ty, sc.generics) {
                Ok(_) => {},
                Err(m) => return Err(m),
            }
            push_ty(&mut out, ty);
            i = i + 1;
        }
        Ok(out)
    }

    /// Type-check a lambda. Parameter types come from annotations or the
    /// expected `Func<...>`; the body is checked against the expected
    /// return type. Without a target type the lambda must annotate every
    /// parameter and have an expression body (its return type is then
    /// inferred). Captured outer locals are read-only (by-value capture).
    ///
    /// `open_vars` are still-unbound method type parameters: an expected return
    /// type mentioning one is treated as open, and the lambda's body determines
    /// it (expression bodies only) — the flow where `transform(21, x => x * 2)`
    /// binds `T2` from the lambda's result.
    #[verifier::rlimit(50)]
    fn check_lambda(
        &self,
        sc: &Scope<'_>,
        locals: &Vec<(String, Type)>,
        st: &mut State,
        params: &Vec<(String, Option<Type>)>,
        body: &Vec<Stmt>,
        expected: Option<&Type>,
        open_vars: Option<&Vec<String>>,
    ) -> (r: Result<Type, String>)
        ensures
            (outcome(r), final(st)@) == lambda(
                self@,
                sc@,
                entries(locals@),
                old(st)@,
                *params,
                *body,
                opt_ref_ty(expected),
                opt_names(open_vars),
            ),
        decreases body, 2int,
    {
        let exp: Option<(&Vec<Type>, &Type)> = find_expected_func(expected);
        if let Some((ps, _)) = exp {
            assert(tys(ps@).len() == ps@.len());
            if ps.len() != params.len() {
                let have: String = dec_u64(params.len() as u64);
                let want: String = dec_u64(ps.len() as u64);
                let shown: String = match expected {
                    Some(t) => t.name(),
                    None => own(""),
                };
                return Err(
                    cat6(
                        "lambda has ",
                        have.as_str(),
                        " parameter(s) but ",
                        shown.as_str(),
                        " takes ",
                        want.as_str(),
                    ),
                );
            }
        }
        let ptys: Vec<Type> = match self.lambda_param_types(sc, params, exp) {
            Ok(v) => v,
            Err(m) => return Err(m),
        };
        // By-value capture: assigning to a captured outer local inside the
        // body would silently not affect the original — reject it.
        let names: Vec<String> = names_of_params(params);
        let mut mine: Vec<String> = names_of_params(params);
        collect_declared_names(body, &mut mine);
        let mut assigned: Vec<String> = Vec::new();
        collect_assigned_locals(body, &mut assigned);
        assert(texts(assigned@) =~= assigned_by(*body));
        if let Some(name) = find_captured(&assigned, &mine, locals) {
            return Err(
                cat3(
                    "lambda captures `",
                    name.as_str(),
                    "` by value; assigning to it inside the lambda would not affect the outer variable",
                ),
            );
        }
        let mut inner: Vec<(String, Type)> = clone_locals(locals);
        let mut i: usize = 0;
        while i < params.len()
            invariant
                i <= params@.len(),
                ptys@.len() == params@.len(),
                texts(names@) == lambda_names(params@),
                names@.len() == params@.len(),
                entries(inner@) == lambda_locals(
                    entries(locals@),
                    lambda_names(params@),
                    tys(ptys@),
                    i as int,
                ),
            decreases params.len() - i,
        {
            assert(tys(ptys@)[i as int] == ptys@[i as int]@);
            assert(lambda_names(params@)[i as int] == params@[i as int].0@);
            insert(&mut inner, params[i].0.as_str(), ptys[i].clone());
            i = i + 1;
        }
        let mut fresh: State = State { narrowed: no_bindings(), line: st.line };
        let result: Result<Type, String> = self.check_lambda_body(
            sc,
            &inner,
            &mut fresh,
            body,
            ptys,
            exp,
            open_vars,
        );
        st.line = fresh.line;
        result
    }

    fn check_lambda_body(
        &self,
        sc: &Scope<'_>,
        locals: &Vec<(String, Type)>,
        st: &mut State,
        body: &Vec<Stmt>,
        ptys: Vec<Type>,
        exp: Option<(&Vec<Type>, &Type)>,
        open_vars: Option<&Vec<String>>,
    ) -> (r: Result<Type, String>)
        ensures
            (outcome(r), final(st)@) == lambda_body(
                self@,
                sc@,
                entries(locals@),
                old(st)@,
                *body,
                tys(ptys@),
                opt_func(exp),
                opt_names(open_vars),
            ),
        decreases body, 1int,
    {
        if let Some((_, ret)) = exp {
            if !is_open_in(ret, open_vars) {
                let inner: Scope<'_> = Scope {
                    class: sc.class,
                    in_instance: sc.in_instance,
                    return_ty: ret,
                    generics: sc.generics,
                    throws: sc.throws,
                    handled: sc.handled,
                    is_async: false,
                };
                assert(inner@ == lambda_scope(sc@, ret@));
                if matches!(ret, Type::Unit) {
                    if let Some(e) = find_body_expr(body) {
                        proof {
                            assert(decreases_to!(body => body@[0]));
                            assert(decreases_to!(body => *e));
                        }
                        return match self.infer_expr(&inner, locals, st, e) {
                            Ok(_) => Ok(Type::Func(ptys, Box::new(Type::Unit))),
                            Err(m) => Err(m),
                        };
                    }
                }
                let mut mine: Vec<(String, Type)> = clone_locals(locals);
                return match self.check_stmts(&inner, &mut mine, st, body) {
                    Ok(_) => Ok(Type::Func(ptys, Box::new(ret.clone()))),
                    Err(m) => Err(m),
                };
            }
        }
        match find_body_expr(body) {
            Some(e) => {
                proof {
                    assert(decreases_to!(body => body@[0]));
                    assert(decreases_to!(body => *e));
                }
                let unit: Type = Type::Unit;
                let inner: Scope<'_> = Scope {
                    class: sc.class,
                    in_instance: sc.in_instance,
                    return_ty: &unit,
                    generics: sc.generics,
                    throws: sc.throws,
                    handled: sc.handled,
                    is_async: false,
                };
                assert(inner@ == lambda_scope(sc@, Ty::Unit));
                match self.infer_expr(&inner, locals, st, e) {
                    Ok(x) => Ok(Type::Func(ptys, Box::new(resolve_literal(&x)))),
                    Err(m) => Err(m),
                }
            },
            None => Err(
                own(
                    "a block-bodied lambda needs a target type: assign it to a Func<...>/Action<...> variable or pass it to a typed parameter",
                ),
            ),
        }
    }
}

// ---------------------------------------------------------------------------
// Calls
// ---------------------------------------------------------------------------

/// Slots or an error, by value.
pub open spec fn slots_outcome(r: Result<Vec<Option<Type>>, String>) -> Result<
    Seq<Option<Ty>>,
    Seq<char>,
> {
    match r {
        Ok(v) => Ok(slots_of(v@)),
        Err(e) => Err(e@),
    }
}

fn find_hole(args: &Vec<Expr>) -> (r: usize)
    ensures
        r == hole_at(args@, 0),
        r <= args@.len(),
{
    let mut i: usize = 0;
    while i < args.len()
        invariant
            i <= args@.len(),
            hole_at(args@, 0) == hole_at(args@, i as int),
        decreases args.len() - i,
    {
        if matches!(&args[i], Expr::Hole) {
            return i;
        }
        i = i + 1;
    }
    i
}

impl Tables {
    fn infer_known(
        &self,
        sc: &Scope<'_>,
        locals: &Vec<(String, Type)>,
        st: &mut State,
        args: &Vec<Expr>,
    ) -> (r: Result<Vec<Option<Type>>, String>)
        ensures
            (slots_outcome(r), final(st)@) == known_from(
                self@,
                sc@,
                entries(locals@),
                old(st)@,
                *args,
                0,
                seq![],
            ),
            r matches Ok(v) ==> v@.len() == args@.len() && forall|i: int|
                0 <= i < v@.len() ==> ((#[trigger] v@[i]) is None <==> args@[i] is Lambda),
        decreases args, 0int,
    {
        let mut out: Vec<Option<Type>> = Vec::new();
        assert(slots_of(out@) =~= seq![]);
        let mut i: usize = 0;
        let ghost want = known_from(self@, sc@, entries(locals@), st@, *args, 0, seq![]);
        while i < args.len()
            invariant
                i <= args@.len(),
                out@.len() == i,
                forall|j: int|
                    0 <= j < i ==> ((#[trigger] out@[j]) is None <==> args@[j] is Lambda),
                want == known_from(self@, sc@, entries(locals@), old(st)@, *args, 0, seq![]),
                want == known_from(
                    self@,
                    sc@,
                    entries(locals@),
                    st@,
                    *args,
                    i as int,
                    slots_of(out@),
                ),
            decreases args.len() - i,
        {
            proof {
                assert(decreases_to!(args => args@[i as int]));
            }
            let ghost before = slots_of(out@);
            if matches!(&args[i], Expr::Lambda { .. }) {
                out.push(None);
                assert(slots_of(out@) =~= before.push(None));
            } else {
                let t: Type = match self.infer_expr(sc, locals, st, &args[i]) {
                    Ok(t) => t,
                    Err(m) => return Err(m),
                };
                out.push(Some(t));
                assert(slots_of(out@) =~= before.push(Some(t@)));
            }
            i = i + 1;
        }
        Ok(out)
    }

    #[verifier::rlimit(30)]
    fn infer_lambdas(
        &self,
        sc: &Scope<'_>,
        locals: &Vec<(String, Type)>,
        st: &mut State,
        args: &Vec<Expr>,
        known: &Vec<Option<Type>>,
        m: &MethodInfo,
        pre: &Vec<(String, Type)>,
    ) -> (r: Result<Vec<Type>, String>)
        requires
            args@.len() == m.params@.len(),
            known@.len() == args@.len(),
            forall|i: int|
                0 <= i < known@.len() ==> ((#[trigger] known@[i]) is None <==> args@[i] is Lambda),
        ensures
            (list_outcome(r), final(st)@) == lambdas_from(
                self@,
                sc@,
                entries(locals@),
                old(st)@,
                *args,
                0,
                slots_of(known@),
                m@,
                entries(pre@),
                seq![],
            ),
            r matches Ok(v) ==> v@.len() == args@.len(),
        decreases args, 0int,
    {
        let vars: Vec<String> = names_of(&m.generic_params);
        let mut out: Vec<Type> = no_types();
        let mut i: usize = 0;
        let ghost ks = slots_of(known@);
        let ghost want = lambdas_from(
            self@,
            sc@,
            entries(locals@),
            st@,
            *args,
            0,
            ks,
            m@,
            entries(pre@),
            seq![],
        );
        while i < args.len()
            invariant
                i <= args@.len(),
                out@.len() == i,
                args@.len() == m.params@.len(),
                known@.len() == args@.len(),
                ks == slots_of(known@),
                texts(vars@) == param_names(m@.generics),
                forall|j: int|
                    0 <= j < known@.len() ==> ((#[trigger] known@[j]) is None <==> args@[j] is Lambda),
                want == lambdas_from(
                    self@,
                    sc@,
                    entries(locals@),
                    old(st)@,
                    *args,
                    0,
                    ks,
                    m@,
                    entries(pre@),
                    seq![],
                ),
                want == lambdas_from(
                    self@,
                    sc@,
                    entries(locals@),
                    st@,
                    *args,
                    i as int,
                    ks,
                    m@,
                    entries(pre@),
                    tys(out@),
                ),
            decreases args.len() - i,
        {
            proof {
                assert(decreases_to!(args => args@[i as int]));
                assert(m@.params[i as int] == m.params@[i as int]@);
            }
            match &known[i] {
                Some(t) => {
                    assert(ks[i as int] == Some(t@));
                    push_ty(&mut out, t.clone());
                },
                None => {
                    assert(ks[i as int] is None);
                    if let Expr::Lambda { params, body } = &args[i] {
                        proof {
                            assert(decreases_to!(args => *body));
                        }
                        let pty: Type = substitute_type(&m.params[i], pre);
                        let r: Result<Type, String> = if is_lambda_resolved(&pty, &vars) {
                            self.check_lambda(
                                sc,
                                locals,
                                st,
                                params,
                                body,
                                Some(&pty),
                                Some(&vars),
                            )
                        } else {
                            self.check_lambda(sc, locals, st, params, body, None, None)
                        };
                        match r {
                            Ok(t) => push_ty(&mut out, t),
                            Err(e) => return Err(e),
                        }
                    }
                },
            }
            i = i + 1;
        }
        Ok(out)
    }

    /// Check the arguments of a call. Two-pass argument typing: non-lambda
    /// arguments first, whose types partially bind the method's type
    /// parameters; lambda arguments are then target-typed by the partially
    /// substituted parameter — their own parameter types must be resolved,
    /// while an open return type is determined by the body
    /// (`transform(21, x => x * 2)` binds T1 from 21, then T2 from the body).
    fn check_call_args(
        &self,
        sc: &Scope<'_>,
        locals: &Vec<(String, Type)>,
        st: &mut State,
        args: &Vec<Expr>,
        method: &str,
        m: &MethodInfo,
        subst: &Vec<(String, Type)>,
    ) -> (r: Result<Type, String>)
        ensures
            (outcome(r), final(st)@) == call_args(
                self@,
                sc@,
                entries(locals@),
                old(st)@,
                *args,
                method@,
                m@,
                entries(subst@),
            ),
        decreases args, 2int,
    {
        assert(tys(m.params@).len() == m.params@.len());
        if args.len() != m.params.len() {
            let want: String = dec_u64(m.params.len() as u64);
            let got: String = dec_u64(args.len() as u64);
            return Err(
                cat6(
                    "method `",
                    method,
                    "` expects ",
                    want.as_str(),
                    " arguments, got ",
                    got.as_str(),
                ),
            );
        }
        let h: usize = find_hole(args);
        if h < args.len() {
            assert(m@.params[h as int] == m.params@[h as int]@);
            let expected: Type = substitute_type(&m.params[h], subst);
            return Err(self.hole_error(&expected, locals));
        }
        let known: Vec<Option<Type>> = match self.infer_known(sc, locals, st, args) {
            Ok(k) => k,
            Err(e) => return Err(e),
        };
        let pre: Vec<(String, Type)> = find_lambda_subst(m, subst, &known);
        let ts: Vec<Type> = match self.infer_lambdas(sc, locals, st, args, &known, m, &pre) {
            Ok(ts) => ts,
            Err(e) => return Err(e),
        };
        self.call_type(method, m, subst, &ts)
    }

    fn finish(
        &self,
        sc: &Scope<'_>,
        locals: &Vec<(String, Type)>,
        st: &mut State,
        args: &Vec<Expr>,
        method: &str,
        callee: Result<Callee, String>,
    ) -> (r: Result<Type, String>)
        ensures
            (outcome(r), final(st)@) == finish_call(
                self@,
                sc@,
                entries(locals@),
                old(st)@,
                *args,
                method@,
                reached(callee),
            ),
        decreases args, 3int,
    {
        let c: Callee = match callee {
            Ok(c) => c,
            Err(e) => return Err(e),
        };
        match self.require_throws_handled(sc, &c.method, c.label.as_str()) {
            Ok(_) => {},
            Err(e) => return Err(e),
        }
        self.check_call_args(sc, locals, st, args, method, &c.method, &c.subst)
    }

    fn check_func_args(
        &self,
        sc: &Scope<'_>,
        locals: &Vec<(String, Type)>,
        st: &mut State,
        args: &Vec<Expr>,
        name: &str,
        ps: &Vec<Type>,
        ret: &Type,
    ) -> (r: Result<Type, String>)
        requires
            args@.len() == ps@.len(),
        ensures
            (outcome(r), final(st)@) == func_args_from(
                self@,
                sc@,
                entries(locals@),
                old(st)@,
                *args,
                0,
                name@,
                tys(ps@),
                ret@,
            ),
        decreases args, 0int,
    {
        let mut i: usize = 0;
        let ghost want = func_args_from(
            self@,
            sc@,
            entries(locals@),
            st@,
            *args,
            0,
            name@,
            tys(ps@),
            ret@,
        );
        while i < args.len()
            invariant
                i <= args@.len(),
                args@.len() == ps@.len(),
                want == func_args_from(
                    self@,
                    sc@,
                    entries(locals@),
                    old(st)@,
                    *args,
                    0,
                    name@,
                    tys(ps@),
                    ret@,
                ),
                want == func_args_from(
                    self@,
                    sc@,
                    entries(locals@),
                    st@,
                    *args,
                    i as int,
                    name@,
                    tys(ps@),
                    ret@,
                ),
            decreases args.len() - i,
        {
            proof {
                assert(decreases_to!(args => args@[i as int]));
                assert(tys(ps@)[i as int] == ps@[i as int]@);
            }
            if matches!(&args[i], Expr::Hole) {
                return Err(self.hole_error(&ps[i], locals));
            }
            let ty: Type = match self.infer_expr_expecting(sc, locals, st, &args[i], &ps[i]) {
                Ok(t) => t,
                Err(e) => return Err(e),
            };
            if !self.is_assignable(&ps[i], &ty) {
                let x: String = ty.name();
                let y: String = ps[i].name();
                let base: String = cat7(
                    "argument of type ",
                    x.as_str(),
                    " does not fit parameter of type ",
                    y.as_str(),
                    " in call to `",
                    name,
                    "`",
                );
                return Err(self.mismatch_error(base, &ps[i], &ty));
            }
            i = i + 1;
        }
        Ok(ret.clone())
    }

    fn newtype_type(&self, method: &str, underlying: &Type, x: &Type) -> (r: Result<Type, String>)
        ensures
            outcome(r) == newtype_ty(self@, method@, underlying@, x@),
    {
        if !self.is_assignable(underlying, x) {
            let a: String = x.name();
            let b: String = underlying.name();
            return Err(
                cat6("cannot construct ", method, "(", a.as_str(), "): expected ", b.as_str()),
            );
        }
        Ok(Type::Newtype(own(method), Box::new(underlying.clone())))
    }

    fn find_own_static(&self, sc: &Scope<'_>, class_name: &str, method: &str) -> (r: Result<
        Callee,
        String,
    >)
        ensures
            reached(r) == own_static(self@, sc@, class_name@, method@),
    {
        if let Some((d, m)) = self.find_static_method(sc.class.name.as_str(), method) {
            if self.can_access(sc.class.name.as_str(), d, m.visibility) {
                return Ok(
                    Callee {
                        label: cat3(d, ".", method),
                        method: m.clone(),
                        subst: no_bindings(),
                    },
                );
            }
        }
        Err(unknown_class(class_name))
    }

    #[verifier::rlimit(50)]
    fn check_bare_call(
        &self,
        sc: &Scope<'_>,
        locals: &Vec<(String, Type)>,
        st: &mut State,
        class_name: &str,
        method: &str,
        args: &Vec<Expr>,
    ) -> (r: Result<Type, String>)
        ensures
            (outcome(r), final(st)@) == bare_call(
                self@,
                sc@,
                entries(locals@),
                old(st)@,
                class_name@,
                method@,
                *args,
            ),
        decreases args, 4int,
    {
        // Calling a function-typed local: `f(2)`. Locals shadow class
        // and method names.
        if let Some(local) = find(locals, class_name) {
            match local {
                Type::Func(ps, ret) => {
                    assert(tys(ps@).len() == ps@.len());
                    if args.len() != ps.len() {
                        let want: String = dec_u64(ps.len() as u64);
                        let got: String = dec_u64(args.len() as u64);
                        return Err(
                            cat6(
                                "`",
                                class_name,
                                "` takes ",
                                want.as_str(),
                                " argument(s), got ",
                                got.as_str(),
                            ),
                        );
                    }
                    return self.check_func_args(sc, locals, st, args, class_name, ps, ret);
                },
                Type::Nullable(inner) => {
                    assert(local@ == Ty::Nullable(Box::new(inner@)));
                    if matches!(&**inner, Type::Func(_, _)) {
                        let shown: String = local.name();
                        return Err(
                            cat5(
                                "`",
                                class_name,
                                "` may be null (type ",
                                shown.as_str(),
                                "): narrow it before calling",
                            ),
                        );
                    }
                },
                _ => {},
            }
        }
        if holds(&self.enums, class_name) {
            return self.infer_enum_construction(sc, locals, st, class_name, method, args);
        }
        if holds(&self.classes, class_name) {
            let callee: Result<Callee, String> = self.find_static_callee(
                sc,
                class_name,
                method,
                false,
            );
            return self.finish(sc, locals, st, args, method, callee);
        }
        // Bare variant construction: `Ok(5)` where `Ok` is a sum-type
        // variant. Only attempted when a matching variant exists, so
        // unknown-class errors keep their usual message.
        if self.declares_variant(method) {
            let p: usize = match self.resolve_bare_variant(method) {
                Ok(p) => p,
                Err(e) => return Err(e),
            };
            return self.infer_enum_construction(
                sc,
                locals,
                st,
                self.enums[p].0.as_str(),
                method,
                args,
            );
        }
        // Newtype constructor: `UserId(expr)` wraps a value of the
        // underlying type. Purely a compile-time conversion.
        if let Some(underlying) = find(&self.newtypes, method) {
            if args.len() != 1 {
                let got: String = dec_u64(args.len() as u64);
                return Err(
                    cat4(
                        "newtype constructor `",
                        method,
                        "` expects 1 argument, got ",
                        got.as_str(),
                    ),
                );
            }
            proof {
                assert(decreases_to!(args => args@[0]));
            }
            let x: Type = match self.infer_expr(sc, locals, st, &args[0]) {
                Ok(t) => t,
                Err(e) => return Err(e),
            };
            return self.newtype_type(method, underlying, &x);
        }
        // Bare static method call: `safeDivide(a, b)` resolves to a
        // static method of the current class.
        let callee: Result<Callee, String> = self.find_own_static(sc, class_name, method);
        self.finish(sc, locals, st, args, method, callee)
    }

    /// Check a call.
    #[verifier::rlimit(50)]
    fn check_call(
        &self,
        sc: &Scope<'_>,
        locals: &Vec<(String, Type)>,
        st: &mut State,
        call: &CallExpr,
        nullable_receiver: bool,
    ) -> (r: Result<Type, String>)
        ensures
            (outcome(r), final(st)@) == call_of(
                self@,
                sc@,
                entries(locals@),
                old(st)@,
                *call,
                nullable_receiver,
            ),
        decreases call, 0int,
    {
        let method: &str = call.method.as_str();
        let class_name: &str = call.class_or_target.as_str();
        let args: &Vec<Expr> = &call.args;
        if same(class_name, "__intrinsics") {
            if same(method, "print") {
                if args.len() != 1 {
                    return Err(own("print expects 1 argument"));
                }
                proof {
                    assert(decreases_to!(args => args@[0]));
                    assert(decreases_to!(call => call.args@[0]));
                }
                return match self.infer_expr(sc, locals, st, &args[0]) {
                    Ok(_) => Ok(Type::Unit),
                    Err(e) => Err(e),
                };
            }
            if same(method, "println") {
                if args.len() != 0 {
                    return Err(own("println expects 0 arguments"));
                }
                return Ok(Type::Unit);
            }
        }
        let target: &Expr = match &call.target {
            Some(t) => &**t,
            None => {
                return self.check_bare_call(sc, locals, st, class_name, method, args);
            },
        };
        if let Expr::Var(n) = target {
            if same(n.as_str(), "super") {
                return Err(own("`super` in static method"));
            }
            if same(n.as_str(), "this") {
                if !sc.in_instance {
                    return Err(own("`this` in static method"));
                }
                let callee: Result<Callee, String> = self.find_instance_callee(
                    sc,
                    sc.class.name.as_str(),
                    &no_types(),
                    method,
                );
                return self.finish(sc, locals, st, args, method, callee);
            }
            if holds(&self.classes, n.as_str()) {
                let callee: Result<Callee, String> = self.find_static_callee(
                    sc,
                    n.as_str(),
                    method,
                    true,
                );
                return self.finish(sc, locals, st, args, method, callee);
            }
        }
        let full: Type = match self.infer_expr(sc, locals, st, target) {
            Ok(t) => t,
            Err(e) => return Err(e),
        };
        let ty: Type = if nullable_receiver {
            non_nullable(full)
        } else {
            full
        };
        if is_stringlike(&ty) {
            let callee: Result<Callee, String> = self.find_string_callee(method);
            return self.finish(sc, locals, st, args, method, callee);
        }
        let (c, targs) = match self.find_receiver(sc, &ty, method) {
            Ok(x) => x,
            Err(e) => return Err(e),
        };
        let callee: Result<Callee, String> = self.find_instance_callee(
            sc,
            c.as_str(),
            &targs,
            method,
        );
        self.finish(sc, locals, st, args, method, callee)
    }
}

// ---------------------------------------------------------------------------
// Patterns
// ---------------------------------------------------------------------------

/// What a pattern takes apart, by value.
pub open spec fn parts_outcome(
    r: Result<(&Vec<(String, Type)>, Vec<(String, Type)>), String>,
) -> Result<(Seq<(Seq<char>, Ty)>, Seq<(Seq<char>, Ty)>), Seq<char>> {
    match r {
        Ok((f, s)) => Ok((entries(f@), entries(s@))),
        Err(e) => Err(e@),
    }
}

fn find_enum_args(enum_name: &str, ty: &Type) -> (r: Option<Vec<Type>>)
    ensures
        match r {
            Some(v) => enum_args(enum_name@, ty@) == Some(tys(v@)),
            None => enum_args(enum_name@, ty@) is None,
        },
{
    match ty {
        Type::Enum(n) => if same(n.as_str(), enum_name) {
            Some(no_types())
        } else {
            None
        },
        Type::Class(n, args) => if same(n.as_str(), enum_name) {
            Some(clone_tys(args))
        } else {
            None
        },
        _ => None,
    }
}

fn check_literal_pattern(p: &Pattern, expected: &Type) -> (r: Result<Vec<(String, Type)>, String>)
    ensures
        bindings_outcome(r) == literal_pattern(*p, expected@),
{
    match p {
        Pattern::Int(v) => {
            if !expected.is_int() {
                let shown: String = expected.name();
                return Err(
                    cat2("integer pattern cannot match subject of type ", shown.as_str()),
                );
            }
            if !int_target_fits(expected, *v) {
                let shown: String = expected.name();
                let n: String = dec_i64(*v);
                return Err(
                    cat4(
                        "integer pattern ",
                        n.as_str(),
                        " does not fit subject type ",
                        shown.as_str(),
                    ),
                );
            }
        },
        Pattern::Float(_) => {
            if !expected.is_float() {
                let shown: String = expected.name();
                return Err(
                    cat2("float pattern cannot match subject of type ", shown.as_str()),
                );
            }
        },
        Pattern::Bool(_) => {
            if !matches!(expected, Type::Bool) {
                let shown: String = expected.name();
                return Err(
                    cat2("bool pattern cannot match subject of type ", shown.as_str()),
                );
            }
        },
        Pattern::StringLit(_) => {
            if !matches!(expected, Type::String) {
                let shown: String = expected.name();
                return Err(
                    cat2("string pattern cannot match subject of type ", shown.as_str()),
                );
            }
        },
        _ => {},
    }
    Ok(no_bindings())
}

impl Tables {
    fn find_variant_fields<'a>(
        &'a self,
        enum_name: &str,
        variant_name: &str,
        n: usize,
        expected: &Type,
    ) -> (r: Result<(&'a Vec<(String, Type)>, Vec<(String, Type)>), String>)
        ensures
            parts_outcome(r) == variant_fields(
                self@,
                enum_name@,
                variant_name@,
                n as nat,
                expected@,
            ),
            r matches Ok((f, _)) ==> f@.len() == n,
    {
        let e: &EnumInfo = match find(&self.enums, enum_name) {
            Some(e) => e,
            None => return Err(cat3("unknown enum `", enum_name, "`")),
        };
        let v: &VariantInfo = match find_variant(e, variant_name) {
            Some(v) => v,
            None => {
                return Err(cat5("unknown variant `", enum_name, ".", variant_name, "`"));
            },
        };
        assert(v@.fields.len() == v.fields@.len());
        if n != v.fields.len() {
            let want: String = dec_u64(v.fields.len() as u64);
            let got: String = dec_u64(n as u64);
            return Err(
                cat9(
                    "variant `",
                    enum_name,
                    ".",
                    variant_name,
                    "` has ",
                    want.as_str(),
                    " fields but pattern has ",
                    got.as_str(),
                    " sub-patterns",
                ),
            );
        }
        match find_enum_args(enum_name, expected) {
            None => {
                let shown: String = expected.name();
                Err(
                    cat5(
                        "cannot match enum `",
                        enum_name,
                        "` against value of type `",
                        shown.as_str(),
                        "`",
                    ),
                )
            },
            Some(args) => Ok((&v.fields, build_subst(&e.generic_params, &args))),
        }
    }

    fn find_record_fields<'a>(&'a self, name: &str, n: usize, expected: &Type) -> (r: Result<
        (&'a Vec<(String, Type)>, Vec<(String, Type)>),
        String,
    >)
        ensures
            parts_outcome(r) == record_fields(self@, name@, n as nat, expected@),
            r matches Ok((f, _)) ==> f@.len() == n,
    {
        let shown: String = expected.name();
        if let Some(info) = find(&self.classes, name) {
            if !info.is_record {
                return Err(cat3("`", name, "` is not a record class"));
            }
            return match expected {
                Type::Class(en, _) => {
                    if !same(en.as_str(), name) {
                        return Err(
                            cat5(
                                "record pattern `",
                                name,
                                "` cannot match value of type `",
                                shown.as_str(),
                                "`",
                            ),
                        );
                    }
                    assert(info@.instance_fields.len() == info.instance_fields@.len());
                    if n != info.instance_fields.len() {
                        let want: String = dec_u64(info.instance_fields.len() as u64);
                        let got: String = dec_u64(n as u64);
                        return Err(
                            cat7(
                                "record `",
                                name,
                                "` has ",
                                want.as_str(),
                                " fields but pattern has ",
                                got.as_str(),
                                " sub-patterns",
                            ),
                        );
                    }
                    Ok((&info.instance_fields, no_bindings()))
                },
                _ => Err(
                    cat5(
                        "cannot match record `",
                        name,
                        "` against value of type `",
                        shown.as_str(),
                        "`",
                    ),
                ),
            };
        }
        // Bare sum-type variant pattern: `Ok(v)` with no type prefix. Resolve
        // the variant to its unique sum type.
        let p: usize = match self.resolve_bare_variant(name) {
            Ok(p) => p,
            Err(e) => return Err(e),
        };
        let entry: &(String, EnumInfo) = &self.enums[p];
        let ghost pair = self@.enums[p as int];
        assert(pair == (entry.0@, entry.1@));
        let v: &VariantInfo = match find_variant(&entry.1, name) {
            Some(v) => v,
            None => {
                assert(false);
                return Err(own(""));
            },
        };
        assert(v@.fields.len() == v.fields@.len());
        if n != v.fields.len() {
            let want: String = dec_u64(v.fields.len() as u64);
            let got: String = dec_u64(n as u64);
            return Err(
                cat7(
                    "variant `",
                    name,
                    "` has ",
                    want.as_str(),
                    " fields but pattern has ",
                    got.as_str(),
                    " sub-patterns",
                ),
            );
        }
        match find_enum_args(entry.0.as_str(), expected) {
            None => Err(
                cat5(
                    "cannot match variant `",
                    name,
                    "` against value of type `",
                    shown.as_str(),
                    "`",
                ),
            ),
            Some(args) => Ok((&v.fields, build_subst(&entry.1.generic_params, &args))),
        }
    }

    fn check_patterns(
        &self,
        sc: &Scope<'_>,
        locals: &Vec<(String, Type)>,
        st: &mut State,
        ps: &Vec<Pattern>,
        expected: &Type,
    ) -> (r: Result<Vec<(String, Type)>, String>)
        ensures
            (bindings_outcome(r), final(st)@) == patterns_from(
                self@,
                sc@,
                entries(locals@),
                old(st)@,
                *ps,
                0,
                expected@,
                seq![],
            ),
        decreases ps, 0int,
    {
        let mut out: Vec<(String, Type)> = no_bindings();
        let mut i: usize = 0;
        let ghost want = patterns_from(
            self@,
            sc@,
            entries(locals@),
            st@,
            *ps,
            0,
            expected@,
            seq![],
        );
        while i < ps.len()
            invariant
                i <= ps@.len(),
                want == patterns_from(
                    self@,
                    sc@,
                    entries(locals@),
                    old(st)@,
                    *ps,
                    0,
                    expected@,
                    seq![],
                ),
                want == patterns_from(
                    self@,
                    sc@,
                    entries(locals@),
                    st@,
                    *ps,
                    i as int,
                    expected@,
                    entries(out@),
                ),
            decreases ps.len() - i,
        {
            proof {
                assert(decreases_to!(ps => ps@[i as int]));
            }
            match self.check_pattern(sc, locals, st, &ps[i], expected) {
                Ok(bs) => append_bindings(&mut out, bs),
                Err(m) => return Err(m),
            }
            i = i + 1;
        }
        Ok(out)
    }

    fn check_fields(
        &self,
        sc: &Scope<'_>,
        locals: &Vec<(String, Type)>,
        st: &mut State,
        ps: &Vec<Pattern>,
        fields: &Vec<(String, Type)>,
        subst: &Vec<(String, Type)>,
    ) -> (r: Result<Vec<(String, Type)>, String>)
        requires
            ps@.len() == fields@.len(),
        ensures
            (bindings_outcome(r), final(st)@) == fields_from(
                self@,
                sc@,
                entries(locals@),
                old(st)@,
                *ps,
                0,
                entries(fields@),
                entries(subst@),
                seq![],
            ),
        decreases ps, 0int,
    {
        let mut out: Vec<(String, Type)> = no_bindings();
        let mut i: usize = 0;
        let ghost fs = entries(fields@);
        let ghost s = entries(subst@);
        let ghost want = fields_from(
            self@,
            sc@,
            entries(locals@),
            st@,
            *ps,
            0,
            fs,
            s,
            seq![],
        );
        while i < ps.len()
            invariant
                i <= ps@.len(),
                ps@.len() == fields@.len(),
                fs == entries(fields@),
                s == entries(subst@),
                want == fields_from(
                    self@,
                    sc@,
                    entries(locals@),
                    old(st)@,
                    *ps,
                    0,
                    fs,
                    s,
                    seq![],
                ),
                want == fields_from(
                    self@,
                    sc@,
                    entries(locals@),
                    st@,
                    *ps,
                    i as int,
                    fs,
                    s,
                    entries(out@),
                ),
            decreases ps.len() - i,
        {
            proof {
                assert(decreases_to!(ps => ps@[i as int]));
                assert(fs[i as int].1 == fields@[i as int].1@);
            }
            let ty: Type = substitute_type(&fields[i].1, subst);
            match self.check_pattern(sc, locals, st, &ps[i], &ty) {
                Ok(bs) => append_bindings(&mut out, bs),
                Err(m) => return Err(m),
            }
            i = i + 1;
        }
        Ok(out)
    }

    /// Recursively validate a pattern against an expected type and collect the
    /// names it binds (each with the type of the value it will hold).
    #[verifier::spinoff_prover]
    #[verifier::rlimit(50)]
    fn check_pattern(
        &self,
        sc: &Scope<'_>,
        locals: &Vec<(String, Type)>,
        st: &mut State,
        p: &Pattern,
        expected: &Type,
    ) -> (r: Result<Vec<(String, Type)>, String>)
        ensures
            (bindings_outcome(r), final(st)@) == pattern(
                self@,
                sc@,
                entries(locals@),
                old(st)@,
                *p,
                expected@,
            ),
        decreases p, 0int,
    {
        match p {
            Pattern::Binding(name) => {
                let mut out: Vec<(String, Type)> = no_bindings();
                out.push((name.clone(), expected.clone()));
                assert(entries(out@) =~= seq![(name@, expected@)]);
                Ok(out)
            },
            Pattern::EnumVariant(enum_name, variant_name, subs) => {
                let (fields, subst) = match self.find_variant_fields(
                    enum_name.as_str(),
                    variant_name.as_str(),
                    subs.len(),
                    expected,
                ) {
                    Ok(x) => x,
                    Err(m) => return Err(m),
                };
                self.check_fields(sc, locals, st, subs, fields, &subst)
            },
            Pattern::RecordClass(name, subs) => {
                let (fields, subst) = match self.find_record_fields(
                    name.as_str(),
                    subs.len(),
                    expected,
                ) {
                    Ok(x) => x,
                    Err(m) => return Err(m),
                };
                self.check_fields(sc, locals, st, subs, fields, &subst)
            },
            Pattern::Range(a, b, _) => {
                if !expected.is_int() && !expected.is_float() {
                    let shown: String = expected.name();
                    return Err(
                        cat2(
                            "range pattern requires int or float subject, got ",
                            shown.as_str(),
                        ),
                    );
                }
                let x: Type = match self.infer_expr(sc, locals, st, a) {
                    Ok(t) => t,
                    Err(m) => return Err(m),
                };
                let y: Type = match self.infer_expr(sc, locals, st, b) {
                    Ok(t) => t,
                    Err(m) => return Err(m),
                };
                if !self.is_assignable(expected, &x) || !self.is_assignable(expected, &y) {
                    let shown: String = expected.name();
                    let xs: String = x.name();
                    let ys: String = y.name();
                    return Err(
                        cat6(
                            "range pattern bounds must match subject type ",
                            shown.as_str(),
                            ", got ",
                            xs.as_str(),
                            " and ",
                            ys.as_str(),
                        ),
                    );
                }
                Ok(no_bindings())
            },
            _ => check_literal_pattern(p, expected),
        }
    }
}

// ---------------------------------------------------------------------------
// Statements
// ---------------------------------------------------------------------------

/// The types that handlers catch, after those in `before`.
fn caught_types(before: &Vec<Type>, catches: &Vec<CatchClause>) -> (r: Vec<Type>)
    ensures
        tys(r@) == tys(before@) + catch_tys(catches@),
{
    let mut out: Vec<Type> = clone_tys(before);
    let ghost start = tys(before@);
    let mut i: usize = 0;
    assert(catch_tys(catches@).subrange(0, 0) =~= seq![]);
    while i < catches.len()
        invariant
            i <= catches@.len(),
            tys(out@) == start + catch_tys(catches@).subrange(0, i as int),
        decreases catches.len() - i,
    {
        push_ty(&mut out, catches[i].ty.clone());
        assert(catch_tys(catches@).subrange(0, i + 1) =~= catch_tys(catches@).subrange(
            0,
            i as int,
        ).push(catches@[i as int].ty@));
        assert(tys(out@) =~= start + catch_tys(catches@).subrange(0, i + 1));
        i = i + 1;
    }
    assert(catch_tys(catches@).subrange(0, i as int) =~= catch_tys(catches@));
    out
}

impl Tables {
    pub(crate) fn check_stmts(
        &self,
        sc: &Scope<'_>,
        locals: &mut Vec<(String, Type)>,
        st: &mut State,
        stmts: &Vec<Stmt>,
    ) -> (r: Result<(), String>)
        ensures
            did(
                r,
                final(locals)@,
                *final(st),
                stmts_from(self@, sc@, entries(old(locals)@), old(st)@, *stmts, 0),
            ),
        decreases stmts, 0int,
    {
        let mut i: usize = 0;
        let ghost want = stmts_from(self@, sc@, entries(locals@), st@, *stmts, 0);
        while i < stmts.len()
            invariant
                i <= stmts@.len(),
                want == stmts_from(self@, sc@, entries(old(locals)@), old(st)@, *stmts, 0),
                want == stmts_from(self@, sc@, entries(locals@), st@, *stmts, i as int),
            decreases stmts.len() - i,
        {
            proof {
                assert(decreases_to!(stmts => stmts@[i as int]));
            }
            match self.check_stmt(sc, locals, st, &stmts[i]) {
                Ok(_) => {},
                Err(m) => return Err(m),
            }
            i = i + 1;
        }
        Ok(())
    }

    /// Checks statements with every fact applied, restoring everything
    /// afterwards.
    fn check_guarded(
        &self,
        sc: &Scope<'_>,
        locals: &mut Vec<(String, Type)>,
        st: &mut State,
        fs: &Vec<GuardFact>,
        stmts: &Vec<Stmt>,
    ) -> (r: Result<(), String>)
        ensures
            did(
                r,
                final(locals)@,
                *final(st),
                guarded(self@, sc@, entries(old(locals)@), old(st)@, views(fs@), *stmts),
            ),
        decreases stmts, 1int,
    {
        let saved: Saved = apply_facts(locals, &mut st.narrowed, fs);
        assert(saved_of(saved.locals@).len() == saved.locals@.len());
        assert(saved_of(saved.narrowed@).len() == saved.narrowed@.len());
        let result: Result<(), String> = self.check_stmts(sc, locals, st, stmts);
        restore_all(locals, saved.locals);
        restore_all(&mut st.narrowed, saved.narrowed);
        result
    }

    /// `var` infers the declared type from the initializer; literal markers resolve
    /// to their carrier types so `var x = 5` is an int32, `var s = "hi"` a string.
    fn check_inferred_var(
        &self,
        sc: &Scope<'_>,
        locals: &mut Vec<(String, Type)>,
        st: &mut State,
        ty: &Type,
        name: &str,
        init: &Option<Expr>,
    ) -> (r: Result<(), String>)
        requires
            ty@ is Infer,
        ensures
            did(
                r,
                final(locals)@,
                *final(st),
                check_var(self@, sc@, entries(old(locals)@), old(st)@, ty@, name@, *init),
            ),
        decreases init, 0int,
    {
        let e: &Expr = match init {
            Some(e) => e,
            None => {
                return Err(
                    cat3("`var ", name, "` requires an initializer to infer from"),
                );
            },
        };
        if matches!(e, Expr::Hole) {
            return Err(
                cat3("`var ", name, "` cannot infer from a hole; annotate the type"),
            );
        }
        let x: Type = match self.infer_expr(sc, locals, st, e) {
            Ok(t) => t,
            Err(m) => return Err(m),
        };
        let inferred: Type = resolve_literal(&x);
        if matches!(inferred, Type::Unit) || inferred.is_null() {
            let shown: String = inferred.name();
            return Err(
                cat5(
                    "cannot infer a type for `",
                    name,
                    "` from ",
                    shown.as_str(),
                    "; annotate the type",
                ),
            );
        }
        insert(locals, name, inferred);
        Ok(())
    }

    fn check_var_decl(
        &self,
        sc: &Scope<'_>,
        locals: &mut Vec<(String, Type)>,
        st: &mut State,
        ty: &Type,
        name: &str,
        init: &Option<Expr>,
    ) -> (r: Result<(), String>)
        ensures
            did(
                r,
                final(locals)@,
                *final(st),
                check_var(self@, sc@, entries(old(locals)@), old(st)@, ty@, name@, *init),
            ),
        decreases init, 1int,
    {
        if matches!(ty, Type::Infer) {
            return self.check_inferred_var(sc, locals, st, ty, name, init);
        }
        match self.validate_type_with_generics(ty, sc.generics) {
            Ok(_) => {},
            Err(m) => return Err(m),
        }
        match init {
            None => {
                if matches!(
                    ty,
                    Type::Class(_, _) | Type::String | Type::Enum(_) | Type::Tuple(_)
                        | Type::GenericParam(_)
                ) {
                    let shown: String = ty.name();
                    return Err(
                        cat7(
                            "variable `",
                            name,
                            "` of non-nullable type ",
                            shown.as_str(),
                            " must be initialized (or declared as ",
                            shown.as_str(),
                            "?)",
                        ),
                    );
                }
            },
            Some(e) => {
                if matches!(e, Expr::Hole) {
                    return Err(self.hole_error(ty, locals));
                }
                let x: Type = match self.infer_expr_expecting(sc, locals, st, e, ty) {
                    Ok(t) => t,
                    Err(m) => return Err(m),
                };
                if !self.is_assignable(ty, &x) {
                    let a: String = x.name();
                    let b: String = ty.name();
                    let base: String = cat6(
                        "cannot assign ",
                        a.as_str(),
                        " to variable `",
                        name,
                        "` of type ",
                        b.as_str(),
                    );
                    return Err(self.mismatch_error(base, ty, &x));
                }
            },
        }
        insert(locals, name, ty.clone());
        Ok(())
    }

    /// The type of an assignment target.
    fn infer_assign_target(
        &self,
        sc: &Scope<'_>,
        locals: &Vec<(String, Type)>,
        st: &mut State,
        target: &AssignTarget,
    ) -> (r: Result<Type, String>)
        ensures
            (outcome(r), final(st)@) == target_ty(
                self@,
                sc@,
                entries(locals@),
                old(st)@,
                *target,
            ),
        decreases target, 0int,
    {
        match target {
            AssignTarget::Local(name) => match find(locals, name.as_str()) {
                Some(t) => Ok(t.clone()),
                None => {
                    let s: String = suggest(&show_names(locals), name.as_str());
                    Err(cat4("unknown variable `", name.as_str(), "`", s.as_str()))
                },
            },
            AssignTarget::Field(obj, name) => match self.infer_expr(sc, locals, st, obj) {
                Ok(x) => self.field_target_type(sc, &x, name.as_str()),
                Err(m) => Err(m),
            },
            AssignTarget::StaticField(class_name, name) => self.static_member_type(
                sc,
                class_name.as_str(),
                name.as_str(),
                true,
            ),
            AssignTarget::SuperField(name) => self.super_member_type(sc, name.as_str(), true),
        }
    }

    /// Assigning to a narrowed local checks against its declared (nullable) type and
    /// widens it back for later statements.
    #[verifier::rlimit(30)]
    fn check_narrowed_assignment(
        &self,
        sc: &Scope<'_>,
        locals: &mut Vec<(String, Type)>,
        st: &mut State,
        target: &AssignTarget,
        name: &String,
        ty: Type,
        value: &Expr,
    ) -> (r: Result<(), String>)
        requires
            *target == AssignTarget::Local(*name),
            narrowed_target(old(st)@, *target) == Some(ty@),
        ensures
            did(
                r,
                final(locals)@,
                *final(st),
                check(
                    self@,
                    sc@,
                    entries(old(locals)@),
                    old(st)@,
                    Stmt::Assign(*target, *value),
                ),
            ),
        decreases Stmt::Assign(*target, *value), 0int,
    {
        if matches!(value, Expr::Hole) {
            return Err(self.hole_error(&ty, locals));
        }
        let x: Type = match self.infer_expr_expecting(sc, locals, st, value, &ty) {
            Ok(t) => t,
            Err(m) => return Err(m),
        };
        if !self.is_assignable(&ty, &x) {
            let a: String = x.name();
            let b: String = ty.name();
            let base: String = cat6(
                "cannot assign ",
                a.as_str(),
                " to `",
                name.as_str(),
                "` of type ",
                b.as_str(),
            );
            return Err(self.mismatch_error(base, &ty, &x));
        }
        insert(locals, name.as_str(), ty);
        remove(&mut st.narrowed, name.as_str());
        Ok(())
    }

    fn check_plain_assignment(
        &self,
        sc: &Scope<'_>,
        locals: &mut Vec<(String, Type)>,
        st: &mut State,
        target: &AssignTarget,
        value: &Expr,
    ) -> (r: Result<(), String>)
        requires
            narrowed_target(old(st)@, *target) is None,
        ensures
            did(
                r,
                final(locals)@,
                *final(st),
                check(
                    self@,
                    sc@,
                    entries(old(locals)@),
                    old(st)@,
                    Stmt::Assign(*target, *value),
                ),
            ),
        decreases Stmt::Assign(*target, *value), 0int,
    {
        let ty: Type = match self.infer_assign_target(sc, locals, st, target) {
            Ok(t) => t,
            Err(m) => return Err(m),
        };
        if matches!(value, Expr::Hole) {
            return Err(self.hole_error(&ty, locals));
        }
        let x: Type = match self.infer_expr_expecting(sc, locals, st, value, &ty) {
            Ok(t) => t,
            Err(m) => return Err(m),
        };
        if !self.is_assignable(&ty, &x) {
            let a: String = x.name();
            let b: String = ty.name();
            return Err(cat4("cannot assign ", a.as_str(), " to ", b.as_str()));
        }
        Ok(())
    }

    fn check_assignment(
        &self,
        sc: &Scope<'_>,
        locals: &mut Vec<(String, Type)>,
        st: &mut State,
        target: &AssignTarget,
        value: &Expr,
    ) -> (r: Result<(), String>)
        ensures
            did(
                r,
                final(locals)@,
                *final(st),
                check(
                    self@,
                    sc@,
                    entries(old(locals)@),
                    old(st)@,
                    Stmt::Assign(*target, *value),
                ),
            ),
        decreases Stmt::Assign(*target, *value), 1int,
    {
        if let AssignTarget::Local(name) = target {
            let declared: Option<Type> = match find(&st.narrowed, name.as_str()) {
                Some(t) => Some(t.clone()),
                None => None,
            };
            if let Some(ty) = declared {
                return self.check_narrowed_assignment(sc, locals, st, target, name, ty, value);
            }
        }
        self.check_plain_assignment(sc, locals, st, target, value)
    }

    fn check_catches(
        &self,
        sc: &Scope<'_>,
        locals: &mut Vec<(String, Type)>,
        st: &mut State,
        catches: &Vec<CatchClause>,
    ) -> (r: Result<(), String>)
        ensures
            did(
                r,
                final(locals)@,
                *final(st),
                catches_from(self@, sc@, entries(old(locals)@), old(st)@, *catches, 0),
            ),
        decreases catches, 0int,
    {
        let mut i: usize = 0;
        let ghost want = catches_from(self@, sc@, entries(locals@), st@, *catches, 0);
        while i < catches.len()
            invariant
                i <= catches@.len(),
                want == catches_from(self@, sc@, entries(old(locals)@), old(st)@, *catches, 0),
                want == catches_from(self@, sc@, entries(locals@), st@, *catches, i as int),
            decreases catches.len() - i,
        {
            proof {
                assert(decreases_to!(catches => catches@[i as int]));
                assert(decreases_to!(catches => catches@[i as int].body));
            }
            let c: &CatchClause = &catches[i];
            match self.validate_type_with_generics(&c.ty, sc.generics) {
                Ok(_) => {},
                Err(m) => return Err(m),
            }
            insert(locals, c.name.as_str(), c.ty.clone());
            match self.check_stmts(sc, locals, st, &c.body) {
                Ok(_) => {},
                Err(m) => return Err(m),
            }
            i = i + 1;
        }
        Ok(())
    }

    fn loop_type(&self, var: &Type, iter: &Type) -> (r: Result<Type, String>)
        ensures
            outcome(r) == loop_ty(self@, var@, iter@),
    {
        let shown: String = iter.name();
        match iter {
            Type::Class(name, args) => {
                assert(tys(args@).len() == args@.len());
                if same(name.as_str(), "Range") {
                    if matches!(var, Type::Infer) {
                        return Ok(Type::Int32);
                    }
                    if var.is_int() {
                        return Ok(var.clone());
                    }
                    let v: String = var.name();
                    return Err(
                        cat2("for-in loop variable must be an integer, got ", v.as_str()),
                    );
                }
                if same(name.as_str(), "List") || same(name.as_str(), "Set") {
                    if matches!(var, Type::Infer) {
                        if args.len() > 0 {
                            assert(tys(args@)[0] == args@[0]@);
                            return Ok(args[0].clone());
                        }
                        return Err(
                            cat3(
                                "cannot infer the element type of this ",
                                name.as_str(),
                                "; annotate the loop variable",
                            ),
                        );
                    }
                    if args.len() > 0 {
                        assert(tys(args@)[0] == args@[0]@);
                        if !self.is_assignable(var, &args[0]) {
                            let v: String = var.name();
                            let a: String = args[0].name();
                            return Err(
                                cat6(
                                    "for-in loop variable of type ",
                                    v.as_str(),
                                    " cannot hold ",
                                    name.as_str(),
                                    " elements of type ",
                                    a.as_str(),
                                ),
                            );
                        }
                    }
                    return Ok(var.clone());
                }
                Err(
                    cat2(
                        "for-in requires a range, List, or Set expression, got ",
                        shown.as_str(),
                    ),
                )
            },
            _ => Err(
                cat2("for-in requires a range, List, or Set expression, got ", shown.as_str()),
            ),
        }
    }

    fn declare_resource(
        &self,
        sc: &Scope<'_>,
        locals: &mut Vec<(String, Type)>,
        declared: &Option<Type>,
        name: &Option<String>,
        ty: &Type,
    ) -> (r: Result<(), String>)
        ensures
            match r {
                Ok(_) => using_locals(
                    self@,
                    sc@,
                    entries(old(locals)@),
                    opt_ty_of(*declared),
                    opt_name_of(*name),
                    ty@,
                ) == Ok::<Seq<(Seq<char>, Ty)>, Seq<char>>(entries(final(locals)@)),
                Err(e) => using_locals(
                    self@,
                    sc@,
                    entries(old(locals)@),
                    opt_ty_of(*declared),
                    opt_name_of(*name),
                    ty@,
                ) == Err::<Seq<(Seq<char>, Ty)>, Seq<char>>(e@),
            },
    {
        let n: &String = match name {
            Some(n) => n,
            None => return Ok(()),
        };
        match declared {
            Some(d) => {
                match self.validate_type_with_generics(d, sc.generics) {
                    Ok(_) => {},
                    Err(m) => return Err(m),
                }
                if !self.is_assignable(d, ty) {
                    let a: String = ty.name();
                    let b: String = d.name();
                    return Err(
                        cat4(
                            "cannot use value of type ",
                            a.as_str(),
                            " as `using` resource of type ",
                            b.as_str(),
                        ),
                    );
                }
                insert(locals, n.as_str(), d.clone());
            },
            None => {
                insert(locals, n.as_str(), ty.clone());
            },
        }
        Ok(())
    }

    /// Checks the taking apart of a tuple into variables.
    #[verifier::rlimit(30)]
    fn check_tuple_decl(
        &self,
        sc: &Scope<'_>,
        locals: &mut Vec<(String, Type)>,
        st: &mut State,
        names: &Vec<String>,
        e: &Expr,
    ) -> (r: Result<(), String>)
        ensures
            did(
                r,
                final(locals)@,
                *final(st),
                check(self@, sc@, entries(old(locals)@), old(st)@, Stmt::TupleDecl(*names, *e)),
            ),
        decreases Stmt::TupleDecl(*names, *e), 0int,
    {
        let x: Type = match self.infer_expr(sc, locals, st, e) {
            Ok(t) => t,
            Err(m) => return Err(m),
        };
        match &x {
            Type::Tuple(ts) => {
                assert(tys(ts@).len() == ts@.len());
                if names.len() != ts.len() {
                    let want: String = dec_u64(ts.len() as u64);
                    let got: String = dec_u64(names.len() as u64);
                    return Err(
                        cat4(
                            "tuple destructuring expects ",
                            want.as_str(),
                            " variables but got ",
                            got.as_str(),
                        ),
                    );
                }
                declare_names(locals, names, ts);
                Ok(())
            },
            _ => {
                let shown: String = x.name();
                Err(cat2("cannot destructure non-tuple type ", shown.as_str()))
            },
        }
    
    }

    /// Checks a `return`.
    #[verifier::rlimit(30)]
    fn check_return(
        &self,
        sc: &Scope<'_>,
        locals: &mut Vec<(String, Type)>,
        st: &mut State,
        value: &Option<Expr>,
    ) -> (r: Result<(), String>)
        ensures
            did(
                r,
                final(locals)@,
                *final(st),
                check(self@, sc@, entries(old(locals)@), old(st)@, Stmt::Return(*value)),
            ),
        decreases Stmt::Return(*value), 0int,
    {
        match value {
            None => {
                if matches!(sc.return_ty, Type::Unit) {
                    Ok(())
                } else {
                    let shown: String = sc.return_ty.name();
                    Err(cat2("expected return value of type ", shown.as_str()))
                }
            },
            Some(e) => {
                if matches!(e, Expr::Hole) {
                    return Err(self.hole_error(sc.return_ty, locals));
                }
                let x: Type = match self.infer_expr_expecting(
                    sc,
                    locals,
                    st,
                    e,
                    sc.return_ty,
                ) {
                    Ok(t) => t,
                    Err(m) => return Err(m),
                };
                if !self.is_assignable(sc.return_ty, &x) {
                    let a: String = sc.return_ty.name();
                    let b: String = x.name();
                    let base: String = cat4(
                        "return type mismatch: expected ",
                        a.as_str(),
                        ", got ",
                        b.as_str(),
                    );
                    return Err(self.mismatch_error(base, sc.return_ty, &x));
                }
                Ok(())
            },
        }
    }

    /// Checks an `if`.
    #[verifier::rlimit(30)]
    fn check_if(
        &self,
        sc: &Scope<'_>,
        locals: &mut Vec<(String, Type)>,
        st: &mut State,
        cond: &Expr,
        yes: &Vec<Stmt>,
        no: &Option<Vec<Stmt>>,
    ) -> (r: Result<(), String>)
        ensures
            did(
                r,
                final(locals)@,
                *final(st),
                check(self@, sc@, entries(old(locals)@), old(st)@, Stmt::If(*cond, *yes, *no)),
            ),
        decreases Stmt::If(*cond, *yes, *no), 0int,
    {
        let c: Type = match self.infer_expr(sc, locals, st, cond) {
            Ok(t) => t,
            Err(m) => return Err(m),
        };
        match require_bool("if condition", &c) {
            Ok(_) => {},
            Err(m) => return Err(m),
        }
        // Type guards: everything the condition proves when true
        // narrows the then-branch (null checks, `is` bindings, facts
        // composed through `&&`/`!`); the false-facts narrow the
        // else-branch, and remain in force after a terminating
        // then-branch (`if (x == null) { return; }`).
        let fs: Vec<GuardFact> = condition_facts(cond, locals, true);
        let gs: Vec<GuardFact> = condition_facts(cond, locals, false);
        match self.check_guarded(sc, locals, st, &fs, yes) {
            Ok(_) => {},
            Err(m) => return Err(m),
        }
        assert(views(gs@).len() == gs@.len());
        match no {
            Some(other) => self.check_guarded(sc, locals, st, &gs, other),
            None => {
                if branch_terminates(yes) {
                    keep_non_null(locals, &mut st.narrowed, &gs);
                }
                Ok(())
            },
        }
    
    }

    /// Checks an `if let`.
    #[verifier::rlimit(30)]
    fn check_if_let(
        &self,
        sc: &Scope<'_>,
        locals: &mut Vec<(String, Type)>,
        st: &mut State,
        p: &Pattern,
        e: &Expr,
        yes: &Vec<Stmt>,
        no: &Option<Vec<Stmt>>,
    ) -> (r: Result<(), String>)
        ensures
            did(
                r,
                final(locals)@,
                *final(st),
                check(self@, sc@, entries(old(locals)@), old(st)@, Stmt::IfLet(*p, *e, *yes, *no)),
            ),
        decreases Stmt::IfLet(*p, *e, *yes, *no), 0int,
    {
        let x: Type = match self.infer_expr(sc, locals, st, e) {
            Ok(t) => t,
            Err(m) => return Err(m),
        };
        let bs: Vec<(String, Type)> = match self.check_pattern(sc, locals, st, p, &x) {
            Ok(b) => b,
            Err(m) => return Err(m),
        };
        assert(entries(bs@).len() == bs@.len());
        let saved: Vec<(String, Option<Type>)> = save_names(locals, &bs);
        assert(saved_of(saved@).len() == saved@.len());
        assert(saved@.len() == bs@.len());
        bind_all(locals, &bs);
        match self.check_stmts(sc, locals, st, yes) {
            Ok(_) => {},
            Err(m) => return Err(m),
        }
        restore_names(locals, &saved);
        match no {
            Some(other) => self.check_stmts(sc, locals, st, other),
            None => Ok(()),
        }
    
    }

    /// Check a statement.
    #[verifier::rlimit(100)]
    pub fn check_stmt(
        &self,
        sc: &Scope<'_>,
        locals: &mut Vec<(String, Type)>,
        st: &mut State,
        stmt: &Stmt,
    ) -> (r: Result<(), String>)
        ensures
            did(
                r,
                final(locals)@,
                *final(st),
                check(self@, sc@, entries(old(locals)@), old(st)@, *stmt),
            ),
        decreases stmt, 2int,
    {
        match stmt {
            Stmt::VarDecl(ty, name, init) => self.check_var_decl(
                sc,
                locals,
                st,
                ty,
                name.as_str(),
                init,
            ),
            Stmt::TupleDecl(names, e) => self.check_tuple_decl(sc, locals, st, names, e),
            Stmt::Expr(e) => match self.infer_expr(sc, locals, st, e) {
                Ok(_) => Ok(()),
                Err(m) => Err(m),
            },
            Stmt::Assign(target, value) => self.check_assignment(sc, locals, st, target, value),
            Stmt::Return(value) => self.check_return(sc, locals, st, value),
            Stmt::If(cond, yes, no) => self.check_if(sc, locals, st, cond, yes, no),
            Stmt::IfLet(p, e, yes, no) => self.check_if_let(sc, locals, st, p, e, yes, no),
            Stmt::While { label: _, condition, body } => {
                let c: Type = match self.infer_expr(sc, locals, st, condition) {
                    Ok(t) => t,
                    Err(m) => return Err(m),
                };
                match require_bool("while condition", &c) {
                    Ok(_) => {},
                    Err(m) => return Err(m),
                }
                let fs: Vec<GuardFact> = condition_facts(condition, locals, true);
                self.check_guarded(sc, locals, st, &fs, body)
            },
            Stmt::For { label: _, init, condition, update, body } => {
                match self.check_stmt(sc, locals, st, init) {
                    Ok(_) => {},
                    Err(m) => return Err(m),
                }
                let c: Type = match self.infer_expr(sc, locals, st, condition) {
                    Ok(t) => t,
                    Err(m) => return Err(m),
                };
                match require_bool("for condition", &c) {
                    Ok(_) => {},
                    Err(m) => return Err(m),
                }
                match self.check_stmt(sc, locals, st, update) {
                    Ok(_) => {},
                    Err(m) => return Err(m),
                }
                self.check_stmts(sc, locals, st, body)
            },
            Stmt::ForIn { label: _, var_type, var_name, iterable, body } => {
                match self.validate_type_with_generics(var_type, sc.generics) {
                    Ok(_) => {},
                    Err(m) => return Err(m),
                }
                let x: Type = match self.infer_expr(sc, locals, st, iterable) {
                    Ok(t) => t,
                    Err(m) => return Err(m),
                };
                let ty: Type = match self.loop_type(var_type, &x) {
                    Ok(t) => t,
                    Err(m) => return Err(m),
                };
                insert(locals, var_name.as_str(), ty);
                self.check_stmts(sc, locals, st, body)
            },
            Stmt::DoWhile { label: _, body, condition } => {
                match self.check_stmts(sc, locals, st, body) {
                    Ok(_) => {},
                    Err(m) => return Err(m),
                }
                let c: Type = match self.infer_expr(sc, locals, st, condition) {
                    Ok(t) => t,
                    Err(m) => return Err(m),
                };
                match require_bool("do-while condition", &c) {
                    Ok(_) => Ok(()),
                    Err(m) => Err(m),
                }
            },
            Stmt::Mark(line) => {
                st.line = *line;
                Ok(())
            },
            Stmt::Break(_) => Ok(()),
            Stmt::Continue(_) => Ok(()),
            Stmt::Throw(e) => match self.infer_expr(sc, locals, st, e) {
                Ok(_) => Ok(()),
                Err(m) => Err(m),
            },
            Stmt::Try { try_body, catches, finally_body } => {
                // The catch clauses cover checked-exception contracts for
                // calls inside the try body (only).
                let handled: Vec<Type> = caught_types(sc.handled, catches);
                let inner: Scope<'_> = Scope {
                    class: sc.class,
                    in_instance: sc.in_instance,
                    return_ty: sc.return_ty,
                    generics: sc.generics,
                    throws: sc.throws,
                    handled: &handled,
                    is_async: sc.is_async,
                };
                assert(inner@ == try_scope(sc@, catches@));
                match self.check_stmts(&inner, locals, st, try_body) {
                    Ok(_) => {},
                    Err(m) => return Err(m),
                }
                match self.check_catches(sc, locals, st, catches) {
                    Ok(_) => {},
                    Err(m) => return Err(m),
                }
                match finally_body {
                    Some(f) => self.check_stmts(sc, locals, st, f),
                    None => Ok(()),
                }
            },
            Stmt::Using { resource_ty, name, expr, body } => {
                let x: Type = match self.infer_expr(sc, locals, st, expr) {
                    Ok(t) => t,
                    Err(m) => return Err(m),
                };
                match self.declare_resource(sc, locals, resource_ty, name, &x) {
                    Ok(_) => {},
                    Err(m) => return Err(m),
                }
                match self.require_disposable(&x) {
                    Ok(_) => {},
                    Err(m) => return Err(m),
                }
                self.check_stmts(sc, locals, st, body)
            },
            Stmt::Block(stmts) => self.check_stmts(sc, locals, st, stmts),
        }
    }
}

fn declare_names(locals: &mut Vec<(String, Type)>, names: &Vec<String>, ts: &Vec<Type>)
    requires
        names@.len() == ts@.len(),
    ensures
        entries(final(locals)@) == names_upto(
            entries(old(locals)@),
            texts(names@),
            tys(ts@),
            names@.len() as int,
        ),
{
    let ghost before = entries(locals@);
    let mut i: usize = 0;
    while i < names.len()
        invariant
            i <= names@.len(),
            names@.len() == ts@.len(),
            entries(locals@) == names_upto(before, texts(names@), tys(ts@), i as int),
        decreases names.len() - i,
    {
        assert(tys(ts@)[i as int] == ts@[i as int]@);
        insert(locals, names[i].as_str(), ts[i].clone());
        i = i + 1;
    }
}

fn save_names(locals: &Vec<(String, Type)>, bs: &Vec<(String, Type)>) -> (r: Vec<
    (String, Option<Type>),
>)
    ensures
        saved_of(r@) == saved_names(entries(locals@), entries(bs@)),
{
    let mut out: Vec<(String, Option<Type>)> = Vec::new();
    let mut i: usize = 0;
    let ghost want = saved_names(entries(locals@), entries(bs@));
    assert(saved_of(out@) =~= want.subrange(0, 0));
    while i < bs.len()
        invariant
            i <= bs@.len(),
            want == saved_names(entries(locals@), entries(bs@)),
            saved_of(out@) == want.subrange(0, i as int),
        decreases bs.len() - i,
    {
        save(&mut out, locals, bs[i].0.as_str());
        assert(saved_of(out@) =~= want.subrange(0, i + 1));
        i = i + 1;
    }
    assert(want.subrange(0, i as int) =~= want);
    out
}

fn restore_names(locals: &mut Vec<(String, Type)>, saved: &Vec<(String, Option<Type>)>)
    ensures
        entries(final(locals)@) == put_back_upto(
            entries(old(locals)@),
            saved_of(saved@),
            saved@.len() as int,
        ),
{
    let ghost before = entries(locals@);
    let mut i: usize = 0;
    while i < saved.len()
        invariant
            i <= saved@.len(),
            entries(locals@) == put_back_upto(before, saved_of(saved@), i as int),
        decreases saved.len() - i,
    {
        let prev: Option<Type> = match &saved[i].1 {
            Some(t) => Some(t.clone()),
            None => None,
        };
        restore(locals, saved[i].0.as_str(), prev);
        i = i + 1;
    }
}

} // verus!
