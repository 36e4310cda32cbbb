//! The statements inside statements: each branch, loop body and handler is checked,
//! in the locals that belong to it. Also what patterns match and bind.

use crate::typer::assign::flows;
use crate::typer::ast::{CatchClause, Expr, Pattern, Stmt, Ty};
use crate::typer::flow::{facts, locals_under, Status};
use crate::typer::infer::{
    check, guarded, infer, literal_pattern, loop_ty, names_upto, pattern, record_fields, stmts_from,
    variant_fields, Ran,
};
use crate::typer::info::TableModel;
use crate::typer::keyed::{lookup, put, put_laws};
use crate::typer::rules::Around;
use crate::typer::soundness::{counts, has_type, integral};
use vstd::prelude::*;

verus! {

/// Statements pass, whatever was checked before them.
#[verifier::opaque]
pub open spec fn all_pass(
    t: TableModel,
    sc: Around,
    locals: Seq<(Seq<char>, Ty)>,
    st: Status,
    stmts: Vec<Stmt>,
) -> bool {
    stmts_from(t, sc, locals, st, stmts, 0).result is Ok
}

/// Statements pass in some locals.
pub open spec fn pass_somewhere(t: TableModel, sc: Around, stmts: Vec<Stmt>) -> bool {
    exists|locals: Seq<(Seq<char>, Ty)>, st: Status| #[trigger] all_pass(t, sc, locals, st, stmts)
}

/// Statements pass in these locals.
pub open spec fn pass_in(
    t: TableModel,
    sc: Around,
    locals: Seq<(Seq<char>, Ty)>,
    stmts: Vec<Stmt>,
) -> bool {
    exists|st: Status| #[trigger] all_pass(t, sc, locals, st, stmts)
}

proof fn guarded_passes(
    t: TableModel,
    sc: Around,
    locals: Seq<(Seq<char>, Ty)>,
    st: Status,
    fs: Seq<crate::typer::flow::Fact>,
    stmts: Vec<Stmt>,
)
    requires
        guarded(t, sc, locals, st, fs, stmts).result is Ok,
    ensures
        pass_in(t, sc, locals_under(locals, fs, fs.len() as int), stmts),
{
    let n = fs.len() as int;
    let inner = Status {
        narrowed: crate::typer::flow::narrowed_under(st.narrowed, fs, n),
        line: st.line,
    };
    assert(all_pass(t, sc, locals_under(locals, fs, n), inner, stmts)) by {
        reveal(all_pass);
    }
}

/// A choice: what is done if the condition holds passes in the locals as the
/// condition narrows them, and what is done if not passes too.
pub proof fn choice_law(
    t: TableModel,
    sc: Around,
    locals: Seq<(Seq<char>, Ty)>,
    st: Status,
    cond: Expr,
    yes: Vec<Stmt>,
    no: Option<Vec<Stmt>>,
)
    requires
        check(t, sc, locals, st, Stmt::If(cond, yes, no)).result is Ok,
    ensures
        ({
            let fs = facts(cond, locals, true);
            pass_in(t, sc, locals_under(locals, fs, fs.len() as int), yes)
        }),
        no matches Some(other) ==> pass_somewhere(t, sc, other),
{
    let c = infer(t, sc, locals, st, cond);
    let fs = facts(cond, locals, true);
    let gs = facts(cond, locals, false);
    let a = guarded(t, sc, locals, c.1, fs, yes);
    guarded_passes(t, sc, locals, c.1, fs, yes);
    if let Some(other) = no {
        guarded_passes(t, sc, a.locals, a.status, gs, other);
        let inner = locals_under(a.locals, gs, gs.len() as int);
        let s = choose|s: Status| #[trigger] all_pass(t, sc, inner, s, other);
        assert(all_pass(t, sc, inner, s, other));
    }
}

/// A loop with a condition: its body passes in the locals as the condition narrows
/// them.
pub proof fn loop_law(
    t: TableModel,
    sc: Around,
    locals: Seq<(Seq<char>, Ty)>,
    st: Status,
    label: Option<String>,
    condition: Expr,
    body: Vec<Stmt>,
)
    requires
        check(t, sc, locals, st, Stmt::While { label, condition, body }).result is Ok,
    ensures
        ({
            let fs = facts(condition, locals, true);
            pass_in(t, sc, locals_under(locals, fs, fs.len() as int), body)
        }),
{
    let c = infer(t, sc, locals, st, condition);
    guarded_passes(t, sc, locals, c.1, facts(condition, locals, true), body);
}

/// What is iterated over is a range, a list or a set, and the loop variable takes
/// its elements: integers from a range, and what the list or set holds.
pub proof fn element_law(t: TableModel, var: Ty, iter: Ty)
    ensures
        loop_ty(t, var, iter) is Ok ==> iter is Class && (iter->Class_0 == "Range"@ || iter->Class_0
            == "List"@ || iter->Class_0 == "Set"@),
        loop_ty(t, var, iter) matches Ok(ty) ==> !(var is Infer) ==> ty == var,
        loop_ty(t, var, iter) matches Ok(ty) ==> iter->Class_0 == "Range"@ ==> integral(ty),
        loop_ty(t, var, iter) matches Ok(ty) ==> iter->Class_0 != "Range"@ && iter->Class_1.len() > 0
            && !(var is Infer) ==> flows(t, ty, iter->Class_1[0]),
        loop_ty(t, var, iter) matches Ok(ty) ==> iter->Class_0 != "Range"@ && var is Infer
            ==> iter->Class_1.len() > 0 && ty == iter->Class_1[0],
{
}

/// Iterating: the body passes with the loop variable standing for an element.
pub proof fn iteration_law(
    t: TableModel,
    sc: Around,
    locals: Seq<(Seq<char>, Ty)>,
    st: Status,
    label: Option<String>,
    var_type: crate::typer::ast::Type,
    var_name: String,
    iterable: Expr,
    body: Vec<Stmt>,
) -> (found: (Ty, Ty))
    requires
        check(
            t,
            sc,
            locals,
            st,
            Stmt::ForIn { label, var_type, var_name, iterable, body },
        ).result is Ok,
    ensures
        has_type(t, sc, locals, st, iterable, found.0),
        loop_ty(t, var_type@, found.0) == Ok::<Ty, Seq<char>>(found.1),
        pass_in(t, sc, put(locals, var_name@, found.1), body),
{
    let r = infer(t, sc, locals, st, iterable);
    let ty = loop_ty(t, var_type@, r.0->Ok_0)->Ok_0;
    assert(has_type(t, sc, locals, st, iterable, r.0->Ok_0)) by {
        reveal(has_type);
    }
    assert(all_pass(t, sc, put(locals, var_name@, ty), r.1, body)) by {
        reveal(all_pass);
    }
    (r.0->Ok_0, ty)
}

proof fn catch_passes(
    t: TableModel,
    sc: Around,
    locals: Seq<(Seq<char>, Ty)>,
    st: Status,
    catches: Vec<CatchClause>,
    i: int,
) -> (next: Ran)
    requires
        0 <= i < catches@.len(),
        caught_from(t, sc, locals, st, catches, i).result is Ok,
    ensures
        crate::typer::rules::valid(t, catches@[i].ty@, sc.generics) is Ok,
        pass_in(t, sc, put(locals, catches@[i].name@, catches@[i].ty@), catches@[i].body),
        caught_from(t, sc, next.locals, next.status, catches, i + 1).result is Ok,
{
    reveal(caught_from);
    let c = catches@[i];
    let inner = put(locals, c.name@, c.ty@);
    assert(all_pass(t, sc, inner, st, c.body)) by {
        reveal(all_pass);
    }
    stmts_from(t, sc, inner, st, c.body, 0)
}

#[verifier::opaque]
spec fn caught_from(
    t: TableModel,
    sc: Around,
    locals: Seq<(Seq<char>, Ty)>,
    st: Status,
    catches: Vec<CatchClause>,
    i: int,
) -> Ran {
    crate::typer::infer::catches_from(t, sc, locals, st, catches, i)
}

/// A handler passes: its type can be written, and its body passes with the
/// exception under its name.
pub open spec fn handler_passes(t: TableModel, sc: Around, c: CatchClause) -> bool {
    &&& crate::typer::rules::valid(t, c.ty@, sc.generics) is Ok
    &&& exists|locals: Seq<(Seq<char>, Ty)>| #[trigger]
        pass_in(t, sc, put(locals, c.name@, c.ty@), c.body)
}

proof fn catches_pass(
    t: TableModel,
    sc: Around,
    locals: Seq<(Seq<char>, Ty)>,
    st: Status,
    catches: Vec<CatchClause>,
    i: int,
)
    requires
        0 <= i <= catches@.len(),
        caught_from(t, sc, locals, st, catches, i).result is Ok,
    ensures
        forall|k: int| i <= k < catches@.len() ==> handler_passes(t, sc, #[trigger] catches@[k]),
    decreases catches@.len() - i,
{
    if i < catches@.len() {
        let next = catch_passes(t, sc, locals, st, catches, i);
        catches_pass(t, sc, next.locals, next.status, catches, i + 1);
        assert(handler_passes(t, sc, catches@[i]));
    }
}

/// A `try`: the protected statements pass with the types of the handlers counted as
/// handled, every handler passes, and so does the `finally`.
pub proof fn protection_law(
    t: TableModel,
    sc: Around,
    locals: Seq<(Seq<char>, Ty)>,
    st: Status,
    try_body: Vec<Stmt>,
    catches: Vec<CatchClause>,
    finally_body: Option<Vec<Stmt>>,
    k: int,
)
    requires
        check(t, sc, locals, st, Stmt::Try { try_body, catches, finally_body }).result is Ok,
    ensures
        0 <= k < catches@.len() ==> handler_passes(t, sc, catches@[k]),
        ({
            let inside = crate::typer::infer::try_scope(sc, catches@);
            &&& all_pass(t, inside, locals, st, try_body)
            &&& inside.handled.len() == sc.handled.len() + catches@.len()
            &&& 0 <= k < catches@.len() ==> inside.handled[sc.handled.len() + k] == catches@[k].ty@
            &&& inside.return_ty == sc.return_ty && inside.class == sc.class
        }),
        finally_body matches Some(f) ==> pass_somewhere(t, sc, f),
{
    let inside = crate::typer::infer::try_scope(sc, catches@);
    let a = stmts_from(t, inside, locals, st, try_body, 0);
    assert(all_pass(t, inside, locals, st, try_body)) by {
        reveal(all_pass);
    }
    let c = crate::typer::infer::catches_from(t, sc, a.locals, a.status, catches, 0);
    assert(caught_from(t, sc, a.locals, a.status, catches, 0) == c) by {
        reveal(caught_from);
    }
    catches_pass(t, sc, a.locals, a.status, catches, 0);
    if let Some(f) = finally_body {
        assert(all_pass(t, sc, c.locals, c.status, f)) by {
            reveal(all_pass);
        }
    }
}

proof fn named(locals: Seq<(Seq<char>, Ty)>, names: Seq<Seq<char>>, ts: Seq<Ty>, n: int, k: int)
    requires
        0 <= k < n <= names.len(),
        n <= ts.len(),
        forall|i: int, j: int| 0 <= i < j < n ==> #[trigger] names[i] != #[trigger] names[j],
    ensures
        lookup(names_upto(locals, names, ts, n), names[k]) == Some(ts[k]),
    decreases n,
{
    put_laws(names_upto(locals, names, ts, n - 1), names[n - 1], ts[n - 1], names[k]);
    if k < n - 1 {
        named(locals, names, ts, n - 1, k);
    }
}

/// Taking a tuple apart: there is a name for each component, and it stands for the
/// type of that component.
pub proof fn components_law(
    t: TableModel,
    sc: Around,
    locals: Seq<(Seq<char>, Ty)>,
    st: Status,
    names: Vec<String>,
    e: Expr,
    k: int,
) -> (ts: Seq<Ty>)
    requires
        check(t, sc, locals, st, Stmt::TupleDecl(names, e)).result is Ok,
        0 <= k < names@.len(),
        forall|i: int, j: int|
            0 <= i < j < names@.len() ==> (#[trigger] names@[i])@ != (#[trigger] names@[j])@,
    ensures
        has_type(t, sc, locals, st, e, Ty::Tuple(ts)),
        ts.len() == names@.len(),
        lookup(check(t, sc, locals, st, Stmt::TupleDecl(names, e)).locals, names@[k]@) == Some(ts[k]),
{
    let ty = infer(t, sc, locals, st, e).0->Ok_0;
    let ts = ty->Tuple_0;
    assert(has_type(t, sc, locals, st, e, Ty::Tuple(ts))) by {
        reveal(has_type);
    }
    let ns = crate::typer::ast::texts(names@);
    assert forall|i: int, j: int| 0 <= i < j < ns.len() implies #[trigger] ns[i] != #[trigger] ns[j] by {
        assert(names@[i]@ != names@[j]@);
    }
    named(locals, ns, ts, ns.len() as int, k);
    ts
}

/// Patterns: a literal matches a subject of its kind only, an integer one in the
/// range of the subject; a name is bound to the type of the subject; a variant or a
/// record has as many parts as it was declared with.
pub proof fn pattern_law(
    t: TableModel,
    sc: Around,
    locals: Seq<(Seq<char>, Ty)>,
    st: Status,
    p: Pattern,
    expected: Ty,
)
    ensures
        p matches Pattern::Int(v) ==> literal_pattern(p, expected) is Ok ==> counts(
            expected,
            v as int,
        ),
        p is Float ==> literal_pattern(p, expected) is Ok ==> expected is Float32 || expected
            is Float64,
        p is Bool ==> literal_pattern(p, expected) is Ok ==> expected is Bool,
        p is StringLit ==> literal_pattern(p, expected) is Ok ==> expected is String,
        p matches Pattern::Binding(name) ==> pattern(t, sc, locals, st, p, expected).0 == Ok::<
            Seq<(Seq<char>, Ty)>,
            Seq<char>,
        >(seq![(name@, expected)]),
        p matches Pattern::EnumVariant(e, v, subs) ==> pattern(t, sc, locals, st, p, expected).0 is Ok
            ==> (variant_fields(t, e@, v@, subs@.len(), expected) matches Ok((fields, _))
            && fields.len() == subs@.len() && lookup(t.enums, e@) is Some),
        p matches Pattern::RecordClass(name, subs) ==> pattern(
            t,
            sc,
            locals,
            st,
            p,
            expected,
        ).0 is Ok ==> (record_fields(t, name@, subs@.len(), expected) matches Ok((fields, _))
            && fields.len() == subs@.len()),
{
}

/// A variant matches a subject of its enum only.
pub proof fn variant_law(t: TableModel, e: Seq<char>, v: Seq<char>, n: nat, expected: Ty)
    requires
        variant_fields(t, e, v, n, expected) is Ok,
    ensures
        expected matches Ty::Enum(m) ==> m == e,
        expected matches Ty::Class(m, _) ==> m == e,
        expected is Enum || expected is Class,
{
}

} // verus!
