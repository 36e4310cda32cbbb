//! What a test tells about the values that it tests, and what may be called,
//! constructed and combined.

use crate::typer::assign::flows;
use crate::typer::ast::{BinOp, Expr, Ty, UnaryOp};
use crate::typer::calls::{
    extension_along, instance_callee, new_class, new_ty, receiver, some_takes, super_callee, takes,
    Reached,
};
use crate::typer::descent::descends;
use crate::typer::exprs::{coalesce_ty, component_ty, member_ty, ternary_ty, without_null};
use crate::typer::flow::{facts, fact_name, locals_under, narrowed_under, null_test, Fact};
use crate::typer::hierarchy::{instance_property, supers, Walk};
use crate::typer::info::TableModel;
use crate::typer::keyed::{lookup, put_laws};
use crate::typer::membership::inherited_method_law;
use crate::typer::rules::{accessible, Around};
use crate::typer::types::{resolved, subst_of, subst_ty};
use vstd::prelude::*;

verus! {

/// What holds while a program runs: which variables are `null`, and what the
/// conditions come to that are not made of others.
pub ghost struct Truths {
    /// The variables that are `null`.
    pub is_null: spec_fn(Seq<char>) -> bool,
    /// The conditions that hold.
    pub other: spec_fn(Expr) -> bool,
}

/// Whether a condition holds.
pub open spec fn holds(v: Truths, cond: Expr) -> bool
    decreases cond,
{
    match cond {
        Expr::Unary(UnaryOp::Not, a) => !holds(v, *a),
        Expr::Binary(BinOp::And, a, b) => holds(v, *a) && holds(v, *b),
        Expr::Binary(BinOp::Or, a, b) => holds(v, *a) || holds(v, *b),
        Expr::Binary(BinOp::Eq, a, b) => match (*a, *b) {
            (Expr::Var(n), Expr::Null) => (v.is_null)(n@),
            (Expr::Null, Expr::Var(n)) => (v.is_null)(n@),
            _ => (v.other)(cond),
        },
        Expr::Binary(BinOp::Ne, a, b) => match (*a, *b) {
            (Expr::Var(n), Expr::Null) => !(v.is_null)(n@),
            (Expr::Null, Expr::Var(n)) => !(v.is_null)(n@),
            _ => (v.other)(cond),
        },
        Expr::Is(a, _, _) => (v.other)(cond) && (*a matches Expr::Var(n) ==> !(v.is_null)(n@)),
        _ => (v.other)(cond),
    }
}

/// A fact about a variable is true: it is not `null`, and its type is the declared
/// one without it.
pub open spec fn true_fact(v: Truths, locals: Seq<(Seq<char>, Ty)>, f: Fact) -> bool {
    f matches Fact::NonNull(name, ty) ==> !(v.is_null)(name) && lookup(locals, name) == Some(
        Ty::Nullable(Box::new(ty)),
    )
}

/// Narrowing: what is concluded from a condition that holds, or from one that does
/// not, is true whenever it does, or does not.
pub proof fn narrowing_law(
    v: Truths,
    cond: Expr,
    locals: Seq<(Seq<char>, Ty)>,
    positive: bool,
    i: int,
)
    requires
        holds(v, cond) == positive,
        0 <= i < facts(cond, locals, positive).len(),
    ensures
        true_fact(v, locals, facts(cond, locals, positive)[i]),
    decreases cond,
{
    let fs = facts(cond, locals, positive);
    if null_test(cond) is Some {
        assert(fs.len() == 1);
    } else {
        match cond {
            Expr::Unary(UnaryOp::Not, a) => {
                narrowing_law(v, *a, locals, !positive, i);
            },
            Expr::Binary(op, a, b) => {
                let x = facts(*a, locals, positive);
                let y = facts(*b, locals, positive);
                if op == BinOp::And && positive || op == BinOp::Or && !positive {
                    assert(fs == x + y);
                    if i < x.len() {
                        narrowing_law(v, *a, locals, positive, i);
                    } else {
                        narrowing_law(v, *b, locals, positive, i - x.len());
                    }
                }
            },
            _ => {},
        }
    }
}

/// Under a fact about a variable, the variable has the type that the fact gives it,
/// and where the fact is that it is not `null`, what it was declared with is kept.
pub proof fn narrowed_law(
    locals: Seq<(Seq<char>, Ty)>,
    narrowed: Seq<(Seq<char>, Ty)>,
    f: Fact,
    other: Seq<char>,
)
    ensures
        ({
            let fs = seq![f];
            let after = locals_under(locals, fs, 1);
            let kept = narrowed_under(narrowed, fs, 1);
            &&& f matches Fact::NonNull(name, ty) ==> lookup(after, name) == Some(ty) && lookup(
                kept,
                name,
            ) == Some(Ty::Nullable(Box::new(ty)))
            &&& f matches Fact::Binding(name, ty) ==> lookup(after, name) == Some(ty) && kept
                == narrowed
            &&& other != fact_name(f) ==> lookup(after, other) == lookup(locals, other)
            &&& other != fact_name(f) ==> lookup(kept, other) == lookup(narrowed, other)
        }),
{
    let fs = seq![f];
    reveal_with_fuel(locals_under, 2);
    reveal_with_fuel(narrowed_under, 2);
    match f {
        Fact::NonNull(name, ty) => {
            put_laws(locals, name, ty, other);
            put_laws(narrowed, name, Ty::Nullable(Box::new(ty)), other);
        },
        Fact::Binding(name, ty) => {
            put_laws(locals, name, ty, other);
        },
    }
}

/// A method that is called on a value is one that the class of the value has, from
/// a class or an interface that it descends from, and one that may be used here; or
/// else one that extends the class.
pub proof fn callee_law(
    t: TableModel,
    sc: Around,
    class: Seq<char>,
    args: Seq<Ty>,
    method: Seq<char>,
)
    requires
        instance_callee(t, sc, class, args, method) is Ok,
    ensures
        lookup(t.classes, class) is Some,
        ({
            let r = instance_callee(t, sc, class, args, method)->Ok_0;
            ||| exists|d: Seq<char>|
                {
                    &&& #[trigger] descends(t.classes, Walk::Up, class, d)
                    &&& lookup(t.classes, d) matches Some(c) && lookup(c.methods, method) == Some(
                        r.method,
                    )
                    &&& accessible(t.classes, sc.class.name, d, r.method.visibility)
                    &&& r.subst == subst_of((lookup(t.classes, class)->0).generics, args)
                }
            ||| extension_along(t, supers(t.classes, class), 0, method) == Some(
                Ok::<Reached, Seq<char>>(r),
            )
        }),
{
    inherited_method_law(t.classes, class, method, class);
    let found = crate::typer::hierarchy::method_found(t.classes, class, method);
    if found is Some {
        assert(descends(t.classes, Walk::Up, class, (found->0).0));
    }
}

/// Nothing is called on what may be `null`; a `super` call needs an instance, a
/// superclass, a method of an instance that has a body, and as many arguments as it
/// has parameters.
pub proof fn receiver_law(t: TableModel, sc: Around, ty: Ty, method: Seq<char>, n: nat)
    ensures
        ty is Nullable ==> receiver(t, sc, ty, method) is Err,
        !(ty is Class) ==> receiver(t, sc, ty, method) is Err,
        super_callee(t, sc, method, n) matches Ok(m) ==> {
            &&& sc.in_instance
            &&& sc.class.super_class is Some
            &&& m.is_instance
            &&& !m.is_abstract
            &&& m.params.len() == n
            &&& exists|d: Seq<char>|
                #[trigger] descends(t.classes, Walk::Up, sc.class.super_class->0, d) && (lookup(
                    t.classes,
                    d,
                ) matches Some(c) && lookup(c.methods, method) == Some(m))
        },
{
    if super_callee(t, sc, method, n) is Ok {
        let s = sc.class.super_class->0;
        inherited_method_law(t.classes, s, method, s);
        let found = crate::typer::hierarchy::method_found(t.classes, s, method);
        assert(descends(t.classes, Walk::Up, s, (found->0).0));
    }
}

/// What is constructed is a class that is known and neither static, nor abstract,
/// nor an interface, by a constructor with as many parameters as there are
/// arguments, into which they go.
pub proof fn construction_law(
    t: TableModel,
    sc: Around,
    class: Seq<char>,
    written: Seq<Ty>,
    args: Seq<Ty>,
)
    requires
        new_class(t, sc, class) is Ok,
        new_ty(t, sc, new_class(t, sc, class)->Ok_0, class, written, args) is Ok,
    ensures
        ({
            let c = new_class(t, sc, class)->Ok_0;
            let ty = new_ty(t, sc, c, class, written, args)->Ok_0;
            &&& lookup(t.classes, class) == Some(c)
            &&& !c.is_static && !c.is_abstract && !c.is_interface
            &&& ty is Class && ty->Class_0 == class
            &&& written.len() > 0 ==> ty->Class_1 == written
            &&& ty->Class_1.len() == c.generics.len()
            &&& exists|i: int|
                {
                    &&& 0 <= i < c.constructors.len()
                    &&& (#[trigger] c.constructors[i]).len() == args.len()
                    &&& forall|k: int|
                        0 <= k < args.len() ==> flows(
                            t,
                            subst_ty(
                                #[trigger] c.constructors[i][k],
                                subst_of(c.generics, ty->Class_1),
                            ),
                            args[k],
                        )
                }
        }),
{
    let c = new_class(t, sc, class)->Ok_0;
    let ty = new_ty(t, sc, c, class, written, args)->Ok_0;
    let s = subst_of(c.generics, ty->Class_1);
    assert(some_takes(t, c.constructors, s, args));
    let i = choose|i: int|
        0 <= i < c.constructors.len() && takes(t, #[trigger] c.constructors[i], s, args);
    assert(takes(t, c.constructors[i], s, args));
}

/// A member that is read or written is a property with that accessor, which may be
/// used here, or a field that may; its type is that of the declaration, the type
/// arguments put in.
pub proof fn member_law(
    t: TableModel,
    sc: Around,
    class: Seq<char>,
    args: Seq<Ty>,
    name: Seq<char>,
    set: bool,
)
    requires
        member_ty(t, sc, class, args, name, set) is Ok,
    ensures
        ({
            let s = subst_of((lookup(t.classes, class)->0).generics, args);
            let ty = member_ty(t, sc, class, args, name, set)->Ok_0;
            &&& lookup(t.classes, class) is Some
            &&& instance_property(t.classes, class, name) matches Some((d, p)) ==> {
                &&& ty == subst_ty(p.ty, s)
                &&& set ==> p.has_setter && accessible(
                    t.classes,
                    sc.class.name,
                    d,
                    p.setter_visibility,
                )
                &&& !set ==> p.has_getter && accessible(
                    t.classes,
                    sc.class.name,
                    d,
                    p.getter_visibility,
                )
            }
            &&& instance_property(t.classes, class, name) is None
                ==> (crate::typer::hierarchy::instance_field(t.classes, class, name) matches Some(
                (d, (declared, v)),
            ) && ty == subst_ty(declared, s) && accessible(t.classes, sc.class.name, d, v))
        }),
{
}

/// Both branches of a choice belong together: one goes into the type of the other,
/// or one is `null` and the choice is nullable. The right side of `??` stands in
/// for what may be `null` on the left, and a component is one of the tuple's.
pub proof fn choice_law(t: TableModel, a: Ty, b: Ty, idx: usize)
    ensures
        ternary_ty(t, a, b) matches Ok(ty) ==> {
            let (x, y) = (resolved(a), resolved(b));
            &&& !x.is_null() && !y.is_null() ==> (flows(t, x, y) || flows(t, y, x)) && (ty == x
                || ty == y)
            &&& !x.is_null() && !y.is_null() && (x is Nullable || y is Nullable) ==> ty is Nullable
            &&& x.is_null() && !y.is_null() ==> ty is Nullable && without_null(ty) == without_null(y)
            &&& y.is_null() && !x.is_null() ==> ty is Nullable && without_null(ty) == without_null(x)
        },
        coalesce_ty(t, a, b) matches Ok(ty) ==> {
            &&& a is Nullable || a.is_null()
            &&& a is Nullable ==> flows(t, a, b) && ty == if b is Nullable {
                a
            } else {
                *a->Nullable_0
            }
        },
        component_ty(a, idx) is Ok <==> a is Tuple && idx < a->Tuple_0.len(),
        component_ty(a, idx) matches Ok(ty) ==> ty == a->Tuple_0[idx as int],
{
}

} // verus!
