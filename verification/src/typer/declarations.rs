//! What declarations come to: the members of a class as they were declared, the
//! rules that declarations keep, and types with their variables put in.

use crate::typer::assign::flows;
use crate::typer::ast::{ClassDecl, Member, MethodDecl, ParamModel, Ty, Visibility};
use crate::typer::gather::{bases_from, hierarchy_ok, split_of, super_ok, Split};
use crate::typer::hierarchy::supers;
use crate::typer::info::{ClassModel, TableModel};
use crate::typer::keyed::{lookup, put, put_laws};
use crate::typer::members::{
    bare_class, class_model, constant_ty, initializer, method_model, with_components, with_member,
    with_members,
};
use crate::typer::program::each_ok;
use crate::typer::rules::accessor_visibility;
use crate::typer::types::{any_mentions, mentions, subst_all, subst_of, subst_ty, subst_upto};
use vstd::prelude::*;

verus! {

// ---------------------------------------------------------------------------
// Types with their variables put in
// ---------------------------------------------------------------------------

/// A name stands in a type as a variable only: not as a class with arguments, nor
/// inside a wrapper.
pub open spec fn as_variable(t: Ty, n: Seq<char>) -> bool
    decreases t,
{
    match t {
        Ty::Class(m, args) => (m != n || args.len() == 0) && forall|i: int|
            0 <= i < args.len() ==> as_variable(#[trigger] args[i], n),
        Ty::Nullable(u) => as_variable(*u, n),
        Ty::Newtype(_, u) => !mentions(*u, n),
        Ty::Tuple(ts) => forall|i: int| 0 <= i < ts.len() ==> as_variable(#[trigger] ts[i], n),
        Ty::Func(ps, r) => (forall|i: int| 0 <= i < ps.len() ==> as_variable(#[trigger] ps[i], n))
            && as_variable(*r, n),
        _ => true,
    }
}

proof fn each_gone(ts: Seq<Ty>, s: Seq<(Seq<char>, Ty)>, n: Seq<char>)
    requires
        lookup(s, n) is Some,
        forall|m: Seq<char>| lookup(s, m) is Some ==> !mentions(#[trigger] lookup(s, m)->0, n),
        forall|i: int| 0 <= i < ts.len() ==> as_variable(#[trigger] ts[i], n),
    ensures
        !any_mentions(subst_all(ts, s), n),
    decreases ts, 1int,
{
    assert forall|i: int| 0 <= i < subst_all(ts, s).len() implies !mentions(
        #[trigger] subst_all(ts, s)[i],
        n,
    ) by {
        assert(as_variable(ts[i], n));
        assert(decreases_to!(ts => ts[i]));
        variable_law(ts[i], s, n);
    }
}

/// A variable that is put in is gone: it is mentioned nowhere in the type
/// afterwards, where what is put in does not mention it.
pub proof fn variable_law(t: Ty, s: Seq<(Seq<char>, Ty)>, n: Seq<char>)
    requires
        lookup(s, n) is Some,
        forall|m: Seq<char>| lookup(s, m) is Some ==> !mentions(#[trigger] lookup(s, m)->0, n),
        as_variable(t, n),
    ensures
        !mentions(subst_ty(t, s), n),
    decreases t, 0int,
{
    match t {
        Ty::Class(m, args) => {
            if !(args.len() == 0 && lookup(s, m) is Some) {
                each_gone(args, s, n);
            }
        },
        Ty::Nullable(u) => variable_law(*u, s, n),
        Ty::Tuple(ts) => each_gone(ts, s, n),
        Ty::Func(ps, r) => {
            each_gone(ps, s, n);
            variable_law(*r, s, n);
        },
        _ => {},
    }
}

proof fn arguments_upto(ps: Seq<ParamModel>, args: Seq<Ty>, n: int, k: int)
    requires
        0 <= k < n <= ps.len(),
        n <= args.len(),
        forall|i: int, j: int| 0 <= i < j < n ==> (#[trigger] ps[i]).name != (#[trigger] ps[j]).name,
    ensures
        lookup(subst_upto(ps, args, n), ps[k].name) == Some(args[k]),
    decreases n,
{
    let before = subst_upto(ps, args, n - 1);
    put_laws(before, ps[n - 1].name, args[n - 1], ps[k].name);
    if k < n - 1 {
        arguments_upto(ps, args, n - 1, k);
    }
}

/// Each type parameter stands for its argument, and puts it in.
pub proof fn argument_law(ps: Seq<ParamModel>, args: Seq<Ty>, k: int)
    requires
        ps.len() == args.len(),
        0 <= k < ps.len(),
        forall|i: int, j: int|
            0 <= i < j < ps.len() ==> (#[trigger] ps[i]).name != (#[trigger] ps[j]).name,
    ensures
        subst_ty(Ty::GenericParam(ps[k].name), subst_of(ps, args)) == args[k],
        subst_ty(Ty::Class(ps[k].name, seq![]), subst_of(ps, args)) == args[k],
        subst_ty(Ty::Nullable(Box::new(Ty::GenericParam(ps[k].name))), subst_of(ps, args))
            == Ty::Nullable(Box::new(args[k])),
{
    arguments_upto(ps, args, ps.len() as int, k);
    reveal_with_fuel(subst_ty, 2);
}

// ---------------------------------------------------------------------------
// Members
// ---------------------------------------------------------------------------

/// A member is a method of a name, static or not.
pub open spec fn is_method(m: Member, name: Seq<char>, is_static: bool) -> bool {
    m matches Member::Method(d) && !d.is_constructor && d.name@ == name && d.is_static == is_static
}

proof fn member_keeps(c: ClassDecl, m: Member, info: ClassModel, name: Seq<char>)
    requires
        with_member(c, m, info) is Ok,
    ensures
        ({
            let next = with_member(c, m, info)->Ok_0;
            &&& !is_method(m, name, false) ==> lookup(next.methods, name) == lookup(
                info.methods,
                name,
            )
            &&& !is_method(m, name, true) ==> lookup(next.static_methods, name) == lookup(
                info.static_methods,
                name,
            )
            &&& is_method(m, name, false) ==> lookup(next.methods, name) == Some(
                method_model(c, m->Method_0),
            )
            &&& is_method(m, name, true) ==> lookup(next.static_methods, name) == Some(
                method_model(c, m->Method_0),
            )
            &&& next.name == info.name && next.is_abstract == info.is_abstract && next.is_interface
                == info.is_interface && next.is_static == info.is_static && next.is_sealed
                == info.is_sealed && next.is_record == info.is_record && next.generics
                == info.generics
        }),
{
    if let Member::Method(d) = m {
        if !d.is_constructor {
            put_laws(info.methods, d.name@, method_model(c, d), name);
            put_laws(info.static_methods, d.name@, method_model(c, d), name);
        }
    }
}

proof fn members_keep(c: ClassDecl, i: int, info: ClassModel, k: int, name: Seq<char>, is_static: bool)
    requires
        0 <= i <= c.members@.len(),
        with_members(c, i, info) is Ok,
        i <= k ==> k < c.members@.len() && is_method(c.members@[k], name, is_static),
        forall|j: int|
            i <= j < c.members@.len() && j > k ==> !is_method(#[trigger] c.members@[j], name, is_static),
    ensures
        ({
            let after = with_members(c, i, info)->Ok_0;
            let found = if is_static {
                lookup(after.static_methods, name)
            } else {
                lookup(after.methods, name)
            };
            let before = if is_static {
                lookup(info.static_methods, name)
            } else {
                lookup(info.methods, name)
            };
            &&& i <= k ==> found == Some(method_model(c, c.members@[k]->Method_0))
            &&& i > k ==> found == before
        }),
    decreases c.members@.len() - i,
{
    if i < c.members@.len() {
        member_keeps(c, c.members@[i], info, name);
        let next = with_member(c, c.members@[i], info)->Ok_0;
        members_keep(c, i + 1, next, k, name, is_static);
    }
}

proof fn flags_keep(c: ClassDecl, i: int, info: ClassModel)
    requires
        0 <= i <= c.members@.len(),
        with_members(c, i, info) is Ok,
    ensures
        ({
            let after = with_members(c, i, info)->Ok_0;
            after.name == info.name && after.is_abstract == info.is_abstract && after.is_interface
                == info.is_interface && after.is_static == info.is_static && after.is_sealed
                == info.is_sealed && after.is_record == info.is_record && after.generics
                == info.generics
        }),
    decreases c.members@.len() - i,
{
    if i < c.members@.len() {
        member_keeps(c, c.members@[i], info, c.name@);
        flags_keep(c, i + 1, with_member(c, c.members@[i], info)->Ok_0);
    }
}

proof fn components_keep(c: ClassDecl, names: Seq<Seq<char>>, i: int, info: ClassModel)
    requires
        0 <= i,
        with_components(c, names, i, info) is Ok,
    ensures
        ({
            let after = with_components(c, names, i, info)->Ok_0;
            &&& after.methods == info.methods
            &&& after.static_methods == info.static_methods
            &&& after.name == info.name && after.is_abstract == info.is_abstract
                && after.is_interface == info.is_interface && after.is_static == info.is_static
                && after.is_sealed == info.is_sealed && after.is_record == info.is_record
                && after.generics == info.generics
        }),
    decreases c.record_params@.len() - i,
{
    if i < c.record_params@.len() {
        let p = c.record_params@[i];
        components_keep(
            c,
            names,
            i + 1,
            ClassModel { instance_fields: info.instance_fields.push((p.name@, p.ty@)), ..info },
        );
    }
}

/// The method of a class that was declared last under a name is known under it,
/// with the types of its parameters in order, its result type and its visibility.
pub proof fn method_law(t: TableModel, c: ClassDecl, k: int, d: MethodDecl)
    requires
        class_model(t, c) is Ok,
        0 <= k < c.members@.len(),
        c.members@[k] == Member::Method(d),
        !d.is_constructor,
        forall|j: int|
            k < j < c.members@.len() ==> !is_method(#[trigger] c.members@[j], d.name@, d.is_static),
    ensures
        ({
            let info = class_model(t, c)->Ok_0;
            let found = if d.is_static {
                lookup(info.static_methods, d.name@)
            } else {
                lookup(info.methods, d.name@)
            };
            &&& found is Some
            &&& (found->0).name == d.name@
            &&& (found->0).return_ty == d.return_ty@
            &&& (found->0).params.len() == d.params@.len()
            &&& forall|i: int|
                0 <= i < d.params@.len() ==> #[trigger] (found->0).params[i] == d.params@[i].ty@
            &&& (found->0).visibility == d.visibility
            &&& (found->0).is_instance == !d.is_static
            &&& (found->0).is_abstract == (d.is_abstract || c.is_interface && d.body@.len() == 0)
            &&& (found->0).is_final == d.is_final
            &&& (found->0).is_async == d.is_async
            &&& (found->0).throws.len() == d.throws@.len()
        }),
{
    let bare = bare_class(c);
    members_keep(c, 0, bare, k, d.name@, d.is_static);
    let x = with_members(c, 0, bare)->Ok_0;
    if c.is_record {
        components_keep(c, crate::typer::members::member_names(x), 0, x);
    }
}

/// A class is known as what it was declared, and has a constructor unless it is an
/// interface.
pub proof fn class_law(t: TableModel, c: ClassDecl)
    requires
        class_model(t, c) is Ok,
    ensures
        ({
            let info = class_model(t, c)->Ok_0;
            &&& lookup(t.classes, c.name@) is None && lookup(t.enums, c.name@) is None && lookup(
                t.newtypes,
                c.name@,
            ) is None
            &&& info.name == c.name@
            &&& info.is_abstract == c.is_abstract
            &&& info.is_interface == c.is_interface
            &&& info.is_static == c.is_static
            &&& info.is_sealed == c.is_sealed
            &&& info.is_record == c.is_record
            &&& info.generics.len() == c.generic_params@.len()
            &&& !(c.is_abstract && (c.is_interface || c.is_sealed))
            &&& !c.is_interface ==> info.constructors.len() > 0
        }),
{
    let bare = bare_class(c);
    flags_keep(c, 0, bare);
    let x = with_members(c, 0, bare)->Ok_0;
    if c.is_record {
        components_keep(c, crate::typer::members::member_names(x), 0, x);
    }
}

proof fn declared_ok(c: ClassDecl, i: int, info: ClassModel, k: int)
    requires
        0 <= i <= k < c.members@.len(),
        with_members(c, i, info) is Ok,
    ensures
        exists|before: ClassModel| #[trigger] with_member(c, c.members@[k], before) is Ok,
    decreases k - i,
{
    if i < k {
        declared_ok(c, i + 1, with_member(c, c.members@[i], info)->Ok_0, k);
    } else {
        assert(with_member(c, c.members@[k], info) is Ok);
    }
}

/// The rules for methods: what is abstract stands in an abstract class or an
/// interface and is neither static nor final; nothing is both final and virtual; an
/// `async` method is static and returns a task; the methods of an interface are
/// neither static, nor final, nor hidden.
pub proof fn modifier_law(t: TableModel, c: ClassDecl, k: int, d: MethodDecl)
    requires
        class_model(t, c) is Ok,
        0 <= k < c.members@.len(),
        c.members@[k] == Member::Method(d),
    ensures
        !d.is_constructor && d.is_abstract ==> (c.is_abstract || c.is_interface) && !d.is_static
            && !d.is_final,
        !d.is_constructor ==> !(d.is_final && d.is_virtual),
        !d.is_constructor && d.is_async ==> d.is_static && d.throws@.len() == 0 && (d.return_ty@
            matches Ty::Class(n, args) && n == "Task"@ && args.len() == 1),
        !d.is_constructor && c.is_interface ==> !d.is_static && !d.is_final && d.visibility
            != Visibility::Private && d.visibility != Visibility::Protected,
        d.is_constructor ==> !c.is_interface && d.name@ == c.name@ && d.return_ty@ is Unit,
        c.is_static ==> !d.is_constructor && d.is_static,
{
    declared_ok(c, 0, bare_class(c), k);
    if c.is_static {
        each_ok(
            c.members@.len() as int,
            0,
            |i: int| crate::typer::members::static_member(c, c.members@[i]),
            k,
        );
    }
}

/// A field with an initial value is static, and the value is a constant that goes
/// into its type.
pub proof fn initial_law(t: TableModel, c: ClassDecl, k: int, f: crate::typer::ast::FieldDecl)
    requires
        class_model(t, c) is Ok,
        0 <= k < c.members@.len(),
        c.members@[k] == Member::Field(f),
        f.init is Some,
    ensures
        f.is_static,
        constant_ty(c, f, f.init->0) matches Ok(ty) && flows(t, f.ty@, ty),
{
    each_ok(c.members@.len() as int, 0, |i: int| initializer(t, c, c.members@[i]), k);
}

/// An accessor is never more open than its property.
pub proof fn accessor_law(property: Visibility, own: Option<Visibility>)
    requires
        accessor_visibility(property, own) is Ok,
    ensures
        ({
            let v = accessor_visibility(property, own)->Ok_0;
            &&& own is None ==> v == property
            &&& own is Some ==> v == own->0 && v != property
            &&& v is Public ==> property is Public
            &&& property is Private ==> v is Private
            &&& property is Protected ==> v is Protected || v is Private
            &&& property is Internal ==> !(v is Public)
        }),
{
}

// ---------------------------------------------------------------------------
// Bases
// ---------------------------------------------------------------------------

proof fn bases_hold(t: TableModel, c: ClassDecl, i: int, acc: Split)
    requires
        0 <= i <= c.bases@.len(),
        bases_from(t, c, i, acc) is Ok,
    ensures
        ({
            let s = bases_from(t, c, i, acc)->Ok_0;
            &&& acc.super_class is Some ==> s.super_class == acc.super_class
            &&& acc.super_class is None ==> (s.super_class matches Some(b) ==> good_base(t, c, b))
            &&& forall|k: int|
                0 <= k < s.interfaces.len() ==> acc.interfaces.contains(#[trigger] s.interfaces[k])
                    || (lookup(t.classes, s.interfaces[k]) matches Some(b) && b.is_interface)
        }),
    decreases c.bases@.len() - i,
{
    if i < c.bases@.len() {
        let base = c.bases@[i].0@;
        let args = crate::typer::ast::tys(c.bases@[i].1@);
        let b = lookup(t.classes, base)->0;
        let next = if b.is_interface {
            Split {
                super_class: acc.super_class,
                interfaces: acc.interfaces.push(base),
                args: put(acc.args, base, args),
            }
        } else {
            Split { super_class: Some(base), interfaces: acc.interfaces, args: acc.args }
        };
        bases_hold(t, c, i + 1, next);
        let s = bases_from(t, c, i, acc)->Ok_0;
        assert forall|k: int| 0 <= k < s.interfaces.len() implies acc.interfaces.contains(
            #[trigger] s.interfaces[k],
        ) || (lookup(t.classes, s.interfaces[k]) matches Some(x) && x.is_interface) by {
            if next.interfaces.contains(s.interfaces[k]) && !acc.interfaces.contains(
                s.interfaces[k],
            ) {
                let j = choose|j: int|
                    0 <= j < next.interfaces.len() && next.interfaces[j] == s.interfaces[k];
                if j < acc.interfaces.len() {
                    assert(acc.interfaces[j] == s.interfaces[k]);
                }
            }
        }
    } else {
        assert forall|k: int| 0 <= k < acc.interfaces.len() implies acc.interfaces.contains(
            #[trigger] acc.interfaces[k],
        ) by {}
    }
}

/// A class that another one can extend.
pub open spec fn good_base(t: TableModel, c: ClassDecl, base: Seq<char>) -> bool {
    lookup(t.classes, base) matches Some(b) && !b.is_interface && !b.is_sealed && !c.is_record
        && !c.is_interface
}

/// Inheritance: the superclass is a class that is neither sealed nor an interface
/// nor static, records and interfaces have none, and what a class implements are
/// interfaces.
pub proof fn base_law(t: TableModel, c: ClassDecl, k: int)
    requires
        split_of(t, c) is Ok,
    ensures
        ({
            let s = split_of(t, c)->Ok_0;
            &&& s.super_class matches Some(b) ==> good_base(t, c, b)
            &&& 0 <= k < s.interfaces.len() ==> (lookup(t.classes, s.interfaces[k]) matches Some(b)
                && b.is_interface)
        }),
        0 <= k < c.bases@.len() ==> (lookup(t.classes, c.bases@[k].0@) matches Some(b)
            ==> !b.is_static),
{
    let none = Split { super_class: None, interfaces: seq![], args: seq![] };
    bases_hold(t, c, 0, none);
    if 0 <= k < c.bases@.len() {
        each_ok(
            c.bases@.len() as int,
            0,
            |i: int| crate::typer::gather::base_not_static(t, c.bases@[i].0@),
            k,
        );
    }
}

/// No class is among its own superclasses.
pub proof fn acyclic_law(cs: Seq<(Seq<char>, ClassModel)>, k: int, i: int)
    requires
        hierarchy_ok(cs) is Ok,
        0 <= k < cs.len(),
        cs[k].1.super_class is Some,
        0 <= i < supers(cs, cs[k].1.super_class->0).len(),
    ensures
        cs[supers(cs, cs[k].1.super_class->0)[i]].0 != cs[k].1.name,
{
    each_ok(cs.len() as int, 0, |i: int| super_ok(cs, cs[i].1), k);
    assert(super_ok(cs, cs[k].1) is Ok);
}

} // verus!
