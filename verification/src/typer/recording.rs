//! What a class remembers of each member that it declares.

use crate::typer::ast::{ClassDecl, Expr, FieldDecl, MethodDecl, PropertyDecl, Ty, UnaryOp};
use crate::typer::info::ClassModel;
use crate::typer::keyed::{lookup, put_laws};
use crate::typer::members::{
    constant_ty, member_names, operator_ok, static_class, static_member, with_components,
    with_constructor, with_default_constructor, with_field, with_property, with_record_parts,
};
use crate::typer::program::each_ok;
use crate::typer::types::{operator_symbol_unique, overloadable};
use vstd::prelude::*;

verus! {

proof fn name_kept(s: Seq<Seq<char>>, n: Seq<char>, m: Seq<char>)
    ensures
        crate::typer::members::with_name(s, n).contains(n),
        m != n ==> (crate::typer::members::with_name(s, n).contains(m) <==> s.contains(m)),
{
    let w = crate::typer::members::with_name(s, n);
    if !s.contains(n) {
        assert(w[s.len() as int] == n);
        if s.contains(m) {
            let i = choose|i: int| 0 <= i < s.len() && s[i] == m;
            assert(w[i] == m);
        }
        if m != n && w.contains(m) {
            let i = choose|i: int| 0 <= i < w.len() && w[i] == m;
            assert(s[i] == m);
        }
    }
}

/// A field joins the fields of its kind, those of instances or those of the class,
/// with its type. It is known to be hidden as far as it was declared so, and nothing
/// changes for fields of other names. An interface has no fields.
pub proof fn field_law(c: ClassDecl, f: FieldDecl, info: ClassModel, other: Seq<char>)
    requires
        with_field(c, f, info) is Ok,
        !info.private_fields.contains(f.name@) && !info.protected_fields.contains(f.name@)
            && !info.internal_fields.contains(f.name@),
        !info.private_static_fields.contains(f.name@) && !info.protected_static_fields.contains(
            f.name@,
        ) && !info.internal_static_fields.contains(f.name@),
        other != f.name@,
    ensures
        ({
            let x = with_field(c, f, info)->Ok_0;
            let n = f.name@;
            &&& !c.is_interface
            &&& lookup(info.properties, n) is None && lookup(info.static_properties, n) is None
            &&& f.is_static ==> {
                &&& x.static_fields == info.static_fields.push((n, f.ty@))
                &&& x.instance_fields == info.instance_fields
                &&& x.private_static_fields.contains(n) <==> f.visibility is Private
                &&& x.protected_static_fields.contains(n) <==> f.visibility is Protected
                &&& x.internal_static_fields.contains(n) <==> f.visibility is Internal
                &&& !x.private_fields.contains(n)
            }
            &&& !f.is_static ==> {
                &&& x.instance_fields == info.instance_fields.push((n, f.ty@))
                &&& x.static_fields == info.static_fields
                &&& x.private_fields.contains(n) <==> f.visibility is Private
                &&& x.protected_fields.contains(n) <==> f.visibility is Protected
                &&& x.internal_fields.contains(n) <==> f.visibility is Internal
                &&& !x.private_static_fields.contains(n)
            }
            &&& x.private_fields.contains(other) <==> info.private_fields.contains(other)
            &&& x.protected_fields.contains(other) <==> info.protected_fields.contains(other)
            &&& x.internal_fields.contains(other) <==> info.internal_fields.contains(other)
            &&& x.methods == info.methods && x.constructors == info.constructors
        }),
{
    name_kept(info.private_fields, f.name@, other);
    name_kept(info.protected_fields, f.name@, other);
    name_kept(info.internal_fields, f.name@, other);
    name_kept(info.private_static_fields, f.name@, other);
    name_kept(info.protected_static_fields, f.name@, other);
    name_kept(info.internal_static_fields, f.name@, other);
}

/// A constructor is called as its class, and takes what it declares; no two take the
/// same. A class that declares none has one that takes nothing.
pub proof fn constructor_law(c: ClassDecl, m: MethodDecl, info: ClassModel)
    ensures
        with_constructor(c, m, info) matches Ok(x) ==> {
            let k = info.constructors.len() as int;
            &&& m.name@ == c.name@ && m.return_ty@ is Unit && !c.is_interface
            &&& x.constructors.len() == k + 1
            &&& forall|i: int| 0 <= i < k ==> #[trigger] x.constructors[i] == info.constructors[i]
            &&& x.constructors[k].len() == m.params@.len()
            &&& forall|i: int|
                0 <= i < m.params@.len() ==> #[trigger] x.constructors[k][i] == m.params@[i].ty@
            &&& forall|i: int| 0 <= i < k ==> #[trigger] info.constructors[i] != x.constructors[k]
        },
        !c.is_interface && info.constructors.len() == 0 ==> with_default_constructor(
            c,
            info,
        ).constructors == seq![Seq::<Ty>::empty()],
        c.is_interface || info.constructors.len() > 0 ==> with_default_constructor(c, info) == info,
{
    if with_constructor(c, m, info) is Ok {
        let ts = crate::typer::members::param_tys(m.params@);
        assert forall|i: int| 0 <= i < info.constructors.len() implies #[trigger] info.constructors[i]
            != ts by {
            if info.constructors[i] == ts {
                assert(info.constructors.contains(ts));
            }
        }
    }
}

/// The overload of an operator takes the right operand and gives a value, and that
/// of a comparison a truth value.
pub proof fn operator_law(c: ClassDecl, m: MethodDecl, sym: Seq<char>)
    requires
        overloadable(sym),
        m.name@ == "operator"@ + sym,
    ensures
        operator_ok(c, m) is Ok ==> m.params@.len() == 1 && !(m.return_ty@ is Unit),
        operator_ok(c, m) is Ok && (sym == "=="@ || sym == "<"@ || sym == "<="@ || sym == ">"@ || sym
            == ">="@) ==> m.return_ty@ is Bool,
        m.params@.len() == 1 && m.return_ty@ is Bool ==> operator_ok(c, m) is Ok,
{
    operator_symbol_unique(m.name@, sym);
}

/// A property joins the properties of its kind under its name, which no other member
/// has. It is read where it has a getter and written where it has a setter.
pub proof fn property_law(c: ClassDecl, p: PropertyDecl, info: ClassModel)
    requires
        with_property(c, p, info) is Ok,
    ensures
        ({
            let x = with_property(c, p, info)->Ok_0;
            let found = if p.is_static {
                lookup(x.static_properties, p.name@)
            } else {
                lookup(x.properties, p.name@)
            };
            &&& !c.is_interface
            &&& !member_names(info).contains(p.name@)
            &&& found is Some
            &&& (found->0).ty == p.ty@
            &&& (found->0).visibility == p.visibility
            &&& (found->0).has_getter == (p.getter is Some)
            &&& (found->0).has_setter == (p.setter is Some)
            &&& p.getter is None ==> (found->0).getter_visibility == p.visibility
            &&& p.setter is None ==> (found->0).setter_visibility == p.visibility
            &&& p.is_static ==> x.properties == info.properties && x.instance_fields
                == info.instance_fields
            &&& !p.is_static ==> x.static_properties == info.static_properties && x.static_fields
                == info.static_fields
        }),
{
    let g = crate::typer::rules::accessor_visibility(
        p.visibility,
        crate::typer::rules::written_visibility(p.getter),
    )->Ok_0;
    let s = crate::typer::rules::accessor_visibility(
        p.visibility,
        crate::typer::rules::written_visibility(p.setter),
    )->Ok_0;
    let model = crate::typer::info::PropertyModel {
        name: p.name@,
        ty: p.ty@,
        visibility: p.visibility,
        getter_visibility: g,
        setter_visibility: s,
        has_getter: p.getter is Some,
        has_setter: p.setter is Some,
        is_static: p.is_static,
    };
    put_laws(info.static_properties, p.name@, model, p.name@);
    put_laws(info.properties, p.name@, model, p.name@);
}

proof fn components_listed(c: ClassDecl, names: Seq<Seq<char>>, i: int, info: ClassModel, k: int)
    requires
        0 <= i <= c.record_params@.len(),
        with_components(c, names, i, info) is Ok,
    ensures
        ({
            let x = with_components(c, names, i, info)->Ok_0;
            let n = info.instance_fields.len() as int;
            &&& x.instance_fields.len() == n + c.record_params@.len() - i
            &&& forall|j: int| 0 <= j < n ==> #[trigger] x.instance_fields[j]
                == info.instance_fields[j]
            &&& i <= k < c.record_params@.len() ==> x.instance_fields[n + k - i] == (
                c.record_params@[k].name@,
                c.record_params@[k].ty@,
            ) && !names.contains(c.record_params@[k].name@)
            &&& x.constructors == info.constructors
        }),
    decreases c.record_params@.len() - i,
{
    if i < c.record_params@.len() {
        let p = c.record_params@[i];
        let next = ClassModel {
            instance_fields: info.instance_fields.push((p.name@, p.ty@)),
            ..info
        };
        components_listed(c, names, i + 1, next, k);
        let x = with_components(c, names, i, info)->Ok_0;
        let n = info.instance_fields.len() as int;
        assert(x.instance_fields[n] == next.instance_fields[n]);
        assert forall|j: int| 0 <= j < n implies #[trigger] x.instance_fields[j]
            == info.instance_fields[j] by {
            assert(x.instance_fields[j] == next.instance_fields[j]);
        }
    }
}

/// A record has a field for each of its components, in their order, behind those that
/// it declares, and a constructor that takes them all.
pub proof fn record_law(c: ClassDecl, info: ClassModel, k: int)
    requires
        c.is_record,
        with_record_parts(c, info) is Ok,
        0 <= k < c.record_params@.len(),
    ensures
        ({
            let x = with_record_parts(c, info)->Ok_0;
            let n = info.instance_fields.len() as int;
            let p = c.record_params@[k];
            &&& x.instance_fields.len() == n + c.record_params@.len()
            &&& x.instance_fields[n + k] == (p.name@, p.ty@)
            &&& !member_names(info).contains(p.name@)
            &&& x.constructors.len() == info.constructors.len() + 1
            &&& x.constructors.last().len() == c.record_params@.len()
            &&& x.constructors.last()[k] == p.ty@
        }),
{
    components_listed(c, member_names(info), 0, info, k);
}

/// A static class has no bases, and each of its members is static.
pub proof fn static_law(c: ClassDecl, k: int)
    requires
        static_class(c) is Ok,
        c.is_static,
        0 <= k < c.members@.len(),
    ensures
        c.bases@.len() == 0,
        c.members@[k] matches crate::typer::ast::Member::Field(f) ==> f.is_static,
        c.members@[k] matches crate::typer::ast::Member::Property(p) ==> p.is_static,
        c.members@[k] matches crate::typer::ast::Member::Method(m) ==> m.is_static
            && !m.is_constructor,
{
    each_ok(c.members@.len() as int, 0, |i: int| static_member(c, c.members@[i]), k);
}

/// A constant is a literal, or a number with a minus sign; its type is that of the
/// literal.
pub proof fn constant_law(c: ClassDecl, f: FieldDecl, init: Expr)
    ensures
        init is Bool ==> constant_ty(c, f, init) == Ok::<Ty, Seq<char>>(Ty::Bool),
        init is Char ==> constant_ty(c, f, init) == Ok::<Ty, Seq<char>>(Ty::Char),
        init is FloatLit ==> constant_ty(c, f, init) == Ok::<Ty, Seq<char>>(Ty::Float64),
        init matches Expr::String(v) ==> constant_ty(c, f, init) == Ok::<Ty, Seq<char>>(
            Ty::StringLit(v@),
        ),
        constant_ty(c, f, init) is Ok ==> init is IntLit || init is FloatLit || init is Bool
            || init is Char || init is String || init is Unary,
        init matches Expr::Unary(op, x) ==> constant_ty(c, f, init) is Ok ==> op == UnaryOp::Neg && (
        *x is IntLit || *x is FloatLit),
        init matches Expr::IntLit(v, s) ==> s == crate::typer::ast::IntSuffix::Plain ==> constant_ty(
            c,
            f,
            init,
        ) == Ok::<Ty, Seq<char>>(Ty::IntLit(v)),
{
}

} // verus!
