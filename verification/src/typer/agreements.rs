//! What the declarations of a program agree on as a whole: which exceptions come
//! out of a call, which way type parameters flow, and what is meant by a name that
//! is not there.

use crate::typer::ast::{ClassDecl, Decl, Member, MethodDecl, Variance};
use crate::typer::descent::{descends, descends_in, subclass_law};
use crate::typer::gather::hierarchy_ok;
use crate::typer::hierarchy::{method_found, Walk};
use crate::typer::info::TableModel;
use crate::typer::keyed::lookup;
use crate::typer::program::each_ok;
use crate::typer::signatures::{
    class_throws, class_variance, gathered, is_exception, mentioning, method_throws, member_variance,
    override_throws, overrides_throw, param_variance, signatures_ok, throw_covered, throw_ok,
    throws_covered, variant_at, with_extension_class, with_extension_members, with_extensions,
};
use crate::typer::suggest::{apart, closest, distance, misspelling};
use crate::typer::types::mentions;
use vstd::prelude::*;

verus! {

proof fn members_extend(t: TableModel, c: ClassDecl, key: Seq<char>, i: int)
    requires
        0 <= i,
        with_extension_members(t, c, key, i) is Ok,
    ensures
        with_extension_members(t, c, key, i)->Ok_0.classes == t.classes,
    decreases c.members@.len() - i,
{
    if i < c.members@.len() {
        match c.members@[i] {
            Member::Method(m) => {
                let next = crate::typer::signatures::with_extension(t, c, key, m)->Ok_0;
                members_extend(next, c, key, i + 1);
            },
            _ => members_extend(t, c, key, i + 1),
        }
    }
}

proof fn extensions_keep(t: TableModel, ds: Seq<Decl>, i: int)
    requires
        0 <= i,
        with_extensions(t, ds, i) is Ok,
    ensures
        with_extensions(t, ds, i)->Ok_0.classes == t.classes,
    decreases ds.len() - i,
{
    if i < ds.len() {
        let next = with_extension_class(t, ds[i])->Ok_0;
        if let Decl::Class(c) = ds[i] {
            if let Some(target) = c.extension_on {
                let key = crate::typer::signatures::extension_key(t, c, target@)->Ok_0;
                members_extend(t, c, key, 0);
            }
        }
        extensions_keep(next, ds, i + 1);
    }
}

/// The tables of a program have gone through all rules about signatures and about
/// the hierarchy, with the classes that they end up with.
pub proof fn gathering_law(t: TableModel, ds: Seq<Decl>) -> (seen: TableModel)
    requires
        gathered(t, ds) is Ok,
    ensures
        hierarchy_ok(seen.classes) is Ok,
        signatures_ok(seen, ds) is Ok,
        gathered(t, ds)->Ok_0.classes == seen.classes,
{
    let a = crate::typer::gather::with_newtypes(t, ds, 0)->Ok_0;
    let b = crate::typer::gather::with_decls(a, ds, 0)->Ok_0;
    let c = crate::typer::gather::with_bases(b, ds, 0)->Ok_0;
    extensions_keep(c, ds, 0);
    c
}

/// What a method declares to throw is a class that descends from `Exception` and has
/// instances.
pub proof fn exception_law(t: TableModel, ds: Seq<Decl>, i: int, c: ClassDecl, j: int, d: MethodDecl, k: int)
    requires
        signatures_ok(t, ds) is Ok,
        0 <= i < ds.len(),
        ds[i] == Decl::Class(c),
        0 <= j < c.members@.len(),
        c.members@[j] == Member::Method(d),
        0 <= k < d.throws@.len(),
    ensures
        descends(t.classes, Walk::Up, d.throws@[k]@, "Exception"@),
        lookup(t.classes, d.throws@[k]@) matches Some(x) && !x.is_interface && !x.is_static,
{
    each_ok(ds.len() as int, 0, |i: int| class_throws(t, ds[i]), i);
    each_ok(c.members@.len() as int, 0, |j: int| method_throws(t, c, c.members@[j]), j);
    each_ok(d.throws@.len() as int, 0, |k: int| throw_ok(t, c, d, d.throws@[k]@), k);
    let exc = d.throws@[k]@;
    assert(is_exception(t, exc));
    subclass_law(t.classes, exc, "Exception"@, "Exception"@);
    assert(descends_in(t.classes, Walk::Up, exc, exc, 0));
}

/// A method that stands in for one of a superclass throws nothing that the other
/// one does not announce, by its class or by one that it descends from.
pub proof fn substitution_law(t: TableModel, ds: Seq<Decl>, i: int, j: int, k: int)
    requires
        signatures_ok(t, ds) is Ok,
        0 <= i < t.classes.len(),
        0 <= j < t.classes[i].1.methods.len(),
        0 <= k < t.classes[i].1.methods[j].1.throws.len(),
        t.classes[i].1.super_class is Some,
        method_found(
            t.classes,
            t.classes[i].1.super_class->0,
            t.classes[i].1.methods[j].0,
        ) is Some,
    ensures
        ({
            let c = t.classes[i].1;
            let exc = c.methods[j].1.throws[k];
            let base = (method_found(t.classes, c.super_class->0, c.methods[j].0)->0).1;
            exists|n: int|
                0 <= n < base.throws.len() && descends(
                    t.classes,
                    Walk::Up,
                    exc,
                    #[trigger] base.throws[n],
                )
        }),
{
    let cs = t.classes;
    let c = cs[i].1;
    let (name, m) = c.methods[j];
    let (d, b) = method_found(cs, c.super_class->0, name)->0;
    each_ok(cs.len() as int, 0, |i: int| overrides_throw(cs, cs[i].1), i);
    each_ok(
        c.methods.len() as int,
        0,
        |j: int| override_throws(cs, c, c.methods[j].0, c.methods[j].1),
        j,
    );
    assert(throws_covered(cs, c.name, name, m, d, b) is Ok);
    each_ok(
        m.throws.len() as int,
        0,
        |k: int| throw_covered(cs, c.name, name, m.throws[k], d, b),
        k,
    );
    let exc = m.throws[k];
    let n = choose|n: int|
        0 <= n < b.throws.len() && (#[trigger] b.throws[n] == exc
            || crate::typer::hierarchy::subclass(cs, exc, b.throws[n]));
    subclass_law(cs, exc, b.throws[n], b.throws[n]);
    assert(descends_in(cs, Walk::Up, exc, exc, 0));
    assert(descends(cs, Walk::Up, exc, b.throws[n]));
}

proof fn first_variant(ps: Seq<crate::typer::ast::GenericParam>, i: int, k: int)
    requires
        0 <= i <= k < ps.len(),
        ps[k].variance != Variance::Invariant,
    ensures
        i <= variant_at(ps, i) <= k,
    decreases k - i,
{
    if ps[i].variance == Variance::Invariant {
        first_variant(ps, i + 1, k);
    }
}

proof fn not_mentioning(ps: Seq<crate::typer::ast::Param>, name: Seq<char>, i: int, k: int)
    requires
        0 <= i <= k < ps.len(),
        mentioning(ps, name, i) >= ps.len(),
    ensures
        !mentions(ps[k].ty@, name),
    decreases k - i,
{
    if i < k {
        not_mentioning(ps, name, i + 1, k);
    }
}

/// Variance: only interfaces have parameters with one; what only comes out stands in
/// no parameter of a method, and what only goes in stands in no result.
pub proof fn variance_law(
    t: TableModel,
    ds: Seq<Decl>,
    i: int,
    c: ClassDecl,
    p: int,
    j: int,
    d: MethodDecl,
    k: int,
)
    requires
        signatures_ok(t, ds) is Ok,
        0 <= i < ds.len(),
        ds[i] == Decl::Class(c),
        0 <= p < c.generic_params@.len(),
        0 <= j < c.members@.len(),
        c.members@[j] == Member::Method(d),
    ensures
        c.generic_params@[p].variance != Variance::Invariant ==> c.is_interface,
        c.generic_params@[p].variance == Variance::Covariant && 0 <= k < d.params@.len()
            ==> !mentions(d.params@[k].ty@, c.generic_params@[p].name@),
        c.generic_params@[p].variance == Variance::Contravariant ==> !mentions(
            d.return_ty@,
            c.generic_params@[p].name@,
        ),
{
    each_ok(ds.len() as int, 0, |i: int| class_variance(ds[i]), i);
    let g = c.generic_params@[p];
    if g.variance != Variance::Invariant {
        first_variant(c.generic_params@, 0, p);
        each_ok(
            c.generic_params@.len() as int,
            0,
            |i: int| param_variance(c, c.generic_params@[i]),
            p,
        );
        each_ok(c.members@.len() as int, 0, |j: int| member_variance(c, g, c.members@[j]), j);
        if g.variance == Variance::Covariant && 0 <= k < d.params@.len() {
            not_mentioning(d.params@, g.name@, 0, k);
        }
    }
}

/// The distance of two texts: no more than to write one over the other, and no less
/// than their lengths differ; one more character is one more step at most.
pub proof fn distance_law(a: Seq<char>, b: Seq<char>, i: int, j: int)
    requires
        0 <= i,
        0 <= j,
    ensures
        distance(a, b, i, j) <= if i < j {
            j
        } else {
            i
        },
        distance(a, b, i, j) >= i - j,
        distance(a, b, i, j) >= j - i,
        distance(a, b, i + 1, j) <= distance(a, b, i, j) + 1,
        distance(a, b, i, j + 1) <= distance(a, b, i, j) + 1,
        a[i] == b[j] ==> distance(a, b, i + 1, j + 1) <= distance(a, b, i, j),
    decreases i, j,
{
    reveal_with_fuel(distance, 2);
    if i > 0 && j > 0 {
        distance_law(a, b, i - 1, j - 1);
        distance_law(a, b, i - 1, j);
        distance_law(a, b, i, j - 1);
    }
}

/// The name that is suggested is one of the names, is not the one that was looked
/// for, is near enough, and no other one is nearer; where none is suggested, none is
/// near enough.
pub proof fn suggestion_law(names: Seq<Seq<char>>, target: Seq<char>, n: int)
    requires
        0 <= n <= names.len(),
    ensures
        closest(names, target, n) matches Some(x) ==> {
            &&& names.contains(x)
            &&& x != target
            &&& apart(x, target) <= misspelling(target)
            &&& forall|k: int|
                0 <= k < n && #[trigger] names[k] != target ==> apart(x, target) <= apart(
                    names[k],
                    target,
                )
        },
        closest(names, target, n) is None ==> forall|k: int|
            0 <= k < n && #[trigger] names[k] != target ==> apart(names[k], target) > misspelling(
                target,
            ),
    decreases n,
{
    if n > 0 {
        suggestion_law(names, target, n - 1);
    }
}

} // verus!
