//! Who may use what: the members that a class has, where they come from and from
//! where they can be reached; which types can be written; which exceptions are
//! accounted for.

use crate::typer::ast::{ParamModel, Ty, Visibility};
use crate::typer::descent::{descends, descends_in, subclass_law, walk_law};
use crate::typer::hierarchy::{
    chain, chain_bounds, class_method, first_in, instance_field, method_among, method_found, own_field,
    place_entry, reach, static_method, supers, Walk,
};
use crate::typer::info::{ClassModel, TableModel};
use crate::typer::keyed::{lookup, place};
use crate::typer::rules::{
    accessible, module_of, param_named, throws_handled, valid, valid_all, Around,
};
use vstd::prelude::*;

verus! {

/// A class is declared inside another one: its name goes on behind a dot.
pub open spec fn inside(inner: Seq<char>, outer: Seq<char>) -> bool {
    exists|rest: Seq<char>| rest.len() > 0 && inner == #[trigger] (outer + seq!['.'] + rest)
}

/// Visibility: a private member is reached from its class and from the classes
/// inside it, a protected one from subclasses too, an internal one from its module,
/// and a public one from everywhere.
pub proof fn access_law(cs: Seq<(Seq<char>, ClassModel)>, current: Seq<char>, owner: Seq<char>)
    ensures
        accessible(cs, current, owner, Visibility::Public),
        accessible(cs, current, owner, Visibility::Private) <==> current == owner || inside(
            current,
            owner,
        ),
        accessible(cs, current, owner, Visibility::Protected) <==> accessible(
            cs,
            current,
            owner,
            Visibility::Private,
        ) || descends(cs, Walk::Up, current, owner),
        accessible(cs, current, owner, Visibility::Internal) <==> module_of(cs, current)
            == module_of(cs, owner),
{
    subclass_law(cs, current, owner, owner);
    let n = owner.len() as int;
    if inside(current, owner) {
        let rest = choose|rest: Seq<char>|
            rest.len() > 0 && current == #[trigger] (owner + seq!['.'] + rest);
        assert(current.subrange(0, n) =~= owner);
        assert(current[n] == '.');
    }
    if crate::typer::rules::nested_in(current, owner) {
        let rest = current.subrange(n + 1, current.len() as int);
        assert(current =~= owner + seq!['.'] + rest);
        assert(inside(current, owner));
    }
}

/// The entry of a class and the entry of its superclass.
pub open spec fn above(cs: Seq<(Seq<char>, ClassModel)>, p: int, q: int) -> bool {
    cs[p].1.super_class matches Some(s) && cs[q].0 == s
}

proof fn chain_linked(cs: Seq<(Seq<char>, ClassModel)>, name: Seq<char>, left: nat)
    ensures
        chain(cs, name, left).len() > 0 ==> cs[chain(cs, name, left)[0]].0 == name,
        forall|i: int|
            0 <= i < chain(cs, name, left).len() - 1 ==> above(
                cs,
                #[trigger] chain(cs, name, left)[i],
                chain(cs, name, left)[i + 1],
            ),
    decreases left,
{
    let p = place(cs, name, 0);
    place_entry(cs, name, 0);
    if left > 0 && 0 <= p < cs.len() {
        match cs[p].1.super_class {
            None => {},
            Some(s) => {
                let rest = chain(cs, s, (left - 1) as nat);
                let all = chain(cs, name, left);
                chain_linked(cs, s, (left - 1) as nat);
                assert forall|i: int| 0 <= i < all.len() - 1 implies above(
                    cs,
                    #[trigger] all[i],
                    all[i + 1],
                ) by {
                    if i > 0 {
                        assert(all[i] == rest[i - 1]);
                        assert(all[i + 1] == rest[i - 1 + 1]);
                    } else {
                        assert(all[1] == rest[0]);
                    }
                }
            },
        }
    }
}

proof fn first_found<T>(
    cs: Seq<(Seq<char>, ClassModel)>,
    ps: Seq<int>,
    i: int,
    f: spec_fn(ClassModel) -> Option<T>,
)
    requires
        0 <= i,
    ensures
        first_in(cs, ps, i, f) matches Some((d, t)) ==> exists|k: int|
            i <= k < ps.len() && cs[#[trigger] ps[k]].0 == d && f(cs[ps[k]].1) == Some(t) && forall|
                j: int,
            |
                i <= j < k ==> f(cs[#[trigger] ps[j]].1) is None,
        first_in(cs, ps, i, f) is None ==> forall|k: int|
            i <= k < ps.len() ==> f(cs[#[trigger] ps[k]].1) is None,
    decreases ps.len() - i,
{
    if i < ps.len() {
        if f(cs[ps[i]].1) is Some {
            assert(cs[ps[i]].0 == (first_in(cs, ps, i, f)->0).0);
        } else {
            first_found(cs, ps, i + 1, f);
        }
    }
}

/// The line of superclasses of a class starts with the class, and goes from each
/// class to its superclass.
pub proof fn superclass_law(cs: Seq<(Seq<char>, ClassModel)>, class: Seq<char>, i: int)
    requires
        0 <= i < supers(cs, class).len(),
    ensures
        0 <= supers(cs, class)[i] < cs.len(),
        i == 0 ==> cs[supers(cs, class)[i]].0 == class,
        i > 0 ==> above(cs, supers(cs, class)[i - 1], supers(cs, class)[i]),
        supers(cs, class).len() <= cs.len(),
{
    chain_bounds(cs, class, cs.len());
    chain_linked(cs, class, cs.len());
    if i > 0 {
        assert(above(cs, supers(cs, class)[i - 1], supers(cs, class)[i - 1 + 1]));
    }
}

/// A field, and with it its type and its visibility, is that of the nearest class
/// in the line that declares it.
pub proof fn field_law(cs: Seq<(Seq<char>, ClassModel)>, class: Seq<char>, field: Seq<char>)
    ensures
        instance_field(cs, class, field) matches Some((d, (ty, v))) ==> exists|k: int|
            {
                &&& 0 <= k < supers(cs, class).len()
                &&& cs[#[trigger] supers(cs, class)[k]].0 == d
                &&& lookup(cs[supers(cs, class)[k]].1.instance_fields, field) == Some(ty)
                &&& forall|j: int|
                    0 <= j < k ==> lookup(
                        cs[#[trigger] supers(cs, class)[j]].1.instance_fields,
                        field,
                    ) is None
                &&& v == Visibility::Private
                    <==> cs[supers(cs, class)[k]].1.private_fields.contains(field)
            },
        instance_field(cs, class, field) is None ==> forall|k: int|
            0 <= k < supers(cs, class).len() ==> lookup(
                cs[#[trigger] supers(cs, class)[k]].1.instance_fields,
                field,
            ) is None,
{
    let f = |c: ClassModel| own_field(c, field);
    let ps = supers(cs, class);
    first_found(cs, ps, 0, f);
    if instance_field(cs, class, field) is Some {
        let (d, t) = instance_field(cs, class, field)->0;
        let k = choose|k: int|
            0 <= k < ps.len() && cs[#[trigger] ps[k]].0 == d && f(cs[ps[k]].1) == Some(t) && forall|
                j: int,
            |
                0 <= j < k ==> f(cs[#[trigger] ps[j]].1) is None;
        assert forall|j: int| 0 <= j < k implies lookup(
            cs[#[trigger] ps[j]].1.instance_fields,
            field,
        ) is None by {
            assert(f(cs[ps[j]].1) is None);
        }
        assert(cs[ps[k]].0 == d);
    } else {
        assert forall|k: int| 0 <= k < ps.len() implies lookup(
            cs[#[trigger] ps[k]].1.instance_fields,
            field,
        ) is None by {
            assert(f(cs[ps[k]].1) is None);
        }
    }
}

/// A method, static or not, is that of the nearest class in the line that declares
/// it.
pub proof fn method_law(cs: Seq<(Seq<char>, ClassModel)>, class: Seq<char>, name: Seq<char>)
    ensures
        class_method(cs, class, name) matches Some((d, m)) ==> exists|k: int|
            {
                &&& 0 <= k < supers(cs, class).len()
                &&& cs[#[trigger] supers(cs, class)[k]].0 == d
                &&& lookup(cs[supers(cs, class)[k]].1.methods, name) == Some(m)
                &&& forall|j: int|
                    0 <= j < k ==> lookup(cs[#[trigger] supers(cs, class)[j]].1.methods, name) is None
            },
        class_method(cs, class, name) is None ==> forall|k: int|
            0 <= k < supers(cs, class).len() ==> lookup(
                cs[#[trigger] supers(cs, class)[k]].1.methods,
                name,
            ) is None,
        static_method(cs, class, name) matches Some((d, m)) ==> exists|k: int|
            {
                &&& 0 <= k < supers(cs, class).len()
                &&& cs[#[trigger] supers(cs, class)[k]].0 == d
                &&& lookup(cs[supers(cs, class)[k]].1.static_methods, name) == Some(m)
                &&& forall|j: int|
                    0 <= j < k ==> lookup(
                        cs[#[trigger] supers(cs, class)[j]].1.static_methods,
                        name,
                    ) is None
            },
        static_method(cs, class, name) is None ==> forall|k: int|
            0 <= k < supers(cs, class).len() ==> lookup(
                cs[#[trigger] supers(cs, class)[k]].1.static_methods,
                name,
            ) is None,
{
    let ps = supers(cs, class);
    let f = |c: ClassModel| lookup(c.methods, name);
    let g = |c: ClassModel| lookup(c.static_methods, name);
    first_found(cs, ps, 0, f);
    first_found(cs, ps, 0, g);
    if class_method(cs, class, name) is Some {
        let (d, m) = class_method(cs, class, name)->0;
        let k = choose|k: int|
            0 <= k < ps.len() && cs[#[trigger] ps[k]].0 == d && f(cs[ps[k]].1) == Some(m) && forall|
                j: int,
            |
                0 <= j < k ==> f(cs[#[trigger] ps[j]].1) is None;
        assert forall|j: int| 0 <= j < k implies lookup(cs[#[trigger] ps[j]].1.methods, name) is None by {
            assert(f(cs[ps[j]].1) is None);
        }
        assert(cs[ps[k]].0 == d);
    } else {
        assert forall|k: int| 0 <= k < ps.len() implies lookup(
            cs[#[trigger] ps[k]].1.methods,
            name,
        ) is None by {
            assert(f(cs[ps[k]].1) is None);
        }
    }
    if static_method(cs, class, name) is Some {
        let (d, m) = static_method(cs, class, name)->0;
        let k = choose|k: int|
            0 <= k < ps.len() && cs[#[trigger] ps[k]].0 == d && g(cs[ps[k]].1) == Some(m) && forall|
                j: int,
            |
                0 <= j < k ==> g(cs[#[trigger] ps[j]].1) is None;
        assert forall|j: int| 0 <= j < k implies lookup(
            cs[#[trigger] ps[j]].1.static_methods,
            name,
        ) is None by {
            assert(g(cs[ps[j]].1) is None);
        }
        assert(cs[ps[k]].0 == d);
    } else {
        assert forall|k: int| 0 <= k < ps.len() implies lookup(
            cs[#[trigger] ps[k]].1.static_methods,
            name,
        ) is None by {
            assert(g(cs[ps[k]].1) is None);
        }
    }
}

proof fn among_found(
    cs: Seq<(Seq<char>, ClassModel)>,
    names: Seq<Seq<char>>,
    i: int,
    method: Seq<char>,
)
    requires
        0 <= i,
    ensures
        method_among(cs, names, i, method) matches Some((d, m)) ==> names.contains(d) && (lookup(
            cs,
            d,
        ) matches Some(c) && lookup(c.methods, method) == Some(m)),
        method_among(cs, names, i, method) is None ==> forall|k: int|
            i <= k < names.len() ==> (lookup(cs, #[trigger] names[k]) matches Some(c) ==> lookup(
                c.methods,
                method,
            ) is None),
    decreases names.len() - i,
{
    if i < names.len() {
        match lookup(cs, names[i]) {
            None => {
                among_found(cs, names, i + 1, method);
            },
            Some(c) => {
                if lookup(c.methods, method) is None {
                    among_found(cs, names, i + 1, method);
                }
            },
        }
    }
}

/// A method on a value comes from a class or an interface that the value's class
/// descends from, and where no such class declares it there is none.
pub proof fn inherited_method_law(
    cs: Seq<(Seq<char>, ClassModel)>,
    class: Seq<char>,
    method: Seq<char>,
    base: Seq<char>,
)
    ensures
        method_found(cs, class, method) matches Some((d, m)) ==> descends(cs, Walk::Up, class, d)
            && (lookup(cs, d) matches Some(c) && lookup(c.methods, method) == Some(m)),
        method_found(cs, class, method) is None && descends(cs, Walk::Up, class, base) ==> (lookup(
            cs,
            base,
        ) matches Some(c) ==> lookup(c.methods, method) is None),
{
    let names = reach(cs, seq![class], seq![], Walk::Up);
    among_found(cs, names, 0, method);
    walk_law(cs, Walk::Up, class, base);
    if method_found(cs, class, method) is Some {
        walk_law(cs, Walk::Up, class, (method_found(cs, class, method)->0).0);
    } else if descends(cs, Walk::Up, class, base) {
        let k = choose|k: int| 0 <= k < names.len() && names[k] == base;
        assert(names[k] == base);
    }
}

/// An exception is caught around a call, or declared by the method around it, by
/// its own class or by one that it descends from.
pub open spec fn accounted(t: TableModel, sc: Around, exc: Seq<char>) -> bool {
    ||| exists|i: int|
        0 <= i < sc.handled.len() && (#[trigger] sc.handled[i] matches Ty::Class(n, _) && descends(
            t.classes,
            Walk::Up,
            exc,
            n,
        ))
    ||| exists|i: int|
        0 <= i < sc.throws.len() && descends(t.classes, Walk::Up, exc, #[trigger] sc.throws[i])
}

proof fn accounting(t: TableModel, sc: Around, exc: Seq<char>)
    ensures
        crate::typer::rules::caught(t.classes, sc.handled, exc) || crate::typer::rules::declared(
            t.classes,
            sc.throws,
            exc,
        ) <==> accounted(t, sc, exc),
{
    assert forall|n: Seq<char>| #[trigger]
        crate::typer::hierarchy::subclass(t.classes, exc, n) <==> descends(
        t.classes,
        Walk::Up,
        exc,
        n,
    ) by {
        subclass_law(t.classes, exc, n, n);
    }
    assert(descends(t.classes, Walk::Up, exc, exc)) by {
        assert(descends_in(t.classes, Walk::Up, exc, exc, 0));
    }
    if accounted(t, sc, exc) {
        if exists|i: int|
            0 <= i < sc.handled.len() && (#[trigger] sc.handled[i] matches Ty::Class(n, _)
                && descends(t.classes, Walk::Up, exc, n)) {
            let i = choose|i: int|
                0 <= i < sc.handled.len() && (#[trigger] sc.handled[i] matches Ty::Class(n, _)
                    && descends(t.classes, Walk::Up, exc, n));
            assert(crate::typer::hierarchy::subclass(t.classes, exc, sc.handled[i]->Class_0));
        } else {
            let i = choose|i: int|
                0 <= i < sc.throws.len() && descends(
                    t.classes,
                    Walk::Up,
                    exc,
                    #[trigger] sc.throws[i],
                );
            assert(crate::typer::hierarchy::subclass(t.classes, exc, sc.throws[i]));
        }
    }
}

/// A call passes where each exception that the method declares is accounted for.
pub proof fn throwing_law(
    t: TableModel,
    sc: Around,
    throws: Seq<Seq<char>>,
    i: int,
    callee: Seq<char>,
)
    requires
        0 <= i,
    ensures
        throws_handled(t, sc, throws, i, callee) is Ok <==> (forall|k: int|
            i <= k < throws.len() ==> accounted(t, sc, #[trigger] throws[k])),
    decreases throws.len() - i,
{
    if i < throws.len() {
        accounting(t, sc, throws[i]);
        if accounted(t, sc, throws[i]) {
            throwing_law(t, sc, throws, i + 1, callee);
        }
    }
}

proof fn all_valid(t: TableModel, ts: Seq<Ty>, i: int, ps: Seq<ParamModel>)
    requires
        0 <= i,
        valid_all(t, ts, i, ps) is Ok,
    ensures
        forall|k: int| i <= k < ts.len() ==> valid(t, #[trigger] ts[k], ps) is Ok,
    decreases ts.len() - i,
{
    if i < ts.len() {
        all_valid(t, ts, i + 1, ps);
    }
}

/// A type that can be written: its name is that of a type parameter, of a class
/// that has instances or of an enum, it has as many type arguments as the class has
/// parameters, and its parts can be written too.
pub proof fn type_law(t: TableModel, ty: Ty, ps: Seq<ParamModel>, k: int)
    requires
        valid(t, ty, ps) is Ok,
    ensures
        ty matches Ty::Class(name, args) ==> param_named(ps, name) is Some || ({
            &&& lookup(t.classes, name) is Some || lookup(t.enums, name) is Some
            &&& lookup(t.classes, name) matches Some(c) ==> !c.is_static && c.generics.len()
                == args.len()
            &&& 0 <= k < args.len() ==> valid(t, args[k], ps) is Ok
        }),
        ty matches Ty::Enum(name) ==> lookup(t.enums, name) is Some,
        ty matches Ty::GenericParam(name) ==> param_named(ps, name) is Some,
        ty matches Ty::Nullable(u) ==> valid(t, *u, ps) is Ok,
        ty matches Ty::Tuple(ts) ==> 0 <= k < ts.len() ==> valid(t, ts[k], ps) is Ok,
        ty matches Ty::Func(ts, r) ==> valid(t, *r, ps) is Ok && (0 <= k < ts.len() ==> valid(
            t,
            ts[k],
            ps,
        ) is Ok),
{
    match ty {
        Ty::Class(name, args) => {
            if param_named(ps, name) is None {
                all_valid(t, args, 0, ps);
            }
        },
        Ty::Tuple(ts) => {
            all_valid(t, ts, 0, ps);
        },
        Ty::Func(ts, r) => {
            all_valid(t, ts, 0, ps);
        },
        _ => {},
    }
}

} // verus!
