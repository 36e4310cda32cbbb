//! What a program keeps to that passes as a whole: each method of each class is
//! checked, and classes keep what they inherit.

use crate::typer::ast::{ClassDecl, Decl, Member, MethodDecl, Ty};
use crate::typer::check::{
    abstract_met, class_checked, class_ok, classes_checked, constructors_ok, final_kept,
    interface_met, interface_method_met, member_checked, members_checked, method_checked,
    method_scope, modifiers_ok, outside, param_locals, program_checked, recorded, super_met, Walked,
};
use crate::typer::descent::descends;
use crate::typer::flow::Status;
use crate::typer::hierarchy::{all_interfaces_of, method_found, supers, Walk};
use crate::typer::infer::stmts_from;
use crate::typer::info::{ClassModel, TableModel};
use crate::typer::keyed::{lookup, put_laws};
use crate::typer::members::{all_ok, param_tys};
use crate::typer::membership::inherited_method_law;
use crate::typer::rules::valid;
use vstd::prelude::*;

verus! {

/// Where all of a number of checks pass, each one does.
pub proof fn each_ok(n: int, i: int, f: spec_fn(int) -> Result<(), Seq<char>>, k: int)
    requires
        all_ok(n, i, f) is Ok,
        i <= k < n,
    ensures
        f(k) is Ok,
    decreases n - i,
{
    if i < k {
        each_ok(n, i + 1, f, k);
    }
}

/// The body of a method passes, with the parameters as its locals and the result
/// type of the method as what it returns.
#[verifier::opaque]
pub open spec fn body_passes(t: TableModel, c: ClassDecl, info: ClassModel, m: MethodDecl) -> bool {
    stmts_from(
        t,
        method_scope(c, info, m),
        param_locals(m.params@, m.params@.len() as int),
        Status { narrowed: seq![], line: 0 },
        m.body,
        0,
    ).result is Ok
}

/// The types in the header of a method can be written.
#[verifier::opaque]
pub open spec fn header_passes(t: TableModel, c: ClassDecl, m: MethodDecl) -> bool {
    let generics = crate::typer::ast::views(c.generic_params@) + crate::typer::ast::views(
        m.generic_params@,
    );
    &&& valid(t, m.return_ty@, generics) is Ok
    &&& forall|k: int| 0 <= k < m.params@.len() ==> valid(t, (#[trigger] m.params@[k]).ty@, generics) is Ok
}

/// A member passes.
pub open spec fn member_passes(t: TableModel, c: ClassDecl, info: ClassModel, m: Member) -> bool {
    m matches Member::Method(d) ==> header_passes(t, c, d) && body_passes(t, c, info, d)
}

proof fn method_clean(t: TableModel, c: ClassDecl, info: ClassModel, m: MethodDecl, w: Walked)
    requires
        method_checked(t, c, info, m, w).0 is Ok,
        method_checked(t, c, info, m, w).1.errors.len() == 0,
    ensures
        w.errors.len() == 0,
        header_passes(t, c, m),
        body_passes(t, c, info, m),
{
    let generics = crate::typer::ast::views(c.generic_params@) + crate::typer::ast::views(
        m.generic_params@,
    );
    let f = |k: int| valid(t, m.params@[k].ty@, generics);
    assert(body_passes(t, c, info, m)) by {
        reveal(body_passes);
    }
    assert(header_passes(t, c, m)) by {
        reveal(header_passes);
        assert forall|k: int| 0 <= k < m.params@.len() implies valid(
            t,
            (#[trigger] m.params@[k]).ty@,
            generics,
        ) is Ok by {
            each_ok(m.params@.len() as int, 0, f, k);
        }
    }
}

proof fn member_clean(t: TableModel, c: ClassDecl, info: ClassModel, m: Member, w: Walked)
    requires
        member_checked(t, c, info, m, w).0 is Ok,
        member_checked(t, c, info, m, w).1.errors.len() == 0,
    ensures
        w.errors.len() == 0,
        member_passes(t, c, info, m),
{
    if let Member::Method(d) = m {
        method_clean(t, c, info, d, w);
    }
}

#[verifier::opaque]
spec fn walked_members(t: TableModel, c: ClassDecl, info: ClassModel, i: int, w: Walked) -> (
    Result<(), Seq<char>>,
    Walked,
) {
    members_checked(t, c, info, i, w)
}

#[verifier::opaque]
spec fn walked_member(t: TableModel, c: ClassDecl, info: ClassModel, m: Member, w: Walked) -> (
    Result<(), Seq<char>>,
    Walked,
) {
    member_checked(t, c, info, m, w)
}

proof fn walked_one(t: TableModel, c: ClassDecl, info: ClassModel, i: int, w: Walked) -> (next: Walked)
    requires
        0 <= i <= c.members@.len(),
        walked_members(t, c, info, i, w).0 is Ok,
    ensures
        i == c.members@.len() ==> walked_members(t, c, info, i, w).1 == w,
        i < c.members@.len() ==> walked_member(t, c, info, c.members@[i], w).0 is Ok
            && walked_member(t, c, info, c.members@[i], w).1 == next && walked_members(
            t,
            c,
            info,
            i,
            w,
        ) == walked_members(t, c, info, i + 1, next),
{
    reveal(walked_members);
    reveal(walked_member);
    member_checked(t, c, info, c.members@[i], w).1
}

proof fn walked_clean(t: TableModel, c: ClassDecl, info: ClassModel, m: Member, w: Walked)
    requires
        walked_member(t, c, info, m, w).0 is Ok,
        walked_member(t, c, info, m, w).1.errors.len() == 0,
    ensures
        w.errors.len() == 0,
        member_passes(t, c, info, m),
{
    reveal(walked_member);
    member_clean(t, c, info, m, w);
}

proof fn members_clean(t: TableModel, c: ClassDecl, info: ClassModel, i: int, w: Walked)
    requires
        0 <= i <= c.members@.len(),
        walked_members(t, c, info, i, w).0 is Ok,
        walked_members(t, c, info, i, w).1.errors.len() == 0,
    ensures
        w.errors.len() == 0,
        forall|k: int|
            i <= k < c.members@.len() ==> member_passes(t, c, info, #[trigger] c.members@[k]),
    decreases c.members@.len() - i,
{
    let next = walked_one(t, c, info, i, w);
    if i < c.members@.len() {
        members_clean(t, c, info, i + 1, next);
        walked_clean(t, c, info, c.members@[i], w);
    }
}

/// A class passes.
pub open spec fn class_passes(t: TableModel, c: ClassDecl) -> bool {
    lookup(t.classes, c.name@) matches Some(info) ==> class_ok(t.classes, c, info) is Ok && forall|
        k: int,
    |
        0 <= k < c.members@.len() ==> member_passes(t, c, info, #[trigger] c.members@[k])
}

proof fn class_clean(t: TableModel, c: ClassDecl, w: Walked)
    requires
        class_checked(t, c, w).0 is Ok,
        class_checked(t, c, w).1.errors.len() == 0,
    ensures
        w.errors.len() == 0,
        class_passes(t, c),
{
    if let Some(info) = lookup(t.classes, c.name@) {
        let k = constructors_ok(t, c, info, outside(w).status);
        let next = Walked { status: k.1, ..outside(w) };
        assert(walked_members(t, c, info, 0, next) == members_checked(t, c, info, 0, next)) by {
            reveal(walked_members);
        }
        members_clean(t, c, info, 0, next);
    }
}

#[verifier::opaque]
spec fn walked_class(t: TableModel, c: ClassDecl, w: Walked) -> (Result<(), Seq<char>>, Walked) {
    class_checked(t, c, w)
}

#[verifier::opaque]
spec fn walked_classes(t: TableModel, ds: Seq<Decl>, i: int, w: Walked) -> Walked {
    classes_checked(t, ds, i, w)
}

proof fn walked_next(t: TableModel, ds: Seq<Decl>, i: int, w: Walked) -> (next: Walked)
    requires
        0 <= i <= ds.len(),
    ensures
        i == ds.len() ==> walked_classes(t, ds, i, w) == w,
        i < ds.len() ==> walked_classes(t, ds, i, w) == walked_classes(t, ds, i + 1, next),
        i < ds.len() && !(ds[i] is Class) ==> next == w,
        i < ds.len() && ds[i] is Class ==> {
            let r = walked_class(t, ds[i]->Class_0, w);
            next == match r.0 {
                Ok(_) => r.1,
                Err(e) => recorded(r.1, e),
            }
        },
{
    reveal(walked_classes);
    reveal(walked_class);
    if i < ds.len() {
        match ds[i] {
            Decl::Class(c) => {
                let r = class_checked(t, c, w);
                match r.0 {
                    Ok(_) => r.1,
                    Err(e) => recorded(r.1, e),
                }
            },
            _ => w,
        }
    } else {
        w
    }
}

proof fn class_walked(t: TableModel, c: ClassDecl, w: Walked)
    requires
        walked_class(t, c, w).0 is Ok,
        walked_class(t, c, w).1.errors.len() == 0,
    ensures
        w.errors.len() == 0,
        class_passes(t, c),
{
    reveal(walked_class);
    class_clean(t, c, w);
}

proof fn classes_clean(t: TableModel, ds: Seq<Decl>, i: int, w: Walked)
    requires
        0 <= i <= ds.len(),
        walked_classes(t, ds, i, w).errors.len() == 0,
    ensures
        w.errors.len() == 0,
        forall|k: int|
            i <= k < ds.len() ==> ((#[trigger] ds[k]) matches Decl::Class(c) ==> class_passes(t, c)),
    decreases ds.len() - i,
{
    let next = walked_next(t, ds, i, w);
    if i < ds.len() {
        classes_clean(t, ds, i + 1, next);
        if ds[i] is Class {
            let r = walked_class(t, ds[i]->Class_0, w);
            if r.0 is Err {
                assert(recorded(r.1, r.0->Err_0).errors.len() > 0);
            }
            class_walked(t, ds[i]->Class_0, w);
        }
    }
}

/// A program that passes: each class keeps what it inherits, and each method of it
/// has a header whose types can be written and a body that passes.
pub proof fn program_law(t: TableModel, ds: Seq<Decl>, k: int)
    requires
        program_checked(t, ds) is Ok,
        0 <= k < ds.len(),
    ensures
        ds[k] matches Decl::Class(c) ==> class_passes(program_checked(t, ds)->Ok_0, c),
{
    let full = program_checked(t, ds)->Ok_0;
    let start = crate::typer::check::at_start();
    assert(walked_classes(full, ds, 0, start) == classes_checked(full, ds, 0, start)) by {
        reveal(walked_classes);
    }
    classes_clean(full, ds, 0, start);
    assert(ds[k] matches Decl::Class(c) ==> class_passes(full, c));
}

proof fn param_named(ps: Seq<crate::typer::ast::Param>, n: int, k: int)
    requires
        0 <= k < n <= ps.len(),
        forall|i: int, j: int| 0 <= i < j < n ==> (#[trigger] ps[i]).name@ != (#[trigger] ps[j]).name@,
    ensures
        lookup(param_locals(ps, n), ps[k].name@) == Some(ps[k].ty@),
    decreases n,
{
    let before = param_locals(ps, n - 1);
    put_laws(before, ps[n - 1].name@, ps[n - 1].ty@, ps[k].name@);
    if k < n - 1 {
        param_named(ps, n - 1, k);
    }
}

/// In the body of a method each parameter stands for its type, and `return` is
/// measured by the result type of the method: by what the task holds, in an `async`
/// one.
pub proof fn method_law(c: ClassDecl, info: ClassModel, m: MethodDecl, k: int)
    requires
        0 <= k < m.params@.len(),
        forall|i: int, j: int|
            0 <= i < j < m.params@.len() ==> (#[trigger] m.params@[i]).name@ != (
            #[trigger] m.params@[j]).name@,
    ensures
        lookup(param_locals(m.params@, m.params@.len() as int), m.params@[k].name@) == Some(
            m.params@[k].ty@,
        ),
        !m.is_async ==> method_scope(c, info, m).return_ty == m.return_ty@,
        m.is_async && (m.return_ty@ matches Ty::Class(n, args) && n == "Task"@ && args.len() == 1)
            ==> method_scope(c, info, m).return_ty == m.return_ty@->Class_1[0],
        method_scope(c, info, m).in_instance <==> !m.is_static,
        method_scope(c, info, m).is_async == m.is_async,
        method_scope(c, info, m).class == info,
{
    param_named(m.params@, m.params@.len() as int, k);
}

/// An override has something to override: a method that a base of the superclass
/// declares, which is virtual and not final and has the same types. What is not
/// marked so does not stand in for a final method.
pub proof fn override_law(
    cs: Seq<(Seq<char>, ClassModel)>,
    c: ClassDecl,
    info: ClassModel,
    k: int,
    d: MethodDecl,
)
    requires
        class_ok(cs, c, info) is Ok,
        0 <= k < c.members@.len(),
        c.members@[k] == Member::Method(d),
    ensures
        d.is_override ==> !d.is_virtual && !d.is_static && (info.super_class matches Some(s)
            && overridden(cs, s, d)),
        d.is_static ==> !d.is_virtual,
        !d.is_override ==> (info.super_class matches Some(s) ==> (
        crate::typer::hierarchy::class_method(cs, s, d.name@) matches Some((_, b)) ==> !b.is_final)),
{
    let n = c.members@.len() as int;
    each_ok(n, 0, |i: int| modifiers_ok(cs, c, info, c.members@[i]), k);
    each_ok(n, 0, |i: int| final_kept(cs, c, info, c.members@[i]), k);
    if d.is_override {
        let s = info.super_class->0;
        inherited_method_law(cs, s, d.name@, s);
        let found = method_found(cs, s, d.name@)->0;
        assert(descends(cs, Walk::Up, s, found.0));
    }
}

/// A base declares a method that another one can override.
pub open spec fn overridden(cs: Seq<(Seq<char>, ClassModel)>, s: Seq<char>, d: MethodDecl) -> bool {
    exists|base: Seq<char>|
        {
            &&& #[trigger] descends(cs, Walk::Up, s, base)
            &&& lookup(cs, base) matches Some(b) && (lookup(b.methods, d.name@) matches Some(m)
                && m.is_virtual && !m.is_final && m.return_ty == d.return_ty@ && m.params
                == param_tys(d.params@))
        }
}

/// A class that has instances leaves no method abstract: each one that a superclass
/// or an interface of it leaves open it has, from itself or from a base, with a
/// body.
pub proof fn implementation_law(
    cs: Seq<(Seq<char>, ClassModel)>,
    c: ClassDecl,
    info: ClassModel,
    k: int,
    j: int,
)
    requires
        class_ok(cs, c, info) is Ok,
        !info.is_abstract,
        !info.is_interface,
    ensures
        info.super_class matches Some(s) ==> 0 <= k < supers(cs, s).len() ==> ({
            let base = cs[supers(cs, s)[k]].1;
            0 <= j < base.methods.len() && base.methods[j].1.is_abstract ==> has_body(
                cs,
                info.name,
                base.methods[j].0,
            )
        }),
        0 <= k < all_interfaces_of(cs, info.name).len() ==> (lookup(
            cs,
            all_interfaces_of(cs, info.name)[k],
        ) matches Some(i) ==> 0 <= j < i.methods.len() && i.methods[j].1.is_abstract ==> has_body(
            cs,
            info.name,
            i.methods[j].0,
        )),
{
    if let Some(s) = info.super_class {
        let ps = supers(cs, s);
        if 0 <= k < ps.len() {
            each_ok(ps.len() as int, 0, |k: int| super_met(cs, info.name, cs[ps[k]]), k);
            let base = cs[ps[k]];
            if 0 <= j < base.1.methods.len() {
                each_ok(
                    base.1.methods.len() as int,
                    0,
                    |j: int|
                        abstract_met(
                            cs,
                            info.name,
                            base.0,
                            base.1.methods[j].0,
                            base.1.methods[j].1,
                        ),
                    j,
                );
            }
        }
    }
    let is = all_interfaces_of(cs, info.name);
    if 0 <= k < is.len() {
        each_ok(is.len() as int, 0, |k: int| interface_met(cs, info.name, is[k]), k);
        if let Some(i) = lookup(cs, is[k]) {
            if 0 <= j < i.methods.len() {
                each_ok(
                    i.methods.len() as int,
                    0,
                    |j: int|
                        interface_method_met(
                            cs,
                            info.name,
                            is[k],
                            i,
                            i.methods[j].0,
                            i.methods[j].1,
                        ),
                    j,
                );
            }
        }
    }
}

/// A class has a method that is not abstract.
pub open spec fn has_body(cs: Seq<(Seq<char>, ClassModel)>, class: Seq<char>, method: Seq<char>) -> bool {
    method_found(cs, class, method) matches Some((_, m)) && !m.is_abstract
}

} // verus!
