//! Rules on the signatures of gathered declarations: checked exceptions,
//! variance and extensions.

use crate::text::{cat5, cat7, cat9, own, same};
use crate::typer::assign::builtin;
use crate::typer::ast::{
    texts, ty_name, tys, ClassDecl, Decl, GenericParam, Member, MethodDecl, Param, PropertyDecl, Ty,
    Type, Variance,
};
use crate::typer::gather::{filled, hierarchy_ok, with_bases, with_decls, with_newtypes};
use crate::typer::hierarchy::{all_interfaces_of, method_found, subclass};
use crate::typer::info::{
    ClassInfo, ClassModel, ExtensionSet, MethodInfo, MethodModel, TableModel, Tables,
};
use crate::typer::keyed::{entries, find, find_place, holds, insert, lookup, place, put};
use crate::typer::members::all_ok;
use crate::typer::rules::{declared, done};
use crate::typer::types::{mentions, type_mentions};
use vstd::prelude::*;

verus! {

// ---------------------------------------------------------------------------
// Checked exceptions
// ---------------------------------------------------------------------------

/// A class that derives from `Exception`, or `Exception` itself.
pub open spec fn is_exception(t: TableModel, exc: Seq<char>) -> bool {
    &&& lookup(t.classes, exc) matches Some(i) && !i.is_interface && !i.is_static
    &&& exc == "Exception"@ || subclass(t.classes, exc, "Exception"@)
}

/// A declared exception is an exception.
pub open spec fn throw_ok(t: TableModel, c: ClassDecl, m: MethodDecl, exc: Seq<char>) -> Result<
    (),
    Seq<char>,
> {
    if is_exception(t, exc) {
        Ok(())
    } else {
        Err(
            "`"@ + c.name@ + "."@ + m.name@ + "` declares `throws "@ + exc
                + "`, which is not an exception class (must derive from `Exception`)"@,
        )
    }
}

/// A method declares only exceptions.
pub open spec fn method_throws(t: TableModel, c: ClassDecl, m: Member) -> Result<(), Seq<char>> {
    match m {
        Member::Method(d) => all_ok(
            d.throws@.len() as int,
            0,
            |k: int| throw_ok(t, c, d, d.throws@[k]@),
        ),
        _ => Ok(()),
    }
}

/// The methods of a declared class declare only exceptions.
pub open spec fn class_throws(t: TableModel, d: Decl) -> Result<(), Seq<char>> {
    match d {
        Decl::Class(c) => all_ok(
            c.members@.len() as int,
            0,
            |j: int| method_throws(t, c, c.members@[j]),
        ),
        _ => Ok(()),
    }
}

/// An exception that a method declares is declared by the method that it
/// overrides.
pub open spec fn throw_covered(
    cs: Seq<(Seq<char>, ClassModel)>,
    class: Seq<char>,
    method: Seq<char>,
    exc: Seq<char>,
    base: Seq<char>,
    b: MethodModel,
) -> Result<(), Seq<char>> {
    if declared(cs, b.throws, exc) {
        Ok(())
    } else {
        Err(
            "`"@ + class + "."@ + method + "` declares `throws "@ + exc
                + "`, but the declaration it overrides in `"@ + base
                + "` does not: callers dispatching through `"@ + base
                + "` could not know to handle it"@,
        )
    }
}

/// What a method declares is declared by the method that it overrides.
pub open spec fn throws_covered(
    cs: Seq<(Seq<char>, ClassModel)>,
    class: Seq<char>,
    method: Seq<char>,
    m: MethodModel,
    base: Seq<char>,
    b: MethodModel,
) -> Result<(), Seq<char>> {
    all_ok(
        m.throws.len() as int,
        0,
        |k: int| throw_covered(cs, class, method, m.throws[k], base, b),
    )
}

/// What a method declares is declared in an interface that has the method.
pub open spec fn covered_in_interface(
    cs: Seq<(Seq<char>, ClassModel)>,
    class: Seq<char>,
    method: Seq<char>,
    m: MethodModel,
    iface: Seq<char>,
) -> Result<(), Seq<char>> {
    match lookup(cs, iface) {
        None => Ok(()),
        Some(i) => match lookup(i.methods, method) {
            None => Ok(()),
            Some(b) => throws_covered(cs, class, method, m, iface, b),
        },
    }
}

/// What a method declares is declared by all methods that it overrides.
pub open spec fn override_throws(
    cs: Seq<(Seq<char>, ClassModel)>,
    c: ClassModel,
    method: Seq<char>,
    m: MethodModel,
) -> Result<(), Seq<char>> {
    let above = match c.super_class {
        None => Ok(()),
        Some(s) => match method_found(cs, s, method) {
            None => Ok(()),
            Some((d, b)) => throws_covered(cs, c.name, method, m, d, b),
        },
    };
    match above {
        Err(e) => Err(e),
        Ok(_) => {
            let is = all_interfaces_of(cs, c.name);
            all_ok(
                is.len() as int,
                0,
                |k: int| covered_in_interface(cs, c.name, method, m, is[k]),
            )
        },
    }
}

/// What the methods of a class declare is declared by what they override.
pub open spec fn overrides_throw(cs: Seq<(Seq<char>, ClassModel)>, c: ClassModel) -> Result<
    (),
    Seq<char>,
> {
    all_ok(
        c.methods.len() as int,
        0,
        |j: int| override_throws(cs, c, c.methods[j].0, c.methods[j].1),
    )
}

impl Tables {
    fn check_throw(&self, c: &ClassDecl, m: &MethodDecl, exc: &str) -> (r: Result<(), String>)
        ensures
            done(r) == throw_ok(self@, *c, *m, exc@),
    {
        let known: bool = match find(&self.classes, exc) {
            Some(i) => !i.is_interface && !i.is_static,
            None => false,
        };
        if known && (same(exc, "Exception") || self.is_subclass_of(exc, "Exception")) {
            return Ok(());
        }
        Err(
            cat7(
                "`",
                c.name.as_str(),
                ".",
                m.name.as_str(),
                "` declares `throws ",
                exc,
                "`, which is not an exception class (must derive from `Exception`)",
            ),
        )
    }

    fn check_method_throws(&self, c: &ClassDecl, m: &Member) -> (r: Result<(), String>)
        ensures
            done(r) == method_throws(self@, *c, *m),
    {
        let d: &MethodDecl = match m {
            Member::Method(d) => d,
            _ => return Ok(()),
        };
        let ghost t = self@;
        let ghost f = |k: int| throw_ok(t, *c, *d, d.throws@[k]@);
        let ghost n = d.throws@.len() as int;
        let mut i: usize = 0;
        while i < d.throws.len()
            invariant
                i <= d.throws@.len(),
                n == d.throws@.len(),
                t == self@,
                *m == Member::Method(*d),
                f == (|k: int| throw_ok(t, *c, *d, d.throws@[k]@)),
                all_ok(n, 0, f) == all_ok(n, i as int, f),
            decreases d.throws.len() - i,
        {
            match self.check_throw(c, d, d.throws[i].as_str()) {
                Ok(_) => {},
                Err(e) => return Err(e),
            }
            i = i + 1;
        }
        Ok(())
    }

    fn check_class_throws(&self, d: &Decl) -> (r: Result<(), String>)
        ensures
            done(r) == class_throws(self@, *d),
    {
        let c: &ClassDecl = match d {
            Decl::Class(c) => c,
            _ => return Ok(()),
        };
        let ghost t = self@;
        let ghost f = |j: int| method_throws(t, *c, c.members@[j]);
        let ghost n = c.members@.len() as int;
        let mut i: usize = 0;
        while i < c.members.len()
            invariant
                i <= c.members@.len(),
                n == c.members@.len(),
                t == self@,
                *d == Decl::Class(*c),
                f == (|j: int| method_throws(t, *c, c.members@[j])),
                all_ok(n, 0, f) == all_ok(n, i as int, f),
            decreases c.members.len() - i,
        {
            match self.check_method_throws(c, &c.members[i]) {
                Ok(_) => {},
                Err(e) => return Err(e),
            }
            i = i + 1;
        }
        Ok(())
    }

    fn check_throws(&self, ds: &Vec<Decl>) -> (r: Result<(), String>)
        ensures
            done(r) == all_ok(ds@.len() as int, 0, |i: int| class_throws(self@, ds@[i])),
    {
        let ghost t = self@;
        let ghost f = |i: int| class_throws(t, ds@[i]);
        let ghost n = ds@.len() as int;
        let mut i: usize = 0;
        while i < ds.len()
            invariant
                i <= ds@.len(),
                n == ds@.len(),
                t == self@,
                f == (|i: int| class_throws(t, ds@[i])),
                all_ok(n, 0, f) == all_ok(n, i as int, f),
            decreases ds.len() - i,
        {
            match self.check_class_throws(&ds[i]) {
                Ok(_) => {},
                Err(e) => return Err(e),
            }
            i = i + 1;
        }
        Ok(())
    }

    fn check_throws_covered(
        &self,
        class: &str,
        method: &str,
        m: &MethodInfo,
        base: &str,
        b: &MethodInfo,
    ) -> (r: Result<(), String>)
        ensures
            done(r) == throws_covered(self@.classes, class@, method@, m@, base@, b@),
    {
        let ghost cs = self@.classes;
        let ghost mm = m@;
        let ghost bm = b@;
        let ghost f = |k: int|
            throw_covered(cs, class@, method@, mm.throws[k], base@, bm);
        let ghost n = mm.throws.len() as int;
        assert(n == m.throws@.len());
        let mut i: usize = 0;
        while i < m.throws.len()
            invariant
                i <= m.throws@.len(),
                n == m.throws@.len(),
                n == mm.throws.len(),
                cs == self@.classes,
                mm == m@,
                bm == b@,
                f == (|k: int| throw_covered(cs, class@, method@, mm.throws[k], base@, bm)),
                all_ok(n, 0, f) == all_ok(n, i as int, f),
            decreases m.throws.len() - i,
        {
            let exc: &str = m.throws[i].as_str();
            assert(mm.throws[i as int] == exc@);
            if !self.is_declared(&b.throws, exc) {
                let head: String = cat7(
                    "`",
                    class,
                    ".",
                    method,
                    "` declares `throws ",
                    exc,
                    "`, but the declaration it overrides in `",
                );
                return Err(
                    cat5(
                        head.as_str(),
                        base,
                        "` does not: callers dispatching through `",
                        base,
                        "` could not know to handle it",
                    ),
                );
            }
            i = i + 1;
        }
        Ok(())
    }

    fn check_override_throws(&self, c: &ClassInfo, method: &str, m: &MethodInfo) -> (r: Result<
        (),
        String,
    >)
        ensures
            done(r) == override_throws(self@.classes, c@, method@, m@),
    {
        if let Some(s) = &c.super_class {
            if let Some((d, b)) = self.find_method(s.as_str(), method) {
                match self.check_throws_covered(c.name.as_str(), method, m, d, b) {
                    Ok(_) => {},
                    Err(e) => return Err(e),
                }
            }
        }
        let is: Vec<String> = self.all_interfaces(c.name.as_str());
        let ghost cs = self@.classes;
        let ghost cm = c@;
        let ghost mm = m@;
        let ghost names = all_interfaces_of(cs, cm.name);
        let ghost f = |k: int| covered_in_interface(cs, cm.name, method@, mm, names[k]);
        let ghost n = names.len() as int;
        assert(n == is@.len());
        let ghost want = override_throws(cs, cm, method@, mm);
        assert(want == all_ok(n, 0, f));
        let mut i: usize = 0;
        while i < is.len()
            invariant
                i <= is@.len(),
                n == is@.len(),
                cs == self@.classes,
                cm == c@,
                mm == m@,
                names == texts(is@),
                want == override_throws(cs, cm, method@, mm),
                f == (|k: int| covered_in_interface(cs, cm.name, method@, mm, names[k])),
                want == all_ok(n, i as int, f),
            decreases is.len() - i,
        {
            let iface: &str = is[i].as_str();
            assert(names[i as int] == iface@);
            if let Some(info) = find(&self.classes, iface) {
                if let Some(b) = find(&info.methods, method) {
                    match self.check_throws_covered(c.name.as_str(), method, m, iface, b) {
                        Ok(_) => {},
                        Err(e) => return Err(e),
                    }
                }
            }
            i = i + 1;
        }
        Ok(())
    }

    fn check_overrides_throw(&self, c: &ClassInfo) -> (r: Result<(), String>)
        ensures
            done(r) == overrides_throw(self@.classes, c@),
    {
        let ghost cs = self@.classes;
        let ghost cm = c@;
        let ghost f = |j: int| override_throws(cs, cm, cm.methods[j].0, cm.methods[j].1);
        let ghost n = cm.methods.len() as int;
        assert(n == c.methods@.len());
        let mut i: usize = 0;
        while i < c.methods.len()
            invariant
                i <= c.methods@.len(),
                n == c.methods@.len(),
                n == cm.methods.len(),
                cs == self@.classes,
                cm == c@,
                f == (|j: int| override_throws(cs, cm, cm.methods[j].0, cm.methods[j].1)),
                all_ok(n, 0, f) == all_ok(n, i as int, f),
            decreases c.methods.len() - i,
        {
            assert(cm.methods[i as int] == (c.methods@[i as int].0@, c.methods@[i as int].1@));
            match self.check_override_throws(c, c.methods[i].0.as_str(), &c.methods[i].1) {
                Ok(_) => {},
                Err(e) => return Err(e),
            }
            i = i + 1;
        }
        Ok(())
    }

    fn check_all_overrides_throw(&self) -> (r: Result<(), String>)
        ensures
            done(r) == all_ok(
                self@.classes.len() as int,
                0,
                |i: int| overrides_throw(self@.classes, self@.classes[i].1),
            ),
    {
        let ghost t = self@;
        let ghost f = |i: int| overrides_throw(t.classes, t.classes[i].1);
        let ghost n = t.classes.len() as int;
        let mut i: usize = 0;
        while i < self.classes.len()
            invariant
                i <= self.classes@.len(),
                t == self@,
                n == self.classes@.len(),
                f == (|i: int| overrides_throw(t.classes, t.classes[i].1)),
                all_ok(n, 0, f) == all_ok(n, i as int, f),
            decreases self.classes.len() - i,
        {
            assert(t.classes[i as int].1 == self.classes@[i as int].1@);
            match self.check_overrides_throw(&self.classes[i].1) {
                Ok(_) => {},
                Err(e) => return Err(e),
            }
            i = i + 1;
        }
        Ok(())
    }
}

// ---------------------------------------------------------------------------
// Variance
// ---------------------------------------------------------------------------

/// The position of the first type parameter from `i` on that is not invariant,
/// or the length.
pub open spec fn variant_at(ps: Seq<GenericParam>, i: int) -> int
    decreases ps.len() - i,
{
    if i < 0 || i >= ps.len() {
        ps.len() as int
    } else if ps[i].variance != Variance::Invariant {
        i
    } else {
        variant_at(ps, i + 1)
    }
}

/// The type parameters of methods are invariant.
pub open spec fn method_invariant(c: ClassDecl, m: Member) -> Result<(), Seq<char>> {
    match m {
        Member::Method(d) => {
            let k = variant_at(d.generic_params@, 0);
            if k < d.generic_params@.len() {
                Err(
                    "variance annotation on `"@ + d.generic_params@[k].name@ + "` in `"@ + c.name@
                        + "."@ + d.name@
                        + "`: `in`/`out` are only allowed on interface type parameters"@,
                )
            } else {
                Ok(())
            }
        },
        _ => Ok(()),
    }
}

/// The position of the first parameter from `i` on whose type mentions `name`,
/// or the length.
pub open spec fn mentioning(ps: Seq<Param>, name: Seq<char>, i: int) -> int
    decreases ps.len() - i,
{
    if i < 0 || i >= ps.len() {
        ps.len() as int
    } else if mentions(ps[i].ty@, name) {
        i
    } else {
        mentioning(ps, name, i + 1)
    }
}

/// A covariant parameter does not flow in, and a contravariant one not out.
pub open spec fn member_variance(c: ClassDecl, g: GenericParam, m: Member) -> Result<
    (),
    Seq<char>,
> {
    match m {
        Member::Method(d) => match g.variance {
            Variance::Covariant => {
                let k = mentioning(d.params@, g.name@, 0);
                if k < d.params@.len() {
                    Err(
                        "covariant `out "@ + g.name@ + "` cannot appear in parameter `"@
                            + d.params@[k].name@ + "` of `"@ + c.name@ + "."@ + d.name@
                            + "`: `out` parameters are output-only (returns)"@,
                    )
                } else {
                    Ok(())
                }
            },
            Variance::Contravariant => if mentions(d.return_ty@, g.name@) {
                Err(
                    "contravariant `in "@ + g.name@ + "` cannot appear in the return type of `"@
                        + c.name@ + "."@ + d.name@
                        + "`: `in` parameters are input-only (method parameters)"@,
                )
            } else {
                Ok(())
            },
            Variance::Invariant => Ok(()),
        },
        Member::Property(p) => if g.variance == Variance::Covariant && p.setter is Some && mentions(
            p.ty@,
            g.name@,
        ) {
            Err(
                "variant `"@ + g.name@ + "` cannot appear in property `"@ + c.name@ + "."@ + p.name@
                    + "`: a setter makes it flow the wrong way"@,
            )
        } else if g.variance == Variance::Contravariant && p.getter is Some && mentions(
            p.ty@,
            g.name@,
        ) {
            Err(
                "variant `"@ + g.name@ + "` cannot appear in property `"@ + c.name@ + "."@ + p.name@
                    + "`: a getter makes it flow the wrong way"@,
            )
        } else {
            Ok(())
        },
        Member::Field(_) => Ok(()),
    }
}

/// The members of a class use a type parameter as its variance allows.
pub open spec fn param_variance(c: ClassDecl, g: GenericParam) -> Result<(), Seq<char>> {
    if g.variance == Variance::Invariant {
        Ok(())
    } else {
        all_ok(c.members@.len() as int, 0, |j: int| member_variance(c, g, c.members@[j]))
    }
}

/// Variance annotations stand on interfaces only, and are kept.
pub open spec fn class_variance(d: Decl) -> Result<(), Seq<char>> {
    match d {
        Decl::Class(c) => match all_ok(
            c.members@.len() as int,
            0,
            |j: int| method_invariant(c, c.members@[j]),
        ) {
            Err(e) => Err(e),
            Ok(_) => {
                let k = variant_at(c.generic_params@, 0);
                if k >= c.generic_params@.len() {
                    Ok(())
                } else if !c.is_interface {
                    Err(
                        "variance annotation on `"@ + c.generic_params@[k].name@ + "` of `"@
                            + c.name@
                            + "`: `in`/`out` are only allowed on interface type parameters"@,
                    )
                } else {
                    all_ok(
                        c.generic_params@.len() as int,
                        0,
                        |i: int| param_variance(c, c.generic_params@[i]),
                    )
                }
            },
        },
        _ => Ok(()),
    }
}

fn find_variant_param(ps: &Vec<GenericParam>) -> (r: usize)
    ensures
        r == variant_at(ps@, 0),
        r <= ps@.len(),
{
    let mut i: usize = 0;
    while i < ps.len()
        invariant
            i <= ps@.len(),
            variant_at(ps@, 0) == variant_at(ps@, i as int),
        decreases ps.len() - i,
    {
        if !matches!(ps[i].variance, Variance::Invariant) {
            return i;
        }
        i = i + 1;
    }
    i
}

fn find_mentioning(ps: &Vec<Param>, name: &str) -> (r: usize)
    ensures
        r == mentioning(ps@, name@, 0),
        r <= ps@.len(),
{
    let mut i: usize = 0;
    while i < ps.len()
        invariant
            i <= ps@.len(),
            mentioning(ps@, name@, 0) == mentioning(ps@, name@, i as int),
        decreases ps.len() - i,
    {
        if type_mentions(&ps[i].ty, name) {
            return i;
        }
        i = i + 1;
    }
    i
}

fn check_method_invariant(c: &ClassDecl, m: &Member) -> (r: Result<(), String>)
    ensures
        done(r) == method_invariant(*c, *m),
{
    if let Member::Method(d) = m {
        let k: usize = find_variant_param(&d.generic_params);
        if k < d.generic_params.len() {
            return Err(
                cat7(
                    "variance annotation on `",
                    d.generic_params[k].name.as_str(),
                    "` in `",
                    c.name.as_str(),
                    ".",
                    d.name.as_str(),
                    "`: `in`/`out` are only allowed on interface type parameters",
                ),
            );
        }
    }
    Ok(())
}

fn check_property_variance(c: &ClassDecl, g: &GenericParam, p: &PropertyDecl) -> (r: Result<
    (),
    String,
>)
    ensures
        done(r) == member_variance(*c, *g, Member::Property(*p)),
{
    let head: String = cat7(
        "variant `",
        g.name.as_str(),
        "` cannot appear in property `",
        c.name.as_str(),
        ".",
        p.name.as_str(),
        "`: a setter makes it flow the wrong way",
    );
    let other: String = cat7(
        "variant `",
        g.name.as_str(),
        "` cannot appear in property `",
        c.name.as_str(),
        ".",
        p.name.as_str(),
        "`: a getter makes it flow the wrong way",
    );
    if matches!(g.variance, Variance::Covariant) && p.setter.is_some() && type_mentions(
        &p.ty,
        g.name.as_str(),
    ) {
        return Err(head);
    }
    if matches!(g.variance, Variance::Contravariant) && p.getter.is_some() && type_mentions(
        &p.ty,
        g.name.as_str(),
    ) {
        return Err(other);
    }
    Ok(())
}

fn check_member_variance(c: &ClassDecl, g: &GenericParam, m: &Member) -> (r: Result<(), String>)
    ensures
        done(r) == member_variance(*c, *g, *m),
{
    match m {
        Member::Method(d) => match g.variance {
            Variance::Covariant => {
                let k: usize = find_mentioning(&d.params, g.name.as_str());
                if k < d.params.len() {
                    return Err(
                        cat9(
                            "covariant `out ",
                            g.name.as_str(),
                            "` cannot appear in parameter `",
                            d.params[k].name.as_str(),
                            "` of `",
                            c.name.as_str(),
                            ".",
                            d.name.as_str(),
                            "`: `out` parameters are output-only (returns)",
                        ),
                    );
                }
                Ok(())
            },
            Variance::Contravariant => {
                if type_mentions(&d.return_ty, g.name.as_str()) {
                    return Err(
                        cat7(
                            "contravariant `in ",
                            g.name.as_str(),
                            "` cannot appear in the return type of `",
                            c.name.as_str(),
                            ".",
                            d.name.as_str(),
                            "`: `in` parameters are input-only (method parameters)",
                        ),
                    );
                }
                Ok(())
            },
            Variance::Invariant => Ok(()),
        },
        Member::Property(p) => check_property_variance(c, g, p),
        Member::Field(_) => Ok(()),
    }
}

fn check_param_variance(c: &ClassDecl, g: &GenericParam) -> (r: Result<(), String>)
    ensures
        done(r) == param_variance(*c, *g),
{
    if matches!(g.variance, Variance::Invariant) {
        return Ok(());
    }
    let ghost f = |j: int| member_variance(*c, *g, c.members@[j]);
    let ghost n = c.members@.len() as int;
    let mut i: usize = 0;
    while i < c.members.len()
        invariant
            i <= c.members@.len(),
            n == c.members@.len(),
            g.variance != Variance::Invariant,
            f == (|j: int| member_variance(*c, *g, c.members@[j])),
            all_ok(n, 0, f) == all_ok(n, i as int, f),
        decreases c.members.len() - i,
    {
        match check_member_variance(c, g, &c.members[i]) {
            Ok(_) => {},
            Err(e) => return Err(e),
        }
        i = i + 1;
    }
    Ok(())
}

fn check_methods_invariant(c: &ClassDecl) -> (r: Result<(), String>)
    ensures
        done(r) == all_ok(
            c.members@.len() as int,
            0,
            |j: int| method_invariant(*c, c.members@[j]),
        ),
{
    let ghost f = |j: int| method_invariant(*c, c.members@[j]);
    let ghost n = c.members@.len() as int;
    let mut i: usize = 0;
    while i < c.members.len()
        invariant
            i <= c.members@.len(),
            n == c.members@.len(),
            f == (|j: int| method_invariant(*c, c.members@[j])),
            all_ok(n, 0, f) == all_ok(n, i as int, f),
        decreases c.members.len() - i,
    {
        match check_method_invariant(c, &c.members[i]) {
            Ok(_) => {},
            Err(e) => return Err(e),
        }
        i = i + 1;
    }
    Ok(())
}

fn check_params_variance(c: &ClassDecl) -> (r: Result<(), String>)
    ensures
        done(r) == all_ok(
            c.generic_params@.len() as int,
            0,
            |i: int| param_variance(*c, c.generic_params@[i]),
        ),
{
    let ghost f = |i: int| param_variance(*c, c.generic_params@[i]);
    let ghost n = c.generic_params@.len() as int;
    let mut i: usize = 0;
    while i < c.generic_params.len()
        invariant
            i <= c.generic_params@.len(),
            n == c.generic_params@.len(),
            f == (|i: int| param_variance(*c, c.generic_params@[i])),
            all_ok(n, 0, f) == all_ok(n, i as int, f),
        decreases c.generic_params.len() - i,
    {
        match check_param_variance(c, &c.generic_params[i]) {
            Ok(_) => {},
            Err(e) => return Err(e),
        }
        i = i + 1;
    }
    Ok(())
}

fn check_class_variance(d: &Decl) -> (r: Result<(), String>)
    ensures
        done(r) == class_variance(*d),
{
    let c: &ClassDecl = match d {
        Decl::Class(c) => c,
        _ => return Ok(()),
    };
    match check_methods_invariant(c) {
        Ok(_) => {},
        Err(e) => return Err(e),
    }
    let k: usize = find_variant_param(&c.generic_params);
    if k >= c.generic_params.len() {
        return Ok(());
    }
    if !c.is_interface {
        return Err(
            cat5(
                "variance annotation on `",
                c.generic_params[k].name.as_str(),
                "` of `",
                c.name.as_str(),
                "`: `in`/`out` are only allowed on interface type parameters",
            ),
        );
    }
    check_params_variance(c)
}

fn check_variance(ds: &Vec<Decl>) -> (r: Result<(), String>)
    ensures
        done(r) == all_ok(ds@.len() as int, 0, |i: int| class_variance(ds@[i])),
{
    let ghost f = |i: int| class_variance(ds@[i]);
    let ghost n = ds@.len() as int;
    let mut i: usize = 0;
    while i < ds.len()
        invariant
            i <= ds@.len(),
            n == ds@.len(),
            f == (|i: int| class_variance(ds@[i])),
            all_ok(n, 0, f) == all_ok(n, i as int, f),
        decreases ds.len() - i,
    {
        match check_class_variance(&ds[i]) {
            Ok(_) => {},
            Err(e) => return Err(e),
        }
        i = i + 1;
    }
    Ok(())
}

// ---------------------------------------------------------------------------
// Extensions
// ---------------------------------------------------------------------------

/// The key under which the methods of an extension are found.
pub open spec fn extension_key(t: TableModel, c: ClassDecl, target: Ty) -> Result<
    Seq<char>,
    Seq<char>,
> {
    match target {
        Ty::String => Ok("string"@),
        Ty::Class(n, args) => if args.len() != 0 {
            Err(
                "extension `"@ + c.name@ + "` on `"@ + n
                    + "`: generic extension targets are not supported yet"@,
            )
        } else if lookup(t.enums, n) is Some {
            Err(
                "extension `"@ + c.name@ + "`: extensions on enum `"@ + n + "` are not supported"@,
            )
        } else if lookup(t.newtypes, n) is Some {
            Err(
                "extension `"@ + c.name@ + "`: extensions on newtype `"@ + n
                    + "` are not supported"@,
            )
        } else if builtin(t.builtins, n) {
            Err(
                "extension `"@ + c.name@ + "`: extensions on built-in class `"@ + n
                    + "` are not supported yet"@,
            )
        } else {
            match lookup(t.classes, n) {
                None => Err("extension `"@ + c.name@ + "` targets unknown type `"@ + n + "`"@),
                Some(info) => if info.is_static {
                    Err(
                        "extension `"@ + c.name@ + "` cannot target static class `"@ + n
                            + "`: it has no instances"@,
                    )
                } else {
                    Ok(n)
                },
            }
        },
        _ => Err(
            "extension `"@ + c.name@ + "` target must be `string` or a class, not "@ + ty_name(
                target,
            ),
        ),
    }
}

/// The extension methods known under a key.
pub open spec fn extensions_at(t: TableModel, key: Seq<char>) -> Seq<(Seq<char>, Seq<char>)> {
    match lookup(t.extensions, key) {
        Some(e) => e,
        None => seq![],
    }
}

/// Tables with one more extension method. A real method of the target would
/// always be called in its place, so there must be none.
pub open spec fn with_extension(t: TableModel, c: ClassDecl, key: Seq<char>, m: MethodDecl) -> Result<
    TableModel,
    Seq<char>,
> {
    if key == "string"@ && lookup(t.string_methods, m.name@) is Some {
        Err(
            "extension method `"@ + c.name@ + "."@ + m.name@
                + "` conflicts with a built-in string method"@,
        )
    } else if key != "string"@ && method_found(t.classes, key, m.name@) is Some {
        Err(
            "extension method `"@ + c.name@ + "."@ + m.name@
                + "` conflicts with an existing method on `"@ + key + "`"@,
        )
    } else {
        let have = extensions_at(t, key);
        match lookup(have, m.name@) {
            Some(prev) => Err(
                "duplicate extension method `"@ + m.name@ + "` on `"@ + key
                    + "`: declared in both `"@ + prev + "` and `"@ + c.name@ + "`"@,
            ),
            None => Ok(
                TableModel {
                    extensions: put(t.extensions, key, put(have, m.name@, c.name@)),
                    ..t
                },
            ),
        }
    }
}

/// Tables with the extension methods of a class from member `i` on.
pub open spec fn with_extension_members(t: TableModel, c: ClassDecl, key: Seq<char>, i: int) -> Result<
    TableModel,
    Seq<char>,
>
    decreases c.members@.len() - i,
{
    if i < 0 || i >= c.members@.len() {
        Ok(t)
    } else {
        match c.members@[i] {
            Member::Method(m) => match with_extension(t, c, key, m) {
                Err(e) => Err(e),
                Ok(next) => with_extension_members(next, c, key, i + 1),
            },
            _ => with_extension_members(t, c, key, i + 1),
        }
    }
}

/// Tables with the extension that a class is, if it is one.
pub open spec fn with_extension_class(t: TableModel, d: Decl) -> Result<TableModel, Seq<char>> {
    match d {
        Decl::Class(c) => match c.extension_on {
            None => Ok(t),
            Some(target) => match extension_key(t, c, target@) {
                Err(e) => Err(e),
                Ok(key) => with_extension_members(t, c, key, 0),
            },
        },
        _ => Ok(t),
    }
}

/// Tables with the extensions among the declarations from `i` on.
pub open spec fn with_extensions(t: TableModel, ds: Seq<Decl>, i: int) -> Result<
    TableModel,
    Seq<char>,
>
    decreases ds.len() - i,
{
    if i < 0 || i >= ds.len() {
        Ok(t)
    } else {
        match with_extension_class(t, ds[i]) {
            Err(e) => Err(e),
            Ok(next) => with_extensions(next, ds, i + 1),
        }
    }
}

/// A key or an error, by value.
pub open spec fn key_outcome(r: Result<String, String>) -> Result<Seq<char>, Seq<char>> {
    match r {
        Ok(k) => Ok(k@),
        Err(e) => Err(e@),
    }
}

impl Tables {
    fn find_extension_key(&self, c: &ClassDecl, target: &Type) -> (r: Result<String, String>)
        ensures
            key_outcome(r) == extension_key(self@, *c, target@),
    {
        let cn: &str = c.name.as_str();
        match target {
            Type::String => Ok(own("string")),
            Type::Class(name, args) => {
                assert(tys(args@).len() == args@.len());
                let n: &str = name.as_str();
                if args.len() != 0 {
                    return Err(
                        cat5(
                            "extension `",
                            cn,
                            "` on `",
                            n,
                            "`: generic extension targets are not supported yet",
                        ),
                    );
                }
                if holds(&self.enums, n) {
                    return Err(
                        cat5(
                            "extension `",
                            cn,
                            "`: extensions on enum `",
                            n,
                            "` are not supported",
                        ),
                    );
                }
                if holds(&self.newtypes, n) {
                    return Err(
                        cat5(
                            "extension `",
                            cn,
                            "`: extensions on newtype `",
                            n,
                            "` are not supported",
                        ),
                    );
                }
                if self.is_intrinsic_class(n) {
                    return Err(
                        cat5(
                            "extension `",
                            cn,
                            "`: extensions on built-in class `",
                            n,
                            "` are not supported yet",
                        ),
                    );
                }
                match find(&self.classes, n) {
                    None => Err(cat5("extension `", cn, "` targets unknown type `", n, "`")),
                    Some(info) => if info.is_static {
                        Err(
                            cat5(
                                "extension `",
                                cn,
                                "` cannot target static class `",
                                n,
                                "`: it has no instances",
                            ),
                        )
                    } else {
                        Ok(name.clone())
                    },
                }
            },
            _ => {
                let shown: String = target.name();
                Err(
                    crate::text::cat4(
                        "extension `",
                        cn,
                        "` target must be `string` or a class, not ",
                        shown.as_str(),
                    ),
                )
            },
        }
    }

    fn add_extension(&mut self, c: &ClassDecl, key: &str, m: &MethodDecl) -> (r: Result<(), String>)
        ensures
            filled(r, final(self)@) == with_extension(old(self)@, *c, key@, *m),
    {
        let cn: &str = c.name.as_str();
        let mn: &str = m.name.as_str();
        if same(key, "string") {
            if holds(&self.intrinsics.string_methods, mn) {
                return Err(
                    cat5(
                        "extension method `",
                        cn,
                        ".",
                        mn,
                        "` conflicts with a built-in string method",
                    ),
                );
            }
        } else if self.find_method(key, mn).is_some() {
            return Err(
                cat7(
                    "extension method `",
                    cn,
                    ".",
                    mn,
                    "` conflicts with an existing method on `",
                    key,
                    "`",
                ),
            );
        }
        let ghost t = self@;
        let p: usize = find_place(&self.extensions, key);
        if p < self.extensions.len() {
            assert(t.extensions[p as int].1 == entries(self.extensions@[p as int].1.methods@));
            if let Some(prev) = find(&self.extensions[p].1.methods, mn) {
                return Err(
                    cat9(
                        "duplicate extension method `",
                        mn,
                        "` on `",
                        key,
                        "`: declared in both `",
                        prev.as_str(),
                        "` and `",
                        cn,
                        "`",
                    ),
                );
            }
            proof {
                key_at(t.extensions, key@, 0);
            }
            insert(&mut self.extensions[p].1.methods, mn, own(cn));
            assert(self@.extensions =~= put(
                t.extensions,
                key@,
                put(extensions_at(t, key@), mn@, cn@),
            ));
        } else {
            let mut methods: Vec<(String, String)> = Vec::new();
            assert(entries(methods@) =~= seq![]);
            insert(&mut methods, mn, own(cn));
            insert(&mut self.extensions, key, ExtensionSet { methods });
        }
        Ok(())
    }

    fn add_extension_members(&mut self, c: &ClassDecl, key: &str) -> (r: Result<(), String>)
        ensures
            filled(r, final(self)@) == with_extension_members(old(self)@, *c, key@, 0),
    {
        let ghost want = with_extension_members(self@, *c, key@, 0);
        let mut i: usize = 0;
        while i < c.members.len()
            invariant
                i <= c.members@.len(),
                want == with_extension_members(old(self)@, *c, key@, 0),
                want == with_extension_members(self@, *c, key@, i as int),
            decreases c.members.len() - i,
        {
            if let Member::Method(m) = &c.members[i] {
                match self.add_extension(c, key, m) {
                    Ok(_) => {},
                    Err(e) => return Err(e),
                }
            }
            i = i + 1;
        }
        Ok(())
    }

    fn add_extension_class(&mut self, d: &Decl) -> (r: Result<(), String>)
        ensures
            filled(r, final(self)@) == with_extension_class(old(self)@, *d),
    {
        if let Decl::Class(c) = d {
            if let Some(target) = &c.extension_on {
                let key: String = match self.find_extension_key(c, target) {
                    Ok(k) => k,
                    Err(e) => return Err(e),
                };
                return self.add_extension_members(c, key.as_str());
            }
        }
        Ok(())
    }

    fn add_extensions(&mut self, ds: &Vec<Decl>) -> (r: Result<(), String>)
        ensures
            filled(r, final(self)@) == with_extensions(old(self)@, ds@, 0),
    {
        let ghost want = with_extensions(self@, ds@, 0);
        let mut i: usize = 0;
        while i < ds.len()
            invariant
                i <= ds@.len(),
                want == with_extensions(old(self)@, ds@, 0),
                want == with_extensions(self@, ds@, i as int),
            decreases ds.len() - i,
        {
            match self.add_extension_class(&ds[i]) {
                Ok(_) => {},
                Err(e) => return Err(e),
            }
            i = i + 1;
        }
        Ok(())
    }
}

proof fn key_at<M>(s: Seq<(Seq<char>, M)>, k: Seq<char>, i: int)
    requires
        0 <= i,
    ensures
        0 <= place(s, k, i) < s.len() ==> s[place(s, k, i)].0 == k,
    decreases s.len() - i,
{
    if i < s.len() && s[i].0 != k {
        key_at(s, k, i + 1);
    }
}

// ---------------------------------------------------------------------------
// All declarations
// ---------------------------------------------------------------------------

/// The signatures of the gathered declarations follow the rules.
pub open spec fn signatures_ok(t: TableModel, ds: Seq<Decl>) -> Result<(), Seq<char>> {
    match all_ok(ds.len() as int, 0, |i: int| class_throws(t, ds[i])) {
        Err(e) => Err(e),
        Ok(_) => match all_ok(
            t.classes.len() as int,
            0,
            |i: int| overrides_throw(t.classes, t.classes[i].1),
        ) {
            Err(e) => Err(e),
            Ok(_) => all_ok(ds.len() as int, 0, |i: int| class_variance(ds[i])),
        },
    }
}

/// Tables with the declarations of a program.
pub open spec fn gathered(t: TableModel, ds: Seq<Decl>) -> Result<TableModel, Seq<char>> {
    match with_newtypes(t, ds, 0) {
        Err(e) => Err(e),
        Ok(a) => match with_decls(a, ds, 0) {
            Err(e) => Err(e),
            Ok(b) => match with_bases(b, ds, 0) {
                Err(e) => Err(e),
                Ok(c) => match hierarchy_ok(c.classes) {
                    Err(e) => Err(e),
                    Ok(_) => match signatures_ok(c, ds) {
                        Err(e) => Err(e),
                        Ok(_) => with_extensions(c, ds, 0),
                    },
                },
            },
        },
    }
}

impl Tables {
    fn check_signatures(&self, ds: &Vec<Decl>) -> (r: Result<(), String>)
        ensures
            done(r) == signatures_ok(self@, ds@),
    {
        match self.check_throws(ds) {
            Ok(_) => {},
            Err(e) => return Err(e),
        }
        match self.check_all_overrides_throw() {
            Ok(_) => {},
            Err(e) => return Err(e),
        }
        check_variance(ds)
    }

    /// Gather the declarations of a program.
    pub fn gather_decls(&mut self, ds: &Vec<Decl>) -> (r: Result<(), String>)
        ensures
            filled(r, final(self)@) == gathered(old(self)@, ds@),
    {
        // Newtypes first, so that a class or enum of the same name is caught
        // whichever declaration order the source uses.
        match self.add_newtypes(ds) {
            Ok(_) => {},
            Err(e) => return Err(e),
        }
        match self.add_decls(ds) {
            Ok(_) => {},
            Err(e) => return Err(e),
        }
        match self.split_bases(ds) {
            Ok(_) => {},
            Err(e) => return Err(e),
        }
        match self.validate_hierarchy() {
            Ok(_) => {},
            Err(e) => return Err(e),
        }
        match self.check_signatures(ds) {
            Ok(_) => {},
            Err(e) => return Err(e),
        }
        // Extensions last, so that targets declared later in the file resolve.
        self.add_extensions(ds)
    }
}

} // verus!
