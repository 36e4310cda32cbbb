//! Checking classes and whole programs.

use crate::text::{cat3, cat4, cat5, cat6, cat7, cat9, dec, dec_u64, own};
use crate::typer::assign::declared_args;
use crate::typer::ast::{
    clone_params, join, joined, same_type, same_tys, texts, ty_names, tys, type_names, views,
    Accessor, AccessorKind, ClassDecl, ConstructorChain, ConstructorTarget, Decl, GenericParam,
    Member, MethodDecl, Param, Program, PropertyDecl, Ty, Type,
};
use crate::typer::calls::{some_takes, takes};
use crate::typer::flow::{State, Status};
use crate::typer::gather::with_builtins;
use crate::typer::hierarchy::{all_interfaces_of, class_method, ints, method_found, supers};
use crate::typer::infer::{infer_from, stmts_from};
use crate::typer::info::{
    ClassInfo, ClassModel, Intrinsics, MethodInfo, MethodModel, TableModel, Tables, TypedProgram,
    TypeError,
};
use crate::typer::keyed::{entries, find, insert, lookup, put};
use crate::typer::members::{all_ok, is_task, param_tys, returns_task, types_of_params};
use crate::typer::rules::{done, valid, Around, Scope};
use crate::typer::signatures::gathered;
use crate::typer::types::{build_subst, subst_all, subst_of, subst_ty, substitute_all, substitute_type};
use vstd::prelude::*;

verus! {

/// How many errors are reported at most, so that a badly broken file stays
/// readable.
pub const ERROR_LIMIT: usize = 20;

// ---------------------------------------------------------------------------
// Modifiers
// ---------------------------------------------------------------------------

/// A method that is marked `override` overrides a virtual method of a base
/// class with the same signature.
pub open spec fn override_ok(
    cs: Seq<(Seq<char>, ClassModel)>,
    c: ClassDecl,
    info: ClassModel,
    m: MethodDecl,
) -> Result<(), Seq<char>> {
    match info.super_class {
        None => Err(
            "method `"@ + c.name@ + "."@ + m.name@ + "` is marked override but `"@ + c.name@
                + "` has no super class"@,
        ),
        Some(s) => match method_found(cs, s, m.name@) {
            None => Err(
                "method `"@ + c.name@ + "."@ + m.name@
                    + "` is marked override but no such method exists in a base class"@,
            ),
            Some((d, b)) => if b.is_final {
                Err(
                    "method `"@ + c.name@ + "."@ + m.name@ + "` cannot override final method `"@ + d
                        + "."@ + m.name@ + "`"@,
                )
            } else if !b.is_virtual {
                Err(
                    "method `"@ + c.name@ + "."@ + m.name@ + "` overrides `"@ + d + "."@ + m.name@
                        + "` which is not virtual"@,
                )
            } else if b.return_ty != m.return_ty@ || b.params != param_tys(m.params@) {
                Err(
                    "method `"@ + c.name@ + "."@ + m.name@ + "` override signature must match `"@
                        + d + "."@ + m.name@ + "`"@,
                )
            } else {
                Ok(())
            },
        },
    }
}

/// The modifiers of a method fit the class hierarchy.
pub open spec fn modifiers_ok(
    cs: Seq<(Seq<char>, ClassModel)>,
    c: ClassDecl,
    info: ClassModel,
    m: Member,
) -> Result<(), Seq<char>> {
    match m {
        Member::Method(d) => if d.is_virtual && d.is_override {
            Err(
                "method `"@ + c.name@ + "."@ + d.name@ + "` cannot be both virtual and override"@,
            )
        } else if d.is_static && (d.is_virtual || d.is_override) {
            Err(
                "static method `"@ + c.name@ + "."@ + d.name@ + "` cannot be virtual or override"@,
            )
        } else if d.is_override {
            override_ok(cs, c, info, d)
        } else {
            Ok(())
        },
        _ => Ok(()),
    }
}

/// A final method is not declared again below its class, even without
/// `override`.
pub open spec fn final_kept(
    cs: Seq<(Seq<char>, ClassModel)>,
    c: ClassDecl,
    info: ClassModel,
    m: Member,
) -> Result<(), Seq<char>> {
    match m {
        Member::Method(d) => if d.is_override || info.super_class is None {
            Ok(())
        } else {
            match class_method(cs, info.super_class->0, d.name@) {
                Some((b, mi)) => if mi.is_final {
                    Err(
                        "method `"@ + c.name@ + "."@ + d.name@
                            + "` cannot re-declare final method `"@ + b + "."@ + d.name@ + "`"@,
                    )
                } else {
                    Ok(())
                },
                None => Ok(()),
            }
        },
        _ => Ok(()),
    }
}

impl Tables {
    fn check_override(&self, c: &ClassDecl, info: &ClassInfo, m: &MethodDecl) -> (r: Result<
        (),
        String,
    >)
        ensures
            done(r) == override_ok(self@.classes, *c, info@, *m),
    {
        let cn: &str = c.name.as_str();
        let mn: &str = m.name.as_str();
        let s: &String = match &info.super_class {
            Some(s) => s,
            None => {
                return Err(
                    cat7(
                        "method `",
                        cn,
                        ".",
                        mn,
                        "` is marked override but `",
                        cn,
                        "` has no super class",
                    ),
                );
            },
        };
        let (d, b) = match self.find_method(s.as_str(), mn) {
            Some(x) => x,
            None => {
                return Err(
                    cat5(
                        "method `",
                        cn,
                        ".",
                        mn,
                        "` is marked override but no such method exists in a base class",
                    ),
                );
            },
        };
        if b.is_final {
            return Err(
                cat9(
                    "method `",
                    cn,
                    ".",
                    mn,
                    "` cannot override final method `",
                    d,
                    ".",
                    mn,
                    "`",
                ),
            );
        }
        if !b.is_virtual {
            return Err(
                cat9(
                    "method `",
                    cn,
                    ".",
                    mn,
                    "` overrides `",
                    d,
                    ".",
                    mn,
                    "` which is not virtual",
                ),
            );
        }
        let params: Vec<Type> = types_of_params(&m.params);
        if !same_type(&b.return_ty, &m.return_ty) || !same_tys(&b.params, &params) {
            return Err(
                cat9(
                    "method `",
                    cn,
                    ".",
                    mn,
                    "` override signature must match `",
                    d,
                    ".",
                    mn,
                    "`",
                ),
            );
        }
        Ok(())
    }

    fn check_modifiers(&self, c: &ClassDecl, info: &ClassInfo, m: &Member) -> (r: Result<
        (),
        String,
    >)
        ensures
            done(r) == modifiers_ok(self@.classes, *c, info@, *m),
    {
        if let Member::Method(d) = m {
            let cn: &str = c.name.as_str();
            let mn: &str = d.name.as_str();
            if d.is_virtual && d.is_override {
                return Err(
                    cat5("method `", cn, ".", mn, "` cannot be both virtual and override"),
                );
            }
            if d.is_static && (d.is_virtual || d.is_override) {
                return Err(
                    cat5("static method `", cn, ".", mn, "` cannot be virtual or override"),
                );
            }
            if d.is_override {
                return self.check_override(c, info, d);
            }
        }
        Ok(())
    }

    fn check_final_kept(&self, c: &ClassDecl, info: &ClassInfo, m: &Member) -> (r: Result<
        (),
        String,
    >)
        ensures
            done(r) == final_kept(self@.classes, *c, info@, *m),
    {
        if let Member::Method(d) = m {
            if d.is_override {
                return Ok(());
            }
            if let Some(s) = &info.super_class {
                if let Some((b, mi)) = self.find_class_method(s.as_str(), d.name.as_str()) {
                    if mi.is_final {
                        return Err(
                            cat9(
                                "method `",
                                c.name.as_str(),
                                ".",
                                d.name.as_str(),
                                "` cannot re-declare final method `",
                                b,
                                ".",
                                d.name.as_str(),
                                "`",
                            ),
                        );
                    }
                }
            }
        }
        Ok(())
    }

    fn check_all_modifiers(&self, c: &ClassDecl, info: &ClassInfo) -> (r: Result<(), String>)
        ensures
            done(r) == all_ok(
                c.members@.len() as int,
                0,
                |i: int| modifiers_ok(self@.classes, *c, info@, c.members@[i]),
            ),
    {
        let ghost cs = self@.classes;
        let ghost im = info@;
        let ghost f = |i: int| modifiers_ok(cs, *c, im, c.members@[i]);
        let ghost n = c.members@.len() as int;
        let mut i: usize = 0;
        while i < c.members.len()
            invariant
                i <= c.members@.len(),
                n == c.members@.len(),
                cs == self@.classes,
                im == info@,
                f == (|i: int| modifiers_ok(cs, *c, im, c.members@[i])),
                all_ok(n, 0, f) == all_ok(n, i as int, f),
            decreases c.members.len() - i,
        {
            match self.check_modifiers(c, info, &c.members[i]) {
                Ok(_) => {},
                Err(e) => return Err(e),
            }
            i = i + 1;
        }
        Ok(())
    }

    fn check_all_final_kept(&self, c: &ClassDecl, info: &ClassInfo) -> (r: Result<(), String>)
        ensures
            done(r) == all_ok(
                c.members@.len() as int,
                0,
                |i: int| final_kept(self@.classes, *c, info@, c.members@[i]),
            ),
    {
        let ghost cs = self@.classes;
        let ghost im = info@;
        let ghost f = |i: int| final_kept(cs, *c, im, c.members@[i]);
        let ghost n = c.members@.len() as int;
        let mut i: usize = 0;
        while i < c.members.len()
            invariant
                i <= c.members@.len(),
                n == c.members@.len(),
                cs == self@.classes,
                im == info@,
                f == (|i: int| final_kept(cs, *c, im, c.members@[i])),
                all_ok(n, 0, f) == all_ok(n, i as int, f),
            decreases c.members.len() - i,
        {
            match self.check_final_kept(c, info, &c.members[i]) {
                Ok(_) => {},
                Err(e) => return Err(e),
            }
            i = i + 1;
        }
        Ok(())
    }
}

// ---------------------------------------------------------------------------
// Abstract methods
// ---------------------------------------------------------------------------

/// A concrete class implements an abstract method of the super class `base`.
pub open spec fn abstract_met(
    cs: Seq<(Seq<char>, ClassModel)>,
    class: Seq<char>,
    base: Seq<char>,
    method: Seq<char>,
    m: MethodModel,
) -> Result<(), Seq<char>> {
    if !m.is_abstract {
        Ok(())
    } else {
        match method_found(cs, class, method) {
            None => Err(
                "class `"@ + class + "` must implement abstract method `"@ + method + "`"@,
            ),
            Some((_, f)) => if f.is_abstract {
                Err(
                    "class `"@ + class + "` must override abstract method `"@ + method
                        + "` from `"@ + base + "`"@,
                )
            } else {
                Ok(())
            },
        }
    }
}

/// A concrete class implements the abstract methods of a super class.
pub open spec fn super_met(
    cs: Seq<(Seq<char>, ClassModel)>,
    class: Seq<char>,
    base: (Seq<char>, ClassModel),
) -> Result<(), Seq<char>> {
    all_ok(
        base.1.methods.len() as int,
        0,
        |j: int| abstract_met(cs, class, base.0, base.1.methods[j].0, base.1.methods[j].1),
    )
}

/// A concrete class implements a method of an interface, at the declared type
/// arguments: `class CatBox : IProducer<Cat>` must implement `produce()` at
/// `Cat`, not at the interface's own `T`.
pub open spec fn interface_method_met(
    cs: Seq<(Seq<char>, ClassModel)>,
    class: Seq<char>,
    iface: Seq<char>,
    i: ClassModel,
    method: Seq<char>,
    m: MethodModel,
) -> Result<(), Seq<char>> {
    if !m.is_abstract {
        Ok(())
    } else {
        match method_found(cs, class, method) {
            None => Err(
                "class `"@ + class + "` must implement method `"@ + method + "` from interface `"@
                    + iface + "`"@,
            ),
            Some((d, f)) => if f.is_abstract {
                Err(
                    "class `"@ + class + "` must override abstract method `"@ + method
                        + "` from `"@ + d + "`"@,
                )
            } else {
                let args = match declared_args(cs, class, seq![], iface) {
                    Some(a) => a,
                    None => seq![],
                };
                let s = subst_of(i.generics, args);
                if f.return_ty != subst_ty(m.return_ty, s) || f.params != subst_all(m.params, s) {
                    Err(
                        "method `"@ + class + "."@ + method
                            + "` has a different signature than interface method `"@ + iface
                            + "."@ + method + "`"@,
                    )
                } else {
                    Ok(())
                }
            },
        }
    }
}

/// A concrete class implements the methods of an interface.
pub open spec fn interface_met(
    cs: Seq<(Seq<char>, ClassModel)>,
    class: Seq<char>,
    iface: Seq<char>,
) -> Result<(), Seq<char>> {
    match lookup(cs, iface) {
        None => Ok(()),
        Some(i) => all_ok(
            i.methods.len() as int,
            0,
            |j: int| interface_method_met(cs, class, iface, i, i.methods[j].0, i.methods[j].1),
        ),
    }
}

/// A concrete class implements all abstract methods of its super classes.
pub open spec fn supers_met(cs: Seq<(Seq<char>, ClassModel)>, info: ClassModel) -> Result<
    (),
    Seq<char>,
> {
    match info.super_class {
        None => Ok(()),
        Some(s) => {
            let ps = supers(cs, s);
            all_ok(ps.len() as int, 0, |k: int| super_met(cs, info.name, cs[ps[k]]))
        },
    }
}

/// A concrete class implements all methods of its interfaces.
pub open spec fn interfaces_met(cs: Seq<(Seq<char>, ClassModel)>, info: ClassModel) -> Result<
    (),
    Seq<char>,
> {
    let is = all_interfaces_of(cs, info.name);
    all_ok(is.len() as int, 0, |k: int| interface_met(cs, info.name, is[k]))
}

/// A concrete class implements every abstract method inherited from its super
/// classes and implemented interfaces.
pub open spec fn concrete_ok(cs: Seq<(Seq<char>, ClassModel)>, info: ClassModel) -> Result<
    (),
    Seq<char>,
> {
    if info.is_abstract || info.is_interface {
        Ok(())
    } else {
        match supers_met(cs, info) {
            Err(e) => Err(e),
            Ok(_) => interfaces_met(cs, info),
        }
    }
}

impl Tables {
    fn check_abstract_met(&self, class: &str, base: &str, method: &str, m: &MethodInfo) -> (r:
        Result<(), String>)
        ensures
            done(r) == abstract_met(self@.classes, class@, base@, method@, m@),
    {
        if !m.is_abstract {
            return Ok(());
        }
        match self.find_method(class, method) {
            None => Err(
                cat5("class `", class, "` must implement abstract method `", method, "`"),
            ),
            Some((_, f)) => if f.is_abstract {
                Err(
                    cat7(
                        "class `",
                        class,
                        "` must override abstract method `",
                        method,
                        "` from `",
                        base,
                        "`",
                    ),
                )
            } else {
                Ok(())
            },
        }
    }

    fn check_super_met(&self, class: &str, base: &str, info: &ClassInfo) -> (r: Result<(), String>)
        ensures
            done(r) == super_met(self@.classes, class@, (base@, info@)),
    {
        let ghost cs = self@.classes;
        let ghost b = (base@, info@);
        let ghost f = |j: int|
            abstract_met(cs, class@, b.0, b.1.methods[j].0, b.1.methods[j].1);
        let ghost n = b.1.methods.len() as int;
        assert(n == info.methods@.len());
        let mut i: usize = 0;
        while i < info.methods.len()
            invariant
                i <= info.methods@.len(),
                n == info.methods@.len(),
                cs == self@.classes,
                b == (base@, info@),
                f == (|j: int|
                    abstract_met(cs, class@, b.0, b.1.methods[j].0, b.1.methods[j].1)),
                all_ok(n, 0, f) == all_ok(n, i as int, f),
            decreases info.methods.len() - i,
        {
            assert(b.1.methods[i as int] == (
                info.methods@[i as int].0@,
                info.methods@[i as int].1@,
            ));
            match self.check_abstract_met(
                class,
                base,
                info.methods[i].0.as_str(),
                &info.methods[i].1,
            ) {
                Ok(_) => {},
                Err(e) => return Err(e),
            }
            i = i + 1;
        }
        Ok(())
    }

    fn check_supers_met(&self, info: &ClassInfo) -> (r: Result<(), String>)
        ensures
            done(r) == supers_met(self@.classes, info@),
    {
        let s: &String = match &info.super_class {
            Some(s) => s,
            None => return Ok(()),
        };
        let ps: Vec<usize> = self.super_chain(s.as_str());
        let ghost cs = self@.classes;
        let ghost all = supers(cs, s@);
        let ghost name = info@.name;
        let ghost f = |k: int| super_met(cs, name, cs[all[k]]);
        let ghost n = all.len() as int;
        assert(n == ps@.len());
        let ghost want = supers_met(cs, info@);
        assert(want == all_ok(n, 0, f));
        let mut i: usize = 0;
        while i < ps.len()
            invariant
                i <= ps@.len(),
                n == ps@.len(),
                cs == self@.classes,
                name == info@.name,
                ints(ps@) == all,
                forall|k: int| 0 <= k < ps@.len() ==> (#[trigger] ps@[k]) < self.classes@.len(),
                f == (|k: int| super_met(cs, name, cs[all[k]])),
                want == supers_met(cs, info@),
                want == all_ok(n, i as int, f),
            decreases ps.len() - i,
        {
            assert(all[i as int] == ps@[i as int]);
            let p: usize = ps[i];
            assert(cs[p as int] == (self.classes@[p as int].0@, self.classes@[p as int].1@));
            match self.check_super_met(
                info.name.as_str(),
                self.classes[p].0.as_str(),
                &self.classes[p].1,
            ) {
                Ok(_) => {},
                Err(e) => return Err(e),
            }
            i = i + 1;
        }
        Ok(())
    }

    fn check_interface_method_met(
        &self,
        class: &str,
        iface: &str,
        i: &ClassInfo,
        method: &str,
        m: &MethodInfo,
    ) -> (r: Result<(), String>)
        ensures
            done(r) == interface_method_met(self@.classes, class@, iface@, i@, method@, m@),
    {
        if !m.is_abstract {
            return Ok(());
        }
        let (d, f) = match self.find_method(class, method) {
            Some(x) => x,
            None => {
                return Err(
                    cat7(
                        "class `",
                        class,
                        "` must implement method `",
                        method,
                        "` from interface `",
                        iface,
                        "`",
                    ),
                );
            },
        };
        if f.is_abstract {
            return Err(
                cat7(
                    "class `",
                    class,
                    "` must override abstract method `",
                    method,
                    "` from `",
                    d,
                    "`",
                ),
            );
        }
        let none: Vec<Type> = Vec::new();
        assert(tys(none@) =~= seq![]);
        let args: Vec<Type> = match self.declared_interface_args(class, &none, iface) {
            Some(a) => a,
            None => Vec::new(),
        };
        assert(tys(args@) =~= match declared_args(self@.classes, class@, seq![], iface@) {
            Some(a) => a,
            None => seq![],
        });
        let subst: Vec<(String, Type)> = build_subst(&i.generic_params, &args);
        let want_ret: Type = substitute_type(&m.return_ty, &subst);
        let want_params: Vec<Type> = substitute_all(&m.params, &subst);
        if !same_type(&f.return_ty, &want_ret) || !same_tys(&f.params, &want_params) {
            return Err(
                cat9(
                    "method `",
                    class,
                    ".",
                    method,
                    "` has a different signature than interface method `",
                    iface,
                    ".",
                    method,
                    "`",
                ),
            );
        }
        Ok(())
    }

    fn check_interface_met(&self, class: &str, iface: &str) -> (r: Result<(), String>)
        ensures
            done(r) == interface_met(self@.classes, class@, iface@),
    {
        let info: &ClassInfo = match find(&self.classes, iface) {
            Some(i) => i,
            None => return Ok(()),
        };
        let ghost cs = self@.classes;
        let ghost im = info@;
        let ghost f = |j: int|
            interface_method_met(cs, class@, iface@, im, im.methods[j].0, im.methods[j].1);
        let ghost n = im.methods.len() as int;
        assert(n == info.methods@.len());
        let mut i: usize = 0;
        while i < info.methods.len()
            invariant
                i <= info.methods@.len(),
                n == info.methods@.len(),
                cs == self@.classes,
                im == info@,
                lookup(cs, iface@) == Some(im),
                f == (|j: int|
                    interface_method_met(
                        cs,
                        class@,
                        iface@,
                        im,
                        im.methods[j].0,
                        im.methods[j].1,
                    )),
                all_ok(n, 0, f) == all_ok(n, i as int, f),
                n == im.methods.len(),
            decreases info.methods.len() - i,
        {
            assert(im.methods[i as int] == (
                info.methods@[i as int].0@,
                info.methods@[i as int].1@,
            ));
            match self.check_interface_method_met(
                class,
                iface,
                info,
                info.methods[i].0.as_str(),
                &info.methods[i].1,
            ) {
                Ok(_) => {},
                Err(e) => return Err(e),
            }
            i = i + 1;
        }
        Ok(())
    }

    fn check_interfaces_met(&self, info: &ClassInfo) -> (r: Result<(), String>)
        ensures
            done(r) == interfaces_met(self@.classes, info@),
    {
        let is: Vec<String> = self.all_interfaces(info.name.as_str());
        let ghost cs = self@.classes;
        let ghost name = info@.name;
        let ghost all = all_interfaces_of(cs, name);
        let ghost f = |k: int| interface_met(cs, name, all[k]);
        let ghost n = all.len() as int;
        assert(n == is@.len());
        let ghost want = interfaces_met(cs, info@);
        assert(want == all_ok(n, 0, f));
        let mut i: usize = 0;
        while i < is.len()
            invariant
                i <= is@.len(),
                n == is@.len(),
                cs == self@.classes,
                name == info@.name,
                texts(is@) == all,
                f == (|k: int| interface_met(cs, name, all[k])),
                want == interfaces_met(cs, info@),
                want == all_ok(n, i as int, f),
            decreases is.len() - i,
        {
            assert(all[i as int] == is@[i as int]@);
            match self.check_interface_met(info.name.as_str(), is[i].as_str()) {
                Ok(_) => {},
                Err(e) => return Err(e),
            }
            i = i + 1;
        }
        Ok(())
    }

    fn check_concrete(&self, info: &ClassInfo) -> (r: Result<(), String>)
        ensures
            done(r) == concrete_ok(self@.classes, info@),
    {
        if info.is_abstract || info.is_interface {
            return Ok(());
        }
        match self.check_supers_met(info) {
            Ok(_) => self.check_interfaces_met(info),
            Err(e) => Err(e),
        }
    }
}

// ---------------------------------------------------------------------------
// Constructors
// ---------------------------------------------------------------------------

/// The parameters before `n` as locals.
pub open spec fn param_locals(ps: Seq<Param>, n: int) -> Seq<(Seq<char>, Ty)>
    decreases n,
{
    if n <= 0 {
        seq![]
    } else {
        put(param_locals(ps, n - 1), ps[n - 1].name@, ps[n - 1].ty@)
    }
}

/// What surrounds the arguments of a chaining call.
pub open spec fn chain_scope(info: ClassModel, m: MethodDecl) -> Around {
    Around {
        class: info,
        in_instance: true,
        return_ty: Ty::Unit,
        generics: seq![],
        throws: texts(m.throws@),
        handled: seq![],
        is_async: false,
    }
}

/// The first constructor from `j` on, other than `idx`, that takes `args`.
pub open spec fn this_target(
    t: TableModel,
    ctors: Seq<MethodDecl>,
    args: Seq<Ty>,
    idx: int,
    j: int,
) -> Option<int>
    decreases ctors.len() - j,
{
    if j < 0 || j >= ctors.len() {
        None
    } else if j != idx && takes(t, param_tys(ctors[j].params@), seq![], args) {
        Some(j)
    } else {
        this_target(t, ctors, args, idx, j + 1)
    }
}

/// A constructor that does not chain does so implicitly, to a constructor of the
/// super class without parameters.
pub open spec fn implicit_chain(t: TableModel, info: ClassModel) -> Result<(), Seq<char>> {
    match info.super_class {
        None => Ok(()),
        Some(s) => match lookup(t.classes, s) {
            None => Ok(()),
            Some(b) => if b.constructors.len() != 0 && !(exists|i: int|
                0 <= i < b.constructors.len() && (#[trigger] b.constructors[i]).len() == 0) {
                Err(
                    "constructor `"@ + info.name
                        + "(...)` must explicitly call `: super(...)` because super class `"@ + s
                        + "` has no zero-parameter constructor"@,
                )
            } else {
                Ok(())
            },
        },
    }
}

/// A constructor of the super class takes the arguments.
pub open spec fn super_chain_ok(t: TableModel, info: ClassModel, args: Seq<Ty>) -> Result<
    (),
    Seq<char>,
> {
    match info.super_class {
        None => Err(
            "class `"@ + info.name + "` has no super class to chain to in `: super(...)`"@,
        ),
        Some(s) => match lookup(t.classes, s) {
            None => Ok(()),
            Some(b) => if b.is_interface {
                Err("cannot chain `: super(...)` to interface `"@ + s + "`"@)
            } else if b.constructors.len() == 0 {
                if args.len() != 0 {
                    Err(
                        "super class `"@ + s
                            + "` declares no constructor; `: super(...)` must be called with no arguments"@,
                    )
                } else {
                    Ok(())
                }
            } else if some_takes(t, b.constructors, seq![], args) {
                Ok(())
            } else {
                Err(
                    "no constructor of super class `"@ + s + "` matches arguments ("@ + joined(
                        ty_names(args),
                        ", "@,
                    ) + ")"@,
                )
            },
        },
    }
}

/// The constructor to which constructor `idx` chains with `: this(...)`, if it
/// does.
pub open spec fn chain_of(
    t: TableModel,
    info: ClassModel,
    ctors: Seq<MethodDecl>,
    idx: int,
    st: Status,
) -> (Result<Option<int>, Seq<char>>, Status) {
    let m = ctors[idx];
    match m.constructor_chain {
        None => match implicit_chain(t, info) {
            Err(e) => (Err(e), st),
            Ok(_) => (Ok(None), st),
        },
        Some(chain) => {
            let r = infer_from(
                t,
                chain_scope(info, m),
                param_locals(m.params@, m.params@.len() as int),
                st,
                chain.args,
                0,
                seq![],
            );
            match r.0 {
                Err(e) => (Err(e), r.1),
                Ok(args) => match chain.target {
                    ConstructorTarget::Base => match super_chain_ok(t, info, args) {
                        Err(e) => (Err(e), r.1),
                        Ok(_) => (Ok(None), r.1),
                    },
                    ConstructorTarget::This => match this_target(t, ctors, args, idx, 0) {
                        Some(j) => (Ok(Some(j)), r.1),
                        None => (
                            Err(
                                "no `: this(...)` constructor of `"@ + info.name
                                    + "` matches arguments ("@ + joined(ty_names(args), ", "@)
                                    + ")"@,
                            ),
                            r.1,
                        ),
                    },
                },
            }
        },
    }
}

/// The chains of the constructors from `i` on, after those in `acc`.
pub open spec fn chains_from(
    t: TableModel,
    info: ClassModel,
    ctors: Seq<MethodDecl>,
    i: int,
    acc: Seq<Option<int>>,
    st: Status,
) -> (Result<Seq<Option<int>>, Seq<char>>, Status)
    decreases ctors.len() - i,
{
    if i < 0 || i >= ctors.len() {
        (Ok(acc), st)
    } else {
        let r = chain_of(t, info, ctors, i, st);
        match r.0 {
            Err(e) => (Err(e), r.1),
            Ok(x) => chains_from(t, info, ctors, i + 1, acc.push(x), r.1),
        }
    }
}

/// The chain that starts at constructor `at` ends after fewer than `left` more.
pub open spec fn chain_ends(targets: Seq<Option<int>>, at: int, left: nat) -> bool
    decreases left,
{
    if left == 0 {
        false
    } else {
        match targets[at] {
            None => true,
            Some(n) => chain_ends(targets, n, (left - 1) as nat),
        }
    }
}

/// No chain of `: this(...)` calls comes back to a constructor that it has
/// passed: each ends before it has passed all constructors.
pub open spec fn chains_end(targets: Seq<Option<int>>) -> bool {
    forall|i: int| 0 <= i < targets.len() ==> #[trigger] chain_ends(targets, i, targets.len())
}

/// The constructors among the members before `n`.
pub open spec fn constructors_of(ms: Seq<Member>, n: int) -> Seq<MethodDecl>
    decreases n,
{
    if n <= 0 {
        seq![]
    } else {
        let before = constructors_of(ms, n - 1);
        match ms[n - 1] {
            Member::Method(m) => if m.is_constructor {
                before.push(m)
            } else {
                before
            },
            _ => before,
        }
    }
}

/// The constructors of a class chain to constructors that take their arguments,
/// and not in a circle.
pub open spec fn constructors_ok(t: TableModel, c: ClassDecl, info: ClassModel, st: Status) -> (
    Result<(), Seq<char>>,
    Status,
) {
    let ctors = constructors_of(c.members@, c.members@.len() as int);
    let r = chains_from(t, info, ctors, 0, seq![], st);
    match r.0 {
        Err(e) => (Err(e), r.1),
        Ok(targets) => if chains_end(targets) {
            (Ok(()), r.1)
        } else {
            (
                Err("constructors of `"@ + c.name@ + "` form a `: this(...)` chain cycle"@),
                r.1,
            )
        },
    }
}

fn locals_of(ps: &Vec<Param>) -> (r: Vec<(String, Type)>)
    ensures
        entries(r@) == param_locals(ps@, ps@.len() as int),
{
    let mut out: Vec<(String, Type)> = Vec::new();
    assert(entries(out@) =~= seq![]);
    let mut i: usize = 0;
    while i < ps.len()
        invariant
            i <= ps@.len(),
            entries(out@) == param_locals(ps@, i as int),
        decreases ps.len() - i,
    {
        insert(&mut out, ps[i].name.as_str(), ps[i].ty.clone());
        i = i + 1;
    }
    out
}

/// Constructors by value.
pub open spec fn derefs(v: Seq<&MethodDecl>) -> Seq<MethodDecl> {
    Seq::new(v.len(), |i: int| *v[i])
}

fn find_constructors<'a>(ms: &'a Vec<Member>) -> (r: Vec<&'a MethodDecl>)
    ensures
        derefs(r@) == constructors_of(ms@, ms@.len() as int),
{
    let mut out: Vec<&'a MethodDecl> = Vec::new();
    assert(derefs(out@) =~= seq![]);
    let mut i: usize = 0;
    while i < ms.len()
        invariant
            i <= ms@.len(),
            derefs(out@) == constructors_of(ms@, i as int),
        decreases ms.len() - i,
    {
        if let Member::Method(m) = &ms[i] {
            if m.is_constructor {
                let ghost before = derefs(out@);
                out.push(m);
                assert(derefs(out@) =~= before.push(*m));
            }
        }
        i = i + 1;
    }
    out
}

/// A place or none, as a number.
pub open spec fn opt_int(x: Option<usize>) -> Option<int> {
    match x {
        Some(n) => Some(n as int),
        None => None,
    }
}

/// Places or none, as numbers.
pub open spec fn opt_ints(v: Seq<Option<usize>>) -> Seq<Option<int>> {
    Seq::new(v.len(), |i: int| opt_int(v[i]))
}

/// A place, none or an error, by value.
pub open spec fn chain_outcome(r: Result<Option<usize>, String>) -> Result<
    Option<int>,
    Seq<char>,
> {
    match r {
        Ok(x) => Ok(opt_int(x)),
        Err(e) => Err(e@),
    }
}

impl Tables {
    fn check_implicit_chain(&self, info: &ClassInfo) -> (r: Result<(), String>)
        ensures
            done(r) == implicit_chain(self@, info@),
    {
        let s: &String = match &info.super_class {
            Some(s) => s,
            None => return Ok(()),
        };
        let b: &ClassInfo = match find(&self.classes, s.as_str()) {
            Some(b) => b,
            None => return Ok(()),
        };
        let ghost cs = b@.constructors;
        assert(cs.len() == b.constructors@.len());
        if b.constructors.len() == 0 {
            return Ok(());
        }
        let mut i: usize = 0;
        while i < b.constructors.len()
            invariant
                i <= b.constructors@.len(),
                cs == b@.constructors,
                cs.len() == b.constructors@.len(),
                info@.super_class == Some(s@),
                lookup(self@.classes, s@) == Some(b@),
                forall|j: int| 0 <= j < i ==> (#[trigger] cs[j]).len() != 0,
            decreases b.constructors.len() - i,
        {
            assert(cs[i as int] == tys(b.constructors@[i as int].params@));
            assert(cs[i as int].len() == b.constructors@[i as int].params@.len());
            if b.constructors[i].params.len() == 0 {
                return Ok(());
            }
            i = i + 1;
        }
        Err(
            cat5(
                "constructor `",
                info.name.as_str(),
                "(...)` must explicitly call `: super(...)` because super class `",
                s.as_str(),
                "` has no zero-parameter constructor",
            ),
        )
    }

    fn check_super_chain(&self, info: &ClassInfo, args: &Vec<Type>) -> (r: Result<(), String>)
        ensures
            done(r) == super_chain_ok(self@, info@, tys(args@)),
    {
        let s: &String = match &info.super_class {
            Some(s) => s,
            None => {
                return Err(
                    cat3(
                        "class `",
                        info.name.as_str(),
                        "` has no super class to chain to in `: super(...)`",
                    ),
                );
            },
        };
        let b: &ClassInfo = match find(&self.classes, s.as_str()) {
            Some(b) => b,
            None => return Ok(()),
        };
        assert(b@.constructors.len() == b.constructors@.len());
        assert(tys(args@).len() == args@.len());
        if b.is_interface {
            return Err(cat3("cannot chain `: super(...)` to interface `", s.as_str(), "`"));
        }
        if b.constructors.len() == 0 {
            if args.len() != 0 {
                return Err(
                    cat3(
                        "super class `",
                        s.as_str(),
                        "` declares no constructor; `: super(...)` must be called with no arguments",
                    ),
                );
            }
            return Ok(());
        }
        let none: Vec<(String, Type)> = Vec::new();
        assert(entries(none@) =~= seq![]);
        if self.constructors_take(&b.constructors, &none, args) {
            return Ok(());
        }
        let shown: String = join(&type_names(args), ", ");
        Err(
            cat5(
                "no constructor of super class `",
                s.as_str(),
                "` matches arguments (",
                shown.as_str(),
                ")",
            ),
        )
    }

    fn find_this_target(&self, ctors: &Vec<&MethodDecl>, args: &Vec<Type>, idx: usize) -> (r: Option<
        usize,
    >)
        ensures
            opt_int(r) == this_target(self@, derefs(ctors@), tys(args@), idx as int, 0),
            r matches Some(j) ==> j < ctors@.len(),
    {
        let ghost cs = derefs(ctors@);
        let none: Vec<(String, Type)> = Vec::new();
        assert(entries(none@) =~= seq![]);
        let mut j: usize = 0;
        while j < ctors.len()
            invariant
                j <= ctors@.len(),
                cs == derefs(ctors@),
                entries(none@) == Seq::<(Seq<char>, Ty)>::empty(),
                this_target(self@, cs, tys(args@), idx as int, 0) == this_target(
                    self@,
                    cs,
                    tys(args@),
                    idx as int,
                    j as int,
                ),
            decreases ctors.len() - j,
        {
            assert(cs[j as int] == *ctors@[j as int]);
            if j != idx {
                let params: Vec<Type> = types_of_params(&ctors[j].params);
                if self.params_take(&params, &none, args) {
                    return Some(j);
                }
            }
            j = j + 1;
        }
        None
    }

    /// Validate a constructor's chaining call and, for `: this(...)`, return
    /// the index of the target constructor within `ctors`.
    fn check_constructor_chain(
        &self,
        info: &ClassInfo,
        ctors: &Vec<&MethodDecl>,
        idx: usize,
        st: &mut State,
    ) -> (r: Result<Option<usize>, String>)
        requires
            idx < ctors@.len(),
        ensures
            (chain_outcome(r), final(st)@) == chain_of(
                self@,
                info@,
                derefs(ctors@),
                idx as int,
                old(st)@,
            ),
            r matches Ok(Some(j)) ==> j < ctors@.len(),
    {
        let m: &MethodDecl = ctors[idx];
        assert(derefs(ctors@)[idx as int] == *m);
        let chain: &ConstructorChain = match &m.constructor_chain {
            Some(c) => c,
            None => {
                // Derived constructors must chain explicitly when the base class
                // declares no zero-parameter constructor.
                return match self.check_implicit_chain(info) {
                    Ok(_) => Ok(None),
                    Err(e) => Err(e),
                };
            },
        };
        let locals: Vec<(String, Type)> = locals_of(&m.params);
        let unit: Type = Type::Unit;
        let generics: Vec<GenericParam> = Vec::new();
        let handled: Vec<Type> = Vec::new();
        assert(views(generics@) =~= seq![]);
        assert(tys(handled@) =~= seq![]);
        let sc: Scope<'_> = Scope {
            class: info,
            in_instance: true,
            return_ty: &unit,
            generics: &generics,
            throws: &m.throws,
            handled: &handled,
            is_async: false,
        };
        assert(sc@ == chain_scope(info@, *m));
        let args: Vec<Type> = match self.infer_all(&sc, &locals, st, &chain.args) {
            Ok(a) => a,
            Err(e) => return Err(e),
        };
        match chain.target {
            ConstructorTarget::Base => match self.check_super_chain(info, &args) {
                Ok(_) => Ok(None),
                Err(e) => Err(e),
            },
            ConstructorTarget::This => match self.find_this_target(ctors, &args, idx) {
                Some(j) => Ok(Some(j)),
                None => {
                    let shown: String = join(&type_names(&args), ", ");
                    Err(
                        cat5(
                            "no `: this(...)` constructor of `",
                            info.name.as_str(),
                            "` matches arguments (",
                            shown.as_str(),
                            ")",
                        ),
                    )
                },
            },
        }
    }

    fn check_constructors(&self, c: &ClassDecl, info: &ClassInfo, st: &mut State) -> (r: Result<
        (),
        String,
    >)
        ensures
            (done(r), final(st)@) == constructors_ok(self@, *c, info@, old(st)@),
    {
        let ctors: Vec<&MethodDecl> = find_constructors(&c.members);
        let ghost cs = derefs(ctors@);
        let ghost want = chains_from(self@, info@, cs, 0, seq![], st@);
        let mut targets: Vec<Option<usize>> = Vec::new();
        assert(opt_ints(targets@) =~= seq![]);
        let mut i: usize = 0;
        while i < ctors.len()
            invariant
                i <= ctors@.len(),
                targets@.len() == i,
                cs == derefs(ctors@),
                cs == constructors_of(c.members@, c.members@.len() as int),
                forall|k: int|
                    0 <= k < i ==> ((#[trigger] targets@[k]) matches Some(j) ==> j < ctors@.len()),
                want == chains_from(self@, info@, cs, 0, seq![], old(st)@),
                want == chains_from(
                    self@,
                    info@,
                    cs,
                    i as int,
                    opt_ints(targets@),
                    st@,
                ),
            decreases ctors.len() - i,
        {
            match self.check_constructor_chain(info, &ctors, i, st) {
                Ok(x) => {
                    let ghost before = opt_ints(targets@);
                    targets.push(x);
                    assert(opt_ints(targets@) =~= before.push(opt_int(x)));
                },
                Err(e) => return Err(e),
            }
            i = i + 1;
        }
        if !all_end(&targets) {
            return Err(
                cat3(
                    "constructors of `",
                    c.name.as_str(),
                    "` form a `: this(...)` chain cycle",
                ),
            );
        }
        Ok(())
    }
}

fn ends(targets: &Vec<Option<usize>>, start: usize) -> (r: bool)
    requires
        start < targets@.len(),
        forall|k: int|
            0 <= k < targets@.len() ==> ((#[trigger] targets@[k]) matches Some(j) ==> j
                < targets@.len()),
    ensures
        r == chain_ends(opt_ints(targets@), start as int, targets@.len()),
{
    let ghost ts = opt_ints(targets@);
    let mut at: usize = start;
    let mut left: usize = targets.len();
    while left > 0
        invariant
            at < targets@.len(),
            ts == opt_ints(targets@),
            forall|k: int|
                0 <= k < targets@.len() ==> ((#[trigger] targets@[k]) matches Some(j) ==> j
                    < targets@.len()),
            chain_ends(ts, start as int, targets@.len()) == chain_ends(ts, at as int, left as nat),
        decreases left,
    {
        assert(ts[at as int] == opt_int(targets@[at as int]));
        match targets[at] {
            None => return true,
            Some(n) => {
                at = n;
            },
        }
        left = left - 1;
    }
    false
}

fn all_end(targets: &Vec<Option<usize>>) -> (r: bool)
    requires
        forall|k: int|
            0 <= k < targets@.len() ==> ((#[trigger] targets@[k]) matches Some(j) ==> j
                < targets@.len()),
    ensures
        r == chains_end(opt_ints(targets@)),
{
    let ghost ts = opt_ints(targets@);
    assert(ts.len() == targets@.len());
    let mut i: usize = 0;
    while i < targets.len()
        invariant
            i <= targets@.len(),
            ts == opt_ints(targets@),
            ts.len() == targets@.len(),
            forall|k: int|
                0 <= k < targets@.len() ==> ((#[trigger] targets@[k]) matches Some(j) ==> j
                    < targets@.len()),
            forall|k: int| 0 <= k < i ==> #[trigger] chain_ends(ts, k, ts.len()),
        decreases targets.len() - i,
    {
        if !ends(targets, i) {
            return false;
        }
        i = i + 1;
    }
    true
}

// ---------------------------------------------------------------------------
// Errors
// ---------------------------------------------------------------------------

/// An error with the place where it was found.
pub open spec fn located(line: nat, context: Seq<char>, msg: Seq<char>) -> Seq<char> {
    if line > 0 && context.len() > 0 {
        "line "@ + dec(line) + ", in `"@ + context + "`: "@ + msg
    } else if context.len() > 0 {
        "in `"@ + context + "`: "@ + msg
    } else {
        msg
    }
}

/// What is known while the classes of a program are checked.
pub struct Progress {
    /// What is known of the statement that is being checked.
    pub state: State,
    /// `Class.Method` currently being checked, for error prefixes.
    pub context: String,
    /// Errors collected across method bodies (multiple-error reporting):
    /// each entry is already located ("line N, in `C.m`: ...").
    pub errors: Vec<String>,
}

/// What is known while the classes are checked, by value.
#[verifier::ext_equal]
pub ghost struct Walked {
    /// Of the statement.
    pub status: Status,
    /// The method.
    pub context: Seq<char>,
    /// The errors.
    pub errors: Seq<Seq<char>>,
}

impl View for Progress {
    type V = Walked;

    open spec fn view(&self) -> Walked {
        Walked { status: self.state@, context: self.context@, errors: texts(self.errors@) }
    }
}

/// One more error is known, with its place, unless there are too many.
pub open spec fn recorded(w: Walked, msg: Seq<char>) -> Walked {
    if w.errors.len() >= ERROR_LIMIT {
        w
    } else {
        Walked {
            status: w.status,
            context: w.context,
            errors: w.errors.push(located(w.status.line as nat, w.context, msg)),
        }
    }
}

/// An error with the place where it was found.
pub fn locate(line: usize, context: &str, msg: String) -> (r: String)
    ensures
        r@ == located(line as nat, context@, msg@),
{
    let n: usize = crate::typer::suggest::chars_of(context).len();
    if line > 0 && n > 0 {
        let shown: String = dec_u64(line as u64);
        return cat6("line ", shown.as_str(), ", in `", context, "`: ", msg.as_str());
    }
    if n > 0 {
        return cat4("in `", context, "`: ", msg.as_str());
    }
    msg
}

impl Progress {
    /// What was being checked is left: no local is narrowed any more, and there is
    /// no line and no method.
    fn leave(&mut self)
        ensures
            final(self)@ == outside(old(self)@),
    {
        self.state.narrowed = Vec::new();
        self.state.line = 0;
        self.context = String::new();
        assert(entries(self.state.narrowed@) =~= seq![]);
        assert(self@ =~= outside(old(self)@));
    }

    /// Record a located error and keep checking (multiple-error
    /// reporting). Capped so a badly broken file stays readable.
    pub fn record_error(&mut self, msg: String)
        ensures
            final(self)@ == recorded(old(self)@, msg@),
    {
        let ghost before = self@;
        assert(before.errors.len() == self.errors@.len());
        if self.errors.len() >= ERROR_LIMIT {
            return;
        }
        let text: String = locate(self.state.line, self.context.as_str(), msg);
        self.errors.push(text);
        assert(texts(self.errors@) =~= before.errors.push(text@));
    }
}

// ---------------------------------------------------------------------------
// Members
// ---------------------------------------------------------------------------

/// The type that the body of a method returns: the body of an async method
/// returns what the task gives.
pub open spec fn body_ty(m: MethodDecl) -> Ty {
    if m.is_async && is_task(m.return_ty@) {
        m.return_ty@->Class_1[0]
    } else {
        m.return_ty@
    }
}

/// What surrounds the body of a method.
pub open spec fn method_scope(c: ClassDecl, info: ClassModel, m: MethodDecl) -> Around {
    Around {
        class: info,
        in_instance: !m.is_static,
        return_ty: body_ty(m),
        generics: views(c.generic_params@) + views(m.generic_params@),
        throws: texts(m.throws@),
        handled: seq![],
        is_async: m.is_async,
    }
}

/// What surrounds the body of an accessor.
pub open spec fn accessor_scope(c: ClassDecl, info: ClassModel, p: PropertyDecl, ret: Ty) -> Around {
    Around {
        class: info,
        in_instance: !p.is_static,
        return_ty: ret,
        generics: views(c.generic_params@),
        throws: seq![],
        handled: seq![],
        is_async: false,
    }
}

/// Checking a method. An error in the body is recorded, and the next member is
/// checked; an error in the signature ends the checking of the class.
pub open spec fn method_checked(
    t: TableModel,
    c: ClassDecl,
    info: ClassModel,
    m: MethodDecl,
    w: Walked,
) -> (Result<(), Seq<char>>, Walked) {
    let at = Walked {
        status: Status { narrowed: seq![], line: 0 },
        context: c.name@ + "."@ + m.name@,
        errors: w.errors,
    };
    let generics = views(c.generic_params@) + views(m.generic_params@);
    match all_ok(m.params@.len() as int, 0, |k: int| valid(t, m.params@[k].ty@, generics)) {
        Err(e) => (Err(e), at),
        Ok(_) => match valid(t, m.return_ty@, generics) {
            Err(e) => (Err(e), at),
            Ok(_) => {
                let r = stmts_from(
                    t,
                    method_scope(c, info, m),
                    param_locals(m.params@, m.params@.len() as int),
                    at.status,
                    m.body,
                    0,
                );
                let end = Walked { status: r.status, context: at.context, errors: at.errors };
                match r.result {
                    Ok(_) => (Ok(()), end),
                    Err(e) => (Ok(()), recorded(end, e)),
                }
            },
        },
    }
}

/// Nothing is being checked: no local is narrowed, and there is no line and no
/// method.
pub open spec fn outside(w: Walked) -> Walked {
    Walked {
        status: Status { narrowed: seq![], line: 0 },
        context: seq![],
        errors: w.errors,
    }
}

/// Checking the body of an accessor, if it has one. No local is narrowed at its
/// start.
pub open spec fn accessor_checked(
    t: TableModel,
    sc: Around,
    a: Option<Accessor>,
    locals: Seq<(Seq<char>, Ty)>,
    w: Walked,
) -> (Result<(), Seq<char>>, Walked) {
    match a {
        None => (Ok(()), w),
        Some(x) => match x.kind {
            AccessorKind::Auto => (Ok(()), w),
            AccessorKind::Body(body) => {
                let start = Status { narrowed: seq![], ..w.status };
                let r = stmts_from(t, sc, locals, start, body, 0);
                (r.result, Walked { status: r.status, context: w.context, errors: w.errors })
            },
        },
    }
}

/// Checking a property: its type, its getter and its setter.
pub open spec fn property_checked(
    t: TableModel,
    c: ClassDecl,
    info: ClassModel,
    p: PropertyDecl,
    w: Walked,
) -> (Result<(), Seq<char>>, Walked) {
    match valid(t, p.ty@, views(c.generic_params@)) {
        Err(e) => (Err(e), w),
        Ok(_) => {
            let g = accessor_checked(
                t,
                accessor_scope(c, info, p, p.ty@),
                p.getter,
                seq![],
                w,
            );
            match g.0 {
                Err(e) => (Err(e), g.1),
                Ok(_) => accessor_checked(
                    t,
                    accessor_scope(c, info, p, Ty::Unit),
                    p.setter,
                    seq![("value"@, p.ty@)],
                    g.1,
                ),
            }
        },
    }
}

/// Checking a member.
pub open spec fn member_checked(
    t: TableModel,
    c: ClassDecl,
    info: ClassModel,
    m: Member,
    w: Walked,
) -> (Result<(), Seq<char>>, Walked) {
    match m {
        Member::Method(d) => method_checked(t, c, info, d, w),
        Member::Field(f) => (valid(t, f.ty@, views(c.generic_params@)), outside(w)),
        Member::Property(p) => property_checked(t, c, info, p, outside(w)),
    }
}

/// Checking the members from `i` on.
pub open spec fn members_checked(
    t: TableModel,
    c: ClassDecl,
    info: ClassModel,
    i: int,
    w: Walked,
) -> (Result<(), Seq<char>>, Walked)
    decreases c.members@.len() - i,
{
    if i < 0 || i >= c.members@.len() {
        (Ok(()), w)
    } else {
        let r = member_checked(t, c, info, c.members@[i], w);
        match r.0 {
            Err(e) => (Err(e), r.1),
            Ok(_) => members_checked(t, c, info, i + 1, r.1),
        }
    }
}

/// The rules on a class as a whole.
pub open spec fn class_ok(cs: Seq<(Seq<char>, ClassModel)>, c: ClassDecl, info: ClassModel) -> Result<
    (),
    Seq<char>,
> {
    match all_ok(
        c.members@.len() as int,
        0,
        |i: int| modifiers_ok(cs, c, info, c.members@[i]),
    ) {
        Err(e) => Err(e),
        Ok(_) => match all_ok(
            c.members@.len() as int,
            0,
            |i: int| final_kept(cs, c, info, c.members@[i]),
        ) {
            Err(e) => Err(e),
            Ok(_) => concrete_ok(cs, info),
        },
    }
}

/// Checking a class.
pub open spec fn class_checked(t: TableModel, c: ClassDecl, w: Walked) -> (
    Result<(), Seq<char>>,
    Walked,
) {
    match lookup(t.classes, c.name@) {
        None => (Ok(()), w),
        Some(info) => match class_ok(t.classes, c, info) {
            Err(e) => (Err(e), outside(w)),
            Ok(_) => {
                let r = constructors_ok(t, c, info, outside(w).status);
                let next = Walked { status: r.1, ..outside(w) };
                match r.0 {
                    Err(e) => (Err(e), next),
                    Ok(_) => members_checked(t, c, info, 0, next),
                }
            },
        },
    }
}

fn all_params(c: &ClassDecl, m: &MethodDecl) -> (r: Vec<GenericParam>)
    ensures
        views(r@) == views(c.generic_params@) + views(m.generic_params@),
{
    let mut out: Vec<GenericParam> = clone_params(&c.generic_params);
    let mut more: Vec<GenericParam> = clone_params(&m.generic_params);
    let ghost a = out@;
    let ghost b = more@;
    out.append(&mut more);
    assert(views(out@) =~= views(a) + views(b));
    out
}

fn body_type(m: &MethodDecl) -> (r: Type)
    ensures
        r@ == body_ty(*m),
{
    if m.is_async && returns_task(&m.return_ty) {
        if let Type::Class(_, args) = &m.return_ty {
            assert(tys(args@).len() == args@.len());
            assert(tys(args@)[0] == args@[0]@);
            return args[0].clone();
        }
    }
    m.return_ty.clone()
}

impl Tables {
    fn check_param_types(&self, m: &MethodDecl, generics: &Vec<GenericParam>) -> (r: Result<
        (),
        String,
    >)
        ensures
            done(r) == all_ok(
                m.params@.len() as int,
                0,
                |k: int| valid(self@, m.params@[k].ty@, views(generics@)),
            ),
    {
        let ghost t = self@;
        let ghost g = views(generics@);
        let ghost f = |k: int| valid(t, m.params@[k].ty@, g);
        let ghost n = m.params@.len() as int;
        let mut i: usize = 0;
        while i < m.params.len()
            invariant
                i <= m.params@.len(),
                n == m.params@.len(),
                t == self@,
                g == views(generics@),
                f == (|k: int| valid(t, m.params@[k].ty@, g)),
                all_ok(n, 0, f) == all_ok(n, i as int, f),
            decreases m.params.len() - i,
        {
            match self.validate_type_with_generics(&m.params[i].ty, generics) {
                Ok(_) => {},
                Err(e) => return Err(e),
            }
            i = i + 1;
        }
        Ok(())
    }

    fn check_method_body(&self, c: &ClassDecl, info: &ClassInfo, m: &MethodDecl, w: &mut Progress) -> (r:
        Result<(), String>)
        ensures
            (done(r), final(w)@) == method_checked(self@, *c, info@, *m, old(w)@),
    {
        w.leave();
        w.context = cat3(c.name.as_str(), ".", m.name.as_str());
        let generics: Vec<GenericParam> = all_params(c, m);
        match self.check_param_types(m, &generics) {
            Ok(_) => {},
            Err(e) => return Err(e),
        }
        match self.validate_type_with_generics(&m.return_ty, &generics) {
            Ok(_) => {},
            Err(e) => return Err(e),
        }
        let mut locals: Vec<(String, Type)> = locals_of(&m.params);
        let ret: Type = body_type(m);
        let handled: Vec<Type> = Vec::new();
        assert(tys(handled@) =~= seq![]);
        let sc: Scope<'_> = Scope {
            class: info,
            in_instance: !m.is_static,
            return_ty: &ret,
            generics: &generics,
            throws: &m.throws,
            handled: &handled,
            is_async: m.is_async,
        };
        assert(sc@ == method_scope(*c, info@, *m));
        // Multiple-error reporting: a failed statement is
        // recorded, the rest of this method is skipped (its
        // statements would cascade), and the next method is
        // checked normally.
        match self.check_stmts(&sc, &mut locals, &mut w.state, &m.body) {
            Ok(_) => {},
            Err(e) => w.record_error(e),
        }
        Ok(())
    }

    fn check_accessor(
        &self,
        sc: &Scope<'_>,
        a: &Option<Accessor>,
        locals: Vec<(String, Type)>,
        w: &mut Progress,
    ) -> (r: Result<(), String>)
        ensures
            (done(r), final(w)@) == accessor_checked(
                self@,
                sc@,
                *a,
                entries(locals@),
                old(w)@,
            ),
    {
        if let Some(x) = a {
            if let AccessorKind::Body(body) = &x.kind {
                let mut mine: Vec<(String, Type)> = locals;
                w.state.narrowed = Vec::new();
                assert(entries(w.state.narrowed@) =~= seq![]);
                return self.check_stmts(sc, &mut mine, &mut w.state, body);
            }
        }
        Ok(())
    }

    fn check_property(&self, c: &ClassDecl, info: &ClassInfo, p: &PropertyDecl, w: &mut Progress) -> (r:
        Result<(), String>)
        ensures
            (done(r), final(w)@) == property_checked(self@, *c, info@, *p, old(w)@),
    {
        match self.validate_type_with_generics(&p.ty, &c.generic_params) {
            Ok(_) => {},
            Err(e) => return Err(e),
        }
        let throws: Vec<String> = Vec::new();
        let handled: Vec<Type> = Vec::new();
        let unit: Type = Type::Unit;
        assert(texts(throws@) =~= seq![]);
        assert(tys(handled@) =~= seq![]);
        let get: Scope<'_> = Scope {
            class: info,
            in_instance: !p.is_static,
            return_ty: &p.ty,
            generics: &c.generic_params,
            throws: &throws,
            handled: &handled,
            is_async: false,
        };
        assert(get@ == accessor_scope(*c, info@, *p, p.ty@));
        let none: Vec<(String, Type)> = Vec::new();
        assert(entries(none@) =~= seq![]);
        match self.check_accessor(&get, &p.getter, none, w) {
            Ok(_) => {},
            Err(e) => return Err(e),
        }
        let set: Scope<'_> = Scope {
            class: info,
            in_instance: !p.is_static,
            return_ty: &unit,
            generics: &c.generic_params,
            throws: &throws,
            handled: &handled,
            is_async: false,
        };
        assert(set@ == accessor_scope(*c, info@, *p, Ty::Unit));
        let mut value: Vec<(String, Type)> = Vec::new();
        value.push((own("value"), p.ty.clone()));
        assert(entries(value@) =~= seq![("value"@, p.ty@)]);
        self.check_accessor(&set, &p.setter, value, w)
    }

    fn check_member(&self, c: &ClassDecl, info: &ClassInfo, m: &Member, w: &mut Progress) -> (r:
        Result<(), String>)
        ensures
            (done(r), final(w)@) == member_checked(self@, *c, info@, *m, old(w)@),
    {
        match m {
            Member::Method(d) => self.check_method_body(c, info, d, w),
            Member::Field(f) => {
                w.leave();
                self.validate_type_with_generics(&f.ty, &c.generic_params)
            },
            Member::Property(p) => {
                w.leave();
                self.check_property(c, info, p, w)
            },
        }
    }

    fn check_members(&self, c: &ClassDecl, info: &ClassInfo, w: &mut Progress) -> (r: Result<
        (),
        String,
    >)
        ensures
            (done(r), final(w)@) == members_checked(self@, *c, info@, 0, old(w)@),
    {
        let ghost want = members_checked(self@, *c, info@, 0, w@);
        let mut i: usize = 0;
        while i < c.members.len()
            invariant
                i <= c.members@.len(),
                want == members_checked(self@, *c, info@, 0, old(w)@),
                want == members_checked(self@, *c, info@, i as int, w@),
            decreases c.members.len() - i,
        {
            match self.check_member(c, info, &c.members[i], w) {
                Ok(_) => {},
                Err(e) => return Err(e),
            }
            i = i + 1;
        }
        Ok(())
    }

    fn check_class_rules(&self, c: &ClassDecl, info: &ClassInfo) -> (r: Result<(), String>)
        ensures
            done(r) == class_ok(self@.classes, *c, info@),
    {
        match self.check_all_modifiers(c, info) {
            Ok(_) => {},
            Err(e) => return Err(e),
        }
        match self.check_all_final_kept(c, info) {
            Ok(_) => {},
            Err(e) => return Err(e),
        }
        self.check_concrete(info)
    }

    /// Check a class.
    pub fn check_class(&self, c: &ClassDecl, w: &mut Progress) -> (r: Result<(), String>)
        ensures
            (done(r), final(w)@) == class_checked(self@, *c, old(w)@),
    {
        let info: &ClassInfo = match find(&self.classes, c.name.as_str()) {
            Some(i) => i,
            None => return Ok(()),
        };
        w.leave();
        match self.check_class_rules(c, info) {
            Ok(_) => {},
            Err(e) => return Err(e),
        }
        match self.check_constructors(c, info, &mut w.state) {
            Ok(_) => {},
            Err(e) => return Err(e),
        }
        self.check_members(c, info, w)
    }
}

// ---------------------------------------------------------------------------
// Programs
// ---------------------------------------------------------------------------

/// Checking the classes among the declarations from `i` on. An error in one
/// class does not hide errors in the next.
pub open spec fn classes_checked(t: TableModel, ds: Seq<Decl>, i: int, w: Walked) -> Walked
    decreases ds.len() - i,
{
    if i < 0 || i >= ds.len() {
        w
    } else {
        match ds[i] {
            Decl::Class(c) => {
                let r = class_checked(t, c, w);
                match r.0 {
                    Ok(_) => classes_checked(t, ds, i + 1, r.1),
                    Err(e) => classes_checked(t, ds, i + 1, recorded(r.1, e)),
                }
            },
            _ => classes_checked(t, ds, i + 1, w),
        }
    }
}

/// Nothing is known yet.
pub open spec fn at_start() -> Walked {
    Walked {
        status: Status { narrowed: seq![], line: 0 },
        context: seq![],
        errors: seq![],
    }
}

/// Tables with what is built in.
pub open spec fn injected(t: TableModel) -> TableModel {
    TableModel {
        classes: with_builtins(t.classes, t.builtins, t.builtins.len() as int),
        ..t
    }
}

/// The tables of a program that has no errors, or all errors, one in a line.
pub open spec fn program_checked(t: TableModel, ds: Seq<Decl>) -> Result<TableModel, Seq<char>> {
    match gathered(injected(t), ds) {
        Err(e) => Err(e),
        Ok(full) => {
            let w = classes_checked(full, ds, 0, at_start());
            if w.errors.len() == 0 {
                Ok(full)
            } else {
                Err(joined(w.errors, "\n"@))
            }
        },
    }
}

/// Type checker state.
pub struct TypeChecker {
    /// What is declared.
    pub tables: Tables,
}

/// The tables of a checker that has seen nothing.
pub open spec fn fresh(i: Intrinsics) -> TableModel {
    TableModel {
        classes: seq![],
        enums: seq![],
        newtypes: seq![],
        extensions: seq![],
        builtins: views(i.classes@),
        string_methods: entries(i.string_methods@),
        string_properties: entries(i.string_properties@),
    }
}

impl TypeChecker {
    /// Create a new type checker that knows what is built in.
    pub fn new(intrinsics: Intrinsics) -> (r: Self)
        ensures
            r.tables@ == fresh(intrinsics),
    {
        let tables: Tables = Tables {
            classes: Vec::new(),
            enums: Vec::new(),
            newtypes: Vec::new(),
            extensions: Vec::new(),
            intrinsics,
        };
        assert(tables@ =~= fresh(intrinsics));
        TypeChecker { tables }
    }

    fn check_classes(&self, ds: &Vec<Decl>, w: &mut Progress)
        ensures
            final(w)@ == classes_checked(self.tables@, ds@, 0, old(w)@),
    {
        let ghost want = classes_checked(self.tables@, ds@, 0, w@);
        let mut i: usize = 0;
        while i < ds.len()
            invariant
                i <= ds@.len(),
                want == classes_checked(self.tables@, ds@, 0, old(w)@),
                want == classes_checked(self.tables@, ds@, i as int, w@),
            decreases ds.len() - i,
        {
            if let Decl::Class(c) = &ds[i] {
                match self.tables.check_class(c, w) {
                    Ok(_) => {},
                    Err(e) => w.record_error(e),
                }
            }
            i = i + 1;
        }
    }

    /// Type-check a program and return a typed view. Reports every
    /// collected diagnostic (newline-separated) when any method failed.
    pub fn check(self, program: Program) -> (r: Result<TypedProgram, TypeError>)
        ensures
            match r {
                Ok(p) => {
                    &&& p.program == program
                    &&& program_checked(self.tables@, program.decls@) matches Ok(t) && {
                        &&& entries(p.classes@) == t.classes
                        &&& entries(p.enums@) == t.enums
                        &&& entries(p.newtypes@) == t.newtypes
                        &&& entries(p.extensions@) == t.extensions
                    }
                },
                Err(e) => program_checked(self.tables@, program.decls@) == Err::<
                    TableModel,
                    Seq<char>,
                >((e.0)@),
            },
    {
        let mut me: TypeChecker = self;
        me.tables.inject_intrinsics();
        match me.tables.gather_decls(&program.decls) {
            Ok(_) => {},
            Err(e) => return Err(TypeError(e)),
        }
        let mut w: Progress = Progress {
            state: State { narrowed: Vec::new(), line: 0 },
            context: String::new(),
            errors: Vec::new(),
        };
        assert(w@ =~= at_start()) by {
            assert(entries(w.state.narrowed@) =~= seq![]);
            assert(texts(w.errors@) =~= seq![]);
        }
        me.check_classes(&program.decls, &mut w);
        assert(w@.errors.len() == w.errors@.len());
        if w.errors.len() != 0 {
            return Err(TypeError(join(&w.errors, "\n")));
        }
        let tables: Tables = me.tables;
        Ok(
            TypedProgram {
                program,
                classes: tables.classes,
                enums: tables.enums,
                newtypes: tables.newtypes,
                extensions: tables.extensions,
            },
        )
    }
}

/// The number of errors stays under the limit.
pub proof fn errors_bounded(t: TableModel, ds: Seq<Decl>, i: int, w: Walked)
    requires
        w.errors.len() <= ERROR_LIMIT,
    ensures
        classes_checked(t, ds, i, w).errors.len() <= ERROR_LIMIT,
    decreases ds.len() - i,
{
    if 0 <= i < ds.len() {
        match ds[i] {
            Decl::Class(c) => {
                let r = class_checked(t, c, w);
                if let Some(info) = lookup(t.classes, c.name@) {
                    let k = constructors_ok(t, c, info, outside(w).status);
                    let next = Walked { status: k.1, ..outside(w) };
                    members_bounded(t, c, info, 0, next);
                }
                match r.0 {
                    Ok(_) => errors_bounded(t, ds, i + 1, r.1),
                    Err(e) => errors_bounded(t, ds, i + 1, recorded(r.1, e)),
                }
            },
            _ => errors_bounded(t, ds, i + 1, w),
        }
    }
}

proof fn members_bounded(t: TableModel, c: ClassDecl, info: ClassModel, i: int, w: Walked)
    requires
        w.errors.len() <= ERROR_LIMIT,
    ensures
        members_checked(t, c, info, i, w).1.errors.len() <= ERROR_LIMIT,
    decreases c.members@.len() - i,
{
    if 0 <= i < c.members@.len() {
        members_bounded(t, c, info, i + 1, member_checked(t, c, info, c.members@[i], w).1);
    }
}

} // verus!
