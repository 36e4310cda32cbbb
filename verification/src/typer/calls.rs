//! Which method a call reaches, and the type of its result.

use crate::text::{cat2, cat3, cat5, cat6, cat7, cat8, dec, dec_u64, own};
use crate::typer::assign::{
    bound_of, conflict_of, flows, rule_of, unified, unify_generic_types, Bound, JoinRule,
};
use crate::typer::ast::{
    clone_tys, join, joined, texts, ty_name, ty_names, type_names, tys, GenericParam, ParamModel,
    Ty, Type, views, Visibility,
};
use crate::typer::exprs::{super_of, unknown_class};
use crate::typer::hierarchy::{
    found, ints, method_found, method_names, static_method, supers,
};
use crate::typer::info::{
    BuiltinMethod, ClassInfo, ClassModel, ConstructorInfo, ExtensionSet, MethodInfo, MethodModel,
    TableModel, Tables,
};
use crate::typer::keyed::{entries, find, insert, lookup, put};
use crate::typer::rules::{
    accessible, bound_error, constructible, denied, deny, find_param, mismatch, not_constructible,
    param_named, some_alternative, valid_all, valid_args, Around, Scope,
};
use crate::typer::suggest::{suggest, suggestion};
use crate::typer::types::{
    build_subst, mentions, outcome, resolve_literal, resolved, subst_all, subst_of, subst_ty,
    substitute_all, substitute_type, type_mentions,
};
use vstd::prelude::*;

verus! {

// ---------------------------------------------------------------------------
// Callees
// ---------------------------------------------------------------------------

/// The method that a call reaches.
#[derive(Debug)]
pub struct Callee {
    /// How the method is called in messages.
    pub label: String,
    /// The method.
    pub method: MethodInfo,
    /// What the receiver's type arguments stand for.
    pub subst: Vec<(String, Type)>,
}

/// The method that a call reaches, by value.
pub ghost struct Reached {
    /// How the method is called in messages.
    pub label: Seq<char>,
    /// The method.
    pub method: MethodModel,
    /// What the receiver's type arguments stand for.
    pub subst: Seq<(Seq<char>, Ty)>,
}

impl View for Callee {
    type V = Reached;

    open spec fn view(&self) -> Reached {
        Reached { label: self.label@, method: self.method@, subst: entries(self.subst@) }
    }
}

/// A resolved call by value.
pub open spec fn reached(r: Result<Callee, String>) -> Result<Reached, Seq<char>> {
    match r {
        Ok(c) => Ok(c@),
        Err(e) => Err(e@),
    }
}

/// A method without its first parameter.
pub open spec fn trimmed(m: MethodModel) -> MethodModel {
    MethodModel {
        params: if m.params.len() == 0 {
            m.params
        } else {
            m.params.subrange(1, m.params.len() as int)
        },
        ..m
    }
}

/// The extension method that a target has under a name, if there is one.
pub open spec fn extension_at(t: TableModel, key: Seq<char>, method: Seq<char>) -> Option<
    Result<Reached, Seq<char>>,
> {
    match lookup(t.extensions, key) {
        None => None,
        Some(set) => match lookup(set, method) {
            None => None,
            Some(ext) => {
                let found = match lookup(t.classes, ext) {
                    Some(c) => lookup(c.static_methods, method),
                    None => None,
                };
                match found {
                    None => Some(
                        Err("extension class `"@ + ext + "` lost method `"@ + method + "`"@),
                    ),
                    Some(m) => Some(
                        Ok(
                            Reached {
                                label: ext + "."@ + method,
                                method: trimmed(m),
                                subst: seq![],
                            },
                        ),
                    ),
                }
            },
        },
    }
}

/// The first extension method along a chain of classes, from `i` on.
pub open spec fn extension_along(t: TableModel, ps: Seq<int>, i: int, method: Seq<char>) -> Option<
    Result<Reached, Seq<char>>,
>
    decreases ps.len() - i,
{
    if i < 0 || i >= ps.len() {
        None
    } else {
        match extension_at(t, t.classes[ps[i]].0, method) {
            Some(r) => Some(r),
            None => extension_along(t, ps, i + 1, method),
        }
    }
}

/// The method names of a class, own and inherited.
pub open spec fn all_method_names(t: TableModel, class: Seq<char>, is_static: bool) -> Seq<
    Seq<char>,
> {
    method_names(
        t.classes,
        supers(t.classes, class),
        supers(t.classes, class).len() as int,
        is_static,
    )
}

/// The method that a call on an object of a known class reaches: a method of
/// the class or of a base, else an extension method of the class or of a super
/// class.
pub open spec fn instance_callee(
    t: TableModel,
    sc: Around,
    class: Seq<char>,
    args: Seq<Ty>,
    method: Seq<char>,
) -> Result<Reached, Seq<char>> {
    match lookup(t.classes, class) {
        None => Err("unknown class `"@ + class + "`"@),
        Some(c) => match method_found(t.classes, class, method) {
            Some((d, m)) => if accessible(t.classes, sc.class.name, d, m.visibility) {
                Ok(
                    Reached {
                        label: d + "."@ + method,
                        method: m,
                        subst: subst_of(c.generics, args),
                    },
                )
            } else {
                Err(denied("method"@, method, d, m.visibility))
            },
            None => match extension_along(t, supers(t.classes, class), 0, method) {
                Some(r) => r,
                None => Err(
                    "unknown method `"@ + method + "` on `"@ + class + "`"@ + suggestion(
                        all_method_names(t, class, false),
                        method,
                    ),
                ),
            },
        },
    }
}

/// The static method that a call reaches.
pub open spec fn static_callee(
    t: TableModel,
    sc: Around,
    class: Seq<char>,
    method: Seq<char>,
    suggests: bool,
) -> Result<Reached, Seq<char>> {
    match static_method(t.classes, class, method) {
        Some((d, m)) => if accessible(t.classes, sc.class.name, d, m.visibility) {
            Ok(Reached { label: d + "."@ + method, method: m, subst: seq![] })
        } else {
            Err(denied("static method"@, method, d, m.visibility))
        },
        None => Err(
            "unknown static method `"@ + method + "` on `"@ + class + "`"@ + (if suggests {
                suggestion(all_method_names(t, class, true), method)
            } else {
                ""@
            }),
        ),
    }
}

/// A built-in string method as a method.
pub open spec fn string_method_model(m: BuiltinMethod) -> MethodModel {
    MethodModel {
        name: m.name,
        generics: seq![],
        return_ty: m.return_ty,
        params: m.params,
        is_instance: true,
        visibility: Visibility::Public,
        is_virtual: false,
        is_override: false,
        is_abstract: false,
        is_final: true,
        throws: seq![],
        is_async: false,
    }
}

/// The method that a call on a string reaches.
pub open spec fn string_callee(t: TableModel, method: Seq<char>) -> Result<Reached, Seq<char>> {
    match lookup(t.string_methods, method) {
        Some(m) => Ok(
            Reached { label: method, method: string_method_model(m), subst: seq![] },
        ),
        None => match extension_at(t, "string"@, method) {
            Some(r) => r,
            None => Err("unknown method `"@ + method + "` on `string`"@),
        },
    }
}

/// The first bound from `i` on that declares a method.
pub open spec fn bound_with(t: TableModel, bounds: Seq<Ty>, i: int, method: Seq<char>) -> Option<
    (Seq<char>, Seq<Ty>),
>
    decreases bounds.len() - i,
{
    if i < 0 || i >= bounds.len() {
        None
    } else {
        match bounds[i] {
            Ty::Class(n, args) => if method_found(t.classes, n, method) is Some {
                Some((n, args))
            } else {
                bound_with(t, bounds, i + 1, method)
            },
            _ => bound_with(t, bounds, i + 1, method),
        }
    }
}

/// The class of a receiver, with its type arguments. A receiver typed as a
/// generic parameter exposes the members of its bounds.
pub open spec fn receiver(t: TableModel, sc: Around, ty: Ty, method: Seq<char>) -> Result<
    (Seq<char>, Seq<Ty>),
    Seq<char>,
> {
    match ty {
        Ty::Class(name, args) => if args.len() == 0 && param_named(sc.generics, name) is Some {
            let p = param_named(sc.generics, name)->0;
            match bound_with(t, p.bounds, 0, method) {
                Some(b) => Ok(b),
                None => Err(
                    "cannot call `"@ + method + "` on type parameter `"@ + name
                        + "`: no bound declares it (bounds: "@ + (if p.bounds.len() == 0 {
                        "none"@
                    } else {
                        joined(ty_names(p.bounds), ", "@)
                    }) + ")"@,
                ),
            }
        } else {
            Ok((name, args))
        },
        Ty::Nullable(_) => Err(
            "receiver of `"@ + method + "` may be null (type "@ + ty_name(ty)
                + "): narrow with an `if` check, or use `?.` / `!`"@,
        ),
        _ => Err("cannot call method on non-class type "@ + ty_name(ty)),
    }
}

/// The method of the super class that `super.m(..)` reaches.
pub open spec fn super_callee(t: TableModel, sc: Around, method: Seq<char>, n: nat) -> Result<
    MethodModel,
    Seq<char>,
> {
    match super_of(sc) {
        Err(e) => Err(e),
        Ok(s) => match method_found(t.classes, s, method) {
            None => Err("unknown method `"@ + method + "` on super class `"@ + s + "`"@),
            Some((_, m)) => if !m.is_instance {
                Err(
                    "`super."@ + method + "` is a static method; use `"@ + s + "."@ + method
                        + "`"@,
                )
            } else if m.is_abstract {
                Err("cannot call abstract method `"@ + s + "."@ + method + "` via `super`"@)
            } else if n != m.params.len() {
                Err(
                    "method `"@ + method + "` expects "@ + dec(m.params.len()) + " arguments, got "@
                        + dec(n),
                )
            } else {
                Ok(m)
            },
        },
    }
}

fn trim(m: &MethodInfo) -> (r: MethodInfo)
    ensures
        r@ == trimmed(m@),
{
    let mut out: MethodInfo = m.clone();
    let ghost before = out@;
    assert(tys(out.params@).len() == out.params@.len());
    if out.params.len() > 0 {
        let ghost ps = out.params@;
        let _ = out.params.remove(0);
        assert(tys(out.params@) =~= tys(ps).subrange(1, ps.len() as int));
    }
    assert(out@ =~= trimmed(m@));
    out
}

fn no_subst() -> (r: Vec<(String, Type)>)
    ensures
        entries(r@) == Seq::<(Seq<char>, Ty)>::empty(),
{
    let v: Vec<(String, Type)> = Vec::new();
    assert(entries(v@) =~= Seq::<(Seq<char>, Ty)>::empty());
    v
}

/// An optional resolved call by value.
pub open spec fn opt_reached(r: Option<Result<Callee, String>>) -> Option<
    Result<Reached, Seq<char>>,
> {
    match r {
        Some(x) => Some(reached(x)),
        None => None,
    }
}

impl Tables {
    fn find_extension(&self, key: &str, method: &str) -> (r: Option<Result<Callee, String>>)
        ensures
            opt_reached(r) == extension_at(self@, key@, method@),
    {
        let set: &ExtensionSet = match find(&self.extensions, key) {
            Some(s) => s,
            None => return None,
        };
        let ext: &String = match find(&set.methods, method) {
            Some(e) => e,
            None => return None,
        };
        if let Some(c) = find(&self.classes, ext.as_str()) {
            if let Some(m) = find(&c.static_methods, method) {
                return Some(
                    Ok(
                        Callee {
                            label: cat3(ext.as_str(), ".", method),
                            method: trim(m),
                            subst: no_subst(),
                        },
                    ),
                );
            }
        }
        Some(Err(cat5("extension class `", ext.as_str(), "` lost method `", method, "`")))
    }

    fn find_extension_along(&self, class_name: &str, method: &str) -> (r: Option<
        Result<Callee, String>,
    >)
        ensures
            opt_reached(r) == extension_along(
                self@,
                supers(self@.classes, class_name@),
                0,
                method@,
            ),
    {
        let ps: Vec<usize> = self.super_chain(class_name);
        let mut i: usize = 0;
        while i < ps.len()
            invariant
                i <= ps@.len(),
                forall|j: int| 0 <= j < ps@.len() ==> (#[trigger] ps@[j]) < self.classes@.len(),
                ints(ps@) == supers(self@.classes, class_name@),
                extension_along(self@, ints(ps@), 0, method@) == extension_along(
                    self@,
                    ints(ps@),
                    i as int,
                    method@,
                ),
            decreases ps.len() - i,
        {
            let r: Option<Result<Callee, String>> = self.find_extension(
                self.classes[ps[i]].0.as_str(),
                method,
            );
            if r.is_some() {
                return r;
            }
            i = i + 1;
        }
        None
    }

    /// The method that a call on an object of class `class_name` reaches. A
    /// real method always wins over an extension method.
    pub fn find_instance_callee(
        &self,
        sc: &Scope<'_>,
        class_name: &str,
        type_args: &Vec<Type>,
        method: &str,
    ) -> (r: Result<Callee, String>)
        ensures
            reached(r) == instance_callee(self@, sc@, class_name@, tys(type_args@), method@),
    {
        let class: &ClassInfo = match find(&self.classes, class_name) {
            Some(c) => c,
            None => return Err(unknown_class(class_name)),
        };
        if let Some((d, m)) = self.find_method(class_name, method) {
            if !self.can_access(sc.class.name.as_str(), d, m.visibility) {
                return Err(deny("method", method, d, m.visibility));
            }
            return Ok(
                Callee {
                    label: cat3(d, ".", method),
                    method: m.clone(),
                    subst: build_subst(&class.generic_params, type_args),
                },
            );
        }
        match self.find_extension_along(class_name, method) {
            Some(r) => r,
            None => {
                let s: String = suggest(&self.method_candidates(class_name, false), method);
                Err(cat6("unknown method `", method, "` on `", class_name, "`", s.as_str()))
            },
        }
    }

    /// The static method that a call reaches.
    pub fn find_static_callee(
        &self,
        sc: &Scope<'_>,
        class_name: &str,
        method: &str,
        suggests: bool,
    ) -> (r: Result<Callee, String>)
        ensures
            reached(r) == static_callee(self@, sc@, class_name@, method@, suggests),
    {
        match self.find_static_method(class_name, method) {
            Some((d, m)) => {
                if !self.can_access(sc.class.name.as_str(), d, m.visibility) {
                    return Err(deny("static method", method, d, m.visibility));
                }
                Ok(Callee { label: cat3(d, ".", method), method: m.clone(), subst: no_subst() })
            },
            None => {
                let s: String = if suggests {
                    suggest(&self.method_candidates(class_name, true), method)
                } else {
                    own("")
                };
                Err(
                    cat6(
                        "unknown static method `",
                        method,
                        "` on `",
                        class_name,
                        "`",
                        s.as_str(),
                    ),
                )
            },
        }
    }

    /// The method that a call on a string reaches.
    pub fn find_string_callee(&self, method: &str) -> (r: Result<Callee, String>)
        ensures
            reached(r) == string_callee(self@, method@),
    {
        if let Some(im) = find(&self.intrinsics.string_methods, method) {
            let info: MethodInfo = MethodInfo {
                name: im.name.clone(),
                generic_params: Vec::new(),
                return_ty: im.return_ty.clone(),
                params: clone_tys(&im.params),
                is_instance: true,
                visibility: Visibility::Public,
                is_virtual: false,
                is_override: false,
                is_abstract: false,
                is_final: true,
                throws: Vec::new(),
                is_async: false,
            };
            assert(info@ =~= string_method_model(im@));
            return Ok(Callee { label: own(method), method: info, subst: no_subst() });
        }
        match self.find_extension("string", method) {
            Some(r) => r,
            None => Err(cat3("unknown method `", method, "` on `string`")),
        }
    }

    fn find_bound_with<'a>(&self, bounds: &'a Vec<Type>, method: &str) -> (r: Option<
        (&'a String, &'a Vec<Type>),
    >)
        ensures
            match r {
                Some((n, args)) => bound_with(self@, tys(bounds@), 0, method@) == Some(
                    (n@, tys(args@)),
                ),
                None => bound_with(self@, tys(bounds@), 0, method@) is None,
            },
    {
        let mut i: usize = 0;
        while i < bounds.len()
            invariant
                i <= bounds@.len(),
                bound_with(self@, tys(bounds@), 0, method@) == bound_with(
                    self@,
                    tys(bounds@),
                    i as int,
                    method@,
                ),
            decreases bounds.len() - i,
        {
            assert(tys(bounds@)[i as int] == bounds@[i as int]@);
            if let Type::Class(n, args) = &bounds[i] {
                if self.find_method(n.as_str(), method).is_some() {
                    return Some((n, args));
                }
            }
            i = i + 1;
        }
        None
    }

    /// The class of a receiver, with its type arguments. Bounded polymorphism:
    /// a receiver typed as a generic parameter exposes its constraint's members
    /// (`static <T : Sized> ... x.Size()`); unconstrained parameters have no
    /// callable members. With several bounds, the first one declaring the
    /// method answers the call.
    pub fn find_receiver(&self, sc: &Scope<'_>, ty: &Type, method: &str) -> (r: Result<
        (String, Vec<Type>),
        String,
    >)
        ensures
            match r {
                Ok((n, args)) => receiver(self@, sc@, ty@, method@) == Ok::<
                    (Seq<char>, Seq<Ty>),
                    Seq<char>,
                >((n@, tys(args@))),
                Err(e) => receiver(self@, sc@, ty@, method@) == Err::<
                    (Seq<char>, Seq<Ty>),
                    Seq<char>,
                >(e@),
            },
    {
        match ty {
            Type::Class(name, args) => {
                assert(tys(args@).len() == args@.len());
                if args.len() == 0 {
                    if let Some(gp) = find_param(sc.generics, name.as_str()) {
                        return match self.find_bound_with(&gp.bounds, method) {
                            Some((n, bargs)) => Ok((n.clone(), clone_tys(bargs))),
                            None => {
                                assert(tys(gp.bounds@).len() == gp.bounds@.len());
                                let shown: String = if gp.bounds.len() == 0 {
                                    own("none")
                                } else {
                                    join(&type_names(&gp.bounds), ", ")
                                };
                                Err(
                                    cat7(
                                        "cannot call `",
                                        method,
                                        "` on type parameter `",
                                        name.as_str(),
                                        "`: no bound declares it (bounds: ",
                                        shown.as_str(),
                                        ")",
                                    ),
                                )
                            },
                        };
                    }
                }
                Ok((name.clone(), clone_tys(args)))
            },
            Type::Nullable(_) => {
                let shown: String = ty.name();
                Err(
                    cat5(
                        "receiver of `",
                        method,
                        "` may be null (type ",
                        shown.as_str(),
                        "): narrow with an `if` check, or use `?.` / `!`",
                    ),
                )
            },
            _ => {
                let shown: String = ty.name();
                Err(cat2("cannot call method on non-class type ", shown.as_str()))
            },
        }
    }

    /// The method of the super class that `super.m(..)` reaches.
    pub fn find_super_callee<'a>(&'a self, sc: &Scope<'_>, method: &str, n: usize) -> (r: Result<
        &'a MethodInfo,
        String,
    >)
        ensures
            match r {
                Ok(m) => super_callee(self@, sc@, method@, n as nat) == Ok::<
                    MethodModel,
                    Seq<char>,
                >(m@),
                Err(e) => super_callee(self@, sc@, method@, n as nat) == Err::<
                    MethodModel,
                    Seq<char>,
                >(e@),
            },
    {
        let s: &str = match self.super_class_of(sc) {
            Ok(s) => s,
            Err(e) => return Err(e),
        };
        match self.find_method(s, method) {
            None => Err(cat5("unknown method `", method, "` on super class `", s, "`")),
            Some((_, m)) => {
                if !m.is_instance {
                    return Err(
                        cat7(
                            "`super.",
                            method,
                            "` is a static method; use `",
                            s,
                            ".",
                            method,
                            "`",
                        ),
                    );
                }
                if m.is_abstract {
                    return Err(
                        cat5("cannot call abstract method `", s, ".", method, "` via `super`"),
                    );
                }
                assert(tys(m.params@).len() == m.params@.len());
                if n != m.params.len() {
                    let want: String = dec_u64(m.params.len() as u64);
                    let got: String = dec_u64(n as u64);
                    return Err(
                        cat6(
                            "method `",
                            method,
                            "` expects ",
                            want.as_str(),
                            " arguments, got ",
                            got.as_str(),
                        ),
                    );
                }
                Ok(m)
            },
        }
    }
}

// ---------------------------------------------------------------------------
// Results of calls
// ---------------------------------------------------------------------------

/// The names of type parameters.
pub open spec fn param_names(ps: Seq<ParamModel>) -> Seq<Seq<char>> {
    Seq::new(ps.len(), |i: int| ps[i].name)
}

/// The names of type parameters.
pub fn names_of(ps: &Vec<GenericParam>) -> (r: Vec<String>)
    ensures
        texts(r@) == param_names(views(ps@)),
{
    let mut out: Vec<String> = Vec::new();
    let mut i: usize = 0;
    while i < ps.len()
        invariant
            i <= ps@.len(),
            out@.len() == i,
            forall|j: int| 0 <= j < i ==> (#[trigger] out@[j])@ == ps@[j].name@,
        decreases ps.len() - i,
    {
        out.push(ps[i].name.clone());
        i = i + 1;
    }
    assert(texts(out@) =~= param_names(views(ps@)));
    out
}

/// What the first `n` arguments bind: each parameter type, after the
/// substitution, is unified with the type of its argument.
pub open spec fn args_bound(
    params: Seq<Ty>,
    s: Seq<(Seq<char>, Ty)>,
    args: Seq<Ty>,
    n: int,
    vars: Seq<Seq<char>>,
    rule: Option<TableModel>,
) -> Bound
    decreases n,
{
    if n <= 0 {
        Bound { bindings: seq![], conflict: None }
    } else {
        unified(
            subst_ty(params[n - 1], s),
            resolved(args[n - 1]),
            vars,
            args_bound(params, s, args, n - 1, vars, rule),
            rule,
        )
    }
}

/// What is wrong with the type that was inferred for a type parameter.
pub open spec fn inferred_error(t: TableModel, p: ParamModel, bound: Ty, method: Seq<char>) -> Option<
    Seq<char>,
> {
    if bound_error(t, p.bounds, bound, 0) is Some {
        Some(
            "inferred type "@ + ty_name(bound) + " for `"@ + p.name + "` in `"@ + method
                + "` does not satisfy constraint "@ + ty_name(
                bound_error(t, p.bounds, bound, 0)->0,
            ),
        )
    } else if p.alternatives.len() > 0 && !some_alternative(t, p.alternatives, bound) {
        Some(
            "inferred type "@ + ty_name(bound) + " for `"@ + p.name + "` in `"@ + method
                + "` must be one of "@ + joined(ty_names(p.alternatives), " | "@),
        )
    } else if p.requires_new && !constructible(t, bound) {
        Some(not_constructible(bound, p.name, method))
    } else {
        None
    }
}

/// The substitution with the type parameters from `i` on bound.
pub open spec fn params_bound(
    t: TableModel,
    ps: Seq<ParamModel>,
    i: int,
    bindings: Seq<(Seq<char>, Ty)>,
    s: Seq<(Seq<char>, Ty)>,
    method: Seq<char>,
) -> Result<Seq<(Seq<char>, Ty)>, Seq<char>>
    decreases ps.len() - i,
{
    if i < 0 || i >= ps.len() {
        Ok(s)
    } else {
        match lookup(bindings, ps[i].name) {
            None => Err(
                "cannot infer `"@ + ps[i].name + "` in `"@ + method + "` from the arguments"@,
            ),
            Some(bound) => match inferred_error(t, ps[i], bound, method) {
                Some(e) => Err(e),
                None => params_bound(
                    t,
                    ps,
                    i + 1,
                    bindings,
                    put(s, ps[i].name, bound),
                    method,
                ),
            },
        }
    }
}

/// The substitution under which a method is called: the type parameters of the
/// method are inferred from the arguments.
pub open spec fn call_subst(
    t: TableModel,
    method: Seq<char>,
    m: MethodModel,
    s: Seq<(Seq<char>, Ty)>,
    args: Seq<Ty>,
) -> Result<Seq<(Seq<char>, Ty)>, Seq<char>> {
    if m.generics.len() == 0 {
        Ok(s)
    } else {
        let b = args_bound(
            m.params,
            s,
            args,
            args.len() as int,
            param_names(m.generics),
            Some(t),
        );
        match b.conflict {
            Some((n, x, y)) => Err(
                "cannot infer `"@ + n + "` in `"@ + method + "`: conflicting argument types "@
                    + ty_name(x) + " and "@ + ty_name(y),
            ),
            None => params_bound(t, m.generics, 0, b.bindings, s, method),
        }
    }
}

/// The arguments from `i` on fit the parameters.
pub open spec fn args_fit(
    t: TableModel,
    method: Seq<char>,
    params: Seq<Ty>,
    s: Seq<(Seq<char>, Ty)>,
    args: Seq<Ty>,
    i: int,
) -> Result<(), Seq<char>>
    decreases args.len() - i,
{
    if i < 0 || i >= args.len() || i >= params.len() {
        Ok(())
    } else {
        let expected = subst_ty(params[i], s);
        if flows(t, expected, args[i]) {
            args_fit(t, method, params, s, args, i + 1)
        } else {
            Err(
                mismatch(
                    t,
                    "argument type mismatch in `"@ + method + "`: expected "@ + ty_name(expected)
                        + ", got "@ + ty_name(args[i]),
                    expected,
                    args[i],
                ),
            )
        }
    }
}

/// The type of a call with arguments of these types.
pub open spec fn call_ty(
    t: TableModel,
    method: Seq<char>,
    m: MethodModel,
    s: Seq<(Seq<char>, Ty)>,
    args: Seq<Ty>,
) -> Result<Ty, Seq<char>> {
    match call_subst(t, method, m, s, args) {
        Err(e) => Err(e),
        Ok(s2) => match args_fit(t, method, m.params, s2, args, 0) {
            Err(e) => Err(e),
            Ok(_) => Ok(subst_ty(m.return_ty, s2)),
        },
    }
}

fn clone_subst(v: &Vec<(String, Type)>) -> (r: Vec<(String, Type)>)
    ensures
        entries(r@) == entries(v@),
{
    crate::typer::flow::clone_locals(v)
}

impl Tables {
    fn find_inferred_error(&self, p: &GenericParam, bound: &Type, method: &str) -> (r: Option<
        String,
    >)
        ensures
            crate::typer::assign::opt_str(r) == inferred_error(self@, p@, bound@, method@),
    {
        let shown: String = bound.name();
        if let Some(c) = self.find_bound_error(&p.bounds, bound) {
            let cn: String = c.name();
            return Some(
                cat8(
                    "inferred type ",
                    shown.as_str(),
                    " for `",
                    p.name.as_str(),
                    "` in `",
                    method,
                    "` does not satisfy constraint ",
                    cn.as_str(),
                ),
            );
        }
        assert(tys(p.alternatives@).len() == p.alternatives@.len());
        if p.alternatives.len() > 0 && !self.has_alternative(&p.alternatives, bound) {
            let alts: String = join(&type_names(&p.alternatives), " | ");
            return Some(
                cat8(
                    "inferred type ",
                    shown.as_str(),
                    " for `",
                    p.name.as_str(),
                    "` in `",
                    method,
                    "` must be one of ",
                    alts.as_str(),
                ),
            );
        }
        if p.requires_new {
            match self.require_default_constructible(bound, p.name.as_str(), method) {
                Ok(_) => {},
                Err(e) => {
                    return Some(e);
                },
            }
        }
        None
    }

    fn find_call_subst(
        &self,
        method: &str,
        m: &MethodInfo,
        subst: &Vec<(String, Type)>,
        args: &Vec<Type>,
    ) -> (r: Result<Vec<(String, Type)>, String>)
        requires
            args@.len() == m.params@.len(),
        ensures
            match r {
                Ok(s) => call_subst(self@, method@, m@, entries(subst@), tys(args@)) == Ok::<
                    Seq<(Seq<char>, Ty)>,
                    Seq<char>,
                >(entries(s@)),
                Err(e) => call_subst(self@, method@, m@, entries(subst@), tys(args@)) == Err::<
                    Seq<(Seq<char>, Ty)>,
                    Seq<char>,
                >(e@),
            },
    {
        if m.generic_params.len() == 0 {
            return Ok(clone_subst(subst));
        }
        let vars: Vec<String> = names_of(&m.generic_params);
        let mut bindings: Vec<(String, Type)> = no_subst();
        let mut conflict: Option<(String, Type, Type)> = None;
        let rule: JoinRule<'_> = JoinRule::Widen(self);
        let ghost s = entries(subst@);
        assert(tys(args@).len() == args@.len());
        let mut i: usize = 0;
        while i < args.len()
            invariant
                i <= args@.len(),
                args@.len() == m.params@.len(),
                s == entries(subst@),
                texts(vars@) == param_names(m@.generics),
                rule_of(rule) == Some(self@),
                bound_of(bindings@, conflict) == args_bound(
                    m@.params,
                    s,
                    tys(args@),
                    i as int,
                    param_names(m@.generics),
                    Some(self@),
                ),
            decreases args.len() - i,
        {
            assert(tys(args@)[i as int] == args@[i as int]@);
            assert(m@.params[i as int] == m.params@[i as int]@);
            let p: Type = substitute_type(&m.params[i], subst);
            let a: Type = resolve_literal(&args[i]);
            unify_generic_types(&p, &a, &vars, &mut bindings, &mut conflict, &rule);
            i = i + 1;
        }
        if let Some((n, x, y)) = &conflict {
            let xs: String = x.name();
            let ys: String = y.name();
            return Err(
                cat8(
                    "cannot infer `",
                    n.as_str(),
                    "` in `",
                    method,
                    "`: conflicting argument types ",
                    xs.as_str(),
                    " and ",
                    ys.as_str(),
                ),
            );
        }
        let mut out: Vec<(String, Type)> = clone_subst(subst);
        let ghost b = entries(bindings@);
        let ghost want = params_bound(self@, m@.generics, 0, b, s, method@);
        let mut k: usize = 0;
        while k < m.generic_params.len()
            invariant
                k <= m.generic_params@.len(),
                b == entries(bindings@),
                call_subst(self@, method@, m@, entries(subst@), tys(args@)) == want,
                want == params_bound(
                    self@,
                    m@.generics,
                    k as int,
                    b,
                    entries(out@),
                    method@,
                ),
            decreases m.generic_params.len() - k,
        {
            let gp: &GenericParam = &m.generic_params[k];
            assert(m@.generics[k as int] == gp@);
            let bound: &Type = match find(&bindings, gp.name.as_str()) {
                Some(t) => t,
                None => {
                    return Err(
                        cat5(
                            "cannot infer `",
                            gp.name.as_str(),
                            "` in `",
                            method,
                            "` from the arguments",
                        ),
                    );
                },
            };
            if let Some(e) = self.find_inferred_error(gp, bound, method) {
                return Err(e);
            }
            insert(&mut out, gp.name.as_str(), bound.clone());
            k = k + 1;
        }
        Ok(out)
    }

    /// The type of a call with arguments of these types. Method-level generics
    /// are inferred from the arguments by unifying each declared parameter type
    /// (after the receiver's class-level substitution) against the argument's
    /// type. When one variable is bound by several arguments, the bindings join
    /// through assignability — the more general type wins — and irreconcilable
    /// bindings are an error.
    pub fn call_type(
        &self,
        method: &str,
        m: &MethodInfo,
        subst: &Vec<(String, Type)>,
        args: &Vec<Type>,
    ) -> (r: Result<Type, String>)
        requires
            args@.len() == m.params@.len(),
        ensures
            outcome(r) == call_ty(self@, method@, m@, entries(subst@), tys(args@)),
    {
        let s: Vec<(String, Type)> = match self.find_call_subst(method, m, subst, args) {
            Ok(s) => s,
            Err(e) => return Err(e),
        };
        let ghost want = args_fit(self@, method@, m@.params, entries(s@), tys(args@), 0);
        let mut i: usize = 0;
        while i < args.len()
            invariant
                i <= args@.len(),
                args@.len() == m.params@.len(),
                call_subst(self@, method@, m@, entries(subst@), tys(args@)) == Ok::<
                    Seq<(Seq<char>, Ty)>,
                    Seq<char>,
                >(entries(s@)),
                want == args_fit(self@, method@, m@.params, entries(s@), tys(args@), 0),
                want == args_fit(self@, method@, m@.params, entries(s@), tys(args@), i as int),
            decreases args.len() - i,
        {
            assert(tys(args@)[i as int] == args@[i as int]@);
            assert(m@.params[i as int] == m.params@[i as int]@);
            let expected: Type = substitute_type(&m.params[i], &s);
            if !self.is_assignable(&expected, &args[i]) {
                let x: String = expected.name();
                let y: String = args[i].name();
                let base: String = cat6(
                    "argument type mismatch in `",
                    method,
                    "`: expected ",
                    x.as_str(),
                    ", got ",
                    y.as_str(),
                );
                return Err(self.mismatch_error(base, &expected, &args[i]));
            }
            i = i + 1;
        }
        Ok(substitute_type(&m.return_ty, &s))
    }
}

// ---------------------------------------------------------------------------
// Lambda arguments
// ---------------------------------------------------------------------------

/// What the first `n` arguments that are no lambdas bind, the first binding of
/// a variable counting.
pub open spec fn known_bound(
    params: Seq<Ty>,
    s: Seq<(Seq<char>, Ty)>,
    slots: Seq<Option<Ty>>,
    n: int,
    vars: Seq<Seq<char>>,
) -> Bound
    decreases n,
{
    if n <= 0 {
        Bound { bindings: seq![], conflict: None }
    } else {
        let before = known_bound(params, s, slots, n - 1, vars);
        match slots[n - 1] {
            Some(ty) => unified(subst_ty(params[n - 1], s), resolved(ty), vars, before, None),
            None => before,
        }
    }
}

/// A list with the first `n` entries of another put in.
pub open spec fn put_all(
    s: Seq<(Seq<char>, Ty)>,
    more: Seq<(Seq<char>, Ty)>,
    n: int,
) -> Seq<(Seq<char>, Ty)>
    decreases n,
{
    if n <= 0 {
        s
    } else {
        put(put_all(s, more, n - 1), more[n - 1].0, more[n - 1].1)
    }
}

/// An argument is still to be typed.
pub open spec fn has_gap(slots: Seq<Option<Ty>>) -> bool {
    exists|i: int| 0 <= i < slots.len() && (#[trigger] slots[i]) is None
}

/// The substitution under which lambda arguments are typed: the type parameters
/// that the other arguments bind are known.
pub open spec fn lambda_subst(m: MethodModel, s: Seq<(Seq<char>, Ty)>, slots: Seq<Option<Ty>>) -> Seq<
    (Seq<char>, Ty),
> {
    if m.generics.len() > 0 && has_gap(slots) {
        let b = known_bound(m.params, s, slots, slots.len() as int, param_names(m.generics));
        put_all(s, b.bindings, b.bindings.len() as int)
    } else {
        s
    }
}

/// Some type of the list mentions some variable.
pub open spec fn mentions_var(ts: Seq<Ty>, vars: Seq<Seq<char>>) -> bool {
    exists|i: int, j: int|
        0 <= i < ts.len() && 0 <= j < vars.len() && mentions(#[trigger] ts[i], #[trigger] vars[j])
}

/// The parameter types of the lambda that a parameter of this type takes are
/// resolved.
pub open spec fn lambda_resolved(ty: Ty, vars: Seq<Seq<char>>) -> bool {
    ty matches Ty::Func(ps, _) && !mentions_var(ps, vars)
}

/// Optional types by value.
pub open spec fn slots_of(s: Seq<Option<Type>>) -> Seq<Option<Ty>> {
    Seq::new(
        s.len(),
        |i: int|
            match s[i] {
                Some(t) => Some(t@),
                None => None,
            },
    )
}

/// Whether some type of the list mentions some variable.
pub fn any_mentions_var(ts: &Vec<Type>, vars: &Vec<String>) -> (r: bool)
    ensures
        r == mentions_var(tys(ts@), texts(vars@)),
{
    let mut i: usize = 0;
    while i < ts.len()
        invariant
            i <= ts@.len(),
            forall|x: int, j: int|
                0 <= x < i && 0 <= j < vars@.len() ==> !mentions(
                    #[trigger] tys(ts@)[x],
                    #[trigger] texts(vars@)[j],
                ),
        decreases ts.len() - i,
    {
        let mut j: usize = 0;
        while j < vars.len()
            invariant
                j <= vars@.len(),
                i < ts@.len(),
                forall|y: int|
                    0 <= y < j ==> !mentions(tys(ts@)[i as int], #[trigger] texts(vars@)[y]),
            decreases vars.len() - j,
        {
            if type_mentions(&ts[i], vars[j].as_str()) {
                assert(mentions(tys(ts@)[i as int], texts(vars@)[j as int]));
                return true;
            }
            j = j + 1;
        }
        i = i + 1;
    }
    false
}

/// Whether the parameter types of a lambda are resolved.
pub fn is_lambda_resolved(ty: &Type, vars: &Vec<String>) -> (r: bool)
    ensures
        r == lambda_resolved(ty@, texts(vars@)),
{
    match ty {
        Type::Func(ps, _) => !any_mentions_var(ps, vars),
        _ => false,
    }
}

/// The substitution under which lambda arguments are typed.
pub fn find_lambda_subst(
    m: &MethodInfo,
    subst: &Vec<(String, Type)>,
    slots: &Vec<Option<Type>>,
) -> (r: Vec<(String, Type)>)
    requires
        slots@.len() == m.params@.len(),
    ensures
        entries(r@) == lambda_subst(m@, entries(subst@), slots_of(slots@)),
{
    let mut out: Vec<(String, Type)> = clone_subst(subst);
    let ghost ss = slots_of(slots@);
    let mut gap: bool = false;
    let mut i: usize = 0;
    while i < slots.len()
        invariant
            i <= slots@.len(),
            ss == slots_of(slots@),
            gap == (exists|j: int| 0 <= j < i && (#[trigger] ss[j]) is None),
        decreases slots.len() - i,
    {
        assert(ss[i as int] is None <==> slots@[i as int] is None);
        if slots[i].is_none() {
            gap = true;
        }
        i = i + 1;
    }
    if m.generic_params.len() == 0 || !gap {
        return out;
    }
    let vars: Vec<String> = names_of(&m.generic_params);
    let mut bindings: Vec<(String, Type)> = no_subst();
    let mut conflict: Option<(String, Type, Type)> = None;
    let rule: JoinRule<'_> = JoinRule::KeepFirst;
    let ghost s = entries(subst@);
    let mut k: usize = 0;
    while k < slots.len()
        invariant
            k <= slots@.len(),
            slots@.len() == m.params@.len(),
            ss == slots_of(slots@),
            s == entries(subst@),
            texts(vars@) == param_names(m@.generics),
            rule_of(rule) is None,
            bound_of(bindings@, conflict) == known_bound(
                m@.params,
                s,
                ss,
                k as int,
                param_names(m@.generics),
            ),
        decreases slots.len() - k,
    {
        assert(m@.params[k as int] == m.params@[k as int]@);
        if let Some(ty) = &slots[k] {
            assert(ss[k as int] == Some(ty@));
            let p: Type = substitute_type(&m.params[k], subst);
            let a: Type = resolve_literal(ty);
            unify_generic_types(&p, &a, &vars, &mut bindings, &mut conflict, &rule);
        }
        k = k + 1;
    }
    let ghost b = entries(bindings@);
    let mut q: usize = 0;
    while q < bindings.len()
        invariant
            q <= bindings@.len(),
            b == entries(bindings@),
            entries(out@) == put_all(s, b, q as int),
        decreases bindings.len() - q,
    {
        insert(&mut out, bindings[q].0.as_str(), bindings[q].1.clone());
        q = q + 1;
    }
    out
}

// ---------------------------------------------------------------------------
// Construction
// ---------------------------------------------------------------------------

/// The class that `new` constructs.
pub open spec fn new_class(t: TableModel, sc: Around, class: Seq<char>) -> Result<
    ClassModel,
    Seq<char>,
> {
    match lookup(t.classes, class) {
        None => if param_named(sc.generics, class) is Some {
            Err(
                "cannot construct type parameter `"@ + class
                    + "`: generics are erased at runtime, so `new "@ + class
                    + "()` is not supported yet (`new()` constraints are enforced at call sites)"@,
            )
        } else {
            Err("unknown class `"@ + class + "`"@)
        },
        Some(c) => if c.is_static {
            Err("cannot instantiate static class `"@ + class + "`"@)
        } else if c.is_interface {
            Err("cannot instantiate "@ + "interface"@ + " `"@ + class + "`"@)
        } else if c.is_abstract {
            Err("cannot instantiate "@ + "abstract class"@ + " `"@ + class + "`"@)
        } else {
            Ok(c)
        },
    }
}

/// The first `n` type parameters are bound.
pub open spec fn all_bound(ps: Seq<ParamModel>, b: Seq<(Seq<char>, Ty)>) -> bool {
    forall|i: int| 0 <= i < ps.len() ==> lookup(b, (#[trigger] ps[i]).name) is Some
}

/// What the type parameters are bound to.
pub open spec fn bound_args(ps: Seq<ParamModel>, b: Seq<(Seq<char>, Ty)>) -> Seq<Ty> {
    Seq::new(ps.len(), |i: int| lookup(b, ps[i].name)->0)
}

/// The type arguments that the constructors from `i` on give: the first of
/// matching arity whose parameters unify with the arguments and bind every
/// parameter wins; `last` is the last conflict before.
pub open spec fn new_args(
    t: TableModel,
    c: ClassModel,
    class: Seq<char>,
    args: Seq<Ty>,
    i: int,
    last: Option<(Seq<char>, Ty, Ty)>,
) -> Result<Seq<Ty>, Seq<char>>
    decreases c.constructors.len() - i,
{
    if i < 0 || i >= c.constructors.len() {
        match last {
            Some((n, x, y)) => Err(
                "cannot infer `"@ + n + "` for `new "@ + class
                    + "(...)`: conflicting argument types "@ + ty_name(x) + " and "@ + ty_name(y),
            ),
            None => Err(
                "cannot infer type arguments for `"@ + class
                    + "` from this constructor call; write `new "@ + class + "<...>(...)` explicitly"@,
            ),
        }
    } else {
        let params = c.constructors[i];
        if params.len() != args.len() {
            new_args(t, c, class, args, i + 1, last)
        } else {
            let b = args_bound(
                params,
                seq![],
                args,
                args.len() as int,
                param_names(c.generics),
                Some(t),
            );
            if b.conflict is Some {
                new_args(t, c, class, args, i + 1, b.conflict)
            } else if all_bound(c.generics, b.bindings) {
                Ok(bound_args(c.generics, b.bindings))
            } else {
                new_args(t, c, class, args, i + 1, last)
            }
        }
    }
}

/// A constructor takes arguments of these types.
pub open spec fn takes(t: TableModel, params: Seq<Ty>, s: Seq<(Seq<char>, Ty)>, args: Seq<Ty>) -> bool {
    params.len() == args.len() && forall|i: int|
        0 <= i < args.len() ==> flows(t, subst_ty(#[trigger] params[i], s), args[i])
}

/// Some constructor takes arguments of these types.
pub open spec fn some_takes(
    t: TableModel,
    cs: Seq<Seq<Ty>>,
    s: Seq<(Seq<char>, Ty)>,
    args: Seq<Ty>,
) -> bool {
    exists|i: int| 0 <= i < cs.len() && takes(t, #[trigger] cs[i], s, args)
}

/// The signatures of constructors.
pub open spec fn constructor_texts(cs: Seq<Seq<Ty>>, s: Seq<(Seq<char>, Ty)>) -> Seq<Seq<char>> {
    Seq::new(
        cs.len(),
        |i: int| "("@ + joined(ty_names(subst_all(cs[i], s)), ", "@) + ")"@,
    )
}

/// The type that `new` gives for arguments of these types.
pub open spec fn new_ty(
    t: TableModel,
    sc: Around,
    c: ClassModel,
    class: Seq<char>,
    written: Seq<Ty>,
    args: Seq<Ty>,
) -> Result<Ty, Seq<char>> {
    let chosen = if written.len() == 0 && c.generics.len() > 0 {
        new_args(t, c, class, args, 0, None)
    } else {
        Ok(written)
    };
    match chosen {
        Err(e) => Err(e),
        Ok(targs) => match valid_args(t, class, targs, sc.generics) {
            Err(e) => Err(e),
            Ok(_) => match valid_all(t, targs, 0, sc.generics) {
                Err(e) => Err(e),
                Ok(_) => {
                    let s = subst_of(c.generics, targs);
                    if some_takes(t, c.constructors, s, args) {
                        Ok(Ty::Class(class, targs))
                    } else {
                        Err(
                            "no constructor of `"@ + class + "` matches arguments ("@ + joined(
                                ty_names(args),
                                ", "@,
                            ) + ")"@ + (if c.constructors.len() == 0 {
                                ""@
                            } else {
                                "; available: "@ + joined(
                                    constructor_texts(c.constructors, s),
                                    ", "@,
                                )
                            }),
                        )
                    }
                },
            },
        },
    }
}

impl Tables {
    /// The class that `new` constructs.
    pub fn find_new_class<'a>(&'a self, sc: &Scope<'_>, class_name: &str) -> (r: Result<
        &'a ClassInfo,
        String,
    >)
        ensures
            match r {
                Ok(c) => new_class(self@, sc@, class_name@) == Ok::<ClassModel, Seq<char>>(c@),
                Err(e) => new_class(self@, sc@, class_name@) == Err::<ClassModel, Seq<char>>(e@),
            },
    {
        let c: &ClassInfo = match find(&self.classes, class_name) {
            Some(c) => c,
            None => {
                if find_param(sc.generics, class_name).is_some() {
                    return Err(
                        cat5(
                            "cannot construct type parameter `",
                            class_name,
                            "`: generics are erased at runtime, so `new ",
                            class_name,
                            "()` is not supported yet (`new()` constraints are enforced at call sites)",
                        ),
                    );
                }
                return Err(unknown_class(class_name));
            },
        };
        if c.is_static {
            return Err(cat3("cannot instantiate static class `", class_name, "`"));
        }
        if c.is_interface {
            return Err(cat5("cannot instantiate ", "interface", " `", class_name, "`"));
        }
        if c.is_abstract {
            return Err(cat5("cannot instantiate ", "abstract class", " `", class_name, "`"));
        }
        Ok(c)
    }

    /// Infer a generic class's type arguments from a constructor call with
    /// none written (`new Box(42)` -> `Box<int>`): the first constructor of
    /// matching arity whose parameters unify against the argument types and
    /// bind every parameter wins. Bindings from several arguments join
    /// through assignability, exactly like generic-method inference.
    #[verifier::rlimit(30)]
    fn infer_new_type_args(&self, c: &ClassInfo, class_name: &str, args: &Vec<Type>) -> (r: Result<
        Vec<Type>,
        String,
    >)
        ensures
            match r {
                Ok(ts) => new_args(self@, c@, class_name@, tys(args@), 0, None) == Ok::<
                    Seq<Ty>,
                    Seq<char>,
                >(tys(ts@)),
                Err(e) => new_args(self@, c@, class_name@, tys(args@), 0, None) == Err::<
                    Seq<Ty>,
                    Seq<char>,
                >(e@),
            },
    {
        let vars: Vec<String> = names_of(&c.generic_params);
        let mut last: Option<(String, Type, Type)> = None;
        let rule: JoinRule<'_> = JoinRule::Widen(self);
        let none: Vec<(String, Type)> = no_subst();
        let ghost want = new_args(self@, c@, class_name@, tys(args@), 0, None);
        assert(tys(args@).len() == args@.len());
        let mut k: usize = 0;
        while k < c.constructors.len()
            invariant
                k <= c.constructors@.len(),
                tys(args@).len() == args@.len(),
                texts(vars@) == param_names(c@.generics),
                rule_of(rule) == Some(self@),
                entries(none@) == Seq::<(Seq<char>, Ty)>::empty(),
                want == new_args(self@, c@, class_name@, tys(args@), 0, None),
                want == new_args(
                    self@,
                    c@,
                    class_name@,
                    tys(args@),
                    k as int,
                    conflict_of(last),
                ),
            decreases c.constructors.len() - k,
        {
            let ctor: &ConstructorInfo = &c.constructors[k];
            assert(c@.constructors[k as int] == tys(ctor.params@));
            assert(tys(ctor.params@).len() == ctor.params@.len());
            if ctor.params.len() == args.len() {
                let mut bindings: Vec<(String, Type)> = no_subst();
                let mut conflict: Option<(String, Type, Type)> = None;
                let mut i: usize = 0;
                while i < args.len()
                    invariant
                        i <= args@.len(),
                        args@.len() == ctor.params@.len(),
                        texts(vars@) == param_names(c@.generics),
                        rule_of(rule) == Some(self@),
                        entries(none@) == Seq::<(Seq<char>, Ty)>::empty(),
                        bound_of(bindings@, conflict) == args_bound(
                            tys(ctor.params@),
                            seq![],
                            tys(args@),
                            i as int,
                            param_names(c@.generics),
                            Some(self@),
                        ),
                    decreases args.len() - i,
                {
                    assert(tys(args@)[i as int] == args@[i as int]@);
                    assert(tys(ctor.params@)[i as int] == ctor.params@[i as int]@);
                    let p: Type = substitute_type(&ctor.params[i], &none);
                    let a: Type = resolve_literal(&args[i]);
                    unify_generic_types(&p, &a, &vars, &mut bindings, &mut conflict, &rule);
                    i = i + 1;
                }
                if conflict.is_some() {
                    last = conflict;
                } else {
                    let ghost b = entries(bindings@);
                    let mut all: Vec<Type> = Vec::new();
                    let mut g: usize = 0;
                    let mut whole: bool = true;
                    while g < c.generic_params.len()
                        invariant
                            g <= c.generic_params@.len(),
                            b == entries(bindings@),
                            whole ==> all@.len() == g,
                            whole ==> forall|j: int|
                                0 <= j < g ==> lookup(b, (#[trigger] c@.generics[j]).name) is Some
                                    && all@[j]@ == lookup(b, c@.generics[j].name)->0,
                            !whole ==> exists|j: int|
                                0 <= j < c@.generics.len() && lookup(
                                    b,
                                    (#[trigger] c@.generics[j]).name,
                                ) is None,
                        decreases c.generic_params.len() - g,
                    {
                        assert(c@.generics[g as int].name == c.generic_params@[g as int].name@);
                        match find(&bindings, c.generic_params[g].name.as_str()) {
                            Some(t) => {
                                if whole {
                                    all.push(t.clone());
                                }
                            },
                            None => {
                                whole = false;
                            },
                        }
                        g = g + 1;
                    }
                    if whole {
                        assert(all_bound(c@.generics, b));
                        assert(tys(all@) =~= bound_args(c@.generics, b));
                        return Ok(all);
                    }
                    assert(!all_bound(c@.generics, b));
                }
            }
            k = k + 1;
        }
        match &last {
            Some((n, x, y)) => {
                let xs: String = x.name();
                let ys: String = y.name();
                Err(
                    cat8(
                        "cannot infer `",
                        n.as_str(),
                        "` for `new ",
                        class_name,
                        "(...)`: conflicting argument types ",
                        xs.as_str(),
                        " and ",
                        ys.as_str(),
                    ),
                )
            },
            None => Err(
                cat5(
                    "cannot infer type arguments for `",
                    class_name,
                    "` from this constructor call; write `new ",
                    class_name,
                    "<...>(...)` explicitly",
                ),
            ),
        }
    }

    /// Whether parameters of these types take arguments of those.
    pub fn params_take(
        &self,
        params: &Vec<Type>,
        subst: &Vec<(String, Type)>,
        args: &Vec<Type>,
    ) -> (r: bool)
        ensures
            r == takes(self@, tys(params@), entries(subst@), tys(args@)),
    {
        assert(tys(params@).len() == params@.len());
        assert(tys(args@).len() == args@.len());
        if params.len() != args.len() {
            return false;
        }
        let mut i: usize = 0;
        while i < args.len()
            invariant
                i <= args@.len(),
                params@.len() == args@.len(),
                forall|j: int|
                    0 <= j < i ==> flows(
                        self@,
                        subst_ty(#[trigger] tys(params@)[j], entries(subst@)),
                        tys(args@)[j],
                    ),
            decreases args.len() - i,
        {
            assert(tys(args@)[i as int] == args@[i as int]@);
            assert(tys(params@)[i as int] == params@[i as int]@);
            let expected: Type = substitute_type(&params[i], subst);
            if !self.is_assignable(&expected, &args[i]) {
                return false;
            }
            i = i + 1;
        }
        true
    }

    /// Whether some constructor takes arguments of these types.
    pub fn constructors_take(
        &self,
        cs: &Vec<ConstructorInfo>,
        subst: &Vec<(String, Type)>,
        args: &Vec<Type>,
    ) -> (r: bool)
        ensures
            r == some_takes(self@, views(cs@), entries(subst@), tys(args@)),
    {
        let mut i: usize = 0;
        while i < cs.len()
            invariant
                i <= cs@.len(),
                forall|j: int|
                    0 <= j < i ==> !takes(
                        self@,
                        #[trigger] views(cs@)[j],
                        entries(subst@),
                        tys(args@),
                    ),
            decreases cs.len() - i,
        {
            assert(views(cs@)[i as int] == tys(cs@[i as int].params@));
            if self.params_take(&cs[i].params, subst, args) {
                return true;
            }
            i = i + 1;
        }
        false
    }

    /// The type that `new` gives for arguments of these types.
    pub fn new_type(
        &self,
        sc: &Scope<'_>,
        c: &ClassInfo,
        class_name: &str,
        written: &Vec<Type>,
        args: &Vec<Type>,
    ) -> (r: Result<Type, String>)
        ensures
            outcome(r) == new_ty(self@, sc@, c@, class_name@, tys(written@), tys(args@)),
    {
        assert(tys(written@).len() == written@.len());
        let targs: Vec<Type> = if written.len() == 0 && c.generic_params.len() > 0 {
            match self.infer_new_type_args(c, class_name, args) {
                Ok(ts) => ts,
                Err(e) => return Err(e),
            }
        } else {
            clone_tys(written)
        };
        match self.validate_type_args(class_name, &targs, sc.generics) {
            Ok(_) => {},
            Err(e) => return Err(e),
        }
        match self.validate_types(&targs, sc.generics) {
            Ok(_) => {},
            Err(e) => return Err(e),
        }
        let subst: Vec<(String, Type)> = build_subst(&c.generic_params, &targs);
        if self.constructors_take(&c.constructors, &subst, args) {
            return Ok(Type::Class(own(class_name), targs));
        }
        let shown: String = join(&type_names(args), ", ");
        let more: String = if c.constructors.len() == 0 {
            own("")
        } else {
            let mut sigs: Vec<String> = Vec::new();
            let mut i: usize = 0;
            let ghost s = entries(subst@);
            while i < c.constructors.len()
                invariant
                    i <= c.constructors@.len(),
                    s == entries(subst@),
                    sigs@.len() == i,
                    forall|j: int|
                        0 <= j < i ==> (#[trigger] sigs@[j])@ == constructor_texts(
                            c@.constructors,
                            s,
                        )[j],
                decreases c.constructors.len() - i,
            {
                assert(c@.constructors[i as int] == tys(c.constructors@[i as int].params@));
                let ps: Vec<Type> = substitute_all(&c.constructors[i].params, &subst);
                let inner: String = join(&type_names(&ps), ", ");
                sigs.push(cat3("(", inner.as_str(), ")"));
                i = i + 1;
            }
            assert(texts(sigs@) =~= constructor_texts(c@.constructors, s));
            let list: String = join(&sigs, ", ");
            cat2("; available: ", list.as_str())
        };
        Err(
            cat6(
                "no constructor of `",
                class_name,
                "` matches arguments (",
                shown.as_str(),
                ")",
                more.as_str(),
            ),
        )
    }
}

} // verus!
