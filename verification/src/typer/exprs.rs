//! The types of expressions, given the types of their parts.

use crate::text::{cat2, cat3, cat4, cat5, cat6, cat8, cat9, dec, dec_u64, own, same};
use crate::typer::assign::{builtin, flows};
use crate::typer::ast::{
    clone_tys, has_text, same_type, texts, ty_name, tys, BinOp, GenericParam, ParamModel, Ty, Type,
    views,
};
use crate::typer::hierarchy::{
    field_names, instance_field, instance_property, push_keys, static_field, static_property,
    subclass, supers,
};
use crate::typer::info::{
    ClassInfo, EnumInfo, EnumModel, TableModel, Tables, VariantInfo, VariantModel,
};
use crate::typer::keyed::{entries, find, holds, insert, keys, lookup, put};
use crate::typer::rules::{
    accessible, denied, deny, find_param, mismatch, numeric_param, operator_types, opt_param,
    param_named, param_of, union_is_numeric, Around, Scope,
};
use crate::typer::suggest::{suggest, suggestion};
use crate::typer::types::{
    arithmetic, arithmetic_type, binop_symbol, binop_text, build_subst, is_numeric, numeric,
    outcome, resolve_literal, resolved, subst_of, subst_ty, substitute_type,
};
use vstd::prelude::*;

verus! {

// ---------------------------------------------------------------------------
// Names and members
// ---------------------------------------------------------------------------

/// A static field that is used by its bare name.
pub open spec fn bare_static_ty(
    t: TableModel,
    sc: Around,
    locals: Seq<(Seq<char>, Ty)>,
    name: Seq<char>,
) -> Result<Ty, Seq<char>> {
    match static_field(t.classes, sc.class.name, name) {
        Some((d, (ty, v))) => if accessible(t.classes, sc.class.name, d, v) {
            Ok(ty)
        } else {
            Err(denied("static field"@, name, d, v))
        },
        None => Err("unknown variable `"@ + name + "`"@ + suggestion(keys(locals), name)),
    }
}

/// The type of a name: `this`, a local, a field of the class.
pub open spec fn var_ty(
    t: TableModel,
    sc: Around,
    locals: Seq<(Seq<char>, Ty)>,
    name: Seq<char>,
) -> Result<Ty, Seq<char>> {
    if name == "this"@ {
        if sc.in_instance {
            Ok(Ty::Class(sc.class.name, seq![]))
        } else {
            Err("`this` in static method"@)
        }
    } else if name == "super"@ {
        Err("`super` must be used as `super.member`"@)
    } else if lookup(locals, name) is Some {
        Ok(lookup(locals, name)->0)
    } else if sc.in_instance {
        match instance_field(t.classes, sc.class.name, name) {
            Some((d, (ty, v))) => if accessible(t.classes, sc.class.name, d, v) {
                Ok(ty)
            } else {
                Err(denied("field"@, name, d, v))
            },
            None => bare_static_ty(t, sc, locals, name),
        }
    } else {
        bare_static_ty(t, sc, locals, name)
    }
}

/// A property is read or written.
pub open spec fn accessor_word(set: bool) -> Seq<char> {
    if set {
        "setter"@
    } else {
        "getter"@
    }
}

/// The field names of a class, own and inherited.
pub open spec fn all_field_names(t: TableModel, class: Seq<char>) -> Seq<Seq<char>> {
    field_names(t.classes, supers(t.classes, class), supers(t.classes, class).len() as int)
}

/// The type of a property or field of an object of class `class`.
pub open spec fn member_ty(
    t: TableModel,
    sc: Around,
    class: Seq<char>,
    args: Seq<Ty>,
    name: Seq<char>,
    set: bool,
) -> Result<Ty, Seq<char>> {
    match lookup(t.classes, class) {
        None => Err("unknown class `"@ + class + "`"@),
        Some(c) => match instance_property(t.classes, class, name) {
            Some((d, p)) => {
                let v = if set {
                    p.setter_visibility
                } else {
                    p.getter_visibility
                };
                if !(if set {
                    p.has_setter
                } else {
                    p.has_getter
                }) {
                    Err("property `"@ + name + "` on `"@ + d + "` has no "@ + accessor_word(set))
                } else if !accessible(t.classes, sc.class.name, d, v) {
                    Err(denied("property"@, name, d, v))
                } else {
                    Ok(subst_ty(p.ty, subst_of(c.generics, args)))
                }
            },
            None => match instance_field(t.classes, class, name) {
                None => Err(
                    "unknown field `"@ + name + "` on `"@ + class + "`"@ + suggestion(
                        all_field_names(t, class),
                        name,
                    ),
                ),
                Some((d, (ty, v))) => if accessible(t.classes, sc.class.name, d, v) {
                    Ok(subst_ty(ty, subst_of(c.generics, args)))
                } else {
                    Err(denied("field"@, name, d, v))
                },
            },
        },
    }
}

/// The type of a static property or field.
pub open spec fn static_member_ty(
    t: TableModel,
    sc: Around,
    class: Seq<char>,
    name: Seq<char>,
    set: bool,
) -> Result<Ty, Seq<char>> {
    if lookup(t.classes, class) is None {
        Err("unknown class `"@ + class + "`"@)
    } else {
        match static_property(t.classes, class, name) {
            Some((d, p)) => {
                let v = if set {
                    p.setter_visibility
                } else {
                    p.getter_visibility
                };
                if !(if set {
                    p.has_setter
                } else {
                    p.has_getter
                }) {
                    Err(
                        "static property `"@ + name + "` on `"@ + d + "` has no "@ + accessor_word(
                            set,
                        ),
                    )
                } else if !accessible(t.classes, sc.class.name, d, v) {
                    Err(denied("static property"@, name, d, v))
                } else {
                    Ok(p.ty)
                }
            },
            None => match static_field(t.classes, class, name) {
                None => Err("unknown static field `"@ + name + "` on `"@ + class + "`"@),
                Some((d, (ty, v))) => if accessible(t.classes, sc.class.name, d, v) {
                    Ok(ty)
                } else {
                    Err(denied("static field"@, name, d, v))
                },
            },
        }
    }
}

/// The super class of the class around.
pub open spec fn super_of(sc: Around) -> Result<Seq<char>, Seq<char>> {
    if !sc.in_instance {
        Err("`super` in static method"@)
    } else {
        match sc.class.super_class {
            Some(s) => Ok(s),
            None => Err("`"@ + sc.class.name + "` has no super class"@),
        }
    }
}

/// The type of a property or field of the super class.
pub open spec fn super_member_ty(t: TableModel, sc: Around, name: Seq<char>, set: bool) -> Result<
    Ty,
    Seq<char>,
> {
    match super_of(sc) {
        Err(e) => Err(e),
        Ok(s) => match instance_property(t.classes, s, name) {
            Some((d, p)) => {
                let v = if set {
                    p.setter_visibility
                } else {
                    p.getter_visibility
                };
                if !(if set {
                    p.has_setter
                } else {
                    p.has_getter
                }) {
                    Err(
                        "property `"@ + name + "` on super class `"@ + s + "` has no "@
                            + accessor_word(set),
                    )
                } else if !accessible(t.classes, sc.class.name, d, v) {
                    Err(denied("property"@, name, d, v))
                } else {
                    Ok(p.ty)
                }
            },
            None => match instance_field(t.classes, s, name) {
                None => Err("unknown field `"@ + name + "` on super class `"@ + s + "`"@),
                Some((d, (ty, v))) => if accessible(t.classes, sc.class.name, d, v) {
                    Ok(ty)
                } else {
                    Err(denied("field"@, name, d, v))
                },
            },
        },
    }
}

/// Values of these types are strings at runtime.
pub open spec fn stringlike(ty: Ty) -> bool {
    ty is String || ty is StringLit || ty is LiteralUnion
}

/// The type of `obj.name` where `obj` has type `obj_ty`.
pub open spec fn field_ty(t: TableModel, sc: Around, obj_ty: Ty, name: Seq<char>) -> Result<
    Ty,
    Seq<char>,
> {
    if stringlike(obj_ty) {
        match lookup(t.string_properties, name) {
            Some(p) => Ok(p),
            None => Err("unknown property `"@ + name + "` on `string`"@),
        }
    } else {
        match obj_ty {
            Ty::Newtype(n, u) => if name == "Value"@ {
                Ok(*u)
            } else {
                Err(
                    "unknown property `"@ + name + "` on newtype `"@ + n
                        + "` (only `Value` is available)"@,
                )
            },
            Ty::Class(c, args) => member_ty(t, sc, c, args, name, false),
            Ty::Nullable(_) => Err(
                "`"@ + name + "` may be null (type "@ + ty_name(obj_ty)
                    + "): narrow with an `if` check, or use `?.` / `!`"@,
            ),
            _ => Err("cannot access field `"@ + name + "` on non-class type "@ + ty_name(obj_ty)),
        }
    }
}

/// The type of the assignment target `obj.name` where `obj` has type `obj_ty`.
pub open spec fn field_target_ty(t: TableModel, sc: Around, obj_ty: Ty, name: Seq<char>) -> Result<
    Ty,
    Seq<char>,
> {
    match obj_ty {
        Ty::Class(c, args) => member_ty(t, sc, c, args, name, true),
        _ => Err("cannot assign field `"@ + name + "` on non-class type "@ + ty_name(obj_ty)),
    }
}

/// A type without `null`.
pub open spec fn without_null(ty: Ty) -> Ty {
    match ty {
        Ty::Nullable(u) => *u,
        _ => ty,
    }
}

/// A type with `null`.
pub open spec fn with_null(ty: Ty) -> Ty {
    match ty {
        Ty::Nullable(_) => ty,
        _ => Ty::Nullable(Box::new(ty)),
    }
}

/// The type of `obj?.name`.
pub open spec fn null_field_ty(t: TableModel, sc: Around, obj_ty: Ty, name: Seq<char>) -> Result<
    Ty,
    Seq<char>,
> {
    match without_null(obj_ty) {
        Ty::Class(class, _) => if lookup(t.classes, class) is None {
            Err("unknown class `"@ + class + "`"@)
        } else {
            match instance_field(t.classes, class, name) {
                None => Err(
                    "unknown field `"@ + name + "` on `"@ + class + "`"@ + suggestion(
                        all_field_names(t, class),
                        name,
                    ),
                ),
                Some((d, (ty, v))) => if accessible(t.classes, sc.class.name, d, v) {
                    Ok(with_null(ty))
                } else {
                    Err(denied("field"@, name, d, v))
                },
            }
        },
        u => Err("null conditional field access requires class type, got "@ + ty_name(u)),
    }
}

fn show_keys(locals: &Vec<(String, Type)>) -> (r: Vec<String>)
    ensures
        texts(r@) == keys(entries(locals@)),
{
    let mut out: Vec<String> = Vec::new();
    push_keys(&mut out, locals);
    assert(texts(out@) =~= keys(entries(locals@)));
    out
}

fn accessor_name(set: bool) -> (r: &'static str)
    ensures
        r@ == accessor_word(set),
{
    if set {
        "setter"
    } else {
        "getter"
    }
}

/// The message for a class that is not known.
pub fn unknown_class(name: &str) -> (r: String)
    ensures
        r@ == "unknown class `"@ + name@ + "`"@,
{
    cat3("unknown class `", name, "`")
}

/// A type with `null`.
pub fn nullable(ty: Type) -> (r: Type)
    ensures
        r@ == with_null(ty@),
{
    match ty {
        Type::Nullable(_) => ty,
        _ => Type::Nullable(Box::new(ty)),
    }
}

/// A type without `null`.
pub fn non_nullable(ty: Type) -> (r: Type)
    ensures
        r@ == without_null(ty@),
{
    match ty {
        Type::Nullable(t) => *t,
        _ => ty,
    }
}

/// Whether values of the type are strings at runtime.
pub fn is_stringlike(ty: &Type) -> (r: bool)
    ensures
        r == stringlike(ty@),
{
    matches!(ty, Type::String | Type::StringLit(_) | Type::LiteralUnion(_, _))
}

impl Tables {
    fn bare_static_type(&self, sc: &Scope<'_>, locals: &Vec<(String, Type)>, name: &str) -> (r: Result<
        Type,
        String,
    >)
        ensures
            outcome(r) == bare_static_ty(self@, sc@, entries(locals@), name@),
    {
        match self.find_static_field(sc.class.name.as_str(), name) {
            Some((d, ty, v)) => {
                if self.can_access(sc.class.name.as_str(), d, v) {
                    Ok(ty.clone())
                } else {
                    Err(deny("static field", name, d, v))
                }
            },
            None => {
                let s: String = suggest(&show_keys(locals), name);
                Err(cat4("unknown variable `", name, "`", s.as_str()))
            },
        }
    }

    /// The type of a name.
    pub fn var_type(&self, sc: &Scope<'_>, locals: &Vec<(String, Type)>, name: &str) -> (r: Result<
        Type,
        String,
    >)
        ensures
            outcome(r) == var_ty(self@, sc@, entries(locals@), name@),
    {
        if same(name, "this") {
            if sc.in_instance {
                let args: Vec<Type> = Vec::new();
                assert(tys(args@) =~= seq![]);
                return Ok(Type::Class(sc.class.name.clone(), args));
            }
            return Err(own("`this` in static method"));
        }
        if same(name, "super") {
            return Err(own("`super` must be used as `super.member`"));
        }
        if let Some(ty) = find(locals, name) {
            return Ok(ty.clone());
        }
        if sc.in_instance {
            if let Some((d, ty, v)) = self.find_instance_field(sc.class.name.as_str(), name) {
                if !self.can_access(sc.class.name.as_str(), d, v) {
                    return Err(deny("field", name, d, v));
                }
                return Ok(ty.clone());
            }
        }
        self.bare_static_type(sc, locals, name)
    }

    /// The type of a property or field of an object.
    pub fn member_type(
        &self,
        sc: &Scope<'_>,
        class_name: &str,
        type_args: &Vec<Type>,
        name: &str,
        set: bool,
    ) -> (r: Result<Type, String>)
        ensures
            outcome(r) == member_ty(self@, sc@, class_name@, tys(type_args@), name@, set),
    {
        let target: &ClassInfo = match find(&self.classes, class_name) {
            Some(c) => c,
            None => return Err(unknown_class(class_name)),
        };
        let subst: Vec<(String, Type)> = build_subst(&target.generic_params, type_args);
        if let Some((d, p)) = self.find_instance_property(class_name, name) {
            let v = if set {
                p.setter_visibility
            } else {
                p.getter_visibility
            };
            let there: bool = if set {
                p.has_setter
            } else {
                p.has_getter
            };
            if !there {
                return Err(
                    cat6("property `", name, "` on `", d, "` has no ", accessor_name(set)),
                );
            }
            if !self.can_access(sc.class.name.as_str(), d, v) {
                return Err(deny("property", name, d, v));
            }
            return Ok(substitute_type(&p.ty, &subst));
        }
        match self.find_instance_field(class_name, name) {
            None => {
                let s: String = suggest(&self.field_candidates(class_name), name);
                Err(cat6("unknown field `", name, "` on `", class_name, "`", s.as_str()))
            },
            Some((d, ty, v)) => {
                if self.can_access(sc.class.name.as_str(), d, v) {
                    Ok(substitute_type(ty, &subst))
                } else {
                    Err(deny("field", name, d, v))
                }
            },
        }
    }

    /// The type of a static property or field.
    pub fn static_member_type(&self, sc: &Scope<'_>, class_name: &str, name: &str, set: bool) -> (r:
        Result<Type, String>)
        ensures
            outcome(r) == static_member_ty(self@, sc@, class_name@, name@, set),
    {
        if !holds(&self.classes, class_name) {
            return Err(unknown_class(class_name));
        }
        if let Some((d, p)) = self.find_static_property(class_name, name) {
            let v = if set {
                p.setter_visibility
            } else {
                p.getter_visibility
            };
            let there: bool = if set {
                p.has_setter
            } else {
                p.has_getter
            };
            if !there {
                return Err(
                    cat6("static property `", name, "` on `", d, "` has no ", accessor_name(set)),
                );
            }
            if !self.can_access(sc.class.name.as_str(), d, v) {
                return Err(deny("static property", name, d, v));
            }
            return Ok(p.ty.clone());
        }
        match self.find_static_field(class_name, name) {
            None => Err(cat5("unknown static field `", name, "` on `", class_name, "`")),
            Some((d, ty, v)) => {
                if self.can_access(sc.class.name.as_str(), d, v) {
                    Ok(ty.clone())
                } else {
                    Err(deny("static field", name, d, v))
                }
            },
        }
    }

    /// Resolve the super class name for the current class, or error if none.
    pub fn super_class_of<'a>(&self, sc: &Scope<'a>) -> (r: Result<&'a str, String>)
        ensures
            match r {
                Ok(s) => super_of(sc@) == Ok::<Seq<char>, Seq<char>>(s@),
                Err(e) => super_of(sc@) == Err::<Seq<char>, Seq<char>>(e@),
            },
    {
        if !sc.in_instance {
            return Err(own("`super` in static method"));
        }
        match &sc.class.super_class {
            Some(s) => Ok(s.as_str()),
            None => Err(cat3("`", sc.class.name.as_str(), "` has no super class")),
        }
    }

    /// The type of a property or field of the super class.
    pub fn super_member_type(&self, sc: &Scope<'_>, name: &str, set: bool) -> (r: Result<
        Type,
        String,
    >)
        ensures
            outcome(r) == super_member_ty(self@, sc@, name@, set),
    {
        let super_name: &str = match self.super_class_of(sc) {
            Ok(s) => s,
            Err(e) => return Err(e),
        };
        if let Some((d, p)) = self.find_instance_property(super_name, name) {
            let v = if set {
                p.setter_visibility
            } else {
                p.getter_visibility
            };
            let there: bool = if set {
                p.has_setter
            } else {
                p.has_getter
            };
            if !there {
                return Err(
                    cat6(
                        "property `",
                        name,
                        "` on super class `",
                        super_name,
                        "` has no ",
                        accessor_name(set),
                    ),
                );
            }
            if !self.can_access(sc.class.name.as_str(), d, v) {
                return Err(deny("property", name, d, v));
            }
            return Ok(p.ty.clone());
        }
        match self.find_instance_field(super_name, name) {
            None => Err(cat5("unknown field `", name, "` on super class `", super_name, "`")),
            Some((d, ty, v)) => {
                if self.can_access(sc.class.name.as_str(), d, v) {
                    Ok(ty.clone())
                } else {
                    Err(deny("field", name, d, v))
                }
            },
        }
    }

    /// The type of a field of an object of the given type.
    pub fn field_type(&self, sc: &Scope<'_>, obj_ty: &Type, name: &str) -> (r: Result<Type, String>)
        ensures
            outcome(r) == field_ty(self@, sc@, obj_ty@, name@),
    {
        if is_stringlike(obj_ty) {
            return match find(&self.intrinsics.string_properties, name) {
                Some(p) => Ok(p.clone()),
                None => Err(cat3("unknown property `", name, "` on `string`")),
            };
        }
        let shown: String = obj_ty.name();
        match obj_ty {
            Type::Newtype(n, u) => {
                if same(name, "Value") {
                    Ok((&**u).clone())
                } else {
                    Err(
                        cat5(
                            "unknown property `",
                            name,
                            "` on newtype `",
                            n.as_str(),
                            "` (only `Value` is available)",
                        ),
                    )
                }
            },
            Type::Class(c, args) => self.member_type(sc, c.as_str(), args, name, false),
            Type::Nullable(_) => Err(
                cat5(
                    "`",
                    name,
                    "` may be null (type ",
                    shown.as_str(),
                    "): narrow with an `if` check, or use `?.` / `!`",
                ),
            ),
            _ => Err(
                cat4("cannot access field `", name, "` on non-class type ", shown.as_str()),
            ),
        }
    }

    /// The type of the assignment target that is a field of an object.
    pub fn field_target_type(&self, sc: &Scope<'_>, obj_ty: &Type, name: &str) -> (r: Result<
        Type,
        String,
    >)
        ensures
            outcome(r) == field_target_ty(self@, sc@, obj_ty@, name@),
    {
        match obj_ty {
            Type::Class(c, args) => self.member_type(sc, c.as_str(), args, name, true),
            _ => {
                let shown: String = obj_ty.name();
                Err(cat4("cannot assign field `", name, "` on non-class type ", shown.as_str()))
            },
        }
    }

    /// The type of a null conditional field access.
    pub fn null_field_type(&self, sc: &Scope<'_>, obj_ty: Type, name: &str) -> (r: Result<
        Type,
        String,
    >)
        ensures
            outcome(r) == null_field_ty(self@, sc@, obj_ty@, name@),
    {
        let inner: Type = non_nullable(obj_ty);
        match &inner {
            Type::Class(class_name, _) => {
                if !holds(&self.classes, class_name.as_str()) {
                    return Err(unknown_class(class_name.as_str()));
                }
                match self.find_instance_field(class_name.as_str(), name) {
                    None => {
                        let s: String = suggest(&self.field_candidates(class_name.as_str()), name);
                        Err(
                            cat6(
                                "unknown field `",
                                name,
                                "` on `",
                                class_name.as_str(),
                                "`",
                                s.as_str(),
                            ),
                        )
                    },
                    Some((d, ty, v)) => {
                        if self.can_access(sc.class.name.as_str(), d, v) {
                            Ok(nullable(ty.clone()))
                        } else {
                            Err(deny("field", name, d, v))
                        }
                    },
                }
            },
            _ => {
                let shown: String = inner.name();
                Err(
                    cat2(
                        "null conditional field access requires class type, got ",
                        shown.as_str(),
                    ),
                )
            },
        }
    }
}

// ---------------------------------------------------------------------------
// Tests and operators
// ---------------------------------------------------------------------------

/// The type of an `is` test of a value of type `subject` against `ty`.
pub open spec fn is_test_ty(t: TableModel, subject: Ty, ty: Ty) -> Result<Ty, Seq<char>> {
    match ty {
        Ty::Class(tested, args) => if args.len() > 0 {
            Err("`is` cannot test generic type arguments (they are erased at runtime)"@)
        } else if builtin(t.builtins, tested) {
            Err("`is` cannot test stdlib type `"@ + tested + "`"@)
        } else {
            match lookup(t.classes, tested) {
                None => Err("unknown class `"@ + tested + "`"@),
                Some(info) => match without_null(subject) {
                    Ty::Class(subj, _) => {
                        let subj_interface = lookup(t.classes, subj) matches Some(c)
                            && c.is_interface;
                        if !info.is_interface && !subj_interface && !subclass(
                            t.classes,
                            tested,
                            subj,
                        ) && !subclass(t.classes, subj, tested) {
                            Err(
                                "`is` test can never succeed: "@ + ty_name(subject) + " and "@
                                    + tested + " are unrelated classes"@,
                            )
                        } else {
                            Ok(Ty::Bool)
                        }
                    },
                    _ => Err("`is` requires a class-typed subject, got "@ + ty_name(subject)),
                },
            }
        },
        _ => Err("`is` requires a class or interface type, got "@ + ty_name(ty)),
    }
}

/// Two string types can be compared in this order.
pub open spec fn string_compat(a: Ty, b: Ty) -> bool {
    match (a, b) {
        (Ty::String, Ty::StringLit(_)) => true,
        (Ty::StringLit(_), Ty::StringLit(_)) => true,
        (Ty::String, Ty::LiteralUnion(_, _)) => true,
        (Ty::LiteralUnion(_, m), Ty::StringLit(v)) => m.contains(v),
        (Ty::LiteralUnion(_, x), Ty::LiteralUnion(_, y)) => exists|i: int|
            0 <= i < x.len() && y.contains(#[trigger] x[i]),
        _ => false,
    }
}

/// Two types are references to the type parameter `p`.
pub open spec fn same_param(t: TableModel, ty: Ty, ps: Seq<ParamModel>, p: ParamModel) -> bool {
    param_of(t, ty, ps) matches Some(q) && q.name == p.name
}

/// The right operand does not fit the overload.
pub open spec fn operand_misfit(t: TableModel, op: BinOp, lt: Ty, param: Ty, rt: Ty) -> Seq<char> {
    mismatch(
        t,
        "cannot apply `"@ + binop_text(op) + "`: right operand does not fit `"@ + ty_name(lt) + "`"@,
        param,
        rt,
    )
}

/// The left operand of an overload may be null.
pub open spec fn operand_null(op: BinOp, lt: Ty) -> Seq<char> {
    "left operand of `"@ + binop_text(op) + "` has type "@ + ty_name(lt)
        + " and may be null; narrow it (`!= null`, `!`) before using the operator overload"@
}

/// The type of a comparison whose operands, without `null`, are `l` and `r`,
/// where no overload applies.
pub open spec fn plain_comparison(
    t: TableModel,
    sc: Around,
    op: BinOp,
    lt: Ty,
    rt: Ty,
) -> Result<Ty, Seq<char>> {
    let (l, r) = (without_null(lt), without_null(rt));
    if op.orders() && param_of(t, l, sc.generics) is Some {
        let p = param_of(t, l, sc.generics)->0;
        if numeric_param(p) && same_param(t, r, sc.generics, p) {
            Ok(Ty::Bool)
        } else {
            Err(
                "cannot order type parameter `"@ + p.name + "` with `"@ + binop_text(op)
                    + "`: constrain it with a numeric union (`where "@ + p.name
                    + " : int | float`) and compare two `"@ + p.name + "` values"@,
            )
        }
    } else if op.orders() && (l matches Ty::Class(n, _) && lookup(t.classes, n) is Some) {
        Err(
            "class `"@ + l->Class_0 + "` does not define `operator"@ + binop_text(op)
                + "`; ordering comparisons on objects need an operator overload"@,
        )
    } else if (!numeric(l) || !numeric(r)) && l != r && !string_compat(l, r) && !string_compat(
        r,
        l,
    ) {
        Err("cannot compare "@ + ty_name(lt) + " and "@ + ty_name(rt))
    } else {
        Ok(Ty::Bool)
    }
}

/// The type of a comparison.
pub open spec fn comparison_ty(t: TableModel, sc: Around, op: BinOp, lt: Ty, rt: Ty) -> Result<
    Ty,
    Seq<char>,
> {
    if lt.is_null() || rt.is_null() {
        Ok(Ty::Bool)
    } else {
        match operator_types(t, op, lt) {
            Some((param, _)) => if flows(t, param, rt) {
                Ok(Ty::Bool)
            } else {
                Err(operand_misfit(t, op, lt, param, rt))
            },
            None => if lt is Nullable && operator_types(t, op, *lt->Nullable_0) is Some {
                Err(operand_null(op, lt))
            } else {
                plain_comparison(t, sc, op, lt, rt)
            },
        }
    }
}

/// The type of arithmetic.
pub open spec fn arithmetic_op_ty(t: TableModel, sc: Around, op: BinOp, lt: Ty, rt: Ty) -> Result<
    Ty,
    Seq<char>,
> {
    match operator_types(t, op, lt) {
        Some((param, ret)) => if flows(t, param, rt) {
            Ok(ret)
        } else {
            Err(operand_misfit(t, op, lt, param, rt))
        },
        None => if lt is Nullable && operator_types(t, op, *lt->Nullable_0) is Some {
            Err(operand_null(op, lt))
        } else if lt matches Ty::Class(n, _) && n != "null"@ && lookup(t.classes, n) is Some {
            Err(
                "class `"@ + lt->Class_0 + "` does not define `operator"@ + binop_text(op) + "`"@,
            )
        } else {
            match param_of(t, lt, sc.generics) {
                Some(p) => if numeric_param(p) && same_param(t, rt, sc.generics, p) {
                    Ok(lt)
                } else {
                    Err(
                        "cannot apply `"@ + binop_text(op) + "` to type parameter `"@ + p.name
                            + "`: constrain it with a numeric union (`where "@ + p.name
                            + " : int | float`) and use two `"@ + p.name + "` operands"@,
                    )
                },
                None => arithmetic(lt, rt),
            }
        },
    }
}

/// The type of a binary operation that is no `&&` and no `||`.
pub open spec fn binary_ty(t: TableModel, sc: Around, op: BinOp, lt: Ty, rt: Ty) -> Result<
    Ty,
    Seq<char>,
> {
    if op.compares() {
        comparison_ty(t, sc, op, lt, rt)
    } else {
        arithmetic_op_ty(t, sc, op, lt, rt)
    }
}

fn share_text(x: &Vec<String>, y: &Vec<String>) -> (r: bool)
    ensures
        r == (exists|i: int| 0 <= i < x@.len() && texts(y@).contains(#[trigger] texts(x@)[i])),
{
    let mut i: usize = 0;
    while i < x.len()
        invariant
            i <= x@.len(),
            forall|j: int| 0 <= j < i ==> !texts(y@).contains(#[trigger] texts(x@)[j]),
        decreases x.len() - i,
    {
        if has_text(y, x[i].as_str()) {
            assert(texts(y@).contains(texts(x@)[i as int]));
            return true;
        }
        i = i + 1;
    }
    false
}

fn strings_compat(a: &Type, b: &Type) -> (r: bool)
    ensures
        r == string_compat(a@, b@),
{
    match (a, b) {
        (Type::String, Type::StringLit(_)) => true,
        (Type::StringLit(_), Type::StringLit(_)) => true,
        (Type::String, Type::LiteralUnion(_, _)) => true,
        (Type::LiteralUnion(_, m), Type::StringLit(v)) => has_text(m, v.as_str()),
        (Type::LiteralUnion(_, x), Type::LiteralUnion(_, y)) => share_text(x, y),
        _ => false,
    }
}

/// The type of a numeric cast.
pub open spec fn cast_ty(inner: Ty, ty: Ty) -> Result<Ty, Seq<char>> {
    if !numeric(ty) {
        Err("cannot cast to non-numeric type "@ + ty_name(ty))
    } else if !numeric(inner) {
        Err("cannot cast "@ + ty_name(inner) + " to "@ + ty_name(ty))
    } else {
        Ok(ty)
    }
}

/// The type of a numeric cast.
pub fn cast_type(inner: &Type, ty: &Type) -> (r: Result<Type, String>)
    ensures
        outcome(r) == cast_ty(inner@, ty@),
{
    if !is_numeric(ty) {
        let shown: String = ty.name();
        return Err(cat2("cannot cast to non-numeric type ", shown.as_str()));
    }
    if !is_numeric(inner) {
        let a: String = inner.name();
        let b: String = ty.name();
        return Err(cat4("cannot cast ", a.as_str(), " to ", b.as_str()));
    }
    Ok(ty.clone())
}

impl Tables {
    /// The type of an `is` test.
    pub fn is_test_type(&self, subject: &Type, ty: &Type) -> (r: Result<Type, String>)
        ensures
            outcome(r) == is_test_ty(self@, subject@, ty@),
    {
        match ty {
            Type::Class(tested, args) => {
                assert(tys(args@).len() == args@.len());
                if args.len() > 0 {
                    return Err(
                        own(
                            "`is` cannot test generic type arguments (they are erased at runtime)",
                        ),
                    );
                }
                if self.is_intrinsic_class(tested.as_str()) {
                    return Err(cat3("`is` cannot test stdlib type `", tested.as_str(), "`"));
                }
                let info: &ClassInfo = match find(&self.classes, tested.as_str()) {
                    Some(i) => i,
                    None => return Err(unknown_class(tested.as_str())),
                };
                let core: Type = non_nullable(subject.clone());
                let shown: String = subject.name();
                match &core {
                    Type::Class(subj, _) => {
                        let subj_interface: bool = match find(&self.classes, subj.as_str()) {
                            Some(i) => i.is_interface,
                            None => false,
                        };
                        if !info.is_interface && !subj_interface && !self.is_subclass_of(
                            tested.as_str(),
                            subj.as_str(),
                        ) && !self.is_subclass_of(subj.as_str(), tested.as_str()) {
                            return Err(
                                cat5(
                                    "`is` test can never succeed: ",
                                    shown.as_str(),
                                    " and ",
                                    tested.as_str(),
                                    " are unrelated classes",
                                ),
                            );
                        }
                        Ok(Type::Bool)
                    },
                    _ => Err(
                        cat2("`is` requires a class-typed subject, got ", shown.as_str()),
                    ),
                }
            },
            _ => {
                let shown: String = ty.name();
                Err(cat2("`is` requires a class or interface type, got ", shown.as_str()))
            },
        }
    }

    fn misfit(&self, op: BinOp, lt: &Type, param: &Type, rt: &Type) -> (r: String)
        ensures
            r@ == operand_misfit(self@, op, lt@, param@, rt@),
    {
        let shown: String = lt.name();
        let base: String = cat5(
            "cannot apply `",
            binop_symbol(op),
            "`: right operand does not fit `",
            shown.as_str(),
            "`",
        );
        self.mismatch_error(base, param, rt)
    }

    fn is_same_param(&self, ty: &Type, generics: &Vec<GenericParam>, p: &GenericParam) -> (r: bool)
        ensures
            r == same_param(self@, ty@, views(generics@), p@),
    {
        match self.generic_param_of(ty, generics) {
            Some(q) => same(q.name.as_str(), p.name.as_str()),
            None => false,
        }
    }

    fn plain_comparison_type(&self, sc: &Scope<'_>, op: BinOp, lt: &Type, rt: &Type) -> (r: Result<
        Type,
        String,
    >)
        ensures
            outcome(r) == plain_comparison(self@, sc@, op, lt@, rt@),
    {
        let l: Type = non_nullable(lt.clone());
        let r: Type = non_nullable(rt.clone());
        let orders: bool = matches!(op, BinOp::Lt | BinOp::Le | BinOp::Gt | BinOp::Ge);
        if orders {
            if let Some(gp) = self.generic_param_of(&l, sc.generics) {
                if union_is_numeric(gp) && self.is_same_param(&r, sc.generics, gp) {
                    return Ok(Type::Bool);
                }
                let n: &str = gp.name.as_str();
                return Err(
                    cat9(
                        "cannot order type parameter `",
                        n,
                        "` with `",
                        binop_symbol(op),
                        "`: constrain it with a numeric union (`where ",
                        n,
                        " : int | float`) and compare two `",
                        n,
                        "` values",
                    ),
                );
            }
            if let Type::Class(n, _) = &l {
                if holds(&self.classes, n.as_str()) {
                    return Err(
                        cat5(
                            "class `",
                            n.as_str(),
                            "` does not define `operator",
                            binop_symbol(op),
                            "`; ordering comparisons on objects need an operator overload",
                        ),
                    );
                }
            }
        }
        if (!is_numeric(&l) || !is_numeric(&r)) && !same_type(&l, &r) && !strings_compat(&l, &r)
            && !strings_compat(&r, &l) {
            let a: String = lt.name();
            let b: String = rt.name();
            return Err(cat4("cannot compare ", a.as_str(), " and ", b.as_str()));
        }
        Ok(Type::Bool)
    }

    fn operand_may_be_null(&self, op: BinOp, lt: &Type) -> (r: Option<String>)
        ensures
            match r {
                Some(e) => lt@ is Nullable && operator_types(self@, op, *lt@->Nullable_0) is Some
                    && e@ == operand_null(op, lt@),
                None => !(lt@ is Nullable && operator_types(
                    self@,
                    op,
                    *lt@->Nullable_0,
                ) is Some),
            },
    {
        if let Type::Nullable(inner) = lt {
            if self.user_operator(op, inner).is_some() {
                let shown: String = lt.name();
                return Some(
                    cat5(
                        "left operand of `",
                        binop_symbol(op),
                        "` has type ",
                        shown.as_str(),
                        " and may be null; narrow it (`!= null`, `!`) before using the operator overload",
                    ),
                );
            }
        }
        None
    }

    /// The type of a binary operation that is no `&&` and no `||`. User-defined
    /// operators: the left class declares `operator==` / `operator<` etc.;
    /// `!=` is always the negation of `operator==`. A nullable left operand
    /// must be narrowed first — silently falling back to reference comparison
    /// would change meaning.
    pub fn binary_type(&self, sc: &Scope<'_>, op: BinOp, lt: &Type, rt: &Type) -> (r: Result<
        Type,
        String,
    >)
        ensures
            outcome(r) == binary_ty(self@, sc@, op, lt@, rt@),
    {
        let compares: bool = op.is_comparison();
        if compares && (lt.is_null() || rt.is_null()) {
            return Ok(Type::Bool);
        }
        if let Some((param, ret)) = self.user_operator(op, lt) {
            if !self.is_assignable(&param, rt) {
                return Err(self.misfit(op, lt, &param, rt));
            }
            return if compares {
                Ok(Type::Bool)
            } else {
                Ok(ret)
            };
        }
        if let Some(e) = self.operand_may_be_null(op, lt) {
            return Err(e);
        }
        if compares {
            return self.plain_comparison_type(sc, op, lt, rt);
        }
        if let Type::Class(n, _) = lt {
            if !same(n.as_str(), "null") && holds(&self.classes, n.as_str()) {
                return Err(
                    cat5(
                        "class `",
                        n.as_str(),
                        "` does not define `operator",
                        binop_symbol(op),
                        "`",
                    ),
                );
            }
        }
        if let Some(gp) = self.generic_param_of(lt, sc.generics) {
            if union_is_numeric(gp) && self.is_same_param(rt, sc.generics, gp) {
                return Ok(lt.clone());
            }
            let n: &str = gp.name.as_str();
            return Err(
                cat9(
                    "cannot apply `",
                    binop_symbol(op),
                    "` to type parameter `",
                    n,
                    "`: constrain it with a numeric union (`where ",
                    n,
                    " : int | float`) and use two `",
                    n,
                    "` operands",
                ),
            );
        }
        arithmetic_type(lt, rt)
    }
}

// ---------------------------------------------------------------------------
// Joins
// ---------------------------------------------------------------------------

/// The type of `c ? a : b` where the branches have these types. A null branch
/// makes the result nullable.
pub open spec fn ternary_ty(t: TableModel, then_ty: Ty, else_ty: Ty) -> Result<Ty, Seq<char>> {
    let (a, b) = (resolved(then_ty), resolved(else_ty));
    if a.is_null() && b.is_null() {
        Ok(a)
    } else if a.is_null() {
        Ok(with_null(b))
    } else if b.is_null() {
        Ok(with_null(a))
    } else if !flows(t, a, b) && !flows(t, b, a) {
        Err(
            "ternary branches must have compatible types, got "@ + ty_name(a) + " and "@ + ty_name(
                b,
            ),
        )
    } else if b is Nullable && !(a is Nullable) {
        Ok(b)
    } else {
        Ok(a)
    }
}

/// The type of `a ?? b`: that of `a` without `null`, nullable again only if `b`
/// is nullable too.
pub open spec fn coalesce_ty(t: TableModel, left: Ty, right: Ty) -> Result<Ty, Seq<char>> {
    if !(left is Nullable) && !left.is_null() {
        Err("`??` requires a nullable left operand, got "@ + ty_name(left))
    } else {
        let inner = if left is Nullable {
            *left->Nullable_0
        } else {
            right
        };
        if !flows(t, Ty::Nullable(Box::new(inner)), right) {
            Err(
                "null coalescing operands must have compatible types, got "@ + ty_name(left)
                    + " and "@ + ty_name(right),
            )
        } else if right is Nullable {
            Ok(Ty::Nullable(Box::new(inner)))
        } else {
            Ok(inner)
        }
    }
}

/// The type of `await e` where `e` has this type.
pub open spec fn await_ty(ty: Ty) -> Result<Ty, Seq<char>> {
    match ty {
        Ty::Class(n, args) => if n == "Task"@ && args.len() == 1 {
            Ok(args[0])
        } else {
            Err("`await` needs a Task<T>, got "@ + ty_name(ty))
        },
        _ => Err("`await` needs a Task<T>, got "@ + ty_name(ty)),
    }
}

/// The type of a component of a tuple.
pub open spec fn component_ty(ty: Ty, idx: usize) -> Result<Ty, Seq<char>> {
    match ty {
        Ty::Tuple(ts) => if idx >= ts.len() {
            Err(
                "tuple index "@ + dec(idx as nat) + " out of bounds for tuple of size "@ + dec(
                    ts.len(),
                ),
            )
        } else {
            Ok(ts[idx as int])
        },
        _ => Err("cannot index non-tuple type "@ + ty_name(ty)),
    }
}

/// The type of a range.
pub open spec fn range_ty(start: Ty, end: Ty) -> Result<Ty, Seq<char>> {
    if !resolved(start).is_int() {
        Err("range start must be an integer, got "@ + ty_name(start))
    } else if !resolved(end).is_int() {
        Err("range end must be an integer, got "@ + ty_name(end))
    } else {
        Ok(Ty::Class("Range"@, seq![]))
    }
}

/// The result of a null conditional call.
pub open spec fn null_call_ty(ty: Ty) -> Ty {
    if ty is Unit {
        Ty::Unit
    } else {
        with_null(ty)
    }
}

/// The type of `await e`.
pub fn await_type(ty: &Type) -> (r: Result<Type, String>)
    ensures
        outcome(r) == await_ty(ty@),
{
    if let Type::Class(n, args) = ty {
        assert(tys(args@).len() == args@.len());
        if same(n.as_str(), "Task") && args.len() == 1 {
            assert(tys(args@)[0] == args@[0]@);
            return Ok(args[0].clone());
        }
    }
    let shown: String = ty.name();
    Err(cat2("`await` needs a Task<T>, got ", shown.as_str()))
}

/// The type of a component of a tuple.
pub fn component_type(ty: &Type, idx: usize) -> (r: Result<Type, String>)
    ensures
        outcome(r) == component_ty(ty@, idx),
{
    match ty {
        Type::Tuple(ts) => {
            assert(tys(ts@).len() == ts@.len());
            if idx >= ts.len() {
                let i: String = dec_u64(idx as u64);
                let n: String = dec_u64(ts.len() as u64);
                return Err(
                    cat4(
                        "tuple index ",
                        i.as_str(),
                        " out of bounds for tuple of size ",
                        n.as_str(),
                    ),
                );
            }
            assert(tys(ts@)[idx as int] == ts@[idx as int]@);
            Ok(ts[idx].clone())
        },
        _ => {
            let shown: String = ty.name();
            Err(cat2("cannot index non-tuple type ", shown.as_str()))
        },
    }
}

/// The type of a range.
pub fn range_type(start: &Type, end: &Type) -> (r: Result<Type, String>)
    ensures
        outcome(r) == range_ty(start@, end@),
{
    if !resolve_literal(start).is_int() {
        let shown: String = start.name();
        return Err(cat2("range start must be an integer, got ", shown.as_str()));
    }
    if !resolve_literal(end).is_int() {
        let shown: String = end.name();
        return Err(cat2("range end must be an integer, got ", shown.as_str()));
    }
    let args: Vec<Type> = Vec::new();
    assert(tys(args@) =~= seq![]);
    Ok(Type::Class(own("Range"), args))
}

/// The result of a null conditional call.
pub fn null_call_type(ty: Type) -> (r: Type)
    ensures
        r@ == null_call_ty(ty@),
{
    match ty {
        Type::Unit => Type::Unit,
        _ => nullable(ty),
    }
}

impl Tables {
    /// The type of `c ? a : b`.
    pub fn ternary_type(&self, then_ty: &Type, else_ty: &Type) -> (r: Result<Type, String>)
        ensures
            outcome(r) == ternary_ty(self@, then_ty@, else_ty@),
    {
        let a: Type = resolve_literal(then_ty);
        let b: Type = resolve_literal(else_ty);
        if a.is_null() {
            return if b.is_null() {
                Ok(a)
            } else {
                Ok(nullable(b))
            };
        }
        if b.is_null() {
            return Ok(nullable(a));
        }
        if !self.is_assignable(&a, &b) && !self.is_assignable(&b, &a) {
            let x: String = a.name();
            let y: String = b.name();
            return Err(
                cat4(
                    "ternary branches must have compatible types, got ",
                    x.as_str(),
                    " and ",
                    y.as_str(),
                ),
            );
        }
        if matches!(b, Type::Nullable(_)) && !matches!(a, Type::Nullable(_)) {
            return Ok(b);
        }
        Ok(a)
    }

    /// The type of `a ?? b`.
    pub fn coalesce_type(&self, left: &Type, right: &Type) -> (r: Result<Type, String>)
        ensures
            outcome(r) == coalesce_ty(self@, left@, right@),
    {
        let x: String = left.name();
        let inner: Type = match left {
            Type::Nullable(t) => (&**t).clone(),
            _ => {
                if !left.is_null() {
                    return Err(
                        cat2("`??` requires a nullable left operand, got ", x.as_str()),
                    );
                }
                right.clone()
            },
        };
        let wide: Type = Type::Nullable(Box::new(inner.clone()));
        if !self.is_assignable(&wide, right) {
            let y: String = right.name();
            return Err(
                cat4(
                    "null coalescing operands must have compatible types, got ",
                    x.as_str(),
                    " and ",
                    y.as_str(),
                ),
            );
        }
        if matches!(right, Type::Nullable(_)) {
            Ok(wide)
        } else {
            Ok(inner)
        }
    }
}

// ---------------------------------------------------------------------------
// Sum types
// ---------------------------------------------------------------------------

/// The variant of an enum.
pub open spec fn variant_place(vs: Seq<VariantModel>, name: Seq<char>, i: int) -> int
    decreases vs.len() - i,
{
    if i < 0 || i >= vs.len() {
        vs.len() as int
    } else if vs[i].name == name {
        i
    } else {
        variant_place(vs, name, i + 1)
    }
}

/// The variant of an enum by name.
pub open spec fn variant_named(e: EnumModel, name: Seq<char>) -> Option<VariantModel> {
    let p = variant_place(e.variants, name, 0);
    if 0 <= p < e.variants.len() {
        Some(e.variants[p])
    } else {
        None
    }
}

/// The variant of an enum by name.
pub fn find_variant<'a>(e: &'a EnumInfo, name: &str) -> (r: Option<&'a VariantInfo>)
    ensures
        match r {
            Some(v) => variant_named(e@, name@) == Some(v@),
            None => variant_named(e@, name@) is None,
        },
{
    let mut i: usize = 0;
    while i < e.variants.len()
        invariant
            i <= e.variants@.len(),
            variant_place(e@.variants, name@, 0) == variant_place(e@.variants, name@, i as int),
        decreases e.variants.len() - i,
    {
        if same(e.variants[i].name.as_str(), name) {
            return Some(&e.variants[i]);
        }
        i = i + 1;
    }
    None
}

/// The type parameter of the enum that a field type is.
pub open spec fn field_param(ty: Ty, ps: Seq<ParamModel>) -> Option<ParamModel> {
    match ty {
        Ty::Class(n, args) => if args.len() == 0 {
            param_named(ps, n)
        } else {
            None
        },
        Ty::GenericParam(n) => param_named(ps, n),
        _ => None,
    }
}

fn find_field_param<'a>(ty: &Type, ps: &'a Vec<GenericParam>) -> (r: Option<&'a GenericParam>)
    ensures
        opt_param(r) == field_param(ty@, views(ps@)),
{
    match ty {
        Type::Class(n, args) => {
            assert(tys(args@).len() == args@.len());
            if args.len() == 0 {
                find_param(ps, n.as_str())
            } else {
                None
            }
        },
        Type::GenericParam(n) => find_param(ps, n.as_str()),
        _ => None,
    }
}

/// The type parameters that the first `n` arguments fix.
pub open spec fn slots_fixed(
    e: EnumModel,
    fields: Seq<(Seq<char>, Ty)>,
    args: Seq<Ty>,
    n: int,
) -> Seq<(Seq<char>, Ty)>
    decreases n,
{
    if n <= 0 {
        seq![]
    } else {
        let before = slots_fixed(e, fields, args, n - 1);
        match field_param(fields[n - 1].1, e.generics) {
            Some(p) => put(before, p.name, args[n - 1]),
            None => before,
        }
    }
}

/// The arguments from `i` on fit their fields; a parameter that is not fixed is
/// fixed by the argument that fills its slot.
pub open spec fn slots_checked(
    t: TableModel,
    enum_name: Seq<char>,
    variant: Seq<char>,
    e: EnumModel,
    fields: Seq<(Seq<char>, Ty)>,
    args: Seq<Ty>,
    i: int,
    s: Seq<(Seq<char>, Ty)>,
) -> Result<Seq<(Seq<char>, Ty)>, Seq<char>>
    decreases fields.len() - i,
{
    if i < 0 || i >= fields.len() || i >= args.len() {
        Ok(s)
    } else {
        let expected = subst_ty(fields[i].1, s);
        match field_param(expected, e.generics) {
            Some(p) => slots_checked(
                t,
                enum_name,
                variant,
                e,
                fields,
                args,
                i + 1,
                put(s, p.name, args[i]),
            ),
            None => if flows(t, expected, args[i]) {
                slots_checked(t, enum_name, variant, e, fields, args, i + 1, s)
            } else {
                Err(
                    "argument type mismatch in `"@ + enum_name + "."@ + variant + "`: expected "@
                        + ty_name(expected) + ", got "@ + ty_name(args[i]),
                )
            },
        }
    }
}

/// The type arguments of a constructed value: a parameter that nothing fixes
/// stays a parameter.
pub open spec fn slot_args(e: EnumModel, s: Seq<(Seq<char>, Ty)>) -> Seq<Ty> {
    Seq::new(
        e.generics.len(),
        |i: int|
            match lookup(s, e.generics[i].name) {
                Some(u) => u,
                None => Ty::GenericParam(e.generics[i].name),
            },
    )
}

/// The type of a variant that is constructed with arguments of these types.
pub open spec fn construction_ty(
    t: TableModel,
    enum_name: Seq<char>,
    variant: Seq<char>,
    e: EnumModel,
    v: VariantModel,
    args: Seq<Ty>,
) -> Result<Ty, Seq<char>> {
    match slots_checked(
        t,
        enum_name,
        variant,
        e,
        v.fields,
        args,
        0,
        slots_fixed(e, v.fields, args, args.len() as int),
    ) {
        Err(m) => Err(m),
        Ok(s) => if e.generics.len() == 0 {
            Ok(Ty::Enum(enum_name))
        } else {
            Ok(Ty::Class(enum_name, slot_args(e, s)))
        },
    }
}

/// The variant that is constructed, with the right number of arguments.
pub open spec fn variant_for(
    t: TableModel,
    enum_name: Seq<char>,
    variant: Seq<char>,
    n: nat,
) -> Result<(EnumModel, VariantModel), Seq<char>> {
    match lookup(t.enums, enum_name) {
        None => Err("unknown enum `"@ + enum_name + "`"@),
        Some(e) => match variant_named(e, variant) {
            None => Err("unknown variant `"@ + enum_name + "."@ + variant + "`"@),
            Some(v) => if n != v.fields.len() {
                Err(
                    "variant `"@ + enum_name + "."@ + variant + "` expects "@ + dec(v.fields.len())
                        + " arguments, got "@ + dec(n),
                )
            } else {
                Ok((e, v))
            },
        },
    }
}

/// The position of the first enum from `i` on that declares a variant.
pub open spec fn declaring(es: Seq<(Seq<char>, EnumModel)>, variant: Seq<char>, i: int) -> int
    decreases es.len() - i,
{
    if i < 0 || i >= es.len() {
        es.len() as int
    } else if variant_named(es[i].1, variant) is Some {
        i
    } else {
        declaring(es, variant, i + 1)
    }
}

/// The position of the only enum that declares a variant.
pub open spec fn bare_variant(t: TableModel, variant: Seq<char>) -> Result<int, Seq<char>> {
    let p = declaring(t.enums, variant, 0);
    if !(0 <= p < t.enums.len()) {
        Err("unknown variant `"@ + variant + "`"@)
    } else if declaring(t.enums, variant, p + 1) < t.enums.len() {
        Err(
            "variant `"@ + variant
                + "` is ambiguous: declared by multiple sum types; use `Type."@ + variant + "`"@,
        )
    } else {
        Ok(p)
    }
}

/// The sum type that `e?` takes apart, with its type arguments.
pub open spec fn sum_type(t: TableModel, ty: Ty) -> Option<(Seq<char>, Seq<Ty>)> {
    match ty {
        Ty::Class(n, args) => if lookup(t.enums, n) is Some {
            Some((n, args))
        } else {
            None
        },
        Ty::Enum(n) => Some((n, seq![])),
        _ => None,
    }
}

/// The type of `e?` where `e` has type `inner`: the value of the first variant.
/// The enclosing function must return the same sum type.
pub open spec fn try_unwrap_ty(t: TableModel, sc: Around, inner: Ty) -> Result<Ty, Seq<char>> {
    match sum_type(t, inner) {
        None => Err("`?` requires a Result-like sum type, got `"@ + ty_name(inner) + "`"@),
        Some((n, args)) => match sum_type(t, sc.return_ty) {
            None => Err(
                "`?` can only be used in a function returning a Result-like sum type, but it returns `"@
                    + ty_name(sc.return_ty) + "`"@,
            ),
            Some((ret, _)) => if ret != n {
                Err(
                    "`?` propagates `"@ + n + "` but the enclosing function returns `"@ + ret
                        + "`"@,
                )
            } else {
                match lookup(t.enums, n) {
                    None => Err("unknown enum `"@ + n + "`"@),
                    Some(e) => if e.variants.len() == 0 {
                        Err("sum type `"@ + n + "` has no variants"@)
                    } else if e.variants[0].fields.len() != 1 {
                        Err(
                            "cannot `?` unwrap `"@ + n + "`: success variant `"@
                                + e.variants[0].name + "` must carry exactly one value"@,
                        )
                    } else {
                        Ok(subst_ty(e.variants[0].fields[0].1, subst_of(e.generics, args)))
                    },
                }
            },
        },
    }
}

impl Tables {
    /// The variant that is constructed, with the right number of arguments.
    pub fn variant_with<'a>(&'a self, enum_name: &str, variant_name: &str, n: usize) -> (r: Result<
        (&'a EnumInfo, &'a VariantInfo),
        String,
    >)
        ensures
            match r {
                Ok((e, v)) => variant_for(self@, enum_name@, variant_name@, n as nat) == Ok::<
                    (EnumModel, VariantModel),
                    Seq<char>,
                >((e@, v@)),
                Err(m) => variant_for(self@, enum_name@, variant_name@, n as nat) == Err::<
                    (EnumModel, VariantModel),
                    Seq<char>,
                >(m@),
            },
    {
        let e: &EnumInfo = match find(&self.enums, enum_name) {
            Some(e) => e,
            None => return Err(cat3("unknown enum `", enum_name, "`")),
        };
        let v: &VariantInfo = match find_variant(e, variant_name) {
            Some(v) => v,
            None => {
                return Err(cat5("unknown variant `", enum_name, ".", variant_name, "`"));
            },
        };
        if n != v.fields.len() {
            let want: String = dec_u64(v.fields.len() as u64);
            let got: String = dec_u64(n as u64);
            return Err(
                cat8(
                    "variant `",
                    enum_name,
                    ".",
                    variant_name,
                    "` expects ",
                    want.as_str(),
                    " arguments, got ",
                    got.as_str(),
                ),
            );
        }
        Ok((e, v))
    }

    /// The type of a variant that is constructed with arguments of these
    /// types. Generic type parameters that appear in the variant's fields are
    /// inferred from the arguments; parameters not used by this variant are
    /// left as `Type::GenericParam` and later unified against an expected type.
    #[verifier::rlimit(30)]
    pub fn construction_type(
        &self,
        enum_name: &str,
        variant_name: &str,
        e: &EnumInfo,
        v: &VariantInfo,
        args: &Vec<Type>,
    ) -> (r: Result<Type, String>)
        requires
            args@.len() == v.fields@.len(),
        ensures
            outcome(r) == construction_ty(
                self@,
                enum_name@,
                variant_name@,
                e@,
                v@,
                tys(args@),
            ),
    {
        let mut subst: Vec<(String, Type)> = Vec::new();
        let mut i: usize = 0;
        assert(entries(subst@) =~= seq![]);
        while i < args.len()
            invariant
                i <= args@.len(),
                args@.len() == v.fields@.len(),
                entries(subst@) == slots_fixed(e@, v@.fields, tys(args@), i as int),
            decreases args.len() - i,
        {
            assert(tys(args@)[i as int] == args@[i as int]@);
            assert(v@.fields[i as int].1 == v.fields@[i as int].1@);
            if let Some(p) = find_field_param(&v.fields[i].1, &e.generic_params) {
                insert(&mut subst, p.name.as_str(), args[i].clone());
            }
            i = i + 1;
        }
        let ghost fixed = entries(subst@);
        assert(tys(args@).len() == args@.len());
        let ghost want = slots_checked(
            self@,
            enum_name@,
            variant_name@,
            e@,
            v@.fields,
            tys(args@),
            0,
            fixed,
        );
        let mut k: usize = 0;
        while k < args.len()
            invariant
                k <= args@.len(),
                args@.len() == v.fields@.len(),
                fixed == slots_fixed(e@, v@.fields, tys(args@), tys(args@).len() as int),
                want == slots_checked(
                    self@,
                    enum_name@,
                    variant_name@,
                    e@,
                    v@.fields,
                    tys(args@),
                    0,
                    fixed,
                ),
                want == slots_checked(
                    self@,
                    enum_name@,
                    variant_name@,
                    e@,
                    v@.fields,
                    tys(args@),
                    k as int,
                    entries(subst@),
                ),
            decreases args.len() - k,
        {
            assert(tys(args@)[k as int] == args@[k as int]@);
            assert(v@.fields[k as int].1 == v.fields@[k as int].1@);
            let expected: Type = substitute_type(&v.fields[k].1, &subst);
            match find_field_param(&expected, &e.generic_params) {
                Some(p) => {
                    insert(&mut subst, p.name.as_str(), args[k].clone());
                },
                None => {
                    if !self.is_assignable(&expected, &args[k]) {
                        let x: String = expected.name();
                        let y: String = args[k].name();
                        return Err(
                            cat8(
                                "argument type mismatch in `",
                                enum_name,
                                ".",
                                variant_name,
                                "`: expected ",
                                x.as_str(),
                                ", got ",
                                y.as_str(),
                            ),
                        );
                    }
                },
            }
            k = k + 1;
        }
        assert(want == Ok::<Seq<(Seq<char>, Ty)>, Seq<char>>(entries(subst@)));
        if e.generic_params.len() == 0 {
            return Ok(Type::Enum(own(enum_name)));
        }
        let mut out: Vec<Type> = Vec::new();
        let mut g: usize = 0;
        let ghost s = entries(subst@);
        while g < e.generic_params.len()
            invariant
                g <= e.generic_params@.len(),
                out@.len() == g,
                s == entries(subst@),
                forall|j: int| 0 <= j < g ==> (#[trigger] out@[j])@ == slot_args(e@, s)[j],
            decreases e.generic_params.len() - g,
        {
            let name: &String = &e.generic_params[g].name;
            let ty: Type = match find(&subst, name.as_str()) {
                Some(u) => u.clone(),
                None => Type::GenericParam(name.clone()),
            };
            assert(ty@ == slot_args(e@, s)[g as int]);
            out.push(ty);
            g = g + 1;
        }
        assert(tys(out@) =~= slot_args(e@, s));
        Ok(Type::Class(own(enum_name), out))
    }

    fn find_declaring(&self, variant_name: &str, from: usize) -> (r: usize)
        requires
            from <= self.enums@.len(),
        ensures
            r == declaring(self@.enums, variant_name@, from as int),
            from <= r <= self.enums@.len(),
    {
        let mut i: usize = from;
        while i < self.enums.len()
            invariant
                from <= i <= self.enums@.len(),
                declaring(self@.enums, variant_name@, from as int) == declaring(
                    self@.enums,
                    variant_name@,
                    i as int,
                ),
            decreases self.enums.len() - i,
        {
            if find_variant(&self.enums[i].1, variant_name).is_some() {
                return i;
            }
            i = i + 1;
        }
        i
    }

    /// Whether some enum declares a variant.
    pub fn declares_variant(&self, variant_name: &str) -> (r: bool)
        ensures
            r == (declaring(self@.enums, variant_name@, 0) < self@.enums.len()),
    {
        self.find_declaring(variant_name, 0) < self.enums.len()
    }

    /// Resolve a bare variant name to the single sum type that declares it.
    /// Returns an error if no enum declares it, or if several do (ambiguous).
    pub fn resolve_bare_variant(&self, variant_name: &str) -> (r: Result<usize, String>)
        ensures
            match r {
                Ok(p) => p < self.enums@.len() && bare_variant(self@, variant_name@) == Ok::<
                    int,
                    Seq<char>,
                >(p as int) && variant_named(self@.enums[p as int].1, variant_name@) is Some,
                Err(m) => bare_variant(self@, variant_name@) == Err::<int, Seq<char>>(m@),
            },
    {
        let p: usize = self.find_declaring(variant_name, 0);
        if p >= self.enums.len() {
            return Err(cat3("unknown variant `", variant_name, "`"));
        }
        let q: usize = self.find_declaring(variant_name, p + 1);
        if q < self.enums.len() {
            return Err(
                cat5(
                    "variant `",
                    variant_name,
                    "` is ambiguous: declared by multiple sum types; use `Type.",
                    variant_name,
                    "`",
                ),
            );
        }
        proof {
            declaring_declares(self@.enums, variant_name@, 0);
        }
        Ok(p)
    }

    fn find_sum_type<'a>(&self, ty: &'a Type) -> (r: Option<(&'a String, Vec<Type>)>)
        ensures
            match r {
                Some((n, args)) => sum_type(self@, ty@) == Some((n@, tys(args@))),
                None => sum_type(self@, ty@) is None,
            },
    {
        match ty {
            Type::Class(n, args) => if holds(&self.enums, n.as_str()) {
                Some((n, clone_tys(args)))
            } else {
                None
            },
            Type::Enum(n) => {
                let args: Vec<Type> = Vec::new();
                assert(tys(args@) =~= seq![]);
                Some((n, args))
            },
            _ => None,
        }
    }

    /// The type of `e?`.
    pub fn try_unwrap_type(&self, sc: &Scope<'_>, inner: &Type) -> (r: Result<Type, String>)
        ensures
            outcome(r) == try_unwrap_ty(self@, sc@, inner@),
    {
        let (n, args) = match self.find_sum_type(inner) {
            Some(x) => x,
            None => {
                let shown: String = inner.name();
                return Err(
                    cat3("`?` requires a Result-like sum type, got `", shown.as_str(), "`"),
                );
            },
        };
        let (ret, _) = match self.find_sum_type(sc.return_ty) {
            Some(x) => x,
            None => {
                let shown: String = sc.return_ty.name();
                return Err(
                    cat3(
                        "`?` can only be used in a function returning a Result-like sum type, but it returns `",
                        shown.as_str(),
                        "`",
                    ),
                );
            },
        };
        if !same(ret.as_str(), n.as_str()) {
            return Err(
                cat5(
                    "`?` propagates `",
                    n.as_str(),
                    "` but the enclosing function returns `",
                    ret.as_str(),
                    "`",
                ),
            );
        }
        let e: &EnumInfo = match find(&self.enums, n.as_str()) {
            Some(e) => e,
            None => return Err(cat3("unknown enum `", n.as_str(), "`")),
        };
        assert(e@.variants.len() == e.variants@.len());
        if e.variants.len() == 0 {
            return Err(cat3("sum type `", n.as_str(), "` has no variants"));
        }
        let success: &VariantInfo = &e.variants[0];
        assert(e@.variants[0] == success@);
        if success.fields.len() != 1 {
            return Err(
                cat5(
                    "cannot `?` unwrap `",
                    n.as_str(),
                    "`: success variant `",
                    success.name.as_str(),
                    "` must carry exactly one value",
                ),
            );
        }
        let subst: Vec<(String, Type)> = build_subst(&e.generic_params, &args);
        assert(success@.fields[0].1 == success.fields@[0].1@);
        Ok(substitute_type(&success.fields[0].1, &subst))
    }
}

proof fn declaring_declares(es: Seq<(Seq<char>, EnumModel)>, variant: Seq<char>, i: int)
    requires
        0 <= i,
    ensures
        0 <= declaring(es, variant, i) < es.len() ==> variant_named(
            es[declaring(es, variant, i)].1,
            variant,
        ) is Some,
    decreases es.len() - i,
{
    if i < es.len() && variant_named(es[i].1, variant) is None {
        declaring_declares(es, variant, i + 1);
    }
}

} // verus!
