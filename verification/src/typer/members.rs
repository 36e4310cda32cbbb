//! What the declaration of a class says of its members.

use crate::text::{cat2, cat3, cat5, dec_i64, own, same};
use crate::text::dec_int;
use crate::typer::assign::flows;
use crate::typer::ast::{
    clone_params, clone_texts, has_text, same_tys, texts, ty_name, tys, views, AccessorKind,
    Accessor, ClassDecl, Expr, FieldDecl, Member, MethodDecl, Param, PropertyDecl, Ty, Type,
    UnaryOp, Visibility,
};
use crate::typer::hierarchy::push_keys;
use crate::typer::info::{
    ClassInfo, ClassModel, ConstructorInfo, MethodInfo, MethodModel, PropertyInfo, PropertyModel,
    TableModel, Tables,
};
use crate::typer::keyed::{entries, holds, insert, keys, lookup, put};
use crate::typer::rules::{
    accessor_visibility, done, effective_accessor_visibility, mismatch, written_visibility,
};
use crate::typer::types::{
    operator_symbol, operator_symbol_of, operator_symbol_unique, outcome, suffixed,
    suffixed_int_type,
};
use vstd::prelude::*;

verus! {

/// The first error among `f(i)`, `f(i + 1)` and so on before `f(n)`.
pub open spec fn all_ok(n: int, i: int, f: spec_fn(int) -> Result<(), Seq<char>>) -> Result<
    (),
    Seq<char>,
>
    decreases n - i,
{
    if i >= n {
        Ok(())
    } else {
        match f(i) {
            Err(e) => Err(e),
            Ok(_) => all_ok(n, i + 1, f),
        }
    }
}

/// The types of parameters.
pub open spec fn param_tys(ps: Seq<Param>) -> Seq<Ty> {
    Seq::new(ps.len(), |i: int| ps[i].ty@)
}

/// A list of names with one more, if it is new.
pub open spec fn with_name(s: Seq<Seq<char>>, n: Seq<char>) -> Seq<Seq<char>> {
    if s.contains(n) {
        s
    } else {
        s.push(n)
    }
}

/// A class as far as it was built, or an error.
pub open spec fn grown(r: Result<(), String>, c: ClassModel) -> Result<ClassModel, Seq<char>> {
    match r {
        Ok(_) => Ok(c),
        Err(e) => Err(e@),
    }
}

// ---------------------------------------------------------------------------
// Static classes and initializers
// ---------------------------------------------------------------------------

/// All members of a static class are static, and none is a constructor.
pub open spec fn static_member(c: ClassDecl, m: Member) -> Result<(), Seq<char>> {
    match m {
        Member::Field(f) => if f.is_static {
            Ok(())
        } else {
            Err(
                "static class `"@ + c.name@ + "` cannot declare instance field `"@ + f.name@
                    + "`; all members must be static"@,
            )
        },
        Member::Method(m) => if m.is_constructor {
            Err("static class `"@ + c.name@ + "` cannot declare a constructor"@)
        } else if m.is_static {
            Ok(())
        } else {
            Err(
                "static class `"@ + c.name@ + "` cannot declare instance method `"@ + m.name@
                    + "`; all members must be static"@,
            )
        },
        Member::Property(p) => if p.is_static {
            Ok(())
        } else {
            Err(
                "static class `"@ + c.name@ + "` cannot declare instance property `"@ + p.name@
                    + "`; all members must be static"@,
            )
        },
    }
}

/// A static class has no bases and only static members.
pub open spec fn static_class(c: ClassDecl) -> Result<(), Seq<char>> {
    if !c.is_static {
        Ok(())
    } else if c.bases@.len() != 0 {
        Err("static class `"@ + c.name@ + "` cannot inherit or implement interfaces"@)
    } else {
        all_ok(c.members@.len() as int, 0, |i: int| static_member(c, c.members@[i]))
    }
}

/// The complaint about an initializer that is no constant literal.
pub open spec fn not_constant(c: ClassDecl, f: FieldDecl) -> Seq<char> {
    "static field `"@ + c.name@ + "."@ + f.name@ + "` initializer must be a constant literal"@
}

/// The type of a constant literal.
pub open spec fn constant_ty(c: ClassDecl, f: FieldDecl, init: Expr) -> Result<Ty, Seq<char>> {
    match init {
        Expr::IntLit(v, suffix) => suffixed(suffix, v),
        Expr::FloatLit(_, _) => Ok(Ty::Float64),
        Expr::Bool(_) => Ok(Ty::Bool),
        Expr::Char(_) => Ok(Ty::Char),
        Expr::String(v) => Ok(Ty::StringLit(v@)),
        Expr::Unary(op, inner) => if op == UnaryOp::Neg {
            match *inner {
                Expr::IntLit(v, suffix) => if v == i64::MIN {
                    Err("integer literal "@ + dec_int(v as int) + " is too small to negate"@)
                } else {
                    suffixed(suffix, (-v) as i64)
                },
                Expr::FloatLit(_, _) => Ok(Ty::Float64),
                _ => Err(not_constant(c, f)),
            }
        } else {
            Err(not_constant(c, f))
        },
        _ => Err(not_constant(c, f)),
    }
}

/// Static fields are initialized with constant literals only; instance fields
/// are not initialized where they are declared.
pub open spec fn initializer(t: TableModel, c: ClassDecl, m: Member) -> Result<(), Seq<char>> {
    match m {
        Member::Field(f) => match f.init {
            None => Ok(()),
            Some(init) => if !f.is_static {
                Err(
                    "instance field `"@ + c.name@ + "."@ + f.name@
                        + "` cannot have an initializer yet; assign it in a constructor"@,
                )
            } else {
                match constant_ty(c, f, init) {
                    Err(e) => Err(e),
                    Ok(ty) => if flows(t, f.ty@, ty) {
                        Ok(())
                    } else {
                        Err(
                            mismatch(
                                t,
                                "cannot initialize static field `"@ + c.name@ + "."@ + f.name@
                                    + "` of type "@ + ty_name(f.ty@) + " with "@ + ty_name(ty),
                                f.ty@,
                                ty,
                            ),
                        )
                    },
                }
            },
        },
        _ => Ok(()),
    }
}

fn check_static_member(c: &ClassDecl, m: &Member) -> (r: Result<(), String>)
    ensures
        done(r) == static_member(*c, *m),
{
    match m {
        Member::Field(f) => {
            if f.is_static {
                return Ok(());
            }
            Err(
                cat5(
                    "static class `",
                    c.name.as_str(),
                    "` cannot declare instance field `",
                    f.name.as_str(),
                    "`; all members must be static",
                ),
            )
        },
        Member::Method(m) => {
            if m.is_constructor {
                return Err(
                    cat3("static class `", c.name.as_str(), "` cannot declare a constructor"),
                );
            }
            if m.is_static {
                return Ok(());
            }
            Err(
                cat5(
                    "static class `",
                    c.name.as_str(),
                    "` cannot declare instance method `",
                    m.name.as_str(),
                    "`; all members must be static",
                ),
            )
        },
        Member::Property(p) => {
            if p.is_static {
                return Ok(());
            }
            Err(
                cat5(
                    "static class `",
                    c.name.as_str(),
                    "` cannot declare instance property `",
                    p.name.as_str(),
                    "`; all members must be static",
                ),
            )
        },
    }
}

fn check_static_class(c: &ClassDecl) -> (r: Result<(), String>)
    ensures
        done(r) == static_class(*c),
{
    if !c.is_static {
        return Ok(());
    }
    if c.bases.len() != 0 {
        return Err(
            cat3(
                "static class `",
                c.name.as_str(),
                "` cannot inherit or implement interfaces",
            ),
        );
    }
    let ghost f = |i: int| static_member(*c, c.members@[i]);
    let ghost n = c.members@.len() as int;
    let mut i: usize = 0;
    while i < c.members.len()
        invariant
            i <= c.members@.len(),
            n == c.members@.len(),
            c.is_static && c.bases@.len() == 0,
            f == (|i: int| static_member(*c, c.members@[i])),
            all_ok(n, 0, f) == all_ok(n, i as int, f),
        decreases c.members.len() - i,
    {
        match check_static_member(c, &c.members[i]) {
            Ok(_) => {},
            Err(e) => return Err(e),
        }
        i = i + 1;
    }
    Ok(())
}

fn constant_type(c: &ClassDecl, f: &FieldDecl, init: &Expr) -> (r: Result<Type, String>)
    ensures
        outcome(r) == constant_ty(*c, *f, *init),
{
    match init {
        Expr::IntLit(v, suffix) => return suffixed_int_type(*suffix, *v),
        Expr::FloatLit(_, _) => return Ok(Type::Float64),
        Expr::Bool(_) => return Ok(Type::Bool),
        Expr::Char(_) => return Ok(Type::Char),
        Expr::String(v) => return Ok(Type::StringLit(v.clone())),
        Expr::Unary(op, inner) => {
            if matches!(op, UnaryOp::Neg) {
                match &**inner {
                    Expr::IntLit(v, suffix) => {
                        if *v == i64::MIN {
                            let shown: String = dec_i64(*v);
                            return Err(
                                cat3("integer literal ", shown.as_str(), " is too small to negate"),
                            );
                        }
                        return suffixed_int_type(*suffix, -*v);
                    },
                    Expr::FloatLit(_, _) => return Ok(Type::Float64),
                    _ => {},
                }
            }
        },
        _ => {},
    }
    Err(
        cat5(
            "static field `",
            c.name.as_str(),
            ".",
            f.name.as_str(),
            "` initializer must be a constant literal",
        ),
    )
}

impl Tables {
    fn check_initializer(&self, c: &ClassDecl, m: &Member) -> (r: Result<(), String>)
        ensures
            done(r) == initializer(self@, *c, *m),
    {
        if let Member::Field(f) = m {
            if let Some(init) = &f.init {
                if !f.is_static {
                    return Err(
                        cat5(
                            "instance field `",
                            c.name.as_str(),
                            ".",
                            f.name.as_str(),
                            "` cannot have an initializer yet; assign it in a constructor",
                        ),
                    );
                }
                let ty: Type = match constant_type(c, f, init) {
                    Ok(t) => t,
                    Err(e) => return Err(e),
                };
                if !self.is_assignable(&f.ty, &ty) {
                    let a: String = f.ty.name();
                    let b: String = ty.name();
                    let base: String = crate::text::cat8(
                        "cannot initialize static field `",
                        c.name.as_str(),
                        ".",
                        f.name.as_str(),
                        "` of type ",
                        a.as_str(),
                        " with ",
                        b.as_str(),
                    );
                    return Err(self.mismatch_error(base, &f.ty, &ty));
                }
            }
        }
        Ok(())
    }

    fn check_initializers(&self, c: &ClassDecl) -> (r: Result<(), String>)
        ensures
            done(r) == all_ok(
                c.members@.len() as int,
                0,
                |i: int| initializer(self@, *c, c.members@[i]),
            ),
    {
        let ghost t = self@;
        let ghost f = |i: int| initializer(t, *c, c.members@[i]);
        let ghost n = c.members@.len() as int;
        let mut i: usize = 0;
        while i < c.members.len()
            invariant
                i <= c.members@.len(),
                n == c.members@.len(),
                t == self@,
                f == (|i: int| initializer(t, *c, c.members@[i])),
                all_ok(n, 0, f) == all_ok(n, i as int, f),
            decreases c.members.len() - i,
        {
            match self.check_initializer(c, &c.members[i]) {
                Ok(_) => {},
                Err(e) => return Err(e),
            }
            i = i + 1;
        }
        Ok(())
    }
}

// ---------------------------------------------------------------------------
// Members
// ---------------------------------------------------------------------------

/// A class with one more field.
pub open spec fn with_field(c: ClassDecl, f: FieldDecl, info: ClassModel) -> Result<
    ClassModel,
    Seq<char>,
> {
    let n = f.name@;
    if c.is_interface {
        Err("interface `"@ + c.name@ + "` cannot declare field `"@ + n + "`"@)
    } else if lookup(info.properties, n) is Some || lookup(info.static_properties, n) is Some {
        Err("`"@ + c.name@ + "` already has a property named `"@ + n + "`"@)
    } else if f.is_static {
        let fields = info.static_fields.push((n, f.ty@));
        Ok(
            match f.visibility {
                Visibility::Protected => ClassModel {
                    static_fields: fields,
                    protected_static_fields: with_name(info.protected_static_fields, n),
                    ..info
                },
                Visibility::Private => ClassModel {
                    static_fields: fields,
                    private_static_fields: with_name(info.private_static_fields, n),
                    ..info
                },
                Visibility::Internal => ClassModel {
                    static_fields: fields,
                    internal_static_fields: with_name(info.internal_static_fields, n),
                    ..info
                },
                Visibility::Public => ClassModel { static_fields: fields, ..info },
            },
        )
    } else {
        let fields = info.instance_fields.push((n, f.ty@));
        Ok(
            match f.visibility {
                Visibility::Protected => ClassModel {
                    instance_fields: fields,
                    protected_fields: with_name(info.protected_fields, n),
                    ..info
                },
                Visibility::Private => ClassModel {
                    instance_fields: fields,
                    private_fields: with_name(info.private_fields, n),
                    ..info
                },
                Visibility::Internal => ClassModel {
                    instance_fields: fields,
                    internal_fields: with_name(info.internal_fields, n),
                    ..info
                },
                Visibility::Public => ClassModel { instance_fields: fields, ..info },
            },
        )
    }
}

/// A class with one more constructor.
pub open spec fn with_constructor(c: ClassDecl, m: MethodDecl, info: ClassModel) -> Result<
    ClassModel,
    Seq<char>,
> {
    if c.is_interface {
        Err("interface `"@ + c.name@ + "` cannot declare a constructor"@)
    } else if m.name@ != c.name@ {
        Err("constructor name `"@ + m.name@ + "` must match class name `"@ + c.name@ + "`"@)
    } else if !(m.return_ty@ is Unit) {
        Err("constructor `"@ + c.name@ + "` cannot have a return type"@)
    } else if info.constructors.contains(param_tys(m.params@)) {
        Err("duplicate constructor for class `"@ + c.name@ + "`"@)
    } else {
        Ok(
            ClassModel {
                constructors: info.constructors.push(param_tys(m.params@)),
                ..info
            },
        )
    }
}

/// Symbols of operators that compare.
pub open spec fn comparing(sym: Seq<char>) -> bool {
    sym == "=="@ || sym == "<"@ || sym == "<="@ || sym == ">"@ || sym == ">="@
}

/// An operator takes the right operand and returns a value; a comparison
/// returns a bool.
pub open spec fn operator_ok(c: ClassDecl, m: MethodDecl) -> Result<(), Seq<char>> {
    match operator_symbol(m.name@) {
        None => Ok(()),
        Some(sym) => if m.params@.len() != 1 {
            Err(
                "`operator"@ + sym + "` on class `"@ + c.name@
                    + "` must take exactly one parameter (the right operand)"@,
            )
        } else if m.return_ty@ is Unit {
            Err("`operator"@ + sym + "` on class `"@ + c.name@ + "` must return a value"@)
        } else if comparing(sym) && !(m.return_ty@ is Bool) {
            Err("`operator"@ + sym + "` on class `"@ + c.name@ + "` must return bool"@)
        } else {
            Ok(())
        },
    }
}

/// `Task<T>`.
pub open spec fn is_task(ty: Ty) -> bool {
    ty matches Ty::Class(n, args) && n == "Task"@ && args.len() == 1
}

/// An async method is static, declares no exceptions and returns a task.
pub open spec fn async_ok(c: ClassDecl, m: MethodDecl) -> Result<(), Seq<char>> {
    if !m.is_async {
        Ok(())
    } else if !m.is_static {
        Err(
            "async method `"@ + c.name@ + "."@ + m.name@
                + "` must be static (instance/virtual async is not supported yet)"@,
        )
    } else if c.is_interface {
        Err("interface `"@ + c.name@ + "` cannot declare async method `"@ + m.name@ + "`"@)
    } else if m.throws@.len() != 0 {
        Err(
            "async method `"@ + c.name@ + "."@ + m.name@
                + "` cannot declare `throws` (task exceptions surface at await/wait sites)"@,
        )
    } else if !is_task(m.return_ty@) {
        Err(
            "async method `"@ + c.name@ + "."@ + m.name@ + "` must return Task<T>, not "@ + ty_name(
                m.return_ty@,
            ),
        )
    } else {
        Ok(())
    }
}

/// The modifiers of a method go together.
pub open spec fn method_ok(c: ClassDecl, m: MethodDecl) -> Result<(), Seq<char>> {
    if c.is_interface && m.is_static {
        Err("interface `"@ + c.name@ + "` cannot declare static method `"@ + m.name@ + "`"@)
    } else if c.is_interface && m.visibility == Visibility::Protected {
        Err("interface `"@ + c.name@ + "` method `"@ + m.name@ + "` cannot be protected"@)
    } else if c.is_interface && m.visibility == Visibility::Private {
        Err("interface `"@ + c.name@ + "` method `"@ + m.name@ + "` cannot be private"@)
    } else if c.is_interface && m.is_final {
        Err("interface `"@ + c.name@ + "` method `"@ + m.name@ + "` cannot be final"@)
    } else if m.is_abstract && !c.is_interface && !c.is_abstract {
        Err(
            "abstract method `"@ + c.name@ + "."@ + m.name@
                + "` must be declared in an abstract class or interface"@,
        )
    } else if m.is_abstract && m.is_static {
        Err("abstract method `"@ + c.name@ + "."@ + m.name@ + "` cannot be static"@)
    } else if m.is_final && m.is_abstract {
        Err("method `"@ + c.name@ + "."@ + m.name@ + "` cannot be both final and abstract"@)
    } else if m.is_final && m.is_virtual {
        Err("method `"@ + c.name@ + "."@ + m.name@ + "` cannot be both final and virtual"@)
    } else {
        match async_ok(c, m) {
            Err(e) => Err(e),
            Ok(_) => operator_ok(c, m),
        }
    }
}

/// What is known of a method. Interface methods without a body are abstract;
/// abstract methods and interface methods are virtual.
pub open spec fn method_model(c: ClassDecl, m: MethodDecl) -> MethodModel {
    let is_abstract = m.is_abstract || (c.is_interface && m.body@.len() == 0);
    MethodModel {
        name: m.name@,
        generics: views(m.generic_params@),
        return_ty: m.return_ty@,
        params: param_tys(m.params@),
        is_instance: !m.is_static,
        visibility: m.visibility,
        is_virtual: !m.is_final && (m.is_virtual || is_abstract || c.is_interface),
        is_override: m.is_override,
        is_abstract,
        is_final: m.is_final,
        throws: texts(m.throws@),
        is_async: m.is_async,
    }
}

/// A class with one more method.
pub open spec fn with_method(c: ClassDecl, m: MethodDecl, info: ClassModel) -> Result<
    ClassModel,
    Seq<char>,
> {
    match method_ok(c, m) {
        Err(e) => Err(e),
        Ok(_) => if m.is_static {
            Ok(
                ClassModel {
                    static_methods: put(info.static_methods, m.name@, method_model(c, m)),
                    ..info
                },
            )
        } else {
            Ok(ClassModel { methods: put(info.methods, m.name@, method_model(c, m)), ..info })
        },
    }
}

/// The names of all members but constructors.
pub open spec fn member_names(info: ClassModel) -> Seq<Seq<char>> {
    keys(info.instance_fields) + keys(info.static_fields) + keys(info.properties) + keys(
        info.static_properties,
    ) + keys(info.methods) + keys(info.static_methods)
}

/// An accessor without a body.
pub open spec fn is_auto(a: Option<Accessor>) -> bool {
    a matches Some(x) && x.kind is Auto
}

/// A class with one more property. Accessors without a body are backed by a
/// generated field.
pub open spec fn with_property(c: ClassDecl, p: PropertyDecl, info: ClassModel) -> Result<
    ClassModel,
    Seq<char>,
> {
    let n = p.name@;
    if c.is_interface {
        Err("interface `"@ + c.name@ + "` cannot declare property `"@ + n + "`"@)
    } else if member_names(info).contains(n) {
        Err("`"@ + c.name@ + "` already has a member named `"@ + n + "`"@)
    } else {
        match accessor_visibility(p.visibility, written_visibility(p.getter)) {
            Err(e) => Err(e),
            Ok(g) => match accessor_visibility(p.visibility, written_visibility(p.setter)) {
                Err(e) => Err(e),
                Ok(s) => {
                    let model = PropertyModel {
                        name: n,
                        ty: p.ty@,
                        visibility: p.visibility,
                        getter_visibility: g,
                        setter_visibility: s,
                        has_getter: p.getter is Some,
                        has_setter: p.setter is Some,
                        is_static: p.is_static,
                    };
                    let backed = is_auto(p.getter) || is_auto(p.setter);
                    let backing = ("__prop_"@ + n, p.ty@);
                    Ok(
                        if p.is_static {
                            ClassModel {
                                static_properties: put(info.static_properties, n, model),
                                static_fields: if backed {
                                    info.static_fields.push(backing)
                                } else {
                                    info.static_fields
                                },
                                ..info
                            }
                        } else {
                            ClassModel {
                                properties: put(info.properties, n, model),
                                instance_fields: if backed {
                                    info.instance_fields.push(backing)
                                } else {
                                    info.instance_fields
                                },
                                ..info
                            }
                        },
                    )
                },
            },
        }
    }
}

/// A class with one more member.
pub open spec fn with_member(c: ClassDecl, m: Member, info: ClassModel) -> Result<
    ClassModel,
    Seq<char>,
> {
    match m {
        Member::Field(f) => with_field(c, f, info),
        Member::Method(m) => if m.is_constructor {
            with_constructor(c, m, info)
        } else {
            with_method(c, m, info)
        },
        Member::Property(p) => with_property(c, p, info),
    }
}

/// A class with the members from `i` on.
pub open spec fn with_members(c: ClassDecl, i: int, info: ClassModel) -> Result<
    ClassModel,
    Seq<char>,
>
    decreases c.members@.len() - i,
{
    if i < 0 || i >= c.members@.len() {
        Ok(info)
    } else {
        match with_member(c, c.members@[i], info) {
            Err(e) => Err(e),
            Ok(next) => with_members(c, i + 1, next),
        }
    }
}

/// A class with the fields of a record from `i` on; none is called as one of
/// `names`.
pub open spec fn with_components(c: ClassDecl, names: Seq<Seq<char>>, i: int, info: ClassModel) -> Result<
    ClassModel,
    Seq<char>,
>
    decreases c.record_params@.len() - i,
{
    if i < 0 || i >= c.record_params@.len() {
        Ok(info)
    } else {
        let p = c.record_params@[i];
        if names.contains(p.name@) {
            Err("record `"@ + c.name@ + "` already has a member named `"@ + p.name@ + "`"@)
        } else {
            with_components(
                c,
                names,
                i + 1,
                ClassModel { instance_fields: info.instance_fields.push((p.name@, p.ty@)), ..info },
            )
        }
    }
}

/// A record has a field for each component and the primary constructor.
pub open spec fn with_record_parts(c: ClassDecl, info: ClassModel) -> Result<ClassModel, Seq<char>> {
    if !c.is_record {
        Ok(info)
    } else {
        match with_components(c, member_names(info), 0, info) {
            Err(e) => Err(e),
            Ok(x) => Ok(
                ClassModel {
                    constructors: x.constructors.push(param_tys(c.record_params@)),
                    ..x
                },
            ),
        }
    }
}

/// A class that declares no constructor has one without parameters.
pub open spec fn with_default_constructor(c: ClassDecl, info: ClassModel) -> ClassModel {
    if !c.is_interface && info.constructors.len() == 0 {
        ClassModel { constructors: seq![seq![]], ..info }
    } else {
        info
    }
}

/// A class without members.
pub open spec fn bare_class(c: ClassDecl) -> ClassModel {
    ClassModel {
        name: c.name@,
        module: c.module@,
        is_static: c.is_static,
        generics: views(c.generic_params@),
        is_interface: c.is_interface,
        is_abstract: c.is_abstract,
        is_sealed: c.is_sealed,
        is_record: c.is_record,
        super_class: None,
        interfaces: seq![],
        interface_args: seq![],
        instance_fields: seq![],
        static_fields: seq![],
        protected_fields: seq![],
        protected_static_fields: seq![],
        private_fields: seq![],
        private_static_fields: seq![],
        internal_fields: seq![],
        internal_static_fields: seq![],
        methods: seq![],
        static_methods: seq![],
        constructors: seq![],
        properties: seq![],
        static_properties: seq![],
    }
}

/// What is known of a class from its declaration alone.
pub open spec fn class_model(t: TableModel, c: ClassDecl) -> Result<ClassModel, Seq<char>> {
    if lookup(t.classes, c.name@) is Some {
        Err("duplicate class `"@ + c.name@ + "`"@)
    } else if lookup(t.newtypes, c.name@) is Some {
        Err("class `"@ + c.name@ + "` conflicts with a newtype of the same name"@)
    } else {
        match static_class(c) {
            Err(e) => Err(e),
            Ok(_) => match all_ok(
                c.members@.len() as int,
                0,
                |i: int| initializer(t, c, c.members@[i]),
            ) {
                Err(e) => Err(e),
                Ok(_) => if lookup(t.enums, c.name@) is Some {
                    Err("`"@ + c.name@ + "` is already defined as an enum"@)
                } else if c.is_abstract && c.is_interface {
                    Err("`"@ + c.name@ + "` cannot be both abstract and an interface"@)
                } else if c.is_abstract && c.is_sealed {
                    Err("`"@ + c.name@ + "` cannot be both abstract and sealed"@)
                } else {
                    match with_members(c, 0, bare_class(c)) {
                        Err(e) => Err(e),
                        Ok(x) => match with_record_parts(c, x) {
                            Err(e) => Err(e),
                            Ok(y) => Ok(with_default_constructor(c, y)),
                        },
                    }
                },
            },
        }
    }
}

fn push_entry(v: &mut Vec<(String, Type)>, name: String, ty: Type)
    ensures
        entries(final(v)@) == entries(old(v)@).push((name@, ty@)),
{
    let ghost before = entries(v@);
    v.push((name, ty));
    assert(entries(v@) =~= before.push((name@, ty@)));
}

fn add_name(v: &mut Vec<String>, name: &str)
    ensures
        texts(final(v)@) == with_name(texts(old(v)@), name@),
{
    if !has_text(v, name) {
        let ghost before = texts(v@);
        v.push(own(name));
        assert(texts(v@) =~= before.push(name@));
    }
}

fn push_constructor(v: &mut Vec<ConstructorInfo>, params: Vec<Type>)
    ensures
        views(final(v)@) == views(old(v)@).push(tys(params@)),
{
    let ghost before = views(v@);
    v.push(ConstructorInfo { params });
    assert(views(v@) =~= before.push(tys(params@)));
}

/// The types of parameters.
pub fn types_of_params(ps: &Vec<Param>) -> (r: Vec<Type>)
    ensures
        tys(r@) == param_tys(ps@),
{
    let mut out: Vec<Type> = Vec::new();
    let mut i: usize = 0;
    while i < ps.len()
        invariant
            i <= ps@.len(),
            out@.len() == i,
            forall|j: int| 0 <= j < i ==> (#[trigger] out@[j])@ == ps@[j].ty@,
        decreases ps.len() - i,
    {
        out.push(ps[i].ty.clone());
        i = i + 1;
    }
    assert(tys(out@) =~= param_tys(ps@));
    out
}

fn add_field(c: &ClassDecl, f: &FieldDecl, info: &mut ClassInfo) -> (r: Result<(), String>)
    ensures
        grown(r, final(info)@) == with_field(*c, *f, old(info)@),
{
    if c.is_interface {
        return Err(
            cat5(
                "interface `",
                c.name.as_str(),
                "` cannot declare field `",
                f.name.as_str(),
                "`",
            ),
        );
    }
    if holds(&info.properties, f.name.as_str()) || holds(&info.static_properties, f.name.as_str()) {
        return Err(
            cat5(
                "`",
                c.name.as_str(),
                "` already has a property named `",
                f.name.as_str(),
                "`",
            ),
        );
    }
    if f.is_static {
        match f.visibility {
            Visibility::Protected => add_name(&mut info.protected_static_fields, f.name.as_str()),
            Visibility::Private => add_name(&mut info.private_static_fields, f.name.as_str()),
            Visibility::Internal => add_name(&mut info.internal_static_fields, f.name.as_str()),
            Visibility::Public => {},
        }
        push_entry(&mut info.static_fields, f.name.clone(), f.ty.clone());
    } else {
        match f.visibility {
            Visibility::Protected => add_name(&mut info.protected_fields, f.name.as_str()),
            Visibility::Private => add_name(&mut info.private_fields, f.name.as_str()),
            Visibility::Internal => add_name(&mut info.internal_fields, f.name.as_str()),
            Visibility::Public => {},
        }
        push_entry(&mut info.instance_fields, f.name.clone(), f.ty.clone());
    }
    Ok(())
}

fn has_constructor(cs: &Vec<ConstructorInfo>, params: &Vec<Type>) -> (r: bool)
    ensures
        r == views(cs@).contains(tys(params@)),
{
    let mut i: usize = 0;
    while i < cs.len()
        invariant
            i <= cs@.len(),
            forall|j: int| 0 <= j < i ==> (#[trigger] views(cs@)[j]) != tys(params@),
        decreases cs.len() - i,
    {
        if same_tys(&cs[i].params, params) {
            assert(views(cs@)[i as int] == tys(params@));
            return true;
        }
        i = i + 1;
    }
    false
}

fn add_constructor(c: &ClassDecl, m: &MethodDecl, info: &mut ClassInfo) -> (r: Result<(), String>)
    ensures
        grown(r, final(info)@) == with_constructor(*c, *m, old(info)@),
{
    if c.is_interface {
        return Err(cat3("interface `", c.name.as_str(), "` cannot declare a constructor"));
    }
    if !same(m.name.as_str(), c.name.as_str()) {
        return Err(
            cat5(
                "constructor name `",
                m.name.as_str(),
                "` must match class name `",
                c.name.as_str(),
                "`",
            ),
        );
    }
    if !matches!(&m.return_ty, Type::Unit) {
        return Err(cat3("constructor `", c.name.as_str(), "` cannot have a return type"));
    }
    let params: Vec<Type> = types_of_params(&m.params);
    if has_constructor(&info.constructors, &params) {
        return Err(cat3("duplicate constructor for class `", c.name.as_str(), "`"));
    }
    push_constructor(&mut info.constructors, params);
    Ok(())
}

fn check_operator(c: &ClassDecl, m: &MethodDecl) -> (r: Result<(), String>)
    ensures
        done(r) == operator_ok(*c, *m),
{
    match operator_symbol_of(m.name.as_str()) {
        None => Ok(()),
        Some(sym) => {
            proof {
                operator_symbol_unique(m.name@, sym@);
            }
            if m.params.len() != 1 {
                return Err(
                    cat5(
                        "`operator",
                        sym,
                        "` on class `",
                        c.name.as_str(),
                        "` must take exactly one parameter (the right operand)",
                    ),
                );
            }
            if matches!(&m.return_ty, Type::Unit) {
                return Err(
                    cat5(
                        "`operator",
                        sym,
                        "` on class `",
                        c.name.as_str(),
                        "` must return a value",
                    ),
                );
            }
            let compares: bool = same(sym, "==") || same(sym, "<") || same(sym, "<=") || same(
                sym,
                ">",
            ) || same(sym, ">=");
            if compares && !matches!(&m.return_ty, Type::Bool) {
                return Err(
                    cat5(
                        "`operator",
                        sym,
                        "` on class `",
                        c.name.as_str(),
                        "` must return bool",
                    ),
                );
            }
            Ok(())
        },
    }
}

/// Whether a type is `Task<T>`.
pub fn returns_task(ty: &Type) -> (r: bool)
    ensures
        r == is_task(ty@),
{
    match ty {
        Type::Class(n, args) => {
            assert(tys(args@).len() == args@.len());
            same(n.as_str(), "Task") && args.len() == 1
        },
        _ => false,
    }
}

fn check_async(c: &ClassDecl, m: &MethodDecl) -> (r: Result<(), String>)
    ensures
        done(r) == async_ok(*c, *m),
{
    if !m.is_async {
        return Ok(());
    }
    let cn: &str = c.name.as_str();
    let mn: &str = m.name.as_str();
    if !m.is_static {
        return Err(
            cat5(
                "async method `",
                cn,
                ".",
                mn,
                "` must be static (instance/virtual async is not supported yet)",
            ),
        );
    }
    if c.is_interface {
        return Err(cat5("interface `", cn, "` cannot declare async method `", mn, "`"));
    }
    if m.throws.len() != 0 {
        return Err(
            cat5(
                "async method `",
                cn,
                ".",
                mn,
                "` cannot declare `throws` (task exceptions surface at await/wait sites)",
            ),
        );
    }
    if !returns_task(&m.return_ty) {
        let shown: String = m.return_ty.name();
        return Err(
            crate::text::cat6(
                "async method `",
                cn,
                ".",
                mn,
                "` must return Task<T>, not ",
                shown.as_str(),
            ),
        );
    }
    Ok(())
}

fn check_method(c: &ClassDecl, m: &MethodDecl) -> (r: Result<(), String>)
    ensures
        done(r) == method_ok(*c, *m),
{
    let cn: &str = c.name.as_str();
    let mn: &str = m.name.as_str();
    if c.is_interface && m.is_static {
        return Err(cat5("interface `", cn, "` cannot declare static method `", mn, "`"));
    }
    if c.is_interface && matches!(m.visibility, Visibility::Protected) {
        return Err(cat5("interface `", cn, "` method `", mn, "` cannot be protected"));
    }
    if c.is_interface && matches!(m.visibility, Visibility::Private) {
        return Err(cat5("interface `", cn, "` method `", mn, "` cannot be private"));
    }
    if c.is_interface && m.is_final {
        return Err(cat5("interface `", cn, "` method `", mn, "` cannot be final"));
    }
    if m.is_abstract && !c.is_interface && !c.is_abstract {
        return Err(
            cat5(
                "abstract method `",
                cn,
                ".",
                mn,
                "` must be declared in an abstract class or interface",
            ),
        );
    }
    if m.is_abstract && m.is_static {
        return Err(cat5("abstract method `", cn, ".", mn, "` cannot be static"));
    }
    if m.is_final && m.is_abstract {
        return Err(cat5("method `", cn, ".", mn, "` cannot be both final and abstract"));
    }
    if m.is_final && m.is_virtual {
        return Err(cat5("method `", cn, ".", mn, "` cannot be both final and virtual"));
    }
    match check_async(c, m) {
        Ok(_) => check_operator(c, m),
        Err(e) => Err(e),
    }
}

fn add_method(c: &ClassDecl, m: &MethodDecl, info: &mut ClassInfo) -> (r: Result<(), String>)
    ensures
        grown(r, final(info)@) == with_method(*c, *m, old(info)@),
{
    match check_method(c, m) {
        Ok(_) => {},
        Err(e) => return Err(e),
    }
    let is_abstract: bool = m.is_abstract || (c.is_interface && m.body.len() == 0);
    let mi: MethodInfo = MethodInfo {
        name: m.name.clone(),
        generic_params: clone_params(&m.generic_params),
        return_ty: m.return_ty.clone(),
        params: types_of_params(&m.params),
        is_instance: !m.is_static,
        visibility: m.visibility,
        is_virtual: !m.is_final && (m.is_virtual || is_abstract || c.is_interface),
        is_override: m.is_override,
        is_abstract,
        is_final: m.is_final,
        throws: clone_texts(&m.throws),
        is_async: m.is_async,
    };
    assert(mi@ == method_model(*c, *m));
    if m.is_static {
        insert(&mut info.static_methods, m.name.as_str(), mi);
    } else {
        insert(&mut info.methods, m.name.as_str(), mi);
    }
    Ok(())
}

/// The names of all members but constructors.
fn names_of_members(info: &ClassInfo) -> (r: Vec<String>)
    ensures
        texts(r@) == member_names(info@),
{
    let mut out: Vec<String> = Vec::new();
    assert(texts(out@) =~= seq![]);
    push_keys(&mut out, &info.instance_fields);
    assert(texts(out@) =~= keys(info@.instance_fields));
    push_keys(&mut out, &info.static_fields);
    push_keys(&mut out, &info.properties);
    push_keys(&mut out, &info.static_properties);
    push_keys(&mut out, &info.methods);
    push_keys(&mut out, &info.static_methods);
    out
}

fn has_auto(a: &Option<Accessor>) -> (r: bool)
    ensures
        r == is_auto(*a),
{
    match a {
        Some(x) => matches!(&x.kind, AccessorKind::Auto),
        None => false,
    }
}

fn add_property(c: &ClassDecl, p: &PropertyDecl, info: &mut ClassInfo) -> (r: Result<(), String>)
    ensures
        grown(r, final(info)@) == with_property(*c, *p, old(info)@),
{
    if c.is_interface {
        return Err(
            cat5(
                "interface `",
                c.name.as_str(),
                "` cannot declare property `",
                p.name.as_str(),
                "`",
            ),
        );
    }
    let names: Vec<String> = names_of_members(info);
    if has_text(&names, p.name.as_str()) {
        return Err(
            cat5(
                "`",
                c.name.as_str(),
                "` already has a member named `",
                p.name.as_str(),
                "`",
            ),
        );
    }
    let getter_visibility: Visibility = match effective_accessor_visibility(
        p.visibility,
        &p.getter,
    ) {
        Ok(v) => v,
        Err(e) => return Err(e),
    };
    let setter_visibility: Visibility = match effective_accessor_visibility(
        p.visibility,
        &p.setter,
    ) {
        Ok(v) => v,
        Err(e) => return Err(e),
    };
    let pi: PropertyInfo = PropertyInfo {
        name: p.name.clone(),
        ty: p.ty.clone(),
        visibility: p.visibility,
        getter_visibility,
        setter_visibility,
        has_getter: p.getter.is_some(),
        has_setter: p.setter.is_some(),
        is_static: p.is_static,
    };
    let backed: bool = has_auto(&p.getter) || has_auto(&p.setter);
    let backing: String = cat2("__prop_", p.name.as_str());
    if p.is_static {
        insert(&mut info.static_properties, p.name.as_str(), pi);
        if backed {
            push_entry(&mut info.static_fields, backing, p.ty.clone());
        }
    } else {
        insert(&mut info.properties, p.name.as_str(), pi);
        if backed {
            push_entry(&mut info.instance_fields, backing, p.ty.clone());
        }
    }
    Ok(())
}

fn add_member(c: &ClassDecl, m: &Member, info: &mut ClassInfo) -> (r: Result<(), String>)
    ensures
        grown(r, final(info)@) == with_member(*c, *m, old(info)@),
{
    match m {
        Member::Field(f) => add_field(c, f, info),
        Member::Method(m) => if m.is_constructor {
            add_constructor(c, m, info)
        } else {
            add_method(c, m, info)
        },
        Member::Property(p) => add_property(c, p, info),
    }
}

fn add_members(c: &ClassDecl, info: &mut ClassInfo) -> (r: Result<(), String>)
    ensures
        grown(r, final(info)@) == with_members(*c, 0, old(info)@),
{
    let ghost want = with_members(*c, 0, info@);
    let mut i: usize = 0;
    while i < c.members.len()
        invariant
            i <= c.members@.len(),
            want == with_members(*c, 0, old(info)@),
            want == with_members(*c, i as int, info@),
        decreases c.members.len() - i,
    {
        match add_member(c, &c.members[i], info) {
            Ok(_) => {},
            Err(e) => return Err(e),
        }
        i = i + 1;
    }
    Ok(())
}

fn add_record_parts(c: &ClassDecl, info: &mut ClassInfo) -> (r: Result<(), String>)
    ensures
        grown(r, final(info)@) == with_record_parts(*c, old(info)@),
{
    if !c.is_record {
        return Ok(());
    }
    let names: Vec<String> = names_of_members(info);
    let ghost want = with_components(*c, texts(names@), 0, info@);
    let mut i: usize = 0;
    while i < c.record_params.len()
        invariant
            i <= c.record_params@.len(),
            c.is_record,
            texts(names@) == member_names(old(info)@),
            want == with_components(*c, texts(names@), 0, old(info)@),
            want == with_components(*c, texts(names@), i as int, info@),
        decreases c.record_params.len() - i,
    {
        let p: &Param = &c.record_params[i];
        if has_text(&names, p.name.as_str()) {
            return Err(
                cat5(
                    "record `",
                    c.name.as_str(),
                    "` already has a member named `",
                    p.name.as_str(),
                    "`",
                ),
            );
        }
        push_entry(&mut info.instance_fields, p.name.clone(), p.ty.clone());
        i = i + 1;
    }
    push_constructor(&mut info.constructors, types_of_params(&c.record_params));
    Ok(())
}

fn empty_info(c: &ClassDecl) -> (r: ClassInfo)
    ensures
        r@ == bare_class(*c),
{
    let r: ClassInfo = ClassInfo {
        name: c.name.clone(),
        module: c.module.clone(),
        is_static: c.is_static,
        generic_params: clone_params(&c.generic_params),
        is_interface: c.is_interface,
        is_abstract: c.is_abstract,
        is_sealed: c.is_sealed,
        is_record: c.is_record,
        super_class: None,
        interfaces: Vec::new(),
        interface_args: Vec::new(),
        instance_fields: Vec::new(),
        static_fields: Vec::new(),
        protected_fields: Vec::new(),
        protected_static_fields: Vec::new(),
        private_fields: Vec::new(),
        private_static_fields: Vec::new(),
        internal_fields: Vec::new(),
        internal_static_fields: Vec::new(),
        methods: Vec::new(),
        static_methods: Vec::new(),
        constructors: Vec::new(),
        properties: Vec::new(),
        static_properties: Vec::new(),
    };
    assert(r@ =~= bare_class(*c));
    r
}

/// A class or an error, by value.
pub open spec fn class_outcome(r: Result<ClassInfo, String>) -> Result<ClassModel, Seq<char>> {
    match r {
        Ok(c) => Ok(c@),
        Err(e) => Err(e@),
    }
}

impl Tables {
    /// What is known of a class from its declaration alone.
    pub fn gather_class(&self, c: &ClassDecl) -> (r: Result<ClassInfo, String>)
        ensures
            class_outcome(r) == class_model(self@, *c),
    {
        let cn: &str = c.name.as_str();
        if holds(&self.classes, cn) {
            return Err(cat3("duplicate class `", cn, "`"));
        }
        if holds(&self.newtypes, cn) {
            return Err(cat3("class `", cn, "` conflicts with a newtype of the same name"));
        }
        match check_static_class(c) {
            Ok(_) => {},
            Err(e) => return Err(e),
        }
        match self.check_initializers(c) {
            Ok(_) => {},
            Err(e) => return Err(e),
        }
        if holds(&self.enums, cn) {
            return Err(cat3("`", cn, "` is already defined as an enum"));
        }
        if c.is_abstract && c.is_interface {
            return Err(cat3("`", cn, "` cannot be both abstract and an interface"));
        }
        if c.is_abstract && c.is_sealed {
            return Err(cat3("`", cn, "` cannot be both abstract and sealed"));
        }
        let mut info: ClassInfo = empty_info(c);
        match add_members(c, &mut info) {
            Ok(_) => {},
            Err(e) => return Err(e),
        }
        match add_record_parts(c, &mut info) {
            Ok(_) => {},
            Err(e) => return Err(e),
        }
        assert(info@.constructors.len() == info.constructors@.len());
        if !c.is_interface && info.constructors.len() == 0 {
            let none: Vec<Type> = Vec::new();
            assert(tys(none@) =~= seq![]);
            push_constructor(&mut info.constructors, none);
            assert(info@.constructors =~= seq![seq![]]);
        }
        Ok(info)
    }
}

} // verus!
