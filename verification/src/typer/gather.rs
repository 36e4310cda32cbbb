//! Gathering the declarations of a program: what is built in, newtypes, classes
//! and enums, the class hierarchy, and extensions.

use crate::text::{cat3, cat5, cat7, cat8, dec, dec_u64, own, same};
use crate::typer::ast::{
    clone_params, clone_tys, has_text, texts, tys, views, ClassDecl, Decl, EnumDecl, GenericParam,
    NewtypeDecl, Param, ParamModel, Ty, Type, Variance, VariantDecl, Visibility,
};
use crate::typer::hierarchy::{found, place_entry, supers, unseen, unseen_pushed};
use crate::typer::info::{
    opt_text, BuiltinClass, BuiltinMethod, ClassInfo, ClassModel, ConstructorInfo, EnumInfo,
    EnumModel, IntrinsicClass, IntrinsicMethod, IntrinsicProperty, MethodInfo, MethodModel,
    PropertyInfo, PropertyModel, TableModel, Tables, TypeArgs, VariantInfo, VariantModel,
};
use crate::typer::keyed::{entries, find, find_place, holds, insert, lookup, place, put};
use crate::typer::members::{all_ok, class_model};
use crate::typer::rules::{done, valid};
use vstd::prelude::*;

verus! {

/// Tables as far as they were filled, or an error.
pub open spec fn filled(r: Result<(), String>, t: TableModel) -> Result<TableModel, Seq<char>> {
    match r {
        Ok(_) => Ok(t),
        Err(e) => Err(e@),
    }
}

// ---------------------------------------------------------------------------
// What is built in
// ---------------------------------------------------------------------------

/// An invariant type parameter without bounds.
pub open spec fn plain_param(name: Seq<char>) -> ParamModel {
    ParamModel {
        name,
        variance: Variance::Invariant,
        bounds: seq![],
        alternatives: seq![],
        requires_new: false,
    }
}

/// Invariant type parameters without bounds.
pub open spec fn plain_params(names: Seq<Seq<char>>) -> Seq<ParamModel> {
    Seq::new(names.len(), |i: int| plain_param(names[i]))
}

/// A built-in method is public and final.
pub open spec fn builtin_method(m: BuiltinMethod, is_instance: bool) -> MethodModel {
    MethodModel {
        name: m.name,
        generics: plain_params(m.generics),
        return_ty: m.return_ty,
        params: m.params,
        is_instance,
        visibility: Visibility::Public,
        is_virtual: false,
        is_override: false,
        is_abstract: false,
        is_final: true,
        throws: seq![],
        is_async: false,
    }
}

/// The first `n` built-in methods by name.
pub open spec fn builtin_methods(ms: Seq<BuiltinMethod>, is_instance: bool, n: int) -> Seq<
    (Seq<char>, MethodModel),
>
    decreases n,
{
    if n <= 0 {
        seq![]
    } else {
        put(
            builtin_methods(ms, is_instance, n - 1),
            ms[n - 1].name,
            builtin_method(ms[n - 1], is_instance),
        )
    }
}

/// A built-in property can be read by everybody, and not written.
pub open spec fn builtin_property(name: Seq<char>, ty: Ty) -> PropertyModel {
    PropertyModel {
        name,
        ty,
        visibility: Visibility::Public,
        getter_visibility: Visibility::Public,
        setter_visibility: Visibility::Public,
        has_getter: true,
        has_setter: false,
        is_static: false,
    }
}

/// The first `n` built-in properties by name.
pub open spec fn builtin_properties(ps: Seq<(Seq<char>, Ty)>, n: int) -> Seq<
    (Seq<char>, PropertyModel),
>
    decreases n,
{
    if n <= 0 {
        seq![]
    } else {
        put(
            builtin_properties(ps, n - 1),
            ps[n - 1].0,
            builtin_property(ps[n - 1].0, ps[n - 1].1),
        )
    }
}

/// A built-in class is sealed; it is abstract if it cannot be constructed.
pub open spec fn builtin_class(b: BuiltinClass) -> ClassModel {
    ClassModel {
        name: b.name,
        module: seq![],
        is_static: false,
        generics: plain_params(b.generics),
        is_interface: false,
        is_abstract: !b.has_constructor,
        is_sealed: true,
        is_record: false,
        super_class: None,
        interfaces: seq![],
        interface_args: seq![],
        instance_fields: seq![],
        static_fields: seq![],
        protected_fields: seq![],
        protected_static_fields: seq![],
        private_fields: seq![],
        private_static_fields: seq![],
        internal_fields: seq![],
        internal_static_fields: seq![],
        methods: builtin_methods(b.methods, true, b.methods.len() as int),
        static_methods: builtin_methods(b.static_methods, false, b.static_methods.len() as int),
        constructors: if b.has_constructor {
            seq![b.constructor_params]
        } else {
            seq![]
        },
        properties: builtin_properties(b.properties, b.properties.len() as int),
        static_properties: seq![],
    }
}

/// Classes with the first `n` built-in ones.
pub open spec fn with_builtins(
    cs: Seq<(Seq<char>, ClassModel)>,
    bs: Seq<BuiltinClass>,
    n: int,
) -> Seq<(Seq<char>, ClassModel)>
    decreases n,
{
    if n <= 0 {
        cs
    } else {
        put(with_builtins(cs, bs, n - 1), bs[n - 1].name, builtin_class(bs[n - 1]))
    }
}

fn params_from(names: &Vec<String>) -> (r: Vec<GenericParam>)
    ensures
        views(r@) == plain_params(texts(names@)),
{
    let mut out: Vec<GenericParam> = Vec::new();
    let mut i: usize = 0;
    while i < names.len()
        invariant
            i <= names@.len(),
            out@.len() == i,
            forall|j: int| 0 <= j < i ==> (#[trigger] out@[j])@ == plain_param(names@[j]@),
        decreases names.len() - i,
    {
        let p: GenericParam = GenericParam {
            name: names[i].clone(),
            variance: Variance::Invariant,
            bounds: Vec::new(),
            alternatives: Vec::new(),
            requires_new: false,
        };
        assert(p@.bounds =~= seq![]);
        assert(p@.alternatives =~= seq![]);
        out.push(p);
        i = i + 1;
    }
    assert(views(out@) =~= plain_params(texts(names@)));
    out
}

fn methods_from(ms: &Vec<IntrinsicMethod>, is_instance: bool) -> (r: Vec<(String, MethodInfo)>)
    ensures
        entries(r@) == builtin_methods(views(ms@), is_instance, ms@.len() as int),
{
    let mut out: Vec<(String, MethodInfo)> = Vec::new();
    assert(entries(out@) =~= seq![]);
    let mut i: usize = 0;
    while i < ms.len()
        invariant
            i <= ms@.len(),
            entries(out@) == builtin_methods(views(ms@), is_instance, i as int),
        decreases ms.len() - i,
    {
        let m: &IntrinsicMethod = &ms[i];
        let mi: MethodInfo = MethodInfo {
            name: m.name.clone(),
            generic_params: params_from(&m.generic_params),
            return_ty: m.return_ty.clone(),
            params: clone_tys(&m.params),
            is_instance,
            visibility: Visibility::Public,
            is_virtual: false,
            is_override: false,
            is_abstract: false,
            is_final: true,
            throws: Vec::new(),
            is_async: false,
        };
        assert(mi@.throws =~= seq![]);
        assert(mi@ == builtin_method(views(ms@)[i as int], is_instance));
        insert(&mut out, m.name.as_str(), mi);
        i = i + 1;
    }
    out
}

fn properties_from(ps: &Vec<IntrinsicProperty>) -> (r: Vec<(String, PropertyInfo)>)
    ensures
        entries(r@) == builtin_properties(views(ps@), ps@.len() as int),
{
    let mut out: Vec<(String, PropertyInfo)> = Vec::new();
    assert(entries(out@) =~= seq![]);
    let mut i: usize = 0;
    while i < ps.len()
        invariant
            i <= ps@.len(),
            entries(out@) == builtin_properties(views(ps@), i as int),
        decreases ps.len() - i,
    {
        let p: &IntrinsicProperty = &ps[i];
        let pi: PropertyInfo = PropertyInfo {
            name: p.name.clone(),
            ty: p.ty.clone(),
            visibility: Visibility::Public,
            getter_visibility: Visibility::Public,
            setter_visibility: Visibility::Public,
            has_getter: true,
            has_setter: false,
            is_static: false,
        };
        assert(views(ps@)[i as int] == (p.name@, p.ty@));
        insert(&mut out, p.name.as_str(), pi);
        i = i + 1;
    }
    out
}

fn class_from(b: &IntrinsicClass) -> (r: ClassInfo)
    ensures
        r@ == builtin_class(b@),
{
    let mut constructors: Vec<ConstructorInfo> = Vec::new();
    if b.has_constructor {
        constructors.push(ConstructorInfo { params: clone_tys(&b.constructor_params) });
    }
    assert(views(constructors@) =~= builtin_class(b@).constructors);
    let r: ClassInfo = ClassInfo {
        name: b.name.clone(),
        module: String::new(),
        is_static: false,
        generic_params: params_from(&b.generic_params),
        is_interface: false,
        is_abstract: !b.has_constructor,
        is_sealed: true,
        is_record: false,
        super_class: None,
        interfaces: Vec::new(),
        interface_args: Vec::new(),
        instance_fields: Vec::new(),
        static_fields: Vec::new(),
        protected_fields: Vec::new(),
        protected_static_fields: Vec::new(),
        private_fields: Vec::new(),
        private_static_fields: Vec::new(),
        internal_fields: Vec::new(),
        internal_static_fields: Vec::new(),
        methods: methods_from(&b.methods, true),
        static_methods: methods_from(&b.static_methods, false),
        constructors,
        properties: properties_from(&b.properties),
        static_properties: Vec::new(),
    };
    assert(b@.methods.len() == b.methods@.len());
    assert(b@.static_methods.len() == b.static_methods@.len());
    assert(b@.properties.len() == b.properties@.len());
    assert(r@ =~= builtin_class(b@));
    r
}

impl Tables {
    /// Register the stdlib intrinsic classes as ordinary [`ClassInfo`] entries so
    /// method lookup, generic substitution and overload checking reuse the existing
    /// machinery. A user declaration reusing one of these names reports a
    /// duplicate-class error.
    pub fn inject_intrinsics(&mut self)
        ensures
            final(self)@ == (TableModel {
                classes: with_builtins(
                    old(self)@.classes,
                    old(self)@.builtins,
                    old(self)@.builtins.len() as int,
                ),
                ..old(self)@
            }),
    {
        let mut i: usize = 0;
        let ghost t = self@;
        assert(t.builtins.len() == self.intrinsics.classes@.len());
        while i < self.intrinsics.classes.len()
            invariant
                i <= self.intrinsics.classes@.len(),
                t.builtins == views(self.intrinsics.classes@),
                self@ == (TableModel {
                    classes: with_builtins(t.classes, t.builtins, i as int),
                    ..t
                }),
            decreases self.intrinsics.classes.len() - i,
        {
            let b: &IntrinsicClass = &self.intrinsics.classes[i];
            assert(t.builtins[i as int] == b@);
            let info: ClassInfo = class_from(b);
            let name: String = b.name.clone();
            insert(&mut self.classes, name.as_str(), info);
            i = i + 1;
        }
    }
}

// ---------------------------------------------------------------------------
// Newtypes, classes and enums
// ---------------------------------------------------------------------------

/// Tables with one more newtype.
pub open spec fn with_newtype(t: TableModel, n: NewtypeDecl) -> Result<TableModel, Seq<char>> {
    if lookup(t.newtypes, n.name@) is Some {
        Err("duplicate newtype `"@ + n.name@ + "`"@)
    } else if lookup(t.classes, n.name@) is Some {
        Err("newtype `"@ + n.name@ + "` conflicts with a class of the same name"@)
    } else if lookup(t.enums, n.name@) is Some {
        Err("newtype `"@ + n.name@ + "` conflicts with an enum of the same name"@)
    } else {
        Ok(TableModel { newtypes: put(t.newtypes, n.name@, n.underlying@), ..t })
    }
}

/// Tables with the newtypes among the declarations from `i` on.
pub open spec fn with_newtypes(t: TableModel, ds: Seq<Decl>, i: int) -> Result<TableModel, Seq<char>>
    decreases ds.len() - i,
{
    if i < 0 || i >= ds.len() {
        Ok(t)
    } else {
        match ds[i] {
            Decl::Newtype(n) => match with_newtype(t, n) {
                Err(e) => Err(e),
                Ok(next) => with_newtypes(next, ds, i + 1),
            },
            _ => with_newtypes(t, ds, i + 1),
        }
    }
}

/// The fields of a variant by name.
pub open spec fn named_params(ps: Seq<Param>) -> Seq<(Seq<char>, Ty)> {
    Seq::new(ps.len(), |i: int| (ps[i].name@, ps[i].ty@))
}

/// A variant by value.
pub open spec fn variant_model(v: VariantDecl) -> VariantModel {
    VariantModel { name: v.name@, fields: named_params(v.fields@) }
}

/// The types of the fields of a variant are valid.
pub open spec fn variant_valid(t: TableModel, e: EnumDecl, v: VariantDecl) -> Result<
    (),
    Seq<char>,
> {
    all_ok(
        v.fields@.len() as int,
        0,
        |j: int| valid(t, v.fields@[j].ty@, views(e.generic_params@)),
    )
}

/// What is known of an enum.
pub open spec fn enum_model(t: TableModel, e: EnumDecl) -> Result<EnumModel, Seq<char>> {
    if lookup(t.enums, e.name@) is Some {
        Err("duplicate enum `"@ + e.name@ + "`"@)
    } else if lookup(t.classes, e.name@) is Some {
        Err("`"@ + e.name@ + "` is already defined as a class"@)
    } else if lookup(t.newtypes, e.name@) is Some {
        Err("newtype `"@ + e.name@ + "` conflicts with an enum of the same name"@)
    } else {
        match all_ok(
            e.variants@.len() as int,
            0,
            |i: int| variant_valid(t, e, e.variants@[i]),
        ) {
            Err(m) => Err(m),
            Ok(_) => Ok(
                EnumModel {
                    name: e.name@,
                    generics: views(e.generic_params@),
                    variants: Seq::new(e.variants@.len(), |i: int| variant_model(e.variants@[i])),
                },
            ),
        }
    }
}

/// Tables with one more class or enum.
pub open spec fn with_decl(t: TableModel, d: Decl) -> Result<TableModel, Seq<char>> {
    match d {
        Decl::Class(c) => match class_model(t, c) {
            Err(m) => Err(m),
            Ok(info) => Ok(TableModel { classes: put(t.classes, c.name@, info), ..t }),
        },
        Decl::Enum(e) => match enum_model(t, e) {
            Err(m) => Err(m),
            Ok(info) => Ok(TableModel { enums: put(t.enums, e.name@, info), ..t }),
        },
        _ => Ok(t),
    }
}

/// Tables with the classes and enums among the declarations from `i` on.
pub open spec fn with_decls(t: TableModel, ds: Seq<Decl>, i: int) -> Result<TableModel, Seq<char>>
    decreases ds.len() - i,
{
    if i < 0 || i >= ds.len() {
        Ok(t)
    } else {
        match with_decl(t, ds[i]) {
            Err(e) => Err(e),
            Ok(next) => with_decls(next, ds, i + 1),
        }
    }
}

fn fields_of_variant(ps: &Vec<Param>) -> (r: Vec<(String, Type)>)
    ensures
        entries(r@) == named_params(ps@),
{
    let mut out: Vec<(String, Type)> = Vec::new();
    let mut i: usize = 0;
    while i < ps.len()
        invariant
            i <= ps@.len(),
            out@.len() == i,
            forall|j: int|
                0 <= j < i ==> (#[trigger] out@[j]).0@ == ps@[j].name@ && out@[j].1@ == ps@[j].ty@,
        decreases ps.len() - i,
    {
        out.push((ps[i].name.clone(), ps[i].ty.clone()));
        i = i + 1;
    }
    assert(entries(out@) =~= named_params(ps@));
    out
}

/// An enum or an error, by value.
pub open spec fn enum_outcome(r: Result<EnumInfo, String>) -> Result<EnumModel, Seq<char>> {
    match r {
        Ok(e) => Ok(e@),
        Err(m) => Err(m@),
    }
}

impl Tables {
    fn add_newtype(&mut self, n: &NewtypeDecl) -> (r: Result<(), String>)
        ensures
            filled(r, final(self)@) == with_newtype(old(self)@, *n),
    {
        let name: &str = n.name.as_str();
        if holds(&self.newtypes, name) {
            return Err(cat3("duplicate newtype `", name, "`"));
        }
        if holds(&self.classes, name) {
            return Err(cat3("newtype `", name, "` conflicts with a class of the same name"));
        }
        if holds(&self.enums, name) {
            return Err(cat3("newtype `", name, "` conflicts with an enum of the same name"));
        }
        insert(&mut self.newtypes, name, n.underlying.clone());
        Ok(())
    }

    pub(crate) fn add_newtypes(&mut self, ds: &Vec<Decl>) -> (r: Result<(), String>)
        ensures
            filled(r, final(self)@) == with_newtypes(old(self)@, ds@, 0),
    {
        let ghost want = with_newtypes(self@, ds@, 0);
        let mut i: usize = 0;
        while i < ds.len()
            invariant
                i <= ds@.len(),
                want == with_newtypes(old(self)@, ds@, 0),
                want == with_newtypes(self@, ds@, i as int),
            decreases ds.len() - i,
        {
            if let Decl::Newtype(n) = &ds[i] {
                match self.add_newtype(n) {
                    Ok(_) => {},
                    Err(e) => return Err(e),
                }
            }
            i = i + 1;
        }
        Ok(())
    }

    fn check_variant(&self, e: &EnumDecl, v: &VariantDecl) -> (r: Result<(), String>)
        ensures
            done(r) == variant_valid(self@, *e, *v),
    {
        let ghost t = self@;
        let ghost f = |j: int| valid(t, v.fields@[j].ty@, views(e.generic_params@));
        let ghost n = v.fields@.len() as int;
        let mut i: usize = 0;
        while i < v.fields.len()
            invariant
                i <= v.fields@.len(),
                n == v.fields@.len(),
                t == self@,
                f == (|j: int| valid(t, v.fields@[j].ty@, views(e.generic_params@))),
                all_ok(n, 0, f) == all_ok(n, i as int, f),
            decreases v.fields.len() - i,
        {
            match self.validate_type_with_generics(&v.fields[i].ty, &e.generic_params) {
                Ok(_) => {},
                Err(m) => return Err(m),
            }
            i = i + 1;
        }
        Ok(())
    }

    fn gather_enum(&self, e: &EnumDecl) -> (r: Result<EnumInfo, String>)
        ensures
            enum_outcome(r) == enum_model(self@, *e),
    {
        let name: &str = e.name.as_str();
        if holds(&self.enums, name) {
            return Err(cat3("duplicate enum `", name, "`"));
        }
        if holds(&self.classes, name) {
            return Err(cat3("`", name, "` is already defined as a class"));
        }
        if holds(&self.newtypes, name) {
            return Err(cat3("newtype `", name, "` conflicts with an enum of the same name"));
        }
        let ghost t = self@;
        let ghost f = |i: int| variant_valid(t, *e, e.variants@[i]);
        let ghost n = e.variants@.len() as int;
        let mut variants: Vec<VariantInfo> = Vec::new();
        let mut i: usize = 0;
        while i < e.variants.len()
            invariant
                i <= e.variants@.len(),
                n == e.variants@.len(),
                t == self@,
                lookup(t.enums, e.name@) is None,
                lookup(t.classes, e.name@) is None,
                lookup(t.newtypes, e.name@) is None,
                f == (|i: int| variant_valid(t, *e, e.variants@[i])),
                all_ok(n, 0, f) == all_ok(n, i as int, f),
                variants@.len() == i,
                forall|j: int|
                    0 <= j < i ==> (#[trigger] variants@[j])@ == variant_model(e.variants@[j]),
            decreases e.variants.len() - i,
        {
            let v: &VariantDecl = &e.variants[i];
            variants.push(
                VariantInfo { name: v.name.clone(), fields: fields_of_variant(&v.fields) },
            );
            match self.check_variant(e, v) {
                Ok(_) => {},
                Err(m) => return Err(m),
            }
            i = i + 1;
        }
        assert(views(variants@) =~= Seq::new(
            e.variants@.len(),
            |i: int| variant_model(e.variants@[i]),
        ));
        Ok(
            EnumInfo {
                name: e.name.clone(),
                generic_params: clone_params(&e.generic_params),
                variants,
            },
        )
    }

    fn add_decl(&mut self, d: &Decl) -> (r: Result<(), String>)
        ensures
            filled(r, final(self)@) == with_decl(old(self)@, *d),
    {
        match d {
            Decl::Class(c) => {
                let info: ClassInfo = match self.gather_class(c) {
                    Ok(x) => x,
                    Err(m) => return Err(m),
                };
                insert(&mut self.classes, c.name.as_str(), info);
            },
            Decl::Enum(e) => {
                let info: EnumInfo = match self.gather_enum(e) {
                    Ok(x) => x,
                    Err(m) => return Err(m),
                };
                insert(&mut self.enums, e.name.as_str(), info);
            },
            _ => {},
        }
        Ok(())
    }

    pub(crate) fn add_decls(&mut self, ds: &Vec<Decl>) -> (r: Result<(), String>)
        ensures
            filled(r, final(self)@) == with_decls(old(self)@, ds@, 0),
    {
        let ghost want = with_decls(self@, ds@, 0);
        let mut i: usize = 0;
        while i < ds.len()
            invariant
                i <= ds@.len(),
                want == with_decls(old(self)@, ds@, 0),
                want == with_decls(self@, ds@, i as int),
            decreases ds.len() - i,
        {
            match self.add_decl(&ds[i]) {
                Ok(_) => {},
                Err(e) => return Err(e),
            }
            i = i + 1;
        }
        Ok(())
    }
}

// ---------------------------------------------------------------------------
// Bases
// ---------------------------------------------------------------------------

/// The bases of a class, sorted into the super class and the interfaces.
#[verifier::ext_equal]
pub ghost struct Split {
    /// The super class.
    pub super_class: Option<Seq<char>>,
    /// The interfaces.
    pub interfaces: Seq<Seq<char>>,
    /// The type arguments of the interfaces.
    pub args: Seq<(Seq<char>, Seq<Ty>)>,
}

/// No base is a static class.
pub open spec fn base_not_static(t: TableModel, base: Seq<char>) -> Result<(), Seq<char>> {
    match lookup(t.classes, base) {
        Some(b) => if b.is_static {
            Err("cannot inherit from static class `"@ + base + "`"@)
        } else {
            Ok(())
        },
        None => Ok(()),
    }
}

/// The bases from `i` on, after those in `acc`.
pub open spec fn bases_from(t: TableModel, c: ClassDecl, i: int, acc: Split) -> Result<
    Split,
    Seq<char>,
>
    decreases c.bases@.len() - i,
{
    if i < 0 || i >= c.bases@.len() {
        Ok(acc)
    } else {
        let base = c.bases@[i].0@;
        let args = tys(c.bases@[i].1@);
        match lookup(t.classes, base) {
            None => Err("unknown base type `"@ + base + "` for `"@ + c.name@ + "`"@),
            Some(b) => if b.is_interface {
                if b.generics.len() != args.len() {
                    Err(
                        "interface `"@ + base + "` expects "@ + dec(b.generics.len())
                            + " type argument(s), but `"@ + c.name@ + "` implements it with "@
                            + dec(args.len()),
                    )
                } else {
                    match crate::typer::rules::valid_all(t, args, 0, views(c.generic_params@)) {
                        Err(e) => Err(e),
                        Ok(_) => bases_from(
                            t,
                            c,
                            i + 1,
                            Split {
                                super_class: acc.super_class,
                                interfaces: acc.interfaces.push(base),
                                args: put(acc.args, base, args),
                            },
                        ),
                    }
                }
            } else if args.len() != 0 {
                Err(
                    "class `"@ + c.name@ + "` extends `"@ + base
                        + "` with type arguments: generic base classes are not supported yet"@,
                )
            } else if c.is_record {
                Err("record `"@ + c.name@ + "` cannot inherit from class `"@ + base + "`"@)
            } else if c.is_interface {
                Err("interface `"@ + c.name@ + "` cannot extend class `"@ + base + "`"@)
            } else if b.is_sealed {
                Err("class `"@ + c.name@ + "` cannot extend sealed class `"@ + base + "`"@)
            } else if acc.super_class is Some {
                Err(
                    "class `"@ + c.name@ + "` can have only one super class, but found `"@
                        + acc.super_class->0 + "` and `"@ + base + "`"@,
                )
            } else {
                bases_from(
                    t,
                    c,
                    i + 1,
                    Split {
                        super_class: Some(base),
                        interfaces: acc.interfaces,
                        args: acc.args,
                    },
                )
            },
        }
    }
}

/// The bases of a class.
pub open spec fn split_of(t: TableModel, c: ClassDecl) -> Result<Split, Seq<char>> {
    match all_ok(c.bases@.len() as int, 0, |i: int| base_not_static(t, c.bases@[i].0@)) {
        Err(e) => Err(e),
        Ok(_) => bases_from(
            t,
            c,
            0,
            Split { super_class: None, interfaces: seq![], args: seq![] },
        ),
    }
}

/// Tables in which the class called `name` has these bases.
pub open spec fn with_split(t: TableModel, name: Seq<char>, s: Split) -> TableModel {
    match lookup(t.classes, name) {
        None => t,
        Some(info) => TableModel {
            classes: put(
                t.classes,
                name,
                ClassModel {
                    super_class: s.super_class,
                    interfaces: s.interfaces,
                    interface_args: s.args,
                    ..info
                },
            ),
            ..t
        },
    }
}

/// Tables in which the classes among the declarations from `i` on have their
/// bases.
pub open spec fn with_bases(t: TableModel, ds: Seq<Decl>, i: int) -> Result<TableModel, Seq<char>>
    decreases ds.len() - i,
{
    if i < 0 || i >= ds.len() {
        Ok(t)
    } else {
        match ds[i] {
            Decl::Class(c) => match split_of(t, c) {
                Err(e) => Err(e),
                Ok(s) => with_bases(with_split(t, c.name@, s), ds, i + 1),
            },
            _ => with_bases(t, ds, i + 1),
        }
    }
}

/// The bases of a class as they were found.
pub struct Bases {
    /// The super class.
    pub super_class: Option<String>,
    /// The interfaces.
    pub interfaces: Vec<String>,
    /// The type arguments of the interfaces.
    pub args: Vec<(String, TypeArgs)>,
}

impl View for Bases {
    type V = Split;

    open spec fn view(&self) -> Split {
        Split {
            super_class: opt_text(self.super_class),
            interfaces: texts(self.interfaces@),
            args: entries(self.args@),
        }
    }
}

/// Bases or an error, by value.
pub open spec fn split_outcome(r: Result<Bases, String>) -> Result<Split, Seq<char>> {
    match r {
        Ok(b) => Ok(b@),
        Err(e) => Err(e@),
    }
}

impl Tables {
    fn check_bases_not_static(&self, c: &ClassDecl) -> (r: Result<(), String>)
        ensures
            done(r) == all_ok(
                c.bases@.len() as int,
                0,
                |i: int| base_not_static(self@, c.bases@[i].0@),
            ),
    {
        let ghost t = self@;
        let ghost f = |i: int| base_not_static(t, c.bases@[i].0@);
        let ghost n = c.bases@.len() as int;
        let mut i: usize = 0;
        while i < c.bases.len()
            invariant
                i <= c.bases@.len(),
                n == c.bases@.len(),
                t == self@,
                f == (|i: int| base_not_static(t, c.bases@[i].0@)),
                all_ok(n, 0, f) == all_ok(n, i as int, f),
            decreases c.bases.len() - i,
        {
            let base: &str = c.bases[i].0.as_str();
            if let Some(b) = find(&self.classes, base) {
                if b.is_static {
                    return Err(cat3("cannot inherit from static class `", base, "`"));
                }
            }
            i = i + 1;
        }
        Ok(())
    }

    fn find_bases(&self, c: &ClassDecl) -> (r: Result<Bases, String>)
        ensures
            split_outcome(r) == split_of(self@, *c),
    {
        match self.check_bases_not_static(c) {
            Ok(_) => {},
            Err(e) => return Err(e),
        }
        let mut acc: Bases = Bases {
            super_class: None,
            interfaces: Vec::new(),
            args: Vec::new(),
        };
        assert(acc@ =~= (Split { super_class: None, interfaces: seq![], args: seq![] }));
        let ghost want = bases_from(self@, *c, 0, acc@);
        let cn: &str = c.name.as_str();
        let mut i: usize = 0;
        while i < c.bases.len()
            invariant
                i <= c.bases@.len(),
                cn@ == c.name@,
                want == split_of(self@, *c),
                want == bases_from(self@, *c, i as int, acc@),
            decreases c.bases.len() - i,
        {
            let base: &str = c.bases[i].0.as_str();
            let args: &Vec<Type> = &c.bases[i].1;
            assert(tys(args@).len() == args@.len());
            let b: &ClassInfo = match find(&self.classes, base) {
                Some(b) => b,
                None => {
                    return Err(cat5("unknown base type `", base, "` for `", cn, "`"));
                },
            };
            assert(b@.generics.len() == b.generic_params@.len());
            if b.is_interface {
                // A generic interface must be implemented at an
                // instantiation; the declared arguments drive
                // conformance checking and variance-aware
                // assignability.
                if b.generic_params.len() != args.len() {
                    let want_n: String = dec_u64(b.generic_params.len() as u64);
                    let got: String = dec_u64(args.len() as u64);
                    return Err(
                        cat8(
                            "interface `",
                            base,
                            "` expects ",
                            want_n.as_str(),
                            " type argument(s), but `",
                            cn,
                            "` implements it with ",
                            got.as_str(),
                        ),
                    );
                }
                match self.validate_types(args, &c.generic_params) {
                    Ok(_) => {},
                    Err(e) => return Err(e),
                }
                let ghost before = acc@;
                acc.interfaces.push(own(base));
                assert(texts(acc.interfaces@) =~= before.interfaces.push(base@));
                insert(&mut acc.args, base, TypeArgs { types: clone_tys(args) });
            } else if args.len() != 0 {
                return Err(
                    cat5(
                        "class `",
                        cn,
                        "` extends `",
                        base,
                        "` with type arguments: generic base classes are not supported yet",
                    ),
                );
            } else if c.is_record {
                return Err(cat5("record `", cn, "` cannot inherit from class `", base, "`"));
            } else if c.is_interface {
                return Err(cat5("interface `", cn, "` cannot extend class `", base, "`"));
            } else if b.is_sealed {
                return Err(cat5("class `", cn, "` cannot extend sealed class `", base, "`"));
            } else {
                if let Some(first) = &acc.super_class {
                    return Err(
                        cat7(
                            "class `",
                            cn,
                            "` can have only one super class, but found `",
                            first.as_str(),
                            "` and `",
                            base,
                            "`",
                        ),
                    );
                }
                acc.super_class = Some(own(base));
            }
            i = i + 1;
        }
        Ok(acc)
    }

    fn set_bases(&mut self, name: &str, b: Bases)
        ensures
            final(self)@ == with_split(old(self)@, name@, b@),
    {
        let p: usize = find_place(&self.classes, name);
        let ghost t = self@;
        if p < self.classes.len() {
            proof {
                place_entry(t.classes, name@, 0);
            }
            self.classes[p].1.super_class = b.super_class;
            self.classes[p].1.interfaces = b.interfaces;
            self.classes[p].1.interface_args = b.args;
            assert(self@.classes =~= with_split(t, name@, b@).classes);
        }
    }

    /// Split the raw base-name list of each class into a super class (for
    /// classes) and a list of implemented/extended interfaces.
    pub(crate) fn split_bases(&mut self, ds: &Vec<Decl>) -> (r: Result<(), String>)
        ensures
            filled(r, final(self)@) == with_bases(old(self)@, ds@, 0),
    {
        let ghost want = with_bases(self@, ds@, 0);
        let mut i: usize = 0;
        while i < ds.len()
            invariant
                i <= ds@.len(),
                want == with_bases(old(self)@, ds@, 0),
                want == with_bases(self@, ds@, i as int),
            decreases ds.len() - i,
        {
            if let Decl::Class(c) = &ds[i] {
                match self.find_bases(c) {
                    Ok(b) => self.set_bases(c.name.as_str(), b),
                    Err(e) => return Err(e),
                }
            }
            i = i + 1;
        }
        Ok(())
    }
}

// ---------------------------------------------------------------------------
// Cycles
// ---------------------------------------------------------------------------

/// A class is its own super class, directly or not.
pub open spec fn own_ancestor(cs: Seq<(Seq<char>, ClassModel)>, c: ClassModel) -> bool {
    match c.super_class {
        None => false,
        Some(s) => exists|i: int|
            0 <= i < supers(cs, s).len() && cs[#[trigger] supers(cs, s)[i]].0 == c.name,
    }
}

/// No class is its own super class.
pub open spec fn super_ok(cs: Seq<(Seq<char>, ClassModel)>, c: ClassModel) -> Result<
    (),
    Seq<char>,
> {
    if own_ancestor(cs, c) {
        Err("circular inheritance involving `"@ + c.name + "`"@)
    } else {
        Ok(())
    }
}

/// No interface among those of `name` from `i` on is on the path from which it
/// was reached, and neither is one that these extend.
pub open spec fn interfaces_ok(
    cs: Seq<(Seq<char>, ClassModel)>,
    name: Seq<char>,
    list: Seq<Seq<char>>,
    i: int,
    path: Seq<Seq<char>>,
) -> Result<(), Seq<char>>
    decreases unseen(cs, path, cs.len() as int), list.len() - i,
{
    if i < 0 || i >= list.len() {
        Ok(())
    } else if path.contains(list[i]) {
        Err("circular inheritance involving `"@ + name + "`"@)
    } else {
        let p = place(cs, list[i], 0);
        if 0 <= p < cs.len() {
            proof {
                place_entry(cs, list[i], 0);
                assert(cs[p].0 == list[i]);
                unseen_pushed(cs, path, list[i], cs.len() as int);
            }
            match interfaces_ok(cs, list[i], cs[p].1.interfaces, 0, path.push(list[i])) {
                Err(e) => Err(e),
                Ok(_) => interfaces_ok(cs, name, list, i + 1, path),
            }
        } else {
            interfaces_ok(cs, name, list, i + 1, path)
        }
    }
}

/// The class hierarchy has no cycle.
pub open spec fn hierarchy_ok(cs: Seq<(Seq<char>, ClassModel)>) -> Result<(), Seq<char>> {
    match all_ok(cs.len() as int, 0, |i: int| super_ok(cs, cs[i].1)) {
        Err(e) => Err(e),
        Ok(_) => all_ok(
            cs.len() as int,
            0,
            |i: int|
                interfaces_ok(cs, cs[i].1.name, cs[i].1.interfaces, 0, seq![cs[i].1.name]),
        ),
    }
}

impl Tables {
    fn is_own_ancestor(&self, c: &ClassInfo) -> (r: bool)
        ensures
            r == own_ancestor(self@.classes, c@),
    {
        let s: &String = match &c.super_class {
            Some(s) => s,
            None => return false,
        };
        let ghost cs = self@.classes;
        let ghost all = supers(cs, s@);
        let ps: Vec<usize> = self.super_chain(s.as_str());
        assert(all.len() == ps@.len());
        let mut i: usize = 0;
        while i < ps.len()
            invariant
                i <= ps@.len(),
                cs == self@.classes,
                crate::typer::hierarchy::ints(ps@) == all,
                forall|k: int| 0 <= k < ps@.len() ==> (#[trigger] ps@[k]) < self.classes@.len(),
                all == supers(cs, s@),
                c@.super_class == Some(s@),
                forall|j: int| 0 <= j < i ==> cs[#[trigger] all[j]].0 != c@.name,
            decreases ps.len() - i,
        {
            assert(all[i as int] == ps@[i as int]);
            if same(self.classes[ps[i]].0.as_str(), c.name.as_str()) {
                assert(cs[supers(cs, s@)[i as int]].0 == c@.name);
                assert(c@.super_class is Some && (c@.super_class)->0 == s@);
                return true;
            }
            i = i + 1;
        }
        false
    }

    fn validate_interface_chain(
        &self,
        name: &str,
        list: &Vec<String>,
        i: usize,
        path: &mut Vec<String>,
    ) -> (r: Result<(), String>)
        requires
            i <= list@.len(),
        ensures
            done(r) == interfaces_ok(
                self@.classes,
                name@,
                texts(list@),
                i as int,
                texts(old(path)@),
            ),
            r is Ok ==> texts(final(path)@) == texts(old(path)@),
        decreases
            unseen(self@.classes, texts(old(path)@), self@.classes.len() as int),
            list@.len() - i,
    {
        if i >= list.len() {
            return Ok(());
        }
        let ghost cs = self@.classes;
        let ghost before = texts(path@);
        assert(texts(list@)[i as int] == list@[i as int]@);
        let next: &str = list[i].as_str();
        if has_text(path, next) {
            return Err(cat3("circular inheritance involving `", name, "`"));
        }
        let p: usize = find_place(&self.classes, next);
        if p < self.classes.len() {
            path.push(own(next));
            assert(texts(path@) =~= before.push(next@));
            proof {
                place_entry(cs, next@, 0);
                assert(cs[p as int].0 == next@);
                unseen_pushed(cs, before, next@, cs.len() as int);
            }
            match self.validate_interface_chain(
                next,
                &self.classes[p].1.interfaces,
                0,
                path,
            ) {
                Ok(_) => {},
                Err(e) => return Err(e),
            }
            assert(texts(path@).len() == path@.len());
            let ghost full = path@;
            let _ = path.pop();
            proof {
                assert(path@ =~= full.drop_last());
                assert forall|j: int| 0 <= j < path@.len() implies texts(path@)[j] == before[j] by {
                    assert(texts(full)[j] == before.push(next@)[j]);
                }
                assert(texts(path@) =~= before);
            }
        }
        self.validate_interface_chain(name, list, i + 1, path)
    }

    /// Validate class hierarchy: super classes and interfaces exist and no cycles.
    pub(crate) fn validate_hierarchy(&self) -> (r: Result<(), String>)
        ensures
            done(r) == hierarchy_ok(self@.classes),
    {
        let ghost cs = self@.classes;
        let ghost n = cs.len() as int;
        let ghost f = |i: int| super_ok(cs, cs[i].1);
        let mut i: usize = 0;
        while i < self.classes.len()
            invariant
                i <= self.classes@.len(),
                cs == self@.classes,
                n == cs.len(),
                f == (|i: int| super_ok(cs, cs[i].1)),
                all_ok(n, 0, f) == all_ok(n, i as int, f),
            decreases self.classes.len() - i,
        {
            let c: &ClassInfo = &self.classes[i].1;
            assert(cs[i as int].1 == c@);
            if self.is_own_ancestor(c) {
                return Err(cat3("circular inheritance involving `", c.name.as_str(), "`"));
            }
            i = i + 1;
        }
        let ghost g = |i: int|
            interfaces_ok(cs, cs[i].1.name, cs[i].1.interfaces, 0, seq![cs[i].1.name]);
        let mut k: usize = 0;
        while k < self.classes.len()
            invariant
                k <= self.classes@.len(),
                cs == self@.classes,
                n == cs.len(),
                all_ok(n, 0, |i: int| super_ok(cs, cs[i].1)) is Ok,
                g == (|i: int|
                    interfaces_ok(cs, cs[i].1.name, cs[i].1.interfaces, 0, seq![cs[i].1.name])),
                all_ok(n, 0, g) == all_ok(n, k as int, g),
            decreases self.classes.len() - k,
        {
            let c: &ClassInfo = &self.classes[k].1;
            assert(cs[k as int].1 == c@);
            let mut path: Vec<String> = Vec::new();
            path.push(c.name.clone());
            assert(texts(path@) =~= seq![c@.name]);
            match self.validate_interface_chain(c.name.as_str(), &c.interfaces, 0, &mut path) {
                Ok(_) => {},
                Err(e) => return Err(e),
            }
            k = k + 1;
        }
        Ok(())
    }
}

} // verus!
