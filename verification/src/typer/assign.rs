//! Assignability, structural interface satisfaction and the unification that
//! binds type parameters.

use crate::text::{cat5, cat6, cat7, cat9, same};
use crate::typer::ast::{
    has_text, join, joined, same_type, same_tys, texts, ty_name, ty_names, type_names, tys, Ty,
    Type, Variance, Visibility,
};
use crate::typer::hierarchy::{class_method, reach, subclass, Walk};
use crate::typer::info::{
    BuiltinClass, ClassInfo, ClassModel, MethodInfo, MethodModel, TableModel, Tables,
};
use crate::typer::keyed::{entries, find, insert, lookup, put};
use crate::typer::types::{
    build_subst, fits, int_target_fits, is_numeric, numeric, numeric_widening, subst_all, subst_of,
    substitute_all, widens,
};
use vstd::prelude::*;

verus! {

// ---------------------------------------------------------------------------
// Structural satisfaction
// ---------------------------------------------------------------------------

/// The name of a built-in class.
pub open spec fn builtin(bs: Seq<BuiltinClass>, name: Seq<char>) -> bool {
    exists|i: int| 0 <= i < bs.len() && (#[trigger] bs[i]).name == name
}

/// `have` can stand for the abstract interface method `want`: a public,
/// non-generic instance method with exactly the same types.
pub open spec fn stands_for(have: MethodModel, want: MethodModel) -> bool {
    &&& have.is_instance
    &&& have.visibility == Visibility::Public
    &&& have.generics.len() == 0
    &&& have.params == want.params
    &&& have.return_ty == want.return_ty
}

/// A class provides an interface method, if it has to.
pub open spec fn provides(
    cs: Seq<(Seq<char>, ClassModel)>,
    class: Seq<char>,
    entry: (Seq<char>, MethodModel),
) -> bool {
    entry.1.is_abstract ==> entry.1.generics.len() == 0 && (class_method(cs, class, entry.0)
        matches Some((_, have)) && stands_for(have, entry.1))
}

/// A class provides all abstract methods of the type called `name`, which has
/// no type parameters.
pub open spec fn provides_all(
    cs: Seq<(Seq<char>, ClassModel)>,
    class: Seq<char>,
    name: Seq<char>,
) -> bool {
    lookup(cs, name) matches Some(info) ==> {
        &&& info.generics.len() == 0
        &&& forall|i: int|
            0 <= i < info.methods.len() ==> provides(cs, class, #[trigger] info.methods[i])
    }
}

/// A class satisfies an interface by its methods.
pub open spec fn satisfies(t: TableModel, class: Seq<char>, iface: Seq<char>) -> bool {
    let names = reach(t.classes, seq![iface], seq![], Walk::Interfaces);
    match (lookup(t.classes, iface), lookup(t.classes, class)) {
        (Some(i), Some(c)) => {
            &&& i.is_interface
            &&& i.generics.len() == 0
            &&& !c.is_interface
            &&& !builtin(t.builtins, class)
            &&& forall|k: int|
                0 <= k < names.len() ==> provides_all(t.classes, class, #[trigger] names[k])
        },
        _ => false,
    }
}

impl Tables {
    /// Whether `name` is a built-in class.
    pub fn is_intrinsic_class(&self, name: &str) -> (r: bool)
        ensures
            r == builtin(self@.builtins, name@),
    {
        let mut i: usize = 0;
        while i < self.intrinsics.classes.len()
            invariant
                i <= self.intrinsics.classes@.len(),
                forall|j: int| 0 <= j < i ==> (#[trigger] self@.builtins[j]).name != name@,
            decreases self.intrinsics.classes.len() - i,
        {
            if same(self.intrinsics.classes[i].name.as_str(), name) {
                assert(self@.builtins[i as int].name == name@);
                return true;
            }
            i = i + 1;
        }
        false
    }

    fn provides_methods(&self, class_name: &str, info: &ClassInfo) -> (r: bool)
        ensures
            r == (forall|i: int|
                0 <= i < info@.methods.len() ==> provides(
                    self@.classes,
                    class_name@,
                    #[trigger] info@.methods[i],
                )),
    {
        let mut i: usize = 0;
        while i < info.methods.len()
            invariant
                i <= info.methods@.len(),
                forall|j: int|
                    0 <= j < i ==> provides(
                        self@.classes,
                        class_name@,
                        #[trigger] info@.methods[j],
                    ),
            decreases info.methods.len() - i,
        {
            let im: &MethodInfo = &info.methods[i].1;
            let ghost entry = info@.methods[i as int];
            assert(entry == (info.methods@[i as int].0@, im@));
            if im.is_abstract {
                if im.generic_params.len() != 0 {
                    assert(!provides(self@.classes, class_name@, entry));
                    return false;
                }
                match self.find_class_method(class_name, info.methods[i].0.as_str()) {
                    None => {
                        assert(!provides(self@.classes, class_name@, entry));
                        return false;
                    },
                    Some((_, have)) => {
                        if !have.is_instance || have.visibility != Visibility::Public
                            || have.generic_params.len() != 0 || !same_tys(
                            &have.params,
                            &im.params,
                        ) || !same_type(&have.return_ty, &im.return_ty) {
                            assert(!provides(self@.classes, class_name@, entry));
                            return false;
                        }
                    },
                }
            }
            assert(provides(self@.classes, class_name@, entry));
            i = i + 1;
        }
        true
    }
}

fn list_of(name: &str) -> (r: Vec<String>)
    ensures
        texts(r@) == seq![name@],
{
    let mut v: Vec<String> = Vec::new();
    v.push(crate::text::own(name));
    assert(texts(v@) =~= seq![name@]);
    v
}

fn no_list() -> (r: Vec<String>)
    ensures
        texts(r@) == Seq::<Seq<char>>::empty(),
{
    let v: Vec<String> = Vec::new();
    assert(texts(v@) =~= Seq::<Seq<char>>::empty());
    v
}

/// True if class `class_name` structurally satisfies interface `iface_name`
/// (duck typing): every abstract method of the interface — and of the
/// interfaces it extends — exists on the class or its superclasses as a
/// public, non-generic instance method with exactly the same parameter and
/// return types. Rules, deliberately conservative:
///
/// * Exact type matching only — no parameter/return variance.
/// * Non-generic interfaces only; generic interfaces still require a
///   declared `: IFace<...>`.
/// * Sources must be classes (possibly abstract); interface-to-interface
///   satisfaction stays declaration-based.
/// * Interface default methods (with bodies) are optional.
/// * Built-in classes (`List` etc.) are excluded — their methods have no
///   bytecode bodies, so interface-typed dispatch could not reach them.
pub fn structurally_satisfies(tables: &Tables, class_name: &str, iface_name: &str) -> (r: bool)
    ensures
        r == satisfies(tables@, class_name@, iface_name@),
{
    let iface: &ClassInfo = match find(&tables.classes, iface_name) {
        Some(i) => i,
        None => return false,
    };
    if !iface.is_interface || iface.generic_params.len() != 0 {
        return false;
    }
    let class: &ClassInfo = match find(&tables.classes, class_name) {
        Some(c) => c,
        None => return false,
    };
    if class.is_interface || tables.is_intrinsic_class(class_name) {
        return false;
    }
    let names: Vec<String> = tables.visit(&list_of(iface_name), no_list(), Walk::Interfaces);
    let ghost all = texts(names@);
    let mut k: usize = 0;
    while k < names.len()
        invariant
            k <= names@.len(),
            all == texts(names@),
            all == reach(tables@.classes, seq![iface_name@], seq![], Walk::Interfaces),
            forall|j: int|
                0 <= j < k ==> provides_all(tables@.classes, class_name@, #[trigger] all[j]),
        decreases names.len() - k,
    {
        if let Some(info) = find(&tables.classes, names[k].as_str()) {
            if info.generic_params.len() != 0 || !tables.provides_methods(class_name, info) {
                assert(!provides_all(tables@.classes, class_name@, all[k as int]));
                return false;
            }
        }
        assert(provides_all(tables@.classes, class_name@, all[k as int]));
        k = k + 1;
    }
    true
}

/// A signature as it is shown.
pub open spec fn signature(params: Seq<Ty>, ret: Ty) -> Seq<char> {
    "("@ + joined(ty_names(params), ", "@) + ") -> "@ + ty_name(ret)
}

fn show_signature(params: &Vec<Type>, ret: &Type) -> (r: String)
    ensures
        r@ == signature(tys(params@), ret@),
{
    let inner: String = join(&type_names(params), ", ");
    let out: String = ret.name();
    crate::text::cat4("(", inner.as_str(), ") -> ", out.as_str())
}

/// What is wrong with the method that a class has for an interface method.
pub open spec fn method_failure(
    cs: Seq<(Seq<char>, ClassModel)>,
    class: Seq<char>,
    iface: Seq<char>,
    entry: (Seq<char>, MethodModel),
) -> Option<Seq<char>> {
    let (name, want) = entry;
    if !want.is_abstract {
        None
    } else {
        match class_method(cs, class, name) {
            None => Some(
                "`"@ + class + "` is missing method `"@ + name + " "@ + signature(
                    want.params,
                    want.return_ty,
                ) + "` required by `"@ + iface + "`"@,
            ),
            Some((_, have)) => if !have.is_instance {
                Some(
                    "`"@ + class + "."@ + name + "` is static but `"@ + iface
                        + "` requires an instance method"@,
                )
            } else if have.visibility != Visibility::Public {
                Some(
                    "`"@ + class + "."@ + name + "` is not public but `"@ + iface
                        + "` requires it to be"@,
                )
            } else if have.params != want.params || have.return_ty != want.return_ty {
                Some(
                    "`"@ + class + "."@ + name + "` has signature "@ + signature(
                        have.params,
                        have.return_ty,
                    ) + " but `"@ + iface + "` requires "@ + signature(
                        want.params,
                        want.return_ty,
                    ),
                )
            } else {
                None
            },
        }
    }
}

/// The first failure among the methods from `i` on.
pub open spec fn first_failure(
    cs: Seq<(Seq<char>, ClassModel)>,
    class: Seq<char>,
    iface: Seq<char>,
    ms: Seq<(Seq<char>, MethodModel)>,
    i: int,
) -> Option<Seq<char>>
    decreases ms.len() - i,
{
    if i < 0 || i >= ms.len() {
        None
    } else {
        match method_failure(cs, class, iface, ms[i]) {
            Some(s) => Some(s),
            None => first_failure(cs, class, iface, ms, i + 1),
        }
    }
}

/// Why a class does not satisfy an interface: the first missing or mismatched
/// abstract method.
pub open spec fn structural_failure(t: TableModel, class: Seq<char>, iface: Seq<char>) -> Option<
    Seq<char>,
> {
    match lookup(t.classes, iface) {
        Some(i) => if i.is_interface {
            first_failure(t.classes, class, iface, i.methods, 0)
        } else {
            None
        },
        None => None,
    }
}

/// An optional text by value.
pub open spec fn opt_str(s: Option<String>) -> Option<Seq<char>> {
    match s {
        Some(x) => Some(x@),
        None => None,
    }
}

impl Tables {
    fn find_failure(&self, class_name: &str, iface_name: &str, name: &str, im: &MethodInfo) -> (r:
        Option<String>)
        ensures
            opt_str(r) == method_failure(
                self@.classes,
                class_name@,
                iface_name@,
                (name@, im@),
            ),
    {
        if !im.is_abstract {
            return None;
        }
        let required: String = show_signature(&im.params, &im.return_ty);
        match self.find_class_method(class_name, name) {
            None => Some(
                cat9(
                    "`",
                    class_name,
                    "` is missing method `",
                    name,
                    " ",
                    required.as_str(),
                    "` required by `",
                    iface_name,
                    "`",
                ),
            ),
            Some((_, have)) => {
                if !have.is_instance {
                    return Some(
                        cat7(
                            "`",
                            class_name,
                            ".",
                            name,
                            "` is static but `",
                            iface_name,
                            "` requires an instance method",
                        ),
                    );
                }
                if have.visibility != Visibility::Public {
                    return Some(
                        cat7(
                            "`",
                            class_name,
                            ".",
                            name,
                            "` is not public but `",
                            iface_name,
                            "` requires it to be",
                        ),
                    );
                }
                if !same_tys(&have.params, &im.params) || !same_type(
                    &have.return_ty,
                    &im.return_ty,
                ) {
                    let shown: String = show_signature(&have.params, &have.return_ty);
                    let left: String = cat6(
                        "`",
                        class_name,
                        ".",
                        name,
                        "` has signature ",
                        shown.as_str(),
                    );
                    return Some(
                        cat5(
                            left.as_str(),
                            " but `",
                            iface_name,
                            "` requires ",
                            required.as_str(),
                        ),
                    );
                }
                None
            },
        }
    }

    /// Explain why `class_name` does not structurally satisfy `iface_name`:
    /// the first missing or mismatched abstract method, with both signatures.
    pub fn explain_structural_failure(&self, class_name: &str, iface_name: &str) -> (r: Option<
        String,
    >)
        ensures
            opt_str(r) == structural_failure(self@, class_name@, iface_name@),
    {
        let iface: &ClassInfo = match find(&self.classes, iface_name) {
            Some(i) => i,
            None => return None,
        };
        if !iface.is_interface {
            return None;
        }
        let mut i: usize = 0;
        while i < iface.methods.len()
            invariant
                i <= iface.methods@.len(),
                structural_failure(self@, class_name@, iface_name@) == first_failure(
                    self@.classes,
                    class_name@,
                    iface_name@,
                    iface@.methods,
                    i as int,
                ),
            decreases iface.methods.len() - i,
        {
            assert(iface@.methods[i as int] == (
                iface.methods@[i as int].0@,
                iface.methods@[i as int].1@,
            ));
            let f: Option<String> = self.find_failure(
                class_name,
                iface_name,
                iface.methods[i].0.as_str(),
                &iface.methods[i].1,
            );
            if f.is_some() {
                return f;
            }
            i = i + 1;
        }
        None
    }
}

// ---------------------------------------------------------------------------
// Declared instantiations
// ---------------------------------------------------------------------------

/// The first of the names from `i` on that declares arguments for `iface`.
pub open spec fn args_among(
    cs: Seq<(Seq<char>, ClassModel)>,
    names: Seq<Seq<char>>,
    i: int,
    iface: Seq<char>,
) -> Option<Seq<Ty>>
    decreases names.len() - i,
{
    if i < 0 || i >= names.len() {
        None
    } else {
        match lookup(cs, names[i]) {
            None => args_among(cs, names, i + 1, iface),
            Some(c) => match lookup(c.interface_args, iface) {
                Some(args) => Some(args),
                None => args_among(cs, names, i + 1, iface),
            },
        }
    }
}

/// The type arguments with which a class, instantiated at `args`, implements an
/// interface.
pub open spec fn declared_args(
    cs: Seq<(Seq<char>, ClassModel)>,
    class: Seq<char>,
    args: Seq<Ty>,
    iface: Seq<char>,
) -> Option<Seq<Ty>> {
    match lookup(cs, class) {
        None => None,
        Some(top) => match args_among(
            cs,
            reach(cs, seq![class], seq![], Walk::Down),
            0,
            iface,
        ) {
            Some(declared) => Some(subst_all(declared, subst_of(top.generics, args))),
            None => None,
        },
    }
}

/// An optional list of types by value.
pub open spec fn opt_tys(r: Option<Vec<Type>>) -> Option<Seq<Ty>> {
    match r {
        Some(v) => Some(tys(v@)),
        None => None,
    }
}

impl Tables {
    /// The type arguments with which `class_name` (instantiated at
    /// `class_args`) implements interface `iface`, if it does: the directly
    /// declared instantiation, or one inherited from a superclass or an
    /// extended interface. Only the top-level class's own parameters need
    /// substituting — generic base classes are unsupported, so deeper
    /// declarations are already concrete.
    pub fn declared_interface_args(
        &self,
        class_name: &str,
        class_args: &Vec<Type>,
        iface: &str,
    ) -> (r: Option<Vec<Type>>)
        ensures
            opt_tys(r) == declared_args(self@.classes, class_name@, tys(class_args@), iface@),
    {
        let ghost cs = self@.classes;
        let top: &ClassInfo = match find(&self.classes, class_name) {
            Some(t) => t,
            None => return None,
        };
        let subst: Vec<(String, Type)> = build_subst(&top.generic_params, class_args);
        let names: Vec<String> = self.visit(&list_of(class_name), no_list(), Walk::Down);
        let ghost all = texts(names@);
        let mut i: usize = 0;
        while i < names.len()
            invariant
                i <= names@.len(),
                cs == self@.classes,
                all == texts(names@),
                args_among(cs, all, 0, iface@) == args_among(cs, all, i as int, iface@),
                lookup(cs, class_name@) == Some(top@),
                all == reach(cs, seq![class_name@], seq![], Walk::Down),
                entries(subst@) == subst_of(top@.generics, tys(class_args@)),
            decreases names.len() - i,
        {
            if let Some(info) = find(&self.classes, names[i].as_str()) {
                if let Some(args) = find(&info.interface_args, iface) {
                    return Some(substitute_all(&args.types, &subst));
                }
            }
            i = i + 1;
        }
        None
    }
}

// ---------------------------------------------------------------------------
// Assignability
// ---------------------------------------------------------------------------

/// How deep a comparison of types may nest.
pub const DEPTH: usize = 1_000_000;

/// The variance annotation of a type parameter, if the class is known.
pub open spec fn variance_at(cs: Seq<(Seq<char>, ClassModel)>, class: Seq<char>, i: int) -> Option<
    Variance,
> {
    match lookup(cs, class) {
        Some(c) => if 0 <= i < c.generics.len() {
            Some(c.generics[i].variance)
        } else {
            None
        },
        None => None,
    }
}

/// A class that is a generic interface.
pub open spec fn generic_interface(cs: Seq<(Seq<char>, ClassModel)>, class: Seq<char>) -> bool {
    lookup(cs, class) matches Some(c) && c.is_interface && c.generics.len() > 0
}

/// A value of type `source` can be used where `target` is expected; comparisons
/// that nest deeper than `depth` fail.
///
/// Nullability is strict: `null` and `T?` go only into nullable targets. Untyped
/// literals go into any numeric type whose range they fit, and string literals
/// into unions that have them. Numbers widen. Unbound type parameters are
/// unified later and accept everything. Classes go into their bases and into
/// the interfaces that they satisfy, with type arguments compared as the
/// variance of the parameters says.
pub open spec fn assignable(t: TableModel, depth: nat, target: Ty, source: Ty) -> bool
    decreases depth,
{
    if target == source {
        true
    } else if depth == 0 {
        false
    } else {
        let d = (depth - 1) as nat;
        match (target, source) {
            (Ty::Nullable(a), Ty::Nullable(b)) => assignable(t, d, *a, *b),
            (Ty::Nullable(a), b) => b.is_null() || assignable(t, d, *a, b),
            (a, Ty::Nullable(_)) => a is GenericParam,
            (a, Ty::IntLit(v)) => fits(a, v as int),
            (Ty::Float32, Ty::FloatLit(_)) => true,
            (Ty::Float64, Ty::FloatLit(_)) => true,
            (Ty::String, Ty::StringLit(_)) => true,
            (Ty::LiteralUnion(_, ms), Ty::StringLit(v)) => ms.contains(v),
            (Ty::String, Ty::LiteralUnion(_, _)) => true,
            (Ty::LiteralUnion(_, a), Ty::LiteralUnion(_, b)) => forall|i: int|
                0 <= i < b.len() ==> a.contains(#[trigger] b[i]),
            (a, b) => if numeric(a) && numeric(b) {
                widens(a, b)
            } else if a is GenericParam || b is GenericParam {
                true
            } else {
                match (a, b) {
                    (Ty::Class(m, xs), Ty::Class(n, ys)) => if m == n && xs.len() > 0 && ys.len()
                        > 0 {
                        &&& xs.len() == ys.len()
                        &&& forall|i: int|
                            0 <= i < xs.len() ==> if variance_at(t.classes, m, i) == Some(
                                Variance::Contravariant,
                            ) {
                                assignable(t, d, #[trigger] ys[i], #[trigger] xs[i])
                            } else {
                                assignable(t, d, xs[i], ys[i])
                            }
                    } else if xs.len() > 0 && generic_interface(t.classes, m) {
                        match declared_args(t.classes, n, ys, m) {
                            None => false,
                            Some(zs) => {
                                &&& xs.len() == zs.len()
                                &&& forall|i: int|
                                    0 <= i < xs.len() ==> match variance_at(t.classes, m, i) {
                                        Some(Variance::Covariant) => assignable(
                                            t,
                                            d,
                                            #[trigger] xs[i],
                                            #[trigger] zs[i],
                                        ),
                                        Some(Variance::Contravariant) => assignable(
                                            t,
                                            d,
                                            zs[i],
                                            xs[i],
                                        ),
                                        _ => xs[i] == zs[i],
                                    }
                            },
                        }
                    } else {
                        subclass(t.classes, n, m) || satisfies(t, n, m)
                    },
                    (Ty::Class(m, _), Ty::Enum(n)) => m == n,
                    (Ty::Enum(m), Ty::Class(n, _)) => m == n,
                    (Ty::Tuple(xs), Ty::Tuple(ys)) => {
                        &&& xs.len() == ys.len()
                        &&& forall|i: int|
                            0 <= i < xs.len() ==> assignable(
                                t,
                                d,
                                #[trigger] xs[i],
                                #[trigger] ys[i],
                            )
                    },
                    _ => false,
                }
            },
        }
    }
}

/// A value of type `source` can be used where `target` is expected.
pub open spec fn flows(t: TableModel, target: Ty, source: Ty) -> bool {
    assignable(t, DEPTH as nat, target, source)
}

/// Nullability is strict: a nullable value, and `null`, go only into nullable
/// types and unbound type parameters; and whatever goes into `T` goes into `T?`.
pub proof fn nullability_is_strict(t: TableModel, depth: nat, target: Ty, source: Ty)
    requires
        depth > 0,
    ensures
        source is Nullable && !(target is Nullable) && !(target is GenericParam) ==> !assignable(
            t,
            depth,
            target,
            source,
        ),
        assignable(t, depth, Ty::Nullable(Box::new(target)), Ty::Class("null"@, seq![])),
        assignable(t, depth, target, source) && !(source is Nullable) ==> assignable(
            t,
            depth + 1,
            Ty::Nullable(Box::new(target)),
            source,
        ),
{
}

fn variance_of(info: Option<&ClassInfo>, i: usize) -> (r: Option<Variance>)
    ensures
        match info {
            Some(c) => r == (if i < c@.generics.len() {
                Some(c@.generics[i as int].variance)
            } else {
                None
            }),
            None => r is None,
        },
{
    match info {
        Some(c) => if i < c.generic_params.len() {
            Some(c.generic_params[i].variance)
        } else {
            None
        },
        None => None,
    }
}

impl Tables {
    /// True if `source` can be implicitly converted to `target`. Numeric
    /// conversions are widening-only; narrowing and float-to-int require an
    /// explicit cast.
    pub fn is_assignable(&self, target: &Type, source: &Type) -> (r: bool)
        ensures
            r == flows(self@, target@, source@),
    {
        self.assignable_within(DEPTH, target, source)
    }

    #[verifier::rlimit(50)]
    fn assignable_within(&self, depth: usize, target: &Type, source: &Type) -> (r: bool)
        ensures
            r == assignable(self@, depth as nat, target@, source@),
        decreases depth, 0int,
    {
        if same_type(target, source) {
            return true;
        }
        if depth == 0 {
            return false;
        }
        let d: usize = depth - 1;
        match (target, source) {
            (Type::Nullable(a), Type::Nullable(b)) => self.assignable_within(d, a, b),
            (Type::Nullable(a), _) => source.is_null() || self.assignable_within(d, a, source),
            (_, Type::Nullable(_)) => matches!(target, Type::GenericParam(_)),
            (_, Type::IntLit(v)) => int_target_fits(target, *v),
            (Type::Float32, Type::FloatLit(_)) => true,
            (Type::Float64, Type::FloatLit(_)) => true,
            (Type::String, Type::StringLit(_)) => true,
            (Type::LiteralUnion(_, members), Type::StringLit(v)) => has_text(members, v.as_str()),
            (Type::String, Type::LiteralUnion(_, _)) => true,
            (Type::LiteralUnion(_, a), Type::LiteralUnion(_, b)) => holds_all(a, b),
            _ => self.rest_assignable(d, target, source),
        }
    }

    /// The rules that are left when nullability and literals have been dealt with.
    #[verifier::rlimit(50)]
    fn rest_assignable(&self, d: usize, target: &Type, source: &Type) -> (r: bool)
        requires
            target@ != source@,
            !(target@ is Nullable),
            !(source@ is Nullable),
            !(source@ is IntLit),
            !(target@.is_float() && source@ is FloatLit),
            !(target@ is String && (source@ is StringLit || source@ is LiteralUnion)),
            !(target@ is LiteralUnion && (source@ is StringLit || source@ is LiteralUnion)),
            d < usize::MAX,
        ensures
            r == assignable(self@, (d + 1) as nat, target@, source@),
        decreases d, 1int,
    {
        if is_numeric(target) && is_numeric(source) {
            return numeric_widening(target, source);
        }
        match (target, source) {
            (Type::GenericParam(_), _) => true,
            (_, Type::GenericParam(_)) => true,
            (Type::Class(m, xs), Type::Class(n, ys)) => {
                let info: Option<&ClassInfo> = find(&self.classes, m.as_str());
                assert(tys(xs@).len() == xs@.len());
                assert(tys(ys@).len() == ys@.len());
                if same(m.as_str(), n.as_str()) && xs.len() > 0 && ys.len() > 0 {
                    if xs.len() != ys.len() {
                        return false;
                    }
                    let mut i: usize = 0;
                    while i < xs.len()
                        invariant
                            i <= xs@.len(),
                            xs@.len() == ys@.len(),
                            match info {
                                Some(c) => lookup(self@.classes, m@) == Some(c@),
                                None => lookup(self@.classes, m@) is None,
                            },
                            forall|j: int|
                                0 <= j < i ==> if variance_at(self@.classes, m@, j) == Some(
                                    Variance::Contravariant,
                                ) {
                                    assignable(
                                        self@,
                                        d as nat,
                                        #[trigger] tys(ys@)[j],
                                        #[trigger] tys(xs@)[j],
                                    )
                                } else {
                                    assignable(self@, d as nat, tys(xs@)[j], tys(ys@)[j])
                                },
                            target@ == Ty::Class(m@, tys(xs@)),
                            source@ == Ty::Class(n@, tys(ys@)),
                            m@ == n@,
                            target@ != source@,
                            xs@.len() > 0,
                        decreases xs.len() - i,
                    {
                        let v: Option<Variance> = variance_of(info, i);
                        assert(v == variance_at(self@.classes, m@, i as int));
                        let ok: bool = if matches!(v, Some(Variance::Contravariant)) {
                            self.assignable_within(d, &ys[i], &xs[i])
                        } else {
                            self.assignable_within(d, &xs[i], &ys[i])
                        };
                        if !ok {
                            assert(tys(xs@)[i as int] == xs@[i as int]@);
                            assert(tys(ys@)[i as int] == ys@[i as int]@);
                            return false;
                        }
                        i = i + 1;
                    }
                    return true;
                }
                let generic: bool = match info {
                    Some(c) => c.is_interface && c.generic_params.len() > 0,
                    None => false,
                };
                if xs.len() > 0 && generic {
                    let zs: Vec<Type> = match self.declared_interface_args(
                        n.as_str(),
                        ys,
                        m.as_str(),
                    ) {
                        Some(zs) => zs,
                        None => return false,
                    };
                    assert(tys(zs@).len() == zs@.len());
                    if xs.len() != zs.len() {
                        return false;
                    }
                    let mut i: usize = 0;
                    while i < xs.len()
                        invariant
                            i <= xs@.len(),
                            xs@.len() == zs@.len(),
                            match info {
                                Some(c) => lookup(self@.classes, m@) == Some(c@),
                                None => lookup(self@.classes, m@) is None,
                            },
                            forall|j: int|
                                0 <= j < i ==> match variance_at(self@.classes, m@, j) {
                                    Some(Variance::Covariant) => assignable(
                                        self@,
                                        d as nat,
                                        #[trigger] tys(xs@)[j],
                                        #[trigger] tys(zs@)[j],
                                    ),
                                    Some(Variance::Contravariant) => assignable(
                                        self@,
                                        d as nat,
                                        tys(zs@)[j],
                                        tys(xs@)[j],
                                    ),
                                    _ => tys(xs@)[j] == tys(zs@)[j],
                                },
                            target@ == Ty::Class(m@, tys(xs@)),
                            source@ == Ty::Class(n@, tys(ys@)),
                            !(m@ == n@ && tys(ys@).len() > 0),
                            target@ != source@,
                            xs@.len() > 0,
                            generic_interface(self@.classes, m@),
                            declared_args(self@.classes, n@, tys(ys@), m@) == Some(tys(zs@)),
                        decreases xs.len() - i,
                    {
                        let v: Option<Variance> = variance_of(info, i);
                        assert(v == variance_at(self@.classes, m@, i as int));
                        let ok: bool = match v {
                            Some(Variance::Covariant) => self.assignable_within(d, &xs[i], &zs[i]),
                            Some(Variance::Contravariant) => self.assignable_within(
                                d,
                                &zs[i],
                                &xs[i],
                            ),
                            _ => same_type(&xs[i], &zs[i]),
                        };
                        if !ok {
                            assert(tys(xs@)[i as int] == xs@[i as int]@);
                            assert(tys(zs@)[i as int] == zs@[i as int]@);
                            return false;
                        }
                        i = i + 1;
                    }
                    return true;
                }
                self.is_subclass_of(n.as_str(), m.as_str()) || structurally_satisfies(
                    self,
                    n.as_str(),
                    m.as_str(),
                )
            },
            (Type::Class(m, _), Type::Enum(n)) => same(m.as_str(), n.as_str()),
            (Type::Enum(m), Type::Class(n, _)) => same(m.as_str(), n.as_str()),
            (Type::Tuple(xs), Type::Tuple(ys)) => {
                assert(tys(xs@).len() == xs@.len());
                assert(tys(ys@).len() == ys@.len());
                if xs.len() != ys.len() {
                    return false;
                }
                let mut i: usize = 0;
                while i < xs.len()
                    invariant
                        i <= xs@.len(),
                        xs@.len() == ys@.len(),
                        forall|j: int|
                            0 <= j < i ==> assignable(
                                self@,
                                d as nat,
                                #[trigger] tys(xs@)[j],
                                #[trigger] tys(ys@)[j],
                            ),
                        target@ == Ty::Tuple(tys(xs@)),
                        source@ == Ty::Tuple(tys(ys@)),
                        target@ != source@,
                    decreases xs.len() - i,
                {
                    if !self.assignable_within(d, &xs[i], &ys[i]) {
                        assert(tys(xs@)[i as int] == xs@[i as int]@);
                        assert(tys(ys@)[i as int] == ys@[i as int]@);
                        return false;
                    }
                    i = i + 1;
                }
                true
            },
            _ => false,
        }
    }
}

/// Whether a list holds every text of another.
fn holds_all(a: &Vec<String>, b: &Vec<String>) -> (r: bool)
    ensures
        r == (forall|i: int| 0 <= i < b@.len() ==> texts(a@).contains(#[trigger] texts(b@)[i])),
{
    let mut i: usize = 0;
    while i < b.len()
        invariant
            i <= b@.len(),
            forall|j: int| 0 <= j < i ==> texts(a@).contains(#[trigger] texts(b@)[j]),
        decreases b.len() - i,
    {
        if !has_text(a, b[i].as_str()) {
            assert(!texts(a@).contains(texts(b@)[i as int]));
            return false;
        }
        i = i + 1;
    }
    true
}

// ---------------------------------------------------------------------------
// Unification
// ---------------------------------------------------------------------------

/// How two bindings of one type variable are merged.
pub enum JoinRule<'a> {
    /// The first stays.
    KeepFirst,
    /// The more general one by assignability; there is a conflict where neither
    /// is.
    Widen(&'a Tables),
}

/// The rule by value: the tables of a widening rule.
pub open spec fn rule_of(j: JoinRule<'_>) -> Option<TableModel> {
    match j {
        JoinRule::KeepFirst => None,
        JoinRule::Widen(t) => Some(t@),
    }
}

/// Bindings, with the first conflict.
pub ghost struct Bound {
    /// What each variable is bound to.
    pub bindings: Seq<(Seq<char>, Ty)>,
    /// Variable and the two types that cannot be merged.
    pub conflict: Option<(Seq<char>, Ty, Ty)>,
}

/// A variable is bound to a type once more.
pub open spec fn bound_to(b: Bound, name: Seq<char>, arg: Ty, rule: Option<TableModel>) -> Bound {
    match lookup(b.bindings, name) {
        None => Bound { bindings: put(b.bindings, name, arg), conflict: b.conflict },
        Some(prev) => if prev == arg {
            b
        } else {
            match rule {
                None => b,
                Some(t) => if flows(t, prev, arg) {
                    b
                } else if flows(t, arg, prev) {
                    Bound { bindings: put(b.bindings, name, arg), conflict: b.conflict }
                } else if b.conflict is None {
                    Bound { bindings: b.bindings, conflict: Some((name, prev, arg)) }
                } else {
                    b
                },
            }
        },
    }
}

/// The type variable that a type refers to.
pub open spec fn variable(t: Ty, vars: Seq<Seq<char>>) -> Option<Seq<char>> {
    match t {
        Ty::GenericParam(n) => if vars.contains(n) {
            Some(n)
        } else {
            None
        },
        Ty::Class(n, args) => if args.len() == 0 && vars.contains(n) {
            Some(n)
        } else {
            None
        },
        _ => None,
    }
}

/// Unification of the types from `i` on, pair by pair.
pub open spec fn unified_from(
    ps: Seq<Ty>,
    args: Seq<Ty>,
    i: int,
    vars: Seq<Seq<char>>,
    b: Bound,
    rule: Option<TableModel>,
) -> Bound
    decreases ps, ps.len() - i,
{
    if i < 0 || i >= ps.len() || i >= args.len() {
        b
    } else {
        unified_from(ps, args, i + 1, vars, unified(ps[i], args[i], vars, b, rule), rule)
    }
}

/// A declared parameter type is matched against an argument type: where the
/// parameter refers to a variable, the variable is bound to the argument.
pub open spec fn unified(
    param: Ty,
    arg: Ty,
    vars: Seq<Seq<char>>,
    b: Bound,
    rule: Option<TableModel>,
) -> Bound
    decreases param, 0int,
{
    match variable(param, vars) {
        Some(n) => bound_to(b, n, arg, rule),
        None => match (param, arg) {
            (Ty::Class(m, xs), Ty::Class(n, ys)) => if m == n && xs.len() == ys.len() {
                unified_from(xs, ys, 0, vars, b, rule)
            } else {
                b
            },
            (Ty::Nullable(p), Ty::Nullable(a)) => unified(*p, *a, vars, b, rule),
            (Ty::Func(xs, p), Ty::Func(ys, a)) => if xs.len() == ys.len() {
                unified(*p, *a, vars, unified_from(xs, ys, 0, vars, b, rule), rule)
            } else {
                b
            },
            (Ty::Nullable(p), a) => unified(*p, a, vars, b, rule),
            (Ty::Tuple(xs), Ty::Tuple(ys)) => if xs.len() == ys.len() {
                unified_from(xs, ys, 0, vars, b, rule)
            } else {
                b
            },
            _ => b,
        },
    }
}

/// A conflict by value.
pub open spec fn conflict_of(c: Option<(String, Type, Type)>) -> Option<(Seq<char>, Ty, Ty)> {
    match c {
        Some((n, a, b)) => Some((n@, a@, b@)),
        None => None,
    }
}

/// Bindings and conflict by value.
pub open spec fn bound_of(bindings: Seq<(String, Type)>, c: Option<(String, Type, Type)>) -> Bound {
    Bound { bindings: entries(bindings), conflict: conflict_of(c) }
}

fn bind(
    name: &str,
    arg: &Type,
    bindings: &mut Vec<(String, Type)>,
    conflict: &mut Option<(String, Type, Type)>,
    rule: &JoinRule<'_>,
)
    ensures
        bound_of(final(bindings)@, *final(conflict)) == bound_to(
            bound_of(old(bindings)@, *old(conflict)),
            name@,
            arg@,
            rule_of(*rule),
        ),
{
    let prev: Type = match find(bindings, name) {
        None => {
            insert(bindings, name, arg.clone());
            return ;
        },
        Some(p) => p.clone(),
    };
    if same_type(&prev, arg) {
        return ;
    }
    match rule {
        JoinRule::KeepFirst => {},
        JoinRule::Widen(tables) => {
            if tables.is_assignable(&prev, arg) {
                return ;
            }
            if tables.is_assignable(arg, &prev) {
                insert(bindings, name, arg.clone());
                return ;
            }
            if conflict.is_none() {
                *conflict = Some((crate::text::own(name), prev, arg.clone()));
            }
        },
    }
}

fn unify_all(
    ps: &Vec<Type>,
    args: &Vec<Type>,
    vars: &Vec<String>,
    bindings: &mut Vec<(String, Type)>,
    conflict: &mut Option<(String, Type, Type)>,
    rule: &JoinRule<'_>,
)
    requires
        ps@.len() == args@.len(),
    ensures
        bound_of(final(bindings)@, *final(conflict)) == unified_from(
            tys(ps@),
            tys(args@),
            0,
            texts(vars@),
            bound_of(old(bindings)@, *old(conflict)),
            rule_of(*rule),
        ),
    decreases ps, 0int,
{
    let mut i: usize = 0;
    let ghost start = bound_of(bindings@, *conflict);
    let ghost want = unified_from(tys(ps@), tys(args@), 0, texts(vars@), start, rule_of(*rule));
    while i < ps.len()
        invariant
            i <= ps@.len(),
            ps@.len() == args@.len(),
            want == unified_from(
                tys(ps@),
                tys(args@),
                i as int,
                texts(vars@),
                bound_of(bindings@, *conflict),
                rule_of(*rule),
            ),
        decreases ps.len() - i,
    {
        proof {
            assert(decreases_to!(ps => ps@[i as int]));
            assert(tys(ps@)[i as int] == ps@[i as int]@);
            assert(tys(args@)[i as int] == args@[i as int]@);
        }
        unify_generic_types(&ps[i], &args[i], vars, bindings, conflict, rule);
        i = i + 1;
    }
}

fn variable_in<'a>(t: &'a Type, vars: &Vec<String>) -> (r: Option<&'a String>)
    ensures
        match r {
            Some(n) => variable(t@, texts(vars@)) == Some(n@),
            None => variable(t@, texts(vars@)) is None,
        },
{
    match t {
        Type::GenericParam(n) => if has_text(vars, n.as_str()) {
            Some(n)
        } else {
            None
        },
        Type::Class(n, args) => {
            assert(tys(args@).len() == args@.len());
            if args.len() == 0 && has_text(vars, n.as_str()) {
                Some(n)
            } else {
                None
            }
        },
        _ => None,
    }
}

/// Structurally match a declared parameter type against an argument type,
/// binding the type variables named in `vars` (method-level generic
/// parameters appear both as `Type::GenericParam` and as bare
/// `Type::Class(name, [])` references). When a variable is already bound,
/// `rule` decides the merged binding; the first pair of types that cannot be
/// merged is recorded in `conflict` and the previous binding stays. Positions
/// without variables are left to ordinary assignability checking afterwards.
pub fn unify_generic_types(
    param: &Type,
    arg: &Type,
    vars: &Vec<String>,
    bindings: &mut Vec<(String, Type)>,
    conflict: &mut Option<(String, Type, Type)>,
    rule: &JoinRule<'_>,
)
    ensures
        bound_of(final(bindings)@, *final(conflict)) == unified(
            param@,
            arg@,
            texts(vars@),
            bound_of(old(bindings)@, *old(conflict)),
            rule_of(*rule),
        ),
    decreases param, 0int,
{
    if let Some(n) = variable_in(param, vars) {
        bind(n.as_str(), arg, bindings, conflict, rule);
        return ;
    }
    match (param, arg) {
        (Type::Class(m, xs), Type::Class(n, ys)) => {
            assert(tys(xs@).len() == xs@.len());
            assert(tys(ys@).len() == ys@.len());
            if same(m.as_str(), n.as_str()) && xs.len() == ys.len() {
                unify_all(xs, ys, vars, bindings, conflict, rule);
            }
        },
        (Type::Nullable(p), Type::Nullable(a)) => unify_generic_types(
            p,
            a,
            vars,
            bindings,
            conflict,
            rule,
        ),
        (Type::Func(xs, p), Type::Func(ys, a)) => {
            assert(tys(xs@).len() == xs@.len());
            assert(tys(ys@).len() == ys@.len());
            if xs.len() == ys.len() {
                unify_all(xs, ys, vars, bindings, conflict, rule);
                unify_generic_types(p, a, vars, bindings, conflict, rule);
            }
        },
        (Type::Nullable(p), _) => unify_generic_types(p, arg, vars, bindings, conflict, rule),
        (Type::Tuple(xs), Type::Tuple(ys)) => {
            assert(tys(xs@).len() == xs@.len());
            assert(tys(ys@).len() == ys@.len());
            if xs.len() == ys.len() {
                unify_all(xs, ys, vars, bindings, conflict, rule);
            }
        },
        _ => {},
    }
}

} // verus!
