//! Rules that several kinds of expressions share: access, validity of types,
//! constraints, checked exceptions, and the texts of mismatches.

use crate::text::{cat2, cat3, cat4, cat5, cat6, cat7, cat8, dec, dec_u64, own, same};
use crate::typer::assign::{flows, opt_str, structural_failure};
use crate::typer::ast::{
    has_text, join, joined, same_type, texts, ty_name, ty_names, type_names, tys, Accessor, BinOp,
    GenericParam, ParamModel, Ty, Type, views, Visibility,
};
use crate::typer::hierarchy::{method_found, push_keys, subclass};
use crate::typer::info::{ClassInfo, ClassModel, MethodInfo, TableModel, Tables};
use crate::typer::keyed::{entries, find, holds, keys, lookup};
use crate::typer::suggest::{chars_of, suggest, suggestion};
use crate::typer::types::{
    build_subst, is_numeric, numeric, operator_method, operator_method_name, subst_of, subst_ty,
    substitute_type, visibility_name, visibility_text,
};
use vstd::prelude::*;

verus! {

/// A result without a value, by value.
pub open spec fn done(r: Result<(), String>) -> Result<(), Seq<char>> {
    match r {
        Ok(_) => Ok(()),
        Err(e) => Err(e@),
    }
}

/// What surrounds the code that is checked.
pub struct Scope<'a> {
    /// The class.
    pub class: &'a ClassInfo,
    /// Whether there is a `this`.
    pub in_instance: bool,
    /// What the enclosing function returns.
    pub return_ty: &'a Type,
    /// The type parameters of the class and the method.
    pub generics: &'a Vec<GenericParam>,
    /// The exceptions that the method declares.
    pub throws: &'a Vec<String>,
    /// The exceptions that enclosing `try` blocks catch.
    pub handled: &'a Vec<Type>,
    /// Whether the body belongs to an `async` method.
    pub is_async: bool,
}

/// What surrounds the code that is checked, by value.
pub ghost struct Around {
    /// The class.
    pub class: ClassModel,
    /// There is a `this`.
    pub in_instance: bool,
    /// What the enclosing function returns.
    pub return_ty: Ty,
    /// Type parameters.
    pub generics: Seq<ParamModel>,
    /// Declared exceptions.
    pub throws: Seq<Seq<char>>,
    /// Caught exceptions.
    pub handled: Seq<Ty>,
    /// The body is `async`.
    pub is_async: bool,
}

impl<'a> View for Scope<'a> {
    type V = Around;

    open spec fn view(&self) -> Around {
        Around {
            class: self.class@,
            in_instance: self.in_instance,
            return_ty: self.return_ty@,
            generics: views(self.generics@),
            throws: texts(self.throws@),
            handled: tys(self.handled@),
            is_async: self.is_async,
        }
    }
}

// ---------------------------------------------------------------------------
// Access
// ---------------------------------------------------------------------------

/// A class is nested in another by name: `Outer.Inner` in `Outer`.
pub open spec fn nested_in(inner: Seq<char>, outer: Seq<char>) -> bool {
    inner.len() > outer.len() + 1 && inner.subrange(0, outer.len() as int) == outer
        && inner[outer.len() as int] == '.'
}

/// The module of a class; classes that are not known share one.
pub open spec fn module_of(cs: Seq<(Seq<char>, ClassModel)>, name: Seq<char>) -> Seq<char> {
    match lookup(cs, name) {
        Some(c) => c.module,
        None => seq![],
    }
}

/// A member that `declared_in` declares may be used by code in `current`.
pub open spec fn accessible(
    cs: Seq<(Seq<char>, ClassModel)>,
    current: Seq<char>,
    declared_in: Seq<char>,
    v: Visibility,
) -> bool {
    match v {
        Visibility::Public => true,
        Visibility::Protected => current == declared_in || subclass(cs, current, declared_in)
            || nested_in(current, declared_in),
        Visibility::Private => current == declared_in || nested_in(current, declared_in),
        Visibility::Internal => module_of(cs, current) == module_of(cs, declared_in),
    }
}

/// What is private is also protected: code that may use a private member may
/// use a protected one of the same class.
pub proof fn private_implies_protected(
    cs: Seq<(Seq<char>, ClassModel)>,
    current: Seq<char>,
    declared_in: Seq<char>,
)
    requires
        accessible(cs, current, declared_in, Visibility::Private),
    ensures
        accessible(cs, current, declared_in, Visibility::Protected),
        accessible(cs, current, declared_in, Visibility::Public),
{
}

fn is_nested_in(inner: &str, outer: &str) -> (r: bool)
    ensures
        r == nested_in(inner@, outer@),
{
    let xs: Vec<char> = chars_of(inner);
    let ys: Vec<char> = chars_of(outer);
    if xs.len() <= ys.len() || xs.len() - ys.len() <= 1 {
        return false;
    }
    let mut i: usize = 0;
    while i < ys.len()
        invariant
            i <= ys@.len(),
            xs@ == inner@,
            ys@ == outer@,
            xs@.len() > ys@.len() + 1,
            forall|j: int| 0 <= j < i ==> xs@[j] == ys@[j],
        decreases ys.len() - i,
    {
        if xs[i] != ys[i] {
            assert(inner@.subrange(0, outer@.len() as int)[i as int] != outer@[i as int]);
            return false;
        }
        i = i + 1;
    }
    assert(inner@.subrange(0, outer@.len() as int) =~= outer@);
    xs[ys.len()] == '.'
}

impl Tables {
    fn find_module(&self, name: &str) -> (r: String)
        ensures
            r@ == module_of(self@.classes, name@),
    {
        match find(&self.classes, name) {
            Some(c) => c.module.clone(),
            None => {
                let none: String = String::new();
                assert(none@ =~= seq![]);
                none
            },
        }
    }

    /// Whether members declared in `declared_in` with `visibility` are
    /// accessible from code in class `current`. A nested class can access its
    /// enclosing class's private and protected members (`Outer.Inner` reaches
    /// into `Outer`); the reverse is not granted.
    pub fn can_access(&self, current: &str, declared_in: &str, visibility: Visibility) -> (r: bool)
        ensures
            r == accessible(self@.classes, current@, declared_in@, visibility),
    {
        match visibility {
            Visibility::Public => true,
            Visibility::Protected => same(current, declared_in) || self.is_subclass_of(
                current,
                declared_in,
            ) || is_nested_in(current, declared_in),
            Visibility::Private => same(current, declared_in) || is_nested_in(current, declared_in),
            Visibility::Internal => {
                let a: String = self.find_module(current);
                let b: String = self.find_module(declared_in);
                same(a.as_str(), b.as_str())
            },
        }
    }
}

/// A member that may not be used.
pub open spec fn denied(kind: Seq<char>, name: Seq<char>, owner: Seq<char>, v: Visibility) -> Seq<
    char,
> {
    kind + " `"@ + name + "` on `"@ + owner + "` is "@ + visibility_text(v)
}

/// The message for a member that may not be used.
pub fn deny(kind: &str, name: &str, owner: &str, v: Visibility) -> (r: String)
    ensures
        r@ == denied(kind@, name@, owner@, v),
{
    cat6(kind, " `", name, "` on `", owner, "` is ").concat(visibility_name(v))
}

/// How restrictive a visibility is; the most restrictive comes first.
pub open spec fn openness(v: Visibility) -> int {
    match v {
        Visibility::Private => 0,
        Visibility::Protected => 1,
        Visibility::Internal => 2,
        Visibility::Public => 3,
    }
}

fn openness_of(v: Visibility) -> (r: u8)
    ensures
        r == openness(v),
{
    match v {
        Visibility::Private => 0,
        Visibility::Protected => 1,
        Visibility::Internal => 2,
        Visibility::Public => 3,
    }
}

/// The visibility that is written on an accessor.
pub open spec fn written_visibility(a: Option<Accessor>) -> Option<Visibility> {
    match a {
        Some(x) => x.visibility,
        None => None,
    }
}

/// The visibility of an accessor: its own, which must be more restrictive than
/// that of the property, or else that of the property.
pub open spec fn accessor_visibility(property: Visibility, own: Option<Visibility>) -> Result<
    Visibility,
    Seq<char>,
> {
    match own {
        None => Ok(property),
        Some(v) => if openness(v) >= openness(property) {
            Err(
                "accessor visibility "@ + visibility_text(v)
                    + " is not more restrictive than the property visibility "@ + visibility_text(
                    property,
                ),
            )
        } else {
            Ok(v)
        },
    }
}

/// Effective visibility of an accessor. An explicit accessor modifier must
/// be more restrictive than the property's own visibility; when absent the
/// accessor inherits the property visibility.
pub fn effective_accessor_visibility(
    property_visibility: Visibility,
    accessor: &Option<Accessor>,
) -> (r: Result<Visibility, String>)
    ensures
        match r {
            Ok(v) => accessor_visibility(property_visibility, written_visibility(*accessor)) == Ok::<
                Visibility,
                Seq<char>,
            >(v),
            Err(e) => accessor_visibility(property_visibility, written_visibility(*accessor))
                == Err::<Visibility, Seq<char>>(e@),
        },
{
    let own: Option<Visibility> = match accessor {
        Some(a) => a.visibility,
        None => None,
    };
    match own {
        None => Ok(property_visibility),
        Some(v) => {
            if openness_of(v) >= openness_of(property_visibility) {
                Err(
                    cat4(
                        "accessor visibility ",
                        visibility_name(v),
                        " is not more restrictive than the property visibility ",
                        visibility_name(property_visibility),
                    ),
                )
            } else {
                Ok(v)
            }
        },
    }
}

// ---------------------------------------------------------------------------
// Mismatches
// ---------------------------------------------------------------------------

/// A text as a string literal.
pub uninterp spec fn quoted_text(s: Seq<char>) -> Seq<char>;

/// The `Debug` form of a string (`format!` with `{:?}`): the text in double
/// quotes, with characters escaped where they have to be. Claims only that the
/// form depends on nothing but the text.
#[verifier::external_body]
fn quote(s: &str) -> (r: String)
    ensures
        r@ == quoted_text(s@),
{
    format!("{:?}", s)
}

/// The first `n` texts of a list, quoted.
pub open spec fn quoted_upto(ms: Seq<Seq<char>>, n: int) -> Seq<Seq<char>> {
    Seq::new(
        if ms.len() < n {
            ms.len()
        } else {
            n as nat
        },
        |i: int| quoted_text(ms[i]),
    )
}

fn quote_upto(ms: &Vec<String>, n: usize) -> (r: Vec<String>)
    ensures
        texts(r@) == quoted_upto(texts(ms@), n as int),
{
    let mut out: Vec<String> = Vec::new();
    let mut i: usize = 0;
    while i < ms.len() && i < n
        invariant
            i <= ms@.len(),
            i <= n,
            out@.len() == i,
            forall|j: int| 0 <= j < i ==> (#[trigger] out@[j])@ == quoted_text(ms@[j]@),
        decreases ms.len() - i,
    {
        out.push(quote(ms[i].as_str()));
        i = i + 1;
    }
    assert(texts(out@) =~= quoted_upto(texts(ms@), n as int));
    out
}

/// The texts of `sm` from `i` on that `tm` lacks, at most `left`, quoted.
pub open spec fn extras(sm: Seq<Seq<char>>, tm: Seq<Seq<char>>, i: int, left: int) -> Seq<Seq<char>>
    decreases sm.len() - i,
{
    if i < 0 || i >= sm.len() || left <= 0 {
        seq![]
    } else if tm.contains(sm[i]) {
        extras(sm, tm, i + 1, left)
    } else {
        seq![quoted_text(sm[i])] + extras(sm, tm, i + 1, left - 1)
    }
}

fn find_extras(sm: &Vec<String>, tm: &Vec<String>, most: usize) -> (r: Vec<String>)
    ensures
        texts(r@) == extras(texts(sm@), texts(tm@), 0, most as int),
{
    let mut out: Vec<String> = Vec::new();
    let mut left: usize = most;
    let mut i: usize = 0;
    let ghost want = extras(texts(sm@), texts(tm@), 0, most as int);
    assert(texts(out@) + want =~= want);
    while i < sm.len() && left > 0
        invariant
            i <= sm@.len(),
            want == texts(out@) + extras(texts(sm@), texts(tm@), i as int, left as int),
        decreases sm.len() - i,
    {
        if !has_text(tm, sm[i].as_str()) {
            let ghost before = texts(out@);
            let q: String = quote(sm[i].as_str());
            out.push(q);
            left = left - 1;
            proof {
                assert(texts(out@) =~= before.push(q@));
                let tail = extras(texts(sm@), texts(tm@), i + 1, left as int);
                assert(before + (seq![q@] + tail) =~= texts(out@) + tail);
            }
        }
        i = i + 1;
    }
    assert(texts(out@) + Seq::<Seq<char>>::empty() =~= texts(out@));
    out
}

/// A literal is not a member of a union; the literals come quoted.
pub open spec fn not_a_member(
    literal: Seq<char>,
    union_name: Seq<char>,
    members: Seq<Seq<char>>,
    more: bool,
) -> Seq<char> {
    literal + " is not a member of `"@ + union_name + "` (members: "@ + joined(members, " | "@) + (
    if more {
        " | ..."@
    } else {
        ""@
    }) + ")"@
}

/// A literal is not a member of a union; the literals come quoted.
pub fn member_hint(literal: &str, union_name: &str, members: &Vec<String>, more: bool) -> (r: String)
    ensures
        r@ == not_a_member(literal@, union_name@, texts(members@), more),
{
    let shown: String = join(members, " | ");
    let dots: &str = if more {
        " | ..."
    } else {
        ""
    };
    cat7(literal, " is not a member of `", union_name, "` (members: ", shown.as_str(), dots, ")")
}

/// A union has members that another one has not; the literals come quoted.
pub open spec fn holds_more(
    source: Seq<char>,
    extra: Seq<Seq<char>>,
    target: Seq<char>,
) -> Seq<char> {
    "`"@ + source + "` can hold "@ + joined(extra, ", "@) + " which `"@ + target + "` cannot"@
}

/// A union has members that another one has not; the literals come quoted.
pub fn extra_hint(source: &str, extra: &Vec<String>, target: &str) -> (r: String)
    ensures
        r@ == holds_more(source@, texts(extra@), target@),
{
    let shown: String = join(extra, ", ");
    cat7("`", source, "` can hold ", shown.as_str(), " which `", target, "` cannot")
}

/// Why `source` does not flow into `target`, where there is a known fix.
pub open spec fn hint(t: TableModel, target: Ty, source: Ty) -> Option<Seq<char>> {
    if source is Nullable && flows(t, target, *source->Nullable_0) {
        Some("the value may be null: narrow with `if (x != null)`, or use `!` / `??`"@)
    } else if target is Newtype && flows(t, *target->Newtype_1, source) {
        Some("wrap the value: `"@ + target->Newtype_0 + "(...)`"@)
    } else if source is Newtype && flows(t, target, *source->Newtype_1) {
        Some("unwrap the value with `.Value`"@)
    } else {
        match (target, source) {
            (Ty::LiteralUnion(n, ms), Ty::StringLit(v)) => Some(
                not_a_member(quoted_text(v), n, quoted_upto(ms, 6), ms.len() > 6),
            ),
            (Ty::LiteralUnion(tn, tm), Ty::LiteralUnion(sn, sm)) => {
                let extra = extras(sm, tm, 0, 4);
                if extra.len() == 0 {
                    None
                } else {
                    Some(holds_more(sn, extra, tn))
                }
            },
            (Ty::Class(tn, ta), Ty::Class(sn, _)) => if ta.len() == 0 && (lookup(t.classes, tn)
                matches Some(c) && c.is_interface) {
                structural_failure(t, sn, tn)
            } else {
                None
            },
            (a, b) => if numeric(a) && numeric(b) {
                Some(
                    "narrowing conversion from "@ + ty_name(b) + " to "@ + ty_name(a)
                        + " can lose range; widen the target or convert explicitly"@,
                )
            } else {
                None
            },
        }
    }
}

/// A mismatch, with the hint where one applies.
pub open spec fn mismatch(t: TableModel, base: Seq<char>, target: Ty, source: Ty) -> Seq<char> {
    match hint(t, target, source) {
        Some(h) => base + "; hint: "@ + h,
        None => base,
    }
}

impl Tables {
    /// A one-line hint explaining WHY `source` does not flow into `target`,
    /// when the pair matches a known pattern with a known fix. Appended to
    /// assignment/argument/return mismatch errors.
    pub fn mismatch_hint(&self, target: &Type, source: &Type) -> (r: Option<String>)
        ensures
            opt_str(r) == hint(self@, target@, source@),
    {
        if let Type::Nullable(inner) = source {
            if self.is_assignable(target, inner) {
                return Some(
                    own("the value may be null: narrow with `if (x != null)`, or use `!` / `??`"),
                );
            }
        }
        if let Type::Newtype(n, u) = target {
            if self.is_assignable(u, source) {
                return Some(cat3("wrap the value: `", n.as_str(), "(...)`"));
            }
        }
        if let Type::Newtype(_, u) = source {
            if self.is_assignable(target, u) {
                return Some(own("unwrap the value with `.Value`"));
            }
        }
        match (target, source) {
            (Type::LiteralUnion(n, members), Type::StringLit(v)) => {
                let shown: Vec<String> = quote_upto(members, 6);
                let q: String = quote(v.as_str());
                Some(member_hint(q.as_str(), n.as_str(), &shown, members.len() > 6))
            },
            (Type::LiteralUnion(tn, tm), Type::LiteralUnion(sn, sm)) => {
                let extra: Vec<String> = find_extras(sm, tm, 4);
                if extra.len() == 0 {
                    assert(texts(extra@).len() == 0);
                    None
                } else {
                    assert(texts(extra@).len() != 0);
                    Some(extra_hint(sn.as_str(), &extra, tn.as_str()))
                }
            },
            (Type::Class(tn, ta), Type::Class(sn, _)) => {
                assert(tys(ta@).len() == ta@.len());
                let is_interface: bool = match find(&self.classes, tn.as_str()) {
                    Some(c) => c.is_interface,
                    None => false,
                };
                if ta.len() == 0 && is_interface {
                    self.explain_structural_failure(sn.as_str(), tn.as_str())
                } else {
                    None
                }
            },
            _ => {
                if is_numeric(target) && is_numeric(source) {
                    let a: String = target.name();
                    let b: String = source.name();
                    Some(
                        cat5(
                            "narrowing conversion from ",
                            b.as_str(),
                            " to ",
                            a.as_str(),
                            " can lose range; widen the target or convert explicitly",
                        ),
                    )
                } else {
                    None
                }
            },
        }
    }

    /// Format a mismatch error with the hint appended when one applies.
    pub fn mismatch_error(&self, base: String, target: &Type, source: &Type) -> (r: String)
        ensures
            r@ == mismatch(self@, base@, target@, source@),
    {
        match self.mismatch_hint(target, source) {
            Some(h) => cat3(base.as_str(), "; hint: ", h.as_str()),
            None => base,
        }
    }
}

// ---------------------------------------------------------------------------
// Holes
// ---------------------------------------------------------------------------

/// One text does not come after another in the order of their characters.
pub open spec fn text_le(a: Seq<char>, b: Seq<char>, i: int) -> bool
    decreases a.len() - i,
{
    if i < 0 || i >= a.len() {
        true
    } else if i >= b.len() {
        false
    } else if a[i] != b[i] {
        (a[i] as u32) < (b[i] as u32)
    } else {
        text_le(a, b, i + 1)
    }
}

fn comes_before(a: &str, b: &str) -> (r: bool)
    ensures
        r == text_le(a@, b@, 0),
{
    let xs: Vec<char> = chars_of(a);
    let ys: Vec<char> = chars_of(b);
    let mut i: usize = 0;
    while i < xs.len()
        invariant
            i <= xs@.len(),
            xs@ == a@,
            ys@ == b@,
            text_le(a@, b@, 0) == text_le(a@, b@, i as int),
        decreases xs.len() - i,
    {
        if i >= ys.len() {
            return false;
        }
        if xs[i] != ys[i] {
            return (xs[i] as u32) < (ys[i] as u32);
        }
        i = i + 1;
    }
    true
}

/// The place of a text among the first `n` of a sorted list: behind those that
/// do not come after it.
pub open spec fn sorted_place(s: Seq<Seq<char>>, x: Seq<char>, n: int) -> int
    decreases n,
{
    if n <= 0 {
        0
    } else if text_le(s[n - 1], x, 0) {
        n
    } else {
        sorted_place(s, x, n - 1)
    }
}

/// The first `n` texts of a list in order.
pub open spec fn sorted_upto(s: Seq<Seq<char>>, n: int) -> Seq<Seq<char>>
    decreases n,
{
    if n <= 0 {
        seq![]
    } else {
        let before = sorted_upto(s, n - 1);
        before.insert(sorted_place(before, s[n - 1], before.len() as int), s[n - 1])
    }
}

proof fn sorted_place_bounds(s: Seq<Seq<char>>, x: Seq<char>, n: int)
    requires
        0 <= n,
    ensures
        0 <= sorted_place(s, x, n) <= n,
    decreases n,
{
    if n > 0 {
        sorted_place_bounds(s, x, n - 1);
    }
}

fn sort(s: &Vec<String>) -> (r: Vec<String>)
    ensures
        texts(r@) == sorted_upto(texts(s@), s@.len() as int),
{
    let mut out: Vec<String> = Vec::new();
    let mut i: usize = 0;
    assert(texts(out@) =~= seq![]);
    while i < s.len()
        invariant
            i <= s@.len(),
            texts(out@) == sorted_upto(texts(s@), i as int),
        decreases s.len() - i,
    {
        let ghost before = texts(out@);
        let ghost x = s@[i as int]@;
        let mut k: usize = out.len();
        while k > 0 && !comes_before(out[k - 1].as_str(), s[i].as_str())
            invariant
                k <= out@.len(),
                i < s@.len(),
                x == s@[i as int]@,
                before == texts(out@),
                sorted_place(before, x, before.len() as int) == sorted_place(before, x, k as int),
            decreases k,
        {
            k = k - 1;
        }
        out.insert(k, s[i].clone());
        assert(texts(out@) =~= before.insert(k as int, x));
        i = i + 1;
    }
    out
}

/// The locals from `i` on that fit a type, as they are shown.
pub open spec fn fitting(t: TableModel, expected: Ty, locals: Seq<(Seq<char>, Ty)>, n: int) -> Seq<
    Seq<char>,
>
    decreases n,
{
    if n <= 0 {
        seq![]
    } else {
        let (name, ty) = locals[n - 1];
        let before = fitting(t, expected, locals, n - 1);
        if name != "this"@ && flows(t, expected, ty) {
            before.push("`"@ + name + "` ("@ + ty_name(ty) + ")"@)
        } else {
            before
        }
    }
}

/// The first six of a list, with a mark where there are more.
pub open spec fn first_six(s: Seq<Seq<char>>) -> Seq<char> {
    if s.len() > 6 {
        joined(s.subrange(0, 6), ", "@) + ", ..."@
    } else {
        joined(s, ", "@) + ""@
    }
}

/// How a value of the type could be made.
pub open spec fn makings(t: TableModel, expected: Ty) -> Seq<char> {
    match expected {
        Ty::LiteralUnion(_, ms) => "; members: "@ + joined(quoted_upto(ms, 6), " | "@),
        Ty::Newtype(n, _) => "; or construct one: `"@ + n + "(...)`"@,
        Ty::Bool => "; or `true` / `false`"@,
        Ty::Class(n, _) => if lookup(t.classes, n) matches Some(c) && !c.is_interface
            && !c.is_abstract {
            "; or construct one: `new "@ + n + "(...)`"@
        } else {
            ""@
        },
        _ => ""@,
    }
}

/// The message for a typed hole: the type, the values in scope that fit, in
/// order, and a way to make one.
pub open spec fn hole_text(t: TableModel, expected: Ty, locals: Seq<(Seq<char>, Ty)>) -> Seq<char> {
    let candidates = fitting(t, expected, locals, locals.len() as int);
    let sorted = sorted_upto(candidates, candidates.len() as int);
    let base = "type hole: an expression of type "@ + ty_name(expected) + " is needed here"@;
    let scope = if candidates.len() == 0 {
        base
    } else {
        base + "; in scope: "@ + first_six(sorted)
    };
    scope + makings(t, expected)
}

proof fn sorted_len(s: Seq<Seq<char>>, n: int)
    requires
        0 <= n,
    ensures
        sorted_upto(s, n).len() == n,
    decreases n,
{
    if n > 0 {
        sorted_len(s, n - 1);
        let before = sorted_upto(s, n - 1);
        sorted_place_bounds(before, s[n - 1], before.len() as int);
    }
}

impl Tables {
    fn show_makings(&self, expected: &Type) -> (r: String)
        ensures
            r@ == makings(self@, expected@),
    {
        match expected {
            Type::LiteralUnion(_, members) => {
                let shown: String = join(&quote_upto(members, 6), " | ");
                cat2("; members: ", shown.as_str())
            },
            Type::Newtype(n, _) => cat3("; or construct one: `", n.as_str(), "(...)`"),
            Type::Bool => own("; or `true` / `false`"),
            Type::Class(n, _) => {
                if let Some(info) = find(&self.classes, n.as_str()) {
                    if !info.is_interface && !info.is_abstract {
                        return cat3("; or construct one: `new ", n.as_str(), "(...)`");
                    }
                }
                own("")
            },
            _ => own(""),
        }
    }

    /// Build the error for a typed hole (`_`) where `expected` is known:
    /// name the type, list in-scope values that fit, and suggest a way to
    /// construct one when the type has an obvious constructor form.
    pub fn hole_error(&self, expected: &Type, locals: &Vec<(String, Type)>) -> (r: String)
        ensures
            r@ == hole_text(self@, expected@, entries(locals@)),
    {
        let name: String = expected.name();
        let base: String = cat3(
            "type hole: an expression of type ",
            name.as_str(),
            " is needed here",
        );
        let mut candidates: Vec<String> = Vec::new();
        let mut i: usize = 0;
        assert(texts(candidates@) =~= seq![]);
        while i < locals.len()
            invariant
                i <= locals@.len(),
                texts(candidates@) == fitting(self@, expected@, entries(locals@), i as int),
            decreases locals.len() - i,
        {
            let n: &str = locals[i].0.as_str();
            if !same(n, "this") && self.is_assignable(expected, &locals[i].1) {
                let ghost before = texts(candidates@);
                let shown: String = locals[i].1.name();
                let text: String = cat5("`", n, "` (", shown.as_str(), ")");
                candidates.push(text);
                assert(texts(candidates@) =~= before.push(text@));
            }
            i = i + 1;
        }
        assert(texts(candidates@).len() == candidates@.len());
        let scope: String = if candidates.len() == 0 {
            base
        } else {
            let sorted: Vec<String> = sort(&candidates);
            proof {
                sorted_len(texts(candidates@), candidates@.len() as int);
                assert(texts(sorted@).len() == sorted@.len());
            }
            let shown: String = if sorted.len() > 6 {
                let mut first: Vec<String> = sorted;
                let ghost all = texts(first@);
                first.truncate(6);
                assert(texts(first@) =~= all.subrange(0, 6));
                let j: String = join(&first, ", ");
                cat2(j.as_str(), ", ...")
            } else {
                let j: String = join(&sorted, ", ");
                cat2(j.as_str(), "")
            };
            cat3(base.as_str(), "; in scope: ", shown.as_str())
        };
        let end: String = self.show_makings(expected);
        cat2(scope.as_str(), end.as_str())
    }
}

// ---------------------------------------------------------------------------
// Constraints and validity
// ---------------------------------------------------------------------------

/// The position of the type parameter called `n`.
pub open spec fn param_place(ps: Seq<ParamModel>, n: Seq<char>, i: int) -> int
    decreases ps.len() - i,
{
    if i < 0 || i >= ps.len() {
        ps.len() as int
    } else if ps[i].name == n {
        i
    } else {
        param_place(ps, n, i + 1)
    }
}

/// The type parameter called `n`.
pub open spec fn param_named(ps: Seq<ParamModel>, n: Seq<char>) -> Option<ParamModel> {
    let p = param_place(ps, n, 0);
    if 0 <= p < ps.len() {
        Some(ps[p])
    } else {
        None
    }
}

/// An optional type parameter by value.
pub open spec fn opt_param(p: Option<&GenericParam>) -> Option<ParamModel> {
    match p {
        Some(x) => Some(x@),
        None => None,
    }
}

/// The type parameter called `n`.
pub fn find_param<'a>(ps: &'a Vec<GenericParam>, n: &str) -> (r: Option<&'a GenericParam>)
    ensures
        opt_param(r) == param_named(views(ps@), n@),
{
    let mut i: usize = 0;
    while i < ps.len()
        invariant
            i <= ps@.len(),
            param_place(views(ps@), n@, 0) == param_place(views(ps@), n@, i as int),
        decreases ps.len() - i,
    {
        if same(ps[i].name.as_str(), n) {
            return Some(&ps[i]);
        }
        i = i + 1;
    }
    None
}

/// The type parameter that a type refers to.
pub open spec fn param_of(t: TableModel, ty: Ty, ps: Seq<ParamModel>) -> Option<ParamModel> {
    match ty {
        Ty::GenericParam(n) => param_named(ps, n),
        Ty::Class(n, args) => if args.len() == 0 && lookup(t.classes, n) is None {
            param_named(ps, n)
        } else {
            None
        },
        _ => None,
    }
}

/// The alternatives of a type parameter are numbers, and there are some: the
/// license for arithmetic and ordering on its values.
pub open spec fn numeric_param(p: ParamModel) -> bool {
    p.alternatives.len() > 0 && forall|i: int|
        0 <= i < p.alternatives.len() ==> numeric(#[trigger] p.alternatives[i])
}

/// A class that can be constructed without arguments.
pub open spec fn constructible(t: TableModel, ty: Ty) -> bool {
    ty matches Ty::Class(n, _) && (lookup(t.classes, n) matches Some(c) && !c.is_interface
        && !c.is_abstract && !c.is_static && (c.constructors.len() == 0 || (exists|i: int|
        0 <= i < c.constructors.len() && (#[trigger] c.constructors[i]).len() == 0)))
}

/// The message for an argument that cannot be constructed.
pub open spec fn not_constructible(arg: Ty, param: Seq<char>, owner: Seq<char>) -> Seq<char> {
    "type argument "@ + ty_name(arg) + " for parameter `"@ + param + "` of `"@ + owner
        + "` does not satisfy `new()`: it must be a concrete class with a parameterless constructor"@
}

/// A type argument meets the bounds of a parameter from `i` on.
pub open spec fn bound_error(t: TableModel, bounds: Seq<Ty>, arg: Ty, i: int) -> Option<Ty>
    decreases bounds.len() - i,
{
    if i < 0 || i >= bounds.len() {
        None
    } else if !flows(t, bounds[i], arg) {
        Some(bounds[i])
    } else {
        bound_error(t, bounds, arg, i + 1)
    }
}

/// Some alternative takes the argument.
pub open spec fn some_alternative(t: TableModel, alts: Seq<Ty>, arg: Ty) -> bool {
    exists|i: int| 0 <= i < alts.len() && flows(t, #[trigger] alts[i], arg)
}

/// An argument is itself a type parameter of the code around.
pub open spec fn is_param(arg: Ty, ps: Seq<ParamModel>) -> bool {
    match arg {
        Ty::GenericParam(_) => true,
        Ty::Class(n, a) => a.len() == 0 && param_named(ps, n) is Some,
        _ => false,
    }
}

/// What is wrong with one type argument of a class.
pub open spec fn arg_error(
    t: TableModel,
    param: ParamModel,
    arg: Ty,
    owner: Seq<char>,
    ps: Seq<ParamModel>,
) -> Option<Seq<char>> {
    if is_param(arg, ps) {
        None
    } else if bound_error(t, param.bounds, arg, 0) is Some {
        Some(
            "type argument "@ + ty_name(arg) + " for parameter `"@ + param.name + "` of `"@ + owner
                + "` does not satisfy constraint "@ + ty_name(
                bound_error(t, param.bounds, arg, 0)->0,
            ),
        )
    } else if param.alternatives.len() > 0 && !some_alternative(t, param.alternatives, arg) {
        Some(
            "type argument "@ + ty_name(arg) + " for parameter `"@ + param.name + "` of `"@ + owner
                + "` must be one of "@ + joined(ty_names(param.alternatives), " | "@),
        )
    } else if param.requires_new && !constructible(t, arg) {
        Some(not_constructible(arg, param.name, owner))
    } else {
        None
    }
}

/// What is wrong with the type arguments from `i` on.
pub open spec fn args_error(
    t: TableModel,
    params: Seq<ParamModel>,
    args: Seq<Ty>,
    i: int,
    owner: Seq<char>,
    ps: Seq<ParamModel>,
) -> Result<(), Seq<char>>
    decreases params.len() - i,
{
    if i < 0 || i >= params.len() {
        Ok(())
    } else {
        match arg_error(t, params[i], args[i], owner, ps) {
            Some(e) => Err(e),
            None => args_error(t, params, args, i + 1, owner, ps),
        }
    }
}

/// The type arguments of a class reference: exact arity and declared
/// constraints.
pub open spec fn valid_args(t: TableModel, name: Seq<char>, args: Seq<Ty>, ps: Seq<ParamModel>) -> Result<
    (),
    Seq<char>,
> {
    match lookup(t.classes, name) {
        None => Ok(()),
        Some(c) => if c.generics.len() != args.len() {
            Err(
                "class `"@ + name + "` expects "@ + dec(c.generics.len())
                    + " type argument(s), got "@ + dec(args.len()),
            )
        } else {
            args_error(t, c.generics, args, 0, name, ps)
        },
    }
}

/// Every nameable type.
pub open spec fn type_name_list(t: TableModel) -> Seq<Seq<char>> {
    keys(t.classes) + keys(t.enums) + keys(t.newtypes)
}

/// The types from `i` on are valid.
pub open spec fn valid_all(t: TableModel, ts: Seq<Ty>, i: int, ps: Seq<ParamModel>) -> Result<
    (),
    Seq<char>,
>
    decreases ts, ts.len() - i,
{
    if i < 0 || i >= ts.len() {
        Ok(())
    } else {
        match valid(t, ts[i], ps) {
            Err(e) => Err(e),
            Ok(_) => valid_all(t, ts, i + 1, ps),
        }
    }
}

/// A type is valid where the type parameters `ps` are known.
pub open spec fn valid(t: TableModel, ty: Ty, ps: Seq<ParamModel>) -> Result<(), Seq<char>>
    decreases ty, 0int,
{
    match ty {
        Ty::Class(name, args) => if param_named(ps, name) is Some {
            Ok(())
        } else if lookup(t.classes, name) is None && lookup(t.enums, name) is None {
            Err("unknown type `"@ + name + "`"@ + suggestion(type_name_list(t), name))
        } else if lookup(t.classes, name) matches Some(c) && c.is_static {
            Err("static class `"@ + name + "` cannot be used as a type"@)
        } else {
            match valid_args(t, name, args, ps) {
                Err(e) => Err(e),
                Ok(_) => valid_all(t, args, 0, ps),
            }
        },
        Ty::Enum(name) => if lookup(t.enums, name) is None {
            Err("unknown enum type `"@ + name + "`"@)
        } else {
            Ok(())
        },
        Ty::GenericParam(name) => if param_named(ps, name) is Some {
            Ok(())
        } else {
            Err("unknown type parameter `"@ + name + "`"@)
        },
        Ty::Func(params, ret) => match valid_all(t, params, 0, ps) {
            Err(e) => Err(e),
            Ok(_) => valid(t, *ret, ps),
        },
        Ty::Nullable(u) => valid(t, *u, ps),
        Ty::Newtype(_, u) => valid(t, *u, ps),
        Ty::Tuple(ts) => valid_all(t, ts, 0, ps),
        _ => Ok(()),
    }
}

impl Tables {
    /// The declared type parameter a value of type `ty` refers to, if any.
    /// `T` appears as `Type::GenericParam("T")` or — since plain names are read
    /// as class types — `Type::Class("T", [])` when no class of that name exists.
    pub fn generic_param_of<'a>(&self, ty: &Type, generic_params: &'a Vec<GenericParam>) -> (r:
        Option<&'a GenericParam>)
        ensures
            opt_param(r) == param_of(self@, ty@, views(generic_params@)),
    {
        match ty {
            Type::GenericParam(n) => find_param(generic_params, n.as_str()),
            Type::Class(n, args) => {
                assert(tys(args@).len() == args@.len());
                if args.len() == 0 && !holds(&self.classes, n.as_str()) {
                    find_param(generic_params, n.as_str())
                } else {
                    None
                }
            },
            _ => None,
        }
    }

    /// Whether a type is a class that can be constructed without arguments.
    #[verifier::loop_isolation(false)]
    fn is_constructible(&self, arg: &Type) -> (r: bool)
        ensures
            r == constructible(self@, arg@),
    {
        let n: &String = match arg {
            Type::Class(n, _) => n,
            _ => return false,
        };
        let info: &ClassInfo = match find(&self.classes, n.as_str()) {
            Some(c) => c,
            None => return false,
        };
        if info.is_interface || info.is_abstract || info.is_static {
            return false;
        }
        assert(info@.constructors.len() == info.constructors@.len());
        if info.constructors.len() == 0 {
            return true;
        }
        let mut i: usize = 0;
        while i < info.constructors.len()
            invariant
                i <= info.constructors@.len(),
                forall|j: int| 0 <= j < i ==> (#[trigger] info@.constructors[j]).len() != 0,
            decreases info.constructors.len() - i,
        {
            assert(info@.constructors[i as int] == tys(info.constructors@[i as int].params@));
            if info.constructors[i].params.len() == 0 {
                assert(info@.constructors[i as int].len() == 0);
                return true;
            }
            i = i + 1;
        }
        false
    }

    /// Enforce a `new()` constraint: the argument must be a concrete class
    /// with a parameterless (or no declared) constructor.
    pub fn require_default_constructible(&self, arg: &Type, param: &str, owner: &str) -> (r: Result<
        (),
        String,
    >)
        ensures
            done(r) == (if constructible(self@, arg@) {
                Ok(())
            } else {
                Err(not_constructible(arg@, param@, owner@))
            }),
    {
        if self.is_constructible(arg) {
            Ok(())
        } else {
            let shown: String = arg.name();
            Err(
                cat7(
                    "type argument ",
                    shown.as_str(),
                    " for parameter `",
                    param,
                    "` of `",
                    owner,
                    "` does not satisfy `new()`: it must be a concrete class with a parameterless constructor",
                ),
            )
        }
    }

    /// The first bound that an argument does not meet.
    pub fn find_bound_error<'a>(&self, bounds: &'a Vec<Type>, arg: &Type) -> (r: Option<&'a Type>)
        ensures
            match r {
                Some(b) => bound_error(self@, tys(bounds@), arg@, 0) == Some(b@),
                None => bound_error(self@, tys(bounds@), arg@, 0) is None,
            },
    {
        let mut i: usize = 0;
        while i < bounds.len()
            invariant
                i <= bounds@.len(),
                bound_error(self@, tys(bounds@), arg@, 0) == bound_error(
                    self@,
                    tys(bounds@),
                    arg@,
                    i as int,
                ),
            decreases bounds.len() - i,
        {
            assert(tys(bounds@)[i as int] == bounds@[i as int]@);
            if !self.is_assignable(&bounds[i], arg) {
                return Some(&bounds[i]);
            }
            i = i + 1;
        }
        None
    }

    /// Whether some alternative takes the argument.
    pub fn has_alternative(&self, alts: &Vec<Type>, arg: &Type) -> (r: bool)
        ensures
            r == some_alternative(self@, tys(alts@), arg@),
    {
        let mut i: usize = 0;
        while i < alts.len()
            invariant
                i <= alts@.len(),
                forall|j: int| 0 <= j < i ==> !flows(self@, #[trigger] tys(alts@)[j], arg@),
            decreases alts.len() - i,
        {
            assert(tys(alts@)[i as int] == alts@[i as int]@);
            if self.is_assignable(&alts[i], arg) {
                return true;
            }
            i = i + 1;
        }
        false
    }

    fn find_arg_error(
        &self,
        param: &GenericParam,
        arg: &Type,
        owner: &str,
        generic_params: &Vec<GenericParam>,
    ) -> (r: Option<String>)
        ensures
            opt_str(r) == arg_error(self@, param@, arg@, owner@, views(generic_params@)),
    {
        let is_param: bool = match arg {
            Type::GenericParam(_) => true,
            Type::Class(n, a) => {
                assert(tys(a@).len() == a@.len());
                a.len() == 0 && find_param(generic_params, n.as_str()).is_some()
            },
            _ => false,
        };
        if is_param {
            return None;
        }
        let shown: String = arg.name();
        if let Some(constraint) = self.find_bound_error(&param.bounds, arg) {
            let c: String = constraint.name();
            return Some(
                cat8(
                    "type argument ",
                    shown.as_str(),
                    " for parameter `",
                    param.name.as_str(),
                    "` of `",
                    owner,
                    "` does not satisfy constraint ",
                    c.as_str(),
                ),
            );
        }
        assert(tys(param.alternatives@).len() == param.alternatives@.len());
        if param.alternatives.len() > 0 && !self.has_alternative(&param.alternatives, arg) {
            let alts: String = join(&type_names(&param.alternatives), " | ");
            return Some(
                cat8(
                    "type argument ",
                    shown.as_str(),
                    " for parameter `",
                    param.name.as_str(),
                    "` of `",
                    owner,
                    "` must be one of ",
                    alts.as_str(),
                ),
            );
        }
        if param.requires_new {
            match self.require_default_constructible(arg, param.name.as_str(), owner) {
                Ok(_) => {},
                Err(e) => {
                    return Some(e);
                },
            }
        }
        None
    }

    /// Check a generic class reference's type arguments: exact arity (raw
    /// references to generic classes are rejected — required for phantom
    /// type parameters to be un-dodgeable) and declared constraints
    /// (`<T : IFace>` accepts only arguments assignable to the constraint;
    /// arguments that are themselves type parameters are accepted without
    /// constraint propagation).
    pub fn validate_type_args(
        &self,
        name: &str,
        args: &Vec<Type>,
        generic_params: &Vec<GenericParam>,
    ) -> (r: Result<(), String>)
        ensures
            done(r) == valid_args(self@, name@, tys(args@), views(generic_params@)),
    {
        let info: &ClassInfo = match find(&self.classes, name) {
            Some(c) => c,
            None => return Ok(()),
        };
        assert(tys(args@).len() == args@.len());
        if info.generic_params.len() != args.len() {
            let want: String = dec_u64(info.generic_params.len() as u64);
            let got: String = dec_u64(args.len() as u64);
            return Err(
                cat6(
                    "class `",
                    name,
                    "` expects ",
                    want.as_str(),
                    " type argument(s), got ",
                    got.as_str(),
                ),
            );
        }
        let mut i: usize = 0;
        let ghost ps = views(generic_params@);
        while i < args.len()
            invariant
                i <= args@.len(),
                info.generic_params@.len() == args@.len(),
                ps == views(generic_params@),
                valid_args(self@, name@, tys(args@), ps) == args_error(
                    self@,
                    info@.generics,
                    tys(args@),
                    i as int,
                    name@,
                    ps,
                ),
            decreases args.len() - i,
        {
            assert(tys(args@)[i as int] == args@[i as int]@);
            assert(info@.generics[i as int] == info.generic_params@[i as int]@);
            if let Some(e) = self.find_arg_error(
                &info.generic_params[i],
                &args[i],
                name,
                generic_params,
            ) {
                return Err(e);
            }
            i = i + 1;
        }
        Ok(())
    }

    /// Every nameable type, for did-you-mean suggestions.
    pub fn type_candidates(&self) -> (r: Vec<String>)
        ensures
            texts(r@) == type_name_list(self@),
    {
        let mut out: Vec<String> = Vec::new();
        push_keys(&mut out, &self.classes);
        push_keys(&mut out, &self.enums);
        push_keys(&mut out, &self.newtypes);
        assert(texts(out@) =~= type_name_list(self@));
        out
    }

    /// Check every type of a list.
    pub fn validate_types(&self, ts: &Vec<Type>, generic_params: &Vec<GenericParam>) -> (r: Result<
        (),
        String,
    >)
        ensures
            done(r) == valid_all(self@, tys(ts@), 0, views(generic_params@)),
        decreases ts, 0int,
    {
        let mut i: usize = 0;
        let ghost ps = views(generic_params@);
        while i < ts.len()
            invariant
                i <= ts@.len(),
                ps == views(generic_params@),
                valid_all(self@, tys(ts@), 0, ps) == valid_all(self@, tys(ts@), i as int, ps),
            decreases ts.len() - i,
        {
            proof {
                assert(decreases_to!(ts => ts@[i as int]));
                assert(tys(ts@)[i as int] == ts@[i as int]@);
            }
            match self.validate_type_with_generics(&ts[i], generic_params) {
                Ok(_) => {},
                Err(e) => {
                    return Err(e);
                },
            }
            i = i + 1;
        }
        Ok(())
    }

    /// Check that a type names only what is declared, and that generic class
    /// references have valid type arguments.
    pub fn validate_type_with_generics(&self, ty: &Type, generic_params: &Vec<GenericParam>) -> (r:
        Result<(), String>)
        ensures
            done(r) == valid(self@, ty@, views(generic_params@)),
        decreases ty, 0int,
    {
        match ty {
            Type::Class(name, args) => {
                if find_param(generic_params, name.as_str()).is_some() {
                    return Ok(());
                }
                if !holds(&self.classes, name.as_str()) && !holds(&self.enums, name.as_str()) {
                    let s: String = suggest(&self.type_candidates(), name.as_str());
                    return Err(cat4("unknown type `", name.as_str(), "`", s.as_str()));
                }
                if let Some(info) = find(&self.classes, name.as_str()) {
                    if info.is_static {
                        return Err(
                            cat3(
                                "static class `",
                                name.as_str(),
                                "` cannot be used as a type",
                            ),
                        );
                    }
                }
                match self.validate_type_args(name.as_str(), args, generic_params) {
                    Ok(_) => {},
                    Err(e) => {
                        return Err(e);
                    },
                }
                self.validate_types(args, generic_params)
            },
            Type::Enum(name) => {
                if !holds(&self.enums, name.as_str()) {
                    return Err(cat3("unknown enum type `", name.as_str(), "`"));
                }
                Ok(())
            },
            Type::GenericParam(name) => {
                if find_param(generic_params, name.as_str()).is_some() {
                    Ok(())
                } else {
                    Err(cat3("unknown type parameter `", name.as_str(), "`"))
                }
            },
            Type::Func(params, ret) => {
                match self.validate_types(params, generic_params) {
                    Ok(_) => {},
                    Err(e) => {
                        return Err(e);
                    },
                }
                self.validate_type_with_generics(ret, generic_params)
            },
            Type::Nullable(inner) => self.validate_type_with_generics(inner, generic_params),
            Type::Newtype(_, inner) => self.validate_type_with_generics(inner, generic_params),
            Type::Tuple(ts) => self.validate_types(ts, generic_params),
            _ => Ok(()),
        }
    }
}

/// Whether every type of a list is numeric.
fn all_numeric(ts: &Vec<Type>) -> (r: bool)
    ensures
        r == (forall|i: int| 0 <= i < ts@.len() ==> numeric(#[trigger] tys(ts@)[i])),
{
    let mut i: usize = 0;
    while i < ts.len()
        invariant
            i <= ts@.len(),
            forall|j: int| 0 <= j < i ==> numeric(#[trigger] tys(ts@)[j]),
        decreases ts.len() - i,
    {
        assert(tys(ts@)[i as int] == ts@[i as int]@);
        if !is_numeric(&ts[i]) {
            return false;
        }
        i = i + 1;
    }
    true
}

/// True when the parameter carries a union constraint whose alternatives
/// are all numeric (`where T : int | float`) — the license for
/// arithmetic and ordering on `T` values.
pub fn union_is_numeric(gp: &GenericParam) -> (r: bool)
    ensures
        r == numeric_param(gp@),
{
    assert(tys(gp.alternatives@).len() == gp.alternatives@.len());
    gp.alternatives.len() > 0 && all_numeric(&gp.alternatives)
}

// ---------------------------------------------------------------------------
// Checked exceptions, operators, resources
// ---------------------------------------------------------------------------

/// An exception is caught by a `catch` of its type or of a supertype.
pub open spec fn caught(cs: Seq<(Seq<char>, ClassModel)>, handled: Seq<Ty>, exc: Seq<char>) -> bool {
    exists|i: int|
        0 <= i < handled.len() && (#[trigger] handled[i] matches Ty::Class(n, _) && (n == exc
            || subclass(cs, exc, n)))
}

/// An exception is declared by its type or by a supertype.
pub open spec fn declared(cs: Seq<(Seq<char>, ClassModel)>, throws: Seq<Seq<char>>, exc: Seq<char>) -> bool {
    exists|i: int|
        0 <= i < throws.len() && (#[trigger] throws[i] == exc || subclass(cs, exc, throws[i]))
}

/// The exceptions from `i` on are caught or declared around the call.
pub open spec fn throws_handled(
    t: TableModel,
    sc: Around,
    throws: Seq<Seq<char>>,
    i: int,
    callee: Seq<char>,
) -> Result<(), Seq<char>>
    decreases throws.len() - i,
{
    if i < 0 || i >= throws.len() {
        Ok(())
    } else if !caught(t.classes, sc.handled, throws[i]) && !declared(
        t.classes,
        sc.throws,
        throws[i],
    ) {
        Err(
            "call to `"@ + callee + "` may throw `"@ + throws[i] + "`: catch it or declare `throws "@
                + throws[i] + "`"@,
        )
    } else {
        throws_handled(t, sc, throws, i + 1, callee)
    }
}

/// The types of an operator's method: parameter and result, with the type
/// arguments of the left operand substituted.
pub open spec fn operator_types(t: TableModel, op: BinOp, lt: Ty) -> Option<(Ty, Ty)> {
    match (operator_method(op), lt) {
        (Some(m), Ty::Class(name, args)) => if name == "null"@ {
            None
        } else {
            match (method_found(t.classes, name, m), lookup(t.classes, name)) {
                (Some((_, mi)), Some(info)) => if mi.params.len() == 0 {
                    None
                } else {
                    Some(
                        (
                            subst_ty(mi.params[0], subst_of(info.generics, args)),
                            subst_ty(mi.return_ty, subst_of(info.generics, args)),
                        ),
                    )
                },
                _ => None,
            }
        },
        _ => None,
    }
}

/// A value of the type can be disposed of.
pub open spec fn disposable(t: TableModel, ty: Ty) -> Result<(), Seq<char>> {
    match ty {
        Ty::Class(name, _) => match method_found(t.classes, name, "Dispose"@) {
            None => Err("`using` resource type `"@ + name + "` has no `Dispose()` method"@),
            Some((_, m)) => if m.params.len() != 0 || m.return_ty != Ty::Unit {
                Err("`Dispose()` on `"@ + name + "` must take no parameters and return void"@)
            } else {
                Ok(())
            },
        },
        _ => Err("`using` requires a class resource, got "@ + ty_name(ty)),
    }
}

impl Tables {
    fn is_caught(&self, handled: &Vec<Type>, exc: &str) -> (r: bool)
        ensures
            r == caught(self@.classes, tys(handled@), exc@),
    {
        let mut i: usize = 0;
        let ghost hs = tys(handled@);
        while i < handled.len()
            invariant
                i <= handled@.len(),
                hs == tys(handled@),
                forall|j: int|
                    0 <= j < i ==> !(#[trigger] hs[j] matches Ty::Class(n, _) && (n == exc@
                        || subclass(self@.classes, exc@, n))),
            decreases handled.len() - i,
        {
            assert(hs[i as int] == handled@[i as int]@);
            if let Type::Class(n, _) = &handled[i] {
                if same(n.as_str(), exc) || self.is_subclass_of(exc, n.as_str()) {
                    return true;
                }
            }
            i = i + 1;
        }
        false
    }

    /// Whether one of `throws` is the exception or a supertype of it.
    pub fn is_declared(&self, throws: &Vec<String>, exc: &str) -> (r: bool)
        ensures
            r == declared(self@.classes, texts(throws@), exc@),
    {
        let mut i: usize = 0;
        let ghost ts = texts(throws@);
        while i < throws.len()
            invariant
                i <= throws@.len(),
                ts == texts(throws@),
                forall|j: int|
                    0 <= j < i ==> !(#[trigger] ts[j] == exc@ || subclass(
                        self@.classes,
                        exc@,
                        ts[j],
                    )),
            decreases throws.len() - i,
        {
            assert(ts[i as int] == throws@[i as int]@);
            if same(throws[i].as_str(), exc) || self.is_subclass_of(exc, throws[i].as_str()) {
                return true;
            }
            i = i + 1;
        }
        false
    }

    /// Enforce the checked-exception contract at a call site: each declared
    /// throw of the callee must be caught by an enclosing `try` (a catch of
    /// the type or a supertype) or re-declared by the calling method's own
    /// `throws` clause. Methods without a `throws` clause stay unchecked.
    pub fn require_throws_handled(&self, sc: &Scope<'_>, mi: &MethodInfo, callee: &str) -> (r: Result<
        (),
        String,
    >)
        ensures
            done(r) == throws_handled(self@, sc@, mi@.throws, 0, callee@),
    {
        let mut i: usize = 0;
        let ghost ts = texts(mi.throws@);
        while i < mi.throws.len()
            invariant
                i <= mi.throws@.len(),
                ts == texts(mi.throws@),
                throws_handled(self@, sc@, ts, 0, callee@) == throws_handled(
                    self@,
                    sc@,
                    ts,
                    i as int,
                    callee@,
                ),
            decreases mi.throws.len() - i,
        {
            let exc: &str = mi.throws[i].as_str();
            assert(ts[i as int] == exc@);
            if !self.is_caught(sc.handled, exc) && !self.is_declared(sc.throws, exc) {
                return Err(
                    cat7(
                        "call to `",
                        callee,
                        "` may throw `",
                        exc,
                        "`: catch it or declare `throws ",
                        exc,
                        "`",
                    ),
                );
            }
            i = i + 1;
        }
        Ok(())
    }

    /// Resolve a user-defined operator for a binary op whose left operand
    /// has type `lt`: the left class (or a base) declares the operator
    /// method. Returns the (parameter, return) types with the receiver's
    /// type arguments substituted.
    pub fn user_operator(&self, op: BinOp, lt: &Type) -> (r: Option<(Type, Type)>)
        ensures
            match r {
                Some((p, t)) => operator_types(self@, op, lt@) == Some((p@, t@)),
                None => operator_types(self@, op, lt@) is None,
            },
    {
        let mname: &str = match operator_method_name(op) {
            Some(m) => m,
            None => return None,
        };
        match lt {
            Type::Class(name, type_args) => {
                if same(name.as_str(), "null") {
                    return None;
                }
                let (_, mi) = match self.find_method(name.as_str(), mname) {
                    Some(f) => f,
                    None => return None,
                };
                let info: &ClassInfo = match find(&self.classes, name.as_str()) {
                    Some(i) => i,
                    None => return None,
                };
                assert(tys(mi.params@).len() == mi.params@.len());
                if mi.params.len() == 0 {
                    return None;
                }
                let subst: Vec<(String, Type)> = build_subst(&info.generic_params, type_args);
                assert(tys(mi.params@)[0] == mi.params@[0]@);
                Some(
                    (
                        substitute_type(&mi.params[0], &subst),
                        substitute_type(&mi.return_ty, &subst),
                    ),
                )
            },
            _ => None,
        }
    }

    /// Require that a value of `ty` is disposable: its class (or a base class /
    /// implemented interface) declares an instance `Dispose()` method returning void.
    pub fn require_disposable(&self, ty: &Type) -> (r: Result<(), String>)
        ensures
            done(r) == disposable(self@, ty@),
    {
        match ty {
            Type::Class(name, _) => match self.find_method(name.as_str(), "Dispose") {
                None => Err(
                    cat3(
                        "`using` resource type `",
                        name.as_str(),
                        "` has no `Dispose()` method",
                    ),
                ),
                Some((_, m)) => {
                    assert(tys(m.params@).len() == m.params@.len());
                    if m.params.len() != 0 || !same_type(&m.return_ty, &Type::Unit) {
                        Err(
                            cat3(
                                "`Dispose()` on `",
                                name.as_str(),
                                "` must take no parameters and return void",
                            ),
                        )
                    } else {
                        Ok(())
                    }
                },
            },
            _ => {
                let shown: String = ty.name();
                Err(cat2("`using` requires a class resource, got ", shown.as_str()))
            },
        }
    }
}

} // verus!
