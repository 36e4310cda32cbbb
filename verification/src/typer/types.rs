//! Operations on types: substitution, occurrence, widening, promotion.

use crate::text::{cat4, dec_i64, same};
use crate::typer::ast::{
    tys, ty_name, ty_of, BinOp, GenericParam, IntSuffix, ParamModel, Ty, Type, Visibility, views,
};
use crate::typer::keyed::{entries, find, insert, lookup, put};
use vstd::prelude::*;

verus! {

/// Generic parameter name to concrete type.
pub type TypeSubst = Vec<(String, Type)>;

/// The types of a list after substitution.
pub open spec fn subst_all(ts: Seq<Ty>, s: Seq<(Seq<char>, Ty)>) -> Seq<Ty>
    decreases ts,
{
    Seq::new(
        ts.len(),
        |i: int|
            if 0 <= i < ts.len() {
                subst_ty(ts[i], s)
            } else {
                Ty::Unit
            },
    )
}

/// A type after substitution. A type parameter is written as such or as a class
/// without arguments.
pub open spec fn subst_ty(t: Ty, s: Seq<(Seq<char>, Ty)>) -> Ty
    decreases t,
{
    match t {
        Ty::GenericParam(n) => match lookup(s, n) {
            Some(u) => u,
            None => t,
        },
        Ty::Class(n, args) => if args.len() == 0 && lookup(s, n) is Some {
            lookup(s, n)->0
        } else {
            Ty::Class(n, subst_all(args, s))
        },
        Ty::Tuple(ts) => Ty::Tuple(subst_all(ts, s)),
        Ty::Nullable(u) => Ty::Nullable(Box::new(subst_ty(*u, s))),
        Ty::Func(ps, r) => Ty::Func(subst_all(ps, s), Box::new(subst_ty(*r, s))),
        _ => t,
    }
}

/// Substitution over a list of types.
pub fn substitute_all(ts: &Vec<Type>, subst: &TypeSubst) -> (r: Vec<Type>)
    ensures
        tys(r@) == subst_all(tys(ts@), entries(subst@)),
    decreases ts,
{
    let mut out: Vec<Type> = Vec::new();
    let mut i: usize = 0;
    while i < ts.len()
        invariant
            i <= ts@.len(),
            out@.len() == i,
            forall|j: int|
                0 <= j < i ==> ty_of(#[trigger] out@[j]) == subst_ty(
                    ty_of(ts@[j]),
                    entries(subst@),
                ),
        decreases ts.len() - i,
    {
        proof {
            assert(decreases_to!(ts => ts@[i as int]));
        }
        out.push(substitute_type(&ts[i], subst));
        i = i + 1;
    }
    assert(tys(out@) =~= subst_all(tys(ts@), entries(subst@)));
    out
}

/// Substitute generic parameters in a type with concrete types.
pub fn substitute_type(ty: &Type, subst: &TypeSubst) -> (r: Type)
    ensures
        r@ == subst_ty(ty@, entries(subst@)),
    decreases ty,
{
    match ty {
        Type::GenericParam(name) => match find(subst, name.as_str()) {
            Some(t) => t.clone(),
            None => ty.clone(),
        },
        Type::Class(name, args) => {
            assert(tys(args@).len() == args@.len());
            if args.len() == 0 {
                if let Some(t) = find(subst, name.as_str()) {
                    return t.clone();
                }
            }
            Type::Class(name.clone(), substitute_all(args, subst))
        },
        Type::Tuple(types) => Type::Tuple(substitute_all(types, subst)),
        Type::Nullable(inner) => Type::Nullable(Box::new(substitute_type(inner, subst))),
        Type::Func(params, ret) => Type::Func(
            substitute_all(params, subst),
            Box::new(substitute_type(ret, subst)),
        ),
        _ => ty.clone(),
    }
}

/// The substitution of the first `n` type parameters by the first `n` arguments;
/// of two parameters with one name the later counts.
pub open spec fn subst_upto(ps: Seq<ParamModel>, args: Seq<Ty>, n: int) -> Seq<(Seq<char>, Ty)>
    decreases n,
{
    if n <= 0 {
        seq![]
    } else {
        put(subst_upto(ps, args, n - 1), ps[n - 1].name, args[n - 1])
    }
}

/// The substitution of type parameters by arguments, as far as both reach.
pub open spec fn subst_of(ps: Seq<ParamModel>, args: Seq<Ty>) -> Seq<(Seq<char>, Ty)> {
    subst_upto(
        ps,
        args,
        if ps.len() < args.len() {
            ps.len() as int
        } else {
            args.len() as int
        },
    )
}

/// Build a substitution from generic parameter names and concrete type arguments.
pub fn build_subst(generic_params: &Vec<GenericParam>, type_args: &Vec<Type>) -> (r: TypeSubst)
    ensures
        entries(r@) == subst_of(views(generic_params@), tys(type_args@)),
{
    let mut subst: TypeSubst = Vec::new();
    let n: usize = if generic_params.len() < type_args.len() {
        generic_params.len()
    } else {
        type_args.len()
    };
    let mut i: usize = 0;
    assert(entries(subst@) =~= seq![]);
    while i < n
        invariant
            i <= n,
            n <= generic_params@.len(),
            n <= type_args@.len(),
            entries(subst@) == subst_upto(views(generic_params@), tys(type_args@), i as int),
        decreases n - i,
    {
        insert(&mut subst, generic_params[i].name.as_str(), type_args[i].clone());
        i = i + 1;
    }
    subst
}

/// `name` occurs in one of the types.
pub open spec fn any_mentions(ts: Seq<Ty>, name: Seq<char>) -> bool
    decreases ts,
{
    exists|i: int| 0 <= i < ts.len() && mentions(#[trigger] ts[i], name)
}

/// `name` occurs in a type as a class or as a type parameter.
pub open spec fn mentions(t: Ty, name: Seq<char>) -> bool
    decreases t,
{
    match t {
        Ty::Class(n, args) => n == name || any_mentions(args, name),
        Ty::GenericParam(n) => n == name,
        Ty::Nullable(u) => mentions(*u, name),
        Ty::Newtype(_, u) => mentions(*u, name),
        Ty::Tuple(ts) => any_mentions(ts, name),
        Ty::Func(ps, r) => any_mentions(ps, name) || mentions(*r, name),
        _ => false,
    }
}

fn any_type_mentions(ts: &Vec<Type>, name: &str) -> (r: bool)
    ensures
        r == any_mentions(tys(ts@), name@),
    decreases ts,
{
    let mut i: usize = 0;
    while i < ts.len()
        invariant
            i <= ts@.len(),
            forall|j: int| 0 <= j < i ==> !mentions(#[trigger] tys(ts@)[j], name@),
        decreases ts.len() - i,
    {
        proof {
            assert(decreases_to!(ts => ts@[i as int]));
        }
        if type_mentions(&ts[i], name) {
            assert(mentions(tys(ts@)[i as int], name@));
            return true;
        }
        i = i + 1;
    }
    false
}

/// Whether `name` occurs anywhere inside `ty` (as a class-position name or
/// generic-param reference, at any nesting depth). Used by the conservative
/// variance position check.
pub fn type_mentions(ty: &Type, name: &str) -> (r: bool)
    ensures
        r == mentions(ty@, name@),
    decreases ty,
{
    match ty {
        Type::Class(n, args) => same(n.as_str(), name) || any_type_mentions(args, name),
        Type::GenericParam(n) => same(n.as_str(), name),
        Type::Nullable(t) => type_mentions(t, name),
        Type::Newtype(_, t) => type_mentions(t, name),
        Type::Tuple(ts) => any_type_mentions(ts, name),
        Type::Func(params, ret) => any_type_mentions(params, name) || type_mentions(ret, name),
        _ => false,
    }
}

/// Substitution leaves a type alone that does not mention what is substituted.
pub proof fn subst_without_mention(t: Ty, s: Seq<(Seq<char>, Ty)>)
    requires
        forall|n: Seq<char>| lookup(s, n) is Some ==> !mentions(t, n),
    ensures
        subst_ty(t, s) == t,
    decreases t,
{
    match t {
        Ty::GenericParam(n) => {
            assert(mentions(t, n));
        },
        Ty::Class(n, args) => {
            assert(mentions(t, n));
            subst_all_without_mention(t, args, s);
        },
        Ty::Tuple(ts) => {
            subst_all_without_mention(t, ts, s);
        },
        Ty::Nullable(u) => {
            assert forall|n: Seq<char>| lookup(s, n) is Some implies !mentions(*u, n) by {
                assert(!mentions(t, n));
            }
            subst_without_mention(*u, s);
        },
        Ty::Func(ps, r) => {
            subst_all_without_mention(t, ps, s);
            assert forall|n: Seq<char>| lookup(s, n) is Some implies !mentions(*r, n) by {
                assert(!mentions(t, n));
            }
            subst_without_mention(*r, s);
        },
        _ => {},
    }
}

proof fn subst_all_without_mention(t: Ty, ts: Seq<Ty>, s: Seq<(Seq<char>, Ty)>)
    requires
        forall|n: Seq<char>| lookup(s, n) is Some ==> !mentions(t, n),
        forall|n: Seq<char>| any_mentions(ts, n) ==> mentions(t, n),
    ensures
        subst_all(ts, s) == ts,
    decreases ts,
{
    assert forall|i: int| 0 <= i < ts.len() implies subst_ty(#[trigger] ts[i], s) == ts[i] by {
        assert forall|n: Seq<char>| lookup(s, n) is Some implies !mentions(ts[i], n) by {
            assert(!mentions(t, n));
            assert(!any_mentions(ts, n));
        }
        subst_without_mention(ts[i], s);
    }
    assert(subst_all(ts, s) =~= ts);
}

/// Human-readable name of a visibility level.
pub open spec fn visibility_text(v: Visibility) -> Seq<char> {
    match v {
        Visibility::Public => "public"@,
        Visibility::Protected => "protected"@,
        Visibility::Private => "private"@,
        Visibility::Internal => "internal"@,
    }
}

/// Human-readable name for a visibility level, used in diagnostics.
pub fn visibility_name(v: Visibility) -> (r: &'static str)
    ensures
        r@ == visibility_text(v),
{
    match v {
        Visibility::Public => "public",
        Visibility::Protected => "protected",
        Visibility::Private => "private",
        Visibility::Internal => "internal",
    }
}

/// The operators that a class can overload, by symbol.
pub open spec fn overloadable(sym: Seq<char>) -> bool {
    ||| sym == "+"@
    ||| sym == "-"@
    ||| sym == "*"@
    ||| sym == "/"@
    ||| sym == "%"@
    ||| sym == "=="@
    ||| sym == "<"@
    ||| sym == "<="@
    ||| sym == ">"@
    ||| sym == ">="@
}

proof fn prefix_cancels(p: Seq<char>, a: Seq<char>, b: Seq<char>)
    requires
        p + a == p + b,
    ensures
        a == b,
{
    assert(a =~= (p + a).subrange(p.len() as int, (p + a).len() as int));
    assert(b =~= (p + b).subrange(p.len() as int, (p + b).len() as int));
}

/// If `name` is an operator-overload method name (`operator+`, `operator==`,
/// ...), the operator symbol; `None` for ordinary method names, including
/// identifiers that merely start with "operator".
pub fn operator_symbol_of(name: &str) -> (r: Option<&'static str>)
    ensures
        match r {
            Some(sym) => overloadable(sym@) && name@ == "operator"@ + sym@,
            None => forall|sym: Seq<char>|
                #![trigger overloadable(sym)]
                overloadable(sym) ==> name@ != "operator"@ + sym,
        },
{
    if same(name, crate::text::cat2("operator", "+").as_str()) {
        return Some("+");
    }
    if same(name, crate::text::cat2("operator", "-").as_str()) {
        return Some("-");
    }
    if same(name, crate::text::cat2("operator", "*").as_str()) {
        return Some("*");
    }
    if same(name, crate::text::cat2("operator", "/").as_str()) {
        return Some("/");
    }
    if same(name, crate::text::cat2("operator", "%").as_str()) {
        return Some("%");
    }
    if same(name, crate::text::cat2("operator", "==").as_str()) {
        return Some("==");
    }
    if same(name, crate::text::cat2("operator", "<").as_str()) {
        return Some("<");
    }
    if same(name, crate::text::cat2("operator", "<=").as_str()) {
        return Some("<=");
    }
    if same(name, crate::text::cat2("operator", ">").as_str()) {
        return Some(">");
    }
    if same(name, crate::text::cat2("operator", ">=").as_str()) {
        return Some(">=");
    }
    None
}

/// The operator symbol of a method name, if it is one of an overload.
pub open spec fn operator_symbol(name: Seq<char>) -> Option<Seq<char>> {
    if exists|sym: Seq<char>| #[trigger] overloadable(sym) && name == "operator"@ + sym {
        Some(choose|sym: Seq<char>| #[trigger] overloadable(sym) && name == "operator"@ + sym)
    } else {
        None
    }
}

/// The operator symbol of a method name is unique.
pub proof fn operator_symbol_unique(name: Seq<char>, sym: Seq<char>)
    requires
        overloadable(sym),
        name == "operator"@ + sym,
    ensures
        operator_symbol(name) == Some(sym),
{
    assert(exists|s: Seq<char>| #[trigger] overloadable(s) && name == "operator"@ + s);
    let s = operator_symbol(name)->0;
    assert(overloadable(s) && name == "operator"@ + s);
    prefix_cancels("operator"@, s, sym);
}

/// Source symbol of a binary operator.
pub open spec fn binop_text(op: BinOp) -> Seq<char> {
    match op {
        BinOp::Add => "+"@,
        BinOp::Sub => "-"@,
        BinOp::Mul => "*"@,
        BinOp::Div => "/"@,
        BinOp::Rem => "%"@,
        BinOp::Eq => "=="@,
        BinOp::Ne => "!="@,
        BinOp::Lt => "<"@,
        BinOp::Le => "<="@,
        BinOp::Gt => ">"@,
        BinOp::Ge => ">="@,
        BinOp::And => "&&"@,
        BinOp::Or => "||"@,
    }
}

/// Source symbol of a binary operator, for error messages.
pub fn binop_symbol(op: BinOp) -> (r: &'static str)
    ensures
        r@ == binop_text(op),
{
    match op {
        BinOp::Add => "+",
        BinOp::Sub => "-",
        BinOp::Mul => "*",
        BinOp::Div => "/",
        BinOp::Rem => "%",
        BinOp::Eq => "==",
        BinOp::Ne => "!=",
        BinOp::Lt => "<",
        BinOp::Le => "<=",
        BinOp::Gt => ">",
        BinOp::Ge => ">=",
        BinOp::And => "&&",
        BinOp::Or => "||",
    }
}

/// The method that a binary operator resolves through.
pub open spec fn operator_method(op: BinOp) -> Option<Seq<char>> {
    match op {
        BinOp::Add => Some("operator+"@),
        BinOp::Sub => Some("operator-"@),
        BinOp::Mul => Some("operator*"@),
        BinOp::Div => Some("operator/"@),
        BinOp::Rem => Some("operator%"@),
        BinOp::Eq | BinOp::Ne => Some("operator=="@),
        BinOp::Lt => Some("operator<"@),
        BinOp::Le => Some("operator<="@),
        BinOp::Gt => Some("operator>"@),
        BinOp::Ge => Some("operator>="@),
        BinOp::And | BinOp::Or => None,
    }
}

/// The operator-overload method name a binary operator resolves through, if
/// the operator is overloadable. `!=` resolves through `operator==` (it is
/// always the negation); `&&`/`||` are never overloadable (short-circuit).
pub fn operator_method_name(op: BinOp) -> (r: Option<&'static str>)
    ensures
        match r {
            Some(s) => operator_method(op) == Some(s@),
            None => operator_method(op) is None,
        },
{
    match op {
        BinOp::Add => Some("operator+"),
        BinOp::Sub => Some("operator-"),
        BinOp::Mul => Some("operator*"),
        BinOp::Div => Some("operator/"),
        BinOp::Rem => Some("operator%"),
        BinOp::Eq => Some("operator=="),
        BinOp::Ne => Some("operator=="),
        BinOp::Lt => Some("operator<"),
        BinOp::Le => Some("operator<="),
        BinOp::Gt => Some("operator>"),
        BinOp::Ge => Some("operator>="),
        BinOp::And => None,
        BinOp::Or => None,
    }
}

/// Every overloadable operator other than `!=` resolves through the method that
/// carries its symbol, and `!=` resolves as `==` does.
pub proof fn operator_methods_match_symbols(op: BinOp)
    ensures
        operator_method(op) is None <==> (op == BinOp::And || op == BinOp::Or),
        operator_method(BinOp::Ne) == operator_method(BinOp::Eq),
        operator_method(op) is Some && op != BinOp::Ne ==> operator_symbol(
            operator_method(op)->0,
        ) == Some(binop_text(op)),
{
    if operator_method(op) is Some && op != BinOp::Ne {
        reveal_strlit("operator");
        reveal_strlit("operator+");
        reveal_strlit("operator-");
        reveal_strlit("operator*");
        reveal_strlit("operator/");
        reveal_strlit("operator%");
        reveal_strlit("operator==");
        reveal_strlit("operator<");
        reveal_strlit("operator<=");
        reveal_strlit("operator>");
        reveal_strlit("operator>=");
        reveal_strlit("+");
        reveal_strlit("-");
        reveal_strlit("*");
        reveal_strlit("/");
        reveal_strlit("%");
        reveal_strlit("==");
        reveal_strlit("<");
        reveal_strlit("<=");
        reveal_strlit(">");
        reveal_strlit(">=");
        let name = operator_method(op)->0;
        assert(name =~= "operator"@ + binop_text(op));
        operator_symbol_unique(name, binop_text(op));
    }
}

// ---------------------------------------------------------------------------
// Numbers
// ---------------------------------------------------------------------------

/// Any numeric type, including untyped literal markers.
pub open spec fn numeric(t: Ty) -> bool {
    t.is_numeric() || t is IntLit || t is FloatLit
}

/// True if this is any numeric type, including untyped literal markers.
pub fn is_numeric(ty: &Type) -> (r: bool)
    ensures
        r == numeric(ty@),
{
    ty.is_numeric() || matches!(ty, Type::IntLit(_) | Type::FloatLit(_))
}

/// The natural concrete type of an untyped literal marker.
pub open spec fn resolved(t: Ty) -> Ty {
    match t {
        Ty::IntLit(v) => if i32::MIN <= v <= i32::MAX {
            Ty::Int32
        } else {
            Ty::Int64
        },
        Ty::FloatLit(_) => Ty::Float64,
        Ty::StringLit(_) => Ty::String,
        _ => t,
    }
}

/// Map an untyped literal marker to its natural concrete type.
pub fn resolve_literal(ty: &Type) -> (r: Type)
    ensures
        r@ == resolved(ty@),
{
    match ty {
        Type::IntLit(v) => if -2147483648 <= *v && *v <= 2147483647 {
            Type::Int32
        } else {
            Type::Int64
        },
        Type::FloatLit(_) => Type::Float64,
        Type::StringLit(_) => Type::String,
        _ => ty.clone(),
    }
}

/// The values that a concrete integer type holds.
pub open spec fn int_range(t: Ty) -> (int, int) {
    match t {
        Ty::Int8 => (-0x80, 0x7f),
        Ty::Int16 => (-0x8000, 0x7fff),
        Ty::Int32 => (-0x8000_0000, 0x7fff_ffff),
        Ty::Int64 => (-0x8000_0000_0000_0000, 0x7fff_ffff_ffff_ffff),
        Ty::UInt8 => (0, 0xff),
        Ty::UInt16 => (0, 0xffff),
        Ty::UInt32 => (0, 0xffff_ffff),
        Ty::UInt64 => (0, 0xffff_ffff_ffff_ffff),
        _ => (0, -1),
    }
}

/// An integer literal value fits a numeric type.
pub open spec fn fits(t: Ty, v: int) -> bool {
    t.is_float() || (t.is_int() && int_range(t).0 <= v <= int_range(t).1)
}

/// Whether an integer literal value fits in the target numeric type.
pub fn int_target_fits(target: &Type, v: i64) -> (r: bool)
    ensures
        r == fits(target@, v as int),
{
    match target {
        Type::Int8 => v >= -0x80 && v <= 0x7f,
        Type::Int16 => v >= -0x8000 && v <= 0x7fff,
        Type::Int32 => v >= -0x8000_0000 && v <= 0x7fff_ffff,
        Type::Int64 => true,
        Type::UInt8 => v >= 0 && v <= 0xff,
        Type::UInt16 => v >= 0 && v <= 0xffff,
        Type::UInt32 => v >= 0 && v <= 0xffff_ffff,
        Type::UInt64 => v >= 0,
        Type::Float32 => true,
        Type::Float64 => true,
        _ => false,
    }
}

/// The type that a suffix names.
pub open spec fn suffix_ty(s: IntSuffix) -> Ty {
    match s {
        IntSuffix::Plain => Ty::Infer,
        IntSuffix::I8 => Ty::Int8,
        IntSuffix::I16 => Ty::Int16,
        IntSuffix::I32 => Ty::Int32,
        IntSuffix::I64 => Ty::Int64,
        IntSuffix::U8 => Ty::UInt8,
        IntSuffix::U16 => Ty::UInt16,
        IntSuffix::U32 => Ty::UInt32,
        IntSuffix::U64 => Ty::UInt64,
    }
}

/// The type of an integer literal: untyped without a suffix, else the type that
/// the suffix names, if the value fits it.
pub open spec fn suffixed(s: IntSuffix, v: i64) -> Result<Ty, Seq<char>> {
    if s == IntSuffix::Plain {
        Ok(Ty::IntLit(v))
    } else if fits(suffix_ty(s), v as int) {
        Ok(suffix_ty(s))
    } else {
        Err(
            "integer literal "@ + crate::text::dec_int(v as int) + " does not fit in "@ + ty_name(
                suffix_ty(s),
            ),
        )
    }
}

/// A result by value.
pub open spec fn outcome(r: Result<Type, String>) -> Result<Ty, Seq<char>> {
    match r {
        Ok(t) => Ok(t@),
        Err(e) => Err(e@),
    }
}

/// The concrete type of a suffixed integer literal, checking the value fits.
pub fn suffixed_int_type(suffix: IntSuffix, value: i64) -> (r: Result<Type, String>)
    ensures
        outcome(r) == suffixed(suffix, value),
{
    let ty: Type = match suffix {
        IntSuffix::Plain => return Ok(Type::IntLit(value)),
        IntSuffix::I8 => Type::Int8,
        IntSuffix::I16 => Type::Int16,
        IntSuffix::I32 => Type::Int32,
        IntSuffix::I64 => Type::Int64,
        IntSuffix::U8 => Type::UInt8,
        IntSuffix::U16 => Type::UInt16,
        IntSuffix::U32 => Type::UInt32,
        IntSuffix::U64 => Type::UInt64,
    };
    assert(ty@ == suffix_ty(suffix));
    if int_target_fits(&ty, value) {
        Ok(ty)
    } else {
        let shown: String = dec_i64(value);
        let name: String = ty.name();
        Err(cat4("integer literal ", shown.as_str(), " does not fit in ", name.as_str()))
    }
}

/// Bit width of a concrete integer type.
pub open spec fn bits_of(t: Ty) -> int {
    match t {
        Ty::Int8 | Ty::UInt8 => 8,
        Ty::Int16 | Ty::UInt16 => 16,
        Ty::Int32 | Ty::UInt32 => 32,
        Ty::Int64 | Ty::UInt64 => 64,
        _ => 0,
    }
}

/// Bit width of a concrete integer type.
pub fn int_bits(ty: &Type) -> (r: u8)
    ensures
        r == bits_of(ty@),
{
    match ty {
        Type::Int8 => 8,
        Type::UInt8 => 8,
        Type::Int16 => 16,
        Type::UInt16 => 16,
        Type::Int32 => 32,
        Type::UInt32 => 32,
        Type::Int64 => 64,
        Type::UInt64 => 64,
        _ => 0,
    }
}

/// `source` widens into `target`: every value of an integer type that widens is
/// a value of the target, integers widen into floats, and single precision
/// widens into double precision.
pub open spec fn widens(target: Ty, source: Ty) -> bool {
    if source.is_int() {
        target.is_float() || (target.is_int() && int_range(target).0 <= int_range(source).0
            && int_range(source).1 <= int_range(target).1)
    } else {
        target is Float64 && source is Float32
    }
}

/// Implicit widening rules for two different numeric types.
pub fn numeric_widening(target: &Type, source: &Type) -> (r: bool)
    ensures
        r == widens(target@, source@),
{
    let t: u8 = int_bits(target);
    let s: u8 = int_bits(source);
    if s == 0 {
        return matches!(target, Type::Float64) && matches!(source, Type::Float32);
    }
    if t == 0 {
        return target.is_float();
    }
    if target.is_signed_int() {
        if source.is_signed_int() {
            t >= s
        } else {
            t > s
        }
    } else {
        !source.is_signed_int() && t >= s
    }
}

/// The signed type of twice the width.
pub open spec fn doubled(bits: int) -> Option<Ty> {
    if bits == 64 {
        None
    } else if bits == 32 {
        Some(Ty::Int64)
    } else if bits == 16 {
        Some(Ty::Int32)
    } else {
        Some(Ty::Int16)
    }
}

/// Common type for a binary numeric operation. Between integers it is the wider
/// type of one sign; where signs differ, the signed type where that is wider,
/// else a signed type wider than the unsigned one. A float operand wins, and of
/// two floats the wider.
pub open spec fn promoted(a: Ty, b: Ty) -> Option<Ty> {
    if a.is_float() && b.is_float() {
        Some(
            if a is Float32 && b is Float32 {
                Ty::Float32
            } else {
                Ty::Float64
            },
        )
    } else if a.is_float() || b.is_float() {
        Some(
            if a is Float32 || b is Float32 {
                Ty::Float32
            } else {
                Ty::Float64
            },
        )
    } else if a.is_signed_int() == b.is_signed_int() {
        Some(
            if bits_of(a) >= bits_of(b) {
                a
            } else {
                b
            },
        )
    } else {
        let (signed, unsigned) = if a.is_signed_int() {
            (a, b)
        } else {
            (b, a)
        };
        if bits_of(signed) > bits_of(unsigned) {
            Some(signed)
        } else {
            doubled(bits_of(unsigned))
        }
    }
}

/// An optional type by value.
pub open spec fn opt_ty(t: Option<Type>) -> Option<Ty> {
    match t {
        Some(x) => Some(x@),
        None => None,
    }
}

/// Common type for a binary numeric operation.
pub fn promote(a: &Type, b: &Type) -> (r: Option<Type>)
    requires
        a@.is_numeric(),
        b@.is_numeric(),
    ensures
        opt_ty(r) == promoted(a@, b@),
{
    if a.is_float() && b.is_float() {
        return Some(
            if matches!(a, Type::Float32) && matches!(b, Type::Float32) {
                Type::Float32
            } else {
                Type::Float64
            },
        );
    }
    if a.is_float() || b.is_float() {
        return Some(
            if matches!(a, Type::Float32) || matches!(b, Type::Float32) {
                Type::Float32
            } else {
                Type::Float64
            },
        );
    }
    let a_signed: bool = a.is_signed_int();
    let b_signed: bool = b.is_signed_int();
    let a_bits: u8 = int_bits(a);
    let b_bits: u8 = int_bits(b);
    if a_signed == b_signed {
        return Some(
            if a_bits >= b_bits {
                a.clone()
            } else {
                b.clone()
            },
        );
    }
    let wide: &Type = if a_bits > b_bits {
        a
    } else {
        b
    };
    let wide_signed: bool = if a_bits > b_bits {
        a_signed
    } else {
        b_signed
    };
    if a_bits != b_bits && wide_signed {
        return Some(wide.clone());
    }
    match int_bits(wide) {
        64 => None,
        32 => Some(Type::Int64),
        16 => Some(Type::Int32),
        _ => Some(Type::Int16),
    }
}

/// Promotion does not depend on the order of the operands, and both operands
/// are or widen into the common type; it is missing only where a signed integer
/// meets the widest unsigned one.
pub proof fn promotion_laws(a: Ty, b: Ty)
    requires
        a.is_numeric(),
        b.is_numeric(),
    ensures
        promoted(a, b) == promoted(b, a),
        promoted(a, a) == Some(a),
        promoted(a, b) matches Some(t) ==> (t == a || widens(t, a)) && (t == b || widens(t, b)),
        promoted(a, b) is None <==> (a.is_signed_int() && b is UInt64) || (a is UInt64
            && b.is_signed_int()),
{
}

/// The result type of arithmetic.
pub open spec fn arithmetic(a: Ty, b: Ty) -> Result<Ty, Seq<char>> {
    let (x, y) = (resolved(a), resolved(b));
    if !x.is_numeric() || !y.is_numeric() {
        Err("cannot operate on "@ + ty_name(x) + " and "@ + ty_name(y))
    } else {
        match promoted(x, y) {
            Some(t) => Ok(t),
            None => Err(
                "cannot promote "@ + ty_name(x) + " and "@ + ty_name(y) + " to a common type"@,
            ),
        }
    }
}

/// The result type of arithmetic on operands of the given types.
pub fn arithmetic_type(a: &Type, b: &Type) -> (r: Result<Type, String>)
    ensures
        outcome(r) == arithmetic(a@, b@),
{
    let a: Type = resolve_literal(a);
    let b: Type = resolve_literal(b);
    let x: String = a.name();
    let y: String = b.name();
    if !a.is_numeric() || !b.is_numeric() {
        return Err(cat4("cannot operate on ", x.as_str(), " and ", y.as_str()));
    }
    match promote(&a, &b) {
        Some(t) => Ok(t),
        None => Err(
            crate::text::cat5(
                "cannot promote ",
                x.as_str(),
                " and ",
                y.as_str(),
                " to a common type",
            ),
        ),
    }
}

} // verus!
