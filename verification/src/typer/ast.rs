//! The syntax tree that the type checker works on.

use crate::arith::rank;
use crate::text::{cat2, cat3, cat4, own, same};
use vstd::prelude::*;

verus! {

/// A type as it is written or inferred.
#[derive(Debug)]
pub enum Type {
    /// No value.
    Unit,
    /// Boolean.
    Bool,
    /// Character.
    Char,
    /// String.
    String,
    /// 8-bit signed integer.
    Int8,
    /// 16-bit signed integer.
    Int16,
    /// 32-bit signed integer.
    Int32,
    /// 64-bit signed integer.
    Int64,
    /// 8-bit unsigned integer.
    UInt8,
    /// 16-bit unsigned integer.
    UInt16,
    /// 32-bit unsigned integer.
    UInt32,
    /// 64-bit unsigned integer.
    UInt64,
    /// Single precision float.
    Float32,
    /// Double precision float.
    Float64,
    /// Marker of an untyped integer literal.
    IntLit(i64),
    /// Marker of an untyped float literal, by its bits.
    FloatLit(u64),
    /// Marker of a string literal.
    StringLit(String),
    /// A named union of string literals.
    LiteralUnion(String, Vec<String>),
    /// A class or interface with its type arguments.
    Class(String, Vec<Type>),
    /// An enum.
    Enum(String),
    /// A type parameter.
    GenericParam(String),
    /// A tuple.
    Tuple(Vec<Type>),
    /// A value or `null`.
    Nullable(Box<Type>),
    /// A named wrapper around a primitive.
    Newtype(String, Box<Type>),
    /// A function.
    Func(Vec<Type>, Box<Type>),
    /// To be inferred (`var`).
    Infer,
}

/// The value of a type: names are texts, lists are sequences, and a float
/// literal counts by its place in the order of floats.
pub ghost enum Ty {
    /// No value.
    Unit,
    /// Boolean.
    Bool,
    /// Character.
    Char,
    /// String.
    String,
    /// 8-bit signed integer.
    Int8,
    /// 16-bit signed integer.
    Int16,
    /// 32-bit signed integer.
    Int32,
    /// 64-bit signed integer.
    Int64,
    /// 8-bit unsigned integer.
    UInt8,
    /// 16-bit unsigned integer.
    UInt16,
    /// 32-bit unsigned integer.
    UInt32,
    /// 64-bit unsigned integer.
    UInt64,
    /// Single precision float.
    Float32,
    /// Double precision float.
    Float64,
    /// Untyped integer literal.
    IntLit(i64),
    /// Untyped float literal.
    FloatLit(int),
    /// String literal.
    StringLit(Seq<char>),
    /// Union of string literals.
    LiteralUnion(Seq<char>, Seq<Seq<char>>),
    /// Class with type arguments.
    Class(Seq<char>, Seq<Ty>),
    /// Enum.
    Enum(Seq<char>),
    /// Type parameter.
    GenericParam(Seq<char>),
    /// Tuple.
    Tuple(Seq<Ty>),
    /// A value or `null`.
    Nullable(Box<Ty>),
    /// Named wrapper.
    Newtype(Seq<char>, Box<Ty>),
    /// Function.
    Func(Seq<Ty>, Box<Ty>),
    /// To be inferred.
    Infer,
}

/// The texts of a list of strings.
pub open spec fn texts(s: Seq<String>) -> Seq<Seq<char>> {
    Seq::new(s.len(), |i: int| s[i]@)
}

/// The values of a list of types.
pub open spec fn tys(ts: Seq<Type>) -> Seq<Ty>
    decreases ts,
{
    Seq::new(
        ts.len(),
        |i: int|
            if 0 <= i < ts.len() {
                ty_of(ts[i])
            } else {
                Ty::Unit
            },
    )
}

/// The value of a type.
pub open spec fn ty_of(t: Type) -> Ty
    decreases t,
{
    match t {
        Type::Unit => Ty::Unit,
        Type::Bool => Ty::Bool,
        Type::Char => Ty::Char,
        Type::String => Ty::String,
        Type::Int8 => Ty::Int8,
        Type::Int16 => Ty::Int16,
        Type::Int32 => Ty::Int32,
        Type::Int64 => Ty::Int64,
        Type::UInt8 => Ty::UInt8,
        Type::UInt16 => Ty::UInt16,
        Type::UInt32 => Ty::UInt32,
        Type::UInt64 => Ty::UInt64,
        Type::Float32 => Ty::Float32,
        Type::Float64 => Ty::Float64,
        Type::IntLit(v) => Ty::IntLit(v),
        Type::FloatLit(v) => Ty::FloatLit(rank(v)),
        Type::StringLit(s) => Ty::StringLit(s@),
        Type::LiteralUnion(n, ms) => Ty::LiteralUnion(n@, texts(ms@)),
        Type::Class(n, args) => Ty::Class(n@, tys(args@)),
        Type::Enum(n) => Ty::Enum(n@),
        Type::GenericParam(n) => Ty::GenericParam(n@),
        Type::Tuple(ts) => Ty::Tuple(tys(ts@)),
        Type::Nullable(t) => Ty::Nullable(Box::new(ty_of(*t))),
        Type::Newtype(n, t) => Ty::Newtype(n@, Box::new(ty_of(*t))),
        Type::Func(ps, r) => Ty::Func(tys(ps@), Box::new(ty_of(*r))),
        Type::Infer => Ty::Infer,
    }
}

impl View for Type {
    type V = Ty;

    open spec fn view(&self) -> Ty {
        ty_of(*self)
    }
}

impl Ty {
    /// Concrete integer types.
    pub open spec fn is_int(self) -> bool {
        match self {
            Ty::Int8 | Ty::Int16 | Ty::Int32 | Ty::Int64 | Ty::UInt8 | Ty::UInt16 | Ty::UInt32
            | Ty::UInt64 => true,
            _ => false,
        }
    }

    /// Concrete signed integer types.
    pub open spec fn is_signed_int(self) -> bool {
        match self {
            Ty::Int8 | Ty::Int16 | Ty::Int32 | Ty::Int64 => true,
            _ => false,
        }
    }

    /// Concrete float types.
    pub open spec fn is_float(self) -> bool {
        self is Float32 || self is Float64
    }

    /// Concrete numeric types.
    pub open spec fn is_numeric(self) -> bool {
        self.is_int() || self.is_float()
    }

    /// The type of the `null` reference.
    pub open spec fn is_null(self) -> bool {
        self matches Ty::Class(n, _) && n == "null"@
    }
}

/// A list of texts with a separator between any two.
pub open spec fn joined(s: Seq<Seq<char>>, sep: Seq<char>) -> Seq<char>
    decreases s.len(),
{
    if s.len() == 0 {
        seq![]
    } else if s.len() == 1 {
        s[0]
    } else {
        joined(s.drop_last(), sep) + sep + s.last()
    }
}

/// The names of a list of types.
pub open spec fn ty_names(ts: Seq<Ty>) -> Seq<Seq<char>>
    decreases ts,
{
    Seq::new(
        ts.len(),
        |i: int|
            if 0 <= i < ts.len() {
                ty_name(ts[i])
            } else {
                seq![]
            },
    )
}

/// How a type is shown in a message. An untyped literal shows the type that it
/// carries by default.
pub open spec fn ty_name(t: Ty) -> Seq<char>
    decreases t,
{
    match t {
        Ty::Unit => "void"@,
        Ty::Bool => "bool"@,
        Ty::Char => "char"@,
        Ty::String => "string"@,
        Ty::Int8 => "int8"@,
        Ty::Int16 => "int16"@,
        Ty::Int32 => "int32"@,
        Ty::Int64 => "int64"@,
        Ty::UInt8 => "uint8"@,
        Ty::UInt16 => "uint16"@,
        Ty::UInt32 => "uint32"@,
        Ty::UInt64 => "uint64"@,
        Ty::Float32 => "float32"@,
        Ty::Float64 => "float64"@,
        Ty::IntLit(v) => if i32::MIN <= v <= i32::MAX {
            "int32"@
        } else {
            "int64"@
        },
        Ty::FloatLit(_) => "float64"@,
        Ty::StringLit(_) => "string"@,
        Ty::LiteralUnion(n, _) => n,
        Ty::Class(n, args) => if args.len() == 0 {
            n
        } else {
            n + "<"@ + joined(ty_names(args), ", "@) + ">"@
        },
        Ty::Enum(n) => n,
        Ty::GenericParam(n) => n,
        Ty::Tuple(ts) => "("@ + joined(ty_names(ts), ", "@) + ")"@,
        Ty::Nullable(t) => ty_name(*t) + "?"@,
        Ty::Newtype(n, _) => n,
        Ty::Func(ps, r) => "Func<"@ + joined(ty_names(ps).push(ty_name(*r)), ", "@) + ">"@,
        Ty::Infer => "var"@,
    }
}

/// A list of texts with a separator between any two.
pub fn join(s: &Vec<String>, sep: &str) -> (r: String)
    ensures
        r@ == joined(texts(s@), sep@),
{
    if s.len() == 0 {
        return String::new();
    }
    let mut out: String = s[0].clone();
    let mut i: usize = 1;
    assert(texts(s@).subrange(0, 1) =~= seq![s@[0]@]);
    while i < s.len()
        invariant
            1 <= i <= s@.len(),
            out@ == joined(texts(s@).subrange(0, i as int), sep@),
        decreases s.len() - i,
    {
        out = cat3(out.as_str(), sep, s[i].as_str());
        assert(texts(s@).subrange(0, i + 1).drop_last() =~= texts(s@).subrange(0, i as int));
        i = i + 1;
    }
    assert(texts(s@).subrange(0, i as int) =~= texts(s@));
    out
}

/// The names of a list of types.
pub fn type_names(ts: &Vec<Type>) -> (r: Vec<String>)
    ensures
        texts(r@) == ty_names(tys(ts@)),
    decreases ts,
{
    let mut out: Vec<String> = Vec::new();
    let mut i: usize = 0;
    while i < ts.len()
        invariant
            i <= ts@.len(),
            out@.len() == i,
            forall|j: int| 0 <= j < i ==> (#[trigger] out@[j])@ == ty_name(ty_of(ts@[j])),
        decreases ts.len() - i,
    {
        proof {
            assert(decreases_to!(ts => ts@[i as int]));
        }
        out.push(ts[i].name());
        i = i + 1;
    }
    assert(texts(out@) =~= ty_names(tys(ts@)));
    out
}

/// A copy of a list of texts.
pub fn clone_texts(s: &Vec<String>) -> (r: Vec<String>)
    ensures
        r@ == s@,
{
    let mut out: Vec<String> = Vec::new();
    let mut i: usize = 0;
    while i < s.len()
        invariant
            i <= s@.len(),
            out@ == s@.subrange(0, i as int),
        decreases s.len() - i,
    {
        out.push(s[i].clone());
        assert(s@.subrange(0, i + 1) =~= s@.subrange(0, i as int).push(s@[i as int]));
        i = i + 1;
    }
    assert(s@.subrange(0, i as int) =~= s@);
    out
}

/// Whether a list holds a text.
pub fn has_text(s: &Vec<String>, x: &str) -> (r: bool)
    ensures
        r == texts(s@).contains(x@),
{
    let mut i: usize = 0;
    while i < s.len()
        invariant
            i <= s@.len(),
            forall|j: int| 0 <= j < i ==> (#[trigger] texts(s@)[j]) != x@,
        decreases s.len() - i,
    {
        if same(s[i].as_str(), x) {
            assert(texts(s@)[i as int] == x@);
            return true;
        }
        i = i + 1;
    }
    false
}

/// Whether two lists of texts are equal.
pub fn same_texts(a: &Vec<String>, b: &Vec<String>) -> (r: bool)
    ensures
        r == (texts(a@) == texts(b@)),
{
    if a.len() != b.len() {
        assert(texts(a@).len() != texts(b@).len());
        return false;
    }
    let mut i: usize = 0;
    while i < a.len()
        invariant
            i <= a@.len(),
            a@.len() == b@.len(),
            forall|j: int| 0 <= j < i ==> (#[trigger] a@[j])@ == b@[j]@,
        decreases a.len() - i,
    {
        if !same(a[i].as_str(), b[i].as_str()) {
            assert(texts(a@)[i as int] != texts(b@)[i as int]);
            return false;
        }
        i = i + 1;
    }
    assert(texts(a@) =~= texts(b@));
    true
}

/// A copy of a list of types.
pub fn clone_tys(ts: &Vec<Type>) -> (r: Vec<Type>)
    ensures
        tys(r@) == tys(ts@),
    decreases ts,
{
    let mut out: Vec<Type> = Vec::new();
    let mut i: usize = 0;
    while i < ts.len()
        invariant
            i <= ts.len(),
            out@.len() == i,
            forall|j: int| 0 <= j < i ==> ty_of(#[trigger] out@[j]) == ty_of(ts@[j]),
        decreases ts.len() - i,
    {
        proof {
            assert(decreases_to!(ts => ts@[i as int]));
        }
        out.push(ts[i].clone());
        i = i + 1;
    }
    assert(tys(out@) =~= tys(ts@));
    out
}

/// Whether two lists of types are equal.
pub fn same_tys(a: &Vec<Type>, b: &Vec<Type>) -> (r: bool)
    ensures
        r == (tys(a@) == tys(b@)),
    decreases a,
{
    if a.len() != b.len() {
        assert(tys(a@).len() != tys(b@).len());
        return false;
    }
    let mut i: usize = 0;
    while i < a.len()
        invariant
            i <= a@.len(),
            a@.len() == b@.len(),
            forall|j: int| 0 <= j < i ==> ty_of(#[trigger] a@[j]) == ty_of(b@[j]),
        decreases a.len() - i,
    {
        proof {
            assert(decreases_to!(a => a@[i as int]));
        }
        if !same_type(&a[i], &b[i]) {
            assert(tys(a@)[i as int] != tys(b@)[i as int]);
            return false;
        }
        i = i + 1;
    }
    assert(tys(a@) =~= tys(b@));
    true
}

/// Whether two float literals denote the same number.
fn same_rank(a: u64, b: u64) -> (r: bool)
    ensures
        r == (rank(a) == rank(b)),
{
    a == b || ((a == 0 || a == 0x8000_0000_0000_0000) && (b == 0 || b == 0x8000_0000_0000_0000))
}

/// Whether two types are equal.
pub fn same_type(a: &Type, b: &Type) -> (r: bool)
    ensures
        r == (a@ == b@),
    decreases a,
{
    match (a, b) {
        (Type::Unit, Type::Unit) => true,
        (Type::Bool, Type::Bool) => true,
        (Type::Char, Type::Char) => true,
        (Type::String, Type::String) => true,
        (Type::Int8, Type::Int8) => true,
        (Type::Int16, Type::Int16) => true,
        (Type::Int32, Type::Int32) => true,
        (Type::Int64, Type::Int64) => true,
        (Type::UInt8, Type::UInt8) => true,
        (Type::UInt16, Type::UInt16) => true,
        (Type::UInt32, Type::UInt32) => true,
        (Type::UInt64, Type::UInt64) => true,
        (Type::Float32, Type::Float32) => true,
        (Type::Float64, Type::Float64) => true,
        (Type::IntLit(x), Type::IntLit(y)) => *x == *y,
        (Type::FloatLit(x), Type::FloatLit(y)) => same_rank(*x, *y),
        (Type::StringLit(x), Type::StringLit(y)) => same(x.as_str(), y.as_str()),
        (Type::LiteralUnion(m, xs), Type::LiteralUnion(n, ys)) => same(m.as_str(), n.as_str())
            && same_texts(xs, ys),
        (Type::Class(m, xs), Type::Class(n, ys)) => same(m.as_str(), n.as_str()) && same_tys(xs, ys),
        (Type::Enum(m), Type::Enum(n)) => same(m.as_str(), n.as_str()),
        (Type::GenericParam(m), Type::GenericParam(n)) => same(m.as_str(), n.as_str()),
        (Type::Tuple(xs), Type::Tuple(ys)) => same_tys(xs, ys),
        (Type::Nullable(x), Type::Nullable(y)) => same_type(x, y),
        (Type::Newtype(m, x), Type::Newtype(n, y)) => same(m.as_str(), n.as_str()) && same_type(x, y),
        (Type::Func(xs, x), Type::Func(ys, y)) => same_tys(xs, ys) && same_type(x, y),
        (Type::Infer, Type::Infer) => true,
        _ => false,
    }
}

impl Clone for Type {
    fn clone(&self) -> (r: Self)
        ensures
            r@ == self@,
        decreases self,
    {
        match self {
            Type::Unit => Type::Unit,
            Type::Bool => Type::Bool,
            Type::Char => Type::Char,
            Type::String => Type::String,
            Type::Int8 => Type::Int8,
            Type::Int16 => Type::Int16,
            Type::Int32 => Type::Int32,
            Type::Int64 => Type::Int64,
            Type::UInt8 => Type::UInt8,
            Type::UInt16 => Type::UInt16,
            Type::UInt32 => Type::UInt32,
            Type::UInt64 => Type::UInt64,
            Type::Float32 => Type::Float32,
            Type::Float64 => Type::Float64,
            Type::IntLit(v) => Type::IntLit(*v),
            Type::FloatLit(v) => Type::FloatLit(*v),
            Type::StringLit(s) => Type::StringLit(s.clone()),
            Type::LiteralUnion(n, ms) => Type::LiteralUnion(n.clone(), clone_texts(ms)),
            Type::Class(n, args) => Type::Class(n.clone(), clone_tys(args)),
            Type::Enum(n) => Type::Enum(n.clone()),
            Type::GenericParam(n) => Type::GenericParam(n.clone()),
            Type::Tuple(ts) => Type::Tuple(clone_tys(ts)),
            Type::Nullable(t) => Type::Nullable(Box::new((&**t).clone())),
            Type::Newtype(n, t) => Type::Newtype(n.clone(), Box::new((&**t).clone())),
            Type::Func(ps, r) => Type::Func(clone_tys(ps), Box::new((&**r).clone())),
            Type::Infer => Type::Infer,
        }
    }
}

impl Type {
    /// How the type is shown in a message.
    pub fn name(&self) -> (r: String)
        ensures
            r@ == ty_name(self@),
        decreases self,
    {
        match self {
            Type::Unit => own("void"),
            Type::Bool => own("bool"),
            Type::Char => own("char"),
            Type::String => own("string"),
            Type::Int8 => own("int8"),
            Type::Int16 => own("int16"),
            Type::Int32 => own("int32"),
            Type::Int64 => own("int64"),
            Type::UInt8 => own("uint8"),
            Type::UInt16 => own("uint16"),
            Type::UInt32 => own("uint32"),
            Type::UInt64 => own("uint64"),
            Type::Float32 => own("float32"),
            Type::Float64 => own("float64"),
            Type::IntLit(v) => if -2147483648 <= *v && *v <= 2147483647 {
                let out: String = own("int32");
                assert(out@ == ty_name(self@));
                out
            } else {
                let out: String = own("int64");
                assert(out@ == ty_name(self@));
                out
            },
            Type::FloatLit(_) => own("float64"),
            Type::StringLit(_) => own("string"),
            Type::LiteralUnion(n, _) => n.clone(),
            Type::Class(n, args) => if args.len() == 0 {
                assert(tys(args@).len() == 0);
                let out: String = n.clone();
                assert(out@ == ty_name(self@));
                out
            } else {
                let inner: String = join(&type_names(args), ", ");
                let out: String = cat4(n.as_str(), "<", inner.as_str(), ">");
                assert(out@ == ty_name(self@));
                out
            },
            Type::Enum(n) => n.clone(),
            Type::GenericParam(n) => n.clone(),
            Type::Tuple(ts) => {
                let inner: String = join(&type_names(ts), ", ");
                let out: String = cat3("(", inner.as_str(), ")");
                assert(out@ == ty_name(self@));
                out
            },
            Type::Nullable(t) => {
                let inner: String = t.name();
                let out: String = cat2(inner.as_str(), "?");
                assert(out@ == ty_name(self@));
                out
            },
            Type::Newtype(n, _) => n.clone(),
            Type::Func(ps, r) => {
                let mut names: Vec<String> = type_names(ps);
                let ghost before = names@;
                names.push(r.name());
                assert(texts(names@) =~= texts(before).push(ty_name(r@)));
                let inner: String = join(&names, ", ");
                let out: String = cat3("Func<", inner.as_str(), ">");
                assert(out@ == ty_name(self@));
                out
            },
            Type::Infer => own("var"),
        }
    }

    /// Concrete integer types.
    pub fn is_int(&self) -> (r: bool)
        ensures
            r == self@.is_int(),
    {
        matches!(
            self,
            Type::Int8 | Type::Int16 | Type::Int32 | Type::Int64 | Type::UInt8 | Type::UInt16
                | Type::UInt32 | Type::UInt64
        )
    }

    /// Concrete signed integer types.
    pub fn is_signed_int(&self) -> (r: bool)
        ensures
            r == self@.is_signed_int(),
    {
        matches!(self, Type::Int8 | Type::Int16 | Type::Int32 | Type::Int64)
    }

    /// Concrete float types.
    pub fn is_float(&self) -> (r: bool)
        ensures
            r == self@.is_float(),
    {
        matches!(self, Type::Float32 | Type::Float64)
    }

    /// Concrete numeric types.
    pub fn is_numeric(&self) -> (r: bool)
        ensures
            r == self@.is_numeric(),
    {
        self.is_int() || self.is_float()
    }

    /// The type of the `null` reference.
    pub fn is_null(&self) -> (r: bool)
        ensures
            r == self@.is_null(),
    {
        match self {
            Type::Class(n, _) => same(n.as_str(), "null"),
            _ => false,
        }
    }
}

/// Direction in which a type parameter of an interface may vary.
#[derive(Debug, Clone, Copy, PartialEq, Eq, Structural)]
pub enum Variance {
    /// Neither.
    Invariant,
    /// `out`.
    Covariant,
    /// `in`.
    Contravariant,
}

/// Who may use a member.
#[derive(Debug, Clone, Copy, PartialEq, Eq, Structural)]
pub enum Visibility {
    /// Everyone.
    Public,
    /// The class and its subclasses.
    Protected,
    /// The class.
    Private,
    /// The module (file).
    Internal,
}

/// A type parameter.
#[derive(Debug)]
pub struct GenericParam {
    /// Its name.
    pub name: String,
    /// Its variance annotation.
    pub variance: Variance,
    /// Types that an argument must be assignable to, all of them.
    pub bounds: Vec<Type>,
    /// Types of which an argument must be assignable to one, where there are any.
    pub alternatives: Vec<Type>,
    /// Whether an argument must have a parameterless constructor.
    pub requires_new: bool,
}

/// The value of a type parameter.
pub ghost struct ParamModel {
    /// Its name.
    pub name: Seq<char>,
    /// Its variance annotation.
    pub variance: Variance,
    /// Its bounds.
    pub bounds: Seq<Ty>,
    /// Its alternatives.
    pub alternatives: Seq<Ty>,
    /// Its `new()` constraint.
    pub requires_new: bool,
}

impl View for GenericParam {
    type V = ParamModel;

    open spec fn view(&self) -> ParamModel {
        ParamModel {
            name: self.name@,
            variance: self.variance,
            bounds: tys(self.bounds@),
            alternatives: tys(self.alternatives@),
            requires_new: self.requires_new,
        }
    }
}

impl Clone for GenericParam {
    fn clone(&self) -> (r: Self)
        ensures
            r@ == self@,
    {
        GenericParam {
            name: self.name.clone(),
            variance: self.variance,
            bounds: clone_tys(&self.bounds),
            alternatives: clone_tys(&self.alternatives),
            requires_new: self.requires_new,
        }
    }
}

/// The values of a list.
pub open spec fn views<T: View>(s: Seq<T>) -> Seq<T::V> {
    Seq::new(s.len(), |i: int| s[i]@)
}

/// A copy of a list of type parameters.
pub fn clone_params(ps: &Vec<GenericParam>) -> (r: Vec<GenericParam>)
    ensures
        views(r@) == views(ps@),
{
    let mut out: Vec<GenericParam> = Vec::new();
    let mut i: usize = 0;
    while i < ps.len()
        invariant
            i <= ps.len(),
            out@.len() == i,
            forall|j: int| 0 <= j < i ==> (#[trigger] out@[j])@ == ps@[j]@,
        decreases ps.len() - i,
    {
        out.push(ps[i].clone());
        i = i + 1;
    }
    assert(views(out@) =~= views(ps@));
    out
}

/// Suffix of an integer literal.
#[derive(Debug, Clone, Copy, PartialEq, Eq, Structural)]
pub enum IntSuffix {
    /// No suffix.
    Plain,
    /// `i8`.
    I8,
    /// `i16`.
    I16,
    /// `i32`.
    I32,
    /// `i64`.
    I64,
    /// `u8`.
    U8,
    /// `u16`.
    U16,
    /// `u32`.
    U32,
    /// `u64`.
    U64,
}

/// Suffix of a float literal.
#[derive(Debug, Clone, Copy, PartialEq, Eq, Structural)]
pub enum FloatSuffix {
    /// No suffix.
    Plain,
    /// `f32`.
    F32,
    /// `f64`.
    F64,
}

/// Binary operator.
#[derive(Debug, Clone, Copy, PartialEq, Eq, Structural)]
pub enum BinOp {
    /// `+`
    Add,
    /// `-`
    Sub,
    /// `*`
    Mul,
    /// `/`
    Div,
    /// `%`
    Rem,
    /// `==`
    Eq,
    /// `!=`
    Ne,
    /// `<`
    Lt,
    /// `<=`
    Le,
    /// `>`
    Gt,
    /// `>=`
    Ge,
    /// `&&`
    And,
    /// `||`
    Or,
}

impl BinOp {
    /// Operators that compare.
    pub open spec fn compares(self) -> bool {
        match self {
            BinOp::Eq | BinOp::Ne | BinOp::Lt | BinOp::Le | BinOp::Gt | BinOp::Ge => true,
            _ => false,
        }
    }

    /// Operators that order.
    pub open spec fn orders(self) -> bool {
        match self {
            BinOp::Lt | BinOp::Le | BinOp::Gt | BinOp::Ge => true,
            _ => false,
        }
    }

    /// Whether the operator compares.
    pub fn is_comparison(self) -> (r: bool)
        ensures
            r == self.compares(),
    {
        matches!(self, BinOp::Eq | BinOp::Ne | BinOp::Lt | BinOp::Le | BinOp::Gt | BinOp::Ge)
    }
}

/// Unary operator.
#[derive(Debug, Clone, Copy, PartialEq, Eq, Structural)]
pub enum UnaryOp {
    /// `-`
    Neg,
    /// `!`
    Not,
}

/// A call.
#[derive(Debug)]
pub struct CallExpr {
    /// Receiver, where one is written.
    pub target: Option<Box<Expr>>,
    /// Name before the method, where there is no receiver.
    pub class_or_target: String,
    /// Method name.
    pub method: String,
    /// Arguments.
    pub args: Vec<Expr>,
}

/// Part of an interpolated string.
#[derive(Debug)]
pub enum InterpPart {
    /// Literal text.
    Text(String),
    /// Embedded expression.
    Expr(Expr),
}

/// Arm of a `match`.
#[derive(Debug)]
pub struct MatchArm {
    /// Patterns, any of which selects the arm.
    pub patterns: Vec<Pattern>,
    /// Guard.
    pub guard: Option<Expr>,
    /// Result.
    pub body: Expr,
}

/// A pattern.
#[derive(Debug)]
pub enum Pattern {
    /// Binds a name.
    Binding(String),
    /// Variant of a named enum.
    EnumVariant(String, String, Vec<Pattern>),
    /// Record, or variant of an enum that is not named.
    RecordClass(String, Vec<Pattern>),
    /// Range; the flag says whether its end belongs to it.
    Range(Box<Expr>, Box<Expr>, bool),
    /// Integer.
    Int(i64),
    /// Float, by its bits.
    Float(u64),
    /// Boolean.
    Bool(bool),
    /// String.
    StringLit(String),
    /// `null`.
    Null,
    /// Anything.
    Wildcard,
}

/// An expression.
#[derive(Debug)]
pub enum Expr {
    /// Integer literal.
    IntLit(i64, IntSuffix),
    /// Float literal, by its bits.
    FloatLit(u64, FloatSuffix),
    /// Numeric cast.
    Cast(Box<Expr>, Type),
    /// Boolean literal.
    Bool(bool),
    /// Character literal.
    Char(char),
    /// String literal.
    String(String),
    /// Interpolated string.
    InterpolatedString(Vec<InterpPart>),
    /// `null`.
    Null,
    /// Name.
    Var(String),
    /// Field of an object.
    Field(Box<Expr>, String),
    /// Static field of a class, or variant of an enum.
    StaticField(String, String),
    /// Typed hole (`_`).
    Hole,
    /// Type test with an optional binding.
    Is(Box<Expr>, Type, Option<String>),
    /// Binary operation.
    Binary(BinOp, Box<Expr>, Box<Expr>),
    /// Unary operation.
    Unary(UnaryOp, Box<Expr>),
    /// Call.
    Call(CallExpr),
    /// Lambda.
    Lambda {
        /// Parameters with their annotations.
        params: Vec<(String, Option<Type>)>,
        /// Body; an expression body is a single `return`.
        body: Vec<Stmt>,
    },
    /// `await`.
    Await(Box<Expr>),
    /// Construction.
    New(String, Vec<Type>, Vec<Expr>),
    /// `c ? a : b`.
    Ternary(Box<Expr>, Box<Expr>, Box<Expr>),
    /// `a!`.
    NonNullAssert(Box<Expr>),
    /// `a ?? b`.
    NullCoalesce(Box<Expr>, Box<Expr>),
    /// `a?.f`.
    NullConditionalField(Box<Expr>, String),
    /// `a?.m(..)`.
    NullConditionalCall(CallExpr),
    /// `match`.
    Match(Box<Expr>, Vec<MatchArm>),
    /// Variant construction.
    EnumVariant(String, String, Vec<Expr>),
    /// Tuple.
    Tuple(Vec<Expr>),
    /// Component of a tuple.
    TupleIndex(Box<Expr>, usize),
    /// Range; the flag says whether its end belongs to it.
    Range(Box<Expr>, Box<Expr>, bool),
    /// `super.m(..)`.
    SuperCall(String, Vec<Expr>),
    /// `super.f`.
    SuperField(String),
    /// Copy of a record with some fields replaced.
    With(Box<Expr>, Vec<(String, Expr)>),
    /// Block whose last expression is its value.
    Block(Vec<Stmt>),
    /// `e?`.
    TryUnwrap(Box<Expr>),
}

/// Left side of an assignment.
#[derive(Debug)]
pub enum AssignTarget {
    /// Local variable.
    Local(String),
    /// Field of an object.
    Field(Box<Expr>, String),
    /// Static field.
    StaticField(String, String),
    /// Field of the super class.
    SuperField(String),
}

/// `catch` clause.
#[derive(Debug)]
pub struct CatchClause {
    /// Type that is caught.
    pub ty: Type,
    /// Name of the exception.
    pub name: String,
    /// Body.
    pub body: Vec<Stmt>,
}

/// A statement.
#[derive(Debug)]
pub enum Stmt {
    /// Variable declaration.
    VarDecl(Type, String, Option<Expr>),
    /// Tuple destructuring.
    TupleDecl(Vec<String>, Expr),
    /// Expression.
    Expr(Expr),
    /// Assignment.
    Assign(AssignTarget, Expr),
    /// Return.
    Return(Option<Expr>),
    /// `if`.
    If(Expr, Vec<Stmt>, Option<Vec<Stmt>>),
    /// `if let`.
    IfLet(Pattern, Expr, Vec<Stmt>, Option<Vec<Stmt>>),
    /// `while`.
    While {
        /// Label.
        label: Option<String>,
        /// Condition.
        condition: Expr,
        /// Body.
        body: Vec<Stmt>,
    },
    /// `for`.
    For {
        /// Label.
        label: Option<String>,
        /// Initialisation.
        init: Box<Stmt>,
        /// Condition.
        condition: Expr,
        /// Update.
        update: Box<Stmt>,
        /// Body.
        body: Vec<Stmt>,
    },
    /// `for .. in`.
    ForIn {
        /// Label.
        label: Option<String>,
        /// Type of the loop variable.
        var_type: Type,
        /// Loop variable.
        var_name: String,
        /// What is iterated.
        iterable: Expr,
        /// Body.
        body: Vec<Stmt>,
    },
    /// `do .. while`.
    DoWhile {
        /// Label.
        label: Option<String>,
        /// Body.
        body: Vec<Stmt>,
        /// Condition.
        condition: Expr,
    },
    /// Source line of the statements that follow.
    Mark(usize),
    /// `break`.
    Break(Option<String>),
    /// `continue`.
    Continue(Option<String>),
    /// `throw`.
    Throw(Expr),
    /// `try`.
    Try {
        /// Protected statements.
        try_body: Vec<Stmt>,
        /// Handlers.
        catches: Vec<CatchClause>,
        /// Final statements.
        finally_body: Option<Vec<Stmt>>,
    },
    /// `using`.
    Using {
        /// Declared type of the resource.
        resource_ty: Option<Type>,
        /// Name of the resource.
        name: Option<String>,
        /// Resource.
        expr: Expr,
        /// Body.
        body: Vec<Stmt>,
    },
    /// Block.
    Block(Vec<Stmt>),
}

/// A named, typed parameter or field.
#[derive(Debug)]
pub struct Param {
    /// Name.
    pub name: String,
    /// Type.
    pub ty: Type,
}

/// Target of a constructor chaining call.
#[derive(Debug, Clone, Copy, PartialEq, Eq, Structural)]
pub enum ConstructorTarget {
    /// `: super(..)`.
    Base,
    /// `: this(..)`.
    This,
}

/// Constructor chaining call.
#[derive(Debug)]
pub struct ConstructorChain {
    /// Target.
    pub target: ConstructorTarget,
    /// Arguments.
    pub args: Vec<Expr>,
}

/// Method declaration.
#[derive(Debug)]
pub struct MethodDecl {
    /// Name.
    pub name: String,
    /// Type parameters.
    pub generic_params: Vec<GenericParam>,
    /// Parameters.
    pub params: Vec<Param>,
    /// Return type.
    pub return_ty: Type,
    /// Body.
    pub body: Vec<Stmt>,
    /// Visibility.
    pub visibility: Visibility,
    /// Static method.
    pub is_static: bool,
    /// Constructor.
    pub is_constructor: bool,
    /// `virtual`.
    pub is_virtual: bool,
    /// `override`.
    pub is_override: bool,
    /// `abstract`.
    pub is_abstract: bool,
    /// `final`.
    pub is_final: bool,
    /// `async`.
    pub is_async: bool,
    /// Declared exceptions.
    pub throws: Vec<String>,
    /// Chaining call of a constructor.
    pub constructor_chain: Option<ConstructorChain>,
}

/// Field declaration.
#[derive(Debug)]
pub struct FieldDecl {
    /// Name.
    pub name: String,
    /// Type.
    pub ty: Type,
    /// Visibility.
    pub visibility: Visibility,
    /// Static field.
    pub is_static: bool,
    /// Initializer.
    pub init: Option<Expr>,
}

/// How an accessor is written.
#[derive(Debug)]
pub enum AccessorKind {
    /// Generated.
    Auto,
    /// Written out.
    Body(Vec<Stmt>),
}

/// Getter or setter.
#[derive(Debug)]
pub struct Accessor {
    /// Visibility, where one is written.
    pub visibility: Option<Visibility>,
    /// How it is written.
    pub kind: AccessorKind,
}

/// Property declaration.
#[derive(Debug)]
pub struct PropertyDecl {
    /// Name.
    pub name: String,
    /// Type.
    pub ty: Type,
    /// Visibility.
    pub visibility: Visibility,
    /// Static property.
    pub is_static: bool,
    /// Getter.
    pub getter: Option<Accessor>,
    /// Setter.
    pub setter: Option<Accessor>,
}

/// Member of a class.
#[derive(Debug)]
pub enum Member {
    /// Field.
    Field(FieldDecl),
    /// Method or constructor.
    Method(MethodDecl),
    /// Property.
    Property(PropertyDecl),
}

/// Class, interface, record or extension.
#[derive(Debug)]
pub struct ClassDecl {
    /// Name.
    pub name: String,
    /// Module (file) it is declared in.
    pub module: String,
    /// Type parameters.
    pub generic_params: Vec<GenericParam>,
    /// Super class and interfaces, with type arguments.
    pub bases: Vec<(String, Vec<Type>)>,
    /// Members.
    pub members: Vec<Member>,
    /// Interface.
    pub is_interface: bool,
    /// `abstract`.
    pub is_abstract: bool,
    /// `sealed`.
    pub is_sealed: bool,
    /// `static`.
    pub is_static: bool,
    /// Record.
    pub is_record: bool,
    /// Parameters of a record.
    pub record_params: Vec<Param>,
    /// Type that the class extends with methods.
    pub extension_on: Option<Type>,
}

/// Variant of an enum.
#[derive(Debug)]
pub struct VariantDecl {
    /// Name.
    pub name: String,
    /// Fields.
    pub fields: Vec<Param>,
}

/// Enum or sum type.
#[derive(Debug)]
pub struct EnumDecl {
    /// Name.
    pub name: String,
    /// Type parameters.
    pub generic_params: Vec<GenericParam>,
    /// Variants.
    pub variants: Vec<VariantDecl>,
}

/// Newtype.
#[derive(Debug)]
pub struct NewtypeDecl {
    /// Name.
    pub name: String,
    /// Primitive that it wraps.
    pub underlying: Type,
}

/// A declaration.
#[derive(Debug)]
pub enum Decl {
    /// Class.
    Class(ClassDecl),
    /// Enum.
    Enum(EnumDecl),
    /// Type alias, by name; aliases are expanded before checking.
    TypeAlias(String),
    /// Newtype.
    Newtype(NewtypeDecl),
    /// Literal union, by name; expanded like an alias.
    LiteralUnion(String),
}

/// A program.
#[derive(Debug)]
pub struct Program {
    /// Its declarations.
    pub decls: Vec<Decl>,
}

} // verus!
