//! The bytecode that the compiler emits and the virtual machine runs.

use crate::text::{cat4, cat5, dec_i64, dec_int, own, same};
use vstd::prelude::*;

verus! {

/// Identifies a class.
#[derive(Debug, Clone, Copy, PartialEq, Eq, Structural)]
pub struct ClassId(pub u32);

/// Identifies an enum.
#[derive(Debug, Clone, Copy, PartialEq, Eq, Structural)]
pub struct EnumId(pub u32);

/// Identifies a method.
#[derive(Debug, Clone, Copy, PartialEq, Eq, Structural)]
pub struct MethodId(pub u32);

/// A runtime type.
#[derive(Debug)]
pub enum TypeDesc {
    /// Signed 8-bit integer.
    Int8,
    /// Signed 16-bit integer.
    Int16,
    /// Signed 32-bit integer.
    Int32,
    /// Signed 64-bit integer.
    Int64,
    /// Unsigned 8-bit integer.
    UInt8,
    /// Unsigned 16-bit integer.
    UInt16,
    /// Unsigned 32-bit integer.
    UInt32,
    /// Unsigned 64-bit integer.
    UInt64,
    /// Single precision float.
    Float32,
    /// Double precision float.
    Float64,
    /// Boolean.
    Bool,
    /// Character.
    Char,
    /// String.
    String,
    /// The type of `null`.
    Null,
    /// No value.
    Unit,
    /// Class with its type arguments.
    Class(ClassId, Vec<TypeDesc>),
    /// Tuple.
    Tuple(Vec<TypeDesc>),
    /// Enum.
    Enum(EnumId),
    /// Type parameter.
    GenericParam(u16),
}

impl TypeDesc {
    /// Whether this is an integer type.
    pub open spec fn int_type(self) -> bool {
        ||| self is Int8
        ||| self is Int16
        ||| self is Int32
        ||| self is Int64
        ||| self is UInt8
        ||| self is UInt16
        ||| self is UInt32
        ||| self is UInt64
    }

    /// Whether this is a float type.
    pub open spec fn float_type(self) -> bool {
        self is Float32 || self is Float64
    }

    /// Whether this is an integer type.
    pub fn is_int(&self) -> (b: bool)
        ensures
            b == self.int_type(),
    {
        matches!(
            self,
            TypeDesc::Int8
            | TypeDesc::Int16
            | TypeDesc::Int32
            | TypeDesc::Int64
            | TypeDesc::UInt8
            | TypeDesc::UInt16
            | TypeDesc::UInt32
            | TypeDesc::UInt64
        )
    }

    /// Whether this is a float type.
    pub fn is_float(&self) -> (b: bool)
        ensures
            b == self.float_type(),
    {
        matches!(self, TypeDesc::Float32 | TypeDesc::Float64)
    }
}

/// The value of a type: what is left of it when the way its lists are stored
/// is disregarded.
pub ghost enum TypeModel {
    /// A type without components, by its position in the declaration.
    Plain(int),
    /// Class with its type arguments.
    Class(ClassId, Seq<TypeModel>),
    /// Tuple.
    Tuple(Seq<TypeModel>),
    /// Enum.
    Enum(EnumId),
    /// Type parameter.
    GenericParam(u16),
}

/// The models of a list of types.
pub open spec fn type_models(ts: Seq<TypeDesc>) -> Seq<TypeModel>
    decreases ts,
{
    Seq::new(
        ts.len(),
        |i: int|
            if 0 <= i < ts.len() {
                type_model(ts[i])
            } else {
                TypeModel::Plain(0)
            },
    )
}

/// The model of a type.
pub open spec fn type_model(t: TypeDesc) -> TypeModel
    decreases t,
{
    match t {
        TypeDesc::Int8 => TypeModel::Plain(0),
        TypeDesc::Int16 => TypeModel::Plain(1),
        TypeDesc::Int32 => TypeModel::Plain(2),
        TypeDesc::Int64 => TypeModel::Plain(3),
        TypeDesc::UInt8 => TypeModel::Plain(4),
        TypeDesc::UInt16 => TypeModel::Plain(5),
        TypeDesc::UInt32 => TypeModel::Plain(6),
        TypeDesc::UInt64 => TypeModel::Plain(7),
        TypeDesc::Float32 => TypeModel::Plain(8),
        TypeDesc::Float64 => TypeModel::Plain(9),
        TypeDesc::Bool => TypeModel::Plain(10),
        TypeDesc::Char => TypeModel::Plain(11),
        TypeDesc::String => TypeModel::Plain(12),
        TypeDesc::Null => TypeModel::Plain(13),
        TypeDesc::Unit => TypeModel::Plain(14),
        TypeDesc::Class(id, args) => TypeModel::Class(id, type_models(args@)),
        TypeDesc::Tuple(args) => TypeModel::Tuple(type_models(args@)),
        TypeDesc::Enum(id) => TypeModel::Enum(id),
        TypeDesc::GenericParam(i) => TypeModel::GenericParam(i),
    }
}

/// A copy of a list of types.
pub fn clone_types(ts: &Vec<TypeDesc>) -> (r: Vec<TypeDesc>)
    ensures
        type_models(r@) == type_models(ts@),
    decreases ts,
{
    let mut out: Vec<TypeDesc> = Vec::new();
    let mut i: usize = 0;
    while i < ts.len()
        invariant
            i <= ts.len(),
            out@.len() == i,
            forall|j: int| 0 <= j < i ==> type_model(#[trigger] out@[j]) == type_model(ts@[j]),
        decreases ts.len() - i,
    {
        proof {
            assert(decreases_to!(ts => ts@[i as int]));
        }
        let t: TypeDesc = ts[i].clone();
        out.push(t);
        i = i + 1;
    }
    assert(type_models(out@) =~= type_models(ts@));
    out
}

impl Clone for TypeDesc {
    fn clone(&self) -> (r: Self)
        ensures
            type_model(r) == type_model(*self),
        decreases self,
    {
        match self {
            TypeDesc::Int8 => TypeDesc::Int8,
            TypeDesc::Int16 => TypeDesc::Int16,
            TypeDesc::Int32 => TypeDesc::Int32,
            TypeDesc::Int64 => TypeDesc::Int64,
            TypeDesc::UInt8 => TypeDesc::UInt8,
            TypeDesc::UInt16 => TypeDesc::UInt16,
            TypeDesc::UInt32 => TypeDesc::UInt32,
            TypeDesc::UInt64 => TypeDesc::UInt64,
            TypeDesc::Float32 => TypeDesc::Float32,
            TypeDesc::Float64 => TypeDesc::Float64,
            TypeDesc::Bool => TypeDesc::Bool,
            TypeDesc::Char => TypeDesc::Char,
            TypeDesc::String => TypeDesc::String,
            TypeDesc::Null => TypeDesc::Null,
            TypeDesc::Unit => TypeDesc::Unit,
            TypeDesc::Class(id, args) => TypeDesc::Class(*id, clone_types(args)),
            TypeDesc::Tuple(args) => TypeDesc::Tuple(clone_types(args)),
            TypeDesc::Enum(id) => TypeDesc::Enum(*id),
            TypeDesc::GenericParam(i) => TypeDesc::GenericParam(*i),
        }
    }
}

/// A bytecode operation.
#[derive(Debug)]
pub enum Op {
    /// No operation.
    Nop,
    /// Push a 32-bit integer.
    LdInt(i32),
    /// Push a 64-bit integer.
    LdInt64(i64),
    /// Push the float constant with this number.
    LdFloat(u32),
    /// Convert the top of the stack.
    Conv(TypeDesc),
    /// Push a boolean.
    LdBool(bool),
    /// Push the string constant with this number.
    LdStr(u32),
    /// Push a character, given by its code point.
    LdChar(u32),
    /// Push `null`.
    LdNull,
    /// Push a local.
    Ldloc(u16),
    /// Push an argument.
    Ldarg(u16),
    /// Pop into a local.
    Stloc(u16),
    /// Duplicate the top of the stack.
    Dup,
    /// Drop the top of the stack.
    Pop,
    /// Addition.
    Add,
    /// Subtraction.
    Sub,
    /// Multiplication.
    Mul,
    /// Division.
    Div,
    /// Remainder.
    Rem,
    /// Equality.
    Eq,
    /// Less than.
    Lt,
    /// Less than or equal.
    Le,
    /// Greater than.
    Gt,
    /// Greater than or equal.
    Ge,
    /// Negation.
    Neg,
    /// Logical not.
    Not,
    /// Structural equality of records.
    ValueEq,
    /// Logical and.
    And,
    /// Logical or.
    Or,
    /// Structural hash.
    Hash,
    /// Variant number of an enum value.
    EnumTag,
    /// Make a closure over this many captured values.
    NewClosure(MethodId, u16),
    /// Call the closure on top of the stack with this many arguments.
    Invoke(u16),
    /// Jump.
    Br(u32),
    /// Jump if false.
    BrFalse(u32),
    /// Jump if true.
    BrTrue(u32),
    /// Call a static method.
    Call(MethodId),
    /// Call an instance method by name.
    CallVirt(String),
    /// Call an instance method without dispatch.
    CallSuper(MethodId),
    /// Make an object.
    NewObj(ClassId, Vec<TypeDesc>),
    /// Load a field.
    Ldfld(u16),
    /// Store a field.
    Stfld(u16),
    /// Load a static field.
    Ldsfld(ClassId, u16),
    /// Store a static field.
    Stsfld(ClassId, u16),
    /// Call a native function.
    NativeCall(u16),
    /// Test the class of the top of the stack.
    IsInst(ClassId),
    /// Make an enum value.
    NewEnum(EnumId, u16),
    /// Load a field of an enum value.
    EnumField(u16),
    /// Make a tuple.
    NewTuple(u16),
    /// Load an element of a tuple.
    TupleField(u16),
    /// Print the top of the stack.
    Print,
    /// Print a line end.
    PrintLn,
    /// Concatenate this many values as text.
    StringConcat(u16),
    /// Return the top of the stack.
    Ret,
    /// Throw the top of the stack.
    Throw,
    /// Placeholder that the compiler resolves.
    Break,
    /// Placeholder that the compiler resolves.
    Continue,
    /// End of a `finally` block.
    EndFinally,
}

/// An operation with a number, as text.
pub open spec fn op_with(name: Seq<char>, n: int) -> Seq<char> {
    name + "("@ + dec_int(n) + ")"@
}

/// The text of an operation that works on the frame alone, or that has no
/// operands that could be given to it; empty for any other.
pub open spec fn frame_op_text(op: Op) -> Seq<char> {
    match op {
        Op::Nop => "Nop"@,
        Op::LdInt(n) => op_with("LdInt"@, n as int),
        Op::LdInt64(n) => op_with("LdInt64"@, n as int),
        Op::LdFloat(n) => op_with("LdFloat"@, n as int),
        Op::LdBool(b) => if b {
            "LdBool(true)"@
        } else {
            "LdBool(false)"@
        },
        Op::LdChar(n) => op_with("LdChar"@, n as int),
        Op::LdNull => "LdNull"@,
        Op::Ldloc(n) => op_with("Ldloc"@, n as int),
        Op::Ldarg(n) => op_with("Ldarg"@, n as int),
        Op::Stloc(n) => op_with("Stloc"@, n as int),
        Op::Dup => "Dup"@,
        Op::Pop => "Pop"@,
        Op::NewClosure(id, n) => "NewClosure(MethodId("@ + dec_int(id.0 as int) + "), "@ + dec_int(
            n as int,
        ) + ")"@,
        Op::Invoke(n) => op_with("Invoke"@, n as int),
        Op::Br(n) => op_with("Br"@, n as int),
        Op::BrFalse(n) => op_with("BrFalse"@, n as int),
        Op::BrTrue(n) => op_with("BrTrue"@, n as int),
        Op::Ret => "Ret"@,
        Op::Break => "Break"@,
        Op::Continue => "Continue"@,
        Op::EndFinally => "EndFinally"@,
        _ => ""@,
    }
}

fn show_op_with(name: &str, n: i64) -> (r: String)
    ensures
        r@ == op_with(name@, n as int),
{
    let t: String = dec_i64(n);
    cat4(name, "(", t.as_str(), ")")
}

/// The text of an operation that works on the frame alone.
pub fn show_frame_op(op: &Op) -> (r: String)
    ensures
        r@ == frame_op_text(*op),
{
    match op {
        Op::Nop => own("Nop"),
        Op::LdInt(n) => show_op_with("LdInt", *n as i64),
        Op::LdInt64(n) => show_op_with("LdInt64", *n),
        Op::LdFloat(n) => show_op_with("LdFloat", *n as i64),
        Op::LdBool(b) => if *b {
            own("LdBool(true)")
        } else {
            own("LdBool(false)")
        },
        Op::LdChar(n) => show_op_with("LdChar", *n as i64),
        Op::LdNull => own("LdNull"),
        Op::Ldloc(n) => show_op_with("Ldloc", *n as i64),
        Op::Ldarg(n) => show_op_with("Ldarg", *n as i64),
        Op::Stloc(n) => show_op_with("Stloc", *n as i64),
        Op::Dup => own("Dup"),
        Op::Pop => own("Pop"),
        Op::NewClosure(id, n) => {
            let a: String = dec_i64(id.0 as i64);
            let b: String = dec_i64(*n as i64);
            cat5("NewClosure(MethodId(", a.as_str(), "), ", b.as_str(), ")")
        },
        Op::Invoke(n) => show_op_with("Invoke", *n as i64),
        Op::Br(n) => show_op_with("Br", *n as i64),
        Op::BrFalse(n) => show_op_with("BrFalse", *n as i64),
        Op::BrTrue(n) => show_op_with("BrTrue", *n as i64),
        Op::Ret => own("Ret"),
        Op::Break => own("Break"),
        Op::Continue => own("Continue"),
        Op::EndFinally => own("EndFinally"),
        _ => own(""),
    }
}

/// Whether two operations are the same.
pub open spec fn same_op(a: Op, b: Op) -> bool {
    match (a, b) {
        (Op::Conv(x), Op::Conv(y)) => type_model(x) == type_model(y),
        (Op::CallVirt(x), Op::CallVirt(y)) => x@ == y@,
        (Op::NewObj(c, x), Op::NewObj(d, y)) => c == d && type_models(x@) == type_models(y@),
        (_, _) => a == b,
    }
}

impl Clone for Op {
    fn clone(&self) -> (r: Self)
        ensures
            same_op(r, *self),
    {
        match self {
            Op::Nop => Op::Nop,
            Op::LdInt(x) => Op::LdInt(*x),
            Op::LdInt64(x) => Op::LdInt64(*x),
            Op::LdFloat(x) => Op::LdFloat(*x),
            Op::Conv(t) => Op::Conv(t.clone()),
            Op::LdBool(x) => Op::LdBool(*x),
            Op::LdStr(x) => Op::LdStr(*x),
            Op::LdChar(x) => Op::LdChar(*x),
            Op::LdNull => Op::LdNull,
            Op::Ldloc(x) => Op::Ldloc(*x),
            Op::Ldarg(x) => Op::Ldarg(*x),
            Op::Stloc(x) => Op::Stloc(*x),
            Op::Dup => Op::Dup,
            Op::Pop => Op::Pop,
            Op::Add => Op::Add,
            Op::Sub => Op::Sub,
            Op::Mul => Op::Mul,
            Op::Div => Op::Div,
            Op::Rem => Op::Rem,
            Op::Eq => Op::Eq,
            Op::Lt => Op::Lt,
            Op::Le => Op::Le,
            Op::Gt => Op::Gt,
            Op::Ge => Op::Ge,
            Op::Neg => Op::Neg,
            Op::Not => Op::Not,
            Op::ValueEq => Op::ValueEq,
            Op::And => Op::And,
            Op::Or => Op::Or,
            Op::Hash => Op::Hash,
            Op::EnumTag => Op::EnumTag,
            Op::NewClosure(x, y) => Op::NewClosure(*x, *y),
            Op::Invoke(x) => Op::Invoke(*x),
            Op::Br(x) => Op::Br(*x),
            Op::BrFalse(x) => Op::BrFalse(*x),
            Op::BrTrue(x) => Op::BrTrue(*x),
            Op::Call(x) => Op::Call(*x),
            Op::CallVirt(name) => Op::CallVirt(name.clone()),
            Op::CallSuper(x) => Op::CallSuper(*x),
            Op::NewObj(id, args) => Op::NewObj(*id, clone_types(args)),
            Op::Ldfld(x) => Op::Ldfld(*x),
            Op::Stfld(x) => Op::Stfld(*x),
            Op::Ldsfld(x, y) => Op::Ldsfld(*x, *y),
            Op::Stsfld(x, y) => Op::Stsfld(*x, *y),
            Op::NativeCall(x) => Op::NativeCall(*x),
            Op::IsInst(x) => Op::IsInst(*x),
            Op::NewEnum(x, y) => Op::NewEnum(*x, *y),
            Op::EnumField(x) => Op::EnumField(*x),
            Op::NewTuple(x) => Op::NewTuple(*x),
            Op::TupleField(x) => Op::TupleField(*x),
            Op::Print => Op::Print,
            Op::PrintLn => Op::PrintLn,
            Op::StringConcat(x) => Op::StringConcat(*x),
            Op::Ret => Op::Ret,
            Op::Throw => Op::Throw,
            Op::Break => Op::Break,
            Op::Continue => Op::Continue,
            Op::EndFinally => Op::EndFinally,
        }
    }
}

/// A protected region of a method body.
#[derive(Debug)]
pub struct ExceptionHandler {
    /// First operation of the region.
    pub start: u32,
    /// End of the region.
    pub end: u32,
    /// Type that is caught; a `finally` region has none.
    pub catch_type: Option<TypeDesc>,
    /// Where the handler starts.
    pub handler_pc: u32,
    /// Local that receives the exception.
    pub catch_local: u16,
}

/// A method.
#[derive(Debug)]
pub struct MethodDef {
    /// Name.
    pub name: String,
    /// Return type.
    pub return_ty: TypeDesc,
    /// Parameter types, without the receiver.
    pub params: Vec<TypeDesc>,
    /// Names of the type parameters.
    pub generic_params: Vec<String>,
    /// Whether the method has a receiver.
    pub is_instance: bool,
    /// Operations.
    pub body: Vec<Op>,
    /// Protected regions.
    pub handlers: Vec<ExceptionHandler>,
    /// Largest stack depth.
    pub max_stack: u16,
    /// Number of local slots, parameters first.
    pub locals: u16,
    /// Pairs of a program counter and the source line that starts there.
    pub line_starts: Vec<(u32, u32)>,
    /// Source names of the local slots.
    pub local_names: Vec<String>,
}

/// A named and typed field.
#[derive(Debug)]
pub struct FieldDef {
    /// Name.
    pub name: String,
    /// Type.
    pub ty: TypeDesc,
}

/// A class or interface.
#[derive(Debug)]
pub struct ClassDef {
    /// Name.
    pub name: String,
    /// Names of the type parameters.
    pub generic_params: Vec<String>,
    /// Super class.
    pub super_class: Option<ClassId>,
    /// Interfaces that are implemented or extended.
    pub interfaces: Vec<ClassId>,
    /// Whether this is an interface.
    pub is_interface: bool,
    /// Whether this is an abstract class.
    pub is_abstract: bool,
    /// Whether this is a record.
    pub is_record: bool,
    /// Instance fields.
    pub fields: Vec<FieldDef>,
    /// Static fields.
    pub static_fields: Vec<FieldDef>,
    /// Instance methods.
    pub methods: Vec<(MethodId, MethodDef)>,
    /// Static methods.
    pub static_methods: Vec<(MethodId, MethodDef)>,
}

/// A variant of an enum.
#[derive(Debug)]
pub struct VariantDef {
    /// Name.
    pub name: String,
    /// Fields.
    pub fields: Vec<FieldDef>,
}

/// An enum.
#[derive(Debug)]
pub struct EnumDef {
    /// Name.
    pub name: String,
    /// Variants.
    pub variants: Vec<VariantDef>,
}

/// What a constant denotes as a float: its bits, or why it denotes none.
#[derive(Debug)]
pub enum FloatConst {
    /// Bits of the value.
    Bits(u64),
    /// Reason.
    Bad(String),
}

/// A compiled program.
#[derive(Debug)]
pub struct Module {
    /// Name.
    pub name: String,
    /// Classes by identifier; the first entry for an identifier counts.
    pub classes: Vec<(ClassId, ClassDef)>,
    /// Enums by identifier; the first entry for an identifier counts.
    pub enums: Vec<(EnumId, EnumDef)>,
    /// The method to start with.
    pub entrypoint: Option<MethodId>,
    /// Constants as text.
    pub constant_pool: Vec<String>,
    /// The constants read as floats, parallel to `constant_pool`.
    pub float_pool: Vec<FloatConst>,
}

/// The first entry for `id` at or after position `i`.
pub open spec fn method_entry(ms: Seq<(MethodId, MethodDef)>, id: MethodId, i: int) -> Option<MethodDef>
    decreases ms.len() - i,
{
    if i < 0 || i >= ms.len() {
        None
    } else if ms[i].0 == id {
        Some(ms[i].1)
    } else {
        method_entry(ms, id, i + 1)
    }
}

/// The first method `id` of the classes at or after position `i`.
pub open spec fn method_in(cs: Seq<(ClassId, ClassDef)>, id: MethodId, i: int) -> Option<MethodDef>
    decreases cs.len() - i,
{
    if i < 0 || i >= cs.len() {
        None
    } else {
        match method_entry(cs[i].1.methods@, id, 0) {
            Some(m) => Some(m),
            None => match method_entry(cs[i].1.static_methods@, id, 0) {
                Some(m) => Some(m),
                None => method_in(cs, id, i + 1),
            },
        }
    }
}

/// The method with identifier `id`.
pub open spec fn method_of(module: Module, id: MethodId) -> Option<MethodDef> {
    method_in(module.classes@, id, 0)
}

/// The class entry for `id` at or after position `i`.
pub open spec fn class_entry(cs: Seq<(ClassId, ClassDef)>, id: ClassId, i: int) -> Option<ClassDef>
    decreases cs.len() - i,
{
    if i < 0 || i >= cs.len() {
        None
    } else if cs[i].0 == id {
        Some(cs[i].1)
    } else {
        class_entry(cs, id, i + 1)
    }
}

/// The class with identifier `id`.
pub open spec fn class_of(module: Module, id: ClassId) -> Option<ClassDef> {
    class_entry(module.classes@, id, 0)
}

/// The enum entry for `id` at or after position `i`.
pub open spec fn enum_entry(es: Seq<(EnumId, EnumDef)>, id: EnumId, i: int) -> Option<EnumDef>
    decreases es.len() - i,
{
    if i < 0 || i >= es.len() {
        None
    } else if es[i].0 == id {
        Some(es[i].1)
    } else {
        enum_entry(es, id, i + 1)
    }
}

/// The enum with identifier `id`.
pub open spec fn enum_of(module: Module, id: EnumId) -> Option<EnumDef> {
    enum_entry(module.enums@, id, 0)
}

fn find_method_entry(ms: &Vec<(MethodId, MethodDef)>, id: MethodId) -> (r: Option<&MethodDef>)
    ensures
        match r {
            Some(m) => method_entry(ms@, id, 0) == Some(*m),
            None => method_entry(ms@, id, 0) is None,
        },
{
    let mut i: usize = 0;
    while i < ms.len()
        invariant
            i <= ms.len(),
            method_entry(ms@, id, 0) == method_entry(ms@, id, i as int),
        decreases ms.len() - i,
    {
        if ms[i].0 == id {
            return Some(&ms[i].1);
        }
        i = i + 1;
    }
    None
}

impl Module {
    /// The method with identifier `id`.
    pub fn method(&self, id: MethodId) -> (r: Option<&MethodDef>)
        ensures
            match r {
                Some(m) => method_of(*self, id) == Some(*m),
                None => method_of(*self, id) is None,
            },
    {
        let mut i: usize = 0;
        while i < self.classes.len()
            invariant
                i <= self.classes.len(),
                method_of(*self, id) == method_in(self.classes@, id, i as int),
            decreases self.classes.len() - i,
        {
            if let Some(m) = find_method_entry(&self.classes[i].1.methods, id) {
                return Some(m);
            }
            if let Some(m) = find_method_entry(&self.classes[i].1.static_methods, id) {
                return Some(m);
            }
            i = i + 1;
        }
        None
    }

    /// The class with identifier `id`.
    pub fn class(&self, id: ClassId) -> (r: Option<&ClassDef>)
        ensures
            match r {
                Some(c) => class_of(*self, id) == Some(*c),
                None => class_of(*self, id) is None,
            },
    {
        let mut i: usize = 0;
        while i < self.classes.len()
            invariant
                i <= self.classes.len(),
                class_of(*self, id) == class_entry(self.classes@, id, i as int),
            decreases self.classes.len() - i,
        {
            if self.classes[i].0 == id {
                return Some(&self.classes[i].1);
            }
            i = i + 1;
        }
        None
    }

    /// The enum with identifier `id`.
    pub fn enum_def(&self, id: EnumId) -> (r: Option<&EnumDef>)
        ensures
            match r {
                Some(e) => enum_of(*self, id) == Some(*e),
                None => enum_of(*self, id) is None,
            },
    {
        let mut i: usize = 0;
        while i < self.enums.len()
            invariant
                i <= self.enums.len(),
                enum_of(*self, id) == enum_entry(self.enums@, id, i as int),
            decreases self.enums.len() - i,
        {
            if self.enums[i].0 == id {
                return Some(&self.enums[i].1);
            }
            i = i + 1;
        }
        None
    }
}

// ---------------------------------------------------------------------------
// Method lookup by name
// ---------------------------------------------------------------------------

/// How many of the first `n` classes are not among `visited`.
pub open spec fn unvisited(cs: Seq<(ClassId, ClassDef)>, visited: Seq<ClassId>, n: int) -> nat
    decreases n,
{
    if n <= 0 {
        0
    } else {
        unvisited(cs, visited, n - 1) + (if visited.contains(cs[n - 1].0) {
            0nat
        } else {
            1nat
        })
    }
}

/// Visiting a class leaves fewer classes to visit.
pub proof fn unvisited_pushed(cs: Seq<(ClassId, ClassDef)>, visited: Seq<ClassId>, id: ClassId, n: int)
    requires
        n <= cs.len(),
    ensures
        unvisited(cs, visited.push(id), n) <= unvisited(cs, visited, n),
        !visited.contains(id) && (exists|k: int| 0 <= k < n && (#[trigger] cs[k]).0 == id)
            ==> unvisited(cs, visited.push(id), n) < unvisited(cs, visited, n),
    decreases n,
{
    if n > 0 {
        unvisited_pushed(cs, visited, id, n - 1);
        let next = visited.push(id);
        if visited.contains(cs[n - 1].0) {
            let w = choose|w: int| 0 <= w < visited.len() && visited[w] == cs[n - 1].0;
            assert(next[w] == cs[n - 1].0);
        }
        assert(next[visited.len() as int] == id);
        if cs[n - 1].0 == id {
            assert(next.contains(id));
        }
        if !visited.contains(id) && (exists|k: int| 0 <= k < n && (#[trigger] cs[k]).0 == id) {
            let k = choose|k: int| 0 <= k < n && (#[trigger] cs[k]).0 == id;
            if k < n - 1 {
                assert(0 <= k < n - 1 && cs[k].0 == id);
            }
        }
    }
}

/// A class that is found has an entry.
pub proof fn class_entry_found(cs: Seq<(ClassId, ClassDef)>, id: ClassId, i: int)
    requires
        0 <= i,
        class_entry(cs, id, i) is Some,
    ensures
        exists|k: int| 0 <= k < cs.len() && (#[trigger] cs[k]).0 == id,
    decreases cs.len() - i,
{
    if cs[i].0 != id {
        class_entry_found(cs, id, i + 1);
    } else {
        assert(cs[i].0 == id);
    }
}

/// The first method called `name`, instance methods before static ones.
pub open spec fn own_method_from(
    ms: Seq<(MethodId, MethodDef)>,
    name: Seq<char>,
    i: int,
) -> Option<MethodDef>
    decreases ms.len() - i,
{
    if i < 0 || i >= ms.len() {
        None
    } else if ms[i].1.name@ == name {
        Some(ms[i].1)
    } else {
        own_method_from(ms, name, i + 1)
    }
}

/// The method called `name` that the class declares itself.
pub open spec fn own_method(class: ClassDef, name: Seq<char>) -> Option<MethodDef> {
    match own_method_from(class.methods@, name, 0) {
        Some(m) => Some(m),
        None => own_method_from(class.static_methods@, name, 0),
    }
}

/// What a class inherits from, in the order in which it is searched.
pub open spec fn parents(class: ClassDef) -> Seq<ClassId> {
    (match class.super_class {
        Some(s) => seq![s],
        None => seq![],
    }) + class.interfaces@
}

/// Depth-first search for a method: the classes in `work` are tried from the
/// front, each followed by what it inherits from, none of them twice.
pub open spec fn resolve_name(
    module: Module,
    work: Seq<ClassId>,
    visited: Seq<ClassId>,
    name: Seq<char>,
) -> Option<MethodDef>
    decreases unvisited(module.classes@, visited, module.classes@.len() as int), work.len(),
{
    if work.len() == 0 {
        None
    } else {
        let id = work[0];
        let rest = work.subrange(1, work.len() as int);
        if visited.contains(id) {
            resolve_name(module, rest, visited, name)
        } else {
            match class_of(module, id) {
                None => resolve_name(module, rest, visited, name),
                Some(class) => match own_method(class, name) {
                    Some(m) => Some(m),
                    None => {
                        proof {
                            class_entry_found(module.classes@, id, 0);
                            unvisited_pushed(
                                module.classes@,
                                visited,
                                id,
                                module.classes@.len() as int,
                            );
                        }
                        resolve_name(module, parents(class) + rest, visited.push(id), name)
                    },
                },
            }
        }
    }
}

fn find_own<'a>(ms: &'a Vec<(MethodId, MethodDef)>, name: &str) -> (r: Option<&'a MethodDef>)
    ensures
        match r {
            Some(m) => own_method_from(ms@, name@, 0) == Some(*m),
            None => own_method_from(ms@, name@, 0) is None,
        },
{
    let mut i: usize = 0;
    while i < ms.len()
        invariant
            i <= ms.len(),
            own_method_from(ms@, name@, 0) == own_method_from(ms@, name@, i as int),
        decreases ms.len() - i,
    {
        if same(ms[i].1.name.as_str(), name) {
            return Some(&ms[i].1);
        }
        i = i + 1;
    }
    None
}

fn visited_contains(visited: &Vec<ClassId>, id: ClassId) -> (r: bool)
    ensures
        r == visited@.contains(id),
{
    let mut i: usize = 0;
    while i < visited.len()
        invariant
            i <= visited.len(),
            forall|j: int| 0 <= j < i ==> visited@[j] != id,
        decreases visited.len() - i,
    {
        if visited[i] == id {
            assert(visited@.contains(id));
            return true;
        }
        i = i + 1;
    }
    false
}

/// The method called `name` of the class `id`: its own, or the first that it
/// inherits through its super class and then its interfaces.
pub fn resolve_method_by_name<'m>(module: &'m Module, id: ClassId, name: &str) -> (r: Option<
    &'m MethodDef,
>)
    ensures
        match r {
            Some(m) => resolve_name(*module, seq![id], seq![], name@) == Some(*m),
            None => resolve_name(*module, seq![id], seq![], name@) is None,
        },
{
    // The class to try next is the last one of `work`.
    let mut work: Vec<ClassId> = Vec::new();
    work.push(id);
    let mut visited: Vec<ClassId> = Vec::new();
    assert(work@.reverse() =~= seq![id]);
    while work.len() > 0
        invariant
            resolve_name(*module, seq![id], seq![], name@) == resolve_name(
                *module,
                work@.reverse(),
                visited@,
                name@,
            ),
        decreases
            unvisited(module.classes@, visited@, module.classes@.len() as int),
            work.len(),
    {
        let ghost before = work@.reverse();
        let last: usize = work.len() - 1;
        let next: ClassId = work[last];
        work.truncate(last);
        proof {
            assert(before[0] == next);
            assert(before.subrange(1, before.len() as int) =~= work@.reverse());
        }
        if !visited_contains(&visited, next) {
            if let Some(class) = module.class(next) {
                if let Some(m) = find_own(&class.methods, name) {
                    return Some(m);
                }
                if let Some(m) = find_own(&class.static_methods, name) {
                    return Some(m);
                }
                proof {
                    class_entry_found(module.classes@, next, 0);
                    unvisited_pushed(
                        module.classes@,
                        visited@,
                        next,
                        module.classes@.len() as int,
                    );
                }
                let ghost rest = work@;
                let n: usize = class.interfaces.len();
                let mut k: usize = n;
                while k > 0
                    invariant
                        k <= n,
                        n == class.interfaces@.len(),
                        work@ == rest + class.interfaces@.subrange(k as int, n as int).reverse(),
                    decreases k,
                {
                    k = k - 1;
                    work.push(class.interfaces[k]);
                    assert(work@ =~= rest + class.interfaces@.subrange(
                        k as int,
                        n as int,
                    ).reverse());
                }
                assert(class.interfaces@.subrange(0, n as int) =~= class.interfaces@);
                if let Some(s) = class.super_class {
                    work.push(s);
                }
                assert(work@.reverse() =~= parents(*class) + rest.reverse());
                visited.push(next);
            }
        }
    }
    None
}

/// The method that a call of `name` on the class in position `i` reaches.
pub open spec fn virtual_method(module: Module, name: Seq<char>, i: int) -> Option<MethodDef> {
    resolve_name(module, seq![module.classes@[i].0], seq![], name)
}

/// `a` is the number of parameters of every method that a call of `name` can
/// reach, and there is such a method.
pub open spec fn virtual_arity(module: Module, name: Seq<char>, a: nat) -> bool {
    &&& exists|i: int|
        0 <= i < module.classes@.len() && (#[trigger] virtual_method(module, name, i)) is Some
    &&& forall|i: int|
        0 <= i < module.classes@.len() ==> ((#[trigger] virtual_method(module, name, i)) matches Some(
            m,
        ) ==> m.params@.len() == a)
}

/// The arity of a virtual call of `name`, where it is determined.
pub open spec fn virtual_arity_opt(module: Module, name: Seq<char>) -> Option<nat> {
    if exists|a: nat| virtual_arity(module, name, a) {
        Some(choose|a: nat| virtual_arity(module, name, a))
    } else {
        None
    }
}

proof fn virtual_arity_unique(module: Module, name: Seq<char>, a: nat)
    requires
        virtual_arity(module, name, a),
    ensures
        virtual_arity_opt(module, name) == Some(a),
{
    let b = choose|b: nat| virtual_arity(module, name, b);
    let i = choose|i: int|
        0 <= i < module.classes@.len() && (#[trigger] virtual_method(module, name, i)) is Some;
    assert(virtual_method(module, name, i) is Some);
}

/// Arity of a virtual method call by name. Every class in the module that can
/// resolve the method must agree on the parameter count.
pub fn call_virt_arity(module: &Module, name: &str) -> (r: Option<usize>)
    ensures
        match r {
            Some(a) => virtual_arity_opt(*module, name@) == Some(a as nat) && virtual_arity(
                *module,
                name@,
                a as nat,
            ),
            None => virtual_arity_opt(*module, name@) is None,
        },
{
    let mut arity: Option<usize> = None;
    let mut i: usize = 0;
    while i < module.classes.len()
        invariant
            i <= module.classes.len(),
            match arity {
                None => forall|j: int|
                    0 <= j < i ==> (#[trigger] virtual_method(*module, name@, j)) is None,
                Some(a) => (exists|j: int|
                    0 <= j < i && (#[trigger] virtual_method(*module, name@, j)) is Some) && (
                forall|j: int|
                    0 <= j < i ==> ((#[trigger] virtual_method(*module, name@, j)) matches Some(m)
                        ==> m.params@.len() == a)),
            },
        decreases module.classes.len() - i,
    {
        let found: Option<&MethodDef> = resolve_method_by_name(module, module.classes[i].0, name);
        assert(match found {
            Some(m) => virtual_method(*module, name@, i as int) == Some(*m),
            None => virtual_method(*module, name@, i as int) is None,
        });
        if let Some(m) = found {
            let a: usize = m.params.len();
            match arity {
                None => {
                    arity = Some(a);
                },
                Some(a0) => {
                    if a0 != a {
                        return None;
                    }
                },
            }
        }
        i = i + 1;
    }
    proof {
        if let Some(a) = arity {
            assert(virtual_arity(*module, name@, a as nat));
            virtual_arity_unique(*module, name@, a as nat);
        }
    }
    arity
}

} // verus!
