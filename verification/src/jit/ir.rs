//! Intermediate representation of the JIT.
//!
//! Bytecode is lowered into virtual registers with an abstract type each and
//! basic blocks with parameters; the values of the parameters are set by copy
//! moves on control-flow edges.
//!
//! Only what the JIT compiles natively is represented. Everything else (heap
//! allocation, calls, field access, exceptions, dynamic dispatch) is an
//! [`Insn::Helper`] that delegates to the virtual machine.

use crate::bytecode::{MethodId, Op, TypeDesc};
use vstd::prelude::*;

verus! {

/// Virtual register.
pub type VReg = u32;

/// Abstract type of a virtual register.
///
/// Known types can live in machine registers; values of an unknown type are
/// kept as full 16-byte value slots and handled dynamically.
#[derive(Debug, Clone, Copy, PartialEq, Eq, Structural)]
pub enum KType {
    /// Integer payload in a general purpose register.
    Int,
    /// Double payload in an XMM register.
    Float,
    /// Tag word (bit 8 = truth) in a general purpose register.
    Bool,
    /// Tag word (bits 32 and up = code point) in a general purpose register.
    Char,
    /// Unboxed at run time; stored as a full value slot.
    Unknown,
}

/// The abstract type of a runtime type.
pub open spec fn ktype_of(t: TypeDesc) -> KType {
    if t.int_type() {
        KType::Int
    } else if t.float_type() {
        KType::Float
    } else if t is Bool {
        KType::Bool
    } else if t is Char {
        KType::Char
    } else {
        KType::Unknown
    }
}

impl KType {
    /// The abstract type of a runtime type.
    pub fn from_typedesc(t: &TypeDesc) -> (k: KType)
        ensures
            k == ktype_of(*t),
    {
        if t.is_int() {
            KType::Int
        } else if t.is_float() {
            KType::Float
        } else if matches!(t, TypeDesc::Bool) {
            KType::Bool
        } else if matches!(t, TypeDesc::Char) {
            KType::Char
        } else {
            KType::Unknown
        }
    }

    /// Is this a primitive scalar that can live in a machine register?
    pub fn is_known(self) -> (b: bool)
        ensures
            b == (self != KType::Unknown),
    {
        !matches!(self, KType::Unknown)
    }
}

/// Join of two abstract types: `Unknown` is the bottom of the lattice, equal
/// types join to themselves, and two different known types degrade to `Unknown`.
pub open spec fn join(a: KType, b: KType) -> KType {
    if a == KType::Unknown {
        b
    } else if b == KType::Unknown || a == b {
        a
    } else {
        KType::Unknown
    }
}

/// Join of two abstract types.
pub fn kjoin(a: KType, b: KType) -> (k: KType)
    ensures
        k == join(a, b),
{
    if a == KType::Unknown {
        b
    } else if b == KType::Unknown {
        a
    } else if a == b {
        a
    } else {
        KType::Unknown
    }
}

/// The join is idempotent and commutative, and `Unknown` is its neutral element.
pub proof fn join_laws(a: KType, b: KType)
    ensures
        join(a, a) == a,
        join(a, b) == join(b, a),
        join(a, KType::Unknown) == a,
{
}

/// Arithmetic / comparison operation.
#[derive(Debug, Clone, Copy, PartialEq, Eq, Structural)]
pub enum BinOp {
    /// Addition.
    Add,
    /// Subtraction.
    Sub,
    /// Multiplication.
    Mul,
    /// Division.
    Div,
    /// Remainder.
    Rem,
    /// Bitwise/identity equality (produces a Bool).
    Eq,
    /// Conjunction of two truth values (both operands Bool).
    And,
    /// Disjunction of two truth values (both operands Bool).
    Or,
    /// Less than.
    Lt,
    /// Less than or equal.
    Le,
    /// Greater than.
    Gt,
    /// Greater than or equal.
    Ge,
}

impl BinOp {
    /// Whether the operation compares its operands.
    pub open spec fn compares(self) -> bool {
        self is Eq || self is Lt || self is Le || self is Gt || self is Ge
    }

    /// Whether the operation divides.
    pub open spec fn divides(self) -> bool {
        self is Div || self is Rem
    }

    /// Whether the operation compares its operands.
    pub fn is_comparison(self) -> (b: bool)
        ensures
            b == self.compares(),
    {
        matches!(self, BinOp::Eq | BinOp::Lt | BinOp::Le | BinOp::Gt | BinOp::Ge)
    }

    /// Whether the operation divides.
    pub fn is_divrem(self) -> (b: bool)
        ensures
            b == self.divides(),
    {
        matches!(self, BinOp::Div | BinOp::Rem)
    }
}

/// Negation / logical not (the result type depends on the operand type).
#[derive(Debug, Clone, Copy, PartialEq, Eq, Structural)]
pub enum UnOp {
    /// Negation.
    Neg,
    /// Logical not.
    Not,
}

/// Numeric conversion target for natively inlined conversions.
#[derive(Debug, Clone, Copy, PartialEq, Eq, Structural)]
pub enum ConvTarget {
    /// Signed 8-bit integer.
    Int8,
    /// Signed 16-bit integer.
    Int16,
    /// Signed 32-bit integer.
    Int32,
    /// Signed 64-bit integer.
    Int64,
    /// Unsigned 8-bit integer.
    UInt8,
    /// Unsigned 16-bit integer.
    UInt16,
    /// Unsigned 32-bit integer.
    UInt32,
    /// Unsigned 64-bit integer.
    UInt64,
    /// Single precision float.
    F32,
    /// Double precision float.
    F64,
}

/// The conversion target of a numeric runtime type.
pub open spec fn conv_target_of(t: TypeDesc) -> Option<ConvTarget> {
    match t {
        TypeDesc::Int8 => Some(ConvTarget::Int8),
        TypeDesc::Int16 => Some(ConvTarget::Int16),
        TypeDesc::Int32 => Some(ConvTarget::Int32),
        TypeDesc::Int64 => Some(ConvTarget::Int64),
        TypeDesc::UInt8 => Some(ConvTarget::UInt8),
        TypeDesc::UInt16 => Some(ConvTarget::UInt16),
        TypeDesc::UInt32 => Some(ConvTarget::UInt32),
        TypeDesc::UInt64 => Some(ConvTarget::UInt64),
        TypeDesc::Float32 => Some(ConvTarget::F32),
        TypeDesc::Float64 => Some(ConvTarget::F64),
        _ => None,
    }
}

impl ConvTarget {
    /// Whether the target is an integer type.
    pub open spec fn to_int(self) -> bool {
        !(self is F32 || self is F64)
    }

    /// The abstract type of the result.
    pub open spec fn result(self) -> KType {
        if self.to_int() {
            KType::Int
        } else {
            KType::Float
        }
    }

    /// Whether an integer may not fit the target.
    pub open spec fn narrows(self) -> bool {
        self.to_int() && !(self is Int64 || self is UInt64)
    }

    /// The conversion target of a numeric runtime type.
    pub fn from_typedesc(t: &TypeDesc) -> (c: Option<ConvTarget>)
        ensures
            c == conv_target_of(*t),
    {
        match t {
            TypeDesc::Int8 => Some(ConvTarget::Int8),
            TypeDesc::Int16 => Some(ConvTarget::Int16),
            TypeDesc::Int32 => Some(ConvTarget::Int32),
            TypeDesc::Int64 => Some(ConvTarget::Int64),
            TypeDesc::UInt8 => Some(ConvTarget::UInt8),
            TypeDesc::UInt16 => Some(ConvTarget::UInt16),
            TypeDesc::UInt32 => Some(ConvTarget::UInt32),
            TypeDesc::UInt64 => Some(ConvTarget::UInt64),
            TypeDesc::Float32 => Some(ConvTarget::F32),
            TypeDesc::Float64 => Some(ConvTarget::F64),
            _ => None,
        }
    }

    /// The abstract type of the result.
    pub fn result_ktype(self) -> (k: KType)
        ensures
            k == self.result(),
    {
        if self.is_int() {
            KType::Int
        } else {
            KType::Float
        }
    }

    /// Whether the target is an integer type.
    pub fn is_int(self) -> (b: bool)
        ensures
            b == self.to_int(),
    {
        !matches!(self, ConvTarget::F32 | ConvTarget::F64)
    }

    /// True if this conversion narrows an integer (may overflow).
    pub fn is_narrowing_int(self) -> (b: bool)
        ensures
            b == self.narrows(),
    {
        matches!(
            self,
            ConvTarget::Int8
            | ConvTarget::Int16
            | ConvTarget::Int32
            | ConvTarget::UInt8
            | ConvTarget::UInt16
            | ConvTarget::UInt32
        )
    }
}

/// A single instruction, defining at most one virtual register.
#[allow(inconsistent_fields)]
#[derive(Debug)]
pub enum Insn {
    /// Integer constant.
    ConstInt { dst: VReg, val: i64 },
    /// Float constant (raw bits of a double).
    ConstFloat { dst: VReg, bits: u64 },
    /// Boolean constant.
    ConstBool { dst: VReg, val: bool },
    /// Character constant.
    ConstChar { dst: VReg, ch: char },
    /// Null reference constant (a full value slot).
    ConstNull { dst: VReg },
    /// Unit constant (a full value slot).
    ConstUnit { dst: VReg },
    /// Load local slot (payload for known types, full slot otherwise).
    LdLocal { dst: VReg, idx: u16 },
    /// Store into a local slot.
    StLocal { idx: u16, src: VReg },
    /// Arithmetic / comparison on two same-typed scalars.
    Bin { dst: VReg, op: BinOp, a: VReg, b: VReg },
    /// Negation / logical not on one scalar.
    Un { dst: VReg, op: UnOp, a: VReg },
    /// Numeric conversion of a scalar.
    Conv { dst: VReg, to: ConvTarget, src: VReg },
    /// Delegate to the virtual machine. `op_id` indexes
    /// [`Function::helper_ops`]; the helper receives `args` in order.
    Helper { dst: Option<VReg>, op_id: u32, args: Vec<VReg> },
}

/// The value of an instruction: a helper call by its arguments, any other
/// instruction as it is.
pub ghost enum InsnModel {
    /// An instruction without a list of arguments.
    Plain(Insn),
    /// A helper call.
    Helper { dst: Option<VReg>, op_id: u32, args: Seq<VReg> },
}

impl View for Insn {
    type V = InsnModel;

    open spec fn view(&self) -> InsnModel {
        match *self {
            Insn::Helper { dst, op_id, args } => InsnModel::Helper { dst, op_id, args: args@ },
            other => InsnModel::Plain(other),
        }
    }
}

/// The register that an instruction defines.
pub open spec fn defined_by(i: InsnModel) -> Option<VReg> {
    match i {
        InsnModel::Helper { dst, .. } => dst,
        InsnModel::Plain(p) => match p {
            Insn::ConstInt { dst, .. } => Some(dst),
            Insn::ConstFloat { dst, .. } => Some(dst),
            Insn::ConstBool { dst, .. } => Some(dst),
            Insn::ConstChar { dst, .. } => Some(dst),
            Insn::ConstNull { dst } => Some(dst),
            Insn::ConstUnit { dst } => Some(dst),
            Insn::LdLocal { dst, .. } => Some(dst),
            Insn::Bin { dst, .. } => Some(dst),
            Insn::Un { dst, .. } => Some(dst),
            Insn::Conv { dst, .. } => Some(dst),
            Insn::StLocal { .. } => None,
            Insn::Helper { .. } => None,
        },
    }
}

/// The registers that an instruction uses.
pub open spec fn used_by(i: InsnModel) -> Seq<VReg> {
    match i {
        InsnModel::Helper { args, .. } => args,
        InsnModel::Plain(p) => match p {
            Insn::StLocal { src, .. } => seq![src],
            Insn::Bin { a, b, .. } => seq![a, b],
            Insn::Un { a, .. } => seq![a],
            Insn::Conv { src, .. } => seq![src],
            _ => seq![],
        },
    }
}

/// Whether an instruction has an effect besides defining a register.
pub open spec fn effectful(i: InsnModel) -> bool {
    match i {
        InsnModel::Helper { .. } => true,
        InsnModel::Plain(p) => p is StLocal,
    }
}

/// Whether an instruction can fail: integer arithmetic when overflow is checked.
pub open spec fn fallible(checks: bool, i: InsnModel) -> bool {
    checks && match i {
        InsnModel::Plain(Insn::Bin { op, .. }) => op is Add || op is Sub || op is Mul,
        InsnModel::Plain(Insn::Un { op, .. }) => op is Neg,
        _ => false,
    }
}

/// Whether an instruction does something besides defining a register: it has an
/// effect, or it can fail.
pub open spec fn acting(checks: bool, i: InsnModel) -> bool {
    effectful(i) || fallible(checks, i)
}

/// A copy of a list of registers.
pub fn clone_regs(v: &Vec<VReg>) -> (r: Vec<VReg>)
    ensures
        r@ == v@,
{
    let mut out: Vec<VReg> = Vec::new();
    let mut i: usize = 0;
    while i < v.len()
        invariant
            i <= v.len(),
            out@ == v@.take(i as int),
        decreases v.len() - i,
    {
        out.push(v[i]);
        i = i + 1;
        assert(out@ =~= v@.take(i as int));
    }
    assert(v@.take(v@.len() as int) =~= v@);
    out
}

impl Clone for Insn {
    fn clone(&self) -> (r: Self)
        ensures
            r@ == self@,
    {
        match self {
            Insn::ConstInt { dst, val } => Insn::ConstInt { dst: *dst, val: *val },
            Insn::ConstFloat { dst, bits } => Insn::ConstFloat { dst: *dst, bits: *bits },
            Insn::ConstBool { dst, val } => Insn::ConstBool { dst: *dst, val: *val },
            Insn::ConstChar { dst, ch } => Insn::ConstChar { dst: *dst, ch: *ch },
            Insn::ConstNull { dst } => Insn::ConstNull { dst: *dst },
            Insn::ConstUnit { dst } => Insn::ConstUnit { dst: *dst },
            Insn::LdLocal { dst, idx } => Insn::LdLocal { dst: *dst, idx: *idx },
            Insn::StLocal { idx, src } => Insn::StLocal { idx: *idx, src: *src },
            Insn::Bin { dst, op, a, b } => Insn::Bin { dst: *dst, op: *op, a: *a, b: *b },
            Insn::Un { dst, op, a } => Insn::Un { dst: *dst, op: *op, a: *a },
            Insn::Conv { dst, to, src } => Insn::Conv { dst: *dst, to: *to, src: *src },
            Insn::Helper { dst, op_id, args } => Insn::Helper {
                dst: *dst,
                op_id: *op_id,
                args: clone_regs(args),
            },
        }
    }
}

impl Insn {
    /// The register that the instruction defines.
    pub fn defined(&self) -> (r: Option<VReg>)
        ensures
            r == defined_by(self@),
    {
        match self {
            Insn::ConstInt { dst, .. } => Some(*dst),
            Insn::ConstFloat { dst, .. } => Some(*dst),
            Insn::ConstBool { dst, .. } => Some(*dst),
            Insn::ConstChar { dst, .. } => Some(*dst),
            Insn::ConstNull { dst } => Some(*dst),
            Insn::ConstUnit { dst } => Some(*dst),
            Insn::LdLocal { dst, .. } => Some(*dst),
            Insn::Bin { dst, .. } => Some(*dst),
            Insn::Un { dst, .. } => Some(*dst),
            Insn::Conv { dst, .. } => Some(*dst),
            Insn::Helper { dst, .. } => *dst,
            Insn::StLocal { .. } => None,
        }
    }

    /// The registers that the instruction uses.
    pub fn uses(&self) -> (r: Vec<VReg>)
        ensures
            r@ == used_by(self@),
    {
        match self {
            Insn::StLocal { src, .. } => vec![*src],
            Insn::Bin { a, b, .. } => vec![*a, *b],
            Insn::Un { a, .. } => vec![*a],
            Insn::Conv { src, .. } => vec![*src],
            Insn::Helper { args, .. } => clone_regs(args),
            _ => Vec::new(),
        }
    }

    /// True if this instruction does something besides defining a register, so
    /// that it must never be removed: it has side effects, or it can fail.
    pub fn acts(&self, checks: bool) -> (b: bool)
        ensures
            b == acting(checks, self@),
    {
        self.has_side_effect() || (checks && matches!(
            self,
            Insn::Bin { op: BinOp::Add | BinOp::Sub | BinOp::Mul, .. } | Insn::Un {
                op: UnOp::Neg,
                ..
            }
        ))
    }

    /// True if this instruction has side effects and must never be removed.
    pub fn has_side_effect(&self) -> (b: bool)
        ensures
            b == effectful(self@),
    {
        matches!(self, Insn::Helper { .. } | Insn::StLocal { .. })
    }
}

/// Terminator of a block.
#[derive(Debug, Clone, Copy, PartialEq, Eq, Structural)]
pub enum Term {
    /// Return the value.
    Ret(VReg),
    /// Branch to a block.
    Br(usize),
    /// Branch to a block if the condition is truthy.
    BrTrue(VReg, usize),
    /// Branch to a block if the condition is falsy.
    BrFalse(VReg, usize),
    /// Control never reaches here.
    Unreachable,
}

/// A basic block.
#[derive(Debug)]
pub struct Block {
    /// Block id (index into [`Function::blocks`]).
    pub id: usize,
    /// Entry parameters, one per stack slot at entry.
    pub params: Vec<VReg>,
    /// Instructions executed on entry before the terminator.
    pub insns: Vec<Insn>,
    /// Control-flow terminator.
    pub term: Term,
    /// Predecessor block ids.
    pub preds: Vec<usize>,
    /// Successor block ids.
    pub succs: Vec<usize>,
    /// Copy moves to execute on each edge to a successor: the successor with
    /// its pairs of a parameter and a source, at most one entry for each.
    pub edge_moves: Vec<(usize, Vec<(VReg, VReg)>)>,
    /// Reachable from the entry point.
    pub reachable: bool,
}

/// The values of a list of instructions.
pub open spec fn insns_model(v: Seq<Insn>) -> Seq<InsnModel> {
    Seq::new(v.len(), |i: int| v[i]@)
}

/// The values of the moves on the edges.
pub open spec fn moves_model(v: Seq<(usize, Vec<(VReg, VReg)>)>) -> Seq<
    (usize, Seq<(VReg, VReg)>),
> {
    Seq::new(v.len(), |i: int| (v[i].0, v[i].1@))
}

/// The value of a block.
#[verifier::ext_equal]
pub ghost struct BlockModel {
    /// Block id.
    pub id: usize,
    /// Entry parameters.
    pub params: Seq<VReg>,
    /// Instructions.
    pub insns: Seq<InsnModel>,
    /// Terminator.
    pub term: Term,
    /// Predecessors.
    pub preds: Seq<usize>,
    /// Successors.
    pub succs: Seq<usize>,
    /// Moves on the edges.
    pub moves: Seq<(usize, Seq<(VReg, VReg)>)>,
    /// Reachable from the entry point.
    pub reachable: bool,
}

impl View for Block {
    type V = BlockModel;

    open spec fn view(&self) -> BlockModel {
        BlockModel {
            id: self.id,
            params: self.params@,
            insns: insns_model(self.insns@),
            term: self.term,
            preds: self.preds@,
            succs: self.succs@,
            moves: moves_model(self.edge_moves@),
            reachable: self.reachable,
        }
    }
}

/// The values of a list of blocks.
pub open spec fn blocks_model(v: Seq<Block>) -> Seq<BlockModel> {
    Seq::new(v.len(), |i: int| v[i]@)
}

/// A lowered method.
#[derive(Debug)]
pub struct Function {
    /// Method id.
    pub method_id: MethodId,
    /// Human-readable name (for diagnostics).
    pub name: String,
    /// Blocks in layout order.
    pub blocks: Vec<Block>,
    /// Abstract type of each virtual register.
    pub types: Vec<KType>,
    /// Copies of the bytecode operations each helper delegates to, indexed by
    /// the `op_id` of a helper call.
    pub helper_ops: Vec<Op>,
    /// Number of local slots (parameters first).
    pub locals: u16,
    /// Number of parameters.
    pub params: u16,
    /// Abstract type of each local slot.
    pub local_types: Vec<KType>,
    /// Maximum stack depth used (for the argument marshalling area).
    pub max_stack: u16,
    /// Total spill area size in bytes, assigned by register allocation.
    pub spill_bytes: usize,
    /// Overflow-checking semantics captured at compile time.
    pub overflow_checks: bool,
}

impl Function {
    /// Number of bytes needed for the local slots (16 bytes each).
    pub fn locals_bytes(&self) -> (n: usize)
        ensures
            n == self.locals * 16,
    {
        self.locals as usize * 16
    }

    /// Type of a virtual register.
    pub fn vtype(&self, v: VReg) -> (k: KType)
        requires
            v < self.types@.len(),
        ensures
            k == self.types@[v as int],
    {
        self.types[v as usize]
    }
}

} // verus!
