//! The stack frame of compiled code, and moves between it and the registers.
//!
//! Scalars live in general purpose registers or 16-byte frame slots, doubles in
//! SSE registers or slots, values of unknown type always in slots. For known
//! types the value is kept unboxed: the payload of an integer, the tag word of a
//! truth value or a character, the bits of a double.

use crate::jit::assembler::{Gpr, Mem, Xmm};
use crate::jit::code::{Alu, Code, Sse};
use crate::jit::ir::{Function, KType, VReg};
use crate::jit::regalloc::{Allocation, Home};
use crate::jit::regs::{R13, RAX, RCX};
use crate::jit::xmms::XMM0;
use crate::text::own;
use vstd::prelude::*;

verus! {

/// Where things stand in the frame, as offsets from its base in `r13`.
#[derive(Debug, Clone, Copy, PartialEq, Eq, Structural)]
pub struct Layout {
    /// Arguments for helper calls.
    pub marshal_base: i32,
    /// A slot for a zero.
    pub zero_slot: i32,
    /// The pointer to the native frame.
    pub nf_slot: i32,
    /// Spill slots.
    pub spill_base: i32,
    /// How many local slots there are.
    pub locals: u16,
    /// How many argument slots there are.
    pub args: u16,
    /// How many spill slots there are.
    pub slots: usize,
    /// Size of the frame in bytes.
    pub frame: usize,
}

/// What code generation reads of a function.
pub ghost struct Cx {
    /// Types of the virtual registers.
    pub types: Seq<KType>,
    /// Homes of the virtual registers.
    pub homes: Seq<Home>,
    /// Types of the locals.
    pub local_types: Seq<KType>,
    /// The frame.
    pub lay: Layout,
    /// Whether overflow is detected.
    pub checks: bool,
}

/// The size of the frame of a function.
pub open spec fn frame_size(f: Function, slots: nat) -> int {
    (f.locals + f.max_stack + 2) * 16 + slots * 16
}

/// The frame of a function: locals, arguments, a zero, the native frame pointer
/// and spill slots. None where it is too large to be addressed.
pub open spec fn layout_of(f: Function, slots: usize) -> Option<Layout> {
    if frame_size(f, slots as nat) > 0x7fff_fff0 {
        None
    } else {
        Some(
            Layout {
                marshal_base: (f.locals * 16) as i32,
                zero_slot: ((f.locals + f.max_stack) * 16) as i32,
                nf_slot: ((f.locals + f.max_stack + 1) * 16) as i32,
                spill_base: ((f.locals + f.max_stack + 2) * 16) as i32,
                locals: f.locals,
                args: f.max_stack,
                slots,
                frame: frame_size(f, slots as nat) as usize,
            },
        )
    }
}

/// A frame whose parts can be addressed.
pub open spec fn layout_ok(lay: Layout) -> bool {
    &&& lay.marshal_base == lay.locals * 16
    &&& lay.zero_slot == (lay.locals + lay.args) * 16
    &&& lay.nf_slot == (lay.locals + lay.args + 1) * 16
    &&& lay.spill_base == (lay.locals + lay.args + 2) * 16
    &&& lay.frame == lay.spill_base + lay.slots * 16
    &&& lay.frame <= 0x7fff_fff0
}

/// The parts of a frame are in it, and do not overlap: locals, then arguments,
/// the zero, the native frame pointer, and spill slots.
pub proof fn layout_parts(f: Function, slots: usize)
    requires
        layout_of(f, slots) is Some,
    ensures
        ({
            let lay = layout_of(f, slots)->Some_0;
            &&& layout_ok(lay)
            &&& 0 <= lay.marshal_base <= lay.zero_slot
            &&& lay.zero_slot + 16 == lay.nf_slot
            &&& lay.nf_slot + 16 == lay.spill_base
            &&& lay.spill_base + lay.slots * 16 == lay.frame
            &&& lay.marshal_base + lay.args * 16 == lay.zero_slot
        }),
{
}

/// A place in the frame.
pub open spec fn in_frame(disp: int) -> Mem {
    Mem { base: Gpr(R13), disp: disp as i32 }
}

/// The tag word of a local.
pub open spec fn local_tag(idx: u16) -> Mem {
    in_frame(idx * 16)
}

/// The payload of a local.
pub open spec fn local_payload(idx: u16) -> Mem {
    in_frame(idx * 16 + 8)
}

/// The tag word of a spill slot.
pub open spec fn spill_tag(lay: Layout, s: usize) -> Mem {
    in_frame(lay.spill_base + s * 16)
}

/// The payload of a spill slot.
pub open spec fn spill_payload(lay: Layout, s: usize) -> Mem {
    in_frame(lay.spill_base + s * 16 + 8)
}

/// The tag word of an argument.
pub open spec fn marshal_tag(lay: Layout, k: int) -> Mem {
    in_frame(lay.marshal_base + k * 16)
}

/// The word behind another one.
pub open spec fn next_word(m: Mem) -> Mem {
    Mem { base: m.base, disp: (m.disp + 8) as i32 }
}

/// Code, or why there is none.
pub type Emitted = Result<Seq<Code>, Seq<char>>;

/// An operand is not where its type says.
pub open spec fn misplaced() -> Seq<char> {
    "codegen: unexpected operand"@
}

/// Code behind other code.
pub open spec fn cat(a: Emitted, b: Emitted) -> Emitted {
    match a {
        Err(e) => Err(e),
        Ok(x) => match b {
            Err(e) => Err(e),
            Ok(y) => Ok(x + y),
        },
    }
}

/// What became of an attempt to emit code.
pub open spec fn emits(r: Result<(), String>, old: Seq<Code>, new: Seq<Code>, e: Emitted) -> bool {
    match e {
        Ok(cs) => r is Ok && new == old + cs,
        Err(why) => r matches Err(s) && s@ == why,
    }
}

/// The home of a register.
pub open spec fn home_in(cx: Cx, v: VReg) -> Option<Home> {
    if v < cx.homes.len() {
        match cx.homes[v as int] {
            Home::Slot(s) => if s < cx.lay.slots {
                Some(Home::Slot(s))
            } else {
                None
            },
            h => Some(h),
        }
    } else {
        None
    }
}

/// The type of a register.
pub open spec fn type_in(cx: Cx, v: VReg) -> Option<KType> {
    if v < cx.types.len() {
        Some(cx.types[v as int])
    } else {
        None
    }
}

/// Load the payload of an integer into `rax`.
pub open spec fn load_int(cx: Cx, v: VReg) -> Emitted {
    match home_in(cx, v) {
        Some(Home::Gpr(g)) => Ok(seq![Code::MovRr(Gpr(RAX), g)]),
        Some(Home::Slot(s)) => Ok(seq![Code::MovRm(Gpr(RAX), spill_payload(cx.lay, s))]),
        _ => Err(misplaced()),
    }
}

/// Load the tag word of a truth value or a character into `rax`.
pub open spec fn load_tag(cx: Cx, v: VReg) -> Emitted {
    match home_in(cx, v) {
        Some(Home::Gpr(g)) => Ok(seq![Code::MovRr(Gpr(RAX), g)]),
        Some(Home::Slot(s)) => Ok(seq![Code::MovRm(Gpr(RAX), spill_tag(cx.lay, s))]),
        _ => Err(misplaced()),
    }
}

/// Load the bits of a double into `xmm0`.
pub open spec fn load_float(cx: Cx, v: VReg) -> Emitted {
    match home_in(cx, v) {
        Some(Home::Xmm(x)) => Ok(seq![Code::SseRr(Sse::Move, Xmm(XMM0), x)]),
        Some(Home::Slot(s)) => Ok(
            seq![Code::SseRm(Sse::Move, Xmm(XMM0), spill_payload(cx.lay, s))],
        ),
        _ => Err(misplaced()),
    }
}

/// Store the payload of an integer from `rax`.
pub open spec fn store_int(cx: Cx, dst: VReg) -> Emitted {
    match home_in(cx, dst) {
        Some(Home::Gpr(h)) => Ok(seq![Code::MovRr(h, Gpr(RAX))]),
        Some(Home::Slot(s)) => Ok(
            seq![
                Code::MovMr(spill_payload(cx.lay, s), Gpr(RAX)),
                Code::MovRi(Gpr(RAX), 1),
                Code::MovMr(spill_tag(cx.lay, s), Gpr(RAX)),
            ],
        ),
        _ => Err(misplaced()),
    }
}

/// Store a tag word from `rax`.
pub open spec fn store_tag(cx: Cx, dst: VReg) -> Emitted {
    match home_in(cx, dst) {
        Some(Home::Gpr(h)) => Ok(seq![Code::MovRr(h, Gpr(RAX))]),
        Some(Home::Slot(s)) => Ok(
            seq![
                Code::MovMr(spill_tag(cx.lay, s), Gpr(RAX)),
                Code::AluRr(Alu::Xor, Gpr(RAX), Gpr(RAX)),
                Code::MovMr(spill_payload(cx.lay, s), Gpr(RAX)),
            ],
        ),
        _ => Err(misplaced()),
    }
}

/// Store the bits of a double from `xmm0`.
pub open spec fn store_float(cx: Cx, dst: VReg) -> Emitted {
    match home_in(cx, dst) {
        Some(Home::Xmm(h)) => Ok(seq![Code::SseRr(Sse::Move, h, Xmm(XMM0))]),
        Some(Home::Slot(s)) => Ok(
            seq![
                Code::MovRi(Gpr(RAX), 2),
                Code::MovMr(spill_tag(cx.lay, s), Gpr(RAX)),
                Code::MovqGx(Gpr(RAX), Xmm(XMM0)),
                Code::MovMr(spill_payload(cx.lay, s), Gpr(RAX)),
            ],
        ),
        _ => Err(misplaced()),
    }
}

/// Write a constant without payload into a slot.
pub open spec fn store_box(cx: Cx, dst: VReg, tag: i64) -> Emitted {
    match home_in(cx, dst) {
        Some(Home::Slot(s)) => Ok(
            seq![
                Code::MovRi(Gpr(RAX), tag),
                Code::MovMr(spill_tag(cx.lay, s), Gpr(RAX)),
                Code::AluRr(Alu::Xor, Gpr(RAX), Gpr(RAX)),
                Code::MovMr(spill_payload(cx.lay, s), Gpr(RAX)),
            ],
        ),
        _ => Err(misplaced()),
    }
}

/// Copy a value of two words.
pub open spec fn copy_words(from: Mem, to: Mem) -> Seq<Code> {
    seq![
        Code::MovRm(Gpr(RAX), from),
        Code::MovRm(Gpr(RCX), next_word(from)),
        Code::MovMr(to, Gpr(RAX)),
        Code::MovMr(next_word(to), Gpr(RCX)),
    ]
}

/// Write the full value of a register to a place in the frame.
pub open spec fn marshal(cx: Cx, to: Mem, v: VReg) -> Emitted {
    match (type_in(cx, v), home_in(cx, v)) {
        (None, _) => Err(misplaced()),
        (Some(_), Some(Home::Slot(s))) => Ok(copy_words(spill_tag(cx.lay, s), to)),
        (Some(KType::Int), Some(Home::Gpr(g))) => Ok(
            seq![
                Code::MovMr(next_word(to), g),
                Code::MovRi(Gpr(RAX), 1),
                Code::MovMr(to, Gpr(RAX)),
            ],
        ),
        (Some(KType::Bool), Some(Home::Gpr(g))) | (Some(KType::Char), Some(Home::Gpr(g))) => Ok(
            seq![
                Code::MovMr(to, g),
                Code::AluRr(Alu::Xor, Gpr(RAX), Gpr(RAX)),
                Code::MovMr(next_word(to), Gpr(RAX)),
            ],
        ),
        (Some(KType::Float), Some(Home::Xmm(x))) => Ok(
            seq![
                Code::MovRi(Gpr(RAX), 2),
                Code::MovMr(to, Gpr(RAX)),
                Code::MovqGx(Gpr(RAX), x),
                Code::MovMr(next_word(to), Gpr(RAX)),
            ],
        ),
        _ => Err(misplaced()),
    }
}

/// Code generation for one function.
pub struct Codegen<'a> {
    /// The function.
    pub func: &'a Function,
    /// Homes of the virtual registers.
    pub alloc: &'a Allocation,
    /// The frame.
    pub lay: Layout,
}

fn bad_operand() -> (r: String)
    ensures
        r@ == misplaced(),
{
    own("codegen: unexpected operand")
}

fn at(disp: i32) -> (m: Mem)
    ensures
        m == in_frame(disp as int),
{
    Mem { base: Gpr(R13), disp }
}

impl<'a> Codegen<'a> {
    /// What code generation reads.
    pub open spec fn cx(&self) -> Cx {
        Cx {
            types: self.func.types@,
            homes: self.alloc.homes@,
            local_types: self.func.local_types@,
            lay: self.lay,
            checks: self.func.overflow_checks,
        }
    }

    /// The frame can be addressed.
    pub open spec fn ok(&self) -> bool {
        layout_ok(self.lay)
    }

    /// Lay out the frame.
    pub fn new(func: &'a Function, alloc: &'a Allocation) -> (r: Option<Self>)
        ensures
            match r {
                Some(cg) => {
                    &&& cg.func == func
                    &&& cg.alloc == alloc
                    &&& layout_of(*func, alloc.slot_count) == Some(cg.lay)
                    &&& cg.ok()
                },
                None => layout_of(*func, alloc.slot_count) is None,
            },
    {
        let head: usize = (func.locals as usize + func.max_stack as usize + 2) * 16;
        let slots: usize = alloc.slot_count;
        if slots > (0x7fff_fff0 - head) / 16 {
            return None;
        }
        let frame: usize = head + slots * 16;
        let lay: Layout = Layout {
            marshal_base: func.locals as i32 * 16,
            zero_slot: (func.locals as i32 + func.max_stack as i32) * 16,
            nf_slot: (func.locals as i32 + func.max_stack as i32 + 1) * 16,
            spill_base: (func.locals as i32 + func.max_stack as i32 + 2) * 16,
            locals: func.locals,
            args: func.max_stack,
            slots,
            frame,
        };
        Some(Codegen { func, alloc, lay })
    }

    pub(crate) fn home(&self, v: VReg) -> (r: Option<Home>)
        ensures
            r == home_in(self.cx(), v),
    {
        let i: usize = v as usize;
        if i < self.alloc.homes.len() {
            match self.alloc.homes[i] {
                Home::Slot(s) => if s < self.lay.slots {
                    Some(Home::Slot(s))
                } else {
                    None
                },
                h => Some(h),
            }
        } else {
            None
        }
    }

    pub(crate) fn vtype(&self, v: VReg) -> (r: Option<KType>)
        ensures
            r == type_in(self.cx(), v),
    {
        let i: usize = v as usize;
        if i < self.func.types.len() {
            Some(self.func.types[i])
        } else {
            None
        }
    }

    pub(crate) fn slot_tag(&self, s: usize) -> (m: Mem)
        requires
            self.ok(),
            s < self.lay.slots,
        ensures
            m == spill_tag(self.lay, s),
    {
        at(self.lay.spill_base + s as i32 * 16)
    }

    pub(crate) fn slot_payload(&self, s: usize) -> (m: Mem)
        requires
            self.ok(),
            s < self.lay.slots,
        ensures
            m == spill_payload(self.lay, s),
            m == next_word(spill_tag(self.lay, s)),
    {
        at(self.lay.spill_base + s as i32 * 16 + 8)
    }

    pub(crate) fn emit_load_int(&self, v: VReg, out: &mut Vec<Code>) -> (r: Result<(), String>)
        requires
            self.ok(),
        ensures
            emits(r, old(out)@, final(out)@, load_int(self.cx(), v)),
    {
        match self.home(v) {
            Some(Home::Gpr(g)) => out.push(Code::MovRr(Gpr(RAX), g)),
            Some(Home::Slot(s)) => out.push(Code::MovRm(Gpr(RAX), self.slot_payload(s))),
            _ => return Err(bad_operand()),
        }
        assert(out@ =~= old(out)@ + load_int(self.cx(), v)->Ok_0);
        Ok(())
    }

    pub(crate) fn emit_load_tag(&self, v: VReg, out: &mut Vec<Code>) -> (r: Result<(), String>)
        requires
            self.ok(),
        ensures
            emits(r, old(out)@, final(out)@, load_tag(self.cx(), v)),
    {
        match self.home(v) {
            Some(Home::Gpr(g)) => out.push(Code::MovRr(Gpr(RAX), g)),
            Some(Home::Slot(s)) => out.push(Code::MovRm(Gpr(RAX), self.slot_tag(s))),
            _ => return Err(bad_operand()),
        }
        assert(out@ =~= old(out)@ + load_tag(self.cx(), v)->Ok_0);
        Ok(())
    }

    pub(crate) fn emit_load_float(&self, v: VReg, out: &mut Vec<Code>) -> (r: Result<(), String>)
        requires
            self.ok(),
        ensures
            emits(r, old(out)@, final(out)@, load_float(self.cx(), v)),
    {
        match self.home(v) {
            Some(Home::Xmm(x)) => out.push(Code::SseRr(Sse::Move, Xmm(XMM0), x)),
            Some(Home::Slot(s)) => out.push(
                Code::SseRm(Sse::Move, Xmm(XMM0), self.slot_payload(s)),
            ),
            _ => return Err(bad_operand()),
        }
        assert(out@ =~= old(out)@ + load_float(self.cx(), v)->Ok_0);
        Ok(())
    }

    pub(crate) fn emit_store_int(&self, dst: VReg, out: &mut Vec<Code>) -> (r: Result<(), String>)
        requires
            self.ok(),
        ensures
            emits(r, old(out)@, final(out)@, store_int(self.cx(), dst)),
    {
        match self.home(dst) {
            Some(Home::Gpr(h)) => out.push(Code::MovRr(h, Gpr(RAX))),
            Some(Home::Slot(s)) => {
                out.push(Code::MovMr(self.slot_payload(s), Gpr(RAX)));
                out.push(Code::MovRi(Gpr(RAX), 1));
                out.push(Code::MovMr(self.slot_tag(s), Gpr(RAX)));
            },
            _ => return Err(bad_operand()),
        }
        assert(out@ =~= old(out)@ + store_int(self.cx(), dst)->Ok_0);
        Ok(())
    }

    pub(crate) fn emit_store_tag(&self, dst: VReg, out: &mut Vec<Code>) -> (r: Result<(), String>)
        requires
            self.ok(),
        ensures
            emits(r, old(out)@, final(out)@, store_tag(self.cx(), dst)),
    {
        match self.home(dst) {
            Some(Home::Gpr(h)) => out.push(Code::MovRr(h, Gpr(RAX))),
            Some(Home::Slot(s)) => {
                out.push(Code::MovMr(self.slot_tag(s), Gpr(RAX)));
                out.push(Code::AluRr(Alu::Xor, Gpr(RAX), Gpr(RAX)));
                out.push(Code::MovMr(self.slot_payload(s), Gpr(RAX)));
            },
            _ => return Err(bad_operand()),
        }
        assert(out@ =~= old(out)@ + store_tag(self.cx(), dst)->Ok_0);
        Ok(())
    }

    pub(crate) fn emit_store_float(&self, dst: VReg, out: &mut Vec<Code>) -> (r: Result<
        (),
        String,
    >)
        requires
            self.ok(),
        ensures
            emits(r, old(out)@, final(out)@, store_float(self.cx(), dst)),
    {
        match self.home(dst) {
            Some(Home::Xmm(h)) => out.push(Code::SseRr(Sse::Move, h, Xmm(XMM0))),
            Some(Home::Slot(s)) => {
                out.push(Code::MovRi(Gpr(RAX), 2));
                out.push(Code::MovMr(self.slot_tag(s), Gpr(RAX)));
                out.push(Code::MovqGx(Gpr(RAX), Xmm(XMM0)));
                out.push(Code::MovMr(self.slot_payload(s), Gpr(RAX)));
            },
            _ => return Err(bad_operand()),
        }
        assert(out@ =~= old(out)@ + store_float(self.cx(), dst)->Ok_0);
        Ok(())
    }

    pub(crate) fn emit_store_box(&self, dst: VReg, tag: i64, out: &mut Vec<Code>) -> (r: Result<
        (),
        String,
    >)
        requires
            self.ok(),
        ensures
            emits(r, old(out)@, final(out)@, store_box(self.cx(), dst, tag)),
    {
        match self.home(dst) {
            Some(Home::Slot(s)) => {
                out.push(Code::MovRi(Gpr(RAX), tag));
                out.push(Code::MovMr(self.slot_tag(s), Gpr(RAX)));
                out.push(Code::AluRr(Alu::Xor, Gpr(RAX), Gpr(RAX)));
                out.push(Code::MovMr(self.slot_payload(s), Gpr(RAX)));
            },
            _ => return Err(bad_operand()),
        }
        assert(out@ =~= old(out)@ + store_box(self.cx(), dst, tag)->Ok_0);
        Ok(())
    }

    pub(crate) fn emit_copy(&self, from: Mem, to: Mem, out: &mut Vec<Code>)
        requires
            from.disp <= i32::MAX - 8,
            to.disp <= i32::MAX - 8,
        ensures
            final(out)@ == old(out)@ + copy_words(from, to),
    {
        out.push(Code::MovRm(Gpr(RAX), from));
        out.push(Code::MovRm(Gpr(RCX), Mem { base: from.base, disp: from.disp + 8 }));
        out.push(Code::MovMr(to, Gpr(RAX)));
        out.push(Code::MovMr(Mem { base: to.base, disp: to.disp + 8 }, Gpr(RCX)));
        assert(out@ =~= old(out)@ + copy_words(from, to));
    }

    pub(crate) fn emit_marshal(&self, to: Mem, v: VReg, out: &mut Vec<Code>) -> (r: Result<
        (),
        String,
    >)
        requires
            self.ok(),
            to.disp <= i32::MAX - 8,
        ensures
            emits(r, old(out)@, final(out)@, marshal(self.cx(), to, v)),
    {
        let high: Mem = Mem { base: to.base, disp: to.disp + 8 };
        let ty: KType = match self.vtype(v) {
            Some(t) => t,
            None => return Err(bad_operand()),
        };
        match (ty, self.home(v)) {
            (_, Some(Home::Slot(s))) => {
                self.emit_copy(self.slot_tag(s), to, out);
            },
            (KType::Int, Some(Home::Gpr(g))) => {
                out.push(Code::MovMr(high, g));
                out.push(Code::MovRi(Gpr(RAX), 1));
                out.push(Code::MovMr(to, Gpr(RAX)));
            },
            (KType::Bool, Some(Home::Gpr(g))) | (KType::Char, Some(Home::Gpr(g))) => {
                out.push(Code::MovMr(to, g));
                out.push(Code::AluRr(Alu::Xor, Gpr(RAX), Gpr(RAX)));
                out.push(Code::MovMr(high, Gpr(RAX)));
            },
            (KType::Float, Some(Home::Xmm(x))) => {
                out.push(Code::MovRi(Gpr(RAX), 2));
                out.push(Code::MovMr(to, Gpr(RAX)));
                out.push(Code::MovqGx(Gpr(RAX), x));
                out.push(Code::MovMr(high, Gpr(RAX)));
            },
            _ => return Err(bad_operand()),
        }
        assert(out@ =~= old(out)@ + marshal(self.cx(), to, v)->Ok_0);
        Ok(())
    }
}

} // verus!
