//! A small x86-64 assembler for the JIT.
//!
//! Emits bytes for the subset of the instruction set that the code generator
//! needs: integer moves and arithmetic, `imul`/`idiv`, shifts, compares,
//! condition codes, jumps and calls through labels, and scalar SSE floating
//! point. Memory operands have the form `[base + disp]`.
//!
//! The contract of every instruction gives the exact bytes that it appends,
//! as a function of its operands. Branches are tracked as [`Link`]s: the
//! assembler's invariant says that each branch to a bound label holds the
//! displacement from the end of the branch to the position of that label.

use std::collections::HashMap;
use vstd::prelude::*;

verus! {

broadcast use vstd::std_specs::hash::group_hash_axioms;

/// General purpose register (64-bit).
#[derive(Debug, Clone, Copy, PartialEq, Eq, Structural)]
pub struct Gpr(pub u8);

/// XMM floating point register.
#[derive(Debug, Clone, Copy, PartialEq, Eq, Structural)]
pub struct Xmm(pub u8);

/// Memory operand `[base + disp]`.
#[derive(Debug, Clone, Copy, PartialEq, Eq, Structural)]
pub struct Mem {
    /// Base register.
    pub base: Gpr,
    /// Signed displacement.
    pub disp: i32,
}

impl Mem {
    /// `[base + disp]`.
    pub fn new(base: Gpr, disp: i32) -> (mem: Self)
        ensures
            mem.base == base,
            mem.disp == disp,
    {
        Mem { base, disp }
    }
}

/// A location that can appear as a source or destination.
#[derive(Debug, Clone, Copy, PartialEq, Eq, Structural)]
pub enum Operand {
    /// General purpose register.
    Gpr(Gpr),
    /// Memory operand.
    Mem(Mem),
}

/// A jump or call target that gets resolved by [`Asm::bind`].
#[derive(Debug, Clone, Copy, PartialEq, Eq, Structural)]
pub struct Label(usize);

impl Label {
    /// The number that identifies the label.
    pub closed spec fn id(self) -> usize {
        self.0
    }
}

/// Condition codes for `jcc` and `setcc`.
#[derive(Debug, Clone, Copy, PartialEq, Eq, Structural)]
pub enum Cond {
    /// Overflow flag set.
    O,
    /// Zero / equal.
    Z,
    /// Not zero / not equal.
    NZ,
    /// Signed less than.
    L,
    /// Signed less than or equal.
    LE,
    /// Signed greater than.
    G,
    /// Signed greater than or equal.
    GE,
    /// Unsigned below.
    B,
    /// Unsigned below or equal.
    BE,
    /// Unsigned above.
    A,
    /// Unsigned above or equal.
    AE,
    /// Sign flag set (negative).
    S,
    /// Sign flag clear (non-negative).
    NS,
    /// Parity flag set (unordered float compare).
    P,
    /// Parity flag clear (ordered float compare).
    NP,
}

/// A pending reference to a label: the four bytes at `offset` wait for the
/// displacement to it.
#[derive(Debug, Clone, Copy, PartialEq, Eq, Structural)]
struct Fixup {
    offset: usize,
    label: usize,
}

/// A branch that has been emitted: its four displacement bytes start at
/// `offset`, it names `label`, and `target` is the position it goes to, if the
/// label has been bound.
pub ghost struct Link {
    /// Position of the displacement.
    pub offset: int,
    /// Number of the label.
    pub label: usize,
    /// Position of the label.
    pub target: Option<int>,
}

// ---------------------------------------------------------------------------
// Encodings
// ---------------------------------------------------------------------------

/// Whether a register number needs the extension bit of a REX prefix.
pub open spec fn ext(r: u8) -> bool {
    r >= 8
}

/// The REX prefix for the given width and extension bits; none at all when no
/// bit is set.
pub open spec fn rex_bytes(w: bool, r: bool, b: bool) -> Seq<u8> {
    if !w && !r && !b {
        seq![]
    } else {
        seq![(0x40 + (if w { 8int } else { 0 }) + (if r { 4int } else { 0 }) + (if b {
            1int
        } else {
            0
        })) as u8]
    }
}

/// The ModRM byte with the given mode, register and register/memory fields.
pub open spec fn modrm_byte(mode: u8, reg: u8, rm: u8) -> u8 {
    (mode * 64 + (reg % 8) * 8 + rm % 8) as u8
}

/// The four bytes of `v`, least significant first.
pub open spec fn le4(v: u32) -> Seq<u8> {
    seq![
        (v % 256) as u8,
        (v / 256 % 256) as u8,
        (v / 65536 % 256) as u8,
        (v / 16777216 % 256) as u8,
    ]
}

/// The eight bytes of `v`, least significant first.
pub open spec fn le8(v: u64) -> Seq<u8> {
    le4((v % 4294967296) as u32) + le4((v / 4294967296) as u32)
}

/// Whether `v` fits a sign-extended byte.
pub open spec fn fits_i8(v: int) -> bool {
    -128 <= v <= 127
}

/// Whether `v` fits a sign-extended double word.
pub open spec fn fits_i32(v: int) -> bool {
    i32::MIN <= v <= i32::MAX
}

/// Addressing mode for a displacement from a base register: none, one byte or
/// four. `rbp` and `r13` always carry a displacement.
pub open spec fn mem_mode(mem: Mem) -> u8 {
    if mem.disp == 0 && mem.base.0 % 8 != 5 {
        0
    } else if fits_i8(mem.disp as int) {
        1
    } else {
        2
    }
}

/// ModRM byte, SIB byte (for `rsp` and `r12`) and displacement of `[base + disp]`.
pub open spec fn mem_bytes(reg: u8, mem: Mem) -> Seq<u8> {
    let head = seq![modrm_byte(mem_mode(mem), reg, mem.base.0)];
    let sib = if mem.base.0 % 8 == 4 {
        seq![0x24u8]
    } else {
        seq![]
    };
    let disp = if mem_mode(mem) == 0 {
        seq![]
    } else if mem_mode(mem) == 1 {
        seq![(mem.disp as i8) as u8]
    } else {
        le4(mem.disp as u32)
    };
    head + sib + disp
}

/// An instruction on two registers: prefix, opcode and ModRM byte.
pub open spec fn enc_rr(w: bool, op: Seq<u8>, reg: u8, rm: u8) -> Seq<u8> {
    rex_bytes(w, ext(reg), ext(rm)) + op + seq![modrm_byte(3, reg, rm)]
}

/// An instruction on a register and a memory operand.
pub open spec fn enc_rm(w: bool, op: Seq<u8>, reg: u8, mem: Mem) -> Seq<u8> {
    rex_bytes(w, ext(reg), ext(mem.base.0)) + op + mem_bytes(reg, mem)
}

/// An instruction on one register, with an opcode extension in ModRM.
pub open spec fn enc_r(w: bool, op: u8, digit: u8, rm: u8) -> Seq<u8> {
    rex_bytes(w, false, ext(rm)) + seq![op, modrm_byte(3, digit, rm)]
}

/// An instruction that has the register in the low bits of the opcode.
pub open spec fn enc_short(w: bool, op: u8, r: u8) -> Seq<u8> {
    rex_bytes(w, false, ext(r)) + seq![(op + r % 8) as u8]
}

/// Arithmetic with an immediate: one byte when it fits, else four.
pub open spec fn enc_alu_imm(digit: u8, dst: u8, imm: i64) -> Seq<u8> {
    if fits_i8(imm as int) {
        enc_r(true, 0x83, digit, dst) + seq![(imm as i8) as u8]
    } else {
        enc_r(true, 0x81, digit, dst) + le4((imm as i32) as u32)
    }
}

/// `mov` of an immediate: four sign-extended bytes when it fits, else eight.
pub open spec fn enc_mov_imm(dst: u8, imm: i64) -> Seq<u8> {
    if fits_i32(imm as int) {
        enc_r(true, 0xC7, 0, dst) + le4((imm as i32) as u32)
    } else {
        enc_short(true, 0xB8, dst) + le8(imm as u64)
    }
}

/// The four-bit number of a condition.
pub open spec fn cond_bits(c: Cond) -> u8 {
    match c {
        Cond::O => 0,
        Cond::B => 2,
        Cond::AE => 3,
        Cond::Z => 4,
        Cond::NZ => 5,
        Cond::BE => 6,
        Cond::A => 7,
        Cond::S => 8,
        Cond::NS => 9,
        Cond::P => 10,
        Cond::NP => 11,
        Cond::L => 12,
        Cond::GE => 13,
        Cond::LE => 14,
        Cond::G => 15,
    }
}

fn cond_code(c: Cond) -> (code: u8)
    ensures
        code == cond_bits(c),
        code < 16,
{
    match c {
        Cond::O => 0,
        Cond::Z => 4,
        Cond::NZ => 5,
        Cond::B => 2,
        Cond::BE => 6,
        Cond::A => 7,
        Cond::AE => 3,
        Cond::L => 12,
        Cond::LE => 14,
        Cond::G => 15,
        Cond::GE => 13,
        Cond::S => 8,
        Cond::NS => 9,
        Cond::P => 10,
        Cond::NP => 11,
    }
}

// ---------------------------------------------------------------------------
// Laws of the encoding
// ---------------------------------------------------------------------------

/// The fields of a ModRM byte can be read back.
pub proof fn modrm_fields(mode: u8, reg: u8, rm: u8)
    requires
        mode < 4,
    ensures
        modrm_byte(mode, reg, rm) / 64 == mode,
        modrm_byte(mode, reg, rm) / 8 % 8 == reg % 8,
        modrm_byte(mode, reg, rm) % 8 == rm % 8,
{
}

/// A two-register instruction determines both registers: the extension bits of
/// the prefix and the fields of the last byte together give their numbers.
pub proof fn rr_operands_determined(op: Seq<u8>, r1: u8, m1: u8, r2: u8, m2: u8)
    requires
        r1 < 16,
        m1 < 16,
        r2 < 16,
        m2 < 16,
        enc_rr(true, op, r1, m1) == enc_rr(true, op, r2, m2),
    ensures
        r1 == r2,
        m1 == m2,
{
    let a = enc_rr(true, op, r1, m1);
    let b = enc_rr(true, op, r2, m2);
    assert(a[0] == b[0]);
    assert(a.last() == modrm_byte(3, r1, m1));
    assert(b.last() == modrm_byte(3, r2, m2));
    modrm_fields(3, r1, m1);
    modrm_fields(3, r2, m2);
}

/// Four little-endian bytes determine the number.
pub proof fn le4_injective(a: u32, b: u32)
    requires
        le4(a) == le4(b),
    ensures
        a == b,
{
    assert(le4(a)[0] == le4(b)[0]);
    assert(le4(a)[1] == le4(b)[1]);
    assert(le4(a)[2] == le4(b)[2]);
    assert(le4(a)[3] == le4(b)[3]);
}

// ---------------------------------------------------------------------------
// The assembler
// ---------------------------------------------------------------------------

/// Minimal x86-64 assembler.
pub struct Asm {
    code: Vec<u8>,
    next_label: usize,
    label_offsets: HashMap<usize, usize>,
    fixups: Vec<Fixup>,
    links: Ghost<Seq<Link>>,
}

/// The displacement of a branch whose four bytes start at `offset`.
pub open spec fn displacement(offset: int, target: int) -> int {
    target - (offset + 4)
}

/// The branch `link` in `code` holds the displacement to its target.
pub open spec fn link_holds(code: Seq<u8>, link: Link) -> bool {
    &&& 0 <= link.offset
    &&& link.offset + 4 <= code.len()
    &&& link.target matches Some(t) ==> {
        &&& fits_i32(displacement(link.offset, t))
        &&& code.subrange(link.offset, link.offset + 4) == le4(
            (displacement(link.offset, t) as i32) as u32,
        )
    }
}

/// The links after `label` is bound at `pos`.
pub open spec fn links_bound(links: Seq<Link>, label: usize, pos: int) -> Seq<Link> {
    Seq::new(
        links.len(),
        |i: int|
            if links[i].label == label && links[i].target is None {
                Link { target: Some(pos), ..links[i] }
            } else {
                links[i]
            },
    )
}

/// Every branch holds its displacement.
pub open spec fn links_hold(code: Seq<u8>, links: Seq<Link>) -> bool {
    forall|i: int| 0 <= i < links.len() ==> link_holds(code, #[trigger] links[i])
}

/// The branches follow each other without overlapping.
pub open spec fn links_apart(links: Seq<Link>) -> bool {
    forall|i: int, j: int|
        0 <= i < j < links.len() ==> (#[trigger] links[i]).offset + 4 <= (#[trigger] links[j]).offset
}

/// Appending code leaves every branch as it is.
proof fn links_hold_appended(code: Seq<u8>, more: Seq<u8>, links: Seq<Link>)
    requires
        links_hold(code, links),
    ensures
        links_hold(code + more, links),
{
    assert forall|i: int| 0 <= i < links.len() implies link_holds(
        code + more,
        #[trigger] links[i],
    ) by {
        let l = links[i];
        assert(link_holds(code, l));
        assert((code + more).subrange(l.offset, l.offset + 4) =~= code.subrange(
            l.offset,
            l.offset + 4,
        ));
    }
}

/// The fixup belongs to the branch, which has no target yet.
closed spec fn fixup_of(f: Fixup, l: Link) -> bool {
    l.target is None && l.offset == f.offset && l.label == f.label
}

/// The fixup is that of a branch without a target.
closed spec fn has_link(f: Fixup, links: Seq<Link>) -> bool {
    exists|i: int| 0 <= i < links.len() && fixup_of(f, #[trigger] links[i])
}

/// The branch has its fixup.
closed spec fn has_fixup(fixups: Seq<Fixup>, l: Link) -> bool {
    exists|k: int| 0 <= k < fixups.len() && fixup_of(#[trigger] fixups[k], l)
}

/// Every fixup is that of a branch without a target.
closed spec fn fixups_sound(fixups: Seq<Fixup>, links: Seq<Link>) -> bool {
    forall|k: int| 0 <= k < fixups.len() ==> has_link(#[trigger] fixups[k], links)
}

/// Every branch without a target has its fixup.
closed spec fn fixups_complete(fixups: Seq<Fixup>, links: Seq<Link>) -> bool {
    forall|i: int|
        0 <= i < links.len() && (#[trigger] links[i]).target is None ==> has_fixup(fixups, links[i])
}

/// `new` is `old` with `enc` appended to the code.
pub open spec fn appended(old: Asm, new: Asm, enc: Seq<u8>) -> bool {
    &&& new.wf()
    &&& new.bytes() == old.bytes() + enc
    &&& new.links() == old.links()
    &&& new.same_fixups(old)
    &&& new.bound() == old.bound()
    &&& new.labels() == old.labels()
}

/// The four bytes of a displacement at `offset`: zero where there is no target yet.
pub open spec fn gap(offset: int, target: Option<int>) -> Seq<u8> {
    match target {
        Some(t) => le4((displacement(offset, t) as i32) as u32),
        None => seq![0u8, 0, 0, 0],
    }
}

/// `new` is `old` with a branch to `label` appended: `op` and a displacement, whose
/// bytes are zero as long as the label is not bound.
pub open spec fn branched(old: Asm, new: Asm, op: Seq<u8>, label: Label) -> bool {
    let offset = (old.bytes().len() + op.len()) as int;
    let target = if old.bound().contains_key(label.id()) {
        Some(old.bound()[label.id()] as int)
    } else {
        None
    };
    &&& new.wf()
    &&& new.bytes() == old.bytes() + op + gap(offset, target)
    &&& new.links() == old.links().push(Link { offset, label: label.id(), target })
    &&& new.bound() == old.bound()
    &&& new.labels() == old.labels()
}

/// `setcc` with its zero extension.
pub open spec fn enc_setcc(c: Cond, dst: u8) -> Seq<u8> {
    seq![(0x40 + dst / 8 % 2) as u8, 0x0F, (0x90 + cond_bits(c)) as u8, modrm_byte(3, 0, dst)]
        + enc_rr(true, seq![0x0Fu8, 0xB6], dst, dst)
}

/// An SSE instruction on two registers: the mandatory prefix comes first.
pub open spec fn enc_sse_rr(prefix: u8, w: bool, op: u8, reg: u8, rm: u8) -> Seq<u8> {
    seq![prefix] + enc_rr(w, seq![0x0Fu8, op], reg, rm)
}

/// An SSE instruction on a register and a memory operand.
pub open spec fn enc_sse_rm(prefix: u8, op: u8, reg: u8, mem: Mem) -> Seq<u8> {
    seq![prefix] + enc_rm(false, seq![0x0Fu8, op], reg, mem)
}

/// A branch whose displacement starts at `offset` reaches `label`, if that is
/// bound already.
pub open spec fn branch_fits(a: Asm, offset: int, label: Label) -> bool {
    &&& offset + 4 <= i64::MAX
    &&& a.bound().contains_key(label.id()) ==> {
        &&& a.bound()[label.id()] <= i64::MAX
        &&& fits_i32(displacement(offset, a.bound()[label.id()] as int))
    }
}

/// The pending branches to `label` reach the current position.
pub open spec fn bind_fits(a: Asm, label: Label) -> bool {
    &&& a.bytes().len() <= i64::MAX
    &&& forall|i: int|
        0 <= i < a.links().len() && (#[trigger] a.links()[i]).target is None
            && a.links()[i].label == label.id() ==> fits_i32(
            displacement(a.links()[i].offset, a.bytes().len() as int),
        )
}

/// Position `p` lies in the displacement of a pending branch to `label`.
pub open spec fn in_pending(links: Seq<Link>, label: usize, p: int) -> bool {
    exists|i: int|
        0 <= i < links.len() && (#[trigger] links[i]).target is None && links[i].label == label
            && links[i].offset <= p < links[i].offset + 4
}

/// The four bytes at `offset` hold the displacement to `pos`.
spec fn patched(code: Seq<u8>, offset: int, pos: int) -> bool {
    code.subrange(offset, offset + 4) == le4((displacement(offset, pos) as i32) as u32)
}

/// `kept` holds those of the first `n` fixups that are not for `label`.
spec fn fixups_kept(kept: Seq<Fixup>, fixups: Seq<Fixup>, n: int, label: usize) -> bool {
    &&& forall|k: int|
        0 <= k < kept.len() ==> (#[trigger] kept[k]).label != label && fixups.take(n).contains(
            kept[k],
        )
    &&& forall|m: int| 0 <= m < n && (#[trigger] fixups[m]).label != label ==> kept.contains(fixups[m])
}

proof fn fixups_kept_step(kept: Seq<Fixup>, fixups: Seq<Fixup>, n: int, label: usize)
    requires
        0 <= n < fixups.len(),
        fixups_kept(kept, fixups, n, label),
    ensures
        fixups[n].label == label ==> fixups_kept(kept, fixups, n + 1, label),
        fixups[n].label != label ==> fixups_kept(kept.push(fixups[n]), fixups, n + 1, label),
{
    let next = if fixups[n].label == label {
        kept
    } else {
        kept.push(fixups[n])
    };
    assert forall|k: int| 0 <= k < next.len() implies (#[trigger] next[k]).label != label
        && fixups.take(n + 1).contains(next[k]) by {
        if k < kept.len() {
            assert(next[k] == kept[k]);
            let m = choose|m: int| 0 <= m < n && fixups.take(n)[m] == kept[k];
            assert(fixups.take(n + 1)[m] == next[k]);
        } else {
            assert(fixups.take(n + 1)[n] == next[k]);
        }
    }
    assert forall|m: int| 0 <= m < n + 1 && (#[trigger] fixups[m]).label != label implies next.contains(
        fixups[m],
    ) by {
        if m < n {
            let k = choose|k: int| 0 <= k < kept.len() && kept[k] == fixups[m];
            assert(next[k] == fixups[m]);
        } else {
            assert(next[kept.len() as int] == fixups[m]);
        }
    }
}

proof fn has_link_pushed(f: Fixup, links: Seq<Link>, l: Link)
    requires
        has_link(f, links),
    ensures
        has_link(f, links.push(l)),
{
    let i = choose|i: int| 0 <= i < links.len() && fixup_of(f, #[trigger] links[i]);
    assert(links.push(l)[i] == links[i]);
}

proof fn has_fixup_pushed(fixups: Seq<Fixup>, f: Fixup, l: Link)
    requires
        has_fixup(fixups, l),
    ensures
        has_fixup(fixups.push(f), l),
{
    let k = choose|k: int| 0 <= k < fixups.len() && fixup_of(#[trigger] fixups[k], l);
    assert(fixups.push(f)[k] == fixups[k]);
}

proof fn fixups_sound_pushed(fixups0: Seq<Fixup>, links0: Seq<Link>, f: Fixup, l: Link)
    requires
        fixups_sound(fixups0, links0),
    ensures
        fixups_sound(fixups0, links0.push(l)),
        fixup_of(f, l) ==> fixups_sound(fixups0.push(f), links0.push(l)),
{
    let links = links0.push(l);
    assert forall|k: int| 0 <= k < fixups0.len() implies has_link(#[trigger] fixups0[k], links) by {
        has_link_pushed(fixups0[k], links0, l);
    }
    assert(links[links0.len() as int] == l);
}

proof fn fixups_complete_pushed(fixups0: Seq<Fixup>, links0: Seq<Link>, f: Fixup, l: Link)
    requires
        fixups_complete(fixups0, links0),
    ensures
        l.target is Some ==> fixups_complete(fixups0, links0.push(l)),
        fixup_of(f, l) ==> fixups_complete(fixups0.push(f), links0.push(l)),
{
    let links = links0.push(l);
    let fixups = fixups0.push(f);
    assert forall|i: int|
        0 <= i < links0.len() && (#[trigger] links[i]).target is None implies has_fixup(
        fixups,
        links[i],
    ) by {
        assert(links0[i].target is None);
        has_fixup_pushed(fixups0, f, links[i]);
    }
    assert(fixups[fixups0.len() as int] == f);
    if l.target is Some {
        assert forall|i: int|
            0 <= i < links.len() && (#[trigger] links[i]).target is None implies has_fixup(
            fixups0,
            links[i],
        ) by {
            assert(links0[i].target is None);
        }
    }
}

/// Two branches with overlapping displacements are the same branch.
proof fn links_disjoint(links: Seq<Link>, i: int, j: int, p: int)
    requires
        links_apart(links),
        0 <= i < links.len(),
        0 <= j < links.len(),
        links[i].offset <= p < links[i].offset + 4,
        links[j].offset <= p < links[j].offset + 4,
    ensures
        i == j,
{
    if i < j {
        assert(links[i].offset + 4 <= links[j].offset);
    }
    if j < i {
        assert(links[j].offset + 4 <= links[i].offset);
    }
}

proof fn patch_step(
    code0: Seq<u8>,
    before: Seq<u8>,
    after: Seq<u8>,
    fixups: Seq<Fixup>,
    links: Seq<Link>,
    k: int,
    label: usize,
    pos: int,
)
    requires
        fixups_sound(fixups, links),
        links_apart(links),
        links_hold(code0, links),
        before.len() == code0.len(),
        0 <= k < fixups.len(),
        fixups[k].label == label,
        ({
            let v = (displacement(fixups[k].offset as int, pos) as i32) as u32;
            let o = fixups[k].offset as int;
            after == before.update(o, le4(v)[0]).update(o + 1, le4(v)[1]).update(
                o + 2,
                le4(v)[2],
            ).update(o + 3, le4(v)[3])
        }),
        forall|p: int|
            0 <= p < code0.len() && !in_pending(links, label, p) ==> before[p] == code0[p],
        forall|m: int|
            0 <= m < k && (#[trigger] fixups[m]).label == label ==> patched(
                before,
                fixups[m].offset as int,
                pos,
            ),
    ensures
        forall|p: int|
            0 <= p < code0.len() && !in_pending(links, label, p) ==> after[p] == code0[p],
        forall|m: int|
            0 <= m < k + 1 && (#[trigger] fixups[m]).label == label ==> patched(
                after,
                fixups[m].offset as int,
                pos,
            ),
{
    assert(has_link(fixups[k], links));
    let i = choose|i: int| 0 <= i < links.len() && fixup_of(fixups[k], #[trigger] links[i]);
    assert(link_holds(code0, links[i]));
    let o = fixups[k].offset as int;
    let v = (displacement(o, pos) as i32) as u32;
    assert forall|p: int| 0 <= p < code0.len() && !in_pending(links, label, p) implies after[p]
        == code0[p] by {
        if links[i].offset <= p < links[i].offset + 4 {
            assert(in_pending(links, label, p));
        }
    }
    assert forall|m: int| 0 <= m < k + 1 && (#[trigger] fixups[m]).label == label implies patched(
        after,
        fixups[m].offset as int,
        pos,
    ) by {
        let om = fixups[m].offset as int;
        assert(has_link(fixups[m], links));
        let j = choose|j: int| 0 <= j < links.len() && fixup_of(fixups[m], #[trigger] links[j]);
        assert(link_holds(code0, links[j]));
        if om == o {
            assert(after.subrange(o, o + 4) =~= le4(v));
        } else {
            if i < j {
                assert(links[i].offset + 4 <= links[j].offset);
            } else if j < i {
                assert(links[j].offset + 4 <= links[i].offset);
            }
            assert(patched(before, om, pos));
            assert(after.subrange(om, om + 4) =~= before.subrange(om, om + 4));
        }
    }
}

proof fn bind_links_hold(
    code0: Seq<u8>,
    code: Seq<u8>,
    fixups: Seq<Fixup>,
    links: Seq<Link>,
    label: usize,
    pos: int,
)
    requires
        fixups_complete(fixups, links),
        links_apart(links),
        links_hold(code0, links),
        code.len() == code0.len(),
        forall|i: int|
            0 <= i < links.len() && (#[trigger] links[i]).target is None && links[i].label == label
                ==> fits_i32(displacement(links[i].offset, pos)),
        forall|p: int| 0 <= p < code0.len() && !in_pending(links, label, p) ==> code[p] == code0[p],
        forall|m: int|
            0 <= m < fixups.len() && (#[trigger] fixups[m]).label == label ==> patched(
                code,
                fixups[m].offset as int,
                pos,
            ),
    ensures
        links_hold(code, links_bound(links, label, pos)),
        links_apart(links_bound(links, label, pos)),
{
    let after = links_bound(links, label, pos);
    assert forall|i: int| 0 <= i < after.len() implies link_holds(code, #[trigger] after[i]) by {
        let l = links[i];
        assert(link_holds(code0, l));
        if l.label == label && l.target is None {
            assert(has_fixup(fixups, links[i]));
            let m = choose|m: int| 0 <= m < fixups.len() && fixup_of(#[trigger] fixups[m], l);
            assert(patched(code, fixups[m].offset as int, pos));
        } else {
            assert forall|p: int| l.offset <= p < l.offset + 4 implies code[p] == code0[p] by {
                if in_pending(links, label, p) {
                    let j = choose|j: int|
                        0 <= j < links.len() && (#[trigger] links[j]).target is None
                            && links[j].label == label && links[j].offset <= p < links[j].offset
                            + 4;
                    links_disjoint(links, i, j, p);
                }
            }
            assert(code.subrange(l.offset, l.offset + 4) =~= code0.subrange(
                l.offset,
                l.offset + 4,
            ));
        }
    }
    assert forall|i: int, j: int| 0 <= i < j < after.len() implies (#[trigger] after[i]).offset + 4
        <= (#[trigger] after[j]).offset by {
        assert(links[i].offset + 4 <= links[j].offset);
    }
}

proof fn bind_fixups_sound(
    fixups: Seq<Fixup>,
    kept: Seq<Fixup>,
    links: Seq<Link>,
    label: usize,
    pos: int,
)
    requires
        fixups_sound(fixups, links),
        fixups_kept(kept, fixups, fixups.len() as int, label),
    ensures
        fixups_sound(kept, links_bound(links, label, pos)),
{
    let after = links_bound(links, label, pos);
    assert(fixups.take(fixups.len() as int) =~= fixups);
    assert forall|k: int| 0 <= k < kept.len() implies has_link(#[trigger] kept[k], after) by {
        let m = choose|m: int| 0 <= m < fixups.len() && fixups[m] == kept[k];
        assert(has_link(fixups[m], links));
        let i = choose|i: int| 0 <= i < links.len() && fixup_of(fixups[m], #[trigger] links[i]);
        assert(fixup_of(kept[k], after[i]));
    }
}

proof fn bind_fixups_complete(
    fixups: Seq<Fixup>,
    kept: Seq<Fixup>,
    links: Seq<Link>,
    label: usize,
    pos: int,
)
    requires
        fixups_complete(fixups, links),
        fixups_kept(kept, fixups, fixups.len() as int, label),
    ensures
        fixups_complete(kept, links_bound(links, label, pos)),
{
    let after = links_bound(links, label, pos);
    assert forall|i: int|
        0 <= i < after.len() && (#[trigger] after[i]).target is None implies has_fixup(
        kept,
        after[i],
    ) by {
        assert(links[i].target is None);
        assert(has_fixup(fixups, links[i]));
        let m = choose|m: int| 0 <= m < fixups.len() && fixup_of(#[trigger] fixups[m], links[i]);
        let k = choose|k: int| 0 <= k < kept.len() && kept[k] == fixups[m];
        assert(fixup_of(kept[k], after[i]));
    }
}

/// Emitting an opcode and then a bare branch gives the branch with that opcode.
/// In a well-formed assembler branches do not overlap, and those with a target hold
/// the displacement to it.
pub proof fn well_formed(a: Asm)
    requires
        a.wf(),
    ensures
        links_hold(a.bytes(), a.links()),
        links_apart(a.links()),
{
}

proof fn branched_after(first: Asm, mid: Asm, last: Asm, op: Seq<u8>, label: Label)
    requires
        mid.bytes() == first.bytes() + op,
        mid.links() == first.links(),
        mid.bound() == first.bound(),
        mid.labels() == first.labels(),
        branched(mid, last, seq![], label),
    ensures
        branched(first, last, op, label),
{
    assert(mid.bytes() + Seq::<u8>::empty() =~= mid.bytes());
}

impl Asm {
    /// The code emitted so far.
    pub closed spec fn bytes(&self) -> Seq<u8> {
        self.code@
    }

    /// How many labels have been handed out.
    pub closed spec fn labels(&self) -> nat {
        self.next_label as nat
    }

    /// The positions of the bound labels.
    pub closed spec fn bound(&self) -> Map<usize, usize> {
        self.label_offsets@
    }

    /// The branches emitted so far, in order.
    pub closed spec fn links(&self) -> Seq<Link> {
        self.links@
    }

    /// Whether the same branches wait for their target as in `other`.
    pub closed spec fn same_fixups(&self, other: Asm) -> bool {
        self.fixups@ == other.fixups@
    }

    /// Whether every branch has its target.
    pub open spec fn resolved(&self) -> bool {
        forall|i: int| 0 <= i < self.links().len() ==> (#[trigger] self.links()[i]).target is Some
    }

    /// Invariant: branches do not overlap, those with a target hold the
    /// displacement to it, and the pending fixups are exactly those without.
    pub closed spec fn wf(&self) -> bool {
        &&& links_hold(self.code@, self.links@)
        &&& links_apart(self.links@)
        &&& fixups_sound(self.fixups@, self.links@)
        &&& fixups_complete(self.fixups@, self.links@)
    }

    /// Create an empty assembler.
    pub fn new() -> (fresh: Self)
        ensures
            fresh.wf(),
            fresh.bytes() == Seq::<u8>::empty(),
            fresh.links() == Seq::<Link>::empty(),
            fresh.bound() == Map::<usize, usize>::empty(),
            fresh.labels() == 0,
    {
        Asm {
            code: Vec::new(),
            next_label: 0,
            label_offsets: HashMap::new(),
            fixups: Vec::new(),
            links: Ghost(Seq::empty()),
        }
    }

    /// Allocate a fresh label.
    pub fn label(&mut self) -> (label: Label)
        requires
            old(self).wf(),
            old(self).labels() < usize::MAX,
        ensures
            final(self).wf(),
            label.id() == old(self).labels(),
            final(self).labels() == old(self).labels() + 1,
            final(self).bytes() == old(self).bytes(),
            final(self).links() == old(self).links(),
            final(self).bound() == old(self).bound(),
    {
        let id: usize = self.next_label;
        self.next_label = self.next_label + 1;
        Label(id)
    }

    /// Current code length.
    pub fn len(&self) -> (n: usize)
        ensures
            n == self.bytes().len(),
    {
        self.code.len()
    }

    /// Finish assembly and return the machine code.
    pub fn assemble(self) -> (code: Vec<u8>)
        requires
            self.wf(),
            self.resolved(),
        ensures
            code@ == self.bytes(),
            forall|i: int|
                0 <= i < self.links().len() ==> (#[trigger] self.links()[i]).target is Some
                    && link_holds(code@, self.links()[i]),
    {
        self.code
    }

    fn emit(&mut self, byte: u8)
        requires
            old(self).wf(),
        ensures
            appended(*old(self), *final(self), seq![byte]),
    {
        self.code.push(byte);
        proof {
            assert(self.code@ =~= old(self).code@ + seq![byte]);
            links_hold_appended(old(self).code@, seq![byte], self.links@);
        }
    }

    fn emit_rex(&mut self, w: bool, r: bool, b: bool)
        requires
            old(self).wf(),
        ensures
            appended(*old(self), *final(self), rex_bytes(w, r, b)),
    {
        if w || r || b {
            let mut rex: u8 = 0x40;
            if w {
                rex = rex + 0x08;
            }
            if r {
                rex = rex + 0x04;
            }
            if b {
                rex = rex + 0x01;
            }
            self.emit(rex);
        } else {
            assert(self.bytes() =~= old(self).bytes() + rex_bytes(w, r, b));
        }
    }

    fn emit_modrm(&mut self, mode: u8, reg: u8, rm: u8)
        requires
            old(self).wf(),
            mode < 4,
        ensures
            appended(*old(self), *final(self), seq![modrm_byte(mode, reg, rm)]),
    {
        self.emit(mode * 64 + (reg % 8) * 8 + rm % 8);
    }

    fn emit_le4(&mut self, v: u32)
        requires
            old(self).wf(),
        ensures
            appended(*old(self), *final(self), le4(v)),
    {
        self.emit((v % 256) as u8);
        self.emit((v / 256 % 256) as u8);
        self.emit((v / 65536 % 256) as u8);
        self.emit((v / 16777216 % 256) as u8);
        assert(self.bytes() =~= old(self).bytes() + le4(v));
    }

    fn emit_le8(&mut self, v: u64)
        requires
            old(self).wf(),
        ensures
            appended(*old(self), *final(self), le8(v)),
    {
        self.emit_le4((v % 4294967296) as u32);
        self.emit_le4((v / 4294967296) as u32);
        assert(self.bytes() =~= old(self).bytes() + le8(v));
    }

    /// ModRM byte, SIB byte and displacement of `mem` with `reg` as the reg field.
    fn emit_mem(&mut self, reg: u8, mem: Mem)
        requires
            old(self).wf(),
        ensures
            appended(*old(self), *final(self), mem_bytes(reg, mem)),
    {
        let low: u8 = mem.base.0 % 8;
        let mode: u8 = if mem.disp == 0 && low != 5 {
            0
        } else if -128 <= mem.disp && mem.disp <= 127 {
            1
        } else {
            2
        };
        self.emit_modrm(mode, reg, mem.base.0);
        if low == 4 {
            self.emit(0x24);
        }
        if mode == 1 {
            self.emit((mem.disp as i8) as u8);
        } else if mode == 2 {
            self.emit_le4(mem.disp as u32);
        }
        assert(self.bytes() =~= old(self).bytes() + mem_bytes(reg, mem));
    }

    fn op_rr(&mut self, w: bool, op: u8, reg: u8, rm: u8)
        requires
            old(self).wf(),
        ensures
            appended(*old(self), *final(self), enc_rr(w, seq![op], reg, rm)),
    {
        self.emit_rex(w, reg >= 8, rm >= 8);
        self.emit(op);
        self.emit_modrm(3, reg, rm);
        assert(self.bytes() =~= old(self).bytes() + enc_rr(w, seq![op], reg, rm));
    }

    fn op2_rr(&mut self, w: bool, op: u8, reg: u8, rm: u8)
        requires
            old(self).wf(),
        ensures
            appended(*old(self), *final(self), enc_rr(w, seq![0x0Fu8, op], reg, rm)),
    {
        self.emit_rex(w, reg >= 8, rm >= 8);
        self.emit(0x0F);
        self.emit(op);
        self.emit_modrm(3, reg, rm);
        assert(self.bytes() =~= old(self).bytes() + enc_rr(w, seq![0x0Fu8, op], reg, rm));
    }

    fn op_rm(&mut self, w: bool, op: u8, reg: u8, mem: Mem)
        requires
            old(self).wf(),
        ensures
            appended(*old(self), *final(self), enc_rm(w, seq![op], reg, mem)),
    {
        self.emit_rex(w, reg >= 8, mem.base.0 >= 8);
        self.emit(op);
        self.emit_mem(reg, mem);
        assert(self.bytes() =~= old(self).bytes() + enc_rm(w, seq![op], reg, mem));
    }

    fn op_r(&mut self, w: bool, op: u8, digit: u8, rm: u8)
        requires
            old(self).wf(),
        ensures
            appended(*old(self), *final(self), enc_r(w, op, digit, rm)),
    {
        self.emit_rex(w, false, rm >= 8);
        self.emit(op);
        self.emit_modrm(3, digit, rm);
        assert(self.bytes() =~= old(self).bytes() + enc_r(w, op, digit, rm));
    }

    fn op_short(&mut self, w: bool, op: u8, r: u8)
        requires
            old(self).wf(),
            op < 0xF8,
        ensures
            appended(*old(self), *final(self), enc_short(w, op, r)),
    {
        self.emit_rex(w, false, r >= 8);
        self.emit(op + r % 8);
        assert(self.bytes() =~= old(self).bytes() + enc_short(w, op, r));
    }

    fn sse_rr(&mut self, prefix: u8, w: bool, op: u8, reg: u8, rm: u8)
        requires
            old(self).wf(),
        ensures
            appended(*old(self), *final(self), enc_sse_rr(prefix, w, op, reg, rm)),
    {
        self.emit(prefix);
        self.op2_rr(w, op, reg, rm);
        assert(self.bytes() =~= old(self).bytes() + enc_sse_rr(prefix, w, op, reg, rm));
    }

    fn sse_rm(&mut self, prefix: u8, op: u8, reg: u8, mem: Mem)
        requires
            old(self).wf(),
        ensures
            appended(*old(self), *final(self), enc_sse_rm(prefix, op, reg, mem)),
    {
        self.emit(prefix);
        self.emit_rex(false, reg >= 8, mem.base.0 >= 8);
        self.emit(0x0F);
        self.emit(op);
        self.emit_mem(reg, mem);
        assert(self.bytes() =~= old(self).bytes() + enc_sse_rm(prefix, op, reg, mem));
    }

    fn alu_imm(&mut self, digit: u8, dst: u8, imm: i64)
        requires
            old(self).wf(),
            fits_i32(imm as int),
        ensures
            appended(*old(self), *final(self), enc_alu_imm(digit, dst, imm)),
    {
        if -128 <= imm && imm <= 127 {
            self.op_r(true, 0x83, digit, dst);
            self.emit((imm as i8) as u8);
        } else {
            self.op_r(true, 0x81, digit, dst);
            self.emit_le4((imm as i32) as u32);
        }
        assert(self.bytes() =~= old(self).bytes() + enc_alu_imm(digit, dst, imm));
    }

    fn shift_imm(&mut self, digit: u8, dst: u8, imm: u8)
        requires
            old(self).wf(),
        ensures
            appended(*old(self), *final(self), enc_r(true, 0xC1, digit, dst) + seq![imm]),
    {
        self.op_r(true, 0xC1, digit, dst);
        self.emit(imm);
        assert(self.bytes() =~= old(self).bytes() + (enc_r(true, 0xC1, digit, dst) + seq![imm]));
    }

    /// The displacement bytes of a branch to `target` whose opcode has just
    /// been emitted after `before` bytes: resolved at once when the label is
    /// bound, else left for `bind`.
    fn branch(&mut self, target: Label)
        requires
            old(self).wf(),
            branch_fits(*old(self), old(self).bytes().len() as int, target),
        ensures
            branched(*old(self), *final(self), seq![], target),
    {
        let offset: usize = self.code.len();
        let ghost code0 = self.code@;
        let ghost links0 = self.links@;
        let bound: Option<&usize> = self.label_offsets.get(&target.0);
        let pos: Option<usize> = match bound {
            Some(p) => Some(*p),
            None => None,
        };
        match pos {
            Some(p) => {
                let delta: i64 = p as i64 - (offset as i64 + 4);
                self.emit_le4((delta as i32) as u32);
                proof {
                    self.links@ = links0.push(
                        Link { offset: offset as int, label: target.0, target: Some(p as int) },
                    );
                    assert(self.code@.subrange(offset as int, offset + 4) =~= le4(
                        (delta as i32) as u32,
                    ));
                }
            },
            None => {
                self.emit_le4(0);
                self.fixups.push(Fixup { offset, label: target.0 });
                proof {
                    self.links@ = links0.push(
                        Link { offset: offset as int, label: target.0, target: None },
                    );
                }
            },
        }
        proof {
            let f = Fixup { offset, label: target.0 };
            fixups_sound_pushed(old(self).fixups@, links0, f, self.links@.last());
            fixups_complete_pushed(old(self).fixups@, links0, f, self.links@.last());
            assert(le4(0) =~= seq![0u8, 0, 0, 0]);
            assert(code0 + Seq::<u8>::empty() =~= code0);
        }
    }

    /// Bind the current position to `label`, resolving pending fixups.
    pub fn bind(&mut self, label: Label)
        requires
            old(self).wf(),
            bind_fits(*old(self), label),
        ensures
            final(self).wf(),
            final(self).links() == links_bound(
                old(self).links(),
                label.id(),
                old(self).bytes().len() as int,
            ),
            final(self).bound() == old(self).bound().insert(
                label.id(),
                old(self).bytes().len() as usize,
            ),
            final(self).labels() == old(self).labels(),
            final(self).bytes().len() == old(self).bytes().len(),
            forall|p: int|
                0 <= p < old(self).bytes().len() && !in_pending(old(self).links(), label.id(), p)
                    ==> final(self).bytes()[p] == old(self).bytes()[p],
            forall|i: int|
                0 <= i < old(self).links().len() && (#[trigger] old(self).links()[i]).target is None
                    && old(self).links()[i].label == label.id() ==> final(self).bytes().subrange(
                    old(self).links()[i].offset,
                    old(self).links()[i].offset + 4,
                ) == le4(
                    (displacement(
                        old(self).links()[i].offset,
                        old(self).bytes().len() as int,
                    ) as i32) as u32,
                ),
    {
        let pos: usize = self.code.len();
        self.label_offsets.insert(label.0, pos);
        let ghost links0 = self.links@;
        let ghost code0 = self.code@;
        let ghost fixups0 = self.fixups@;
        let mut kept: Vec<Fixup> = Vec::new();
        let mut k: usize = 0;
        while k < self.fixups.len()
            invariant
                k <= self.fixups.len(),
                self.fixups@ == fixups0,
                fixups_sound(fixups0, links0),
                links_apart(links0),
                links_hold(code0, links0),
                self.code@.len() == code0.len(),
                pos == code0.len(),
                pos <= i64::MAX,
                self.links@ == links0,
                self.next_label == old(self).next_label,
                self.label_offsets@ == old(self).label_offsets@.insert(label.0, pos),
                forall|i: int|
                    0 <= i < links0.len() && (#[trigger] links0[i]).target is None
                        && links0[i].label == label.0 ==> fits_i32(
                        displacement(links0[i].offset, pos as int),
                    ),
                fixups_kept(kept@, fixups0, k as int, label.0),
                forall|p: int|
                    0 <= p < code0.len() && !in_pending(links0, label.0, p) ==> self.code@[p]
                        == code0[p],
                forall|m: int|
                    0 <= m < k && (#[trigger] fixups0[m]).label == label.0 ==> patched(
                        self.code@,
                        fixups0[m].offset as int,
                        pos as int,
                    ),
            decreases self.fixups.len() - k,
        {
            let f: Fixup = self.fixups[k];
            proof {
                fixups_kept_step(kept@, fixups0, k as int, label.0);
            }
            if f.label == label.0 {
                proof {
                    assert(has_link(fixups0[k as int], links0));
                    let i = choose|i: int| 0 <= i < links0.len() && fixup_of(f, #[trigger] links0[i]);
                    assert(link_holds(code0, links0[i]));
                }
                let ghost before = self.code@;
                let delta: i64 = pos as i64 - (f.offset as i64 + 4);
                let v: u32 = (delta as i32) as u32;
                self.code.set(f.offset, (v % 256) as u8);
                self.code.set(f.offset + 1, (v / 256 % 256) as u8);
                self.code.set(f.offset + 2, (v / 65536 % 256) as u8);
                self.code.set(f.offset + 3, (v / 16777216 % 256) as u8);
                proof {
                    patch_step(
                        code0,
                        before,
                        self.code@,
                        fixups0,
                        links0,
                        k as int,
                        label.0,
                        pos as int,
                    );
                }
            } else {
                kept.push(f);
            }
            k = k + 1;
        }
        self.fixups = kept;
        proof {
            self.links@ = links_bound(links0, label.0, pos as int);
            bind_links_hold(code0, self.code@, fixups0, links0, label.0, pos as int);
            bind_fixups_sound(fixups0, self.fixups@, links0, label.0, pos as int);
            bind_fixups_complete(fixups0, self.fixups@, links0, label.0, pos as int);
            assert forall|i: int|
                0 <= i < links0.len() && (#[trigger] links0[i]).target is None && links0[i].label
                    == label.0 implies self.code@.subrange(links0[i].offset, links0[i].offset + 4)
                == le4((displacement(links0[i].offset, pos as int) as i32) as u32) by {
                assert(link_holds(self.code@, self.links@[i]));
            }
        }
    }

    /// `mov r64, r64`
    pub fn mov_rr(&mut self, dst: Gpr, src: Gpr)
        requires
            old(self).wf(),
        ensures
            appended(*old(self), *final(self), enc_rr(true, seq![0x8Bu8], dst.0, src.0)),
    {
        self.op_rr(true, 0x8B, dst.0, src.0);
    }

    /// `mov r64, imm` (chooses imm32 sign-extended or movabs).
    pub fn mov_ri(&mut self, dst: Gpr, imm: i64)
        requires
            old(self).wf(),
        ensures
            appended(*old(self), *final(self), enc_mov_imm(dst.0, imm)),
    {
        if i32::MIN as i64 <= imm && imm <= i32::MAX as i64 {
            self.op_r(true, 0xC7, 0, dst.0);
            self.emit_le4((imm as i32) as u32);
        } else {
            self.op_short(true, 0xB8, dst.0);
            self.emit_le8(imm as u64);
        }
        assert(self.bytes() =~= old(self).bytes() + enc_mov_imm(dst.0, imm));
    }

    /// `mov r64, [mem]`
    pub fn mov_rm(&mut self, dst: Gpr, mem: Mem)
        requires
            old(self).wf(),
        ensures
            appended(*old(self), *final(self), enc_rm(true, seq![0x8Bu8], dst.0, mem)),
    {
        self.op_rm(true, 0x8B, dst.0, mem);
    }

    /// `mov [mem], r64`
    pub fn mov_mr(&mut self, mem: Mem, src: Gpr)
        requires
            old(self).wf(),
        ensures
            appended(*old(self), *final(self), enc_rm(true, seq![0x89u8], src.0, mem)),
    {
        self.op_rm(true, 0x89, src.0, mem);
    }

    /// `mov dword [mem], imm32`: the low four bytes of `imm`.
    pub fn mov_mi(&mut self, mem: Mem, imm: i64)
        requires
            old(self).wf(),
        ensures
            appended(*old(self), *final(self), enc_rm(false, seq![0xC7u8], 0, mem) + le4((imm as i32) as u32)),
    {
        self.op_rm(false, 0xC7, 0, mem);
        self.emit_le4((imm as i32) as u32);
        assert(self.bytes() =~= old(self).bytes() + (enc_rm(false, seq![0xC7u8], 0, mem) + le4(
            (imm as i32) as u32,
        )));
    }

    /// `mov r32, r32`: zero-extends into the 64-bit destination.
    pub fn mov_r32_rr(&mut self, dst: Gpr, src: Gpr)
        requires
            old(self).wf(),
        ensures
            appended(*old(self), *final(self), enc_rr(false, seq![0x89u8], src.0, dst.0)),
    {
        self.op_rr(false, 0x89, src.0, dst.0);
    }

    /// `lea r64, [mem]`
    pub fn lea(&mut self, dst: Gpr, mem: Mem)
        requires
            old(self).wf(),
        ensures
            appended(*old(self), *final(self), enc_rm(true, seq![0x8Du8], dst.0, mem)),
    {
        self.op_rm(true, 0x8D, dst.0, mem);
    }

    /// `movzx r64, r8`: zero-extends the low byte of `src`.
    pub fn movzx_r8(&mut self, dst: Gpr, src: Gpr)
        requires
            old(self).wf(),
        ensures
            appended(*old(self), *final(self), enc_rr(true, seq![0x0Fu8, 0xB6], dst.0, src.0)),
    {
        self.op2_rr(true, 0xB6, dst.0, src.0);
    }

    /// `add r64, imm` (one byte when it fits, else four).
    pub fn add_ri(&mut self, dst: Gpr, imm: i64)
        requires
            old(self).wf(),
            fits_i32(imm as int),
        ensures
            appended(*old(self), *final(self), enc_alu_imm(0, dst.0, imm)),
    {
        self.alu_imm(0, dst.0, imm);
    }

    /// `sub r64, imm` (one byte when it fits, else four).
    pub fn sub_ri(&mut self, dst: Gpr, imm: i64)
        requires
            old(self).wf(),
            fits_i32(imm as int),
        ensures
            appended(*old(self), *final(self), enc_alu_imm(5, dst.0, imm)),
    {
        self.alu_imm(5, dst.0, imm);
    }

    /// `and r64, imm` (one byte when it fits, else four).
    pub fn and_ri(&mut self, dst: Gpr, imm: i64)
        requires
            old(self).wf(),
            fits_i32(imm as int),
        ensures
            appended(*old(self), *final(self), enc_alu_imm(4, dst.0, imm)),
    {
        self.alu_imm(4, dst.0, imm);
    }

    /// `or r64, imm` (one byte when it fits, else four).
    pub fn or_ri(&mut self, dst: Gpr, imm: i64)
        requires
            old(self).wf(),
            fits_i32(imm as int),
        ensures
            appended(*old(self), *final(self), enc_alu_imm(1, dst.0, imm)),
    {
        self.alu_imm(1, dst.0, imm);
    }

    /// `xor r64, imm` (one byte when it fits, else four).
    pub fn xor_ri(&mut self, dst: Gpr, imm: i64)
        requires
            old(self).wf(),
            fits_i32(imm as int),
        ensures
            appended(*old(self), *final(self), enc_alu_imm(6, dst.0, imm)),
    {
        self.alu_imm(6, dst.0, imm);
    }

    /// `add r64, r64`
    pub fn add_rr(&mut self, dst: Gpr, src: Gpr)
        requires
            old(self).wf(),
        ensures
            appended(*old(self), *final(self), enc_rr(true, seq![0x01u8], src.0, dst.0)),
    {
        self.op_rr(true, 0x01, src.0, dst.0);
    }

    /// `add r64, [mem]`
    pub fn add_rm(&mut self, dst: Gpr, mem: Mem)
        requires
            old(self).wf(),
        ensures
            appended(*old(self), *final(self), enc_rm(true, seq![0x03u8], dst.0, mem)),
    {
        self.op_rm(true, 0x03, dst.0, mem);
    }

    /// `sub r64, r64`
    pub fn sub_rr(&mut self, dst: Gpr, src: Gpr)
        requires
            old(self).wf(),
        ensures
            appended(*old(self), *final(self), enc_rr(true, seq![0x29u8], src.0, dst.0)),
    {
        self.op_rr(true, 0x29, src.0, dst.0);
    }

    /// `sub r64, [mem]`
    pub fn sub_rm(&mut self, dst: Gpr, mem: Mem)
        requires
            old(self).wf(),
        ensures
            appended(*old(self), *final(self), enc_rm(true, seq![0x2Bu8], dst.0, mem)),
    {
        self.op_rm(true, 0x2B, dst.0, mem);
    }

    /// `and r64, r64`
    pub fn and_rr(&mut self, dst: Gpr, src: Gpr)
        requires
            old(self).wf(),
        ensures
            appended(*old(self), *final(self), enc_rr(true, seq![0x21u8], src.0, dst.0)),
    {
        self.op_rr(true, 0x21, src.0, dst.0);
    }

    /// `and r64, [mem]`
    pub fn and_rm(&mut self, dst: Gpr, mem: Mem)
        requires
            old(self).wf(),
        ensures
            appended(*old(self), *final(self), enc_rm(true, seq![0x23u8], dst.0, mem)),
    {
        self.op_rm(true, 0x23, dst.0, mem);
    }

    /// `or r64, r64`
    pub fn or_rr(&mut self, dst: Gpr, src: Gpr)
        requires
            old(self).wf(),
        ensures
            appended(*old(self), *final(self), enc_rr(true, seq![0x09u8], src.0, dst.0)),
    {
        self.op_rr(true, 0x09, src.0, dst.0);
    }

    /// `or r64, [mem]`
    pub fn or_rm(&mut self, dst: Gpr, mem: Mem)
        requires
            old(self).wf(),
        ensures
            appended(*old(self), *final(self), enc_rm(true, seq![0x0Bu8], dst.0, mem)),
    {
        self.op_rm(true, 0x0B, dst.0, mem);
    }

    /// `xor r64, r64`
    pub fn xor_rr(&mut self, dst: Gpr, src: Gpr)
        requires
            old(self).wf(),
        ensures
            appended(*old(self), *final(self), enc_rr(true, seq![0x31u8], src.0, dst.0)),
    {
        self.op_rr(true, 0x31, src.0, dst.0);
    }

    /// `xor r64, [mem]`
    pub fn xor_rm(&mut self, dst: Gpr, mem: Mem)
        requires
            old(self).wf(),
        ensures
            appended(*old(self), *final(self), enc_rm(true, seq![0x33u8], dst.0, mem)),
    {
        self.op_rm(true, 0x33, dst.0, mem);
    }

    /// `imul r64, r64` (dst *= src).
    pub fn imul_rr(&mut self, dst: Gpr, src: Gpr)
        requires
            old(self).wf(),
        ensures
            appended(*old(self), *final(self), enc_rr(true, seq![0x0Fu8, 0xAF], dst.0, src.0)),
    {
        self.op2_rr(true, 0xAF, dst.0, src.0);
    }

    /// `neg r64`
    pub fn neg(&mut self, dst: Gpr)
        requires
            old(self).wf(),
        ensures
            appended(*old(self), *final(self), enc_r(true, 0xF7, 3, dst.0)),
    {
        self.op_r(true, 0xF7, 3, dst.0);
    }

    /// `not r64`
    pub fn not(&mut self, dst: Gpr)
        requires
            old(self).wf(),
        ensures
            appended(*old(self), *final(self), enc_r(true, 0xF7, 2, dst.0)),
    {
        self.op_r(true, 0xF7, 2, dst.0);
    }

    /// `cqo` (sign-extend rax into rdx).
    pub fn cqo(&mut self)
        requires
            old(self).wf(),
        ensures
            appended(*old(self), *final(self), seq![0x48u8, 0x99]),
    {
        self.emit(0x48);
        self.emit(0x99);
        assert(self.bytes() =~= old(self).bytes() + seq![0x48u8, 0x99]);
    }

    /// `idiv r64` (rdx:rax / src; quotient rax, remainder rdx).
    pub fn idiv(&mut self, src: Gpr)
        requires
            old(self).wf(),
        ensures
            appended(*old(self), *final(self), enc_r(true, 0xF7, 7, src.0)),
    {
        self.op_r(true, 0xF7, 7, src.0);
    }

    /// `div r64` (unsigned).
    pub fn div(&mut self, src: Gpr)
        requires
            old(self).wf(),
        ensures
            appended(*old(self), *final(self), enc_r(true, 0xF7, 6, src.0)),
    {
        self.op_r(true, 0xF7, 6, src.0);
    }

    /// `shl r64, imm8`
    pub fn shl_ri(&mut self, dst: Gpr, imm: u8)
        requires
            old(self).wf(),
        ensures
            appended(*old(self), *final(self), enc_r(true, 0xC1, 4, dst.0) + seq![imm]),
    {
        self.shift_imm(4, dst.0, imm);
    }

    /// `shr r64, imm8`
    pub fn shr_ri(&mut self, dst: Gpr, imm: u8)
        requires
            old(self).wf(),
        ensures
            appended(*old(self), *final(self), enc_r(true, 0xC1, 5, dst.0) + seq![imm]),
    {
        self.shift_imm(5, dst.0, imm);
    }

    /// `sar r64, imm8`
    pub fn sar_ri(&mut self, dst: Gpr, imm: u8)
        requires
            old(self).wf(),
        ensures
            appended(*old(self), *final(self), enc_r(true, 0xC1, 7, dst.0) + seq![imm]),
    {
        self.shift_imm(7, dst.0, imm);
    }

    /// `test r64, r64`
    pub fn test_rr(&mut self, a: Gpr, b: Gpr)
        requires
            old(self).wf(),
        ensures
            appended(*old(self), *final(self), enc_rr(true, seq![0x85u8], a.0, b.0)),
    {
        self.op_rr(true, 0x85, a.0, b.0);
    }

    /// `test r64, imm32`
    pub fn test_ri(&mut self, a: Gpr, imm: i32)
        requires
            old(self).wf(),
        ensures
            appended(*old(self), *final(self), enc_r(true, 0xF7, 0, a.0) + le4(imm as u32)),
    {
        self.op_r(true, 0xF7, 0, a.0);
        self.emit_le4(imm as u32);
        assert(self.bytes() =~= old(self).bytes() + (enc_r(true, 0xF7, 0, a.0) + le4(imm as u32)));
    }

    /// `cmp r64, r64`
    pub fn cmp_rr(&mut self, a: Gpr, b: Gpr)
        requires
            old(self).wf(),
        ensures
            appended(*old(self), *final(self), enc_rr(true, seq![0x39u8], b.0, a.0)),
    {
        self.op_rr(true, 0x39, b.0, a.0);
    }

    /// `cmp r64, imm`
    pub fn cmp_ri(&mut self, a: Gpr, imm: i64)
        requires
            old(self).wf(),
            i32::MIN <= imm <= i32::MAX,
        ensures
            appended(*old(self), *final(self), enc_alu_imm(7, a.0, imm)),
    {
        self.alu_imm(7, a.0, imm);
    }

    /// `cmp r64, [mem]`
    pub fn cmp_rm(&mut self, a: Gpr, mem: Mem)
        requires
            old(self).wf(),
        ensures
            appended(*old(self), *final(self), enc_rm(true, seq![0x3Bu8], a.0, mem)),
    {
        self.op_rm(true, 0x3B, a.0, mem);
    }

    /// `setcc r8`: writes the condition byte into the low byte of `dst` and
    /// zero-extends it into the full register. A REX prefix is always emitted so
    /// that `spl`, `bpl`, `sil`, `dil` and `r8b` to `r15b` select correctly.
    pub fn setcc(&mut self, cond: Cond, dst: Gpr)
        requires
            old(self).wf(),
        ensures
            appended(*old(self), *final(self), enc_setcc(cond, dst.0)),
    {
        if dst.0 / 8 % 2 == 1 {
            self.emit(0x41);
        } else {
            self.emit(0x40);
        }
        self.emit(0x0F);
        self.emit(0x90 + cond_code(cond));
        self.emit_modrm(3, 0, dst.0);
        self.movzx_r8(dst, dst);
        assert(self.bytes() =~= old(self).bytes() + enc_setcc(cond, dst.0));
    }

    /// `jcc label` (four-byte displacement).
    pub fn jcc(&mut self, cond: Cond, target: Label)
        requires
            old(self).wf(),
            branch_fits(*old(self), old(self).bytes().len() as int + 2, target),
        ensures
            branched(*old(self), *final(self), seq![0x0Fu8, (0x80 + cond_bits(cond)) as u8], target),
    {
        self.emit(0x0F);
        self.emit(0x80 + cond_code(cond));
        let ghost mid = *self;
        self.branch(target);
        proof {
            assert(mid.bytes() =~= old(self).bytes() + seq![0x0Fu8, (0x80 + cond_bits(cond)) as u8]);
            branched_after(*old(self), mid, *self, seq![0x0Fu8, (0x80 + cond_bits(cond)) as u8], target);
        }
    }

    /// `jmp label`
    pub fn jmp(&mut self, target: Label)
        requires
            old(self).wf(),
            branch_fits(*old(self), old(self).bytes().len() as int + 1, target),
        ensures
            branched(*old(self), *final(self), seq![0xE9u8], target),
    {
        self.emit(0xE9);
        let ghost mid = *self;
        self.branch(target);
        proof {
            assert(mid.bytes() =~= old(self).bytes() + seq![0xE9u8]);
            branched_after(*old(self), mid, *self, seq![0xE9u8], target);
        }
    }

    /// `call r64` (indirect, for helper addresses).
    pub fn call_r(&mut self, target: Gpr)
        requires
            old(self).wf(),
        ensures
            appended(*old(self), *final(self), enc_r(false, 0xFF, 2, target.0)),
    {
        self.op_r(false, 0xFF, 2, target.0);
    }

    /// `call rel32` (direct, to a label).
    pub fn call_label(&mut self, target: Label)
        requires
            old(self).wf(),
            branch_fits(*old(self), old(self).bytes().len() as int + 1, target),
        ensures
            branched(*old(self), *final(self), seq![0xE8u8], target),
    {
        self.emit(0xE8);
        let ghost mid = *self;
        self.branch(target);
        proof {
            assert(mid.bytes() =~= old(self).bytes() + seq![0xE8u8]);
            branched_after(*old(self), mid, *self, seq![0xE8u8], target);
        }
    }

    /// `jmp r64`
    pub fn jmp_r(&mut self, target: Gpr)
        requires
            old(self).wf(),
        ensures
            appended(*old(self), *final(self), enc_r(false, 0xFF, 4, target.0)),
    {
        self.op_r(false, 0xFF, 4, target.0);
    }

    /// `ret`
    pub fn ret(&mut self)
        requires
            old(self).wf(),
        ensures
            appended(*old(self), *final(self), seq![0xC3u8]),
    {
        self.emit(0xC3);
    }

    /// `push r64`
    pub fn push(&mut self, reg: Gpr)
        requires
            old(self).wf(),
        ensures
            appended(*old(self), *final(self), enc_short(false, 0x50, reg.0)),
    {
        self.op_short(false, 0x50, reg.0);
    }

    /// `pop r64`
    pub fn pop(&mut self, reg: Gpr)
        requires
            old(self).wf(),
        ensures
            appended(*old(self), *final(self), enc_short(false, 0x58, reg.0)),
    {
        self.op_short(false, 0x58, reg.0);
    }

    /// `nop`
    pub fn nop(&mut self)
        requires
            old(self).wf(),
        ensures
            appended(*old(self), *final(self), seq![0x90u8]),
    {
        self.emit(0x90);
    }

    /// `int3`
    pub fn int3(&mut self)
        requires
            old(self).wf(),
        ensures
            appended(*old(self), *final(self), seq![0xCCu8]),
    {
        self.emit(0xCC);
    }

    /// `ud2`
    pub fn ud2(&mut self)
        requires
            old(self).wf(),
        ensures
            appended(*old(self), *final(self), seq![0x0Fu8, 0x0B]),
    {
        self.emit(0x0F);
        self.emit(0x0B);
        assert(self.bytes() =~= old(self).bytes() + seq![0x0Fu8, 0x0B]);
    }

    /// Load a 64-bit absolute address into a register (`movabs`).
    pub fn movabs(&mut self, dst: Gpr, addr: u64)
        requires
            old(self).wf(),
        ensures
            appended(*old(self), *final(self), enc_short(true, 0xB8, dst.0) + le8(addr)),
    {
        self.op_short(true, 0xB8, dst.0);
        self.emit_le8(addr);
        assert(self.bytes() =~= old(self).bytes() + (enc_short(true, 0xB8, dst.0) + le8(addr)));
    }

    /// `sub rsp, imm32`
    pub fn sub_rsp_imm(&mut self, imm: u32)
        requires
            old(self).wf(),
        ensures
            appended(*old(self), *final(self), enc_r(true, 0x81, 5, 4) + le4(imm)),
    {
        self.op_r(true, 0x81, 5, 4);
        self.emit_le4(imm);
        assert(self.bytes() =~= old(self).bytes() + (enc_r(true, 0x81, 5, 4) + le4(imm)));
    }

    /// `add rsp, imm32`
    pub fn add_rsp_imm(&mut self, imm: u32)
        requires
            old(self).wf(),
        ensures
            appended(*old(self), *final(self), enc_r(true, 0x81, 0, 4) + le4(imm)),
    {
        self.op_r(true, 0x81, 0, 4);
        self.emit_le4(imm);
        assert(self.bytes() =~= old(self).bytes() + (enc_r(true, 0x81, 0, 4) + le4(imm)));
    }

    /// `movsd xmm, xmm`
    pub fn movsd_rr(&mut self, dst: Xmm, src: Xmm)
        requires
            old(self).wf(),
        ensures
            appended(*old(self), *final(self), enc_sse_rr(0xF2, false, 0x10, dst.0, src.0)),
    {
        self.sse_rr(0xF2, false, 0x10, dst.0, src.0);
    }

    /// `movsd xmm, [mem]`
    pub fn movsd_rm(&mut self, dst: Xmm, mem: Mem)
        requires
            old(self).wf(),
        ensures
            appended(*old(self), *final(self), enc_sse_rm(0xF2, 0x10, dst.0, mem)),
    {
        self.sse_rm(0xF2, 0x10, dst.0, mem);
    }

    /// `movsd [mem], xmm`
    pub fn movsd_mr(&mut self, mem: Mem, src: Xmm)
        requires
            old(self).wf(),
        ensures
            appended(*old(self), *final(self), enc_sse_rm(0xF2, 0x11, src.0, mem)),
    {
        self.sse_rm(0xF2, 0x11, src.0, mem);
    }

    /// `addsd xmm, xmm`
    pub fn addsd_rr(&mut self, dst: Xmm, src: Xmm)
        requires
            old(self).wf(),
        ensures
            appended(*old(self), *final(self), enc_sse_rr(0xF2, false, 0x58, dst.0, src.0)),
    {
        self.sse_rr(0xF2, false, 0x58, dst.0, src.0);
    }

    /// `addsd xmm, [mem]`
    pub fn addsd_rm(&mut self, dst: Xmm, mem: Mem)
        requires
            old(self).wf(),
        ensures
            appended(*old(self), *final(self), enc_sse_rm(0xF2, 0x58, dst.0, mem)),
    {
        self.sse_rm(0xF2, 0x58, dst.0, mem);
    }

    /// `subsd xmm, xmm`
    pub fn subsd_rr(&mut self, dst: Xmm, src: Xmm)
        requires
            old(self).wf(),
        ensures
            appended(*old(self), *final(self), enc_sse_rr(0xF2, false, 0x5C, dst.0, src.0)),
    {
        self.sse_rr(0xF2, false, 0x5C, dst.0, src.0);
    }

    /// `subsd xmm, [mem]`
    pub fn subsd_rm(&mut self, dst: Xmm, mem: Mem)
        requires
            old(self).wf(),
        ensures
            appended(*old(self), *final(self), enc_sse_rm(0xF2, 0x5C, dst.0, mem)),
    {
        self.sse_rm(0xF2, 0x5C, dst.0, mem);
    }

    /// `mulsd xmm, xmm`
    pub fn mulsd_rr(&mut self, dst: Xmm, src: Xmm)
        requires
            old(self).wf(),
        ensures
            appended(*old(self), *final(self), enc_sse_rr(0xF2, false, 0x59, dst.0, src.0)),
    {
        self.sse_rr(0xF2, false, 0x59, dst.0, src.0);
    }

    /// `mulsd xmm, [mem]`
    pub fn mulsd_rm(&mut self, dst: Xmm, mem: Mem)
        requires
            old(self).wf(),
        ensures
            appended(*old(self), *final(self), enc_sse_rm(0xF2, 0x59, dst.0, mem)),
    {
        self.sse_rm(0xF2, 0x59, dst.0, mem);
    }

    /// `divsd xmm, xmm`
    pub fn divsd_rr(&mut self, dst: Xmm, src: Xmm)
        requires
            old(self).wf(),
        ensures
            appended(*old(self), *final(self), enc_sse_rr(0xF2, false, 0x5E, dst.0, src.0)),
    {
        self.sse_rr(0xF2, false, 0x5E, dst.0, src.0);
    }

    /// `divsd xmm, [mem]`
    pub fn divsd_rm(&mut self, dst: Xmm, mem: Mem)
        requires
            old(self).wf(),
        ensures
            appended(*old(self), *final(self), enc_sse_rm(0xF2, 0x5E, dst.0, mem)),
    {
        self.sse_rm(0xF2, 0x5E, dst.0, mem);
    }

    /// `comisd xmm, xmm` (sets ZF/PF/CF; operands not ordered).
    pub fn comisd_rr(&mut self, a: Xmm, b: Xmm)
        requires
            old(self).wf(),
        ensures
            appended(*old(self), *final(self), enc_sse_rr(0x66, false, 0x2F, a.0, b.0)),
    {
        self.sse_rr(0x66, false, 0x2F, a.0, b.0);
    }

    /// `ucomisd xmm, xmm`
    pub fn ucomisd_rr(&mut self, a: Xmm, b: Xmm)
        requires
            old(self).wf(),
        ensures
            appended(*old(self), *final(self), enc_sse_rr(0x66, false, 0x2E, a.0, b.0)),
    {
        self.sse_rr(0x66, false, 0x2E, a.0, b.0);
    }

    /// `ucomisd xmm, m64` (unordered compare of `a` with `[mem]`).
    pub fn ucomisd_rm(&mut self, a: Xmm, mem: Mem)
        requires
            old(self).wf(),
        ensures
            appended(*old(self), *final(self), enc_sse_rm(0x66, 0x2E, a.0, mem)),
    {
        self.sse_rm(0x66, 0x2E, a.0, mem);
    }

    /// `cvtsi2sd xmm, r64`
    pub fn cvtsi2sd_rr(&mut self, dst: Xmm, src: Gpr)
        requires
            old(self).wf(),
        ensures
            appended(*old(self), *final(self), enc_sse_rr(0xF2, true, 0x2A, dst.0, src.0)),
    {
        self.sse_rr(0xF2, true, 0x2A, dst.0, src.0);
    }

    /// `cvttsd2si r64, xmm`
    pub fn cvttsd2si_rr(&mut self, dst: Gpr, src: Xmm)
        requires
            old(self).wf(),
        ensures
            appended(*old(self), *final(self), enc_sse_rr(0xF2, true, 0x2C, dst.0, src.0)),
    {
        self.sse_rr(0xF2, true, 0x2C, dst.0, src.0);
    }

    /// `cvtsd2ss xmm, xmm`
    pub fn cvtsd2ss_rr(&mut self, dst: Xmm, src: Xmm)
        requires
            old(self).wf(),
        ensures
            appended(*old(self), *final(self), enc_sse_rr(0xF2, false, 0x5A, dst.0, src.0)),
    {
        self.sse_rr(0xF2, false, 0x5A, dst.0, src.0);
    }

    /// `cvtss2sd xmm, xmm`
    pub fn cvtss2sd_rr(&mut self, dst: Xmm, src: Xmm)
        requires
            old(self).wf(),
        ensures
            appended(*old(self), *final(self), enc_sse_rr(0xF3, false, 0x5A, dst.0, src.0)),
    {
        self.sse_rr(0xF3, false, 0x5A, dst.0, src.0);
    }

    /// `xorpd xmm, xmm` (zero a register).
    pub fn xorpd(&mut self, dst: Xmm, src: Xmm)
        requires
            old(self).wf(),
        ensures
            appended(*old(self), *final(self), enc_sse_rr(0x66, false, 0x57, dst.0, src.0)),
    {
        self.sse_rr(0x66, false, 0x57, dst.0, src.0);
    }

    /// Move a GPR into the low 64 bits of an XMM (`movq xmm, r64`).
    pub fn movq_xmm_rr(&mut self, dst: Xmm, src: Gpr)
        requires
            old(self).wf(),
        ensures
            appended(*old(self), *final(self), enc_sse_rr(0x66, true, 0x6E, dst.0, src.0)),
    {
        self.sse_rr(0x66, true, 0x6E, dst.0, src.0);
    }

    /// Move the low 64 bits of an XMM into a GPR (`movq r64, xmm`).
    pub fn movq_rr_xmm(&mut self, dst: Gpr, src: Xmm)
        requires
            old(self).wf(),
        ensures
            appended(*old(self), *final(self), enc_sse_rr(0x66, true, 0x7E, src.0, dst.0)),
    {
        self.sse_rr(0x66, true, 0x7E, src.0, dst.0);
    }
}

impl Default for Asm {
    fn default() -> (fresh: Self)
        ensures
            fresh.wf(),
            fresh.bytes() == Seq::<u8>::empty(),
            fresh.links() == Seq::<Link>::empty(),
            fresh.bound() == Map::<usize, usize>::empty(),
            fresh.labels() == 0,
    {
        Asm::new()
    }
}

} // verus!
