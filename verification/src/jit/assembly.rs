//! What runs of calls of the assembler come to.

use crate::jit::assembler::{
    appended, branched, displacement, gap, in_pending, le4, links_apart, links_bound, links_hold,
    well_formed, Asm, Label, Link,
};
use vstd::prelude::*;

verus! {

/// What can be seen of an assembler.
#[verifier::ext_equal]
pub ghost struct State {
    /// The code emitted so far.
    pub bytes: Seq<u8>,
    /// The branches emitted so far.
    pub links: Seq<Link>,
    /// The positions of the bound labels.
    pub bound: Map<usize, usize>,
    /// How many labels have been handed out.
    pub labels: nat,
}

/// What can be seen of an assembler.
pub open spec fn state_of(a: Asm) -> State {
    State { bytes: a.bytes(), links: a.links(), bound: a.bound(), labels: a.labels() }
}

/// A call of the assembler.
pub ghost enum Call {
    /// A label is handed out.
    Fresh,
    /// A label is bound.
    Bind(usize),
    /// An instruction without a label is emitted.
    Emit(Seq<u8>),
    /// A branch to a label is emitted, with this opcode.
    Branch(Seq<u8>, usize),
}

/// The code with the displacement from `offset` to `pos` put in.
pub open spec fn patch(code: Seq<u8>, offset: int, pos: int) -> Seq<u8> {
    Seq::new(
        code.len(),
        |p: int|
            if offset <= p < offset + 4 {
                le4((displacement(offset, pos) as i32) as u32)[p - offset]
            } else {
                code[p]
            },
    )
}

/// The code after the first `n` branches, as far as they wait for `label`, have got
/// their displacement to `pos`.
pub open spec fn resolved_to(code: Seq<u8>, links: Seq<Link>, label: usize, pos: int, n: int) -> Seq<u8>
    decreases n,
{
    if n <= 0 {
        code
    } else {
        let rest = resolved_to(code, links, label, pos, n - 1);
        let l = links[n - 1];
        if l.target is None && l.label == label {
            patch(rest, l.offset, pos)
        } else {
            rest
        }
    }
}

/// The target of a branch to a label.
pub open spec fn target_of(s: State, label: usize) -> Option<int> {
    if s.bound.contains_key(label) {
        Some(s.bound[label] as int)
    } else {
        None
    }
}

/// What a call comes to.
pub open spec fn called(s: State, c: Call) -> State {
    match c {
        Call::Fresh => State { labels: s.labels + 1, ..s },
        Call::Bind(label) => {
            let pos = s.bytes.len() as int;
            State {
                bytes: resolved_to(s.bytes, s.links, label, pos, s.links.len() as int),
                links: links_bound(s.links, label, pos),
                bound: s.bound.insert(label, pos as usize),
                labels: s.labels,
            }
        },
        Call::Emit(enc) => State { bytes: s.bytes + enc, ..s },
        Call::Branch(op, label) => {
            let offset = (s.bytes.len() + op.len()) as int;
            let target = target_of(s, label);
            State {
                bytes: s.bytes + op + gap(offset, target),
                links: s.links.push(Link { offset, label, target }),
                ..s
            }
        },
    }
}

/// What the first `n` calls come to.
pub open spec fn all_called(s: State, cs: Seq<Call>, n: int) -> State
    decreases n,
{
    if n <= 0 {
        s
    } else {
        called(all_called(s, cs, n - 1), cs[n - 1])
    }
}

/// How many bytes a call appends.
pub open spec fn added(c: Call) -> nat {
    match c {
        Call::Emit(enc) => enc.len(),
        Call::Branch(op, _) => op.len() + 4,
        _ => 0,
    }
}

/// How many bytes the first `n` calls append.
pub open spec fn all_added(cs: Seq<Call>, n: int) -> nat
    decreases n,
{
    if n <= 0 {
        0
    } else {
        all_added(cs, n - 1) + added(cs[n - 1])
    }
}

/// An instruction is a call that appends its encoding.
pub proof fn emitting_is_a_call(old: Asm, new: Asm, enc: Seq<u8>)
    requires
        appended(old, new, enc),
    ensures
        state_of(new) == called(state_of(old), Call::Emit(enc)),
{
}

/// A branch is a call that appends its opcode and a displacement.
pub proof fn branching_is_a_call(old: Asm, new: Asm, op: Seq<u8>, label: Label)
    requires
        branched(old, new, op, label),
    ensures
        state_of(new) == called(state_of(old), Call::Branch(op, label.id())),
{
}

proof fn resolved_len(code: Seq<u8>, links: Seq<Link>, label: usize, pos: int, n: int)
    ensures
        resolved_to(code, links, label, pos, n).len() == code.len(),
    decreases n,
{
    if n > 0 {
        resolved_len(code, links, label, pos, n - 1);
    }
}

/// Position `p` lies in the displacement of branch `i`, which waits for `label`.
spec fn waits_at(links: Seq<Link>, label: usize, i: int, p: int) -> bool {
    links[i].target is None && links[i].label == label && links[i].offset <= p < links[i].offset + 4
}

proof fn resolved_miss(code: Seq<u8>, links: Seq<Link>, label: usize, pos: int, n: int, p: int)
    requires
        0 <= n <= links.len(),
        0 <= p < code.len(),
        forall|i: int| 0 <= i < n ==> !(#[trigger] waits_at(links, label, i, p)),
    ensures
        resolved_to(code, links, label, pos, n)[p] == code[p],
    decreases n,
{
    if n > 0 {
        resolved_miss(code, links, label, pos, n - 1, p);
        resolved_len(code, links, label, pos, n - 1);
        assert(!waits_at(links, label, n - 1, p));
    }
}

proof fn resolved_hit(
    code: Seq<u8>,
    links: Seq<Link>,
    label: usize,
    pos: int,
    n: int,
    p: int,
    i: int,
)
    requires
        links_apart(links),
        0 <= i < n <= links.len(),
        0 <= p < code.len(),
        waits_at(links, label, i, p),
    ensures
        resolved_to(code, links, label, pos, n)[p] == le4(
            (displacement(links[i].offset, pos) as i32) as u32,
        )[p - links[i].offset],
    decreases n,
{
    resolved_len(code, links, label, pos, n - 1);
    if i < n - 1 {
        resolved_hit(code, links, label, pos, n - 1, p, i);
        assert(links[i].offset + 4 <= links[n - 1].offset);
    }
}

/// Binding is a call that puts the displacement into every branch that waits for the
/// label, and touches nothing else.
pub proof fn binding_is_a_call(old: Asm, new: Asm, label: Label)
    requires
        old.wf(),
        old.bytes().len() <= usize::MAX,
        new.links() == links_bound(old.links(), label.id(), old.bytes().len() as int),
        new.bound() == old.bound().insert(label.id(), old.bytes().len() as usize),
        new.labels() == old.labels(),
        new.bytes().len() == old.bytes().len(),
        forall|p: int|
            0 <= p < old.bytes().len() && !in_pending(old.links(), label.id(), p)
                ==> new.bytes()[p] == old.bytes()[p],
        forall|i: int|
            0 <= i < old.links().len() && (#[trigger] old.links()[i]).target is None
                && old.links()[i].label == label.id() ==> new.bytes().subrange(
                old.links()[i].offset,
                old.links()[i].offset + 4,
            ) == le4(
                (displacement(old.links()[i].offset, old.bytes().len() as int) as i32) as u32,
            ),
    ensures
        state_of(new) == called(state_of(old), Call::Bind(label.id())),
{
    well_formed(old);
    let code = old.bytes();
    let links = old.links();
    let pos = code.len() as int;
    let n = links.len() as int;
    let id = label.id();
    resolved_len(code, links, id, pos, n);
    let got = resolved_to(code, links, id, pos, n);
    assert forall|p: int| 0 <= p < code.len() implies new.bytes()[p] == got[p] by {
        if in_pending(links, id, p) {
            let i = choose|i: int|
                0 <= i < links.len() && (#[trigger] links[i]).target is None && links[i].label == id
                    && links[i].offset <= p < links[i].offset + 4;
            resolved_hit(code, links, id, pos, n, p, i);
            let o = links[i].offset;
            assert(new.bytes()[p] == new.bytes().subrange(o, o + 4)[p - o]);
        } else {
            assert forall|i: int| 0 <= i < n implies !(#[trigger] waits_at(links, id, i, p)) by {
                if waits_at(links, id, i, p) {
                    assert(links[i].target is None);
                }
            }
            resolved_miss(code, links, id, pos, n, p);
        }
    }
    assert(new.bytes() =~= got);
}

/// After a label is bound, nothing waits for it, and whatever waits for another
/// label still does; the displacements that waited for it lead to where it was
/// bound, and every other byte is as it was.
pub proof fn bind_law(s: State, label: usize, i: int, p: int)
    requires
        links_hold(s.bytes, s.links),
        links_apart(s.links),
        0 <= i < s.links.len(),
        0 <= p < s.bytes.len(),
    ensures
        ({
            let after = called(s, Call::Bind(label));
            let l = s.links[i];
            &&& after.bytes.len() == s.bytes.len()
            &&& after.links.len() == s.links.len()
            &&& after.links[i].label == label ==> after.links[i].target is Some
            &&& l.label != label ==> after.links[i] == l
            &&& l.target is None && l.label == label ==> after.bytes.subrange(l.offset, l.offset + 4)
                == le4((displacement(l.offset, s.bytes.len() as int) as i32) as u32)
            &&& !in_pending(s.links, label, p) ==> after.bytes[p] == s.bytes[p]
        }),
{
    let pos = s.bytes.len() as int;
    let n = s.links.len() as int;
    let after = called(s, Call::Bind(label));
    let l = s.links[i];
    resolved_len(s.bytes, s.links, label, pos, n);
    if !in_pending(s.links, label, p) {
        assert forall|k: int| 0 <= k < n implies !(#[trigger] waits_at(s.links, label, k, p)) by {
            if waits_at(s.links, label, k, p) {
                assert(s.links[k].target is None);
            }
        }
        resolved_miss(s.bytes, s.links, label, pos, n, p);
    }
    if l.target is None && l.label == label {
        let want = le4((displacement(l.offset, pos) as i32) as u32);
        assert forall|q: int| 0 <= q < 4 implies after.bytes[l.offset + q] == want[q] by {
            resolved_hit(s.bytes, s.links, label, pos, n, l.offset + q, i);
        }
        assert(after.bytes.subrange(l.offset, l.offset + 4) =~= want);
    }
}

/// Over any run of calls the code grows by what the calls append, so that it never
/// shrinks, and handing out or binding a label leaves its length alone.
pub proof fn length_law(s: State, cs: Seq<Call>, n: int)
    requires
        0 <= n <= cs.len(),
    ensures
        all_called(s, cs, n).bytes.len() == s.bytes.len() + all_added(cs, n),
    decreases n,
{
    if n > 0 {
        length_law(s, cs, n - 1);
        let before = all_called(s, cs, n - 1);
        if let Call::Bind(label) = cs[n - 1] {
            resolved_len(
                before.bytes,
                before.links,
                label,
                before.bytes.len() as int,
                before.links.len() as int,
            );
        }
    }
}

/// The states agree in everything but the byte at `p`, which is in no displacement.
spec fn but_for(a: State, b: State, p: int) -> bool {
    &&& a.links == b.links
    &&& a.bound == b.bound
    &&& a.labels == b.labels
    &&& a.bytes.len() == b.bytes.len()
    &&& 0 <= p < a.bytes.len()
    &&& forall|q: int| 0 <= q < a.bytes.len() && q != p ==> a.bytes[q] == b.bytes[q]
    &&& forall|i: int|
        0 <= i < a.links.len() ==> !((#[trigger] a.links[i]).offset <= p < a.links[i].offset + 4)
}

proof fn resolved_but_for(a: State, b: State, p: int, label: usize, pos: int, n: int)
    requires
        but_for(a, b, p),
        0 <= n <= a.links.len(),
    ensures
        ({
            let x = resolved_to(a.bytes, a.links, label, pos, n);
            let y = resolved_to(b.bytes, b.links, label, pos, n);
            &&& x.len() == a.bytes.len()
            &&& y.len() == a.bytes.len()
            &&& x[p] == a.bytes[p]
            &&& y[p] == b.bytes[p]
            &&& forall|q: int| 0 <= q < x.len() && q != p ==> x[q] == y[q]
        }),
    decreases n,
{
    if n > 0 {
        resolved_but_for(a, b, p, label, pos, n - 1);
        assert(!(a.links[n - 1].offset <= p < a.links[n - 1].offset + 4));
    }
}

proof fn call_but_for(a: State, b: State, p: int, c: Call)
    requires
        but_for(a, b, p),
    ensures
        but_for(called(a, c), called(b, c), p),
        called(a, c).bytes[p] == a.bytes[p],
        called(b, c).bytes[p] == b.bytes[p],
{
    match c {
        Call::Bind(label) => {
            resolved_but_for(a, b, p, label, a.bytes.len() as int, a.links.len() as int);
            let x = called(a, c);
            assert forall|i: int| 0 <= i < x.links.len() implies !((#[trigger] x.links[i]).offset <= p
                < x.links[i].offset + 4) by {
                assert(x.links[i].offset == a.links[i].offset);
            }
        },
        Call::Branch(op, label) => {
            let x = called(a, c);
            assert forall|i: int| 0 <= i < x.links.len() implies !((#[trigger] x.links[i]).offset <= p
                < x.links[i].offset + 4) by {
                if i < a.links.len() {
                    assert(x.links[i] == a.links[i]);
                }
            }
        },
        _ => {},
    }
}

proof fn run_but_for(a: State, b: State, p: int, cs: Seq<Call>, n: int)
    requires
        but_for(a, b, p),
        0 <= n <= cs.len(),
    ensures
        but_for(all_called(a, cs, n), all_called(b, cs, n), p),
        all_called(a, cs, n).bytes[p] == a.bytes[p],
        all_called(b, cs, n).bytes[p] == b.bytes[p],
    decreases n,
{
    if n > 0 {
        run_but_for(a, b, p, cs, n - 1);
        call_but_for(all_called(a, cs, n - 1), all_called(b, cs, n - 1), p, cs[n - 1]);
    }
}

/// A call and a jump to the same label differ in the opcode only: whatever calls
/// follow, the code is the same but for that byte.
pub proof fn call_and_jump_law(s: State, target: usize, cs: Seq<Call>)
    requires
        links_hold(s.bytes, s.links),
    ensures
        ({
            let n = cs.len() as int;
            let p = s.bytes.len() as int;
            let call = all_called(called(s, Call::Branch(seq![0xE8u8], target)), cs, n);
            let jump = all_called(called(s, Call::Branch(seq![0xE9u8], target)), cs, n);
            &&& call.bytes == jump.bytes.update(p, 0xE8)
            &&& jump.bytes[p] == 0xE9
            &&& call.links == jump.links
            &&& call.bound == jump.bound
        }),
{
    let n = cs.len() as int;
    let p = s.bytes.len() as int;
    let a = called(s, Call::Branch(seq![0xE8u8], target));
    let b = called(s, Call::Branch(seq![0xE9u8], target));
    assert(but_for(a, b, p)) by {
        assert forall|i: int| 0 <= i < a.links.len() implies !((#[trigger] a.links[i]).offset <= p
            < a.links[i].offset + 4) by {
            if i < s.links.len() {
                assert(a.links[i] == s.links[i]);
            }
        }
    }
    run_but_for(a, b, p, cs, n);
    assert(all_called(a, cs, n).bytes =~= all_called(b, cs, n).bytes.update(p, 0xE8));
}

} // verus!
