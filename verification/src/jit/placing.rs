//! Where the parts of a function stand in its code: the prologue, the blocks one
//! behind the other, each behind its label, and the epilogue.

use crate::jit::code::{bind_of, bind_unique, well_labelled, Code};
use crate::jit::codegen::{
    block_code, block_label, blocks_upto, epilogue, function_code, insns_upto, prologue, term_code,
};
use crate::jit::frame::Cx;
use crate::jit::ir::{blocks_model, BlockModel, Function};
use crate::jit::processor::{parted, placed};
use vstd::prelude::*;

verus! {

/// Where the code of a block starts, behind the blocks before it.
pub open spec fn starts_at(cx: Cx, bs: Seq<BlockModel>, k: int, n: int) -> int {
    blocks_upto(cx, bs, k, n)->Ok_0.0.len() as int
}

/// The first label that is free for a block.
pub open spec fn first_label(cx: Cx, bs: Seq<BlockModel>, k: int, n: int) -> int {
    blocks_upto(cx, bs, k, n)->Ok_0.1
}

/// The code of the instructions of a block, and the code of its end; `l` is the
/// first label that is free.
#[verifier::opaque]
pub open spec fn pieces(cx: Cx, b: BlockModel, l: int) -> Option<(Seq<Code>, Seq<Code>)> {
    match insns_upto(cx, b.insns, b.insns.len() as int, l) {
        Ok((insns, m)) => match term_code(cx, b, m) {
            Ok(last) => Some((insns, last)),
            Err(_) => None,
        },
        Err(_) => None,
    }
}

proof fn pieces_are(cx: Cx, b: BlockModel, l: int)
    requires
        block_code(cx, b, l) is Ok,
    ensures
        pieces(cx, b, l) is Some,
        block_code(cx, b, l)->Ok_0.0 == (pieces(cx, b, l)->0).0 + (pieces(cx, b, l)->0).1,
{
    reveal(pieces);
}

#[verifier::opaque]
spec fn upto(cx: Cx, bs: Seq<BlockModel>, k: int, n: int) -> Option<(Seq<Code>, int)> {
    match blocks_upto(cx, bs, k, n) {
        Ok(r) => Some(r),
        Err(_) => None,
    }
}

proof fn upto_ends(cx: Cx, bs: Seq<BlockModel>, k: int, n: int)
    requires
        0 < k <= bs.len(),
        upto(cx, bs, k, n) is Some,
    ensures
        upto(cx, bs, k - 1, n) is Some,
        bs[k - 1].reachable ==> ({
            let (front, l) = upto(cx, bs, k - 1, n)->0;
            let parts = pieces(cx, bs[k - 1], l);
            &&& parts is Some
            &&& (upto(cx, bs, k, n)->0).0 == front + (seq![
                Code::Bind(block_label((k - 1) as usize)),
            ] + ((parts->0).0 + (parts->0).1))
        }),
        !bs[k - 1].reachable ==> (upto(cx, bs, k, n)->0).0 == (upto(cx, bs, k - 1, n)->0).0,
{
    reveal(upto);
    if bs[k - 1].reachable {
        pieces_are(cx, bs[k - 1], blocks_upto(cx, bs, k - 1, n)->Ok_0.1);
    }
}

proof fn block_stands(cs: Seq<Code>, p: int, cx: Cx, bs: Seq<BlockModel>, all: int, n: int, k: int)
    requires
        0 <= k < all <= bs.len(),
        upto(cx, bs, all, n) is Some,
        placed(cs, p, (upto(cx, bs, all, n)->0).0),
    ensures
        upto(cx, bs, k, n) is Some,
        upto(cx, bs, k + 1, n) is Some,
        placed(cs, p, (upto(cx, bs, k + 1, n)->0).0),
    decreases all,
{
    upto_ends(cx, bs, all, n);
    if bs[all - 1].reachable {
        let (front, l) = upto(cx, bs, all - 1, n)->0;
        let parts = pieces(cx, bs[all - 1], l)->0;
        parted(
            cs,
            p,
            front,
            seq![Code::Bind(block_label((all - 1) as usize))] + (parts.0 + parts.1),
        );
    }
    if k < all - 1 {
        block_stands(cs, p, cx, bs, all - 1, n, k);
    }
}

proof fn whole_stands(cs: Seq<Code>)
    ensures
        placed(cs, 0, cs),
{
    reveal(placed);
    assert forall|i: int| 0 <= i < cs.len() implies #[trigger] cs[0 + i] == cs[i] by {}
}

proof fn parts_stand(cs: Seq<Code>, a: Seq<Code>, b: Seq<Code>, c: Seq<Code>)
    requires
        cs == a + b + c,
    ensures
        placed(cs, 0, a),
        placed(cs, a.len() as int, b),
        placed(cs, cs.len() - c.len(), c),
{
    whole_stands(cs);
    parted(cs, 0, a + b, c);
    parted(cs, 0, a, b);
}

/// The code of a function: it starts with the prologue, then come the blocks, and it
/// ends with the epilogue.
pub proof fn function_law(cx: Cx, f: Function, overflow_addr: u64)
    requires
        function_code(cx, f, overflow_addr) is Ok,
    ensures
        ({
            let cs = function_code(cx, f, overflow_addr)->Ok_0.0;
            let n = f.blocks@.len() as int + 2;
            let head = prologue(cx, f.params, n);
            let body = blocks_upto(
                cx,
                blocks_model(f.blocks@),
                f.blocks@.len() as int,
                n + 2,
            );
            let tail = epilogue(cx, overflow_addr);
            &&& body is Ok
            &&& placed(cs, 0, head)
            &&& placed(cs, head.len() as int, body->Ok_0.0)
            &&& placed(cs, cs.len() - tail.len(), tail)
            &&& cs.len() == head.len() + body->Ok_0.0.len() + tail.len()
        }),
{
    let cs = function_code(cx, f, overflow_addr)->Ok_0.0;
    let n = f.blocks@.len() as int + 2;
    let head = prologue(cx, f.params, n);
    let body = blocks_upto(cx, blocks_model(f.blocks@), f.blocks@.len() as int, n + 2)->Ok_0.0;
    let tail = epilogue(cx, overflow_addr);
    assert(cs == head + body + tail);
    parts_stand(cs, head, body, tail);
}

/// The blocks of a function: the code of every one that can be reached stands behind
/// its label, its instructions before its end, and right behind it stands the next
/// one that can be reached. Where each label stands once, a jump to a block leads to
/// its code.
pub proof fn block_law(cs: Seq<Code>, p: int, cx: Cx, bs: Seq<BlockModel>, n: int, k: int)
    requires
        0 <= k < bs.len(),
        0 <= p,
        blocks_upto(cx, bs, bs.len() as int, n) is Ok,
        placed(cs, p, blocks_upto(cx, bs, bs.len() as int, n)->Ok_0.0),
    ensures
        bs[k].reachable ==> ({
            let at = p + starts_at(cx, bs, k, n);
            let parts = pieces(cx, bs[k], first_label(cx, bs, k, n));
            &&& parts is Some
            &&& placed(cs, at, seq![Code::Bind(block_label(k as usize))])
            &&& placed(cs, at + 1, (parts->0).0)
            &&& placed(cs, at + 1 + (parts->0).0.len(), (parts->0).1)
            &&& p + starts_at(cx, bs, k + 1, n) == at + 1 + (parts->0).0.len() + (
            parts->0).1.len()
            &&& well_labelled(cs) ==> bind_of(cs, block_label(k as usize), 0) == at
        }),
        !bs[k].reachable ==> starts_at(cx, bs, k + 1, n) == starts_at(cx, bs, k, n),
{
    seen_upto(cx, bs, bs.len() as int, n);
    block_stands(cs, p, cx, bs, bs.len() as int, n, k);
    seen_upto(cx, bs, k, n);
    seen_upto(cx, bs, k + 1, n);
    upto_ends(cx, bs, k + 1, n);
    if bs[k].reachable {
        let (front, l) = upto(cx, bs, k, n)->0;
        let parts = pieces(cx, bs[k], l)->0;
        block_parts(cs, p, front, k as usize, parts.0, parts.1);
    }
}

proof fn seen_upto(cx: Cx, bs: Seq<BlockModel>, k: int, n: int)
    ensures
        upto(cx, bs, k, n) is Some <==> blocks_upto(cx, bs, k, n) is Ok,
        upto(cx, bs, k, n) is Some ==> upto(cx, bs, k, n)->0 == blocks_upto(cx, bs, k, n)->Ok_0,
{
    reveal(upto);
}

proof fn block_parts(
    cs: Seq<Code>,
    p: int,
    front: Seq<Code>,
    k: usize,
    a: Seq<Code>,
    b: Seq<Code>,
)
    requires
        0 <= p,
        placed(cs, p, front + (seq![Code::Bind(block_label(k))] + (a + b))),
    ensures
        placed(cs, p + front.len(), seq![Code::Bind(block_label(k))]),
        placed(cs, p + front.len() + 1, a),
        placed(cs, p + front.len() + 1 + a.len(), b),
        well_labelled(cs) ==> bind_of(cs, block_label(k), 0) == p + front.len(),
{
    let bind = seq![Code::Bind(block_label(k))];
    let at = p + front.len();
    parted(cs, p, front, bind + (a + b));
    parted(cs, at, bind, a + b);
    parted(cs, at + 1, a, b);
    if well_labelled(cs) {
        reveal(placed);
        assert(cs[at + 0] == bind[0]);
        bind_unique(cs, block_label(k), at, 0);
    }
}

} // verus!
