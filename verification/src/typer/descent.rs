//! The class hierarchy as a relation: a walk visits exactly what is reached
//! through bases.

use crate::typer::ast::Ty;
use crate::typer::assign::flows;
use crate::typer::hierarchy::{bases, place_entry, reach, subclass, unseen, unseen_pushed, Walk};
use crate::typer::info::{ClassModel, TableModel};
use crate::typer::keyed::place;
use vstd::prelude::*;

verus! {

/// A class has a base.
pub open spec fn linked(
    cs: Seq<(Seq<char>, ClassModel)>,
    walk: Walk,
    a: Seq<char>,
    b: Seq<char>,
) -> bool {
    let p = place(cs, a, 0);
    0 <= p < cs.len() && bases(cs[p].1, walk).contains(b)
}

/// A name is reached from another one through `n` bases.
pub open spec fn descends_in(
    cs: Seq<(Seq<char>, ClassModel)>,
    walk: Walk,
    a: Seq<char>,
    b: Seq<char>,
    n: nat,
) -> bool
    decreases n,
{
    if n == 0 {
        a == b
    } else {
        exists|c: Seq<char>| #[trigger]
            linked(cs, walk, a, c) && descends_in(cs, walk, c, b, (n - 1) as nat)
    }
}

/// A name is reached from another one through bases.
pub open spec fn descends(
    cs: Seq<(Seq<char>, ClassModel)>,
    walk: Walk,
    a: Seq<char>,
    b: Seq<char>,
) -> bool {
    exists|n: nat| descends_in(cs, walk, a, b, n)
}

proof fn chained(
    cs: Seq<(Seq<char>, ClassModel)>,
    walk: Walk,
    a: Seq<char>,
    b: Seq<char>,
    c: Seq<char>,
    n: nat,
    m: nat,
)
    requires
        descends_in(cs, walk, a, b, n),
        descends_in(cs, walk, b, c, m),
    ensures
        descends_in(cs, walk, a, c, n + m),
    decreases n,
{
    if n > 0 {
        let d = choose|d: Seq<char>| #[trigger]
            linked(cs, walk, a, d) && descends_in(cs, walk, d, b, (n - 1) as nat);
        chained(cs, walk, d, b, c, (n - 1) as nat, m);
        assert(linked(cs, walk, a, d) && descends_in(cs, walk, d, c, (n + m - 1) as nat));
    }
}

/// Every base of what was seen was seen or is still to be visited.
spec fn complete(
    cs: Seq<(Seq<char>, ClassModel)>,
    walk: Walk,
    seen: Seq<Seq<char>>,
    work: Seq<Seq<char>>,
) -> bool {
    forall|a: Seq<char>, b: Seq<char>|
        seen.contains(a) && #[trigger] linked(cs, walk, a, b) ==> seen.contains(b)
            || work.contains(b)
}

proof fn pushed_has(s: Seq<Seq<char>>, x: Seq<char>)
    ensures
        forall|y: Seq<char>| #[trigger] s.push(x).contains(y) <==> s.contains(y) || y == x,
        forall|y: Seq<char>| #[trigger] s.contains(y) ==> s.push(x).contains(y),
{
    assert forall|y: Seq<char>| s.contains(y) || y == x implies #[trigger] s.push(x).contains(
        y,
    ) by {
        if y == x {
            assert(s.push(x)[s.len() as int] == y);
        } else {
            let i = choose|i: int| 0 <= i < s.len() && s[i] == y;
            assert(s.push(x)[i] == y);
        }
    }
}

proof fn split_has(work: Seq<Seq<char>>)
    requires
        work.len() > 0,
    ensures
        forall|y: Seq<char>| #[trigger]
            work.contains(y) <==> y == work[0] || work.subrange(1, work.len() as int).contains(y),
        forall|y: Seq<char>| #[trigger]
            work.subrange(1, work.len() as int).contains(y) ==> work.contains(y),
{
    let rest = work.subrange(1, work.len() as int);
    assert forall|y: Seq<char>| #[trigger] work.contains(y) implies y == work[0] || rest.contains(
        y,
    ) by {
        let i = choose|i: int| 0 <= i < work.len() && work[i] == y;
        if i > 0 {
            assert(rest[i - 1] == y);
        }
    }
    assert forall|y: Seq<char>| y == work[0] || rest.contains(y) implies #[trigger] work.contains(
        y,
    ) by {
        if y != work[0] {
            let i = choose|i: int| 0 <= i < rest.len() && rest[i] == y;
            assert(work[i + 1] == y);
        }
    }
}

proof fn joined_has(a: Seq<Seq<char>>, b: Seq<Seq<char>>)
    ensures
        forall|y: Seq<char>| #[trigger] (a + b).contains(y) <==> a.contains(y) || b.contains(y),
        forall|y: Seq<char>| #[trigger] a.contains(y) ==> (a + b).contains(y),
        forall|y: Seq<char>| #[trigger] b.contains(y) ==> (a + b).contains(y),
{
    assert forall|y: Seq<char>| a.contains(y) || b.contains(y) implies #[trigger] (a
        + b).contains(y) by {
        if a.contains(y) {
            let i = choose|i: int| 0 <= i < a.len() && a[i] == y;
            assert((a + b)[i] == y);
        } else {
            let i = choose|i: int| 0 <= i < b.len() && b[i] == y;
            assert((a + b)[a.len() + i] == y);
        }
    }
    assert forall|y: Seq<char>| #[trigger] (a + b).contains(y) implies a.contains(y) || b.contains(
        y,
    ) by {
        let i = choose|i: int| 0 <= i < (a + b).len() && (a + b)[i] == y;
        if i < a.len() {
            assert(a[i] == y);
        } else {
            assert(b[i - a.len()] == y);
        }
    }
}

/// A walk visits what it starts with, and the bases of all that it visits.
proof fn walk_is_closed(
    cs: Seq<(Seq<char>, ClassModel)>,
    work: Seq<Seq<char>>,
    seen: Seq<Seq<char>>,
    walk: Walk,
)
    requires
        complete(cs, walk, seen, work),
    ensures
        forall|x: Seq<char>|
            seen.contains(x) || work.contains(x) ==> #[trigger] reach(
                cs,
                work,
                seen,
                walk,
            ).contains(x),
        forall|a: Seq<char>, b: Seq<char>|
            reach(cs, work, seen, walk).contains(a) && #[trigger] linked(cs, walk, a, b) ==> reach(
                cs,
                work,
                seen,
                walk,
            ).contains(b),
    decreases unseen(cs, seen, cs.len() as int), work.len(),
{
    if work.len() > 0 {
        let name = work[0];
        let rest = work.subrange(1, work.len() as int);
        let p = place(cs, name, 0);
        split_has(work);
        if seen.contains(name) {
            walk_is_closed(cs, rest, seen, walk);
            assert forall|x: Seq<char>| seen.contains(x) || work.contains(
                x,
            ) implies #[trigger] reach(cs, work, seen, walk).contains(x) by {
                assert(seen.contains(x) || rest.contains(x));
                assert(reach(cs, rest, seen, walk).contains(x));
            }
        } else {
            pushed_has(seen, name);
            assert(seen.push(name).contains(name));
            place_entry(cs, name, 0);
            unseen_pushed(cs, seen, name, cs.len() as int);
            if 0 <= p < cs.len() {
                assert(cs[p].0 == name);
                joined_has(bases(cs[p].1, walk), rest);
                let next = bases(cs[p].1, walk) + rest;
                walk_is_closed(cs, next, seen.push(name), walk);
                assert forall|x: Seq<char>| seen.contains(x) || work.contains(
                    x,
                ) implies #[trigger] reach(cs, work, seen, walk).contains(x) by {
                    assert(seen.push(name).contains(x) || next.contains(x));
                    assert(reach(cs, next, seen.push(name), walk).contains(x));
                }
            } else {
                walk_is_closed(cs, rest, seen.push(name), walk);
                assert forall|x: Seq<char>| seen.contains(x) || work.contains(
                    x,
                ) implies #[trigger] reach(cs, work, seen, walk).contains(x) by {
                    assert(seen.push(name).contains(x) || rest.contains(x));
                    assert(reach(cs, rest, seen.push(name), walk).contains(x));
                }
            }
        }
    }
}

/// A walk visits nothing but what is reached from what it starts with.
proof fn walk_is_exact(
    cs: Seq<(Seq<char>, ClassModel)>,
    work: Seq<Seq<char>>,
    seen: Seq<Seq<char>>,
    walk: Walk,
    from: Seq<char>,
    x: Seq<char>,
)
    requires
        forall|y: Seq<char>| #[trigger] seen.contains(y) ==> descends(cs, walk, from, y),
        forall|y: Seq<char>| #[trigger] work.contains(y) ==> descends(cs, walk, from, y),
        reach(cs, work, seen, walk).contains(x),
    ensures
        descends(cs, walk, from, x),
    decreases unseen(cs, seen, cs.len() as int), work.len(),
{
    if work.len() > 0 {
        let name = work[0];
        let rest = work.subrange(1, work.len() as int);
        let p = place(cs, name, 0);
        split_has(work);
        if seen.contains(name) {
            walk_is_exact(cs, rest, seen, walk, from, x);
        } else {
            pushed_has(seen, name);
            place_entry(cs, name, 0);
            unseen_pushed(cs, seen, name, cs.len() as int);
            assert(work.contains(name));
            if 0 <= p < cs.len() {
                assert(cs[p].0 == name);
                let next = bases(cs[p].1, walk);
                joined_has(next, rest);
                assert forall|y: Seq<char>| #[trigger] next.contains(y) implies descends(
                    cs,
                    walk,
                    from,
                    y,
                ) by {
                    let n = choose|n: nat| descends_in(cs, walk, from, name, n);
                    assert(linked(cs, walk, name, y));
                    assert(descends_in(cs, walk, y, y, 0));
                    assert(descends_in(cs, walk, name, y, 1));
                    chained(cs, walk, from, name, y, n, 1);
                }
                walk_is_exact(cs, next + rest, seen.push(name), walk, from, x);
            } else {
                walk_is_exact(cs, rest, seen.push(name), walk, from, x);
            }
        }
    }
}

proof fn closed_reaches(
    cs: Seq<(Seq<char>, ClassModel)>,
    walk: Walk,
    all: Seq<Seq<char>>,
    a: Seq<char>,
    b: Seq<char>,
    n: nat,
)
    requires
        all.contains(a),
        forall|x: Seq<char>, y: Seq<char>|
            all.contains(x) && #[trigger] linked(cs, walk, x, y) ==> all.contains(y),
        descends_in(cs, walk, a, b, n),
    ensures
        all.contains(b),
    decreases n,
{
    if n > 0 {
        let c = choose|c: Seq<char>| #[trigger]
            linked(cs, walk, a, c) && descends_in(cs, walk, c, b, (n - 1) as nat);
        closed_reaches(cs, walk, all, c, b, (n - 1) as nat);
    }
}

/// A walk from a class visits exactly what is reached through bases.
pub proof fn walk_law(
    cs: Seq<(Seq<char>, ClassModel)>,
    walk: Walk,
    a: Seq<char>,
    b: Seq<char>,
)
    ensures
        reach(cs, seq![a], seq![], walk).contains(b) <==> descends(cs, walk, a, b),
{
    let work = seq![a];
    let none = Seq::<Seq<char>>::empty();
    let all = reach(cs, work, none, walk);
    assert(work[0] == a);
    assert(work.contains(a));
    walk_is_closed(cs, work, none, walk);
    if descends(cs, walk, a, b) {
        let n = choose|n: nat| descends_in(cs, walk, a, b, n);
        assert(all.contains(a));
        closed_reaches(cs, walk, all, a, b, n);
    }
    if all.contains(b) {
        assert forall|y: Seq<char>| #[trigger] work.contains(y) implies descends(
            cs,
            walk,
            a,
            y,
        ) by {
            assert(descends_in(cs, walk, a, a, 0));
        }
        walk_is_exact(cs, work, none, walk, a, b);
    }
}

/// A class is a subclass of exactly what is reached through its bases: itself,
/// and with a class everything that this one is a subclass of.
pub proof fn subclass_law(
    cs: Seq<(Seq<char>, ClassModel)>,
    a: Seq<char>,
    b: Seq<char>,
    c: Seq<char>,
)
    ensures
        subclass(cs, a, a),
        subclass(cs, a, b) <==> descends(cs, Walk::Up, a, b),
        subclass(cs, a, b) && subclass(cs, b, c) ==> subclass(cs, a, c),
{
    walk_law(cs, Walk::Up, a, b);
    walk_law(cs, Walk::Up, b, c);
    walk_law(cs, Walk::Up, a, c);
    assert(descends_in(cs, Walk::Up, a, a, 0));
    assert(descends_in(cs, Walk::Up, b, b, 0));
    if subclass(cs, a, b) && subclass(cs, b, c) {
        let n = choose|n: nat| descends_in(cs, Walk::Up, a, b, n);
        let m = choose|m: nat| descends_in(cs, Walk::Up, b, c, m);
        chained(cs, Walk::Up, a, b, c, n, m);
    }
}

/// A value goes where its own type is expected, and an instance of a class
/// where one of the bases is.
pub proof fn instances_flow_up(t: TableModel, ty: Ty, a: Seq<char>, b: Seq<char>)
    ensures
        flows(t, ty, ty),
        descends(t.classes, Walk::Up, a, b) ==> flows(
            t,
            Ty::Class(b, seq![]),
            Ty::Class(a, seq![]),
        ),
{
    subclass_law(t.classes, a, b, b);
}

} // verus!
