//! What a class inherits, and what follows from it: which instances a class has, which
//! method a call runs, and which clause catches an exception.

use crate::bytecode::{
    class_entry_found, class_of, parents, unvisited, unvisited_pushed, ClassDef, ClassId,
    ExceptionHandler, MethodDef, MethodId, Module, Op, TypeDesc,
};
use crate::vm::apply::apply_effect;
use crate::vm::frames::{applies, handler_for, handler_is_innermost, handler_upto, FrameModel};
use crate::vm::heap::{object_at, HeapModel};
use crate::vm::inspect::{
    ancestor, dispatched, instance_of, matches_type, method_id_from, virtual_in,
};
use crate::vm::machine::{handled, handlers_of, place_in, raised, Outcome};
use crate::vm::ops::StoreModel;
use crate::vm::value::{ObjectModel, Value};
use crate::vm::world::{Answers, Effect};
use vstd::prelude::*;

verus! {

// ---------------------------------------------------------------------------
// Inheritance
// ---------------------------------------------------------------------------

/// A class names another one as its super class or as one of its interfaces.
pub open spec fn extends(module: Module, sub: ClassId, base: ClassId) -> bool {
    class_of(module, sub) matches Some(c) && (c.super_class == Some(base) || c.interfaces@.contains(
        base,
    ))
}

/// Each class of a list names the next one.
pub open spec fn lineage(module: Module, path: Seq<ClassId>) -> bool {
    &&& path.len() > 0
    &&& forall|k: int| 0 <= k < path.len() - 1 ==> #[trigger] extends(module, path[k], path[k + 1])
}

/// A class is another one, or inherits from it.
pub open spec fn inherits(module: Module, sub: ClassId, base: ClassId) -> bool {
    exists|path: Seq<ClassId>|
        #[trigger] lineage(module, path) && path[0] == sub && path.last() == base
}

/// None of the classes of a list has been visited.
spec fn avoids(path: Seq<ClassId>, visited: Seq<ClassId>) -> bool {
    forall|k: int| 0 <= k < path.len() ==> !visited.contains(#[trigger] path[k])
}

proof fn extends_parents(module: Module, sub: ClassId, base: ClassId)
    ensures
        extends(module, sub, base) <==> (class_of(module, sub) matches Some(c) && parents(c).contains(
            base,
        )),
{
    if let Some(c) = class_of(module, sub) {
        let ps = parents(c);
        if c.super_class == Some(base) {
            assert(ps[0] == base);
        }
        if c.interfaces@.contains(base) {
            let i = choose|i: int| 0 <= i < c.interfaces@.len() && c.interfaces@[i] == base;
            let d = ps.len() - c.interfaces@.len();
            assert(ps[d + i] == base);
        }
        if ps.contains(base) {
            let i = choose|i: int| 0 <= i < ps.len() && ps[i] == base;
            let d = ps.len() - c.interfaces@.len();
            if i >= d {
                assert(c.interfaces@[i - d] == base);
            }
        }
    }
}

/// The part of a list behind the last place where a class stands in it.
proof fn behind_last(path: Seq<ClassId>, id: ClassId) -> (j: int)
    requires
        path.contains(id),
    ensures
        0 <= j < path.len(),
        path[j] == id,
        forall|k: int| j < k < path.len() ==> path[k] != id,
    decreases path.len(),
{
    if path.last() == id {
        path.len() - 1
    } else {
        let front = path.drop_last();
        let i = choose|i: int| 0 <= i < path.len() && path[i] == id;
        assert(front[i] == id);
        let j = behind_last(front, id);
        assert forall|k: int| j < k < path.len() implies path[k] != id by {
            if k < front.len() {
                assert(front[k] == path[k]);
            }
        }
        j
    }
}

proof fn tail_contains(work: Seq<ClassId>, x: ClassId)
    requires
        work.len() > 0,
        work.contains(x),
        work[0] != x,
    ensures
        work.subrange(1, work.len() as int).contains(x),
{
    let i = choose|i: int| 0 <= i < work.len() && work[i] == x;
    assert(work.subrange(1, work.len() as int)[i - 1] == x);
}

/// A way of a search: it starts at a class that is still to be tried and leads over
/// classes that have not been visited.
spec fn open_way(module: Module, work: Seq<ClassId>, visited: Seq<ClassId>, path: Seq<ClassId>) -> bool {
    lineage(module, path) && avoids(path, visited) && work.contains(path[0])
}

/// Where the first class of a search is passed over, a way to another class stays open.
proof fn way_stays(
    module: Module,
    work: Seq<ClassId>,
    visited: Seq<ClassId>,
    path: Seq<ClassId>,
)
    requires
        work.len() > 0,
        open_way(module, work, visited, path),
        visited.contains(work[0]) || class_of(module, work[0]) is None,
        path.last() != work[0] || visited.contains(work[0]),
    ensures
        open_way(module, work.subrange(1, work.len() as int), visited, path),
{
    if path[0] == work[0] {
        if !visited.contains(work[0]) {
            assert(extends(module, path[0], path[0int + 1]));
        }
    }
    tail_contains(work, path[0]);
}

/// Where the first class of a search is searched, a way to another class stays open,
/// through what it names or past it.
proof fn way_goes_on(
    module: Module,
    work: Seq<ClassId>,
    visited: Seq<ClassId>,
    path: Seq<ClassId>,
    class: ClassDef,
) -> (rest: Seq<ClassId>)
    requires
        work.len() > 0,
        open_way(module, work, visited, path),
        class_of(module, work[0]) == Some(class),
        path.last() != work[0],
    ensures
        open_way(
            module,
            parents(class) + work.subrange(1, work.len() as int),
            visited.push(work[0]),
            rest,
        ),
        rest.last() == path.last(),
{
    let id = work[0];
    let ps = parents(class);
    let tail = work.subrange(1, work.len() as int);
    let next = visited.push(id);
    if path.contains(id) {
        let j = behind_last(path, id);
        let rest = path.subrange(j + 1, path.len() as int);
        assert(extends(module, path[j], path[j + 1]));
        extends_parents(module, id, path[j + 1]);
        let i = choose|i: int| 0 <= i < ps.len() && ps[i] == path[j + 1];
        assert((ps + tail)[i] == rest[0]);
        assert forall|k: int| 0 <= k < rest.len() - 1 implies #[trigger] extends(
            module,
            rest[k],
            rest[k + 1],
        ) by {
            assert(extends(module, path[j + 1 + k], path[j + 1 + k + 1]));
        }
        assert forall|k: int| 0 <= k < rest.len() implies !next.contains(#[trigger] rest[k]) by {
            assert(!visited.contains(path[j + 1 + k]));
        }
        rest
    } else {
        assert(path[0] != id);
        tail_contains(work, path[0]);
        let i = choose|i: int| 0 <= i < tail.len() && tail[i] == path[0];
        assert((ps + tail)[ps.len() + i] == path[0]);
        assert forall|k: int| 0 <= k < path.len() implies !next.contains(#[trigger] path[k]) by {
            assert(!visited.contains(path[k]));
        }
        path
    }
}

/// A class that was found from what the first class of a search names, or from the
/// others, is found from the classes of the search.
proof fn way_back(module: Module, work: Seq<ClassId>, class: ClassDef, path: Seq<ClassId>) -> (whole: Seq<ClassId>)
    requires
        work.len() > 0,
        class_of(module, work[0]) == Some(class),
        lineage(module, path),
        (parents(class) + work.subrange(1, work.len() as int)).contains(path[0]),
    ensures
        lineage(module, whole),
        work.contains(whole[0]),
        whole.last() == path.last(),
{
    let ps = parents(class);
    let all = ps + work.subrange(1, work.len() as int);
    let i = choose|i: int| 0 <= i < all.len() && all[i] == path[0];
    if i < ps.len() {
        assert(ps[i] == path[0]);
        extends_parents(module, work[0], path[0]);
        let whole = seq![work[0]] + path;
        assert forall|k: int| 0 <= k < whole.len() - 1 implies #[trigger] extends(
            module,
            whole[k],
            whole[k + 1],
        ) by {
            if k > 0 {
                assert(extends(module, path[k - 1], path[k - 1 + 1]));
            }
        }
        whole
    } else {
        assert(work[i - ps.len() + 1] == path[0]);
        path
    }
}

proof fn search_is_complete(
    module: Module,
    work: Seq<ClassId>,
    visited: Seq<ClassId>,
    base: ClassId,
    path: Seq<ClassId>,
)
    requires
        open_way(module, work, visited, path),
        path.last() == base,
    ensures
        ancestor(module, work, visited, base),
    decreases unvisited(module.classes@, visited, module.classes@.len() as int), work.len(),
{
    if work.len() > 0 && work[0] != base {
        let rest = work.subrange(1, work.len() as int);
        match class_of(module, work[0]) {
            Some(class) => if visited.contains(work[0]) {
                way_stays(module, work, visited, path);
                search_is_complete(module, rest, visited, base, path);
            } else {
                class_entry_found(module.classes@, work[0], 0);
                unvisited_pushed(module.classes@, visited, work[0], module.classes@.len() as int);
                let next = way_goes_on(module, work, visited, path, class);
                search_is_complete(module, parents(class) + rest, visited.push(work[0]), base, next);
            },
            None => {
                way_stays(module, work, visited, path);
                search_is_complete(module, rest, visited, base, path);
            },
        }
    }
}

proof fn search_is_sound(module: Module, work: Seq<ClassId>, visited: Seq<ClassId>, base: ClassId) -> (path:
    Seq<ClassId>)
    requires
        ancestor(module, work, visited, base),
    ensures
        lineage(module, path),
        work.contains(path[0]),
        path.last() == base,
    decreases unvisited(module.classes@, visited, module.classes@.len() as int), work.len(),
{
    let id = work[0];
    let rest = work.subrange(1, work.len() as int);
    if id == base {
        let path = seq![base];
        assert(work.contains(path[0]));
        path
    } else if visited.contains(id) || class_of(module, id) is None {
        let path = search_is_sound(module, rest, visited, base);
        let i = choose|i: int| 0 <= i < rest.len() && rest[i] == path[0];
        assert(work[i + 1] == path[0]);
        path
    } else {
        let class = class_of(module, id)->Some_0;
        class_entry_found(module.classes@, id, 0);
        unvisited_pushed(module.classes@, visited, id, module.classes@.len() as int);
        let path = search_is_sound(module, parents(class) + rest, visited.push(id), base);
        way_back(module, work, class, path)
    }
}

/// The instances of a class are those of the class itself and of the classes that
/// inherit from it, over any number of super classes and interfaces, and no others.
pub proof fn instance_law(module: Module, sub: ClassId, base: ClassId)
    ensures
        instance_of(module, sub, base) <==> inherits(module, sub, base),
{
    if instance_of(module, sub, base) {
        let path = search_is_sound(module, seq![sub], seq![], base);
        assert(lineage(module, path) && path[0] == sub && path.last() == base);
    }
    if inherits(module, sub, base) {
        let path = choose|path: Seq<ClassId>|
            #[trigger] lineage(module, path) && path[0] == sub && path.last() == base;
        assert(seq![sub][0] == path[0]);
        search_is_complete(module, seq![sub], seq![], base, path);
    }
}

/// To inherit is to be the same, or to name a class that inherits; so it is reflexive
/// and transitive.
pub proof fn inheritance_laws(module: Module, a: ClassId, b: ClassId, c: ClassId)
    ensures
        inherits(module, a, a),
        extends(module, a, b) ==> inherits(module, a, b),
        inherits(module, a, b) && inherits(module, b, c) ==> inherits(module, a, c),
{
    assert(lineage(module, seq![a]));
    if extends(module, a, b) {
        let path = seq![a, b];
        assert(lineage(module, path));
    }
    if inherits(module, a, b) && inherits(module, b, c) {
        let p = choose|p: Seq<ClassId>| #[trigger] lineage(module, p) && p[0] == a && p.last() == b;
        let q = choose|q: Seq<ClassId>| #[trigger] lineage(module, q) && q[0] == b && q.last() == c;
        let path = p.drop_last() + q;
        assert forall|k: int| 0 <= k < path.len() - 1 implies #[trigger] extends(
            module,
            path[k],
            path[k + 1],
        ) by {
            if k < p.len() - 1 {
                assert(extends(module, p[k], p[k + 1]));
            } else {
                assert(extends(module, q[k - (p.len() - 1)], q[k - (p.len() - 1) + 1]));
            }
        }
        assert(lineage(module, path) && path[0] == a && path.last() == c);
    }
}

// ---------------------------------------------------------------------------
// Dispatch
// ---------------------------------------------------------------------------

/// A class declares an instance method of a name itself.
pub open spec fn declares(module: Module, class: ClassId, name: Seq<char>) -> bool {
    class_of(module, class) matches Some(c) && exists|i: int|
        0 <= i < c.methods@.len() && (#[trigger] c.methods@[i]).1.name@ == name
}

/// A method is an instance method of a name that a class declares itself.
pub open spec fn declares_as(module: Module, class: ClassId, name: Seq<char>, m: MethodId) -> bool {
    class_of(module, class) matches Some(c) && exists|i: int|
        0 <= i < c.methods@.len() && (#[trigger] c.methods@[i]).1.name@ == name && c.methods@[i].0 == m
}

proof fn own_methods(ms: Seq<(MethodId, MethodDef)>, name: Seq<char>, i: int)
    requires
        0 <= i <= ms.len(),
    ensures
        match method_id_from(ms, name, i) {
            Some(m) => exists|k: int|
                i <= k < ms.len() && (#[trigger] ms[k]).1.name@ == name && ms[k].0 == m && forall|j: int|
                    i <= j < k ==> (#[trigger] ms[j]).1.name@ != name,
            None => forall|k: int| i <= k < ms.len() ==> (#[trigger] ms[k]).1.name@ != name,
        },
    decreases ms.len() - i,
{
    if i < ms.len() {
        if ms[i].1.name@ == name {
            assert(ms[i].0 == ms[i].0);
        } else {
            own_methods(ms, name, i + 1);
        }
    }
}

proof fn dispatch_is_complete(
    module: Module,
    work: Seq<ClassId>,
    visited: Seq<ClassId>,
    name: Seq<char>,
    path: Seq<ClassId>,
)
    requires
        open_way(module, work, visited, path),
        declares(module, path.last(), name),
    ensures
        virtual_in(module, work, visited, name) is Some,
    decreases unvisited(module.classes@, visited, module.classes@.len() as int), work.len(),
{
    if work.len() > 0 {
        let rest = work.subrange(1, work.len() as int);
        match class_of(module, work[0]) {
            Some(class) => if visited.contains(work[0]) {
                way_stays(module, work, visited, path);
                dispatch_is_complete(module, rest, visited, name, path);
            } else {
                own_methods(class.methods@, name, 0);
                if method_id_from(class.methods@, name, 0) is None {
                    class_entry_found(module.classes@, work[0], 0);
                    unvisited_pushed(module.classes@, visited, work[0], module.classes@.len() as int);
                    let next = way_goes_on(module, work, visited, path, class);
                    dispatch_is_complete(
                        module,
                        parents(class) + rest,
                        visited.push(work[0]),
                        name,
                        next,
                    );
                }
            },
            None => {
                way_stays(module, work, visited, path);
                dispatch_is_complete(module, rest, visited, name, path);
            },
        }
    }
}

proof fn dispatch_is_sound(module: Module, work: Seq<ClassId>, visited: Seq<ClassId>, name: Seq<char>) -> (path:
    Seq<ClassId>)
    requires
        virtual_in(module, work, visited, name) is Some,
    ensures
        lineage(module, path),
        work.contains(path[0]),
        declares_as(module, path.last(), name, virtual_in(module, work, visited, name)->Some_0),
    decreases unvisited(module.classes@, visited, module.classes@.len() as int), work.len(),
{
    let id = work[0];
    let rest = work.subrange(1, work.len() as int);
    if visited.contains(id) || class_of(module, id) is None {
        let path = dispatch_is_sound(module, rest, visited, name);
        let i = choose|i: int| 0 <= i < rest.len() && rest[i] == path[0];
        assert(work[i + 1] == path[0]);
        path
    } else {
        let class = class_of(module, id)->Some_0;
        own_methods(class.methods@, name, 0);
        if method_id_from(class.methods@, name, 0) is Some {
            let path = seq![id];
            assert(lineage(module, path));
            path
        } else {
            class_entry_found(module.classes@, id, 0);
            unvisited_pushed(module.classes@, visited, id, module.classes@.len() as int);
            let path = dispatch_is_sound(module, parents(class) + rest, visited.push(id), name);
            way_back(module, work, class, path)
        }
    }
}

/// A name dispatches exactly where the class, or some class that it inherits from,
/// declares an instance method of that name; the method is one of these.
pub proof fn dispatch_law(module: Module, class: ClassId, name: Seq<char>)
    ensures
        dispatched(module, class, name) is Ok <==> exists|d: ClassId|
            inherits(module, class, d) && #[trigger] declares(module, d, name),
        dispatched(module, class, name) matches Ok(m) ==> exists|d: ClassId|
            inherits(module, class, d) && #[trigger] declares_as(module, d, name, m),
{
    if dispatched(module, class, name) is Ok {
        let m = dispatched(module, class, name)->Ok_0;
        let path = dispatch_is_sound(module, seq![class], seq![], name);
        assert(lineage(module, path) && path[0] == class);
        assert(declares_as(module, path.last(), name, m));
        assert(declares(module, path.last(), name));
    }
    if exists|d: ClassId| inherits(module, class, d) && #[trigger] declares(module, d, name) {
        let d = choose|d: ClassId| inherits(module, class, d) && #[trigger] declares(module, d, name);
        let path = choose|path: Seq<ClassId>|
            #[trigger] lineage(module, path) && path[0] == class && path.last() == d;
        assert(seq![class][0] == path[0]);
        dispatch_is_complete(module, seq![class], seq![], name, path);
        if path.len() > 1 {
            assert(extends(module, path[0], path[0int + 1]));
        }
    }
}

/// What a class declares itself goes before what it inherits: the first instance method
/// of the name is run.
pub proof fn own_method_law(module: Module, class: ClassId, c: ClassDef, name: Seq<char>, i: int)
    requires
        class_of(module, class) == Some(c),
        0 <= i < c.methods@.len(),
        c.methods@[i].1.name@ == name,
        forall|j: int| 0 <= j < i ==> (#[trigger] c.methods@[j]).1.name@ != name,
    ensures
        dispatched(module, class, name) == Ok::<MethodId, crate::vm::world::Fault>(c.methods@[i].0),
{
    own_methods(c.methods@, name, 0);
    let m = method_id_from(c.methods@, name, 0)->Some_0;
    let k = choose|k: int|
        0 <= k < c.methods@.len() && (#[trigger] c.methods@[k]).1.name@ == name && c.methods@[k].0 == m
            && forall|j: int| 0 <= j < k ==> (#[trigger] c.methods@[j]).1.name@ != name;
    if i < k {
        assert(c.methods@[i].1.name@ != name);
    }
    if k < i {
        assert(c.methods@[k].1.name@ != name);
    }
}

/// A search that finds something finds it too where there is more to try behind.
proof fn more_behind(
    module: Module,
    work: Seq<ClassId>,
    more: Seq<ClassId>,
    visited: Seq<ClassId>,
    name: Seq<char>,
)
    requires
        virtual_in(module, work, visited, name) is Some,
    ensures
        virtual_in(module, work + more, visited, name) == virtual_in(module, work, visited, name),
    decreases unvisited(module.classes@, visited, module.classes@.len() as int), work.len(),
{
    let id = work[0];
    let rest = work.subrange(1, work.len() as int);
    let all = work + more;
    assert(all.subrange(1, all.len() as int) =~= rest + more);
    if visited.contains(id) || class_of(module, id) is None {
        more_behind(module, rest, more, visited, name);
    } else {
        let class = class_of(module, id)->Some_0;
        if method_id_from(class.methods@, name, 0) is None {
            class_entry_found(module.classes@, id, 0);
            unvisited_pushed(module.classes@, visited, id, module.classes@.len() as int);
            more_behind(module, parents(class) + rest, more, visited.push(id), name);
            assert(parents(class) + rest + more =~= parents(class) + (rest + more));
        }
    }
}

/// Two lists of visited classes agree on all that can be reached from the classes of a
/// search.
spec fn same_visited(module: Module, work: Seq<ClassId>, u: Seq<ClassId>, v: Seq<ClassId>) -> bool {
    forall|k: int, x: ClassId|
        0 <= k < work.len() && #[trigger] inherits(module, work[k], x) ==> u.contains(x) == v.contains(x)
}

proof fn visited_elsewhere(
    module: Module,
    work: Seq<ClassId>,
    u: Seq<ClassId>,
    v: Seq<ClassId>,
    name: Seq<char>,
)
    requires
        same_visited(module, work, u, v),
    ensures
        virtual_in(module, work, u, name) == virtual_in(module, work, v, name),
    decreases unvisited(module.classes@, u, module.classes@.len() as int), work.len(),
{
    if work.len() > 0 {
        let id = work[0];
        let rest = work.subrange(1, work.len() as int);
        inheritance_laws(module, id, id, id);
        assert(inherits(module, work[0], id));
        assert(u.contains(id) == v.contains(id));
        assert(same_visited(module, rest, u, v)) by {
            assert forall|k: int, x: ClassId|
                0 <= k < rest.len() && #[trigger] inherits(module, rest[k], x) implies u.contains(x)
                == v.contains(x) by {
                assert(inherits(module, work[k + 1], x));
            }
        }
        if u.contains(id) || class_of(module, id) is None {
            visited_elsewhere(module, rest, u, v, name);
        } else {
            let class = class_of(module, id)->Some_0;
            let ps = parents(class);
            if method_id_from(class.methods@, name, 0) is None {
                class_entry_found(module.classes@, id, 0);
                unvisited_pushed(module.classes@, u, id, module.classes@.len() as int);
                let all = ps + rest;
                let (u2, v2) = (u.push(id), v.push(id));
                assert forall|k: int, x: ClassId|
                    0 <= k < all.len() && #[trigger] inherits(module, all[k], x) implies u2.contains(x)
                    == v2.contains(x) by {
                    if k < ps.len() {
                        assert(ps[k] == all[k]);
                        assert(ps.contains(all[k]));
                        extends_parents(module, id, all[k]);
                        inheritance_laws(module, id, all[k], x);
                        assert(inherits(module, work[0], x));
                    } else {
                        assert(inherits(module, rest[k - ps.len()], x));
                    }
                    pushed_alike(u, v, id, x);
                }
                visited_elsewhere(module, all, u2, v2, name);
            }
        }
    }
}

proof fn pushed_alike(u: Seq<ClassId>, v: Seq<ClassId>, id: ClassId, x: ClassId)
    requires
        u.contains(x) == v.contains(x),
    ensures
        u.push(id).contains(x) == v.push(id).contains(x),
{
    pushed_has(u, id, x);
    pushed_has(v, id, x);
}

proof fn pushed_has(u: Seq<ClassId>, id: ClassId, x: ClassId)
    ensures
        u.push(id).contains(x) == (u.contains(x) || x == id),
{
    let p = u.push(id);
    if u.contains(x) {
        let i = choose|i: int| 0 <= i < u.len() && u[i] == x;
        assert(p[i] == x);
    }
    assert(p[u.len() as int] == id);
    if p.contains(x) && x != id {
        let i = choose|i: int| 0 <= i < p.len() && p[i] == x;
        assert(u[i] == x);
    }
}

/// Methods are inherited: where a class declares no instance method of the name itself,
/// and its super class dispatches the name, the class dispatches it to the same method.
/// This leaves out classes that are among their own ancestors.
pub proof fn inherited_method_law(module: Module, class: ClassId, c: ClassDef, base: ClassId, name: Seq<char>)
    requires
        class_of(module, class) == Some(c),
        c.super_class == Some(base),
        !declares(module, class, name),
        !inherits(module, base, class),
        dispatched(module, base, name) is Ok,
    ensures
        dispatched(module, class, name) == dispatched(module, base, name),
{
    own_methods(c.methods@, name, 0);
    let only = seq![class];
    let rest = only.subrange(1, 1);
    let u = seq![].push(class);
    assert(parents(c) + rest =~= seq![base] + c.interfaces@);
    assert forall|k: int, x: ClassId|
        0 <= k < seq![base].len() && #[trigger] inherits(module, seq![base][k], x) implies u.contains(x)
        == Seq::<ClassId>::empty().contains(x) by {
        pushed_has(Seq::<ClassId>::empty(), class, x);
    }
    visited_elsewhere(module, seq![base], u, seq![], name);
    more_behind(module, seq![base], c.interfaces@, u, name);
    reveal_with_fuel(virtual_in, 2);
    assert(virtual_in(module, only, seq![], name) == virtual_in(module, parents(c) + rest, u, name));
}

/// A virtual call on an instance runs what the name dispatches to for the class of the
/// instance, with the operands as they are; the receiver is the first of them.
pub proof fn virtual_call_law(
    module: Module,
    checks: bool,
    s: StoreModel,
    calls: Seq<MethodId>,
    w: Answers,
    name: String,
    args: Seq<Value>,
    r: crate::vm::value::GcRef,
    class: ClassId,
    fields: Seq<Value>,
    m: MethodId,
)
    requires
        args.len() > 0,
        args[0] == Value::Object(r),
        object_at(s.heap.objects, r.0) == Some(ObjectModel::Instance(class, fields)),
        dispatched(module, class, name@) == Ok::<MethodId, crate::vm::world::Fault>(m),
    ensures
        apply_effect(module, checks, s, calls, w, Op::CallVirt(name), args) == (
            Effect::Invoke(m, args),
            s,
        ),
{
}

// ---------------------------------------------------------------------------
// Exceptions
// ---------------------------------------------------------------------------

/// What a clause of a type catches. A clause for a class catches the instances of the
/// class and of the classes that inherit from it, and nothing else; the other types catch
/// the values of their kind.
pub proof fn matching_law(module: Module, h: HeapModel, ty: TypeDesc, v: Value)
    ensures
        ty is GenericParam ==> matches_type(module, h, ty, v),
        ty matches TypeDesc::Class(c, _) ==> (matches_type(module, h, ty, v) <==> (v matches Value::Object(r)
            && (object_at(h.objects, r.0) matches Some(ObjectModel::Instance(d, _)) && inherits(
            module,
            d,
            c,
        )))),
        ty matches TypeDesc::Enum(id) ==> (matches_type(module, h, ty, v) <==> (v matches Value::Enum(r)
            && (object_at(h.objects, r.0) matches Some(ObjectModel::Enum(e, _, _)) && id.0 == e))),
        ty is String ==> matches_type(module, h, ty, v) == (v is String),
        ty is Bool ==> matches_type(module, h, ty, v) == (v is Bool),
        ty is Null ==> matches_type(module, h, ty, v) == (v is Null),
        ty is Tuple ==> matches_type(module, h, ty, v) == (v is Tuple),
        ty is Float32 || ty is Float64 ==> matches_type(module, h, ty, v) == (v is Float),
        ty is Int8 || ty is Int16 || ty is Int32 || ty is Int64 || ty is UInt8 || ty is UInt16 || ty is UInt32
            || ty is UInt64 ==> matches_type(module, h, ty, v) == (v is Int),
{
    if let TypeDesc::Class(c, _) = ty {
        if let Value::Object(r) = v {
            if let Some(ObjectModel::Instance(d, _)) = object_at(h.objects, r.0) {
                instance_law(module, d, c);
            }
        }
    }
}

/// The test for a class is met by the instances of the class and of the classes that
/// inherit from it, and by nothing else.
pub proof fn type_test_law(
    module: Module,
    checks: bool,
    s: StoreModel,
    calls: Seq<MethodId>,
    w: Answers,
    class: ClassId,
    v: Value,
)
    ensures
        apply_effect(module, checks, s, calls, w, Op::IsInst(class), seq![v]) == (
            Effect::Value(
                Value::Bool(
                    v matches Value::Object(r) && (object_at(s.heap.objects, r.0) matches Some(
                        ObjectModel::Instance(d, _),
                    ) && inherits(module, d, class)),
                ),
            ),
            s,
        ),
{
    if let Value::Object(r) = v {
        if let Some(ObjectModel::Instance(d, _)) = object_at(s.heap.objects, r.0) {
            instance_law(module, d, class);
        }
    }
}

proof fn chosen_applies(
    module: Module,
    h: HeapModel,
    hs: Seq<ExceptionHandler>,
    pc: int,
    exc: Value,
    n: int,
)
    requires
        0 <= n <= hs.len(),
    ensures
        handler_upto(module, h, hs, pc, exc, n) matches Some(k) ==> 0 <= k < n && applies(
            module,
            h,
            hs[k],
            pc,
            exc,
        ),
    decreases n,
{
    if n > 0 {
        chosen_applies(module, h, hs, pc, exc, n - 1);
    }
}

/// The handler that is chosen covers the place, and its type, if it has one, catches the
/// exception. Where any handler covers the place and catches the exception, one is
/// chosen, and none of these has a region that starts later; nor is one of these a catch
/// clause for the same region where the chosen one is not.
pub proof fn handler_law(
    module: Module,
    h: HeapModel,
    hs: Seq<ExceptionHandler>,
    pc: int,
    exc: Value,
    j: int,
)
    requires
        0 <= j < hs.len(),
    ensures
        handler_for(module, h, hs, pc, exc) matches Some(k) ==> {
            &&& 0 <= k < hs.len()
            &&& hs[k].start <= pc < hs[k].end
            &&& hs[k].catch_type matches Some(ty) ==> matches_type(module, h, ty, exc)
        },
        hs[j].start <= pc < hs[j].end && (hs[j].catch_type matches Some(ty) ==> matches_type(
            module,
            h,
            ty,
            exc,
        )) ==> {
            &&& handler_for(module, h, hs, pc, exc) matches Some(k)
            &&& hs[j].start <= hs[k].start
            &&& hs[j].start == hs[k].start ==> hs[j].end >= hs[k].end
            &&& hs[j].start == hs[k].start && hs[j].end == hs[k].end && hs[j].catch_type is Some
                ==> hs[k].catch_type is Some
        },
{
    chosen_applies(module, h, hs, pc, exc, hs.len() as int);
    if applies(module, h, hs[j], pc, exc) {
        handler_is_innermost(module, h, hs, pc, exc, j);
    }
}

/// A frame has a handler for an exception.
pub open spec fn has_handler(module: Module, h: HeapModel, f: FrameModel, exc: Value) -> bool {
    exists|j: int|
        0 <= j < handlers_of(module, f).len() && {
            let handler = #[trigger] handlers_of(module, f)[j];
            &&& handler.start <= place_in(f) < handler.end
            &&& handler.catch_type matches Some(ty) ==> matches_type(module, h, ty, exc)
        }
}

/// An exception goes to the innermost frame that has a handler for it: the frames below
/// stay as they are, those above are gone. Where no frame has one, it is not caught, and
/// no frame is left.
pub proof fn raising_law(module: Module, h: HeapModel, frames: Seq<FrameModel>, exc: Value, k: int)
    requires
        -1 <= k < frames.len(),
        k >= 0 ==> has_handler(module, h, frames[k], exc),
        forall|i: int| k < i < frames.len() ==> !has_handler(module, h, #[trigger] frames[i], exc),
    ensures
        ({
            let (o, after) = raised(module, h, frames, exc);
            if k < 0 {
                o == Outcome::Uncaught(exc) && after.len() == 0
            } else {
                &&& o == Outcome::Running
                &&& after.len() == k + 1
                &&& after.drop_last() == frames.subrange(0, k)
                &&& after.last().method == frames[k].method
                &&& exists|j: int|
                    0 <= j < handlers_of(module, frames[k]).len() && {
                        let handler = #[trigger] handlers_of(module, frames[k])[j];
                        &&& after.last().pc == handler.handler_pc
                        &&& handler.start <= place_in(frames[k]) < handler.end
                        &&& handler.catch_type matches Some(ty) ==> matches_type(module, h, ty, exc)
                        &&& handler.catch_type is Some && handler.catch_local < frames[k].locals.len()
                            ==> after.last().locals == frames[k].locals.update(
                            handler.catch_local as int,
                            exc,
                        )
                        &&& handler.catch_type is None ==> after.last().after_finally == Some(exc)
                            && after.last().locals == frames[k].locals
                    }
            }
        }),
    decreases frames.len(),
{
    if frames.len() > 0 {
        let f = frames.last();
        let hs = handlers_of(module, f);
        chosen_applies(module, h, hs, place_in(f), exc, hs.len() as int);
        if k == frames.len() - 1 {
            let j = choose|j: int|
                0 <= j < hs.len() && {
                    let handler = #[trigger] hs[j];
                    &&& handler.start <= place_in(f) < handler.end
                    &&& handler.catch_type matches Some(ty) ==> matches_type(module, h, ty, exc)
                };
            handler_law(module, h, hs, place_in(f), exc, j);
            let i = handler_for(module, h, hs, place_in(f), exc)->Some_0;
            let (o, after) = raised(module, h, frames, exc);
            assert(after.drop_last() =~= frames.subrange(0, k));
            assert(after.last() == handled(f, hs[i], exc));
            assert(hs[i] == handlers_of(module, frames[k])[i]);
        } else {
            assert(!has_handler(module, h, frames[frames.len() - 1], exc));
            if let Some(i) = handler_for(module, h, hs, place_in(f), exc) {
                assert(hs[i] == handlers_of(module, f)[i]);
                assert(has_handler(module, h, f, exc));
            }
            let below = frames.drop_last();
            raising_law(module, h, below, exc, k);
            if k >= 0 {
                assert(below.subrange(0, k) =~= frames.subrange(0, k));
                assert(below[k] == frames[k]);
            }
        }
    }
}

} // verus!
