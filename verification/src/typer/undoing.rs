//! Which names statements assign and declare, and how what a condition told is
//! forgotten again.

use crate::typer::ast::{AssignTarget, CatchClause, Stmt, Ty};
use crate::typer::flow::{
    assigned_by, assigned_by_opt, assigned_catches, assigned_in, assigned_upto, declared_by,
    declared_by_opt, declared_in, declared_upto, fact_name, fact_ty, locals_under, restored,
    saved_locals, Fact,
};
use crate::typer::keyed::{dropped, lookup, place, put, put_back, put_laws};
use vstd::prelude::*;

verus! {

// ---------------------------------------------------------------------------
// Assigned and declared names
// ---------------------------------------------------------------------------

proof fn in_either(a: Seq<Seq<char>>, b: Seq<Seq<char>>, n: Seq<char>)
    ensures
        (a + b).contains(n) <==> a.contains(n) || b.contains(n),
{
    let c = a + b;
    if c.contains(n) {
        let i = choose|i: int| 0 <= i < c.len() && c[i] == n;
        if i < a.len() {
            assert(a[i] == n);
        } else {
            assert(b[i - a.len()] == n);
        }
    }
    if a.contains(n) {
        let i = choose|i: int| 0 <= i < a.len() && a[i] == n;
        assert(c[i] == n);
    }
    if b.contains(n) {
        let i = choose|i: int| 0 <= i < b.len() && b[i] == n;
        assert(c[a.len() + i] == n);
    }
}

proof fn assigned_among(body: Vec<Stmt>, k: int, n: Seq<char>)
    requires
        0 <= k <= body@.len(),
    ensures
        assigned_upto(body, k).contains(n) <==> exists|i: int|
            0 <= i < k && assigned_in(#[trigger] body@[i]).contains(n),
    decreases k,
{
    if k > 0 {
        assigned_among(body, k - 1, n);
        in_either(assigned_upto(body, k - 1), assigned_in(body@[k - 1]), n);
        assert(assigned_upto(body, k) == assigned_upto(body, k - 1) + assigned_in(body@[k - 1]));
    }
}

proof fn declared_among(body: Vec<Stmt>, k: int, n: Seq<char>)
    requires
        0 <= k <= body@.len(),
    ensures
        declared_upto(body, k).contains(n) <==> exists|i: int|
            0 <= i < k && declared_in(#[trigger] body@[i]).contains(n),
    decreases k,
{
    if k > 0 {
        declared_among(body, k - 1, n);
        in_either(declared_upto(body, k - 1), declared_in(body@[k - 1]), n);
        assert(declared_upto(body, k) == declared_upto(body, k - 1) + declared_in(body@[k - 1]));
    }
}

/// A list of statements assigns a local, or declares a name, where one of them does.
pub proof fn list_law(body: Vec<Stmt>, n: Seq<char>)
    ensures
        assigned_by(body).contains(n) <==> exists|i: int|
            0 <= i < body@.len() && assigned_in(#[trigger] body@[i]).contains(n),
        declared_by(body).contains(n) <==> exists|i: int|
            0 <= i < body@.len() && declared_in(#[trigger] body@[i]).contains(n),
{
    assigned_among(body, body@.len() as int, n);
    declared_among(body, body@.len() as int, n);
}

proof fn catches_assign(catches: Vec<CatchClause>, k: int, n: Seq<char>)
    requires
        0 <= k <= catches@.len(),
    ensures
        assigned_catches(catches, k).contains(n) <==> exists|i: int|
            0 <= i < k && assigned_by((#[trigger] catches@[i]).body).contains(n),
    decreases k,
{
    if k > 0 {
        catches_assign(catches, k - 1, n);
        in_either(assigned_catches(catches, k - 1), assigned_by(catches@[k - 1].body), n);
        assert(assigned_catches(catches, k) == assigned_catches(catches, k - 1) + assigned_by(
            catches@[k - 1].body,
        ));
    }
}

/// A statement assigns the local that it assigns itself, and whatever the statements
/// inside it assign, in every branch, handler and loop.
pub proof fn assigning_law(stmt: Stmt, n: Seq<char>)
    ensures
        stmt matches Stmt::Assign(target, _) ==> (assigned_in(stmt).contains(n) <==> (target
            matches AssignTarget::Local(name) && name@ == n)),
        stmt matches Stmt::If(_, a, b) ==> (assigned_in(stmt).contains(n) <==> assigned_by(
            a,
        ).contains(n) || (b is Some && assigned_by(b->0).contains(n))),
        stmt matches Stmt::IfLet(_, _, a, b) ==> (assigned_in(stmt).contains(n) <==> assigned_by(
            a,
        ).contains(n) || (b is Some && assigned_by(b->0).contains(n))),
        stmt matches Stmt::While { body, .. } ==> (assigned_in(stmt).contains(n) <==> assigned_by(
            body,
        ).contains(n)),
        stmt matches Stmt::DoWhile { body, .. } ==> (assigned_in(stmt).contains(n) <==> assigned_by(
            body,
        ).contains(n)),
        stmt matches Stmt::Block(body) ==> (assigned_in(stmt).contains(n) <==> assigned_by(
            body,
        ).contains(n)),
        stmt matches Stmt::ForIn { body, .. } ==> (assigned_in(stmt).contains(n) <==> assigned_by(
            body,
        ).contains(n)),
        stmt matches Stmt::Using { body, .. } ==> (assigned_in(stmt).contains(n) <==> assigned_by(
            body,
        ).contains(n)),
        stmt matches Stmt::For { init, update, body, .. } ==> (assigned_in(stmt).contains(n)
            <==> assigned_in(*init).contains(n) || assigned_in(*update).contains(n) || assigned_by(
            body,
        ).contains(n)),
        stmt matches Stmt::Try { try_body, catches, finally_body } ==> (assigned_in(stmt).contains(n)
            <==> assigned_by(try_body).contains(n) || (exists|i: int|
            0 <= i < catches@.len() && assigned_by((#[trigger] catches@[i]).body).contains(n)) || (
        finally_body is Some && assigned_by(finally_body->0).contains(n))),
{
    match stmt {
        Stmt::Assign(target, _) => {
            if target is Local {
                let name = target->Local_0;
                assert(seq![name@][0] == name@);
            }
        },
        Stmt::If(_, a, b) => {
            in_either(assigned_by(a), assigned_by_opt(b), n);
        },
        Stmt::IfLet(_, _, a, b) => {
            in_either(assigned_by(a), assigned_by_opt(b), n);
        },
        Stmt::For { label: _, init, condition: _, update, body } => {
            in_either(assigned_in(*init), assigned_in(*update), n);
            in_either(assigned_in(*init) + assigned_in(*update), assigned_by(body), n);
        },
        Stmt::Try { try_body, catches, finally_body } => {
            let cs = assigned_catches(catches, catches@.len() as int);
            catches_assign(catches, catches@.len() as int, n);
            in_either(assigned_by(try_body), cs, n);
            in_either(assigned_by(try_body) + cs, assigned_by_opt(finally_body), n);
        },
        _ => {},
    }
}

/// A statement declares its own names, and those that the statements inside it
/// declare.
pub proof fn declaring_law(stmt: Stmt, n: Seq<char>)
    ensures
        stmt matches Stmt::VarDecl(_, name, _) ==> (declared_in(stmt).contains(n) <==> name@ == n),
        stmt matches Stmt::TupleDecl(names, _) ==> (declared_in(stmt).contains(n) <==> exists|i: int|
            0 <= i < names@.len() && (#[trigger] names@[i])@ == n),
        stmt matches Stmt::If(_, a, b) ==> (declared_in(stmt).contains(n) <==> declared_by(
            a,
        ).contains(n) || (b is Some && declared_by(b->0).contains(n))),
        stmt matches Stmt::While { body, .. } ==> (declared_in(stmt).contains(n) <==> declared_by(
            body,
        ).contains(n)),
        stmt matches Stmt::Block(body) ==> (declared_in(stmt).contains(n) <==> declared_by(
            body,
        ).contains(n)),
        stmt matches Stmt::ForIn { var_name, body, .. } ==> (declared_in(stmt).contains(n)
            <==> var_name@ == n || declared_by(body).contains(n)),
        stmt matches Stmt::Using { name, body, .. } ==> (declared_in(stmt).contains(n) <==> (name
            is Some && (name->0)@ == n) || declared_by(body).contains(n)),
        stmt matches Stmt::For { init, update, body, .. } ==> (declared_in(stmt).contains(n)
            <==> declared_in(*init).contains(n) || declared_in(*update).contains(n) || declared_by(
            body,
        ).contains(n)),
{
    match stmt {
        Stmt::VarDecl(_, name, _) => {
            assert(seq![name@][0] == name@);
        },
        Stmt::TupleDecl(names, _) => {
            let ts = crate::typer::ast::texts(names@);
            if ts.contains(n) {
                let i = choose|i: int| 0 <= i < ts.len() && ts[i] == n;
                assert(names@[i]@ == n);
            }
            if exists|i: int| 0 <= i < names@.len() && (#[trigger] names@[i])@ == n {
                let i = choose|i: int| 0 <= i < names@.len() && (#[trigger] names@[i])@ == n;
                assert(ts[i] == n);
            }
        },
        Stmt::If(_, a, b) => {
            in_either(declared_by(a), declared_by_opt(b), n);
        },
        Stmt::ForIn { label: _, var_type: _, var_name, iterable: _, body } => {
            assert(seq![var_name@][0] == var_name@);
            in_either(seq![var_name@], declared_by(body), n);
        },
        Stmt::Using { resource_ty: _, name, expr: _, body } => {
            if name is Some {
                assert(seq![(name->0)@][0] == (name->0)@);
                in_either(seq![(name->0)@], declared_by(body), n);
            }
        },
        Stmt::For { label: _, init, condition: _, update, body } => {
            in_either(declared_in(*init), declared_in(*update), n);
            in_either(declared_in(*init) + declared_in(*update), declared_by(body), n);
        },
        _ => {},
    }
}

// ---------------------------------------------------------------------------
// Forgetting
// ---------------------------------------------------------------------------

/// No name stands twice.
pub open spec fn once(s: Seq<(Seq<char>, Ty)>) -> bool {
    forall|i: int, j: int| 0 <= i < j < s.len() ==> (#[trigger] s[i]).0 != (#[trigger] s[j]).0
}

proof fn place_is(s: Seq<(Seq<char>, Ty)>, k: Seq<char>, i: int)
    requires
        0 <= i <= s.len(),
    ensures
        i <= place(s, k, i) <= s.len(),
        place(s, k, i) < s.len() ==> s[place(s, k, i)].0 == k,
        forall|j: int| i <= j < place(s, k, i) ==> (#[trigger] s[j]).0 != k,
    decreases s.len() - i,
{
    if i < s.len() && s[i].0 != k {
        place_is(s, k, i + 1);
    }
}

proof fn found_once(s: Seq<(Seq<char>, Ty)>, k: Seq<char>, p: int)
    requires
        once(s),
        0 <= p < s.len(),
        s[p].0 == k,
    ensures
        lookup(s, k) == Some(s[p].1),
{
    place_is(s, k, 0);
}

proof fn not_found(s: Seq<(Seq<char>, Ty)>, k: Seq<char>)
    requires
        forall|j: int| 0 <= j < s.len() ==> (#[trigger] s[j]).0 != k,
    ensures
        lookup(s, k) is None,
{
    place_is(s, k, 0);
}

proof fn put_once(s: Seq<(Seq<char>, Ty)>, k: Seq<char>, m: Ty)
    requires
        once(s),
    ensures
        once(put(s, k, m)),
{
    place_is(s, k, 0);
}

proof fn dropped_once(s: Seq<(Seq<char>, Ty)>, k: Seq<char>, other: Seq<char>)
    requires
        once(s),
    ensures
        once(dropped(s, k)),
        lookup(dropped(s, k), k) is None,
        other != k ==> lookup(dropped(s, k), other) == lookup(s, other),
{
    place_is(s, k, 0);
    place_is(s, other, 0);
    let p = place(s, k, 0);
    let d = dropped(s, k);
    if p < s.len() {
        assert forall|j: int| 0 <= j < d.len() implies (#[trigger] d[j]) == if j < p {
            s[j]
        } else {
            s[j + 1]
        } by {}
        assert forall|j: int| 0 <= j < d.len() implies (#[trigger] d[j]).0 != k by {
            if j < p {
                assert(s[j].0 != s[p].0);
            } else {
                assert(s[p].0 != s[j + 1].0);
            }
        }
        assert forall|i: int, j: int| 0 <= i < j < d.len() implies (#[trigger] d[i]).0 != (
        #[trigger] d[j]).0 by {
            let a = if i < p {
                i
            } else {
                i + 1
            };
            let b = if j < p {
                j
            } else {
                j + 1
            };
            assert(s[a].0 != s[b].0);
        }
        not_found(d, k);
        if other != k {
            let q = place(s, other, 0);
            if q < s.len() {
                let r = if q < p {
                    q
                } else {
                    q - 1
                };
                assert(d[r] == s[q]);
                found_once(d, other, r);
            } else {
                assert forall|j: int| 0 <= j < d.len() implies (#[trigger] d[j]).0 != other by {
                    if j < p {
                        assert(s[j].0 != other);
                    } else {
                        assert(s[j + 1].0 != other);
                    }
                }
                not_found(d, other);
            }
        }
    } else {
        not_found(s, k);
    }
}

proof fn back_once(s: Seq<(Seq<char>, Ty)>, k: Seq<char>, m: Option<Ty>, other: Seq<char>)
    requires
        once(s),
    ensures
        once(put_back(s, k, m)),
        lookup(put_back(s, k, m), k) == m,
        other != k ==> lookup(put_back(s, k, m), other) == lookup(s, other),
{
    match m {
        Some(x) => {
            put_once(s, k, x);
            put_laws(s, k, x, other);
        },
        None => {
            dropped_once(s, k, other);
        },
    }
}

proof fn under_once(locals: Seq<(Seq<char>, Ty)>, fs: Seq<Fact>, n: int)
    requires
        once(locals),
        0 <= n <= fs.len(),
    ensures
        once(locals_under(locals, fs, n)),
        saved_locals(locals, fs, n).len() == n,
    decreases n,
{
    if n > 0 {
        under_once(locals, fs, n - 1);
        put_once(locals_under(locals, fs, n - 1), fact_name(fs[n - 1]), fact_ty(fs[n - 1]));
    }
}

proof fn restored_is(
    now: Seq<(Seq<char>, Ty)>,
    locals: Seq<(Seq<char>, Ty)>,
    fs: Seq<Fact>,
    saved: Seq<(Seq<char>, Option<Ty>)>,
    n: int,
    name: Seq<char>,
)
    requires
        once(locals),
        once(now),
        0 <= n <= fs.len(),
        n <= saved.len(),
        forall|i: int| 0 <= i < n ==> #[trigger] saved[i] == saved_locals(locals, fs, n)[i],
        forall|m: Seq<char>| #[trigger] lookup(now, m) == lookup(locals_under(locals, fs, n), m),
    ensures
        lookup(restored(now, saved, n), name) == lookup(locals, name),
    decreases n,
{
    if n > 0 {
        let before = locals_under(locals, fs, n - 1);
        let k = fact_name(fs[n - 1]);
        let ty = fact_ty(fs[n - 1]);
        under_once(locals, fs, n);
        under_once(locals, fs, n - 1);
        assert(saved[n - 1] == saved_locals(locals, fs, n)[n - 1]);
        assert(saved[n - 1] == (k, lookup(before, k)));
        let next = put_back(now, k, lookup(before, k));
        back_once(now, k, lookup(before, k), k);
        assert forall|m: Seq<char>| #[trigger] lookup(next, m) == lookup(before, m) by {
            back_once(now, k, lookup(before, k), m);
            put_laws(before, k, ty, m);
            assert(lookup(now, m) == lookup(locals_under(locals, fs, n), m));
        }
        assert forall|i: int| 0 <= i < n - 1 implies #[trigger] saved[i] == saved_locals(
            locals,
            fs,
            n - 1,
        )[i] by {
            assert(saved[i] == saved_locals(locals, fs, n)[i]);
        }
        restored_is(next, locals, fs, saved, n - 1, name);
    }
}

/// Behind a branch every local is again what it was before it: what the condition
/// told is forgotten.
pub proof fn forgetting_law(locals: Seq<(Seq<char>, Ty)>, fs: Seq<Fact>, name: Seq<char>)
    requires
        once(locals),
    ensures
        lookup(
            restored(
                locals_under(locals, fs, fs.len() as int),
                saved_locals(locals, fs, fs.len() as int),
                fs.len() as int,
            ),
            name,
        ) == lookup(locals, name),
{
    let n = fs.len() as int;
    under_once(locals, fs, n);
    restored_is(
        locals_under(locals, fs, n),
        locals,
        fs,
        saved_locals(locals, fs, n),
        n,
        name,
    );
}

} // verus!
