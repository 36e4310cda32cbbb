//! Lists of named entries: what a table of declarations holds, in the order in
//! which the names came first.

use crate::text::same;
use vstd::prelude::*;

verus! {

/// The entries of a list, by value.
pub open spec fn entries<T: View>(s: Seq<(String, T)>) -> Seq<(Seq<char>, T::V)> {
    Seq::new(s.len(), |i: int| (s[i].0@, s[i].1@))
}

/// The position of the first entry called `k` from `i` on, or the length.
pub open spec fn place<M>(s: Seq<(Seq<char>, M)>, k: Seq<char>, i: int) -> int
    decreases s.len() - i,
{
    if i < 0 || i >= s.len() {
        s.len() as int
    } else if s[i].0 == k {
        i
    } else {
        place(s, k, i + 1)
    }
}

/// What `k` stands for.
pub open spec fn lookup<M>(s: Seq<(Seq<char>, M)>, k: Seq<char>) -> Option<M> {
    let p = place(s, k, 0);
    if 0 <= p < s.len() {
        Some(s[p].1)
    } else {
        None
    }
}

/// The list in which `k` stands for `m`.
pub open spec fn put<M>(s: Seq<(Seq<char>, M)>, k: Seq<char>, m: M) -> Seq<(Seq<char>, M)> {
    let p = place(s, k, 0);
    if 0 <= p < s.len() {
        s.update(p, (k, m))
    } else {
        s.push((k, m))
    }
}

/// The list in which `k` stands for nothing.
pub open spec fn dropped<M>(s: Seq<(Seq<char>, M)>, k: Seq<char>) -> Seq<(Seq<char>, M)> {
    let p = place(s, k, 0);
    if 0 <= p < s.len() {
        s.remove(p)
    } else {
        s
    }
}

/// The list in which `k` stands for `m` again, or for nothing.
pub open spec fn put_back<M>(s: Seq<(Seq<char>, M)>, k: Seq<char>, m: Option<M>) -> Seq<
    (Seq<char>, M),
> {
    match m {
        Some(x) => put(s, k, x),
        None => dropped(s, k),
    }
}

/// The names of a list.
pub open spec fn keys<M>(s: Seq<(Seq<char>, M)>) -> Seq<Seq<char>> {
    Seq::new(s.len(), |i: int| s[i].0)
}

proof fn place_bounds<M>(s: Seq<(Seq<char>, M)>, k: Seq<char>, i: int)
    requires
        0 <= i,
    ensures
        place(s, k, i) < s.len() ==> i <= place(s, k, i) && s[place(s, k, i)].0 == k,
        i <= s.len() ==> i <= place(s, k, i) <= s.len(),
    decreases s.len() - i,
{
    if i < s.len() && s[i].0 != k {
        place_bounds(s, k, i + 1);
    }
}

proof fn place_hit<M>(s: Seq<(Seq<char>, M)>, k: Seq<char>, i: int, p: int)
    requires
        0 <= i <= p < s.len(),
        s[p].0 == k,
    ensures
        i <= place(s, k, i) <= p,
        s[place(s, k, i)].0 == k,
    decreases s.len() - i,
{
    if s[i].0 != k {
        place_hit(s, k, i + 1, p);
    }
}

proof fn place_kept<M>(s: Seq<(Seq<char>, M)>, t: Seq<(Seq<char>, M)>, k: Seq<char>, i: int)
    requires
        0 <= i,
        s.len() == t.len(),
        forall|j: int| 0 <= j < s.len() ==> s[j].0 == t[j].0,
    ensures
        place(s, k, i) == place(t, k, i),
    decreases s.len() - i,
{
    if i < s.len() {
        place_kept(s, t, k, i + 1);
    }
}

proof fn place_pushed<M>(s: Seq<(Seq<char>, M)>, e: (Seq<char>, M), k: Seq<char>, i: int)
    requires
        0 <= i <= s.len(),
    ensures
        place(s, k, i) < s.len() ==> place(s.push(e), k, i) == place(s, k, i),
        place(s, k, i) >= s.len() ==> place(s.push(e), k, i) == (if e.0 == k {
            s.len() as int
        } else {
            (s.len() + 1) as int
        }),
    decreases s.len() - i,
{
    place_bounds(s, k, i);
    if i < s.len() {
        assert(s.push(e)[i] == s[i]);
        if s[i].0 != k {
            place_pushed(s, e, k, i + 1);
        }
    } else {
        assert(s.push(e)[i] == e);
        assert(place(s.push(e), k, i + 1) == s.len() + 1);
    }
}

/// A list gives back what was put into it, and other names are not touched.
pub proof fn put_laws<M>(s: Seq<(Seq<char>, M)>, k: Seq<char>, m: M, other: Seq<char>)
    ensures
        lookup(put(s, k, m), k) == Some(m),
        other != k ==> lookup(put(s, k, m), other) == lookup(s, other),
{
    place_bounds(s, k, 0);
    let p = place(s, k, 0);
    if p < s.len() {
        place_kept(s, put(s, k, m), k, 0);
        place_kept(s, put(s, k, m), other, 0);
        place_bounds(s, other, 0);
    } else {
        place_pushed(s, (k, m), k, 0);
        place_pushed(s, (k, m), other, 0);
        place_bounds(s, other, 0);
    }
}

/// The position of the first entry called `k`.
pub fn find_place<T: View>(v: &Vec<(String, T)>, k: &str) -> (r: usize)
    ensures
        r == place(entries(v@), k@, 0),
        r <= v@.len(),
{
    let mut i: usize = 0;
    while i < v.len()
        invariant
            i <= v@.len(),
            place(entries(v@), k@, 0) == place(entries(v@), k@, i as int),
        decreases v.len() - i,
    {
        if same(v[i].0.as_str(), k) {
            return i;
        }
        i = i + 1;
    }
    i
}

/// What `k` stands for.
pub fn find<'a, T: View>(v: &'a Vec<(String, T)>, k: &str) -> (r: Option<&'a T>)
    ensures
        match r {
            Some(t) => lookup(entries(v@), k@) == Some(t@),
            None => lookup(entries(v@), k@) is None,
        },
{
    let i: usize = find_place(v, k);
    if i < v.len() {
        Some(&v[i].1)
    } else {
        None
    }
}

/// Whether `k` stands for anything.
pub fn holds<T: View>(v: &Vec<(String, T)>, k: &str) -> (r: bool)
    ensures
        r == (lookup(entries(v@), k@) is Some),
{
    find_place(v, k) < v.len()
}

/// Let `k` stand for `t`.
pub fn insert<T: View>(v: &mut Vec<(String, T)>, k: &str, t: T)
    ensures
        entries(final(v)@) == put(entries(old(v)@), k@, t@),
{
    let i: usize = find_place(v, k);
    let ghost before = entries(v@);
    let key: String = crate::text::own(k);
    if i < v.len() {
        v[i] = (key, t);
        assert(entries(v@) =~= before.update(i as int, (k@, t@)));
    } else {
        v.push((key, t));
        assert(entries(v@) =~= before.push((k@, t@)));
    }
}

/// Let `k` stand for nothing.
pub fn remove<T: View>(v: &mut Vec<(String, T)>, k: &str)
    ensures
        entries(final(v)@) == dropped(entries(old(v)@), k@),
{
    let i: usize = find_place(v, k);
    let ghost before = entries(v@);
    if i < v.len() {
        let _ = v.remove(i);
        assert(entries(v@) =~= before.remove(i as int));
    }
}

/// Let `k` stand for `t` again, or for nothing.
pub fn restore<T: View>(v: &mut Vec<(String, T)>, k: &str, t: Option<T>)
    ensures
        entries(final(v)@) == put_back(
            entries(old(v)@),
            k@,
            match t {
                Some(x) => Some(x@),
                None => None,
            },
        ),
{
    match t {
        Some(x) => insert(v, k, x),
        None => remove(v, k),
    }
}

} // verus!
