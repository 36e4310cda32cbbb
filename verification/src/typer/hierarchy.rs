//! Walking the class hierarchy.

use crate::text::same;
use crate::typer::ast::{has_text, texts, Ty, Type, Visibility};
use crate::typer::info::{
    ClassInfo, ClassModel, MethodInfo, MethodModel, PropertyInfo, PropertyModel, Tables,
};
use crate::typer::keyed::{entries, find, find_place, keys, lookup, place};
use vstd::prelude::*;

verus! {

// ---------------------------------------------------------------------------
// The chain of super classes
// ---------------------------------------------------------------------------

/// The positions of the class called `name`, of its super class, and so on, at
/// most `left` of them.
pub open spec fn chain(cs: Seq<(Seq<char>, ClassModel)>, name: Seq<char>, left: nat) -> Seq<int>
    decreases left,
{
    let p = place(cs, name, 0);
    if left == 0 || !(0 <= p < cs.len()) {
        seq![]
    } else {
        match cs[p].1.super_class {
            None => seq![p],
            Some(s) => seq![p] + chain(cs, s, (left - 1) as nat),
        }
    }
}

/// The chain of super classes, starting with the class itself. No chain without
/// a cycle is longer than the number of classes.
pub open spec fn supers(cs: Seq<(Seq<char>, ClassModel)>, name: Seq<char>) -> Seq<int> {
    chain(cs, name, cs.len())
}

/// Positions as numbers.
pub open spec fn ints(s: Seq<usize>) -> Seq<int> {
    Seq::new(s.len(), |i: int| s[i] as int)
}

/// The positions of a chain are positions of classes.
pub proof fn chain_bounds(cs: Seq<(Seq<char>, ClassModel)>, name: Seq<char>, left: nat)
    ensures
        forall|i: int|
            0 <= i < chain(cs, name, left).len() ==> 0 <= #[trigger] chain(cs, name, left)[i]
                < cs.len(),
        chain(cs, name, left).len() <= left,
    decreases left,
{
    let p = place(cs, name, 0);
    if left > 0 && 0 <= p < cs.len() {
        if let Some(s) = cs[p].1.super_class {
            chain_bounds(cs, s, (left - 1) as nat);
        }
    }
}

impl Tables {
    /// The chain of super classes, starting with the class itself.
    pub fn super_chain(&self, name: &str) -> (r: Vec<usize>)
        ensures
            ints(r@) == supers(self@.classes, name@),
            forall|i: int| 0 <= i < r@.len() ==> (#[trigger] r@[i]) < self.classes@.len(),
    {
        let mut out: Vec<usize> = Vec::new();
        let mut left: usize = self.classes.len();
        let mut cur: usize = find_place(&self.classes, name);
        let ghost cs = self@.classes;
        let ghost mut at: Seq<char> = name@;
        assert(ints(out@) =~= seq![]);
        while left > 0 && cur < self.classes.len()
            invariant
                left <= self.classes@.len(),
                cs == self@.classes,
                cur == place(cs, at, 0),
                supers(cs, name@) == ints(out@) + chain(cs, at, left as nat),
                forall|i: int| 0 <= i < out@.len() ==> (#[trigger] out@[i]) < self.classes@.len(),
            ensures
                supers(cs, name@) == ints(out@),
            decreases left,
        {
            let ghost before = ints(out@);
            out.push(cur);
            left = left - 1;
            assert(ints(out@) =~= before.push(cur as int));
            match &self.classes[cur].1.super_class {
                None => {
                    assert(before + seq![cur as int] =~= ints(out@));
                    return out;
                },
                Some(s) => {
                    proof {
                        assert(cs[cur as int].1.super_class == Some(s@));
                        assert(before + (seq![cur as int] + chain(cs, s@, left as nat)) =~= ints(
                            out@,
                        ) + chain(cs, s@, left as nat));
                        at = s@;
                    }
                    cur = find_place(&self.classes, s.as_str());
                },
            }
        }
        out
    }
}

// ---------------------------------------------------------------------------
// Members along the chain
// ---------------------------------------------------------------------------

/// Visibility by membership in the lists of restricted names.
pub open spec fn listed_visibility(
    name: Seq<char>,
    private: Seq<Seq<char>>,
    protected: Seq<Seq<char>>,
    internal: Seq<Seq<char>>,
) -> Visibility {
    if private.contains(name) {
        Visibility::Private
    } else if protected.contains(name) {
        Visibility::Protected
    } else if internal.contains(name) {
        Visibility::Internal
    } else {
        Visibility::Public
    }
}

/// An instance field of a class itself.
pub open spec fn own_field(c: ClassModel, field: Seq<char>) -> Option<(Ty, Visibility)> {
    match lookup(c.instance_fields, field) {
        Some(t) => Some(
            (
                t,
                listed_visibility(field, c.private_fields, c.protected_fields, c.internal_fields),
            ),
        ),
        None => None,
    }
}

/// A static field of a class itself.
pub open spec fn own_static_field(c: ClassModel, field: Seq<char>) -> Option<(Ty, Visibility)> {
    match lookup(c.static_fields, field) {
        Some(t) => Some(
            (
                t,
                listed_visibility(
                    field,
                    c.private_static_fields,
                    c.protected_static_fields,
                    c.internal_static_fields,
                ),
            ),
        ),
        None => None,
    }
}

/// The first of the classes in `ps` from `i` on for which `f` gives something,
/// with what it gives.
pub open spec fn first_in<T>(
    cs: Seq<(Seq<char>, ClassModel)>,
    ps: Seq<int>,
    i: int,
    f: spec_fn(ClassModel) -> Option<T>,
) -> Option<(Seq<char>, T)>
    decreases ps.len() - i,
{
    if i < 0 || i >= ps.len() {
        None
    } else {
        match f(cs[ps[i]].1) {
            Some(t) => Some((cs[ps[i]].0, t)),
            None => first_in(cs, ps, i + 1, f),
        }
    }
}

/// The instance field that a class has or inherits: declaring class, type,
/// visibility.
pub open spec fn instance_field(
    cs: Seq<(Seq<char>, ClassModel)>,
    class: Seq<char>,
    field: Seq<char>,
) -> Option<(Seq<char>, (Ty, Visibility))> {
    first_in(cs, supers(cs, class), 0, |c: ClassModel| own_field(c, field))
}

/// The static field that a class has or inherits.
pub open spec fn static_field(
    cs: Seq<(Seq<char>, ClassModel)>,
    class: Seq<char>,
    field: Seq<char>,
) -> Option<(Seq<char>, (Ty, Visibility))> {
    first_in(cs, supers(cs, class), 0, |c: ClassModel| own_static_field(c, field))
}

/// The instance property that a class has or inherits.
pub open spec fn instance_property(
    cs: Seq<(Seq<char>, ClassModel)>,
    class: Seq<char>,
    name: Seq<char>,
) -> Option<(Seq<char>, PropertyModel)> {
    first_in(cs, supers(cs, class), 0, |c: ClassModel| lookup(c.properties, name))
}

/// The static property that a class has or inherits.
pub open spec fn static_property(
    cs: Seq<(Seq<char>, ClassModel)>,
    class: Seq<char>,
    name: Seq<char>,
) -> Option<(Seq<char>, PropertyModel)> {
    first_in(cs, supers(cs, class), 0, |c: ClassModel| lookup(c.static_properties, name))
}

/// The static method that a class has or inherits.
pub open spec fn static_method(
    cs: Seq<(Seq<char>, ClassModel)>,
    class: Seq<char>,
    name: Seq<char>,
) -> Option<(Seq<char>, MethodModel)> {
    first_in(cs, supers(cs, class), 0, |c: ClassModel| lookup(c.static_methods, name))
}

/// The instance method that a class has or inherits from a super class.
pub open spec fn class_method(
    cs: Seq<(Seq<char>, ClassModel)>,
    class: Seq<char>,
    name: Seq<char>,
) -> Option<(Seq<char>, MethodModel)> {
    first_in(cs, supers(cs, class), 0, |c: ClassModel| lookup(c.methods, name))
}

/// The names of the fields of the classes in `ps` from `i` on.
pub open spec fn field_names(cs: Seq<(Seq<char>, ClassModel)>, ps: Seq<int>, n: int) -> Seq<
    Seq<char>,
>
    decreases n,
{
    if n <= 0 {
        seq![]
    } else {
        field_names(cs, ps, n - 1) + keys(cs[ps[n - 1]].1.instance_fields)
    }
}

/// The names of the methods of the classes in `ps` from `i` on.
pub open spec fn method_names(
    cs: Seq<(Seq<char>, ClassModel)>,
    ps: Seq<int>,
    n: int,
    is_static: bool,
) -> Seq<Seq<char>>
    decreases n,
{
    if n <= 0 {
        seq![]
    } else {
        method_names(cs, ps, n - 1, is_static) + (if is_static {
            keys(cs[ps[n - 1]].1.static_methods)
        } else {
            keys(cs[ps[n - 1]].1.methods)
        })
    }
}

/// Appends the names of a list.
pub fn push_keys<T: View>(out: &mut Vec<String>, v: &Vec<(String, T)>)
    ensures
        texts(final(out)@) == texts(old(out)@) + keys(entries(v@)),
{
    let ghost before = texts(out@);
    let mut i: usize = 0;
    assert(keys(entries(v@)).subrange(0, 0) =~= seq![]);
    while i < v.len()
        invariant
            i <= v@.len(),
            texts(out@) == before + keys(entries(v@)).subrange(0, i as int),
        decreases v.len() - i,
    {
        let ghost mid = out@;
        out.push(v[i].0.clone());
        assert(texts(out@) =~= texts(mid).push(v@[i as int].0@));
        assert(keys(entries(v@)).subrange(0, i + 1) =~= keys(entries(v@)).subrange(
            0,
            i as int,
        ).push(v@[i as int].0@));
        assert(texts(out@) =~= before + keys(entries(v@)).subrange(0, i + 1));
        i = i + 1;
    }
    assert(keys(entries(v@)).subrange(0, i as int) =~= keys(entries(v@)));
}

/// A found field by value.
pub open spec fn found_field(r: Option<(&str, &Type, Visibility)>) -> Option<
    (Seq<char>, (Ty, Visibility)),
> {
    match r {
        Some((d, t, v)) => Some((d@, (t@, v))),
        None => None,
    }
}

/// A found member by value.
pub open spec fn found<T: View>(r: Option<(&str, &T)>) -> Option<(Seq<char>, T::V)> {
    match r {
        Some((d, m)) => Some((d@, m@)),
        None => None,
    }
}

fn visibility_in(
    name: &str,
    private: &Vec<String>,
    protected: &Vec<String>,
    internal: &Vec<String>,
) -> (r: Visibility)
    ensures
        r == listed_visibility(name@, texts(private@), texts(protected@), texts(internal@)),
{
    if has_text(private, name) {
        Visibility::Private
    } else if has_text(protected, name) {
        Visibility::Protected
    } else if has_text(internal, name) {
        Visibility::Internal
    } else {
        Visibility::Public
    }
}

impl Tables {
    /// Look up an instance field starting at `class_name`, walking the super chain.
    /// Returns (declaring class, type, visibility).
    pub fn find_instance_field<'a>(&'a self, class_name: &str, field: &str) -> (r: Option<
        (&'a str, &'a Type, Visibility),
    >)
        ensures
            found_field(r) == instance_field(self@.classes, class_name@, field@),
    {
        let ps: Vec<usize> = self.super_chain(class_name);
        let ghost f = |c: ClassModel| own_field(c, field@);
        let mut i: usize = 0;
        while i < ps.len()
            invariant
                i <= ps@.len(),
                f == (|c: ClassModel| own_field(c, field@)),
                forall|j: int| 0 <= j < ps@.len() ==> (#[trigger] ps@[j]) < self.classes@.len(),
                first_in(self@.classes, ints(ps@), 0, f) == first_in(
                    self@.classes,
                    ints(ps@),
                    i as int,
                    f,
                ),
                ints(ps@) == supers(self@.classes, class_name@),
            decreases ps.len() - i,
        {
            let entry: &(String, ClassInfo) = &self.classes[ps[i]];
            let info: &ClassInfo = &entry.1;
            if let Some(ty) = find(&info.instance_fields, field) {
                let v: Visibility = visibility_in(
                    field,
                    &info.private_fields,
                    &info.protected_fields,
                    &info.internal_fields,
                );
                assert(f(info@) == Some((ty@, v)));
                return Some((entry.0.as_str(), ty, v));
            }
            assert(f(info@) is None);
            i = i + 1;
        }
        None
    }

    /// Look up a static field starting at `class_name`, walking the super chain.
    /// Returns (declaring class, type, visibility).
    pub fn find_static_field<'a>(&'a self, class_name: &str, field: &str) -> (r: Option<
        (&'a str, &'a Type, Visibility),
    >)
        ensures
            found_field(r) == static_field(self@.classes, class_name@, field@),
    {
        let ps: Vec<usize> = self.super_chain(class_name);
        let ghost f = |c: ClassModel| own_static_field(c, field@);
        let mut i: usize = 0;
        while i < ps.len()
            invariant
                i <= ps@.len(),
                f == (|c: ClassModel| own_static_field(c, field@)),
                forall|j: int| 0 <= j < ps@.len() ==> (#[trigger] ps@[j]) < self.classes@.len(),
                first_in(self@.classes, ints(ps@), 0, f) == first_in(
                    self@.classes,
                    ints(ps@),
                    i as int,
                    f,
                ),
                ints(ps@) == supers(self@.classes, class_name@),
            decreases ps.len() - i,
        {
            let entry: &(String, ClassInfo) = &self.classes[ps[i]];
            let info: &ClassInfo = &entry.1;
            if let Some(ty) = find(&info.static_fields, field) {
                let v: Visibility = visibility_in(
                    field,
                    &info.private_static_fields,
                    &info.protected_static_fields,
                    &info.internal_static_fields,
                );
                assert(f(info@) == Some((ty@, v)));
                return Some((entry.0.as_str(), ty, v));
            }
            assert(f(info@) is None);
            i = i + 1;
        }
        None
    }

    /// Look up an instance property starting at `class_name`, walking the super chain.
    /// Returns (declaring class, property info).
    pub fn find_instance_property<'a>(&'a self, class_name: &str, name: &str) -> (r: Option<
        (&'a str, &'a PropertyInfo),
    >)
        ensures
            found(r) == instance_property(self@.classes, class_name@, name@),
    {
        let ps: Vec<usize> = self.super_chain(class_name);
        let ghost f = |c: ClassModel| lookup(c.properties, name@);
        let mut i: usize = 0;
        while i < ps.len()
            invariant
                i <= ps@.len(),
                f == (|c: ClassModel| lookup(c.properties, name@)),
                forall|j: int| 0 <= j < ps@.len() ==> (#[trigger] ps@[j]) < self.classes@.len(),
                first_in(self@.classes, ints(ps@), 0, f) == first_in(
                    self@.classes,
                    ints(ps@),
                    i as int,
                    f,
                ),
                ints(ps@) == supers(self@.classes, class_name@),
            decreases ps.len() - i,
        {
            let entry: &(String, ClassInfo) = &self.classes[ps[i]];
            if let Some(p) = find(&entry.1.properties, name) {
                assert(f(entry.1@) == Some(p@));
                return Some((entry.0.as_str(), p));
            }
            assert(f(entry.1@) is None);
            i = i + 1;
        }
        None
    }

    /// Look up a static property starting at `class_name`, walking the super chain.
    /// Returns (declaring class, property info).
    pub fn find_static_property<'a>(&'a self, class_name: &str, name: &str) -> (r: Option<
        (&'a str, &'a PropertyInfo),
    >)
        ensures
            found(r) == static_property(self@.classes, class_name@, name@),
    {
        let ps: Vec<usize> = self.super_chain(class_name);
        let ghost f = |c: ClassModel| lookup(c.static_properties, name@);
        let mut i: usize = 0;
        while i < ps.len()
            invariant
                i <= ps@.len(),
                f == (|c: ClassModel| lookup(c.static_properties, name@)),
                forall|j: int| 0 <= j < ps@.len() ==> (#[trigger] ps@[j]) < self.classes@.len(),
                first_in(self@.classes, ints(ps@), 0, f) == first_in(
                    self@.classes,
                    ints(ps@),
                    i as int,
                    f,
                ),
                ints(ps@) == supers(self@.classes, class_name@),
            decreases ps.len() - i,
        {
            let entry: &(String, ClassInfo) = &self.classes[ps[i]];
            if let Some(p) = find(&entry.1.static_properties, name) {
                assert(f(entry.1@) == Some(p@));
                return Some((entry.0.as_str(), p));
            }
            assert(f(entry.1@) is None);
            i = i + 1;
        }
        None
    }

    /// Look up a static method starting at `class_name`, walking the super chain.
    pub fn find_static_method<'a>(&'a self, class_name: &str, method: &str) -> (r: Option<
        (&'a str, &'a MethodInfo),
    >)
        ensures
            found(r) == static_method(self@.classes, class_name@, method@),
    {
        let ps: Vec<usize> = self.super_chain(class_name);
        let ghost f = |c: ClassModel| lookup(c.static_methods, method@);
        let mut i: usize = 0;
        while i < ps.len()
            invariant
                i <= ps@.len(),
                f == (|c: ClassModel| lookup(c.static_methods, method@)),
                forall|j: int| 0 <= j < ps@.len() ==> (#[trigger] ps@[j]) < self.classes@.len(),
                first_in(self@.classes, ints(ps@), 0, f) == first_in(
                    self@.classes,
                    ints(ps@),
                    i as int,
                    f,
                ),
                ints(ps@) == supers(self@.classes, class_name@),
            decreases ps.len() - i,
        {
            let entry: &(String, ClassInfo) = &self.classes[ps[i]];
            if let Some(m) = find(&entry.1.static_methods, method) {
                assert(f(entry.1@) == Some(m@));
                return Some((entry.0.as_str(), m));
            }
            assert(f(entry.1@) is None);
            i = i + 1;
        }
        None
    }

    /// Look up an instance method along the super chain only (nearest wins).
    pub fn find_class_method<'a>(&'a self, class_name: &str, method: &str) -> (r: Option<
        (&'a str, &'a MethodInfo),
    >)
        ensures
            found(r) == class_method(self@.classes, class_name@, method@),
    {
        let ps: Vec<usize> = self.super_chain(class_name);
        let ghost f = |c: ClassModel| lookup(c.methods, method@);
        let mut i: usize = 0;
        while i < ps.len()
            invariant
                i <= ps@.len(),
                f == (|c: ClassModel| lookup(c.methods, method@)),
                forall|j: int| 0 <= j < ps@.len() ==> (#[trigger] ps@[j]) < self.classes@.len(),
                first_in(self@.classes, ints(ps@), 0, f) == first_in(
                    self@.classes,
                    ints(ps@),
                    i as int,
                    f,
                ),
                ints(ps@) == supers(self@.classes, class_name@),
            decreases ps.len() - i,
        {
            let entry: &(String, ClassInfo) = &self.classes[ps[i]];
            if let Some(m) = find(&entry.1.methods, method) {
                assert(f(entry.1@) == Some(m@));
                return Some((entry.0.as_str(), m));
            }
            assert(f(entry.1@) is None);
            i = i + 1;
        }
        None
    }

    /// Field names visible on `class_name` (own + inherited), for
    /// did-you-mean suggestions.
    pub fn field_candidates(&self, class_name: &str) -> (r: Vec<String>)
        ensures
            texts(r@) == field_names(
                self@.classes,
                supers(self@.classes, class_name@),
                supers(self@.classes, class_name@).len() as int,
            ),
    {
        let ps: Vec<usize> = self.super_chain(class_name);
        let mut out: Vec<String> = Vec::new();
        let mut i: usize = 0;
        assert(texts(out@) =~= seq![]);
        while i < ps.len()
            invariant
                i <= ps@.len(),
                forall|j: int| 0 <= j < ps@.len() ==> (#[trigger] ps@[j]) < self.classes@.len(),
                texts(out@) == field_names(self@.classes, ints(ps@), i as int),
            decreases ps.len() - i,
        {
            push_keys(&mut out, &self.classes[ps[i]].1.instance_fields);
            i = i + 1;
        }
        out
    }

    /// Method names visible on `class_name` (own + inherited), for
    /// did-you-mean suggestions.
    pub fn method_candidates(&self, class_name: &str, is_static: bool) -> (r: Vec<String>)
        ensures
            texts(r@) == method_names(
                self@.classes,
                supers(self@.classes, class_name@),
                supers(self@.classes, class_name@).len() as int,
                is_static,
            ),
    {
        let ps: Vec<usize> = self.super_chain(class_name);
        let mut out: Vec<String> = Vec::new();
        let mut i: usize = 0;
        assert(texts(out@) =~= seq![]);
        while i < ps.len()
            invariant
                i <= ps@.len(),
                forall|j: int| 0 <= j < ps@.len() ==> (#[trigger] ps@[j]) < self.classes@.len(),
                texts(out@) == method_names(self@.classes, ints(ps@), i as int, is_static),
            decreases ps.len() - i,
        {
            if is_static {
                push_keys(&mut out, &self.classes[ps[i]].1.static_methods);
            } else {
                push_keys(&mut out, &self.classes[ps[i]].1.methods);
            }
            i = i + 1;
        }
        out
    }
}

// ---------------------------------------------------------------------------
// All ancestors
// ---------------------------------------------------------------------------

/// In which order the bases of a class are visited.
#[derive(Debug, Clone, Copy, PartialEq, Eq, Structural)]
pub enum Walk {
    /// The super class, then the interfaces.
    Up,
    /// The interfaces from the last to the first, then the super class.
    Down,
    /// The interfaces only.
    Interfaces,
}

/// The bases of a class in the order in which they are visited.
pub open spec fn bases(c: ClassModel, walk: Walk) -> Seq<Seq<char>> {
    match walk {
        Walk::Up => match c.super_class {
            Some(s) => seq![s] + c.interfaces,
            None => c.interfaces,
        },
        Walk::Down => match c.super_class {
            Some(s) => c.interfaces.reverse().push(s),
            None => c.interfaces.reverse(),
        },
        Walk::Interfaces => c.interfaces,
    }
}

/// How many of the first `n` classes have not been seen.
pub open spec fn unseen(cs: Seq<(Seq<char>, ClassModel)>, seen: Seq<Seq<char>>, n: int) -> nat
    decreases n,
{
    if n <= 0 {
        0
    } else {
        unseen(cs, seen, n - 1) + (if seen.contains(cs[n - 1].0) {
            0nat
        } else {
            1nat
        })
    }
}

/// A class that is seen for the first time leaves fewer unseen.
pub proof fn unseen_pushed(
    cs: Seq<(Seq<char>, ClassModel)>,
    seen: Seq<Seq<char>>,
    name: Seq<char>,
    n: int,
)
    requires
        0 <= n <= cs.len(),
    ensures
        unseen(cs, seen.push(name), n) <= unseen(cs, seen, n),
        !seen.contains(name) && (exists|i: int| 0 <= i < n && (#[trigger] cs[i]).0 == name)
            ==> unseen(cs, seen.push(name), n) < unseen(cs, seen, n),
    decreases n,
{
    if n > 0 {
        unseen_pushed(cs, seen, name, n - 1);
        let k = cs[n - 1].0;
        if seen.contains(k) {
            let j = choose|j: int| 0 <= j < seen.len() && seen[j] == k;
            assert(seen.push(name)[j] == k);
            assert(seen.push(name).contains(k));
        } else if k == name {
            assert(seen.push(name)[seen.len() as int] == name);
            assert(seen.push(name).contains(k));
        } else if seen.push(name).contains(k) {
            let j = choose|j: int| 0 <= j < seen.push(name).len() && seen.push(name)[j] == k;
            assert(j < seen.len());
            assert(seen[j] == k);
        }
    }
}

/// A class that is found is an entry.
pub proof fn place_entry(cs: Seq<(Seq<char>, ClassModel)>, name: Seq<char>, i: int)
    requires
        0 <= i,
    ensures
        0 <= place(cs, name, i) < cs.len() ==> cs[place(cs, name, i)].0 == name,
    decreases cs.len() - i,
{
    if i < cs.len() && cs[i].0 != name {
        place_entry(cs, name, i + 1);
    }
}

/// The names that are visited, in order: those in `seen`, then the names in
/// `work` with all that is reached through their bases, each once and each
/// before its bases.
pub open spec fn reach(
    cs: Seq<(Seq<char>, ClassModel)>,
    work: Seq<Seq<char>>,
    seen: Seq<Seq<char>>,
    walk: Walk,
) -> Seq<Seq<char>>
    decreases unseen(cs, seen, cs.len() as int), work.len(),
{
    if work.len() == 0 {
        seen
    } else {
        let name = work[0];
        let rest = work.subrange(1, work.len() as int);
        let p = place(cs, name, 0);
        if seen.contains(name) {
            reach(cs, rest, seen, walk)
        } else if 0 <= p < cs.len() {
            proof {
                place_entry(cs, name, 0);
                assert(cs[p].0 == name);
                unseen_pushed(cs, seen, name, cs.len() as int);
            }
            reach(cs, bases(cs[p].1, walk) + rest, seen.push(name), walk)
        } else {
            proof {
                unseen_pushed(cs, seen, name, cs.len() as int);
            }
            reach(cs, rest, seen.push(name), walk)
        }
    }
}

impl Tables {
    /// The names that are reached from `start`, after those in `from`.
    pub fn visit(&self, start: &Vec<String>, from: Vec<String>, walk: Walk) -> (r: Vec<String>)
        ensures
            texts(r@) == reach(self@.classes, texts(start@), texts(from@), walk),
    {
        let ghost cs = self@.classes;
        let ghost want = reach(cs, texts(start@), texts(from@), walk);
        let mut seen: Vec<String> = from;
        // The next name is the last one.
        let mut work: Vec<String> = Vec::new();
        push_turned(&mut work, start);
        assert(texts(work@).reverse() =~= texts(start@));
        while work.len() > 0
            invariant
                cs == self@.classes,
                want == reach(cs, texts(work@).reverse(), texts(seen@), walk),
            decreases unseen(cs, texts(seen@), cs.len() as int), work.len(),
        {
            let ghost before = texts(work@).reverse();
            let last: usize = work.len() - 1;
            let name: String = work[last].clone();
            work.truncate(last);
            let ghost rest = texts(work@).reverse();
            proof {
                assert(before[0] == name@);
                assert(before.subrange(1, before.len() as int) =~= rest);
            }
            if !has_text(&seen, name.as_str()) {
                let p: usize = find_place(&self.classes, name.as_str());
                proof {
                    place_entry(cs, name@, 0);
                    if p < cs.len() {
                        assert(cs[p as int].0 == name@);
                    }
                    unseen_pushed(cs, texts(seen@), name@, cs.len() as int);
                }
                let ghost old_seen = texts(seen@);
                seen.push(name);
                assert(texts(seen@) =~= old_seen.push(name@));
                if p < self.classes.len() {
                    let info: &ClassInfo = &self.classes[p].1;
                    let ghost c = cs[p as int].1;
                    assert(c == info@);
                    let ghost w0 = work@;
                    match walk {
                        Walk::Up => {
                            push_turned(&mut work, &info.interfaces);
                            let ghost w1 = work@;
                            if let Some(s) = &info.super_class {
                                work.push(s.clone());
                                assert(texts(work@) =~= texts(w1).push(s@));
                            }
                        },
                        Walk::Down => {
                            if let Some(s) = &info.super_class {
                                work.push(s.clone());
                                assert(texts(work@) =~= texts(w0).push(s@));
                            }
                            let ghost w1 = work@;
                            push_texts(&mut work, &info.interfaces);
                            assert(texts(work@) =~= texts(w1) + c.interfaces);
                        },
                        Walk::Interfaces => {
                            push_turned(&mut work, &info.interfaces);
                        },
                    }
                    assert(texts(work@).reverse() =~= bases(c, walk) + rest);
                }
            }
        }
        assert(texts(work@).reverse() =~= seq![]);
        seen
    }
}

/// Appends a list of texts from its end.
fn push_turned(out: &mut Vec<String>, s: &Vec<String>)
    ensures
        texts(final(out)@) == texts(old(out)@) + texts(s@).reverse(),
{
    let ghost before = texts(out@);
    let n: usize = s.len();
    let mut k: usize = n;
    assert(texts(s@).subrange(n as int, n as int).reverse() =~= seq![]);
    while k > 0
        invariant
            k <= n,
            n == s@.len(),
            texts(out@) == before + texts(s@).subrange(k as int, n as int).reverse(),
        decreases k,
    {
        k = k - 1;
        let ghost mid = out@;
        out.push(s[k].clone());
        assert(texts(out@) =~= texts(mid).push(s@[k as int]@));
        assert(texts(s@).subrange(k as int, n as int).reverse() =~= texts(s@).subrange(
            k + 1,
            n as int,
        ).reverse().push(s@[k as int]@));
        assert(texts(out@) =~= before + texts(s@).subrange(k as int, n as int).reverse());
    }
    assert(texts(s@).subrange(0, n as int) =~= texts(s@));
}

/// Appends a list of texts.
pub fn push_texts(out: &mut Vec<String>, s: &Vec<String>)
    ensures
        texts(final(out)@) == texts(old(out)@) + texts(s@),
{
    let ghost before = texts(out@);
    let mut i: usize = 0;
    assert(texts(s@).subrange(0, 0) =~= seq![]);
    while i < s.len()
        invariant
            i <= s@.len(),
            texts(out@) == before + texts(s@).subrange(0, i as int),
        decreases s.len() - i,
    {
        let ghost mid = out@;
        out.push(s[i].clone());
        assert(texts(out@) =~= texts(mid).push(s@[i as int]@));
        assert(texts(s@).subrange(0, i + 1) =~= texts(s@).subrange(0, i as int).push(
            s@[i as int]@,
        ));
        assert(texts(out@) =~= before + texts(s@).subrange(0, i + 1));
        i = i + 1;
    }
    assert(texts(s@).subrange(0, i as int) =~= texts(s@));
}

/// `sub` is the same as, a descendant of, or an implementer of `base`.
pub open spec fn subclass(cs: Seq<(Seq<char>, ClassModel)>, sub: Seq<char>, base: Seq<char>) -> bool {
    sub == base || reach(cs, seq![sub], seq![], Walk::Up).contains(base)
}

/// The first of the names from `i` on whose class has the method.
pub open spec fn method_among(
    cs: Seq<(Seq<char>, ClassModel)>,
    names: Seq<Seq<char>>,
    i: int,
    method: Seq<char>,
) -> Option<(Seq<char>, MethodModel)>
    decreases names.len() - i,
{
    if i < 0 || i >= names.len() {
        None
    } else {
        match lookup(cs, names[i]) {
            None => method_among(cs, names, i + 1, method),
            Some(c) => match lookup(c.methods, method) {
                Some(m) => Some((names[i], m)),
                None => method_among(cs, names, i + 1, method),
            },
        }
    }
}

/// The instance method that a class has, or inherits through its super class
/// and then its interfaces.
pub open spec fn method_found(
    cs: Seq<(Seq<char>, ClassModel)>,
    class: Seq<char>,
    method: Seq<char>,
) -> Option<(Seq<char>, MethodModel)> {
    method_among(cs, reach(cs, seq![class], seq![], Walk::Up), 0, method)
}

/// The interfaces of the classes in `ps` from `i` on and all that they extend,
/// after those in `seen`.
pub open spec fn interfaces_from(
    cs: Seq<(Seq<char>, ClassModel)>,
    ps: Seq<int>,
    i: int,
    seen: Seq<Seq<char>>,
) -> Seq<Seq<char>>
    decreases ps.len() - i,
{
    if i < 0 || i >= ps.len() {
        seen
    } else {
        interfaces_from(
            cs,
            ps,
            i + 1,
            reach(cs, cs[ps[i]].1.interfaces, seen, Walk::Interfaces),
        )
    }
}

/// All interfaces implemented or extended by a class, including those inherited
/// through super classes and super-interfaces.
pub open spec fn all_interfaces_of(cs: Seq<(Seq<char>, ClassModel)>, class: Seq<char>) -> Seq<
    Seq<char>,
> {
    interfaces_from(cs, supers(cs, class), 0, seq![])
}

fn one_name(name: &str) -> (r: Vec<String>)
    ensures
        texts(r@) == seq![name@],
{
    let mut v: Vec<String> = Vec::new();
    v.push(crate::text::own(name));
    assert(texts(v@) =~= seq![name@]);
    v
}

fn no_names() -> (r: Vec<String>)
    ensures
        texts(r@) == Seq::<Seq<char>>::empty(),
{
    let v: Vec<String> = Vec::new();
    assert(texts(v@) =~= Seq::<Seq<char>>::empty());
    v
}

impl Tables {
    /// True if `sub` is the same as, a descendant of, or an implementer of
    /// `base`. Interfaces are treated uniformly: a class "inherits" the
    /// interfaces it implements and the interfaces those interfaces extend.
    pub fn is_subclass_of(&self, sub: &str, base: &str) -> (r: bool)
        ensures
            r == subclass(self@.classes, sub@, base@),
    {
        if same(sub, base) {
            return true;
        }
        let names: Vec<String> = self.visit(&one_name(sub), no_names(), Walk::Up);
        has_text(&names, base)
    }

    /// Look up an instance method starting at `class_name`, walking the super
    /// chain and the interfaces.
    pub fn find_method<'a>(&'a self, class_name: &str, method: &str) -> (r: Option<
        (&'a str, &'a MethodInfo),
    >)
        ensures
            found(r) == method_found(self@.classes, class_name@, method@),
    {
        let ghost cs = self@.classes;
        let names: Vec<String> = self.visit(&one_name(class_name), no_names(), Walk::Up);
        let mut i: usize = 0;
        while i < names.len()
            invariant
                i <= names@.len(),
                cs == self@.classes,
                method_found(cs, class_name@, method@) == method_among(
                    cs,
                    texts(names@),
                    i as int,
                    method@,
                ),
            decreases names.len() - i,
        {
            let p: usize = find_place(&self.classes, names[i].as_str());
            if p < self.classes.len() {
                proof {
                    place_entry(cs, names@[i as int]@, 0);
                    assert(cs[p as int] == (self.classes@[p as int].0@, self.classes@[p as int].1@));
                }
                let entry: &(String, ClassInfo) = &self.classes[p];
                if let Some(m) = find(&entry.1.methods, method) {
                    return Some((entry.0.as_str(), m));
                }
            }
            i = i + 1;
        }
        None
    }

    /// All interfaces implemented/extended by `class_name`, including those
    /// inherited through super classes and super-interfaces (transitive closure).
    pub fn all_interfaces(&self, class_name: &str) -> (r: Vec<String>)
        ensures
            texts(r@) == all_interfaces_of(self@.classes, class_name@),
    {
        let ghost cs = self@.classes;
        let ps: Vec<usize> = self.super_chain(class_name);
        let mut seen: Vec<String> = no_names();
        let mut i: usize = 0;
        while i < ps.len()
            invariant
                i <= ps@.len(),
                cs == self@.classes,
                forall|j: int| 0 <= j < ps@.len() ==> (#[trigger] ps@[j]) < self.classes@.len(),
                all_interfaces_of(cs, class_name@) == interfaces_from(
                    cs,
                    ints(ps@),
                    i as int,
                    texts(seen@),
                ),
            decreases ps.len() - i,
        {
            seen = self.visit(&self.classes[ps[i]].1.interfaces, seen, Walk::Interfaces);
            i = i + 1;
        }
        seen
    }
}

} // verus!
