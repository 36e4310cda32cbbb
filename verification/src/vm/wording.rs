//! What the operations on texts promise, in terms of the characters of the texts.

use crate::bytecode::Op;
use crate::natives::{native_of, NativeId};
use crate::text::{dec, dec_int, digit};
use crate::vm::heap::{allocation_law, heap_ok};
use crate::vm::describe::shown;
use crate::vm::operators::doing;
use crate::vm::ops::{concat_from, StoreModel};
use crate::vm::promises::{calling, calling_is, only_new, there, Setting};
use crate::vm::strings::{
    all_digits, chomped, digits_value, first_place, int_from, is_digit, line_end, lines_from,
    occurs_at, replace_from, split_from, trimmed, trimmed_end, trimmed_start, white_space,
};
use crate::vm::value::{GcRef, ObjectModel, Value};
use crate::vm::world::{Effect, Question, ReplyModel};
use vstd::prelude::*;

verus! {

// ---------------------------------------------------------------------------
// Searching
// ---------------------------------------------------------------------------

/// `s` is `a`, then `t`, then `b`.
pub open spec fn cut(s: Seq<char>, a: Seq<char>, t: Seq<char>, b: Seq<char>) -> bool {
    s == a + t + b
}

/// The search finds the first place: the text stands there and at no place before
/// it, and where nothing is found it stands nowhere.
pub proof fn search_law(s: Seq<char>, t: Seq<char>, i: int)
    requires
        0 <= i,
    ensures
        first_place(s, t, i) matches Some(p) ==> {
            &&& i <= p
            &&& p + t.len() <= s.len()
            &&& cut(s, s.subrange(0, p), t, s.subrange(p + t.len(), s.len() as int))
            &&& forall|j: int| i <= j < p ==> !#[trigger] occurs_at(s, t, j)
        },
        first_place(s, t, i) is None ==> forall|j: int| i <= j ==> !#[trigger] occurs_at(s, t, j),
    decreases s.len() + 1 - i,
{
    if i + t.len() <= s.len() {
        if occurs_at(s, t, i) {
            assert(s =~= s.subrange(0, i) + t + s.subrange(i + t.len(), s.len() as int));
        } else {
            search_law(s, t, i + 1);
        }
    }
}

/// A text occurs in every text that is put together around it.
pub proof fn occurrence_law(a: Seq<char>, t: Seq<char>, b: Seq<char>)
    ensures
        occurs_at(a + t + b, t, a.len() as int),
        first_place(a + t + b, t, 0) matches Some(p) && 0 <= p <= a.len(),
{
    let s = a + t + b;
    assert(s.subrange(a.len() as int, a.len() as int + t.len()) =~= t);
    search_law(s, t, 0);
}

// ---------------------------------------------------------------------------
// Parts
// ---------------------------------------------------------------------------

/// Texts put together with a separator between any two.
pub open spec fn glued(parts: Seq<Seq<char>>, sep: Seq<char>) -> Seq<char>
    decreases parts.len(),
{
    if parts.len() == 0 {
        seq![]
    } else if parts.len() == 1 {
        parts[0]
    } else {
        parts[0] + sep + glued(parts.skip(1), sep)
    }
}

proof fn split_glued(s: Seq<char>, t: Seq<char>, u: Seq<char>, i: int)
    requires
        0 <= i <= s.len(),
        t.len() > 0,
    ensures
        split_from(s, t, i).len() > 0,
        glued(split_from(s, t, i), t) == s.subrange(i, s.len() as int),
        glued(split_from(s, t, i), u) == replace_from(s, t, u, i),
        forall|k: int|
            0 <= k < split_from(s, t, i).len() ==> first_place(
                #[trigger] split_from(s, t, i)[k],
                t,
                0,
            ) is None,
    decreases s.len() - i,
{
    search_law(s, t, i);
    let parts = split_from(s, t, i);
    match first_place(s, t, i) {
        None => {
            let x = s.subrange(i, s.len() as int);
            search_law(x, t, 0);
            if first_place(x, t, 0) is Some {
                let p = first_place(x, t, 0)->0;
                assert(s.subrange(i + p, i + p + t.len()) =~= x.subrange(p, p + t.len()));
                assert(x.subrange(p, p + t.len()) =~= t);
                assert(occurs_at(s, t, i + p));
            }
        },
        Some(p) => {
            let x = s.subrange(i, p);
            let rest = split_from(s, t, p + t.len());
            split_glued(s, t, u, p + t.len());
            assert(parts =~= seq![x] + rest);
            assert(parts.skip(1) =~= rest);
            assert(s.subrange(p, p + t.len()) =~= t);
            assert(x + t + s.subrange(p + t.len(), s.len() as int) =~= s.subrange(
                i,
                s.len() as int,
            ));
            search_law(x, t, 0);
            if first_place(x, t, 0) is Some {
                let q = first_place(x, t, 0)->0;
                assert(s.subrange(i + q, i + q + t.len()) =~= x.subrange(q, q + t.len()));
                assert(x.subrange(q, q + t.len()) =~= t);
                assert(occurs_at(s, t, i + q));
            }
            assert forall|k: int| 0 <= k < parts.len() implies first_place(
                #[trigger] parts[k],
                t,
                0,
            ) is None by {
                if k > 0 {
                    assert(parts[k] == rest[k - 1]);
                }
            }
        },
    }
}

/// Splitting: the parts put together with the separator are the text, and none of
/// them holds the separator. Replacing puts another text between the parts.
pub proof fn split_law(s: Seq<char>, t: Seq<char>, u: Seq<char>)
    requires
        t.len() > 0,
    ensures
        split_from(s, t, 0).len() > 0,
        glued(split_from(s, t, 0), t) == s,
        replace_from(s, t, u, 0) == glued(split_from(s, t, 0), u),
        replace_from(s, t, t, 0) == s,
        forall|k: int|
            0 <= k < split_from(s, t, 0).len() ==> first_place(
                #[trigger] split_from(s, t, 0)[k],
                t,
                0,
            ) is None,
        first_place(s, t, 0) is None ==> replace_from(s, t, u, 0) == s,
{
    split_glued(s, t, u, 0);
    split_glued(s, t, t, 0);
    assert(s.subrange(0, s.len() as int) =~= s);
}

proof fn start_trimmed(s: Seq<char>) -> (n: int)
    ensures
        0 <= n <= s.len(),
        trimmed_start(s) == s.subrange(n, s.len() as int),
        forall|i: int| 0 <= i < n ==> white_space(#[trigger] s[i]),
        n < s.len() ==> !white_space(s[n]),
    decreases s.len(),
{
    if s.len() > 0 && white_space(s[0]) {
        let rest = s.subrange(1, s.len() as int);
        let n = start_trimmed(rest);
        assert(rest.subrange(n, rest.len() as int) =~= s.subrange(n + 1, s.len() as int));
        assert forall|i: int| 0 <= i < n + 1 implies white_space(#[trigger] s[i]) by {
            if i > 0 {
                assert(rest[i - 1] == s[i]);
            }
        }
        n + 1
    } else {
        assert(s.subrange(0, s.len() as int) =~= s);
        0
    }
}

proof fn end_trimmed(s: Seq<char>) -> (n: int)
    ensures
        0 <= n <= s.len(),
        trimmed_end(s) == s.subrange(0, n),
        forall|i: int| n <= i < s.len() ==> white_space(#[trigger] s[i]),
        n > 0 ==> !white_space(s[n - 1]),
    decreases s.len(),
{
    if s.len() > 0 && white_space(s.last()) {
        let rest = s.drop_last();
        let n = end_trimmed(rest);
        assert(rest.subrange(0, n) =~= s.subrange(0, n));
        assert forall|i: int| n <= i < s.len() implies white_space(#[trigger] s[i]) by {
            if i < rest.len() {
                assert(rest[i] == s[i]);
            }
        }
        n
    } else {
        assert(s.subrange(0, s.len() as int) =~= s);
        s.len() as int
    }
}

/// Trimming leaves a stretch of the text: all that is cut off is white space, and
/// what is left neither starts nor ends with any.
pub proof fn trim_law(s: Seq<char>) -> (ab: (int, int))
    ensures
        0 <= ab.0 <= ab.1 <= s.len(),
        trimmed(s) == s.subrange(ab.0, ab.1),
        forall|i: int| 0 <= i < ab.0 || ab.1 <= i < s.len() ==> white_space(#[trigger] s[i]),
        trimmed(s).len() > 0 ==> !white_space(trimmed(s)[0]) && !white_space(trimmed(s).last()),
{
    let a = start_trimmed(s);
    let x = trimmed_start(s);
    let n = end_trimmed(x);
    assert(x.subrange(0, n) =~= s.subrange(a, a + n));
    assert forall|i: int| 0 <= i < a || a + n <= i < s.len() implies white_space(#[trigger] s[i]) by {
        if i >= a + n {
            assert(x[i - a] == s[i]);
        }
    }
    (a, a + n)
}

/// White space is what separates words on a keyboard, and no letter, digit or sign
/// is any.
pub proof fn white_law(c: char)
    ensures
        white_space(' '),
        white_space('\t'),
        white_space('\n'),
        white_space('\r'),
        0x21 <= c as u32 <= 0x7E ==> !white_space(c),
{
}

// ---------------------------------------------------------------------------
// Numbers
// ---------------------------------------------------------------------------

/// The decimal form of a number is made of digits that denote it.
pub proof fn digits_back(n: nat)
    ensures
        dec(n).len() > 0,
        all_digits(dec(n)),
        digits_value(dec(n)) == n,
    decreases n,
{
    reveal_with_fuel(digits_value, 2);
    if n >= 10 {
        digits_back(n / 10);
        assert(dec(n).drop_last() =~= dec(n / 10));
        assert(is_digit(digit(n % 10)));
        assert(digit(n % 10) as int - '0' as int == n % 10);
    } else {
        assert(dec(n).drop_last() =~= Seq::<char>::empty());
        assert(digit(n) as int - '0' as int == n);
    }
}

/// The decimal form of a 32-bit integer denotes that integer, and one out of that
/// range is not taken for any.
pub proof fn parsing_law(n: int)
    ensures
        -0x8000_0000 <= n <= 0x7fff_ffff ==> int_from(dec_int(n)) == Some(n as i64),
        n < -0x8000_0000 || n > 0x7fff_ffff ==> int_from(dec_int(n)) is None,
{
    let m = if n < 0 {
        -n
    } else {
        n
    };
    digits_back(m as nat);
    let d = dec(m as nat);
    assert(is_digit(d[0]));
    if n < 0 {
        reveal_strlit("-");
        assert(dec_int(n) =~= seq!['-'] + d);
        assert(dec_int(n).subrange(1, dec_int(n).len() as int) =~= d);
    }
}

/// A number is refused where something else than a sign and digits is in it.
pub proof fn refusing_law(s: Seq<char>, i: int)
    requires
        0 <= i < s.len(),
        !is_digit(s[i]),
        i > 0 || (s[0] != '-' && s[0] != '+'),
    ensures
        int_from(s) is None,
        int_from(seq![]) is None,
{
    if s.len() > 0 && (s[0] == '-' || s[0] == '+') {
        assert(s.subrange(1, s.len() as int)[i - 1] == s[i]);
    }
}

// ---------------------------------------------------------------------------
// Lines
// ---------------------------------------------------------------------------

/// A line that was read is what stands before its ending.
pub proof fn line_law(s: Seq<char>)
    requires
        forall|i: int| 0 <= i < s.len() ==> #[trigger] s[i] != '\n' && s[i] != '\r',
    ensures
        chomped(s) == s,
        chomped(s + seq!['\n']) == s,
        chomped(s + seq!['\r', '\n']) == s,
{
    assert((s + seq!['\n']).drop_last() =~= s);
    assert((s + seq!['\r', '\n']).drop_last() =~= s + seq!['\r']);
    assert((s + seq!['\r']).drop_last() =~= s);
}

proof fn line_ends(s: Seq<char>, i: int)
    requires
        0 <= i <= s.len(),
    ensures
        i <= line_end(s, i) <= s.len(),
        forall|j: int| i <= j < line_end(s, i) ==> #[trigger] s[j] != '\n',
        line_end(s, i) < s.len() ==> s[line_end(s, i)] == '\n',
    decreases s.len() - i,
{
    if i < s.len() && s[i] != '\n' {
        line_ends(s, i + 1);
    }
}

proof fn lines_glued(s: Seq<char>, i: int)
    requires
        0 <= i <= s.len(),
        forall|j: int| 0 <= j < s.len() ==> #[trigger] s[j] != '\r',
    ensures
        i < s.len() ==> lines_from(s, i).len() > 0,
        s.subrange(i, s.len() as int) == glued(lines_from(s, i), seq!['\n']) + (if i < s.len()
            && s.last() == '\n' {
            seq!['\n']
        } else {
            seq![]
        }),
        forall|k: int, j: int|
            0 <= k < lines_from(s, i).len() && 0 <= j < lines_from(s, i)[k].len()
                ==> #[trigger] lines_from(s, i)[k][j] != '\n',
    decreases s.len() - i,
{
    let nl = seq!['\n'];
    if i < s.len() {
        line_ends(s, i);
        let e = line_end(s, i);
        let x = s.subrange(i, e);
        if e < s.len() {
            lines_glued(s, e + 1);
            let rest = lines_from(s, e + 1);
            let all = lines_from(s, i);
            if x.len() > 0 {
                assert(x.last() == s[e - 1]);
            }
            assert(all =~= seq![x] + rest);
            assert(all.skip(1) =~= rest);
            assert(s.subrange(i, s.len() as int) =~= x + nl + s.subrange(e + 1, s.len() as int));
            if e + 1 == s.len() {
                assert(rest.len() == 0);
                assert(s.subrange(i, s.len() as int) =~= x + nl);
            } else {
                assert(glued(all, nl) == x + nl + glued(rest, nl));
                assert(s.subrange(i, s.len() as int) =~= glued(all, nl) + (if s.last() == '\n' {
                    seq!['\n']
                } else {
                    seq![]
                }));
            }
            assert forall|k: int, j: int|
                0 <= k < all.len() && 0 <= j < all[k].len() implies #[trigger] all[k][j] != '\n' by {
                if k > 0 {
                    assert(all[k] == rest[k - 1]);
                    assert(rest[k - 1][j] != '\n');
                }
            }
        } else {
            assert(s.subrange(i, s.len() as int) =~= x);
            assert(x + Seq::<char>::empty() =~= x);
        }
    } else {
        assert(s.subrange(i, s.len() as int) =~= Seq::<char>::empty() + Seq::<char>::empty());
    }
}

/// The lines of a text that has no carriage returns: none holds a line feed, and
/// put together with line feeds they are the text but for a line feed at its end.
pub proof fn lines_law(s: Seq<char>)
    requires
        forall|j: int| 0 <= j < s.len() ==> #[trigger] s[j] != '\r',
    ensures
        s == glued(lines_from(s, 0), seq!['\n']) + (if s.len() > 0 && s.last() == '\n' {
            seq!['\n']
        } else {
            seq![]
        }),
        forall|k: int, j: int|
            0 <= k < lines_from(s, 0).len() && 0 <= j < lines_from(s, 0)[k].len()
                ==> #[trigger] lines_from(s, 0)[k][j] != '\n',
{
    lines_glued(s, 0);
    assert(s.subrange(0, s.len() as int) =~= s);
}

// ---------------------------------------------------------------------------
// Calls
// ---------------------------------------------------------------------------

/// A text on the heap.
pub open spec fn is_text(s: StoreModel, r: GcRef, t: Seq<char>) -> bool {
    there(s, r) == Some(ObjectModel::String(t))
}

/// A call gives a new text and changes nothing else.
pub open spec fn writes_text(s: StoreModel, r: (Effect, StoreModel), t: Seq<char>) -> bool {
    let q = GcRef(s.heap.next);
    &&& r.0 == Effect::Value(Value::String(q))
    &&& only_new(s, r.1, q)
    &&& is_text(r.1, q, t)
}

proof fn text_made(s: StoreModel, t: Seq<char>)
    requires
        heap_ok(s.heap),
        s.heap.next < usize::MAX,
    ensures
        writes_text(
            s,
            crate::vm::ops::made(s, crate::vm::ops::Boxed::Text, ObjectModel::String(t)),
            t,
        ),
{
    let o = ObjectModel::String(t);
    let after = crate::vm::ops::made(s, crate::vm::ops::Boxed::Text, o).1;
    allocation_law(s.heap, o, 0);
    assert forall|q: GcRef| q != GcRef(s.heap.next) implies #[trigger] there(after, q) == there(
        s,
        q,
    ) by {
        allocation_law(s.heap, o, q.0);
    }
}

/// The length of a text, its characters and its stretches; a place that is not in
/// the text is an error.
pub proof fn reading_law(c: Setting, s: StoreModel, n: u16, r: GcRef, t: Seq<char>, i: i64, k: i64)
    requires
        heap_ok(s.heap),
        s.heap.next < usize::MAX,
        is_text(s, r, t),
        t.len() <= i64::MAX,
        t.len() <= usize::MAX,
    ensures
        native_of(n) == Some(NativeId::StrLength) ==> calling(c, s, n, seq![Value::String(r)]) == (
            Effect::Value(Value::Int(t.len() as i64)),
            s,
        ),
        native_of(n) == Some(NativeId::StrCharAt) ==> ({
            let (e, after) = calling(c, s, n, seq![Value::String(r), Value::Int(i)]);
            &&& after == s
            &&& 0 <= i < t.len() ==> e == Effect::Value(Value::Char(t[i as int]))
            &&& !(0 <= i < t.len()) ==> e is Failed
        }),
        native_of(n) == Some(NativeId::StrSubstring) ==> ({
            let r = calling(c, s, n, seq![Value::String(r), Value::Int(i), Value::Int(k)]);
            &&& 0 <= i && 0 <= k && i + k <= t.len() ==> writes_text(
                s,
                r,
                Seq::new(k as nat, |j: int| t[i + j]),
            )
            &&& !(0 <= i && 0 <= k && i + k <= t.len()) ==> r.0 is Failed && r.1 == s
        }),
{
    if native_of(n) == Some(NativeId::StrLength) {
        calling_is(c, s, n, NativeId::StrLength, seq![Value::String(r)]);
    }
    if native_of(n) == Some(NativeId::StrCharAt) {
        calling_is(c, s, n, NativeId::StrCharAt, seq![Value::String(r), Value::Int(i)]);
    }
    if native_of(n) == Some(NativeId::StrSubstring) {
        calling_is(
            c,
            s,
            n,
            NativeId::StrSubstring,
            seq![Value::String(r), Value::Int(i), Value::Int(k)],
        );
        if 0 <= i && 0 <= k && i + k <= t.len() {
            let x = t.subrange(i as int, i + k);
            text_made(s, x);
            assert(x =~= Seq::new(k as nat, |j: int| t[i + j]));
        }
    }
}

/// Whether a text is in another one, at its start or at its end, and where first.
pub proof fn finding_law(
    c: Setting,
    s: StoreModel,
    n: u16,
    r: GcRef,
    t: Seq<char>,
    q: GcRef,
    u: Seq<char>,
)
    requires
        is_text(s, r, t),
        is_text(s, q, u),
        t.len() <= i64::MAX,
        t.len() <= usize::MAX,
    ensures
        ({
            let (e, after) = calling(c, s, n, seq![Value::String(r), Value::String(q)]);
            &&& native_of(n) == Some(NativeId::StrContains) ==> after == s && e == Effect::Value(
                Value::Bool(exists|i: int| #[trigger] occurs_at(t, u, i)),
            )
            &&& native_of(n) == Some(NativeId::StrStartsWith) ==> after == s && e == Effect::Value(
                Value::Bool(u.len() <= t.len() && t.subrange(0, u.len() as int) == u),
            )
            &&& native_of(n) == Some(NativeId::StrEndsWith) ==> after == s && e == Effect::Value(
                Value::Bool(
                    u.len() <= t.len() && t.subrange(t.len() - u.len(), t.len() as int) == u,
                ),
            )
            &&& native_of(n) == Some(NativeId::StrIndexOf) ==> after == s && (e
                matches Effect::Value(Value::Int(i)) && if i >= 0 {
                occurs_at(t, u, i as int) && forall|j: int|
                    0 <= j < i ==> !#[trigger] occurs_at(t, u, j)
            } else {
                i == -1 && forall|j: int| !#[trigger] occurs_at(t, u, j)
            })
        }),
{
    let args = seq![Value::String(r), Value::String(q)];
    search_law(t, u, 0);
    if first_place(t, u, 0) is Some {
        let p = first_place(t, u, 0)->0;
        assert(t.subrange(p, p + u.len()) =~= u);
        assert(occurs_at(t, u, p));
    } else {
        assert forall|j: int| !#[trigger] occurs_at(t, u, j) by {
            if j >= 0 {
            }
        }
    }
    if native_of(n) == Some(NativeId::StrContains) {
        calling_is(c, s, n, NativeId::StrContains, args);
    }
    if native_of(n) == Some(NativeId::StrStartsWith) {
        calling_is(c, s, n, NativeId::StrStartsWith, args);
    }
    if native_of(n) == Some(NativeId::StrEndsWith) {
        calling_is(c, s, n, NativeId::StrEndsWith, args);
    }
    if native_of(n) == Some(NativeId::StrIndexOf) {
        calling_is(c, s, n, NativeId::StrIndexOf, args);
    }
}

/// Trimming and replacing write the text that the laws above speak of; a number is
/// read whatever white space is around it.
pub proof fn rewriting_law(
    c: Setting,
    s: StoreModel,
    n: u16,
    r: GcRef,
    t: Seq<char>,
    q: GcRef,
    u: Seq<char>,
    p: GcRef,
    v: Seq<char>,
)
    requires
        heap_ok(s.heap),
        s.heap.next < usize::MAX,
        is_text(s, r, t),
        is_text(s, q, u),
        is_text(s, p, v),
    ensures
        native_of(n) == Some(NativeId::StrTrim) ==> writes_text(
            s,
            calling(c, s, n, seq![Value::String(r)]),
            trimmed(t),
        ),
        native_of(n) == Some(NativeId::StrReplace) && u.len() > 0 ==> writes_text(
            s,
            calling(c, s, n, seq![Value::String(r), Value::String(q), Value::String(p)]),
            glued(split_from(t, u, 0), v),
        ),
        native_of(n) == Some(NativeId::StrToInt) ==> ({
            let (e, after) = calling(c, s, n, seq![Value::String(r)]);
            &&& after == s
            &&& int_from(trimmed(t)) matches Some(i) ==> e == Effect::Value(Value::Int(i))
            &&& int_from(trimmed(t)) is None ==> e is Failed
        }),
{
    if native_of(n) == Some(NativeId::StrTrim) {
        calling_is(c, s, n, NativeId::StrTrim, seq![Value::String(r)]);
        text_made(s, trimmed(t));
    }
    if native_of(n) == Some(NativeId::StrReplace) && u.len() > 0 {
        calling_is(
            c,
            s,
            n,
            NativeId::StrReplace,
            seq![Value::String(r), Value::String(q), Value::String(p)],
        );
        split_law(t, u, v);
        text_made(s, replace_from(t, u, v, 0));
    }
    if native_of(n) == Some(NativeId::StrToInt) {
        calling_is(c, s, n, NativeId::StrToInt, seq![Value::String(r)]);
    }
}

// ---------------------------------------------------------------------------
// Showing
// ---------------------------------------------------------------------------

proof fn concat_is(
    c: Setting,
    s: StoreModel,
    vs: Seq<Value>,
    ts: Seq<Seq<char>>,
    i: int,
    acc: Seq<char>,
)
    requires
        vs.len() == ts.len(),
        0 <= i <= vs.len(),
        forall|k: int|
            0 <= k < vs.len() ==> shown(c.module, s.heap, c.world, #[trigger] vs[k]) == Ok::<
                Seq<char>,
                Question,
            >(ts[k]),
    ensures
        concat_from(c.module, s.heap, c.world, vs, i, acc) == Ok::<
            Seq<char>,
            Question,
        >(acc + glued(ts.skip(i), seq![])),
    decreases vs.len() - i,
{
    if i < vs.len() {
        let t = shown(c.module, s.heap, c.world, vs[i])->Ok_0;
        assert(t == ts[i]);
        concat_is(c, s, vs, ts, i + 1, acc + t);
        assert(ts.skip(i).skip(1) =~= ts.skip(i + 1));
        assert(ts.skip(i)[0] == ts[i]);
        if i + 1 == vs.len() {
            assert(glued(ts.skip(i + 1), seq![]) =~= Seq::<char>::empty());
        }
        assert(acc + t + glued(ts.skip(i + 1), seq![]) =~= acc + glued(ts.skip(i), seq![]));
    } else {
        assert(acc + glued(ts.skip(i), seq![]) =~= acc);
    }
}

/// Concatenation puts the texts of its operands behind each other, in order.
pub proof fn concatenation_law(
    c: Setting,
    s: StoreModel,
    n: u16,
    vs: Seq<Value>,
    ts: Seq<Seq<char>>,
)
    requires
        heap_ok(s.heap),
        s.heap.next < usize::MAX,
        vs.len() == n,
        ts.len() == n,
        forall|k: int|
            0 <= k < vs.len() ==> shown(c.module, s.heap, c.world, #[trigger] vs[k]) == Ok::<
                Seq<char>,
                Question,
            >(ts[k]),
    ensures
        writes_text(s, doing(c, s, Op::StringConcat(n), vs), glued(ts, seq![])),
{
    reveal(doing);
    assert(vs.subrange(0, n as int) =~= vs);
    concat_is(c, s, vs, ts, 0, seq![]);
    assert(ts.skip(0) =~= ts);
    assert(Seq::<char>::empty() + glued(ts, seq![]) =~= glued(ts, seq![]));
    text_made(s, glued(ts, seq![]));
}

/// How values are shown: texts as they are, integers in decimal, characters by
/// themselves, truth values and `null` by their names.
pub proof fn showing_law(c: Setting, s: StoreModel, v: Value)
    ensures
        v matches Value::String(r) ==> there(s, r) matches Some(ObjectModel::String(t)) ==> shown(
            c.module,
            s.heap,
            c.world,
            v,
        ) == Ok::<Seq<char>, Question>(t),
        v matches Value::Int(i) ==> (shown(c.module, s.heap, c.world, v) matches Ok(t) && int_text(
            t,
            i as int,
        )),
        v matches Value::Char(x) ==> shown(c.module, s.heap, c.world, v) == Ok::<
            Seq<char>,
            Question,
        >(seq![x]),
        v matches Value::Bool(b) ==> shown(c.module, s.heap, c.world, v) == Ok::<
            Seq<char>,
            Question,
        >(
            if b {
                "true"@
            } else {
                "false"@
            },
        ),
        v is Null ==> shown(c.module, s.heap, c.world, v) == Ok::<
            Seq<char>,
            Question,
        >("null"@),
        v matches Value::String(r) ==> there(s, r) matches Some(ObjectModel::String(t)) ==> doing(
            c,
            s,
            Op::Print,
            seq![v],
        ) == (Effect::Show(t), s),
        v is Int || v is Bool || v is Null ==> (shown(c.module, s.heap, c.world, v) matches Ok(t)
            && doing(c, s, Op::Print, seq![v]) == (Effect::Show(t), s)),
{
    reveal(doing);
    if let Value::Int(i) = v {
        let m = if i < 0 {
            -i
        } else {
            i as int
        };
        digits_back(m as nat);
        if i < 0 {
            reveal_strlit("-");
            assert(dec_int(i as int) =~= seq!['-'] + dec(m as nat));
            assert(dec_int(i as int).skip(1) =~= dec(m as nat));
        }
    }
}

/// A text denotes an integer: digits, with a sign in front where it is negative.
pub open spec fn int_text(t: Seq<char>, n: int) -> bool {
    if n < 0 {
        t.len() > 1 && t[0] == '-' && all_digits(t.skip(1)) && digits_value(t.skip(1)) == -n
    } else {
        t.len() > 0 && all_digits(t) && digits_value(t) == n
    }
}

// ---------------------------------------------------------------------------
// Input and output
// ---------------------------------------------------------------------------

/// Files: what is asked of the world names the file and what is to be written, and
/// what it replies comes back: the text, whether the file is there, that it is done
/// or that it failed.
pub proof fn file_law(
    c: Setting,
    s: StoreModel,
    n: u16,
    r: GcRef,
    path: Seq<char>,
    q: GcRef,
    contents: Seq<char>,
)
    requires
        heap_ok(s.heap),
        s.heap.next < usize::MAX,
        is_text(s, r, path),
        is_text(s, q, contents),
    ensures
        ({
            let one = calling(c, s, n, seq![Value::String(r)]);
            let two = calling(c, s, n, seq![Value::String(r), Value::String(q)]);
            let reply = c.world.reply;
            let done = (Effect::Value(Value::Unit), s);
            &&& native_of(n) == Some(NativeId::FileReadAllText) ==> {
                &&& reply is None ==> one == (Effect::Ask(Question::ReadFile(path)), s)
                &&& reply matches Some(ReplyModel::Text(t)) ==> writes_text(s, one, t)
                &&& reply matches Some(ReplyModel::Failed(e)) ==> one.0 is Failed && one.1 == s
            }
            &&& native_of(n) == Some(NativeId::FileExists) ==> {
                &&& reply is None ==> one == (Effect::Ask(Question::FileExists(path)), s)
                &&& reply matches Some(ReplyModel::Flag(b)) ==> one == (
                    Effect::Value(Value::Bool(b)),
                    s,
                )
            }
            &&& native_of(n) == Some(NativeId::FileDelete) ==> {
                &&& reply is None ==> one == (Effect::Ask(Question::DeleteFile(path)), s)
                &&& reply matches Some(ReplyModel::Done) ==> one == done
                &&& reply matches Some(ReplyModel::Failed(e)) ==> one.0 is Failed && one.1 == s
            }
            &&& native_of(n) == Some(NativeId::FileWriteAllText) ==> {
                &&& reply is None ==> two == (Effect::Ask(Question::WriteFile(path, contents)), s)
                &&& reply matches Some(ReplyModel::Done) ==> two == done
                &&& reply matches Some(ReplyModel::Failed(e)) ==> two.0 is Failed && two.1 == s
            }
            &&& native_of(n) == Some(NativeId::FileAppendAllText) ==> {
                &&& reply is None ==> two == (Effect::Ask(Question::AppendFile(path, contents)), s)
                &&& reply matches Some(ReplyModel::Done) ==> two == done
            }
        }),
{
    let args = seq![Value::String(r)];
    let both = seq![Value::String(r), Value::String(q)];
    if let Some(id) = native_of(n) {
        if id is FileReadAllText || id is FileExists || id is FileDelete {
            calling_is(c, s, n, id, args);
        }
        if id is FileWriteAllText || id is FileAppendAllText {
            calling_is(c, s, n, id, both);
        }
    }
    if let Some(ReplyModel::Text(t)) = c.world.reply {
        text_made(s, t);
    }
}

/// Reading a line: it is asked for, and what comes is the line without its ending,
/// or `null` at the end of the input.
pub proof fn input_law(c: Setting, s: StoreModel, n: u16)
    requires
        heap_ok(s.heap),
        s.heap.next < usize::MAX,
        native_of(n) == Some(NativeId::ConsoleReadLine),
    ensures
        ({
            let r = calling(c, s, n, seq![]);
            &&& c.world.reply is None ==> r == (Effect::Ask(Question::ReadLine), s)
            &&& c.world.reply matches Some(ReplyModel::End) ==> r == (Effect::Value(Value::Null), s)
            &&& c.world.reply matches Some(ReplyModel::Text(t)) ==> writes_text(s, r, chomped(t))
            &&& c.world.reply matches Some(ReplyModel::Failed(e)) ==> r.0 is Failed && r.1 == s
        }),
{
    calling_is(c, s, n, NativeId::ConsoleReadLine, seq![]);
    if let Some(ReplyModel::Text(t)) = c.world.reply {
        text_made(s, chomped(t));
    }
}

} // verus!
