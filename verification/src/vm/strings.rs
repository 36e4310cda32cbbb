//! Texts as the standard library sees them: sequences of characters.

use crate::text::char_text;
use crate::typer::suggest::chars_of;
use vstd::prelude::*;

verus! {

/// `t` occurs in `s` at place `i`.
pub open spec fn occurs_at(s: Seq<char>, t: Seq<char>, i: int) -> bool {
    0 <= i && i + t.len() <= s.len() && s.subrange(i, i + t.len()) == t
}

/// The first place from `i` on where `t` occurs in `s`.
pub open spec fn first_place(s: Seq<char>, t: Seq<char>, i: int) -> Option<int>
    decreases s.len() + 1 - i,
{
    if i < 0 || i + t.len() > s.len() {
        None
    } else if occurs_at(s, t, i) {
        Some(i)
    } else {
        first_place(s, t, i + 1)
    }
}

/// The first place is in range.
proof fn first_place_range(s: Seq<char>, t: Seq<char>, i: int)
    ensures
        first_place(s, t, i) matches Some(p) ==> i <= p && occurs_at(s, t, p),
    decreases s.len() + 1 - i,
{
    if !(i < 0 || i + t.len() > s.len()) && !occurs_at(s, t, i) {
        first_place_range(s, t, i + 1);
    }
}

/// The parts of `s` from `i` on between the occurrences of `t`.
pub open spec fn split_from(s: Seq<char>, t: Seq<char>, i: int) -> Seq<Seq<char>>
    decreases s.len() - i,
{
    if i < 0 || i > s.len() || t.len() == 0 {
        Seq::empty()
    } else {
        match first_place(s, t, i) {
            None => seq![s.subrange(i, s.len() as int)],
            Some(p) => if p < i || p + t.len() > s.len() {
                Seq::empty()
            } else {
                seq![s.subrange(i, p)] + split_from(s, t, p + t.len())
            },
        }
    }
}

/// `s` from `i` on with `u` in place of every occurrence of `t`.
pub open spec fn replace_from(s: Seq<char>, t: Seq<char>, u: Seq<char>, i: int) -> Seq<char>
    decreases s.len() - i,
{
    if i < 0 || i > s.len() || t.len() == 0 {
        Seq::empty()
    } else {
        match first_place(s, t, i) {
            None => s.subrange(i, s.len() as int),
            Some(p) => if p < i || p + t.len() > s.len() {
                Seq::empty()
            } else {
                s.subrange(i, p) + u + replace_from(s, t, u, p + t.len())
            },
        }
    }
}

/// The end of the line that starts at `i`: where the line feed is, or the end.
pub open spec fn line_end(s: Seq<char>, i: int) -> int
    decreases s.len() - i,
{
    if i < 0 || i >= s.len() || s[i] == '\n' {
        i
    } else {
        line_end(s, i + 1)
    }
}

/// A line before a line feed, without the carriage return at its end.
pub open spec fn without_return(s: Seq<char>) -> Seq<char> {
    if s.len() > 0 && s.last() == '\r' {
        s.drop_last()
    } else {
        s
    }
}

/// The lines of `s` from `i` on.
pub open spec fn lines_from(s: Seq<char>, i: int) -> Seq<Seq<char>>
    decreases s.len() - i,
{
    if i < 0 || i >= s.len() {
        Seq::empty()
    } else {
        let e = line_end(s, i);
        if e >= s.len() || e < i {
            seq![s.subrange(i, s.len() as int)]
        } else {
            seq![without_return(s.subrange(i, e))] + lines_from(s, e + 1)
        }
    }
}

/// A line as it was read, without the line ending.
pub open spec fn chomped(s: Seq<char>) -> Seq<char> {
    if s.len() > 0 && s.last() == '\n' {
        without_return(s.drop_last())
    } else {
        s
    }
}

/// A decimal digit.
pub open spec fn is_digit(c: char) -> bool {
    '0' <= c <= '9'
}

/// Decimal digits only.
pub open spec fn all_digits(s: Seq<char>) -> bool {
    forall|i: int| 0 <= i < s.len() ==> is_digit(#[trigger] s[i])
}

/// The number that digits denote.
pub open spec fn digits_value(s: Seq<char>) -> nat
    decreases s.len(),
{
    if s.len() == 0 {
        0
    } else {
        (digits_value(s.drop_last()) * 10 + (s.last() as int - '0' as int)) as nat
    }
}

/// Whether a text starts with a sign.
pub open spec fn signed(s: Seq<char>) -> bool {
    s.len() > 0 && (s[0] == '-' || s[0] == '+')
}

/// The 32-bit integer that a text denotes: an optional sign and digits.
pub open spec fn int_from(s: Seq<char>) -> Option<i64> {
    let d = if signed(s) {
        s.subrange(1, s.len() as int)
    } else {
        s
    };
    if d.len() == 0 || !all_digits(d) {
        None
    } else {
        let n = if s[0] == '-' {
            -(digits_value(d) as int)
        } else {
            digits_value(d) as int
        };
        if i32::MIN <= n <= i32::MAX {
            Some(n as i64)
        } else {
            None
        }
    }
}

/// Texts by value.
pub open spec fn texts(v: Seq<String>) -> Seq<Seq<char>> {
    Seq::new(v.len(), |i: int| v[i]@)
}

/// The characters from `i` to `j` as a text.
pub fn text_between(cs: &Vec<char>, i: usize, j: usize) -> (r: String)
    requires
        i <= j <= cs@.len(),
    ensures
        r@ == cs@.subrange(i as int, j as int),
{
    let mut out: String = String::new();
    let mut k: usize = i;
    proof {
        reveal_strlit("");
    }
    while k < j
        invariant
            i <= k <= j <= cs@.len(),
            out@ == cs@.subrange(i as int, k as int),
        decreases j - k,
    {
        let c: String = char_text(cs[k]);
        out.append(c.as_str());
        assert(cs@.subrange(i as int, k + 1) =~= cs@.subrange(i as int, k as int).push(
            cs@[k as int],
        ));
        k = k + 1;
    }
    out
}

fn matches_at(cs: &Vec<char>, ts: &Vec<char>, i: usize) -> (r: bool)
    requires
        i <= cs@.len(),
    ensures
        r == occurs_at(cs@, ts@, i as int),
{
    if ts.len() > cs.len() - i {
        return false;
    }
    let mut k: usize = 0;
    while k < ts.len()
        invariant
            k <= ts@.len(),
            i + ts.len() <= cs.len(),
            forall|j: int| 0 <= j < k ==> ts@[j] == cs@[i + j],
        decreases ts.len() - k,
    {
        if cs[i + k] != ts[k] {
            assert(cs@.subrange(i as int, i + ts@.len())[k as int] == cs@[i + k]);
            return false;
        }
        k = k + 1;
    }
    assert(cs@.subrange(i as int, i + ts@.len()) =~= ts@);
    true
}

fn find_place(cs: &Vec<char>, ts: &Vec<char>, from: usize) -> (r: Option<usize>)
    requires
        from <= cs@.len(),
    ensures
        first_place(cs@, ts@, from as int) == (match r {
            Some(p) => Some(p as int),
            None => None::<int>,
        }),
{
    let mut i: usize = from;
    while i <= cs.len() && ts.len() <= cs.len() - i
        invariant
            i <= cs@.len() + 1,
            from <= cs@.len(),
            first_place(cs@, ts@, from as int) == first_place(cs@, ts@, i as int),
        decreases cs.len() + 1 - i,
    {
        if matches_at(cs, ts, i) {
            return Some(i);
        }
        if i == cs.len() {
            assert(first_place(cs@, ts@, i + 1) is None);
            return None;
        }
        i = i + 1;
    }
    None
}

/// The first place where `t` occurs in `s`.
pub fn index_of(s: &str, t: &str) -> (r: Option<usize>)
    ensures
        first_place(s@, t@, 0) == (match r {
            Some(p) => Some(p as int),
            None => None::<int>,
        }),
{
    let cs: Vec<char> = chars_of(s);
    let ts: Vec<char> = chars_of(t);
    find_place(&cs, &ts, 0)
}

/// `s` starts with `t`.
pub fn starts_with(s: &str, t: &str) -> (r: bool)
    ensures
        r == occurs_at(s@, t@, 0),
{
    let cs: Vec<char> = chars_of(s);
    let ts: Vec<char> = chars_of(t);
    matches_at(&cs, &ts, 0)
}

/// `s` ends with `t`.
pub fn ends_with(s: &str, t: &str) -> (r: bool)
    ensures
        r == occurs_at(s@, t@, s@.len() - t@.len()),
{
    let cs: Vec<char> = chars_of(s);
    let ts: Vec<char> = chars_of(t);
    if ts.len() > cs.len() {
        return false;
    }
    matches_at(&cs, &ts, cs.len() - ts.len())
}

/// The parts of `s` between the occurrences of `t`.
pub fn split(s: &str, t: &str) -> (r: Vec<String>)
    requires
        t@.len() > 0,
    ensures
        texts(r@) == split_from(s@, t@, 0),
{
    let cs: Vec<char> = chars_of(s);
    let ts: Vec<char> = chars_of(t);
    let mut out: Vec<String> = Vec::new();
    let mut i: usize = 0;
    let ghost want = split_from(s@, t@, 0);
    assert(texts(out@) =~= Seq::empty());
    assert(want =~= texts(out@) + split_from(cs@, ts@, 0));
    loop
        invariant_except_break
            i <= cs@.len(),
            ts@.len() > 0,
            want == texts(out@) + split_from(cs@, ts@, i as int),
        ensures
            want == texts(out@),
        decreases cs.len() - i,
    {
        proof {
            first_place_range(cs@, ts@, i as int);
        }
        let ghost before = out@;
        match find_place(&cs, &ts, i) {
            None => {
                out.push(text_between(&cs, i, cs.len()));
                assert(texts(out@) =~= texts(before) + seq![
                    cs@.subrange(i as int, cs@.len() as int),
                ]);
                break;
            },
            Some(p) => {
                out.push(text_between(&cs, i, p));
                assert(texts(out@) =~= texts(before) + seq![cs@.subrange(i as int, p as int)]);
                assert(want =~= texts(out@) + split_from(cs@, ts@, p + ts@.len()));
                i = p + ts.len();
            },
        }
    }
    out
}

/// `s` with `u` in place of every occurrence of `t`.
pub fn replace(s: &str, t: &str, u: &str) -> (r: String)
    requires
        t@.len() > 0,
    ensures
        r@ == replace_from(s@, t@, u@, 0),
{
    let cs: Vec<char> = chars_of(s);
    let ts: Vec<char> = chars_of(t);
    let mut out: String = String::new();
    let mut i: usize = 0;
    let ghost want = replace_from(s@, t@, u@, 0);
    proof {
        reveal_strlit("");
    }
    assert(want =~= out@ + replace_from(cs@, ts@, u@, 0));
    loop
        invariant_except_break
            i <= cs@.len(),
            ts@.len() > 0,
            want == out@ + replace_from(cs@, ts@, u@, i as int),
        ensures
            want == out@,
        decreases cs.len() - i,
    {
        proof {
            first_place_range(cs@, ts@, i as int);
        }
        match find_place(&cs, &ts, i) {
            None => {
                let part: String = text_between(&cs, i, cs.len());
                out.append(part.as_str());
                break;
            },
            Some(p) => {
                let part: String = text_between(&cs, i, p);
                let ghost before = out@;
                out.append(part.as_str());
                out.append(u);
                assert(want =~= out@ + replace_from(cs@, ts@, u@, p + ts@.len()));
                i = p + ts.len();
            },
        }
    }
    out
}

proof fn line_end_range(s: Seq<char>, i: int)
    requires
        0 <= i <= s.len(),
    ensures
        i <= line_end(s, i) <= s.len(),
    decreases s.len() - i,
{
    if i < s.len() && s[i] != '\n' {
        line_end_range(s, i + 1);
    }
}

/// The lines of a text.
pub fn lines(s: &str) -> (r: Vec<String>)
    ensures
        texts(r@) == lines_from(s@, 0),
{
    let cs: Vec<char> = chars_of(s);
    let mut out: Vec<String> = Vec::new();
    let mut i: usize = 0;
    let ghost want = lines_from(s@, 0);
    assert(texts(out@) =~= Seq::empty());
    assert(want =~= texts(out@) + lines_from(cs@, 0));
    while i < cs.len()
        invariant
            i <= cs@.len(),
            want == texts(out@) + lines_from(cs@, i as int),
        decreases cs.len() - i,
    {
        let mut e: usize = i;
        while e < cs.len() && cs[e] != '\n'
            invariant
                i <= e <= cs@.len(),
                line_end(cs@, i as int) == line_end(cs@, e as int),
            decreases cs.len() - e,
        {
            e = e + 1;
        }
        let ghost before = out@;
        if e == cs.len() {
            out.push(text_between(&cs, i, e));
            assert(texts(out@) =~= texts(before) + seq![
                cs@.subrange(i as int, cs@.len() as int),
            ]);
            assert(lines_from(cs@, e as int) =~= Seq::empty());
            assert(want =~= texts(out@) + lines_from(cs@, e as int));
            i = e;
        } else {
            let mut stop: usize = e;
            if e > i && cs[e - 1] == '\r' {
                stop = e - 1;
            }
            out.push(text_between(&cs, i, stop));
            assert(cs@.subrange(i as int, stop as int) =~= without_return(
                cs@.subrange(i as int, e as int),
            ));
            assert(texts(out@) =~= texts(before) + seq![
                without_return(cs@.subrange(i as int, e as int)),
            ]);
            assert(want =~= texts(out@) + lines_from(cs@, e + 1));
            i = e + 1;
        }
    }
    assert(lines_from(cs@, i as int) =~= Seq::empty());
    assert(want =~= texts(out@));
    out
}

/// A line as it was read, without the line ending.
pub fn chomp(s: &str) -> (r: String)
    ensures
        r@ == chomped(s@),
{
    let cs: Vec<char> = chars_of(s);
    let mut n: usize = cs.len();
    if n > 0 && cs[n - 1] == '\n' {
        n = n - 1;
        assert(s@.drop_last() =~= s@.subrange(0, n as int));
        if n > 0 && cs[n - 1] == '\r' {
            n = n - 1;
            assert(s@.drop_last().drop_last() =~= s@.subrange(0, n as int));
        }
    }
    let r: String = text_between(&cs, 0, n);
    assert(n == s@.len() ==> s@.subrange(0, n as int) =~= s@);
    r
}

/// Whether a character is white space: the characters with the Unicode property
/// `White_Space`.
pub open spec fn white_space(c: char) -> bool {
    let n = c as u32;
    ||| 0x09 <= n <= 0x0D
    ||| n == 0x20
    ||| n == 0x85
    ||| n == 0xA0
    ||| n == 0x1680
    ||| 0x2000 <= n <= 0x200A
    ||| n == 0x2028
    ||| n == 0x2029
    ||| n == 0x202F
    ||| n == 0x205F
    ||| n == 0x3000
}

/// Whether a character is white space.
pub fn is_white_space(c: char) -> (r: bool)
    ensures
        r == white_space(c),
{
    let n: u32 = c as u32;
    (0x09 <= n && n <= 0x0D) || n == 0x20 || n == 0x85 || n == 0xA0 || n == 0x1680 || (0x2000 <= n
        && n <= 0x200A) || n == 0x2028 || n == 0x2029 || n == 0x202F || n == 0x205F || n == 0x3000
}

/// A text in upper case.
pub uninterp spec fn upper_text(s: Seq<char>) -> Seq<char>;

/// `str::to_uppercase`: the text in upper case. Claims only that the result
/// depends on nothing but the text.
#[verifier::external_body]
pub(crate) fn to_upper(s: &str) -> (r: String)
    ensures
        r@ == upper_text(s@),
{
    s.to_uppercase()
}

/// A text in lower case.
pub uninterp spec fn lower_text(s: Seq<char>) -> Seq<char>;

/// `str::to_lowercase`: the text in lower case. Claims only that the result
/// depends on nothing but the text.
#[verifier::external_body]
pub(crate) fn to_lower(s: &str) -> (r: String)
    ensures
        r@ == lower_text(s@),
{
    s.to_lowercase()
}

/// A text without the white space at its start.
pub open spec fn trimmed_start(s: Seq<char>) -> Seq<char>
    decreases s.len(),
{
    if s.len() > 0 && white_space(s[0]) {
        trimmed_start(s.subrange(1, s.len() as int))
    } else {
        s
    }
}

/// A text without the white space at its end.
pub open spec fn trimmed_end(s: Seq<char>) -> Seq<char>
    decreases s.len(),
{
    if s.len() > 0 && white_space(s.last()) {
        trimmed_end(s.drop_last())
    } else {
        s
    }
}

/// A text without the white space at its two ends.
pub open spec fn trimmed(s: Seq<char>) -> Seq<char> {
    trimmed_end(trimmed_start(s))
}

/// A text without the white space at its two ends.
pub fn trim(s: &str) -> (r: String)
    ensures
        r@ == trimmed(s@),
{
    let cs: Vec<char> = chars_of(s);
    let mut i: usize = 0;
    let n: usize = cs.len();
    assert(cs@.subrange(0, n as int) =~= s@);
    while i < n && is_white_space(cs[i])
        invariant
            i <= n,
            n == cs@.len(),
            trimmed_start(s@) == trimmed_start(cs@.subrange(i as int, n as int)),
        decreases n - i,
    {
        let ghost rest = cs@.subrange(i as int, n as int);
        assert(rest.subrange(1, rest.len() as int) =~= cs@.subrange(i + 1, n as int));
        i = i + 1;
    }
    let ghost rest = cs@.subrange(i as int, n as int);
    assert(trimmed_start(s@) == rest);
    let mut j: usize = n;
    while j > i && is_white_space(cs[j - 1])
        invariant
            i <= j <= n,
            n == cs@.len(),
            trimmed_end(rest) == trimmed_end(cs@.subrange(i as int, j as int)),
        decreases j,
    {
        assert(cs@.subrange(i as int, j as int).drop_last() =~= cs@.subrange(i as int, j - 1));
        j = j - 1;
    }
    text_between(&cs, i, j)
}

/// The 32-bit integer that a text denotes.
pub fn parse_int(s: &str) -> (r: Option<i64>)
    ensures
        r == int_from(s@),
{
    let cs: Vec<char> = chars_of(s);
    let n: usize = cs.len();
    if n == 0 {
        return None;
    }
    let mut start: usize = 0;
    if cs[0] == '-' || cs[0] == '+' {
        start = 1;
    }
    let negative: bool = cs[0] == '-';
    let ghost d = cs@.subrange(start as int, n as int);
    assert(!signed(s@) ==> d =~= s@);
    if start == n {
        return None;
    }
    let mut k: usize = start;
    let mut value: i64 = 0;
    let mut big: bool = false;
    assert(d.subrange(0, 0) =~= Seq::<char>::empty());
    while k < n
        invariant
            start <= k <= n,
            n == cs@.len(),
            d == cs@.subrange(start as int, n as int),
            d == (if signed(s@) {
                s@.subrange(1, s@.len() as int)
            } else {
                s@
            }),
            forall|j: int| 0 <= j < k - start ==> is_digit(#[trigger] d[j]),
            0 <= value <= 0x8000_0000,
            !big ==> value == digits_value(d.subrange(0, k - start)),
            big ==> digits_value(d.subrange(0, k - start)) > 0x8000_0000,
        decreases n - k,
    {
        let c: char = cs[k];
        assert(d[k - start] == c);
        if c < '0' || c > '9' {
            assert(!is_digit(d[k - start]));
            return None;
        }
        let ghost next = d.subrange(0, k + 1 - start);
        assert(next.drop_last() =~= d.subrange(0, k - start));
        assert(next.last() == c);
        let v: i64 = value * 10 + ((c as u32) as i64 - 48);
        if v > 0x8000_0000 {
            big = true;
        } else if !big {
            value = v;
        }
        k = k + 1;
    }
    assert(d.subrange(0, n - start) =~= d);
    assert(all_digits(d));
    if big {
        None
    } else if negative {
        Some(-value)
    } else if value > 0x7fff_ffff {
        None
    } else {
        Some(value)
    }
}

} // verus!
