//! Did-you-mean suggestions.

use crate::text::{cat3, same};
use crate::typer::ast::texts;
use vstd::prelude::*;
use vstd::utf8::encode_utf8;

verus! {

/// The smaller of two numbers.
pub open spec fn lesser(a: nat, b: nat) -> nat {
    if a <= b {
        a
    } else {
        b
    }
}

/// Levenshtein distance between the first `i` characters of `a` and the first
/// `j` of `b`: the least number of insertions, deletions and replacements that
/// turn one into the other.
pub open spec fn distance(a: Seq<char>, b: Seq<char>, i: int, j: int) -> nat
    decreases i, j,
{
    if i <= 0 {
        if j <= 0 {
            0
        } else {
            j as nat
        }
    } else if j <= 0 {
        i as nat
    } else {
        let cost: nat = if a[i - 1] == b[j - 1] {
            0
        } else {
            1
        };
        lesser(
            lesser(distance(a, b, i - 1, j - 1) + cost, distance(a, b, i - 1, j) + 1),
            distance(a, b, i, j - 1) + 1,
        )
    }
}

/// The distance is at least the difference of the lengths and at most the
/// greater length.
proof fn distance_bounds(a: Seq<char>, b: Seq<char>, i: int, j: int)
    requires
        0 <= i,
        0 <= j,
    ensures
        distance(a, b, i, j) >= i - j,
        distance(a, b, i, j) >= j - i,
        distance(a, b, i, j) <= i + j,
    decreases i, j,
{
    if i > 0 && j > 0 {
        distance_bounds(a, b, i - 1, j - 1);
        distance_bounds(a, b, i - 1, j);
        distance_bounds(a, b, i, j - 1);
    }
}

/// The distance is symmetric.
pub proof fn distance_symmetric(a: Seq<char>, b: Seq<char>, i: int, j: int)
    requires
        0 <= i,
        0 <= j,
    ensures
        distance(a, b, i, j) == distance(b, a, j, i),
    decreases i, j,
{
    if i > 0 && j > 0 {
        distance_symmetric(a, b, i - 1, j - 1);
        distance_symmetric(a, b, i - 1, j);
        distance_symmetric(a, b, i, j - 1);
    }
}

/// Only equal texts have distance zero.
pub proof fn distance_zero(a: Seq<char>, b: Seq<char>, i: int, j: int)
    requires
        0 <= i <= a.len(),
        0 <= j <= b.len(),
    ensures
        distance(a, b, i, j) == 0 <==> a.subrange(0, i) == b.subrange(0, j),
    decreases i, j,
{
    distance_bounds(a, b, i, j);
    if i == 0 || j == 0 {
        if i == j {
            assert(a.subrange(0, i) =~= b.subrange(0, j));
        } else {
            assert(a.subrange(0, i).len() != b.subrange(0, j).len());
        }
    } else {
        distance_zero(a, b, i - 1, j - 1);
        assert(a.subrange(0, i) =~= a.subrange(0, i - 1).push(a[i - 1]));
        assert(b.subrange(0, j) =~= b.subrange(0, j - 1).push(b[j - 1]));
        if a.subrange(0, i) == b.subrange(0, j) {
            assert(a.subrange(0, i).drop_last() =~= a.subrange(0, i - 1));
            assert(b.subrange(0, j).drop_last() =~= b.subrange(0, j - 1));
            assert(a.subrange(0, i).last() == a[i - 1]);
            assert(b.subrange(0, j).last() == b[j - 1]);
        }
    }
}

/// Once a whole row exceeds `cap`, so does every later one.
proof fn row_exceeds(a: Seq<char>, b: Seq<char>, i: int, n: int, j: int, cap: int)
    requires
        0 <= i <= n,
        0 <= j <= b.len(),
        forall|k: int| 0 <= k <= b.len() ==> distance(a, b, i, k) > cap,
    ensures
        distance(a, b, n, j) > cap,
    decreases n, j,
{
    if n > i {
        if j == 0 {
            assert(distance(a, b, i, 0) > cap);
        } else {
            row_exceeds(a, b, i, n - 1, j - 1, cap);
            row_exceeds(a, b, i, n - 1, j, cap);
            row_exceeds(a, b, i, n, j - 1, cap);
        }
    }
}

/// The characters of a text.
pub fn chars_of(s: &str) -> (r: Vec<char>)
    ensures
        r@ == s@,
{
    let mut out: Vec<char> = Vec::new();
    let n: usize = s.unicode_len();
    let mut i: usize = 0;
    while i < n
        invariant
            i <= n,
            n == s@.len(),
            out@ == s@.subrange(0, i as int),
        decreases n - i,
    {
        out.push(s.get_char(i));
        assert(s@.subrange(0, i + 1) =~= s@.subrange(0, i as int).push(s@[i as int]));
        i = i + 1;
    }
    assert(s@.subrange(0, n as int) =~= s@);
    out
}

/// Levenshtein distance, early-exiting once it must exceed `cap`.
pub fn edit_distance(a: &str, b: &str, cap: usize) -> (r: usize)
    requires
        cap < usize::MAX,
    ensures
        distance(a@, b@, a@.len() as int, b@.len() as int) <= cap ==> r == distance(
            a@,
            b@,
            a@.len() as int,
            b@.len() as int,
        ),
        distance(a@, b@, a@.len() as int, b@.len() as int) > cap ==> r > cap,
{
    let xs: Vec<char> = chars_of(a);
    let ys: Vec<char> = chars_of(b);
    let n: usize = xs.len();
    let m: usize = ys.len();
    proof {
        distance_bounds(xs@, ys@, n as int, m as int);
    }
    if (if n > m {
        n - m
    } else {
        m - n
    }) > cap {
        return cap + 1;
    }
    let mut prev: Vec<u128> = Vec::new();
    let mut k: u128 = 0;
    while k <= m as u128
        invariant
            k <= m + 1,
            n <= usize::MAX,
            m <= usize::MAX,
            prev@.len() == k,
            forall|j: int| 0 <= j < k ==> (#[trigger] prev@[j]) == distance(xs@, ys@, 0, j),
        decreases m + 1 - k,
    {
        prev.push(k);
        k = k + 1;
    }
    let mut i: usize = 0;
    while i < n
        invariant
            i <= n,
            n == xs@.len(),
            m == ys@.len(),
            xs@ == a@,
            ys@ == b@,
            cap < usize::MAX,
            prev@.len() == m + 1,
            forall|j: int| 0 <= j <= m ==> (#[trigger] prev@[j]) == distance(xs@, ys@, i as int, j),
        decreases n - i,
    {
        let mut row: Vec<u128> = Vec::new();
        row.push(i as u128 + 1);
        let mut row_min: u128 = i as u128 + 1;
        let mut j: usize = 0;
        assert(row@[0] == row_min);
        while j < m
            invariant
                i < n,
                j <= m,
                n == xs@.len(),
                m == ys@.len(),
                prev@.len() == m + 1,
                forall|q: int|
                    0 <= q <= m ==> (#[trigger] prev@[q]) == distance(xs@, ys@, i as int, q),
                row@.len() == j + 1,
                forall|q: int| 0 <= q <= j ==> (#[trigger] row@[q]) == distance(xs@, ys@, i + 1, q),
                forall|q: int| 0 <= q <= j ==> row_min <= (#[trigger] row@[q]),
                exists|q: int| 0 <= q <= j && row_min == (#[trigger] row@[q]),
            decreases m - j,
        {
            let cost: u128 = if xs[i] == ys[j] {
                0
            } else {
                1
            };
            proof {
                distance_bounds(xs@, ys@, i as int, j as int);
                distance_bounds(xs@, ys@, i as int, j + 1);
                distance_bounds(xs@, ys@, i + 1, j as int);
                assert(prev@[j as int] == distance(xs@, ys@, i as int, j as int));
                assert(prev@[j + 1] == distance(xs@, ys@, i as int, j + 1));
                assert(row@[j as int] == distance(xs@, ys@, i + 1, j as int));
            }
            let mut v: u128 = prev[j] + cost;
            if prev[j + 1] + 1 < v {
                v = prev[j + 1] + 1;
            }
            if row[j] + 1 < v {
                v = row[j] + 1;
            }
            let ghost before = row@;
            let ghost least = row_min;
            let ghost q0 = choose|q: int| 0 <= q <= j && row_min == (#[trigger] row@[q]);
            row.push(v);
            if v < row_min {
                row_min = v;
                assert(row@[j + 1] == row_min);
            } else {
                assert(row@[q0] == before[q0]);
            }
            assert(forall|q: int| 0 <= q <= j ==> row@[q] == before[q]);
            j = j + 1;
        }
        if row_min > cap as u128 {
            proof {
                let n1 = i + 1;
                assert forall|q: int| 0 <= q <= ys@.len() implies #[trigger] distance(xs@, ys@, n1, q)
                    > cap by {
                    assert(row@[q] == distance(xs@, ys@, i + 1, q));
                }
                row_exceeds(xs@, ys@, i + 1, n as int, m as int, cap as int);
            }
            return cap + 1;
        }
        prev = row;
        i = i + 1;
    }
    if prev[m] <= cap as u128 {
        prev[m] as usize
    } else {
        cap + 1
    }
}

/// The greatest distance at which a name still counts as a misspelling.
pub open spec fn misspelling(target: Seq<char>) -> nat {
    (1 + (encode_utf8(target).len() as usize) / 4) as nat
}

/// How far a name is from the target.
pub open spec fn apart(name: Seq<char>, target: Seq<char>) -> nat {
    distance(name, target, name.len() as int, target.len() as int)
}

/// The closest of the first `n` names, the first of several: it is not the
/// target itself and no further from it than a misspelling.
pub open spec fn closest(names: Seq<Seq<char>>, target: Seq<char>, n: int) -> Option<Seq<char>>
    decreases n,
{
    if n <= 0 {
        None
    } else {
        let best = closest(names, target, n - 1);
        let name = names[n - 1];
        if name == target || apart(name, target) > misspelling(target) {
            best
        } else {
            match best {
                None => Some(name),
                Some(b) => if apart(name, target) < apart(b, target) {
                    Some(name)
                } else {
                    best
                },
            }
        }
    }
}

/// The suggestion as it is appended to a message.
pub open spec fn suggestion(names: Seq<Seq<char>>, target: Seq<char>) -> Seq<char> {
    match closest(names, target, names.len() as int) {
        Some(n) => " — did you mean `"@ + n + "`?"@,
        None => seq![],
    }
}

/// ` — did you mean \`x\`?` when a candidate is a close misspelling
/// of `target`, else empty. Distance cap scales with length so short
/// names don't match everything.
pub fn suggest(candidates: &Vec<String>, target: &str) -> (r: String)
    ensures
        r@ == suggestion(texts(candidates@), target@),
{
    let cap: usize = 1 + target.len() / 4;
    let mut best: Option<usize> = None;
    let mut best_distance: usize = 0;
    let mut i: usize = 0;
    while i < candidates.len()
        invariant
            i <= candidates@.len(),
            cap == misspelling(target@),
            cap < usize::MAX,
            match best {
                None => closest(texts(candidates@), target@, i as int) is None,
                Some(b) => b < candidates@.len() && closest(
                    texts(candidates@),
                    target@,
                    i as int,
                ) == Some(candidates@[b as int]@) && best_distance == apart(
                    candidates@[b as int]@,
                    target@,
                ),
            },
        decreases candidates.len() - i,
    {
        let name: &str = candidates[i].as_str();
        if !same(name, target) {
            let d: usize = edit_distance(name, target, cap);
            if d <= cap {
                match best {
                    None => {
                        best = Some(i);
                        best_distance = d;
                    },
                    Some(_) => {
                        if d < best_distance {
                            best = Some(i);
                            best_distance = d;
                        }
                    },
                }
            }
        }
        i = i + 1;
    }
    match best {
        Some(b) => cat3(" — did you mean `", candidates[b].as_str(), "`?"),
        None => {
            let none: String = String::new();
            assert(none@ =~= seq![]);
            none
        },
    }
}

} // verus!
