//! The block-depth tracker: bounds a declaration's body by counting braces
//! line by line, with depth that never drops below zero.
use vstd::prelude::*;
use crate::text::{count_char, count_occurrences};

verus! {

/// The number of opening braces on `line`.
pub open spec fn opening(line: Seq<char>) -> nat {
    count_char(line, '{')
}

/// The number of closing braces on `line`.
pub open spec fn closing(line: Seq<char>) -> nat {
    count_char(line, '}')
}

/// The depth after one more line: raised by its opening braces, then lowered
/// by its closing braces, but not below zero.
pub open spec fn step(depth: nat, line: Seq<char>) -> nat {
    let d = depth + opening(line);
    if d >= closing(line) {
        (d - closing(line)) as nat
    } else {
        0
    }
}

/// The depth after the lines `from .. to`, counted from zero.
pub open spec fn depth_after(lines: Seq<Seq<char>>, from: int, to: int) -> nat
    decreases to - from,
{
    if to <= from {
        0
    } else {
        step(depth_after(lines, from, to - 1), lines[to - 1])
    }
}

/// The opening braces on the lines `from .. to`.
pub open spec fn opening_between(lines: Seq<Seq<char>>, from: int, to: int) -> nat
    decreases to - from,
{
    if to <= from {
        0
    } else {
        opening_between(lines, from, to - 1) + opening(lines[to - 1])
    }
}

/// All opening braces of `lines`.
pub open spec fn opening_total(lines: Seq<Seq<char>>) -> nat {
    opening_between(lines, 0, lines.len() as int)
}

/// The first line at or after `from` that holds an opening brace: where the
/// body is entered. `lines.len()` if there is none.
pub open spec fn body_start(lines: Seq<Seq<char>>, from: int) -> int
    decreases lines.len() - from,
{
    if from >= lines.len() {
        lines.len() as int
    } else if opening(lines[from]) > 0 {
        from
    } else {
        body_start(lines, from + 1)
    }
}

/// The first line at or after `from` after which the depth counted from
/// `start` is zero. `lines.len()` if the depth never returns to zero.
pub open spec fn first_zero(lines: Seq<Seq<char>>, start: int, from: int) -> int
    decreases lines.len() - from,
{
    if from >= lines.len() {
        lines.len() as int
    } else if depth_after(lines, start, from + 1) == 0 {
        from
    } else {
        first_zero(lines, start, from + 1)
    }
}

/// The line that closes a body entered on line `start`.
pub open spec fn body_close(lines: Seq<Seq<char>>, start: int) -> int {
    first_zero(lines, start, start)
}

/// One past the last line of a body entered on line `start`: the closing line
/// belongs to the body; a body that never closes runs to the end.
pub open spec fn body_end(lines: Seq<Seq<char>>, start: int) -> int {
    let c = body_close(lines, start);
    if c < lines.len() {
        c + 1
    } else {
        lines.len() as int
    }
}

proof fn lemma_depth_le_opening(lines: Seq<Seq<char>>, from: int, to: int)
    ensures
        depth_after(lines, from, to) <= opening_between(lines, from, to),
    decreases to - from,
{
    if to > from {
        lemma_depth_le_opening(lines, from, to - 1);
    }
}

proof fn lemma_opening_split(lines: Seq<Seq<char>>, a: int, b: int, c: int)
    requires
        a <= b <= c,
    ensures
        opening_between(lines, a, c) == opening_between(lines, a, b) + opening_between(
            lines,
            b,
            c,
        ),
    decreases c - b,
{
    if c > b {
        lemma_opening_split(lines, a, b, c - 1);
    }
}

/// The body is entered at or after `from`, and not past the end.
pub proof fn lemma_body_start_bounds(lines: Seq<Seq<char>>, from: int)
    requires
        0 <= from <= lines.len(),
    ensures
        from <= body_start(lines, from) <= lines.len(),
    decreases lines.len() - from,
{
    if from < lines.len() && opening(lines[from]) == 0 {
        lemma_body_start_bounds(lines, from + 1);
    }
}

/// The closing line is at or after `from`, and not past the end.
pub proof fn lemma_first_zero_bounds(lines: Seq<Seq<char>>, start: int, from: int)
    requires
        0 <= from <= lines.len(),
    ensures
        from <= first_zero(lines, start, from) <= lines.len(),
    decreases lines.len() - from,
{
    if from < lines.len() && depth_after(lines, start, from + 1) != 0 {
        lemma_first_zero_bounds(lines, start, from + 1);
    }
}

/// The depth depends only on the lines counted.
pub proof fn lemma_depth_agree(a: Seq<Seq<char>>, b: Seq<Seq<char>>, from: int, to: int)
    requires
        forall|k: int| from <= k < to ==> a[k] == b[k],
    ensures
        depth_after(a, from, to) == depth_after(b, from, to),
    decreases to - from,
{
    if to > from {
        lemma_depth_agree(a, b, from, to - 1);
    }
}

/// Where the body is entered depends only on the lines up to that point.
pub proof fn lemma_body_start_agree(a: Seq<Seq<char>>, b: Seq<Seq<char>>, from: int)
    requires
        0 <= from,
        body_start(a, from) < a.len(),
        body_start(a, from) < b.len(),
        forall|k: int| from <= k <= body_start(a, from) ==> a[k] == b[k],
    ensures
        body_start(b, from) == body_start(a, from),
    decreases a.len() - from,
{
    lemma_body_start_bounds(a, from);
    assert(a[from] == b[from]);
    if opening(a[from]) == 0 {
        lemma_body_start_agree(a, b, from + 1);
    }
}

/// Where the body closes depends only on the lines up to that point.
pub proof fn lemma_first_zero_agree(a: Seq<Seq<char>>, b: Seq<Seq<char>>, start: int, from: int)
    requires
        0 <= start <= from,
        first_zero(a, start, from) < a.len(),
        first_zero(a, start, from) < b.len(),
        forall|k: int| start <= k <= first_zero(a, start, from) ==> a[k] == b[k],
    ensures
        first_zero(b, start, from) == first_zero(a, start, from),
    decreases a.len() - from,
{
    lemma_first_zero_bounds(a, start, from);
    lemma_depth_agree(a, b, start, from + 1);
    if depth_after(a, start, from + 1) != 0 {
        lemma_first_zero_agree(a, b, start, from + 1);
    }
}

/// Finds where the body of a declaration on line `decl` is entered and where
/// it closes: `(body_start, body_close)`.
pub fn body_bounds(lines: &Vec<String>, decl: usize) -> (r: (usize, usize))
    requires
        decl <= lines.len(),
        opening_total(lines.deep_view()) <= usize::MAX,
    ensures
        r.0 == body_start(lines.deep_view(), decl as int),
        r.1 == body_close(lines.deep_view(), r.0 as int),
        decl <= r.0 <= r.1 <= lines.len(),
{
    let ghost v = lines.deep_view();
    let n = lines.len();
    let mut s: usize = decl;
    while s < n && count_occurrences(lines[s].as_str(), '{') == 0
        invariant
            v == lines.deep_view(),
            n == lines.len(),
            decl <= s <= n,
            body_start(v, decl as int) == body_start(v, s as int),
        decreases n - s,
    {
        s = s + 1;
    }
    assert(s == body_start(v, s as int));
    let mut depth: usize = 0;
    let mut j: usize = s;
    while j < n
        invariant
            v == lines.deep_view(),
            n == lines.len(),
            decl <= s <= j <= n,
            s == body_start(v, decl as int),
            depth == depth_after(v, s as int, j as int),
            j > s ==> depth > 0,
            first_zero(v, s as int, s as int) == first_zero(v, s as int, j as int),
            opening_total(v) <= usize::MAX,
        decreases n - j,
    {
        let o = count_occurrences(lines[j].as_str(), '{');
        let c = count_occurrences(lines[j].as_str(), '}');
        proof {
            lemma_depth_le_opening(v, s as int, j as int);
            lemma_opening_split(v, s as int, j as int, j + 1);
            lemma_opening_split(v, 0, s as int, j + 1);
            lemma_opening_split(v, 0, j + 1, n as int);
        }
        let d = depth + o;
        depth = if d >= c {
            d - c
        } else {
            0
        };
        if depth == 0 {
            return (s, j);
        }
        j = j + 1;
    }
    (s, j)
}

} // verus!
