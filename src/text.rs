//! Plain text helpers: splitting into lines, counting characters, joining.
use vstd::prelude::*;

verus! {

/// The pieces of `s` between its newline characters (one more than there are
/// newlines).
pub open spec fn newline_pieces(s: Seq<char>) -> Seq<Seq<char>>
    decreases s.len(),
{
    if s.len() == 0 {
        seq![Seq::<char>::empty()]
    } else {
        let p = newline_pieces(s.drop_last());
        if s.last() == '\n' {
            p.push(Seq::<char>::empty())
        } else if p.len() == 0 {
            seq![seq![s.last()]]
        } else {
            p.update(p.len() - 1, p.last().push(s.last()))
        }
    }
}

/// The lines of `s`: split at `\n` or `\r\n`, terminators removed, the final
/// line ending optional.
pub open spec fn lines_of(s: Seq<char>) -> Seq<Seq<char>> {
    let p = newline_pieces(s);
    let kept = if p.len() > 0 && p.last().len() == 0 {
        p.drop_last()
    } else {
        p
    };
    kept.map(
        |i: int, l: Seq<char>|
            if i < p.len() - 1 && l.len() > 0 && l.last() == '\r' {
                l.drop_last()
            } else {
                l
            },
    )
}

/// Relies on `str::lines`: lines end at `\n` or `\r\n`, which are not part of
/// the line, and a final line ending adds no empty line.
#[verifier::external_body]
pub(crate) fn split_lines(s: &str) -> (r: Vec<String>)
    ensures
        r.deep_view() == lines_of(s@),
{
    s.lines().map(|l| l.to_string()).collect()
}

/// The characters of `s`, in order.
pub fn chars_of(s: &str) -> (r: Vec<char>)
    ensures
        r@ == s@,
{
    broadcast use vstd::string::group_string_axioms;

    let mut r: Vec<char> = Vec::new();
    for ch in it: s.chars()
        invariant
            it.seq() == s@,
            r@ == s@.subrange(0, it.index() as int),
    {
        r.push(ch);
        assert(r@ =~= s@.subrange(0, it.index() + 1));
    }
    assert(s@.subrange(0, s@.len() as int) =~= s@);
    r
}

/// How many times `c` occurs in `s`.
pub open spec fn count_char(s: Seq<char>, c: char) -> nat
    decreases s.len(),
{
    if s.len() == 0 {
        0
    } else {
        count_char(s.drop_last(), c) + if s.last() == c {
            1nat
        } else {
            0nat
        }
    }
}

proof fn lemma_count_char_le_len(s: Seq<char>, c: char)
    ensures
        count_char(s, c) <= s.len(),
    decreases s.len(),
{
    if s.len() > 0 {
        lemma_count_char_le_len(s.drop_last(), c);
    }
}

/// Counts the occurrences of `c` in `s`.
pub fn count_occurrences(s: &str, c: char) -> (r: usize)
    ensures
        r == count_char(s@, c),
{
    let cs = chars_of(s);
    let mut n: usize = 0;
    let mut i: usize = 0;
    while i < cs.len()
        invariant
            cs@ == s@,
            i <= cs.len(),
            n == count_char(s@.subrange(0, i as int), c),
        decreases cs.len() - i,
    {
        proof {
            let pre = s@.subrange(0, i as int);
            let next = s@.subrange(0, i + 1);
            assert(next.drop_last() == pre);
            lemma_count_char_le_len(pre, c);
        }
        if cs[i] == c {
            n = n + 1;
        }
        i = i + 1;
    }
    assert(s@.subrange(0, cs.len() as int) == s@);
    n
}

/// Whether `s` ends with `suffix`.
pub open spec fn has_suffix(s: Seq<char>, suffix: Seq<char>) -> bool {
    suffix.len() <= s.len() && s.subrange(s.len() - suffix.len(), s.len() as int) == suffix
}

/// Tells whether `s` ends with `suffix`.
pub fn ends_with(s: &str, suffix: &str) -> (r: bool)
    ensures
        r == has_suffix(s@, suffix@),
{
    let cs = chars_of(s);
    let ts = chars_of(suffix);
    if ts.len() > cs.len() {
        return false;
    }
    let off: usize = cs.len() - ts.len();
    let mut i: usize = 0;
    while i < ts.len()
        invariant
            cs@ == s@,
            ts@ == suffix@,
            off == cs.len() - ts.len(),
            i <= ts.len(),
            forall|k: int| 0 <= k < i ==> cs@[off + k] == ts@[k],
        decreases ts.len() - i,
    {
        if cs[off + i] != ts[i] {
            assert(s@.subrange(off as int, s@.len() as int)[i as int] != suffix@[i as int]);
            return false;
        }
        i = i + 1;
    }
    assert(s@.subrange(off as int, s@.len() as int) =~= suffix@);
    true
}

/// The items of `items` with `sep` between each two neighbours.
pub open spec fn joined(items: Seq<Seq<char>>, sep: Seq<char>) -> Seq<char>
    decreases items.len(),
{
    if items.len() == 0 {
        Seq::<char>::empty()
    } else if items.len() == 1 {
        items[0]
    } else {
        joined(items.drop_last(), sep) + sep + items.last()
    }
}

/// Joins `items` with `sep` between each two neighbours.
pub fn join(items: &Vec<String>, sep: &str) -> (r: String)
    ensures
        r@ == joined(items.deep_view(), sep@),
{
    let ghost v = items.deep_view();
    if items.len() == 0 {
        return String::new();
    }
    let mut r = items[0].clone();
    let mut i: usize = 1;
    assert(v.subrange(0, 1).drop_last().len() == 0);
    while i < items.len()
        invariant
            v == items.deep_view(),
            1 <= i <= items.len(),
            r@ == joined(v.subrange(0, i as int), sep@),
        decreases items.len() - i,
    {
        r.append(sep);
        r.append(items[i].as_str());
        assert(v.subrange(0, i + 1).drop_last() =~= v.subrange(0, i as int));
        i = i + 1;
    }
    assert(v.subrange(0, items.len() as int) =~= v);
    r
}

} // verus!
