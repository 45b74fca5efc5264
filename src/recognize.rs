//! Recognizers for single lines of Go source: test declarations and sub-test
//! invocations. The matching itself is done by the `regex` crate.
use vstd::prelude::*;

verus! {

/// A line declaring `func TestXxx(<name> *testing.T)` or `*testing.B` (and
/// the like); the first group is the test's name.
pub const TEST_DECLARATION: &'static str = r"func\s+(Test\w+)\s*\([^)]*\*testing\.[TB]\w*\)";

/// A call `.Run("name"`; the first group is the quoted name.
pub const SUBTEST_CALL: &'static str = r#"\.Run\s*\(\s*"([^"]+)""#;

/// Whether `pattern` is accepted by `regex::Regex::new`.
pub uninterp spec fn regex_accepts(pattern: Seq<char>) -> bool;

/// The first capture group of the leftmost match of `pattern` in `hay`, if
/// the pattern compiles, some match exists and the group took part in it.
pub uninterp spec fn regex_first_group(pattern: Seq<char>, hay: Seq<char>) -> Option<Seq<char>>;

/// For each successive non-overlapping match of `pattern` in `hay`, its first
/// capture group if that group took part; empty if the pattern does not
/// compile.
pub uninterp spec fn regex_groups_per_match(pattern: Seq<char>, hay: Seq<char>) -> Seq<
    Option<Seq<char>>,
>;

/// Relies on `regex::Regex::new`: whether the pattern compiles.
#[verifier::external_body]
fn compiles(pattern: &str) -> (r: bool)
    ensures
        r == regex_accepts(pattern@),
{
    regex::Regex::new(pattern).is_ok()
}

/// Relies on `regex::Regex::new`, then `regex::Regex::captures` on each
/// haystack: group 1 of the leftmost-first match.
#[verifier::external_body]
fn first_group_each(pattern: &str, hays: &Vec<String>) -> (r: Vec<Option<String>>)
    ensures
        r@.len() == hays@.len(),
        forall|i: int|
            0 <= i < hays@.len() ==> #[trigger] r@[i].deep_view() == regex_first_group(
                pattern@,
                hays@[i]@,
            ),
        !regex_accepts(pattern@) ==> forall|i: int| 0 <= i < r@.len() ==> #[trigger] r@[i] is None,
{
    match regex::Regex::new(pattern) {
        Ok(re) => hays.iter().map(|h| re.captures(h).and_then(|c| c.get(1)).map(|m| m.as_str().to_string())).collect(),
        Err(_) => hays.iter().map(|_| None).collect(),
    }
}

/// Relies on `regex::Regex::new`, then `regex::Regex::captures_iter` on each
/// haystack: group 1 of each successive non-overlapping match.
#[verifier::external_body]
fn groups_per_match_each(pattern: &str, hays: &Vec<String>) -> (r: Vec<Vec<Option<String>>>)
    ensures
        r@.len() == hays@.len(),
        forall|i: int|
            0 <= i < hays@.len() ==> #[trigger] r@[i].deep_view() == regex_groups_per_match(
                pattern@,
                hays@[i]@,
            ),
        !regex_accepts(pattern@) ==> forall|i: int| 0 <= i < r@.len() ==> #[trigger] r@[i]@.len() == 0,
{
    match regex::Regex::new(pattern) {
        Ok(re) => hays.iter().map(|h| re.captures_iter(h).map(|c| c.get(1).map(|m| m.as_str().to_string())).collect()).collect(),
        Err(_) => hays.iter().map(|_| Vec::new()).collect(),
    }
}

/// The values present in `s`, in order.
pub open spec fn present(s: Seq<Option<Seq<char>>>) -> Seq<Seq<char>>
    decreases s.len(),
{
    if s.len() == 0 {
        Seq::<Seq<char>>::empty()
    } else {
        match s.last() {
            Some(v) => present(s.drop_last()).push(v),
            None => present(s.drop_last()),
        }
    }
}

/// Both recognizer patterns compile.
pub open spec fn recognizers_compile() -> bool {
    regex_accepts(TEST_DECLARATION@) && regex_accepts(SUBTEST_CALL@)
}

/// The name declared on `line`, if it declares a test function.
pub open spec fn declared_test(line: Seq<char>) -> Option<Seq<char>> {
    regex_first_group(TEST_DECLARATION@, line)
}

/// The names of the sub-test invocations on `line`, left to right.
pub open spec fn subtest_calls(line: Seq<char>) -> Seq<Seq<char>> {
    present(regex_groups_per_match(SUBTEST_CALL@, line))
}

/// Checks that both recognizer patterns compile.
pub fn check_recognizers() -> (r: bool)
    ensures
        r == recognizers_compile(),
{
    compiles(TEST_DECLARATION) && compiles(SUBTEST_CALL)
}

/// For each line, the name of the test function it declares, if any.
pub fn test_declarations(lines: &Vec<String>) -> (r: Vec<Option<String>>)
    ensures
        r@.len() == lines@.len(),
        r.deep_view() == lines.deep_view().map_values(|l: Seq<char>| declared_test(l)),
{
    let r = first_group_each(TEST_DECLARATION, lines);
    assert(r.deep_view() =~= lines.deep_view().map_values(|l: Seq<char>| declared_test(l)));
    r
}

/// The values present in `groups`, in order.
pub fn present_values(groups: &Vec<Option<String>>) -> (r: Vec<String>)
    ensures
        r.deep_view() == present(groups.deep_view()),
{
    let ghost g = groups.deep_view();
    let mut r: Vec<String> = Vec::new();
    let mut i: usize = 0;
    while i < groups.len()
        invariant
            g == groups.deep_view(),
            i <= groups.len(),
            r.deep_view() == present(g.subrange(0, i as int)),
        decreases groups.len() - i,
    {
        assert(g.subrange(0, i + 1).drop_last() =~= g.subrange(0, i as int));
        match &groups[i] {
            Some(name) => {
                r.push(name.clone());
                assert(r.deep_view() =~= present(g.subrange(0, i as int)).push(name@));
            },
            None => {},
        }
        i = i + 1;
    }
    assert(g.subrange(0, groups.len() as int) =~= g);
    r
}

/// For each line, the names of all sub-test invocations on it, left to
/// right, repeats kept.
pub fn subtest_invocations(lines: &Vec<String>) -> (r: Vec<Vec<String>>)
    ensures
        r@.len() == lines@.len(),
        r.deep_view() == lines.deep_view().map_values(|l: Seq<char>| subtest_calls(l)),
{
    let groups = groups_per_match_each(SUBTEST_CALL, lines);
    let ghost want = lines.deep_view().map_values(|l: Seq<char>| subtest_calls(l));
    let mut r: Vec<Vec<String>> = Vec::new();
    let mut i: usize = 0;
    while i < groups.len()
        invariant
            groups@.len() == lines@.len(),
            want == lines.deep_view().map_values(|l: Seq<char>| subtest_calls(l)),
            forall|k: int|
                0 <= k < lines@.len() ==> #[trigger] groups@[k].deep_view()
                    == regex_groups_per_match(SUBTEST_CALL@, lines@[k]@),
            i <= groups.len(),
            r.deep_view() == want.subrange(0, i as int),
            r@.len() == i,
        decreases groups.len() - i,
    {
        let names = present_values(&groups[i]);
        let ghost old_r = r.deep_view();
        r.push(names);
        assert(r.deep_view() =~= old_r.push(names.deep_view()));
        assert(r.deep_view() =~= want.subrange(0, i + 1));
        i = i + 1;
    }
    assert(want.subrange(0, groups.len() as int) =~= want);
    r
}

} // verus!
