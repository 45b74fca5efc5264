//! The test extractor: one pass over a file's lines, producing one record per
//! test declaration with the sub-tests named inside its body.
use vstd::prelude::*;
use crate::recognize::{
    check_recognizers, declared_test, recognizers_compile, subtest_calls, subtest_invocations,
    test_declarations,
};
use crate::text::{count_occurrences, lines_of, split_lines};
use crate::tracker::{
    body_bounds, body_close, body_end, body_start, lemma_body_start_agree, lemma_body_start_bounds,
    lemma_first_zero_agree, lemma_first_zero_bounds, opening_between, opening_total,
};

verus! {

/// A discovered test declaration.
#[derive(Debug, Clone)]
pub struct TestInfo {
    pub name: String,
    pub file: String,
    /// 1-based line of the declaration.
    pub line: usize,
    pub subtests: Vec<String>,
}

/// The mathematical value of a [`TestInfo`].
pub struct TestRecord {
    pub name: Seq<char>,
    pub file: Seq<char>,
    pub line: nat,
    pub subtests: Seq<Seq<char>>,
}

impl View for TestInfo {
    type V = TestRecord;

    open spec fn view(&self) -> TestRecord {
        TestRecord {
            name: self.name@,
            file: self.file@,
            line: self.line as nat,
            subtests: self.subtests.deep_view(),
        }
    }
}

/// The views of a list of records.
pub open spec fn records_view(v: Seq<TestInfo>) -> Seq<TestRecord> {
    v.map_values(|t: TestInfo| t@)
}

/// The sub-test names collected for a declaration on line `decl`: those found
/// on the lines from where its body is entered through the line where it
/// closes.
pub open spec fn body_subtests(
    lines: Seq<Seq<char>>,
    calls: Seq<Seq<Seq<char>>>,
    decl: int,
) -> Seq<Seq<char>> {
    let s = body_start(lines, decl);
    calls.subrange(s, body_end(lines, s)).flatten()
}

/// The records for the declarations among the first `k` lines, given what the
/// recognizers found on each line.
pub open spec fn records_upto(
    file: Seq<char>,
    lines: Seq<Seq<char>>,
    decls: Seq<Option<Seq<char>>>,
    calls: Seq<Seq<Seq<char>>>,
    k: int,
) -> Seq<TestRecord>
    decreases k,
{
    if k <= 0 {
        Seq::<TestRecord>::empty()
    } else {
        let prev = records_upto(file, lines, decls, calls, k - 1);
        match decls[k - 1] {
            Some(name) => prev.push(
                TestRecord {
                    name: name,
                    file: file,
                    line: k as nat,
                    subtests: body_subtests(lines, calls, k - 1),
                },
            ),
            None => prev,
        }
    }
}

/// What the declaration recognizer finds on each line.
pub open spec fn line_declarations(lines: Seq<Seq<char>>) -> Seq<Option<Seq<char>>> {
    lines.map_values(|l: Seq<char>| declared_test(l))
}

/// What the sub-test recognizer finds on each line.
pub open spec fn line_calls(lines: Seq<Seq<char>>) -> Seq<Seq<Seq<char>>> {
    lines.map_values(|l: Seq<char>| subtest_calls(l))
}

/// The sub-tests attributed to a declaration on line `decl` of `lines`.
pub open spec fn declaration_subtests(lines: Seq<Seq<char>>, decl: int) -> Seq<Seq<char>> {
    body_subtests(lines, line_calls(lines), decl)
}

/// The records of a file whose lines are `lines`.
pub open spec fn file_records(file: Seq<char>, lines: Seq<Seq<char>>) -> Seq<TestRecord> {
    records_upto(file, lines, line_declarations(lines), line_calls(lines), lines.len() as int)
}

/// Builds the records of a file from its lines and from what the recognizers
/// found on each line: `decls[i]` the test declared on line `i`, `calls[i]`
/// the sub-test names invoked on it.
pub fn extract_records(
    file: &str,
    lines: &Vec<String>,
    decls: &Vec<Option<String>>,
    calls: &Vec<Vec<String>>,
) -> (r: Vec<TestInfo>)
    requires
        decls.len() == lines.len(),
        calls.len() == lines.len(),
        opening_total(lines.deep_view()) <= usize::MAX,
    ensures
        records_view(r@) == records_upto(
            file@,
            lines.deep_view(),
            decls.deep_view(),
            calls.deep_view(),
            lines.len() as int,
        ),
{
    let ghost lv = lines.deep_view();
    let ghost dv = decls.deep_view();
    let ghost cv = calls.deep_view();
    let mut r: Vec<TestInfo> = Vec::new();
    let mut i: usize = 0;
    while i < lines.len()
        invariant
            lv == lines.deep_view(),
            dv == decls.deep_view(),
            cv == calls.deep_view(),
            decls.len() == lines.len(),
            calls.len() == lines.len(),
            opening_total(lv) <= usize::MAX,
            i <= lines.len(),
            records_view(r@) == records_upto(file@, lv, dv, cv, i as int),
        decreases lines.len() - i,
    {
        match &decls[i] {
            Some(name) => {
                let (s, close) = body_bounds(lines, i);
                let c = if close < lines.len() {
                    close + 1
                } else {
                    close
                };
                let mut subs: Vec<String> = Vec::new();
                let mut j: usize = s;
                while j < c
                    invariant
                        cv == calls.deep_view(),
                        calls.len() == lines.len(),
                        s <= j <= c <= lines.len(),
                        subs.deep_view() == cv.subrange(s as int, j as int).flatten(),
                    decreases c - j,
                {
                    let ghost before = subs.deep_view();
                    let here = &calls[j];
                    let mut m: usize = 0;
                    while m < here.len()
                        invariant
                            here.deep_view() == cv[j as int],
                            j < cv.len(),
                            m <= here.len(),
                            subs.deep_view() == before + cv[j as int].subrange(0, m as int),
                        decreases here.len() - m,
                    {
                        let name_m = here[m].clone();
                        assert(name_m@ == here.deep_view()[m as int]);
                        let ghost old_subs = subs.deep_view();
                        subs.push(name_m);
                        assert(subs.deep_view() =~= old_subs.push(name_m@));
                        assert(subs.deep_view() =~= before + cv[j as int].subrange(0, m + 1));
                        m = m + 1;
                    }
                    proof {
                        assert(cv[j as int].subrange(0, m as int) =~= cv[j as int]);
                        assert(cv.subrange(s as int, j + 1) =~= cv.subrange(s as int, j as int).push(
                            cv[j as int],
                        ));
                        cv.subrange(s as int, j as int).lemma_flatten_push(cv[j as int]);
                    }
                    j = j + 1;
                }
                let t = TestInfo {
                    name: name.clone(),
                    file: file.to_string(),
                    line: i + 1,
                    subtests: subs,
                };
                r.push(t);
                assert(records_view(r@) =~= records_upto(file@, lv, dv, cv, i as int).push(t@));
            },
            None => {},
        }
        i = i + 1;
    }
    r
}

/// Why a file's text could not be scanned.
#[derive(Debug, Clone, Copy, PartialEq, Eq)]
pub enum ScanError {
    /// A recognizer pattern does not compile.
    InvalidPattern,
    /// The file holds more opening braces than a `usize` counts.
    TooManyBraces,
}

/// Finds the test declarations in the text `content` of the file `file`.
pub fn parse_test_source(file: &str, content: &str) -> (r: Result<Vec<TestInfo>, ScanError>)
    ensures
        match r {
            Ok(v) => recognizers_compile() && opening_total(lines_of(content@)) <= usize::MAX
                && records_view(v@) == file_records(file@, lines_of(content@)),
            Err(ScanError::InvalidPattern) => !recognizers_compile(),
            Err(ScanError::TooManyBraces) => recognizers_compile() && opening_total(
                lines_of(content@),
            ) > usize::MAX,
        },
{
    if !check_recognizers() {
        return Err(ScanError::InvalidPattern);
    }
    let lines = split_lines(content);
    let ghost lv = lines.deep_view();
    let mut total: usize = 0;
    let mut i: usize = 0;
    while i < lines.len()
        invariant
            lv == lines.deep_view(),
            lv == lines_of(content@),
            recognizers_compile(),
            i <= lines.len(),
            total == opening_between(lv, 0, i as int),
        decreases lines.len() - i,
    {
        let o = count_occurrences(lines[i].as_str(), '{');
        if o > usize::MAX - total {
            proof {
                lemma_opening_prefix_le_total(lv, i + 1);
            }
            return Err(ScanError::TooManyBraces);
        }
        total = total + o;
        i = i + 1;
    }
    let decls = test_declarations(&lines);
    let calls = subtest_invocations(&lines);
    Ok(extract_records(file, &lines, &decls, &calls))
}

proof fn lemma_opening_prefix_le_total(lines: Seq<Seq<char>>, k: int)
    requires
        0 <= k <= lines.len(),
    ensures
        opening_between(lines, 0, k) <= opening_total(lines),
    decreases lines.len() - k,
{
    if k < lines.len() {
        lemma_opening_prefix_le_total(lines, k + 1);
    }
}

proof fn lemma_records_contain(
    file: Seq<char>,
    lines: Seq<Seq<char>>,
    decls: Seq<Option<Seq<char>>>,
    calls: Seq<Seq<Seq<char>>>,
    k: int,
    i: int,
)
    requires
        0 <= i < k,
        decls[i] is Some,
    ensures
        records_upto(file, lines, decls, calls, k).contains(
            TestRecord {
                name: decls[i]->0,
                file: file,
                line: (i + 1) as nat,
                subtests: body_subtests(lines, calls, i),
            },
        ),
    decreases k,
{
    let prev = records_upto(file, lines, decls, calls, k - 1);
    let rec = TestRecord {
        name: decls[i]->0,
        file: file,
        line: (i + 1) as nat,
        subtests: body_subtests(lines, calls, i),
    };
    if i == k - 1 {
        assert(prev.push(rec)[prev.len() as int] == rec);
    } else {
        lemma_records_contain(file, lines, decls, calls, k - 1, i);
        let p = choose|p: int| 0 <= p < prev.len() && prev[p] == rec;
        if decls[k - 1] is Some {
            let next = records_upto(file, lines, decls, calls, k);
            assert(next[p] == rec);
        }
    }
}

/// Each test declaration gives a record of its name and line whose sub-tests
/// are the names invoked on the lines of its body, from where it is entered
/// through where it closes, in source order, repeats kept.
pub proof fn lemma_declaration_record(file: Seq<char>, lines: Seq<Seq<char>>, i: int)
    requires
        0 <= i < lines.len(),
        declared_test(lines[i]) is Some,
    ensures
        file_records(file, lines).contains(
            TestRecord {
                name: declared_test(lines[i])->0,
                file: file,
                line: (i + 1) as nat,
                subtests: declaration_subtests(lines, i),
            },
        ),
        declaration_subtests(lines, i) == lines.subrange(
            body_start(lines, i),
            body_end(lines, body_start(lines, i)),
        ).map_values(|l: Seq<char>| subtest_calls(l)).flatten(),
{
    lemma_records_contain(file, lines, line_declarations(lines), line_calls(lines), lines.len() as int, i);
    let s = body_start(lines, i);
    lemma_body_start_bounds(lines, i);
    lemma_first_zero_bounds(lines, s, s);
    assert(line_calls(lines).subrange(s, body_end(lines, s)) =~= lines.subrange(
        s,
        body_end(lines, s),
    ).map_values(|l: Seq<char>| subtest_calls(l)));
}

proof fn lemma_flatten_of_empties(s: Seq<Seq<Seq<char>>>)
    requires
        forall|k: int| 0 <= k < s.len() ==> s[k].len() == 0,
    ensures
        s.flatten() == Seq::<Seq<char>>::empty(),
    decreases s.len(),
{
    if s.len() > 0 {
        lemma_flatten_of_empties(s.drop_first());
        assert(s.flatten() == s.first() + s.drop_first().flatten());
        assert(s.flatten() =~= Seq::<Seq<char>>::empty());
    }
}

proof fn lemma_records_of_single(
    file: Seq<char>,
    lines: Seq<Seq<char>>,
    decls: Seq<Option<Seq<char>>>,
    calls: Seq<Seq<Seq<char>>>,
    i: int,
    k: int,
)
    requires
        0 <= i < decls.len(),
        k <= decls.len(),
        decls[i] is Some,
        forall|m: int| 0 <= m < decls.len() && m != i ==> decls[m] is None,
    ensures
        k <= i ==> records_upto(file, lines, decls, calls, k) == Seq::<TestRecord>::empty(),
        k > i ==> records_upto(file, lines, decls, calls, k) == seq![
            TestRecord {
                name: decls[i]->0,
                file: file,
                line: (i + 1) as nat,
                subtests: body_subtests(lines, calls, i),
            },
        ],
    decreases k,
{
    if k > 0 {
        lemma_records_of_single(file, lines, decls, calls, i, k - 1);
        if k - 1 == i {
            assert(Seq::<TestRecord>::empty().push(
                TestRecord {
                    name: decls[i]->0,
                    file: file,
                    line: (i + 1) as nat,
                    subtests: body_subtests(lines, calls, i),
                },
            ) =~= seq![
                TestRecord {
                    name: decls[i]->0,
                    file: file,
                    line: (i + 1) as nat,
                    subtests: body_subtests(lines, calls, i),
                },
            ]);
        }
    }
}

/// A file whose one test declaration, on line `i`, has no sub-test invocation
/// in its body gives exactly one record: that test, with no sub-tests.
pub proof fn lemma_single_plain_test(file: Seq<char>, lines: Seq<Seq<char>>, i: int)
    requires
        0 <= i < lines.len(),
        declared_test(lines[i]) is Some,
        forall|k: int| 0 <= k < lines.len() && k != i ==> declared_test(#[trigger] lines[k]) is None,
        forall|k: int|
            body_start(lines, i) <= k < body_end(lines, body_start(lines, i)) ==> subtest_calls(
                #[trigger] lines[k],
            ).len() == 0,
    ensures
        file_records(file, lines) == seq![
            TestRecord {
                name: declared_test(lines[i])->0,
                file: file,
                line: (i + 1) as nat,
                subtests: Seq::<Seq<char>>::empty(),
            },
        ],
{
    let decls = line_declarations(lines);
    let calls = line_calls(lines);
    assert forall|m: int| 0 <= m < decls.len() && m != i implies decls[m] is None by {
        assert(declared_test(lines[m]) is None);
    }
    lemma_records_of_single(file, lines, decls, calls, i, lines.len() as int);
    let s = body_start(lines, i);
    lemma_body_start_bounds(lines, i);
    lemma_first_zero_bounds(lines, s, s);
    let body = calls.subrange(s, body_end(lines, s));
    assert forall|k: int| 0 <= k < body.len() implies body[k].len() == 0 by {
        assert(body[k] == subtest_calls(lines[s + k]));
    }
    lemma_flatten_of_empties(body);
}

/// A sub-test invocation on a line after the one where a declaration's body
/// closes is not attributed to it: a file `b` that agrees with `a` through
/// that closing line, whatever follows it (other lines, more lines or fewer),
/// gives the declaration the same sub-tests.
pub proof fn lemma_after_close_not_attributed(a: Seq<Seq<char>>, b: Seq<Seq<char>>, i: int)
    requires
        0 <= i < a.len(),
        body_close(a, body_start(a, i)) < a.len(),
        body_close(a, body_start(a, i)) < b.len(),
        forall|k: int| 0 <= k <= body_close(a, body_start(a, i)) ==> a[k] == b[k],
    ensures
        declaration_subtests(b, i) == declaration_subtests(a, i),
{
    let s = body_start(a, i);
    lemma_body_start_bounds(a, i);
    lemma_first_zero_bounds(a, s, s);
    let c = body_close(a, s);
    lemma_body_start_agree(a, b, i);
    lemma_first_zero_agree(a, b, s, s);
    assert(line_calls(b).subrange(s, c + 1) =~= line_calls(a).subrange(s, c + 1));
}

} // verus!
