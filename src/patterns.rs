//! The pattern builder: selectable identifiers from records, the combined run
//! pattern, and the `go test` command line built from a selection.
use vstd::prelude::*;
use crate::extract::{records_view, TestInfo, TestRecord};
use crate::text::{ends_with, has_suffix, join, joined};

verus! {

/// The identifier of sub-test `sub` of the test `name`: `name/sub`.
pub open spec fn qualified(name: Seq<char>, sub: Seq<char>) -> Seq<char> {
    name + "/"@ + sub
}

/// The identifiers that one record offers. A record without sub-tests always
/// offers its name; otherwise the name only when `show_parent`, and each
/// `name/sub` only when `show_subtests`.
pub open spec fn record_identifiers(t: TestRecord, show_subtests: bool, show_parent: bool) -> Seq<
    Seq<char>,
> {
    if t.subtests.len() == 0 {
        seq![t.name]
    } else {
        (if show_parent {
            seq![t.name]
        } else {
            Seq::<Seq<char>>::empty()
        }) + (if show_subtests {
            t.subtests.map_values(|s: Seq<char>| qualified(t.name, s))
        } else {
            Seq::<Seq<char>>::empty()
        })
    }
}

/// The identifiers of all records, in record order.
pub open spec fn identifiers(ts: Seq<TestRecord>, show_subtests: bool, show_parent: bool) -> Seq<
    Seq<char>,
> {
    ts.map_values(|t: TestRecord| record_identifiers(t, show_subtests, show_parent)).flatten()
}

/// `id` anchored for the runner's pattern syntax: `^id$`.
pub open spec fn anchored(id: Seq<char>) -> Seq<char> {
    "^"@ + id + "$"@
}

/// The combined run pattern: the chosen identifiers joined by `|`.
pub open spec fn run_pattern(chosen: Seq<Seq<char>>) -> Seq<char> {
    joined(chosen, "|"@)
}

/// The arguments after `go`: `test -count=1`, then `-v` when verbose, then
/// `-tags=<tags>` when tags are given, then `-run <pattern>` when the pattern
/// is not empty, then `./...`.
pub open spec fn go_test_arguments(pattern: Seq<char>, tags: Option<Seq<char>>, verbose: bool) -> Seq<
    Seq<char>,
> {
    seq!["test"@, "-count=1"@] + (if verbose {
        seq!["-v"@]
    } else {
        Seq::<Seq<char>>::empty()
    }) + (match tags {
        Some(t) => seq!["-tags="@ + t],
        None => Seq::<Seq<char>>::empty(),
    }) + (if pattern.len() > 0 {
        seq!["-run"@, pattern]
    } else {
        Seq::<Seq<char>>::empty()
    }) + seq!["./..."@]
}

/// Builds `name/sub`.
pub fn qualify(name: &String, sub: &String) -> (r: String)
    ensures
        r@ == qualified(name@, sub@),
{
    let mut r = name.clone();
    r.append("/");
    r.append(sub.as_str());
    r
}

/// The selectable identifiers of `tests`, in discovery order, as the two
/// flags allow.
pub fn flatten_identifiers(tests: &Vec<TestInfo>, show_subtests: bool, show_parent: bool) -> (r:
    Vec<String>)
    ensures
        r.deep_view() == identifiers(records_view(tests@), show_subtests, show_parent),
{
    let ghost rv = records_view(tests@);
    let ghost per = rv.map_values(|t: TestRecord| record_identifiers(t, show_subtests, show_parent));
    let mut r: Vec<String> = Vec::new();
    let mut i: usize = 0;
    while i < tests.len()
        invariant
            rv == records_view(tests@),
            per == rv.map_values(|t: TestRecord| record_identifiers(t, show_subtests, show_parent)),
            i <= tests.len(),
            r.deep_view() == per.subrange(0, i as int).flatten(),
        decreases tests.len() - i,
    {
        let t = &tests[i];
        let ghost before = r.deep_view();
        let ghost tv = t@;
        assert(tv == rv[i as int]);
        if t.subtests.len() == 0 || show_parent {
            let n = t.name.clone();
            r.push(n);
            assert(r.deep_view() =~= before.push(tv.name));
        }
        let ghost mid = r.deep_view();
        if t.subtests.len() > 0 && show_subtests {
            let mut m: usize = 0;
            while m < t.subtests.len()
                invariant
                    tv == t@,
                    m <= t.subtests.len(),
                    r.deep_view() == mid + tv.subtests.subrange(0, m as int).map_values(
                        |s: Seq<char>| qualified(tv.name, s),
                    ),
                decreases t.subtests.len() - m,
            {
                let q = qualify(&t.name, &t.subtests[m]);
                let ghost old_r = r.deep_view();
                r.push(q);
                assert(r.deep_view() =~= old_r.push(q@));
                assert(r.deep_view() =~= mid + tv.subtests.subrange(0, m + 1).map_values(
                    |s: Seq<char>| qualified(tv.name, s),
                ));
                m = m + 1;
            }
            assert(tv.subtests.subrange(0, m as int) =~= tv.subtests);
        }
        proof {
            assert(r.deep_view() =~= before + per[i as int]);
            assert(per.subrange(0, i + 1) =~= per.subrange(0, i as int).push(per[i as int]));
            per.subrange(0, i as int).lemma_flatten_push(per[i as int]);
        }
        i = i + 1;
    }
    assert(per.subrange(0, tests.len() as int) =~= per);
    r
}

/// Every selectable identifier of `tests`: each test's name, then each of its
/// sub-tests as `name/sub`.
pub fn collect_test_patterns(tests: &Vec<TestInfo>) -> (r: Vec<String>)
    ensures
        r.deep_view() == identifiers(records_view(tests@), true, true),
{
    flatten_identifiers(tests, true, true)
}

/// The lines of the flat listing: each identifier as `^id$`.
pub fn listing_lines(tests: &Vec<TestInfo>, show_subtests: bool, show_parent: bool) -> (r: Vec<
    String,
>)
    ensures
        r.deep_view() == identifiers(records_view(tests@), show_subtests, show_parent).map_values(
            |id: Seq<char>| anchored(id),
        ),
{
    let ids = flatten_identifiers(tests, show_subtests, show_parent);
    let ghost iv = ids.deep_view();
    let mut r: Vec<String> = Vec::new();
    let mut i: usize = 0;
    while i < ids.len()
        invariant
            iv == ids.deep_view(),
            i <= ids.len(),
            r.deep_view() == iv.subrange(0, i as int).map_values(|id: Seq<char>| anchored(id)),
        decreases ids.len() - i,
    {
        let mut line = String::from_str("^");
        line.append(ids[i].as_str());
        line.append("$");
        let ghost old_r = r.deep_view();
        r.push(line);
        assert(r.deep_view() =~= old_r.push(line@));
        assert(r.deep_view() =~= iv.subrange(0, i + 1).map_values(|id: Seq<char>| anchored(id)));
        i = i + 1;
    }
    assert(iv.subrange(0, ids.len() as int) =~= iv);
    r
}

/// Combines the chosen identifiers into one run pattern: empty for none, the
/// identifier itself for one, all of them joined by `|` otherwise.
pub fn build_run_pattern(selected_tests: &Vec<String>) -> (r: String)
    ensures
        r@ == run_pattern(selected_tests.deep_view()),
{
    join(selected_tests, "|")
}

/// The text handed to the selection widget: one candidate per line.
pub fn candidate_text(options: &Vec<String>) -> (r: String)
    ensures
        r@ == joined(options.deep_view(), "\n"@),
{
    join(options, "\n")
}

/// The arguments after `go` for running the tests that `run_pattern` selects.
pub fn go_test_args(run_pattern: &str, tags: &Option<String>, verbose: bool) -> (r: Vec<String>)
    ensures
        r.deep_view() == go_test_arguments(run_pattern@, tags.deep_view(), verbose),
{
    let mut r: Vec<String> = Vec::new();
    r.push(String::from_str("test"));
    r.push(String::from_str("-count=1"));
    let ghost base = r.deep_view();
    assert(base =~= seq!["test"@, "-count=1"@]);
    if verbose {
        r.push(String::from_str("-v"));
    }
    let ghost v1 = r.deep_view();
    assert(v1 =~= base + (if verbose {
        seq!["-v"@]
    } else {
        Seq::<Seq<char>>::empty()
    }));
    match tags {
        Some(t) => {
            let mut flag = String::from_str("-tags=");
            flag.append(t.as_str());
            r.push(flag);
        },
        None => {},
    }
    let ghost v2 = r.deep_view();
    assert(v2 =~= v1 + (match tags.deep_view() {
        Some(t) => seq!["-tags="@ + t],
        None => Seq::<Seq<char>>::empty(),
    }));
    if run_pattern.unicode_len() > 0 {
        r.push(String::from_str("-run"));
        r.push(String::from_str(run_pattern));
    }
    let ghost v3 = r.deep_view();
    assert(v3 =~= v2 + (if run_pattern@.len() > 0 {
        seq!["-run"@, run_pattern@]
    } else {
        Seq::<Seq<char>>::empty()
    }));
    r.push(String::from_str("./..."));
    assert(r.deep_view() =~= v3 + seq!["./..."@]);
    r
}

/// The echo printed before running: `Running: go ` and the arguments joined by
/// spaces.
pub fn command_echo(args: &Vec<String>) -> (r: String)
    ensures
        r@ == "Running: go "@ + joined(args.deep_view(), " "@),
{
    let joined_args = join(args, " ");
    let mut r = String::from_str("Running: go ");
    r.append(joined_args.as_str());
    r
}

/// Whether a file of this name is a Go test file: it ends in `_test.go`.
pub fn is_test_file(file_name: &str) -> (r: bool)
    ensures
        r == has_suffix(file_name@, "_test.go"@),
{
    ends_with(file_name, "_test.go")
}

/// With sub-tests hidden, a record that has sub-tests offers only its bare
/// name when the parent is shown, and nothing when it is hidden too.
pub proof fn lemma_hidden_subtests(t: TestRecord)
    requires
        t.subtests.len() > 0,
    ensures
        identifiers(seq![t], false, true) == seq![t.name],
        identifiers(seq![t], false, false) == Seq::<Seq<char>>::empty(),
{
    let a = seq![t].map_values(|u: TestRecord| record_identifiers(u, false, true));
    let b = seq![t].map_values(|u: TestRecord| record_identifiers(u, false, false));
    assert(a =~= seq![seq![t.name]]);
    assert(b =~= seq![Seq::<Seq<char>>::empty()]);
    a.lemma_flatten_singleton();
    b.lemma_flatten_singleton();
    assert(record_identifiers(t, false, true) =~= seq![t.name]);
    assert(record_identifiers(t, false, false) =~= Seq::<Seq<char>>::empty());
}

/// With sub-tests and parents both hidden, a record that has sub-tests adds
/// nothing: the identifiers of a list are those of the list without it.
pub proof fn lemma_hidden_record_adds_nothing(ts: Seq<TestRecord>, k: int)
    requires
        0 <= k < ts.len(),
        ts[k].subtests.len() > 0,
    ensures
        identifiers(ts, false, false) == identifiers(ts.remove(k), false, false),
{
    let m = ts.map_values(|t: TestRecord| record_identifiers(t, false, false));
    let x = m.subrange(0, k);
    let y = m.subrange(k + 1, m.len() as int);
    let mid = seq![m[k]];
    assert(m[k] =~= Seq::<Seq<char>>::empty());
    assert(m =~= x + mid + y);
    assert(ts.remove(k).map_values(|t: TestRecord| record_identifiers(t, false, false)) =~= x + y);
    mid.lemma_flatten_singleton();
    vstd::seq_lib::lemma_flatten_concat(x + mid, y);
    vstd::seq_lib::lemma_flatten_concat(x, mid);
    vstd::seq_lib::lemma_flatten_concat(x, y);
    assert(x.flatten() + mid.flatten() =~= x.flatten());
}

/// Combining no identifiers gives the empty pattern, one identifier gives it
/// unchanged, and two give them joined by `|`.
pub proof fn lemma_combine_small(a: Seq<char>, b: Seq<char>)
    ensures
        run_pattern(Seq::<Seq<char>>::empty()) == Seq::<char>::empty(),
        run_pattern(seq![a]) == a,
        run_pattern(seq![a, b]) == a + "|"@ + b,
{
    assert(seq![a, b].drop_last() =~= seq![a]);
    assert(joined(seq![a], "|"@) == a);
    assert(joined(seq![a, b], "|"@) == joined(seq![a], "|"@) + "|"@ + b);
}

} // verus!
