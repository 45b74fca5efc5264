use gotestfinder::extract::{extract_records, parse_test_source, TestInfo};
use gotestfinder::patterns::listing_lines;
use gotestfinder::recognize::{check_recognizers, present_values, subtest_invocations, test_declarations};
use gotestfinder::text::count_occurrences;
use gotestfinder::tracker::body_bounds;

fn strings(v: &[&str]) -> Vec<String> {
    v.iter().map(|s| s.to_string()).collect()
}

fn parse(content: &str) -> Vec<TestInfo> {
    parse_test_source("x_test.go", content).expect("patterns compile")
}

#[test]
fn recognizers_compile() {
    assert!(check_recognizers());
}

#[test]
fn plain_test_has_no_subtests() {
    let tests = parse("package x\n\nfunc TestFoo(t *testing.T) {\n\tx := 1\n\t_ = x\n}\n");
    assert_eq!(tests.len(), 1);
    assert_eq!(tests[0].name, "TestFoo");
    assert_eq!(tests[0].line, 3);
    assert_eq!(tests[0].file, "x_test.go");
    assert!(tests[0].subtests.is_empty());
}

#[test]
fn subtests_in_source_order_with_repeats() {
    let src = "func TestCases(t *testing.T) {\n\tt.Run(\"b\", f)\n\tt.Run(\"a\", f)\n\tt.Run(\"b\", f)\n}\n";
    let tests = parse(src);
    assert_eq!(tests.len(), 1);
    assert_eq!(tests[0].subtests, strings(&["b", "a", "b"]));
}

#[test]
fn two_calls_on_one_line() {
    let src = "func TestPair(t *testing.T) {\n\tt.Run(\"x\", f); t.Run( \"y\", f)\n}\n";
    assert_eq!(parse(src)[0].subtests, strings(&["x", "y"]));
}

#[test]
fn call_after_close_not_attributed() {
    let src = "func TestA(t *testing.T) {\n\tt.Run(\"in\", f)\n}\n\nvar _ = s.Run(\"out\", f)\n";
    let tests = parse(src);
    assert_eq!(tests.len(), 1);
    assert_eq!(tests[0].subtests, strings(&["in"]));
}

#[test]
fn call_on_closing_line_collected() {
    let src = "func TestOne(t *testing.T) { t.Run(\"same\", f) }\n";
    let tests = parse(src);
    assert_eq!(tests.len(), 1);
    assert_eq!(tests[0].subtests, strings(&["same"]));
}

#[test]
fn lines_appended_after_close_change_nothing() {
    let base = "func TestA(t *testing.T) {\n\tt.Run(\"in\", f)\n}\n";
    let more = format!("{base}t.Run(\"x\", f)\n{{\nt.Run(\"y\", f)\n");
    assert_eq!(parse(base)[0].subtests, strings(&["in"]));
    assert_eq!(parse(&more)[0].subtests, strings(&["in"]));
}

#[test]
fn unterminated_body_runs_to_end() {
    let src = "func TestOpen(t *testing.T) {\n\tt.Run(\"a\", f)\n\tt.Run(\"b\", f)\n";
    assert_eq!(parse(src)[0].subtests, strings(&["a", "b"]));
}

#[test]
fn nested_blocks_stay_inside() {
    let src = "func TestNest(t *testing.T) {\n\tfor _, c := range cs {\n\t\tt.Run(\"n\", func(t *testing.T) {\n\t\t})\n\t}\n\tt.Run(\"after\", f)\n}\nfunc TestNext(t *testing.T) {\n\tt.Run(\"z\", f)\n}\n";
    let tests = parse(src);
    assert_eq!(tests.len(), 2);
    assert_eq!(tests[0].subtests, strings(&["n", "after"]));
    assert_eq!(tests[1].name, "TestNext");
    assert_eq!(tests[1].line, 8);
    assert_eq!(tests[1].subtests, strings(&["z"]));
}

#[test]
fn extra_closing_braces_saturate() {
    let src = "}}}\nfunc TestSat(t *testing.T) {\n\t}} t.Run(\"last\", f)\n\tt.Run(\"later\", f)\n";
    let tests = parse(src);
    assert_eq!(tests.len(), 1);
    assert_eq!(tests[0].subtests, strings(&["last"]));
}

#[test]
fn brace_on_next_line() {
    let src = "func TestLate(t *testing.T)\n{\n\tt.Run(\"a\", f)\n}\n";
    let tests = parse(src);
    assert_eq!(tests[0].subtests, strings(&["a"]));
}

#[test]
fn benchmarks_and_non_tests() {
    let src = "func BenchmarkX(b *testing.B) {}\nfunc TestBench(b *testing.B) {}\nfunc helper(t *testing.T) {}\nfunc Test(t *testing.T) {}\n";
    let tests = parse(src);
    assert_eq!(tests.len(), 1);
    assert_eq!(tests[0].name, "TestBench");
    assert_eq!(tests[0].line, 2);
}

#[test]
fn crlf_lines() {
    let src = "func TestW(t *testing.T) {\r\n\tt.Run(\"w\", f)\r\n}\r\n";
    let tests = parse(src);
    assert_eq!(tests[0].subtests, strings(&["w"]));
}

#[test]
fn empty_file_has_no_tests() {
    assert!(parse("").is_empty());
}

#[test]
fn end_to_end_default_listing() {
    let src = "func TestAdd(t *testing.T) {\n    t.Run(\"positive\", func(t *testing.T){})\n    t.Run(\"negative\", func(t *testing.T){})\n}\nfunc TestSub(t *testing.T) {}\n";
    let tests = parse(src);
    let lines = listing_lines(&tests, true, true);
    assert_eq!(
        lines,
        strings(&["^TestAdd$", "^TestAdd/positive$", "^TestAdd/negative$", "^TestSub$"])
    );
}

#[test]
fn declaration_recognizer_gives_name() {
    let lines = strings(&["func TestThing(t *testing.T) {", "func TestThing(t testing.T) {", "// nothing here"]);
    assert_eq!(test_declarations(&lines), vec![Some("TestThing".to_string()), None, None]);
    assert!(test_declarations(&vec![]).is_empty());
}

#[test]
fn subtest_recognizer_gives_names() {
    let lines = strings(&["t.Run(\"one\", f); t.Run(\"two\", g); t.Run(x, h)", "t.Run(\"\", f)"]);
    assert_eq!(subtest_invocations(&lines), vec![strings(&["one", "two"]), vec![]]);
}

#[test]
fn line_numbers_count_blank_and_crlf_lines() {
    let tests = parse("\r\n\nfunc TestL(t *testing.T) {}\r\nfunc TestM(t *testing.T) {}");
    assert_eq!(tests.len(), 2);
    assert_eq!(tests[0].line, 3);
    assert_eq!(tests[1].name, "TestM");
    assert_eq!(tests[1].line, 4);
}

#[test]
fn counts_characters() {
    assert_eq!(count_occurrences("{a{b}{", '{'), 3);
    assert_eq!(count_occurrences("", '{'), 0);
}

#[test]
fn tracker_bounds() {
    let lines = strings(&["func TestX(t *testing.T)", "", "{", "{ }", "}", "after"]);
    assert_eq!(body_bounds(&lines, 0), (2, 4));
    let open = strings(&["func TestY(t *testing.T) {", "{"]);
    assert_eq!(body_bounds(&open, 0), (0, 2));
    let none = strings(&["func TestZ(t *testing.T)"]);
    assert_eq!(body_bounds(&none, 0), (1, 1));
}

#[test]
fn extract_from_recognized_lines() {
    let lines = strings(&["D {", "r", "}", "r"]);
    let decls = vec![Some("TestD".to_string()), None, None, None];
    let calls = vec![vec![], strings(&["p"]), strings(&["q"]), strings(&["late"])];
    let tests = extract_records("f.go", &lines, &decls, &calls);
    assert_eq!(tests.len(), 1);
    assert_eq!(tests[0].name, "TestD");
    assert_eq!(tests[0].line, 1);
    assert_eq!(tests[0].subtests, strings(&["p", "q"]));
}

#[test]
fn present_values_skip_missing() {
    let groups = vec![Some("a".to_string()), None, Some("b".to_string()), Some("a".to_string())];
    assert_eq!(present_values(&groups), strings(&["a", "b", "a"]));
    assert!(present_values(&vec![None]).is_empty());
}
