use gotestfinder::extract::TestInfo;
use gotestfinder::patterns::{
    build_run_pattern, candidate_text, collect_test_patterns, command_echo, flatten_identifiers,
    go_test_args, is_test_file, listing_lines, qualify,
};
use gotestfinder::session::{after_selection, begin_selection, Step};
use gotestfinder::text::{ends_with, join};

fn strings(v: &[&str]) -> Vec<String> {
    v.iter().map(|s| s.to_string()).collect()
}

fn record(name: &str, subs: &[&str]) -> TestInfo {
    TestInfo { name: name.to_string(), file: "a_test.go".to_string(), line: 1, subtests: strings(subs) }
}

#[test]
fn hidden_subtests_keep_parent_only() {
    let tests = vec![record("TestA", &["x", "y"])];
    assert_eq!(flatten_identifiers(&tests, false, true), strings(&["TestA"]));
    assert!(flatten_identifiers(&tests, false, false).is_empty());
}

#[test]
fn plain_record_ignores_flags() {
    let tests = vec![record("TestP", &[])];
    assert_eq!(flatten_identifiers(&tests, false, false), strings(&["TestP"]));
}

#[test]
fn hidden_parent_keeps_subtests() {
    let tests = vec![record("TestA", &["x", "x"]), record("TestB", &[])];
    assert_eq!(flatten_identifiers(&tests, true, false), strings(&["TestA/x", "TestA/x", "TestB"]));
    assert_eq!(
        listing_lines(&tests, true, false),
        strings(&["^TestA/x$", "^TestA/x$", "^TestB$"])
    );
}

#[test]
fn collect_offers_everything() {
    let tests = vec![record("TestA", &["x"]), record("TestB", &[])];
    assert_eq!(collect_test_patterns(&tests), strings(&["TestA", "TestA/x", "TestB"]));
}

#[test]
fn combine_empty() {
    assert_eq!(build_run_pattern(&vec![]), "");
}

#[test]
fn combine_single() {
    assert_eq!(build_run_pattern(&strings(&["A"])), "A");
}

#[test]
fn combine_two() {
    assert_eq!(build_run_pattern(&strings(&["A", "B/C"])), "A|B/C");
}

#[test]
fn combine_keeps_repeats() {
    assert_eq!(build_run_pattern(&strings(&["A", "A", "B"])), "A|A|B");
}

#[test]
fn nothing_found() {
    match begin_selection(&vec![]) {
        Step::Report(m) => assert_eq!(m, "No tests found"),
        _ => panic!("expected a report"),
    }
}

#[test]
fn candidates_offered() {
    match begin_selection(&vec![record("TestA", &["x"])]) {
        Step::Select(c) => assert_eq!(c, strings(&["TestA", "TestA/x"])),
        _ => panic!("expected a selection"),
    }
}

#[test]
fn nothing_selected() {
    match after_selection(&vec![], &None, false) {
        Step::Report(m) => assert_eq!(m, "No tests selected"),
        _ => panic!("expected a report"),
    }
}

#[test]
fn chosen_set_filter() {
    let chosen = strings(&["TestAdd/positive", "TestSub"]);
    match after_selection(&chosen, &None, false) {
        Step::Run(args) => {
            assert_eq!(
                args,
                strings(&["test", "-count=1", "-run", "TestAdd/positive|TestSub", "./..."])
            );
        }
        _ => panic!("expected a run"),
    }
}

#[test]
fn arguments_with_flags() {
    let args = go_test_args("TestA", &Some("integration".to_string()), true);
    assert_eq!(args, strings(&["test", "-count=1", "-v", "-tags=integration", "-run", "TestA", "./..."]));
    assert_eq!(go_test_args("", &None, false), strings(&["test", "-count=1", "./..."]));
}

#[test]
fn echo_of_command() {
    let args = strings(&["test", "-count=1", "./..."]);
    assert_eq!(command_echo(&args), "Running: go test -count=1 ./...");
}

#[test]
fn candidates_one_per_line() {
    assert_eq!(candidate_text(&strings(&["A", "A/b"])), "A\nA/b");
    assert_eq!(candidate_text(&vec![]), "");
}

#[test]
fn qualified_names() {
    assert_eq!(qualify(&"TestA".to_string(), &"case 1".to_string()), "TestA/case 1");
}

#[test]
fn test_file_names() {
    assert!(is_test_file("math_test.go"));
    assert!(!is_test_file("math.go"));
    assert!(!is_test_file("math_test.go.bak"));
    assert!(!is_test_file("test.go"));
}

#[test]
fn suffix_and_join() {
    assert!(ends_with("abc", ""));
    assert!(!ends_with("c", "abc"));
    assert_eq!(join(&strings(&["a", "b", "c"]), ", "), "a, b, c");
}
