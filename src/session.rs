//! The decisions of interactive mode. The caller shows the candidates, runs
//! the command and prints the messages; these functions say which of those
//! comes next.
use vstd::prelude::*;
use crate::extract::{records_view, TestInfo};
use crate::patterns::{build_run_pattern, collect_test_patterns, go_test_args, go_test_arguments, identifiers, run_pattern};

verus! {

/// What interactive mode does next.
pub enum Step {
    /// Print the message and stop with success.
    Report(String),
    /// Offer these candidates for selection.
    Select(Vec<String>),
    /// Run `go` with these arguments.
    Run(Vec<String>),
}

/// The first step: report that nothing was found, or offer every identifier.
pub fn begin_selection(tests: &Vec<TestInfo>) -> (r: Step)
    ensures
        identifiers(records_view(tests@), true, true).len() == 0 ==> (r matches Step::Report(m)
            && m@ == "No tests found"@),
        identifiers(records_view(tests@), true, true).len() > 0 ==> (r matches Step::Select(c)
            && c.deep_view() == identifiers(records_view(tests@), true, true)),
{
    let candidates = collect_test_patterns(tests);
    if candidates.len() == 0 {
        Step::Report(String::from_str("No tests found"))
    } else {
        Step::Select(candidates)
    }
}

/// The step after selection: report that nothing was selected, or run the
/// chosen identifiers combined into one run pattern.
pub fn after_selection(selected: &Vec<String>, tags: &Option<String>, verbose: bool) -> (r: Step)
    ensures
        selected@.len() == 0 ==> (r matches Step::Report(m) && m@ == "No tests selected"@),
        selected@.len() > 0 ==> (r matches Step::Run(a) && a.deep_view() == go_test_arguments(
            run_pattern(selected.deep_view()),
            tags.deep_view(),
            verbose,
        )),
{
    if selected.len() == 0 {
        Step::Report(String::from_str("No tests selected"))
    } else {
        let pattern = build_run_pattern(selected);
        Step::Run(go_test_args(pattern.as_str(), tags, verbose))
    }
}

} // verus!
