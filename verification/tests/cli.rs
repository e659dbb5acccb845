use brillig_gen::cli::{
    judge, name_pattern, opcode_is_supported, select_packages, FunctionNameMatch,
    PackageSelection, Tally, TestOutcome, TestVerdict,
};

#[test]
fn named_package_wins_over_the_workspace() {
    assert_eq!(
        select_packages(Some("lib".to_string()), false),
        PackageSelection::Selected("lib".to_string())
    );
    assert_eq!(
        select_packages(Some("lib".to_string()), true),
        PackageSelection::Selected("lib".to_string())
    );
    assert_eq!(select_packages(None, true), PackageSelection::All);
    assert_eq!(select_packages(None, false), PackageSelection::DefaultOrAll);
}

#[test]
fn test_name_is_matched_exactly_or_as_a_part() {
    assert_eq!(name_pattern(None, true), FunctionNameMatch::Anything);
    assert_eq!(name_pattern(None, false), FunctionNameMatch::Anything);
    assert_eq!(
        name_pattern(Some("add".to_string()), true),
        FunctionNameMatch::Exact("add".to_string())
    );
    assert_eq!(
        name_pattern(Some("add".to_string()), false),
        FunctionNameMatch::Contains("add".to_string())
    );
}

#[test]
fn ordinary_test_passes_when_it_runs() {
    assert_eq!(judge(false, TestOutcome::Executed), TestVerdict::Passed);
    assert_eq!(judge(false, TestOutcome::ExecutionError), TestVerdict::ExecutionFailed);
    assert_eq!(
        judge(false, TestOutcome::CompileError { failed_constraint: true }),
        TestVerdict::DidNotCompile
    );
    assert_eq!(
        judge(false, TestOutcome::CompileError { failed_constraint: false }),
        TestVerdict::DidNotCompile
    );
}

#[test]
fn failing_test_passes_when_it_fails() {
    assert_eq!(judge(true, TestOutcome::Executed), TestVerdict::ShouldHaveFailed);
    assert_eq!(judge(true, TestOutcome::ExecutionError), TestVerdict::Passed);
    assert_eq!(
        judge(true, TestOutcome::CompileError { failed_constraint: true }),
        TestVerdict::Passed
    );
    assert_eq!(
        judge(true, TestOutcome::CompileError { failed_constraint: false }),
        TestVerdict::DidNotCompile
    );
}

#[test]
fn tally_counts_what_did_not_pass() {
    let mut tally = Tally::new();
    assert!(tally.all_passed());
    tally.record(true);
    assert!(tally.all_passed());
    assert_eq!(tally.plural(), "s");
    tally.record(false);
    assert_eq!(tally.failing, 1);
    assert_eq!(tally.plural(), "");
    tally.record(false);
    tally.record(false);
    assert_eq!(tally.failing, 3);
    assert_eq!(tally.plural(), "s");
    assert!(!tally.all_passed());
    let mut full = Tally { failing: usize::MAX };
    full.record(false);
    assert_eq!(full.failing, usize::MAX);
}

#[test]
fn pedersen_hash_counts_as_supported() {
    assert!(opcode_is_supported(true, false));
    assert!(opcode_is_supported(false, true));
    assert!(opcode_is_supported(true, true));
    assert!(!opcode_is_supported(false, false));
}
