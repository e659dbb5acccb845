//! The decisions of the command-line tools: which packages and tests a
//! command names, and how the outcome of a test is judged.

use vstd::prelude::*;

verus! {

/// The packages of a workspace that a command works on.
#[derive(Clone, Debug, PartialEq, Eq)]
pub enum PackageSelection {
    /// The package with this name.
    Selected(String),
    /// The default package of the workspace, or all where none is set.
    DefaultOrAll,
    /// Every package.
    All,
}

/// The selection that the command line asks for: a package that is named
/// wins, else the whole workspace where that is asked for.
pub fn select_packages(package: Option<String>, workspace: bool) -> (r: PackageSelection)
    ensures
        r == match package {
            Some(name) => PackageSelection::Selected(name),
            None => if workspace {
                PackageSelection::All
            } else {
                PackageSelection::DefaultOrAll
            },
        },
{
    match package {
        Some(name) => PackageSelection::Selected(name),
        None => if workspace {
            PackageSelection::All
        } else {
            PackageSelection::DefaultOrAll
        },
    }
}

/// The test functions that a command runs, by name.
#[derive(Clone, Debug, PartialEq, Eq)]
pub enum FunctionNameMatch {
    Anything,
    /// The function with exactly this name.
    Exact(String),
    /// The functions whose name holds this text.
    Contains(String),
}

/// The pattern that the command line asks for.
pub fn name_pattern(test_name: Option<String>, exact: bool) -> (r: FunctionNameMatch)
    ensures
        r == match test_name {
            Some(name) => if exact {
                FunctionNameMatch::Exact(name)
            } else {
                FunctionNameMatch::Contains(name)
            },
            None => FunctionNameMatch::Anything,
        },
{
    match test_name {
        Some(name) => if exact {
            FunctionNameMatch::Exact(name)
        } else {
            FunctionNameMatch::Contains(name)
        },
        None => FunctionNameMatch::Anything,
    }
}

/// What happened when a test function was compiled and run.
#[derive(Clone, Copy, Debug, PartialEq, Eq, Structural)]
pub enum TestOutcome {
    /// It did not compile; the flag tells whether a constraint was found to
    /// fail at compile time.
    CompileError { failed_constraint: bool },
    /// It compiled, and its circuit was executed.
    Executed,
    /// It compiled, and executing its circuit failed.
    ExecutionError,
}

/// How a test is judged.
#[derive(Clone, Copy, Debug, PartialEq, Eq, Structural)]
pub enum TestVerdict {
    Passed,
    /// A test that is meant to fail went through.
    ShouldHaveFailed,
    /// The error of the compiler is to be reported.
    DidNotCompile,
    /// The error of the execution is to be reported.
    ExecutionFailed,
}

/// The verdict on a test. A test that is meant to fail passes if its
/// execution fails, or if a constraint fails while it is compiled; any other
/// test passes if it compiles and executes.
pub open spec fn spec_judge(should_fail: bool, outcome: TestOutcome) -> TestVerdict {
    match outcome {
        TestOutcome::Executed => if should_fail {
            TestVerdict::ShouldHaveFailed
        } else {
            TestVerdict::Passed
        },
        TestOutcome::ExecutionError => if should_fail {
            TestVerdict::Passed
        } else {
            TestVerdict::ExecutionFailed
        },
        TestOutcome::CompileError { failed_constraint } => if should_fail && failed_constraint {
            TestVerdict::Passed
        } else {
            TestVerdict::DidNotCompile
        },
    }
}

pub fn judge(should_fail: bool, outcome: TestOutcome) -> (verdict: TestVerdict)
    ensures
        verdict == spec_judge(should_fail, outcome),
{
    match outcome {
        TestOutcome::Executed => if should_fail {
            TestVerdict::ShouldHaveFailed
        } else {
            TestVerdict::Passed
        },
        TestOutcome::ExecutionError => if should_fail {
            TestVerdict::Passed
        } else {
            TestVerdict::ExecutionFailed
        },
        TestOutcome::CompileError { failed_constraint } => if should_fail && failed_constraint {
            TestVerdict::Passed
        } else {
            TestVerdict::DidNotCompile
        },
    }
}

/// The count of the tests of a package that failed.
#[derive(Clone, Copy, Debug, PartialEq, Eq, Structural)]
pub struct Tally {
    pub failing: usize,
}

impl Tally {
    /// The count before any test has run.
    pub fn new() -> (r: Tally)
        ensures
            r.failing == 0,
    {
        Tally { failing: 0 }
    }

    /// Counts one more test. The count stops at the largest number.
    pub fn record(&mut self, passed: bool)
        ensures
            final(self).failing == if passed || old(self).failing == usize::MAX {
                old(self).failing
            } else {
                (old(self).failing + 1) as usize
            },
    {
        if !passed && self.failing < usize::MAX {
            self.failing += 1;
        }
    }

    /// Whether every test passed.
    pub fn all_passed(&self) -> (r: bool)
        ensures
            r == (self.failing == 0),
    {
        self.failing == 0
    }

    /// The ending of the word "test" in the report: none for one test.
    pub fn plural(&self) -> (s: &'static str)
        ensures
            s@ == if self.failing == 1 {
                ""@
            } else {
                "s"@
            },
    {
        if self.failing == 1 {
            ""
        } else {
            "s"
        }
    }
}

/// Whether an opcode can be handed to the backend: a Pedersen hash always,
/// anything else if the backend says so.
pub fn opcode_is_supported(is_pedersen_hash: bool, backend_supports: bool) -> (r: bool)
    ensures
        r == (is_pedersen_hash || backend_supports),
{
    is_pedersen_hash || backend_supports
}

} // verus!
