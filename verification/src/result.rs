//! Results of a conformance test.

use vstd::prelude::*;

use crate::config::{Capability, ReturnCode, ReturnCodeView};
use crate::validation::{spec_int_str, spec_nat_str};

verus! {

/// The result of running a conformance test.
#[derive(Debug, Clone, PartialEq, Eq)]
pub enum TestResult {
    /// The test passed.
    Passed,
    /// The test failed.
    Failed(FailureReason),
    /// The test was skipped.
    Skipped(SkipReason),
}

/// The reason a test failed.
#[derive(Debug, Clone, PartialEq, Eq)]
pub enum FailureReason {
    /// The return code did not match the expected value.
    ReturnCodeMismatch {
        /// The expected return code(s).
        expected: ReturnCode,
        /// The actual return code.
        actual: i32,
    },
    /// The output did not match the expected value.
    OutputMismatch {
        /// Details about the mismatch.
        details: String,
    },
    /// The command execution failed with an error.
    ExecutionError(String),
    /// The test was expected to fail but succeeded.
    UnexpectedSuccess,
    /// No output was produced by the command.
    NoOutput,
    /// The output selector failed.
    SelectorError {
        /// The selector that failed.
        selector: String,
        /// Details about the error.
        details: String,
    },
}

/// The reason a test was skipped.
#[derive(Debug, Clone, PartialEq, Eq)]
pub enum SkipReason {
    /// The test was explicitly ignored.
    Ignored,
    /// The test requires capabilities that were not provided.
    MissingCapabilities(Vec<Capability>),
}

/// The mathematical value of a [`FailureReason`].
#[verifier::ext_equal]
pub enum FailureReasonView {
    /// A return code other than the expected one(s).
    ReturnCodeMismatch {
        /// The expected return code(s).
        expected: ReturnCodeView,
        /// The actual return code.
        actual: int,
    },
    /// Output diverging from the expectation.
    OutputMismatch {
        /// The divergence.
        details: Seq<char>,
    },
    /// A command that could not run.
    ExecutionError(Seq<char>),
    /// Success where failure was demanded.
    UnexpectedSuccess,
    /// No output file.
    NoOutput,
    /// A failing output selector.
    SelectorError {
        /// The selector.
        selector: Seq<char>,
        /// The failure.
        details: Seq<char>,
    },
}

impl View for FailureReason {
    type V = FailureReasonView;

    open spec fn view(&self) -> FailureReasonView {
        match self {
            FailureReason::ReturnCodeMismatch { expected, actual } => {
                FailureReasonView::ReturnCodeMismatch { expected: expected@, actual: *actual as int }
            },
            FailureReason::OutputMismatch { details } => FailureReasonView::OutputMismatch {
                details: details@,
            },
            FailureReason::ExecutionError(e) => FailureReasonView::ExecutionError(e@),
            FailureReason::UnexpectedSuccess => FailureReasonView::UnexpectedSuccess,
            FailureReason::NoOutput => FailureReasonView::NoOutput,
            FailureReason::SelectorError { selector, details } => FailureReasonView::SelectorError {
                selector: selector@,
                details: details@,
            },
        }
    }
}

/// The mathematical value of a [`SkipReason`].
#[verifier::ext_equal]
pub enum SkipReasonView {
    /// Explicitly ignored.
    Ignored,
    /// Required capabilities absent from the enabled set.
    MissingCapabilities(Seq<Capability>),
}

impl View for SkipReason {
    type V = SkipReasonView;

    open spec fn view(&self) -> SkipReasonView {
        match self {
            SkipReason::Ignored => SkipReasonView::Ignored,
            SkipReason::MissingCapabilities(caps) => SkipReasonView::MissingCapabilities(caps@),
        }
    }
}

/// The mathematical value of a [`TestResult`].
#[verifier::ext_equal]
pub enum TestResultView {
    /// The test passed.
    Passed,
    /// The test failed.
    Failed(FailureReasonView),
    /// The test was skipped.
    Skipped(SkipReasonView),
}

impl View for TestResult {
    type V = TestResultView;

    open spec fn view(&self) -> TestResultView {
        match self {
            TestResult::Passed => TestResultView::Passed,
            TestResult::Failed(r) => TestResultView::Failed(r@),
            TestResult::Skipped(r) => TestResultView::Skipped(r@),
        }
    }
}

impl TestResult {
    /// Returns `true` if the test passed.
    pub fn is_passed(&self) -> (r: bool)
        ensures
            r == (self@ is Passed),
    {
        match self {
            TestResult::Passed => true,
            _ => false,
        }
    }

    /// Returns `true` if the test failed.
    pub fn is_failed(&self) -> (r: bool)
        ensures
            r == (self@ is Failed),
    {
        match self {
            TestResult::Failed(_) => true,
            _ => false,
        }
    }

    /// Returns `true` if the test was skipped.
    pub fn is_skipped(&self) -> (r: bool)
        ensures
            r == (self@ is Skipped),
    {
        match self {
            TestResult::Skipped(_) => true,
            _ => false,
        }
    }
}

/// The rendering of a list of return codes, comma-separated.
pub open spec fn spec_codes_join(codes: Seq<int>) -> Seq<char>
    decreases codes,
{
    if codes.len() == 0 {
        Seq::empty()
    } else if codes.len() == 1 {
        spec_int_str(codes[0])
    } else {
        spec_int_str(codes[0]) + ", "@ + spec_codes_join(codes.drop_first())
    }
}

/// The debug-style rendering of a return code expectation.
pub open spec fn spec_return_code_str(rc: ReturnCodeView) -> Seq<char> {
    match rc {
        ReturnCodeView::Any => "Any"@,
        ReturnCodeView::Single(n) => "Single("@ + spec_int_str(n) + ")"@,
        ReturnCodeView::Multiple(codes) => "Multiple(["@ + spec_codes_join(codes) + "])"@,
    }
}

/// The human-readable description of a failure.
pub open spec fn spec_failure_message(r: FailureReasonView) -> Seq<char> {
    match r {
        FailureReasonView::ReturnCodeMismatch { expected, actual } => {
            "return code mismatch: expected "@ + spec_return_code_str(expected) + ", got "@
                + spec_int_str(actual)
        },
        FailureReasonView::OutputMismatch { details } => "output mismatch: "@ + details,
        FailureReasonView::ExecutionError(e) => "execution error: "@ + e,
        FailureReasonView::UnexpectedSuccess => "test marked with `fail: true` but succeeded"@,
        FailureReasonView::NoOutput => "no output produced\u{2014}the command may have failed"@,
        FailureReasonView::SelectorError { selector, details } => "selector error for `"@
            + selector + "`: "@ + details,
    }
}

/// The rendering of the capabilities, back-quoted and comma-separated.
pub open spec fn spec_caps_join(caps: Seq<Capability>) -> Seq<char>
    decreases caps,
{
    if caps.len() == 0 {
        Seq::empty()
    } else if caps.len() == 1 {
        "`"@ + caps[0].spec_str() + "`"@
    } else {
        "`"@ + caps[0].spec_str() + "`"@ + ", "@ + spec_caps_join(caps.drop_first())
    }
}

/// The human-readable description of a skip.
pub open spec fn spec_skip_message(r: SkipReasonView) -> Seq<char> {
    match r {
        SkipReasonView::Ignored => "test marked with `ignore: true`"@,
        SkipReasonView::MissingCapabilities(caps) => "missing required capabilities: "@
            + spec_caps_join(caps),
    }
}

impl FailureReason {
    /// Describes the failure.
    pub fn message(&self) -> (r: String)
        ensures
            r@ == spec_failure_message(self@),
    {
        match self {
            FailureReason::ReturnCodeMismatch { expected, actual } => {
                let mut s = String::new();
                s.append("return code mismatch: expected ");
                push_return_code(&mut s, expected);
                s.append(", got ");
                crate::validation::push_int(&mut s, *actual as i64);
                proof {
                    assert(s@ =~= spec_failure_message(self@));
                }
                s
            },
            FailureReason::OutputMismatch { details } => {
                let mut s = String::new();
                s.append("output mismatch: ");
                s.append(details.as_str());
                proof {
                    assert(s@ =~= spec_failure_message(self@));
                }
                s
            },
            FailureReason::ExecutionError(e) => {
                let mut s = String::new();
                s.append("execution error: ");
                s.append(e.as_str());
                proof {
                    assert(s@ =~= spec_failure_message(self@));
                }
                s
            },
            FailureReason::UnexpectedSuccess => {
                let s = "test marked with `fail: true` but succeeded".to_owned();
                s
            },
            FailureReason::NoOutput => {
                let s = "no output produced\u{2014}the command may have failed".to_owned();
                s
            },
            FailureReason::SelectorError { selector, details } => {
                let mut s = String::new();
                s.append("selector error for `");
                s.append(selector.as_str());
                s.append("`: ");
                s.append(details.as_str());
                proof {
                    assert(s@ =~= spec_failure_message(self@));
                }
                s
            },
        }
    }
}

impl SkipReason {
    /// Describes the skip.
    pub fn message(&self) -> (r: String)
        ensures
            r@ == spec_skip_message(self@),
    {
        match self {
            SkipReason::Ignored => {
                let s = "test marked with `ignore: true`".to_owned();
                s
            },
            SkipReason::MissingCapabilities(caps) => {
                let mut s = String::new();
                s.append("missing required capabilities: ");
                let mut i: usize = 0;
                proof {
                    assert(caps@.skip(0) =~= caps@);
                }
                while i < caps.len()
                    invariant
                        0 <= i <= caps@.len(),
                        s@ + spec_caps_join(caps@.skip(i as int)) == "missing required capabilities: "@
                            + spec_caps_join(caps@),
                    decreases caps@.len() - i,
                {
                    s.append("`");
                    s.append(caps[i].as_str());
                    s.append("`");
                    if i + 1 < caps.len() {
                        s.append(", ");
                    }
                    proof {
                        assert(caps@.skip(i as int).drop_first() =~= caps@.skip(i as int + 1));
                        assert(caps@.skip(i as int)[0] == caps@[i as int]);
                        assert(s@ + spec_caps_join(caps@.skip(i as int + 1))
                            =~= "missing required capabilities: "@ + spec_caps_join(caps@));
                    }
                    i += 1;
                }
                proof {
                    assert(caps@.skip(caps@.len() as int) =~= Seq::<Capability>::empty());
                    assert(s@ =~= spec_skip_message(self@));
                }
                s
            },
        }
    }
}

/// Appends the debug-style rendering of a return code expectation.
fn push_return_code(s: &mut String, rc: &ReturnCode)
    ensures
        final(s)@ == old(s)@ + spec_return_code_str(rc@),
{
    match rc {
        ReturnCode::Any => {
            s.append("Any");
        },
        ReturnCode::Single(n) => {
            s.append("Single(");
            crate::validation::push_int(s, *n as i64);
            s.append(")");
            proof {
                assert(s@ =~= old(s)@ + spec_return_code_str(rc@));
            }
        },
        ReturnCode::Multiple(codes) => {
            s.append("Multiple([");
            let ghost cv = rc@->Multiple_0;
            let mut i: usize = 0;
            proof {
                assert(cv =~= Seq::new(codes@.len(), |k: int| codes@[k] as int));
                assert(cv.skip(0) =~= cv);
            }
            while i < codes.len()
                invariant
                    cv.len() == codes@.len(),
                    forall|k: int| 0 <= k < codes@.len() ==> cv[k] == codes@[k] as int,
                    0 <= i <= codes@.len(),
                    s@ + spec_codes_join(cv.skip(i as int)) == old(s)@ + "Multiple(["@
                        + spec_codes_join(cv),
                decreases codes@.len() - i,
            {
                crate::validation::push_int(s, codes[i] as i64);
                if i + 1 < codes.len() {
                    s.append(", ");
                }
                proof {
                    assert(cv.skip(i as int).drop_first() =~= cv.skip(i as int + 1));
                    assert(cv.skip(i as int)[0] == cv[i as int]);
                    assert(s@ + spec_codes_join(cv.skip(i as int + 1)) =~= old(s)@ + "Multiple(["@
                        + spec_codes_join(cv));
                }
                i += 1;
            }
            s.append("])");
            proof {
                assert(cv.skip(codes@.len() as int) =~= Seq::<int>::empty());
                assert(s@ =~= old(s)@ + spec_return_code_str(rc@));
            }
        },
    }
}

} // verus!
