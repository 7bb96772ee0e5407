//! The decision core of the execution driver.
//!
//! Running the external command, reading its output file and applying an
//! optional selector happen outside this crate; what they yield is handed in
//! as plain values, and this module decides the test's result from them.

use vstd::prelude::*;

use crate::config::{Capability, Config, ReturnCode, ReturnCodeView};
use crate::json::{Json, JsonView};
use crate::result::{FailureReason, FailureReasonView, SkipReason, SkipReasonView, TestResult, TestResultView};
use crate::validation::{norm_rel, spec_compare, spec_filter, validate_outputs, ComparisonOutcome, OutcomeView};

verus! {

/// What reading (and optionally reshaping) the command's output yielded.
#[derive(Debug)]
pub enum ActualOutput {
    /// No output file exists.
    Missing,
    /// The output file is empty (up to whitespace).
    Empty,
    /// The output file could not be read; the description.
    ReadError(String),
    /// The output file is not JSON; the parser's description.
    ParseError(String),
    /// The selector failed on the output.
    SelectorError {
        /// The selector.
        selector: String,
        /// The failure.
        details: String,
    },
    /// The parsed (and possibly reshaped) output value.
    Value(Json),
}

/// The mathematical value of an [`ActualOutput`].
#[verifier::ext_equal]
pub enum ActualOutputView {
    /// No output file.
    Missing,
    /// An empty output file.
    Empty,
    /// An unreadable output file.
    ReadError(Seq<char>),
    /// An output file that is not JSON.
    ParseError(Seq<char>),
    /// A failing selector.
    SelectorError {
        /// The selector.
        selector: Seq<char>,
        /// The failure.
        details: Seq<char>,
    },
    /// The output value.
    Value(JsonView),
}

impl View for ActualOutput {
    type V = ActualOutputView;

    open spec fn view(&self) -> ActualOutputView {
        match self {
            ActualOutput::Missing => ActualOutputView::Missing,
            ActualOutput::Empty => ActualOutputView::Empty,
            ActualOutput::ReadError(e) => ActualOutputView::ReadError(e@),
            ActualOutput::ParseError(e) => ActualOutputView::ParseError(e@),
            ActualOutput::SelectorError { selector, details } => ActualOutputView::SelectorError {
                selector: selector@,
                details: details@,
            },
            ActualOutput::Value(v) => ActualOutputView::Value(v@),
        }
    }
}

/// Whether an exit code satisfies a return code expectation.
pub open spec fn rc_matches(rc: ReturnCodeView, code: int) -> bool {
    match rc {
        ReturnCodeView::Any => true,
        ReturnCodeView::Single(e) => code == e,
        ReturnCodeView::Multiple(codes) => codes.contains(code),
    }
}

impl ReturnCode {
    /// Whether the exit code satisfies this expectation.
    pub fn matches(&self, code: i32) -> (r: bool)
        ensures
            r == rc_matches(self@, code as int),
    {
        match self {
            ReturnCode::Any => true,
            ReturnCode::Single(e) => *e == code,
            ReturnCode::Multiple(codes) => {
                let ghost cv = self@->Multiple_0;
                proof {
                    assert(cv.len() == codes@.len());
                    assert(forall|k: int| 0 <= k < codes@.len() ==> cv[k] == codes@[k] as int);
                }
                let mut i: usize = 0;
                while i < codes.len()
                    invariant
                        self@ == ReturnCodeView::Multiple(cv),
                        cv.len() == codes@.len(),
                        forall|k: int| 0 <= k < codes@.len() ==> cv[k] == codes@[k] as int,
                        0 <= i <= codes@.len(),
                        forall|k: int| 0 <= k < i ==> cv[k] != code as int,
                    decreases codes@.len() - i,
                {
                    if codes[i] == code {
                        proof {
                            assert(cv[i as int] == code as int);
                            assert(cv.contains(code as int));
                        }
                        return true;
                    }
                    i += 1;
                }
                proof {
                    assert(!cv.contains(code as int));
                }
                false
            },
        }
    }

    /// A copy of this expectation.
    pub fn duplicate(&self) -> (r: ReturnCode)
        ensures
            r@ == self@,
    {
        match self {
            ReturnCode::Any => ReturnCode::Any,
            ReturnCode::Single(e) => ReturnCode::Single(*e),
            ReturnCode::Multiple(codes) => {
                let mut out: Vec<i32> = Vec::new();
                let mut i: usize = 0;
                while i < codes.len()
                    invariant
                        0 <= i <= codes@.len(),
                        out@.len() == i,
                        forall|k: int| 0 <= k < i ==> out@[k] == codes@[k],
                    decreases codes@.len() - i,
                {
                    out.push(codes[i]);
                    i += 1;
                }
                let r = ReturnCode::Multiple(out);
                proof {
                    assert(r@->Multiple_0 =~= self@->Multiple_0);
                }
                r
            },
        }
    }
}

/// Judges one executed test from its configuration, the command's exit code
/// and what became of its output file.
///
/// A test expected to fail passes exactly when the command exits nonzero,
/// and its output is never examined. Otherwise the exit code must satisfy
/// the configured expectation; then, if no output is expected, the test
/// passes, and if output is expected, it must exist, be non-empty, parse,
/// survive the selector, and match the expectation under the configured
/// exclusions.
pub fn evaluate(
    config: &Config,
    exit_code: i32,
    expected: Option<&Json>,
    actual: &ActualOutput,
) -> (r: TestResult)
    ensures
        config@.fail ==> r@ == if exit_code == 0 {
            TestResultView::Failed(FailureReasonView::UnexpectedSuccess)
        } else {
            TestResultView::Passed
        },
        !config@.fail && !rc_matches(config@.return_code, exit_code as int) ==> r@
            == TestResultView::Failed(
            FailureReasonView::ReturnCodeMismatch {
                expected: config@.return_code,
                actual: exit_code as int,
            },
        ),
        !config@.fail && rc_matches(config@.return_code, exit_code as int) && expected is None
            ==> r@ == TestResultView::Passed,
        !config@.fail && rc_matches(config@.return_code, exit_code as int) && expected is Some
            ==> match actual@ {
            ActualOutputView::Missing => r@ == TestResultView::Failed(FailureReasonView::NoOutput),
            ActualOutputView::Empty => r@ == TestResultView::Failed(FailureReasonView::NoOutput),
            ActualOutputView::ReadError(e) => r@ == TestResultView::Failed(
                FailureReasonView::OutputMismatch {
                    details: "failed to read `outputs.json`: "@ + e,
                },
            ),
            ActualOutputView::ParseError(e) => r@ == TestResultView::Failed(
                FailureReasonView::OutputMismatch {
                    details: "failed to parse `outputs.json`: "@ + e,
                },
            ),
            ActualOutputView::SelectorError { selector, details } => r@ == TestResultView::Failed(
                FailureReasonView::SelectorError { selector, details },
            ),
            ActualOutputView::Value(av) => exists|ne: JsonView, na: JsonView|
                {
                    &&& norm_rel(
                        spec_filter(
                            expected.unwrap()@,
                            config@.exclude_outputs,
                            Seq::<char>::empty(),
                        ),
                        ne,
                    )
                    &&& norm_rel(spec_filter(av, config@.exclude_outputs, Seq::<char>::empty()), na)
                    &&& match spec_compare(ne, na, Seq::<char>::empty()) {
                        OutcomeView::Match => r@ == TestResultView::Passed,
                        OutcomeView::Mismatch { path, message } => r@ == TestResultView::Failed(
                            FailureReasonView::OutputMismatch { details: message },
                        ),
                    }
                },
        },
{
    if config.fail() {
        if exit_code == 0 {
            return TestResult::Failed(FailureReason::UnexpectedSuccess);
        } else {
            return TestResult::Passed;
        }
    }
    if !config.return_code().matches(exit_code) {
        return TestResult::Failed(
            FailureReason::ReturnCodeMismatch {
                expected: config.return_code().duplicate(),
                actual: exit_code,
            },
        );
    }
    let expected_output = match expected {
        Some(e) => e,
        None => {
            return TestResult::Passed;
        },
    };
    match actual {
        ActualOutput::Missing => TestResult::Failed(FailureReason::NoOutput),
        ActualOutput::Empty => TestResult::Failed(FailureReason::NoOutput),
        ActualOutput::ReadError(e) => {
            let mut details = String::new();
            details.append("failed to read `outputs.json`: ");
            details.append(e.as_str());
            proof {
                assert(details@ =~= "failed to read `outputs.json`: "@ + e@);
            }
            TestResult::Failed(FailureReason::OutputMismatch { details })
        },
        ActualOutput::ParseError(e) => {
            let mut details = String::new();
            details.append("failed to parse `outputs.json`: ");
            details.append(e.as_str());
            proof {
                assert(details@ =~= "failed to parse `outputs.json`: "@ + e@);
            }
            TestResult::Failed(FailureReason::OutputMismatch { details })
        },
        ActualOutput::SelectorError { selector, details } => {
            TestResult::Failed(
                FailureReason::SelectorError {
                    selector: selector.clone(),
                    details: details.clone(),
                },
            )
        },
        ActualOutput::Value(av) => {
            match validate_outputs(expected_output, av, config.exclude_outputs()) {
                ComparisonOutcome::Match => TestResult::Passed,
                ComparisonOutcome::Mismatch { path: _, message } => {
                    TestResult::Failed(FailureReason::OutputMismatch { details: message })
                },
            }
        },
    }
}


/// The required capabilities that the enabled set lacks, in the order the
/// configuration lists them.
pub open spec fn spec_missing_caps(caps: Seq<Capability>, enabled: Seq<Capability>) -> Seq<
    Capability,
> {
    caps.filter(|c: Capability| !enabled.contains(c))
}

/// Whether one of the capabilities equals `c`.
fn caps_contain(v: &Vec<Capability>, c: Capability) -> (r: bool)
    ensures
        r == v@.contains(c),
{
    let mut i: usize = 0;
    while i < v.len()
        invariant
            0 <= i <= v@.len(),
            forall|k: int| 0 <= k < i ==> v@[k] != c,
        decreases v@.len() - i,
    {
        if v[i] == c {
            proof {
                assert(v@[i as int] == c);
            }
            return true;
        }
        i += 1;
    }
    false
}

/// Decides whether a test is skipped before anything runs: an ignored test
/// is skipped outright, and otherwise a test requiring capabilities absent
/// from the enabled set is skipped naming exactly those, in configuration
/// order. Any other test runs.
pub fn skip_reason(config: &Config, enabled: &Vec<Capability>) -> (r: Option<SkipReason>)
    ensures
        config@.ignore ==> (r matches Some(s) && s@ == SkipReasonView::Ignored),
        !config@.ignore && spec_missing_caps(config@.capabilities, enabled@).len() > 0 ==> (
        r matches Some(s) && s@ == SkipReasonView::MissingCapabilities(
            spec_missing_caps(config@.capabilities, enabled@),
        )),
        !config@.ignore && spec_missing_caps(config@.capabilities, enabled@).len() == 0 ==> r
            is None,
{
    if config.ignore() {
        return Some(SkipReason::Ignored);
    }
    let caps = config.capabilities();
    let ghost pred = |c: Capability| !enabled@.contains(c);
    let mut missing: Vec<Capability> = Vec::new();
    let mut i: usize = 0;
    proof {
        reveal(Seq::filter);
        assert(caps@.take(0) =~= Seq::<Capability>::empty());
        assert(missing@ =~= caps@.take(0).filter(pred));
    }
    while i < caps.len()
        invariant
            caps@ == config@.capabilities,
            pred == (|c: Capability| !enabled@.contains(c)),
            0 <= i <= caps@.len(),
            missing@ == caps@.take(i as int).filter(pred),
        decreases caps@.len() - i,
    {
        proof {
            assert(caps@.take(i as int + 1).drop_last() =~= caps@.take(i as int));
            assert(caps@.take(i as int + 1).last() == caps@[i as int]);
        }
        if !caps_contain(enabled, caps[i]) {
            missing.push(caps[i]);
            proof {
                reveal(Seq::filter);
                let t1 = caps@.take(i as int + 1);
                assert(t1.len() == i + 1);
                assert(pred(t1.last()));
                assert(t1.filter(pred) == t1.drop_last().filter(pred).push(t1.last()));
                assert(missing@ == t1.filter(pred));
            }
        } else {
            proof {
                reveal(Seq::filter);
                let t1 = caps@.take(i as int + 1);
                assert(t1.len() == i + 1);
                assert(!pred(t1.last()));
                assert(t1.filter(pred) == t1.drop_last().filter(pred));
                assert(missing@ == t1.filter(pred));
            }
        }
        i += 1;
    }
    proof {
        assert(caps@.take(caps@.len() as int) =~= caps@);
    }
    if missing.len() > 0 {
        Some(SkipReason::MissingCapabilities(missing))
    } else {
        None
    }
}

} // verus!
