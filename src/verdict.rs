//! The outcome of one execution of a property.

use vstd::prelude::*;

verus! {

/// Whether one execution passed, failed, or was outside the property's domain.
#[derive(Clone, Copy, Debug, PartialEq, Eq, Structural)]
pub enum Status {
    Pass,
    Fail,
    Discard,
}

impl Default for Status {
    fn default() -> (r: Status)
        ensures
            r == Status::Pass,
    {
        Status::Pass
    }
}

/// Why an execution failed.
#[derive(Clone, Debug, PartialEq)]
pub enum TestFailure {
    /// The property evaluated to false or returned an application error.
    Property(Option<String>),
    /// Every implementation succeeded but the comparator rejected their results.
    Comparison,
    /// The harness broke: transport, encoding, or an abnormal termination.
    Runtime(String),
}

/// The classification of a failure, without its detail text.
#[derive(Clone, Copy, Debug, PartialEq, Eq, Structural)]
pub enum Regime {
    Unclassified,
    Property,
    Comparison,
    Runtime,
}

/// The structured outcome of one execution.
#[derive(Clone, Debug, PartialEq)]
pub struct TestResult {
    pub status: Status,
    /// Printable witness arguments; meaningful for failures.
    pub arguments: Vec<String>,
    pub failure: Option<TestFailure>,
    /// Encoded return value, present only on a pass; used for comparison.
    pub return_value: Option<Vec<u8>>,
}

pub open spec fn regime_of(failure: Option<TestFailure>) -> Regime {
    match failure {
        None => Regime::Unclassified,
        Some(TestFailure::Property(_)) => Regime::Property,
        Some(TestFailure::Comparison) => Regime::Comparison,
        Some(TestFailure::Runtime(_)) => Regime::Runtime,
    }
}

/// A failure classification with its detail as text.
pub enum FailureView {
    Property(Option<Seq<char>>),
    Comparison,
    Runtime(Seq<char>),
}

/// What a verdict says, apart from its printed witness: the status, the
/// failure and the encoded return value.
pub struct VerdictView {
    pub status: Status,
    pub failure: Option<FailureView>,
    pub value: Option<Seq<u8>>,
}

pub open spec fn failure_view(f: Option<TestFailure>) -> Option<FailureView> {
    match f {
        None => None,
        Some(TestFailure::Property(d)) => Some(
            FailureView::Property(
                match d {
                    Some(s) => Some(s@),
                    None => None,
                },
            ),
        ),
        Some(TestFailure::Comparison) => Some(FailureView::Comparison),
        Some(TestFailure::Runtime(s)) => Some(FailureView::Runtime(s@)),
    }
}

pub open spec fn regime_of_view(f: Option<FailureView>) -> Regime {
    match f {
        None => Regime::Unclassified,
        Some(FailureView::Property(_)) => Regime::Property,
        Some(FailureView::Comparison) => Regime::Comparison,
        Some(FailureView::Runtime(_)) => Regime::Runtime,
    }
}

/// The verdict without its return value.
pub open spec fn unvalued(v: VerdictView) -> VerdictView {
    VerdictView { status: v.status, failure: v.failure, value: None }
}

impl View for TestResult {
    type V = VerdictView;

    open spec fn view(&self) -> VerdictView {
        VerdictView {
            status: self.status,
            failure: failure_view(self.failure),
            value: match self.return_value {
                Some(v) => Some(v@),
                None => None,
            },
        }
    }
}

pub open spec fn views_of(parts: Seq<String>) -> Seq<Seq<char>> {
    parts.map_values(|s: String| s@)
}

/// The parts separated by `sep`.
pub open spec fn joined(parts: Seq<Seq<char>>, sep: Seq<char>) -> Seq<char>
    decreases parts.len(),
{
    if parts.len() == 0 {
        Seq::empty()
    } else if parts.len() == 1 {
        parts[0]
    } else {
        joined(parts.drop_last(), sep) + sep + parts.last()
    }
}

pub open spec fn arguments_text(r: TestResult) -> Seq<char> {
    "Arguments: ("@ + joined(views_of(r.arguments@), ", "@) + ")"@
}

/// The human-readable report of a result.
pub open spec fn report_text(r: TestResult) -> Seq<char> {
    match r.failure {
        Some(TestFailure::Runtime(e)) => "[quickcheck] TEST FAILED (runtime error). "@ + arguments_text(r)
            + "\nError: "@ + e@,
        Some(TestFailure::Property(Some(e))) => "[quickcheck] TEST FAILED. "@ + arguments_text(r)
            + "\nError: "@ + e@,
        Some(TestFailure::Property(None)) => "[quickcheck] TEST FAILED. "@ + arguments_text(r),
        Some(TestFailure::Comparison) => "[quickcheck] TEST FAILED (comparison). "@ + arguments_text(r)
            + "\nError: Comparison function returned false"@,
        None => "[quickcheck] TEST PASSED. "@ + arguments_text(r),
    }
}

/// Joins the parts with `", "` between neighbours.
pub fn join_arguments(parts: &Vec<String>) -> (r: String)
    ensures
        r@ == joined(views_of(parts@), ", "@),
{
    let mut acc = String::new();
    let mut i: usize = 0;
    while i < parts.len()
        invariant
            0 <= i <= parts@.len(),
            acc@ == joined(views_of(parts@).take(i as int), ", "@),
        decreases parts@.len() - i,
    {
        let ghost before = acc@;
        if i > 0 {
            acc.append(", ");
        }
        acc.append(parts[i].as_str());
        proof {
            let vs = views_of(parts@);
            assert(vs.take(i + 1).drop_last() =~= vs.take(i as int));
            assert(vs.take(i + 1).last() == parts@[i as int]@);
            if i == 0 {
                assert(before =~= Seq::<char>::empty());
                assert(acc@ =~= parts@[0]@);
            }
        }
        i = i + 1;
    }
    proof {
        assert(views_of(parts@).take(i as int) =~= views_of(parts@));
    }
    acc
}

impl TestResult {
    pub open spec fn is_failure_spec(&self) -> bool {
        self.status == Status::Fail
    }

    pub open spec fn is_error_spec(&self) -> bool {
        regime_of(self.failure) == Regime::Runtime
    }

    /// A result that indicates the test has passed.
    pub fn passed() -> (r: TestResult)
        ensures
            r.status == Status::Pass,
            r.arguments@.len() == 0,
            r.failure.is_none(),
            r.return_value.is_none(),
    {
        TestResult::from_bool(true)
    }

    /// A result that indicates the test has failed.
    pub fn failed() -> (r: TestResult)
        ensures
            r.status == Status::Fail,
            r.arguments@.len() == 0,
            r.failure == Some(TestFailure::Property(None)),
            r.return_value.is_none(),
    {
        TestResult::from_bool(false)
    }

    /// A result that indicates failure from a runtime error.
    pub fn error(msg: String) -> (r: TestResult)
        ensures
            r.status == Status::Fail,
            r.arguments@.len() == 0,
            r.failure == Some(TestFailure::Runtime(msg)),
            r.return_value.is_none(),
    {
        let mut r = TestResult::from_bool(false);
        r.failure = Some(TestFailure::Runtime(msg));
        r
    }

    /// A result that instructs the driver to ignore this case.
    pub fn discard() -> (r: TestResult)
        ensures
            r.status == Status::Discard,
            r.arguments@.len() == 0,
            r.failure.is_none(),
            r.return_value.is_none(),
    {
        TestResult { status: Status::Discard, arguments: Vec::new(), failure: None, return_value: None }
    }

    /// `true` passes; `false` is a property failure.
    pub fn from_bool(b: bool) -> (r: TestResult)
        ensures
            r.status == (if b { Status::Pass } else { Status::Fail }),
            r.arguments@.len() == 0,
            r.failure == (if b { None } else { Some(TestFailure::Property(None)) }),
            r.return_value.is_none(),
    {
        TestResult {
            status: if b { Status::Pass } else { Status::Fail },
            arguments: Vec::new(),
            failure: if b { None } else { Some(TestFailure::Property(None)) },
            return_value: None,
        }
    }

    /// Whether this result describes a failing test.
    pub fn is_failure(&self) -> (r: bool)
        ensures
            r == self.is_failure_spec(),
    {
        match self.status {
            Status::Fail => true,
            _ => false,
        }
    }

    /// Whether this result describes a failure of the harness itself.
    pub fn is_error(&self) -> (r: bool)
        ensures
            r == self.is_error_spec(),
    {
        match self.failure {
            Some(TestFailure::Runtime(_)) => true,
            _ => false,
        }
    }

    /// The classification of this result's failure.
    pub fn regime(&self) -> (r: Regime)
        ensures
            r == regime_of(self.failure),
    {
        match self.failure {
            None => Regime::Unclassified,
            Some(TestFailure::Property(_)) => Regime::Property,
            Some(TestFailure::Comparison) => Regime::Comparison,
            Some(TestFailure::Runtime(_)) => Regime::Runtime,
        }
    }

    /// The report printed for this result.
    pub fn failed_msg(&self) -> (r: String)
        ensures
            r@ == report_text(*self),
    {
        let mut args = String::from_str("Arguments: (");
        let joined_args = join_arguments(&self.arguments);
        args.append(joined_args.as_str());
        args.append(")");
        match &self.failure {
            Some(TestFailure::Runtime(e)) => {
                let mut m = String::from_str("[quickcheck] TEST FAILED (runtime error). ");
                m.append(args.as_str());
                m.append("\nError: ");
                m.append(e.as_str());
                m
            },
            Some(TestFailure::Property(Some(e))) => {
                let mut m = String::from_str("[quickcheck] TEST FAILED. ");
                m.append(args.as_str());
                m.append("\nError: ");
                m.append(e.as_str());
                m
            },
            Some(TestFailure::Property(None)) => {
                let mut m = String::from_str("[quickcheck] TEST FAILED. ");
                m.append(args.as_str());
                m
            },
            Some(TestFailure::Comparison) => {
                let mut m = String::from_str("[quickcheck] TEST FAILED (comparison). ");
                m.append(args.as_str());
                m.append("\nError: Comparison function returned false");
                m
            },
            None => {
                let mut m = String::from_str("[quickcheck] TEST PASSED. ");
                m.append(args.as_str());
                m
            },
        }
    }
}

/// `true` passes; `false` is a property failure (as `TestResult::from_bool`,
/// which carries the contract).
impl From<bool> for TestResult {
    fn from(b: bool) -> (r: TestResult) {
        TestResult::from_bool(b)
    }
}

impl vstd::std_specs::convert::FromSpecImpl<bool> for TestResult {
    open spec fn obeys_from_spec() -> bool {
        false
    }

    open spec fn from_spec(b: bool) -> TestResult {
        arbitrary()
    }
}

} // verus!
