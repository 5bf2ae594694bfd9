use std::cell::Cell;
use std::rc::Rc;

use quickcheck::composite::CompositeProperty;
use quickcheck::remote::{remote_verdict, worker_response, Execution};
use quickcheck::tester::shrink_failure;
use quickcheck::gen::{arbitrary_vec, shrink_vec};
use quickcheck::{quickcheck, Arbitrary, Gen, QuickCheck, Report, Status, TestFailure, TestResult, Testable};

/// A sequence of integers as test arguments.
#[derive(Clone, PartialEq)]
struct Xs(Vec<u64>);

impl std::ops::Deref for Xs {
    type Target = Vec<u64>;
    fn deref(&self) -> &Vec<u64> {
        &self.0
    }
}

impl std::fmt::Debug for Xs {
    fn fmt(&self, f: &mut std::fmt::Formatter<'_>) -> std::fmt::Result {
        self.0.fmt(f)
    }
}

impl Arbitrary for Xs {
    fn arbitrary(g: &mut Gen) -> Self {
        Xs(arbitrary_vec(g))
    }

    fn shrink(&self) -> Vec<Self> {
        shrink_vec(&self.0).into_iter().map(Xs).collect()
    }
}

fn encode(v: &[u64]) -> Vec<u8> {
    v.iter().flat_map(|x| x.to_le_bytes()).collect()
}

struct ReverseTwice;

impl Testable for ReverseTwice {
    type Args = Xs;
    fn result(&self, xs: &Xs) -> TestResult {
        let rev: Vec<u64> = xs.iter().rev().cloned().collect();
        let revrev: Vec<u64> = rev.iter().rev().cloned().collect();
        TestResult::from_bool(xs.0 == revrev)
    }
}

#[test]
fn reverse_twice_passes_whole_budget() {
    assert_eq!(quickcheck(&ReverseTwice), Report::Passed(100));
    let mut qc = QuickCheck::with_config(250, 1000, 20, 0);
    assert_eq!(qc.quicktest(&ReverseTwice), Ok(250));
}

/// A backend returning its reversed input; the faulty one flips the first
/// element's lowest bit when the length is odd.
struct Reverse {
    faulty: bool,
    calls: Cell<u64>,
}

impl Testable for Reverse {
    type Args = Xs;
    fn result(&self, xs: &Xs) -> TestResult {
        self.calls.set(self.calls.get() + 1);
        let mut rev: Vec<u64> = xs.iter().rev().cloned().collect();
        if self.faulty && rev.len() % 2 == 1 {
            rev[0] ^= 1;
        }
        let mut r = TestResult::passed();
        r.return_value = Some(encode(&rev));
        r
    }
}

fn reverse(faulty: bool) -> Reverse {
    Reverse { faulty, calls: Cell::new(0) }
}

fn same_values(_args: &Xs, values: &Vec<Vec<u8>>) -> Result<bool, String> {
    Ok(values.iter().all(|v| *v == values[0]))
}

fn decode(bytes: &[u8]) -> Result<Vec<u64>, String> {
    if bytes.len() % 8 != 0 {
        return Err(format!("Failed to deserialize return value: {} stray bytes", bytes.len() % 8));
    }
    Ok(bytes.chunks(8).map(|c| u64::from_le_bytes(c.try_into().unwrap())).collect())
}

fn decoded_equal(_args: &Xs, values: &Vec<Vec<u8>>) -> Result<bool, String> {
    let mut decoded = Vec::new();
    for v in values {
        decoded.push(decode(v)?);
    }
    Ok(decoded.iter().all(|d| *d == decoded[0]))
}

#[test]
fn composite_reverse_defect_shrinks_to_single_element() {
    let c = CompositeProperty::new(vec![reverse(false), reverse(true)], same_values);
    let mut qc = QuickCheck::new();
    let r = qc.quicktest(&c).unwrap_err();
    assert_eq!(r.status, Status::Fail);
    assert_eq!(r.failure, Some(TestFailure::Comparison));
    assert_eq!(r.arguments, vec!["[0]".to_string()]);
    match qc.conclude(Err(r)) {
        Report::Failed(m) => assert_eq!(
            m,
            "[quickcheck] TEST FAILED (comparison). Arguments: ([0])\nError: Comparison function returned false"
        ),
        other => panic!("unexpected report {:?}", other),
    }
}

#[test]
fn identical_backends_never_disagree() {
    let c = CompositeProperty::new(vec![reverse(false), reverse(false), reverse(false)], same_values);
    assert_eq!(quickcheck(&c), Report::Passed(100));
}

/// A backend that counts its calls and either fails outright or returns
/// its input unchanged.
struct Counted {
    broken: bool,
    calls: Rc<Cell<u64>>,
}

impl Testable for Counted {
    type Args = Xs;
    fn result(&self, xs: &Xs) -> TestResult {
        self.calls.set(self.calls.get() + 1);
        if self.broken {
            return TestResult::error("connection refused".to_string());
        }
        let mut r = TestResult::passed();
        r.return_value = Some(encode(xs));
        r
    }
}

#[test]
fn first_backend_failure_short_circuits() {
    let counters: Vec<Rc<Cell<u64>>> = (0..3).map(|_| Rc::new(Cell::new(0))).collect();
    let c = CompositeProperty::new(
        vec![
            Counted { broken: true, calls: counters[0].clone() },
            Counted { broken: false, calls: counters[1].clone() },
            Counted { broken: false, calls: counters[2].clone() },
        ],
        same_values,
    );
    let r = c.verdict(&Xs(vec![1, 2, 3]));
    assert_eq!(r.status, Status::Fail);
    assert_eq!(r.failure, Some(TestFailure::Runtime("connection refused".to_string())));
    assert_eq!(r.arguments, vec!["[1, 2, 3]".to_string()]);
    assert_eq!(counters[0].get(), 1);
    assert_eq!(counters[1].get(), 0);
    assert_eq!(counters[2].get(), 0);

    let mut qc = QuickCheck::new();
    let outcome = qc.quicktest(&c);
    assert!(matches!(qc.conclude(outcome), Report::Crashed(_)));
    assert_eq!(counters[1].get(), 0);
    assert_eq!(counters[2].get(), 0);
}

#[test]
fn all_backends_run_when_they_pass() {
    let counters: Vec<Rc<Cell<u64>>> = (0..3).map(|_| Rc::new(Cell::new(0))).collect();
    let c = CompositeProperty::new(
        counters.iter().map(|k| Counted { broken: false, calls: k.clone() }).collect(),
        same_values,
    );
    let values = c.execute_properties(&Xs(vec![9])).unwrap();
    assert_eq!(values, vec![encode(&[9]); 3]);
    assert!(counters.iter().all(|k| k.get() == 1));
}

/// A backend whose own verdict is a discard.
struct Skipping;

impl Testable for Skipping {
    type Args = Xs;
    fn result(&self, _xs: &Xs) -> TestResult {
        TestResult::discard()
    }
}

#[test]
fn backend_discard_is_passed_on() {
    let c = CompositeProperty::new(vec![Skipping], same_values);
    let r = c.verdict(&Xs(vec![2]));
    assert_eq!(r.status, Status::Discard);
    assert_eq!(r.failure, None);
}

/// A backend whose return value is not a whole number of words.
struct Garbled;

impl Testable for Garbled {
    type Args = Xs;
    fn result(&self, _xs: &Xs) -> TestResult {
        let mut r = TestResult::passed();
        r.return_value = Some(vec![1, 2, 3]);
        r
    }
}

#[test]
fn unreadable_return_value_is_runtime_failure() {
    let c = CompositeProperty::new(vec![Garbled, Garbled], decoded_equal);
    let r = c.verdict(&Xs(vec![5]));
    assert_eq!(r.status, Status::Fail);
    assert_eq!(
        r.failure,
        Some(TestFailure::Runtime(
            "Failed to extract return values: Failed to deserialize return value: 3 stray bytes".to_string()
        ))
    );
    assert_eq!(r.arguments, vec!["[5]".to_string()]);

    let ok = CompositeProperty::new(vec![reverse(false), reverse(false)], decoded_equal);
    assert_eq!(ok.verdict(&Xs(vec![1, 2])), TestResult::passed());
}

#[test]
fn missing_return_value_is_runtime_failure() {
    struct NoValue;
    impl Testable for NoValue {
        type Args = Xs;
        fn result(&self, _xs: &Xs) -> TestResult {
            TestResult::passed()
        }
    }
    let c = CompositeProperty::new(vec![NoValue], same_values);
    let r = c.verdict(&Xs(vec![]));
    assert_eq!(
        r.failure,
        Some(TestFailure::Runtime("Failed to extract return values: No return value available".to_string()))
    );
    assert_eq!(r.status, Status::Fail);
}

/// Length one only; every other input is discarded.
struct OnlySingletons {
    evaluated: Cell<u64>,
}

impl Testable for OnlySingletons {
    type Args = Xs;
    fn result(&self, xs: &Xs) -> TestResult {
        if xs.len() != 1 {
            return TestResult::discard();
        }
        self.evaluated.set(self.evaluated.get() + 1);
        TestResult::from_bool(xs[0] == xs[0])
    }
}

#[test]
fn discards_are_not_counted() {
    let p = OnlySingletons { evaluated: Cell::new(0) };
    let mut qc = QuickCheck::with_config(100, 10000, 3, 0);
    let n = qc.quicktest(&p).unwrap();
    assert_eq!(n, p.evaluated.get());
    assert!(n <= 100);

    struct AlwaysDiscard;
    impl Testable for AlwaysDiscard {
        type Args = u64;
        fn result(&self, _x: &u64) -> TestResult {
            TestResult::discard()
        }
    }
    let mut qc = QuickCheck::with_config(100, 500, 100, 1);
    let outcome = qc.quicktest(&AlwaysDiscard);
    assert_eq!(outcome, Ok(0));
    assert_eq!(qc.conclude(outcome), Report::Insufficient(0));
}

/// `x < 10`, failing from ten up.
struct Below10;

impl Testable for Below10 {
    type Args = u64;
    fn result(&self, x: &u64) -> TestResult {
        TestResult::from_bool(*x < 10)
    }
}

#[test]
fn shrink_reaches_local_minimum() {
    let (w, r) = shrink_failure(&Below10, 1000, TestResult::failed(), u64::MAX);
    assert_eq!(w, 10);
    assert_eq!(r.arguments, vec!["10".to_string()]);
    assert_eq!(r.failure, Some(TestFailure::Property(None)));
    for c in 10u64.shrink() {
        assert!(!Below10.result(&c).is_failure());
    }
}

#[test]
fn shrink_from_minimal_witness_is_unchanged() {
    let (w, r) = shrink_failure(&Below10, 10, TestResult::failed(), u64::MAX);
    assert_eq!(w, 10);
    assert_eq!(r.arguments, vec!["10".to_string()]);
    let (w2, again) = shrink_failure(&Below10, w, r.clone(), u64::MAX);
    assert_eq!(w2, 10);
    assert_eq!(again, r);
}

#[test]
fn shrink_limit_bounds_the_descent() {
    let (w, r) = shrink_failure(&Below10, 1000, TestResult::failed(), 0);
    assert_eq!(w, 1000);
    assert_eq!(r.arguments, vec!["1000".to_string()]);
}

/// Fails as a property above 100 but crashes between 10 and 100.
struct RegimeChange;

impl Testable for RegimeChange {
    type Args = u64;
    fn result(&self, x: &u64) -> TestResult {
        if *x > 100 {
            TestResult::failed()
        } else if *x >= 10 {
            TestResult::error("worker unreachable".to_string())
        } else {
            TestResult::passed()
        }
    }
}

#[test]
fn runtime_failure_during_shrink_stops_descent() {
    let (w, r) = shrink_failure(&RegimeChange, 1000, TestResult::failed(), u64::MAX);
    assert_eq!(w, 63);
    assert_eq!(r.failure, Some(TestFailure::Runtime("worker unreachable".to_string())));
    assert_eq!(r.arguments, vec!["63".to_string()]);
}

#[derive(Debug, Clone)]
struct OutOfBoundsArgs {
    length: u64,
    index: u64,
}

impl Arbitrary for OutOfBoundsArgs {
    fn arbitrary(g: &mut Gen) -> Self {
        OutOfBoundsArgs { length: u64::arbitrary(g), index: u64::arbitrary(g) }
    }

    fn shrink(&self) -> Vec<Self> {
        let mut r = Vec::new();
        for length in self.length.shrink() {
            r.push(OutOfBoundsArgs { length, index: self.index });
        }
        for index in self.index.shrink() {
            r.push(OutOfBoundsArgs { length: self.length, index });
        }
        r
    }
}

/// Stands for a worker that indexes a sequence and terminates abnormally
/// when the index is out of bounds.
struct OutOfBounds;

impl Testable for OutOfBounds {
    type Args = OutOfBoundsArgs;
    fn result(&self, a: &OutOfBoundsArgs) -> TestResult {
        let outcome = if a.index >= a.length {
            Execution::Panicked(format!(
                "index out of bounds: the len is {} but the index is {}",
                a.length, a.index
            ))
        } else {
            Execution::Returned(vec![0xc3])
        };
        let resp = worker_response(outcome);
        remote_verdict(resp, format!("{:?}", a))
    }
}

#[test]
fn remote_panic_surfaces_as_runtime_failure() {
    let resp = worker_response(Execution::Panicked("index out of bounds".to_string()));
    assert_eq!(resp.status, 1);
    assert_eq!(resp.failure_detail, Some("Panic: index out of bounds".to_string()));
    assert_eq!(resp.return_value, None);

    let mut qc = QuickCheck::new();
    let outcome = qc.quicktest(&OutOfBounds);
    let r = outcome.clone().unwrap_err();
    assert!(r.is_error());
    match qc.conclude(outcome) {
        Report::Crashed(m) => {
            assert!(m.starts_with("[quickcheck] TEST FAILED (runtime error). Arguments: (OutOfBoundsArgs"));
            assert!(m.contains("\nError: Panic: index out of bounds"));
        }
        other => panic!("unexpected report {:?}", other),
    }
}
