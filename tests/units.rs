use quickcheck::config::{parse_count, setting};
use quickcheck::remote::{
    remote_verdict, route, same_text, starts_with, transport_failure, worker_response, panic_text,
    ExecuteResponse, Execution, WireStatus,
};
use quickcheck::composite::{judge, run_result};
use quickcheck::gen::{arbitrary_u64, arbitrary_vec, replaced, shrink_u64, without};
use quickcheck::tester::{decide, shrink_next, shrink_step, Decision, ShrinkMove, ShrinkStep};
use quickcheck::Gen;
use quickcheck::verdict::{join_arguments, Regime};
use quickcheck::{QuickCheck, Report, Status, TestFailure, TestResult};

#[test]
fn constructors() {
    let p = TestResult::passed();
    assert_eq!(p.status, Status::Pass);
    assert_eq!(p.failure, None);
    assert!(!p.is_failure());
    let f = TestResult::failed();
    assert_eq!(f.status, Status::Fail);
    assert_eq!(f.failure, Some(TestFailure::Property(None)));
    assert!(f.is_failure());
    assert!(!f.is_error());
    let e = TestResult::error("boom".to_string());
    assert!(e.is_failure());
    assert!(e.is_error());
    assert_eq!(e.failure, Some(TestFailure::Runtime("boom".to_string())));
    let d = TestResult::discard();
    assert_eq!(d.status, Status::Discard);
    assert!(!d.is_failure());
    assert_eq!(TestResult::from_bool(true), TestResult::passed());
    assert_eq!(TestResult::from_bool(false), TestResult::failed());
    assert_eq!(Status::default(), Status::Pass);
}

#[test]
fn regimes() {
    assert_eq!(TestResult::passed().regime(), Regime::Unclassified);
    assert_eq!(TestResult::failed().regime(), Regime::Property);
    assert_eq!(TestResult::error("x".to_string()).regime(), Regime::Runtime);
    let mut c = TestResult::failed();
    c.failure = Some(TestFailure::Comparison);
    assert_eq!(c.regime(), Regime::Comparison);
}

fn with_args(mut r: TestResult, args: &[&str]) -> TestResult {
    r.arguments = args.iter().map(|s| s.to_string()).collect();
    r
}

#[test]
fn report_messages() {
    assert_eq!(
        with_args(TestResult::failed(), &["1", "2"]).failed_msg(),
        "[quickcheck] TEST FAILED. Arguments: (1, 2)"
    );
    let mut p = with_args(TestResult::failed(), &["[3]"]);
    p.failure = Some(TestFailure::Property(Some("bad".to_string())));
    assert_eq!(p.failed_msg(), "[quickcheck] TEST FAILED. Arguments: ([3])\nError: bad");
    assert_eq!(
        with_args(TestResult::error("lost".to_string()), &["0"]).failed_msg(),
        "[quickcheck] TEST FAILED (runtime error). Arguments: (0)\nError: lost"
    );
    let mut c = with_args(TestResult::failed(), &[]);
    c.failure = Some(TestFailure::Comparison);
    assert_eq!(
        c.failed_msg(),
        "[quickcheck] TEST FAILED (comparison). Arguments: ()\nError: Comparison function returned false"
    );
    assert_eq!(TestResult::passed().failed_msg(), "[quickcheck] TEST PASSED. Arguments: ()");
}

#[test]
fn joining_arguments() {
    assert_eq!(join_arguments(&vec![]), "");
    assert_eq!(join_arguments(&vec!["a".to_string()]), "a");
    assert_eq!(join_arguments(&vec!["a".to_string(), "bc".to_string(), "d".to_string()]), "a, bc, d");
}

#[test]
fn driver_decisions() {
    assert_eq!(decide(3, Status::Pass), Decision::Continue(4));
    assert_eq!(decide(3, Status::Discard), Decision::Continue(3));
    assert_eq!(decide(3, Status::Fail), Decision::Shrink);
}

#[test]
fn shrink_steps() {
    assert_eq!(shrink_step(Regime::Property, &TestResult::passed()), ShrinkStep::Skip);
    assert_eq!(shrink_step(Regime::Property, &TestResult::discard()), ShrinkStep::Skip);
    assert_eq!(shrink_step(Regime::Property, &TestResult::failed()), ShrinkStep::Descend);
    assert_eq!(shrink_step(Regime::Property, &TestResult::error("e".to_string())), ShrinkStep::Stop);
    assert_eq!(shrink_step(Regime::Runtime, &TestResult::error("e".to_string())), ShrinkStep::Descend);
    let mut c = TestResult::failed();
    c.failure = Some(TestFailure::Comparison);
    assert_eq!(shrink_step(Regime::Comparison, &c), ShrinkStep::Descend);
    assert_eq!(shrink_step(Regime::Comparison, &TestResult::failed()), ShrinkStep::Stop);
}

#[test]
fn conclusions() {
    let qc = QuickCheck::with_config(10, 20, 5, 3);
    assert_eq!(qc.conclude(Ok(10)), Report::Passed(10));
    assert_eq!(qc.conclude(Ok(3)), Report::Insufficient(3));
    assert_eq!(qc.conclude(Ok(0)), Report::Insufficient(0));
    let demanding = QuickCheck::with_config(10, 20, 5, 12);
    assert_eq!(demanding.conclude(Ok(10)), Report::Insufficient(10));
    assert_eq!(
        qc.conclude(Err(with_args(TestResult::failed(), &["7"]))),
        Report::Failed("[quickcheck] TEST FAILED. Arguments: (7)".to_string())
    );
    assert_eq!(
        qc.conclude(Err(with_args(TestResult::error("down".to_string()), &["7"]))),
        Report::Crashed("[quickcheck] TEST FAILED (runtime error). Arguments: (7)\nError: down".to_string())
    );
}

#[test]
fn defaults() {
    let qc = QuickCheck::new();
    assert_eq!(qc.tests, 100);
    assert_eq!(qc.max_tests, 10000);
    assert_eq!(qc.min_tests_passed, 0);
    assert_eq!(qc.rng.size(), 100);
}

#[test]
fn wire_status_codes() {
    assert_eq!(WireStatus::from_code(0), Some(WireStatus::Passed));
    assert_eq!(WireStatus::from_code(1), Some(WireStatus::Failed));
    assert_eq!(WireStatus::from_code(2), Some(WireStatus::InvalidInput));
    assert_eq!(WireStatus::from_code(9), None);
    assert_eq!(WireStatus::from_code(-1), None);
    assert_eq!(WireStatus::InvalidInput.code(), 2);
    assert_eq!(WireStatus::Passed.to_status(), Status::Pass);
    assert_eq!(WireStatus::Failed.to_status(), Status::Fail);
    assert_eq!(WireStatus::InvalidInput.to_status(), Status::Discard);
}

#[test]
fn remote_verdicts() {
    let pass = ExecuteResponse { status: 0, failure_detail: None, return_value: Some(vec![1, 2]) };
    let r = remote_verdict(pass, "[1]".to_string());
    assert_eq!(r.status, Status::Pass);
    assert_eq!(r.return_value, Some(vec![1, 2]));
    assert_eq!(r.arguments, vec!["[1]".to_string()]);
    assert_eq!(r.failure, None);

    let fail = ExecuteResponse { status: 1, failure_detail: Some("wrong sum".to_string()), return_value: Some(vec![3]) };
    let r = remote_verdict(fail, "x".to_string());
    assert_eq!(r.status, Status::Fail);
    assert_eq!(r.failure, Some(TestFailure::Property(Some("wrong sum".to_string()))));
    assert_eq!(r.return_value, None);

    let panic = ExecuteResponse { status: 1, failure_detail: Some("Panic: oops".to_string()), return_value: None };
    let r = remote_verdict(panic, "x".to_string());
    assert_eq!(r.failure, Some(TestFailure::Runtime("Panic: oops".to_string())));

    let bare = ExecuteResponse { status: 1, failure_detail: None, return_value: None };
    assert_eq!(remote_verdict(bare, "x".to_string()).failure, Some(TestFailure::Property(None)));

    let malformed = ExecuteResponse { status: 9, failure_detail: None, return_value: None };
    let r = remote_verdict(malformed, "[2]".to_string());
    assert_eq!(r.status, Status::Fail);
    assert_eq!(
        r.failure,
        Some(TestFailure::Runtime("Tester failed to call runner: unknown response status".to_string()))
    );
    assert_eq!(r.arguments, vec!["[2]".to_string()]);

    let invalid = ExecuteResponse { status: 2, failure_detail: None, return_value: Some(vec![1]) };
    let r = remote_verdict(invalid, "x".to_string());
    assert_eq!(r.status, Status::Discard);
    assert_eq!(r.return_value, None);
    assert_eq!(r.failure, None);
}

#[test]
fn transport_errors() {
    let r = transport_failure("[4]".to_string(), "connection refused");
    assert_eq!(r.status, Status::Fail);
    assert!(r.is_error());
    assert_eq!(r.failure, Some(TestFailure::Runtime("Tester failed to call runner: connection refused".to_string())));
    assert_eq!(r.arguments, vec!["[4]".to_string()]);
}

#[test]
fn worker_responses() {
    let r = worker_response(Execution::Returned(vec![9, 8]));
    assert_eq!(r, ExecuteResponse { status: 0, failure_detail: None, return_value: Some(vec![9, 8]) });
    let r = worker_response(Execution::Rejected("nope".to_string()));
    assert_eq!(r, ExecuteResponse { status: 1, failure_detail: Some("nope".to_string()), return_value: None });
    let r = worker_response(Execution::Panicked(panic_text(None)));
    assert_eq!(r.failure_detail, Some("Panic: Unknown panic occurred".to_string()));
    assert_eq!(panic_text(Some("msg".to_string())), "msg");
}

#[test]
fn routing() {
    assert_eq!(route("add_test", "add_test"), Ok(()));
    assert_eq!(
        route("sort_test", "add_test"),
        Err("Test 'sort_test' not found. This runner only supports 'add_test'".to_string())
    );
    assert!(same_text("", ""));
    assert!(!same_text("ab", "abc"));
    assert!(!same_text("abd", "abc"));
    assert!(starts_with("Panic: x", "Panic: "));
    assert!(!starts_with("Pan", "Panic: "));
    assert!(!starts_with("panic: x", "Panic: "));
}

#[test]
fn count_parsing() {
    assert_eq!(parse_count("250", u64::MAX), Some(250));
    assert_eq!(parse_count("+7", u64::MAX), Some(7));
    assert_eq!(parse_count("0", u64::MAX), Some(0));
    assert_eq!(parse_count("18446744073709551615", u64::MAX), Some(u64::MAX));
    assert_eq!(parse_count("18446744073709551616", u64::MAX), None);
    assert_eq!(parse_count("", u64::MAX), None);
    assert_eq!(parse_count("+", u64::MAX), None);
    assert_eq!(parse_count("-1", u64::MAX), None);
    assert_eq!(parse_count("12a", u64::MAX), None);
    assert_eq!(parse_count(" 12", u64::MAX), None);
    assert_eq!(parse_count("300", 255), None);
    assert_eq!(parse_count("255", 255), Some(255));
    assert_eq!(setting(None, 100, u64::MAX), 100);
    assert_eq!(setting(Some("abc"), 100, u64::MAX), 100);
    assert_eq!(setting(Some("42"), 100, u64::MAX), 42);
}

#[test]
fn settings_from_text() {
    let qc = QuickCheck::from_settings(Some("5"), None, Some("x"), Some("2"));
    assert_eq!(qc.tests, 5);
    assert_eq!(qc.max_tests, 10000);
    assert_eq!(qc.rng.size(), 100);
    assert_eq!(qc.min_tests_passed, 2);
}

#[test]
fn default_session_settings() {
    let qc = QuickCheck::default();
    assert_eq!(qc.tests, 100);
    assert_eq!(qc.max_tests, 10000);
    assert_eq!(qc.max_shrinks, u64::MAX);
}

fn passing(value: Option<Vec<u8>>) -> TestResult {
    let mut r = TestResult::passed();
    r.return_value = value;
    r
}

#[test]
fn run_results() {
    let w = "[1]".to_string();
    assert_eq!(run_result(0, &vec![], w.clone()), Ok(vec![]));
    let seen = vec![passing(Some(vec![1])), passing(Some(vec![2]))];
    assert_eq!(run_result(2, &seen, w.clone()), Ok(vec![vec![1], vec![2]]));
    let seen = vec![passing(Some(vec![1])), TestResult::error("down".to_string())];
    let e = run_result(3, &seen, w.clone()).unwrap_err();
    assert_eq!(e.failure, Some(TestFailure::Runtime("down".to_string())));
    assert_eq!(e.arguments, vec![w.clone()]);
    let seen = vec![TestResult::discard()];
    let e = run_result(3, &seen, w.clone()).unwrap_err();
    assert_eq!(e.status, Status::Discard);
    assert_eq!(e.failure, None);
    let seen = vec![passing(Some(vec![1])), passing(None)];
    let e = run_result(2, &seen, w.clone()).unwrap_err();
    assert_eq!(
        e.failure,
        Some(TestFailure::Runtime("Failed to extract return values: No return value available".to_string()))
    );
}

#[test]
fn judgements() {
    let w = "[7]".to_string();
    assert_eq!(judge(Ok(vec![]), Some(Ok(true)), w.clone()), TestResult::passed());
    let r = judge(Ok(vec![]), Some(Ok(false)), w.clone());
    assert_eq!(r.failure, Some(TestFailure::Comparison));
    assert_eq!(r.arguments, vec![w.clone()]);
    let r = judge(Ok(vec![]), Some(Err("bad bytes".to_string())), w.clone());
    assert_eq!(r.failure, Some(TestFailure::Runtime("Failed to extract return values: bad bytes".to_string())));
    let e = TestResult::error("lost".to_string());
    assert_eq!(judge(Err(e.clone()), None, w.clone()), e);
}

#[test]
fn shrink_moves() {
    let w = "5".to_string();
    assert_eq!(shrink_next(Regime::Property, TestResult::passed(), w.clone()), ShrinkMove::Next);
    assert_eq!(shrink_next(Regime::Property, TestResult::discard(), w.clone()), ShrinkMove::Next);
    assert_eq!(
        shrink_next(Regime::Property, TestResult::failed(), w.clone()),
        ShrinkMove::Descend(TestResult::failed())
    );
    match shrink_next(Regime::Property, TestResult::error("e".to_string()), w.clone()) {
        ShrinkMove::Report(r) => {
            assert_eq!(r.arguments, vec![w.clone()]);
            assert_eq!(r.failure, Some(TestFailure::Runtime("e".to_string())));
        }
        other => panic!("unexpected move {:?}", other),
    }
}

#[test]
fn generator_helpers() {
    assert_eq!(shrink_u64(0), Vec::<u64>::new());
    assert_eq!(shrink_u64(7), vec![0, 4, 6]);
    assert_eq!(without(&vec![1, 2, 3], 1), vec![1, 3]);
    assert_eq!(replaced(&vec![1, 2, 3], 2, &9), vec![1, 2, 9]);
    let mut g = Gen::from_seed(4, 3);
    for _ in 0..100 {
        assert!(arbitrary_u64(&mut g, 2) <= 2);
        assert!(arbitrary_vec::<bool>(&mut g).len() <= 4);
    }
}

#[test]
fn no_target_means_no_calls() {
    struct Never;
    impl quickcheck::Testable for Never {
        type Args = u64;
        fn result(&self, _x: &u64) -> TestResult {
            panic!("must not run")
        }
    }
    let mut qc = QuickCheck::with_config(0, 10, 5, 0);
    assert_eq!(qc.quicktest(&Never), Ok(0));
    let mut qc = QuickCheck::with_config(5, 0, 5, 0);
    assert_eq!(qc.quickcheck(&Never), Report::Insufficient(0));
    let mut qc = QuickCheck::with_config(0, 10, 5, 1);
    assert_eq!(qc.quickcheck(&Never), Report::Insufficient(0));
}
