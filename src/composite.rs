//! Differential testing: several implementations run on the same arguments,
//! and a comparator judges their return values.

use vstd::prelude::*;

use crate::tester::{describe, Testable};
use crate::verdict::{unvalued, FailureView, Status, TestFailure, TestResult, VerdictView};

verus! {

/// Every verdict but possibly the last one passed.
pub open spec fn passes_before_last(seen: Seq<TestResult>) -> bool {
    forall|j: int| 0 <= j < seen.len() - 1 ==> (#[trigger] seen[j]).status == Status::Pass
}

pub open spec fn all_pass(seen: Seq<TestResult>) -> bool {
    forall|j: int| 0 <= j < seen.len() ==> (#[trigger] seen[j]).status == Status::Pass
}

pub open spec fn missing_value_text() -> Seq<char> {
    "Failed to extract return values: No return value available"@
}

pub open spec fn unreadable_text(e: Seq<char>) -> Seq<char> {
    "Failed to extract return values: "@ + e
}

/// `k` is the first verdict that does not pass.
pub open spec fn is_first_nonpass(vs: Seq<VerdictView>, k: int) -> bool {
    &&& 0 <= k < vs.len()
    &&& vs[k].status != Status::Pass
    &&& forall|j: int| 0 <= j < k ==> (#[trigger] vs[j]).status == Status::Pass
}

/// What running backends with verdicts `vs` in order yields: the first
/// verdict that does not pass, without value (later backends do not run);
/// else a failure of the run when one has no value; else all the values.
pub open spec fn run_spec(vs: Seq<VerdictView>) -> Result<Seq<Seq<u8>>, VerdictView> {
    if exists|k: int| is_first_nonpass(vs, k) {
        let k = choose|k: int| is_first_nonpass(vs, k);
        Err(unvalued(vs[k]))
    } else if exists|j: int| 0 <= j < vs.len() && (#[trigger] vs[j]).value is None {
        Err(VerdictView { status: Status::Fail, failure: Some(FailureView::Runtime(missing_value_text())), value: None })
    } else {
        Ok(vs.map_values(|v: VerdictView| v.value->0))
    }
}

pub open spec fn values_view(v: Vec<Vec<u8>>) -> Seq<Seq<u8>> {
    v@.map_values(|x: Vec<u8>| x@)
}

pub open spec fn run_view(r: Result<Vec<Vec<u8>>, TestResult>) -> Result<Seq<Seq<u8>>, VerdictView> {
    match r {
        Ok(v) => Ok(values_view(v)),
        Err(e) => Err(e@),
    }
}

pub open spec fn answer_view(a: Result<bool, String>) -> Result<bool, Seq<char>> {
    match a {
        Ok(b) => Ok(b),
        Err(e) => Err(e@),
    }
}

/// The verdict of a run and the comparator's answer on its values.
pub open spec fn judge_view(run: Result<Seq<Seq<u8>>, VerdictView>, answer: Result<bool, Seq<char>>) -> VerdictView {
    match run {
        Err(e) => e,
        Ok(_) => match answer {
            Ok(true) => VerdictView { status: Status::Pass, failure: None, value: None },
            Ok(false) => VerdictView { status: Status::Fail, failure: Some(FailureView::Comparison), value: None },
            Err(e) => VerdictView {
                status: Status::Fail,
                failure: Some(FailureView::Runtime(unreadable_text(e))),
                value: None,
            },
        },
    }
}

proof fn lemma_first_nonpass(vs: Seq<VerdictView>, k: int)
    requires
        is_first_nonpass(vs, k),
    ensures
        run_spec(vs) == Err::<Seq<Seq<u8>>, VerdictView>(unvalued(vs[k])),
{
    let c = choose|c: int| is_first_nonpass(vs, c);
    if c < k {
        assert(vs[c].status == Status::Pass);
    }
    if c > k {
        assert(vs[k].status == Status::Pass);
    }
}

/// If the first backend does not pass, the run yields its verdict, whatever
/// the others would return: they are not run.
pub proof fn lemma_first_failure_short_circuits(vs: Seq<VerdictView>, others: Seq<VerdictView>)
    requires
        vs.len() > 0,
        vs[0].status != Status::Pass,
        others.len() > 0,
        others[0] == vs[0],
    ensures
        run_spec(vs) == Err::<Seq<Seq<u8>>, VerdictView>(unvalued(vs[0])),
        run_spec(others) == run_spec(vs),
{
    lemma_first_nonpass(vs, 0);
    lemma_first_nonpass(others, 0);
}

/// If every backend passes with the same value, the run yields that value
/// once per backend.
pub proof fn lemma_all_pass_values(vs: Seq<VerdictView>, b: Seq<u8>)
    requires
        forall|j: int| 0 <= j < vs.len() ==> (#[trigger] vs[j]).status == Status::Pass && vs[j].value == Some(b),
    ensures
        run_spec(vs) == Ok::<Seq<Seq<u8>>, VerdictView>(Seq::new(vs.len(), |j: int| b)),
{
    if exists|k: int| is_first_nonpass(vs, k) {
        let k = choose|k: int| is_first_nonpass(vs, k);
        assert(vs[k].status == Status::Pass);
    }
    assert(vs.map_values(|v: VerdictView| v.value->0) =~= Seq::new(vs.len(), |j: int| b));
}

/// A copy of a failure classification and its detail.
pub fn copy_failure(f: &Option<TestFailure>) -> (r: Option<TestFailure>)
    ensures
        r == *f,
{
    match f {
        None => None,
        Some(TestFailure::Property(None)) => Some(TestFailure::Property(None)),
        Some(TestFailure::Property(Some(d))) => Some(TestFailure::Property(Some(d.clone()))),
        Some(TestFailure::Comparison) => Some(TestFailure::Comparison),
        Some(TestFailure::Runtime(d)) => Some(TestFailure::Runtime(d.clone())),
    }
}

pub open spec fn verdicts(seen: Seq<TestResult>) -> Seq<VerdictView> {
    seen.map_values(|t: TestResult| t@)
}

/// What a run yields, given the verdicts `seen` of the backends that ran,
/// the first non-pass last. An error names `witness`.
pub fn run_result(n: usize, seen: &Vec<TestResult>, witness: String) -> (r: Result<Vec<Vec<u8>>, TestResult>)
    requires
        seen@.len() <= n,
        passes_before_last(seen@),
        seen@.len() == n || (seen@.len() > 0 && seen@.last().status != Status::Pass),
    ensures
        run_view(r) == run_spec(verdicts(seen@)),
        r matches Err(e) ==> e.arguments@ == seq![witness] && e.return_value.is_none(),
{
    let ghost vs = verdicts(seen@);
    let arguments = vec![witness];
    assert(arguments@ =~= seq![witness]);
    let len = seen.len();
    if len > 0 {
        let last = &seen[len - 1];
        match last.status {
            Status::Pass => {},
            _ => {
                let e = TestResult { status: last.status, arguments, failure: copy_failure(&last.failure), return_value: None };
                proof {
                    assert(is_first_nonpass(vs, len - 1)) by {
                        assert forall|j: int| 0 <= j < len - 1 implies (#[trigger] vs[j]).status == Status::Pass by {
                            assert(seen@[j].status == Status::Pass);
                        }
                    }
                    lemma_first_nonpass(vs, len - 1);
                }
                return Err(e);
            },
        }
    }
    assert(all_pass(seen@)) by {
        assert forall|j: int| 0 <= j < seen@.len() implies (#[trigger] seen@[j]).status == Status::Pass by {
            if j == seen@.len() - 1 {
                assert(seen@[j] == seen@.last());
            }
        }
    }
    assert(!exists|k: int| is_first_nonpass(vs, k)) by {
        if exists|k: int| is_first_nonpass(vs, k) {
            let k = choose|k: int| is_first_nonpass(vs, k);
            assert(seen@[k].status == Status::Pass);
        }
    }
    let mut values: Vec<Vec<u8>> = Vec::new();
    let mut j: usize = 0;
    while j < len
        invariant
            len == seen@.len(),
            len == n,
            0 <= j <= len,
            vs == verdicts(seen@),
            all_pass(seen@),
            !exists|k: int| is_first_nonpass(vs, k),
            arguments@ == seq![witness],
            values@.len() == j,
            forall|k: int| 0 <= k < j ==> (#[trigger] vs[k]).value == Some(values@[k]@),
        decreases len - j,
    {
        match &seen[j].return_value {
            Some(v) => {
                values.push(v.clone());
                assert(vs[j as int].value == Some(v@));
            },
            None => {
                let e = TestResult {
                    status: Status::Fail,
                    arguments,
                    failure: Some(TestFailure::Runtime(String::from_str("Failed to extract return values: No return value available"))),
                    return_value: None,
                };
                assert(vs[j as int].value is None);
                return Err(e);
            },
        }
        j = j + 1;
    }
    proof {
        if exists|k: int| 0 <= k < vs.len() && (#[trigger] vs[k]).value is None {
            let k = choose|k: int| 0 <= k < vs.len() && (#[trigger] vs[k]).value is None;
            assert(vs[k].value == Some(values@[k]@));
        }
        assert(values_view(values) =~= vs.map_values(|v: VerdictView| v.value->0));
    }
    Ok(values)
}

/// The verdict of a run, given the comparator's answer on its values (none
/// when the run failed): the run's error as it is; a pass when the values
/// agree; a comparison failure when they do not; a failure of the run when
/// the comparator could not read them. A failure names `witness`.
pub fn judge(run: Result<Vec<Vec<u8>>, TestResult>, answer: Option<Result<bool, String>>, witness: String) -> (r: TestResult)
    requires
        run is Ok ==> answer is Some,
    ensures
        r@ == judge_view(
            run_view(run),
            match answer {
                Some(a) => answer_view(a),
                None => Ok(true),
            },
        ),
        match run {
            Err(e) => r == e,
            Ok(_) => if r.status == Status::Pass {
                r.arguments@.len() == 0
            } else {
                r.arguments@ == seq![witness]
            },
        },
{
    match run {
        Err(e) => e,
        Ok(_) => {
            let arguments = vec![witness];
            assert(arguments@ =~= seq![witness]);
            match answer {
                Some(Ok(true)) => TestResult::passed(),
                Some(Ok(false)) => TestResult {
                    status: Status::Fail,
                    arguments,
                    failure: Some(TestFailure::Comparison),
                    return_value: None,
                },
                Some(Err(e)) => {
                    let mut m = String::from_str("Failed to extract return values: ");
                    m.append(e.as_str());
                    TestResult { status: Status::Fail, arguments, failure: Some(TestFailure::Runtime(m)), return_value: None }
                },
                None => TestResult::failed(),
            }
        },
    }
}

/// Several implementations of one property, and a comparator over the
/// arguments and their encoded return values. The comparator answers whether
/// the values agree, or why it could not read them; its answer depends on the
/// values' contents alone.
pub struct CompositeProperty<P, F> where
    P: Testable,
    F: Fn(&P::Args, &Vec<Vec<u8>>) -> Result<bool, String>,
 {
    props: Vec<P>,
    comparison: F,
}

/// The comparator can be called on any values, and its answer is a
/// function of the arguments and of what the values hold.
pub open spec fn comparator_ok<A, F: Fn(&A, &Vec<Vec<u8>>) -> Result<bool, String>>(cmp: F) -> bool {
    &&& forall|a: &A, v: &Vec<Vec<u8>>| #[trigger] cmp.requires((a, v))
    &&& forall|a: &A, v1: &Vec<Vec<u8>>, v2: &Vec<Vec<u8>>, r1: Result<bool, String>, r2: Result<bool, String>|
        values_view(*v1) == values_view(*v2) && #[trigger] cmp.ensures((a, v1), r1) && #[trigger] cmp.ensures(
            (a, v2),
            r2,
        ) ==> answer_view(r1) == answer_view(r2)
}

impl<P, F> CompositeProperty<P, F> where P: Testable, F: Fn(&P::Args, &Vec<Vec<u8>>) -> Result<bool, String> {
    #[verifier::type_invariant]
    spec fn well_formed(&self) -> bool {
        comparator_ok::<P::Args, F>(self.comparison)
    }

    pub closed spec fn backends(&self) -> Seq<P> {
        self.props@
    }

    pub closed spec fn comparator(&self) -> F {
        self.comparison
    }

    /// The backends' verdicts on `args`, in order.
    pub open spec fn backend_verdicts(&self, args: P::Args) -> Seq<VerdictView> {
        self.backends().map_values(|p: P| p.verdict_of(args))
    }

    /// The comparator can answer `a` on values holding `vals`.
    pub open spec fn gives_answer(&self, args: P::Args, vals: Seq<Seq<u8>>, a: Result<bool, Seq<char>>) -> bool {
        exists|v: Vec<Vec<u8>>, res: Result<bool, String>|
            #[trigger] self.comparator().ensures((&args, &v), res) && values_view(v) == vals && answer_view(res) == a
    }

    /// The comparator's answer on values holding `vals`.
    pub open spec fn answer_on(&self, args: P::Args, vals: Seq<Seq<u8>>) -> Result<bool, Seq<char>> {
        choose|a: Result<bool, Seq<char>>| #[trigger] self.gives_answer(args, vals, a)
    }

    /// The composite verdict on `args`.
    pub open spec fn composite_verdict(&self, args: P::Args) -> VerdictView {
        let run = run_spec(self.backend_verdicts(args));
        judge_view(
            run,
            match run {
                Ok(vals) => self.answer_on(args, vals),
                Err(_) => Ok(true),
            },
        )
    }

    pub fn new(props: Vec<P>, comparison: F) -> (r: Self)
        requires
            comparator_ok::<P::Args, F>(comparison),
        ensures
            r.backends() == props@,
            r.comparator() == comparison,
    {
        CompositeProperty { props, comparison }
    }

    /// Runs the backends in order on `args`, stopping at the first that
    /// does not pass, and collects their return values.
    pub fn execute_properties(&self, args: &P::Args) -> (r: Result<Vec<Vec<u8>>, TestResult>)
        ensures
            run_view(r) == run_spec(self.backend_verdicts(*args)),
            r matches Err(e) ==> e.arguments@.len() == 1,
    {
        let ghost bv = self.backend_verdicts(*args);
        let n = self.props.len();
        let mut seen: Vec<TestResult> = Vec::new();
        let mut i: usize = 0;
        while i < n
            invariant
                n == self.props@.len(),
                bv == self.backend_verdicts(*args),
                0 <= i <= n,
                seen@.len() == i,
                all_pass(seen@),
                verdicts(seen@) =~= bv.take(i as int),
            decreases n - i,
        {
            let r = self.props[i].result(args);
            let stop = match r.status {
                Status::Pass => false,
                _ => true,
            };
            let ghost before = seen@;
            seen.push(r);
            assert(verdicts(seen@) =~= bv.take(i + 1));
            if stop {
                assert(passes_before_last(seen@)) by {
                    assert forall|k: int| 0 <= k < seen@.len() - 1 implies (#[trigger] seen@[k]).status
                        == Status::Pass by {
                        assert(seen@[k] == before[k]);
                    }
                }
                proof {
                    assert(is_first_nonpass(bv, i as int)) by {
                        assert forall|j: int| 0 <= j < i implies (#[trigger] bv[j]).status == Status::Pass by {
                            assert(bv[j] == verdicts(seen@)[j]);
                            assert(seen@[j] == before[j]);
                        }
                    }
                    assert(is_first_nonpass(verdicts(seen@), i as int));
                    lemma_first_nonpass(bv, i as int);
                    lemma_first_nonpass(verdicts(seen@), i as int);
                }
                return run_result(n, &seen, describe(args));
            }
            assert(all_pass(seen@)) by {
                assert forall|k: int| 0 <= k < seen@.len() implies (#[trigger] seen@[k]).status == Status::Pass by {
                    if k < i {
                        assert(seen@[k] == before[k]);
                    }
                }
            }
            i = i + 1;
        }
        assert(bv.take(n as int) =~= bv);
        run_result(n, &seen, describe(args))
    }

    /// Runs the backends, then compares their return values: a pass when the
    /// comparator accepts them, a comparison failure when it rejects them, a
    /// runtime failure when it cannot read them.
    pub fn verdict(&self, args: &P::Args) -> (r: TestResult)
        ensures
            r@ == self.composite_verdict(*args),
            r.status != Status::Pass ==> r.arguments@.len() == 1,
    {
        proof {
            use_type_invariant(self);
        }
        let run = self.execute_properties(args);
        let answer = match &run {
            Ok(vals) => Some((self.comparison)(args, vals)),
            Err(_) => None,
        };
        let ghost run_g = run;
        let ghost answer_g = answer;
        let r = judge(run, answer, describe(args));
        proof {
            if let Ok(vals) = run_g {
                let res = answer_g->0;
                assert(self.comparator().ensures((args, &vals), res));
                assert(self.gives_answer(*args, values_view(vals), answer_view(res)));
                let chosen = self.answer_on(*args, values_view(vals));
                assert(self.gives_answer(*args, values_view(vals), chosen));
                let (v2, res2) = choose|v: Vec<Vec<u8>>, res2: Result<bool, String>|
                    #[trigger] self.comparator().ensures((args, &v), res2) && values_view(v) == values_view(vals)
                        && answer_view(res2) == chosen;
                assert(answer_view(res2) == answer_view(res));
            }
        }
        r
    }
}

/// With every backend passing with one same value, and a comparator that
/// accepts identical values, the composite verdict is a pass: never a
/// comparison failure.
pub proof fn lemma_identical_results_agree<P, F>(c: &CompositeProperty<P, F>, args: P::Args, b: Seq<u8>)
    where P: Testable, F: Fn(&P::Args, &Vec<Vec<u8>>) -> Result<bool, String>
    requires
        forall|j: int| 0 <= j < c.backend_verdicts(args).len() ==> (#[trigger] c.backend_verdicts(args)[j]).status
            == Status::Pass && c.backend_verdicts(args)[j].value == Some(b),
        exists|v: Vec<Vec<u8>>, res: Result<bool, String>|
            values_view(v) == Seq::new(c.backends().len(), |j: int| b) && #[trigger] c.comparator().ensures((&args, &v), res),
        forall|a: &P::Args, v: &Vec<Vec<u8>>, res: Result<bool, String>|
            (forall|j: int| 0 <= j < v@.len() ==> (#[trigger] v@[j])@ == b) && #[trigger] c.comparator().ensures((a, v), res)
                ==> res == Ok::<bool, String>(true),
    ensures
        c.composite_verdict(args) == (VerdictView { status: Status::Pass, failure: None, value: None }),
        c.composite_verdict(args).failure != Some(FailureView::Comparison),
{
    let vs = c.backend_verdicts(args);
    lemma_all_pass_values(vs, b);
    let vals = Seq::new(vs.len(), |j: int| b);
    let (v0, res0) = choose|v: Vec<Vec<u8>>, res: Result<bool, String>|
        values_view(v) == vals && #[trigger] c.comparator().ensures((&args, &v), res);
    assert(c.gives_answer(args, vals, answer_view(res0)));
    let chosen = c.answer_on(args, vals);
    assert(c.gives_answer(args, vals, chosen));
    let (v, res) = choose|v: Vec<Vec<u8>>, res: Result<bool, String>|
        #[trigger] c.comparator().ensures((&args, &v), res) && values_view(v) == vals && answer_view(res) == chosen;
    assert forall|j: int| 0 <= j < v@.len() implies (#[trigger] v@[j])@ == b by {
        assert(values_view(v).len() == v@.len());
        assert(vals.len() == v@.len());
        assert(vals[j] == b);
        assert(values_view(v)[j] == v@[j]@);
    }
}

impl<P, F> Testable for CompositeProperty<P, F> where P: Testable, F: Fn(&P::Args, &Vec<Vec<u8>>) -> Result<bool, String> {
    type Args = P::Args;

    open spec fn verdict_of(&self, args: P::Args) -> VerdictView {
        self.composite_verdict(args)
    }

    fn result(&self, args: &P::Args) -> (r: TestResult) {
        self.verdict(args)
    }
}

} // verus!
